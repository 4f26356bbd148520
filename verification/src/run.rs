//! What is kept while commands run one after the other, and what is made of it in the end.

use crate::state::{law_changes_replay, ShellState, StateView};
use crate::types::{
    changes_view, extend_changes, plain_result, EnvChange, EnvChangeView, ExecuteResult, ResultView,
    CANCELLATION_EXIT_CODE,
};
use crate::words::{word_error_text, word_error_view, EvaluateWordTextError, WordErrorView};
use vstd::prelude::*;

verus! {

/// What came of a command that is done: its result, and the line that it writes to its error
/// stream where it failed on a word.
#[derive(Debug)]
pub struct Finished<H> {
    pub result: ExecuteResult<H>,
    pub error_line: Option<String>,
}

/// What a [`Finished`] says.
#[verifier::ext_equal]
pub struct FinishedView<H> {
    pub result: ResultView<H>,
    pub error_line: Option<Seq<char>>,
}

impl<H> View for Finished<H> {
    type V = FinishedView<H>;

    open spec fn view(&self) -> FinishedView<H> {
        FinishedView {
            result: self.result@,
            error_line: match self.error_line {
                Some(line) => Some(line@),
                None => None,
            },
        }
    }
}

/// A result without a line on the error stream.
pub open spec fn finished_with<H>(result: ResultView<H>) -> FinishedView<H> {
    FinishedView { result, error_line: None }
}

/// A command that wrote `line` to its error stream, and ends with `code`.
pub open spec fn refused<H>(line: Seq<char>, code: i32) -> FinishedView<H> {
    FinishedView { result: plain_result(code), error_line: Some(line) }
}

/// A command that failed on a word.
pub open spec fn failed_on_word<H>(e: WordErrorView) -> FinishedView<H> {
    refused(word_error_text(e), 1)
}

impl<H> Finished<H> {
    /// A result without a line on the error stream.
    pub fn with(result: ExecuteResult<H>) -> (r: Self)
        ensures
            r@ == finished_with(result@),
    {
        Finished { result, error_line: None }
    }

    /// A command that wrote `line` to its error stream, and ends with `code`.
    pub fn refusal(line: String, code: i32) -> (r: Self)
        ensures
            r@ == refused::<H>(line@, code),
    {
        Finished { result: ExecuteResult::from_exit_code(code), error_line: Some(line) }
    }

    /// A command that failed on a word.
    pub fn word_failure(err: EvaluateWordTextError) -> (r: Self)
        ensures
            r@ == failed_on_word::<H>(word_error_view(err)),
    {
        let (line, result) = err.into_exit_code();
        Finished { result, error_line: Some(line) }
    }
}

/// What is kept of the commands that ran: the changes of all, the exit code of the last, and
/// the tasks that they left running.
#[derive(Debug)]
pub struct Progress<H> {
    pub changes: Vec<EnvChange>,
    pub exit_code: i32,
    pub handles: Vec<H>,
}

/// What a [`Progress`] says.
#[verifier::ext_equal]
pub struct ProgressView<H> {
    pub changes: Seq<EnvChangeView>,
    pub code: i32,
    pub handles: Seq<H>,
}

impl<H> View for Progress<H> {
    type V = ProgressView<H>;

    open spec fn view(&self) -> ProgressView<H> {
        ProgressView {
            changes: changes_view(self.changes@),
            code: self.exit_code,
            handles: self.handles@,
        }
    }
}

/// Nothing ran.
pub open spec fn no_progress<H>() -> ProgressView<H> {
    ProgressView { changes: seq![], code: 0, handles: seq![] }
}

impl<H> ProgressView<H> {
    /// After one more command ran.
    pub open spec fn after(self, result: ResultView<H>) -> ProgressView<H> {
        ProgressView {
            changes: self.changes + result.changes,
            code: result.code,
            handles: self.handles + result.handles,
        }
    }

    /// After several more commands ran.
    pub open spec fn after_all(self, results: Seq<ResultView<H>>) -> ProgressView<H>
        decreases results.len(),
    {
        if results.len() == 0 {
            self
        } else {
            self.after_all(results.drop_last()).after(results.last())
        }
    }

    /// With more changes.
    pub open spec fn with_changes(self, changes: Seq<EnvChangeView>) -> ProgressView<H> {
        ProgressView { changes: self.changes + changes, ..self }
    }

    /// The result of commands that ran.
    pub open spec fn result(self, exits: bool) -> ResultView<H> {
        ResultView { exits, code: self.code, changes: self.changes, handles: self.handles }
    }

    /// How a loop or a `case` ends: its changes are made once more, and where the shell leaves on
    /// errors it stops on an exit code other than zero.
    pub open spec fn concluded(self, s: StateView) -> (StateView, FinishedView<H>) {
        let end = s.with_changes(self.changes);
        (end, finished_with(self.result(end.exit_on_error && self.code != 0)))
    }
}

impl<H> Progress<H> {
    /// Nothing ran.
    pub fn new() -> (r: Self)
        ensures
            r@ == no_progress::<H>(),
    {
        let r = Progress { changes: Vec::new(), exit_code: 0, handles: Vec::new() };
        assert(r@.changes == Seq::<EnvChangeView>::empty());
        r
    }

    /// Keeps what came of one more command; whether it stops the shell.
    pub fn absorb(&mut self, result: ExecuteResult<H>) -> (exits: bool)
        ensures
            final(self)@ == old(self)@.after(result@),
            exits == result@.exits,
    {
        let (exits, code, changes, more) = match result {
            ExecuteResult::Exit(code, changes, handles) => (true, code, changes, handles),
            ExecuteResult::Continue(code, changes, handles) => (false, code, changes, handles),
        };
        let mut handles = more;
        extend_changes(&mut self.changes, changes);
        self.exit_code = code;
        self.handles.append(&mut handles);
        exits
    }

    /// Keeps more changes.
    pub fn add_changes(&mut self, changes: Vec<EnvChange>)
        ensures
            final(self)@ == old(self)@.with_changes(changes_view(changes@)),
    {
        extend_changes(&mut self.changes, changes);
    }

    /// The result of commands that ran.
    pub fn into_result(self, exits: bool) -> (r: ExecuteResult<H>)
        ensures
            r@ == self@.result(exits),
    {
        if exits {
            ExecuteResult::Exit(self.exit_code, self.changes, self.handles)
        } else {
            ExecuteResult::Continue(self.exit_code, self.changes, self.handles)
        }
    }

    /// Ends a loop or a `case`.
    pub fn conclude(self, state: &mut ShellState) -> (r: Finished<H>)
        ensures
            (final(state)@, r@) == self@.concluded(old(state)@),
    {
        state.apply_changes(&self.changes);
        let exits = state.exit_on_error() && self.exit_code != 0;
        Finished::with(self.into_result(exits))
    }
}

/// The result of a command that ran after these changes.
pub open spec fn behind<H>(changes: Seq<EnvChangeView>, result: ResultView<H>) -> ResultView<H> {
    ResultView { changes: changes + result.changes, ..result }
}

/// Puts a result behind the changes that were made before it.
pub fn put_behind<H>(changes: Vec<EnvChange>, result: ExecuteResult<H>) -> (r: ExecuteResult<H>)
    ensures
        r@ == behind(changes_view(changes@), result@),
{
    let mut changes = changes;
    match result {
        ExecuteResult::Exit(code, more, handles) => {
            extend_changes(&mut changes, more);
            ExecuteResult::Exit(code, changes, handles)
        },
        ExecuteResult::Continue(code, more, handles) => {
            extend_changes(&mut changes, more);
            ExecuteResult::Continue(code, changes, handles)
        },
    }
}

/// The changes of several results, one after the other.
pub open spec fn all_changes<H>(results: Seq<ResultView<H>>) -> Seq<EnvChangeView>
    decreases results.len(),
{
    if results.len() == 0 {
        seq![]
    } else {
        all_changes(results.drop_last()) + results.last().changes
    }
}

/// The handles of several results, one after the other.
pub open spec fn all_handles<H>(results: Seq<ResultView<H>>) -> Seq<H>
    decreases results.len(),
{
    if results.len() == 0 {
        seq![]
    } else {
        all_handles(results.drop_last()) + results.last().handles
    }
}

/// The exit code of the last of several results; zero without one.
pub open spec fn last_code<H>(results: Seq<ResultView<H>>) -> i32 {
    if results.len() == 0 {
        0
    } else {
        results.last().code
    }
}

/// Nothing that a command leaves behind is lost: the changes and the handles of all that ran are
/// kept in order, and the exit code is that of the last.
pub proof fn law_progress_keeps_everything<H>(start: ProgressView<H>, results: Seq<ResultView<H>>)
    ensures
        start.after_all(results) == (ProgressView {
            changes: start.changes + all_changes(results),
            code: if results.len() == 0 {
                start.code
            } else {
                results.last().code
            },
            handles: start.handles + all_handles(results),
        }),
    decreases results.len(),
{
    if results.len() == 0 {
        assert(start.changes + all_changes(results) == start.changes);
        assert(start.handles + all_handles(results) == start.handles);
    } else {
        law_progress_keeps_everything(start, results.drop_last());
        let before = start.after_all(results.drop_last());
        assert(before.changes + results.last().changes == start.changes + all_changes(results));
        assert(before.handles + results.last().handles == start.handles + all_handles(results));
    }
}

/// Where the changes that were kept have been made already, the end of a loop makes none: it
/// leaves the state as it is.
pub proof fn law_conclusion_repeats_changes<H>(progress: ProgressView<H>, before: StateView)
    ensures
        ({
            let s = before.with_changes(progress.changes);
            progress.concluded(s) == (
                s,
                finished_with(progress.result(s.exit_on_error && progress.code != 0)),
            )
        }),
{
    law_changes_replay(before, progress.changes);
}

// ---------------------------------------------------------------------------
// Waiting for tasks

/// Whether the tasks that are left are cancelled: they are where the commands failed.
pub fn cancels_tasks(exit_code: i32) -> (r: bool)
    ensures
        r == (exit_code != 0),
{
    exit_code != 0
}

/// The exit code after one more task ended with `task_code`.
pub open spec fn code_after_task(exit_code: i32, task_code: i32) -> i32 {
    if (exit_code == 0 || exit_code == CANCELLATION_EXIT_CODE) && task_code != 0 {
        task_code
    } else {
        exit_code
    }
}

/// The exit code after several tasks ended.
pub open spec fn code_after_tasks(exit_code: i32, task_codes: Seq<i32>) -> i32
    decreases task_codes.len(),
{
    if task_codes.len() == 0 {
        exit_code
    } else {
        code_after_task(code_after_tasks(exit_code, task_codes.drop_last()), task_codes.last())
    }
}

/// The exit code after one more task ended.
pub fn task_ended(exit_code: i32, task_code: i32) -> (r: i32)
    ensures
        r == code_after_task(exit_code, task_code),
{
    if (exit_code == 0 || exit_code == CANCELLATION_EXIT_CODE) && task_code != 0 {
        task_code
    } else {
        exit_code
    }
}

/// Whether an exit code is that of a failure, and not of a cancellation.
pub open spec fn is_failure(code: i32) -> bool {
    code != 0 && code != CANCELLATION_EXIT_CODE
}

/// The first failure counts, whatever comes after it; without one, a cancellation counts; and
/// without that the exit code is zero.
pub proof fn law_first_failure_counts(exit_code: i32, task_codes: Seq<i32>)
    ensures
        ({
            let all = seq![exit_code] + task_codes;
            let code = code_after_tasks(exit_code, task_codes);
            &&& forall|i: int|
                0 <= i < all.len() && is_failure(#[trigger] all[i]) && (forall|j: int|
                    0 <= j < i ==> !is_failure(#[trigger] all[j])) ==> code == all[i]
            &&& (forall|i: int| 0 <= i < all.len() ==> !is_failure(#[trigger] all[i])) ==> code == (
            if all.contains(CANCELLATION_EXIT_CODE) {
                CANCELLATION_EXIT_CODE
            } else {
                0
            })
        }),
    decreases task_codes.len(),
{
    let all = seq![exit_code] + task_codes;
    let code = code_after_tasks(exit_code, task_codes);
    if task_codes.len() == 0 {
        assert(all.len() == 1 && all[0] == exit_code);
        if all.contains(CANCELLATION_EXIT_CODE) {
            assert(exit_code == CANCELLATION_EXIT_CODE);
        } else {
            assert(all[0] != CANCELLATION_EXIT_CODE);
        }
    } else {
        let less = task_codes.drop_last();
        law_first_failure_counts(exit_code, less);
        let before = seq![exit_code] + less;
        let old_code = code_after_tasks(exit_code, less);
        let n = before.len() as int;
        assert(all == before.push(task_codes.last()));
        assert(all[n] == task_codes.last());
        assert forall|i: int|
            0 <= i < all.len() && is_failure(#[trigger] all[i]) && (forall|j: int|
                0 <= j < i ==> !is_failure(#[trigger] all[j])) implies code == all[i] by {
            if i < n {
                assert(before[i] == all[i]);
                assert forall|j: int| 0 <= j < i implies !is_failure(#[trigger] before[j]) by {
                    assert(before[j] == all[j]);
                }
                assert(old_code == all[i]);
            } else {
                assert forall|j: int| 0 <= j < n implies !is_failure(#[trigger] before[j]) by {
                    assert(before[j] == all[j]);
                }
            }
        }
        if forall|i: int| 0 <= i < all.len() ==> !is_failure(#[trigger] all[i]) {
            assert forall|j: int| 0 <= j < n implies !is_failure(#[trigger] before[j]) by {
                assert(before[j] == all[j]);
            }
            if before.contains(CANCELLATION_EXIT_CODE) {
                let k = choose|k: int| 0 <= k < before.len() && before[k] == CANCELLATION_EXIT_CODE;
                assert(all[k] == CANCELLATION_EXIT_CODE);
                assert(all.contains(CANCELLATION_EXIT_CODE));
            } else if all.contains(CANCELLATION_EXIT_CODE) {
                let k = choose|k: int| 0 <= k < all.len() && all[k] == CANCELLATION_EXIT_CODE;
                if k < n {
                    assert(before[k] == CANCELLATION_EXIT_CODE);
                }
                assert(k == n);
            } else {
                assert(all[n] != CANCELLATION_EXIT_CODE);
            }
            assert(!is_failure(all[n]));
        }
    }
}

/// What several results leave behind is what the first ones and then the others leave behind; one
/// result leaves its own changes and handles, and none leaves nothing.
pub proof fn law_results_add_up<H>(
    first: Seq<ResultView<H>>,
    others: Seq<ResultView<H>>,
    one: ResultView<H>,
)
    ensures
        all_changes(first + others) == all_changes(first) + all_changes(others),
        all_handles(first + others) == all_handles(first) + all_handles(others),
        all_changes(seq![one]) == one.changes,
        all_handles(seq![one]) == one.handles,
        all_changes(Seq::<ResultView<H>>::empty()).len() == 0,
        all_handles(Seq::<ResultView<H>>::empty()).len() == 0,
        last_code::<H>(seq![]) == 0,
        last_code(first.push(one)) == one.code,
    decreases others.len(),
{
    let single = seq![one];
    assert(single.drop_last() == Seq::<ResultView<H>>::empty());
    assert(all_changes(single.drop_last()) + one.changes == one.changes);
    assert(all_handles(single.drop_last()) + one.handles == one.handles);
    if others.len() == 0 {
        assert(first + others == first);
        assert(all_changes(first) + all_changes(others) == all_changes(first));
        assert(all_handles(first) + all_handles(others) == all_handles(first));
    } else {
        law_results_add_up(first, others.drop_last(), one);
        assert((first + others).drop_last() == first + others.drop_last());
        assert((first + others).last() == others.last());
        assert(all_changes(first + others) == all_changes(first) + all_changes(others));
        assert(all_handles(first + others) == all_handles(first) + all_handles(others));
    }
}

/// A loop or a `case` ends with what was kept of its commands and reports nothing. It stops the shell
/// exactly where it ends with a code other than zero in a state that leaves on errors.
pub proof fn law_conclusion_stops_on_failure<H>(progress: ProgressView<H>, s: StateView)
    ensures
        ({
            let (end, done) = progress.concluded(s);
            &&& end == s.with_changes(progress.changes)
            &&& done.error_line is None
            &&& done.result.code == progress.code
            &&& done.result.changes == progress.changes
            &&& done.result.handles == progress.handles
            &&& done.result.exits <==> end.exit_on_error && progress.code != 0
        }),
{
}

/// After one more command, its changes and handles stand behind the others and its exit code counts; at
/// the start there is nothing and the exit code is zero.
pub proof fn law_one_more_command<H>(
    progress: ProgressView<H>,
    result: ResultView<H>,
    changes: Seq<EnvChangeView>,
    exits: bool,
)
    ensures
        no_progress::<H>().code == 0,
        no_progress::<H>().changes.len() == 0,
        no_progress::<H>().handles.len() == 0,
        progress.after(result).code == result.code,
        progress.after(result).changes == progress.changes + result.changes,
        progress.after(result).handles == progress.handles + result.handles,
        progress.with_changes(changes).changes == progress.changes + changes,
        progress.with_changes(changes).code == progress.code,
        progress.with_changes(changes).handles == progress.handles,
        progress.result(exits) == (ResultView {
            exits,
            code: progress.code,
            changes: progress.changes,
            handles: progress.handles,
        }),
        behind(changes, result).changes == changes + result.changes,
        behind(changes, result).code == result.code,
        behind(changes, result).exits == result.exits,
        behind(changes, result).handles == result.handles,
{
}

/// A command that is refused writes its line, ends with the code it is refused with, and neither stops
/// the shell nor leaves anything behind; on a word that failed, the code is one and the line is the
/// text of the error. A result on its own writes nothing.
pub proof fn law_refusals_leave_nothing_behind<H>(
    line: Seq<char>,
    code: i32,
    error: WordErrorView,
    result: ResultView<H>,
)
    ensures
        ({
            let r = refused::<H>(line, code);
            &&& r.error_line == Some(line)
            &&& r.result.code == code && !r.result.exits
            &&& r.result.changes.len() == 0 && r.result.handles.len() == 0
        }),
        ({
            let r = failed_on_word::<H>(error);
            &&& r.error_line == Some(word_error_text(error))
            &&& r.result.code == 1 && !r.result.exits
            &&& r.result.changes.len() == 0 && r.result.handles.len() == 0
        }),
        finished_with(result).result == result,
        finished_with(result).error_line is None,
{
}

/// A task changes the exit code exactly where the task failed and the commands before it had succeeded
/// or were cancelled, which is the code 130.
pub proof fn law_task_counts_after_success(exit_code: i32, task_code: i32)
    ensures
        task_code == 0 ==> code_after_task(exit_code, task_code) == exit_code,
        task_code != 0 && (exit_code == 0 || exit_code == 130) ==> code_after_task(
            exit_code,
            task_code,
        ) == task_code,
        exit_code != 0 && exit_code != 130 ==> code_after_task(exit_code, task_code) == exit_code,
{
}

} // verus!
