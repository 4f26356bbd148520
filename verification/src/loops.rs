//! `while`, `until` and `for`.

use crate::condition::{condition_outcome, ConditionView, ConditionalResult};
use crate::list::AsyncCommandBehavior;
use crate::run::{
    all_handles, failed_on_word, finished_with, last_code, no_progress, Finished, FinishedView,
    Progress, ProgressView,
};
use crate::state::{law_changes_compose, law_changes_replay, ShellState, StateView};
use crate::syntax::{Condition, ForLoop, SequentialList, WhileLoop, Word};
use crate::text::texts;
use crate::types::{EnvChange, EnvChangeView, ExecuteResult, ResultView};
use crate::words::{
    word_outcome, EvaluateWordTextError, WordErrorView, WordPartsResult, WordPartsView,
};
use std::rc::Rc;
use vstd::prelude::*;

verus! {

// ---------------------------------------------------------------------------
// `while` and `until`

/// How far a `while` loop has come.
#[verifier::ext_equal]
pub struct WhileView<H> {
    pub clause: WhileLoop,
    pub progress: ProgressView<H>,
}

/// What a `while` loop does next.
#[verifier::ext_equal]
pub enum WhileStepView<H> {
    Condition(Condition, WhileView<H>),
    Body(SequentialList, AsyncCommandBehavior, WhileView<H>),
    Done(FinishedView<H>),
}

/// How a `while` loop starts.
pub open spec fn while_start<H>(clause: WhileLoop) -> WhileStepView<H> {
    WhileView { clause, progress: no_progress() }.again()
}

impl<H> WhileView<H> {
    /// The loop asks its condition.
    pub open spec fn again(self) -> WhileStepView<H> {
        WhileStepView::Condition(*self.clause.condition, self)
    }

    /// How the loop goes on with its condition, and the state that it leads to.
    pub open spec fn after_condition(
        self,
        outcome: Result<ConditionView, WordErrorView>,
        s: StateView,
    ) -> (StateView, WhileStepView<H>) {
        match outcome {
            Err(e) => (s, WhileStepView::Done(failed_on_word(e))),
            Ok(condition) => {
                let progress = self.progress.with_changes(condition.changes);
                let asked = s.with_changes(condition.changes);
                if condition.value != self.clause.is_until {
                    (
                        asked,
                        WhileStepView::Body(
                            *self.clause.body,
                            AsyncCommandBehavior::Yield,
                            WhileView { progress, ..self },
                        ),
                    )
                } else {
                    let (end, finished) = progress.concluded(asked);
                    (end, WhileStepView::Done(finished))
                }
            },
        }
    }

    /// How the loop goes on after its body, and the state that it leads to.
    pub open spec fn after_body(self, result: ResultView<H>, s: StateView) -> (
        StateView,
        WhileStepView<H>,
    ) {
        let progress = self.progress.after(result);
        let ran = s.with_changes(result.changes);
        if result.exits {
            let (end, finished) = progress.concluded(ran);
            (end, WhileStepView::Done(finished))
        } else {
            (ran, WhileView { progress, ..self }.again())
        }
    }
}

/// A `while` loop that is running.
#[derive(Debug)]
pub struct WhileRun<H> {
    clause: Rc<WhileLoop>,
    progress: Progress<H>,
}

impl<H> View for WhileRun<H> {
    type V = WhileView<H>;

    closed spec fn view(&self) -> WhileView<H> {
        WhileView { clause: *self.clause, progress: self.progress@ }
    }
}

/// What a `while` loop needs next, or what it came to.
#[derive(Debug)]
pub enum WhileStep<H> {
    /// Whether the condition holds.
    Condition(Rc<Condition>, WhileRun<H>),
    /// The result of the body.
    Body(Rc<SequentialList>, AsyncCommandBehavior, WhileRun<H>),
    Done(Finished<H>),
}

impl<H> View for WhileStep<H> {
    type V = WhileStepView<H>;

    open spec fn view(&self) -> WhileStepView<H> {
        match self {
            WhileStep::Condition(condition, run) => WhileStepView::Condition(**condition, run@),
            WhileStep::Body(body, behavior, run) => WhileStepView::Body(**body, *behavior, run@),
            WhileStep::Done(finished) => WhileStepView::Done(finished@),
        }
    }
}

/// Starts a `while` loop.
pub fn execute_while_clause<H>(clause: Rc<WhileLoop>) -> (r: WhileStep<H>)
    ensures
        r@ == while_start::<H>(*clause),
{
    WhileRun { clause, progress: Progress::new() }.again()
}

impl<H> WhileRun<H> {
    fn again(self) -> (r: WhileStep<H>)
        ensures
            r@ == self@.again(),
    {
        WhileStep::Condition(self.clause.condition.clone(), self)
    }

    /// Goes on with the condition.
    pub fn on_condition(
        self,
        outcome: Result<ConditionalResult, EvaluateWordTextError>,
        state: &mut ShellState,
    ) -> (r: WhileStep<H>)
        ensures
            (final(state)@, r@) == self@.after_condition(condition_outcome(outcome), old(state)@),
    {
        let mut run = self;
        let condition = match outcome {
            Err(err) => return WhileStep::Done(Finished::word_failure(err)),
            Ok(condition) => condition,
        };
        state.apply_changes(&condition.changes);
        run.progress.add_changes(condition.changes);
        let runs = if run.clause.is_until {
            !condition.value
        } else {
            condition.value
        };
        if runs {
            WhileStep::Body(run.clause.body.clone(), AsyncCommandBehavior::Yield, run)
        } else {
            WhileStep::Done(run.progress.conclude(state))
        }
    }

    /// Goes on after the body.
    pub fn on_body(self, result: ExecuteResult<H>, state: &mut ShellState) -> (r: WhileStep<H>)
        ensures
            (final(state)@, r@) == self@.after_body(result@, old(state)@),
    {
        let mut run = self;
        match &result {
            ExecuteResult::Exit(_, changes, _) => state.apply_changes(changes),
            ExecuteResult::Continue(_, changes, _) => state.apply_changes(changes),
        }
        if run.progress.absorb(result) {
            WhileStep::Done(run.progress.conclude(state))
        } else {
            run.again()
        }
    }
}

// ---------------------------------------------------------------------------
// `for`

/// How far a `for` loop has come.
#[verifier::ext_equal]
pub struct ForView<H> {
    pub clause: ForLoop,
    /// The words that are still to come.
    pub rest: Seq<Seq<char>>,
    pub progress: ProgressView<H>,
}

/// What a `for` loop does next.
#[verifier::ext_equal]
pub enum ForStepView<H> {
    Body(SequentialList, AsyncCommandBehavior, ForView<H>),
    Done(FinishedView<H>),
}

/// How a `for` loop goes on with the words of its list, and the state that it leads to.
pub open spec fn for_words<H>(
    clause: ForLoop,
    outcome: Result<WordPartsView, WordErrorView>,
    s: StateView,
) -> (StateView, ForStepView<H>) {
    match outcome {
        Err(e) => (s, ForStepView::Done(failed_on_word(e))),
        Ok(words) => ForView { clause, rest: words.value, progress: no_progress() }.advanced(s),
    }
}

impl<H> ForView<H> {
    /// How the loop goes on with its next word, and the state that it leads to.
    pub open spec fn advanced(self, s: StateView) -> (StateView, ForStepView<H>) {
        if self.rest.len() > 0 {
            (
                s.with_change(EnvChangeView::SetShellVar(self.clause.var_name@, self.rest[0])),
                ForStepView::Body(
                    *self.clause.body,
                    AsyncCommandBehavior::Yield,
                    ForView { rest: self.rest.skip(1), ..self },
                ),
            )
        } else {
            self.ended(s)
        }
    }

    /// How the loop ends.
    pub open spec fn ended(self, s: StateView) -> (StateView, ForStepView<H>) {
        let (end, finished) = self.progress.concluded(s);
        (end, ForStepView::Done(finished))
    }

    /// How the loop goes on after its body, and the state that it leads to.
    pub open spec fn after_body(self, result: ResultView<H>, s: StateView) -> (
        StateView,
        ForStepView<H>,
    ) {
        let after = ForView { progress: self.progress.after(result), ..self };
        if result.exits {
            after.ended(s)
        } else {
            after.advanced(s)
        }
    }
}

/// A `for` loop that waits for the words of its list.
#[derive(Debug)]
pub struct ForStart {
    clause: Rc<ForLoop>,
}

impl View for ForStart {
    type V = ForLoop;

    closed spec fn view(&self) -> ForLoop {
        *self.clause
    }
}

/// A `for` loop that is running.
#[derive(Debug)]
pub struct ForRun<H> {
    clause: Rc<ForLoop>,
    words: Vec<String>,
    progress: Progress<H>,
}

impl<H> View for ForRun<H> {
    type V = ForView<H>;

    closed spec fn view(&self) -> ForView<H> {
        ForView { clause: *self.clause, rest: texts(self.words@), progress: self.progress@ }
    }
}

/// What a `for` loop needs next, or what it came to.
#[derive(Debug)]
pub enum ForStep<H> {
    /// The result of the body.
    Body(Rc<SequentialList>, AsyncCommandBehavior, ForRun<H>),
    Done(Finished<H>),
}

impl<H> View for ForStep<H> {
    type V = ForStepView<H>;

    open spec fn view(&self) -> ForStepView<H> {
        match self {
            ForStep::Body(body, behavior, run) => ForStepView::Body(**body, *behavior, run@),
            ForStep::Done(finished) => ForStepView::Done(finished@),
        }
    }
}

/// Starts a `for` loop: the words of its list are evaluated as arguments.
pub fn execute_for_clause(clause: Rc<ForLoop>) -> (r: (Rc<Vec<Word>>, ForStart))
    ensures
        r.0 == clause.wordlist,
        r.1@ == *clause,
{
    (clause.wordlist.clone(), ForStart { clause })
}

impl ForStart {
    /// Goes on with the words of the list.
    pub fn on_words<H>(
        self,
        outcome: Result<WordPartsResult, EvaluateWordTextError>,
        state: &mut ShellState,
    ) -> (r: ForStep<H>)
        ensures
            (final(state)@, r@) == for_words::<H>(self@, word_outcome(outcome), old(state)@),
    {
        match outcome {
            Err(err) => ForStep::Done(Finished::word_failure(err)),
            Ok(words) => ForRun {
                clause: self.clause,
                words: words.value,
                progress: Progress::new(),
            }.advance(state),
        }
    }
}

impl<H> ForRun<H> {
    fn advance(self, state: &mut ShellState) -> (r: ForStep<H>)
        ensures
            (final(state)@, r@) == self@.advanced(old(state)@),
    {
        let mut run = self;
        if run.words.len() > 0 {
            let word = run.words.remove(0);
            assert(texts(self.words@)[0] == word@);
            assert(texts(self.words@.remove(0)) == texts(self.words@).skip(1));
            let change = EnvChange::SetShellVar(run.clause.var_name.clone(), word);
            state.apply_change(&change);
            ForStep::Body(run.clause.body.clone(), AsyncCommandBehavior::Yield, run)
        } else {
            ForStep::Done(run.progress.conclude(state))
        }
    }

    /// Goes on after the body.
    pub fn on_body(self, result: ExecuteResult<H>, state: &mut ShellState) -> (r: ForStep<H>)
        ensures
            (final(state)@, r@) == self@.after_body(result@, old(state)@),
    {
        let mut run = self;
        if run.progress.absorb(result) {
            ForStep::Done(run.progress.conclude(state))
        } else {
            run.advance(state)
        }
    }
}

// ---------------------------------------------------------------------------
// Laws

/// The body of a `while` loop runs exactly where the condition holds, and that of an `until` loop
/// exactly where it does not.
pub proof fn law_until_inverts_while<H>(w: WhileView<H>, condition: ConditionView, s: StateView)
    ensures
        (w.after_condition(Ok(condition), s).1 is Body) == (condition.value != w.clause.is_until),
        ({
            let other = WhileView {
                clause: WhileLoop { is_until: !w.clause.is_until, ..w.clause },
                ..w
            };
            let negated = ConditionView { value: !condition.value, ..condition };
            let (end, step) = w.after_condition(Ok(condition), s);
            let (other_end, other_step) = other.after_condition(Ok(negated), s);
            &&& end == other_end
            &&& (step is Body) == (other_step is Body)
            &&& step is Done ==> step == other_step
        }),
{
}

/// What a step of a `while` loop has kept.
pub open spec fn kept_changes<H>(step: WhileStepView<H>) -> Seq<EnvChangeView> {
    match step {
        WhileStepView::Condition(_, w) => w.progress.changes,
        WhileStepView::Body(_, _, w) => w.progress.changes,
        WhileStepView::Done(finished) => finished.result.changes,
    }
}

/// While a `while` loop runs, the state is the one before the loop with the changes that the loop
/// hands on in the end: each change is seen by what comes after it, and none is lost.
pub proof fn law_while_state_follows_changes<H>(
    w: WhileView<H>,
    before: StateView,
    condition: ConditionView,
    result: ResultView<H>,
)
    ensures
        ({
            let s = before.with_changes(w.progress.changes);
            let (asked, step) = w.after_condition(Ok(condition), s);
            let (ran, next) = w.after_body(result, s);
            &&& asked == before.with_changes(kept_changes(step))
            &&& ran == before.with_changes(kept_changes(next))
        }),
{
    let s = before.with_changes(w.progress.changes);
    law_changes_compose(before, w.progress.changes, condition.changes);
    law_changes_compose(before, w.progress.changes, result.changes);
    law_changes_replay(before, w.progress.changes + condition.changes);
    law_changes_replay(before, w.progress.changes + result.changes);
}

/// The answer to the condition of a `while` loop, and the state that its evaluation left.
#[verifier::ext_equal]
pub struct Asked {
    pub state: StateView,
    pub condition: ConditionView,
}

/// A `while` loop that runs on with the answers to its condition and the results of its body, which
/// come in turn, as far as they are given.
pub open spec fn while_driven<H>(
    at: (StateView, WhileStepView<H>),
    asked: Seq<Asked>,
    results: Seq<ResultView<H>>,
) -> (StateView, WhileStepView<H>)
    decreases asked.len() + results.len(),
{
    if asked.len() > results.len() {
        let (s, step) = while_driven(at, asked.drop_last(), results);
        match step {
            WhileStepView::Condition(_, run) => run.after_condition(
                Ok(asked.last().condition),
                asked.last().state,
            ),
            _ => (s, step),
        }
    } else if results.len() > 0 {
        let (s, step) = while_driven(at, asked, results.drop_last());
        match step {
            WhileStepView::Body(_, _, run) => run.after_body(results.last(), s),
            _ => (s, step),
        }
    } else {
        at
    }
}

/// The changes of conditions and bodies, in turn.
pub open spec fn loop_changes<H>(asked: Seq<Asked>, results: Seq<ResultView<H>>) -> Seq<EnvChangeView>
    decreases asked.len() + results.len(),
{
    if asked.len() > results.len() {
        loop_changes(asked.drop_last(), results) + asked.last().condition.changes
    } else if results.len() > 0 {
        loop_changes(asked, results.drop_last()) + results.last().changes
    } else {
        seq![]
    }
}

/// What a `while` loop keeps: the changes of conditions and bodies in turn, the exit code of the last
/// body, zero without one, and the handles of all bodies.
pub open spec fn loop_kept<H>(asked: Seq<Asked>, results: Seq<ResultView<H>>) -> ProgressView<H> {
    ProgressView {
        changes: loop_changes(asked, results),
        code: last_code(results),
        handles: all_handles(results),
    }
}

/// The state after the last answer, and the body that it let run where there is one.
pub open spec fn loop_state<H>(s: StateView, asked: Seq<Asked>, results: Seq<ResultView<H>>) -> StateView {
    if asked.len() == 0 {
        s
    } else {
        let answered = asked.last().state.with_changes(asked.last().condition.changes);
        if asked.len() > results.len() {
            answered
        } else {
            answered.with_changes(results.last().changes)
        }
    }
}

/// As long as each answer lets the body of a `while` loop run, which is one other than `is_until`,
/// and no body stops the shell, the loop goes on: after each answer the body runs once, and after
/// each body the condition is asked again.
pub proof fn law_while_goes_on<H>(
    clause: WhileLoop,
    s: StateView,
    asked: Seq<Asked>,
    results: Seq<ResultView<H>>,
)
    requires
        asked.len() == results.len() || asked.len() == results.len() + 1,
        forall|i: int|
            0 <= i < asked.len() ==> (#[trigger] asked[i]).condition.value != clause.is_until,
        forall|i: int| 0 <= i < results.len() ==> !(#[trigger] results[i]).exits,
    ensures
        ({
            let w = WhileView { clause, progress: loop_kept(asked, results) };
            while_driven((s, while_start(clause)), asked, results) == (
                loop_state(s, asked, results),
                if asked.len() == results.len() {
                    WhileStepView::Condition(*clause.condition, w)
                } else {
                    WhileStepView::Body(*clause.body, AsyncCommandBehavior::Yield, w)
                },
            )
        }),
    decreases asked.len() + results.len(),
{
    if asked.len() > results.len() {
        let less = asked.drop_last();
        assert forall|i: int| 0 <= i < less.len() implies (#[trigger] less[i]).condition.value
            != clause.is_until by {
            assert(less[i] == asked[i]);
        }
        law_while_goes_on(clause, s, less, results);
        assert(asked[asked.len() - 1].condition.value != clause.is_until);
    } else if results.len() > 0 {
        let less = results.drop_last();
        assert forall|i: int| 0 <= i < less.len() implies !(#[trigger] less[i]).exits by {
            assert(less[i] == results[i]);
        }
        law_while_goes_on(clause, s, asked, less);
        assert(!results[results.len() - 1].exits);
    } else {
        assert(loop_kept(asked, results) == no_progress::<H>());
    }
}

/// How a `while` loop ends: with the changes of conditions and bodies in turn, the handles of all
/// bodies, and the exit code of the last body, zero without one; it stops the shell exactly where the
/// shell leaves on errors in the end and the exit code is not zero.
pub open spec fn while_ended<H>(
    at: (StateView, WhileStepView<H>),
    s: StateView,
    asked: Seq<Asked>,
    results: Seq<ResultView<H>>,
) -> bool {
    let end = loop_state(s, asked, results).with_changes(loop_changes(asked, results));
    at == (
        end,
        WhileStepView::Done(
            finished_with(
                ResultView {
                    exits: end.exit_on_error && last_code(results) != 0,
                    code: last_code(results),
                    changes: loop_changes(asked, results),
                    handles: all_handles(results),
                },
            ),
        ),
    )
}

/// A `while` loop ends at the first answer that is `is_until`; its body has run once for each answer
/// before that.
pub proof fn law_while_ends_on_its_condition<H>(
    clause: WhileLoop,
    s: StateView,
    asked: Seq<Asked>,
    results: Seq<ResultView<H>>,
)
    requires
        asked.len() == results.len() + 1,
        forall|i: int|
            0 <= i < results.len() ==> (#[trigger] asked[i]).condition.value != clause.is_until,
        asked.last().condition.value == clause.is_until,
        forall|i: int| 0 <= i < results.len() ==> !(#[trigger] results[i]).exits,
    ensures
        while_ended(
            while_driven((s, while_start(clause)), asked, results),
            s,
            asked,
            results,
        ),
{
    let less = asked.drop_last();
    assert forall|i: int| 0 <= i < less.len() implies (#[trigger] less[i]).condition.value
        != clause.is_until by {
        assert(less[i] == asked[i]);
    }
    law_while_goes_on(clause, s, less, results);
}

/// A `while` loop ends at the first body that stops the shell.
pub proof fn law_while_ends_on_exit<H>(
    clause: WhileLoop,
    s: StateView,
    asked: Seq<Asked>,
    results: Seq<ResultView<H>>,
)
    requires
        asked.len() == results.len() > 0,
        forall|i: int|
            0 <= i < asked.len() ==> (#[trigger] asked[i]).condition.value != clause.is_until,
        results.last().exits,
        forall|i: int| 0 <= i < results.len() - 1 ==> !(#[trigger] results[i]).exits,
    ensures
        while_ended(
            while_driven((s, while_start(clause)), asked, results),
            s,
            asked,
            results,
        ),
{
    let less = results.drop_last();
    assert forall|i: int| 0 <= i < less.len() implies !(#[trigger] less[i]).exits by {
        assert(less[i] == results[i]);
    }
    law_while_goes_on(clause, s, asked, less);
}

/// A `for` loop that runs on with the results of its body, as far as they are given.
pub open spec fn for_driven<H>(at: (StateView, ForStepView<H>), results: Seq<ResultView<H>>) -> (
    StateView,
    ForStepView<H>,
)
    decreases results.len(),
{
    if results.len() == 0 {
        at
    } else {
        let (s, step) = for_driven(at, results.drop_last());
        match step {
            ForStepView::Body(_, _, run) => run.after_body(results.last(), s),
            ForStepView::Done(_) => (s, step),
        }
    }
}

/// The state after the variable was set to several words in turn.
pub open spec fn after_assignments(s: StateView, name: Seq<char>, words: Seq<Seq<char>>) -> StateView
    decreases words.len(),
{
    if words.len() == 0 {
        s
    } else {
        after_assignments(s, name, words.drop_last()).with_change(
            EnvChangeView::SetShellVar(name, words.last()),
        )
    }
}

/// The body of a `for` loop runs once for each word, in order, with the variable set to it; the
/// changes and handles of all runs are kept.
pub proof fn law_for_runs_each_word<H>(
    clause: ForLoop,
    words: WordPartsView,
    s: StateView,
    results: Seq<ResultView<H>>,
)
    requires
        results.len() < words.value.len(),
        forall|k: int| 0 <= k < results.len() ==> !(#[trigger] results[k]).exits,
    ensures
        for_driven(for_words(clause, Ok(words), s), results) == (
            after_assignments(s, clause.var_name@, words.value.take(results.len() as int + 1)),
            ForStepView::Body(
                *clause.body,
                AsyncCommandBehavior::Yield,
                ForView {
                    clause,
                    rest: words.value.skip(results.len() as int + 1),
                    progress: no_progress::<H>().after_all(results),
                },
            ),
        ),
    decreases results.len(),
{
    let n = results.len() as int;
    let taken = words.value.take(n + 1);
    assert(taken.drop_last() == words.value.take(n));
    assert(taken.last() == words.value[n]);
    if n == 0 {
        assert(words.value.take(0).len() == 0);
        assert(after_assignments(s, clause.var_name@, words.value.take(0)) == s);
    } else {
        let less = results.drop_last();
        assert forall|k: int| 0 <= k < less.len() implies !(#[trigger] less[k]).exits by {
            assert(less[k] == results[k]);
        }
        law_for_runs_each_word(clause, words, s, less);
        assert(!results[n - 1].exits);
        assert(words.value.skip(n).skip(1) == words.value.skip(n + 1));
        assert(words.value.skip(n)[0] == words.value[n]);
    }
}

/// A `for` loop ends at the first body that stops the shell, with the exit code of that body, and the
/// changes and handles of all runs up to there.
pub proof fn law_for_ends_on_exit<H>(
    clause: ForLoop,
    words: WordPartsView,
    s: StateView,
    results: Seq<ResultView<H>>,
)
    requires
        0 < results.len() <= words.value.len(),
        results.last().exits,
        forall|k: int| 0 <= k < results.len() - 1 ==> !(#[trigger] results[k]).exits,
    ensures
        ({
            let (end, finished) = no_progress::<H>().after_all(results).concluded(
                after_assignments(
                    s,
                    clause.var_name@,
                    words.value.take(results.len() as int),
                ),
            );
            for_driven(for_words(clause, Ok(words), s), results) == (
                end,
                ForStepView::Done(finished),
            )
        }),
{
    let less = results.drop_last();
    assert forall|k: int| 0 <= k < less.len() implies !(#[trigger] less[k]).exits by {
        assert(less[k] == results[k]);
    }
    law_for_runs_each_word(clause, words, s, less);
}

/// After its last word a `for` loop ends with the exit code of the last run, and the changes and
/// handles of all runs; without a word it ends with zero.
pub proof fn law_for_ends_after_the_last_word<H>(
    clause: ForLoop,
    words: WordPartsView,
    s: StateView,
    results: Seq<ResultView<H>>,
)
    requires
        results.len() == words.value.len(),
        forall|k: int| 0 <= k < results.len() ==> !(#[trigger] results[k]).exits,
    ensures
        ({
            let (end, finished) = no_progress::<H>().after_all(results).concluded(
                after_assignments(s, clause.var_name@, words.value),
            );
            for_driven(for_words(clause, Ok(words), s), results) == (
                end,
                ForStepView::Done(finished),
            )
        }),
{
    let n = results.len() as int;
    if n > 0 {
        let less = results.drop_last();
        assert forall|k: int| 0 <= k < less.len() implies !(#[trigger] less[k]).exits by {
            assert(less[k] == results[k]);
        }
        law_for_runs_each_word(clause, words, s, less);
        assert(!results[n - 1].exits);
        assert(words.value.take(n) == words.value);
        assert(words.value.skip(n).len() == 0);
    }
}

/// A `while` loop asks its condition first. It runs its body exactly where the condition holds, and an
/// `until` loop exactly where it does not; else the loop ends, with what was kept. Its background
/// commands are handed on, and a condition that fails ends it with exit code one.
pub proof fn law_while_asks_before_each_turn<H>(
    clause: WhileLoop,
    progress: ProgressView<H>,
    condition: ConditionView,
    error: WordErrorView,
    s: StateView,
)
    ensures
        while_start::<H>(clause) == WhileStepView::Condition(
            *clause.condition,
            WhileView {
                clause,
                progress: ProgressView::<H> { changes: seq![], code: 0, handles: seq![] },
            },
        ),
        ({
            let (end, step) = WhileView { clause, progress }.after_condition(Ok(condition), s);
            let asked = s.with_changes(condition.changes);
            let changes = progress.changes + condition.changes;
            let runs = if clause.is_until {
                !condition.value
            } else {
                condition.value
            };
            &&& runs ==> end == asked && step == WhileStepView::Body(
                *clause.body,
                AsyncCommandBehavior::Yield,
                WhileView { clause, progress: ProgressView { changes, ..progress } },
            )
            &&& !runs ==> end == asked.with_changes(changes) && step == WhileStepView::Done(
                FinishedView {
                    result: ResultView {
                        exits: end.exit_on_error && progress.code != 0,
                        code: progress.code,
                        changes,
                        handles: progress.handles,
                    },
                    error_line: None,
                },
            )
        }),
        ({
            let (end, step) = WhileView { clause, progress }.after_condition(Err(error), s);
            &&& end == s
            &&& step matches WhileStepView::Done(done) && done.result.code == 1
                && !done.result.exits && done.result.changes.len() == 0
                && done.result.handles.len() == 0 && done.error_line is Some
        }),
{
}

/// After its body, a `while` loop asks its condition again, with what the body left behind kept behind
/// the rest, whatever the exit code is. A body that stops the shell ends the loop, which then stops
/// the shell only where the shell leaves on errors and the exit code is not zero.
pub proof fn law_while_asks_again<H>(
    clause: WhileLoop,
    progress: ProgressView<H>,
    result: ResultView<H>,
    s: StateView,
)
    ensures
        ({
            let (end, step) = WhileView { clause, progress }.after_body(result, s);
            let ran = s.with_changes(result.changes);
            let kept = ProgressView {
                changes: progress.changes + result.changes,
                code: result.code,
                handles: progress.handles + result.handles,
            };
            &&& !result.exits ==> end == ran && step == WhileStepView::Condition(
                *clause.condition,
                WhileView { clause, progress: kept },
            )
            &&& result.exits ==> end == ran.with_changes(kept.changes) && step
                == WhileStepView::Done(
                FinishedView {
                    result: ResultView {
                        exits: end.exit_on_error && kept.code != 0,
                        code: kept.code,
                        changes: kept.changes,
                        handles: kept.handles,
                    },
                    error_line: None,
                },
            )
        }),
{
}

/// A `for` loop sets its variable to each word in turn, as a shell variable, and runs its body, which
/// hands on its background commands. Words that fail end it with exit code one.
pub proof fn law_for_sets_its_variable<H>(
    clause: ForLoop,
    words: WordPartsView,
    error: WordErrorView,
    s: StateView,
)
    ensures
        words.value.len() > 0 ==> for_words::<H>(clause, Ok(words), s) == (
            s.with_change(EnvChangeView::SetShellVar(clause.var_name@, words.value[0])),
            ForStepView::Body(
                *clause.body,
                AsyncCommandBehavior::Yield,
                ForView {
                    clause,
                    rest: words.value.skip(1),
                    progress: ProgressView::<H> { changes: seq![], code: 0, handles: seq![] },
                },
            ),
        ),
        words.value.len() == 0 ==> for_words::<H>(clause, Ok(words), s) == (
            s,
            ForStepView::Done(
                FinishedView {
                    result: ResultView::<H> {
                        exits: false,
                        code: 0,
                        changes: seq![],
                        handles: seq![],
                    },
                    error_line: None,
                },
            ),
        ),
        ({
            let (end, step) = for_words::<H>(clause, Err(error), s);
            &&& end == s
            &&& step matches ForStepView::Done(done) && done.result.code == 1
                && !done.result.exits && done.result.changes.len() == 0
                && done.result.handles.len() == 0 && done.error_line is Some
        }),
{
}

/// After its body, a `for` loop goes on with the next word, with what the body left behind kept behind
/// the rest, whatever the exit code is. After the last word, or where the body stops the shell, it
/// ends with the exit code of the body.
pub proof fn law_for_goes_on<H>(
    clause: ForLoop,
    rest: Seq<Seq<char>>,
    progress: ProgressView<H>,
    result: ResultView<H>,
    s: StateView,
)
    ensures
        ({
            let (end, step) = ForView { clause, rest, progress }.after_body(result, s);
            let kept = ProgressView {
                changes: progress.changes + result.changes,
                code: result.code,
                handles: progress.handles + result.handles,
            };
            &&& !result.exits && rest.len() > 0 ==> end == s.with_change(
                EnvChangeView::SetShellVar(clause.var_name@, rest[0]),
            ) && step == ForStepView::Body(
                *clause.body,
                AsyncCommandBehavior::Yield,
                ForView { clause, rest: rest.skip(1), progress: kept },
            )
            &&& result.exits || rest.len() == 0 ==> end == s.with_changes(kept.changes) && step
                == ForStepView::Done(
                FinishedView {
                    result: ResultView {
                        exits: end.exit_on_error && kept.code != 0,
                        code: kept.code,
                        changes: kept.changes,
                        handles: kept.handles,
                    },
                    error_line: None,
                },
            )
        }),
{
}

} // verus!
