//! Lists of commands, one after the other.

use crate::run::{all_changes, last_code, no_progress, Progress, ProgressView};
use crate::state::{law_changes_compose, ShellState, StateView};
use crate::syntax::{Sequence, SequentialList, SequentialListItem};
use crate::text::{decimal, law_decimal_reads_back, number_text};
use crate::types::{changes_view, EnvChange, EnvChangeView, ExecuteResult, ResultView};
use std::rc::Rc;
use vstd::prelude::*;

verus! {

/// What a list does in the end about the commands that it left in the background.
#[derive(Debug, Clone, Copy, PartialEq, Eq, Structural)]
pub enum AsyncCommandBehavior {
    /// It waits for them.
    Wait,
    /// It hands them on.
    Yield,
}

/// How far a list has come.
#[verifier::ext_equal]
pub struct ListView<H> {
    pub items: Seq<SequentialListItem>,
    /// The item that comes next.
    pub next: int,
    pub progress: ProgressView<H>,
    pub behavior: AsyncCommandBehavior,
}

/// What is left of a list while it waits.
#[verifier::ext_equal]
pub struct ListEndView {
    pub exits: bool,
    pub changes: Seq<EnvChangeView>,
}

/// What a list does next.
#[verifier::ext_equal]
pub enum ListStepView<H> {
    Spawn(Sequence, ListView<H>),
    Run(Sequence, ListView<H>),
    Wait(i32, Seq<H>, ListEndView),
    Done(ResultView<H>),
}

/// How a list starts.
pub open spec fn list_start<H>(
    list: SequentialList,
    behavior: AsyncCommandBehavior,
) -> ListStepView<H> {
    ListView { items: list.items@, next: 0, progress: no_progress(), behavior }.advanced()
}

/// The state after a command of a list: its changes are made, and the shell variable `?` holds its
/// exit code, for `$?` to give.
pub open spec fn state_after<H>(s: StateView, result: ResultView<H>) -> StateView {
    s.with_changes(result.changes).with_shell_var("?"@, decimal(result.code as int))
}

impl<H> ListView<H> {
    /// How the list goes on with its next item.
    pub open spec fn advanced(self) -> ListStepView<H> {
        if 0 <= self.next < self.items.len() {
            let item = self.items[self.next];
            let rest = ListView { next: self.next + 1, ..self };
            if item.is_async {
                ListStepView::Spawn(*item.sequence, rest)
            } else {
                ListStepView::Run(*item.sequence, rest)
            }
        } else {
            self.ended(false)
        }
    }

    /// How the list ends.
    pub open spec fn ended(self, exits: bool) -> ListStepView<H> {
        match self.behavior {
            AsyncCommandBehavior::Wait => ListStepView::Wait(
                self.progress.code,
                self.progress.handles,
                ListEndView { exits, changes: self.progress.changes },
            ),
            AsyncCommandBehavior::Yield => ListStepView::Done(self.progress.result(exits)),
        }
    }

    /// How the list goes on after a command went to the background as `handle`.
    pub open spec fn after_spawn(self, handle: H) -> ListStepView<H> {
        ListView {
            progress: ProgressView { handles: self.progress.handles.push(handle), ..self.progress },
            ..self
        }.advanced()
    }

    /// How the list goes on after a command, and the state that it leads to.
    pub open spec fn after_result(self, result: ResultView<H>, s: StateView) -> (
        StateView,
        ListStepView<H>,
    ) {
        let end = state_after(s, result);
        let list = ListView { progress: self.progress.after(result), ..self };
        (
            end,
            if result.exits {
                list.ended(true)
            } else if end.exit_on_error && result.code != 0 {
                list.ended(false)
            } else {
                list.advanced()
            },
        )
    }
}

impl ListEndView {
    /// The result of a list that waited, and came to `code`.
    pub open spec fn after_wait<H>(self, code: i32) -> ResultView<H> {
        ResultView { exits: self.exits, code, changes: self.changes, handles: seq![] }
    }
}

/// A list of commands that is running.
#[derive(Debug)]
pub struct ListRun<H> {
    list: Rc<SequentialList>,
    next: usize,
    progress: Progress<H>,
    behavior: AsyncCommandBehavior,
}

impl<H> View for ListRun<H> {
    type V = ListView<H>;

    closed spec fn view(&self) -> ListView<H> {
        ListView {
            items: self.list.items@,
            next: self.next as int,
            progress: self.progress@,
            behavior: self.behavior,
        }
    }
}

/// What is left of a list while it waits.
#[derive(Debug)]
pub struct ListEnd {
    exits: bool,
    changes: Vec<EnvChange>,
}

impl View for ListEnd {
    type V = ListEndView;

    closed spec fn view(&self) -> ListEndView {
        ListEndView { exits: self.exits, changes: changes_view(self.changes@) }
    }
}

/// What a list needs next, or what it came to.
#[derive(Debug)]
pub enum ListStep<H> {
    /// The handle of a command that is to run in the background.
    Spawn(Rc<Sequence>, ListRun<H>),
    /// The result of a command.
    Run(Rc<Sequence>, ListRun<H>),
    /// The exit code after the tasks have ended.
    Wait(i32, Vec<H>, ListEnd),
    Done(ExecuteResult<H>),
}

impl<H> View for ListStep<H> {
    type V = ListStepView<H>;

    open spec fn view(&self) -> ListStepView<H> {
        match self {
            ListStep::Spawn(sequence, run) => ListStepView::Spawn(**sequence, run@),
            ListStep::Run(sequence, run) => ListStepView::Run(**sequence, run@),
            ListStep::Wait(code, handles, end) => ListStepView::Wait(*code, handles@, end@),
            ListStep::Done(result) => ListStepView::Done(result@),
        }
    }
}

/// Starts a list of commands.
pub fn execute_sequential_list<H>(list: Rc<SequentialList>, behavior: AsyncCommandBehavior) -> (r:
    ListStep<H>)
    ensures
        r@ == list_start::<H>(*list, behavior),
{
    ListRun { list, next: 0, progress: Progress::new(), behavior }.advance()
}

impl<H> ListRun<H> {
    fn advance(self) -> (r: ListStep<H>)
        ensures
            r@ == self@.advanced(),
    {
        let mut run = self;
        if run.next < run.list.items.len() {
            let is_async = run.list.items[run.next].is_async;
            let sequence = run.list.items[run.next].sequence.clone();
            run.next += 1;
            if is_async {
                ListStep::Spawn(sequence, run)
            } else {
                ListStep::Run(sequence, run)
            }
        } else {
            run.end(false)
        }
    }

    fn end(self, exits: bool) -> (r: ListStep<H>)
        ensures
            r@ == self@.ended(exits),
    {
        match self.behavior {
            AsyncCommandBehavior::Wait => {
                let Progress { changes, exit_code, handles } = self.progress;
                ListStep::Wait(exit_code, handles, ListEnd { exits, changes })
            },
            AsyncCommandBehavior::Yield => ListStep::Done(self.progress.into_result(exits)),
        }
    }

    /// Goes on after a command went to the background.
    pub fn on_spawned(self, handle: H) -> (r: ListStep<H>)
        ensures
            r@ == self@.after_spawn(handle),
    {
        let mut run = self;
        run.progress.handles.push(handle);
        run.advance()
    }

    /// Goes on after a command.
    pub fn on_result(self, result: ExecuteResult<H>, state: &mut ShellState) -> (r: ListStep<H>)
        ensures
            (final(state)@, r@) == self@.after_result(result@, old(state)@),
    {
        let mut run = self;
        match &result {
            ExecuteResult::Exit(_, changes, _) => state.apply_changes(changes),
            ExecuteResult::Continue(_, changes, _) => state.apply_changes(changes),
        }
        let code = result.exit_code();
        let text = number_text(code as i64);
        state.set_shell_var("?", text.as_str());
        let exits = run.progress.absorb(result);
        if exits {
            run.end(true)
        } else if state.exit_on_error() && code != 0 {
            run.end(false)
        } else {
            run.advance()
        }
    }
}

impl ListEnd {
    /// The result of the list, after the tasks have ended and the exit code is `exit_code`.
    pub fn on_waited<H>(self, exit_code: i32) -> (r: ExecuteResult<H>)
        ensures
            r@ == self@.after_wait::<H>(exit_code),
    {
        if self.exits {
            ExecuteResult::Exit(exit_code, self.changes, Vec::new())
        } else {
            ExecuteResult::Continue(exit_code, self.changes, Vec::new())
        }
    }
}

// ---------------------------------------------------------------------------
// Laws

/// What a list is told of one of its commands.
#[verifier::ext_equal]
pub enum ListEvent<H> {
    /// It ran, with this result.
    Ran(ResultView<H>),
    /// It went to the background, as this handle.
    Spawned(H),
}

/// A list that runs on with what it is told of its commands, as far as that is given.
pub open spec fn list_driven<H>(
    step: ListStepView<H>,
    s: StateView,
    events: Seq<ListEvent<H>>,
) -> (StateView, ListStepView<H>)
    decreases events.len(),
{
    if events.len() == 0 {
        (s, step)
    } else {
        let (before, at) = list_driven(step, s, events.drop_last());
        match (at, events.last()) {
            (ListStepView::Run(_, run), ListEvent::Ran(result)) => run.after_result(result, before),
            (ListStepView::Spawn(_, run), ListEvent::Spawned(handle)) => (
                before,
                run.after_spawn(handle),
            ),
            _ => (before, at),
        }
    }
}

/// The results of the commands that did not go to the background, in order.
pub open spec fn event_results<H>(events: Seq<ListEvent<H>>) -> Seq<ResultView<H>>
    decreases events.len(),
{
    if events.len() == 0 {
        seq![]
    } else {
        let before = event_results(events.drop_last());
        match events.last() {
            ListEvent::Ran(result) => before.push(result),
            ListEvent::Spawned(_) => before,
        }
    }
}

/// The handles of the commands that went to the background, and those that the others left, in
/// order.
pub open spec fn event_handles<H>(events: Seq<ListEvent<H>>) -> Seq<H>
    decreases events.len(),
{
    if events.len() == 0 {
        seq![]
    } else {
        let before = event_handles(events.drop_last());
        match events.last() {
            ListEvent::Ran(result) => before + result.handles,
            ListEvent::Spawned(handle) => before.push(handle),
        }
    }
}

/// What is kept of the commands of a list: the changes and the exit code come from those that did
/// not go to the background.
pub open spec fn kept_of<H>(events: Seq<ListEvent<H>>) -> ProgressView<H> {
    ProgressView {
        changes: all_changes(event_results(events)),
        code: last_code(event_results(events)),
        handles: event_handles(events),
    }
}

/// The state after several commands of a list.
pub open spec fn state_after_all<H>(s: StateView, results: Seq<ResultView<H>>) -> StateView
    decreases results.len(),
{
    if results.len() == 0 {
        s
    } else {
        state_after(state_after_all(s, results.drop_last()), results.last())
    }
}

/// The state after what a list was told of its commands: those in the background leave it alone.
pub open spec fn state_after_events<H>(s: StateView, events: Seq<ListEvent<H>>) -> StateView {
    state_after_all(s, event_results(events))
}

/// Whether a command lets the list go on: it goes to the background, or it does not stop the shell,
/// and does not fail where the shell leaves on errors.
pub open spec fn lets_go_on<H>(s: StateView, events: Seq<ListEvent<H>>, k: int) -> bool {
    match events[k] {
        ListEvent::Spawned(_) => true,
        ListEvent::Ran(result) => !result.exits && (result.code == 0 || !state_after_events(
            s,
            events.take(k + 1),
        ).exit_on_error),
    }
}

/// Whether a list is told of each of its commands what it asks.
pub open spec fn answers<H>(list: SequentialList, events: Seq<ListEvent<H>>) -> bool {
    events.len() <= list.items@.len() && forall|k: int|
        0 <= k < events.len() ==> ((#[trigger] events[k]) is Spawned) == list.items@[k].is_async
}

proof fn lemma_all_but_the_last<H>(list: SequentialList, s: StateView, events: Seq<ListEvent<H>>)
    requires
        answers(list, events),
        events.len() > 0,
        forall|k: int| 0 <= k < events.len() - 1 ==> #[trigger] lets_go_on(s, events, k),
    ensures
        answers(list, events.drop_last()),
        forall|k: int|
            0 <= k < events.len() - 1 ==> #[trigger] lets_go_on(s, events.drop_last(), k),
{
    let less = events.drop_last();
    assert forall|k: int| 0 <= k < less.len() implies #[trigger] lets_go_on(s, less, k) by {
        assert(lets_go_on(s, events, k));
        assert(less[k] == events[k]);
        assert(less.take(k + 1) == events.take(k + 1));
    }
    assert forall|k: int| 0 <= k < less.len() implies ((#[trigger] less[k]) is Spawned)
        == list.items@[k].is_async by {
        assert(less[k] == events[k]);
    }
}

/// The commands of a list run in order, each in the state that the ones before it left, as long as
/// each lets the list go on. The state, the changes and the exit code come from the commands that do
/// not go to the background, and the handles from all, in order: nothing is lost.
pub proof fn law_list_runs_in_order<H>(
    list: SequentialList,
    behavior: AsyncCommandBehavior,
    s: StateView,
    events: Seq<ListEvent<H>>,
)
    requires
        answers(list, events),
        forall|k: int| 0 <= k < events.len() ==> #[trigger] lets_go_on(s, events, k),
    ensures
        list_driven(list_start(list, behavior), s, events) == (
            state_after_events(s, events),
            (ListView {
                items: list.items@,
                next: events.len() as int,
                progress: kept_of(events),
                behavior,
            }).advanced(),
        ),
    decreases events.len(),
{
    if events.len() == 0 {
        assert(kept_of(events) == no_progress::<H>());
    } else {
        let less = events.drop_last();
        let n = events.len() - 1;
        lemma_all_but_the_last(list, s, events);
        law_list_runs_in_order(list, behavior, s, less);
        assert(lets_go_on(s, events, n));
        assert((events[n] is Spawned) == list.items@[n].is_async);
        assert(events.take(n + 1) == events);
        lemma_kept_of_one_more(events);
    }
}

proof fn lemma_kept_of_one_more<H>(events: Seq<ListEvent<H>>)
    requires
        events.len() > 0,
    ensures
        ({
            let before = kept_of(events.drop_last());
            kept_of(events) == (match events.last() {
                ListEvent::Ran(result) => before.after(result),
                ListEvent::Spawned(handle) => ProgressView {
                    handles: before.handles.push(handle),
                    ..before
                },
            })
        }),
        events.last() matches ListEvent::Ran(result) ==> event_results(events).drop_last()
            == event_results(events.drop_last()) && event_results(events).last() == result,
{
    let before = event_results(events.drop_last());
    if events.last() is Ran {
        let result = events.last()->Ran_0;
        assert(before.push(result).drop_last() == before);
        assert(before.push(result).last() == result);
    }
}

/// A list ends at the first command that stops the shell, or that fails where the shell leaves on
/// errors, whatever comes after it. It keeps what all commands up to there left behind, ends with the
/// exit code of that command, and stops the shell exactly where that command does.
pub proof fn law_list_ends_early<H>(
    list: SequentialList,
    behavior: AsyncCommandBehavior,
    s: StateView,
    events: Seq<ListEvent<H>>,
)
    requires
        answers(list, events),
        events.len() > 0,
        forall|k: int| 0 <= k < events.len() - 1 ==> #[trigger] lets_go_on(s, events, k),
        !lets_go_on(s, events, events.len() - 1),
    ensures
        ({
            let (end, step) = list_driven(list_start(list, behavior), s, events);
            &&& events.last() matches ListEvent::Ran(result)
            &&& end == state_after_events(s, events)
            &&& ends_with(step, behavior, kept_of(events), result.exits)
            &&& kept_of(events).code == result.code
        }),
{
    let less = events.drop_last();
    let n = events.len() - 1;
    lemma_all_but_the_last(list, s, events);
    law_list_runs_in_order(list, behavior, s, less);
    assert((events[n] is Spawned) == list.items@[n].is_async);
    assert(events.take(n + 1) == events);
    lemma_kept_of_one_more(events);
}

/// Whether a step ends a list, after which this was kept; `exits` says whether it stops the shell.
pub open spec fn ends_with<H>(
    step: ListStepView<H>,
    behavior: AsyncCommandBehavior,
    progress: ProgressView<H>,
    exits: bool,
) -> bool {
    match step {
        ListStepView::Done(result) => behavior == AsyncCommandBehavior::Yield && result
            == progress.result(exits),
        ListStepView::Wait(code, handles, end) => behavior == AsyncCommandBehavior::Wait && code
            == progress.code && handles == progress.handles && end.exits == exits && end.changes
            == progress.changes,
        _ => false,
    }
}

/// A command that stops the shell ends the list with its own exit code, whatever comes after it
/// in the list; the list then stops the shell too.
pub proof fn law_exit_ends_the_list<H>(run: ListView<H>, result: ResultView<H>, s: StateView)
    requires
        result.exits,
    ensures
        ends_with(
            run.after_result(result, s).1,
            run.behavior,
            run.progress.after(result),
            true,
        ),
        run.progress.after(result).code == result.code,
{
}

/// Where the shell leaves on errors, a command that fails ends the list with its own exit code,
/// whatever comes after it in the list; the list itself does not stop the shell.
pub proof fn law_failure_ends_the_list<H>(run: ListView<H>, result: ResultView<H>, s: StateView)
    requires
        !result.exits,
        result.code != 0,
        s.with_changes(result.changes).exit_on_error,
    ensures
        ends_with(
            run.after_result(result, s).1,
            run.behavior,
            run.progress.after(result),
            false,
        ),
        run.progress.after(result).code == result.code,
{
}

/// A list that waits leaves nothing running; one that does not hands on every handle.
pub proof fn law_only_waiting_ends_tasks<H>(run: ListView<H>, exits: bool, code: i32)
    ensures
        match run.ended(exits) {
            ListStepView::Wait(_, handles, end) => run.behavior == AsyncCommandBehavior::Wait
                && handles == run.progress.handles && end.after_wait::<H>(code).handles.len() == 0,
            ListStepView::Done(result) => run.behavior == AsyncCommandBehavior::Yield
                && result.handles == run.progress.handles,
            _ => false,
        },
{
}

/// The state without what the shell itself knows of `$?`.
pub open spec fn without_status(s: StateView) -> StateView {
    StateView { shell: s.shell.remove("?"@), ..s }
}

proof fn lemma_maps_alike<T>(
    a: Map<Seq<char>, T>,
    b: Map<Seq<char>, T>,
    but: Seq<char>,
    name: Seq<char>,
    value: T,
)
    requires
        a.remove(but) == b.remove(but),
    ensures
        a.insert(name, value).remove(but) == b.insert(name, value).remove(but),
        a.remove(name).remove(but) == b.remove(name).remove(but),
{
    assert forall|k: Seq<char>| k != but implies a.dom().contains(k) == #[trigger] b.dom().contains(k)
        by {
        assert(a.remove(but).dom().contains(k) == a.dom().contains(k));
        assert(b.remove(but).dom().contains(k) == b.dom().contains(k));
    }
    assert forall|k: Seq<char>| k != but && a.dom().contains(k) implies a[k] == #[trigger] b[k] by {
        assert(a.remove(but)[k] == a[k]);
        assert(b.dom().contains(k));
        assert(b.remove(but)[k] == b[k]);
    }
    assert(a.insert(name, value).remove(but) =~= b.insert(name, value).remove(but));
    assert(a.remove(name).remove(but) =~= b.remove(name).remove(but));
}

proof fn lemma_change_keeps_alike(a: StateView, b: StateView, change: EnvChangeView)
    requires
        without_status(a) == without_status(b),
    ensures
        without_status(a.with_change(change)) == without_status(b.with_change(change)),
{
    assert(a.shell.remove("?"@) == without_status(a).shell);
    assert(b.shell.remove("?"@) == without_status(b).shell);
    assert(a.env == without_status(a).env && b.env == without_status(b).env);
    match change {
        EnvChangeView::SetEnvVar(name, value) => {
            lemma_maps_alike(a.shell, b.shell, "?"@, name, value);
        },
        EnvChangeView::SetShellVar(name, value) => {
            lemma_maps_alike(a.shell, b.shell, "?"@, name, value);
        },
        EnvChangeView::UnsetVar(name) => {
            lemma_maps_alike(a.shell, b.shell, "?"@, name, seq![]);
        },
        _ => {},
    }
}

proof fn lemma_changes_keep_alike(a: StateView, b: StateView, changes: Seq<EnvChangeView>)
    requires
        without_status(a) == without_status(b),
    ensures
        without_status(a.with_changes(changes)) == without_status(b.with_changes(changes)),
    decreases changes.len(),
{
    if changes.len() > 0 {
        lemma_changes_keep_alike(a, b, changes.drop_last());
        lemma_change_keeps_alike(
            a.with_changes(changes.drop_last()),
            b.with_changes(changes.drop_last()),
            changes.last(),
        );
    }
}

/// The changes that a list hands on lead to the state that its last command left, but for `$?`:
/// whoever makes them sees what the list saw.
pub proof fn law_list_hands_on_its_state<H>(s: StateView, results: Seq<ResultView<H>>)
    ensures
        without_status(s.with_changes(all_changes(results))) == without_status(
            state_after_all(s, results),
        ),
    decreases results.len(),
{
    if results.len() > 0 {
        let less = results.drop_last();
        let last = results.last();
        law_list_hands_on_its_state(s, less);
        let a = s.with_changes(all_changes(less));
        let b = state_after_all(s, less);
        lemma_changes_keep_alike(a, b, last.changes);
        law_changes_compose(s, all_changes(less), last.changes);
        let changed = b.with_changes(last.changes);
        let text = decimal(last.code as int);
        assert(changed.shell.insert("?"@, text).remove("?"@) =~= changed.shell.remove("?"@));
    }
}

/// `$?` gives the exit code of the command of a list that ran last.
pub proof fn law_exit_status_reads_back<H>(s: StateView, result: ResultView<H>)
    ensures
        state_after(s, result).last_exit_code() == result.code,
{
    law_decimal_reads_back(result.code as i64);
}

/// A list goes on with its next item: it starts one with `&` in the background and waits for the result
/// of another one. After the last item it ends without stopping the shell.
pub proof fn law_next_item_runs<H>(run: ListView<H>)
    requires
        run.next >= 0,
    ensures
        run.next < run.items.len() && run.items[run.next].is_async ==> run.advanced()
            == ListStepView::Spawn(
            *run.items[run.next].sequence,
            ListView { next: run.next + 1, ..run },
        ),
        run.next < run.items.len() && !run.items[run.next].is_async ==> run.advanced()
            == ListStepView::Run(
            *run.items[run.next].sequence,
            ListView { next: run.next + 1, ..run },
        ),
        run.next >= run.items.len() && run.behavior == AsyncCommandBehavior::Wait ==> run.advanced()
            == ListStepView::Wait(
            run.progress.code,
            run.progress.handles,
            ListEndView { exits: false, changes: run.progress.changes },
        ),
        run.next >= run.items.len() && run.behavior == AsyncCommandBehavior::Yield
            ==> run.advanced() == ListStepView::Done(
            ResultView {
                exits: false,
                code: run.progress.code,
                changes: run.progress.changes,
                handles: run.progress.handles,
            },
        ),
{
}

/// After a command its changes are made and its exit code is kept for `$?`. What it left behind stands
/// behind what was kept, and its exit code counts. The list goes on exactly where the command does
/// not stop the shell, and succeeds or does not have to.
pub proof fn law_command_of_a_list<H>(run: ListView<H>, result: ResultView<H>, s: StateView)
    ensures
        ({
            let (end, step) = run.after_result(result, s);
            let kept = ListView {
                progress: ProgressView {
                    changes: run.progress.changes + result.changes,
                    code: result.code,
                    handles: run.progress.handles + result.handles,
                },
                ..run
            };
            let changed = s.with_changes(result.changes);
            &&& end == (StateView {
                shell: changed.shell.insert("?"@, decimal(result.code as int)),
                ..changed
            })
            &&& !result.exits && (result.code == 0 || !changed.exit_on_error) ==> step
                == kept.advanced()
            &&& result.exits || (result.code != 0 && changed.exit_on_error) ==> match run.behavior {
                AsyncCommandBehavior::Wait => step == ListStepView::Wait(
                    result.code,
                    kept.progress.handles,
                    ListEndView { exits: result.exits, changes: kept.progress.changes },
                ),
                AsyncCommandBehavior::Yield => step == ListStepView::Done(
                    ResultView {
                        exits: result.exits,
                        code: result.code,
                        changes: kept.progress.changes,
                        handles: kept.progress.handles,
                    },
                ),
            }
        }),
{
}

/// A command in the background adds its handle behind the others, and has no part in the exit code or
/// the changes.
pub proof fn law_background_command_of_a_list<H>(run: ListView<H>, handle: H)
    ensures
        run.after_spawn(handle) == (ListView {
            progress: ProgressView {
                changes: run.progress.changes,
                code: run.progress.code,
                handles: run.progress.handles.push(handle),
            },
            ..run
        }).advanced(),
{
}

/// A list starts at its first item with nothing kept and exit code zero. One that waited ends with the
/// code it came to, keeps its changes, and stops the shell where it was to.
pub proof fn law_list_starts_and_waits<H>(
    list: SequentialList,
    behavior: AsyncCommandBehavior,
    end: ListEndView,
    code: i32,
)
    ensures
        list_start::<H>(list, behavior) == (ListView::<H> {
            items: list.items@,
            next: 0,
            progress: ProgressView { changes: seq![], code: 0, handles: seq![] },
            behavior,
        }).advanced(),
        end.after_wait::<H>(code).code == code,
        end.after_wait::<H>(code).exits == end.exits,
        end.after_wait::<H>(code).changes == end.changes,
        end.after_wait::<H>(code).handles.len() == 0,
{
}

} // verus!
