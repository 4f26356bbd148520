//! Assignments, commands joined by `&&` and `||`, pipelines and subshells.

use crate::run::{all_changes, all_handles, failed_on_word, finished_with, Finished, FinishedView};
use crate::state::{ShellState, StateView};
use crate::syntax::{
    BooleanListOperator, Command, PipeSequenceOperator, PipelineInner, Sequence, Word,
};
use crate::types::{
    changes_view, extend_changes, EnvChange, EnvChangeView, ExecuteResult, ResultView,
};
use crate::words::{single_outcome, EvaluateWordTextError, WordErrorView, WordResult, WordView};
use std::rc::Rc;
use vstd::prelude::*;

verus! {

// ---------------------------------------------------------------------------
// Assignments

/// The line that traces an assignment.
pub open spec fn assignment_trace(name: Seq<char>, value: Seq<char>) -> Seq<char> {
    "+ "@ + name + "="@ + value
}

/// The line that traces an assignment.
pub fn trace_assignment(name: &str, value: &str) -> (r: String)
    ensures
        r@ == assignment_trace(name@, value@),
{
    let mut line: String = "+ ".to_owned();
    line.append(name);
    line.append("=");
    line.append(value);
    line
}

/// What an assignment writes to its output where the shell traces commands, and what came of it.
pub open spec fn assigned<H>(
    name: Seq<char>,
    outcome: Result<WordView, WordErrorView>,
    s: StateView,
) -> (Option<Seq<char>>, FinishedView<H>) {
    match outcome {
        Err(e) => (None, failed_on_word(e)),
        Ok(word) => (
            if s.print_trace {
                Some(assignment_trace(name, word.value))
            } else {
                None
            },
            finished_with(
                ResultView {
                    exits: false,
                    code: 0,
                    changes: seq![EnvChangeView::SetShellVar(name, word.value)],
                    handles: seq![],
                },
            ),
        ),
    }
}

/// An assignment that waits for the value of its word.
#[derive(Debug)]
pub struct Assignment {
    name: String,
}

impl View for Assignment {
    type V = Seq<char>;

    closed spec fn view(&self) -> Seq<char> {
        self.name@
    }
}

impl Assignment {
    /// Goes on with the value of the word: the line to trace, and what came of the assignment.
    pub fn on_word<H>(
        self,
        outcome: Result<WordResult, EvaluateWordTextError>,
        state: &ShellState,
    ) -> (r: (Option<String>, Finished<H>))
        ensures
            (match r.0 {
                Some(line) => Some(line@),
                None => None,
            }, r.1@) == assigned::<H>(self@, single_outcome(outcome), state@),
    {
        let word = match outcome {
            Err(err) => return (None, Finished::word_failure(err)),
            Ok(word) => word,
        };
        let trace = if state.print_trace() {
            Some(trace_assignment(self.name.as_str(), word.value.as_str()))
        } else {
            None
        };
        let mut changes: Vec<EnvChange> = Vec::new();
        let ghost change = EnvChangeView::SetShellVar(self.name@, word.value@);
        changes.push(EnvChange::SetShellVar(self.name, word.value));
        assert(changes_view(changes@) == seq![change]);
        (trace, Finished::with(ExecuteResult::Continue(0, changes, Vec::new())))
    }
}

// ---------------------------------------------------------------------------
// Boolean lists

/// Whether an operator lets what follows it run.
pub open spec fn moves_on(op: BooleanListOperator, code: i32) -> bool {
    match op {
        BooleanListOperator::And => code == 0,
        BooleanListOperator::Or => code != 0,
    }
}

impl BooleanListOperator {
    /// Whether the operator lets what follows it run after a command that ended with `exit_code`.
    pub fn moves_next_for_exit_code(&self, exit_code: i32) -> (r: bool)
        ensures
            r == moves_on(*self, exit_code),
    {
        match self {
            BooleanListOperator::And => exit_code == 0,
            BooleanListOperator::Or => exit_code != 0,
        }
    }
}

/// What runs after a command that ended with `code`, where `op next` follows it: what stands
/// behind the first operator that lets it run.
pub open spec fn follower(op: BooleanListOperator, next: Sequence, code: i32) -> Option<Sequence>
    decreases next,
{
    if moves_on(op, code) {
        Some(next)
    } else {
        match next {
            Sequence::BooleanList(list) => follower(list.op, *list.next, code),
            _ => None,
        }
    }
}

/// What runs after a command that ended with `exit_code`.
pub fn next_sequence(op: BooleanListOperator, next: &Rc<Sequence>, exit_code: i32) -> (r: Option<
    Rc<Sequence>,
>)
    ensures
        (match r {
            Some(sequence) => Some(*sequence),
            None => None,
        }) == follower(op, **next, exit_code),
    decreases **next,
{
    if op.moves_next_for_exit_code(exit_code) {
        return Some(next.clone());
    }
    match &**next {
        Sequence::BooleanList(list) => next_sequence(list.op, &list.next, exit_code),
        _ => None,
    }
}

/// What a boolean list does after its first command.
#[verifier::ext_equal]
pub enum BooleanStepView<H> {
    /// The sequence runs, after these changes, and the result is put together with them and these
    /// handles.
    Next(Sequence, Seq<EnvChangeView>, Seq<H>),
    Done(ResultView<H>),
}

/// How `current op next` goes on after `current` ended with `result`, and the state that it leads
/// to.
pub open spec fn after_first<H>(
    op: BooleanListOperator,
    next: Sequence,
    result: ResultView<H>,
    s: StateView,
) -> (StateView, BooleanStepView<H>) {
    if result.exits {
        (s, BooleanStepView::Done(result))
    } else {
        (
            s.with_changes(result.changes),
            match follower(op, next, result.code) {
                Some(sequence) => BooleanStepView::Next(sequence, result.changes, result.handles),
                None => BooleanStepView::Done(result),
            },
        )
    }
}

/// The result of a sequence that ran after these changes and handles.
pub open spec fn after_next<H>(
    changes: Seq<EnvChangeView>,
    handles: Seq<H>,
    result: ResultView<H>,
) -> ResultView<H> {
    ResultView {
        changes: changes + result.changes,
        handles: handles + result.handles,
        ..result
    }
}

/// A boolean list whose first command is running.
#[derive(Debug)]
pub struct BooleanRun {
    op: BooleanListOperator,
    next: Rc<Sequence>,
}

impl View for BooleanRun {
    type V = (BooleanListOperator, Sequence);

    closed spec fn view(&self) -> (BooleanListOperator, Sequence) {
        (self.op, *self.next)
    }
}

/// What is kept of the first command of a boolean list while a later one is running.
#[derive(Debug)]
pub struct BooleanRest<H> {
    changes: Vec<EnvChange>,
    handles: Vec<H>,
}

impl<H> View for BooleanRest<H> {
    type V = (Seq<EnvChangeView>, Seq<H>);

    closed spec fn view(&self) -> (Seq<EnvChangeView>, Seq<H>) {
        (changes_view(self.changes@), self.handles@)
    }
}

/// What a boolean list needs after its first command, or what it came to.
#[derive(Debug)]
pub enum BooleanStep<H> {
    /// The result of a sequence.
    Next(Rc<Sequence>, BooleanRest<H>),
    Done(ExecuteResult<H>),
}

impl<H> View for BooleanStep<H> {
    type V = BooleanStepView<H>;

    open spec fn view(&self) -> BooleanStepView<H> {
        match self {
            BooleanStep::Next(sequence, rest) => BooleanStepView::Next(
                **sequence,
                rest@.0,
                rest@.1,
            ),
            BooleanStep::Done(result) => BooleanStepView::Done(result@),
        }
    }
}

impl BooleanRun {
    /// Goes on after the first command.
    pub fn on_first<H>(self, result: ExecuteResult<H>, state: &mut ShellState) -> (r: BooleanStep<H>)
        ensures
            (final(state)@, r@) == after_first(self@.0, self@.1, result@, old(state)@),
    {
        let (exit_code, changes, handles) = match result {
            ExecuteResult::Exit(code, changes, handles) => {
                return BooleanStep::Done(ExecuteResult::Exit(code, changes, handles));
            },
            ExecuteResult::Continue(code, changes, handles) => (code, changes, handles),
        };
        state.apply_changes(&changes);
        match next_sequence(self.op, &self.next, exit_code) {
            Some(sequence) => BooleanStep::Next(sequence, BooleanRest { changes, handles }),
            None => BooleanStep::Done(ExecuteResult::Continue(exit_code, changes, handles)),
        }
    }
}

impl<H> BooleanRest<H> {
    /// Puts the result of the later sequence together with what was kept.
    pub fn on_next(self, result: ExecuteResult<H>) -> (r: ExecuteResult<H>)
        ensures
            r@ == after_next(self@.0, self@.1, result@),
    {
        let mut rest = self;
        match result {
            ExecuteResult::Exit(code, changes, handles) => {
                let mut handles = handles;
                extend_changes(&mut rest.changes, changes);
                rest.handles.append(&mut handles);
                ExecuteResult::Exit(code, rest.changes, rest.handles)
            },
            ExecuteResult::Continue(code, changes, handles) => {
                let mut handles = handles;
                extend_changes(&mut rest.changes, changes);
                rest.handles.append(&mut handles);
                ExecuteResult::Continue(code, rest.changes, rest.handles)
            },
        }
    }
}

// ---------------------------------------------------------------------------
// Pipelines

/// One command of a pipeline, and whether its error stream goes into the pipe as well.
#[derive(Debug)]
pub struct PipeStage {
    pub command: Rc<Command>,
    pub pipes_stderr: bool,
}

/// What a stage says.
pub open spec fn stage_view(stage: PipeStage) -> (Command, bool) {
    (*stage.command, stage.pipes_stderr)
}

/// The commands of a pipeline, in order.
pub open spec fn stages_of(inner: PipelineInner) -> Seq<(Command, bool)>
    decreases inner,
{
    match inner {
        PipelineInner::Command(command) => seq![(*command, false)],
        PipelineInner::PipeSequence(pipes) => seq![
            (*pipes.current, pipes.op == PipeSequenceOperator::StdoutStderr),
        ] + stages_of(pipes.next),
    }
}

fn push_stages(inner: &PipelineInner, stages: &mut Vec<PipeStage>)
    ensures
        final(stages)@.map_values(|s: PipeStage| stage_view(s)) == old(stages)@.map_values(
            |s: PipeStage| stage_view(s),
        ) + stages_of(*inner),
    decreases *inner,
{
    let ghost before = stages@;
    match inner {
        PipelineInner::Command(command) => {
            stages.push(PipeStage { command: command.clone(), pipes_stderr: false });
        },
        PipelineInner::PipeSequence(pipes) => {
            let pipes_stderr = match pipes.op {
                PipeSequenceOperator::Stdout => false,
                PipeSequenceOperator::StdoutStderr => true,
            };
            stages.push(PipeStage { command: pipes.current.clone(), pipes_stderr });
            let ghost first = stages@;
            push_stages(&pipes.next, stages);
            assert(first.map_values(|s: PipeStage| stage_view(s)) == before.map_values(
                |s: PipeStage| stage_view(s),
            ) + seq![(*pipes.current, pipes_stderr)]);
        },
    }
}

/// The commands of a pipeline, in order.
pub fn pipe_stages(inner: &PipelineInner) -> (r: Vec<PipeStage>)
    ensures
        r@.map_values(|s: PipeStage| stage_view(s)) == stages_of(*inner),
{
    let mut stages: Vec<PipeStage> = Vec::new();
    push_stages(inner, &mut stages);
    stages
}

/// What a pipeline does.
#[derive(Debug)]
pub enum PipelineStep {
    /// One command runs on its own.
    Command(Rc<Command>),
    /// The commands run side by side, each reading what the one before it writes.
    Pipes(Vec<PipeStage>),
}

/// What a pipeline does.
pub fn execute_pipeline_inner(inner: &PipelineInner) -> (r: PipelineStep)
    ensures
        match (*inner, r) {
            (PipelineInner::Command(command), PipelineStep::Command(c)) => c == command,
            (PipelineInner::PipeSequence(_), PipelineStep::Pipes(stages)) => stages@.map_values(
                |s: PipeStage| stage_view(s),
            ) == stages_of(*inner),
            _ => false,
        },
{
    match inner {
        PipelineInner::Command(command) => PipelineStep::Command(command.clone()),
        PipelineInner::PipeSequence(_) => PipelineStep::Pipes(pipe_stages(inner)),
    }
}

/// The result of commands that were piped together.
pub open spec fn piped<H>(results: Seq<ResultView<H>>) -> ResultView<H> {
    ResultView {
        exits: false,
        code: results.last().code,
        changes: all_changes(results),
        handles: results.last().handles + all_handles(results.drop_last()),
    }
}

/// What several results say.
pub open spec fn results_view<H>(results: Seq<ExecuteResult<H>>) -> Seq<ResultView<H>> {
    results.map_values(|r: ExecuteResult<H>| r@)
}

/// The result of commands that were piped together: the exit code of the last one, and the
/// changes and handles of all.
pub fn execute_pipe_sequence<H>(results: Vec<ExecuteResult<H>>) -> (r: ExecuteResult<H>)
    requires
        results@.len() > 0,
    ensures
        r@ == piped(results_view(results@)),
{
    let ghost all = results_view(results@);
    let mut rest = results;
    let mut changes: Vec<EnvChange> = Vec::new();
    let mut others: Vec<H> = Vec::new();
    assert(changes_view(changes@) == Seq::<EnvChangeView>::empty());
    assert(all.take(0).len() == 0);
    let ghost mut done: int = 0;
    while rest.len() > 1
        invariant
            0 <= done < all.len(),
            results_view(rest@) == all.skip(done),
            changes_view(changes@) == all_changes(all.take(done)),
            others@ == all_handles(all.take(done)),
        decreases rest.len(),
    {
        let ghost before = rest@;
        assert(results_view(before).len() == before.len());
        let first = rest.remove(0);
        assert(first@ == results_view(before)[0]);
        assert(first@ == all[done]);
        let (handles, more) = first.into_handles_and_changes();
        let mut handles = handles;
        extend_changes(&mut changes, more);
        others.append(&mut handles);
        proof {
            assert(all.take(done + 1).drop_last() == all.take(done));
            assert(all.take(done + 1).last() == all[done]);
            assert(results_view(rest@) == results_view(before).skip(1));
            assert(all.skip(done).skip(1) == all.skip(done + 1));
            done = done + 1;
        }
    }
    assert(results_view(rest@).len() == rest@.len());
    assert(all.skip(done).len() == all.len() - done);
    let ghost before = rest@;
    let last = rest.remove(0);
    assert(last@ == results_view(before)[0]);
    assert(last@ == all.last());
    assert(all.take(done) == all.drop_last());
    let code = last.exit_code();
    let (handles, more) = last.into_handles_and_changes();
    let mut handles = handles;
    extend_changes(&mut changes, more);
    handles.append(&mut others);
    ExecuteResult::Continue(code, changes, handles)
}

/// The result of a pipeline after `!`.
pub open spec fn negated_result<H>(result: ResultView<H>) -> ResultView<H> {
    if result.exits {
        result
    } else {
        ResultView {
            code: if result.code == 0 {
                1
            } else {
                0
            },
            ..result
        }
    }
}

/// The result of a pipeline, after `!` where `negated` is set.
pub fn execute_pipeline<H>(negated: bool, result: ExecuteResult<H>) -> (r: ExecuteResult<H>)
    ensures
        r@ == (if negated {
            negated_result(result@)
        } else {
            result@
        }),
{
    if !negated {
        return result;
    }
    match result {
        ExecuteResult::Exit(code, changes, handles) => ExecuteResult::Exit(code, changes, handles),
        ExecuteResult::Continue(code, changes, handles) => {
            let new_code: i32 = if code == 0 {
                1
            } else {
                0
            };
            ExecuteResult::Continue(new_code, changes, handles)
        },
    }
}

// ---------------------------------------------------------------------------
// Subshells

/// The result of a subshell whose list came to `result`: a subshell does not stop the shell.
pub open spec fn subshell_result<H>(result: ResultView<H>) -> ResultView<H> {
    ResultView { exits: false, ..result }
}

/// The result of a subshell whose list came to `result`.
pub fn execute_subshell<H>(result: ExecuteResult<H>) -> (r: ExecuteResult<H>)
    ensures
        r@ == subshell_result(result@),
{
    match result {
        ExecuteResult::Exit(code, changes, handles) => ExecuteResult::Continue(
            code,
            changes,
            handles,
        ),
        ExecuteResult::Continue(code, changes, handles) => ExecuteResult::Continue(
            code,
            changes,
            handles,
        ),
    }
}

// ---------------------------------------------------------------------------
// Sequences

/// What a sequence needs first.
#[derive(Debug)]
pub enum SequenceStep {
    /// The value of a word that is assigned.
    Assign(Word, Assignment),
    /// The result of the first command of a boolean list.
    First(Rc<Sequence>, BooleanRun),
    /// The result of a pipeline, negated where the flag is set.
    Pipeline(PipelineStep, bool),
}

/// What a sequence needs first.
pub fn execute_sequence(sequence: &Sequence) -> (r: SequenceStep)
    ensures
        match (*sequence, r) {
            (Sequence::ShellVar(var), SequenceStep::Assign(word, assignment)) => word == var.value
                && assignment@ == var.name@,
            (Sequence::BooleanList(list), SequenceStep::First(current, run)) => current
                == list.current && run@ == (list.op, *list.next),
            (Sequence::Pipeline(pipeline), SequenceStep::Pipeline(step, negated)) => negated
                == pipeline.negated && match (pipeline.inner, step) {
                (PipelineInner::Command(command), PipelineStep::Command(c)) => c == command,
                (PipelineInner::PipeSequence(_), PipelineStep::Pipes(stages)) => stages@.map_values(
                    |s: PipeStage| stage_view(s),
                ) == stages_of(pipeline.inner),
                _ => false,
            },
            _ => false,
        },
{
    match sequence {
        Sequence::ShellVar(var) => SequenceStep::Assign(
            var.value.share(),
            Assignment { name: var.name.clone() },
        ),
        Sequence::BooleanList(list) => SequenceStep::First(
            list.current.clone(),
            BooleanRun { op: list.op, next: list.next.clone() },
        ),
        Sequence::Pipeline(pipeline) => SequenceStep::Pipeline(
            execute_pipeline_inner(&pipeline.inner),
            pipeline.negated,
        ),
    }
}

// ---------------------------------------------------------------------------
// Laws

/// The operators of `op next`, in order.
pub open spec fn operators(op: BooleanListOperator, next: Sequence) -> Seq<BooleanListOperator>
    decreases next,
{
    match next {
        Sequence::BooleanList(list) => seq![op] + operators(list.op, *list.next),
        _ => seq![op],
    }
}

/// What stands behind each operator of `op next`, in order.
pub open spec fn tails(op: BooleanListOperator, next: Sequence) -> Seq<Sequence>
    decreases next,
{
    match next {
        Sequence::BooleanList(list) => seq![next] + tails(list.op, *list.next),
        _ => seq![next],
    }
}

spec fn unfolded(op: BooleanListOperator, next: Sequence) -> (BooleanListOperator, Sequence) {
    match next {
        Sequence::BooleanList(list) => (list.op, *list.next),
        _ => (op, next),
    }
}

/// The place of the first operator that lets what follows it run.
pub open spec fn first_open(ops: Seq<BooleanListOperator>, code: i32) -> Option<int>
    decreases ops.len(),
{
    if ops.len() == 0 {
        None
    } else if moves_on(ops[0], code) {
        Some(0)
    } else {
        match first_open(ops.skip(1), code) {
            Some(i) => Some(i + 1),
            None => None,
        }
    }
}

/// What runs next is what stands behind the first operator that the exit code lets through;
/// where there is none, nothing runs.
pub proof fn law_first_open_operator_decides(op: BooleanListOperator, next: Sequence, code: i32)
    ensures
        operators(op, next).len() == tails(op, next).len(),
        match first_open(operators(op, next), code) {
            Some(i) => 0 <= i < tails(op, next).len() && follower(op, next, code) == Some(
                tails(op, next)[i],
            ),
            None => follower(op, next, code) is None,
        },
    decreases next,
{
    let ops = operators(op, next);
    assert(ops[0] == op);
    assert(tails(op, next)[0] == next);
    if next is BooleanList {
        let (next_op, after) = unfolded(op, next);
        law_first_open_operator_decides(next_op, after, code);
        assert(ops.skip(1) == operators(next_op, after));
        assert(tails(op, next) == seq![next] + tails(next_op, after));
    } else {
        assert(ops.skip(1).len() == 0);
        assert(first_open(ops.skip(1), code) is None);
    }
}

/// `a && b` runs `b` only where `a` succeeds, `a || b` only where it fails; where `b` does not
/// run, the result is that of `a`.
pub proof fn law_boolean_lists_stop_early<H>(
    op: BooleanListOperator,
    next: Sequence,
    result: ResultView<H>,
    s: StateView,
)
    requires
        !(next is BooleanList),
        !result.exits,
    ensures
        after_first(op, next, result, s).1 == (if moves_on(op, result.code) {
            BooleanStepView::Next(next, result.changes, result.handles)
        } else {
            BooleanStepView::Done(result)
        }),
{
}

/// Negating twice keeps whether a pipeline succeeded, and all that it leaves behind.
pub proof fn law_double_negation<H>(result: ResultView<H>)
    ensures
        ({
            let twice = negated_result(negated_result(result));
            &&& (twice.code == 0) == (result.code == 0)
            &&& twice == (ResultView { code: twice.code, ..result })
        }),
{
}

spec fn after_pipe(inner: PipelineInner) -> PipelineInner {
    match inner {
        PipelineInner::PipeSequence(pipes) => pipes.next,
        PipelineInner::Command(_) => inner,
    }
}

/// A pipeline has at least one stage, and the last one keeps its error stream out of the pipe.
pub proof fn law_pipeline_has_a_last_stage(inner: PipelineInner)
    ensures
        stages_of(inner).len() > 0,
        !stages_of(inner).last().1,
    decreases inner,
{
    if inner is PipeSequence {
        let next = after_pipe(inner);
        law_pipeline_has_a_last_stage(next);
        assert(stages_of(inner).last() == stages_of(next).last());
    }
}

/// Commands that are piped together never stop the shell, end with the exit code of the last, and
/// keep the changes and the handles of all.
pub proof fn law_pipes_keep_everything<H>(results: Seq<ResultView<H>>)
    requires
        results.len() > 0,
    ensures
        !piped(results).exits,
        piped(results).code == results.last().code,
        piped(results).changes == all_changes(results),
        piped(results).handles.to_multiset() =~= all_handles(results).to_multiset(),
{
    let a = all_handles(results.drop_last());
    let b = results.last().handles;
    assert(all_handles(results) == a + b);
    vstd::seq_lib::lemma_multiset_commutative(a, b);
    vstd::seq_lib::lemma_multiset_commutative(b, a);
}

/// What is left of a pipeline without its first `k` commands.
pub open spec fn pipeline_behind(inner: PipelineInner, k: nat) -> Option<PipelineInner>
    decreases inner,
{
    match inner {
        _ if k == 0 => Some(inner),
        PipelineInner::Command(_) => None,
        PipelineInner::PipeSequence(pipes) => pipeline_behind(pipes.next, (k - 1) as nat),
    }
}

/// Each command of a pipeline is one stage, in order. The error stream of a stage goes into the pipe
/// exactly where the operator written directly behind its command is `|&`, whatever stands behind
/// that operator; that of the last command never does.
pub proof fn law_operator_behind_a_stage_decides(inner: PipelineInner, k: nat)
    ensures
        match pipeline_behind(inner, k) {
            None => k >= stages_of(inner).len(),
            Some(PipelineInner::Command(command)) => stages_of(inner).len() == k + 1 && stages_of(
                inner,
            )[k as int] == (*command, false),
            Some(PipelineInner::PipeSequence(pipes)) => {
                &&& k + 1 < stages_of(inner).len()
                &&& stages_of(inner)[k as int].0 == *pipes.current
                &&& pipes.op == PipeSequenceOperator::StdoutStderr <==> stages_of(
                    inner,
                )[k as int].1
            },
        },
    decreases inner,
{
    law_pipeline_has_a_last_stage(inner);
    if inner is PipeSequence {
        let next = after_pipe(inner);
        law_pipeline_has_a_last_stage(next);
        assert(stages_of(inner).skip(1) == stages_of(next));
        if k > 0 {
            law_operator_behind_a_stage_decides(next, (k - 1) as nat);
            if k < stages_of(inner).len() {
                assert(stages_of(inner)[k as int] == stages_of(next)[k - 1]);
            }
        }
    }
}

/// A stage says its own command and its own flag.
pub proof fn law_stage_says_its_fields(stage: PipeStage)
    ensures
        stage_view(stage).0 == *stage.command,
        stage_view(stage).1 == stage.pipes_stderr,
{
}

/// Behind `&&` the next sequence runs exactly after exit code zero, behind `||` exactly after another
/// one. Where it does not run, its own operator is asked in the same way, and where there is none,
/// the result stands. The changes of the first command are made before anything goes on, and a
/// result that stops the shell stands as it is.
pub proof fn law_boolean_operators_ask_the_exit_code<H>(
    op: BooleanListOperator,
    next: Sequence,
    result: ResultView<H>,
    s: StateView,
)
    ensures
        result.exits ==> after_first(op, next, result, s) == (s, BooleanStepView::Done(result)),
        !result.exits ==> {
            let (after, step) = after_first(op, next, result, s);
            let runs = match op {
                BooleanListOperator::And => result.code == 0,
                BooleanListOperator::Or => result.code != 0,
            };
            &&& after == s.with_changes(result.changes)
            &&& runs ==> step == BooleanStepView::Next(next, result.changes, result.handles)
            &&& !runs ==> match next {
                Sequence::BooleanList(list) => after_first(op, next, result, s) == after_first(
                    list.op,
                    *list.next,
                    result,
                    s,
                ),
                _ => step == BooleanStepView::Done(result),
            }
        },
{
}

/// Where a later sequence of a boolean list ran, it decides the exit code and whether the shell stops;
/// the changes and handles of the first command come before its own.
pub proof fn law_later_sequence_decides<H>(
    changes: Seq<EnvChangeView>,
    handles: Seq<H>,
    result: ResultView<H>,
)
    ensures
        ({
            let r = after_next(changes, handles, result);
            let n = changes.len();
            let m = handles.len();
            &&& r.code == result.code
            &&& r.exits == result.exits
            &&& r.changes.len() == n + result.changes.len()
            &&& r.changes.take(n as int) == changes
            &&& r.changes.skip(n as int) == result.changes
            &&& r.handles.len() == m + result.handles.len()
            &&& r.handles.take(m as int) == handles
            &&& r.handles.skip(m as int) == result.handles
        }),
{
    let r = after_next(changes, handles, result);
    assert(r.changes.take(changes.len() as int) == changes);
    assert(r.changes.skip(changes.len() as int) == result.changes);
    assert(r.handles.take(handles.len() as int) == handles);
    assert(r.handles.skip(handles.len() as int) == result.handles);
}

/// A negated pipeline ends with one exactly where the pipeline ended with zero, and with zero
/// otherwise; it keeps what the pipeline left behind. One that stops the shell is not negated.
pub proof fn law_negation_swaps_success<H>(result: ResultView<H>)
    ensures
        result.exits ==> negated_result(result) == result,
        !result.exits && result.code == 0 ==> negated_result(result).code == 1,
        !result.exits && result.code != 0 ==> negated_result(result).code == 0,
        negated_result(result).exits == result.exits,
        negated_result(result).changes == result.changes,
        negated_result(result).handles == result.handles,
{
}

/// A subshell ends with the exit code, the changes and the handles of its list, and never stops the
/// shell.
pub proof fn law_subshell_does_not_stop_the_shell<H>(result: ResultView<H>)
    ensures
        !subshell_result(result).exits,
        subshell_result(result).code == result.code,
        subshell_result(result).changes == result.changes,
        subshell_result(result).handles == result.handles,
{
}

/// An assignment whose word has a value succeeds with exit code zero, sets exactly its variable to that
/// value, starts nothing and reports nothing; it is traced as `+ name=value` exactly where the shell
/// traces commands.
pub proof fn law_assignment_sets_its_variable<H>(name: Seq<char>, word: WordView, s: StateView)
    ensures
        ({
            let (trace, done) = assigned::<H>(name, Ok(word), s);
            &&& done.result.code == 0
            &&& !done.result.exits
            &&& done.result.changes == seq![EnvChangeView::SetShellVar(name, word.value)]
            &&& done.result.handles.len() == 0
            &&& done.error_line is None
            &&& trace is Some <==> s.print_trace
            &&& trace matches Some(line) ==> line.len() == 3 + name.len() + word.value.len()
                && line.take(2) == seq!['+', ' '] && line.subrange(2, 2 + name.len() as int) == name
                && line[2 + name.len() as int] == '=' && line.skip(3 + name.len() as int)
                == word.value
        }),
{
    reveal_strlit("+ ");
    reveal_strlit("=");
    let line = assignment_trace(name, word.value);
    assert(line.take(2) == seq!['+', ' ']);
    assert(line.subrange(2, 2 + name.len() as int) == name);
    assert(line.skip(3 + name.len() as int) == word.value);
}

/// An assignment whose word fails sets nothing, and is not traced.
pub proof fn law_failed_assignment_sets_nothing<H>(
    name: Seq<char>,
    error: WordErrorView,
    s: StateView,
)
    ensures
        assigned::<H>(name, Err(error), s).0 is None,
        assigned::<H>(name, Err(error), s).1.result.changes.len() == 0,
        assigned::<H>(name, Err(error), s).1.result.code != 0,
        assigned::<H>(name, Err(error), s).1.error_line is Some,
{
}

/// Of commands that are piped together, the handles of the last come first, and then those of the
/// others in their order.
pub proof fn law_piped_handles_in_order<H>(results: Seq<ResultView<H>>, last: ResultView<H>)
    ensures
        piped(results.push(last)).handles == last.handles + all_handles(results),
        piped(results.push(last)).code == last.code,
        !piped(results.push(last)).exits,
        piped(results.push(last)).changes == all_changes(results) + last.changes,
{
    assert(results.push(last).drop_last() == results);
    assert(results.push(last).last() == last);
}

} // verus!
