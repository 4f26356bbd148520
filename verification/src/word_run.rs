//! The evaluation of a word with all that it nests: parts between quotes, and the words of
//! modifiers. It stops only for what comes from outside.

use crate::args::{as_single, single_word};
use crate::arithmetic::parts_evaluated;
use crate::expand::{
    evaluate_quoted_parts, evaluate_word_parts, evaluation_start, is_search,
    law_expanded_text_gives_its_pieces, law_variable_is_one_word,
    law_variable_with_a_wildcard_searches, on_one_line, piece_words, plain_text, search_outcome,
    without_line_end, EvaluationView, FilePattern, FilePatternView, GlobMatch, GlobRequest,
    GlobRequestView, StepView, WordEvaluation, WordStep,
};
use crate::list::AsyncCommandBehavior;
use crate::modifier::{
    modifier_start, ModifierStep, ModifierStepView, PendingModifier, PendingView,
};
use crate::pattern::PatternError;
use crate::state::{ShellState, StateView};
use crate::syntax::{SequentialList, VariableModifier, Word, WordPart};
use crate::text::{decimal, join_text, lossy_text, read_lossy};
use crate::words::{
    pieces_of, word_outcome, EvaluateGlob, EvaluateWordTextError, IsQuoted, TextPartView, WordErrorView,
    WordPartsResult, WordPartsView, WordView,
};
use std::rc::Rc;
use vstd::prelude::*;
use vstd::utf8::{decode_utf8, valid_utf8};

verus! {

// ---------------------------------------------------------------------------
// How much is left to evaluate

/// A bound on the steps inside the parts of a word.
pub open spec fn parts_weight(parts: Seq<WordPart>) -> nat
    decreases parts,
{
    if parts.len() == 0 {
        0
    } else {
        part_weight(parts[0]) + parts_weight(parts.skip(1))
    }
}

/// A bound on the steps inside a part of a word.
pub open spec fn part_weight(part: WordPart) -> nat
    decreases part,
{
    match part {
        WordPart::Variable(_, Some(modifier)) => 1 + modifier_weight(*modifier),
        WordPart::Quoted(parts) => 3 + parts_weight(parts@),
        _ => 1,
    }
}

/// A bound on the steps inside the words of a modifier.
pub open spec fn modifier_weight(modifier: VariableModifier) -> nat
    decreases modifier,
{
    match modifier {
        VariableModifier::Substring { begin, length } => 2 + parts_weight(begin.parts@) + (
        match length {
            Some(word) => 2 + parts_weight(word.parts@),
            None => 0,
        }),
        VariableModifier::DefaultValue(word) => 2 + parts_weight(word.parts@),
        VariableModifier::AssignDefault(word) => 2 + parts_weight(word.parts@),
        VariableModifier::AlternateValue(word) => 2 + parts_weight(word.parts@),
    }
}

/// A bound on the steps inside what a step asks for.
pub open spec fn step_weight(step: StepView) -> nat {
    match step {
        StepView::Modifier(_, modifier, e) => 1 + modifier_weight(*modifier) + parts_weight(e.parts),
        StepView::Quoted(parts, e) => 3 + parts_weight(parts@) + parts_weight(e.parts),
        _ => 0,
    }
}

/// A bound on the steps inside an evaluation that waits.
pub open spec fn frame_weight(frame: FrameView) -> nat {
    match frame {
        FrameView::Quoted(e) => 1 + parts_weight(e.parts),
        FrameView::Modifier(e, pending) => 1 + parts_weight(e.parts) + (match pending {
            PendingView::Begin { chars: _, length: Some(word) } => 2 + parts_weight(word.parts@),
            _ => 0,
        }),
    }
}

/// A bound on the steps inside evaluations that wait.
pub open spec fn stack_weight(stack: Seq<FrameView>) -> nat
    decreases stack.len(),
{
    if stack.len() == 0 {
        0
    } else {
        stack_weight(stack.drop_last()) + frame_weight(stack.last())
    }
}

// ---------------------------------------------------------------------------
// What happens inside

/// An evaluation that waits for one inside it.
#[verifier::ext_equal]
pub enum FrameView {
    /// For that of parts between quotes.
    Quoted(EvaluationView),
    /// For that of a word of a modifier.
    Modifier(EvaluationView, PendingView),
}

/// The evaluation of a word, at a point where it needs something from outside.
#[verifier::ext_equal]
pub struct RunView {
    /// The innermost evaluation.
    pub current: EvaluationView,
    /// Those around it; the last one comes next.
    pub stack: Seq<FrameView>,
}

/// What the evaluation of a word needs from outside, or what it came to.
#[verifier::ext_equal]
pub enum RunStepView {
    Substitution(Rc<SequentialList>, AsyncCommandBehavior, RunView),
    Home(RunView),
    Search(FilePatternView, RunView),
    Done(Result<WordPartsView, WordErrorView>),
}

/// What follows a step.
#[verifier::ext_equal]
pub enum Reduction {
    /// A step that needs nothing from outside: the state, the step, and the evaluations that wait.
    Inside(StateView, StepView, Seq<FrameView>),
    /// Something from outside, or the end.
    Outside(RunStepView),
}

/// What follows an evaluation inside that leads to a step.
pub open spec fn inside(next: (StateView, StepView), stack: Seq<FrameView>) -> Reduction {
    Reduction::Inside(next.0, next.1, stack)
}

/// How an evaluation goes on with a step of a modifier.
pub open spec fn after_modifier_step(
    step: ModifierStepView,
    e: EvaluationView,
    stack: Seq<FrameView>,
    s: StateView,
) -> Reduction {
    match step {
        ModifierStepView::Done(outcome) => inside(e.after_modifier(outcome, s), stack),
        ModifierStepView::Evaluate(word, pending) => inside(
            evaluation_start(word.parts@, IsQuoted::No, EvaluateGlob::Enabled).advanced(s),
            stack.push(FrameView::Modifier(e, pending)),
        ),
    }
}

/// What follows a step.
pub open spec fn reduced(step: StepView, stack: Seq<FrameView>, s: StateView) -> Reduction {
    match step {
        StepView::Modifier(name, modifier, e) => after_modifier_step(
            modifier_start(*modifier, name, s),
            e,
            stack,
            s,
        ),
        StepView::Quoted(parts, e) => inside(
            evaluation_start(parts@, IsQuoted::Yes, e.eval_glob).advanced(s),
            stack.push(FrameView::Quoted(e)),
        ),
        StepView::Done(outcome) => if stack.len() == 0 {
            Reduction::Outside(RunStepView::Done(outcome))
        } else {
            match stack.last() {
                FrameView::Quoted(e) => inside(e.after_quoted(outcome, s), stack.drop_last()),
                FrameView::Modifier(e, pending) => {
                    let (after, next) = pending.after_word(as_single(outcome), s);
                    after_modifier_step(next, e, stack.drop_last(), after)
                },
            }
        },
        StepView::Substitution(list, behavior, e) => Reduction::Outside(
            RunStepView::Substitution(list, behavior, RunView { current: e, stack }),
        ),
        StepView::Home(e) => Reduction::Outside(RunStepView::Home(RunView { current: e, stack })),
        StepView::Search(pattern, e) => Reduction::Outside(
            RunStepView::Search(pattern, RunView { current: e, stack }),
        ),
    }
}

/// Where the evaluation of a word comes to after a step, and the state that it leads to.
pub open spec fn settled(step: StepView, stack: Seq<FrameView>, s: StateView) -> (
    StateView,
    RunStepView,
)
    decreases step_weight(step) + stack_weight(stack),
{
    proof {
        lemma_reduction_gets_smaller(step, stack, s);
    }
    match reduced(step, stack, s) {
        Reduction::Inside(after, next, rest) => settled(next, rest, after),
        Reduction::Outside(next) => (s, next),
    }
}

proof fn lemma_step_is_no_larger(e: EvaluationView, s: StateView)
    ensures
        step_weight(e.advanced(s).1) <= parts_weight(e.parts),
    decreases
            e.parts.len(),
            e.pending.len() + if e.current.len() > 0 {
                2int
            } else {
                0
            },
{
    if e.pending.len() > 0 {
        let next = e.next_pending().with_words(seq![plain_text(e.pending[0])]);
        lemma_step_is_no_larger(next, s);
    } else if e.parts.len() > 0 {
        let rest = e.next_part();
        assert(parts_weight(e.parts) == part_weight(e.parts[0]) + parts_weight(rest.parts));
        match e.parts[0] {
            WordPart::Text(text) => {
                lemma_step_is_no_larger(
                    rest.with_piece(TextPartView::Text(text@)),
                    s,
                );
            },
            WordPart::Variable(name, None) => match s.var(name@) {
                Some(value) => {
                    lemma_step_is_no_larger(
                        rest.with_text(seq![TextPartView::Text(value)]),
                        s,
                    );
                },
                None => {
                    lemma_step_is_no_larger(rest, s);
                },
            },
            WordPart::Tilde(prefix) => {
                if prefix.user is Some {
                    lemma_step_is_no_larger(rest, s);
                }
            },
            WordPart::Arithmetic(arithmetic) => {
                let (s1, r) = parts_evaluated(arithmetic.parts@, s);
                if let Ok(v) = r {
                    lemma_step_is_no_larger(
                        rest.with_piece(
                            TextPartView::Text(
                                decimal(v.value as int),
                            ),
                        ).with_changes(v.changes),
                        s1,
                    );
                }
            },
            WordPart::ExitStatus => {
                lemma_step_is_no_larger(
                    rest.with_piece(
                        TextPartView::Text(
                            decimal(s.last_exit_code() as int),
                        ),
                    ),
                    s,
                );
            },
            _ => {},
        }
    } else if e.current.len() > 0 {
        lemma_step_is_no_larger(
            EvaluationView { pending: seq![e.current], current: seq![], ..e },
            s,
        );
    }
}

proof fn lemma_stack_push(stack: Seq<FrameView>, frame: FrameView)
    ensures
        stack_weight(stack.push(frame)) == stack_weight(stack) + frame_weight(frame),
{
    assert(stack.push(frame).drop_last() == stack);
}

proof fn lemma_modifier_step_gets_smaller(
    step: ModifierStepView,
    e: EvaluationView,
    stack: Seq<FrameView>,
    s: StateView,
)
    ensures
        after_modifier_step(step, e, stack, s) matches Reduction::Inside(_, next, rest)
            && step_weight(next) + stack_weight(rest) <= stack_weight(stack) + (match step {
            ModifierStepView::Done(_) => parts_weight(e.parts),
            ModifierStepView::Evaluate(word, pending) => parts_weight(word.parts@) + frame_weight(
                FrameView::Modifier(e, pending),
            ),
        }),
{
    match step {
        ModifierStepView::Done(outcome) => {
            if let Ok(modified) = outcome {
                match modified.changes {
                    Some(changes) => {
                        lemma_step_is_no_larger(
                            e.with_changes(changes).with_text(modified.text),
                            s,
                        );
                    },
                    None => {
                        lemma_step_is_no_larger(e.with_text(modified.text), s);
                    },
                }
            }
        },
        ModifierStepView::Evaluate(word, pending) => {
            lemma_step_is_no_larger(
                evaluation_start(word.parts@, IsQuoted::No, EvaluateGlob::Enabled),
                s,
            );
            lemma_stack_push(stack, FrameView::Modifier(e, pending));
        },
    }
}

spec fn shared_start(modifier: Rc<VariableModifier>, name: Seq<char>, s: StateView) -> ModifierStepView {
    modifier_start(*modifier, name, s)
}

/// Each step inside leaves less to evaluate, so that there are only so many.
pub proof fn lemma_reduction_gets_smaller(step: StepView, stack: Seq<FrameView>, s: StateView)
    ensures
        reduced(step, stack, s) matches Reduction::Inside(_, next, rest) ==> step_weight(next)
            + stack_weight(rest) < step_weight(step) + stack_weight(stack),
{
    match step {
        StepView::Modifier(name, modifier, e) => {
            lemma_modifier_step_gets_smaller(shared_start(modifier, name, s), e, stack, s);
        },
        StepView::Quoted(parts, e) => {
            lemma_step_is_no_larger(evaluation_start(parts@, IsQuoted::Yes, e.eval_glob), s);
            lemma_stack_push(stack, FrameView::Quoted(e));
        },
        StepView::Done(outcome) => {
            if stack.len() > 0 {
                let rest = stack.drop_last();
                match stack.last() {
                    FrameView::Quoted(e) => {
                        if let Ok(words) = outcome {
                            lemma_step_is_no_larger(
                                e.with_changes(words.changes).with_piece(
                                    TextPartView::Quoted(words.joined().value),
                                ),
                                s,
                            );
                        }
                    },
                    FrameView::Modifier(e, pending) => {
                        let (after, next) = pending.after_word(as_single(outcome), s);
                        lemma_modifier_step_gets_smaller(next, e, rest, after);
                    },
                }
            }
        },
        _ => {},
    }
}

impl RunView {
    /// How the evaluation goes on with the output of a command.
    pub open spec fn after_output(self, output: Seq<char>, s: StateView) -> (StateView, RunStepView) {
        let (after, step) = self.current.after_output(output, s);
        settled(step, self.stack, after)
    }

    /// How the evaluation goes on with the home directory.
    pub open spec fn after_home(self, home: Option<Seq<char>>, s: StateView) -> (
        StateView,
        RunStepView,
    ) {
        let (after, step) = self.current.after_home(home, s);
        settled(step, self.stack, after)
    }

    /// How the evaluation goes on with the files that a search found.
    pub open spec fn after_search(
        self,
        request: GlobRequestView,
        outcome: Result<Seq<Seq<char>>, (usize, Seq<char>)>,
        s: StateView,
    ) -> (StateView, RunStepView) {
        let (after, step) = self.current.after_search(request, outcome, s);
        settled(step, self.stack, after)
    }
}

/// How the evaluation of a word starts.
pub open spec fn run_start(parts: Seq<WordPart>, eval_glob: EvaluateGlob, s: StateView) -> (
    StateView,
    RunStepView,
) {
    let (after, step) = evaluation_start(parts, IsQuoted::No, eval_glob).advanced(s);
    settled(step, seq![], after)
}

// ---------------------------------------------------------------------------
// The evaluation

/// An evaluation that waits for one inside it.
#[derive(Debug)]
enum Frame {
    Quoted(WordEvaluation),
    Modifier(WordEvaluation, PendingModifier),
}

impl View for Frame {
    type V = FrameView;

    closed spec fn view(&self) -> FrameView {
        match self {
            Frame::Quoted(e) => FrameView::Quoted(e@),
            Frame::Modifier(e, pending) => FrameView::Modifier(e@, pending@),
        }
    }
}

spec fn frames(stack: Seq<Frame>) -> Seq<FrameView> {
    stack.map_values(|f: Frame| f@)
}

/// The evaluation of a word, at a point where it needs something from outside.
#[derive(Debug)]
pub struct WordRun {
    current: WordEvaluation,
    stack: Vec<Frame>,
}

impl View for WordRun {
    type V = RunView;

    closed spec fn view(&self) -> RunView {
        RunView { current: self.current@, stack: frames(self.stack@) }
    }
}

/// What the evaluation of a word needs from outside, or what it came to.
#[derive(Debug)]
pub enum RunStep {
    /// The output of the commands, run in a copy of the state.
    Substitution(Rc<SequentialList>, AsyncCommandBehavior, WordRun),
    /// The home directory.
    Home(WordRun),
    /// The files that match a pattern.
    Search(FilePattern, WordRun),
    Done(Result<WordPartsResult, EvaluateWordTextError>),
}

impl View for RunStep {
    type V = RunStepView;

    open spec fn view(&self) -> RunStepView {
        match self {
            RunStep::Substitution(list, behavior, run) => RunStepView::Substitution(
                *list,
                *behavior,
                run@,
            ),
            RunStep::Home(run) => RunStepView::Home(run@),
            RunStep::Search(pattern, run) => RunStepView::Search(pattern@, run@),
            RunStep::Done(r) => RunStepView::Done(word_outcome(*r)),
        }
    }
}

fn push_frame(stack: &mut Vec<Frame>, frame: Frame)
    ensures
        frames(final(stack)@) == frames(old(stack)@).push(frame@),
{
    let ghost before = stack@;
    stack.push(frame);
    assert(frames(before.push(frame)) == frames(before).push(frame@));
}

fn continue_modifier(
    step: ModifierStep,
    e: WordEvaluation,
    stack: &mut Vec<Frame>,
    state: &mut ShellState,
) -> (r: WordStep)
    ensures
        Reduction::Inside(final(state)@, r@, frames(final(stack)@)) == after_modifier_step(
            step@,
            e@,
            frames(old(stack)@),
            old(state)@,
        ),
{
    match step {
        ModifierStep::Done(outcome) => e.on_modifier(outcome, state),
        ModifierStep::Evaluate(word, pending) => {
            push_frame(stack, Frame::Modifier(e, pending));
            evaluate_word_parts(word.into_parts(), state, EvaluateGlob::Enabled)
        },
    }
}

fn settle(first: WordStep, waiting: Vec<Frame>, state: &mut ShellState) -> (r: RunStep)
    ensures
        (final(state)@, r@) == settled(first@, frames(waiting@), old(state)@),
{
    let mut step = first;
    let mut stack = waiting;
    loop
        invariant
            settled(step@, frames(stack@), state@) == settled(
                first@,
                frames(waiting@),
                old(state)@,
            ),
        decreases step_weight(step@) + stack_weight(frames(stack@)),
    {
        proof {
            lemma_reduction_gets_smaller(step@, frames(stack@), state@);
        }
        step = match step {
            WordStep::Substitution(list, behavior, e) => {
                return RunStep::Substitution(list, behavior, WordRun { current: e, stack });
            },
            WordStep::Home(e) => {
                return RunStep::Home(WordRun { current: e, stack });
            },
            WordStep::Search(pattern, e) => {
                return RunStep::Search(pattern, WordRun { current: e, stack });
            },
            WordStep::Modifier(name, modifier, e) => {
                let next = modifier.apply(name.as_str(), state);
                continue_modifier(next, e, &mut stack, state)
            },
            WordStep::Quoted(parts, e) => {
                let eval_glob = e.eval_glob();
                push_frame(&mut stack, Frame::Quoted(e));
                evaluate_quoted_parts(parts, state, eval_glob)
            },
            WordStep::Done(outcome) => {
                let ghost before = stack@;
                match stack.pop() {
                    None => {
                        return RunStep::Done(outcome);
                    },
                    Some(frame) => {
                        assert(frames(before).last() == frame@);
                        assert(frames(stack@) == frames(before).drop_last());
                        match frame {
                            Frame::Quoted(e) => e.on_quoted(outcome, state),
                            Frame::Modifier(e, pending) => {
                                let next = pending.on_word(single_word(outcome), state);
                                continue_modifier(next, e, &mut stack, state)
                            },
                        }
                    },
                }
            },
        };
    }
}

/// Starts the evaluation of a word.
pub fn run_word(word: Word, eval_glob: EvaluateGlob, state: &mut ShellState) -> (r: RunStep)
    ensures
        (final(state)@, r@) == run_start(word.parts@, eval_glob, old(state)@),
{
    let step = evaluate_word_parts(word.into_parts(), state, eval_glob);
    let stack: Vec<Frame> = Vec::new();
    assert(frames(stack@) == Seq::<FrameView>::empty());
    settle(step, stack, state)
}

impl WordRun {
    /// Goes on with the output of a command.
    pub fn on_output(self, output: &str, state: &mut ShellState) -> (r: RunStep)
        ensures
            (final(state)@, r@) == self@.after_output(output@, old(state)@),
    {
        let WordRun { current, stack } = self;
        let step = current.on_output(output, state);
        settle(step, stack, state)
    }

    /// Goes on with the output of a command as it was written: bytes that are no text are replaced.
    pub fn on_output_bytes(self, output: &Vec<u8>, state: &mut ShellState) -> (r: RunStep)
        ensures
            (final(state)@, r@) == self@.after_output(lossy_text(output@), old(state)@),
            valid_utf8(output@) ==> (final(state)@, r@) == self@.after_output(
                decode_utf8(output@),
                old(state)@,
            ),
    {
        let text = read_lossy(output);
        self.on_output(text.as_str(), state)
    }

    /// Goes on with the home directory.
    pub fn on_home(self, home: Option<String>, state: &mut ShellState) -> (r: RunStep)
        ensures
            (final(state)@, r@) == self@.after_home(
                match home {
                    Some(dir) => Some(dir@),
                    None => None,
                },
                old(state)@,
            ),
    {
        let WordRun { current, stack } = self;
        let step = current.on_home(home, state);
        settle(step, stack, state)
    }

    /// Goes on with the files that a search found. Where the pattern was relative, each of them
    /// lies below the working directory.
    pub fn on_search(
        self,
        request: GlobRequest,
        outcome: Result<Vec<GlobMatch>, PatternError>,
        state: &mut ShellState,
    ) -> (r: RunStep)
        requires
            !request.is_absolute ==> (outcome matches Ok(found) ==> forall|i: int|
                0 <= i < found@.len() ==> (#[trigger] found@[i]).relative is Some),
        ensures
            (final(state)@, r@) == self@.after_search(
                request@,
                search_outcome(outcome, request.is_absolute),
                old(state)@,
            ),
    {
        let WordRun { current, stack } = self;
        let step = current.on_search(request, outcome, state);
        settle(step, stack, state)
    }
}

// ---------------------------------------------------------------------------
// Laws

/// The pieces that the output of a command expands to.
pub open spec fn output_pieces(output: Seq<char>) -> Seq<TextPartView> {
    pieces_of(on_one_line(without_line_end(output)))
}

/// A command substitution on its own evaluates to the pieces of its output, where none of them
/// stands for files: each is a word. The commands are waited for.
pub proof fn law_substitution_splits_into_words(
    list: Rc<SequentialList>,
    eval_glob: EvaluateGlob,
    output: Seq<char>,
    s: StateView,
)
    requires
        forall|i: int|
            0 <= i < output_pieces(output).len() ==> !is_search(
                seq![#[trigger] output_pieces(output)[i]],
                IsQuoted::No,
                eval_glob,
            ),
    ensures
        ({
            let (before, step) = run_start(seq![WordPart::Command(list)], eval_glob, s);
            &&& before == s
            &&& step matches RunStepView::Substitution(asked, AsyncCommandBehavior::Wait, run)
            &&& asked == list
            &&& run.after_output(output, s) == (
                s,
                RunStepView::Done(
                    Ok(
                        WordPartsView {
                            value: piece_words(output_pieces(output)),
                            changes: seq![],
                        },
                    ),
                ),
            )
        }),
{
    let e = evaluation_start(seq![WordPart::Command(list)], IsQuoted::No, eval_glob);
    let rest = e.next_part();
    assert(e.parts[0] == WordPart::Command(list));
    assert(e.advanced(s) == (
        s,
        StepView::Substitution(list, AsyncCommandBehavior::Wait, rest),
    ));
    law_expanded_text_gives_its_pieces(rest, output_pieces(output), s);
    assert(rest.words.value + piece_words(output_pieces(output)) == piece_words(
        output_pieces(output),
    ));
}

/// A command substitution between quotes is one word: the pieces of its output, joined by spaces.
pub proof fn law_quoted_substitution_is_one_word(
    parts: Rc<Vec<WordPart>>,
    list: Rc<SequentialList>,
    eval_glob: EvaluateGlob,
    output: Seq<char>,
    s: StateView,
)
    requires
        parts@ == seq![WordPart::Command(list)],
    ensures
        ({
            let (before, step) = run_start(seq![WordPart::Quoted(parts)], eval_glob, s);
            &&& before == s
            &&& step matches RunStepView::Substitution(asked, AsyncCommandBehavior::Wait, run)
            &&& asked == list
            &&& run.after_output(output, s) == (
                s,
                RunStepView::Done(
                    Ok(
                        WordPartsView {
                            value: seq![join_text(piece_words(output_pieces(output)), seq![' '])],
                            changes: seq![],
                        },
                    ),
                ),
            )
        }),
{
    let outer = evaluation_start(seq![WordPart::Quoted(parts)], IsQuoted::No, eval_glob);
    let waiting = outer.next_part();
    assert(outer.parts[0] == WordPart::Quoted(parts));
    assert(outer.advanced(s) == (s, StepView::Quoted(parts, waiting)));
    let inner = evaluation_start(seq![WordPart::Command(list)], IsQuoted::Yes, eval_glob);
    let rest = inner.next_part();
    assert(inner.parts[0] == WordPart::Command(list));
    let asked = StepView::Substitution(list, AsyncCommandBehavior::Wait, rest);
    assert(inner.advanced(s) == (s, asked));
    let stack = seq![FrameView::Quoted(waiting)];
    let none = Seq::<FrameView>::empty();
    assert(none.push(FrameView::Quoted(waiting)) == stack);
    assert(settled(StepView::Quoted(parts, waiting), none, s) == settled(asked, stack, s));
    let run = RunView { current: rest, stack };
    assert(settled(asked, stack, s) == (
        s,
        RunStepView::Substitution(list, AsyncCommandBehavior::Wait, run),
    ));
    let pieces = output_pieces(output);
    law_expanded_text_gives_its_pieces(rest, pieces, s);
    let words = WordPartsView { value: piece_words(pieces), changes: seq![] };
    assert(rest.words.value + piece_words(pieces) == piece_words(pieces));
    let done = StepView::Done(Ok(words));
    assert(rest.after_output(output, s) == (s, done));
    let word = TextPartView::Quoted(words.joined().value);
    let last = waiting.with_changes(words.changes).with_piece(word);
    assert(last.words == waiting.words);
    assert(last.current == seq![word]);
    law_expanded_text_gives_its_pieces(waiting, seq![word], s);
    assert(waiting.with_text(seq![word]) == last);
    assert(seq![seq![word][0]] == seq![word]);
    assert(piece_words(seq![word]) == seq![words.joined().value]);
    assert(waiting.words.value + piece_words(seq![word]) == seq![words.joined().value]);
    let end = StepView::Done(
        Ok(WordPartsView { value: seq![words.joined().value], changes: seq![] }),
    );
    assert(waiting.after_quoted(Ok(words), s) == (s, end));
    assert(stack.drop_last() == none);
    assert(settled(done, stack, s) == settled(end, none, s));
}

/// What a word asks for from outside is asked for as it is; the evaluation that asked goes on with the
/// reply, and those around it still wait.
pub proof fn law_requests_go_outside(
    e: EvaluationView,
    list: Rc<SequentialList>,
    behavior: AsyncCommandBehavior,
    pattern: FilePatternView,
    stack: Seq<FrameView>,
    s: StateView,
)
    ensures
        settled(StepView::Substitution(list, behavior, e), stack, s) == (
            s,
            RunStepView::Substitution(list, behavior, RunView { current: e, stack }),
        ),
        settled(StepView::Home(e), stack, s) == (s, RunStepView::Home(RunView { current: e, stack })),
        settled(StepView::Search(pattern, e), stack, s) == (
            s,
            RunStepView::Search(pattern, RunView { current: e, stack }),
        ),
        forall|outcome: Result<WordPartsView, WordErrorView>| #[trigger]
            settled(StepView::Done(outcome), seq![], s) == (s, RunStepView::Done(outcome)),
{
}

/// A part between quotes is evaluated as quoted, and as its word is with regard to patterns; what it
/// comes to goes into the word around it.
pub proof fn law_quotes_are_evaluated_inside(
    parts: Rc<Vec<WordPart>>,
    e: EvaluationView,
    outcome: Result<WordPartsView, WordErrorView>,
    stack: Seq<FrameView>,
    s: StateView,
)
    ensures
        ({
            let (after, step) = evaluation_start(parts@, IsQuoted::Yes, e.eval_glob).advanced(s);
            settled(StepView::Quoted(parts, e), stack, s) == settled(
                step,
                stack.push(FrameView::Quoted(e)),
                after,
            )
        }),
        ({
            let (after, step) = e.after_quoted(outcome, s);
            settled(StepView::Done(outcome), stack.push(FrameView::Quoted(e)), s) == settled(
                step,
                stack,
                after,
            )
        }),
{
    assert(stack.push(FrameView::Quoted(e)).drop_last() == stack);
    assert(stack.push(FrameView::Quoted(e)).last() == FrameView::Quoted(e));
}

/// The word of a modifier is evaluated as not quoted and with patterns enabled, whatever the word around
/// it is; its single word goes to the modifier. What the modifier comes to goes into the word around
/// it.
pub proof fn law_modifier_words_are_evaluated_inside(
    name: Seq<char>,
    modifier: Rc<VariableModifier>,
    e: EvaluationView,
    pending: PendingView,
    outcome: Result<WordPartsView, WordErrorView>,
    stack: Seq<FrameView>,
    s: StateView,
)
    ensures
        match modifier_start(*modifier, name, s) {
            ModifierStepView::Done(text) => {
                let (after, step) = e.after_modifier(text, s);
                settled(StepView::Modifier(name, modifier, e), stack, s) == settled(
                    step,
                    stack,
                    after,
                )
            },
            ModifierStepView::Evaluate(word, waits) => {
                let (after, step) = evaluation_start(
                    word.parts@,
                    IsQuoted::No,
                    EvaluateGlob::Enabled,
                ).advanced(s);
                settled(StepView::Modifier(name, modifier, e), stack, s) == settled(
                    step,
                    stack.push(FrameView::Modifier(e, waits)),
                    after,
                )
            },
        },
        ({
            let waiting = stack.push(FrameView::Modifier(e, pending));
            let single = match outcome {
                Ok(words) => Ok::<WordView, WordErrorView>(
                    WordView {
                        value: join_text(words.value, seq![' ']),
                        changes: words.changes,
                    },
                ),
                Err(error) => Err(error),
            };
            let (between, next) = pending.after_word(single, s);
            match next {
                ModifierStepView::Done(text) => {
                    let (after, step) = e.after_modifier(text, between);
                    settled(StepView::Done(outcome), waiting, s) == settled(step, stack, after)
                },
                ModifierStepView::Evaluate(word, waits) => {
                    let (after, step) = evaluation_start(
                        word.parts@,
                        IsQuoted::No,
                        EvaluateGlob::Enabled,
                    ).advanced(between);
                    settled(StepView::Done(outcome), waiting, s) == settled(
                        step,
                        stack.push(FrameView::Modifier(e, waits)),
                        after,
                    )
                },
            }
        }),
{
    let waiting = stack.push(FrameView::Modifier(e, pending));
    assert(waiting.drop_last() == stack);
    assert(waiting.last() == FrameView::Modifier(e, pending));
}

/// A reply from outside goes to the innermost evaluation, and a word starts as not quoted.
pub proof fn law_replies_go_to_the_innermost(
    run: RunView,
    parts: Seq<WordPart>,
    eval_glob: EvaluateGlob,
    output: Seq<char>,
    home: Option<Seq<char>>,
    request: GlobRequestView,
    outcome: Result<Seq<Seq<char>>, (usize, Seq<char>)>,
    s: StateView,
)
    ensures
        ({
            let (after, step) = run.current.after_output(output, s);
            run.after_output(output, s) == settled(step, run.stack, after)
        }),
        ({
            let (after, step) = run.current.after_home(home, s);
            run.after_home(home, s) == settled(step, run.stack, after)
        }),
        ({
            let (after, step) = run.current.after_search(request, outcome, s);
            run.after_search(request, outcome, s) == settled(step, run.stack, after)
        }),
        ({
            let (after, step) = evaluation_start(parts, IsQuoted::No, eval_glob).advanced(s);
            run_start(parts, eval_glob, s) == settled(step, seq![], after)
        }),
{
}

/// An unquoted word that is a single variable whose value holds a wildcard stands for the files that
/// match the value in the working directory: it asks for them, and they are its words.
pub proof fn law_unquoted_variable_stands_for_files(
    name: String,
    request: GlobRequestView,
    paths: Seq<Seq<char>>,
    s: StateView,
)
    requires
        s.var(name@) is Some,
        s.var(name@)->0.contains('?') || s.var(name@)->0.contains('*') || s.var(name@)->0.contains(
            '[',
        ),
        paths.len() > 0,
    ensures
        ({
            let (end, step) = run_start(
                seq![WordPart::Variable(name, None)],
                EvaluateGlob::Enabled,
                s,
            );
            &&& end == s
            &&& step matches RunStepView::Search(pattern, run)
            &&& pattern.text == s.var(name@)->0
            &&& pattern.cwd == s.cwd
            &&& run.after_search(request, Ok(paths), s) == (
                s,
                RunStepView::Done(Ok(WordPartsView { value: paths, changes: seq![] })),
            )
        }),
{
    law_variable_with_a_wildcard_searches(name, s);
    let e = evaluation_start(
        seq![WordPart::Variable(name, None)],
        IsQuoted::No,
        EvaluateGlob::Enabled,
    );
    let step = e.advanced(s).1;
    let rest = step->Search_1;
    assert(rest.after_search(request, Ok(paths), s) == (
        s,
        StepView::Done(Ok(WordPartsView { value: paths, changes: seq![] })),
    ));
}

/// A variable between quotes is one word with its value, whatever the value holds: neither spaces nor
/// wildcards have a meaning in it.
pub proof fn law_quoted_variable_is_one_word(
    name: String,
    parts: Rc<Vec<WordPart>>,
    eval_glob: EvaluateGlob,
    s: StateView,
)
    requires
        s.var(name@) is Some,
        parts@ == seq![WordPart::Variable(name, None)],
    ensures
        run_start(seq![WordPart::Quoted(parts)], eval_glob, s) == (
            s,
            RunStepView::Done(
                Ok(WordPartsView { value: seq![s.var(name@)->0], changes: seq![] }),
            ),
        ),
{
    let value = s.var(name@)->0;
    let outer = evaluation_start(seq![WordPart::Quoted(parts)], IsQuoted::No, eval_glob);
    let waiting = outer.next_part();
    assert(outer.parts[0] == WordPart::Quoted(parts));
    assert(outer.advanced(s) == (s, StepView::Quoted(parts, waiting)));
    let inner = evaluation_start(parts@, IsQuoted::Yes, eval_glob);
    let words = WordPartsView { value: seq![value], changes: seq![] };
    let done = StepView::Done(Ok(words));
    if value.contains('?') || value.contains('*') || value.contains('[') {
        law_variable_with_a_wildcard_searches(name, s);
    } else {
        crate::pattern::law_three_characters_make_a_pattern(value);
        law_variable_is_one_word(name, IsQuoted::Yes, eval_glob, s);
    }
    assert(inner.advanced(s) == (s, done));
    let none = Seq::<FrameView>::empty();
    law_quotes_are_evaluated_inside(parts, waiting, Ok(words), none, s);
    crate::text::law_joining_adds_at_the_end(seq![], seq![' '], value);
    let word = TextPartView::Quoted(value);
    let last = waiting.with_changes(words.changes).with_piece(word);
    assert(last.words == waiting.words);
    assert(last.current == seq![word]);
    law_expanded_text_gives_its_pieces(waiting, seq![word], s);
    assert(waiting.with_text(seq![word]) == last);
    assert(seq![seq![word][0]] == seq![word]);
    assert(piece_words(seq![word]) == seq![value]);
    assert(waiting.words.value + piece_words(seq![word]) == seq![value]);
    assert(waiting.after_quoted(Ok(words), s) == (s, done));
}

} // verus!
