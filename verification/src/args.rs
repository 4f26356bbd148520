//! Single words, and the arguments of a command.

use crate::state::ShellState;
use crate::syntax::Word;
use crate::word_run::{run_start, run_word, RunStep};
use crate::words::{
    single_outcome, word_outcome, EvaluateGlob, EvaluateWordTextError, WordErrorView,
    WordPartsResult, WordPartsView, WordResult, WordView,
};
use std::rc::Rc;
use vstd::prelude::*;

verus! {

/// Starts the evaluation of a word, in which glob patterns stand for files.
pub fn evaluate_word(word: Word, state: &mut ShellState) -> (r: RunStep)
    ensures
        (final(state)@, r@) == run_start(word.parts@, EvaluateGlob::Enabled, old(state)@),
{
    run_word(word, EvaluateGlob::Enabled, state)
}

/// Starts the evaluation of a word, in which glob patterns stand for themselves.
pub fn evaluate_word_no_glob(word: Word, state: &mut ShellState) -> (r: RunStep)
    ensures
        (final(state)@, r@) == run_start(word.parts@, EvaluateGlob::Disabled, old(state)@),
{
    run_word(word, EvaluateGlob::Disabled, state)
}

/// The single word that an evaluation came to.
pub open spec fn as_single(outcome: Result<WordPartsView, WordErrorView>) -> Result<
    WordView,
    WordErrorView,
> {
    match outcome {
        Ok(words) => Ok(words.joined()),
        Err(e) => Err(e),
    }
}

/// The single word that an evaluation came to.
pub fn single_word(outcome: Result<WordPartsResult, EvaluateWordTextError>) -> (r: Result<
    WordResult,
    EvaluateWordTextError,
>)
    ensures
        single_outcome(r) == as_single(word_outcome(outcome)),
{
    match outcome {
        Ok(parts) => Ok(parts.into_word()),
        Err(err) => Err(err),
    }
}

// ---------------------------------------------------------------------------
// Arguments

/// How far the evaluation of arguments has come.
#[verifier::ext_equal]
pub struct ArgsView {
    /// The arguments that are still to be evaluated.
    pub rest: Seq<Word>,
    pub words: WordPartsView,
}

/// What the evaluation of arguments does next.
#[verifier::ext_equal]
pub enum ArgsStepView {
    Evaluate(Word, ArgsView),
    Done(Result<WordPartsView, WordErrorView>),
}

/// No words.
pub open spec fn no_words() -> WordPartsView {
    WordPartsView { value: seq![], changes: seq![] }
}

/// How the evaluation of arguments starts.
pub open spec fn args_start(args: Seq<Word>) -> ArgsStepView {
    ArgsView { rest: args, words: no_words() }.advanced()
}

impl ArgsView {
    /// How the evaluation goes on with its next argument.
    pub open spec fn advanced(self) -> ArgsStepView {
        if self.rest.len() > 0 {
            ArgsStepView::Evaluate(self.rest[0], ArgsView { rest: self.rest.skip(1), ..self })
        } else {
            ArgsStepView::Done(Ok(self.words))
        }
    }

    /// How the evaluation goes on with the words of an argument.
    pub open spec fn after_words(self, outcome: Result<WordPartsView, WordErrorView>) -> ArgsStepView {
        match outcome {
            Err(e) => ArgsStepView::Done(Err(e)),
            Ok(words) => ArgsView {
                words: WordPartsView {
                    value: self.words.value + words.value,
                    changes: self.words.changes + words.changes,
                },
                ..self
            }.advanced(),
        }
    }
}

/// The evaluation of arguments, at a point where it needs the words of one of them.
#[derive(Debug)]
pub struct ArgsEvaluation {
    args: Rc<Vec<Word>>,
    next: usize,
    result: WordPartsResult,
}

impl View for ArgsEvaluation {
    type V = ArgsView;

    closed spec fn view(&self) -> ArgsView {
        ArgsView {
            rest: if self.next <= self.args@.len() {
                self.args@.skip(self.next as int)
            } else {
                seq![]
            },
            words: self.result@,
        }
    }
}

/// What the evaluation of arguments needs next, or what it came to.
#[derive(Debug)]
pub enum ArgsStep {
    /// The words that an argument evaluates to, with its glob patterns.
    Evaluate(Word, ArgsEvaluation),
    Done(Result<WordPartsResult, EvaluateWordTextError>),
}

impl View for ArgsStep {
    type V = ArgsStepView;

    open spec fn view(&self) -> ArgsStepView {
        match self {
            ArgsStep::Evaluate(word, e) => ArgsStepView::Evaluate(*word, e@),
            ArgsStep::Done(r) => ArgsStepView::Done(word_outcome(*r)),
        }
    }
}

/// Starts the evaluation of arguments.
pub fn evaluate_args(args: Rc<Vec<Word>>) -> (r: ArgsStep)
    ensures
        r@ == args_start(args@),
{
    assert(args@.skip(0) == args@);
    ArgsEvaluation { args, next: 0, result: WordPartsResult::empty() }.advance()
}

impl ArgsEvaluation {
    fn advance(self) -> (r: ArgsStep)
        ensures
            r@ == self@.advanced(),
    {
        let mut e = self;
        if e.next < e.args.len() {
            let word = e.args[e.next].share();
            assert(self.args@.skip(self.next as int).skip(1) == self.args@.skip(self.next + 1));
            e.next += 1;
            ArgsStep::Evaluate(word, e)
        } else {
            ArgsStep::Done(Ok(e.result))
        }
    }

    /// Goes on with the words of an argument.
    pub fn on_words(self, outcome: Result<WordPartsResult, EvaluateWordTextError>) -> (r: ArgsStep)
        ensures
            r@ == self@.after_words(word_outcome(outcome)),
    {
        match outcome {
            Err(err) => ArgsStep::Done(Err(err)),
            Ok(words) => {
                let mut e = self;
                e.result.extend(words);
                e.advance()
            },
        }
    }
}

// ---------------------------------------------------------------------------
// Laws

/// The evaluation of arguments with the outcomes of their evaluation, as far as they are given.
pub open spec fn args_driven(
    step: ArgsStepView,
    outcomes: Seq<Result<WordPartsView, WordErrorView>>,
) -> ArgsStepView
    decreases outcomes.len(),
{
    if outcomes.len() == 0 {
        step
    } else {
        match args_driven(step, outcomes.drop_last()) {
            ArgsStepView::Evaluate(_, e) => e.after_words(outcomes.last()),
            done => done,
        }
    }
}

/// The words and changes of several results, one after the other.
pub open spec fn all_words(results: Seq<WordPartsView>) -> WordPartsView
    decreases results.len(),
{
    if results.len() == 0 {
        no_words()
    } else {
        let before = all_words(results.drop_last());
        WordPartsView {
            value: before.value + results.last().value,
            changes: before.changes + results.last().changes,
        }
    }
}

/// Arguments are evaluated from left to right, and each adds its words and changes behind those
/// of the ones before it.
pub proof fn law_arguments_in_order(args: Seq<Word>, results: Seq<WordPartsView>)
    requires
        results.len() <= args.len(),
    ensures
        args_driven(
            args_start(args),
            results.map_values(|w: WordPartsView| Ok::<WordPartsView, WordErrorView>(w)),
        ) == (ArgsView { rest: args.skip(results.len() as int), words: all_words(results) }).advanced(),
    decreases results.len(),
{
    let outcomes = results.map_values(|w: WordPartsView| Ok::<WordPartsView, WordErrorView>(w));
    if results.len() == 0 {
        assert(args.skip(0) == args);
    } else {
        let less = results.drop_last();
        law_arguments_in_order(args, less);
        assert(outcomes.drop_last() == less.map_values(
            |w: WordPartsView| Ok::<WordPartsView, WordErrorView>(w),
        ));
        assert(args.skip(less.len() as int).skip(1) == args.skip(results.len() as int));
    }
}

/// An argument that cannot be evaluated ends the evaluation, whatever comes after it.
pub proof fn law_first_bad_argument_ends(e: ArgsView, err: WordErrorView)
    ensures
        e.after_words(Err(err)) == ArgsStepView::Done(Err(err)),
{
}

/// The words of an argument come behind those before it, and so do its changes. Where arguments are left
/// the next one is evaluated, else all the words are there. Without arguments there are no words.
pub proof fn law_next_argument_comes_behind(e: ArgsView, words: WordPartsView, args: Seq<Word>)
    ensures
        ({
            let value = e.words.value + words.value;
            let changes = e.words.changes + words.changes;
            &&& e.rest.len() == 0 ==> e.after_words(Ok(words)) == ArgsStepView::Done(
                Ok(WordPartsView { value, changes }),
            )
            &&& e.rest.len() > 0 ==> e.after_words(Ok(words)) == ArgsStepView::Evaluate(
                e.rest[0],
                ArgsView { rest: e.rest.skip(1), words: WordPartsView { value, changes } },
            )
        }),
        args.len() == 0 ==> args_start(args) == ArgsStepView::Done(
            Ok(WordPartsView { value: seq![], changes: seq![] }),
        ),
        args.len() > 0 ==> args_start(args) == ArgsStepView::Evaluate(
            args[0],
            ArgsView {
                rest: args.skip(1),
                words: WordPartsView { value: seq![], changes: seq![] },
            },
        ),
{
}

/// The single word of an evaluation is its words with a space between each two, and an error stays one.
pub proof fn law_single_word_joins(words: WordPartsView, error: WordErrorView)
    ensures
        as_single(Ok(words)) == Ok::<WordView, WordErrorView>(
            WordView {
                value: crate::text::join_text(words.value, seq![' ']),
                changes: words.changes,
            },
        ),
        as_single(Err(error)) == Err::<WordView, WordErrorView>(error),
{
}

} // verus!
