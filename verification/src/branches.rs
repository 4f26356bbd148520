//! `if` and `case`.

use crate::condition::{condition_outcome, ConditionView, ConditionalResult};
use crate::list::AsyncCommandBehavior;
use crate::pattern::{case_matches, pattern_matches};
use crate::run::{
    behind, failed_on_word, finished_with, no_progress, put_behind, Finished, FinishedView, Progress,
};
use crate::state::{law_changes_replay, ShellState, StateView};
use crate::syntax::{CaseClause, Condition, ElsePart, IfClause, SequentialList, Word};
use crate::types::{
    changes_view, extend_changes, EnvChange, EnvChangeView, ExecuteResult, ResultView,
};
use crate::words::{single_outcome, EvaluateWordTextError, WordErrorView, WordResult, WordView};
use std::rc::Rc;
use vstd::prelude::*;

verus! {

// ---------------------------------------------------------------------------
// `if`

/// How far an `if` has come: the branch whose condition is asked, and the changes so far.
#[verifier::ext_equal]
pub struct IfView {
    pub clause: IfClause,
    pub changes: Seq<EnvChangeView>,
}

/// What an `if` does next.
#[verifier::ext_equal]
pub enum IfStepView<H> {
    Condition(Condition, IfView),
    /// The body runs, and its result is put behind these changes.
    Body(SequentialList, AsyncCommandBehavior, Seq<EnvChangeView>),
    Done(FinishedView<H>),
}

/// How an `if` starts.
pub open spec fn if_start<H>(clause: IfClause) -> IfStepView<H> {
    IfView { clause, changes: seq![] }.ask()
}

/// The result of an `if` that runs nothing.
pub open spec fn no_branch<H>(changes: Seq<EnvChangeView>) -> ResultView<H> {
    ResultView { exits: false, code: 0, changes, handles: seq![] }
}

impl IfView {
    /// The branch asks its condition.
    pub open spec fn ask<H>(self) -> IfStepView<H> {
        IfStepView::Condition(*self.clause.condition, self)
    }

    /// How the `if` goes on with a condition.
    pub open spec fn after_condition<H>(
        self,
        outcome: Result<ConditionView, WordErrorView>,
    ) -> IfStepView<H> {
        match outcome {
            Err(e) => IfStepView::Done(failed_on_word(e)),
            Ok(condition) => {
                let changes = self.changes + condition.changes;
                if condition.value {
                    IfStepView::Body(
                        *self.clause.then_body,
                        AsyncCommandBehavior::Yield,
                        changes,
                    )
                } else {
                    match self.clause.else_part {
                        Some(ElsePart::Elif(clause)) => IfView { clause: *clause, changes }.ask(),
                        Some(ElsePart::Else(body)) => IfStepView::Body(
                            *body,
                            AsyncCommandBehavior::Yield,
                            changes,
                        ),
                        None => IfStepView::Done(finished_with(no_branch(changes))),
                    }
                }
            },
        }
    }
}

/// An `if` whose condition is being evaluated.
#[derive(Debug)]
pub struct IfRun {
    clause: Rc<IfClause>,
    changes: Vec<EnvChange>,
}

impl View for IfRun {
    type V = IfView;

    closed spec fn view(&self) -> IfView {
        IfView { clause: *self.clause, changes: changes_view(self.changes@) }
    }
}

/// An `if` whose body is running.
#[derive(Debug)]
pub struct IfBody {
    changes: Vec<EnvChange>,
}

impl View for IfBody {
    type V = Seq<EnvChangeView>;

    closed spec fn view(&self) -> Seq<EnvChangeView> {
        changes_view(self.changes@)
    }
}

/// What an `if` needs next, or what it came to.
#[derive(Debug)]
pub enum IfStep<H> {
    /// Whether the condition holds.
    Condition(Rc<Condition>, IfRun),
    /// The result of the body.
    Body(Rc<SequentialList>, AsyncCommandBehavior, IfBody),
    Done(Finished<H>),
}

impl<H> View for IfStep<H> {
    type V = IfStepView<H>;

    open spec fn view(&self) -> IfStepView<H> {
        match self {
            IfStep::Condition(condition, run) => IfStepView::Condition(**condition, run@),
            IfStep::Body(body, behavior, run) => IfStepView::Body(**body, *behavior, run@),
            IfStep::Done(finished) => IfStepView::Done(finished@),
        }
    }
}

/// Starts an `if`.
pub fn execute_if_clause<H>(clause: Rc<IfClause>) -> (r: IfStep<H>)
    ensures
        r@ == if_start::<H>(*clause),
{
    let run = IfRun { clause, changes: Vec::new() };
    assert(run@.changes == Seq::<EnvChangeView>::empty());
    run.ask()
}

impl IfRun {
    fn ask<H>(self) -> (r: IfStep<H>)
        ensures
            r@ == self@.ask::<H>(),
    {
        IfStep::Condition(self.clause.condition.clone(), self)
    }

    /// Goes on with the condition.
    pub fn on_condition<H>(
        self,
        outcome: Result<ConditionalResult, EvaluateWordTextError>,
    ) -> (r: IfStep<H>)
        ensures
            r@ == self@.after_condition::<H>(condition_outcome(outcome)),
    {
        let mut changes = self.changes;
        let condition = match outcome {
            Err(err) => return IfStep::Done(Finished::word_failure(err)),
            Ok(condition) => condition,
        };
        extend_changes(&mut changes, condition.changes);
        if condition.value {
            return IfStep::Body(
                self.clause.then_body.clone(),
                AsyncCommandBehavior::Yield,
                IfBody { changes },
            );
        }
        match &self.clause.else_part {
            Some(ElsePart::Elif(clause)) => IfRun { clause: clause.clone(), changes }.ask(),
            Some(ElsePart::Else(body)) => IfStep::Body(
                body.clone(),
                AsyncCommandBehavior::Yield,
                IfBody { changes },
            ),
            None => IfStep::Done(
                Finished::with(ExecuteResult::Continue(0, changes, Vec::new())),
            ),
        }
    }
}

impl IfBody {
    /// The result of the `if`, after its body.
    pub fn on_body<H>(self, result: ExecuteResult<H>) -> (r: ExecuteResult<H>)
        ensures
            r@ == behind(self@, result@),
    {
        put_behind(self.changes, result)
    }
}

// ---------------------------------------------------------------------------
// `case`

/// The patterns of one branch, each with the body of the branch.
pub open spec fn branch_pairs(branch: (Vec<Word>, Rc<SequentialList>)) -> Seq<
    (Word, SequentialList),
> {
    branch.0@.map_values(|pattern: Word| (pattern, *branch.1))
}

/// The patterns of several branches, in order, each with the body of its branch.
pub open spec fn case_pairs(branches: Seq<(Vec<Word>, Rc<SequentialList>)>) -> Seq<
    (Word, SequentialList),
>
    decreases branches.len(),
{
    if branches.len() == 0 {
        seq![]
    } else {
        case_pairs(branches.drop_last()) + branch_pairs(branches.last())
    }
}

/// How far a `case` has come.
#[verifier::ext_equal]
pub struct CaseView {
    /// The word that is looked for.
    pub word: Seq<char>,
    /// The body that runs where the pattern in question matches.
    pub body: SequentialList,
    /// The patterns that are still to come, each with its body.
    pub rest: Seq<(Word, SequentialList)>,
}

/// What a `case` does next.
#[verifier::ext_equal]
pub enum CaseStepView<H> {
    Pattern(Word, CaseView),
    Body(SequentialList, AsyncCommandBehavior),
    Done(FinishedView<H>),
}

/// How a `case` goes on with the patterns that are still to come, and the state that it leads to.
pub open spec fn case_advanced<H>(
    word: Seq<char>,
    rest: Seq<(Word, SequentialList)>,
    s: StateView,
) -> (StateView, CaseStepView<H>) {
    if rest.len() > 0 {
        (
            s,
            CaseStepView::Pattern(
                rest[0].0,
                CaseView { word, body: rest[0].1, rest: rest.skip(1) },
            ),
        )
    } else {
        let (end, finished) = no_progress::<H>().concluded(s);
        (end, CaseStepView::Done(finished))
    }
}

/// How a `case` goes on with the value of its word, and the state that it leads to.
pub open spec fn case_word<H>(
    pairs: Seq<(Word, SequentialList)>,
    outcome: Result<WordView, WordErrorView>,
    s: StateView,
) -> (StateView, CaseStepView<H>) {
    match outcome {
        Err(e) => (s, CaseStepView::Done(failed_on_word(e))),
        Ok(word) => case_advanced(word.value, pairs, s),
    }
}

impl CaseView {
    /// How the `case` goes on where the pattern matches, or does not.
    pub open spec fn after_match<H>(self, matched: bool, s: StateView) -> (
        StateView,
        CaseStepView<H>,
    ) {
        if matched {
            (s, CaseStepView::Body(self.body, AsyncCommandBehavior::Yield))
        } else {
            case_advanced(self.word, self.rest, s)
        }
    }

    /// How the `case` goes on with the value of a pattern.
    pub open spec fn after_pattern<H>(
        self,
        outcome: Result<WordView, WordErrorView>,
        s: StateView,
    ) -> (StateView, CaseStepView<H>) {
        match outcome {
            Err(e) => (s, CaseStepView::Done(failed_on_word(e))),
            Ok(pattern) => self.after_match(case_matches(pattern.value, self.word), s),
        }
    }
}

/// A `case` that waits for the value of its word.
#[derive(Debug)]
pub struct CaseStart {
    pairs: Vec<(Word, Rc<SequentialList>)>,
}

spec fn pairs_view(pairs: Seq<(Word, Rc<SequentialList>)>) -> Seq<(Word, SequentialList)> {
    pairs.map_values(|p: (Word, Rc<SequentialList>)| (p.0, *p.1))
}

impl View for CaseStart {
    type V = Seq<(Word, SequentialList)>;

    closed spec fn view(&self) -> Seq<(Word, SequentialList)> {
        pairs_view(self.pairs@)
    }
}

/// A `case` that waits for the value of a pattern.
#[derive(Debug)]
pub struct CaseRun {
    word: String,
    body: Rc<SequentialList>,
    rest: Vec<(Word, Rc<SequentialList>)>,
}

impl View for CaseRun {
    type V = CaseView;

    closed spec fn view(&self) -> CaseView {
        CaseView { word: self.word@, body: *self.body, rest: pairs_view(self.rest@) }
    }
}

/// What a `case` needs next, or what it came to.
#[derive(Debug)]
pub enum CaseStep<H> {
    /// The value of a pattern.
    Pattern(Word, CaseRun),
    /// The result of a body, for [`finish_case`].
    Body(Rc<SequentialList>, AsyncCommandBehavior),
    Done(Finished<H>),
}

impl<H> View for CaseStep<H> {
    type V = CaseStepView<H>;

    open spec fn view(&self) -> CaseStepView<H> {
        match self {
            CaseStep::Pattern(pattern, run) => CaseStepView::Pattern(*pattern, run@),
            CaseStep::Body(body, behavior) => CaseStepView::Body(**body, *behavior),
            CaseStep::Done(finished) => CaseStepView::Done(finished@),
        }
    }
}

/// Starts a `case`: its word is evaluated.
pub fn execute_case_clause(clause: &CaseClause) -> (r: (Word, CaseStart))
    ensures
        r.0 == clause.word,
        r.1@ == case_pairs(clause.cases@),
{
    let mut pairs: Vec<(Word, Rc<SequentialList>)> = Vec::new();
    let mut i: usize = 0;
    assert(pairs_view(pairs@) == case_pairs(clause.cases@.take(0)));
    while i < clause.cases.len()
        invariant
            i <= clause.cases@.len(),
            pairs_view(pairs@) == case_pairs(clause.cases@.take(i as int)),
        decreases clause.cases.len() - i,
    {
        let ghost before = pairs@;
        let ghost branch = clause.cases@[i as int];
        let patterns = &clause.cases[i].0;
        let mut j: usize = 0;
        while j < patterns.len()
            invariant
                i < clause.cases@.len(),
                branch == clause.cases@[i as int],
                *patterns == branch.0,
                j <= patterns@.len(),
                pairs_view(pairs@) == pairs_view(before) + branch_pairs(branch).take(j as int),
            decreases patterns.len() - j,
        {
            let ghost so_far = pairs@;
            pairs.push((patterns[j].share(), clause.cases[i].1.clone()));
            assert(pairs_view(pairs@) == pairs_view(so_far).push(branch_pairs(branch)[j as int]));
            assert(branch_pairs(branch).take(j + 1) == branch_pairs(branch).take(j as int).push(
                branch_pairs(branch)[j as int],
            ));
            j += 1;
        }
        assert(branch_pairs(branch).take(j as int) == branch_pairs(branch));
        assert(clause.cases@.take(i + 1).drop_last() == clause.cases@.take(i as int));
        assert(clause.cases@.take(i + 1).last() == branch);
        i += 1;
    }
    assert(clause.cases@.take(i as int) == clause.cases@);
    (clause.word.share(), CaseStart { pairs })
}

fn advance_case<H>(
    word: String,
    rest: Vec<(Word, Rc<SequentialList>)>,
    state: &mut ShellState,
) -> (r: CaseStep<H>)
    ensures
        (final(state)@, r@) == case_advanced::<H>(word@, pairs_view(rest@), old(state)@),
{
    let mut rest = rest;
    if rest.len() > 0 {
        let ghost before = rest@;
        let (pattern, body) = rest.remove(0);
        assert(pairs_view(before)[0] == (pattern, *body));
        assert(pairs_view(rest@) == pairs_view(before).skip(1));
        CaseStep::Pattern(pattern, CaseRun { word, body, rest })
    } else {
        let progress: Progress<H> = Progress::new();
        CaseStep::Done(progress.conclude(state))
    }
}

impl CaseStart {
    /// Goes on with the value of the word.
    pub fn on_word<H>(
        self,
        outcome: Result<WordResult, EvaluateWordTextError>,
        state: &mut ShellState,
    ) -> (r: CaseStep<H>)
        ensures
            (final(state)@, r@) == case_word::<H>(self@, single_outcome(outcome), old(state)@),
    {
        match outcome {
            Err(err) => CaseStep::Done(Finished::word_failure(err)),
            Ok(word) => advance_case(word.value, self.pairs, state),
        }
    }
}

impl CaseRun {
    /// Goes on where the pattern matches, or does not.
    pub fn on_match<H>(self, matched: bool, state: &mut ShellState) -> (r: CaseStep<H>)
        ensures
            (final(state)@, r@) == self@.after_match::<H>(matched, old(state)@),
    {
        if matched {
            CaseStep::Body(self.body, AsyncCommandBehavior::Yield)
        } else {
            advance_case(self.word, self.rest, state)
        }
    }

    /// Goes on with the value of the pattern.
    pub fn on_pattern<H>(
        self,
        outcome: Result<WordResult, EvaluateWordTextError>,
        state: &mut ShellState,
    ) -> (r: CaseStep<H>)
        ensures
            (final(state)@, r@) == self@.after_pattern::<H>(
                single_outcome(outcome),
                old(state)@,
            ),
    {
        match outcome {
            Err(err) => CaseStep::Done(Finished::word_failure(err)),
            Ok(pattern) => {
                let matched = pattern_matches(pattern.value.as_str(), self.word.as_str());
                self.on_match(matched, state)
            },
        }
    }
}

/// How a `case` ends after the body that ran, and the state that it leads to.
pub open spec fn case_finished<H>(result: ResultView<H>, s: StateView) -> (
    StateView,
    FinishedView<H>,
) {
    no_progress::<H>().after(result).concluded(s.with_changes(result.changes))
}

/// Ends a `case` after the body that ran.
pub fn finish_case<H>(result: ExecuteResult<H>, state: &mut ShellState) -> (r: Finished<H>)
    ensures
        (final(state)@, r@) == case_finished(result@, old(state)@),
{
    let mut progress: Progress<H> = Progress::new();
    match &result {
        ExecuteResult::Exit(_, changes, _) => state.apply_changes(changes),
        ExecuteResult::Continue(_, changes, _) => state.apply_changes(changes),
    }
    progress.absorb(result);
    progress.conclude(state)
}

// ---------------------------------------------------------------------------
// Laws

/// The bodies behind the conditions of an `if`, in order.
pub open spec fn if_bodies(clause: IfClause) -> Seq<SequentialList>
    decreases clause,
{
    match clause.else_part {
        Some(ElsePart::Elif(next)) => seq![*clause.then_body] + if_bodies(*next),
        _ => seq![*clause.then_body],
    }
}

/// The body behind the `else` of an `if`.
pub open spec fn else_body(clause: IfClause) -> Option<SequentialList>
    decreases clause,
{
    match clause.else_part {
        Some(ElsePart::Elif(next)) => else_body(*next),
        Some(ElsePart::Else(body)) => Some(*body),
        None => None,
    }
}

/// An `if` that runs on with its conditions, as far as they are given.
pub open spec fn if_driven<H>(step: IfStepView<H>, conditions: Seq<ConditionView>) -> IfStepView<H>
    decreases conditions.len(),
{
    if conditions.len() == 0 {
        step
    } else {
        match step {
            IfStepView::Condition(_, run) => if_driven(
                run.after_condition(Ok(conditions[0])),
                conditions.skip(1),
            ),
            _ => step,
        }
    }
}

/// The changes of several conditions, one after the other.
pub open spec fn condition_changes(conditions: Seq<ConditionView>) -> Seq<EnvChangeView>
    decreases conditions.len(),
{
    if conditions.len() == 0 {
        seq![]
    } else {
        conditions[0].changes + condition_changes(conditions.skip(1))
    }
}

/// The place of the first condition that holds.
pub open spec fn first_true(conditions: Seq<ConditionView>) -> Option<int>
    decreases conditions.len(),
{
    if conditions.len() == 0 {
        None
    } else if conditions[0].value {
        Some(0)
    } else {
        match first_true(conditions.skip(1)) {
            Some(i) => Some(i + 1),
            None => None,
        }
    }
}

spec fn elif_of(clause: IfClause) -> IfClause {
    match clause.else_part {
        Some(ElsePart::Elif(next)) => *next,
        _ => clause,
    }
}

proof fn lemma_if_from<H>(run: IfView, conditions: Seq<ConditionView>)
    requires
        conditions.len() == if_bodies(run.clause).len(),
    ensures
        match first_true(conditions) {
            Some(i) => {
                &&& 0 <= i < conditions.len()
                &&& if_driven(run.ask::<H>(), conditions) == IfStepView::<H>::Body(
                    if_bodies(run.clause)[i],
                    AsyncCommandBehavior::Yield,
                    run.changes + condition_changes(conditions.take(i + 1)),
                )
            },
            None => if_driven(run.ask::<H>(), conditions) == (match else_body(run.clause) {
                Some(body) => IfStepView::<H>::Body(
                    body,
                    AsyncCommandBehavior::Yield,
                    run.changes + condition_changes(conditions),
                ),
                None => IfStepView::<H>::Done(
                    finished_with(no_branch(run.changes + condition_changes(conditions))),
                ),
            }),
        },
    decreases run.clause,
{
    let first = conditions[0];
    let others = conditions.skip(1);
    let changes = run.changes + first.changes;
    let step = run.after_condition::<H>(Ok(first));
    assert(if_driven(run.ask::<H>(), conditions) == if_driven(step, others));
    if first.value {
        assert(conditions.take(1).skip(1).len() == 0);
        assert(condition_changes(conditions.take(1).skip(1)) == Seq::<EnvChangeView>::empty());
        assert(run.changes + condition_changes(conditions.take(1)) == changes);
        assert(if_driven(step, others) == step);
    } else if run.clause.else_part is Some && run.clause.else_part->0 is Elif {
        let next = IfView { clause: elif_of(run.clause), changes };
        lemma_if_from::<H>(next, others);
        assert(step == next.ask::<H>());
        if let Some(i) = first_true(others) {
            assert(if_bodies(run.clause)[i + 1] == if_bodies(next.clause)[i]);
            assert(conditions.take(i + 2).skip(1) == others.take(i + 1));
            assert(conditions.take(i + 2)[0] == first);
            assert(changes + condition_changes(others.take(i + 1)) == run.changes
                + condition_changes(conditions.take(i + 2)));
        } else {
            assert(changes + condition_changes(others) == run.changes + condition_changes(
                conditions,
            ));
        }
    } else {
        assert(others.len() == 0);
        assert(first_true(others) is None);
        assert(condition_changes(others) == Seq::<EnvChangeView>::empty());
        assert(run.changes + condition_changes(conditions) == changes);
        assert(if_driven(step, others) == step);
    }
}

/// The body that an `if` runs is the one behind the first condition that holds; where none does,
/// it is the one behind `else`, and without that the `if` succeeds and runs nothing. The changes
/// of the conditions that were asked are kept.
pub proof fn law_first_true_condition_decides<H>(clause: IfClause, conditions: Seq<ConditionView>)
    requires
        conditions.len() == if_bodies(clause).len(),
    ensures
        match first_true(conditions) {
            Some(i) => 0 <= i < conditions.len() && if_driven(if_start::<H>(clause), conditions)
                == IfStepView::<H>::Body(
                if_bodies(clause)[i],
                AsyncCommandBehavior::Yield,
                condition_changes(conditions.take(i + 1)),
            ),
            None => if_driven(if_start::<H>(clause), conditions) == (match else_body(clause) {
                Some(body) => IfStepView::<H>::Body(
                    body,
                    AsyncCommandBehavior::Yield,
                    condition_changes(conditions),
                ),
                None => IfStepView::<H>::Done(
                    finished_with(no_branch(condition_changes(conditions))),
                ),
            }),
        },
{
    let run = IfView { clause, changes: seq![] };
    lemma_if_from::<H>(run, conditions);
    assert(run.changes + condition_changes(conditions) == condition_changes(conditions));
    if let Some(i) = first_true(conditions) {
        assert(run.changes + condition_changes(conditions.take(i + 1)) == condition_changes(
            conditions.take(i + 1),
        ));
    }
}

/// A `case` that runs on with whether its patterns match, as far as that is given.
pub open spec fn case_driven<H>(at: (StateView, CaseStepView<H>), matches: Seq<bool>) -> (
    StateView,
    CaseStepView<H>,
)
    decreases matches.len(),
{
    if matches.len() == 0 {
        at
    } else {
        match at.1 {
            CaseStepView::Pattern(_, run) => case_driven(
                run.after_match(matches[0], at.0),
                matches.skip(1),
            ),
            _ => at,
        }
    }
}

/// The body that a `case` runs is that of the first pattern that matches.
pub proof fn law_first_matching_pattern_decides<H>(
    word: Seq<char>,
    pairs: Seq<(Word, SequentialList)>,
    s: StateView,
    matches: Seq<bool>,
    i: int,
)
    requires
        matches.len() == pairs.len(),
        0 <= i < matches.len(),
        matches[i],
        forall|j: int| 0 <= j < i ==> !#[trigger] matches[j],
    ensures
        case_driven(case_advanced::<H>(word, pairs, s), matches) == (
            s,
            CaseStepView::<H>::Body(pairs[i].1, AsyncCommandBehavior::Yield),
        ),
    decreases i,
{
    let at = case_advanced::<H>(word, pairs, s);
    let rest = matches.skip(1);
    if i == 0 {
        let end = (s, CaseStepView::<H>::Body(pairs[0].1, AsyncCommandBehavior::Yield));
        assert(case_driven(at, matches) == case_driven(end, rest));
        assert(case_driven(end, rest) == end);
    } else {
        assert(!matches[0]);
        assert(rest[i - 1] == matches[i]);
        assert forall|j: int| 0 <= j < i - 1 implies !#[trigger] rest[j] by {
            assert(rest[j] == matches[j + 1]);
        }
        law_first_matching_pattern_decides::<H>(word, pairs.skip(1), s, rest, i - 1);
        assert(case_driven(at, matches) == case_driven(
            case_advanced::<H>(word, pairs.skip(1), s),
            rest,
        ));
        assert(pairs.skip(1)[i - 1] == pairs[i]);
    }
}

/// A `case` of which no pattern matches succeeds, and changes nothing.
pub proof fn law_case_without_match<H>(
    word: Seq<char>,
    pairs: Seq<(Word, SequentialList)>,
    s: StateView,
    matches: Seq<bool>,
)
    requires
        matches.len() == pairs.len(),
        forall|j: int| 0 <= j < matches.len() ==> !#[trigger] matches[j],
    ensures
        case_driven(case_advanced::<H>(word, pairs, s), matches) == (
            s,
            CaseStepView::<H>::Done(finished_with(no_progress::<H>().result(false))),
        ),
    decreases pairs.len(),
{
    let at = case_advanced::<H>(word, pairs, s);
    let rest = matches.skip(1);
    if pairs.len() == 0 {
        assert(case_driven(at, matches) == at);
    } else {
        assert(!matches[0]);
        assert forall|j: int| 0 <= j < rest.len() implies !#[trigger] rest[j] by {
            assert(rest[j] == matches[j + 1]);
        }
        law_case_without_match::<H>(word, pairs.skip(1), s, rest);
        assert(case_driven(at, matches) == case_driven(
            case_advanced::<H>(word, pairs.skip(1), s),
            rest,
        ));
    }
}

/// An `if` asks its condition first, and runs its body exactly where the condition holds. Else an `elif`
/// asks its own condition, an `else` runs its body, and without either the `if` ends with exit code
/// zero. The changes of all conditions are kept in order, and the body hands on its background
/// commands. A condition that fails ends it with exit code one.
pub proof fn law_if_asks_its_conditions<H>(
    clause: IfClause,
    changes: Seq<EnvChangeView>,
    condition: ConditionView,
    error: WordErrorView,
)
    ensures
        if_start::<H>(clause) == IfStepView::<H>::Condition(
            *clause.condition,
            IfView { clause, changes: seq![] },
        ),
        ({
            let step = IfView { clause, changes }.after_condition::<H>(Ok(condition));
            let kept = changes + condition.changes;
            &&& condition.value ==> step == IfStepView::<H>::Body(
                *clause.then_body,
                AsyncCommandBehavior::Yield,
                kept,
            )
            &&& !condition.value ==> match clause.else_part {
                Some(ElsePart::Elif(other)) => step == IfStepView::<H>::Condition(
                    *other.condition,
                    IfView { clause: *other, changes: kept },
                ),
                Some(ElsePart::Else(body)) => step == IfStepView::<H>::Body(
                    *body,
                    AsyncCommandBehavior::Yield,
                    kept,
                ),
                None => step matches IfStepView::Done(done) && done.result.code == 0
                    && !done.result.exits && done.result.changes == kept
                    && done.result.handles.len() == 0 && done.error_line is None,
            }
        }),
        ({
            let step = (IfView { clause, changes }).after_condition::<H>(Err(error));
            &&& step matches IfStepView::Done(done)
            &&& done.result.code == 1 && !done.result.exits
            &&& done.result.changes.len() == 0 && done.result.handles.len() == 0
            &&& done.error_line is Some
        }),
{
}

/// Each pattern of a branch comes with the body of its branch, and the patterns of a branch come behind
/// those of the branches before it.
pub proof fn law_patterns_keep_their_body(
    branches: Seq<(Vec<Word>, Rc<SequentialList>)>,
    last: (Vec<Word>, Rc<SequentialList>),
    i: int,
)
    ensures
        case_pairs(seq![]).len() == 0,
        ({
            let before = case_pairs(branches);
            let pairs = case_pairs(branches.push(last));
            &&& pairs.len() == before.len() + last.0@.len()
            &&& pairs.take(before.len() as int) == before
            &&& 0 <= i < last.0@.len() ==> pairs[before.len() + i] == (last.0@[i], *last.1)
        }),
{
    assert(branches.push(last).drop_last() == branches);
    let before = case_pairs(branches);
    let pairs = case_pairs(branches.push(last));
    assert(pairs == before + branch_pairs(last));
    assert(pairs.take(before.len() as int) == before);
}

/// A `case` asks for its patterns one after the other and runs the body of the first that matches its
/// word, which hands on its background commands; the state stays as it is. Without a match it ends
/// with exit code zero and nothing kept. A word or a pattern that fails ends it with exit code one.
pub proof fn law_case_asks_its_patterns<H>(
    word: WordView,
    pairs: Seq<(Word, SequentialList)>,
    run: CaseView,
    pattern: WordView,
    error: WordErrorView,
    s: StateView,
)
    ensures
        pairs.len() > 0 ==> case_word::<H>(pairs, Ok(word), s) == (
            s,
            CaseStepView::<H>::Pattern(
                pairs[0].0,
                CaseView { word: word.value, body: pairs[0].1, rest: pairs.skip(1) },
            ),
        ),
        pairs.len() == 0 ==> case_word::<H>(pairs, Ok(word), s) == (
            s,
            CaseStepView::<H>::Done(
                FinishedView {
                    result: ResultView {
                        exits: false,
                        code: 0,
                        changes: seq![],
                        handles: seq![],
                    },
                    error_line: None,
                },
            ),
        ),
        case_matches(pattern.value, run.word) ==> run.after_pattern::<H>(Ok(pattern), s) == (
            s,
            CaseStepView::<H>::Body(run.body, AsyncCommandBehavior::Yield),
        ),
        !case_matches(pattern.value, run.word) ==> run.after_pattern::<H>(Ok(pattern), s)
            == case_word::<H>(run.rest, Ok(WordView { value: run.word, changes: seq![] }), s),
        ({
            let (end, step) = case_word::<H>(pairs, Err(error), s);
            &&& end == s
            &&& step matches CaseStepView::Done(done) && done.result.code == 1
                && !done.result.exits && done.result.changes.len() == 0 && done.error_line is Some
        }),
        ({
            let (end, step) = run.after_pattern::<H>(Err(error), s);
            &&& end == s
            &&& step matches CaseStepView::Done(done) && done.result.code == 1
                && !done.result.exits && done.result.changes.len() == 0 && done.error_line is Some
        }),
{
}

/// A `case` ends with what the body that ran left behind. It stops the shell exactly where the shell
/// leaves on errors and the exit code is not zero.
pub proof fn law_case_ends_as_its_body<H>(result: ResultView<H>, s: StateView)
    ensures
        ({
            let (end, done) = case_finished(result, s);
            &&& end == s.with_changes(result.changes)
            &&& done.error_line is None
            &&& done.result.code == result.code
            &&& done.result.changes == result.changes
            &&& done.result.handles == result.handles
            &&& done.result.exits <==> end.exit_on_error && result.code != 0
        }),
{
    law_changes_replay(s, result.changes);
    let none = Seq::<EnvChangeView>::empty();
    assert(none + result.changes == result.changes);
    assert(Seq::<H>::empty() + result.handles == result.handles);
}

} // verus!
