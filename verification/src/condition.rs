//! Conditions, `[[ ... ]]`.

use crate::arithmetic::compares;
use crate::pattern::{match_view, string_match, string_match_outcome, PatternError};
use crate::state::{ShellState, StateView};
use crate::syntax::{BinaryOp, Condition, ConditionInner, UnaryOp, Word, WordPart};
use crate::text::{chars_of, is_less, parse_number, read_number, same_text, text_less};
use crate::types::{changes_view, EnvChange, EnvChangeView};
use crate::words::{
    single_outcome, word_error_view, EvaluateGlob, EvaluateWordTextError, WordErrorView,
    WordResult, WordView,
};
use vstd::prelude::*;

verus! {

/// Whether a condition holds, and the changes that led to it.
#[derive(Debug)]
pub struct ConditionalResult {
    pub value: bool,
    pub changes: Vec<EnvChange>,
}

/// What a [`ConditionalResult`] says.
#[verifier::ext_equal]
pub struct ConditionView {
    pub value: bool,
    pub changes: Seq<EnvChangeView>,
}

impl View for ConditionalResult {
    type V = ConditionView;

    open spec fn view(&self) -> ConditionView {
        ConditionView { value: self.value, changes: changes_view(self.changes@) }
    }
}

impl ConditionalResult {
    /// A condition that no change led to.
    pub fn from_bool(value: bool) -> (r: Self)
        ensures
            r@ == (ConditionView { value, changes: seq![] }),
    {
        let r = ConditionalResult { value, changes: Vec::new() };
        assert(r@.changes == Seq::<EnvChangeView>::empty());
        r
    }
}

/// What the outcome of a condition says.
pub open spec fn condition_outcome(r: Result<ConditionalResult, EvaluateWordTextError>) -> Result<
    ConditionView,
    WordErrorView,
> {
    match r {
        Ok(c) => Ok(c@),
        Err(e) => Err(word_error_view(e)),
    }
}

// ---------------------------------------------------------------------------
// Comparisons

/// Whether `left op right` holds of texts that are not both numbers.
pub open spec fn text_compares(left: Seq<char>, op: BinaryOp, right: Seq<char>, quoted: bool) -> Result<
    bool,
    (usize, Seq<char>),
> {
    match op {
        BinaryOp::Equal => string_match_outcome(left, right, quoted),
        BinaryOp::NotEqual => match string_match_outcome(left, right, quoted) {
            Ok(b) => Ok(!b),
            Err(e) => Err(e),
        },
        BinaryOp::LessThan => Ok(text_less(left, right)),
        BinaryOp::LessThanOrEqual => Ok(text_less(left, right) || left == right),
        BinaryOp::GreaterThan => Ok(text_less(right, left)),
        BinaryOp::GreaterThanOrEqual => Ok(text_less(right, left) || left == right),
    }
}

/// Whether `left op right` holds in a condition: numbers are compared as numbers.
pub open spec fn condition_compares(
    left: Seq<char>,
    op: BinaryOp,
    right: Seq<char>,
    quoted: bool,
) -> Result<bool, (usize, Seq<char>)> {
    match (parse_number(left), parse_number(right)) {
        (Some(l), Some(r)) => Ok(compares(l as int, op, r as int)),
        _ => text_compares(left, op, right, quoted),
    }
}

/// Whether `==`, or `!=` where `negated` is set, holds of texts that match as `outcome` says.
pub fn equality_holds(negated: bool, outcome: Result<bool, PatternError>) -> (r: Result<
    bool,
    PatternError,
>)
    ensures
        match outcome {
            Ok(b) => r == Ok::<bool, PatternError>(b != negated),
            Err(e) => r == Err::<bool, PatternError>(e),
        },
{
    match outcome {
        Ok(b) => Ok(b != negated),
        Err(e) => Err(e),
    }
}

/// Whether `left op right` holds in a condition. An unquoted right side of `==` and `!=` that is
/// a malformed glob pattern is an error.
pub fn compare_words(left: &str, op: BinaryOp, right: &str, quoted: bool) -> (r: Result<
    bool,
    PatternError,
>)
    ensures
        match_view(r) == condition_compares(left@, op, right@, quoted),
{
    match (read_number(left), read_number(right)) {
        (Some(l), Some(r)) => {
            return Ok(
                match op {
                    BinaryOp::Equal => l == r,
                    BinaryOp::NotEqual => l != r,
                    BinaryOp::LessThan => l < r,
                    BinaryOp::LessThanOrEqual => l <= r,
                    BinaryOp::GreaterThan => l > r,
                    BinaryOp::GreaterThanOrEqual => l >= r,
                },
            );
        },
        _ => {},
    }
    match op {
        BinaryOp::Equal => equality_holds(false, string_match(left, right, quoted)),
        BinaryOp::NotEqual => equality_holds(true, string_match(left, right, quoted)),
        BinaryOp::LessThan => Ok(is_less(left, right)),
        BinaryOp::LessThanOrEqual => Ok(is_less(left, right) || same_text(left, right)),
        BinaryOp::GreaterThan => Ok(is_less(right, left)),
        BinaryOp::GreaterThanOrEqual => Ok(is_less(right, left) || same_text(left, right)),
    }
}

// ---------------------------------------------------------------------------
// Files

/// What may be done with a file.
#[derive(Debug, Clone, Copy, PartialEq, Eq, Structural)]
pub enum FilePermission {
    Readable,
    Writable,
    Executable,
}

/// What the system says of a path.
#[derive(Debug)]
pub enum FileFacts {
    /// The mode bits, where there is a file.
    Unix { mode: Option<u32> },
    /// Whether the file is read-only, where there is one, and the extension of the path.
    Windows { readonly: Option<bool>, extension: Option<String> },
}

/// A character in lower case, where it is a letter of ASCII.
pub open spec fn ascii_lower(c: char) -> char {
    if 'A' <= c <= 'Z' {
        (c as int + 32) as char
    } else {
        c
    }
}

/// Whether two texts are the same but for the case of the letters of ASCII.
pub open spec fn same_but_case(a: Seq<char>, b: Seq<char>) -> bool {
    a.len() == b.len() && forall|i: int|
        0 <= i < a.len() ==> ascii_lower(#[trigger] a[i]) == ascii_lower(b[i])
}

/// Whether a path with this extension is that of a program.
pub open spec fn is_program_extension(extension: Seq<char>) -> bool {
    same_but_case(extension, "exe"@) || same_but_case(extension, "cmd"@) || same_but_case(
        extension,
        "bat"@,
    )
}

/// Whether a path grants a permission.
pub open spec fn grants(facts: FileFacts, permission: FilePermission) -> bool {
    match facts {
        FileFacts::Unix { mode } => match mode {
            None => false,
            Some(mode) => match permission {
                FilePermission::Readable => mode & 0o444 != 0,
                FilePermission::Writable => mode & 0o222 != 0,
                FilePermission::Executable => mode & 0o111 != 0,
            },
        },
        FileFacts::Windows { readonly, extension } => match permission {
            FilePermission::Readable => readonly is Some,
            FilePermission::Writable => readonly == Some(false),
            FilePermission::Executable => match extension {
                None => false,
                Some(extension) => is_program_extension(extension@),
            },
        },
    }
}

fn lower(c: char) -> (r: char)
    ensures
        r == ascii_lower(c),
{
    if 'A' <= c && c <= 'Z' {
        (c as u8 + 32) as char
    } else {
        c
    }
}

fn equal_but_case(a: &str, b: &str) -> (r: bool)
    ensures
        r == same_but_case(a@, b@),
{
    let x = chars_of(a);
    let y = chars_of(b);
    if x.len() != y.len() {
        return false;
    }
    let mut i: usize = 0;
    while i < x.len()
        invariant
            x@ == a@,
            y@ == b@,
            x.len() == y.len(),
            i <= x.len(),
            forall|k: int| 0 <= k < i ==> ascii_lower(#[trigger] a@[k]) == ascii_lower(b@[k]),
        decreases x.len() - i,
    {
        if lower(x[i]) != lower(y[i]) {
            assert(ascii_lower(a@[i as int]) != ascii_lower(b@[i as int]));
            return false;
        }
        i += 1;
    }
    true
}

/// Whether a path grants a permission.
pub fn check_permission(facts: &FileFacts, permission: FilePermission) -> (r: bool)
    ensures
        r == grants(*facts, permission),
{
    match facts {
        FileFacts::Unix { mode } => match mode {
            None => false,
            Some(mode) => match permission {
                FilePermission::Readable => (*mode & 0o444) != 0,
                FilePermission::Writable => (*mode & 0o222) != 0,
                FilePermission::Executable => (*mode & 0o111) != 0,
            },
        },
        FileFacts::Windows { readonly, extension } => match permission {
            FilePermission::Readable => readonly.is_some(),
            FilePermission::Writable => match readonly {
                Some(readonly) => !*readonly,
                None => false,
            },
            FilePermission::Executable => match extension {
                None => false,
                Some(extension) => equal_but_case(extension.as_str(), "exe") || equal_but_case(
                    extension.as_str(),
                    "cmd",
                ) || equal_but_case(extension.as_str(), "bat"),
            },
        },
    }
}

// ---------------------------------------------------------------------------
// The evaluation of a condition

/// A question about a path.
#[derive(Debug, Clone, Copy, PartialEq, Eq, Structural)]
pub enum FileQuery {
    Exists,
    Directory,
    RegularFile,
    SymbolicLink,
    /// Answered by [`check_permission`].
    Permission(FilePermission),
}

/// What a unary operator asks.
#[derive(Debug, Clone, Copy, PartialEq, Eq, Structural)]
pub enum UnaryTest {
    File(FileQuery),
    NonEmpty,
    Empty,
    VariableSet,
    /// The operator is not supported.
    Unsupported,
}

/// What a unary operator asks.
pub open spec fn unary_test_of(op: Option<UnaryOp>) -> UnaryTest {
    match op {
        Some(UnaryOp::FileExists) => UnaryTest::File(FileQuery::Exists),
        Some(UnaryOp::Directory) => UnaryTest::File(FileQuery::Directory),
        Some(UnaryOp::RegularFile) => UnaryTest::File(FileQuery::RegularFile),
        Some(UnaryOp::SymbolicLink) => UnaryTest::File(FileQuery::SymbolicLink),
        Some(UnaryOp::Readable) => UnaryTest::File(FileQuery::Permission(FilePermission::Readable)),
        Some(UnaryOp::Writable) => UnaryTest::File(FileQuery::Permission(FilePermission::Writable)),
        Some(UnaryOp::Executable) => UnaryTest::File(
            FileQuery::Permission(FilePermission::Executable),
        ),
        Some(UnaryOp::NonEmptyString) => UnaryTest::NonEmpty,
        Some(UnaryOp::EmptyString) => UnaryTest::Empty,
        Some(UnaryOp::VariableSet) => UnaryTest::VariableSet,
        _ => UnaryTest::Unsupported,
    }
}

/// What a unary operator asks.
pub fn unary_test(op: Option<UnaryOp>) -> (r: UnaryTest)
    ensures
        r == unary_test_of(op),
{
    match op {
        Some(UnaryOp::FileExists) => UnaryTest::File(FileQuery::Exists),
        Some(UnaryOp::Directory) => UnaryTest::File(FileQuery::Directory),
        Some(UnaryOp::RegularFile) => UnaryTest::File(FileQuery::RegularFile),
        Some(UnaryOp::SymbolicLink) => UnaryTest::File(FileQuery::SymbolicLink),
        Some(UnaryOp::Readable) => UnaryTest::File(FileQuery::Permission(FilePermission::Readable)),
        Some(UnaryOp::Writable) => UnaryTest::File(FileQuery::Permission(FilePermission::Writable)),
        Some(UnaryOp::Executable) => UnaryTest::File(
            FileQuery::Permission(FilePermission::Executable),
        ),
        Some(UnaryOp::NonEmptyString) => UnaryTest::NonEmpty,
        Some(UnaryOp::EmptyString) => UnaryTest::Empty,
        Some(UnaryOp::VariableSet) => UnaryTest::VariableSet,
        _ => UnaryTest::Unsupported,
    }
}

/// How far the evaluation of a condition has come.
#[verifier::ext_equal]
pub enum ConditionEvaluationView {
    /// The left side is being evaluated.
    Left { op: BinaryOp, right: Word },
    /// The right side is being evaluated.
    Right { left: Seq<char>, op: BinaryOp, quoted: bool },
    /// The operand of a unary operator is being evaluated.
    Operand { op: Option<UnaryOp> },
}

/// What the evaluation of a condition does next.
#[verifier::ext_equal]
pub enum ConditionStepView {
    Evaluate(Word, EvaluateGlob, ConditionEvaluationView),
    Query(FileQuery, Seq<char>),
    Decided(Result<ConditionView, WordErrorView>),
    BadPattern(usize, Seq<char>),
    Unsupported(Option<UnaryOp>),
}

/// Whether a word begins with a quoted part.
pub open spec fn begins_quoted(word: Word) -> bool {
    word.parts@.len() > 0 && word.parts@[0] is Quoted
}

/// How the evaluation of a condition starts.
pub open spec fn condition_start(condition: Condition) -> ConditionStepView {
    match condition.condition_inner {
        ConditionInner::Binary { left, op, right } => ConditionStepView::Evaluate(
            left,
            EvaluateGlob::Enabled,
            ConditionEvaluationView::Left { op, right },
        ),
        ConditionInner::Unary { op, right } => ConditionStepView::Evaluate(
            right,
            EvaluateGlob::Enabled,
            ConditionEvaluationView::Operand { op },
        ),
    }
}

/// A condition that is decided, with no changes.
pub open spec fn decided(value: bool) -> ConditionStepView {
    ConditionStepView::Decided(Ok(ConditionView { value, changes: seq![] }))
}

impl ConditionEvaluationView {
    /// How the evaluation goes on with the value of the word, and the state that it leads to.
    pub open spec fn after_word(self, outcome: Result<WordView, WordErrorView>, s: StateView) -> (
        StateView,
        ConditionStepView,
    ) {
        match outcome {
            Err(e) => (s, ConditionStepView::Decided(Err(e))),
            Ok(word) => match self {
                ConditionEvaluationView::Left { op, right } => (
                    s.with_changes(word.changes),
                    ConditionStepView::Evaluate(
                        right,
                        EvaluateGlob::Disabled,
                        ConditionEvaluationView::Right {
                            left: word.value,
                            op,
                            quoted: begins_quoted(right),
                        },
                    ),
                ),
                ConditionEvaluationView::Right { left, op, quoted } => (
                    s.with_changes(word.changes),
                    match condition_compares(left, op, word.value, quoted) {
                        Ok(value) => decided(value),
                        Err(e) => ConditionStepView::BadPattern(e.0, e.1),
                    },
                ),
                ConditionEvaluationView::Operand { op } => (
                    s,
                    match unary_test_of(op) {
                        UnaryTest::File(query) => ConditionStepView::Query(query, word.value),
                        UnaryTest::NonEmpty => decided(word.value.len() > 0),
                        UnaryTest::Empty => decided(word.value.len() == 0),
                        UnaryTest::VariableSet => decided(s.var(word.value) is Some),
                        UnaryTest::Unsupported => ConditionStepView::Unsupported(op),
                    },
                ),
            },
        }
    }
}

/// The evaluation of a condition, at a point where it needs the value of a word.
#[derive(Debug)]
pub enum ConditionEvaluation {
    Left { op: BinaryOp, right: Word },
    Right { left: String, op: BinaryOp, quoted: bool },
    Operand { op: Option<UnaryOp> },
}

impl View for ConditionEvaluation {
    type V = ConditionEvaluationView;

    open spec fn view(&self) -> ConditionEvaluationView {
        match self {
            ConditionEvaluation::Left { op, right } => ConditionEvaluationView::Left {
                op: *op,
                right: *right,
            },
            ConditionEvaluation::Right { left, op, quoted } => ConditionEvaluationView::Right {
                left: left@,
                op: *op,
                quoted: *quoted,
            },
            ConditionEvaluation::Operand { op } => ConditionEvaluationView::Operand { op: *op },
        }
    }
}

/// What the evaluation of a condition needs next, or what it came to. The answer to a question about
/// a path goes to [`on_answer`].
#[derive(Debug)]
pub enum ConditionStep {
    /// The value of a word.
    Evaluate(Word, EvaluateGlob, ConditionEvaluation),
    /// The answer to a question about a path, which decides the condition.
    Query(FileQuery, String),
    Decided(Result<ConditionalResult, EvaluateWordTextError>),
    /// The right side is a malformed glob pattern.
    BadPattern(PatternError),
    /// The operator is not supported.
    Unsupported(Option<UnaryOp>),
}

impl View for ConditionStep {
    type V = ConditionStepView;

    open spec fn view(&self) -> ConditionStepView {
        match self {
            ConditionStep::Evaluate(word, eval_glob, e) => ConditionStepView::Evaluate(
                *word,
                *eval_glob,
                e@,
            ),
            ConditionStep::Query(query, path) => ConditionStepView::Query(*query, path@),
            ConditionStep::Decided(r) => ConditionStepView::Decided(condition_outcome(*r)),
            ConditionStep::BadPattern(e) => ConditionStepView::BadPattern(e.pos, e.msg@),
            ConditionStep::Unsupported(op) => ConditionStepView::Unsupported(*op),
        }
    }
}

/// Starts the evaluation of a condition.
pub fn evaluate_condition(condition: &Condition) -> (r: ConditionStep)
    ensures
        r@ == condition_start(*condition),
{
    match &condition.condition_inner {
        ConditionInner::Binary { left, op, right } => ConditionStep::Evaluate(
            left.share(),
            EvaluateGlob::Enabled,
            ConditionEvaluation::Left { op: *op, right: right.share() },
        ),
        ConditionInner::Unary { op, right } => ConditionStep::Evaluate(
            right.share(),
            EvaluateGlob::Enabled,
            ConditionEvaluation::Operand { op: *op },
        ),
    }
}

fn decide(value: bool) -> (r: ConditionStep)
    ensures
        r@ == decided(value),
{
    ConditionStep::Decided(Ok(ConditionalResult::from_bool(value)))
}

/// Goes on with the answer to a question about a path: it decides the condition, with no changes.
pub fn on_answer(answer: bool) -> (r: ConditionStep)
    ensures
        r@ == decided(answer),
{
    decide(answer)
}

impl ConditionEvaluation {
    /// Goes on with the value of the word.
    pub fn on_word(
        self,
        outcome: Result<WordResult, EvaluateWordTextError>,
        state: &mut ShellState,
    ) -> (r: ConditionStep)
        ensures
            (final(state)@, r@) == self@.after_word(single_outcome(outcome), old(state)@),
    {
        let word = match outcome {
            Err(err) => return ConditionStep::Decided(Err(err)),
            Ok(word) => word,
        };
        match self {
            ConditionEvaluation::Left { op, right } => {
                state.apply_changes(&word.changes);
                let quoted = right.parts().len() > 0 && match &right.parts()[0] {
                    WordPart::Quoted(_) => true,
                    _ => false,
                };
                ConditionStep::Evaluate(
                    right,
                    EvaluateGlob::Disabled,
                    ConditionEvaluation::Right { left: word.value, op, quoted },
                )
            },
            ConditionEvaluation::Right { left, op, quoted } => {
                state.apply_changes(&word.changes);
                match compare_words(left.as_str(), op, word.value.as_str(), quoted) {
                    Ok(value) => decide(value),
                    Err(err) => ConditionStep::BadPattern(err),
                }
            },
            ConditionEvaluation::Operand { op } => match unary_test(op) {
                UnaryTest::File(query) => ConditionStep::Query(query, word.value),
                UnaryTest::NonEmpty => decide(!word.value.as_str().is_empty()),
                UnaryTest::Empty => decide(word.value.as_str().is_empty()),
                UnaryTest::VariableSet => decide(state.get_var(word.value.as_str()).is_some()),
                UnaryTest::Unsupported => ConditionStep::Unsupported(op),
            },
        }
    }
}

// ---------------------------------------------------------------------------
// Laws

/// `!=` holds exactly where `==` does not, and is an error exactly where `==` is one.
pub proof fn law_not_equal_negates_equal(left: Seq<char>, right: Seq<char>, quoted: bool)
    ensures
        condition_compares(left, BinaryOp::NotEqual, right, quoted) == (match condition_compares(
            left,
            BinaryOp::Equal,
            right,
            quoted,
        ) {
            Ok(b) => Ok::<bool, (usize, Seq<char>)>(!b),
            Err(e) => Err(e),
        }),
{
}

/// The comparisons of order fit together: `>=` holds exactly where `<` does not, `<=` exactly
/// where `>` does not, and `>` is `<` the other way round.
pub proof fn law_order_comparisons(left: Seq<char>, right: Seq<char>, quoted: bool)
    ensures
        ({
            let less = condition_compares(left, BinaryOp::LessThan, right, quoted);
            let greater = condition_compares(left, BinaryOp::GreaterThan, right, quoted);
            &&& less is Ok && greater is Ok
            &&& condition_compares(left, BinaryOp::GreaterThanOrEqual, right, quoted) == Ok::<
                bool,
                (usize, Seq<char>),
            >(!less->Ok_0)
            &&& condition_compares(left, BinaryOp::LessThanOrEqual, right, quoted) == Ok::<
                bool,
                (usize, Seq<char>),
            >(!greater->Ok_0)
            &&& condition_compares(right, BinaryOp::LessThan, left, quoted) == greater
        }),
{
    crate::text::law_text_order_is_total(left, right);
}

/// A quoted right side never makes a condition fail on its pattern.
pub proof fn law_quoted_comparison_is_decided(left: Seq<char>, op: BinaryOp, right: Seq<char>)
    ensures
        condition_compares(left, op, right, true) is Ok,
{
}

/// A file is readable, writable or executable where the bit of its owner, of its group or of others is
/// set for it in its mode, each being enough on its own, and is not where none of the three is. What
/// is no file is none of these.
pub proof fn law_each_permission_bit_is_enough(mode: u32)
    ensures
        grants(FileFacts::Unix { mode: Some(mode) }, FilePermission::Readable) <==> (mode / 256) % 2
            == 1 || (mode / 32) % 2 == 1 || (mode / 4) % 2 == 1,
        grants(FileFacts::Unix { mode: Some(mode) }, FilePermission::Writable) <==> (mode / 128) % 2
            == 1 || (mode / 16) % 2 == 1 || (mode / 2) % 2 == 1,
        grants(FileFacts::Unix { mode: Some(mode) }, FilePermission::Executable) <==> (mode / 64)
            % 2 == 1 || (mode / 8) % 2 == 1 || mode % 2 == 1,
        forall|permission: FilePermission|
            !#[trigger] grants(FileFacts::Unix { mode: None }, permission),
{
    assert(mode & 0o444 != 0 <==> (mode / 256) % 2 == 1 || (mode / 32) % 2 == 1 || (mode / 4) % 2
        == 1) by (bit_vector);
    assert(mode & 0o222 != 0 <==> (mode / 128) % 2 == 1 || (mode / 16) % 2 == 1 || (mode / 2) % 2
        == 1) by (bit_vector);
    assert(mode & 0o111 != 0 <==> (mode / 64) % 2 == 1 || (mode / 8) % 2 == 1 || mode % 2 == 1)
        by (bit_vector);
}

/// On Windows every file is readable, and writable unless it is read-only; what is executable is
/// decided by the extension of the path alone, in capital or small letters.
pub proof fn law_windows_permissions(
    readonly: Option<bool>,
    extension: Option<String>,
    a: char,
    b: char,
    c: char,
)
    ensures
        ({
            let facts = FileFacts::Windows { readonly, extension };
            &&& grants(facts, FilePermission::Readable) <==> readonly is Some
            &&& grants(facts, FilePermission::Writable) <==> readonly is Some && !readonly->0
            &&& extension is None ==> !grants(facts, FilePermission::Executable)
            &&& extension is Some && extension->0@.len() != 3 ==> !grants(
                facts,
                FilePermission::Executable,
            )
            &&& extension is Some && extension->0@ == seq![a, b, c] ==> (grants(
                facts,
                FilePermission::Executable,
            ) <==> {
                ||| (a == 'e' || a == 'E') && (b == 'x' || b == 'X') && (c == 'e' || c == 'E')
                ||| (a == 'c' || a == 'C') && (b == 'm' || b == 'M') && (c == 'd' || c == 'D')
                ||| (a == 'b' || a == 'B') && (b == 'a' || b == 'A') && (c == 't' || c == 'T')
            })
        }),
{
    reveal_strlit("exe");
    reveal_strlit("cmd");
    reveal_strlit("bat");
    if extension is Some && extension->0@ == seq![a, b, c] {
        let t = extension->0@;
        assert(t[0] == a && t[1] == b && t[2] == c);
        lemma_three_letters(t, "exe"@);
        lemma_three_letters(t, "cmd"@);
        lemma_three_letters(t, "bat"@);
    }
}

proof fn lemma_three_letters(t: Seq<char>, u: Seq<char>)
    requires
        t.len() == 3,
        u.len() == 3,
    ensures
        same_but_case(t, u) <==> ascii_lower(t[0]) == ascii_lower(u[0]) && ascii_lower(t[1])
            == ascii_lower(u[1]) && ascii_lower(t[2]) == ascii_lower(u[2]),
{
    if ascii_lower(t[0]) == ascii_lower(u[0]) && ascii_lower(t[1]) == ascii_lower(u[1])
        && ascii_lower(t[2]) == ascii_lower(u[2]) {
        assert forall|i: int| 0 <= i < t.len() implies ascii_lower(#[trigger] t[i]) == ascii_lower(
            u[i],
        ) by {
            assert(i == 0 || i == 1 || i == 2);
        }
    }
}

/// Two texts that both write numbers are compared as whole numbers, whether or not the right side is
/// quoted.
pub proof fn law_numbers_compare_as_numbers(
    left: Seq<char>,
    op: BinaryOp,
    right: Seq<char>,
    quoted: bool,
)
    requires
        parse_number(left) is Some,
        parse_number(right) is Some,
    ensures
        ({
            let l = parse_number(left)->0 as int;
            let r = parse_number(right)->0 as int;
            condition_compares(left, op, right, quoted) == Ok::<bool, (usize, Seq<char>)>(
                match op {
                    BinaryOp::Equal => l == r,
                    BinaryOp::NotEqual => l != r,
                    BinaryOp::LessThan => l < r,
                    BinaryOp::LessThanOrEqual => l <= r,
                    BinaryOp::GreaterThan => l > r,
                    BinaryOp::GreaterThanOrEqual => l >= r,
                },
            )
        }),
{
}

/// Where one of two texts writes no number, `<` asks which comes first as texts, and `==` asks whether
/// the left one is the right one, which is a pattern where it is not quoted.
pub proof fn law_other_texts_compare_as_texts(left: Seq<char>, right: Seq<char>)
    requires
        parse_number(left) is None || parse_number(right) is None,
    ensures
        forall|quoted: bool|
            condition_compares(left, BinaryOp::LessThan, right, quoted) == Ok::<
                bool,
                (usize, Seq<char>),
            >(text_less(left, right)),
        condition_compares(left, BinaryOp::Equal, right, true) == Ok::<bool, (usize, Seq<char>)>(
            left == right,
        ),
        condition_compares(left, BinaryOp::Equal, right, false) == string_match_outcome(
            left,
            right,
            false,
        ),
{
}

/// A binary condition evaluates its left side with patterns that stand for files, and then its right
/// side without, in the state that the left side led to; it is decided by the comparison of both,
/// with no changes of its own. The right side is quoted where its first part is.
pub proof fn law_binary_condition_compares_both_sides(
    left: Word,
    op: BinaryOp,
    right: Word,
    first: WordView,
    second: WordView,
    s: StateView,
)
    ensures
        ({
            let quoted = right.parts@.len() > 0 && right.parts@[0] is Quoted;
            let waits = ConditionEvaluationView::Left { op, right };
            let then = ConditionEvaluationView::Right { left: first.value, op, quoted };
            let (end, step) = then.after_word(Ok(second), s);
            &&& condition_start(
                Condition { condition_inner: ConditionInner::Binary { left, op, right } },
            ) == ConditionStepView::Evaluate(left, EvaluateGlob::Enabled, waits)
            &&& waits.after_word(Ok(first), s) == (
                s.with_changes(first.changes),
                ConditionStepView::Evaluate(right, EvaluateGlob::Disabled, then),
            )
            &&& end == s.with_changes(second.changes)
            &&& match condition_compares(first.value, op, second.value, quoted) {
                Ok(value) => step == ConditionStepView::Decided(
                    Ok(ConditionView { value, changes: seq![] }),
                ),
                Err((pos, msg)) => step == ConditionStepView::BadPattern(pos, msg),
            }
        }),
{
}

/// A unary condition evaluates its operand, and leaves the state as it is: `-n` holds of a text with a
/// character, `-z` of one without, `-v` of the name of a variable that is set, and the operators on
/// files ask each their own question about the path. A word that fails decides any condition.
pub proof fn law_unary_conditions(op: Option<UnaryOp>, right: Word, word: WordView, s: StateView)
    ensures
        condition_start(Condition { condition_inner: ConditionInner::Unary { op, right } })
            == ConditionStepView::Evaluate(
            right,
            EvaluateGlob::Enabled,
            ConditionEvaluationView::Operand { op },
        ),
        ({
            let (end, step) = ConditionEvaluationView::Operand { op }.after_word(Ok(word), s);
            &&& end == s
            &&& match op {
                Some(UnaryOp::NonEmptyString) => step matches ConditionStepView::Decided(Ok(c))
                    && c.changes.len() == 0 && (c.value <==> word.value != Seq::<char>::empty()),
                Some(UnaryOp::EmptyString) => step matches ConditionStepView::Decided(Ok(c))
                    && c.changes.len() == 0 && (c.value <==> word.value == Seq::<char>::empty()),
                Some(UnaryOp::VariableSet) => step matches ConditionStepView::Decided(Ok(c))
                    && c.changes.len() == 0 && (c.value <==> s.env.dom().contains(word.value)
                    || s.shell.dom().contains(word.value)),
                Some(UnaryOp::FileExists) => step == ConditionStepView::Query(
                    FileQuery::Exists,
                    word.value,
                ),
                Some(UnaryOp::Directory) => step == ConditionStepView::Query(
                    FileQuery::Directory,
                    word.value,
                ),
                Some(UnaryOp::RegularFile) => step == ConditionStepView::Query(
                    FileQuery::RegularFile,
                    word.value,
                ),
                Some(UnaryOp::SymbolicLink) => step == ConditionStepView::Query(
                    FileQuery::SymbolicLink,
                    word.value,
                ),
                Some(UnaryOp::Readable) => step == ConditionStepView::Query(
                    FileQuery::Permission(FilePermission::Readable),
                    word.value,
                ),
                Some(UnaryOp::Writable) => step == ConditionStepView::Query(
                    FileQuery::Permission(FilePermission::Writable),
                    word.value,
                ),
                Some(UnaryOp::Executable) => step == ConditionStepView::Query(
                    FileQuery::Permission(FilePermission::Executable),
                    word.value,
                ),
                _ => step == ConditionStepView::Unsupported(op),
            }
        }),
        forall|waits: ConditionEvaluationView, e: WordErrorView| #[trigger]
            waits.after_word(Err(e), s) == (s, ConditionStepView::Decided(Err(e))),
{
    assert(word.value.len() == 0 ==> word.value == Seq::<char>::empty());
}

/// The answer to a question about a path decides the condition, with no changes.
pub proof fn law_answer_decides(answer: bool)
    ensures
        decided(answer) matches ConditionStepView::Decided(Ok(c)) && c.value == answer
            && c.changes.len() == 0,
{
}

} // verus!
