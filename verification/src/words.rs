//! Words while they are evaluated: their texts, results and errors.

use crate::arithmetic::{error_text, ArithmeticError, ArithmeticErrorView};
use crate::pattern::PatternError;
use crate::text::{decimal, join, join_text, size_text, split, split_text, texts};
use crate::types::{
    changes_view, extend_changes, plain_result, EnvChange, EnvChangeView, ExecuteResult,
};
use vstd::prelude::*;

verus! {

/// Whether to evaluate glob patterns in a word
#[derive(Debug, Clone, Copy, PartialEq, Eq, Structural)]
pub enum EvaluateGlob {
    Enabled,
    Disabled,
}

/// Whether the word is quoted in the current context
#[derive(Debug, Clone, Copy, PartialEq, Eq, Structural)]
pub enum IsQuoted {
    Yes,
    No,
}

/// A piece of a word after its expansion.
#[derive(Debug, PartialEq, Eq)]
pub enum TextPart {
    /// Text that was quoted: its characters stand for themselves.
    Quoted(String),
    Text(String),
}

/// What a [`TextPart`] says.
#[verifier::ext_equal]
pub enum TextPartView {
    Quoted(Seq<char>),
    Text(Seq<char>),
}

impl View for TextPart {
    type V = TextPartView;

    open spec fn view(&self) -> TextPartView {
        match self {
            TextPart::Quoted(text) => TextPartView::Quoted(text@),
            TextPart::Text(text) => TextPartView::Text(text@),
        }
    }
}

impl TextPartView {
    /// The characters, quoted or not.
    pub open spec fn text(self) -> Seq<char> {
        match self {
            TextPartView::Quoted(text) => text,
            TextPartView::Text(text) => text,
        }
    }
}

impl TextPart {
    /// The characters, quoted or not.
    pub fn as_str(&self) -> (r: &str)
        ensures
            r@ == self@.text(),
    {
        match self {
            TextPart::Quoted(text) => text.as_str(),
            TextPart::Text(text) => text.as_str(),
        }
    }
}

/// What a list of pieces says.
pub open spec fn parts_view(parts: Seq<TextPart>) -> Seq<TextPartView> {
    parts.map_values(|p: TextPart| p@)
}

/// Those of several pieces that are not empty, none of them quoted.
pub open spec fn kept_pieces(pieces: Seq<Seq<char>>) -> Seq<TextPartView>
    decreases pieces.len(),
{
    if pieces.len() == 0 {
        seq![]
    } else if pieces.last().len() == 0 {
        kept_pieces(pieces.drop_last())
    } else {
        kept_pieces(pieces.drop_last()).push(TextPartView::Text(pieces.last()))
    }
}

/// The pieces of an expanded text: it is split at spaces, and empty pieces are left out.
pub open spec fn pieces_of(s: Seq<char>) -> Seq<TextPartView> {
    kept_pieces(split_text(s, ' '))
}

/// The text that an expansion gives: the pieces after the first begin new words.
#[derive(Debug)]
pub struct Text {
    parts: Vec<TextPart>,
}

impl View for Text {
    type V = Seq<TextPartView>;

    closed spec fn view(&self) -> Seq<TextPartView> {
        parts_view(self.parts@)
    }
}

impl Text {
    /// A text of the given pieces.
    pub fn new(parts: Vec<TextPart>) -> (r: Self)
        ensures
            r@ == parts_view(parts@),
    {
        Text { parts }
    }

    /// A text of one piece that is not quoted: it stays whole.
    pub fn whole(value: String) -> (r: Self)
        ensures
            r@ == seq![TextPartView::Text(value@)],
    {
        let mut parts: Vec<TextPart> = Vec::new();
        parts.push(TextPart::Text(value));
        assert(parts_view(parts@) == seq![TextPartView::Text(value@)]);
        Text::new(parts)
    }

    /// An expanded text: it is split at spaces, and empty pieces are left out.
    pub fn from_string(value: String) -> (r: Self)
        ensures
            r@ == pieces_of(value@),
    {
        let pieces = split(value.as_str(), ' ');
        let ghost all = texts(pieces@);
        let mut parts: Vec<TextPart> = Vec::new();
        let mut i: usize = 0;
        assert(all.take(0).len() == 0);
        assert(parts_view(parts@) == kept_pieces(all.take(0)));
        while i < pieces.len()
            invariant
                i <= pieces@.len(),
                all == texts(pieces@),
                parts_view(parts@) == kept_pieces(all.take(i as int)),
            decreases pieces.len() - i,
        {
            let ghost before = parts@;
            assert(all.take(i + 1).drop_last() == all.take(i as int));
            assert(all.take(i + 1).last() == pieces@[i as int]@);
            if !pieces[i].as_str().is_empty() {
                let piece = TextPart::Text(pieces[i].clone());
                parts.push(piece);
                assert(parts_view(parts@) == parts_view(before).push(piece@));
            }
            i += 1;
        }
        assert(all.take(i as int) == all);
        Text::new(parts)
    }

    /// The pieces.
    pub fn into_parts(self) -> (r: Vec<TextPart>)
        ensures
            parts_view(r@) == self@,
    {
        self.parts
    }
}

/// The one word that a word evaluates to, and the changes that led to it.
#[derive(Debug)]
pub struct WordResult {
    pub value: String,
    pub changes: Vec<EnvChange>,
}

/// What a [`WordResult`] says.
#[verifier::ext_equal]
pub struct WordView {
    pub value: Seq<char>,
    pub changes: Seq<EnvChangeView>,
}

impl View for WordResult {
    type V = WordView;

    open spec fn view(&self) -> WordView {
        WordView { value: self.value@, changes: changes_view(self.changes@) }
    }
}

/// The words that a word evaluates to, and the changes that led to them.
#[derive(Debug)]
pub struct WordPartsResult {
    pub value: Vec<String>,
    pub changes: Vec<EnvChange>,
}

/// What a [`WordPartsResult`] says.
#[verifier::ext_equal]
pub struct WordPartsView {
    pub value: Seq<Seq<char>>,
    pub changes: Seq<EnvChangeView>,
}

impl View for WordPartsResult {
    type V = WordPartsView;

    open spec fn view(&self) -> WordPartsView {
        WordPartsView { value: texts(self.value@), changes: changes_view(self.changes@) }
    }
}

impl WordPartsView {
    /// The words joined by spaces.
    pub open spec fn joined(self) -> WordView {
        WordView { value: join_text(self.value, seq![' ']), changes: self.changes }
    }
}

impl WordPartsResult {
    pub fn new(value: Vec<String>, changes: Vec<EnvChange>) -> (r: Self)
        ensures
            r@ == (WordPartsView { value: texts(value@), changes: changes_view(changes@) }),
    {
        WordPartsResult { value, changes }
    }

    /// No words.
    pub fn empty() -> (r: Self)
        ensures
            r@ == (WordPartsView { value: seq![], changes: seq![] }),
    {
        let r = WordPartsResult { value: Vec::new(), changes: Vec::new() };
        assert(r@.value == Seq::<Seq<char>>::empty());
        assert(r@.changes == Seq::<EnvChangeView>::empty());
        r
    }

    /// Appends one word.
    pub fn push(&mut self, word: String)
        ensures
            final(self)@ == (WordPartsView { value: old(self)@.value.push(word@), ..old(self)@ }),
    {
        let ghost before = self.value@;
        self.value.push(word);
        assert(texts(self.value@) == texts(before).push(word@));
    }

    /// Appends the words and changes of another result.
    pub fn extend(&mut self, other: WordPartsResult)
        ensures
            final(self)@ == (WordPartsView {
                value: old(self)@.value + other@.value,
                changes: old(self)@.changes + other@.changes,
            }),
    {
        let mut value = other.value;
        let ghost before = self.value@;
        let ghost more = value@;
        self.value.append(&mut value);
        assert(texts(before + more) == texts(before) + texts(more));
        extend_changes(&mut self.changes, other.changes);
    }

    /// Appends changes.
    pub fn with_changes(&mut self, changes: Vec<EnvChange>)
        ensures
            final(self)@ == (WordPartsView {
                changes: old(self)@.changes + changes_view(changes@),
                ..old(self)@
            }),
    {
        extend_changes(&mut self.changes, changes);
    }

    /// The words, with `sep` between each two.
    pub fn join(&self, sep: &str) -> (r: String)
        ensures
            r@ == join_text(self@.value, sep@),
    {
        join(&self.value, sep)
    }

    /// The one word that the words make, joined by spaces.
    pub fn into_word(self) -> (r: WordResult)
        ensures
            r@ == self@.joined(),
    {
        proof {
            reveal_strlit(" ");
            assert(" "@ == seq![' ']);
        }
        let value = join(&self.value, " ");
        WordResult { value, changes: self.changes }
    }
}

/// What a variable with a modifier expands to, and the changes that led to it.
#[derive(Debug)]
pub struct Modified {
    pub text: Text,
    pub changes: Option<Vec<EnvChange>>,
}

/// What a [`Modified`] says.
#[verifier::ext_equal]
pub struct ModifiedView {
    pub text: Seq<TextPartView>,
    pub changes: Option<Seq<EnvChangeView>>,
}

impl View for Modified {
    type V = ModifiedView;

    open spec fn view(&self) -> ModifiedView {
        ModifiedView {
            text: self.text@,
            changes: match self.changes {
                Some(changes) => Some(changes_view(changes@)),
                None => None,
            },
        }
    }
}

// ---------------------------------------------------------------------------
// Errors

/// Why a word has no value.
#[derive(Debug)]
pub enum EvaluateWordTextError {
    /// A glob pattern is malformed.
    InvalidPattern { pattern: String, err: PatternError },
    /// A glob pattern matches no file.
    NoFilesMatched { pattern: String },
    /// A part of the word could not be expanded.
    FailedToGetHomeDirectory(Report),
}

/// Why a part of a word could not be expanded.
#[derive(Debug)]
pub enum Report {
    NoHomeDirectory,
    /// A part of a variable was asked for, and the variable is not set.
    UndefinedVariable(String),
    /// The start or the length of a substring is no number.
    InvalidIndex(String),
    /// The start or the length of a substring is beyond what a text can hold.
    IndexOutOfRange(i64),
    /// A substring that ends before it starts.
    InvalidSubstringRange(usize, usize),
    Arithmetic(ArithmeticError),
    /// A word inside the part has no value.
    Word(Box<EvaluateWordTextError>),
}

/// What an [`EvaluateWordTextError`] says.
#[verifier::ext_equal]
pub enum WordErrorView {
    InvalidPattern(Seq<char>, usize, Seq<char>),
    NoFilesMatched(Seq<char>),
    FailedToGetHomeDirectory(ReportView),
}

/// What a [`Report`] says.
#[verifier::ext_equal]
pub enum ReportView {
    NoHomeDirectory,
    UndefinedVariable(Seq<char>),
    InvalidIndex(Seq<char>),
    IndexOutOfRange(i64),
    InvalidSubstringRange(usize, usize),
    Arithmetic(ArithmeticErrorView),
    Word(Box<WordErrorView>),
}

/// What an error says.
pub open spec fn word_error_view(e: EvaluateWordTextError) -> WordErrorView
    decreases e,
{
    match e {
        EvaluateWordTextError::InvalidPattern { pattern, err } => WordErrorView::InvalidPattern(
            pattern@,
            err.pos,
            err.msg@,
        ),
        EvaluateWordTextError::NoFilesMatched { pattern } => WordErrorView::NoFilesMatched(pattern@),
        EvaluateWordTextError::FailedToGetHomeDirectory(
            report,
        ) => WordErrorView::FailedToGetHomeDirectory(report_view(report)),
    }
}

/// What a report says.
pub open spec fn report_view(r: Report) -> ReportView
    decreases r,
{
    match r {
        Report::NoHomeDirectory => ReportView::NoHomeDirectory,
        Report::UndefinedVariable(name) => ReportView::UndefinedVariable(name@),
        Report::InvalidIndex(text) => ReportView::InvalidIndex(text@),
        Report::IndexOutOfRange(index) => ReportView::IndexOutOfRange(index),
        Report::InvalidSubstringRange(start, end) => ReportView::InvalidSubstringRange(start, end),
        Report::Arithmetic(e) => ReportView::Arithmetic(e@),
        Report::Word(e) => ReportView::Word(Box::new(word_error_view(*e))),
    }
}

/// What the outcome of the evaluation of a word says.
pub open spec fn word_outcome(r: Result<WordPartsResult, EvaluateWordTextError>) -> Result<
    WordPartsView,
    WordErrorView,
> {
    match r {
        Ok(words) => Ok(words@),
        Err(e) => Err(word_error_view(e)),
    }
}

/// What the outcome of the evaluation of a word to one word says.
pub open spec fn single_outcome(r: Result<WordResult, EvaluateWordTextError>) -> Result<
    WordView,
    WordErrorView,
> {
    match r {
        Ok(word) => Ok(word@),
        Err(e) => Err(word_error_view(e)),
    }
}

/// What the outcome of the expansion of a variable with a modifier says.
pub open spec fn modified_outcome(r: Result<Modified, Report>) -> Result<ModifiedView, ReportView> {
    match r {
        Ok(modified) => Ok(modified@),
        Err(report) => Err(report_view(report)),
    }
}

/// The text of an error.
pub open spec fn word_error_text(e: WordErrorView) -> Seq<char> {
    match e {
        WordErrorView::InvalidPattern(pattern, pos, msg) => "glob: no matches found '"@ + pattern
            + "'. Pattern syntax error near position "@ + decimal(pos as int) + ": "@ + msg,
        WordErrorView::NoFilesMatched(pattern) => "glob: no matches found '"@ + pattern + "'"@,
        WordErrorView::FailedToGetHomeDirectory(_) => "Failed to get home directory"@,
    }
}

/// The text of a report.
pub open spec fn report_text(r: ReportView) -> Seq<char> {
    match r {
        ReportView::NoHomeDirectory => "Failed to get home directory"@,
        ReportView::UndefinedVariable(name) => "Undefined variable: "@ + name,
        ReportView::InvalidIndex(text) => "Failed to parse start index: "@ + text,
        ReportView::IndexOutOfRange(_) => "out of range integral type conversion attempted"@,
        ReportView::InvalidSubstringRange(start, end) => "Invalid substring range: "@ + decimal(
            start as int,
        ) + ".."@ + decimal(end as int),
        ReportView::Arithmetic(e) => error_text(e),
        ReportView::Word(e) => word_error_text(*e),
    }
}

impl Report {
    /// The text of the report. For an index that is no number it names the index.
    pub fn message(&self) -> (r: String)
        ensures
            r@ == report_text(report_view(*self)),
    {
        match self {
            Report::NoHomeDirectory => "Failed to get home directory".to_owned(),
            Report::UndefinedVariable(name) => {
                let mut r = "Undefined variable: ".to_owned();
                r.append(name.as_str());
                r
            },
            Report::InvalidIndex(text) => {
                let mut r = "Failed to parse start index: ".to_owned();
                r.append(text.as_str());
                r
            },
            Report::IndexOutOfRange(_) => {
                "out of range integral type conversion attempted".to_owned()
            },
            Report::InvalidSubstringRange(start, end) => {
                let mut r = "Invalid substring range: ".to_owned();
                r.append(size_text(*start as u64).as_str());
                r.append("..");
                r.append(size_text(*end as u64).as_str());
                r
            },
            Report::Arithmetic(e) => e.message(),
            Report::Word(e) => e.message(),
        }
    }
}

impl EvaluateWordTextError {
    /// The text of the error.
    pub fn message(&self) -> (r: String)
        ensures
            r@ == word_error_text(word_error_view(*self)),
    {
        match self {
            EvaluateWordTextError::InvalidPattern { pattern, err } => {
                let mut r = "glob: no matches found '".to_owned();
                r.append(pattern.as_str());
                r.append("'. Pattern syntax error near position ");
                r.append(size_text(err.pos as u64).as_str());
                r.append(": ");
                r.append(err.msg.as_str());
                r
            },
            EvaluateWordTextError::NoFilesMatched { pattern } => {
                let mut r = "glob: no matches found '".to_owned();
                r.append(pattern.as_str());
                r.append("'");
                r
            },
            EvaluateWordTextError::FailedToGetHomeDirectory(_) => {
                "Failed to get home directory".to_owned()
            },
        }
    }

    /// What a command with this error comes to: the line that it writes to its error stream,
    /// and the exit code 1.
    pub fn into_exit_code<H>(self) -> (r: (String, ExecuteResult<H>))
        ensures
            r.0@ == word_error_text(word_error_view(self)),
            r.1@ == plain_result::<H>(1),
    {
        (self.message(), ExecuteResult::from_exit_code(1))
    }
}

/// The error of a word with a part that could not be expanded.
impl From<Report> for EvaluateWordTextError {
    fn from(report: Report) -> (r: Self) {
        EvaluateWordTextError::FailedToGetHomeDirectory(report)
    }
}

impl vstd::std_specs::convert::FromSpecImpl<Report> for EvaluateWordTextError {
    open spec fn obeys_from_spec() -> bool {
        true
    }

    open spec fn from_spec(report: Report) -> Self {
        EvaluateWordTextError::FailedToGetHomeDirectory(report)
    }
}

// ---------------------------------------------------------------------------
// Laws

proof fn lemma_kept_pieces_add_up(a: Seq<Seq<char>>, b: Seq<Seq<char>>)
    ensures
        kept_pieces(a + b) == kept_pieces(a) + kept_pieces(b),
    decreases b.len(),
{
    if b.len() == 0 {
        assert(a + b == a);
    } else {
        lemma_kept_pieces_add_up(a, b.drop_last());
        assert((a + b).drop_last() == a + b.drop_last());
        assert((a + b).last() == b.last());
    }
    assert(kept_pieces(a + b) == kept_pieces(a) + kept_pieces(b));
}

/// An expanded text without spaces is one piece that is not quoted, unless it is empty; and each space
/// separates: what stands before it and what stands behind it give their own pieces.
pub proof fn law_each_space_separates(a: Seq<char>, b: Seq<char>)
    ensures
        pieces_of(Seq::<char>::empty()).len() == 0,
        a.len() > 0 && !a.contains(' ') ==> pieces_of(a) == seq![TextPartView::Text(a)],
        pieces_of(a + seq![' '] + b) == pieces_of(a) + pieces_of(b),
{
    crate::text::law_split_at_each_separator(a, b, ' ');
    lemma_kept_pieces_add_up(split_text(a, ' '), split_text(b, ' '));
    let none = Seq::<char>::empty();
    assert(seq![none].drop_last() == Seq::<Seq<char>>::empty());
    assert(split_text(none, ' ') == seq![none]);
    assert(kept_pieces(seq![none]) == kept_pieces(Seq::<Seq<char>>::empty()));
    if a.len() > 0 && !a.contains(' ') {
        assert(seq![a].drop_last() == Seq::<Seq<char>>::empty());
        assert(kept_pieces(seq![a]) == seq![TextPartView::Text(a)]);
    }
}

/// A piece has its own characters, quoted or not.
pub proof fn law_pieces_have_their_text(part: TextPart)
    ensures
        match part {
            TextPart::Quoted(text) => part@ == TextPartView::Quoted(text@) && part@.text() == text@,
            TextPart::Text(text) => part@ == TextPartView::Text(text@) && part@.text() == text@,
        },
{
}

/// One word alone stays as it is where words are made one, no words make the empty word, and each
/// further word comes behind a space. The changes stay.
pub proof fn law_words_are_joined_by_spaces(
    words: Seq<Seq<char>>,
    last: Seq<char>,
    changes: Seq<EnvChangeView>,
)
    ensures
        (WordPartsView { value: seq![], changes }).joined() == (WordView {
            value: seq![],
            changes,
        }),
        (WordPartsView { value: seq![last], changes }).joined() == (WordView {
            value: last,
            changes,
        }),
        words.len() > 0 ==> (WordPartsView { value: words.push(last), changes }).joined().value == (
        WordPartsView { value: words, changes }).joined().value + seq![' '] + last,
{
    crate::text::law_joining_adds_at_the_end(words, seq![' '], last);
}

/// The text of an error names the pattern between quotes; that of a malformed one goes on with the
/// position and what is wrong there. Whatever else kept a word from its value, the text is the same.
pub proof fn law_word_errors_name_the_pattern(
    pattern: Seq<char>,
    pos: usize,
    msg: Seq<char>,
    report: ReportView,
)
    ensures
        word_error_text(WordErrorView::NoFilesMatched(pattern)) == "glob: no matches found '"@
            + pattern + "'"@,
        word_error_text(WordErrorView::InvalidPattern(pattern, pos, msg))
            == "glob: no matches found '"@ + pattern
            + "'. Pattern syntax error near position "@ + decimal(pos as int) + ": "@ + msg,
        word_error_text(WordErrorView::FailedToGetHomeDirectory(report))
            == "Failed to get home directory"@,
{
}

/// The text of a report names the variable, the index or the range that it is about; that of an
/// expression or a word is the text of its error.
pub proof fn law_reports_name_their_subject(
    name: Seq<char>,
    index: i64,
    start: usize,
    end: usize,
    arithmetic: ArithmeticErrorView,
    word: WordErrorView,
)
    ensures
        report_text(ReportView::NoHomeDirectory) == "Failed to get home directory"@,
        report_text(ReportView::UndefinedVariable(name)) == "Undefined variable: "@ + name,
        report_text(ReportView::InvalidIndex(name)) == "Failed to parse start index: "@ + name,
        report_text(ReportView::IndexOutOfRange(index))
            == "out of range integral type conversion attempted"@,
        report_text(ReportView::InvalidSubstringRange(start, end)) == "Invalid substring range: "@
            + decimal(start as int) + ".."@ + decimal(end as int),
        report_text(ReportView::Arithmetic(arithmetic)) == error_text(arithmetic),
        report_text(ReportView::Word(Box::new(word))) == word_error_text(word),
{
}

} // verus!
