//! Expansion of words.
//!
//! A [`WordEvaluation`] goes through the parts of a word. Where it needs something from outside,
//! such as the output of a command or the files that match a pattern, it stops with a
//! [`WordStep`] that says what, and goes on with the reply. What is nested in the word it asks for
//! in the same way; `word_run` evaluates that.

use crate::arithmetic::{execute_arithmetic_expression, parts_evaluated};
use crate::list::AsyncCommandBehavior;
use crate::pattern::{
    has_glob_char, is_glob, law_three_characters_make_a_pattern, GlobOptions, PatternError,
};
use crate::state::{ShellState, StateView};
use crate::syntax::{Arithmetic, SequentialList, TildePrefix, VariableModifier, WordPart};
use crate::text::{
    chars_of, decimal, law_join_undoes_split, lemma_split_is_not_empty, number_text, split_text,
};
use crate::types::EnvChangeView;
use crate::words::{
    kept_pieces, modified_outcome, parts_view, pieces_of, word_outcome, EvaluateGlob, EvaluateWordTextError, IsQuoted,
    Modified, ModifiedView, Report, ReportView, Text, TextPart, TextPartView, WordErrorView,
    WordPartsResult, WordPartsView,
};
use std::rc::Rc;
use vstd::prelude::*;

verus! {

// ---------------------------------------------------------------------------
// The text of one word

/// A character that is to stand for itself in a glob pattern.
pub open spec fn escaped_char(c: char) -> Seq<char> {
    if c == '?' || c == '*' || c == '[' || c == ']' {
        seq!['[', c, ']']
    } else {
        seq![c]
    }
}

/// A text whose characters are all to stand for themselves in a glob pattern.
pub open spec fn escaped(s: Seq<char>) -> Seq<char>
    decreases s.len(),
{
    if s.len() == 0 {
        seq![]
    } else {
        escaped(s.drop_last()) + escaped_char(s.last())
    }
}

/// The pieces of a word, one after the other.
pub open spec fn plain_text(parts: Seq<TextPartView>) -> Seq<char>
    decreases parts.len(),
{
    if parts.len() == 0 {
        seq![]
    } else {
        plain_text(parts.drop_last()) + parts.last().text()
    }
}

/// The pieces of a word as a glob pattern: those that are quoted stand for themselves.
pub open spec fn pattern_text(parts: Seq<TextPartView>) -> Seq<char>
    decreases parts.len(),
{
    if parts.len() == 0 {
        seq![]
    } else {
        pattern_text(parts.drop_last()) + match parts.last() {
            TextPartView::Quoted(text) => escaped(text),
            TextPartView::Text(text) => text,
        }
    }
}

/// Whether a piece that is not quoted makes the word a glob pattern.
pub open spec fn has_pattern(parts: Seq<TextPartView>) -> bool {
    exists|i: int|
        0 <= i < parts.len() && ((#[trigger] parts[i]) matches TextPartView::Text(text)
            && has_glob_char(text))
}

/// Whether a word stands for the files that match it.
pub open spec fn is_search(parts: Seq<TextPartView>, is_quoted: IsQuoted, eval_glob: EvaluateGlob) -> bool {
    is_quoted == IsQuoted::No && eval_glob == EvaluateGlob::Enabled && has_pattern(parts)
}

/// A glob pattern that stands for files, and the directory that it is looked for in.
#[derive(Debug)]
pub struct FilePattern {
    pub text: String,
    pub cwd: String,
}

/// What a [`FilePattern`] says.
#[verifier::ext_equal]
pub struct FilePatternView {
    pub text: Seq<char>,
    pub cwd: Seq<char>,
}

impl View for FilePattern {
    type V = FilePatternView;

    open spec fn view(&self) -> FilePatternView {
        FilePatternView { text: self.text@, cwd: self.cwd@ }
    }
}

/// A search for files.
#[derive(Debug)]
pub struct GlobRequest {
    /// The pattern, with the working directory before it where it is relative.
    pub pattern: String,
    /// Whether the pattern was absolute as it was written.
    pub is_absolute: bool,
    pub options: GlobOptions,
}

/// What a [`GlobRequest`] says.
#[verifier::ext_equal]
pub struct GlobRequestView {
    pub pattern: Seq<char>,
    pub is_absolute: bool,
    pub options: GlobOptions,
}

impl View for GlobRequest {
    type V = GlobRequestView;

    open spec fn view(&self) -> GlobRequestView {
        GlobRequestView {
            pattern: self.pattern@,
            is_absolute: self.is_absolute,
            options: self.options,
        }
    }
}

/// The search that a pattern asks for; `is_absolute` says whether it is an absolute path. Case does
/// not count, so that it works the same way on file systems that do not tell case apart; wildcards
/// match neither `/` nor a leading `.`.
pub open spec fn search_for(pattern: FilePatternView, is_absolute: bool) -> GlobRequestView {
    GlobRequestView {
        pattern: if is_absolute {
            pattern.text
        } else {
            pattern.cwd + seq!['/'] + pattern.text
        },
        is_absolute,
        options: GlobOptions {
            case_sensitive: false,
            require_literal_separator: true,
            require_literal_leading_dot: true,
        },
    }
}

/// Whether there is a system on which a path can be absolute: it starts with a separator, or names a
/// drive.
pub open spec fn may_be_absolute(path: Seq<char>) -> bool {
    path.len() > 0 && (path[0] == '/' || path[0] == '\\' || path.contains(':'))
}

/// Calls `std::path::Path::is_absolute`. Systems differ on paths that start with a separator or name
/// a drive, so that nothing is claimed of those; every other path is relative on all of them.
#[verifier::external_body]
fn is_absolute_path(path: &str) -> (r: bool)
    ensures
        r ==> may_be_absolute(path@),
{
    std::path::Path::new(path).is_absolute()
}

impl FilePattern {
    /// The search that the pattern asks for on this system, which says whether it is an absolute
    /// path.
    pub fn into_request(self) -> (r: GlobRequest)
        ensures
            r@ == search_for(self@, r@.is_absolute),
            !may_be_absolute(self@.text) ==> !r@.is_absolute,
    {
        let is_absolute = is_absolute_path(self.text.as_str());
        self.request(is_absolute)
    }

    /// The search that the pattern asks for. Whether it is an absolute path, `is_absolute`, is for
    /// the system to say.
    pub fn request(self, is_absolute: bool) -> (r: GlobRequest)
        ensures
            r@ == search_for(self@, is_absolute),
    {
        let FilePattern { text, cwd } = self;
        let pattern = if is_absolute {
            text
        } else {
            let mut full = cwd;
            full.push('/');
            full.append(text.as_str());
            full
        };
        let r = GlobRequest {
            pattern,
            is_absolute,
            options: GlobOptions {
                case_sensitive: false,
                require_literal_separator: true,
                require_literal_leading_dot: true,
            },
        };
        assert(r@.pattern == search_for(self@, is_absolute).pattern);
        r
    }
}

/// What the pieces of one word come to.
#[derive(Debug)]
pub enum WordText {
    /// One word.
    Plain(String),
    /// The files that match.
    Search(FilePattern),
}

fn append_escaped(r: &mut String, text: &str)
    ensures
        final(r)@ == old(r)@ + escaped(text@),
{
    let chars = chars_of(text);
    let ghost before = r@;
    let mut i: usize = 0;
    assert(text@.take(0) == Seq::<char>::empty());
    assert(before + escaped(text@.take(0)) == before);
    while i < chars.len()
        invariant
            chars@ == text@,
            i <= chars.len(),
            r@ == before + escaped(text@.take(i as int)),
        decreases chars.len() - i,
    {
        let c = chars[i];
        assert(text@.take(i + 1).drop_last() == text@.take(i as int));
        if c == '?' || c == '*' || c == '[' || c == ']' {
            r.push('[');
            r.push(c);
            r.push(']');
        } else {
            r.push(c);
        }
        i += 1;
        assert(r@ == before + escaped(text@.take(i as int)));
    }
    assert(text@.take(i as int) == text@);
}

/// Decides what the pieces of one word come to.
pub fn evaluate_word_text(
    text_parts: &Vec<TextPart>,
    is_quoted: IsQuoted,
    eval_glob: EvaluateGlob,
    cwd: &str,
) -> (r: WordText)
    ensures
        ({
            let parts = parts_view(text_parts@);
            match r {
                WordText::Plain(word) => !is_search(parts, is_quoted, eval_glob) && word@
                    == plain_text(parts),
                WordText::Search(pattern) => is_search(parts, is_quoted, eval_glob) && pattern@ == (
                FilePatternView { text: pattern_text(parts), cwd: cwd@ }),
            }
        }),
{
    let ghost parts = parts_view(text_parts@);
    let mut search = false;
    let mut plain = String::new();
    let mut pattern = String::new();
    let mut i: usize = 0;
    assert(parts.take(0) == Seq::<TextPartView>::empty());
    while i < text_parts.len()
        invariant
            i <= text_parts.len(),
            parts == parts_view(text_parts@),
            search == has_pattern(parts.take(i as int)),
            plain@ == plain_text(parts.take(i as int)),
            pattern@ == pattern_text(parts.take(i as int)),
        decreases text_parts.len() - i,
    {
        let ghost before = parts.take(i as int);
        let ghost after = parts.take(i + 1);
        assert(after.drop_last() == before);
        assert(after.last() == text_parts@[i as int]@);
        plain.append(text_parts[i].as_str());
        match &text_parts[i] {
            TextPart::Quoted(text) => {
                append_escaped(&mut pattern, text.as_str());
            },
            TextPart::Text(text) => {
                pattern.append(text.as_str());
                if is_glob(text.as_str()) {
                    search = true;
                    assert(after[i as int] matches TextPartView::Text(t) && has_glob_char(t));
                }
            },
        }
        proof {
            if has_pattern(before) {
                let k = choose|k: int|
                    0 <= k < before.len() && ((#[trigger] before[k]) matches TextPartView::Text(t)
                        && has_glob_char(t));
                assert(after[k] == before[k]);
                assert(has_pattern(after));
            }
            if has_pattern(after) {
                let k = choose|k: int|
                    0 <= k < after.len() && ((#[trigger] after[k]) matches TextPartView::Text(t)
                        && has_glob_char(t));
                if k < i {
                    assert(before[k] == after[k]);
                }
            }
        }
        i += 1;
    }
    assert(parts.take(i as int) == parts);
    if is_quoted == IsQuoted::No && eval_glob == EvaluateGlob::Enabled && search {
        WordText::Search(FilePattern { text: pattern, cwd: cwd.to_owned() })
    } else {
        WordText::Plain(plain)
    }
}

// ---------------------------------------------------------------------------
// The output of a command

/// A text without the line end that it closes with.
pub open spec fn without_line_end(s: Seq<char>) -> Seq<char> {
    let n = s.len() as int;
    if n >= 2 && s[n - 2] == '\r' && s[n - 1] == '\n' {
        s.take(n - 2)
    } else if n >= 1 && s[n - 1] == '\n' {
        s.take(n - 1)
    } else {
        s
    }
}

/// A text with a space in place of each line end.
pub open spec fn on_one_line(s: Seq<char>) -> Seq<char>
    decreases s.len(),
{
    let n = s.len() as int;
    if n == 0 {
        seq![]
    } else if s[n - 1] == '\n' && n >= 2 && s[n - 2] == '\r' {
        on_one_line(s.take(n - 2)).push(' ')
    } else if s[n - 1] == '\n' {
        on_one_line(s.take(n - 1)).push(' ')
    } else {
        on_one_line(s.take(n - 1)).push(s[n - 1])
    }
}

/// What the output of a command expands to: the line end that closes it is left out, and the
/// others become spaces.
pub fn substitution_text(output: &str) -> (r: String)
    ensures
        r@ == on_one_line(without_line_end(output@)),
{
    let chars = chars_of(output);
    let n: usize = chars.len();
    let end: usize = if n >= 2 && chars[n - 2] == '\r' && chars[n - 1] == '\n' {
        n - 2
    } else if n >= 1 && chars[n - 1] == '\n' {
        n - 1
    } else {
        n
    };
    let ghost s = without_line_end(output@);
    assert(s == output@.take(end as int));
    let mut r = String::new();
    let mut i: usize = 0;
    assert(s.take(0) == Seq::<char>::empty());
    while i < end
        invariant
            i <= end <= chars.len(),
            chars@ == output@,
            s == output@.take(end as int),
            r@ == on_one_line(s.take(i as int)),
            i < end && i > 0 && s[i - 1] == '\r' ==> s[i as int] != '\n',
        decreases end - i,
    {
        let c = chars[i];
        if c == '\r' && i + 1 < end && chars[i + 1] == '\n' {
            r.push(' ');
            proof {
                let t = s.take(i + 2);
                assert(t.take(t.len() - 2) == s.take(i as int));
                assert(r@ == on_one_line(t));
            }
            i += 2;
        } else {
            if c == '\n' {
                r.push(' ');
            } else {
                r.push(c);
            }
            proof {
                let t = s.take(i + 1);
                assert(t.take(t.len() - 1) == s.take(i as int));
                assert(r@ == on_one_line(t));
            }
            i += 1;
        }
    }
    assert(s.take(i as int) == s);
    r
}

/// The expanded output of a command holds no line feed.
pub proof fn law_substitution_is_one_line(s: Seq<char>)
    ensures
        !on_one_line(s).contains('\n'),
    decreases s.len(),
{
    let n = s.len() as int;
    if n > 0 {
        let cut = if s[n - 1] == '\n' && n >= 2 && s[n - 2] == '\r' {
            n - 2
        } else {
            n - 1
        };
        law_substitution_is_one_line(s.take(cut));
        let before = on_one_line(s.take(cut));
        assert forall|k: int| 0 <= k < on_one_line(s).len() implies on_one_line(s)[k] != '\n' by {
            if k < before.len() {
                assert(before.contains(before[k]));
            }
        }
    }
}

/// Output without line ends expands to itself.
pub proof fn law_substitution_keeps_one_line(s: Seq<char>)
    requires
        !s.contains('\n'),
    ensures
        on_one_line(without_line_end(s)) == s,
    decreases s.len(),
{
    let n = s.len() as int;
    if n > 0 {
        assert(s.contains(s[n - 1]));
        let t = s.take(n - 1);
        assert forall|k: int| 0 <= k < n - 1 implies #[trigger] t[k] != '\n' by {
            assert(s.contains(s[k]));
        }
        law_substitution_keeps_one_line(t);
        assert(without_line_end(s.take(n - 1)) == s.take(n - 1)) by {
            if n >= 2 {
                assert(s.contains(s[n - 2]));
            }
        }
        assert(s.take(n - 1).push(s[n - 1]) == s);
    }
}

// ---------------------------------------------------------------------------
// The evaluation of a word

/// How far the evaluation of a word has come.
#[verifier::ext_equal]
pub struct EvaluationView {
    /// The parts that are still to be evaluated.
    pub parts: Seq<WordPart>,
    pub is_quoted: IsQuoted,
    pub eval_glob: EvaluateGlob,
    /// The words that are complete, and the changes so far.
    pub words: WordPartsView,
    /// The pieces of the word that is being put together.
    pub current: Seq<TextPartView>,
    /// Words whose pieces are complete, and which come before it.
    pub pending: Seq<Seq<TextPartView>>,
}

/// What the evaluation of a word does next.
#[verifier::ext_equal]
pub enum StepView {
    Modifier(Seq<char>, Rc<VariableModifier>, EvaluationView),
    Substitution(Rc<SequentialList>, AsyncCommandBehavior, EvaluationView),
    Quoted(Rc<Vec<WordPart>>, EvaluationView),
    Home(EvaluationView),
    Search(FilePatternView, EvaluationView),
    Done(Result<WordPartsView, WordErrorView>),
}

/// The evaluation of a word before its first part.
pub open spec fn evaluation_start(
    parts: Seq<WordPart>,
    is_quoted: IsQuoted,
    eval_glob: EvaluateGlob,
) -> EvaluationView {
    EvaluationView {
        parts,
        is_quoted,
        eval_glob,
        words: WordPartsView { value: seq![], changes: seq![] },
        current: seq![],
        pending: seq![],
    }
}

/// Each piece as a word of its own.
pub open spec fn single_words(parts: Seq<TextPartView>) -> Seq<Seq<TextPartView>> {
    parts.map_values(|p: TextPartView| seq![p])
}

impl EvaluationView {
    /// With one more piece of the current word.
    pub open spec fn with_piece(self, piece: TextPartView) -> EvaluationView {
        EvaluationView { current: self.current.push(piece), ..self }
    }

    /// With more changes.
    pub open spec fn with_changes(self, changes: Seq<EnvChangeView>) -> EvaluationView {
        EvaluationView {
            words: WordPartsView { changes: self.words.changes + changes, ..self.words },
            ..self
        }
    }

    /// With more complete words.
    pub open spec fn with_words(self, words: Seq<Seq<char>>) -> EvaluationView {
        EvaluationView {
            words: WordPartsView { value: self.words.value + words, ..self.words },
            ..self
        }
    }

    /// With an expanded text: its first piece belongs to the current word, its last one starts
    /// the next, and each between them is a word.
    pub open spec fn with_text(self, text: Seq<TextPartView>) -> EvaluationView {
        if text.len() == 0 {
            self
        } else if text.len() == 1 {
            self.with_piece(text[0])
        } else {
            EvaluationView {
                pending: self.pending.push(self.current.push(text[0])) + single_words(
                    text.subrange(1, text.len() - 1),
                ),
                current: seq![text.last()],
                ..self
            }
        }
    }

    /// Without the first of its parts.
    pub open spec fn next_part(self) -> EvaluationView {
        EvaluationView { parts: self.parts.skip(1), ..self }
    }

    /// Without the first of the words that wait.
    pub open spec fn next_pending(self) -> EvaluationView {
        EvaluationView { pending: self.pending.skip(1), ..self }
    }

    /// What the evaluation does up to where it needs something from outside, and the state that
    /// assignments in arithmetic lead to.
    pub open spec fn advanced(self, s: StateView) -> (StateView, StepView)
        decreases
                self.parts.len(),
                self.pending.len() + if self.current.len() > 0 {
                    2int
                } else {
                    0
                },
    {
        if self.pending.len() > 0 {
            let word = self.pending[0];
            if is_search(word, self.is_quoted, self.eval_glob) {
                (
                    s,
                    StepView::Search(
                        FilePatternView { text: pattern_text(word), cwd: s.cwd },
                        self.next_pending(),
                    ),
                )
            } else {
                self.next_pending().with_words(seq![plain_text(word)]).advanced(s)
            }
        } else if self.parts.len() > 0 {
            let rest = self.next_part();
            match self.parts[0] {
                WordPart::Text(text) => rest.with_piece(TextPartView::Text(text@)).advanced(s),
                WordPart::Variable(name, None) => match s.var(name@) {
                    Some(value) => rest.with_text(seq![TextPartView::Text(value)]).advanced(s),
                    None => rest.advanced(s),
                },
                WordPart::Variable(name, Some(modifier)) => (
                    s,
                    StepView::Modifier(name@, modifier, rest),
                ),
                WordPart::Command(list) => (
                    s,
                    StepView::Substitution(list, AsyncCommandBehavior::Wait, rest),
                ),
                WordPart::Quoted(parts) => (s, StepView::Quoted(parts, rest)),
                WordPart::Tilde(prefix) => if prefix.user is None {
                    (s, StepView::Home(rest))
                } else {
                    rest.advanced(s)
                },
                WordPart::Arithmetic(arithmetic) => {
                    let (s1, r) = parts_evaluated(arithmetic.parts@, s);
                    match r {
                        Ok(v) => rest.with_piece(
                            TextPartView::Text(decimal(v.value as int)),
                        ).with_changes(v.changes).advanced(s1),
                        Err(e) => (
                            s1,
                            StepView::Done(
                                Err(
                                    WordErrorView::FailedToGetHomeDirectory(
                                        ReportView::Arithmetic(e),
                                    ),
                                ),
                            ),
                        ),
                    }
                },
                WordPart::ExitStatus => rest.with_piece(
                    TextPartView::Text(decimal(s.last_exit_code() as int)),
                ).advanced(s),
            }
        } else if self.current.len() > 0 {
            EvaluationView { pending: seq![self.current], current: seq![], ..self }.advanced(s)
        } else {
            (s, StepView::Done(Ok(self.words)))
        }
    }

    /// How the evaluation goes on with what a variable with a modifier expands to.
    pub open spec fn after_modifier(self, outcome: Result<ModifiedView, ReportView>, s: StateView) -> (
        StateView,
        StepView,
    ) {
        match outcome {
            Err(report) => (
                s,
                StepView::Done(Err(WordErrorView::FailedToGetHomeDirectory(report))),
            ),
            Ok(modified) => match modified.changes {
                Some(changes) => self.with_changes(changes).with_text(modified.text).advanced(s),
                None => self.with_text(modified.text).advanced(s),
            },
        }
    }

    /// How the evaluation goes on with the output of a command.
    pub open spec fn after_output(self, output: Seq<char>, s: StateView) -> (StateView, StepView) {
        self.with_text(
            pieces_of(on_one_line(without_line_end(output))),
        ).advanced(s)
    }

    /// How the evaluation goes on with what a quoted part evaluates to: its words joined by
    /// spaces are one quoted piece.
    pub open spec fn after_quoted(
        self,
        outcome: Result<WordPartsView, WordErrorView>,
        s: StateView,
    ) -> (StateView, StepView) {
        match outcome {
            Err(e) => (s, StepView::Done(Err(e))),
            Ok(words) => self.with_changes(words.changes).with_piece(
                TextPartView::Quoted(words.joined().value),
            ).advanced(s),
        }
    }

    /// How the evaluation goes on with the home directory.
    pub open spec fn after_home(self, home: Option<Seq<char>>, s: StateView) -> (
        StateView,
        StepView,
    ) {
        match home {
            None => (
                s,
                StepView::Done(
                    Err(WordErrorView::FailedToGetHomeDirectory(ReportView::NoHomeDirectory)),
                ),
            ),
            Some(dir) => self.with_piece(TextPartView::Text(dir)).advanced(s),
        }
    }

    /// How the evaluation goes on with the files that a search found: each is a word.
    pub open spec fn after_search(
        self,
        request: GlobRequestView,
        outcome: Result<Seq<Seq<char>>, (usize, Seq<char>)>,
        s: StateView,
    ) -> (StateView, StepView) {
        match outcome {
            Err(e) => (
                s,
                StepView::Done(Err(WordErrorView::InvalidPattern(request.pattern, e.0, e.1))),
            ),
            Ok(paths) => if paths.len() == 0 {
                (s, StepView::Done(Err(WordErrorView::NoFilesMatched(request.pattern))))
            } else {
                self.with_words(paths).advanced(s)
            },
        }
    }
}

/// What the pieces of each of several words say.
pub open spec fn words_view(words: Seq<Vec<TextPart>>) -> Seq<Seq<TextPartView>> {
    words.map_values(|w: Vec<TextPart>| parts_view(w@))
}

/// The evaluation of a word, at a point where it needs something from outside.
#[derive(Debug)]
pub struct WordEvaluation {
    parts: Rc<Vec<WordPart>>,
    next: usize,
    is_quoted: IsQuoted,
    eval_glob: EvaluateGlob,
    result: WordPartsResult,
    current_text: Vec<TextPart>,
    pending: Vec<Vec<TextPart>>,
}

impl View for WordEvaluation {
    type V = EvaluationView;

    closed spec fn view(&self) -> EvaluationView {
        EvaluationView {
            parts: if self.next <= self.parts@.len() {
                self.parts@.skip(self.next as int)
            } else {
                seq![]
            },
            is_quoted: self.is_quoted,
            eval_glob: self.eval_glob,
            words: self.result@,
            current: parts_view(self.current_text@),
            pending: words_view(self.pending@),
        }
    }
}

/// What the evaluation of a word needs next, or what it came to.
#[derive(Debug)]
pub enum WordStep {
    /// The expansion of the variable of this name with the modifier.
    Modifier(String, Rc<VariableModifier>, WordEvaluation),
    /// The output of the commands, run in a copy of the state.
    Substitution(Rc<SequentialList>, AsyncCommandBehavior, WordEvaluation),
    /// The evaluation of the parts between quotes.
    Quoted(Rc<Vec<WordPart>>, WordEvaluation),
    /// The home directory.
    Home(WordEvaluation),
    /// The files that match a pattern.
    Search(FilePattern, WordEvaluation),
    Done(Result<WordPartsResult, EvaluateWordTextError>),
}

impl View for WordStep {
    type V = StepView;

    open spec fn view(&self) -> StepView {
        match self {
            WordStep::Modifier(name, modifier, e) => StepView::Modifier(name@, *modifier, e@),
            WordStep::Substitution(list, behavior, e) => StepView::Substitution(
                *list,
                *behavior,
                e@,
            ),
            WordStep::Quoted(parts, e) => StepView::Quoted(*parts, e@),
            WordStep::Home(e) => StepView::Home(e@),
            WordStep::Search(pattern, e) => StepView::Search(pattern@, e@),
            WordStep::Done(r) => StepView::Done(word_outcome(*r)),
        }
    }
}

/// A file that a search found.
#[derive(Debug)]
pub struct GlobMatch {
    /// Its path.
    pub full: String,
    /// Its path from the working directory, where it lies below it.
    pub relative: Option<String>,
}

/// The words that the files found stand for: their paths, as the pattern was written.
pub open spec fn match_words(found: Seq<GlobMatch>, is_absolute: bool) -> Seq<Seq<char>> {
    found.map_values(
        |m: GlobMatch|
            if is_absolute {
                m.full@
            } else {
                m.relative->0@
            },
    )
}

/// What the outcome of a search says.
pub open spec fn search_outcome(
    r: Result<Vec<GlobMatch>, PatternError>,
    is_absolute: bool,
) -> Result<Seq<Seq<char>>, (usize, Seq<char>)> {
    match r {
        Ok(found) => Ok(match_words(found@, is_absolute)),
        Err(e) => Err((e.pos, e.msg@)),
    }
}

/// Starts the evaluation of the parts of a word.
pub fn evaluate_word_parts(
    parts: Rc<Vec<WordPart>>,
    state: &mut ShellState,
    eval_glob: EvaluateGlob,
) -> (r: WordStep)
    ensures
        (final(state)@, r@) == evaluation_start(parts@, IsQuoted::No, eval_glob).advanced(
            old(state)@,
        ),
{
    WordEvaluation::start(parts, IsQuoted::No, eval_glob).advance(state)
}

/// Starts the evaluation of the parts of a word between quotes.
pub fn evaluate_quoted_parts(
    parts: Rc<Vec<WordPart>>,
    state: &mut ShellState,
    eval_glob: EvaluateGlob,
) -> (r: WordStep)
    ensures
        (final(state)@, r@) == evaluation_start(parts@, IsQuoted::Yes, eval_glob).advanced(
            old(state)@,
        ),
{
    WordEvaluation::start(parts, IsQuoted::Yes, eval_glob).advance(state)
}

impl WordEvaluation {
    fn start(parts: Rc<Vec<WordPart>>, is_quoted: IsQuoted, eval_glob: EvaluateGlob) -> (r: Self)
        ensures
            r@ == evaluation_start(parts@, is_quoted, eval_glob),
    {
        let r = WordEvaluation {
            parts,
            next: 0,
            is_quoted,
            eval_glob,
            result: WordPartsResult::empty(),
            current_text: Vec::new(),
            pending: Vec::new(),
        };
        assert(parts@.skip(0) == parts@);
        assert(r@.current == Seq::<TextPartView>::empty());
        assert(r@.pending == Seq::<Seq<TextPartView>>::empty());
        r
    }

    /// Whether glob patterns are evaluated in the word.
    pub fn eval_glob(&self) -> (r: EvaluateGlob)
        ensures
            r == self@.eval_glob,
    {
        self.eval_glob
    }

    fn push_piece(&mut self, piece: TextPart)
        ensures
            final(self)@ == old(self)@.with_piece(piece@),
    {
        let ghost before = self.current_text@;
        self.current_text.push(piece);
        assert(parts_view(self.current_text@) == parts_view(before).push(piece@));
    }

    fn push_text(&mut self, text: Text)
        ensures
            final(self)@ == old(self)@.with_text(text@),
    {
        let ghost pieces = text@;
        let mut parts = text.into_parts();
        if parts.len() == 0 {
            return ;
        }
        let ghost all = parts@;
        assert(parts_view(all) == pieces);
        let ghost start = *self;
        let first = parts.remove(0);
        assert(first@ == pieces[0]);
        let ghost current = self.current_text@;
        self.current_text.push(first);
        assert(parts_view(self.current_text@) == parts_view(current).push(first@));
        if parts.len() == 0 {
            return ;
        }
        let mut word: Vec<TextPart> = Vec::new();
        std::mem::swap(&mut word, &mut self.current_text);
        let ghost pending = self.pending@;
        self.pending.push(word);
        assert(words_view(self.pending@) == words_view(pending).push(
            start@.current.push(pieces[0]),
        ));
        let ghost flushed = words_view(self.pending@);
        assert(flushed + single_words(pieces.subrange(1, 1)) == flushed);
        let ghost mut done: int = 1;
        while parts.len() > 1
            invariant
                1 <= done,
                done + parts@.len() == all.len(),
                parts@.len() >= 1,
                parts@ == all.skip(done),
                pieces == parts_view(all),
                self.parts == start.parts,
                self.next == start.next,
                self.is_quoted == start.is_quoted,
                self.eval_glob == start.eval_glob,
                self.result == start.result,
                words_view(self.pending@) == flushed + single_words(pieces.subrange(1, done)),
            decreases parts@.len(),
        {
            let part = parts.remove(0);
            assert(part@ == pieces[done]);
            assert(parts@ == all.skip(done + 1));
            let mut single: Vec<TextPart> = Vec::new();
            single.push(part);
            assert(parts_view(single@) == seq![part@]);
            let ghost before = self.pending@;
            self.pending.push(single);
            proof {
                assert(words_view(self.pending@) == words_view(before).push(seq![part@]));
                assert(pieces.subrange(1, done + 1) == pieces.subrange(1, done).push(pieces[done]));
                assert(single_words(pieces.subrange(1, done + 1)) == single_words(
                    pieces.subrange(1, done),
                ).push(seq![part@]));
                done = done + 1;
            }
        }
        assert(parts_view(parts@) == seq![pieces.last()]);
        self.current_text = parts;
    }

    fn advance(self, state: &mut ShellState) -> (r: WordStep)
        ensures
            (final(state)@, r@) == self@.advanced(old(state)@),
    {
        let mut e = self;
        loop
            invariant
                e@.advanced(state@) == self@.advanced(old(state)@),
            decreases
                    e@.parts.len(),
                    e@.pending.len() + if e@.current.len() > 0 {
                        2int
                    } else {
                        0
                    },
        {
            let ghost before = e@;
            if e.pending.len() > 0 {
                let ghost pending = e.pending@;
                let word = e.pending.remove(0);
                assert(words_view(e.pending@) == words_view(pending).skip(1));
                assert(parts_view(word@) == before.pending[0]);
                assert(e@ == before.next_pending());
                match evaluate_word_text(&word, e.is_quoted, e.eval_glob, state.cwd()) {
                    WordText::Search(pattern) => {
                        return WordStep::Search(pattern, e);
                    },
                    WordText::Plain(text) => {
                        e.result.push(text);
                        assert(e@ == before.next_pending().with_words(seq![text@]));
                    },
                }
            } else if e.next < e.parts.len() {
                let parts = e.parts.clone();
                let index: usize = e.next;
                e.next = index + 1;
                assert(before.parts[0] == parts@[index as int]);
                assert(e@.parts == before.parts.skip(1));
                assert(e@ == before.next_part());
                match &parts[index] {
                    WordPart::Text(text) => {
                        e.push_piece(TextPart::Text(text.clone()));
                    },
                    WordPart::Variable(name, modifier) => match modifier {
                        Some(modifier) => {
                            return WordStep::Modifier(name.clone(), modifier.clone(), e);
                        },
                        None => match state.get_var(name.as_str()) {
                            Some(value) => {
                                e.push_text(Text::whole(value.clone()));
                            },
                            None => {},
                        },
                    },
                    WordPart::Command(list) => {
                        return WordStep::Substitution(
                            list.clone(),
                            AsyncCommandBehavior::Wait,
                            e,
                        );
                    },
                    WordPart::Quoted(quoted) => {
                        return WordStep::Quoted(quoted.clone(), e);
                    },
                    WordPart::Tilde(prefix) => {
                        if prefix.only_tilde() {
                            return WordStep::Home(e);
                        }
                    },
                    WordPart::Arithmetic(arithmetic) => {
                        match execute_arithmetic_expression(arithmetic, state) {
                            Ok(result) => {
                                e.push_piece(TextPart::Text(result.to_text()));
                                e.result.with_changes(result.changes);
                            },
                            Err(err) => {
                                return WordStep::Done(
                                    Err(EvaluateWordTextError::from(Report::Arithmetic(err))),
                                );
                            },
                        }
                    },
                    WordPart::ExitStatus => {
                        let code = number_text(state.last_command_exit_code() as i64);
                        e.push_piece(TextPart::Text(code));
                    },
                }
            } else if e.current_text.len() > 0 {
                assert(before.parts.len() == 0);
                let mut word: Vec<TextPart> = Vec::new();
                std::mem::swap(&mut word, &mut e.current_text);
                e.pending.push(word);
                assert(e@.pending == seq![before.current]);
                assert(e@.current == Seq::<TextPartView>::empty());
            } else {
                assert(before.parts.len() == 0);
                return WordStep::Done(Ok(e.result));
            }
        }
    }

    /// Goes on with what a variable with a modifier expands to.
    pub fn on_modifier(self, outcome: Result<Modified, Report>, state: &mut ShellState) -> (r: WordStep)
        ensures
            (final(state)@, r@) == self@.after_modifier(modified_outcome(outcome), old(state)@),
    {
        match outcome {
            Err(report) => WordStep::Done(Err(EvaluateWordTextError::from(report))),
            Ok(modified) => {
                let mut e = self;
                match modified.changes {
                    Some(changes) => {
                        e.result.with_changes(changes);
                    },
                    None => {},
                }
                e.push_text(modified.text);
                e.advance(state)
            },
        }
    }

    /// Goes on with the output of a command.
    pub fn on_output(self, output: &str, state: &mut ShellState) -> (r: WordStep)
        ensures
            (final(state)@, r@) == self@.after_output(output@, old(state)@),
    {
        let mut e = self;
        e.push_text(Text::from_string(substitution_text(output)));
        e.advance(state)
    }

    /// Goes on with what a quoted part evaluates to.
    pub fn on_quoted(
        self,
        outcome: Result<WordPartsResult, EvaluateWordTextError>,
        state: &mut ShellState,
    ) -> (r: WordStep)
        ensures
            (final(state)@, r@) == self@.after_quoted(word_outcome(outcome), old(state)@),
    {
        match outcome {
            Err(err) => WordStep::Done(Err(err)),
            Ok(words) => {
                let mut e = self;
                let word = words.into_word();
                e.result.with_changes(word.changes);
                e.push_piece(TextPart::Quoted(word.value));
                e.advance(state)
            },
        }
    }

    /// Goes on with the home directory.
    pub fn on_home(self, home: Option<String>, state: &mut ShellState) -> (r: WordStep)
        ensures
            (final(state)@, r@) == self@.after_home(
                match home {
                    Some(dir) => Some(dir@),
                    None => None,
                },
                old(state)@,
            ),
    {
        match home {
            None => WordStep::Done(Err(EvaluateWordTextError::from(Report::NoHomeDirectory))),
            Some(dir) => {
                let mut e = self;
                e.push_piece(TextPart::Text(dir));
                e.advance(state)
            },
        }
    }

    /// Goes on with the files that a search found. Where the pattern was relative, each of them
    /// lies below the working directory.
    pub fn on_search(
        self,
        request: GlobRequest,
        outcome: Result<Vec<GlobMatch>, PatternError>,
        state: &mut ShellState,
    ) -> (r: WordStep)
        requires
            !request.is_absolute ==> (outcome matches Ok(found) ==> forall|i: int|
                0 <= i < found@.len() ==> (#[trigger] found@[i]).relative is Some),
        ensures
            (final(state)@, r@) == self@.after_search(
                request@,
                search_outcome(outcome, request.is_absolute),
                old(state)@,
            ),
    {
        match outcome {
            Err(err) => WordStep::Done(
                Err(EvaluateWordTextError::InvalidPattern { pattern: request.pattern, err }),
            ),
            Ok(found) => {
                if found.len() == 0 {
                    return WordStep::Done(
                        Err(EvaluateWordTextError::NoFilesMatched { pattern: request.pattern }),
                    );
                }
                let mut e = self;
                let ghost all = match_words(found@, request.is_absolute);
                let mut i: usize = 0;
                assert(self@.with_words(all.take(0)) == self@);
                while i < found.len()
                    invariant
                        i <= found.len(),
                        all == match_words(found@, request.is_absolute),
                        e@ == self@.with_words(all.take(i as int)),
                        !request.is_absolute ==> forall|k: int|
                            0 <= k < found@.len() ==> (#[trigger] found@[k]).relative is Some,
                    decreases found.len() - i,
                {
                    let word = if request.is_absolute {
                        found[i].full.clone()
                    } else {
                        match &found[i].relative {
                            Some(path) => path.clone(),
                            None => String::new(),
                        }
                    };
                    assert(word@ == all[i as int]);
                    assert(all.take(i + 1) == all.take(i as int).push(all[i as int]));
                    e.result.push(word);
                    assert(e@.words.value == self@.words.value + all.take(i + 1));
                    assert(e@ == self@.with_words(all.take(i + 1)));
                    i += 1;
                }
                assert(all.take(i as int) == all);
                e.advance(state)
            },
        }
    }
}

// ---------------------------------------------------------------------------
// Laws

/// The evaluation that goes on after a step.
pub open spec fn step_evaluation(step: StepView) -> Option<EvaluationView> {
    match step {
        StepView::Modifier(_, _, e) => Some(e),
        StepView::Substitution(_, _, e) => Some(e),
        StepView::Quoted(_, e) => Some(e),
        StepView::Home(e) => Some(e),
        StepView::Search(_, e) => Some(e),
        StepView::Done(_) => None,
    }
}

/// An evaluation between quotes, or with glob patterns disabled, never searches for files; and
/// it stays so.
pub proof fn law_quoted_word_is_no_search(e: EvaluationView, s: StateView)
    requires
        e.is_quoted == IsQuoted::Yes || e.eval_glob == EvaluateGlob::Disabled,
    ensures
        !(e.advanced(s).1 is Search),
        step_evaluation(e.advanced(s).1) matches Some(next) ==> next.is_quoted == e.is_quoted
            && next.eval_glob == e.eval_glob,
    decreases
            e.parts.len(),
            e.pending.len() + if e.current.len() > 0 {
                2int
            } else {
                0
            },
{
    if e.pending.len() > 0 {
        law_quoted_word_is_no_search(
            e.next_pending().with_words(seq![plain_text(e.pending[0])]),
            s,
        );
    } else if e.parts.len() > 0 {
        let rest = e.next_part();
        match e.parts[0] {
            WordPart::Text(text) => {
                law_quoted_word_is_no_search(rest.with_piece(TextPartView::Text(text@)), s);
            },
            WordPart::Variable(name, None) => match s.var(name@) {
                Some(value) => {
                    law_quoted_word_is_no_search(
                        rest.with_text(seq![TextPartView::Text(value)]),
                        s,
                    );
                },
                None => {
                    law_quoted_word_is_no_search(rest, s);
                },
            },
            WordPart::Tilde(prefix) => {
                if prefix.user is Some {
                    law_quoted_word_is_no_search(rest, s);
                }
            },
            WordPart::Arithmetic(arithmetic) => {
                let (s1, r) = parts_evaluated(arithmetic.parts@, s);
                if let Ok(v) = r {
                    law_quoted_word_is_no_search(
                        rest.with_piece(
                            TextPartView::Text(decimal(v.value as int)),
                        ).with_changes(v.changes),
                        s1,
                    );
                }
            },
            WordPart::ExitStatus => {
                law_quoted_word_is_no_search(
                    rest.with_piece(TextPartView::Text(decimal(s.last_exit_code() as int))),
                    s,
                );
            },
            _ => {},
        }
    } else if e.current.len() > 0 {
        law_quoted_word_is_no_search(
            EvaluationView { pending: seq![e.current], current: seq![], ..e },
            s,
        );
    }
}

/// Whether a part is text, and no glob pattern.
pub open spec fn is_literal(part: WordPart) -> bool {
    part matches WordPart::Text(text) && !has_glob_char(text@)
}

/// The characters of parts that are all text.
pub open spec fn literal_text(parts: Seq<WordPart>) -> Seq<char>
    decreases parts.len(),
{
    if parts.len() == 0 {
        seq![]
    } else {
        parts[0]->Text_0@ + literal_text(parts.skip(1))
    }
}

proof fn lemma_literal_word(e: EvaluationView, s: StateView)
    requires
        forall|i: int| 0 <= i < e.parts.len() ==> is_literal(#[trigger] e.parts[i]),
        e.pending.len() == 0,
        e.parts.len() > 0 || e.current.len() > 0,
        !has_pattern(e.current),
    ensures
        e.advanced(s) == (
            s,
            StepView::Done(
                Ok(
                    WordPartsView {
                        value: e.words.value.push(plain_text(e.current) + literal_text(e.parts)),
                        changes: e.words.changes,
                    },
                ),
            ),
        ),
    decreases e.parts.len(),
{
    if e.parts.len() > 0 {
        let text = e.parts[0]->Text_0@;
        assert(is_literal(e.parts[0]));
        let next = e.next_part().with_piece(TextPartView::Text(text));
        assert(next.current.drop_last() == e.current);
        assert(!has_pattern(next.current)) by {
            if has_pattern(next.current) {
                let k = choose|k: int|
                    0 <= k < next.current.len() && ((
                    #[trigger] next.current[k]) matches TextPartView::Text(t) && has_glob_char(t));
                if k < e.current.len() {
                    assert(e.current[k] == next.current[k]);
                }
            }
        }
        assert forall|i: int| 0 <= i < next.parts.len() implies is_literal(
            #[trigger] next.parts[i],
        ) by {
            assert(next.parts[i] == e.parts[i + 1]);
        }
        lemma_literal_word(next, s);
        assert(plain_text(next.current) + literal_text(next.parts) == plain_text(e.current)
            + literal_text(e.parts));
    } else {
        let flush = EvaluationView { pending: seq![e.current], current: seq![], ..e };
        assert(!is_search(e.current, e.is_quoted, e.eval_glob));
        let last = flush.next_pending().with_words(seq![plain_text(e.current)]);
        assert(flush.pending[0] == e.current);
        assert(flush.advanced(s) == last.advanced(s));
        assert(last.pending.len() == 0);
        assert(plain_text(e.current) + literal_text(e.parts) == plain_text(e.current));
        assert(last.words.value == e.words.value.push(plain_text(e.current)));
        assert(last.advanced(s) == (s, StepView::Done(Ok(last.words))));
    }
}

/// A word of literal text evaluates to that text, as one word, and changes nothing.
pub proof fn law_literal_word_is_itself(
    parts: Seq<WordPart>,
    is_quoted: IsQuoted,
    eval_glob: EvaluateGlob,
    s: StateView,
)
    requires
        parts.len() > 0,
        forall|i: int| 0 <= i < parts.len() ==> is_literal(#[trigger] parts[i]),
    ensures
        evaluation_start(parts, is_quoted, eval_glob).advanced(s) == (
            s,
            StepView::Done(
                Ok(WordPartsView { value: seq![literal_text(parts)], changes: seq![] }),
            ),
        ),
{
    let e = evaluation_start(parts, is_quoted, eval_glob);
    lemma_literal_word(e, s);
    assert(plain_text(e.current) + literal_text(parts) == literal_text(parts));
    assert(e.words.value.push(literal_text(parts)) == seq![literal_text(parts)]);
}

/// A word without parts, and one of a variable that is not set, evaluate to no word at all.
pub proof fn law_unset_variable_is_no_word(
    name: String,
    is_quoted: IsQuoted,
    eval_glob: EvaluateGlob,
    s: StateView,
)
    requires
        s.var(name@) is None,
    ensures
        evaluation_start(seq![], is_quoted, eval_glob).advanced(s) == (
            s,
            StepView::Done(Ok(WordPartsView { value: seq![], changes: seq![] })),
        ),
        evaluation_start(seq![WordPart::Variable(name, None)], is_quoted, eval_glob).advanced(s)
            == evaluation_start(seq![], is_quoted, eval_glob).advanced(s),
{
    let e = evaluation_start(seq![WordPart::Variable(name, None)], is_quoted, eval_glob);
    assert(e.next_part() == evaluation_start(seq![], is_quoted, eval_glob));
    assert(e.parts[0] == WordPart::Variable(name, None));
}

/// A variable that is set, whose value is no glob pattern, evaluates to its value as one word:
/// spaces in it do not split it.
pub proof fn law_variable_is_one_word(
    name: String,
    is_quoted: IsQuoted,
    eval_glob: EvaluateGlob,
    s: StateView,
)
    requires
        s.var(name@) matches Some(value) && !has_glob_char(value),
    ensures
        evaluation_start(seq![WordPart::Variable(name, None)], is_quoted, eval_glob).advanced(s)
            == (
            s,
            StepView::Done(
                Ok(WordPartsView { value: seq![s.var(name@)->0], changes: seq![] }),
            ),
        ),
{
    let value = s.var(name@)->0;
    let e = evaluation_start(seq![WordPart::Variable(name, None)], is_quoted, eval_glob);
    assert(e.parts[0] == WordPart::Variable(name, None));
    let next = e.next_part().with_text(seq![TextPartView::Text(value)]);
    assert(next.parts == Seq::<WordPart>::empty());
    assert(next.current == seq![TextPartView::Text(value)]);
    assert(e.advanced(s) == next.advanced(s));
    lemma_literal_word(next, s);
    assert(next.current.drop_last() == Seq::<TextPartView>::empty());
    assert(plain_text(next.current.drop_last()) == Seq::<char>::empty());
    assert(plain_text(next.current) + literal_text(next.parts) == value);
    assert(next.words.value.push(value) == seq![value]);
}

/// A text without its spaces.
pub open spec fn without_spaces(s: Seq<char>) -> Seq<char>
    decreases s.len(),
{
    if s.len() == 0 {
        seq![]
    } else if s.last() == ' ' {
        without_spaces(s.drop_last())
    } else {
        without_spaces(s.drop_last()).push(s.last())
    }
}

/// A piece that is not quoted and not empty, and holds no space.
pub open spec fn is_solid(piece: TextPartView) -> bool {
    piece matches TextPartView::Text(text) && text.len() > 0 && !text.contains(' ')
}

proof fn lemma_kept_pieces_are_solid(pieces: Seq<Seq<char>>)
    requires
        forall|i: int| 0 <= i < pieces.len() ==> !(#[trigger] pieces[i]).contains(' '),
    ensures
        forall|i: int|
            0 <= i < kept_pieces(pieces).len() ==> is_solid(#[trigger] kept_pieces(pieces)[i]),
    decreases pieces.len(),
{
    if pieces.len() > 0 {
        let less = pieces.drop_last();
        assert forall|i: int| 0 <= i < less.len() implies !(#[trigger] less[i]).contains(' ') by {
            assert(less[i] == pieces[i]);
        }
        lemma_kept_pieces_are_solid(less);
        assert(!pieces[pieces.len() - 1].contains(' '));
        let kept = kept_pieces(pieces);
        assert forall|i: int| 0 <= i < kept.len() implies is_solid(#[trigger] kept[i]) by {
            if i < kept_pieces(less).len() {
                assert(kept[i] == kept_pieces(less)[i]);
            }
        }
    }
}

proof fn lemma_kept_pieces_text(pieces: Seq<Seq<char>>, last: Seq<char>)
    ensures
        plain_text(kept_pieces(pieces.push(last))) == plain_text(kept_pieces(pieces)) + last,
{
    assert(pieces.push(last).drop_last() == pieces);
    assert(pieces.push(last).last() == last);
    if last.len() == 0 {
        assert(plain_text(kept_pieces(pieces)) + last == plain_text(kept_pieces(pieces)));
    } else {
        let kept = kept_pieces(pieces).push(TextPartView::Text(last));
        assert(kept.drop_last() == kept_pieces(pieces));
        assert(kept.last() == TextPartView::Text(last));
    }
}

/// No piece of an expanded text is empty or holds a space, and the pieces joined together are the
/// text without its spaces.
pub proof fn law_pieces_hold_the_text(s: Seq<char>)
    ensures
        forall|i: int| 0 <= i < pieces_of(s).len() ==> is_solid(#[trigger] pieces_of(s)[i]),
        plain_text(pieces_of(s)) == without_spaces(s),
    decreases s.len(),
{
    law_join_undoes_split(s, ' ');
    lemma_kept_pieces_are_solid(split_text(s, ' '));
    if s.len() == 0 {
        let none = Seq::<Seq<char>>::empty();
        assert(split_text(s, ' ') == none.push(seq![]));
        lemma_kept_pieces_text(none, seq![]);
        assert(plain_text(kept_pieces(none)) == Seq::<char>::empty());
    } else {
        let t = s.drop_last();
        law_pieces_hold_the_text(t);
        let before = split_text(t, ' ');
        if s.last() == ' ' {
            lemma_kept_pieces_text(before, seq![]);
        } else {
            lemma_split_is_not_empty(t, ' ');
            let front = before.drop_last();
            assert(before == front.push(before.last()));
            lemma_kept_pieces_text(front, before.last());
            lemma_kept_pieces_text(front, before.last().push(s.last()));
        }
    }
}

/// The words that pieces make, each on its own.
pub open spec fn piece_words(pieces: Seq<TextPartView>) -> Seq<Seq<char>> {
    pieces.map_values(|p: TextPartView| p.text())
}

/// What is left of an evaluation without parts, where no word is a search: the words that wait,
/// and the current one where it has a piece.
spec fn settled_words(e: EvaluationView) -> Seq<Seq<char>> {
    e.words.value + e.pending.map_values(|word: Seq<TextPartView>| plain_text(word)) + (
    if e.current.len() > 0 {
        seq![plain_text(e.current)]
    } else {
        seq![]
    })
}

proof fn lemma_words_settle(e: EvaluationView, s: StateView)
    requires
        e.parts.len() == 0,
        forall|i: int|
            0 <= i < e.pending.len() ==> !is_search(
                #[trigger] e.pending[i],
                e.is_quoted,
                e.eval_glob,
            ),
        !is_search(e.current, e.is_quoted, e.eval_glob),
    ensures
        e.advanced(s) == (
            s,
            StepView::Done(
                Ok(WordPartsView { value: settled_words(e), changes: e.words.changes }),
            ),
        ),
    decreases
            e.pending.len() + if e.current.len() > 0 {
                2int
            } else {
                0
            },
{
    if e.pending.len() > 0 {
        let word = e.pending[0];
        assert(!is_search(word, e.is_quoted, e.eval_glob));
        let next = e.next_pending().with_words(seq![plain_text(word)]);
        assert forall|i: int| 0 <= i < next.pending.len() implies !is_search(
            #[trigger] next.pending[i],
            next.is_quoted,
            next.eval_glob,
        ) by {
            assert(next.pending[i] == e.pending[i + 1]);
        }
        lemma_words_settle(next, s);
        assert(settled_words(next) == settled_words(e));
        assert(e.advanced(s) == next.advanced(s));
    } else if e.current.len() > 0 {
        let next = EvaluationView { pending: seq![e.current], current: seq![], ..e };
        assert(next.pending[0] == e.current);
        assert(!has_pattern(next.current));
        lemma_words_settle(next, s);
        assert(settled_words(next) == settled_words(e));
        assert(e.advanced(s) == next.advanced(s));
    } else {
        assert(settled_words(e) == e.words.value);
    }
}

/// A word that is nothing but expanded text evaluates to its pieces, where none of them stands for
/// files: each is a word, and a text without pieces is no word at all.
pub proof fn law_expanded_text_gives_its_pieces(e: EvaluationView, text: Seq<TextPartView>, s: StateView)
    requires
        e.parts.len() == 0,
        e.pending.len() == 0,
        e.current.len() == 0,
        forall|i: int|
            0 <= i < text.len() ==> !is_search(
                seq![#[trigger] text[i]],
                e.is_quoted,
                e.eval_glob,
            ),
    ensures
        e.with_text(text).advanced(s) == (
            s,
            StepView::Done(
                Ok(
                    WordPartsView {
                        value: e.words.value + piece_words(text),
                        changes: e.words.changes,
                    },
                ),
            ),
        ),
{
    let next = e.with_text(text);
    let n = text.len() as int;
    if n == 0 {
        assert(e.words.value + piece_words(text) == e.words.value);
    } else {
        let last = text[n - 1];
        assert(e.current.push(text[0]) == seq![text[0]]);
        if n > 1 {
            assert forall|i: int| 0 <= i < next.pending.len() implies #[trigger] next.pending[i]
                == seq![text[i]] by {}
        }
        assert forall|i: int| 0 <= i < next.pending.len() implies !is_search(
            #[trigger] next.pending[i],
            next.is_quoted,
            next.eval_glob,
        ) by {
            assert(next.pending[i] == seq![text[i]]);
        }
        assert(next.current == seq![last]);
        lemma_words_settle(next, s);
        assert forall|i: int| 0 <= i < n implies plain_text(seq![#[trigger] text[i]])
            == text[i].text() by {
            let one = seq![text[i]];
            assert(one.drop_last() == Seq::<TextPartView>::empty());
            assert(plain_text(one.drop_last()) == Seq::<char>::empty());
            assert(plain_text(one) == text[i].text());
        }
        assert(settled_words(next) == e.words.value + piece_words(text)) by {
            let words = settled_words(next);
            let wanted = e.words.value + piece_words(text);
            let k = e.words.value.len();
            assert(words.len() == k + n);
            assert forall|i: int| 0 <= i < words.len() implies words[i] == wanted[i] by {
                if i >= k {
                    let j = i - k;
                    assert(plain_text(seq![text[j]]) == text[j].text());
                    if j < n - 1 {
                        assert(next.pending[j] == seq![text[j]]);
                    }
                }
            }
        }
    }
}

/// Text without glob characters stands for itself in a pattern, quoted or not.
pub proof fn law_escaping_keeps_literals(s: Seq<char>)
    requires
        !has_glob_char(s),
        !s.contains(']'),
    ensures
        escaped(s) == s,
    decreases s.len(),
{
    if s.len() > 0 {
        let t = s.drop_last();
        assert forall|k: int| 0 <= k < t.len() implies !crate::pattern::is_glob_char(
            #[trigger] t[k],
        ) && t[k] != ']' by {
            assert(s[k] == t[k]);
            assert(s.contains(s[k]));
        }
        law_escaping_keeps_literals(t);
        assert(!crate::pattern::is_glob_char(s[s.len() - 1]));
        assert(s.contains(s[s.len() - 1]));
        assert(t.push(s.last()) == s);
    }
}

/// In a pattern, the four characters with a meaning stand for themselves inside brackets, and every
/// other character as it is; a text is escaped one character after the other.
pub proof fn law_escaping_goes_by_character(s: Seq<char>, c: char)
    ensures
        escaped(Seq::<char>::empty()).len() == 0,
        escaped(s.push(c)) == escaped(s) + (if c == '?' || c == '*' || c == '[' || c == ']' {
            seq!['[', c, ']']
        } else {
            seq![c]
        }),
{
    assert(s.push(c).drop_last() == s);
}

/// The pieces of a word follow each other. In its text each has its own characters; in its pattern a
/// piece that is not quoted has its own characters, and a quoted one stands for itself.
pub proof fn law_pieces_follow_each_other(parts: Seq<TextPartView>, text: Seq<char>)
    ensures
        plain_text(seq![]).len() == 0,
        pattern_text(seq![]).len() == 0,
        plain_text(parts.push(TextPartView::Text(text))) == plain_text(parts) + text,
        plain_text(parts.push(TextPartView::Quoted(text))) == plain_text(parts) + text,
        pattern_text(parts.push(TextPartView::Text(text))) == pattern_text(parts) + text,
        pattern_text(parts.push(TextPartView::Quoted(text))) == pattern_text(parts) + escaped(text),
{
    assert(parts.push(TextPartView::Text(text)).drop_last() == parts);
    assert(parts.push(TextPartView::Quoted(text)).drop_last() == parts);
}

/// Whether a piece can make a word stand for files: it is not quoted, and holds a wildcard.
pub open spec fn is_wild(part: TextPartView) -> bool {
    part matches TextPartView::Text(text) && (text.contains('?') || text.contains('*')
        || text.contains('['))
}

proof fn lemma_wild_pieces(parts: Seq<TextPartView>)
    ensures
        has_pattern(parts) <==> exists|i: int| 0 <= i < parts.len() && is_wild(#[trigger] parts[i]),
{
    if has_pattern(parts) {
        let i = choose|i: int|
            0 <= i < parts.len() && ((#[trigger] parts[i]) matches TextPartView::Text(text)
                && has_glob_char(text));
        law_three_characters_make_a_pattern(parts[i]->Text_0);
        assert(is_wild(parts[i]));
    }
    if exists|i: int| 0 <= i < parts.len() && is_wild(#[trigger] parts[i]) {
        let i = choose|i: int| 0 <= i < parts.len() && is_wild(#[trigger] parts[i]);
        law_three_characters_make_a_pattern(parts[i]->Text_0);
    }
}

/// Pieces are looked for as a pattern exactly where the word is not quoted, patterns are enabled, and
/// one of the pieces that are not quoted holds a wildcard.
pub proof fn law_only_unquoted_wildcards_search(
    parts: Seq<TextPartView>,
    is_quoted: IsQuoted,
    eval_glob: EvaluateGlob,
)
    ensures
        is_search(parts, is_quoted, eval_glob) <==> is_quoted == IsQuoted::No && eval_glob
            == EvaluateGlob::Enabled && exists|i: int|
            0 <= i < parts.len() && is_wild(#[trigger] parts[i]),
{
    lemma_wild_pieces(parts);
}

/// Where the parts of a word are done, its pieces are the files that match their pattern in the
/// working directory, where an unquoted piece holds a wildcard and patterns are enabled and the
/// word is not quoted; else they are one word, behind those that are complete.
pub proof fn law_pieces_become_files_or_a_word(e: EvaluationView, s: StateView)
    requires
        e.parts.len() == 0,
        e.pending.len() == 0,
        e.current.len() > 0,
    ensures
        ({
            let files = e.is_quoted == IsQuoted::No && e.eval_glob == EvaluateGlob::Enabled
                && exists|i: int| 0 <= i < e.current.len() && is_wild(#[trigger] e.current[i]);
            &&& files ==> e.advanced(s) == (
                s,
                StepView::Search(
                    FilePatternView { text: pattern_text(e.current), cwd: s.cwd },
                    EvaluationView { current: seq![], ..e },
                ),
            )
            &&& !files ==> e.advanced(s) == (
                s,
                StepView::Done(
                    Ok(
                        WordPartsView {
                            value: e.words.value.push(plain_text(e.current)),
                            changes: e.words.changes,
                        },
                    ),
                ),
            )
        }),
{
    lemma_wild_pieces(e.current);
    let flush = EvaluationView { pending: seq![e.current], current: seq![], ..e };
    assert(flush.pending[0] == e.current);
    assert(flush.next_pending() == (EvaluationView { current: seq![], ..e })) by {
        assert(flush.pending.skip(1) == e.pending);
    }
    assert(e.advanced(s) == flush.advanced(s));
    if !is_search(e.current, e.is_quoted, e.eval_glob) {
        let last = flush.next_pending().with_words(seq![plain_text(e.current)]);
        assert(flush.advanced(s) == last.advanced(s));
        assert(last.words.value == e.words.value.push(plain_text(e.current)));
        assert(last.advanced(s) == (s, StepView::Done(Ok(last.words))));
    }
}

/// A word that waits comes before everything else: it is the files that match it, or one word behind
/// those that are complete.
pub proof fn law_waiting_words_come_first(e: EvaluationView, s: StateView)
    requires
        e.pending.len() > 0,
    ensures
        ({
            let word = e.pending[0];
            let rest = EvaluationView { pending: e.pending.skip(1), ..e };
            let files = e.is_quoted == IsQuoted::No && e.eval_glob == EvaluateGlob::Enabled
                && exists|i: int| 0 <= i < word.len() && is_wild(#[trigger] word[i]);
            &&& files ==> e.advanced(s) == (
                s,
                StepView::Search(FilePatternView { text: pattern_text(word), cwd: s.cwd }, rest),
            )
            &&& !files ==> e.advanced(s) == (EvaluationView {
                words: WordPartsView {
                    value: e.words.value.push(plain_text(word)),
                    changes: e.words.changes,
                },
                ..rest
            }).advanced(s)
        }),
{
    let word = e.pending[0];
    lemma_wild_pieces(word);
    assert(e.words.value + seq![plain_text(word)] == e.words.value.push(plain_text(word)));
}

/// Where nothing is left of a word, it comes to the words that are complete.
pub proof fn law_nothing_left_is_done(e: EvaluationView, s: StateView)
    requires
        e.parts.len() == 0,
        e.pending.len() == 0,
        e.current.len() == 0,
    ensures
        e.advanced(s) == (s, StepView::Done(Ok(e.words))),
{
}

/// An evaluation whose first part was replaced by text.
spec fn begun_with(e: EvaluationView, text: String, rest: Seq<WordPart>) -> EvaluationView {
    EvaluationView { parts: seq![WordPart::Text(text)] + rest, ..e }
}

/// Text of a word is a piece of it that is not quoted. A variable that is set, and the exit status,
/// stand for text: the evaluation goes on as if their value were written in their place. One that is
/// not set, and the home directory of a user, stand for nothing.
pub proof fn law_parts_stand_for_text(
    e: EvaluationView,
    text: String,
    name: String,
    prefix: TildePrefix,
    rest: Seq<WordPart>,
    s: StateView,
)
    requires
        e.pending.len() == 0,
    ensures
        (EvaluationView { parts: seq![WordPart::Text(text)] + rest, ..e }).advanced(s) == (
        EvaluationView {
            parts: rest,
            current: e.current.push(TextPartView::Text(text@)),
            ..e
        }).advanced(s),
        s.var(name@) == Some(text@) ==> (EvaluationView {
            parts: seq![WordPart::Variable(name, None)] + rest,
            ..e
        }).advanced(s) == (EvaluationView {
            parts: seq![WordPart::Text(text)] + rest,
            ..e
        }).advanced(s),
        text@ == decimal(s.last_exit_code() as int) ==> (EvaluationView {
            parts: seq![WordPart::ExitStatus] + rest,
            ..e
        }).advanced(s) == (EvaluationView {
            parts: seq![WordPart::Text(text)] + rest,
            ..e
        }).advanced(s),
        s.var(name@) is None ==> (EvaluationView {
            parts: seq![WordPart::Variable(name, None)] + rest,
            ..e
        }).advanced(s) == (EvaluationView { parts: rest, ..e }).advanced(s),
        prefix.user is Some ==> (EvaluationView {
            parts: seq![WordPart::Tilde(prefix)] + rest,
            ..e
        }).advanced(s) == (EvaluationView { parts: rest, ..e }).advanced(s),
{
    let t = begun_with(e, text, rest);
    assert(t.parts.skip(1) == rest);
    assert(t.parts[0] == WordPart::Text(text));
    let v = EvaluationView { parts: seq![WordPart::Variable(name, None)] + rest, ..e };
    assert(v.parts.skip(1) == rest);
    assert(v.parts[0] == WordPart::Variable(name, None));
    let x = EvaluationView { parts: seq![WordPart::ExitStatus] + rest, ..e };
    assert(x.parts.skip(1) == rest);
    assert(x.parts[0] == WordPart::ExitStatus);
    let u = EvaluationView { parts: seq![WordPart::Tilde(prefix)] + rest, ..e };
    assert(u.parts.skip(1) == rest);
    assert(u.parts[0] == WordPart::Tilde(prefix));
    if s.var(name@) == Some(text@) {
        let one = seq![TextPartView::Text(text@)];
        assert(one[0] == TextPartView::Text(text@));
        assert(v.next_part().with_text(one) == t.next_part().with_piece(
            TextPartView::Text(text@),
        ));
    }
}

/// An expression in a word stands for its value in decimal, as text that is not quoted; its changes are
/// kept, and the evaluation goes on in the state that it led to. An expression that fails ends the
/// evaluation.
pub proof fn law_expression_stands_for_its_value(
    e: EvaluationView,
    arithmetic: Rc<Arithmetic>,
    text: String,
    rest: Seq<WordPart>,
    s: StateView,
)
    requires
        e.pending.len() == 0,
    ensures
        ({
            let (led_to, r) = parts_evaluated(arithmetic.parts@, s);
            let next = (EvaluationView {
                parts: seq![WordPart::Arithmetic(arithmetic)] + rest,
                ..e
            }).advanced(s);
            match r {
                Ok(v) => text@ == decimal(v.value as int) ==> next == (EvaluationView {
                    parts: seq![WordPart::Text(text)] + rest,
                    words: WordPartsView {
                        value: e.words.value,
                        changes: e.words.changes + v.changes,
                    },
                    ..e
                }).advanced(led_to),
                Err(error) => next == (
                    led_to,
                    StepView::Done(
                        Err(WordErrorView::FailedToGetHomeDirectory(ReportView::Arithmetic(error))),
                    ),
                ),
            }
        }),
{
    let a = EvaluationView { parts: seq![WordPart::Arithmetic(arithmetic)] + rest, ..e };
    assert(a.parts.skip(1) == rest);
    assert(a.parts[0] == WordPart::Arithmetic(arithmetic));
    let (led_to, r) = parts_evaluated(arithmetic.parts@, s);
    if r is Ok && text@ == decimal(r->Ok_0.value as int) {
        let v = r->Ok_0;
        let t = EvaluationView {
            parts: seq![WordPart::Text(text)] + rest,
            words: WordPartsView { value: e.words.value, changes: e.words.changes + v.changes },
            ..e
        };
        assert(t.parts.skip(1) == rest);
        assert(t.parts[0] == WordPart::Text(text));
        let piece = TextPartView::Text(text@);
        assert(a.next_part().with_piece(piece).with_changes(v.changes)
            == t.next_part().with_piece(piece));
    }
}

/// The other parts of a word are asked for, and leave the state as it is: a variable with a modifier, a
/// part between quotes, the output of commands, which are waited for, and the home directory.
pub proof fn law_other_parts_are_asked_for(
    e: EvaluationView,
    name: String,
    modifier: Rc<VariableModifier>,
    list: Rc<SequentialList>,
    quoted: Rc<Vec<WordPart>>,
    prefix: TildePrefix,
    rest: Seq<WordPart>,
    s: StateView,
)
    requires
        e.pending.len() == 0,
    ensures
        ({
            let then = EvaluationView { parts: rest, ..e };
            &&& (EvaluationView {
                parts: seq![WordPart::Variable(name, Some(modifier))] + rest,
                ..e
            }).advanced(s) == (s, StepView::Modifier(name@, modifier, then))
            &&& (EvaluationView { parts: seq![WordPart::Command(list)] + rest, ..e }).advanced(s)
                == (s, StepView::Substitution(list, AsyncCommandBehavior::Wait, then))
            &&& (EvaluationView { parts: seq![WordPart::Quoted(quoted)] + rest, ..e }).advanced(s)
                == (s, StepView::Quoted(quoted, then))
            &&& prefix.user is None ==> (EvaluationView {
                parts: seq![WordPart::Tilde(prefix)] + rest,
                ..e
            }).advanced(s) == (s, StepView::Home(then))
        }),
{
    let m = EvaluationView { parts: seq![WordPart::Variable(name, Some(modifier))] + rest, ..e };
    assert(m.parts.skip(1) == rest);
    assert(m.parts[0] == WordPart::Variable(name, Some(modifier)));
    let c = EvaluationView { parts: seq![WordPart::Command(list)] + rest, ..e };
    assert(c.parts.skip(1) == rest);
    assert(c.parts[0] == WordPart::Command(list));
    let q = EvaluationView { parts: seq![WordPart::Quoted(quoted)] + rest, ..e };
    assert(q.parts.skip(1) == rest);
    assert(q.parts[0] == WordPart::Quoted(quoted));
    let t = EvaluationView { parts: seq![WordPart::Tilde(prefix)] + rest, ..e };
    assert(t.parts.skip(1) == rest);
    assert(t.parts[0] == WordPart::Tilde(prefix));
}

/// An unquoted word that is a single variable whose value holds a wildcard asks, where patterns are
/// enabled, for the files that match the value in the working directory; each file found is a word.
/// Between quotes, or with patterns disabled, the value is one word.
pub proof fn law_variable_with_a_wildcard_searches(name: String, s: StateView)
    requires
        s.var(name@) is Some,
        s.var(name@)->0.contains('?') || s.var(name@)->0.contains('*') || s.var(name@)->0.contains(
            '[',
        ),
    ensures
        ({
            let (end, step) = evaluation_start(
                seq![WordPart::Variable(name, None)],
                IsQuoted::No,
                EvaluateGlob::Enabled,
            ).advanced(s);
            &&& end == s
            &&& step matches StepView::Search(pattern, e)
            &&& pattern.text == s.var(name@)->0
            &&& pattern.cwd == s.cwd
            &&& forall|request: GlobRequestView, paths: Seq<Seq<char>>|
                paths.len() > 0 ==> #[trigger] e.after_search(request, Ok(paths), s) == (
                    s,
                    StepView::Done(Ok(WordPartsView { value: paths, changes: seq![] })),
                )
        }),
        forall|is_quoted: IsQuoted, eval_glob: EvaluateGlob|
            is_quoted == IsQuoted::Yes || eval_glob == EvaluateGlob::Disabled
                ==> #[trigger] evaluation_start(
                seq![WordPart::Variable(name, None)],
                is_quoted,
                eval_glob,
            ).advanced(s) == (
                s,
                StepView::Done(
                    Ok(WordPartsView { value: seq![s.var(name@)->0], changes: seq![] }),
                ),
            ),
{
    let value = s.var(name@)->0;
    lemma_single_piece(TextPartView::Text(value));
    assert forall|is_quoted: IsQuoted, eval_glob: EvaluateGlob| true implies
        #[trigger] evaluation_start(
        seq![WordPart::Variable(name, None)],
        is_quoted,
        eval_glob,
    ).advanced(s) == lone_piece(TextPartView::Text(value), is_quoted, eval_glob).advanced(s) by {
        lemma_lone_variable(name, value, is_quoted, eval_glob, s);
    }
    let lone = lone_piece(TextPartView::Text(value), IsQuoted::No, EvaluateGlob::Enabled);
    assert(is_wild(lone.current[0]));
    law_pieces_become_files_or_a_word(lone, s);
    let left = EvaluationView { current: seq![], ..lone };
    assert(evaluation_start(
        seq![WordPart::Variable(name, None)],
        IsQuoted::No,
        EvaluateGlob::Enabled,
    ).advanced(s) == lone.advanced(s));
    assert(lone.advanced(s) == (
        s,
        StepView::Search(FilePatternView { text: value, cwd: s.cwd }, left),
    ));
    assert forall|request: GlobRequestView, paths: Seq<Seq<char>>| paths.len() > 0 implies
        #[trigger] left.after_search(request, Ok(paths), s) == (
        s,
        StepView::Done(Ok(WordPartsView { value: paths, changes: seq![] })),
    ) by {
        assert(left.words.value + paths == paths);
    }
    assert forall|is_quoted: IsQuoted, eval_glob: EvaluateGlob|
        is_quoted == IsQuoted::Yes || eval_glob == EvaluateGlob::Disabled implies
        #[trigger] evaluation_start(
        seq![WordPart::Variable(name, None)],
        is_quoted,
        eval_glob,
    ).advanced(s) == (
        s,
        StepView::Done(Ok(WordPartsView { value: seq![value], changes: seq![] })),
    ) by {
        let lone = lone_piece(TextPartView::Text(value), is_quoted, eval_glob);
        law_pieces_become_files_or_a_word(lone, s);
        assert(lone.words.value.push(value) == seq![value]);
    }
}

/// An evaluation in which one piece is left.
spec fn lone_piece(piece: TextPartView, is_quoted: IsQuoted, eval_glob: EvaluateGlob) -> EvaluationView {
    EvaluationView { current: seq![piece], ..evaluation_start(seq![], is_quoted, eval_glob) }
}

proof fn lemma_single_piece(piece: TextPartView)
    ensures
        plain_text(seq![piece]) == piece.text(),
        piece is Text ==> pattern_text(seq![piece]) == piece.text(),
{
    let none = Seq::<TextPartView>::empty();
    assert(seq![piece].drop_last() == none);
    assert(plain_text(none) + piece.text() == piece.text());
    if piece is Text {
        assert(pattern_text(none) + piece.text() == piece.text());
    }
}

proof fn lemma_lone_variable(
    name: String,
    value: Seq<char>,
    is_quoted: IsQuoted,
    eval_glob: EvaluateGlob,
    s: StateView,
)
    requires
        s.var(name@) == Some(value),
    ensures
        evaluation_start(seq![WordPart::Variable(name, None)], is_quoted, eval_glob).advanced(s)
            == lone_piece(TextPartView::Text(value), is_quoted, eval_glob).advanced(s),
{
    let e = evaluation_start(seq![WordPart::Variable(name, None)], is_quoted, eval_glob);
    assert(e.parts[0] == WordPart::Variable(name, None));
    let next = e.next_part().with_text(seq![TextPartView::Text(value)]);
    assert(next == lone_piece(TextPartView::Text(value), is_quoted, eval_glob));
    assert(e.advanced(s) == next.advanced(s));
}

/// Of an expanded text the first piece belongs to the current word and the last one starts the next;
/// each piece between them is a word that waits. A text without pieces changes nothing.
pub proof fn law_expanded_pieces_in_order(
    e: EvaluationView,
    first: TextPartView,
    between: Seq<TextPartView>,
    last: TextPartView,
    i: int,
)
    ensures
        e.with_text(seq![]) == e,
        e.with_text(seq![first]) == (EvaluationView { current: e.current.push(first), ..e }),
        ({
            let r = e.with_text(seq![first] + between + seq![last]);
            &&& r.current == seq![last]
            &&& r.parts == e.parts && r.words == e.words && r.is_quoted == e.is_quoted
                && r.eval_glob == e.eval_glob
            &&& r.pending.len() == e.pending.len() + 1 + between.len()
            &&& r.pending.take(e.pending.len() as int) == e.pending
            &&& r.pending[e.pending.len() as int] == e.current.push(first)
            &&& 0 <= i < between.len() ==> r.pending[e.pending.len() + 1 + i] == seq![between[i]]
        }),
{
    let text = seq![first] + between + seq![last];
    let r = e.with_text(text);
    assert(seq![first][0] == first);
    assert(text[0] == first);
    assert(text.last() == last);
    assert(text.subrange(1, text.len() - 1) == between);
    assert(r.pending.take(e.pending.len() as int) == e.pending);
}

/// What a variable with a modifier expands to is expanded text, and its changes are kept; the output of
/// commands is expanded text, split at spaces; the home directory is text that is not quoted; and
/// the words of a quoted part, joined by spaces, are one quoted piece whose changes are kept. What
/// failed ends the evaluation, with the state as it is.
pub proof fn law_replies_go_into_the_word(
    e: EvaluationView,
    modified: ModifiedView,
    report: ReportView,
    output: Seq<char>,
    words: WordPartsView,
    error: WordErrorView,
    dir: String,
    s: StateView,
)
    requires
        e.pending.len() == 0,
        !output.contains('\n'),
    ensures
        e.after_modifier(Ok(modified), s) == (EvaluationView {
            words: WordPartsView {
                value: e.words.value,
                changes: match modified.changes {
                    Some(changes) => e.words.changes + changes,
                    None => e.words.changes,
                },
            },
            ..e
        }).with_text(modified.text).advanced(s),
        e.after_modifier(Err(report), s) == (
            s,
            StepView::Done(Err(WordErrorView::FailedToGetHomeDirectory(report))),
        ),
        e.after_output(output, s) == e.with_text(pieces_of(output)).advanced(s),
        e.after_home(Some(dir@), s) == (EvaluationView {
            parts: seq![WordPart::Text(dir)] + e.parts,
            ..e
        }).advanced(s),
        e.after_home(None, s) == (
            s,
            StepView::Done(
                Err(WordErrorView::FailedToGetHomeDirectory(ReportView::NoHomeDirectory)),
            ),
        ),
        e.after_quoted(Ok(words), s) == (EvaluationView {
            words: WordPartsView {
                value: e.words.value,
                changes: e.words.changes + words.changes,
            },
            current: e.current.push(
                TextPartView::Quoted(crate::text::join_text(words.value, seq![' '])),
            ),
            ..e
        }).advanced(s),
        e.after_quoted(Err(error), s) == (s, StepView::Done(Err(error))),
{
    law_substitution_keeps_one_line(output);
    let t = begun_with(e, dir, e.parts);
    assert(t.parts.skip(1) == e.parts);
    assert(t.parts[0] == WordPart::Text(dir));
    assert(t.next_part().with_piece(TextPartView::Text(dir@)) == e.with_piece(
        TextPartView::Text(dir@),
    ));
    match modified.changes {
        Some(changes) => {
            assert(e.with_changes(changes) == (EvaluationView {
                words: WordPartsView {
                    value: e.words.value,
                    changes: e.words.changes + changes,
                },
                ..e
            }));
        },
        None => {},
    }
}

/// The files that a search found are words, in order, behind those that are complete; none, or a
/// malformed pattern, is an error that names the pattern.
pub proof fn law_files_found_are_words(
    e: EvaluationView,
    request: GlobRequestView,
    paths: Seq<Seq<char>>,
    pos: usize,
    msg: Seq<char>,
    s: StateView,
)
    ensures
        paths.len() > 0 ==> e.after_search(request, Ok(paths), s) == (EvaluationView {
            words: WordPartsView {
                value: e.words.value + paths,
                changes: e.words.changes,
            },
            ..e
        }).advanced(s),
        e.after_search(request, Ok(seq![]), s) == (
            s,
            StepView::Done(Err(WordErrorView::NoFilesMatched(request.pattern))),
        ),
        e.after_search(request, Err((pos, msg)), s) == (
            s,
            StepView::Done(Err(WordErrorView::InvalidPattern(request.pattern, pos, msg))),
        ),
{
}

/// A file found stands for its full path where the pattern was absolute, else for the path below the
/// working directory.
pub proof fn law_files_as_the_pattern_was_written(found: Vec<GlobMatch>, i: int)
    requires
        0 <= i < found@.len(),
    ensures
        ({
            let full = search_outcome(Ok(found), true);
            let below = search_outcome(Ok(found), false);
            &&& full is Ok && below is Ok
            &&& full->Ok_0.len() == found@.len() && below->Ok_0.len() == found@.len()
            &&& full->Ok_0[i] == found@[i].full@
            &&& found@[i].relative matches Some(path) ==> below->Ok_0[i] == path@
        }),
{
}

/// A search tells no case apart, and its wildcards match neither `/` nor a leading `.`. A relative
/// pattern has the working directory and a slash before it; an absolute one stays as it is.
pub proof fn law_search_is_below_the_working_directory(text: Seq<char>, cwd: Seq<char>)
    ensures
        search_for(FilePatternView { text, cwd }, true).pattern == text,
        search_for(FilePatternView { text, cwd }, false).pattern == cwd + seq!['/'] + text,
        search_for(FilePatternView { text, cwd }, true).is_absolute,
        !search_for(FilePatternView { text, cwd }, false).is_absolute,
        forall|is_absolute: bool|
            #![trigger search_for(FilePatternView { text, cwd }, is_absolute)]
            {
                let options = search_for(FilePatternView { text, cwd }, is_absolute).options;
                &&& !options.case_sensitive
                &&& options.require_literal_separator
                &&& options.require_literal_leading_dot
            },
{
}

/// One line end at the end of the output of a command has no effect on what it expands to, and each
/// other line end counts as a space.
pub proof fn law_line_ends_of_output(e: EvaluationView, a: Seq<char>, b: Seq<char>, s: StateView)
    requires
        !a.contains('\n'),
        a.len() > 0 ==> a.last() != '\r',
        b.len() > 0,
        !b.contains('\n'),
    ensures
        e.after_output(a + seq!['\n'], s) == e.after_output(a, s),
        e.after_output(a + seq!['\r', '\n'], s) == e.after_output(a, s),
        e.after_output(a + seq!['\n'] + b, s) == e.after_output(a + seq![' '] + b, s),
        e.after_output(a + seq!['\r', '\n'] + b, s) == e.after_output(a + seq![' '] + b, s),
        e.after_output(a + seq!['\n', '\n'], s) == e.after_output(a + seq![' '], s),
{
    law_substitution_keeps_one_line(a);
    lemma_no_line_end(a);
    assert(without_line_end(a + seq!['\n']) == a);
    assert(without_line_end(a + seq!['\r', '\n']) == a);
    lemma_line_end_inside(a, seq!['\n'], b);
    lemma_line_end_inside(a, seq!['\r', '\n'], b);
    lemma_line_end_inside(a, seq![' '], b);
    let two = a + seq!['\n', '\n'];
    let one = a + seq!['\n'];
    assert(without_line_end(two) == one);
    assert(one.take(one.len() - 1) == a);
    assert(on_one_line(one) == on_one_line(a).push(' '));
    let spaced = a + seq![' '];
    assert(without_line_end(spaced) == spaced);
    assert(spaced.take(spaced.len() - 1) == a);
    assert(on_one_line(spaced) == on_one_line(a).push(' '));
}

proof fn lemma_no_line_end(a: Seq<char>)
    requires
        !a.contains('\n'),
    ensures
        without_line_end(a) == a,
        on_one_line(a) == a,
    decreases a.len(),
{
    let n = a.len() as int;
    if n > 0 {
        assert(a.contains(a[n - 1]));
        let t = a.take(n - 1);
        assert forall|k: int| 0 <= k < n - 1 implies #[trigger] t[k] != '\n' by {
            assert(a.contains(a[k]));
        }
        lemma_no_line_end(t);
        assert(t.push(a[n - 1]) == a);
    }
}

proof fn lemma_line_end_inside(a: Seq<char>, line_end: Seq<char>, b: Seq<char>)
    requires
        !a.contains('\n'),
        a.len() > 0 ==> a.last() != '\r',
        !b.contains('\n'),
        line_end == seq!['\n'] || line_end == seq!['\r', '\n'] || line_end == seq![' '],
    ensures
        on_one_line(a + line_end + b) == a + seq![' '] + b,
        b.len() > 0 ==> without_line_end(a + line_end + b) == a + line_end + b,
    decreases b.len(),
{
    let whole = a + line_end + b;
    let n = whole.len() as int;
    if b.len() == 0 {
        lemma_no_line_end(a);
        assert(whole.take(n - line_end.len()) == a);
        assert(a + seq![' '] + b == a.push(' '));
    } else {
        let less = b.drop_last();
        assert(b.contains(b[b.len() - 1]));
        assert(whole[n - 1] == b[b.len() - 1]);
        assert(!less.contains('\n')) by {
            assert forall|k: int| 0 <= k < less.len() implies less[k] != '\n' by {
                assert(b.contains(b[k]));
            }
        }
        lemma_line_end_inside(a, line_end, less);
        assert(whole.take(n - 1) == a + line_end + less);
        assert((a + seq![' '] + less).push(b.last()) == a + seq![' '] + b);
    }
}

/// An evaluation starts with all its parts, and without any word, piece or change.
pub proof fn law_evaluation_starts_with_nothing(
    parts: Seq<WordPart>,
    is_quoted: IsQuoted,
    eval_glob: EvaluateGlob,
)
    ensures
        ({
            let e = evaluation_start(parts, is_quoted, eval_glob);
            &&& e.parts == parts && e.is_quoted == is_quoted && e.eval_glob == eval_glob
            &&& e.words.value.len() == 0 && e.words.changes.len() == 0
            &&& e.current.len() == 0 && e.pending.len() == 0
        }),
{
}

/// A path may be absolute on some system exactly where it starts with a slash or a backslash, or has a
/// colon in it.
pub proof fn law_relative_paths(path: Seq<char>)
    ensures
        may_be_absolute(path) <==> (path.len() > 0 && (path[0] == '/' || path[0] == '\\'))
            || path.contains(':'),
{
}

} // verus!
