//! Glob patterns: what counts as one, and matching text against one.

use crate::text::{chars_of, same_text, split, split_text, texts};
use vstd::prelude::*;

verus! {

/// How a glob pattern is matched.
#[derive(Debug, Clone, Copy, PartialEq, Eq, Structural)]
pub struct GlobOptions {
    /// Whether upper and lower case differ.
    pub case_sensitive: bool,
    /// Whether only a `/` of the pattern matches a `/`.
    pub require_literal_separator: bool,
    /// Whether only a `.` of the pattern matches a `.` at the start of a path component.
    pub require_literal_leading_dot: bool,
}

/// Why a text is no glob pattern.
#[derive(Debug, Clone, PartialEq, Eq)]
pub struct PatternError {
    /// About where in the pattern the error is.
    pub pos: usize,
    pub msg: String,
}

/// What a [`PatternError`] says.
pub open spec fn pattern_error_view(e: PatternError) -> (usize, Seq<char>) {
    (e.pos, e.msg@)
}

/// What the outcome of a match says.
pub open spec fn match_view(r: Result<bool, PatternError>) -> Result<bool, (usize, Seq<char>)> {
    match r {
        Ok(b) => Ok(b),
        Err(e) => Err(pattern_error_view(e)),
    }
}

/// What `glob::Pattern::new` finds wrong with a pattern: the place and the message.
pub uninterp spec fn glob_syntax_error(pattern: Seq<char>) -> Option<(usize, Seq<char>)>;

/// Whether `glob::Pattern::matches_with` finds that a text matches a pattern, under the options
/// `case_sensitive`, `require_literal_separator` and `require_literal_leading_dot`.
pub uninterp spec fn glob_matches(
    pattern: Seq<char>,
    text: Seq<char>,
    case_sensitive: bool,
    literal_separator: bool,
    literal_leading_dot: bool,
) -> bool;

/// What comes of matching `text` against `pattern`.
pub open spec fn glob_outcome(pattern: Seq<char>, text: Seq<char>, options: GlobOptions) -> Result<
    bool,
    (usize, Seq<char>),
> {
    match glob_syntax_error(pattern) {
        Some(e) => Err(e),
        None => Ok(
            glob_matches(
                pattern,
                text,
                options.case_sensitive,
                options.require_literal_separator,
                options.require_literal_leading_dot,
            ),
        ),
    }
}

/// The options that `glob::MatchOptions::new` gives: case counts, and wildcards match `/` and a
/// leading `.` too.
pub open spec fn default_options() -> GlobOptions {
    GlobOptions {
        case_sensitive: true,
        require_literal_separator: false,
        require_literal_leading_dot: false,
    }
}

/// Compiles `pattern` with `glob::Pattern::new` and asks `glob::Pattern::matches_with` whether
/// `text` matches it. On one compile target both depend on their arguments alone; the target fixes
/// which characters separate the parts of a path. An error is handed on with its position and
/// message.
#[verifier::external_body]
fn glob_match_with(pattern: &str, text: &str, options: GlobOptions) -> (r: Result<bool, PatternError>)
    ensures
        match r {
            Ok(b) => glob_syntax_error(pattern@) is None && b == glob_matches(
                pattern@,
                text@,
                options.case_sensitive,
                options.require_literal_separator,
                options.require_literal_leading_dot,
            ),
            Err(e) => glob_syntax_error(pattern@) == Some((e.pos, e.msg@)),
        },
{
    match glob::Pattern::new(pattern) {
        Ok(p) => Ok(
            p.matches_with(
                text,
                glob::MatchOptions {
                    case_sensitive: options.case_sensitive,
                    require_literal_separator: options.require_literal_separator,
                    require_literal_leading_dot: options.require_literal_leading_dot,
                },
            ),
        ),
        Err(e) => Err(PatternError { pos: e.pos, msg: e.msg.to_string() }),
    }
}

/// Compiles `pattern` with `glob::Pattern::new` and asks `glob::Pattern::matches` whether `text`
/// matches it. That function matches as `matches_with` does with the default options. On one compile
/// target both depend on their arguments alone.
#[verifier::external_body]
fn glob_match(pattern: &str, text: &str) -> (r: Result<bool, PatternError>)
    ensures
        match r {
            Ok(b) => glob_syntax_error(pattern@) is None && b == glob_matches(
                pattern@,
                text@,
                true,
                false,
                false,
            ),
            Err(e) => glob_syntax_error(pattern@) == Some((e.pos, e.msg@)),
        },
{
    match glob::Pattern::new(pattern) {
        Ok(p) => Ok(p.matches(text)),
        Err(e) => Err(PatternError { pos: e.pos, msg: e.msg.to_string() }),
    }
}

/// Whether `c` makes a text a glob pattern.
pub open spec fn is_glob_char(c: char) -> bool {
    c == '?' || c == '*' || c == '['
}

/// Whether a text holds a character that makes it a glob pattern.
pub open spec fn has_glob_char(s: Seq<char>) -> bool {
    exists|i: int| 0 <= i < s.len() && is_glob_char(#[trigger] s[i])
}

/// Whether `pattern` is to be matched as a glob pattern.
pub fn is_glob(pattern: &str) -> (r: bool)
    ensures
        r == has_glob_char(pattern@),
{
    let chars = chars_of(pattern);
    let mut i: usize = 0;
    while i < chars.len()
        invariant
            chars@ == pattern@,
            i <= chars.len(),
            forall|k: int| 0 <= k < i ==> !is_glob_char(#[trigger] pattern@[k]),
        decreases chars.len() - i,
    {
        let c = chars[i];
        if c == '?' || c == '*' || c == '[' {
            assert(is_glob_char(pattern@[i as int]));
            return true;
        }
        i += 1;
    }
    false
}

/// How `==` of a condition matches: case counts, and wildcards match neither `/` nor a leading
/// `.`.
pub open spec fn condition_options() -> GlobOptions {
    GlobOptions {
        case_sensitive: true,
        require_literal_separator: true,
        require_literal_leading_dot: true,
    }
}

/// Whether `left == right` holds in a condition: where `right` is an unquoted glob pattern it
/// is matched, else the texts are compared.
pub open spec fn string_match_outcome(left: Seq<char>, right: Seq<char>, is_quoted: bool) -> Result<
    bool,
    (usize, Seq<char>),
> {
    if !is_quoted && has_glob_char(right) {
        glob_outcome(right, left, condition_options())
    } else {
        Ok(left == right)
    }
}

/// Whether `left == right` holds in a condition.
pub fn string_match(left: &str, right: &str, is_quoted: bool) -> (r: Result<bool, PatternError>)
    ensures
        match_view(r) == string_match_outcome(left@, right@, is_quoted),
{
    if !is_quoted && is_glob(right) {
        let options = GlobOptions {
            case_sensitive: true,
            require_literal_separator: true,
            require_literal_leading_dot: true,
        };
        glob_match_with(right, left, options)
    } else {
        Ok(same_text(left, right))
    }
}

/// Whether an alternative with this outcome matches: one that is no pattern does not.
pub fn alternative_matches(outcome: Result<bool, PatternError>) -> (r: bool)
    ensures
        r == (match_view(outcome) == Ok::<bool, (usize, Seq<char>)>(true)),
{
    match outcome {
        Ok(b) => b,
        Err(_) => false,
    }
}

/// Whether a word matches one of the alternatives of a `case` pattern.
pub open spec fn case_matches(pattern: Seq<char>, word: Seq<char>) -> bool {
    exists|i: int|
        0 <= i < split_text(pattern, '|').len() && glob_outcome(
            #[trigger] split_text(pattern, '|')[i],
            word,
            default_options(),
        ) == Ok::<bool, (usize, Seq<char>)>(true)
}

/// Whether `word_value` matches one of the alternatives, between the characters `|`, of
/// `pattern`.
pub fn pattern_matches(pattern: &str, word_value: &str) -> (r: bool)
    ensures
        r == case_matches(pattern@, word_value@),
{
    let patterns = split(pattern, '|');
    let ghost pieces = split_text(pattern@, '|');
    let mut i: usize = 0;
    while i < patterns.len()
        invariant
            i <= patterns.len(),
            texts(patterns@) == pieces,
            pieces == split_text(pattern@, '|'),
            forall|k: int|
                0 <= k < i ==> glob_outcome(
                    #[trigger] pieces[k],
                    word_value@,
                    default_options(),
                ) != Ok::<bool, (usize, Seq<char>)>(true),
        decreases patterns.len() - i,
    {
        assert(patterns@[i as int]@ == texts(patterns@)[i as int]);
        if alternative_matches(glob_match(patterns[i].as_str(), word_value)) {
            assert(glob_outcome(pieces[i as int], word_value@, default_options()) == Ok::<
                bool,
                (usize, Seq<char>),
            >(true));
            return true;
        }
        i += 1;
    }
    assert(pieces.len() == patterns@.len());
    false
}

/// A quoted right side, and one without glob characters, is compared as it stands: a text
/// equals itself and nothing else.
pub proof fn law_quoted_text_is_literal(left: Seq<char>, right: Seq<char>, is_quoted: bool)
    requires
        is_quoted || !has_glob_char(right),
    ensures
        string_match_outcome(left, right, is_quoted) == Ok::<bool, (usize, Seq<char>)>(
            left == right,
        ),
{
}

/// A text is a glob pattern exactly where it holds a question mark, an asterisk or an opening bracket.
pub proof fn law_three_characters_make_a_pattern(s: Seq<char>)
    ensures
        has_glob_char(s) <==> s.contains('?') || s.contains('*') || s.contains('['),
{
    if has_glob_char(s) {
        let i = choose|i: int| 0 <= i < s.len() && is_glob_char(#[trigger] s[i]);
        assert(s.contains(s[i]));
    }
    if s.contains('?') {
        let i = choose|i: int| 0 <= i < s.len() && s[i] == '?';
        assert(is_glob_char(s[i]));
    }
    if s.contains('*') {
        let i = choose|i: int| 0 <= i < s.len() && s[i] == '*';
        assert(is_glob_char(s[i]));
    }
    if s.contains('[') {
        let i = choose|i: int| 0 <= i < s.len() && s[i] == '[';
        assert(is_glob_char(s[i]));
    }
}

/// An unquoted right side with a wildcard is matched as a pattern against the left side: case counts,
/// and wildcards match neither `/` nor a leading `.`. One that is malformed is an error.
pub proof fn law_unquoted_pattern_is_matched(left: Seq<char>, right: Seq<char>)
    requires
        right.contains('?') || right.contains('*') || right.contains('['),
    ensures
        string_match_outcome(left, right, false) == (match glob_syntax_error(right) {
            Some(e) => Err::<bool, (usize, Seq<char>)>(e),
            None => Ok(glob_matches(right, left, true, true, true)),
        }),
        string_match_outcome(left, right, true) == Ok::<bool, (usize, Seq<char>)>(left == right),
{
    law_three_characters_make_a_pattern(right);
}

/// A `case` pattern without `|` is one glob pattern, for which case counts, whose wildcards match
/// everything, and which matches nothing where it is malformed; with `|` it matches what one of its
/// sides matches.
pub proof fn law_alternatives_match_on_their_own(a: Seq<char>, b: Seq<char>, word: Seq<char>)
    ensures
        !a.contains('|') ==> (case_matches(a, word) <==> glob_syntax_error(a) is None
            && glob_matches(a, word, true, false, false)),
        case_matches(a + seq!['|'] + b, word) <==> case_matches(a, word) || case_matches(b, word),
{
    crate::text::law_split_at_each_separator(a, b, '|');
    let x = split_text(a, '|');
    let y = split_text(b, '|');
    let z = split_text(a + seq!['|'] + b, '|');
    if !a.contains('|') {
        assert(x[0] == a);
    }
    if case_matches(a, word) {
        let i = choose|i: int|
            0 <= i < x.len() && glob_outcome(#[trigger] x[i], word, default_options()) == Ok::<
                bool,
                (usize, Seq<char>),
            >(true);
        assert(z[i] == x[i]);
    }
    if case_matches(b, word) {
        let i = choose|i: int|
            0 <= i < y.len() && glob_outcome(#[trigger] y[i], word, default_options()) == Ok::<
                bool,
                (usize, Seq<char>),
            >(true);
        assert(z[x.len() + i] == y[i]);
    }
    if case_matches(a + seq!['|'] + b, word) {
        let i = choose|i: int|
            0 <= i < z.len() && glob_outcome(#[trigger] z[i], word, default_options()) == Ok::<
                bool,
                (usize, Seq<char>),
            >(true);
        if i < x.len() {
            assert(x[i] == z[i]);
        } else {
            assert(y[i - x.len()] == z[i]);
        }
    }
}

} // verus!
