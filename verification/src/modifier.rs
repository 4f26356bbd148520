//! Variables with a modifier, such as `${name:-word}` and `${name:begin:length}`.

use crate::state::{ShellState, StateView};
use crate::syntax::{VariableModifier, Word};
use crate::text::{chars_of, decimal, law_decimal_reads_back, parse_number, read_number, string_of};
use crate::types::{changes_view, extend_changes, push_change, EnvChange, EnvChangeView};
use crate::words::{
    modified_outcome, pieces_of, report_view, single_outcome, EvaluateWordTextError, Modified, ModifiedView,
    Report, ReportView, Text, TextPartView, WordErrorView, WordResult, WordView,
};
use vstd::prelude::*;

verus! {

/// What the expansion of a variable does with the word that it asked for.
#[verifier::ext_equal]
pub enum PendingView {
    /// Takes it in place of the variable.
    DefaultValue,
    /// Takes it in place of the variable of this name, and assigns it.
    AssignDefault(Seq<char>),
    /// Takes it for the start of the part of these characters.
    Begin { chars: Seq<char>, length: Option<Word> },
    /// Takes it for the length of the part of these characters from `start`.
    Length { chars: Seq<char>, start: usize, changes: Seq<EnvChangeView> },
    /// Takes it in place of the variable.
    AlternateValue,
}

/// What the expansion of a variable does next.
#[verifier::ext_equal]
pub enum ModifierStepView {
    Evaluate(Word, PendingView),
    Done(Result<ModifiedView, ReportView>),
}

/// The expansion to one text that is not quoted, and stays whole.
pub open spec fn expands_to(text: Seq<char>, changes: Option<Seq<EnvChangeView>>) -> ModifierStepView {
    ModifierStepView::Done(Ok(ModifiedView { text: seq![TextPartView::Text(text)], changes }))
}

/// The expansion to a text that is split into words.
pub open spec fn splits_to(text: Seq<char>, changes: Option<Seq<EnvChangeView>>) -> ModifierStepView {
    ModifierStepView::Done(Ok(ModifiedView { text: pieces_of(text), changes }))
}

/// How the expansion of the variable `name` with a modifier starts.
pub open spec fn modifier_start(modifier: VariableModifier, name: Seq<char>, s: StateView) -> ModifierStepView {
    match modifier {
        VariableModifier::DefaultValue(word) => match s.var(name) {
            Some(value) => expands_to(value, None),
            None => ModifierStepView::Evaluate(word, PendingView::DefaultValue),
        },
        VariableModifier::AssignDefault(word) => match s.var(name) {
            Some(value) => splits_to(value, None),
            None => ModifierStepView::Evaluate(word, PendingView::AssignDefault(name)),
        },
        VariableModifier::Substring { begin, length } => match s.var(name) {
            Some(value) => ModifierStepView::Evaluate(
                begin,
                PendingView::Begin { chars: value, length },
            ),
            None => ModifierStepView::Done(Err(ReportView::UndefinedVariable(name))),
        },
        VariableModifier::AlternateValue(word) => match s.var(name) {
            Some(value) => if value.len() == 0 {
                splits_to(seq![], None)
            } else {
                ModifierStepView::Evaluate(word, PendingView::AlternateValue)
            },
            None => splits_to(seq![], None),
        },
    }
}

/// `n` as a number of characters.
pub open spec fn as_count(n: int) -> Option<usize> {
    if 0 <= n <= i64::MAX && n <= usize::MAX {
        Some(n as usize)
    } else {
        None
    }
}

/// The larger of `n` and zero.
pub open spec fn at_least_zero(n: int) -> usize {
    if n < 0 {
        0
    } else {
        n as usize
    }
}

/// Where a part that begins at `begin` starts in a text of `len` characters: a negative number
/// counts from the end.
pub open spec fn part_start(begin: i64, len: usize) -> Result<usize, ReportView> {
    if begin < 0 {
        match as_count(-begin) {
            Some(back) => Ok(at_least_zero(len - back)),
            None => Err(ReportView::IndexOutOfRange(begin)),
        }
    } else {
        match as_count(begin as int) {
            Some(start) => Ok(start),
            None => Err(ReportView::IndexOutOfRange(begin)),
        }
    }
}

/// Where a part of `length` characters from `start` ends in a text of `len` characters: a
/// negative number counts from the end of the text.
pub open spec fn part_end(start: usize, length: i64, len: usize) -> Result<usize, ReportView> {
    if length < 0 {
        match as_count(-length) {
            Some(back) => Ok(at_least_zero(len - back)),
            None => Err(ReportView::IndexOutOfRange(length)),
        }
    } else {
        match as_count(length as int) {
            Some(count) => Ok(
                if start + count < len {
                    (start + count) as usize
                } else {
                    len
                },
            ),
            None => Err(ReportView::IndexOutOfRange(length)),
        }
    }
}

/// The part of `chars` from `start` to `end`.
pub open spec fn part_outcome(
    chars: Seq<char>,
    start: usize,
    end: usize,
    changes: Seq<EnvChangeView>,
) -> ModifierStepView {
    if start > end {
        ModifierStepView::Done(Err(ReportView::InvalidSubstringRange(start, end)))
    } else {
        expands_to(chars.subrange(start as int, end as int), Some(changes))
    }
}

impl PendingView {
    /// How the expansion goes on with the word, and the state that it leads to.
    pub open spec fn after_word(self, outcome: Result<WordView, WordErrorView>, s: StateView) -> (
        StateView,
        ModifierStepView,
    ) {
        match outcome {
            Err(e) => (s, ModifierStepView::Done(Err(ReportView::Word(Box::new(e))))),
            Ok(word) => match self {
                PendingView::DefaultValue => (s, splits_to(word.value, Some(word.changes))),
                PendingView::AlternateValue => (s, splits_to(word.value, Some(word.changes))),
                PendingView::AssignDefault(name) => (
                    s.with_env_var(name, word.value),
                    splits_to(
                        word.value,
                        Some(word.changes.push(EnvChangeView::SetShellVar(name, word.value))),
                    ),
                ),
                PendingView::Begin { chars, length } => (
                    s,
                    match parse_number(word.value) {
                        None => ModifierStepView::Done(Err(ReportView::InvalidIndex(word.value))),
                        Some(begin) => match part_start(begin, chars.len() as usize) {
                            Err(report) => ModifierStepView::Done(Err(report)),
                            Ok(start) => match length {
                                Some(length) => ModifierStepView::Evaluate(
                                    length,
                                    PendingView::Length { chars, start, changes: word.changes },
                                ),
                                None => part_outcome(
                                    chars,
                                    start,
                                    chars.len() as usize,
                                    word.changes,
                                ),
                            },
                        },
                    },
                ),
                PendingView::Length { chars, start, changes } => (
                    s,
                    match parse_number(word.value) {
                        None => ModifierStepView::Done(Err(ReportView::InvalidIndex(word.value))),
                        Some(length) => match part_end(start, length, chars.len() as usize) {
                            Err(report) => ModifierStepView::Done(Err(report)),
                            Ok(end) => part_outcome(chars, start, end, changes + word.changes),
                        },
                    },
                ),
            },
        }
    }
}

/// The expansion of a variable, at a point where it needs the value of a word.
#[derive(Debug)]
pub enum PendingModifier {
    DefaultValue,
    AssignDefault(String),
    Begin { chars: Vec<char>, length: Option<Word> },
    Length { chars: Vec<char>, start: usize, changes: Vec<EnvChange> },
    AlternateValue,
}

impl View for PendingModifier {
    type V = PendingView;

    open spec fn view(&self) -> PendingView {
        match self {
            PendingModifier::DefaultValue => PendingView::DefaultValue,
            PendingModifier::AssignDefault(name) => PendingView::AssignDefault(name@),
            PendingModifier::Begin { chars, length } => PendingView::Begin {
                chars: chars@,
                length: *length,
            },
            PendingModifier::Length { chars, start, changes } => PendingView::Length {
                chars: chars@,
                start: *start,
                changes: changes_view(changes@),
            },
            PendingModifier::AlternateValue => PendingView::AlternateValue,
        }
    }
}

/// What the expansion of a variable needs next, or what it came to.
#[derive(Debug)]
pub enum ModifierStep {
    /// The value of a word.
    Evaluate(Word, PendingModifier),
    Done(Result<Modified, Report>),
}

impl View for ModifierStep {
    type V = ModifierStepView;

    open spec fn view(&self) -> ModifierStepView {
        match self {
            ModifierStep::Evaluate(word, pending) => ModifierStepView::Evaluate(*word, pending@),
            ModifierStep::Done(r) => ModifierStepView::Done(modified_outcome(*r)),
        }
    }
}

fn expand_to(text: String, changes: Option<Vec<EnvChange>>) -> (r: ModifierStep)
    ensures
        r@ == expands_to(
            text@,
            match changes {
                Some(changes) => Some(changes_view(changes@)),
                None => None,
            },
        ),
{
    ModifierStep::Done(Ok(Modified { text: Text::whole(text), changes }))
}

fn split_to(text: String, changes: Option<Vec<EnvChange>>) -> (r: ModifierStep)
    ensures
        r@ == splits_to(
            text@,
            match changes {
                Some(changes) => Some(changes_view(changes@)),
                None => None,
            },
        ),
{
    ModifierStep::Done(Ok(Modified { text: Text::from_string(text), changes }))
}

/// Whether a number of characters fits, and which it is.
fn count_of(n: i64) -> (r: Option<usize>)
    requires
        n >= 0,
    ensures
        r == as_count(n as int),
{
    if n as u64 <= usize::MAX as u64 {
        Some(n as usize)
    } else {
        None
    }
}

/// The number of characters that a negative number counts back.
fn count_back(n: i64) -> (r: Option<usize>)
    requires
        n < 0,
    ensures
        r == as_count(-n),
{
    if n == i64::MIN {
        None
    } else {
        count_of(-n)
    }
}

fn find_start(begin: i64, len: usize) -> (r: Result<usize, Report>)
    ensures
        match r {
            Ok(start) => part_start(begin, len) == Ok::<usize, ReportView>(start),
            Err(report) => part_start(begin, len) == Err::<usize, ReportView>(report_view(report)),
        },
{
    let count = if begin < 0 {
        count_back(begin)
    } else {
        count_of(begin)
    };
    match count {
        None => Err(Report::IndexOutOfRange(begin)),
        Some(count) => if begin >= 0 {
            Ok(count)
        } else if count <= len {
            Ok(len - count)
        } else {
            Ok(0)
        },
    }
}

fn find_end(start: usize, length: i64, len: usize) -> (r: Result<usize, Report>)
    ensures
        match r {
            Ok(end) => part_end(start, length, len) == Ok::<usize, ReportView>(end),
            Err(report) => part_end(start, length, len) == Err::<usize, ReportView>(
                report_view(report),
            ),
        },
{
    let count = if length < 0 {
        count_back(length)
    } else {
        count_of(length)
    };
    match count {
        None => Err(Report::IndexOutOfRange(length)),
        Some(count) => if length >= 0 {
            if start < len && count < len - start {
                Ok(start + count)
            } else {
                Ok(len)
            }
        } else if count <= len {
            Ok(len - count)
        } else {
            Ok(0)
        },
    }
}

fn take_part(chars: &Vec<char>, start: usize, end: usize, changes: Vec<EnvChange>) -> (r:
    ModifierStep)
    requires
        end <= chars.len(),
    ensures
        r@ == part_outcome(chars@, start, end, changes_view(changes@)),
{
    if start > end {
        ModifierStep::Done(Err(Report::InvalidSubstringRange(start, end)))
    } else {
        expand_to(string_of(chars, start, end), Some(changes))
    }
}

impl VariableModifier {
    /// Starts the expansion of the variable `name`.
    pub fn apply(&self, name: &str, state: &ShellState) -> (r: ModifierStep)
        ensures
            r@ == modifier_start(*self, name@, state@),
    {
        match self {
            VariableModifier::DefaultValue(default_value) => match state.get_var(name) {
                Some(value) => expand_to(value.clone(), None),
                None => ModifierStep::Evaluate(
                    default_value.share(),
                    PendingModifier::DefaultValue,
                ),
            },
            VariableModifier::AssignDefault(default_value) => match state.get_var(name) {
                Some(value) => split_to(value.clone(), None),
                None => ModifierStep::Evaluate(
                    default_value.share(),
                    PendingModifier::AssignDefault(name.to_owned()),
                ),
            },
            VariableModifier::Substring { begin, length } => match state.get_var(name) {
                Some(value) => {
                    let length = match length {
                        Some(word) => Some(word.share()),
                        None => None,
                    };
                    ModifierStep::Evaluate(
                        begin.share(),
                        PendingModifier::Begin { chars: chars_of(value.as_str()), length },
                    )
                },
                None => ModifierStep::Done(Err(Report::UndefinedVariable(name.to_owned()))),
            },
            VariableModifier::AlternateValue(alternate) => {
                let set = match state.get_var(name) {
                    Some(value) => !value.as_str().is_empty(),
                    None => false,
                };
                if set {
                    ModifierStep::Evaluate(alternate.share(), PendingModifier::AlternateValue)
                } else {
                    split_to(String::new(), None)
                }
            },
        }
    }
}

impl PendingModifier {
    /// Goes on with the value of the word.
    pub fn on_word(
        self,
        outcome: Result<WordResult, EvaluateWordTextError>,
        state: &mut ShellState,
    ) -> (r: ModifierStep)
        ensures
            (final(state)@, r@) == self@.after_word(single_outcome(outcome), old(state)@),
    {
        let word = match outcome {
            Err(err) => return ModifierStep::Done(Err(Report::Word(Box::new(err)))),
            Ok(word) => word,
        };
        match self {
            PendingModifier::DefaultValue => split_to(word.value, Some(word.changes)),
            PendingModifier::AlternateValue => split_to(word.value, Some(word.changes)),
            PendingModifier::AssignDefault(name) => {
                state.apply_env_var(name.as_str(), word.value.as_str());
                let mut changes = word.changes;
                push_change(&mut changes, EnvChange::SetShellVar(name, word.value.clone()));
                split_to(word.value, Some(changes))
            },
            PendingModifier::Begin { chars, length } => {
                let begin = match read_number(word.value.as_str()) {
                    None => return ModifierStep::Done(Err(Report::InvalidIndex(word.value))),
                    Some(begin) => begin,
                };
                let start = match find_start(begin, chars.len()) {
                    Err(report) => return ModifierStep::Done(Err(report)),
                    Ok(start) => start,
                };
                match length {
                    Some(length) => ModifierStep::Evaluate(
                        length,
                        PendingModifier::Length { chars, start, changes: word.changes },
                    ),
                    None => take_part(&chars, start, chars.len(), word.changes),
                }
            },
            PendingModifier::Length { chars, start, changes } => {
                let length = match read_number(word.value.as_str()) {
                    None => return ModifierStep::Done(Err(Report::InvalidIndex(word.value))),
                    Some(length) => length,
                };
                match find_end(start, length, chars.len()) {
                    Err(report) => ModifierStep::Done(Err(report)),
                    Ok(end) => {
                        let mut changes = changes;
                        extend_changes(&mut changes, word.changes);
                        take_part(&chars, start, end, changes)
                    },
                }
            },
        }
    }
}

// ---------------------------------------------------------------------------
// Laws

/// A variable that is set needs no default: neither form evaluates its word. The first form takes
/// its value whole, and the second splits it.
pub proof fn law_set_variable_needs_no_default(word: Word, name: Seq<char>, s: StateView)
    requires
        s.var(name) is Some,
    ensures
        modifier_start(VariableModifier::DefaultValue(word), name, s) == expands_to(
            s.var(name)->0,
            None,
        ),
        modifier_start(VariableModifier::AssignDefault(word), name, s) == splits_to(
            s.var(name)->0,
            None,
        ),
{
}

/// A variable that was assigned its default reads back what the expansion was made of, and the
/// next expansion gives the same text.
pub proof fn law_assigned_default_reads_back(word: Word, name: Seq<char>, value: WordView, s: StateView)
    requires
        s.var(name) is None,
    ensures
        ({
            let after = PendingView::AssignDefault(name).after_word(Ok(value), s).0;
            &&& modifier_start(VariableModifier::AssignDefault(word), name, s)
                == ModifierStepView::Evaluate(word, PendingView::AssignDefault(name))
            &&& after.var(name) == Some(value.value)
            &&& modifier_start(VariableModifier::AssignDefault(word), name, after) == splits_to(
                value.value,
                None,
            )
        }),
{
}

/// `${name:-word}` takes the word exactly where `${name:+word}` does not, but for a variable
/// that is set to nothing, where neither does.
pub proof fn law_default_and_alternate(word: Word, name: Seq<char>, s: StateView)
    ensures
        modifier_start(VariableModifier::DefaultValue(word), name, s) is Evaluate <==> s.var(
            name,
        ) is None,
        modifier_start(VariableModifier::AlternateValue(word), name, s) is Evaluate <==> (s.var(
            name,
        ) matches Some(value) && value.len() > 0),
{
}

/// Cutting a text at a place within it, with `${name:0:at}` and `${name:at}`, gives two parts
/// that make the text together.
pub proof fn law_parts_make_the_text(
    chars: Seq<char>,
    at: i64,
    changes: Seq<EnvChangeView>,
    s: StateView,
)
    requires
        0 <= at <= chars.len() <= usize::MAX,
    ensures
        ({
            let word = WordView { value: decimal(at as int), changes };
            let first = chars.subrange(0, at as int);
            let second = chars.subrange(at as int, chars.len() as int);
            &&& PendingView::Length { chars, start: 0, changes: seq![] }.after_word(Ok(word), s)
                == (s, expands_to(first, Some(changes)))
            &&& PendingView::Begin { chars, length: None }.after_word(Ok(word), s) == (
                s,
                expands_to(second, Some(changes)),
            )
            &&& first + second == chars
        }),
{
    law_decimal_reads_back(at);
    assert(Seq::<EnvChangeView>::empty() + changes == changes);
    assert(chars.subrange(0, at as int) + chars.subrange(at as int, chars.len() as int) == chars);
}

/// Counting `n` characters back from the end starts where counting the others from the start
/// does.
pub proof fn law_negative_start_counts_back(n: i64, len: usize)
    requires
        0 < n <= len,
        len <= i64::MAX,
    ensures
        part_start((-n) as i64, len) == part_start((len - n) as i64, len),
{
}

/// A variable that is set stands for its value with `:-`, as one text that is not quoted, and with
/// `:=`, split at spaces; one that is not set stands for the word. With `:+` it is the other way
/// round, and a variable without characters counts as not set. A part of a variable that is not set
/// is an error.
pub proof fn law_modifiers_ask_whether_a_variable_is_set(
    word: Word,
    begin: Word,
    length: Option<Word>,
    name: Seq<char>,
    s: StateView,
)
    ensures
        modifier_start(VariableModifier::DefaultValue(word), name, s) == (match s.var(name) {
            Some(value) => ModifierStepView::Done(
                Ok(ModifiedView { text: seq![TextPartView::Text(value)], changes: None }),
            ),
            None => ModifierStepView::Evaluate(word, PendingView::DefaultValue),
        }),
        modifier_start(VariableModifier::AssignDefault(word), name, s) == (match s.var(name) {
            Some(value) => ModifierStepView::Done(
                Ok(ModifiedView { text: pieces_of(value), changes: None }),
            ),
            None => ModifierStepView::Evaluate(word, PendingView::AssignDefault(name)),
        }),
        s.var(name) is Some && s.var(name)->0.len() > 0 ==> modifier_start(
            VariableModifier::AlternateValue(word),
            name,
            s,
        ) == ModifierStepView::Evaluate(word, PendingView::AlternateValue),
        s.var(name) is None || s.var(name)->0.len() == 0 ==> modifier_start(
            VariableModifier::AlternateValue(word),
            name,
            s,
        ) == ModifierStepView::Done(Ok(ModifiedView { text: seq![], changes: None })),
        modifier_start(VariableModifier::Substring { begin, length }, name, s) == (match s.var(
            name,
        ) {
            Some(value) => ModifierStepView::Evaluate(
                begin,
                PendingView::Begin { chars: value, length },
            ),
            None => ModifierStepView::Done(Err(ReportView::UndefinedVariable(name))),
        }),
{
    crate::words::law_each_space_separates(seq![], seq![]);
    assert(pieces_of(seq![]) == Seq::<TextPartView>::empty());
}

/// The word of a modifier is split at spaces, and its changes are kept. With `:=` the variable is set to
/// it as well, in the state and by a change behind those of the word. A word that fails is an error,
/// and leaves the state as it is.
pub proof fn law_modifier_takes_its_word(
    name: Seq<char>,
    word: WordView,
    pending: PendingView,
    error: WordErrorView,
    s: StateView,
)
    ensures
        PendingView::DefaultValue.after_word(Ok(word), s) == (
            s,
            ModifierStepView::Done(
                Ok(ModifiedView { text: pieces_of(word.value), changes: Some(word.changes) }),
            ),
        ),
        PendingView::AlternateValue.after_word(Ok(word), s) == (
            s,
            ModifierStepView::Done(
                Ok(ModifiedView { text: pieces_of(word.value), changes: Some(word.changes) }),
            ),
        ),
        PendingView::AssignDefault(name).after_word(Ok(word), s) == (
            s.with_env_var(name, word.value),
            ModifierStepView::Done(
                Ok(
                    ModifiedView {
                        text: pieces_of(word.value),
                        changes: Some(
                            word.changes.push(EnvChangeView::SetShellVar(name, word.value)),
                        ),
                    },
                ),
            ),
        ),
        pending.after_word(Err(error), s) == (
            s,
            ModifierStepView::Done(Err(ReportView::Word(Box::new(error)))),
        ),
{
}

/// `${name:begin}` is the text from the start to its end. The start is counted from the front, or from
/// the end where it is negative, but not beyond the front; a start behind the end is an error.
/// `${name:begin:length}` goes on from the start with the length.
pub proof fn law_part_from_its_start(
    chars: Seq<char>,
    length: Word,
    word: WordView,
    s: StateView,
)
    requires
        chars.len() <= usize::MAX,
        parse_number(word.value) is Some,
        -usize::MAX <= parse_number(word.value)->0 <= usize::MAX,
        parse_number(word.value)->0 != i64::MIN,
    ensures
        ({
            let begin = parse_number(word.value)->0 as int;
            let len = chars.len() as int;
            let start = if begin >= 0 {
                begin
            } else if len + begin >= 0 {
                len + begin
            } else {
                0
            };
            let (end, step) = PendingView::Begin { chars, length: None }.after_word(Ok(word), s);
            &&& end == s
            &&& start <= len ==> step == ModifierStepView::Done(
                Ok(
                    ModifiedView {
                        text: seq![TextPartView::Text(chars.skip(start))],
                        changes: Some(word.changes),
                    },
                ),
            )
            &&& start > len ==> step == ModifierStepView::Done(
                Err(ReportView::InvalidSubstringRange(start as usize, len as usize)),
            )
            &&& PendingView::Begin { chars, length: Some(length) }.after_word(Ok(word), s) == (
                s,
                ModifierStepView::Evaluate(
                    length,
                    PendingView::Length { chars, start: start as usize, changes: word.changes },
                ),
            )
        }),
{
    let begin = parse_number(word.value)->0 as int;
    let len = chars.len() as int;
    let start = if begin >= 0 {
        begin
    } else if len + begin >= 0 {
        len + begin
    } else {
        0
    };
    if start <= len {
        assert(chars.subrange(start, len) == chars.skip(start));
    }
}

/// The part of a text ends after its length, but not behind the end of the text; a negative length is
/// counted from the end of the text, but not beyond its front. An end before the start is an error.
/// The changes of both words are kept, in order.
pub proof fn law_part_to_its_end(
    chars: Seq<char>,
    start: usize,
    changes: Seq<EnvChangeView>,
    word: WordView,
    s: StateView,
)
    requires
        chars.len() <= usize::MAX,
        parse_number(word.value) is Some,
        -usize::MAX <= parse_number(word.value)->0 <= usize::MAX,
        parse_number(word.value)->0 != i64::MIN,
    ensures
        ({
            let length = parse_number(word.value)->0 as int;
            let len = chars.len() as int;
            let stop = if length >= 0 && start + length < len {
                start + length
            } else if length >= 0 {
                len
            } else if len + length >= 0 {
                len + length
            } else {
                0
            };
            let (end, step) = PendingView::Length { chars, start, changes }.after_word(Ok(word), s);
            &&& end == s
            &&& start <= stop ==> step == ModifierStepView::Done(
                Ok(
                    ModifiedView {
                        text: seq![TextPartView::Text(chars.take(stop).skip(start as int))],
                        changes: Some(changes + word.changes),
                    },
                ),
            )
            &&& start > stop ==> step == ModifierStepView::Done(
                Err(ReportView::InvalidSubstringRange(start, stop as usize)),
            )
        }),
{
    let length = parse_number(word.value)->0 as int;
    let len = chars.len() as int;
    let stop = if length >= 0 && start + length < len {
        start + length
    } else if length >= 0 {
        len
    } else if len + length >= 0 {
        len + length
    } else {
        0
    };
    if start <= stop {
        assert(chars.subrange(start as int, stop) == chars.take(stop).skip(start as int));
    }
}

/// A start or a length that is no number is an error that names it, and so is one that no text can
/// reach; the state stays as it is.
pub proof fn law_part_needs_numbers(
    chars: Seq<char>,
    length: Option<Word>,
    start: usize,
    changes: Seq<EnvChangeView>,
    word: WordView,
    s: StateView,
)
    ensures
        parse_number(word.value) is None ==> {
            let failed = (s, ModifierStepView::Done(Err(ReportView::InvalidIndex(word.value))));
            &&& PendingView::Begin { chars, length }.after_word(Ok(word), s) == failed
            &&& PendingView::Length { chars, start, changes }.after_word(Ok(word), s) == failed
        },
        parse_number(word.value) matches Some(n) ==> n == i64::MIN || n > usize::MAX || -n
            > usize::MAX ==> {
            let failed = (s, ModifierStepView::Done(Err(ReportView::IndexOutOfRange(n))));
            &&& PendingView::Begin { chars, length }.after_word(Ok(word), s) == failed
            &&& PendingView::Length { chars, start, changes }.after_word(Ok(word), s) == failed
        },
{
}

} // verus!
