//! The `set` command, which switches options of the shell.

use crate::run::{Finished, FinishedView};
use crate::state::StateView;
use crate::text::{chars_of, same_text, string_of, texts};
use crate::types::{
    changes_view, push_change, EnvChange, EnvChangeView, ExecuteResult, ResultView, ShellOptions,
};
use vstd::prelude::*;

verus! {

// ---------------------------------------------------------------------------
// Kinds of arguments

/// What an argument of a command is.
#[derive(Debug, Clone, PartialEq, Eq)]
pub enum ArgKind {
    /// One of the letters behind `-`.
    ShortFlag(char),
    /// One of the letters behind `+`.
    PlusFlag(char),
    /// What stands behind `--`.
    LongFlag(String),
    /// Anything else.
    Arg(String),
}

/// What an [`ArgKind`] says.
#[verifier::ext_equal]
pub enum ArgKindView {
    ShortFlag(char),
    PlusFlag(char),
    LongFlag(Seq<char>),
    Arg(Seq<char>),
}

impl View for ArgKind {
    type V = ArgKindView;

    open spec fn view(&self) -> ArgKindView {
        match self {
            ArgKind::ShortFlag(c) => ArgKindView::ShortFlag(*c),
            ArgKind::PlusFlag(c) => ArgKindView::PlusFlag(*c),
            ArgKind::LongFlag(name) => ArgKindView::LongFlag(name@),
            ArgKind::Arg(text) => ArgKindView::Arg(text@),
        }
    }
}

/// What several kinds say.
pub open spec fn kinds_view(kinds: Seq<ArgKind>) -> Seq<ArgKindView> {
    kinds.map_values(|k: ArgKind| k@)
}

/// The kind of a letter behind `-`, or behind `+` where `plus` is set.
pub open spec fn flag_kind(flag: char, plus: bool) -> ArgKindView {
    if plus {
        ArgKindView::PlusFlag(flag)
    } else {
        ArgKindView::ShortFlag(flag)
    }
}

/// The kinds of letters behind `-`, or behind `+` where `plus` is set.
pub open spec fn flag_kinds(flags: Seq<char>, plus: bool) -> Seq<ArgKindView> {
    flags.map_values(|flag: char| flag_kind(flag, plus))
}

/// The kinds that one argument stands for; `ended` says whether a `--` came before it.
pub open spec fn kinds_of(arg: Seq<char>, ended: bool) -> Seq<ArgKindView> {
    if ended || arg == seq!['-'] {
        seq![ArgKindView::Arg(arg)]
    } else if arg == seq!['-', '-'] {
        seq![]
    } else if arg.len() >= 2 && arg[0] == '-' && arg[1] == '-' {
        seq![ArgKindView::LongFlag(arg.skip(2))]
    } else if arg.len() >= 1 && arg[0] == '-' {
        flag_kinds(arg.skip(1), false)
    } else if arg.len() >= 1 && arg[0] == '+' {
        flag_kinds(arg.skip(1), true)
    } else {
        seq![ArgKindView::Arg(arg)]
    }
}

/// The kinds that arguments stand for, in order; behind `--` each argument stands for itself.
pub open spec fn arg_kinds(args: Seq<Seq<char>>) -> Seq<ArgKindView>
    decreases args.len(),
{
    if args.len() == 0 {
        seq![]
    } else {
        let before = args.drop_last();
        arg_kinds(before) + kinds_of(args.last(), before.contains(seq!['-', '-']))
    }
}

fn push_kind(kinds: &mut Vec<ArgKind>, kind: ArgKind)
    ensures
        kinds_view(final(kinds)@) == kinds_view(old(kinds)@).push(kind@),
{
    let ghost before = kinds@;
    kinds.push(kind);
    assert(kinds_view(before.push(kind)) == kinds_view(before).push(kind@));
}

fn push_flags(kinds: &mut Vec<ArgKind>, chars: &Vec<char>, plus: bool)
    requires
        chars@.len() >= 1,
    ensures
        kinds_view(final(kinds)@) == kinds_view(old(kinds)@) + flag_kinds(chars@.skip(1), plus),
{
    let ghost start = kinds@;
    let ghost letters = chars@.skip(1);
    let ghost flags = flag_kinds(letters, plus);
    assert(letters.len() == chars@.len() - 1);
    assert(flags.len() == letters.len());
    let mut i: usize = 1;
    while i < chars.len()
        invariant
            1 <= i <= chars@.len(),
            letters == chars@.skip(1),
            flags == flag_kinds(letters, plus),
            flags.len() == chars@.len() - 1,
            kinds_view(kinds@) == kinds_view(start) + flags.take(i - 1),
        decreases chars.len() - i,
    {
        let kind = if plus {
            ArgKind::PlusFlag(chars[i])
        } else {
            ArgKind::ShortFlag(chars[i])
        };
        assert(letters[i - 1] == chars@[i as int]);
        assert(flags[i - 1] == kind@);
        push_kind(kinds, kind);
        assert(flags.take(i as int) == flags.take(i - 1).push(flags[i - 1]));
        i += 1;
    }
    assert(flags.take(i - 1) == flags);
}

fn push_kinds(kinds: &mut Vec<ArgKind>, arg: &String, ended: bool)
    ensures
        kinds_view(final(kinds)@) == kinds_view(old(kinds)@) + kinds_of(arg@, ended),
{
    let ghost start = kinds@;
    let chars = chars_of(arg.as_str());
    let n = chars.len();
    proof {
        if n == 1 && arg@[0] == '-' {
            assert(arg@ == seq!['-']);
        }
        if n == 2 && arg@[0] == '-' && arg@[1] == '-' {
            assert(arg@ == seq!['-', '-']);
        }
    }
    if ended || (n == 1 && chars[0] == '-') {
        push_kind(kinds, ArgKind::Arg(arg.clone()));
        assert(kinds_view(kinds@) == kinds_view(start) + seq![ArgKindView::Arg(arg@)]);
    } else if n == 2 && chars[0] == '-' && chars[1] == '-' {
        assert(kinds_view(kinds@) == kinds_view(start) + Seq::<ArgKindView>::empty());
    } else if n >= 2 && chars[0] == '-' && chars[1] == '-' {
        push_kind(kinds, ArgKind::LongFlag(string_of(&chars, 2, n)));
        assert(chars@.subrange(2, n as int) == arg@.skip(2));
        assert(kinds_view(kinds@) == kinds_view(start) + seq![
            ArgKindView::LongFlag(arg@.skip(2)),
        ]);
    } else if n >= 1 && chars[0] == '-' {
        push_flags(kinds, &chars, false);
    } else if n >= 1 && chars[0] == '+' {
        push_flags(kinds, &chars, true);
    } else {
        push_kind(kinds, ArgKind::Arg(arg.clone()));
        assert(kinds_view(kinds@) == kinds_view(start) + seq![ArgKindView::Arg(arg@)]);
    }
}

/// The kinds that arguments stand for, in order.
pub fn parse_arg_kinds(args: &Vec<String>) -> (r: Vec<ArgKind>)
    ensures
        kinds_view(r@) == arg_kinds(texts(args@)),
{
    let mut kinds: Vec<ArgKind> = Vec::new();
    let mut ended = false;
    let mut i: usize = 0;
    let ghost all = texts(args@);
    assert(all.take(0).len() == 0);
    assert(kinds_view(kinds@) == Seq::<ArgKindView>::empty());
    while i < args.len()
        invariant
            i <= args@.len(),
            all == texts(args@),
            ended == all.take(i as int).contains(seq!['-', '-']),
            kinds_view(kinds@) == arg_kinds(all.take(i as int)),
        decreases args.len() - i,
    {
        let ghost before = all.take(i as int);
        let ghost now = all.take(i + 1);
        assert(now.drop_last() == before);
        assert(now.last() == args@[i as int]@);
        assert(now == before.push(args@[i as int]@));
        push_kinds(&mut kinds, &args[i], ended);
        proof {
            reveal_strlit("--");
            assert("--"@ == seq!['-', '-']);
            if before.contains(seq!['-', '-']) {
                let k = choose|k: int| 0 <= k < before.len() && before[k] == seq!['-', '-'];
                assert(now[k] == seq!['-', '-']);
            } else if now.contains(seq!['-', '-']) {
                let k = choose|k: int| 0 <= k < now.len() && now[k] == seq!['-', '-'];
                if k < i {
                    assert(before[k] == seq!['-', '-']);
                }
                assert(k == i);
            }
            if args@[i as int]@ == seq!['-', '-'] {
                assert(now[i as int] == seq!['-', '-']);
            }
        }
        if same_text(args[i].as_str(), "--") {
            ended = true;
        }
        i += 1;
    }
    assert(all.take(i as int) == all);
    kinds
}

// ---------------------------------------------------------------------------
// Texts for errors

/// The text that `{:?}` gives for a character.
pub uninterp spec fn char_debug(c: char) -> Seq<char>;

/// The text that `{:?}` gives for a string.
pub uninterp spec fn str_debug(s: Seq<char>) -> Seq<char>;

/// Calls the `Debug` formatting that std has for `char`: the text is a function of the character,
/// and is not spelled out here, since it depends on which characters are printed as escapes.
#[verifier::external_body]
fn debug_char(c: char) -> (r: String)
    ensures
        r@ == char_debug(c),
{
    format!("{:?}", c)
}

/// Calls the `Debug` formatting that std has for `str`: the text is a function of the string, and
/// is not spelled out here, since it depends on which characters are printed as escapes.
#[verifier::external_body]
fn debug_str(s: &str) -> (r: String)
    ensures
        r@ == str_debug(s@),
{
    format!("{:?}", s)
}

/// The text of a kind called `name`, of a value that is shown as `shown`.
pub open spec fn variant_shown(name: Seq<char>, shown: Seq<char>) -> Seq<char> {
    name + "("@ + shown + ")"@
}

/// The text of a kind called `name`, of a value that is shown as `shown`.
pub fn variant_text(name: &str, shown: &str) -> (r: String)
    ensures
        r@ == variant_shown(name@, shown@),
{
    let mut text: String = name.to_owned();
    text.append("(");
    text.append(shown);
    text.append(")");
    text
}

/// The text of a kind.
pub open spec fn kind_shown(kind: ArgKindView) -> Seq<char> {
    match kind {
        ArgKindView::ShortFlag(c) => variant_shown("ShortFlag"@, char_debug(c)),
        ArgKindView::PlusFlag(c) => variant_shown("PlusFlag"@, char_debug(c)),
        ArgKindView::LongFlag(name) => variant_shown("LongFlag"@, str_debug(name)),
        ArgKindView::Arg(text) => variant_shown("Arg"@, str_debug(text)),
    }
}

impl ArgKind {
    /// The text of the kind.
    pub fn text(&self) -> (r: String)
        ensures
            r@ == kind_shown(self@),
    {
        match self {
            ArgKind::ShortFlag(c) => {
                let shown = debug_char(*c);
                variant_text("ShortFlag", shown.as_str())
            },
            ArgKind::PlusFlag(c) => {
                let shown = debug_char(*c);
                variant_text("PlusFlag", shown.as_str())
            },
            ArgKind::LongFlag(name) => {
                let shown = debug_str(name.as_str());
                variant_text("LongFlag", shown.as_str())
            },
            ArgKind::Arg(text) => {
                let shown = debug_str(text.as_str());
                variant_text("Arg", shown.as_str())
            },
        }
    }
}

// ---------------------------------------------------------------------------
// The command

/// What an argument of `set` switches.
pub open spec fn set_change(kind: ArgKindView) -> Option<EnvChangeView> {
    match kind {
        ArgKindView::ShortFlag(c) => if c == 'e' {
            Some(EnvChangeView::SetShellOptions(ShellOptions::ExitOnError, true))
        } else if c == 'x' {
            Some(EnvChangeView::SetShellOptions(ShellOptions::PrintTrace, true))
        } else {
            None
        },
        ArgKindView::PlusFlag(c) => if c == 'e' {
            Some(EnvChangeView::SetShellOptions(ShellOptions::ExitOnError, false))
        } else if c == 'x' {
            Some(EnvChangeView::SetShellOptions(ShellOptions::PrintTrace, false))
        } else {
            None
        },
        _ => None,
    }
}

/// The text of the error for an argument that `set` does not know.
pub open spec fn unsupported_text(kind: Seq<char>) -> Seq<char> {
    "Unsupported argument: "@ + kind
}

/// What `set` comes to: a change for each argument, in order, or the error for the first argument
/// that it does not know.
pub open spec fn set_outcome(kinds: Seq<ArgKindView>) -> Result<Seq<EnvChangeView>, Seq<char>>
    decreases kinds.len(),
{
    if kinds.len() == 0 {
        Ok(seq![])
    } else {
        match set_outcome(kinds.drop_last()) {
            Err(e) => Err(e),
            Ok(changes) => match set_change(kinds.last()) {
                Some(change) => Ok(changes.push(change)),
                None => Err(unsupported_text(kind_shown(kinds.last()))),
            },
        }
    }
}

proof fn lemma_error_stays(kinds: Seq<ArgKindView>, n: int)
    requires
        0 <= n <= kinds.len(),
        set_outcome(kinds.take(n)) is Err,
    ensures
        set_outcome(kinds) == set_outcome(kinds.take(n)),
    decreases kinds.len(),
{
    if n < kinds.len() {
        assert(kinds.drop_last().take(n) == kinds.take(n));
        lemma_error_stays(kinds.drop_last(), n);
    } else {
        assert(kinds.take(n) == kinds);
    }
}

/// The exit code and the changes of `set` with these arguments, or the text of the error for the
/// first one that it does not know.
pub fn execute_set(args: Vec<String>) -> (r: Result<(i32, Vec<EnvChange>), String>)
    ensures
        match r {
            Ok(done) => done.0 == 0 && set_outcome(arg_kinds(texts(args@))) == Ok::<
                Seq<EnvChangeView>,
                Seq<char>,
            >(changes_view(done.1@)),
            Err(e) => set_outcome(arg_kinds(texts(args@))) == Err::<Seq<EnvChangeView>, Seq<char>>(
                e@,
            ),
        },
{
    let kinds = parse_arg_kinds(&args);
    let mut changes: Vec<EnvChange> = Vec::new();
    let mut i: usize = 0;
    let ghost all = kinds_view(kinds@);
    assert(all.take(0).len() == 0);
    assert(changes_view(changes@) == Seq::<EnvChangeView>::empty());
    while i < kinds.len()
        invariant
            i <= kinds@.len(),
            all == kinds_view(kinds@),
            all == arg_kinds(texts(args@)),
            set_outcome(all.take(i as int)) == Ok::<Seq<EnvChangeView>, Seq<char>>(
                changes_view(changes@),
            ),
        decreases kinds.len() - i,
    {
        proof {
            assert(all.take(i + 1).drop_last() == all.take(i as int));
            assert(all.take(i + 1).last() == kinds@[i as int]@);
        }
        let change = match &kinds[i] {
            ArgKind::ShortFlag('e') => EnvChange::SetShellOptions(ShellOptions::ExitOnError, true),
            ArgKind::PlusFlag('e') => EnvChange::SetShellOptions(ShellOptions::ExitOnError, false),
            ArgKind::ShortFlag('x') => EnvChange::SetShellOptions(ShellOptions::PrintTrace, true),
            ArgKind::PlusFlag('x') => EnvChange::SetShellOptions(ShellOptions::PrintTrace, false),
            other => {
                let kind = other.text();
                let mut text = "Unsupported argument: ".to_owned();
                text.append(kind.as_str());
                proof {
                    assert(set_outcome(all.take(i + 1)) is Err);
                    lemma_error_stays(all, i + 1);
                }
                return Err(text);
            },
        };
        push_change(&mut changes, change);
        i += 1;
    }
    assert(all.take(i as int) == all);
    Ok((0, changes))
}

/// What comes of `set` with this outcome.
pub open spec fn set_finished<H>(
    outcome: Result<Seq<EnvChangeView>, Seq<char>>,
) -> FinishedView<H> {
    match outcome {
        Ok(changes) => FinishedView {
            result: ResultView { exits: false, code: 0, changes, handles: seq![] },
            error_line: None,
        },
        Err(e) => FinishedView {
            result: ResultView { exits: true, code: 2, changes: seq![], handles: seq![] },
            error_line: Some("set: "@ + e),
        },
    }
}

/// The `set` command.
#[derive(Debug, Clone, Copy)]
pub struct SetCommand;

impl SetCommand {
    /// What comes of the command with these arguments: one that it does not know stops the shell.
    pub fn execute<H>(&self, args: Vec<String>) -> (r: Finished<H>)
        ensures
            r@ == set_finished::<H>(set_outcome(arg_kinds(texts(args@)))),
    {
        match execute_set(args) {
            Ok((code, changes)) => Finished::with(
                ExecuteResult::Continue(code, changes, Vec::new()),
            ),
            Err(err) => {
                let mut line = "set: ".to_owned();
                line.append(err.as_str());
                let r = Finished {
                    result: ExecuteResult::Exit(2, Vec::new(), Vec::new()),
                    error_line: Some(line),
                };
                assert(r@.result.changes == Seq::<EnvChangeView>::empty());
                r
            },
        }
    }
}

// ---------------------------------------------------------------------------
// Laws

/// `set` succeeds exactly where it knows every argument, and then makes one change for each.
pub proof fn law_set_knows_its_flags(kinds: Seq<ArgKindView>)
    ensures
        (set_outcome(kinds) is Ok) == (forall|i: int|
            0 <= i < kinds.len() ==> set_change(#[trigger] kinds[i]) is Some),
        set_outcome(kinds) matches Ok(changes) ==> changes.len() == kinds.len() && forall|i: int|
            0 <= i < kinds.len() ==> set_change(kinds[i]) == Some(#[trigger] changes[i]),
    decreases kinds.len(),
{
    if kinds.len() > 0 {
        let less = kinds.drop_last();
        law_set_knows_its_flags(less);
        if set_outcome(kinds) is Ok {
            let changes = set_outcome(kinds)->Ok_0;
            let before = set_outcome(less)->Ok_0;
            assert(changes == before.push(set_change(kinds.last())->0));
            assert forall|i: int| 0 <= i < kinds.len() implies set_change(kinds[i]) == Some(
                #[trigger] changes[i],
            ) by {
                if i < less.len() {
                    assert(less[i] == kinds[i]);
                    assert(changes[i] == before[i]);
                }
            }
            assert forall|i: int| 0 <= i < kinds.len() implies set_change(
                #[trigger] kinds[i],
            ) is Some by {
                assert(set_change(kinds[i]) == Some(changes[i]));
            }
        } else if forall|i: int| 0 <= i < kinds.len() ==> set_change(#[trigger] kinds[i]) is Some {
            assert forall|i: int| 0 <= i < less.len() implies set_change(
                #[trigger] less[i],
            ) is Some by {
                assert(less[i] == kinds[i]);
            }
            assert(set_change(kinds[kinds.len() - 1]) is Some);
        }
    }
}

/// The last switch of an option among changes.
pub open spec fn last_switch(changes: Seq<EnvChangeView>, option: ShellOptions) -> Option<bool>
    decreases changes.len(),
{
    if changes.len() == 0 {
        None
    } else {
        match changes.last() {
            EnvChangeView::SetShellOptions(o, value) => if o == option {
                Some(value)
            } else {
                last_switch(changes.drop_last(), option)
            },
            _ => last_switch(changes.drop_last(), option),
        }
    }
}

/// Of several switches of one option the last one counts, an option that is not named stays as it
/// is, and `set` changes nothing but options.
pub proof fn law_last_switch_counts(kinds: Seq<ArgKindView>, s: StateView)
    requires
        set_outcome(kinds) is Ok,
    ensures
        ({
            let changes = set_outcome(kinds)->Ok_0;
            s.with_changes(changes) == (StateView {
                exit_on_error: match last_switch(changes, ShellOptions::ExitOnError) {
                    Some(value) => value,
                    None => s.exit_on_error,
                },
                print_trace: match last_switch(changes, ShellOptions::PrintTrace) {
                    Some(value) => value,
                    None => s.print_trace,
                },
                ..s
            })
        }),
    decreases kinds.len(),
{
    if kinds.len() > 0 {
        let less = kinds.drop_last();
        law_last_switch_counts(less, s);
        let before = set_outcome(less)->Ok_0;
        let changes = set_outcome(kinds)->Ok_0;
        assert(changes.drop_last() == before);
        assert(changes.last() == set_change(kinds.last())->0);
    }
}

/// Each letter behind one `-` is a flag, and each letter behind `+` is one the other way round, in
/// order; what stands behind `--` is a long flag. A single `-`, and what begins with neither sign, is
/// an argument.
pub proof fn law_signs_make_flags(before: Seq<Seq<char>>, letters: Seq<char>, i: int)
    requires
        !before.contains(seq!['-', '-']),
        letters.len() > 0,
        letters[0] != '-',
        0 <= i < letters.len(),
    ensures
        ({
            let n = arg_kinds(before).len() as int;
            let minus = arg_kinds(before.push(seq!['-'] + letters));
            let plus = arg_kinds(before.push(seq!['+'] + letters));
            let long = arg_kinds(before.push(seq!['-', '-'] + letters));
            let bare = arg_kinds(before.push(letters));
            &&& minus.len() == n + letters.len()
            &&& minus.take(n) == arg_kinds(before)
            &&& minus[n + i] == ArgKindView::ShortFlag(letters[i])
            &&& plus.len() == n + letters.len()
            &&& plus.take(n) == arg_kinds(before)
            &&& plus[n + i] == ArgKindView::PlusFlag(letters[i])
            &&& long == arg_kinds(before).push(ArgKindView::LongFlag(letters))
            &&& letters[0] != '+' ==> bare == arg_kinds(before).push(ArgKindView::Arg(letters))
        }),
        arg_kinds(before.push(seq!['-'])) == arg_kinds(before).push(ArgKindView::Arg(seq!['-'])),
        arg_kinds(before.push(seq![])) == arg_kinds(before).push(ArgKindView::Arg(seq![])),
        arg_kinds(before.push(seq!['+'])) == arg_kinds(before),
        arg_kinds(before.push(seq!['-', '-'])) == arg_kinds(before),
{
    let n = arg_kinds(before).len() as int;
    let none = Seq::<ArgKindView>::empty();
    assert(arg_kinds(before) + none == arg_kinds(before));
    let minus = seq!['-'] + letters;
    assert(minus[0] == '-' && minus[1] == letters[0]);
    assert(minus.skip(1) == letters);
    assert(minus != seq!['-', '-']) by {
        assert(seq!['-', '-'][1] == '-');
    }
    assert(minus != seq!['-']) by {
        assert(minus.len() > 1);
    }
    assert(before.push(minus).drop_last() == before);
    assert(arg_kinds(before.push(minus)) == arg_kinds(before) + flag_kinds(letters, false));
    assert(arg_kinds(before.push(minus)).take(n) == arg_kinds(before));
    let plus = seq!['+'] + letters;
    assert(plus[0] == '+');
    assert(plus.skip(1) == letters);
    assert(plus != seq!['-', '-']) by {
        assert(seq!['-', '-'][0] == '-');
    }
    assert(plus != seq!['-']) by {
        assert(plus.len() > 1);
    }
    assert(before.push(plus).drop_last() == before);
    assert(arg_kinds(before.push(plus)) == arg_kinds(before) + flag_kinds(letters, true));
    assert(arg_kinds(before.push(plus)).take(n) == arg_kinds(before));
    let long = seq!['-', '-'] + letters;
    assert(long[0] == '-' && long[1] == '-');
    assert(long.skip(2) == letters);
    assert(long.len() > 2);
    assert(before.push(long).drop_last() == before);
    assert(arg_kinds(before.push(long)) == arg_kinds(before) + seq![
        ArgKindView::LongFlag(letters),
    ]);
    assert(before.push(letters).drop_last() == before);
    if letters[0] != '+' {
        assert(letters != seq!['-', '-']) by {
            assert(seq!['-', '-'][0] == '-');
        }
        assert(letters != seq!['-']) by {
            assert(seq!['-'][0] == '-');
        }
        assert(arg_kinds(before.push(letters)) == arg_kinds(before) + seq![
            ArgKindView::Arg(letters),
        ]);
    }
    assert(before.push(seq!['-']).drop_last() == before);
    assert(before.push(seq!['-', '-']).drop_last() == before);
    assert(before.push(seq!['+']).drop_last() == before);
    assert(before.push(seq![]).drop_last() == before);
    assert(seq!['-', '-'].len() == 2 && seq!['-'].len() == 1);
    assert(seq!['-', '-'] != seq!['-']);
    assert(seq!['+'][0] == '+' && seq!['-'][0] == '-');
    assert(seq!['+'] != seq!['-']);
    assert(flag_kinds(seq!['+'].skip(1), true) == none);
    assert(arg_kinds(before.push(seq!['+'])) == arg_kinds(before) + none);
    assert(arg_kinds(before.push(seq!['-', '-'])) == arg_kinds(before) + none);
    let empty = Seq::<char>::empty();
    assert(empty != seq!['-'] && empty != seq!['-', '-']) by {
        assert(empty.len() == 0);
    }
    assert(arg_kinds(before.push(empty)) == arg_kinds(before) + seq![ArgKindView::Arg(empty)]);
}

/// Behind `--` each argument stands for itself, whatever it begins with; no arguments stand for nothing.
pub proof fn law_arguments_behind_the_end(before: Seq<Seq<char>>, arg: Seq<char>)
    requires
        before.contains(seq!['-', '-']),
    ensures
        arg_kinds(before.push(arg)) == arg_kinds(before).push(ArgKindView::Arg(arg)),
        arg_kinds(seq![]).len() == 0,
{
    assert(before.push(arg).drop_last() == before);
    assert(arg_kinds(before.push(arg)) == arg_kinds(before) + seq![ArgKindView::Arg(arg)]);
}

/// `-e` makes the shell leave on errors and `+e` makes it stay, `-x` makes it trace commands and `+x`
/// makes it stop that, each behind the changes before it. Anything else is an error that shows it,
/// and the first error stands.
pub proof fn law_set_switches_two_options(
    before: Seq<ArgKindView>,
    kind: ArgKindView,
)
    ensures
        set_outcome(seq![]) == Ok::<Seq<EnvChangeView>, Seq<char>>(seq![]),
        set_outcome(before) matches Err(e) ==> set_outcome(before.push(kind)) == Err::<
            Seq<EnvChangeView>,
            Seq<char>,
        >(e),
        set_outcome(before) matches Ok(changes) ==> {
            let switch = match kind {
                ArgKindView::ShortFlag('e') => Some((ShellOptions::ExitOnError, true)),
                ArgKindView::PlusFlag('e') => Some((ShellOptions::ExitOnError, false)),
                ArgKindView::ShortFlag('x') => Some((ShellOptions::PrintTrace, true)),
                ArgKindView::PlusFlag('x') => Some((ShellOptions::PrintTrace, false)),
                _ => None,
            };
            set_outcome(before.push(kind)) == (match switch {
                Some((option, on)) => Ok::<Seq<EnvChangeView>, Seq<char>>(
                    changes.push(EnvChangeView::SetShellOptions(option, on)),
                ),
                None => Err("Unsupported argument: "@ + kind_shown(kind)),
            })
        },
{
    assert(before.push(kind).drop_last() == before);
    assert(before.push(kind).last() == kind);
}

/// An argument is shown with the name of its kind before what it holds in brackets.
pub proof fn law_kinds_are_shown_by_name(c: char, text: Seq<char>)
    ensures
        kind_shown(ArgKindView::ShortFlag(c)) == "ShortFlag("@ + char_debug(c) + ")"@,
        kind_shown(ArgKindView::PlusFlag(c)) == "PlusFlag("@ + char_debug(c) + ")"@,
        kind_shown(ArgKindView::LongFlag(text)) == "LongFlag("@ + str_debug(text) + ")"@,
        kind_shown(ArgKindView::Arg(text)) == "Arg("@ + str_debug(text) + ")"@,
{
    reveal_strlit("ShortFlag");
    reveal_strlit("ShortFlag(");
    reveal_strlit("PlusFlag");
    reveal_strlit("PlusFlag(");
    reveal_strlit("LongFlag");
    reveal_strlit("LongFlag(");
    reveal_strlit("Arg");
    reveal_strlit("Arg(");
    reveal_strlit("(");
    assert("ShortFlag"@ + "("@ == "ShortFlag("@);
    assert("PlusFlag"@ + "("@ == "PlusFlag("@);
    assert("LongFlag"@ + "("@ == "LongFlag("@);
    assert("Arg"@ + "("@ == "Arg("@);
}

/// `set` that knows its arguments ends with exit code zero and its changes, and goes on; one that does
/// not stops the shell with exit code two, changes nothing, and writes the error behind its name.
pub proof fn law_set_ends<H>(changes: Seq<EnvChangeView>, error: Seq<char>)
    ensures
        ({
            let done = set_finished::<H>(Ok(changes));
            &&& done.result.code == 0 && !done.result.exits
            &&& done.result.changes == changes && done.result.handles.len() == 0
            &&& done.error_line is None
        }),
        ({
            let done = set_finished::<H>(Err(error));
            &&& done.result.code == 2 && done.result.exits
            &&& done.result.changes.len() == 0 && done.result.handles.len() == 0
            &&& done.error_line == Some("set: "@ + error)
        }),
{
}

/// An argument says the kind that it is, with its own letter or text.
pub proof fn law_kinds_say_what_they_hold(kinds: Seq<ArgKind>, i: int)
    requires
        0 <= i < kinds.len(),
    ensures
        kinds_view(kinds).len() == kinds.len(),
        match kinds[i] {
            ArgKind::ShortFlag(c) => kinds_view(kinds)[i] == ArgKindView::ShortFlag(c),
            ArgKind::PlusFlag(c) => kinds_view(kinds)[i] == ArgKindView::PlusFlag(c),
            ArgKind::LongFlag(name) => kinds_view(kinds)[i] == ArgKindView::LongFlag(name@),
            ArgKind::Arg(text) => kinds_view(kinds)[i] == ArgKindView::Arg(text@),
        },
{
}

} // verus!
