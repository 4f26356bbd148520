//! Values that pass between the parts of the shell: changes of the environment, and results.

use crate::text::texts;
use vstd::prelude::*;

verus! {

/// Exit code of a command that was cancelled.
pub const CANCELLATION_EXIT_CODE: i32 = 130;

/// Options that the `set` command switches.
#[derive(Debug, Clone, Copy, PartialEq, Eq, Structural)]
pub enum ShellOptions {
    /// Leave a list of commands at the first one that fails.
    ExitOnError,
    /// Print each command before it runs.
    PrintTrace,
}

/// One change of the environment that a command asks for.
#[derive(Debug, Clone, PartialEq, Eq)]
pub enum EnvChange {
    /// Set a variable that is passed down to sub commands.
    SetEnvVar(String, String),
    /// Set a variable of the shell, or of the environment where it stands there already.
    SetShellVar(String, String),
    /// Let the words stand for a command name.
    AliasCommand(String, Vec<String>),
    /// Forget an alias.
    UnAliasCommand(String),
    /// Forget a variable.
    UnsetVar(String),
    /// Change the working directory.
    Cd(String),
    /// Switch an option on or off.
    SetShellOptions(ShellOptions, bool),
}

/// What an [`EnvChange`] says, with its texts as sequences of characters.
#[verifier::ext_equal]
pub enum EnvChangeView {
    SetEnvVar(Seq<char>, Seq<char>),
    SetShellVar(Seq<char>, Seq<char>),
    AliasCommand(Seq<char>, Seq<Seq<char>>),
    UnAliasCommand(Seq<char>),
    UnsetVar(Seq<char>),
    Cd(Seq<char>),
    SetShellOptions(ShellOptions, bool),
}

impl View for EnvChange {
    type V = EnvChangeView;

    open spec fn view(&self) -> EnvChangeView {
        match self {
            EnvChange::SetEnvVar(name, value) => EnvChangeView::SetEnvVar(name@, value@),
            EnvChange::SetShellVar(name, value) => EnvChangeView::SetShellVar(name@, value@),
            EnvChange::AliasCommand(name, words) => EnvChangeView::AliasCommand(
                name@,
                texts(words@),
            ),
            EnvChange::UnAliasCommand(name) => EnvChangeView::UnAliasCommand(name@),
            EnvChange::UnsetVar(name) => EnvChangeView::UnsetVar(name@),
            EnvChange::Cd(dir) => EnvChangeView::Cd(dir@),
            EnvChange::SetShellOptions(option, value) => EnvChangeView::SetShellOptions(
                *option,
                *value,
            ),
        }
    }
}

/// What a list of changes says.
pub open spec fn changes_view(changes: Seq<EnvChange>) -> Seq<EnvChangeView> {
    changes.map_values(|c: EnvChange| c@)
}

/// What came of a command: its exit code, the changes of the environment that it asks for, and
/// the handles `H` of the tasks that it left running. `Exit` also asks the shell to stop.
#[derive(Debug)]
pub enum ExecuteResult<H> {
    Exit(i32, Vec<EnvChange>, Vec<H>),
    Continue(i32, Vec<EnvChange>, Vec<H>),
}

/// What an [`ExecuteResult`] says.
#[verifier::ext_equal]
pub struct ResultView<H> {
    /// Whether the shell is to stop.
    pub exits: bool,
    pub code: i32,
    pub changes: Seq<EnvChangeView>,
    pub handles: Seq<H>,
}

impl<H> View for ExecuteResult<H> {
    type V = ResultView<H>;

    open spec fn view(&self) -> ResultView<H> {
        match self {
            ExecuteResult::Exit(code, changes, handles) => ResultView {
                exits: true,
                code: *code,
                changes: changes_view(changes@),
                handles: handles@,
            },
            ExecuteResult::Continue(code, changes, handles) => ResultView {
                exits: false,
                code: *code,
                changes: changes_view(changes@),
                handles: handles@,
            },
        }
    }
}

/// The result of a command that ends with `code`, and does nothing else.
pub open spec fn plain_result<H>(code: i32) -> ResultView<H> {
    ResultView { exits: false, code, changes: seq![], handles: seq![] }
}

impl<H> ExecuteResult<H> {
    /// A command that ends with `exit_code`, changes nothing and leaves nothing running.
    pub fn from_exit_code(exit_code: i32) -> (r: Self)
        ensures
            r@ == plain_result::<H>(exit_code),
    {
        ExecuteResult::Continue(exit_code, Vec::new(), Vec::new())
    }

    /// A command that was cancelled: it stops the shell.
    pub fn for_cancellation() -> (r: Self)
        ensures
            r@ == (ResultView { exits: true, ..plain_result::<H>(CANCELLATION_EXIT_CODE) }),
    {
        ExecuteResult::Exit(CANCELLATION_EXIT_CODE, Vec::new(), Vec::new())
    }

    /// The exit code, whether the shell is to stop or not.
    pub fn exit_code(&self) -> (r: i32)
        ensures
            r == self@.code,
    {
        match self {
            ExecuteResult::Exit(code, _, _) => *code,
            ExecuteResult::Continue(code, _, _) => *code,
        }
    }

    /// The exit code, and the handles of the tasks left running.
    pub fn into_exit_code_and_handles(self) -> (r: (i32, Vec<H>))
        ensures
            r.0 == self@.code,
            r.1@ == self@.handles,
    {
        match self {
            ExecuteResult::Exit(code, _, handles) => (code, handles),
            ExecuteResult::Continue(code, _, handles) => (code, handles),
        }
    }

    /// The handles of the tasks left running, and the changes.
    pub fn into_handles_and_changes(self) -> (r: (Vec<H>, Vec<EnvChange>))
        ensures
            r.0@ == self@.handles,
            changes_view(r.1@) == self@.changes,
    {
        match self {
            ExecuteResult::Exit(_, changes, handles) => (handles, changes),
            ExecuteResult::Continue(_, changes, handles) => (handles, changes),
        }
    }
}

/// Appends `more` to `changes`.
pub fn extend_changes(changes: &mut Vec<EnvChange>, more: Vec<EnvChange>)
    ensures
        changes_view(final(changes)@) == changes_view(old(changes)@) + changes_view(more@),
{
    let mut more = more;
    let ghost before = changes@;
    let ghost rest = more@;
    changes.append(&mut more);
    assert(changes@ == before + rest);
    assert(changes_view(before + rest) == changes_view(before) + changes_view(rest));
}

/// Appends one change to `changes`.
pub fn push_change(changes: &mut Vec<EnvChange>, change: EnvChange)
    ensures
        changes_view(final(changes)@) == changes_view(old(changes)@).push(change@),
{
    let ghost before = changes@;
    changes.push(change);
    assert(changes_view(before.push(change)) == changes_view(before).push(change@));
}

// ---------------------------------------------------------------------------
// Laws

/// A result that ends with a code and nothing else does not stop the shell, changes nothing and leaves
/// nothing running.
pub proof fn law_plain_result_does_nothing<H>(code: i32)
    ensures
        !plain_result::<H>(code).exits,
        plain_result::<H>(code).code == code,
        plain_result::<H>(code).changes.len() == 0,
        plain_result::<H>(code).handles.len() == 0,
{
}

/// Exactly `Exit` stops the shell, and both kinds of result say the code, the changes and the handles
/// that they hold.
pub proof fn law_exit_stops_the_shell<H>(result: ExecuteResult<H>)
    ensures
        result@.exits <==> result is Exit,
        match result {
            ExecuteResult::Exit(code, changes, handles) => result@.code == code && result@.changes
                == changes_view(changes@) && result@.handles == handles@,
            ExecuteResult::Continue(code, changes, handles) => result@.code == code
                && result@.changes == changes_view(changes@) && result@.handles == handles@,
        },
{
}

/// A change says the kind of change that it is, with its own name and value, and a list of changes says
/// each of them in its place.
pub proof fn law_changes_say_what_they_hold(changes: Seq<EnvChange>, i: int)
    requires
        0 <= i < changes.len(),
    ensures
        changes_view(changes).len() == changes.len(),
        match changes[i] {
            EnvChange::SetEnvVar(name, value) => changes_view(changes)[i]
                == EnvChangeView::SetEnvVar(name@, value@),
            EnvChange::SetShellVar(name, value) => changes_view(changes)[i]
                == EnvChangeView::SetShellVar(name@, value@),
            EnvChange::AliasCommand(name, words) => changes_view(changes)[i]
                == EnvChangeView::AliasCommand(name@, words@.map_values(|w: String| w@)),
            EnvChange::UnAliasCommand(name) => changes_view(changes)[i]
                == EnvChangeView::UnAliasCommand(name@),
            EnvChange::UnsetVar(name) => changes_view(changes)[i] == EnvChangeView::UnsetVar(name@),
            EnvChange::Cd(dir) => changes_view(changes)[i] == EnvChangeView::Cd(dir@),
            EnvChange::SetShellOptions(option, value) => changes_view(changes)[i]
                == EnvChangeView::SetShellOptions(option, value),
        },
{
    assert(changes_view(changes)[i] == changes[i]@);
    if let EnvChange::AliasCommand(name, words) = changes[i] {
        assert(texts(words@) =~= words@.map_values(|w: String| w@));
    }
}

} // verus!
