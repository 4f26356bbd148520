//! The state of the shell: its variables, aliases, options and working directory.

use crate::text::{
    decimal, law_decimal_reads_back, parse_number, read_number, same_text, texts,
};
use crate::types::{changes_view, EnvChange, EnvChangeView, ShellOptions};
use vstd::prelude::*;

verus! {

/// The map that a list of entries stands for: of two entries with one name the later one counts.
pub open spec fn table_map<T>(entries: Seq<(String, T)>) -> Map<Seq<char>, T>
    decreases entries.len(),
{
    if entries.len() == 0 {
        Map::empty()
    } else {
        table_map(entries.drop_last()).insert(entries.last().0@, entries.last().1)
    }
}

proof fn lemma_table_map_drops_one<T>(entries: Seq<(String, T)>, i: int)
    requires
        0 <= i < entries.len(),
    ensures
        table_map(entries.remove(i)).remove(entries[i].0@) == table_map(entries).remove(
            entries[i].0@,
        ),
    decreases entries.len(),
{
    let name = entries[i].0@;
    let last = entries.last();
    let less = entries.drop_last();
    if i == entries.len() - 1 {
        assert(entries.remove(i) == less);
        assert(table_map(less).insert(name, last.1).remove(name) =~= table_map(less).remove(name));
    } else {
        lemma_table_map_drops_one(less, i);
        assert(entries.remove(i).drop_last() == less.remove(i));
        assert(entries.remove(i).last() == last);
        let a = table_map(less.remove(i));
        let b = table_map(less);
        let left = a.insert(last.0@, last.1).remove(name);
        let right = b.insert(last.0@, last.1).remove(name);
        assert forall|k: Seq<char>| #[trigger] left.dom().contains(k) == right.dom().contains(k) by {
            assert(a.remove(name).dom().contains(k) == b.remove(name).dom().contains(k));
        }
        assert forall|k: Seq<char>| #[trigger] left.dom().contains(k) implies left[k] == right[k] by {
            assert(a.remove(name).dom().contains(k) == b.remove(name).dom().contains(k));
            assert(a.remove(name)[k] == b.remove(name)[k]);
        }
        assert(left =~= right);
    }
}

proof fn lemma_table_map_holds_names<T>(entries: Seq<(String, T)>, name: Seq<char>)
    requires
        forall|i: int| 0 <= i < entries.len() ==> (#[trigger] entries[i]).0@ != name,
    ensures
        !table_map(entries).dom().contains(name),
    decreases entries.len(),
{
    if entries.len() > 0 {
        lemma_table_map_holds_names(entries.drop_last(), name);
    }
}

proof fn lemma_table_map_finds<T>(entries: Seq<(String, T)>, i: int)
    requires
        0 <= i < entries.len(),
        forall|j: int| i < j < entries.len() ==> (#[trigger] entries[j]).0@ != entries[i].0@,
    ensures
        table_map(entries).dom().contains(entries[i].0@),
        table_map(entries)[entries[i].0@] == entries[i].1,
    decreases entries.len(),
{
    if i < entries.len() - 1 {
        lemma_table_map_finds(entries.drop_last(), i);
        assert(entries.last() == entries[entries.len() - 1]);
    }
}

/// A table from names to values.
#[derive(Debug, Clone)]
pub struct Table<T> {
    entries: Vec<(String, T)>,
}

impl<T> View for Table<T> {
    type V = Map<Seq<char>, T>;

    closed spec fn view(&self) -> Map<Seq<char>, T> {
        table_map(self.entries@)
    }
}

impl<T> Table<T> {
    /// The empty table.
    pub fn new() -> (r: Self)
        ensures
            r@ == Map::<Seq<char>, T>::empty(),
    {
        Table { entries: Vec::new() }
    }

    /// The table of the given entries.
    pub fn from_entries(entries: Vec<(String, T)>) -> (r: Self)
        ensures
            r@ == table_map(entries@),
    {
        Table { entries }
    }

    /// The entries, of which later ones come before earlier ones with the same name.
    pub fn entries(&self) -> (r: &Vec<(String, T)>)
        ensures
            self@ == table_map(r@),
    {
        &self.entries
    }

    /// The value under `name`.
    pub fn get(&self, name: &str) -> (r: Option<&T>)
        ensures
            match r {
                Some(value) => self@.dom().contains(name@) && self@[name@] == *value,
                None => !self@.dom().contains(name@),
            },
    {
        let mut i: usize = self.entries.len();
        while i > 0
            invariant
                i <= self.entries.len(),
                forall|j: int|
                    i <= j < self.entries@.len() ==> (#[trigger] self.entries@[j]).0@ != name@,
            decreases i,
        {
            i -= 1;
            if same_text(self.entries[i].0.as_str(), name) {
                proof {
                    lemma_table_map_finds(self.entries@, i as int);
                }
                return Some(&self.entries[i].1);
            }
        }
        proof {
            lemma_table_map_holds_names(self.entries@, name@);
        }
        None
    }

    /// Removes the value under `name`, where there is one.
    pub fn remove(&mut self, name: &str)
        ensures
            final(self)@ == old(self)@.remove(name@),
    {
        let mut i: usize = 0;
        while i < self.entries.len()
            invariant
                i <= self.entries@.len(),
                table_map(self.entries@).remove(name@) == old(self)@.remove(name@),
                forall|j: int| 0 <= j < i ==> (#[trigger] self.entries@[j]).0@ != name@,
            decreases self.entries@.len() - i,
        {
            if same_text(self.entries[i].0.as_str(), name) {
                let ghost before = self.entries@;
                proof {
                    lemma_table_map_drops_one(before, i as int);
                }
                let _ = self.entries.remove(i);
                assert(self.entries@ == before.remove(i as int));
            } else {
                i += 1;
            }
        }
        proof {
            lemma_table_map_holds_names(self.entries@, name@);
            assert(table_map(self.entries@).remove(name@) =~= table_map(self.entries@));
        }
    }

    /// Sets the value under `name`.
    pub fn insert(&mut self, name: String, value: T)
        ensures
            final(self)@ == old(self)@.insert(name@, value),
    {
        self.remove(name.as_str());
        let ghost before = self.entries@;
        self.entries.push((name, value));
        proof {
            assert(self.entries@.drop_last() == before);
            assert(old(self)@.remove(name@).insert(name@, value) =~= old(self)@.insert(
                name@,
                value,
            ));
        }
    }
}

// ---------------------------------------------------------------------------
// The model of the state

/// What the state of the shell says.
#[verifier::ext_equal]
pub struct StateView {
    /// The variables that are passed down to sub commands.
    pub env: Map<Seq<char>, Seq<char>>,
    /// The variables of the shell alone.
    pub shell: Map<Seq<char>, Seq<char>>,
    /// The words that stand for a command name.
    pub aliases: Map<Seq<char>, Seq<Seq<char>>>,
    /// The working directory.
    pub cwd: Seq<char>,
    pub exit_on_error: bool,
    pub print_trace: bool,
}

/// The value under `name` in a map.
pub open spec fn find<T>(map: Map<Seq<char>, T>, name: Seq<char>) -> Option<T> {
    if map.dom().contains(name) {
        Some(map[name])
    } else {
        None
    }
}

impl StateView {
    /// The value of the variable `name`: that of the environment comes first.
    pub open spec fn var(self, name: Seq<char>) -> Option<Seq<char>> {
        if self.env.dom().contains(name) {
            Some(self.env[name])
        } else {
            find(self.shell, name)
        }
    }

    /// The exit code of the command that ran last, which lists keep in the shell variable `?`;
    /// zero where none is kept.
    pub open spec fn last_exit_code(self) -> i32 {
        match find(self.shell, "?"@) {
            Some(text) => match parse_number(text) {
                Some(n) => if i32::MIN <= n <= i32::MAX {
                    n as i32
                } else {
                    0
                },
                None => 0,
            },
            None => 0,
        }
    }

    /// The state with the environment variable `name` set: it is no variable of the shell alone.
    pub open spec fn with_env_var(self, name: Seq<char>, value: Seq<char>) -> StateView {
        StateView {
            env: self.env.insert(name, value),
            shell: self.shell.remove(name),
            ..self
        }
    }

    /// The state with the shell variable `name` set.
    pub open spec fn with_shell_var(self, name: Seq<char>, value: Seq<char>) -> StateView {
        StateView { shell: self.shell.insert(name, value), ..self }
    }

    /// The state after one change.
    pub open spec fn with_change(self, change: EnvChangeView) -> StateView {
        match change {
            EnvChangeView::SetEnvVar(name, value) => self.with_env_var(name, value),
            EnvChangeView::SetShellVar(name, value) => if self.env.dom().contains(name) {
                self.with_env_var(name, value)
            } else {
                self.with_shell_var(name, value)
            },
            EnvChangeView::AliasCommand(name, words) => StateView {
                aliases: self.aliases.insert(name, words),
                ..self
            },
            EnvChangeView::UnAliasCommand(name) => StateView {
                aliases: self.aliases.remove(name),
                ..self
            },
            EnvChangeView::UnsetVar(name) => StateView {
                env: self.env.remove(name),
                shell: self.shell.remove(name),
                ..self
            },
            EnvChangeView::Cd(dir) => StateView { cwd: dir, ..self },
            EnvChangeView::SetShellOptions(option, value) => match option {
                ShellOptions::ExitOnError => StateView { exit_on_error: value, ..self },
                ShellOptions::PrintTrace => StateView { print_trace: value, ..self },
            },
        }
    }

    /// The state after each of `changes` in turn.
    pub open spec fn with_changes(self, changes: Seq<EnvChangeView>) -> StateView
        decreases changes.len(),
    {
        if changes.len() == 0 {
            self
        } else {
            self.with_changes(changes.drop_last()).with_change(changes.last())
        }
    }
}

// ---------------------------------------------------------------------------
// The state

/// The state of the shell.
#[derive(Debug, Clone)]
pub struct ShellState {
    env_vars: Table<String>,
    shell_vars: Table<String>,
    aliases: Table<Vec<String>>,
    cwd: String,
    exit_on_error: bool,
    print_trace: bool,
}

/// A table of texts as a map of texts.
pub open spec fn text_map(map: Map<Seq<char>, String>) -> Map<Seq<char>, Seq<char>> {
    map.map_values(|s: String| s@)
}

/// A table of lists of texts as a map of lists of texts.
pub open spec fn words_map(map: Map<Seq<char>, Vec<String>>) -> Map<Seq<char>, Seq<Seq<char>>> {
    map.map_values(|words: Vec<String>| texts(words@))
}

impl View for ShellState {
    type V = StateView;

    closed spec fn view(&self) -> StateView {
        StateView {
            env: text_map(self.env_vars@),
            shell: text_map(self.shell_vars@),
            aliases: words_map(self.aliases@),
            cwd: self.cwd@,
            exit_on_error: self.exit_on_error,
            print_trace: self.print_trace,
        }
    }
}

proof fn lemma_text_map(map: Map<Seq<char>, String>, name: Seq<char>, value: String)
    ensures
        text_map(map.insert(name, value)) == text_map(map).insert(name, value@),
        text_map(map.remove(name)) == text_map(map).remove(name),
{
    assert(text_map(map.insert(name, value)) =~= text_map(map).insert(name, value@));
    assert(text_map(map.remove(name)) =~= text_map(map).remove(name));
}

proof fn lemma_words_map(map: Map<Seq<char>, Vec<String>>, name: Seq<char>, words: Vec<String>)
    ensures
        words_map(map.insert(name, words)) == words_map(map).insert(name, texts(words@)),
{
    assert(words_map(map.insert(name, words)) =~= words_map(map).insert(name, texts(words@)));
}

impl ShellState {
    /// A shell with the given environment and working directory, and no alias.
    pub fn new(
        env_vars: Vec<(String, String)>,
        cwd: String,
        exit_on_error: bool,
        print_trace: bool,
    ) -> (r: Self)
        ensures
            r@ == (StateView {
                env: text_map(table_map(env_vars@)),
                shell: Map::empty(),
                aliases: Map::empty(),
                cwd: cwd@,
                exit_on_error,
                print_trace,
            }),
    {
        let r = ShellState {
            env_vars: Table::from_entries(env_vars),
            shell_vars: Table::new(),
            aliases: Table::new(),
            cwd,
            exit_on_error,
            print_trace,
        };
        assert(text_map(r.shell_vars@) =~= Map::<Seq<char>, Seq<char>>::empty());
        assert(words_map(r.aliases@) =~= Map::<Seq<char>, Seq<Seq<char>>>::empty());
        r
    }

    /// The variables of the environment, of which later ones come before earlier ones with the
    /// same name.
    pub fn env_vars(&self) -> (r: &Vec<(String, String)>)
        ensures
            self@.env == text_map(table_map(r@)),
    {
        self.env_vars.entries()
    }

    /// The value of the variable `name`.
    pub fn get_var(&self, name: &str) -> (r: Option<&String>)
        ensures
            match r {
                Some(value) => self@.var(name@) == Some(value@),
                None => self@.var(name@) is None,
            },
    {
        match self.env_vars.get(name) {
            Some(value) => Some(value),
            None => self.shell_vars.get(name),
        }
    }

    /// The words that `name` is an alias for.
    pub fn alias(&self, name: &str) -> (r: Option<&Vec<String>>)
        ensures
            match r {
                Some(words) => find(self@.aliases, name@) == Some(texts(words@)),
                None => find(self@.aliases, name@) is None,
            },
    {
        self.aliases.get(name)
    }

    /// The working directory.
    pub fn cwd(&self) -> (r: &str)
        ensures
            r@ == self@.cwd,
    {
        self.cwd.as_str()
    }

    /// Whether a list of commands ends at the first one that fails.
    pub fn exit_on_error(&self) -> (r: bool)
        ensures
            r == self@.exit_on_error,
    {
        self.exit_on_error
    }

    /// Whether each command is printed before it runs.
    pub fn print_trace(&self) -> (r: bool)
        ensures
            r == self@.print_trace,
    {
        self.print_trace
    }

    /// The exit code of the command that ran last, which `$?` gives.
    pub fn last_command_exit_code(&self) -> (r: i32)
        ensures
            r == self@.last_exit_code(),
    {
        match self.shell_vars.get("?") {
            Some(text) => match read_number(text.as_str()) {
                Some(n) => if i32::MIN as i64 <= n && n <= i32::MAX as i64 {
                    n as i32
                } else {
                    0
                },
                None => 0,
            },
            None => 0,
        }
    }

    /// Sets an environment variable.
    pub fn apply_env_var(&mut self, name: &str, value: &str)
        ensures
            final(self)@ == old(self)@.with_env_var(name@, value@),
    {
        let value: String = value.to_owned();
        proof {
            lemma_text_map(self.env_vars@, name@, value);
            lemma_text_map(self.shell_vars@, name@, value);
        }
        self.shell_vars.remove(name);
        self.env_vars.insert(name.to_owned(), value);
    }

    /// Sets a shell variable.
    pub fn set_shell_var(&mut self, name: &str, value: &str)
        ensures
            final(self)@ == old(self)@.with_shell_var(name@, value@),
    {
        let value: String = value.to_owned();
        proof {
            lemma_text_map(self.shell_vars@, name@, value);
        }
        self.shell_vars.insert(name.to_owned(), value);
    }

    /// Makes one change.
    pub fn apply_change(&mut self, change: &EnvChange)
        ensures
            final(self)@ == old(self)@.with_change(change@),
    {
        match change {
            EnvChange::SetEnvVar(name, value) => {
                self.apply_env_var(name.as_str(), value.as_str());
            },
            EnvChange::SetShellVar(name, value) => {
                if self.env_vars.get(name.as_str()).is_some() {
                    self.apply_env_var(name.as_str(), value.as_str());
                } else {
                    self.set_shell_var(name.as_str(), value.as_str());
                }
            },
            EnvChange::AliasCommand(name, words) => {
                let words = words.clone();
                proof {
                    lemma_words_map(self.aliases@, name@, words);
                }
                self.aliases.insert(name.clone(), words);
            },
            EnvChange::UnAliasCommand(name) => {
                proof {
                    assert(words_map(self.aliases@.remove(name@)) =~= words_map(self.aliases@).remove(
                        name@,
                    ));
                }
                self.aliases.remove(name.as_str());
            },
            EnvChange::UnsetVar(name) => {
                proof {
                    lemma_text_map(self.env_vars@, name@, *name);
                    lemma_text_map(self.shell_vars@, name@, *name);
                }
                self.shell_vars.remove(name.as_str());
                self.env_vars.remove(name.as_str());
            },
            EnvChange::Cd(dir) => {
                self.cwd = dir.clone();
            },
            EnvChange::SetShellOptions(option, value) => match option {
                ShellOptions::ExitOnError => {
                    self.exit_on_error = *value;
                },
                ShellOptions::PrintTrace => {
                    self.print_trace = *value;
                },
            },
        }
    }

    /// Makes each of `changes` in turn.
    pub fn apply_changes(&mut self, changes: &Vec<EnvChange>)
        ensures
            final(self)@ == old(self)@.with_changes(changes_view(changes@)),
    {
        let mut i: usize = 0;
        let ghost all = changes_view(changes@);
        while i < changes.len()
            invariant
                i <= changes.len(),
                all == changes_view(changes@),
                self@ == old(self)@.with_changes(all.take(i as int)),
            decreases changes.len() - i,
        {
            self.apply_change(&changes[i]);
            assert(all.take(i + 1).drop_last() == all.take(i as int));
            i += 1;
        }
        assert(all.take(i as int) == all);
    }
}

// ---------------------------------------------------------------------------
// Laws

/// Making two lists of changes one after the other is making the one list of both.
pub proof fn law_changes_compose(s: StateView, first: Seq<EnvChangeView>, second: Seq<EnvChangeView>)
    ensures
        s.with_changes(first + second) == s.with_changes(first).with_changes(second),
    decreases second.len(),
{
    if second.len() == 0 {
        assert(first + second == first);
    } else {
        law_changes_compose(s, first, second.drop_last());
        assert((first + second).drop_last() == first + second.drop_last());
        assert((first + second).last() == second.last());
    }
}

/// A variable that was set reads back the value that it was set to, and no other variable
/// reads otherwise than before.
pub proof fn law_set_variable_reads_back(s: StateView, name: Seq<char>, value: Seq<char>, other: Seq<char>)
    ensures
        s.with_env_var(name, value).var(name) == Some(value),
        s.with_change(EnvChangeView::SetEnvVar(name, value)).var(name) == Some(value),
        s.with_change(EnvChangeView::SetShellVar(name, value)).var(name) == Some(value),
        s.with_change(EnvChangeView::UnsetVar(name)).var(name) is None,
        other != name ==> s.with_env_var(name, value).var(other) == s.var(other),
        other != name ==> s.with_change(EnvChangeView::SetEnvVar(name, value)).var(other) == s.var(
            other,
        ),
        other != name ==> s.with_change(EnvChangeView::SetShellVar(name, value)).var(other)
            == s.var(other),
        other != name ==> s.with_change(EnvChangeView::UnsetVar(name)).var(other) == s.var(other),
{
}

/// A change of variables never moves a variable out of the environment: what is set there is
/// set there again, and sub commands see it.
pub proof fn law_shell_assignment_keeps_environment(s: StateView, name: Seq<char>, value: Seq<char>)
    requires
        s.env.dom().contains(name),
    ensures
        find(s.with_change(EnvChangeView::SetShellVar(name, value)).env, name) == Some(value),
{
}

/// The slots of one name: its value in the environment, and that in the shell.
spec fn slots(s: StateView, name: Seq<char>) -> (Option<Seq<char>>, Option<Seq<char>>) {
    (find(s.env, name), find(s.shell, name))
}

/// The slots of a name after it was set as a shell variable.
spec fn assigned(
    slots: (Option<Seq<char>>, Option<Seq<char>>),
    value: Seq<char>,
) -> (Option<Seq<char>>, Option<Seq<char>>) {
    if slots.0 is Some {
        (Some(value), None)
    } else {
        (None, Some(value))
    }
}

/// Runs of one list of changes from two states agree on a name, or leave it alone, or do no
/// more than assign it one value.
proof fn lemma_runs_agree(s: StateView, t: StateView, changes: Seq<EnvChangeView>, name: Seq<char>)
    ensures
        ({
            let x = s.with_changes(changes);
            let y = t.with_changes(changes);
            &&& {
                ||| slots(x, name) == slots(y, name)
                ||| slots(x, name) == slots(s, name) && slots(y, name) == slots(t, name)
                ||| exists|v: Seq<char>|
                    slots(x, name) == #[trigger] assigned(slots(s, name), v) && slots(y, name)
                        == assigned(slots(t, name), v)
            }
            &&& {
                ||| find(x.aliases, name) == find(y.aliases, name)
                ||| find(x.aliases, name) == find(s.aliases, name) && find(y.aliases, name) == find(
                    t.aliases,
                    name,
                )
            }
            &&& x.cwd == y.cwd || x.cwd == s.cwd && y.cwd == t.cwd
            &&& x.exit_on_error == y.exit_on_error || x.exit_on_error == s.exit_on_error
                && y.exit_on_error == t.exit_on_error
            &&& x.print_trace == y.print_trace || x.print_trace == s.print_trace && y.print_trace
                == t.print_trace
        }),
    decreases changes.len(),
{
    if changes.len() > 0 {
        let less = changes.drop_last();
        lemma_runs_agree(s, t, less, name);
        let x = s.with_changes(less);
        let y = t.with_changes(less);
        match changes.last() {
            EnvChangeView::SetShellVar(n, value) => {
                if n == name {
                    assert(slots(x.with_change(changes.last()), name) == assigned(
                        slots(x, name),
                        value,
                    ));
                    assert(slots(y.with_change(changes.last()), name) == assigned(
                        slots(y, name),
                        value,
                    ));
                    if slots(x, name) != slots(y, name) {
                        assert(slots(x.with_change(changes.last()), name) == assigned(
                            slots(s, name),
                            value,
                        ));
                        assert(slots(y.with_change(changes.last()), name) == assigned(
                            slots(t, name),
                            value,
                        ));
                    }
                } else {
                    assert(slots(x.with_change(changes.last()), name) == slots(x, name));
                    assert(slots(y.with_change(changes.last()), name) == slots(y, name));
                }
            },
            _ => {
                assert(slots(x.with_change(changes.last()), name) == slots(x, name) && slots(
                    y.with_change(changes.last()),
                    name,
                ) == slots(y, name) || slots(x.with_change(changes.last()), name) == slots(
                    y.with_change(changes.last()),
                    name,
                ));
            },
        }
    }
}

/// Making a list of changes once more on the state that it led to changes nothing.
pub proof fn law_changes_replay(s: StateView, changes: Seq<EnvChangeView>)
    ensures
        s.with_changes(changes).with_changes(changes) == s.with_changes(changes),
{
    let once = s.with_changes(changes);
    let twice = once.with_changes(changes);
    assert forall|name: Seq<char>| #[trigger] slots(once, name) == slots(twice, name) by {
        lemma_runs_agree(s, once, changes, name);
    }
    lemma_runs_agree(s, once, changes, seq![]);
    assert forall|name: Seq<char>| once.env.dom().contains(name) == twice.env.dom().contains(name)
        by {
        assert(slots(once, name) == slots(twice, name));
    }
    assert forall|name: Seq<char>| once.shell.dom().contains(name) == twice.shell.dom().contains(
        name,
    ) by {
        assert(slots(once, name) == slots(twice, name));
    }
    assert forall|name: Seq<char>|
        once.aliases.dom().contains(name) == twice.aliases.dom().contains(name) by {
        lemma_runs_agree(s, once, changes, name);
    }
    assert forall|name: Seq<char>| once.env.dom().contains(name) implies once.env[name]
        == twice.env[name] by {
        assert(slots(once, name) == slots(twice, name));
    }
    assert forall|name: Seq<char>| once.shell.dom().contains(name) implies once.shell[name]
        == twice.shell[name] by {
        assert(slots(once, name) == slots(twice, name));
    }
    assert forall|name: Seq<char>| once.aliases.dom().contains(name) implies once.aliases[name]
        == twice.aliases[name] by {
        lemma_runs_agree(s, once, changes, name);
    }
    assert(once.env =~= twice.env);
    assert(once.shell =~= twice.shell);
    assert(once.aliases =~= twice.aliases);
}

/// Each change touches what it names and nothing else: one variable of the environment, or of the
/// shell where the environment has none of that name; one alias; one variable in both places; the
/// working directory; or one option.
pub proof fn law_changes_touch_what_they_name(
    s: StateView,
    name: Seq<char>,
    value: Seq<char>,
    words: Seq<Seq<char>>,
    on: bool,
)
    ensures
        s.with_change(EnvChangeView::SetEnvVar(name, value)) == (StateView {
            env: s.env.insert(name, value),
            shell: s.shell.remove(name),
            ..s
        }),
        !s.env.dom().contains(name) ==> s.with_change(EnvChangeView::SetShellVar(name, value)) == (
        StateView { shell: s.shell.insert(name, value), ..s }),
        s.env.dom().contains(name) ==> s.with_change(EnvChangeView::SetShellVar(name, value)) == (
        StateView { env: s.env.insert(name, value), shell: s.shell.remove(name), ..s }),
        s.with_change(EnvChangeView::AliasCommand(name, words)) == (StateView {
            aliases: s.aliases.insert(name, words),
            ..s
        }),
        s.with_change(EnvChangeView::UnAliasCommand(name)) == (StateView {
            aliases: s.aliases.remove(name),
            ..s
        }),
        s.with_change(EnvChangeView::UnsetVar(name)) == (StateView {
            env: s.env.remove(name),
            shell: s.shell.remove(name),
            ..s
        }),
        s.with_change(EnvChangeView::Cd(value)) == (StateView { cwd: value, ..s }),
        s.with_change(EnvChangeView::SetShellOptions(ShellOptions::ExitOnError, on)) == (StateView {
            exit_on_error: on,
            ..s
        }),
        s.with_change(EnvChangeView::SetShellOptions(ShellOptions::PrintTrace, on)) == (StateView {
            print_trace: on,
            ..s
        }),
        s.with_env_var(name, value) == (StateView {
            env: s.env.insert(name, value),
            shell: s.shell.remove(name),
            ..s
        }),
        s.with_shell_var(name, value) == (StateView { shell: s.shell.insert(name, value), ..s }),
{
}

/// No changes leave the state as it is, and the last of several changes is made in the state that the
/// ones before it lead to.
pub proof fn law_changes_in_order(s: StateView, changes: Seq<EnvChangeView>, last: EnvChangeView)
    ensures
        s.with_changes(seq![]) == s,
        s.with_changes(changes.push(last)) == s.with_changes(changes).with_change(last),
{
    assert(changes.push(last).drop_last() == changes);
    assert(changes.push(last).last() == last);
}

/// A variable is read from the environment where it stands there, else from the shell, and is unset
/// where it stands in neither.
pub proof fn law_environment_comes_first(s: StateView, name: Seq<char>)
    ensures
        s.env.dom().contains(name) ==> s.var(name) == Some(s.env[name]),
        !s.env.dom().contains(name) && s.shell.dom().contains(name) ==> s.var(name) == Some(
            s.shell[name],
        ),
        s.var(name) is None <==> !s.env.dom().contains(name) && !s.shell.dom().contains(name),
{
}

/// An exit code that is kept reads back; where none is kept, or what is kept is no number or no exit
/// code, it is zero. No variable of the environment has a part in it.
pub proof fn law_exit_code_reads_back(s: StateView, code: i32, env: Map<Seq<char>, Seq<char>>)
    ensures
        s.with_shell_var("?"@, decimal(code as int)).last_exit_code() == code,
        !s.shell.dom().contains("?"@) ==> s.last_exit_code() == 0,
        s.shell.dom().contains("?"@) ==> (match parse_number(s.shell["?"@]) {
            Some(n) => s.last_exit_code() == (if -0x8000_0000 <= n <= 0x7fff_ffff {
                n as int
            } else {
                0
            }),
            None => s.last_exit_code() == 0,
        }),
        (StateView { env, ..s }).last_exit_code() == s.last_exit_code(),
{
    law_decimal_reads_back(code as i64);
}

/// Of several entries with one name the last one counts, and no entries give no names.
pub proof fn law_later_entry_counts<T>(
    entries: Seq<(String, T)>,
    last: (String, T),
    other: Seq<char>,
)
    ensures
        table_map(Seq::<(String, T)>::empty()).dom() == Set::<Seq<char>>::empty(),
        find(table_map(entries.push(last)), last.0@) == Some(last.1),
        other != last.0@ ==> find(table_map(entries.push(last)), other) == find(
            table_map(entries),
            other,
        ),
{
    assert(entries.push(last).drop_last() == entries);
    assert(table_map(Seq::<(String, T)>::empty()).dom() =~= Set::<Seq<char>>::empty());
}

} // verus!
