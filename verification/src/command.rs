//! Commands: what their parts are run with, and what is made of their results.

use crate::arithmetic::{
    error_text, execute_arithmetic_expression, parts_evaluated, ArithmeticErrorView, ArithmeticView,
};
use crate::list::AsyncCommandBehavior;
use crate::redirect::{redirect_start, resolve_redirect_pipe, RedirectStep};
use crate::run::{
    behind, failed_on_word, finished_with, put_behind, refused, Finished, FinishedView,
};
use crate::sequence::{assignment_trace, execute_subshell, subshell_result, trace_assignment};
use crate::state::{find, ShellState, StateView};
use crate::syntax::{
    Arithmetic, CaseClause, Command, CommandInner, EnvVar, ForLoop, IfClause, SequentialList,
    SimpleCommand, WhileLoop, Word,
};
use crate::text::{begins_with, chars_of, join, join_text, string_of, texts};
use crate::types::{
    changes_view, extend_changes, plain_result, EnvChange, EnvChangeView, ExecuteResult,
    ResultView, CANCELLATION_EXIT_CODE,
};
use crate::words::{
    single_outcome, word_outcome, EvaluateWordTextError, WordErrorView, WordPartsResult,
    WordPartsView, WordResult, WordView,
};
use std::rc::Rc;
use vstd::prelude::*;

verus! {

/// Starts a command: its redirect comes first, where it has one.
pub fn execute_command<H>(command: &Command) -> (r: Option<RedirectStep<H>>)
    ensures
        match (command.redirect, r) {
            (None, None) => true,
            (Some(redirect), Some(step)) => step@ == redirect_start::<H>(redirect),
            _ => false,
        },
{
    match &command.redirect {
        None => None,
        Some(redirect) => Some(resolve_redirect_pipe(redirect)),
    }
}

// ---------------------------------------------------------------------------
// What a command runs

/// What a command runs once its streams are known.
#[verifier::ext_equal]
pub enum CommandRunView<H> {
    Simple(SimpleCommand),
    /// The list runs, and these changes are all that is kept of it.
    Subshell(SequentialList, AsyncCommandBehavior, Seq<EnvChangeView>),
    If(IfClause),
    For(ForLoop),
    While(WhileLoop),
    Case(CaseClause),
    Done(FinishedView<H>),
}

/// The result of an arithmetic command after the changes of its redirect, and the state that it
/// leads to.
pub open spec fn arithmetic_command<H>(
    evaluated: (StateView, Result<ArithmeticView, ArithmeticErrorView>),
    changes: Seq<EnvChangeView>,
) -> (StateView, CommandRunView<H>) {
    match evaluated.1 {
        Ok(value) => (
            evaluated.0,
            CommandRunView::Done(
                finished_with(
                    ResultView {
                        exits: false,
                        code: 0,
                        changes: changes + value.changes,
                        handles: seq![],
                    },
                ),
            ),
        ),
        Err(e) => (
            evaluated.0,
            CommandRunView::Done(
                FinishedView {
                    result: ResultView { exits: false, code: 2, changes, handles: seq![] },
                    error_line: Some(error_text(e)),
                },
            ),
        ),
    }
}

/// What a command runs after the changes of its redirect, and the state that it leads to.
pub open spec fn command_run<H>(inner: CommandInner, changes: Seq<EnvChangeView>, s: StateView) -> (
    StateView,
    CommandRunView<H>,
) {
    let changed = s.with_changes(changes);
    match inner {
        CommandInner::Simple(command) => (changed, CommandRunView::Simple(*command)),
        CommandInner::Subshell(list) => (
            changed,
            CommandRunView::Subshell(*list, AsyncCommandBehavior::Yield, changes),
        ),
        CommandInner::If(clause) => (changed, CommandRunView::If(*clause)),
        CommandInner::For(clause) => (changed, CommandRunView::For(*clause)),
        CommandInner::While(clause) => (changed, CommandRunView::While(*clause)),
        CommandInner::Case(clause) => (changed, CommandRunView::Case(*clause)),
        CommandInner::ArithmeticExpression(arithmetic) => arithmetic_command(
            parts_evaluated(arithmetic.parts@, changed),
            changes,
        ),
    }
}

/// A subshell that is running.
#[derive(Debug)]
pub struct SubshellRun {
    changes: Vec<EnvChange>,
}

impl View for SubshellRun {
    type V = Seq<EnvChangeView>;

    closed spec fn view(&self) -> Seq<EnvChangeView> {
        changes_view(self.changes@)
    }
}

impl SubshellRun {
    /// The result of the subshell, after its list: it does not stop the shell, and its changes
    /// are lost.
    pub fn on_result<H>(self, result: ExecuteResult<H>) -> (r: ExecuteResult<H>)
        ensures
            r@ == (ResultView { changes: self@, ..subshell_result(result@) }),
    {
        match execute_subshell(result) {
            ExecuteResult::Exit(code, _, handles) => ExecuteResult::Exit(
                code,
                self.changes,
                handles,
            ),
            ExecuteResult::Continue(code, _, handles) => ExecuteResult::Continue(
                code,
                self.changes,
                handles,
            ),
        }
    }
}

/// What a command runs once its streams are known.
#[derive(Debug)]
pub enum CommandRun<H> {
    Simple(Rc<SimpleCommand>),
    Subshell(Rc<SequentialList>, AsyncCommandBehavior, SubshellRun),
    If(Rc<IfClause>),
    For(Rc<ForLoop>),
    While(Rc<WhileLoop>),
    Case(Rc<CaseClause>),
    Done(Finished<H>),
}

impl<H> View for CommandRun<H> {
    type V = CommandRunView<H>;

    open spec fn view(&self) -> CommandRunView<H> {
        match self {
            CommandRun::Simple(command) => CommandRunView::Simple(**command),
            CommandRun::Subshell(list, behavior, run) => CommandRunView::Subshell(
                **list,
                *behavior,
                run@,
            ),
            CommandRun::If(clause) => CommandRunView::If(**clause),
            CommandRun::For(clause) => CommandRunView::For(**clause),
            CommandRun::While(clause) => CommandRunView::While(**clause),
            CommandRun::Case(clause) => CommandRunView::Case(**clause),
            CommandRun::Done(finished) => CommandRunView::Done(finished@),
        }
    }
}

/// Goes on with a command once its streams are known: makes the changes of its redirect.
pub fn run_command<H>(inner: &CommandInner, changes: Vec<EnvChange>, state: &mut ShellState) -> (r:
    CommandRun<H>)
    ensures
        (final(state)@, r@) == command_run::<H>(*inner, changes_view(changes@), old(state)@),
{
    state.apply_changes(&changes);
    match inner {
        CommandInner::Simple(command) => CommandRun::Simple(command.clone()),
        CommandInner::Subshell(list) => CommandRun::Subshell(
            list.clone(),
            AsyncCommandBehavior::Yield,
            SubshellRun { changes },
        ),
        CommandInner::If(clause) => CommandRun::If(clause.clone()),
        CommandInner::For(clause) => CommandRun::For(clause.clone()),
        CommandInner::While(clause) => CommandRun::While(clause.clone()),
        CommandInner::Case(clause) => CommandRun::Case(clause.clone()),
        CommandInner::ArithmeticExpression(arithmetic) => {
            let mut changes = changes;
            match execute_arithmetic_expression(arithmetic, state) {
                Ok(value) => {
                    extend_changes(&mut changes, value.changes);
                    CommandRun::Done(
                        Finished::with(ExecuteResult::Continue(0, changes, Vec::new())),
                    )
                },
                Err(err) => CommandRun::Done(
                    Finished {
                        result: ExecuteResult::Continue(2, changes, Vec::new()),
                        error_line: Some(err.message()),
                    },
                ),
            }
        },
    }
}

// ---------------------------------------------------------------------------
// Simple commands

/// How far a simple command has come.
#[verifier::ext_equal]
pub struct SimpleView {
    /// The variable whose value is being evaluated.
    pub name: Seq<char>,
    /// The variables that are still to come.
    pub rest: Seq<EnvVar>,
    pub args: Seq<Seq<char>>,
    pub changes: Seq<EnvChangeView>,
}

/// What a simple command does next.
#[verifier::ext_equal]
pub enum SimpleStepView<H> {
    Evaluate(Word, SimpleView),
    /// The command runs with these words, and its result is put behind these changes.
    Run(Seq<Seq<char>>, Seq<EnvChangeView>),
    Done(FinishedView<H>),
}

/// The line that traces a command.
pub open spec fn command_trace(args: Seq<Seq<char>>) -> Seq<char> {
    "+ "@ + join_text(args, " "@)
}

/// How a simple command goes on with the variables that are still to come: the lines that it
/// traces, and what it does.
pub open spec fn simple_advanced<H>(
    rest: Seq<EnvVar>,
    args: Seq<Seq<char>>,
    changes: Seq<EnvChangeView>,
    s: StateView,
) -> (Seq<Seq<char>>, SimpleStepView<H>) {
    if rest.len() > 0 {
        (
            seq![],
            SimpleStepView::Evaluate(
                rest[0].value,
                SimpleView { name: rest[0].name@, rest: rest.skip(1), args, changes },
            ),
        )
    } else {
        (
            if s.print_trace {
                seq![command_trace(args)]
            } else {
                seq![]
            },
            SimpleStepView::Run(args, changes),
        )
    }
}

/// How a simple command goes on with its words.
pub open spec fn simple_args<H>(
    command: SimpleCommand,
    outcome: Result<WordPartsView, WordErrorView>,
    s: StateView,
) -> (Seq<Seq<char>>, SimpleStepView<H>) {
    match outcome {
        Err(e) => (seq![], SimpleStepView::Done(failed_on_word(e))),
        Ok(words) => simple_advanced(command.env_vars@, words.value, words.changes, s),
    }
}

impl SimpleView {
    /// How the command goes on with the value of a variable: the state that it leads to, the lines
    /// that it traces, and what it does.
    pub open spec fn after_word<H>(self, outcome: Result<WordView, WordErrorView>, s: StateView) -> (
        StateView,
        Seq<Seq<char>>,
        SimpleStepView<H>,
    ) {
        match outcome {
            Err(e) => (s, seq![], SimpleStepView::Done(failed_on_word(e))),
            Ok(word) => {
                let set = s.with_env_var(self.name, word.value);
                let (lines, step) = simple_advanced(
                    self.rest,
                    self.args,
                    self.changes + word.changes,
                    set,
                );
                (
                    set,
                    if set.print_trace {
                        seq![assignment_trace(self.name, word.value)] + lines
                    } else {
                        lines
                    },
                    step,
                )
            },
        }
    }
}

/// A simple command that waits for its words.
#[derive(Debug)]
pub struct SimpleStart {
    command: Rc<SimpleCommand>,
}

impl View for SimpleStart {
    type V = SimpleCommand;

    closed spec fn view(&self) -> SimpleCommand {
        *self.command
    }
}

/// A simple command that waits for the value of a variable.
#[derive(Debug)]
pub struct SimpleRun {
    command: Rc<SimpleCommand>,
    current: usize,
    args: Vec<String>,
    changes: Vec<EnvChange>,
}

impl SimpleRun {
    #[verifier::type_invariant]
    spec fn wf(self) -> bool {
        self.current < self.command.env_vars@.len()
    }
}

impl View for SimpleRun {
    type V = SimpleView;

    closed spec fn view(&self) -> SimpleView {
        SimpleView {
            name: self.command.env_vars@[self.current as int].name@,
            rest: self.command.env_vars@.skip(self.current + 1),
            args: texts(self.args@),
            changes: changes_view(self.changes@),
        }
    }
}

/// A simple command that is running.
#[derive(Debug)]
pub struct SimpleRest {
    changes: Vec<EnvChange>,
}

impl View for SimpleRest {
    type V = Seq<EnvChangeView>;

    closed spec fn view(&self) -> Seq<EnvChangeView> {
        changes_view(self.changes@)
    }
}

/// What a simple command needs next, or what it came to.
#[derive(Debug)]
pub enum SimpleStep<H> {
    /// The value of a variable.
    Evaluate(Word, SimpleRun),
    /// The result of the command with these words.
    Run(Vec<String>, SimpleRest),
    Done(Finished<H>),
}

impl<H> View for SimpleStep<H> {
    type V = SimpleStepView<H>;

    open spec fn view(&self) -> SimpleStepView<H> {
        match self {
            SimpleStep::Evaluate(word, run) => SimpleStepView::Evaluate(*word, run@),
            SimpleStep::Run(args, rest) => SimpleStepView::Run(texts(args@), rest@),
            SimpleStep::Done(finished) => SimpleStepView::Done(finished@),
        }
    }
}

/// Starts a simple command: its words are evaluated as arguments.
pub fn execute_simple_command(command: Rc<SimpleCommand>) -> (r: (Rc<Vec<Word>>, SimpleStart))
    ensures
        r.0 == command.args,
        r.1@ == *command,
{
    (command.args.clone(), SimpleStart { command })
}

fn advance_simple<H>(
    command: Rc<SimpleCommand>,
    next: usize,
    args: Vec<String>,
    changes: Vec<EnvChange>,
    state: &ShellState,
) -> (r: (Vec<String>, SimpleStep<H>))
    requires
        next <= command.env_vars@.len(),
    ensures
        (texts(r.0@), r.1@) == simple_advanced::<H>(
            command.env_vars@.skip(next as int),
            texts(args@),
            changes_view(changes@),
            state@,
        ),
{
    let mut lines: Vec<String> = Vec::new();
    if next < command.env_vars.len() {
        let word = command.env_vars[next].value.share();
        assert(command.env_vars@.skip(next as int).skip(1) == command.env_vars@.skip(next + 1));
        assert(texts(lines@) == Seq::<Seq<char>>::empty());
        (lines, SimpleStep::Evaluate(word, SimpleRun { command, current: next, args, changes }))
    } else {
        if state.print_trace() {
            let words = join(&args, " ");
            let mut line = "+ ".to_owned();
            line.append(words.as_str());
            lines.push(line);
            assert(texts(lines@) == seq![command_trace(texts(args@))]);
        } else {
            assert(texts(lines@) == Seq::<Seq<char>>::empty());
        }
        (lines, SimpleStep::Run(args, SimpleRest { changes }))
    }
}

impl SimpleStart {
    /// Goes on with the words of the command, in a copy of the state: the lines to trace, and what
    /// the command needs next.
    pub fn on_args<H>(
        self,
        outcome: Result<WordPartsResult, EvaluateWordTextError>,
        state: &ShellState,
    ) -> (r: (Vec<String>, SimpleStep<H>))
        ensures
            (texts(r.0@), r.1@) == simple_args::<H>(self@, word_outcome(outcome), state@),
    {
        match outcome {
            Err(err) => {
                let lines: Vec<String> = Vec::new();
                assert(texts(lines@) == Seq::<Seq<char>>::empty());
                (lines, SimpleStep::Done(Finished::word_failure(err)))
            },
            Ok(words) => {
                assert(self.command.env_vars@.skip(0) == self.command.env_vars@);
                advance_simple(self.command, 0, words.value, words.changes, state)
            },
        }
    }
}

impl SimpleRun {
    /// Goes on with the value of the variable: the lines to trace, and what the command needs next.
    pub fn on_word<H>(
        self,
        outcome: Result<WordResult, EvaluateWordTextError>,
        state: &mut ShellState,
    ) -> (r: (Vec<String>, SimpleStep<H>))
        ensures
            (final(state)@, texts(r.0@), r.1@) == self@.after_word::<H>(
                single_outcome(outcome),
                old(state)@,
            ),
    {
        proof {
            use_type_invariant(&self);
        }
        let word = match outcome {
            Err(err) => {
                let lines: Vec<String> = Vec::new();
                assert(texts(lines@) == Seq::<Seq<char>>::empty());
                return (lines, SimpleStep::Done(Finished::word_failure(err)));
            },
            Ok(word) => word,
        };
        let SimpleRun { command, current, args, changes } = self;
        let mut changes = changes;
        state.apply_env_var(command.env_vars[current].name.as_str(), word.value.as_str());
        extend_changes(&mut changes, word.changes);
        let mut lines: Vec<String> = Vec::new();
        let ghost name = command.env_vars@[current as int].name@;
        if state.print_trace() {
            lines.push(
                trace_assignment(command.env_vars[current].name.as_str(), word.value.as_str()),
            );
            assert(texts(lines@) == seq![assignment_trace(name, word.value@)]);
        } else {
            assert(texts(lines@) == Seq::<Seq<char>>::empty());
        }
        let ghost first = lines@;
        assert(command.env_vars@.len() == command.env_vars.len());
        let (more, step) = advance_simple(command, current + 1, args, changes, state);
        let mut more = more;
        let ghost rest = more@;
        lines.append(&mut more);
        assert(texts(first + rest) == texts(first) + texts(rest));
        (lines, step)
    }
}

impl SimpleRest {
    /// The result of the simple command, after the command that ran.
    pub fn on_result<H>(self, result: ExecuteResult<H>) -> (r: ExecuteResult<H>)
        ensures
            r@ == behind(self@, result@),
    {
        put_behind(self.changes, result)
    }
}

// ---------------------------------------------------------------------------
// Words that name a command

/// The words after the first one is replaced by what it is an alias for.
pub open spec fn alias_expanded(args: Seq<Seq<char>>, s: StateView) -> Seq<Seq<char>> {
    if args.len() == 0 {
        args
    } else {
        match find(s.aliases, args[0]) {
            Some(words) => words + args.skip(1),
            None => args,
        }
    }
}

/// The words after the first one is replaced by what it is an alias for.
pub fn expand_alias(args: Vec<String>, state: &ShellState) -> (r: Vec<String>)
    ensures
        texts(r@) == alias_expanded(texts(args@), state@),
{
    let mut args = args;
    if args.len() == 0 {
        return args;
    }
    assert(texts(args@)[0] == args@[0]@);
    match state.alias(args[0].as_str()) {
        None => args,
        Some(words) => {
            let ghost before = args@;
            let mut r: Vec<String> = Vec::new();
            let mut i: usize = 0;
            while i < words.len()
                invariant
                    i <= words@.len(),
                    texts(r@) == texts(words@).take(i as int),
                decreases words.len() - i,
            {
                let ghost so_far = r@;
                r.push(words[i].clone());
                assert(texts(r@) == texts(so_far).push(words@[i as int]@));
                assert(texts(words@).take(i + 1) == texts(words@).take(i as int).push(
                    words@[i as int]@,
                ));
                i += 1;
            }
            assert(texts(words@).take(i as int) == texts(words@));
            args.remove(0);
            assert(texts(args@) == texts(before).skip(1));
            let ghost front = r@;
            let ghost back = args@;
            r.append(&mut args);
            assert(texts(front + back) == texts(front) + texts(back));
            r
        },
    }
}

/// The line for a name that begins with `!`.
pub open spec fn history_line(name: Seq<char>) -> Seq<char> {
    "History expansion is not supported:\n  "@ + name
        + "\n  ~\n\nPerhaps you meant to add a space after the exclamation point to negate the command?\n  ! "@
        + name.skip(1)
}

/// What becomes of words that name a command.
#[verifier::ext_equal]
pub enum CommandCallView<H> {
    /// The command of this name is called with these arguments.
    Call(Seq<char>, Seq<Seq<char>>),
    Done(FinishedView<H>),
}

/// What becomes of the words of a command; `cancelled` says whether the shell was cancelled.
pub open spec fn command_call<H>(args: Seq<Seq<char>>, s: StateView, cancelled: bool) -> CommandCallView<
    H,
> {
    let words = alias_expanded(args, s);
    let name = if words.len() == 0 {
        seq![]
    } else {
        words[0]
    };
    let rest = if words.len() == 0 {
        seq![]
    } else {
        words.skip(1)
    };
    if cancelled {
        CommandCallView::Done(
            finished_with(ResultView { exits: true, ..plain_result(CANCELLATION_EXIT_CODE) }),
        )
    } else if name.len() > 0 && name[0] == '!' {
        CommandCallView::Done(refused(history_line(name), 1))
    } else {
        CommandCallView::Call(name, rest)
    }
}

/// What becomes of words that name a command.
#[derive(Debug)]
pub enum CommandCall<H> {
    /// The command of this name is called with these arguments.
    Call(String, Vec<String>),
    Done(Finished<H>),
}

impl<H> View for CommandCall<H> {
    type V = CommandCallView<H>;

    open spec fn view(&self) -> CommandCallView<H> {
        match self {
            CommandCall::Call(name, args) => CommandCallView::Call(name@, texts(args@)),
            CommandCall::Done(finished) => CommandCallView::Done(finished@),
        }
    }
}

fn history_text(name: &str) -> (r: String)
    requires
        name@.len() > 0,
    ensures
        r@ == history_line(name@),
{
    let chars = chars_of(name);
    let stripped = string_of(&chars, 1, chars.len());
    assert(chars@.subrange(1, chars@.len() as int) == name@.skip(1));
    let mut line = "History expansion is not supported:\n  ".to_owned();
    line.append(name);
    line.append(
        "\n  ~\n\nPerhaps you meant to add a space after the exclamation point to negate the command?\n  ! ",
    );
    line.append(stripped.as_str());
    line
}

/// What becomes of the words of a command: an alias is replaced, and the first word names the
/// command. Words that are there must not vanish with an alias for nothing.
pub fn execute_command_args<H>(args: Vec<String>, state: &ShellState, cancelled: bool) -> (r:
    CommandCall<H>)
    requires
        args@.len() > 0 ==> alias_expanded(texts(args@), state@).len() > 0,
    ensures
        r@ == command_call::<H>(texts(args@), state@, cancelled),
{
    let mut words = expand_alias(args, state);
    assert(texts(words@).len() == words@.len());
    let ghost before = words@;
    let name = if words.len() == 0 {
        let none: String = "".to_owned();
        proof {
            reveal_strlit("");
            assert(none@ == Seq::<char>::empty());
            assert(texts(words@) == Seq::<Seq<char>>::empty());
        }
        none
    } else {
        let first = words.remove(0);
        assert(first@ == texts(before)[0]);
        assert(texts(words@) == texts(before).skip(1));
        first
    };
    if cancelled {
        return CommandCall::Done(Finished::with(ExecuteResult::for_cancellation()));
    }
    if begins_with(name.as_str(), '!') {
        CommandCall::Done(Finished::refusal(history_text(name.as_str()), 1))
    } else {
        CommandCall::Call(name, words)
    }
}

// ---------------------------------------------------------------------------
// Laws

/// Only the first word is replaced by what it is an alias for, and only once: the words after it
/// stay as they are.
pub proof fn law_alias_replaces_the_name_only(args: Seq<Seq<char>>, s: StateView)
    requires
        args.len() > 0,
    ensures
        find(s.aliases, args[0]) is None ==> alias_expanded(args, s) == args,
        find(s.aliases, args[0]) matches Some(words) ==> alias_expanded(args, s).take(
            words.len() as int,
        ) == words && alias_expanded(args, s).skip(words.len() as int) == args.skip(1),
{
    if find(s.aliases, args[0]) is Some {
        let words = find(s.aliases, args[0])->0;
        assert((words + args.skip(1)).take(words.len() as int) == words);
        assert((words + args.skip(1)).skip(words.len() as int) == args.skip(1));
    }
}

/// A shell that was cancelled calls nothing.
pub proof fn law_cancelled_shell_calls_nothing<H>(args: Seq<Seq<char>>, s: StateView)
    ensures
        command_call::<H>(args, s, true) is Done,
        command_call::<H>(args, s, true)->Done_0.result.exits,
        command_call::<H>(args, s, true)->Done_0.result.code == CANCELLATION_EXIT_CODE,
{
}

/// Nothing that happens in a subshell reaches the shell but its exit code and the tasks that it
/// left running: two subshells that agree on these have the same result.
pub proof fn law_subshell_keeps_to_itself<H>(
    changes: Seq<EnvChangeView>,
    a: ResultView<H>,
    b: ResultView<H>,
)
    requires
        a.code == b.code,
        a.handles == b.handles,
    ensures
        (ResultView { changes, ..subshell_result(a) }) == (ResultView {
            changes,
            ..subshell_result(b)
        }),
        !subshell_result(a).exits,
{
}

/// A simple command that runs on with the values of its variables, as far as they are given.
pub open spec fn simple_driven<H>(
    step: SimpleStepView<H>,
    s: StateView,
    values: Seq<WordView>,
) -> (StateView, SimpleStepView<H>)
    decreases values.len(),
{
    if values.len() == 0 {
        (s, step)
    } else {
        match step {
            SimpleStepView::Evaluate(_, run) => {
                let (end, _, next) = run.after_word(Ok(values[0]), s);
                simple_driven(next, end, values.skip(1))
            },
            _ => (s, step),
        }
    }
}

/// The state with several variables of the environment set in turn.
pub open spec fn with_variables(s: StateView, vars: Seq<EnvVar>, values: Seq<WordView>) -> StateView
    decreases values.len(),
{
    if values.len() == 0 {
        s
    } else {
        with_variables(s.with_env_var(vars[0].name@, values[0].value), vars.skip(1), values.skip(1))
    }
}

/// The changes of several words, one after the other.
pub open spec fn word_changes(values: Seq<WordView>) -> Seq<EnvChangeView>
    decreases values.len(),
{
    if values.len() == 0 {
        seq![]
    } else {
        values[0].changes + word_changes(values.skip(1))
    }
}

/// A simple command sees all its variables, set in order, and they do not outlive it: what is kept
/// are the changes that came with the evaluation of its words and values, and nothing else.
pub proof fn law_command_variables_do_not_stay<H>(
    vars: Seq<EnvVar>,
    args: Seq<Seq<char>>,
    changes: Seq<EnvChangeView>,
    s: StateView,
    values: Seq<WordView>,
)
    requires
        values.len() == vars.len(),
    ensures
        simple_driven(simple_advanced::<H>(vars, args, changes, s).1, s, values) == (
            with_variables(s, vars, values),
            SimpleStepView::<H>::Run(args, changes + word_changes(values)),
        ),
    decreases values.len(),
{
    if values.len() == 0 {
        assert(changes + word_changes(values) == changes);
    } else {
        let set = s.with_env_var(vars[0].name@, values[0].value);
        let more = changes + values[0].changes;
        law_command_variables_do_not_stay::<H>(vars.skip(1), args, more, set, values.skip(1));
        assert(more + word_changes(values.skip(1)) == changes + word_changes(values));
        let step = simple_advanced::<H>(vars, args, changes, s).1;
        assert(simple_driven(step, s, values) == simple_driven(
            simple_advanced::<H>(vars.skip(1), args, more, set).1,
            set,
            values.skip(1),
        ));
    }
}

/// An arithmetic command whose expression has a value ends with exit code zero, whatever the value is,
/// does not stop the shell, writes nothing to its error stream and leaves nothing running. It keeps
/// the changes of its redirect and then those of the expression, in the state that the expression
/// led to.
pub proof fn law_arithmetic_command_succeeds<H>(
    arithmetic: Rc<Arithmetic>,
    changes: Seq<EnvChangeView>,
    s: StateView,
)
    requires
        parts_evaluated(arithmetic.parts@, s.with_changes(changes)).1 is Ok,
    ensures
        ({
            let (led_to, value) = parts_evaluated(arithmetic.parts@, s.with_changes(changes));
            let (end, run) = command_run::<H>(
                CommandInner::ArithmeticExpression(arithmetic),
                changes,
                s,
            );
            &&& end == led_to
            &&& run matches CommandRunView::Done(done)
            &&& done.result.code == 0
            &&& !done.result.exits
            &&& done.error_line is None
            &&& done.result.handles.len() == 0
            &&& done.result.changes == changes + value->Ok_0.changes
        }),
{
}

/// An arithmetic command whose expression fails ends with exit code two and the text of the error on
/// its error stream, does not stop the shell, and keeps the changes of its redirect alone.
pub proof fn law_arithmetic_command_fails<H>(
    arithmetic: Rc<Arithmetic>,
    changes: Seq<EnvChangeView>,
    s: StateView,
)
    requires
        parts_evaluated(arithmetic.parts@, s.with_changes(changes)).1 is Err,
    ensures
        ({
            let (led_to, value) = parts_evaluated(arithmetic.parts@, s.with_changes(changes));
            let (end, run) = command_run::<H>(
                CommandInner::ArithmeticExpression(arithmetic),
                changes,
                s,
            );
            &&& end == led_to
            &&& run matches CommandRunView::Done(done)
            &&& done.result.code == 2
            &&& !done.result.exits
            &&& done.error_line == Some(error_text(value->Err_0))
            &&& done.result.handles.len() == 0
            &&& done.result.changes == changes
        }),
{
}

/// Every other command runs as what it is, after the changes of its redirect were made; a subshell lets
/// its background commands yield, and keeps the changes of the redirect.
pub proof fn law_commands_run_as_what_they_are<H>(
    inner: CommandInner,
    changes: Seq<EnvChangeView>,
    s: StateView,
)
    requires
        !(inner is ArithmeticExpression),
    ensures
        ({
            let (end, run) = command_run::<H>(inner, changes, s);
            &&& end == s.with_changes(changes)
            &&& match inner {
                CommandInner::Simple(command) => run == CommandRunView::<H>::Simple(*command),
                CommandInner::Subshell(list) => run == CommandRunView::<H>::Subshell(
                    *list,
                    AsyncCommandBehavior::Yield,
                    changes,
                ),
                CommandInner::If(clause) => run == CommandRunView::<H>::If(*clause),
                CommandInner::For(clause) => run == CommandRunView::<H>::For(*clause),
                CommandInner::While(clause) => run == CommandRunView::<H>::While(*clause),
                CommandInner::Case(clause) => run == CommandRunView::<H>::Case(*clause),
                CommandInner::ArithmeticExpression(_) => false,
            }
        }),
{
}

/// The first word names the command and the others are its arguments. A name that begins with `!` is
/// refused with exit code one, a shell that was cancelled stops with 130 and does not report
/// anything, and no word at all is the empty name.
pub proof fn law_first_word_names_the_command<H>(
    name: Seq<char>,
    rest: Seq<Seq<char>>,
    s: StateView,
    cancelled: bool,
)
    requires
        !s.aliases.dom().contains(name),
    ensures
        ({
            let call = command_call::<H>(seq![name] + rest, s, cancelled);
            &&& cancelled ==> (call matches CommandCallView::Done(done) && done.result.exits
                && done.result.code == 130 && done.result.changes.len() == 0
                && done.result.handles.len() == 0 && done.error_line is None)
            &&& !cancelled && (name.len() == 0 || name[0] != '!') ==> call == CommandCallView::<
                H,
            >::Call(name, rest)
            &&& !cancelled && name.len() > 0 && name[0] == '!' ==> (
            call matches CommandCallView::Done(done) && !done.result.exits && done.result.code == 1
                && done.result.changes.len() == 0 && done.error_line is Some)
        }),
        command_call::<H>(seq![], s, false) == CommandCallView::<H>::Call(seq![], seq![]),
{
    let args = seq![name] + rest;
    assert(args[0] == name);
    assert(args.skip(1) == rest);
}

/// An alias is called as the words that it stands for with the other words behind them, and those words
/// are not looked up again.
pub proof fn law_alias_is_called_as_its_words<H>(
    name: Seq<char>,
    first: Seq<char>,
    more: Seq<Seq<char>>,
    rest: Seq<Seq<char>>,
    s: StateView,
)
    requires
        s.aliases.dom().contains(name),
        s.aliases[name] == seq![first] + more,
        first.len() > 0 ==> first[0] != '!',
    ensures
        command_call::<H>(seq![name] + rest, s, false) == CommandCallView::<H>::Call(
            first,
            more + rest,
        ),
{
    let args = seq![name] + rest;
    assert(args[0] == name);
    assert(args.skip(1) == rest);
    let words = seq![first] + more + rest;
    assert(words[0] == first);
    assert(words.skip(1) == more + rest);
}

/// The refusal of a name after `!` shows the name, and then the name without the `!` as what may have
/// been meant.
pub proof fn law_history_line_shows_the_name(name: Seq<char>)
    requires
        name.len() > 0,
        name[0] == '!',
    ensures
        ({
            let line = command_call::<()>(seq![name], no_state(), false)->Done_0.error_line->0;
            let front = "History expansion is not supported:\n  "@;
            let hint =
                "\n  ~\n\nPerhaps you meant to add a space after the exclamation point to negate the command?\n  ! "@;
            &&& line.take(front.len() as int) == front
            &&& line.skip(front.len() as int).take(name.len() as int) == name
            &&& line.skip((front.len() + name.len()) as int).take(hint.len() as int) == hint
            &&& line.skip((front.len() + name.len() + hint.len()) as int) == name.skip(1)
        }),
{
    let line = history_line(name);
    let front = "History expansion is not supported:\n  "@;
    let hint =
        "\n  ~\n\nPerhaps you meant to add a space after the exclamation point to negate the command?\n  ! "@;
    let n = front.len() as int;
    let m = name.len() as int;
    let k = hint.len() as int;
    assert(seq![name][0] == name);
    assert(line.take(n) == front);
    assert(line.skip(n).take(m) == name);
    assert(line.skip(n + m).take(k) == hint);
    assert(line.skip(n + m + k) == name.skip(1));
}

/// A state with nothing in it.
pub open spec fn no_state() -> StateView {
    StateView {
        env: Map::empty(),
        shell: Map::empty(),
        aliases: Map::empty(),
        cwd: seq![],
        exit_on_error: false,
        print_trace: false,
    }
}

/// A simple command evaluates the value of each of its variables in turn and sets it before the next
/// one; where the shell traces commands, each is traced as an assignment and the command as a plus
/// sign and its words with a space between each two.
pub proof fn law_simple_command_traces<H>(
    run: SimpleView,
    word: WordView,
    args: Seq<Seq<char>>,
    changes: Seq<EnvChangeView>,
    s: StateView,
)
    ensures
        ({
            let (lines, step) = simple_advanced::<H>(seq![], args, changes, s);
            &&& step == SimpleStepView::<H>::Run(args, changes)
            &&& lines == (if s.print_trace {
                seq![seq!['+', ' '] + join_text(args, seq![' '])]
            } else {
                seq![]
            })
        }),
        ({
            let (end, lines, step) = run.after_word::<H>(Ok(word), s);
            let traced = if s.print_trace {
                seq![seq!['+', ' '] + run.name + seq!['='] + word.value]
            } else {
                seq![]
            };
            &&& end == s.with_env_var(run.name, word.value)
            &&& run.rest.len() > 0 ==> lines == traced && step == SimpleStepView::<H>::Evaluate(
                run.rest[0].value,
                SimpleView {
                    name: run.rest[0].name@,
                    rest: run.rest.skip(1),
                    args: run.args,
                    changes: run.changes + word.changes,
                },
            )
            &&& run.rest.len() == 0 ==> step == SimpleStepView::<H>::Run(
                run.args,
                run.changes + word.changes,
            ) && lines == (if s.print_trace {
                traced + seq![seq!['+', ' '] + join_text(run.args, seq![' '])]
            } else {
                seq![]
            })
        }),
{
    reveal_strlit("+ ");
    reveal_strlit("=");
    reveal_strlit(" ");
    assert("+ "@ == seq!['+', ' ']);
    assert("="@ == seq!['=']);
    assert(" "@ == seq![' ']);
    let none = Seq::<Seq<char>>::empty();
    let line = assignment_trace(run.name, word.value);
    assert(seq![line] + none == seq![line]);
}

/// A simple command whose words or values fail ends with exit code one and runs nothing; the state is
/// left as it is.
pub proof fn law_simple_command_needs_its_words<H>(
    command: SimpleCommand,
    run: SimpleView,
    error: WordErrorView,
    s: StateView,
)
    ensures
        ({
            let (lines, step) = simple_args::<H>(command, Err(error), s);
            &&& lines.len() == 0
            &&& step matches SimpleStepView::Done(done) && done.result.code == 1
                && !done.result.exits && done.result.changes.len() == 0 && done.error_line is Some
        }),
        ({
            let (end, lines, step) = run.after_word::<H>(Err(error), s);
            &&& end == s
            &&& lines.len() == 0
            &&& step matches SimpleStepView::Done(done) && done.result.code == 1
                && !done.result.exits && done.result.changes.len() == 0 && done.error_line is Some
        }),
        forall|words: WordPartsView| #[trigger]
            simple_args::<H>(command, Ok(words), s) == simple_advanced::<H>(
                command.env_vars@,
                words.value,
                words.changes,
                s,
            ),
        command.env_vars@.len() > 0 ==> forall|words: WordPartsView| #[trigger]
            simple_args::<H>(command, Ok(words), s) == (
                Seq::<Seq<char>>::empty(),
                SimpleStepView::<H>::Evaluate(
                    command.env_vars@[0].value,
                    SimpleView {
                        name: command.env_vars@[0].name@,
                        rest: command.env_vars@.skip(1),
                        args: words.value,
                        changes: words.changes,
                    },
                ),
            ),
{
}

} // verus!
