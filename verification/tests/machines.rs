use std::rc::Rc;
use task_shell::branches::{
    execute_case_clause, execute_if_clause, finish_case, CaseStep, IfStep,
};
use task_shell::command::{
    execute_command, execute_command_args, execute_simple_command, expand_alias, run_command,
    CommandCall, CommandRun, SimpleStep,
};
use task_shell::condition::ConditionalResult;
use task_shell::list::{execute_sequential_list, AsyncCommandBehavior, ListStep};
use task_shell::loops::{execute_for_clause, execute_while_clause, ForStep, WhileStep};
use task_shell::redirect::{
    resolve_redirect_pipe, OpenMode, RedirectPipe, RedirectRoute, RedirectStep,
};
use task_shell::run::{cancels_tasks, task_ended, Finished, Progress};
use task_shell::sequence::{
    execute_pipe_sequence, execute_pipeline, execute_sequence, execute_subshell, pipe_stages,
    BooleanStep, PipelineStep, SequenceStep,
};
use task_shell::state::ShellState;
use task_shell::syntax::{
    Arithmetic, ArithmeticPart, BooleanList, BooleanListOperator, CaseClause, Command,
    CommandInner, Condition, ConditionInner, ElsePart, EnvVar, ForLoop, IfClause, IoFile,
    PipeSequence, PipeSequenceOperator, Pipeline, PipelineInner, Redirect, RedirectFd, RedirectOp,
    RedirectOpInput, RedirectOpOutput, Sequence, SequentialList, SequentialListItem, SimpleCommand,
    UnaryOp, WhileLoop, Word, WordPart,
};
use task_shell::types::{EnvChange, ExecuteResult, ShellOptions, CANCELLATION_EXIT_CODE};
use task_shell::words::{EvaluateWordTextError, WordPartsResult, WordResult};

fn state() -> ShellState {
    ShellState::new(Vec::new(), "/work".to_string(), false, false)
}

fn strings(words: &[&str]) -> Vec<String> {
    words.iter().map(|w| w.to_string()).collect()
}

fn word(s: &str) -> Word {
    Word { parts: Rc::new(vec![WordPart::Text(s.to_string())]) }
}

fn word_text(word: &Word) -> String {
    match &word.parts()[0] {
        WordPart::Text(s) => s.clone(),
        other => panic!("unexpected part {other:?}"),
    }
}

fn value(s: &str) -> Result<WordResult, EvaluateWordTextError> {
    Ok(WordResult { value: s.to_string(), changes: Vec::new() })
}

fn no_files<T>(pattern: &str) -> Result<T, EvaluateWordTextError> {
    Err(EvaluateWordTextError::NoFilesMatched { pattern: pattern.to_string() })
}

fn words(list: &[&str]) -> Result<WordPartsResult, EvaluateWordTextError> {
    Ok(WordPartsResult::new(strings(list), Vec::new()))
}

fn set(name: &str, to: &str) -> EnvChange {
    EnvChange::SetShellVar(name.to_string(), to.to_string())
}

fn go_on(code: i32, changes: Vec<EnvChange>, handles: Vec<i32>) -> ExecuteResult<i32> {
    ExecuteResult::Continue(code, changes, handles)
}

fn stop(code: i32, changes: Vec<EnvChange>, handles: Vec<i32>) -> ExecuteResult<i32> {
    ExecuteResult::Exit(code, changes, handles)
}

type Parts = (bool, i32, Vec<EnvChange>, Vec<i32>);

fn parts(result: ExecuteResult<i32>) -> Parts {
    match result {
        ExecuteResult::Exit(code, changes, handles) => (true, code, changes, handles),
        ExecuteResult::Continue(code, changes, handles) => (false, code, changes, handles),
    }
}

fn simple(name: &str) -> Command {
    Command {
        inner: CommandInner::Simple(Rc::new(SimpleCommand {
            env_vars: Vec::new(),
            args: Rc::new(vec![word(name)]),
        })),
        redirect: None,
    }
}

fn command_name(command: &Command) -> String {
    match &command.inner {
        CommandInner::Simple(command) => word_text(&command.args[0]),
        other => panic!("unexpected command {other:?}"),
    }
}

fn pipeline(name: &str) -> Rc<Sequence> {
    Rc::new(Sequence::Pipeline(Pipeline {
        negated: false,
        inner: PipelineInner::Command(Rc::new(simple(name))),
    }))
}

fn sequence_name(sequence: &Sequence) -> String {
    match sequence {
        Sequence::Pipeline(pipeline) => match &pipeline.inner {
            PipelineInner::Command(command) => command_name(command),
            other => panic!("unexpected pipeline {other:?}"),
        },
        other => panic!("unexpected sequence {other:?}"),
    }
}

fn list(names: &[(&str, bool)]) -> Rc<SequentialList> {
    Rc::new(SequentialList {
        items: names
            .iter()
            .map(|(name, is_async)| SequentialListItem {
                is_async: *is_async,
                sequence: pipeline(name),
            })
            .collect(),
    })
}

fn list_name(list: &SequentialList) -> String {
    sequence_name(&list.items[0].sequence)
}

fn condition() -> Rc<Condition> {
    Rc::new(Condition {
        condition_inner: ConditionInner::Unary {
            op: Some(UnaryOp::NonEmptyString),
            right: word("x"),
        },
    })
}

fn holds(value: bool, changes: Vec<EnvChange>) -> Result<ConditionalResult, EvaluateWordTextError> {
    Ok(ConditionalResult { value, changes })
}

fn plain(finished: Finished<i32>) -> Parts {
    assert_eq!(finished.error_line, None);
    parts(finished.result)
}

// ---------------------------------------------------------------------------
// Tasks

#[test]
fn first_failure_counts() {
    let after = |code: i32, tasks: &[i32]| tasks.iter().fold(code, |c, t| task_ended(c, *t));
    assert_eq!(after(0, &[0, 0]), 0);
    assert_eq!(after(0, &[CANCELLATION_EXIT_CODE, 0]), CANCELLATION_EXIT_CODE);
    assert_eq!(after(0, &[CANCELLATION_EXIT_CODE, 3, 4]), 3);
    assert_eq!(after(0, &[5, CANCELLATION_EXIT_CODE]), 5);
    assert_eq!(after(2, &[5]), 2);
    assert!(cancels_tasks(1));
    assert!(!cancels_tasks(0));
}

#[test]
fn progress_keeps_everything() {
    let mut progress: Progress<i32> = Progress::new();
    assert!(!progress.absorb(go_on(1, vec![set("a", "1")], vec![10])));
    progress.add_changes(vec![set("b", "2")]);
    assert!(progress.absorb(stop(4, vec![set("c", "3")], vec![11])));
    let mut state = state();
    let finished = progress.conclude(&mut state);
    let expected = vec![set("a", "1"), set("b", "2"), set("c", "3")];
    assert_eq!(plain(finished), (false, 4, expected, vec![10, 11]));
    assert_eq!(state.get_var("b").unwrap(), "2");
}

// ---------------------------------------------------------------------------
// Lists

#[test]
fn lists_run_in_order() {
    let mut state = state();
    let step = execute_sequential_list::<i32>(
        list(&[("a", false), ("b", true), ("c", false)]),
        AsyncCommandBehavior::Yield,
    );
    let run = match step {
        ListStep::Run(sequence, run) => {
            assert_eq!(sequence_name(&sequence), "a");
            run
        }
        other => panic!("unexpected step {other:?}"),
    };
    let run = match run.on_result(go_on(3, vec![set("v", "1")], vec![7]), &mut state) {
        ListStep::Spawn(sequence, run) => {
            assert_eq!(sequence_name(&sequence), "b");
            run
        }
        other => panic!("unexpected step {other:?}"),
    };
    assert_eq!(state.get_var("?").unwrap(), "3");
    assert_eq!(state.get_var("v").unwrap(), "1");
    let run = match run.on_spawned(8) {
        ListStep::Run(sequence, run) => {
            assert_eq!(sequence_name(&sequence), "c");
            run
        }
        other => panic!("unexpected step {other:?}"),
    };
    match run.on_result(go_on(0, vec![set("v", "2")], Vec::new()), &mut state) {
        ListStep::Done(result) => assert_eq!(
            parts(result),
            (false, 0, vec![set("v", "1"), set("v", "2")], vec![7, 8])
        ),
        other => panic!("unexpected step {other:?}"),
    }
}

#[test]
fn lists_hand_on_their_state() {
    let mut inner = state();
    let run = match execute_sequential_list::<i32>(
        list(&[("a", false), ("b", false)]),
        AsyncCommandBehavior::Yield,
    ) {
        ListStep::Run(_, run) => run,
        other => panic!("unexpected step {other:?}"),
    };
    let first = vec![set("v", "1"), EnvChange::Cd("/tmp".to_string())];
    let run = match run.on_result(go_on(2, first, Vec::new()), &mut inner) {
        ListStep::Run(_, run) => run,
        other => panic!("unexpected step {other:?}"),
    };
    let second = vec![EnvChange::UnsetVar("v".to_string()), set("w", "2")];
    let result = match run.on_result(go_on(0, second, Vec::new()), &mut inner) {
        ListStep::Done(result) => result,
        other => panic!("unexpected step {other:?}"),
    };
    let mut outer = state();
    outer.apply_changes(&parts(result).2);
    assert_eq!(outer.cwd(), inner.cwd());
    assert_eq!(outer.get_var("v"), inner.get_var("v"));
    assert_eq!(outer.get_var("w"), inner.get_var("w"));
    assert_eq!(inner.get_var("?").unwrap(), "0");
    assert!(outer.get_var("?").is_none());
}

#[test]
fn exit_and_failure_end_a_list() {
    let start = || match execute_sequential_list::<i32>(
        list(&[("a", false), ("b", false)]),
        AsyncCommandBehavior::Yield,
    ) {
        ListStep::Run(_, run) => run,
        other => panic!("unexpected step {other:?}"),
    };
    match start().on_result(stop(9, Vec::new(), Vec::new()), &mut state()) {
        ListStep::Done(result) => assert_eq!(parts(result), (true, 9, Vec::new(), Vec::new())),
        other => panic!("unexpected step {other:?}"),
    }
    let strict = EnvChange::SetShellOptions(ShellOptions::ExitOnError, true);
    match start().on_result(go_on(9, vec![strict.clone()], Vec::new()), &mut state()) {
        ListStep::Done(result) => assert_eq!(parts(result), (false, 9, vec![strict], Vec::new())),
        other => panic!("unexpected step {other:?}"),
    }
}

#[test]
fn lists_end_early_with_tasks_running() {
    let mut state = state();
    let run = match execute_sequential_list::<i32>(
        list(&[("a", true), ("b", false), ("c", true)]),
        AsyncCommandBehavior::Wait,
    ) {
        ListStep::Spawn(_, run) => run,
        other => panic!("unexpected step {other:?}"),
    };
    let run = match run.on_spawned(5) {
        ListStep::Run(_, run) => run,
        other => panic!("unexpected step {other:?}"),
    };
    match run.on_result(stop(2, vec![set("v", "1")], vec![6]), &mut state) {
        ListStep::Wait(code, handles, end) => {
            assert_eq!((code, handles), (2, vec![5, 6]));
            assert_eq!(parts(end.on_waited(2)), (true, 2, vec![set("v", "1")], Vec::new()));
        }
        other => panic!("unexpected step {other:?}"),
    }
}

#[test]
fn waiting_lists_leave_nothing_running() {
    let step =
        execute_sequential_list::<i32>(list(&[("a", true)]), AsyncCommandBehavior::Wait);
    let run = match step {
        ListStep::Spawn(_, run) => run,
        other => panic!("unexpected step {other:?}"),
    };
    let end = match run.on_spawned(5) {
        ListStep::Wait(code, handles, end) => {
            assert_eq!((code, handles), (0, vec![5]));
            end
        }
        other => panic!("unexpected step {other:?}"),
    };
    assert_eq!(parts(end.on_waited(6)), (false, 6, Vec::new(), Vec::new()));
}

// ---------------------------------------------------------------------------
// Sequences

#[test]
fn assignments_are_changes() {
    let assignment = Sequence::ShellVar(EnvVar { name: "v".to_string(), value: word("x") });
    let start = || match execute_sequence(&assignment) {
        SequenceStep::Assign(word, assignment) => {
            assert_eq!(word_text(&word), "x");
            assignment
        }
        other => panic!("unexpected step {other:?}"),
    };
    let (trace, finished) = start().on_word::<i32>(value("x"), &state());
    assert_eq!(trace, None);
    assert_eq!(plain(finished), (false, 0, vec![set("v", "x")], Vec::new()));
    let tracing = ShellState::new(Vec::new(), "/".to_string(), false, true);
    let (trace, _) = start().on_word::<i32>(value("x"), &tracing);
    assert_eq!(trace.as_deref(), Some("+ v=x"));
    let (trace, finished) = start().on_word::<i32>(no_files("*"), &tracing);
    assert_eq!(trace, None);
    assert_eq!(finished.error_line.as_deref(), Some("glob: no matches found '*'"));
    assert_eq!(parts(finished.result), (false, 1, Vec::new(), Vec::new()));
}

fn chain(op: BooleanListOperator, then: BooleanListOperator) -> Sequence {
    Sequence::BooleanList(BooleanList {
        current: pipeline("a"),
        op,
        next: Rc::new(Sequence::BooleanList(BooleanList {
            current: pipeline("b"),
            op: then,
            next: pipeline("c"),
        })),
    })
}

fn after_first(sequence: &Sequence, code: i32) -> Option<String> {
    let mut state = state();
    let run = match execute_sequence(sequence) {
        SequenceStep::First(first, run) => {
            assert_eq!(sequence_name(&first), "a");
            run
        }
        other => panic!("unexpected step {other:?}"),
    };
    match run.on_first(go_on(code, vec![set("v", "1")], vec![1]), &mut state) {
        BooleanStep::Done(result) => {
            assert_eq!(parts(result), (false, code, vec![set("v", "1")], vec![1]));
            None
        }
        BooleanStep::Next(next, rest) => {
            assert_eq!(state.get_var("v").unwrap(), "1");
            let result = rest.on_next(stop(5, vec![set("w", "2")], vec![2]));
            assert_eq!(
                parts(result),
                (true, 5, vec![set("v", "1"), set("w", "2")], vec![1, 2])
            );
            Some(match &*next {
                Sequence::BooleanList(list) => sequence_name(&list.current),
                other => sequence_name(other),
            })
        }
    }
}

#[test]
fn first_open_operator_decides() {
    let and = BooleanListOperator::And;
    let or = BooleanListOperator::Or;
    assert_eq!(after_first(&chain(and, or), 0).as_deref(), Some("b"));
    assert_eq!(after_first(&chain(and, or), 1).as_deref(), Some("c"));
    assert_eq!(after_first(&chain(and, and), 1), None);
    assert_eq!(after_first(&chain(or, and), 0).as_deref(), Some("c"));
    assert_eq!(after_first(&chain(or, or), 0), None);
    assert_eq!(after_first(&chain(or, or), 7).as_deref(), Some("b"));
    assert!(and.moves_next_for_exit_code(0));
    assert!(or.moves_next_for_exit_code(-1));
}

#[test]
fn exit_ends_a_boolean_list() {
    let mut state = state();
    let list = chain(BooleanListOperator::Or, BooleanListOperator::Or);
    let run = match execute_sequence(&list) {
        SequenceStep::First(_, run) => run,
        other => panic!("unexpected step {other:?}"),
    };
    match run.on_first(stop(1, vec![set("v", "1")], Vec::new()), &mut state) {
        BooleanStep::Done(result) => {
            assert_eq!(parts(result), (true, 1, vec![set("v", "1")], Vec::new()));
        }
        other => panic!("unexpected step {other:?}"),
    }
    assert!(state.get_var("v").is_none());
}

#[test]
fn negation_turns_the_code() {
    assert_eq!(execute_pipeline(true, go_on(0, Vec::new(), Vec::new())).exit_code(), 1);
    assert_eq!(execute_pipeline(true, go_on(5, Vec::new(), Vec::new())).exit_code(), 0);
    assert_eq!(execute_pipeline(false, go_on(5, Vec::new(), Vec::new())).exit_code(), 5);
    assert_eq!(execute_pipeline(true, stop(5, Vec::new(), Vec::new())).exit_code(), 5);
    for code in [0, 1, 5] {
        let twice = execute_pipeline(true, execute_pipeline(true, go_on(code, Vec::new(), vec![1])));
        let (exits, after, _, handles) = parts(twice);
        assert_eq!((exits, after == 0, handles), (false, code == 0, vec![1]));
    }
}

#[test]
fn pipes_have_stages() {
    let inner = PipelineInner::PipeSequence(Rc::new(PipeSequence {
        current: Rc::new(simple("a")),
        op: PipeSequenceOperator::StdoutStderr,
        next: PipelineInner::PipeSequence(Rc::new(PipeSequence {
            current: Rc::new(simple("b")),
            op: PipeSequenceOperator::Stdout,
            next: PipelineInner::Command(Rc::new(simple("c"))),
        })),
    }));
    let stages: Vec<(String, bool)> = pipe_stages(&inner)
        .iter()
        .map(|s| (command_name(&s.command), s.pipes_stderr))
        .collect();
    assert_eq!(
        stages,
        vec![("a".to_string(), true), ("b".to_string(), false), ("c".to_string(), false)]
    );
    let sequence = Sequence::Pipeline(Pipeline { negated: true, inner });
    assert!(matches!(
        execute_sequence(&sequence),
        SequenceStep::Pipeline(PipelineStep::Pipes(stages), true) if stages.len() == 3
    ));
    assert!(matches!(
        execute_sequence(&pipeline("x")),
        SequenceStep::Pipeline(PipelineStep::Command(_), false)
    ));
}

#[test]
fn pipes_keep_everything() {
    let result = execute_pipe_sequence(vec![
        stop(1, vec![set("a", "1")], vec![1]),
        go_on(2, vec![set("b", "2")], vec![2]),
        stop(3, vec![set("c", "3")], vec![3]),
    ]);
    assert_eq!(
        parts(result),
        (false, 3, vec![set("a", "1"), set("b", "2"), set("c", "3")], vec![3, 1, 2])
    );
}

#[test]
fn subshells_do_not_stop_the_shell() {
    let result = execute_subshell(stop(4, vec![set("a", "1")], vec![9]));
    assert_eq!(parts(result), (false, 4, vec![set("a", "1")], vec![9]));
}

// ---------------------------------------------------------------------------
// Loops

fn while_loop(is_until: bool) -> Rc<WhileLoop> {
    Rc::new(WhileLoop { condition: condition(), body: list(&[("body", false)]), is_until })
}

#[test]
fn while_runs_as_long_as_its_condition_holds() {
    for is_until in [false, true] {
        let mut state = state();
        let run = match execute_while_clause::<i32>(while_loop(is_until)) {
            WhileStep::Condition(_, run) => run,
            other => panic!("unexpected step {other:?}"),
        };
        let run = match run.on_condition(holds(!is_until, vec![set("c", "1")]), &mut state) {
            WhileStep::Body(body, AsyncCommandBehavior::Yield, run) => {
                assert_eq!(list_name(&body), "body");
                run
            }
            other => panic!("unexpected step {other:?}"),
        };
        assert_eq!(state.get_var("c").unwrap(), "1");
        let run = match run.on_body(go_on(3, vec![set("b", "2")], vec![1]), &mut state) {
            WhileStep::Condition(_, run) => run,
            other => panic!("unexpected step {other:?}"),
        };
        assert_eq!(state.get_var("b").unwrap(), "2");
        match run.on_condition(holds(is_until, Vec::new()), &mut state) {
            WhileStep::Done(finished) => assert_eq!(
                plain(finished),
                (false, 3, vec![set("c", "1"), set("b", "2")], vec![1])
            ),
            other => panic!("unexpected step {other:?}"),
        }
    }
}

#[test]
fn while_without_a_run_succeeds() {
    let mut strict = ShellState::new(Vec::new(), "/".to_string(), true, false);
    let run = match execute_while_clause::<i32>(while_loop(true)) {
        WhileStep::Condition(_, run) => run,
        other => panic!("unexpected step {other:?}"),
    };
    match run.on_condition(holds(true, vec![set("c", "1")]), &mut strict) {
        WhileStep::Done(finished) => {
            assert_eq!(plain(finished), (false, 0, vec![set("c", "1")], Vec::new()));
        }
        other => panic!("unexpected step {other:?}"),
    }
}

#[test]
fn while_keeps_the_last_code() {
    let mut state = state();
    let mut step = execute_while_clause::<i32>(while_loop(false));
    for (code, handle) in [(4, 1), (0, 2), (6, 3)] {
        let run = match step {
            WhileStep::Condition(_, run) => run,
            other => panic!("unexpected step {other:?}"),
        };
        step = match run.on_condition(holds(true, Vec::new()), &mut state) {
            WhileStep::Body(_, _, run) => {
                run.on_body(go_on(code, vec![set("b", &code.to_string())], vec![handle]), &mut state)
            }
            other => panic!("unexpected step {other:?}"),
        };
    }
    match step {
        WhileStep::Condition(_, run) => match run.on_condition(holds(false, Vec::new()), &mut state) {
            WhileStep::Done(finished) => assert_eq!(
                plain(finished),
                (false, 6, vec![set("b", "4"), set("b", "0"), set("b", "6")], vec![1, 2, 3])
            ),
            other => panic!("unexpected step {other:?}"),
        },
        other => panic!("unexpected step {other:?}"),
    }
}

#[test]
fn while_ends_on_exit_and_on_errors() {
    let mut strict = ShellState::new(Vec::new(), "/".to_string(), true, false);
    let start = || match execute_while_clause::<i32>(while_loop(false)) {
        WhileStep::Condition(_, run) => run,
        other => panic!("unexpected step {other:?}"),
    };
    let run = match start().on_condition(holds(true, Vec::new()), &mut strict) {
        WhileStep::Body(_, _, run) => run,
        other => panic!("unexpected step {other:?}"),
    };
    match run.on_body(stop(2, Vec::new(), Vec::new()), &mut strict) {
        WhileStep::Done(finished) => {
            assert_eq!(plain(finished), (true, 2, Vec::new(), Vec::new()));
        }
        other => panic!("unexpected step {other:?}"),
    }
    match start().on_condition(no_files("*"), &mut strict) {
        WhileStep::Done(finished) => {
            assert_eq!(finished.error_line.as_deref(), Some("glob: no matches found '*'"));
            assert_eq!(finished.result.exit_code(), 1);
        }
        other => panic!("unexpected step {other:?}"),
    }
}

fn for_loop() -> Rc<ForLoop> {
    Rc::new(ForLoop {
        var_name: "i".to_string(),
        wordlist: Rc::new(vec![word("x"), word("y")]),
        body: list(&[("body", false)]),
    })
}

#[test]
fn for_runs_each_word() {
    let mut state = state();
    let (wordlist, start) = execute_for_clause(for_loop());
    assert_eq!(wordlist.len(), 2);
    let run = match start.on_words::<i32>(words(&["x", "y"]), &mut state) {
        ForStep::Body(body, AsyncCommandBehavior::Yield, run) => {
            assert_eq!(list_name(&body), "body");
            run
        }
        other => panic!("unexpected step {other:?}"),
    };
    assert_eq!(state.get_var("i").unwrap(), "x");
    let run = match run.on_body(go_on(1, vec![set("b", "1")], vec![1]), &mut state) {
        ForStep::Body(_, _, run) => run,
        other => panic!("unexpected step {other:?}"),
    };
    assert_eq!(state.get_var("i").unwrap(), "y");
    assert!(state.get_var("b").is_none());
    match run.on_body(go_on(2, vec![set("b", "2")], vec![2]), &mut state) {
        ForStep::Done(finished) => assert_eq!(
            plain(finished),
            (false, 2, vec![set("b", "1"), set("b", "2")], vec![1, 2])
        ),
        other => panic!("unexpected step {other:?}"),
    }
    assert_eq!(state.get_var("b").unwrap(), "2");
}

#[test]
fn for_without_words_succeeds() {
    let mut state = state();
    let (_, start) = execute_for_clause(for_loop());
    match start.on_words::<i32>(words(&[]), &mut state) {
        ForStep::Done(finished) => {
            assert_eq!(plain(finished), (false, 0, Vec::new(), Vec::new()));
        }
        other => panic!("unexpected step {other:?}"),
    }
    let (_, start) = execute_for_clause(for_loop());
    match start.on_words::<i32>(no_files("*"), &mut state) {
        ForStep::Done(finished) => assert_eq!(finished.result.exit_code(), 1),
        other => panic!("unexpected step {other:?}"),
    }
    let (_, start) = execute_for_clause(for_loop());
    let run = match start.on_words::<i32>(words(&["x", "y"]), &mut state) {
        ForStep::Body(_, _, run) => run,
        other => panic!("unexpected step {other:?}"),
    };
    match run.on_body(stop(5, Vec::new(), Vec::new()), &mut state) {
        ForStep::Done(finished) => {
            assert_eq!(plain(finished), (false, 5, Vec::new(), Vec::new()));
        }
        other => panic!("unexpected step {other:?}"),
    }
}

// ---------------------------------------------------------------------------
// Branches

fn if_clause(last: Option<ElsePart>) -> Rc<IfClause> {
    Rc::new(IfClause {
        condition: condition(),
        then_body: list(&[("first", false)]),
        else_part: Some(ElsePart::Elif(Rc::new(IfClause {
            condition: condition(),
            then_body: list(&[("second", false)]),
            else_part: last,
        }))),
    })
}

fn branch(clause: Rc<IfClause>, values: &[bool]) -> Option<String> {
    let mut step: IfStep<i32> = execute_if_clause(clause);
    for value in values {
        step = match step {
            IfStep::Condition(_, run) => run.on_condition(holds(*value, vec![set("c", "1")])),
            other => other,
        };
    }
    match step {
        IfStep::Body(body, AsyncCommandBehavior::Yield, run) => {
            let result = run.on_body(stop(2, vec![set("b", "2")], vec![3]));
            let (exits, code, changes, handles) = parts(result);
            assert_eq!((exits, code, handles), (true, 2, vec![3]));
            assert_eq!(changes.last(), Some(&set("b", "2")));
            assert_eq!(changes.len(), values.len() + 1);
            Some(list_name(&body))
        }
        IfStep::Done(finished) => {
            let (exits, code, changes, handles) = plain(finished);
            assert_eq!((exits, code, changes.len(), handles), (false, 0, values.len(), Vec::new()));
            None
        }
        other => panic!("unexpected step {other:?}"),
    }
}

#[test]
fn first_true_condition_decides() {
    let with_else = || if_clause(Some(ElsePart::Else(list(&[("else", false)]))));
    assert_eq!(branch(with_else(), &[true]).as_deref(), Some("first"));
    assert_eq!(branch(with_else(), &[false, true]).as_deref(), Some("second"));
    assert_eq!(branch(with_else(), &[false, false]).as_deref(), Some("else"));
    assert_eq!(branch(if_clause(None), &[false, false]), None);
    let step: IfStep<i32> = execute_if_clause(if_clause(None));
    match step {
        IfStep::Condition(_, run) => match run.on_condition::<i32>(no_files("*")) {
            IfStep::Done(finished) => assert_eq!(finished.result.exit_code(), 1),
            other => panic!("unexpected step {other:?}"),
        },
        other => panic!("unexpected step {other:?}"),
    }
}

fn case_clause() -> CaseClause {
    CaseClause {
        word: word("w"),
        cases: vec![
            (vec![word("a*"), word("b")], list(&[("first", false)])),
            (Vec::new(), list(&[("never", false)])),
            (vec![word("c|d")], list(&[("second", false)])),
        ],
    }
}

fn matching_body(looked_for: &str) -> Option<String> {
    let mut state = state();
    let (word, start) = execute_case_clause(&case_clause());
    assert_eq!(word_text(&word), "w");
    let mut step: CaseStep<i32> = start.on_word(value(looked_for), &mut state);
    loop {
        step = match step {
            CaseStep::Pattern(pattern, run) => run.on_pattern(value(&word_text(&pattern)), &mut state),
            CaseStep::Body(body, behavior) => {
                assert_eq!(behavior, AsyncCommandBehavior::Yield);
                return Some(list_name(&body));
            }
            CaseStep::Done(finished) => {
                assert_eq!(plain(finished), (false, 0, Vec::new(), Vec::new()));
                return None;
            }
        };
    }
}

#[test]
fn first_matching_pattern_decides() {
    assert_eq!(matching_body("abc").as_deref(), Some("first"));
    assert_eq!(matching_body("b").as_deref(), Some("first"));
    assert_eq!(matching_body("d").as_deref(), Some("second"));
    assert_eq!(matching_body("z"), None);
}

#[test]
fn patterns_need_values() {
    let mut state = state();
    let (_, start) = execute_case_clause(&case_clause());
    assert!(matches!(start.on_word::<i32>(no_files("*"), &mut state), CaseStep::Done(f)
        if f.error_line.is_some()));
    let (_, start) = execute_case_clause(&case_clause());
    let run = match start.on_word::<i32>(value("x"), &mut state) {
        CaseStep::Pattern(_, run) => run,
        other => panic!("unexpected step {other:?}"),
    };
    assert!(matches!(run.on_pattern::<i32>(no_files("*"), &mut state), CaseStep::Done(f)
        if f.error_line.is_some()));
    let (_, start) = execute_case_clause(&case_clause());
    let run = match start.on_word::<i32>(value("x"), &mut state) {
        CaseStep::Pattern(_, run) => run,
        other => panic!("unexpected step {other:?}"),
    };
    assert!(matches!(run.on_match::<i32>(true, &mut state), CaseStep::Body(..)));
}

#[test]
fn case_ends_with_its_body() {
    let mut state = state();
    let finished = finish_case(stop(3, vec![set("b", "1")], vec![4]), &mut state);
    assert_eq!(plain(finished), (false, 3, vec![set("b", "1")], vec![4]));
    assert_eq!(state.get_var("b").unwrap(), "1");
    let strict = EnvChange::SetShellOptions(ShellOptions::ExitOnError, true);
    let finished = finish_case(go_on(3, vec![strict.clone()], Vec::new()), &mut state);
    assert_eq!(plain(finished), (true, 3, vec![strict], Vec::new()));
}

// ---------------------------------------------------------------------------
// Redirects

fn redirect(op: RedirectOp, fd: Option<RedirectFd>, io_file: IoFile) -> RedirectStep<i32> {
    resolve_redirect_pipe(&Redirect { maybe_fd: fd, op, io_file })
}

fn to_file(op: RedirectOp, fd: Option<RedirectFd>, found: &[&str]) -> RedirectStep<i32> {
    match redirect(op, fd, IoFile::Word(word("f"))) {
        RedirectStep::Evaluate(word, run) => {
            assert_eq!(word_text(&word), "f");
            run.resolve_redirect_word_pipe(words(found), &state())
        }
        other => panic!("unexpected step {other:?}"),
    }
}

fn refusal(step: RedirectStep<i32>) -> String {
    match step {
        RedirectStep::Refused(finished) => {
            assert_eq!(parts(finished.result), (false, 1, Vec::new(), Vec::new()));
            finished.error_line.unwrap()
        }
        other => panic!("unexpected step {other:?}"),
    }
}

const INPUT: RedirectOp = RedirectOp::Input(RedirectOpInput::Redirect);
const OVERWRITE: RedirectOp = RedirectOp::Output(RedirectOpOutput::Overwrite);
const APPEND: RedirectOp = RedirectOp::Output(RedirectOpOutput::Append);

#[test]
fn redirects_open_files() {
    for (op, mode, route) in [
        (INPUT, OpenMode::Read, RedirectRoute::Stdin),
        (OVERWRITE, OpenMode::Overwrite, RedirectRoute::Stdout),
        (APPEND, OpenMode::Append, RedirectRoute::Stdout),
    ] {
        match to_file(op, None, &["x"]) {
            RedirectStep::Open(request, run) => {
                assert_eq!(request.dir, "/work");
                assert_eq!(request.path, "x");
                assert_eq!(request.mode, mode);
                assert!(matches!(run.on_opened::<i32>(), RedirectStep::Ready(RedirectPipe::File, r, _)
                    if r == route));
            }
            other => panic!("unexpected step {other:?}"),
        }
    }
    match to_file(INPUT, None, &["x"]) {
        RedirectStep::Open(_, run) => {
            let finished = run.on_open_failed::<i32>("/work/x", "not found");
            assert_eq!(
                finished.error_line.as_deref(),
                Some("error opening file for redirect (/work/x). not found")
            );
            assert_eq!(finished.result.exit_code(), 1);
        }
        other => panic!("unexpected step {other:?}"),
    }
}

#[test]
fn redirects_route_streams() {
    for (fd, route) in [
        (None, RedirectRoute::Stdout),
        (Some(RedirectFd::Fd(1)), RedirectRoute::Stdout),
        (Some(RedirectFd::Fd(2)), RedirectRoute::Stderr),
        (Some(RedirectFd::StdoutStderr), RedirectRoute::StdoutAndStderr),
    ] {
        assert!(matches!(to_file(OVERWRITE, fd, &["/dev/null"]),
            RedirectStep::Ready(RedirectPipe::Null, r, changes) if r == route && changes.is_empty()));
    }
    assert!(matches!(
        redirect(OVERWRITE, Some(RedirectFd::Fd(2)), IoFile::Fd(1)),
        RedirectStep::Ready(RedirectPipe::Stdout, RedirectRoute::Stderr, _)
    ));
    assert!(matches!(
        redirect(OVERWRITE, None, IoFile::Fd(2)),
        RedirectStep::Ready(RedirectPipe::Stderr, RedirectRoute::Stdout, _)
    ));
    assert!(matches!(to_file(INPUT, None, &["/dev/null"]), RedirectStep::Open(..)));
}

#[test]
fn redirects_refuse() {
    assert_eq!(
        refusal(redirect(INPUT, None, IoFile::Fd(1))),
        "shell: input redirecting file descriptors is not implemented"
    );
    match redirect(OVERWRITE, None, IoFile::Fd(3)) {
        RedirectStep::Report(text, result) => {
            assert_eq!(
                text,
                "shell: output redirecting file descriptors beyond stdout and stderr is not implemented"
            );
            assert_eq!(parts(result), (false, 1, Vec::new(), Vec::new()));
        }
        other => panic!("unexpected step {other:?}"),
    }
    assert_eq!(
        refusal(to_file(OVERWRITE, None, &[])),
        "redirect path must be 1 argument, but found 0"
    );
    assert_eq!(
        refusal(to_file(OVERWRITE, None, &["a", "b"])),
        "redirect path must be 1 argument, but found 2 (a b). Did you mean to quote it (ex. \"a b\")?"
    );
    assert_eq!(
        refusal(to_file(OVERWRITE, Some(RedirectFd::Fd(3)), &["/dev/null"])),
        "only redirecting to stdout (1) and stderr (2) is supported"
    );
    match to_file(INPUT, Some(RedirectFd::Fd(0)), &["x"]) {
        RedirectStep::Open(_, run) => assert_eq!(
            refusal(run.on_opened()),
            "input redirects with file descriptors are not supported"
        ),
        other => panic!("unexpected step {other:?}"),
    }
    match redirect(INPUT, None, IoFile::Word(word("f"))) {
        RedirectStep::Evaluate(_, run) => assert_eq!(
            refusal(run.resolve_redirect_word_pipe(no_files("f*"), &state())),
            "glob: no matches found 'f*'"
        ),
        other => panic!("unexpected step {other:?}"),
    }
}

// ---------------------------------------------------------------------------
// Commands

#[test]
fn commands_start_with_their_redirect() {
    assert!(execute_command::<i32>(&simple("a")).is_none());
    let mut command = simple("a");
    command.redirect =
        Some(Redirect { maybe_fd: None, op: OVERWRITE, io_file: IoFile::Fd(2) });
    assert!(matches!(
        execute_command::<i32>(&command),
        Some(RedirectStep::Ready(RedirectPipe::Stderr, RedirectRoute::Stdout, _))
    ));
}

#[test]
fn commands_run_their_parts() {
    let mut state = state();
    let run = |inner: &CommandInner, state: &mut ShellState| -> CommandRun<i32> {
        run_command(inner, vec![set("r", "1")], state)
    };
    assert!(matches!(run(&simple("a").inner, &mut state), CommandRun::Simple(_)));
    assert_eq!(state.get_var("r").unwrap(), "1");
    assert!(matches!(run(&CommandInner::If(if_clause(None)), &mut state), CommandRun::If(_)));
    assert!(matches!(run(&CommandInner::For(for_loop()), &mut state), CommandRun::For(_)));
    assert!(matches!(
        run(&CommandInner::While(while_loop(false)), &mut state),
        CommandRun::While(_)
    ));
    assert!(matches!(
        run(&CommandInner::Case(Rc::new(case_clause())), &mut state),
        CommandRun::Case(_)
    ));
    match run(&CommandInner::Subshell(list(&[("s", false)])), &mut state) {
        CommandRun::Subshell(list, AsyncCommandBehavior::Yield, subshell) => {
            assert_eq!(list_name(&list), "s");
            let result = subshell.on_result(stop(4, vec![set("lost", "1")], vec![6]));
            assert_eq!(parts(result), (false, 4, vec![set("r", "1")], vec![6]));
        }
        other => panic!("unexpected run {other:?}"),
    }
}

#[test]
fn arithmetic_commands_finish() {
    let mut state = state();
    let arithmetic = |number: &str| {
        CommandInner::ArithmeticExpression(Rc::new(Arithmetic {
            parts: vec![ArithmeticPart::Number(number.to_string())],
        }))
    };
    match run_command::<i32>(&arithmetic("0"), vec![set("r", "1")], &mut state) {
        CommandRun::Done(finished) => {
            assert_eq!(plain(finished), (false, 0, vec![set("r", "1")], Vec::new()));
        }
        other => panic!("unexpected run {other:?}"),
    }
    match run_command::<i32>(&arithmetic("x"), Vec::new(), &mut state) {
        CommandRun::Done(finished) => {
            assert_eq!(finished.error_line.as_deref(), Some("Invalid number: x"));
            assert_eq!(parts(finished.result), (false, 2, Vec::new(), Vec::new()));
        }
        other => panic!("unexpected run {other:?}"),
    }
}

#[test]
fn command_variables_do_not_stay() {
    let mut state = ShellState::new(Vec::new(), "/".to_string(), false, true);
    let command = Rc::new(SimpleCommand {
        env_vars: vec![
            EnvVar { name: "A".to_string(), value: word("1") },
            EnvVar { name: "B".to_string(), value: word("2") },
        ],
        args: Rc::new(vec![word("run"), word("x")]),
    });
    let (args, start) = execute_simple_command(command);
    assert_eq!(args.len(), 2);
    let (lines, step) = start.on_args::<i32>(words(&["run", "x"]), &state);
    assert!(lines.is_empty());
    let run = match step {
        SimpleStep::Evaluate(word, run) => {
            assert_eq!(word_text(&word), "1");
            run
        }
        other => panic!("unexpected step {other:?}"),
    };
    let (lines, step) = run.on_word::<i32>(value("1"), &mut state);
    assert_eq!(lines, strings(&["+ A=1"]));
    let run = match step {
        SimpleStep::Evaluate(word, run) => {
            assert_eq!(word_text(&word), "2");
            run
        }
        other => panic!("unexpected step {other:?}"),
    };
    let assigned = WordResult { value: "2".to_string(), changes: vec![set("c", "3")] };
    let (lines, step) = run.on_word::<i32>(Ok(assigned), &mut state);
    assert_eq!(lines, strings(&["+ B=2", "+ run x"]));
    assert_eq!(state.get_var("A").unwrap(), "1");
    assert_eq!(state.get_var("B").unwrap(), "2");
    match step {
        SimpleStep::Run(args, rest) => {
            assert_eq!(args, strings(&["run", "x"]));
            let result = rest.on_result(go_on(0, vec![set("d", "4")], vec![1]));
            assert_eq!(parts(result), (false, 0, vec![set("c", "3"), set("d", "4")], vec![1]));
        }
        other => panic!("unexpected step {other:?}"),
    }
}

#[test]
fn simple_commands_fail_on_words() {
    let mut state = state();
    let command = || Rc::new(SimpleCommand {
        env_vars: vec![EnvVar { name: "A".to_string(), value: word("1") }],
        args: Rc::new(Vec::new()),
    });
    let (_, start) = execute_simple_command(command());
    let (lines, step) = start.on_args::<i32>(no_files("*"), &state);
    assert!(lines.is_empty());
    assert!(matches!(step, SimpleStep::Done(f) if f.error_line.is_some()));
    let (_, start) = execute_simple_command(command());
    let run = match start.on_args::<i32>(words(&["x"]), &state) {
        (_, SimpleStep::Evaluate(_, run)) => run,
        other => panic!("unexpected step {other:?}"),
    };
    let (_, step) = run.on_word::<i32>(no_files("*"), &mut state);
    assert!(matches!(step, SimpleStep::Done(f) if f.error_line.is_some()));
    assert!(state.get_var("A").is_none());
}

#[test]
fn aliases_replace_the_name() {
    let mut state = state();
    state.apply_change(&EnvChange::AliasCommand("ll".to_string(), strings(&["ls", "-l"])));
    state.apply_change(&EnvChange::AliasCommand("ls".to_string(), strings(&["other"])));
    assert_eq!(expand_alias(strings(&["ll", "ll"]), &state), strings(&["ls", "-l", "ll"]));
    assert_eq!(expand_alias(strings(&["x", "ll"]), &state), strings(&["x", "ll"]));
    assert_eq!(expand_alias(Vec::new(), &state), strings(&[]));
    match execute_command_args::<i32>(strings(&["ll", "d"]), &state, false) {
        CommandCall::Call(name, args) => {
            assert_eq!(name, "ls");
            assert_eq!(args, strings(&["-l", "d"]));
        }
        other => panic!("unexpected call {other:?}"),
    }
    match execute_command_args::<i32>(Vec::new(), &state, false) {
        CommandCall::Call(name, args) => {
            assert_eq!(name, "");
            assert!(args.is_empty());
        }
        other => panic!("unexpected call {other:?}"),
    }
}

#[test]
fn history_is_not_expanded() {
    match execute_command_args::<i32>(strings(&["!!", "x"]), &state(), false) {
        CommandCall::Done(finished) => {
            assert_eq!(
                finished.error_line.as_deref(),
                Some("History expansion is not supported:\n  !!\n  ~\n\nPerhaps you meant to add a space after the exclamation point to negate the command?\n  ! !")
            );
            assert_eq!(parts(finished.result), (false, 1, Vec::new(), Vec::new()));
        }
        other => panic!("unexpected call {other:?}"),
    }
}

#[test]
fn cancelled_shell_calls_nothing() {
    match execute_command_args::<i32>(strings(&["x"]), &state(), true) {
        CommandCall::Done(finished) => {
            assert_eq!(plain(finished), (true, CANCELLATION_EXIT_CODE, Vec::new(), Vec::new()));
        }
        other => panic!("unexpected call {other:?}"),
    }
}
