//! Whole scripts, run by a small shell without tasks: a command in the background runs at once,
//! and its handle is its exit code.

use std::rc::Rc;
use task_shell::args::{evaluate_args, evaluate_word, evaluate_word_no_glob, single_word, ArgsStep};
use task_shell::branches::{
    execute_case_clause, execute_if_clause, finish_case, CaseStep, IfStep,
};
use task_shell::command::{
    execute_command, execute_command_args, execute_simple_command, run_command, CommandCall,
    CommandRun, SimpleStep,
};
use task_shell::condition::{evaluate_condition, ConditionStep, ConditionalResult};
use task_shell::list::{execute_sequential_list, AsyncCommandBehavior, ListStep};
use task_shell::loops::{execute_for_clause, execute_while_clause, ForStep, WhileStep};
use task_shell::run::{task_ended, Finished};
use task_shell::sequence::{
    execute_pipe_sequence, execute_pipeline, execute_sequence, BooleanStep, PipelineStep,
    SequenceStep,
};
use task_shell::set::SetCommand;
use task_shell::state::ShellState;
use task_shell::syntax::{
    Arithmetic, ArithmeticPart, AssignmentOp, BinaryOp, BooleanList, BooleanListOperator,
    CaseClause, Command, CommandInner, Condition, ConditionInner, EnvVar, ForLoop, IfClause,
    PipeSequence, PipeSequenceOperator, Pipeline, PipelineInner, Sequence, SequentialList,
    SequentialListItem, SimpleCommand, VariableModifier, WhileLoop, Word, WordPart,
};
use task_shell::types::{EnvChange, ExecuteResult};
use task_shell::word_run::RunStep;
use task_shell::words::{EvaluateGlob, EvaluateWordTextError, WordPartsResult, WordResult};

type Outcome = ExecuteResult<i32>;

// ---------------------------------------------------------------------------
// The shell

struct Shell {
    output: Vec<String>,
    errors: Vec<String>,
}

impl Shell {
    fn parts(
        &mut self,
        step: RunStep,
        state: &mut ShellState,
    ) -> Result<WordPartsResult, EvaluateWordTextError> {
        let mut step = step;
        loop {
            step = match step {
                RunStep::Substitution(list, behavior, run) => {
                    let mut inner = Shell { output: Vec::new(), errors: Vec::new() };
                    inner.list(list, &mut state.clone(), behavior);
                    self.errors.append(&mut inner.errors);
                    run.on_output(&(inner.output.join("\n") + "\n"), state)
                }
                RunStep::Home(run) => run.on_home(Some("/home/me".to_string()), state),
                RunStep::Search(pattern, run) => {
                    let is_absolute = pattern.text.starts_with('/');
                    run.on_search(pattern.request(is_absolute), Ok(Vec::new()), state)
                }
                RunStep::Done(outcome) => return outcome,
            };
        }
    }

    fn single(
        &mut self,
        word: Word,
        eval_glob: EvaluateGlob,
        state: &mut ShellState,
    ) -> Result<WordResult, EvaluateWordTextError> {
        let step = match eval_glob {
            EvaluateGlob::Enabled => evaluate_word(word, state),
            EvaluateGlob::Disabled => evaluate_word_no_glob(word, state),
        };
        single_word(self.parts(step, state))
    }

    fn args(
        &mut self,
        args: Rc<Vec<Word>>,
        state: &mut ShellState,
    ) -> Result<WordPartsResult, EvaluateWordTextError> {
        let mut step = evaluate_args(args);
        loop {
            step = match step {
                ArgsStep::Evaluate(word, rest) => {
                    let inner = evaluate_word(word, state);
                    rest.on_words(self.parts(inner, state))
                }
                ArgsStep::Done(outcome) => return outcome,
            };
        }
    }

    fn condition(
        &mut self,
        condition: &Condition,
        state: &mut ShellState,
    ) -> Result<ConditionalResult, EvaluateWordTextError> {
        let mut step = evaluate_condition(condition);
        loop {
            step = match step {
                ConditionStep::Evaluate(word, eval_glob, rest) => {
                    let value = self.single(word, eval_glob, state);
                    rest.on_word(value, state)
                }
                ConditionStep::Decided(outcome) => return outcome,
                other => panic!("unexpected step {other:?}"),
            };
        }
    }

    fn finish(&mut self, finished: Finished<i32>) -> Outcome {
        self.errors.extend(finished.error_line);
        finished.result
    }

    fn list(
        &mut self,
        list: Rc<SequentialList>,
        state: &mut ShellState,
        behavior: AsyncCommandBehavior,
    ) -> Outcome {
        let mut step = execute_sequential_list(list, behavior);
        loop {
            step = match step {
                ListStep::Spawn(sequence, run) => {
                    let code = self.sequence(&sequence, state.clone()).exit_code();
                    run.on_spawned(code)
                }
                ListStep::Run(sequence, run) => {
                    let result = self.sequence(&sequence, state.clone());
                    run.on_result(result, state)
                }
                ListStep::Wait(code, tasks, end) => {
                    return end.on_waited(tasks.iter().fold(code, |c, t| task_ended(c, *t)));
                }
                ListStep::Done(result) => return result,
            };
        }
    }

    fn body(
        &mut self,
        body: Rc<SequentialList>,
        behavior: AsyncCommandBehavior,
        state: &ShellState,
    ) -> Outcome {
        self.list(body, &mut state.clone(), behavior)
    }

    fn sequence(&mut self, sequence: &Sequence, mut state: ShellState) -> Outcome {
        match execute_sequence(sequence) {
            SequenceStep::Assign(word, assignment) => {
                let value = self.single(word, EvaluateGlob::Enabled, &mut state);
                let (trace, finished) = assignment.on_word(value, &state);
                self.output.extend(trace);
                self.finish(finished)
            }
            SequenceStep::First(first, run) => {
                let result = self.sequence(&first, state.clone());
                match run.on_first(result, &mut state) {
                    BooleanStep::Next(next, rest) => rest.on_next(self.sequence(&next, state)),
                    BooleanStep::Done(result) => result,
                }
            }
            SequenceStep::Pipeline(step, negated) => {
                let result = match step {
                    PipelineStep::Command(command) => self.command(&command, state),
                    PipelineStep::Pipes(stages) => execute_pipe_sequence(
                        stages.iter().map(|s| self.command(&s.command, state.clone())).collect(),
                    ),
                };
                execute_pipeline(negated, result)
            }
        }
    }

    fn command(&mut self, command: &Command, mut state: ShellState) -> Outcome {
        assert!(execute_command::<i32>(command).is_none());
        match run_command(&command.inner, Vec::new(), &mut state) {
            CommandRun::Simple(command) => self.simple(command, state),
            CommandRun::Subshell(list, behavior, run) => {
                run.on_result(self.list(list, &mut state, behavior))
            }
            CommandRun::If(clause) => {
                let mut step = execute_if_clause(clause);
                loop {
                    step = match step {
                        IfStep::Condition(asked, run) => {
                            run.on_condition(self.condition(&asked, &mut state))
                        }
                        IfStep::Body(body, behavior, run) => {
                            return run.on_body(self.body(body, behavior, &state));
                        }
                        IfStep::Done(finished) => return self.finish(finished),
                    };
                }
            }
            CommandRun::For(clause) => {
                let (words, start) = execute_for_clause(clause);
                let words = self.args(words, &mut state);
                let mut step = start.on_words(words, &mut state);
                loop {
                    step = match step {
                        ForStep::Body(body, behavior, run) => {
                            let result = self.body(body, behavior, &state);
                            run.on_body(result, &mut state)
                        }
                        ForStep::Done(finished) => return self.finish(finished),
                    };
                }
            }
            CommandRun::While(clause) => {
                let mut step = execute_while_clause(clause);
                loop {
                    step = match step {
                        WhileStep::Condition(asked, run) => {
                            let outcome = self.condition(&asked, &mut state);
                            run.on_condition(outcome, &mut state)
                        }
                        WhileStep::Body(body, behavior, run) => {
                            let result = self.body(body, behavior, &state);
                            run.on_body(result, &mut state)
                        }
                        WhileStep::Done(finished) => return self.finish(finished),
                    };
                }
            }
            CommandRun::Case(clause) => {
                let (word, start) = execute_case_clause(&clause);
                let value = self.single(word, EvaluateGlob::Enabled, &mut state);
                let mut step = start.on_word(value, &mut state);
                loop {
                    step = match step {
                        CaseStep::Pattern(pattern, run) => {
                            let value = self.single(pattern, EvaluateGlob::Enabled, &mut state);
                            run.on_pattern(value, &mut state)
                        }
                        CaseStep::Body(body, behavior) => {
                            let result = self.body(body, behavior, &state);
                            CaseStep::Done(finish_case(result, &mut state))
                        }
                        CaseStep::Done(finished) => return self.finish(finished),
                    };
                }
            }
            CommandRun::Done(finished) => self.finish(finished),
        }
    }

    fn simple(&mut self, command: Rc<SimpleCommand>, mut state: ShellState) -> Outcome {
        let (args, start) = execute_simple_command(command);
        let words = self.args(args, &mut state);
        let (mut lines, mut step) = start.on_args(words, &state);
        loop {
            self.output.append(&mut lines);
            (lines, step) = match step {
                SimpleStep::Evaluate(word, run) => {
                    let value = self.single(word, EvaluateGlob::Enabled, &mut state);
                    run.on_word(value, &mut state)
                }
                SimpleStep::Run(args, rest) => {
                    return rest.on_result(match execute_command_args(args, &state, false) {
                        CommandCall::Call(name, args) => self.builtin(&name, args),
                        CommandCall::Done(finished) => self.finish(finished),
                    });
                }
                SimpleStep::Done(finished) => return self.finish(finished),
            };
        }
    }

    fn builtin(&mut self, name: &str, args: Vec<String>) -> Outcome {
        match name {
            "echo" => {
                self.output.push(args.join(" "));
                ExecuteResult::from_exit_code(0)
            }
            "end" => ExecuteResult::from_exit_code(args[0].parse().unwrap()),
            "exit" => ExecuteResult::Exit(args[0].parse().unwrap(), Vec::new(), Vec::new()),
            "export" => ExecuteResult::Continue(
                0,
                vec![EnvChange::SetEnvVar(args[0].clone(), args[1].clone())],
                Vec::new(),
            ),
            "set" => {
                let finished = SetCommand.execute(args);
                self.finish(finished)
            }
            other => panic!("no command {other}"),
        }
    }
}

// ---------------------------------------------------------------------------
// Scripts

fn text(s: &str) -> WordPart {
    WordPart::Text(s.to_string())
}

fn var(name: &str) -> WordPart {
    WordPart::Variable(name.to_string(), None)
}

/// A word: `$name` is a variable, and everything else a text.
fn word(s: &str) -> Word {
    let part = match s.strip_prefix('$') {
        Some(name) => WordPart::Quoted(Rc::new(vec![var(name)])),
        None => text(s),
    };
    Word { parts: Rc::new(vec![part]) }
}

fn words(s: &str) -> Rc<Vec<Word>> {
    Rc::new(s.split_whitespace().map(word).collect())
}

fn command(inner: CommandInner) -> Command {
    Command { inner, redirect: None }
}

fn simple(s: &str) -> Command {
    command(CommandInner::Simple(Rc::new(SimpleCommand { env_vars: Vec::new(), args: words(s) })))
}

fn seq(command: Command) -> Sequence {
    Sequence::Pipeline(Pipeline {
        negated: false,
        inner: PipelineInner::Command(Rc::new(command)),
    })
}

fn run_of(s: &str) -> Sequence {
    seq(simple(s))
}

fn both(first: Sequence, op: BooleanListOperator, next: Sequence) -> Sequence {
    Sequence::BooleanList(BooleanList { current: Rc::new(first), op, next: Rc::new(next) })
}

fn assign(name: &str, value: &str) -> Sequence {
    Sequence::ShellVar(EnvVar { name: name.to_string(), value: word(value) })
}

fn list(sequences: Vec<Sequence>) -> Rc<SequentialList> {
    Rc::new(SequentialList {
        items: sequences
            .into_iter()
            .map(|s| SequentialListItem { is_async: false, sequence: Rc::new(s) })
            .collect(),
    })
}

fn compare(left: &str, op: BinaryOp, right: &str) -> Rc<Condition> {
    Rc::new(Condition {
        condition_inner: ConditionInner::Binary { left: word(left), op, right: word(right) },
    })
}

fn run(script: Rc<SequentialList>) -> (i32, Vec<String>, Vec<String>) {
    let mut shell = Shell { output: Vec::new(), errors: Vec::new() };
    let mut state = ShellState::new(Vec::new(), "/".to_string(), false, false);
    let result = shell.list(script, &mut state, AsyncCommandBehavior::Wait);
    (result.exit_code(), shell.output, shell.errors)
}

fn lines(list: &[&str]) -> Vec<String> {
    list.iter().map(|s| s.to_string()).collect()
}

#[test]
fn script_reads_what_it_assigned() {
    let script = list(vec![
        assign("a", "one"),
        run_of("echo $a"),
        run_of("end 4"),
        run_of("echo $?"),
    ]);
    assert_eq!(run(script), (0, lines(&["one", "4"]), lines(&[])));
}

#[test]
fn script_leaves_on_errors() {
    let script = |flag: &str| {
        list(vec![
            run_of(&format!("set {flag}")),
            run_of("end 3"),
            run_of("echo after"),
        ])
    };
    assert_eq!(run(script("-e")), (3, lines(&[]), lines(&[])));
    assert_eq!(run(script("+e")), (0, lines(&["after"]), lines(&[])));
    assert_eq!(
        run(script("-q")),
        (2, lines(&[]), lines(&["set: Unsupported argument: ShortFlag('q')"]))
    );
}

#[test]
fn script_traces_commands() {
    let script = list(vec![run_of("set -x"), assign("a", "1"), run_of("echo $a b")]);
    assert_eq!(run(script), (0, lines(&["+ a=1", "+ echo 1 b", "1 b"]), lines(&[])));
}

#[test]
fn script_short_circuits() {
    let script = list(vec![
        both(
            run_of("end 1"),
            BooleanListOperator::And,
            both(run_of("echo no"), BooleanListOperator::Or, run_of("echo yes")),
        ),
        both(run_of("exit 7"), BooleanListOperator::Or, run_of("echo no")),
        run_of("echo no"),
    ]);
    assert_eq!(run(script), (7, lines(&["yes"]), lines(&[])));
}

#[test]
fn script_loops() {
    let body = list(vec![run_of("echo $i")]);
    let each = command(CommandInner::For(Rc::new(ForLoop {
        var_name: "i".to_string(),
        wordlist: words("x y"),
        body: body.clone(),
    })));
    let count = command(CommandInner::ArithmeticExpression(Rc::new(Arithmetic {
        parts: vec![ArithmeticPart::VariableAssignment {
            name: "i".to_string(),
            op: AssignmentOp::AddAssign,
            value: Box::new(ArithmeticPart::Number("1".to_string())),
        }],
    })));
    let counting = command(CommandInner::While(Rc::new(WhileLoop {
        condition: compare("$i", BinaryOp::GreaterThanOrEqual, "3"),
        body: list(vec![seq(count), run_of("echo $i")]),
        is_until: true,
    })));
    let script = list(vec![seq(each), assign("i", "1"), seq(counting)]);
    assert_eq!(run(script), (0, lines(&["x", "y", "2", "3"]), lines(&[])));
}

#[test]
fn script_branches() {
    let choose = |value: &str| {
        let clause = command(CommandInner::If(Rc::new(IfClause {
            condition: compare("$v", BinaryOp::Equal, "a*"),
            then_body: list(vec![run_of("echo a")]),
            else_part: None,
        })));
        let cases = command(CommandInner::Case(Rc::new(CaseClause {
            word: word("$v"),
            cases: vec![
                (vec![word("b|c")], list(vec![run_of("echo b-or-c")])),
                (vec![Word { parts: Rc::new(vec![WordPart::Quoted(Rc::new(vec![text("*")]))]) }],
                    list(vec![run_of("end 5")])),
            ],
        })));
        list(vec![assign("v", value), seq(clause), seq(cases)])
    };
    assert_eq!(run(choose("abc")), (5, lines(&["a"]), lines(&[])));
    assert_eq!(run(choose("c")), (0, lines(&["b-or-c"]), lines(&[])));
}

#[test]
fn script_subshell_keeps_to_itself() {
    let inner = list(vec![assign("a", "2"), run_of("echo $a"), run_of("exit 6")]);
    let script = list(vec![
        assign("a", "1"),
        seq(command(CommandInner::Subshell(inner))),
        run_of("echo $? $a"),
    ]);
    assert_eq!(run(script), (0, lines(&["2", "6 1"]), lines(&[])));
}

#[test]
fn script_negates_and_pipes() {
    let negated = Sequence::Pipeline(Pipeline {
        negated: true,
        inner: PipelineInner::PipeSequence(Rc::new(PipeSequence {
            current: Rc::new(simple("end 1")),
            op: PipeSequenceOperator::Stdout,
            next: PipelineInner::Command(Rc::new(simple("end 0"))),
        })),
    });
    assert_eq!(run(list(vec![negated])), (1, lines(&[]), lines(&[])));
}

#[test]
fn script_waits_for_tasks() {
    let items = ["end 0", "end 9", "end 8"];
    let script = Rc::new(SequentialList {
        items: items
            .iter()
            .map(|s| SequentialListItem { is_async: true, sequence: Rc::new(run_of(s)) })
            .collect(),
    });
    assert_eq!(run(script), (9, lines(&[]), lines(&[])));
}

#[test]
fn script_substitutes_output() {
    let output = WordPart::Command(list(vec![run_of("echo a"), run_of("echo b")]));
    let default = VariableModifier::AssignDefault(Word { parts: Rc::new(vec![output]) });
    let expanded = Word {
        parts: Rc::new(vec![
            text("<"),
            WordPart::Variable("v".to_string(), Some(Rc::new(default))),
            text(">"),
        ]),
    };
    let echo = command(CommandInner::Simple(Rc::new(SimpleCommand {
        env_vars: Vec::new(),
        args: Rc::new(vec![word("echo"), expanded]),
    })));
    let script = list(vec![seq(echo), run_of("echo $v")]);
    assert_eq!(run(script), (0, lines(&["<a b>", "a b"]), lines(&[])));
}

#[test]
fn script_splits_output_into_arguments() {
    let output = || WordPart::Command(list(vec![run_of("echo x"), run_of("echo y")]));
    let each = command(CommandInner::For(Rc::new(ForLoop {
        var_name: "i".to_string(),
        wordlist: Rc::new(vec![Word { parts: Rc::new(vec![output()]) }]),
        body: list(vec![run_of("echo $i")]),
    })));
    let quoted = Word { parts: Rc::new(vec![WordPart::Quoted(Rc::new(vec![output()]))]) };
    let once = command(CommandInner::For(Rc::new(ForLoop {
        var_name: "i".to_string(),
        wordlist: Rc::new(vec![quoted]),
        body: list(vec![run_of("echo $i")]),
    })));
    assert_eq!(run(list(vec![seq(each), seq(once)])), (0, lines(&["x", "y", "x y"]), lines(&[])));
}

#[test]
fn script_reads_exit_status() {
    let status = Word { parts: Rc::new(vec![WordPart::ExitStatus]) };
    let echo = || {
        let status = status.share();
        seq(command(CommandInner::Simple(Rc::new(SimpleCommand {
            env_vars: Vec::new(),
            args: Rc::new(vec![word("echo"), status]),
        }))))
    };
    let script = list(vec![echo(), run_of("end 7"), echo(), echo()]);
    assert_eq!(run(script), (0, lines(&["0", "7", "0"]), lines(&[])));
}

#[test]
fn script_variables_of_a_command_do_not_stay() {
    let with_variable = command(CommandInner::Simple(Rc::new(SimpleCommand {
        env_vars: vec![EnvVar { name: "a".to_string(), value: word("2") }],
        args: words("export b 3"),
    })));
    let script = list(vec![assign("a", "1"), seq(with_variable), run_of("echo $a $b")]);
    assert_eq!(run(script), (0, lines(&["1 3"]), lines(&[])));
}

#[test]
fn script_reports_words_without_files() {
    let script = list(vec![run_of("echo *.none"), run_of("echo on")]);
    assert_eq!(
        run(script),
        (0, lines(&["on"]), lines(&["glob: no matches found '//*.none'"]))
    );
}
