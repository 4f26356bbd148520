use std::rc::Rc;
use task_shell::args::{evaluate_args, evaluate_word, evaluate_word_no_glob, single_word, ArgsStep};
use task_shell::arithmetic::ArithmeticError;
use task_shell::expand::{
    evaluate_quoted_parts, evaluate_word_parts, evaluate_word_text, substitution_text, FilePattern,
    GlobMatch, WordStep, WordText,
};
use task_shell::list::AsyncCommandBehavior;
use task_shell::pattern::PatternError;
use task_shell::state::ShellState;
use task_shell::syntax::{
    Arithmetic, ArithmeticPart, SequentialList, TildePrefix, VariableModifier, Word, WordPart,
};
use task_shell::types::{EnvChange, ExecuteResult};
use task_shell::word_run::RunStep;
use task_shell::words::{
    EvaluateGlob, EvaluateWordTextError, IsQuoted, Modified, Report, Text, TextPart,
    WordPartsResult,
};

fn state() -> ShellState {
    ShellState::new(
        vec![("name".to_string(), "a b".to_string()), ("stars".to_string(), "*.rs".to_string())],
        "/work".to_string(),
        false,
        false,
    )
}

fn word(parts: Vec<WordPart>) -> Word {
    Word { parts: Rc::new(parts) }
}

fn text(s: &str) -> WordPart {
    WordPart::Text(s.to_string())
}

fn quoted(parts: Vec<WordPart>) -> WordPart {
    WordPart::Quoted(Rc::new(parts))
}

fn done(step: RunStep) -> Result<Vec<String>, String> {
    match step {
        RunStep::Done(Ok(words)) => Ok(words.value),
        RunStep::Done(Err(e)) => Err(e.message()),
        other => panic!("unexpected step {other:?}"),
    }
}

fn strings(words: &[&str]) -> Vec<String> {
    words.iter().map(|w| w.to_string()).collect()
}

#[test]
fn literal_word_is_itself() {
    let mut state = state();
    let step = evaluate_word(word(vec![text("ab"), text("c")]), &mut state);
    assert_eq!(done(step), Ok(strings(&["abc"])));
    let step = evaluate_word(word(vec![]), &mut state);
    assert_eq!(done(step), Ok(strings(&[])));
}

#[test]
fn variables_expand() {
    let mut state = state();
    let unset = word(vec![WordPart::Variable("unset".to_string(), None)]);
    assert_eq!(done(evaluate_word(unset, &mut state)), Ok(strings(&[])));
    let set = word(vec![WordPart::Variable("name".to_string(), None)]);
    assert_eq!(done(evaluate_word_no_glob(set, &mut state)), Ok(strings(&["a b"])));
}

#[test]
fn exit_status_expands() {
    let mut state = state();
    state.set_shell_var("?", "42");
    let step = evaluate_word(word(vec![WordPart::ExitStatus]), &mut state);
    assert_eq!(done(step), Ok(strings(&["42"])));
}

#[test]
fn arithmetic_expands() {
    let mut state = state();
    let arithmetic = |number: &str| {
        word(vec![WordPart::Arithmetic(Rc::new(Arithmetic {
            parts: vec![ArithmeticPart::Number(number.to_string())],
        }))])
    };
    assert_eq!(done(evaluate_word(arithmetic("12"), &mut state)), Ok(strings(&["12"])));
    assert_eq!(
        done(evaluate_word(arithmetic("x"), &mut state)),
        Err("Failed to get home directory".to_string())
    );
}

#[test]
fn patterns_search_for_files() {
    let mut state = state();
    let (pattern, rest) = match evaluate_word(word(vec![text("*.rs")]), &mut state) {
        RunStep::Search(pattern, rest) => (pattern, rest),
        other => panic!("unexpected step {other:?}"),
    };
    assert_eq!(pattern.text, "*.rs");
    assert_eq!(pattern.cwd, "/work");
    let request = pattern.request(false);
    assert_eq!(request.pattern, "/work/*.rs");
    assert!(!request.is_absolute);
    assert!(!request.options.case_sensitive);
    assert!(request.options.require_literal_separator);
    assert!(request.options.require_literal_leading_dot);
    let found = vec![
        GlobMatch { full: "/work/a.rs".to_string(), relative: Some("a.rs".to_string()) },
        GlobMatch { full: "/work/b.rs".to_string(), relative: Some("b.rs".to_string()) },
    ];
    let step = rest.on_search(request, Ok(found), &mut state);
    assert_eq!(done(step), Ok(strings(&["a.rs", "b.rs"])));
}

#[test]
fn absolute_patterns_give_whole_paths() {
    let mut state = state();
    let (pattern, rest) = match evaluate_word(word(vec![text("/etc/h*")]), &mut state) {
        RunStep::Search(pattern, rest) => (pattern, rest),
        other => panic!("unexpected step {other:?}"),
    };
    let request = pattern.request(true);
    assert_eq!(request.pattern, "/etc/h*");
    assert!(request.is_absolute);
    let found = vec![GlobMatch { full: "/etc/hosts".to_string(), relative: None }];
    let step = rest.on_search(request, Ok(found), &mut state);
    assert_eq!(done(step), Ok(strings(&["/etc/hosts"])));
}

#[test]
fn searches_fail() {
    let mut state = state();
    let search = |state: &mut ShellState| match evaluate_word(word(vec![text("x*")]), state) {
        RunStep::Search(pattern, rest) => (pattern.request(false), rest),
        other => panic!("unexpected step {other:?}"),
    };
    let (request, rest) = search(&mut state);
    assert_eq!(
        done(rest.on_search(request, Ok(Vec::new()), &mut state)),
        Err("glob: no matches found '/work/x*'".to_string())
    );
    let (request, rest) = search(&mut state);
    let error = PatternError { pos: 7, msg: "bad".to_string() };
    assert_eq!(
        done(rest.on_search(request, Err(error), &mut state)),
        Err(
            "glob: no matches found '/work/x*'. Pattern syntax error near position 7: bad"
                .to_string()
        )
    );
}

#[test]
fn quoted_patterns_are_no_search() {
    let mut state = state();
    let step = evaluate_word(word(vec![quoted(vec![text("*.rs")])]), &mut state);
    assert_eq!(done(step), Ok(strings(&["*.rs"])));
    let step = evaluate_word_no_glob(word(vec![text("*.rs")]), &mut state);
    assert_eq!(done(step), Ok(strings(&["*.rs"])));
}

#[test]
fn quoted_parts_join_their_words() {
    let mut state = state();
    let parts = Rc::new(vec![quoted(vec![text("x")]), text("y")]);
    let (inner, rest) =
        match evaluate_word_parts(parts, &mut state, EvaluateGlob::Disabled) {
            WordStep::Quoted(inner, rest) => (inner, rest),
            other => panic!("unexpected step {other:?}"),
        };
    assert_eq!(rest.eval_glob(), EvaluateGlob::Disabled);
    assert!(matches!(
        evaluate_quoted_parts(inner, &mut state, EvaluateGlob::Disabled),
        WordStep::Done(Ok(words)) if words.value == strings(&["x"])
    ));
    let words = WordPartsResult::new(strings(&["a", "b"]), Vec::new());
    match rest.on_quoted(Ok(words), &mut state) {
        WordStep::Done(Ok(words)) => assert_eq!(words.value, strings(&["a by"])),
        other => panic!("unexpected step {other:?}"),
    }
}

#[test]
fn quoted_pieces_are_escaped_in_patterns() {
    let parts = vec![
        TextPart::Quoted("[x]?".to_string()),
        TextPart::Text("*".to_string()),
    ];
    match evaluate_word_text(&parts, IsQuoted::No, EvaluateGlob::Enabled, "/w") {
        WordText::Search(pattern) => {
            assert_eq!(pattern.text, "[[]x[]][?]*");
            assert_eq!(pattern.cwd, "/w");
        }
        WordText::Plain(word) => panic!("no search: {word}"),
    }
    match evaluate_word_text(&parts, IsQuoted::Yes, EvaluateGlob::Enabled, "/w") {
        WordText::Plain(word) => assert_eq!(word, "[x]?*"),
        WordText::Search(request) => panic!("search: {request:?}"),
    }
}

#[test]
fn tilde_expands_to_the_home_directory() {
    let mut state = state();
    let tilde = || word(vec![WordPart::Tilde(TildePrefix { user: None }), text("/x")]);
    let home = |step: RunStep| match step {
        RunStep::Home(rest) => rest,
        other => panic!("unexpected step {other:?}"),
    };
    let rest = home(evaluate_word(tilde(), &mut state));
    let step = rest.on_home(Some("/home/me".to_string()), &mut state);
    assert_eq!(done(step), Ok(strings(&["/home/me/x"])));
    let rest = home(evaluate_word(tilde(), &mut state));
    let step = rest.on_home(None, &mut state);
    assert_eq!(done(step), Err("Failed to get home directory".to_string()));
}

fn substitution(parts: Vec<WordPart>, output: &str) -> Result<Vec<String>, String> {
    let mut state = state();
    match evaluate_word(word(parts), &mut state) {
        RunStep::Substitution(list, AsyncCommandBehavior::Wait, run) => {
            assert!(list.items.is_empty());
            done(run.on_output(output, &mut state))
        }
        other => panic!("unexpected step {other:?}"),
    }
}

fn commands() -> WordPart {
    WordPart::Command(Rc::new(SequentialList { items: Vec::new() }))
}

#[test]
fn substitutions_split_into_words() {
    assert_eq!(substitution(vec![commands()], "1\n\n2\n\n"), Ok(strings(&["1", "2"])));
    assert_eq!(substitution(vec![commands()], "a b  c\n"), Ok(strings(&["a", "b", "c"])));
    assert_eq!(substitution(vec![commands()], " \n"), Ok(strings(&[])));
    assert_eq!(
        substitution(vec![text("<"), commands(), text(">")], "one\n"),
        Ok(strings(&["<one>"]))
    );
    assert_eq!(
        substitution(vec![text("<"), commands(), text(">")], "a b c\n"),
        Ok(strings(&["<a", "b", "c>"]))
    );
}

#[test]
fn output_bytes_are_read_as_text() {
    let words = |output: &[u8]| {
        let mut state = state();
        match evaluate_word(word(vec![commands()]), &mut state) {
            RunStep::Substitution(_, _, run) => {
                done(run.on_output_bytes(&output.to_vec(), &mut state))
            }
            other => panic!("unexpected step {other:?}"),
        }
    };
    assert_eq!(words("ä ü\n".as_bytes()), Ok(strings(&["ä", "ü"])));
    assert_eq!(words(b"a\xffb c\n"), Ok(strings(&["a\u{fffd}b", "c"])));
}

#[test]
fn paths_decide_how_files_are_found() {
    let pattern = |text: &str| FilePattern { text: text.to_string(), cwd: "/work".to_string() };
    for text in ["*.rs", "/etc/h*", "a/b*"] {
        let request = pattern(text).into_request();
        assert_eq!(request.is_absolute, std::path::Path::new(text).is_absolute());
        assert_eq!(request.pattern, pattern(text).request(request.is_absolute).pattern);
    }
    for text in ["*.rs", "a/b*", "?", ""] {
        let request = pattern(text).into_request();
        assert!(!request.is_absolute);
        assert_eq!(request.pattern, format!("/work/{text}"));
    }
}

#[test]
fn quoted_substitutions_are_one_word() {
    let parts = || vec![quoted(vec![text("<"), commands(), text(">")])];
    assert_eq!(substitution(parts(), "a b  c\n"), Ok(strings(&["<a b c>"])));
    assert_eq!(substitution(vec![quoted(vec![commands()])], "\n"), Ok(strings(&[""])));
}

#[test]
fn expanded_texts_hold_their_pieces() {
    let pieces = |s: &str| -> Vec<TextPart> { Text::from_string(s.to_string()).into_parts() };
    assert_eq!(
        pieces(" a  bc "),
        vec![TextPart::Text("a".to_string()), TextPart::Text("bc".to_string())]
    );
    assert_eq!(pieces("  "), Vec::new());
    assert_eq!(pieces("a\tb"), vec![TextPart::Text("a\tb".to_string())]);
    for s in ["", "one", " x y  z ", "  "] {
        let joined: String = pieces(s).iter().map(|p| p.as_str().to_string()).collect();
        assert_eq!(joined, s.replace(' ', ""));
    }
    assert_eq!(
        Text::whole("a b".to_string()).into_parts(),
        vec![TextPart::Text("a b".to_string())]
    );
}

#[test]
fn texts_of_several_pieces_make_words() {
    let mut state = state();
    let modifier = Rc::new(VariableModifier::DefaultValue(word(vec![text("d")])));
    let parts = Rc::new(vec![
        text("x"),
        WordPart::Variable("unset".to_string(), Some(modifier)),
        text("y"),
    ]);
    let rest = match evaluate_word_parts(parts, &mut state, EvaluateGlob::Disabled) {
        WordStep::Modifier(_, _, rest) => rest,
        other => panic!("unexpected step {other:?}"),
    };
    let pieces = vec![
        TextPart::Text("1".to_string()),
        TextPart::Quoted("2 3".to_string()),
        TextPart::Text("4".to_string()),
    ];
    let modified = Modified { text: Text::new(pieces), changes: None };
    match rest.on_modifier(Ok(modified), &mut state) {
        WordStep::Done(Ok(words)) => assert_eq!(words.value, strings(&["x1", "2 3", "4y"])),
        other => panic!("unexpected step {other:?}"),
    }
}

#[test]
fn substitution_is_one_line() {
    assert_eq!(substitution_text("a\nb\n"), "a b");
    assert_eq!(substitution_text("a\r\nb\r\n"), "a b");
    assert_eq!(substitution_text("a\n\n"), "a ");
    assert_eq!(substitution_text("one line"), "one line");
    assert_eq!(substitution_text(""), "");
}

fn with_modifier(name: &str, modifier: VariableModifier) -> WordPart {
    WordPart::Variable(name.to_string(), Some(Rc::new(modifier)))
}

#[test]
fn modifiers_expand_in_words() {
    let mut state = state();
    let assign = VariableModifier::AssignDefault(word(vec![text("d e")]));
    let parts = vec![with_modifier("unset", assign), text("!")];
    match evaluate_word(word(parts), &mut state) {
        RunStep::Done(Ok(words)) => {
            assert_eq!(words.value, strings(&["d", "e!"]));
            assert_eq!(
                words.changes,
                vec![EnvChange::SetShellVar("unset".to_string(), "d e".to_string())]
            );
        }
        other => panic!("unexpected step {other:?}"),
    }
    assert_eq!(state.get_var("unset").unwrap(), "d e");
}

#[test]
fn modifiers_split_or_keep_whole() {
    let mut state = state();
    let word_of = |modifier: VariableModifier, name: &str| word(vec![with_modifier(name, modifier)]);
    let default = || VariableModifier::DefaultValue(word(vec![text("p q")]));
    let alternate = || VariableModifier::AlternateValue(word(vec![text("p q")]));
    let assign = || VariableModifier::AssignDefault(word(vec![text("p q")]));
    let part = || VariableModifier::Substring { begin: word(vec![text("0")]), length: None };
    assert_eq!(
        done(evaluate_word(word_of(default(), "name"), &mut state)),
        Ok(strings(&["a b"]))
    );
    assert_eq!(
        done(evaluate_word(word_of(default(), "unset"), &mut state)),
        Ok(strings(&["p", "q"]))
    );
    assert_eq!(
        done(evaluate_word(word_of(assign(), "name"), &mut state)),
        Ok(strings(&["a", "b"]))
    );
    assert_eq!(
        done(evaluate_word(word_of(alternate(), "name"), &mut state)),
        Ok(strings(&["p", "q"]))
    );
    assert_eq!(
        done(evaluate_word(word_of(alternate(), "unset"), &mut state)),
        Ok(strings(&[]))
    );
    assert_eq!(
        done(evaluate_word(word_of(part(), "name"), &mut state)),
        Ok(strings(&["a b"]))
    );
    let between_quotes = word(vec![quoted(vec![with_modifier("unset", default())])]);
    assert_eq!(done(evaluate_word(between_quotes, &mut state)), Ok(strings(&["p q"])));
}

#[test]
fn nested_words_evaluate() {
    let mut state = state();
    let inner = VariableModifier::DefaultValue(word(vec![quoted(vec![text("in ner")])]));
    let outer = VariableModifier::DefaultValue(word(vec![with_modifier("unset", inner)]));
    let nested = word(vec![quoted(vec![text("<"), with_modifier("unset", outer), text(">")])]);
    assert_eq!(done(evaluate_word(nested, &mut state)), Ok(strings(&["<in ner>"])));
    let part = VariableModifier::Substring {
        begin: word(vec![text("1")]),
        length: Some(word(vec![with_modifier(
            "unset",
            VariableModifier::DefaultValue(word(vec![text("2")])),
        )])),
    };
    assert_eq!(
        done(evaluate_word(word(vec![with_modifier("stars", part)]), &mut state)),
        Ok(strings(&[".r"]))
    );
    let missing = VariableModifier::Substring { begin: word(vec![text("0")]), length: None };
    assert_eq!(
        done(evaluate_word(word(vec![with_modifier("unset", missing)]), &mut state)),
        Err("Failed to get home directory".to_string())
    );
}

#[test]
fn nested_substitutions_go_on() {
    let mut state = state();
    let default = VariableModifier::DefaultValue(word(vec![commands()]));
    let parts = vec![quoted(vec![text("<"), with_modifier("unset", default), text(">")])];
    match evaluate_word(word(parts), &mut state) {
        RunStep::Substitution(_, AsyncCommandBehavior::Wait, run) => {
            assert_eq!(done(run.on_output("a\nb\n", &mut state)), Ok(strings(&["<a b>"])));
        }
        other => panic!("unexpected step {other:?}"),
    }
}

#[test]
fn reports_have_texts() {
    assert_eq!(Report::NoHomeDirectory.message(), "Failed to get home directory");
    assert_eq!(Report::UndefinedVariable("v".to_string()).message(), "Undefined variable: v");
    assert_eq!(
        Report::InvalidIndex("x".to_string()).message(),
        "Failed to parse start index: x"
    );
    assert_eq!(
        Report::IndexOutOfRange(i64::MIN).message(),
        "out of range integral type conversion attempted"
    );
    assert_eq!(Report::InvalidSubstringRange(3, 2).message(), "Invalid substring range: 3..2");
    assert_eq!(Report::Arithmetic(ArithmeticError::Overflow).message(), "Integer overflow");
    let error = EvaluateWordTextError::NoFilesMatched { pattern: "*".to_string() };
    assert_eq!(Report::Word(Box::new(error)).message(), "glob: no matches found '*'");
}

#[test]
fn arguments_are_evaluated_in_order() {
    let args = Rc::new(vec![word(vec![text("a")]), word(vec![text("b")])]);
    let step = evaluate_args(args);
    let (first, rest) = match step {
        ArgsStep::Evaluate(first, rest) => (first, rest),
        other => panic!("unexpected step {other:?}"),
    };
    assert!(matches!(&first.parts()[0], WordPart::Text(s) if s == "a"));
    let change = EnvChange::SetShellVar("v".to_string(), "1".to_string());
    let words = WordPartsResult::new(strings(&["x", "y"]), vec![change.clone()]);
    let (second, rest) = match rest.on_words(Ok(words)) {
        ArgsStep::Evaluate(second, rest) => (second, rest),
        other => panic!("unexpected step {other:?}"),
    };
    assert!(matches!(&second.parts()[0], WordPart::Text(s) if s == "b"));
    match rest.on_words(Ok(WordPartsResult::new(strings(&["z"]), Vec::new()))) {
        ArgsStep::Done(Ok(words)) => {
            assert_eq!(words.value, strings(&["x", "y", "z"]));
            assert_eq!(words.changes, vec![change]);
        }
        other => panic!("unexpected step {other:?}"),
    }
}

#[test]
fn bad_argument_ends_the_evaluation() {
    let args = Rc::new(vec![word(vec![text("a")]), word(vec![text("b")])]);
    let rest = match evaluate_args(args) {
        ArgsStep::Evaluate(_, rest) => rest,
        other => panic!("unexpected step {other:?}"),
    };
    let error = EvaluateWordTextError::NoFilesMatched { pattern: "p*".to_string() };
    match rest.on_words(Err(error)) {
        ArgsStep::Done(Err(e)) => assert_eq!(e.message(), "glob: no matches found 'p*'"),
        other => panic!("unexpected step {other:?}"),
    }
    assert!(matches!(evaluate_args(Rc::new(Vec::new())), ArgsStep::Done(Ok(w)) if w.value.is_empty()));
}

#[test]
fn words_join_to_one() {
    let parts = WordPartsResult::new(strings(&["a", "b"]), Vec::new());
    assert_eq!(single_word(Ok(parts)).unwrap().value, "a b");
    let error = EvaluateWordTextError::from(Report::NoHomeDirectory);
    let error = single_word(Err(error)).unwrap_err();
    let (line, result): (String, ExecuteResult<i32>) = error.into_exit_code();
    assert_eq!(line, "Failed to get home directory");
    assert!(matches!(result, ExecuteResult::Continue(1, changes, handles)
        if changes.is_empty() && handles.is_empty()));
}
