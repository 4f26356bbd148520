use std::rc::Rc;
use task_shell::modifier::{ModifierStep, PendingModifier};
use task_shell::state::ShellState;
use task_shell::syntax::{VariableModifier, Word, WordPart};
use task_shell::types::EnvChange;
use task_shell::words::{EvaluateWordTextError, Modified, Report, WordResult};

fn state() -> ShellState {
    ShellState::new(
        vec![("name".to_string(), "häuser".to_string()), ("empty".to_string(), String::new())],
        "/".to_string(),
        false,
        false,
    )
}

fn word(s: &str) -> Word {
    Word { parts: Rc::new(vec![WordPart::Text(s.to_string())]) }
}

fn value(s: &str) -> Result<WordResult, EvaluateWordTextError> {
    Ok(WordResult { value: s.to_string(), changes: Vec::new() })
}

fn text(modified: Modified) -> String {
    modified.text.into_parts().iter().map(|p| p.as_str().to_string()).collect()
}

fn finished(step: ModifierStep) -> Result<Modified, Report> {
    match step {
        ModifierStep::Done(outcome) => outcome,
        other => panic!("unexpected step {other:?}"),
    }
}

fn pending(step: ModifierStep) -> PendingModifier {
    match step {
        ModifierStep::Evaluate(_, pending) => pending,
        other => panic!("unexpected step {other:?}"),
    }
}

fn part(begin: &str, length: Option<&str>) -> Result<String, Report> {
    let mut state = state();
    let modifier =
        VariableModifier::Substring { begin: word(begin), length: length.map(word) };
    let step = pending(modifier.apply("name", &state)).on_word(value(begin), &mut state);
    let step = match length {
        Some(length) if matches!(step, ModifierStep::Evaluate(..)) => {
            pending(step).on_word(value(length), &mut state)
        }
        _ => step,
    };
    finished(step).map(text)
}

#[test]
fn set_variable_needs_no_default() {
    let state = state();
    let default = VariableModifier::DefaultValue(word("d"));
    assert_eq!(text(finished(default.apply("name", &state)).unwrap()), "häuser");
    assert_eq!(text(finished(default.apply("empty", &state)).unwrap()), "");
    let assign = VariableModifier::AssignDefault(word("d"));
    let modified = finished(assign.apply("name", &state)).unwrap();
    assert!(modified.changes.is_none());
    assert_eq!(text(modified), "häuser");
}

#[test]
fn default_stands_for_an_unset_variable() {
    let mut state = state();
    let default = VariableModifier::DefaultValue(word("d"));
    let step = pending(default.apply("unset", &state)).on_word(value("d"), &mut state);
    assert_eq!(text(finished(step).unwrap()), "d");
    assert!(state.get_var("unset").is_none());
}

#[test]
fn assigned_default_reads_back() {
    let mut state = state();
    let assign = VariableModifier::AssignDefault(word("d"));
    let step = pending(assign.apply("unset", &state)).on_word(value("d"), &mut state);
    let modified = finished(step).unwrap();
    let expected = EnvChange::SetShellVar("unset".to_string(), "d".to_string());
    assert!(modified.changes.as_ref().unwrap().contains(&expected));
    assert_eq!(text(modified), "d");
    assert_eq!(state.get_var("unset").unwrap(), "d");
    assert_eq!(text(finished(assign.apply("unset", &state)).unwrap()), "d");
}

#[test]
fn alternate_stands_for_a_set_variable() {
    let mut state = state();
    let alternate = VariableModifier::AlternateValue(word("alt"));
    let step = pending(alternate.apply("name", &state)).on_word(value("alt"), &mut state);
    assert_eq!(text(finished(step).unwrap()), "alt");
    assert_eq!(text(finished(alternate.apply("empty", &state)).unwrap()), "");
    assert_eq!(text(finished(alternate.apply("unset", &state)).unwrap()), "");
}

#[test]
fn parts_are_cut_from_the_text() {
    assert_eq!(part("0", Some("2")).unwrap(), "hä");
    assert_eq!(part("2", None).unwrap(), "user");
    assert_eq!(part("1", Some("3")).unwrap(), "äus");
    assert_eq!(part("6", None).unwrap(), "");
    assert_eq!(part("-2", None).unwrap(), "er");
    assert_eq!(part("4", None).unwrap(), "er");
    for at in 0..=6 {
        let at = at.to_string();
        let whole = part("0", Some(&at)).unwrap() + &part(&at, None).unwrap();
        assert_eq!(whole, "häuser");
    }
}

#[test]
fn only_some_expansions_are_split() {
    let mut state =
        ShellState::new(vec![("v".to_string(), "a b".to_string())], "/".to_string(), false, false);
    let pieces = |step: ModifierStep| finished(step).unwrap().text.into_parts().len();
    let default = VariableModifier::DefaultValue(word("d"));
    assert_eq!(pieces(default.apply("v", &state)), 1);
    assert_eq!(pieces(VariableModifier::AssignDefault(word("d")).apply("v", &state)), 2);
    let alternate = VariableModifier::AlternateValue(word("d"));
    assert_eq!(pieces(alternate.apply("unset", &state)), 0);
    let step = pending(alternate.apply("v", &state)).on_word(value("p q r"), &mut state);
    assert_eq!(pieces(step), 3);
    let step = pending(default.apply("unset", &state)).on_word(value("p q"), &mut state);
    assert_eq!(pieces(step), 2);
}

#[test]
fn parts_need_numbers() {
    assert!(matches!(part("x", None), Err(Report::InvalidIndex(s)) if s == "x"));
    assert!(matches!(part("0", Some("y")), Err(Report::InvalidIndex(s)) if s == "y"));
    let modifier = VariableModifier::Substring { begin: word("0"), length: None };
    assert!(matches!(
        finished(modifier.apply("unset", &state())),
        Err(Report::UndefinedVariable(name)) if name == "unset"
    ));
}

#[test]
fn words_without_a_value_end_the_expansion() {
    let mut state = state();
    let default = VariableModifier::DefaultValue(word("x*"));
    let error = EvaluateWordTextError::NoFilesMatched { pattern: "x*".to_string() };
    let step = pending(default.apply("unset", &state)).on_word(Err(error), &mut state);
    assert!(matches!(finished(step), Err(Report::Word(_))));
}
