use std::rc::Rc;
use task_shell::condition::{
    check_permission, compare_words, equality_holds, evaluate_condition, on_answer, unary_test, ConditionStep,
    FileFacts, FilePermission, FileQuery, UnaryTest,
};
use task_shell::pattern::PatternError;
use task_shell::state::ShellState;
use task_shell::syntax::{BinaryOp, Condition, ConditionInner, UnaryOp, Word, WordPart};
use task_shell::types::EnvChange;
use task_shell::words::{EvaluateGlob, EvaluateWordTextError, WordResult};

fn state() -> ShellState {
    ShellState::new(
        vec![("set".to_string(), "1".to_string())],
        "/".to_string(),
        false,
        false,
    )
}

fn word(s: &str) -> Word {
    Word { parts: Rc::new(vec![WordPart::Text(s.to_string())]) }
}

fn quoted_word(s: &str) -> Word {
    let inner = Rc::new(vec![WordPart::Text(s.to_string())]);
    Word { parts: Rc::new(vec![WordPart::Quoted(inner)]) }
}

fn value(s: &str, changes: Vec<EnvChange>) -> Result<WordResult, EvaluateWordTextError> {
    Ok(WordResult { value: s.to_string(), changes })
}

fn binary(left: &str, op: BinaryOp, right: &str, quoted: bool, state: &mut ShellState) -> ConditionStep {
    let right_word = if quoted { quoted_word(right) } else { word(right) };
    let condition = Condition {
        condition_inner: ConditionInner::Binary { left: word(left), op, right: right_word },
    };
    let rest = match evaluate_condition(&condition) {
        ConditionStep::Evaluate(_, EvaluateGlob::Enabled, rest) => rest,
        other => panic!("unexpected step {other:?}"),
    };
    let change = EnvChange::SetShellVar("left".to_string(), left.to_string());
    let rest = match rest.on_word(value(left, vec![change]), state) {
        ConditionStep::Evaluate(_, EvaluateGlob::Disabled, rest) => rest,
        other => panic!("unexpected step {other:?}"),
    };
    rest.on_word(value(right, Vec::new()), state)
}

fn unary(op: Option<UnaryOp>, operand: &str) -> ConditionStep {
    let mut state = state();
    let condition =
        Condition { condition_inner: ConditionInner::Unary { op, right: word(operand) } };
    match evaluate_condition(&condition) {
        ConditionStep::Evaluate(_, EvaluateGlob::Enabled, rest) => {
            rest.on_word(value(operand, Vec::new()), &mut state)
        }
        other => panic!("unexpected step {other:?}"),
    }
}

fn decided(step: ConditionStep) -> bool {
    match step {
        ConditionStep::Decided(Ok(result)) => {
            assert!(result.changes.is_empty());
            result.value
        }
        other => panic!("unexpected step {other:?}"),
    }
}

#[test]
fn numbers_compare_as_numbers() {
    assert_eq!(compare_words("10", BinaryOp::GreaterThan, "9", false), Ok(true));
    assert_eq!(compare_words("10", BinaryOp::LessThan, "9", false), Ok(false));
    assert_eq!(compare_words("07", BinaryOp::Equal, "7", false), Ok(true));
    assert_eq!(compare_words("-1", BinaryOp::LessThanOrEqual, "0", false), Ok(true));
    assert_eq!(compare_words("1", BinaryOp::NotEqual, "2", false), Ok(true));
    assert_eq!(compare_words("2", BinaryOp::GreaterThanOrEqual, "2", false), Ok(true));
}

#[test]
fn texts_compare_as_texts() {
    assert_eq!(compare_words("10", BinaryOp::GreaterThan, "9a", false), Ok(false));
    assert_eq!(compare_words("a", BinaryOp::LessThan, "b", false), Ok(true));
    assert_eq!(compare_words("b", BinaryOp::LessThanOrEqual, "a", false), Ok(false));
    assert_eq!(compare_words("a", BinaryOp::GreaterThanOrEqual, "a", false), Ok(true));
    assert_eq!(compare_words("abc", BinaryOp::Equal, "a*", false), Ok(true));
    assert_eq!(compare_words("abc", BinaryOp::NotEqual, "a*", false), Ok(false));
    assert_eq!(compare_words("abc", BinaryOp::Equal, "a*", true), Ok(false));
}

#[test]
fn comparisons_fit_together() {
    for (a, b) in [("1", "2"), ("2", "2"), ("x", "y"), ("y", "x"), ("x", "x"), ("1", "x")] {
        let holds = |op: BinaryOp| compare_words(a, op, b, true).unwrap();
        assert_eq!(holds(BinaryOp::NotEqual), !holds(BinaryOp::Equal));
        assert_eq!(holds(BinaryOp::GreaterThanOrEqual), !holds(BinaryOp::LessThan));
        assert_eq!(holds(BinaryOp::LessThanOrEqual), !holds(BinaryOp::GreaterThan));
        assert_eq!(
            holds(BinaryOp::GreaterThan),
            compare_words(b, BinaryOp::LessThan, a, true).unwrap()
        );
    }
}

#[test]
fn equality_hands_on_errors() {
    assert_eq!(equality_holds(false, Ok(true)), Ok(true));
    assert_eq!(equality_holds(true, Ok(true)), Ok(false));
    let error = PatternError { pos: 3, msg: "m".to_string() };
    assert_eq!(equality_holds(true, Err(error.clone())), Err(error));
}

#[test]
fn binary_conditions_are_decided() {
    let mut state = state();
    assert!(decided(binary("a", BinaryOp::Equal, "a", false, &mut state)));
    assert_eq!(state.get_var("left").unwrap(), "a");
    assert!(!decided(binary("ab", BinaryOp::Equal, "a*", true, &mut state)));
    assert!(decided(binary("ab", BinaryOp::Equal, "a*", false, &mut state)));
    match binary("a", BinaryOp::Equal, "[a", false, &mut state) {
        ConditionStep::BadPattern(error) => assert_eq!(error.msg, "invalid range pattern"),
        other => panic!("unexpected step {other:?}"),
    }
}

#[test]
fn unary_conditions_are_decided() {
    assert!(decided(unary(Some(UnaryOp::NonEmptyString), "x")));
    assert!(!decided(unary(Some(UnaryOp::NonEmptyString), "")));
    assert!(decided(unary(Some(UnaryOp::EmptyString), "")));
    assert!(!decided(unary(Some(UnaryOp::EmptyString), "x")));
    assert!(decided(unary(Some(UnaryOp::VariableSet), "set")));
    assert!(!decided(unary(Some(UnaryOp::VariableSet), "unset")));
}

#[test]
fn unary_conditions_ask_about_files() {
    for (op, query) in [
        (UnaryOp::FileExists, FileQuery::Exists),
        (UnaryOp::Directory, FileQuery::Directory),
        (UnaryOp::RegularFile, FileQuery::RegularFile),
        (UnaryOp::SymbolicLink, FileQuery::SymbolicLink),
        (UnaryOp::Readable, FileQuery::Permission(FilePermission::Readable)),
        (UnaryOp::Writable, FileQuery::Permission(FilePermission::Writable)),
        (UnaryOp::Executable, FileQuery::Permission(FilePermission::Executable)),
    ] {
        match unary(Some(op), "/x") {
            ConditionStep::Query(asked, path) => {
                assert_eq!(asked, query);
                assert_eq!(path, "/x");
            }
            other => panic!("unexpected step {other:?}"),
        }
        assert_eq!(unary_test(Some(op)), UnaryTest::File(query));
    }
    assert!(decided(on_answer(true)));
    assert!(!decided(on_answer(false)));
}

#[test]
fn other_operators_are_not_supported() {
    assert!(matches!(unary(None, "x"), ConditionStep::Unsupported(None)));
    assert!(matches!(
        unary(Some(UnaryOp::Socket), "x"),
        ConditionStep::Unsupported(Some(UnaryOp::Socket))
    ));
}

#[test]
fn word_errors_decide_conditions() {
    let mut state = state();
    let condition = Condition {
        condition_inner: ConditionInner::Unary { op: None, right: word("x*") },
    };
    let rest = match evaluate_condition(&condition) {
        ConditionStep::Evaluate(_, _, rest) => rest,
        other => panic!("unexpected step {other:?}"),
    };
    let error = EvaluateWordTextError::NoFilesMatched { pattern: "x*".to_string() };
    assert!(matches!(rest.on_word(Err(error), &mut state), ConditionStep::Decided(Err(_))));
}

#[test]
fn permissions_follow_the_mode() {
    let facts = |mode: u32| FileFacts::Unix { mode: Some(mode) };
    assert!(check_permission(&facts(0o100644), FilePermission::Readable));
    assert!(check_permission(&facts(0o100200), FilePermission::Writable));
    assert!(!check_permission(&facts(0o100444), FilePermission::Writable));
    assert!(check_permission(&facts(0o100001), FilePermission::Executable));
    assert!(!check_permission(&facts(0o100666), FilePermission::Executable));
    assert!(!check_permission(&FileFacts::Unix { mode: None }, FilePermission::Readable));
}

#[test]
fn permissions_follow_the_extension() {
    let facts = |readonly: Option<bool>, extension: Option<&str>| FileFacts::Windows {
        readonly,
        extension: extension.map(|e| e.to_string()),
    };
    assert!(check_permission(&facts(None, Some("EXE")), FilePermission::Executable));
    assert!(check_permission(&facts(None, Some("cmd")), FilePermission::Executable));
    assert!(check_permission(&facts(None, Some("Bat")), FilePermission::Executable));
    assert!(!check_permission(&facts(Some(false), Some("ex")), FilePermission::Executable));
    assert!(!check_permission(&facts(Some(false), None), FilePermission::Executable));
    assert!(check_permission(&facts(Some(true), None), FilePermission::Readable));
    assert!(!check_permission(&facts(None, None), FilePermission::Readable));
    assert!(check_permission(&facts(Some(false), None), FilePermission::Writable));
    assert!(!check_permission(&facts(Some(true), None), FilePermission::Writable));
}
