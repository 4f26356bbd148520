use task_shell::state::ShellState;
use task_shell::types::{EnvChange, ShellOptions};

fn state() -> ShellState {
    ShellState::new(
        vec![
            ("HOME".to_string(), "/home/a".to_string()),
            ("X".to_string(), "first".to_string()),
            ("X".to_string(), "second".to_string()),
        ],
        "/work".to_string(),
        false,
        false,
    )
}

fn set_shell(name: &str, value: &str) -> EnvChange {
    EnvChange::SetShellVar(name.to_string(), value.to_string())
}

fn var(state: &ShellState, name: &str) -> Option<String> {
    state.get_var(name).cloned()
}

#[test]
fn new_state_holds_its_variables() {
    let state = state();
    assert_eq!(var(&state, "HOME").as_deref(), Some("/home/a"));
    assert_eq!(var(&state, "X").as_deref(), Some("second"));
    assert_eq!(var(&state, "Y"), None);
    assert_eq!(state.cwd(), "/work");
    assert_eq!(state.last_command_exit_code(), 0);
    assert!(!state.exit_on_error());
    assert!(!state.print_trace());
}

#[test]
fn changes_reach_the_state() {
    let mut state = state();
    state.apply_changes(&vec![
        EnvChange::SetEnvVar("A".to_string(), "1".to_string()),
        set_shell("B", "2"),
        set_shell("HOME", "/root"),
        EnvChange::AliasCommand("ll".to_string(), vec!["ls".to_string(), "-l".to_string()]),
        EnvChange::Cd("/tmp".to_string()),
        EnvChange::SetShellOptions(ShellOptions::ExitOnError, true),
        EnvChange::SetShellOptions(ShellOptions::PrintTrace, true),
    ]);
    assert_eq!(var(&state, "A").as_deref(), Some("1"));
    assert_eq!(var(&state, "B").as_deref(), Some("2"));
    assert_eq!(var(&state, "HOME").as_deref(), Some("/root"));
    assert_eq!(state.alias("ll").unwrap(), &vec!["ls".to_string(), "-l".to_string()]);
    assert_eq!(state.cwd(), "/tmp");
    assert!(state.exit_on_error());
    assert!(state.print_trace());
    state.apply_changes(&vec![
        EnvChange::UnAliasCommand("ll".to_string()),
        EnvChange::UnsetVar("A".to_string()),
        EnvChange::UnsetVar("B".to_string()),
    ]);
    assert!(state.alias("ll").is_none());
    assert_eq!(var(&state, "A"), None);
    assert_eq!(var(&state, "B"), None);
}

#[test]
fn changes_compose_and_replay() {
    let changes = vec![set_shell("A", "1"), EnvChange::UnsetVar("X".to_string()), set_shell("A", "2")];
    let mut once = state();
    once.apply_changes(&changes);
    let mut in_parts = state();
    in_parts.apply_changes(&vec![set_shell("A", "1")]);
    in_parts.apply_changes(&vec![EnvChange::UnsetVar("X".to_string()), set_shell("A", "2")]);
    let mut twice = state();
    twice.apply_changes(&changes);
    twice.apply_changes(&changes);
    for name in ["A", "X", "HOME"] {
        assert_eq!(var(&once, name), var(&in_parts, name));
        assert_eq!(var(&once, name), var(&twice, name));
    }
    assert_eq!(var(&once, "A").as_deref(), Some("2"));
}

#[test]
fn shell_assignment_follows_the_environment() {
    let mut state = state();
    state.apply_change(&set_shell("X", "third"));
    assert_eq!(var(&state, "X").as_deref(), Some("third"));
    state.apply_change(&EnvChange::UnsetVar("X".to_string()));
    assert_eq!(var(&state, "X"), None);
    state.set_shell_var("N", "1");
    state.apply_env_var("N", "2");
    assert_eq!(var(&state, "N").as_deref(), Some("2"));
    state.set_shell_var("?", "3");
    assert_eq!(state.last_command_exit_code(), 3);
}
