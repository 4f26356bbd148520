use task_shell::set::{execute_set, parse_arg_kinds, variant_text, ArgKind, SetCommand};
use task_shell::state::ShellState;
use task_shell::types::{EnvChange, ExecuteResult, ShellOptions};

fn strings(words: &[&str]) -> Vec<String> {
    words.iter().map(|w| w.to_string()).collect()
}

#[test]
fn test_exit_on_error() {
    assert_eq!(
        execute_set(vec!["-e".to_string()]).unwrap(),
        (
            0,
            vec![EnvChange::SetShellOptions(ShellOptions::ExitOnError, true)]
        )
    );

    assert_eq!(
        execute_set(vec!["+e".to_string()]).unwrap(),
        (
            0,
            vec![EnvChange::SetShellOptions(ShellOptions::ExitOnError, false)]
        )
    );

    assert_eq!(
        execute_set(vec!["-x".to_string()]).unwrap(),
        (
            0,
            vec![EnvChange::SetShellOptions(ShellOptions::PrintTrace, true)]
        )
    );

    assert_eq!(
        execute_set(vec!["+x".to_string()]).unwrap(),
        (
            0,
            vec![EnvChange::SetShellOptions(ShellOptions::PrintTrace, false)]
        )
    );

    assert!(execute_set(vec!["-t".to_string()]).is_err());
}

#[test]
fn set_takes_flags_in_order() {
    assert_eq!(
        execute_set(strings(&["-ex", "+e"])).unwrap(),
        (
            0,
            vec![
                EnvChange::SetShellOptions(ShellOptions::ExitOnError, true),
                EnvChange::SetShellOptions(ShellOptions::PrintTrace, true),
                EnvChange::SetShellOptions(ShellOptions::ExitOnError, false),
            ]
        )
    );
    assert_eq!(execute_set(Vec::new()).unwrap(), (0, Vec::new()));
}

#[test]
fn set_names_the_argument_it_does_not_know() {
    assert_eq!(
        execute_set(strings(&["-e", "-t", "-u"])).unwrap_err(),
        "Unsupported argument: ShortFlag('t')"
    );
    assert_eq!(
        execute_set(strings(&["+t"])).unwrap_err(),
        "Unsupported argument: PlusFlag('t')"
    );
    assert_eq!(
        execute_set(strings(&["--posix"])).unwrap_err(),
        "Unsupported argument: LongFlag(\"posix\")"
    );
    assert_eq!(
        execute_set(strings(&["a\tb"])).unwrap_err(),
        "Unsupported argument: Arg(\"a\\tb\")"
    );
    assert_eq!(
        execute_set(strings(&["-\n"])).unwrap_err(),
        "Unsupported argument: ShortFlag('\\n')"
    );
}

#[test]
fn set_finds_kinds_of_arguments() {
    assert_eq!(
        parse_arg_kinds(&strings(&["-", "-ab", "+c", "--long", "word", "--", "-e", "--"])),
        vec![
            ArgKind::Arg("-".to_string()),
            ArgKind::ShortFlag('a'),
            ArgKind::ShortFlag('b'),
            ArgKind::PlusFlag('c'),
            ArgKind::LongFlag("long".to_string()),
            ArgKind::Arg("word".to_string()),
            ArgKind::Arg("-e".to_string()),
            ArgKind::Arg("--".to_string()),
        ]
    );
    assert_eq!(ArgKind::Arg("x".to_string()).text(), "Arg(\"x\")");
    assert_eq!(variant_text("Name", "value"), "Name(value)");
}

#[test]
fn set_stops_the_shell_on_an_argument_it_does_not_know() {
    let finished = SetCommand.execute::<i32>(strings(&["-q"]));
    assert_eq!(
        finished.error_line.as_deref(),
        Some("set: Unsupported argument: ShortFlag('q')")
    );
    match finished.result {
        ExecuteResult::Exit(code, changes, handles) => {
            assert_eq!(code, 2);
            assert!(changes.is_empty());
            assert!(handles.is_empty());
        }
        ExecuteResult::Continue(..) => panic!("the shell goes on"),
    }
    let finished = SetCommand.execute::<i32>(strings(&["-e"]));
    assert_eq!(finished.error_line, None);
    assert_eq!(finished.result.exit_code(), 0);
}

#[test]
fn set_last_switch_counts() {
    let mut state = ShellState::new(Vec::new(), "/".to_string(), false, true);
    let (_, changes) = execute_set(strings(&["-e", "+e", "-e"])).unwrap();
    state.apply_changes(&changes);
    assert!(state.exit_on_error());
    assert!(state.print_trace());
    let (_, changes) = execute_set(strings(&["+ex"])).unwrap();
    state.apply_changes(&changes);
    assert!(!state.exit_on_error());
    assert!(!state.print_trace());
}
