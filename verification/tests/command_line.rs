use cosmic_comp::command_line::{method_call, parse_args, CommandArgs, LaunchArgs, MethodCall};

fn args(values: &[&str]) -> Option<CommandArgs> {
    parse_args(values.iter().map(|value| value.to_string()).collect())
}

fn launch(workspace: &str, pacing: &str, isolated: bool, argv: &[&str]) -> CommandArgs {
    CommandArgs::Launch(LaunchArgs {
        workspace_name: workspace.to_string(),
        frame_pacing: pacing.to_string(),
        isolated_input: isolated,
        argv: argv.iter().map(|value| value.to_string()).collect(),
    })
}

#[test]
fn parses_standard_pacing_by_default() {
    assert_eq!(
        args(&["--workspace", "build", "--", "command", "arg"]),
        Some(CommandArgs::Launch(LaunchArgs {
            workspace_name: "build".to_string(),
            frame_pacing: "standard".to_string(),
            isolated_input: false,
            argv: vec!["command".to_string(), "arg".to_string()],
        }))
    );
}

#[test]
fn parses_demand_pacing_in_either_option_order() {
    let expected = Some(CommandArgs::Launch(LaunchArgs {
        workspace_name: "render".to_string(),
        frame_pacing: "demand".to_string(),
        isolated_input: false,
        argv: vec!["command".to_string()],
    }));
    assert_eq!(
        args(&[
            "--workspace",
            "render",
            "--frame-pacing",
            "demand",
            "--",
            "command"
        ]),
        expected.clone()
    );
    assert_eq!(
        args(&[
            "--frame-pacing",
            "demand",
            "--workspace",
            "render",
            "--",
            "command"
        ]),
        expected
    );
}

#[test]
fn rejects_unknown_pacing_and_missing_command() {
    assert_eq!(
        args(&[
            "--workspace",
            "render",
            "--frame-pacing",
            "realtime",
            "--",
            "command"
        ]),
        None
    );
    assert_eq!(args(&["--workspace", "render", "--"]), None);
}

#[test]
fn parses_only_one_nonempty_reconcile_id() {
    assert_eq!(
        args(&["--reconcile", "background-launch-7"]),
        Some(CommandArgs::Reconcile {
            launch_id: "background-launch-7".to_string()
        })
    );
    assert_eq!(args(&["--reconcile", ""]), None);
    assert_eq!(args(&["--reconcile", "id", "extra"]), None);
}

#[test]
fn parses_isolated_input_once() {
    assert_eq!(
        args(&["--workspace", "render", "--isolated-input", "--", "command"]),
        Some(CommandArgs::Launch(LaunchArgs {
            workspace_name: "render".to_string(),
            frame_pacing: "standard".to_string(),
            isolated_input: true,
            argv: vec!["command".to_string()],
        }))
    );
    assert_eq!(
        args(&[
            "--workspace",
            "render",
            "--isolated-input",
            "--isolated-input",
            "--",
            "command"
        ]),
        None
    );
}

#[test]
fn parses_isolation_status_and_release() {
    assert_eq!(
        args(&["--isolation-status", "background-launch-7"]),
        Some(CommandArgs::IsolationStatus {
            launch_id: "background-launch-7".to_string()
        })
    );
    assert_eq!(
        args(&["--release", "background-launch-7"]),
        Some(CommandArgs::Release {
            launch_id: "background-launch-7".to_string()
        })
    );
    assert_eq!(args(&["--isolation-status", ""]), None);
    assert_eq!(args(&["--release", "id", "extra"]), None);
}

#[test]
fn refuses_blank_names_and_ids() {
    assert_eq!(args(&["--workspace", " \t", "--", "command"]), None);
    assert_eq!(args(&["--workspace", "\u{3000}\u{85}", "--", "command"]), None);
    assert_eq!(args(&["--release", " \n\u{a0}"]), None);
    assert_eq!(
        args(&["--release", " 7 "]),
        Some(CommandArgs::Release { launch_id: " 7 ".to_string() })
    );
}

#[test]
fn refuses_incomplete_and_repeated_options() {
    assert_eq!(args(&[]), None);
    assert_eq!(args(&["--"]), None);
    assert_eq!(args(&["--", "command"]), None);
    assert_eq!(args(&["--workspace"]), None);
    assert_eq!(args(&["--workspace", "a"]), None);
    assert_eq!(args(&["--workspace", "a", "--frame-pacing"]), None);
    assert_eq!(args(&["--workspace", "a", "--workspace", "b", "--", "command"]), None);
    assert_eq!(
        args(&["--workspace", "a", "--frame-pacing", "demand", "--frame-pacing", "demand", "--", "c"]),
        None
    );
    assert_eq!(args(&["--workspace", "a", "--verbose", "--", "command"]), None);
    assert_eq!(args(&["--workspace", "a", "--reconcile", "id"]), None);
}

#[test]
fn an_option_takes_the_next_word_as_its_value() {
    assert_eq!(
        args(&["--workspace", "--", "--", "--", "--workspace"]),
        Some(launch("--", "standard", false, &["--", "--workspace"]))
    );
}

#[test]
fn every_option_order_reads_the_same() {
    let expected = Some(launch("w", "demand", true, &["p", "--", "x"]));
    let groups: [&[&str]; 3] = [
        &["--workspace", "w"],
        &["--frame-pacing", "demand"],
        &["--isolated-input"],
    ];
    for order in [[0, 1, 2], [0, 2, 1], [1, 0, 2], [1, 2, 0], [2, 0, 1], [2, 1, 0]] {
        let mut words: Vec<&str> = Vec::new();
        for i in order {
            words.extend_from_slice(groups[i]);
        }
        words.extend_from_slice(&["--", "p", "--", "x"]);
        assert_eq!(args(&words), expected);
    }
}

#[test]
fn chooses_the_method_of_a_command() {
    let cwd = || "/tmp".to_string();
    assert!(matches!(
        method_call(launch("w", "standard", false, &["p", "x"]), cwd()),
        MethodCall::Launch { workspace_name, argv, cwd }
            if workspace_name == "w" && argv == ["p", "x"] && cwd == "/tmp"
    ));
    assert!(matches!(
        method_call(launch("w", "demand", false, &["p"]), cwd()),
        MethodCall::LaunchWithOptions { workspace_name, argv, cwd, frame_pacing }
            if workspace_name == "w" && argv == ["p"] && cwd == "/tmp" && frame_pacing == "demand"
    ));
    assert!(matches!(
        method_call(launch("w", "standard", true, &["p"]), cwd()),
        MethodCall::LaunchIsolated { frame_pacing, .. } if frame_pacing == "standard"
    ));
    assert!(matches!(
        method_call(CommandArgs::Reconcile { launch_id: "a".to_string() }, cwd()),
        MethodCall::Reconcile { launch_id } if launch_id == "a"
    ));
    assert!(matches!(
        method_call(CommandArgs::IsolationStatus { launch_id: "b".to_string() }, cwd()),
        MethodCall::IsolationStatus { launch_id } if launch_id == "b"
    ));
    assert!(matches!(
        method_call(CommandArgs::Release { launch_id: "c".to_string() }, cwd()),
        MethodCall::Release { launch_id } if launch_id == "c"
    ));
}
