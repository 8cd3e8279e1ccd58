use cosmic_comp::background_launch::{
    launch, launch_id_text, launch_result, launch_with_options, reconcile, reconcile_result,
    BackgroundFramePacing, BackgroundRequest, Exchange, LaunchReply, LaunchRequest, LaunchStep,
    PendingLaunch, ReconcileRequest, RegisterStep, ServiceError, SpawnStep,
};
use cosmic_comp::environment::EnvVars;
use cosmic_comp::state::State;

fn strings(values: &[&str]) -> Vec<String> {
    values.iter().map(|value| value.to_string()).collect()
}

fn env(values: &[(&str, &str)]) -> EnvVars {
    let mut env = EnvVars::new();
    for (name, value) in values {
        env.set(name.to_string(), value.to_string());
    }
    env
}

fn value_of(env: &EnvVars, name: &str) -> Option<String> {
    env.entries.iter().rev().find(|entry| entry.0 == name).map(|entry| entry.1.clone())
}

fn request(workspace: &str, argv: &[&str], reply: u32) -> LaunchRequest<u32> {
    LaunchRequest {
        workspace_name: workspace.to_string(),
        argv: strings(argv),
        cwd: String::new(),
        env: EnvVars::new(),
        frame_pacing: BackgroundFramePacing::Standard,
        reply,
    }
}

fn refusal(step: LaunchStep<u32>) -> (u32, String) {
    match step {
        LaunchStep::Answer(answer) => match answer.result {
            Err(message) => (answer.reply, message),
            Ok(_) => panic!("answered with success"),
        },
        LaunchStep::EnsureWorkspace(_) => panic!("not refused"),
    }
}

fn accepted(step: LaunchStep<u32>) -> PendingLaunch<u32> {
    match step {
        LaunchStep::Answer(_) => panic!("refused"),
        LaunchStep::EnsureWorkspace(pending) => pending,
    }
}

#[test]
fn launch_asks_for_standard_pacing() {
    let request: BackgroundRequest<u8, u8> = launch(
        "w".to_string(),
        strings(&["p", "a"]),
        "/tmp".to_string(),
        env(&[("A", "1")]),
        7,
    );
    match request {
        BackgroundRequest::Launch(request) => {
            assert_eq!(request.workspace_name, "w");
            assert_eq!(request.argv, ["p", "a"]);
            assert_eq!(request.cwd, "/tmp");
            assert_eq!(value_of(&request.env, "A"), Some("1".to_string()));
            assert_eq!(request.frame_pacing, BackgroundFramePacing::Standard);
            assert_eq!(request.reply, 7);
        }
        BackgroundRequest::Reconcile(_) => panic!("not a launch"),
    }
}

#[test]
fn launch_with_options_takes_known_pacings() {
    for (name, pacing) in [
        ("standard", BackgroundFramePacing::Standard),
        ("demand", BackgroundFramePacing::Demand),
    ] {
        let request: Result<BackgroundRequest<u8, u8>, ServiceError> = launch_with_options(
            "w".to_string(),
            strings(&["p"]),
            String::new(),
            EnvVars::new(),
            name.to_string(),
            0,
        );
        assert!(matches!(
            request,
            Ok(BackgroundRequest::Launch(request)) if request.frame_pacing == pacing
        ));
    }
    let request: Result<BackgroundRequest<u8, u8>, ServiceError> = launch_with_options(
        "w".to_string(),
        strings(&["p"]),
        String::new(),
        EnvVars::new(),
        "realtime".to_string(),
        0,
    );
    assert!(matches!(
        request,
        Err(ServiceError::InvalidArgs(message)) if message == "unknown frame pacing: realtime"
    ));
}

#[test]
fn reconcile_refuses_a_blank_id() {
    let blank: Result<BackgroundRequest<u8, u8>, ServiceError> = reconcile(" \t ".to_string(), 3);
    assert!(matches!(
        blank,
        Err(ServiceError::InvalidArgs(message)) if message == "launch ID must not be empty"
    ));
    let request: Result<BackgroundRequest<u8, u8>, ServiceError> = reconcile("id".to_string(), 3);
    assert!(matches!(
        request,
        Ok(BackgroundRequest::Reconcile(request)) if request.launch_id == "id" && request.reply == 3
    ));
}

#[test]
fn launch_results_name_what_went_wrong() {
    assert!(matches!(
        launch_result(Exchange::Unsent("gone".to_string())),
        Err(ServiceError::Failed(message)) if message == "compositor unavailable: gone"
    ));
    assert!(matches!(
        launch_result(Exchange::Unanswered("late".to_string())),
        Err(ServiceError::Failed(message)) if message == "launch timed out: late"
    ));
    assert!(matches!(
        launch_result(Exchange::Answered(Err("no".to_string()))),
        Err(ServiceError::Failed(message)) if message == "no"
    ));
    assert!(matches!(
        launch_result(Exchange::Answered(Ok(LaunchReply { pid: 4, launch_id: "x".to_string() }))),
        Ok((4, id)) if id == "x"
    ));
}

#[test]
fn reconcile_results_name_what_went_wrong() {
    assert!(matches!(
        reconcile_result(Exchange::Unsent("gone".to_string())),
        Err(ServiceError::Failed(message)) if message == "compositor unavailable: gone"
    ));
    assert!(matches!(
        reconcile_result(Exchange::Unanswered("late".to_string())),
        Err(ServiceError::Failed(message)) if message == "reconcile timed out: late"
    ));
    assert!(matches!(
        reconcile_result(Exchange::Answered(Err("no".to_string()))),
        Err(ServiceError::Failed(message)) if message == "no"
    ));
    assert!(matches!(reconcile_result(Exchange::Answered(Ok(2))), Ok(2)));
}

#[test]
fn refuses_launches_that_lack_something() {
    let mut state = State::new(10);
    assert_eq!(
        refusal(state.handle_background_launch(request(" ", &[], 1))),
        (1, "workspace name must not be empty".to_string())
    );
    assert_eq!(
        refusal(state.handle_background_launch(request("w", &[], 2))),
        (2, "argv must not be empty".to_string())
    );
    assert_eq!(
        refusal(state.handle_background_launch(request("w", &["", "a"], 3))),
        (3, "program must not be empty".to_string())
    );
    assert_eq!(state.next_launch_id, 1);
}

#[test]
fn writes_launch_ids() {
    assert_eq!(launch_id_text(10, 1), "background-launch-10-1");
    assert_eq!(launch_id_text(0, 0), "background-launch-0-0");
    assert_eq!(
        launch_id_text(u32::MAX, u64::MAX),
        "background-launch-4294967295-18446744073709551615"
    );
    assert_ne!(launch_id_text(1, 11), launch_id_text(11, 1));
}

#[test]
fn a_launch_goes_through() {
    let mut state = State::new(77);
    let mut wanted = request("build", &["make", "-j", "8"], 5);
    wanted.cwd = "/src".to_string();
    wanted.frame_pacing = BackgroundFramePacing::Demand;
    wanted.env = env(&[("LANG", "C"), ("XDG_ACTIVATION_TOKEN", "other"), ("EDITOR", "vi")]);
    let pending = accepted(state.handle_background_launch(wanted));
    assert_eq!(pending.workspace_name, "build");
    assert_eq!(pending.launch_id, "background-launch-77-1");
    assert_eq!(state.next_launch_id, 2);

    let session = env(&[("LANG", "de"), ("WAYLAND_DISPLAY", "wayland-1")]);
    let (command, starting) = match pending.with_session_environment(Ok(session)) {
        SpawnStep::Spawn(command, starting) => (command, starting),
        SpawnStep::Answer(_) => panic!("answered early"),
    };
    assert_eq!(command.program, "make");
    assert_eq!(command.args, ["-j", "8"]);
    assert_eq!(command.cwd, Some("/src".to_string()));
    assert_eq!(value_of(&command.env, "LANG"), Some("C".to_string()));
    assert_eq!(value_of(&command.env, "EDITOR"), Some("vi".to_string()));
    assert_eq!(value_of(&command.env, "WAYLAND_DISPLAY"), Some("wayland-1".to_string()));
    for name in ["COSMIC_BACKGROUND_LAUNCH_ID", "XDG_ACTIVATION_TOKEN", "DESKTOP_STARTUP_ID"] {
        assert_eq!(value_of(&command.env, name), Some("background-launch-77-1".to_string()));
    }

    match state.launch_started(starting, Some(1234)) {
        RegisterStep::Register(registration, answer) => {
            assert_eq!(registration.launch_id, "background-launch-77-1");
            assert_eq!(registration.workspace_name, "build");
            assert_eq!(registration.pid, 1234);
            assert_eq!(registration.frame_pacing, BackgroundFramePacing::Demand);
            assert_eq!(answer.reply, 5);
            assert!(matches!(
                answer.result,
                Ok(reply) if reply.pid == 1234 && reply.launch_id == "background-launch-77-1"
            ));
        }
        RegisterStep::Answer(_) => panic!("not registered"),
    }
    assert_eq!(state.background_launch_children, [1234]);
}

#[test]
fn a_launch_without_session_environment_fails() {
    let mut state = State::new(1);
    let pending = accepted(state.handle_background_launch(request("w", &["p"], 9)));
    match pending.with_session_environment(Err("no display".to_string())) {
        SpawnStep::Answer(answer) => {
            assert_eq!(answer.reply, 9);
            assert!(matches!(answer.result, Err(message) if message == "no display"));
        }
        SpawnStep::Spawn(_, _) => panic!("started"),
    }
}

#[test]
fn a_launch_that_cannot_start_names_its_program() {
    let mut state = State::new(1);
    let pending = accepted(state.handle_background_launch(request("w", &["/bin/\"x\"\n"], 9)));
    let starting = match pending.with_session_environment(Ok(EnvVars::new())) {
        SpawnStep::Spawn(command, starting) => {
            assert_eq!(command.cwd, None);
            starting
        }
        SpawnStep::Answer(_) => panic!("answered early"),
    };
    match state.launch_started(starting, None) {
        RegisterStep::Answer(answer) => {
            assert!(matches!(
                answer.result,
                Err(message) if message == "failed to spawn \"/bin/\\\"x\\\"\\n\""
            ));
        }
        RegisterStep::Register(_, _) => panic!("registered"),
    }
    assert!(state.background_launch_children.is_empty());
}

#[test]
fn launch_numbers_start_again_after_the_last() {
    let mut state = State::new(3);
    state.next_launch_id = u64::MAX;
    let last = accepted(state.handle_background_launch(request("w", &["p"], 0)));
    let first = accepted(state.handle_background_launch(request("w", &["p"], 0)));
    assert_eq!(last.launch_id, "background-launch-3-18446744073709551615");
    assert_eq!(first.launch_id, "background-launch-3-0");
}

#[test]
fn reconcile_answers_with_a_capped_count() {
    let mut state = State::new(1);
    let ask = |state: &mut State| {
        state.handle_background_reconcile(ReconcileRequest { launch_id: "id".to_string(), reply: 4 })
    };
    let (launch_id, pending) = ask(&mut state);
    assert_eq!(launch_id, "id");
    let answer = pending.finish(Ok(3));
    assert_eq!(answer.reply, 4);
    assert_eq!(answer.result, Ok(3));
    let (_, pending) = ask(&mut state);
    assert_eq!(pending.finish(Ok(usize::MAX)).result, Ok(u32::MAX));
    let (_, pending) = ask(&mut state);
    assert_eq!(pending.finish(Ok(u32::MAX as usize)).result, Ok(u32::MAX));
    let (_, pending) = ask(&mut state);
    assert_eq!(pending.finish(Err("unknown".to_string())).result, Err("unknown".to_string()));
}
