use contained::command::wrapped;
use contained::error::DockerError;
use contained::run::{run_start, run_step, RunAction, RunEvent, RunState, Stage};

#[test]
fn run_sequence_happy_path() {
    let (state, action) = run_start();
    assert!(matches!(state, RunState::Created));
    assert_eq!(action, RunAction::DoAttach);

    // attach completes, classified multiplexed
    let (state, action) = run_step(state, RunEvent::AttachOk(true));
    assert!(matches!(state, RunState::Attached { multiplexed: true }));
    assert_eq!(action, RunAction::SpawnWait);

    // the wait is spawned before start is ever issued
    let (state, action) = run_step(state, RunEvent::AttachOk(true));
    assert!(matches!(state, RunState::WaitPending));
    assert_eq!(action, RunAction::SpawnWait);

    let (state, action) = run_step(state, RunEvent::AttachOk(true));
    assert!(matches!(state, RunState::Started));
    assert_eq!(action, RunAction::DoStart);

    let (state, action) = run_step(state, RunEvent::StartOk);
    assert!(matches!(state, RunState::Started));
    assert_eq!(action, RunAction::AwaitExit);

    // the exit code arrives over the one-shot channel
    let (state, action) = run_step(state, RunEvent::WaitOk(137));
    assert!(matches!(state, RunState::Exited { code: 137 }));
    assert_eq!(action, RunAction::AwaitExit);

    // removal only after the confirmed exit
    let (state, action) = run_step(state, RunEvent::WaitOk(137));
    assert!(matches!(state, RunState::Exited { code: 137 }));
    assert_eq!(action, RunAction::DoRemove);

    let (state, action) = run_step(state, RunEvent::RemoveOk);
    assert!(matches!(state, RunState::Done { code: 137 }));
    assert_eq!(action, RunAction::Stop);
}

#[test]
fn failed_wait_leaves_container() {
    let err = DockerError::NetworkError("gone".to_string());
    let (state, action) = run_step(
        RunState::Started,
        RunEvent::CallErr(Stage::Wait, err),
    );
    assert_eq!(action, RunAction::Stop);
    match state {
        RunState::Failed { stage, error } => {
            assert_eq!(stage, Stage::Wait);
            assert!(matches!(error, DockerError::NetworkError(_)));
        },
        other => panic!("expected a failed run, got {:?}", other),
    }
}

#[test]
fn failed_start_records_stage() {
    let err = DockerError::ErrorResponse(500, "boom".to_string());
    let (state, action) = run_step(
        RunState::WaitPending,
        RunEvent::CallErr(Stage::Start, err),
    );
    assert_eq!(action, RunAction::Stop);
    assert!(matches!(state, RunState::Failed { stage: Stage::Start, .. }));
}

#[test]
fn wrapped_command_line() {
    let home = "/root".to_string();
    let cmd = wrapped(
        "/usr/bin/ls",
        "/usr/bin",
        &vec!["-l".to_string()],
        true,
        "/build",
        Some(&home),
        true,
        false,
        &vec!["/opt".to_string()],
        &vec!["/data".to_string()],
        &vec!["MY_ENV=123".to_string()],
        None,
    )
    .unwrap();
    assert_eq!(cmd.program, "bwrap");
    let args: Vec<&str> = cmd.args.iter().map(|s| s.as_str()).collect();
    assert!(args.starts_with(&["--ro-bind", "/usr/bin", "/usr/bin"]));
    assert!(args.windows(3).any(|w| w == ["--ro-bind", "/build", "/build"]));
    assert!(args.windows(2).any(|w| w == ["--chdir", "/build"]));
    assert!(args.windows(3).any(|w| w == ["--ro-bind", "/opt", "/opt"]));
    assert!(args.windows(3).any(|w| w == ["--bind", "/data", "/data"]));
    assert!(args.windows(2).any(|w| w == ["--setenv", "MY_ENV=123"]));
    assert!(args.contains(&"--new-session"));
    assert!(args.contains(&"--unshare-all"));
    assert!(args.contains(&"--share-net"));
    let end = &args[args.len() - 2..];
    assert_eq!(end, &["/usr/bin/ls", "-l"]);
}

#[test]
fn wrapped_home_guard() {
    let home = "/build/home".to_string();
    let err = wrapped(
        "/usr/bin/ls",
        "/usr/bin",
        &Vec::new(),
        false,
        "/build",
        Some(&home),
        true,
        false,
        &Vec::new(),
        &Vec::new(),
        &Vec::new(),
        None,
    )
    .unwrap_err();
    assert_eq!(
        err.message(),
        "Cannot run from home directory or its parent directories"
    );
}
