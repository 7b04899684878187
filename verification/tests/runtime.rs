use local_models::mlx_models::{loopback_address, LoopbackAddr, LoopbackIp};
use local_models::runtime::{
    server_args, server_env, LaunchFacts, ModelProviderSharedState, RuntimeAction, RuntimeEvent,
    RuntimeFailure, RuntimeSupervisor, SupervisorPhase,
};

#[test]
fn live_sessions_share_a_single_owned_runtime() {
    let mut state = ModelProviderSharedState::default();
    let first = state.mlx_server("http://127.0.0.1:8080/v1");
    let second = state.mlx_server("http://127.0.0.1:8080/v1");
    let third = state.mlx_server("http://127.0.0.1:8081/v1");
    assert!(std::sync::Arc::ptr_eq(&first, &second));
    assert!(!std::sync::Arc::ptr_eq(&first, &third));
}

#[test]
fn runtimes_remember_their_endpoint_and_loopback_address() {
    let mut state = ModelProviderSharedState::new();
    let local = state.mlx_server("http://127.0.0.1:8080/v1");
    let remote = state.mlx_server("https://example.com/v1");
    assert_eq!(local.id, 0);
    assert_eq!(local.base_url, "http://127.0.0.1:8080/v1");
    assert_eq!(
        local.address,
        Some(LoopbackAddr { ip: LoopbackIp::V4(127, 0, 0, 1), port: 8080 })
    );
    assert_eq!(remote.id, 1);
    assert_eq!(remote.address, None);
    let again = state.mlx_server("https://example.com/v1");
    assert_eq!(again.id, 1);
}

fn step(s: &mut RuntimeSupervisor, e: RuntimeEvent) -> RuntimeAction {
    assert!(s.accepts(&e));
    s.step(e)
}

fn facts(auto_start: Option<&str>, root: Option<&str>) -> LaunchFacts {
    LaunchFacts {
        auto_start: auto_start.map(str::to_owned),
        root: root.map(str::to_owned),
        python_override: None,
        api_key: Ok(None),
        bearer_token: Some("token".to_owned()),
    }
}

fn start(s: &mut RuntimeSupervisor) -> LoopbackAddr {
    match step(s, RuntimeEvent::Start(Some("http://127.0.0.1:8080/v1".to_owned()))) {
        RuntimeAction::Probe(addr) => addr,
        _ => panic!("expected a probe"),
    }
}

fn finished(a: RuntimeAction) -> (Result<(), String>, bool) {
    match a {
        RuntimeAction::Finish { outcome, kill_child } => (outcome.map_err(|f| f.message()), kill_child),
        _ => panic!("expected the request to end"),
    }
}

#[test]
fn existing_server_is_reused_and_left_running() {
    let mut s = RuntimeSupervisor::new();
    let addr = start(&mut s);
    assert_eq!(addr, LoopbackAddr { ip: LoopbackIp::V4(127, 0, 0, 1), port: 8080 });
    let (outcome, kill) = finished(step(&mut s, RuntimeEvent::Listening(true)));
    assert_eq!(outcome, Ok(()));
    assert!(!kill);
    assert!(!s.has_child);
}

#[test]
fn endpoints_that_are_not_local_are_never_started() {
    let mut s = RuntimeSupervisor::new();
    let (outcome, kill) =
        finished(step(&mut s, RuntimeEvent::Start(Some("https://127.0.0.1/v1".to_owned()))));
    assert_eq!(outcome, Ok(()));
    assert!(!kill);
    let (outcome, _) = finished(step(&mut s, RuntimeEvent::Start(None)));
    assert_eq!(outcome, Ok(()));
}

#[test]
fn a_stopped_server_is_started_awaited_and_kept() {
    let mut s = RuntimeSupervisor::new();
    let addr = start(&mut s);
    assert!(matches!(step(&mut s, RuntimeEvent::Listening(false)), RuntimeAction::GatherFacts));
    match step(&mut s, RuntimeEvent::Facts(facts(None, Some("/models")))) {
        RuntimeAction::CheckPython(p) => assert_eq!(p, "/models/.venv/bin/python"),
        _ => panic!("expected the Python check"),
    }
    match step(&mut s, RuntimeEvent::PythonIsFile(true)) {
        RuntimeAction::OpenLog(p) => assert_eq!(p, "/models/evo-codex-mlx.log"),
        _ => panic!("expected the log to open"),
    }
    match step(&mut s, RuntimeEvent::LogOpened(Ok(()))) {
        RuntimeAction::Spawn(l) => {
            assert_eq!(l.program, "/models/.venv/bin/python");
            assert_eq!(
                l.args,
                vec![
                    "-m",
                    "mlx_vlm.server",
                    "--host",
                    "127.0.0.1",
                    "--port",
                    "8080",
                    "--max-kv-size",
                    "32768",
                    "--max-tokens",
                    "2048",
                    "--max-num-seqs",
                    "1",
                    "--prefill-step-size",
                    "256",
                ]
            );
            assert_eq!(
                l.env,
                vec![
                    ("HF_HUB_OFFLINE".to_owned(), "1".to_owned()),
                    ("TOKENIZERS_PARALLELISM".to_owned(), "false".to_owned()),
                    ("MLX_VLM_SERVER_API_KEY".to_owned(), "token".to_owned()),
                ]
            );
        },
        _ => panic!("expected a start"),
    }
    assert!(matches!(step(&mut s, RuntimeEvent::Spawned(Ok(()))), RuntimeAction::PollChild));
    assert!(s.has_child);
    match step(&mut s, RuntimeEvent::ChildStatus(Ok(None))) {
        RuntimeAction::Probe(a) => assert_eq!(a, addr),
        _ => panic!("expected a probe"),
    }
    assert!(matches!(step(&mut s, RuntimeEvent::Listening(false)), RuntimeAction::Sleep(200)));
    assert!(matches!(step(&mut s, RuntimeEvent::Slept), RuntimeAction::PollChild));
    assert!(matches!(step(&mut s, RuntimeEvent::ChildStatus(Ok(None))), RuntimeAction::Probe(_)));
    let (outcome, kill) = finished(step(&mut s, RuntimeEvent::Listening(true)));
    assert_eq!(outcome, Ok(()));
    assert!(!kill);
    assert!(s.has_child);
    assert!(matches!(s.phase, SupervisorPhase::Idle));

    start(&mut s);
    assert!(matches!(step(&mut s, RuntimeEvent::Listening(false)), RuntimeAction::PollChild));
    let (outcome, kill) = finished(step(
        &mut s,
        RuntimeEvent::ChildStatus(Ok(Some("exit status: 1".to_owned()))),
    ));
    assert_eq!(
        outcome,
        Err("MLX server exited with exit status: 1; inspect evo-codex-mlx.log in the model directory"
            .to_owned())
    );
    assert!(!kill);
    assert!(!s.has_child);
}

#[test]
fn startup_refusals_name_their_reason() {
    let mut s = RuntimeSupervisor::new();
    start(&mut s);
    step(&mut s, RuntimeEvent::Listening(false));
    let (outcome, _) = finished(step(&mut s, RuntimeEvent::Facts(facts(Some("0"), Some("/m")))));
    assert_eq!(
        outcome,
        Err("MLX server is stopped and automatic startup is disabled".to_owned())
    );

    start(&mut s);
    step(&mut s, RuntimeEvent::Listening(false));
    let (outcome, _) = finished(step(&mut s, RuntimeEvent::Facts(facts(Some("1"), None))));
    assert_eq!(
        outcome,
        Err("Set CODEX_MLX_MODEL_DIR to your local model directory".to_owned())
    );

    start(&mut s);
    step(&mut s, RuntimeEvent::Listening(false));
    let mut f = facts(None, Some("/m"));
    f.python_override = Some("/opt/python".to_owned());
    match step(&mut s, RuntimeEvent::Facts(f)) {
        RuntimeAction::CheckPython(p) => assert_eq!(p, "/opt/python"),
        _ => panic!("expected the Python check"),
    }
    let (outcome, _) = finished(step(&mut s, RuntimeEvent::PythonIsFile(false)));
    assert_eq!(
        outcome,
        Err("MLX runtime not found. Set CODEX_MLX_PYTHON to an existing MLX-VLM Python executable, or start your MLX server separately.".to_owned())
    );
    assert!(!s.has_child);
}

#[test]
fn key_errors_are_reported_once_the_log_is_open() {
    let mut s = RuntimeSupervisor::new();
    start(&mut s);
    step(&mut s, RuntimeEvent::Listening(false));
    let mut f = facts(None, Some("/m"));
    f.api_key = Err("missing OPENAI_API_KEY".to_owned());
    step(&mut s, RuntimeEvent::Facts(f));
    assert!(matches!(step(&mut s, RuntimeEvent::PythonIsFile(true)), RuntimeAction::OpenLog(_)));
    let (outcome, kill) = finished(step(&mut s, RuntimeEvent::LogOpened(Ok(()))));
    assert_eq!(outcome, Err("missing OPENAI_API_KEY".to_owned()));
    assert!(!kill);
}

#[test]
fn failed_starts_kill_the_server_they_started() {
    let mut s = RuntimeSupervisor::new();
    start(&mut s);
    step(&mut s, RuntimeEvent::Listening(false));
    step(&mut s, RuntimeEvent::Facts(facts(None, Some("/m"))));
    step(&mut s, RuntimeEvent::PythonIsFile(true));
    step(&mut s, RuntimeEvent::LogOpened(Ok(())));
    step(&mut s, RuntimeEvent::Spawned(Ok(())));
    step(&mut s, RuntimeEvent::ChildStatus(Ok(None)));
    let (outcome, kill) = finished(step(&mut s, RuntimeEvent::TimedOut));
    assert_eq!(
        outcome,
        Err("MLX startup timed out; inspect evo-codex-mlx.log in the model directory".to_owned())
    );
    assert!(kill);
    assert!(!s.has_child);

    start(&mut s);
    step(&mut s, RuntimeEvent::Listening(false));
    step(&mut s, RuntimeEvent::Facts(facts(None, Some("/m"))));
    step(&mut s, RuntimeEvent::PythonIsFile(true));
    step(&mut s, RuntimeEvent::LogOpened(Ok(())));
    step(&mut s, RuntimeEvent::Spawned(Ok(())));
    let (outcome, kill) =
        finished(step(&mut s, RuntimeEvent::ChildStatus(Ok(Some("signal: 9".to_owned())))));
    assert_eq!(
        outcome,
        Err("MLX startup failed with signal: 9; inspect evo-codex-mlx.log in the model directory"
            .to_owned())
    );
    assert!(kill);
    assert!(!s.has_child);
}

#[test]
fn servers_on_ipv6_loopback_get_its_address_text() {
    let addr = loopback_address("http://[::1]:9000/v1").unwrap();
    let args = server_args(addr);
    assert_eq!(args[3], "::1");
    assert_eq!(args[5], "9000");
    assert_eq!(server_env(None).len(), 2);
}

#[test]
fn every_failure_has_its_message() {
    assert_eq!(RuntimeFailure::Io("denied".to_owned()).message(), "denied");
    assert_eq!(
        RuntimeFailure::NoModelDirectory.message(),
        "Set CODEX_MLX_MODEL_DIR to your local model directory"
    );
}
