use orthrus::events::{RecordedEvent, RecordingSink};
use orthrus::sphinx::{
    EphemeralPortCounter, NullChild, PortAllocator, SphinxManager, StubLauncher,
};

fn start_session(
    manager: &mut SphinxManager<NullChild>,
    allocator: &mut EphemeralPortCounter,
    launcher: &mut StubLauncher,
    sink: &mut RecordingSink,
    session_id: &str,
    requested_port: u16,
) -> u16 {
    let (port, _diag) = manager
        .start(
            session_id.to_string(),
            "/proj".to_string(),
            "docs".to_string(),
            "_build/html".to_string(),
            "python".to_string(),
            requested_port,
            Vec::new(),
            allocator,
            launcher,
            sink,
        )
        .expect("start should succeed with the in-memory launcher");
    port
}

#[test]
fn test_sphinx_manager_creation() {
    let manager: SphinxManager<NullChild> = SphinxManager::new();
    assert!(!manager.is_running("test"));
}

#[test]
fn test_find_available_port() {
    let mut allocator = EphemeralPortCounter::new();
    let port = allocator.find_available_port().unwrap();
    assert!(port > 0);
}

#[test]
fn test_stop_nonexistent_session() {
    let mut manager: SphinxManager<NullChild> = SphinxManager::new();
    assert!(manager.stop("nonexistent").is_ok());
}

#[test]
fn stop_is_idempotent_after_start() {
    let mut manager: SphinxManager<NullChild> = SphinxManager::new();
    let mut allocator = EphemeralPortCounter::new();
    let mut launcher = StubLauncher::new();
    let mut sink = RecordingSink::new();
    start_session(&mut manager, &mut allocator, &mut launcher, &mut sink, "doc", 0);
    assert!(manager.stop("doc").is_ok());
    assert!(manager.get_port("doc").is_none());
    assert!(manager.stop("doc").is_ok());
}

#[test]
fn auto_port_is_nonzero_and_reported() {
    let mut manager: SphinxManager<NullChild> = SphinxManager::new();
    let mut allocator = EphemeralPortCounter::new();
    let mut launcher = StubLauncher::new();
    let mut sink = RecordingSink::new();
    let port = start_session(&mut manager, &mut allocator, &mut launcher, &mut sink, "doc", 0);
    assert_ne!(port, 0);
    assert_eq!(manager.get_port("doc"), Some(port));
    assert!(manager.is_running("doc"));
    assert_eq!(sink.len(), 1);
    match sink.get(0) {
        RecordedEvent::SphinxStarted { session, port: announced } => {
            assert_eq!(session, "doc");
            assert_eq!(*announced, port);
        }
        _ => panic!("expected a started event"),
    }
}

#[test]
fn two_auto_ports_never_collide() {
    let mut manager: SphinxManager<NullChild> = SphinxManager::new();
    let mut allocator = EphemeralPortCounter::new();
    let mut launcher = StubLauncher::new();
    let mut sink = RecordingSink::new();
    let port_a = start_session(&mut manager, &mut allocator, &mut launcher, &mut sink, "a", 0);
    let port_b = start_session(&mut manager, &mut allocator, &mut launcher, &mut sink, "b", 0);
    assert_ne!(port_a, 0);
    assert_ne!(port_b, 0);
    assert_ne!(port_a, port_b);
    assert_eq!(manager.get_port("a"), Some(port_a));
    assert_eq!(manager.get_port("b"), Some(port_b));
}

#[test]
fn requested_port_is_used_as_given() {
    let mut manager: SphinxManager<NullChild> = SphinxManager::new();
    let mut allocator = EphemeralPortCounter::new();
    let mut launcher = StubLauncher::new();
    let mut sink = RecordingSink::new();
    let port = start_session(&mut manager, &mut allocator, &mut launcher, &mut sink, "doc", 8080);
    assert_eq!(port, 8080);
    assert_eq!(manager.get_port("doc"), Some(8080));
}

#[test]
fn start_replaces_existing_session() {
    let mut manager: SphinxManager<NullChild> = SphinxManager::new();
    let mut allocator = EphemeralPortCounter::new();
    let mut launcher = StubLauncher::new();
    let mut sink = RecordingSink::new();
    let first = start_session(&mut manager, &mut allocator, &mut launcher, &mut sink, "doc", 0);
    let second = start_session(&mut manager, &mut allocator, &mut launcher, &mut sink, "doc", 0);
    assert_ne!(first, second);
    assert_eq!(manager.get_port("doc"), Some(second));
    assert_eq!(launcher.plan_count(), 2);
}

#[test]
fn launch_plan_carries_exact_command_line() {
    let mut manager: SphinxManager<NullChild> = SphinxManager::new();
    let mut allocator = EphemeralPortCounter::new();
    let mut launcher = StubLauncher::new();
    let mut sink = RecordingSink::new();
    let port = start_session(&mut manager, &mut allocator, &mut launcher, &mut sink, "doc", 0);
    assert_eq!(launcher.plan_count(), 1);
    let plan = launcher.get_plan(0);
    assert_eq!(plan.program, "python");
    assert_eq!(plan.cwd, "/proj");
    let expected: Vec<String> = vec![
        "-m".to_string(),
        "sphinx_autobuild".to_string(),
        "/proj/docs".to_string(),
        "/proj/_build/html".to_string(),
        "--port".to_string(),
        port.to_string(),
        "--host".to_string(),
        "127.0.0.1".to_string(),
        "--open-browser=false".to_string(),
    ];
    assert_eq!(plan.args, expected);
}

#[test]
fn extra_args_are_appended_last() {
    let mut manager: SphinxManager<NullChild> = SphinxManager::new();
    let mut allocator = EphemeralPortCounter::new();
    let mut launcher = StubLauncher::new();
    let mut sink = RecordingSink::new();
    let extra: Vec<String> = vec!["--ignore".to_string(), "*.tmp".to_string()];
    manager
        .start(
            "doc".to_string(),
            "/proj".to_string(),
            "docs".to_string(),
            "_build".to_string(),
            "python".to_string(),
            9000,
            extra,
            &mut allocator,
            &mut launcher,
            &mut sink,
        )
        .unwrap();
    let plan = launcher.get_plan(0);
    let tail: Vec<&str> = plan.args[plan.args.len() - 2..].iter().map(|s| s.as_str()).collect();
    assert_eq!(tail, vec!["--ignore", "*.tmp"]);
}

#[test]
fn shutdown_stops_every_session() {
    let mut manager: SphinxManager<NullChild> = SphinxManager::new();
    let mut allocator = EphemeralPortCounter::new();
    let mut launcher = StubLauncher::new();
    let mut sink = RecordingSink::new();
    start_session(&mut manager, &mut allocator, &mut launcher, &mut sink, "a", 0);
    start_session(&mut manager, &mut allocator, &mut launcher, &mut sink, "b", 0);
    manager.shutdown();
    assert!(!manager.is_running("a"));
    assert!(!manager.is_running("b"));
}

#[test]
fn allocator_never_repeats_ports() {
    let mut allocator = EphemeralPortCounter::new();
    let first = allocator.find_available_port().unwrap();
    let second = allocator.find_available_port().unwrap();
    let third = allocator.find_available_port().unwrap();
    assert_ne!(first, second);
    assert_ne!(second, third);
    assert_ne!(first, third);
}

struct FailingChild;

impl orthrus::sphinx::ChildProcess for FailingChild {
    fn kill(&mut self) -> Result<(), String> {
        Err("termination refused".to_string())
    }
}

struct FailingChildLauncher;

impl orthrus::sphinx::ProcessLauncher<FailingChild, ()> for FailingChildLauncher {
    fn launch(
        &mut self,
        _plan: &orthrus::sphinx::LaunchPlan,
    ) -> Result<(FailingChild, ()), String> {
        Ok((FailingChild, ()))
    }
}

struct RefusingLauncher;

impl orthrus::sphinx::ProcessLauncher<NullChild, ()> for RefusingLauncher {
    fn launch(
        &mut self,
        _plan: &orthrus::sphinx::LaunchPlan,
    ) -> Result<(NullChild, ()), String> {
        Err("no interpreter here".to_string())
    }
}

#[test]
fn stop_failure_still_deregisters_the_session() {
    let mut manager: SphinxManager<FailingChild> = SphinxManager::new();
    let mut allocator = EphemeralPortCounter::new();
    let mut launcher = FailingChildLauncher;
    let mut sink = RecordingSink::new();
    manager
        .start(
            "doc".to_string(),
            "/proj".to_string(),
            "docs".to_string(),
            "_build".to_string(),
            "python".to_string(),
            0,
            Vec::new(),
            &mut allocator,
            &mut launcher,
            &mut sink,
        )
        .unwrap();
    let stopped = manager.stop("doc");
    assert!(stopped.is_err());
    assert!(!manager.is_running("doc"));
    assert!(manager.get_port("doc").is_none());
    // Stopping again is a success: the id is no longer live.
    assert!(manager.stop("doc").is_ok());
}

#[test]
fn launch_failure_registers_nothing_and_announces_nothing() {
    let mut manager: SphinxManager<NullChild> = SphinxManager::new();
    let mut allocator = EphemeralPortCounter::new();
    let mut launcher = RefusingLauncher;
    let mut sink = RecordingSink::new();
    let result = manager.start(
        "doc".to_string(),
        "/proj".to_string(),
        "docs".to_string(),
        "_build".to_string(),
        "python".to_string(),
        0,
        Vec::new(),
        &mut allocator,
        &mut launcher,
        &mut sink,
    );
    assert_eq!(result.err(), Some("no interpreter here".to_string()));
    assert!(!manager.is_running("doc"));
    assert_eq!(sink.len(), 0);
}

#[test]
fn allocator_reports_exhaustion() {
    let mut allocator = EphemeralPortCounter::new();
    let mut last_port = 0u16;
    loop {
        match allocator.find_available_port() {
            Ok(port) => {
                assert!(port > last_port);
                last_port = port;
            }
            Err(message) => {
                assert!(message.contains("exhausted"));
                break;
            }
        }
    }
    assert_eq!(last_port, u16::MAX - 1);
}
