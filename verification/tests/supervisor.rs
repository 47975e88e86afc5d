use oom_watcher::supervisor::{
    metrics_port, port_or_default, supervise, Command, Phase, Signal, DEFAULT_METRICS_PORT,
    EXIT_ATTACH_FAILED, EXIT_OK, METRICS_PATH,
};

const PHASES: [Phase; 5] =
    [Phase::Starting, Phase::Attached, Phase::Running, Phase::ShuttingDown, Phase::Stopped];
const SIGNALS: [Signal; 5] = [
    Signal::ProbeAttached,
    Signal::AttachFailed,
    Signal::TasksSpawned,
    Signal::Interrupt,
    Signal::TasksCancelled,
];

fn rank(phase: Phase) -> u8 {
    PHASES.iter().position(|p| *p == phase).expect("a phase") as u8
}

#[test]
fn orderly_life_goes_through_every_phase() {
    let (phase, command) = supervise(Phase::Starting, Signal::ProbeAttached);
    assert_eq!((phase, command), (Phase::Attached, Command::SpawnTasks));
    let (phase, command) = supervise(phase, Signal::TasksSpawned);
    assert_eq!((phase, command), (Phase::Running, Command::AwaitInterrupt));
    let (phase, command) = supervise(phase, Signal::Interrupt);
    assert_eq!((phase, command), (Phase::ShuttingDown, Command::CancelTasks));
    let (phase, command) = supervise(phase, Signal::TasksCancelled);
    assert_eq!((phase, command), (Phase::Stopped, Command::Exit(0)));
    assert_eq!(EXIT_OK, 0);
}

#[test]
fn failed_attach_ends_the_process_with_a_failure() {
    let (phase, command) = supervise(Phase::Starting, Signal::AttachFailed);
    assert_eq!(phase, Phase::Stopped);
    assert_eq!(command, Command::Exit(EXIT_ATTACH_FAILED));
    assert_ne!(EXIT_ATTACH_FAILED, 0);
}

#[test]
fn signals_out_of_place_are_ignored() {
    assert_eq!(supervise(Phase::Starting, Signal::Interrupt), (Phase::Starting, Command::Ignore));
    assert_eq!(supervise(Phase::Attached, Signal::Interrupt), (Phase::Attached, Command::Ignore));
    assert_eq!(supervise(Phase::Running, Signal::ProbeAttached), (Phase::Running, Command::Ignore));
    assert_eq!(supervise(Phase::Running, Signal::AttachFailed), (Phase::Running, Command::Ignore));
    assert_eq!(
        supervise(Phase::ShuttingDown, Signal::Interrupt),
        (Phase::ShuttingDown, Command::Ignore)
    );
}

#[test]
fn stopped_stays_stopped() {
    for signal in SIGNALS {
        assert_eq!(supervise(Phase::Stopped, signal), (Phase::Stopped, Command::Ignore));
    }
}

#[test]
fn no_signal_takes_the_agent_back() {
    for phase in PHASES {
        for signal in SIGNALS {
            let (next, command) = supervise(phase, signal);
            assert!(rank(phase) <= rank(next));
            let exits = matches!(command, Command::Exit(_));
            assert_eq!(exits, phase != Phase::Stopped && next == Phase::Stopped);
        }
    }
}

#[test]
fn port_is_the_configured_one_or_the_default() {
    assert_eq!(DEFAULT_METRICS_PORT, 8080);
    assert_eq!(metrics_port(None), 8080);
    assert_eq!(metrics_port(Some("9100")), 9100);
    assert_eq!(metrics_port(Some("0")), 0);
    assert_eq!(metrics_port(Some("65535")), 65535);
    assert_eq!(metrics_port(Some("65536")), 8080);
    assert_eq!(metrics_port(Some("")), 8080);
    assert_eq!(metrics_port(Some("http")), 8080);
    assert_eq!(metrics_port(Some("-1")), 8080);
    assert_eq!(metrics_port(Some(" 9100")), 8080);
    assert_eq!(metrics_port(Some("9100 ")), 8080);
    assert_eq!(metrics_port(Some("+9100")), 9100);
    assert_eq!(metrics_port(Some("0009100")), 9100);
    assert_eq!(metrics_port(Some("000000000000000000000000065535")), 65535);
    assert_eq!(metrics_port(Some("+")), 8080);
    assert_eq!(metrics_port(Some("++1")), 8080);
    assert_eq!(metrics_port(Some("-0")), 8080);
    assert_eq!(metrics_port(Some("9_100")), 8080);
    assert_eq!(metrics_port(Some("0x50")), 8080);
    assert_eq!(metrics_port(Some("\u{663}")), 8080);
    assert_eq!(metrics_port(Some("99999999999999999999999")), 8080);
    assert_eq!(port_or_default(Some(1)), 1);
    assert_eq!(port_or_default(None), 8080);
}

#[test]
fn metrics_live_under_their_path() {
    assert_eq!(METRICS_PATH, "/metrics");
}
