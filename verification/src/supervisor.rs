//! The agent's lifecycle: attach the probe, run the consumer and the metrics
//! endpoint, and stop both on an interrupt. The supervisor is told what
//! happened and answers with what to do.

use vstd::prelude::*;

verus! {

/// The port of the metrics endpoint where none is configured.
pub const DEFAULT_METRICS_PORT: u16 = 8080;

/// The path of the metrics endpoint.
pub const METRICS_PATH: &'static str = "/metrics";

/// The exit code after an orderly shutdown.
pub const EXIT_OK: u8 = 0;

/// The exit code where the probe could not be attached.
pub const EXIT_ATTACH_FAILED: u8 = 1;

/// Where the agent stands.
#[derive(Copy, Clone, Debug, PartialEq, Eq, Structural)]
pub enum Phase {
    /// The probe is being loaded and attached.
    Starting,
    /// The probe is attached; the tasks are not running yet.
    Attached,
    /// The consumer and the metrics endpoint are running.
    Running,
    /// An interrupt came; the tasks are being cancelled.
    ShuttingDown,
    /// The process is to exit.
    Stopped,
}

/// What happened.
#[derive(Copy, Clone, Debug, PartialEq, Eq, Structural)]
pub enum Signal {
    /// The probe was attached to the tracepoint.
    ProbeAttached,
    /// The probe could not be loaded or attached.
    AttachFailed,
    /// The consumer and the metrics endpoint were started.
    TasksSpawned,
    /// The process was interrupted.
    Interrupt,
    /// Both tasks were told to stop.
    TasksCancelled,
}

/// What to do next.
#[derive(Copy, Clone, Debug, PartialEq, Eq, Structural)]
pub enum Command {
    /// Start the consumer and the metrics endpoint.
    SpawnTasks,
    /// Wait for an interrupt.
    AwaitInterrupt,
    /// Cancel both tasks, without waiting for work in flight.
    CancelTasks,
    /// Leave with this exit code.
    Exit(u8),
    /// Nothing: the signal does not belong to this phase.
    Ignore,
}

/// The phase that follows `phase` on `signal`, and what to do.
pub open spec fn transition(phase: Phase, signal: Signal) -> (Phase, Command) {
    match (phase, signal) {
        (Phase::Starting, Signal::ProbeAttached) => (Phase::Attached, Command::SpawnTasks),
        (Phase::Starting, Signal::AttachFailed) => (
            Phase::Stopped,
            Command::Exit(EXIT_ATTACH_FAILED),
        ),
        (Phase::Attached, Signal::TasksSpawned) => (Phase::Running, Command::AwaitInterrupt),
        (Phase::Running, Signal::Interrupt) => (Phase::ShuttingDown, Command::CancelTasks),
        (Phase::ShuttingDown, Signal::TasksCancelled) => (Phase::Stopped, Command::Exit(EXIT_OK)),
        _ => (phase, Command::Ignore),
    }
}

/// How far a phase is along the way from start to stop.
pub open spec fn rank(phase: Phase) -> nat {
    match phase {
        Phase::Starting => 0,
        Phase::Attached => 1,
        Phase::Running => 2,
        Phase::ShuttingDown => 3,
        Phase::Stopped => 4,
    }
}

/// The phase after a run of signals, the first one first.
pub open spec fn phase_after(phase: Phase, signals: Seq<Signal>) -> Phase
    decreases signals.len(),
{
    if signals.len() == 0 {
        phase
    } else {
        transition(phase_after(phase, signals.drop_last()), signals.last()).0
    }
}

/// The supervisor's answer to `signal` in `phase`. A failed attach ends the
/// process at once with a failure; an orderly end goes through every phase.
pub fn supervise(phase: Phase, signal: Signal) -> (next: (Phase, Command))
    ensures
        next == transition(phase, signal),
{
    match phase {
        Phase::Starting => match signal {
            Signal::ProbeAttached => (Phase::Attached, Command::SpawnTasks),
            Signal::AttachFailed => (Phase::Stopped, Command::Exit(EXIT_ATTACH_FAILED)),
            _ => (phase, Command::Ignore),
        },
        Phase::Attached => match signal {
            Signal::TasksSpawned => (Phase::Running, Command::AwaitInterrupt),
            _ => (phase, Command::Ignore),
        },
        Phase::Running => match signal {
            Signal::Interrupt => (Phase::ShuttingDown, Command::CancelTasks),
            _ => (phase, Command::Ignore),
        },
        Phase::ShuttingDown => match signal {
            Signal::TasksCancelled => (Phase::Stopped, Command::Exit(EXIT_OK)),
            _ => (phase, Command::Ignore),
        },
        Phase::Stopped => (phase, Command::Ignore),
    }
}

/// No signal takes the agent back: a step keeps the phase or moves it on,
/// and from `Stopped` there is no way on. The process is told to exit
/// exactly when it reaches `Stopped`, with success only after a shutdown.
pub proof fn lemma_lifecycle(phase: Phase, signal: Signal)
    ensures
        rank(phase) <= rank(transition(phase, signal).0),
        phase == Phase::Stopped ==> transition(phase, signal) == (phase, Command::Ignore),
        transition(phase, signal).1 is Exit <==> phase != Phase::Stopped && transition(
            phase,
            signal,
        ).0 == Phase::Stopped,
        transition(phase, signal).1 == Command::Exit(EXIT_OK) ==> phase == Phase::ShuttingDown,
{
}

/// A run of signals never takes the agent back either, and the tasks run
/// only where the probe was attached before.
pub proof fn lemma_lifecycle_of_run(phase: Phase, signals: Seq<Signal>)
    ensures
        rank(phase) <= rank(phase_after(phase, signals)),
        phase == Phase::Starting && phase_after(phase, signals) == Phase::Running
            ==> signals.contains(Signal::ProbeAttached),
    decreases signals.len(),
{
    if signals.len() > 0 {
        let before = signals.drop_last();
        lemma_lifecycle_of_run(phase, before);
        lemma_lifecycle(phase_after(phase, before), signals.last());
        if phase == Phase::Starting && phase_after(phase, signals) == Phase::Running {
            if signals.last() == Signal::ProbeAttached {
                assert(signals[signals.len() - 1] == Signal::ProbeAttached);
            } else {
                lemma_running_needs_attach(before);
                let i = choose|i: int| 0 <= i < before.len() && before[i] == Signal::ProbeAttached;
                assert(signals[i] == Signal::ProbeAttached);
            }
        }
    }
}

proof fn lemma_running_needs_attach(signals: Seq<Signal>)
    ensures
        rank(phase_after(Phase::Starting, signals)) >= 1 && phase_after(Phase::Starting, signals)
            != Phase::Stopped ==> signals.contains(Signal::ProbeAttached),
        phase_after(Phase::Starting, signals) == Phase::Stopped && !signals.contains(
            Signal::ProbeAttached,
        ) ==> signals.contains(Signal::AttachFailed),
    decreases signals.len(),
{
    if signals.len() > 0 {
        let before = signals.drop_last();
        lemma_running_needs_attach(before);
        if before.contains(Signal::ProbeAttached) {
            let i = choose|i: int| 0 <= i < before.len() && before[i] == Signal::ProbeAttached;
            assert(signals[i] == Signal::ProbeAttached);
        }
        if before.contains(Signal::AttachFailed) {
            let i = choose|i: int| 0 <= i < before.len() && before[i] == Signal::AttachFailed;
            assert(signals[i] == Signal::AttachFailed);
        }
        assert(signals[signals.len() - 1] == signals.last());
    }
}

/// The value of a decimal digit; `None` for any other character.
pub open spec fn digit_of(c: char) -> Option<nat> {
    let code = c as int;
    if 48 <= code <= 57 {
        Some((code - 48) as nat)
    } else {
        None
    }
}

/// The number that a run of decimal digits spells; `None` where one of the
/// characters is no digit.
pub open spec fn decimal_value(digits: Seq<char>) -> Option<nat>
    decreases digits.len(),
{
    if digits.len() == 0 {
        Some(0)
    } else {
        match (decimal_value(digits.drop_last()), digit_of(digits.last())) {
            (Some(high), Some(low)) => Some(high * 10 + low),
            _ => None,
        }
    }
}

/// The 16-bit number that a text spells: an optional `+`, then one or more
/// decimal digits whose value is at most 65535. Any other text spells none.
pub open spec fn parsed_u16(text: Seq<char>) -> Option<u16> {
    let digits = if text.len() > 0 && text[0] == '+' {
        text.drop_first()
    } else {
        text
    };
    match decimal_value(digits) {
        Some(value) => if digits.len() > 0 && value <= u16::MAX {
            Some(value as u16)
        } else {
            None
        },
        None => None,
    }
}

/// `str::parse::<u16>` of std. Trusted: as std documents it, the text is an
/// optional `+` sign followed by only digits, and a value that does not fit
/// is an error, as is an empty text.
#[verifier::external_body]
fn parse_u16(text: &str) -> (r: Option<u16>)
    ensures
        r == parsed_u16(text@),
{
    text.parse::<u16>().ok()
}

/// The port for what was parsed from the configuration.
pub fn port_or_default(parsed: Option<u16>) -> (port: u16)
    ensures
        port == match parsed {
            Some(p) => p,
            None => DEFAULT_METRICS_PORT,
        },
{
    match parsed {
        Some(p) => p,
        None => DEFAULT_METRICS_PORT,
    }
}

/// The port of the metrics endpoint: the configured one where it is a port
/// number, the default where nothing is configured or the text is none.
pub fn metrics_port(configured: Option<&str>) -> (port: u16)
    ensures
        port == match configured {
            Some(text) => match parsed_u16(text@) {
                Some(p) => p,
                None => DEFAULT_METRICS_PORT,
            },
            None => DEFAULT_METRICS_PORT,
        },
{
    match configured {
        Some(text) => port_or_default(parse_u16(text)),
        None => DEFAULT_METRICS_PORT,
    }
}

} // verus!
