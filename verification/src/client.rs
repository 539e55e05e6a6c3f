//! The supervisor of one validator connection.
//!
//! The oracle makes outbound connections to the validator, and is technically
//! a client; once connected it answers requests, and otherwise acts as a
//! service. A `Client` decides what happens between sessions: it classifies
//! how a session ended, writes the log record, and either stops or asks for a
//! new connection after a fixed delay. It does no I/O: the caller dials,
//! serves, sleeps and catches faults, and reports each event to the `Client`.

use crate::config::ValidatorConfig;
use crate::error::Error;
use vstd::prelude::*;
use vstd::string::*;

verus! {

/// How long to wait after a failure before connecting again (in seconds).
pub const RESPAWN_DELAY: u64 = 5;

/// How one session ended.
#[derive(Clone, Debug, PartialEq, Eq)]
pub enum Outcome {
    /// The validator closed the connection between two requests.
    Graceful,
    /// The session ended with an ordinary error.
    Failed(Error),
    /// A fault that would have ended the thread was caught at the isolation
    /// boundary; the text is its diagnostic, where one could be had.
    Fault(Option<String>),
}

impl Outcome {
    /// Whether the session ended in any way but a clean close.
    pub open spec fn is_failure(self) -> bool {
        !(self is Graceful)
    }

    /// The outcome of a session that ran to its end without a fault: a
    /// clean close where it ended well, a failure with its error otherwise.
    pub fn of(end: Result<(), Error>) -> (outcome: Outcome)
        ensures
            outcome == (match end {
                Ok(_) => Outcome::Graceful,
                Err(error) => Outcome::Failed(error),
            }),
    {
        match end {
            Ok(_) => Outcome::Graceful,
            Err(error) => Outcome::Failed(error),
        }
    }
}

/// Where the supervisor stands.
#[derive(Clone, Copy, Debug, PartialEq, Eq, Structural)]
pub enum Phase {
    /// A connection attempt is under way.
    Connecting,
    /// A session is serving requests.
    Serving,
    /// A session failed; the delay before the next attempt is running.
    Backoff,
    /// Supervision has ended for good.
    Stopped,
}

/// What the caller reports to the supervisor.
#[derive(Clone, Debug, PartialEq, Eq)]
pub enum Event {
    /// The connection attempt succeeded.
    Established,
    /// The session, or the attempt to connect, ended.
    Ended(Outcome),
    /// The delay before the next attempt has passed.
    DelayElapsed,
}

/// What the caller does next.
#[derive(Clone, Copy, Debug, PartialEq, Eq, Structural)]
pub enum Command {
    /// Dial the validator.
    Connect,
    /// Serve requests until the session ends.
    Serve,
    /// Wait this many seconds, then report `DelayElapsed`.
    Sleep(u64),
    /// End the supervising thread.
    Halt,
}

/// How grave a log record is.
#[derive(Clone, Copy, Debug, PartialEq, Eq, Structural)]
pub enum Severity {
    Info,
    Error,
}

/// One record for the structured log sink.
#[derive(Clone, Debug, PartialEq, Eq)]
pub struct LogRecord {
    /// Identifier of the validator from the configuration.
    pub label: String,
    /// Address of the validator.
    pub addr: String,
    /// Port of the validator.
    pub port: u16,
    pub severity: Severity,
    pub message: String,
}

/// The supervisor's answer to an event.
#[derive(Clone, Debug, PartialEq, Eq)]
pub struct Reaction {
    /// The record to log, if the event ended a session.
    pub record: Option<LogRecord>,
    /// What the caller does next.
    pub command: Command,
}

/// The phase that follows `phase` on `event`, where `retries` says whether
/// the policy reconnects after a failure. An event that does not belong to
/// the phase changes nothing. A failure leads to `Backoff`; with
/// reconnecting switched off the backoff ends at once, in `Stopped`.
pub open spec fn next_phase(retries: bool, phase: Phase, event: Event) -> Phase {
    match (phase, event) {
        (Phase::Connecting, Event::Established) => Phase::Serving,
        (Phase::Connecting, Event::Ended(outcome)) | (Phase::Serving, Event::Ended(outcome)) => {
            if outcome is Graceful || !retries {
                Phase::Stopped
            } else {
                Phase::Backoff
            }
        },
        (Phase::Backoff, Event::DelayElapsed) => Phase::Connecting,
        _ => phase,
    }
}

/// What the caller has to do while the supervisor is in `phase`.
pub open spec fn command_in(phase: Phase) -> Command {
    match phase {
        Phase::Connecting => Command::Connect,
        Phase::Serving => Command::Serve,
        Phase::Backoff => Command::Sleep(RESPAWN_DELAY),
        Phase::Stopped => Command::Halt,
    }
}

/// Whether `event` ends a session in `phase`, so that a record is logged.
pub open spec fn ends_session(phase: Phase, event: Event) -> bool {
    event is Ended && (phase == Phase::Connecting || phase == Phase::Serving)
}

/// The severity with which the end of a session is logged.
pub open spec fn severity_of(outcome: Outcome) -> Severity {
    if outcome is Graceful {
        Severity::Info
    } else {
        Severity::Error
    }
}

/// The message with which the end of a session is logged.
pub open spec fn message_of(outcome: Outcome) -> Seq<char> {
    match outcome {
        Outcome::Graceful => "session closed gracefully"@,
        Outcome::Failed(error) => error.text(),
        Outcome::Fault(Some(cause)) => "client fault: "@ + cause@,
        Outcome::Fault(None) => "client fault: (unknown cause)"@,
    }
}

/// The phase reached from `phase` by a sequence of events.
pub open spec fn phase_after(retries: bool, phase: Phase, events: Seq<Event>) -> Phase
    decreases events.len(),
{
    if events.len() == 0 {
        phase
    } else {
        next_phase(retries, phase_after(retries, phase, events.drop_last()), events.last())
    }
}

/// The number of connection attempts that a sequence of events starts: the
/// steps that enter `Connecting` from another phase.
pub open spec fn attempts_started(retries: bool, phase: Phase, events: Seq<Event>) -> nat
    decreases events.len(),
{
    if events.len() == 0 {
        0
    } else {
        let before = phase_after(retries, phase, events.drop_last());
        let after = next_phase(retries, before, events.last());
        let earlier = attempts_started(retries, phase, events.drop_last());
        if before != Phase::Connecting && after == Phase::Connecting {
            earlier + 1
        } else {
            earlier
        }
    }
}

/// Client connections: the supervisor of the connection to one validator.
///
/// The `Client` does not deal with network I/O, which is the caller's, nor
/// with the protocol, which is the session's. It decides about respawning
/// sessions in the event of errors.
pub struct Client {
    /// Identifier for this validator from the configuration.
    label: String,
    /// Address, port and reconnect policy of the validator.
    config: ValidatorConfig,
    /// Where the supervisor stands.
    phase: Phase,
}

impl Client {
    /// The identifier of the validator.
    pub closed spec fn label_text(self) -> Seq<char> {
        self.label@
    }

    /// The validator's address, port and policy.
    pub closed spec fn target(self) -> ValidatorConfig {
        self.config
    }

    /// Where the supervisor stands.
    pub closed spec fn current(self) -> Phase {
        self.phase
    }

    /// A supervisor for one validator, about to make its first connection
    /// attempt.
    pub fn new(label: String, config: ValidatorConfig) -> (client: Client)
        ensures
            client.label_text() == label@,
            client.target() == config,
            client.current() == Phase::Connecting,
    {
        Client { label, config, phase: Phase::Connecting }
    }

    /// The identifier of the validator.
    pub fn label(&self) -> (out: &str)
        ensures
            out@ == self.label_text(),
    {
        self.label.as_str()
    }

    /// The validator's address, port and policy.
    pub fn config(&self) -> (out: &ValidatorConfig)
        ensures
            *out == self.target(),
    {
        &self.config
    }

    /// Where the supervisor stands.
    pub fn phase(&self) -> (out: Phase)
        ensures
            out == self.current(),
    {
        self.phase
    }

    /// What the caller has to do now.
    pub fn command(&self) -> (out: Command)
        ensures
            out == command_in(self.current()),
    {
        match self.phase {
            Phase::Connecting => Command::Connect,
            Phase::Serving => Command::Serve,
            Phase::Backoff => Command::Sleep(RESPAWN_DELAY),
            Phase::Stopped => Command::Halt,
        }
    }

    /// The record that logs the end of a session on this connection.
    pub fn record(&self, outcome: &Outcome) -> (out: LogRecord)
        ensures
            out.label@ == self.label_text(),
            out.addr@ == self.target().addr@,
            out.port == self.target().port,
            out.severity == severity_of(*outcome),
            out.message@ == message_of(*outcome),
    {
        let severity = match outcome {
            Outcome::Graceful => Severity::Info,
            _ => Severity::Error,
        };
        let message = match outcome {
            Outcome::Graceful => String::from_str("session closed gracefully"),
            Outcome::Failed(error) => error.message(),
            Outcome::Fault(Some(cause)) => {
                String::from_str("client fault: ").concat(cause.as_str())
            },
            Outcome::Fault(None) => String::from_str("client fault: (unknown cause)"),
        };
        LogRecord {
            label: self.label.clone(),
            addr: self.config.addr.clone(),
            port: self.config.port,
            severity,
            message,
        }
    }

    /// Takes one event and says what to log and what to do next.
    ///
    /// The end of a session is logged before anything is decided. A clean
    /// close stops supervision for good. After any other end the supervisor
    /// stops if reconnecting is switched off, and otherwise asks for a sleep
    /// of `RESPAWN_DELAY` seconds, after which it asks for a new connection.
    pub fn handle(&mut self, event: Event) -> (reaction: Reaction)
        ensures
            final(self).label_text() == old(self).label_text(),
            final(self).target() == old(self).target(),
            final(self).current() == next_phase(
                old(self).target().retries(),
                old(self).current(),
                event,
            ),
            reaction.command == command_in(final(self).current()),
            ends_session(old(self).current(), event) <==> reaction.record is Some,
            ends_session(old(self).current(), event) ==> ({
                let record = reaction.record->Some_0;
                &&& record.label@ == old(self).label_text()
                &&& record.addr@ == old(self).target().addr@
                &&& record.port == old(self).target().port
                &&& record.severity == severity_of(event->Ended_0)
                &&& record.message@ == message_of(event->Ended_0)
            }),
    {
        let mut record: Option<LogRecord> = None;
        match (self.phase, event) {
            (Phase::Connecting, Event::Established) => {
                self.phase = Phase::Serving;
            },
            (Phase::Connecting, Event::Ended(outcome)) | (Phase::Serving, Event::Ended(outcome)) => {
                record = Some(self.record(&outcome));
                let graceful = match outcome {
                    Outcome::Graceful => true,
                    _ => false,
                };
                // Stop if the peer closed, or if auto-reconnect is explicitly disabled
                if graceful || !self.config.reconnects() {
                    self.phase = Phase::Stopped;
                } else {
                    self.phase = Phase::Backoff;
                }
            },
            (Phase::Backoff, Event::DelayElapsed) => {
                self.phase = Phase::Connecting;
            },
            _ => {},
        }
        Reaction { record, command: self.command() }
    }
}

/// The events of one failed round: the connection attempt, which may or may
/// not get as far as a session, then the failure, then the end of the delay.
pub open spec fn failed_round(established: bool, outcome: Outcome) -> Seq<Event> {
    if established {
        seq![Event::Established, Event::Ended(outcome), Event::DelayElapsed]
    } else {
        seq![Event::Ended(outcome), Event::DelayElapsed]
    }
}

/// The events of a run of failed rounds, one after the other.
pub open spec fn failed_rounds(rounds: Seq<(bool, Outcome)>) -> Seq<Event>
    decreases rounds.len(),
{
    if rounds.len() == 0 {
        Seq::empty()
    } else {
        failed_rounds(rounds.drop_last()) + failed_round(rounds.last().0, rounds.last().1)
    }
}

/// Running two sequences of events one after the other is running their
/// concatenation, for the phase reached and for the attempts started.
pub proof fn lemma_events_concat(retries: bool, phase: Phase, first: Seq<Event>, second: Seq<Event>)
    ensures
        phase_after(retries, phase, first + second) == phase_after(
            retries,
            phase_after(retries, phase, first),
            second,
        ),
        attempts_started(retries, phase, first + second) == attempts_started(
            retries,
            phase,
            first,
        ) + attempts_started(retries, phase_after(retries, phase, first), second),
    decreases second.len(),
{
    if second.len() == 0 {
        assert(first + second =~= first);
    } else {
        assert((first + second).drop_last() =~= first + second.drop_last());
        assert((first + second).last() == second.last());
        lemma_events_concat(retries, phase, first, second.drop_last());
    }
}

/// `Stopped` is terminal: whatever is reported to a stopped supervisor, it
/// stays stopped, asks for nothing but to halt, and starts no connection
/// attempt.
pub proof fn lemma_stopped_is_terminal(retries: bool, events: Seq<Event>)
    ensures
        phase_after(retries, Phase::Stopped, events) == Phase::Stopped,
        command_in(phase_after(retries, Phase::Stopped, events)) == Command::Halt,
        attempts_started(retries, Phase::Stopped, events) == 0,
    decreases events.len(),
{
    if events.len() > 0 {
        lemma_stopped_is_terminal(retries, events.drop_last());
    }
}

/// A new connection attempt starts only when the delay of a backoff has
/// passed, and the delay that a backoff asks for is `RESPAWN_DELAY` seconds.
pub proof fn lemma_attempt_follows_delay(retries: bool, phase: Phase, event: Event)
    requires
        phase != Phase::Connecting,
        next_phase(retries, phase, event) == Phase::Connecting,
    ensures
        phase == Phase::Backoff,
        event == Event::DelayElapsed,
        command_in(phase) == Command::Sleep(RESPAWN_DELAY),
{
}

/// With reconnecting switched off, the first session that ends otherwise
/// than by a clean close stops the supervisor: it asks the caller to halt,
/// and whatever is reported later it stays stopped and starts no further
/// connection attempt.
pub proof fn lemma_reconnect_disabled_stops(phase: Phase, outcome: Outcome, later: Seq<Event>)
    requires
        phase == Phase::Connecting || phase == Phase::Serving,
        outcome.is_failure(),
    ensures
        next_phase(false, phase, Event::Ended(outcome)) == Phase::Stopped,
        command_in(next_phase(false, phase, Event::Ended(outcome))) == Command::Halt,
        phase_after(false, phase, seq![Event::Ended(outcome)] + later) == Phase::Stopped,
        attempts_started(false, phase, seq![Event::Ended(outcome)] + later) == 0,
{
    let first = seq![Event::Ended(outcome)];
    assert(first.drop_last() =~= Seq::<Event>::empty());
    assert(phase_after(false, phase, first.drop_last()) == phase);
    assert(phase_after(false, phase, first) == Phase::Stopped);
    assert(attempts_started(false, phase, first.drop_last()) == 0);
    assert(attempts_started(false, phase, first) == 0);
    lemma_events_concat(false, phase, first, later);
    lemma_stopped_is_terminal(false, later);
}

/// With reconnecting left on, one failed round brings the supervisor back to
/// `Connecting`: the failure sends it into a backoff of `RESPAWN_DELAY`
/// seconds, and the end of the delay starts exactly one new attempt.
pub proof fn lemma_failed_round_reconnects(established: bool, outcome: Outcome)
    requires
        outcome.is_failure(),
    ensures
        phase_after(true, Phase::Connecting, failed_round(established, outcome))
            == Phase::Connecting,
        attempts_started(true, Phase::Connecting, failed_round(established, outcome)) == 1,
        phase_after(true, Phase::Connecting, failed_round(established, outcome).drop_last())
            == Phase::Backoff,
        command_in(Phase::Backoff) == Command::Sleep(RESPAWN_DELAY),
{
    let round = failed_round(established, outcome);
    let r1 = round.drop_last();
    let r2 = r1.drop_last();
    if established {
        let r3 = r2.drop_last();
        assert(r3 =~= Seq::<Event>::empty());
        assert(phase_after(true, Phase::Connecting, r3) == Phase::Connecting);
        assert(attempts_started(true, Phase::Connecting, r3) == 0);
        assert(r2.last() == Event::Established);
        assert(phase_after(true, Phase::Connecting, r2) == Phase::Serving);
        assert(attempts_started(true, Phase::Connecting, r2) == 0);
    } else {
        assert(r2 =~= Seq::<Event>::empty());
        assert(phase_after(true, Phase::Connecting, r2) == Phase::Connecting);
        assert(attempts_started(true, Phase::Connecting, r2) == 0);
    }
    assert(r1.last() == Event::Ended(outcome));
    assert(phase_after(true, Phase::Connecting, r1) == Phase::Backoff);
    assert(attempts_started(true, Phase::Connecting, r1) == 0);
    assert(round.last() == Event::DelayElapsed);
}

/// With reconnecting left on, which is the default, the supervisor never
/// gives up: after any number of failed rounds it is connecting again, and
/// it has started one new attempt for each failure.
pub proof fn lemma_reconnects_after_every_failure(rounds: Seq<(bool, Outcome)>)
    requires
        forall|i: int| 0 <= i < rounds.len() ==> (#[trigger] rounds[i]).1.is_failure(),
    ensures
        phase_after(true, Phase::Connecting, failed_rounds(rounds)) == Phase::Connecting,
        attempts_started(true, Phase::Connecting, failed_rounds(rounds)) == rounds.len(),
    decreases rounds.len(),
{
    if rounds.len() > 0 {
        let earlier = rounds.drop_last();
        let last = rounds.last();
        lemma_reconnects_after_every_failure(earlier);
        lemma_failed_round_reconnects(last.0, last.1);
        lemma_events_concat(
            true,
            Phase::Connecting,
            failed_rounds(earlier),
            failed_round(last.0, last.1),
        );
    }
}

/// A caught fault is treated exactly as an ordinary error: from the same
/// phase and under the same policy it is logged with the same severity,
/// leads to the same phase and so to the same command.
pub proof fn lemma_fault_is_handled_as_error(
    retries: bool,
    phase: Phase,
    cause: Option<String>,
    error: Error,
)
    ensures
        next_phase(retries, phase, Event::Ended(Outcome::Fault(cause))) == next_phase(
            retries,
            phase,
            Event::Ended(Outcome::Failed(error)),
        ),
        ends_session(phase, Event::Ended(Outcome::Fault(cause))) == ends_session(
            phase,
            Event::Ended(Outcome::Failed(error)),
        ),
        severity_of(Outcome::Fault(cause)) == severity_of(Outcome::Failed(error)),
{
}

/// A clean close by the validator stops the supervisor whatever the policy:
/// the close is logged as information, the caller is asked to halt, and no
/// connection attempt follows, whatever is reported later.
pub proof fn lemma_graceful_close_stops(retries: bool, phase: Phase, later: Seq<Event>)
    requires
        phase == Phase::Connecting || phase == Phase::Serving,
    ensures
        ends_session(phase, Event::Ended(Outcome::Graceful)),
        severity_of(Outcome::Graceful) == Severity::Info,
        message_of(Outcome::Graceful) == "session closed gracefully"@,
        next_phase(retries, phase, Event::Ended(Outcome::Graceful)) == Phase::Stopped,
        command_in(Phase::Stopped) == Command::Halt,
        phase_after(retries, phase, seq![Event::Ended(Outcome::Graceful)] + later)
            == Phase::Stopped,
        attempts_started(retries, phase, seq![Event::Ended(Outcome::Graceful)] + later) == 0,
{
    let first = seq![Event::Ended(Outcome::Graceful)];
    assert(first.drop_last() =~= Seq::<Event>::empty());
    assert(phase_after(retries, phase, first.drop_last()) == phase);
    assert(phase_after(retries, phase, first) == Phase::Stopped);
    assert(attempts_started(retries, phase, first.drop_last()) == 0);
    assert(attempts_started(retries, phase, first) == 0);
    lemma_events_concat(retries, phase, first, later);
    lemma_stopped_is_terminal(retries, later);
}

} // verus!
