//! The liveness handshake: the decisions of the probe loop, without the
//! socket and the timers.
//!
//! A driver owns the socket. It asks the handshake what to do, does it, and
//! reports what happened; the handshake answers with what to do next. The
//! peer counts as reachable as soon as any datagram comes back. Until then
//! the handshake asks for probe after probe, with no limit of its own: a
//! driver that wants a ceiling reads `probes` and stops calling.

use vstd::prelude::*;

verus! {

/// How long the driver listens for a response to one probe, in seconds.
pub const RESPONSE_TIMEOUT_SECS: u64 = 2;

/// How long the driver waits after a probe went unanswered, in seconds.
pub const BACKOFF_SECS: u64 = 1;

/// What the driver is asked to do.
#[derive(Clone, Copy, Debug, PartialEq, Eq, Structural)]
pub enum ProbeAction {
    /// Send the probe payload to the peer.
    SendProbe,
    /// Wait for any inbound datagram, at most for the given time.
    AwaitResponse { timeout_secs: u64 },
    /// Sleep for the given time.
    Backoff { secs: u64 },
    /// Nothing more: the peer is reachable.
    Done,
}

/// What the driver reports back.
#[derive(Clone, Copy, Debug, PartialEq, Eq, Structural)]
pub enum ProbeEvent {
    /// The probe left the socket.
    ProbeSent,
    /// The socket refused the probe.
    SendFailed,
    /// A datagram arrived; its content does not matter.
    ResponseReceived,
    /// Receiving failed.
    ReceiveFailed,
    /// Nothing arrived within the timeout.
    TimedOut,
    /// The backoff time is over.
    BackoffElapsed,
}

/// Where a handshake stands.
#[derive(Clone, Copy, Debug, PartialEq, Eq, Structural)]
pub enum Phase {
    /// Unreachable; a probe is due.
    Probing,
    /// Unreachable; a probe is out and its response is awaited.
    Listening,
    /// Unreachable; the last probe went unanswered.
    BackingOff,
    /// A response was seen. This phase is never left.
    Reachable,
}

/// The state of one handshake.
#[derive(Clone, Copy, Debug, PartialEq, Eq, Structural)]
pub struct Handshake {
    pub phase: Phase,
    /// The number of probe attempts so far. It stops counting at `u64::MAX`.
    pub probes: u64,
}

/// The event is a report on the action.
pub open spec fn answers(event: ProbeEvent, action: ProbeAction) -> bool {
    match action {
        ProbeAction::SendProbe => event == ProbeEvent::ProbeSent || event
            == ProbeEvent::SendFailed,
        ProbeAction::AwaitResponse { .. } => event == ProbeEvent::ResponseReceived || event
            == ProbeEvent::ReceiveFailed || event == ProbeEvent::TimedOut,
        ProbeAction::Backoff { .. } => event == ProbeEvent::BackoffElapsed,
        ProbeAction::Done => false,
    }
}

/// The longest time that an action keeps the driver waiting, in seconds:
/// listening ends with the timeout at the latest, a backoff lasts as long as
/// it says, and sending counts as taking no time.
pub open spec fn longest_wait(action: ProbeAction) -> nat {
    match action {
        ProbeAction::AwaitResponse { timeout_secs } => timeout_secs as nat,
        ProbeAction::Backoff { secs } => secs as nat,
        _ => 0,
    }
}

/// The shortest time that an action keeps the driver waiting, in seconds:
/// a backoff lasts as long as it says, while listening may end at once.
pub open spec fn shortest_wait(action: ProbeAction) -> nat {
    match action {
        ProbeAction::Backoff { secs } => secs as nat,
        _ => 0,
    }
}

impl Handshake {
    /// The state in which every handshake starts: unreachable, no probe sent.
    pub open spec fn initial() -> Handshake {
        Handshake { phase: Phase::Probing, probes: 0 }
    }

    /// The peer has been seen to respond.
    pub open spec fn reachable(self) -> bool {
        self.phase == Phase::Reachable
    }

    /// The action that is due in this state.
    pub open spec fn pending(self) -> ProbeAction {
        match self.phase {
            Phase::Probing => ProbeAction::SendProbe,
            Phase::Listening => ProbeAction::AwaitResponse { timeout_secs: RESPONSE_TIMEOUT_SECS },
            Phase::BackingOff => ProbeAction::Backoff { secs: BACKOFF_SECS },
            Phase::Reachable => ProbeAction::Done,
        }
    }

    /// The state that follows on an event. A probe is followed by listening
    /// whether or not sending it worked; a response makes the peer reachable;
    /// a timeout and a failed receive both lead to the backoff, and the
    /// backoff to the next probe. An event that is no report on the pending
    /// action changes nothing.
    pub open spec fn after(self, event: ProbeEvent) -> Handshake {
        match (self.phase, event) {
            (Phase::Probing, ProbeEvent::ProbeSent) | (Phase::Probing, ProbeEvent::SendFailed) => {
                Handshake {
                    phase: Phase::Listening,
                    probes: if self.probes < u64::MAX {
                        (self.probes + 1) as u64
                    } else {
                        self.probes
                    },
                }
            },
            (Phase::Listening, ProbeEvent::ResponseReceived) => Handshake {
                phase: Phase::Reachable,
                ..self
            },
            (Phase::Listening, ProbeEvent::ReceiveFailed)
            | (Phase::Listening, ProbeEvent::TimedOut) => Handshake {
                phase: Phase::BackingOff,
                ..self
            },
            (Phase::BackingOff, ProbeEvent::BackoffElapsed) => Handshake {
                phase: Phase::Probing,
                ..self
            },
            _ => self,
        }
    }

    /// The state after a run of events, taken in order.
    pub open spec fn after_all(self, events: Seq<ProbeEvent>) -> Handshake
        decreases events.len(),
    {
        if events.len() == 0 {
            self
        } else {
            self.after_all(events.drop_last()).after(events.last())
        }
    }

    /// Every event of the run is a report on the action that was due when it
    /// came in.
    pub open spec fn orderly(self, events: Seq<ProbeEvent>) -> bool
        decreases events.len(),
    {
        events.len() == 0 || (self.orderly(events.drop_last()) && answers(
            events.last(),
            self.after_all(events.drop_last()).pending(),
        ))
    }

    /// The longest time that the actions behind a run of events can have
    /// taken, in seconds.
    pub open spec fn longest_time(self, events: Seq<ProbeEvent>) -> nat
        decreases events.len(),
    {
        if events.len() == 0 {
            0
        } else {
            self.longest_time(events.drop_last()) + longest_wait(
                self.after_all(events.drop_last()).pending(),
            )
        }
    }

    /// The shortest time that the actions behind a run of events can have
    /// taken, in seconds.
    pub open spec fn shortest_time(self, events: Seq<ProbeEvent>) -> nat
        decreases events.len(),
    {
        if events.len() == 0 {
            0
        } else {
            self.shortest_time(events.drop_last()) + shortest_wait(
                self.after_all(events.drop_last()).pending(),
            )
        }
    }

    /// Starts a handshake.
    pub fn new() -> (handshake: Handshake)
        ensures
            handshake == Handshake::initial(),
    {
        Handshake { phase: Phase::Probing, probes: 0 }
    }

    /// Tells whether the peer has been seen to respond.
    pub fn is_reachable(&self) -> (yes: bool)
        ensures
            yes == self.reachable(),
    {
        match self.phase {
            Phase::Reachable => true,
            _ => false,
        }
    }

    /// The action that is due now.
    pub fn next_action(&self) -> (action: ProbeAction)
        ensures
            action == self.pending(),
    {
        match self.phase {
            Phase::Probing => ProbeAction::SendProbe,
            Phase::Listening => ProbeAction::AwaitResponse { timeout_secs: RESPONSE_TIMEOUT_SECS },
            Phase::BackingOff => ProbeAction::Backoff { secs: BACKOFF_SECS },
            Phase::Reachable => ProbeAction::Done,
        }
    }

    /// Takes in what the driver reports and answers with the action that is
    /// due next.
    pub fn step(&mut self, event: ProbeEvent) -> (action: ProbeAction)
        ensures
            *final(self) == old(self).after(event),
            action == final(self).pending(),
    {
        match (self.phase, event) {
            (Phase::Probing, ProbeEvent::ProbeSent) | (Phase::Probing, ProbeEvent::SendFailed) => {
                self.phase = Phase::Listening;
                if self.probes < u64::MAX {
                    self.probes = self.probes + 1;
                }
            },
            (Phase::Listening, ProbeEvent::ResponseReceived) => {
                self.phase = Phase::Reachable;
            },
            (Phase::Listening, ProbeEvent::ReceiveFailed)
            | (Phase::Listening, ProbeEvent::TimedOut) => {
                self.phase = Phase::BackingOff;
            },
            (Phase::BackingOff, ProbeEvent::BackoffElapsed) => {
                self.phase = Phase::Probing;
            },
            _ => {},
        }
        self.next_action()
    }
}

/// A peer that never responds is never taken for reachable: whatever else
/// is reported, and however often, a handshake that is unreachable stays so
/// as long as no response is among the events.
pub proof fn lemma_unanswered_stays_unreachable(start: Handshake, events: Seq<ProbeEvent>)
    requires
        !start.reachable(),
        forall|i: int| 0 <= i < events.len() ==> events[i] != ProbeEvent::ResponseReceived,
    ensures
        !start.after_all(events).reachable(),
    decreases events.len(),
{
    if events.len() > 0 {
        lemma_unanswered_stays_unreachable(start, events.drop_last());
    }
}

/// A response to the probe that is out makes the peer reachable at once,
/// and nothing is asked of the driver after it.
pub proof fn lemma_response_ends_handshake(start: Handshake)
    requires
        start.phase == Phase::Listening,
    ensures
        start.after(ProbeEvent::ResponseReceived).reachable(),
        start.after(ProbeEvent::ResponseReceived).pending() == ProbeAction::Done,
        start.after(ProbeEvent::ResponseReceived).probes == start.probes,
{
}

/// Reachable is final: no event changes a reachable handshake, so no
/// further probe is counted, and the only action is `Done`.
pub proof fn lemma_reachable_is_final(start: Handshake, events: Seq<ProbeEvent>)
    requires
        start.reachable(),
    ensures
        start.after_all(events) == start,
        start.after_all(events).pending() == ProbeAction::Done,
    decreases events.len(),
{
    if events.len() > 0 {
        lemma_reachable_is_final(start, events.drop_last());
    }
}

/// The cadence of the handshake. In a run from the start in which every
/// event reports on the action that was due, each probe is followed by at
/// most `RESPONSE_TIMEOUT_SECS` of listening and by `BACKOFF_SECS` of
/// backoff before the next probe: three seconds at the longest, one second
/// at the shortest. So a run that has taken `t` seconds has sent at least
/// `t / 3` probes and at most `t + 1`, and where the run stands within its
/// cycle fixes both counts exactly.
pub proof fn lemma_cadence(events: Seq<ProbeEvent>)
    requires
        Handshake::initial().orderly(events),
        events.len() <= u64::MAX,
    ensures
        ({
            let end = Handshake::initial().after_all(events);
            let longest = Handshake::initial().longest_time(events);
            let shortest = Handshake::initial().shortest_time(events);
            &&& end.probes <= events.len()
            &&& match end.phase {
                Phase::Probing => longest == 3 * end.probes && shortest == end.probes,
                Phase::Listening => longest + 3 == 3 * end.probes && shortest + 1 == end.probes,
                Phase::BackingOff => longest + 1 == 3 * end.probes && shortest + 1 == end.probes,
                Phase::Reachable => longest + 1 == 3 * end.probes && shortest + 1 == end.probes,
            }
            &&& longest <= 3 * end.probes
            &&& end.probes <= shortest + 1
        }),
    decreases events.len(),
{
    if events.len() > 0 {
        lemma_cadence(events.drop_last());
    }
}

/// The text of the probe: four ASCII bytes on the wire.
pub open spec fn probe_text() -> Seq<char> {
    "ping"@
}

/// The payload of a probe.
pub fn probe_payload() -> (payload: &'static str)
    ensures
        payload@ == probe_text(),
{
    "ping"
}

} // verus!
