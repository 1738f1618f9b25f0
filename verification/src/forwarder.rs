//! The forwarding round: receive on the first port, transmit on the second,
//! receive on the second, transmit on the first.
//!
//! The forwarder never touches a queue itself. It says which attempt comes
//! next, is told how the attempt went, and keeps the counters.

use vstd::prelude::*;
use crate::lifecycle::QUEUE_ID;
use crate::stats::{
    burst_byte_count, burst_bytes, counter_after, counter_range, lemma_received_grows,
    lemma_transmitted_grows, report_lines, PortStats, ReportLine,
};

verus! {

/// Largest number of packets asked for in one receive attempt.
pub const MAX_BURST: u16 = 32;

/// Which half of a transfer an attempt belongs to.
#[derive(Clone, Copy, Debug, PartialEq, Eq, Structural)]
pub enum Direction {
    Receive,
    Transmit,
}

/// A receive or transmit attempt that the driver reported as failed.
#[derive(Clone, Copy, Debug, PartialEq, Eq, Structural)]
pub struct ForwardError {
    pub port: u16,
    pub direction: Direction,
}

/// The attempt a round is waiting for.
#[derive(Clone, Copy, Debug, PartialEq, Eq, Structural)]
pub enum RoundStep {
    /// Receive on the first port; a round starts here.
    ReceiveFirst,
    /// Transmit on the second port what the first port received.
    TransmitSecond,
    /// Receive on the second port.
    ReceiveSecond,
    /// Transmit on the first port what the second port received.
    TransmitFirst,
}

/// What the caller has to ask of the driver next.
#[derive(Clone, Copy, Debug, PartialEq, Eq, Structural)]
pub enum RoundAction {
    /// Poll `queue` of `port` once for at most `max_packets` packets.
    Receive { port: u16, queue: u16, max_packets: u16 },
    /// Hand the `packets` packets of the last received burst to `queue` of
    /// `port`, once.
    Transmit { port: u16, queue: u16, packets: usize },
}

/// How an attempt went.
#[derive(Debug, PartialEq, Eq)]
pub enum RoundEvent {
    /// The receive attempt returned these packets, given by their lengths
    /// in bytes. An empty burst is an ordinary outcome.
    Received(Vec<u32>),
    /// The driver reported an error for the receive attempt.
    ReceiveFailed,
    /// The transmit attempt took this many packets from the front of the
    /// burst it was given.
    Transmitted(usize),
    /// The driver reported an error for the transmit attempt.
    TransmitFailed,
}

/// The committed counters of both ports at one moment.
#[derive(Clone, Copy, Debug, PartialEq, Eq, Structural)]
pub struct Snapshot {
    pub port_a: u16,
    pub stats_a: PortStats,
    pub port_b: u16,
    pub stats_b: PortStats,
}

impl Snapshot {
    /// The report of a snapshot: the six lines of the first port, then the
    /// six lines of the second.
    pub open spec fn report(self) -> Seq<ReportLine> {
        report_lines(self.port_a, self.stats_a) + report_lines(self.port_b, self.stats_b)
    }

    /// The lines of the report, in the order in which they are shown.
    pub fn lines(&self) -> (lines: Vec<ReportLine>)
        ensures
            lines@ == self.report(),
    {
        let mut lines: Vec<ReportLine> = Vec::new();
        self.stats_a.append_report(self.port_a, &mut lines);
        self.stats_b.append_report(self.port_b, &mut lines);
        assert(lines@ =~= self.report());
        lines
    }
}

/// The forwarder as contracts see it.
pub struct ForwarderState {
    pub port_a: u16,
    pub port_b: u16,
    /// Counters of the first port, as of the last finished round.
    pub stats_a: PortStats,
    /// Counters of the second port, as of the last finished round.
    pub stats_b: PortStats,
    pub step: RoundStep,
    /// Lengths of the packets received and not yet handed to a transmit
    /// attempt.
    pub pending: Seq<u32>,
    /// What `stats_a` becomes if the round under way succeeds.
    pub staged_a: PortStats,
    /// What `stats_b` becomes if the round under way succeeds.
    pub staged_b: PortStats,
}

/// Number of packets a transmit attempt moved, given what the driver reported
/// and how many it was handed.
pub open spec fn packets_moved(reported: nat, handed: nat) -> nat {
    if reported <= handed {
        reported
    } else {
        handed
    }
}

impl ForwarderState {
    /// A forwarder between two ports that has not seen any traffic.
    pub open spec fn fresh(port_a: u16, port_b: u16) -> ForwarderState {
        ForwarderState {
            port_a,
            port_b,
            stats_a: PortStats::zero(),
            stats_b: PortStats::zero(),
            step: RoundStep::ReceiveFirst,
            pending: Seq::empty(),
            staged_a: PortStats::zero(),
            staged_b: PortStats::zero(),
        }
    }

    /// The committed counters, with the port each pair belongs to.
    pub open spec fn snapshot(self) -> Snapshot {
        Snapshot {
            port_a: self.port_a,
            stats_a: self.stats_a,
            port_b: self.port_b,
            stats_b: self.stats_b,
        }
    }

    /// Between two rounds nothing is staged and nothing is pending.
    pub open spec fn between_rounds(self) -> bool {
        &&& self.step == RoundStep::ReceiveFirst
        &&& self.pending.len() == 0
        &&& self.staged_a == self.stats_a
        &&& self.staged_b == self.stats_b
    }

    /// The attempt that `step` stands for.
    pub open spec fn action(self) -> RoundAction {
        match self.step {
            RoundStep::ReceiveFirst => RoundAction::Receive {
                port: self.port_a,
                queue: QUEUE_ID,
                max_packets: MAX_BURST,
            },
            RoundStep::TransmitSecond => RoundAction::Transmit {
                port: self.port_b,
                queue: QUEUE_ID,
                packets: self.pending.len() as usize,
            },
            RoundStep::ReceiveSecond => RoundAction::Receive {
                port: self.port_b,
                queue: QUEUE_ID,
                max_packets: MAX_BURST,
            },
            RoundStep::TransmitFirst => RoundAction::Transmit {
                port: self.port_a,
                queue: QUEUE_ID,
                packets: self.pending.len() as usize,
            },
        }
    }

    /// The round is abandoned with the given committed counters.
    pub open spec fn abandoned(self, stats_a: PortStats, stats_b: PortStats) -> ForwarderState {
        ForwarderState {
            stats_a,
            stats_b,
            step: RoundStep::ReceiveFirst,
            pending: Seq::empty(),
            staged_a: stats_a,
            staged_b: stats_b,
            ..self
        }
    }

    /// A burst with the given packet lengths arrived on the port that `step`
    /// receives on.
    pub open spec fn received(self, lengths: Seq<u32>) -> ForwarderState {
        match self.step {
            RoundStep::ReceiveFirst => ForwarderState {
                step: RoundStep::TransmitSecond,
                pending: lengths,
                staged_a: self.stats_a.with_received(lengths.len(), burst_bytes(lengths)),
                staged_b: self.stats_b,
                ..self
            },
            RoundStep::ReceiveSecond => ForwarderState {
                step: RoundStep::TransmitFirst,
                pending: lengths,
                staged_b: self.staged_b.with_received(lengths.len(), burst_bytes(lengths)),
                ..self
            },
            _ => self,
        }
    }

    /// The receive attempt that `step` stands for failed.
    pub open spec fn receive_failed(self) -> ForwarderState {
        match self.step {
            RoundStep::ReceiveFirst => self.abandoned(self.stats_a.with_rx_error(), self.stats_b),
            RoundStep::ReceiveSecond => self.abandoned(self.stats_a, self.stats_b.with_rx_error()),
            _ => self,
        }
    }

    /// The driver took `reported` packets from the front of the pending burst.
    pub open spec fn transmitted(self, reported: nat) -> ForwarderState {
        let moved = packets_moved(reported, self.pending.len());
        let bytes = burst_bytes(self.pending.take(moved as int));
        match self.step {
            RoundStep::TransmitSecond => ForwarderState {
                step: RoundStep::ReceiveSecond,
                pending: Seq::empty(),
                staged_b: self.staged_b.with_transmitted(moved, bytes),
                ..self
            },
            RoundStep::TransmitFirst => {
                let stats_a = self.staged_a.with_transmitted(moved, bytes);
                ForwarderState {
                    stats_a,
                    stats_b: self.staged_b,
                    step: RoundStep::ReceiveFirst,
                    pending: Seq::empty(),
                    staged_a: stats_a,
                    ..self
                }
            },
            _ => self,
        }
    }

    /// The transmit attempt that `step` stands for failed.
    pub open spec fn transmit_failed(self) -> ForwarderState {
        match self.step {
            RoundStep::TransmitSecond => self.abandoned(self.stats_a, self.stats_b.with_tx_error()),
            RoundStep::TransmitFirst => self.abandoned(self.stats_a.with_tx_error(), self.stats_b),
            _ => self,
        }
    }

    /// The state after `event`. An event that does not answer the attempt
    /// under way changes nothing.
    pub open spec fn after(self, event: RoundEvent) -> ForwarderState {
        match event {
            RoundEvent::Received(lengths) => self.received(lengths@),
            RoundEvent::ReceiveFailed => self.receive_failed(),
            RoundEvent::Transmitted(reported) => self.transmitted(reported as nat),
            RoundEvent::TransmitFailed => self.transmit_failed(),
        }
    }

    /// How the round stands after `event`: `None` while it goes on, the
    /// round's result once it is over.
    pub open spec fn outcome(self, event: RoundEvent) -> Option<Result<(), ForwardError>> {
        match (self.step, event) {
            (RoundStep::ReceiveFirst, RoundEvent::ReceiveFailed) => Some(
                Err(ForwardError { port: self.port_a, direction: Direction::Receive }),
            ),
            (RoundStep::TransmitSecond, RoundEvent::TransmitFailed) => Some(
                Err(ForwardError { port: self.port_b, direction: Direction::Transmit }),
            ),
            (RoundStep::ReceiveSecond, RoundEvent::ReceiveFailed) => Some(
                Err(ForwardError { port: self.port_b, direction: Direction::Receive }),
            ),
            (RoundStep::TransmitFirst, RoundEvent::TransmitFailed) => Some(
                Err(ForwardError { port: self.port_a, direction: Direction::Transmit }),
            ),
            (RoundStep::TransmitFirst, RoundEvent::Transmitted(_)) => Some(Ok(())),
            _ => None,
        }
    }
}

/// Reducing an amount to 64 bits before adding it changes nothing.
proof fn lemma_counter_after_reduced(counter: u64, amount: nat)
    ensures
        counter_after(counter, amount % (counter_range() as nat)) == counter_after(
            counter,
            amount,
        ),
{
    vstd::arithmetic::div_mod::lemma_add_mod_noop_right(
        counter as int,
        amount as int,
        counter_range(),
    );
}

/// `stats` after a burst with the given packet lengths was received.
fn count_received(stats: PortStats, lengths: &Vec<u32>) -> (counted: PortStats)
    ensures
        counted == stats.with_received(lengths@.len(), burst_bytes(lengths@)),
{
    let bytes = burst_byte_count(lengths, lengths.len());
    let mut counted = stats;
    counted.record_received(lengths.len() as u64, bytes);
    proof {
        assert(lengths@.take(lengths@.len() as int) =~= lengths@);
        lemma_counter_after_reduced(stats.rx_bytes, burst_bytes(lengths@));
    }
    counted
}

/// `stats` after the driver took `reported` packets from the front of a burst
/// with the given packet lengths.
fn count_transmitted(stats: PortStats, lengths: &Vec<u32>, reported: usize) -> (counted: PortStats)
    ensures
        counted == stats.with_transmitted(
            packets_moved(reported as nat, lengths@.len()),
            burst_bytes(lengths@.take(packets_moved(reported as nat, lengths@.len()) as int)),
        ),
{
    let moved = if reported <= lengths.len() {
        reported
    } else {
        lengths.len()
    };
    let bytes = burst_byte_count(lengths, moved);
    let mut counted = stats;
    counted.record_transmitted(moved as u64, bytes);
    proof {
        lemma_counter_after_reduced(stats.tx_bytes, burst_bytes(lengths@.take(moved as int)));
    }
    counted
}

/// Moves bursts between two ports, one round at a time, and counts them.
pub struct Forwarder {
    port_a: u16,
    port_b: u16,
    stats_a: PortStats,
    stats_b: PortStats,
    step: RoundStep,
    pending: Vec<u32>,
    staged_a: PortStats,
    staged_b: PortStats,
}

impl View for Forwarder {
    type V = ForwarderState;

    closed spec fn view(&self) -> ForwarderState {
        ForwarderState {
            port_a: self.port_a,
            port_b: self.port_b,
            stats_a: self.stats_a,
            stats_b: self.stats_b,
            step: self.step,
            pending: self.pending@,
            staged_a: self.staged_a,
            staged_b: self.staged_b,
        }
    }
}

impl Forwarder {
    /// A forwarder between `port_a` and `port_b` with all counters at zero,
    /// about to start its first round.
    pub fn new(port_a: u16, port_b: u16) -> (forwarder: Forwarder)
        ensures
            forwarder@ == ForwarderState::fresh(port_a, port_b),
            forwarder@.between_rounds(),
    {
        let forwarder = Forwarder {
            port_a,
            port_b,
            stats_a: PortStats::new(),
            stats_b: PortStats::new(),
            step: RoundStep::ReceiveFirst,
            pending: Vec::new(),
            staged_a: PortStats::new(),
            staged_b: PortStats::new(),
        };
        assert(forwarder@.pending =~= Seq::empty());
        forwarder
    }

    /// The first port.
    pub fn port_a(&self) -> (port: u16)
        ensures
            port == self@.port_a,
    {
        self.port_a
    }

    /// The second port.
    pub fn port_b(&self) -> (port: u16)
        ensures
            port == self@.port_b,
    {
        self.port_b
    }

    /// Counters of the first port, as of the last finished round.
    pub fn stats_a(&self) -> (stats: PortStats)
        ensures
            stats == self@.stats_a,
    {
        self.stats_a
    }

    /// Counters of the second port, as of the last finished round.
    pub fn stats_b(&self) -> (stats: PortStats)
        ensures
            stats == self@.stats_b,
    {
        self.stats_b
    }

    /// The committed counters of both ports, for a report. The forwarder is
    /// left as it is.
    pub fn snapshot(&self) -> (snapshot: Snapshot)
        ensures
            snapshot == self@.snapshot(),
    {
        Snapshot {
            port_a: self.port_a,
            stats_a: self.stats_a,
            port_b: self.port_b,
            stats_b: self.stats_b,
        }
    }

    /// The attempt the round is waiting for.
    pub fn step(&self) -> (step: RoundStep)
        ensures
            step == self@.step,
    {
        self.step
    }

    /// The attempt to make next.
    pub fn next_action(&self) -> (action: RoundAction)
        ensures
            action == self@.action(),
    {
        match self.step {
            RoundStep::ReceiveFirst => RoundAction::Receive {
                port: self.port_a,
                queue: QUEUE_ID,
                max_packets: MAX_BURST,
            },
            RoundStep::TransmitSecond => RoundAction::Transmit {
                port: self.port_b,
                queue: QUEUE_ID,
                packets: self.pending.len(),
            },
            RoundStep::ReceiveSecond => RoundAction::Receive {
                port: self.port_b,
                queue: QUEUE_ID,
                max_packets: MAX_BURST,
            },
            RoundStep::TransmitFirst => RoundAction::Transmit {
                port: self.port_a,
                queue: QUEUE_ID,
                packets: self.pending.len(),
            },
        }
    }

    /// Gives up the round under way and commits the given counters.
    fn abandon(&mut self, stats_a: PortStats, stats_b: PortStats)
        ensures
            final(self)@ == old(self)@.abandoned(stats_a, stats_b),
    {
        self.stats_a = stats_a;
        self.stats_b = stats_b;
        self.staged_a = stats_a;
        self.staged_b = stats_b;
        self.pending = Vec::new();
        self.step = RoundStep::ReceiveFirst;
        assert(self@.pending =~= Seq::empty());
    }

    /// Takes in the outcome of the attempt that `next_action` named and moves
    /// the round on.
    ///
    /// Returns `None` while the round goes on. After the fourth attempt
    /// succeeded the round's counts are committed and the result is
    /// `Some(Ok(()))`. A failed attempt ends the round at once: the error
    /// counter of its port and direction goes up by one, no other counter
    /// changes, and the result names the port and the direction.
    pub fn handle(&mut self, event: RoundEvent) -> (result: Option<Result<(), ForwardError>>)
        ensures
            final(self)@ == old(self)@.after(event),
            result == old(self)@.outcome(event),
    {
        match event {
            RoundEvent::Received(lengths) => {
                match self.step {
                    RoundStep::ReceiveFirst => {
                        self.staged_a = count_received(self.stats_a, &lengths);
                        self.staged_b = self.stats_b;
                        self.pending = lengths;
                        self.step = RoundStep::TransmitSecond;
                    },
                    RoundStep::ReceiveSecond => {
                        self.staged_b = count_received(self.staged_b, &lengths);
                        self.pending = lengths;
                        self.step = RoundStep::TransmitFirst;
                    },
                    _ => {},
                }
                None
            },
            RoundEvent::ReceiveFailed => {
                match self.step {
                    RoundStep::ReceiveFirst => {
                        let mut stats = self.stats_a;
                        stats.record_rx_error();
                        self.abandon(stats, self.stats_b);
                        Some(Err(ForwardError { port: self.port_a, direction: Direction::Receive }))
                    },
                    RoundStep::ReceiveSecond => {
                        let mut stats = self.stats_b;
                        stats.record_rx_error();
                        self.abandon(self.stats_a, stats);
                        Some(Err(ForwardError { port: self.port_b, direction: Direction::Receive }))
                    },
                    _ => None,
                }
            },
            RoundEvent::Transmitted(reported) => {
                match self.step {
                    RoundStep::TransmitSecond => {
                        self.staged_b = count_transmitted(self.staged_b, &self.pending, reported);
                        self.pending = Vec::new();
                        self.step = RoundStep::ReceiveSecond;
                        assert(self@.pending =~= Seq::empty());
                        None
                    },
                    RoundStep::TransmitFirst => {
                        let stats = count_transmitted(self.staged_a, &self.pending, reported);
                        self.stats_a = stats;
                        self.stats_b = self.staged_b;
                        self.staged_a = stats;
                        self.pending = Vec::new();
                        self.step = RoundStep::ReceiveFirst;
                        assert(self@.pending =~= Seq::empty());
                        Some(Ok(()))
                    },
                    _ => None,
                }
            },
            RoundEvent::TransmitFailed => {
                match self.step {
                    RoundStep::TransmitSecond => {
                        let mut stats = self.stats_b;
                        stats.record_tx_error();
                        self.abandon(self.stats_a, stats);
                        Some(Err(ForwardError { port: self.port_b, direction: Direction::Transmit }))
                    },
                    RoundStep::TransmitFirst => {
                        let mut stats = self.stats_a;
                        stats.record_tx_error();
                        self.abandon(stats, self.stats_b);
                        Some(Err(ForwardError { port: self.port_a, direction: Direction::Transmit }))
                    },
                    _ => None,
                }
            },
        }
    }
}

/// What the driver did in the four attempts of a round in which none failed.
pub struct RoundTraffic {
    /// Lengths of the packets received on the first port.
    pub from_a: Seq<u32>,
    /// Number of packets the second port reported as taken.
    pub taken_by_b: nat,
    /// Lengths of the packets received on the second port.
    pub from_b: Seq<u32>,
    /// Number of packets the first port reported as taken.
    pub taken_by_a: nat,
}

impl RoundTraffic {
    /// Every transmit attempt took the whole burst it was handed.
    pub open spec fn untruncated(self) -> bool {
        &&& self.taken_by_b >= self.from_a.len()
        &&& self.taken_by_a >= self.from_b.len()
    }

    /// Number of packets that went from the first port to the second.
    pub open spec fn moved_to_b(self) -> nat {
        packets_moved(self.taken_by_b, self.from_a.len())
    }

    /// Number of packets that went from the second port to the first.
    pub open spec fn moved_to_a(self) -> nat {
        packets_moved(self.taken_by_a, self.from_b.len())
    }

    /// No counter of `state` is pushed past the largest 64-bit value by
    /// this round.
    pub open spec fn fits(self, state: ForwarderState) -> bool {
        &&& state.stats_a.rx_packets + self.from_a.len() <= u64::MAX
        &&& state.stats_a.rx_bytes + burst_bytes(self.from_a) <= u64::MAX
        &&& state.stats_b.tx_packets + self.moved_to_b() <= u64::MAX
        &&& state.stats_b.tx_bytes + burst_bytes(self.from_a.take(self.moved_to_b() as int))
            <= u64::MAX
        &&& state.stats_b.rx_packets + self.from_b.len() <= u64::MAX
        &&& state.stats_b.rx_bytes + burst_bytes(self.from_b) <= u64::MAX
        &&& state.stats_a.tx_packets + self.moved_to_a() <= u64::MAX
        &&& state.stats_a.tx_bytes + burst_bytes(self.from_b.take(self.moved_to_a() as int))
            <= u64::MAX
    }
}

impl ForwarderState {
    /// The packet and byte counters of the two ports mirror each other: what
    /// one port has received, the other has transmitted.
    pub open spec fn balanced(self) -> bool {
        &&& self.stats_b.tx_packets == self.stats_a.rx_packets
        &&& self.stats_b.tx_bytes == self.stats_a.rx_bytes
        &&& self.stats_a.tx_packets == self.stats_b.rx_packets
        &&& self.stats_a.tx_bytes == self.stats_b.rx_bytes
    }

    /// The state after the four attempts of a round went as `traffic` says.
    pub open spec fn after_round(self, traffic: RoundTraffic) -> ForwarderState {
        self.received(traffic.from_a).transmitted(traffic.taken_by_b).received(
            traffic.from_b,
        ).transmitted(traffic.taken_by_a)
    }

    /// The state after a run of rounds in which no attempt failed.
    pub open spec fn after_rounds(self, rounds: Seq<RoundTraffic>) -> ForwarderState
        decreases rounds.len(),
    {
        if rounds.len() == 0 {
            self
        } else {
            self.after_rounds(rounds.drop_last()).after_round(rounds.last())
        }
    }

    /// None of the rounds pushes a counter past the largest 64-bit value.
    pub open spec fn rounds_fit(self, rounds: Seq<RoundTraffic>) -> bool
        decreases rounds.len(),
    {
        rounds.len() > 0 ==> {
            &&& self.rounds_fit(rounds.drop_last())
            &&& rounds.last().fits(self.after_rounds(rounds.drop_last()))
        }
    }

    /// The error counter that a failure of the attempt under way adds to can
    /// still grow.
    pub open spec fn error_fits(self) -> bool {
        match self.step {
            RoundStep::ReceiveFirst => self.stats_a.rx_errors < u64::MAX,
            RoundStep::TransmitSecond => self.stats_b.tx_errors < u64::MAX,
            RoundStep::ReceiveSecond => self.stats_b.rx_errors < u64::MAX,
            RoundStep::TransmitFirst => self.stats_a.tx_errors < u64::MAX,
        }
    }
}

impl ForwarderState {
    /// What is staged is never behind what is committed.
    pub open spec fn staged_ahead(self) -> bool {
        &&& self.stats_a.at_most(self.staged_a)
        &&& self.stats_b.at_most(self.staged_b)
    }

    /// `event` pushes no counter past the largest 64-bit value.
    pub open spec fn event_fits(self, event: RoundEvent) -> bool {
        match (self.step, event) {
            (RoundStep::ReceiveFirst, RoundEvent::Received(lengths)) => {
                &&& self.stats_a.rx_packets + lengths@.len() <= u64::MAX
                &&& self.stats_a.rx_bytes + burst_bytes(lengths@) <= u64::MAX
            },
            (RoundStep::ReceiveSecond, RoundEvent::Received(lengths)) => {
                &&& self.staged_b.rx_packets + lengths@.len() <= u64::MAX
                &&& self.staged_b.rx_bytes + burst_bytes(lengths@) <= u64::MAX
            },
            (RoundStep::TransmitSecond, RoundEvent::Transmitted(reported)) => {
                let moved = packets_moved(reported as nat, self.pending.len());
                &&& self.staged_b.tx_packets + moved <= u64::MAX
                &&& self.staged_b.tx_bytes + burst_bytes(self.pending.take(moved as int))
                    <= u64::MAX
            },
            (RoundStep::TransmitFirst, RoundEvent::Transmitted(reported)) => {
                let moved = packets_moved(reported as nat, self.pending.len());
                &&& self.staged_a.tx_packets + moved <= u64::MAX
                &&& self.staged_a.tx_bytes + burst_bytes(self.pending.take(moved as int))
                    <= u64::MAX
            },
            _ => self.outcome(event).is_some() ==> self.error_fits(),
        }
    }

    /// The state after a run of events, the first of them first.
    pub open spec fn after_events(self, events: Seq<RoundEvent>) -> ForwarderState
        decreases events.len(),
    {
        if events.len() == 0 {
            self
        } else {
            self.after_events(events.drop_last()).after(events.last())
        }
    }

    /// None of the events, taken in turn, pushes a counter past the largest
    /// 64-bit value.
    pub open spec fn events_fit(self, events: Seq<RoundEvent>) -> bool
        decreases events.len(),
    {
        events.len() > 0 ==> {
            &&& self.events_fit(events.drop_last())
            &&& self.after_events(events.drop_last()).event_fits(events.last())
        }
    }
}

/// An event that pushes no counter past the largest 64-bit value leaves no
/// committed counter of either port smaller than it was, whatever the event
/// is and wherever in a round it arrives.
pub proof fn lemma_event_never_decreases(state: ForwarderState, event: RoundEvent)
    requires
        state.staged_ahead(),
        state.event_fits(event),
    ensures
        state.after(event).staged_ahead(),
        state.stats_a.at_most(state.after(event).stats_a),
        state.stats_b.at_most(state.after(event).stats_b),
{
    match (state.step, event) {
        (RoundStep::ReceiveFirst, RoundEvent::Received(lengths)) => {
            lemma_received_grows(state.stats_a, lengths@.len(), burst_bytes(lengths@));
        },
        (RoundStep::ReceiveSecond, RoundEvent::Received(lengths)) => {
            lemma_received_grows(state.staged_b, lengths@.len(), burst_bytes(lengths@));
        },
        (RoundStep::TransmitSecond, RoundEvent::Transmitted(reported)) => {
            let moved = packets_moved(reported as nat, state.pending.len());
            lemma_transmitted_grows(
                state.staged_b,
                moved,
                burst_bytes(state.pending.take(moved as int)),
            );
        },
        (RoundStep::TransmitFirst, RoundEvent::Transmitted(reported)) => {
            let moved = packets_moved(reported as nat, state.pending.len());
            lemma_transmitted_grows(
                state.staged_a,
                moved,
                burst_bytes(state.pending.take(moved as int)),
            );
        },
        _ => {},
    }
}

/// Over any run of events, whole rounds or not, failed attempts or not, none
/// of which pushes a counter past the largest 64-bit value, no committed
/// counter of either port ever gets smaller.
pub proof fn lemma_events_never_decrease(state: ForwarderState, events: Seq<RoundEvent>)
    requires
        state.staged_ahead(),
        state.events_fit(events),
    ensures
        state.after_events(events).staged_ahead(),
        state.stats_a.at_most(state.after_events(events).stats_a),
        state.stats_b.at_most(state.after_events(events).stats_b),
    decreases events.len(),
{
    if events.len() > 0 {
        lemma_events_never_decrease(state, events.drop_last());
        lemma_event_never_decreases(state.after_events(events.drop_last()), events.last());
    }
}

/// A round in which no attempt fails ends between rounds again and leaves
/// each port with its old counters plus what the round moved: the first port
/// has received `from_a` and transmitted the front of `from_b`, the second
/// port the other way round. The error counters stay as they were.
pub proof fn lemma_round_counts(state: ForwarderState, traffic: RoundTraffic)
    requires
        state.between_rounds(),
    ensures
        state.after_round(traffic).between_rounds(),
        state.after_round(traffic).port_a == state.port_a,
        state.after_round(traffic).port_b == state.port_b,
        state.after_round(traffic).stats_a == state.stats_a.with_received(
            traffic.from_a.len(),
            burst_bytes(traffic.from_a),
        ).with_transmitted(
            traffic.moved_to_a(),
            burst_bytes(traffic.from_b.take(traffic.moved_to_a() as int)),
        ),
        state.after_round(traffic).stats_b == state.stats_b.with_transmitted(
            traffic.moved_to_b(),
            burst_bytes(traffic.from_a.take(traffic.moved_to_b() as int)),
        ).with_received(traffic.from_b.len(), burst_bytes(traffic.from_b)),
{
}

/// When no transmit attempt of a round cuts its burst short, counters that
/// mirrored each other before the round mirror each other after it: the
/// packets and bytes one port received are the packets and bytes the other
/// transmitted.
pub proof fn lemma_round_keeps_balance(state: ForwarderState, traffic: RoundTraffic)
    requires
        state.between_rounds(),
        state.balanced(),
        traffic.untruncated(),
    ensures
        state.after_round(traffic).balanced(),
{
    lemma_round_counts(state, traffic);
    assert(traffic.from_a.take(traffic.from_a.len() as int) =~= traffic.from_a);
    assert(traffic.from_b.take(traffic.from_b.len() as int) =~= traffic.from_b);
}

/// Over any run of successful rounds without truncation, starting between
/// rounds with mirrored counters (as a new forwarder does), the counters
/// still mirror each other at the end.
pub proof fn lemma_rounds_keep_balance(state: ForwarderState, rounds: Seq<RoundTraffic>)
    requires
        state.between_rounds(),
        state.balanced(),
        forall|i: int| 0 <= i < rounds.len() ==> (#[trigger] rounds[i]).untruncated(),
    ensures
        state.after_rounds(rounds).between_rounds(),
        state.after_rounds(rounds).balanced(),
    decreases rounds.len(),
{
    if rounds.len() > 0 {
        let earlier = rounds.drop_last();
        assert forall|i: int| 0 <= i < earlier.len() implies (#[trigger] earlier[i]).untruncated() by {
            assert(earlier[i] == rounds[i]);
        }
        lemma_rounds_keep_balance(state, earlier);
        lemma_round_keeps_balance(state.after_rounds(earlier), rounds.last());
    }
}

/// A new forwarder's counters mirror each other, and still do after any run
/// of successful rounds without truncation.
pub proof fn lemma_fresh_rounds_balanced(port_a: u16, port_b: u16, rounds: Seq<RoundTraffic>)
    requires
        forall|i: int| 0 <= i < rounds.len() ==> (#[trigger] rounds[i]).untruncated(),
    ensures
        ForwarderState::fresh(port_a, port_b).between_rounds(),
        ForwarderState::fresh(port_a, port_b).balanced(),
        ForwarderState::fresh(port_a, port_b).after_rounds(rounds).balanced(),
{
    lemma_rounds_keep_balance(ForwarderState::fresh(port_a, port_b), rounds);
}

/// A round that pushes no counter past the largest 64-bit value leaves no
/// counter of either port smaller than it was.
pub proof fn lemma_round_never_decreases(state: ForwarderState, traffic: RoundTraffic)
    requires
        state.between_rounds(),
        traffic.fits(state),
    ensures
        state.stats_a.at_most(state.after_round(traffic).stats_a),
        state.stats_b.at_most(state.after_round(traffic).stats_b),
{
    lemma_round_counts(state, traffic);
    let to_b = burst_bytes(traffic.from_a.take(traffic.moved_to_b() as int));
    let to_a = burst_bytes(traffic.from_b.take(traffic.moved_to_a() as int));
    lemma_received_grows(state.stats_a, traffic.from_a.len(), burst_bytes(traffic.from_a));
    lemma_transmitted_grows(
        state.stats_a.with_received(traffic.from_a.len(), burst_bytes(traffic.from_a)),
        traffic.moved_to_a(),
        to_a,
    );
    lemma_transmitted_grows(state.stats_b, traffic.moved_to_b(), to_b);
    lemma_received_grows(
        state.stats_b.with_transmitted(traffic.moved_to_b(), to_b),
        traffic.from_b.len(),
        burst_bytes(traffic.from_b),
    );
}

/// Over any run of successful rounds none of which pushes a counter past the
/// largest 64-bit value, no counter of either port ever gets smaller.
pub proof fn lemma_rounds_never_decrease(state: ForwarderState, rounds: Seq<RoundTraffic>)
    requires
        state.between_rounds(),
        state.rounds_fit(rounds),
    ensures
        state.after_rounds(rounds).between_rounds(),
        state.stats_a.at_most(state.after_rounds(rounds).stats_a),
        state.stats_b.at_most(state.after_rounds(rounds).stats_b),
    decreases rounds.len(),
{
    if rounds.len() > 0 {
        let earlier = rounds.drop_last();
        lemma_rounds_never_decrease(state, earlier);
        let before = state.after_rounds(earlier);
        lemma_round_counts(before, rounds.last());
        lemma_round_never_decreases(before, rounds.last());
    }
}

/// A failed attempt ends the round, leaves the forwarder between rounds, and
/// changes the committed counters in one place only: the error counter of
/// the failing port and direction has gone up by one. Unless that counter
/// stood at the largest 64-bit value, no counter is smaller than before.
pub proof fn lemma_failure_counts_once(state: ForwarderState, event: RoundEvent)
    requires
        state.outcome(event) matches Some(Err(_)),
    ensures
        state.after(event).between_rounds(),
        match state.step {
            RoundStep::ReceiveFirst => {
                &&& state.after(event).stats_a == state.stats_a.with_rx_error()
                &&& state.after(event).stats_b == state.stats_b
            },
            RoundStep::TransmitSecond => {
                &&& state.after(event).stats_a == state.stats_a
                &&& state.after(event).stats_b == state.stats_b.with_tx_error()
            },
            RoundStep::ReceiveSecond => {
                &&& state.after(event).stats_a == state.stats_a
                &&& state.after(event).stats_b == state.stats_b.with_rx_error()
            },
            RoundStep::TransmitFirst => {
                &&& state.after(event).stats_a == state.stats_a.with_tx_error()
                &&& state.after(event).stats_b == state.stats_b
            },
        },
        state.error_fits() ==> {
            &&& state.stats_a.at_most(state.after(event).stats_a)
            &&& state.stats_b.at_most(state.after(event).stats_b)
        },
{
}

/// Whenever an event ends a round, with or without an error, the forwarder
/// is left between rounds: nothing pending, nothing staged.
pub proof fn lemma_finished_round_rests(state: ForwarderState, event: RoundEvent)
    requires
        state.outcome(event).is_some(),
    ensures
        state.after(event).between_rounds(),
{
}

} // verus!
