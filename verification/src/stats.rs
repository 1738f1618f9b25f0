//! Per-port traffic counters.

use vstd::prelude::*;

verus! {

/// Number of distinct values of a 64-bit counter.
pub open spec fn counter_range() -> int {
    0x1_0000_0000_0000_0000
}

/// The value a 64-bit counter shows after `amount` is added to `counter`:
/// the mathematical sum, reduced to 64 bits.
pub open spec fn counter_after(counter: u64, amount: nat) -> u64 {
    ((counter + amount) % counter_range()) as u64
}

/// Total length in bytes of a burst, given the length of each packet.
pub open spec fn burst_bytes(lengths: Seq<u32>) -> nat
    decreases lengths.len(),
{
    if lengths.len() == 0 {
        0
    } else {
        burst_bytes(lengths.drop_last()) + lengths.last() as nat
    }
}

/// The counters kept for one port.
#[derive(Clone, Copy, Debug, PartialEq, Eq, Structural)]
pub struct PortStats {
    pub rx_packets: u64,
    pub tx_packets: u64,
    pub rx_bytes: u64,
    pub tx_bytes: u64,
    pub rx_errors: u64,
    pub tx_errors: u64,
}

/// The counters of a port, in the order in which a report shows them.
#[derive(Clone, Copy, Debug, PartialEq, Eq, Structural)]
pub enum Counter {
    RxPackets,
    TxPackets,
    RxBytes,
    TxBytes,
    RxErrors,
    TxErrors,
}

/// One line of a report: a counter of a port and its value.
#[derive(Clone, Copy, Debug, PartialEq, Eq, Structural)]
pub struct ReportLine {
    pub port: u16,
    pub counter: Counter,
    pub value: u64,
}

/// The six lines that report the counters of `port`.
pub open spec fn report_lines(port: u16, stats: PortStats) -> Seq<ReportLine> {
    seq![
        ReportLine { port, counter: Counter::RxPackets, value: stats.rx_packets },
        ReportLine { port, counter: Counter::TxPackets, value: stats.tx_packets },
        ReportLine { port, counter: Counter::RxBytes, value: stats.rx_bytes },
        ReportLine { port, counter: Counter::TxBytes, value: stats.tx_bytes },
        ReportLine { port, counter: Counter::RxErrors, value: stats.rx_errors },
        ReportLine { port, counter: Counter::TxErrors, value: stats.tx_errors },
    ]
}

impl PortStats {
    /// The counters of a port that has seen no traffic.
    pub open spec fn zero() -> PortStats {
        PortStats {
            rx_packets: 0,
            tx_packets: 0,
            rx_bytes: 0,
            tx_bytes: 0,
            rx_errors: 0,
            tx_errors: 0,
        }
    }

    /// Every counter of `self` is at most the same counter of `later`.
    pub open spec fn at_most(self, later: PortStats) -> bool {
        &&& self.rx_packets <= later.rx_packets
        &&& self.tx_packets <= later.tx_packets
        &&& self.rx_bytes <= later.rx_bytes
        &&& self.tx_bytes <= later.tx_bytes
        &&& self.rx_errors <= later.rx_errors
        &&& self.tx_errors <= later.tx_errors
    }

    /// The counters after a burst of `packets` packets and `bytes` bytes
    /// was received.
    pub open spec fn with_received(self, packets: nat, bytes: nat) -> PortStats {
        PortStats {
            rx_packets: counter_after(self.rx_packets, packets),
            rx_bytes: counter_after(self.rx_bytes, bytes),
            ..self
        }
    }

    /// The counters after a burst of `packets` packets and `bytes` bytes
    /// was transmitted.
    pub open spec fn with_transmitted(self, packets: nat, bytes: nat) -> PortStats {
        PortStats {
            tx_packets: counter_after(self.tx_packets, packets),
            tx_bytes: counter_after(self.tx_bytes, bytes),
            ..self
        }
    }

    /// The counters after one failed receive attempt.
    pub open spec fn with_rx_error(self) -> PortStats {
        PortStats { rx_errors: counter_after(self.rx_errors, 1), ..self }
    }

    /// The counters after one failed transmit attempt.
    pub open spec fn with_tx_error(self) -> PortStats {
        PortStats { tx_errors: counter_after(self.tx_errors, 1), ..self }
    }

    /// Counters that all stand at zero.
    pub fn new() -> (stats: PortStats)
        ensures
            stats == PortStats::zero(),
    {
        PortStats {
            rx_packets: 0,
            tx_packets: 0,
            rx_bytes: 0,
            tx_bytes: 0,
            rx_errors: 0,
            tx_errors: 0,
        }
    }

    /// Appends the six report lines for `port` to `lines`.
    pub fn append_report(&self, port: u16, lines: &mut Vec<ReportLine>)
        ensures
            final(lines)@ == old(lines)@ + report_lines(port, *self),
    {
        lines.push(ReportLine { port, counter: Counter::RxPackets, value: self.rx_packets });
        lines.push(ReportLine { port, counter: Counter::TxPackets, value: self.tx_packets });
        lines.push(ReportLine { port, counter: Counter::RxBytes, value: self.rx_bytes });
        lines.push(ReportLine { port, counter: Counter::TxBytes, value: self.tx_bytes });
        lines.push(ReportLine { port, counter: Counter::RxErrors, value: self.rx_errors });
        lines.push(ReportLine { port, counter: Counter::TxErrors, value: self.tx_errors });
        assert(lines@ =~= old(lines)@ + report_lines(port, *self));
    }

    /// Counts a received burst.
    pub fn record_received(&mut self, packets: u64, bytes: u64)
        ensures
            *final(self) == old(self).with_received(packets as nat, bytes as nat),
    {
        self.rx_packets = self.rx_packets.wrapping_add(packets);
        self.rx_bytes = self.rx_bytes.wrapping_add(bytes);
    }

    /// Counts a transmitted burst.
    pub fn record_transmitted(&mut self, packets: u64, bytes: u64)
        ensures
            *final(self) == old(self).with_transmitted(packets as nat, bytes as nat),
    {
        self.tx_packets = self.tx_packets.wrapping_add(packets);
        self.tx_bytes = self.tx_bytes.wrapping_add(bytes);
    }

    /// Counts one failed receive attempt.
    pub fn record_rx_error(&mut self)
        ensures
            *final(self) == old(self).with_rx_error(),
    {
        self.rx_errors = self.rx_errors.wrapping_add(1);
    }

    /// Counts one failed transmit attempt.
    pub fn record_tx_error(&mut self)
        ensures
            *final(self) == old(self).with_tx_error(),
    {
        self.tx_errors = self.tx_errors.wrapping_add(1);
    }
}

impl Default for PortStats {
    fn default() -> (stats: PortStats)
        ensures
            stats == PortStats::zero(),
    {
        PortStats::new()
    }
}

/// Adding an amount that a counter can still hold never makes it smaller.
pub proof fn lemma_counter_after_grows(counter: u64, amount: nat)
    requires
        counter + amount <= u64::MAX,
    ensures
        counter_after(counter, amount) == counter + amount,
        counter <= counter_after(counter, amount),
{
}

/// A received burst that the receive counters can still hold leaves every
/// counter at least as large as it was, and the two receive counters larger
/// by exactly the burst.
pub proof fn lemma_received_grows(stats: PortStats, packets: nat, bytes: nat)
    requires
        stats.rx_packets + packets <= u64::MAX,
        stats.rx_bytes + bytes <= u64::MAX,
    ensures
        stats.at_most(stats.with_received(packets, bytes)),
        stats.with_received(packets, bytes).rx_packets == stats.rx_packets + packets,
        stats.with_received(packets, bytes).rx_bytes == stats.rx_bytes + bytes,
{
    lemma_counter_after_grows(stats.rx_packets, packets);
    lemma_counter_after_grows(stats.rx_bytes, bytes);
}

/// A transmitted burst that the transmit counters can still hold leaves every
/// counter at least as large as it was, and the two transmit counters larger
/// by exactly the burst.
pub proof fn lemma_transmitted_grows(stats: PortStats, packets: nat, bytes: nat)
    requires
        stats.tx_packets + packets <= u64::MAX,
        stats.tx_bytes + bytes <= u64::MAX,
    ensures
        stats.at_most(stats.with_transmitted(packets, bytes)),
        stats.with_transmitted(packets, bytes).tx_packets == stats.tx_packets + packets,
        stats.with_transmitted(packets, bytes).tx_bytes == stats.tx_bytes + bytes,
{
    lemma_counter_after_grows(stats.tx_packets, packets);
    lemma_counter_after_grows(stats.tx_bytes, bytes);
}

/// A burst extended by one packet is longer by that packet's length.
pub proof fn lemma_burst_bytes_push(lengths: Seq<u32>, length: u32)
    ensures
        burst_bytes(lengths.push(length)) == burst_bytes(lengths) + length as nat,
{
    assert(lengths.push(length).drop_last() =~= lengths);
}

/// Total length, reduced to 64 bits, of the first `count` packets of a burst.
pub fn burst_byte_count(lengths: &Vec<u32>, count: usize) -> (bytes: u64)
    requires
        count <= lengths@.len(),
    ensures
        bytes == burst_bytes(lengths@.take(count as int)) % (counter_range() as nat),
{
    let mut bytes: u64 = 0;
    let mut i: usize = 0;
    assert(burst_bytes(lengths@.take(0)) == 0);
    while i < count
        invariant
            i <= count <= lengths@.len(),
            bytes == burst_bytes(lengths@.take(i as int)) % (counter_range() as nat),
        decreases count - i,
    {
        proof {
            let head = lengths@.take(i as int);
            assert(lengths@.take(i + 1) =~= head.push(lengths@[i as int]));
            lemma_burst_bytes_push(head, lengths@[i as int]);
            vstd::arithmetic::div_mod::lemma_add_mod_noop(
                burst_bytes(head) as int,
                lengths@[i as int] as int,
                counter_range(),
            );
            vstd::arithmetic::div_mod::lemma_small_mod(
                lengths@[i as int] as nat,
                counter_range() as nat,
            );
        }
        bytes = bytes.wrapping_add(lengths[i] as u64);
        i = i + 1;
    }
    bytes
}

} // verus!
