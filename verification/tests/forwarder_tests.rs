use pktfwd::forwarder::{
    Direction, ForwardError, Forwarder, RoundAction, RoundEvent, RoundStep, MAX_BURST,
};
use pktfwd::stats::{Counter, PortStats};

fn lengths(count: usize, each: u32) -> Vec<u32> {
    let mut burst = Vec::new();
    for _ in 0..count {
        burst.push(each);
    }
    burst
}

/// Runs one round in which every attempt succeeds and nothing is cut short.
fn full_round(forwarder: &mut Forwarder, from_a: Vec<u32>, from_b: Vec<u32>) {
    let sent_to_b = from_a.len();
    let sent_to_a = from_b.len();
    assert_eq!(forwarder.handle(RoundEvent::Received(from_a)), None);
    assert_eq!(forwarder.handle(RoundEvent::Transmitted(sent_to_b)), None);
    assert_eq!(forwarder.handle(RoundEvent::Received(from_b)), None);
    assert_eq!(forwarder.handle(RoundEvent::Transmitted(sent_to_a)), Some(Ok(())));
}

#[test]
fn new_forwarder_starts_with_a_receive_on_the_first_port() {
    let forwarder = Forwarder::new(3, 4);
    assert_eq!(forwarder.port_a(), 3);
    assert_eq!(forwarder.port_b(), 4);
    assert_eq!(forwarder.stats_a(), PortStats::new());
    assert_eq!(forwarder.stats_b(), PortStats::new());
    assert_eq!(forwarder.step(), RoundStep::ReceiveFirst);
    assert_eq!(MAX_BURST, 32);
    assert_eq!(
        forwarder.next_action(),
        RoundAction::Receive { port: 3, queue: 0, max_packets: 32 }
    );
}

#[test]
fn round_makes_its_four_attempts_in_order() {
    let mut forwarder = Forwarder::new(0, 1);
    assert_eq!(
        forwarder.next_action(),
        RoundAction::Receive { port: 0, queue: 0, max_packets: 32 }
    );
    assert_eq!(forwarder.handle(RoundEvent::Received(lengths(5, 100))), None);
    assert_eq!(
        forwarder.next_action(),
        RoundAction::Transmit { port: 1, queue: 0, packets: 5 }
    );
    assert_eq!(forwarder.handle(RoundEvent::Transmitted(5)), None);
    assert_eq!(
        forwarder.next_action(),
        RoundAction::Receive { port: 1, queue: 0, max_packets: 32 }
    );
    assert_eq!(forwarder.handle(RoundEvent::Received(lengths(2, 60))), None);
    assert_eq!(
        forwarder.next_action(),
        RoundAction::Transmit { port: 0, queue: 0, packets: 2 }
    );
    assert_eq!(forwarder.handle(RoundEvent::Transmitted(2)), Some(Ok(())));
    assert_eq!(forwarder.step(), RoundStep::ReceiveFirst);
    assert_eq!(
        forwarder.next_action(),
        RoundAction::Receive { port: 0, queue: 0, max_packets: 32 }
    );
}

#[test]
fn ten_packets_from_port_0_reach_port_1() {
    let mut forwarder = Forwarder::new(0, 1);
    full_round(&mut forwarder, lengths(10, 64), Vec::new());
    assert_eq!(forwarder.stats_a().rx_packets, 10);
    assert_eq!(forwarder.stats_b().tx_packets, 10);
    assert_eq!(forwarder.stats_a().rx_bytes, 640);
    assert_eq!(forwarder.stats_b().tx_bytes, 640);
    assert_eq!(forwarder.stats_a().tx_packets, 0);
    assert_eq!(forwarder.stats_b().rx_packets, 0);
    assert_eq!(forwarder.stats_a().rx_errors, 0);
    assert_eq!(forwarder.stats_b().tx_errors, 0);
}

#[test]
fn empty_bursts_are_an_ordinary_round() {
    let mut forwarder = Forwarder::new(0, 1);
    assert_eq!(forwarder.handle(RoundEvent::Received(Vec::new())), None);
    assert_eq!(
        forwarder.next_action(),
        RoundAction::Transmit { port: 1, queue: 0, packets: 0 }
    );
    assert_eq!(forwarder.handle(RoundEvent::Transmitted(0)), None);
    assert_eq!(forwarder.handle(RoundEvent::Received(Vec::new())), None);
    assert_eq!(forwarder.handle(RoundEvent::Transmitted(0)), Some(Ok(())));
    assert_eq!(forwarder.stats_a(), PortStats::new());
    assert_eq!(forwarder.stats_b(), PortStats::new());
}

#[test]
fn byte_counters_add_the_actual_packet_lengths() {
    let mut forwarder = Forwarder::new(0, 1);
    full_round(&mut forwarder, vec![64, 1500, 9000], vec![60, 61]);
    assert_eq!(forwarder.stats_a().rx_packets, 3);
    assert_eq!(forwarder.stats_a().rx_bytes, 10564);
    assert_eq!(forwarder.stats_b().tx_packets, 3);
    assert_eq!(forwarder.stats_b().tx_bytes, 10564);
    assert_eq!(forwarder.stats_b().rx_packets, 2);
    assert_eq!(forwarder.stats_b().rx_bytes, 121);
    assert_eq!(forwarder.stats_a().tx_packets, 2);
    assert_eq!(forwarder.stats_a().tx_bytes, 121);
}

#[test]
fn truncated_transmit_counts_only_what_was_taken() {
    let mut forwarder = Forwarder::new(0, 1);
    assert_eq!(forwarder.handle(RoundEvent::Received(vec![100, 200, 300, 400])), None);
    assert_eq!(forwarder.handle(RoundEvent::Transmitted(3)), None);
    assert_eq!(forwarder.handle(RoundEvent::Received(Vec::new())), None);
    assert_eq!(forwarder.handle(RoundEvent::Transmitted(0)), Some(Ok(())));
    assert_eq!(forwarder.stats_a().rx_packets, 4);
    assert_eq!(forwarder.stats_a().rx_bytes, 1000);
    assert_eq!(forwarder.stats_b().tx_packets, 3);
    assert_eq!(forwarder.stats_b().tx_bytes, 600);
}

#[test]
fn transmit_report_above_the_burst_counts_the_burst() {
    let mut forwarder = Forwarder::new(0, 1);
    assert_eq!(forwarder.handle(RoundEvent::Received(vec![10, 20])), None);
    assert_eq!(forwarder.handle(RoundEvent::Transmitted(9)), None);
    assert_eq!(forwarder.handle(RoundEvent::Received(Vec::new())), None);
    assert_eq!(forwarder.handle(RoundEvent::Transmitted(0)), Some(Ok(())));
    assert_eq!(forwarder.stats_b().tx_packets, 2);
    assert_eq!(forwarder.stats_b().tx_bytes, 30);
}

#[test]
fn transmit_failure_on_port_1_counts_one_error_and_nothing_else() {
    let mut forwarder = Forwarder::new(0, 1);
    full_round(&mut forwarder, lengths(4, 50), lengths(1, 70));
    let before_a = forwarder.stats_a();
    let before_b = forwarder.stats_b();
    assert_eq!(forwarder.handle(RoundEvent::Received(lengths(10, 64))), None);
    assert_eq!(
        forwarder.handle(RoundEvent::TransmitFailed),
        Some(Err(ForwardError { port: 1, direction: Direction::Transmit }))
    );
    assert_eq!(forwarder.stats_b().tx_errors, before_b.tx_errors + 1);
    assert_eq!(forwarder.stats_a().rx_packets, before_a.rx_packets);
    assert_eq!(forwarder.stats_a(), before_a);
    let mut expected_b = before_b;
    expected_b.tx_errors += 1;
    assert_eq!(forwarder.stats_b(), expected_b);
    assert_eq!(forwarder.step(), RoundStep::ReceiveFirst);
    full_round(&mut forwarder, lengths(2, 64), Vec::new());
    assert_eq!(forwarder.stats_a().rx_packets, before_a.rx_packets + 2);
}

#[test]
fn each_failing_attempt_names_its_port_and_direction() {
    let mut forwarder = Forwarder::new(8, 9);
    assert_eq!(
        forwarder.handle(RoundEvent::ReceiveFailed),
        Some(Err(ForwardError { port: 8, direction: Direction::Receive }))
    );
    assert_eq!(forwarder.stats_a().rx_errors, 1);

    assert_eq!(forwarder.handle(RoundEvent::Received(lengths(1, 64))), None);
    assert_eq!(
        forwarder.handle(RoundEvent::TransmitFailed),
        Some(Err(ForwardError { port: 9, direction: Direction::Transmit }))
    );
    assert_eq!(forwarder.stats_b().tx_errors, 1);

    assert_eq!(forwarder.handle(RoundEvent::Received(lengths(1, 64))), None);
    assert_eq!(forwarder.handle(RoundEvent::Transmitted(1)), None);
    assert_eq!(
        forwarder.handle(RoundEvent::ReceiveFailed),
        Some(Err(ForwardError { port: 9, direction: Direction::Receive }))
    );
    assert_eq!(forwarder.stats_b().rx_errors, 1);

    assert_eq!(forwarder.handle(RoundEvent::Received(lengths(1, 64))), None);
    assert_eq!(forwarder.handle(RoundEvent::Transmitted(1)), None);
    assert_eq!(forwarder.handle(RoundEvent::Received(lengths(1, 64))), None);
    assert_eq!(
        forwarder.handle(RoundEvent::TransmitFailed),
        Some(Err(ForwardError { port: 8, direction: Direction::Transmit }))
    );
    assert_eq!(forwarder.stats_a().tx_errors, 1);

    let a = forwarder.stats_a();
    let b = forwarder.stats_b();
    assert_eq!((a.rx_packets, a.tx_packets, a.rx_bytes, a.tx_bytes), (0, 0, 0, 0));
    assert_eq!((b.rx_packets, b.tx_packets, b.rx_bytes, b.tx_bytes), (0, 0, 0, 0));
    assert_eq!((a.rx_errors, a.tx_errors, b.rx_errors, b.tx_errors), (1, 1, 1, 1));
}

#[test]
fn failure_in_the_second_half_discards_the_first_half() {
    let mut forwarder = Forwarder::new(0, 1);
    assert_eq!(forwarder.handle(RoundEvent::Received(lengths(6, 64))), None);
    assert_eq!(forwarder.handle(RoundEvent::Transmitted(6)), None);
    assert_eq!(
        forwarder.handle(RoundEvent::ReceiveFailed),
        Some(Err(ForwardError { port: 1, direction: Direction::Receive }))
    );
    assert_eq!(forwarder.stats_a(), PortStats::new());
    let mut expected_b = PortStats::new();
    expected_b.rx_errors = 1;
    assert_eq!(forwarder.stats_b(), expected_b);
}

#[test]
fn event_that_does_not_answer_the_attempt_is_ignored() {
    let mut forwarder = Forwarder::new(0, 1);
    assert_eq!(forwarder.handle(RoundEvent::Transmitted(4)), None);
    assert_eq!(forwarder.handle(RoundEvent::TransmitFailed), None);
    assert_eq!(forwarder.step(), RoundStep::ReceiveFirst);
    assert_eq!(forwarder.stats_a(), PortStats::new());
    assert_eq!(forwarder.stats_b(), PortStats::new());
    assert_eq!(forwarder.handle(RoundEvent::Received(lengths(2, 64))), None);
    assert_eq!(forwarder.handle(RoundEvent::Received(lengths(9, 64))), None);
    assert_eq!(forwarder.handle(RoundEvent::ReceiveFailed), None);
    assert_eq!(
        forwarder.next_action(),
        RoundAction::Transmit { port: 1, queue: 0, packets: 2 }
    );
}

#[test]
fn counters_mirror_each_other_over_untruncated_rounds() {
    let mut forwarder = Forwarder::new(0, 1);
    for round in 0..20usize {
        full_round(&mut forwarder, lengths(round % 5, 100), lengths((round * 3) % 7, 81));
        assert_eq!(forwarder.stats_b().tx_packets, forwarder.stats_a().rx_packets);
        assert_eq!(forwarder.stats_b().tx_bytes, forwarder.stats_a().rx_bytes);
        assert_eq!(forwarder.stats_a().tx_packets, forwarder.stats_b().rx_packets);
        assert_eq!(forwarder.stats_a().tx_bytes, forwarder.stats_b().rx_bytes);
    }
    assert_eq!(forwarder.stats_a().rx_packets, 40);
    assert_eq!(forwarder.stats_a().rx_bytes, 4000);
    assert_eq!(forwarder.stats_b().rx_packets, 59);
    assert_eq!(forwarder.stats_b().rx_bytes, 4779);
}

#[test]
fn counters_never_decrease_over_mixed_rounds() {
    let mut forwarder = Forwarder::new(0, 1);
    let mut before_a = forwarder.stats_a();
    let mut before_b = forwarder.stats_b();
    for round in 0..30usize {
        match round % 4 {
            0 => full_round(&mut forwarder, lengths(3, 64), lengths(1, 64)),
            1 => {
                forwarder.handle(RoundEvent::ReceiveFailed);
            }
            2 => {
                forwarder.handle(RoundEvent::Received(lengths(8, 64)));
                forwarder.handle(RoundEvent::TransmitFailed);
            }
            _ => {
                forwarder.handle(RoundEvent::Received(lengths(8, 64)));
                forwarder.handle(RoundEvent::Transmitted(5));
                forwarder.handle(RoundEvent::Received(lengths(2, 64)));
                forwarder.handle(RoundEvent::Transmitted(2));
            }
        }
        let a = forwarder.stats_a();
        let b = forwarder.stats_b();
        for (old, new) in [(before_a, a), (before_b, b)] {
            assert!(old.rx_packets <= new.rx_packets);
            assert!(old.tx_packets <= new.tx_packets);
            assert!(old.rx_bytes <= new.rx_bytes);
            assert!(old.tx_bytes <= new.tx_bytes);
            assert!(old.rx_errors <= new.rx_errors);
            assert!(old.tx_errors <= new.tx_errors);
        }
        before_a = a;
        before_b = b;
    }
    assert_eq!(before_a.rx_errors, 8);
    assert_eq!(before_b.tx_errors, 7);
    assert_eq!(before_a.rx_packets, 8 * 3 + 7 * 8);
    assert_eq!(before_b.tx_packets, 8 * 3 + 7 * 5);
}

#[test]
fn snapshot_reads_the_committed_counters() {
    let mut forwarder = Forwarder::new(2, 5);
    full_round(&mut forwarder, lengths(10, 64), lengths(4, 128));
    assert_eq!(forwarder.handle(RoundEvent::Received(lengths(7, 64))), None);
    let snapshot = forwarder.snapshot();
    assert_eq!(snapshot.port_a, 2);
    assert_eq!(snapshot.port_b, 5);
    assert_eq!(snapshot.stats_a, forwarder.stats_a());
    assert_eq!(snapshot.stats_b, forwarder.stats_b());
    assert_eq!(snapshot.stats_a.rx_packets, 10);
    assert_eq!(forwarder.snapshot(), snapshot);
    assert_eq!(forwarder.step(), RoundStep::TransmitSecond);

    let lines = snapshot.lines();
    assert_eq!(lines.len(), 12);
    assert_eq!((lines[0].port, lines[0].counter, lines[0].value), (2, Counter::RxPackets, 10));
    assert_eq!((lines[1].port, lines[1].counter, lines[1].value), (2, Counter::TxPackets, 4));
    assert_eq!((lines[2].port, lines[2].counter, lines[2].value), (2, Counter::RxBytes, 640));
    assert_eq!((lines[3].port, lines[3].counter, lines[3].value), (2, Counter::TxBytes, 512));
    assert_eq!((lines[4].port, lines[4].counter, lines[4].value), (2, Counter::RxErrors, 0));
    assert_eq!((lines[5].port, lines[5].counter, lines[5].value), (2, Counter::TxErrors, 0));
    assert_eq!((lines[6].port, lines[6].counter, lines[6].value), (5, Counter::RxPackets, 4));
    assert_eq!((lines[7].port, lines[7].counter, lines[7].value), (5, Counter::TxPackets, 10));
    assert_eq!((lines[11].port, lines[11].counter, lines[11].value), (5, Counter::TxErrors, 0));
}
