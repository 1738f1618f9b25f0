use pktfwd::lifecycle::{
    check_ports, DriverCall, PortManager, PortPhase, SetupError, SetupStage, QUEUE_ID, RING_SIZE,
    RX_QUEUES, TX_QUEUES,
};

fn checked(ports: Vec<u16>, available: u16) -> PortManager {
    let mut manager = PortManager::new(ports);
    assert_eq!(manager.validate(available), Ok(()));
    manager
}

fn succeed(manager: &mut PortManager, calls: usize) {
    for _ in 0..calls {
        assert!(manager.pending_call().is_some());
        assert_eq!(manager.record(true), Ok(()));
    }
}

#[test]
fn configuration_constants() {
    assert_eq!(RX_QUEUES, 1);
    assert_eq!(TX_QUEUES, 1);
    assert_eq!(QUEUE_ID, 0);
    assert_eq!(RING_SIZE, 128);
}

#[test]
fn check_ports_names_the_first_port_out_of_range() {
    assert_eq!(check_ports(&vec![0, 1], 2), Ok(()));
    assert_eq!(check_ports(&vec![1, 0], 2), Ok(()));
    assert_eq!(check_ports(&Vec::new(), 0), Ok(()));
    assert_eq!(
        check_ports(&vec![0, 2], 2),
        Err(SetupError { port: 2, stage: SetupStage::PortCheck })
    );
    assert_eq!(
        check_ports(&vec![7, 9], 2),
        Err(SetupError { port: 7, stage: SetupStage::PortCheck })
    );
    assert_eq!(
        check_ports(&vec![0, 0], 0),
        Err(SetupError { port: 0, stage: SetupStage::PortCheck })
    );
}

#[test]
fn no_call_is_pending_before_the_port_check() {
    let mut manager = PortManager::new(vec![0, 1]);
    assert_eq!(manager.pending_call(), None);
    assert_eq!(manager.record(true), Ok(()));
    assert_eq!(manager.pending_call(), None);
    assert!(!manager.is_ready());
    assert_eq!(manager.phase(0), Some(PortPhase::Unused));
    assert_eq!(manager.validate(2), Ok(()));
    assert_eq!(
        manager.pending_call(),
        Some(DriverCall::Configure { port: 0, rx_queues: 1, tx_queues: 1 })
    );
}

#[test]
fn invalid_port_fails_before_any_driver_call() {
    let mut manager = PortManager::new(vec![0, 4]);
    let error = SetupError { port: 4, stage: SetupStage::PortCheck };
    assert_eq!(manager.validate(2), Err(error));
    assert_eq!(manager.failure(), Some(error));
    assert_eq!(manager.pending_call(), None);
    assert_eq!(manager.record(true), Err(error));
    assert_eq!(manager.validate(9), Err(error));
    assert_eq!(manager.configured(), 0);
    assert_eq!(manager.tear_down(), Vec::new());
    assert_eq!(manager.phase(0), Some(PortPhase::Unused));
    assert_eq!(manager.phase(1), Some(PortPhase::Unused));
}

#[test]
fn bring_up_makes_four_calls_per_port_in_order() {
    let mut manager = checked(vec![0, 1], 2);
    let mut calls = Vec::new();
    while let Some(call) = manager.pending_call() {
        calls.push(call);
        assert_eq!(manager.record(true), Ok(()));
    }
    assert_eq!(
        calls,
        vec![
            DriverCall::Configure { port: 0, rx_queues: 1, tx_queues: 1 },
            DriverCall::SetupRxQueue { port: 0, queue: 0, descriptors: 128 },
            DriverCall::SetupTxQueue { port: 0, queue: 0, descriptors: 128 },
            DriverCall::Start { port: 0 },
            DriverCall::Configure { port: 1, rx_queues: 1, tx_queues: 1 },
            DriverCall::SetupRxQueue { port: 1, queue: 0, descriptors: 128 },
            DriverCall::SetupTxQueue { port: 1, queue: 0, descriptors: 128 },
            DriverCall::Start { port: 1 },
        ]
    );
    assert!(manager.is_ready());
    assert_eq!(manager.failure(), None);
    assert_eq!(manager.configured(), 2);
    assert_eq!(manager.phase(0), Some(PortPhase::Started));
    assert_eq!(manager.phase(1), Some(PortPhase::Started));
    assert_eq!(manager.phase(2), None);
}

#[test]
fn phases_follow_the_successful_calls() {
    let mut manager = checked(vec![3, 5], 6);
    assert_eq!(manager.phase(0), Some(PortPhase::Unused));
    succeed(&mut manager, 1);
    assert_eq!(manager.phase(0), Some(PortPhase::Configured));
    succeed(&mut manager, 1);
    assert_eq!(manager.phase(0), Some(PortPhase::RxReady));
    succeed(&mut manager, 1);
    assert_eq!(manager.phase(0), Some(PortPhase::TxReady));
    assert_eq!(manager.phase(1), Some(PortPhase::Unused));
    assert!(!manager.is_ready());
    succeed(&mut manager, 1);
    assert_eq!(manager.phase(0), Some(PortPhase::Started));
    assert_eq!(manager.phase(1), Some(PortPhase::Unused));
    assert_eq!(manager.configured(), 1);
    succeed(&mut manager, 1);
    assert_eq!(manager.phase(1), Some(PortPhase::Configured));
    assert_eq!(manager.configured(), 2);
}

fn fail_after(successes: usize) -> (PortManager, Result<(), SetupError>) {
    let mut manager = checked(vec![0, 1], 2);
    succeed(&mut manager, successes);
    let result = manager.record(false);
    (manager, result)
}

#[test]
fn failure_names_the_port_and_the_stage() {
    let stages = [
        SetupStage::Configure,
        SetupStage::RxQueue,
        SetupStage::TxQueue,
        SetupStage::Start,
    ];
    for successes in 0..8usize {
        let (manager, result) = fail_after(successes);
        let error = SetupError { port: (successes / 4) as u16, stage: stages[successes % 4] };
        assert_eq!(result, Err(error));
        assert_eq!(manager.failure(), Some(error));
        assert_eq!(manager.pending_call(), None);
        assert!(!manager.is_ready());
    }
}

#[test]
fn failure_is_kept() {
    let (mut manager, result) = fail_after(5);
    let error = SetupError { port: 1, stage: SetupStage::RxQueue };
    assert_eq!(result, Err(error));
    assert_eq!(manager.record(true), Err(error));
    assert_eq!(manager.record(false), Err(error));
    assert_eq!(manager.pending_call(), None);
    assert_eq!(manager.failure(), Some(error));
}

#[test]
fn teardown_after_configure_failure_covers_the_started_ports_only() {
    let (mut manager, _) = fail_after(0);
    assert_eq!(manager.tear_down(), Vec::new());

    let (mut manager, _) = fail_after(4);
    assert_eq!(manager.phase(1), Some(PortPhase::Unused));
    assert_eq!(
        manager.tear_down(),
        vec![DriverCall::Stop { port: 0 }, DriverCall::Close { port: 0 }]
    );
    assert_eq!(manager.phase(0), Some(PortPhase::Closed));
    assert_eq!(manager.phase(1), Some(PortPhase::Unused));
}

#[test]
fn teardown_after_later_failure_covers_the_half_configured_port_too() {
    for successes in 1..4usize {
        let (mut manager, _) = fail_after(successes);
        assert_eq!(
            manager.tear_down(),
            vec![DriverCall::Stop { port: 0 }, DriverCall::Close { port: 0 }]
        );
        assert_eq!(manager.phase(0), Some(PortPhase::Closed));
        assert_eq!(manager.phase(1), Some(PortPhase::Unused));
    }
    for successes in 5..8usize {
        let (mut manager, _) = fail_after(successes);
        assert_eq!(
            manager.tear_down(),
            vec![
                DriverCall::Stop { port: 0 },
                DriverCall::Close { port: 0 },
                DriverCall::Stop { port: 1 },
                DriverCall::Close { port: 1 },
            ]
        );
        assert_eq!(manager.phase(0), Some(PortPhase::Closed));
        assert_eq!(manager.phase(1), Some(PortPhase::Closed));
    }
}

#[test]
fn teardown_of_started_ports_stops_and_closes_each_once() {
    let mut manager = checked(vec![0, 1], 2);
    succeed(&mut manager, 8);
    let calls = manager.tear_down();
    assert_eq!(
        calls,
        vec![
            DriverCall::Stop { port: 0 },
            DriverCall::Close { port: 0 },
            DriverCall::Stop { port: 1 },
            DriverCall::Close { port: 1 },
        ]
    );
    assert!(!manager.is_ready());
    assert_eq!(manager.pending_call(), None);
}

#[test]
fn teardown_twice_makes_no_second_call() {
    let mut manager = checked(vec![0, 1], 2);
    succeed(&mut manager, 8);
    assert_eq!(manager.tear_down().len(), 4);
    assert_eq!(manager.tear_down(), Vec::new());
    assert_eq!(manager.tear_down(), Vec::new());
    assert_eq!(manager.phase(0), Some(PortPhase::Closed));
    assert_eq!(manager.phase(1), Some(PortPhase::Closed));
}

#[test]
fn teardown_of_ports_never_started_makes_no_call() {
    let mut fresh = PortManager::new(vec![0, 1]);
    assert_eq!(fresh.tear_down(), Vec::new());
    assert_eq!(fresh.phase(0), Some(PortPhase::Unused));

    let mut manager = checked(vec![0, 1], 2);
    assert_eq!(manager.tear_down(), Vec::new());
    assert_eq!(manager.pending_call(), None);
    assert_eq!(manager.record(true), Ok(()));
    assert_eq!(manager.phase(0), Some(PortPhase::Unused));
    assert_eq!(manager.phase(1), Some(PortPhase::Unused));
}
