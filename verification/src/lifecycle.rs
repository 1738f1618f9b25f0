//! Bringing ports up and tearing them down.
//!
//! A port is brought up by four driver calls in a fixed order, each of which
//! must succeed before the next is made. The manager names the call to make
//! next and is told whether it succeeded; it never calls the driver itself.
//! Ports are brought up one after the other, so at any time at most one port
//! is configured without being started.

use vstd::prelude::*;

verus! {

/// Number of receive queues a port is configured with.
pub const RX_QUEUES: u16 = 1;

/// Number of transmit queues a port is configured with.
pub const TX_QUEUES: u16 = 1;

/// The queue used on each port, for receiving and for transmitting.
pub const QUEUE_ID: u16 = 0;

/// Number of descriptors in each queue's ring.
pub const RING_SIZE: u16 = 128;

/// The steps of bringing a port up, in order.
#[derive(Clone, Copy, Debug, PartialEq, Eq, Structural)]
pub enum SetupStage {
    /// The port's number is checked against the number of ports available.
    PortCheck,
    /// The port is configured with its queue counts.
    Configure,
    /// The receive queue is set up on the buffer pool.
    RxQueue,
    /// The transmit queue is set up.
    TxQueue,
    /// The port is started.
    Start,
}

/// A step of bringing a port up that failed.
#[derive(Clone, Copy, Debug, PartialEq, Eq, Structural)]
pub struct SetupError {
    pub port: u16,
    pub stage: SetupStage,
}

/// How far a port has come.
#[derive(Clone, Copy, Debug, PartialEq, Eq, Structural)]
pub enum PortPhase {
    /// The driver has not been asked anything about the port.
    Unused,
    /// Configured; no queue set up yet.
    Configured,
    /// Configured, receive queue set up.
    RxReady,
    /// Configured, both queues set up, not started.
    TxReady,
    /// Started: the port can carry traffic.
    Started,
    /// Stopped and closed; the port is not used again.
    Closed,
}

/// A call for the caller to make on the port driver.
#[derive(Clone, Copy, Debug, PartialEq, Eq, Structural)]
pub enum DriverCall {
    Configure { port: u16, rx_queues: u16, tx_queues: u16 },
    SetupRxQueue { port: u16, queue: u16, descriptors: u16 },
    SetupTxQueue { port: u16, queue: u16, descriptors: u16 },
    Start { port: u16 },
    Stop { port: u16 },
    Close { port: u16 },
}

/// The driver call that carries out `stage` for `port`. The port check is
/// made without the driver.
pub open spec fn setup_call(port: u16, stage: SetupStage) -> Option<DriverCall> {
    match stage {
        SetupStage::PortCheck => None,
        SetupStage::Configure => Some(
            DriverCall::Configure { port, rx_queues: RX_QUEUES, tx_queues: TX_QUEUES },
        ),
        SetupStage::RxQueue => Some(
            DriverCall::SetupRxQueue { port, queue: QUEUE_ID, descriptors: RING_SIZE },
        ),
        SetupStage::TxQueue => Some(
            DriverCall::SetupTxQueue { port, queue: QUEUE_ID, descriptors: RING_SIZE },
        ),
        SetupStage::Start => Some(DriverCall::Start { port }),
    }
}

/// The phase of a port whose next step is `stage`.
pub open spec fn phase_before(stage: SetupStage) -> PortPhase {
    match stage {
        SetupStage::PortCheck => PortPhase::Unused,
        SetupStage::Configure => PortPhase::Unused,
        SetupStage::RxQueue => PortPhase::Configured,
        SetupStage::TxQueue => PortPhase::RxReady,
        SetupStage::Start => PortPhase::TxReady,
    }
}

/// The calls that tear the given ports down: for each port in turn, a stop
/// followed by a close.
pub open spec fn teardown_calls(ports: Seq<u16>) -> Seq<DriverCall> {
    Seq::new(
        2 * ports.len(),
        |k: int|
            if k % 2 == 0 {
                DriverCall::Stop { port: ports[k / 2] }
            } else {
                DriverCall::Close { port: ports[k / 2] }
            },
    )
}

/// The first of `ports` that is not below `available`, if there is one.
pub open spec fn first_invalid(ports: Seq<u16>, available: u16) -> Option<u16>
    decreases ports.len(),
{
    if ports.len() == 0 {
        None
    } else if ports[0] >= available {
        Some(ports[0])
    } else {
        first_invalid(ports.drop_first(), available)
    }
}

/// The manager as contracts see it.
pub struct ManagerState {
    /// The ports, in the order in which they are brought up.
    pub ports: Seq<u16>,
    /// Number of ports started so far; the port at this index comes next.
    pub cursor: nat,
    /// The next step for the port at `cursor`.
    pub stage: SetupStage,
    /// The step that failed, once one has.
    pub failure: Option<SetupError>,
    /// Whether the ports have been torn down.
    pub torn_down: bool,
}

impl ManagerState {
    /// A manager whose ports have not been checked yet.
    pub open spec fn fresh(ports: Seq<u16>) -> ManagerState {
        ManagerState {
            ports,
            cursor: 0,
            stage: SetupStage::PortCheck,
            failure: None,
            torn_down: false,
        }
    }

    /// The state after the port numbers were checked against the number of
    /// ports available. A port that is not below `available` fails the check;
    /// otherwise the first port is ready to be configured. Once the check has
    /// been made, it is not made again.
    pub open spec fn validated(self, available: u16) -> ManagerState {
        if self.stage != SetupStage::PortCheck || self.failure.is_some() || self.torn_down {
            self
        } else {
            match first_invalid(self.ports, available) {
                Some(port) => ManagerState {
                    failure: Some(SetupError { port, stage: SetupStage::PortCheck }),
                    ..self
                },
                None => ManagerState { stage: SetupStage::Configure, ..self },
            }
        }
    }

    /// The call whose outcome the manager is waiting for. There is none
    /// before the port check, once a step has failed, once the ports are torn
    /// down, or when every port is started.
    pub open spec fn pending_call(self) -> Option<DriverCall> {
        if self.failure.is_some() || self.torn_down || self.cursor >= self.ports.len() {
            None
        } else {
            setup_call(self.ports[self.cursor as int], self.stage)
        }
    }

    /// The state after the pending call returned, successfully or not. With
    /// no call pending nothing changes.
    pub open spec fn recorded(self, succeeded: bool) -> ManagerState {
        if self.pending_call().is_none() {
            self
        } else if !succeeded {
            ManagerState {
                failure: Some(
                    SetupError { port: self.ports[self.cursor as int], stage: self.stage },
                ),
                ..self
            }
        } else {
            match self.stage {
                SetupStage::PortCheck => self,
                SetupStage::Configure => ManagerState { stage: SetupStage::RxQueue, ..self },
                SetupStage::RxQueue => ManagerState { stage: SetupStage::TxQueue, ..self },
                SetupStage::TxQueue => ManagerState { stage: SetupStage::Start, ..self },
                SetupStage::Start => ManagerState {
                    cursor: self.cursor + 1,
                    stage: SetupStage::Configure,
                    ..self
                },
            }
        }
    }

    /// Number of ports, counted from the first, that are started.
    pub open spec fn started(self) -> nat {
        if self.cursor <= self.ports.len() {
            self.cursor
        } else {
            self.ports.len()
        }
    }

    /// Number of ports, counted from the first, that the driver has
    /// configured: the started ones, and the one after them if its
    /// configuration has succeeded.
    pub open spec fn configured(self) -> nat {
        if self.cursor < self.ports.len() && phase_before(self.stage) != PortPhase::Unused {
            self.cursor + 1
        } else {
            self.started()
        }
    }

    /// Every port has passed the check and is started, and none has been
    /// torn down.
    pub open spec fn ready(self) -> bool {
        &&& self.failure.is_none()
        &&& !self.torn_down
        &&& self.stage != SetupStage::PortCheck
        &&& self.cursor >= self.ports.len()
    }

    /// The phase of the port at `index`.
    pub open spec fn phase(self, index: int) -> PortPhase
        recommends
            0 <= index < self.ports.len(),
    {
        if index >= self.configured() {
            PortPhase::Unused
        } else if self.torn_down {
            PortPhase::Closed
        } else if index < self.cursor {
            PortPhase::Started
        } else {
            phase_before(self.stage)
        }
    }

    /// The calls that tearing down makes: a stop and a close for every
    /// configured port, none for the others, and none at all once the ports
    /// have been torn down.
    pub open spec fn teardown_plan(self) -> Seq<DriverCall> {
        if self.torn_down {
            Seq::empty()
        } else {
            teardown_calls(self.ports.take(self.configured() as int))
        }
    }

    /// The state after tearing down.
    pub open spec fn torn(self) -> ManagerState {
        ManagerState { torn_down: true, ..self }
    }
}

/// Checks every port number against the number of ports available. The
/// error names the first port that is not below `available`.
pub fn check_ports(ports: &Vec<u16>, available: u16) -> (result: Result<(), SetupError>)
    ensures
        result == match first_invalid(ports@, available) {
            Some(port) => Err(SetupError { port, stage: SetupStage::PortCheck }),
            None => Ok(()),
        },
{
    let mut i: usize = 0;
    assert(ports@.skip(0) =~= ports@);
    while i < ports.len()
        invariant
            i <= ports@.len(),
            first_invalid(ports@, available) == first_invalid(ports@.skip(i as int), available),
        decreases ports@.len() - i,
    {
        let port = ports[i];
        assert(ports@.skip(i as int)[0] == port);
        if port >= available {
            return Err(SetupError { port, stage: SetupStage::PortCheck });
        }
        assert(ports@.skip(i as int).drop_first() =~= ports@.skip(i + 1));
        i = i + 1;
    }
    Ok(())
}

/// Brings a list of ports up, one after the other, and tears them down.
pub struct PortManager {
    ports: Vec<u16>,
    cursor: usize,
    stage: SetupStage,
    failure: Option<SetupError>,
    torn_down: bool,
}

impl View for PortManager {
    type V = ManagerState;

    closed spec fn view(&self) -> ManagerState {
        ManagerState {
            ports: self.ports@,
            cursor: self.cursor as nat,
            stage: self.stage,
            failure: self.failure,
            torn_down: self.torn_down,
        }
    }
}

impl PortManager {
    /// A manager for `ports`, which are brought up in the order given. The
    /// port numbers are still to be checked.
    pub fn new(ports: Vec<u16>) -> (manager: PortManager)
        ensures
            manager@ == ManagerState::fresh(ports@),
    {
        PortManager {
            ports,
            cursor: 0,
            stage: SetupStage::PortCheck,
            failure: None,
            torn_down: false,
        }
    }

    /// Checks the port numbers against the number of ports available, before
    /// any driver call is made. If a port is not below `available` the check
    /// fails, the error names the first such port, and no call ever becomes
    /// pending. The result is the kept failure if there is one, as for
    /// `record`.
    pub fn validate(&mut self, available: u16) -> (result: Result<(), SetupError>)
        ensures
            final(self)@ == old(self)@.validated(available),
            result == match final(self)@.failure {
                Some(error) => Err::<(), SetupError>(error),
                None => Ok(()),
            },
    {
        if let Some(error) = self.failure {
            return Err(error);
        }
        match self.stage {
            SetupStage::PortCheck => {},
            _ => {
                return Ok(());
            },
        }
        if self.torn_down {
            return Ok(());
        }
        match check_ports(&self.ports, available) {
            Err(error) => {
                self.failure = Some(error);
                Err(error)
            },
            Ok(()) => {
                self.stage = SetupStage::Configure;
                Ok(())
            },
        }
    }

    /// The call to make next while bringing the ports up, if there is one.
    pub fn pending_call(&self) -> (call: Option<DriverCall>)
        ensures
            call == self@.pending_call(),
    {
        if self.failure.is_some() || self.torn_down || self.cursor >= self.ports.len() {
            return None;
        }
        let port = self.ports[self.cursor];
        match self.stage {
            SetupStage::PortCheck => None,
            SetupStage::Configure => Some(
                DriverCall::Configure { port, rx_queues: RX_QUEUES, tx_queues: TX_QUEUES },
            ),
            SetupStage::RxQueue => Some(
                DriverCall::SetupRxQueue { port, queue: QUEUE_ID, descriptors: RING_SIZE },
            ),
            SetupStage::TxQueue => Some(
                DriverCall::SetupTxQueue { port, queue: QUEUE_ID, descriptors: RING_SIZE },
            ),
            SetupStage::Start => Some(DriverCall::Start { port }),
        }
    }

    /// Takes in whether the pending call succeeded.
    ///
    /// After a success the next step of the same port is pending, or the
    /// first step of the next port once this one is started. A failure is
    /// kept: no further call becomes pending, and the error names the port
    /// and the step. The result is that error from then on, and `Ok` as long
    /// as no step has failed.
    pub fn record(&mut self, succeeded: bool) -> (result: Result<(), SetupError>)
        ensures
            final(self)@ == old(self)@.recorded(succeeded),
            result == match final(self)@.failure {
                Some(error) => Err::<(), SetupError>(error),
                None => Ok(()),
            },
    {
        if let Some(error) = self.failure {
            return Err(error);
        }
        if self.torn_down || self.cursor >= self.ports.len() {
            return Ok(());
        }
        if !succeeded {
            match self.stage {
                SetupStage::PortCheck => Ok(()),
                _ => {
                    let error = SetupError { port: self.ports[self.cursor], stage: self.stage };
                    self.failure = Some(error);
                    Err(error)
                },
            }
        } else {
            match self.stage {
                SetupStage::PortCheck => {},
                SetupStage::Configure => {
                    self.stage = SetupStage::RxQueue;
                },
                SetupStage::RxQueue => {
                    self.stage = SetupStage::TxQueue;
                },
                SetupStage::TxQueue => {
                    self.stage = SetupStage::Start;
                },
                SetupStage::Start => {
                    self.cursor = self.cursor + 1;
                    self.stage = SetupStage::Configure;
                },
            }
            Ok(())
        }
    }

    /// Whether every port has passed the check and is started, and none has
    /// been torn down.
    pub fn is_ready(&self) -> (ready: bool)
        ensures
            ready == self@.ready(),
    {
        let checked = match self.stage {
            SetupStage::PortCheck => false,
            _ => true,
        };
        self.failure.is_none() && !self.torn_down && checked && self.cursor >= self.ports.len()
    }

    /// The step that failed, if one has.
    pub fn failure(&self) -> (failure: Option<SetupError>)
        ensures
            failure == self@.failure,
    {
        self.failure
    }

    /// Number of ports, counted from the first, that the driver has
    /// configured.
    pub fn configured(&self) -> (count: usize)
        ensures
            count == self@.configured(),
    {
        if self.cursor < self.ports.len() {
            match self.stage {
                SetupStage::PortCheck => self.cursor,
                SetupStage::Configure => self.cursor,
                _ => self.cursor + 1,
            }
        } else {
            self.ports.len()
        }
    }

    /// The phase of the port at `index`; `None` if there is no such port.
    pub fn phase(&self, index: usize) -> (phase: Option<PortPhase>)
        ensures
            phase == if index < self@.ports.len() {
                Some(self@.phase(index as int))
            } else {
                None
            },
    {
        if index >= self.ports.len() {
            None
        } else if index >= self.configured() {
            Some(PortPhase::Unused)
        } else if self.torn_down {
            Some(PortPhase::Closed)
        } else if index < self.cursor {
            Some(PortPhase::Started)
        } else {
            match self.stage {
                SetupStage::PortCheck => Some(PortPhase::Unused),
                SetupStage::Configure => Some(PortPhase::Unused),
                SetupStage::RxQueue => Some(PortPhase::Configured),
                SetupStage::TxQueue => Some(PortPhase::RxReady),
                SetupStage::Start => Some(PortPhase::TxReady),
            }
        }
    }

    /// Tears the ports down and returns the calls that do so, in order: a
    /// stop and then a close for each port the driver has configured. All of
    /// them are to be made, whether or not an earlier one fails. Ports the
    /// driver was never asked to configure get no call, and a second
    /// teardown returns no call at all.
    pub fn tear_down(&mut self) -> (calls: Vec<DriverCall>)
        ensures
            calls@ == old(self)@.teardown_plan(),
            final(self)@ == old(self)@.torn(),
    {
        let mut calls: Vec<DriverCall> = Vec::new();
        if self.torn_down {
            assert(calls@ =~= Seq::empty());
            return calls;
        }
        let count = self.configured();
        let mut i: usize = 0;
        assert(calls@ =~= teardown_calls(self.ports@.take(0)));
        while i < count
            invariant
                i <= count <= self.ports@.len(),
                calls@ == teardown_calls(self.ports@.take(i as int)),
            decreases count - i,
        {
            let port = self.ports[i];
            calls.push(DriverCall::Stop { port });
            calls.push(DriverCall::Close { port });
            assert(calls@ =~= teardown_calls(self.ports@.take(i + 1)));
            i = i + 1;
        }
        self.torn_down = true;
        calls
    }
}

impl ManagerState {
    /// What holds of every state a manager can reach: the cursor stays within
    /// the list, no port is started before the port check, and past the last
    /// port there is no step under way.
    pub open spec fn consistent(self) -> bool {
        &&& self.cursor <= self.ports.len()
        &&& self.stage == SetupStage::PortCheck ==> self.cursor == 0
        &&& self.cursor == self.ports.len() ==> self.stage == SetupStage::Configure
            || self.stage == SetupStage::PortCheck
    }

    /// No two of the configured ports carry the same number.
    pub open spec fn configured_distinct(self) -> bool {
        forall|i: int, j: int|
            0 <= i < j < self.configured() ==> self.ports[i] != self.ports[j]
    }
}

/// A new manager is consistent.
pub proof fn lemma_fresh_consistent(ports: Seq<u16>)
    ensures
        ManagerState::fresh(ports).consistent(),
{
}

/// Checking the ports, recording an outcome or tearing down keeps a manager
/// consistent.
pub proof fn lemma_consistent(state: ManagerState, available: u16, succeeded: bool)
    requires
        state.consistent(),
    ensures
        state.validated(available).consistent(),
        state.recorded(succeeded).consistent(),
        state.torn().consistent(),
{
}

/// A port number that is not below the number of ports available fails the
/// check at once: the error names the first such port, no driver call is or
/// becomes pending, and a teardown has nothing to do. When every port is
/// below that number, the configuration of the first port is the next call.
pub proof fn lemma_port_check(ports: Seq<u16>, available: u16, succeeded: bool)
    ensures
        ManagerState::fresh(ports).pending_call().is_none(),
        match first_invalid(ports, available) {
            Some(port) => {
                let checked = ManagerState::fresh(ports).validated(available);
                &&& port >= available
                &&& ports.contains(port)
                &&& checked.failure == Some(SetupError { port, stage: SetupStage::PortCheck })
                &&& checked.pending_call().is_none()
                &&& checked.recorded(succeeded) == checked
                &&& checked.teardown_plan() == Seq::<DriverCall>::empty()
            },
            None => {
                let checked = ManagerState::fresh(ports).validated(available);
                &&& forall|i: int| 0 <= i < ports.len() ==> ports[i] < available
                &&& checked.failure.is_none()
                &&& checked.pending_call() == if ports.len() > 0 {
                    setup_call(ports[0], SetupStage::Configure)
                } else {
                    None
                }
            },
        },
{
    lemma_first_invalid(ports, available);
    let checked = ManagerState::fresh(ports).validated(available);
    assert(checked.configured() == 0);
    assert(checked.teardown_plan() =~= Seq::<DriverCall>::empty());
}

/// `first_invalid` finds a port of the list that is not below `available`
/// and has only ports below it in front, or finds none because all are.
pub proof fn lemma_first_invalid(ports: Seq<u16>, available: u16)
    ensures
        match first_invalid(ports, available) {
            Some(port) => exists|i: int|
                0 <= i < ports.len() && #[trigger] ports[i] == port && port >= available && forall|
                    j: int,
                | 0 <= j < i ==> ports[j] < available,
            None => forall|i: int| 0 <= i < ports.len() ==> ports[i] < available,
        },
    decreases ports.len(),
{
    if ports.len() > 0 && ports[0] < available {
        let rest = ports.drop_first();
        lemma_first_invalid(rest, available);
        match first_invalid(rest, available) {
            Some(port) => {
                let i = choose|i: int|
                    0 <= i < rest.len() && #[trigger] rest[i] == port && port >= available
                        && forall|j: int| 0 <= j < i ==> rest[j] < available;
                assert(ports[i + 1] == port);
                assert forall|j: int| 0 <= j < i + 1 implies ports[j] < available by {
                    if j > 0 {
                        assert(rest[j - 1] == ports[j]);
                    }
                }
            },
            None => {
                assert forall|i: int| 0 <= i < ports.len() implies ports[i] < available by {
                    if i > 0 {
                        assert(rest[i - 1] == ports[i]);
                    }
                }
            },
        }
    } else if ports.len() > 0 {
        assert(ports[0] == ports[0]);
    }
}

/// A port is either started, or not in use, or the single port whose
/// bring-up is under way: the driver has configured at most one port beyond
/// the started ones, and every port behind that one is unused.
pub proof fn lemma_one_port_under_way(state: ManagerState, index: int)
    requires
        state.consistent(),
        0 <= index < state.ports.len(),
    ensures
        state.started() <= state.configured() <= state.started() + 1,
        state.configured() <= state.ports.len(),
        index >= state.configured() ==> state.phase(index) == PortPhase::Unused,
        index < state.started() && !state.torn_down ==> state.phase(index) == PortPhase::Started,
        index < state.configured() && state.torn_down ==> state.phase(index) == PortPhase::Closed,
{
}

/// Tearing down twice is the same as tearing down once: the second teardown
/// makes no call and changes nothing. A teardown of ports that were never
/// configured makes no call either.
pub proof fn lemma_teardown_idempotent(state: ManagerState)
    ensures
        state.torn().teardown_plan() == Seq::<DriverCall>::empty(),
        state.torn().torn() == state.torn(),
        state.configured() == 0 ==> state.teardown_plan() == Seq::<DriverCall>::empty(),
        ManagerState::fresh(state.ports).teardown_plan() == Seq::<DriverCall>::empty(),
{
    assert(state.configured() == 0 ==> state.teardown_plan() =~= Seq::<DriverCall>::empty());
    assert(ManagerState::fresh(state.ports).teardown_plan() =~= Seq::<DriverCall>::empty());
}

/// The teardown of a manager that has not been torn down stops and closes
/// each configured port, in the order of the ports, and calls nothing else:
/// two calls per configured port, none for a port that was never configured.
pub proof fn lemma_teardown_covers_configured(state: ManagerState)
    requires
        state.consistent(),
        !state.torn_down,
    ensures
        state.teardown_plan().len() == 2 * state.configured(),
        forall|i: int|
            0 <= i < state.configured() ==> {
                &&& (#[trigger] state.teardown_plan()[2 * i]) == DriverCall::Stop {
                    port: state.ports[i],
                }
                &&& state.teardown_plan()[2 * i + 1] == DriverCall::Close { port: state.ports[i] }
            },
{
}

/// When the configured ports carry different numbers, the teardown stops
/// each of them exactly once and closes each of them exactly once: a stop of
/// the port at index `i` stands at position `2 * i` of the plan and nowhere
/// else, its close at position `2 * i + 1` and nowhere else.
pub proof fn lemma_teardown_once(state: ManagerState, i: int, k: int)
    requires
        state.consistent(),
        !state.torn_down,
        state.configured_distinct(),
        0 <= i < state.configured(),
        0 <= k < state.teardown_plan().len(),
    ensures
        state.teardown_plan()[k] == (DriverCall::Stop { port: state.ports[i] }) <==> k == 2 * i,
        state.teardown_plan()[k] == (DriverCall::Close { port: state.ports[i] }) <==> k == 2 * i
            + 1,
{
    let j = k / 2;
    assert(0 <= j < state.configured());
    if j != i {
        if j < i {
            assert(state.ports[j] != state.ports[i]);
        } else {
            assert(state.ports[i] != state.ports[j]);
        }
    }
}

/// A failed step is kept, stops the bring-up, and decides what the teardown
/// covers. The error names the port under way and the step that failed. The
/// teardown then stops and closes the ports started before the failure, and
/// the failing port too if the driver had configured it; it makes no call
/// for a port that was never configured. When the failing step is the
/// configuration itself, the teardown covers exactly the started ports.
pub proof fn lemma_teardown_after_failure(state: ManagerState)
    requires
        state.consistent(),
        state.pending_call().is_some(),
    ensures
        state.recorded(false).failure == Some(
            SetupError { port: state.ports[state.cursor as int], stage: state.stage },
        ),
        state.recorded(false).pending_call().is_none(),
        state.recorded(false).recorded(true) == state.recorded(false),
        state.recorded(false).teardown_plan() == teardown_calls(
            state.ports.take(state.configured() as int),
        ),
        state.stage == SetupStage::Configure ==> state.recorded(false).teardown_plan()
            == teardown_calls(state.ports.take(state.started() as int)),
        state.stage != SetupStage::Configure ==> state.recorded(false).teardown_plan()
            == teardown_calls(state.ports.take(state.started() as int + 1)),
{
}

} // verus!
