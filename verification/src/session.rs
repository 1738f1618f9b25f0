//! One run of the forwarder, from start-up to exit.
//!
//! The session decides what happens next: which call to make on the runtime
//! or the driver, when to read the shutdown flag, when to report, which
//! attempt of a round comes next, and with what result the run ends. The
//! caller carries each action out and hands back what came of it.

use vstd::prelude::*;
use crate::forwarder::{ForwardError, Forwarder, ForwarderState, RoundAction, RoundEvent, Snapshot};
use crate::lifecycle::{DriverCall, ManagerState, PortManager, SetupError, SetupStage};
use crate::shutdown::{ShutdownFlag, ShutdownState};

verus! {

/// Number of buffers in the pool shared by both ports.
pub const POOL_CAPACITY: u32 = 8192;

/// Size in bytes of each buffer of the pool.
pub const POOL_ELEMENT_SIZE: u32 = 2048;

/// Number of buffers the pool keeps in its per-core cache.
pub const POOL_CACHE_SIZE: u32 = 256;

/// Time between two reports, in milliseconds.
pub const REPORT_INTERVAL_MS: u64 = 1000;

/// Why a run ended without forwarding to the end.
#[derive(Clone, Copy, Debug, PartialEq, Eq)]
pub enum SessionError {
    /// The runtime environment could not be started.
    Init,
    /// The buffer pool could not be created.
    Pool,
    /// A step of bringing a port up failed.
    Setup(SetupError),
}

/// What the caller has to do next.
#[derive(Clone, Copy, Debug, PartialEq, Eq)]
pub enum SessionAction {
    /// Start the runtime environment.
    InitRuntime,
    /// Ask how many ports are available.
    CountPorts,
    /// Create the buffer pool.
    CreatePool { capacity: u32, element_size: u32, cache_size: u32 },
    /// Make this call on the port driver.
    Driver(DriverCall),
    /// Read the shutdown flag and the time since the last report. If the
    /// round that just ended failed, `round_error` says how, for the log.
    Observe { round_error: Option<ForwardError> },
    /// Show these counters to the operator. `last` marks the report that
    /// precedes the teardown.
    Report { snapshot: Snapshot, last: bool },
    /// Make this attempt of the forwarding round.
    Round(RoundAction),
    /// Leave, with this result.
    Exit(Result<(), SessionError>),
}

/// What came of an action.
#[derive(Debug, PartialEq, Eq)]
pub enum SessionEvent {
    /// Whether the runtime environment started.
    RuntimeInit(bool),
    /// The number of ports available.
    PortCount(u16),
    /// Whether the buffer pool was created.
    PoolCreated(bool),
    /// Whether the driver call succeeded.
    CallDone(bool),
    /// Whether the shutdown flag is set, and the milliseconds since the last
    /// report (since the start of the loop, before the first).
    Observed { stop_requested: bool, since_report_ms: u64 },
    /// The report was shown.
    Reported,
    /// How the attempt of the round went.
    Round(RoundEvent),
}

/// The process exit code for a run's result: zero for a run that ended by a
/// requested stop, one for every failure.
pub open spec fn exit_code_of(outcome: Result<(), SessionError>) -> u8 {
    match outcome {
        Ok(()) => 0,
        Err(_) => 1,
    }
}

/// The process exit code for a run's result.
pub fn exit_code(outcome: Result<(), SessionError>) -> (code: u8)
    ensures
        code == exit_code_of(outcome),
{
    match outcome {
        Ok(()) => 0,
        Err(_) => 1,
    }
}

/// Whether `call` belongs to a teardown.
pub open spec fn is_teardown_call(call: DriverCall) -> bool {
    call is Stop || call is Close
}

/// The session as contracts see it.
pub struct SessionState {
    /// The action the session is waiting for the outcome of.
    pub action: SessionAction,
    pub manager: ManagerState,
    pub forwarder: ForwarderState,
    pub shutdown: ShutdownState,
    /// The teardown calls still to make after the one under way.
    pub teardown: Seq<DriverCall>,
    /// The result the run ends with once the teardown is through.
    pub outcome: Result<(), SessionError>,
}

impl SessionState {
    /// A session for two ports that has not started the runtime yet.
    pub open spec fn fresh(port_a: u16, port_b: u16) -> SessionState {
        SessionState {
            action: SessionAction::InitRuntime,
            manager: ManagerState::fresh(seq![port_a, port_b]),
            forwarder: ForwarderState::fresh(port_a, port_b),
            shutdown: ShutdownState::Running,
            teardown: Seq::empty(),
            outcome: Ok(()),
        }
    }

    /// The run ends without a teardown.
    pub open spec fn ended(self, outcome: Result<(), SessionError>) -> SessionState {
        SessionState { action: SessionAction::Exit(outcome), outcome, ..self }
    }

    /// The ports are torn down, and then the run ends with `outcome`. With
    /// no port configured the run ends at once.
    pub open spec fn winding_down(self, outcome: Result<(), SessionError>) -> SessionState {
        let plan = self.manager.teardown_plan();
        if plan.len() == 0 {
            SessionState {
                action: SessionAction::Exit(outcome),
                manager: self.manager.torn(),
                teardown: Seq::empty(),
                outcome,
                ..self
            }
        } else {
            SessionState {
                action: SessionAction::Driver(plan[0]),
                manager: self.manager.torn(),
                teardown: plan.drop_first(),
                outcome,
                ..self
            }
        }
    }

    /// The loop turns: the flag and the clock are read next.
    pub open spec fn observing(self, round_error: Option<ForwardError>) -> SessionState {
        SessionState { action: SessionAction::Observe { round_error }, ..self }
    }

    /// The next attempt of the round is made next.
    pub open spec fn forwarding(self) -> SessionState {
        SessionState { action: SessionAction::Round(self.forwarder.action()), ..self }
    }

    /// The bring-up goes on with the manager's pending call, or, every port
    /// being started, the loop begins.
    pub open spec fn bringing_up(self) -> SessionState {
        match self.manager.pending_call() {
            Some(call) => SessionState { action: SessionAction::Driver(call), ..self },
            None => self.observing(None),
        }
    }

    /// After the runtime started or failed to.
    pub open spec fn after_init(self, started: bool) -> SessionState {
        if started {
            SessionState { action: SessionAction::CountPorts, ..self }
        } else {
            self.ended(Err(SessionError::Init))
        }
    }

    /// After the number of available ports became known: the ports are
    /// checked, and the pool is created only if both pass.
    pub open spec fn after_port_count(self, available: u16) -> SessionState {
        let manager = self.manager.validated(available);
        match manager.failure {
            Some(error) => SessionState { manager, ..self }.ended(
                Err(SessionError::Setup(error)),
            ),
            None => SessionState {
                action: SessionAction::CreatePool {
                    capacity: POOL_CAPACITY,
                    element_size: POOL_ELEMENT_SIZE,
                    cache_size: POOL_CACHE_SIZE,
                },
                manager,
                ..self
            },
        }
    }

    /// After the pool was created or failed to be.
    pub open spec fn after_pool(self, created: bool) -> SessionState {
        if created {
            self.bringing_up()
        } else {
            self.ended(Err(SessionError::Pool))
        }
    }

    /// After a call of the bring-up returned: the next call, the loop, or,
    /// after a failure, the teardown of what was configured.
    pub open spec fn after_setup_call(self, succeeded: bool) -> SessionState {
        let manager = self.manager.recorded(succeeded);
        let next = SessionState { manager, ..self };
        match manager.failure {
            Some(error) => next.winding_down(Err(SessionError::Setup(error))),
            None => next.bringing_up(),
        }
    }

    /// After a call of the teardown returned, however it went: the next call
    /// of the teardown, or the exit.
    pub open spec fn after_teardown_call(self) -> SessionState {
        if self.teardown.len() == 0 {
            SessionState { action: SessionAction::Exit(self.outcome), ..self }
        } else {
            SessionState {
                action: SessionAction::Driver(self.teardown[0]),
                teardown: self.teardown.drop_first(),
                ..self
            }
        }
    }

    /// After the flag and the clock were read. A requested stop leads to the
    /// last report; otherwise a report is made if one is due, and else the
    /// next round begins.
    pub open spec fn after_observation(
        self,
        stop_requested: bool,
        since_report_ms: u64,
    ) -> SessionState {
        let shutdown = self.shutdown.observed(stop_requested);
        let report_due = shutdown == ShutdownState::StopRequested || since_report_ms
            >= REPORT_INTERVAL_MS;
        let next = SessionState { shutdown, ..self };
        if report_due {
            SessionState {
                action: SessionAction::Report {
                    snapshot: self.forwarder.snapshot(),
                    last: shutdown == ShutdownState::StopRequested,
                },
                ..next
            }
        } else {
            next.forwarding()
        }
    }

    /// After a report was shown: the teardown after the last one, the next
    /// round after any other.
    pub open spec fn after_report(self, last: bool) -> SessionState {
        if last {
            self.winding_down(Ok(()))
        } else {
            self.forwarding()
        }
    }

    /// After an attempt of the round returned: the next attempt, or, the
    /// round being over, the next turn of the loop.
    pub open spec fn after_round_event(self, event: RoundEvent) -> SessionState {
        let next = SessionState { forwarder: self.forwarder.after(event), ..self };
        match self.forwarder.outcome(event) {
            None => next.forwarding(),
            Some(Ok(())) => next.observing(None),
            Some(Err(error)) => next.observing(Some(error)),
        }
    }

    /// The state after `event`. An event that does not answer the action
    /// under way changes nothing.
    pub open spec fn after(self, event: SessionEvent) -> SessionState {
        match (self.action, event) {
            (SessionAction::InitRuntime, SessionEvent::RuntimeInit(started)) => self.after_init(
                started,
            ),
            (SessionAction::CountPorts, SessionEvent::PortCount(available)) => self.after_port_count(
                available,
            ),
            (SessionAction::CreatePool { .. }, SessionEvent::PoolCreated(created)) => self.after_pool(
                created,
            ),
            (SessionAction::Driver(call), SessionEvent::CallDone(succeeded)) => if is_teardown_call(
                call,
            ) {
                self.after_teardown_call()
            } else {
                self.after_setup_call(succeeded)
            },
            (
                SessionAction::Observe { .. },
                SessionEvent::Observed { stop_requested, since_report_ms },
            ) => self.after_observation(stop_requested, since_report_ms),
            (SessionAction::Report { last, .. }, SessionEvent::Reported) => self.after_report(last),
            (SessionAction::Round(_), SessionEvent::Round(event)) => self.after_round_event(event),
            _ => self,
        }
    }
}

/// One run of the forwarder between two ports.
pub struct Session {
    action: SessionAction,
    manager: PortManager,
    forwarder: Forwarder,
    shutdown: ShutdownState,
    teardown: Vec<DriverCall>,
    outcome: Result<(), SessionError>,
}

impl View for Session {
    type V = SessionState;

    closed spec fn view(&self) -> SessionState {
        SessionState {
            action: self.action,
            manager: self.manager@,
            forwarder: self.forwarder@,
            shutdown: self.shutdown,
            teardown: self.teardown@,
            outcome: self.outcome,
        }
    }
}

impl Session {
    /// A session that forwards between `port_a` and `port_b`. Its first
    /// action is to start the runtime.
    pub fn new(port_a: u16, port_b: u16) -> (session: Session)
        ensures
            session@ == SessionState::fresh(port_a, port_b),
    {
        let mut ports: Vec<u16> = Vec::new();
        ports.push(port_a);
        ports.push(port_b);
        assert(ports@ =~= seq![port_a, port_b]);
        let teardown: Vec<DriverCall> = Vec::new();
        assert(teardown@ =~= Seq::empty());
        Session {
            action: SessionAction::InitRuntime,
            manager: PortManager::new(ports),
            forwarder: Forwarder::new(port_a, port_b),
            shutdown: ShutdownState::Running,
            teardown,
            outcome: Ok(()),
        }
    }

    /// The action whose outcome the session is waiting for.
    pub fn next_action(&self) -> (action: SessionAction)
        ensures
            action == self@.action,
    {
        self.action
    }

    /// What the loop has seen of the shutdown flag.
    pub fn shutdown(&self) -> (state: ShutdownState)
        ensures
            state == self@.shutdown,
    {
        self.shutdown
    }

    /// The committed counters of both ports.
    pub fn snapshot(&self) -> (snapshot: Snapshot)
        ensures
            snapshot == self@.forwarder.snapshot(),
    {
        self.forwarder.snapshot()
    }

    fn end(&mut self, outcome: Result<(), SessionError>)
        ensures
            final(self)@ == old(self)@.ended(outcome),
    {
        self.action = SessionAction::Exit(outcome);
        self.outcome = outcome;
    }

    fn wind_down(&mut self, outcome: Result<(), SessionError>)
        ensures
            final(self)@ == old(self)@.winding_down(outcome),
    {
        let mut plan = self.manager.tear_down();
        self.outcome = outcome;
        if plan.len() == 0 {
            self.action = SessionAction::Exit(outcome);
            assert(plan@ =~= Seq::empty());
        } else {
            let first = plan.remove(0);
            self.action = SessionAction::Driver(first);
            assert(plan@ =~= old(self)@.manager.teardown_plan().drop_first());
        }
        self.teardown = plan;
    }

    fn observe_next(&mut self, round_error: Option<ForwardError>)
        ensures
            final(self)@ == old(self)@.observing(round_error),
    {
        self.action = SessionAction::Observe { round_error };
    }

    fn forward_next(&mut self)
        ensures
            final(self)@ == old(self)@.forwarding(),
    {
        self.action = SessionAction::Round(self.forwarder.next_action());
    }

    fn bring_up_next(&mut self)
        ensures
            final(self)@ == old(self)@.bringing_up(),
    {
        match self.manager.pending_call() {
            Some(call) => {
                self.action = SessionAction::Driver(call);
            },
            None => {
                self.observe_next(None);
            },
        }
    }

    fn on_init(&mut self, started: bool)
        ensures
            final(self)@ == old(self)@.after_init(started),
    {
        if started {
            self.action = SessionAction::CountPorts;
        } else {
            self.end(Err(SessionError::Init));
        }
    }

    fn on_port_count(&mut self, available: u16)
        ensures
            final(self)@ == old(self)@.after_port_count(available),
    {
        match self.manager.validate(available) {
            Err(error) => {
                self.end(Err(SessionError::Setup(error)));
            },
            Ok(()) => {
                self.action = SessionAction::CreatePool {
                    capacity: POOL_CAPACITY,
                    element_size: POOL_ELEMENT_SIZE,
                    cache_size: POOL_CACHE_SIZE,
                };
            },
        }
    }

    fn on_pool(&mut self, created: bool)
        ensures
            final(self)@ == old(self)@.after_pool(created),
    {
        if created {
            self.bring_up_next();
        } else {
            self.end(Err(SessionError::Pool));
        }
    }

    fn on_setup_call(&mut self, succeeded: bool)
        ensures
            final(self)@ == old(self)@.after_setup_call(succeeded),
    {
        match self.manager.record(succeeded) {
            Err(error) => {
                self.wind_down(Err(SessionError::Setup(error)));
            },
            Ok(()) => {
                self.bring_up_next();
            },
        }
    }

    fn on_teardown_call(&mut self)
        ensures
            final(self)@ == old(self)@.after_teardown_call(),
    {
        if self.teardown.len() == 0 {
            self.action = SessionAction::Exit(self.outcome);
        } else {
            let call = self.teardown.remove(0);
            self.action = SessionAction::Driver(call);
            assert(self.teardown@ =~= old(self)@.teardown.drop_first());
        }
    }

    fn on_observation(&mut self, stop_requested: bool, since_report_ms: u64)
        ensures
            final(self)@ == old(self)@.after_observation(stop_requested, since_report_ms),
    {
        self.shutdown = self.shutdown.observe(stop_requested);
        let stopping = self.shutdown.stop_requested();
        if stopping || since_report_ms >= REPORT_INTERVAL_MS {
            self.action = SessionAction::Report {
                snapshot: self.forwarder.snapshot(),
                last: stopping,
            };
        } else {
            self.forward_next();
        }
    }

    fn on_report(&mut self, last: bool)
        ensures
            final(self)@ == old(self)@.after_report(last),
    {
        if last {
            self.wind_down(Ok(()));
        } else {
            self.forward_next();
        }
    }

    fn on_round_event(&mut self, event: RoundEvent)
        ensures
            final(self)@ == old(self)@.after_round_event(event),
    {
        match self.forwarder.handle(event) {
            None => {
                self.forward_next();
            },
            Some(Ok(())) => {
                self.observe_next(None);
            },
            Some(Err(error)) => {
                self.observe_next(Some(error));
            },
        }
    }

    /// Takes in what came of the action that `next_action` named, moves the
    /// run on, and returns the action to carry out next.
    pub fn handle(&mut self, event: SessionEvent) -> (next: SessionAction)
        ensures
            final(self)@ == old(self)@.after(event),
            next == final(self)@.action,
    {
        match event {
            SessionEvent::RuntimeInit(started) => {
                match self.action {
                    SessionAction::InitRuntime => {
                        self.on_init(started);
                    },
                    _ => {},
                }
            },
            SessionEvent::PortCount(available) => {
                match self.action {
                    SessionAction::CountPorts => {
                        self.on_port_count(available);
                    },
                    _ => {},
                }
            },
            SessionEvent::PoolCreated(created) => {
                match self.action {
                    SessionAction::CreatePool { .. } => {
                        self.on_pool(created);
                    },
                    _ => {},
                }
            },
            SessionEvent::CallDone(succeeded) => {
                match self.action {
                    SessionAction::Driver(DriverCall::Stop { .. }) => {
                        self.on_teardown_call();
                    },
                    SessionAction::Driver(DriverCall::Close { .. }) => {
                        self.on_teardown_call();
                    },
                    SessionAction::Driver(_) => {
                        self.on_setup_call(succeeded);
                    },
                    _ => {},
                }
            },
            SessionEvent::Observed { stop_requested, since_report_ms } => {
                match self.action {
                    SessionAction::Observe { .. } => {
                        self.on_observation(stop_requested, since_report_ms);
                    },
                    _ => {},
                }
            },
            SessionEvent::Reported => {
                match self.action {
                    SessionAction::Report { last, .. } => {
                        self.on_report(last);
                    },
                    _ => {},
                }
            },
            SessionEvent::Round(event) => {
                match self.action {
                    SessionAction::Round(_) => {
                        self.on_round_event(event);
                    },
                    _ => {},
                }
            },
        }
        self.action
    }

    /// Reads the shutdown flag once and takes the reading in, together with
    /// the time since the last report, as the answer to an `Observe` action.
    /// Whatever the flag holds, the session moves as `handle` does for one of
    /// the two readings.
    pub fn observe(&mut self, flag: &ShutdownFlag, since_report_ms: u64) -> (next: SessionAction)
        ensures
            final(self)@ == old(self)@.after(
                SessionEvent::Observed { stop_requested: true, since_report_ms },
            ) || final(self)@ == old(self)@.after(
                SessionEvent::Observed { stop_requested: false, since_report_ms },
            ),
            next == final(self)@.action,
    {
        let stop_requested = flag.is_set();
        self.handle(SessionEvent::Observed { stop_requested, since_report_ms })
    }
}

impl SessionState {
    /// The teardown calls not yet answered: the one under way, if the session
    /// is tearing down, and those that follow it.
    pub open spec fn teardown_left(self) -> Seq<DriverCall> {
        match self.action {
            SessionAction::Driver(call) if is_teardown_call(call) => seq![call] + self.teardown,
            _ => self.teardown,
        }
    }

    /// What holds of every state a session can reach.
    ///
    /// The session forwards between two ports. Before the pool exists no
    /// port is configured. A call of the bring-up is the manager's pending
    /// call. The loop runs only while both ports are started. Teardown calls
    /// are made only once the manager has torn down. The run ends only with
    /// no teardown call left and no configured port that was not torn down,
    /// and with the result that was set.
    pub open spec fn consistent(self) -> bool {
        &&& self.manager.consistent()
        &&& self.manager.ports == seq![self.forwarder.port_a, self.forwarder.port_b]
        &&& forall|i: int| 0 <= i < self.teardown.len() ==> is_teardown_call(#[trigger] self.teardown[i])
        &&& match self.action {
            SessionAction::InitRuntime | SessionAction::CountPorts => {
                &&& self.manager == ManagerState::fresh(self.manager.ports)
                &&& self.teardown.len() == 0
            },
            SessionAction::CreatePool { capacity, element_size, cache_size } => {
                &&& capacity == POOL_CAPACITY
                &&& element_size == POOL_ELEMENT_SIZE
                &&& cache_size == POOL_CACHE_SIZE
                &&& self.manager == ManagerState {
                    stage: SetupStage::Configure,
                    ..ManagerState::fresh(self.manager.ports)
                }
                &&& self.teardown.len() == 0
            },
            SessionAction::Driver(call) => if is_teardown_call(call) {
                self.manager.torn_down
            } else {
                &&& self.manager.pending_call() == Some(call)
                &&& self.teardown.len() == 0
            },
            SessionAction::Observe { .. } | SessionAction::Round(_) => {
                &&& self.manager.ready()
                &&& self.teardown.len() == 0
            },
            SessionAction::Report { snapshot, last } => {
                &&& self.manager.ready()
                &&& self.teardown.len() == 0
                &&& snapshot == self.forwarder.snapshot()
                &&& last == (self.shutdown == ShutdownState::StopRequested)
            },
            SessionAction::Exit(outcome) => {
                &&& outcome == self.outcome
                &&& self.teardown.len() == 0
                &&& self.manager.torn_down || self.manager.configured() == 0
            },
        }
    }
}

/// A new session is consistent.
pub proof fn lemma_fresh_session_consistent(port_a: u16, port_b: u16)
    ensures
        SessionState::fresh(port_a, port_b).consistent(),
{
}

/// Whatever event arrives, a consistent session stays consistent. In
/// particular the run never ends while a configured port is not torn down or
/// a teardown call is still to be made.
pub proof fn lemma_session_consistent(state: SessionState, event: SessionEvent)
    requires
        state.consistent(),
    ensures
        state.after(event).consistent(),
{
    crate::lifecycle::lemma_consistent(state.manager, 0, true);
    match (state.action, event) {
        (SessionAction::CountPorts, SessionEvent::PortCount(available)) => {
            crate::lifecycle::lemma_consistent(state.manager, available, true);
            crate::lifecycle::lemma_port_check(state.manager.ports, available, true);
        },
        (SessionAction::Driver(call), SessionEvent::CallDone(succeeded)) => {
            crate::lifecycle::lemma_consistent(state.manager, 0, succeeded);
            if !is_teardown_call(call) {
                let manager = state.manager.recorded(succeeded);
                crate::lifecycle::lemma_consistent(manager, 0, succeeded);
            }
        },
        (SessionAction::Round(_), SessionEvent::Round(inner)) => {
            assert(state.forwarder.after(inner).port_a == state.forwarder.port_a);
            assert(state.forwarder.after(inner).port_b == state.forwarder.port_b);
        },
        _ => {},
    }
}

/// A teardown begins with the manager's whole plan left to do. With an
/// empty plan, and only then, the run ends at once.
pub proof fn lemma_teardown_begins_whole(state: SessionState, outcome: Result<(), SessionError>)
    ensures
        state.winding_down(outcome).teardown_left() == state.manager.teardown_plan(),
        state.winding_down(outcome).outcome == outcome,
        state.winding_down(outcome).manager == state.manager.torn(),
        state.winding_down(outcome).action is Exit <==> state.manager.teardown_plan().len() == 0,
        state.winding_down(outcome).action is Exit ==> state.winding_down(outcome).action
            == SessionAction::Exit(outcome),
{
    assert(state.winding_down(outcome).teardown_left() =~= state.manager.teardown_plan());
}

/// During a teardown every answer takes exactly the first of the calls left
/// away, whether the call succeeded or not, and the run ends, with the
/// result set when the teardown began, when none is left. So every call of
/// the plan is made, in order, before the run ends.
pub proof fn lemma_teardown_runs_whole_plan(state: SessionState, succeeded: bool)
    requires
        state.consistent(),
        state.teardown_left().len() > 0,
    ensures
        ({
            let next = state.after(SessionEvent::CallDone(succeeded));
            &&& next.teardown_left() == state.teardown_left().drop_first()
            &&& next.outcome == state.outcome
            &&& next.manager == state.manager
            &&& next.action is Exit <==> next.teardown_left().len() == 0
            &&& next.action is Exit ==> next.action == SessionAction::Exit(state.outcome)
        }),
{
    let next = state.after(SessionEvent::CallDone(succeeded));
    assert(next.teardown_left() =~= state.teardown_left().drop_first());
}

/// A failed call of the bring-up ends the bring-up. The run's result names
/// the port under way and the step that failed, and before the run ends the
/// teardown stops and closes every port the driver had configured, the
/// failing one included if its configuration had succeeded, and no other.
pub proof fn lemma_setup_failure_tears_down(state: SessionState)
    requires
        state.consistent(),
        state.action matches SessionAction::Driver(call) && !is_teardown_call(call),
    ensures
        ({
            let failed = state.after(SessionEvent::CallDone(false));
            let error = SetupError {
                port: state.manager.ports[state.manager.cursor as int],
                stage: state.manager.stage,
            };
            &&& failed.outcome == Err::<(), SessionError>(SessionError::Setup(error))
            &&& failed.teardown_left() == crate::lifecycle::teardown_calls(
                state.manager.ports.take(state.manager.configured() as int),
            )
            &&& failed.action is Exit <==> state.manager.configured() == 0
            &&& failed.forwarder == state.forwarder
        }),
{
    crate::lifecycle::lemma_teardown_after_failure(state.manager);
    let recorded = SessionState { manager: state.manager.recorded(false), ..state };
    lemma_teardown_begins_whole(
        recorded,
        Err(
            SessionError::Setup(
                SetupError {
                    port: state.manager.ports[state.manager.cursor as int],
                    stage: state.manager.stage,
                },
            ),
        ),
    );
}

/// A requested port that is not below the number of ports available ends
/// the run as soon as that number is known: the result names the first such
/// port and the port check, no pool is asked for, no port is configured, and
/// no teardown call is made.
pub proof fn lemma_invalid_port_ends_run(port_a: u16, port_b: u16, available: u16)
    requires
        port_a >= available || port_b >= available,
    ensures
        ({
            let counted = SessionState::fresh(port_a, port_b).after(
                SessionEvent::RuntimeInit(true),
            );
            let ended = counted.after(SessionEvent::PortCount(available));
            let port = if port_a >= available {
                port_a
            } else {
                port_b
            };
            &&& counted.action == SessionAction::CountPorts
            &&& ended.action == SessionAction::Exit(
                Err(SessionError::Setup(SetupError { port, stage: SetupStage::PortCheck })),
            )
            &&& ended.manager.configured() == 0
            &&& ended.teardown_left().len() == 0
        }),
{
    let ports = seq![port_a, port_b];
    reveal_with_fuel(crate::lifecycle::first_invalid, 3);
    assert(ports.drop_first()[0] == port_b);
}

/// The shutdown flag is read between rounds only: while a round is under
/// way a reading of the flag changes nothing. Read as set between two
/// rounds, it leads to the last report and then to the teardown, which
/// stops and closes the first port and then the second, once each, and ends
/// the run without an error.
pub proof fn lemma_stop_tears_down_both(
    state: SessionState,
    stop_requested: bool,
    since_report_ms: u64,
)
    requires
        state.consistent(),
    ensures
        state.action is Round ==> state.after(
            SessionEvent::Observed { stop_requested, since_report_ms },
        ) == state,
        state.action is Observe ==> ({
            let reporting = state.after(
                SessionEvent::Observed { stop_requested: true, since_report_ms },
            );
            let wound = reporting.after(SessionEvent::Reported);
            &&& reporting.action == SessionAction::Report {
                snapshot: state.forwarder.snapshot(),
                last: true,
            }
            &&& reporting.forwarder == state.forwarder
            &&& wound.outcome == Ok::<(), SessionError>(())
            &&& wound.teardown_left() == seq![
                DriverCall::Stop { port: state.forwarder.port_a },
                DriverCall::Close { port: state.forwarder.port_a },
                DriverCall::Stop { port: state.forwarder.port_b },
                DriverCall::Close { port: state.forwarder.port_b },
            ]
        }),
{
    if state.action is Observe {
        let reporting = state.after(
            SessionEvent::Observed { stop_requested: true, since_report_ms },
        );
        let wound = reporting.after(SessionEvent::Reported);
        lemma_teardown_begins_whole(reporting, Ok(()));
        assert(state.manager.configured() == 2);
        assert(state.manager.ports.take(2) =~= state.manager.ports);
        assert(state.manager.teardown_plan() =~= seq![
            DriverCall::Stop { port: state.forwarder.port_a },
            DriverCall::Close { port: state.forwarder.port_a },
            DriverCall::Stop { port: state.forwarder.port_b },
            DriverCall::Close { port: state.forwarder.port_b },
        ]);
    }
}

/// A failed round never ends the run: after the failing attempt the loop
/// turns as after any round, with the error handed on for the log, and only
/// the failing port's error counter has changed.
pub proof fn lemma_failed_round_goes_on(state: SessionState, event: RoundEvent)
    requires
        state.action is Round,
        state.forwarder.outcome(event) matches Some(Err(_)),
    ensures
        state.after(SessionEvent::Round(event)).action == (SessionAction::Observe {
            round_error: Some(state.forwarder.outcome(event).unwrap().unwrap_err()),
        }),
        state.after(SessionEvent::Round(event)).forwarder == state.forwarder.after(event),
        state.after(SessionEvent::Round(event)).manager == state.manager,
{
}

} // verus!
