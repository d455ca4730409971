//! The supervisor: validates the cross-workload invariants before
//! committing to run, coordinates the run phase with first-failure-wins
//! semantics, and drives the common shutdown sequence in which every
//! workload is stopped, joined and finished exactly once.

use vstd::prelude::*;

use crate::context::Context;
use crate::definition::{kind_name, KindView, ServiceKind};
use crate::errors::{Error, ErrorView, ServiceError, ServiceErrorView};
use crate::plugin::ServiceExecutionMode;

verus! {

/// Mathematical model of one registered workload.
pub struct WorkloadView {
    pub kind: KindView,
    pub mode: ServiceExecutionMode,
}

/// One registered workload implementation: the kind it owns and how it
/// executes. The lifecycle calls themselves stay with the embedding
/// application, keyed by kind name.
pub struct Workload {
    pub kind: ServiceKind,
    pub mode: ServiceExecutionMode,
}

impl View for Workload {
    type V = WorkloadView;

    open spec fn view(&self) -> WorkloadView {
        WorkloadView { kind: self.kind@, mode: self.mode }
    }
}

/// The supervisor: the registered workloads and the shared context.
pub struct Service {
    pub servers: Vec<Workload>,
    pub context: Context,
    pub without_health_endpoint: bool,
}

/// The registered workloads, as their models.
pub open spec fn service_servers(s: &Service) -> Seq<WorkloadView> {
    s.servers@.map_values(|w: Workload| w@)
}

/// True when some registered workload owns the kind name.
pub open spec fn registered(servers: Seq<WorkloadView>, name: Seq<char>) -> bool {
    exists|j: int| 0 <= j < servers.len() && kind_name((#[trigger] servers[j]).kind) == name
}

/// True when every registered workload shares the first one's execution
/// mode; trivially true of an empty registry.
pub open spec fn modes_equal(servers: Seq<WorkloadView>) -> bool {
    forall|j: int| 0 <= j < servers.len() ==> (#[trigger] servers[j]).mode == servers[0].mode
}

/// The cross-workload invariants the supervisor enforces before any task
/// is spawned: at least one workload, one shared execution mode, and a
/// registered workload for every configured kind.
pub open spec fn valid_definitions(
    servers: Seq<WorkloadView>,
    types: Seq<crate::definition::Service>,
) -> bool {
    &&& servers.len() > 0
    &&& modes_equal(servers)
    &&& forall|t: int|
        0 <= t < types.len() ==> registered(servers, kind_name((#[trigger] types[t]).0@))
}

impl Service {
    /// True when every registered workload shares one execution mode.
    pub fn has_equal_execution_modes(&self) -> (r: bool)
        ensures
            r == modes_equal(service_servers(self)),
    {
        let n = self.servers.len();
        if n == 0 {
            return true;
        }
        let first = self.servers[0].mode;
        let mut i: usize = 0;
        while i < n
            invariant
                i <= n,
                n == service_servers(self).len(),
                n > 0,
                first == service_servers(self)[0].mode,
                forall|j: int| 0 <= j < i ==> (#[trigger] service_servers(self)[j]).mode == first,
            decreases n - i,
        {
            if self.servers[i].mode != first {
                proof {
                    assert(service_servers(self)[i as int].mode != first);
                }
                return false;
            }
            i = i + 1;
        }
        true
    }

    /// Checks the startup invariants, each failure naming its cause: an
    /// empty registry, mixed execution modes, or the first configured kind
    /// with no registered workload. On success, and only then, the
    /// supervisor may enter the run phase.
    pub fn validate_definitions(&self) -> (r: Result<(), Error>)
        ensures
            r is Ok <==> valid_definitions(service_servers(self), self.context.definitions.types@),
            r matches Err(e) ==> match e@ {
                ErrorView::EmptyServiceFound => service_servers(self).len() == 0,
                ErrorView::UnsupportedServicesCombination => service_servers(self).len() > 0
                    && !modes_equal(service_servers(self)),
                ErrorView::ServiceKindUninitialized(k) => service_servers(self).len() > 0
                    && modes_equal(service_servers(self)) && exists|t: int|
                    0 <= t < self.context.definitions.types@.len() && (
                    #[trigger] self.context.definitions.types@[t]).0@ == k && !registered(
                        service_servers(self),
                        kind_name(k),
                    ) && (forall|m: int|
                        0 <= m < t ==> registered(
                            service_servers(self),
                            kind_name((#[trigger] self.context.definitions.types@[m]).0@),
                        )),
                _ => false,
            },
    {
        if self.servers.len() == 0 {
            return Err(Error::EmptyServiceFound);
        }
        if !self.has_equal_execution_modes() {
            return Err(Error::UnsupportedServicesCombination);
        }
        let n = self.context.definitions.types.len();
        let mut t: usize = 0;
        while t < n
            invariant
                t <= n,
                n == self.context.definitions.types@.len(),
                service_servers(self).len() > 0,
                modes_equal(service_servers(self)),
                forall|m: int|
                    0 <= m < t ==> registered(
                        service_servers(self),
                        kind_name((#[trigger] self.context.definitions.types@[m]).0@),
                    ),
            decreases n - t,
        {
            let kind = &self.context.definitions.types[t].0;
            if !self.is_registered(kind) {
                return Err(Error::ServiceKindUninitialized(kind.clone()));
            }
            t = t + 1;
        }
        Ok(())
    }

    /// The registered workload owning the kind's name: the handle of the
    /// first match, or the not-found error when the kind has no workload.
    pub fn get_server(&self, kind: &ServiceKind) -> (r: Result<usize, Error>)
        ensures
            match r {
                Ok(i) => 0 <= i < service_servers(self).len() && kind_name(
                    service_servers(self)[i as int].kind,
                ) == kind_name(kind@) && forall|j: int|
                    0 <= j < i ==> kind_name((#[trigger] service_servers(self)[j]).kind)
                        != kind_name(kind@),
                Err(e) => !registered(service_servers(self), kind_name(kind@)) && e@
                    == ErrorView::NotFound(kind_name(kind@)),
            },
    {
        let name = kind.to_str();
        let n = self.servers.len();
        let mut i: usize = 0;
        while i < n
            invariant
                i <= n,
                n == service_servers(self).len(),
                name@ == kind_name(kind@),
                forall|j: int|
                    0 <= j < i ==> kind_name((#[trigger] service_servers(self)[j]).kind) != name@,
            decreases n - i,
        {
            if crate::text::str_eq(self.servers[i].kind.to_str().as_str(), name.as_str()) {
                proof {
                    assert(kind_name(service_servers(self)[i as int].kind) == name@);
                }
                return Ok(i);
            }
            i = i + 1;
        }
        Err(Error::NotFound(name))
    }

    /// True when some registered workload owns the kind's name.
    fn is_registered(&self, kind: &ServiceKind) -> (r: bool)
        ensures
            r == registered(service_servers(self), kind_name(kind@)),
    {
        let name = kind.to_str();
        let n = self.servers.len();
        let mut i: usize = 0;
        while i < n
            invariant
                i <= n,
                n == service_servers(self).len(),
                name@ == kind_name(kind@),
                forall|j: int|
                    0 <= j < i ==> kind_name((#[trigger] service_servers(self)[j]).kind) != name@,
            decreases n - i,
        {
            if crate::text::str_eq(self.servers[i].kind.to_str().as_str(), name.as_str()) {
                proof {
                    assert(kind_name(service_servers(self)[i as int].kind) == name@);
                }
                return true;
            }
            i = i + 1;
        }
        false
    }

    /// Opens the run phase: succeeds exactly when the startup invariants
    /// hold, and only a successful validation yields a run state — a
    /// configuration naming an unregistered kind can never reach the run
    /// phase.
    pub fn begin_run(&self) -> (r: Result<RunState, Error>)
        ensures
            r is Ok <==> valid_definitions(service_servers(self), self.context.definitions.types@),
            r matches Ok(st) ==> st@ == (RunStateView {
                mode: service_servers(self)[0].mode,
                failure: None,
                shutdown: false,
            }),
    {
        match self.validate_definitions() {
            Ok(()) => Ok(
                RunState { mode: self.servers[0].mode, failure: None, shutdown: false },
            ),
            Err(e) => Err(e),
        }
    }
}

/// Mathematical model of the run phase's coordinator state.
pub struct RunStateView {
    pub mode: ServiceExecutionMode,
    pub failure: Option<ServiceErrorView>,
    pub shutdown: bool,
}

/// What the supervisor observes while the workload tasks run.
pub enum RunEvent {
    /// A task's run returned an error.
    TaskFailed(ServiceError),
    /// A task's run returned successfully.
    TaskCompleted,
    /// The external interrupt arrived.
    Interrupted,
}

/// Mathematical model of a run-phase event.
pub enum RunEventView {
    TaskFailed(ServiceErrorView),
    TaskCompleted,
    Interrupted,
}

impl View for RunEvent {
    type V = RunEventView;

    open spec fn view(&self) -> RunEventView {
        match self {
            RunEvent::TaskFailed(e) => RunEventView::TaskFailed(e@),
            RunEvent::TaskCompleted => RunEventView::TaskCompleted,
            RunEvent::Interrupted => RunEventView::Interrupted,
        }
    }
}

/// What the supervisor does next after an event.
#[derive(PartialEq, Eq, Structural, Clone, Copy, Debug)]
pub enum RunAction {
    KeepWaiting,
    BeginShutdown,
}

/// The run coordinator's transition relation. The first failure is
/// recorded and triggers the shutdown sequence; later failures are
/// dropped. A completed task never finishes the run: in blocking mode the
/// finishing condition is the external interrupt alone, and in
/// non-blocking mode it is immediate once the tasks are spawned, so no
/// completion event drives it either.
pub open spec fn next_run(st: RunStateView, ev: RunEventView) -> (RunStateView, RunAction) {
    match ev {
        RunEventView::TaskFailed(e) => if st.failure is Some {
            (st, RunAction::KeepWaiting)
        } else {
            (
                RunStateView { failure: Some(e), shutdown: true, ..st },
                RunAction::BeginShutdown,
            )
        },
        RunEventView::TaskCompleted => (st, RunAction::KeepWaiting),
        RunEventView::Interrupted => (
            RunStateView { shutdown: true, ..st },
            RunAction::BeginShutdown,
        ),
    }
}

/// The run phase's coordinator: one per run, fed every observed event.
/// Only a successful validation yields one, so no run phase ever opens
/// over an invalid configuration.
pub struct RunState {
    mode: ServiceExecutionMode,
    failure: Option<ServiceError>,
    shutdown: bool,
}

impl View for RunState {
    type V = RunStateView;

    closed spec fn view(&self) -> RunStateView {
        RunStateView {
            mode: self.mode,
            failure: match self.failure {
                Some(ref e) => Some(e@),
                None => None,
            },
            shutdown: self.shutdown,
        }
    }
}

impl RunState {
    /// Feeds one observed event to the coordinator and decides what the
    /// supervisor does next, by the transition relation: the first failure
    /// wins and begins the shutdown; a completion is only noted; the
    /// interrupt begins the shutdown.
    pub fn on_event(&mut self, ev: RunEvent) -> (r: RunAction)
        ensures
            (final(self)@, r) == next_run(old(self)@, ev@),
    {
        match ev {
            RunEvent::TaskFailed(e) => {
                if self.failure.is_some() {
                    RunAction::KeepWaiting
                } else {
                    self.failure = Some(e);
                    self.shutdown = true;
                    RunAction::BeginShutdown
                }
            },
            RunEvent::TaskCompleted => RunAction::KeepWaiting,
            RunEvent::Interrupted => {
                self.shutdown = true;
                RunAction::BeginShutdown
            },
        }
    }

    /// Whether the supervisor must await an external interrupt before
    /// finishing: only in blocking mode; in non-blocking mode the
    /// finishing condition is immediate once all one-shot tasks are
    /// spawned.
    pub fn must_await_interrupt(&self) -> (r: bool)
        ensures
            r == (self@.mode is Block),
    {
        match self.mode {
            ServiceExecutionMode::Block => true,
            ServiceExecutionMode::NonBlock => false,
        }
    }

    /// The run's overall result: success unless a task failure was
    /// recorded, in which case that first failure is the final result.
    pub fn overall_result(self) -> (r: Result<(), ServiceError>)
        ensures
            match r {
                Ok(()) => self@.failure is None,
                Err(e) => self@.failure == Some(e@),
            },
    {
        match self.failure {
            None => Ok(()),
            Some(e) => Err(e),
        }
    }
}

/// First-error-wins: when two task failures arrive in order, the first is
/// recorded, begins the shutdown, and stays the overall result; the
/// second is dropped.
pub proof fn lemma_first_error_wins(st: RunStateView, e1: ServiceErrorView, e2: ServiceErrorView)
    requires
        st.failure is None,
    ensures
        ({
            let (st1, a1) = next_run(st, RunEventView::TaskFailed(e1));
            let (st2, a2) = next_run(st1, RunEventView::TaskFailed(e2));
            &&& a1 == RunAction::BeginShutdown
            &&& st1.failure == Some(e1)
            &&& a2 == RunAction::KeepWaiting
            &&& st2 == st1
            &&& st2.failure == Some(e1)
        }),
{
}

/// A completed task never finishes the run: however many completions
/// arrive, the coordinator keeps waiting and its state is unchanged, in
/// either mode.
pub proof fn lemma_completion_never_finishes(st: RunStateView)
    ensures
        next_run(st, RunEventView::TaskCompleted) == (st, RunAction::KeepWaiting),
{
}

/// One step of the workload startup sequence, as handed to the embedding
/// application to perform.
#[derive(PartialEq, Eq, Structural, Clone, Copy, Debug)]
pub enum StartupStep {
    /// Call initialize on the workload at this position, in configuration
    /// order.
    InitWorkload(usize),
    /// Call the start hook of the workload at this position.
    StartWorkload(usize),
}

/// The whole startup sequence for `w` workloads: each one is initialized
/// and then started, in configuration order, before the next is touched.
pub open spec fn startup_schedule(w: nat) -> Seq<StartupStep> {
    Seq::new(
        2 * w,
        |k: int|
            if k % 2 == 0 {
                StartupStep::InitWorkload((k / 2) as usize)
            } else {
                StartupStep::StartWorkload((k / 2) as usize)
            },
    )
}

/// Drives the startup sequence step by step: each call to `next` hands
/// the application exactly the next step of the schedule, and the first
/// reported failure halts the startup for good — no later workload is
/// initialized or started, as the fail-fast rule asks.
pub struct StartupDriver {
    workloads: usize,
    idx: usize,
    pending_start: bool,
    failed: bool,
}

impl StartupDriver {
    /// The driver's well-formedness: the position stays inside the
    /// schedule.
    pub closed spec fn wf(&self) -> bool {
        self.idx <= self.workloads && (self.pending_start ==> self.idx < self.workloads)
    }

    /// How many steps of the schedule were already emitted.
    pub closed spec fn steps_taken(&self) -> int {
        2 * (self.idx as int) + if self.pending_start {
            1int
        } else {
            0int
        }
    }

    /// How many workloads the driver was created for.
    pub closed spec fn workload_count(&self) -> usize {
        self.workloads
    }

    /// True once a failure was reported: the startup is over.
    pub closed spec fn halted(&self) -> bool {
        self.failed
    }

    /// A fresh driver for `workloads` workloads, with no step emitted yet.
    pub fn new(workloads: usize) -> (r: Self)
        ensures
            r.wf(),
            r.workload_count() == workloads,
            r.steps_taken() == 0,
            !r.halted(),
    {
        StartupDriver { workloads, idx: 0, pending_start: false, failed: false }
    }

    /// Emits the next step of the schedule, or nothing once the sequence
    /// is over or a failure was reported. `prev_failed` says whether the
    /// previously emitted step failed: the first failure aborts the
    /// startup, and nothing restarts it.
    pub fn next(&mut self, prev_failed: bool) -> (r: Option<StartupStep>)
        requires
            old(self).wf(),
        ensures
            final(self).wf(),
            final(self).workload_count() == old(self).workload_count(),
            prev_failed ==> r is None && final(self).halted() && final(self).steps_taken() == old(
                self,
            ).steps_taken(),
            !prev_failed && old(self).halted() ==> r is None && *final(self) == *old(self),
            !prev_failed && !old(self).halted() ==> !final(self).halted() && (if old(
                self,
            ).steps_taken() < 2 * (old(self).workload_count() as int) {
                r == Some(
                    startup_schedule(old(self).workload_count() as nat)[old(self).steps_taken()],
                ) && final(self).steps_taken() == old(self).steps_taken() + 1
            } else {
                r is None && *final(self) == *old(self)
            }),
    {
        if prev_failed {
            self.failed = true;
            return None;
        }
        if self.failed {
            return None;
        }
        let w = self.workloads;
        if self.pending_start {
            let s = StartupStep::StartWorkload(self.idx);
            self.pending_start = false;
            self.idx = self.idx + 1;
            proof {
                let k = old(self).steps_taken();
                assert(k % 2 == 1 && k / 2 == old(self).idx as int);
                assert(startup_schedule(w as nat)[k] == s);
            }
            Some(s)
        } else if self.idx < w {
            let s = StartupStep::InitWorkload(self.idx);
            self.pending_start = true;
            proof {
                let k = old(self).steps_taken();
                assert(k % 2 == 0 && k / 2 == old(self).idx as int);
                assert(startup_schedule(w as nat)[k] == s);
            }
            Some(s)
        } else {
            None
        }
    }
}

/// Each workload's initialize stands at exactly one position of the
/// startup schedule, as does its start hook, and the initialize comes
/// first: the startup sequence touches every workload exactly once, in
/// configuration order.
pub proof fn lemma_startup_exactly_once(w: nat, i: nat)
    requires
        i < w,
        w <= usize::MAX,
    ensures
        forall|k: int|
            0 <= k < 2 * w ==> ((#[trigger] startup_schedule(w)[k])
                == StartupStep::InitWorkload(i as usize) <==> k == 2 * i),
        forall|k: int|
            0 <= k < 2 * w ==> ((#[trigger] startup_schedule(w)[k])
                == StartupStep::StartWorkload(i as usize) <==> k == 2 * i + 1),
{
    assert forall|k: int| 0 <= k < 2 * w implies ((#[trigger] startup_schedule(w)[k])
        == StartupStep::InitWorkload(i as usize) <==> k == 2 * i) && (startup_schedule(w)[k]
        == StartupStep::StartWorkload(i as usize) <==> k == 2 * i + 1) by {
        vstd::arithmetic::div_mod::lemma_fundamental_div_mod(k, 2);
        assert(0 <= k / 2 < w);
        if k % 2 == 0 {
            assert(startup_schedule(w)[k] == StartupStep::InitWorkload((k / 2) as usize));
        } else {
            assert(startup_schedule(w)[k] == StartupStep::StartWorkload((k / 2) as usize));
        }
    }
}

/// One step of the common shutdown sequence, as handed to the embedding
/// application to perform.
#[derive(PartialEq, Eq, Structural, Clone, Copy, Debug)]
pub enum ShutdownStep {
    /// Call stop on the workload at this position, in configuration order.
    Stop(usize),
    /// Broadcast the shutdown notification, once.
    Broadcast,
    /// Join the spawned task at this position.
    Join(usize),
    /// Call the finish hook of the workload at this position.
    Finish(usize),
    /// Call cleanup on the enabled feature at this position.
    Cleanup(usize),
}

/// The whole shutdown sequence for `w` workloads and `f` enabled features:
/// stop every workload in configuration order, broadcast once, join every
/// task, finish every workload, then clean up every enabled feature.
pub open spec fn shutdown_schedule(w: nat, f: nat) -> Seq<ShutdownStep> {
    Seq::new(w, |i: int| ShutdownStep::Stop(i as usize)) + seq![ShutdownStep::Broadcast]
        + Seq::new(w, |i: int| ShutdownStep::Join(i as usize)) + Seq::new(
        w,
        |i: int| ShutdownStep::Finish(i as usize),
    ) + Seq::new(f, |i: int| ShutdownStep::Cleanup(i as usize))
}

/// How many steps the whole sequence has.
pub open spec fn shutdown_total(w: nat, f: nat) -> int {
    3 * (w as int) + (f as int) + 1
}

/// The phases of the shutdown sequence, in order.
#[derive(PartialEq, Eq, Structural, Clone, Copy, Debug)]
pub enum ShutdownPhase {
    Stopping,
    Broadcasting,
    Joining,
    Finishing,
    Cleaning,
    Finished,
}

/// Drives the shutdown sequence step by step: each call to `next` hands
/// the application exactly the next step of the schedule, so every stop,
/// join, finish and cleanup is emitted exactly once and in order.
pub struct ShutdownDriver {
    workloads: usize,
    enabled_features: usize,
    phase: ShutdownPhase,
    idx: usize,
}

impl ShutdownDriver {
    /// The driver's well-formedness: the index stays inside its phase.
    pub closed spec fn wf(&self) -> bool {
        match self.phase {
            ShutdownPhase::Stopping => self.idx < self.workloads,
            ShutdownPhase::Broadcasting => self.idx == 0,
            ShutdownPhase::Joining => self.idx < self.workloads,
            ShutdownPhase::Finishing => self.idx < self.workloads,
            ShutdownPhase::Cleaning => self.idx < self.enabled_features,
            ShutdownPhase::Finished => self.idx == 0,
        }
    }

    /// How many steps of the schedule were already emitted.
    pub closed spec fn steps_taken(&self) -> int {
        let w = self.workloads as int;
        let f = self.enabled_features as int;
        match self.phase {
            ShutdownPhase::Stopping => self.idx as int,
            ShutdownPhase::Broadcasting => w,
            ShutdownPhase::Joining => w + 1 + self.idx as int,
            ShutdownPhase::Finishing => 2 * w + 1 + self.idx as int,
            ShutdownPhase::Cleaning => 3 * w + 1 + self.idx as int,
            ShutdownPhase::Finished => 3 * w + 1 + f,
        }
    }

    /// A fresh driver for `workloads` workloads and `enabled_features`
    /// enabled features, with no step emitted yet.
    pub fn new(workloads: usize, enabled_features: usize) -> (r: Self)
        ensures
            r.wf(),
            r.workload_count() == workloads,
            r.feature_count() == enabled_features,
            r.steps_taken() == 0,
    {
        ShutdownDriver {
            workloads,
            enabled_features,
            phase: if workloads > 0 {
                ShutdownPhase::Stopping
            } else {
                ShutdownPhase::Broadcasting
            },
            idx: 0,
        }
    }

    /// How many workloads the driver was created for.
    pub closed spec fn workload_count(&self) -> usize {
        self.workloads
    }

    /// How many enabled features the driver was created for.
    pub closed spec fn feature_count(&self) -> usize {
        self.enabled_features
    }

    /// Emits the next step of the schedule, or nothing once the sequence
    /// is over.
    pub fn next(&mut self) -> (r: Option<ShutdownStep>)
        requires
            old(self).wf(),
        ensures
            final(self).wf(),
            final(self).workload_count() == old(self).workload_count(),
            final(self).feature_count() == old(self).feature_count(),
            ({
                let w = old(self).workload_count() as nat;
                let f = old(self).feature_count() as nat;
                if old(self).steps_taken() < shutdown_total(w, f) {
                    r == Some(shutdown_schedule(w, f)[old(self).steps_taken()]) && final(
                        self).steps_taken() == old(self).steps_taken() + 1
                } else {
                    r is None && *final(self) == *old(self)
                }
            }),
    {
        let w = self.workloads;
        let f = self.enabled_features;
        match self.phase {
            ShutdownPhase::Stopping => {
                let s = ShutdownStep::Stop(self.idx);
                self.idx = self.idx + 1;
                if self.idx == w {
                    self.phase = ShutdownPhase::Broadcasting;
                    self.idx = 0;
                }
                Some(s)
            },
            ShutdownPhase::Broadcasting => {
                if w > 0 {
                    self.phase = ShutdownPhase::Joining;
                } else if f > 0 {
                    self.phase = ShutdownPhase::Cleaning;
                } else {
                    self.phase = ShutdownPhase::Finished;
                }
                self.idx = 0;
                Some(ShutdownStep::Broadcast)
            },
            ShutdownPhase::Joining => {
                let s = ShutdownStep::Join(self.idx);
                self.idx = self.idx + 1;
                if self.idx == w {
                    self.phase = ShutdownPhase::Finishing;
                    self.idx = 0;
                }
                Some(s)
            },
            ShutdownPhase::Finishing => {
                let s = ShutdownStep::Finish(self.idx);
                self.idx = self.idx + 1;
                if self.idx == w {
                    if f > 0 {
                        self.phase = ShutdownPhase::Cleaning;
                    } else {
                        self.phase = ShutdownPhase::Finished;
                    }
                    self.idx = 0;
                }
                Some(s)
            },
            ShutdownPhase::Cleaning => {
                let s = ShutdownStep::Cleanup(self.idx);
                self.idx = self.idx + 1;
                if self.idx == f {
                    self.phase = ShutdownPhase::Finished;
                    self.idx = 0;
                }
                Some(s)
            },
            ShutdownPhase::Finished => None,
        }
    }
}

/// Each workload's stop call stands at exactly one position of the
/// schedule, as does its finish call: the shutdown sequence invokes both
/// exactly once per workload.
pub proof fn lemma_shutdown_exactly_once(w: nat, f: nat, i: nat)
    requires
        i < w,
        w <= usize::MAX,
        f <= usize::MAX,
    ensures
        forall|k: int|
            0 <= k < shutdown_total(w, f) ==> ((#[trigger] shutdown_schedule(w, f)[k])
                == ShutdownStep::Stop(i as usize) <==> k == i),
        forall|k: int|
            0 <= k < shutdown_total(w, f) ==> ((#[trigger] shutdown_schedule(w, f)[k])
                == ShutdownStep::Finish(i as usize) <==> k == 2 * w + 1 + i),
        forall|k: int|
            0 <= k < shutdown_total(w, f) ==> ((#[trigger] shutdown_schedule(w, f)[k])
                == ShutdownStep::Broadcast <==> k == w),
{
    assert forall|k: int| 0 <= k < shutdown_total(w, f) implies ((#[trigger] shutdown_schedule(
        w,
        f,
    )[k]) == ShutdownStep::Stop(i as usize) <==> k == i) && (shutdown_schedule(w, f)[k]
        == ShutdownStep::Finish(i as usize) <==> k == 2 * w + 1 + i) && (shutdown_schedule(w, f)[k]
        == ShutdownStep::Broadcast <==> k == w) by {
        let sched = shutdown_schedule(w, f);
        if k < w {
            assert(sched[k] == ShutdownStep::Stop(k as usize));
        } else if k == w {
            assert(sched[k] == ShutdownStep::Broadcast);
        } else if k < 2 * w + 1 {
            assert(sched[k] == ShutdownStep::Join((k - w - 1) as usize));
        } else if k < 3 * w + 1 {
            assert(sched[k] == ShutdownStep::Finish((k - 2 * w - 1) as usize));
        } else {
            assert(sched[k] == ShutdownStep::Cleanup((k - 3 * w - 1) as usize));
        }
    }
}

} // verus!
