//! The controller of one service: when its child is started, stopped and
//! started again.
//!
//! The controller performs no system call. It is told what happened (the
//! child started, the child ended, a shutdown was asked for, a timer ran out)
//! and answers with what to do next. Whoever drives it spawns, waits, signals
//! and sleeps as it says.

use crate::error::Error;
use crate::process_manager::service::Service;
use crate::process_manager::settings::{Restart, RestartDecision, Settings};
use crate::subreaper::{ChildGuard, Subreaper};
use vstd::prelude::*;
use vstd::string::StringExecFns;

pub mod config_dir;
pub mod logger;

pub use crate::path::joined;
pub use config_dir::{
    directory_name, lemma_same_payload_same_name, links_of, step_failure, ConfigDir, PlanAction,
    PlanCursor, StepOutcome,
};
pub use logger::Logger;

verus! {

/// Where a service stands in its life.
#[derive(Debug, Clone, Copy, PartialEq, Eq, Structural)]
pub enum ServicePhase {
    /// Nothing has been asked for yet.
    Created,
    /// A child was asked for and has not started yet.
    Spawning,
    /// A child runs; its end or a shutdown is awaited.
    Running,
    /// The child was asked to terminate and has until the deadline.
    Stopping,
    /// The child was killed; its end is awaited without a deadline.
    Killing,
    /// No child runs; the restart delay is awaited.
    Delaying,
    /// The service is over.
    Finished,
}

/// The part of a controller that changes: its phase and the restarts used.
#[derive(Debug, Clone, Copy, PartialEq, Eq, Structural)]
pub struct ServiceState {
    /// Where the service stands.
    pub phase: ServicePhase,
    /// The number of restarts used so far under `RestartMode::UpToCount`.
    pub restarts: usize,
}

/// What a controller is told.
#[derive(Debug, Clone, PartialEq, Eq)]
pub enum ServiceEvent {
    /// The service is to begin.
    Start,
    /// The child that was asked for has started, with this process id if the
    /// system gave one.
    Spawned(Option<u32>),
    /// The child that was asked for could not be started; the text is the
    /// system's message.
    SpawnFailed(String),
    /// The child ended and was reaped, with this exit code, or with none if a
    /// signal ended it.
    Exited(Option<i32>),
    /// Waiting on the child failed; the text is the system's message.
    WaitFailed(String),
    /// A shutdown was asked for.
    Cancelled,
    /// The time granted to a child that was asked to terminate ran out.
    DeadlineElapsed,
    /// The restart delay ran out.
    DelayElapsed,
}

/// What a controller answers.
#[derive(Debug, PartialEq, Eq)]
pub enum ServiceAction {
    /// Start the child that `create_service_child` describes, and attach a
    /// log drain to each of its two streams.
    Spawn,
    /// Wait until the child ends or a shutdown is asked for.
    AwaitChild,
    /// Send the child the terminate signal, and wait for its end for at most
    /// this many milliseconds.
    Terminate { deadline_ms: u64 },
    /// Send the child the kill signal, and wait for its end.
    Kill,
    /// Join the log drains, then wait this many milliseconds unless a
    /// shutdown is asked for first.
    Sleep { ms: u64 },
    /// Join the log drains; the service is over with this result.
    Finish(Result<(), Error>),
    /// The event does not apply where the service stands: nothing changes.
    Ignore,
}

impl ServicePhase {
    /// A child of the service is alive in this phase.
    pub open spec fn has_child(self) -> bool {
        self is Running || self is Stopping || self is Killing
    }

    /// A child is asked for or alive in this phase.
    pub open spec fn in_child_cycle(self) -> bool {
        self is Spawning || self.has_child()
    }

    /// A shutdown is under way or done: no child will be started any more.
    pub open spec fn winding_down(self) -> bool {
        self is Stopping || self is Killing || self is Finished
    }
}

/// Whether a child that ended did so with success: with the exit code zero.
pub open spec fn exit_is_success(code: Option<i32>) -> bool {
    code == Some(0i32)
}

/// What follows the end of a running child: success ends the service; after
/// a failure the restart policy decides.
pub open spec fn after_exit(state: ServiceState, restart: Restart, code: Option<i32>) -> (
    ServiceState,
    ServiceAction,
) {
    if exit_is_success(code) {
        (
            ServiceState { phase: ServicePhase::Finished, restarts: state.restarts },
            ServiceAction::Finish(Ok(())),
        )
    } else {
        match restart.spec_evaluate(state.restarts) {
            RestartDecision::GiveUp => (
                ServiceState { phase: ServicePhase::Finished, restarts: state.restarts },
                ServiceAction::Finish(Ok(())),
            ),
            RestartDecision::Again(used) => (
                ServiceState { phase: ServicePhase::Delaying, restarts: used },
                ServiceAction::Sleep { ms: restart.time },
            ),
        }
    }
}

/// The service is over, with this result.
pub open spec fn finished_with(state: ServiceState, result: Result<(), Error>) -> (
    ServiceState,
    ServiceAction,
) {
    (
        ServiceState { phase: ServicePhase::Finished, restarts: state.restarts },
        ServiceAction::Finish(result),
    )
}

/// The rule of the controller: the state and the answer that follow a state
/// and an event. `ready` says whether the configuration directory is in
/// place; without it a service does not begin.
pub open spec fn transition(
    state: ServiceState,
    restart: Restart,
    name: String,
    ready: bool,
    event: ServiceEvent,
) -> (ServiceState, ServiceAction) {
    match (state.phase, event) {
        (ServicePhase::Created, ServiceEvent::Start) => if ready {
            (
                ServiceState { phase: ServicePhase::Spawning, restarts: state.restarts },
                ServiceAction::Spawn,
            )
        } else {
            (state, ServiceAction::Ignore)
        },
        (ServicePhase::Spawning, ServiceEvent::Spawned(_)) => (
            ServiceState { phase: ServicePhase::Running, restarts: state.restarts },
            ServiceAction::AwaitChild,
        ),
        (ServicePhase::Spawning, ServiceEvent::SpawnFailed(message)) => finished_with(
            state,
            Err(Error::SpawnFailed(name, message)),
        ),
        (ServicePhase::Running, ServiceEvent::Exited(code)) => after_exit(state, restart, code),
        (ServicePhase::Running, ServiceEvent::Cancelled) => (
            ServiceState { phase: ServicePhase::Stopping, restarts: state.restarts },
            ServiceAction::Terminate { deadline_ms: restart.time },
        ),
        (ServicePhase::Running, ServiceEvent::WaitFailed(message)) => finished_with(
            state,
            Err(Error::WaitFailed(name, message)),
        ),
        (ServicePhase::Stopping, ServiceEvent::Exited(_)) => finished_with(state, Ok(())),
        (ServicePhase::Stopping, ServiceEvent::DeadlineElapsed) => (
            ServiceState { phase: ServicePhase::Killing, restarts: state.restarts },
            ServiceAction::Kill,
        ),
        (ServicePhase::Stopping, ServiceEvent::WaitFailed(message)) => finished_with(
            state,
            Err(Error::WaitFailed(name, message)),
        ),
        (ServicePhase::Killing, ServiceEvent::Exited(_)) => finished_with(state, Ok(())),
        (ServicePhase::Killing, ServiceEvent::WaitFailed(message)) => finished_with(
            state,
            Err(Error::WaitFailed(name, message)),
        ),
        (ServicePhase::Delaying, ServiceEvent::DelayElapsed) => (
            ServiceState { phase: ServicePhase::Spawning, restarts: state.restarts },
            ServiceAction::Spawn,
        ),
        (ServicePhase::Delaying, ServiceEvent::Cancelled) => finished_with(state, Ok(())),
        _ => (state, ServiceAction::Ignore),
    }
}

/// The child that the registry of managed children holds for a controller
/// after an event: a child that has just started is held from then on, under
/// the system's signed process id, and is held while it is alive; a service
/// without a live child holds none.
pub open spec fn held_after(
    state: ServiceState,
    restart: Restart,
    name: String,
    ready: bool,
    held: Option<i32>,
    event: ServiceEvent,
) -> Option<i32> {
    let next = transition(state, restart, name, ready, event).0;
    if !next.phase.has_child() {
        None
    } else if state.phase is Spawning {
        match event {
            ServiceEvent::Spawned(Some(pid)) => Some(pid as i32),
            _ => None,
        }
    } else {
        held
    }
}

/// A set of process ids without the child of one controller, if it has
/// one.
pub open spec fn without_child(registry: Set<i32>, child: Option<i32>) -> Set<i32> {
    match child {
        Some(pid) => registry.remove(pid),
        None => registry,
    }
}

/// A set of process ids with the child of one controller, if it has one.
pub open spec fn with_child(others: Set<i32>, child: Option<i32>) -> Set<i32> {
    match child {
        Some(pid) => others.insert(pid),
        None => others,
    }
}

/// The registry of managed children after a controller's step: a child that
/// has just started is put in, a child whose life has ended is taken out, and
/// while a child lives on nothing changes.
pub open spec fn registry_after(
    state: ServiceState,
    restart: Restart,
    name: String,
    ready: bool,
    held: Option<i32>,
    registry: Set<i32>,
    event: ServiceEvent,
) -> Set<i32> {
    let next = transition(state, restart, name, ready, event).0;
    if !next.phase.has_child() {
        without_child(registry, held)
    } else if state.phase is Spawning {
        with_child(
            without_child(registry, held),
            held_after(state, restart, name, ready, held, event),
        )
    } else {
        registry
    }
}

/// The registry holds a controller's child exactly while the child is
/// alive. If the registry holds the children of the other controllers and
/// this controller's child, it does so after every step: from the event that
/// reports the child's start to the event that ends its life the child's
/// process id is in the registry, and once the child is gone the registry
/// holds the others' children again and nothing more. A process id names one
/// live process at a time, so a child that is held is not among the others.
pub proof fn lemma_registry_holds_live_child(
    state: ServiceState,
    restart: Restart,
    name: String,
    ready: bool,
    held: Option<i32>,
    others: Set<i32>,
    event: ServiceEvent,
)
    requires
        held is Some ==> state.phase.has_child(),
        held matches Some(pid) ==> !others.contains(pid),
    ensures
        ({
            let next = transition(state, restart, name, ready, event).0;
            let then = held_after(state, restart, name, ready, held, event);
            let registry = registry_after(
                state,
                restart,
                name,
                ready,
                held,
                with_child(others, held),
                event,
            );
            &&& registry == with_child(others, then)
            &&& then is Some ==> next.phase.has_child()
            &&& then matches Some(pid) ==> registry.contains(pid)
            &&& state.phase is Spawning ==> (event matches ServiceEvent::Spawned(Some(pid))
                ==> then == Some(pid as i32))
            &&& state.phase.has_child() && next.phase.has_child() ==> then == held
            &&& !next.phase.has_child() ==> registry == others
        }),
{
    let then = held_after(state, restart, name, ready, held, event);
    let registry = registry_after(
        state,
        restart,
        name,
        ready,
        held,
        with_child(others, held),
        event,
    );
    assert(registry =~= with_child(others, then));
}

/// A run of a controller as far as the laws below speak of it: where it
/// stands, how many children it asked for, and how many of its children were
/// reaped.
pub struct ServiceTrace {
    /// Where the controller stands.
    pub state: ServiceState,
    /// The number of `Spawn` answers given.
    pub spawned: nat,
    /// The number of children whose end was reported while they were alive.
    pub reaped: nat,
}

/// The run before any event.
pub open spec fn trace_start() -> ServiceTrace {
    ServiceTrace {
        state: ServiceState { phase: ServicePhase::Created, restarts: 0 },
        spawned: 0,
        reaped: 0,
    }
}

/// The run after one more event.
pub open spec fn trace_step(
    trace: ServiceTrace,
    restart: Restart,
    name: String,
    ready: bool,
    event: ServiceEvent,
) -> ServiceTrace {
    let (state, action) = transition(trace.state, restart, name, ready, event);
    ServiceTrace {
        state,
        spawned: if action is Spawn {
            trace.spawned + 1
        } else {
            trace.spawned
        },
        reaped: if trace.state.phase.has_child() && event is Exited {
            trace.reaped + 1
        } else {
            trace.reaped
        },
    }
}

/// The run after a sequence of events, from the beginning.
pub open spec fn trace_after(
    restart: Restart,
    name: String,
    ready: bool,
    events: Seq<ServiceEvent>,
) -> ServiceTrace
    decreases events.len(),
{
    if events.len() == 0 {
        trace_start()
    } else {
        trace_step(
            trace_after(restart, name, ready, events.drop_last()),
            restart,
            name,
            ready,
            events.last(),
        )
    }
}

/// What holds of every run: the children asked for and the children reaped
/// stay in step with the phase, and the restart policy bounds both.
pub open spec fn trace_invariant(trace: ServiceTrace, restart: Restart) -> bool {
    let phase = trace.state.phase;
    let restarts = trace.state.restarts;
    &&& phase is Created ==> trace.spawned == 0 && trace.reaped == 0 && restarts == 0
    &&& phase is Spawning || phase.has_child() ==> trace.spawned == trace.reaped + 1
    &&& phase is Delaying ==> trace.spawned == trace.reaped
    &&& phase is Finished ==> trace.reaped <= trace.spawned <= trace.reaped + 1
    &&& restart.mode is Never ==> {
        &&& !(phase is Delaying)
        &&& !(phase is Created) ==> trace.spawned == 1
    }
    &&& restart.mode is UpToCount ==> {
        &&& restarts <= restart.count
        &&& phase is Spawning || phase.has_child() ==> trace.spawned == restarts + 1
        &&& phase is Delaying ==> trace.spawned == restarts
        &&& phase is Finished ==> trace.spawned <= restarts + 1
    }
}

/// The invariant holds of every run.
pub proof fn lemma_trace_invariant(
    restart: Restart,
    name: String,
    ready: bool,
    events: Seq<ServiceEvent>,
)
    ensures
        trace_invariant(trace_after(restart, name, ready, events), restart),
    decreases events.len(),
{
    if events.len() > 0 {
        lemma_trace_invariant(restart, name, ready, events.drop_last());
    }
}

/// A child is reaped before the next is started: whenever a controller
/// answers `Spawn`, every child it asked for before has been reaped.
pub proof fn lemma_reaped_before_respawn(
    restart: Restart,
    name: String,
    ready: bool,
    events: Seq<ServiceEvent>,
    event: ServiceEvent,
)
    ensures
        ({
            let before = trace_after(restart, name, ready, events);
            transition(before.state, restart, name, ready, event).1 is Spawn ==> before.spawned
                == before.reaped && !before.state.phase.has_child()
        }),
{
    lemma_trace_invariant(restart, name, ready, events);
}

/// The restart policy bounds the children of a service: under `never` a
/// service that has begun asked for exactly one child, and under
/// `up-to-count` a service never asks for more than `count + 1`.
pub proof fn lemma_spawns_bounded(
    restart: Restart,
    name: String,
    ready: bool,
    events: Seq<ServiceEvent>,
)
    ensures
        ({
            let trace = trace_after(restart, name, ready, events);
            &&& restart.mode is Never ==> trace.spawned <= 1
            &&& restart.mode is Never && !(trace.state.phase is Created) ==> trace.spawned == 1
            &&& restart.mode is UpToCount ==> trace.spawned <= restart.count + 1
        }),
{
    lemma_trace_invariant(restart, name, ready, events);
}

/// A shutdown reaches every live child within the restart time: a running
/// child is asked to terminate with that time as its deadline, and when the
/// deadline runs out it is killed; the child's end, whenever it is seen,
/// ends the service with success.
pub proof fn lemma_shutdown_terminates_then_kills(
    state: ServiceState,
    restart: Restart,
    name: String,
    ready: bool,
    code: Option<i32>,
)
    ensures
        state.phase is Running ==> transition(
            state,
            restart,
            name,
            ready,
            ServiceEvent::Cancelled,
        ) == (
            ServiceState { phase: ServicePhase::Stopping, restarts: state.restarts },
            ServiceAction::Terminate { deadline_ms: restart.time },
        ),
        state.phase is Stopping ==> transition(
            state,
            restart,
            name,
            ready,
            ServiceEvent::DeadlineElapsed,
        ) == (
            ServiceState { phase: ServicePhase::Killing, restarts: state.restarts },
            ServiceAction::Kill,
        ),
        state.phase is Stopping || state.phase is Killing ==> transition(
            state,
            restart,
            name,
            ready,
            ServiceEvent::Exited(code),
        ) == finished_with(state, Ok(())),
        state.phase is Delaying ==> transition(
            state,
            restart,
            name,
            ready,
            ServiceEvent::Cancelled,
        ) == finished_with(state, Ok(())),
{
}

/// A service ends in an error only when its own machinery fails: when its
/// child cannot be started or cannot be waited for. A child that ends in
/// failure, a restart policy that is used up and a shutdown all end the
/// service with success.
pub proof fn lemma_errors_only_from_machinery(
    state: ServiceState,
    restart: Restart,
    name: String,
    ready: bool,
    event: ServiceEvent,
)
    ensures
        transition(state, restart, name, ready, event).1 matches ServiceAction::Finish(Err(error))
            ==> match event {
            ServiceEvent::SpawnFailed(message) => error == Error::SpawnFailed(name, message),
            ServiceEvent::WaitFailed(message) => error == Error::WaitFailed(name, message),
            _ => false,
        },
{
}

/// Once a shutdown is under way no child is started any more, whatever
/// happens next.
pub proof fn lemma_no_spawn_while_winding_down(
    state: ServiceState,
    restart: Restart,
    name: String,
    ready: bool,
    event: ServiceEvent,
)
    requires
        state.phase.winding_down(),
    ensures
        transition(state, restart, name, ready, event).0.phase.winding_down(),
        !(transition(state, restart, name, ready, event).1 is Spawn),
{
}

/// How the child of a service is started.
#[derive(Debug, Clone, PartialEq, Eq)]
pub struct SpawnSpec {
    /// The executable.
    pub program: String,
    /// The arguments handed to the executable.
    pub args: Vec<String>,
    /// Whether the child starts from an empty environment.
    pub clear_env: bool,
    /// The variables set in the child's environment, name and value.
    pub env: Vec<(String, String)>,
    /// Whether the child's standard output is piped to the supervisor.
    pub pipe_stdout: bool,
    /// Whether the child's standard error is piped to the supervisor.
    pub pipe_stderr: bool,
    /// Whether the child is killed when the supervisor lets go of it.
    pub kill_on_drop: bool,
}

/// What a controller is made from.
#[derive(Debug, PartialEq, Eq)]
pub struct ServiceManagerOpts {
    /// The directory for log files, if files are wanted.
    pub logs_dir: Option<String>,
    /// The directory below which configuration directories are made.
    pub tmp_dir: String,
    /// The supervisor's settings.
    pub settings: Settings,
    /// The name of the service, which is also its log target.
    pub name: String,
    /// The service.
    pub service: Service,
}

/// The controller of one service.
#[derive(Debug, PartialEq, Eq)]
pub struct ServiceManager {
    settings: Settings,
    name: String,
    service: Service,
    state: ServiceState,
    config_dir: ConfigDir,
    logs_dir: Option<String>,
    guard: ChildGuard,
}

impl ServiceManager {
    /// The child that the registry of managed children holds for this
    /// controller, if it holds one.
    pub closed spec fn held(&self) -> Option<i32> {
        self.guard.spec_pid()
    }


    /// Where the service stands and how many restarts it used.
    pub closed spec fn state(&self) -> ServiceState {
        self.state
    }

    /// The restart policy of the service.
    pub closed spec fn restart(&self) -> Restart {
        self.settings.restart
    }

    /// The name of the service.
    pub closed spec fn name(&self) -> String {
        self.name
    }

    /// The service.
    pub closed spec fn service(&self) -> Service {
        self.service
    }

    /// The configuration directory of the service.
    pub closed spec fn config_dir(&self) -> ConfigDir {
        self.config_dir
    }

    /// The directory for log files, if files are wanted.
    pub closed spec fn logs_dir(&self) -> Option<String> {
        self.logs_dir
    }

    /// Whether the configuration directory is in place.
    pub open spec fn ready(&self) -> bool {
        self.config_dir().cursor().finished()
    }

    /// A controller for a service, with its configuration directory below
    /// the temporary directory, of which nothing is in place yet. Every
    /// service has one.
    pub fn new(opts: ServiceManagerOpts) -> (manager: Result<ServiceManager, Error>)
        ensures
            manager matches Ok(m) && {
                &&& m.state() == (ServiceState { phase: ServicePhase::Created, restarts: 0 })
                &&& m.restart() == opts.settings.restart
                &&& m.name() == opts.name
                &&& m.service() == opts.service
                &&& m.logs_dir() == opts.logs_dir
                &&& m.held() is None
                &&& m.config_dir()@ == joined(
                    opts.tmp_dir@,
                    directory_name(opts.service.config_data.entries()),
                )
                &&& m.config_dir().links() == links_of(
                    m.config_dir()@,
                    opts.service.config_data.entries(),
                )
                &&& m.config_dir().cursor() == PlanCursor::fresh(m.config_dir().links().len())
            },
    {
        let config_dir = match ConfigDir::new(opts.tmp_dir.as_str(), &opts.service.config_data) {
            Ok(config_dir) => config_dir,
            Err(e) => {
                return Err(e);
            },
        };
        Ok(
            ServiceManager {
                settings: opts.settings,
                name: opts.name,
                service: opts.service,
                state: ServiceState { phase: ServicePhase::Created, restarts: 0 },
                config_dir,
                logs_dir: opts.logs_dir,
                guard: ChildGuard::noop(),
            },
        )
    }

    /// The next thing to do for the configuration directory.
    pub fn next_config_action(&self) -> (action: PlanAction)
        ensures
            action@ == ConfigDir::action_at(
                self.config_dir().cursor(),
                self.config_dir()@,
                self.config_dir().links(),
            ),
    {
        self.config_dir.next_action()
    }

    /// Takes the outcome of the action asked for last for the configuration
    /// directory; see `ConfigDir::advance`. An error names the service
    /// before the step that failed.
    pub fn config_step(&mut self, outcome: StepOutcome) -> (accepted: Result<(), Error>)
        ensures
            final(self).state() == old(self).state(),
            final(self).restart() == old(self).restart(),
            final(self).name() == old(self).name(),
            final(self).service() == old(self).service(),
            final(self).logs_dir() == old(self).logs_dir(),
            final(self).held() == old(self).held(),
            final(self).config_dir()@ == old(self).config_dir()@,
            final(self).config_dir().links() == old(self).config_dir().links(),
            final(self).config_dir().cursor() == old(self).config_dir().cursor().after(outcome),
            accepted is Err == old(self).config_dir().cursor().fails_on(outcome),
            accepted matches Err(e) ==> e matches Error::ServiceConfigFailed(service, reason)
                && service == old(self).name() && step_failure(
                old(self).config_dir().cursor().stage(),
                ConfigDir::subject_at(
                    old(self).config_dir().cursor(),
                    old(self).config_dir()@,
                    old(self).config_dir().links(),
                ),
                outcome,
                reason,
            ),
    {
        match self.config_dir.advance(outcome) {
            Ok(()) => Ok(()),
            Err(reason) => Err(Error::ServiceConfigFailed(self.name.clone(), reason)),
        }
    }

    /// Whether the configuration directory is in place.
    pub fn is_ready(&self) -> (ready: bool)
        ensures
            ready == self.ready(),
    {
        self.config_dir.is_finished()
    }

    /// Whether the service is over.
    pub fn is_finished(&self) -> (finished: bool)
        ensures
            finished == (self.state().phase is Finished),
    {
        match self.state.phase {
            ServicePhase::Finished => true,
            _ => false,
        }
    }

    /// Where the service stands.
    pub fn phase(&self) -> (phase: ServicePhase)
        ensures
            phase == self.state().phase,
    {
        self.state.phase
    }

    /// The number of restarts used so far.
    pub fn current_restart_count(&self) -> (restarts: usize)
        ensures
            restarts == self.state().restarts,
    {
        self.state.restarts
    }

    /// The name of the service, which is also its log target.
    pub fn service_name(&self) -> (name: &String)
        ensures
            *name == self.name(),
    {
        &self.name
    }

    /// The directory for log files, if files are wanted.
    pub fn logs_directory(&self) -> (dir: &Option<String>)
        ensures
            *dir == self.logs_dir(),
    {
        &self.logs_dir
    }

    /// How the child of the service is started: the service's executable
    /// with its arguments, both streams piped, killed when let go, in an
    /// environment that holds `XDG_CONFIG_HOME` and nothing else. The
    /// variable's value is the configuration directory.
    pub fn create_service_child(&self) -> (spec: SpawnSpec)
        ensures
            self.service().process.argv().len() > 0,
            spec.program == self.service().process.argv()[0],
            spec.args@ == self.service().process.argv().subrange(
                1,
                self.service().process.argv().len() as int,
            ),
            spec.clear_env,
            spec.env@.len() == 1,
            spec.env@[0].0@ == "XDG_CONFIG_HOME"@,
            spec.env@[0].1@ == self.config_dir()@,
            spec.pipe_stdout,
            spec.pipe_stderr,
            spec.kill_on_drop,
    {
        let mut env: Vec<(String, String)> = Vec::new();
        env.push(
            (String::from_str("XDG_CONFIG_HOME"), String::from_str(self.config_dir.as_str())),
        );
        SpawnSpec {
            program: self.service.process.binary().clone(),
            args: self.service.process.args(),
            clear_env: true,
            env,
            pipe_stdout: true,
            pipe_stderr: true,
            kill_on_drop: true,
        }
    }

    /// The child that the registry holds for this controller, if it holds
    /// one.
    pub fn held_pid(&self) -> (pid: Option<i32>)
        ensures
            pid == self.held(),
    {
        self.guard.pid()
    }

    /// Takes an event and answers with what to do, by the rule `transition`.
    /// Besides the phase and the restarts used, only the registry of managed
    /// children changes: the child is put in when it has started and taken out
    /// when its life has ended, by `held_after` and `registry_after`. The
    /// beginning of a service and its restart delay are dealt with here; what
    /// happens to a child between the request to start it and its end is left
    /// to `spawn_service_process`.
    pub fn run(&mut self, registry: &mut Subreaper, event: ServiceEvent) -> (action: ServiceAction)
        ensures
            (final(self).state(), action) == transition(
                old(self).state(),
                old(self).restart(),
                old(self).name(),
                old(self).ready(),
                event,
            ),
            final(self).held() == held_after(
                old(self).state(),
                old(self).restart(),
                old(self).name(),
                old(self).ready(),
                old(self).held(),
                event,
            ),
            final(registry)@ == registry_after(
                old(self).state(),
                old(self).restart(),
                old(self).name(),
                old(self).ready(),
                old(self).held(),
                old(registry)@,
                event,
            ),
            final(self).held() is Some ==> final(self).state().phase.has_child(),
            final(self).restart() == old(self).restart(),
            final(self).name() == old(self).name(),
            final(self).service() == old(self).service(),
            final(self).config_dir() == old(self).config_dir(),
            final(self).logs_dir() == old(self).logs_dir(),
    {
        let restarts = self.state.restarts;
        match (self.state.phase, event) {
            (ServicePhase::Created, ServiceEvent::Start) => {
                self.let_go(registry);
                if self.config_dir.is_finished() {
                    self.state = ServiceState { phase: ServicePhase::Spawning, restarts };
                    ServiceAction::Spawn
                } else {
                    ServiceAction::Ignore
                }
            },
            (ServicePhase::Created, _) => {
                self.let_go(registry);
                ServiceAction::Ignore
            },
            (ServicePhase::Delaying, ServiceEvent::DelayElapsed) => {
                self.let_go(registry);
                self.state = ServiceState { phase: ServicePhase::Spawning, restarts };
                ServiceAction::Spawn
            },
            (ServicePhase::Delaying, ServiceEvent::Cancelled) => {
                self.let_go(registry);
                self.state = ServiceState { phase: ServicePhase::Finished, restarts };
                ServiceAction::Finish(Ok(()))
            },
            (ServicePhase::Delaying, _) => {
                self.let_go(registry);
                ServiceAction::Ignore
            },
            (ServicePhase::Finished, _) => {
                self.let_go(registry);
                ServiceAction::Ignore
            },
            (_, event) => self.spawn_service_process(registry, event),
        }
    }

    /// Takes the child out of the registry, if the registry holds one for
    /// this controller.
    fn let_go(&mut self, registry: &mut Subreaper)
        ensures
            final(self).held() is None,
            final(registry)@ == without_child(old(registry)@, old(self).held()),
            final(self).state() == old(self).state(),
            final(self).restart() == old(self).restart(),
            final(self).name() == old(self).name(),
            final(self).service() == old(self).service(),
            final(self).config_dir() == old(self).config_dir(),
            final(self).logs_dir() == old(self).logs_dir(),
    {
        let mut guard = ChildGuard::noop();
        std::mem::swap(&mut self.guard, &mut guard);
        guard.release(registry);
    }

    /// One life of a child, from the request to start it to its end: takes
    /// an event while a child is asked for or alive, and answers with what to
    /// do, by the rule `transition`. A child that started is put into the
    /// registry of managed children and awaited; a shutdown asks it to
    /// terminate, and kills it when the deadline runs out; its end takes it out
    /// of the registry and is weighed by the restart policy unless a shutdown
    /// is under way. In any other phase nothing changes.
    pub fn spawn_service_process(&mut self, registry: &mut Subreaper, event: ServiceEvent) -> (action:
        ServiceAction)
        ensures
            old(self).state().phase.in_child_cycle() ==> (final(self).state(), action)
                == transition(
                old(self).state(),
                old(self).restart(),
                old(self).name(),
                old(self).ready(),
                event,
            ),
            old(self).state().phase.in_child_cycle() ==> final(self).held() == held_after(
                old(self).state(),
                old(self).restart(),
                old(self).name(),
                old(self).ready(),
                old(self).held(),
                event,
            ),
            !old(self).state().phase.in_child_cycle() ==> final(self).state() == old(self).state()
                && action == ServiceAction::Ignore && final(self).held() == old(self).held(),
            old(self).state().phase.in_child_cycle() ==> final(registry)@ == registry_after(
                old(self).state(),
                old(self).restart(),
                old(self).name(),
                old(self).ready(),
                old(self).held(),
                old(registry)@,
                event,
            ),
            !old(self).state().phase.in_child_cycle() ==> final(registry)@ == old(registry)@,
            old(self).state().phase.in_child_cycle() && final(self).held() is Some
                ==> final(self).state().phase.has_child(),
            final(self).restart() == old(self).restart(),
            final(self).name() == old(self).name(),
            final(self).service() == old(self).service(),
            final(self).config_dir() == old(self).config_dir(),
            final(self).logs_dir() == old(self).logs_dir(),
    {
        let restarts = self.state.restarts;
        match (self.state.phase, event) {
            (ServicePhase::Spawning, ServiceEvent::Spawned(pid)) => {
                self.let_go(registry);
                self.state = ServiceState { phase: ServicePhase::Running, restarts };
                match registry.track_child(pid) {
                    Ok(guard) => {
                        self.guard = guard;
                    },
                    Err(_) => {},
                }
                ServiceAction::AwaitChild
            },
            (ServicePhase::Spawning, ServiceEvent::SpawnFailed(message)) => {
                self.let_go(registry);
                self.state = ServiceState { phase: ServicePhase::Finished, restarts };
                ServiceAction::Finish(Err(Error::SpawnFailed(self.name.clone(), message)))
            },
            (ServicePhase::Running, ServiceEvent::Exited(code)) => {
                self.let_go(registry);
                let success = match code {
                    Some(value) => value == 0,
                    None => false,
                };
                if success {
                    self.state = ServiceState { phase: ServicePhase::Finished, restarts };
                    ServiceAction::Finish(Ok(()))
                } else {
                    match self.settings.restart.evaluate(restarts) {
                        RestartDecision::GiveUp => {
                            self.state = ServiceState { phase: ServicePhase::Finished, restarts };
                            ServiceAction::Finish(Ok(()))
                        },
                        RestartDecision::Again(used) => {
                            self.state = ServiceState {
                                phase: ServicePhase::Delaying,
                                restarts: used,
                            };
                            ServiceAction::Sleep { ms: self.settings.restart.time }
                        },
                    }
                }
            },
            (ServicePhase::Running, ServiceEvent::Cancelled) => {
                self.state = ServiceState { phase: ServicePhase::Stopping, restarts };
                ServiceAction::Terminate { deadline_ms: self.settings.restart.time }
            },
            (ServicePhase::Running, ServiceEvent::WaitFailed(message)) => {
                self.let_go(registry);
                self.state = ServiceState { phase: ServicePhase::Finished, restarts };
                ServiceAction::Finish(Err(Error::WaitFailed(self.name.clone(), message)))
            },
            (ServicePhase::Stopping, ServiceEvent::Exited(_)) => {
                self.let_go(registry);
                self.state = ServiceState { phase: ServicePhase::Finished, restarts };
                ServiceAction::Finish(Ok(()))
            },
            (ServicePhase::Stopping, ServiceEvent::DeadlineElapsed) => {
                self.state = ServiceState { phase: ServicePhase::Killing, restarts };
                ServiceAction::Kill
            },
            (ServicePhase::Stopping, ServiceEvent::WaitFailed(message)) => {
                self.let_go(registry);
                self.state = ServiceState { phase: ServicePhase::Finished, restarts };
                ServiceAction::Finish(Err(Error::WaitFailed(self.name.clone(), message)))
            },
            (ServicePhase::Killing, ServiceEvent::Exited(_)) => {
                self.let_go(registry);
                self.state = ServiceState { phase: ServicePhase::Finished, restarts };
                ServiceAction::Finish(Ok(()))
            },
            (ServicePhase::Killing, ServiceEvent::WaitFailed(message)) => {
                self.let_go(registry);
                self.state = ServiceState { phase: ServicePhase::Finished, restarts };
                ServiceAction::Finish(Err(Error::WaitFailed(self.name.clone(), message)))
            },
            (ServicePhase::Spawning, _) => {
                self.let_go(registry);
                ServiceAction::Ignore
            },
            _ => ServiceAction::Ignore,
        }
    }
}

/// Services with the same configuration share one configuration directory:
/// their children find the same path in `XDG_CONFIG_HOME`.
pub proof fn lemma_same_payload_same_config_home(a: ServiceManager, b: ServiceManager, tmp_dir: Seq<char>)
    requires
        a.service().config_data.well_formed(),
        b.service().config_data.well_formed(),
        a.service().config_data.deep() == b.service().config_data.deep(),
        a.config_dir()@ == joined(tmp_dir, directory_name(a.service().config_data.entries())),
        b.config_dir()@ == joined(tmp_dir, directory_name(b.service().config_data.entries())),
    ensures
        a.config_dir()@ == b.config_dir()@,
{
    lemma_same_payload_same_name(a.service().config_data, b.service().config_data);
}

} // verus!
