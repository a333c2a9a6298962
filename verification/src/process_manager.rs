//! The session orchestrator: the startup hook, the launch of the services,
//! and the way a session ends.
//!
//! Like the controller of a service, the orchestrator performs no system
//! call: it is told what happened and answers with what to do next.

use crate::error::Error;
use crate::name_map::NameMap;
use vstd::prelude::*;
use vstd::string::StringExecFns;

pub mod service;
pub mod service_manager;
pub mod settings;

pub use service::Service;
pub use service_manager::{ServiceManager, ServiceManagerOpts, SpawnSpec};
pub use settings::{clone_text_option, Settings};

verus! {

/// Where a session stands.
#[derive(Debug, Clone, Copy, PartialEq, Eq, Structural)]
pub enum SessionPhase {
    /// Nothing has been asked for yet.
    Created,
    /// The startup hook was asked for and has not started yet.
    HookSpawning,
    /// The startup hook runs.
    HookRunning,
    /// The startup hook was asked to terminate and has until the deadline.
    HookStopping,
    /// The startup hook was killed; its end is awaited.
    HookKilling,
    /// The services run; completions and the shutdown signal are awaited.
    Supervising,
    /// The cancellation was fired; the remaining completions are awaited.
    Draining,
    /// The session is over.
    Finished,
}

/// The part of an orchestrator that changes.
#[derive(Debug, PartialEq, Eq)]
pub struct SessionState {
    /// Where the session stands.
    pub phase: SessionPhase,
    /// The number of services that have not completed yet.
    pub pending: usize,
    /// The first error that a service returned, kept until the session ends.
    pub failure: Option<Error>,
}

/// What an orchestrator is told.
#[derive(Debug, PartialEq, Eq)]
pub enum SessionEvent {
    /// The session is to begin.
    Start,
    /// The startup hook has started.
    HookSpawned,
    /// The startup hook could not be started; the text is the system's
    /// message.
    HookSpawnFailed(String),
    /// The startup hook ended, with this exit code, or with none if a signal
    /// ended it.
    HookExited(Option<i32>),
    /// Waiting on the startup hook failed; the text is the system's message.
    HookWaitFailed(String),
    /// The time granted to a startup hook that was asked to terminate ran
    /// out.
    HookDeadlineElapsed,
    /// The interrupt or the terminate signal arrived.
    ShutdownSignal,
    /// Listening for the shutdown signal failed; the text is the system's
    /// message.
    SignalListenFailed(String),
    /// The controller of a service completed with this result.
    ServiceFinished(Result<(), Error>),
    /// The task of a controller ended abnormally; the text says how.
    TaskPanicked(String),
    /// No controller is left to wait for: all of them have completed.
    AllCompleted,
}

/// What an orchestrator answers.
#[derive(Debug, PartialEq, Eq)]
pub enum SessionAction {
    /// Start the startup hook that `startup_child` describes, and attach log
    /// drains under the target `startup`.
    RunStartupHook,
    /// Wait until the startup hook ends or the shutdown signal arrives.
    AwaitHook,
    /// Send the startup hook the terminate signal, and wait for its end for
    /// at most this many milliseconds.
    TerminateHook { deadline_ms: u64 },
    /// Send the startup hook the kill signal, and wait for its end.
    KillHook,
    /// Make a controller for every service and start them all.
    LaunchServices,
    /// Fire the cancellation that every controller listens to, and go on
    /// waiting for completions.
    Cancel,
    /// Go on waiting for completions and for the shutdown signal.
    Await,
    /// The session is over with this result.
    Finish(Result<(), Error>),
    /// The event does not apply where the session stands: nothing changes.
    Ignore,
}

/// The session is over, with this result.
pub open spec fn session_done(result: Result<(), Error>) -> (SessionState, SessionAction) {
    (
        SessionState { phase: SessionPhase::Finished, pending: 0, failure: None },
        SessionAction::Finish(result),
    )
}

/// The session without anything pending, in the given phase.
pub open spec fn in_phase(phase: SessionPhase) -> SessionState {
    SessionState { phase, pending: 0, failure: None }
}

/// The services are launched, unless there are none: then the session is
/// over at once, with success.
pub open spec fn begin_supervision(services: usize) -> (SessionState, SessionAction) {
    if services == 0 {
        session_done(Ok(()))
    } else {
        (
            SessionState { phase: SessionPhase::Supervising, pending: services, failure: None },
            SessionAction::LaunchServices,
        )
    }
}

/// A service returned the first error: the cancellation is fired and the
/// error kept until the session has drained, also where that service was the
/// last one running.
pub open spec fn first_failure(state: SessionState, error: Error) -> (
    SessionState,
    SessionAction,
) {
    (
        SessionState {
            phase: SessionPhase::Draining,
            pending: if state.pending >= 1 {
                (state.pending - 1) as usize
            } else {
                0
            },
            failure: Some(error),
        },
        SessionAction::Cancel,
    )
}

/// The result of a session that has drained: the first error if a service
/// returned one, else success.
pub open spec fn drained_result(failure: Option<Error>) -> Result<(), Error> {
    match failure {
        Some(error) => Err(error),
        None => Ok(()),
    }
}

/// One more completion while draining: whatever it says is absorbed.
pub open spec fn drained_one(state: SessionState) -> (SessionState, SessionAction) {
    if state.pending <= 1 {
        session_done(drained_result(state.failure))
    } else {
        (
            SessionState {
                phase: SessionPhase::Draining,
                pending: (state.pending - 1) as usize,
                failure: state.failure,
            },
            SessionAction::Await,
        )
    }
}

/// The rule of the orchestrator: the state and the answer that follow a
/// state and an event. `hook` says whether a startup hook is set, `services`
/// how many services the session has, and `time` is the restart time, which
/// is also the deadline of a graceful stop.
pub open spec fn session_transition(
    state: SessionState,
    hook: bool,
    services: usize,
    time: u64,
    event: SessionEvent,
) -> (SessionState, SessionAction) {
    match (state.phase, event) {
        (SessionPhase::Created, SessionEvent::Start) => if hook {
            (in_phase(SessionPhase::HookSpawning), SessionAction::RunStartupHook)
        } else {
            begin_supervision(services)
        },
        (SessionPhase::HookSpawning, SessionEvent::HookSpawned) => (
            in_phase(SessionPhase::HookRunning),
            SessionAction::AwaitHook,
        ),
        (SessionPhase::HookSpawning, SessionEvent::HookSpawnFailed(message)) => session_done(
            Err(Error::StartupFailed(message)),
        ),
        (SessionPhase::HookRunning, SessionEvent::HookExited(code)) => if code == Some(0i32) {
            begin_supervision(services)
        } else {
            session_done(Err(Error::StartupExited(code)))
        },
        (SessionPhase::HookRunning, SessionEvent::HookWaitFailed(message)) => session_done(
            Err(Error::StartupFailed(message)),
        ),
        (SessionPhase::HookRunning, SessionEvent::ShutdownSignal) => (
            in_phase(SessionPhase::HookStopping),
            SessionAction::TerminateHook { deadline_ms: time },
        ),
        (SessionPhase::HookStopping, SessionEvent::HookExited(_)) => session_done(Ok(())),
        (SessionPhase::HookStopping, SessionEvent::HookDeadlineElapsed) => (
            in_phase(SessionPhase::HookKilling),
            SessionAction::KillHook,
        ),
        (SessionPhase::HookStopping, SessionEvent::HookWaitFailed(message)) => session_done(
            Err(Error::StartupFailed(message)),
        ),
        (SessionPhase::HookKilling, SessionEvent::HookExited(_)) => session_done(Ok(())),
        (SessionPhase::HookKilling, SessionEvent::HookWaitFailed(message)) => session_done(
            Err(Error::StartupFailed(message)),
        ),
        (SessionPhase::Supervising, SessionEvent::ServiceFinished(Ok(_))) => if state.pending
            <= 1 {
            session_done(Ok(()))
        } else {
            (
                SessionState {
                    phase: SessionPhase::Supervising,
                    pending: (state.pending - 1) as usize,
                    failure: None,
                },
                SessionAction::Await,
            )
        },
        (SessionPhase::Supervising, SessionEvent::ServiceFinished(Err(error))) => first_failure(
            state,
            error,
        ),
        (SessionPhase::Supervising, SessionEvent::TaskPanicked(message)) => first_failure(
            state,
            Error::TaskPanicked(message),
        ),
        (SessionPhase::Supervising, SessionEvent::ShutdownSignal) => (
            SessionState { phase: SessionPhase::Draining, pending: state.pending, failure: None },
            SessionAction::Cancel,
        ),
        (SessionPhase::Supervising, SessionEvent::SignalListenFailed(message)) => session_done(
            Err(Error::IOErr(message)),
        ),
        (SessionPhase::Supervising, SessionEvent::AllCompleted) => session_done(Ok(())),
        (SessionPhase::Draining, SessionEvent::ServiceFinished(_)) => drained_one(state),
        (SessionPhase::Draining, SessionEvent::TaskPanicked(_)) => drained_one(state),
        (SessionPhase::Draining, SessionEvent::AllCompleted) => session_done(
            drained_result(state.failure),
        ),
        _ => (state, SessionAction::Ignore),
    }
}

/// A run of an orchestrator as far as the laws below speak of it.
pub struct SessionTrace {
    /// Where the orchestrator stands.
    pub state: SessionState,
    /// The number of `Cancel` answers given.
    pub cancels: nat,
    /// The number of `LaunchServices` answers given.
    pub launches: nat,
    /// Whether the startup hook was seen to fail.
    pub hook_failed: bool,
}

/// The run before any event.
pub open spec fn session_start() -> SessionTrace {
    SessionTrace {
        state: in_phase(SessionPhase::Created),
        cancels: 0,
        launches: 0,
        hook_failed: false,
    }
}

/// The startup hook is seen to fail by this event in this phase: it could
/// not be started or waited for, or it ended without success while running.
pub open spec fn hook_fails(phase: SessionPhase, event: SessionEvent) -> bool {
    match (phase, event) {
        (SessionPhase::HookSpawning, SessionEvent::HookSpawnFailed(_)) => true,
        (SessionPhase::HookRunning, SessionEvent::HookExited(code)) => code != Some(0i32),
        (SessionPhase::HookRunning, SessionEvent::HookWaitFailed(_)) => true,
        (SessionPhase::HookStopping, SessionEvent::HookWaitFailed(_)) => true,
        (SessionPhase::HookKilling, SessionEvent::HookWaitFailed(_)) => true,
        _ => false,
    }
}

/// The run after one more event.
pub open spec fn session_trace_step(
    trace: SessionTrace,
    hook: bool,
    services: usize,
    time: u64,
    event: SessionEvent,
) -> SessionTrace {
    let (state, action) = session_transition(trace.state, hook, services, time, event);
    SessionTrace {
        state,
        cancels: if action is Cancel {
            trace.cancels + 1
        } else {
            trace.cancels
        },
        launches: if action is LaunchServices {
            trace.launches + 1
        } else {
            trace.launches
        },
        hook_failed: trace.hook_failed || hook_fails(trace.state.phase, event),
    }
}

/// The run after a sequence of events, from the beginning.
pub open spec fn session_after(
    hook: bool,
    services: usize,
    time: u64,
    events: Seq<SessionEvent>,
) -> SessionTrace
    decreases events.len(),
{
    if events.len() == 0 {
        session_start()
    } else {
        session_trace_step(
            session_after(hook, services, time, events.drop_last()),
            hook,
            services,
            time,
            events.last(),
        )
    }
}

/// What holds of every run.
pub open spec fn session_invariant(trace: SessionTrace, services: usize) -> bool {
    let phase = trace.state.phase;
    &&& trace.cancels <= 1
    &&& trace.launches <= 1
    &&& trace.cancels == 1 ==> phase is Draining || phase is Finished
    &&& phase is Supervising || phase is Draining ==> trace.launches == 1
        && trace.state.pending <= services && !trace.hook_failed
    &&& phase is Supervising ==> 1 <= trace.state.pending
    &&& phase is Draining ==> trace.cancels == 1
    &&& !(phase is Draining) ==> trace.state.failure is None
    &&& trace.launches == 1 ==> phase is Supervising || phase is Draining || phase is Finished
    &&& trace.hook_failed ==> phase is Finished && trace.launches == 0
}

/// The invariant holds of every run.
pub proof fn lemma_session_invariant(
    hook: bool,
    services: usize,
    time: u64,
    events: Seq<SessionEvent>,
)
    ensures
        session_invariant(session_after(hook, services, time, events), services),
    decreases events.len(),
{
    if events.len() > 0 {
        lemma_session_invariant(hook, services, time, events.drop_last());
    }
}

/// The cancellation is fired at most once in a session, and the services
/// are launched at most once.
pub proof fn lemma_cancel_and_launch_at_most_once(
    hook: bool,
    services: usize,
    time: u64,
    events: Seq<SessionEvent>,
)
    ensures
        session_after(hook, services, time, events).cancels <= 1,
        session_after(hook, services, time, events).launches <= 1,
{
    lemma_session_invariant(hook, services, time, events);
}

/// A startup hook that fails is fatal: the session is over, and no service
/// was or will be launched.
pub proof fn lemma_hook_failure_launches_nothing(
    hook: bool,
    services: usize,
    time: u64,
    events: Seq<SessionEvent>,
)
    requires
        session_after(hook, services, time, events).hook_failed,
    ensures
        session_after(hook, services, time, events).launches == 0,
        session_after(hook, services, time, events).state.phase is Finished,
{
    lemma_session_invariant(hook, services, time, events);
}

/// While a session drains, the error it will return does not change: the
/// first error stays, and later errors do not shadow it; after a shutdown
/// signal the session ends with success whatever the services return.
pub proof fn lemma_draining_keeps_first_result(
    state: SessionState,
    hook: bool,
    services: usize,
    time: u64,
    event: SessionEvent,
)
    requires
        state.phase is Draining,
    ensures
        ({
            let (next, action) = session_transition(state, hook, services, time, event);
            &&& !(action is Cancel)
            &&& !(action is LaunchServices)
            &&& next.phase is Draining ==> next.failure == state.failure
            &&& next.phase is Finished ==> action == SessionAction::Finish(
                drained_result(state.failure),
            )
            &&& next.phase is Draining || next.phase is Finished
        }),
{
}

/// The first error of a service fires the cancellation, in every case: the
/// answer is `Cancel`, the session drains, and the error is kept for its end.
pub proof fn lemma_first_error_fires_cancellation(
    state: SessionState,
    hook: bool,
    services: usize,
    time: u64,
    error: Error,
    message: String,
)
    requires
        state.phase is Supervising,
    ensures
        ({
            let (next, action) = session_transition(
                state,
                hook,
                services,
                time,
                SessionEvent::ServiceFinished(Err(error)),
            );
            action == SessionAction::Cancel && next.phase is Draining && next.failure == Some(
                error,
            )
        }),
        ({
            let (next, action) = session_transition(
                state,
                hook,
                services,
                time,
                SessionEvent::TaskPanicked(message),
            );
            action == SessionAction::Cancel && next.phase is Draining && next.failure == Some(
                Error::TaskPanicked(message),
            )
        }),
{
}

/// A session ends in an error only for one of these reasons: the startup
/// hook failed, the shutdown signal could not be listened for, or the session
/// has drained after the error of a service, which is then the error it ends
/// in. A shutdown signal by itself never does.
pub proof fn lemma_session_errors(
    state: SessionState,
    hook: bool,
    services: usize,
    time: u64,
    event: SessionEvent,
)
    ensures
        session_transition(state, hook, services, time, event).1 matches SessionAction::Finish(
            Err(error),
        ) ==> hook_fails(state.phase, event) || event is SignalListenFailed || (state.phase
            is Draining && state.failure == Some(error)),
        event is ShutdownSignal ==> !(session_transition(state, hook, services, time, event).1
            matches SessionAction::Finish(Err(_))),
{
}

/// The session orchestrator: the services of a manifest with the settings
/// they run under.
#[derive(Debug, PartialEq, Eq)]
pub struct ProcessManager {
    services: NameMap<Service>,
    settings: Settings,
    total: usize,
    state: SessionState,
}

impl ProcessManager {
    /// The services that have not been handed out yet.
    pub closed spec fn services(&self) -> NameMap<Service> {
        self.services
    }

    /// The settings of the session.
    pub closed spec fn settings(&self) -> Settings {
        self.settings
    }

    /// The number of services that the session was made with.
    pub closed spec fn total(&self) -> usize {
        self.total
    }

    /// Where the session stands.
    pub closed spec fn state(&self) -> SessionState {
        self.state
    }

    /// An orchestrator for the given services and settings, before anything
    /// has happened.
    pub fn new(services: NameMap<Service>, settings: Settings) -> (manager: ProcessManager)
        ensures
            manager.services() == services,
            manager.settings() == settings,
            manager.total() == services.entries().len(),
            manager.state() == in_phase(SessionPhase::Created),
    {
        let total = services.len();
        ProcessManager {
            services,
            settings,
            total,
            state: SessionState { phase: SessionPhase::Created, pending: 0, failure: None },
        }
    }

    /// Where the session stands.
    pub fn phase(&self) -> (phase: SessionPhase)
        ensures
            phase == self.state().phase,
    {
        self.state.phase
    }

    /// The number of services that have not completed yet.
    pub fn pending(&self) -> (pending: usize)
        ensures
            pending == self.state().pending,
    {
        self.state.pending
    }

    /// The settings of the session.
    pub fn session_settings(&self) -> (settings: &Settings)
        ensures
            *settings == self.settings(),
    {
        &self.settings
    }

    /// How the startup hook is started, if one is set: the hook's executable
    /// without arguments, in an empty environment, both streams piped, killed
    /// when let go.
    pub fn startup_child(&self) -> (spec: Option<SpawnSpec>)
        ensures
            spec is Some == self.settings().startup.run_on_startup is Some,
            spec matches Some(s) ==> {
                &&& s.program == self.settings().startup.run_on_startup->0
                &&& s.args@.len() == 0
                &&& s.clear_env
                &&& s.env@.len() == 0
                &&& s.pipe_stdout
                &&& s.pipe_stderr
                &&& s.kill_on_drop
            },
    {
        match &self.settings.startup.run_on_startup {
            Some(bin) => Some(
                SpawnSpec {
                    program: bin.clone(),
                    args: Vec::new(),
                    clear_env: true,
                    env: Vec::new(),
                    pipe_stdout: true,
                    pipe_stderr: true,
                    kill_on_drop: true,
                },
            ),
            None => None,
        }
    }

    /// Hands out what the controllers of the services are made from: one for
    /// each service that has not been handed out yet, from the greatest name
    /// down, each with a copy of the settings, the temporary directory and
    /// the logs directory.
    pub fn take_service_opts(&mut self, tmp_dir: &str, logs_dir: &Option<String>) -> (opts: Vec<
        ServiceManagerOpts,
    >)
        ensures
            opts@.len() == old(self).services().entries().len(),
            forall|i: int|
                0 <= i < opts@.len() ==> {
                    let entry = old(self).services().entries()[opts@.len() - 1 - i];
                    &&& (#[trigger] opts@[i]).name == entry.0
                    &&& opts@[i].service == entry.1
                    &&& opts@[i].settings == old(self).settings()
                    &&& opts@[i].tmp_dir@ == tmp_dir@
                    &&& opts@[i].logs_dir == *logs_dir
                },
            final(self).services().entries().len() == 0,
            final(self).settings() == old(self).settings(),
            final(self).total() == old(self).total(),
            final(self).state() == old(self).state(),
    {
        let mut opts: Vec<ServiceManagerOpts> = Vec::new();
        let ghost all = self.services.entries();
        let n = self.services.len();
        while self.services.len() > 0
            invariant
                self.settings == old(self).settings,
                self.total == old(self).total,
                self.state == old(self).state,
                all == old(self).services().entries(),
                n == all.len(),
                opts@.len() + self.services.entries().len() == n,
                self.services.entries() == all.take(n - opts@.len()),
                forall|i: int|
                    0 <= i < opts@.len() ==> {
                        let entry = all[n - 1 - i];
                        &&& (#[trigger] opts@[i]).name == entry.0
                        &&& opts@[i].service == entry.1
                        &&& opts@[i].settings == self.settings
                        &&& opts@[i].tmp_dir@ == tmp_dir@
                        &&& opts@[i].logs_dir == *logs_dir
                    },
            decreases self.services.entries().len(),
        {
            let ghost before = self.services.entries();
            match self.services.pop_last() {
                Some((name, service)) => {
                    assert(self.services.entries() =~= all.take(n - opts@.len() - 1));
                    assert(before.last() == all[n - 1 - opts@.len()]);
                    opts.push(
                        ServiceManagerOpts {
                            logs_dir: clone_text_option(logs_dir),
                            tmp_dir: String::from_str(tmp_dir),
                            settings: self.settings.duplicate(),
                            name,
                            service,
                        },
                    );
                },
                None => {},
            }
        }
        opts
    }

    /// Takes an event and answers with what to do, by the rule
    /// `session_transition`. Nothing but the state of the session changes.
    pub fn run(&mut self, event: SessionEvent) -> (action: SessionAction)
        ensures
            (final(self).state(), action) == session_transition(
                old(self).state(),
                old(self).settings().startup.run_on_startup is Some,
                old(self).total(),
                old(self).settings().restart.time,
                event,
            ),
            final(self).services() == old(self).services(),
            final(self).settings() == old(self).settings(),
            final(self).total() == old(self).total(),
    {
        let time = self.settings.restart.time;
        let pending = self.state.pending;
        match (self.state.phase, event) {
            (SessionPhase::Created, SessionEvent::Start) => {
                if self.settings.startup.run_on_startup.is_some() {
                    self.enter(SessionPhase::HookSpawning);
                    SessionAction::RunStartupHook
                } else {
                    self.begin()
                }
            },
            (SessionPhase::HookSpawning, SessionEvent::HookSpawned) => {
                self.enter(SessionPhase::HookRunning);
                SessionAction::AwaitHook
            },
            (SessionPhase::HookSpawning, SessionEvent::HookSpawnFailed(message)) => self.done(
                Err(Error::StartupFailed(message)),
            ),
            (SessionPhase::HookRunning, SessionEvent::HookExited(code)) => {
                let success = match code {
                    Some(value) => value == 0,
                    None => false,
                };
                if success {
                    self.begin()
                } else {
                    self.done(Err(Error::StartupExited(code)))
                }
            },
            (SessionPhase::HookRunning, SessionEvent::HookWaitFailed(message)) => self.done(
                Err(Error::StartupFailed(message)),
            ),
            (SessionPhase::HookRunning, SessionEvent::ShutdownSignal) => {
                self.enter(SessionPhase::HookStopping);
                SessionAction::TerminateHook { deadline_ms: time }
            },
            (SessionPhase::HookStopping, SessionEvent::HookExited(_)) => self.done(Ok(())),
            (SessionPhase::HookStopping, SessionEvent::HookDeadlineElapsed) => {
                self.enter(SessionPhase::HookKilling);
                SessionAction::KillHook
            },
            (SessionPhase::HookStopping, SessionEvent::HookWaitFailed(message)) => self.done(
                Err(Error::StartupFailed(message)),
            ),
            (SessionPhase::HookKilling, SessionEvent::HookExited(_)) => self.done(Ok(())),
            (SessionPhase::HookKilling, SessionEvent::HookWaitFailed(message)) => self.done(
                Err(Error::StartupFailed(message)),
            ),
            (SessionPhase::Supervising, SessionEvent::ServiceFinished(Ok(_))) => {
                if pending <= 1 {
                    self.done(Ok(()))
                } else {
                    self.state = SessionState {
                        phase: SessionPhase::Supervising,
                        pending: pending - 1,
                        failure: None,
                    };
                    SessionAction::Await
                }
            },
            (SessionPhase::Supervising, SessionEvent::ServiceFinished(Err(error))) => self.fail(
                error,
            ),
            (SessionPhase::Supervising, SessionEvent::TaskPanicked(message)) => self.fail(
                Error::TaskPanicked(message),
            ),
            (SessionPhase::Supervising, SessionEvent::ShutdownSignal) => {
                self.state = SessionState {
                    phase: SessionPhase::Draining,
                    pending,
                    failure: None,
                };
                SessionAction::Cancel
            },
            (SessionPhase::Supervising, SessionEvent::SignalListenFailed(message)) => self.done(
                Err(Error::IOErr(message)),
            ),
            (SessionPhase::Supervising, SessionEvent::AllCompleted) => self.done(Ok(())),
            (SessionPhase::Draining, SessionEvent::ServiceFinished(_)) => self.drain_one(),
            (SessionPhase::Draining, SessionEvent::TaskPanicked(_)) => self.drain_one(),
            (SessionPhase::Draining, SessionEvent::AllCompleted) => self.drain_all(),
            _ => SessionAction::Ignore,
        }
    }

    /// Moves to a phase in which nothing is pending.
    fn enter(&mut self, phase: SessionPhase)
        ensures
            final(self).state() == in_phase(phase),
            final(self).services() == old(self).services(),
            final(self).settings() == old(self).settings(),
            final(self).total() == old(self).total(),
    {
        self.state = SessionState { phase, pending: 0, failure: None };
    }

    /// Ends the session with a result.
    fn done(&mut self, result: Result<(), Error>) -> (action: SessionAction)
        ensures
            (final(self).state(), action) == session_done(result),
            final(self).services() == old(self).services(),
            final(self).settings() == old(self).settings(),
            final(self).total() == old(self).total(),
    {
        self.state = SessionState { phase: SessionPhase::Finished, pending: 0, failure: None };
        SessionAction::Finish(result)
    }

    /// Launches the services, or ends the session if there are none.
    fn begin(&mut self) -> (action: SessionAction)
        ensures
            (final(self).state(), action) == begin_supervision(old(self).total()),
            final(self).services() == old(self).services(),
            final(self).settings() == old(self).settings(),
            final(self).total() == old(self).total(),
    {
        if self.total == 0 {
            self.done(Ok(()))
        } else {
            self.state = SessionState {
                phase: SessionPhase::Supervising,
                pending: self.total,
                failure: None,
            };
            SessionAction::LaunchServices
        }
    }

    /// Takes the first error of a service: the cancellation is to be fired,
    /// and the error is kept.
    fn fail(&mut self, error: Error) -> (action: SessionAction)
        ensures
            (final(self).state(), action) == first_failure(old(self).state(), error),
            final(self).services() == old(self).services(),
            final(self).settings() == old(self).settings(),
            final(self).total() == old(self).total(),
    {
        let pending = if self.state.pending >= 1 {
            self.state.pending - 1
        } else {
            0
        };
        self.state = SessionState {
            phase: SessionPhase::Draining,
            pending,
            failure: Some(error),
        };
        SessionAction::Cancel
    }

    /// Ends a draining session of which no controller is left.
    fn drain_all(&mut self) -> (action: SessionAction)
        ensures
            (final(self).state(), action) == session_done(drained_result(old(self).state().failure)),
            final(self).services() == old(self).services(),
            final(self).settings() == old(self).settings(),
            final(self).total() == old(self).total(),
    {
        let mut last = SessionState { phase: SessionPhase::Finished, pending: 0, failure: None };
        std::mem::swap(&mut self.state, &mut last);
        match last.failure {
            Some(error) => SessionAction::Finish(Err(error)),
            None => SessionAction::Finish(Ok(())),
        }
    }

    /// Takes one more completion while draining.
    fn drain_one(&mut self) -> (action: SessionAction)
        requires
            old(self).state().phase is Draining,
        ensures
            (final(self).state(), action) == drained_one(old(self).state()),
            final(self).services() == old(self).services(),
            final(self).settings() == old(self).settings(),
            final(self).total() == old(self).total(),
    {
        if self.state.pending <= 1 {
            let mut last = SessionState {
                phase: SessionPhase::Finished,
                pending: 0,
                failure: None,
            };
            std::mem::swap(&mut self.state, &mut last);
            match last.failure {
                Some(error) => SessionAction::Finish(Err(error)),
                None => SessionAction::Finish(Ok(())),
            }
        } else {
            self.state.pending = self.state.pending - 1;
            SessionAction::Await
        }
    }
}

} // verus!
