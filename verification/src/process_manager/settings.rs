//! Runtime settings of the supervisor: restart policy, startup hook, logging.

use crate::path::{join, joined};
use crate::text::{decimal, decimal_text, str_eq};
use vstd::prelude::*;
use vstd::string::StringExecFns;

verus! {

/// Everything the supervisor can be told besides the services themselves.
#[derive(Debug, Clone, PartialEq, Eq)]
pub struct Settings {
    /// When and how often a failed service is started again.
    pub restart: Restart,
    /// What runs once before any service.
    pub startup: Startup,
    /// Whether and where the output of the services is kept in files.
    pub logging: Logging,
}

/// What runs once before any service.
#[derive(Debug, Clone, PartialEq, Eq)]
pub struct Startup {
    /// Path of the executable to run before the services start, if any.
    pub run_on_startup: Option<String>,
}

/// Whether and where the output of the services is kept in files.
#[derive(Debug, Clone, PartialEq, Eq)]
pub struct Logging {
    /// Directory for the log files; `None` switches file logging off.
    pub logs_dir: Option<String>,
}

/// The logging settings as a manifest writes them: a switch beside a path.
#[derive(Debug, Clone, PartialEq, Eq)]
pub struct LoggingRaw {
    /// Whether log files are wanted.
    pub enable: bool,
    /// Directory for the log files, read only while `enable` is set.
    pub logs_dir: String,
}

/// When and how often a failed service is started again.
#[derive(Debug, Clone, Copy, PartialEq, Eq, Structural)]
pub struct Restart {
    /// The restart policy.
    pub mode: RestartMode,
    /// Milliseconds to wait before a restart. A child that is asked to stop
    /// gets the same time before it is killed.
    pub time: u64,
    /// How many restarts `RestartMode::UpToCount` grants.
    pub count: usize,
}

/// How a service is treated after its child ended in failure.
#[derive(Debug, Clone, Copy, PartialEq, Eq, Structural)]
pub enum RestartMode {
    /// The service is never restarted.
    Never,
    /// The service is restarted until a given number of restarts is used up.
    UpToCount,
    /// The service is restarted after every failure.
    Always,
}

/// What the restart policy says after a child ended in failure.
#[derive(Debug, Clone, Copy, PartialEq, Eq, Structural)]
pub enum RestartDecision {
    /// The service ends here.
    GiveUp,
    /// The service is started again; the field is the number of restarts used
    /// once this one is counted.
    Again(usize),
}

/// What the search for the log directory of a run does after it has looked
/// at one number.
#[derive(Debug, Clone, Copy, PartialEq, Eq, Structural)]
pub enum RunDirSearch {
    /// The directory with this number is not there: the run takes it.
    Take(usize),
    /// The directory looked at is there: the one with this number is looked
    /// at next.
    Look(usize),
    /// Every number is taken.
    GiveUp,
}

/// The number at which the search for the log directory of a run begins.
pub const FIRST_RUN_NUMBER: usize = 0;

impl RestartMode {
    /// The word that stands for a mode in a manifest.
    pub open spec fn spec_name(self) -> Seq<char> {
        match self {
            RestartMode::Never => "never"@,
            RestartMode::UpToCount => "up-to-count"@,
            RestartMode::Always => "always"@,
        }
    }

    /// The mode that a manifest's word stands for, if it stands for one.
    pub open spec fn spec_from_name(name: Seq<char>) -> Option<RestartMode> {
        if name == "never"@ {
            Some(RestartMode::Never)
        } else if name == "up-to-count"@ {
            Some(RestartMode::UpToCount)
        } else if name == "always"@ {
            Some(RestartMode::Always)
        } else {
            None
        }
    }

    /// The word that stands for this mode in a manifest.
    pub fn name(&self) -> (word: &'static str)
        ensures
            word@ == self.spec_name(),
    {
        match self {
            RestartMode::Never => "never",
            RestartMode::UpToCount => "up-to-count",
            RestartMode::Always => "always",
        }
    }

    /// Reads a mode from its manifest word.
    pub fn from_name(name: &str) -> (mode: Option<RestartMode>)
        ensures
            mode == RestartMode::spec_from_name(name@),
    {
        if str_eq(name, "never") {
            Some(RestartMode::Never)
        } else if str_eq(name, "up-to-count") {
            Some(RestartMode::UpToCount)
        } else if str_eq(name, "always") {
            Some(RestartMode::Always)
        } else {
            None
        }
    }

    /// Every mode is read back from the word that stands for it.
    pub proof fn lemma_name_round_trip(mode: RestartMode)
        ensures
            RestartMode::spec_from_name(mode.spec_name()) == Some(mode),
    {
        reveal_strlit("never");
        reveal_strlit("up-to-count");
        reveal_strlit("always");
        assert("never"@.len() == 5);
        assert("up-to-count"@.len() == 11);
        assert("always"@.len() == 6);
    }
}

impl Restart {
    /// What the policy says once `restarts` restarts have been used: whether
    /// the service starts again, and how many restarts are used afterwards.
    pub open spec fn spec_evaluate(self, restarts: usize) -> RestartDecision {
        match self.mode {
            RestartMode::Never => RestartDecision::GiveUp,
            RestartMode::UpToCount => if restarts >= self.count {
                RestartDecision::GiveUp
            } else {
                RestartDecision::Again((restarts + 1) as usize)
            },
            RestartMode::Always => RestartDecision::Again(restarts),
        }
    }

    /// Applies the policy after a child ended in failure, `restarts` restarts
    /// having been used so far.
    pub fn evaluate(&self, restarts: usize) -> (decision: RestartDecision)
        ensures
            decision == self.spec_evaluate(restarts),
    {
        match self.mode {
            RestartMode::Never => RestartDecision::GiveUp,
            RestartMode::UpToCount => {
                if restarts >= self.count {
                    RestartDecision::GiveUp
                } else {
                    RestartDecision::Again(restarts + 1)
                }
            },
            RestartMode::Always => RestartDecision::Again(restarts),
        }
    }
}

impl Default for RestartMode {
    fn default() -> (mode: RestartMode)
        ensures
            mode == RestartMode::Never,
    {
        RestartMode::Never
    }
}

impl Default for Restart {
    fn default() -> (restart: Restart)
        ensures
            restart == (Restart { mode: RestartMode::Never, time: 0, count: 0 }),
    {
        Restart { mode: RestartMode::Never, time: 0, count: 0 }
    }
}

impl Default for Startup {
    fn default() -> (startup: Startup)
        ensures
            startup.run_on_startup is None,
    {
        Startup { run_on_startup: None }
    }
}

impl Default for Logging {
    fn default() -> (logging: Logging)
        ensures
            logging.logs_dir is None,
    {
        Logging { logs_dir: None }
    }
}

impl Default for Settings {
    fn default() -> (settings: Settings)
        ensures
            settings.restart == (Restart { mode: RestartMode::Never, time: 0, count: 0 }),
            settings.startup.run_on_startup is None,
            settings.logging.logs_dir is None,
    {
        Settings {
            restart: Restart { mode: RestartMode::Never, time: 0, count: 0 },
            startup: Startup { run_on_startup: None },
            logging: Logging { logs_dir: None },
        }
    }
}

/// A copy of a text that may be missing.
pub fn clone_text_option(text: &Option<String>) -> (copy: Option<String>)
    ensures
        copy == *text,
{
    match text {
        Some(text) => Some(text.clone()),
        None => None,
    }
}

impl Settings {
    /// A copy of the settings.
    pub fn duplicate(&self) -> (copy: Settings)
        ensures
            copy == *self,
    {
        Settings {
            restart: self.restart,
            startup: Startup { run_on_startup: clone_text_option(&self.startup.run_on_startup) },
            logging: Logging { logs_dir: clone_text_option(&self.logging.logs_dir) },
        }
    }
}

impl Logging {
    /// The directory for the log files of one run: below the working
    /// directory, in the logs directory of the settings, the directory `logs-`
    /// with a number. A run takes the smallest number, from zero up, whose
    /// directory is not there yet.
    pub open spec fn spec_run_dir(cwd: Seq<char>, logs_dir: Seq<char>, number: nat) -> Seq<char> {
        joined(joined(cwd, logs_dir), "logs-"@ + decimal_text(number))
    }

    /// What the search does after it has looked at the directory with the
    /// number `number`, which is there or not: a directory that is not there
    /// is taken; else the next number has its turn.
    pub open spec fn spec_search_step(number: usize, there: bool) -> RunDirSearch {
        if !there {
            RunDirSearch::Take(number)
        } else if number < usize::MAX {
            RunDirSearch::Look((number + 1) as usize)
        } else {
            RunDirSearch::GiveUp
        }
    }

    /// The number that the search ends with when it begins at `from`, where
    /// `there` says of each number whether its directory is there.
    pub open spec fn search_from(there: spec_fn(usize) -> bool, from: usize) -> Option<usize>
        decreases usize::MAX - from,
    {
        match Logging::spec_search_step(from, there(from)) {
            RunDirSearch::Take(number) => Some(number),
            RunDirSearch::Look(next) => Logging::search_from(there, next),
            RunDirSearch::GiveUp => None,
        }
    }

    /// The search takes the smallest number, from where it begins, whose
    /// directory is not there: it ends with a number exactly when that number
    /// is free and every number before it, from the beginning of the search,
    /// is taken.
    pub proof fn lemma_search_takes_smallest_free(
        there: spec_fn(usize) -> bool,
        from: usize,
        number: usize,
    )
        ensures
            Logging::search_from(there, from) == Some(number) <==> from <= number && !there(number)
                && forall|k: usize| from <= k < number ==> #[trigger] there(k),
        decreases usize::MAX - from,
    {
        if there(from) && from < usize::MAX {
            let next = (from + 1) as usize;
            Logging::lemma_search_takes_smallest_free(there, next, number);
            if from <= number && !there(number) && forall|k: usize|
                from <= k < number ==> #[trigger] there(k) {
                assert(from != number);
                assert forall|k: usize| next <= k < number implies #[trigger] there(k) by {}
            }
            if Logging::search_from(there, from) == Some(number) {
                assert forall|k: usize| from <= k < number implies #[trigger] there(k) by {
                    if k != from {
                        assert(next <= k);
                    }
                }
            }
        } else if there(from) {
            if from <= number && !there(number) {
                assert(number == from);
            }
        } else {
            if from <= number && forall|k: usize| from <= k < number ==> #[trigger] there(k) {
                if from < number {
                    assert(there(from));
                }
            }
        }
    }

    /// Takes what was found at the directory with the number `number` and
    /// says how the search for the log directory of a run goes on. A search
    /// begins at `FIRST_RUN_NUMBER`.
    pub fn search_step(number: usize, there: bool) -> (step: RunDirSearch)
        ensures
            step == Logging::spec_search_step(number, there),
    {
        if !there {
            RunDirSearch::Take(number)
        } else if number < usize::MAX {
            RunDirSearch::Look(number + 1)
        } else {
            RunDirSearch::GiveUp
        }
    }

    /// The directory for the log files of the run with a given number.
    pub fn run_dir(cwd: &str, logs_dir: &str, number: usize) -> (path: String)
        ensures
            path@ == Logging::spec_run_dir(cwd@, logs_dir@, number as nat),
    {
        let base = join(cwd, logs_dir);
        let mut name = String::from_str("logs-");
        let digits = decimal(number);
        name.append(digits.as_str());
        join(base.as_str(), name.as_str())
    }

    /// The settings that a manifest's switch and path stand for: the path
    /// counts only while the switch is set.
    pub open spec fn spec_from_raw(raw: LoggingRaw) -> Logging {
        Logging { logs_dir: if raw.enable { Some(raw.logs_dir) } else { None } }
    }

    /// Reads the logging settings from the form a manifest gives them.
    pub fn from_raw(raw: LoggingRaw) -> (logging: Logging)
        ensures
            logging == Logging::spec_from_raw(raw),
    {
        if raw.enable {
            Logging { logs_dir: Some(raw.logs_dir) }
        } else {
            Logging { logs_dir: None }
        }
    }

    /// Writes the logging settings in the form a manifest gives them. Without
    /// a directory the switch is off and the path is empty.
    pub fn to_raw(&self) -> (raw: LoggingRaw)
        ensures
            raw.enable == self.logs_dir is Some,
            self.logs_dir matches Some(dir) ==> raw.logs_dir == dir,
            self.logs_dir is None ==> raw.logs_dir@ == Seq::<char>::empty(),
            Logging::spec_from_raw(raw) == *self,
    {
        match &self.logs_dir {
            Some(dir) => LoggingRaw { enable: true, logs_dir: dir.clone() },
            None => LoggingRaw { enable: false, logs_dir: String::new() },
        }
    }
}

} // verus!
