//! What the program does with the manifest it was pointed at.

use crate::config::{manifest_problem, Config, ConfigRaw};
use crate::error::Error;
use crate::process_manager::{in_phase, ProcessManager, SessionPhase};
use vstd::prelude::*;

verus! {

/// What the program was asked to do.
#[derive(Debug, Clone, Copy, PartialEq, Eq, Structural)]
pub enum Command {
    /// Check the manifest and stop.
    Validate,
    /// Run the services of the manifest.
    Run,
}

/// The command line: the path of the manifest and what to do with it.
#[derive(Debug, Clone, PartialEq, Eq)]
pub struct Cli {
    /// The path of the manifest.
    pub config: String,
    /// What to do with the manifest.
    pub command: Command,
}

/// What follows from a command line and the manifest it names.
#[derive(Debug, PartialEq, Eq)]
pub enum CliOutcome {
    /// The manifest is in order; nothing is run.
    Validated,
    /// The services are to be run by this orchestrator.
    Launch(ProcessManager),
}

impl Cli {
    /// What is logged when a manifest was found in order.
    pub fn validated_message() -> (message: &'static str)
        ensures
            message@ == "successfully validated nimi config"@,
    {
        "successfully validated nimi config"
    }

    /// Decides what to do, given what reading the manifest came to: the
    /// listed manifest, or the reason why there is none. A manifest that
    /// could not be read, or that does not meet the rules, is an error under
    /// either command. A manifest in order is reported as such under
    /// `Validate` and handed to an orchestrator under `Run`.
    pub fn run(self, manifest: Result<ConfigRaw, String>) -> (outcome: Result<CliOutcome, Error>)
        ensures
            match manifest {
                Err(reason) => outcome == Err::<CliOutcome, Error>(Error::Manifest(reason)),
                Ok(raw) => match manifest_problem(raw) {
                    Some(problem) => outcome == Err::<CliOutcome, Error>(problem),
                    None => match self.command {
                        Command::Validate => outcome == Ok::<CliOutcome, Error>(
                            CliOutcome::Validated,
                        ),
                        Command::Run => outcome matches Ok(CliOutcome::Launch(manager))
                            && manager.state() == in_phase(SessionPhase::Created)
                            && manager.settings().restart.time == raw.settings.restart.time
                            && manager.total() == raw.services@.len() && exists|config: Config|
                            config.read_from(raw) && manager.services() == config.services
                                && manager.settings() == config.settings,
                    },
                },
            },
    {
        let raw = match manifest {
            Ok(raw) => raw,
            Err(reason) => {
                return Err(Error::Manifest(reason));
            },
        };
        let config = match Config::from_raw(&raw) {
            Ok(config) => config,
            Err(problem) => {
                return Err(problem);
            },
        };
        match self.command {
            Command::Validate => Ok(CliOutcome::Validated),
            Command::Run => Ok(
                CliOutcome::Launch(ProcessManager::new(config.services, config.settings)),
            ),
        }
    }
}

} // verus!
