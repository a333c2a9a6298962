//! A supervised service: its configuration files and its command line.

use crate::name_map::NameMap;
use vstd::prelude::*;

pub mod config_data;
pub mod process;

pub use config_data::{ConfigData, ConfigDataView};
pub use process::Process;

verus! {

/// The configuration entries of a service under their keys.
pub type ConfigDataMap = NameMap<ConfigData>;

/// One declared long-running program with its configuration files.
#[derive(Debug, PartialEq, Eq)]
pub struct Service {
    /// The configuration files of the service, under opaque keys.
    pub config_data: ConfigDataMap,
    /// The command line of the service.
    pub process: Process,
}

/// What a service says, apart from how its texts are held in memory.
pub struct ServiceView {
    /// The configuration entries under their keys.
    pub config_data: Map<Seq<char>, ConfigDataView>,
    /// The argument vector.
    pub argv: Seq<Seq<char>>,
}

impl View for Service {
    type V = ServiceView;

    open spec fn view(&self) -> ServiceView {
        ServiceView {
            config_data: self.config_data.deep(),
            argv: self.process.argv().map_values(|word: String| word@),
        }
    }
}

} // verus!
