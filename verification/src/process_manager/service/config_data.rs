//! One configuration file of a service.

use vstd::prelude::*;

verus! {

/// One entry of a service's configuration: a link to place in the service's
/// configuration directory.
#[derive(Debug, Clone, PartialEq, Eq)]
pub struct ConfigData {
    /// Entries that are not enabled are passed over.
    pub enable: bool,
    /// Where the link goes, relative to the configuration directory.
    pub path: String,
    /// The absolute path that the link points at.
    pub source: String,
    /// The text that `source` holds, for information; nothing writes it.
    pub text: Option<String>,
}

/// What a configuration entry says, apart from how its texts are held in
/// memory.
pub struct ConfigDataView {
    /// Whether the entry is enabled.
    pub enable: bool,
    /// Where the link goes.
    pub path: Seq<char>,
    /// Where the link points.
    pub source: Seq<char>,
    /// The informational text.
    pub text: Option<Seq<char>>,
}

impl View for ConfigData {
    type V = ConfigDataView;

    open spec fn view(&self) -> ConfigDataView {
        ConfigDataView {
            enable: self.enable,
            path: self.path@,
            source: self.source@,
            text: match self.text {
                Some(text) => Some(text@),
                None => None,
            },
        }
    }
}

} // verus!
