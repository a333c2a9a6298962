//! The manifest: the services to supervise and the settings to supervise
//! them under, with the rules that a manifest must meet.
//!
//! A manifest is read in two steps. Turning its text into values is left to
//! whoever holds the text; the values arrive here in the plain form of
//! `ConfigRaw`, which mirrors the manifest's layout. This module checks
//! them and builds the form that the supervisor works with.

use crate::error::Error;
use crate::name_map::{
    ascending, contents, distinct_names, lemma_ascending_distinct, lemma_contents_push,
    lemma_place_unique, names, place_of, NameMap,
};
use crate::process_manager::service::{ConfigData, Process, Service, ServiceView};
use crate::process_manager::settings::{
    clone_text_option, Logging, LoggingRaw, Restart, RestartMode, Settings, Startup,
};
use crate::text::{precedes, text_bytes};
use vstd::prelude::*;
use vstd::string::StringExecFns;

verus! {

/// A service as a manifest lists it.
#[derive(Debug, Clone, PartialEq, Eq)]
pub struct ServiceRaw {
    /// The configuration entries under their keys, in any order.
    pub config_data: Vec<(String, ConfigData)>,
    /// The argument vector.
    pub argv: Vec<String>,
}

/// The restart settings as a manifest lists them.
#[derive(Debug, Clone, PartialEq, Eq)]
pub struct RestartRaw {
    /// The word for the restart mode.
    pub mode: String,
    /// Milliseconds to wait before a restart.
    pub time: u64,
    /// How many restarts `up-to-count` grants.
    pub count: usize,
}

/// The settings as a manifest lists them.
#[derive(Debug, Clone, PartialEq, Eq)]
pub struct SettingsRaw {
    /// The restart settings.
    pub restart: RestartRaw,
    /// The startup settings.
    pub startup: Startup,
    /// The logging settings.
    pub logging: LoggingRaw,
}

/// A manifest as it is listed.
#[derive(Debug, Clone, PartialEq, Eq)]
pub struct ConfigRaw {
    /// The services under their names, in any order.
    pub services: Vec<(String, ServiceRaw)>,
    /// The settings.
    pub settings: SettingsRaw,
}

/// A manifest that has been checked.
#[derive(Debug, PartialEq, Eq)]
pub struct Config {
    /// The services under their names.
    pub services: NameMap<Service>,
    /// The settings.
    pub settings: Settings,
}

impl View for ServiceRaw {
    type V = ServiceView;

    open spec fn view(&self) -> ServiceView {
        ServiceView {
            config_data: contents(self.config_data@).map_values(|entry: ConfigData| entry@),
            argv: self.argv@.map_values(|word: String| word@),
        }
    }
}

/// What is wrong with the configuration entries of a service, if anything:
/// the first key, in the order listed, that an earlier entry carries too.
pub open spec fn config_problem(entries: Seq<(String, ConfigData)>) -> Option<Error>
    decreases entries.len(),
{
    if entries.len() == 0 {
        None
    } else {
        match config_problem(entries.drop_last()) {
            Some(problem) => Some(problem),
            None => if names(entries.drop_last(), entries.last().0@) {
                Some(Error::DuplicateConfigKey(entries.last().0))
            } else {
                None
            },
        }
    }
}

/// What is wrong with a service that is listed after `earlier`, if anything:
/// an empty name, a name that an earlier service carries, an empty argument
/// vector, or a problem of its configuration entries, whichever comes first
/// in this order.
pub open spec fn service_problem(
    earlier: Seq<(String, ServiceRaw)>,
    name: String,
    service: ServiceRaw,
) -> Option<Error> {
    if name@.len() == 0 {
        Some(Error::EmptyServiceName)
    } else if names(earlier, name@) {
        Some(Error::DuplicateService(name))
    } else if service.argv@.len() == 0 {
        Some(Error::EmptyArgv(name))
    } else {
        config_problem(service.config_data@)
    }
}

/// What is wrong with the services of a manifest, if anything: the problem
/// of the first service, in the order listed, that has one.
pub open spec fn services_problem(services: Seq<(String, ServiceRaw)>) -> Option<Error>
    decreases services.len(),
{
    if services.len() == 0 {
        None
    } else {
        match services_problem(services.drop_last()) {
            Some(problem) => Some(problem),
            None => service_problem(services.drop_last(), services.last().0, services.last().1),
        }
    }
}

/// What is wrong with a manifest, if anything: an unknown restart mode, or
/// else the problem of its services.
pub open spec fn manifest_problem(raw: ConfigRaw) -> Option<Error> {
    if RestartMode::spec_from_name(raw.settings.restart.mode@) is None {
        Some(Error::UnknownRestartMode(raw.settings.restart.mode))
    } else {
        services_problem(raw.services@)
    }
}

/// The settings that a manifest lists, once its restart mode is known.
pub open spec fn settings_of(raw: SettingsRaw, mode: RestartMode) -> Settings {
    Settings {
        restart: Restart { mode, time: raw.restart.time, count: raw.restart.count },
        startup: raw.startup,
        logging: Logging::spec_from_raw(raw.logging),
    }
}

/// What the services of a manifest say, under their names.
pub open spec fn services_view(services: Seq<(String, ServiceRaw)>) -> Map<
    Seq<char>,
    ServiceView,
> {
    contents(services).map_values(|service: ServiceRaw| service@)
}

/// A manifest without a problem is one that meets the rules: its restart
/// mode is known, its services carry distinct names, none of them empty, and
/// every service has an executable and distinct configuration keys.
pub open spec fn meets_rules(raw: ConfigRaw) -> bool {
    &&& RestartMode::spec_from_name(raw.settings.restart.mode@) is Some
    &&& distinct_names(raw.services@)
    &&& forall|i: int|
        0 <= i < raw.services@.len() ==> {
            &&& (#[trigger] raw.services@[i]).0@.len() > 0
            &&& raw.services@[i].1.argv@.len() > 0
            &&& distinct_names(raw.services@[i].1.config_data@)
        }
}

/// Configuration entries without a problem carry distinct keys, and the
/// other way round.
pub proof fn lemma_config_problem(entries: Seq<(String, ConfigData)>)
    ensures
        config_problem(entries) is None <==> distinct_names(entries),
    decreases entries.len(),
{
    if entries.len() > 0 {
        let front = entries.drop_last();
        lemma_config_problem(front);
        if config_problem(entries) is None {
            assert forall|i: int, j: int| 0 <= i < j < entries.len() implies (
            #[trigger] entries[i]).0@ != (#[trigger] entries[j]).0@ by {
                if j == entries.len() - 1 {
                    if entries[i].0@ == entries[j].0@ {
                        assert(front[i].0@ == entries.last().0@);
                    }
                } else {
                    assert(front[i] == entries[i] && front[j] == entries[j]);
                }
            }
        }
        if distinct_names(entries) {
            assert forall|i: int, j: int| 0 <= i < j < front.len() implies (#[trigger] front[i]).0@
                != (#[trigger] front[j]).0@ by {
                assert(front[i] == entries[i] && front[j] == entries[j]);
            }
            if names(front, entries.last().0@) {
                let i = choose|i: int| 0 <= i < front.len() && #[trigger] front[i].0@
                    == entries.last().0@;
                assert(entries[i].0@ != entries[entries.len() - 1].0@);
            }
        }
    }
}

/// Services without a problem meet the rules, and the other way round.
pub proof fn lemma_services_problem(services: Seq<(String, ServiceRaw)>)
    ensures
        services_problem(services) is None <==> {
            &&& distinct_names(services)
            &&& forall|i: int|
                0 <= i < services.len() ==> {
                    &&& (#[trigger] services[i]).0@.len() > 0
                    &&& services[i].1.argv@.len() > 0
                    &&& distinct_names(services[i].1.config_data@)
                }
        },
    decreases services.len(),
{
    if services.len() > 0 {
        let front = services.drop_last();
        let last = services.last();
        lemma_services_problem(front);
        lemma_config_problem(last.1.config_data@);
        if services_problem(services) is None {
            assert forall|i: int, j: int| 0 <= i < j < services.len() implies (
            #[trigger] services[i]).0@ != (#[trigger] services[j]).0@ by {
                if j == services.len() - 1 {
                    if services[i].0@ == services[j].0@ {
                        assert(front[i].0@ == last.0@);
                    }
                } else {
                    assert(front[i] == services[i] && front[j] == services[j]);
                }
            }
            assert forall|i: int| 0 <= i < services.len() implies {
                &&& (#[trigger] services[i]).0@.len() > 0
                &&& services[i].1.argv@.len() > 0
                &&& distinct_names(services[i].1.config_data@)
            } by {
                if i < front.len() {
                    assert(front[i] == services[i]);
                }
            }
        }
        if distinct_names(services) && (forall|i: int|
            0 <= i < services.len() ==> {
                &&& (#[trigger] services[i]).0@.len() > 0
                &&& services[i].1.argv@.len() > 0
                &&& distinct_names(services[i].1.config_data@)
            }) {
            assert forall|i: int, j: int| 0 <= i < j < front.len() implies (#[trigger] front[i]).0@
                != (#[trigger] front[j]).0@ by {
                assert(front[i] == services[i] && front[j] == services[j]);
            }
            assert forall|i: int| 0 <= i < front.len() implies {
                &&& (#[trigger] front[i]).0@.len() > 0
                &&& front[i].1.argv@.len() > 0
                &&& distinct_names(front[i].1.config_data@)
            } by {
                assert(front[i] == services[i]);
            }
            assert(services[services.len() - 1] == last);
            if names(front, last.0@) {
                let i = choose|i: int| 0 <= i < front.len() && #[trigger] front[i].0@ == last.0@;
                assert(services[i].0@ != services[services.len() - 1].0@);
            }
        }
    }
}

/// A manifest has no problem exactly when it meets the rules.
pub proof fn lemma_no_problem_iff_rules_met(raw: ConfigRaw)
    ensures
        manifest_problem(raw) is None <==> meets_rules(raw),
{
    lemma_services_problem(raw.services@);
}

/// A copy of a configuration entry.
pub fn clone_config_data(entry: &ConfigData) -> (copy: ConfigData)
    ensures
        copy == *entry,
{
    ConfigData {
        enable: entry.enable,
        path: entry.path.clone(),
        source: entry.source.clone(),
        text: clone_text_option(&entry.text),
    }
}

/// A copy of a list of texts.
pub fn clone_texts(texts: &Vec<String>) -> (copy: Vec<String>)
    ensures
        copy@ == texts@,
{
    let mut copy: Vec<String> = Vec::new();
    let mut i: usize = 0;
    while i < texts.len()
        invariant
            i <= texts@.len(),
            copy@ == texts@.take(i as int),
        decreases texts@.len() - i,
    {
        copy.push(texts[i].clone());
        assert(copy@ =~= texts@.take(i as int + 1));
        i += 1;
    }
    assert(texts@.take(i as int) =~= texts@);
    copy
}

impl Service {
    /// The service as a manifest lists it.
    pub fn to_raw(&self) -> (raw: ServiceRaw)
        ensures
            raw@ == self@,
            raw.config_data@ == self.config_data.entries(),
            raw.argv@ == self.process.argv(),
            raw.argv@.len() > 0,
            distinct_names(raw.config_data@),
    {
        let mut config_data: Vec<(String, ConfigData)> = Vec::new();
        let n = self.config_data.len();
        let mut i: usize = 0;
        while i < n
            invariant
                n == self.config_data.entries().len(),
                i <= n,
                config_data@ == self.config_data.entries().take(i as int),
            decreases n - i,
        {
            config_data.push(
                (self.config_data.name_at(i).clone(), clone_config_data(self.config_data.value_at(i))),
            );
            assert(config_data@ =~= self.config_data.entries().take(i as int + 1));
            i += 1;
        }
        proof {
            assert(self.config_data.entries().take(i as int) =~= self.config_data.entries());
            lemma_ascending_distinct(self.config_data.entries());
        }
        ServiceRaw { config_data, argv: clone_texts(self.process.argv_list()) }
    }
}

impl Config {
    /// The manifest was read from this listing: it holds what the listing
    /// says.
    pub open spec fn read_from(&self, raw: ConfigRaw) -> bool {
        &&& RestartMode::spec_from_name(raw.settings.restart.mode@) is Some
        &&& self.services.deep() == services_view(raw.services@)
        &&& self.settings == settings_of(
            raw.settings,
            RestartMode::spec_from_name(raw.settings.restart.mode@)->0,
        )
    }

    /// The listing lists this manifest: it says what the manifest holds,
    /// each service once.
    pub open spec fn listed_as(&self, raw: ConfigRaw) -> bool {
        &&& RestartMode::spec_from_name(raw.settings.restart.mode@) == Some(
            self.settings.restart.mode,
        )
        &&& services_view(raw.services@) == self.services.deep()
        &&& settings_of(raw.settings, self.settings.restart.mode) == self.settings
        &&& distinct_names(raw.services@)
        &&& forall|i: int|
            0 <= i < raw.services@.len() ==> {
                &&& (#[trigger] raw.services@[i]).0 == self.services.entries()[i].0
                &&& raw.services@[i].1.argv@.len() > 0
                &&& distinct_names(raw.services@[i].1.config_data@)
            }
        &&& raw.services@.len() == self.services.entries().len()
    }

    /// A manifest that is listed and read again is the manifest it was: the
    /// listing of a manifest whose services carry names meets the rules, and
    /// whatever is read from it holds the same services and the same
    /// settings.
    pub proof fn lemma_round_trip(self, raw: ConfigRaw, again: Config)
        requires
            self.names_not_empty(),
            self.listed_as(raw),
            again.read_from(raw),
        ensures
            meets_rules(raw),
            manifest_problem(raw) is None,
            again.services.deep() == self.services.deep(),
            again.settings == self.settings,
    {
        lemma_no_problem_iff_rules_met(raw);
    }

    /// The manifest as it is listed: the services in ascending order of
    /// their names, the restart mode by its word, the logging settings as a
    /// switch beside a path.
    pub fn to_raw(&self) -> (raw: ConfigRaw)
        ensures
            self.listed_as(raw),
    {
        let mut services: Vec<(String, ServiceRaw)> = Vec::new();
        let n = self.services.len();
        let mut i: usize = 0;
        while i < n
            invariant
                n == self.services.entries().len(),
                i <= n,
                services@.len() == i,
                forall|k: int|
                    0 <= k < i ==> {
                        &&& (#[trigger] services@[k]).0 == self.services.entries()[k].0
                        &&& services@[k].1@ == self.services.entries()[k].1@
                        &&& services@[k].1.argv@.len() > 0
                        &&& distinct_names(services@[k].1.config_data@)
                    },
            decreases n - i,
        {
            let ghost before = services@;
            let name = self.services.name_at(i).clone();
            let service = self.services.value_at(i).to_raw();
            services.push((name, service));
            assert forall|k: int| 0 <= k < i + 1 implies {
                &&& (#[trigger] services@[k]).0 == self.services.entries()[k].0
                &&& services@[k].1@ == self.services.entries()[k].1@
                &&& services@[k].1.argv@.len() > 0
                &&& distinct_names(services@[k].1.config_data@)
            } by {
                if k < i {
                    assert(services@[k] == before[k]);
                }
            }
            i += 1;
        }
        let mode = self.settings.restart.mode;
        let raw = ConfigRaw {
            services,
            settings: SettingsRaw {
                restart: RestartRaw {
                    mode: String::from_str(mode.name()),
                    time: self.settings.restart.time,
                    count: self.settings.restart.count,
                },
                startup: Startup {
                    run_on_startup: clone_text_option(&self.settings.startup.run_on_startup),
                },
                logging: self.settings.logging.to_raw(),
            },
        };
        proof {
            RestartMode::lemma_name_round_trip(mode);
            let listed = raw.services@;
            let held = self.services.entries();
            assert(ascending(listed)) by {
                assert forall|a: int, b: int| 0 <= a < b < listed.len() implies precedes(
                    text_bytes(#[trigger] listed[a].0@),
                    text_bytes(#[trigger] listed[b].0@),
                ) by {
                    assert(listed[a].0 == held[a].0);
                    assert(listed[b].0 == held[b].0);
                }
            }
            lemma_ascending_distinct(listed);
            assert forall|name: Seq<char>| names(listed, name) <==> names(held, name) by {
                if names(listed, name) {
                    let k = place_of(listed, name);
                    assert(held[k].0@ == name);
                }
                if names(held, name) {
                    let k = place_of(held, name);
                    assert(listed[k].0@ == name);
                }
            }
            assert forall|name: Seq<char>| names(listed, name) implies services_view(
                listed,
            )[name] == self.services.deep()[name] by {
                let k = place_of(listed, name);
                lemma_place_unique(listed, k);
                assert(held[k].0@ == name);
                lemma_place_unique(held, k);
            }
            assert(services_view(listed) =~= self.services.deep());
        }
        raw
    }

    /// Every service of the manifest carries a name that is not empty.
    pub open spec fn names_not_empty(&self) -> bool {
        forall|i: int|
            0 <= i < self.services.entries().len() ==> (
            #[trigger] self.services.entries()[i]).0@.len() > 0
    }

    /// The configuration entries of a listed service, under their keys; or
    /// the first key that is listed twice.
    fn check_config_data(entries: &Vec<(String, ConfigData)>) -> (checked: Result<
        NameMap<ConfigData>,
        Error,
    >)
        ensures
            checked is Ok == config_problem(entries@) is None,
            checked matches Err(e) ==> Some(e) == config_problem(entries@),
            checked matches Ok(map) ==> map.deep() == contents(entries@).map_values(
                |entry: ConfigData| entry@,
            ),
    {
        let mut map: NameMap<ConfigData> = NameMap::new();
        let mut i: usize = 0;
        while i < entries.len()
            invariant
                i <= entries@.len(),
                config_problem(entries@.take(i as int)) is None,
                distinct_names(entries@.take(i as int)),
                map@ == contents(entries@.take(i as int)),
                forall|name: Seq<char>|
                    map@.dom().contains(name) <==> names(entries@.take(i as int), name),
            decreases entries@.len() - i,
        {
            let ghost done = entries@.take(i as int);
            let ghost more = entries@.take(i as int + 1);
            let key = &entries[i].0;
            proof {
                assert(more.drop_last() =~= done);
                assert(more.last() == entries@[i as int]);
            }
            if map.contains_key(key.as_str()) {
                proof {
                    lemma_problem_stays(entries@, i as int + 1);
                }
                return Err(Error::DuplicateConfigKey(key.clone()));
            }
            map.insert(key.clone(), clone_config_data(&entries[i].1));
            proof {
                lemma_contents_push(done, entries@[i as int].0, entries@[i as int].1);
                assert(more =~= done.push(entries@[i as int]));
            }
            i += 1;
        }
        assert(entries@.take(i as int) =~= entries@);
        Ok(map)
    }

    /// A listed service in the form that the supervisor works with; or what
    /// is wrong with it.
    fn check_service(
        earlier: &NameMap<Service>,
        name: &String,
        service: &ServiceRaw,
        Ghost(listed): Ghost<Seq<(String, ServiceRaw)>>,
    ) -> (checked: Result<Service, Error>)
        requires
            forall|other: Seq<char>| earlier@.dom().contains(other) <==> names(listed, other),
        ensures
            checked is Ok == service_problem(listed, *name, *service) is None,
            checked matches Err(e) ==> Some(e) == service_problem(listed, *name, *service),
            checked matches Ok(s) ==> s@ == service@,
    {
        if name.as_str().is_empty() {
            return Err(Error::EmptyServiceName);
        }
        if earlier.contains_key(name.as_str()) {
            return Err(Error::DuplicateService(name.clone()));
        }
        let process = match Process::new(clone_texts(&service.argv)) {
            Some(process) => process,
            None => {
                return Err(Error::EmptyArgv(name.clone()));
            },
        };
        let config_data = match Config::check_config_data(&service.config_data) {
            Ok(config_data) => config_data,
            Err(e) => {
                return Err(e);
            },
        };
        Ok(Service { config_data, process })
    }

    /// Checks a listed manifest and builds the form that the supervisor
    /// works with. It succeeds exactly on the manifests that meet the rules,
    /// and else names the first problem: an unknown restart mode, before the
    /// problem of the first service, in the order listed, that has one.
    pub fn from_raw(raw: &ConfigRaw) -> (config: Result<Config, Error>)
        ensures
            config is Ok == manifest_problem(*raw) is None,
            config is Ok == meets_rules(*raw),
            config matches Err(e) ==> Some(e) == manifest_problem(*raw),
            config matches Ok(c) ==> {
                &&& c.read_from(*raw)
                &&& c.names_not_empty()
                &&& c.services.entries().len() == raw.services@.len()
            },
    {
        proof {
            lemma_no_problem_iff_rules_met(*raw);
        }
        let mode = match RestartMode::from_name(raw.settings.restart.mode.as_str()) {
            Some(mode) => mode,
            None => {
                return Err(Error::UnknownRestartMode(raw.settings.restart.mode.clone()));
            },
        };
        let mut services: NameMap<Service> = NameMap::new();
        let mut i: usize = 0;
        while i < raw.services.len()
            invariant
                i <= raw.services@.len(),
                services_problem(raw.services@.take(i as int)) is None,
                distinct_names(raw.services@.take(i as int)),
                services.deep() == services_view(raw.services@.take(i as int)),
                forall|name: Seq<char>|
                    services@.dom().contains(name) <==> names(raw.services@.take(i as int), name),
                forall|k: int|
                    0 <= k < services.entries().len() ==> (#[trigger] services.entries()[k]).0@.len()
                        > 0,
                services.entries().len() == i,
                services.well_formed(),
                RestartMode::spec_from_name(raw.settings.restart.mode@) is Some,
                manifest_problem(*raw) is None <==> meets_rules(*raw),
            decreases raw.services@.len() - i,
        {
            let ghost done = raw.services@.take(i as int);
            let ghost more = raw.services@.take(i as int + 1);
            let ghost before = services;
            let name = &raw.services[i].0;
            proof {
                assert(more.drop_last() =~= done);
                assert(more.last() == raw.services@[i as int]);
            }
            let service = match Config::check_service(
                &services,
                name,
                &raw.services[i].1,
                Ghost(done),
            ) {
                Ok(service) => service,
                Err(e) => {
                    proof {
                        lemma_services_problem_stays(raw.services@, i as int + 1);
                    }
                    return Err(e);
                },
            };
            services.insert(name.clone(), service);
            proof {
                lemma_contents_push(done, raw.services@[i as int].0, raw.services@[i as int].1);
                assert(more =~= done.push(raw.services@[i as int]));
                assert(services.deep() =~= before.deep().insert(name@, service@));
                assert(services_view(more) =~= services_view(done).insert(
                    name@,
                    raw.services@[i as int].1@,
                ));
                lemma_insert_new_entry(before, services, *name);
            }
            i += 1;
        }
        assert(raw.services@.take(i as int) =~= raw.services@);
        Ok(
            Config {
                services,
                settings: Settings {
                    restart: Restart {
                        mode,
                        time: raw.settings.restart.time,
                        count: raw.settings.restart.count,
                    },
                    startup: Startup {
                        run_on_startup: clone_text_option(&raw.settings.startup.run_on_startup),
                    },
                    logging: Logging::from_raw(
                        LoggingRaw {
                            enable: raw.settings.logging.enable,
                            logs_dir: raw.settings.logging.logs_dir.clone(),
                        },
                    ),
                },
            },
        )
    }
}

/// A problem among the first entries is the problem of the whole list.
proof fn lemma_problem_stays(entries: Seq<(String, ConfigData)>, k: int)
    requires
        0 <= k <= entries.len(),
        config_problem(entries.take(k)) is Some,
    ensures
        config_problem(entries) == config_problem(entries.take(k)),
    decreases entries.len() - k,
{
    if k < entries.len() {
        assert(entries.take(k + 1).drop_last() =~= entries.take(k));
        lemma_problem_stays(entries, k + 1);
    } else {
        assert(entries.take(k) =~= entries);
    }
}

/// A problem among the first services is the problem of the whole list.
proof fn lemma_services_problem_stays(services: Seq<(String, ServiceRaw)>, k: int)
    requires
        0 <= k <= services.len(),
        services_problem(services.take(k)) is Some,
    ensures
        services_problem(services) == services_problem(services.take(k)),
    decreases services.len() - k,
{
    if k < services.len() {
        assert(services.take(k + 1).drop_last() =~= services.take(k));
        lemma_services_problem_stays(services, k + 1);
    } else {
        assert(services.take(k) =~= services);
    }
}

/// After an entry was added under a new name, the map has one entry more,
/// and every name of the map is the new one or a name that was there before.
proof fn lemma_insert_new_entry<T>(before: NameMap<T>, after: NameMap<T>, name: String)
    requires
        before.well_formed(),
        after.well_formed(),
        !before@.dom().contains(name@),
        exists|value: T| after@ == before@.insert(name@, value),
    ensures
        after.entries().len() == before.entries().len() + 1,
        forall|k: int|
            0 <= k < after.entries().len() ==> (#[trigger] after.entries()[k]).0@ == name@ || names(
                before.entries(),
                after.entries()[k].0@,
            ),
{
    let a = after.entries();
    let b = before.entries();
    assert forall|k: int| 0 <= k < a.len() implies (#[trigger] a[k]).0@ == name@ || names(
        b,
        a[k].0@,
    ) by {
        lemma_place_unique(a, k);
        assert(after@.dom().contains(a[k].0@));
    }
    lemma_ascending_distinct(a);
    lemma_ascending_distinct(b);
    lemma_len_is_domain_size(a);
    lemma_len_is_domain_size(b);
}

/// A sequence with distinct names has as many entries as its map has
/// names.
proof fn lemma_len_is_domain_size<T>(entries: Seq<(String, T)>)
    requires
        distinct_names(entries),
    ensures
        contents(entries).dom().finite(),
        contents(entries).dom().len() == entries.len(),
    decreases entries.len(),
{
    if entries.len() == 0 {
        assert(contents(entries).dom() =~= Set::<Seq<char>>::empty());
    } else {
        let front = entries.drop_last();
        let last = entries.last();
        assert forall|i: int, j: int| 0 <= i < j < front.len() implies (#[trigger] front[i]).0@ != (
        #[trigger] front[j]).0@ by {
            assert(front[i] == entries[i] && front[j] == entries[j]);
        }
        lemma_len_is_domain_size(front);
        if names(front, last.0@) {
            let i = choose|i: int| 0 <= i < front.len() && #[trigger] front[i].0@ == last.0@;
            assert(entries[i].0@ != entries[entries.len() - 1].0@);
        }
        lemma_contents_push(front, last.0, last.1);
        assert(entries =~= front.push(last));
        assert(contents(entries).dom() =~= contents(front).dom().insert(last.0@));
    }
}

} // verus!
