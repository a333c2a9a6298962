//! The configuration directory of a service: a directory of links whose name
//! is a digest of the configuration it holds.
//!
//! The name is taken from a canonical text of the configuration: a JSON
//! object with one member for each entry, in ascending byte order of the
//! entries' keys; each member is an object with the members `enable`, `path`,
//! `source` and `text`, in that order, without white space. Texts are written
//! as JSON string literals, a missing `text` as `null`. The directory is named
//! `nimi-config-` followed by the SHA-256 digest of that text in lowercase
//! hexadecimal. Equal configurations therefore get the same directory,
//! however they were put together.

use crate::digest::{hex_lower, hex_text, sha256, sha256_digest};
use crate::error::{ConfigFailure, Error};
use crate::json::{json_string, json_string_literal};
use crate::name_map::lemma_ascending_canonical;
use crate::path::{join, joined};
use crate::process_manager::service::{ConfigData, ConfigDataMap, ConfigDataView};
use crate::text::{append_bytes, text_bytes};
use vstd::prelude::*;
use vstd::string::{StringExecFns, StringSliceAdditionalSpecFns};

verus! {

/// The canonical text of one entry, given the string literals of its texts.
pub open spec fn entry_frame(
    enable: bool,
    path_literal: Seq<u8>,
    source_literal: Seq<u8>,
    text_literal: Option<Seq<u8>>,
) -> Seq<u8> {
    text_bytes("{\"enable\":"@) + text_bytes(
        if enable {
            "true"@
        } else {
            "false"@
        },
    ) + text_bytes(",\"path\":"@) + path_literal + text_bytes(",\"source\":"@) + source_literal
        + text_bytes(",\"text\":"@) + (match text_literal {
        Some(literal) => literal,
        None => text_bytes("null"@),
    }) + text_bytes("}"@)
}

/// The canonical text of one entry.
pub open spec fn entry_text(entry: ConfigDataView) -> Seq<u8> {
    entry_frame(
        entry.enable,
        json_string_literal(entry.path),
        json_string_literal(entry.source),
        match entry.text {
            Some(text) => Some(json_string_literal(text)),
            None => None,
        },
    )
}

/// What one more member adds to the members written so far: a comma unless
/// it is the first, the key's literal, a colon, and the entry's text.
pub open spec fn member_frame(first: bool, key_literal: Seq<u8>, entry: Seq<u8>) -> Seq<u8> {
    (if first {
        Seq::<u8>::empty()
    } else {
        text_bytes(","@)
    }) + key_literal + text_bytes(":"@) + entry
}

/// The members of the canonical text, for entries in the order given.
pub open spec fn members_text(entries: Seq<(String, ConfigData)>) -> Seq<u8>
    decreases entries.len(),
{
    if entries.len() == 0 {
        Seq::<u8>::empty()
    } else {
        members_text(entries.drop_last()) + member_frame(
            entries.len() == 1,
            json_string_literal(entries.last().0@),
            entry_text(entries.last().1@),
        )
    }
}

/// The canonical text of a configuration whose entries are given in
/// ascending order of their keys.
pub open spec fn canonical_text(entries: Seq<(String, ConfigData)>) -> Seq<u8> {
    text_bytes("{"@) + members_text(entries) + text_bytes("}"@)
}

/// The directory name for a digest.
pub open spec fn name_for_digest(digest: Seq<u8>) -> Seq<char> {
    "nimi-config-"@ + hex_text(digest)
}

/// The directory name of a configuration whose entries are given in
/// ascending order of their keys.
pub open spec fn directory_name(entries: Seq<(String, ConfigData)>) -> Seq<char> {
    name_for_digest(sha256(canonical_text(entries)))
}

/// The members' text depends on what the entries say, not on how their
/// texts are held in memory.
pub proof fn lemma_members_text_by_view(
    a: Seq<(String, ConfigData)>,
    b: Seq<(String, ConfigData)>,
)
    requires
        a.len() == b.len(),
        forall|i: int| 0 <= i < a.len() ==> #[trigger] a[i].0@ == b[i].0@ && a[i].1@ == b[i].1@,
    ensures
        members_text(a) == members_text(b),
    decreases a.len(),
{
    if a.len() > 0 {
        let last = a.len() - 1;
        assert(a[last].0@ == b[last].0@ && a[last].1@ == b[last].1@);
        assert forall|i: int| 0 <= i < a.drop_last().len() implies #[trigger] a.drop_last()[i].0@
            == b.drop_last()[i].0@ && a.drop_last()[i].1@ == b.drop_last()[i].1@ by {
            assert(a[i].0@ == b[i].0@ && a[i].1@ == b[i].1@);
        }
        lemma_members_text_by_view(a.drop_last(), b.drop_last());
    }
}

/// Configurations that say the same get the same directory name: the name
/// depends on the keys and on what stands under each key, and on nothing
/// else, in particular not on the order in which the entries were added.
pub proof fn lemma_same_payload_same_name(a: ConfigDataMap, b: ConfigDataMap)
    requires
        a.well_formed(),
        b.well_formed(),
        a.deep() == b.deep(),
    ensures
        canonical_text(a.entries()) == canonical_text(b.entries()),
        directory_name(a.entries()) == directory_name(b.entries()),
{
    lemma_ascending_canonical(a.entries(), b.entries(), |value: ConfigData| value@);
    lemma_members_text_by_view(a.entries(), b.entries());
}

/// Frames the canonical text of one entry around the string literals of its
/// texts.
pub fn entry_bytes(
    enable: bool,
    path_literal: &[u8],
    source_literal: &[u8],
    text_literal: &Option<Vec<u8>>,
) -> (bytes: Vec<u8>)
    ensures
        bytes@ == entry_frame(
            enable,
            path_literal@,
            source_literal@,
            match text_literal {
                Some(literal) => Some(literal@),
                None => None,
            },
        ),
{
    let mut bytes: Vec<u8> = Vec::new();
    append_bytes(&mut bytes, "{\"enable\":".as_bytes());
    if enable {
        append_bytes(&mut bytes, "true".as_bytes());
    } else {
        append_bytes(&mut bytes, "false".as_bytes());
    }
    append_bytes(&mut bytes, ",\"path\":".as_bytes());
    append_bytes(&mut bytes, path_literal);
    append_bytes(&mut bytes, ",\"source\":".as_bytes());
    append_bytes(&mut bytes, source_literal);
    append_bytes(&mut bytes, ",\"text\":".as_bytes());
    match text_literal {
        Some(literal) => {
            append_bytes(&mut bytes, literal.as_slice());
        },
        None => {
            append_bytes(&mut bytes, "null".as_bytes());
        },
    }
    append_bytes(&mut bytes, "}".as_bytes());
    assert(bytes@ =~= entry_frame(
        enable,
        path_literal@,
        source_literal@,
        match text_literal {
            Some(literal) => Some(literal@),
            None => None,
        },
    ));
    bytes
}

/// Appends one member to the members written so far.
pub fn push_member(out: &mut Vec<u8>, first: bool, key_literal: &[u8], entry: &[u8])
    ensures
        final(out)@ == old(out)@ + member_frame(first, key_literal@, entry@),
{
    if !first {
        append_bytes(out, ",".as_bytes());
    }
    append_bytes(out, key_literal);
    append_bytes(out, ":".as_bytes());
    append_bytes(out, entry);
    assert(out@ =~= old(out)@ + member_frame(first, key_literal@, entry@));
}

/// The string literal of a text. The serializer's failure would come back
/// as this crate's error; it takes every text.
fn literal_of(text: &str) -> (literal: Result<Vec<u8>, Error>)
    ensures
        literal matches Ok(bytes) && bytes@ == json_string_literal(text@),
{
    match json_string(text) {
        Ok(bytes) => Ok(bytes),
        Err(message) => Err(Error::Serialization(message)),
    }
}

/// The canonical text of one entry.
fn entry_canonical(entry: &ConfigData) -> (bytes: Result<Vec<u8>, Error>)
    ensures
        bytes matches Ok(b) && b@ == entry_text(entry@),
{
    let path_literal = match literal_of(entry.path.as_str()) {
        Ok(literal) => literal,
        Err(e) => {
            return Err(e);
        },
    };
    let source_literal = match literal_of(entry.source.as_str()) {
        Ok(literal) => literal,
        Err(e) => {
            return Err(e);
        },
    };
    let text_literal = match &entry.text {
        Some(text) => match literal_of(text.as_str()) {
            Ok(literal) => Some(literal),
            Err(e) => {
                return Err(e);
            },
        },
        None => None,
    };
    Ok(entry_bytes(entry.enable, path_literal.as_slice(), source_literal.as_slice(), &text_literal))
}

/// One link of a configuration directory.
#[derive(Debug, Clone, PartialEq, Eq)]
pub struct ConfigLink {
    /// The entry's path, relative to the configuration directory.
    pub path: String,
    /// The absolute path that the link points at.
    pub source: String,
    /// Where the link is placed: the entry's path adjoined to the directory.
    pub location: String,
}

/// What a link says, apart from how its texts are held in memory.
pub struct ConfigLinkView {
    /// The entry's path.
    pub path: Seq<char>,
    /// Where the link points.
    pub source: Seq<char>,
    /// Where the link is placed.
    pub location: Seq<char>,
}

impl View for ConfigLink {
    type V = ConfigLinkView;

    open spec fn view(&self) -> ConfigLinkView {
        ConfigLinkView { path: self.path@, source: self.source@, location: self.location@ }
    }
}

/// The link that an entry asks for in the directory `dir`.
pub open spec fn link_of(dir: Seq<char>, entry: ConfigDataView) -> ConfigLinkView {
    ConfigLinkView { path: entry.path, source: entry.source, location: joined(dir, entry.path) }
}

/// The links of a configuration directory: one for each enabled entry, in
/// the order of the entries.
pub open spec fn links_of(dir: Seq<char>, entries: Seq<(String, ConfigData)>) -> Seq<
    ConfigLinkView,
>
    decreases entries.len(),
{
    if entries.len() == 0 {
        Seq::<ConfigLinkView>::empty()
    } else if entries.last().1.enable {
        links_of(dir, entries.drop_last()).push(link_of(dir, entries.last().1@))
    } else {
        links_of(dir, entries.drop_last())
    }
}

/// The links depend on what the entries say, not on how their texts are
/// held in memory.
pub proof fn lemma_links_by_view(
    dir: Seq<char>,
    a: Seq<(String, ConfigData)>,
    b: Seq<(String, ConfigData)>,
)
    requires
        a.len() == b.len(),
        forall|i: int| 0 <= i < a.len() ==> #[trigger] a[i].0@ == b[i].0@ && a[i].1@ == b[i].1@,
    ensures
        links_of(dir, a) == links_of(dir, b),
    decreases a.len(),
{
    if a.len() > 0 {
        let last = a.len() - 1;
        assert(a[last].0@ == b[last].0@ && a[last].1@ == b[last].1@);
        assert forall|i: int| 0 <= i < a.drop_last().len() implies #[trigger] a.drop_last()[i].0@
            == b.drop_last()[i].0@ && a.drop_last()[i].1@ == b.drop_last()[i].1@ by {
            assert(a[i].0@ == b[i].0@ && a[i].1@ == b[i].1@);
        }
        lemma_links_by_view(dir, a.drop_last(), b.drop_last());
    }
}

/// What the file system answered to one step of a plan.
#[derive(Debug, Clone, PartialEq, Eq)]
pub enum StepOutcome {
    /// The directory or the link was made.
    Done,
    /// The directory or the link was there already.
    AlreadyExists,
    /// The location has no parent directory to make.
    NoParent,
    /// The step failed for another reason; the text is the system's message.
    Failed(String),
}

impl StepOutcome {
    /// The outcomes after which a plan goes on: what was asked for is there.
    pub open spec fn benign(self) -> bool {
        self is Done || self is AlreadyExists
    }
}

/// What a plan asks for next.
#[derive(Debug, Clone, PartialEq, Eq)]
pub enum PlanAction {
    /// Make the configuration directory itself at `path`, and every
    /// directory above it.
    EnsureDir { path: String },
    /// Make the parent directory of `location`, and every directory above it.
    EnsureParent { location: String },
    /// Make a symbolic link at `location` that points at `source`.
    Link { source: String, location: String },
    /// Nothing is left to do: the directory is ready.
    Finished,
}

/// Which step of a plan an outcome belongs to.
#[derive(Debug, Clone, Copy, PartialEq, Eq, Structural)]
pub enum PlanStage {
    /// The configuration directory itself is made.
    Directory,
    /// The parent directory of a link is made.
    Parent,
    /// A link is made.
    Link,
    /// Nothing is left to do.
    Finished,
}

/// How far a plan has come: whether the directory itself is there, the link
/// it works on, and whether that link's parent directory is known to be
/// there.
pub struct PlanCursor {
    /// The number of links of the plan.
    pub total: nat,
    /// Whether the configuration directory itself is in place.
    pub dir_ready: bool,
    /// The number of links that are in place.
    pub next: nat,
    /// Whether the parent directory of link `next` is in place.
    pub parent_ready: bool,
}

impl PlanCursor {
    /// The cursor of a plan of which nothing is in place.
    pub open spec fn fresh(total: nat) -> PlanCursor {
        PlanCursor { total, dir_ready: false, next: 0, parent_ready: false }
    }

    /// The step that the plan is at: first the directory itself, then for
    /// each link its parent directory and the link.
    pub open spec fn stage(self) -> PlanStage {
        if !self.dir_ready {
            PlanStage::Directory
        } else if self.next >= self.total {
            PlanStage::Finished
        } else if self.parent_ready {
            PlanStage::Link
        } else {
            PlanStage::Parent
        }
    }

    /// The plan has nothing left to do.
    pub open spec fn finished(self) -> bool {
        self.stage() is Finished
    }

    /// The number of steps that the plan still asks for.
    pub open spec fn steps_left(self) -> nat {
        let links = if self.next >= self.total {
            0nat
        } else if self.parent_ready {
            (2 * (self.total - self.next) - 1) as nat
        } else {
            (2 * (self.total - self.next)) as nat
        };
        if self.dir_ready {
            links
        } else {
            links + 1
        }
    }

    /// Where the plan stands after an outcome: one step further after a
    /// benign one while steps are left, else where it stood.
    pub open spec fn after(self, outcome: StepOutcome) -> PlanCursor {
        if !outcome.benign() {
            self
        } else {
            match self.stage() {
                PlanStage::Directory => PlanCursor { dir_ready: true, ..self },
                PlanStage::Parent => PlanCursor { parent_ready: true, ..self },
                PlanStage::Link => PlanCursor {
                    next: self.next + 1,
                    parent_ready: false,
                    ..self
                },
                PlanStage::Finished => self,
            }
        }
    }

    /// Whether an outcome is an error at this point of the plan.
    pub open spec fn fails_on(self, outcome: StepOutcome) -> bool {
        !self.finished() && !outcome.benign()
    }

    /// Where the plan stands after a run of outcomes, and whether all of them
    /// were accepted.
    pub open spec fn after_all(self, outcomes: Seq<StepOutcome>) -> (PlanCursor, bool)
        decreases outcomes.len(),
    {
        if outcomes.len() == 0 {
            (self, true)
        } else {
            let (before, accepted) = self.after_all(outcomes.drop_last());
            (before.after(outcomes.last()), accepted && !before.fails_on(outcomes.last()))
        }
    }

    /// A plan whose every step finds its work done, or done already, goes
    /// through without an error, and is finished once it got as many answers
    /// as it had steps left. So a directory can be materialized again over
    /// itself: the second pass meets `AlreadyExists` at every step and ends
    /// as the first did.
    pub proof fn lemma_benign_run_finishes(self, outcomes: Seq<StepOutcome>)
        requires
            forall|i: int| 0 <= i < outcomes.len() ==> (#[trigger] outcomes[i]).benign(),
            self.next <= self.total,
        ensures
            self.after_all(outcomes).1,
            self.after_all(outcomes).0.total == self.total,
            self.after_all(outcomes).0.next <= self.total,
            self.after_all(outcomes).0.steps_left() == if outcomes.len() <= self.steps_left() {
                self.steps_left() - outcomes.len()
            } else {
                0
            },
            outcomes.len() >= self.steps_left() ==> self.after_all(outcomes).0.finished(),
        decreases outcomes.len(),
    {
        if outcomes.len() > 0 {
            assert(outcomes.last().benign());
            assert forall|i: int| 0 <= i < outcomes.drop_last().len() implies (
            #[trigger] outcomes.drop_last()[i]).benign() by {
                assert(outcomes[i].benign());
            }
            self.lemma_benign_run_finishes(outcomes.drop_last());
        }
    }
}

/// The error that an outcome is at a step of a plan, if it is one. A
/// location without a parent is named; any other failure carries the
/// system's message beside what the step was for: the directory's path at
/// the first step, the entry's path at the steps of a link.
pub open spec fn step_failure(
    stage: PlanStage,
    subject: Seq<char>,
    outcome: StepOutcome,
    failure: ConfigFailure,
) -> bool {
    match outcome {
        StepOutcome::NoParent => failure matches ConfigFailure::NoParentDirectory(named) && named@
            == subject,
        StepOutcome::Failed(message) => match stage {
            PlanStage::Directory => failure matches ConfigFailure::DirectoryFailed(named, said)
                && named@ == subject && said == message,
            PlanStage::Parent => failure matches ConfigFailure::ParentFailed(named, said) && named@
                == subject && said == message,
            PlanStage::Link => failure matches ConfigFailure::LinkFailed(named, said) && named@
                == subject && said == message,
            PlanStage::Finished => false,
        },
        _ => false,
    }
}

/// The directory of links that a service's child finds its configuration
/// in, together with the work of putting it in place. Whoever holds it asks
/// for the next action, performs it, and reports how it went, until nothing
/// is left to do. Its view is its path.
#[derive(Debug, PartialEq, Eq)]
pub struct ConfigDir {
    path: String,
    links: Vec<ConfigLink>,
    dir_ready: bool,
    next: usize,
    parent_ready: bool,
}

impl View for ConfigDir {
    type V = Seq<char>;

    closed spec fn view(&self) -> Seq<char> {
        self.path@
    }
}

impl ConfigDir {
    /// The canonical text of a configuration. Every configuration has one.
    pub fn canonical_bytes(config_data: &ConfigDataMap) -> (bytes: Result<Vec<u8>, Error>)
        ensures
            bytes matches Ok(b) && b@ == canonical_text(config_data.entries()),
    {
        let mut out: Vec<u8> = Vec::new();
        append_bytes(&mut out, "{".as_bytes());
        let n = config_data.len();
        let mut i: usize = 0;
        while i < n
            invariant
                n == config_data.entries().len(),
                i <= n,
                out@ == text_bytes("{"@) + members_text(config_data.entries().take(i as int)),
            decreases n - i,
        {
            let key_literal = match literal_of(config_data.name_at(i).as_str()) {
                Ok(literal) => literal,
                Err(e) => {
                    return Err(e);
                },
            };
            let entry = match entry_canonical(config_data.value_at(i)) {
                Ok(entry) => entry,
                Err(e) => {
                    return Err(e);
                },
            };
            push_member(&mut out, i == 0, key_literal.as_slice(), entry.as_slice());
            proof {
                let done = config_data.entries().take(i as int);
                let more = config_data.entries().take(i as int + 1);
                assert(more.drop_last() =~= done);
                assert(more.last() == config_data.entries()[i as int]);
                assert(out@ =~= text_bytes("{"@) + members_text(more));
            }
            i += 1;
        }
        assert(config_data.entries().take(i as int) =~= config_data.entries());
        append_bytes(&mut out, "}".as_bytes());
        Ok(out)
    }

    /// The directory name for the digest of a canonical text: `nimi-config-`
    /// and the digest in lowercase hexadecimal.
    pub fn name_from_digest(digest: &[u8]) -> (name: String)
        ensures
            name@ == name_for_digest(digest@),
    {
        let mut name = String::from_str("nimi-config-");
        let hex = hex_lower(digest);
        name.append(hex.as_str());
        name
    }

    /// The directory name for a canonical text.
    pub fn name_from_canonical(canonical: &[u8]) -> (name: String)
        ensures
            name@ == name_for_digest(sha256(canonical@)),
            name@.len() == 76,
    {
        let digest = sha256_digest(canonical);
        proof {
            reveal_strlit("nimi-config-");
        }
        ConfigDir::name_from_digest(digest.as_slice())
    }

    /// The name of the configuration directory: a function of what the
    /// configuration says. Every configuration has one.
    pub fn generate_config_directory_name(config_data: &ConfigDataMap) -> (name: Result<
        String,
        Error,
    >)
        ensures
            name matches Ok(n) && n@ == directory_name(config_data.entries()),
    {
        match ConfigDir::canonical_bytes(config_data) {
            Ok(canonical) => Ok(ConfigDir::name_from_canonical(canonical.as_slice())),
            Err(e) => Err(e),
        }
    }

    /// The path of the directory.
    pub fn as_str(&self) -> (path: &str)
        ensures
            path@ == self@,
    {
        self.path.as_str()
    }

    /// The links of a configuration in the directory at `dir`.
    fn links_in(dir: &str, config_data: &ConfigDataMap) -> (links: Vec<ConfigLink>)
        ensures
            links@.map_values(|link: ConfigLink| link@) == links_of(dir@, config_data.entries()),
    {
        let mut links: Vec<ConfigLink> = Vec::new();
        let n = config_data.len();
        let mut i: usize = 0;
        while i < n
            invariant
                n == config_data.entries().len(),
                i <= n,
                links@.map_values(|link: ConfigLink| link@) == links_of(
                    dir@,
                    config_data.entries().take(i as int),
                ),
            decreases n - i,
        {
            let entry = config_data.value_at(i);
            let ghost before = links@;
            if entry.enable {
                links.push(
                    ConfigLink {
                        path: entry.path.clone(),
                        source: entry.source.clone(),
                        location: join(dir, entry.path.as_str()),
                    },
                );
            }
            proof {
                let done = config_data.entries().take(i as int);
                let more = config_data.entries().take(i as int + 1);
                assert(more.drop_last() =~= done);
                assert(more.last() == config_data.entries()[i as int]);
                if entry.enable {
                    assert(links@.map_values(|link: ConfigLink| link@) =~= before.map_values(
                        |link: ConfigLink| link@,
                    ).push(link_of(dir@, entry@)));
                }
            }
            i += 1;
        }
        assert(config_data.entries().take(i as int) =~= config_data.entries());
        links
    }

    /// The configuration directory of a service below `tmp_dir`, before
    /// anything of it is in place: the directory is named after the
    /// configuration, and gets one link for each enabled entry. Every
    /// configuration has one. The work begins with the directory itself, so
    /// that the directory is there also where no entry is enabled.
    pub fn new(tmp_dir: &str, config_data: &ConfigDataMap) -> (dir: Result<ConfigDir, Error>)
        ensures
            dir matches Ok(d) && {
                &&& d@ == joined(tmp_dir@, directory_name(config_data.entries()))
                &&& d.links() == links_of(d@, config_data.entries())
                &&& d.cursor() == PlanCursor::fresh(d.links().len())
            },
    {
        let name = match ConfigDir::generate_config_directory_name(config_data) {
            Ok(name) => name,
            Err(e) => {
                return Err(e);
            },
        };
        let path = join(tmp_dir, name.as_str());
        let links = ConfigDir::links_in(path.as_str(), config_data);
        Ok(ConfigDir { path, links, dir_ready: false, next: 0, parent_ready: false })
    }

    /// The links of the directory, in the order in which they are made.
    pub closed spec fn links(&self) -> Seq<ConfigLinkView> {
        self.links@.map_values(|link: ConfigLink| link@)
    }

    /// How far the work has come.
    pub closed spec fn cursor(&self) -> PlanCursor {
        PlanCursor {
            total: self.links@.len(),
            dir_ready: self.dir_ready,
            next: self.next as nat,
            parent_ready: self.parent_ready,
        }
    }

    #[verifier::type_invariant]
    closed spec fn within(&self) -> bool {
        self.next <= self.links@.len()
    }

    /// What a step of the work is for: the directory's path at the first
    /// step, the entry's path at the steps of a link.
    pub open spec fn subject_at(
        cursor: PlanCursor,
        dir: Seq<char>,
        links: Seq<ConfigLinkView>,
    ) -> Seq<char> {
        match cursor.stage() {
            PlanStage::Parent => links[cursor.next as int].path,
            PlanStage::Link => links[cursor.next as int].path,
            _ => dir,
        }
    }

    /// What is asked for at a given point of the work.
    pub open spec fn action_at(
        cursor: PlanCursor,
        dir: Seq<char>,
        links: Seq<ConfigLinkView>,
    ) -> PlanActionView {
        match cursor.stage() {
            PlanStage::Directory => PlanActionView::EnsureDir { path: dir },
            PlanStage::Parent => PlanActionView::EnsureParent {
                location: links[cursor.next as int].location,
            },
            PlanStage::Link => PlanActionView::Link {
                source: links[cursor.next as int].source,
                location: links[cursor.next as int].location,
            },
            PlanStage::Finished => PlanActionView::Finished,
        }
    }

    /// Whether the directory and every link are in place.
    pub fn is_finished(&self) -> (finished: bool)
        ensures
            finished == self.cursor().finished(),
            self.cursor().total == self.links().len(),
            self.cursor().next <= self.cursor().total,
    {
        proof {
            use_type_invariant(self);
        }
        self.dir_ready && self.next >= self.links.len()
    }

    /// The next thing to do: first the directory itself, then for each link
    /// its parent directory and the link.
    pub fn next_action(&self) -> (action: PlanAction)
        ensures
            action@ == ConfigDir::action_at(self.cursor(), self@, self.links()),
    {
        proof {
            use_type_invariant(self);
        }
        if !self.dir_ready {
            PlanAction::EnsureDir { path: self.path.clone() }
        } else if self.next >= self.links.len() {
            PlanAction::Finished
        } else if self.parent_ready {
            let link = &self.links[self.next];
            PlanAction::Link { source: link.source.clone(), location: link.location.clone() }
        } else {
            let link = &self.links[self.next];
            PlanAction::EnsureParent { location: link.location.clone() }
        }
    }

    /// Takes the outcome of the action asked for last. What is there
    /// already counts as made. A location without a parent is an error that
    /// names it; any other failure is an error that names the step, what the
    /// step was for, and the system's message. After an error the work stands
    /// where it stood, and what was made stays.
    pub fn advance(&mut self, outcome: StepOutcome) -> (accepted: Result<(), ConfigFailure>)
        ensures
            final(self)@ == old(self)@,
            final(self).links() == old(self).links(),
            final(self).cursor() == old(self).cursor().after(outcome),
            accepted is Err == old(self).cursor().fails_on(outcome),
            accepted matches Err(e) ==> step_failure(
                old(self).cursor().stage(),
                ConfigDir::subject_at(old(self).cursor(), old(self)@, old(self).links()),
                outcome,
                e,
            ),
    {
        proof {
            use_type_invariant(&*self);
        }
        if !self.dir_ready {
            match outcome {
                StepOutcome::Done | StepOutcome::AlreadyExists => {
                    self.dir_ready = true;
                    Ok(())
                },
                StepOutcome::NoParent => Err(ConfigFailure::NoParentDirectory(self.path.clone())),
                StepOutcome::Failed(message) => Err(
                    ConfigFailure::DirectoryFailed(self.path.clone(), message),
                ),
            }
        } else if self.next >= self.links.len() {
            Ok(())
        } else {
            match outcome {
                StepOutcome::Done | StepOutcome::AlreadyExists => {
                    if self.parent_ready {
                        self.parent_ready = false;
                        self.next = self.next + 1;
                    } else {
                        self.parent_ready = true;
                    }
                    Ok(())
                },
                StepOutcome::NoParent => Err(
                    ConfigFailure::NoParentDirectory(self.links[self.next].path.clone()),
                ),
                StepOutcome::Failed(message) => {
                    if self.parent_ready {
                        Err(ConfigFailure::LinkFailed(self.links[self.next].path.clone(), message))
                    } else {
                        Err(
                            ConfigFailure::ParentFailed(
                                self.links[self.next].path.clone(),
                                message,
                            ),
                        )
                    }
                },
            }
        }
    }
}

/// What a plan's action says, apart from how its texts are held in memory.
pub enum PlanActionView {
    /// Make the configuration directory itself at `path`.
    EnsureDir { path: Seq<char> },
    /// Make the parent directory of `location`.
    EnsureParent { location: Seq<char> },
    /// Make a link at `location` that points at `source`.
    Link { source: Seq<char>, location: Seq<char> },
    /// Nothing is left to do.
    Finished,
}

impl View for PlanAction {
    type V = PlanActionView;

    open spec fn view(&self) -> PlanActionView {
        match self {
            PlanAction::EnsureDir { path } => PlanActionView::EnsureDir { path: path@ },
            PlanAction::EnsureParent { location } => PlanActionView::EnsureParent {
                location: location@,
            },
            PlanAction::Link { source, location } => PlanActionView::Link {
                source: source@,
                location: location@,
            },
            PlanAction::Finished => PlanActionView::Finished,
        }
    }
}

/// Configurations that say the same are laid out the same: in one
/// directory, with the same links.
pub proof fn lemma_same_payload_same_links(dir: Seq<char>, a: ConfigDataMap, b: ConfigDataMap)
    requires
        a.well_formed(),
        b.well_formed(),
        a.deep() == b.deep(),
    ensures
        links_of(dir, a.entries()) == links_of(dir, b.entries()),
{
    lemma_ascending_canonical(a.entries(), b.entries(), |value: ConfigData| value@);
    lemma_links_by_view(dir, a.entries(), b.entries());
}

} // verus!
