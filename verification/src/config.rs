//! The watch configuration: the repo table, its validation, and the edits
//! that the `legion watch` subcommands make to it.
use vstd::prelude::*;
use crate::error::LegionError;
use crate::scan::{
    find, has_text, law_each_occurrence_is_replaced, occurs_at, replace_all, replaced, replaced_from,
    texts,
};
use crate::signal::{opt_str, opt_text};
use crate::tables::{empty_table, table_keys};
use crate::text::{
    lemma_trimmed_is_fixed, lower, text_eq, to_ascii_lowercase, to_chars, to_text, trim, trimmed,
};

verus! {

broadcast use vstd::seq_lib::group_seq_properties;

// -- Watched repos -----------------------------------------------------------

/// A watched repository.
#[derive(Debug)]
pub struct WatchRepoConfig {
    pub name: String,
    pub workdir: String,
    /// The persona that maintains the repo. Signals addressed to it wake the
    /// repo; without it the repo answers to its name.
    pub agent: Option<String>,
    /// Group tags that the repo subscribes to.
    pub broadcast_tags: Vec<String>,
    /// Fields of the entry that the watcher does not read.
    pub extra: toml::Table,
}

/// An agent name that says something: trimmed, and absent where nothing is
/// left.
pub open spec fn normalized_agent(agent: Option<Seq<char>>) -> Option<Seq<char>> {
    match agent {
        Some(a) => if trimmed(a).len() > 0 {
            Some(trimmed(a))
        } else {
            None
        },
        None => None,
    }
}

impl WatchRepoConfig {
    /// The name that signals are matched against: the agent where one is set,
    /// else the name of the repo.
    pub open spec fn recipient_name(&self) -> Seq<char> {
        match normalized_agent(opt_text(self.agent)) {
            Some(a) => a,
            None => self.name@,
        }
    }

    /// Whether another persona maintains this repo, so that signals for it
    /// wake in the workdir of that persona and not here.
    pub open spec fn delegated(&self) -> bool {
        self.recipient_name() != self.name@
    }

    /// The name that signals are matched against.
    pub fn recipient(&self) -> (name: &str)
        ensures
            name@ == self.recipient_name(),
    {
        match &self.agent {
            Some(a) => {
                let t = trim(a.as_str());
                if t.is_empty() {
                    self.name.as_str()
                } else {
                    t
                }
            },
            None => self.name.as_str(),
        }
    }

    /// Whether another persona maintains this repo.
    pub fn is_delegated(&self) -> (yes: bool)
        ensures
            yes == self.delegated(),
    {
        !text_eq(self.recipient(), self.name.as_str())
    }

    /// The full addressable name set: the recipient, then every tag.
    pub fn wake_addresses(&self) -> (names: Vec<String>)
        ensures
            texts(names@) == seq![self.recipient_name()] + texts(self.broadcast_tags@),
    {
        let mut names: Vec<String> = Vec::new();
        names.push(self.recipient().to_string());
        for i in 0..self.broadcast_tags.len()
            invariant
                names@.len() == i + 1,
                names@[0]@ == self.recipient_name(),
                forall|j: int|
                    0 <= j < i ==> (#[trigger] names@[j + 1])@ == self.broadcast_tags@[j]@,
        {
            names.push(self.broadcast_tags[i].clone());
        }
        assert forall|k: int| 0 <= k < names@.len() implies texts(names@)[k] == (seq![
            self.recipient_name(),
        ] + texts(self.broadcast_tags@))[k] by {
            if k > 0 {
                assert(names@[(k - 1) + 1]@ == self.broadcast_tags@[k - 1]@);
            }
        }
        assert(texts(names@) =~= seq![self.recipient_name()] + texts(self.broadcast_tags@));
        names
    }
}

// -- Recipients --------------------------------------------------------------

/// The target of a broadcast.
#[derive(Debug, Clone, PartialEq, Eq)]
pub enum BroadcastTarget {
    /// Everybody.
    All,
    /// The repos that carry a tag.
    Tag(String),
}

/// A signal recipient.
#[derive(Debug, Clone, PartialEq, Eq)]
pub enum Recipient {
    /// A named agent or repo.
    Agent(String),
    /// A broadcast group.
    Broadcast(BroadcastTarget),
}

/// `raw` without one leading `@`.
pub open spec fn without_at(raw: Seq<char>) -> Seq<char> {
    if raw.len() > 0 && raw[0] == '@' {
        raw.drop_first()
    } else {
        raw
    }
}

impl Recipient {
    /// Reads an address, with or without its `@`. The reserved names `all`
    /// and `everyone`, in any case, are the broadcast to all; every other
    /// address names an agent.
    pub fn parse(raw: &str) -> (to: Self)
        ensures
            to matches Recipient::Broadcast(BroadcastTarget::All) <==> (lower(without_at(raw@))
                == "all"@ || lower(without_at(raw@)) == "everyone"@),
            to matches Recipient::Agent(name) ==> name@ == without_at(raw@),
            !(to matches Recipient::Broadcast(BroadcastTarget::Tag(_))),
    {
        let chars = to_chars(raw);
        let n: usize = chars.len();
        let stripped = if n > 0 && chars[0] == '@' {
            let rest = raw.substring_char(1, n);
            assert(rest@ == raw@.drop_first());
            rest
        } else {
            raw
        };
        let folded = to_ascii_lowercase(stripped);
        if text_eq(folded.as_str(), "all") || text_eq(folded.as_str(), "everyone") {
            Recipient::Broadcast(BroadcastTarget::All)
        } else {
            Recipient::Agent(stripped.to_string())
        }
    }
}

// -- The configuration -------------------------------------------------------

/// The watch configuration. The two thresholds that are percentages are kept
/// beside it, by the caller.
#[derive(Debug)]
pub struct WatchConfig {
    pub poll_interval_secs: u64,
    pub cooldown_secs: u64,
    /// Seconds to wait between two spawns of one cycle.
    pub stagger_secs: u64,
    /// Hours of local time between which no cooldown applies.
    pub work_hours_start: Option<u8>,
    pub work_hours_end: Option<u8>,
    pub health_poll_secs: u64,
    pub health_window_size: usize,
    pub retention_days: u64,
    /// Age from which a session lock counts as abandoned; 0 switches the
    /// session locks off.
    pub session_lock_ttl_secs: u64,
    pub persona_lease_ttl_secs: u64,
    /// How many woken agents may run at once; 0 lifts the cap.
    pub max_concurrent_wakes: u32,
    pub serve: bool,
    /// A `[cluster]` section. It is kept so that an edit does not strip it,
    /// and refused on loading.
    pub cluster: Option<toml::Table>,
    pub repos: Vec<WatchRepoConfig>,
}

pub fn default_poll_interval() -> (secs: u64)
    ensures
        secs == 30,
{
    30
}

pub fn default_cooldown_secs() -> (secs: u64)
    ensures
        secs == 300,
{
    300
}

pub fn default_stagger_secs() -> (secs: u64)
    ensures
        secs == 15,
{
    15
}

pub fn default_health_poll_secs() -> (secs: u64)
    ensures
        secs == 5,
{
    5
}

pub fn default_health_window_size() -> (size: usize)
    ensures
        size == 6,
{
    6
}

pub fn default_retention_days() -> (days: u64)
    ensures
        days == 7,
{
    7
}

/// The default age from which the lock of a spawned session counts as
/// abandoned.
pub fn default_session_lock_ttl_secs() -> (secs: u64)
    ensures
        secs == 3600,
{
    3600
}

pub fn default_persona_lease_ttl_secs() -> (secs: u64)
    ensures
        secs == 600,
{
    600
}

pub fn default_max_concurrent_wakes() -> (cap: u32)
    ensures
        cap == 4,
{
    4
}

impl Default for WatchConfig {
    fn default() -> (config: Self)
        ensures
            config.poll_interval_secs == 30,
            config.cooldown_secs == 300,
            config.stagger_secs == 15,
            config.work_hours_start is None,
            config.work_hours_end is None,
            config.health_poll_secs == 5,
            config.health_window_size == 6,
            config.retention_days == 7,
            config.session_lock_ttl_secs == 3600,
            config.persona_lease_ttl_secs == 600,
            config.max_concurrent_wakes == 4,
            !config.serve,
            config.cluster is None,
            config.repos@.len() == 0,
    {
        WatchConfig {
            poll_interval_secs: default_poll_interval(),
            cooldown_secs: default_cooldown_secs(),
            stagger_secs: default_stagger_secs(),
            work_hours_start: None,
            work_hours_end: None,
            health_poll_secs: default_health_poll_secs(),
            health_window_size: default_health_window_size(),
            retention_days: default_retention_days(),
            session_lock_ttl_secs: default_session_lock_ttl_secs(),
            persona_lease_ttl_secs: default_persona_lease_ttl_secs(),
            max_concurrent_wakes: default_max_concurrent_wakes(),
            serve: false,
            cluster: None,
            repos: Vec::new(),
        }
    }
}

// -- Edits -------------------------------------------------------------------

/// The line that names the repo `name` in the configuration file.
pub open spec fn name_line(name: Seq<char>) -> Seq<char> {
    "name = \""@ + name + "\""@
}

fn name_line_chars(name: &str) -> (line: Vec<char>)
    ensures
        line@ == name_line(name@),
        line@.len() > 0,
{
    let mut line = "name = \"".to_string();
    line.append(name);
    line.append("\"");
    proof {
        reveal_strlit("name = \"");
    }
    to_chars(line.as_str())
}

/// Renames a repo in the text of the configuration file. Only the name lines
/// are touched, so comments and formatting stay. `None` where the file does
/// not name the repo.
pub fn rename_in_config(contents: &str, from: &str, to: &str) -> (updated: Option<String>)
    ensures
        updated is Some <==> has_text(contents@, name_line(from@)),
        updated matches Some(text) ==> text@ == replaced(
            contents@,
            name_line(from@),
            name_line(to@),
        ),
{
    let text = to_chars(contents);
    let needle = name_line_chars(from);
    let replacement = name_line_chars(to);
    match find(text.as_slice(), needle.as_slice()) {
        Some(_) => {
            let out = replace_all(text.as_slice(), needle.as_slice(), replacement.as_slice());
            Some(to_text(out.as_slice()))
        },
        None => None,
    }
}

/// Whether an entry of `repos` has the given workdir.
pub open spec fn has_workdir(repos: Seq<WatchRepoConfig>, workdir: Seq<char>) -> bool {
    exists|i: int| 0 <= i < repos.len() && #[trigger] repos[i].workdir@ == workdir
}

/// Whether entry `i` is the first with the given name.
pub open spec fn first_named(repos: Seq<WatchRepoConfig>, name: Seq<char>, i: int) -> bool {
    &&& 0 <= i < repos.len()
    &&& repos[i].name@ == name
    &&& forall|j: int| 0 <= j < i ==> (#[trigger] repos[j]).name@ != name
}

/// Whether an entry of `repos` has the given name.
pub open spec fn has_name(repos: Seq<WatchRepoConfig>, name: Seq<char>) -> bool {
    exists|i: int| 0 <= i < repos.len() && #[trigger] repos[i].name@ == name
}

/// The message for a name that another entry holds.
pub open spec fn name_in_use(name: Seq<char>, workdir: Seq<char>) -> Seq<char> {
    "name '"@ + name + "' already in use by "@ + workdir
}

/// A directory that a repo is to be added for, as it was given and as it was
/// found.
#[derive(Debug)]
pub enum Workdir {
    /// What was given is no directory.
    NotADirectory(String),
    /// What was given could not be resolved, and why.
    Unresolved(String, String),
    /// The canonical path of what was given.
    Canonical(String),
}

/// The message for a directory that no repo can be added for.
pub open spec fn bad_workdir(workdir: Workdir) -> Option<Seq<char>> {
    match workdir {
        Workdir::NotADirectory(given) => Some("workdir is not a directory: "@ + given@),
        Workdir::Unresolved(given, why) => Some(
            "cannot resolve workdir "@ + given@ + ": "@ + why@,
        ),
        Workdir::Canonical(_) => None,
    }
}

/// Adds a repo.
///
/// A path that is already listed is left alone, whatever its name. A name
/// that another path holds is refused, and so is what is no directory.
pub fn add_repo_to_config(
    config: &mut WatchConfig,
    name: &str,
    workdir: &Workdir,
    agent: Option<&str>,
) -> (added: Result<bool, LegionError>)
    ensures
        match *workdir {
            Workdir::Canonical(path) => adds_repo(
                *old(config),
                name@,
                path@,
                normalized_agent(opt_str(agent)),
                added,
                *final(config),
            ),
            _ => {
                &&& *final(config) == *old(config)
                &&& added matches Err(LegionError::WatchConfig(m)) && Some(m@) == bad_workdir(
                    *workdir,
                )
            },
        },
{
    match workdir {
        Workdir::NotADirectory(given) => {
            let mut message = "workdir is not a directory: ".to_string();
            message.append(given.as_str());
            Err(LegionError::WatchConfig(message))
        },
        Workdir::Unresolved(given, why) => {
            let mut message = "cannot resolve workdir ".to_string();
            message.append(given.as_str());
            message.append(": ");
            message.append(why.as_str());
            Err(LegionError::WatchConfig(message))
        },
        Workdir::Canonical(path) => add_canonical(config, name, path.as_str(), agent),
    }
}

/// What adding a repo for a canonical path does to a configuration, and what
/// it says.
pub open spec fn adds_repo(
    before: WatchConfig,
    name: Seq<char>,
    workdir: Seq<char>,
    agent: Option<Seq<char>>,
    added: Result<bool, LegionError>,
    after: WatchConfig,
) -> bool {
    &&& after == (WatchConfig { repos: after.repos, ..before })
    &&& match added {
        Ok(false) => has_workdir(before.repos@, workdir) && after.repos@ == before.repos@,
        Err(e) => {
            &&& !has_workdir(before.repos@, workdir)
            &&& after.repos@ == before.repos@
            &&& exists|i: int|
                #[trigger] first_named(before.repos@, name, i) && e == LegionError::WatchConfig(
                    e->WatchConfig_0,
                ) && e->WatchConfig_0@ == name_in_use(name, before.repos@[i].workdir@)
        },
        Ok(true) => {
            let entry = after.repos@.last();
            &&& !has_workdir(before.repos@, workdir)
            &&& !has_name(before.repos@, name)
            &&& after.repos@ == before.repos@.push(entry)
            &&& entry.name@ == name
            &&& entry.workdir@ == workdir
            &&& opt_text(entry.agent) == agent
            &&& entry.broadcast_tags@.len() == 0
            &&& table_keys(entry.extra) == Set::<Seq<char>>::empty()
        },
    }
}

fn add_canonical(
    config: &mut WatchConfig,
    name: &str,
    workdir: &str,
    agent: Option<&str>,
) -> (added: Result<bool, LegionError>)
    ensures
        adds_repo(
            *old(config),
            name@,
            workdir@,
            normalized_agent(opt_str(agent)),
            added,
            *final(config),
        ),
{
    for i in 0..config.repos.len()
        invariant
            *config == *old(config),
            forall|j: int| 0 <= j < i ==> (#[trigger] config.repos@[j]).workdir@ != workdir@,
    {
        if text_eq(config.repos[i].workdir.as_str(), workdir) {
            return Ok(false);
        }
    }
    for i in 0..config.repos.len()
        invariant
            *config == *old(config),
            !has_workdir(config.repos@, workdir@),
            forall|j: int| 0 <= j < i ==> (#[trigger] config.repos@[j]).name@ != name@,
    {
        if text_eq(config.repos[i].name.as_str(), name) {
            let mut message = "name '".to_string();
            message.append(name);
            message.append("' already in use by ");
            message.append(config.repos[i].workdir.as_str());
            assert(first_named(old(config).repos@, name@, i as int));
            return Err(LegionError::WatchConfig(message));
        }
    }
    let agent_name = match agent {
        Some(a) => {
            let t = trim(a);
            if t.is_empty() {
                None
            } else {
                Some(t.to_string())
            }
        },
        None => None,
    };
    let entry = WatchRepoConfig {
        name: name.to_string(),
        workdir: workdir.to_string(),
        agent: agent_name,
        broadcast_tags: Vec::new(),
        extra: empty_table(),
    };
    config.repos.push(entry);
    Ok(true)
}

/// The entries that do not have the given name.
pub open spec fn not_named(name: Seq<char>) -> spec_fn(WatchRepoConfig) -> bool {
    |r: WatchRepoConfig| r.name@ != name
}

/// Removes every entry with the given name, and says whether there was one.
pub fn remove_repo_from_config(config: &mut WatchConfig, name: &str) -> (removed: bool)
    ensures
        *final(config) == (WatchConfig { repos: final(config).repos, ..*old(config) }),
        final(config).repos@ == old(config).repos@.filter(not_named(name@)),
        removed == has_name(old(config).repos@, name@),
{
    reveal(Seq::filter);
    let ghost all = config.repos@;
    let ghost pred = not_named(name@);
    let mut i: usize = 0;
    let ghost mut done: int = 0;
    let mut removed = false;
    assert(all.take(0).filter(pred) == Seq::<WatchRepoConfig>::empty());
    while i < config.repos.len()
        invariant
            *config == (WatchConfig { repos: config.repos, ..*old(config) }),
            pred == not_named(name@),
            0 <= done <= all.len(),
            i <= config.repos@.len(),
            config.repos@.take(i as int) == all.take(done).filter(pred),
            config.repos@.skip(i as int) == all.skip(done),
            removed == (exists|j: int| 0 <= j < done && #[trigger] all[j].name@ == name@),
        decreases config.repos@.len() - i,
    {
        reveal(Seq::filter);
        let ghost before = config.repos@;
        assert(before.skip(i as int).len() == before.len() - i);
        assert(all.skip(done).len() == all.len() - done);
        assert(before[i as int] == before.skip(i as int)[0]);
        assert(all[done] == all.skip(done)[0]);
        assert(all.take(done + 1).drop_last() == all.take(done));
        assert(all.take(done + 1).last() == all[done]);
        if text_eq(config.repos[i].name.as_str(), name) {
            let _ = config.repos.remove(i);
            removed = true;
            assert(config.repos@.take(i as int) =~= before.take(i as int));
            assert(config.repos@.skip(i as int) =~= before.skip(i as int).drop_first());
            assert(all.skip(done).drop_first() =~= all.skip(done + 1));
            assert(all[done].name@ == name@);
        } else {
            assert(before.take(i + 1) =~= before.take(i as int).push(before[i as int]));
            assert(before.skip(i as int).drop_first() =~= before.skip(i + 1));
            assert(all.skip(done).drop_first() =~= all.skip(done + 1));
            i = i + 1;
        }
        proof {
            done = done + 1;
        }
    }
    assert(config.repos@.skip(i as int).len() == 0);
    assert(all.skip(done).len() == 0);
    assert(all.take(done) == all);
    assert(config.repos@.take(i as int) == config.repos@);
    removed
}

// -- Validation --------------------------------------------------------------

/// Whether tag `t` of entry `i` is the recipient of entry `j`.
pub open spec fn tag_collides(repos: Seq<WatchRepoConfig>, i: int, t: int, j: int) -> bool {
    &&& 0 <= i < repos.len()
    &&& 0 <= t < repos[i].broadcast_tags@.len()
    &&& 0 <= j < repos.len()
    &&& repos[i].broadcast_tags@[t]@ == repos[j].recipient_name()
}

/// Why a configuration cannot be loaded.
pub enum ConfigFault {
    /// There is no such file.
    Missing,
    /// It holds a `[cluster]` section.
    Cluster,
    /// It lists no repo.
    NoRepos,
    /// The workdir of this entry, the first such, is no directory.
    MissingWorkdir(int),
    /// A tag of this entry, the first such, is the recipient of some entry.
    TagCollision(int),
}

/// Whether some tag of entry `i` is the recipient of some entry.
pub open spec fn entry_collides(repos: Seq<WatchRepoConfig>, i: int) -> bool {
    exists|t: int, j: int| tag_collides(repos, i, t, j)
}

/// What is wrong with a configuration, `is_dir[i]` being whether the workdir
/// of entry `i` is a directory. The faults are looked for in the order in
/// which `ConfigFault` lists them.
pub open spec fn fault_in(found: Option<&WatchConfig>, is_dir: Seq<bool>, fault: ConfigFault) -> bool {
    match found {
        None => fault is Missing,
        Some(config) => {
            let repos = config.repos@;
            let dirs_ok = forall|i: int| 0 <= i < repos.len() ==> #[trigger] is_dir[i];
            match fault {
                ConfigFault::Missing => false,
                ConfigFault::Cluster => config.cluster is Some,
                ConfigFault::NoRepos => config.cluster is None && repos.len() == 0,
                ConfigFault::MissingWorkdir(i) => {
                    &&& config.cluster is None
                    &&& 0 <= i < repos.len()
                    &&& !is_dir[i]
                    &&& forall|j: int| 0 <= j < i ==> #[trigger] is_dir[j]
                },
                ConfigFault::TagCollision(i) => {
                    &&& config.cluster is None
                    &&& dirs_ok
                    &&& entry_collides(repos, i)
                    &&& forall|j: int| 0 <= j < i ==> !#[trigger] entry_collides(repos, j)
                },
            }
        },
    }
}

/// Whether a configuration can be loaded.
pub open spec fn loadable(found: Option<&WatchConfig>, is_dir: Seq<bool>) -> bool {
    found matches Some(config) && {
        &&& config.cluster is None
        &&& config.repos@.len() > 0
        &&& forall|i: int| 0 <= i < config.repos@.len() ==> #[trigger] is_dir[i]
        &&& forall|i: int|
            0 <= i < config.repos@.len() ==> !#[trigger] entry_collides(config.repos@, i)
    }
}

/// The message for a fault of a configuration read from `path`.
pub open spec fn fault_message(
    path: Seq<char>,
    found: Option<&WatchConfig>,
    fault: ConfigFault,
) -> Seq<char> {
    let repos = found->Some_0.repos@;
    match fault {
        ConfigFault::Missing => "config file not found: "@ + path
            + ". Create it with watched repos."@,
        ConfigFault::Cluster => "watch.toml contains a [cluster] section, but cluster sync is \
             configured in cluster.toml (same directory), not watch.toml. \
             Remove [cluster] from "@ + path
            + " and put the settings in cluster.toml \
             (see `legion cluster --help`)."@,
        ConfigFault::NoRepos => "no repos configured in watch.toml"@,
        ConfigFault::MissingWorkdir(i) => "workdir does not exist for repo '"@
            + repos[i].name@ + "': "@ + repos[i].workdir@,
        ConfigFault::TagCollision(i) => "a broadcast tag of repo '"@ + repos[i].name@
            + "' is the recipient of a watched repo"@,
    }
}

fn find_collision(repos: &Vec<WatchRepoConfig>, i: usize) -> (found: bool)
    requires
        i < repos@.len(),
    ensures
        found == entry_collides(repos@, i as int),
{
    let tags = &repos[i].broadcast_tags;
    for t in 0..tags.len()
        invariant
            i < repos@.len(),
            tags == repos@[i as int].broadcast_tags,
            forall|u: int, j: int| 0 <= u < t ==> !tag_collides(repos@, i as int, u, j),
    {
        for j in 0..repos.len()
            invariant
                i < repos@.len(),
                tags == repos@[i as int].broadcast_tags,
                t < tags@.len(),
                forall|k: int| 0 <= k < j ==> !tag_collides(repos@, i as int, t as int, k),
        {
            if text_eq(tags[t].as_str(), repos[j].recipient()) {
                assert(tag_collides(repos@, i as int, t as int, j as int));
                return true;
            }
        }
    }
    assert forall|u: int, j: int| !tag_collides(repos@, i as int, u, j) by {}
    false
}

/// Decides whether the configuration that was found at `path` can be used.
/// `is_dir[i]` says whether the workdir of entry `i` is a directory.
///
/// A missing file, a `[cluster]` section, an empty repo table, a workdir that
/// is no directory and a tag that is also a recipient are refused.
pub fn load_config(path: &str, found: Option<&WatchConfig>, is_dir: &[bool]) -> (checked: Result<
    (),
    LegionError,
>)
    requires
        found matches Some(config) ==> is_dir@.len() == config.repos@.len(),
    ensures
        checked is Ok <==> loadable(found, is_dir@),
        checked matches Err(e) ==> exists|fault: ConfigFault|
            #[trigger] fault_in(found, is_dir@, fault) && e == LegionError::WatchConfig(
                e->WatchConfig_0,
            ) && e->WatchConfig_0@ == fault_message(path@, found, fault),
{
    let config = match found {
        Some(c) => c,
        None => {
            let mut message = "config file not found: ".to_string();
            message.append(path);
            message.append(". Create it with watched repos.");
            assert(fault_in(found, is_dir@, ConfigFault::Missing));
            return Err(LegionError::WatchConfig(message));
        },
    };
    if config.cluster.is_some() {
        let mut message =
            "watch.toml contains a [cluster] section, but cluster sync is \
             configured in cluster.toml (same directory), not watch.toml. \
             Remove [cluster] from ".to_string();
        message.append(path);
        message.append(
            " and put the settings in cluster.toml \
             (see `legion cluster --help`).",
        );
        assert(fault_in(found, is_dir@, ConfigFault::Cluster));
        return Err(LegionError::WatchConfig(message));
    }
    if config.repos.len() == 0 {
        assert(fault_in(found, is_dir@, ConfigFault::NoRepos));
        return Err(LegionError::WatchConfig("no repos configured in watch.toml".to_string()));
    }
    for i in 0..config.repos.len()
        invariant
            found == Some(config),
            is_dir@.len() == config.repos@.len(),
            config.cluster is None,
            forall|j: int| 0 <= j < i ==> #[trigger] is_dir@[j],
    {
        if !is_dir[i] {
            let mut message = "workdir does not exist for repo '".to_string();
            message.append(config.repos[i].name.as_str());
            message.append("': ");
            message.append(config.repos[i].workdir.as_str());
            assert(fault_in(found, is_dir@, ConfigFault::MissingWorkdir(i as int)));
            return Err(LegionError::WatchConfig(message));
        }
    }
    for i in 0..config.repos.len()
        invariant
            found == Some(config),
            config.cluster is None,
            forall|j: int| 0 <= j < config.repos@.len() ==> #[trigger] is_dir@[j],
            forall|j: int| 0 <= j < i ==> !#[trigger] entry_collides(config.repos@, j),
    {
        if find_collision(&config.repos, i) {
            let mut message = "a broadcast tag of repo '".to_string();
            message.append(config.repos[i].name.as_str());
            message.append("' is the recipient of a watched repo");
            assert(fault_in(found, is_dir@, ConfigFault::TagCollision(i as int)));
            return Err(LegionError::WatchConfig(message));
        }
    }
    Ok(())
}

// -- Laws --------------------------------------------------------------------

/// A repo is found under its recipient name: a signal addressed to that name
/// reaches it, whatever tags it has.
pub proof fn law_recipient_is_a_wake_address(repo: WatchRepoConfig)
    ensures
        (seq![repo.recipient_name()] + texts(repo.broadcast_tags@)).contains(repo.recipient_name()),
        forall|t: int|
            0 <= t < repo.broadcast_tags@.len() ==> (seq![repo.recipient_name()] + texts(
                repo.broadcast_tags@,
            )).contains((#[trigger] repo.broadcast_tags@[t])@),
{
    let names = seq![repo.recipient_name()] + texts(repo.broadcast_tags@);
    assert(names[0] == repo.recipient_name());
    assert forall|t: int| 0 <= t < repo.broadcast_tags@.len() implies names.contains(
        (#[trigger] repo.broadcast_tags@[t])@,
    ) by {
        assert(names[t + 1] == repo.broadcast_tags@[t]@);
    }
}

/// Removing a name leaves no entry of that name, and keeps the entries of
/// every other name as they were.
pub proof fn law_removal_takes_all_and_only_the_name(
    repos: Seq<WatchRepoConfig>,
    name: Seq<char>,
)
    ensures
        !has_name(repos.filter(not_named(name)), name),
        forall|i: int|
            0 <= i < repos.len() && (#[trigger] repos[i]).name@ != name ==> repos.filter(
                not_named(name),
            ).contains(repos[i]),
{
    let kept = repos.filter(not_named(name));
    assert forall|i: int| 0 <= i < kept.len() implies #[trigger] kept[i].name@ != name by {
        repos.lemma_filter_pred(not_named(name), i);
    }
    assert forall|i: int| 0 <= i < repos.len() && (#[trigger] repos[i]).name@ != name implies kept.contains(
        repos[i],
    ) by {
        repos.lemma_filter_contains(not_named(name), i);
    }
}

/// Removing a repo that was just added gives the entries back as they were.
pub proof fn law_removing_undoes_adding(repos: Seq<WatchRepoConfig>, entry: WatchRepoConfig)
    requires
        !has_name(repos, entry.name@),
    ensures
        repos.push(entry).filter(not_named(entry.name@)) == repos,
{
    reveal(Seq::filter);
    let pred = not_named(entry.name@);
    assert(repos.push(entry).drop_last() =~= repos);
    lemma_filter_keeps_all(repos, pred);
}

proof fn lemma_filter_keeps_all(
    repos: Seq<WatchRepoConfig>,
    pred: spec_fn(WatchRepoConfig) -> bool,
)
    requires
        forall|i: int| 0 <= i < repos.len() ==> pred(#[trigger] repos[i]),
    ensures
        repos.filter(pred) == repos,
    decreases repos.len(),
{
    reveal(Seq::filter);
    if repos.len() > 0 {
        let rest = repos.drop_last();
        assert forall|i: int| 0 <= i < rest.len() implies pred(#[trigger] rest[i]) by {
            assert(rest[i] == repos[i]);
        }
        lemma_filter_keeps_all(rest, pred);
        assert(pred(repos[repos.len() - 1]));
        assert(rest.push(repos.last()) =~= repos);
    }
}

proof fn lemma_replaced_by_itself(s: Seq<char>, pat: Seq<char>, i: int)
    requires
        0 <= i <= s.len(),
        pat.len() > 0,
    ensures
        replaced_from(s, pat, pat, i) == s.skip(i),
    decreases s.len() - i,
{
    if i < s.len() {
        if occurs_at(s, pat, i) {
            lemma_replaced_by_itself(s, pat, i + pat.len());
            assert(pat + s.skip(i + pat.len()) =~= s.skip(i)) by {
                assert(s.skip(i) =~= s.subrange(i, i + pat.len()) + s.skip(i + pat.len()));
            }
        } else {
            lemma_replaced_by_itself(s, pat, i + 1);
            assert(seq![s[i]] + s.skip(i + 1) =~= s.skip(i));
        }
    }
}

/// Renaming a repo to the name that it has leaves the file as it is.
pub proof fn law_renaming_to_the_same_name_changes_nothing(contents: Seq<char>, name: Seq<char>)
    ensures
        replaced(contents, name_line(name), name_line(name)) == contents,
{
    reveal_strlit("name = \"");
    lemma_replaced_by_itself(contents, name_line(name), 0);
    assert(contents.skip(0) =~= contents);
}

/// An agent name that was normalized stays as it is, and is never blank.
pub proof fn law_normalized_agents_are_normal(agent: Option<Seq<char>>)
    ensures
        normalized_agent(normalized_agent(agent)) == normalized_agent(agent),
        normalized_agent(agent) matches Some(a) ==> a.len() > 0,
{
    if let Some(a) = agent {
        lemma_trimmed_is_fixed(a);
    }
}

/// A repo is addressed by its agent, without the whitespace around that name,
/// and by its own name exactly if no agent is set or the agent is blank. It is
/// delegated exactly if the two differ.
pub proof fn law_agent_is_whom_signals_are_for(
    repo: &WatchRepoConfig,
    name: &str,
    delegated: bool,
    names: Vec<String>,
)
    requires
        call_ensures(WatchRepoConfig::recipient, (repo,), name),
        call_ensures(WatchRepoConfig::is_delegated, (repo,), delegated),
        call_ensures(WatchRepoConfig::wake_addresses, (repo,), names),
    ensures
        repo.agent is None ==> name@ == repo.name@,
        repo.agent matches Some(agent) ==> (if trimmed(agent@) == Seq::<char>::empty() {
            name@ == repo.name@
        } else {
            name@ == trimmed(agent@)
        }),
        delegated <==> name@ != repo.name@,
        names@.len() == repo.broadcast_tags@.len() + 1,
        names@[0]@ == name@,
        forall|t: int|
            0 <= t < repo.broadcast_tags@.len() ==> names@[t + 1]@ == (
            #[trigger] repo.broadcast_tags@[t])@,
{
    if let Some(agent) = repo.agent {
        assert(trimmed(agent@).len() == 0 <==> trimmed(agent@) =~= Seq::<char>::empty());
    }
    let all = seq![repo.recipient_name()] + texts(repo.broadcast_tags@);
    assert(texts(names@).len() == names@.len());
    assert forall|k: int| 0 <= k < names@.len() implies (#[trigger] names@[k])@ == all[k] by {
        assert(texts(names@)[k] == names@[k]@);
    }
}

/// One `@` in front of an address does not matter: with it and without it the
/// same is meant. Everybody is meant exactly by `all` and `everyone`, in
/// whichever case.
pub proof fn law_one_at_sign_does_not_matter(
    name: &str,
    with_at: &str,
    plain: Recipient,
    marked: Recipient,
)
    requires
        with_at@ == seq!['@'] + name@,
        name@.len() > 0 ==> name@[0] != '@',
        call_ensures(Recipient::parse, (name,), plain),
        call_ensures(Recipient::parse, (with_at,), marked),
    ensures
        lower(name@) == "all"@ || lower(name@) == "everyone"@ ==> plain == Recipient::Broadcast(
            BroadcastTarget::All,
        ) && marked == Recipient::Broadcast(BroadcastTarget::All),
        lower(name@) != "all"@ && lower(name@) != "everyone"@ ==> (plain matches Recipient::Agent(a)
            && a@ == name@) && (marked matches Recipient::Agent(b) && b@ == name@),
{
    assert(with_at@.drop_first() =~= name@);
}

/// A repo is added exactly if neither its path nor its name is listed, at
/// whichever place. A path that is listed is left alone, whatever the name; a
/// name that another path holds is refused, and the first that holds it is
/// told. Nothing else of the configuration changes.
pub proof fn law_repo_is_added_exactly_if_new(
    before: WatchConfig,
    name: Seq<char>,
    workdir: Seq<char>,
    agent: Option<Seq<char>>,
    added: Result<bool, LegionError>,
    after: WatchConfig,
)
    requires
        adds_repo(before, name, workdir, agent, added, after),
    ensures
        after == (WatchConfig { repos: after.repos, ..before }),
        forall|i: int|
            0 <= i < before.repos@.len() && (#[trigger] before.repos@[i]).workdir@ == workdir
                ==> added == Ok::<bool, LegionError>(false) && after.repos@ == before.repos@,
        (forall|i: int|
            0 <= i < before.repos@.len() ==> (#[trigger] before.repos@[i]).workdir@ != workdir) ==> (
        forall|i: int|
            0 <= i < before.repos@.len() && (#[trigger] before.repos@[i]).name@ == name && (forall|
                j: int,
            |
                0 <= j < i ==> (#[trigger] before.repos@[j]).name@ != name) ==> after.repos@
                == before.repos@ && (added matches Err(LegionError::WatchConfig(m)) && m@ == "name '"@
                + name + "' already in use by "@ + before.repos@[i].workdir@)),
        (forall|i: int|
            0 <= i < before.repos@.len() ==> (#[trigger] before.repos@[i]).workdir@ != workdir
                && before.repos@[i].name@ != name) ==> {
            &&& added == Ok::<bool, LegionError>(true)
            &&& after.repos@.len() == before.repos@.len() + 1
            &&& after.repos@.drop_last() == before.repos@
            &&& after.repos@.last().name@ == name
            &&& after.repos@.last().workdir@ == workdir
            &&& opt_text(after.repos@.last().agent) == agent
        },
{
    let repos = before.repos@;
    assert forall|i: int| 0 <= i < repos.len() && (#[trigger] repos[i]).workdir@ == workdir implies (
    added == Ok::<bool, LegionError>(false) && after.repos@ == repos) by {
        assert(repos[i].workdir@ == workdir);
        assert(has_workdir(repos, workdir));
    }
    if forall|i: int| 0 <= i < repos.len() ==> (#[trigger] repos[i]).workdir@ != workdir {
        assert(!has_workdir(repos, workdir));
        assert forall|i: int|
            0 <= i < repos.len() && (#[trigger] repos[i]).name@ == name && (forall|j: int|
                0 <= j < i ==> (#[trigger] repos[j]).name@ != name) implies after.repos@ == repos && (
        added matches Err(LegionError::WatchConfig(m)) && m@ == "name '"@ + name
            + "' already in use by "@ + repos[i].workdir@) by {
            assert(repos[i].name@ == name);
            assert(has_name(repos, name));
            let e = added->Err_0;
            let k = choose|k: int|
                #[trigger] first_named(repos, name, k) && e == LegionError::WatchConfig(
                    e->WatchConfig_0,
                ) && e->WatchConfig_0@ == name_in_use(name, repos[k].workdir@);
            assert(first_named(repos, name, k));
            assert(i == k) by {
                assert(repos[i].name@ == name && repos[k].name@ == name);
            }
        }
    }
    if forall|i: int|
        0 <= i < repos.len() ==> (#[trigger] repos[i]).workdir@ != workdir && repos[i].name@ != name {
        assert(!has_workdir(repos, workdir));
        assert(!has_name(repos, name));
        if added is Err {
            let e = added->Err_0;
            let k = choose|k: int|
                #[trigger] first_named(repos, name, k) && e == LegionError::WatchConfig(
                    e->WatchConfig_0,
                ) && e->WatchConfig_0@ == name_in_use(name, repos[k].workdir@);
            assert(repos[k].name@ == name);
        }
        assert(repos.push(after.repos@.last()).drop_last() =~= repos);
    }
}

/// A configuration is taken exactly if it was found, has no `[cluster]`
/// section, lists a repo, has a directory for each, and no tag of any entry is
/// the recipient of any entry, its own included.
pub proof fn law_configuration_is_taken_exactly_if_sound(
    path: &str,
    found: Option<&WatchConfig>,
    is_dir: &[bool],
    checked: Result<(), LegionError>,
)
    requires
        found matches Some(config) ==> is_dir@.len() == config.repos@.len(),
        call_ensures(load_config, (path, found, is_dir), checked),
    ensures
        found is None ==> checked is Err,
        found matches Some(config) ==> (checked is Ok <==> {
            &&& config.cluster is None
            &&& config.repos@.len() >= 1
            &&& forall|i: int| 0 <= i < is_dir@.len() ==> #[trigger] is_dir@[i]
            &&& forall|i: int, t: int, j: int|
                0 <= i < config.repos@.len() && 0 <= t < config.repos@[i].broadcast_tags@.len() && 0
                    <= j < config.repos@.len() ==> (
                #[trigger] config.repos@[i].broadcast_tags@[t])@ != (
                #[trigger] config.repos@[j]).recipient_name()
        }),
{
    if let Some(config) = found {
        let repos = config.repos@;
        if checked is Ok {
            assert forall|i: int, t: int, j: int|
                0 <= i < repos.len() && 0 <= t < repos[i].broadcast_tags@.len() && 0 <= j
                    < repos.len() implies (#[trigger] repos[i].broadcast_tags@[t])@ != (
            #[trigger] repos[j]).recipient_name() by {
                assert(!entry_collides(repos, i));
                assert(!tag_collides(repos, i, t, j));
            }
        } else if config.cluster is None && repos.len() >= 1 && forall|i: int|
            0 <= i < is_dir@.len() ==> #[trigger] is_dir@[i] {
            let i = choose|i: int| 0 <= i < repos.len() && #[trigger] entry_collides(repos, i);
            let (t, j) = choose|t: int, j: int| tag_collides(repos, i, t, j);
            assert(repos[i].broadcast_tags@[t]@ == repos[j].recipient_name());
        }
    }
}

/// What is wrong with a configuration is told in this order: a missing file, a
/// `[cluster]` section, an empty list, the first workdir that is no directory,
/// the first entry with a tag that is a recipient.
pub proof fn law_first_fault_is_told(
    path: &str,
    found: Option<&WatchConfig>,
    is_dir: &[bool],
    checked: Result<(), LegionError>,
    i: int,
)
    requires
        found matches Some(config) ==> is_dir@.len() == config.repos@.len(),
        call_ensures(load_config, (path, found, is_dir), checked),
    ensures
        found is None ==> (checked matches Err(LegionError::WatchConfig(m)) && m@
            == "config file not found: "@ + path@ + ". Create it with watched repos."@),
        found matches Some(config) ==> {
            &&& config.cluster is Some ==> (checked matches Err(LegionError::WatchConfig(m)) && m@
                == fault_message(path@, found, ConfigFault::Cluster))
            &&& config.cluster is None && config.repos@.len() == 0 ==> (checked matches Err(
                LegionError::WatchConfig(m),
            ) && m@ == "no repos configured in watch.toml"@)
            &&& config.cluster is None && 0 <= i < is_dir@.len() && !is_dir@[i] && (forall|j: int|
                0 <= j < i ==> #[trigger] is_dir@[j]) ==> (checked matches Err(
                LegionError::WatchConfig(m),
            ) && m@ == "workdir does not exist for repo '"@ + config.repos@[i].name@ + "': "@
                + config.repos@[i].workdir@)
            &&& config.cluster is None && (forall|j: int|
                0 <= j < is_dir@.len() ==> #[trigger] is_dir@[j]) && 0 <= i < config.repos@.len()
                && entry_collides(config.repos@, i) && (forall|j: int|
                0 <= j < i ==> !#[trigger] entry_collides(config.repos@, j)) ==> (
            checked matches Err(LegionError::WatchConfig(m)) && m@ == "a broadcast tag of repo '"@
                + config.repos@[i].name@ + "' is the recipient of a watched repo"@)
        },
{
    if checked is Err {
        let e = checked->Err_0;
        let fault = choose|fault: ConfigFault|
            #[trigger] fault_in(found, is_dir@, fault) && e == LegionError::WatchConfig(
                e->WatchConfig_0,
            ) && e->WatchConfig_0@ == fault_message(path@, found, fault);
        assert(fault_in(found, is_dir@, fault));
        if let Some(config) = found {
            match fault {
                ConfigFault::TagCollision(k) => {
                    let (t, j) = choose|t: int, j: int| tag_collides(config.repos@, k, t, j);
                    assert(tag_collides(config.repos@, k, t, j));
                },
                _ => {},
            }
        }
    }
}

/// A rename is carried out exactly if the file names the repo, and changes the
/// lines that name it and nothing else.
pub proof fn law_rename_changes_the_name_lines_alone(
    contents: &str,
    from: &str,
    to: &str,
    updated: Option<String>,
    at: int,
)
    requires
        call_ensures(rename_in_config, (contents, from, to), updated),
    ensures
        ({
            let old_line = "name = \""@ + from@ + "\""@;
            let new_line = "name = \""@ + to@ + "\""@;
            &&& updated is Some <==> has_text(contents@, old_line)
            &&& occurs_at(contents@, old_line, at) && (forall|j: int|
                0 <= j < at ==> !#[trigger] occurs_at(contents@, old_line, j)) ==> (
            updated matches Some(text) && text@ == contents@.take(at) + new_line + replaced(
                contents@.skip(at + old_line.len()),
                old_line,
                new_line,
            ))
        }),
{
    reveal_strlit("name = \"");
    law_each_occurrence_is_replaced(contents@, name_line(from@), name_line(to@), at);
}

/// Removing a name says whether there was one, leaves no entry of that name,
/// and keeps every other entry in its order. Nothing else of the configuration
/// changes.
pub proof fn law_removal_says_what_it_did(config: &mut WatchConfig, name: &str, removed: bool)
    requires
        call_ensures(remove_repo_from_config, (config, name), removed),
    ensures
        removed <==> exists|i: int|
            0 <= i < old(config).repos@.len() && (#[trigger] old(config).repos@[i]).name@ == name@,
        !removed ==> final(config).repos@ == old(config).repos@,
        forall|i: int|
            0 <= i < final(config).repos@.len() ==> (#[trigger] final(config).repos@[i]).name@
                != name@,
        forall|i: int|
            0 <= i < old(config).repos@.len() && (#[trigger] old(config).repos@[i]).name@ != name@
                ==> final(config).repos@.contains(old(config).repos@[i]),
        *final(config) == (WatchConfig { repos: final(config).repos, ..*old(config) }),
{
    let repos = old(config).repos@;
    law_removal_takes_all_and_only_the_name(repos, name@);
    if exists|i: int| 0 <= i < repos.len() && (#[trigger] repos[i]).name@ == name@ {
        let i = choose|i: int| 0 <= i < repos.len() && (#[trigger] repos[i]).name@ == name@;
        assert(repos[i].name@ == name@);
    } else {
        assert forall|i: int| 0 <= i < repos.len() implies not_named(name@)(#[trigger] repos[i]) by {
            assert(repos[i].name@ != name@);
        }
        lemma_filter_keeps_all(repos, not_named(name@));
    }
    assert forall|i: int| 0 <= i < final(config).repos@.len() implies (
    #[trigger] final(config).repos@[i]).name@ != name@ by {
        repos.lemma_filter_pred(not_named(name@), i);
    }
}

/// What is no directory, or cannot be resolved, is refused, and the message
/// says what was given. The configuration stays as it is.
pub proof fn law_bad_workdir_is_refused(
    config: &mut WatchConfig,
    name: &str,
    workdir: &Workdir,
    agent: Option<&str>,
    added: Result<bool, LegionError>,
)
    requires
        call_ensures(add_repo_to_config, (config, name, workdir, agent), added),
    ensures
        *workdir matches Workdir::NotADirectory(given) ==> *final(config) == *old(config) && (
        added matches Err(LegionError::WatchConfig(m)) && m@ == "workdir is not a directory: "@
            + given@),
        *workdir matches Workdir::Unresolved(given, why) ==> *final(config) == *old(config) && (
        added matches Err(LegionError::WatchConfig(m)) && m@ == "cannot resolve workdir "@ + given@
            + ": "@ + why@),
        *workdir matches Workdir::Canonical(path) ==> adds_repo(
            *old(config),
            name@,
            path@,
            match agent {
                Some(a) => if trimmed(a@).len() > 0 {
                    Some(trimmed(a@))
                } else {
                    None
                },
                None => None,
            },
            added,
            *final(config),
        ),
{
}

} // verus!
