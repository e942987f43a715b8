//! Work source plugins: where they are found, how they are called, and what a
//! run of one amounts to.
use vstd::prelude::*;
use crate::error::LegionError;
use crate::locks::{join_path, path_joined};
use crate::number::{
    bounded_numeral, decimal, numeral_value, parse_bounded, parse_u64, push_decimal,
};
use crate::order::{
    ints, lemma_lex_irreflexive, lemma_lex_total, lemma_lex_transitive, lex_before, version_before,
};
use crate::scan::{law_split_cuts_at_each_separator, split, split_chars, texts};
use crate::signal::{opt_str, opt_text};
use crate::spawn::{env_texts, push_env};
use crate::text::{text_eq, to_chars};

verus! {

broadcast use vstd::seq_lib::group_seq_properties;

// -- Versions ----------------------------------------------------------------

/// The number in one segment of a version; a segment that is no number counts
/// as zero.
pub open spec fn segment_number(segment: Seq<char>) -> u32 {
    match bounded_numeral(segment, u32::MAX as nat) {
        Some(n) => n as u32,
        None => 0,
    }
}

/// A version as the numbers of its dot-separated segments.
pub open spec fn version_of(v: Seq<char>) -> Seq<u32> {
    split(v, '.').map_values(|segment: Seq<char>| segment_number(segment))
}

/// Reads a version for comparison.
pub fn parse_semver(v: &str) -> (version: Vec<u32>)
    ensures
        version@ == version_of(v@),
{
    let chars = to_chars(v);
    let parts = split_chars(chars.as_slice(), '.');
    let mut version: Vec<u32> = Vec::new();
    for i in 0..parts.len()
        invariant
            version@.len() == i,
            forall|j: int| 0 <= j < i ==> #[trigger] version@[j] == segment_number(parts@[j]@),
    {
        let n: u32 = match parse_bounded(parts[i].as_slice(), u32::MAX as u64) {
            Some(n) => n as u32,
            None => 0,
        };
        version.push(n);
    }
    assert(version@ =~= version_of(v@));
    version
}

/// A version directory of the plugin cache.
#[derive(Debug)]
pub struct CachedPlugin {
    /// The version, where the directory's name can be read as text.
    pub version: Option<String>,
    /// Where this version would hold the plugin.
    pub path: String,
    /// Whether it does.
    pub exists: bool,
}

/// Whether the version directory can supply the plugin.
pub open spec fn supplies(c: CachedPlugin) -> bool {
    c.exists && c.version is Some
}

/// The version of a cached plugin, as integers.
pub open spec fn cached_version(c: CachedPlugin) -> Seq<int> {
    ints(version_of(c.version->Some_0@))
}

/// Whether the candidate at `i` is the one to take: it has the plugin, none
/// that has it has a higher version, and each before it has a lower one.
pub open spec fn is_best(candidates: Seq<CachedPlugin>, i: int) -> bool {
    &&& 0 <= i < candidates.len()
    &&& supplies(candidates[i])
    &&& forall|j: int|
        0 <= j < candidates.len() && supplies(#[trigger] candidates[j]) ==> !lex_before(
            cached_version(candidates[i]),
            cached_version(candidates[j]),
        )
    &&& forall|j: int|
        0 <= j < i && supplies(#[trigger] candidates[j]) ==> lex_before(
            cached_version(candidates[j]),
            cached_version(candidates[i]),
        )
}

proof fn lemma_best_stays(candidates: Seq<CachedPlugin>, best: int, next: CachedPlugin)
    requires
        is_best(candidates, best),
        supplies(next) ==> !lex_before(cached_version(candidates[best]), cached_version(next)),
    ensures
        is_best(candidates.push(next), best),
{
    let longer = candidates.push(next);
    assert(longer[best] == candidates[best]);
    assert forall|j: int| 0 <= j < longer.len() && supplies(#[trigger] longer[j]) implies !lex_before(
        cached_version(longer[best]),
        cached_version(longer[j]),
    ) by {
        if j < candidates.len() {
            assert(longer[j] == candidates[j]);
        }
    }
    assert forall|j: int| 0 <= j < best && supplies(#[trigger] longer[j]) implies lex_before(
        cached_version(longer[j]),
        cached_version(longer[best]),
    ) by {
        assert(longer[j] == candidates[j]);
    }
}

proof fn lemma_best_moves(candidates: Seq<CachedPlugin>, best: int, next: CachedPlugin)
    requires
        is_best(candidates, best),
        supplies(next),
        lex_before(cached_version(candidates[best]), cached_version(next)),
    ensures
        is_best(candidates.push(next), candidates.len() as int),
{
    let longer = candidates.push(next);
    let top = cached_version(candidates[best]);
    let new = cached_version(next);
    lemma_lex_irreflexive(new);
    assert forall|j: int| 0 <= j < longer.len() && supplies(#[trigger] longer[j]) implies !lex_before(
        new,
        cached_version(longer[j]),
    ) by {
        if j < candidates.len() {
            assert(longer[j] == candidates[j]);
            if lex_before(new, cached_version(candidates[j])) {
                lemma_lex_transitive(top, new, cached_version(candidates[j]));
            }
        }
    }
    assert forall|j: int|
        0 <= j < candidates.len() && supplies(#[trigger] longer[j]) implies lex_before(
        cached_version(longer[j]),
        new,
    ) by {
        assert(longer[j] == candidates[j]);
        let other = cached_version(candidates[j]);
        lemma_lex_total(other, top);
        if lex_before(other, top) {
            lemma_lex_transitive(other, top, new);
        }
    }
}

/// The plugin with the highest version; of equal versions the first.
pub fn find_in_cache_root(candidates: &[CachedPlugin]) -> (path: Option<String>)
    ensures
        path is None <==> forall|i: int|
            0 <= i < candidates@.len() ==> !supplies(#[trigger] candidates@[i]),
        path matches Some(p) ==> exists|i: int| #[trigger]
            is_best(candidates@, i) && p@ == candidates@[i].path@,
{
    let mut best: Option<(usize, Vec<u32>)> = None;
    for k in 0..candidates.len()
        invariant
            k <= candidates@.len(),
            match best {
                Some((b, version)) => {
                    &&& version@ == version_of(candidates@[b as int].version->Some_0@)
                    &&& b < k
                    &&& is_best(candidates@.take(k as int), b as int)
                },
                None => forall|j: int| 0 <= j < k ==> !supplies(#[trigger] candidates@[j]),
            },
    {
        let ghost seen = candidates@.take(k as int);
        assert(candidates@.take(k + 1) == seen.push(candidates@[k as int]));
        match &candidates[k].version {
            Some(name) if candidates[k].exists => {
                let version = parse_semver(name.as_str());
                let higher = match &best {
                    Some((b, best_version)) => {
                        assert(seen[*b as int] == candidates@[*b as int]);
                        let higher = version_before(best_version.as_slice(), version.as_slice());
                        proof {
                            if higher {
                                lemma_best_moves(seen, *b as int, candidates@[k as int]);
                            } else {
                                lemma_best_stays(seen, *b as int, candidates@[k as int]);
                            }
                        }
                        higher
                    },
                    None => {
                        proof {
                            lemma_lex_irreflexive(cached_version(candidates@[k as int]));
                        }
                        true
                    },
                };
                if higher {
                    best = Some((k, version));
                }
            },
            _ => {
                proof {
                    if let Some((b, _)) = best {
                        lemma_best_stays(seen, b as int, candidates@[k as int]);
                    }
                }
            },
        }
    }
    assert(candidates@.take(candidates@.len() as int) == candidates@);
    match best {
        Some((b, _)) => Some(candidates[b].path.clone()),
        None => None,
    }
}

// -- Finding a plugin --------------------------------------------------------

/// The path of a plugin under a directory.
pub open spec fn plugin_under(dir: Seq<char>, name: Seq<char>) -> Seq<char> {
    path_joined(path_joined(dir, "worksources"@), name)
}

/// The path of a plugin under a directory.
pub fn plugin_path(dir: &str, name: &str) -> (path: String)
    ensures
        path@ == plugin_under(dir@, name@),
{
    let sources = join_path(dir, "worksources");
    join_path(sources.as_str(), name)
}

/// The paths at which a plugin is looked for, in order: under the plugin root
/// unless it is unset or empty, beside the executable, and one directory
/// above it.
pub open spec fn plugin_candidates(
    name: Seq<char>,
    root: Option<Seq<char>>,
    exe_dir: Option<Seq<char>>,
    exe_parent: Option<Seq<char>>,
) -> Seq<Seq<char>> {
    let first = match root {
        Some(r) => if r.len() > 0 {
            seq![plugin_under(r, name)]
        } else {
            Seq::empty()
        },
        None => Seq::empty(),
    };
    let second = match exe_dir {
        Some(d) => first.push(plugin_under(d, name)),
        None => first,
    };
    match exe_parent {
        Some(d) => second.push(plugin_under(d, name)),
        None => second,
    }
}

/// The paths at which a plugin is looked for, in order.
pub fn plugin_paths(
    name: &str,
    root: Option<&str>,
    exe_dir: Option<&str>,
    exe_parent: Option<&str>,
) -> (paths: Vec<String>)
    ensures
        texts(paths@) == plugin_candidates(
            name@,
            opt_str(root),
            opt_str(exe_dir),
            opt_str(exe_parent),
        ),
{
    let mut paths: Vec<String> = Vec::new();
    match root {
        Some(r) => {
            if !r.is_empty() {
                paths.push(plugin_path(r, name));
            }
        },
        None => {},
    }
    let ghost first = texts(paths@);
    match exe_dir {
        Some(d) => {
            paths.push(plugin_path(d, name));
            assert(texts(paths@) =~= first.push(plugin_under(d@, name@)));
        },
        None => {},
    }
    let ghost second = texts(paths@);
    match exe_parent {
        Some(d) => {
            paths.push(plugin_path(d, name));
            assert(texts(paths@) =~= second.push(plugin_under(d@, name@)));
        },
        None => {},
    }
    assert(texts(paths@) =~= plugin_candidates(
        name@,
        opt_str(root),
        opt_str(exe_dir),
        opt_str(exe_parent),
    ));
    paths
}

/// The first path that exists, from `i` on.
pub open spec fn first_existing(exists: Seq<bool>, i: int) -> int
    decreases exists.len() - i,
{
    if i >= exists.len() {
        exists.len() as int
    } else if exists[i] {
        i
    } else {
        first_existing(exists, i + 1)
    }
}

/// Resolves a plugin: the first of `paths` that exists, else what the plugin
/// cache holds.
pub fn resolve_plugin(paths: &[String], exists: &[bool], cached: Option<String>) -> (path: Option<String>)
    requires
        paths@.len() == exists@.len(),
    ensures
        ({
            let at = first_existing(exists@, 0);
            if at < paths@.len() {
                path matches Some(p) && p@ == paths@[at]@
            } else {
                path == cached
            }
        }),
{
    for i in 0..paths.len()
        invariant
            paths@.len() == exists@.len(),
            first_existing(exists@, 0) == first_existing(exists@, i as int),
    {
        if exists[i] {
            return Some(paths[i].clone());
        }
    }
    cached
}

/// The plugins that were resolved so far, by name.
#[derive(Debug)]
pub struct PluginCache {
    pub entries: Vec<(String, String)>,
}

/// The path that the first entry for `name` holds.
pub open spec fn path_for(entries: Seq<(Seq<char>, Seq<char>)>, name: Seq<char>) -> Option<Seq<char>>
    decreases entries.len(),
{
    if entries.len() == 0 {
        None
    } else if entries[0].0 == name {
        Some(entries[0].1)
    } else {
        path_for(entries.drop_first(), name)
    }
}

proof fn lemma_path_for_push(
    entries: Seq<(Seq<char>, Seq<char>)>,
    entry: (Seq<char>, Seq<char>),
    name: Seq<char>,
)
    ensures
        path_for(entries.push(entry), name) == (if path_for(entries, name) is Some {
            path_for(entries, name)
        } else if entry.0 == name {
            Some(entry.1)
        } else {
            None
        }),
    decreases entries.len(),
{
    let longer = entries.push(entry);
    if entries.len() == 0 {
        assert(longer[0] == entry);
        assert(longer.drop_first() =~= Seq::empty());
        assert(path_for(longer.drop_first(), name) is None);
    } else {
        lemma_path_for_push(entries.drop_first(), entry, name);
        assert(longer[0] == entries[0]);
        assert(longer.drop_first() =~= entries.drop_first().push(entry));
    }
}

impl PluginCache {
    /// The path that is remembered for `name`.
    pub open spec fn remembered(&self, name: Seq<char>) -> Option<Seq<char>> {
        path_for(env_texts(self.entries@), name)
    }

    /// Remembers nothing.
    pub fn new() -> (cache: Self)
        ensures
            forall|name: Seq<char>| #[trigger] cache.remembered(name) is None,
    {
        PluginCache { entries: Vec::new() }
    }

    /// The path that is remembered for `name`.
    pub fn get(&self, name: &str) -> (path: Option<String>)
        ensures
            path is Some <==> self.remembered(name@) is Some,
            path matches Some(p) ==> self.remembered(name@) == Some(p@),
    {
        let ghost all = env_texts(self.entries@);
        assert(all.skip(0) =~= all);
        for i in 0..self.entries.len()
            invariant
                all == env_texts(self.entries@),
                path_for(all, name@) == path_for(all.skip(i as int), name@),
        {
            assert(all.skip(i as int)[0] == all[i as int]);
            assert(all.skip(i as int).drop_first() =~= all.skip(i + 1));
            if text_eq(self.entries[i].0.as_str(), name) {
                return Some(self.entries[i].1.clone());
            }
        }
        None
    }

    /// The path of a plugin: the one that is remembered, else `resolved`,
    /// which is then remembered. A plugin that was not found is looked for
    /// again the next time.
    pub fn find_plugin(&mut self, name: &str, resolved: Option<String>) -> (path: Option<String>)
        ensures
            match old(self).remembered(name@) {
                Some(known) => path matches Some(p) && p@ == known && *final(self) == *old(self),
                None => match resolved {
                    Some(r) => {
                        &&& path matches Some(p) && p@ == r@
                        &&& final(self).remembered(name@) == Some(r@)
                        &&& forall|other: Seq<char>|
                            other != name@ ==> #[trigger] final(self).remembered(other) == old(
                                self,
                            ).remembered(other)
                    },
                    None => path is None && *final(self) == *old(self),
                },
            },
    {
        match self.get(name) {
            Some(known) => Some(known),
            None => match resolved {
                Some(r) => {
                    let ghost before = env_texts(self.entries@);
                    let ghost added = (name@, r@);
                    push_env(&mut self.entries, name, r.as_str());
                    proof {
                        lemma_path_for_push(before, added, name@);
                        assert forall|other: Seq<char>| other != name@ implies #[trigger] path_for(
                            before.push(added),
                            other,
                        ) == path_for(before, other) by {
                            lemma_path_for_push(before, added, other);
                        }
                    }
                    Some(r)
                },
                None => None,
            },
        }
    }
}

// -- Running a plugin --------------------------------------------------------

/// How long a plugin may run unless told otherwise, in seconds.
pub const DEFAULT_PLUGIN_TIMEOUT_SECS: u64 = 30;

/// The time limit that a setting names, in seconds: the default where it is
/// unset or no number, and none where it is zero.
pub open spec fn timeout_named(value: Option<Seq<char>>) -> Option<u64> {
    let secs = match value {
        Some(v) => match bounded_numeral(v, u64::MAX as nat) {
            Some(n) => n as u64,
            None => DEFAULT_PLUGIN_TIMEOUT_SECS,
        },
        None => DEFAULT_PLUGIN_TIMEOUT_SECS,
    };
    if secs == 0 {
        None
    } else {
        Some(secs)
    }
}

/// The time limit that the value of `LEGION_WS_TIMEOUT_SECS` names.
pub fn resolve_plugin_timeout(value: Option<&str>) -> (secs: Option<u64>)
    ensures
        secs == timeout_named(opt_str(value)),
{
    let secs: u64 = match value {
        Some(v) => match parse_u64(v) {
            Some(n) => n,
            None => DEFAULT_PLUGIN_TIMEOUT_SECS,
        },
        None => DEFAULT_PLUGIN_TIMEOUT_SECS,
    };
    if secs == 0 {
        None
    } else {
        Some(secs)
    }
}

/// What was read of an output stream of a plugin.
#[derive(Debug)]
pub enum StreamRead {
    /// The reader died.
    Panicked,
    /// Reading failed.
    Failed(String),
    Text(String),
}

/// How a run of a plugin went.
#[derive(Debug)]
pub enum PluginRun {
    SpawnFailed(String),
    StdoutMissing,
    StderrMissing,
    WaitFailed(String),
    /// It was killed after this many seconds.
    TimedOut(u64),
    Exited { success: bool, stdout: StreamRead, stderr: StreamRead },
}

/// The output of a run, or why it failed. Standard output must have been read
/// in full. Standard error is only for the message of a failed run, where an
/// unreadable one counts as empty.
pub open spec fn run_result(run: PluginRun) -> Result<Seq<char>, Seq<char>> {
    match run {
        PluginRun::SpawnFailed(e) => Err("failed to run plugin: "@ + e@),
        PluginRun::StdoutMissing => Err("plugin stdout missing"@),
        PluginRun::StderrMissing => Err("plugin stderr missing"@),
        PluginRun::WaitFailed(e) => Err("plugin wait: "@ + e@),
        PluginRun::TimedOut(secs) => Err("plugin timeout after "@ + decimal(secs as nat) + "s"@),
        PluginRun::Exited { success, stdout, stderr } => match stdout {
            StreamRead::Panicked => Err("plugin stdout reader panicked"@),
            StreamRead::Failed(e) => Err("plugin stdout: "@ + e@),
            StreamRead::Text(out) => match stderr {
                StreamRead::Panicked => Err("plugin stderr reader panicked"@),
                StreamRead::Failed(_) => if success {
                    Ok(out@)
                } else {
                    Err("plugin failed: "@)
                },
                StreamRead::Text(err) => if success {
                    Ok(out@)
                } else {
                    Err("plugin failed: "@ + err@)
                },
            },
        },
    }
}

/// Whether a result is `expected`, a failure being one of the work source.
pub open spec fn is_output(
    out: Result<String, LegionError>,
    expected: Result<Seq<char>, Seq<char>>,
) -> bool {
    match expected {
        Ok(text) => out matches Ok(s) && s@ == text,
        Err(text) => out matches Err(LegionError::WorkSource(m)) && m@ == text,
    }
}

fn failed<T>(lead: &str, rest: &str) -> (out: Result<T, LegionError>)
    ensures
        out matches Err(LegionError::WorkSource(m)) && m@ == lead@ + rest@,
{
    let mut message = lead.to_string();
    message.append(rest);
    Err(LegionError::WorkSource(message))
}

/// The output of a run, or why it failed.
pub fn call_plugin_result(run: PluginRun) -> (out: Result<String, LegionError>)
    ensures
        is_output(out, run_result(run)),
{
    match run {
        PluginRun::SpawnFailed(e) => failed("failed to run plugin: ", e.as_str()),
        PluginRun::StdoutMissing => Err(
            LegionError::WorkSource("plugin stdout missing".to_string()),
        ),
        PluginRun::StderrMissing => Err(
            LegionError::WorkSource("plugin stderr missing".to_string()),
        ),
        PluginRun::WaitFailed(e) => failed("plugin wait: ", e.as_str()),
        PluginRun::TimedOut(secs) => {
            let mut message = "plugin timeout after ".to_string();
            push_decimal(&mut message, secs);
            message.append("s");
            Err(LegionError::WorkSource(message))
        },
        PluginRun::Exited { success, stdout, stderr } => match stdout {
            StreamRead::Panicked => Err(
                LegionError::WorkSource("plugin stdout reader panicked".to_string()),
            ),
            StreamRead::Failed(e) => failed("plugin stdout: ", e.as_str()),
            StreamRead::Text(out) => match stderr {
                StreamRead::Panicked => Err(
                    LegionError::WorkSource("plugin stderr reader panicked".to_string()),
                ),
                StreamRead::Failed(_) => if success {
                    Ok(out)
                } else {
                    Err(LegionError::WorkSource("plugin failed: ".to_string()))
                },
                StreamRead::Text(err) => if success {
                    Ok(out)
                } else {
                    failed("plugin failed: ", err.as_str())
                },
            },
        },
    }
}

// -- Calls -------------------------------------------------------------------

/// A call of a plugin.
#[derive(Debug)]
pub struct PluginCall {
    pub path: String,
    pub args: Vec<String>,
    pub env: Vec<(String, String)>,
}

/// The model of a plugin call: its arguments and its settings, in order.
pub struct CallView {
    pub args: Seq<Seq<char>>,
    pub env: Seq<(Seq<char>, Seq<char>)>,
}

/// A call with one argument and no settings.
pub open spec fn subcommand(name: Seq<char>) -> CallView {
    CallView { args: seq![name], env: Seq::empty() }
}

impl CallView {
    /// The call with one more argument.
    pub open spec fn arg(self, value: Seq<char>) -> CallView {
        CallView { args: self.args.push(value), env: self.env }
    }

    /// The call with one more setting.
    pub open spec fn with(self, key: Seq<char>, value: Seq<char>) -> CallView {
        CallView { args: self.args, env: self.env.push((key, value)) }
    }

    /// The call with one more setting, where it is given.
    pub open spec fn with_opt(self, key: Seq<char>, value: Option<Seq<char>>) -> CallView {
        match value {
            Some(v) => self.with(key, v),
            None => self,
        }
    }
}

impl View for PluginCall {
    type V = CallView;

    open spec fn view(&self) -> CallView {
        CallView { args: texts(self.args@), env: env_texts(self.env@) }
    }
}

impl PluginCall {
    /// A call with one argument and no settings.
    pub(crate) fn new(path: &str, name: &str) -> (call: Self)
        ensures
            call.path@ == path@,
            call@ == subcommand(name@),
    {
        let mut args: Vec<String> = Vec::new();
        args.push(name.to_string());
        let call = PluginCall { path: path.to_string(), args, env: Vec::new() };
        assert(texts(call.args@) =~= seq![name@]);
        assert(env_texts(call.env@) =~= Seq::empty());
        call
    }

    /// Adds an argument.
    pub(crate) fn arg(&mut self, value: &str)
        ensures
            final(self).path == old(self).path,
            final(self)@ == old(self)@.arg(value@),
    {
        self.args.push(value.to_string());
        assert(texts(self.args@) =~= texts(old(self).args@).push(value@));
    }

    /// Adds a setting.
    pub(crate) fn set(&mut self, key: &str, value: &str)
        ensures
            final(self).path == old(self).path,
            final(self)@ == old(self)@.with(key@, value@),
    {
        push_env(&mut self.env, key, value);
    }

    /// Adds a setting that may be absent.
    pub(crate) fn set_opt(&mut self, key: &str, value: Option<&str>)
        ensures
            final(self).path == old(self).path,
            final(self)@ == old(self)@.with_opt(key@, opt_str(value)),
    {
        match value {
            Some(v) => self.set(key, v),
            None => {},
        }
    }
}

/// The message for a plugin that is not installed.
pub open spec fn not_found_message(plugin_name: Seq<char>) -> Seq<char> {
    "plugin not found: "@ + plugin_name
}

/// Whether `call` is the expected call of the plugin at `plugin`; without a
/// plugin it is the failure that says so.
pub open spec fn is_call(
    call: Result<PluginCall, LegionError>,
    plugin: Option<&str>,
    plugin_name: Seq<char>,
    expected: CallView,
) -> bool {
    match plugin {
        Some(path) => call matches Ok(c) && c.path@ == path@ && c@ == expected,
        None => call matches Err(LegionError::WorkSource(m)) && m@ == not_found_message(
            plugin_name,
        ),
    }
}

/// Whether `call` is the expected call of the plugin at `plugin`; without a
/// plugin there is none.
pub open spec fn is_optional_call(
    call: Option<PluginCall>,
    plugin: Option<&str>,
    expected: CallView,
) -> bool {
    match plugin {
        Some(path) => call matches Some(c) && c.path@ == path@ && c@ == expected,
        None => call is None,
    }
}

/// The failure for a plugin that is not installed.
pub(crate) fn plugin_not_found(plugin_name: &str) -> (out: Result<PluginCall, LegionError>)
    ensures
        out matches Err(LegionError::WorkSource(m)) && m@ == not_found_message(plugin_name@),
{
    failed("plugin not found: ", plugin_name)
}

// -- Laws --------------------------------------------------------------------

proof fn lemma_first_existing(exists: Seq<bool>, i: int, k: int)
    requires
        0 <= i <= k <= exists.len(),
        forall|j: int| i <= j < k ==> !#[trigger] exists[j],
        k < exists.len() ==> exists[k],
    ensures
        first_existing(exists, i) == k,
    decreases k - i,
{
    if i < k {
        lemma_first_existing(exists, i + 1, k);
    }
}

/// A plugin is taken from the first path that exists, whichever of them that
/// is. What the plugin cache holds counts exactly if no path exists.
pub proof fn law_first_path_that_exists_is_taken(
    paths: &[String],
    exists: &[bool],
    cached: Option<String>,
    path: Option<String>,
)
    requires
        paths@.len() == exists@.len(),
        call_ensures(resolve_plugin, (paths, exists, cached), path),
    ensures
        forall|k: int|
            0 <= k < paths@.len() && #[trigger] exists@[k] && (forall|j: int|
                0 <= j < k ==> !#[trigger] exists@[j]) ==> (path matches Some(p) && p@
                == paths@[k]@),
        (forall|k: int| 0 <= k < paths@.len() ==> !#[trigger] exists@[k]) ==> path == cached,
{
    assert forall|k: int|
        0 <= k < paths@.len() && #[trigger] exists@[k] && (forall|j: int|
            0 <= j < k ==> !#[trigger] exists@[j]) implies (path matches Some(p) && p@
        == paths@[k]@) by {
        lemma_first_existing(exists@, 0, k);
    }
    if forall|k: int| 0 <= k < paths@.len() ==> !#[trigger] exists@[k] {
        lemma_first_existing(exists@, 0, exists@.len() as int);
    }
}

/// A plugin is looked for under the plugin root first, unless that is unset or
/// empty, then beside the executable, then one directory above: each time in
/// the directory of work sources there.
pub proof fn law_plugin_root_comes_before_the_executable(
    name: &str,
    root: Option<&str>,
    exe_dir: Option<&str>,
    exe_parent: Option<&str>,
    paths: Vec<String>,
)
    requires
        call_ensures(plugin_paths, (name, root, exe_dir, exe_parent), paths),
    ensures
        ({
            let rooted: int = if root is Some && root->0@.len() > 0 {
                1
            } else {
                0
            };
            let beside: int = if exe_dir is Some {
                1
            } else {
                0
            };
            let above: int = if exe_parent is Some {
                1
            } else {
                0
            };
            &&& paths@.len() == rooted + beside + above
            &&& rooted == 1 ==> paths@[0]@ == path_joined(
                path_joined(root->0@, "worksources"@),
                name@,
            )
            &&& beside == 1 ==> paths@[rooted]@ == path_joined(
                path_joined(exe_dir->0@, "worksources"@),
                name@,
            )
            &&& above == 1 ==> paths@[rooted + beside]@ == path_joined(
                path_joined(exe_parent->0@, "worksources"@),
                name@,
            )
        }),
{
    let all = texts(paths@);
    assert(all.len() == paths@.len());
    assert forall|i: int| 0 <= i < paths@.len() implies (#[trigger] paths@[i])@ == all[i] by {}
    if root is Some {
        assert(opt_str(root) == Some(root->0@));
    }
    if exe_dir is Some {
        assert(opt_str(exe_dir) == Some(exe_dir->0@));
    }
    if exe_parent is Some {
        assert(opt_str(exe_parent) == Some(exe_parent->0@));
    }
}

/// Of the version directories that hold the plugin, the one with the highest
/// version supplies it, and the first of those where several have it. A
/// directory whose name is no text, or without the plugin, never does.
pub proof fn law_highest_cached_version_is_taken(candidates: &[CachedPlugin], path: Option<String>)
    requires
        call_ensures(find_in_cache_root, (candidates,), path),
    ensures
        path is None <==> forall|i: int|
            0 <= i < candidates@.len() ==> !(#[trigger] candidates@[i]).exists
                || candidates@[i].version is None,
        path matches Some(p) ==> exists|i: int|
            {
                &&& 0 <= i < candidates@.len()
                &&& p@ == (#[trigger] candidates@[i]).path@
                &&& candidates@[i].exists
                &&& candidates@[i].version is Some
                &&& forall|j: int|
                    0 <= j < candidates@.len() && (#[trigger] candidates@[j]).exists
                        && candidates@[j].version is Some ==> !lex_before(
                        ints(version_of(candidates@[i].version->0@)),
                        ints(version_of(candidates@[j].version->0@)),
                    ) && (j < i ==> lex_before(
                        ints(version_of(candidates@[j].version->0@)),
                        ints(version_of(candidates@[i].version->0@)),
                    ))
            },
{
    if path is None {
        assert forall|i: int| 0 <= i < candidates@.len() implies !(
        #[trigger] candidates@[i]).exists || candidates@[i].version is None by {
            assert(!supplies(candidates@[i]));
        }
    } else {
        let i = choose|i: int| #[trigger]
            is_best(candidates@, i) && path->0@ == candidates@[i].path@;
        assert(supplies(candidates@[i]));
        assert forall|j: int|
            0 <= j < candidates@.len() && (#[trigger] candidates@[j]).exists
                && candidates@[j].version is Some implies !lex_before(
            ints(version_of(candidates@[i].version->0@)),
            ints(version_of(candidates@[j].version->0@)),
        ) && (j < i ==> lex_before(
            ints(version_of(candidates@[j].version->0@)),
            ints(version_of(candidates@[i].version->0@)),
        )) by {
            assert(supplies(candidates@[j]));
        }
    }
}

/// A version is read segment by segment: the number that a segment is, and
/// zero for a segment that is none or does not fit.
pub proof fn law_version_is_read_segment_by_segment(segment: Seq<char>, rest: Seq<char>)
    requires
        !segment.contains('.'),
    ensures
        version_of(segment).len() == 1,
        numeral_value(segment) is Some && numeral_value(segment)->0 <= 0xffff_ffff ==> version_of(
            segment,
        )[0] == numeral_value(segment)->0,
        numeral_value(segment) is None || numeral_value(segment)->0 > 0xffff_ffff ==> version_of(
            segment,
        )[0] == 0,
        version_of(segment.push('.') + rest) == version_of(segment) + version_of(rest),
{
    law_split_cuts_at_each_separator(segment, rest, '.');
    assert(version_of(segment.push('.') + rest) =~= version_of(segment) + version_of(rest));
}

/// What the first entry for a name holds is what is remembered for it.
pub proof fn law_first_entry_for_a_name_counts(entries: Seq<(Seq<char>, Seq<char>)>, name: Seq<char>)
    ensures
        path_for(entries, name) is None <==> forall|i: int|
            0 <= i < entries.len() ==> (#[trigger] entries[i]).0 != name,
        forall|k: int|
            0 <= k < entries.len() && (#[trigger] entries[k]).0 == name && (forall|j: int|
                0 <= j < k ==> (#[trigger] entries[j]).0 != name) ==> path_for(entries, name) == Some(
                entries[k].1,
            ),
    decreases entries.len(),
{
    if entries.len() > 0 && entries[0].0 != name {
        let rest = entries.drop_first();
        law_first_entry_for_a_name_counts(rest, name);
        assert forall|k: int|
            0 <= k < entries.len() && (#[trigger] entries[k]).0 == name && (forall|j: int|
                0 <= j < k ==> (#[trigger] entries[j]).0 != name) implies path_for(entries, name)
            == Some(entries[k].1) by {
            assert(rest[k - 1] == entries[k]);
            assert forall|j: int| 0 <= j < k - 1 implies (#[trigger] rest[j]).0 != name by {
                assert(rest[j] == entries[j + 1]);
            }
        }
        if path_for(entries, name) is None {
            assert forall|i: int| 0 <= i < entries.len() implies (#[trigger] entries[i]).0
                != name by {
                if i > 0 {
                    assert(rest[i - 1] == entries[i]);
                }
            }
        } else {
            let i = choose|i: int| 0 <= i < rest.len() && (#[trigger] rest[i]).0 == name;
            assert(entries[i + 1].0 == name);
        }
    }
}

/// A plugin may run for the number of seconds that the setting is. Zero lifts
/// the limit, and a setting that is missing or no number leaves it at thirty.
pub proof fn law_setting_limits_the_run(value: Option<&str>, secs: Option<u64>)
    requires
        call_ensures(resolve_plugin_timeout, (value,), secs),
    ensures
        value is None ==> secs == Some(30u64),
        value matches Some(v) ==> {
            &&& numeral_value(v@) is None ==> secs == Some(30u64)
            &&& numeral_value(v@) == Some(0nat) ==> secs is None
            &&& numeral_value(v@) matches Some(n) ==> (if n > u64::MAX {
                secs == Some(30u64)
            } else {
                n > 0 ==> (secs matches Some(s) && s == n)
            })
        },
{
}

/// A run gives its standard output exactly if the plugin ended well, its
/// standard output was read, and the reader of standard error did not die.
/// Every other run fails, with what went wrong in its message.
pub proof fn law_only_a_run_that_ended_well_has_output(
    run: PluginRun,
    out: Result<String, LegionError>,
)
    requires
        call_ensures(call_plugin_result, (run,), out),
    ensures
        out is Ok <==> (run matches PluginRun::Exited { success, stdout, stderr } && success
            && stdout is Text && !(stderr is Panicked)),
        out matches Ok(text) ==> (run matches PluginRun::Exited { stdout, .. } && stdout matches
            StreamRead::Text(s) && text@ == s@),
        out matches Err(e) ==> (e matches LegionError::WorkSource(m) && match run {
            PluginRun::SpawnFailed(e) => m@ == "failed to run plugin: "@ + e@,
            PluginRun::StdoutMissing => m@ == "plugin stdout missing"@,
            PluginRun::StderrMissing => m@ == "plugin stderr missing"@,
            PluginRun::WaitFailed(e) => m@ == "plugin wait: "@ + e@,
            PluginRun::TimedOut(secs) => m@ == "plugin timeout after "@ + decimal(secs as nat) + "s"@,
            PluginRun::Exited { success, stdout, stderr } => {
                &&& stdout is Panicked ==> m@ == "plugin stdout reader panicked"@
                &&& stdout matches StreamRead::Failed(e) ==> m@ == "plugin stdout: "@ + e@
                &&& stdout is Text && stderr is Panicked ==> m@ == "plugin stderr reader panicked"@
                &&& stdout is Text && stderr is Failed ==> m@ == "plugin failed: "@
                &&& stdout is Text ==> (stderr matches StreamRead::Text(e) ==> m@
                    == "plugin failed: "@ + e@)
            },
        }),
{
}

/// A call goes to the plugin that was found. Where none was, it fails and says
/// which one is missing.
pub proof fn law_missing_plugin_is_named(
    call: Result<PluginCall, LegionError>,
    plugin: Option<&str>,
    plugin_name: Seq<char>,
    expected: CallView,
)
    requires
        is_call(call, plugin, plugin_name, expected),
    ensures
        call is Ok <==> plugin is Some,
        call matches Ok(c) ==> c.path@ == plugin->0@ && texts(c.args@) == expected.args && env_texts(
            c.env@,
        ) == expected.env,
        call matches Err(e) ==> (e matches LegionError::WorkSource(m) && m@ == "plugin not found: "@
            + plugin_name),
{
}

/// A plugin that was found is remembered and taken from there ever after. One
/// that was not found is looked for again, and no other plugin is affected.
pub proof fn law_found_plugin_is_remembered(
    cache: &mut PluginCache,
    name: &str,
    resolved: Option<String>,
    path: Option<String>,
    other: Seq<char>,
)
    requires
        call_ensures(PluginCache::find_plugin, (cache, name, resolved), path),
    ensures
        opt_text(path) == final(cache).remembered(name@),
        old(cache).remembered(name@) is Some ==> opt_text(path) == old(cache).remembered(name@),
        old(cache).remembered(name@) is None ==> opt_text(path) == opt_text(resolved),
        other != name@ ==> final(cache).remembered(other) == old(cache).remembered(other),
{
}

} // verus!
