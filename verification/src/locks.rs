//! The lock layers: the pid lock of the watcher, the per-repo session locks,
//! and the wake cooldown.
use std::time::Instant;
use vstd::prelude::*;
use crate::clock::{elapsed_nanos, is_elapsed, is_instant_read, is_local_hour, local_hour};
use crate::error::LegionError;
use crate::number::{bounded_numeral, decimal, lemma_decimal_reads_back, parse_u32, to_decimal};
use crate::text::{
    is_white, law_trimming_takes_the_whitespace_around, text_eq, to_chars, trim, trim_end, trim_start,
    trimmed,
};

verus! {

/// Nanoseconds in a second.
pub const NANOS_PER_SEC: u128 = 1_000_000_000;

// -- Pid files ---------------------------------------------------------------

/// The process id that a pid file holds: a `u32` numeral, which whitespace
/// may surround.
pub open spec fn pid_in(contents: Seq<char>) -> Option<nat> {
    bounded_numeral(trimmed(contents), u32::MAX as nat)
}

/// Reads the process id out of a pid file.
pub fn read_pid(contents: &str) -> (pid: Option<u32>)
    ensures
        pid is Some <==> pid_in(contents@) is Some,
        pid matches Some(p) ==> pid_in(contents@) == Some(p as nat),
{
    parse_u32(trim(contents))
}

/// Decides whether the pid lock can be taken. `holder` is the process id that
/// the lock file holds, and `alive` says whether that process runs.
pub fn acquire_pid_lock(holder: Option<u32>, alive: bool) -> (taken: Result<(), LegionError>)
    ensures
        taken is Ok <==> !(holder is Some && alive),
        taken matches Err(e) ==> e == LegionError::WatchAlreadyRunning(holder->0),
{
    match holder {
        Some(pid) => if alive {
            Err(LegionError::WatchAlreadyRunning(pid))
        } else {
            Ok(())
        },
        None => Ok(()),
    }
}

// -- Session locks -----------------------------------------------------------

/// `dir` and `name` as one path. An absolute `name` stands alone.
pub open spec fn path_joined(dir: Seq<char>, name: Seq<char>) -> Seq<char> {
    if dir.len() == 0 || (name.len() > 0 && name[0] == '/') {
        name
    } else if dir.last() == '/' {
        dir + name
    } else {
        dir + "/"@ + name
    }
}

/// Joins a directory and a name.
pub fn join_path(dir: &str, name: &str) -> (path: String)
    ensures
        path@ == path_joined(dir@, name@),
{
    let d = to_chars(dir);
    let n = to_chars(name);
    if d.len() == 0 || (n.len() > 0 && n[0] == '/') {
        return name.to_string();
    }
    let mut path = dir.to_string();
    if d[d.len() - 1] != '/' {
        path.append("/");
    }
    path.append(name);
    path
}

/// What was read of a lock file: its age and what it holds.
#[derive(Debug)]
pub struct LockFile {
    pub age_nanos: u128,
    pub contents: String,
}

/// The process ids that the two lock files of a repo name.
#[derive(Debug, Clone, Copy, PartialEq, Eq, Structural)]
pub struct LockClaims {
    /// From the `.lock` file of a spawned session.
    pub lock: Option<u32>,
    /// From the `.session` file of an interactive session.
    pub session: Option<u32>,
}

/// Who keeps a repo from being woken.
#[derive(Debug, Clone, Copy, PartialEq, Eq, Structural)]
pub struct GateHolder {
    pub pid: Option<u32>,
    /// Whether the `.session` file names a dead process and is to be removed.
    pub remove_session_file: bool,
}

/// A file that is to be written.
#[derive(Debug)]
pub struct FileWrite {
    pub path: String,
    pub contents: String,
}

/// What came of removing a file.
#[derive(Debug)]
pub enum Removal {
    Removed,
    NotFound,
    Failed(String),
}

/// Removing a file that is not there counts as done.
pub fn removal_result(removal: Removal) -> (done: Result<(), LegionError>)
    ensures
        done is Ok <==> !(removal is Failed),
        removal matches Removal::Failed(why) ==> done == Err::<(), LegionError>(
            LegionError::Io(why),
        ),
{
    match removal {
        Removal::Removed => Ok(()),
        Removal::NotFound => Ok(()),
        Removal::Failed(why) => Err(LegionError::Io(why)),
    }
}

/// The per-repo session locks. They keep the watcher from spawning a second
/// session for a repo while one is running.
#[derive(Debug)]
pub struct SessionLockTracker {
    pub lock_dir: String,
    pub ttl_secs: u64,
}

impl SessionLockTracker {
    /// The path of the lock that a spawned session of `repo` holds.
    pub open spec fn lock_path_of(&self, repo: Seq<char>) -> Seq<char> {
        path_joined(self.lock_dir@, repo + ".lock"@)
    }

    /// The path of the lock that an interactive session of `repo` holds.
    pub open spec fn session_path_of(&self, repo: Seq<char>) -> Seq<char> {
        path_joined(self.lock_dir@, repo + ".session"@)
    }

    /// Whether a lock file of this age still counts. With a limit of zero
    /// none does.
    pub open spec fn is_fresh(&self, age_nanos: u128) -> bool {
        self.ttl_secs > 0 && age_nanos <= self.ttl_secs * NANOS_PER_SEC
    }

    /// The locks under `data_dir`.
    pub fn new(data_dir: &str, ttl_secs: u64) -> (locks: Self)
        ensures
            locks.lock_dir@ == path_joined(data_dir@, "sessions"@),
            locks.ttl_secs == ttl_secs,
    {
        SessionLockTracker { lock_dir: join_path(data_dir, "sessions"), ttl_secs }
    }

    /// The path of the lock that a spawned session of `repo` holds.
    pub fn lock_path(&self, repo: &str) -> (path: String)
        ensures
            path@ == self.lock_path_of(repo@),
    {
        let mut name = repo.to_string();
        name.append(".lock");
        join_path(self.lock_dir.as_str(), name.as_str())
    }

    /// The path of the lock that an interactive session of `repo` holds. It
    /// is held as long as the process lives, however old the file is.
    pub fn session_path(&self, repo: &str) -> (path: String)
        ensures
            path@ == self.session_path_of(repo@),
    {
        let mut name = repo.to_string();
        name.append(".session");
        join_path(self.lock_dir.as_str(), name.as_str())
    }

    /// The processes whose liveness decides whether the repo can be woken,
    /// from what the two lock files hold; a file that is missing or cannot be
    /// read is `None`.
    pub fn claims(&self, lock: Option<&LockFile>, session: Option<&str>) -> (claims: LockClaims)
        ensures
            claims.lock is Some <==> (lock matches Some(f) && self.is_fresh(f.age_nanos) && pid_in(
                f.contents@,
            ) is Some),
            claims.lock matches Some(pid) ==> pid_in(lock->0.contents@) == Some(pid as nat),
            claims.session is Some <==> (session matches Some(s) && pid_in(s@) is Some),
            claims.session matches Some(pid) ==> pid_in(session->0@) == Some(pid as nat),
    {
        let lock_pid = match lock {
            Some(f) => {
                let limit: u128 = (self.ttl_secs as u128) * NANOS_PER_SEC;
                if self.ttl_secs == 0 || f.age_nanos > limit {
                    None
                } else {
                    read_pid(f.contents.as_str())
                }
            },
            None => None,
        };
        let session_pid = match session {
            Some(s) => read_pid(s),
            None => None,
        };
        LockClaims { lock: lock_pid, session: session_pid }
    }

    /// Who keeps the repo from being woken, given which of the claimed
    /// processes run. The `.lock` file goes first; a `.session` file of a dead
    /// process is to be removed.
    pub fn active_pid(
        &self,
        claims: LockClaims,
        lock_alive: bool,
        session_alive: bool,
    ) -> (holder: GateHolder)
        ensures
            holder.pid == (if claims.lock is Some && lock_alive {
                claims.lock
            } else if claims.session is Some && session_alive {
                claims.session
            } else {
                None
            }),
            holder.remove_session_file == (claims.session is Some && !session_alive),
    {
        let lock_pid = if lock_alive {
            claims.lock
        } else {
            None
        };
        let session_pid = if session_alive {
            claims.session
        } else {
            None
        };
        let remove_session_file = claims.session.is_some() && !session_alive;
        let pid = if lock_pid.is_some() {
            lock_pid
        } else {
            session_pid
        };
        GateHolder { pid, remove_session_file }
    }

    /// The file that records a spawned session.
    pub fn record_spawn(&self, repo: &str, pid: u32) -> (write: FileWrite)
        ensures
            write.path@ == self.lock_path_of(repo@),
            write.contents@ == decimal(pid as nat),
    {
        FileWrite { path: self.lock_path(repo), contents: to_decimal(pid as u64) }
    }

    /// The file that records an interactive session.
    pub fn record_interactive(&self, repo: &str, pid: u32) -> (write: FileWrite)
        ensures
            write.path@ == self.session_path_of(repo@),
            write.contents@ == decimal(pid as nat),
    {
        FileWrite { path: self.session_path(repo), contents: to_decimal(pid as u64) }
    }

    /// The file whose removal ends an interactive session. The lock of a
    /// spawned session stays.
    pub fn release_interactive(&self, repo: &str) -> (path: String)
        ensures
            path@ == self.session_path_of(repo@),
    {
        self.session_path(repo)
    }

    /// The file whose removal frees the repo behind a spawned session.
    pub fn release(&self, repo: &str) -> (path: String)
        ensures
            path@ == self.lock_path_of(repo@),
    {
        self.lock_path(repo)
    }
}

proof fn lemma_digits_are_trimmed(s: Seq<char>)
    requires
        s.len() > 0,
        crate::number::all_digits(s),
    ensures
        trimmed(s) == s,
{
    assert(crate::number::is_digit(s[0]));
    assert(crate::number::is_digit(s.last()));
    assert(trim_start(s) == s);
    assert(trim_end(s) == s);
}

/// What a lock records is what is read back: the process id that was written
/// is the one that the file names.
pub proof fn law_recorded_pid_reads_back(pid: u32)
    ensures
        pid_in(decimal(pid as nat)) == Some(pid as nat),
{
    lemma_decimal_reads_back(pid as nat);
    lemma_digits_are_trimmed(decimal(pid as nat));
}

// -- Times per repo ----------------------------------------------------------

/// When something last happened to each repo.
#[derive(Debug)]
pub struct RepoTimes {
    pub entries: Vec<(String, Instant)>,
}

/// The time that the first entry for `repo` holds.
pub open spec fn time_of(entries: Seq<(String, Instant)>, repo: Seq<char>) -> Option<Instant>
    decreases entries.len(),
{
    if entries.len() == 0 {
        None
    } else if entries[0].0@ == repo {
        Some(entries[0].1)
    } else {
        time_of(entries.drop_first(), repo)
    }
}

proof fn lemma_time_of_skip(entries: Seq<(String, Instant)>, repo: Seq<char>, i: int)
    requires
        0 <= i <= entries.len(),
        forall|j: int| 0 <= j < i ==> (#[trigger] entries[j]).0@ != repo,
    ensures
        time_of(entries, repo) == time_of(entries.skip(i), repo),
    decreases i,
{
    if i > 0 {
        lemma_time_of_skip(entries, repo, i - 1);
        assert(entries.skip(i - 1)[0] == entries[i - 1]);
        assert(entries.skip(i - 1).drop_first() =~= entries.skip(i));
    } else {
        assert(entries.skip(0) =~= entries);
    }
}

proof fn lemma_time_of_pointwise(a: Seq<(String, Instant)>, b: Seq<(String, Instant)>, repo: Seq<char>)
    requires
        a.len() == b.len(),
        forall|i: int| 0 <= i < a.len() ==> (#[trigger] a[i]).0@ == b[i].0@,
        forall|i: int| 0 <= i < a.len() && (#[trigger] a[i]).0@ == repo ==> a[i].1 == b[i].1,
    ensures
        time_of(a, repo) == time_of(b, repo),
    decreases a.len(),
{
    if a.len() > 0 {
        assert(a[0].0@ == b[0].0@);
        assert forall|i: int| 0 <= i < a.drop_first().len() implies (#[trigger] a.drop_first()[i]).0@
            == b.drop_first()[i].0@ by {
            assert(a[i + 1].0@ == b[i + 1].0@);
        }
        lemma_time_of_pointwise(a.drop_first(), b.drop_first(), repo);
    }
}

proof fn lemma_time_of_append(a: Seq<(String, Instant)>, e: (String, Instant), repo: Seq<char>)
    ensures
        time_of(a.push(e), repo) == (if time_of(a, repo) is Some {
            time_of(a, repo)
        } else if e.0@ == repo {
            Some(e.1)
        } else {
            None
        }),
    decreases a.len(),
{
    let b = a.push(e);
    if a.len() == 0 {
        assert(b[0] == e);
        assert(b.drop_first() =~= Seq::<(String, Instant)>::empty());
        assert(time_of(b.drop_first(), repo) is None);
    } else {
        lemma_time_of_append(a.drop_first(), e, repo);
        assert(b[0] == a[0]);
        assert(b.drop_first() =~= a.drop_first().push(e));
    }
}

impl RepoTimes {
    /// Whether the time of `repo`, and of no other, was set anew from `before`,
    /// to a time that the clock showed.
    pub open spec fn restarted(&self, before: RepoTimes, repo: Seq<char>) -> bool {
        &&& self.at(repo) matches Some(t) && is_instant_read(t)
        &&& forall|other: Seq<char>| other != repo ==> #[trigger] self.at(other) == before.at(other)
    }

    /// When it last happened to `repo`.
    pub open spec fn at(&self, repo: Seq<char>) -> Option<Instant> {
        time_of(self.entries@, repo)
    }

    /// No times.
    pub fn new() -> (times: Self)
        ensures
            forall|repo: Seq<char>| #[trigger] times.at(repo) is None,
    {
        RepoTimes { entries: Vec::new() }
    }

    /// When it last happened to `repo`.
    pub fn get(&self, repo: &str) -> (at: Option<Instant>)
        ensures
            at == self.at(repo@),
    {
        assert(self.entries@.skip(0) =~= self.entries@);
        for i in 0..self.entries.len()
            invariant
                self.at(repo@) == time_of(self.entries@.skip(i as int), repo@),
        {
            assert(self.entries@.skip(i as int)[0] == self.entries@[i as int]);
            assert(self.entries@.skip(i as int).drop_first() =~= self.entries@.skip(i + 1));
            if text_eq(self.entries[i].0.as_str(), repo) {
                return Some(self.entries[i].1);
            }
        }
        None
    }

    /// Sets the time of `repo`; every other repo keeps its own.
    pub fn set(&mut self, repo: &str, at: Instant)
        ensures
            final(self).at(repo@) == Some(at),
            forall|other: Seq<char>|
                other != repo@ ==> #[trigger] final(self).at(other) == old(self).at(other),
    {
        let ghost before = self.entries@;
        let n: usize = self.entries.len();
        for i in 0..n
            invariant
                n == before.len(),
                self.entries@ == before,
                before == old(self).entries@,
                forall|j: int| 0 <= j < i ==> (#[trigger] before[j]).0@ != repo@,
        {
            if text_eq(self.entries[i].0.as_str(), repo) {
                self.entries[i] = (repo.to_string(), at);
                proof {
                    let after = self.entries@;
                    lemma_time_of_skip(after, repo@, i as int);
                    assert(after.skip(i as int)[0] == after[i as int]);
                    assert forall|other: Seq<char>| other != repo@ implies #[trigger] time_of(
                        after,
                        other,
                    ) == time_of(before, other) by {
                        lemma_time_of_pointwise(after, before, other);
                    }
                }
                return;
            }
        }
        self.entries.push((repo.to_string(), at));
        proof {
            let e = self.entries@.last();
            assert(self.entries@ =~= before.push(e));
            lemma_time_of_skip(before, repo@, before.len() as int);
            lemma_time_of_append(before, e, repo@);
            assert forall|other: Seq<char>| other != repo@ implies #[trigger] time_of(
                self.entries@,
                other,
            ) == time_of(before, other) by {
                lemma_time_of_append(before, e, other);
            }
        }
    }
}

// -- Cooldown ----------------------------------------------------------------

/// Whether `hour` lies in the work hours. Both ends must be set. A range that
/// ends before it starts runs over midnight.
pub open spec fn in_work_hours(start: Option<u8>, end: Option<u8>, hour: int) -> bool {
    match (start, end) {
        (Some(s), Some(e)) => if s <= e {
            s <= hour < e
        } else {
            hour >= s || hour < e
        },
        _ => false,
    }
}

/// Whether less than the window has passed since the last time, if there was
/// one.
pub open spec fn within_window(elapsed_nanos: Option<u128>, window_secs: u64) -> bool {
    elapsed_nanos matches Some(n) && n < window_secs * NANOS_PER_SEC
}

/// Whether less than the window has passed since the last time, if there was
/// one.
pub fn is_within_window(elapsed_nanos: Option<u128>, window_secs: u64) -> (yes: bool)
    ensures
        yes == within_window(elapsed_nanos, window_secs),
{
    match elapsed_nanos {
        Some(n) => n < (window_secs as u128) * NANOS_PER_SEC,
        None => false,
    }
}

/// Whether `nanos` is what the clock gave as the nanoseconds since `at`, if
/// there is such a time.
pub open spec fn is_elapsed_since(at: Option<Instant>, nanos: Option<u128>) -> bool {
    match at {
        Some(t) => nanos matches Some(n) && is_elapsed(t, n),
        None => nanos is None,
    }
}

/// The nanoseconds since `at`, if there is such a time.
pub(crate) fn elapsed_since(at: Option<Instant>) -> (nanos: Option<u128>)
    ensures
        is_elapsed_since(at, nanos),
{
    match at {
        Some(t) => Some(elapsed_nanos(&t)),
        None => None,
    }
}

/// The per-repo cooldown that prevents wake storms.
#[derive(Debug)]
pub struct CooldownTracker {
    pub last_wake: RepoTimes,
    pub cooldown_secs: u64,
    pub work_hours_start: Option<u8>,
    pub work_hours_end: Option<u8>,
}

impl CooldownTracker {
    pub fn new(
        cooldown_secs: u64,
        work_hours_start: Option<u8>,
        work_hours_end: Option<u8>,
    ) -> (tracker: Self)
        ensures
            tracker.cooldown_secs == cooldown_secs,
            tracker.work_hours_start == work_hours_start,
            tracker.work_hours_end == work_hours_end,
            forall|repo: Seq<char>| #[trigger] tracker.last_wake.at(repo) is None,
    {
        CooldownTracker {
            last_wake: RepoTimes::new(),
            cooldown_secs,
            work_hours_start,
            work_hours_end,
        }
    }

    /// Whether `hour` lies in the work hours.
    pub fn is_work_hour(&self, hour: u32) -> (yes: bool)
        ensures
            yes == in_work_hours(self.work_hours_start, self.work_hours_end, hour as int),
    {
        match (self.work_hours_start, self.work_hours_end) {
            (Some(start), Some(end)) => if start <= end {
                start as u32 <= hour && hour < end as u32
            } else {
                hour >= start as u32 || hour < end as u32
            },
            _ => false,
        }
    }

    /// Whether a repo that was last woken `elapsed_nanos` ago is cooling down
    /// in the given hour. No cooldown applies in the work hours, and a repo
    /// that was never woken does not cool down.
    pub open spec fn cools(&self, elapsed_nanos: Option<u128>, hour: int) -> bool {
        !in_work_hours(self.work_hours_start, self.work_hours_end, hour) && within_window(
            elapsed_nanos,
            self.cooldown_secs,
        )
    }

    /// Whether a repo that was last woken `elapsed_nanos` ago is cooling down
    /// in the given hour.
    pub fn cooling_at(&self, elapsed_nanos: Option<u128>, hour: u32) -> (yes: bool)
        ensures
            yes == self.cools(elapsed_nanos, hour as int),
    {
        if self.is_work_hour(hour) {
            return false;
        }
        is_within_window(elapsed_nanos, self.cooldown_secs)
    }

    /// Whether `repo` is cooling down now. The clock decides; see
    /// [`CooldownTracker::cooling_at`]. A repo that was never woken is not
    /// cooling down, and with a cooldown of zero none is.
    pub fn is_cooling_down(&self, repo: &str) -> (yes: bool)
        ensures
            exists|elapsed: Option<u128>, hour: u32|
                is_elapsed_since(self.last_wake.at(repo@), elapsed) && is_local_hour(hour) && hour
                    < 24 && yes == #[trigger] self.cools(elapsed, hour as int),
    {
        let elapsed = elapsed_since(self.last_wake.get(repo));
        let hour = local_hour();
        let yes = self.cooling_at(elapsed, hour);
        assert(yes == self.cools(elapsed, hour as int));
        yes
    }

    /// Records that `repo` was just woken, whatever was on record for it.
    /// Other repos are left alone.
    pub fn record_wake(&mut self, repo: &str)
        ensures
            final(self).last_wake.restarted(old(self).last_wake, repo@),
            final(self).cooldown_secs == old(self).cooldown_secs,
            final(self).work_hours_start == old(self).work_hours_start,
            final(self).work_hours_end == old(self).work_hours_end,
    {
        self.last_wake.set(repo, Instant::now());
    }
}

/// A wake begins the cooldown of its repo anew, however old the wake before:
/// outside the work hours the repo cools down exactly while less than the
/// cooldown has passed since the time that was recorded. Whether another repo
/// cools down is what it was.
pub proof fn law_wake_begins_the_cooldown_anew(
    before: CooldownTracker,
    after: CooldownTracker,
    repo: Seq<char>,
    other: Seq<char>,
    elapsed: Option<u128>,
    hour: int,
)
    requires
        after.last_wake.restarted(before.last_wake, repo),
        after.cooldown_secs == before.cooldown_secs,
        after.work_hours_start == before.work_hours_start,
        after.work_hours_end == before.work_hours_end,
        other != repo,
    ensures
        after.last_wake.at(repo) matches Some(t) && is_instant_read(t) && (is_elapsed_since(
            after.last_wake.at(repo),
            elapsed,
        ) ==> (elapsed matches Some(n) && is_elapsed(t, n) && (after.cools(elapsed, hour) <==> n
            < before.cooldown_secs * NANOS_PER_SEC && !in_work_hours(
            before.work_hours_start,
            before.work_hours_end,
            hour,
        )))),
        is_elapsed_since(after.last_wake.at(other), elapsed) == is_elapsed_since(
            before.last_wake.at(other),
            elapsed,
        ),
        after.cools(elapsed, hour) == before.cools(elapsed, hour),
{
}

// -- Laws --------------------------------------------------------------------

/// A pid file names the process that its number is, whatever whitespace
/// stands around it.
pub proof fn law_whitespace_around_a_pid_does_not_matter(a: Seq<char>, pid: u32, b: Seq<char>)
    requires
        forall|i: int| 0 <= i < a.len() ==> is_white(#[trigger] a[i]),
        forall|i: int| 0 <= i < b.len() ==> is_white(#[trigger] b[i]),
    ensures
        pid_in(a + decimal(pid as nat) + b) == Some(pid as nat),
{
    let digits = decimal(pid as nat);
    lemma_decimal_reads_back(pid as nat);
    assert(crate::number::is_digit(digits[0]));
    assert(crate::number::is_digit(digits.last()));
    law_trimming_takes_the_whitespace_around(a, digits, b);
}

/// A lock file of a spawned session counts exactly while its age has not gone
/// over the limit, and under a limit of zero never; a file of an interactive
/// session counts at any age. Either names nobody where it holds no process
/// id.
pub proof fn law_lock_counts_up_to_its_limit(
    locks: &SessionLockTracker,
    lock: Option<&LockFile>,
    session: Option<&str>,
    claims: LockClaims,
)
    requires
        call_ensures(SessionLockTracker::claims, (locks, lock, session), claims),
    ensures
        lock is None ==> claims.lock is None,
        session is None ==> claims.session is None,
        lock matches Some(f) ==> {
            &&& locks.ttl_secs == 0 ==> claims.lock is None
            &&& f.age_nanos > 1_000_000_000 * locks.ttl_secs ==> claims.lock is None
            &&& bounded_numeral(trimmed(f.contents@), 0xffff_ffff) is None ==> claims.lock is None
            &&& locks.ttl_secs > 0 && f.age_nanos <= 1_000_000_000 * locks.ttl_secs ==> (
            bounded_numeral(trimmed(f.contents@), 0xffff_ffff) matches Some(pid) ==> (
            claims.lock matches Some(p) && p == pid))
        },
        session matches Some(s) ==> {
            &&& bounded_numeral(trimmed(s@), 0xffff_ffff) is None ==> claims.session is None
            &&& bounded_numeral(trimmed(s@), 0xffff_ffff) matches Some(pid) ==> (
            claims.session matches Some(p) && p == pid)
        },
{
}

/// A repo is held exactly if a process that one of its lock files names runs,
/// that of a spawned session going first. The file of an interactive session
/// is removed exactly if the process that it names is gone.
pub proof fn law_only_a_running_process_holds_a_repo(
    locks: &SessionLockTracker,
    claims: LockClaims,
    lock_alive: bool,
    session_alive: bool,
    holder: GateHolder,
)
    requires
        call_ensures(
            SessionLockTracker::active_pid,
            (locks, claims, lock_alive, session_alive),
            holder,
        ),
    ensures
        holder.pid is Some <==> (claims.lock is Some && lock_alive) || (claims.session is Some
            && session_alive),
        lock_alive && claims.lock is Some ==> holder.pid == claims.lock,
        !lock_alive && session_alive ==> holder.pid == claims.session,
        holder.remove_session_file <==> claims.session is Some && !session_alive,
{
}

/// A path under a directory is the directory, one slash and the name: none is
/// added behind one that is there, and none where there is no directory. An
/// absolute name stands alone.
pub proof fn law_paths_join_with_one_slash(dir: Seq<char>, name: Seq<char>)
    requires
        name.len() > 0,
    ensures
        name[0] == '/' ==> path_joined(dir, name) == name,
        path_joined(Seq::empty(), name) == name,
        name[0] != '/' && dir.len() > 0 && dir.last() != '/' ==> path_joined(dir, name) == dir
            + seq!['/'] + name && path_joined(dir.push('/'), name) == dir + seq!['/'] + name,
{
    reveal_strlit("/");
    assert("/"@ =~= seq!['/']);
    assert(dir.push('/') + name =~= dir + seq!['/'] + name);
}

/// The two locks of a repo never share a file, and what is released is what
/// was recorded.
pub proof fn law_the_two_locks_of_a_repo_stay_apart(
    locks: &SessionLockTracker,
    repo: &str,
    pid: u32,
    spawned: FileWrite,
    interactive: FileWrite,
    freed: String,
    ended: String,
)
    requires
        call_ensures(SessionLockTracker::record_spawn, (locks, repo, pid), spawned),
        call_ensures(SessionLockTracker::record_interactive, (locks, repo, pid), interactive),
        call_ensures(SessionLockTracker::release, (locks, repo), freed),
        call_ensures(SessionLockTracker::release_interactive, (locks, repo), ended),
    ensures
        spawned.path@ == freed@,
        interactive.path@ == ended@,
        spawned.path@ != interactive.path@,
        spawned.path@ == path_joined(locks.lock_dir@, repo@ + ".lock"@),
        interactive.path@ == path_joined(locks.lock_dir@, repo@ + ".session"@),
        spawned.contents@ == decimal(pid as nat),
        interactive.contents@ == decimal(pid as nat),
{
    reveal_strlit(".lock");
    reveal_strlit(".session");
    assert(spawned.path@.last() == 'k');
    assert(interactive.path@.last() == 'n');
}

/// The first entry for a repo tells its time, and a repo without one has none.
pub proof fn law_first_entry_for_a_repo_tells_its_time(
    entries: Seq<(String, Instant)>,
    repo: Seq<char>,
    k: int,
)
    requires
        0 <= k <= entries.len(),
        forall|j: int| 0 <= j < k ==> (#[trigger] entries[j]).0@ != repo,
    ensures
        k == entries.len() ==> time_of(entries, repo) is None,
        k < entries.len() && entries[k].0@ == repo ==> time_of(entries, repo) == Some(entries[k].1),
{
    lemma_time_of_skip(entries, repo, k);
}

/// A repo that was woken cools down until the whole cooldown has passed, but
/// never in the work hours: from the first of them up to the last, which is no
/// longer one, and over midnight where the last is the smaller. Without both
/// ends there are no work hours. A repo that was never woken does not cool
/// down.
pub proof fn law_repo_cools_until_the_cooldown_passed(
    tracker: &CooldownTracker,
    elapsed_nanos: Option<u128>,
    hour: u32,
    yes: bool,
)
    requires
        call_ensures(CooldownTracker::cooling_at, (tracker, elapsed_nanos, hour), yes),
    ensures
        elapsed_nanos is None ==> !yes,
        elapsed_nanos matches Some(n) ==> {
            let waiting = n < 1_000_000_000 * tracker.cooldown_secs;
            &&& !waiting ==> !yes
            &&& waiting && (tracker.work_hours_start is None || tracker.work_hours_end is None)
                ==> yes
            &&& waiting && tracker.work_hours_start is Some && tracker.work_hours_end is Some ==> {
                let first = tracker.work_hours_start->0;
                let last = tracker.work_hours_end->0;
                &&& first <= last ==> (yes <==> hour < first || hour >= last)
                &&& first > last ==> (yes <==> last <= hour < first)
            }
        },
{
}

/// A nudge or wake counts as recent while less than the window has passed; at
/// the very end of the window it no longer does.
pub proof fn law_window_ends_when_it_has_passed(
    elapsed_nanos: Option<u128>,
    window_secs: u64,
    yes: bool,
)
    requires
        call_ensures(is_within_window, (elapsed_nanos, window_secs), yes),
    ensures
        yes <==> elapsed_nanos is Some && elapsed_nanos->0 < 1_000_000_000 * window_secs,
{
}

/// A wake is kept for its repo, whatever was there before, and for no other;
/// the settings of the cooldown stay.
pub proof fn law_wake_is_recorded_for_its_repo_alone(
    tracker: &mut CooldownTracker,
    repo: &str,
    other: Seq<char>,
)
    requires
        call_ensures(CooldownTracker::record_wake, (tracker, repo), ()),
    ensures
        final(tracker).last_wake.at(repo@) is Some,
        other != repo@ ==> final(tracker).last_wake.at(other) == old(tracker).last_wake.at(other),
        final(tracker).cooldown_secs == old(tracker).cooldown_secs,
        final(tracker).work_hours_start == old(tracker).work_hours_start,
        final(tracker).work_hours_end == old(tracker).work_hours_end,
{
}

/// The pid lock is refused exactly if the process that holds it runs, and the
/// refusal names that process.
pub proof fn law_pid_lock_is_refused_while_its_holder_runs(
    holder: Option<u32>,
    alive: bool,
    taken: Result<(), LegionError>,
)
    requires
        call_ensures(acquire_pid_lock, (holder, alive), taken),
    ensures
        holder is None ==> taken is Ok,
        holder matches Some(pid) ==> (if alive {
            taken == Err::<(), LegionError>(LegionError::WatchAlreadyRunning(pid))
        } else {
            taken is Ok
        }),
{
}

} // verus!
