//! The watch loop: what it is built from, the order of its two ticks, and the
//! order in which it starts.
use vstd::prelude::*;
use crate::clock::{
    is_clock_reading, is_utc_now, law_days_before_are_whole_days, text_days_before,
    utc_days_ago_text, utc_now, utc_text, utc_text_before, FIRST_SECOND, LAST_SECOND, SECS_PER_DAY,
};
use crate::config::WatchConfig;
use crate::locks::{join_path, path_joined, CooldownTracker, SessionLockTracker, NANOS_PER_SEC};
use crate::quota::{QuotaPanicGate, SpawnGate};
use crate::scan::{join, joined, texts};
use crate::signal::opt_text;
use crate::spawn::SpawnMode;
use crate::tracker::AgentTracker;

verus! {

broadcast use vstd::seq_lib::group_seq_properties;

/// How many health ticks pass between two heartbeat log lines.
pub const HEARTBEAT_LOG_CADENCE: u64 = 10;

/// How many days back a starting watcher looks for unhandled signals.
pub const LOOKBACK_DAYS: i64 = 1;

/// The state of the watch loop. `H` is the handle of a session's process.
#[derive(Debug)]
pub struct WatchLoop<H> {
    pub config: WatchConfig,
    pub cooldown: CooldownTracker,
    pub tracker: AgentTracker<H>,
    pub session_locks: SessionLockTracker,
    pub quota_gate: QuotaPanicGate,
    pub host: String,
    pub lease_ttl_secs: u64,
    /// Signals older than this are not looked at.
    pub lookback: Option<String>,
    pub spawn_mode: SpawnMode,
    pub health_tick_count: u64,
    pub pid: u32,
}

/// A step of the health tick.
#[derive(Debug, Clone, Copy, PartialEq, Eq, Structural)]
pub enum HealthStep {
    SamplePressure,
    ConfirmSubmits,
    ReapFinished,
    ReapDeadPids,
    ReapDelegated,
    ReapDeferred,
    HeartbeatLeases,
    PersistSample,
    PersistHeartbeat,
    LogHeartbeat,
}

/// A step of the poll tick.
#[derive(Debug, Clone, Copy, PartialEq, Eq, Structural)]
pub enum PollStep {
    RunCycle,
    LogQuotaPanic,
    LogPressure,
    PruneHealthSamples,
    PruneHandledMarks,
    PruneRedelivery,
}

/// The steps of the health tick with the given number, in order. Submits are
/// confirmed before children are reaped, so that a child that was given up is
/// reaped on the same tick. Everything is reaped before the leases are
/// refreshed. Every tenth tick is logged, beginning with the first.
pub open spec fn health_steps(tick: int) -> Seq<HealthStep> {
    let steps = seq![
        HealthStep::SamplePressure,
        HealthStep::ConfirmSubmits,
        HealthStep::ReapFinished,
        HealthStep::ReapDeadPids,
        HealthStep::ReapDelegated,
        HealthStep::ReapDeferred,
        HealthStep::HeartbeatLeases,
        HealthStep::PersistSample,
        HealthStep::PersistHeartbeat,
    ];
    if tick % (HEARTBEAT_LOG_CADENCE as int) == 1 {
        steps.push(HealthStep::LogHeartbeat)
    } else {
        steps
    }
}

/// The steps of a poll tick behind the given gate, in order. The cycle runs
/// only where every gate is clear; pruning goes on either way.
pub open spec fn poll_tick_steps(gate: SpawnGate) -> Seq<PollStep> {
    seq![
        match gate {
            SpawnGate::Proceed => PollStep::RunCycle,
            SpawnGate::QuotaPanic => PollStep::LogQuotaPanic,
            SpawnGate::Pressure => PollStep::LogPressure,
        },
        PollStep::PruneHealthSamples,
        PollStep::PruneHandledMarks,
        PollStep::PruneRedelivery,
    ]
}

/// The repo under which quota posts go out: the first that is watched, else
/// `legion`.
pub open spec fn quota_post_repo(config: WatchConfig) -> Seq<char> {
    if config.repos@.len() > 0 {
        config.repos@[0].name@
    } else {
        "legion"@
    }
}

impl<H> WatchLoop<H> {
    /// Builds the loop from a loaded configuration. `quota_threshold` is the
    /// panic threshold in percent, with one decimal.
    pub fn new(
        config: WatchConfig,
        quota_threshold: String,
        data_dir: &str,
        host: String,
        spawn_mode: SpawnMode,
        pid: u32,
    ) -> (state: Self)
        ensures
            state.config == config,
            state.cooldown.cooldown_secs == config.cooldown_secs,
            state.cooldown.work_hours_start == config.work_hours_start,
            state.cooldown.work_hours_end == config.work_hours_end,
            forall|repo: Seq<char>| #[trigger] state.cooldown.last_wake.at(repo) is None,
            state.tracker.children@.len() == 0,
            state.session_locks.lock_dir@ == path_joined(data_dir@, "sessions"@),
            state.session_locks.ttl_secs == config.session_lock_ttl_secs,
            state.quota_gate.threshold == quota_threshold,
            state.quota_gate.host@ == host@,
            state.quota_gate.post_repo@ == quota_post_repo(config),
            !state.quota_gate.in_panic,
            state.host == host,
            state.lease_ttl_secs == config.persona_lease_ttl_secs,
            exists|now: (i64, u32)| #[trigger]
                is_utc_now(now) && is_clock_reading(now.0 as int, now.1 as int) && opt_text(
                    state.lookback,
                ) == text_days_before(now.0 as int, now.1 as int, LOOKBACK_DAYS as int),
            state.lookback is Some,
            state.spawn_mode == spawn_mode,
            state.health_tick_count == 0,
            state.pid == pid,
    {
        let post_repo = if config.repos.len() > 0 {
            config.repos[0].name.clone()
        } else {
            "legion".to_string()
        };
        WatchLoop {
            cooldown: CooldownTracker::new(
                config.cooldown_secs,
                config.work_hours_start,
                config.work_hours_end,
            ),
            tracker: AgentTracker::new(),
            session_locks: SessionLockTracker::new(data_dir, config.session_lock_ttl_secs),
            quota_gate: QuotaPanicGate::new(quota_threshold, host.clone(), post_repo),
            host,
            lease_ttl_secs: config.persona_lease_ttl_secs,
            lookback: utc_days_ago_text(LOOKBACK_DAYS),
            spawn_mode,
            health_tick_count: 0,
            pid,
            config,
        }
    }

    /// Counts a health tick and tells its steps.
    pub fn tick_health(&mut self) -> (steps: Vec<HealthStep>)
        requires
            old(self).health_tick_count < u64::MAX,
        ensures
            *final(self) == (WatchLoop {
                health_tick_count: (old(self).health_tick_count + 1) as u64,
                ..*old(self)
            }),
            steps@ == health_steps(old(self).health_tick_count + 1),
    {
        self.health_tick_count = self.health_tick_count + 1;
        let mut steps: Vec<HealthStep> = Vec::new();
        steps.push(HealthStep::SamplePressure);
        steps.push(HealthStep::ConfirmSubmits);
        steps.push(HealthStep::ReapFinished);
        steps.push(HealthStep::ReapDeadPids);
        steps.push(HealthStep::ReapDelegated);
        steps.push(HealthStep::ReapDeferred);
        steps.push(HealthStep::HeartbeatLeases);
        steps.push(HealthStep::PersistSample);
        steps.push(HealthStep::PersistHeartbeat);
        if self.health_tick_count % HEARTBEAT_LOG_CADENCE == 1 {
            steps.push(HealthStep::LogHeartbeat);
        }
        assert(steps@ =~= health_steps(self.health_tick_count as int));
        steps
    }

    /// Tells the steps of a poll tick behind the given gate.
    pub fn tick_poll(&self, gate: SpawnGate) -> (steps: Vec<PollStep>)
        ensures
            steps@ == poll_tick_steps(gate),
    {
        let mut steps: Vec<PollStep> = Vec::new();
        steps.push(
            match gate {
                SpawnGate::Proceed => PollStep::RunCycle,
                SpawnGate::QuotaPanic => PollStep::LogQuotaPanic,
                SpawnGate::Pressure => PollStep::LogPressure,
            },
        );
        steps.push(PollStep::PruneHealthSamples);
        steps.push(PollStep::PruneHandledMarks);
        steps.push(PollStep::PruneRedelivery);
        assert(steps@ =~= poll_tick_steps(gate));
        steps
    }

    /// How many days back the cutoff lies.
    pub open spec fn days_kept(&self) -> int {
        (self.config.retention_days as i64) as int
    }

    /// The time before which samples and marks are pruned when the clock shows
    /// the given time, as seconds from 1970 and nanoseconds: as many days
    /// before as are retained. `None` where there is no such date.
    pub fn retention_cutoff_at(&self, now_secs: i64, now_nanos: u32) -> (cutoff: Option<String>)
        requires
            now_nanos < 1_000_000_000,
        ensures
            opt_text(cutoff) == text_days_before(
                now_secs as int,
                now_nanos as int,
                self.days_kept(),
            ),
    {
        utc_text_before(now_secs, now_nanos, self.config.retention_days as i64)
    }

    /// The time before which samples and marks are pruned. The clock decides;
    /// see [`WatchLoop::retention_cutoff_at`]. Whatever it shows, there is a
    /// cutoff for any retention that reaches back no further from 1970 than
    /// dates do, and none for one that is longer than all dates together.
    pub fn retention_cutoff(&self) -> (cutoff: Option<String>)
        ensures
            exists|now: (i64, u32)| #[trigger]
                is_utc_now(now) && is_clock_reading(now.0 as int, now.1 as int) && opt_text(cutoff)
                    == text_days_before(now.0 as int, now.1 as int, self.days_kept()),
            0 <= self.days_kept() * SECS_PER_DAY <= -FIRST_SECOND ==> cutoff is Some,
            self.days_kept() * SECS_PER_DAY > LAST_SECOND - FIRST_SECOND ==> cutoff is None,
    {
        let now = utc_now();
        self.retention_cutoff_at(now.0, now.1)
    }

    /// The names of the watched repos, for the log.
    pub fn watched_names(&self) -> (names: String)
        ensures
            names@ == joined(self.config.repos@.map_values(|r: crate::config::WatchRepoConfig| r.name@), ", "@),
    {
        let mut names: Vec<String> = Vec::new();
        for i in 0..self.config.repos.len()
            invariant
                names@.len() == i,
                forall|j: int| 0 <= j < i ==> (#[trigger] names@[j])@ == self.config.repos@[j].name@,
        {
            names.push(self.config.repos[i].name.clone());
        }
        assert(texts(names@) =~= self.config.repos@.map_values(
            |r: crate::config::WatchRepoConfig| r.name@,
        ));
        join(names.as_slice(), ", ")
    }
}

/// Whether a timer that was set `elapsed_nanos` ago is due.
pub fn timer_due(elapsed_nanos: u128, interval_secs: u64) -> (due: bool)
    ensures
        due == (elapsed_nanos >= interval_secs * NANOS_PER_SEC),
{
    elapsed_nanos >= (interval_secs as u128) * NANOS_PER_SEC
}

// -- Starting ----------------------------------------------------------------

/// A step of starting the watcher.
#[derive(Debug, Clone, Copy, PartialEq, Eq, Structural)]
pub enum BootPhase {
    /// Start the cluster sync, where it is enabled.
    SpawnSync,
    LoadConfig,
    AcquireLock,
    OpenStore,
    /// Release the leases that a previous run of this host left behind.
    ReleaseStaleLeases,
    Ready,
    Failed,
}

/// The step that follows. Cluster sync comes first and whatever becomes of it
/// the rest goes on, so that a broken watch configuration cannot keep a node
/// from syncing. Leases that could not be released are no reason to stop.
pub fn next_boot_phase(phase: BootPhase, ok: bool) -> (next: BootPhase)
    ensures
        next == (match phase {
            BootPhase::SpawnSync => BootPhase::LoadConfig,
            BootPhase::LoadConfig => if ok {
                BootPhase::AcquireLock
            } else {
                BootPhase::Failed
            },
            BootPhase::AcquireLock => if ok {
                BootPhase::OpenStore
            } else {
                BootPhase::Failed
            },
            BootPhase::OpenStore => if ok {
                BootPhase::ReleaseStaleLeases
            } else {
                BootPhase::Failed
            },
            BootPhase::ReleaseStaleLeases => BootPhase::Ready,
            BootPhase::Ready => BootPhase::Ready,
            BootPhase::Failed => BootPhase::Failed,
        }),
{
    match phase {
        BootPhase::SpawnSync => BootPhase::LoadConfig,
        BootPhase::LoadConfig => if ok {
            BootPhase::AcquireLock
        } else {
            BootPhase::Failed
        },
        BootPhase::AcquireLock => if ok {
            BootPhase::OpenStore
        } else {
            BootPhase::Failed
        },
        BootPhase::OpenStore => if ok {
            BootPhase::ReleaseStaleLeases
        } else {
            BootPhase::Failed
        },
        BootPhase::ReleaseStaleLeases => BootPhase::Ready,
        BootPhase::Ready => BootPhase::Ready,
        BootPhase::Failed => BootPhase::Failed,
    }
}

/// The files that the watcher keeps in its data directory.
#[derive(Debug)]
pub struct WatchPaths {
    pub config: String,
    pub pid_lock: String,
    pub store: String,
}

/// The files under `data_dir`.
pub fn watch_paths(data_dir: &str) -> (paths: WatchPaths)
    ensures
        paths.config@ == path_joined(data_dir@, "watch.toml"@),
        paths.pid_lock@ == path_joined(data_dir@, "watch.pid"@),
        paths.store@ == path_joined(data_dir@, "legion.db"@),
{
    WatchPaths {
        config: join_path(data_dir, "watch.toml"),
        pid_lock: join_path(data_dir, "watch.pid"),
        store: join_path(data_dir, "legion.db"),
    }
}

// -- Laws --------------------------------------------------------------------

/// A poll tick spawns exactly if nothing stands in the way of a spawn. In any
/// case it prunes samples, marks and redelivery records, and it logs a panic
/// or a pressure exactly if there is one.
pub proof fn law_pruning_goes_on_behind_a_shut_gate(gate: SpawnGate)
    ensures
        poll_tick_steps(gate).contains(PollStep::RunCycle) <==> gate == SpawnGate::Proceed,
        poll_tick_steps(gate).contains(PollStep::LogQuotaPanic) <==> gate == SpawnGate::QuotaPanic,
        poll_tick_steps(gate).contains(PollStep::LogPressure) <==> gate == SpawnGate::Pressure,
        poll_tick_steps(gate).len() == 4,
        poll_tick_steps(gate).skip(1) == seq![
            PollStep::PruneHealthSamples,
            PollStep::PruneHandledMarks,
            PollStep::PruneRedelivery,
        ],
{
    let steps = poll_tick_steps(gate);
    assert(steps.contains(steps[0]));
    assert(steps.skip(1) =~= seq![
        PollStep::PruneHealthSamples,
        PollStep::PruneHandledMarks,
        PollStep::PruneRedelivery,
    ]);
}

/// Every health tick does the same nine things, in an order that lets a later
/// step see what an earlier one did: the pressure is sampled before it is
/// stored, submits are confirmed before anything is reaped, and everything is
/// reaped before the leases are refreshed. The first tick and every tenth
/// behind it end with a line in the log, and no other does.
pub proof fn law_health_tick_keeps_its_order(tick: int)
    ensures
        ({
            let steps = health_steps(tick);
            &&& steps.no_duplicates()
            &&& steps.len() == (if exists|n: int| tick == #[trigger] (10 * n) + 1 {
                10int
            } else {
                9int
            })
            &&& steps.contains(HealthStep::LogHeartbeat) <==> exists|n: int|
                tick == #[trigger] (10 * n) + 1
            &&& forall|step: HealthStep|
                step != HealthStep::LogHeartbeat ==> #[trigger] steps.contains(step)
            &&& steps[0] == HealthStep::SamplePressure
            &&& steps[1] == HealthStep::ConfirmSubmits
            &&& steps[2] == HealthStep::ReapFinished
            &&& steps[3] == HealthStep::ReapDeadPids
            &&& steps[4] == HealthStep::ReapDelegated
            &&& steps[5] == HealthStep::ReapDeferred
            &&& steps[6] == HealthStep::HeartbeatLeases
            &&& steps[7] == HealthStep::PersistSample
            &&& steps[8] == HealthStep::PersistHeartbeat
        }),
{
    let steps = health_steps(tick);
    if tick % 10 == 1 {
        assert(tick == 10 * (tick / 10) + 1);
        assert(steps[9] == HealthStep::LogHeartbeat);
    }
    assert forall|step: HealthStep| step != HealthStep::LogHeartbeat implies #[trigger] steps.contains(
        step,
    ) by {
        let k: int = match step {
            HealthStep::SamplePressure => 0,
            HealthStep::ConfirmSubmits => 1,
            HealthStep::ReapFinished => 2,
            HealthStep::ReapDeadPids => 3,
            HealthStep::ReapDelegated => 4,
            HealthStep::ReapDeferred => 5,
            HealthStep::HeartbeatLeases => 6,
            HealthStep::PersistSample => 7,
            _ => 8,
        };
        assert(steps[k] == step);
    }
}

/// Starting ends either ready or failed. It fails exactly if the
/// configuration, the lock or the store cannot be had; cluster sync and stale
/// leases never stop it.
pub proof fn law_start_fails_only_on_what_it_needs(phase: BootPhase, ok: bool, next: BootPhase)
    requires
        call_ensures(next_boot_phase, (phase, ok), next),
    ensures
        next == BootPhase::Failed <==> phase == BootPhase::Failed || (!ok && (phase
            == BootPhase::LoadConfig || phase == BootPhase::AcquireLock || phase
            == BootPhase::OpenStore)),
        next == BootPhase::Ready <==> phase == BootPhase::Ready || phase
            == BootPhase::ReleaseStaleLeases,
        next == BootPhase::LoadConfig <==> phase == BootPhase::SpawnSync,
        next == BootPhase::AcquireLock <==> ok && phase == BootPhase::LoadConfig,
        next == BootPhase::OpenStore <==> ok && phase == BootPhase::AcquireLock,
        next == BootPhase::ReleaseStaleLeases <==> ok && phase == BootPhase::OpenStore,
{
}

/// Quota posts go out under the name of the first watched repo, and under
/// `legion` exactly if none is watched.
pub proof fn law_quota_posts_have_an_author(config: WatchConfig)
    ensures
        config.repos@.len() > 0 ==> quota_post_repo(config) == config.repos@.first().name@,
        config.repos@.len() == 0 ==> quota_post_repo(config) == "legion"@,
{
}

/// A timer is due from the moment at which its interval has passed.
pub proof fn law_timer_is_due_once_its_interval_passed(
    elapsed_nanos: u128,
    interval_secs: u64,
    due: bool,
)
    requires
        call_ensures(timer_due, (elapsed_nanos, interval_secs), due),
    ensures
        due <==> elapsed_nanos >= 1_000_000_000 * interval_secs,
{
}

/// Samples and marks are kept for the configured number of whole days before
/// the time that the clock shows.
pub proof fn law_retention_reaches_back_whole_days<H>(
    state: &WatchLoop<H>,
    now_secs: i64,
    now_nanos: u32,
    cutoff: Option<String>,
)
    requires
        now_nanos < 1_000_000_000,
        state.config.retention_days <= i64::MAX,
        call_ensures(WatchLoop::<H>::retention_cutoff_at, (state, now_secs, now_nanos), cutoff),
    ensures
        ({
            let then = now_secs - 86400 * state.config.retention_days;
            &&& cutoff is Some <==> FIRST_SECOND <= now_secs <= LAST_SECOND && FIRST_SECOND <= then
                <= LAST_SECOND
            &&& cutoff matches Some(text) ==> text@ == utc_text(then, now_nanos as int)
        }),
{
    law_days_before_are_whole_days(
        now_secs as int,
        now_nanos as int,
        state.config.retention_days as int,
    );
}

/// A starting watcher looks back one day from the time that the clock shows,
/// and its trackers go by the configuration.
pub proof fn law_watcher_starts_from_its_configuration<H>(
    config: WatchConfig,
    quota_threshold: String,
    data_dir: &str,
    host: String,
    spawn_mode: SpawnMode,
    pid: u32,
    state: WatchLoop<H>,
)
    requires
        call_ensures(
            WatchLoop::<H>::new,
            (config, quota_threshold, data_dir, host, spawn_mode, pid),
            state,
        ),
    ensures
        exists|now: (i64, u32)|
            #[trigger] is_utc_now(now) && (state.lookback matches Some(text) && text@ == utc_text(
                now.0 - 86400,
                now.1 as int,
            )),
        state.cooldown.cooldown_secs == config.cooldown_secs,
        state.session_locks.ttl_secs == config.session_lock_ttl_secs,
        state.lease_ttl_secs == config.persona_lease_ttl_secs,
        state.session_locks.lock_dir@ == path_joined(data_dir@, "sessions"@),
        state.quota_gate.host@ == host@,
        state.health_tick_count == 0,
{
    let now = choose|now: (i64, u32)| #[trigger]
        is_utc_now(now) && is_clock_reading(now.0 as int, now.1 as int) && opt_text(state.lookback)
            == text_days_before(now.0 as int, now.1 as int, LOOKBACK_DAYS as int);
    law_days_before_are_whole_days(now.0 as int, now.1 as int, 1);
    assert(is_utc_now(now));
}

/// Each health tick counts by one, and the tenth behind a logged one is logged
/// again.
pub proof fn law_health_ticks_are_counted<H>(state: &mut WatchLoop<H>, steps: Vec<HealthStep>)
    requires
        old(state).health_tick_count < u64::MAX,
        call_ensures(WatchLoop::<H>::tick_health, (state,), steps),
    ensures
        final(state).health_tick_count == old(state).health_tick_count + 1,
        final(state).config == old(state).config,
        final(state).tracker == old(state).tracker,
        final(state).cooldown == old(state).cooldown,
        steps@.contains(HealthStep::LogHeartbeat) <==> final(state).health_tick_count % 10 == 1,
{
    let tick: int = old(state).health_tick_count + 1;
    law_health_tick_keeps_its_order(tick);
    if tick % 10 == 1 {
        assert(tick == 10 * (tick / 10) + 1);
    }
    if exists|n: int| tick == #[trigger] (10 * n) + 1 {
        let n = choose|n: int| tick == #[trigger] (10 * n) + 1;
        assert(tick % 10 == 1);
    }
}

} // verus!
