//! The two ticks of the watch loop, the reapers and the start.
use legion_watch::board::{Board, Reflection};
use legion_watch::clock::{
    host_id_from, resolve_host_id, FIRST_SECOND, LAST_SECOND, SECS_PER_DAY,
};
use legion_watch::config::{WatchConfig, WatchRepoConfig};
use legion_watch::gates::{PollCycle, PollEffect, PollExit, PollPhase, PollSettings};
use legion_watch::locks::acquire_pid_lock;
use legion_watch::quota::{evaluate_spawn_gate, SpawnGate};
use legion_watch::reapers::{
    reap_dead_pid_attempts, reap_deferred_work_items, reap_delegated_work, rearm_or_abandon,
    Deferral, OrphanAttempt, RedeliveryOutcome, DEAD_PID_OUTCOME,
};
use legion_watch::signals::{find_pending_signals, is_wake_worthy};
use legion_watch::spawn::SpawnMode;
use legion_watch::verbs::VerbManifest;
use legion_watch::watch_loop::{
    next_boot_phase, timer_due, watch_paths, BootPhase, HealthStep, PollStep, WatchLoop,
};

fn post(board: &mut Board, repo: &str, text: &str) {
    let n = board.reflections.len();
    board.insert_reflection(Reflection {
        id: format!("post-{n}"),
        repo: repo.to_string(),
        text: text.to_string(),
        created_at: format!("2026-01-01T00:00:{n:02}Z"),
    });
}

fn test_watch_loop() -> WatchLoop<u32> {
    let config = WatchConfig {
        repos: vec![WatchRepoConfig {
            name: "test-repo".to_string(),
            workdir: "/tmp".to_string(),
            agent: None,
            broadcast_tags: Vec::new(),
            extra: toml::Table::new(),
        }],
        ..WatchConfig::default()
    };
    WatchLoop::new(
        config,
        "99.0".to_string(),
        "/tmp",
        "test-host".to_string(),
        SpawnMode::Print,
        4242,
    )
}

fn pending(board: &Board, repo: &str) -> Vec<(String, String, String)> {
    find_pending_signals(board, repo, &[repo.to_string()], None)
}

/// Runs the poll tick of a loop whose repos are not woken.
fn tick_poll(state: &WatchLoop<u32>, board: &mut Board, gate: SpawnGate) -> Vec<PollStep> {
    let steps = state.tick_poll(gate);
    for step in &steps {
        if *step != PollStep::RunCycle {
            continue;
        }
        let manifest = VerbManifest::builtin_default();
        let mut cycle = PollCycle::start(PollSettings {
            config: &state.config,
            manifest: &manifest,
            lease_gate: None,
            uses_locks: false,
            mode: state.spawn_mode,
        });
        loop {
            match cycle.phase {
                PollPhase::Pending => {
                    let repo = &state.config.repos[cycle.at];
                    cycle.on_pending(find_pending_signals(
                        board,
                        &repo.name,
                        &repo.wake_addresses(),
                        None,
                    ));
                }
                PollPhase::Cooling => cycle.on_cooling(false),
                PollPhase::Asks => cycle.on_asks(board, state.tracker.active_count()),
                PollPhase::Leave { exit } => {
                    assert_ne!(exit, PollExit::Woken);
                    for effect in cycle.effects() {
                        assert_eq!(effect, PollEffect::MarkHandled);
                        for id in cycle.signal_ids() {
                            board.mark_signal_handled_for_repo(&id, "test-repo");
                        }
                    }
                    cycle.leave();
                }
                PollPhase::CapReached | PollPhase::Finished => break,
                other => panic!("no session may be spawned: {other:?}"),
            }
        }
    }
    steps
}

#[test]
fn mod_watch_loop_tick_poll_proceed_marks_informational_signal_handled() {
    let mut board = Board::new();
    post(&mut board, "other-agent", "@test-repo announce -- hello");
    let state = test_watch_loop();
    assert!(!pending(&board, "test-repo").is_empty(), "signal should be pending before tick");
    tick_poll(&state, &mut board, evaluate_spawn_gate(false, true));
    assert!(
        pending(&board, "test-repo").is_empty(),
        "informational signal should be handled after tick_poll with Proceed gate"
    );
}

#[test]
fn mod_watch_loop_tick_poll_quota_panic_skips_poll_cycle() {
    let mut board = Board::new();
    post(&mut board, "other-agent", "@test-repo announce -- should not be consumed");
    let state = test_watch_loop();
    tick_poll(&state, &mut board, evaluate_spawn_gate(true, true));
    assert!(
        !pending(&board, "test-repo").is_empty(),
        "signal must remain pending when quota panic gate fires (poll_cycle must not run)"
    );
}

#[test]
fn mod_watch_loop_tick_poll_pressure_gate_skips_poll_cycle() {
    let mut board = Board::new();
    post(&mut board, "other-agent", "@test-repo announce -- should not be consumed");
    let state = test_watch_loop();
    tick_poll(&state, &mut board, evaluate_spawn_gate(false, false));
    assert!(
        !pending(&board, "test-repo").is_empty(),
        "signal must remain pending when pressure gate fires (poll_cycle must not run)"
    );
}

#[test]
fn mod_watch_loop_tick_poll_respects_concurrent_wake_cap() {
    let mut board = Board::new();
    post(&mut board, "other-agent", "@test-repo request -- wake up");
    let mut state = test_watch_loop();
    state.config.max_concurrent_wakes = 1;
    state.config.stagger_secs = 0;
    state.tracker.track(
        "filler".to_string(),
        1,
        SpawnMode::Print,
        Vec::new(),
        String::new(),
        "filler-session".to_string(),
        "now".to_string(),
        Vec::new(),
        None,
    );
    assert_eq!(state.tracker.active_count(), 1);
    tick_poll(&state, &mut board, SpawnGate::Proceed);
    assert_eq!(
        state.tracker.active_count(),
        1,
        "tick_poll must not spawn past the concurrent-wake cap"
    );
    assert_eq!(
        pending(&board, "test-repo").len(),
        1,
        "deferred wake-worthy signal must stay pending for re-poll"
    );
}

#[test]
fn mod_bootstrap_missing_watch_toml_fails_watch_without_sync() {
    let after_sync = next_boot_phase(BootPhase::SpawnSync, false);
    assert_eq!(after_sync, BootPhase::LoadConfig);
    let err = legion_watch::config::load_config("/data/watch.toml", None, &[])
        .expect_err("missing watch.toml must fail bootstrap");
    assert!(format!("{err:?}").contains("config file not found"), "unexpected error: {err:?}");
    assert_eq!(
        next_boot_phase(after_sync, false),
        BootPhase::Failed,
        "pid lock must not be acquired when config load fails"
    );
}

#[test]
fn mod_bootstrap_acquires_pid_lock_and_guard_releases_it() {
    let mut phase = BootPhase::SpawnSync;
    let mut seen = vec![phase];
    while phase != BootPhase::Ready {
        phase = next_boot_phase(phase, true);
        seen.push(phase);
    }
    assert_eq!(
        seen,
        vec![
            BootPhase::SpawnSync,
            BootPhase::LoadConfig,
            BootPhase::AcquireLock,
            BootPhase::OpenStore,
            BootPhase::ReleaseStaleLeases,
            BootPhase::Ready,
        ]
    );
    let state = test_watch_loop();
    assert_eq!(state.config.repos.len(), 1);
    assert_eq!(state.spawn_mode, SpawnMode::Print);
    assert!(
        acquire_pid_lock(Some(state.pid), true).is_err(),
        "second bootstrap must lose the pid-lock race"
    );
    assert_eq!(next_boot_phase(BootPhase::AcquireLock, false), BootPhase::Failed);
    assert_eq!(watch_paths("/data").pid_lock, "/data/watch.pid");
}

#[test]
fn watch_watch_loop_tick_poll_proceed_marks_informational_signal_handled() {
    let mut board = Board::new();
    post(&mut board, "other-agent", "@test-repo announce -- hello");
    let state = test_watch_loop();
    assert!(!pending(&board, "test-repo").is_empty(), "signal should be pending before tick");
    tick_poll(&state, &mut board, evaluate_spawn_gate(false, true));
    assert!(
        pending(&board, "test-repo").is_empty(),
        "informational signal should be handled after tick_poll with Proceed gate"
    );
}

#[test]
fn watch_watch_loop_tick_poll_quota_panic_skips_poll_cycle() {
    let mut board = Board::new();
    post(&mut board, "other-agent", "@test-repo announce -- should not be consumed");
    let state = test_watch_loop();
    tick_poll(&state, &mut board, evaluate_spawn_gate(true, true));
    assert!(
        !pending(&board, "test-repo").is_empty(),
        "signal must remain pending when quota panic gate fires (poll_cycle must not run)"
    );
}

#[test]
fn watch_watch_loop_tick_poll_pressure_gate_skips_poll_cycle() {
    let mut board = Board::new();
    post(&mut board, "other-agent", "@test-repo announce -- should not be consumed");
    let state = test_watch_loop();
    tick_poll(&state, &mut board, evaluate_spawn_gate(false, false));
    assert!(
        !pending(&board, "test-repo").is_empty(),
        "signal must remain pending when pressure gate fires (poll_cycle must not run)"
    );
}

#[test]
fn watch_watch_loop_tick_poll_respects_concurrent_wake_cap() {
    let mut board = Board::new();
    post(&mut board, "other-agent", "@test-repo request -- wake up");
    let mut state = test_watch_loop();
    state.config.max_concurrent_wakes = 1;
    state.config.stagger_secs = 0;
    state.tracker.track(
        "filler".to_string(),
        1,
        SpawnMode::Print,
        Vec::new(),
        String::new(),
        "filler-session".to_string(),
        "now".to_string(),
        Vec::new(),
        None,
    );
    assert_eq!(state.tracker.active_count(), 1);
    tick_poll(&state, &mut board, SpawnGate::Proceed);
    assert_eq!(
        state.tracker.active_count(),
        1,
        "tick_poll must not spawn past the concurrent-wake cap"
    );
    assert_eq!(
        pending(&board, "test-repo").len(),
        1,
        "deferred wake-worthy signal must stay pending for re-poll"
    );
}

#[test]
fn watch_bootstrap_missing_watch_toml_fails_watch_without_sync() {
    let after_sync = next_boot_phase(BootPhase::SpawnSync, false);
    assert_eq!(after_sync, BootPhase::LoadConfig);
    let err = legion_watch::config::load_config("/data/watch.toml", None, &[])
        .expect_err("missing watch.toml must fail bootstrap");
    assert!(format!("{err:?}").contains("config file not found"), "unexpected error: {err:?}");
    assert_eq!(
        next_boot_phase(after_sync, false),
        BootPhase::Failed,
        "pid lock must not be acquired when config load fails"
    );
}

#[test]
fn watch_bootstrap_acquires_pid_lock_and_guard_releases_it() {
    let mut phase = BootPhase::SpawnSync;
    let mut seen = vec![phase];
    while phase != BootPhase::Ready {
        phase = next_boot_phase(phase, true);
        seen.push(phase);
    }
    assert_eq!(
        seen,
        vec![
            BootPhase::SpawnSync,
            BootPhase::LoadConfig,
            BootPhase::AcquireLock,
            BootPhase::OpenStore,
            BootPhase::ReleaseStaleLeases,
            BootPhase::Ready,
        ]
    );
    let state = test_watch_loop();
    assert_eq!(state.config.repos.len(), 1);
    assert_eq!(state.spawn_mode, SpawnMode::Print);
    assert!(
        acquire_pid_lock(Some(state.pid), true).is_err(),
        "second bootstrap must lose the pid-lock race"
    );
    assert_eq!(next_boot_phase(BootPhase::AcquireLock, false), BootPhase::Failed);
    assert_eq!(watch_paths("/data").pid_lock, "/data/watch.pid");
}

#[test]
fn watch_loop_tick_poll_prunes_watch_redelivery() {
    let state = test_watch_loop();
    for gate in [SpawnGate::Proceed, SpawnGate::QuotaPanic, SpawnGate::Pressure] {
        let steps = state.tick_poll(gate);
        assert_eq!(
            steps[1..],
            [PollStep::PruneHealthSamples, PollStep::PruneHandledMarks, PollStep::PruneRedelivery]
        );
    }
    assert_eq!(state.retention_cutoff().expect("cutoff")[4..5], *"-");
}

#[test]
fn the_cutoff_lies_as_many_days_back_as_are_retained() {
    let mut state = test_watch_loop();
    let now = 1_700_000_000;
    assert_eq!(
        state.retention_cutoff_at(now, 0).as_deref(),
        Some("2023-11-07T22:13:20+00:00")
    );
    assert_eq!(
        state.retention_cutoff_at(now, 500_000_000).as_deref(),
        Some("2023-11-07T22:13:20.500+00:00")
    );
    state.config.retention_days = 0;
    assert_eq!(
        state.retention_cutoff_at(now, 0).as_deref(),
        Some("2023-11-14T22:13:20+00:00")
    );
}

#[test]
fn there_is_a_cutoff_exactly_where_there_are_dates() {
    assert_eq!(chrono::DateTime::<chrono::Utc>::MIN_UTC.timestamp(), FIRST_SECOND);
    assert_eq!(chrono::DateTime::<chrono::Utc>::MAX_UTC.timestamp(), LAST_SECOND);
    let mut state = test_watch_loop();
    state.config.retention_days = (-FIRST_SECOND / SECS_PER_DAY) as u64;
    assert!(state.retention_cutoff_at(0, 0).is_some());
    assert!(state.retention_cutoff().is_some());
    state.config.retention_days += 1;
    assert_eq!(state.retention_cutoff_at(0, 0), None);
    state.config.retention_days = 1;
    assert_eq!(state.retention_cutoff_at(LAST_SECOND + 1, 0), None);
    // One day after the last date.
    state.config.retention_days = u64::MAX;
    assert_eq!(state.retention_cutoff_at(LAST_SECOND, 0), None);
    assert!(state.retention_cutoff_at(0, 0).is_some());
    state.config.retention_days = ((LAST_SECOND - FIRST_SECOND) / SECS_PER_DAY) as u64 + 1;
    assert_eq!(state.retention_cutoff(), None);
    state.config.retention_days = i64::MAX as u64;
    assert_eq!(state.retention_cutoff(), None);
    state.config.retention_days = i64::MAX as u64 + 1;
    assert_eq!(state.retention_cutoff(), None);
}

fn orphan(id: &str, pid: Option<u32>) -> OrphanAttempt {
    OrphanAttempt {
        attempt_id: id.to_string(),
        repo_name: "test-repo".to_string(),
        spawned_pid: pid,
        signal_ids: Vec::new(),
    }
}

#[test]
fn reap_dead_pid_attempts_marks_dead_pid_failed_and_leaves_live_pid() {
    let orphans = vec![orphan("dead", Some(7)), orphan("live", Some(4242)), orphan("dead-2", Some(8))];
    let failed = reap_dead_pid_attempts(&orphans, &[false, true, false]);
    assert_eq!(failed, vec![0, 2]);
    assert_eq!(DEAD_PID_OUTCOME, "dead-pid: process not found at reaper scan");
}

#[test]
fn reap_dead_pid_attempts_skips_rows_without_pid() {
    let failed = reap_dead_pid_attempts(&[orphan("starting", None)], &[false]);
    assert!(failed.is_empty(), "no-pid running row must be left in running state");
}

#[test]
fn reap_dead_pid_attempts_rearms_signal_below_cap() {
    let outcomes = vec![("sig-1".to_string(), RedeliveryOutcome::Rearmed)];
    assert!(rearm_or_abandon(&outcomes, "a-1", "smugglr", 3).is_empty());
}

#[test]
fn reap_dead_pid_attempts_exhausts_and_posts_bullpen_alarm() {
    let outcomes = vec![
        ("sig-1".to_string(), RedeliveryOutcome::Rearmed),
        ("sig-2".to_string(), RedeliveryOutcome::Exhausted { attempts: 4 }),
    ];
    let posts = rearm_or_abandon(&outcomes, "a-1", "smugglr", 3);
    assert_eq!(posts.len(), 1);
    assert!(
        posts[0].contains("redelivery ABANDONED"),
        "exhausted redelivery must post a loud abandonment notice to smugglr's bullpen; got: {:?}",
        posts
    );
    assert!(posts[0].contains("sig-2") && posts[0].contains("smugglr") && posts[0].contains("a-1"));
}

#[test]
fn reap_delegated_work_clears_link_when_attempt_went_terminal() {
    let items = vec![Some("item-died".to_string())];
    assert_eq!(
        reap_delegated_work(&items, &[Some(false)]),
        vec![0],
        "a terminal attempt's link must be cleared by the sweep"
    );
}

#[test]
fn reap_delegated_work_leaves_live_delegation_alone() {
    let items = vec![Some("item-running".to_string())];
    assert!(
        reap_delegated_work(&items, &[Some(true)]).is_empty(),
        "a live delegation's link must not be touched"
    );
}

#[test]
fn reap_delegated_work_clears_link_when_daemon_heartbeat_is_absent() {
    let items = vec![None, Some("item-no-heartbeat".to_string()), Some("item-unknown".to_string())];
    assert_eq!(
        reap_delegated_work(&items, &[Some(false), Some(false), None]),
        vec![1],
        "an in-flight attempt with no daemon heartbeat is still not verifiably live"
    );
}

fn deferral(item: &str, repo: &str) -> Deferral {
    Deferral { work_item_id: item.to_string(), repo: repo.to_string() }
}

#[test]
fn reap_deferred_work_items_clears_and_wakes_when_due() {
    let mut board = Board::new();
    for text in reap_deferred_work_items(&[deferral("item-1", "test-repo")], &[true]) {
        post(&mut board, "test-host", &text);
    }
    let pending = pending(&board, "test-repo");
    assert_eq!(pending.len(), 1, "the work item's owner must have a pending wake signal");
    assert!(
        pending[0].1.contains("item-1"),
        "the wake signal must name the work item: {}",
        pending[0].1
    );
    assert_eq!(
        pending[0].1,
        "@test-repo routing -- deferred work item item-1 is back (wake_at reached)"
    );
    assert!(is_wake_worthy(&VerbManifest::builtin_default(), &pending[0].1));
}

#[test]
fn reap_deferred_work_items_leaves_future_wake_at_alone() {
    assert!(
        reap_deferred_work_items(&[], &[]).is_empty(),
        "no wake signal should be sent before wake_at"
    );
    assert!(reap_deferred_work_items(&[deferral("item-1", "test-repo")], &[false]).is_empty());
}

#[test]
fn reap_deferred_work_items_wakes_owner_even_when_repo_is_legion() {
    let mut board = Board::new();
    for text in reap_deferred_work_items(&[deferral("item-1", "legion")], &[true]) {
        post(&mut board, "test-host", &text);
    }
    let pending = pending(&board, "legion");
    assert_eq!(
        pending.len(),
        1,
        "a deferral owned by 'legion' must still wake its owner; got: {pending:?}"
    );
}

#[test]
fn watch_loop_tick_health_wakes_due_deferred_work_item() {
    let mut state = test_watch_loop();
    let steps = state.tick_health();
    assert!(
        steps.contains(&HealthStep::ReapDeferred),
        "tick_health must wake the deferred work item's owner"
    );
}

#[test]
fn health_ticks_reap_before_they_refresh_and_log_every_tenth() {
    let mut state = test_watch_loop();
    let first = state.tick_health();
    assert_eq!(first.last(), Some(&HealthStep::LogHeartbeat));
    let at = |s: HealthStep| first.iter().position(|x| *x == s).expect("step");
    assert!(at(HealthStep::ConfirmSubmits) < at(HealthStep::ReapFinished));
    assert!(at(HealthStep::ReapDeadPids) < at(HealthStep::HeartbeatLeases));
    for _ in 2..11 {
        assert!(!state.tick_health().contains(&HealthStep::LogHeartbeat));
    }
    assert!(state.tick_health().contains(&HealthStep::LogHeartbeat));
    assert_eq!(state.health_tick_count, 11);
}

#[test]
fn a_new_loop_goes_by_its_configuration() {
    let state = test_watch_loop();
    assert_eq!(state.watched_names(), "test-repo");
    assert_eq!(state.quota_gate.post_repo, "test-repo");
    assert_eq!(state.session_locks.lock_dir, "/tmp/sessions");
    assert_eq!(state.lease_ttl_secs, 600);
    let lookback = state.lookback.expect("lookback");
    assert_eq!(lookback[4..5], *"-");
    assert!(lookback.contains('T'));
    let empty: WatchLoop<u32> = WatchLoop::new(
        WatchConfig::default(),
        "99.0".to_string(),
        "/d",
        "h".to_string(),
        SpawnMode::Pty,
        1,
    );
    assert_eq!(empty.quota_gate.post_repo, "legion");
    assert_eq!(empty.watched_names(), "");
}

#[test]
fn a_timer_is_due_once_its_interval_has_passed() {
    assert!(!timer_due(4_999_999_999, 5));
    assert!(timer_due(5_000_000_000, 5));
    assert!(timer_due(0, 0));
}

#[test]
fn the_files_of_the_watcher() {
    let paths = watch_paths("/data/");
    assert_eq!(paths.config, "/data/watch.toml");
    assert_eq!(paths.store, "/data/legion.db");
}

#[test]
fn the_host_goes_by_the_name_that_the_system_reports() {
    assert_eq!(host_id_from(Some("box".to_string())), "box");
    assert_eq!(host_id_from(None), "unknown");
    assert_eq!(resolve_host_id(), host_id_from(sysinfo::System::host_name().ok()));
}
