//! The gates in front of a spawn cycle: the wake cap, the quota panic and the
//! pressure on the system.
use std::cell::RefCell;

use legion_watch::gates::wake_cap_reached;
use legion_watch::quota::{self, evaluate_spawn_gate, SampleLookup, SpawnGate};

struct RateLimitSample {
    hostname: String,
    sampled_at: String,
    five_hour_pct: Option<f64>,
    seven_day_pct: Option<f64>,
}

/// A store of samples and posts; either table may be gone.
struct Database {
    samples: RefCell<Option<Vec<RateLimitSample>>>,
    posts: RefCell<Option<Vec<String>>>,
}

impl Database {
    fn insert_rate_limit_sample(&self, sample: RateLimitSample) {
        self.samples.borrow_mut().as_mut().expect("samples").push(sample);
    }
}

fn test_storage() -> Database {
    Database { samples: RefCell::new(Some(Vec::new())), posts: RefCell::new(Some(Vec::new())) }
}

fn rate_sample(
    _id: &str,
    host: &str,
    sampled_at: &str,
    five_hour_pct: Option<f64>,
    seven_day_pct: Option<f64>,
) -> RateLimitSample {
    RateLimitSample {
        hostname: host.to_string(),
        sampled_at: sampled_at.to_string(),
        five_hour_pct,
        seven_day_pct,
    }
}

/// A gate with its threshold as a number.
struct QuotaPanicGate {
    gate: quota::QuotaPanicGate,
    threshold_pct: f64,
}

impl QuotaPanicGate {
    fn new(threshold_pct: f64, host: String, post_repo: String) -> Self {
        QuotaPanicGate {
            gate: quota::QuotaPanicGate::new(format!("{threshold_pct:.1}"), host, post_repo),
            threshold_pct,
        }
    }

    fn lookup(&self, db: &Database) -> SampleLookup {
        let samples = db.samples.borrow();
        let Some(samples) = samples.as_ref() else { return SampleLookup::Failed };
        let latest = samples
            .iter()
            .filter(|s| s.hostname == self.gate.host)
            .max_by(|a, b| a.sampled_at.cmp(&b.sampled_at));
        match latest {
            Some(s) => SampleLookup::Found {
                five_hour_over: s.five_hour_pct.map(|p| p >= self.threshold_pct),
                seven_day_over: s.seven_day_pct.map(|p| p >= self.threshold_pct),
            },
            None => SampleLookup::Absent,
        }
    }

    fn quota_panic_active(&self, db: &Database) -> bool {
        self.gate.quota_panic_active(self.lookup(db))
    }

    fn check_and_post(&mut self, db: &Database) -> bool {
        let active = self.quota_panic_active(db);
        if let Some(post) = self.gate.check_and_post(active) {
            let landed = match db.posts.borrow_mut().as_mut() {
                Some(posts) => {
                    posts.push(post);
                    true
                }
                None => false,
            };
            self.gate.on_posted(active, landed);
        }
        active
    }
}

fn bullpen_panic_post_count(db: &Database) -> usize {
    let posts = db.posts.borrow();
    posts
        .as_ref()
        .expect("read bullpen")
        .iter()
        .filter(|p| p.contains("QUOTA PANIC") || p.contains("QUOTA RECOVERED"))
        .count()
}

#[test]
fn gates_panic_active_when_sample_crosses_threshold() {
    let db = test_storage();
    db.insert_rate_limit_sample(rate_sample(
        "s1",
        "this-host",
        "2026-05-23T10:00:00Z",
        Some(99.5),
        Some(40.0),
    ));
    let gate = QuotaPanicGate::new(99.0, "this-host".to_string(), "legion".to_string());
    assert!(gate.quota_panic_active(&db));
}

#[test]
fn gates_panic_inactive_when_sample_below_threshold() {
    let db = test_storage();
    db.insert_rate_limit_sample(rate_sample(
        "s1",
        "this-host",
        "2026-05-23T10:00:00Z",
        Some(50.0),
        Some(60.0),
    ));
    let gate = QuotaPanicGate::new(99.0, "this-host".to_string(), "legion".to_string());
    assert!(!gate.quota_panic_active(&db));
}

#[test]
fn gates_panic_inactive_when_no_sample_yet() {
    let db = test_storage();
    let gate = QuotaPanicGate::new(99.0, "this-host".to_string(), "legion".to_string());
    assert!(!gate.quota_panic_active(&db));
}

#[test]
fn gates_panic_inactive_for_other_hosts_sample() {
    let db = test_storage();
    db.insert_rate_limit_sample(rate_sample(
        "s1",
        "other-host",
        "2026-05-23T10:00:00Z",
        Some(99.9),
        Some(99.9),
    ));
    let gate = QuotaPanicGate::new(99.0, "this-host".to_string(), "legion".to_string());
    assert!(!gate.quota_panic_active(&db));
}

#[test]
fn gates_panic_seven_day_window_independently_trips_gate() {
    let db = test_storage();
    db.insert_rate_limit_sample(rate_sample(
        "s1",
        "this-host",
        "2026-05-23T10:00:00Z",
        Some(10.0),
        Some(99.5),
    ));
    let gate = QuotaPanicGate::new(99.0, "this-host".to_string(), "legion".to_string());
    assert!(gate.quota_panic_active(&db));
}

#[test]
fn gates_panic_five_hour_window_independently_trips_gate() {
    let db = test_storage();
    db.insert_rate_limit_sample(rate_sample(
        "s1",
        "this-host",
        "2026-05-23T10:00:00Z",
        Some(99.5),
        Some(10.0),
    ));
    let gate = QuotaPanicGate::new(99.0, "this-host".to_string(), "legion".to_string());
    assert!(gate.quota_panic_active(&db));
}

#[test]
fn gates_edge_flip_emits_exactly_one_post_per_transition() {
    let db = test_storage();
    let mut gate = QuotaPanicGate::new(99.0, "this-host".to_string(), "legion".to_string());

    db.insert_rate_limit_sample(rate_sample(
        "s1",
        "this-host",
        "2026-05-23T10:00:00Z",
        Some(50.0),
        Some(50.0),
    ));
    assert!(!gate.check_and_post(&db));
    assert_eq!(bullpen_panic_post_count(&db), 0);

    db.insert_rate_limit_sample(rate_sample(
        "s2",
        "this-host",
        "2026-05-23T11:00:00Z",
        Some(99.5),
        Some(60.0),
    ));
    assert!(gate.check_and_post(&db));
    assert_eq!(bullpen_panic_post_count(&db), 1);

    db.insert_rate_limit_sample(rate_sample(
        "s3",
        "this-host",
        "2026-05-23T12:00:00Z",
        Some(99.8),
        Some(70.0),
    ));
    assert!(gate.check_and_post(&db));
    assert_eq!(bullpen_panic_post_count(&db), 1);

    db.insert_rate_limit_sample(rate_sample(
        "s4",
        "this-host",
        "2026-05-23T13:00:00Z",
        Some(50.0),
        Some(50.0),
    ));
    assert!(!gate.check_and_post(&db));
    assert_eq!(bullpen_panic_post_count(&db), 2);

    assert!(!gate.check_and_post(&db));
    assert_eq!(bullpen_panic_post_count(&db), 2);
}

#[test]
fn gates_db_error_returns_false_does_not_halt_watch() {
    let db = test_storage();
    *db.samples.borrow_mut() = None;
    let gate = QuotaPanicGate::new(99.0, "this-host".to_string(), "legion".to_string());
    assert!(!gate.quota_panic_active(&db));
}

#[test]
fn gates_post_failure_does_not_advance_edge() {
    let db = test_storage();
    let mut gate = QuotaPanicGate::new(99.0, "this-host".to_string(), "legion".to_string());

    db.insert_rate_limit_sample(rate_sample(
        "s1",
        "this-host",
        "2026-05-23T10:00:00Z",
        Some(99.5),
        Some(40.0),
    ));
    *db.posts.borrow_mut() = None;

    assert!(gate.check_and_post(&db), "active state still observed");
    assert!(!gate.gate.in_panic, "post failure must not advance in_panic");

    assert!(gate.check_and_post(&db), "still active");
    assert!(!gate.gate.in_panic, "edge still pending after second failure");
}

#[test]
fn watch_panic_active_when_sample_crosses_threshold() {
    let db = test_storage();
    db.insert_rate_limit_sample(rate_sample(
        "s1",
        "this-host",
        "2026-05-23T10:00:00Z",
        Some(99.5),
        Some(40.0),
    ));
    let gate = QuotaPanicGate::new(99.0, "this-host".to_string(), "legion".to_string());
    assert!(gate.quota_panic_active(&db));
}

#[test]
fn watch_panic_inactive_when_sample_below_threshold() {
    let db = test_storage();
    db.insert_rate_limit_sample(rate_sample(
        "s1",
        "this-host",
        "2026-05-23T10:00:00Z",
        Some(50.0),
        Some(60.0),
    ));
    let gate = QuotaPanicGate::new(99.0, "this-host".to_string(), "legion".to_string());
    assert!(!gate.quota_panic_active(&db));
}

#[test]
fn watch_panic_inactive_when_no_sample_yet() {
    let db = test_storage();
    let gate = QuotaPanicGate::new(99.0, "this-host".to_string(), "legion".to_string());
    assert!(!gate.quota_panic_active(&db));
}

#[test]
fn watch_panic_inactive_for_other_hosts_sample() {
    let db = test_storage();
    db.insert_rate_limit_sample(rate_sample(
        "s1",
        "other-host",
        "2026-05-23T10:00:00Z",
        Some(99.9),
        Some(99.9),
    ));
    let gate = QuotaPanicGate::new(99.0, "this-host".to_string(), "legion".to_string());
    assert!(!gate.quota_panic_active(&db));
}

#[test]
fn watch_panic_seven_day_window_independently_trips_gate() {
    let db = test_storage();
    db.insert_rate_limit_sample(rate_sample(
        "s1",
        "this-host",
        "2026-05-23T10:00:00Z",
        Some(10.0),
        Some(99.5),
    ));
    let gate = QuotaPanicGate::new(99.0, "this-host".to_string(), "legion".to_string());
    assert!(gate.quota_panic_active(&db));
}

#[test]
fn watch_panic_five_hour_window_independently_trips_gate() {
    let db = test_storage();
    db.insert_rate_limit_sample(rate_sample(
        "s1",
        "this-host",
        "2026-05-23T10:00:00Z",
        Some(99.5),
        Some(10.0),
    ));
    let gate = QuotaPanicGate::new(99.0, "this-host".to_string(), "legion".to_string());
    assert!(gate.quota_panic_active(&db));
}

#[test]
fn watch_edge_flip_emits_exactly_one_post_per_transition() {
    let db = test_storage();
    let mut gate = QuotaPanicGate::new(99.0, "this-host".to_string(), "legion".to_string());

    db.insert_rate_limit_sample(rate_sample(
        "s1",
        "this-host",
        "2026-05-23T10:00:00Z",
        Some(50.0),
        Some(50.0),
    ));
    assert!(!gate.check_and_post(&db));
    assert_eq!(bullpen_panic_post_count(&db), 0);

    db.insert_rate_limit_sample(rate_sample(
        "s2",
        "this-host",
        "2026-05-23T11:00:00Z",
        Some(99.5),
        Some(60.0),
    ));
    assert!(gate.check_and_post(&db));
    assert_eq!(bullpen_panic_post_count(&db), 1);

    db.insert_rate_limit_sample(rate_sample(
        "s3",
        "this-host",
        "2026-05-23T12:00:00Z",
        Some(99.8),
        Some(70.0),
    ));
    assert!(gate.check_and_post(&db));
    assert_eq!(bullpen_panic_post_count(&db), 1);

    db.insert_rate_limit_sample(rate_sample(
        "s4",
        "this-host",
        "2026-05-23T13:00:00Z",
        Some(50.0),
        Some(50.0),
    ));
    assert!(!gate.check_and_post(&db));
    assert_eq!(bullpen_panic_post_count(&db), 2);

    assert!(!gate.check_and_post(&db));
    assert_eq!(bullpen_panic_post_count(&db), 2);
}

#[test]
fn watch_db_error_returns_false_does_not_halt_watch() {
    let db = test_storage();
    *db.samples.borrow_mut() = None;
    let gate = QuotaPanicGate::new(99.0, "this-host".to_string(), "legion".to_string());
    assert!(!gate.quota_panic_active(&db));
}

#[test]
fn watch_post_failure_does_not_advance_edge() {
    let db = test_storage();
    let mut gate = QuotaPanicGate::new(99.0, "this-host".to_string(), "legion".to_string());

    db.insert_rate_limit_sample(rate_sample(
        "s1",
        "this-host",
        "2026-05-23T10:00:00Z",
        Some(99.5),
        Some(40.0),
    ));
    *db.posts.borrow_mut() = None;

    assert!(gate.check_and_post(&db), "active state still observed");
    assert!(!gate.gate.in_panic, "post failure must not advance in_panic");

    assert!(gate.check_and_post(&db), "still active");
    assert!(!gate.gate.in_panic, "edge still pending after second failure");
}

#[test]
fn gates_missing_pct_does_not_trip_gate() {
    let db = test_storage();
    db.insert_rate_limit_sample(rate_sample("s1", "this-host", "2026-05-23T10:00:00Z", None, None));
    let gate = QuotaPanicGate::new(99.0, "this-host".to_string(), "legion".to_string());
    assert!(!gate.quota_panic_active(&db));
}

#[test]
fn gates_panic_at_exactly_threshold_is_active() {
    let db = test_storage();
    let gate = QuotaPanicGate::new(99.0, "this-host".to_string(), "legion".to_string());
    db.insert_rate_limit_sample(rate_sample("s1", "this-host", "t", Some(99.0), Some(40.0)));
    assert!(gate.quota_panic_active(&db));
    db.insert_rate_limit_sample(rate_sample("s2", "this-host", "u", Some(98.999), Some(40.0)));
    assert!(!gate.quota_panic_active(&db));
}

#[test]
fn watch_missing_pct_does_not_trip_gate() {
    let db = test_storage();
    db.insert_rate_limit_sample(rate_sample("s1", "this-host", "2026-05-23T10:00:00Z", None, None));
    let gate = QuotaPanicGate::new(99.0, "this-host".to_string(), "legion".to_string());
    assert!(!gate.quota_panic_active(&db));
}

#[test]
fn watch_panic_at_exactly_threshold_is_active() {
    let db = test_storage();
    let gate = QuotaPanicGate::new(99.0, "this-host".to_string(), "legion".to_string());
    db.insert_rate_limit_sample(rate_sample("s1", "this-host", "t", Some(99.0), Some(40.0)));
    assert!(gate.quota_panic_active(&db));
    db.insert_rate_limit_sample(rate_sample("s2", "this-host", "u", Some(98.999), Some(40.0)));
    assert!(!gate.quota_panic_active(&db));
}

#[test]
fn mod_wake_cap_reached_disabled_when_cap_zero() {
    assert!(!wake_cap_reached(100, 0));
}

#[test]
fn mod_wake_cap_reached_true_at_and_over_cap() {
    assert!(wake_cap_reached(4, 4));

    assert!(wake_cap_reached(5, 4));
}

#[test]
fn mod_wake_cap_reached_false_under_cap() {
    assert!(!wake_cap_reached(3, 4));
    assert!(!wake_cap_reached(0, 4));
}

#[test]
fn mod_wake_cap_reached_clamps_negative_active() {
    assert!(!wake_cap_reached(-3, 4));
    assert!(!wake_cap_reached(-100, 1));
}

#[test]
fn mod_evaluate_spawn_gate_proceeds_when_all_clear() {
    assert_eq!(evaluate_spawn_gate(false, true), SpawnGate::Proceed);
}

#[test]
fn mod_evaluate_spawn_gate_quota_panic_takes_priority_over_healthy_system() {
    assert_eq!(evaluate_spawn_gate(true, true), SpawnGate::QuotaPanic);
}

#[test]
fn mod_evaluate_spawn_gate_reports_pressure_when_over_threshold() {
    assert_eq!(evaluate_spawn_gate(false, false), SpawnGate::Pressure);
}

#[test]
fn watch_wake_cap_reached_disabled_when_cap_zero() {
    assert!(!wake_cap_reached(100, 0));
}

#[test]
fn watch_wake_cap_reached_true_at_and_over_cap() {
    assert!(wake_cap_reached(4, 4));

    assert!(wake_cap_reached(5, 4));
}

#[test]
fn watch_wake_cap_reached_false_under_cap() {
    assert!(!wake_cap_reached(3, 4));
    assert!(!wake_cap_reached(0, 4));
}

#[test]
fn watch_wake_cap_reached_clamps_negative_active() {
    assert!(!wake_cap_reached(-3, 4));
    assert!(!wake_cap_reached(-100, 1));
}

#[test]
fn watch_evaluate_spawn_gate_proceeds_when_all_clear() {
    assert_eq!(evaluate_spawn_gate(false, true), SpawnGate::Proceed);
}

#[test]
fn watch_evaluate_spawn_gate_quota_panic_takes_priority_over_healthy_system() {
    assert_eq!(evaluate_spawn_gate(true, true), SpawnGate::QuotaPanic);
}

#[test]
fn watch_evaluate_spawn_gate_reports_pressure_when_over_threshold() {
    assert_eq!(evaluate_spawn_gate(false, false), SpawnGate::Pressure);
}

#[test]
fn the_posts_name_the_host_and_the_threshold() {
    let mut gate = quota::QuotaPanicGate::new("99.0".to_string(), "h".to_string(), "legion".to_string());
    assert_eq!(
        gate.check_and_post(true).as_deref(),
        Some(
            "QUOTA PANIC on h: rate-limit sample crossed 99.0% threshold. `legion watch` is halting \
             spawn cycles on this host until usage drops back below the threshold."
        )
    );
    gate.on_posted(true, true);
    assert_eq!(gate.check_and_post(true), None);
    assert_eq!(
        gate.check_and_post(false).as_deref(),
        Some(
            "QUOTA RECOVERED on h: rate-limit sample fell below the 99.0% threshold. \
             `legion watch` is resuming spawn cycles."
        )
    );
}
