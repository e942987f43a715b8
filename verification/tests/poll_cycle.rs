//! What keeps a poll cycle from waking a repo.
use std::cell::RefCell;
use std::time::Duration;

use legion_watch::board::{Board, Reflection};
use legion_watch::config::{WatchConfig, WatchRepoConfig};
use legion_watch::gates::{self, PollCycle, PollEffect, PollPhase, PollSettings};
use legion_watch::locks::{CooldownTracker, FileWrite, LockFile};
use legion_watch::signals;
use legion_watch::spawn::SpawnMode;
use legion_watch::tracker::AgentTracker;
use legion_watch::verbs::VerbManifest;

type Pending = (String, String, String);

/// The process that runs these tests.
const OWN_PID: u32 = 4242;

struct Lease {
    persona: String,
    signal_id: String,
    acquired_by_host: String,
}

struct Attempt {
    id: String,
    repo_name: String,
    state: String,
}

/// A store that keeps everything here.
struct Database {
    board: RefCell<Board>,
    leases: RefCell<Vec<Lease>>,
    attempts: RefCell<Vec<Attempt>>,
    prompts: RefCell<Vec<String>>,
}

impl Database {
    fn insert_reflection(&self, repo: &str, text: &str, _audience: &str) -> Result<Reflection, ()> {
        let mut board = self.board.borrow_mut();
        let n = board.reflections.len();
        let post = Reflection {
            id: format!("post-{n}"),
            repo: repo.to_string(),
            text: text.to_string(),
            created_at: format!("2026-01-01T00:00:{n:02}Z"),
        };
        board.insert_reflection(post.clone());
        Ok(post)
    }

    fn try_acquire_persona_lease(
        &self,
        persona: &str,
        signal_id: &str,
        host: &str,
        _ttl: Duration,
    ) -> Result<bool, ()> {
        let mut leases = self.leases.borrow_mut();
        if let Some(l) = leases.iter().find(|l| l.persona == persona && l.signal_id == signal_id) {
            return Ok(l.acquired_by_host == host);
        }
        leases.push(Lease {
            persona: persona.to_string(),
            signal_id: signal_id.to_string(),
            acquired_by_host: host.to_string(),
        });
        Ok(true)
    }

    fn release_persona_lease(&self, persona: &str, signal_id: &str) {
        self.leases.borrow_mut().retain(|l| !(l.persona == persona && l.signal_id == signal_id));
    }

    fn lease_hosts(&self, persona: &str) -> Vec<String> {
        let leases = self.leases.borrow();
        leases
            .iter()
            .filter(|l| l.persona == persona)
            .map(|l| l.acquired_by_host.clone())
            .collect()
    }

    /// The repos of the wake attempts.
    fn attempt_repos(&self) -> Vec<String> {
        self.attempts.borrow().iter().map(|a| a.repo_name.clone()).collect()
    }

    fn attempt_states(&self) -> Vec<String> {
        self.attempts.borrow().iter().map(|a| a.state.clone()).collect()
    }

    fn advance(&self, id: &str, state: &str) {
        for a in self.attempts.borrow_mut().iter_mut() {
            if a.id == id {
                a.state = state.to_string();
            }
        }
    }

    /// How many posts are marked as handled under a repo.
    fn marks(&self, repo: &str) -> usize {
        self.board.borrow().handled.iter().filter(|(_, r)| r == repo).count()
    }
}

fn test_storage() -> (Database, (), ()) {
    let db = Database {
        board: RefCell::new(Board::new()),
        leases: RefCell::new(Vec::new()),
        attempts: RefCell::new(Vec::new()),
        prompts: RefCell::new(Vec::new()),
    };
    (db, (), ())
}

fn find_pending_signals(
    db: &Database,
    repo: &str,
    names: &[String],
    since: Option<&str>,
) -> Result<Vec<Pending>, ()> {
    Ok(signals::find_pending_signals(&db.board.borrow(), repo, names, since))
}

struct PersonaLeaseGate<'a> {
    db: &'a Database,
    host: &'a str,
    ttl: Duration,
}

/// Fresh session locks of live processes, kept here.
struct SessionLockTracker {
    tracker: legion_watch::locks::SessionLockTracker,
    files: RefCell<Vec<FileWrite>>,
}

impl SessionLockTracker {
    fn new(ttl_secs: u64) -> Self {
        SessionLockTracker {
            tracker: legion_watch::locks::SessionLockTracker::new("/data", ttl_secs),
            files: RefCell::new(Vec::new()),
        }
    }

    fn record_spawn(&self, repo: &str, pid: u32) {
        self.files.borrow_mut().push(self.tracker.record_spawn(repo, pid));
    }

    fn active_pid(&self, repo: &str) -> Option<u32> {
        let path = self.tracker.lock_path(repo);
        let files = self.files.borrow();
        let lock = files
            .iter()
            .find(|f| f.path == path)
            .map(|f| LockFile { age_nanos: 0, contents: f.contents.clone() });
        let claims = self.tracker.claims(lock.as_ref(), None);
        self.tracker.active_pid(claims, true, true).pid
    }
}

/// Drives a poll cycle. A session can be spawned in any workdir that exists.
#[allow(clippy::too_many_arguments)]
fn poll_cycle(
    db: &Database,
    config: &WatchConfig,
    cooldown: &mut CooldownTracker,
    tracker: &mut AgentTracker<u32>,
    locks: Option<&SessionLockTracker>,
    gate: Option<&PersonaLeaseGate>,
    since: Option<&str>,
    mode: SpawnMode,
) -> Result<u32, ()> {
    let manifest = VerbManifest::builtin_default();
    let mut cycle = PollCycle::start(PollSettings {
        config,
        manifest: &manifest,
        lease_gate: gate
            .map(|g| gates::PersonaLeaseGate { host: g.host, ttl_secs: g.ttl.as_secs() }),
        uses_locks: locks.is_some(),
        mode,
    });
    loop {
        match cycle.phase {
            PollPhase::Pending => {
                let repo = &config.repos[cycle.at];
                let pending = find_pending_signals(db, &repo.name, &repo.wake_addresses(), since)?;
                cycle.on_pending(pending);
            }
            PollPhase::Cooling => {
                let cooling = cooldown.is_cooling_down(&config.repos[cycle.at].name);
                cycle.on_cooling(cooling);
            }
            PollPhase::Session => {
                let name = &config.repos[cycle.at].name;
                cycle.on_session(locks.expect("locks").active_pid(name).is_some());
            }
            PollPhase::Asks => {
                let mut asks = Board::new();
                let board = db.board.borrow();
                for id in cycle.ask_ids() {
                    if let Some(ask) = board.get_reflection_by_id(&id) {
                        asks.insert_reflection(ask.clone());
                    }
                }
                cycle.on_asks(&asks, tracker.active_count());
            }
            PollPhase::Leases => {
                let gate = gate.expect("gate");
                let persona = config.repos[cycle.at].recipient();
                let mut acquired = Vec::new();
                for id in cycle.signal_ids() {
                    acquired
                        .push(gate.db.try_acquire_persona_lease(persona, &id, gate.host, gate.ttl)?);
                }
                cycle.on_leases(&acquired);
            }
            PollPhase::Attempt => {
                let id = cycle.propose_attempt();
                db.attempts.borrow_mut().push(Attempt {
                    id: id.clone(),
                    repo_name: config.repos[cycle.at].name.clone(),
                    state: "claimed".to_string(),
                });
                cycle.on_attempt(id, true, true);
            }
            PollPhase::Spawn => {
                let plan = cycle.spawn_plan();
                if config.repos[cycle.at].workdir.starts_with("/nonexistent") {
                    cycle.on_spawn_failed();
                } else {
                    db.prompts.borrow_mut().push(plan.args.join(" "));
                    cycle.on_spawned(tracker, cooldown, 77);
                }
            }
            PollPhase::Leave { .. } => {
                let repo = &config.repos[cycle.at];
                let attempt = cycle.attempt_id.clone().unwrap_or_default();
                for effect in cycle.effects() {
                    match effect {
                        PollEffect::MarkHandled => {
                            for id in cycle.signal_ids() {
                                db.board.borrow_mut().mark_signal_handled_for_repo(&id, &repo.name);
                            }
                        }
                        PollEffect::RecordLock => {
                            locks.expect("locks").record_spawn(&repo.name, 77);
                        }
                        PollEffect::SetAttemptPid => {}
                        PollEffect::ClaimedToSpawning => db.advance(&attempt, "spawning"),
                        PollEffect::SpawningToRunning => db.advance(&attempt, "running"),
                        PollEffect::ReleaseLeases => {
                            for (persona, id) in &cycle.held_leases {
                                db.release_persona_lease(persona, id);
                            }
                        }
                        PollEffect::AbandonAttempt => db.advance(&attempt, "abandoned"),
                    }
                }
                cycle.leave();
            }
            PollPhase::CapReached | PollPhase::Finished => return Ok(cycle.spawned),
        }
    }
}

#[test]
fn watch_poll_cycle_skips_when_session_lock_is_active() {
    let (db, _index, _dir) = test_storage();

    let config = WatchConfig {
        repos: vec![WatchRepoConfig {
            name: "legion".to_string(),
            workdir: "/tmp".to_string(),
            agent: None,
            broadcast_tags: Vec::new(),
            extra: toml::Table::new(),
        }],
        ..WatchConfig::default()
    };

    db.insert_reflection("kelex", "@legion question:help", "team")
        .expect("insert signal");

    let locks = SessionLockTracker::new(3600);
    locks.record_spawn("legion", OWN_PID);

    let mut cooldown = CooldownTracker::new(0, None, None);
    let mut tracker = AgentTracker::new();
    let spawned = poll_cycle(
        &db,
        &config,
        &mut cooldown,
        &mut tracker,
        Some(&locks),
        None,
        None,
        SpawnMode::Print,
    )
    .expect("poll");
    assert_eq!(
        spawned, 0,
        "active session lock must block a second wake for the same repo"
    );
}

#[test]
fn watch_poll_cycle_skips_when_persona_lease_is_held() {
    let (db, _index, _dir) = test_storage();

    let config = WatchConfig {
        repos: vec![WatchRepoConfig {
            name: "legion".to_string(),
            workdir: "/tmp".to_string(),
            agent: None,
            broadcast_tags: Vec::new(),
            extra: toml::Table::new(),
        }],
        ..WatchConfig::default()
    };

    let signal = db
        .insert_reflection("kelex", "@legion question:help", "team")
        .expect("insert signal");

    let held = db
        .try_acquire_persona_lease("legion", &signal.id, "peer-host", Duration::from_secs(3600))
        .expect("peer acquire");
    assert!(held, "peer must be able to acquire a free lease");

    let gate = PersonaLeaseGate {
        db: &db,
        host: "this-host",
        ttl: Duration::from_secs(3600),
    };
    let mut cooldown = CooldownTracker::new(0, None, None);
    let mut tracker = AgentTracker::new();
    let spawned = poll_cycle(
        &db,
        &config,
        &mut cooldown,
        &mut tracker,
        None,
        Some(&gate),
        None,
        SpawnMode::Print,
    )
    .expect("poll");
    assert_eq!(
        spawned, 0,
        "persona lease held by peer must block this host from spawning"
    );

    let listed = db.lease_hosts("legion");
    assert_eq!(listed.len(), 1);
    assert_eq!(listed[0], "peer-host");
}

#[test]
fn watch_poll_cycle_skips_cooling_repos() {
    let (db, _index, _dir) = test_storage();

    let config = WatchConfig {
        repos: vec![WatchRepoConfig {
            name: "legion".to_string(),
            workdir: "/tmp".to_string(),
            agent: None,
            broadcast_tags: Vec::new(),
            extra: toml::Table::new(),
        }],
        ..WatchConfig::default()
    };

    db.insert_reflection("kelex", "@legion review:ready", "team")
        .expect("insert");

    let mut cooldown = CooldownTracker::new(300, None, None);
    cooldown.record_wake("legion");

    let mut tracker = AgentTracker::new();
    let spawned = poll_cycle(
        &db,
        &config,
        &mut cooldown,
        &mut tracker,
        None,
        None,
        None,
        SpawnMode::Print,
    )
    .expect("poll");
    assert_eq!(spawned, 0, "cooling repo should be skipped");
}

#[test]
fn watch_poll_cycle_caps_concurrent_wakes() {
    let (db, _index, _dir) = test_storage();

    let repos: Vec<WatchRepoConfig> = ["legion", "rafters", "smugglr"]
        .iter()
        .map(|name| WatchRepoConfig {
            name: name.to_string(),
            workdir: "/tmp".to_string(),
            agent: None,
            broadcast_tags: vec!["all".to_string()],
            extra: toml::Table::new(),
        })
        .collect();
    let config = WatchConfig {
        max_concurrent_wakes: 1,
        stagger_secs: 0,
        repos,
        ..WatchConfig::default()
    };

    db.insert_reflection("kelex", "@all request -- wake everyone", "team")
        .expect("insert broadcast");

    let mut tracker = AgentTracker::new();
    tracker.track(
        "filler".to_string(),
        1,
        SpawnMode::Print,
        Vec::new(),
        String::new(),
        "filler-session".to_string(),
        "now".to_string(),
        Vec::new(),
        None,
    );
    assert_eq!(tracker.active_count(), 1);

    let mut cooldown = CooldownTracker::new(300, None, None);
    let spawned = poll_cycle(
        &db,
        &config,
        &mut cooldown,
        &mut tracker,
        None,
        None,
        None,
        SpawnMode::Print,
    )
    .expect("poll");

    assert_eq!(
        spawned, 0,
        "cap already met by in-flight wakes; poll_cycle must spawn nothing this cycle"
    );

    let still_pending = find_pending_signals(
        &db,
        "legion",
        &["legion".to_string(), "all".to_string()],
        None,
    )
    .expect("pending lookup");
    assert_eq!(
        still_pending.len(),
        1,
        "deferred wake-worthy signal must stay pending for re-poll"
    );
}
