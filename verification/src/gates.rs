//! The poll cycle and the gates that guard a spawn.
//!
//! A poll cycle is a machine that goes over the watched repos. Its phase says
//! what is wanted next; the caller does it and hands back what came of it. On
//! leaving a repo the caller carries out the effects of the exit.
use vstd::prelude::*;
use crate::board::{Board, BoardView};
use crate::clock::{fresh_id, is_fresh_id, is_instant_read, is_utc_now_text, utc_now_text};
use crate::config::{WatchConfig, WatchRepoConfig};
use crate::locks::CooldownTracker;
use crate::scan::texts;
use crate::signal::{opt_text, pair_text};
use crate::signals::{
    build_wake_prompt, claimed_ask, resolved_ask_id, signal_row, signal_rows, signal_wakes_repo,
    wake_prompt_text, wake_worthy, wakes_repo, PendingSignal, SignalRow,
};
use crate::spawn::{env_texts, pasted, spawn_agent, spawn_env, SpawnMode, SpawnPlan};
use crate::text::same_ignoring_case;
use crate::tracker::AgentTracker;
use crate::verbs::VerbManifest;
use vstd::utf8::encode_utf8;

verus! {

broadcast use vstd::seq_lib::group_seq_properties;

/// Whether `active` running wakes leave no room under `cap`. A cap of zero is
/// none, and a negative count counts as zero.
pub open spec fn cap_reached(active: i32, cap: u32) -> bool {
    cap > 0 && active >= cap
}

/// Whether the concurrent-wake cap is reached, so that a cycle stops
/// spawning.
pub fn wake_cap_reached(active: i32, cap: u32) -> (yes: bool)
    ensures
        yes == cap_reached(active, cap),
{
    let running: u32 = if active < 0 {
        0
    } else {
        active as u32
    };
    cap > 0 && running >= cap
}

/// Where there is a cap, one more session than are running when it is not
/// reached is still within it.
pub proof fn law_spawn_stays_within_the_cap(active: i32, cap: u32)
    requires
        cap > 0,
        !cap_reached(active, cap),
    ensures
        active + 1 <= cap,
{
}

// -- The poll cycle ----------------------------------------------------------

/// The lease gate of a cluster: where it is present, a lease is acquired for
/// each signal before a spawn.
#[derive(Debug, Clone, Copy)]
pub struct PersonaLeaseGate<'a> {
    pub host: &'a str,
    pub ttl_secs: u64,
}

/// What a poll cycle goes by.
#[derive(Debug, Clone, Copy)]
pub struct PollSettings<'a> {
    pub config: &'a WatchConfig,
    pub manifest: &'a VerbManifest,
    pub lease_gate: Option<PersonaLeaseGate<'a>>,
    /// Whether session locks are consulted and written.
    pub uses_locks: bool,
    pub mode: SpawnMode,
}

/// How a cycle leaves a repo.
#[derive(Debug, Clone, Copy, PartialEq, Eq, Structural)]
pub enum PollExit {
    /// Nothing is pending.
    NoSignals,
    /// Another persona maintains the repo and wakes in its own workdir.
    Delegated,
    /// The repo was woken too recently.
    Cooling,
    /// A live session holds the repo.
    ActiveSession,
    /// Nothing that is pending wakes.
    Informational,
    /// Every lease is held elsewhere.
    LeasesElsewhere,
    /// A session was spawned.
    Woken,
    /// The session could not be spawned.
    SpawnFailed,
}

/// What a poll cycle wants next for the repo at its cursor.
#[derive(Debug, Clone, Copy, PartialEq, Eq, Structural)]
pub enum PollPhase {
    /// Find its pending signals.
    Pending,
    /// Say whether it is cooling down.
    Cooling,
    /// Say whether a live session holds it.
    Session,
    /// Load the asks that its signals claim to answer.
    Asks,
    /// Try to acquire a lease for each signal.
    Leases,
    /// Wait out the stagger, then enqueue and claim a wake attempt.
    Attempt,
    /// Spawn a session.
    Spawn,
    /// Carry out the effects of the exit, then go on.
    Leave { exit: PollExit },
    /// Nothing: the concurrent-wake cap is reached, and the rest of the repos
    /// wait for the next cycle.
    CapReached,
    /// Nothing: every repo was seen to.
    Finished,
}

/// Something to do on leaving a repo. The outcome does not matter to the
/// cycle.
#[derive(Debug, Clone, Copy, PartialEq, Eq, Structural)]
pub enum PollEffect {
    /// Mark every signal as handled, under the name of the repo.
    MarkHandled,
    /// Write the session lock of the repo.
    RecordLock,
    /// Note the process id of the session on the wake attempt.
    SetAttemptPid,
    /// Advance the wake attempt from claimed to spawning.
    ClaimedToSpawning,
    /// Advance the wake attempt from spawning to running.
    SpawningToRunning,
    /// Release the leases that were acquired.
    ReleaseLeases,
    /// Advance the wake attempt from claimed to abandoned.
    AbandonAttempt,
}

/// A poll cycle over the watched repos.
#[derive(Debug)]
pub struct PollCycle<'a> {
    pub settings: PollSettings<'a>,
    pub at: usize,
    /// How many sessions this cycle has spawned.
    pub spawned: u32,
    pub phase: PollPhase,
    /// The pending signals of the repo.
    pub signals: Vec<PendingSignal>,
    /// The leases acquired for the spawn, as persona and signal id.
    pub held_leases: Vec<(String, String)>,
    /// The wake attempt that was claimed for the spawn.
    pub attempt_id: Option<String>,
}

/// What is handed to a poll cycle.
pub enum PollEvent {
    Pending { signals: Seq<SignalRow> },
    Cooling(bool),
    Session(bool),
    Asks { asks: BoardView, active: i32 },
    Leases { acquired: Seq<bool> },
    Attempt { candidate: Seq<char>, enqueued: bool, claimed: bool },
    Spawned,
    SpawnFailed,
    Left,
}

/// Leases as their model.
pub open spec fn lease_rows(leases: Seq<(String, String)>) -> Seq<(Seq<char>, Seq<char>)> {
    leases.map_values(|p: (String, String)| pair_text(p))
}

/// The leases for the signals whose acquisition succeeded.
pub open spec fn acquired_leases(persona: Seq<char>, rows: Seq<SignalRow>, acquired: Seq<bool>) -> Seq<
    (Seq<char>, Seq<char>),
>
    decreases rows.len(),
{
    if rows.len() == 0 {
        Seq::empty()
    } else {
        let before = acquired_leases(persona, rows.drop_last(), acquired);
        if acquired[rows.len() - 1] {
            before.push((persona, rows.last().0))
        } else {
            before
        }
    }
}

/// Whether some signal wakes the repo.
pub open spec fn some_signal_wakes(
    manifest: VerbManifest,
    asks: BoardView,
    repo: Seq<char>,
    rows: Seq<SignalRow>,
) -> bool {
    exists|i: int| 0 <= i < rows.len() && wakes_repo(manifest, asks, repo, (#[trigger] rows[i]).1)
}

/// The ids of the asks that signals claim to answer, in order.
pub open spec fn claimed_asks(rows: Seq<SignalRow>) -> Seq<Seq<char>>
    decreases rows.len(),
{
    if rows.len() == 0 {
        Seq::empty()
    } else {
        let before = claimed_asks(rows.drop_last());
        match claimed_ask(rows.last().1) {
            Some(id) => before.push(id),
            None => before,
        }
    }
}

/// The effects of leaving a repo.
///
/// What was delegated, was only informational or woke a session is marked as
/// handled. What waits for a cooldown, a live session or a lease stays
/// pending, and so does what could not be spawned. A spawn writes the session
/// lock and advances its wake attempt; a printing session runs at once, an
/// interactive one only when its prompt was submitted. A failed spawn gives up
/// its leases and abandons its wake attempt.
pub open spec fn exit_effects(
    exit: PollExit,
    uses_locks: bool,
    has_gate: bool,
    has_attempt: bool,
    mode: SpawnMode,
) -> Seq<PollEffect> {
    match exit {
        PollExit::Delegated | PollExit::Informational => seq![PollEffect::MarkHandled],
        PollExit::Woken => {
            let lock = if uses_locks {
                seq![PollEffect::RecordLock]
            } else {
                Seq::empty()
            };
            let attempt = if !has_attempt {
                Seq::empty()
            } else if mode == SpawnMode::Print {
                seq![
                    PollEffect::SetAttemptPid,
                    PollEffect::ClaimedToSpawning,
                    PollEffect::SpawningToRunning,
                ]
            } else {
                seq![PollEffect::SetAttemptPid, PollEffect::ClaimedToSpawning]
            };
            seq![PollEffect::MarkHandled] + lock + attempt
        },
        PollExit::SpawnFailed => {
            let leases = if has_gate {
                seq![PollEffect::ReleaseLeases]
            } else {
                Seq::empty()
            };
            if has_attempt {
                leases.push(PollEffect::AbandonAttempt)
            } else {
                leases
            }
        },
        _ => Seq::empty(),
    }
}

impl<'a> PollCycle<'a> {
    /// The repo at the cursor.
    pub open spec fn repo(&self) -> WatchRepoConfig {
        self.settings.config.repos@[self.at as int]
    }

    /// The pending signals as their model.
    pub open spec fn rows(&self) -> Seq<SignalRow> {
        signal_rows(self.signals@)
    }

    /// Whether the repo at the cursor is being considered for a spawn, or was
    /// when it was left or the cycle ended.
    pub open spec fn considers_spawn(&self) -> bool {
        match self.phase {
            PollPhase::Cooling | PollPhase::Session | PollPhase::Asks | PollPhase::Leases
            | PollPhase::Attempt | PollPhase::Spawn | PollPhase::CapReached => true,
            PollPhase::Leave { exit } => exit != PollExit::NoSignals && exit != PollExit::Delegated,
            _ => false,
        }
    }

    /// What holds of a cycle in every phase. A repo that is considered for a
    /// spawn has signals and is not delegated. Where leases are required, a
    /// spawn holds one.
    pub open spec fn wf(&self) -> bool {
        let repos = self.settings.config.repos@;
        &&& repos.len() <= u32::MAX
        &&& self.at <= repos.len()
        &&& self.spawned <= self.at + (if self.phase == (PollPhase::Leave { exit: PollExit::Woken }) {
            1int
        } else {
            0int
        })
        &&& self.phase == PollPhase::Finished <==> self.at == repos.len()
        &&& self.considers_spawn() ==> self.signals@.len() > 0 && !self.repo().delegated()
        &&& (self.phase == PollPhase::Attempt || self.phase == PollPhase::Spawn)
            && self.settings.lease_gate is Some ==> self.held_leases@.len() > 0
        &&& self.phase == PollPhase::Leases ==> self.settings.lease_gate is Some
    }

    /// Whether the cycle stands before the repo at `i`, with nothing carried
    /// over, or is over where there is none.
    pub open spec fn arrives_at(&self, i: int) -> bool {
        &&& self.at == i
        &&& self.phase == (if i < self.settings.config.repos@.len() {
            PollPhase::Pending
        } else {
            PollPhase::Finished
        })
        &&& self.signals@.len() == 0
        &&& self.held_leases@.len() == 0
        &&& self.attempt_id is None
    }

    /// Whether nothing but the phase differs from `before`.
    pub open spec fn only_phase_changed(&self, before: PollCycle<'a>) -> bool {
        *self == (PollCycle { phase: self.phase, ..before })
    }
}

/// Whether an event answers what a phase asks.
pub open spec fn poll_answers(phase: PollPhase, event: PollEvent) -> bool {
    match event {
        PollEvent::Pending { .. } => phase is Pending,
        PollEvent::Cooling(_) => phase is Cooling,
        PollEvent::Session(_) => phase is Session,
        PollEvent::Asks { .. } => phase is Asks,
        PollEvent::Leases { .. } => phase is Leases,
        PollEvent::Attempt { .. } => phase is Attempt,
        PollEvent::Spawned => phase is Spawn,
        PollEvent::SpawnFailed => phase is Spawn,
        PollEvent::Left => phase is Leave,
    }
}

/// How a poll cycle answers an event.
///
/// - A repo without pending signals is left. A delegated one is left before
///   any other gate, so that it never competes for a lease.
/// - A repo that is cooling down, or that a live session holds, is left.
/// - A repo that no signal wakes is left. One that would wake at the cap ends
///   the cycle.
/// - Where leases are required, a repo for which none was acquired is left.
/// - A wake attempt that was not both enqueued and claimed does not hold up
///   the spawn: the spawn goes on without one.
pub open spec fn poll_steps<'a>(c: PollCycle<'a>, event: PollEvent, c2: PollCycle<'a>) -> bool {
    let repo = c.repo();
    &&& c2.settings == c.settings
    &&& c2.wf()
    &&& match event {
        PollEvent::Pending { signals } => {
            &&& c2 == (PollCycle { phase: c2.phase, signals: c2.signals, ..c })
            &&& c2.rows() == signals
            &&& c2.phase == (if signals.len() == 0 {
                PollPhase::Leave { exit: PollExit::NoSignals }
            } else if repo.delegated() {
                PollPhase::Leave { exit: PollExit::Delegated }
            } else {
                PollPhase::Cooling
            })
        },
        PollEvent::Cooling(cooling) => {
            &&& c2.only_phase_changed(c)
            &&& c2.phase == (if cooling {
                PollPhase::Leave { exit: PollExit::Cooling }
            } else if c.settings.uses_locks {
                PollPhase::Session
            } else {
                PollPhase::Asks
            })
        },
        PollEvent::Session(held) => {
            &&& c2.only_phase_changed(c)
            &&& c2.phase == (if held {
                PollPhase::Leave { exit: PollExit::ActiveSession }
            } else {
                PollPhase::Asks
            })
        },
        PollEvent::Asks { asks, active } => {
            &&& c2.only_phase_changed(c)
            &&& c2.phase == (if !some_signal_wakes(
                *c.settings.manifest,
                asks,
                repo.name@,
                c.rows(),
            ) {
                PollPhase::Leave { exit: PollExit::Informational }
            } else if cap_reached(active, c.settings.config.max_concurrent_wakes) {
                PollPhase::CapReached
            } else if c.settings.lease_gate is Some {
                PollPhase::Leases
            } else {
                PollPhase::Attempt
            })
        },
        PollEvent::Leases { acquired } => {
            &&& c2 == (PollCycle { phase: c2.phase, held_leases: c2.held_leases, ..c })
            &&& lease_rows(c2.held_leases@) == acquired_leases(
                repo.recipient_name(),
                c.rows(),
                acquired,
            )
            &&& c2.phase == (if c2.held_leases@.len() == 0 {
                PollPhase::Leave { exit: PollExit::LeasesElsewhere }
            } else {
                PollPhase::Attempt
            })
        },
        PollEvent::Attempt { candidate, enqueued, claimed } => {
            &&& c2 == (PollCycle { phase: c2.phase, attempt_id: c2.attempt_id, ..c })
            &&& opt_text(c2.attempt_id) == (if enqueued && claimed {
                Some(candidate)
            } else {
                None
            })
            &&& c2.phase == PollPhase::Spawn
        },
        PollEvent::Spawned => {
            &&& c2 == (PollCycle {
                phase: c2.phase,
                spawned: (c.spawned + 1) as u32,
                held_leases: c2.held_leases,
                ..c
            })
            &&& c2.held_leases@.len() == 0
            &&& c2.phase == (PollPhase::Leave { exit: PollExit::Woken })
        },
        PollEvent::SpawnFailed => {
            &&& c2.only_phase_changed(c)
            &&& c2.phase == (PollPhase::Leave { exit: PollExit::SpawnFailed })
        },
        PollEvent::Left => c2.arrives_at(c.at + 1) && c2.spawned == c.spawned,
    }
}

impl<'a> PollCycle<'a> {
    /// Begins a cycle with the first repo.
    pub fn start(settings: PollSettings<'a>) -> (cycle: Self)
        requires
            settings.config.repos@.len() <= u32::MAX,
        ensures
            cycle.wf(),
            cycle.settings == settings,
            cycle.arrives_at(0),
            cycle.spawned == 0,
    {
        let phase = if settings.config.repos.len() > 0 {
            PollPhase::Pending
        } else {
            PollPhase::Finished
        };
        PollCycle {
            settings,
            at: 0,
            spawned: 0,
            phase,
            signals: Vec::new(),
            held_leases: Vec::new(),
            attempt_id: None,
        }
    }

    /// Takes in the pending signals of the repo.
    pub fn on_pending(&mut self, signals: Vec<PendingSignal>)
        requires
            old(self).wf(),
            old(self).phase == PollPhase::Pending,
        ensures
            poll_steps(
                *old(self),
                (PollEvent::Pending { signals: signal_rows(signals@) }),
                *final(self),
            ),
    {
        let delegated = self.settings.config.repos[self.at].is_delegated();
        self.phase = if signals.len() == 0 {
            PollPhase::Leave { exit: PollExit::NoSignals }
        } else if delegated {
            PollPhase::Leave { exit: PollExit::Delegated }
        } else {
            PollPhase::Cooling
        };
        self.signals = signals;
    }

    /// Takes in whether the repo is cooling down.
    pub fn on_cooling(&mut self, cooling: bool)
        requires
            old(self).wf(),
            old(self).phase == PollPhase::Cooling,
        ensures
            poll_steps(*old(self), PollEvent::Cooling(cooling), *final(self)),
    {
        self.phase = if cooling {
            PollPhase::Leave { exit: PollExit::Cooling }
        } else if self.settings.uses_locks {
            PollPhase::Session
        } else {
            PollPhase::Asks
        };
    }

    /// Takes in whether a live session holds the repo.
    pub fn on_session(&mut self, held: bool)
        requires
            old(self).wf(),
            old(self).phase == PollPhase::Session,
        ensures
            poll_steps(*old(self), PollEvent::Session(held), *final(self)),
    {
        self.phase = if held {
            PollPhase::Leave { exit: PollExit::ActiveSession }
        } else {
            PollPhase::Asks
        };
    }

    /// The ids of the asks that the pending signals claim to answer.
    pub fn ask_ids(&self) -> (ids: Vec<String>)
        ensures
            texts(ids@) == claimed_asks(self.rows()),
    {
        let mut ids: Vec<String> = Vec::new();
        assert(texts(ids@) =~= claimed_asks(self.rows().take(0)));
        for i in 0..self.signals.len()
            invariant
                texts(ids@) == claimed_asks(self.rows().take(i as int)),
        {
            assert(self.rows().take(i + 1).drop_last() == self.rows().take(i as int));
            assert(self.rows().take(i + 1).last() == signal_row(self.signals@[i as int]));
            match resolved_ask_id(self.signals[i].1.as_str()) {
                Some(id) => {
                    let ghost before = ids@;
                    ids.push(id);
                    assert(texts(ids@) =~= texts(before).push(id@));
                },
                None => {},
            }
        }
        assert(self.rows().take(self.rows().len() as int) == self.rows());
        ids
    }

    fn any_wakes(&self, asks: &Board) -> (yes: bool)
        requires
            self.at < self.settings.config.repos@.len(),
        ensures
            yes == some_signal_wakes(
                *self.settings.manifest,
                asks@,
                self.repo().name@,
                self.rows(),
            ),
    {
        let name = &self.settings.config.repos[self.at].name;
        for i in 0..self.signals.len()
            invariant
                self.at < self.settings.config.repos@.len(),
                name == self.repo().name,
                forall|j: int|
                    0 <= j < i ==> !wakes_repo(
                        *self.settings.manifest,
                        asks@,
                        self.repo().name@,
                        (#[trigger] self.rows()[j]).1,
                    ),
        {
            assert(self.rows()[i as int] == signal_row(self.signals@[i as int]));
            if signal_wakes_repo(
                self.settings.manifest,
                asks,
                name.as_str(),
                self.signals[i].1.as_str(),
            ) {
                return true;
            }
        }
        false
    }

    /// Takes in the asks that were found, and how many wakes are running.
    pub fn on_asks(&mut self, asks: &Board, active: i32)
        requires
            old(self).wf(),
            old(self).phase == PollPhase::Asks,
        ensures
            poll_steps(*old(self), (PollEvent::Asks { asks: asks@, active }), *final(self)),
    {
        self.phase = if !self.any_wakes(asks) {
            PollPhase::Leave { exit: PollExit::Informational }
        } else if wake_cap_reached(active, self.settings.config.max_concurrent_wakes) {
            PollPhase::CapReached
        } else if self.settings.lease_gate.is_some() {
            PollPhase::Leases
        } else {
            PollPhase::Attempt
        };
    }

    /// Takes in which leases were acquired: `acquired[i]` for signal `i`. One
    /// that is held elsewhere or could not be asked for was not.
    pub fn on_leases(&mut self, acquired: &[bool])
        requires
            old(self).wf(),
            old(self).phase == PollPhase::Leases,
            acquired@.len() == old(self).signals@.len(),
        ensures
            poll_steps(*old(self), (PollEvent::Leases { acquired: acquired@ }), *final(self)),
    {
        let repo = &self.settings.config.repos[self.at];
        let persona = repo.recipient();
        let mut held: Vec<(String, String)> = Vec::new();
        let ghost rows = self.rows();
        assert(lease_rows(held@) =~= acquired_leases(persona@, rows.take(0), acquired@));
        for i in 0..self.signals.len()
            invariant
                rows == self.rows(),
                acquired@.len() == self.signals@.len(),
                lease_rows(held@) == acquired_leases(persona@, rows.take(i as int), acquired@),
        {
            assert(rows.take(i + 1).drop_last() == rows.take(i as int));
            assert(rows.take(i + 1).last() == signal_row(self.signals@[i as int]));
            if acquired[i] {
                let ghost before = held@;
                held.push((persona.to_string(), self.signals[i].0.clone()));
                assert(lease_rows(held@) =~= lease_rows(before).push(
                    (persona@, self.signals@[i as int].0@),
                ));
            }
        }
        assert(rows.take(rows.len() as int) == rows);
        self.phase = if held.len() == 0 {
            PollPhase::Leave { exit: PollExit::LeasesElsewhere }
        } else {
            PollPhase::Attempt
        };
        self.held_leases = held;
    }

    /// How many seconds to wait before this spawn: the stagger, unless it is
    /// the first of the cycle.
    pub fn stagger(&self) -> (secs: u64)
        ensures
            secs == (if self.spawned > 0 {
                self.settings.config.stagger_secs
            } else {
                0
            }),
    {
        if self.spawned > 0 {
            self.settings.config.stagger_secs
        } else {
            0
        }
    }

    /// A fresh id for a wake attempt.
    pub fn propose_attempt(&self) -> (candidate: String)
        ensures
            is_fresh_id(candidate),
            candidate@.len() == 36,
    {
        fresh_id()
    }

    /// The host under which attempts are claimed and leases held; empty
    /// without a lease gate.
    pub open spec fn track_host(&self) -> Seq<char> {
        match self.settings.lease_gate {
            Some(gate) => gate.host@,
            None => Seq::empty(),
        }
    }

    /// The host under which attempts are claimed and leases held.
    pub fn host(&self) -> (host: String)
        ensures
            host@ == self.track_host(),
    {
        match self.settings.lease_gate {
            Some(gate) => gate.host.to_string(),
            None => String::new(),
        }
    }

    /// The ids of the pending signals.
    pub fn signal_ids(&self) -> (ids: Vec<String>)
        ensures
            texts(ids@) == self.rows().map_values(|r: SignalRow| r.0),
    {
        let mut ids: Vec<String> = Vec::new();
        for i in 0..self.signals.len()
            invariant
                ids@.len() == i,
                forall|j: int| 0 <= j < i ==> (#[trigger] ids@[j])@ == self.signals@[j].0@,
        {
            ids.push(self.signals[i].0.clone());
        }
        assert(texts(ids@) =~= self.rows().map_values(|r: SignalRow| r.0));
        ids
    }

    /// Takes in whether the wake attempt `candidate` was enqueued and claimed.
    pub fn on_attempt(&mut self, candidate: String, enqueued: bool, claimed: bool)
        requires
            old(self).wf(),
            old(self).phase == PollPhase::Attempt,
        ensures
            poll_steps(
                *old(self),
                (PollEvent::Attempt { candidate: candidate@, enqueued, claimed }),
                *final(self),
            ),
    {
        self.attempt_id = if enqueued && claimed {
            Some(candidate)
        } else {
            None
        };
        self.phase = PollPhase::Spawn;
    }

    /// The prompt of the spawn.
    pub open spec fn prompt(&self) -> Seq<char> {
        wake_prompt_text(*self.settings.manifest, self.repo().recipient_name(), self.rows())
    }

    /// How to spawn the session.
    pub fn spawn_plan(&self) -> (plan: SpawnPlan)
        requires
            self.wf(),
            self.phase == PollPhase::Spawn,
        ensures
            texts(plan.args@) == (match self.settings.mode {
                SpawnMode::Print => seq!["--print"@, "-p"@, self.prompt()],
                SpawnMode::Pty => Seq::empty(),
            }),
            env_texts(plan.env@) == spawn_env(self.settings.mode, opt_text(self.attempt_id)),
            plan.paste is Some <==> self.settings.mode == SpawnMode::Pty,
            plan.paste matches Some(keys) ==> keys@ == pasted(encode_utf8(self.prompt())),
    {
        let repo = &self.settings.config.repos[self.at];
        let prompt = build_wake_prompt(
            self.settings.manifest,
            repo.recipient(),
            self.signals.as_slice(),
        );
        let attempt: Option<&str> = match &self.attempt_id {
            Some(id) => Some(id.as_str()),
            None => None,
        };
        spawn_agent(prompt.as_str(), self.settings.mode, attempt)
    }

    /// Takes in the session that was spawned: it is tracked, with its leases
    /// and its wake attempt, and the cooldown of the repo begins.
    pub fn on_spawned<H>(
        &mut self,
        tracker: &mut AgentTracker<H>,
        cooldown: &mut CooldownTracker,
        child: H,
    )
        requires
            old(self).wf(),
            old(self).phase == PollPhase::Spawn,
        ensures
            poll_steps(*old(self), PollEvent::Spawned, *final(self)),
            ({
                let c = final(tracker).children@.last();
                &&& final(tracker).children@ == old(tracker).children@.push(c)
                &&& c.repo@ == old(self).repo().name@
                &&& c.child == child
                &&& c.mode == old(self).settings.mode
                &&& c.held_leases == old(self).held_leases
                &&& c.host@ == old(self).track_host()
                &&& texts(c.signal_ids@) == old(self).rows().map_values(|r: SignalRow| r.0)
                &&& opt_text(c.attempt_id) == opt_text(old(self).attempt_id)
                &&& is_fresh_id(c.session_id)
                &&& c.session_id@.len() == 36
                &&& is_utc_now_text(c.spawn_at)
                &&& is_instant_read(c.spawn_instant)
                &&& c.last_submit_enter is None
                &&& c.submit_retries == 0
                &&& !c.submit_confirmed
                &&& c.submit_failed_reason is None
                &&& c.budget_exceeded_reason is None
            }),
            final(cooldown).last_wake.restarted(old(cooldown).last_wake, old(self).repo().name@),
            final(cooldown).cooldown_secs == old(cooldown).cooldown_secs,
            final(cooldown).work_hours_start == old(cooldown).work_hours_start,
            final(cooldown).work_hours_end == old(cooldown).work_hours_end,
    {
        let mut leases: Vec<(String, String)> = Vec::new();
        std::mem::swap(&mut leases, &mut self.held_leases);
        let attempt = match &self.attempt_id {
            Some(id) => Some(id.clone()),
            None => None,
        };
        let ids = self.signal_ids();
        let host = self.host();
        let name = self.settings.config.repos[self.at].name.clone();
        cooldown.record_wake(name.as_str());
        tracker.track(
            name,
            child,
            self.settings.mode,
            leases,
            host,
            fresh_id(),
            utc_now_text(),
            ids,
            attempt,
        );
        self.spawned = self.spawned + 1;
        self.phase = PollPhase::Leave { exit: PollExit::Woken };
    }

    /// Takes in that the session could not be spawned.
    pub fn on_spawn_failed(&mut self)
        requires
            old(self).wf(),
            old(self).phase == PollPhase::Spawn,
        ensures
            poll_steps(*old(self), PollEvent::SpawnFailed, *final(self)),
    {
        self.phase = PollPhase::Leave { exit: PollExit::SpawnFailed };
    }

    /// What to do on leaving the repo, in order.
    pub fn effects(&self) -> (effects: Vec<PollEffect>)
        requires
            self.phase is Leave,
        ensures
            effects@ == exit_effects(
                self.phase->exit,
                self.settings.uses_locks,
                self.settings.lease_gate is Some,
                self.attempt_id is Some,
                self.settings.mode,
            ),
    {
        let exit = match self.phase {
            PollPhase::Leave { exit } => exit,
            _ => PollExit::NoSignals,
        };
        let mut effects: Vec<PollEffect> = Vec::new();
        match exit {
            PollExit::Delegated | PollExit::Informational => {
                effects.push(PollEffect::MarkHandled);
            },
            PollExit::Woken => {
                effects.push(PollEffect::MarkHandled);
                if self.settings.uses_locks {
                    effects.push(PollEffect::RecordLock);
                }
                if self.attempt_id.is_some() {
                    effects.push(PollEffect::SetAttemptPid);
                    effects.push(PollEffect::ClaimedToSpawning);
                    if self.settings.mode == SpawnMode::Print {
                        effects.push(PollEffect::SpawningToRunning);
                    }
                }
            },
            PollExit::SpawnFailed => {
                if self.settings.lease_gate.is_some() {
                    effects.push(PollEffect::ReleaseLeases);
                }
                if self.attempt_id.is_some() {
                    effects.push(PollEffect::AbandonAttempt);
                }
            },
            _ => {},
        }
        assert(effects@ =~= exit_effects(
            exit,
            self.settings.uses_locks,
            self.settings.lease_gate is Some,
            self.attempt_id is Some,
            self.settings.mode,
        ));
        effects
    }

    /// Goes on to the next repo.
    pub fn leave(&mut self)
        requires
            old(self).wf(),
            old(self).phase is Leave,
        ensures
            poll_steps(*old(self), PollEvent::Left, *final(self)),
    {
        self.at = self.at + 1;
        self.signals = Vec::new();
        self.held_leases = Vec::new();
        self.attempt_id = None;
        self.phase = if self.at < self.settings.config.repos.len() {
            PollPhase::Pending
        } else {
            PollPhase::Finished
        };
    }
}

// -- Laws of the poll cycle --------------------------------------------------

/// A session is spawned only past every gate, in this order: the repo is not
/// cooling down, no live session holds it, a signal wakes it, the cap leaves
/// room, and, where leases are required, one was acquired.
pub proof fn law_spawn_is_guarded<'a>(c: PollCycle<'a>, event: PollEvent, c2: PollCycle<'a>)
    requires
        c.wf(),
        poll_answers(c.phase, event),
        poll_steps(c, event, c2),
    ensures
        c2.phase == PollPhase::Cooling ==> c.phase == PollPhase::Pending,
        c2.phase == PollPhase::Session ==> event == PollEvent::Cooling(false),
        c2.phase == PollPhase::Asks ==> event == PollEvent::Session(false) || (event
            == PollEvent::Cooling(false) && !c.settings.uses_locks),
        c2.phase == PollPhase::Leases || (c2.phase == PollPhase::Attempt && c.settings.lease_gate is None)
            ==> event is Asks && some_signal_wakes(
            *c.settings.manifest,
            event->asks,
            c.repo().name@,
            c.rows(),
        ) && !cap_reached(event->active, c.settings.config.max_concurrent_wakes),
        c2.phase == PollPhase::Attempt && c.settings.lease_gate is Some ==> event is Leases
            && c2.held_leases@.len() > 0,
        c2.phase == PollPhase::Spawn ==> c.phase == PollPhase::Attempt,
        c2.spawned > c.spawned ==> c.phase == PollPhase::Spawn && event == PollEvent::Spawned,
{
}

/// A run of a poll cycle: `cycles[i + 1]` is what `events[i]` makes of
/// `cycles[i]`, beginning at a repo.
pub open spec fn is_poll_run<'a>(cycles: Seq<PollCycle<'a>>, events: Seq<PollEvent>) -> bool {
    &&& cycles.len() == events.len() + 1
    &&& cycles[0].arrives_at(cycles[0].at as int)
    &&& forall|i: int|
        0 <= i < events.len() ==> {
            &&& cycles[i].wf()
            &&& poll_answers(cycles[i].phase, #[trigger] events[i])
            &&& poll_steps(cycles[i], events[i], cycles[i + 1])
        }
}

/// Whether the last events of a run let the repo at its end through every
/// gate: its signals were found, it was not cooling down, no live session held
/// it, a signal woke it and the cap left room, a lease was acquired, and an
/// attempt was made on record.
pub open spec fn passed_every_gate<'a>(cycles: Seq<PollCycle<'a>>, events: Seq<PollEvent>) -> bool {
    let c = cycles.last();
    let n = events.len() as int;
    let asks = if c.settings.lease_gate is Some {
        n - 3
    } else {
        n - 2
    };
    let cooling = if c.settings.uses_locks {
        asks - 2
    } else {
        asks - 1
    };
    &&& cooling >= 1
    &&& forall|i: int| cooling - 1 <= i <= n ==> (#[trigger] cycles[i]).at == c.at
    &&& events[cooling - 1] == (PollEvent::Pending { signals: c.rows() })
    &&& events[cooling] == PollEvent::Cooling(false)
    &&& c.settings.uses_locks ==> events[asks - 1] == PollEvent::Session(false)
    &&& events[asks] matches PollEvent::Asks { asks, active } && some_signal_wakes(
        *c.settings.manifest,
        asks,
        c.repo().name@,
        c.rows(),
    ) && !cap_reached(active, c.settings.config.max_concurrent_wakes)
    &&& c.settings.lease_gate is Some ==> events[n - 2] is Leases && c.held_leases@.len() > 0
    &&& events[n - 1] is Attempt
}

/// Whatever happened before, a session is spawned only for a repo that has
/// just been let through every gate.
pub proof fn law_spawn_passed_every_gate<'a>(cycles: Seq<PollCycle<'a>>, events: Seq<PollEvent>)
    requires
        is_poll_run(cycles, events),
        cycles.last().phase == PollPhase::Spawn,
    ensures
        passed_every_gate(cycles, events),
{
    let c = cycles.last();
    let n = events.len() as int;
    assert(events[n - 1] is Attempt);
    assert(cycles[n - 1].phase == PollPhase::Attempt);
    let asks = if c.settings.lease_gate is Some {
        assert(events[n - 2] is Leases);
        n - 3
    } else {
        n - 2
    };
    assert(events[asks] is Asks);
    let cooling = if c.settings.uses_locks {
        assert(events[asks - 1] == PollEvent::Session(false));
        asks - 2
    } else {
        asks - 1
    };
    assert(events[cooling] == PollEvent::Cooling(false));
    assert(events[cooling - 1] is Pending);
}

/// A delegated repo is never considered for a spawn: it takes no part in the
/// cooldown, the session locks, the leases or the spawn, and all that leaving
/// it does is to mark its signals.
pub proof fn law_delegated_repo_never_spawns<'a>(c: PollCycle<'a>)
    requires
        c.wf(),
        c.at < c.settings.config.repos@.len(),
        c.repo().delegated(),
    ensures
        c.phase == PollPhase::Pending || c.phase == (PollPhase::Leave { exit: PollExit::NoSignals })
            || c.phase == (PollPhase::Leave { exit: PollExit::Delegated }),
{
}

/// Signals are marked as handled exactly when their repo is delegated, when
/// nothing among them wakes, or when a session was spawned for them. In every
/// other case they stay pending.
pub proof fn law_signals_are_marked_only_when_dealt_with(
    exit: PollExit,
    uses_locks: bool,
    has_gate: bool,
    has_attempt: bool,
    mode: SpawnMode,
)
    ensures
        exit_effects(exit, uses_locks, has_gate, has_attempt, mode).contains(PollEffect::MarkHandled)
            <==> exit == PollExit::Delegated || exit == PollExit::Informational || exit
            == PollExit::Woken,
{
    let effects = exit_effects(exit, uses_locks, has_gate, has_attempt, mode);
    if exit == PollExit::Delegated || exit == PollExit::Informational || exit == PollExit::Woken {
        assert(effects[0] == PollEffect::MarkHandled);
    }
}

/// A spawn that failed gives back what it took: its leases are released and
/// its wake attempt is abandoned. Leases are released in no other case, since
/// those of a session that was spawned travel with it.
pub proof fn law_failed_spawn_gives_back(
    exit: PollExit,
    uses_locks: bool,
    has_gate: bool,
    has_attempt: bool,
    mode: SpawnMode,
)
    ensures
        exit_effects(exit, uses_locks, has_gate, has_attempt, mode).contains(PollEffect::ReleaseLeases)
            <==> exit == PollExit::SpawnFailed && has_gate,
        exit_effects(exit, uses_locks, has_gate, has_attempt, mode).contains(
            PollEffect::AbandonAttempt,
        ) <==> exit == PollExit::SpawnFailed && has_attempt,
{
    let effects = exit_effects(exit, uses_locks, has_gate, has_attempt, mode);
    if exit == PollExit::SpawnFailed && has_gate {
        assert(effects[0] == PollEffect::ReleaseLeases);
    }
    if exit == PollExit::SpawnFailed && has_attempt {
        assert(effects.last() == PollEffect::AbandonAttempt);
    }
}

/// How far a phase is from leaving its repo.
pub open spec fn poll_rank(phase: PollPhase) -> nat {
    match phase {
        PollPhase::Pending => 8,
        PollPhase::Cooling => 7,
        PollPhase::Session => 6,
        PollPhase::Asks => 5,
        PollPhase::Leases => 4,
        PollPhase::Attempt => 3,
        PollPhase::Spawn => 2,
        PollPhase::Leave { .. } => 1,
        PollPhase::CapReached => 0,
        PollPhase::Finished => 0,
    }
}

/// A poll cycle comes to an end and sees each repo at most once: with every
/// step the cursor moves on by one, or the repo is closer to being left.
pub proof fn law_poll_cycle_ends<'a>(c: PollCycle<'a>, event: PollEvent, c2: PollCycle<'a>)
    requires
        c.wf(),
        poll_answers(c.phase, event),
        poll_steps(c, event, c2),
    ensures
        c2.at == c.at + 1 || (c2.at == c.at && poll_rank(c2.phase) < poll_rank(c.phase)),
{
}

/// A signal that wakes is never passed over, wherever among the pending ones
/// it stands: where at least one of them wakes by its verb, or answers a
/// wake-worthy ask of the repo, the cycle goes on to the leases or the attempt,
/// unless the cap is reached. A repo is left as informational exactly if none
/// of its signals does either.
pub proof fn law_waking_signal_is_never_passed_over<'a>(
    c: PollCycle<'a>,
    asks: BoardView,
    active: i32,
    c2: PollCycle<'a>,
)
    requires
        c.wf(),
        c.phase == PollPhase::Asks,
        poll_steps(c, (PollEvent::Asks { asks, active }), c2),
    ensures
        ({
            let manifest = *c.settings.manifest;
            let cap = c.settings.config.max_concurrent_wakes;
            let some_wakes = exists|i: int|
                0 <= i < c.signals@.len() && {
                    let text = (#[trigger] c.signals@[i]).1@;
                    ||| wake_worthy(manifest, text)
                    ||| (claimed_ask(text) matches Some(id) && asks.find(id) matches Some(ask)
                        && same_ignoring_case(ask.repo, c.repo().name@) && wake_worthy(
                        manifest,
                        ask.text,
                    ))
                };
            &&& c2.phase == (PollPhase::Leave { exit: PollExit::Informational }) <==> !some_wakes
            &&& some_wakes && cap > 0 && active >= cap ==> c2.phase == PollPhase::CapReached
            &&& some_wakes && (cap == 0 || active < cap) && c.settings.lease_gate is Some
                ==> c2.phase == PollPhase::Leases
            &&& some_wakes && (cap == 0 || active < cap) && c.settings.lease_gate is None
                ==> c2.phase == PollPhase::Attempt
        }),
{
    let manifest = *c.settings.manifest;
    let name = c.repo().name@;
    assert forall|i: int| 0 <= i < c.signals@.len() implies (#[trigger] c.rows()[i]).1
        == c.signals@[i].1@ by {}
    if some_signal_wakes(manifest, asks, name, c.rows()) {
        let i = choose|i: int|
            0 <= i < c.rows().len() && wakes_repo(manifest, asks, name, (#[trigger] c.rows()[i]).1);
        let text = c.signals@[i].1@;
        assert(c.rows()[i].1 == text);
    }
    if c2.phase == (PollPhase::Leave { exit: PollExit::Informational }) {
        assert forall|i: int| 0 <= i < c.signals@.len() implies {
            let text = (#[trigger] c.signals@[i]).1@;
            !wakes_repo(manifest, asks, name, text)
        } by {
            assert(c.rows()[i].1 == c.signals@[i].1@);
        }
    }
}

proof fn lemma_acquired_is_leased(
    persona: Seq<char>,
    rows: Seq<SignalRow>,
    acquired: Seq<bool>,
    i: int,
) -> (k: int)
    requires
        0 <= i < rows.len(),
        acquired[i],
    ensures
        0 <= k < acquired_leases(persona, rows, acquired).len(),
        acquired_leases(persona, rows, acquired)[k] == (persona, rows[i].0),
    decreases rows.len(),
{
    if i == rows.len() - 1 {
        acquired_leases(persona, rows, acquired).len() - 1
    } else {
        lemma_acquired_is_leased(persona, rows.drop_last(), acquired, i)
    }
}

proof fn lemma_leased_was_acquired(
    persona: Seq<char>,
    rows: Seq<SignalRow>,
    acquired: Seq<bool>,
    k: int,
) -> (i: int)
    requires
        0 <= k < acquired_leases(persona, rows, acquired).len(),
    ensures
        0 <= i < rows.len(),
        acquired[i],
        acquired_leases(persona, rows, acquired)[k] == (persona, rows[i].0),
    decreases rows.len(),
{
    let before = acquired_leases(persona, rows.drop_last(), acquired);
    if k < before.len() {
        lemma_leased_was_acquired(persona, rows.drop_last(), acquired, k)
    } else {
        rows.len() - 1
    }
}

/// A spawn holds a lease for each signal whose lease was acquired, under the
/// name that the repo is addressed by, and no other lease. One is enough to go
/// on; the repo is left exactly if every lease is held elsewhere.
pub proof fn law_leases_are_held_for_what_was_acquired<'a>(
    c: PollCycle<'a>,
    acquired: Seq<bool>,
    c2: PollCycle<'a>,
)
    requires
        c.wf(),
        c.phase == PollPhase::Leases,
        acquired.len() == c.signals@.len(),
        poll_steps(c, (PollEvent::Leases { acquired }), c2),
    ensures
        forall|i: int|
            0 <= i < acquired.len() && #[trigger] acquired[i] ==> exists|k: int|
                0 <= k < c2.held_leases@.len() && (#[trigger] c2.held_leases@[k]).0@
                    == c.repo().recipient_name() && c2.held_leases@[k].1@ == c.signals@[i].0@,
        forall|k: int|
            0 <= k < c2.held_leases@.len() ==> (#[trigger] c2.held_leases@[k]).0@
                == c.repo().recipient_name() && exists|i: int|
                0 <= i < acquired.len() && #[trigger] acquired[i] && c2.held_leases@[k].1@
                    == c.signals@[i].0@,
        c2.phase == PollPhase::Attempt <==> exists|i: int|
            0 <= i < acquired.len() && #[trigger] acquired[i],
        c2.phase == (PollPhase::Leave { exit: PollExit::LeasesElsewhere }) <==> forall|i: int|
            0 <= i < acquired.len() ==> !#[trigger] acquired[i],
{
    let persona = c.repo().recipient_name();
    let rows = c.rows();
    let held = acquired_leases(persona, rows, acquired);
    assert forall|k: int| 0 <= k < c2.held_leases@.len() implies held[k] == (
        (#[trigger] c2.held_leases@[k]).0@,
        c2.held_leases@[k].1@,
    ) by {
        assert(lease_rows(c2.held_leases@)[k] == pair_text(c2.held_leases@[k]));
    }
    assert(held.len() == c2.held_leases@.len());
    assert forall|i: int| 0 <= i < acquired.len() && #[trigger] acquired[i] implies exists|k: int|
        0 <= k < c2.held_leases@.len() && (#[trigger] c2.held_leases@[k]).0@ == persona
            && c2.held_leases@[k].1@ == c.signals@[i].0@ by {
        let k = lemma_acquired_is_leased(persona, rows, acquired, i);
        assert(rows[i].0 == c.signals@[i].0@);
        assert(c2.held_leases@[k].0@ == persona);
    }
    assert forall|k: int| 0 <= k < c2.held_leases@.len() implies (
    #[trigger] c2.held_leases@[k]).0@ == persona && exists|i: int|
        0 <= i < acquired.len() && #[trigger] acquired[i] && c2.held_leases@[k].1@
            == c.signals@[i].0@ by {
        let i = lemma_leased_was_acquired(persona, rows, acquired, k);
        assert(rows[i].0 == c.signals@[i].0@);
    }
    if held.len() > 0 {
        let i = lemma_leased_was_acquired(persona, rows, acquired, 0);
        assert(acquired[i]);
    }
}

proof fn lemma_claimed_asks(rows: Seq<SignalRow>, id: Seq<char>)
    ensures
        claimed_asks(rows).contains(id) <==> exists|i: int|
            0 <= i < rows.len() && claimed_ask((#[trigger] rows[i]).1) == Some(id),
    decreases rows.len(),
{
    if rows.len() > 0 {
        let rest = rows.drop_last();
        let before = claimed_asks(rest);
        let after = claimed_asks(rows);
        lemma_claimed_asks(rest, id);
        if claimed_ask(rows[rows.len() - 1].1) == Some(id) {
            assert(after.last() == id);
        } else if before.contains(id) {
            let i = choose|i: int|
                0 <= i < rest.len() && claimed_ask((#[trigger] rest[i]).1) == Some(id);
            assert(rows[i] == rest[i]);
            let k = choose|k: int| 0 <= k < before.len() && before[k] == id;
            assert(after[k] == id);
        } else {
            assert forall|i: int| 0 <= i < rows.len() implies claimed_ask((#[trigger] rows[i]).1)
                != Some(id) by {
                if i < rest.len() {
                    assert(rows[i] == rest[i]);
                }
            }
            if after.contains(id) {
                let k = choose|k: int| 0 <= k < after.len() && after[k] == id;
                if k < before.len() {
                    assert(before[k] == id);
                }
            }
        }
    }
}

/// Every ask that a pending signal claims to answer is loaded, whichever
/// signal claims it, and no other.
pub proof fn law_every_claimed_ask_is_loaded<'a>(
    c: &PollCycle<'a>,
    ids: Vec<String>,
    id: Seq<char>,
)
    requires
        call_ensures(PollCycle::ask_ids, (c,), ids),
    ensures
        (exists|k: int| 0 <= k < ids@.len() && (#[trigger] ids@[k])@ == id) <==> exists|i: int|
            0 <= i < c.signals@.len() && claimed_ask((#[trigger] c.signals@[i]).1@) == Some(id),
{
    lemma_claimed_asks(c.rows(), id);
    let all = texts(ids@);
    if exists|k: int| 0 <= k < ids@.len() && (#[trigger] ids@[k])@ == id {
        let k = choose|k: int| 0 <= k < ids@.len() && (#[trigger] ids@[k])@ == id;
        assert(all[k] == id);
        let i = choose|i: int|
            0 <= i < c.rows().len() && claimed_ask((#[trigger] c.rows()[i]).1) == Some(id);
        assert(c.rows()[i].1 == c.signals@[i].1@);
    }
    if exists|i: int|
        0 <= i < c.signals@.len() && claimed_ask((#[trigger] c.signals@[i]).1@) == Some(id) {
        let i = choose|i: int|
            0 <= i < c.signals@.len() && claimed_ask((#[trigger] c.signals@[i]).1@) == Some(id);
        assert(c.rows()[i].1 == c.signals@[i].1@);
        let k = choose|k: int| 0 <= k < all.len() && all[k] == id;
        assert(ids@[k]@ == id);
    }
}

/// A repo with pending signals whose way is clear comes to a spawn: each gate
/// that does not hold it lets it on to the next, and one that holds it says
/// which it was.
pub proof fn law_clear_way_leads_to_a_spawn<'a>(
    c: PollCycle<'a>,
    event: PollEvent,
    c2: PollCycle<'a>,
)
    requires
        c.wf(),
        poll_answers(c.phase, event),
        poll_steps(c, event, c2),
    ensures
        event matches PollEvent::Pending { signals } ==> {
            &&& c2.phase == (PollPhase::Leave { exit: PollExit::NoSignals }) <==> signals.len() == 0
            &&& c2.phase == PollPhase::Cooling <==> signals.len() > 0 && c.repo().recipient_name()
                == c.repo().name@
            &&& c2.phase == (PollPhase::Leave { exit: PollExit::Delegated }) <==> signals.len() > 0
                && c.repo().recipient_name() != c.repo().name@
        },
        event == PollEvent::Cooling(true) ==> c2.phase == (PollPhase::Leave {
            exit: PollExit::Cooling,
        }),
        event == PollEvent::Cooling(false) && c.settings.uses_locks ==> c2.phase
            == PollPhase::Session,
        event == PollEvent::Cooling(false) && !c.settings.uses_locks ==> c2.phase
            == PollPhase::Asks,
        event == PollEvent::Session(true) ==> c2.phase == (PollPhase::Leave {
            exit: PollExit::ActiveSession,
        }),
        event == PollEvent::Session(false) ==> c2.phase == PollPhase::Asks,
        event is Attempt ==> c2.phase == PollPhase::Spawn,
        event == PollEvent::Spawned ==> c2.phase == (PollPhase::Leave { exit: PollExit::Woken })
            && c2.spawned == c.spawned + 1,
        event == PollEvent::SpawnFailed ==> c2.phase == (PollPhase::Leave {
            exit: PollExit::SpawnFailed,
        }) && c2.spawned == c.spawned,
{
}

/// A spawn goes on record exactly under an attempt that was both enqueued and
/// claimed; without one it goes on all the same.
pub proof fn law_spawn_goes_on_without_an_attempt<'a>(
    c: PollCycle<'a>,
    candidate: Seq<char>,
    enqueued: bool,
    claimed: bool,
    c2: PollCycle<'a>,
)
    requires
        c.wf(),
        c.phase == PollPhase::Attempt,
        poll_steps(c, (PollEvent::Attempt { candidate, enqueued, claimed }), c2),
    ensures
        c2.phase == PollPhase::Spawn,
        c2.attempt_id is Some <==> enqueued && claimed,
        c2.attempt_id matches Some(id) ==> id@ == candidate,
        c2.signals == c.signals,
        c2.held_leases == c.held_leases,
{
}

/// What follows a spawn: its signals are marked first, its session lock is
/// written where locks are used, and an attempt on record learns the process
/// and goes from claimed to spawning. One that prints runs at once; an
/// interactive one is not yet running.
pub proof fn law_woken_session_is_put_on_record<'a>(c: &PollCycle<'a>, effects: Vec<PollEffect>)
    requires
        c.phase is Leave,
        call_ensures(PollCycle::effects, (c,), effects),
    ensures
        ({
            let woken = c.phase == (PollPhase::Leave { exit: PollExit::Woken });
            let on_record = woken && c.attempt_id is Some;
            &&& woken ==> effects@[0] == PollEffect::MarkHandled
            &&& effects@.contains(PollEffect::RecordLock) <==> woken && c.settings.uses_locks
            &&& effects@.contains(PollEffect::SetAttemptPid) <==> on_record
            &&& effects@.contains(PollEffect::ClaimedToSpawning) <==> on_record
            &&& effects@.contains(PollEffect::SpawningToRunning) <==> on_record && c.settings.mode
                == SpawnMode::Print
            &&& effects@.no_duplicates()
            &&& forall|j: int, k: int|
                0 <= j < effects@.len() && 0 <= k < effects@.len() && #[trigger] effects@[j]
                    == PollEffect::ClaimedToSpawning && #[trigger] effects@[k]
                    == PollEffect::SpawningToRunning ==> j < k
            &&& c.phase->exit == PollExit::NoSignals || c.phase->exit == PollExit::Cooling
                || c.phase->exit == PollExit::ActiveSession || c.phase->exit
                == PollExit::LeasesElsewhere ==> effects@.len() == 0
        }),
{
    let woken = c.phase == (PollPhase::Leave { exit: PollExit::Woken });
    if woken {
        let n: int = if c.settings.uses_locks {
            2
        } else {
            1
        };
        if c.settings.uses_locks {
            assert(effects@[1] == PollEffect::RecordLock);
        }
        if c.attempt_id is Some {
            assert(effects@[n] == PollEffect::SetAttemptPid);
            assert(effects@[n + 1] == PollEffect::ClaimedToSpawning);
            if c.settings.mode == SpawnMode::Print {
                assert(effects@[n + 2] == PollEffect::SpawningToRunning);
            }
        }
    }
}

/// The first spawn of a cycle goes out at once, and each further one waits out
/// the stagger.
pub proof fn law_only_further_spawns_wait<'a>(c: &PollCycle<'a>, secs: u64)
    requires
        call_ensures(PollCycle::stagger, (c,), secs),
    ensures
        c.spawned == 0 ==> secs == 0,
        c.spawned >= 1 ==> secs == c.settings.config.stagger_secs,
{
}

/// A session is prompted under the name that its repo is addressed by, with
/// every pending signal, and is told its wake attempt exactly if there is one.
pub proof fn law_spawn_prompts_with_every_signal<'a>(
    c: &PollCycle<'a>,
    plan: SpawnPlan,
    prompt: String,
    name: &str,
    signals: &[PendingSignal],
)
    requires
        c.wf(),
        c.phase == PollPhase::Spawn,
        call_ensures(PollCycle::spawn_plan, (c,), plan),
        name@ == c.repo().recipient_name(),
        signals@ == c.signals@,
        call_ensures(build_wake_prompt, (c.settings.manifest, name, signals), prompt),
    ensures
        c.settings.mode == SpawnMode::Print ==> plan.args@.len() == 3 && plan.args@[2]@ == prompt@,
        c.settings.mode == SpawnMode::Pty ==> (plan.paste matches Some(keys) && keys@ == pasted(
            encode_utf8(prompt@),
        )),
        (exists|i: int|
            0 <= i < plan.env@.len() && (#[trigger] plan.env@[i]).0@ == "LEGION_WAKE_ATTEMPT_ID"@)
            <==> c.attempt_id is Some,
        c.attempt_id matches Some(id) ==> plan.env@.last().1@ == id@,
{
    reveal_strlit("LEGION_WAKE_ATTEMPT_ID");
    reveal_strlit("LEGION_AUTO_WAKE");
    reveal_strlit("LEGION_SPAWN_SOURCE");
    assert(texts(plan.args@).len() == plan.args@.len());
    if c.settings.mode == SpawnMode::Print {
        assert(texts(plan.args@)[2] == plan.args@[2]@);
    }
    let env = env_texts(plan.env@);
    assert(env.len() == plan.env@.len());
    assert forall|i: int| 0 <= i < plan.env@.len() implies env[i] == (
        (#[trigger] plan.env@[i]).0@,
        plan.env@[i].1@,
    ) by {}
    if c.attempt_id is Some {
        assert(plan.env@[plan.env@.len() - 1].0@ == "LEGION_WAKE_ATTEMPT_ID"@);
    } else if exists|i: int|
        0 <= i < plan.env@.len() && (#[trigger] plan.env@[i]).0@ == "LEGION_WAKE_ATTEMPT_ID"@ {
        let i = choose|i: int|
            0 <= i < plan.env@.len() && (#[trigger] plan.env@[i]).0@ == "LEGION_WAKE_ATTEMPT_ID"@;
        assert(env[i].0.len() == 22);
    }
}

/// Attempts and leases go under the host of the lease gate, and under no name
/// where there is none.
pub proof fn law_host_is_that_of_the_lease_gate<'a>(c: &PollCycle<'a>, host: String)
    requires
        call_ensures(PollCycle::host, (c,), host),
    ensures
        c.settings.lease_gate is None ==> host@ == Seq::<char>::empty(),
        c.settings.lease_gate matches Some(gate) ==> host@ == gate.host@,
{
}

/// Leaving a repo goes on to the next, with nothing of it carried over but the
/// count of sessions. The cycle is over exactly behind the last.
pub proof fn law_each_repo_starts_afresh<'a>(c: PollCycle<'a>, c2: PollCycle<'a>)
    requires
        c.wf(),
        c.phase is Leave,
        poll_steps(c, PollEvent::Left, c2),
    ensures
        c2.at == c.at + 1,
        c2.signals@.len() == 0,
        c2.held_leases@.len() == 0,
        c2.attempt_id is None,
        c2.spawned == c.spawned,
        c2.phase == PollPhase::Pending <==> c2.at < c.settings.config.repos@.len(),
        c2.phase == PollPhase::Finished <==> c2.at == c.settings.config.repos@.len(),
{
}

/// A session that was spawned is tracked under its repo with all that it
/// holds: the leases, the attempt and the ids of every signal it was woken
/// for, in order. It is counted, its leases travel with it, and the cooldown
/// of its repo, and of no other, begins.
pub proof fn law_spawned_session_is_tracked_with_what_it_holds<'a, H>(
    cycle: &mut PollCycle<'a>,
    tracker: &mut AgentTracker<H>,
    cooldown: &mut CooldownTracker,
    child: H,
    other: Seq<char>,
)
    requires
        old(cycle).wf(),
        old(cycle).phase == PollPhase::Spawn,
        call_ensures(PollCycle::on_spawned::<H>, (cycle, tracker, cooldown, child), ()),
    ensures
        ({
            let c = final(tracker).children@.last();
            let before = *old(cycle);
            &&& final(tracker).children@.len() == old(tracker).children@.len() + 1
            &&& final(tracker).children@.drop_last() == old(tracker).children@
            &&& c.repo@ == before.repo().name@
            &&& c.child == child
            &&& c.mode == before.settings.mode
            &&& c.held_leases == before.held_leases
            &&& c.attempt_id is Some <==> before.attempt_id is Some
            &&& c.attempt_id matches Some(id) ==> id@ == before.attempt_id->0@
            &&& c.signal_ids@.len() == before.signals@.len()
            &&& forall|i: int|
                0 <= i < before.signals@.len() ==> (#[trigger] c.signal_ids@[i])@
                    == before.signals@[i].0@
            &&& final(cycle).spawned == before.spawned + 1
            &&& final(cycle).held_leases@.len() == 0
            &&& final(cooldown).last_wake.at(before.repo().name@) is Some
            &&& other != before.repo().name@ ==> final(cooldown).last_wake.at(other) == old(
                cooldown,
            ).last_wake.at(other)
        }),
{
    let c = final(tracker).children@.last();
    let before = *old(cycle);
    assert(old(tracker).children@.push(c).drop_last() =~= old(tracker).children@);
    let ids = texts(c.signal_ids@);
    assert(ids.len() == c.signal_ids@.len());
    assert forall|i: int| 0 <= i < before.signals@.len() implies (#[trigger] c.signal_ids@[i])@
        == before.signals@[i].0@ by {
        assert(ids[i] == c.signal_ids@[i]@);
        assert(before.rows()[i].0 == before.signals@[i].0@);
    }
}

/// Told the asks, a cycle goes on to the leases or the attempt whenever any of
/// the pending signals wakes by its verb or answers a wake-worthy ask of the
/// repo and the cap leaves room, and it leaves the repo as informational
/// exactly if none does.
pub proof fn law_any_waking_signal_lets_the_repo_on<'a>(
    cycle: &mut PollCycle<'a>,
    asks: &Board,
    active: i32,
    i: int,
)
    requires
        old(cycle).wf(),
        old(cycle).phase == PollPhase::Asks,
        call_ensures(PollCycle::on_asks, (cycle, asks, active), ()),
        0 <= i < old(cycle).signals@.len(),
    ensures
        ({
            let before = *old(cycle);
            let manifest = *before.settings.manifest;
            let cap = before.settings.config.max_concurrent_wakes;
            let text = before.signals@[i].1@;
            let wakes = wake_worthy(manifest, text) || (claimed_ask(text) matches Some(id)
                && asks@.find(id) matches Some(ask) && same_ignoring_case(
                ask.repo,
                before.repo().name@,
            ) && wake_worthy(manifest, ask.text));
            &&& wakes && (cap == 0 || active < cap) ==> final(cycle).phase == PollPhase::Leases
                || final(cycle).phase == PollPhase::Attempt
            &&& wakes ==> final(cycle).phase != (PollPhase::Leave { exit: PollExit::Informational })
            &&& before.signals@.len() == 1 && !wakes ==> final(cycle).phase == (PollPhase::Leave {
                exit: PollExit::Informational,
            })
        }),
{
    law_waking_signal_is_never_passed_over(*old(cycle), asks@, active, *final(cycle));
}

} // verus!
