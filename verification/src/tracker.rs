//! Tracking of spawned sessions: confirming that their prompt was submitted,
//! reaping them, and settling what they held.
//!
//! Two passes run over the tracked children. Each is a machine with a cursor:
//! its phase says what is wanted of the child at the cursor, the caller does
//! it, and hands back what came of it.
use std::time::Instant;
use vstd::prelude::*;
use crate::clock::{elapsed_nanos, is_elapsed, is_instant_read};
use crate::locks::{elapsed_since, is_elapsed_since, NANOS_PER_SEC};
use crate::number::{decimal, push_decimal};
use crate::signal::opt_text;
use crate::spawn::SpawnMode;

verus! {

broadcast use vstd::seq_lib::group_seq_properties;

// -- The submit policy -------------------------------------------------------

/// What to do about a prompt whose submission is not confirmed.
#[derive(Debug, Clone, Copy, PartialEq, Eq, Structural)]
pub enum SubmitAction {
    /// A turn started: the prompt was submitted.
    Confirm,
    /// The retries or the time are used up.
    Fail,
    /// Send the submit key.
    Send,
    /// Wait for the next tick.
    Wait,
}

/// The submit policy. A turn that started confirms, whatever else holds. A
/// used-up count or budget fails. Otherwise the submit key is due when none
/// was sent yet or the last is as old as the interval.
pub open spec fn submit_policy(
    turn_started: bool,
    retries: u32,
    max: u32,
    spawn_elapsed_nanos: u128,
    budget_secs: u64,
    last_enter_nanos: Option<u128>,
    interval_secs: u64,
) -> SubmitAction {
    if turn_started {
        SubmitAction::Confirm
    } else if retries >= max || spawn_elapsed_nanos >= budget_secs * NANOS_PER_SEC {
        SubmitAction::Fail
    } else if last_enter_nanos matches Some(n) && n < interval_secs * NANOS_PER_SEC {
        SubmitAction::Wait
    } else {
        SubmitAction::Send
    }
}

/// Applies the submit policy.
pub fn submit_action(
    turn_started: bool,
    retries: u32,
    max: u32,
    spawn_elapsed_nanos: u128,
    budget_secs: u64,
    last_enter_nanos: Option<u128>,
    interval_secs: u64,
) -> (action: SubmitAction)
    ensures
        action == submit_policy(
            turn_started,
            retries,
            max,
            spawn_elapsed_nanos,
            budget_secs,
            last_enter_nanos,
            interval_secs,
        ),
{
    if turn_started {
        return SubmitAction::Confirm;
    }
    if retries >= max || spawn_elapsed_nanos >= (budget_secs as u128) * NANOS_PER_SEC {
        return SubmitAction::Fail;
    }
    let due = match last_enter_nanos {
        Some(n) => n >= (interval_secs as u128) * NANOS_PER_SEC,
        None => true,
    };
    if due {
        SubmitAction::Send
    } else {
        SubmitAction::Wait
    }
}

// -- Tracked children --------------------------------------------------------

/// A spawned session and what it holds. `H` is the handle of its process,
/// which is only carried.
#[derive(Debug)]
pub struct TrackedChild<H> {
    pub repo: String,
    pub child: H,
    pub mode: SpawnMode,
    /// The persona and signal of each lease that the session acquired.
    pub held_leases: Vec<(String, String)>,
    /// The host under which the leases were acquired.
    pub host: String,
    pub session_id: String,
    pub spawn_at: String,
    /// The signals that the session was woken for.
    pub signal_ids: Vec<String>,
    /// The wake attempt on record, if there is one.
    pub attempt_id: Option<String>,
    pub spawn_instant: Instant,
    /// When the submit key was last sent.
    pub last_submit_enter: Option<Instant>,
    /// How often the submit key was sent.
    pub submit_retries: u32,
    /// Whether a turn was seen to start.
    pub submit_confirmed: bool,
    /// Why the submit confirmation gave up, if it did.
    pub submit_failed_reason: Option<String>,
    /// Set when the session was reaped past its budget.
    pub budget_exceeded_reason: Option<String>,
}

/// The spawned sessions that run.
#[derive(Debug)]
pub struct AgentTracker<H> {
    pub children: Vec<TrackedChild<H>>,
}

impl<H> AgentTracker<H> {
    /// Tracks nothing.
    pub fn new() -> (tracker: Self)
        ensures
            tracker.children@.len() == 0,
    {
        AgentTracker { children: Vec::new() }
    }

    /// Tracks a session that was just spawned, with the leases that it holds.
    pub fn track(
        &mut self,
        repo: String,
        child: H,
        mode: SpawnMode,
        held_leases: Vec<(String, String)>,
        host: String,
        session_id: String,
        spawn_at: String,
        signal_ids: Vec<String>,
        attempt_id: Option<String>,
    )
        ensures
            ({
                let c = final(self).children@.last();
                &&& final(self).children@ == old(self).children@.push(c)
                &&& c.repo == repo
                &&& c.child == child
                &&& c.mode == mode
                &&& c.held_leases == held_leases
                &&& c.host == host
                &&& c.session_id == session_id
                &&& c.spawn_at == spawn_at
                &&& c.signal_ids == signal_ids
                &&& c.attempt_id == attempt_id
                &&& is_instant_read(c.spawn_instant)
                &&& c.last_submit_enter is None
                &&& c.submit_retries == 0
                &&& !c.submit_confirmed
                &&& c.submit_failed_reason is None
                &&& c.budget_exceeded_reason is None
            }),
    {
        self.children.push(
            TrackedChild {
                repo,
                child,
                mode,
                held_leases,
                host,
                session_id,
                spawn_at,
                signal_ids,
                attempt_id,
                spawn_instant: Instant::now(),
                last_submit_enter: None,
                submit_retries: 0,
                submit_confirmed: false,
                submit_failed_reason: None,
                budget_exceeded_reason: None,
            },
        );
    }

    /// The number of sessions that run.
    pub fn active_count(&self) -> (count: i32)
        ensures
            count == self.children@.len() as i32,
            self.children@.len() <= i32::MAX ==> count == self.children@.len(),
    {
        self.children.len() as i32
    }
}

// -- Confirming submission ---------------------------------------------------

/// The limits of the submit confirmation.
#[derive(Debug, Clone, Copy, PartialEq, Eq, Structural)]
pub struct SubmitLimits {
    pub retry_max: u32,
    pub retry_interval_secs: u64,
    pub confirm_budget_secs: u64,
}

/// What the submit pass wants of the child at its cursor.
#[derive(Debug, Clone, Copy, PartialEq, Eq, Structural)]
pub enum SubmitPhase {
    /// Say whether a turn has started.
    Observe,
    /// Advance the wake attempt from spawning to running.
    Confirmed,
    /// Send the submit key.
    Send,
    /// Kill the session: its prompt will not be submitted.
    Kill,
    /// Nothing: every child was seen to.
    Finished,
}

/// Whether the submit confirmation is concerned with a child: an interactive
/// session with a wake attempt whose submission is neither confirmed nor given
/// up.
pub open spec fn awaits_submit<H>(c: TrackedChild<H>) -> bool {
    !c.submit_confirmed && c.submit_failed_reason is None && c.mode == SpawnMode::Pty
        && c.attempt_id is Some
}

/// The reason recorded for a prompt whose submission was not confirmed.
pub open spec fn not_confirmed_reason(retries: u32) -> Seq<char> {
    "submit_not_confirmed (retries="@ + decimal(retries as nat) + ")"@
}

/// The reason recorded for a submit key that could not be sent.
pub open spec fn send_failed_reason(retries: u32) -> Seq<char> {
    "submit_send_failed (retries="@ + decimal(retries as nat) + ")"@
}

/// One pass of the submit confirmation over the tracked children.
#[derive(Debug)]
pub struct SubmitPass {
    pub at: usize,
    pub phase: SubmitPhase,
    pub limits: SubmitLimits,
}

/// The first child from `i` on that the submit confirmation is concerned
/// with, or the number of children.
pub open spec fn next_awaiting<H>(children: Seq<TrackedChild<H>>, i: int) -> int
    decreases children.len() - i,
{
    if i >= children.len() {
        children.len() as int
    } else if awaits_submit(children[i]) {
        i
    } else {
        next_awaiting(children, i + 1)
    }
}

impl SubmitPass {
    /// Whether the pass and the tracker belong together: the cursor is on a
    /// child, or the pass is over.
    pub open spec fn fits<H>(&self, tracker: AgentTracker<H>) -> bool {
        if self.phase == SubmitPhase::Finished {
            self.at == tracker.children@.len()
        } else {
            &&& self.at < tracker.children@.len()
            &&& tracker.children@[self.at as int].attempt_id is Some
            &&& self.phase == SubmitPhase::Send ==> tracker.children@[self.at as int].submit_retries
                < self.limits.retry_max
        }
    }

    /// Whether the pass stands at the first child from `i` on that it is
    /// concerned with.
    pub open spec fn stands_at_next<H>(&self, tracker: AgentTracker<H>, i: int) -> bool {
        let next = next_awaiting(tracker.children@, i);
        &&& self.at == next
        &&& self.phase == (if next < tracker.children@.len() {
            SubmitPhase::Observe
        } else {
            SubmitPhase::Finished
        })
    }

    fn seek<H>(tracker: &AgentTracker<H>, from: usize) -> (at: usize)
        requires
            from <= tracker.children@.len(),
        ensures
            at == next_awaiting(tracker.children@, from as int),
            at <= tracker.children@.len(),
            at < tracker.children@.len() ==> awaits_submit(tracker.children@[at as int]),
    {
        let mut i: usize = from;
        while i < tracker.children.len()
            invariant
                i <= tracker.children@.len(),
                next_awaiting(tracker.children@, from as int) == next_awaiting(
                    tracker.children@,
                    i as int,
                ),
            decreases tracker.children@.len() - i,
        {
            let c = &tracker.children[i];
            if !c.submit_confirmed && c.submit_failed_reason.is_none() && c.mode == SpawnMode::Pty
                && c.attempt_id.is_some() {
                return i;
            }
            i = i + 1;
        }
        i
    }

    fn stand<H>(&mut self, tracker: &AgentTracker<H>, from: usize)
        requires
            from <= tracker.children@.len(),
        ensures
            final(self).stands_at_next(*tracker, from as int),
            final(self).fits(*tracker),
            final(self).limits == old(self).limits,
    {
        self.at = Self::seek(tracker, from);
        self.phase = if self.at < tracker.children.len() {
            SubmitPhase::Observe
        } else {
            SubmitPhase::Finished
        };
    }

    fn stand_behind<H>(&mut self, tracker: &AgentTracker<H>, at: usize)
        requires
            at < tracker.children@.len(),
        ensures
            final(self).stands_at_next(*tracker, at + 1),
            final(self).fits(*tracker),
            final(self).limits == old(self).limits,
    {
        let n: usize = tracker.children.len();
        assert(at < n);
        self.stand(tracker, at + 1);
    }

    /// Begins a pass.
    pub fn start<H>(tracker: &AgentTracker<H>, limits: SubmitLimits) -> (pass: Self)
        ensures
            pass.stands_at_next(*tracker, 0),
            pass.fits(*tracker),
            pass.limits == limits,
    {
        let mut pass = SubmitPass { at: 0, phase: SubmitPhase::Finished, limits };
        pass.stand(tracker, 0);
        pass
    }

    /// How the pass and the tracker answer whether a turn has started, by
    /// [`submit_policy`].
    pub open spec fn observes<H>(
        &self,
        tracker: AgentTracker<H>,
        turn_started: bool,
        spawn_elapsed_nanos: u128,
        last_enter_nanos: Option<u128>,
        next: SubmitPass,
        next_tracker: AgentTracker<H>,
    ) -> bool {
        let at = self.at as int;
        let before = tracker.children@;
        let after = next_tracker.children@;
        let c = before[at];
        &&& next.limits == self.limits
        &&& next.fits(next_tracker)
        &&& match submit_policy(
            turn_started,
            c.submit_retries,
            self.limits.retry_max,
            spawn_elapsed_nanos,
            self.limits.confirm_budget_secs,
            last_enter_nanos,
            self.limits.retry_interval_secs,
        ) {
            SubmitAction::Confirm => {
                &&& next.phase == SubmitPhase::Confirmed
                &&& next.at == at
                &&& after == before.update(at, TrackedChild { submit_confirmed: true, ..c })
            },
            SubmitAction::Fail => {
                &&& next.phase == SubmitPhase::Kill
                &&& next.at == at
                &&& after == before.update(
                    at,
                    TrackedChild { submit_failed_reason: after[at].submit_failed_reason, ..c },
                )
                &&& opt_text(after[at].submit_failed_reason) == Some(
                    not_confirmed_reason(c.submit_retries),
                )
            },
            SubmitAction::Send => {
                &&& next.phase == SubmitPhase::Send
                &&& next.at == at
                &&& after == before
            },
            SubmitAction::Wait => {
                &&& next.stands_at_next(next_tracker, at + 1)
                &&& after == before
            },
        }
    }

    /// Takes in whether a turn has started, with the times since the spawn and
    /// since the last submit key.
    pub fn on_observed_at<H>(
        &mut self,
        tracker: &mut AgentTracker<H>,
        turn_started: bool,
        spawn_elapsed_nanos: u128,
        last_enter_nanos: Option<u128>,
    )
        requires
            old(self).phase == SubmitPhase::Observe,
            old(self).fits(*old(tracker)),
        ensures
            old(self).observes(
                *old(tracker),
                turn_started,
                spawn_elapsed_nanos,
                last_enter_nanos,
                *final(self),
                *final(tracker),
            ),
    {
        let at: usize = self.at;
        let ghost before = tracker.children@;
        let action = submit_action(
            turn_started,
            tracker.children[at].submit_retries,
            self.limits.retry_max,
            spawn_elapsed_nanos,
            self.limits.confirm_budget_secs,
            last_enter_nanos,
            self.limits.retry_interval_secs,
        );
        match action {
            SubmitAction::Confirm => {
                tracker.children[at].submit_confirmed = true;
                self.phase = SubmitPhase::Confirmed;
            },
            SubmitAction::Fail => {
                let mut reason = "submit_not_confirmed (retries=".to_string();
                push_decimal(&mut reason, tracker.children[at].submit_retries as u64);
                reason.append(")");
                tracker.children[at].submit_failed_reason = Some(reason);
                self.phase = SubmitPhase::Kill;
            },
            SubmitAction::Send => {
                self.phase = SubmitPhase::Send;
            },
            SubmitAction::Wait => {
                self.stand_behind(tracker, at);
            },
        }
    }

    /// Takes in whether a turn has started. The clock decides how long ago the
    /// session was spawned and the submit key last sent; see
    /// [`SubmitPass::on_observed_at`].
    pub fn on_observed<H>(&mut self, tracker: &mut AgentTracker<H>, turn_started: bool)
        requires
            old(self).phase == SubmitPhase::Observe,
            old(self).fits(*old(tracker)),
        ensures
            exists|spawn_elapsed: u128, last_enter: Option<u128>|
                is_elapsed(
                    old(tracker).children@[old(self).at as int].spawn_instant,
                    spawn_elapsed,
                ) && is_elapsed_since(
                    old(tracker).children@[old(self).at as int].last_submit_enter,
                    last_enter,
                ) && #[trigger] old(self).observes(
                    *old(tracker),
                    turn_started,
                    spawn_elapsed,
                    last_enter,
                    *final(self),
                    *final(tracker),
                ),
    {
        let c = &tracker.children[self.at];
        let spawn_elapsed: u128 = elapsed_nanos(&c.spawn_instant);
        let last_enter = elapsed_since(c.last_submit_enter);
        self.on_observed_at(tracker, turn_started, spawn_elapsed, last_enter);
    }

    /// Takes in that the wake attempt was advanced, or could not be: either
    /// way the submission stays confirmed.
    pub fn on_confirmed<H>(&mut self, tracker: &AgentTracker<H>)
        requires
            old(self).phase == SubmitPhase::Confirmed,
            old(self).fits(*tracker),
        ensures
            final(self).limits == old(self).limits,
            final(self).fits(*tracker),
            final(self).stands_at_next(*tracker, old(self).at + 1),
    {
        let at: usize = self.at;
        self.stand_behind(tracker, at);
    }

    /// Takes in whether the submit key was sent. A key that could not be sent
    /// is not counted: the input of the session is broken, and it is killed.
    pub fn on_sent<H>(&mut self, tracker: &mut AgentTracker<H>, sent: bool)
        requires
            old(self).phase == SubmitPhase::Send,
            old(self).fits(*old(tracker)),
        ensures
            final(self).limits == old(self).limits,
            final(self).fits(*final(tracker)),
            ({
                let at = old(self).at as int;
                let before = old(tracker).children@;
                let after = final(tracker).children@;
                let c = before[at];
                if sent {
                    &&& final(self).stands_at_next(*final(tracker), at + 1)
                    &&& after[at].last_submit_enter matches Some(t) && is_instant_read(t)
                    &&& after[at].submit_retries <= final(self).limits.retry_max
                    &&& after == before.update(
                        at,
                        TrackedChild {
                            submit_retries: (c.submit_retries + 1) as u32,
                            last_submit_enter: after[at].last_submit_enter,
                            ..c
                        },
                    )
                } else {
                    &&& final(self).phase == SubmitPhase::Kill
                    &&& final(self).at == at
                    &&& opt_text(after[at].submit_failed_reason) == Some(
                        send_failed_reason(c.submit_retries),
                    )
                    &&& after == before.update(
                        at,
                        TrackedChild { submit_failed_reason: after[at].submit_failed_reason, ..c },
                    )
                }
            }),
    {
        let at: usize = self.at;
        if sent {
            let retries: u32 = tracker.children[at].submit_retries;
            tracker.children[at].submit_retries = retries + 1;
            tracker.children[at].last_submit_enter = Some(Instant::now());
            self.stand_behind(tracker, at);
        } else {
            let mut reason = "submit_send_failed (retries=".to_string();
            push_decimal(&mut reason, tracker.children[at].submit_retries as u64);
            reason.append(")");
            tracker.children[at].submit_failed_reason = Some(reason);
            self.phase = SubmitPhase::Kill;
        }
    }

    /// Takes in that the session was killed, or could not be: either way the
    /// reason stands, and the reaper deals with the session.
    pub fn on_killed<H>(&mut self, tracker: &AgentTracker<H>)
        requires
            old(self).phase == SubmitPhase::Kill,
            old(self).fits(*tracker),
        ensures
            final(self).limits == old(self).limits,
            final(self).fits(*tracker),
            final(self).stands_at_next(*tracker, old(self).at + 1),
    {
        let at: usize = self.at;
        self.stand_behind(tracker, at);
    }
}

proof fn lemma_next_awaiting<H>(children: Seq<TrackedChild<H>>, i: int)
    requires
        0 <= i <= children.len(),
    ensures
        i <= next_awaiting(children, i) <= children.len(),
        next_awaiting(children, i) < children.len() ==> awaits_submit(
            children[next_awaiting(children, i)],
        ),
        forall|j: int| i <= j < next_awaiting(children, i) ==> !awaits_submit(#[trigger] children[j]),
    decreases children.len() - i,
{
    if i < children.len() && !awaits_submit(children[i]) {
        lemma_next_awaiting(children, i + 1);
    }
}

/// The submit confirmation only ever turns to a session that is interactive,
/// has a wake attempt, and whose submission is neither confirmed nor given up;
/// and it passes over none of these, and never goes back.
pub proof fn law_submit_pass_sees_exactly_the_unconfirmed<H>(
    pass: SubmitPass,
    tracker: AgentTracker<H>,
    from: int,
)
    requires
        0 <= from <= tracker.children@.len(),
        pass.stands_at_next(tracker, from),
    ensures
        from <= pass.at <= tracker.children@.len(),
        pass.phase == SubmitPhase::Observe ==> awaits_submit(tracker.children@[pass.at as int]),
        forall|j: int|
            from <= j < pass.at ==> !awaits_submit(#[trigger] tracker.children@[j]),
{
    lemma_next_awaiting(tracker.children@, from);
}

// -- Reaping -----------------------------------------------------------------

/// What a child answered when asked whether it has exited.
#[derive(Debug, Clone, Copy, PartialEq, Eq, Structural)]
pub enum Probe {
    /// It could not be asked.
    Failed,
    Running,
    Exited { success: bool },
}

/// What the store knows of the wake attempt of a running child.
#[derive(Debug, Clone, Copy, PartialEq, Eq, Structural)]
pub enum AttemptLookup {
    /// There is no store or no attempt to look up.
    NotAsked,
    /// The attempt is not on record.
    Missing,
    /// The store could not answer.
    Failed,
    Found { exit_observed: bool },
}

/// How a session is recorded.
#[derive(Debug, Clone, Copy, PartialEq, Eq, Structural)]
pub enum Verdict {
    /// It never became a session worth classifying; its own reason says why.
    Terminal,
    Errored,
    Productive,
    Unproductive,
}

/// What the reap pass wants of the child at its cursor.
#[derive(Debug, Clone, Copy, PartialEq, Eq, Structural)]
pub enum ReapPhase {
    /// Ask whether it has exited.
    Probe,
    /// Look up its wake attempt.
    CheckTurn,
    /// Kill it. `wedged` where it outlived its budget, else its turn is over.
    Kill { wedged: bool },
    /// Release its session lock and, where there is a store, its leases.
    Release { success: bool },
    /// Say whether the session was productive.
    Classify,
    /// Write the rows of [`RecordPlan`].
    Record { verdict: Verdict },
    /// Re-arm or abandon the signals that it was woken for.
    Rearm,
    /// Nothing: every child was seen to.
    Finished,
}

/// The rows to write for a session that ended.
#[derive(Debug)]
pub struct RecordPlan {
    /// Whether the session gets a row of its own.
    pub session_row: bool,
    /// Whether the wake attempt gets its outcome.
    pub attempt_row: bool,
    pub exit_status: String,
    pub outcome: String,
}

/// The reason recorded for a session that outlived its budget.
pub open spec fn budget_reason(budget_secs: u64) -> Seq<char> {
    "session_budget_exceeded ("@ + decimal(budget_secs as nat) + "s)"@
}

/// The reason for which a child is not classified: a submission that was
/// given up, or else an exceeded budget.
pub open spec fn terminal_reason<H>(c: TrackedChild<H>) -> Option<Seq<char>> {
    if c.submit_failed_reason is Some {
        opt_text(c.submit_failed_reason)
    } else {
        opt_text(c.budget_exceeded_reason)
    }
}

/// Whether the turn of a running child is over: the store has seen it end.
pub open spec fn turn_over(lookup: AttemptLookup) -> bool {
    lookup == (AttemptLookup::Found { exit_observed: true })
}

/// Whether a running child has outlived its budget. A budget of zero is none.
pub open spec fn over_budget(elapsed_nanos: u128, budget_secs: u64) -> bool {
    budget_secs > 0 && elapsed_nanos >= budget_secs * NANOS_PER_SEC
}

/// What is handed to the reap pass.
pub enum ReapEvent {
    Probed(Probe),
    TurnChecked { lookup: AttemptLookup, elapsed_nanos: u128 },
    Killed(bool),
    Released,
    Classified(Option<bool>),
    Recorded { attempt_settled: bool },
    Rearmed,
}

/// How the reap pass and the tracker answer an event.
///
/// - A child that could not be asked may still run, so it is kept. One that
///   exited is closed.
/// - A running child whose turn is over sits idle and is killed. One that
///   outlived its budget is wedged and is killed. Any other is kept.
/// - A child that could not be killed is still alive: it is kept and tried
///   again, since dropping it would leak the process and make way for a second
///   session. A wedged child that was killed notes its reason and
///   counts as failed; an idle one counts as a success.
/// - Once released, a child without a store is dropped. One with a reason of
///   its own is recorded with it, a failed one as errored, and a success is
///   classified first.
/// - A session that could not be classified is dropped without a record,
///   rather than recorded by a guess.
/// - Where a wake attempt was settled as failed by this very write, the
///   signals that it carried are re-armed or abandoned before the child is
///   dropped.
pub open spec fn reap_steps<H>(
    p: ReapPass,
    t: AgentTracker<H>,
    event: ReapEvent,
    p2: ReapPass,
    t2: AgentTracker<H>,
) -> bool {
    let c = t.children@[p.at as int];
    &&& p2.same_settings(p)
    &&& p2.fits(t2)
    &&& match event {
        ReapEvent::Probed(probe) => {
            &&& t2 == t
            &&& match probe {
                Probe::Failed => p2.arrives_at(t, p.at + 1),
                Probe::Running => p2.at == p.at && p2.phase == ReapPhase::CheckTurn,
                Probe::Exited { success } => p2.at == p.at && p2.phase == (ReapPhase::Release {
                    success,
                }),
            }
        },
        ReapEvent::TurnChecked { lookup, elapsed_nanos } => {
            &&& t2 == t
            &&& if turn_over(lookup) {
                p2.at == p.at && p2.phase == (ReapPhase::Kill { wedged: false })
            } else if over_budget(elapsed_nanos, p.budget_secs) {
                p2.at == p.at && p2.phase == (ReapPhase::Kill { wedged: true })
            } else {
                p2.arrives_at(t, p.at + 1)
            }
        },
        ReapEvent::Killed(killed) => {
            let wedged = p.phase->wedged;
            let c2 = t2.children@[p.at as int];
            if !killed {
                p2.arrives_at(t, p.at + 1) && t2 == t
            } else {
                &&& p2.at == p.at
                &&& p2.phase == (ReapPhase::Release { success: !wedged })
                &&& if wedged {
                    &&& opt_text(c2.budget_exceeded_reason) == Some(budget_reason(p.budget_secs))
                    &&& t2.children@ == t.children@.update(
                        p.at as int,
                        TrackedChild { budget_exceeded_reason: c2.budget_exceeded_reason, ..c },
                    )
                } else {
                    t2 == t
                }
            }
        },
        ReapEvent::Released => if !p.has_store {
            p2.drops(p, t, t2)
        } else {
            &&& t2 == t
            &&& p2.at == p.at
            &&& p2.phase == (if terminal_reason(c) is Some {
                ReapPhase::Record { verdict: Verdict::Terminal }
            } else if !p.phase->success {
                ReapPhase::Record { verdict: Verdict::Errored }
            } else {
                ReapPhase::Classify
            })
        },
        ReapEvent::Classified(productive) => match productive {
            Some(yes) => {
                &&& t2 == t
                &&& p2.at == p.at
                &&& p2.phase == (ReapPhase::Record {
                    verdict: if yes {
                        Verdict::Productive
                    } else {
                        Verdict::Unproductive
                    },
                })
            },
            None => p2.drops(p, t, t2),
        },
        ReapEvent::Recorded { attempt_settled } => {
            let verdict = p.phase->verdict;
            let failed = verdict == Verdict::Terminal || verdict == Verdict::Errored;
            if failed && c.attempt_id is Some && attempt_settled {
                t2 == t && p2.at == p.at && p2.phase == ReapPhase::Rearm
            } else {
                p2.drops(p, t, t2)
            }
        },
        ReapEvent::Rearmed => p2.drops(p, t, t2),
    }
}

/// One pass of the reaper over the tracked children.
#[derive(Debug)]
pub struct ReapPass {
    pub at: usize,
    pub phase: ReapPhase,
    pub budget_secs: u64,
    /// Whether there is a store to release leases in and to record into.
    pub has_store: bool,
}

impl ReapPass {
    /// Whether the pass and the tracker belong together: the cursor is on a
    /// child, or the pass is over.
    pub open spec fn fits<H>(&self, tracker: AgentTracker<H>) -> bool {
        if self.phase == ReapPhase::Finished {
            self.at == tracker.children@.len()
        } else {
            &&& self.at < tracker.children@.len()
            &&& self.phase == (ReapPhase::Record { verdict: Verdict::Terminal }) ==> terminal_reason(
                tracker.children@[self.at as int],
            ) is Some
        }
    }

    /// Whether the pass goes by the same settings as `other`.
    pub open spec fn same_settings(&self, other: ReapPass) -> bool {
        self.budget_secs == other.budget_secs && self.has_store == other.has_store
    }

    /// Whether the pass is about to begin with the child at `i`, or over
    /// where there is none.
    pub open spec fn arrives_at<H>(&self, tracker: AgentTracker<H>, i: int) -> bool {
        &&& self.at == i
        &&& self.phase == (if i < tracker.children@.len() {
            ReapPhase::Probe
        } else {
            ReapPhase::Finished
        })
    }

    /// Whether the child at the cursor is no longer tracked, all others are,
    /// in order, and the pass goes on with the one behind it.
    pub open spec fn drops<H>(
        &self,
        old_pass: ReapPass,
        old_tracker: AgentTracker<H>,
        tracker: AgentTracker<H>,
    ) -> bool {
        &&& tracker.children@ == old_tracker.children@.remove(old_pass.at as int)
        &&& self.arrives_at(tracker, old_pass.at as int)
    }

    fn keep<H>(&mut self, tracker: &AgentTracker<H>)
        requires
            old(self).at < tracker.children@.len(),
        ensures
            final(self).arrives_at(*tracker, old(self).at + 1),
            final(self).fits(*tracker),
            final(self).same_settings(*old(self)),
    {
        let n: usize = tracker.children.len();
        assert(self.at < n);
        self.at = self.at + 1;
        self.phase = if self.at < n {
            ReapPhase::Probe
        } else {
            ReapPhase::Finished
        };
    }

    fn remove<H>(&mut self, tracker: &mut AgentTracker<H>)
        requires
            old(self).at < old(tracker).children@.len(),
        ensures
            final(self).drops(*old(self), *old(tracker), *final(tracker)),
            final(self).fits(*final(tracker)),
            final(self).same_settings(*old(self)),
    {
        let _ = tracker.children.remove(self.at);
        self.phase = if self.at < tracker.children.len() {
            ReapPhase::Probe
        } else {
            ReapPhase::Finished
        };
    }

    /// Begins a pass with the first child.
    pub fn start<H>(tracker: &AgentTracker<H>, budget_secs: u64, has_store: bool) -> (pass: Self)
        ensures
            pass.arrives_at(*tracker, 0),
            pass.fits(*tracker),
            pass.budget_secs == budget_secs,
            pass.has_store == has_store,
    {
        let phase = if 0 < tracker.children.len() {
            ReapPhase::Probe
        } else {
            ReapPhase::Finished
        };
        ReapPass { at: 0, phase, budget_secs, has_store }
    }

    /// Takes in whether the child has exited.
    pub fn on_probed<H>(&mut self, tracker: &AgentTracker<H>, probe: Probe)
        requires
            old(self).phase == ReapPhase::Probe,
            old(self).fits(*tracker),
        ensures
            reap_steps(*old(self), *tracker, ReapEvent::Probed(probe), *final(self), *tracker),
    {
        match probe {
            Probe::Failed => self.keep(tracker),
            Probe::Running => {
                self.phase = ReapPhase::CheckTurn;
            },
            Probe::Exited { success } => {
                self.phase = ReapPhase::Release { success };
            },
        }
    }

    /// Takes in what is known of the wake attempt of a running child, which
    /// was spawned `elapsed_nanos` ago.
    pub fn on_turn_checked_at<H>(
        &mut self,
        tracker: &AgentTracker<H>,
        lookup: AttemptLookup,
        elapsed_nanos: u128,
    )
        requires
            old(self).phase == ReapPhase::CheckTurn,
            old(self).fits(*tracker),
        ensures
            reap_steps(
                *old(self),
                *tracker,
                (ReapEvent::TurnChecked { lookup, elapsed_nanos }),
                *final(self),
                *tracker,
            ),
    {
        let over = match lookup {
            AttemptLookup::Found { exit_observed } => exit_observed,
            _ => false,
        };
        let limit: u128 = (self.budget_secs as u128) * NANOS_PER_SEC;
        if over {
            self.phase = ReapPhase::Kill { wedged: false };
        } else if self.budget_secs > 0 && elapsed_nanos >= limit {
            self.phase = ReapPhase::Kill { wedged: true };
        } else {
            self.keep(tracker);
        }
    }

    /// Takes in what is known of the wake attempt of a running child. The
    /// clock says how long ago it was spawned; see
    /// [`ReapPass::on_turn_checked_at`].
    pub fn on_turn_checked<H>(&mut self, tracker: &AgentTracker<H>, lookup: AttemptLookup)
        requires
            old(self).phase == ReapPhase::CheckTurn,
            old(self).fits(*tracker),
        ensures
            exists|elapsed_nanos: u128|
                is_elapsed(
                    tracker.children@[old(self).at as int].spawn_instant,
                    elapsed_nanos,
                ) && #[trigger] reap_steps(
                    *old(self),
                    *tracker,
                    (ReapEvent::TurnChecked { lookup, elapsed_nanos }),
                    *final(self),
                    *tracker,
                ),
    {
        let elapsed: u128 = elapsed_nanos(&tracker.children[self.at].spawn_instant);
        self.on_turn_checked_at(tracker, lookup, elapsed);
    }

    /// Takes in whether the child was killed.
    pub fn on_killed<H>(&mut self, tracker: &mut AgentTracker<H>, killed: bool)
        requires
            old(self).phase is Kill,
            old(self).fits(*old(tracker)),
        ensures
            reap_steps(
                *old(self),
                *old(tracker),
                ReapEvent::Killed(killed),
                *final(self),
                *final(tracker),
            ),
    {
        let at: usize = self.at;
        let wedged = match self.phase {
            ReapPhase::Kill { wedged } => wedged,
            _ => false,
        };
        if !killed {
            self.keep(tracker);
        } else if wedged {
            let mut reason = "session_budget_exceeded (".to_string();
            push_decimal(&mut reason, self.budget_secs);
            reason.append("s)");
            tracker.children[at].budget_exceeded_reason = Some(reason);
            self.phase = ReapPhase::Release { success: false };
        } else {
            self.phase = ReapPhase::Release { success: true };
        }
    }

    /// Takes in that the lock and the leases were released, or that releasing
    /// them failed: a lease that stays ages out.
    pub fn on_released<H>(&mut self, tracker: &mut AgentTracker<H>)
        requires
            old(self).phase is Release,
            old(self).fits(*old(tracker)),
        ensures
            reap_steps(
                *old(self),
                *old(tracker),
                ReapEvent::Released,
                *final(self),
                *final(tracker),
            ),
    {
        let success = match self.phase {
            ReapPhase::Release { success } => success,
            _ => false,
        };
        if !self.has_store {
            self.remove(tracker);
            return;
        }
        let c = &tracker.children[self.at];
        self.phase = if c.submit_failed_reason.is_some() || c.budget_exceeded_reason.is_some() {
            ReapPhase::Record { verdict: Verdict::Terminal }
        } else if !success {
            ReapPhase::Record { verdict: Verdict::Errored }
        } else {
            ReapPhase::Classify
        };
    }

    /// Takes in whether the session was productive; `None` where that could
    /// not be told.
    pub fn on_classified<H>(&mut self, tracker: &mut AgentTracker<H>, productive: Option<bool>)
        requires
            old(self).phase == ReapPhase::Classify,
            old(self).fits(*old(tracker)),
        ensures
            reap_steps(
                *old(self),
                *old(tracker),
                ReapEvent::Classified(productive),
                *final(self),
                *final(tracker),
            ),
    {
        match productive {
            Some(p) => {
                let verdict = if p {
                    Verdict::Productive
                } else {
                    Verdict::Unproductive
                };
                self.phase = ReapPhase::Record { verdict };
            },
            None => self.remove(tracker),
        }
    }

    /// The rows to write for the child at the cursor. A session that never
    /// became one gets no row of its own, and its wake attempt is settled with
    /// its own reason.
    pub fn record_plan<H>(&self, tracker: &AgentTracker<H>) -> (plan: RecordPlan)
        requires
            self.phase is Record,
            self.fits(*tracker),
        ensures
            ({
                let c = tracker.children@[self.at as int];
                let verdict = self.phase->verdict;
                &&& plan.attempt_row == (c.attempt_id is Some)
                &&& plan.session_row == (verdict != Verdict::Terminal)
                &&& plan.exit_status@ == (if verdict == Verdict::Productive || verdict
                    == Verdict::Unproductive {
                    "ok"@
                } else {
                    "error"@
                })
                &&& plan.outcome@ == (match verdict {
                    Verdict::Terminal => terminal_reason(c)->0,
                    Verdict::Errored => "errored"@,
                    Verdict::Productive => "productive"@,
                    Verdict::Unproductive => "unproductive"@,
                })
            }),
    {
        let c = &tracker.children[self.at];
        let verdict = match self.phase {
            ReapPhase::Record { verdict } => verdict,
            _ => Verdict::Errored,
        };
        let outcome = match verdict {
            Verdict::Terminal => match &c.submit_failed_reason {
                Some(reason) => reason.clone(),
                None => match &c.budget_exceeded_reason {
                    Some(reason) => reason.clone(),
                    None => String::new(),
                },
            },
            Verdict::Errored => "errored".to_string(),
            Verdict::Productive => "productive".to_string(),
            Verdict::Unproductive => "unproductive".to_string(),
        };
        let ok = verdict == Verdict::Productive || verdict == Verdict::Unproductive;
        RecordPlan {
            session_row: verdict != Verdict::Terminal,
            attempt_row: c.attempt_id.is_some(),
            exit_status: if ok {
                "ok".to_string()
            } else {
                "error".to_string()
            },
            outcome,
        }
    }

    /// Takes in that the rows were written, and whether the outcome of the
    /// wake attempt was settled by this write.
    pub fn on_recorded<H>(&mut self, tracker: &mut AgentTracker<H>, attempt_settled: bool)
        requires
            old(self).phase is Record,
            old(self).fits(*old(tracker)),
        ensures
            reap_steps(
                *old(self),
                *old(tracker),
                (ReapEvent::Recorded { attempt_settled }),
                *final(self),
                *final(tracker),
            ),
    {
        let failed = match self.phase {
            ReapPhase::Record { verdict } => verdict == Verdict::Terminal || verdict
                == Verdict::Errored,
            _ => false,
        };
        if failed && attempt_settled && tracker.children[self.at].attempt_id.is_some() {
            self.phase = ReapPhase::Rearm;
        } else {
            self.remove(tracker);
        }
    }

    /// Takes in that the signals were re-armed or abandoned.
    pub fn on_rearmed<H>(&mut self, tracker: &mut AgentTracker<H>)
        requires
            old(self).phase == ReapPhase::Rearm,
            old(self).fits(*old(tracker)),
        ensures
            reap_steps(
                *old(self),
                *old(tracker),
                ReapEvent::Rearmed,
                *final(self),
                *final(tracker),
            ),
    {
        self.remove(tracker);
    }
}

/// How far a phase is from the end of dealing with a child.
pub open spec fn reap_rank(phase: ReapPhase) -> nat {
    match phase {
        ReapPhase::Probe => 7,
        ReapPhase::CheckTurn => 6,
        ReapPhase::Kill { .. } => 5,
        ReapPhase::Release { .. } => 4,
        ReapPhase::Classify => 3,
        ReapPhase::Record { .. } => 2,
        ReapPhase::Rearm => 1,
        ReapPhase::Finished => 0,
    }
}

/// A reap pass comes to an end: with every step either fewer children are
/// left to see to, or the one at the cursor is closer to being done with.
pub proof fn law_reap_pass_ends<H>(
    p: ReapPass,
    t: AgentTracker<H>,
    event: ReapEvent,
    p2: ReapPass,
    t2: AgentTracker<H>,
)
    requires
        p.fits(t),
        answers(p.phase, event),
        reap_steps(p, t, event, p2, t2),
    ensures
        t2.children@.len() - p2.at <= t.children@.len() - p.at,
        t2.children@.len() - p2.at < t.children@.len() - p.at || reap_rank(p2.phase) < reap_rank(
            p.phase,
        ),
{
}

/// Whether the child at the cursor is being closed.
pub open spec fn is_closing(phase: ReapPhase) -> bool {
    phase is Release || phase is Classify || phase is Record || phase is Rearm
}

/// Whether an event answers what a phase asks.
pub open spec fn answers(phase: ReapPhase, event: ReapEvent) -> bool {
    match event {
        ReapEvent::Probed(_) => phase is Probe,
        ReapEvent::TurnChecked { .. } => phase is CheckTurn,
        ReapEvent::Killed(_) => phase is Kill,
        ReapEvent::Released => phase is Release,
        ReapEvent::Classified(_) => phase is Classify,
        ReapEvent::Recorded { .. } => phase is Record,
        ReapEvent::Rearmed => phase is Rearm,
    }
}

/// A live session is never dropped. Tracking of a child ends only once it is
/// being closed, and closing begins only when it has exited or was killed.
pub proof fn law_only_ended_sessions_are_dropped<H>(
    p: ReapPass,
    t: AgentTracker<H>,
    event: ReapEvent,
    p2: ReapPass,
    t2: AgentTracker<H>,
)
    requires
        p.fits(t),
        answers(p.phase, event),
        reap_steps(p, t, event, p2, t2),
    ensures
        t2.children@.len() < t.children@.len() ==> is_closing(p.phase),
        is_closing(p2.phase) && !is_closing(p.phase) ==> event matches ReapEvent::Probed(
            Probe::Exited { .. },
        ) || event == ReapEvent::Killed(true),
{
}

/// Signals are re-armed or abandoned only where the outcome of a failed
/// session was settled by this very write, and the child is dropped right
/// after: no failure is accounted for twice.
pub proof fn law_failures_are_redelivered_once<H>(
    p: ReapPass,
    t: AgentTracker<H>,
    event: ReapEvent,
    p2: ReapPass,
    t2: AgentTracker<H>,
)
    requires
        p.fits(t),
        answers(p.phase, event),
        reap_steps(p, t, event, p2, t2),
    ensures
        p2.phase == ReapPhase::Rearm ==> {
            &&& event == (ReapEvent::Recorded { attempt_settled: true })
            &&& p.phase == (ReapPhase::Record { verdict: Verdict::Terminal }) || p.phase == (
            ReapPhase::Record { verdict: Verdict::Errored })
            &&& t.children@[p.at as int].attempt_id is Some
        },
        p.phase == ReapPhase::Rearm ==> t2.children@ == t.children@.remove(p.at as int),
{
}

/// One step of the reaper touches no child but the one at the cursor: the
/// others stay tracked, unchanged and in order.
pub proof fn law_reaping_leaves_other_sessions_alone<H>(
    p: ReapPass,
    t: AgentTracker<H>,
    event: ReapEvent,
    p2: ReapPass,
    t2: AgentTracker<H>,
)
    requires
        p.fits(t),
        answers(p.phase, event),
        reap_steps(p, t, event, p2, t2),
    ensures
        t2.children@.take(p.at as int) == t.children@.take(p.at as int),
        t2.children@.len() == t.children@.len() || t2.children@.len() == t.children@.len() - 1,
        t2.children@.skip(p.at + t2.children@.len() - t.children@.len() + 1) == t.children@.skip(
            p.at + 1,
        ),
{
    let n = t.children@.len();
    assert(t2.children@.take(p.at as int) =~= t.children@.take(p.at as int));
    assert(t2.children@.skip(p.at + t2.children@.len() - n + 1) =~= t.children@.skip(p.at + 1));
}

/// A turn that started confirms, whatever else holds. Without one the prompt
/// is given up as soon as the retries or the time are used up. Until then the
/// submit key goes out at once, and again each time the interval has passed.
pub proof fn law_submit_is_retried_until_it_is_given_up(
    turn_started: bool,
    retries: u32,
    max: u32,
    spawn_elapsed_nanos: u128,
    budget_secs: u64,
    last_enter_nanos: Option<u128>,
    interval_secs: u64,
    action: SubmitAction,
)
    requires
        call_ensures(
            submit_action,
            (
                turn_started,
                retries,
                max,
                spawn_elapsed_nanos,
                budget_secs,
                last_enter_nanos,
                interval_secs,
            ),
            action,
        ),
    ensures
        ({
            let used_up = retries >= max || spawn_elapsed_nanos >= 1_000_000_000 * budget_secs;
            let due = last_enter_nanos is None || last_enter_nanos->0 >= 1_000_000_000
                * interval_secs;
            &&& action == SubmitAction::Confirm <==> turn_started
            &&& action == SubmitAction::Fail <==> !turn_started && used_up
            &&& action == SubmitAction::Send <==> !turn_started && !used_up && due
            &&& action == SubmitAction::Wait <==> !turn_started && !used_up && !due
        }),
{
}

/// The submit confirmation reaches every child that needs it: where, from the
/// place it starts from, a child is interactive, has a wake attempt and is
/// neither confirmed nor given up, the pass stops at the first of these.
pub proof fn law_submit_pass_reaches_every_unconfirmed<H>(
    pass: SubmitPass,
    tracker: AgentTracker<H>,
    from: int,
    k: int,
)
    requires
        0 <= from <= k <= tracker.children@.len(),
        pass.stands_at_next(tracker, from),
        forall|j: int|
            from <= j < k ==> {
                let c = #[trigger] tracker.children@[j];
                c.submit_confirmed || c.submit_failed_reason is Some || c.mode != SpawnMode::Pty
                    || c.attempt_id is None
            },
        k < tracker.children@.len() ==> ({
            let c = tracker.children@[k];
            !c.submit_confirmed && c.submit_failed_reason is None && c.mode == SpawnMode::Pty
                && c.attempt_id is Some
        }),
    ensures
        pass.at == k,
        k < tracker.children@.len() ==> pass.phase == SubmitPhase::Observe,
        k == tracker.children@.len() ==> pass.phase == SubmitPhase::Finished,
{
    lemma_next_awaiting(tracker.children@, from);
    let next = next_awaiting(tracker.children@, from);
    if next < k {
        assert(awaits_submit(tracker.children@[next]));
    } else if k < next {
        assert(!awaits_submit(tracker.children@[k]));
    }
}

/// What the submit confirmation makes of a child: one whose turn started is
/// confirmed, one that is given up says how often it was tried and is killed,
/// and one that waits or is sent the key is left as it is. No other child is
/// touched.
pub proof fn law_submit_pass_settles_a_child<H>(
    pass: SubmitPass,
    tracker: AgentTracker<H>,
    turn_started: bool,
    spawn_elapsed_nanos: u128,
    last_enter_nanos: Option<u128>,
    next: SubmitPass,
    next_tracker: AgentTracker<H>,
)
    requires
        pass.phase == SubmitPhase::Observe,
        pass.fits(tracker),
        pass.observes(
            tracker,
            turn_started,
            spawn_elapsed_nanos,
            last_enter_nanos,
            next,
            next_tracker,
        ),
    ensures
        ({
            let at = pass.at as int;
            let c = tracker.children@[at];
            let c2 = next_tracker.children@[at];
            let used_up = c.submit_retries >= pass.limits.retry_max || spawn_elapsed_nanos
                >= 1_000_000_000 * pass.limits.confirm_budget_secs;
            let due = last_enter_nanos is None || last_enter_nanos->0 >= 1_000_000_000
                * pass.limits.retry_interval_secs;
            &&& next_tracker.children@.len() == tracker.children@.len()
            &&& forall|j: int|
                0 <= j < tracker.children@.len() && j != at ==> #[trigger] next_tracker.children@[j]
                    == tracker.children@[j]
            &&& turn_started ==> next.phase == SubmitPhase::Confirmed && next.at == at
                && c2.submit_confirmed && c2.submit_failed_reason == c.submit_failed_reason
            &&& !turn_started && used_up ==> next.phase == SubmitPhase::Kill && next.at == at
                && c2.submit_confirmed == c.submit_confirmed && (
            c2.submit_failed_reason matches Some(why) && why@ == "submit_not_confirmed (retries="@
                + decimal(c.submit_retries as nat) + ")"@)
            &&& !turn_started && !used_up && due ==> next.phase == SubmitPhase::Send && next.at == at
                && c2 == c
            &&& !turn_started && !used_up && !due ==> next.at > at && c2 == c
        }),
{
    lemma_next_awaiting(next_tracker.children@, pass.at + 1);
}

/// A running session is killed exactly if its turn was seen to end, or its
/// budget is not zero and used up. Any other is left alone, and the pass goes
/// on behind it.
pub proof fn law_running_session_is_killed_only_for_cause<H>(
    p: ReapPass,
    t: AgentTracker<H>,
    lookup: AttemptLookup,
    elapsed_nanos: u128,
    p2: ReapPass,
    t2: AgentTracker<H>,
)
    requires
        p.fits(t),
        p.phase == ReapPhase::CheckTurn,
        reap_steps(p, t, (ReapEvent::TurnChecked { lookup, elapsed_nanos }), p2, t2),
    ensures
        ({
            let ended = lookup matches AttemptLookup::Found { exit_observed } && exit_observed;
            let wedged = p.budget_secs > 0 && elapsed_nanos >= 1_000_000_000 * p.budget_secs;
            &&& t2 == t
            &&& p2.phase == (ReapPhase::Kill { wedged: false }) <==> ended
            &&& p2.phase == (ReapPhase::Kill { wedged: true }) <==> !ended && wedged
            &&& ended || wedged ==> p2.at == p.at
            &&& !ended && !wedged ==> p2.at == p.at + 1 && (p2.phase == ReapPhase::Probe || p2.phase
                == ReapPhase::Finished)
        }),
{
}

/// What becomes of a child that was asked whether it has exited: one that
/// could not be asked is kept, a running one is looked at more closely, and one
/// that exited is closed with its own success.
pub proof fn law_exited_session_is_closed<H>(
    p: ReapPass,
    t: AgentTracker<H>,
    probe: Probe,
    p2: ReapPass,
    t2: AgentTracker<H>,
)
    requires
        p.fits(t),
        p.phase == ReapPhase::Probe,
        reap_steps(p, t, ReapEvent::Probed(probe), p2, t2),
    ensures
        t2 == t,
        probe == Probe::Failed ==> p2.at == p.at + 1,
        probe == Probe::Running ==> p2.at == p.at && p2.phase == ReapPhase::CheckTurn,
        probe matches Probe::Exited { success } ==> p2.at == p.at && p2.phase == (
        ReapPhase::Release { success }),
{
}

/// A session that was killed for its budget counts as failed and says which
/// budget it was; one whose turn had ended counts as a success. One that could
/// not be killed is kept as it is.
pub proof fn law_wedged_session_says_why<H>(
    p: ReapPass,
    t: AgentTracker<H>,
    wedged: bool,
    killed: bool,
    p2: ReapPass,
    t2: AgentTracker<H>,
)
    requires
        p.fits(t),
        p.phase == (ReapPhase::Kill { wedged }),
        reap_steps(p, t, ReapEvent::Killed(killed), p2, t2),
    ensures
        !killed ==> t2 == t && p2.at == p.at + 1,
        killed && !wedged ==> t2 == t && p2.phase == (ReapPhase::Release { success: true }),
        killed && wedged ==> p2.phase == (ReapPhase::Release { success: false }) && (
        t2.children@[p.at as int].budget_exceeded_reason matches Some(why) && why@
            == "session_budget_exceeded ("@ + decimal(p.budget_secs as nat) + "s)"@),
{
}

/// How a closed session is judged, where there is a store: by its own reason
/// if it has one, as errored if it failed, and else by what it did. One that
/// cannot be judged is dropped without a record, and so is every one where
/// there is no store.
pub proof fn law_closed_session_is_judged_once<H>(
    p: ReapPass,
    t: AgentTracker<H>,
    event: ReapEvent,
    p2: ReapPass,
    t2: AgentTracker<H>,
)
    requires
        p.fits(t),
        answers(p.phase, event),
        reap_steps(p, t, event, p2, t2),
    ensures
        ({
            let c = t.children@[p.at as int];
            let given_up = c.submit_failed_reason is Some || c.budget_exceeded_reason is Some;
            &&& event == ReapEvent::Released && !p.has_store ==> t2.children@ == t.children@.remove(
                p.at as int,
            )
            &&& event == ReapEvent::Released && p.has_store ==> {
                &&& t2 == t
                &&& p2.phase == (ReapPhase::Record { verdict: Verdict::Terminal }) <==> given_up
                &&& p2.phase == (ReapPhase::Record { verdict: Verdict::Errored }) <==> !given_up
                    && p.phase == (ReapPhase::Release { success: false })
                &&& p2.phase == ReapPhase::Classify <==> !given_up && p.phase == (
                ReapPhase::Release { success: true })
            }
            &&& event == ReapEvent::Classified(None) ==> t2.children@ == t.children@.remove(
                p.at as int,
            )
            &&& event == ReapEvent::Classified(Some(true)) ==> p2.phase == (ReapPhase::Record {
                verdict: Verdict::Productive,
            }) && t2 == t
            &&& event == ReapEvent::Classified(Some(false)) ==> p2.phase == (ReapPhase::Record {
                verdict: Verdict::Unproductive,
            }) && t2 == t
        }),
{
}

/// A failed session whose wake attempt was settled by this write has its
/// signals seen to before it is dropped; every other session is dropped as
/// soon as it is recorded.
pub proof fn law_settled_failure_is_seen_to<H>(
    p: ReapPass,
    t: AgentTracker<H>,
    attempt_settled: bool,
    p2: ReapPass,
    t2: AgentTracker<H>,
)
    requires
        p.fits(t),
        p.phase is Record,
        reap_steps(p, t, (ReapEvent::Recorded { attempt_settled }), p2, t2),
    ensures
        ({
            let verdict = p.phase->verdict;
            let seen_to = attempt_settled && t.children@[p.at as int].attempt_id is Some
                && verdict != Verdict::Productive && verdict != Verdict::Unproductive;
            &&& seen_to ==> p2.phase == ReapPhase::Rearm && p2.at == p.at && t2 == t
            &&& !seen_to ==> t2.children@ == t.children@.remove(p.at as int)
        }),
{
}

/// What goes on record of a session: one that never became a session worth
/// classifying gets no row of its own, and its wake attempt gets the reason
/// that it carries, a submission that was given up going before a budget.
pub proof fn law_record_tells_the_outcome<H>(
    p: &ReapPass,
    t: &AgentTracker<H>,
    plan: RecordPlan,
)
    requires
        p.phase is Record,
        p.fits(*t),
        call_ensures(ReapPass::record_plan::<H>, (p, t), plan),
    ensures
        ({
            let c = t.children@[p.at as int];
            let verdict = p.phase->verdict;
            &&& plan.attempt_row <==> c.attempt_id is Some
            &&& plan.session_row <==> verdict != Verdict::Terminal
            &&& verdict == Verdict::Terminal ==> plan.exit_status@ == "error"@ && (if let Some(why) =
                c.submit_failed_reason {
                plan.outcome@ == why@
            } else {
                c.budget_exceeded_reason matches Some(why) ==> plan.outcome@ == why@
            })
            &&& verdict == Verdict::Errored ==> plan.exit_status@ == "error"@ && plan.outcome@
                == "errored"@
            &&& verdict == Verdict::Productive ==> plan.exit_status@ == "ok"@ && plan.outcome@
                == "productive"@
            &&& verdict == Verdict::Unproductive ==> plan.exit_status@ == "ok"@ && plan.outcome@
                == "unproductive"@
        }),
{
}

/// A submit key that went out counts once, and its time is kept; one that
/// could not be sent does not count, says how often it had been tried, and has
/// the session killed. No other session is touched.
pub proof fn law_submit_key_counts_once<H>(
    pass: &mut SubmitPass,
    tracker: &mut AgentTracker<H>,
    sent: bool,
)
    requires
        old(pass).phase == SubmitPhase::Send,
        old(pass).fits(*old(tracker)),
        call_ensures(SubmitPass::on_sent::<H>, (pass, tracker, sent), ()),
    ensures
        ({
            let at = old(pass).at as int;
            let c = old(tracker).children@[at];
            let c2 = final(tracker).children@[at];
            &&& final(tracker).children@.len() == old(tracker).children@.len()
            &&& forall|j: int|
                0 <= j < old(tracker).children@.len() && j != at
                    ==> #[trigger] final(tracker).children@[j] == old(tracker).children@[j]
            &&& sent ==> c2.submit_retries == c.submit_retries + 1 && c2.last_submit_enter is Some
                && c2.submit_failed_reason == c.submit_failed_reason && final(pass).at > at
            &&& !sent ==> c2.submit_retries == c.submit_retries && c2.last_submit_enter
                == c.last_submit_enter && final(pass).phase == SubmitPhase::Kill && final(pass).at
                == at && (c2.submit_failed_reason matches Some(why) && why@
                == "submit_send_failed (retries="@ + decimal(c.submit_retries as nat) + ")"@)
        }),
{
    lemma_next_awaiting(final(tracker).children@, old(pass).at + 1);
}

/// A session that is tracked stands behind those that are, which stay as they
/// are; nothing was sent to it yet, and nothing is settled.
pub proof fn law_tracked_session_starts_unsettled<H>(
    tracker: &mut AgentTracker<H>,
    repo: String,
    child: H,
    mode: SpawnMode,
    held_leases: Vec<(String, String)>,
    host: String,
    session_id: String,
    spawn_at: String,
    signal_ids: Vec<String>,
    attempt_id: Option<String>,
)
    requires
        call_ensures(
            AgentTracker::<H>::track,
            (
                tracker,
                repo,
                child,
                mode,
                held_leases,
                host,
                session_id,
                spawn_at,
                signal_ids,
                attempt_id,
            ),
            (),
        ),
    ensures
        ({
            let c = final(tracker).children@.last();
            &&& final(tracker).children@.len() == old(tracker).children@.len() + 1
            &&& final(tracker).children@.drop_last() == old(tracker).children@
            &&& c.repo == repo && c.child == child && c.mode == mode
            &&& c.held_leases == held_leases && c.host == host
            &&& c.signal_ids == signal_ids && c.attempt_id == attempt_id
            &&& c.submit_retries == 0 && !c.submit_confirmed && c.last_submit_enter is None
            &&& c.submit_failed_reason is None && c.budget_exceeded_reason is None
        }),
{
    let c = final(tracker).children@.last();
    assert(old(tracker).children@.push(c).drop_last() =~= old(tracker).children@);
}

} // verus!
