//! The sweeps of the health tick: wake attempts whose process died,
//! redelivery of their signals, stale delegations and due deferrals.
use vstd::prelude::*;
use crate::number::{decimal, push_decimal};
use crate::scan::{is_word, texts};
use crate::signal::{
    format_signal, is_plain_recipient, law_written_signal_is_read_back, pair_text, recipients_of,
    signal_text,
};
use crate::signals::wake_worthy;
use crate::verbs::VerbManifest;

verus! {

broadcast use vstd::seq_lib::group_seq_properties;

// -- Dead processes ----------------------------------------------------------

/// A wake attempt of this host that is in flight.
#[derive(Debug)]
pub struct OrphanAttempt {
    pub attempt_id: String,
    pub repo_name: String,
    pub spawned_pid: Option<u32>,
    pub signal_ids: Vec<String>,
}

/// The outcome recorded for an attempt whose process died.
pub const DEAD_PID_OUTCOME: &'static str = "dead-pid: process not found at reaper scan";

/// Whether an attempt is to be settled as failed: its process is known and
/// does not run. One without a process id is still on its way.
pub open spec fn is_dead(orphan: OrphanAttempt, alive: bool) -> bool {
    orphan.spawned_pid is Some && !alive
}

/// The positions below `n` at which `p` holds, in order.
pub open spec fn positions_where(n: int, p: spec_fn(int) -> bool) -> Seq<int>
    decreases n,
{
    if n <= 0 {
        Seq::empty()
    } else {
        let before = positions_where(n - 1, p);
        if p(n - 1) {
            before.push(n - 1)
        } else {
            before
        }
    }
}

/// Positions as mathematical integers.
pub open spec fn as_ints(at: Seq<usize>) -> Seq<int> {
    at.map_values(|i: usize| i as int)
}

/// A position is listed exactly where the condition holds.
pub proof fn lemma_positions_where(n: int, p: spec_fn(int) -> bool, i: int)
    ensures
        positions_where(n, p).contains(i) <==> 0 <= i < n && p(i),
    decreases n,
{
    if n > 0 {
        lemma_positions_where(n - 1, p, i);
        let before = positions_where(n - 1, p);
        let after = positions_where(n, p);
        if p(n - 1) {
            assert(after.last() == n - 1);
            if before.contains(i) {
                let k = choose|k: int| 0 <= k < before.len() && before[k] == i;
                assert(after[k] == i);
            }
            if after.contains(i) && i != n - 1 {
                let k = choose|k: int| 0 <= k < after.len() && after[k] == i;
                assert(before[k] == i);
            }
        }
    }
}

/// The attempts whose process died: where `is_dead` holds.
pub open spec fn dead_at(orphans: Seq<OrphanAttempt>, alive: Seq<bool>) -> spec_fn(int) -> bool {
    |i: int| is_dead(orphans[i], alive[i])
}

/// The positions of the attempts to settle as failed, `alive[i]` saying
/// whether the process of attempt `i` runs.
pub fn reap_dead_pid_attempts(orphans: &[OrphanAttempt], alive: &[bool]) -> (at: Vec<usize>)
    requires
        orphans@.len() == alive@.len(),
    ensures
        as_ints(at@) == positions_where(orphans@.len() as int, dead_at(orphans@, alive@)),
{
    let mut at: Vec<usize> = Vec::new();
    let ghost p = dead_at(orphans@, alive@);
    assert(as_ints(at@) =~= positions_where(0, p));
    for i in 0..orphans.len()
        invariant
            orphans@.len() == alive@.len(),
            p == dead_at(orphans@, alive@),
            as_ints(at@) == positions_where(i as int, p),
    {
        if orphans[i].spawned_pid.is_some() && !alive[i] {
            let ghost before = at@;
            at.push(i);
            assert(as_ints(at@) =~= as_ints(before).push(i as int));
        }
    }
    at
}

// -- Redelivery --------------------------------------------------------------

/// What became of a signal whose wake attempt failed.
#[derive(Debug, Clone, Copy, PartialEq, Eq, Structural)]
pub enum RedeliveryOutcome {
    /// It is pending again.
    Rearmed,
    /// It was tried as often as allowed and stays handled.
    Exhausted { attempts: u32 },
}

/// The post about a signal that is given up.
pub open spec fn abandonment_post(
    signal_id: Seq<char>,
    repo_name: Seq<char>,
    attempts: u32,
    max_attempts: u32,
    attempt_id: Seq<char>,
) -> Seq<char> {
    "redelivery ABANDONED: signal "@ + signal_id + " for "@ + repo_name + " exhausted "@ + decimal(
        attempts as nat,
    ) + " \
             delivery attempts (cap "@ + decimal(max_attempts as nat) + ") -- wake_attempt "@
        + attempt_id + " settled failed; \
             signal stays permanently handled for this repo"@
}

/// The posts about the signals that are given up, in order.
pub open spec fn abandonment_posts(
    outcomes: Seq<(String, RedeliveryOutcome)>,
    repo_name: Seq<char>,
    max_attempts: u32,
    attempt_id: Seq<char>,
) -> Seq<Seq<char>>
    decreases outcomes.len(),
{
    if outcomes.len() == 0 {
        Seq::empty()
    } else {
        let before = abandonment_posts(outcomes.drop_last(), repo_name, max_attempts, attempt_id);
        match outcomes.last().1 {
            RedeliveryOutcome::Exhausted { attempts } => before.push(
                abandonment_post(
                    outcomes.last().0@,
                    repo_name,
                    attempts,
                    max_attempts,
                    attempt_id,
                ),
            ),
            RedeliveryOutcome::Rearmed => before,
        }
    }
}

/// The posts that announce which signals of a failed wake attempt are given
/// up. A signal that is pending again calls for none.
pub fn rearm_or_abandon(
    outcomes: &[(String, RedeliveryOutcome)],
    attempt_id: &str,
    repo_name: &str,
    max_attempts: u32,
) -> (posts: Vec<String>)
    ensures
        texts(posts@) == abandonment_posts(
            outcomes@,
            repo_name@,
            max_attempts,
            attempt_id@,
        ),
{
    let mut posts: Vec<String> = Vec::new();
    assert(texts(posts@) =~= abandonment_posts(
        outcomes@.take(0),
        repo_name@,
        max_attempts,
        attempt_id@,
    ));
    for i in 0..outcomes.len()
        invariant
            texts(posts@) == abandonment_posts(
                outcomes@.take(i as int),
                repo_name@,
                max_attempts,
                attempt_id@,
            ),
    {
        assert(outcomes@.take(i + 1).drop_last() == outcomes@.take(i as int));
        assert(outcomes@.take(i + 1).last() == outcomes@[i as int]);
        match outcomes[i].1 {
            RedeliveryOutcome::Exhausted { attempts } => {
                let mut post = "redelivery ABANDONED: signal ".to_string();
                post.append(outcomes[i].0.as_str());
                post.append(" for ");
                post.append(repo_name);
                post.append(" exhausted ");
                push_decimal(&mut post, attempts as u64);
                post.append(
                    " \
             delivery attempts (cap ",
                );
                push_decimal(&mut post, max_attempts as u64);
                post.append(") -- wake_attempt ");
                post.append(attempt_id);
                post.append(
                    " settled failed; \
             signal stays permanently handled for this repo",
                );
                let ghost before = posts@;
                posts.push(post);
                assert(texts(posts@) =~= texts(before).push(post@));
            },
            RedeliveryOutcome::Rearmed => {},
        }
    }
    assert(outcomes@.take(outcomes@.len() as int) == outcomes@);
    posts
}

// -- Delegated work ----------------------------------------------------------

/// How long a delegation counts as live without a sign of life.
pub const DELEGATION_STALE_AFTER_SECS: u64 = 120;

/// The delegations to clear: those that name a work item of which it is known
/// that it is not live. One whose liveness could not be told is left alone.
pub open spec fn stale_at(items: Seq<Option<String>>, live: Seq<Option<bool>>) -> spec_fn(
    int,
) -> bool {
    |i: int| items[i] is Some && live[i] == Some(false)
}

/// The positions of the delegations to clear. `items[i]` is the work item that
/// attempt `i` is linked to, and `live[i]` whether it is live, where that
/// could be told.
pub fn reap_delegated_work(items: &[Option<String>], live: &[Option<bool>]) -> (at: Vec<usize>)
    requires
        items@.len() == live@.len(),
    ensures
        as_ints(at@) == positions_where(items@.len() as int, stale_at(items@, live@)),
{
    let mut at: Vec<usize> = Vec::new();
    let ghost p = stale_at(items@, live@);
    assert(as_ints(at@) =~= positions_where(0, p));
    for i in 0..items.len()
        invariant
            items@.len() == live@.len(),
            p == stale_at(items@, live@),
            as_ints(at@) == positions_where(i as int, p),
    {
        let gone = match live[i] {
            Some(l) => !l,
            None => false,
        };
        if items[i].is_some() && gone {
            let ghost before = at@;
            at.push(i);
            assert(as_ints(at@) =~= as_ints(before).push(i as int));
        }
    }
    at
}

// -- Deferred work -----------------------------------------------------------

/// The note of the signal that brings a deferred work item back.
pub open spec fn deferral_note(work_item_id: Seq<char>) -> Seq<char> {
    "deferred work item "@ + work_item_id + " is back (wake_at reached)"@
}

/// The signal that brings a deferred work item back to its repo.
pub open spec fn deferral_signal(repo: Seq<char>, work_item_id: Seq<char>) -> Seq<char> {
    signal_text(repo, "routing"@, None, Some(deferral_note(work_item_id)), Seq::empty())
}

/// A deferred work item and the repo that owns it.
#[derive(Debug)]
pub struct Deferral {
    pub work_item_id: String,
    pub repo: String,
}

/// The signals for the deferrals that were cleared, in order.
pub open spec fn deferral_signals(due: Seq<Deferral>, cleared: Seq<bool>) -> Seq<Seq<char>>
    decreases due.len(),
{
    if due.len() == 0 {
        Seq::empty()
    } else {
        let before = deferral_signals(due.drop_last(), cleared);
        if cleared[due.len() - 1] {
            before.push(deferral_signal(due.last().repo@, due.last().work_item_id@))
        } else {
            before
        }
    }
}

fn write_deferral_signal(deferral: &Deferral) -> (text: String)
    ensures
        text@ == deferral_signal(deferral.repo@, deferral.work_item_id@),
{
    let mut note = "deferred work item ".to_string();
    note.append(deferral.work_item_id.as_str());
    note.append(" is back (wake_at reached)");
    let none: Vec<(String, String)> = Vec::new();
    assert(none@.map_values(|p: (String, String)| pair_text(p)) =~= Seq::empty());
    format_signal(deferral.repo.as_str(), "routing", None, Some(note.as_str()), none.as_slice())
}

/// Writes the signals that bring due work items back to their repos.
/// `cleared[i]` says whether deferral `i` was cleared; one that was not stays,
/// and is not announced. The signals are posted under the name of the host: a
/// signal that a repo posts itself never wakes that repo.
pub fn reap_deferred_work_items(due: &[Deferral], cleared: &[bool]) -> (signals: Vec<String>)
    requires
        due@.len() == cleared@.len(),
    ensures
        texts(signals@) == deferral_signals(due@, cleared@),
{
    let mut signals: Vec<String> = Vec::new();
    assert(texts(signals@) =~= deferral_signals(due@.take(0), cleared@));
    for i in 0..due.len()
        invariant
            due@.len() == cleared@.len(),
            texts(signals@) == deferral_signals(due@.take(i as int), cleared@),
    {
        assert(due@.take(i + 1).drop_last() == due@.take(i as int));
        assert(due@.take(i + 1).last() == due@[i as int]);
        if cleared[i] {
            let text = write_deferral_signal(&due[i]);
            let ghost before = signals@;
            signals.push(text);
            assert(texts(signals@) =~= texts(before).push(text@));
        }
    }
    assert(due@.take(due@.len() as int) == due@);
    signals
}

/// The signal that brings a work item back is addressed to its repo alone, and
/// wakes it where `routing` is a verb that wakes.
pub proof fn law_deferral_signal_wakes_its_repo(
    manifest: VerbManifest,
    repo: Seq<char>,
    work_item_id: Seq<char>,
)
    requires
        is_plain_recipient(repo),
        manifest.wakes("routing"@),
    ensures
        recipients_of(deferral_signal(repo, work_item_id)) == seq![repo],
        wake_worthy(manifest, deferral_signal(repo, work_item_id)),
{
    reveal_strlit("routing");
    reveal_strlit("--");
    let verb = "routing"@;
    assert(is_word(verb));
    assert(!verb.contains(':'));
    law_written_signal_is_read_back(
        repo,
        verb,
        None,
        Some(deferral_note(work_item_id)),
        Seq::empty(),
    );
}

/// Exactly the attempts whose process is known and does not run are settled as
/// failed, and exactly the delegations that are known not to be live are
/// cleared.
pub proof fn law_exactly_the_dead_are_reaped(
    orphans: Seq<OrphanAttempt>,
    alive: Seq<bool>,
    items: Seq<Option<String>>,
    live: Seq<Option<bool>>,
    i: int,
)
    ensures
        positions_where(orphans.len() as int, dead_at(orphans, alive)).contains(i) <==> 0 <= i
            < orphans.len() && is_dead(orphans[i], alive[i]),
        positions_where(items.len() as int, stale_at(items, live)).contains(i) <==> 0 <= i
            < items.len() && items[i] is Some && live[i] == Some(false),
{
    lemma_positions_where(orphans.len() as int, dead_at(orphans, alive), i);
    lemma_positions_where(items.len() as int, stale_at(items, live), i);
}

/// The sweep for dead processes tells, in order, each attempt whose process is
/// known and does not run, and no other.
pub proof fn law_sweep_tells_each_dead_attempt(
    orphans: &[OrphanAttempt],
    alive: &[bool],
    at: Vec<usize>,
)
    requires
        orphans@.len() == alive@.len(),
        call_ensures(reap_dead_pid_attempts, (orphans, alive), at),
    ensures
        forall|i: int|
            0 <= i < orphans@.len() ==> ((exists|k: int|
                0 <= k < at@.len() && #[trigger] at@[k] == i) <==> (
            #[trigger] orphans@[i]).spawned_pid is Some && !alive@[i]),
        forall|k: int| 0 <= k < at@.len() ==> #[trigger] at@[k] < orphans@.len(),
        forall|j: int, k: int| 0 <= j < k < at@.len() ==> #[trigger] at@[j] < #[trigger] at@[k],
{
    let p = dead_at(orphans@, alive@);
    lemma_positions_told(orphans@.len() as int, p, at@);
    assert forall|i: int| 0 <= i < orphans@.len() implies ((exists|k: int|
        0 <= k < at@.len() && #[trigger] at@[k] == i) <==> (
    #[trigger] orphans@[i]).spawned_pid is Some && !alive@[i]) by {
        assert(p(i) == (orphans@[i].spawned_pid is Some && !alive@[i]));
    }
}

proof fn lemma_positions_told(n: int, p: spec_fn(int) -> bool, at: Seq<usize>)
    requires
        n >= 0,
        as_ints(at) == positions_where(n, p),
    ensures
        forall|i: int|
            0 <= i < n ==> ((exists|k: int| 0 <= k < at.len() && #[trigger] at[k] == i)
                <==> #[trigger] p(i)),
        forall|k: int| 0 <= k < at.len() ==> #[trigger] at[k] < n,
        forall|j: int, k: int| 0 <= j < k < at.len() ==> #[trigger] at[j] < #[trigger] at[k],
{
    let all = positions_where(n, p);
    assert forall|i: int| 0 <= i < n implies ((exists|k: int|
        0 <= k < at.len() && #[trigger] at[k] == i) <==> #[trigger] p(i)) by {
        lemma_positions_where(n, p, i);
        if p(i) {
            let k = choose|k: int| 0 <= k < all.len() && all[k] == i;
            assert(as_ints(at)[k] == at[k]);
        }
        if exists|k: int| 0 <= k < at.len() && #[trigger] at[k] == i {
            let k = choose|k: int| 0 <= k < at.len() && #[trigger] at[k] == i;
            assert(as_ints(at)[k] == i);
            assert(all.contains(all[k]));
        }
    }
    assert forall|k: int| 0 <= k < at.len() implies #[trigger] at[k] < n by {
        assert(as_ints(at)[k] == at[k]);
        assert(all.contains(all[k]));
        lemma_positions_where(n, p, all[k]);
    }
    lemma_positions_increase(n, p);
    assert forall|j: int, k: int| 0 <= j < k < at.len() implies #[trigger] at[j] < #[trigger] at[k] by {
        assert(as_ints(at)[k] == at[k]);
        assert(as_ints(at)[j] == at[j]);
        assert(all[j] < all[k]);
    }
}

proof fn lemma_positions_increase(n: int, p: spec_fn(int) -> bool)
    ensures
        forall|j: int, k: int|
            0 <= j < k < positions_where(n, p).len() ==> #[trigger] positions_where(n, p)[j]
                < #[trigger] positions_where(n, p)[k],
    decreases n,
{
    if n > 0 {
        lemma_positions_increase(n - 1, p);
        let before = positions_where(n - 1, p);
        let after = positions_where(n, p);
        assert forall|j: int, k: int| 0 <= j < k < after.len() implies #[trigger] after[j]
            < #[trigger] after[k] by {
            assert(after[j] == before[j]);
            if k == before.len() {
                assert(before.contains(before[j]));
                lemma_positions_where(n - 1, p, before[j]);
            } else {
                assert(after[k] == before[k]);
            }
        }
    }
}

/// The sweep over delegations tells, in order, each that names a work item
/// known not to be live, and no other.
pub proof fn law_sweep_tells_each_stale_delegation(
    items: &[Option<String>],
    live: &[Option<bool>],
    at: Vec<usize>,
)
    requires
        items@.len() == live@.len(),
        call_ensures(reap_delegated_work, (items, live), at),
    ensures
        forall|i: int|
            0 <= i < items@.len() ==> ((exists|k: int|
                0 <= k < at@.len() && #[trigger] at@[k] == i) <==> #[trigger] items@[i] is Some
                && live@[i] == Some(false)),
        forall|k: int| 0 <= k < at@.len() ==> #[trigger] at@[k] < items@.len(),
        forall|j: int, k: int| 0 <= j < k < at@.len() ==> #[trigger] at@[j] < #[trigger] at@[k],
{
    let p = stale_at(items@, live@);
    lemma_positions_told(items@.len() as int, p, at@);
    assert forall|i: int| 0 <= i < items@.len() implies ((exists|k: int|
        0 <= k < at@.len() && #[trigger] at@[k] == i) <==> #[trigger] items@[i] is Some && live@[i]
        == Some(false)) by {
        assert(p(i) == (items@[i] is Some && live@[i] == Some(false)));
    }
}

/// Each signal that is given up gets a post of its own, in order, and a signal
/// that is pending again gets none. The post names the signal, the repo, how
/// often it was tried, the cap and the attempt.
pub proof fn law_each_signal_given_up_is_announced(
    before: Seq<(String, RedeliveryOutcome)>,
    outcome: (String, RedeliveryOutcome),
    after: Seq<(String, RedeliveryOutcome)>,
    repo_name: Seq<char>,
    max_attempts: u32,
    attempt_id: Seq<char>,
)
    ensures
        abandonment_posts(
            before.push(outcome) + after,
            repo_name,
            max_attempts,
            attempt_id,
        ) == abandonment_posts(before, repo_name, max_attempts, attempt_id) + (match outcome.1 {
            RedeliveryOutcome::Rearmed => Seq::empty(),
            RedeliveryOutcome::Exhausted { attempts } => seq![
                "redelivery ABANDONED: signal "@ + outcome.0@ + " for "@ + repo_name
                    + " exhausted "@ + decimal(attempts as nat) + " delivery attempts (cap "@
                    + decimal(max_attempts as nat) + ") -- wake_attempt "@ + attempt_id
                    + " settled failed; signal stays permanently handled for this repo"@,
            ],
        }) + abandonment_posts(after, repo_name, max_attempts, attempt_id),
    decreases after.len(),
{
    let whole = before.push(outcome) + after;
    let one = match outcome.1 {
        RedeliveryOutcome::Rearmed => Seq::empty(),
        RedeliveryOutcome::Exhausted { attempts } => seq![
            "redelivery ABANDONED: signal "@ + outcome.0@ + " for "@ + repo_name + " exhausted "@
                + decimal(attempts as nat) + " delivery attempts (cap "@ + decimal(
                max_attempts as nat,
            ) + ") -- wake_attempt "@ + attempt_id
                + " settled failed; signal stays permanently handled for this repo"@,
        ],
    };
    if after.len() == 0 {
        assert(whole =~= before.push(outcome));
        assert(whole.drop_last() =~= before);
    } else {
        law_each_signal_given_up_is_announced(
            before,
            outcome,
            after.drop_last(),
            repo_name,
            max_attempts,
            attempt_id,
        );
        assert(whole.drop_last() =~= before.push(outcome) + after.drop_last());
        assert(whole.last() == after.last());
    }
    assert(abandonment_posts(whole, repo_name, max_attempts, attempt_id) =~= abandonment_posts(
        before,
        repo_name,
        max_attempts,
        attempt_id,
    ) + one + abandonment_posts(after, repo_name, max_attempts, attempt_id));
}

/// Each due work item whose deferral was cleared is brought back by a signal
/// of its own to its repo, in order. One that was not cleared is not
/// announced.
pub proof fn law_each_cleared_deferral_is_brought_back(
    due: Seq<Deferral>,
    cleared: Seq<bool>,
    item: Deferral,
    is_cleared: bool,
)
    requires
        due.len() == cleared.len(),
    ensures
        deferral_signals(due.push(item), cleared.push(is_cleared)) == deferral_signals(due, cleared)
            + (if is_cleared {
            seq![
                signal_text(
                    item.repo@,
                    "routing"@,
                    None,
                    Some("deferred work item "@ + item.work_item_id@ + " is back (wake_at reached)"@),
                    Seq::empty(),
                ),
            ]
        } else {
            Seq::empty()
        }),
        deferral_signals(Seq::empty(), Seq::empty()) == Seq::<Seq<char>>::empty(),
{
    assert(due.push(item).drop_last() =~= due);
    lemma_deferrals_agree(due, cleared, cleared.push(is_cleared));
}

proof fn lemma_deferrals_agree(due: Seq<Deferral>, a: Seq<bool>, b: Seq<bool>)
    requires
        forall|i: int| 0 <= i < due.len() ==> a[i] == b[i],
    ensures
        deferral_signals(due, a) == deferral_signals(due, b),
    decreases due.len(),
{
    if due.len() > 0 {
        lemma_deferrals_agree(due.drop_last(), a, b);
    }
}

} // verus!
