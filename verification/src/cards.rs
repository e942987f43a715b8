//! Cards that wait for another repository, and the announcements that end the
//! wait.
use vstd::prelude::*;
use crate::scan::{
    char_lists, contains, find, first_at, has_text, lemma_first_at, lemma_first_at_none, occurs_at,
    slice_text, split_words, texts, words,
};
use crate::signal::{opt_text, parse_signal, parsed};
use crate::signals::{signal_rows, PendingSignal, SignalRow};
use crate::text::{
    chars_eq, eq_ignore_ascii_case, same_ignoring_case, to_chars, to_text,
};

verus! {

broadcast use vstd::seq_lib::group_seq_properties;

/// Where a card stands.
#[derive(Debug, Clone, Copy, PartialEq, Eq, Structural)]
pub enum CardStatus {
    Accepted,
    Blocked,
    /// Any other state.
    Other,
}

/// A card on the board, as far as unblocking reads it.
#[derive(Debug)]
pub struct Card {
    pub id: String,
    pub status: CardStatus,
    pub note: Option<String>,
}

/// Whether a word in front of the completion marker can name a repository.
pub open spec fn names_repo(word: Seq<char>) -> bool {
    &&& word.len() > 0
    &&& word[0] != '@'
    &&& word[0] != '-'
    &&& word != "announce"@
    &&& word != "from"@
}

/// The last of the words that can name a repository.
pub open spec fn last_name(ws: Seq<Seq<char>>) -> Option<Seq<char>>
    decreases ws.len(),
{
    if ws.len() == 0 {
        None
    } else if names_repo(ws.last()) {
        Some(ws.last())
    } else {
        last_name(ws.drop_last())
    }
}

/// The repository that a post announces to have completed something: the post
/// is an `announce` signal, and the repository is named in front of its first
/// `completed:`.
pub open spec fn completed_by(text: Seq<char>) -> Option<Seq<char>> {
    match parsed(text) {
        Some(signal) => if same_ignoring_case(signal.verb, "announce"@) {
            match first_at(text, "completed:"@, 0) {
                Some(at) => last_name(words(text.take(at))),
                None => None,
            }
        } else {
            None
        },
        None => None,
    }
}

fn is_repo_name(word: &[char]) -> (yes: bool)
    ensures
        yes == names_repo(word@),
{
    let announce = to_chars("announce");
    let from = to_chars("from");
    word.len() > 0 && word[0] != '@' && word[0] != '-' && !chars_eq(word, announce.as_slice())
        && !chars_eq(word, from.as_slice())
}

/// The repository that a post announces to have completed something.
pub fn completing_repo(text: &str) -> (repo: Option<String>)
    ensures
        repo is Some <==> completed_by(text@) is Some,
        repo matches Some(r) ==> completed_by(text@) == Some(r@),
{
    match parse_signal(text) {
        Some(signal) => {
            if !eq_ignore_ascii_case(signal.verb.as_str(), "announce") {
                return None;
            }
        },
        None => {
            return None;
        },
    }
    let chars = to_chars(text);
    let marker = to_chars("completed:");
    match find(chars.as_slice(), marker.as_slice()) {
        Some(at) => {
            let prefix = to_chars(slice_text(chars.as_slice(), 0, at).as_str());
            assert(prefix@ =~= text@.take(at as int));
            let ws = split_words(prefix.as_slice());
            let ghost all = words(text@.take(at as int));
            let mut i: usize = ws.len();
            assert(all.take(i as int) =~= all);
            while i > 0
                invariant
                    i <= ws@.len(),
                    char_lists(ws@) == all,
                    all.len() == ws@.len(),
                    last_name(all) == last_name(all.take(i as int)),
                    completed_by(text@) == last_name(all),
                decreases i,
            {
                assert(all.take(i as int).last() == ws@[i - 1]@);
                assert(all.take(i as int).drop_last() =~= all.take(i - 1));
                if is_repo_name(ws[i - 1].as_slice()) {
                    return Some(to_text(ws[i - 1].as_slice()));
                }
                i -= 1;
            }
            None
        },
        None => None,
    }
}

/// Whether the card waits for the repository: it is blocked, and its note
/// mentions the repository.
pub open spec fn waits_for(card: Card, repo: Seq<char>) -> bool {
    &&& card.status is Blocked
    &&& card.note is Some
    &&& has_text(card.note->Some_0@, repo)
}

/// The repositories that the signals announce to have completed something.
pub open spec fn completions(signals: Seq<SignalRow>) -> Seq<Seq<char>>
    decreases signals.len(),
{
    if signals.len() == 0 {
        Seq::empty()
    } else {
        let before = completions(signals.drop_last());
        match completed_by(signals.last().1) {
            Some(repo) => before.push(repo),
            None => before,
        }
    }
}

/// Whether the card waits for one of the repositories.
pub open spec fn waits_for_one(card: Card, repos: Seq<Seq<char>>) -> bool {
    exists|k: int| 0 <= k < repos.len() && waits_for(card, #[trigger] repos[k])
}

/// Whether one of the signals ends the card's wait.
pub open spec fn unblocked_by(card: Card, signals: Seq<SignalRow>) -> bool {
    waits_for_one(card, completions(signals))
}

/// The number of cards whose wait one of the signals ends.
pub open spec fn unblock_count(cards: Seq<Card>, signals: Seq<SignalRow>) -> nat
    decreases cards.len(),
{
    if cards.len() == 0 {
        0
    } else {
        unblock_count(cards.drop_last(), signals) + if unblocked_by(cards.last(), signals) {
            1nat
        } else {
            0nat
        }
    }
}

fn card_unblocks(card: &Card, repos: &[String]) -> (yes: bool)
    ensures
        yes == waits_for_one(*card, texts(repos@)),
{
    if card.status != CardStatus::Blocked {
        return false;
    }
    match &card.note {
        Some(note) => {
            for k in 0..repos.len()
                invariant
                    card.status is Blocked,
                    card.note == Some(*note),
                    forall|j: int| 0 <= j < k ==> !waits_for(*card, #[trigger] texts(repos@)[j]),
            {
                assert(texts(repos@)[k as int] == repos@[k as int]@);
                if contains(note.as_str(), repos[k].as_str()) {
                    assert(waits_for(*card, texts(repos@)[k as int]));
                    return true;
                }
            }
            false
        },
        None => false,
    }
}

fn completing_repos(signals: &[PendingSignal]) -> (repos: Vec<String>)
    ensures
        texts(repos@) == completions(signal_rows(signals@)),
{
    let ghost rows = signal_rows(signals@);
    let mut repos: Vec<String> = Vec::new();
    assert(texts(repos@) =~= completions(rows.take(0)));
    for k in 0..signals.len()
        invariant
            rows == signal_rows(signals@),
            texts(repos@) == completions(rows.take(k as int)),
    {
        let ghost before = texts(repos@);
        assert(rows.take(k + 1).drop_last() =~= rows.take(k as int));
        assert(rows.take(k + 1).last().1 == signals@[k as int].1@);
        match completing_repo(signals[k].1.as_str()) {
            Some(repo) => {
                repos.push(repo);
                assert(texts(repos@) =~= before.push(repo@));
            },
            None => {},
        }
    }
    assert(rows.take(rows.len() as int) =~= rows);
    repos
}

proof fn lemma_unblock_count(cards: Seq<Card>, signals: Seq<SignalRow>)
    ensures
        unblock_count(cards, signals) <= cards.len(),
    decreases cards.len(),
{
    if cards.len() > 0 {
        lemma_unblock_count(cards.drop_last(), signals);
    }
}

/// Ends the wait of each blocked card whose note mentions a repository that
/// one of the signals announces to have completed something: the card goes
/// back to accepted. Returns how many there were.
pub fn check_auto_unblock(cards: &mut Vec<Card>, signals: &[PendingSignal]) -> (unblocked: u32)
    requires
        old(cards)@.len() <= u32::MAX,
    ensures
        final(cards)@.len() == old(cards)@.len(),
        forall|i: int|
            0 <= i < old(cards)@.len() ==> {
                let before = old(cards)@[i];
                let after = #[trigger] final(cards)@[i];
                &&& after.id@ == before.id@
                &&& opt_text(after.note) == opt_text(before.note)
                &&& after.status == if unblocked_by(before, signal_rows(signals@)) {
                    CardStatus::Accepted
                } else {
                    before.status
                }
            },
        unblocked == unblock_count(old(cards)@, signal_rows(signals@)),
{
    let ghost rows = signal_rows(signals@);
    let repos = completing_repos(signals);
    let ghost start = cards@;
    let n: usize = cards.len();
    let mut unblocked: u32 = 0;
    let mut i: usize = 0;
    assert(start.take(0) =~= Seq::<Card>::empty());
    while i < n
        invariant
            n == start.len(),
            n <= u32::MAX,
            i <= n,
            cards@.len() == n,
            texts(repos@) == completions(rows),
            unblocked == unblock_count(start.take(i as int), rows),
            forall|j: int| i <= j < n ==> #[trigger] cards@[j] == start[j],
            forall|j: int|
                0 <= j < i ==> {
                    let after = #[trigger] cards@[j];
                    &&& after.id@ == start[j].id@
                    &&& opt_text(after.note) == opt_text(start[j].note)
                    &&& after.status == if unblocked_by(start[j], rows) {
                        CardStatus::Accepted
                    } else {
                        start[j].status
                    }
                },
        decreases n - i,
    {
        assert(start.take(i + 1).drop_last() =~= start.take(i as int));
        proof {
            lemma_unblock_count(start.take(i as int), rows);
        }
        if card_unblocks(&cards[i], repos.as_slice()) {
            let id = cards[i].id.clone();
            let note = match &cards[i].note {
                Some(t) => Some(t.clone()),
                None => None,
            };
            cards.set(i, Card { id, status: CardStatus::Accepted, note });
            unblocked += 1;
        }
        i += 1;
    }
    assert(start.take(n as int) =~= start);
    unblocked
}

/// A card that was unblocked waits for nobody, so the same signals unblock
/// nothing a second time.
pub proof fn law_unblocking_again_changes_nothing(
    before: Card,
    after: Card,
    signals: Seq<SignalRow>,
)
    requires
        opt_text(after.note) == opt_text(before.note),
        after.status == (if unblocked_by(before, signals) {
            CardStatus::Accepted
        } else {
            before.status
        }),
    ensures
        !unblocked_by(after, signals),
{
    if unblocked_by(after, signals) {
        let repos = completions(signals);
        let k = choose|k: int| 0 <= k < repos.len() && waits_for(after, #[trigger] repos[k]);
        assert(waits_for(before, repos[k]));
    }
}

proof fn lemma_completions(signals: Seq<SignalRow>, repo: Seq<char>)
    ensures
        completions(signals).contains(repo) <==> exists|k: int|
            0 <= k < signals.len() && completed_by((#[trigger] signals[k]).1) == Some(repo),
    decreases signals.len(),
{
    if signals.len() > 0 {
        let rest = signals.drop_last();
        let before = completions(rest);
        let after = completions(signals);
        let last = signals[signals.len() - 1];
        lemma_completions(rest, repo);
        if completed_by(last.1) == Some(repo) {
            assert(after.last() == repo);
        } else if before.contains(repo) {
            let k = choose|k: int|
                0 <= k < rest.len() && completed_by((#[trigger] rest[k]).1) == Some(repo);
            assert(signals[k] == rest[k]);
            let j = choose|j: int| 0 <= j < before.len() && before[j] == repo;
            assert(after[j] == repo);
        } else {
            assert forall|k: int| 0 <= k < signals.len() implies completed_by(
                (#[trigger] signals[k]).1,
            ) != Some(repo) by {
                if k < rest.len() {
                    assert(signals[k] == rest[k]);
                }
            }
            if after.contains(repo) {
                let j = choose|j: int| 0 <= j < after.len() && after[j] == repo;
                if j < before.len() {
                    assert(before[j] == repo);
                }
            }
        }
    }
}

/// A card is unblocked exactly if it is blocked and at least one of the
/// signals, whichever, announces a completion by a repository that the note of
/// the card mentions.
pub proof fn law_any_awaited_completion_unblocks(card: Card, signals: Seq<SignalRow>)
    ensures
        unblocked_by(card, signals) <==> card.status == CardStatus::Blocked && exists|k: int|
            0 <= k < signals.len() && (completed_by((#[trigger] signals[k]).1) matches Some(repo)
                && card.note matches Some(note) && has_text(note@, repo)),
{
    let repos = completions(signals);
    if unblocked_by(card, signals) {
        let j = choose|j: int| 0 <= j < repos.len() && waits_for(card, #[trigger] repos[j]);
        assert(repos.contains(repos[j]));
        lemma_completions(signals, repos[j]);
    }
    if card.status == CardStatus::Blocked && exists|k: int|
        0 <= k < signals.len() && (completed_by((#[trigger] signals[k]).1) matches Some(repo)
            && card.note matches Some(note) && has_text(note@, repo)) {
        let k = choose|k: int|
            0 <= k < signals.len() && (completed_by((#[trigger] signals[k]).1) matches Some(repo)
                && card.note matches Some(note) && has_text(note@, repo));
        let repo = completed_by(signals[k].1)->0;
        lemma_completions(signals, repo);
        let j = choose|j: int| 0 <= j < repos.len() && repos[j] == repo;
        assert(waits_for(card, repos[j]));
    }
}

/// Each card that is unblocked is counted once.
pub proof fn law_each_unblocked_card_counts_once(
    a: Seq<Card>,
    card: Card,
    b: Seq<Card>,
    signals: Seq<SignalRow>,
)
    ensures
        unblock_count(a.push(card) + b, signals) == unblock_count(a, signals) + (if unblocked_by(
            card,
            signals,
        ) {
            1int
        } else {
            0int
        }) + unblock_count(b, signals),
        unblock_count(Seq::empty(), signals) == 0,
    decreases b.len(),
{
    let whole = a.push(card) + b;
    if b.len() == 0 {
        assert(whole =~= a.push(card));
        assert(whole.drop_last() =~= a);
    } else {
        law_each_unblocked_card_counts_once(a, card, b.drop_last(), signals);
        assert(whole.drop_last() =~= a.push(card) + b.drop_last());
        assert(whole.last() == b.last());
    }
}

proof fn lemma_last_name(ws: Seq<Seq<char>>, k: int)
    requires
        -1 <= k < ws.len(),
        k >= 0 ==> names_repo(ws[k]),
        forall|j: int| k < j < ws.len() ==> !names_repo(#[trigger] ws[j]),
    ensures
        last_name(ws) == (if k >= 0 {
            Some(ws[k])
        } else {
            None
        }),
    decreases ws.len(),
{
    if k < ws.len() - 1 {
        assert(!names_repo(ws[ws.len() - 1]));
        let rest = ws.drop_last();
        assert forall|j: int| k < j < rest.len() implies !names_repo(#[trigger] rest[j]) by {
            assert(rest[j] == ws[j]);
        }
        lemma_last_name(rest, k);
    }
}

/// An announcement names the repository that completed something by the word
/// nearest in front of its first `completed:` that is no address, no flag and
/// neither `announce` nor `from`. What is no announcement names none.
pub proof fn law_nearest_word_names_the_completing_repo(
    text: &str,
    repo: Option<String>,
    at: int,
    k: int,
)
    requires
        call_ensures(completing_repo, (text,), repo),
    ensures
        !(parsed(text@) matches Some(signal) && same_ignoring_case(signal.verb, "announce"@))
            ==> repo is None,
        !has_text(text@, "completed:"@) ==> repo is None,
        ({
            let ws = words(text@.take(at));
            &&& occurs_at(text@, "completed:"@, at)
            &&& forall|j: int| 0 <= j < at ==> !occurs_at(text@, "completed:"@, j)
            &&& parsed(text@) is Some
            &&& same_ignoring_case(parsed(text@)->0.verb, "announce"@)
            &&& 0 <= k < ws.len()
            &&& ws[k].len() > 0 && ws[k][0] != '@' && ws[k][0] != '-'
            &&& ws[k] != "announce"@ && ws[k] != "from"@
            &&& forall|j: int|
                k < j < ws.len() ==> (#[trigger] ws[j]).len() == 0 || ws[j][0] == '@' || ws[j][0]
                    == '-' || ws[j] == "announce"@ || ws[j] == "from"@
        }) ==> (repo matches Some(r) && r@ == words(text@.take(at))[k]),
{
    let ws = words(text@.take(at));
    let pat = "completed:"@;
    if !has_text(text@, pat) {
        lemma_first_at_none(text@, pat, 0);
    }
    if occurs_at(text@, pat, at) && (forall|j: int| 0 <= j < at ==> !occurs_at(text@, pat, j)) {
        lemma_first_at(text@, pat, 0, at);
        if 0 <= k < ws.len() && names_repo(ws[k]) && (forall|j: int|
            k < j < ws.len() ==> !names_repo(#[trigger] ws[j])) {
            lemma_last_name(ws, k);
        }
    }
}

/// Exactly the blocked cards that wait for a repository which one of the
/// signals announces go back to accepted; no other card changes, and each one
/// that did is counted.
pub proof fn law_only_awaiting_cards_are_accepted(
    cards: &mut Vec<Card>,
    signals: &[PendingSignal],
    unblocked: u32,
)
    requires
        old(cards)@.len() <= u32::MAX,
        call_ensures(check_auto_unblock, (cards, signals), unblocked),
    ensures
        final(cards)@.len() == old(cards)@.len(),
        unblocked == unblock_count(old(cards)@, signal_rows(signals@)),
        forall|i: int|
            0 <= i < old(cards)@.len() ==> {
                let before = old(cards)@[i];
                let after = #[trigger] final(cards)@[i];
                let freed = before.status == CardStatus::Blocked && exists|k: int|
                    0 <= k < signals@.len() && (completed_by((#[trigger] signals@[k]).1@) matches Some(
                        repo,
                    ) && before.note matches Some(note) && has_text(note@, repo));
                &&& after.id@ == before.id@
                &&& opt_text(after.note) == opt_text(before.note)
                &&& freed ==> after.status == CardStatus::Accepted
                &&& !freed ==> after.status == before.status
            },
{
    let rows = signal_rows(signals@);
    assert forall|i: int| 0 <= i < old(cards)@.len() implies {
        let before = old(cards)@[i];
        let after = #[trigger] final(cards)@[i];
        let freed = before.status == CardStatus::Blocked && exists|k: int|
            0 <= k < signals@.len() && (completed_by((#[trigger] signals@[k]).1@) matches Some(repo)
                && before.note matches Some(note) && has_text(note@, repo));
        &&& after.id@ == before.id@
        &&& opt_text(after.note) == opt_text(before.note)
        &&& freed ==> after.status == CardStatus::Accepted
        &&& !freed ==> after.status == before.status
    } by {
        let card = old(cards)@[i];
        law_any_awaited_completion_unblocks(card, rows);
        assert forall|k: int| 0 <= k < signals@.len() implies (#[trigger] rows[k]).1
            == signals@[k].1@ by {}
        if unblocked_by(card, rows) {
            let k = choose|k: int|
                0 <= k < rows.len() && (completed_by((#[trigger] rows[k]).1) matches Some(repo)
                    && card.note matches Some(note) && has_text(note@, repo));
            assert(rows[k].1 == signals@[k].1@);
        }
        if card.status == CardStatus::Blocked && exists|k: int|
            0 <= k < signals@.len() && (completed_by((#[trigger] signals@[k]).1@) matches Some(repo)
                && card.note matches Some(note) && has_text(note@, repo)) {
            let k = choose|k: int|
                0 <= k < signals@.len() && (completed_by((#[trigger] signals@[k]).1@) matches Some(
                    repo,
                ) && card.note matches Some(note) && has_text(note@, repo));
            assert(rows[k].1 == signals@[k].1@);
        }
    }
}

} // verus!
