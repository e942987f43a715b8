//! Signal detection and the wake gate: pending-signal lookup, the wake-worthy
//! verb cut, and the prompt built for a woken agent.
use vstd::prelude::*;
use crate::board::{
    broadcast_name, indent_continuation_lines, indented, is_broadcast_name,
    law_indented_lines_leave_the_margin, rows_of, Board, BoardView, Row,
};
use crate::number::{decimal, push_decimal};
use crate::scan::{has_text, occurs_at, texts};
use crate::signal::{
    detail_value, is_signal, is_signal_text, law_last_detail_of_a_key_counts, opt_str, pair_text,
    parse_signal, parsed, Signal,
};
use crate::text::{eq_ignore_ascii_case, lower, same_ignoring_case, text_eq, trim, trimmed};
use crate::verbs::{VerbManifest, VerbShape};

verus! {

broadcast use vstd::seq_lib::group_seq_properties;

/// A pending signal: its id, its text and the repo that posted it.
pub type PendingSignal = (String, String, String);

/// The model of a pending signal.
pub type SignalRow = (Seq<char>, Seq<char>, Seq<char>);

/// A pending signal as its model.
pub open spec fn signal_row(s: PendingSignal) -> SignalRow {
    (s.0@, s.1@, s.2@)
}

/// Pending signals as their model.
pub open spec fn signal_rows(signals: Seq<PendingSignal>) -> Seq<SignalRow> {
    signals.map_values(|s: PendingSignal| signal_row(s))
}

// -- Signal detection --------------------------------------------------------

/// The signals among `rows`, each as id, text and author.
pub open spec fn signals_among(rows: Seq<Row>) -> Seq<SignalRow>
    decreases rows.len(),
{
    if rows.len() == 0 {
        Seq::empty()
    } else {
        let before = signals_among(rows.drop_last());
        let row = rows.last();
        if is_signal_text(row.text) {
            before.push((row.id, row.text, row.repo))
        } else {
            before
        }
    }
}

/// Finds the unhandled signals for a repo.
///
/// `names` is the full addressable name set of the repo: its recipient name
/// and its tags. Signals addressed to any of these are returned, along with
/// the reserved broadcasts. Marks are kept per repo, so a broadcast reaches
/// each repo once whichever names it carries.
pub fn find_pending_signals(
    board: &Board,
    repo_name: &str,
    names: &[String],
    since: Option<&str>,
) -> (out: Vec<PendingSignal>)
    ensures
        signal_rows(out@) == signals_among(board@.pending(repo_name@, texts(names@), opt_str(since))),
{
    let posts = board.get_unhandled_signals_for_repo(repo_name, names, since);
    let mut out: Vec<PendingSignal> = Vec::new();
    let ghost rows = rows_of(posts@);
    assert(signal_rows(out@) =~= signals_among(rows.take(0)));
    for i in 0..posts.len()
        invariant
            rows == rows_of(posts@),
            signal_rows(out@) == signals_among(rows.take(i as int)),
    {
        let post = &posts[i];
        assert(rows.take(i + 1).drop_last() == rows.take(i as int));
        assert(rows.take(i + 1).last() == post@);
        if is_signal(post.text.as_str()) {
            let ghost before = out@;
            out.push((post.id.clone(), post.text.clone(), post.repo.clone()));
            assert(signal_rows(out@) =~= signal_rows(before).push(
                (post.id@, post.text@, post.repo@),
            ));
        }
    }
    assert(rows.take(rows.len() as int) == rows);
    out
}

/// Whether a directed signal to `to` with the given verb will fail to wake
/// its recipient, so that the sender can be warned: the target is no
/// broadcast and the verb does not wake.
pub fn directed_verb_will_not_wake(manifest: &VerbManifest, to: &str, verb: &str) -> (yes: bool)
    ensures
        yes == (!is_broadcast_name(trimmed(to@)) && !manifest.wakes(verb@)),
{
    let target = trim(to);
    !broadcast_name(target) && !manifest.is_wake_worthy(verb)
}

// -- The wake gate -----------------------------------------------------------

/// Whether a post wakes by its verb. A plain post and a malformed signal do
/// not; the status plays no part.
pub open spec fn wake_worthy(manifest: VerbManifest, text: Seq<char>) -> bool {
    parsed(text) matches Some(sig) && manifest.wakes(sig.verb)
}

/// Whether a post wakes by its verb.
pub fn is_wake_worthy(manifest: &VerbManifest, text: &str) -> (yes: bool)
    ensures
        yes == wake_worthy(*manifest, text@),
{
    match parse_signal(text) {
        Some(sig) => manifest.is_wake_worthy(sig.verb.as_str()),
        None => false,
    }
}

/// The id of the ask that an `answer` signal claims to resolve.
pub open spec fn claimed_ask(text: Seq<char>) -> Option<Seq<char>> {
    match parsed(text) {
        Some(sig) => if same_ignoring_case(sig.verb, "answer"@) {
            detail_value(sig.details, "resolves"@)
        } else {
            None
        },
        None => None,
    }
}

fn lookup_detail(sig: &Signal, key: &str) -> (value: Option<String>)
    ensures
        value is Some <==> detail_value(sig@.details, key@) is Some,
        value matches Some(v) ==> detail_value(sig@.details, key@) == Some(v@),
{
    let ghost all = sig@.details;
    let mut n: usize = sig.details.len();
    assert(all.take(n as int) == all);
    while n > 0
        invariant
            n <= sig.details@.len(),
            all == sig@.details,
            detail_value(all, key@) == detail_value(all.take(n as int), key@),
        decreases n,
    {
        assert(all.take(n as int).last() == pair_text(sig.details@[n - 1]));
        assert(all.take(n as int).drop_last() == all.take(n - 1));
        if text_eq(sig.details[n - 1].0.as_str(), key) {
            return Some(sig.details[n - 1].1.clone());
        }
        n = n - 1;
    }
    None
}

/// The id of the ask that an `answer` signal claims to resolve.
///
/// Claimed, not verified: whether the ask exists and who asked is for
/// [`resolved_ask_is_authentic`] to say.
pub fn resolved_ask_id(text: &str) -> (ask: Option<String>)
    ensures
        ask is Some <==> claimed_ask(text@) is Some,
        ask matches Some(id) ==> claimed_ask(text@) == Some(id@),
{
    match parse_signal(text) {
        Some(sig) => if eq_ignore_ascii_case(sig.verb.as_str(), "answer") {
            lookup_detail(&sig, "resolves")
        } else {
            None
        },
        None => None,
    }
}

/// Whether `text` is an `answer` that carries a `resolves` marker.
pub fn resolves_pending_ask(text: &str) -> (yes: bool)
    ensures
        yes == (claimed_ask(text@) is Some),
{
    resolved_ask_id(text).is_some()
}

/// Whether the post `ask_id` on the board is a wake-worthy ask of
/// `recipient_repo`.
pub open spec fn authentic_ask(
    manifest: VerbManifest,
    board: BoardView,
    ask_id: Seq<char>,
    recipient_repo: Seq<char>,
) -> bool {
    board.find(ask_id) matches Some(ask) && same_ignoring_case(ask.repo, recipient_repo)
        && wake_worthy(manifest, ask.text)
}

/// Whether a `resolves` marker points at an ask that the repo about to be
/// woken posted itself and that was wake-worthy. An unknown id is not
/// authentic.
pub fn resolved_ask_is_authentic(
    manifest: &VerbManifest,
    board: &Board,
    ask_id: &str,
    recipient_repo: &str,
) -> (yes: bool)
    ensures
        yes == authentic_ask(*manifest, board@, ask_id@, recipient_repo@),
{
    match board.get_reflection_by_id(ask_id) {
        Some(ask) => eq_ignore_ascii_case(ask.repo.as_str(), recipient_repo) && is_wake_worthy(
            manifest,
            ask.text.as_str(),
        ),
        None => false,
    }
}

/// Whether a signal wakes `repo_name`: by its verb, or as an answer to a
/// wake-worthy ask of that repo.
pub open spec fn wakes_repo(
    manifest: VerbManifest,
    board: BoardView,
    repo_name: Seq<char>,
    text: Seq<char>,
) -> bool {
    ||| wake_worthy(manifest, text)
    ||| (claimed_ask(text) matches Some(id) && authentic_ask(manifest, board, id, repo_name))
}

/// Whether a signal wakes `repo_name`.
pub fn signal_wakes_repo(
    manifest: &VerbManifest,
    board: &Board,
    repo_name: &str,
    text: &str,
) -> (yes: bool)
    ensures
        yes == wakes_repo(*manifest, board@, repo_name@, text@),
{
    if is_wake_worthy(manifest, text) {
        return true;
    }
    match resolved_ask_id(text) {
        Some(id) => resolved_ask_is_authentic(manifest, board, id.as_str(), repo_name),
        None => false,
    }
}

/// Whether the recipient owes a reply, even if it is a refusal. This is the
/// wake gate: a signal that woke the agent always lands among those that the
/// agent must answer.
pub fn signal_requires_reply(manifest: &VerbManifest, text: &str) -> (yes: bool)
    ensures
        yes == wake_worthy(*manifest, text@),
{
    is_wake_worthy(manifest, text)
}

// -- The wake prompt ---------------------------------------------------------

/// How many signals that need a reply the prompt lists.
pub const PENDING_REPLY_CAP: usize = 10;

/// How many informational signals the prompt lists.
pub const PENDING_INFORMATIONAL_CAP: usize = 5;

/// How many answered asks the prompt lists.
pub const PENDING_ANSWERED_CAP: usize = 5;

/// The section of the wake prompt that a signal belongs to.
#[derive(Debug, Clone, Copy, PartialEq, Eq, Structural)]
pub enum Section {
    MustReply,
    Answered,
    Informational,
}

/// The section that a signal text belongs to: what wakes needs a reply, an
/// answer to an ask is an answered ask, and all else is informational.
pub open spec fn section_of(manifest: VerbManifest, text: Seq<char>) -> Section {
    if wake_worthy(manifest, text) {
        Section::MustReply
    } else if claimed_ask(text) is Some {
        Section::Answered
    } else {
        Section::Informational
    }
}

/// The signals that belong to a section.
pub open spec fn belongs(manifest: VerbManifest, section: Section) -> spec_fn(SignalRow) -> bool {
    |row: SignalRow| section_of(manifest, row.1) == section
}

/// The signals of a section, in order.
pub open spec fn bucket(
    manifest: VerbManifest,
    rows: Seq<SignalRow>,
    section: Section,
) -> Seq<SignalRow> {
    rows.filter(belongs(manifest, section))
}

/// The line of one signal. The text is indented, so that no line of it can
/// pass for an entry.
pub open spec fn entry_text(row: SignalRow) -> Seq<char> {
    "- [from "@ + row.2 + "] "@ + indented(row.1) + " (id: "@ + row.0 + ")\n"@
}

/// The lines of several signals.
pub open spec fn entries_text(rows: Seq<SignalRow>) -> Seq<char>
    decreases rows.len(),
{
    if rows.len() == 0 {
        Seq::empty()
    } else {
        entries_text(rows.drop_last()) + entry_text(rows.last())
    }
}

/// The line that stands for `extra` signals that are not listed.
pub open spec fn overflow_text(extra: nat, repo_name: Seq<char>) -> Seq<char> {
    "- ... and "@ + decimal(extra) + " more. Run `legion bullpen --repo "@ + repo_name
        + " --signals` to see them all.\n"@
}

/// How many of `n` signals a section lists under a cap.
pub open spec fn listed(n: nat, cap: nat) -> nat {
    if n <= cap {
        n
    } else {
        cap
    }
}

/// A section of the prompt: nothing for no signals, else the header, one
/// entry for each signal up to the cap, and a line for the rest.
pub open spec fn section_text(
    header: Seq<char>,
    rows: Seq<SignalRow>,
    cap: nat,
    repo_name: Seq<char>,
) -> Seq<char> {
    if rows.len() == 0 {
        Seq::empty()
    } else {
        let body = "\n"@ + header + "\n\n"@ + entries_text(
            rows.take(listed(rows.len(), cap) as int),
        );
        if rows.len() > cap {
            body + overflow_text((rows.len() - cap) as nat, repo_name)
        } else {
            body
        }
    }
}

/// The header over the signals that need a reply.
pub const MUST_REPLY_HEADER: &'static str =
    "REQUIRES A REPLY -- these are directed questions and requests. Each one \
         needs a real response before you stop, not just an acknowledgment. \
         If it ASKS something, answer it -- a short answer or a clear \"no\" / \
         \"can't help\" / \"handing to X\" is fine. If it asks you to DO something \
         (a task, request, or handoff with a deliverable), COMPLETE the work and \
         report the result; or, if you cannot, reply explicitly with the blocker \
         or a decline and the reason. A bare \"received\" / \"on it\" / \"ack\" that \
         stops without doing the asked work is ghosting, not a reply -- and so is \
         silence. Do not end your turn until each item below is either \
         done-and-reported or explicitly declined/blocked.";

/// The header over the answered asks.
pub const ANSWERED_HEADER: &'static str =
    "YOUR ASK WAS ANSWERED -- each of these resolves a question or request \
         you sent before sleeping. You are being unblocked, not assigned work: \
         no reply is required. Read the answer and continue whatever it was \
         blocking.";

/// The header over the informational signals.
pub const INFORMATIONAL_HEADER: &'static str =
    "INFORMATIONAL -- announcements, updates, approvals. \
         Silence is acknowledgment. Only reply if you have NEW information, \
         a concern, dissent, or an action item. Empty acknowledgments like \
         \"acknowledged, no action needed\" waste tokens and trigger wake storms.";

/// The last sentence of the prompt.
pub const PROMPT_CLOSING: &'static str =
    "\nUse `legion signal` to reply, `legion bullpen` for broader context, and \
         `legion reflect` to store any learnings before you exit.";

/// The header of a section.
pub open spec fn header_of(section: Section) -> Seq<char> {
    match section {
        Section::MustReply => MUST_REPLY_HEADER@,
        Section::Answered => ANSWERED_HEADER@,
        Section::Informational => INFORMATIONAL_HEADER@,
    }
}

/// The cap of a section.
pub open spec fn cap_of(section: Section) -> nat {
    match section {
        Section::MustReply => PENDING_REPLY_CAP as nat,
        Section::Answered => PENDING_ANSWERED_CAP as nat,
        Section::Informational => PENDING_INFORMATIONAL_CAP as nat,
    }
}

/// One section of the prompt for the given signals.
pub open spec fn prompt_section(
    manifest: VerbManifest,
    rows: Seq<SignalRow>,
    section: Section,
    repo_name: Seq<char>,
) -> Seq<char> {
    section_text(header_of(section), bucket(manifest, rows, section), cap_of(section), repo_name)
}

/// The first line of the prompt.
pub open spec fn prompt_opening(repo_name: Seq<char>) -> Seq<char> {
    "You were auto-woken by legion watch. The following signal(s) are directed at you ("@
        + repo_name + ").\n"@
}

/// The prompt for a woken agent: the signals that need a reply, then the
/// answered asks, then the informational signals.
pub open spec fn wake_prompt_text(
    manifest: VerbManifest,
    repo_name: Seq<char>,
    rows: Seq<SignalRow>,
) -> Seq<char> {
    prompt_opening(repo_name)
        + prompt_section(manifest, rows, Section::MustReply, repo_name)
        + prompt_section(manifest, rows, Section::Answered, repo_name)
        + prompt_section(manifest, rows, Section::Informational, repo_name)
        + PROMPT_CLOSING@
}

/// The section that a signal text belongs to.
pub fn classify(manifest: &VerbManifest, text: &str) -> (section: Section)
    ensures
        section == section_of(*manifest, text@),
{
    if signal_requires_reply(manifest, text) {
        Section::MustReply
    } else if resolves_pending_ask(text) {
        Section::Answered
    } else {
        Section::Informational
    }
}

fn positions_of(manifest: &VerbManifest, signals: &[PendingSignal], section: Section) -> (at: Vec<usize>)
    ensures
        forall|j: int| 0 <= j < at@.len() ==> #[trigger] at@[j] < signals@.len(),
        bucket(*manifest, signal_rows(signals@), section) == at@.map_values(
            |p: usize| signal_rows(signals@)[p as int],
        ),
{
    reveal(Seq::filter);
    let ghost rows = signal_rows(signals@);
    let ghost pred = belongs(*manifest, section);
    let ghost pick = |p: usize| rows[p as int];
    let mut at: Vec<usize> = Vec::new();
    assert(rows.take(0).filter(pred) =~= at@.map_values(pick));
    for i in 0..signals.len()
        invariant
            rows == signal_rows(signals@),
            pred == belongs(*manifest, section),
            pick == (|p: usize| rows[p as int]),
            forall|j: int| 0 <= j < at@.len() ==> #[trigger] at@[j] < signals@.len(),
            rows.take(i as int).filter(pred) == at@.map_values(pick),
    {
        reveal(Seq::filter);
        assert(rows.take(i + 1).drop_last() == rows.take(i as int));
        assert(rows.take(i + 1).last() == signal_row(signals@[i as int]));
        if classify(manifest, signals[i].1.as_str()) == section {
            let ghost before = at@;
            at.push(i);
            assert(at@.map_values(pick) =~= before.map_values(pick).push(rows[i as int]));
        }
    }
    assert(rows.take(rows.len() as int) == rows);
    at
}

fn push_entry(out: &mut String, signal: &PendingSignal)
    ensures
        final(out)@ == old(out)@ + entry_text(signal_row(*signal)),
{
    out.append("- [from ");
    out.append(signal.2.as_str());
    out.append("] ");
    let body = indent_continuation_lines(signal.1.as_str());
    out.append(body.as_str());
    out.append(" (id: ");
    out.append(signal.0.as_str());
    out.append(")\n");
}

fn append_section(
    out: &mut String,
    header: &str,
    signals: &[PendingSignal],
    at: &[usize],
    cap: usize,
    repo_name: &str,
)
    requires
        forall|j: int| 0 <= j < at@.len() ==> #[trigger] at@[j] < signals@.len(),
    ensures
        final(out)@ == old(out)@ + section_text(
            header@,
            at@.map_values(|p: usize| signal_rows(signals@)[p as int]),
            cap as nat,
            repo_name@,
        ),
{
    let ghost start = out@;
    let ghost rows = at@.map_values(|p: usize| signal_rows(signals@)[p as int]);
    if at.len() == 0 {
        return;
    }
    out.append("\n");
    out.append(header);
    out.append("\n\n");
    let ghost lead = out@;
    let shown: usize = if at.len() <= cap {
        at.len()
    } else {
        cap
    };
    assert(rows.take(0) == Seq::<SignalRow>::empty());
    for i in 0..shown
        invariant
            shown <= at@.len(),
            forall|j: int| 0 <= j < at@.len() ==> #[trigger] at@[j] < signals@.len(),
            rows == at@.map_values(|p: usize| signal_rows(signals@)[p as int]),
            out@ == lead + entries_text(rows.take(i as int)),
    {
        assert(rows.take(i + 1).drop_last() == rows.take(i as int));
        assert(rows.take(i + 1).last() == signal_row(signals@[at@[i as int] as int]));
        push_entry(out, &signals[at[i]]);
        assert(out@ == lead + entries_text(rows.take(i + 1)));
    }
    if at.len() > cap {
        let extra: usize = at.len() - cap;
        out.append("- ... and ");
        push_decimal(out, extra as u64);
        out.append(" more. Run `legion bullpen --repo ");
        out.append(repo_name);
        out.append(" --signals` to see them all.\n");
    }
    assert(out@ == start + section_text(header@, rows, cap as nat, repo_name@));
}

/// Builds the prompt for a woken agent from its pending signals.
///
/// Signals are split three ways. Those that need a reply come first: the
/// agent must answer each, even if only to refuse. Answers to asks of this
/// agent follow: it is being unblocked, not assigned work. Announcements,
/// updates and approvals come last.
pub fn build_wake_prompt(
    manifest: &VerbManifest,
    repo_name: &str,
    signals: &[PendingSignal],
) -> (out: String)
    ensures
        out@ == wake_prompt_text(*manifest, repo_name@, signal_rows(signals@)),
{
    let must_reply = positions_of(manifest, signals, Section::MustReply);
    let answered = positions_of(manifest, signals, Section::Answered);
    let informational = positions_of(manifest, signals, Section::Informational);
    let mut out =
        "You were auto-woken by legion watch. The following signal(s) are directed at you (".to_string();
    out.append(repo_name);
    out.append(").\n");
    append_section(
        &mut out,
        MUST_REPLY_HEADER,
        signals,
        must_reply.as_slice(),
        PENDING_REPLY_CAP,
        repo_name,
    );
    append_section(
        &mut out,
        ANSWERED_HEADER,
        signals,
        answered.as_slice(),
        PENDING_ANSWERED_CAP,
        repo_name,
    );
    append_section(
        &mut out,
        INFORMATIONAL_HEADER,
        signals,
        informational.as_slice(),
        PENDING_INFORMATIONAL_CAP,
        repo_name,
    );
    out.append(PROMPT_CLOSING);
    out
}

// -- Laws --------------------------------------------------------------------

/// Every signal is in exactly one section of the prompt: the sections together
/// have as many signals as there are.
pub proof fn law_sections_share_out_the_signals(manifest: VerbManifest, rows: Seq<SignalRow>)
    ensures
        bucket(manifest, rows, Section::MustReply).len() + bucket(
            manifest,
            rows,
            Section::Answered,
        ).len() + bucket(manifest, rows, Section::Informational).len() == rows.len(),
        forall|i: int, section: Section|
            0 <= i < rows.len() ==> (#[trigger] bucket(manifest, rows, section).contains(
                #[trigger] rows[i],
            ) <==> section == section_of(manifest, rows[i].1)),
    decreases rows.len(),
{
    reveal(Seq::filter);
    if rows.len() > 0 {
        law_sections_share_out_the_signals(manifest, rows.drop_last());
    }
    assert forall|i: int, section: Section| 0 <= i < rows.len() implies (#[trigger] bucket(
        manifest,
        rows,
        section,
    ).contains(#[trigger] rows[i]) <==> section == section_of(manifest, rows[i].1)) by {
        let pred = belongs(manifest, section);
        if section == section_of(manifest, rows[i].1) {
            assert(pred(rows[i]));
            rows.lemma_filter_contains(pred, i);
        } else if bucket(manifest, rows, section).contains(rows[i]) {
            let j = choose|j: int|
                0 <= j < rows.filter(pred).len() && rows.filter(pred)[j] == rows[i];
            rows.lemma_filter_pred(pred, j);
        }
    }
}

/// An answer never wakes by its verb where the verb is for the record; it
/// wakes a repo only if it resolves a wake-worthy ask that this repo posted.
pub proof fn law_answer_wakes_only_who_asked(
    manifest: VerbManifest,
    board: BoardView,
    repo_name: Seq<char>,
    text: Seq<char>,
)
    requires
        !manifest.wakes("answer"@),
        parsed(text) matches Some(sig) && same_ignoring_case(sig.verb, "answer"@),
    ensures
        wakes_repo(manifest, board, repo_name, text) <==> (claimed_ask(text) matches Some(id)
            && board.find(id) matches Some(ask) && same_ignoring_case(ask.repo, repo_name)
            && wake_worthy(manifest, ask.text)),
{
    let verb = parsed(text)->Some_0.verb;
    if manifest.wakes(verb) {
        let i = choose|i: int|
            0 <= i < manifest.verbs@.len() && #[trigger] manifest.verbs@[i].shape == VerbShape::Wake
                && same_ignoring_case(manifest.verbs@[i].name@, verb);
        assert(manifest.verbs@[i].shape == VerbShape::Wake && same_ignoring_case(
            manifest.verbs@[i].name@,
            "answer"@,
        ));
    }
}

/// A plain post and a text without a verb wake nobody.
pub proof fn law_only_signals_wake(
    manifest: VerbManifest,
    board: BoardView,
    repo_name: Seq<char>,
    text: Seq<char>,
)
    requires
        parsed(text) is None,
    ensures
        !wakes_repo(manifest, board, repo_name, text),
{
}

/// The lines of a text that stand at the left margin: those that hold
/// something and do not begin with a space.
pub open spec fn margin_lines(text: Seq<char>) -> nat
    decreases text.len(),
{
    if text.len() == 0 {
        0
    } else {
        let n = text.len() as int;
        let begins_line = n == 1 || text[n - 2] == '\n';
        if begins_line && text.last() != ' ' {
            margin_lines(text.drop_last()) + 1
        } else {
            margin_lines(text.drop_last())
        }
    }
}

proof fn lemma_margin_lines_add_up(a: Seq<char>, b: Seq<char>)
    requires
        a.len() == 0 || a.last() == '\n',
    ensures
        margin_lines(a + b) == margin_lines(a) + margin_lines(b),
    decreases b.len(),
{
    if b.len() == 0 {
        assert(a + b =~= a);
    } else {
        lemma_margin_lines_add_up(a, b.drop_last());
        assert((a + b).drop_last() =~= a + b.drop_last());
    }
}

proof fn lemma_one_margin_line(text: Seq<char>)
    requires
        text.len() > 0,
        text[0] != ' ',
        forall|i: int| 0 <= i < text.len() - 1 && #[trigger] text[i] == '\n' ==> text[i + 1] == ' ',
    ensures
        margin_lines(text) == 1,
    decreases text.len(),
{
    if text.len() == 1 {
        assert(text.drop_last() =~= Seq::<char>::empty());
        assert(margin_lines(text.drop_last()) == 0);
    } else {
        let before = text.drop_last();
        assert forall|i: int| 0 <= i < before.len() - 1 && #[trigger] before[i] == '\n' implies before[i
            + 1] == ' ' by {
            assert(text[i] == '\n');
        }
        lemma_one_margin_line(before);
        assert(text[text.len() - 2] == '\n' ==> text.last() == ' ');
    }
}

proof fn lemma_entry_is_one_margin_line(row: SignalRow)
    requires
        !row.0.contains('\n'),
        !row.2.contains('\n'),
    ensures
        margin_lines(entry_text(row)) == 1,
        entry_text(row).len() > 0,
        entry_text(row).last() == '\n',
{
    reveal_strlit("- [from ");
    reveal_strlit("] ");
    reveal_strlit(" (id: ");
    reveal_strlit(")\n");
    law_indented_lines_leave_the_margin(row.1);
    let lead = "- [from "@ + row.2 + "] "@;
    let body = indented(row.1);
    let tail = " (id: "@ + row.0 + ")\n"@;
    let text = entry_text(row);
    assert(text =~= lead + body + tail);
    assert forall|i: int| 0 <= i < text.len() - 1 && #[trigger] text[i] == '\n' implies text[i + 1]
        == ' ' by {
        if i < lead.len() {
            assert(text[i] == lead[i]);
            if 8 <= i < 8 + row.2.len() {
                assert(row.2[i - 8] == '\n');
            }
        } else if i < lead.len() + body.len() {
            assert(body[i - lead.len()] == '\n');
            assert(text[i + 1] == body[i + 1 - lead.len()]);
        } else {
            let k = i - lead.len() - body.len();
            assert(text[i] == tail[k]);
            if 6 <= k < 6 + row.0.len() {
                assert(row.0[k - 6] == '\n');
            }
        }
    }
    lemma_one_margin_line(text);
}

/// A signal is one entry of the prompt, whatever its text says: the entries of
/// several signals have as many lines at the margin as there are signals, so
/// none can be made to look like two. Ids and repo names hold no line break.
pub proof fn law_one_entry_per_signal(rows: Seq<SignalRow>)
    requires
        forall|i: int|
            0 <= i < rows.len() ==> !(#[trigger] rows[i]).0.contains('\n') && !rows[i].2.contains(
                '\n',
            ),
    ensures
        margin_lines(entries_text(rows)) == rows.len(),
        rows.len() > 0 ==> entries_text(rows).len() > 0 && entries_text(rows).last() == '\n',
    decreases rows.len(),
{
    if rows.len() > 0 {
        let before = rows.drop_last();
        assert forall|i: int| 0 <= i < before.len() implies !(#[trigger] before[i]).0.contains('\n')
            && !before[i].2.contains('\n') by {
            assert(before[i] == rows[i]);
        }
        law_one_entry_per_signal(before);
        assert(!rows[rows.len() - 1].0.contains('\n'));
        lemma_entry_is_one_margin_line(rows.last());
        if before.len() == 0 {
            assert(entries_text(before) == Seq::<char>::empty());
        }
        lemma_margin_lines_add_up(entries_text(before), entry_text(rows.last()));
    }
}

/// The signals among waiting posts are those that begin with an address, each
/// on its own account and in order, with its id, its text and its author.
pub proof fn law_each_waiting_signal_is_found(before: Seq<Row>, row: Row, after: Seq<Row>)
    ensures
        signals_among(before.push(row) + after) == signals_among(before) + (if row.text.len() > 0
            && row.text[0] == '@' {
            seq![(row.id, row.text, row.repo)]
        } else {
            Seq::empty()
        }) + signals_among(after),
    decreases after.len(),
{
    let whole = before.push(row) + after;
    let one: Seq<SignalRow> = if row.text.len() > 0 && row.text[0] == '@' {
        seq![(row.id, row.text, row.repo)]
    } else {
        Seq::empty()
    };
    if after.len() == 0 {
        assert(whole =~= before.push(row));
        assert(whole.drop_last() =~= before);
    } else {
        law_each_waiting_signal_is_found(before, row, after.drop_last());
        assert(whole.drop_last() =~= before.push(row) + after.drop_last());
        assert(whole.last() == after.last());
    }
    assert(signals_among(whole) =~= signals_among(before) + one + signals_among(after));
}

/// A sender is warned exactly if the signal goes to a name that is not `all`
/// or `everyone`, in whichever case and with whichever whitespace around it,
/// and no verb of the manifest that wakes is the one given.
pub proof fn law_sender_is_warned_of_a_verb_that_does_not_wake(
    manifest: &VerbManifest,
    to: &str,
    verb: &str,
    yes: bool,
)
    requires
        call_ensures(directed_verb_will_not_wake, (manifest, to, verb), yes),
    ensures
        yes <==> lower(trimmed(to@)) != "all"@ && lower(trimmed(to@)) != "everyone"@ && forall|i:
            int|
            0 <= i < manifest.verbs@.len() ==> (#[trigger] manifest.verbs@[i]).shape
                != VerbShape::Wake || !same_ignoring_case(manifest.verbs@[i].name@, verb@),
{
    if manifest.wakes(verb@) {
        let i = choose|i: int|
            0 <= i < manifest.verbs@.len() && #[trigger] manifest.verbs@[i].shape == VerbShape::Wake
                && same_ignoring_case(manifest.verbs@[i].name@, verb@);
        assert(manifest.verbs@[i].shape == VerbShape::Wake);
    } else {
        assert forall|i: int| 0 <= i < manifest.verbs@.len() implies (
        #[trigger] manifest.verbs@[i]).shape != VerbShape::Wake || !same_ignoring_case(
            manifest.verbs@[i].name@,
            verb@,
        ) by {}
    }
}

/// A signal wakes by its verb alone, and only by it: the status, the details
/// and the note play no part.
pub proof fn law_verb_alone_decides(manifest: VerbManifest, a: Seq<char>, b: Seq<char>)
    requires
        parsed(a) is Some,
        parsed(b) is Some,
        same_ignoring_case(parsed(a)->0.verb, parsed(b)->0.verb),
    ensures
        wake_worthy(manifest, a) == wake_worthy(manifest, b),
        wake_worthy(manifest, a) <==> exists|i: int|
            0 <= i < manifest.verbs@.len() && (#[trigger] manifest.verbs@[i]).shape
                == VerbShape::Wake && same_ignoring_case(
                manifest.verbs@[i].name@,
                parsed(a)->0.verb,
            ),
{
    let x = parsed(a)->0.verb;
    let y = parsed(b)->0.verb;
    if manifest.wakes(x) {
        let i = choose|i: int|
            0 <= i < manifest.verbs@.len() && #[trigger] manifest.verbs@[i].shape == VerbShape::Wake
                && same_ignoring_case(manifest.verbs@[i].name@, x);
        assert(manifest.verbs@[i].shape == VerbShape::Wake && same_ignoring_case(
            manifest.verbs@[i].name@,
            y,
        ));
    }
    if manifest.wakes(y) {
        let i = choose|i: int|
            0 <= i < manifest.verbs@.len() && #[trigger] manifest.verbs@[i].shape == VerbShape::Wake
                && same_ignoring_case(manifest.verbs@[i].name@, y);
        assert(manifest.verbs@[i].shape == VerbShape::Wake && same_ignoring_case(
            manifest.verbs@[i].name@,
            x,
        ));
    }
    if exists|i: int|
        0 <= i < manifest.verbs@.len() && (#[trigger] manifest.verbs@[i]).shape == VerbShape::Wake
            && same_ignoring_case(manifest.verbs@[i].name@, x) {
        let i = choose|i: int|
            0 <= i < manifest.verbs@.len() && (#[trigger] manifest.verbs@[i]).shape
                == VerbShape::Wake && same_ignoring_case(manifest.verbs@[i].name@, x);
        assert(manifest.verbs@[i].shape == VerbShape::Wake);
    }
}

/// A signal claims to answer an ask exactly if its verb is `answer`, in
/// whichever case, and a detail says what it resolves; of several the last.
pub proof fn law_answer_claims_the_ask_it_resolves(
    text: &str,
    ask: Option<String>,
    details: Seq<(Seq<char>, Seq<char>)>,
    k: int,
)
    requires
        call_ensures(resolved_ask_id, (text,), ask),
        parsed(text@) matches Some(sig) ==> sig.details == details,
    ensures
        parsed(text@) is None ==> ask is None,
        parsed(text@) matches Some(sig) ==> lower(sig.verb) != lower("answer"@) ==> ask is None,
        (forall|i: int| 0 <= i < details.len() ==> (#[trigger] details[i]).0 != "resolves"@)
            ==> ask is None,
        parsed(text@) is Some && lower(parsed(text@)->0.verb) == lower("answer"@) && 0 <= k
            < details.len() && details[k].0 == "resolves"@ && (forall|j: int|
            k < j < details.len() ==> (#[trigger] details[j]).0 != "resolves"@) ==> (
        ask matches Some(id) && id@ == details[k].1),
{
    law_last_detail_of_a_key_counts(details, "resolves"@);
}

/// What wakes by its verb needs a reply, whatever it answers. Of the rest, what
/// claims to answer an ask is an answered ask, and everything else is
/// informational.
pub proof fn law_what_wakes_needs_a_reply(manifest: &VerbManifest, text: &str, section: Section)
    requires
        call_ensures(classify, (manifest, text), section),
    ensures
        section == Section::MustReply <==> wake_worthy(*manifest, text@),
        section == Section::Answered <==> !wake_worthy(*manifest, text@) && claimed_ask(
            text@,
        ) is Some,
        section == Section::Informational <==> !wake_worthy(*manifest, text@) && claimed_ask(
            text@,
        ) is None,
{
}

proof fn lemma_entries_hold_each(rows: Seq<SignalRow>, k: int) -> (at: int)
    requires
        0 <= k < rows.len(),
    ensures
        occurs_at(entries_text(rows), entry_text(rows[k]), at),
    decreases rows.len(),
{
    let before = entries_text(rows.drop_last());
    let all = entries_text(rows);
    if k == rows.len() - 1 {
        let at: int = before.len() as int;
        assert(all.subrange(at, at + entry_text(rows[k]).len()) =~= entry_text(rows[k]));
        at
    } else {
        let at = lemma_entries_hold_each(rows.drop_last(), k);
        let pat = entry_text(rows[k]);
        assert(rows.drop_last()[k] == rows[k]);
        assert(all.subrange(at, at + pat.len()) =~= before.subrange(at, at + pat.len()));
        at
    }
}

proof fn lemma_part_is_held(a: Seq<char>, s: Seq<char>, b: Seq<char>, pat: Seq<char>, at: int)
    requires
        occurs_at(s, pat, at),
    ensures
        has_text(a + s + b, pat),
{
    let whole = a + s + b;
    let i: int = a.len() + at;
    assert(whole.subrange(i, i + pat.len()) =~= s.subrange(at, at + pat.len()));
    assert(occurs_at(whole, pat, i));
}

proof fn lemma_section_is_held(
    manifest: VerbManifest,
    repo_name: Seq<char>,
    rows: Seq<SignalRow>,
    section: Section,
    pat: Seq<char>,
    at: int,
)
    requires
        occurs_at(prompt_section(manifest, rows, section, repo_name), pat, at),
    ensures
        has_text(wake_prompt_text(manifest, repo_name, rows), pat),
{
    let opening = prompt_opening(repo_name);
    let one = prompt_section(manifest, rows, Section::MustReply, repo_name);
    let two = prompt_section(manifest, rows, Section::Answered, repo_name);
    let three = prompt_section(manifest, rows, Section::Informational, repo_name);
    let whole = wake_prompt_text(manifest, repo_name, rows);
    match section {
        Section::MustReply => {
            assert(whole =~= opening + one + (two + three + PROMPT_CLOSING@));
            lemma_part_is_held(opening, one, two + three + PROMPT_CLOSING@, pat, at);
        },
        Section::Answered => {
            assert(whole =~= (opening + one) + two + (three + PROMPT_CLOSING@));
            lemma_part_is_held(opening + one, two, three + PROMPT_CLOSING@, pat, at);
        },
        Section::Informational => {
            assert(whole =~= (opening + one + two) + three + PROMPT_CLOSING@);
            lemma_part_is_held(opening + one + two, three, PROMPT_CLOSING@, pat, at);
        },
    }
}

/// The prompt tells of every signal. Of those that need a reply the first ten
/// are listed, of answered asks and of informational signals the first five
/// each, every one with its author, its text and its id. Where there are more,
/// a line says how many more.
pub proof fn law_prompt_tells_of_every_signal(
    manifest: &VerbManifest,
    repo_name: &str,
    signals: &[PendingSignal],
    out: String,
    section: Section,
    k: int,
)
    requires
        call_ensures(build_wake_prompt, (manifest, repo_name, signals), out),
    ensures
        ({
            let rows = bucket(*manifest, signal_rows(signals@), section);
            let cap: int = if section == Section::MustReply {
                10
            } else {
                5
            };
            &&& 0 <= k < rows.len() && k < cap ==> has_text(
                out@,
                "- [from "@ + rows[k].2 + "] "@ + indented(rows[k].1) + " (id: "@ + rows[k].0
                    + ")\n"@,
            )
            &&& rows.len() > cap ==> has_text(
                out@,
                "- ... and "@ + decimal((rows.len() - cap) as nat)
                    + " more. Run `legion bullpen --repo "@ + repo_name@
                    + " --signals` to see them all.\n"@,
            )
        }),
{
    let all = signal_rows(signals@);
    let rows = bucket(*manifest, all, section);
    let cap = cap_of(section);
    let text = prompt_section(*manifest, all, section, repo_name@);
    if rows.len() > 0 {
        let shown = rows.take(listed(rows.len(), cap) as int);
        let lead = "\n"@ + header_of(section) + "\n\n"@;
        let body = lead + entries_text(shown);
        if 0 <= k < rows.len() && k < cap {
            let at = lemma_entries_hold_each(shown, k);
            let pat = entry_text(rows[k]);
            let i: int = lead.len() + at;
            assert(body.subrange(i, i + pat.len()) =~= entries_text(shown).subrange(
                at,
                at + pat.len(),
            ));
            assert(text.subrange(i, i + pat.len()) =~= body.subrange(i, i + pat.len()));
            assert(occurs_at(text, pat, i));
            lemma_section_is_held(*manifest, repo_name@, all, section, pat, i);
        }
        if rows.len() > cap {
            let pat = overflow_text((rows.len() - cap) as nat, repo_name@);
            let i: int = body.len() as int;
            assert(text.subrange(i, i + pat.len()) =~= pat);
            assert(occurs_at(text, pat, i));
            lemma_section_is_held(*manifest, repo_name@, all, section, pat, i);
        }
    }
}

/// The signals that need a reply come first in the prompt, then the answered
/// asks, then the informational ones, each kind in the order of the signals
/// and under its own header; a kind without signals is left out.
pub proof fn law_prompt_puts_what_needs_a_reply_first(
    manifest: VerbManifest,
    repo_name: Seq<char>,
    rows: Seq<SignalRow>,
)
    ensures
        ({
            let must = prompt_section(manifest, rows, Section::MustReply, repo_name);
            let answered = prompt_section(manifest, rows, Section::Answered, repo_name);
            let informational = prompt_section(manifest, rows, Section::Informational, repo_name);
            let opening =
                "You were auto-woken by legion watch. The following signal(s) are directed at you ("@
                + repo_name + ").\n"@;
            wake_prompt_text(manifest, repo_name, rows) == opening + must + answered + informational
                + PROMPT_CLOSING@
        }),
        forall|section: Section|
            (#[trigger] bucket(manifest, rows, section)).len() == 0 ==> prompt_section(
                manifest,
                rows,
                section,
                repo_name,
            ).len() == 0,
        forall|section: Section|
            (#[trigger] bucket(manifest, rows, section)).len() > 0 ==> {
                let header = match section {
                    Section::MustReply => MUST_REPLY_HEADER@,
                    Section::Answered => ANSWERED_HEADER@,
                    Section::Informational => INFORMATIONAL_HEADER@,
                };
                let lead = "\n"@ + header + "\n\n"@;
                let text = prompt_section(manifest, rows, section, repo_name);
                text.len() >= lead.len() && text.take(lead.len() as int) == lead
            },
{
    assert forall|section: Section|
        (#[trigger] bucket(manifest, rows, section)).len() > 0 implies {
        let header = match section {
            Section::MustReply => MUST_REPLY_HEADER@,
            Section::Answered => ANSWERED_HEADER@,
            Section::Informational => INFORMATIONAL_HEADER@,
        };
        let lead = "\n"@ + header + "\n\n"@;
        let text = prompt_section(manifest, rows, section, repo_name);
        text.len() >= lead.len() && text.take(lead.len() as int) == lead
    } by {
        let lead = "\n"@ + header_of(section) + "\n\n"@;
        let text = prompt_section(manifest, rows, section, repo_name);
        assert(text.take(lead.len() as int) =~= lead);
    }
}

} // verus!
