//! Nudging idle sessions.
//!
//! The watcher cannot spawn into a repo that a live session holds, and an idle
//! session drains its mail only when it takes a turn. These functions find
//! such a session, decide whether a nudge can help, and write the fixed,
//! content-free prompt that a courier carries to it. A nudge delivers nothing:
//! it only taps the session to take a turn.
use std::time::Instant;
use vstd::prelude::*;
use crate::board::{notifies, should_notify, Reflection};
use crate::clock::{is_elapsed, is_instant_read};
use crate::json::{json_array, json_data, member_text, parse_array, text_member, values_data};
use crate::locks::{
    elapsed_since, is_elapsed_since, is_within_window, within_window, RepoTimes, NANOS_PER_SEC,
};
use crate::number::{decimal, push_decimal};
use crate::scan::{has_text, join, join_upto, joined, occurs_at, slice_text, texts};
use crate::signal::{opt_str, opt_text};
use crate::text::{lower, text_eq, to_ascii_lowercase, to_chars, to_text};

verus! {

broadcast use vstd::seq_lib::group_seq_properties;

/// The name under which the courier speaks: the watcher, never a repo.
pub const COURIER_IDENTITY: &'static str = "legion-watch";

// -- Live sessions -----------------------------------------------------------

/// Whether a session is in a turn.
#[derive(Debug, Clone, Copy, PartialEq, Eq, Structural)]
pub enum SessionStatus {
    Idle,
    Busy,
}

/// An interactive session.
#[derive(Debug)]
pub struct LiveSession {
    pub pid: u32,
    pub cwd: String,
    pub name: String,
    pub status: SessionStatus,
}

/// A row of the session list, of which any field may be missing.
#[derive(Debug)]
pub struct RawLiveSessionRow {
    pub pid: Option<u32>,
    pub cwd: Option<String>,
    pub name: Option<String>,
    pub status: Option<SessionStatus>,
    pub kind: Option<String>,
}

/// Whether a row describes a session that can be nudged: it is interactive,
/// or from a harness that does not tell kinds apart, and nothing is missing.
pub open spec fn is_eligible(row: RawLiveSessionRow) -> bool {
    &&& row.kind matches Some(kind) ==> kind@ == "interactive"@
    &&& row.pid is Some
    &&& row.cwd is Some
    &&& row.name is Some
    &&& row.status is Some
}

/// The session that an eligible row describes.
pub open spec fn session_of(row: RawLiveSessionRow) -> LiveSession {
    LiveSession {
        pid: row.pid->0,
        cwd: row.cwd->0,
        name: row.name->0,
        status: row.status->0,
    }
}

impl RawLiveSessionRow {
    /// The session that the row describes, if it can be nudged.
    pub fn into_live_session(self) -> (session: Option<LiveSession>)
        ensures
            session == (if is_eligible(self) {
                Some(session_of(self))
            } else {
                None
            }),
    {
        match &self.kind {
            Some(kind) => {
                if !text_eq(kind.as_str(), "interactive") {
                    return None;
                }
            },
            None => {},
        }
        match (self.pid, self.cwd, self.name, self.status) {
            (Some(pid), Some(cwd), Some(name), Some(status)) => Some(
                LiveSession { pid, cwd, name, status },
            ),
            _ => None,
        }
    }
}

/// How many characters of a hint a skip line shows.
pub const MAX_HINT_CHARS: usize = 32;

/// How many skipped rows a skip line lists.
pub const MAX_LOGGED_SKIPS: usize = 8;

/// What `str` writes of itself for `{:?}`: quoted, with quotes and control
/// characters escaped.
pub uninterp spec fn debug_text(s: Seq<char>) -> Seq<char>;

/// The `Debug` form of a `str`, as `format!` writes it for `{:?}`.
#[verifier::external_body]
pub(crate) fn debug_quoted(s: &str) -> (out: String)
    ensures
        out@ == debug_text(s@),
{
    format!("{s:?}")
}

/// The first characters of `s`, up to the hint cap.
pub open spec fn capped_hint(s: Seq<char>) -> Seq<char> {
    if s.len() <= MAX_HINT_CHARS {
        s
    } else {
        s.take(MAX_HINT_CHARS as int)
    }
}

/// Caps a hint.
pub fn cap_hint(s: &str) -> (out: String)
    ensures
        out@ == capped_hint(s@),
{
    let chars = to_chars(s);
    if chars.len() <= MAX_HINT_CHARS {
        s.to_string()
    } else {
        let out = slice_text(chars.as_slice(), 0, MAX_HINT_CHARS);
        assert(s@.take(MAX_HINT_CHARS as int) == s@.subrange(0, MAX_HINT_CHARS as int));
        out
    }
}

/// A row of the session list as it was read: the hints for a skip line, and
/// the row, or why it could not be read.
#[derive(Debug)]
pub struct AgentRow {
    pub kind_hint: Option<String>,
    pub state_hint: Option<String>,
    pub decoded: Result<RawLiveSessionRow, String>,
}

/// The rows in what the agent program printed. `None` where that is no list.
pub fn agent_values(stdout: &[u8]) -> (values: Option<Vec<serde_json::Value>>)
    ensures
        values is Some <==> json_array(stdout@) is Some,
        values matches Some(v) ==> json_array(stdout@) == Some(values_data(v@)),
{
    parse_array(stdout)
}

fn owned(text: Option<&str>) -> (copy: Option<String>)
    ensures
        opt_text(copy) == opt_str(text),
{
    match text {
        Some(t) => Some(t.to_string()),
        None => None,
    }
}

/// A row with the hints that are read from it whether or not it could be
/// decoded.
pub fn agent_row(value: &serde_json::Value, decoded: Result<RawLiveSessionRow, String>) -> (row: AgentRow)
    ensures
        opt_text(row.kind_hint) == text_member(json_data(*value), "kind"@),
        opt_text(row.state_hint) == text_member(json_data(*value), "state"@),
        row.decoded == decoded,
{
    AgentRow {
        kind_hint: owned(member_text(value, "kind")),
        state_hint: owned(member_text(value, "state")),
        decoded,
    }
}

/// A hint or its default.
pub open spec fn hint_or(hint: Option<Seq<char>>, default: Seq<char>) -> Seq<char> {
    match hint {
        Some(h) => h,
        None => default,
    }
}

/// The line about a row that is skipped: its kind and state, capped and
/// quoted, and why it could not be read, if that is so.
pub open spec fn skip_line(row: AgentRow) -> Seq<char> {
    let base = "kind="@ + debug_text(capped_hint(hint_or(opt_text(row.kind_hint), "unknown"@)))
        + " state="@ + debug_text(capped_hint(hint_or(opt_text(row.state_hint), "none"@)));
    match row.decoded {
        Ok(_) => base,
        Err(e) => base + " (unparseable row: "@ + e@ + ")"@,
    }
}

/// Whether a row is skipped.
pub open spec fn is_skipped(row: AgentRow) -> bool {
    match row.decoded {
        Ok(raw) => !is_eligible(raw),
        Err(_) => true,
    }
}

/// The sessions among rows, in order.
pub open spec fn sessions_among(rows: Seq<AgentRow>) -> Seq<LiveSession>
    decreases rows.len(),
{
    if rows.len() == 0 {
        Seq::empty()
    } else {
        let before = sessions_among(rows.drop_last());
        if is_skipped(rows.last()) {
            before
        } else {
            before.push(session_of(rows.last().decoded->Ok_0))
        }
    }
}

/// The lines about the rows that are skipped, in order.
pub open spec fn skip_lines(rows: Seq<AgentRow>) -> Seq<Seq<char>>
    decreases rows.len(),
{
    if rows.len() == 0 {
        Seq::empty()
    } else {
        let before = skip_lines(rows.drop_last());
        if is_skipped(rows.last()) {
            before.push(skip_line(rows.last()))
        } else {
            before
        }
    }
}

/// What the session list says: the sessions that can be nudged, and a line
/// about each row that is skipped.
#[derive(Debug)]
pub struct Roster {
    pub sessions: Vec<LiveSession>,
    pub skipped: Vec<String>,
}

fn write_hint(hint: &Option<String>, default: &str) -> (out: String)
    ensures
        out@ == debug_text(capped_hint(hint_or(opt_text(*hint), default@))),
{
    let raw = match hint {
        Some(h) => cap_hint(h.as_str()),
        None => cap_hint(default),
    };
    debug_quoted(raw.as_str())
}

/// Goes over the rows of the session list. Each row stands for itself: one
/// that is malformed or describes a background session costs no other row.
/// `None` means that the list could not be obtained or read at all; then there
/// are no sessions.
pub fn list_live_sessions(listed: Option<Vec<AgentRow>>) -> (roster: Roster)
    ensures
        roster.sessions@ == (match listed {
            Some(rows) => sessions_among(rows@),
            None => Seq::empty(),
        }),
        texts(roster.skipped@) == (match listed {
            Some(rows) => skip_lines(rows@),
            None => Seq::empty(),
        }),
{
    let mut sessions: Vec<LiveSession> = Vec::new();
    let mut skipped: Vec<String> = Vec::new();
    let mut rows = match listed {
        Some(rows) => rows,
        None => {
            assert(texts(skipped@) =~= Seq::empty());
            return Roster { sessions, skipped };
        },
    };
    let ghost all = rows@;
    let n: usize = rows.len();
    assert(sessions@ =~= sessions_among(all.take(0)));
    assert(texts(skipped@) =~= skip_lines(all.take(0)));
    for i in 0..n
        invariant
            n == all.len(),
            rows@ == all.skip(i as int),
            sessions@ == sessions_among(all.take(i as int)),
            texts(skipped@) == skip_lines(all.take(i as int)),
    {
        assert(all.take(i + 1).drop_last() == all.take(i as int));
        assert(all.take(i + 1).last() == all[i as int]);
        assert(all.skip(i as int)[0] == all[i as int]);
        assert(all.skip(i as int).remove(0) =~= all.skip(i + 1));
        let row = rows.remove(0);
        let mut line = "kind=".to_string();
        line.append(write_hint(&row.kind_hint, "unknown").as_str());
        line.append(" state=");
        line.append(write_hint(&row.state_hint, "none").as_str());
        match row.decoded {
            Ok(raw) => match raw.into_live_session() {
                Some(session) => {
                    sessions.push(session);
                },
                None => {
                    let ghost before = skipped@;
                    skipped.push(line);
                    assert(texts(skipped@) =~= texts(before).push(line@));
                },
            },
            Err(e) => {
                line.append(" (unparseable row: ");
                line.append(e.as_str());
                line.append(")");
                let ghost before = skipped@;
                skipped.push(line);
                assert(texts(skipped@) =~= texts(before).push(line@));
            },
        }
    }
    assert(all.take(all.len() as int) == all);
    Roster { sessions, skipped }
}

/// Whether the skip line is to be logged: only when it differs from the one
/// of the call before. A call with nothing to skip forgets it, so that a
/// pattern which comes back is logged again.
pub fn skip_summary_should_log(last: &mut Option<String>, summary: Option<&str>) -> (log: bool)
    ensures
        log == (summary is Some && opt_text(*old(last)) != opt_str(summary)),
        opt_text(*final(last)) == opt_str(summary),
{
    match summary {
        None => {
            *last = None;
            false
        },
        Some(s) => {
            let same = match last {
                Some(previous) => text_eq(previous.as_str(), s),
                None => false,
            };
            if same {
                return false;
            }
            *last = Some(s.to_string());
            true
        },
    }
}

/// The skip lines on one line: all of them, or the first few and how many
/// more there are.
pub open spec fn capped_summary(skipped: Seq<Seq<char>>) -> Seq<char> {
    if skipped.len() > MAX_LOGGED_SKIPS {
        joined(skipped.take(MAX_LOGGED_SKIPS as int), "; "@) + "; and "@ + decimal(
            (skipped.len() - MAX_LOGGED_SKIPS) as nat,
        ) + " more"@
    } else {
        joined(skipped, "; "@)
    }
}

/// Joins the skip lines for the log.
pub fn cap_skip_summaries(skipped: &[String]) -> (out: String)
    ensures
        out@ == capped_summary(texts(skipped@)),
{
    if skipped.len() > MAX_LOGGED_SKIPS {
        let mut out = join_upto(skipped, MAX_LOGGED_SKIPS, "; ");
        out.append("; and ");
        push_decimal(&mut out, (skipped.len() - MAX_LOGGED_SKIPS) as u64);
        out.append(" more");
        out
    } else {
        join(skipped, "; ")
    }
}

// -- Paths -------------------------------------------------------------------

/// Whether `s` begins with `prefix`.
pub open spec fn begins_with(s: Seq<char>, prefix: Seq<char>) -> bool {
    prefix.len() <= s.len() && s.take(prefix.len() as int) == prefix
}

/// `path` without the Windows verbatim prefix; a verbatim network path becomes
/// a plain one.
pub open spec fn without_verbatim(path: Seq<char>) -> Seq<char> {
    if begins_with(path, "\\\\?\\UNC\\"@) {
        "\\\\"@ + path.skip(8)
    } else if begins_with(path, "\\\\?\\"@) {
        path.skip(4)
    } else {
        path
    }
}

/// `c` with a backslash turned into a slash.
pub open spec fn forward(c: char) -> char {
    if c == '\\' {
        '/'
    } else {
        c
    }
}

/// `path` with every backslash turned into a slash.
pub open spec fn forward_slashes(path: Seq<char>) -> Seq<char> {
    path.map_values(|c: char| forward(c))
}

/// `path` without one trailing slash; a bare root is left alone.
pub open spec fn without_trailing_slash(path: Seq<char>) -> Seq<char> {
    if path.len() > 1 && path.last() == '/' {
        path.drop_last()
    } else {
        path
    }
}

/// The form in which two paths are compared. Case is folded only for file
/// systems that ignore it.
pub open spec fn comparable_path(path: Seq<char>, fold_case: bool) -> Seq<char> {
    let plain = without_trailing_slash(forward_slashes(without_verbatim(path)));
    if fold_case {
        lower(plain)
    } else {
        plain
    }
}

fn has_prefix(s: &Vec<char>, prefix: &Vec<char>) -> (yes: bool)
    ensures
        yes == begins_with(s@, prefix@),
{
    if s.len() < prefix.len() {
        return false;
    }
    for i in 0..prefix.len()
        invariant
            prefix@.len() <= s@.len(),
            forall|j: int| 0 <= j < i ==> s@[j] == prefix@[j],
    {
        if s[i] != prefix[i] {
            assert(s@.take(prefix@.len() as int)[i as int] != prefix@[i as int]);
            return false;
        }
    }
    assert(s@.take(prefix@.len() as int) =~= prefix@);
    true
}

fn push_forward(out: &mut Vec<char>, s: &Vec<char>, from: usize)
    requires
        from <= s@.len(),
    ensures
        final(out)@ == old(out)@ + forward_slashes(s@.skip(from as int)),
{
    let ghost start = out@;
    let ghost rest = forward_slashes(s@.skip(from as int));
    for i in from..s.len()
        invariant
            from <= s@.len(),
            rest == forward_slashes(s@.skip(from as int)),
            out@ == start + rest.take(i - from),
    {
        let c = if s[i] == '\\' {
            '/'
        } else {
            s[i]
        };
        out.push(c);
        assert(rest[i - from] == c);
        assert(rest.take(i + 1 - from) == rest.take(i - from).push(c));
    }
    assert(rest.take(rest.len() as int) == rest);
}

/// Brings a resolved path into the form in which paths are compared: without
/// the Windows verbatim prefix, with forward slashes, without one trailing
/// slash, and in lower case where `fold_case` says that the file system
/// ignores case.
pub fn normalize_path_for_comparison(path: &str, fold_case: bool) -> (out: String)
    ensures
        out@ == comparable_path(path@, fold_case),
{
    let chars = to_chars(path);
    let network = to_chars("\\\\?\\UNC\\");
    let verbatim = to_chars("\\\\?\\");
    let mut plain: Vec<char> = Vec::new();
    proof {
        reveal_strlit("\\\\?\\UNC\\");
        reveal_strlit("\\\\?\\");
        reveal_strlit("\\\\");
    }
    if has_prefix(&chars, &network) {
        plain.push('/');
        plain.push('/');
        push_forward(&mut plain, &chars, 8);
        assert(plain@ =~= forward_slashes(without_verbatim(path@)));
    } else if has_prefix(&chars, &verbatim) {
        push_forward(&mut plain, &chars, 4);
        assert(plain@ =~= forward_slashes(without_verbatim(path@)));
    } else {
        push_forward(&mut plain, &chars, 0);
        assert(chars@.skip(0) =~= chars@);
        assert(plain@ =~= forward_slashes(without_verbatim(path@)));
    }
    let n: usize = plain.len();
    if n > 1 && plain[n - 1] == '/' {
        let _ = plain.pop();
    }
    let text = to_text(plain.as_slice());
    if fold_case {
        to_ascii_lowercase(text.as_str())
    } else {
        text
    }
}

/// A path and its verbatim form compare equal.
pub proof fn law_verbatim_prefix_does_not_matter(path: Seq<char>, fold_case: bool)
    requires
        !begins_with(path, "\\\\?\\"@),
        !begins_with(path, "UNC\\"@),
    ensures
        comparable_path("\\\\?\\"@ + path, fold_case) == comparable_path(path, fold_case),
{
    reveal_strlit("\\\\?\\UNC\\");
    reveal_strlit("\\\\?\\");
    reveal_strlit("UNC\\");
    let v = "\\\\?\\"@ + path;
    assert(v.take(4) =~= "\\\\?\\"@);
    assert(v.skip(4) =~= path);
    if begins_with(v, "\\\\?\\UNC\\"@) {
        assert(path.take(4) =~= "UNC\\"@) by {
            assert forall|i: int| 0 <= i < 4 implies path.take(4)[i] == "UNC\\"@[i] by {
                assert(v.take(8)[i + 4] == "\\\\?\\UNC\\"@[i + 4]);
            }
        }
    }
    if begins_with(path, "\\\\?\\UNC\\"@) {
        assert(path.take(4) =~= "\\\\?\\"@) by {
            assert forall|i: int| 0 <= i < 4 implies path.take(4)[i] == "\\\\?\\"@[i] by {
                assert(path.take(8)[i] == "\\\\?\\UNC\\"@[i]);
            }
        }
    }
}

/// A trailing separator does not matter: a path that does not end with one
/// compares equal to itself with one.
pub proof fn law_trailing_separator_does_not_matter(path: Seq<char>, fold_case: bool)
    requires
        path.len() > 0,
        path.last() != '/',
        path.last() != '\\',
    ensures
        comparable_path(path.push('/'), fold_case) == comparable_path(path, fold_case),
{
    reveal_strlit("\\\\?\\UNC\\");
    reveal_strlit("\\\\?\\");
    reveal_strlit("\\\\");
    let longer = path.push('/');
    if begins_with(path, "\\\\?\\UNC\\"@) {
        assert(longer.take(8) =~= path.take(8));
    }
    if begins_with(longer, "\\\\?\\UNC\\"@) {
        assert(path.len() >= 8) by {
            if path.len() < 8 {
                assert(longer.take(8)[path.len() as int] == '/');
            }
        }
        assert(longer.take(8) =~= path.take(8));
    }
    if begins_with(path, "\\\\?\\"@) {
        assert(longer.take(4) =~= path.take(4));
    }
    if begins_with(longer, "\\\\?\\"@) {
        assert(path.len() >= 4) by {
            if path.len() < 4 {
                assert(longer.take(4)[path.len() as int] == '/');
            }
        }
        assert(longer.take(4) =~= path.take(4));
    }
    let a = without_verbatim(path);
    let b = without_verbatim(longer);
    if begins_with(path, "\\\\?\\UNC\\"@) {
        if path.len() == 8 {
            assert(path.take(8)[7] == path.last());
        }
    } else if begins_with(path, "\\\\?\\"@) {
        if path.len() == 4 {
            assert(path.take(4)[3] == path.last());
        }
    }
    assert(b =~= a.push('/'));
    assert(a.len() > 0 && a.last() == path.last());
    assert(forward_slashes(b) =~= forward_slashes(a).push('/'));
    assert(forward_slashes(b).drop_last() =~= forward_slashes(a));
}

// -- Courier targets ---------------------------------------------------------

/// The longest name that a courier is sent to.
pub const MAX_COURIER_TARGET_NAME_LEN: usize = 64;

/// Whether `c` may stand in the name of a courier target.
pub open spec fn is_name_char(c: char) -> bool {
    ||| ('a' <= c && c <= 'z')
    ||| ('A' <= c && c <= 'Z')
    ||| ('0' <= c && c <= '9')
    ||| c == ' '
    ||| c == '-'
    ||| c == '_'
    ||| c == '.'
}

/// Whether a name can be put between quotes in a prompt as it is: not empty,
/// not too long, and made of ASCII letters and digits, spaces, `-`, `_` and
/// `.` alone.
pub open spec fn is_safe_name(name: Seq<char>) -> bool {
    &&& 0 < name.len() <= MAX_COURIER_TARGET_NAME_LEN
    &&& forall|i: int| 0 <= i < name.len() ==> is_name_char(#[trigger] name[i])
}

/// Whether a courier can be sent to a session of this name.
pub fn is_valid_courier_target_name(name: &str) -> (yes: bool)
    ensures
        yes == is_safe_name(name@),
{
    let chars = to_chars(name);
    if chars.len() == 0 || chars.len() > MAX_COURIER_TARGET_NAME_LEN {
        return false;
    }
    for i in 0..chars.len()
        invariant
            chars@ == name@,
            forall|j: int| 0 <= j < i ==> is_name_char(#[trigger] name@[j]),
    {
        let c = chars[i];
        let fine = ('a' <= c && c <= 'z') || ('A' <= c && c <= 'Z') || ('0' <= c && c <= '9') || c
            == ' ' || c == '-' || c == '_' || c == '.';
        if !fine {
            assert(!is_name_char(name@[i as int]));
            return false;
        }
    }
    true
}

/// The first session whose directory compares equal to `workdir`, by
/// position. `cwds` are the resolved directories of the sessions.
pub open spec fn first_in_dir(cwds: Seq<Seq<char>>, workdir: Seq<char>, fold_case: bool, i: int) -> int
    decreases cwds.len() - i,
{
    if i >= cwds.len() {
        cwds.len() as int
    } else if comparable_path(cwds[i], fold_case) == comparable_path(workdir, fold_case) {
        i
    } else {
        first_in_dir(cwds, workdir, fold_case, i + 1)
    }
}

/// The live session of a workdir. `cwds` are the directories of the sessions
/// and `workdir` that of the repo, each resolved as far as it could be. A
/// session whose name is not safe is treated as no match.
pub fn find_live_session_for_workdir<'a>(
    sessions: &'a [LiveSession],
    cwds: &[String],
    workdir: &str,
    fold_case: bool,
) -> (found: Option<&'a LiveSession>)
    requires
        sessions@.len() == cwds@.len(),
    ensures
        ({
            let at = first_in_dir(texts(cwds@), workdir@, fold_case, 0);
            if at < sessions@.len() && is_safe_name(sessions@[at].name@) {
                found == Some(&sessions@[at])
            } else {
                found is None
            }
        }),
{
    let target = normalize_path_for_comparison(workdir, fold_case);
    for i in 0..sessions.len()
        invariant
            sessions@.len() == cwds@.len(),
            target@ == comparable_path(workdir@, fold_case),
            first_in_dir(texts(cwds@), workdir@, fold_case, 0) == first_in_dir(
                texts(cwds@),
                workdir@,
                fold_case,
                i as int,
            ),
    {
        let cwd = normalize_path_for_comparison(cwds[i].as_str(), fold_case);
        assert(texts(cwds@)[i as int] == cwds@[i as int]@);
        if text_eq(cwd.as_str(), target.as_str()) {
            if is_valid_courier_target_name(sessions[i].name.as_str()) {
                return Some(&sessions[i]);
            } else {
                return None;
            }
        }
    }
    None
}

/// Whether a nudge can help: the session is idle, mail is waiting for it, and
/// it was not nudged just now.
pub fn should_nudge(status: SessionStatus, has_undrained_data: bool, is_cooling: bool) -> (yes: bool)
    ensures
        yes == (status == SessionStatus::Idle && has_undrained_data && !is_cooling),
{
    status == SessionStatus::Idle && has_undrained_data && !is_cooling
}

/// How many posts behind the cursor are read to see whether mail waits.
pub const UNDRAINED_CHECK_LIMIT: usize = 50;

/// What the store knows of the mail of a repo.
#[derive(Debug)]
pub enum MailLookup {
    /// The delivery cursor was never set: the first delivery starts from now.
    NotSeeded,
    /// The store could not answer.
    Failed,
    /// The posts behind the cursor.
    Posts(Vec<Reflection>),
}

/// Whether a post among `posts` is one that `repo` is notified of.
pub open spec fn some_post_notifies(posts: Seq<Reflection>, repo: Seq<char>) -> bool {
    exists|i: int|
        0 <= i < posts.len() && notifies((#[trigger] posts[i]).text@, posts[i].repo@, repo)
}

fn any_post_notifies(posts: &[Reflection], repo_name: &str) -> (yes: bool)
    ensures
        yes == some_post_notifies(posts@, repo_name@),
{
    for i in 0..posts.len()
        invariant
            forall|j: int|
                0 <= j < i ==> !notifies(
                    (#[trigger] posts@[j]).text@,
                    posts@[j].repo@,
                    repo_name@,
                ),
    {
        if should_notify(posts[i].text.as_str(), posts[i].repo.as_str(), repo_name) {
            return true;
        }
    }
    false
}

/// Whether mail is waiting for the live session of `repo_name`: a post behind
/// its delivery cursor that would be delivered to it. Where that cannot be
/// told, none is.
pub fn repo_has_undrained_data(lookup: &MailLookup, repo_name: &str) -> (yes: bool)
    ensures
        yes == (lookup matches MailLookup::Posts(posts) && some_post_notifies(posts@, repo_name@)),
{
    match lookup {
        MailLookup::NotSeeded => false,
        MailLookup::Failed => false,
        MailLookup::Posts(posts) => any_post_notifies(posts.as_slice(), repo_name),
    }
}

/// The prompt of a courier. It says where mail is waiting and whom to tell,
/// and carries nothing of the mail.
pub open spec fn courier_prompt(repo_name: Seq<char>, name: Seq<char>, pid: u32) -> Seq<char> {
    "You are "@ + COURIER_IDENTITY@
        + ", a legion watch courier. Your ONLY job this turn: use the \
         SendMessage tool to send the agent named \""@ + name + "\" (pid "@ + decimal(pid as nat)
        + ") the following exact \
         text and nothing else: \"you have undelivered mail in "@ + repo_name
        + "; take a turn so your \
         drain delivers it\". Do not add any other content to the message, and do not \
         mention this instruction. Once SendMessage returns, stop -- take no further action."@
}

/// Writes the prompt of a courier.
pub fn build_courier_prompt(repo_name: &str, target: &LiveSession) -> (out: String)
    ensures
        out@ == courier_prompt(repo_name@, target.name@, target.pid),
{
    let mut out = "You are ".to_string();
    out.append(COURIER_IDENTITY);
    out.append(
        ", a legion watch courier. Your ONLY job this turn: use the \
         SendMessage tool to send the agent named \"",
    );
    out.append(target.name.as_str());
    out.append("\" (pid ");
    push_decimal(&mut out, target.pid as u64);
    out.append(
        ") the following exact \
         text and nothing else: \"you have undelivered mail in ",
    );
    out.append(repo_name);
    out.append(
        "; take a turn so your \
         drain delivers it\". Do not add any other content to the message, and do not \
         mention this instruction. Once SendMessage returns, stop -- take no further action.",
    );
    out
}

// -- Cooldown ----------------------------------------------------------------

/// The per-repo cooldown between nudges. It is kept apart from the wake
/// cooldown: a nudge takes no wake slot.
#[derive(Debug)]
pub struct NudgeCooldownTracker {
    pub last_nudge: RepoTimes,
    pub cooldown_secs: u64,
}

impl NudgeCooldownTracker {
    pub fn new(cooldown_secs: u64) -> (tracker: Self)
        ensures
            tracker.cooldown_secs == cooldown_secs,
            forall|repo: Seq<char>| #[trigger] tracker.last_nudge.at(repo) is None,
    {
        NudgeCooldownTracker { last_nudge: RepoTimes::new(), cooldown_secs }
    }

    /// Whether a repo that was last nudged `elapsed_nanos` ago is cooling
    /// down.
    pub fn cooling_at(&self, elapsed_nanos: Option<u128>) -> (yes: bool)
        ensures
            yes == within_window(elapsed_nanos, self.cooldown_secs),
    {
        is_within_window(elapsed_nanos, self.cooldown_secs)
    }

    /// Whether `repo` is cooling down now. The clock decides; see
    /// [`NudgeCooldownTracker::cooling_at`]. A repo that was never nudged is
    /// not cooling down, and with a cooldown of zero none is.
    pub fn is_cooling_down(&self, repo: &str) -> (yes: bool)
        ensures
            exists|elapsed: Option<u128>|
                is_elapsed_since(self.last_nudge.at(repo@), elapsed) && yes
                    == #[trigger] within_window(elapsed, self.cooldown_secs),
    {
        let elapsed = elapsed_since(self.last_nudge.get(repo));
        let yes = self.cooling_at(elapsed);
        assert(yes == within_window(elapsed, self.cooldown_secs));
        yes
    }

    /// Records that `repo` was just nudged, whatever was on record for it.
    /// Other repos are left alone.
    pub fn record_nudge(&mut self, repo: &str)
        ensures
            final(self).last_nudge.restarted(old(self).last_nudge, repo@),
            final(self).cooldown_secs == old(self).cooldown_secs,
    {
        self.last_nudge.set(repo, Instant::now());
    }
}

/// A nudge begins the cooldown of its repo anew, however old the nudge before:
/// the repo cools down exactly while less than the cooldown has passed since
/// the time that was recorded. Whether another repo cools down is what it was.
pub proof fn law_nudge_begins_the_cooldown_anew(
    before: NudgeCooldownTracker,
    after: NudgeCooldownTracker,
    repo: Seq<char>,
    other: Seq<char>,
    elapsed: Option<u128>,
)
    requires
        after.last_nudge.restarted(before.last_nudge, repo),
        after.cooldown_secs == before.cooldown_secs,
        other != repo,
    ensures
        after.last_nudge.at(repo) matches Some(t) && is_instant_read(t) && (is_elapsed_since(
            after.last_nudge.at(repo),
            elapsed,
        ) ==> (elapsed matches Some(n) && is_elapsed(t, n) && (within_window(
            elapsed,
            after.cooldown_secs,
        ) <==> n < before.cooldown_secs * NANOS_PER_SEC))),
        is_elapsed_since(after.last_nudge.at(other), elapsed) == is_elapsed_since(
            before.last_nudge.at(other),
            elapsed,
        ),
{
}

/// A name that a courier can be sent to cannot leave the quotes that the
/// prompt puts around it: it holds no quote, no backslash and no line break.
pub proof fn law_safe_name_stays_in_its_quotes(name: Seq<char>, c: char)
    requires
        is_safe_name(name),
        name.contains(c),
    ensures
        c != '"' && c != '\'' && c != '\\' && c != '\n' && c != '\r' && c != '`',
{
    let i = choose|i: int| 0 <= i < name.len() && name[i] == c;
    assert(is_name_char(name[i]));
}

// -- Laws --------------------------------------------------------------------

proof fn lemma_first_in_dir(
    cwds: Seq<Seq<char>>,
    workdir: Seq<char>,
    fold_case: bool,
    i: int,
    k: int,
)
    requires
        0 <= i <= k <= cwds.len(),
        forall|j: int|
            i <= j < k ==> comparable_path(#[trigger] cwds[j], fold_case) != comparable_path(
                workdir,
                fold_case,
            ),
        k < cwds.len() ==> comparable_path(cwds[k], fold_case) == comparable_path(
            workdir,
            fold_case,
        ),
    ensures
        first_in_dir(cwds, workdir, fold_case, i) == k,
    decreases k - i,
{
    if i < k {
        lemma_first_in_dir(cwds, workdir, fold_case, i + 1, k);
    }
}

/// The live session of a workdir is the first of them all that stands there,
/// at whichever place of the list. It is found exactly if its name is safe; a
/// later one does not take its place.
pub proof fn law_first_session_in_the_workdir_is_found(
    sessions: &[LiveSession],
    cwds: &[String],
    workdir: &str,
    fold_case: bool,
    found: Option<&LiveSession>,
)
    requires
        sessions@.len() == cwds@.len(),
        call_ensures(find_live_session_for_workdir, (sessions, cwds, workdir, fold_case), found),
    ensures
        forall|k: int|
            0 <= k < cwds@.len() && comparable_path((#[trigger] cwds@[k])@, fold_case)
                == comparable_path(workdir@, fold_case) && (forall|j: int|
                0 <= j < k ==> comparable_path((#[trigger] cwds@[j])@, fold_case)
                    != comparable_path(workdir@, fold_case)) ==> (if is_safe_name(
                sessions@[k].name@,
            ) {
                found == Some(&sessions@[k])
            } else {
                found is None
            }),
        (forall|k: int|
            0 <= k < cwds@.len() ==> comparable_path((#[trigger] cwds@[k])@, fold_case)
                != comparable_path(workdir@, fold_case)) ==> found is None,
{
    let dirs = texts(cwds@);
    let here = comparable_path(workdir@, fold_case);
    assert forall|k: int|
        0 <= k < cwds@.len() && comparable_path((#[trigger] cwds@[k])@, fold_case) == here && (
        forall|j: int|
            0 <= j < k ==> comparable_path((#[trigger] cwds@[j])@, fold_case)
                != here) implies (if is_safe_name(sessions@[k].name@) {
        found == Some(&sessions@[k])
    } else {
        found is None
    }) by {
        assert forall|j: int| 0 <= j < k implies comparable_path(#[trigger] dirs[j], fold_case)
            != here by {
            assert(dirs[j] == cwds@[j]@);
        }
        lemma_first_in_dir(dirs, workdir@, fold_case, 0, k);
    }
    if forall|k: int|
        0 <= k < cwds@.len() ==> comparable_path((#[trigger] cwds@[k])@, fold_case) != here {
        assert forall|j: int| 0 <= j < dirs.len() implies comparable_path(
            #[trigger] dirs[j],
            fold_case,
        ) != here by {
            assert(dirs[j] == cwds@[j]@);
        }
        lemma_first_in_dir(dirs, workdir@, fold_case, 0, dirs.len() as int);
    }
}

/// A plain path is compared as it is: without a backslash and without a slash
/// at its end nothing of it is lost, so that only equal paths compare equal.
/// Where case is folded, it is compared in lower case.
pub proof fn law_plain_path_is_compared_as_it_is(path: Seq<char>)
    requires
        !path.contains('\\'),
        path.len() > 1 ==> path.last() != '/',
    ensures
        comparable_path(path, false) == path,
        comparable_path(path, true) == lower(path),
{
    reveal_strlit("\\\\?\\UNC\\");
    reveal_strlit("\\\\?\\");
    if begins_with(path, "\\\\?\\UNC\\"@) {
        assert(path.take(8)[0] == '\\');
        assert(path[0] == '\\');
    }
    if begins_with(path, "\\\\?\\"@) {
        assert(path.take(4)[0] == '\\');
        assert(path[0] == '\\');
    }
    assert(forward_slashes(path) =~= path);
}

/// It does not matter which of the two separators a path is written with,
/// once it is no verbatim one.
pub proof fn law_separators_are_alike(path: Seq<char>, fold_case: bool)
    requires
        !begins_with(path, "\\\\?\\"@),
    ensures
        comparable_path(path, fold_case) == comparable_path(
            path.map_values(
                |c: char|
                    if c == '\\' {
                        '/'
                    } else {
                        c
                    },
            ),
            fold_case,
        ),
{
    reveal_strlit("\\\\?\\UNC\\");
    reveal_strlit("\\\\?\\");
    let other = path.map_values(
        |c: char|
            if c == '\\' {
                '/'
            } else {
                c
            },
    );
    if begins_with(path, "\\\\?\\UNC\\"@) {
        assert(path.take(4) =~= "\\\\?\\"@) by {
            assert forall|i: int| 0 <= i < 4 implies path.take(4)[i] == "\\\\?\\"@[i] by {
                assert(path.take(8)[i] == "\\\\?\\UNC\\"@[i]);
            }
        }
    }
    if begins_with(other, "\\\\?\\UNC\\"@) {
        assert(other.take(8)[0] == '\\');
    }
    if begins_with(other, "\\\\?\\"@) {
        assert(other.take(4)[0] == '\\');
    }
    assert(forward_slashes(other) =~= forward_slashes(path));
}

/// A verbatim network path compares as the plain network path.
pub proof fn law_verbatim_network_path_is_a_network_path(share: Seq<char>, fold_case: bool)
    requires
        !begins_with(share, "?\\"@),
    ensures
        comparable_path("\\\\?\\UNC\\"@ + share, fold_case) == comparable_path(
            "\\\\"@ + share,
            fold_case,
        ),
{
    reveal_strlit("\\\\?\\UNC\\");
    reveal_strlit("\\\\?\\");
    reveal_strlit("\\\\");
    reveal_strlit("?\\");
    let verbatim = "\\\\?\\UNC\\"@ + share;
    let plain = "\\\\"@ + share;
    assert(verbatim.take(8) =~= "\\\\?\\UNC\\"@);
    assert(verbatim.skip(8) =~= share);
    if begins_with(plain, "\\\\?\\"@) || begins_with(plain, "\\\\?\\UNC\\"@) {
        if begins_with(plain, "\\\\?\\UNC\\"@) {
            assert(plain.take(8)[2] == '?' && plain.take(8)[3] == '\\');
        } else {
            assert(plain.take(4)[2] == '?' && plain.take(4)[3] == '\\');
        }
        assert(share.take(2) =~= "?\\"@);
    }
}

/// A name is safe exactly if it has from one to sixty-four characters, each an
/// ASCII letter or digit, a space, `-`, `_` or `.`.
pub proof fn law_safe_names_are_short_and_plain(name: &str, yes: bool)
    requires
        call_ensures(is_valid_courier_target_name, (name,), yes),
    ensures
        yes <==> 1 <= name@.len() <= 64 && forall|i: int|
            0 <= i < name@.len() ==> {
                let c = #[trigger] name@[i] as int;
                48 <= c <= 57 || 65 <= c <= 90 || 97 <= c <= 122 || c == 32 || c == 45 || c == 46
                    || c == 95
            },
{
    if yes {
        assert forall|i: int| 0 <= i < name@.len() implies {
            let c = #[trigger] name@[i] as int;
            48 <= c <= 57 || 65 <= c <= 90 || 97 <= c <= 122 || c == 32 || c == 45 || c == 46 || c
                == 95
        } by {
            assert(is_name_char(name@[i]));
        }
    } else if 1 <= name@.len() <= 64 {
        let i = choose|i: int| 0 <= i < name@.len() && !is_name_char(#[trigger] name@[i]);
        assert(!is_name_char(name@[i]));
    }
}

/// Each row of the session list stands for itself: what a list says is what
/// its parts say, in order. A row gives either a session or a line about why
/// it is skipped, and a session exactly if it was read, its kind is missing or
/// `interactive`, and its process, directory, name and status are there.
pub proof fn law_each_row_stands_for_itself(
    before: Seq<AgentRow>,
    row: AgentRow,
    after: Seq<AgentRow>,
)
    ensures
        sessions_among(before.push(row) + after) == sessions_among(before) + sessions_among(
            seq![row],
        ) + sessions_among(after),
        skip_lines(before.push(row) + after) == skip_lines(before) + skip_lines(seq![row])
            + skip_lines(after),
        match row.decoded {
            Ok(raw) if raw.pid is Some && raw.cwd is Some && raw.name is Some && raw.status is Some
                && (raw.kind is None || raw.kind->0@ == "interactive"@) => {
                let one = sessions_among(seq![row]);
                &&& one.len() == 1
                &&& one[0].pid == raw.pid->0
                &&& one[0].cwd == raw.cwd->0
                &&& one[0].name == raw.name->0
                &&& one[0].status == raw.status->0
                &&& skip_lines(seq![row]).len() == 0
            },
            _ => sessions_among(seq![row]).len() == 0 && skip_lines(seq![row]).len() == 1,
        },
    decreases after.len(),
{
    let single = seq![row];
    assert(single.drop_last() =~= Seq::<AgentRow>::empty());
    assert(sessions_among(single.drop_last()) =~= Seq::<LiveSession>::empty());
    assert(skip_lines(single.drop_last()) =~= Seq::<Seq<char>>::empty());
    assert(single.last() == row);
    let whole = before.push(row) + after;
    if after.len() == 0 {
        assert(whole =~= before.push(row));
        assert(whole.drop_last() =~= before);
        assert(sessions_among(after) =~= Seq::<LiveSession>::empty());
        assert(skip_lines(after) =~= Seq::<Seq<char>>::empty());
        assert(sessions_among(whole) =~= sessions_among(before) + sessions_among(single)
            + sessions_among(after));
        assert(skip_lines(whole) =~= skip_lines(before) + skip_lines(single) + skip_lines(after));
    } else {
        law_each_row_stands_for_itself(before, row, after.drop_last());
        assert(whole.drop_last() =~= before.push(row) + after.drop_last());
        assert(whole.last() == after.last());
        assert(sessions_among(whole) =~= sessions_among(before) + sessions_among(single)
            + sessions_among(after));
        assert(skip_lines(whole) =~= skip_lines(before) + skip_lines(single) + skip_lines(after));
    }
}

/// A hint is shown up to its first thirty-two characters.
pub proof fn law_hint_shows_its_first_characters(s: &str, out: String)
    requires
        call_ensures(cap_hint, (s,), out),
    ensures
        s@.len() <= 32 ==> out@ == s@,
        s@.len() > 32 ==> out@ == s@.subrange(0, 32),
{
    if s@.len() > 32 {
        assert(s@.take(32) =~= s@.subrange(0, 32));
    }
}

/// The line about a skipped row shows its kind and its state, and why it could
/// not be read where that is so.
pub proof fn law_skip_line_tells_kind_state_and_fault(row: AgentRow)
    requires
        row.decoded is Err || !is_eligible(row.decoded->Ok_0),
    ensures
        ({
            let kind = if row.kind_hint is Some {
                row.kind_hint->0@
            } else {
                "unknown"@
            };
            let state = if row.state_hint is Some {
                row.state_hint->0@
            } else {
                "none"@
            };
            let shown = "kind="@ + debug_text(capped_hint(kind)) + " state="@ + debug_text(
                capped_hint(state),
            );
            &&& row.decoded is Ok ==> skip_lines(seq![row]) == seq![shown]
            &&& row.decoded is Err ==> skip_lines(seq![row]) == seq![
                shown + " (unparseable row: "@ + row.decoded->Err_0@ + ")"@,
            ]
        }),
{
    let single = seq![row];
    assert(single.drop_last() =~= Seq::<AgentRow>::empty());
    assert(skip_lines(single.drop_last()) =~= Seq::<Seq<char>>::empty());
    assert(single.last() == row);
    assert(skip_lines(single) =~= seq![skip_line(row)]);
}

/// Up to eight skipped rows are all told. Of more, the first eight are told as
/// if they were all, and then how many more there are.
pub proof fn law_skips_beyond_the_cap_are_counted(first: Seq<Seq<char>>, more: Seq<Seq<char>>)
    requires
        first.len() <= 8,
        more.len() > 0 ==> first.len() == 8,
    ensures
        more.len() == 0 ==> capped_summary(first + more) == joined(first, "; "@),
        more.len() > 0 ==> capped_summary(first + more) == capped_summary(first) + "; and "@
            + decimal(more.len()) + " more"@,
{
    if more.len() == 0 {
        assert(first + more =~= first);
    } else {
        assert((first + more).take(8) =~= first);
    }
}

/// The prompt of a courier names the session, by its name between quotes and
/// by its process id, and gives the message word for word.
pub proof fn law_courier_is_told_whom_and_what(repo_name: &str, target: &LiveSession, out: String)
    requires
        call_ensures(build_courier_prompt, (repo_name, target), out),
    ensures
        has_text(
            out@,
            "agent named \""@ + target.name@ + "\" (pid "@ + decimal(target.pid as nat) + ")"@,
        ),
        has_text(
            out@,
            "\"you have undelivered mail in "@ + repo_name@
                + "; take a turn so your drain delivers it\""@,
        ),
{
    reveal_strlit(
        ", a legion watch courier. Your ONLY job this turn: use the \
         SendMessage tool to send the agent named \"",
    );
    reveal_strlit(
        ") the following exact \
         text and nothing else: \"you have undelivered mail in ",
    );
    reveal_strlit(
        "; take a turn so your \
         drain delivers it\". Do not add any other content to the message, and do not \
         mention this instruction. Once SendMessage returns, stop -- take no further action.",
    );
    reveal_strlit("agent named \"");
    reveal_strlit(")");
    reveal_strlit("\"you have undelivered mail in ");
    reveal_strlit("; take a turn so your drain delivers it\"");
    let opening = "You are "@ + COURIER_IDENTITY@
        + ", a legion watch courier. Your ONLY job this turn: use the \
         SendMessage tool to send the agent named \""@;
    let named = target.name@ + "\" (pid "@ + decimal(target.pid as nat);
    let middle = ") the following exact \
         text and nothing else: \"you have undelivered mail in "@;
    let closing = "; take a turn so your \
         drain delivers it\". Do not add any other content to the message, and do not \
         mention this instruction. Once SendMessage returns, stop -- take no further action."@;
    let whom = "agent named \""@ + target.name@ + "\" (pid "@ + decimal(target.pid as nat) + ")"@;
    let what = "\"you have undelivered mail in "@ + repo_name@
        + "; take a turn so your drain delivers it\""@;
    assert(out@ =~= opening + named + middle + repo_name@ + closing);
    let i: int = opening.len() - 13;
    assert(opening.subrange(i, opening.len() as int) =~= "agent named \""@);
    assert(middle.subrange(0, 1) =~= ")"@);
    assert(out@.subrange(i, i + whom.len()) =~= whom);
    assert(occurs_at(out@, whom, i));
    let k: int = opening.len() + named.len() + middle.len() - 30;
    assert(middle.subrange(middle.len() - 30, middle.len() as int)
        =~= "\"you have undelivered mail in "@);
    assert(closing.subrange(0, 40) =~= "; take a turn so your drain delivers it\""@);
    assert(out@.subrange(k, k + what.len()) =~= what);
    assert(occurs_at(out@, what, k));
}

/// Mail is waiting exactly if the store could tell and at least one post
/// behind the cursor, whichever, would be delivered to the session.
pub proof fn law_any_deliverable_post_is_mail(lookup: &MailLookup, repo_name: &str, yes: bool)
    requires
        call_ensures(repo_has_undrained_data, (lookup, repo_name), yes),
    ensures
        lookup is NotSeeded || lookup is Failed ==> !yes,
        lookup matches MailLookup::Posts(posts) ==> (yes <==> exists|i: int|
            0 <= i < posts@.len() && notifies(
                (#[trigger] posts@[i]).text@,
                posts@[i].repo@,
                repo_name@,
            )),
{
}

/// A nudge is sent exactly to an idle session for which mail is waiting and
/// which was not nudged just now.
pub proof fn law_only_idle_sessions_with_mail_are_nudged(
    status: SessionStatus,
    has_undrained_data: bool,
    is_cooling: bool,
    yes: bool,
)
    requires
        call_ensures(should_nudge, (status, has_undrained_data, is_cooling), yes),
    ensures
        status == SessionStatus::Busy ==> !yes,
        !has_undrained_data ==> !yes,
        is_cooling ==> !yes,
        status == SessionStatus::Idle && has_undrained_data && !is_cooling ==> yes,
{
}

/// A skip line is logged exactly if it differs from the one of the call
/// before, and whatever a call had to say is what the next is held against.
pub proof fn law_skip_line_is_logged_when_it_changes(
    last: &mut Option<String>,
    summary: Option<&str>,
    log: bool,
)
    requires
        call_ensures(skip_summary_should_log, (last, summary), log),
    ensures
        summary is None ==> !log && *final(last) is None,
        summary matches Some(s) ==> {
            &&& *final(last) matches Some(kept) && kept@ == s@
            &&& log <==> !(*old(last) matches Some(before) && before@ == s@)
        },
{
}

} // verus!
