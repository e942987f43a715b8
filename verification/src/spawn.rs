//! Agent spawning: the spawn modes, the exact command, environment and
//! keystrokes of a spawn, and what the end of a session releases.
use vstd::prelude::*;
use vstd::utf8::encode_utf8;
use crate::error::LegionError;
use crate::locks::SessionLockTracker;
use crate::scan::texts;
use crate::signal::{opt_str, opt_text, pair_text};
use crate::text::{lower, text_eq, to_ascii_lowercase, trim, trimmed};

verus! {

broadcast use vstd::seq_lib::group_seq_properties;

// -- Bracketed paste ---------------------------------------------------------

/// The escape byte.
pub const ESC: u8 = 0x1b;

/// The bytes that open a bracketed paste: `ESC [ 200 ~`.
pub const BRACKETED_PASTE_START: [u8; 6] = [0x1b, 0x5b, 0x32, 0x30, 0x30, 0x7e];

/// The bytes that close a bracketed paste: `ESC [ 201 ~`.
pub const BRACKETED_PASTE_END: [u8; 6] = [0x1b, 0x5b, 0x32, 0x30, 0x31, 0x7e];

/// The keystroke that submits a prompt: a carriage return.
pub const SUBMIT_KEY: [u8; 1] = [0x0d];

/// The bytes other than the escape byte.
pub open spec fn not_escape() -> spec_fn(u8) -> bool {
    |b: u8| b != ESC
}

/// The bracketed paste of a text: the opening marker, the bytes of the text
/// without any escape byte, and the closing marker.
pub open spec fn pasted(bytes: Seq<u8>) -> Seq<u8> {
    BRACKETED_PASTE_START@ + bytes.filter(not_escape()) + BRACKETED_PASTE_END@
}

/// Wraps a prompt as a bracketed paste, without submitting it. Embedded
/// newlines stay literal. Escape bytes are dropped: one in the text could
/// close the paste early and turn what follows into keystrokes.
pub fn wrap_bracketed_paste(prompt: &str) -> (out: Vec<u8>)
    ensures
        out@ == pasted(encode_utf8(prompt@)),
{
    let bytes = prompt.as_bytes();
    let mut out: Vec<u8> = Vec::new();
    for i in 0..BRACKETED_PASTE_START.len()
        invariant
            out@ == BRACKETED_PASTE_START@.take(i as int),
    {
        out.push(BRACKETED_PASTE_START[i]);
    }
    assert(out@ == BRACKETED_PASTE_START@);
    reveal(Seq::filter);
    assert(bytes@.take(0).filter(not_escape()) == Seq::<u8>::empty());
    for i in 0..bytes.len()
        invariant
            bytes@ == encode_utf8(prompt@),
            out@ == BRACKETED_PASTE_START@ + bytes@.take(i as int).filter(not_escape()),
    {
        reveal(Seq::filter);
        assert(bytes@.take(i + 1).drop_last() == bytes@.take(i as int));
        if bytes[i] != ESC {
            out.push(bytes[i]);
        }
    }
    assert(bytes@.take(bytes@.len() as int) == bytes@);
    let ghost body = out@;
    for i in 0..BRACKETED_PASTE_END.len()
        invariant
            out@ == body + BRACKETED_PASTE_END@.take(i as int),
    {
        out.push(BRACKETED_PASTE_END[i]);
        assert(BRACKETED_PASTE_END@.take(i + 1) == BRACKETED_PASTE_END@.take(i as int).push(
            BRACKETED_PASTE_END@[i as int],
        ));
    }
    assert(BRACKETED_PASTE_END@.take(6) == BRACKETED_PASTE_END@);
    out
}

/// A pasted text cannot close its own paste: the escape byte stands in a
/// bracketed paste at its two markers and nowhere else.
pub proof fn law_paste_closes_only_at_its_end(bytes: Seq<u8>, i: int)
    requires
        0 <= i < pasted(bytes).len(),
    ensures
        pasted(bytes).len() >= 12,
        pasted(bytes)[i] == ESC <==> i == 0 || i == pasted(bytes).len() - 6,
{
    broadcast use vstd::seq_lib::group_filter_ensures;

    let body = bytes.filter(not_escape());
    if 6 <= i < 6 + body.len() {
        assert(not_escape()(body[i - 6]));
    }
}

// -- Spawn mode --------------------------------------------------------------

/// How a session is spawned.
#[derive(Debug, Clone, Copy, PartialEq, Eq, Structural)]
pub enum SpawnMode {
    /// The prompt is an argument and the session prints its answer.
    Print,
    /// The session is interactive, on a terminal of its own.
    Pty,
}

/// The mode that a setting names. Whitespace around it and its case do not
/// matter; anything but `print` means `pty`.
pub open spec fn mode_named(raw: Seq<char>) -> SpawnMode {
    if lower(trimmed(raw)) == "print"@ {
        SpawnMode::Print
    } else {
        SpawnMode::Pty
    }
}

impl SpawnMode {
    /// The mode that the value of `WATCH_SPAWN_MODE` selects; `Pty` where it
    /// is unset.
    pub fn from_env(value: Option<&str>) -> (mode: Self)
        ensures
            mode == (match value {
                Some(raw) => mode_named(raw@),
                None => SpawnMode::Pty,
            }),
    {
        match value {
            Some(raw) => SpawnMode::parse(raw),
            None => SpawnMode::Pty,
        }
    }

    /// Reads a mode. An empty or unknown value means `Pty`.
    pub fn parse(raw: &str) -> (mode: Self)
        ensures
            mode == mode_named(raw@),
    {
        let folded = to_ascii_lowercase(trim(raw));
        if text_eq(folded.as_str(), "print") {
            SpawnMode::Print
        } else {
            SpawnMode::Pty
        }
    }

    /// The name of a mode.
    pub open spec fn name(self) -> Seq<char> {
        match self {
            SpawnMode::Print => "print"@,
            SpawnMode::Pty => "pty"@,
        }
    }

    /// The name of the mode.
    pub fn as_str(self) -> (name: &'static str)
        ensures
            name@ == self.name(),
    {
        match self {
            SpawnMode::Print => "print",
            SpawnMode::Pty => "pty",
        }
    }
}

/// Reading the name of a mode gives the mode.
pub proof fn law_mode_name_reads_back(mode: SpawnMode)
    ensures
        mode_named(mode.name()) == mode,
{
    reveal_strlit("print");
    reveal_strlit("pty");
    reveal_with_fuel(crate::text::trim_start, 2);
    reveal_with_fuel(crate::text::trim_end, 2);
    let s = mode.name();
    assert(trimmed(s) == s);
    assert(lower(s)[1] == s[1]);
    assert(lower(s) =~= s);
}

// -- The spawn ---------------------------------------------------------------

/// How to start a session.
#[derive(Debug)]
pub struct SpawnPlan {
    pub args: Vec<String>,
    pub env: Vec<(String, String)>,
    /// What to write to the terminal once the session runs.
    pub paste: Option<Vec<u8>>,
}

/// Environment settings as their model.
pub open spec fn env_texts(env: Seq<(String, String)>) -> Seq<(Seq<char>, Seq<char>)> {
    env.map_values(|p: (String, String)| pair_text(p))
}

/// The environment of a spawn: it is marked as an auto-wake, a terminal
/// session names its source, and the wake attempt is passed on where there is
/// one.
pub open spec fn spawn_env(mode: SpawnMode, attempt: Option<Seq<char>>) -> Seq<
    (Seq<char>, Seq<char>),
> {
    let base = match mode {
        SpawnMode::Print => seq![("LEGION_AUTO_WAKE"@, "1"@)],
        SpawnMode::Pty => seq![
            ("LEGION_AUTO_WAKE"@, "1"@),
            ("LEGION_SPAWN_SOURCE"@, "watch-pty"@),
        ],
    };
    match attempt {
        Some(id) => base.push(("LEGION_WAKE_ATTEMPT_ID"@, id)),
        None => base,
    }
}

/// Adds a setting to an environment.
pub(crate) fn push_env(env: &mut Vec<(String, String)>, key: &str, value: &str)
    ensures
        env_texts(final(env)@) == env_texts(old(env)@).push((key@, value@)),
{
    env.push((key.to_string(), value.to_string()));
    assert(env_texts(env@) =~= env_texts(old(env)@).push((key@, value@)));
}

/// Plans a session of the agent program. In print mode the prompt is an
/// argument. In terminal mode it is pasted, and submitting it is left to the submit
/// confirmation.
pub fn spawn_agent(prompt: &str, mode: SpawnMode, attempt_id: Option<&str>) -> (plan: SpawnPlan)
    ensures
        texts(plan.args@) == (match mode {
            SpawnMode::Print => seq!["--print"@, "-p"@, prompt@],
            SpawnMode::Pty => Seq::empty(),
        }),
        env_texts(plan.env@) == spawn_env(mode, opt_str(attempt_id)),
        plan.paste is Some <==> mode == SpawnMode::Pty,
        plan.paste matches Some(keys) ==> keys@ == pasted(encode_utf8(prompt@)),
{
    let mut env: Vec<(String, String)> = Vec::new();
    assert(env_texts(env@) =~= Seq::empty());
    push_env(&mut env, "LEGION_AUTO_WAKE", "1");
    let mut args: Vec<String> = Vec::new();
    let paste = match mode {
        SpawnMode::Print => {
            args.push("--print".to_string());
            args.push("-p".to_string());
            args.push(prompt.to_string());
            assert(texts(args@) =~= seq!["--print"@, "-p"@, prompt@]);
            None
        },
        SpawnMode::Pty => {
            assert(texts(args@) =~= Seq::empty());
            push_env(&mut env, "LEGION_SPAWN_SOURCE", "watch-pty");
            Some(wrap_bracketed_paste(prompt))
        },
    };
    match attempt_id {
        Some(id) => {
            push_env(&mut env, "LEGION_WAKE_ATTEMPT_ID", id);
        },
        None => {},
    }
    assert(env_texts(env@) =~= spawn_env(mode, opt_str(attempt_id)));
    SpawnPlan { args, env, paste }
}

/// Whether keys can be sent to a session of this mode: only a terminal
/// session reads any.
pub fn accepts_keys(mode: SpawnMode) -> (accepted: Result<(), LegionError>)
    ensures
        accepted is Ok <==> mode == SpawnMode::Pty,
        accepted matches Err(e) ==> e == LegionError::PtyControlUnsupported,
{
    match mode {
        SpawnMode::Print => Err(LegionError::PtyControlUnsupported),
        SpawnMode::Pty => Ok(()),
    }
}

// -- The end of a session ----------------------------------------------------

/// What follows once the store was told that a session has ended.
#[derive(Debug)]
pub enum SessionEnd {
    /// Look up the wake attempt, for [`session_end_releases`].
    LookUpAttempt,
    /// Done, after removing the interactive lock of this repo, if any is
    /// named.
    Done { release_interactive: Option<String> },
    /// The store could not be told.
    Failed(LegionError),
}

/// Decides what the end of a session calls for. `marked` is what came of
/// marking the wake attempt as ended. An attempt that is not on record is no
/// error: the session was an interactive one, and the lock of the repo that
/// the caller names is removed.
pub fn record_session_end(marked: Result<(), LegionError>, repo_hint: Option<&str>) -> (next: SessionEnd)
    ensures
        match marked {
            Ok(()) => next is LookUpAttempt,
            Err(LegionError::WakeAttemptNotFound(_)) => next matches SessionEnd::Done {
                release_interactive,
            } && opt_text(release_interactive) == opt_str(repo_hint),
            Err(e) => next == SessionEnd::Failed(e),
        },
{
    match marked {
        Ok(()) => SessionEnd::LookUpAttempt,
        Err(LegionError::WakeAttemptNotFound(_)) => {
            let release_interactive = match repo_hint {
                Some(repo) => Some(repo.to_string()),
                None => None,
            };
            SessionEnd::Done { release_interactive }
        },
        Err(e) => SessionEnd::Failed(e),
    }
}

/// The lock files that the end of a spawned session removes: both locks of
/// the repo that the wake attempt on record names, or none where the attempt
/// could not be read. Failing to remove one is no error: the reaper removes it
/// on the next poll.
pub fn session_end_releases(locks: &SessionLockTracker, attempt_repo: Option<&str>) -> (paths: Vec<
    String,
>)
    ensures
        texts(paths@) == (match attempt_repo {
            Some(repo) => seq![locks.lock_path_of(repo@), locks.session_path_of(repo@)],
            None => Seq::empty(),
        }),
{
    let mut paths: Vec<String> = Vec::new();
    match attempt_repo {
        Some(repo) => {
            paths.push(locks.release(repo));
            paths.push(locks.release_interactive(repo));
            assert(texts(paths@) =~= seq![
                locks.lock_path_of(repo@),
                locks.session_path_of(repo@),
            ]);
        },
        None => {
            assert(texts(paths@) =~= Seq::empty());
        },
    }
    paths
}

// -- Laws --------------------------------------------------------------------

proof fn lemma_filter_drops_one(a: Seq<u8>, byte: u8, b: Seq<u8>, pred: spec_fn(u8) -> bool)
    requires
        !pred(byte),
    ensures
        (a.push(byte) + b).filter(pred) == (a + b).filter(pred),
    decreases b.len(),
{
    reveal(Seq::filter);
    if b.len() == 0 {
        assert(a.push(byte) + b =~= a.push(byte));
        assert(a + b =~= a);
        assert(a.push(byte).drop_last() =~= a);
    } else {
        lemma_filter_drops_one(a, byte, b.drop_last(), pred);
        assert((a.push(byte) + b).drop_last() =~= a.push(byte) + b.drop_last());
        assert((a + b).drop_last() =~= a + b.drop_last());
        assert((a.push(byte) + b).last() == b.last());
        assert((a + b).last() == b.last());
    }
}

proof fn lemma_filter_keeps_bytes(bytes: Seq<u8>, pred: spec_fn(u8) -> bool)
    requires
        forall|i: int| 0 <= i < bytes.len() ==> pred(#[trigger] bytes[i]),
    ensures
        bytes.filter(pred) == bytes,
    decreases bytes.len(),
{
    reveal(Seq::filter);
    if bytes.len() > 0 {
        let rest = bytes.drop_last();
        assert forall|i: int| 0 <= i < rest.len() implies pred(#[trigger] rest[i]) by {
            assert(rest[i] == bytes[i]);
        }
        lemma_filter_keeps_bytes(rest, pred);
        assert(pred(bytes[bytes.len() - 1]));
        assert(rest.push(bytes.last()) =~= bytes);
    }
}

/// A text without an escape byte is pasted whole, between the markers that
/// open and close a bracketed paste. Each escape byte is dropped as if it had
/// not been there.
pub proof fn law_paste_drops_escapes_alone(a: Seq<u8>, b: Seq<u8>)
    ensures
        pasted(a.push(0x1b) + b) == pasted(a + b),
        !a.contains(0x1b) ==> pasted(a) == seq![0x1bu8, 0x5b, 0x32, 0x30, 0x30, 0x7e] + a + seq![
            0x1bu8,
            0x5b,
            0x32,
            0x30,
            0x31,
            0x7e,
        ],
{
    lemma_filter_drops_one(a, 0x1b, b, not_escape());
    if !a.contains(0x1b) {
        assert forall|i: int| 0 <= i < a.len() implies not_escape()(#[trigger] a[i]) by {
            assert(a.contains(a[i]));
        }
        lemma_filter_keeps_bytes(a, not_escape());
        assert(BRACKETED_PASTE_START@ =~= seq![0x1bu8, 0x5b, 0x32, 0x30, 0x30, 0x7e]);
        assert(BRACKETED_PASTE_END@ =~= seq![0x1bu8, 0x5b, 0x32, 0x30, 0x31, 0x7e]);
    }
}

/// A session prints exactly if the setting says `print`, in whichever case and
/// with whichever whitespace around it. Every other setting, and none, gives a
/// terminal session.
pub proof fn law_only_print_prints(value: Option<&str>, mode: SpawnMode)
    requires
        call_ensures(SpawnMode::from_env, (value,), mode),
    ensures
        mode == SpawnMode::Print <==> value is Some && lower(trimmed(value->0@)) == "print"@,
{
}

/// Every spawn is marked as an auto-wake. A terminal session, and no other,
/// names its source and has its prompt pasted, a printing one has it as its
/// last argument, and the attempt is passed on exactly if there is one.
pub proof fn law_spawn_carries_prompt_and_attempt(
    prompt: &str,
    mode: SpawnMode,
    attempt_id: Option<&str>,
    plan: SpawnPlan,
)
    requires
        call_ensures(spawn_agent, (prompt, mode, attempt_id), plan),
    ensures
        ({
            let n: int = if mode == SpawnMode::Pty {
                2
            } else {
                1
            };
            let m: int = if attempt_id is Some {
                1
            } else {
                0
            };
            &&& plan.env@.len() == n + m
            &&& plan.env@[0].0@ == "LEGION_AUTO_WAKE"@ && plan.env@[0].1@ == "1"@
            &&& mode == SpawnMode::Pty ==> plan.env@[1].0@ == "LEGION_SPAWN_SOURCE"@
                && plan.env@[1].1@ == "watch-pty"@
            &&& attempt_id matches Some(id) ==> plan.env@[n].0@ == "LEGION_WAKE_ATTEMPT_ID"@
                && plan.env@[n].1@ == id@
            &&& mode == SpawnMode::Print ==> plan.paste is None && plan.args@.len() == 3
                && plan.args@[0]@ == "--print"@ && plan.args@[1]@ == "-p"@ && plan.args@[2]@
                == prompt@
            &&& mode == SpawnMode::Pty ==> plan.args@.len() == 0 && (plan.paste matches Some(keys)
                && keys@ == pasted(encode_utf8(prompt@)))
        }),
{
    assert(env_texts(plan.env@).len() == plan.env@.len());
    assert forall|i: int| 0 <= i < plan.env@.len() implies env_texts(plan.env@)[i] == (
        (#[trigger] plan.env@[i]).0@,
        plan.env@[i].1@,
    ) by {}
    assert(texts(plan.args@).len() == plan.args@.len());
    assert forall|i: int| 0 <= i < plan.args@.len() implies texts(plan.args@)[i] == (
    #[trigger] plan.args@[i])@ by {}
    if attempt_id is Some {
        assert(opt_str(attempt_id) == Some(attempt_id->0@));
    }
}

/// The end of a spawned session frees both locks of its repo; where its
/// attempt could not be read, nothing is freed.
pub proof fn law_session_end_frees_both_locks(
    locks: &SessionLockTracker,
    attempt_repo: Option<&str>,
    paths: Vec<String>,
    lock: String,
    session: String,
)
    requires
        call_ensures(session_end_releases, (locks, attempt_repo), paths),
        attempt_repo matches Some(repo) ==> call_ensures(
            SessionLockTracker::release,
            (locks, repo),
            lock,
        ) && call_ensures(SessionLockTracker::release_interactive, (locks, repo), session),
    ensures
        attempt_repo is None ==> paths@.len() == 0,
        attempt_repo is Some ==> paths@.len() == 2 && paths@[0]@ == lock@ && paths@[1]@ == session@,
{
    assert(texts(paths@).len() == paths@.len());
    if attempt_repo is Some {
        assert(texts(paths@)[0] == paths@[0]@);
        assert(texts(paths@)[1] == paths@[1]@);
    }
}

} // verus!
