//! How sessions are spawned, and when a pasted prompt counts as submitted.
use legion_watch::error::LegionError;
use legion_watch::locks::SessionLockTracker;
use legion_watch::spawn::{
    accepts_keys, record_session_end, session_end_releases, spawn_agent, wrap_bracketed_paste,
    SessionEnd, SpawnMode, BRACKETED_PASTE_END, BRACKETED_PASTE_START,
};
use legion_watch::tracker::{self, SubmitAction};
use std::time::Duration;

fn submit_action(
    turn_started: bool,
    retries: u32,
    max: u32,
    spawn_elapsed: Duration,
    budget: Duration,
    last_enter: Option<Duration>,
    interval: Duration,
) -> SubmitAction {
    tracker::submit_action(
        turn_started,
        retries,
        max,
        spawn_elapsed.as_nanos(),
        budget.as_secs(),
        last_enter.map(|e| e.as_nanos()),
        interval.as_secs(),
    )
}

#[test]
fn spawn_spawn_mode_parse_print() {
    assert_eq!(SpawnMode::parse("print"), SpawnMode::Print);
    assert_eq!(SpawnMode::parse("PRINT"), SpawnMode::Print);
    assert_eq!(SpawnMode::parse("  print  "), SpawnMode::Print);
}

#[test]
fn spawn_spawn_mode_parse_pty() {
    assert_eq!(SpawnMode::parse("pty"), SpawnMode::Pty);
    assert_eq!(SpawnMode::parse("PTY"), SpawnMode::Pty);
}

#[test]
fn spawn_spawn_mode_parse_unknown_falls_back_to_pty() {
    assert_eq!(SpawnMode::parse(""), SpawnMode::Pty);
    assert_eq!(SpawnMode::parse("   "), SpawnMode::Pty);
    assert_eq!(SpawnMode::parse("nope"), SpawnMode::Pty);
}

#[test]
fn spawn_spawn_mode_as_str_matches_env_values() {
    assert_eq!(SpawnMode::Print.as_str(), "print");
    assert_eq!(SpawnMode::Pty.as_str(), "pty");
}

#[test]
fn wrap_bracketed_paste_wraps_exactly_with_no_submit() {
    let wrapped = wrap_bracketed_paste("line one\nline two");
    let mut expected = Vec::new();
    expected.extend_from_slice(b"\x1b[200~");
    expected.extend_from_slice(b"line one\nline two");
    expected.extend_from_slice(b"\x1b[201~");
    assert_eq!(wrapped, expected);
    assert!(
        !wrapped.ends_with(b"\r"),
        "bracketed paste must not carry a submit keystroke"
    );
}

#[test]
fn wrap_bracketed_paste_strips_esc_to_close_injection_seam() {
    let hostile = "before\x1b[201~rm -rf\x1b after";
    let wrapped = wrap_bracketed_paste(hostile);

    let body = &wrapped[BRACKETED_PASTE_START.len()..wrapped.len() - BRACKETED_PASTE_END.len()];
    assert!(
        !body.contains(&0x1b),
        "ESC bytes must be stripped from pasted content"
    );
    assert_eq!(body, b"before[201~rm -rf after");
}

#[test]
fn watch_spawn_mode_parse_print() {
    assert_eq!(SpawnMode::parse("print"), SpawnMode::Print);
    assert_eq!(SpawnMode::parse("PRINT"), SpawnMode::Print);
    assert_eq!(SpawnMode::parse("  print  "), SpawnMode::Print);
}

#[test]
fn watch_spawn_mode_parse_pty() {
    assert_eq!(SpawnMode::parse("pty"), SpawnMode::Pty);
    assert_eq!(SpawnMode::parse("PTY"), SpawnMode::Pty);
}

#[test]
fn watch_spawn_mode_parse_unknown_falls_back_to_pty() {
    assert_eq!(SpawnMode::parse(""), SpawnMode::Pty);
    assert_eq!(SpawnMode::parse("   "), SpawnMode::Pty);
    assert_eq!(SpawnMode::parse("nope"), SpawnMode::Pty);
}

#[test]
fn watch_spawn_mode_as_str_matches_env_values() {
    assert_eq!(SpawnMode::Print.as_str(), "print");
    assert_eq!(SpawnMode::Pty.as_str(), "pty");
}

#[test]
fn submit_action_confirms_on_turn_start() {
    let a = submit_action(
        true,
        99,
        12,
        Duration::from_secs(999),
        Duration::from_secs(60),
        None,
        Duration::from_secs(4),
    );
    assert_eq!(a, SubmitAction::Confirm);
}

#[test]
fn submit_action_fails_on_exhausted_retries_or_budget() {
    assert_eq!(
        submit_action(
            false,
            12,
            12,
            Duration::from_secs(1),
            Duration::from_secs(60),
            Some(Duration::from_secs(10)),
            Duration::from_secs(4),
        ),
        SubmitAction::Fail
    );

    assert_eq!(
        submit_action(
            false,
            3,
            12,
            Duration::from_secs(60),
            Duration::from_secs(60),
            Some(Duration::from_secs(10)),
            Duration::from_secs(4),
        ),
        SubmitAction::Fail
    );
}

#[test]
fn submit_action_sends_then_waits_within_interval() {
    assert_eq!(
        submit_action(
            false,
            0,
            12,
            Duration::from_secs(1),
            Duration::from_secs(60),
            None,
            Duration::from_secs(4),
        ),
        SubmitAction::Send
    );

    assert_eq!(
        submit_action(
            false,
            1,
            12,
            Duration::from_secs(6),
            Duration::from_secs(60),
            Some(Duration::from_secs(5)),
            Duration::from_secs(4),
        ),
        SubmitAction::Send
    );

    assert_eq!(
        submit_action(
            false,
            1,
            12,
            Duration::from_secs(2),
            Duration::from_secs(60),
            Some(Duration::from_secs(1)),
            Duration::from_secs(4),
        ),
        SubmitAction::Wait
    );
}

#[test]
fn send_keys_on_print_child_is_unsupported() {
    let err = accepts_keys(SpawnMode::Print).expect_err("send_keys on a print child must error");
    assert!(matches!(err, LegionError::PtyControlUnsupported));
    assert!(accepts_keys(SpawnMode::Pty).is_ok());
}

#[test]
fn session_end_removes_session_file_on_interactive_path() {
    let missing = Err(LegionError::WakeAttemptNotFound("nonexistent-attempt-id".to_string()));
    let SessionEnd::Done { release_interactive } = record_session_end(missing, Some("myrepo")) else {
        panic!("record_session_end must return Ok on missing wake attempt")
    };
    let locks = SessionLockTracker::new("/data", 3600);
    let path = locks.release_interactive(&release_interactive.expect("repo"));
    assert_eq!(path, "/data/sessions/myrepo.session");
}

#[test]
fn session_end_no_repo_hint_is_ok_with_no_wake_row() {
    let missing = Err(LegionError::WakeAttemptNotFound("nonexistent-attempt-id".to_string()));
    let end = record_session_end(missing, None);
    assert!(
        matches!(end, SessionEnd::Done { release_interactive: None }),
        "record_session_end must return Ok even with no row and no repo_hint"
    );
}

#[test]
fn a_known_attempt_frees_both_locks_of_its_repo() {
    assert!(matches!(record_session_end(Ok(()), None), SessionEnd::LookUpAttempt));
    let locks = SessionLockTracker::new("/data", 3600);
    assert_eq!(
        session_end_releases(&locks, Some("r")),
        vec!["/data/sessions/r.lock", "/data/sessions/r.session"]
    );
    assert!(session_end_releases(&locks, None).is_empty());
    let broken = Err(LegionError::Store("locked".to_string()));
    assert!(matches!(record_session_end(broken, Some("r")), SessionEnd::Failed(LegionError::Store(_))));
}

#[test]
fn the_mode_decides_how_the_prompt_is_handed_over() {
    let plan = spawn_agent("do it", SpawnMode::Print, Some("a-1"));
    assert_eq!(plan.args, vec!["--print", "-p", "do it"]);
    assert!(plan.paste.is_none());
    let env: Vec<(&str, &str)> = plan.env.iter().map(|(k, v)| (k.as_str(), v.as_str())).collect();
    assert_eq!(env, vec![("LEGION_AUTO_WAKE", "1"), ("LEGION_WAKE_ATTEMPT_ID", "a-1")]);

    let plan = spawn_agent("do it", SpawnMode::Pty, None);
    assert!(plan.args.is_empty());
    assert_eq!(plan.paste, Some(wrap_bracketed_paste("do it")));
    let env: Vec<(&str, &str)> = plan.env.iter().map(|(k, v)| (k.as_str(), v.as_str())).collect();
    assert_eq!(env, vec![("LEGION_AUTO_WAKE", "1"), ("LEGION_SPAWN_SOURCE", "watch-pty")]);
}

#[test]
fn the_environment_names_the_mode() {
    assert_eq!(SpawnMode::from_env(None), SpawnMode::Pty);
    assert_eq!(SpawnMode::from_env(Some("print")), SpawnMode::Print);
}
