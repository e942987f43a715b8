//! The way of a signal from the board to the prompt of a woken agent.
use std::cell::RefCell;

use legion_watch::board::{Board, Reflection};
use legion_watch::signals::{
    self, PENDING_INFORMATIONAL_CAP, PENDING_REPLY_CAP,
};
use legion_watch::verbs::{VerbManifest, WAKE_WORTHY_VERBS};

type Pending = (String, String, String);

/// A board that numbers its posts.
struct Store {
    board: RefCell<Board>,
}

impl Store {
    fn insert_reflection(&self, repo: &str, text: &str, _audience: &str) -> Result<Reflection, ()> {
        let mut board = self.board.borrow_mut();
        let n = board.reflections.len();
        let post = Reflection {
            id: format!("post-{n}"),
            repo: repo.to_string(),
            text: text.to_string(),
            created_at: format!("2026-01-01T00:00:{n:02}Z"),
        };
        board.insert_reflection(post.clone());
        Ok(post)
    }

    fn mark_signal_handled_for_repo(&self, id: &str, repo: &str) -> Result<(), ()> {
        self.board.borrow_mut().mark_signal_handled_for_repo(id, repo);
        Ok(())
    }
}

fn test_storage() -> (Store, (), ()) {
    (Store { board: RefCell::new(Board::new()) }, (), ())
}

fn find_pending_signals(
    db: &Store,
    repo: &str,
    names: &[String],
    since: Option<&str>,
) -> Result<Vec<Pending>, ()> {
    Ok(signals::find_pending_signals(&db.board.borrow(), repo, names, since))
}

fn verbs() -> VerbManifest {
    VerbManifest::builtin_default()
}

fn is_wake_worthy(text: &str) -> bool {
    signals::is_wake_worthy(&verbs(), text)
}

fn signal_requires_reply(text: &str) -> bool {
    signals::signal_requires_reply(&verbs(), text)
}

fn directed_verb_will_not_wake(to: &str, verb: &str) -> bool {
    signals::directed_verb_will_not_wake(&verbs(), to, verb)
}

fn build_wake_prompt(repo: &str, pending: &[Pending]) -> String {
    signals::build_wake_prompt(&verbs(), repo, pending)
}

#[test]
fn watch_find_pending_signals_detects_targeted_signals() {
    let (db, _index, _dir) = test_storage();

    db.insert_reflection("kelex", "@legion review:approved", "team")
        .expect("insert signal");

    db.insert_reflection("rafters", "just a musing", "team")
        .expect("insert musing");

    db.insert_reflection("rafters", "@all announce: shipped", "team")
        .expect("insert broadcast");

    let signals = find_pending_signals(&db, "legion", &["legion".to_string()], None)
        .expect("find signals");
    assert_eq!(signals.len(), 2);

    assert!(
        signals
            .iter()
            .any(|(_, text, _)| text == "@legion review:approved")
    );

    assert!(
        signals
            .iter()
            .any(|(_, text, _)| text == "@all announce: shipped")
    );
}

#[test]
fn watch_find_pending_signals_detects_multi_recipient() {
    let (db, _index, _dir) = test_storage();

    db.insert_reflection(
        "legion",
        "@shingle @huttspawn -- build draft sites from current content",
        "team",
    )
    .expect("insert multi-recipient");

    let shingle =
        find_pending_signals(&db, "shingle", &["shingle".to_string()], None).expect("shingle");
    let huttspawn = find_pending_signals(&db, "huttspawn", &["huttspawn".to_string()], None)
        .expect("huttspawn");
    assert_eq!(
        shingle.len(),
        1,
        "shingle should see multi-recipient signal"
    );
    assert_eq!(
        huttspawn.len(),
        1,
        "huttspawn should see multi-recipient signal"
    );

    let legion =
        find_pending_signals(&db, "legion", &["legion".to_string()], None).expect("legion");
    assert!(legion.is_empty(), "sender should not see own signal");

    let kelex =
        find_pending_signals(&db, "kelex", &["kelex".to_string()], None).expect("kelex");
    assert!(kelex.is_empty(), "unmentioned repo should not see signal");
}

#[test]
fn watch_find_pending_signals_excludes_self_signals() {
    let (db, _index, _dir) = test_storage();

    db.insert_reflection("legion", "@legion review:approved", "team")
        .expect("insert self-signal");

    let signals = find_pending_signals(&db, "legion", &["legion".to_string()], None)
        .expect("find signals");
    assert!(signals.is_empty(), "self-signals should be excluded");
}

#[test]
fn watch_find_pending_signals_with_agent_excludes_self_signals_via_repo_name() {
    let (db, _index, _dir) = test_storage();

    db.insert_reflection("ledger", "@platform review:approved", "team")
        .expect("insert self-signal");

    let signals = find_pending_signals(&db, "ledger", &["platform".to_string()], None)
        .expect("find signals");
    assert!(
        signals.is_empty(),
        "self-signals must be excluded by repo_name, not by recipient"
    );
}

#[test]
fn watch_find_pending_signals_with_agent_accepts_signals_from_other_repos() {
    let (db, _index, _dir) = test_storage();

    db.insert_reflection("kelex", "@platform review:approved", "team")
        .expect("insert external signal");

    let signals = find_pending_signals(&db, "ledger", &["platform".to_string()], None)
        .expect("find signals");
    assert_eq!(signals.len(), 1, "external signal to agent should be found");
}

#[test]
fn watch_mark_handled_prevents_re_detection() {
    let (db, _index, _dir) = test_storage();

    db.insert_reflection("kelex", "@legion review:approved", "team")
        .expect("insert signal");

    let signals =
        find_pending_signals(&db, "legion", &["legion".to_string()], None).expect("first poll");
    assert_eq!(signals.len(), 1);

    let (id, _, _) = &signals[0];
    db.mark_signal_handled_for_repo(id, "legion")
        .expect("mark handled");

    let signals = find_pending_signals(&db, "legion", &["legion".to_string()], None)
        .expect("second poll");
    assert!(signals.is_empty());
}

#[test]
fn watch_build_wake_prompt_formats_signals() {
    let signals = vec![
        (
            "id-1".to_string(),
            "@legion review:approved".to_string(),
            "kelex".to_string(),
        ),
        (
            "id-2".to_string(),
            "@all announce: shipped".to_string(),
            "rafters".to_string(),
        ),
    ];

    let prompt = build_wake_prompt("legion", &signals);
    assert!(prompt.contains("auto-woken by legion watch"));
    assert!(prompt.contains("@legion review:approved"));
    assert!(prompt.contains("@all announce: shipped"));
    assert!(prompt.contains("from kelex"));
    assert!(prompt.contains("from rafters"));
}

#[test]
fn watch_build_wake_prompt_splits_questions_from_announcements() {
    let signals = vec![
        (
            "id-q".to_string(),
            "@kessel question:help -- can you extract geometry?".to_string(),
            "huttspawn".to_string(),
        ),
        (
            "id-a".to_string(),
            "@all announce:ready -- dev tracker RSS unlocked".to_string(),
            "huttspawn".to_string(),
        ),
        (
            "id-r".to_string(),
            "@platform request:help -- need embeddings review".to_string(),
            "kelex".to_string(),
        ),
    ];

    let prompt = build_wake_prompt("kessel", &signals);

    assert!(
        prompt.contains("REQUIRES A REPLY"),
        "directed question should trigger reply-required section"
    );
    assert!(
        prompt.contains("id-q"),
        "question signal missing from prompt"
    );
    assert!(
        prompt.contains("id-r"),
        "request signal missing from prompt"
    );

    assert!(
        prompt.contains("INFORMATIONAL"),
        "announcement should trigger informational section"
    );
    assert!(
        prompt.contains("id-a"),
        "announce signal missing from prompt"
    );

    let reply_idx = prompt.find("REQUIRES A REPLY").expect("reply section");
    let info_idx = prompt.find("INFORMATIONAL").expect("info section");
    assert!(reply_idx < info_idx, "reply-required must come first");
}

#[test]
fn watch_build_wake_prompt_routes_by_verb_only() {
    let signals = vec![
        (
            "id-rev-req".to_string(),
            "@platform review:request {doc: rfc.md} -- review please".to_string(),
            "smugglr".to_string(),
        ),
        (
            "id-handoff-verb".to_string(),
            "@platform handoff -- taking the rfc over to you".to_string(),
            "kelex".to_string(),
        ),
        (
            "id-request-verb".to_string(),
            "@platform request -- could you review this".to_string(),
            "kelex".to_string(),
        ),
        (
            "id-approved".to_string(),
            "@platform review:approved -- looks good".to_string(),
            "smugglr".to_string(),
        ),
    ];

    let prompt = build_wake_prompt("platform", &signals);

    assert!(prompt.contains("REQUIRES A REPLY"));
    assert!(prompt.contains("INFORMATIONAL"));
    let reply_section = &prompt
        [prompt.find("REQUIRES A REPLY").unwrap()..prompt.find("INFORMATIONAL").unwrap()];

    assert!(
        reply_section.contains("id-handoff-verb"),
        "verb=handoff must require reply"
    );
    assert!(
        reply_section.contains("id-request-verb"),
        "verb=request must require reply"
    );
    assert!(
        !reply_section.contains("id-rev-req"),
        "verb=review with status=request is no longer wake-worthy"
    );
    assert!(
        !reply_section.contains("id-approved"),
        "verb=review with status=approved must not require reply"
    );
}

#[test]
fn watch_is_wake_worthy_recognizes_designated_verbs() {
    for verb in WAKE_WORTHY_VERBS {
        let text = format!("@kessel {verb} -- something");
        assert!(
            is_wake_worthy(&text),
            "verb `{verb}` should be wake-worthy: {text}"
        );
    }
}

#[test]
fn watch_is_wake_worthy_rejects_informational_verbs() {
    for verb in [
        "announce", "ack", "info", "answer", "review", "help", "blocker",
    ] {
        let text = format!("@kessel {verb} -- fyi");
        assert!(
            !is_wake_worthy(&text),
            "verb `{verb}` must not be wake-worthy: {text}"
        );
    }
}

#[test]
fn watch_signal_requires_reply_matches_is_wake_worthy() {
    let samples = [
        "@kessel question -- can you help?",
        "@kessel request:help -- pls",
        "@kessel handoff -- yours now",
        "@all announce -- shipped",
        "@kessel ack -- got it",
        "@kessel review:approved -- looks good",
        "not a signal at all",
    ];
    for text in samples {
        assert_eq!(
            signal_requires_reply(text),
            is_wake_worthy(text),
            "wake decision and reply-required routing diverged for: {text}"
        );
    }
}

#[test]
fn watch_is_wake_worthy_rejects_posts() {
    assert!(!is_wake_worthy("just a musing about something"));
    assert!(!is_wake_worthy("checking in @kessel did you see #401"));
}

#[test]
fn watch_is_wake_worthy_ignores_status_decoration() {
    assert!(
        !is_wake_worthy("@platform review:request {doc: rfc.md}"),
        "verb=review with status=request must not wake under verb-only gate"
    );
    assert!(
        is_wake_worthy("@platform request:help -- pls"),
        "verb=request stays wake-worthy regardless of status"
    );
}

#[test]
fn watch_directed_non_wake_verb_warns() {
    assert!(directed_verb_will_not_wake("kessel", "announce"));
    assert!(directed_verb_will_not_wake("kessel", "ack"));

    assert!(directed_verb_will_not_wake("kessel", "help"));
    assert!(directed_verb_will_not_wake("kessel", "blocker"));
}

#[test]
fn watch_directed_wake_verb_does_not_warn() {
    for verb in WAKE_WORTHY_VERBS {
        assert!(
            !directed_verb_will_not_wake("kessel", verb),
            "wake-worthy verb `{verb}` must not warn"
        );
    }
}

#[test]
fn watch_broadcast_target_never_warns() {
    assert!(!directed_verb_will_not_wake("all", "announce"));
    assert!(!directed_verb_will_not_wake("everyone", "announce"));
    assert!(!directed_verb_will_not_wake("All", "ack"));
}

#[test]
fn watch_build_wake_prompt_caps_long_buckets() {
    let questions: Vec<(String, String, String)> = (0..15)
        .map(|i| {
            (
                format!("id-q-{i}"),
                format!("@legion question: thing {i}?"),
                "rafters".to_string(),
            )
        })
        .collect();
    let prompt = build_wake_prompt("legion", &questions);
    let rendered = prompt.matches("(id: id-q-").count();
    assert_eq!(
        rendered, PENDING_REPLY_CAP,
        "expected exactly {PENDING_REPLY_CAP} rendered ids, got {rendered}: {prompt}"
    );
    assert!(
        prompt.contains("... and 5 more"),
        "expected tail line for 5 overflow signals: {prompt}"
    );
    assert!(
        prompt.contains("legion bullpen --repo legion --signals"),
        "tail should point at bullpen --signals: {prompt}"
    );

    let announcements: Vec<(String, String, String)> = (0..8)
        .map(|i| {
            (
                format!("id-a-{i}"),
                format!("@all announce: thing {i}"),
                "rafters".to_string(),
            )
        })
        .collect();
    let prompt = build_wake_prompt("legion", &announcements);
    let rendered = prompt.matches("(id: id-a-").count();
    assert_eq!(
        rendered, PENDING_INFORMATIONAL_CAP,
        "expected exactly {PENDING_INFORMATIONAL_CAP} rendered ids, got {rendered}: {prompt}"
    );
    assert!(
        prompt.contains("... and 3 more"),
        "expected tail line for 3 overflow announcements: {prompt}"
    );
}

#[test]
fn watch_build_wake_prompt_omits_sections_when_empty() {
    let announce_only = vec![(
        "id-a".to_string(),
        "@all announce: shipped v0.9.3".to_string(),
        "rafters".to_string(),
    )];
    let prompt = build_wake_prompt("legion", &announce_only);
    assert!(!prompt.contains("REQUIRES A REPLY"));
    assert!(prompt.contains("INFORMATIONAL"));

    let question_only = vec![(
        "id-q".to_string(),
        "@eavesdrop question: when does the feed index?".to_string(),
        "huttspawn".to_string(),
    )];
    let prompt = build_wake_prompt("eavesdrop", &question_only);
    assert!(prompt.contains("REQUIRES A REPLY"));
    assert!(!prompt.contains("INFORMATIONAL"));
}

#[test]
fn watch_broadcast_signals_visible_to_all_repos() {
    let (db, _index, _dir) = test_storage();

    db.insert_reflection("kelex", "@all RFC:help -- discover proposal", "team")
        .expect("insert broadcast");

    let legion_signals =
        find_pending_signals(&db, "legion", &["legion".to_string()], None).expect("legion");
    let rafters_signals =
        find_pending_signals(&db, "rafters", &["rafters".to_string()], None).expect("rafters");
    assert_eq!(legion_signals.len(), 1);
    assert_eq!(rafters_signals.len(), 1);

    for (id, _, _) in &legion_signals {
        db.mark_signal_handled_for_repo(id, "legion")
            .expect("mark handled for legion");
    }

    let legion_after = find_pending_signals(&db, "legion", &["legion".to_string()], None)
        .expect("legion after");
    assert!(
        legion_after.is_empty(),
        "legion should not see broadcast after handling"
    );

    let rafters_after = find_pending_signals(&db, "rafters", &["rafters".to_string()], None)
        .expect("rafters after");
    assert_eq!(
        rafters_after.len(),
        1,
        "broadcast should remain visible to other repos"
    );

    for (id, _, _) in &rafters_signals {
        db.mark_signal_handled_for_repo(id, "rafters")
            .expect("mark handled for rafters");
    }

    let rafters_final = find_pending_signals(&db, "rafters", &["rafters".to_string()], None)
        .expect("rafters final");
    assert!(
        rafters_final.is_empty(),
        "rafters should not see broadcast after handling"
    );
}

#[test]
fn watch_at_everyone_wakes_repo_same_as_at_all() {
    let (db, _index, _dir) = test_storage();

    db.insert_reflection("kelex", "@everyone RFC:help -- discover proposal", "team")
        .expect("insert @everyone broadcast");

    let legion_signals =
        find_pending_signals(&db, "legion", &["legion".to_string()], None).expect("legion");
    let rafters_signals =
        find_pending_signals(&db, "rafters", &["rafters".to_string()], None).expect("rafters");

    assert_eq!(
        legion_signals.len(),
        1,
        "@everyone must wake legion just like @all"
    );
    assert_eq!(
        rafters_signals.len(),
        1,
        "@everyone must wake rafters just like @all"
    );

    for (id, _, _) in &legion_signals {
        db.mark_signal_handled_for_repo(id, "legion")
            .expect("mark legion handled");
    }

    let rafters_after = find_pending_signals(&db, "rafters", &["rafters".to_string()], None)
        .expect("rafters after legion handled");
    assert_eq!(
        rafters_after.len(),
        1,
        "@everyone dedup must be per-repo: rafters must still see the signal"
    );
}

#[test]
fn watch_broadcast_tag_signal_wakes_only_tagged_repos() {
    let (db, _index, _dir) = test_storage();

    let tagged_names: Vec<String> = vec!["tagged".to_string(), "eng-team".to_string()];

    let untagged_names: Vec<String> = vec!["untagged".to_string()];

    db.insert_reflection("other", "@eng-team question:help -- need input", "team")
        .expect("insert tag signal");

    let tagged_sigs = find_pending_signals(&db, "tagged", &tagged_names, None).expect("tagged");
    let untagged_sigs =
        find_pending_signals(&db, "untagged", &untagged_names, None).expect("untagged");

    assert_eq!(
        tagged_sigs.len(),
        1,
        "repo with matching broadcast_tag must see the @eng-team signal"
    );
    assert!(
        untagged_sigs.is_empty(),
        "repo without the tag must NOT see the @eng-team signal"
    );
}

#[test]
fn watch_directed_signal_wakes_only_target_repo() {
    let (db, _index, _dir) = test_storage();

    db.insert_reflection("other", "@direct question:help -- for you only", "team")
        .expect("insert directed signal");

    let direct_sigs =
        find_pending_signals(&db, "direct", &["direct".to_string()], None).expect("direct");
    let bystander_sigs =
        find_pending_signals(&db, "bystander", &["bystander".to_string()], None)
            .expect("bystander");

    assert_eq!(direct_sigs.len(), 1, "target repo must see directed signal");
    assert!(
        bystander_sigs.is_empty(),
        "unaddressed repo must not see directed signal"
    );
}
