//! Issues of a work source becoming cards, and cards being unblocked.
use legion_watch::cards::{check_auto_unblock, completing_repo, Card, CardStatus};
use legion_watch::sync::{card_for, names_of_labels, priority_for, sync_issues, ExternalIssue};

fn issue(url: &str, labels: &str) -> ExternalIssue {
    ExternalIssue {
        url: url.to_string(),
        number: 1,
        title: "a title".to_string(),
        body: Some("a body".to_string()),
        labels: serde_json::from_str(labels).expect("labels"),
        assignees: None,
        state: "OPEN".to_string(),
        created_at: Some("2026-01-01".to_string()),
    }
}

#[test]
fn issues_without_a_card_get_one() {
    let issues = vec![
        issue("https://x/1", "[]"),
        issue("", "[]"),
        issue("https://x/2", r#"[{"name": "bug"}, "high"]"#),
    ];
    let known = vec![None, Some("https://x/1".to_string())];
    let cards = sync_issues(&issues, &known, "github", "legion");
    assert_eq!(cards.len(), 1);
    let card = &cards[0];
    assert_eq!(card.repo, "legion");
    assert_eq!(card.title, "a title");
    assert_eq!(card.body.as_deref(), Some("a body"));
    assert_eq!(card.priority, "high");
    assert_eq!(card.labels.as_deref(), Some("bug,high"));
    assert_eq!(card.source_url, "https://x/2");
    assert_eq!(card.source_type, "github");
    assert_eq!(card.created_at.as_deref(), Some("2026-01-01"));
}

#[test]
fn syncing_again_creates_nothing() {
    let issues = vec![issue("https://x/1", "[]"), issue("https://x/2", "[]")];
    let cards = sync_issues(&issues, &[], "github", "legion");
    assert_eq!(cards.len(), 2);
    let known: Vec<Option<String>> = cards.iter().map(|c| Some(c.source_url.clone())).collect();
    assert!(sync_issues(&issues, &known, "github", "legion").is_empty());
}

#[test]
fn label_names_come_from_objects_and_strings() {
    let labels: Vec<serde_json::Value> =
        serde_json::from_str(r#"[{"name": "bug"}, "critical", 3, {"id": 1}, {"name": 2}]"#).expect("labels");
    assert_eq!(names_of_labels(&labels), vec!["bug", "critical"]);
}

#[test]
fn labels_set_the_priority() {
    let of = |names: &[&str]| {
        let names: Vec<String> = names.iter().map(|n| n.to_string()).collect();
        priority_for(&names)
    };
    assert_eq!(of(&[]), "med");
    assert_eq!(of(&["bug"]), "med");
    assert_eq!(of(&["priority"]), "high");
    assert_eq!(of(&["high", "critical"]), "critical");
    let card = card_for(&issue("u", "[]"), &[], "github", "r");
    assert_eq!(card.labels, None);
    assert_eq!(card.priority, "med");
}

fn blocked_card(note: &str) -> Vec<Card> {
    vec![Card { id: "card-1".to_string(), status: CardStatus::Blocked, note: Some(note.to_string()) }]
}

#[test]
fn check_auto_unblock_unblocks_card_on_announce_completion() {
    let mut cards = blocked_card("blocked on legion #611");
    let signals = vec![(
        "sig-1".to_string(),
        "@all announce -- legion completed: watch split".to_string(),
        "legion".to_string(),
    )];
    assert_eq!(check_auto_unblock(&mut cards, &signals), 1);
    assert_eq!(cards[0].status, CardStatus::Accepted, "Unblock transitions Blocked -> Accepted");
}

#[test]
fn check_auto_unblock_requires_announce_verb_not_substring() {
    let mut cards = blocked_card("blocked on legion #611");
    let signals = vec![(
        "sig-2".to_string(),
        "@rafters question -- will announce once legion completed: the split?".to_string(),
        "kelex".to_string(),
    )];
    assert_eq!(
        check_auto_unblock(&mut cards, &signals),
        0,
        "non-announce verb must not trigger an unblock scan"
    );
    assert_eq!(cards[0].status, CardStatus::Blocked);
}

#[test]
fn check_auto_unblock_ignores_announce_without_completion_marker() {
    let mut cards = blocked_card("blocked on legion #611");
    let signals = vec![(
        "sig-3".to_string(),
        "@all announce -- legion shipped v0.17".to_string(),
        "legion".to_string(),
    )];
    assert_eq!(check_auto_unblock(&mut cards, &signals), 0);
    assert_eq!(cards[0].status, CardStatus::Blocked);
}

#[test]
fn the_completing_repo_stands_in_front_of_the_marker() {
    assert_eq!(completing_repo("@all announce from kelex -- completed: it").as_deref(), Some("kelex"));
    assert_eq!(completing_repo("@all ANNOUNCE -- a b completed: c completed:").as_deref(), Some("b"));
    assert_eq!(completing_repo("@all announce -- completed: it"), None);
    assert_eq!(completing_repo("kelex completed: it"), None);
}

#[test]
fn only_blocked_cards_that_mention_the_repo_move() {
    let card = |status, note: Option<&str>| Card {
        id: "c".to_string(),
        status,
        note: note.map(|n| n.to_string()),
    };
    let mut cards = vec![
        card(CardStatus::Blocked, Some("waits for kelex")),
        card(CardStatus::Blocked, Some("waits for rafters")),
        card(CardStatus::Other, Some("waits for kelex")),
        card(CardStatus::Blocked, None),
    ];
    let signals = vec![
        ("1".to_string(), "@all announce -- kelex completed: x".to_string(), "kelex".to_string()),
        ("2".to_string(), "@all announce -- kelex completed: y".to_string(), "kelex".to_string()),
    ];
    assert_eq!(check_auto_unblock(&mut cards, &signals), 1);
    let status: Vec<CardStatus> = cards.iter().map(|c| c.status).collect();
    assert_eq!(
        status,
        vec![CardStatus::Accepted, CardStatus::Blocked, CardStatus::Other, CardStatus::Blocked]
    );
}
