//! Edits of a configuration, from the empty one to a full one.
use std::cell::RefCell;

use legion_watch::config::{
    self, BroadcastTarget, Recipient, WatchConfig, WatchRepoConfig, Workdir,
};
use legion_watch::error::LegionError;

/// A configuration file and the directories that exist.
struct ConfigFile {
    path: String,
    contents: RefCell<Option<WatchConfig>>,
    dirs: RefCell<Vec<String>>,
}

fn config_file() -> ConfigFile {
    ConfigFile {
        path: "/data/watch.toml".to_string(),
        contents: RefCell::new(None),
        dirs: RefCell::new(vec!["/data".to_string(), "/tmp".to_string()]),
    }
}

impl ConfigFile {
    fn create_dir(&self, dir: &str) {
        self.dirs.borrow_mut().push(dir.to_string());
    }

    fn write(&self, config: WatchConfig) {
        *self.contents.borrow_mut() = Some(config);
    }

    fn is_dir(&self, dir: &str) -> bool {
        self.dirs.borrow().iter().any(|d| d == dir)
    }
}

fn message(err: LegionError) -> String {
    match err {
        LegionError::WatchConfig(m) => m,
        other => panic!("unexpected error {other:?}"),
    }
}

fn add_repo_to_config(
    file: &ConfigFile,
    name: &str,
    workdir: &str,
    agent: Option<&str>,
) -> Result<bool, LegionError> {
    let workdir = if file.is_dir(workdir) {
        Workdir::Canonical(workdir.to_string())
    } else {
        Workdir::NotADirectory(workdir.to_string())
    };
    let mut contents = file.contents.borrow_mut();
    let mut config = contents.take().unwrap_or_default();
    let added = config::add_repo_to_config(&mut config, name, &workdir, agent);
    *contents = Some(config);
    added
}

fn remove_repo_from_config(file: &ConfigFile, name: &str) -> bool {
    match file.contents.borrow_mut().as_mut() {
        Some(config) => config::remove_repo_from_config(config, name),
        None => false,
    }
}

fn load_config(file: &ConfigFile) -> Result<(), LegionError> {
    let contents = file.contents.borrow();
    let is_dir: Vec<bool> = match contents.as_ref() {
        Some(config) => config.repos.iter().map(|r| file.is_dir(&r.workdir)).collect(),
        None => Vec::new(),
    };
    config::load_config(&file.path, contents.as_ref(), &is_dir)
}

fn repo(name: &str, workdir: &str, agent: Option<&str>, tags: &[&str]) -> WatchRepoConfig {
    WatchRepoConfig {
        name: name.to_string(),
        workdir: workdir.to_string(),
        agent: agent.map(|a| a.to_string()),
        broadcast_tags: tags.iter().map(|t| t.to_string()).collect(),
        extra: toml::Table::new(),
    }
}

fn config_of(repos: Vec<WatchRepoConfig>) -> WatchConfig {
    WatchConfig { repos, ..WatchConfig::default() }
}

#[test]
fn watch_load_config_rejects_empty_repos() {
    let file = config_file();
    file.write(WatchConfig { poll_interval_secs: 10, ..WatchConfig::default() });
    let err = load_config(&file).unwrap_err();
    assert!(message(err).contains("no repos configured"));
}

#[test]
fn watch_load_config_rejects_missing_file() {
    let mut file = config_file();
    file.path = "/data/nonexistent.toml".to_string();
    let err = load_config(&file).unwrap_err();
    assert!(message(err).contains("config file not found"));
}

#[test]
fn watch_load_config_rejects_bad_workdir() {
    let file = config_file();
    file.write(config_of(vec![repo("test", "/nonexistent/path/that/does/not/exist", None, &[])]));
    let err = load_config(&file).unwrap_err();
    assert!(message(err).contains("workdir does not exist"));
}

#[test]
fn watch_add_repo_creates_file_when_missing() {
    let file = config_file();
    let added = add_repo_to_config(&file, "rafters", "/data", None).expect("add");
    assert!(added, "should report added=true for new entry");
    let contents = file.contents.borrow();
    let repos = &contents.as_ref().expect("config file should be created").repos;
    assert_eq!(repos.len(), 1);
    assert_eq!(repos[0].name, "rafters");
    assert!(repos[0].agent.is_none());
}

#[test]
fn watch_add_repo_with_agent_stores_agent_field() {
    let file = config_file();
    add_repo_to_config(&file, "legion", "/data", Some("my-agent")).expect("add");
    let contents = file.contents.borrow();
    let repos = &contents.as_ref().expect("list").repos;
    assert_eq!(repos.len(), 1);
    assert_eq!(repos[0].agent.as_deref(), Some("my-agent"));
}

#[test]
fn watch_add_repo_is_idempotent_by_canonical_path() {
    let file = config_file();
    let first = add_repo_to_config(&file, "rafters", "/data", None).expect("first");
    assert!(first);
    let second = add_repo_to_config(&file, "rafters", "/data", None).expect("second");
    assert!(!second, "duplicate by canonical path should return false");
    let contents = file.contents.borrow();
    assert_eq!(contents.as_ref().expect("list").repos.len(), 1, "should still have only one entry");
}

#[test]
fn watch_add_repo_errors_on_name_collision_with_different_path() {
    let file = config_file();
    file.create_dir("/data/a");
    file.create_dir("/data/b");
    add_repo_to_config(&file, "foo", "/data/a", None).expect("add a");
    let err = message(add_repo_to_config(&file, "foo", "/data/b", None).unwrap_err());
    assert!(err.contains("already in use"), "expected 'already in use' error, got: {}", err);
    assert_eq!(err, "name 'foo' already in use by /data/a");
}

#[test]
fn watch_add_repo_allows_shared_agent_across_repos() {
    let file = config_file();
    file.create_dir("/data/a");
    file.create_dir("/data/b");
    add_repo_to_config(&file, "platform", "/data/a", Some("platform")).expect("add platform");
    add_repo_to_config(&file, "ledger", "/data/b", Some("platform"))
        .expect("ledger sharing the platform agent must be allowed");
    let contents = file.contents.borrow();
    let repos = &contents.as_ref().expect("list").repos;
    assert_eq!(repos.len(), 2);
    assert!(repos.iter().all(|r| r.recipient() == "platform"));
}

#[test]
fn watch_add_repo_allows_distinct_agents() {
    let file = config_file();
    file.create_dir("/data/a");
    file.create_dir("/data/b");
    add_repo_to_config(&file, "alpha", "/data/a", Some("agent-a")).expect("a");
    add_repo_to_config(&file, "beta", "/data/b", Some("agent-b")).expect("b");
    let contents = file.contents.borrow();
    assert_eq!(contents.as_ref().expect("list").repos.len(), 2);
}

#[test]
fn watch_watch_repo_config_recipient_prefers_agent_over_name() {
    let repo_with_agent = WatchRepoConfig {
        name: "ledger".to_string(),
        workdir: "/tmp".to_string(),
        agent: Some("platform".to_string()),
        broadcast_tags: Vec::new(),
        extra: toml::Table::new(),
    };
    assert_eq!(repo_with_agent.recipient(), "platform");

    let repo_without_agent = WatchRepoConfig {
        name: "legion".to_string(),
        workdir: "/tmp".to_string(),
        agent: None,
        broadcast_tags: Vec::new(),
        extra: toml::Table::new(),
    };
    assert_eq!(repo_without_agent.recipient(), "legion");
}

#[test]
fn watch_wake_addresses_is_recipient_plus_broadcast_tags() {
    let repo = WatchRepoConfig {
        name: "ledger".to_string(),
        workdir: "/tmp".to_string(),
        agent: Some("platform".to_string()),
        broadcast_tags: vec!["eng-team".to_string(), "backend".to_string()],
        extra: toml::Table::new(),
    };
    assert_eq!(
        repo.wake_addresses(),
        vec!["platform", "eng-team", "backend"],
        "wake_addresses must be recipient() followed by every broadcast tag"
    );

    let untagged = WatchRepoConfig {
        name: "legion".to_string(),
        workdir: "/tmp".to_string(),
        agent: None,
        broadcast_tags: Vec::new(),
        extra: toml::Table::new(),
    };
    assert_eq!(
        untagged.wake_addresses(),
        vec!["legion"],
        "no agent + no tags must collapse to just the repo name"
    );
}

#[test]
fn watch_watch_repo_config_recipient_treats_empty_agent_as_absent() {
    let empty = WatchRepoConfig {
        name: "fallback".to_string(),
        workdir: "/tmp".to_string(),
        agent: Some("".to_string()),
        broadcast_tags: Vec::new(),
        extra: toml::Table::new(),
    };
    assert_eq!(empty.recipient(), "fallback");

    let whitespace = WatchRepoConfig {
        name: "fallback".to_string(),
        workdir: "/tmp".to_string(),
        agent: Some("   ".to_string()),
        broadcast_tags: Vec::new(),
        extra: toml::Table::new(),
    };
    assert_eq!(whitespace.recipient(), "fallback");
}

#[test]
fn watch_add_repo_normalizes_empty_agent_to_none() {
    let file = config_file();
    add_repo_to_config(&file, "legion", "/data", Some("")).expect("add");
    let contents = file.contents.borrow();
    let repos = &contents.as_ref().expect("list").repos;
    assert_eq!(repos.len(), 1);
    assert!(
        repos[0].agent.is_none(),
        "empty --agent should be normalized to None, not stored as Some(\"\")"
    );
}

#[test]
fn watch_add_repo_preserves_unknown_fields_on_existing_entries() {
    let file = config_file();
    let mut legion = repo("legion", "/tmp", None, &[]);
    legion.extra = "github = \"runlegion/legion\"\nworksource = \"github\"".parse().expect("table");
    let mut rafters = repo("rafters", "/tmp", None, &[]);
    rafters.extra = "github = \"rafters-studio/rafters\"".parse().expect("table");
    file.write(config_of(vec![legion, rafters]));
    file.create_dir("/data/newrepo");
    add_repo_to_config(&file, "newrepo", "/data/newrepo", None).expect("add");
    let contents = file.contents.borrow();
    let repos = &contents.as_ref().expect("reread").repos;
    let field = |i: usize, key: &str| repos[i].extra.get(key).and_then(|v| v.as_str());
    assert_eq!(field(0, "github"), Some("runlegion/legion"), "legion's github field was stripped");
    assert_eq!(field(1, "github"), Some("rafters-studio/rafters"), "rafters's github field was stripped");
    assert_eq!(field(0, "worksource"), Some("github"), "legion's worksource field was stripped");
    assert!(repos[2].extra.is_empty());
}

#[test]
fn watch_add_repo_rejects_nonexistent_workdir() {
    let file = config_file();
    let bad_path = "/nonexistent/path/that/does/not/exist";
    let err = message(add_repo_to_config(&file, "test", bad_path, None).unwrap_err());
    assert!(err.contains("not a directory"), "unexpected error: {}", err);
}

#[test]
fn watch_remove_repo_removes_existing_entry() {
    let file = config_file();
    file.create_dir("/data/a");
    file.create_dir("/data/b");
    add_repo_to_config(&file, "rafters", "/data/a", None).expect("add rafters");
    add_repo_to_config(&file, "legion", "/data/b", None).expect("add legion");
    let removed = remove_repo_from_config(&file, "rafters");
    assert!(removed);
    let contents = file.contents.borrow();
    let repos = &contents.as_ref().expect("list").repos;
    assert_eq!(repos.len(), 1);
    assert_eq!(repos[0].name, "legion");
}

#[test]
fn watch_remove_repo_returns_false_when_not_found() {
    let file = config_file();
    add_repo_to_config(&file, "rafters", "/data", None).expect("add");
    let removed = remove_repo_from_config(&file, "nonexistent");
    assert!(!removed, "unknown name should return false");
}

#[test]
fn watch_add_repo_stores_canonicalized_path() {
    let file = config_file();
    let canonical = "/data";
    add_repo_to_config(&file, "test", canonical, None).expect("add");
    let contents = file.contents.borrow();
    let repos = &contents.as_ref().expect("list").repos;
    assert_eq!(repos[0].workdir, canonical, "workdir should be canonical");
}

#[test]
fn watch_load_config_rejects_cluster_section_loudly() {
    let file = config_file();
    let mut config = config_of(vec![repo("legion", "/data", None, &[])]);
    config.cluster = Some("port = 31337\nsecret = \"abc\"".parse().expect("table"));
    file.write(config);
    let msg = message(load_config(&file).unwrap_err());
    assert!(
        msg.contains("cluster.toml"),
        "rejection must point at cluster.toml as the real home: {msg}"
    );
    assert!(msg.contains("[cluster]"), "rejection must name the offending section: {msg}");
    assert!(msg.contains("/data/watch.toml"));
}

#[test]
fn watch_load_config_without_cluster_section_is_unaffected() {
    let file = config_file();
    file.write(config_of(vec![repo("legion", "/data", None, &[])]));
    load_config(&file).expect("config without [cluster] must load");
    assert!(file.contents.borrow().as_ref().expect("config").cluster.is_none());
}

#[test]
fn watch_add_repo_preserves_cluster_section_for_the_loud_rejection() {
    let file = config_file();
    let mut config = config_of(vec![repo("legion", "/tmp", None, &[])]);
    config.cluster = Some("port = 31337".parse().expect("table"));
    file.write(config);
    file.create_dir("/data/newrepo");
    add_repo_to_config(&file, "newrepo", "/data/newrepo", None).expect("add");
    let contents = file.contents.borrow();
    let cluster = contents.as_ref().expect("reread").cluster.as_ref();
    assert_eq!(
        cluster.and_then(|c| c.get("port")).and_then(|p| p.as_integer()),
        Some(31337),
        "[cluster] section must survive the CRUD round-trip"
    );
}

#[test]
fn watch_recipient_parse_all_variants_map_to_broadcast_all() {
    assert_eq!(
        Recipient::parse("all"),
        Recipient::Broadcast(BroadcastTarget::All)
    );
    assert_eq!(
        Recipient::parse("ALL"),
        Recipient::Broadcast(BroadcastTarget::All)
    );
    assert_eq!(
        Recipient::parse("@all"),
        Recipient::Broadcast(BroadcastTarget::All)
    );
    assert_eq!(
        Recipient::parse("everyone"),
        Recipient::Broadcast(BroadcastTarget::All)
    );
    assert_eq!(
        Recipient::parse("Everyone"),
        Recipient::Broadcast(BroadcastTarget::All)
    );
    assert_eq!(
        Recipient::parse("@everyone"),
        Recipient::Broadcast(BroadcastTarget::All)
    );
}

#[test]
fn watch_recipient_parse_named_becomes_agent() {
    assert_eq!(
        Recipient::parse("platform"),
        Recipient::Agent("platform".to_string())
    );
    assert_eq!(
        Recipient::parse("@platform"),
        Recipient::Agent("platform".to_string())
    );
    assert_eq!(
        Recipient::parse("legion"),
        Recipient::Agent("legion".to_string())
    );
}

#[test]
fn watch_load_config_accepts_shared_agent_across_repos() {
    let file = config_file();
    file.write(config_of(vec![
        repo("platform", "/data", Some("platform"), &[]),
        repo("ledger", "/data", Some("platform"), &[]),
        repo("astro-data", "/data", Some("platform"), &[]),
    ]));
    load_config(&file).expect("shared-agent config must load cleanly");
    let contents = file.contents.borrow();
    let repos = &contents.as_ref().expect("config").repos;
    assert_eq!(repos.len(), 3);
    assert!(repos.iter().all(|r| r.recipient() == "platform"));
}

#[test]
fn watch_load_config_accepts_valid_config_with_unique_recipients_and_tags() {
    let file = config_file();
    file.write(config_of(vec![
        repo("alpha", "/data", Some("agent-a"), &["eng-team"]),
        repo("beta", "/data", Some("agent-b"), &["eng-team", "backend"]),
    ]));
    load_config(&file).expect("valid config must load cleanly");
    assert_eq!(file.contents.borrow().as_ref().expect("config").repos.len(), 2);
}
