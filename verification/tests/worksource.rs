//! What work source plugins are asked, where they are found, and what their
//! answers mean.
use legion_watch::error::LegionError;
use legion_watch::plugin::{
    call_plugin_result, find_in_cache_root, parse_semver, plugin_path, plugin_paths,
    resolve_plugin, resolve_plugin_timeout, CachedPlugin, PluginCache, PluginRun,
    StreamRead,
};
use legion_watch::worksource::{
    close_issue, close_pr, comment, config_review, config_source, create_issue, create_pr,
    create_sub_issue, detect_repo, detected_repo, edit_issue, extract_issue_number,
    fetch_check_log, job_id_from_link, list_issues, list_pr_comments, list_pr_reviews, list_prs,
    list_sub_issues, merge_pr, pr_checks, reopen_issue, resolve_config, resolve_review_config,
    review_pr, view_issue, view_pr, ExternalPRCheck, ExternalPRComment, PR_CHECK_FAILING_STATES,
    PR_CHECK_PASSING_STATES,
};
use legion_watch::toml_doc::{parse_toml, TomlNode};

fn check_with_state(state: &str) -> ExternalPRCheck {
    ExternalPRCheck {
        name: "Test".into(),
        state: state.into(),
        workflow: "CI".into(),
        link: String::new(),
        description: String::new(),
    }
}

/// A version directory that holds the plugin or does not.
fn cached(marketplace: &str, version: &str, exists: bool) -> CachedPlugin {
    let dir = format!("/cache/{marketplace}/legion/{version}");
    CachedPlugin { version: Some(version.to_string()), path: plugin_path(&dir, "github"), exists }
}

#[test]
fn is_failing_terminal_failure_states() {
    for state in PR_CHECK_FAILING_STATES {
        assert!(
            check_with_state(state).is_failing(),
            "expected {state} to be failing"
        );
    }
}

#[test]
fn is_failing_passing_and_in_flight_states() {
    for state in PR_CHECK_PASSING_STATES {
        assert!(
            !check_with_state(state).is_failing(),
            "expected {state} to NOT be failing"
        );
    }
}

#[test]
fn pr_check_state_lists_partition() {
    let passing: std::collections::HashSet<&str> =
        PR_CHECK_PASSING_STATES.iter().copied().collect();
    let failing: std::collections::HashSet<&str> =
        PR_CHECK_FAILING_STATES.iter().copied().collect();

    let overlap: Vec<&&str> = passing.intersection(&failing).collect();
    assert!(
        overlap.is_empty(),
        "a state cannot be both passing and failing: {overlap:?}"
    );

    for state in &passing {
        assert!(!check_with_state(state).is_failing(), "{state}");
    }
    for state in &failing {
        assert!(check_with_state(state).is_failing(), "{state}");
    }
}

#[test]
fn is_failing_unknown_state_treated_as_failing() {
    assert!(check_with_state("FUTURE_GH_STATE").is_failing());
}

#[test]
fn pr_checks_returns_worksource_error_when_plugin_missing() {
    let result = pr_checks(None, "nonexistent-plugin-xyz", "owner/repo", 1);
    assert!(
        matches!(result, Err(LegionError::WorkSource(_))),
        "expected WorkSource error, got {:?}",
        result
    );
}

#[test]
fn extract_issue_number_from_url() {
    assert_eq!(
        extract_issue_number("https://github.com/runlegion/legion/issues/42"),
        Some(42)
    );
    assert_eq!(extract_issue_number("not-a-url"), None);
    assert_eq!(extract_issue_number(""), None);
}

#[test]
fn close_pr_returns_worksource_error_when_plugin_missing() {
    let result = close_pr(None, "nonexistent-plugin-xyz", "owner/repo", 1, None, false);
    assert!(
        matches!(result, Err(LegionError::WorkSource(_))),
        "expected WorkSource error, got {:?}",
        result
    );
}

#[test]
fn close_issue_returns_worksource_error_when_plugin_missing() {
    let result = close_issue(None, "nonexistent-plugin-xyz", "owner/repo", 1, None);
    assert!(
        matches!(result, Err(LegionError::WorkSource(_))),
        "expected WorkSource error, got {:?}",
        result
    );
}

#[test]
fn close_issue_returns_worksource_error_when_plugin_missing_with_comment() {
    let result = close_issue(
        None,
        "nonexistent-plugin-xyz",
        "owner/repo",
        1,
        Some("closed by legion reconcile"),
    );
    assert!(
        matches!(result, Err(LegionError::WorkSource(_))),
        "expected WorkSource error, got {:?}",
        result
    );
}

#[test]
fn reopen_issue_returns_worksource_error_when_plugin_missing() {
    let result = reopen_issue(None, "nonexistent-plugin-xyz", "owner/repo", 1, None);
    assert!(
        matches!(result, Err(LegionError::WorkSource(_))),
        "expected WorkSource error, got {:?}",
        result
    );
}

#[test]
fn edit_issue_returns_worksource_error_when_plugin_missing() {
    let result = edit_issue(
        None,
        "nonexistent-plugin-xyz",
        "owner/repo",
        1,
        Some("new title"),
        None,
    );
    assert!(
        matches!(result, Err(LegionError::WorkSource(_))),
        "expected WorkSource error, got {:?}",
        result
    );
}

#[test]
fn edit_issue_rejects_empty_args_before_plugin_lookup() {
    let result = edit_issue(None, "any-plugin-name", "owner/repo", 1, None, None);
    let Err(LegionError::WorkSource(msg)) = result else {
        panic!("expected WorkSource error, got {:?}", result);
    };
    assert!(
        msg.contains("at least one of title or body"),
        "expected validation error message, got: {msg}"
    );
}

#[test]
fn parse_semver_orders_versions() {
    assert!(parse_semver("0.4.7") > parse_semver("0.4.3"));
    assert!(parse_semver("0.5.0") > parse_semver("0.4.99"));
    assert!(parse_semver("1.0.0") > parse_semver("0.99.99"));
    assert_eq!(parse_semver("0.4.7"), vec![0, 4, 7]);
    assert_eq!(parse_semver("garbage"), vec![0]);
}

#[test]
fn job_id_from_link_parses_github_actions_url() {
    let link = "https://github.com/runlegion/legion/actions/runs/24756870394/job/72431832342";
    assert_eq!(job_id_from_link(link), Some(72431832342));
}

#[test]
fn job_id_from_link_tolerates_query_string() {
    let link = "https://github.com/foo/bar/actions/runs/1/job/99?pr=42";
    assert_eq!(job_id_from_link(link), Some(99));
}

#[test]
fn job_id_from_link_returns_none_for_non_job_url() {
    assert_eq!(job_id_from_link("https://example.com/checks/abc"), None);
    assert_eq!(job_id_from_link(""), None);
}

#[test]
fn view_pr_returns_worksource_error_when_plugin_missing() {
    let result = view_pr(None, "nonexistent-plugin-xyz", "owner/repo", 1);
    assert!(
        matches!(result, Err(LegionError::WorkSource(_))),
        "expected WorkSource error, got {:?}",
        result
    );
}

#[test]
fn list_pr_comments_returns_worksource_error_when_plugin_missing() {
    let result = list_pr_comments(None, "nonexistent-plugin-xyz", "owner/repo", 1);
    assert!(
        matches!(result, Err(LegionError::WorkSource(_))),
        "expected WorkSource error, got {:?}",
        result
    );
}

#[test]
fn list_pr_reviews_returns_worksource_error_when_plugin_missing() {
    let result = list_pr_reviews(None, "nonexistent-plugin-xyz", "owner/repo", 1);
    assert!(
        matches!(result, Err(LegionError::WorkSource(_))),
        "expected WorkSource error, got {:?}",
        result
    );
}

#[test]
fn fetch_check_log_returns_worksource_error_when_plugin_missing() {
    let result = fetch_check_log(None, "nonexistent-plugin-xyz", "owner/repo", 42);
    assert!(
        matches!(result, Err(LegionError::WorkSource(_))),
        "expected WorkSource error, got {:?}",
        result
    );
}

#[test]
fn find_plugin_returns_none_for_nonexistent() {
    let mut cache = PluginCache::new();
    let paths = plugin_paths("nonexistent-plugin-xyz", Some("/root"), Some("/bin/x"), Some("/bin"));
    let found = resolve_plugin(&paths, &[false, false, false], None);
    let result = cache.find_plugin("nonexistent-plugin-xyz", found);
    assert!(result.is_none());
    assert!(cache.get("nonexistent-plugin-xyz").is_none());
}

#[test]
fn find_in_cache_root_returns_none_when_empty() {
    assert!(find_in_cache_root(&[]).is_none());
}

#[test]
fn find_in_cache_root_picks_highest_version() {
    let found = find_in_cache_root(&[
        cached("legion", "0.4.3", true),
        cached("legion", "0.5.0", true),
        cached("legion", "0.4.7", true),
    ])
    .expect("should find github");
    assert!(found.contains("0.5.0"), "expected 0.5.0, got {found}");
    assert_eq!(found, "/cache/legion/legion/0.5.0/worksources/github");
}

#[test]
fn find_in_cache_root_skips_versions_without_worksource() {
    let found = find_in_cache_root(&[
        cached("legion", "0.5.0", false),
        cached("legion", "0.4.3", true),
    ])
    .expect("should find github");
    assert!(found.contains("0.4.3"));
}

#[test]
fn find_in_cache_root_handles_multiple_marketplaces() {
    let found = find_in_cache_root(&[
        cached("marketplace-a", "0.4.3", true),
        cached("marketplace-b", "0.5.0", true),
    ])
    .expect("should find github");
    assert!(found.contains("0.5.0"));
}

#[test]
fn find_in_cache_root_returns_none_when_worksource_missing() {
    assert!(find_in_cache_root(&[cached("legion", "0.5.0", false)]).is_none());
}

fn exited(success: bool, stdout: &str, stderr: &str) -> PluginRun {
    PluginRun::Exited {
        success,
        stdout: StreamRead::Text(stdout.to_string()),
        stderr: StreamRead::Text(stderr.to_string()),
    }
}

#[test]
fn returns_stdout_on_success() {
    let out = call_plugin_result(exited(true, "hello\n", "")).expect("stub should succeed");
    assert_eq!(out, "hello\n");
}

#[test]
fn surfaces_stderr_on_nonzero_exit() {
    let err = call_plugin_result(exited(false, "", "bad\n")).expect_err("nonzero exit must error");
    let LegionError::WorkSource(msg) = err else {
        panic!("expected WorkSource error, got {err:?}")
    };
    assert!(msg.contains("bad"), "expected stderr in error: {msg}");
    assert_eq!(msg, "plugin failed: bad\n");
}

#[test]
fn times_out_and_kills_hung_plugin() {
    let err = call_plugin_result(PluginRun::TimedOut(1)).expect_err("hung plugin must error");
    let LegionError::WorkSource(msg) = err else {
        panic!("expected WorkSource error, got {err:?}")
    };
    assert!(msg.contains("timeout"), "expected timeout error message, got: {msg}");
    assert_eq!(msg, "plugin timeout after 1s");
}

#[test]
fn no_timeout_lets_plugin_run_to_completion() {
    assert_eq!(resolve_plugin_timeout(Some("0")), None);
    let out = call_plugin_result(exited(true, "done\n", "")).expect("no-timeout must succeed");
    assert_eq!(out, "done\n");
}

#[test]
fn survives_stdout_larger_than_pipe_buffer() {
    let text = "A\n".repeat(131072);
    let out = call_plugin_result(exited(true, &text, "")).expect("large stdout must not deadlock");
    assert_eq!(out.len(), 262144);
}

fn failure_of(run: PluginRun) -> String {
    match call_plugin_result(run) {
        Err(LegionError::WorkSource(m)) => m,
        other => panic!("expected WorkSource error, got {other:?}"),
    }
}

#[test]
fn each_way_a_run_fails_has_its_message() {
    assert_eq!(failure_of(PluginRun::SpawnFailed("no such file".into())), "failed to run plugin: no such file");
    assert_eq!(failure_of(PluginRun::StdoutMissing), "plugin stdout missing");
    assert_eq!(failure_of(PluginRun::StderrMissing), "plugin stderr missing");
    assert_eq!(failure_of(PluginRun::WaitFailed("gone".into())), "plugin wait: gone");
    let text = |t: &str| StreamRead::Text(t.to_string());
    assert_eq!(
        failure_of(PluginRun::Exited { success: true, stdout: StreamRead::Panicked, stderr: text("") }),
        "plugin stdout reader panicked"
    );
    assert_eq!(
        failure_of(PluginRun::Exited {
            success: true,
            stdout: StreamRead::Failed("bad utf-8".into()),
            stderr: text(""),
        }),
        "plugin stdout: bad utf-8"
    );
    assert_eq!(
        failure_of(PluginRun::Exited { success: true, stdout: text("x"), stderr: StreamRead::Panicked }),
        "plugin stderr reader panicked"
    );
}

#[test]
fn an_unreadable_stderr_counts_as_empty() {
    let unreadable = || StreamRead::Failed("bad utf-8".into());
    let text = |t: &str| StreamRead::Text(t.to_string());
    let run = PluginRun::Exited { success: true, stdout: text("x"), stderr: unreadable() };
    assert_eq!(call_plugin_result(run).expect("success"), "x");
    let run = PluginRun::Exited { success: false, stdout: text("x"), stderr: unreadable() };
    assert_eq!(failure_of(run), "plugin failed: ");
}

#[test]
fn plugin_timeout_setting() {
    assert_eq!(resolve_plugin_timeout(None), Some(30));
    assert_eq!(resolve_plugin_timeout(Some("5")), Some(5));
    assert_eq!(resolve_plugin_timeout(Some("soon")), Some(30));
    assert_eq!(resolve_plugin_timeout(Some("-1")), Some(30));
    assert_eq!(resolve_plugin_timeout(Some("18446744073709551616")), Some(30));
}

#[test]
fn plugin_paths_in_order() {
    let paths = plugin_paths("github", Some("/plug"), Some("/opt/bin"), Some("/opt"));
    assert_eq!(
        paths,
        vec!["/plug/worksources/github", "/opt/bin/worksources/github", "/opt/worksources/github"]
    );
    assert_eq!(plugin_paths("github", Some(""), Some("/opt/bin"), None), vec!["/opt/bin/worksources/github"]);
    assert_eq!(resolve_plugin(&paths, &[false, true, true], Some("/c".into())).as_deref(), Some("/opt/bin/worksources/github"));
    assert_eq!(resolve_plugin(&paths, &[false, false, false], Some("/c".into())).as_deref(), Some("/c"));
}

#[test]
fn a_resolved_plugin_is_remembered_by_name() {
    let mut cache = PluginCache::new();
    assert_eq!(cache.find_plugin("github", Some("/a".into())).as_deref(), Some("/a"));
    assert_eq!(cache.find_plugin("github", Some("/b".into())).as_deref(), Some("/a"));
    assert_eq!(cache.find_plugin("linear", Some("/b".into())).as_deref(), Some("/b"));
    assert_eq!(cache.get("github").as_deref(), Some("/a"));
    assert!(cache.get("jira").is_none());
}

#[test]
fn of_equal_versions_the_first_wins_and_unreadable_names_are_passed_over() {
    let nameless = CachedPlugin { version: None, path: "/x".into(), exists: true };
    let found = find_in_cache_root(&[nameless, cached("a", "1.0", true), cached("b", "1.0", true)]);
    assert_eq!(found.as_deref(), Some("/cache/a/legion/1.0/worksources/github"));
    assert_eq!(
        find_in_cache_root(&[cached("a", "1.0", true), cached("b", "1.0.0", true)]).as_deref(),
        Some("/cache/b/legion/1.0.0/worksources/github")
    );
}

fn env_of(call: &legion_watch::plugin::PluginCall) -> Vec<(&str, &str)> {
    call.env.iter().map(|(k, v)| (k.as_str(), v.as_str())).collect()
}

#[test]
fn issue_calls_carry_their_settings() {
    let call = list_issues(Some("/p"), "o/r", "/w").expect("call");
    assert_eq!(call.path, "/p");
    assert_eq!(call.args, vec!["list"]);
    assert_eq!(env_of(&call), vec![("LEGION_WS_REPO", "o/r"), ("LEGION_WS_WORKDIR", "/w")]);
    assert!(list_issues(None, "o/r", "/w").is_none());

    let call = view_issue(Some("/p"), "github", "o/r", 7).expect("call");
    assert_eq!(call.args, vec!["view-issue"]);
    assert_eq!(env_of(&call), vec![("LEGION_WS_REPO", "o/r"), ("LEGION_WS_NUMBER", "7")]);

    let call = close_issue(Some("/p"), "github", "o/r", 7, Some("done")).expect("call");
    assert_eq!(call.args, vec!["close", "7"]);
    assert_eq!(
        env_of(&call),
        vec![("LEGION_WS_REPO", "o/r"), ("LEGION_WS_NUMBER", "7"), ("LEGION_WS_COMMENT", "done")]
    );

    let call = reopen_issue(Some("/p"), "github", "o/r", 7, None).expect("call");
    assert_eq!(call.args, vec!["reopen", "7"]);
    assert_eq!(env_of(&call), vec![("LEGION_WS_REPO", "o/r"), ("LEGION_WS_NUMBER", "7")]);

    let call = edit_issue(Some("/p"), "github", "o/r", 7, None, Some("b")).expect("call");
    assert_eq!(call.args, vec!["edit-issue"]);
    assert_eq!(
        env_of(&call),
        vec![("LEGION_WS_REPO", "o/r"), ("LEGION_WS_NUMBER", "7"), ("LEGION_WS_BODY", "b")]
    );

    let call = create_sub_issue(Some("/p"), "github", "o/r", 7, "t", Some("b")).expect("call");
    assert_eq!(call.args, vec!["create-sub-issue"]);
    assert_eq!(
        env_of(&call),
        vec![
            ("LEGION_WS_REPO", "o/r"),
            ("LEGION_WS_PARENT_NUMBER", "7"),
            ("LEGION_WS_TITLE", "t"),
            ("LEGION_WS_BODY", "b"),
        ]
    );

    let call = list_sub_issues(Some("/p"), "o/r", 7, None).expect("call");
    assert_eq!(call.args, vec!["list-sub-issues"]);
    assert_eq!(
        env_of(&call),
        vec![
            ("LEGION_WS_REPO", "o/r"),
            ("LEGION_WS_PARENT_NUMBER", "7"),
            ("LEGION_WS_STATE", "open"),
        ]
    );
    let call = list_sub_issues(Some("/p"), "o/r", 7, Some("all")).expect("call");
    assert_eq!(env_of(&call)[2], ("LEGION_WS_STATE", "all"));

    let call =
        create_issue(Some("/p"), "github", "o/r", "t", None, Some("bug"), Some("me")).expect("call");
    assert_eq!(call.args, vec!["create-issue"]);
    assert_eq!(
        env_of(&call),
        vec![
            ("LEGION_WS_REPO", "o/r"),
            ("LEGION_WS_TITLE", "t"),
            ("LEGION_WS_LABELS", "bug"),
            ("LEGION_WS_ASSIGNEE", "me"),
        ]
    );

    let call = comment(Some("/p"), "github", "o/r", 7, "hi").expect("call");
    assert_eq!(call.args, vec!["comment"]);
    assert_eq!(
        env_of(&call),
        vec![("LEGION_WS_REPO", "o/r"), ("LEGION_WS_NUMBER", "7"), ("LEGION_WS_BODY", "hi")]
    );
}

#[test]
fn pull_request_calls_carry_their_settings() {
    let call = create_pr(
        Some("/p"),
        "github",
        "o/r",
        "t",
        Some("b"),
        Some("main"),
        Some("topic"),
        true,
        Some("bug"),
        Some("me"),
    )
    .expect("call");
    assert_eq!(call.args, vec!["create-pr"]);
    assert_eq!(
        env_of(&call),
        vec![
            ("LEGION_WS_REPO", "o/r"),
            ("LEGION_WS_TITLE", "t"),
            ("LEGION_WS_BODY", "b"),
            ("LEGION_WS_BASE", "main"),
            ("LEGION_WS_HEAD", "topic"),
            ("LEGION_WS_DRAFT", "true"),
            ("LEGION_WS_LABELS", "bug"),
            ("LEGION_WS_REVIEWER", "me"),
        ]
    );
    let call =
        create_pr(Some("/p"), "github", "o/r", "t", None, None, None, false, None, None).expect("call");
    assert_eq!(env_of(&call), vec![("LEGION_WS_REPO", "o/r"), ("LEGION_WS_TITLE", "t")]);

    let call = list_prs(Some("/p"), "o/r").expect("call");
    assert_eq!(call.args, vec!["pr-list"]);
    assert_eq!(env_of(&call), vec![("LEGION_WS_REPO", "o/r")]);

    let call = pr_checks(Some("/p"), "github", "o/r", 9).expect("call");
    assert_eq!(call.args, vec!["pr-checks"]);
    assert_eq!(env_of(&call), vec![("LEGION_WS_REPO", "o/r"), ("LEGION_WS_PR_NUMBER", "9")]);

    let call =
        review_pr(Some("/p"), "github", "o/r", 9, "approve", Some("ok"), Some("/c")).expect("call");
    assert_eq!(call.args, vec!["review"]);
    assert_eq!(
        env_of(&call),
        vec![
            ("LEGION_WS_REPO", "o/r"),
            ("LEGION_WS_PR_NUMBER", "9"),
            ("LEGION_WS_EVENT", "approve"),
            ("LEGION_WS_BODY", "ok"),
            ("LEGION_WS_COMMENTS", "/c"),
        ]
    );

    let call = merge_pr(Some("/p"), "github", "o/r", 9, "squash", true).expect("call");
    assert_eq!(call.args, vec!["merge"]);
    assert_eq!(
        env_of(&call),
        vec![
            ("LEGION_WS_REPO", "o/r"),
            ("LEGION_WS_PR_NUMBER", "9"),
            ("LEGION_WS_STRATEGY", "squash"),
            ("LEGION_WS_DELETE_BRANCH", "true"),
        ]
    );

    let call = close_pr(Some("/p"), "github", "o/r", 9, Some("stale"), false).expect("call");
    assert_eq!(call.args, vec!["pr-close"]);
    assert_eq!(
        env_of(&call),
        vec![
            ("LEGION_WS_REPO", "o/r"),
            ("LEGION_WS_PR_NUMBER", "9"),
            ("LEGION_WS_DELETE_BRANCH", "false"),
            ("LEGION_WS_REASON", "stale"),
        ]
    );

    for (call, sub) in [
        (view_pr(Some("/p"), "github", "o/r", 9), "view-pr"),
        (list_pr_comments(Some("/p"), "github", "o/r", 9), "pr-comments"),
        (list_pr_reviews(Some("/p"), "github", "o/r", 9), "pr-reviews"),
    ] {
        let call = call.expect("call");
        assert_eq!(call.args, vec![sub]);
        assert_eq!(env_of(&call), vec![("LEGION_WS_REPO", "o/r"), ("LEGION_WS_NUMBER", "9")]);
    }

    let call = fetch_check_log(Some("/p"), "github", "o/r", 99).expect("call");
    assert_eq!(call.args, vec!["pr-check-log"]);
    assert_eq!(env_of(&call), vec![("LEGION_WS_REPO", "o/r"), ("LEGION_WS_JOB_ID", "99")]);
}

#[test]
fn a_missing_plugin_is_named() {
    match view_issue(None, "github", "o/r", 7) {
        Err(LegionError::WorkSource(m)) => assert_eq!(m, "plugin not found: github"),
        other => panic!("unexpected {other:?}"),
    }
}

#[test]
fn a_detected_repo_is_trimmed() {
    let call = detect_repo(Some("/p"), "/w").expect("call");
    assert_eq!(call.args, vec!["detect"]);
    assert_eq!(env_of(&call), vec![("LEGION_WS_WORKDIR", "/w")]);
    assert_eq!(detected_repo(" o/r\n").as_deref(), Some("o/r"));
    assert_eq!(detected_repo(" \n"), None);
}

#[test]
fn numbers_in_addresses() {
    assert_eq!(extract_issue_number("https://x/issues/"), None);
    assert_eq!(extract_issue_number("42"), Some(42));
}

#[test]
fn only_the_link_of_a_github_actions_job_leads_to_a_job() {
    let runs = "https://github.com/o/r/actions/runs";
    assert_eq!(job_id_from_link(&format!("{runs}/1/job/18446744073709551615")), Some(u64::MAX));
    assert_eq!(job_id_from_link(&format!("{runs}/1/job/18446744073709551616")), None);
    assert_eq!(job_id_from_link(&format!("{runs}/1/job/7#step:2:1")), Some(7));
    assert_eq!(job_id_from_link(&format!("{runs}/1/job/7/job/8")), Some(7));
    assert_eq!(job_id_from_link(&format!("{runs}/1/job/x1")), None);
    assert_eq!(job_id_from_link(&format!("{runs}/1/job/")), None);
    assert_eq!(job_id_from_link(&format!("{runs}/1")), None);
    assert_eq!(job_id_from_link(&format!("{runs}//job/7")), None);
    assert_eq!(job_id_from_link(&format!("{runs}/1x/job/7")), None);
    assert_eq!(job_id_from_link("https://github.com/r/actions/runs/1/job/7"), None);
    assert_eq!(job_id_from_link("https://github.com//r/actions/runs/1/job/7"), None);
    assert_eq!(job_id_from_link("https://github.com/o//actions/runs/1/job/7"), None);
    assert_eq!(job_id_from_link("https://github.com/a/b/c/actions/runs/1/job/7"), None);
    assert_eq!(job_id_from_link("http://github.com/o/r/actions/runs/1/job/7"), None);
    assert_eq!(job_id_from_link("https://ci.example.com/job/7"), None);
    assert_eq!(job_id_from_link("/job/7"), None);
}

#[test]
fn the_kind_of_a_comment_says_whether_it_is_a_review() {
    let mut c = ExternalPRComment {
        id: "1".into(),
        author: "a".into(),
        created_at: String::new(),
        updated_at: String::new(),
        body: String::new(),
        kind: "review".into(),
        path: None,
        line: None,
        in_reply_to_id: None,
    };
    assert!(c.is_review());
    c.kind = "issue".into();
    c.path = Some("src/lib.rs".into());
    assert!(!c.is_review());
}

const CONFIG: &str = r#"
poll_interval_secs = 30
[review]
agent = "kessel"
auto_signal = true

[[repos]]
name = "bare"
workdir = "/bare"

[[repos]]
name = "legion"
workdir = "/legion"
github = "runlegion/legion"

[[repos]]
name = "other"
workdir = "/other"
github = "o/other"
worksource = "linear"
"#;

#[test]
fn work_sources_come_from_the_repo_table() {
    let of = |repo: &str| resolve_config(CONFIG, repo);
    assert_eq!(of("legion"), Some(("github".into(), "runlegion/legion".into(), "/legion".into())));
    assert_eq!(of("other"), Some(("linear".into(), "o/other".into(), "/other".into())));
    assert_eq!(of("bare"), None);
    assert_eq!(of("unknown"), None);
    assert_eq!(resolve_config("not = = toml", "legion"), None);
    assert_eq!(resolve_config("repos = 1", "legion"), None);
}

#[test]
fn the_reviewer_comes_from_the_review_table() {
    let review = resolve_review_config(CONFIG).expect("review");
    assert_eq!(review.agent, "kessel");
    assert!(review.auto_signal);
    let review = resolve_review_config("[review]\nagent = \"a\"\nauto_signal = \"yes\"").expect("review");
    assert!(!review.auto_signal);
    assert!(resolve_review_config("[review]\nauto_signal = true").is_none());
    assert!(resolve_review_config("").is_none());
    assert!(resolve_review_config("[review").is_none());
}

#[test]
fn a_document_is_read_as_plain_values() {
    let doc = parse_toml("a = \"x\"\nb = [true, 1, {c = \"y\"}]").expect("document");
    assert_eq!(doc.text_at("a"), Some("x"));
    let Some(TomlNode::List(items)) = doc.get("b") else { panic!("expected a list") };
    assert_eq!(items.len(), 3);
    assert_eq!(items[0].as_flag(), Some(true));
    assert!(matches!(items[1], TomlNode::Other));
    assert_eq!(items[2].text_at("c"), Some("y"));
    assert!(doc.get("z").is_none());
}

#[test]
fn config_documents_written_as_plain_values() {
    let text = |s: &str| TomlNode::Text(s.to_string());
    let entry = |fields: Vec<(&str, TomlNode)>| {
        TomlNode::Table(fields.into_iter().map(|(k, v)| (k.to_string(), v)).collect())
    };
    let repos = TomlNode::List(vec![
        entry(vec![("name", text("r")), ("github", text("o/r"))]),
        entry(vec![("name", text("r")), ("github", text("o/r2")), ("workdir", text("/r"))]),
    ]);
    let doc = entry(vec![
        ("repos", repos),
        ("review", entry(vec![("agent", text("a")), ("auto_signal", TomlNode::Flag(true))])),
    ]);
    assert_eq!(config_source(&doc, "r"), Some(("github".into(), "o/r2".into(), "/r".into())));
    let review = config_review(&doc).expect("review");
    assert_eq!((review.agent.as_str(), review.auto_signal), ("a", true));
}
