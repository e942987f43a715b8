//! What is asked of a work source plugin, and what its answers mean.
use vstd::prelude::*;
use crate::error::LegionError;
use crate::number::{
    all_digits, bounded_numeral, decimal, digits_value, is_digit, lemma_decimal_reads_back,
    parse_bounded, to_decimal,
};
use crate::plugin::{is_call, is_optional_call, plugin_not_found, subcommand, PluginCall};
use crate::scan::{
    char_lists, find_char, law_split_cuts_at_each_separator, lemma_index_from,
    lemma_split_at_the_last, lemma_split_nonempty, matches_at, occurs_at, split, split_chars,
};
use crate::signal::opt_str;
use crate::text::{text_eq, to_chars, trim, trimmed};
use crate::toml_doc::{parse_toml, toml_document, TomlData, TomlNode};

verus! {

broadcast use vstd::seq_lib::group_seq_properties;

/// A flag as the text that a plugin reads.
pub open spec fn flag_text(flag: bool) -> Seq<char> {
    if flag {
        "true"@
    } else {
        "false"@
    }
}

fn flag_str(flag: bool) -> (text: &'static str)
    ensures
        text@ == flag_text(flag),
{
    if flag {
        "true"
    } else {
        "false"
    }
}

// -- Issues ------------------------------------------------------------------

/// Asks for the open issues. Without the plugin there are none.
pub fn list_issues(
    plugin: Option<&str>,
    github_repo: &str,
    workdir: &str,
) -> (call: Option<PluginCall>)
    ensures
        is_optional_call(
            call,
            plugin,
            subcommand("list"@)
                .with("LEGION_WS_REPO"@, github_repo@)
                .with("LEGION_WS_WORKDIR"@, workdir@),
        ),
{
    match plugin {
        Some(path) => {
            let mut call = PluginCall::new(path, "list");
            call.set("LEGION_WS_REPO", github_repo);
            call.set("LEGION_WS_WORKDIR", workdir);
            Some(call)
        },
        None => None,
    }
}

/// Asks for one issue.
pub fn view_issue(
    plugin: Option<&str>,
    plugin_name: &str,
    github_repo: &str,
    number: u64,
) -> (call: Result<PluginCall, LegionError>)
    ensures
        is_call(
            call,
            plugin,
            plugin_name@,
            subcommand("view-issue"@)
                .with("LEGION_WS_REPO"@, github_repo@)
                .with("LEGION_WS_NUMBER"@, decimal(number as nat)),
        ),
{
    match plugin {
        Some(path) => {
            let mut call = PluginCall::new(path, "view-issue");
            call.set("LEGION_WS_REPO", github_repo);
            call.set("LEGION_WS_NUMBER", to_decimal(number).as_str());
            Ok(call)
        },
        None => plugin_not_found(plugin_name),
    }
}

/// Closes an issue, with a closing comment where one is given. A missing
/// plugin is an error, so that no close is believed that did not happen.
pub fn close_issue(
    plugin: Option<&str>,
    plugin_name: &str,
    github_repo: &str,
    number: u64,
    comment: Option<&str>,
) -> (call: Result<PluginCall, LegionError>)
    ensures
        is_call(
            call,
            plugin,
            plugin_name@,
            subcommand("close"@)
                .arg(decimal(number as nat))
                .with("LEGION_WS_REPO"@, github_repo@)
                .with("LEGION_WS_NUMBER"@, decimal(number as nat))
                .with_opt("LEGION_WS_COMMENT"@, opt_str(comment)),
        ),
{
    match plugin {
        Some(path) => {
            let mut call = PluginCall::new(path, "close");
            call.arg(to_decimal(number).as_str());
            call.set("LEGION_WS_REPO", github_repo);
            call.set("LEGION_WS_NUMBER", to_decimal(number).as_str());
            call.set_opt("LEGION_WS_COMMENT", comment);
            Ok(call)
        },
        None => plugin_not_found(plugin_name),
    }
}

/// Reopens an issue, with a comment where one is given.
pub fn reopen_issue(
    plugin: Option<&str>,
    plugin_name: &str,
    github_repo: &str,
    number: u64,
    comment: Option<&str>,
) -> (call: Result<PluginCall, LegionError>)
    ensures
        is_call(
            call,
            plugin,
            plugin_name@,
            subcommand("reopen"@)
                .arg(decimal(number as nat))
                .with("LEGION_WS_REPO"@, github_repo@)
                .with("LEGION_WS_NUMBER"@, decimal(number as nat))
                .with_opt("LEGION_WS_COMMENT"@, opt_str(comment)),
        ),
{
    match plugin {
        Some(path) => {
            let mut call = PluginCall::new(path, "reopen");
            call.arg(to_decimal(number).as_str());
            call.set("LEGION_WS_REPO", github_repo);
            call.set("LEGION_WS_NUMBER", to_decimal(number).as_str());
            call.set_opt("LEGION_WS_COMMENT", comment);
            Ok(call)
        },
        None => plugin_not_found(plugin_name),
    }
}

/// Changes the title or the body of an issue, or both. That neither is given
/// is an error, whether or not the plugin is there.
pub fn edit_issue(
    plugin: Option<&str>,
    plugin_name: &str,
    github_repo: &str,
    number: u64,
    title: Option<&str>,
    body: Option<&str>,
) -> (call: Result<PluginCall, LegionError>)
    ensures
        if title is None && body is None {
            call matches Err(LegionError::WorkSource(m)) && m@
                == "edit_issue: at least one of title or body must be provided"@
        } else {
            is_call(
                call,
                plugin,
                plugin_name@,
                subcommand("edit-issue"@)
                    .with("LEGION_WS_REPO"@, github_repo@)
                    .with("LEGION_WS_NUMBER"@, decimal(number as nat))
                    .with_opt("LEGION_WS_TITLE"@, opt_str(title))
                    .with_opt("LEGION_WS_BODY"@, opt_str(body)),
            )
        },
{
    if title.is_none() && body.is_none() {
        return Err(
            LegionError::WorkSource(
                "edit_issue: at least one of title or body must be provided".to_string(),
            ),
        );
    }
    match plugin {
        Some(path) => {
            let mut call = PluginCall::new(path, "edit-issue");
            call.set("LEGION_WS_REPO", github_repo);
            call.set("LEGION_WS_NUMBER", to_decimal(number).as_str());
            call.set_opt("LEGION_WS_TITLE", title);
            call.set_opt("LEGION_WS_BODY", body);
            Ok(call)
        },
        None => plugin_not_found(plugin_name),
    }
}

/// Creates an issue under a parent issue.
pub fn create_sub_issue(
    plugin: Option<&str>,
    plugin_name: &str,
    github_repo: &str,
    parent_number: u64,
    title: &str,
    body: Option<&str>,
) -> (call: Result<PluginCall, LegionError>)
    ensures
        is_call(
            call,
            plugin,
            plugin_name@,
            subcommand("create-sub-issue"@)
                .with("LEGION_WS_REPO"@, github_repo@)
                .with("LEGION_WS_PARENT_NUMBER"@, decimal(parent_number as nat))
                .with("LEGION_WS_TITLE"@, title@)
                .with_opt("LEGION_WS_BODY"@, opt_str(body)),
        ),
{
    match plugin {
        Some(path) => {
            let mut call = PluginCall::new(path, "create-sub-issue");
            call.set("LEGION_WS_REPO", github_repo);
            call.set("LEGION_WS_PARENT_NUMBER", to_decimal(parent_number).as_str());
            call.set("LEGION_WS_TITLE", title);
            call.set_opt("LEGION_WS_BODY", body);
            Ok(call)
        },
        None => plugin_not_found(plugin_name),
    }
}

/// Asks for the issues under a parent issue, the open ones unless a state is
/// given. Without the plugin there are none.
pub fn list_sub_issues(
    plugin: Option<&str>,
    github_repo: &str,
    parent_number: u64,
    state: Option<&str>,
) -> (call: Option<PluginCall>)
    ensures
        is_optional_call(
            call,
            plugin,
            subcommand("list-sub-issues"@)
                .with("LEGION_WS_REPO"@, github_repo@)
                .with("LEGION_WS_PARENT_NUMBER"@, decimal(parent_number as nat))
                .with("LEGION_WS_STATE"@, opt_str(state).unwrap_or("open"@)),
        ),
{
    match plugin {
        Some(path) => {
            let mut call = PluginCall::new(path, "list-sub-issues");
            call.set("LEGION_WS_REPO", github_repo);
            call.set("LEGION_WS_PARENT_NUMBER", to_decimal(parent_number).as_str());
            match state {
                Some(v) => call.set("LEGION_WS_STATE", v),
                None => call.set("LEGION_WS_STATE", "open"),
            }
            Some(call)
        },
        None => None,
    }
}

/// Creates an issue.
pub fn create_issue(
    plugin: Option<&str>,
    plugin_name: &str,
    github_repo: &str,
    title: &str,
    body: Option<&str>,
    labels: Option<&str>,
    assignee: Option<&str>,
) -> (call: Result<PluginCall, LegionError>)
    ensures
        is_call(
            call,
            plugin,
            plugin_name@,
            subcommand("create-issue"@)
                .with("LEGION_WS_REPO"@, github_repo@)
                .with("LEGION_WS_TITLE"@, title@)
                .with_opt("LEGION_WS_BODY"@, opt_str(body))
                .with_opt("LEGION_WS_LABELS"@, opt_str(labels))
                .with_opt("LEGION_WS_ASSIGNEE"@, opt_str(assignee)),
        ),
{
    match plugin {
        Some(path) => {
            let mut call = PluginCall::new(path, "create-issue");
            call.set("LEGION_WS_REPO", github_repo);
            call.set("LEGION_WS_TITLE", title);
            call.set_opt("LEGION_WS_BODY", body);
            call.set_opt("LEGION_WS_LABELS", labels);
            call.set_opt("LEGION_WS_ASSIGNEE", assignee);
            Ok(call)
        },
        None => plugin_not_found(plugin_name),
    }
}

// -- Pull requests -----------------------------------------------------------

/// Creates a pull request.
pub fn create_pr(
    plugin: Option<&str>,
    plugin_name: &str,
    github_repo: &str,
    title: &str,
    body: Option<&str>,
    base: Option<&str>,
    head: Option<&str>,
    draft: bool,
    labels: Option<&str>,
    reviewer: Option<&str>,
) -> (call: Result<PluginCall, LegionError>)
    ensures
        is_call(
            call,
            plugin,
            plugin_name@,
            subcommand("create-pr"@)
                .with("LEGION_WS_REPO"@, github_repo@)
                .with("LEGION_WS_TITLE"@, title@)
                .with_opt("LEGION_WS_BODY"@, opt_str(body))
                .with_opt("LEGION_WS_BASE"@, opt_str(base))
                .with_opt("LEGION_WS_HEAD"@, opt_str(head))
                .with_opt("LEGION_WS_DRAFT"@, if draft { Some("true"@) } else { None })
                .with_opt("LEGION_WS_LABELS"@, opt_str(labels))
                .with_opt("LEGION_WS_REVIEWER"@, opt_str(reviewer)),
        ),
{
    match plugin {
        Some(path) => {
            let mut call = PluginCall::new(path, "create-pr");
            call.set("LEGION_WS_REPO", github_repo);
            call.set("LEGION_WS_TITLE", title);
            call.set_opt("LEGION_WS_BODY", body);
            call.set_opt("LEGION_WS_BASE", base);
            call.set_opt("LEGION_WS_HEAD", head);
            if draft {
                call.set("LEGION_WS_DRAFT", "true");
            }
            call.set_opt("LEGION_WS_LABELS", labels);
            call.set_opt("LEGION_WS_REVIEWER", reviewer);
            Ok(call)
        },
        None => plugin_not_found(plugin_name),
    }
}

/// Comments on an issue or a pull request.
pub fn comment(
    plugin: Option<&str>,
    plugin_name: &str,
    github_repo: &str,
    number: u64,
    body: &str,
) -> (call: Result<PluginCall, LegionError>)
    ensures
        is_call(
            call,
            plugin,
            plugin_name@,
            subcommand("comment"@)
                .with("LEGION_WS_REPO"@, github_repo@)
                .with("LEGION_WS_NUMBER"@, decimal(number as nat))
                .with("LEGION_WS_BODY"@, body@),
        ),
{
    match plugin {
        Some(path) => {
            let mut call = PluginCall::new(path, "comment");
            call.set("LEGION_WS_REPO", github_repo);
            call.set("LEGION_WS_NUMBER", to_decimal(number).as_str());
            call.set("LEGION_WS_BODY", body);
            Ok(call)
        },
        None => plugin_not_found(plugin_name),
    }
}

/// Asks for the open pull requests. Without the plugin there are none.
pub fn list_prs(
    plugin: Option<&str>,
    github_repo: &str,
) -> (call: Option<PluginCall>)
    ensures
        is_optional_call(
            call,
            plugin,
            subcommand("pr-list"@)
                .with("LEGION_WS_REPO"@, github_repo@),
        ),
{
    match plugin {
        Some(path) => {
            let mut call = PluginCall::new(path, "pr-list");
            call.set("LEGION_WS_REPO", github_repo);
            Some(call)
        },
        None => None,
    }
}

/// Asks for the checks of a pull request. Merges are gated on the answer, so a
/// missing plugin is an error and not an empty answer.
pub fn pr_checks(
    plugin: Option<&str>,
    plugin_name: &str,
    github_repo: &str,
    pr_number: u64,
) -> (call: Result<PluginCall, LegionError>)
    ensures
        is_call(
            call,
            plugin,
            plugin_name@,
            subcommand("pr-checks"@)
                .with("LEGION_WS_REPO"@, github_repo@)
                .with("LEGION_WS_PR_NUMBER"@, decimal(pr_number as nat)),
        ),
{
    match plugin {
        Some(path) => {
            let mut call = PluginCall::new(path, "pr-checks");
            call.set("LEGION_WS_REPO", github_repo);
            call.set("LEGION_WS_PR_NUMBER", to_decimal(pr_number).as_str());
            Ok(call)
        },
        None => plugin_not_found(plugin_name),
    }
}

/// Reviews a pull request.
pub fn review_pr(
    plugin: Option<&str>,
    plugin_name: &str,
    github_repo: &str,
    pr_number: u64,
    event: &str,
    body: Option<&str>,
    comments_file: Option<&str>,
) -> (call: Result<PluginCall, LegionError>)
    ensures
        is_call(
            call,
            plugin,
            plugin_name@,
            subcommand("review"@)
                .with("LEGION_WS_REPO"@, github_repo@)
                .with("LEGION_WS_PR_NUMBER"@, decimal(pr_number as nat))
                .with("LEGION_WS_EVENT"@, event@)
                .with_opt("LEGION_WS_BODY"@, opt_str(body))
                .with_opt("LEGION_WS_COMMENTS"@, opt_str(comments_file)),
        ),
{
    match plugin {
        Some(path) => {
            let mut call = PluginCall::new(path, "review");
            call.set("LEGION_WS_REPO", github_repo);
            call.set("LEGION_WS_PR_NUMBER", to_decimal(pr_number).as_str());
            call.set("LEGION_WS_EVENT", event);
            call.set_opt("LEGION_WS_BODY", body);
            call.set_opt("LEGION_WS_COMMENTS", comments_file);
            Ok(call)
        },
        None => plugin_not_found(plugin_name),
    }
}

/// Merges a pull request.
pub fn merge_pr(
    plugin: Option<&str>,
    plugin_name: &str,
    github_repo: &str,
    pr_number: u64,
    strategy: &str,
    delete_branch: bool,
) -> (call: Result<PluginCall, LegionError>)
    ensures
        is_call(
            call,
            plugin,
            plugin_name@,
            subcommand("merge"@)
                .with("LEGION_WS_REPO"@, github_repo@)
                .with("LEGION_WS_PR_NUMBER"@, decimal(pr_number as nat))
                .with("LEGION_WS_STRATEGY"@, strategy@)
                .with("LEGION_WS_DELETE_BRANCH"@, flag_text(delete_branch)),
        ),
{
    match plugin {
        Some(path) => {
            let mut call = PluginCall::new(path, "merge");
            call.set("LEGION_WS_REPO", github_repo);
            call.set("LEGION_WS_PR_NUMBER", to_decimal(pr_number).as_str());
            call.set("LEGION_WS_STRATEGY", strategy);
            call.set("LEGION_WS_DELETE_BRANCH", flag_str(delete_branch));
            Ok(call)
        },
        None => plugin_not_found(plugin_name),
    }
}

/// Closes a pull request without merging it.
pub fn close_pr(
    plugin: Option<&str>,
    plugin_name: &str,
    github_repo: &str,
    pr_number: u64,
    reason: Option<&str>,
    delete_branch: bool,
) -> (call: Result<PluginCall, LegionError>)
    ensures
        is_call(
            call,
            plugin,
            plugin_name@,
            subcommand("pr-close"@)
                .with("LEGION_WS_REPO"@, github_repo@)
                .with("LEGION_WS_PR_NUMBER"@, decimal(pr_number as nat))
                .with("LEGION_WS_DELETE_BRANCH"@, flag_text(delete_branch))
                .with_opt("LEGION_WS_REASON"@, opt_str(reason)),
        ),
{
    match plugin {
        Some(path) => {
            let mut call = PluginCall::new(path, "pr-close");
            call.set("LEGION_WS_REPO", github_repo);
            call.set("LEGION_WS_PR_NUMBER", to_decimal(pr_number).as_str());
            call.set("LEGION_WS_DELETE_BRANCH", flag_str(delete_branch));
            call.set_opt("LEGION_WS_REASON", reason);
            Ok(call)
        },
        None => plugin_not_found(plugin_name),
    }
}

/// Asks for one pull request. A missing plugin is an error, so that it is not
/// taken for a pull request without a description.
pub fn view_pr(
    plugin: Option<&str>,
    plugin_name: &str,
    github_repo: &str,
    pr_number: u64,
) -> (call: Result<PluginCall, LegionError>)
    ensures
        is_call(
            call,
            plugin,
            plugin_name@,
            subcommand("view-pr"@)
                .with("LEGION_WS_REPO"@, github_repo@)
                .with("LEGION_WS_NUMBER"@, decimal(pr_number as nat)),
        ),
{
    match plugin {
        Some(path) => {
            let mut call = PluginCall::new(path, "view-pr");
            call.set("LEGION_WS_REPO", github_repo);
            call.set("LEGION_WS_NUMBER", to_decimal(pr_number).as_str());
            Ok(call)
        },
        None => plugin_not_found(plugin_name),
    }
}

/// Asks for all comments on a pull request.
pub fn list_pr_comments(
    plugin: Option<&str>,
    plugin_name: &str,
    github_repo: &str,
    pr_number: u64,
) -> (call: Result<PluginCall, LegionError>)
    ensures
        is_call(
            call,
            plugin,
            plugin_name@,
            subcommand("pr-comments"@)
                .with("LEGION_WS_REPO"@, github_repo@)
                .with("LEGION_WS_NUMBER"@, decimal(pr_number as nat)),
        ),
{
    match plugin {
        Some(path) => {
            let mut call = PluginCall::new(path, "pr-comments");
            call.set("LEGION_WS_REPO", github_repo);
            call.set("LEGION_WS_NUMBER", to_decimal(pr_number).as_str());
            Ok(call)
        },
        None => plugin_not_found(plugin_name),
    }
}

/// Asks for the reviews of a pull request.
pub fn list_pr_reviews(
    plugin: Option<&str>,
    plugin_name: &str,
    github_repo: &str,
    pr_number: u64,
) -> (call: Result<PluginCall, LegionError>)
    ensures
        is_call(
            call,
            plugin,
            plugin_name@,
            subcommand("pr-reviews"@)
                .with("LEGION_WS_REPO"@, github_repo@)
                .with("LEGION_WS_NUMBER"@, decimal(pr_number as nat)),
        ),
{
    match plugin {
        Some(path) => {
            let mut call = PluginCall::new(path, "pr-reviews");
            call.set("LEGION_WS_REPO", github_repo);
            call.set("LEGION_WS_NUMBER", to_decimal(pr_number).as_str());
            Ok(call)
        },
        None => plugin_not_found(plugin_name),
    }
}

/// Asks for the log of one job.
pub fn fetch_check_log(
    plugin: Option<&str>,
    plugin_name: &str,
    github_repo: &str,
    job_id: u64,
) -> (call: Result<PluginCall, LegionError>)
    ensures
        is_call(
            call,
            plugin,
            plugin_name@,
            subcommand("pr-check-log"@)
                .with("LEGION_WS_REPO"@, github_repo@)
                .with("LEGION_WS_JOB_ID"@, decimal(job_id as nat)),
        ),
{
    match plugin {
        Some(path) => {
            let mut call = PluginCall::new(path, "pr-check-log");
            call.set("LEGION_WS_REPO", github_repo);
            call.set("LEGION_WS_JOB_ID", to_decimal(job_id).as_str());
            Ok(call)
        },
        None => plugin_not_found(plugin_name),
    }
}

// -- Repositories ------------------------------------------------------------

/// Asks which repository a directory belongs to. Without the plugin there is
/// none.
pub fn detect_repo(
    plugin: Option<&str>,
    workdir: &str,
) -> (call: Option<PluginCall>)
    ensures
        is_optional_call(
            call,
            plugin,
            subcommand("detect"@)
                .with("LEGION_WS_WORKDIR"@, workdir@),
        ),
{
    match plugin {
        Some(path) => {
            let mut call = PluginCall::new(path, "detect");
            call.set("LEGION_WS_WORKDIR", workdir);
            Some(call)
        },
        None => None,
    }
}

/// The repository that the output of a detection names: its text without the
/// white space around it, unless nothing is left.
pub fn detected_repo(output: &str) -> (repo: Option<String>)
    ensures
        repo is Some <==> trimmed(output@).len() > 0,
        repo matches Some(r) ==> r@ == trimmed(output@),
{
    let text = trim(output);
    if text.is_empty() {
        None
    } else {
        Some(text.to_string())
    }
}

/// The number at the end of an issue's address, behind its last slash.
pub open spec fn issue_number_in(url: Seq<char>) -> Option<nat> {
    bounded_numeral(split(url, '/').last(), u64::MAX as nat)
}

/// The number at the end of an issue's address.
pub fn extract_issue_number(url: &str) -> (number: Option<u64>)
    ensures
        number is Some <==> issue_number_in(url@) is Some,
        number matches Some(n) ==> issue_number_in(url@) == Some(n as nat),
{
    let chars = to_chars(url);
    let parts = split_chars(chars.as_slice(), '/');
    proof {
        lemma_split_nonempty(url@, '/');
        assert(char_lists(parts@).len() == parts@.len());
        assert(char_lists(parts@).last() == parts@.last()@);
    }
    let last: usize = parts.len() - 1;
    parse_bounded(parts[last].as_slice(), u64::MAX)
}

/// The parts of a link to a job of GitHub Actions.
pub struct JobLink {
    pub owner: Seq<char>,
    pub repo: Seq<char>,
    pub run: Seq<char>,
    pub job: Seq<char>,
    /// What follows the job, such as a query or a fragment.
    pub rest: Seq<char>,
}

impl JobLink {
    /// Whether each part is what it can be: names without slashes, numbers in
    /// digits, and a rest that does not carry the job on.
    pub open spec fn wf(self) -> bool {
        &&& self.owner.len() > 0 && !self.owner.contains('/')
        &&& self.repo.len() > 0 && !self.repo.contains('/')
        &&& self.run.len() > 0 && all_digits(self.run)
        &&& self.job.len() > 0 && all_digits(self.job)
        &&& self.rest.len() > 0 ==> !is_digit(self.rest[0])
    }

    /// The link with these parts.
    pub open spec fn text(self) -> Seq<char> {
        "https://github.com/"@ + self.owner + "/"@ + self.repo + "/actions/runs/"@ + self.run
            + "/job/"@ + self.job + self.rest
    }

    /// Whether `link` is the link with these parts.
    pub open spec fn is_in(self, link: Seq<char>) -> bool {
        self.wf() && link == self.text()
    }
}

/// The job that a check's link leads to, where it is the link of a GitHub
/// Actions job whose number fits a `u64`. A link of any other shape leads to
/// none.
pub open spec fn job_id_in(link: Seq<char>) -> Option<nat> {
    if exists|parts: JobLink| #[trigger] parts.is_in(link) {
        let parts = choose|parts: JobLink| #[trigger] parts.is_in(link);
        if digits_value(parts.job) <= u64::MAX {
            Some(digits_value(parts.job))
        } else {
            None
        }
    } else {
        None
    }
}

/// Whether the parts of a job link stand in `link` with their ends at these
/// positions: the owner at `a`, the repo at `b`, the run at `c`, the job at
/// `d`.
spec fn stands(link: Seq<char>, a: int, b: int, c: int, d: int) -> bool {
    &&& occurs_at(link, "https://github.com/"@, 0)
    &&& 19 < a && a + 1 < b && b + 14 < c && c + 5 < d && d <= link.len()
    &&& forall|j: int| 19 <= j < a ==> #[trigger] link[j] != '/'
    &&& link[a] == '/'
    &&& forall|j: int| a + 1 <= j < b ==> #[trigger] link[j] != '/'
    &&& occurs_at(link, "/actions/runs/"@, b)
    &&& forall|j: int| b + 14 <= j < c ==> is_digit(#[trigger] link[j])
    &&& occurs_at(link, "/job/"@, c)
    &&& forall|j: int| c + 5 <= j < d ==> is_digit(#[trigger] link[j])
    &&& d < link.len() ==> !is_digit(link[d])
}

spec fn parts_at(link: Seq<char>, a: int, b: int, c: int, d: int) -> JobLink {
    JobLink {
        owner: link.subrange(19, a),
        repo: link.subrange(a + 1, b),
        run: link.subrange(b + 14, c),
        job: link.subrange(c + 5, d),
        rest: link.skip(d),
    }
}

proof fn reveal_link_marks()
    ensures
        "https://github.com/"@.len() == 19,
        "/"@ == seq!['/'],
        "/actions/runs/"@.len() == 14,
        "/actions/runs/"@[0] == '/',
        "/job/"@.len() == 5,
        "/job/"@[0] == '/',
{
    reveal_strlit("https://github.com/");
    reveal_strlit("/");
    reveal_strlit("/actions/runs/");
    reveal_strlit("/job/");
    assert("/"@ =~= seq!['/']);
}

proof fn lemma_link_stands(link: Seq<char>, p: JobLink) -> (ends: (int, int, int, int))
    requires
        p.is_in(link),
    ensures
        stands(link, ends.0, ends.1, ends.2, ends.3),
        p == parts_at(link, ends.0, ends.1, ends.2, ends.3),
{
    reveal_link_marks();
    let a: int = 19 + p.owner.len() as int;
    let b: int = a + 1 + p.repo.len();
    let c: int = b + 14 + p.run.len();
    let d: int = c + 5 + p.job.len();
    assert(link.subrange(0, 19) =~= "https://github.com/"@);
    assert(link.subrange(19, a) =~= p.owner);
    assert(link.subrange(a, a + 1) =~= "/"@);
    assert(link[a] == link.subrange(a, a + 1)[0]);
    assert(link.subrange(a + 1, b) =~= p.repo);
    assert(link.subrange(b, b + 14) =~= "/actions/runs/"@);
    assert(link.subrange(b + 14, c) =~= p.run);
    assert(link.subrange(c, c + 5) =~= "/job/"@);
    assert(link.subrange(c + 5, d) =~= p.job);
    assert(link.skip(d) =~= p.rest);
    assert forall|j: int| 19 <= j < a implies #[trigger] link[j] != '/' by {
        assert(p.owner[j - 19] == link[j]);
    }
    assert forall|j: int| a + 1 <= j < b implies #[trigger] link[j] != '/' by {
        assert(p.repo[j - (a + 1)] == link[j]);
    }
    assert forall|j: int| b + 14 <= j < c implies is_digit(#[trigger] link[j]) by {
        assert(p.run[j - (b + 14)] == link[j]);
    }
    assert forall|j: int| c + 5 <= j < d implies is_digit(#[trigger] link[j]) by {
        assert(p.job[j - (c + 5)] == link[j]);
    }
    if d < link.len() {
        assert(p.rest[0] == link[d]);
    }
    (a, b, c, d)
}

proof fn lemma_parts_are_in(link: Seq<char>, a: int, b: int, c: int, d: int)
    requires
        stands(link, a, b, c, d),
    ensures
        parts_at(link, a, b, c, d).is_in(link),
{
    reveal_link_marks();
    let p = parts_at(link, a, b, c, d);
    assert(link.subrange(0, 19) == "https://github.com/"@);
    assert(link.subrange(b, b + 14) == "/actions/runs/"@);
    assert(link.subrange(c, c + 5) == "/job/"@);
    assert(link.subrange(a, a + 1) =~= "/"@);
    assert(link =~= link.subrange(0, 19) + p.owner + link.subrange(a, a + 1) + p.repo
        + link.subrange(b, b + 14) + p.run + link.subrange(c, c + 5) + p.job + p.rest);
}

proof fn lemma_ends_are_fixed(
    link: Seq<char>,
    a: int,
    b: int,
    c: int,
    d: int,
    a2: int,
    b2: int,
    c2: int,
    d2: int,
)
    requires
        stands(link, a, b, c, d),
        stands(link, a2, b2, c2, d2),
    ensures
        a == a2,
        b == b2,
        c == c2,
        d == d2,
{
    reveal_link_marks();
    assert(link[a] == '/' && link[a2] == '/');
    assert(a == a2);
    assert(link[b] == link.subrange(b, b + 14)[0]);
    assert(link[b2] == link.subrange(b2, b2 + 14)[0]);
    assert(b == b2);
    assert(link[c] == link.subrange(c, c + 5)[0]);
    assert(link[c2] == link.subrange(c2, c2 + 5)[0]);
    assert(!is_digit('/'));
    assert(c == c2);
}

/// A job link can be read in one way only, and leads to the job that it names
/// where that fits a `u64`.
pub proof fn law_job_link_reads_one_way(link: Seq<char>, parts: JobLink)
    requires
        parts.is_in(link),
    ensures
        forall|other: JobLink| #[trigger] other.is_in(link) ==> other == parts,
        job_id_in(link) == (if digits_value(parts.job) <= u64::MAX {
            Some(digits_value(parts.job))
        } else {
            None
        }),
{
    let e = lemma_link_stands(link, parts);
    assert forall|other: JobLink| #[trigger] other.is_in(link) implies other == parts by {
        let f = lemma_link_stands(link, other);
        lemma_ends_are_fixed(link, e.0, e.1, e.2, e.3, f.0, f.1, f.2, f.3);
    }
}

fn digits_end(chars: &[char], from: usize) -> (end: usize)
    requires
        from <= chars@.len(),
    ensures
        from <= end <= chars@.len(),
        forall|j: int| from <= j < end ==> is_digit(#[trigger] chars@[j]),
        end < chars@.len() ==> !is_digit(chars@[end as int]),
{
    let mut i: usize = from;
    while i < chars.len() && '0' <= chars[i] && chars[i] <= '9'
        invariant
            from <= i <= chars@.len(),
            forall|j: int| from <= j < i ==> is_digit(#[trigger] chars@[j]),
        decreases chars@.len() - i,
    {
        i = i + 1;
    }
    i
}

/// Where the job of a job link starts and ends.
fn find_job(chars: &[char]) -> (at: Option<(usize, usize)>)
    ensures
        at is None ==> forall|parts: JobLink| !#[trigger] parts.is_in(chars@),
        at matches Some((from, to)) ==> from < to <= chars@.len() && exists|parts: JobLink|
            #[trigger] parts.is_in(chars@) && parts.job == chars@.subrange(from as int, to as int),
{
    let ghost link = chars@;
    let host = to_chars("https://github.com/");
    let runs = to_chars("/actions/runs/");
    let job = to_chars("/job/");
    let n: usize = chars.len();
    proof {
        reveal_link_marks();
        assert forall|parts: JobLink| #[trigger] parts.is_in(link) implies exists|
            a: int,
            b: int,
            c: int,
            d: int,
        | stands(link, a, b, c, d) by {
            let e = lemma_link_stands(link, parts);
            assert(stands(link, e.0, e.1, e.2, e.3));
        }
    }
    if !matches_at(chars, host.as_slice(), 0) {
        return None;
    }
    let a: usize = find_char(chars, '/', 19);
    proof {
        lemma_index_from(link, '/', 19);
        assert forall|x: int, y: int, z: int, w: int| stands(link, x, y, z, w) implies x == a by {
            assert(link[x] == '/');
        }
    }
    if a == 19 || a >= n {
        return None;
    }
    let b: usize = find_char(chars, '/', a + 1);
    proof {
        lemma_index_from(link, '/', a + 1);
        assert forall|x: int, y: int, z: int, w: int| stands(link, x, y, z, w) implies y == b by {
            assert(link[y] == link.subrange(y, y + 14)[0]);
        }
    }
    if b == a + 1 || !matches_at(chars, runs.as_slice(), b) {
        return None;
    }
    let c: usize = digits_end(chars, b + 14);
    proof {
        assert forall|x: int, y: int, z: int, w: int| stands(link, x, y, z, w) implies z == c by {
            assert(link[z] == link.subrange(z, z + 5)[0]);
        }
    }
    if c == b + 14 || !matches_at(chars, job.as_slice(), c) {
        return None;
    }
    let d: usize = digits_end(chars, c + 5);
    proof {
        assert forall|x: int, y: int, z: int, w: int| stands(link, x, y, z, w) implies w == d by {}
    }
    if d == c + 5 {
        return None;
    }
    proof {
        assert(stands(link, a as int, b as int, c as int, d as int));
        lemma_parts_are_in(link, a as int, b as int, c as int, d as int);
    }
    Some((c + 5, d))
}

/// The job that a check's link leads to. Only the link of a GitHub Actions job
/// leads to one. What follows the number, a query or a fragment, does not
/// matter.
pub fn job_id_from_link(link: &str) -> (id: Option<u64>)
    ensures
        id is Some <==> job_id_in(link@) is Some,
        id matches Some(n) ==> job_id_in(link@) == Some(n as nat),
{
    let chars = to_chars(link);
    match find_job(chars.as_slice()) {
        Some((from, to)) => {
            let mut digits: Vec<char> = Vec::new();
            let ghost job = link@.subrange(from as int, to as int);
            for i in from..to
                invariant
                    chars@ == link@,
                    from <= to <= chars@.len(),
                    job == link@.subrange(from as int, to as int),
                    digits@ == job.take(i - from),
            {
                digits.push(chars[i]);
                assert(job.take(i + 1 - from) =~= job.take(i - from).push(job[i - from]));
            }
            proof {
                assert(job.take(to - from) =~= job);
                let parts = choose|parts: JobLink| #[trigger]
                    parts.is_in(link@) && parts.job == job;
                law_job_link_reads_one_way(link@, parts);
                assert(is_digit(job[0]));
            }
            parse_bounded(digits.as_slice(), u64::MAX)
        },
        None => None,
    }
}

// -- Answers -----------------------------------------------------------------

/// An issue that was created.
#[derive(Debug, Clone)]
pub struct CreatedIssue {
    pub url: String,
    pub number: u64,
}

/// A pull request that was created.
#[derive(Debug, Clone)]
pub struct CreatedPR {
    pub url: String,
    pub number: u64,
}

/// A pull request in a listing.
#[derive(Debug, Clone)]
pub struct ExternalPR {
    pub number: u64,
    pub title: String,
    pub created_at: String,
    pub updated_at: String,
    pub head_ref_name: String,
    pub review_decision: Option<String>,
    pub is_draft: bool,
}

/// A pull request in full.
#[derive(Debug, Clone)]
pub struct ExternalPRDetails {
    pub number: u64,
    pub title: String,
    pub state: String,
    pub author: String,
    pub created_at: String,
    pub updated_at: String,
    pub body: String,
    pub head_ref_name: String,
    pub head_sha: String,
    pub base_ref_name: String,
    pub is_draft: bool,
    pub review_decision: Option<String>,
    pub mergeable: Option<String>,
}

/// One check of a pull request.
#[derive(Debug, Clone)]
pub struct ExternalPRCheck {
    pub name: String,
    pub state: String,
    pub workflow: String,
    pub link: String,
    pub description: String,
}

/// The states of a check that passed or is still running. Any other state
/// counts as failing.
pub const PR_CHECK_PASSING_STATES: [&'static str; 8] = [
    "SUCCESS",
    "NEUTRAL",
    "SKIPPED",
    "PENDING",
    "IN_PROGRESS",
    "QUEUED",
    "WAITING",
    "REQUESTED",
];

/// The states of a check that are known to be failures.
pub const PR_CHECK_FAILING_STATES: [&'static str; 5] = [
    "FAILURE",
    "CANCELLED",
    "TIMED_OUT",
    "ACTION_REQUIRED",
    "STALE",
];

/// Whether a state is one of a check that passed or is still running.
pub open spec fn is_passing_state(state: Seq<char>) -> bool {
    exists|i: int| 0 <= i < 8 && (#[trigger] PR_CHECK_PASSING_STATES@[i])@ == state
}

impl ExternalPRCheck {
    /// Whether the check holds a merge up: it does unless its state is known
    /// to be harmless, so a state that nobody has heard of does.
    pub fn is_failing(&self) -> (failing: bool)
        ensures
            failing == !is_passing_state(self.state@),
    {
        for i in 0..8usize
            invariant
                forall|j: int| 0 <= j < i ==> (#[trigger] PR_CHECK_PASSING_STATES@[j])@ != self.state@,
        {
            if text_eq(PR_CHECK_PASSING_STATES[i], self.state.as_str()) {
                return false;
            }
        }
        true
    }
}

/// No state is both known to pass and known to fail: each known failure is
/// failing.
pub proof fn law_known_failures_fail(i: int)
    requires
        0 <= i < 5,
    ensures
        !is_passing_state(PR_CHECK_FAILING_STATES@[i]@),
{
    reveal_strlit("SUCCESS");
    reveal_strlit("NEUTRAL");
    reveal_strlit("SKIPPED");
    reveal_strlit("PENDING");
    reveal_strlit("IN_PROGRESS");
    reveal_strlit("QUEUED");
    reveal_strlit("WAITING");
    reveal_strlit("REQUESTED");
    reveal_strlit("FAILURE");
    reveal_strlit("CANCELLED");
    reveal_strlit("TIMED_OUT");
    reveal_strlit("ACTION_REQUIRED");
    reveal_strlit("STALE");
    let failing = PR_CHECK_FAILING_STATES@[i]@;
    assert forall|j: int| 0 <= j < 8 implies (#[trigger] PR_CHECK_PASSING_STATES@[j])@ != failing by {
        let passing = PR_CHECK_PASSING_STATES@[j]@;
        if passing == failing {
            assert(passing[0] == failing[0]);
            assert(passing[1] == failing[1]);
            assert(passing[2] == failing[2]);
        }
    }
}

/// A comment on a pull request.
#[derive(Debug, Clone)]
pub struct ExternalPRComment {
    pub id: String,
    pub author: String,
    pub created_at: String,
    pub updated_at: String,
    pub body: String,
    pub kind: String,
    pub path: Option<String>,
    pub line: Option<u32>,
    pub in_reply_to_id: Option<String>,
}

impl ExternalPRComment {
    /// Whether the comment is on a part of the change, and not on the
    /// conversation. Its kind says so, whether or not it names a path.
    pub fn is_review(&self) -> (yes: bool)
        ensures
            yes == (self.kind@ == "review"@),
    {
        text_eq(self.kind.as_str(), "review")
    }
}

/// A review of a pull request with its comments.
#[derive(Debug, Clone)]
pub struct ExternalPRReview {
    pub id: String,
    pub author: String,
    pub state: String,
    pub submitted_at: Option<String>,
    pub body: String,
    pub comments: Vec<ExternalPRComment>,
}

// -- Configuration -----------------------------------------------------------

/// The work source of a repository: the plugin, the repository's name there,
/// and its directory.
pub type WorkSource = (Seq<char>, Seq<char>, Seq<char>);

/// The work source that a `repos` entry gives the repository. The entry must
/// be the repository's, and have a directory and a name there.
pub open spec fn source_in(entry: TomlData, repo: Seq<char>) -> Option<WorkSource> {
    if entry.text_at("name"@) == Some(repo) {
        match (entry.text_at("workdir"@), entry.text_at("github"@)) {
            (Some(workdir), Some(github)) => Some(
                (entry.text_at("worksource"@).unwrap_or("github"@), github, workdir),
            ),
            _ => None,
        }
    } else {
        None
    }
}

/// The first work source for the repository among the entries.
pub open spec fn first_source(entries: Seq<TomlData>, repo: Seq<char>) -> Option<WorkSource>
    decreases entries.len(),
{
    if entries.len() == 0 {
        None
    } else if source_in(entries[0], repo) is Some {
        source_in(entries[0], repo)
    } else {
        first_source(entries.drop_first(), repo)
    }
}

/// The work source that a configuration gives a repository.
pub open spec fn configured_source(document: TomlData, repo: Seq<char>) -> Option<WorkSource> {
    match document.get("repos"@) {
        Some(TomlData::List(entries)) => first_source(entries, repo),
        _ => None,
    }
}

/// A work source as its characters.
pub open spec fn source_texts(source: (String, String, String)) -> WorkSource {
    (source.0@, source.1@, source.2@)
}

fn entry_source(entry: &TomlNode, legion_repo: &str) -> (source: Option<(String, String, String)>)
    ensures
        source is Some <==> source_in(entry.data(), legion_repo@) is Some,
        source matches Some(s) ==> source_in(entry.data(), legion_repo@) == Some(source_texts(s)),
{
    match entry.text_at("name") {
        Some(name) => if !text_eq(name, legion_repo) {
            return None;
        },
        None => {
            return None;
        },
    }
    match entry.text_at("workdir") {
        Some(workdir) => match entry.text_at("github") {
            Some(github) => {
                let worksource = match entry.text_at("worksource") {
                    Some(w) => w.to_string(),
                    None => "github".to_string(),
                };
                Some((worksource, github.to_string(), workdir.to_string()))
            },
            None => None,
        },
        None => None,
    }
}

/// The work source that a configuration document gives a repository.
pub fn config_source(document: &TomlNode, legion_repo: &str) -> (source: Option<
    (String, String, String),
>)
    ensures
        source is Some <==> configured_source(document.data(), legion_repo@) is Some,
        source matches Some(s) ==> configured_source(document.data(), legion_repo@) == Some(
            source_texts(s),
        ),
{
    match document.get("repos") {
        Some(TomlNode::List(entries)) => {
            let ghost all = TomlNode::List(*entries).data()->List_0;
            assert(configured_source(document.data(), legion_repo@) == first_source(
                all,
                legion_repo@,
            ));
            assert(all.len() == entries@.len());
            assert(all.skip(0) =~= all);
            for i in 0..entries.len()
                invariant
                    configured_source(document.data(), legion_repo@) == first_source(
                        all,
                        legion_repo@,
                    ),
                    all == TomlNode::List(*entries).data()->List_0,
                    all.len() == entries@.len(),
                    first_source(all, legion_repo@) == first_source(
                        all.skip(i as int),
                        legion_repo@,
                    ),
            {
                assert(all.skip(i as int)[0] == entries@[i as int].data());
                assert(all.skip(i as int).drop_first() =~= all.skip(i + 1));
                let source = entry_source(&entries[i], legion_repo);
                if source.is_some() {
                    return source;
                }
            }
            None
        },
        _ => None,
    }
}

/// The work source that the text of `watch.toml` gives a repository. A text
/// that is no TOML gives none.
pub fn resolve_config(content: &str, legion_repo: &str) -> (source: Option<
    (String, String, String),
>)
    ensures
        ({
            let expected = match toml_document(content@) {
                Some(document) => configured_source(document, legion_repo@),
                None => None,
            };
            &&& source is Some <==> expected is Some
            &&& source matches Some(s) ==> expected == Some(source_texts(s))
        }),
{
    match parse_toml(content) {
        Some(document) => config_source(&document, legion_repo),
        None => None,
    }
}

/// Who reviews pull requests.
#[derive(Debug)]
pub struct ReviewConfig {
    pub agent: String,
    /// Whether they are told of a new one without being asked.
    pub auto_signal: bool,
}

/// Who reviews by a configuration, and whether they are told without being
/// asked.
pub open spec fn configured_review(document: TomlData) -> Option<(Seq<char>, bool)> {
    match document.get("review"@) {
        Some(review) => match review.text_at("agent"@) {
            Some(agent) => Some(
                (
                    agent,
                    match review.get("auto_signal"@) {
                        Some(v) => v.as_flag().unwrap_or(false),
                        None => false,
                    },
                ),
            ),
            None => None,
        },
        None => None,
    }
}

/// Who reviews by a configuration document.
pub fn config_review(document: &TomlNode) -> (review: Option<ReviewConfig>)
    ensures
        review is Some <==> configured_review(document.data()) is Some,
        review matches Some(r) ==> configured_review(document.data()) == Some(
            (r.agent@, r.auto_signal),
        ),
{
    match document.get("review") {
        Some(review) => match review.text_at("agent") {
            Some(agent) => {
                let auto_signal = match review.get("auto_signal") {
                    Some(v) => match v.as_flag() {
                        Some(b) => b,
                        None => false,
                    },
                    None => false,
                };
                Some(ReviewConfig { agent: agent.to_string(), auto_signal })
            },
            None => None,
        },
        None => None,
    }
}

/// Who reviews by the text of `watch.toml`.
pub fn resolve_review_config(content: &str) -> (review: Option<ReviewConfig>)
    ensures
        ({
            let expected = match toml_document(content@) {
                Some(document) => configured_review(document),
                None => None,
            };
            &&& review is Some <==> expected is Some
            &&& review matches Some(r) ==> expected == Some((r.agent@, r.auto_signal))
        }),
{
    match parse_toml(content) {
        Some(document) => config_review(&document),
        None => None,
    }
}

// -- Laws --------------------------------------------------------------------

/// The number of an issue is what stands behind the last slash of its address,
/// where that is a number.
pub proof fn law_issue_number_ends_its_address(before: Seq<char>, tail: Seq<char>)
    requires
        !tail.contains('/'),
    ensures
        issue_number_in(before.push('/') + tail) == bounded_numeral(tail, 0xffff_ffff_ffff_ffff),
        issue_number_in(tail) == bounded_numeral(tail, 0xffff_ffff_ffff_ffff),
{
    lemma_split_at_the_last(before, tail, '/');
    law_split_cuts_at_each_separator(tail, Seq::empty(), '/');
}

/// A check holds a merge up unless it succeeded, is neutral, was skipped or is
/// still on its way; a state that nobody has heard of does.
pub proof fn law_check_fails_unless_known_to_be_harmless(check: &ExternalPRCheck, failing: bool)
    requires
        call_ensures(ExternalPRCheck::is_failing, (check,), failing),
    ensures
        !failing <==> check.state@ == "SUCCESS"@ || check.state@ == "NEUTRAL"@ || check.state@
            == "SKIPPED"@ || check.state@ == "PENDING"@ || check.state@ == "IN_PROGRESS"@
            || check.state@ == "QUEUED"@ || check.state@ == "WAITING"@ || check.state@
            == "REQUESTED"@,
{
    let known = PR_CHECK_PASSING_STATES@;
    assert(known[0]@ == "SUCCESS"@);
    assert(known[1]@ == "NEUTRAL"@);
    assert(known[2]@ == "SKIPPED"@);
    assert(known[3]@ == "PENDING"@);
    assert(known[4]@ == "IN_PROGRESS"@);
    assert(known[5]@ == "QUEUED"@);
    assert(known[6]@ == "WAITING"@);
    assert(known[7]@ == "REQUESTED"@);
    if !failing {
        let i = choose|i: int| 0 <= i < 8 && (#[trigger] known[i])@ == check.state@;
        assert(i == 0 || i == 1 || i == 2 || i == 3 || i == 4 || i == 5 || i == 6 || i == 7);
    }
}

/// Whether a `repos` entry is that of the repository and says both where it
/// lies and what it is called at the work source.
pub open spec fn gives_source(entry: TomlData, repo: Seq<char>) -> bool {
    &&& entry.text_at("name"@) == Some(repo)
    &&& entry.text_at("workdir"@) is Some
    &&& entry.text_at("github"@) is Some
}

/// The work source of a repository is what the first entry that gives one
/// says, at whichever place; the plugin is `github` unless the entry names
/// another. Without such an entry there is none.
pub proof fn law_first_complete_entry_gives_the_source(
    entries: Seq<TomlData>,
    repo: Seq<char>,
    k: int,
)
    requires
        0 <= k <= entries.len(),
        forall|j: int| 0 <= j < k ==> !gives_source(#[trigger] entries[j], repo),
        k < entries.len() ==> gives_source(entries[k], repo),
    ensures
        k == entries.len() ==> first_source(entries, repo) is None,
        k < entries.len() ==> {
            let entry = entries[k];
            first_source(entries, repo) matches Some(source) && {
                &&& entry.text_at("worksource"@) is None ==> source.0 == "github"@
                &&& entry.text_at("worksource"@) matches Some(plugin) ==> source.0 == plugin
                &&& entry.text_at("github"@) == Some(source.1)
                &&& entry.text_at("workdir"@) == Some(source.2)
            }
        },
    decreases k,
{
    if k > 0 {
        let rest = entries.drop_first();
        assert(!gives_source(entries[0], repo));
        assert forall|j: int| 0 <= j < k - 1 implies !gives_source(#[trigger] rest[j], repo) by {
            assert(rest[j] == entries[j + 1]);
        }
        law_first_complete_entry_gives_the_source(rest, repo, k - 1);
    }
}

/// Reviews are configured exactly if the `review` section names an agent. It
/// is signalled by itself exactly if `auto_signal` says so outright.
pub proof fn law_review_needs_an_agent(document: TomlData, review: TomlData)
    requires
        document.get("review"@) == Some(review),
    ensures
        configured_review(document) is Some <==> review.text_at("agent"@) is Some,
        configured_review(document) matches Some(found) ==> review.text_at("agent"@) == Some(found.0)
            && (found.1 <==> review.get("auto_signal"@) == Some(TomlData::Flag(true))),
{
}

/// A directory belongs to a repository exactly if the plugin printed its name,
/// which is taken without the whitespace around it.
pub proof fn law_blank_detection_finds_nothing(output: &str, repo: Option<String>)
    requires
        call_ensures(detected_repo, (output,), repo),
    ensures
        repo is None <==> trimmed(output@) == Seq::<char>::empty(),
        repo matches Some(r) ==> r@ == trimmed(output@) && r@.len() > 0,
{
    assert(trimmed(output@).len() == 0 <==> trimmed(output@) =~= Seq::<char>::empty());
}

/// Whether setting `i` of a call gives `key` the value `value`.
pub open spec fn sets(call: PluginCall, i: int, key: Seq<char>, value: Seq<char>) -> bool {
    0 <= i < call.env@.len() && call.env@[i].0@ == key && call.env@[i].1@ == value
}

/// How many of a setting a call has: one where it is given.
pub open spec fn given(value: Option<&str>) -> int {
    if value is Some {
        1
    } else {
        0
    }
}

proof fn lemma_settings(call: PluginCall)
    ensures
        call@.env.len() == call.env@.len(),
        call@.args.len() == call.args@.len(),
        forall|i: int|
            0 <= i < call.env@.len() ==> call@.env[i] == (
                (#[trigger] call.env@[i]).0@,
                call.env@[i].1@,
            ),
        forall|i: int| 0 <= i < call.args@.len() ==> call@.args[i] == (#[trigger] call.args@[i])@,
{
}

/// A new issue carries its title, and its body, labels and assignee exactly if
/// they are given.
pub proof fn law_new_issue_carries_what_is_given(
    plugin: Option<&str>,
    plugin_name: &str,
    github_repo: &str,
    title: &str,
    body: Option<&str>,
    labels: Option<&str>,
    assignee: Option<&str>,
    call: Result<PluginCall, LegionError>,
)
    requires
        call_ensures(
            create_issue,
            (plugin, plugin_name, github_repo, title, body, labels, assignee),
            call,
        ),
    ensures
        call is Ok <==> plugin is Some,
        call matches Ok(c) ==> {
            &&& c.path@ == plugin->0@
            &&& c.args@.len() == 1 && c.args@[0]@ == "create-issue"@
            &&& c.env@.len() == 2 + given(body) + given(labels) + given(assignee)
            &&& sets(c, 0, "LEGION_WS_REPO"@, github_repo@)
            &&& sets(c, 1, "LEGION_WS_TITLE"@, title@)
            &&& body matches Some(v) ==> sets(c, 2, "LEGION_WS_BODY"@, v@)
            &&& labels matches Some(v) ==> sets(c, 2 + given(body), "LEGION_WS_LABELS"@, v@)
            &&& assignee matches Some(v) ==> sets(
                c,
                2 + given(body) + given(labels),
                "LEGION_WS_ASSIGNEE"@,
                v@,
            )
        },
{
    if let Ok(c) = call {
        lemma_settings(c);
    }
}

/// A new pull request carries its title, each further setting exactly if it is
/// given, and is marked as a draft exactly if it is one.
pub proof fn law_new_pull_request_carries_what_is_given(
    plugin: Option<&str>,
    plugin_name: &str,
    github_repo: &str,
    title: &str,
    body: Option<&str>,
    base: Option<&str>,
    head: Option<&str>,
    draft: bool,
    labels: Option<&str>,
    reviewer: Option<&str>,
    call: Result<PluginCall, LegionError>,
)
    requires
        call_ensures(
            create_pr,
            (
                plugin,
                plugin_name,
                github_repo,
                title,
                body,
                base,
                head,
                draft,
                labels,
                reviewer,
            ),
            call,
        ),
    ensures
        call is Ok <==> plugin is Some,
        call matches Ok(c) ==> {
            let b = 2 + given(body);
            let h = b + given(base);
            let d = h + given(head);
            let l = d + (if draft {
                1int
            } else {
                0int
            });
            let r = l + given(labels);
            &&& c.path@ == plugin->0@
            &&& c.args@.len() == 1 && c.args@[0]@ == "create-pr"@
            &&& c.env@.len() == r + given(reviewer)
            &&& sets(c, 0, "LEGION_WS_REPO"@, github_repo@)
            &&& sets(c, 1, "LEGION_WS_TITLE"@, title@)
            &&& body matches Some(v) ==> sets(c, 2, "LEGION_WS_BODY"@, v@)
            &&& base matches Some(v) ==> sets(c, b, "LEGION_WS_BASE"@, v@)
            &&& head matches Some(v) ==> sets(c, h, "LEGION_WS_HEAD"@, v@)
            &&& draft ==> sets(c, d, "LEGION_WS_DRAFT"@, "true"@)
            &&& labels matches Some(v) ==> sets(c, l, "LEGION_WS_LABELS"@, v@)
            &&& reviewer matches Some(v) ==> sets(c, r, "LEGION_WS_REVIEWER"@, v@)
        },
{
    if let Ok(c) = call {
        lemma_settings(c);
    }
}

/// An issue is closed and reopened by its number, which is an argument and a
/// setting, with a comment exactly if one is given.
pub proof fn law_issue_is_closed_and_reopened_by_number(
    plugin: Option<&str>,
    plugin_name: &str,
    github_repo: &str,
    number: u64,
    comment: Option<&str>,
    closed: Result<PluginCall, LegionError>,
    reopened: Result<PluginCall, LegionError>,
)
    requires
        call_ensures(close_issue, (plugin, plugin_name, github_repo, number, comment), closed),
        call_ensures(reopen_issue, (plugin, plugin_name, github_repo, number, comment), reopened),
    ensures
        closed is Ok <==> plugin is Some,
        reopened is Ok <==> plugin is Some,
        closed matches Ok(c) ==> c.path@ == plugin->0@ && c.args@[0]@ == "close"@,
        reopened matches Ok(c) ==> c.path@ == plugin->0@ && c.args@[0]@ == "reopen"@,
        forall|c: PluginCall|
            closed == Ok::<PluginCall, LegionError>(c) || reopened == Ok::<PluginCall, LegionError>(c)
                ==> {
                &&& (#[trigger] c.args@).len() == 2
                &&& c.args@[1]@ == decimal(number as nat)
                &&& c.env@.len() == 2 + given(comment)
                &&& sets(c, 0, "LEGION_WS_REPO"@, github_repo@)
                &&& sets(c, 1, "LEGION_WS_NUMBER"@, decimal(number as nat))
                &&& comment matches Some(v) ==> sets(c, 2, "LEGION_WS_COMMENT"@, v@)
            },
{
    if let Ok(c) = closed {
        lemma_settings(c);
    }
    if let Ok(c) = reopened {
        lemma_settings(c);
    }
}

/// An edit that changes neither title nor body is refused, whether or not
/// there is a plugin. Any other names the issue and carries what is changed
/// and nothing else.
pub proof fn law_edit_changes_something(
    plugin: Option<&str>,
    plugin_name: &str,
    github_repo: &str,
    number: u64,
    title: Option<&str>,
    body: Option<&str>,
    call: Result<PluginCall, LegionError>,
)
    requires
        call_ensures(edit_issue, (plugin, plugin_name, github_repo, number, title, body), call),
    ensures
        call is Ok <==> plugin is Some && (title is Some || body is Some),
        title is None && body is None ==> (call matches Err(LegionError::WorkSource(m)) && m@
            == "edit_issue: at least one of title or body must be provided"@),
        call matches Ok(c) ==> {
            &&& c.path@ == plugin->0@
            &&& c.args@.len() == 1 && c.args@[0]@ == "edit-issue"@
            &&& c.env@.len() == 2 + given(title) + given(body)
            &&& sets(c, 0, "LEGION_WS_REPO"@, github_repo@)
            &&& sets(c, 1, "LEGION_WS_NUMBER"@, decimal(number as nat))
            &&& title matches Some(v) ==> sets(c, 2, "LEGION_WS_TITLE"@, v@)
            &&& body matches Some(v) ==> sets(c, 2 + given(title), "LEGION_WS_BODY"@, v@)
        },
{
    if let Ok(c) = call {
        lemma_settings(c);
    }
}

/// Sub-issues are created and listed under the number of their parent, and
/// listed open unless another state is asked for.
pub proof fn law_sub_issues_name_their_parent(
    plugin: Option<&str>,
    plugin_name: &str,
    github_repo: &str,
    parent_number: u64,
    title: &str,
    body: Option<&str>,
    state: Option<&str>,
    created: Result<PluginCall, LegionError>,
    listed: Option<PluginCall>,
)
    requires
        call_ensures(
            create_sub_issue,
            (plugin, plugin_name, github_repo, parent_number, title, body),
            created,
        ),
        call_ensures(list_sub_issues, (plugin, github_repo, parent_number, state), listed),
    ensures
        created is Ok <==> plugin is Some,
        listed is Some <==> plugin is Some,
        created matches Ok(c) ==> {
            &&& c.path@ == plugin->0@
            &&& c.args@.len() == 1 && c.args@[0]@ == "create-sub-issue"@
            &&& c.env@.len() == 3 + given(body)
            &&& sets(c, 0, "LEGION_WS_REPO"@, github_repo@)
            &&& sets(c, 1, "LEGION_WS_PARENT_NUMBER"@, decimal(parent_number as nat))
            &&& sets(c, 2, "LEGION_WS_TITLE"@, title@)
            &&& body matches Some(v) ==> sets(c, 3, "LEGION_WS_BODY"@, v@)
        },
        listed matches Some(c) ==> {
            &&& c.path@ == plugin->0@
            &&& c.args@.len() == 1 && c.args@[0]@ == "list-sub-issues"@
            &&& c.env@.len() == 3
            &&& sets(c, 0, "LEGION_WS_REPO"@, github_repo@)
            &&& sets(c, 1, "LEGION_WS_PARENT_NUMBER"@, decimal(parent_number as nat))
            &&& state is None ==> sets(c, 2, "LEGION_WS_STATE"@, "open"@)
            &&& state matches Some(v) ==> sets(c, 2, "LEGION_WS_STATE"@, v@)
        },
{
    if let Ok(c) = created {
        lemma_settings(c);
    }
    if let Some(c) = listed {
        lemma_settings(c);
    }
}

/// A pull request is reviewed, merged and closed by its number. The branch is
/// deleted exactly if that is asked for, and what is optional is passed on
/// exactly if it is given.
pub proof fn law_pull_request_is_settled_by_number(
    plugin: Option<&str>,
    plugin_name: &str,
    github_repo: &str,
    pr_number: u64,
    event: &str,
    body: Option<&str>,
    comments_file: Option<&str>,
    strategy: &str,
    delete_branch: bool,
    reason: Option<&str>,
    reviewed: Result<PluginCall, LegionError>,
    merged: Result<PluginCall, LegionError>,
    closed: Result<PluginCall, LegionError>,
)
    requires
        call_ensures(
            review_pr,
            (plugin, plugin_name, github_repo, pr_number, event, body, comments_file),
            reviewed,
        ),
        call_ensures(
            merge_pr,
            (plugin, plugin_name, github_repo, pr_number, strategy, delete_branch),
            merged,
        ),
        call_ensures(
            close_pr,
            (plugin, plugin_name, github_repo, pr_number, reason, delete_branch),
            closed,
        ),
    ensures
        reviewed is Ok <==> plugin is Some,
        merged is Ok <==> plugin is Some,
        closed is Ok <==> plugin is Some,
        reviewed matches Ok(c) ==> {
            &&& c.path@ == plugin->0@
            &&& c.args@.len() == 1 && c.args@[0]@ == "review"@
            &&& c.env@.len() == 3 + given(body) + given(comments_file)
            &&& sets(c, 0, "LEGION_WS_REPO"@, github_repo@)
            &&& sets(c, 1, "LEGION_WS_PR_NUMBER"@, decimal(pr_number as nat))
            &&& sets(c, 2, "LEGION_WS_EVENT"@, event@)
            &&& body matches Some(v) ==> sets(c, 3, "LEGION_WS_BODY"@, v@)
            &&& comments_file matches Some(v) ==> sets(
                c,
                3 + given(body),
                "LEGION_WS_COMMENTS"@,
                v@,
            )
        },
        merged matches Ok(c) ==> {
            &&& c.path@ == plugin->0@
            &&& c.args@.len() == 1 && c.args@[0]@ == "merge"@
            &&& c.env@.len() == 4
            &&& sets(c, 0, "LEGION_WS_REPO"@, github_repo@)
            &&& sets(c, 1, "LEGION_WS_PR_NUMBER"@, decimal(pr_number as nat))
            &&& sets(c, 2, "LEGION_WS_STRATEGY"@, strategy@)
            &&& delete_branch ==> sets(c, 3, "LEGION_WS_DELETE_BRANCH"@, "true"@)
            &&& !delete_branch ==> sets(c, 3, "LEGION_WS_DELETE_BRANCH"@, "false"@)
        },
        closed matches Ok(c) ==> {
            &&& c.path@ == plugin->0@
            &&& c.args@.len() == 1 && c.args@[0]@ == "pr-close"@
            &&& c.env@.len() == 3 + given(reason)
            &&& sets(c, 0, "LEGION_WS_REPO"@, github_repo@)
            &&& sets(c, 1, "LEGION_WS_PR_NUMBER"@, decimal(pr_number as nat))
            &&& delete_branch ==> sets(c, 2, "LEGION_WS_DELETE_BRANCH"@, "true"@)
            &&& !delete_branch ==> sets(c, 2, "LEGION_WS_DELETE_BRANCH"@, "false"@)
            &&& reason matches Some(v) ==> sets(c, 3, "LEGION_WS_REASON"@, v@)
        },
{
    if let Ok(c) = reviewed {
        lemma_settings(c);
    }
    if let Ok(c) = merged {
        lemma_settings(c);
    }
    if let Ok(c) = closed {
        lemma_settings(c);
    }
}

/// What only reads asks for one thing, by repository and number. Without a
/// plugin it fails.
pub proof fn law_reading_names_repository_and_number(
    plugin: Option<&str>,
    plugin_name: &str,
    github_repo: &str,
    number: u64,
    issue: Result<PluginCall, LegionError>,
    pr: Result<PluginCall, LegionError>,
    comments: Result<PluginCall, LegionError>,
    reviews: Result<PluginCall, LegionError>,
    checks: Result<PluginCall, LegionError>,
    log: Result<PluginCall, LegionError>,
)
    requires
        call_ensures(view_issue, (plugin, plugin_name, github_repo, number), issue),
        call_ensures(view_pr, (plugin, plugin_name, github_repo, number), pr),
        call_ensures(list_pr_comments, (plugin, plugin_name, github_repo, number), comments),
        call_ensures(list_pr_reviews, (plugin, plugin_name, github_repo, number), reviews),
        call_ensures(pr_checks, (plugin, plugin_name, github_repo, number), checks),
        call_ensures(fetch_check_log, (plugin, plugin_name, github_repo, number), log),
    ensures
        plugin is None ==> issue is Err && pr is Err && comments is Err && reviews is Err
            && checks is Err && log is Err,
        plugin matches Some(path) ==> {
            &&& issue matches Ok(c) && asks(
                c,
                path@,
                "view-issue"@,
                github_repo@,
                "LEGION_WS_NUMBER"@,
                number,
            )
            &&& pr matches Ok(c) && asks(
                c,
                path@,
                "view-pr"@,
                github_repo@,
                "LEGION_WS_NUMBER"@,
                number,
            )
            &&& comments matches Ok(c) && asks(
                c,
                path@,
                "pr-comments"@,
                github_repo@,
                "LEGION_WS_NUMBER"@,
                number,
            )
            &&& reviews matches Ok(c) && asks(
                c,
                path@,
                "pr-reviews"@,
                github_repo@,
                "LEGION_WS_NUMBER"@,
                number,
            )
            &&& checks matches Ok(c) && asks(
                c,
                path@,
                "pr-checks"@,
                github_repo@,
                "LEGION_WS_PR_NUMBER"@,
                number,
            )
            &&& log matches Ok(c) && asks(
                c,
                path@,
                "pr-check-log"@,
                github_repo@,
                "LEGION_WS_JOB_ID"@,
                number,
            )
        },
{
    if plugin is Some {
        lemma_settings(issue->Ok_0);
        lemma_settings(pr->Ok_0);
        lemma_settings(comments->Ok_0);
        lemma_settings(reviews->Ok_0);
        lemma_settings(checks->Ok_0);
        lemma_settings(log->Ok_0);
    }
}

/// Whether a call has the subcommand `name` as its only argument, and the
/// repository and the number, under `key`, as its only settings.
pub open spec fn asks(
    call: PluginCall,
    path: Seq<char>,
    name: Seq<char>,
    github_repo: Seq<char>,
    key: Seq<char>,
    number: u64,
) -> bool {
    &&& call.path@ == path
    &&& call.args@.len() == 1
    &&& call.args@[0]@ == name
    &&& call.env@.len() == 2
    &&& sets(call, 0, "LEGION_WS_REPO"@, github_repo)
    &&& sets(call, 1, key, decimal(number as nat))
}

/// Lists and detection are best effort: without a plugin there is no call, and
/// with one it says what is to be listed or where to look. A comment names its
/// issue and carries its text.
pub proof fn law_lists_are_best_effort(
    plugin: Option<&str>,
    plugin_name: &str,
    github_repo: &str,
    workdir: &str,
    number: u64,
    body: &str,
    issues: Option<PluginCall>,
    prs: Option<PluginCall>,
    detected: Option<PluginCall>,
    commented: Result<PluginCall, LegionError>,
)
    requires
        call_ensures(list_issues, (plugin, github_repo, workdir), issues),
        call_ensures(list_prs, (plugin, github_repo), prs),
        call_ensures(detect_repo, (plugin, workdir), detected),
        call_ensures(comment, (plugin, plugin_name, github_repo, number, body), commented),
    ensures
        plugin is None ==> issues is None && prs is None && detected is None && commented is Err,
        plugin matches Some(path) ==> {
            &&& issues matches Some(c) && c.path@ == path@ && c.args@.len() == 1 && c.args@[0]@
                == "list"@ && c.env@.len() == 2 && sets(c, 0, "LEGION_WS_REPO"@, github_repo@)
                && sets(c, 1, "LEGION_WS_WORKDIR"@, workdir@)
            &&& prs matches Some(c) && c.path@ == path@ && c.args@.len() == 1 && c.args@[0]@
                == "pr-list"@ && c.env@.len() == 1 && sets(c, 0, "LEGION_WS_REPO"@, github_repo@)
            &&& detected matches Some(c) && c.path@ == path@ && c.args@.len() == 1 && c.args@[0]@
                == "detect"@ && c.env@.len() == 1 && sets(c, 0, "LEGION_WS_WORKDIR"@, workdir@)
            &&& commented matches Ok(c) && c.path@ == path@ && c.args@.len() == 1 && c.args@[0]@
                == "comment"@ && c.env@.len() == 3 && sets(c, 0, "LEGION_WS_REPO"@, github_repo@)
                && sets(c, 1, "LEGION_WS_NUMBER"@, decimal(number as nat)) && sets(
                c,
                2,
                "LEGION_WS_BODY"@,
                body@,
            )
        },
{
    if plugin is Some {
        lemma_settings(issues->0);
        lemma_settings(prs->0);
        lemma_settings(detected->0);
        lemma_settings(commented->Ok_0);
    }
}

/// The job of a check is read out of the link of a run: the number behind
/// `/job/`, whatever follows it.
pub proof fn law_job_number_is_read_from_the_link(
    owner: Seq<char>,
    repo: Seq<char>,
    run: u64,
    job: u64,
    rest: Seq<char>,
)
    requires
        owner.len() > 0 && !owner.contains('/'),
        repo.len() > 0 && !repo.contains('/'),
        rest.len() > 0 ==> !is_digit(rest[0]),
    ensures
        job_id_in(
            "https://github.com/"@ + owner + "/"@ + repo + "/actions/runs/"@ + decimal(run as nat)
                + "/job/"@ + decimal(job as nat) + rest,
        ) == Some(job as nat),
{
    let parts = JobLink {
        owner,
        repo,
        run: decimal(run as nat),
        job: decimal(job as nat),
        rest,
    };
    let link = "https://github.com/"@ + owner + "/"@ + repo + "/actions/runs/"@ + decimal(run as nat)
        + "/job/"@ + decimal(job as nat) + rest;
    lemma_decimal_reads_back(run as nat);
    lemma_decimal_reads_back(job as nat);
    assert(parts.is_in(link));
    law_job_link_reads_one_way(link, parts);
}

/// A link to anywhere but GitHub names no job.
pub proof fn law_foreign_link_names_no_job(link: Seq<char>)
    requires
        link.len() < 19 || link.take(19) != "https://github.com/"@,
    ensures
        job_id_in(link) is None,
{
    reveal_strlit("https://github.com/");
    if exists|parts: JobLink| #[trigger] parts.is_in(link) {
        let parts = choose|parts: JobLink| #[trigger] parts.is_in(link);
        assert(link.take(19) =~= "https://github.com/"@);
    }
}

} // verus!
