use repo_finder::application::{clone_text, no_runs_message, ActionResult, RefreshResult};
use repo_finder::cache::{cache_key, prune_statement, CacheStats};
use repo_finder::github_api::{
    is_last_page, org_repos_path, select_run, status_is_running, user_orgs_path, user_repos_path,
    workflow_runs_path, WorkflowRun,
};
use repo_finder::layout::{cursor_column, help_area, list_area, status_gap, Area};
use repo_finder::text::{
    chars_of, ends_with, push_numeral, push_signed_numeral, push_text, same_chars, same_text,
    starts_with, string_of,
};

fn run(name: &str, status: Option<&str>, conclusion: Option<&str>) -> WorkflowRun {
    WorkflowRun {
        name: name.to_string(),
        status: status.map(|text| text.to_string()),
        conclusion: conclusion.map(|text| text.to_string()),
        head_branch: "main".to_string(),
        html_url: format!("https://github.com/o/r/actions/runs/{}", name),
    }
}

fn numeral(n: u64) -> String {
    let mut out = String::new();
    push_numeral(&mut out, n);
    out
}

fn signed(n: i64) -> String {
    let mut out = String::new();
    push_signed_numeral(&mut out, n);
    out
}

fn chars(text: &str) -> Vec<char> {
    text.chars().collect()
}

#[test]
fn numerals_are_decimal() {
    assert_eq!(numeral(0), "0");
    assert_eq!(numeral(7), "7");
    assert_eq!(numeral(10), "10");
    assert_eq!(numeral(12345), "12345");
    assert_eq!(numeral(u64::MAX), "18446744073709551615");
    assert_eq!(signed(0), "0");
    assert_eq!(signed(-1), "-1");
    assert_eq!(signed(42), "42");
    assert_eq!(signed(i64::MAX), "9223372036854775807");
    assert_eq!(signed(i64::MIN), "-9223372036854775808");
    let mut out = "n = ".to_string();
    push_numeral(&mut out, 100);
    push_text(&mut out, "!");
    assert_eq!(out, "n = 100!");
}

#[test]
fn texts_are_taken_apart_by_characters() {
    assert_eq!(chars_of("héllo"), vec!['h', 'é', 'l', 'l', 'o']);
    assert_eq!(chars_of(""), Vec::<char>::new());
    assert_eq!(string_of(&chars("héllo"), 1, 4), "éll");
    assert_eq!(string_of(&chars("abc"), 2, 2), "");
    assert!(starts_with(&chars("abc"), &chars("ab")));
    assert!(starts_with(&chars("abc"), &chars("")));
    assert!(starts_with(&chars("abc"), &chars("abc")));
    assert!(!starts_with(&chars("abc"), &chars("abcd")));
    assert!(!starts_with(&chars("abc"), &chars("b")));
    assert!(ends_with(&chars("abc"), &chars("bc")));
    assert!(ends_with(&chars("abc"), &chars("")));
    assert!(!ends_with(&chars("abc"), &chars("ab")));
    assert!(!ends_with(&chars("c"), &chars("bc")));
    assert!(same_chars(&chars("abc"), &chars("abc")));
    assert!(!same_chars(&chars("abc"), &chars("abd")));
    assert!(!same_chars(&chars("abc"), &chars("ab")));
    assert!(same_text("", ""));
    assert!(same_text("queued", "queued"));
    assert!(!same_text("queued", "Queued"));
}

#[test]
fn a_refresh_reports_its_counts() {
    let result = RefreshResult { orgs_fetched: 3, repos_fetched: 128 };
    assert_eq!(result.to_string(), "Fetched 3 org(s) and 128 repo(s)");
    let nothing = RefreshResult { orgs_fetched: 0, repos_fetched: 0 };
    assert_eq!(nothing.to_string(), "Fetched 0 org(s) and 0 repo(s)");
}

#[test]
fn a_run_is_reported_by_workflow_branch_and_state() {
    let running = ActionResult::from_run(&run("CI", Some("in_progress"), None));
    assert_eq!(running.workflow_name, "CI");
    assert_eq!(running.branch, "main");
    assert_eq!(running.url, "https://github.com/o/r/actions/runs/CI");
    assert_eq!(running.to_string(), "CI | main | Running (in_progress)");
    let queued = ActionResult::from_run(&run("CI", Some("queued"), Some("ignored")));
    assert_eq!(queued.to_string(), "CI | main | Running (queued)");
    let done = ActionResult::from_run(&run("Deploy", Some("completed"), Some("success")));
    assert_eq!(done.to_string(), "Deploy | main | success");
    let unknown = ActionResult::from_run(&run("Deploy", Some("completed"), None));
    assert_eq!(unknown.to_string(), "Deploy | main | Unknown");
    let bare = ActionResult::from_run(&run("Deploy", None, None));
    assert_eq!(bare.to_string(), "Deploy | main | Unknown");
    assert_eq!(bare.status, None);
    assert_eq!(clone_text(&Some("x".to_string())), Some("x".to_string()));
    assert_eq!(clone_text(&None), None);
    assert_eq!(
        no_runs_message("main", "octocat", "Hello-World"),
        "No workflow runs found for branch 'main' in octocat/Hello-World"
    );
}

#[test]
fn the_first_unfinished_run_is_reported() {
    assert_eq!(select_run(&vec![]), None);
    let runs = vec![
        run("a", Some("completed"), Some("success")),
        run("b", Some("queued"), None),
        run("c", Some("in_progress"), None),
    ];
    assert_eq!(select_run(&runs), Some(1));
    let finished = vec![
        run("a", Some("completed"), Some("failure")),
        run("b", None, None),
        run("c", Some("Queued"), None),
    ];
    assert_eq!(select_run(&finished), Some(0));
    assert_eq!(select_run(&vec![run("only", Some("in_progress"), None)]), Some(0));
    assert!(status_is_running(&Some("in_progress".to_string())));
    assert!(status_is_running(&Some("queued".to_string())));
    assert!(!status_is_running(&Some("completed".to_string())));
    assert!(!status_is_running(&Some("".to_string())));
    assert!(!status_is_running(&None));
}

#[test]
fn listings_are_asked_for_page_by_page() {
    assert_eq!(user_orgs_path(1), "/user/orgs?page=1&per_page=100");
    assert_eq!(
        user_repos_path(12),
        "/user/repos?page=12&per_page=100&sort=updated&type=all"
    );
    assert_eq!(
        org_repos_path("rust-lang", 3),
        "/orgs/rust-lang/repos?page=3&per_page=100&sort=updated&type=all"
    );
    assert_eq!(
        workflow_runs_path("octocat", "Hello-World", None),
        "/repos/octocat/Hello-World/actions/runs"
    );
    assert_eq!(
        workflow_runs_path("octocat", "Hello-World", Some("main")),
        "/repos/octocat/Hello-World/actions/runs?branch=main"
    );
    assert!(is_last_page(0));
    assert!(is_last_page(99));
    assert!(!is_last_page(100));
    assert!(!is_last_page(101));
}

#[test]
fn cache_statistics_are_written_out() {
    let stats = CacheStats { org_count: 5, repo_count: 42, size_bytes: 12345 };
    assert_eq!(stats.to_json(), "{\"orgs\":5,\"repos\":42,\"size\":12345}");
    assert_eq!(
        stats.to_lines(),
        vec![
            "Cache Statistics:",
            "  Organizations: 5",
            "  Repositories: 42",
            "  Size: 12345 bytes",
        ]
    );
    let odd = CacheStats { org_count: -1, repo_count: 0, size_bytes: 0 };
    assert_eq!(odd.to_json(), "{\"orgs\":-1,\"repos\":0,\"size\":0}");
}

#[test]
fn stale_owners_are_pruned_by_one_statement() {
    assert_eq!(prune_statement(0), "DELETE FROM repos");
    assert_eq!(
        prune_statement(1),
        "DELETE FROM repos WHERE owner_id NOT IN (?)"
    );
    assert_eq!(
        prune_statement(3),
        "DELETE FROM repos WHERE owner_id NOT IN (?,?,?)"
    );
}

#[test]
fn the_cache_knows_a_repository_by_its_path() {
    assert_eq!(cache_key("https://github.com/facebook/react"), "facebook/react");
    assert_eq!(cache_key("https://github.com/"), "");
    assert_eq!(cache_key("http://github.com/a/b"), "http://github.com/a/b");
    assert_eq!(cache_key("facebook/react"), "facebook/react");
    assert_eq!(
        cache_key("https://github.com/a/b/issues"),
        "a/b/issues"
    );
}

#[test]
fn the_list_keeps_a_margin() {
    let inner = list_area(Area { x: 0, y: 3, width: 80, height: 20 });
    assert_eq!(inner, Area { x: 1, y: 3, width: 78, height: 20 });
    let narrow = list_area(Area { x: 5, y: 0, width: 1, height: 2 });
    assert_eq!(narrow, Area { x: 6, y: 0, width: 0, height: 2 });
}

#[test]
fn the_status_bar_fills_what_is_free() {
    assert_eq!(status_gap(80, 30, 40), 10);
    assert_eq!(status_gap(80, 40, 40), 0);
    assert_eq!(status_gap(80, 50, 40), 0);
    assert_eq!(status_gap(10, 200, 0), 0);
    assert_eq!(status_gap(0, 0, 0), 0);
    assert_eq!(status_gap(100, 0, usize::MAX), 0);
    assert_eq!(status_gap(100, usize::MAX, usize::MAX), 0);
}

#[test]
fn the_cursor_stays_on_the_line() {
    assert_eq!(cursor_column(5, 80), 5);
    assert_eq!(cursor_column(80, 80), 79);
    assert_eq!(cursor_column(200, 80), 79);
    assert_eq!(cursor_column(3, 0), 0);
    assert_eq!(cursor_column(0x1_0000 + 4, 80), 4);
}

#[test]
fn the_help_sits_in_the_middle() {
    assert_eq!(help_area(100, 40), Area { x: 20, y: 11, width: 60, height: 18 });
    assert_eq!(help_area(50, 20), Area { x: 2, y: 2, width: 46, height: 16 });
    assert_eq!(help_area(64, 22), Area { x: 2, y: 2, width: 60, height: 18 });
    assert_eq!(help_area(3, 2), Area { x: 1, y: 1, width: 0, height: 0 });
    assert_eq!(help_area(0, 0), Area { x: 0, y: 0, width: 0, height: 0 });
    assert_eq!(help_area(u16::MAX, u16::MAX).width, 60);
}
