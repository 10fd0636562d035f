use drone_notify::builds::{
    build_notice, ended_report, has_ended, is_final_status, is_success_status, latest_branch_build,
    triggered_notice, BuildResponse,
};
use drone_notify::config::Config;
use drone_notify::error::Error;

fn some(s: &str) -> Option<String> {
    Some(s.to_string())
}

fn build(number: u64) -> BuildResponse {
    BuildResponse {
        number,
        status: None,
        link_url: None,
        message: None,
        after: None,
        git_ref: None,
        source: None,
        target: None,
        author_login: None,
        author_name: None,
        author_email: None,
    }
}

fn config() -> Config {
    Config {
        base_url: "https://drone.example.com".to_string(),
        default_namespace: "ns".to_string(),
        default_repo: "repo".to_string(),
        default_branch: "main".to_string(),
        token: "t".to_string(),
        verify_ssl: true,
        poll_interval_secs: 3,
        successful_targets: vec![],
    }
}

#[test]
fn builds_belong_to_branches_in_three_ways() {
    let mut by_ref = build(1);
    by_ref.git_ref = some("refs/heads/main");
    assert!(by_ref.belongs_to("main"));
    assert!(!by_ref.belongs_to("heads/main"));
    let mut by_target = build(2);
    by_target.target = some("feature/x");
    assert!(by_target.belongs_to("feature/x"));
    assert!(!by_target.belongs_to("x"));
    let mut by_source = build(3);
    by_source.source = some("dev");
    assert!(by_source.belongs_to("dev"));
    assert!(!by_source.belongs_to("main"));
    assert!(!build(4).belongs_to(""));
}

#[test]
fn the_first_build_of_the_branch_is_found() {
    let mut other = build(9);
    other.git_ref = some("refs/heads/other");
    let mut newest = build(8);
    newest.source = some("main");
    let mut older = build(7);
    older.git_ref = some("refs/heads/main");
    let found = latest_branch_build(vec![other, newest, older], "main").unwrap();
    assert_eq!(found.number, 8);
}

#[test]
fn a_branch_without_builds_is_reported() {
    let result = latest_branch_build(vec![build(1)], "main");
    assert_eq!(result, Err(Error::BranchBuildNotFound("main".to_string())));
    assert_eq!(result.unwrap_err().message(), "未在最近的构建列表中找到分支 main 的记录");
}

#[test]
fn everything_known_of_a_commit_is_shown() {
    let mut b = build(5);
    b.after = some("abc123");
    b.message = some("fix");
    b.author_name = some("Ann");
    b.author_login = some("ann1");
    b.author_email = some("ann@example.com");
    b.git_ref = some("refs/heads/main");
    b.link_url = some("https://git/x");
    assert_eq!(
        b.commit_preview("main"),
        vec![
            "即将触发分支 main 的构建，最近找到的 commit 信息：",
            "  commit: abc123",
            "  message: fix",
            "  author: Ann <ann@example.com>",
            "  ref: refs/heads/main",
            "  link: https://git/x",
        ]
    );
}

#[test]
fn unknown_parts_of_a_commit_are_left_out() {
    assert_eq!(
        build(5).commit_preview("dev"),
        vec!["即将触发分支 dev 的构建，最近找到的 commit 信息："]
    );
    let mut b = build(5);
    b.author_login = some("ann1");
    assert_eq!(b.commit_preview("dev")[1], "  author: ann1");
    b.author_login = None;
    b.author_email = some("ann@example.com");
    assert_eq!(b.commit_preview("dev").len(), 1);
}

#[test]
fn success_is_recognised_in_any_case() {
    assert!(is_success_status(Some("success")));
    assert!(is_success_status(Some("SUCCESS")));
    assert!(is_success_status(Some("Success")));
    assert!(!is_success_status(Some("failure")));
    assert!(!is_success_status(Some("success ")));
    assert!(!is_success_status(None));
}

#[test]
fn final_states_are_recognised() {
    for s in ["success", "failure", "killed", "canceled", "cancelled"] {
        assert!(is_final_status(s));
    }
    for s in ["running", "pending", "error", "SUCCESS", ""] {
        assert!(!is_final_status(s));
    }
}

#[test]
fn builds_end_in_any_case_of_their_state() {
    for s in ["Success", "FAILURE", "Killed", "canceled", "CANCELLED"] {
        assert!(has_ended(&some(s)));
    }
    // The Kelvin sign becomes an ordinary small k.
    assert!(has_ended(&some("\u{212a}illed")));
    for s in ["running", "Error", " success"] {
        assert!(!has_ended(&some(s)));
    }
    assert!(!has_ended(&None));
}

#[test]
fn a_build_that_succeeded_has_ended() {
    for s in ["success", "SUCCESS", "sUcCeSs"] {
        assert!(is_success_status(Some(s)));
        assert!(has_ended(&some(s)));
    }
}

#[test]
fn starts_and_ends_are_announced() {
    assert_eq!(triggered_notice(42, "main"), "触发构建 #42, 分支 main");
    let mut b = build(42);
    assert_eq!(ended_report(&b), "构建 #42 结束，状态：unknown");
    b.status = some("failure");
    assert_eq!(ended_report(&b), "构建 #42 结束，状态：failure");
    assert_eq!(b.status_text(), "failure");
}

#[test]
fn the_notice_names_the_build() {
    let mut b = build(7);
    b.status = some("success");
    b.message = some("fix");
    b.link_url = some("https://git/x");
    let notice = build_notice(&b, &config(), "ns", "repo");
    assert_eq!(notice.summary, "Drone 构建 success");
    assert_eq!(notice.body, "ns/repo #7, status: success\nfix\nhttps://git/x");
}

#[test]
fn the_notice_falls_back_to_the_server() {
    let notice = build_notice(&build(7), &config(), "ns", "repo");
    assert_eq!(notice.summary, "Drone 构建 unknown");
    assert_eq!(
        notice.body,
        "ns/repo #7, status: unknown\nhttps://drone.example.com/api/repos/ns/repo/builds/7"
    );
}

#[test]
fn a_build_is_copied_whole() {
    let mut b = build(7);
    b.status = some("success");
    b.author_email = some("a@b");
    assert_eq!(b.clone(), b);
}
