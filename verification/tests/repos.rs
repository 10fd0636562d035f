use drone_notify::branches::{branch_names, branch_plan, typed_branch, BranchPlan, BranchResponse};
use drone_notify::config::Config;
use drone_notify::error::Error;
use drone_notify::repos::{
    account_listing, account_repos, format_account_repo_label, non_blank_text, repo_labels,
    AccountRepo, RepoResponse,
};

fn some(s: &str) -> Option<String> {
    Some(s.to_string())
}

fn response(namespace: Option<String>, name: Option<String>, slug: Option<String>) -> RepoResponse {
    RepoResponse { namespace, name, slug, default_branch: None, active: None }
}

fn repo(namespace: &str, name: &str) -> AccountRepo {
    AccountRepo {
        namespace: namespace.to_string(),
        repo: name.to_string(),
        default_branch: None,
        active: None,
    }
}

fn config() -> Config {
    Config {
        base_url: "https://drone.example.com".to_string(),
        default_namespace: "ns".to_string(),
        default_repo: "repo".to_string(),
        default_branch: "main".to_string(),
        token: "t".to_string(),
        verify_ssl: true,
        poll_interval_secs: 3,
        successful_targets: vec![],
    }
}

fn names(repos: &[AccountRepo]) -> Vec<String> {
    repos.iter().map(|r| format!("{}/{}", r.namespace, r.repo)).collect()
}

#[test]
fn repositories_are_named_by_namespace_and_name() {
    let full = RepoResponse {
        namespace: some(" ns "),
        name: some("repo\t"),
        slug: some("other/thing"),
        default_branch: some(" dev "),
        active: Some(false),
    };
    let got = full.into_account_repo().unwrap();
    assert_eq!(got.namespace, "ns");
    assert_eq!(got.repo, "repo");
    assert_eq!(got.default_branch, some("dev"));
    assert_eq!(got.active, Some(false));
}

#[test]
fn repositories_fall_back_to_their_slug() {
    let got = response(some(" "), some("repo"), some("a / b/c")).into_account_repo().unwrap();
    assert_eq!((got.namespace.as_str(), got.repo.as_str()), ("a", "b/c"));
    let got = response(None, None, some("x/")).into_account_repo().unwrap();
    assert_eq!((got.namespace.as_str(), got.repo.as_str()), ("x", ""));
    assert_eq!(got.default_branch, None);
}

#[test]
fn repositories_without_a_name_are_dropped() {
    assert!(response(None, some("repo"), None).into_account_repo().is_none());
    assert!(response(some("ns"), some(" "), None).into_account_repo().is_none());
    assert!(response(some(""), some("repo"), some("noslash")).into_account_repo().is_none());
    let kept = account_repos(vec![
        response(some("b"), some("1"), None),
        response(None, None, None),
        response(None, None, some("a/2")),
    ]);
    assert_eq!(names(&kept), vec!["b/1", "a/2"]);
}

#[test]
fn a_blank_default_branch_counts_as_none() {
    let r = RepoResponse {
        namespace: some("n"),
        name: some("r"),
        slug: None,
        default_branch: some("  "),
        active: None,
    };
    assert_eq!(r.into_account_repo().unwrap().default_branch, None);
    assert_eq!(non_blank_text(some(" x ")), some("x"));
    assert_eq!(non_blank_text(None), None);
}

#[test]
fn an_account_is_offered_its_own_repositories() {
    let listing = account_listing(
        vec![repo("me", "z"), repo("you", "a"), repo("me", "b"), repo("Me", "c")],
        "me",
    );
    assert_eq!(listing.notice, None);
    assert_eq!(names(&listing.repos.unwrap()), vec!["me/b", "me/z"]);
}

#[test]
fn an_account_without_repositories_is_offered_all() {
    let listing = account_listing(vec![repo("you", "z"), repo("x", "q"), repo("you", "a")], "me");
    assert_eq!(
        listing.notice,
        some("未找到 namespace 为 me 的仓库，将展示当前账号可访问的仓库")
    );
    assert_eq!(names(&listing.repos.unwrap()), vec!["x/q", "you/a", "you/z"]);
}

#[test]
fn an_account_that_reaches_nothing_is_told_so() {
    let listing = account_listing(vec![], "me");
    assert_eq!(
        listing.notice,
        some("未找到 namespace 为 me 的仓库，将展示当前账号可访问的仓库")
    );
    assert!(matches!(listing.repos, Err(Error::NoRepositories)));
    assert_eq!(Error::NoRepositories.message(), "当前账号没有可选择的仓库");
}

#[test]
fn equal_repositories_keep_their_order() {
    let mut first = repo("me", "a");
    first.active = Some(true);
    let mut second = repo("me", "a");
    second.active = Some(false);
    let listing = account_listing(vec![repo("me", "b"), first, second], "me");
    let active: Vec<Option<bool>> = listing.repos.unwrap().iter().map(|r| r.active).collect();
    assert_eq!(active, vec![Some(true), Some(false), None]);
}

#[test]
fn inactive_repositories_are_marked() {
    let mut inactive = repo("ns", "repo");
    inactive.active = Some(false);
    let mut active = repo("ns", "repo");
    active.active = Some(true);
    assert_eq!(format_account_repo_label(&inactive), "ns/repo (未激活)");
    assert_eq!(format_account_repo_label(&active), "ns/repo");
    assert_eq!(repo_labels(&vec![repo("a", "b"), inactive]), vec!["a/b", "ns/repo (未激活)"]);
}

#[test]
fn branches_are_listed_in_order_and_once() {
    let listed = branch_names(vec![
        BranchResponse::Name("main".to_string()),
        BranchResponse::Object { name: some(" dev ") },
        BranchResponse::Name("  ".to_string()),
        BranchResponse::Object { name: None },
        BranchResponse::Name("dev".to_string()),
        BranchResponse::Name("Main".to_string()),
        BranchResponse::Object { name: some("main") },
    ]);
    assert_eq!(listed, vec!["Main", "dev", "main"]);
    assert!(branch_names(vec![]).is_empty());
}

#[test]
fn a_branch_is_named_by_text_or_object() {
    assert_eq!(BranchResponse::Name(" x ".to_string()).into_name(), some("x"));
    assert_eq!(BranchResponse::Name(" ".to_string()).into_name(), None);
    assert_eq!(BranchResponse::Object { name: some("\ty") }.into_name(), some("y"));
    assert_eq!(BranchResponse::Object { name: some("") }.into_name(), None);
    assert_eq!(BranchResponse::Object { name: None }.into_name(), None);
}

#[test]
fn the_default_branch_is_marked_in_the_list() {
    let branches: Vec<String> = vec!["dev".to_string(), "main".to_string(), "next".to_string()];
    let mut chosen = repo("ns", "repo");
    chosen.default_branch = some("next");
    assert_eq!(
        branch_plan(&config(), &chosen, Ok(branches.clone())),
        BranchPlan::Choose { branches: branches.clone(), default_index: 2 }
    );
    chosen.default_branch = None;
    assert_eq!(
        branch_plan(&config(), &chosen, Ok(branches.clone())),
        BranchPlan::Choose { branches: branches.clone(), default_index: 1 }
    );
    chosen.default_branch = some("gone");
    assert_eq!(
        branch_plan(&config(), &chosen, Ok(branches.clone())),
        BranchPlan::Choose { branches, default_index: 0 }
    );
}

#[test]
fn without_a_list_the_branch_is_typed() {
    let mut chosen = repo("ns", "repo");
    assert_eq!(
        branch_plan(&config(), &chosen, Ok(vec![])),
        BranchPlan::Type { notice: None, default: "main".to_string() }
    );
    chosen.default_branch = some("trunk");
    assert_eq!(
        branch_plan(&config(), &chosen, Err("timeout".to_string())),
        BranchPlan::Type {
            notice: some("获取分支列表失败，将手动输入 branch：timeout"),
            default: "trunk".to_string(),
        }
    );
    chosen.default_branch = some("  ");
    assert_eq!(
        branch_plan(&config(), &chosen, Ok(vec![])),
        BranchPlan::Type { notice: None, default: "main".to_string() }
    );
}

#[test]
fn a_typed_branch_is_trimmed_and_checked() {
    assert_eq!(typed_branch(&config(), " dev ".to_string()), Ok("dev".to_string()));
    assert_eq!(typed_branch(&config(), "  ".to_string()), Err(Error::EmptyTarget));
    let mut odd = config();
    odd.default_repo = " ".to_string();
    assert_eq!(typed_branch(&odd, "dev".to_string()), Err(Error::EmptyTarget));
}
