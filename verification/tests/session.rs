use drone_notify::api::Endpoint;
use drone_notify::builds::{BuildResponse, Notice};
use drone_notify::config::Config;
use drone_notify::session::{question_about, Action, Event, Phase, Session};
use drone_notify::target::RepoTarget;

fn some(s: &str) -> Option<String> {
    Some(s.to_string())
}

fn build(number: u64, status: Option<String>) -> BuildResponse {
    BuildResponse {
        number,
        status,
        link_url: some("https://git/x"),
        message: None,
        after: some("abc"),
        git_ref: some("refs/heads/main"),
        source: None,
        target: None,
        author_login: None,
        author_name: None,
        author_email: None,
    }
}

fn session() -> Session {
    let config = Config {
        base_url: "https://drone.example.com".to_string(),
        default_namespace: "ns".to_string(),
        default_repo: "repo".to_string(),
        default_branch: "main".to_string(),
        token: "t".to_string(),
        verify_ssl: true,
        poll_interval_secs: 3,
        successful_targets: vec![],
    };
    let target =
        RepoTarget::new("ns".to_string(), "repo".to_string(), "main".to_string()).unwrap();
    Session::new(config, target)
}

fn informed() -> Action {
    Action::Ask {
        lines: vec![
            "即将触发分支 main 的构建，最近找到的 commit 信息：".to_string(),
            "  commit: abc".to_string(),
            "  ref: refs/heads/main".to_string(),
            "  link: https://git/x".to_string(),
        ],
        prompt: "上述 commit 是否正确，确认后才会触发构建".to_string(),
        default: true,
    }
}

fn uninformed(reason: &str) -> Action {
    Action::Ask {
        lines: vec![format!("未能获取分支 main 的 commit 信息，将询问后再决定是否继续：{reason}")],
        prompt: "未获取到 commit 信息，仍要触发构建吗？".to_string(),
        default: false,
    }
}

#[test]
fn a_build_is_followed_to_its_success() {
    let mut s = session();
    assert_eq!(s.phase, Phase::AwaitingBuilds);
    assert_eq!(s.step(Event::BuildsFetched(vec![build(4, some("failure"))])), Some(informed()));
    assert_eq!(s.phase, Phase::AwaitingAnswer);
    assert_eq!(s.step(Event::Answered(true)), Some(Action::Trigger));
    assert_eq!(
        s.step(Event::Triggered(build(5, some("pending")))),
        Some(Action::FetchBuild { announcement: some("触发构建 #5, 分支 main"), number: 5 })
    );
    assert_eq!(s.phase, Phase::AwaitingStatus { number: 5 });
    assert_eq!(
        s.step(Event::StatusFetched(build(5, some("running")))),
        Some(Action::Pause { secs: 3 })
    );
    assert_eq!(s.phase, Phase::Pausing { number: 5 });
    assert_eq!(s.step(Event::Paused), Some(Action::FetchBuild { announcement: None, number: 5 }));
    assert_eq!(s.step(Event::StatusFetched(build(5, None))), Some(Action::Pause { secs: 3 }));
    assert_eq!(s.step(Event::Paused), Some(Action::FetchBuild { announcement: None, number: 5 }));
    assert_eq!(
        s.step(Event::StatusFetched(build(5, some("Success")))),
        Some(Action::Finish {
            report: "构建 #5 结束，状态：Success".to_string(),
            record: true,
            notification: Notice {
                summary: "Drone 构建 Success".to_string(),
                body: "ns/repo #5, status: Success\nhttps://git/x".to_string(),
            },
        })
    );
    assert_eq!(s.phase, Phase::Over);
}

#[test]
fn a_failure_is_reported_and_not_recorded() {
    let mut s = session();
    s.step(Event::BuildsUnavailable("x".to_string()));
    s.step(Event::Answered(true));
    s.step(Event::Triggered(build(5, None)));
    match s.step(Event::StatusFetched(build(5, some("failure")))) {
        Some(Action::Finish { report, record, notification }) => {
            assert_eq!(report, "构建 #5 结束，状态：failure");
            assert!(!record);
            assert_eq!(notification.summary, "Drone 构建 failure");
        }
        other => panic!("{other:?}"),
    }
}

#[test]
fn a_refusal_cancels() {
    let mut s = session();
    s.step(Event::BuildsFetched(vec![build(4, None)]));
    assert_eq!(
        s.step(Event::Answered(false)),
        Some(Action::Cancel { message: "已取消触发构建".to_string() })
    );
    assert_eq!(s.phase, Phase::Over);
    assert_eq!(s.step(Event::Answered(true)), None);
    assert_eq!(s.phase, Phase::Over);
}

#[test]
fn missing_builds_are_explained() {
    let mut s = session();
    assert_eq!(
        s.step(Event::BuildsUnavailable("获取构建列表失败".to_string())),
        Some(uninformed("获取构建列表失败"))
    );
    let mut s = session();
    assert_eq!(
        s.step(Event::BuildsFetched(vec![])),
        Some(uninformed("未在最近的构建列表中找到分支 main 的记录"))
    );
    assert_eq!(question_about(vec![build(1, None)], "main"), informed());
}

#[test]
fn unexpected_events_change_nothing() {
    let mut s = session();
    assert_eq!(s.step(Event::Answered(true)), None);
    assert_eq!(s.step(Event::Triggered(build(1, None))), None);
    assert_eq!(s.step(Event::StatusFetched(build(1, some("success")))), None);
    assert_eq!(s.step(Event::Paused), None);
    assert_eq!(s.phase, Phase::AwaitingBuilds);
    s.step(Event::BuildsFetched(vec![]));
    assert_eq!(s.step(Event::BuildsFetched(vec![])), None);
    assert_eq!(s.phase, Phase::AwaitingAnswer);
    s.step(Event::Answered(true));
    assert_eq!(s.step(Event::Answered(true)), None);
    assert_eq!(s.phase, Phase::AwaitingTrigger);
}

#[test]
fn the_triggered_build_is_the_one_followed() {
    let mut s = session();
    s.step(Event::BuildsFetched(vec![build(4, None)]));
    s.step(Event::Answered(true));
    s.step(Event::Triggered(build(5, None)));
    s.step(Event::StatusFetched(build(99, some("running"))));
    assert_eq!(s.step(Event::Paused), Some(Action::FetchBuild { announcement: None, number: 5 }));
}

#[test]
fn following_depends_on_whether_the_build_ended() {
    let s = session();
    assert_eq!(s.follow(&build(5, some("success")), false), Action::Pause { secs: 3 });
    match s.follow(&build(5, some("running")), true) {
        Action::Finish { record, .. } => assert!(!record),
        other => panic!("{other:?}"),
    }
}

#[test]
fn what_is_asked_of_the_server_is_the_target() {
    let s = session();
    assert_eq!(
        s.first_endpoint(),
        Endpoint::RecentBuilds { namespace: "ns".to_string(), repo: "repo".to_string() }
    );
    assert_eq!(
        s.endpoint(&Action::Trigger),
        Some(Endpoint::Trigger {
            namespace: "ns".to_string(),
            repo: "repo".to_string(),
            branch: "main".to_string(),
        })
    );
    assert_eq!(
        s.endpoint(&Action::FetchBuild { announcement: None, number: 5 }),
        Some(Endpoint::Build { namespace: "ns".to_string(), repo: "repo".to_string(), number: 5 })
    );
    assert_eq!(s.endpoint(&Action::Pause { secs: 3 }), None);
    assert_eq!(s.endpoint(&Action::Cancel { message: "x".to_string() }), None);
    assert_eq!(s.endpoint(&informed()), None);
}
