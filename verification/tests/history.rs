use drone_notify::config::ConfigFile;
use drone_notify::error::Error;
use drone_notify::history::{
    format_target_history_label, history_labels, history_target, record_success_at,
    record_successful_target, HISTORY_LIMIT,
};
use drone_notify::selection::{selection_menu, RepoSelectionMode};
use drone_notify::target::RepoTarget;
use std::time::{SystemTime, UNIX_EPOCH};

fn entry(namespace: &str, repo: &str, branch: &str, count: u64, at: Option<u64>) -> RepoTarget {
    RepoTarget {
        namespace: namespace.to_string(),
        repo: repo.to_string(),
        branch: branch.to_string(),
        success_count: count,
        last_success_at: at,
    }
}

fn file_with(targets: Vec<RepoTarget>) -> ConfigFile {
    ConfigFile {
        base_url: Some("https://drone.example.com".to_string()),
        default_namespace: Some("n".to_string()),
        default_repo: Some("r".to_string()),
        default_branch: Some("b".to_string()),
        token: Some("t".to_string()),
        verify_ssl: Some(true),
        poll_interval_secs: Some(3),
        successful_targets: targets,
    }
}

#[test]
fn targets_are_named_without_white_space() {
    let target = RepoTarget::new(" ns ".to_string(), "repo\n".to_string(), "\tmain".to_string()).unwrap();
    assert_eq!(target, entry("ns", "repo", "main", 0, None));
    assert!(target.matches("ns", "repo", "main"));
    assert!(!target.matches("ns", "repo", "dev"));
    assert!(!target.matches("ns", "Repo", "main"));
    assert!(!target.matches("", "repo", "main"));
}

#[test]
fn naming_a_target_again_changes_nothing() {
    let once = RepoTarget::new(" a".to_string(), "b ".to_string(), " c ".to_string()).unwrap();
    let twice = RepoTarget::new(once.namespace.clone(), once.repo.clone(), once.branch.clone()).unwrap();
    assert_eq!(once, twice);
}

#[test]
fn blank_targets_are_refused() {
    for (n, r, b) in [("", "r", "b"), ("n", "  ", "b"), ("n", "r", "\t")] {
        let result = RepoTarget::new(n.to_string(), r.to_string(), b.to_string());
        assert_eq!(result, Err(Error::EmptyTarget));
        let mut file = file_with(vec![entry("n", "r", "b", 1, Some(1))]);
        assert_eq!(record_success_at(&mut file, 5, n, r, b), Err(Error::EmptyTarget));
        assert_eq!(file.successful_targets, vec![entry("n", "r", "b", 1, Some(1))]);
    }
    assert_eq!(Error::EmptyTarget.message(), "namespace、repo、branch 不能为空");
}

#[test]
fn a_first_success_is_recorded_once() {
    let mut file = file_with(vec![]);
    assert_eq!(record_success_at(&mut file, 1783390000, "your-name", "your-repo", "main"), Ok(()));
    assert_eq!(
        file.successful_targets,
        vec![entry("your-name", "your-repo", "main", 1, Some(1783390000))]
    );
    assert_eq!(file.token, Some("t".to_string()));
}

#[test]
fn a_repeated_success_is_counted() {
    let mut file = file_with(vec![
        entry("a", "x", "main", 4, Some(90)),
        entry("b", "y", "main", 2, Some(10)),
    ]);
    record_success_at(&mut file, 100, " b", "y ", "main").unwrap();
    assert_eq!(
        file.successful_targets,
        vec![entry("b", "y", "main", 3, Some(100)), entry("a", "x", "main", 4, Some(90))]
    );
}

#[test]
fn the_count_stops_at_the_largest_number() {
    let mut file = file_with(vec![entry("a", "x", "main", u64::MAX, Some(1))]);
    record_success_at(&mut file, 2, "a", "x", "main").unwrap();
    assert_eq!(file.successful_targets, vec![entry("a", "x", "main", u64::MAX, Some(2))]);
}

#[test]
fn the_record_is_ordered_by_time_and_name() {
    let mut file = file_with(vec![
        entry("z", "r", "b", 1, None),
        entry("b", "r", "b", 1, Some(5)),
        entry("a", "s", "b", 1, Some(5)),
        entry("a", "r", "c", 1, Some(5)),
        entry("a", "r", "b", 1, Some(5)),
        entry("c", "r", "b", 1, Some(0)),
    ]);
    record_success_at(&mut file, 3, "new", "r", "b").unwrap();
    let names: Vec<(String, String, String)> = file
        .successful_targets
        .iter()
        .map(|t| (t.namespace.clone(), t.repo.clone(), t.branch.clone()))
        .collect();
    let expected: Vec<(String, String, String)> = [
        ("a", "r", "b"),
        ("a", "r", "c"),
        ("a", "s", "b"),
        ("b", "r", "b"),
        ("new", "r", "b"),
        ("c", "r", "b"),
        ("z", "r", "b"),
    ]
    .iter()
    .map(|(n, r, b)| (n.to_string(), r.to_string(), b.to_string()))
    .collect();
    assert_eq!(names, expected);
}

#[test]
fn the_oldest_entry_is_dropped_when_the_record_is_full() {
    let old: Vec<RepoTarget> =
        (0..50).map(|i| entry("n", &format!("r{i}"), "b", 1, Some(100 + i))).collect();
    let mut file = file_with(old);
    record_success_at(&mut file, 1000, "n", "fresh", "b").unwrap();
    assert_eq!(file.successful_targets.len(), HISTORY_LIMIT);
    assert_eq!(HISTORY_LIMIT, 50);
    assert_eq!(file.successful_targets[0], entry("n", "fresh", "b", 1, Some(1000)));
    assert_eq!(file.successful_targets[49], entry("n", "r1", "b", 1, Some(101)));
    assert!(!file.successful_targets.iter().any(|t| t.repo == "r0"));
}

#[test]
fn a_record_with_room_loses_nothing() {
    let mut file = file_with(vec![entry("a", "x", "m", 1, Some(1)), entry("b", "x", "m", 1, Some(2))]);
    record_success_at(&mut file, 3, "c", "x", "m").unwrap();
    assert_eq!(file.successful_targets.len(), 3);
    assert!(file.successful_targets.contains(&entry("a", "x", "m", 1, Some(1))));
    assert!(file.successful_targets.contains(&entry("b", "x", "m", 1, Some(2))));
}

#[test]
fn recording_repeats_no_target() {
    let mut file = file_with(vec![]);
    for i in 0..7 {
        record_success_at(&mut file, i, "n", if i % 2 == 0 { "even" } else { "odd" }, "b").unwrap();
    }
    assert_eq!(
        file.successful_targets,
        vec![entry("n", "even", "b", 4, Some(6)), entry("n", "odd", "b", 3, Some(5))]
    );
}

#[test]
fn the_first_of_repeated_entries_is_counted() {
    let mut file = file_with(vec![entry("n", "r", "b", 7, Some(2)), entry("n", "r", "b", 1, Some(1))]);
    record_success_at(&mut file, 9, "n", "r", "b").unwrap();
    assert_eq!(
        file.successful_targets,
        vec![entry("n", "r", "b", 8, Some(9)), entry("n", "r", "b", 1, Some(1))]
    );
}

#[test]
fn a_success_is_recorded_at_the_present_time() {
    let before = SystemTime::now().duration_since(UNIX_EPOCH).unwrap().as_secs();
    let mut file = file_with(vec![entry("n", "old", "b", 1, Some(1))]);
    assert_eq!(record_successful_target(&mut file, "n", "r", "b"), Ok(()));
    let after = SystemTime::now().duration_since(UNIX_EPOCH).unwrap().as_secs();
    let at = file.successful_targets[0].last_success_at.unwrap();
    assert!(before <= at && at <= after);
    assert_eq!(file.successful_targets[0].repo, "r");
    assert_eq!(file.successful_targets[1].repo, "old");
    assert_eq!(record_successful_target(&mut file, " ", "r", "b"), Err(Error::EmptyTarget));
    assert_eq!(file.successful_targets.len(), 2);
}

#[test]
fn recorded_targets_are_presented_with_their_count() {
    assert_eq!(
        format_target_history_label(&entry("ns", "repo", "main", 12, Some(1))),
        "ns/repo @ main (成功 12 次)"
    );
    assert_eq!(format_target_history_label(&entry("ns", "repo", "main", 0, None)), "ns/repo @ main");
}

#[test]
fn recorded_targets_can_be_chosen() {
    let file = file_with(vec![entry("a", "x", "m", 1, Some(2)), entry("b", "y", "n", 0, None)]);
    let config = file.config().unwrap();
    assert_eq!(history_labels(&config), vec!["a/x @ m (成功 1 次)".to_string(), "b/y @ n".to_string()]);
    assert_eq!(history_target(&config, 1), entry("b", "y", "n", 0, None));
}

#[test]
fn the_record_is_offered_once_there_is_one() {
    let menu = selection_menu(&file_with(vec![]).config().unwrap());
    assert_eq!(menu.modes, vec![RepoSelectionMode::Manual, RepoSelectionMode::Account]);
    assert_eq!(menu.default_index, 0);
    let menu = selection_menu(&file_with(vec![entry("a", "x", "m", 1, Some(2))]).config().unwrap());
    assert_eq!(
        menu.modes,
        vec![RepoSelectionMode::Manual, RepoSelectionMode::History, RepoSelectionMode::Account]
    );
    assert_eq!(menu.default_index, 1);
    let labels: Vec<String> = menu.modes.iter().map(|m| m.label()).collect();
    assert_eq!(
        labels,
        vec!["手动输入 namespace/repo/branch", "从过往成功记录选择", "从账号名下获取仓库"]
    );
}
