use drone_notify::config::{
    clean_base_url, client_settings, config_path, copy_targets, poll_interval_prompt,
    verify_ssl_prompt, ClientSettings, ConfigField, ConfigFile, TextField,
    DEFAULT_POLL_INTERVAL_SECS, DEFAULT_VERIFY_SSL,
};
use drone_notify::target::RepoTarget;

fn full_file() -> ConfigFile {
    ConfigFile {
        base_url: Some("drone.example.com/".to_string()),
        default_namespace: Some("your-name".to_string()),
        default_repo: Some("your-repo".to_string()),
        default_branch: Some("main".to_string()),
        token: Some("your-drone-token".to_string()),
        verify_ssl: Some(true),
        poll_interval_secs: Some(3),
        successful_targets: vec![],
    }
}

#[test]
fn a_first_run_asks_for_everything() {
    let file = ConfigFile::default();
    assert_eq!(
        file.missing_fields(),
        vec![
            ConfigField::Text(TextField::BaseUrl),
            ConfigField::Text(TextField::DefaultNamespace),
            ConfigField::Text(TextField::DefaultRepo),
            ConfigField::Text(TextField::DefaultBranch),
            ConfigField::Text(TextField::Token),
            ConfigField::VerifySsl,
            ConfigField::PollIntervalSecs,
        ]
    );
    assert!(file.config().is_none());
    assert!(file.successful_targets.is_empty());
}

#[test]
fn a_complete_file_asks_for_nothing() {
    let file = full_file();
    assert!(file.missing_fields().is_empty());
    let config = file.config().unwrap();
    assert_eq!(config.base_url, "https://drone.example.com");
    assert_eq!(config.default_namespace, "your-name");
    assert_eq!(config.default_repo, "your-repo");
    assert_eq!(config.default_branch, "main");
    assert_eq!(config.token, "your-drone-token");
    assert!(config.verify_ssl);
    assert_eq!(config.poll_interval_secs, 3);
}

#[test]
fn blank_texts_are_asked_for_again() {
    let mut file = full_file();
    file.token = Some(" \t".to_string());
    file.default_repo = None;
    file.verify_ssl = None;
    assert!(file.is_missing(ConfigField::Text(TextField::Token)));
    assert_eq!(
        file.missing_fields(),
        vec![
            ConfigField::Text(TextField::DefaultRepo),
            ConfigField::Text(TextField::Token),
            ConfigField::VerifySsl,
        ]
    );
}

#[test]
fn answers_complete_the_file() {
    let mut file = ConfigFile::default();
    for field in file.missing_fields() {
        match field {
            ConfigField::Text(f) => file.set_text(f, format!("answer to {}", f.prompt())),
            ConfigField::VerifySsl => file.set_verify_ssl(false),
            ConfigField::PollIntervalSecs => file.set_poll_interval_secs(7),
        }
    }
    assert!(file.missing_fields().is_empty());
    let config = file.config().unwrap();
    assert_eq!(config.token, "answer to Drone token");
    assert_eq!(config.default_branch, "answer to 默认 branch");
    assert!(!config.verify_ssl);
    assert_eq!(config.poll_interval_secs, 7);
}

#[test]
fn each_setting_is_asked_for_in_its_own_words() {
    assert_eq!(TextField::BaseUrl.prompt(), "Drone baseUrl (例如 https://drone.example.com)");
    assert_eq!(TextField::DefaultNamespace.prompt(), "默认 namespace");
    assert_eq!(TextField::DefaultRepo.prompt(), "默认 repo");
    assert_eq!(TextField::DefaultBranch.prompt(), "默认 branch");
    assert_eq!(TextField::Token.prompt(), "Drone token");
    assert_eq!(verify_ssl_prompt(), "验证 SSL 证书？(Yes 验证 / No 跳过验证)");
    assert_eq!(poll_interval_prompt(), "轮询间隔秒数");
}

#[test]
fn some_settings_have_an_answer_on_offer() {
    assert_eq!(TextField::DefaultBranch.default_answer(), Some("main".to_string()));
    assert_eq!(TextField::Token.default_answer(), None);
    assert!(DEFAULT_VERIFY_SSL);
    assert_eq!(DEFAULT_POLL_INTERVAL_SECS, 3);
}

#[test]
fn base_addresses_are_cleaned() {
    for (raw, clean) in [
        ("https://drone.example.com", "https://drone.example.com"),
        (" http://drone.example.com// ", "http://drone.example.com"),
        ("drone.example.com", "https://drone.example.com"),
        ("HTTP://drone", "https://HTTP://drone"),
        ("ftp://drone", "https://ftp://drone"),
        ("", "https://"),
        ("a /", "https://a "),
    ] {
        assert_eq!(clean_base_url(raw.to_string()), clean);
    }
}

#[test]
fn cleaning_a_clean_address_changes_nothing() {
    for raw in ["drone.example.com/", " https://x/y/ ", "http://z"] {
        let once = clean_base_url(raw.to_string());
        assert_eq!(clean_base_url(once.clone()), once);
    }
}

#[test]
fn the_environment_can_name_the_file() {
    assert_eq!(
        config_path(Some(" ~/Scripts/config.toml\n".to_string())),
        Some("~/Scripts/config.toml".to_string())
    );
    assert_eq!(config_path(Some("  ".to_string())), None);
    assert_eq!(config_path(None), None);
}

#[test]
fn certificates_are_checked_unless_switched_off() {
    let mut file = full_file();
    let settings = client_settings(&file.config().unwrap());
    assert_eq!(
        settings,
        ClientSettings {
            user_agent: "drone-cli-helper/0.1".to_string(),
            timeout_secs: 30,
            accept_invalid_certs: false,
        }
    );
    file.set_verify_ssl(false);
    assert!(client_settings(&file.config().unwrap()).accept_invalid_certs);
}

#[test]
fn the_record_is_carried_over() {
    let mut file = full_file();
    file.successful_targets = vec![RepoTarget {
        namespace: "n".to_string(),
        repo: "r".to_string(),
        branch: "b".to_string(),
        success_count: 2,
        last_success_at: Some(9),
    }];
    assert_eq!(copy_targets(&file.successful_targets), file.successful_targets);
    assert_eq!(file.config().unwrap().successful_targets, file.successful_targets);
}
