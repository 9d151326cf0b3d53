use ellipsys_runner_core::config::{credential_env_name, credential_keys, paper_flag, present, Credentials, RunnerConfig};

#[test]
fn credentials_read_what_was_written() {
    let mut c = Credentials::new();
    assert!(c.get("api_key").is_none());
    c.insert("api_key".into(), "first".into());
    c.insert("email".into(), "a@b.c".into());
    c.insert("api_key".into(), "second".into());
    assert_eq!(c.get("api_key").map(String::as_str), Some("second"));
    assert_eq!(c.get("email").map(String::as_str), Some("a@b.c"));
    assert_eq!(c.entries().len(), 2);
    let copy = c.duplicate();
    assert_eq!(copy.entries(), c.entries());
}

#[test]
fn credential_environment_names() {
    let keys = credential_keys();
    assert_eq!(keys.len(), 9);
    assert_eq!(keys[0], "api_key");
    assert_eq!(keys[8], "server");
    assert_eq!(credential_env_name("private_key"), "ELLIPSYS_CRED_PRIVATE_KEY");
}

#[test]
fn settings_are_present_only_when_not_empty() {
    assert_eq!(present(Some(String::new())), None);
    assert_eq!(present(Some("x".into())), Some("x".to_string()));
    assert!(paper_flag(None));
    assert!(paper_flag(Some(String::new())));
    assert!(paper_flag(Some("true".into())));
    assert!(paper_flag(Some("1".into())));
    assert!(!paper_flag(Some("false".into())));
    assert!(!paper_flag(Some("TRUE".into())));
}

#[test]
fn headless_configuration_from_settings() {
    let config = RunnerConfig::from_settings(
        None,
        Some("tok".into()),
        Some(String::new()),
        None,
        vec![
            ("api_key".into(), Some("k".into())),
            ("api_secret".into(), Some(String::new())),
            ("email".into(), None),
        ],
    );
    assert_eq!(config.portal_base_url, "https://ellipsys-app.vercel.app");
    assert_eq!(config.runner_token.as_deref(), Some("tok"));
    assert!(config.venue.is_none());
    assert!(config.is_paper);
    assert_eq!(config.credentials.get("api_key").map(String::as_str), Some("k"));
    assert!(config.credentials.get("api_secret").is_none());
    assert!(config.credentials.get("email").is_none());

    let live = RunnerConfig::from_settings(Some("https://p".into()), None, Some("kraken".into()), Some("0".into()), vec![]);
    assert_eq!(live.portal_base_url, "https://p");
    assert!(!live.is_paper);
    assert_eq!(live.venue.as_deref(), Some("kraken"));
}

#[test]
fn default_configuration_is_empty() {
    let config = RunnerConfig::default();
    assert!(config.portal_base_url.is_empty());
    assert!(config.runner_token.is_none());
    assert!(!config.is_paper);
    assert!(config.credentials.entries().is_empty());
}
