use alexandria_nexus::config::Config;

fn some(s: &str) -> Option<String> {
    Some(s.to_string())
}

#[test]
fn complete_settings_are_accepted() {
    let c = Config::from_values(some("postgres://x"), some("0.0.0.0"), some("8080"), some("a.org, b.org"), some(""), None)
        .unwrap();
    assert_eq!(c.addr(), "0.0.0.0:8080");
    assert_eq!(c.cors_origins(), vec!["a.org".to_string(), "b.org".to_string()]);
    assert_eq!(c.seed_api_key, None);
    assert_eq!(c.seed_api_key_name, None);
}

#[test]
fn every_missing_setting_is_reported_at_once() {
    let e = Config::from_values(None, some("h"), None, some("o"), some("key"), some("")).unwrap_err();
    assert_eq!(
        e,
        "Missing required environment variables:\n  - DATABASE_URL\n  - PORT\n  - SEED_API_KEY_NAME (required when SEED_API_KEY is set)"
    );
}

#[test]
fn a_seed_key_with_its_name_is_kept() {
    let c = Config::from_values(some("d"), some("h"), some("1"), some("o"), some("k"), some("admin")).unwrap();
    assert_eq!(c.seed_api_key.as_deref(), Some("k"));
    assert_eq!(c.seed_api_key_name.as_deref(), Some("admin"));
}
