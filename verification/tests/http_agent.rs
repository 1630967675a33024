use rustychain::http_agent::UserAgentFactory;

#[test]
fn test_user_agent_factory() {
    let chrome = UserAgentFactory::chrome();
    assert!(chrome.contains("Chrome"));
    assert!(chrome.contains("Mozilla/5.0"));

    let firefox = UserAgentFactory::firefox();
    assert!(firefox.contains("Firefox"));
    assert!(firefox.contains("Gecko"));

    let safari = UserAgentFactory::safari();
    assert!(safari.contains("Safari"));
    assert!(safari.contains("AppleWebKit"));

    let random = UserAgentFactory::random();
    assert!(!random.is_empty());
}

#[test]
fn user_agents_use_offered_versions() {
    for _ in 0..20 {
        let firefox = UserAgentFactory::firefox();
        let version = &firefox["Mozilla/5.0 (Windows NT 10.0; Win64; x64; rv:".len()..][..5];
        assert!(["120.0", "121.0", "122.0", "123.0"].contains(&version));
        assert!(firefox.ends_with(&format!("Firefox/{}", version)));
    }
}
