use rust_browser::browser::{Browser, BrowserState};
use rust_browser::policy::{combine_blocklist_sources, RuntimeConfig};
use rust_browser::profile::{profile_url, BlocklistProfile};
use rust_browser::service::{BrowserService, NavigationOutcome};
use rust_browser::policy::{FileBlocklistPolicy, UrlPolicy};
use rust_browser::settings::{AppSettings, AppSettingsStore};

#[test]
fn profile_names_and_commands() {
    assert_eq!(BlocklistProfile::Light.as_str(), "Light");
    assert_eq!(BlocklistProfile::Normal.as_str(), "Normal");
    assert_eq!(BlocklistProfile::Pro.as_str(), "Pro");
    assert_eq!(BlocklistProfile::from_command("  PRO \n"), Some(BlocklistProfile::Pro));
    assert_eq!(BlocklistProfile::from_command("light"), Some(BlocklistProfile::Light));
    assert_eq!(BlocklistProfile::from_command("Normal"), Some(BlocklistProfile::Normal));
    assert_eq!(BlocklistProfile::from_command("ultra"), None);
    assert_eq!(BlocklistProfile::from_command(""), None);
    assert_eq!(BlocklistProfile::default(), BlocklistProfile::Normal);
    for p in [BlocklistProfile::Light, BlocklistProfile::Normal, BlocklistProfile::Pro] {
        assert_eq!(BlocklistProfile::from_command(p.as_str()), Some(p));
    }
}

#[test]
fn profile_list_addresses() {
    assert_eq!(
        profile_url(BlocklistProfile::Light),
        "https://raw.githubusercontent.com/hagezi/dns-blocklists/main/domains/light.txt"
    );
    assert_eq!(
        profile_url(BlocklistProfile::Normal),
        "https://raw.githubusercontent.com/hagezi/dns-blocklists/main/domains/multi.txt"
    );
    assert_eq!(
        profile_url(BlocklistProfile::Pro),
        "https://raw.githubusercontent.com/hagezi/dns-blocklists/main/domains/pro.txt"
    );
}

#[test]
fn settings_default_to_normal_profile() {
    assert_eq!(AppSettings::default().blocklist_profile, BlocklistProfile::Normal);
    let store = AppSettingsStore::new("target/settings.json".to_string());
    assert_eq!(store.path(), "target/settings.json");
}

#[test]
fn navigation_moves_current_address_into_history() {
    let mut browser = Browser::new(BrowserState::default());
    browser.navigate("https://a.test");
    assert!(browser.history().is_empty());
    browser.navigate("https://b.test");
    browser.navigate("https://b.test");
    browser.navigate("https://c.test");
    assert_eq!(browser.history(), &["https://a.test".to_string(), "https://b.test".to_string()]);
    assert_eq!(browser.state().current_url, "https://c.test");
}

#[test]
fn navigation_from_given_state() {
    let mut browser = Browser::new(BrowserState {
        current_url: "https://start.test".to_string(),
        history: vec!["https://old.test".to_string()],
    });
    browser.navigate("https://next.test");
    assert_eq!(
        browser.history(),
        &["https://old.test".to_string(), "https://start.test".to_string()]
    );
}

#[test]
fn sources_are_joined_in_order() {
    let joined = combine_blocklist_sources(
        Some("a.test".to_string()),
        Some(Ok("b.test".to_string())),
        None,
    );
    assert_eq!(joined, Ok("a.test\nb.test".to_string()));
}

#[test]
fn failed_fetch_falls_back_to_cache() {
    let joined = combine_blocklist_sources(
        Some("a.test".to_string()),
        Some(Err("timeout".to_string())),
        Some("cached.test".to_string()),
    );
    assert_eq!(joined, Ok("a.test\ncached.test".to_string()));
}

#[test]
fn failed_fetch_without_cache_keeps_local() {
    let joined = combine_blocklist_sources(
        Some("a.test".to_string()),
        Some(Err("timeout".to_string())),
        None,
    );
    assert_eq!(joined, Ok("a.test".to_string()));
}

#[test]
fn failed_fetch_without_any_source_is_the_error() {
    let joined = combine_blocklist_sources(None, Some(Err("timeout".to_string())), None);
    assert_eq!(joined, Err("timeout".to_string()));
}

#[test]
fn no_sources_is_an_error() {
    let joined = combine_blocklist_sources(None, None, None);
    assert_eq!(joined, Err("No blocklist sources could be loaded.".to_string()));
    let remote_only = combine_blocklist_sources(None, Some(Ok("r.test".to_string())), None);
    assert_eq!(remote_only, Ok("r.test".to_string()));
}

#[test]
fn merged_sources_block_rules_of_each() {
    let text = combine_blocklist_sources(
        Some("local.test\n".to_string()),
        Some(Ok("remote.test".to_string())),
        None,
    )
    .unwrap();
    let policy = FileBlocklistPolicy::from_blocklist_text(&text);
    assert!(!policy.allows("https://local.test"));
    assert!(!policy.allows("https://remote.test"));
    assert!(policy.allows("https://other.test"));
}

#[test]
fn runtime_config_defaults_and_remote() {
    let config = RuntimeConfig::from_values(None, None, None);
    assert_eq!(config.local_blocklist_path, "blocklist.txt");
    assert_eq!(config.remote_blocklist_cache_path, "target/blocklists/remote-domains.txt");
    assert!(config.remote_config().is_none());

    let config = RuntimeConfig::from_values(
        Some("lists/local.txt".to_string()),
        Some("https://lists.test/domains.txt".to_string()),
        Some("cache/remote.txt".to_string()),
    );
    let remote = config.remote_config().unwrap();
    assert_eq!(remote.url, "https://lists.test/domains.txt");
    assert_eq!(remote.cache_path, "cache/remote.txt");
    assert_eq!(config.local_blocklist_path, "lists/local.txt");
}

#[test]
fn service_checks_policy_before_navigating() {
    let policy = FileBlocklistPolicy::from_blocklist_text("malware-site.ru");
    let mut service = BrowserService::start(policy, "/tmp/rust_browser_test_data/service-navigation").unwrap();
    assert_eq!(service.navigate("https://google.com"), NavigationOutcome::Allowed);
    assert_eq!(service.current_url(), "https://google.com");
    assert_eq!(service.navigate("http://malware-site.ru"), NavigationOutcome::Blocked);
    assert_eq!(service.navigate("invalid_url"), NavigationOutcome::Blocked);
    assert_eq!(service.current_url(), "https://google.com");
}

#[test]
fn history_never_repeats_an_address_in_a_row() {
    let mut browser = Browser::new(BrowserState::default());
    for url in ["https://a.test", "https://b.test", "https://b.test", "https://a.test", "https://b.test"] {
        browser.navigate(url);
    }
    assert_eq!(
        browser.history(),
        &["https://a.test".to_string(), "https://b.test".to_string(), "https://a.test".to_string()]
    );
    assert_eq!(browser.state().current_url, "https://b.test");
}
