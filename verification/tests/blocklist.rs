use rust_browser::blocklist::{Blocklist, DomainRule, ParsedUrl};
use rust_browser::policy::{FileBlocklistPolicy, UrlPolicy};

#[test]
fn blocks_matching_hosts_and_subdomains() {
    let list = Blocklist::from_text("example.com\nads.example.net");
    assert!(list.blocks("https://ads.example.com/banner"));
    assert!(list.blocks("https://safe.example.com/path"));
    assert!(list.blocks("https://ads.example.net/script.js"));
}

#[test]
fn does_not_match_partial_substrings() {
    let list = Blocklist::from_text("example.com");
    assert!(!list.blocks("https://goodexample.com"));
    assert!(!list.blocks("https://another-example.com"));
}

#[test]
fn invalid_urls_are_blocked() {
    let list = Blocklist::from_text("anything");
    assert!(list.blocks("not-a-url"));
    assert!(list.blocks("ftp://example.com/file"));
}

#[test]
fn allows_clean_urls() {
    let list = Blocklist::from_text("ads.example.com");
    assert!(!list.blocks("https://www.rust-lang.org"));
}

#[test]
fn parses_hosts_and_domain_formats() {
    let list = Blocklist::from_text(
        r#"
            # comment
            0.0.0.0 metrics.example.com
            ||tracker.example.org^
            *.ads.example.net
            "#,
    );

    assert!(list.blocks("https://metrics.example.com"));
    assert!(list.blocks("https://tracker.example.org/collect"));
    assert!(list.blocks("https://sub.ads.example.net"));
}

#[test]
fn skips_comments_blanks_and_headers() {
    assert!(DomainRule::parse("").is_none());
    assert!(DomainRule::parse("   \t ").is_none());
    assert!(DomainRule::parse("# hosts file").is_none());
    assert!(DomainRule::parse("! adblock comment").is_none());
    assert!(DomainRule::parse("[Adblock Plus 2.0]").is_none());
    assert_eq!(DomainRule::parse("  example.org  ").unwrap().host(), "example.org");
}

#[test]
fn rejects_localhost_and_ip_addresses() {
    assert!(DomainRule::parse("localhost").is_none());
    assert!(DomainRule::parse("127.0.0.1 localhost").is_none());
    assert!(DomainRule::parse("0.0.0.0").is_none());
    assert!(DomainRule::parse("10.1.2.3").is_none());
    assert!(DomainRule::parse("::1").is_none());
    assert!(DomainRule::parse("fe80::1").is_none());
    assert!(DomainRule::parse("||^").is_none());
    assert!(DomainRule::parse("0.0.0.0 tracker.net").is_some());
}

#[test]
fn strips_adblock_and_wildcard_syntax() {
    assert_eq!(DomainRule::parse("||Ads.Example.COM^").unwrap().host(), "ads.example.com");
    assert_eq!(DomainRule::parse("*.Tracker.NET.").unwrap().host(), "tracker.net");
    assert_eq!(DomainRule::parse("0.0.0.0 metrics.example.com").unwrap().host(), "metrics.example.com");
    assert_eq!(DomainRule::parse("||||a.test..^^").unwrap().host(), "a.test");
}

#[test]
fn normalizes_rule_hosts() {
    let list = Blocklist::from_text("||Ads.Example.COM^\n*.Tracker.NET.\n");
    assert!(list.blocks("https://ads.example.com"));
    assert!(list.blocks("http://deep.sub.tracker.net/x"));
    assert!(!list.blocks("https://example.com"));
}

#[test]
fn host_matching_ignores_case_of_the_url() {
    let list = Blocklist::from_text("example.com");
    assert!(list.blocks("https://WWW.EXAMPLE.COM/"));
}

#[test]
fn rule_matches_itself_and_subdomains_only() {
    let rule = DomainRule::parse("example.com").unwrap();
    assert!(rule.matches("example.com"));
    assert!(rule.matches("a.b.example.com"));
    assert!(!rule.matches("badexample.com"));
    assert!(!rule.matches("example.com.evil.org"));
    assert!(!rule.matches("com"));
}

#[test]
fn crlf_lines_are_split() {
    let list = Blocklist::from_text("one.test\r\ntwo.test\r\n");
    assert!(list.blocks("https://one.test"));
    assert!(list.blocks("https://two.test"));
    assert!(!list.blocks("https://three.test"));
}

#[test]
fn verdict_from_parsed_parts() {
    let list = Blocklist::from_text("example.com");
    assert!(list.blocks_parsed(None));
    assert!(list.blocks_parsed(Some(ParsedUrl {
        scheme: "ftp".to_string(),
        host: Some("safe.org".to_string()),
    })));
    assert!(list.blocks_parsed(Some(ParsedUrl {
        scheme: "https".to_string(),
        host: Some("Sub.Example.Com".to_string()),
    })));
    assert!(!list.blocks_parsed(Some(ParsedUrl {
        scheme: "http".to_string(),
        host: Some("example.org".to_string()),
    })));
    assert!(!list.blocks_parsed(Some(ParsedUrl { scheme: "https".to_string(), host: None })));
}

#[test]
fn web_url_reasons() {
    assert_eq!(Blocklist::web_url(None).err(), Some("invalid url".to_string()));
    let refused = Blocklist::web_url(Some(ParsedUrl { scheme: "file".to_string(), host: None }));
    assert_eq!(refused.err(), Some("unsupported scheme".to_string()));
    let accepted = Blocklist::web_url(Some(ParsedUrl { scheme: "https".to_string(), host: None }));
    assert!(accepted.is_ok());
}

#[test]
fn empty_list_allows_web_urls_only() {
    let list = Blocklist::from_text("# nothing here\n\n");
    assert!(!list.blocks("https://anything.example/"));
    assert!(list.blocks("mailto:someone@example.com"));
}

#[test]
fn policy_allows_exactly_what_is_not_blocked() {
    let policy = FileBlocklistPolicy::from_blocklist_text("malware-site.ru\n");
    assert!(policy.allows("https://google.com"));
    assert!(!policy.allows("http://malware-site.ru"));
    assert!(!policy.allows("invalid_url"));
}

#[test]
fn joined_lists_block_what_either_blocks() {
    let a = "ads.example.com\n# comment";
    let b = "||tracker.test^\nlocalhost";
    let joined = Blocklist::from_text(&format!("{a}\n{b}"));
    let first = Blocklist::from_text(a);
    let second = Blocklist::from_text(b);
    for url in [
        "https://ads.example.com/x",
        "https://cdn.tracker.test/p.js",
        "https://www.rust-lang.org",
        "http://localhost/",
    ] {
        assert_eq!(joined.blocks(url), first.blocks(url) || second.blocks(url));
    }
    assert!(joined.blocks("https://ads.example.com/x"));
    assert!(joined.blocks("https://cdn.tracker.test/p.js"));
    assert!(!joined.blocks("https://www.rust-lang.org"));
}

#[test]
fn line_order_does_not_change_blocking() {
    let forward = Blocklist::from_text("one.test\n0.0.0.0 two.test\n*.three.test");
    let backward = Blocklist::from_text("*.three.test\n0.0.0.0 two.test\none.test");
    for url in [
        "https://one.test",
        "https://a.two.test/",
        "https://three.test",
        "https://four.test",
    ] {
        assert_eq!(forward.blocks(url), backward.blocks(url));
    }
    assert!(forward.blocks("https://a.two.test/"));
    assert!(!forward.blocks("https://four.test"));
}
