use rust_browser::bookmarks::BookmarkStore;
use rust_browser::policy::FileBlocklistPolicy;
use rust_browser::service::BrowserService;

#[test]
fn saved_bookmark_reads_back() {
    let mut store = BookmarkStore::open("/tmp/rust_browser_test_data/bookmarks-read-back").unwrap();
    store.save("https://rust-lang.org", "Rust – Programming Language").unwrap();
    let found = store.get("https://rust-lang.org").unwrap().unwrap();
    assert_eq!(found.url, "https://rust-lang.org");
    assert_eq!(found.title, "Rust – Programming Language");
}

#[test]
fn saving_overwrites_and_leaves_others() {
    let mut store = BookmarkStore::open("/tmp/rust_browser_test_data/bookmarks-overwrite").unwrap();
    store.save("https://a.test", "First").unwrap();
    store.save("https://b.test", "Other").unwrap();
    store.save("https://a.test", "Second").unwrap();
    assert_eq!(store.get("https://a.test").unwrap().unwrap().title, "Second");
    assert_eq!(store.get("https://b.test").unwrap().unwrap().title, "Other");
    assert!(store.get("https://never.test").unwrap().is_none());
}

#[test]
fn service_adds_bookmarks() {
    let policy = FileBlocklistPolicy::from_blocklist_text("");
    let mut service = BrowserService::start(policy, "/tmp/rust_browser_test_data/service-bookmarks").unwrap();
    service.add_bookmark("https://docs.rs", "Docs").unwrap();
    let found = service.bookmark_store().get("https://docs.rs").unwrap().unwrap();
    assert_eq!(found.title, "Docs");
}

#[test]
fn stored_records_become_bookmarks() {
    assert!(BookmarkStore::bookmark_from_record("https://a.test", None).unwrap().is_none());
    let found = BookmarkStore::bookmark_from_record("https://a.test", Some("Grüße".as_bytes().to_vec()))
        .unwrap()
        .unwrap();
    assert_eq!(found.url, "https://a.test");
    assert_eq!(found.title, "Grüße");
    assert!(BookmarkStore::bookmark_from_record("https://a.test", Some(vec![0xff, 0xfe])).is_err());
}
