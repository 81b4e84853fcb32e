//! The browser's use cases: navigation under the URL policy, and bookmarks.

use vstd::prelude::*;
use vstd::utf8::encode_utf8;
use crate::blocklist::{url_parts, verdict};
use crate::bookmarks::{bookmark_key, BookmarkStore};
use crate::browser::{navigate_step, Browser, BrowserState};
use crate::policy::{FileBlocklistPolicy, UrlPolicy};

verus! {

/// Whether a navigation went ahead.
#[derive(Clone, Copy, Debug, PartialEq, Eq, Structural)]
pub enum NavigationOutcome {
    Allowed,
    Blocked,
}

/// A browser whose navigations are checked against a URL policy, with a
/// bookmark store.
pub struct BrowserService {
    browser: Browser,
    url_policy: FileBlocklistPolicy,
    bookmark_store: BookmarkStore,
}

impl BrowserService {
    /// The browser's navigation state: (current address, history).
    pub closed spec fn navigation(&self) -> (Seq<char>, Seq<Seq<char>>) {
        self.browser@
    }

    /// The rules of the URL policy.
    pub closed spec fn rules(&self) -> Seq<Seq<char>> {
        self.url_policy@
    }

    /// What the bookmark store holds.
    pub closed spec fn bookmarks(&self) -> Map<Seq<u8>, Seq<u8>> {
        self.bookmark_store.contents()
    }

    /// The path of the bookmark store's database.
    pub closed spec fn bookmarks_location(&self) -> Seq<char> {
        self.bookmark_store.location()
    }

    /// A service with an empty browser, the given policy, and the bookmark
    /// store at `storage_path`; an error where the store cannot be opened.
    pub fn start(url_policy: FileBlocklistPolicy, storage_path: &str) -> (r: Result<Self, String>)
        ensures
            r matches Ok(s) ==> s.navigation() == (Seq::<char>::empty(), Seq::<Seq<char>>::empty())
                && s.rules() == url_policy@ && s.bookmarks_location() == storage_path@,
    {
        let browser = Browser::new(BrowserState::default());
        assert(browser@ =~= (Seq::<char>::empty(), Seq::<Seq<char>>::empty()));
        let bookmark_store = BookmarkStore::open(storage_path)?;
        Ok(BrowserService { browser, url_policy, bookmark_store })
    }

    /// Navigates to `url` if the policy allows it; a blocked address leaves
    /// the browser as it was.
    pub fn navigate(&mut self, url: &str) -> (r: NavigationOutcome)
        ensures
            r == (if verdict(old(self).rules(), url_parts(url@)) {
                NavigationOutcome::Blocked
            } else {
                NavigationOutcome::Allowed
            }),
            final(self).navigation() == (if r == NavigationOutcome::Allowed {
                navigate_step(old(self).navigation(), url@)
            } else {
                old(self).navigation()
            }),
            final(self).rules() == old(self).rules(),
            final(self).bookmarks() == old(self).bookmarks(),
            final(self).bookmarks_location() == old(self).bookmarks_location(),
    {
        if self.url_policy.allows(url) {
            self.browser.navigate(url);
            NavigationOutcome::Allowed
        } else {
            NavigationOutcome::Blocked
        }
    }

    /// The address currently shown.
    pub fn current_url(&self) -> (r: &str)
        ensures
            r@ == self.navigation().0,
    {
        self.browser.state().current_url.as_str()
    }

    /// Bookmarks `url` under `title`.
    pub fn add_bookmark(&mut self, url: &str, title: &str) -> (r: Result<(), String>)
        ensures
            r is Ok ==> final(self).bookmarks() == old(self).bookmarks().insert(
                bookmark_key(url@),
                encode_utf8(title@),
            ),
            final(self).navigation() == old(self).navigation(),
            final(self).rules() == old(self).rules(),
            final(self).bookmarks_location() == old(self).bookmarks_location(),
    {
        self.bookmark_store.save(url, title)
    }

    /// The bookmark store.
    pub fn bookmark_store(&self) -> (r: &BookmarkStore)
        ensures
            r.contents() == self.bookmarks(),
            r.location() == self.bookmarks_location(),
    {
        &self.bookmark_store
    }
}

} // verus!
