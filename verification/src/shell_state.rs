//! The browser shell's tabs and per-tab page state, and how user actions and
//! browser events change them.

use vstd::prelude::*;
use crate::page::{Page, PageSection};
use crate::profile::{profile_name, BlocklistProfile};
use crate::profile::profile_of_command;
use crate::shell_view::{
    shows, BrowserShellUiAction, BrowserShellViewModel, shown_url, BrowserShellStateInput, PreviewSectionInput, TabStateInput,
};
use crate::text::{chars_of, opt_chars, slice_range, str_eq, string_of, string_views, trim, trim_chars};

verus! {

/// A section of the options dialog.
#[derive(Clone, Copy, Debug, PartialEq, Eq, Structural)]
pub enum SettingsTab {
    Security,
    History,
    Preview,
}

pub open spec fn settings_tab_name(t: SettingsTab) -> Seq<char> {
    match t {
        SettingsTab::Security => "security"@,
        SettingsTab::History => "history"@,
        SettingsTab::Preview => "preview"@,
    }
}

pub open spec fn settings_tab_of(value: Seq<char>) -> Option<SettingsTab> {
    if value == "security"@ {
        Some(SettingsTab::Security)
    } else if value == "history"@ {
        Some(SettingsTab::History)
    } else if value == "preview"@ {
        Some(SettingsTab::Preview)
    } else {
        None
    }
}

impl SettingsTab {
    /// The section that a command names exactly, if any.
    pub fn from_command(value: &str) -> (r: Option<Self>)
        ensures
            r == settings_tab_of(value@),
    {
        if str_eq(value, "security") {
            Some(SettingsTab::Security)
        } else if str_eq(value, "history") {
            Some(SettingsTab::History)
        } else if str_eq(value, "preview") {
            Some(SettingsTab::Preview)
        } else {
            None
        }
    }

    /// The command name of this section.
    pub fn as_str(self) -> (r: &'static str)
        ensures
            r@ == settings_tab_name(self),
    {
        match self {
            SettingsTab::Security => "security",
            SettingsTab::History => "history",
            SettingsTab::Preview => "preview",
        }
    }
}

/// A section's name, given as a command, selects that section again.
pub proof fn lemma_settings_tab_round_trip(t: SettingsTab)
    ensures
        settings_tab_of(settings_tab_name(t)) == Some(t),
{
    reveal_strlit("security");
    reveal_strlit("history");
    reveal_strlit("preview");
    assert("history"@.len() != "security"@.len());
    assert("preview"@.len() != "security"@.len());
    assert("preview"@[0] != "history"@[0]);
}

/// A status message and its kind (`success`, `warning` or `info`).
#[derive(Clone)]
pub struct StatusPayload {
    pub kind: &'static str,
    pub message: String,
}

impl StatusPayload {
    pub fn success(message: String) -> (r: Self)
        ensures
            r.kind@ == "success"@,
            r.message@ == message@,
    {
        StatusPayload { kind: "success", message }
    }

    pub fn warning(message: String) -> (r: Self)
        ensures
            r.kind@ == "warning"@,
            r.message@ == message@,
    {
        StatusPayload { kind: "warning", message }
    }

    pub fn info(message: String) -> (r: Self)
        ensures
            r.kind@ == "info"@,
            r.message@ == message@,
    {
        StatusPayload { kind: "info", message }
    }
}

impl Default for StatusPayload {
    fn default() -> (r: Self)
        ensures
            r.kind@ == "info"@,
            r.message@ == "Ready to browse with the embedded WebView2 shell."@,
    {
        StatusPayload::info(String::from_str("Ready to browse with the embedded WebView2 shell."))
    }
}

/// One section of a page preview.
#[derive(Clone)]
pub struct SectionPayload {
    pub heading: String,
    pub body: String,
}

/// One open tab and the state of its page.
pub struct BrowserTab {
    pub id: u32,
    pub title: String,
    pub address_input: String,
    pub current_url: Option<String>,
    pub pending_url: Option<String>,
    pub page_meta: String,
    pub page_summary: String,
    pub history: Vec<String>,
    pub sections: Vec<SectionPayload>,
}

/// The summary a tab shows before a page is opened.
pub open spec fn initial_summary() -> Seq<char> {
    "Open a page to fetch a structured summary beside the embedded browser."@
}

/// A fresh tab with the given id.
pub open spec fn is_fresh_tab(t: BrowserTab, id: u32) -> bool {
    &&& t.id == id
    &&& t.title@ == "New Tab"@
    &&& t.address_input@ == Seq::<char>::empty()
    &&& t.current_url is None
    &&& t.pending_url is None
    &&& t.page_meta@ == Seq::<char>::empty()
    &&& t.page_summary@ == initial_summary()
    &&& t.history@.len() == 0
    &&& t.sections@.len() == 0
}

impl BrowserTab {
    /// A new tab with no page.
    pub fn new(id: u32) -> (r: Self)
        ensures
            is_fresh_tab(r, id),
    {
        BrowserTab {
            id,
            title: String::from_str("New Tab"),
            address_input: String::new(),
            current_url: None,
            pending_url: None,
            page_meta: String::new(),
            page_summary: String::from_str(
                "Open a page to fetch a structured summary beside the embedded browser.",
            ),
            history: Vec::new(),
            sections: Vec::new(),
        }
    }
}

/// The tab title shown for an address: the address trimmed, cut to its first
/// 38 characters followed by `...` where longer, or `New Tab` where blank.
pub open spec fn tab_title_for(value: Seq<char>) -> Seq<char> {
    let t = trim(value);
    if t.len() == 0 {
        "New Tab"@
    } else if t.len() > 38 {
        t.take(38) + "..."@
    } else {
        t
    }
}

/// The tab title for an address.
pub fn truncate_tab_title(value: &str) -> (r: String)
    ensures
        r@ == tab_title_for(value@),
{
    let chars = chars_of(value);
    let trimmed = trim_chars(chars.as_slice());
    if trimmed.len() == 0 {
        return String::from_str("New Tab");
    }
    if trimmed.len() > 38 {
        let head = slice_range(trimmed.as_slice(), 0, 38);
        assert(head@ =~= trimmed@.take(38));
        string_of(head.as_slice()).concat("...")
    } else {
        string_of(trimmed.as_slice())
    }
}

/// The shell state as values.
pub struct ShellView {
    pub tabs: Seq<BrowserTab>,
    pub active_tab_id: u32,
    pub next_tab_id: u32,
    pub is_loading: bool,
    pub is_settings_open: bool,
    pub selected_settings_tab: SettingsTab,
    pub selected_profile: Seq<char>,
    pub status_kind: Seq<char>,
    pub status_message: Seq<char>,
}

/// The position of the tab with id `id`.
pub open spec fn tab_index(tabs: Seq<BrowserTab>, id: u32) -> int {
    choose|i: int| 0 <= i < tabs.len() && tabs[i].id == id
}

/// The tab list is well formed: there is at least one tab, ids are distinct
/// and below `next`, and `active` is the id of a tab.
pub open spec fn tabs_wf(tabs: Seq<BrowserTab>, active: u32, next: u32) -> bool {
    &&& tabs.len() > 0
    &&& forall|i: int, j: int|
        #![trigger tabs[i], tabs[j]]
        0 <= i < tabs.len() && 0 <= j < tabs.len() && i != j ==> tabs[i].id != tabs[j].id
    &&& forall|i: int| #![trigger tabs[i]] 0 <= i < tabs.len() ==> tabs[i].id < next
    &&& exists|i: int| #![trigger tabs[i]] 0 <= i < tabs.len() && tabs[i].id == active
}

/// Within a well-formed tab list, the tab with a given id is at one position.
pub proof fn lemma_tab_index(tabs: Seq<BrowserTab>, active: u32, next: u32, i: int)
    requires
        tabs_wf(tabs, active, next),
        0 <= i < tabs.len(),
    ensures
        tab_index(tabs, tabs[i].id) == i,
{
    let j = tab_index(tabs, tabs[i].id);
    assert(0 <= j < tabs.len() && tabs[j].id == tabs[i].id);
}

/// A tab as the tab strip shows it.
pub struct TabPayload {
    pub id: u32,
    pub title: String,
    pub url: String,
}

/// What the shell shows of its state at one moment.
pub struct ShellStateSnapshot {
    pub tabs: Vec<TabPayload>,
    pub active_tab_id: u32,
    pub address_input: String,
    pub current_url: Option<String>,
    pub pending_url: Option<String>,
    pub page_title: String,
    pub page_meta: String,
    pub page_summary: String,
    pub history: Vec<String>,
    pub sections: Vec<SectionPayload>,
    pub is_loading: bool,
    pub is_settings_open: bool,
    pub selected_settings_tab: String,
    pub selected_profile: String,
    pub status: StatusPayload,
}

fn clone_opt(o: &Option<String>) -> (r: Option<String>)
    ensures
        opt_chars(r) == opt_chars(*o),
{
    match o {
        Some(s) => Some(s.clone()),
        None => None,
    }
}

fn clone_sections(v: &Vec<SectionPayload>) -> (r: Vec<SectionPayload>)
    ensures
        r@.len() == v@.len(),
        forall|i: int|
            #![trigger r@[i]]
            0 <= i < r@.len() ==> r@[i].heading@ == v@[i].heading@ && r@[i].body@ == v@[i].body@,
{
    let mut r: Vec<SectionPayload> = Vec::new();
    let mut i: usize = 0;
    while i < v.len()
        invariant
            i <= v.len(),
            r@.len() == i,
            forall|j: int|
                #![trigger r@[j]]
                0 <= j < i ==> r@[j].heading@ == v@[j].heading@ && r@[j].body@ == v@[j].body@,
        decreases v.len() - i,
    {
        r.push(SectionPayload { heading: v[i].heading.clone(), body: v[i].body.clone() });
        i = i + 1;
    }
    r
}

/// `s` is what the shell in state `v` shows.
pub open spec fn snapshot_of(s: ShellStateSnapshot, v: ShellView) -> bool {
    let a = active_tab_of(v);
    &&& s.tabs@.len() == v.tabs.len()
    &&& forall|j: int|
        #![trigger s.tabs@[j]]
        0 <= j < s.tabs@.len() ==> {
            &&& s.tabs@[j].id == v.tabs[j].id
            &&& s.tabs@[j].title@ == v.tabs[j].title@
            &&& s.tabs@[j].url@ == shown_url(v.tabs[j].current_url, v.tabs[j].pending_url)
        }
    &&& s.active_tab_id == v.active_tab_id
    &&& s.address_input@ == a.address_input@
    &&& opt_chars(s.current_url) == opt_chars(a.current_url)
    &&& opt_chars(s.pending_url) == opt_chars(a.pending_url)
    &&& s.page_title@ == a.title@
    &&& s.page_meta@ == a.page_meta@
    &&& s.page_summary@ == a.page_summary@
    &&& string_views(s.history@) == string_views(a.history@).reverse()
    &&& s.sections@.len() == a.sections@.len()
    &&& forall|j: int|
        #![trigger s.sections@[j]]
        0 <= j < s.sections@.len() ==> s.sections@[j].heading@ == a.sections@[j].heading@
            && s.sections@[j].body@ == a.sections@[j].body@
    &&& s.is_loading == v.is_loading
    &&& s.is_settings_open == v.is_settings_open
    &&& s.selected_settings_tab@ == settings_tab_name(v.selected_settings_tab)
    &&& s.selected_profile@ == v.selected_profile
    &&& s.status.kind@ == v.status_kind
    &&& s.status.message@ == v.status_message
}

/// `input` is the runtime state handed to the view model for state `v`.
pub open spec fn input_of(input: BrowserShellStateInput, v: ShellView) -> bool {
    let a = active_tab_of(v);
    &&& input.tabs@.len() == v.tabs.len()
    &&& forall|j: int|
        #![trigger input.tabs@[j]]
        0 <= j < input.tabs@.len() ==> {
            &&& input.tabs@[j].id == v.tabs[j].id
            &&& input.tabs@[j].title@ == v.tabs[j].title@
            &&& input.tabs@[j].url@ == shown_url(v.tabs[j].current_url, v.tabs[j].pending_url)
        }
    &&& input.active_tab_id == v.active_tab_id
    &&& input.address_input@ == a.address_input@
    &&& opt_chars(input.current_url) == opt_chars(a.current_url)
    &&& opt_chars(input.pending_url) == opt_chars(a.pending_url)
    &&& input.page_title@ == a.title@
    &&& input.page_meta@ == a.page_meta@
    &&& input.page_summary@ == a.page_summary@
    &&& string_views(input.history@) == string_views(a.history@).reverse()
    &&& input.sections@.len() == a.sections@.len()
    &&& forall|j: int|
        #![trigger input.sections@[j]]
        0 <= j < input.sections@.len() ==> input.sections@[j].heading@
            == a.sections@[j].heading@ && input.sections@[j].body@ == a.sections@[j].body@
    &&& input.is_loading == v.is_loading
    &&& input.is_settings_open == v.is_settings_open
    &&& input.selected_settings_tab@ == settings_tab_name(v.selected_settings_tab)
    &&& input.selected_profile@ == v.selected_profile
    &&& input.status_kind@ == v.status_kind
    &&& input.status_message@ == v.status_message
}

/// The browser shell's state: its tabs and what is shown around them.
pub struct ShellState {
    tabs: Vec<BrowserTab>,
    active_tab_id: u32,
    next_tab_id: u32,
    is_loading: bool,
    is_settings_open: bool,
    selected_settings_tab: SettingsTab,
    selected_profile: String,
    status: StatusPayload,
}

impl View for ShellState {
    type V = ShellView;

    closed spec fn view(&self) -> ShellView {
        ShellView {
            tabs: self.tabs@,
            active_tab_id: self.active_tab_id,
            next_tab_id: self.next_tab_id,
            is_loading: self.is_loading,
            is_settings_open: self.is_settings_open,
            selected_settings_tab: self.selected_settings_tab,
            selected_profile: self.selected_profile@,
            status_kind: self.status.kind@,
            status_message: self.status.message@,
        }
    }
}

/// The shell state is well formed.
pub open spec fn shell_wf(v: ShellView) -> bool {
    tabs_wf(v.tabs, v.active_tab_id, v.next_tab_id)
}

/// The active tab.
pub open spec fn active_tab_of(v: ShellView) -> BrowserTab {
    v.tabs[tab_index(v.tabs, v.active_tab_id)]
}

impl ShellState {
    /// A shell with one fresh tab (id 1), showing the given blocklist profile.
    pub fn new(profile: BlocklistProfile) -> (r: Self)
        ensures
            shell_wf(r@),
            r@.tabs.len() == 1,
            is_fresh_tab(r@.tabs[0], 1),
            r@.active_tab_id == 1,
            r@.next_tab_id == 2,
            !r@.is_loading,
            !r@.is_settings_open,
            r@.selected_settings_tab == SettingsTab::Security,
            r@.selected_profile == profile_name(profile),
            r@.status_kind == "info"@,
            r@.status_message == "Ready to browse with the embedded WebView2 shell."@,
    {
        let mut tabs: Vec<BrowserTab> = Vec::new();
        tabs.push(BrowserTab::new(1));
        let r = ShellState {
            tabs,
            active_tab_id: 1,
            next_tab_id: 2,
            is_loading: false,
            is_settings_open: false,
            selected_settings_tab: SettingsTab::Security,
            selected_profile: String::from_str(profile.as_str()),
            status: StatusPayload::default(),
        };
        assert(r@.tabs[0].id == 1);
        r
    }

    fn active_index(&self) -> (r: usize)
        requires
            shell_wf(self@),
        ensures
            r == tab_index(self@.tabs, self@.active_tab_id),
            r < self@.tabs.len(),
    {
        let mut i: usize = 0;
        while i < self.tabs.len()
            invariant
                i <= self.tabs.len(),
                self.tabs@ == self@.tabs,
                shell_wf(self@),
                forall|j: int| 0 <= j < i ==> self@.tabs[j].id != self@.active_tab_id,
            decreases self.tabs.len() - i,
        {
            if self.tabs[i].id == self.active_tab_id {
                proof {
                    lemma_tab_index(self@.tabs, self@.active_tab_id, self@.next_tab_id, i as int);
                }
                return i;
            }
            i = i + 1;
        }
        assert(false);
        0
    }

    /// The active tab.
    pub fn active_tab(&self) -> (r: &BrowserTab)
        requires
            shell_wf(self@),
        ensures
            *r == active_tab_of(self@),
    {
        let i = self.active_index();
        &self.tabs[i]
    }

    /// The active tab, to change in place; every other part of the state is kept.
    pub fn active_tab_mut(&mut self) -> (r: &mut BrowserTab)
        requires
            shell_wf(old(self)@),
        ensures
            *r == active_tab_of(old(self)@),
            final(self)@ == (ShellView {
                tabs: old(self)@.tabs.update(
                    tab_index(old(self)@.tabs, old(self)@.active_tab_id),
                    *final(r),
                ),
                ..old(self)@
            }),
    {
        let i = self.active_index();
        &mut self.tabs[i]
    }

    /// The state as shown: every tab with its shown address, and the active
    /// tab's page, with its history newest first.
    pub fn snapshot(&self) -> (r: ShellStateSnapshot)
        requires
            shell_wf(self@),
        ensures
            snapshot_of(r, self@),
    {
        let active = self.active_tab();
        let mut tabs: Vec<TabPayload> = Vec::new();
        let mut i: usize = 0;
        while i < self.tabs.len()
            invariant
                i <= self.tabs.len(),
                self.tabs@ == self@.tabs,
                tabs@.len() == i,
                forall|j: int|
                    #![trigger tabs@[j]]
                    0 <= j < i ==> {
                        &&& tabs@[j].id == self@.tabs[j].id
                        &&& tabs@[j].title@ == self@.tabs[j].title@
                        &&& tabs@[j].url@ == shown_url(
                            self@.tabs[j].current_url,
                            self@.tabs[j].pending_url,
                        )
                    },
            decreases self.tabs.len() - i,
        {
            let tab = &self.tabs[i];
            let url = match &tab.current_url {
                Some(u) => u.clone(),
                None => match &tab.pending_url {
                    Some(p) => p.clone(),
                    None => String::from_str("about:blank"),
                },
            };
            tabs.push(TabPayload { id: tab.id, title: tab.title.clone(), url });
            i = i + 1;
        }
        let mut history: Vec<String> = Vec::new();
        let mut k: usize = active.history.len();
        while k > 0
            invariant
                k <= active.history.len(),
                string_views(history@) =~= string_views(active.history@).skip(k as int).reverse(),
            decreases k,
        {
            k = k - 1;
            let ghost before = string_views(history@);
            history.push(active.history[k].clone());
            assert(string_views(history@) =~= before.push(active.history@[k as int]@));
        }
        assert(string_views(active.history@).skip(0) =~= string_views(active.history@));
        ShellStateSnapshot {
            tabs,
            active_tab_id: self.active_tab_id,
            address_input: active.address_input.clone(),
            current_url: clone_opt(&active.current_url),
            pending_url: clone_opt(&active.pending_url),
            page_title: active.title.clone(),
            page_meta: active.page_meta.clone(),
            page_summary: active.page_summary.clone(),
            history,
            sections: clone_sections(&active.sections),
            is_loading: self.is_loading,
            is_settings_open: self.is_settings_open,
            selected_settings_tab: String::from_str(self.selected_settings_tab.as_str()),
            selected_profile: self.selected_profile.clone(),
            status: StatusPayload { kind: self.status.kind, message: self.status.message.clone() },
        }
    }

    /// The runtime state handed to the view model: the snapshot, field by field.
    pub fn state_input(&self) -> (r: BrowserShellStateInput)
        requires
            shell_wf(self@),
        ensures
            input_of(r, self@),
    {
        let snapshot = self.snapshot();
        let mut tabs: Vec<TabStateInput> = Vec::new();
        let mut i: usize = 0;
        while i < snapshot.tabs.len()
            invariant
                i <= snapshot.tabs.len(),
                tabs@.len() == i,
                forall|j: int|
                    #![trigger tabs@[j]]
                    0 <= j < i ==> {
                        &&& tabs@[j].id == snapshot.tabs@[j].id
                        &&& tabs@[j].title@ == snapshot.tabs@[j].title@
                        &&& tabs@[j].url@ == snapshot.tabs@[j].url@
                    },
            decreases snapshot.tabs.len() - i,
        {
            let t = &snapshot.tabs[i];
            tabs.push(TabStateInput { id: t.id, title: t.title.clone(), url: t.url.clone() });
            i = i + 1;
        }
        let mut sections: Vec<PreviewSectionInput> = Vec::new();
        let mut k: usize = 0;
        while k < snapshot.sections.len()
            invariant
                k <= snapshot.sections.len(),
                sections@.len() == k,
                forall|j: int|
                    #![trigger sections@[j]]
                    0 <= j < k ==> {
                        &&& sections@[j].heading@ == snapshot.sections@[j].heading@
                        &&& sections@[j].body@ == snapshot.sections@[j].body@
                    },
            decreases snapshot.sections.len() - k,
        {
            let s = &snapshot.sections[k];
            sections.push(PreviewSectionInput { heading: s.heading.clone(), body: s.body.clone() });
            k = k + 1;
        }
        BrowserShellStateInput {
            tabs,
            active_tab_id: snapshot.active_tab_id,
            address_input: snapshot.address_input,
            current_url: snapshot.current_url,
            pending_url: snapshot.pending_url,
            page_title: snapshot.page_title,
            page_meta: snapshot.page_meta,
            page_summary: snapshot.page_summary,
            history: snapshot.history,
            sections,
            is_loading: snapshot.is_loading,
            is_settings_open: snapshot.is_settings_open,
            selected_settings_tab: snapshot.selected_settings_tab,
            selected_profile: snapshot.selected_profile,
            status_kind: String::from_str(snapshot.status.kind),
            status_message: snapshot.status.message,
        }
    }

    /// Starts navigating the active tab to an allowed address: the tab loads
    /// `url` with its preview cleared, and the shell shows it loading. Returns
    /// the active tab's id, for the preview request.
    pub fn begin_navigation(&mut self, url: String) -> (r: u32)
        requires
            shell_wf(old(self)@),
        ensures
            only_active_tab_changed(old(self)@, final(self)@),
            r == old(self)@.active_tab_id,
            ({
                let o = active_tab_of(old(self)@);
                let n = active_tab_of(final(self)@);
                &&& n.title@ == "Loading page"@
                &&& n.address_input@ == url@
                &&& n.current_url == o.current_url
                &&& opt_chars(n.pending_url) == Some(url@)
                &&& n.page_meta@ == Seq::<char>::empty()
                &&& n.page_summary@
                    == "Fetching a structured preview while the embedded browser navigates."@
                &&& n.history == o.history
                &&& n.sections@.len() == 0
            }),
            final(self)@.is_loading,
            final(self)@.status_kind == "info"@,
            final(self)@.status_message == "Loading "@ + url@ + "..."@,
    {
        let ghost old_v = self@;
        let i = self.active_index();
        self.tabs[i].address_input = url.clone();
        self.tabs[i].pending_url = Some(url.clone());
        self.tabs[i].title = String::from_str("Loading page");
        self.tabs[i].page_meta = String::new();
        self.tabs[i].page_summary = String::from_str(
            "Fetching a structured preview while the embedded browser navigates.",
        );
        self.tabs[i].sections = Vec::new();
        self.is_loading = true;
        self.status = StatusPayload::info(String::from_str("Loading ").concat(url.as_str()).concat("..."));
        proof {
            lemma_replace_same_id(old_v.tabs, old_v.active_tab_id, old_v.next_tab_id, i as int, self@.tabs[i as int]);
            assert(self@.tabs =~= old_v.tabs.update(i as int, self@.tabs[i as int]));
        }
        self.active_tab_id
    }

    /// A requested address was blocked: the active tab keeps the typed address
    /// and stops loading, and the status warns about the block.
    pub fn block_navigation(&mut self, url: String)
        requires
            shell_wf(old(self)@),
        ensures
            only_active_tab_changed(old(self)@, final(self)@),
            ({
                let o = active_tab_of(old(self)@);
                let n = active_tab_of(final(self)@);
                &&& n.title == o.title
                &&& n.address_input@ == url@
                &&& n.current_url == o.current_url
                &&& n.pending_url is None
                &&& n.page_meta == o.page_meta
                &&& n.page_summary == o.page_summary
                &&& n.history == o.history
                &&& n.sections == o.sections
            }),
            !final(self)@.is_loading,
            final(self)@.status_kind == "warning"@,
            final(self)@.status_message == "Blocked by security filter: "@ + url@,
    {
        let ghost old_v = self@;
        let i = self.active_index();
        self.tabs[i].address_input = url.clone();
        self.tabs[i].pending_url = None;
        self.is_loading = false;
        self.status = StatusPayload::warning(String::from_str("Blocked by security filter: ").concat(url.as_str()));
        proof {
            lemma_replace_same_id(old_v.tabs, old_v.active_tab_id, old_v.next_tab_id, i as int, self@.tabs[i as int]);
            assert(self@.tabs =~= old_v.tabs.update(i as int, self@.tabs[i as int]));
        }
    }

    /// The content view started loading `url`.
    pub fn handle_navigation_started(&mut self, url: String)
        requires
            shell_wf(old(self)@),
        ensures
            only_active_tab_changed(old(self)@, final(self)@),
            ({
                let o = active_tab_of(old(self)@);
                let n = active_tab_of(final(self)@);
                &&& n.title == o.title
                &&& n.address_input@ == url@
                &&& n.current_url == o.current_url
                &&& opt_chars(n.pending_url) == Some(url@)
                &&& n.page_meta == o.page_meta
                &&& n.page_summary == o.page_summary
                &&& n.history == o.history
                &&& n.sections == o.sections
            }),
            final(self)@.is_loading,
            final(self)@.status_kind == "info"@,
            final(self)@.status_message == "Loading "@ + url@ + "..."@,
    {
        let ghost old_v = self@;
        let i = self.active_index();
        self.tabs[i].address_input = url.clone();
        self.tabs[i].pending_url = Some(url.clone());
        self.is_loading = true;
        self.status = StatusPayload::info(String::from_str("Loading ").concat(url.as_str()).concat("..."));
        proof {
            lemma_replace_same_id(old_v.tabs, old_v.active_tab_id, old_v.next_tab_id, i as int, self@.tabs[i as int]);
            assert(self@.tabs =~= old_v.tabs.update(i as int, self@.tabs[i as int]));
        }
    }

    /// The content view finished loading `url`: it becomes the active tab's
    /// address, is added to its history unless it is already the latest entry,
    /// and titles the tab if the tab has no page title yet.
    pub fn handle_navigation_finished(&mut self, url: String)
        requires
            shell_wf(old(self)@),
        ensures
            only_active_tab_changed(old(self)@, final(self)@),
            ({
                let o = active_tab_of(old(self)@);
                let n = active_tab_of(final(self)@);
                &&& n.title@ == (if o.title@ == "Loading page"@ || o.title@ == "New Tab"@ {
                    tab_title_for(url@)
                } else {
                    o.title@
                })
                &&& n.address_input@ == url@
                &&& opt_chars(n.current_url) == Some(url@)
                &&& n.pending_url is None
                &&& n.page_meta == o.page_meta
                &&& n.page_summary == o.page_summary
                &&& string_views(n.history@) == (if o.history@.len() > 0 && o.history@.last()@ == url@ {
                    string_views(o.history@)
                } else {
                    string_views(o.history@).push(url@)
                })
                &&& n.sections == o.sections
            }),
            !final(self)@.is_loading,
            final(self)@.status_kind == "success"@,
            final(self)@.status_message == "Page loaded in WebView2."@,
    {
        let ghost old_v = self@;
        let i = self.active_index();
        self.tabs[i].address_input = url.clone();
        self.tabs[i].current_url = Some(url.clone());
        self.tabs[i].pending_url = None;
        let n = self.tabs[i].history.len();
        let repeat = n > 0 && str_eq(self.tabs[i].history[n - 1].as_str(), url.as_str());
        if !repeat {
            let ghost before = string_views(self.tabs@[i as int].history@);
            self.tabs[i].history.push(url.clone());
            assert(string_views(self.tabs@[i as int].history@) =~= before.push(url@));
        }
        if str_eq(self.tabs[i].title.as_str(), "Loading page") || str_eq(self.tabs[i].title.as_str(), "New Tab") {
            self.tabs[i].title = truncate_tab_title(url.as_str());
        }
        self.is_loading = false;
        self.status = StatusPayload::success(String::from_str("Page loaded in WebView2."));
        proof {
            lemma_replace_same_id(old_v.tabs, old_v.active_tab_id, old_v.next_tab_id, i as int, self@.tabs[i as int]);
            assert(self@.tabs =~= old_v.tabs.update(i as int, self@.tabs[i as int]));
        }
    }

    /// The content view refused to open `url`: the active tab stops loading
    /// and the status warns about the block.
    pub fn handle_navigation_blocked(&mut self, url: String)
        requires
            shell_wf(old(self)@),
        ensures
            only_active_tab_changed(old(self)@, final(self)@),
            ({
                let o = active_tab_of(old(self)@);
                let n = active_tab_of(final(self)@);
                &&& n.title == o.title
                &&& n.address_input == o.address_input
                &&& n.current_url == o.current_url
                &&& n.pending_url is None
                &&& n.page_meta == o.page_meta
                &&& n.page_summary == o.page_summary
                &&& n.history == o.history
                &&& n.sections == o.sections
            }),
            !final(self)@.is_loading,
            final(self)@.status_kind == "warning"@,
            final(self)@.status_message == "Blocked by security filter: "@ + url@,
    {
        let ghost old_v = self@;
        let i = self.active_index();
        self.tabs[i].pending_url = None;
        self.is_loading = false;
        self.status = StatusPayload::warning(String::from_str("Blocked by security filter: ").concat(url.as_str()));
        proof {
            lemma_replace_same_id(old_v.tabs, old_v.active_tab_id, old_v.next_tab_id, i as int, self@.tabs[i as int]);
            assert(self@.tabs =~= old_v.tabs.update(i as int, self@.tabs[i as int]));
        }
    }

    /// The page in the content view changed its title; a blank title shows as
    /// `Untitled page`.
    pub fn handle_title_changed(&mut self, title: String)
        requires
            shell_wf(old(self)@),
        ensures
            only_active_tab_changed(old(self)@, final(self)@),
            ({
                let o = active_tab_of(old(self)@);
                let n = active_tab_of(final(self)@);
                &&& n.title@ == (if trim(title@).len() == 0 { "Untitled page"@ } else { title@ })
                &&& n.address_input == o.address_input
                &&& n.current_url == o.current_url
                &&& n.pending_url == o.pending_url
                &&& n.page_meta == o.page_meta
                &&& n.page_summary == o.page_summary
                &&& n.history == o.history
                &&& n.sections == o.sections
            }),
            final(self)@.is_loading == old(self)@.is_loading,
            final(self)@.status_kind == old(self)@.status_kind,
            final(self)@.status_message == old(self)@.status_message,
    {
        let ghost old_v = self@;
        let i = self.active_index();
        let shown = if crate::text::is_blank(title.as_str()) {
            String::from_str("Untitled page")
        } else {
            title
        };
        self.tabs[i].title = shown;
        proof {
            lemma_replace_same_id(old_v.tabs, old_v.active_tab_id, old_v.next_tab_id, i as int, self@.tabs[i as int]);
            assert(self@.tabs =~= old_v.tabs.update(i as int, self@.tabs[i as int]));
        }
    }

    /// The id of the active tab.
    pub fn active_tab_id(&self) -> (r: u32)
        ensures
            r == self@.active_tab_id,
    {
        self.active_tab_id
    }

    /// Whether the options dialog is open.
    pub fn is_settings_open(&self) -> (r: bool)
        ensures
            r == self@.is_settings_open,
    {
        self.is_settings_open
    }

    /// The number of open tabs.
    pub fn tab_count(&self) -> (r: usize)
        ensures
            r == self@.tabs.len(),
    {
        self.tabs.len()
    }

    /// Opens or closes the options dialog.
    pub fn set_settings_open(&mut self, open: bool)
        ensures
            final(self)@ == (ShellView { is_settings_open: open, ..old(self)@ }),
    {
        self.is_settings_open = open;
    }

    /// Selects a section of the options dialog.
    pub fn select_settings_tab(&mut self, tab: SettingsTab)
        ensures
            final(self)@ == (ShellView { selected_settings_tab: tab, ..old(self)@ }),
    {
        self.selected_settings_tab = tab;
    }

    /// Replaces the status line.
    pub fn set_status(&mut self, status: StatusPayload)
        ensures
            final(self)@ == (ShellView {
                status_kind: status.kind@,
                status_message: status.message@,
                ..old(self)@
            }),
    {
        self.status = status;
    }

    /// The content view is about to reload or move through its history: the
    /// active tab loads the address it shows (else the one it was loading),
    /// and the status shows `message`.
    pub fn mark_reloading(&mut self, message: String)
        requires
            shell_wf(old(self)@),
        ensures
            only_active_tab_changed(old(self)@, final(self)@),
            ({
                let o = active_tab_of(old(self)@);
                let n = active_tab_of(final(self)@);
                &&& opt_chars(n.pending_url) == shown_or_loading(o)
                &&& n.title == o.title
                &&& n.address_input == o.address_input
                &&& n.current_url == o.current_url
                &&& n.page_meta == o.page_meta
                &&& n.page_summary == o.page_summary
                &&& n.history == o.history
                &&& n.sections == o.sections
            }),
            final(self)@.is_loading,
            final(self)@.status_kind == "info"@,
            final(self)@.status_message == message@,
    {
        let ghost old_v = self@;
        let i = self.active_index();
        let pending = match &self.tabs[i].current_url {
            Some(c) => Some(c.clone()),
            None => clone_opt(&self.tabs[i].pending_url),
        };
        self.tabs[i].pending_url = pending;
        self.is_loading = true;
        self.status = StatusPayload::info(message);
        proof {
            lemma_replace_same_id(old_v.tabs, old_v.active_tab_id, old_v.next_tab_id, i as int, self@.tabs[i as int]);
            assert(self@.tabs =~= old_v.tabs.update(i as int, self@.tabs[i as int]));
        }
    }

    /// The blocklist profile was switched to `profile`; `save_error` is why the
    /// settings could not be saved, if they could not. Returns the address the
    /// active tab shows (else the one it was loading), to open again under the
    /// new profile.
    pub fn profile_switched(&mut self, profile: BlocklistProfile, save_error: Option<String>) -> (r: Option<String>)
        requires
            shell_wf(old(self)@),
        ensures
            final(self)@.tabs == old(self)@.tabs,
            final(self)@.active_tab_id == old(self)@.active_tab_id,
            final(self)@.next_tab_id == old(self)@.next_tab_id,
            final(self)@.is_loading == old(self)@.is_loading,
            final(self)@.is_settings_open == old(self)@.is_settings_open,
            final(self)@.selected_settings_tab == old(self)@.selected_settings_tab,
            final(self)@.selected_profile == profile_name(profile),
            match save_error {
                None => final(self)@.status_kind == "success"@ && final(self)@.status_message
                    == "Blocklist profile switched to "@ + profile_name(profile) + "."@,
                Some(e) => final(self)@.status_kind == "warning"@ && final(self)@.status_message
                    == "Profile changed to "@ + profile_name(profile)
                    + ", but settings could not be saved: "@ + e@,
            },
            opt_chars(r) == shown_or_loading(active_tab_of(old(self)@)),
    {
        let name = profile.as_str();
        self.selected_profile = String::from_str(name);
        self.status = match save_error {
            None => StatusPayload::success(
                String::from_str("Blocklist profile switched to ").concat(name).concat("."),
            ),
            Some(e) => StatusPayload::warning(
                String::from_str("Profile changed to ").concat(name).concat(
                    ", but settings could not be saved: ",
                ).concat(e.as_str()),
            ),
        };
        let active = self.active_tab();
        match &active.current_url {
            Some(c) => Some(c.clone()),
            None => clone_opt(&active.pending_url),
        }
    }

    /// Switching the blocklist profile failed with `error`: the status warns,
    /// and everything else stays as it was.
    pub fn profile_switch_failed(&mut self, error: String)
        ensures
            final(self)@ == (ShellView {
                status_kind: "warning"@,
                status_message: "Failed to switch profile: "@ + error@,
                ..old(self)@
            }),
    {
        self.status = StatusPayload::warning(
            String::from_str("Failed to switch profile: ").concat(error.as_str()),
        );
    }

    /// Shows the active tab again: loading stops, and the content view loads
    /// the tab's address, or shows the placeholder where it has none.
    pub fn restore_active_tab_view(&mut self) -> (r: ContentAction)
        requires
            shell_wf(old(self)@),
        ensures
            final(self)@ == (ShellView { is_loading: false, ..old(self)@ }),
            restores(r, active_tab_of(old(self)@)),
    {
        self.is_loading = false;
        let active = self.active_tab();
        match &active.current_url {
            Some(c) => ContentAction::LoadUrl(c.clone()),
            None => match &active.pending_url {
                Some(p) => ContentAction::LoadUrl(p.clone()),
                None => ContentAction::ShowPlaceholder,
            },
        }
    }

    /// Opens a fresh tab and makes it active; returns its id.
    pub fn create_tab_and_activate(&mut self) -> (r: u32)
        requires
            shell_wf(old(self)@),
            old(self)@.next_tab_id < u32::MAX,
        ensures
            shell_wf(final(self)@),
            r == old(self)@.next_tab_id,
            opens_tab(old(self)@, final(self)@),
    {
        let tab_id = self.create_tab();
        self.active_tab_id = tab_id;
        self.is_loading = false;
        self.status = StatusPayload::info(String::from_str("Opened a new tab."));
        assert(self@.tabs[self@.tabs.len() - 1].id == tab_id);
        tab_id
    }

    /// Closes tab `tab_id`, unless it is the only tab or there is no such tab
    /// (then nothing changes and `None` comes back). Closing the active tab
    /// activates the tab before it (the first tab, where it was first) and
    /// shows that tab again.
    pub fn close_tab(&mut self, tab_id: u32) -> (r: Option<ContentAction>)
        requires
            shell_wf(old(self)@),
        ensures
            shell_wf(final(self)@),
            closes_tab(old(self)@, final(self)@, tab_id, r),
    {
        let ghost old_v = self@;
        if self.tabs.len() == 1 {
            return None;
        }
        let was_active = self.active_tab_id == tab_id;
        let index = match self.find_tab(tab_id) {
            Some(i) => i,
            None => return None,
        };
        let ghost a = tab_index(old_v.tabs, old_v.active_tab_id);
        self.tabs.remove(index);
        proof {
            let t = self@.tabs;
            assert forall|i: int, j: int|
                0 <= i < t.len() && 0 <= j < t.len() && i != j implies #[trigger] t[i].id
                != #[trigger] t[j].id by {
                let oi = if i < index { i } else { i + 1 };
                let oj = if j < index { j } else { j + 1 };
                assert(t[i] == old_v.tabs[oi]);
                assert(t[j] == old_v.tabs[oj]);
            }
            assert forall|i: int| 0 <= i < t.len() implies #[trigger] t[i].id < self@.next_tab_id by {
                let oi = if i < index { i } else { i + 1 };
                assert(t[i] == old_v.tabs[oi]);
            }
        }
        let action = if was_active {
            let fallback = if index == 0 { 0 } else { index - 1 };
            self.active_tab_id = self.tabs[fallback].id;
            proof {
                lemma_tab_index(self@.tabs, self@.active_tab_id, self@.next_tab_id, fallback as int);
            }
            self.restore_active_tab_view()
        } else {
            proof {
                let na = if a < index { a } else { a - 1 };
                assert(a != index);
                assert(self@.tabs[na] == old_v.tabs[a]);
            }
            ContentAction::Keep
        };
        self.status = StatusPayload::info(String::from_str("Tab closed."));
        Some(action)
    }

    /// Makes tab `tab_id` active and shows it again, unless it is already
    /// active or there is no such tab (then nothing changes and `None` comes back).
    pub fn switch_tab(&mut self, tab_id: u32) -> (r: Option<ContentAction>)
        requires
            shell_wf(old(self)@),
        ensures
            shell_wf(final(self)@),
            switches_tab(old(self)@, final(self)@, tab_id, r),
    {
        if self.active_tab_id == tab_id {
            return None;
        }
        let index = match self.find_tab(tab_id) {
            Some(i) => i,
            None => return None,
        };
        self.active_tab_id = tab_id;
        let action = self.restore_active_tab_view();
        self.status = StatusPayload::info(String::from_str("Switched tab."));
        Some(action)
    }

    /// Applies a user action to the state and says what else must happen;
    /// `has_content_view` tells whether the page view exists yet (reload and
    /// history moves need it).
    pub fn handle_ui_action(&mut self, action: BrowserShellUiAction, has_content_view: bool) -> (r: ShellCommand)
        requires
            shell_wf(old(self)@),
            action is NewTab ==> old(self)@.next_tab_id < u32::MAX,
        ensures
            shell_wf(final(self)@),
            match action {
                BrowserShellUiAction::Navigate(url) => r matches ShellCommand::Navigate(u) && u@ == url@
                    && final(self)@ == old(self)@,
                BrowserShellUiAction::Back => if has_content_view {
                    r matches ShellCommand::RunScript(s) && s@ == "history.back();"@
                        && final(self)@.status_message == "Navigating back..."@
                        && final(self)@.is_loading
                        && only_active_tab_changed(old(self)@, final(self)@)
                        && opt_chars(active_tab_of(final(self)@).pending_url) == shown_or_loading(active_tab_of(old(self)@))
                } else {
                    r is Nothing && final(self)@ == old(self)@
                },
                BrowserShellUiAction::Forward => if has_content_view {
                    r matches ShellCommand::RunScript(s) && s@ == "history.forward();"@
                        && final(self)@.status_message == "Navigating forward..."@
                        && final(self)@.is_loading
                        && only_active_tab_changed(old(self)@, final(self)@)
                        && opt_chars(active_tab_of(final(self)@).pending_url) == shown_or_loading(active_tab_of(old(self)@))
                } else {
                    r is Nothing && final(self)@ == old(self)@
                },
                BrowserShellUiAction::Reload => if has_content_view {
                    r is Reload && final(self)@.status_message == "Reloading page..."@
                        && final(self)@.is_loading
                        && only_active_tab_changed(old(self)@, final(self)@)
                        && opt_chars(active_tab_of(final(self)@).pending_url) == shown_or_loading(active_tab_of(old(self)@))
                } else {
                    r is Nothing && final(self)@ == old(self)@
                },
                BrowserShellUiAction::ToggleOptions => r is Relayout && final(self)@ == (ShellView {
                    is_settings_open: !old(self)@.is_settings_open,
                    ..old(self)@
                }),
                BrowserShellUiAction::CloseOptions => r is Relayout && final(self)@ == (ShellView {
                    is_settings_open: false,
                    ..old(self)@
                }),
                BrowserShellUiAction::SelectProfile(p) => final(self)@ == old(self)@ && match profile_of_command(p@) {
                    Some(profile) => if profile_name(profile) == old(self)@.selected_profile {
                        r is Nothing
                    } else {
                        r matches ShellCommand::ChangeProfile(q) && q == profile
                    },
                    None => r is Nothing,
                },
                BrowserShellUiAction::SelectSettingsTab(t) => match settings_tab_of(t@) {
                    Some(tab) => r is Sync && final(self)@ == (ShellView { selected_settings_tab: tab, ..old(self)@ }),
                    None => r is Nothing && final(self)@ == old(self)@,
                },
                BrowserShellUiAction::NewTab => r matches ShellCommand::ShowContent(a) && a is ShowPlaceholder
                    && opens_tab(old(self)@, final(self)@),
                BrowserShellUiAction::CloseTab(id) => exists|o: Option<ContentAction>|
                    closes_tab(old(self)@, final(self)@, id, o) && command_of(o, r),
                BrowserShellUiAction::SwitchTab(id) => exists|o: Option<ContentAction>|
                    switches_tab(old(self)@, final(self)@, id, o) && command_of(o, r),
                BrowserShellUiAction::MinimizeWindow => r is MinimizeWindow && final(self)@ == old(self)@,
                BrowserShellUiAction::MaximizeWindow => r is ToggleMaximizeWindow && final(self)@ == old(self)@,
                BrowserShellUiAction::CloseWindow => r is CloseWindow && final(self)@ == old(self)@,
            },
    {
        match action {
            BrowserShellUiAction::Navigate(url) => ShellCommand::Navigate(url),
            BrowserShellUiAction::Back => {
                if !has_content_view {
                    return ShellCommand::Nothing;
                }
                self.mark_reloading(String::from_str("Navigating back..."));
                ShellCommand::RunScript("history.back();")
            },
            BrowserShellUiAction::Forward => {
                if !has_content_view {
                    return ShellCommand::Nothing;
                }
                self.mark_reloading(String::from_str("Navigating forward..."));
                ShellCommand::RunScript("history.forward();")
            },
            BrowserShellUiAction::Reload => {
                if !has_content_view {
                    return ShellCommand::Nothing;
                }
                self.mark_reloading(String::from_str("Reloading page..."));
                ShellCommand::Reload
            },
            BrowserShellUiAction::ToggleOptions => {
                let open = self.is_settings_open;
                self.set_settings_open(!open);
                ShellCommand::Relayout
            },
            BrowserShellUiAction::CloseOptions => {
                self.set_settings_open(false);
                ShellCommand::Relayout
            },
            BrowserShellUiAction::SelectProfile(profile) => {
                match BlocklistProfile::from_command(profile.as_str()) {
                    Some(p) => if str_eq(self.selected_profile.as_str(), p.as_str()) {
                        ShellCommand::Nothing
                    } else {
                        ShellCommand::ChangeProfile(p)
                    },
                    None => ShellCommand::Nothing,
                }
            },
            BrowserShellUiAction::SelectSettingsTab(tab) => {
                match SettingsTab::from_command(tab.as_str()) {
                    Some(t) => {
                        self.select_settings_tab(t);
                        ShellCommand::Sync
                    },
                    None => ShellCommand::Nothing,
                }
            },
            BrowserShellUiAction::NewTab => {
                self.create_tab_and_activate();
                ShellCommand::ShowContent(ContentAction::ShowPlaceholder)
            },
            BrowserShellUiAction::CloseTab(tab_id) => {
                let ghost before = self@;
                let outcome = self.close_tab(tab_id);
                let ghost witness = outcome;
                let c = match outcome {
                    Some(a) => ShellCommand::ShowContent(a),
                    None => ShellCommand::Nothing,
                };
                assert(closes_tab(before, self@, tab_id, witness) && command_of(witness, c));
                c
            },
            BrowserShellUiAction::SwitchTab(tab_id) => {
                let ghost before = self@;
                let outcome = self.switch_tab(tab_id);
                let ghost witness = outcome;
                let c = match outcome {
                    Some(a) => ShellCommand::ShowContent(a),
                    None => ShellCommand::Nothing,
                };
                assert(switches_tab(before, self@, tab_id, witness) && command_of(witness, c));
                c
            },
            BrowserShellUiAction::MinimizeWindow => ShellCommand::MinimizeWindow,
            BrowserShellUiAction::MaximizeWindow => ShellCommand::ToggleMaximizeWindow,
            BrowserShellUiAction::CloseWindow => ShellCommand::CloseWindow,
        }
    }

    fn find_tab(&self, tab_id: u32) -> (r: Option<usize>)
        requires
            shell_wf(self@),
        ensures
            match r {
                Some(i) => i < self@.tabs.len() && self@.tabs[i as int].id == tab_id && i
                    == tab_index(self@.tabs, tab_id),
                None => !has_tab(self@.tabs, tab_id),
            },
    {
        let mut i: usize = 0;
        while i < self.tabs.len()
            invariant
                i <= self.tabs.len(),
                self.tabs@ == self@.tabs,
                shell_wf(self@),
                forall|j: int| 0 <= j < i ==> self@.tabs[j].id != tab_id,
            decreases self.tabs.len() - i,
        {
            if self.tabs[i].id == tab_id {
                proof {
                    lemma_tab_index(self@.tabs, self@.active_tab_id, self@.next_tab_id, i as int);
                }
                return Some(i);
            }
            i = i + 1;
        }
        None
    }

    /// A page preview arrived for `url` in tab `tab_id`. Where that tab still
    /// loads or shows `url`, it takes the preview's title, source line,
    /// summary and first six sections. Returns whether the active tab changed.
    pub fn handle_preview_loaded(&mut self, tab_id: u32, url: String, page: Page) -> (r: bool)
        requires
            shell_wf(old(self)@),
        ensures
            shell_wf(final(self)@),
            if !preview_applies(old(self)@, tab_id, url@) {
                final(self)@ == old(self)@ && !r
            } else {
                let k = tab_index(old(self)@.tabs, tab_id);
                let o = old(self)@.tabs[k];
                let n = final(self)@.tabs[k];
                &&& final(self)@ == (ShellView { tabs: old(self)@.tabs.update(k, n), ..old(self)@ })
                &&& n.id == o.id
                &&& n.title@ == page.title@
                &&& n.page_meta@ == "Preview source: "@ + page.url@ + " | HTTP "@ + page.status@
                &&& n.page_summary@ == page.summary@
                &&& sections_preview(n.sections@, page.sections@)
                &&& n.address_input == o.address_input
                &&& n.current_url == o.current_url
                &&& n.pending_url == o.pending_url
                &&& n.history == o.history
                &&& r == (old(self)@.active_tab_id == tab_id)
            },
    {
        let ghost old_v = self@;
        let i = match self.find_tab(tab_id) {
            Some(i) => i,
            None => return false,
        };
        if !self.tab_awaits(i, &url) {
            return false;
        }
        let mut sections: Vec<SectionPayload> = Vec::new();
        let mut j: usize = 0;
        while j < page.sections.len() && j < 6
            invariant
                j <= page.sections@.len(),
                j <= 6,
                sections@.len() == j,
                forall|m: int|
                    #![trigger sections@[m]]
                    0 <= m < j ==> sections@[m].heading@ == page.sections@[m].heading@
                        && sections@[m].body@ == page.sections@[m].body@,
            decreases page.sections.len() - j,
        {
            let s = &page.sections[j];
            sections.push(SectionPayload { heading: s.heading.clone(), body: s.body.clone() });
            j = j + 1;
        }
        self.tabs[i].title = page.title.clone();
        self.tabs[i].page_meta = String::from_str("Preview source: ").concat(page.url.as_str()).concat(
            " | HTTP ",
        ).concat(page.status.as_str());
        self.tabs[i].page_summary = page.summary.clone();
        self.tabs[i].sections = sections;
        proof {
            lemma_replace_same_id(old_v.tabs, old_v.active_tab_id, old_v.next_tab_id, i as int, self@.tabs[i as int]);
            assert(self@.tabs =~= old_v.tabs.update(i as int, self@.tabs[i as int]));
        }
        self.active_tab_id == tab_id
    }

    /// Reading a page preview for `url` in tab `tab_id` failed. Where that tab
    /// still loads or shows `url`, its summary reports the error and its
    /// sections are cleared; if it is the active tab and still loading, the
    /// status warns. Returns whether the active tab changed.
    pub fn handle_preview_failed(&mut self, tab_id: u32, url: String, error: String) -> (r: bool)
        requires
            shell_wf(old(self)@),
        ensures
            shell_wf(final(self)@),
            if !preview_applies(old(self)@, tab_id, url@) {
                final(self)@ == old(self)@ && !r
            } else {
                let k = tab_index(old(self)@.tabs, tab_id);
                let o = old(self)@.tabs[k];
                let n = final(self)@.tabs[k];
                let warn = old(self)@.active_tab_id == tab_id && old(self)@.is_loading;
                &&& final(self)@.tabs == old(self)@.tabs.update(k, n)
                &&& final(self)@.active_tab_id == old(self)@.active_tab_id
                &&& final(self)@.next_tab_id == old(self)@.next_tab_id
                &&& final(self)@.is_loading == old(self)@.is_loading
                &&& final(self)@.is_settings_open == old(self)@.is_settings_open
                &&& final(self)@.selected_settings_tab == old(self)@.selected_settings_tab
                &&& final(self)@.selected_profile == old(self)@.selected_profile
                &&& final(self)@.status_kind == (if warn { "warning"@ } else { old(self)@.status_kind })
                &&& final(self)@.status_message == (if warn {
                    "The page is loading, but the readable preview failed."@
                } else {
                    old(self)@.status_message
                })
                &&& n.id == o.id
                &&& n.title == o.title
                &&& n.page_meta == o.page_meta
                &&& n.page_summary@ == "Readable preview could not be extracted: "@ + error@
                &&& n.sections@.len() == 0
                &&& n.address_input == o.address_input
                &&& n.current_url == o.current_url
                &&& n.pending_url == o.pending_url
                &&& n.history == o.history
                &&& r == (old(self)@.active_tab_id == tab_id)
            },
    {
        let ghost old_v = self@;
        let i = match self.find_tab(tab_id) {
            Some(i) => i,
            None => return false,
        };
        if !self.tab_awaits(i, &url) {
            return false;
        }
        self.tabs[i].page_summary = String::from_str("Readable preview could not be extracted: ").concat(
            error.as_str(),
        );
        self.tabs[i].sections = Vec::new();
        if self.active_tab_id == tab_id && self.is_loading {
            self.status = StatusPayload::warning(
                String::from_str("The page is loading, but the readable preview failed."),
            );
        }
        proof {
            lemma_replace_same_id(old_v.tabs, old_v.active_tab_id, old_v.next_tab_id, i as int, self@.tabs[i as int]);
            assert(self@.tabs =~= old_v.tabs.update(i as int, self@.tabs[i as int]));
        }
        self.active_tab_id == tab_id
    }

    fn tab_awaits(&self, i: usize, url: &String) -> (r: bool)
        requires
            i < self@.tabs.len(),
        ensures
            r == (loading_or_shown(self@.tabs[i as int]) == Some(url@)),
    {
        let tab = &self.tabs[i];
        match &tab.pending_url {
            Some(p) => str_eq(p.as_str(), url.as_str()),
            None => match &tab.current_url {
                Some(c) => str_eq(c.as_str(), url.as_str()),
                None => false,
            },
        }
    }

    /// Opens a fresh tab after the others and returns its id; the active tab
    /// stays as it was.
    pub fn create_tab(&mut self) -> (r: u32)
        requires
            shell_wf(old(self)@),
            old(self)@.next_tab_id < u32::MAX,
        ensures
            shell_wf(final(self)@),
            r == old(self)@.next_tab_id,
            final(self)@.next_tab_id == old(self)@.next_tab_id + 1,
            final(self)@.tabs.len() == old(self)@.tabs.len() + 1,
            final(self)@.tabs.take(old(self)@.tabs.len() as int) == old(self)@.tabs,
            is_fresh_tab(final(self)@.tabs.last(), r),
            final(self)@.active_tab_id == old(self)@.active_tab_id,
            final(self)@.is_loading == old(self)@.is_loading,
            final(self)@.is_settings_open == old(self)@.is_settings_open,
            final(self)@.selected_settings_tab == old(self)@.selected_settings_tab,
            final(self)@.selected_profile == old(self)@.selected_profile,
            final(self)@.status_kind == old(self)@.status_kind,
            final(self)@.status_message == old(self)@.status_message,
    {
        let tab_id = self.next_tab_id;
        self.next_tab_id = self.next_tab_id + 1;
        self.tabs.push(BrowserTab::new(tab_id));
        assert(self@.tabs.take(old(self)@.tabs.len() as int) =~= old(self)@.tabs);
        let ghost t = self@.tabs;
        let ghost n = old(self)@.tabs.len();
        assert forall|i: int| 0 <= i < t.len() implies #[trigger] t[i].id < self@.next_tab_id by {
            if i < n {
                assert(t[i] == old(self)@.tabs[i]);
            }
        }
        assert forall|i: int, j: int|
            0 <= i < t.len() && 0 <= j < t.len() && i != j implies #[trigger] t[i].id
            != #[trigger] t[j].id by {
            if i < n && j < n {
                assert(t[i] == old(self)@.tabs[i]);
                assert(t[j] == old(self)@.tabs[j]);
            } else if i < n {
                assert(t[i] == old(self)@.tabs[i]);
            } else if j < n {
                assert(t[j] == old(self)@.tabs[j]);
            }
        }
        let ghost k = tab_index(old(self)@.tabs, old(self)@.active_tab_id);
        assert(t[k] == old(self)@.tabs[k]);
        tab_id
    }
}

/// Replacing a tab by one with the same id keeps the tab list well formed and
/// every tab at its position.
pub proof fn lemma_replace_same_id(tabs: Seq<BrowserTab>, active: u32, next: u32, i: int, t: BrowserTab)
    requires
        tabs_wf(tabs, active, next),
        0 <= i < tabs.len(),
        t.id == tabs[i].id,
    ensures
        tabs_wf(tabs.update(i, t), active, next),
        tab_index(tabs.update(i, t), active) == tab_index(tabs, active),
{
    let u = tabs.update(i, t);
    assert forall|a: int, b: int|
        0 <= a < u.len() && 0 <= b < u.len() && a != b implies #[trigger] u[a].id
        != #[trigger] u[b].id by {
        assert(tabs[a].id == u[a].id && tabs[b].id == u[b].id);
    }
    assert forall|a: int| 0 <= a < u.len() implies #[trigger] u[a].id < next by {
        assert(tabs[a].id == u[a].id);
    }
    let k = tab_index(tabs, active);
    assert(u[k].id == active);
    let k2 = tab_index(u, active);
    assert(u[k2].id == active);
    assert(tabs[k2].id == active);
}

/// Between `old` and `new` only the active tab changed, keeping its id, and
/// the tab list, settings and profile are as they were.
pub open spec fn only_active_tab_changed(old: ShellView, new: ShellView) -> bool {
    let k = tab_index(old.tabs, old.active_tab_id);
    &&& shell_wf(new)
    &&& new.tabs.len() == old.tabs.len()
    &&& forall|j: int| #![trigger new.tabs[j]] 0 <= j < new.tabs.len() && j != k ==> new.tabs[j] == old.tabs[j]
    &&& new.tabs[k].id == old.tabs[k].id
    &&& tab_index(new.tabs, new.active_tab_id) == k
    &&& new.active_tab_id == old.active_tab_id
    &&& new.next_tab_id == old.next_tab_id
    &&& new.is_settings_open == old.is_settings_open
    &&& new.selected_settings_tab == old.selected_settings_tab
    &&& new.selected_profile == old.selected_profile
}

/// The address a tab is loading, else the one it shows.
pub open spec fn loading_or_shown(t: BrowserTab) -> Option<Seq<char>> {
    match opt_chars(t.pending_url) {
        Some(p) => Some(p),
        None => opt_chars(t.current_url),
    }
}

/// The address a tab shows, else the one it is loading.
pub open spec fn shown_or_loading(t: BrowserTab) -> Option<Seq<char>> {
    match opt_chars(t.current_url) {
        Some(c) => Some(c),
        None => opt_chars(t.pending_url),
    }
}

/// What the content area shows after a tab change.
pub enum ContentAction {
    /// The content area stays as it is.
    Keep,
    /// The content area loads this address.
    LoadUrl(String),
    /// The content area shows the placeholder page.
    ShowPlaceholder,
}

/// What the shell's host must do after a user action was applied to the state.
pub enum ShellCommand {
    /// Nothing changed.
    Nothing,
    /// The state changed; show it.
    Sync,
    /// The options panel opened or closed: lay the content view out again and show the state.
    Relayout,
    /// Check `url` against the URL policy and navigate to it or report the block.
    Navigate(String),
    /// The state shows the content view reloading; reload it.
    Reload,
    /// The state shows the content view moving through its history; run this script in it.
    RunScript(&'static str),
    /// Switch the blocklist to this profile, which is not the one in use.
    ChangeProfile(BlocklistProfile),
    /// The tabs changed; show the state and put this in the content view.
    ShowContent(ContentAction),
    /// Minimize the window.
    MinimizeWindow,
    /// Maximize the window, or restore it where it is maximized.
    ToggleMaximizeWindow,
    /// Close the window and end the event loop.
    CloseWindow,
}

/// Closing tab `tab_id` took state `o` to `n` with outcome `r`: nothing
/// happens to the only tab or a missing one; otherwise the tab is removed, and
/// if it was active the tab before it (the first, where it was first) becomes
/// active and is shown again.
pub open spec fn closes_tab(o: ShellView, n: ShellView, tab_id: u32, r: Option<ContentAction>) -> bool {
    if o.tabs.len() == 1 || !has_tab(o.tabs, tab_id) {
        r is None && n == o
    } else {
        let k = tab_index(o.tabs, tab_id);
        let f = if k == 0 { 0 } else { k - 1 };
        &&& n.tabs == o.tabs.remove(k)
        &&& n.next_tab_id == o.next_tab_id
        &&& n.status_kind == "info"@
        &&& n.status_message == "Tab closed."@
        &&& n.is_settings_open == o.is_settings_open
        &&& n.selected_settings_tab == o.selected_settings_tab
        &&& n.selected_profile == o.selected_profile
        &&& r matches Some(action) && if o.active_tab_id == tab_id {
            &&& n.active_tab_id == n.tabs[f].id
            &&& !n.is_loading
            &&& restores(action, n.tabs[f])
        } else {
            &&& n.active_tab_id == o.active_tab_id
            &&& n.is_loading == o.is_loading
            &&& action is Keep
        }
    }
}

/// Switching to tab `tab_id` took state `o` to `n` with outcome `r`: nothing
/// happens for the active tab or a missing one; otherwise it becomes active,
/// loading stops, and it is shown again.
pub open spec fn switches_tab(o: ShellView, n: ShellView, tab_id: u32, r: Option<ContentAction>) -> bool {
    if o.active_tab_id == tab_id || !has_tab(o.tabs, tab_id) {
        r is None && n == o
    } else {
        &&& n.tabs == o.tabs
        &&& n.active_tab_id == tab_id
        &&& n.next_tab_id == o.next_tab_id
        &&& !n.is_loading
        &&& n.is_settings_open == o.is_settings_open
        &&& n.selected_settings_tab == o.selected_settings_tab
        &&& n.selected_profile == o.selected_profile
        &&& n.status_kind == "info"@
        &&& n.status_message == "Switched tab."@
        &&& r matches Some(action) && restores(action, o.tabs[tab_index(o.tabs, tab_id)])
    }
}

/// The outcome of a tab change as a command: nothing where nothing happened,
/// else show the state and the content action.
pub open spec fn command_of(r: Option<ContentAction>, c: ShellCommand) -> bool {
    match r {
        None => c is Nothing,
        Some(a) => c matches ShellCommand::ShowContent(b) && b == a,
    }
}

/// Opening a new tab took state `o` to `n`: a fresh tab with the next id is
/// added after the others and becomes active, and loading stops.
pub open spec fn opens_tab(o: ShellView, n: ShellView) -> bool {
    &&& n.tabs.len() == o.tabs.len() + 1
    &&& n.tabs.take(o.tabs.len() as int) == o.tabs
    &&& is_fresh_tab(n.tabs.last(), o.next_tab_id)
    &&& n.active_tab_id == o.next_tab_id
    &&& n.next_tab_id == o.next_tab_id + 1
    &&& !n.is_loading
    &&& n.is_settings_open == o.is_settings_open
    &&& n.selected_settings_tab == o.selected_settings_tab
    &&& n.selected_profile == o.selected_profile
    &&& n.status_kind == "info"@
    &&& n.status_message == "Opened a new tab."@
}

/// The content action that shows a tab again: its address, else the placeholder.
pub open spec fn restores(a: ContentAction, t: BrowserTab) -> bool {
    match shown_or_loading(t) {
        Some(u) => a matches ContentAction::LoadUrl(l) && l@ == u,
        None => a is ShowPlaceholder,
    }
}

/// Some tab has id `id`.
pub open spec fn has_tab(tabs: Seq<BrowserTab>, id: u32) -> bool {
    exists|j: int| 0 <= j < tabs.len() && tabs[j].id == id
}

/// A preview for `url` in tab `tab_id` still concerns that tab: the tab
/// exists and loads, or else shows, `url`.
pub open spec fn preview_applies(v: ShellView, tab_id: u32, url: Seq<char>) -> bool {
    has_tab(v.tabs, tab_id) && loading_or_shown(v.tabs[tab_index(v.tabs, tab_id)]) == Some(url)
}

/// A preview for `url` goes to the tab it was fetched for while that tab is
/// loading `url`, whatever address the tab still shows; it never goes to a
/// tab that is loading another address; and a tab that is loading nothing
/// takes it only where it shows `url`. A tab that does not exist takes none.
pub proof fn lemma_preview_goes_to_loading_tab(v: ShellView, k: int, tab_id: u32, url: Seq<char>)
    requires
        shell_wf(v),
        0 <= k < v.tabs.len(),
    ensures
        v.tabs[k].pending_url matches Some(p) ==> preview_applies(v, v.tabs[k].id, url) == (p@
            == url),
        v.tabs[k].pending_url is None ==> preview_applies(v, v.tabs[k].id, url) == (
        v.tabs[k].current_url matches Some(c) && c@ == url),
        !has_tab(v.tabs, tab_id) ==> !preview_applies(v, tab_id, url),
{
    lemma_tab_index(v.tabs, v.active_tab_id, v.next_tab_id, k);
    assert(has_tab(v.tabs, v.tabs[k].id));
}

/// Each tab is listed, in the snapshot and in the view model's input, under
/// its loaded address while it has one, even while another is loading; a tab
/// with no loaded address under the one it is loading; a tab with neither
/// under `about:blank`.
pub proof fn lemma_tabs_listed_by_loaded_address(
    s: ShellStateSnapshot,
    input: BrowserShellStateInput,
    v: ShellView,
    j: int,
)
    requires
        snapshot_of(s, v),
        input_of(input, v),
        0 <= j < v.tabs.len(),
    ensures
        v.tabs[j].current_url matches Some(c) ==> s.tabs@[j].url@ == c@ && input.tabs@[j].url@ == c@,
        v.tabs[j].current_url is None ==> match v.tabs[j].pending_url {
            Some(p) => s.tabs@[j].url@ == p@ && input.tabs@[j].url@ == p@,
            None => s.tabs@[j].url@ == "about:blank"@ && input.tabs@[j].url@ == "about:blank"@,
        },
{
    assert(s.tabs@[j].url@ == shown_url(v.tabs[j].current_url, v.tabs[j].pending_url));
    assert(input.tabs@[j].url@ == shown_url(v.tabs[j].current_url, v.tabs[j].pending_url));
}

/// `kept` holds the first (at most six) sections of `all`.
pub open spec fn sections_preview(kept: Seq<SectionPayload>, all: Seq<PageSection>) -> bool {
    &&& kept.len() == if all.len() < 6 { all.len() } else { 6 }
    &&& forall|m: int|
        #![trigger kept[m]]
        0 <= m < kept.len() ==> kept[m].heading@ == all[m].heading@ && kept[m].body@ == all[m].body@
}

/// Tab ids are never reused: in a well-formed state the id the next new tab
/// gets belongs to no open tab.
pub proof fn lemma_next_tab_id_unused(v: ShellView)
    requires
        shell_wf(v),
    ensures
        !has_tab(v.tabs, v.next_tab_id),
{
    if has_tab(v.tabs, v.next_tab_id) {
        let j = choose|j: int| 0 <= j < v.tabs.len() && v.tabs[j].id == v.next_tab_id;
        assert(v.tabs[j].id < v.next_tab_id);
    }
}

/// The window always marks exactly one tab active: for a well-formed state,
/// the view model computed from its runtime input has one tab marked active,
/// the active tab's, at its position.
pub proof fn lemma_one_active_tab_shown(
    v: ShellView,
    input: BrowserShellStateInput,
    vm: BrowserShellViewModel,
)
    requires
        shell_wf(v),
        input_of(input, v),
        shows(vm, input),
    ensures
        vm.tabs@[tab_index(v.tabs, v.active_tab_id)].is_active,
        forall|j: int|
            0 <= j < vm.tabs@.len() && vm.tabs@[j].is_active ==> j == tab_index(v.tabs, v.active_tab_id),
{
    let k = tab_index(v.tabs, v.active_tab_id);
    assert(input.tabs@[k].id == v.tabs[k].id);
    assert forall|j: int|
        0 <= j < vm.tabs@.len() && vm.tabs@[j].is_active implies j == k by {
        assert(input.tabs@[j].id == v.tabs[j].id);
        assert(v.tabs[j].id == v.active_tab_id);
        if j != k {
            assert(v.tabs[j].id != v.tabs[k].id);
        }
    }
}

/// A tab's history never records the same address twice in a row: finishing
/// a navigation keeps that so.
pub proof fn lemma_finished_history_no_repeats(h: Seq<Seq<char>>, url: Seq<char>)
    requires
        crate::browser::no_repeats(h),
    ensures
        crate::browser::no_repeats(
            if h.len() > 0 && h.last() == url {
                h
            } else {
                h.push(url)
            },
        ),
{
    let n = h.push(url);
    if !(h.len() > 0 && h.last() == url) {
        assert forall|i: int| 0 <= i < n.len() - 1 implies #[trigger] n[i] != n[i + 1] by {
            if i < h.len() - 1 {
                assert(n[i] == h[i] && n[i + 1] == h[i + 1]);
            }
        }
    }
}

} // verus!
