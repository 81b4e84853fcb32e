//! The browser shell's view model: what the window shows, computed from the
//! runtime state, and the queue of user actions waiting to be handled.

use vstd::prelude::*;
use crate::text::{is_blank, join, join_strings, string_views, trim};

verus! {

/// Everything the shell window shows.
#[derive(Clone, Debug, PartialEq, Eq)]
pub struct BrowserShellViewModel {
    pub window_title: String,
    pub tabs: Vec<BrowserTabViewModel>,
    pub toolbar: ToolbarViewModel,
    pub options_dialog: OptionsDialogViewModel,
    pub status: StatusViewModel,
}

/// One tab in the tab strip.
#[derive(Clone, Debug, PartialEq, Eq)]
pub struct BrowserTabViewModel {
    pub id: u32,
    pub title: String,
    pub url: String,
    pub is_active: bool,
}

/// The toolbar: address bar and the active tab's page.
#[derive(Clone, Debug, PartialEq, Eq)]
pub struct ToolbarViewModel {
    pub address_value: String,
    pub is_loading: bool,
    pub can_interact: bool,
    pub active_tab_title: String,
    pub active_tab_url: String,
}

/// The options dialog: settings, page details, history and page preview.
#[derive(Clone, Debug, PartialEq, Eq)]
pub struct OptionsDialogViewModel {
    pub is_open: bool,
    pub active_section: String,
    pub selected_profile: String,
    pub page_title: String,
    pub current_url: String,
    pub page_meta: String,
    pub page_summary: String,
    pub history: Vec<String>,
    pub preview_sections: Vec<PreviewSectionViewModel>,
    pub history_text: String,
    pub preview_text: String,
}

/// One section of the readable page preview.
#[derive(Clone, Debug, PartialEq, Eq)]
pub struct PreviewSectionViewModel {
    pub heading: String,
    pub body: String,
}

/// The status line.
#[derive(Clone, Debug, PartialEq, Eq)]
pub struct StatusViewModel {
    pub kind: String,
    pub message: String,
}

/// The runtime state the view model is computed from.
#[derive(Clone, Debug, PartialEq, Eq)]
pub struct BrowserShellStateInput {
    pub tabs: Vec<TabStateInput>,
    pub active_tab_id: u32,
    pub address_input: String,
    pub current_url: Option<String>,
    pub pending_url: Option<String>,
    pub page_title: String,
    pub page_meta: String,
    pub page_summary: String,
    pub history: Vec<String>,
    pub sections: Vec<PreviewSectionInput>,
    pub is_loading: bool,
    pub is_settings_open: bool,
    pub selected_settings_tab: String,
    pub selected_profile: String,
    pub status_kind: String,
    pub status_message: String,
}

/// One open tab in the runtime state.
#[derive(Clone, Debug, PartialEq, Eq)]
pub struct TabStateInput {
    pub id: u32,
    pub title: String,
    pub url: String,
}

/// One preview section in the runtime state.
#[derive(Clone, Debug, PartialEq, Eq)]
pub struct PreviewSectionInput {
    pub heading: String,
    pub body: String,
}

/// A user action on the shell, waiting to be handled.
#[derive(Clone, Debug, PartialEq, Eq)]
pub enum BrowserShellUiAction {
    Navigate(String),
    Back,
    Forward,
    Reload,
    ToggleOptions,
    CloseOptions,
    SelectProfile(String),
    SelectSettingsTab(String),
    NewTab,
    CloseTab(u32),
    SwitchTab(u32),
    MinimizeWindow,
    MaximizeWindow,
    CloseWindow,
}

impl Default for BrowserTabViewModel {
    fn default() -> (r: Self)
        ensures
            r.id == 0,
            r.title@ == Seq::<char>::empty(),
            r.url@ == Seq::<char>::empty(),
            !r.is_active,
    {
        BrowserTabViewModel { id: 0, title: String::new(), url: String::new(), is_active: false }
    }
}

/// The toolbar before any page: empty address bar, not loading, `New Tab`
/// at `about:blank`.
pub open spec fn is_default_toolbar(r: ToolbarViewModel) -> bool {
    &&& r.address_value@ == Seq::<char>::empty()
    &&& !r.is_loading
    &&& r.can_interact
    &&& r.active_tab_title@ == "New Tab"@
    &&& r.active_tab_url@ == "about:blank"@
}

/// The options dialog before any page: closed, on the security section,
/// with the `Normal` profile and placeholder texts.
pub open spec fn is_default_options(r: OptionsDialogViewModel) -> bool {
    &&& !r.is_open
    &&& r.active_section@ == "security"@
    &&& r.selected_profile@ == "Normal"@
    &&& r.page_title@ == "Rust Browser"@
    &&& r.current_url@ == "No page loaded yet."@
    &&& r.page_meta@ == Seq::<char>::empty()
    &&& r.page_summary@
        == "Open a page to fetch a structured summary beside the embedded browser."@
    &&& r.history@.len() == 0
    &&& r.preview_sections@.len() == 0
    &&& r.history_text@ == "History is empty."@
    &&& r.preview_text@ == "No preview sections available for this page yet."@
}

/// The status line before any page.
pub open spec fn is_default_status(r: StatusViewModel) -> bool {
    &&& r.kind@ == "info"@
    &&& r.message@ == "Ready to browse with the embedded WebView2 shell."@
}

/// The whole view before any page: one blank tab and the defaults above.
pub open spec fn is_default_view(r: BrowserShellViewModel) -> bool {
    &&& r.window_title@ == "Rust Browser"@
    &&& r.tabs@.len() == 1
    &&& r.tabs@[0].id == 0
    &&& r.tabs@[0].title@ == Seq::<char>::empty()
    &&& r.tabs@[0].url@ == Seq::<char>::empty()
    &&& !r.tabs@[0].is_active
    &&& is_default_toolbar(r.toolbar)
    &&& is_default_options(r.options_dialog)
    &&& is_default_status(r.status)
}

impl Default for ToolbarViewModel {
    fn default() -> (r: Self)
        ensures
            is_default_toolbar(r),
    {
        ToolbarViewModel {
            address_value: String::new(),
            is_loading: false,
            can_interact: true,
            active_tab_title: String::from_str("New Tab"),
            active_tab_url: String::from_str("about:blank"),
        }
    }
}

impl Default for OptionsDialogViewModel {
    fn default() -> (r: Self)
        ensures
            is_default_options(r),
    {
        OptionsDialogViewModel {
            is_open: false,
            active_section: String::from_str("security"),
            selected_profile: String::from_str("Normal"),
            page_title: String::from_str("Rust Browser"),
            current_url: String::from_str("No page loaded yet."),
            page_meta: String::new(),
            page_summary: String::from_str(
                "Open a page to fetch a structured summary beside the embedded browser.",
            ),
            history: Vec::new(),
            preview_sections: Vec::new(),
            history_text: String::from_str("History is empty."),
            preview_text: String::from_str("No preview sections available for this page yet."),
        }
    }
}

impl Default for StatusViewModel {
    fn default() -> (r: Self)
        ensures
            is_default_status(r),
    {
        StatusViewModel {
            kind: String::from_str("info"),
            message: String::from_str("Ready to browse with the embedded WebView2 shell."),
        }
    }
}

impl Default for BrowserShellViewModel {
    fn default() -> (r: Self)
        ensures
            is_default_view(r),
    {
        let mut tabs: Vec<BrowserTabViewModel> = Vec::new();
        tabs.push(BrowserTabViewModel::default());
        BrowserShellViewModel {
            window_title: String::from_str("Rust Browser"),
            tabs,
            toolbar: ToolbarViewModel::default(),
            options_dialog: OptionsDialogViewModel::default(),
            status: StatusViewModel::default(),
        }
    }
}

/// The address a tab shows: its loaded address, else the one it is loading,
/// else `about:blank`.
pub open spec fn shown_url(current: Option<String>, pending: Option<String>) -> Seq<char> {
    match current {
        Some(u) => u@,
        None => match pending {
            Some(p) => p@,
            None => "about:blank"@,
        },
    }
}

/// The window title for a page title: the page title followed by
/// ` - Rust Browser`, or just `Rust Browser` for a blank page title.
pub open spec fn window_title_for(page_title: Seq<char>) -> Seq<char> {
    if trim(page_title).len() == 0 {
        "Rust Browser"@
    } else {
        page_title + " - Rust Browser"@
    }
}

/// One preview section as text: its heading line then its body, or just the
/// body under a blank heading.
pub open spec fn section_text(heading: Seq<char>, body: Seq<char>) -> Seq<char> {
    if trim(heading).len() == 0 {
        body
    } else {
        heading + seq!['\n'] + body
    }
}

pub open spec fn section_texts(sections: Seq<PreviewSectionInput>) -> Seq<Seq<char>> {
    Seq::new(sections.len(), |i: int| section_text(sections[i].heading@, sections[i].body@))
}

/// The history as text: one address per line, or a note that it is empty.
pub open spec fn history_text_for(history: Seq<Seq<char>>) -> Seq<char> {
    if history.len() == 0 {
        "History is empty."@
    } else {
        join(history, seq!['\n'])
    }
}

/// The preview as text: the sections separated by blank lines, or a note that
/// there are none.
pub open spec fn preview_text_for(sections: Seq<PreviewSectionInput>) -> Seq<char> {
    if sections.len() == 0 {
        "No preview sections available for this page yet."@
    } else {
        join(section_texts(sections), seq!['\n', '\n'])
    }
}

/// The view model that shows `input`.
pub open spec fn shows(vm: BrowserShellViewModel, input: BrowserShellStateInput) -> bool {
    let url = shown_url(input.current_url, input.pending_url);
    &&& vm.window_title@ == window_title_for(input.page_title@)
    &&& vm.tabs@.len() == input.tabs@.len()
    &&& forall|i: int|
        #![trigger vm.tabs@[i]]
        0 <= i < vm.tabs@.len() ==> {
            &&& vm.tabs@[i].id == input.tabs@[i].id
            &&& vm.tabs@[i].title@ == input.tabs@[i].title@
            &&& vm.tabs@[i].url@ == input.tabs@[i].url@
            &&& vm.tabs@[i].is_active == (input.tabs@[i].id == input.active_tab_id)
        }
    &&& vm.toolbar.address_value@ == input.address_input@
    &&& vm.toolbar.is_loading == input.is_loading
    &&& vm.toolbar.can_interact == !input.is_loading
    &&& vm.toolbar.active_tab_title@ == input.page_title@
    &&& vm.toolbar.active_tab_url@ == url
    &&& vm.options_dialog.is_open == input.is_settings_open
    &&& vm.options_dialog.active_section@ == input.selected_settings_tab@
    &&& vm.options_dialog.selected_profile@ == input.selected_profile@
    &&& vm.options_dialog.page_title@ == input.page_title@
    &&& vm.options_dialog.current_url@ == url
    &&& vm.options_dialog.page_meta@ == input.page_meta@
    &&& vm.options_dialog.page_summary@ == input.page_summary@
    &&& string_views(vm.options_dialog.history@) == string_views(input.history@)
    &&& vm.options_dialog.preview_sections@.len() == input.sections@.len()
    &&& forall|i: int|
        #![trigger vm.options_dialog.preview_sections@[i]]
        0 <= i < input.sections@.len() ==> {
            &&& vm.options_dialog.preview_sections@[i].heading@ == input.sections@[i].heading@
            &&& vm.options_dialog.preview_sections@[i].body@ == input.sections@[i].body@
        }
    &&& vm.options_dialog.history_text@ == history_text_for(string_views(input.history@))
    &&& vm.options_dialog.preview_text@ == preview_text_for(input.sections@)
    &&& vm.status.kind@ == input.status_kind@
    &&& vm.status.message@ == input.status_message@
}

fn clone_strings(v: &Vec<String>) -> (r: Vec<String>)
    ensures
        string_views(r@) == string_views(v@),
{
    let mut r: Vec<String> = Vec::new();
    let mut i: usize = 0;
    while i < v.len()
        invariant
            i <= v.len(),
            string_views(r@) =~= string_views(v@).take(i as int),
        decreases v.len() - i,
    {
        let ghost before = string_views(r@);
        r.push(v[i].clone());
        assert(string_views(r@) =~= before.push(v@[i as int]@));
        assert(string_views(v@).take(i + 1) =~= string_views(v@).take(i as int).push(v@[i as int]@));
        i = i + 1;
    }
    assert(string_views(v@).take(v.len() as int) =~= string_views(v@));
    r
}

fn window_title(page_title: &String) -> (r: String)
    ensures
        r@ == window_title_for(page_title@),
{
    if is_blank(page_title.as_str()) {
        String::from_str("Rust Browser")
    } else {
        page_title.clone().concat(" - Rust Browser")
    }
}

fn active_url(current: &Option<String>, pending: &Option<String>) -> (r: String)
    ensures
        r@ == shown_url(*current, *pending),
{
    match current {
        Some(u) => u.clone(),
        None => match pending {
            Some(p) => p.clone(),
            None => String::from_str("about:blank"),
        },
    }
}

fn tab_views(tabs: &Vec<TabStateInput>, active_tab_id: u32) -> (r: Vec<BrowserTabViewModel>)
    ensures
        r@.len() == tabs@.len(),
        forall|i: int|
            #![trigger r@[i]]
            0 <= i < r@.len() ==> {
                &&& r@[i].id == tabs@[i].id
                &&& r@[i].title@ == tabs@[i].title@
                &&& r@[i].url@ == tabs@[i].url@
                &&& r@[i].is_active == (tabs@[i].id == active_tab_id)
            },
{
    let mut r: Vec<BrowserTabViewModel> = Vec::new();
    let mut i: usize = 0;
    while i < tabs.len()
        invariant
            i <= tabs.len(),
            r@.len() == i,
            forall|j: int|
                #![trigger r@[j]]
                0 <= j < i ==> {
                    &&& r@[j].id == tabs@[j].id
                    &&& r@[j].title@ == tabs@[j].title@
                    &&& r@[j].url@ == tabs@[j].url@
                    &&& r@[j].is_active == (tabs@[j].id == active_tab_id)
                },
        decreases tabs.len() - i,
    {
        let tab = &tabs[i];
        r.push(
            BrowserTabViewModel {
                id: tab.id,
                title: tab.title.clone(),
                url: tab.url.clone(),
                is_active: tab.id == active_tab_id,
            },
        );
        i = i + 1;
    }
    r
}

fn section_views(sections: &Vec<PreviewSectionInput>) -> (r: Vec<PreviewSectionViewModel>)
    ensures
        r@.len() == sections@.len(),
        forall|i: int|
            #![trigger r@[i]]
            0 <= i < r@.len() ==> {
                &&& r@[i].heading@ == sections@[i].heading@
                &&& r@[i].body@ == sections@[i].body@
            },
{
    let mut r: Vec<PreviewSectionViewModel> = Vec::new();
    let mut i: usize = 0;
    while i < sections.len()
        invariant
            i <= sections.len(),
            r@.len() == i,
            forall|j: int|
                #![trigger r@[j]]
                0 <= j < i ==> {
                    &&& r@[j].heading@ == sections@[j].heading@
                    &&& r@[j].body@ == sections@[j].body@
                },
        decreases sections.len() - i,
    {
        let s = &sections[i];
        r.push(PreviewSectionViewModel { heading: s.heading.clone(), body: s.body.clone() });
        i = i + 1;
    }
    r
}

fn history_text(history: &Vec<String>) -> (r: String)
    ensures
        r@ == history_text_for(string_views(history@)),
{
    if history.len() == 0 {
        String::from_str("History is empty.")
    } else {
        let r = join_strings(history, "\n");
        proof {
            reveal_strlit("\n");
            assert("\n"@ =~= seq!['\n']);
        }
        r
    }
}

fn preview_text(sections: &Vec<PreviewSectionInput>) -> (r: String)
    ensures
        r@ == preview_text_for(sections@),
{
    if sections.len() == 0 {
        return String::from_str("No preview sections available for this page yet.");
    }
    let mut parts: Vec<String> = Vec::new();
    let mut i: usize = 0;
    while i < sections.len()
        invariant
            i <= sections.len(),
            string_views(parts@) =~= section_texts(sections@).take(i as int),
        decreases sections.len() - i,
    {
        let s = &sections[i];
        let text = if is_blank(s.heading.as_str()) {
            s.body.clone()
        } else {
            s.heading.clone().concat("\n").concat(s.body.as_str())
        };
        proof {
            reveal_strlit("\n");
        }
        assert(text@ =~= section_text(s.heading@, s.body@));
        let ghost before = string_views(parts@);
        parts.push(text);
        assert(string_views(parts@) =~= before.push(text@));
        assert(section_texts(sections@).take(i + 1) =~= section_texts(sections@).take(i as int).push(
            section_text(s.heading@, s.body@),
        ));
        i = i + 1;
    }
    assert(section_texts(sections@).take(sections.len() as int) =~= section_texts(sections@));
    let r = join_strings(&parts, "\n\n");
    proof {
        reveal_strlit("\n\n");
        assert("\n\n"@ =~= seq!['\n', '\n']);
    }
    r
}

/// The view model computed from a runtime state.
pub fn view_model_for(input: BrowserShellStateInput) -> (r: BrowserShellViewModel)
    ensures
        shows(r, input),
{
    let url = active_url(&input.current_url, &input.pending_url);
    let title = window_title(&input.page_title);
    let tabs = tab_views(&input.tabs, input.active_tab_id);
    let sections = section_views(&input.sections);
    let history = clone_strings(&input.history);
    let history_text = history_text(&input.history);
    let preview_text = preview_text(&input.sections);
    BrowserShellViewModel {
        window_title: title,
        tabs,
        toolbar: ToolbarViewModel {
            address_value: input.address_input,
            is_loading: input.is_loading,
            can_interact: !input.is_loading,
            active_tab_title: input.page_title.clone(),
            active_tab_url: url.clone(),
        },
        options_dialog: OptionsDialogViewModel {
            is_open: input.is_settings_open,
            active_section: input.selected_settings_tab,
            selected_profile: input.selected_profile,
            page_title: input.page_title,
            current_url: url,
            page_meta: input.page_meta,
            page_summary: input.page_summary,
            history,
            preview_sections: sections,
            history_text,
            preview_text,
        },
        status: StatusViewModel { kind: input.status_kind, message: input.status_message },
    }
}

/// Holds the shell's view model and the user actions not yet handled.
pub struct BrowserShellSlintController {
    view_model: BrowserShellViewModel,
    pending_actions: Vec<BrowserShellUiAction>,
}

impl BrowserShellSlintController {
    pub closed spec fn vm(&self) -> BrowserShellViewModel {
        self.view_model
    }

    /// The actions waiting to be handled, oldest first.
    pub closed spec fn queue(&self) -> Seq<BrowserShellUiAction> {
        self.pending_actions@
    }

    /// A controller showing the default view model, with no pending actions.
    pub fn new() -> (r: Self)
        ensures
            is_default_view(r.vm()),
            r.queue().len() == 0,
    {
        BrowserShellSlintController {
            view_model: BrowserShellViewModel::default(),
            pending_actions: Vec::new(),
        }
    }

    /// The current view model.
    pub fn view_model(&self) -> (r: &BrowserShellViewModel)
        ensures
            *r == self.vm(),
    {
        &self.view_model
    }

    /// Replaces the view model with the one that shows `input`.
    pub fn apply_runtime_state(&mut self, input: BrowserShellStateInput)
        ensures
            shows(final(self).vm(), input),
            final(self).queue() == old(self).queue(),
    {
        self.view_model = view_model_for(input);
    }

    /// Adds `action` to the end of the queue.
    pub fn enqueue_action(&mut self, action: BrowserShellUiAction)
        ensures
            final(self).queue() == old(self).queue().push(action),
            final(self).vm() == old(self).vm(),
    {
        self.pending_actions.push(action);
    }

    /// Takes every pending action, oldest first, leaving the queue empty.
    pub fn drain_actions(&mut self) -> (r: Vec<BrowserShellUiAction>)
        ensures
            r@ == old(self).queue(),
            final(self).queue().len() == 0,
            final(self).vm() == old(self).vm(),
    {
        let mut taken: Vec<BrowserShellUiAction> = Vec::new();
        std::mem::swap(&mut taken, &mut self.pending_actions);
        taken
    }
}

/// The window shows a tab's loaded address while it has one, even while
/// another is loading; only a tab with no loaded address shows the one it is
/// loading, and a tab with neither shows `about:blank`.
pub proof fn lemma_view_prefers_loaded_address(vm: BrowserShellViewModel, input: BrowserShellStateInput)
    requires
        shows(vm, input),
    ensures
        input.current_url matches Some(c) ==> vm.toolbar.active_tab_url@ == c@
            && vm.options_dialog.current_url@ == c@,
        input.current_url is None ==> match input.pending_url {
            Some(p) => vm.toolbar.active_tab_url@ == p@ && vm.options_dialog.current_url@ == p@,
            None => vm.toolbar.active_tab_url@ == "about:blank"@ && vm.options_dialog.current_url@
                == "about:blank"@,
        },
{
}

} // verus!
