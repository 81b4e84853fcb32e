use rust_browser::page::{Page, PageSection};
use rust_browser::profile::BlocklistProfile;
use rust_browser::shell_state::{
    truncate_tab_title, BrowserTab, ContentAction, SettingsTab, ShellCommand, ShellState,
    StatusPayload,
};
use rust_browser::shell_view::{
    BrowserShellSlintController, BrowserShellStateInput, BrowserShellUiAction, PreviewSectionInput,
    TabStateInput,
};

fn input() -> BrowserShellStateInput {
    BrowserShellStateInput {
        tabs: vec![
            TabStateInput { id: 1, title: "Docs".to_string(), url: "https://docs.rs".to_string() },
            TabStateInput { id: 2, title: "New Tab".to_string(), url: "about:blank".to_string() },
        ],
        active_tab_id: 1,
        address_input: "docs.rs".to_string(),
        current_url: None,
        pending_url: Some("https://docs.rs".to_string()),
        page_title: "Docs".to_string(),
        page_meta: "meta".to_string(),
        page_summary: "summary".to_string(),
        history: vec!["https://b.test".to_string(), "https://a.test".to_string()],
        sections: vec![
            PreviewSectionInput { heading: "Intro".to_string(), body: "Hello".to_string() },
            PreviewSectionInput { heading: "  ".to_string(), body: "World".to_string() },
        ],
        is_loading: true,
        is_settings_open: true,
        selected_settings_tab: "history".to_string(),
        selected_profile: "Pro".to_string(),
        status_kind: "info".to_string(),
        status_message: "Loading".to_string(),
    }
}

#[test]
fn controller_starts_with_default_view() {
    let controller = BrowserShellSlintController::new();
    let vm = controller.view_model();
    assert_eq!(vm.window_title, "Rust Browser");
    assert_eq!(vm.tabs.len(), 1);
    assert_eq!(vm.toolbar.active_tab_title, "New Tab");
    assert_eq!(vm.toolbar.active_tab_url, "about:blank");
    assert!(vm.toolbar.can_interact);
    assert_eq!(vm.options_dialog.active_section, "security");
    assert_eq!(vm.options_dialog.selected_profile, "Normal");
    assert_eq!(vm.options_dialog.history_text, "History is empty.");
    assert_eq!(vm.status.kind, "info");
    assert_eq!(vm.status.message, "Ready to browse with the embedded WebView2 shell.");
}

#[test]
fn controller_shows_runtime_state() {
    let mut controller = BrowserShellSlintController::new();
    controller.apply_runtime_state(input());
    let vm = controller.view_model();
    assert_eq!(vm.window_title, "Docs - Rust Browser");
    assert!(vm.tabs[0].is_active);
    assert!(!vm.tabs[1].is_active);
    assert_eq!(vm.tabs[1].url, "about:blank");
    assert_eq!(vm.toolbar.address_value, "docs.rs");
    assert!(vm.toolbar.is_loading);
    assert!(!vm.toolbar.can_interact);
    assert_eq!(vm.toolbar.active_tab_url, "https://docs.rs");
    assert_eq!(vm.options_dialog.current_url, "https://docs.rs");
    assert_eq!(vm.options_dialog.history_text, "https://b.test\nhttps://a.test");
    assert_eq!(vm.options_dialog.preview_text, "Intro\nHello\n\nWorld");
    assert_eq!(vm.options_dialog.preview_sections.len(), 2);
    assert_eq!(vm.options_dialog.active_section, "history");
    assert_eq!(vm.status.message, "Loading");
}

#[test]
fn controller_blank_title_and_empty_lists() {
    let mut controller = BrowserShellSlintController::new();
    let mut state = input();
    state.page_title = "   ".to_string();
    state.current_url = None;
    state.pending_url = None;
    state.history = Vec::new();
    state.sections = Vec::new();
    controller.apply_runtime_state(state);
    let vm = controller.view_model();
    assert_eq!(vm.window_title, "Rust Browser");
    assert_eq!(vm.toolbar.active_tab_url, "about:blank");
    assert_eq!(vm.options_dialog.history_text, "History is empty.");
    assert_eq!(
        vm.options_dialog.preview_text,
        "No preview sections available for this page yet."
    );
}

#[test]
fn actions_drain_in_order() {
    let mut controller = BrowserShellSlintController::new();
    controller.enqueue_action(BrowserShellUiAction::Back);
    controller.enqueue_action(BrowserShellUiAction::Navigate("https://x.test".to_string()));
    controller.enqueue_action(BrowserShellUiAction::CloseTab(3));
    let actions = controller.drain_actions();
    assert_eq!(
        actions,
        vec![
            BrowserShellUiAction::Back,
            BrowserShellUiAction::Navigate("https://x.test".to_string()),
            BrowserShellUiAction::CloseTab(3),
        ]
    );
    assert!(controller.drain_actions().is_empty());
}

#[test]
fn settings_tabs_round_trip() {
    for t in [SettingsTab::Security, SettingsTab::History, SettingsTab::Preview] {
        assert_eq!(SettingsTab::from_command(t.as_str()), Some(t));
    }
    assert_eq!(SettingsTab::from_command("History"), None);
}

#[test]
fn status_payload_kinds() {
    assert_eq!(StatusPayload::success("a".to_string()).kind, "success");
    assert_eq!(StatusPayload::warning("b".to_string()).kind, "warning");
    assert_eq!(StatusPayload::info("c".to_string()).message, "c");
    assert_eq!(StatusPayload::default().message, "Ready to browse with the embedded WebView2 shell.");
}

#[test]
fn fresh_tab() {
    let tab = BrowserTab::new(7);
    assert_eq!(tab.id, 7);
    assert_eq!(tab.title, "New Tab");
    assert!(tab.current_url.is_none());
    assert_eq!(
        tab.page_summary,
        "Open a page to fetch a structured summary beside the embedded browser."
    );
}

#[test]
fn tab_titles_are_trimmed_and_cut() {
    assert_eq!(truncate_tab_title("   "), "New Tab");
    assert_eq!(truncate_tab_title("  https://a.test  "), "https://a.test");
    let long = "https://example.com/a/very/long/path/that/keeps/going";
    assert_eq!(truncate_tab_title(long), "https://example.com/a/very/long/path/t...");
}

#[test]
fn shell_state_starts_with_one_tab() {
    let state = ShellState::new(BlocklistProfile::Pro);
    let snapshot = state.snapshot();
    assert_eq!(snapshot.tabs.len(), 1);
    assert_eq!(snapshot.active_tab_id, 1);
    assert_eq!(snapshot.tabs[0].url, "about:blank");
    assert_eq!(snapshot.selected_profile, "Pro");
    assert_eq!(snapshot.selected_settings_tab, "security");
    assert_eq!(snapshot.page_title, "New Tab");
}

#[test]
fn navigation_lifecycle_updates_active_tab() {
    let mut state = ShellState::new(BlocklistProfile::Normal);
    let tab_id = state.begin_navigation("https://docs.rs".to_string());
    assert_eq!(tab_id, 1);
    let s = state.snapshot();
    assert_eq!(s.page_title, "Loading page");
    assert_eq!(s.pending_url.as_deref(), Some("https://docs.rs"));
    assert!(s.is_loading);
    assert_eq!(s.status.message, "Loading https://docs.rs...");
    assert_eq!(s.tabs[0].url, "https://docs.rs");

    state.handle_navigation_finished("https://docs.rs".to_string());
    state.handle_navigation_finished("https://docs.rs".to_string());
    let s = state.snapshot();
    assert_eq!(s.current_url.as_deref(), Some("https://docs.rs"));
    assert!(s.pending_url.is_none());
    assert_eq!(s.page_title, "https://docs.rs");
    assert_eq!(s.history, vec!["https://docs.rs".to_string()]);
    assert_eq!(s.status.kind, "success");

    state.handle_title_changed("Docs.rs".to_string());
    state.handle_navigation_finished("https://crates.io".to_string());
    let s = state.snapshot();
    assert_eq!(s.page_title, "Docs.rs");
    assert_eq!(s.history, vec!["https://crates.io".to_string(), "https://docs.rs".to_string()]);

    state.handle_title_changed("  ".to_string());
    assert_eq!(state.snapshot().page_title, "Untitled page");
}

#[test]
fn blocked_navigation_stops_loading() {
    let mut state = ShellState::new(BlocklistProfile::Normal);
    state.handle_navigation_started("https://bad.test".to_string());
    assert!(state.snapshot().is_loading);
    state.handle_navigation_blocked("https://bad.test".to_string());
    let s = state.snapshot();
    assert!(!s.is_loading);
    assert!(s.pending_url.is_none());
    assert_eq!(s.status.kind, "warning");
    assert_eq!(s.status.message, "Blocked by security filter: https://bad.test");
    state.block_navigation("https://worse.test".to_string());
    assert_eq!(state.snapshot().address_input, "https://worse.test");
}

#[test]
fn previews_apply_only_to_the_awaited_address() {
    let mut state = ShellState::new(BlocklistProfile::Normal);
    state.begin_navigation("https://docs.rs".to_string());
    let page = Page {
        url: "https://docs.rs".to_string(),
        title: "Docs".to_string(),
        summary: "All the docs".to_string(),
        status: "200 OK".to_string(),
        sections: (0..8)
            .map(|i| PageSection { heading: format!("H{i}"), body: format!("B{i}") })
            .collect(),
    };
    assert!(!state.handle_preview_loaded(1, "https://other.test".to_string(), page.clone()));
    assert!(!state.handle_preview_loaded(9, "https://docs.rs".to_string(), page.clone()));
    assert_eq!(state.snapshot().page_title, "Loading page");
    assert!(state.handle_preview_loaded(1, "https://docs.rs".to_string(), page));
    let s = state.snapshot();
    assert_eq!(s.page_title, "Docs");
    assert_eq!(s.page_meta, "Preview source: https://docs.rs | HTTP 200 OK");
    assert_eq!(s.page_summary, "All the docs");
    assert_eq!(s.sections.len(), 6);

    assert!(state.handle_preview_failed(1, "https://docs.rs".to_string(), "timeout".to_string()));
    let s = state.snapshot();
    assert_eq!(s.page_summary, "Readable preview could not be extracted: timeout");
    assert!(s.sections.is_empty());
    assert_eq!(s.status.message, "The page is loading, but the readable preview failed.");
}

#[test]
fn tabs_open_switch_and_close() {
    let mut state = ShellState::new(BlocklistProfile::Normal);
    state.begin_navigation("https://one.test".to_string());
    state.handle_navigation_finished("https://one.test".to_string());
    let second = state.create_tab_and_activate();
    assert_eq!(second, 2);
    assert_eq!(state.active_tab_id(), 2);
    assert!(state.switch_tab(2).is_none());
    assert!(state.switch_tab(42).is_none());
    let shown = state.switch_tab(1).unwrap();
    assert!(matches!(shown, ContentAction::LoadUrl(ref u) if u == "https://one.test"));
    assert_eq!(state.snapshot().status.message, "Switched tab.");

    let third = state.create_tab_and_activate();
    assert_eq!(third, 3);
    let closed = state.close_tab(3).unwrap();
    assert_eq!(state.active_tab_id(), 2);
    assert!(matches!(closed, ContentAction::ShowPlaceholder));
    let kept = state.close_tab(1).unwrap();
    assert!(matches!(kept, ContentAction::Keep));
    assert_eq!(state.tab_count(), 1);
    assert!(state.close_tab(2).is_none());
    assert_eq!(state.snapshot().status.message, "Tab closed.");
}

#[test]
fn reload_profile_and_settings() {
    let mut state = ShellState::new(BlocklistProfile::Normal);
    state.begin_navigation("https://one.test".to_string());
    state.handle_navigation_finished("https://one.test".to_string());
    state.mark_reloading("Reloading page...".to_string());
    let s = state.snapshot();
    assert!(s.is_loading);
    assert_eq!(s.pending_url.as_deref(), Some("https://one.test"));
    assert_eq!(s.status.message, "Reloading page...");

    let again = state.profile_switched(BlocklistProfile::Pro, None);
    assert_eq!(again.as_deref(), Some("https://one.test"));
    let s = state.snapshot();
    assert_eq!(s.selected_profile, "Pro");
    assert_eq!(s.status.message, "Blocklist profile switched to Pro.");
    state.profile_switched(BlocklistProfile::Light, Some("disk full".to_string()));
    assert_eq!(
        state.snapshot().status.message,
        "Profile changed to Light, but settings could not be saved: disk full"
    );

    state.set_settings_open(!state.is_settings_open());
    state.select_settings_tab(SettingsTab::Preview);
    let input = state.state_input();
    assert!(input.is_settings_open);
    assert_eq!(input.selected_settings_tab, "preview");
    assert_eq!(input.history, vec!["https://one.test".to_string()]);
    assert_eq!(input.tabs[0].url, "https://one.test");
    let restored = state.restore_active_tab_view();
    assert!(matches!(restored, ContentAction::LoadUrl(ref u) if u == "https://one.test"));
    assert!(!state.snapshot().is_loading);
}

#[test]
fn ui_actions_become_commands() {
    let mut state = ShellState::new(BlocklistProfile::Normal);
    let nav = state.handle_ui_action(BrowserShellUiAction::Navigate("docs.rs".to_string()), true);
    assert!(matches!(nav, ShellCommand::Navigate(ref u) if u == "docs.rs"));
    assert!(matches!(state.handle_ui_action(BrowserShellUiAction::Back, false), ShellCommand::Nothing));
    assert!(matches!(
        state.handle_ui_action(BrowserShellUiAction::Back, true),
        ShellCommand::RunScript("history.back();")
    ));
    assert_eq!(state.snapshot().status.message, "Navigating back...");
    assert!(matches!(
        state.handle_ui_action(BrowserShellUiAction::Forward, true),
        ShellCommand::RunScript("history.forward();")
    ));
    assert!(matches!(state.handle_ui_action(BrowserShellUiAction::Reload, true), ShellCommand::Reload));
    assert_eq!(state.snapshot().status.message, "Reloading page...");
    assert!(matches!(state.handle_ui_action(BrowserShellUiAction::ToggleOptions, true), ShellCommand::Relayout));
    assert!(state.is_settings_open());
    state.handle_ui_action(BrowserShellUiAction::CloseOptions, true);
    assert!(!state.is_settings_open());
    assert!(matches!(
        state.handle_ui_action(BrowserShellUiAction::SelectProfile(" Light ".to_string()), true),
        ShellCommand::ChangeProfile(BlocklistProfile::Light)
    ));
    assert!(matches!(
        state.handle_ui_action(BrowserShellUiAction::SelectProfile("max".to_string()), true),
        ShellCommand::Nothing
    ));
    assert!(matches!(
        state.handle_ui_action(BrowserShellUiAction::SelectProfile("NORMAL".to_string()), true),
        ShellCommand::Nothing
    ));
    assert!(matches!(
        state.handle_ui_action(BrowserShellUiAction::SelectSettingsTab("preview".to_string()), true),
        ShellCommand::Sync
    ));
    assert_eq!(state.snapshot().selected_settings_tab, "preview");
    assert!(matches!(
        state.handle_ui_action(BrowserShellUiAction::NewTab, true),
        ShellCommand::ShowContent(ContentAction::ShowPlaceholder)
    ));
    assert_eq!(state.active_tab_id(), 2);
    assert!(matches!(
        state.handle_ui_action(BrowserShellUiAction::SwitchTab(1), true),
        ShellCommand::ShowContent(ContentAction::ShowPlaceholder)
    ));
    assert!(matches!(
        state.handle_ui_action(BrowserShellUiAction::CloseTab(2), true),
        ShellCommand::ShowContent(ContentAction::Keep)
    ));
    assert!(matches!(state.handle_ui_action(BrowserShellUiAction::CloseTab(1), true), ShellCommand::Nothing));
    assert!(matches!(state.handle_ui_action(BrowserShellUiAction::MinimizeWindow, true), ShellCommand::MinimizeWindow));
    assert!(matches!(
        state.handle_ui_action(BrowserShellUiAction::MaximizeWindow, true),
        ShellCommand::ToggleMaximizeWindow
    ));
    assert!(matches!(state.handle_ui_action(BrowserShellUiAction::CloseWindow, true), ShellCommand::CloseWindow));
}

#[test]
fn shown_state_marks_one_active_tab() {
    let mut state = ShellState::new(BlocklistProfile::Normal);
    state.create_tab_and_activate();
    state.create_tab_and_activate();
    state.switch_tab(2);
    let mut controller = BrowserShellSlintController::new();
    controller.apply_runtime_state(state.state_input());
    let active: Vec<u32> = controller
        .view_model()
        .tabs
        .iter()
        .filter(|tab| tab.is_active)
        .map(|tab| tab.id)
        .collect();
    assert_eq!(active, vec![2]);
}

#[test]
fn failed_profile_switch_warns() {
    let mut state = ShellState::new(BlocklistProfile::Normal);
    state.profile_switch_failed("network down".to_string());
    let s = state.snapshot();
    assert_eq!(s.status.kind, "warning");
    assert_eq!(s.status.message, "Failed to switch profile: network down");
    assert_eq!(s.selected_profile, "Normal");
}
