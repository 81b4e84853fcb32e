use rust_browser::components::{
    escape_html, render_card, render_profile_selector, render_tab_strip, render_toolbar,
    render_toolbar_button, ProfileOptionProps, TabStripProps, ToolbarButtonProps,
};
use rust_browser::text::normalize_whitespace;

#[test]
fn whitespace_is_collapsed() {
    assert_eq!(normalize_whitespace("  a \t b\n\n c  "), "a b c");
    assert_eq!(normalize_whitespace(" \u{3000} "), "");
    assert_eq!(normalize_whitespace("one"), "one");
}

#[test]
fn html_escaping() {
    assert_eq!(
        escape_html("<a href=\"x\">Tom & Jerry's</a>"),
        "&lt;a href=&quot;x&quot;&gt;Tom &amp; Jerry&#39;s&lt;/a&gt;"
    );
    assert_eq!(escape_html("plain"), "plain");
}

#[test]
fn tab_strip_markup() {
    let html = render_tab_strip(TabStripProps { tabs_id: "tabs", add_button_id: "add" });
    assert_eq!(
        html,
        "<div class=\"tabstrip-shell\">\n        <div id=\"tabs\" class=\"tabstrip\" role=\"tablist\" aria-label=\"Open tabs\"></div>\n        <button id=\"add\" class=\"tab-action\" type=\"button\" aria-label=\"Open new tab\">+</button>\n      </div>"
    );
}

#[test]
fn toolbar_button_markup() {
    let plain = ToolbarButtonProps { id: "back-button", label: "<", variant: "", aria_label: "Back" };
    assert_eq!(
        render_toolbar_button(&plain),
        "<button id=\"back-button\" type=\"button\" aria-label=\"Back\"><</button>"
    );
    let styled = ToolbarButtonProps { id: "open-button", label: "Go", variant: "primary", aria_label: "Open" };
    assert_eq!(
        render_toolbar_button(&styled),
        "<button id=\"open-button\" class=\"primary\" type=\"button\" aria-label=\"Open\">Go</button>"
    );
}

#[test]
fn toolbar_groups_buttons() {
    let buttons = [
        ToolbarButtonProps { id: "reload-button", label: "R", variant: "", aria_label: "Reload" },
        ToolbarButtonProps { id: "back-button", label: "B", variant: "", aria_label: "Back" },
        ToolbarButtonProps { id: "other", label: "O", variant: "", aria_label: "Other" },
        ToolbarButtonProps { id: "home-button", label: "H", variant: "", aria_label: "Home" },
    ];
    let html = render_toolbar(&buttons);
    let nav = "<button id=\"back-button\" type=\"button\" aria-label=\"Back\">B</button><button id=\"home-button\" type=\"button\" aria-label=\"Home\">H</button>";
    let actions = "<button id=\"reload-button\" type=\"button\" aria-label=\"Reload\">R</button>";
    let expected = format!(
        r#"<div class="toolbar" role="toolbar" aria-label="Navigation controls">
        <div class="toolbar-group">{nav}</div>
        <div class="address-shell">
          <label class="sr-only" for="address">Address bar</label>
          <input id="address" autocomplete="off" spellcheck="false" placeholder="Search or enter address" aria-label="Address bar" />
        </div>
        <div class="toolbar-group action-shell">{actions}</div>
      </div>"#
    );
    assert_eq!(html, expected);
    assert!(!html.contains("Other"));
}

#[test]
fn profile_selector_markup() {
    let options = [
        ProfileOptionProps { id: "p-light", label: "Light", value: "light" },
        ProfileOptionProps { id: "p-pro", label: "Pro", value: "pro" },
    ];
    assert_eq!(
        render_profile_selector(&options),
        "<div class=\"profile-row\" role=\"group\" aria-label=\"Blocklist profile selector\"><button id=\"p-light\" class=\"profile-chip\" type=\"button\" aria-pressed=\"false\" data-profile=\"light\">Light</button><button id=\"p-pro\" class=\"profile-chip\" type=\"button\" aria-pressed=\"false\" data-profile=\"pro\">Pro</button></div>"
    );
}

#[test]
fn card_markup() {
    assert_eq!(
        render_card("Title", "<p>x</p>", "<small>f</small>"),
        "<section class=\"card\">\n        <h2>Title</h2>\n        <p>x</p>\n        <small>f</small>\n      </section>"
    );
}
