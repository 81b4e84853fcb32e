//! HTML building blocks of the browser shell: tab strip, toolbar, profile
//! selector and cards, and HTML escaping of text.

use vstd::prelude::*;
use crate::text::str_eq;

verus! {

/// The element ids of the tab strip.
pub struct TabStripProps<'a> {
    pub tabs_id: &'a str,
    pub add_button_id: &'a str,
}

/// One toolbar button.
pub struct ToolbarButtonProps<'a> {
    pub id: &'a str,
    pub label: &'a str,
    pub variant: &'a str,
    pub aria_label: &'a str,
}

/// One choice of the profile selector.
pub struct ProfileOptionProps<'a> {
    pub id: &'a str,
    pub label: &'a str,
    pub value: &'a str,
}

/// The tab strip's HTML.
pub open spec fn tab_strip_html(tabs_id: Seq<char>, add_button_id: Seq<char>) -> Seq<char> {
    "<div class=\"tabstrip-shell\">\n        <div id=\""@ + tabs_id
        + "\" class=\"tabstrip\" role=\"tablist\" aria-label=\"Open tabs\"></div>\n        <button id=\""@
        + add_button_id
        + "\" class=\"tab-action\" type=\"button\" aria-label=\"Open new tab\">+</button>\n      </div>"@
}

/// The tab strip: an empty tab list and a button that opens a new tab.
pub fn render_tab_strip(props: TabStripProps<'_>) -> (r: String)
    ensures
        r@ == tab_strip_html(props.tabs_id@, props.add_button_id@),
{
    String::from_str("<div class=\"tabstrip-shell\">\n        <div id=\"").concat(props.tabs_id).concat(
        "\" class=\"tabstrip\" role=\"tablist\" aria-label=\"Open tabs\"></div>\n        <button id=\"",
    ).concat(props.add_button_id).concat(
        "\" class=\"tab-action\" type=\"button\" aria-label=\"Open new tab\">+</button>\n      </div>",
    )
}

/// A toolbar button's HTML; a non-empty variant becomes its class.
pub open spec fn toolbar_button_html(id: Seq<char>, label: Seq<char>, variant: Seq<char>, aria_label: Seq<char>) -> Seq<char> {
    let class = if variant.len() == 0 {
        Seq::<char>::empty()
    } else {
        " class=\""@ + variant + "\""@
    };
    "<button id=\""@ + id + "\""@ + class + " type=\"button\" aria-label=\""@ + aria_label + "\">"@ + label
        + "</button>"@
}

pub open spec fn button_html(b: ToolbarButtonProps) -> Seq<char> {
    toolbar_button_html(b.id@, b.label@, b.variant@, b.aria_label@)
}

/// One toolbar button.
pub fn render_toolbar_button(props: &ToolbarButtonProps<'_>) -> (r: String)
    ensures
        r@ == button_html(*props),
{
    let class = if props.variant.unicode_len() == 0 {
        String::new()
    } else {
        String::from_str(" class=\"").concat(props.variant).concat("\"")
    };
    String::from_str("<button id=\"").concat(props.id).concat("\"").concat(class.as_str()).concat(
        " type=\"button\" aria-label=\"",
    ).concat(props.aria_label).concat("\">").concat(props.label).concat("</button>")
}

/// A navigation button: back, forward or home.
pub open spec fn is_nav_button(id: Seq<char>) -> bool {
    id == "back-button"@ || id == "forward-button"@ || id == "home-button"@
}

/// An action button: open, reload or settings.
pub open spec fn is_action_button(id: Seq<char>) -> bool {
    id == "open-button"@ || id == "reload-button"@ || id == "settings-button"@
}

/// The HTML of the buttons of `bs` in the group (`nav` true: navigation,
/// else actions), in order.
pub open spec fn group_html(bs: Seq<ToolbarButtonProps>, nav: bool) -> Seq<char>
    decreases bs.len(),
{
    if bs.len() == 0 {
        Seq::<char>::empty()
    } else {
        let prev = group_html(bs.drop_last(), nav);
        let b = bs.last();
        if (nav && is_nav_button(b.id@)) || (!nav && is_action_button(b.id@)) {
            prev + button_html(b)
        } else {
            prev
        }
    }
}

/// The HTML of each of `bs`, one after another.
pub open spec fn buttons_html(bs: Seq<ToolbarButtonProps>) -> Seq<char>
    decreases bs.len(),
{
    if bs.len() == 0 {
        Seq::<char>::empty()
    } else {
        buttons_html(bs.drop_last()) + button_html(bs.last())
    }
}

/// The toolbar's groups hold exactly the buttons with their ids, in the order
/// given: the navigation group the back, forward and home buttons; the action
/// group the open, reload and settings buttons.
pub proof fn lemma_toolbar_groups(bs: Seq<ToolbarButtonProps>)
    ensures
        group_html(bs, true) == buttons_html(
            bs.filter(
                |b: ToolbarButtonProps|
                    b.id@ == "back-button"@ || b.id@ == "forward-button"@ || b.id@ == "home-button"@,
            ),
        ),
        group_html(bs, false) == buttons_html(
            bs.filter(
                |b: ToolbarButtonProps|
                    b.id@ == "open-button"@ || b.id@ == "reload-button"@ || b.id@ == "settings-button"@,
            ),
        ),
    decreases bs.len(),
{
    reveal(Seq::filter);
    if bs.len() > 0 {
        lemma_toolbar_groups(bs.drop_last());
        let nav = |b: ToolbarButtonProps|
            b.id@ == "back-button"@ || b.id@ == "forward-button"@ || b.id@ == "home-button"@;
        let act = |b: ToolbarButtonProps|
            b.id@ == "open-button"@ || b.id@ == "reload-button"@ || b.id@ == "settings-button"@;
        let nav_kept = bs.drop_last().filter(nav);
        let act_kept = bs.drop_last().filter(act);
        assert(nav_kept.push(bs.last()).drop_last() =~= nav_kept);
        assert(act_kept.push(bs.last()).drop_last() =~= act_kept);
    }
}

/// The toolbar's HTML around its navigation and action buttons.
pub open spec fn toolbar_html(nav: Seq<char>, actions: Seq<char>) -> Seq<char> {
    "<div class=\"toolbar\" role=\"toolbar\" aria-label=\"Navigation controls\">\n        <div class=\"toolbar-group\">"@
        + nav
        + "</div>\n        <div class=\"address-shell\">\n          <label class=\"sr-only\" for=\"address\">Address bar</label>\n          <input id=\"address\" autocomplete=\"off\" spellcheck=\"false\" placeholder=\"Search or enter address\" aria-label=\"Address bar\" />\n        </div>\n        <div class=\"toolbar-group action-shell\">"@
        + actions + "</div>\n      </div>"@
}

fn render_group(buttons: &[ToolbarButtonProps<'_>], nav: bool) -> (r: String)
    ensures
        r@ == group_html(buttons@, nav),
{
    let mut r = String::new();
    let mut i: usize = 0;
    while i < buttons.len()
        invariant
            i <= buttons.len(),
            r@ == group_html(buttons@.take(i as int), nav),
        decreases buttons.len() - i,
    {
        let b = &buttons[i];
        let ghost t = buttons@.take(i + 1);
        assert(t.drop_last() =~= buttons@.take(i as int));
        let in_group = if nav {
            str_eq(b.id, "back-button") || str_eq(b.id, "forward-button") || str_eq(b.id, "home-button")
        } else {
            str_eq(b.id, "open-button") || str_eq(b.id, "reload-button") || str_eq(b.id, "settings-button")
        };
        if in_group {
            let html = render_toolbar_button(b);
            r.append(html.as_str());
        }
        i = i + 1;
    }
    assert(buttons@.take(buttons.len() as int) =~= buttons@);
    r
}

/// The toolbar: the back, forward and home buttons, the address bar, then the
/// open, reload and settings buttons; other buttons are left out.
pub fn render_toolbar(buttons: &[ToolbarButtonProps<'_>]) -> (r: String)
    ensures
        r@ == toolbar_html(group_html(buttons@, true), group_html(buttons@, false)),
{
    let nav_buttons = render_group(buttons, true);
    let action_buttons = render_group(buttons, false);
    String::from_str(
        "<div class=\"toolbar\" role=\"toolbar\" aria-label=\"Navigation controls\">\n        <div class=\"toolbar-group\">",
    ).concat(nav_buttons.as_str()).concat(
        "</div>\n        <div class=\"address-shell\">\n          <label class=\"sr-only\" for=\"address\">Address bar</label>\n          <input id=\"address\" autocomplete=\"off\" spellcheck=\"false\" placeholder=\"Search or enter address\" aria-label=\"Address bar\" />\n        </div>\n        <div class=\"toolbar-group action-shell\">",
    ).concat(action_buttons.as_str()).concat("</div>\n      </div>")
}

/// One profile choice's HTML.
pub open spec fn profile_chip_html(o: ProfileOptionProps) -> Seq<char> {
    "<button id=\""@ + o.id@ + "\" class=\"profile-chip\" type=\"button\" aria-pressed=\"false\" data-profile=\""@
        + o.value@ + "\">"@ + o.label@ + "</button>"@
}

pub open spec fn chips_html(os: Seq<ProfileOptionProps>) -> Seq<char>
    decreases os.len(),
{
    if os.len() == 0 {
        Seq::<char>::empty()
    } else {
        chips_html(os.drop_last()) + profile_chip_html(os.last())
    }
}

/// The profile selector's HTML around its choices.
pub open spec fn profile_selector_html(chips: Seq<char>) -> Seq<char> {
    "<div class=\"profile-row\" role=\"group\" aria-label=\"Blocklist profile selector\">"@ + chips
        + "</div>"@
}

/// The profile selector: one button per choice, in order.
pub fn render_profile_selector(options: &[ProfileOptionProps<'_>]) -> (r: String)
    ensures
        r@ == profile_selector_html(chips_html(options@)),
{
    let mut chips = String::new();
    let mut i: usize = 0;
    while i < options.len()
        invariant
            i <= options.len(),
            chips@ == chips_html(options@.take(i as int)),
        decreases options.len() - i,
    {
        let o = &options[i];
        let ghost t = options@.take(i + 1);
        assert(t.drop_last() =~= options@.take(i as int));
        let chip = String::from_str("<button id=\"").concat(o.id).concat(
            "\" class=\"profile-chip\" type=\"button\" aria-pressed=\"false\" data-profile=\"",
        ).concat(o.value).concat("\">").concat(o.label).concat("</button>");
        chips.append(chip.as_str());
        i = i + 1;
    }
    assert(options@.take(options.len() as int) =~= options@);
    String::from_str(
        "<div class=\"profile-row\" role=\"group\" aria-label=\"Blocklist profile selector\">",
    ).concat(chips.as_str()).concat("</div>")
}

/// A card's HTML.
pub open spec fn card_html(title: Seq<char>, content: Seq<char>, footer: Seq<char>) -> Seq<char> {
    "<section class=\"card\">\n        <h2>"@ + title + "</h2>\n        "@ + content + "\n        "@
        + footer + "\n      </section>"@
}

/// A card: a titled section with content and a footer.
pub fn render_card(title: &str, content: &str, footer: &str) -> (r: String)
    ensures
        r@ == card_html(title@, content@, footer@),
{
    String::from_str("<section class=\"card\">\n        <h2>").concat(title).concat(
        "</h2>\n        ",
    ).concat(content).concat("\n        ").concat(footer).concat("\n      </section>")
}

/// How one character is written in HTML text: `&`, `<`, `>`, `"` and `'` as
/// entities, every other character as itself.
pub open spec fn escape_char(c: char) -> Seq<char> {
    if c == '&' {
        "&amp;"@
    } else if c == '<' {
        "&lt;"@
    } else if c == '>' {
        "&gt;"@
    } else if c == '"' {
        "&quot;"@
    } else if c == '\'' {
        "&#39;"@
    } else {
        seq![c]
    }
}

/// `s` with every character escaped for HTML.
pub open spec fn escaped(s: Seq<char>) -> Seq<char>
    decreases s.len(),
{
    if s.len() == 0 {
        Seq::<char>::empty()
    } else {
        escaped(s.drop_last()) + escape_char(s.last())
    }
}

/// Escapes `value` for use in HTML text and attribute values.
pub fn escape_html(value: &str) -> (r: String)
    ensures
        r@ == escaped(value@),
{
    let chars = crate::text::chars_of(value);
    let mut r = String::new();
    let mut i: usize = 0;
    while i < chars.len()
        invariant
            i <= chars.len(),
            chars@ == value@,
            r@ == escaped(chars@.take(i as int)),
        decreases chars.len() - i,
    {
        let c = chars[i];
        let ghost t = chars@.take(i + 1);
        assert(t.drop_last() =~= chars@.take(i as int));
        assert(t.last() == c);
        if c == '&' {
            r.append("&amp;");
        } else if c == '<' {
            r.append("&lt;");
        } else if c == '>' {
            r.append("&gt;");
        } else if c == '"' {
            r.append("&quot;");
        } else if c == '\'' {
            r.append("&#39;");
        } else {
            let one: Vec<char> = vec![c];
            let s = crate::text::string_of(one.as_slice());
            assert(s@ =~= seq![c]);
            r.append(s.as_str());
        }
        i = i + 1;
    }
    assert(chars@.take(chars.len() as int) =~= chars@);
    r
}

/// Escaped text holds no character that could open or close markup or an
/// attribute value: no `<`, `>`, `"` or `'`.
pub proof fn lemma_escaped_is_inert(s: Seq<char>)
    ensures
        forall|i: int|
            0 <= i < escaped(s).len() ==> escaped(s)[i] != '<' && escaped(s)[i] != '>'
                && escaped(s)[i] != '"' && escaped(s)[i] != '\'',
    decreases s.len(),
{
    reveal_strlit("&amp;");
    reveal_strlit("&lt;");
    reveal_strlit("&gt;");
    reveal_strlit("&quot;");
    reveal_strlit("&#39;");
    if s.len() > 0 {
        lemma_escaped_is_inert(s.drop_last());
        let prev = escaped(s.drop_last());
        let e = escape_char(s.last());
        assert forall|i: int| 0 <= i < e.len() implies e[i] != '<' && e[i] != '>' && e[i] != '"'
            && e[i] != '\'' by {}
        assert forall|i: int| 0 <= i < escaped(s).len() implies escaped(s)[i] != '<'
            && escaped(s)[i] != '>' && escaped(s)[i] != '"' && escaped(s)[i] != '\'' by {
            if i < prev.len() {
                assert(escaped(s)[i] == prev[i]);
            } else {
                assert(escaped(s)[i] == e[i - prev.len()]);
            }
        }
    }
}

} // verus!
