use rust_browser::page::{decimal_string, page_from_html, readable_page, truncate, HtmlBlock};

fn strings(items: &[&str]) -> Vec<String> {
    items.iter().map(|s| s.to_string()).collect()
}

#[test]
fn truncation_keeps_leading_characters() {
    assert_eq!(truncate("héllo wörld", 5), "héllo");
    assert_eq!(truncate("short", 220), "short");
    assert_eq!(truncate("", 10), "No readable text content found for this page.");
    assert_eq!(truncate("abc", 0), "No readable text content found for this page.");
}

#[test]
fn decimal_numbers() {
    assert_eq!(decimal_string(0), "0");
    assert_eq!(decimal_string(7), "7");
    assert_eq!(decimal_string(1204), "1204");
}

#[test]
fn sections_group_paragraphs_by_three_under_headings() {
    let long = |i: usize| format!("Paragraph number {i} carries more than thirty bytes of text.");
    let paragraphs: Vec<Vec<String>> = (1..=7).map(|i| vec![long(i)]).collect();
    let blocks = vec![
        HtmlBlock { text: strings(&["tiny"]), first: vec![], second: vec![] },
        HtmlBlock {
            text: strings(&["a much longer main content block"]),
            first: vec![strings(&["  Intro  "]), strings(&[" "]), strings(&["Details"])],
            second: paragraphs,
        },
    ];
    let page = readable_page(
        "https://x.test",
        "200 OK".to_string(),
        Some(vec![strings(&[" My ", "  Page "])]),
        Some(blocks),
        None,
    );
    assert_eq!(page.title, "My Page");
    assert_eq!(page.url, "https://x.test");
    assert_eq!(page.status, "200 OK");
    assert_eq!(page.sections.len(), 3);
    assert_eq!(page.sections[0].heading, "Intro");
    assert_eq!(page.sections[1].heading, "Details");
    assert_eq!(page.sections[2].heading, "Section 3");
    assert_eq!(page.sections[0].body, format!("{}\n\n{}\n\n{}", long(1), long(2), long(3)));
    assert_eq!(page.sections[2].body, long(7));
    let expected_summary: String = page.sections[0].body.chars().take(220).collect();
    assert_eq!(page.summary, expected_summary);
}

#[test]
fn short_paragraphs_fall_back_to_body_text() {
    let blocks = vec![HtmlBlock {
        text: strings(&["x"]),
        first: vec![strings(&["Heading"])],
        second: vec![strings(&["too short"])],
    }];
    let page = readable_page(
        "https://y.test",
        "404 Not Found".to_string(),
        None,
        Some(blocks),
        Some(vec![strings(&["  body   text\n here "])]),
    );
    assert_eq!(page.title, "Untitled page");
    assert_eq!(page.sections.len(), 1);
    assert_eq!(page.sections[0].heading, "Page content");
    assert_eq!(page.sections[0].body, "body text here");
    assert_eq!(page.summary, "body text here");
}

#[test]
fn paragraphs_without_headings_form_one_section() {
    let p = "A paragraph that is comfortably longer than thirty bytes.";
    let blocks = vec![HtmlBlock { text: strings(&["t"]), first: vec![], second: vec![strings(&[p]), strings(&[p])] }];
    let page = readable_page("u", "200 OK".to_string(), None, Some(blocks), None);
    assert_eq!(page.sections.len(), 1);
    assert_eq!(page.sections[0].heading, "Page content");
    assert_eq!(page.sections[0].body, format!("{p}\n\n{p}"));
}

#[test]
fn nothing_readable() {
    let page = readable_page("u", "200 OK".to_string(), Some(vec![]), None, None);
    assert_eq!(page.title, "Untitled page");
    assert_eq!(page.sections[0].body, "No readable text content found for this page.");
}

#[test]
fn extracts_from_html() {
    let html = r#"<html><head><title>  Rust
        Blog </title></head><body>
        <nav>menu</nav>
        <article>
          <h1>Announcing Rust</h1>
          <p>The Rust team is happy to announce a new version of Rust today.</p>
          <p>short</p>
          <li>Stabilized APIs are listed in the detailed release notes below.</li>
        </article>
        </body></html>"#;
    let page = page_from_html("https://blog.rust-lang.org", "200 OK".to_string(), html);
    assert_eq!(page.title, "Rust Blog");
    assert_eq!(page.sections.len(), 1);
    assert_eq!(page.sections[0].heading, "Announcing Rust");
    assert_eq!(
        page.sections[0].body,
        "The Rust team is happy to announce a new version of Rust today.\n\nStabilized APIs are listed in the detailed release notes below."
    );
}

#[test]
fn html_without_paragraphs_uses_body() {
    let html = "<html><body><div>Just   some\ntext</div></body></html>";
    let page = page_from_html("https://z.test", "200 OK".to_string(), html);
    assert_eq!(page.title, "Untitled page");
    assert_eq!(page.sections[0].body, "Just some text");
}
