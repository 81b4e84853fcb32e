//! Readable page previews: a page's title, summary and sections of text,
//! extracted from its HTML.

use vstd::prelude::*;
use vstd::utf8::encode_utf8;
use crate::text::{collapse_ws, join, join_strings, normalize_whitespace, string_views};

verus! {

/// A readable preview of a web page.
#[derive(Clone, Debug)]
pub struct Page {
    pub url: String,
    pub title: String,
    pub summary: String,
    pub status: String,
    pub sections: Vec<PageSection>,
}

/// One titled section of a page preview.
#[derive(Clone, Debug)]
pub struct PageSection {
    pub heading: String,
    pub body: String,
}

/// Something that can fetch a readable preview of an address.
pub trait PageLoader: Send + Sync {
    fn load(&self, url: &str) -> Result<Page, String>;
}

/// The text shown where a page has no readable text.
pub open spec fn no_text() -> Seq<char> {
    "No readable text content found for this page."@
}

/// The first `max_chars` characters of `s`, or the no-text note where that
/// leaves nothing.
pub open spec fn truncated(s: Seq<char>, max_chars: nat) -> Seq<char> {
    let t = if s.len() <= max_chars { s } else { s.take(max_chars as int) };
    if t.len() == 0 {
        no_text()
    } else {
        t
    }
}

/// Keeps at most the first `max_chars` characters of `input`.
pub fn truncate(input: &str, max_chars: usize) -> (r: String)
    ensures
        r@ == truncated(input@, max_chars as nat),
{
    let chars = crate::text::chars_of(input);
    let n = if chars.len() <= max_chars { chars.len() } else { max_chars };
    if n == 0 {
        return String::from_str("No readable text content found for this page.");
    }
    let head = crate::text::slice_range(chars.as_slice(), 0, n);
    assert(head@ =~= (if input@.len() <= max_chars { input@ } else { input@.take(max_chars as int) }));
    crate::text::string_of(head.as_slice())
}

/// The decimal digits of `n`.
pub open spec fn decimal(n: nat) -> Seq<char>
    decreases n,
{
    if n < 10 {
        seq![((n + 48) as u8) as char]
    } else {
        decimal(n / 10).push((((n % 10) + 48) as u8) as char)
    }
}

/// `n` written in decimal.
pub fn decimal_string(n: usize) -> (r: String)
    ensures
        r@ == decimal(n as nat),
    decreases n,
{
    let d = n % 10;
    let c = ((d as u8) + 48) as char;
    let mut one: Vec<char> = Vec::new();
    one.push(c);
    if n < 10 {
        assert(one@ =~= seq![((n + 48) as u8) as char]);
        crate::text::string_of(one.as_slice())
    } else {
        let prefix = decimal_string(n / 10);
        let digit = crate::text::string_of(one.as_slice());
        let r = prefix.concat(digit.as_str());
        assert(r@ =~= decimal((n / 10) as nat).push((((n % 10) + 48) as u8) as char));
        r
    }
}

/// The text of an element: its text nodes joined by spaces, with whitespace
/// runs collapsed.
pub open spec fn node_text(pieces: Seq<Seq<char>>) -> Seq<char> {
    collapse_ws(join(pieces, seq![' ']))
}

/// The length in UTF-8 bytes (`str::len`).
pub open spec fn byte_len(s: Seq<char>) -> usize {
    encode_utf8(s).len() as usize
}

/// The text of an element, from its text nodes.
fn element_text(pieces: &Vec<String>) -> (r: String)
    ensures
        r@ == node_text(string_views(pieces@)),
{
    let joined = join_strings(pieces, " ");
    proof {
        reveal_strlit(" ");
        assert(" "@ =~= seq![' ']);
    }
    normalize_whitespace(joined.as_str())
}

/// The non-empty texts of `ts`, in order.
pub open spec fn nonempty_texts(ts: Seq<Seq<char>>) -> Seq<Seq<char>>
    decreases ts.len(),
{
    if ts.len() == 0 {
        seq![]
    } else {
        let p = nonempty_texts(ts.drop_last());
        if ts.last().len() > 0 {
            p.push(ts.last())
        } else {
            p
        }
    }
}

/// The texts of `ts` longer than 30 bytes, in order.
pub open spec fn long_texts(ts: Seq<Seq<char>>) -> Seq<Seq<char>>
    decreases ts.len(),
{
    if ts.len() == 0 {
        seq![]
    } else {
        let p = long_texts(ts.drop_last());
        if byte_len(ts.last()) > 30 {
            p.push(ts.last())
        } else {
            p
        }
    }
}

/// At most the first `n` items of `s`.
pub open spec fn first_n<T>(s: Seq<T>, n: nat) -> Seq<T> {
    if s.len() <= n {
        s
    } else {
        s.take(n as int)
    }
}

/// The texts of the elements given by their text nodes.
pub open spec fn node_texts(nodes: Seq<Seq<Seq<char>>>) -> Seq<Seq<char>> {
    Seq::new(nodes.len(), |i: int| node_text(nodes[i]))
}

/// The first `limit` element texts that are non-empty (`long` false) or
/// longer than 30 bytes (`long` true).
pub open spec fn kept_texts(nodes: Seq<Seq<Seq<char>>>, long: bool, limit: nat) -> Seq<Seq<char>> {
    if long {
        first_n(long_texts(node_texts(nodes)), limit)
    } else {
        first_n(nonempty_texts(node_texts(nodes)), limit)
    }
}

fn keep_texts(nodes: &Vec<Vec<String>>, long: bool, limit: usize) -> (r: Vec<String>)
    ensures
        string_views(r@) == kept_texts(nested_views(nodes@), long, limit as nat),
{
    let ghost all = node_texts(nested_views(nodes@));
    let mut r: Vec<String> = Vec::new();
    let mut i: usize = 0;
    while i < nodes.len()
        invariant
            i <= nodes.len(),
            all == node_texts(nested_views(nodes@)),
            string_views(r@) == (if long {
                first_n(long_texts(all.take(i as int)), limit as nat)
            } else {
                first_n(nonempty_texts(all.take(i as int)), limit as nat)
            }),
        decreases nodes.len() - i,
    {
        let text = element_text(&nodes[i]);
        let ghost t = all.take(i + 1);
        assert(t.drop_last() =~= all.take(i as int));
        assert(t.last() == text@);
        let keep = if long { text.as_str().len() > 30 } else { text.as_str().unicode_len() > 0 };
        let ghost prev = if long { long_texts(all.take(i as int)) } else { nonempty_texts(all.take(i as int)) };
        if keep {
            if r.len() < limit {
                let ghost before = string_views(r@);
                r.push(text);
                assert(string_views(r@) =~= before.push(t.last()));
                assert(string_views(r@) =~= first_n(prev.push(t.last()), limit as nat));
            } else {
                assert(first_n(prev.push(t.last()), limit as nat) =~= first_n(prev, limit as nat));
            }
        }
        i = i + 1;
    }
    assert(all.take(nodes.len() as int) =~= all);
    r
}

/// The text nodes of a list of elements, as values.
pub open spec fn nested_views(v: Seq<Vec<String>>) -> Seq<Seq<Seq<char>>> {
    v.map_values(|e: Vec<String>| string_views(e@))
}

/// What `scraper` selects in the document `html` with the CSS selector
/// `selector`: `None` where the selector does not parse, else, for each
/// matching element in document order, its descendant text nodes in order.
pub uninterp spec fn html_select_text(html: Seq<char>, selector: Seq<char>) -> Option<Seq<Seq<Seq<char>>>>;

/// What `scraper` selects in the document `html` with the CSS selector
/// `outer`, and within each such element with `first` and `second`: `None`
/// where a selector does not parse, else, for each element matching `outer`
/// in document order, its text nodes, and the text nodes of each element
/// within it matching `first`, and `second`.
pub uninterp spec fn html_blocks(
    html: Seq<char>,
    outer: Seq<char>,
    first: Seq<char>,
    second: Seq<char>,
) -> Option<Seq<(Seq<Seq<char>>, Seq<Seq<Seq<char>>>, Seq<Seq<Seq<char>>>)>>;

/// An element of a document: its text nodes, and the text nodes of two kinds
/// of elements within it.
pub struct HtmlBlock {
    pub text: Vec<String>,
    pub first: Vec<Vec<String>>,
    pub second: Vec<Vec<String>>,
}

pub open spec fn block_view(b: HtmlBlock) -> (Seq<Seq<char>>, Seq<Seq<Seq<char>>>, Seq<Seq<Seq<char>>>) {
    (string_views(b.text@), nested_views(b.first@), nested_views(b.second@))
}

pub open spec fn blocks_view(o: Option<Vec<HtmlBlock>>) -> Option<Seq<(Seq<Seq<char>>, Seq<Seq<Seq<char>>>, Seq<Seq<Seq<char>>>)>> {
    match o {
        Some(v) => Some(v@.map_values(|b: HtmlBlock| block_view(b))),
        None => None,
    }
}

pub open spec fn nodes_view(o: Option<Vec<Vec<String>>>) -> Option<Seq<Seq<Seq<char>>>> {
    match o {
        Some(v) => Some(nested_views(v@)),
        None => None,
    }
}

/// Selects elements of `html` and reads their text nodes.
///
/// Trusted: calls `scraper::Selector::parse`, `scraper::Html::parse_document`,
/// `Html::select` and `ElementRef::text`; the contract only names the outcome
/// (`html_select_text`).
#[verifier::external_body]
fn select_text(html: &str, selector: &str) -> (r: Option<Vec<Vec<String>>>)
    ensures
        nodes_view(r) == html_select_text(html@, selector@),
{
    let selector = scraper::Selector::parse(selector).ok()?;
    let document = scraper::Html::parse_document(html);
    Some(
        document.select(&selector).map(|e| e.text().map(|t| t.to_string()).collect()).collect(),
    )
}

/// Selects elements of `html`, and elements within each of them, and reads
/// their text nodes.
///
/// Trusted: calls `scraper::Selector::parse`, `scraper::Html::parse_document`,
/// `Html::select`, `ElementRef::select` and `ElementRef::text`; the contract
/// only names the outcome (`html_blocks`).
#[verifier::external_body]
fn select_blocks(html: &str, outer: &str, first: &str, second: &str) -> (r: Option<Vec<HtmlBlock>>)
    ensures
        blocks_view(r) == html_blocks(html@, outer@, first@, second@),
{
    let (outer, first, second) = (
        scraper::Selector::parse(outer).ok()?,
        scraper::Selector::parse(first).ok()?,
        scraper::Selector::parse(second).ok()?,
    );
    let texts = |e: scraper::ElementRef| e.text().map(|t| t.to_string()).collect::<Vec<String>>();
    let document = scraper::Html::parse_document(html);
    Some(document.select(&outer).map(|e| HtmlBlock {
        text: texts(e),
        first: e.select(&first).map(texts).collect(),
        second: e.select(&second).map(texts).collect(),
    }).collect())
}

/// The size by which the richest element is chosen: the byte length of all its text.
pub open spec fn block_size(b: (Seq<Seq<char>>, Seq<Seq<Seq<char>>>, Seq<Seq<Seq<char>>>)) -> usize {
    byte_len(join(b.0, seq![]))
}

/// The position of the last largest block (`Iterator::max_by_key`).
pub open spec fn last_max_index(bs: Seq<(Seq<Seq<char>>, Seq<Seq<Seq<char>>>, Seq<Seq<Seq<char>>>)>) -> int
    decreases bs.len(),
{
    if bs.len() <= 1 {
        0
    } else {
        let p = last_max_index(bs.drop_last());
        if block_size(bs.last()) >= block_size(bs.drop_last()[p]) {
            bs.len() - 1
        } else {
            p
        }
    }
}

/// The content root is the largest block: no block is larger than the one at
/// `last_max_index`, and every block after it is smaller.
pub proof fn lemma_last_max_index_is_largest(
    bs: Seq<(Seq<Seq<char>>, Seq<Seq<Seq<char>>>, Seq<Seq<Seq<char>>>)>,
)
    requires
        bs.len() > 0,
    ensures
        0 <= last_max_index(bs) < bs.len(),
        forall|j: int|
            0 <= j < bs.len() ==> block_size(bs[last_max_index(bs)]) >= #[trigger] block_size(bs[j]),
        forall|j: int|
            last_max_index(bs) < j < bs.len() ==> block_size(bs[last_max_index(bs)]) > #[trigger] block_size(
                bs[j],
            ),
    decreases bs.len(),
{
    if bs.len() > 1 {
        let init = bs.drop_last();
        lemma_last_max_index_is_largest(init);
        let p = last_max_index(init);
        let m = last_max_index(bs);
        assert(init[p] == bs[p]);
        assert(bs.last() == bs[bs.len() - 1]);
        assert forall|j: int| 0 <= j < bs.len() implies block_size(bs[m]) >= #[trigger] block_size(
            bs[j],
        ) by {
            if j < bs.len() - 1 {
                assert(bs[j] == init[j]);
                assert(block_size(init[p]) >= block_size(init[j]));
            }
        }
        assert forall|j: int| m < j < bs.len() implies block_size(bs[m]) > #[trigger] block_size(bs[j]) by {
            if j < bs.len() - 1 {
                assert(bs[j] == init[j]);
                assert(block_size(init[p]) > block_size(init[j]));
            }
        }
    }
}

/// The paragraphs of the `i`-th group of three.
pub open spec fn chunk(ps: Seq<Seq<char>>, i: int) -> Seq<Seq<char>> {
    ps.subrange(3 * i, if 3 * i + 3 <= ps.len() { 3 * i + 3 } else { ps.len() as int })
}

/// The heading of the `i`-th section: the `i`-th heading, else `Section <i+1>`.
pub open spec fn section_heading(headings: Seq<Seq<char>>, i: int) -> Seq<char> {
    if i < headings.len() {
        headings[i]
    } else {
        "Section "@ + decimal((i + 1) as nat)
    }
}

/// Sections from the headings and paragraphs of the main content: with both,
/// one section per three paragraphs, titled by the headings in turn; with
/// paragraphs only, one `Page content` section of all of them.
pub open spec fn content_sections(headings: Seq<Seq<char>>, paragraphs: Seq<Seq<char>>) -> Seq<(Seq<char>, Seq<char>)> {
    if headings.len() > 0 && paragraphs.len() > 0 {
        Seq::new(
            ((paragraphs.len() + 2) / 3) as nat,
            |i: int| (section_heading(headings, i), join(chunk(paragraphs, i), seq!['\n', '\n'])),
        )
    } else if paragraphs.len() > 0 {
        seq![("Page content"@, join(paragraphs, seq!['\n', '\n']))]
    } else {
        seq![]
    }
}

/// The sections found in the richest content element, if any.
pub open spec fn found_sections(blocks: Option<Seq<(Seq<Seq<char>>, Seq<Seq<Seq<char>>>, Seq<Seq<Seq<char>>>)>>) -> Seq<(Seq<char>, Seq<char>)> {
    match blocks {
        Some(bs) => if bs.len() > 0 {
            let root = bs[last_max_index(bs)];
            content_sections(kept_texts(root.1, false, 8), kept_texts(root.2, true, 24))
        } else {
            seq![]
        },
        None => seq![],
    }
}

/// The whole body's text, cut to 8000 characters, for pages without sections.
pub open spec fn fallback_text(body: Option<Seq<Seq<Seq<char>>>>) -> Seq<char> {
    let text = match body {
        Some(ns) => if ns.len() > 0 {
            node_text(ns[0])
        } else {
            no_text()
        },
        None => no_text(),
    };
    truncated(text, 8000)
}

/// The sections of the preview: those found, else one `Page content` section
/// of the body's text.
pub open spec fn readable_sections(
    blocks: Option<Seq<(Seq<Seq<char>>, Seq<Seq<Seq<char>>>, Seq<Seq<Seq<char>>>)>>,
    body: Option<Seq<Seq<Seq<char>>>>,
) -> Seq<(Seq<char>, Seq<char>)> {
    let found = found_sections(blocks);
    if found.len() > 0 {
        found
    } else {
        seq![("Page content"@, fallback_text(body))]
    }
}

/// The page title: the first `title` element's text where it is not empty,
/// else `Untitled page`.
pub open spec fn title_text(titles: Option<Seq<Seq<Seq<char>>>>) -> Seq<char> {
    match titles {
        Some(ns) => if ns.len() > 0 && node_text(ns[0]).len() > 0 {
            node_text(ns[0])
        } else {
            "Untitled page"@
        },
        None => "Untitled page"@,
    }
}

pub open spec fn sections_view(v: Seq<PageSection>) -> Seq<(Seq<char>, Seq<char>)> {
    v.map_values(|s: PageSection| (s.heading@, s.body@))
}

/// `page` is the preview of `url` (fetched with `status`) from what was
/// selected in its HTML.
pub open spec fn is_readable_page(
    page: Page,
    url: Seq<char>,
    status: Seq<char>,
    titles: Option<Seq<Seq<Seq<char>>>>,
    blocks: Option<Seq<(Seq<Seq<char>>, Seq<Seq<Seq<char>>>, Seq<Seq<Seq<char>>>)>>,
    body: Option<Seq<Seq<Seq<char>>>>,
) -> bool {
    let sections = readable_sections(blocks, body);
    &&& page.url@ == url
    &&& page.title@ == title_text(titles)
    &&& page.status@ == status
    &&& sections_view(page.sections@) == sections
    &&& page.summary@ == truncated(sections[0].1, 220)
}

fn richest_block(blocks: &Vec<HtmlBlock>) -> (r: usize)
    requires
        blocks@.len() > 0,
    ensures
        r == last_max_index(blocks@.map_values(|b: HtmlBlock| block_view(b))),
        r < blocks@.len(),
{
    let ghost bs = blocks@.map_values(|b: HtmlBlock| block_view(b));
    let mut best: usize = 0;
    let mut best_size = join_strings(&blocks[0].text, "").as_str().len();
    let mut i: usize = 1;
    proof {
        reveal_strlit("");
        assert(""@ =~= Seq::<char>::empty());
    }
    assert(bs[0] == block_view(blocks@[0]));
    while i < blocks.len()
        invariant
            1 <= i <= blocks.len(),
            bs == blocks@.map_values(|b: HtmlBlock| block_view(b)),
            best < i,
            best == last_max_index(bs.take(i as int)),
            best_size == block_size(bs[best as int]),
            ""@ == Seq::<char>::empty(),
        decreases blocks.len() - i,
    {
        let size = join_strings(&blocks[i].text, "").as_str().len();
        let ghost t = bs.take(i + 1);
        assert(t.drop_last() =~= bs.take(i as int));
        assert(t.last() == bs[i as int]);
        assert(bs[i as int] == block_view(blocks@[i as int]));
        assert(t.drop_last()[best as int] == bs[best as int]);
        if size >= best_size {
            best = i;
            best_size = size;
        }
        i = i + 1;
    }
    assert(bs.take(blocks.len() as int) =~= bs);
    best
}

fn sections_from(headings: &Vec<String>, paragraphs: &Vec<String>) -> (r: Vec<PageSection>)
    ensures
        sections_view(r@) == content_sections(string_views(headings@), string_views(paragraphs@)),
{
    let ghost hs = string_views(headings@);
    let ghost ps = string_views(paragraphs@);
    let mut r: Vec<PageSection> = Vec::new();
    proof {
        reveal_strlit("\n\n");
        assert("\n\n"@ =~= seq!['\n', '\n']);
    }
    if headings.len() > 0 && paragraphs.len() > 0 {
        let mut start: usize = 0;
        while start < paragraphs.len()
            invariant
                hs == string_views(headings@),
                ps == string_views(paragraphs@),
                ps.len() == paragraphs@.len(),
                "\n\n"@ == seq!['\n', '\n'],
                headings.len() > 0,
                start == 3 * r@.len() || (start == paragraphs.len() && 3 * r@.len() >= ps.len()),
                3 * r@.len() < ps.len() + 3,
                forall|m: int|
                    #![trigger r@[m]]
                    0 <= m < r@.len() ==> r@[m].heading@ == section_heading(hs, m) && r@[m].body@
                        == join(chunk(ps, m), seq!['\n', '\n']),
            decreases paragraphs.len() + 3 - start,
        {
            let i = r.len();
            let end = if paragraphs.len() - start >= 3 { start + 3 } else { paragraphs.len() };
            let mut group: Vec<String> = Vec::new();
            let mut j = start;
            while j < end
                invariant
                    start == 3 * i,
                    i == r@.len(),
                    start <= j <= end <= paragraphs.len(),
                    string_views(group@) =~= ps.subrange(3 * i, j as int),
                    ps == string_views(paragraphs@),
                decreases end - j,
            {
                let ghost before = string_views(group@);
                group.push(paragraphs[j].clone());
                assert(string_views(group@) =~= before.push(ps[j as int]));
                j = j + 1;
            }
            let heading = if i < headings.len() {
                headings[i].clone()
            } else {
                String::from_str("Section ").concat(decimal_string(i + 1).as_str())
            };
            let body = join_strings(&group, "\n\n");
            assert(string_views(group@) == chunk(ps, i as int));
            r.push(PageSection { heading, body });
            start = end;
        }
        assert(r@.len() == (ps.len() + 2) / 3);
        assert(sections_view(r@) =~= content_sections(hs, ps));
    } else if paragraphs.len() > 0 {
        let body = join_strings(paragraphs, "\n\n");
        r.push(PageSection { heading: String::from_str("Page content"), body });
        assert(sections_view(r@) =~= content_sections(hs, ps));
    }
    r
}

/// The readable preview of `url`, fetched with HTTP status `status`, from what
/// was selected in its HTML: the title elements, the content elements with
/// their headings and paragraphs, and the body elements.
pub fn readable_page(
    url: &str,
    status: String,
    titles: Option<Vec<Vec<String>>>,
    blocks: Option<Vec<HtmlBlock>>,
    body: Option<Vec<Vec<String>>>,
) -> (r: Page)
    ensures
        is_readable_page(r, url@, status@, nodes_view(titles), blocks_view(blocks), nodes_view(body)),
{
    let mut sections: Vec<PageSection> = match &blocks {
        Some(bs) => if bs.len() > 0 {
            let k = richest_block(bs);
            let root = &bs[k];
            let headings = keep_texts(&root.first, false, 8);
            let paragraphs = keep_texts(&root.second, true, 24);
            sections_from(&headings, &paragraphs)
        } else {
            Vec::new()
        },
        None => Vec::new(),
    };
    assert(sections_view(sections@) == found_sections(blocks_view(blocks)));
    if sections.len() == 0 {
        let text = match &body {
            Some(ns) => if ns.len() > 0 {
                element_text(&ns[0])
            } else {
                String::from_str("No readable text content found for this page.")
            },
            None => String::from_str("No readable text content found for this page."),
        };
        let fallback = truncate(text.as_str(), 8000);
        sections.push(PageSection { heading: String::from_str("Page content"), body: fallback });
        assert(sections_view(sections@) =~= readable_sections(blocks_view(blocks), nodes_view(body)));
    }
    let summary = truncate(sections[0].body.as_str(), 220);
    let title = match &titles {
        Some(ns) => if ns.len() > 0 {
            let t = element_text(&ns[0]);
            if t.as_str().unicode_len() > 0 {
                t
            } else {
                String::from_str("Untitled page")
            }
        } else {
            String::from_str("Untitled page")
        },
        None => String::from_str("Untitled page"),
    };
    Page { url: String::from_str(url), title, summary, status, sections }
}

/// The readable preview of the page at `url` whose HTML is `html`, fetched
/// with HTTP status `status`.
pub fn page_from_html(url: &str, status: String, html: &str) -> (r: Page)
    ensures
        is_readable_page(
            r,
            url@,
            status@,
            html_select_text(html@, "title"@),
            html_blocks(html@, "article, main, section, body"@, "h1, h2, h3"@, "p, li, blockquote, pre"@),
            html_select_text(html@, "body"@),
        ),
{
    let titles = select_text(html, "title");
    let blocks = select_blocks(html, "article, main, section, body", "h1, h2, h3", "p, li, blockquote, pre");
    let body = select_text(html, "body");
    readable_page(url, status, titles, blocks, body)
}

} // verus!
