//! Domain blocklists: parsing rule lines in hosts-file and adblock-style
//! formats, and deciding whether a URL is blocked.

use vstd::prelude::*;
use crate::text::{
    append_chars, chars_eq, chars_of, ends_with, ends_with_chars, is_ws, line_pieces, lines, lower,
    lower_chars, opt_chars, slice_from, split_lines, split_words, str_eq, string_of,
    strip_line_end, strip_line_ends, trim, trim_chars, trim_end, trim_end_char, trim_end_char_chars,
    trim_start, trim_start_matches, trim_start_matches_chars, views, words,
};

verus! {

/// What `url::Url::parse` gives for `input`: `None` where it fails, else the
/// URL's scheme (`Url::scheme`) and its host (`Url::host_str`).
pub uninterp spec fn url_parts(input: Seq<char>) -> Option<(Seq<char>, Option<Seq<char>>)>;

/// Whether `std::net::IpAddr` parses `s` (`str::parse::<IpAddr>` gives `Ok`).
pub uninterp spec fn ip_address_syntax(s: Seq<char>) -> bool;

/// The parts of a parsed URL that blocking decisions read.
pub struct ParsedUrl {
    pub scheme: String,
    pub host: Option<String>,
}

pub open spec fn parsed_url_view(p: Option<ParsedUrl>) -> Option<(Seq<char>, Option<Seq<char>>)> {
    match p {
        Some(u) => Some((u.scheme@, opt_chars(u.host))),
        None => None,
    }
}

/// Parses `input` as an absolute URL.
///
/// Trusted: calls `url::Url::parse`, then `Url::scheme` and `Url::host_str` on
/// the result; the contract only names what comes back (`url_parts`).
#[verifier::external_body]
fn parse_url(input: &str) -> (r: Option<ParsedUrl>)
    ensures
        parsed_url_view(r) == url_parts(input@),
{
    url::Url::parse(input).ok().map(
        |u| ParsedUrl { scheme: u.scheme().to_string(), host: u.host_str().map(|h| h.to_string()) },
    )
}

/// Whether `s` parses as an IPv4 or IPv6 address.
///
/// Trusted: calls `str::parse::<IpAddr>`; the contract only names the outcome
/// (`ip_address_syntax`).
#[verifier::external_body]
fn parses_as_ip_address(s: &str) -> (r: bool)
    ensures
        r == ip_address_syntax(s@),
{
    s.parse::<core::net::IpAddr>().is_ok()
}

/// A scheme the blocklist lets through to the host check.
pub open spec fn is_web_scheme(scheme: Seq<char>) -> bool {
    scheme == "http"@ || scheme == "https"@
}

/// A rule line that holds no rule once trimmed: blank, or a comment
/// (`#`, `!`) or section header (`[`).
pub open spec fn is_skipped_line(t: Seq<char>) -> bool {
    t.len() == 0 || t[0] == '#' || t[0] == '!' || t[0] == '['
}

/// The last whitespace-separated token of `t`, or `t` where it has none.
pub open spec fn last_token(t: Seq<char>) -> Seq<char> {
    let w = words(t);
    if w.len() > 0 {
        w.last()
    } else {
        t
    }
}

/// The host a rule line names before it is checked: its last token without
/// leading `||` and `*.`, trailing `^` and `.`, in ASCII lower case.
pub open spec fn rule_candidate(line: Seq<char>) -> Seq<char> {
    let token = last_token(trim(line));
    let a = trim_start_matches(token, seq!['|', '|']);
    let b = trim_start_matches(a, seq!['*', '.']);
    lower(trim_end_char(trim_end_char(b, '^'), '.'))
}

/// A candidate host becomes a rule unless it is empty, `localhost` or an IP address.
pub open spec fn accepted_host(candidate: Seq<char>, is_ip: bool) -> Option<Seq<char>> {
    if candidate.len() == 0 || candidate == "localhost"@ || is_ip {
        None
    } else {
        Some(candidate)
    }
}

/// The rule that a line of a blocklist file yields, if any.
pub open spec fn rule_of_line(line: Seq<char>) -> Option<Seq<char>> {
    if is_skipped_line(trim(line)) {
        None
    } else {
        accepted_host(rule_candidate(line), ip_address_syntax(rule_candidate(line)))
    }
}

/// The rules of a sequence of lines, in order.
pub open spec fn rules_of_lines(ls: Seq<Seq<char>>) -> Seq<Seq<char>>
    decreases ls.len(),
{
    if ls.len() == 0 {
        seq![]
    } else {
        let prev = rules_of_lines(ls.drop_last());
        match rule_of_line(ls.last()) {
            Some(h) => prev.push(h),
            None => prev,
        }
    }
}

/// The rules of a blocklist text.
pub open spec fn rules_of_text(content: Seq<char>) -> Seq<Seq<char>> {
    rules_of_lines(lines(content))
}

/// A rule for `rule` covers `host` itself and every subdomain of it.
pub open spec fn host_matches(rule: Seq<char>, host: Seq<char>) -> bool {
    host == rule || ends_with(host, seq!['.'] + rule)
}

/// Some rule covers `host`.
pub open spec fn blocks_host(rules: Seq<Seq<char>>, host: Seq<char>) -> bool {
    exists|i: int| 0 <= i < rules.len() && host_matches(rules[i], host)
}

/// The host of a parsed URL as the rules see it: lower-cased, empty where absent.
pub open spec fn host_key(host: Option<Seq<char>>) -> Seq<char> {
    match host {
        Some(h) => lower(h),
        None => seq![],
    }
}

/// The blocking verdict for a URL, given what URL parsing gave: a URL that does
/// not parse, or whose scheme is not `http` or `https`, is blocked; otherwise it
/// is blocked when some rule covers its host.
pub open spec fn verdict(rules: Seq<Seq<char>>, parts: Option<(Seq<char>, Option<Seq<char>>)>) -> bool {
    match parts {
        None => true,
        Some((scheme, host)) => !is_web_scheme(scheme) || blocks_host(rules, host_key(host)),
    }
}

/// One blocked domain.
#[derive(Clone)]
pub struct DomainRule {
    host: String,
}

impl View for DomainRule {
    type V = Seq<char>;

    closed spec fn view(&self) -> Seq<char> {
        self.host@
    }
}

impl DomainRule {
    /// The rule that `line` yields, if any.
    pub fn parse(line: &str) -> (r: Option<DomainRule>)
        ensures
            match r {
                Some(rule) => rule_of_line(line@) == Some(rule@),
                None => rule_of_line(line@) is None,
            },
    {
        let chars = chars_of(line);
        Self::parse_chars(chars.as_slice())
    }

    fn parse_chars(line: &[char]) -> (r: Option<DomainRule>)
        ensures
            match r {
                Some(rule) => rule_of_line(line@) == Some(rule@),
                None => rule_of_line(line@) is None,
            },
    {
        let trimmed = trim_chars(line);
        if trimmed.len() == 0 || trimmed[0] == '#' || trimmed[0] == '!' || trimmed[0] == '[' {
            return None;
        }
        let tokens = split_words(trimmed.as_slice());
        let token = if tokens.len() > 0 {
            let last = &tokens[tokens.len() - 1];
            slice_from(last.as_slice(), 0)
        } else {
            slice_from(trimmed.as_slice(), 0)
        };
        assert(token@ =~= last_token(trimmed@));
        let bars: Vec<char> = vec!['|', '|'];
        let star_dot: Vec<char> = vec!['*', '.'];
        assert(bars@ =~= seq!['|', '|']);
        assert(star_dot@ =~= seq!['*', '.']);
        let a = trim_start_matches_chars(token.as_slice(), bars.as_slice());
        let b = trim_start_matches_chars(a.as_slice(), star_dot.as_slice());
        let c = trim_end_char_chars(b.as_slice(), '^');
        let d = trim_end_char_chars(c.as_slice(), '.');
        let candidate = string_of(lower_chars(d.as_slice()).as_slice());
        assert(candidate@ == rule_candidate(line@));
        let is_ip = parses_as_ip_address(candidate.as_str());
        Self::from_candidate(candidate, is_ip)
    }

    /// The rule for a candidate host, given whether it parses as an IP address.
    pub fn from_candidate(candidate: String, is_ip: bool) -> (r: Option<DomainRule>)
        ensures
            match r {
                Some(rule) => accepted_host(candidate@, is_ip) == Some(rule@),
                None => accepted_host(candidate@, is_ip) is None,
            },
    {
        if candidate.as_str().unicode_len() == 0 || str_eq(candidate.as_str(), "localhost") || is_ip {
            None
        } else {
            Some(DomainRule { host: candidate })
        }
    }

    /// The blocked domain.
    pub fn host(&self) -> (r: &str)
        ensures
            r@ == self@,
    {
        self.host.as_str()
    }

    /// Whether this rule covers `host`: the same host or one of its subdomains.
    pub fn matches(&self, host: &str) -> (r: bool)
        ensures
            r == host_matches(self@, host@),
    {
        let h = chars_of(host);
        let rule = chars_of(self.host.as_str());
        if chars_eq(h.as_slice(), rule.as_slice()) {
            return true;
        }
        let mut dotted: Vec<char> = vec!['.'];
        append_chars(&mut dotted, rule.as_slice());
        assert(dotted@ =~= seq!['.'] + self@);
        ends_with_chars(h.as_slice(), dotted.as_slice())
    }
}

/// A list of blocked domains.
#[derive(Clone)]
pub struct Blocklist {
    rules: Vec<DomainRule>,
}

impl View for Blocklist {
    type V = Seq<Seq<char>>;

    closed spec fn view(&self) -> Seq<Seq<char>> {
        self.rules@.map_values(|r: DomainRule| r@)
    }
}

impl Blocklist {
    /// The blocklist of every rule line in `content`, in order.
    pub fn from_text(content: &str) -> (r: Blocklist)
        ensures
            r@ == rules_of_text(content@),
    {
        let chars = chars_of(content);
        let ls = split_lines(chars.as_slice());
        let mut rules: Vec<DomainRule> = Vec::new();
        let mut i: usize = 0;
        while i < ls.len()
            invariant
                i <= ls.len(),
                views(ls@) == lines(content@),
                rules@.map_values(|r: DomainRule| r@) == rules_of_lines(views(ls@).take(i as int)),
            decreases ls.len() - i,
        {
            let ghost t = views(ls@).take(i + 1);
            assert(t.drop_last() =~= views(ls@).take(i as int));
            assert(t.last() == ls@[i as int]@);
            let ghost before = rules@;
            match Self::parse_line(&ls[i]) {
                Some(rule) => {
                    rules.push(rule);
                    assert(rules@.map_values(|r: DomainRule| r@) =~= before.map_values(
                        |r: DomainRule| r@,
                    ).push(rule@));
                },
                None => {},
            }
            i = i + 1;
        }
        assert(views(ls@).take(ls.len() as int) =~= views(ls@));
        Blocklist { rules }
    }

    fn parse_line(line: &Vec<char>) -> (r: Option<DomainRule>)
        ensures
            match r {
                Some(rule) => rule_of_line(line@) == Some(rule@),
                None => rule_of_line(line@) is None,
            },
    {
        DomainRule::parse_chars(line.as_slice())
    }

    /// Whether navigation to `url` is blocked.
    pub fn blocks(&self, url: &str) -> (r: bool)
        ensures
            r == verdict(self@, url_parts(url@)),
    {
        let parsed = parse_url(url);
        self.blocks_parsed(parsed)
    }

    /// The verdict for a URL from what URL parsing gave for it.
    pub fn blocks_parsed(&self, parsed: Option<ParsedUrl>) -> (r: bool)
        ensures
            r == verdict(self@, parsed_url_view(parsed)),
    {
        let ghost parts = parsed_url_view(parsed);
        let web = match Self::web_url(parsed) {
            Ok(u) => u,
            Err(_) => return true,
        };
        let host = match &web.host {
            Some(h) => lower_chars(chars_of(h.as_str()).as_slice()),
            None => Vec::new(),
        };
        assert(host@ =~= host_key(opt_chars(web.host)));
        self.blocks_host_chars(host.as_slice())
    }

    /// The URL if its scheme is `http` or `https`, else the reason it is refused.
    pub fn web_url(parsed: Option<ParsedUrl>) -> (r: Result<ParsedUrl, String>)
        ensures
            match parsed {
                None => r matches Err(e) && e@ == "invalid url"@,
                Some(u) => if is_web_scheme(u.scheme@) {
                    r matches Ok(w) && w == u
                } else {
                    r matches Err(e) && e@ == "unsupported scheme"@
                },
            },
    {
        match parsed {
            None => Err(String::from_str("invalid url")),
            Some(u) => {
                if str_eq(u.scheme.as_str(), "http") || str_eq(u.scheme.as_str(), "https") {
                    Ok(u)
                } else {
                    Err(String::from_str("unsupported scheme"))
                }
            },
        }
    }

    fn blocks_host_chars(&self, host: &[char]) -> (r: bool)
        ensures
            r == blocks_host(self@, host@),
    {
        let host_str = string_of(host);
        let mut i: usize = 0;
        while i < self.rules.len()
            invariant
                i <= self.rules.len(),
                host_str@ == host@,
                forall|j: int| 0 <= j < i ==> !host_matches(self@[j], host@),
            decreases self.rules.len() - i,
        {
            if self.rules[i].matches(host_str.as_str()) {
                assert(host_matches(self@[i as int], host@));
                return true;
            }
            i = i + 1;
        }
        false
    }
}

/// A rule covers its own domain and every subdomain of it: for any `prefix`,
/// the host `prefix.rule` is covered.
pub proof fn lemma_rule_covers_subdomains(rules: Seq<Seq<char>>, i: int, prefix: Seq<char>)
    requires
        0 <= i < rules.len(),
    ensures
        blocks_host(rules, rules[i]),
        blocks_host(rules, prefix + seq!['.'] + rules[i]),
{
    let h = prefix + seq!['.'] + rules[i];
    assert(h.skip(h.len() - (seq!['.'] + rules[i]).len()) =~= seq!['.'] + rules[i]);
    assert(host_matches(rules[i], rules[i]));
    assert(host_matches(rules[i], h));
}

/// A rule never covers a host that merely ends with its text: a covered host
/// other than the rule itself has a `.` just before the rule's text.
pub proof fn lemma_no_partial_label_match(rule: Seq<char>, host: Seq<char>)
    requires
        host_matches(rule, host),
        host != rule,
    ensures
        host.len() > rule.len(),
        host[host.len() - rule.len() - 1] == '.',
        host.skip(host.len() - rule.len()) == rule,
{
    let suffix = seq!['.'] + rule;
    let tail = host.skip(host.len() - suffix.len());
    assert(tail == suffix);
    assert(tail[0] == host[host.len() - rule.len() - 1]);
    assert(host.skip(host.len() - rule.len()) =~= tail.drop_first());
}

/// Blocking fails closed: whatever the rules, a URL that does not parse, or
/// whose scheme is neither `http` nor `https`, is blocked.
pub proof fn lemma_fail_closed(rules: Seq<Seq<char>>, scheme: Seq<char>, host: Option<Seq<char>>)
    ensures
        verdict(rules, None),
        !is_web_scheme(scheme) ==> verdict(rules, Some((scheme, host))),
{
}

/// A list without rules blocks no web URL.
pub proof fn lemma_empty_blocklist_allows_web(scheme: Seq<char>, host: Option<Seq<char>>)
    requires
        is_web_scheme(scheme),
    ensures
        !verdict(seq![], Some((scheme, host))),
{
}

proof fn lemma_lower_idempotent(s: Seq<char>)
    ensures
        lower(lower(s)) == lower(s),
{
    assert(lower(lower(s)) =~= lower(s));
}

/// A well-formed blocked host: non-empty, without ASCII upper case or
/// whitespace, not starting with `*.`, not ending with `.`, not `localhost`
/// and not an IP address.
pub open spec fn is_rule_host(h: Seq<char>) -> bool {
    &&& h.len() > 0
    &&& lower(h) == h
    &&& forall|k: int| 0 <= k < h.len() ==> !is_ws(#[trigger] h[k])
    &&& !(h.len() >= 2 && h[0] == '*' && h[1] == '.')
    &&& h.last() != '.'
    &&& h != "localhost"@
    &&& !ip_address_syntax(h)
}

/// No character of `s` is whitespace.
pub open spec fn no_ws(s: Seq<char>) -> bool {
    forall|k: int| 0 <= k < s.len() ==> !is_ws(#[trigger] s[k])
}

/// Every rule of a blocklist text is a well-formed host.
pub proof fn lemma_rules_are_hosts(content: Seq<char>, i: int)
    requires
        0 <= i < rules_of_text(content).len(),
    ensures
        is_rule_host(rules_of_text(content)[i]),
{
    lemma_rules_of_lines_wellformed(lines(content), i);
}

/// Every rule a line yields is a well-formed host.
pub proof fn lemma_rule_of_line_is_host(line: Seq<char>)
    requires
        rule_of_line(line) is Some,
    ensures
        is_rule_host(rule_of_line(line)->0),
{
    let t = trim(line);
    let token = last_token(t);
    let a = trim_start_matches(token, seq!['|', '|']);
    let b = trim_start_matches(a, seq!['*', '.']);
    let c = trim_end_char(b, '^');
    let d = trim_end_char(c, '.');
    let h = lower(d);
    assert(h == rule_candidate(line));
    lemma_lower_idempotent(d);
    // no whitespace
    lemma_trim_end_last(trim_start(line));
    assert(t.len() > 0 && !is_ws(t.last()));
    lemma_words_no_ws(t);
    assert(words(t).len() > 0);
    assert(no_ws(token)) by {
        let w = words(t);
        assert forall|k: int| 0 <= k < token.len() implies !is_ws(#[trigger] token[k]) by {
            assert(token == w[w.len() - 1]);
        }
    }
    lemma_trim_start_matches_no_ws(token, seq!['|', '|']);
    lemma_trim_start_matches_no_ws(a, seq!['*', '.']);
    lemma_trim_end_char_prefix(b, '^');
    lemma_trim_end_char_prefix(c, '.');
    assert(no_ws(c)) by {
        assert forall|k: int| 0 <= k < c.len() implies !is_ws(#[trigger] c[k]) by {
            assert(c[k] == b[k]);
        }
    }
    assert(no_ws(d)) by {
        assert forall|k: int| 0 <= k < d.len() implies !is_ws(#[trigger] d[k]) by {
            assert(d[k] == c[k]);
        }
    }
    assert forall|k: int| 0 <= k < h.len() implies !is_ws(#[trigger] h[k]) by {
        assert(h[k] == crate::text::lower_char(d[k]));
        assert(!is_ws(d[k]));
    }
    // no leading `*.`
    lemma_trim_start_matches_no_prefix(a, seq!['*', '.']);
    if h.len() >= 2 && h[0] == '*' && h[1] == '.' {
        assert(h[0] == crate::text::lower_char(d[0]));
        assert(h[1] == crate::text::lower_char(d[1]));
        assert(d[0] == '*' && d[1] == '.');
        assert(d[0] == b[0] && d[1] == b[1]);
        assert(b.take(2) =~= seq!['*', '.']);
        assert(false);
    }
    // no trailing `.`
    lemma_trim_end_char_last(c, '.');
    assert(h.last() == crate::text::lower_char(d.last()));
}

proof fn lemma_trim_end_last(s: Seq<char>)
    ensures
        trim_end(s).len() > 0 ==> !is_ws(trim_end(s).last()),
    decreases s.len(),
{
    if s.len() > 0 && is_ws(s.last()) {
        lemma_trim_end_last(s.drop_last());
    }
}

proof fn lemma_words_no_ws(s: Seq<char>)
    ensures
        forall|i: int, k: int|
            0 <= i < words(s).len() && 0 <= k < words(s)[i].len() ==> !is_ws(#[trigger] words(s)[i][k]),
    decreases s.len(),
{
    if s.len() > 0 {
        lemma_words_no_ws(s.drop_last());
        let prev = words(s.drop_last());
        let w = words(s);
        let c = s.last();
        if !is_ws(c) {
            assert forall|i: int, k: int| 0 <= i < w.len() && 0 <= k < w[i].len() implies !is_ws(
                #[trigger] w[i][k],
            ) by {
                if i < prev.len() && !(i == prev.len() - 1 && w.len() == prev.len()) {
                    assert(w[i] == prev[i]);
                } else if i < prev.len() {
                    assert(w[i] == prev[i].push(c));
                    if k < prev[i].len() {
                        assert(w[i][k] == prev[i][k]);
                    }
                } else {
                    assert(w[i] == seq![c]);
                }
            }
        }
    }
}

proof fn lemma_trim_start_matches_no_ws(s: Seq<char>, p: Seq<char>)
    requires
        no_ws(s),
    ensures
        no_ws(trim_start_matches(s, p)),
    decreases s.len(),
{
    if p.len() > 0 && p.len() <= s.len() && s.take(p.len() as int) == p {
        let t = s.skip(p.len() as int);
        assert forall|k: int| 0 <= k < t.len() implies !is_ws(#[trigger] t[k]) by {
            assert(t[k] == s[k + p.len()]);
        }
        lemma_trim_start_matches_no_ws(t, p);
    }
}

proof fn lemma_trim_start_matches_no_prefix(s: Seq<char>, p: Seq<char>)
    requires
        p.len() > 0,
    ensures
        !(p.len() <= trim_start_matches(s, p).len() && trim_start_matches(s, p).take(p.len() as int) == p),
    decreases s.len(),
{
    if p.len() <= s.len() && s.take(p.len() as int) == p {
        lemma_trim_start_matches_no_prefix(s.skip(p.len() as int), p);
    }
}

proof fn lemma_trim_end_char_prefix(s: Seq<char>, c: char)
    ensures
        trim_end_char(s, c).len() <= s.len(),
        trim_end_char(s, c) == s.take(trim_end_char(s, c).len() as int),
    decreases s.len(),
{
    if s.len() > 0 && s.last() == c {
        lemma_trim_end_char_prefix(s.drop_last(), c);
        let r = trim_end_char(s, c);
        assert(r =~= s.take(r.len() as int));
    } else {
        assert(s =~= s.take(s.len() as int));
    }
}

proof fn lemma_trim_end_char_last(s: Seq<char>, c: char)
    ensures
        trim_end_char(s, c).len() > 0 ==> trim_end_char(s, c).last() != c,
    decreases s.len(),
{
    if s.len() > 0 && s.last() == c {
        lemma_trim_end_char_last(s.drop_last(), c);
    }
}

proof fn lemma_rules_of_lines_wellformed(ls: Seq<Seq<char>>, i: int)
    requires
        0 <= i < rules_of_lines(ls).len(),
    ensures
        is_rule_host(rules_of_lines(ls)[i]),
    decreases ls.len(),
{
    let prev = rules_of_lines(ls.drop_last());
    if i < prev.len() {
        lemma_rules_of_lines_wellformed(ls.drop_last(), i);
    } else {
        lemma_rule_of_line_is_host(ls.last());
    }
}

proof fn lemma_trim_start_push(y: Seq<char>, c: char)
    ensures
        trim_start(y.push(c)) == (if trim_start(y).len() == 0 {
            trim_start(seq![c])
        } else {
            trim_start(y).push(c)
        }),
    decreases y.len(),
{
    if y.len() == 0 {
        assert(y.push(c) =~= seq![c]);
    } else if is_ws(y[0]) {
        assert(y.push(c).drop_first() =~= y.drop_first().push(c));
        lemma_trim_start_push(y.drop_first(), c);
    } else {
        assert(y.push(c)[0] == y[0]);
    }
}

/// Trailing whitespace does not change what a line trims to.
proof fn lemma_trim_push_ws(y: Seq<char>, c: char)
    requires
        is_ws(c),
    ensures
        trim(y.push(c)) == trim(y),
{
    lemma_trim_start_push(y, c);
    if trim_start(y).len() == 0 {
        assert(seq![c].drop_first() =~= Seq::<char>::empty());
        assert(trim_start(seq![c]) == trim_start(Seq::<char>::empty()));
    } else {
        assert(trim_start(y).push(c).drop_last() =~= trim_start(y));
    }
}

proof fn lemma_rules_of_lines_concat(a: Seq<Seq<char>>, b: Seq<Seq<char>>)
    ensures
        rules_of_lines(a + b) == rules_of_lines(a) + rules_of_lines(b),
    decreases b.len(),
{
    if b.len() == 0 {
        assert(a + b =~= a);
        assert(rules_of_lines(a) + rules_of_lines(b) =~= rules_of_lines(a));
    } else {
        assert((a + b).drop_last() =~= a + b.drop_last());
        assert((a + b).last() == b.last());
        lemma_rules_of_lines_concat(a, b.drop_last());
        match rule_of_line(b.last()) {
            Some(h) => {
                assert(rules_of_lines(a) + rules_of_lines(b) =~= (rules_of_lines(a)
                    + rules_of_lines(b.drop_last())).push(h));
            },
            None => {},
        }
    }
}

proof fn lemma_pieces_after_newline(s: Seq<char>, t: Seq<char>)
    ensures
        line_pieces(s.push('\n') + t) == line_pieces(s.push('\n')) + line_pieces(t),
    decreases t.len(),
{
    let sn = s.push('\n');
    assert(sn.drop_last() =~= s);
    if t.len() == 0 {
        assert(sn + t =~= sn);
        assert(line_pieces(sn) + line_pieces(t) =~= line_pieces(sn));
    } else {
        let u = sn + t;
        assert(u.drop_last() =~= sn + t.drop_last());
        assert(u.last() == t.last());
        lemma_pieces_after_newline(s, t.drop_last());
        let p1 = line_pieces(sn);
        let q = line_pieces(t.drop_last());
        assert(p1.len() > 0 && p1.last().len() > 0 && p1.last().last() == '\n');
        if q.len() == 0 {
            assert(t.drop_last().len() == 0);
            assert(line_pieces(t) =~= seq![seq![t.last()]]);
            assert(line_pieces(u) =~= p1 + line_pieces(t));
        } else {
            assert((p1 + q).last() == q.last());
            assert(line_pieces(u) =~= p1 + line_pieces(t));
        }
    }
}

proof fn lemma_strip_line_ends_concat(a: Seq<Seq<char>>, b: Seq<Seq<char>>)
    ensures
        strip_line_ends(a + b) == strip_line_ends(a) + strip_line_ends(b),
{
    assert(strip_line_ends(a + b) =~= strip_line_ends(a) + strip_line_ends(b));
}

/// Ending a text with a newline adds no rule.
proof fn lemma_rules_with_final_newline(s: Seq<char>)
    ensures
        rules_of_text(s.push('\n')) == rules_of_text(s),
{
    let sn = s.push('\n');
    assert(sn.drop_last() =~= s);
    assert(sn.last() == '\n');
    let p = line_pieces(s);
    let ls = lines(s);
    if p.len() > 0 && p.last().len() > 0 && p.last().last() != '\n' {
        let x = p.last();
        assert(line_pieces(sn) == p.update(p.len() - 1, x.push('\n')));
        assert(strip_line_end(x) == x);
        let y = strip_line_end(x.push('\n'));
        assert(x.push('\n').drop_last() =~= x);
        assert(trim(y) == trim(x)) by {
            if x.len() > 0 && x.last() == '\r' {
                assert(x.drop_last().push('\r') =~= x);
                lemma_trim_push_ws(x.drop_last(), '\r');
            }
        }
        assert(rule_of_line(y) == rule_of_line(x));
        assert(lines(sn) =~= ls.drop_last().push(y));
        assert(ls =~= ls.drop_last().push(x));
        lemma_rules_of_lines_concat(ls.drop_last(), seq![y]);
        lemma_rules_of_lines_concat(ls.drop_last(), seq![x]);
        assert(ls.drop_last() + seq![y] =~= ls.drop_last().push(y));
        assert(ls.drop_last() + seq![x] =~= ls.drop_last().push(x));
        assert(rules_of_lines(seq![y]) =~= rules_of_lines(seq![x])) by {
            assert(seq![y].drop_last() =~= Seq::<Seq<char>>::empty());
            assert(seq![x].drop_last() =~= Seq::<Seq<char>>::empty());
        }
    } else {
        assert(line_pieces(sn) == p.push(seq!['\n']));
        assert(seq!['\n'].drop_last() =~= Seq::<char>::empty());
        assert(strip_line_end(seq!['\n']) =~= Seq::<char>::empty());
        assert(lines(sn) =~= ls.push(Seq::<char>::empty()));
        assert(trim(Seq::<char>::empty()) =~= Seq::<char>::empty());
        assert(lines(sn).drop_last() =~= ls);
    }
}

/// Joining two blocklist texts with a newline joins their rules: the rules of
/// `a` followed by those of `b`, none lost, none reordered.
pub proof fn lemma_rules_of_joined_text(a: Seq<char>, b: Seq<char>)
    ensures
        rules_of_text(a + seq!['\n'] + b) == rules_of_text(a) + rules_of_text(b),
{
    assert(a + seq!['\n'] =~= a.push('\n'));
    lemma_pieces_after_newline(a, b);
    lemma_strip_line_ends_concat(line_pieces(a.push('\n')), line_pieces(b));
    lemma_rules_of_lines_concat(lines(a.push('\n')), lines(b));
    lemma_rules_with_final_newline(a);
}

/// The rule that `line` yields covers `host`.
pub open spec fn line_blocks(line: Seq<char>, host: Seq<char>) -> bool {
    match rule_of_line(line) {
        Some(r) => host_matches(r, host),
        None => false,
    }
}

/// The rules of some lines cover `host` exactly when the rule of one of the
/// lines covers it.
pub proof fn lemma_blocks_host_of_lines(ls: Seq<Seq<char>>, host: Seq<char>)
    ensures
        blocks_host(rules_of_lines(ls), host) == exists|i: int|
            0 <= i < ls.len() && #[trigger] line_blocks(ls[i], host),
    decreases ls.len(),
{
    if ls.len() > 0 {
        let init = ls.drop_last();
        lemma_blocks_host_of_lines(init, host);
        let prev = rules_of_lines(init);
        let rs = rules_of_lines(ls);
        if blocks_host(rs, host) {
            let j = choose|j: int| 0 <= j < rs.len() && host_matches(rs[j], host);
            if j < prev.len() {
                assert(rs[j] == prev[j]);
                assert(blocks_host(prev, host));
                let i = choose|i: int| 0 <= i < init.len() && #[trigger] line_blocks(init[i], host);
                assert(ls[i] == init[i]);
                assert(line_blocks(ls[i], host));
            } else {
                assert(line_blocks(ls[ls.len() - 1], host));
            }
        }
        if exists|i: int| 0 <= i < ls.len() && #[trigger] line_blocks(ls[i], host) {
            let i = choose|i: int| 0 <= i < ls.len() && #[trigger] line_blocks(ls[i], host);
            if i < init.len() {
                assert(init[i] == ls[i]);
                assert(line_blocks(init[i], host));
                assert(blocks_host(prev, host));
                let j = choose|j: int| 0 <= j < prev.len() && host_matches(prev[j], host);
                assert(rs[j] == prev[j]);
            } else {
                assert(rs[rs.len() - 1] == rule_of_line(ls.last())->0);
            }
        }
    }
}

/// Blocking by two lists of rules one after the other is blocking by either.
pub proof fn lemma_verdict_of_concat(
    r1: Seq<Seq<char>>,
    r2: Seq<Seq<char>>,
    parts: Option<(Seq<char>, Option<Seq<char>>)>,
)
    ensures
        verdict(r1 + r2, parts) == (verdict(r1, parts) || verdict(r2, parts)),
{
    if let Some((scheme, host)) = parts {
        let h = host_key(host);
        let r = r1 + r2;
        if blocks_host(r, h) {
            let j = choose|j: int| 0 <= j < r.len() && host_matches(r[j], h);
            if j < r1.len() {
                assert(r[j] == r1[j]);
            } else {
                assert(r[j] == r2[j - r1.len()]);
            }
        }
        if blocks_host(r1, h) {
            let j = choose|j: int| 0 <= j < r1.len() && host_matches(r1[j], h);
            assert(r[j] == r1[j]);
        }
        if blocks_host(r2, h) {
            let j = choose|j: int| 0 <= j < r2.len() && host_matches(r2[j], h);
            assert(r[j + r1.len()] == r2[j]);
        }
    }
}

/// A URL is blocked by the list of two texts joined by a newline exactly when
/// it is blocked by the list of either text.
pub proof fn lemma_verdict_of_joined_text(
    a: Seq<char>,
    b: Seq<char>,
    parts: Option<(Seq<char>, Option<Seq<char>>)>,
)
    ensures
        verdict(rules_of_text(a + seq!['\n'] + b), parts) == (verdict(rules_of_text(a), parts)
            || verdict(rules_of_text(b), parts)),
{
    lemma_rules_of_joined_text(a, b);
    lemma_verdict_of_concat(rules_of_text(a), rules_of_text(b), parts);
}

/// The order of rules does not matter: lists holding the same rules, as many
/// times each, cover the same hosts.
pub proof fn lemma_rule_order_irrelevant(r1: Seq<Seq<char>>, r2: Seq<Seq<char>>, host: Seq<char>)
    requires
        r1.to_multiset() == r2.to_multiset(),
    ensures
        blocks_host(r1, host) == blocks_host(r2, host),
{
    broadcast use vstd::seq_lib::group_to_multiset_ensures;

    if blocks_host(r1, host) {
        let j = choose|j: int| 0 <= j < r1.len() && host_matches(r1[j], host);
        assert(r1.contains(r1[j]));
        assert(r1.to_multiset().count(r1[j]) > 0);
        assert(r2.to_multiset().count(r1[j]) > 0);
        assert(r2.contains(r1[j]));
        let k = choose|k: int| 0 <= k < r2.len() && r2[k] == r1[j];
        assert(host_matches(r2[k], host));
    }
    if blocks_host(r2, host) {
        let j = choose|j: int| 0 <= j < r2.len() && host_matches(r2[j], host);
        assert(r2.contains(r2[j]));
        assert(r2.to_multiset().count(r2[j]) > 0);
        assert(r1.to_multiset().count(r2[j]) > 0);
        assert(r1.contains(r2[j]));
        let k = choose|k: int| 0 <= k < r1.len() && r1[k] == r2[j];
        assert(host_matches(r1[k], host));
    }
}

/// The order of lines does not matter: texts with the same lines, as many
/// times each, block the same URLs.
pub proof fn lemma_line_order_irrelevant(
    a: Seq<char>,
    b: Seq<char>,
    parts: Option<(Seq<char>, Option<Seq<char>>)>,
)
    requires
        lines(a).to_multiset() == lines(b).to_multiset(),
    ensures
        verdict(rules_of_text(a), parts) == verdict(rules_of_text(b), parts),
{
    broadcast use vstd::seq_lib::group_to_multiset_ensures;

    if let Some((scheme, host)) = parts {
        let h = host_key(host);
        let la = lines(a);
        let lb = lines(b);
        lemma_blocks_host_of_lines(la, h);
        lemma_blocks_host_of_lines(lb, h);
        if exists|i: int| 0 <= i < la.len() && #[trigger] line_blocks(la[i], h) {
            let i = choose|i: int| 0 <= i < la.len() && #[trigger] line_blocks(la[i], h);
            assert(la.contains(la[i]));
            assert(la.to_multiset().count(la[i]) > 0);
            assert(lb.to_multiset().count(la[i]) > 0);
            assert(lb.contains(la[i]));
            let k = choose|k: int| 0 <= k < lb.len() && lb[k] == la[i];
            assert(line_blocks(lb[k], h));
        }
        if exists|i: int| 0 <= i < lb.len() && #[trigger] line_blocks(lb[i], h) {
            let i = choose|i: int| 0 <= i < lb.len() && #[trigger] line_blocks(lb[i], h);
            assert(lb.contains(lb[i]));
            assert(lb.to_multiset().count(lb[i]) > 0);
            assert(la.to_multiset().count(lb[i]) > 0);
            assert(la.contains(lb[i]));
            let k = choose|k: int| 0 <= k < la.len() && la[k] == lb[i];
            assert(line_blocks(la[k], h));
        }
    }
}

} // verus!
