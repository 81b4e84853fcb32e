//! Character-level text operations over `Seq<char>`: whitespace, ASCII case,
//! trimming, splitting into words and lines, and joining.

use vstd::prelude::*;

verus! {

broadcast use vstd::string::group_string_axioms;

/// `c` has the Unicode `White_Space` property, the set that `char::is_whitespace` tests.
pub open spec fn is_ws(c: char) -> bool {
    let u = c as u32;
    ||| 0x09 <= u <= 0x0d
    ||| u == 0x20
    ||| u == 0x85
    ||| u == 0xa0
    ||| u == 0x1680
    ||| 0x2000 <= u <= 0x200a
    ||| u == 0x2028
    ||| u == 0x2029
    ||| u == 0x202f
    ||| u == 0x205f
    ||| u == 0x3000
}

/// Whether `c` is a Unicode whitespace character.
pub fn is_whitespace(c: char) -> (r: bool)
    ensures
        r == is_ws(c),
{
    let u = c as u32;
    (0x09 <= u && u <= 0x0d) || u == 0x20 || u == 0x85 || u == 0xa0 || u == 0x1680 || (0x2000
        <= u && u <= 0x200a) || u == 0x2028 || u == 0x2029 || u == 0x202f || u == 0x205f || u
        == 0x3000
}

/// ASCII lower-casing of one character: `A`..`Z` map to `a`..`z`, all else is kept.
pub open spec fn lower_char(c: char) -> char {
    if 'A' <= c <= 'Z' {
        ((c as u32) + 32) as char
    } else {
        c
    }
}

/// ASCII lower-casing of a string, character by character.
pub open spec fn lower(s: Seq<char>) -> Seq<char> {
    Seq::new(s.len(), |i: int| lower_char(s[i]))
}

pub fn to_ascii_lower_char(c: char) -> (r: char)
    ensures
        r == lower_char(c),
{
    if 'A' <= c && c <= 'Z' {
        ((c as u8) + 32) as char
    } else {
        c
    }
}

/// The characters of `s`, in order.
pub fn chars_of(s: &str) -> (v: Vec<char>)
    ensures
        v@ == s@,
{
    let mut v: Vec<char> = Vec::new();
    for c in it: s.chars()
        invariant
            v@ == it.seq().take(it.index() as int),
    {
        v.push(c);
    }
    v
}

/// A `String` holding exactly the characters of `chars`.
///
/// Trusted: calls `FromIterator<&char> for String` (`Iterator::collect`), whose
/// documented result is the string made of the iterated characters in order.
#[verifier::external_body]
pub(crate) fn string_of(chars: &[char]) -> (s: String)
    ensures
        s@ == chars@,
{
    chars.iter().collect()
}

/// Lower-cases the ASCII letters of `s`, as `str::to_ascii_lowercase` does.
pub fn lower_chars(s: &[char]) -> (r: Vec<char>)
    ensures
        r@ == lower(s@),
{
    let mut r: Vec<char> = Vec::new();
    let mut i: usize = 0;
    while i < s.len()
        invariant
            i <= s.len(),
            r@ =~= lower(s@.take(i as int)),
        decreases s.len() - i,
    {
        r.push(to_ascii_lower_char(s[i]));
        i = i + 1;
    }
    assert(s@.take(s.len() as int) =~= s@);
    r
}

/// `s` without its leading whitespace (`str::trim_start`).
pub open spec fn trim_start(s: Seq<char>) -> Seq<char>
    decreases s.len(),
{
    if s.len() > 0 && is_ws(s[0]) {
        trim_start(s.drop_first())
    } else {
        s
    }
}

/// `s` without its trailing whitespace (`str::trim_end`).
pub open spec fn trim_end(s: Seq<char>) -> Seq<char>
    decreases s.len(),
{
    if s.len() > 0 && is_ws(s.last()) {
        trim_end(s.drop_last())
    } else {
        s
    }
}

/// `s` without leading and trailing whitespace (`str::trim`).
pub open spec fn trim(s: Seq<char>) -> Seq<char> {
    trim_end(trim_start(s))
}

/// Index of the first non-whitespace character at or after `i`.
fn skip_ws_forward(s: &[char], i: usize) -> (j: usize)
    requires
        i <= s.len(),
    ensures
        i <= j <= s.len(),
        trim_start(s@.skip(i as int)) == s@.skip(j as int),
    decreases s.len() - i,
{
    if i < s.len() && is_whitespace(s[i]) {
        assert(s@.skip(i as int).drop_first() =~= s@.skip(i + 1));
        skip_ws_forward(s, i + 1)
    } else {
        i
    }
}

/// Largest `j <= i` such that `s[..j]` does not end in whitespace.
fn skip_ws_backward(s: &[char], i: usize) -> (j: usize)
    requires
        i <= s.len(),
    ensures
        j <= i,
        trim_end(s@.take(i as int)) == s@.take(j as int),
    decreases i,
{
    if i > 0 && is_whitespace(s[i - 1]) {
        assert(s@.take(i as int).drop_last() =~= s@.take(i - 1));
        skip_ws_backward(s, i - 1)
    } else {
        i
    }
}

/// `s` with leading and trailing whitespace removed.
pub fn trim_chars(s: &[char]) -> (r: Vec<char>)
    ensures
        r@ == trim(s@),
{
    let start = skip_ws_forward(s, 0);
    assert(s@.skip(0) =~= s@);
    let rest = slice_from(s, start);
    let end = skip_ws_backward(rest.as_slice(), rest.len());
    assert(rest@.take(rest@.len() as int) =~= rest@);
    slice_range(rest.as_slice(), 0, end)
}

/// The characters `s[from..]`.
pub fn slice_from(s: &[char], from: usize) -> (r: Vec<char>)
    requires
        from <= s.len(),
    ensures
        r@ == s@.skip(from as int),
{
    slice_range(s, from, s.len())
}

/// The characters `s[from..to]`.
pub fn slice_range(s: &[char], from: usize, to: usize) -> (r: Vec<char>)
    requires
        from <= to <= s.len(),
    ensures
        r@ == s@.subrange(from as int, to as int),
{
    let mut r: Vec<char> = Vec::new();
    let mut i = from;
    while i < to
        invariant
            from <= i <= to <= s.len(),
            r@ =~= s@.subrange(from as int, i as int),
        decreases to - i,
    {
        r.push(s[i]);
        i = i + 1;
    }
    r
}

/// Whether two character sequences are equal.
pub fn chars_eq(a: &[char], b: &[char]) -> (r: bool)
    ensures
        r == (a@ == b@),
{
    if a.len() != b.len() {
        return false;
    }
    let mut i: usize = 0;
    while i < a.len()
        invariant
            a.len() == b.len(),
            i <= a.len(),
            a@.take(i as int) == b@.take(i as int),
        decreases a.len() - i,
    {
        if a[i] != b[i] {
            assert(a@[i as int] != b@[i as int]);
            return false;
        }
        assert(a@.take(i + 1) =~= a@.take(i as int).push(a@[i as int]));
        assert(b@.take(i + 1) =~= b@.take(i as int).push(b@[i as int]));
        i = i + 1;
    }
    assert(a@.take(a.len() as int) =~= a@);
    assert(b@.take(b.len() as int) =~= b@);
    true
}

/// The maximal runs of non-whitespace characters of `s`, in order
/// (`str::split_whitespace`), built left to right.
pub open spec fn words(s: Seq<char>) -> Seq<Seq<char>>
    decreases s.len(),
{
    if s.len() == 0 {
        seq![]
    } else {
        let prev = words(s.drop_last());
        let c = s.last();
        if is_ws(c) {
            prev
        } else if s.len() >= 2 && !is_ws(s[s.len() - 2]) && prev.len() > 0 {
            prev.update(prev.len() - 1, prev.last().push(c))
        } else {
            prev.push(seq![c])
        }
    }
}

/// The pieces of `parts` with `sep` between each two neighbours (`[T]::join`).
pub open spec fn join(parts: Seq<Seq<char>>, sep: Seq<char>) -> Seq<char>
    decreases parts.len(),
{
    if parts.len() == 0 {
        seq![]
    } else if parts.len() == 1 {
        parts[0]
    } else {
        join(parts.drop_last(), sep) + sep + parts.last()
    }
}

/// The character sequences held by a sequence of character vectors.
pub open spec fn views(v: Seq<Vec<char>>) -> Seq<Seq<char>> {
    v.map_values(|w: Vec<char>| w@)
}

/// Splits `s` into its whitespace-separated words.
pub fn split_words(s: &[char]) -> (r: Vec<Vec<char>>)
    ensures
        views(r@) == words(s@),
{
    let mut r: Vec<Vec<char>> = Vec::new();
    let mut i: usize = 0;
    while i < s.len()
        invariant
            i <= s.len(),
            views(r@) == words(s@.take(i as int)),
        decreases s.len() - i,
    {
        let c = s[i];
        let ghost t = s@.take(i + 1);
        let ghost prev = views(r@);
        assert(t.drop_last() =~= s@.take(i as int));
        assert(t.last() == c);
        assert(i >= 1 ==> t[t.len() - 2] == s@[i - 1]);
        if is_whitespace(c) {
        } else if i >= 1 && !is_whitespace(s[i - 1]) && r.len() > 0 {
            let mut last = r.pop().unwrap();
            assert(last@ == prev.last());
            last.push(c);
            r.push(last);
            assert(views(r@) =~= prev.update(prev.len() - 1, prev.last().push(c)));
        } else {
            let mut w: Vec<char> = Vec::new();
            w.push(c);
            r.push(w);
            assert(w@ =~= seq![c]);
            assert(views(r@) =~= prev.push(seq![c]));
        }
        i = i + 1;
    }
    assert(s@.take(s.len() as int) =~= s@);
    r
}

/// `parts` joined with `sep` between neighbours.
pub fn join_chars(parts: &Vec<Vec<char>>, sep: &[char]) -> (r: Vec<char>)
    ensures
        r@ == join(views(parts@), sep@),
{
    let mut r: Vec<char> = Vec::new();
    let mut i: usize = 0;
    while i < parts.len()
        invariant
            i <= parts.len(),
            r@ == join(views(parts@).take(i as int), sep@),
        decreases parts.len() - i,
    {
        let ghost t = views(parts@).take(i + 1);
        assert(t.drop_last() =~= views(parts@).take(i as int));
        if i > 0 {
            append_chars(&mut r, sep);
        }
        append_chars(&mut r, parts[i].as_slice());
        if i == 0 {
            assert(r@ =~= join(t, sep@));
        } else {
            assert(r@ =~= join(t, sep@));
        }
        i = i + 1;
    }
    assert(views(parts@).take(parts.len() as int) =~= views(parts@));
    r
}

/// Appends the characters of `more` to `r`.
pub fn append_chars(r: &mut Vec<char>, more: &[char])
    ensures
        final(r)@ == old(r)@ + more@,
{
    let mut i: usize = 0;
    while i < more.len()
        invariant
            i <= more.len(),
            r@ =~= old(r)@ + more@.take(i as int),
        decreases more.len() - i,
    {
        r.push(more[i]);
        i = i + 1;
    }
    assert(more@.take(more.len() as int) =~= more@);
}

/// The words of `s` joined by single spaces.
pub open spec fn collapse_ws(s: Seq<char>) -> Seq<char> {
    join(words(s), seq![' '])
}

/// Collapses every run of whitespace in `s` to one space and drops it at both ends.
pub fn normalize_whitespace(input: &str) -> (r: String)
    ensures
        r@ == collapse_ws(input@),
{
    let chars = chars_of(input);
    let parts = split_words(chars.as_slice());
    let sep: Vec<char> = vec![' '];
    let joined = join_chars(&parts, sep.as_slice());
    assert(sep@ =~= seq![' ']);
    string_of(joined.as_slice())
}

/// The pieces of `s` each ending just after a `'\n'`, the last possibly without
/// one (`str::split_inclusive('\n')`), built left to right.
pub open spec fn line_pieces(s: Seq<char>) -> Seq<Seq<char>>
    decreases s.len(),
{
    if s.len() == 0 {
        seq![]
    } else {
        let prev = line_pieces(s.drop_last());
        if prev.len() > 0 && prev.last().len() > 0 && prev.last().last() != '\n' {
            prev.update(prev.len() - 1, prev.last().push(s.last()))
        } else {
            prev.push(seq![s.last()])
        }
    }
}

/// A line piece without its `"\n"` or `"\r\n"` terminator.
pub open spec fn strip_line_end(p: Seq<char>) -> Seq<char> {
    if p.len() > 0 && p.last() == '\n' {
        let q = p.drop_last();
        if q.len() > 0 && q.last() == '\r' {
            q.drop_last()
        } else {
            q
        }
    } else {
        p
    }
}

/// The lines of `s` (`str::lines`): split at `"\n"` or `"\r\n"`, with no
/// empty line after a final terminator.
pub open spec fn lines(s: Seq<char>) -> Seq<Seq<char>> {
    strip_line_ends(line_pieces(s))
}

/// Every piece without its line terminator.
pub open spec fn strip_line_ends(ps: Seq<Seq<char>>) -> Seq<Seq<char>> {
    Seq::new(ps.len(), |i: int| strip_line_end(ps[i]))
}

/// Splits `s` into its lines.
pub fn split_lines(s: &[char]) -> (r: Vec<Vec<char>>)
    ensures
        views(r@) == lines(s@),
{
    let mut pieces: Vec<Vec<char>> = Vec::new();
    let mut i: usize = 0;
    while i < s.len()
        invariant
            i <= s.len(),
            views(pieces@) == line_pieces(s@.take(i as int)),
        decreases s.len() - i,
    {
        let c = s[i];
        let ghost t = s@.take(i + 1);
        let ghost prev = views(pieces@);
        assert(t.drop_last() =~= s@.take(i as int));
        assert(t.last() == c);
        let n = pieces.len();
        if n > 0 && pieces[n - 1].len() > 0 && pieces[n - 1][pieces[n - 1].len() - 1] != '\n' {
            let mut last = pieces.pop().unwrap();
            assert(last@ == prev.last());
            last.push(c);
            pieces.push(last);
            assert(views(pieces@) =~= prev.update(prev.len() - 1, prev.last().push(c)));
        } else {
            let mut w: Vec<char> = Vec::new();
            w.push(c);
            pieces.push(w);
            assert(w@ =~= seq![c]);
            assert(views(pieces@) =~= prev.push(seq![c]));
        }
        i = i + 1;
    }
    assert(s@.take(s.len() as int) =~= s@);
    let mut r: Vec<Vec<char>> = Vec::new();
    let mut j: usize = 0;
    while j < pieces.len()
        invariant
            j <= pieces.len(),
            views(pieces@) == line_pieces(s@),
            views(r@) =~= strip_line_ends(line_pieces(s@).take(j as int)),
        decreases pieces.len() - j,
    {
        let p = &pieces[j];
        let ghost pv = views(pieces@)[j as int];
        let n = p.len();
        let stripped = if n > 0 && p[n - 1] == '\n' {
            if n > 1 && p[n - 2] == '\r' {
                slice_range(p.as_slice(), 0, n - 2)
            } else {
                slice_range(p.as_slice(), 0, n - 1)
            }
        } else {
            slice_range(p.as_slice(), 0, n)
        };
        assert(p@ == pv);
        assert(stripped@ =~= strip_line_end(pv));
        let ghost old_r = views(r@);
        r.push(stripped);
        assert(views(r@) =~= old_r.push(strip_line_end(pv)));
        assert(line_pieces(s@).take(j + 1) =~= line_pieces(s@).take(j as int).push(pv));
        assert(views(r@) =~= strip_line_ends(line_pieces(s@).take(j + 1)));
        j = j + 1;
    }
    assert(line_pieces(s@).take(pieces.len() as int) =~= line_pieces(s@));
    r
}

/// `s` with every leading copy of the non-empty pattern `p` removed
/// (`str::trim_start_matches` with a string pattern).
pub open spec fn trim_start_matches(s: Seq<char>, p: Seq<char>) -> Seq<char>
    decreases s.len(),
{
    if p.len() > 0 && p.len() <= s.len() && s.take(p.len() as int) == p {
        trim_start_matches(s.skip(p.len() as int), p)
    } else {
        s
    }
}

/// `s` with every trailing `c` removed (`str::trim_end_matches` with a char).
pub open spec fn trim_end_char(s: Seq<char>, c: char) -> Seq<char>
    decreases s.len(),
{
    if s.len() > 0 && s.last() == c {
        trim_end_char(s.drop_last(), c)
    } else {
        s
    }
}

/// Whether `s[i..]` starts with `p`.
fn has_prefix_at(s: &[char], i: usize, p: &[char]) -> (r: bool)
    requires
        i <= s.len(),
    ensures
        r == (p@.len() <= s@.len() - i && s@.skip(i as int).take(p@.len() as int) == p@),
{
    if p.len() > s.len() - i {
        return false;
    }
    let mut k: usize = 0;
    while k < p.len()
        invariant
            p.len() <= s.len() - i,
            k <= p.len(),
            forall|m: int| 0 <= m < k ==> s@[i + m] == p@[m],
        decreases p.len() - k,
    {
        if s[i + k] != p[k] {
            assert(s@.skip(i as int).take(p@.len() as int)[k as int] != p@[k as int]);
            return false;
        }
        k = k + 1;
    }
    assert(s@.skip(i as int).take(p@.len() as int) =~= p@);
    true
}

fn skip_prefixes(s: &[char], i: usize, p: &[char]) -> (j: usize)
    requires
        i <= s.len(),
    ensures
        i <= j <= s.len(),
        trim_start_matches(s@.skip(i as int), p@) == s@.skip(j as int),
    decreases s.len() - i,
{
    if p.len() > 0 && has_prefix_at(s, i, p) {
        assert(s@.skip(i as int).skip(p@.len() as int) =~= s@.skip(i + p.len()));
        skip_prefixes(s, i + p.len(), p)
    } else {
        i
    }
}

/// `s` without any leading copies of `p`.
pub fn trim_start_matches_chars(s: &[char], p: &[char]) -> (r: Vec<char>)
    ensures
        r@ == trim_start_matches(s@, p@),
{
    let j = skip_prefixes(s, 0, p);
    assert(s@.skip(0) =~= s@);
    slice_from(s, j)
}

fn skip_trailing(s: &[char], i: usize, c: char) -> (j: usize)
    requires
        i <= s.len(),
    ensures
        j <= i,
        trim_end_char(s@.take(i as int), c) == s@.take(j as int),
    decreases i,
{
    if i > 0 && s[i - 1] == c {
        assert(s@.take(i as int).drop_last() =~= s@.take(i - 1));
        skip_trailing(s, i - 1, c)
    } else {
        i
    }
}

/// `s` without any trailing `c`.
pub fn trim_end_char_chars(s: &[char], c: char) -> (r: Vec<char>)
    ensures
        r@ == trim_end_char(s@, c),
{
    let j = skip_trailing(s, s.len(), c);
    assert(s@.take(s.len() as int) =~= s@);
    slice_range(s, 0, j)
}

/// `s` ends with `suffix`.
pub open spec fn ends_with(s: Seq<char>, suffix: Seq<char>) -> bool {
    suffix.len() <= s.len() && s.skip(s.len() - suffix.len()) == suffix
}

/// Whether `s` ends with `suffix`.
pub fn ends_with_chars(s: &[char], suffix: &[char]) -> (r: bool)
    ensures
        r == ends_with(s@, suffix@),
{
    if suffix.len() > s.len() {
        return false;
    }
    let tail = slice_from(s, s.len() - suffix.len());
    chars_eq(tail.as_slice(), suffix)
}

/// Whether two strings hold the same characters.
pub fn str_eq(a: &str, b: &str) -> (r: bool)
    ensures
        r == (a@ == b@),
{
    let x = chars_of(a);
    let y = chars_of(b);
    chars_eq(x.as_slice(), y.as_slice())
}

/// The characters of an optional string.
pub open spec fn opt_chars(o: Option<String>) -> Option<Seq<char>> {
    match o {
        Some(s) => Some(s@),
        None => None,
    }
}

/// The character sequences of a sequence of strings.
pub open spec fn string_views(v: Seq<String>) -> Seq<Seq<char>> {
    v.map_values(|s: String| s@)
}

/// `parts` joined with `sep` between neighbours (`[String]::join`).
pub fn join_strings(parts: &Vec<String>, sep: &str) -> (r: String)
    ensures
        r@ == join(string_views(parts@), sep@),
{
    let mut r = String::new();
    let mut i: usize = 0;
    while i < parts.len()
        invariant
            i <= parts.len(),
            r@ == join(string_views(parts@).take(i as int), sep@),
        decreases parts.len() - i,
    {
        let ghost t = string_views(parts@).take(i + 1);
        assert(t.drop_last() =~= string_views(parts@).take(i as int));
        if i > 0 {
            r.append(sep);
        }
        r.append(parts[i].as_str());
        assert(r@ =~= join(t, sep@));
        i = i + 1;
    }
    assert(string_views(parts@).take(parts.len() as int) =~= string_views(parts@));
    r
}

/// Whether `s` is empty or all whitespace.
pub fn is_blank(s: &str) -> (r: bool)
    ensures
        r == (trim(s@).len() == 0),
{
    let chars = chars_of(s);
    trim_chars(chars.as_slice()).len() == 0
}

} // verus!
