//! Pagination: the range of books a page shows, the number of pages, and the
//! HTML of the page links.
use vstd::prelude::*;
use crate::query::COUNT_PER_PAGE;
use crate::text::{decimal, spec_decimal, string_of_range, to_chars};
use vstd::utf8::{encode_scalar, encode_utf8};

verus! {

broadcast use vstd::string::group_string_axioms;

// ---------------------------------------------------------------------
// The books a page shows
// ---------------------------------------------------------------------

/// What a result page says of the books it shows: how many match in all,
/// the positions (counting from 1) of its first and last book, and its number.
#[derive(Debug)]
pub struct CountInformation {
    pub total: i64,
    pub sindex: i64,
    pub eindex: i64,
    pub page: i64,
}

/// The information of a page whose first book comes after `sindex` others,
/// among `count` matching books.
pub open spec fn spec_count_information(sindex: int, count: int, page: Option<i64>) -> (int, int, int, int) {
    let last = sindex + COUNT_PER_PAGE - 1;
    (
        count,
        sindex + 1,
        if last <= count { last } else { count },
        match page {
            Some(p) => p as int,
            None => 1,
        },
    )
}

impl CountInformation {
    /// The fields as a tuple: total, first position, last position, page.
    pub open spec fn as_tuple(&self) -> (int, int, int, int) {
        (self.total as int, self.sindex as int, self.eindex as int, self.page as int)
    }

    /// The information of a page whose first book comes after `sindex`
    /// others, among `count` matching books; no page number means page 1.
    pub fn new(sindex: i64, count: i64, page: Option<i64>) -> (res: Self)
        requires
            sindex + COUNT_PER_PAGE <= i64::MAX,
        ensures
            res.as_tuple() == spec_count_information(sindex as int, count as int, page),
    {
        let mut eindex = sindex + COUNT_PER_PAGE - 1;
        if count < eindex {
            eindex = count;
        }
        Self {
            total: count,
            sindex: sindex + 1,
            eindex,
            page: match page {
                Some(p) => p,
                None => 1,
            },
        }
    }
}

// ---------------------------------------------------------------------
// The number of pages
// ---------------------------------------------------------------------

/// The number of pages that `total` books fill: `total / COUNT_PER_PAGE`
/// rounded up.
pub open spec fn spec_last_page(total: int) -> int {
    let per_page = COUNT_PER_PAGE as int;
    if total % per_page == 0 {
        total / per_page
    } else {
        total / per_page + 1
    }
}

/// The number of pages that `total` books fill.
pub fn last_page(total: i64) -> (res: i64)
    ensures
        res == spec_last_page(total as int),
{
    if total >= 0 {
        let q = total / COUNT_PER_PAGE;
        if total % COUNT_PER_PAGE == 0 {
            q
        } else {
            q + 1
        }
    } else {
        let m: u64 = (0i128 - (total as i128)) as u64;
        let q: u64 = m / 20;
        proof {
            let t = total as int;
            assert(t == -(m as int));
            assert(m as int == 20 * (q as int) + (m as int) % 20);
            if (m as int) % 20 == 0 {
                assert(t == (-(q as int)) * 20 + 0);
                vstd::arithmetic::div_mod::lemma_fundamental_div_mod_converse(t, 20, -(q as int), 0);
            } else {
                let r = 20 - (m as int) % 20;
                assert(t == (-(q as int) - 1) * 20 + r);
                vstd::arithmetic::div_mod::lemma_fundamental_div_mod_converse(t, 20, -(q as int) - 1, r);
            }
        }
        0 - (q as i64)
    }
}

// ---------------------------------------------------------------------
// Finding text in a URI
// ---------------------------------------------------------------------

/// `pat` occurs in `s` at position `i`.
pub open spec fn occurs_at(s: Seq<char>, pat: Seq<char>, i: int) -> bool {
    0 <= i && i + pat.len() <= s.len() && s.subrange(i, i + pat.len()) == pat
}

/// The first position, at or after `i`, where `pat` occurs in `s`.
pub open spec fn find_from(s: Seq<char>, pat: Seq<char>, i: int) -> Option<int>
    decreases s.len() + 1 - i,
{
    if i < 0 || i + pat.len() > s.len() {
        None
    } else if occurs_at(s, pat, i) {
        Some(i)
    } else {
        find_from(s, pat, i + 1)
    }
}

/// The first position where `pat` occurs in `s`.
pub open spec fn spec_find(s: Seq<char>, pat: Seq<char>) -> Option<int> {
    find_from(s, pat, 0)
}

fn occurs_at_exec(s: &Vec<char>, pat: &Vec<char>, i: usize) -> (res: bool)
    requires
        i + pat.len() <= s.len(),
    ensures
        res == occurs_at(s@, pat@, i as int),
{
    let mut k: usize = 0;
    while k < pat.len()
        invariant
            i + pat.len() <= s.len(),
            k <= pat.len(),
            forall|j: int| 0 <= j < k ==> s@[i + j] == pat@[j],
        decreases pat.len() - k,
    {
        if s[i + k] != pat[k] {
            assert(s@.subrange(i as int, i + pat.len())[k as int] != pat@[k as int]);
            return false;
        }
        k = k + 1;
    }
    assert(s@.subrange(i as int, i + pat.len()) =~= pat@);
    true
}

/// The first position where `pat` occurs in `s`.
pub fn find(s: &Vec<char>, pat: &Vec<char>) -> (res: Option<usize>)
    ensures
        match res {
            Some(i) => spec_find(s@, pat@) == Some(i as int) && i + pat.len() <= s.len(),
            None => spec_find(s@, pat@) is None,
        },
{
    if pat.len() > s.len() {
        return None;
    }
    if pat.len() == 0 {
        assert(s@.subrange(0, 0) =~= pat@);
        return Some(0);
    }
    let mut i: usize = 0;
    while i <= s.len() - pat.len()
        invariant
            1 <= pat.len() <= s.len(),
            i <= s.len() - pat.len() + 1,
            find_from(s@, pat@, 0) == find_from(s@, pat@, i as int),
        decreases s.len() - pat.len() + 1 - i,
    {
        if occurs_at_exec(s, pat, i) {
            return Some(i);
        }
        i = i + 1;
    }
    None
}

/// Whether `pat` occurs in `s`.
pub fn contains(s: &Vec<char>, pat: &Vec<char>) -> (res: bool)
    ensures
        res == (spec_find(s@, pat@) is Some),
{
    find(s, pat).is_some()
}

/// The position of the first `&` in `s` at or after `j`, or the length of `s`.
pub open spec fn next_amp(s: Seq<char>, j: int) -> int
    decreases s.len() - j,
{
    if j < 0 || j >= s.len() {
        s.len() as int
    } else if s[j] == '&' {
        j
    } else {
        next_amp(s, j + 1)
    }
}

/// The characters `page=`.
pub open spec fn page_pattern() -> Seq<char> {
    seq!['p', 'a', 'g', 'e', '=']
}

fn page_pattern_chars() -> (res: Vec<char>)
    ensures
        res@ == page_pattern(),
{
    let mut v: Vec<char> = Vec::new();
    v.push('p');
    v.push('a');
    v.push('g');
    v.push('e');
    v.push('=');
    assert(v@ =~= page_pattern());
    v
}

/// The characters `/?`.
pub open spec fn root_query_pattern() -> Seq<char> {
    seq!['/', '?']
}

fn root_query_pattern_chars() -> (res: Vec<char>)
    ensures
        res@ == root_query_pattern(),
{
    let mut v: Vec<char> = Vec::new();
    v.push('/');
    v.push('?');
    assert(v@ =~= root_query_pattern());
    v
}

/// The characters `/search?`.
pub open spec fn search_query_pattern() -> Seq<char> {
    seq!['/', 's', 'e', 'a', 'r', 'c', 'h', '?']
}

fn search_query_pattern_chars() -> (res: Vec<char>)
    ensures
        res@ == search_query_pattern(),
{
    let mut v: Vec<char> = Vec::new();
    v.push('/');
    v.push('s');
    v.push('e');
    v.push('a');
    v.push('r');
    v.push('c');
    v.push('h');
    v.push('?');
    assert(v@ =~= search_query_pattern());
    v
}

// ---------------------------------------------------------------------
// The base of the page links
// ---------------------------------------------------------------------

/// The number of bytes of the UTF-8 encoding of `s`.
pub open spec fn byte_len(s: Seq<char>) -> int {
    encode_utf8(s).len() as int
}

/// The number of bytes of the UTF-8 encoding of `c`.
pub open spec fn char_width(c: char) -> int {
    encode_scalar(c as u32).len() as int
}

/// By how many its UTF-8 bytes outnumber the characters of `s`.
pub open spec fn extra_bytes(s: Seq<char>) -> int {
    byte_len(s) - s.len()
}

/// Where the removal of the `page=` parameter stops, given the text `w`
/// that starts at the removed separator and the number `d` by which the
/// bytes before `w` outnumber its characters.
///
/// The removal works at a byte position, `d` more than the separator's
/// character position. After `j` characters of `w` have gone, it stops when
/// nothing is left after the kept text, or when the character at that byte
/// position, counted as a character position, is `&`; when that position is
/// past the end of the text, there is no such character (`None`).
pub open spec fn strip_end(w: Seq<char>, d: int, j: int) -> Option<int>
    decreases w.len() - j,
{
    if j >= w.len() {
        Some(w.len() as int)
    } else if j + d >= w.len() {
        None
    } else if w[j + d] == '&' {
        Some(j)
    } else {
        strip_end(w, d, j + 1)
    }
}

/// Where the removal of the `page=` parameter stops, for a URI whose first
/// `page=` starts at character position `p`.
pub open spec fn strip_end_of(uri: Seq<char>, p: int) -> Option<int> {
    strip_end(uri.skip(p - 1), extra_bytes(uri.take(p - 1)), 1)
}

/// A URI from which the first `page=...` parameter can be removed: either
/// it holds none, or a character precedes `page=`, that character takes
/// one byte, and the removal finds its end (see `strip_end`).
pub open spec fn page_param_removable(uri: Seq<char>) -> bool {
    match spec_find(uri, page_pattern()) {
        Some(p) => {
            &&& p >= 1
            &&& char_width(uri[p - 1]) == 1
            &&& strip_end_of(uri, p) is Some
        },
        None => true,
    }
}

/// The URI without its first `page=...` parameter.
///
/// The URI is read as characters, and the removal is described in those
/// terms: the character before `page=` goes, and so do the characters
/// after it, up to where `strip_end` stops. For a URI whose characters
/// before `page=` are all ASCII this is everything up to the next `&` (or
/// the end); where they are not, the byte position at which characters are
/// removed is tested as a character position, as `String::remove` and
/// `chars().nth` do.
pub open spec fn spec_strip_page_param(uri: Seq<char>) -> Seq<char> {
    match spec_find(uri, page_pattern()) {
        Some(p) => uri.take(p - 1) + uri.skip(p - 1 + strip_end_of(uri, p)->0),
        None => uri,
    }
}

/// The byte count of the UTF-8 encoding grows by the character's width.
proof fn lemma_byte_len_push(s: Seq<char>, c: char)
    ensures
        byte_len(s.push(c)) == byte_len(s) + char_width(c),
    decreases s.len(),
{
    if s.len() == 0 {
        assert(s.push(c).drop_first() =~= Seq::<char>::empty());
        assert(encode_utf8(Seq::<char>::empty()).len() == 0);
    } else {
        assert(s.push(c).drop_first() =~= s.drop_first().push(c));
        assert(s.push(c)[0] == s[0]);
        lemma_byte_len_push(s.drop_first(), c);
    }
}

/// Every character takes at least one byte.
proof fn lemma_char_width_positive(c: char)
    ensures
        1 <= char_width(c) <= 4,
{
    vstd::utf8::char_is_scalar(c);
}

/// The UTF-8 width of a character.
fn utf8_width(c: char) -> (res: usize)
    ensures
        res == char_width(c),
        1 <= res <= 4,
{
    proof {
        vstd::utf8::char_is_scalar(c);
    }
    let v = c as u32;
    if v <= 0x7F {
        1
    } else if v <= 0x7FF {
        2
    } else if v <= 0xFFFF {
        3
    } else {
        4
    }
}

/// Capping `d` at the length of `w` does not change where the removal stops.
proof fn lemma_strip_end_cap(w: Seq<char>, d: int, j: int)
    requires
        0 <= j,
        d >= w.len(),
    ensures
        strip_end(w, d, j) == strip_end(w, w.len() as int, j),
{
}

/// `min(extra_bytes(cs[..k]), cap)`.
fn capped_extra_bytes(cs: &Vec<char>, k: usize, cap: usize) -> (res: usize)
    requires
        k <= cs.len(),
    ensures
        res as int == if extra_bytes(cs@.take(k as int)) <= cap {
            extra_bytes(cs@.take(k as int))
        } else {
            cap as int
        },
        extra_bytes(cs@.take(k as int)) >= 0,
{
    let mut dd: usize = 0;
    let mut i: usize = 0;
    assert(cs@.take(0) =~= Seq::<char>::empty());
    assert(encode_utf8(Seq::<char>::empty()).len() == 0);
    while i < k
        invariant
            k <= cs.len(),
            i <= k,
            extra_bytes(cs@.take(i as int)) >= 0,
            dd <= cap,
            dd as int == if extra_bytes(cs@.take(i as int)) <= cap {
                extra_bytes(cs@.take(i as int))
            } else {
                cap as int
            },
        decreases k - i,
    {
        let add = utf8_width(cs[i]) - 1;
        proof {
            assert(cs@.take(i + 1) =~= cs@.take(i as int).push(cs@[i as int]));
            lemma_byte_len_push(cs@.take(i as int), cs@[i as int]);
        }
        if add > cap - dd {
            dd = cap;
        } else {
            dd = dd + add;
        }
        i = i + 1;
    }
    dd
}

/// Whether the first `page=...` parameter can be removed from the URI.
pub fn page_param_removable_exec(uri: &str) -> (res: bool)
    ensures
        res == page_param_removable(uri@),
{
    let cs = to_chars(uri);
    let pat = page_pattern_chars();
    match find(&cs, &pat) {
        Some(p) => {
            if p == 0 || utf8_width(cs[p - 1]) != 1 {
                return false;
            }
            let k = p - 1;
            let wlen = cs.len() - k;
            let dd = capped_extra_bytes(&cs, k, wlen);
            let j = strip_end_exec(&cs, k, dd);
            proof {
                let w = uri@.skip(k as int);
                assert(cs@.take(k as int) =~= uri@.take(k as int));
                if extra_bytes(uri@.take(k as int)) > wlen {
                    lemma_strip_end_cap(w, extra_bytes(uri@.take(k as int)), 1);
                }
            }
            j.is_some()
        },
        None => true,
    }
}

/// Where the removal stops in `cs[k..]`, with `dd` extra bytes before it.
fn strip_end_exec(cs: &Vec<char>, k: usize, dd: usize) -> (res: Option<usize>)
    requires
        k < cs.len(),
        dd <= cs.len() - k,
    ensures
        match res {
            Some(j) => strip_end(cs@.skip(k as int), dd as int, 1) == Some(j as int) && 1 <= j
                <= cs.len() - k,
            None => strip_end(cs@.skip(k as int), dd as int, 1) is None,
        },
{
    let ghost w = cs@.skip(k as int);
    let wlen = cs.len() - k;
    let mut j: usize = 1;
    while j < wlen && dd < wlen - j && cs[k + j + dd] != '&'
        invariant
            k < cs.len(),
            wlen == cs.len() - k,
            w == cs@.skip(k as int),
            dd <= wlen,
            1 <= j <= wlen || wlen == 0,
            strip_end(w, dd as int, 1) == strip_end(w, dd as int, j as int),
        decreases wlen - j,
    {
        assert(w[j + dd] == cs@[k + j + dd]);
        j = j + 1;
    }
    if j < wlen && dd >= wlen - j {
        None
    } else {
        if j < wlen {
            assert(w[j + dd] == cs@[k + j + dd]);
        }
        Some(j)
    }
}

/// The URI without its first `page=...` parameter.
pub fn strip_page_param(uri: &str) -> (res: String)
    requires
        page_param_removable(uri@),
    ensures
        res@ == spec_strip_page_param(uri@),
{
    let cs = to_chars(uri);
    let pat = page_pattern_chars();
    match find(&cs, &pat) {
        Some(p) => {
            let k = p - 1;
            let wlen = cs.len() - k;
            let dd = capped_extra_bytes(&cs, k, wlen);
            proof {
                let w = uri@.skip(k as int);
                assert(cs@.take(k as int) =~= uri@.take(k as int));
                if extra_bytes(uri@.take(k as int)) > wlen {
                    lemma_strip_end_cap(w, extra_bytes(uri@.take(k as int)), 1);
                }
            }
            let j = strip_end_exec(&cs, k, dd).unwrap();
            let mut res = string_of_range(&cs, 0, k);
            let rest = string_of_range(&cs, k + j, cs.len());
            res.append(rest.as_str());
            proof {
                assert(cs@.subrange(0, k as int) =~= uri@.take(k as int));
                assert(cs@.subrange((k + j) as int, cs@.len() as int) =~= uri@.skip(
                    (k + j) as int,
                ));
            }
            res
        },
        None => string_of_range(&cs, 0, cs.len()),
    }
}

/// The URI that a page number is appended to, to link to that page: the
/// URI without its `page=...` parameter, followed by `&page=` when it
/// already holds a query of the root or the search path, and `?page=` else.
pub open spec fn spec_page_link_base(uri: Seq<char>) -> Seq<char> {
    let stripped = spec_strip_page_param(uri);
    if spec_find(stripped, root_query_pattern()) is Some || spec_find(
        stripped,
        search_query_pattern(),
    ) is Some {
        stripped + "&page="@
    } else {
        stripped + "?page="@
    }
}

/// The URI that a page number is appended to, to link to that page.
pub fn page_link_base(uri: &str) -> (res: String)
    requires
        page_param_removable(uri@),
    ensures
        res@ == spec_page_link_base(uri@),
{
    let mut res = strip_page_param(uri);
    let cs = to_chars(res.as_str());
    let root = root_query_pattern_chars();
    let search = search_query_pattern_chars();
    if contains(&cs, &root) || contains(&cs, &search) {
        res.append("&page=");
    } else {
        res.append("?page=");
    }
    res
}

// ---------------------------------------------------------------------
// The HTML of the page links
// ---------------------------------------------------------------------

/// The start of the pagination: the previous link and the link to page 1.
pub open spec fn spec_head(base: Seq<char>, previous: Seq<char>, previous_class: Seq<char>, first_class: Seq<char>) -> Seq<char> {
    "\n              <div class=\"col justify-content-end\">\n                <ul class=\"pagination justify-content-end\">\n                  <li class=\"page-item "@
        + previous_class
        + "\">\n                    <a class=\"page-link\" href=\""@
        + base
        + previous
        + "\">Previous</a>\n                  </li>\n                  <li class=\"page-item "@
        + first_class
        + "\"><a class=\"page-link\" href=\""@
        + base
        + "1\">1</a></li>\n            "@
}

fn render_head(base: &str, previous: &str, previous_class: &str, first_class: &str) -> (res: String)
    ensures
        res@ == spec_head(base@, previous@, previous_class@, first_class@),
{
    let mut res = String::new();
    res.append("\n              <div class=\"col justify-content-end\">\n                <ul class=\"pagination justify-content-end\">\n                  <li class=\"page-item ");
    res.append(previous_class);
    res.append("\">\n                    <a class=\"page-link\" href=\"");
    res.append(base);
    res.append(previous);
    res.append("\">Previous</a>\n                  </li>\n                  <li class=\"page-item ");
    res.append(first_class);
    res.append("\"><a class=\"page-link\" href=\"");
    res.append(base);
    res.append("1\">1</a></li>\n            ");
    res
}

/// The middle of a long pagination for an early page: that page, a gap, the last page.
pub open spec fn spec_low_window(base: Seq<char>, shown: Seq<char>, last: Seq<char>, shown_class: Seq<char>) -> Seq<char> {
    "\n                  <li class=\"page-item "@
        + shown_class
        + "\"><a class=\"page-link\" href=\""@
        + base
        + shown
        + "\">"@
        + shown
        + "</a></li>\n                  <li class=\"page-item disabled\"><a class=\"page-link\">...</a></li>\n                  <li class=\"page-item\"><a class=\"page-link\" href=\""@
        + base
        + last
        + "\">"@
        + last
        + "</a></li>\n                "@
}

fn render_low_window(base: &str, shown: &str, last: &str, shown_class: &str) -> (res: String)
    ensures
        res@ == spec_low_window(base@, shown@, last@, shown_class@),
{
    let mut res = String::new();
    res.append("\n                  <li class=\"page-item ");
    res.append(shown_class);
    res.append("\"><a class=\"page-link\" href=\"");
    res.append(base);
    res.append(shown);
    res.append("\">");
    res.append(shown);
    res.append("</a></li>\n                  <li class=\"page-item disabled\"><a class=\"page-link\">...</a></li>\n                  <li class=\"page-item\"><a class=\"page-link\" href=\"");
    res.append(base);
    res.append(last);
    res.append("\">");
    res.append(last);
    res.append("</a></li>\n                ");
    res
}

/// The middle of a long pagination for a late page: a gap, the page, the last page.
pub open spec fn spec_high_window(base: Seq<char>, shown: Seq<char>, last: Seq<char>, shown_class: Seq<char>, last_class: Seq<char>) -> Seq<char> {
    "\n                  <li class=\"page-item disabled\"><a class=\"page-link\">...</a></li>\n                  <li class=\"page-item "@
        + shown_class
        + "\"><a class=\"page-link\" href=\""@
        + base
        + shown
        + "\">"@
        + shown
        + "</a></li>\n                  <li class=\"page-item "@
        + last_class
        + "\"><a class=\"page-link\" href=\""@
        + base
        + last
        + "\">"@
        + last
        + "</a></li>\n                "@
}

fn render_high_window(base: &str, shown: &str, last: &str, shown_class: &str, last_class: &str) -> (res: String)
    ensures
        res@ == spec_high_window(base@, shown@, last@, shown_class@, last_class@),
{
    let mut res = String::new();
    res.append("\n                  <li class=\"page-item disabled\"><a class=\"page-link\">...</a></li>\n                  <li class=\"page-item ");
    res.append(shown_class);
    res.append("\"><a class=\"page-link\" href=\"");
    res.append(base);
    res.append(shown);
    res.append("\">");
    res.append(shown);
    res.append("</a></li>\n                  <li class=\"page-item ");
    res.append(last_class);
    res.append("\"><a class=\"page-link\" href=\"");
    res.append(base);
    res.append(last);
    res.append("\">");
    res.append(last);
    res.append("</a></li>\n                ");
    res
}

/// One numbered page link of a short pagination.
pub open spec fn spec_page_item(base: Seq<char>, number: Seq<char>, item_class: Seq<char>) -> Seq<char> {
    "\n                  <li class=\"page-item "@
        + item_class
        + "\"><a class=\"page-link\" href=\""@
        + base
        + number
        + "\">"@
        + number
        + "</a></li>\n                "@
}

fn render_page_item(base: &str, number: &str, item_class: &str) -> (res: String)
    ensures
        res@ == spec_page_item(base@, number@, item_class@),
{
    let mut res = String::new();
    res.append("\n                  <li class=\"page-item ");
    res.append(item_class);
    res.append("\"><a class=\"page-link\" href=\"");
    res.append(base);
    res.append(number);
    res.append("\">");
    res.append(number);
    res.append("</a></li>\n                ");
    res
}

/// The link to the next page.
pub open spec fn spec_next_link(base: Seq<char>, next_class: Seq<char>, next: Seq<char>) -> Seq<char> {
    "\n              <li class=\"page-item "@
        + next_class
        + "\">\n                <a class=\"page-link\" href=\""@
        + base
        + next
        + "\">Next</a>\n              </li>\n          "@
}

fn render_next_link(base: &str, next_class: &str, next: &str) -> (res: String)
    ensures
        res@ == spec_next_link(base@, next_class@, next@),
{
    let mut res = String::new();
    res.append("\n              <li class=\"page-item ");
    res.append(next_class);
    res.append("\">\n                <a class=\"page-link\" href=\"");
    res.append(base);
    res.append(next);
    res.append("\">Next</a>\n              </li>\n          ");
    res
}

/// The end of the pagination.
pub open spec fn spec_tail() -> Seq<char> {
    "\n            </ul>\n          </div>\n            "@
}

fn render_tail() -> (res: String)
    ensures
        res@ == spec_tail(),
{
    let mut res = String::new();
    res.append("\n            </ul>\n          </div>\n            ");
    res
}

/// `class` when `cond` holds, and nothing else.
pub open spec fn class_if(cond: bool, class: Seq<char>) -> Seq<char> {
    if cond {
        class
    } else {
        ""@
    }
}

/// The links to the pages from `i` to `last`, for a short pagination.
pub open spec fn spec_page_items(base: Seq<char>, page: int, i: int, last: int) -> Seq<char>
    decreases last + 1 - i,
{
    if i > last {
        Seq::empty()
    } else {
        spec_page_item(base, spec_decimal(i), class_if(page == i, "active"@))
            + spec_page_items(base, page, i + 1, last)
    }
}

/// The HTML of the pagination of a result list, given the URI of the
/// current page, the current page number and the number of matching books.
///
/// It links to the previous page, to page 1, then, when there are more than
/// four pages, to the current page (or page 2 on page 1) and the last page
/// with a gap between them (before them when the page is in the second half),
/// else to every page from 2 to the last, and finally to the next page.
pub open spec fn spec_paging(uri: Seq<char>, page: int, total: int) -> Seq<char> {
    let base = spec_page_link_base(uri);
    let last = spec_last_page(total);
    let head = spec_head(
        base,
        spec_decimal(page - 1),
        class_if(page == 1, "disabled"@),
        class_if(page == 1, "active"@),
    );
    let middle = if last > 4 {
        if page < last / 2 {
            spec_low_window(
                base,
                spec_decimal(if page == 1 { page + 1 } else { page }),
                spec_decimal(last),
                class_if(page != 1, "active"@),
            )
        } else {
            spec_high_window(
                base,
                spec_decimal(if page == last { page - 1 } else { page }),
                spec_decimal(last),
                class_if(page != last, "active"@),
                class_if(page == last, "active"@),
            )
        }
    } else {
        spec_page_items(base, page, 2, last)
    };
    head + middle + spec_next_link(base, class_if(page == last, "disabled"@), spec_decimal(page + 1))
        + spec_tail()
}

fn class_if_exec(cond: bool, class: &'static str) -> (res: &'static str)
    ensures
        res@ == class_if(cond, class@),
{
    if cond {
        class
    } else {
        ""
    }
}

/// The HTML of the pagination of a result list, given the URI of the
/// current page, the current page number and the number of matching books.
/// The URI is read as characters; see `spec_strip_page_param` for how its
/// `page=` parameter is removed.
pub fn paging(uri: &str, page: i64, total: i64) -> (res: String)
    requires
        page_param_removable(uri@),
        i64::MIN < page < i64::MAX,
    ensures
        res@ == spec_paging(uri@, page as int, total as int),
{
    let base = page_link_base(uri);
    let base = base.as_str();
    let last = last_page(total);
    let previous = decimal(page - 1);
    let mut out = render_head(
        base,
        previous.as_str(),
        class_if_exec(page == 1, "disabled"),
        class_if_exec(page == 1, "active"),
    );
    if last > 4 {
        let last_text = decimal(last);
        if page < last / 2 {
            let shown = decimal(if page == 1 { page + 1 } else { page });
            let part = render_low_window(
                base,
                shown.as_str(),
                last_text.as_str(),
                class_if_exec(page != 1, "active"),
            );
            out.append(part.as_str());
        } else {
            let shown = decimal(if page == last { page - 1 } else { page });
            let part = render_high_window(
                base,
                shown.as_str(),
                last_text.as_str(),
                class_if_exec(page != last, "active"),
                class_if_exec(page == last, "active"),
            );
            out.append(part.as_str());
        }
    } else {
        let ghost before = out@;
        let mut items = String::new();
        let mut i: i64 = 2;
        while i <= last
            invariant
                2 <= i,
                i <= last + 1 || i == 2,
                last <= 4,
                base@ == spec_page_link_base(uri@),
                items@ + spec_page_items(base@, page as int, i as int, last as int)
                    == spec_page_items(base@, page as int, 2, last as int),
            decreases last + 1 - i,
        {
            let number = decimal(i);
            let item = render_page_item(base, number.as_str(), class_if_exec(page == i, "active"));
            let ghost prev = items@;
            items.append(item.as_str());
            assert(prev + spec_page_items(base@, page as int, i as int, last as int) =~= items@
                + spec_page_items(base@, page as int, i + 1, last as int));
            i = i + 1;
        }
        assert(items@ =~= spec_page_items(base@, page as int, 2, last as int));
        out.append(items.as_str());
    }
    let next = decimal(page + 1);
    let next_part = render_next_link(base, class_if_exec(page == last, "disabled"), next.as_str());
    out.append(next_part.as_str());
    let end = render_tail();
    out.append(end.as_str());
    out
}

} // verus!
