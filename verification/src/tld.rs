//! The registrable domain of a URL's host, found with a public-suffix list.
//!
//! The list is plain text with one suffix per line. A host is cut at the
//! start of one of its dot-separated labels: every shorter tail of the host
//! that starts at a label is a line of the list, and the tail that is kept is
//! either the whole host or no line of the list.

use vstd::prelude::*;
use crate::error::{BSError, BSResult, ErrorKind};
use crate::text::chars_of;

verus! {

/// What the host of a URL turned out to be.
#[derive(Debug)]
pub enum UrlHost {
    /// A DNS name, as dot-separated labels.
    Domain(String),
    /// An IPv4 or IPv6 literal, as the URL spells it.
    Address(String),
    /// The URL was read but names no host.
    Missing,
    /// The text is no URL; the message says why.
    Invalid(String),
}

/// The mathematical value of a [`UrlHost`].
pub enum UrlHostView {
    Domain(Seq<char>),
    Address(Seq<char>),
    Missing,
    Invalid(Seq<char>),
}

impl View for UrlHost {
    type V = UrlHostView;

    open spec fn view(&self) -> UrlHostView {
        match self {
            UrlHost::Domain(d) => UrlHostView::Domain(d@),
            UrlHost::Address(a) => UrlHostView::Address(a@),
            UrlHost::Missing => UrlHostView::Missing,
            UrlHost::Invalid(m) => UrlHostView::Invalid(m@),
        }
    }
}

/// The host that the `url` crate reads out of the text `url`.
pub uninterp spec fn url_host_of(url: Seq<char>) -> UrlHostView;

/// Parses `url` with `url::Url::parse` and reads its host with `Url::host`
/// (for an address, its spelling with `Url::host_str`). Nothing is proved of
/// the parser: the contract only gives its answer a name, which depends on
/// the text alone.
#[verifier::external_body]
pub(crate) fn parse_url_host(url: &str) -> (h: UrlHost)
    ensures
        h@ == url_host_of(url@),
{
    match url::Url::parse(url) {
        Err(e) => UrlHost::Invalid(e.to_string()),
        Ok(parsed) => match (parsed.host(), parsed.host_str()) {
            (Some(url::Host::Domain(d)), _) => UrlHost::Domain(String::from(d)),
            (Some(_), Some(a)) => UrlHost::Address(String::from(a)),
            _ => UrlHost::Missing,
        },
    }
}

/// Position `i` of `host` is where one of its dot-separated labels begins.
pub open spec fn is_label_start(host: Seq<char>, i: int) -> bool {
    0 <= i <= host.len() && (i == 0 || host[i - 1] == '.')
}

/// `needle` is exactly the line of `list` that begins at position `at`.
pub open spec fn occurs_as_line_at(list: Seq<char>, needle: Seq<char>, at: int) -> bool {
    &&& 0 <= at
    &&& at + needle.len() <= list.len()
    &&& (at == 0 || list[at - 1] == '\n')
    &&& (at + needle.len() == list.len() || list[at + needle.len()] == '\n')
    &&& forall|k: int|
        0 <= k < needle.len() ==> list[at + k] == #[trigger] needle[k] && needle[k] != '\n'
}

/// `needle` is one of the lines of `list`.
pub open spec fn is_line(list: Seq<char>, needle: Seq<char>) -> bool {
    exists|at: int| occurs_as_line_at(list, needle, at)
}

/// `cut` is where the registrable domain of `host` begins: a label start
/// such that every later label start begins a listed suffix, while the tail
/// from `cut` itself is unlisted or is the whole host.
pub open spec fn is_domain_cut(host: Seq<char>, list: Seq<char>, cut: int) -> bool {
    &&& is_label_start(host, cut)
    &&& forall|j: int|
        cut < j <= host.len() && is_label_start(host, j) ==> is_line(list, #[trigger] host.skip(j))
    &&& (cut == 0 || !is_line(list, host.skip(cut)))
}

/// Where the registrable domain of `host` begins.
pub open spec fn domain_cut_of(host: Seq<char>, list: Seq<char>) -> int {
    choose|cut: int| is_domain_cut(host, list, cut)
}

/// The registrable domain of `host`: its tail from the cut.
pub open spec fn registrable_of(host: Seq<char>, list: Seq<char>) -> Seq<char> {
    host.skip(domain_cut_of(host, list))
}

/// The registrable domain that belongs to a host read out of a URL: that of
/// a DNS name, an address as it stands, and none where there is no host.
pub open spec fn tld_of(host: UrlHostView, list: Seq<char>) -> Option<Seq<char>> {
    match host {
        UrlHostView::Domain(d) => Some(registrable_of(d, list)),
        UrlHostView::Address(a) => Some(a),
        UrlHostView::Missing => None,
        UrlHostView::Invalid(_) => None,
    }
}

/// A host has one registrable domain: two cuts of the same host against the
/// same list are the same position.
pub proof fn lemma_domain_cut_unique(host: Seq<char>, list: Seq<char>, a: int, b: int)
    requires
        is_domain_cut(host, list, a),
        is_domain_cut(host, list, b),
    ensures
        a == b,
{
    if a < b {
        assert(is_line(list, host.skip(b)));
    }
    if b < a {
        assert(is_line(list, host.skip(a)));
    }
}

/// The last label start of `host` at or before `upto`.
pub open spec fn label_start_upto(host: Seq<char>, upto: int) -> int
    decreases upto,
{
    if upto <= 0 {
        0
    } else if host[upto - 1] == '.' {
        upto
    } else {
        label_start_upto(host, upto - 1)
    }
}

/// `label_start_upto` finds a label start, and no label start lies between
/// it and `upto`.
proof fn lemma_label_start_upto(host: Seq<char>, upto: int)
    requires
        0 <= upto <= host.len(),
    ensures
        0 <= label_start_upto(host, upto) <= upto,
        is_label_start(host, label_start_upto(host, upto)),
        forall|j: int| label_start_upto(host, upto) < j <= upto ==> !is_label_start(host, j),
    decreases upto,
{
    if upto > 0 && host[upto - 1] != '.' {
        lemma_label_start_upto(host, upto - 1);
    }
}

/// From a label start after which every label start begins a listed suffix,
/// a cut is found at or before it.
proof fn lemma_domain_cut_from(host: Seq<char>, list: Seq<char>, p: int)
    requires
        is_label_start(host, p),
        forall|j: int|
            p < j <= host.len() && is_label_start(host, j) ==> is_line(list, #[trigger] host.skip(j)),
    ensures
        exists|cut: int| is_domain_cut(host, list, cut),
    decreases p,
{
    if p == 0 || !is_line(list, host.skip(p)) {
        assert(is_domain_cut(host, list, p));
    } else {
        lemma_label_start_upto(host, p - 1);
        lemma_domain_cut_from(host, list, label_start_upto(host, p - 1));
    }
}

/// Every host has a registrable domain, whatever the list holds.
pub proof fn lemma_domain_cut_exists(host: Seq<char>, list: Seq<char>)
    ensures
        is_domain_cut(host, list, domain_cut_of(host, list)),
{
    lemma_label_start_upto(host, host.len() as int);
    lemma_domain_cut_from(host, list, label_start_upto(host, host.len() as int));
}

/// Whether the tail of `host` from `from` is the line of `list` at `at`.
fn line_matches_at(list: &Vec<char>, host: &Vec<char>, from: usize, at: usize) -> (b: bool)
    requires
        from <= host.len(),
        at <= list.len(),
    ensures
        b == occurs_as_line_at(list@, host@.skip(from as int), at as int),
{
    let ghost needle = host@.skip(from as int);
    let m: usize = host.len() - from;
    if at > 0 && list[at - 1] != '\n' {
        return false;
    }
    if list.len() - at < m {
        return false;
    }
    let mut k: usize = 0;
    while k < m
        invariant
            k <= m,
            m == host.len() - from,
            at + m <= list.len(),
            at == 0 || list@[at - 1] == '\n',
            needle == host@.skip(from as int),
            forall|i: int| 0 <= i < k ==> list@[at + i] == #[trigger] needle[i] && needle[i] != '\n',
        decreases m - k,
    {
        if list[at + k] != host[from + k] || host[from + k] == '\n' {
            assert(needle[k as int] == host@[from + k]);
            assert(!(list@[at + k] == needle[k as int] && needle[k as int] != '\n'));
            return false;
        }
        assert(needle[k as int] == host@[from + k]);
        k += 1;
    }
    assert(needle.len() == m);
    if at + m == list.len() {
        true
    } else {
        let next: char = list[at + m];
        assert(next == list@[at + needle.len()]);
        next == '\n'
    }
}

/// Whether the tail of `host` from `from` is a line of `list`.
fn contains_line(list: &Vec<char>, host: &Vec<char>, from: usize) -> (b: bool)
    requires
        from <= host.len(),
    ensures
        b == is_line(list@, host@.skip(from as int)),
{
    let ghost needle = host@.skip(from as int);
    let mut at: usize = 0;
    while at < list.len()
        invariant
            at <= list.len(),
            from <= host.len(),
            needle == host@.skip(from as int),
            forall|i: int| 0 <= i < at ==> !occurs_as_line_at(list@, needle, i),
        decreases list.len() - at,
    {
        if line_matches_at(list, host, from, at) {
            return true;
        }
        at += 1;
    }
    line_matches_at(list, host, from, at)
}

/// The last label start of `host` at or before `upto`.
fn label_start_before(host: &Vec<char>, upto: usize) -> (s: usize)
    requires
        upto <= host.len(),
    ensures
        s <= upto,
        is_label_start(host@, s as int),
        forall|j: int| s < j <= upto ==> !is_label_start(host@, j),
{
    let mut s: usize = upto;
    while s > 0 && host[s - 1] != '.'
        invariant
            s <= upto,
            upto <= host.len(),
            forall|j: int| s < j <= upto ==> !is_label_start(host@, j),
        decreases s,
    {
        s -= 1;
    }
    s
}

/// Where the registrable domain of `host` begins.
fn domain_cut(host: &Vec<char>, list: &Vec<char>) -> (cut: usize)
    ensures
        cut <= host.len(),
        is_domain_cut(host@, list@, cut as int),
{
    let mut cut: usize = label_start_before(host, host.len());
    while cut > 0 && contains_line(list, host, cut)
        invariant
            cut <= host.len(),
            is_label_start(host@, cut as int),
            forall|j: int|
                cut < j <= host.len() && is_label_start(host@, j) ==> is_line(
                    list@,
                    #[trigger] host@.skip(j),
                ),
        decreases cut,
    {
        cut = label_start_before(host, cut - 1);
    }
    cut
}

/// The registrable domain of `host`: the tail of `host` from its cut against
/// the suffix list `suffixes`, so the longest listed suffix and one label
/// more, or the whole host when all of it is listed.
pub fn registrable_domain(host: &str, suffixes: &str) -> (r: String)
    ensures
        is_domain_cut(host@, suffixes@, domain_cut_of(host@, suffixes@)),
        r@ == registrable_of(host@, suffixes@),
{
    let h = chars_of(host);
    let l = chars_of(suffixes);
    let cut = domain_cut(&h, &l);
    proof {
        lemma_domain_cut_unique(host@, suffixes@, cut as int, domain_cut_of(host@, suffixes@));
    }
    let tail = host.substring_char(cut, h.len());
    assert(host@.subrange(cut as int, h.len() as int) == host@.skip(cut as int));
    tail.to_owned()
}

/// What [`tld_from_host`] answers for a host and a suffix list: the text
/// that [`tld_of`] gives, and a parse error where it gives none, with the
/// parser's message if the URL was invalid.
pub open spec fn tld_answer(host: UrlHostView, list: Seq<char>, r: BSResult<String>) -> bool {
    match tld_of(host, list) {
        Some(t) => r matches Ok(tld) && tld@ == t,
        None => r matches Err(e) && is_parse_error(host, e),
    }
}

/// `e` is the error for a URL whose host was read as `host`: of kind
/// `Parse`, with the parser's message if the URL was invalid and a message
/// of its own if the URL names no host.
pub open spec fn is_parse_error(host: UrlHostView, e: BSError) -> bool {
    &&& e.kind == ErrorKind::Parse
    &&& host matches UrlHostView::Invalid(m) ==> e.msg@ == m
    &&& host is Missing ==> e.msg@ == "URL has no host"@
}

/// The registrable domain for a host that has been read out of a URL.
pub fn tld_from_host(host: &UrlHost, suffixes: &str) -> (r: BSResult<String>)
    ensures
        tld_answer(host@, suffixes@, r),
{
    match host {
        UrlHost::Domain(d) => Ok(registrable_domain(d.as_str(), suffixes)),
        UrlHost::Address(a) => Ok(a.clone()),
        UrlHost::Missing => Err(BSError::with_kind(ErrorKind::Parse, "URL has no host")),
        UrlHost::Invalid(m) => Err(BSError::with_kind(ErrorKind::Parse, m.as_str())),
    }
}

/// The registrable domain of the host of `url`.
pub fn find_tld_from_url(url: &str, suffixes: &str) -> (r: BSResult<String>)
    ensures
        tld_answer(url_host_of(url@), suffixes@, r),
{
    let host = parse_url_host(url);
    tld_from_host(&host, suffixes)
}

} // verus!
