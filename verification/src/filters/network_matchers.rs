//! Matching of a parsed network filter against a request: request type, scheme and party
//! options, `$domain=` constraints, and the URL pattern (plain, anchored, hostname-anchored or
//! regular expression).

use vstd::prelude::*;

use crate::filters::network::{
    has_flag, FilterPart, FilterPartView, NetworkFilter, NetworkFilterView, BAD_FILTER,
    FIRST_PARTY, FROM_DOCUMENT, FROM_FONT, FROM_HTTP, FROM_HTTPS, FROM_IMAGE, FROM_MEDIA,
    FROM_OBJECT, FROM_OTHER, FROM_PING, FROM_SCRIPT, FROM_STYLESHEET, FROM_SUBDOCUMENT,
    FROM_WEBSOCKET, FROM_XMLHTTPREQUEST, IS_COMPLETE_REGEX, IS_EXCEPTION, IS_HOSTNAME_ANCHOR,
    IS_HOSTNAME_REGEX, IS_LEFT_ANCHOR, IS_REGEX, IS_RIGHT_ANCHOR, MATCH_CASE, THIRD_PARTY,
    UNMATCHED,
};
use crate::request::{Request, RequestType};
use crate::utils::{
    lemma_find_sub, chars_eq, chars_to_string_all, contains_sub, ends_with, find_sub, occurs_at,
    seq_contains_sub, seq_ends_with, seq_starts_with, spec_find_sub, starts_with, str_to_chars,
    sub_chars,
};

verus! {

// ---------------------------------------------------------------------------------------------
// Request type and options
// ---------------------------------------------------------------------------------------------

/// The option flag that lets a filter apply to a request type.
pub open spec fn spec_type_flag(t: RequestType) -> u32 {
    match t {
        RequestType::Beacon => FROM_PING,
        RequestType::Csp => UNMATCHED,
        RequestType::Document => FROM_DOCUMENT,
        RequestType::Dtd => FROM_OTHER,
        RequestType::Fetch => FROM_OTHER,
        RequestType::Font => FROM_FONT,
        RequestType::Image => FROM_IMAGE,
        RequestType::Media => FROM_MEDIA,
        RequestType::Object => FROM_OBJECT,
        RequestType::Other => FROM_OTHER,
        RequestType::Ping => FROM_PING,
        RequestType::Script => FROM_SCRIPT,
        RequestType::Stylesheet => FROM_STYLESHEET,
        RequestType::Subdocument => FROM_SUBDOCUMENT,
        RequestType::Websocket => FROM_WEBSOCKET,
        RequestType::Xlst => FROM_OTHER,
        RequestType::Xmlhttprequest => FROM_XMLHTTPREQUEST,
    }
}

/// The option flag of a request type.
pub fn request_type_flag(t: RequestType) -> (r: u32)
    ensures
        r == spec_type_flag(t),
{
    match t {
        RequestType::Beacon => FROM_PING,
        RequestType::Csp => UNMATCHED,
        RequestType::Document => FROM_DOCUMENT,
        RequestType::Dtd => FROM_OTHER,
        RequestType::Fetch => FROM_OTHER,
        RequestType::Font => FROM_FONT,
        RequestType::Image => FROM_IMAGE,
        RequestType::Media => FROM_MEDIA,
        RequestType::Object => FROM_OBJECT,
        RequestType::Other => FROM_OTHER,
        RequestType::Ping => FROM_PING,
        RequestType::Script => FROM_SCRIPT,
        RequestType::Stylesheet => FROM_STYLESHEET,
        RequestType::Subdocument => FROM_SUBDOCUMENT,
        RequestType::Websocket => FROM_WEBSOCKET,
        RequestType::Xlst => FROM_OTHER,
        RequestType::Xmlhttprequest => FROM_XMLHTTPREQUEST,
    }
}

/// A filter applies to a request type when it has that type's flag; documents are also let
/// through for exception filters.
pub open spec fn spec_cpt_allowed(mask: u32, t: RequestType) -> bool {
    let flag = spec_type_flag(t);
    if flag == FROM_DOCUMENT {
        has_flag(mask, FROM_DOCUMENT) || has_flag(mask, IS_EXCEPTION)
    } else {
        has_flag(mask, flag)
    }
}

/// Whether a filter may apply to a request of type `t`.
pub fn check_cpt_allowed(filter: &NetworkFilter, t: RequestType) -> (r: bool)
    ensures
        r == spec_cpt_allowed(filter.mask.bits, t),
{
    let flag = request_type_flag(t);
    if flag == FROM_DOCUMENT {
        filter.mask.contains(FROM_DOCUMENT) || filter.is_exception()
    } else {
        filter.mask.contains(flag)
    }
}

/// Some hash of `hashes` has all its bits within `union`.
pub open spec fn any_within_union(hashes: Seq<u64>, union: u64) -> bool {
    exists|i: int| 0 <= i < hashes.len() && (hashes[i] & union) == hashes[i]
}

/// Some hash of `hashes` is in `list`.
pub open spec fn any_in(hashes: Seq<u64>, list: Seq<u64>) -> bool {
    exists|i: int| 0 <= i < hashes.len() && list.contains(#[trigger] hashes[i])
}

/// Some hash of `hashes` has all its bits within `union` and is in `list`.
pub open spec fn any_within_union_and_in(hashes: Seq<u64>, union: u64, list: Seq<u64>) -> bool {
    exists|i: int|
        0 <= i < hashes.len() && (hashes[i] & union) == hashes[i] && list.contains(
            #[trigger] hashes[i],
        )
}

/// The `$domain=` constraint of a filter holds for these source hostname hashes.
pub open spec fn spec_domains_allow(f: NetworkFilterView, source: Option<Seq<u64>>) -> bool {
    let included_ok = match (f.opt_domains, source) {
        (Some(included), Some(sh)) => (match f.opt_domains_union {
            Some(u) => any_within_union(sh, u),
            None => true,
        }) && any_in(sh, included),
        _ => true,
    };
    let excluded_ok = match (f.opt_not_domains, source) {
        (Some(excluded), Some(sh)) => match f.opt_not_domains_union {
            Some(u) => !any_within_union_and_in(sh, u, excluded),
            None => !any_in(sh, excluded),
        },
        _ => true,
    };
    included_ok && excluded_ok
}

/// Everything but the pattern lets the filter apply to the request: it is no `$badfilter`,
/// the request type, scheme and party are allowed, and the source satisfies `$domain=`.
pub open spec fn spec_check_options(f: NetworkFilterView, req: Request) -> bool {
    &&& !has_flag(f.mask, BAD_FILTER)
    &&& spec_cpt_allowed(f.mask, req.request_type)
    &&& !(req.is_https && !has_flag(f.mask, FROM_HTTPS))
    &&& !(req.is_http && !has_flag(f.mask, FROM_HTTP))
    &&& !(!has_flag(f.mask, FIRST_PARTY) && !req.is_third_party)
    &&& !(!has_flag(f.mask, THIRD_PARTY) && req.is_third_party)
    &&& spec_domains_allow(f, req.source_hostname_hashes.deep_view())
}

fn hash_in(list: &Vec<u64>, h: u64) -> (r: bool)
    ensures
        r == list@.contains(h),
{
    let mut i: usize = 0;
    while i < list.len()
        invariant
            i <= list@.len(),
            forall|j: int| 0 <= j < i ==> list@[j] != h,
        decreases list.len() - i,
    {
        if list[i] == h {
            assert(list@[i as int] == h);
            return true;
        }
        i += 1;
    }
    false
}

fn check_included(sh: &Vec<u64>, included: &Vec<u64>, union: Option<u64>) -> (r: bool)
    ensures
        r == ((match union {
            Some(u) => any_within_union(sh@, u),
            None => true,
        }) && any_in(sh@, included@)),
{
    let mut within = match union {
        Some(_) => false,
        None => true,
    };
    let mut found = false;
    let mut i: usize = 0;
    while i < sh.len()
        invariant
            i <= sh@.len(),
            within == (match union {
                Some(u) => exists|j: int| 0 <= j < i && (sh@[j] & u) == sh@[j],
                None => true,
            }),
            found == exists|j: int| 0 <= j < i && included@.contains(#[trigger] sh@[j]),
        decreases sh.len() - i,
    {
        let h = sh[i];
        match union {
            Some(u) => {
                if (h & u) == h {
                    within = true;
                }
            },
            None => {},
        }
        if hash_in(included, h) {
            found = true;
        }
        i += 1;
    }
    within && found
}

fn check_excluded(sh: &Vec<u64>, excluded: &Vec<u64>, union: Option<u64>) -> (r: bool)
    ensures
        r == match union {
            Some(u) => !any_within_union_and_in(sh@, u, excluded@),
            None => !any_in(sh@, excluded@),
        },
{
    let mut i: usize = 0;
    while i < sh.len()
        invariant
            i <= sh@.len(),
            match union {
                Some(u) => forall|j: int|
                    0 <= j < i ==> !((sh@[j] & u) == sh@[j] && excluded@.contains(#[trigger] sh@[j])),
                None => forall|j: int| 0 <= j < i ==> !excluded@.contains(#[trigger] sh@[j]),
            },
        decreases sh.len() - i,
    {
        let h = sh[i];
        let hit = match union {
            Some(u) => (h & u) == h && hash_in(excluded, h),
            None => hash_in(excluded, h),
        };
        if hit {
            return false;
        }
        i += 1;
    }
    true
}

/// Whether the request type, scheme, party and source domain of a request let a filter apply.
pub fn check_options(filter: &NetworkFilter, request: &Request) -> (r: bool)
    ensures
        r == spec_check_options(filter@, *request),
{
    if filter.is_badfilter() {
        return false;
    }
    if !check_cpt_allowed(filter, request.request_type) || (request.is_https
        && !filter.for_https()) || (request.is_http && !filter.for_http()) || (
    !filter.first_party() && !request.is_third_party) || (!filter.third_party()
        && request.is_third_party) {
        return false;
    }
    match (&filter.opt_domains, &request.source_hostname_hashes) {
        (Some(included), Some(sh)) => {
            proof {
                assert(sh.deep_view() =~= sh@);
                assert(included.deep_view() =~= included@);
            }
            if !check_included(sh, included, filter.opt_domains_union) {
                return false;
            }
        },
        _ => {},
    }
    match (&filter.opt_not_domains, &request.source_hostname_hashes) {
        (Some(excluded), Some(sh)) => {
            proof {
                assert(sh.deep_view() =~= sh@);
                assert(excluded.deep_view() =~= excluded@);
            }
            if !check_excluded(sh, excluded, filter.opt_not_domains_union) {
                return false;
            }
        },
        _ => {},
    }
    true
}

// ---------------------------------------------------------------------------------------------
// Plain patterns
// ---------------------------------------------------------------------------------------------

/// How a plain pattern must sit in the text.
#[derive(Clone, Copy, Debug, PartialEq, Eq, Structural)]
pub enum MatchKind {
    Contains,
    StartsWith,
    EndsWith,
    Equals,
}

/// `f` sits in `text` as `k` says.
pub open spec fn kind_holds(k: MatchKind, text: Seq<char>, f: Seq<char>) -> bool {
    match k {
        MatchKind::Contains => seq_contains_sub(text, f),
        MatchKind::StartsWith => seq_starts_with(text, f),
        MatchKind::EndsWith => seq_ends_with(text, f),
        MatchKind::Equals => text == f,
    }
}

/// An empty pattern always holds; otherwise one of its alternatives must.
pub open spec fn part_holds(p: FilterPartView, k: MatchKind, text: Seq<char>) -> bool {
    match p {
        FilterPartView::Empty => true,
        FilterPartView::Simple(f) => kind_holds(k, text, f),
        FilterPartView::AnyOf(l) => any_alt_holds(l, k, text),
    }
}

fn kind_holds_exec(k: MatchKind, text: &[char], f: &str) -> (r: bool)
    ensures
        r == kind_holds(k, text@, f@),
{
    let fv = str_to_chars(f);
    match k {
        MatchKind::Contains => contains_sub(text, fv.as_slice()),
        MatchKind::StartsWith => starts_with(text, fv.as_slice()),
        MatchKind::EndsWith => ends_with(text, fv.as_slice()),
        MatchKind::Equals => chars_eq(text, fv.as_slice()),
    }
}

/// Whether a plain pattern sits in `text` as `k` says.
/// Some alternative of `l` sits in `text` as `k` says.
pub open spec fn any_alt_holds(l: Seq<Seq<char>>, k: MatchKind, text: Seq<char>) -> bool {
    exists|i: int| 0 <= i < l.len() && kind_holds(k, text, #[trigger] l[i])
}

fn check_any_of(l: &Vec<String>, k: MatchKind, text: &[char]) -> (r: bool)
    ensures
        r == any_alt_holds(l.deep_view(), k, text@),
{
    let ghost d = l.deep_view();
    let mut i: usize = 0;
    while i < l.len()
        invariant
            i <= l@.len(),
            d == l.deep_view(),
            d.len() == l@.len(),
            forall|j: int| 0 <= j < i ==> !kind_holds(k, text@, #[trigger] d[j]),
        decreases l.len() - i,
    {
        proof {
            assert(d[i as int] == l@[i as int]@);
        }
        if kind_holds_exec(k, text, l[i].as_str()) {
            assert(kind_holds(k, text@, d[i as int]));
            return true;
        }
        i += 1;
    }
    false
}

/// Whether a plain pattern sits in `text` as `k` says.
pub fn check_part(p: &FilterPart, k: MatchKind, text: &[char]) -> (r: bool)
    ensures
        r == part_holds(p@, k, text@),
{
    match p {
        FilterPart::Empty => true,
        FilterPart::Simple(f) => kind_holds_exec(k, text, f.as_str()),
        FilterPart::AnyOf(l) => check_any_of(l, k, text),
    }
}

// ---------------------------------------------------------------------------------------------
// Hostname anchors
// ---------------------------------------------------------------------------------------------

/// Whether the hostname of a `||hostname` filter anchors the request hostname: equal, or a
/// prefix, suffix or infix that meets label boundaries (a prefix may end mid-label when the
/// filter hostname came from a wildcard).
pub open spec fn spec_is_anchored_by_hostname(fh: Seq<char>, h: Seq<char>, wildcard: bool) -> bool {
    if fh.len() == 0 {
        true
    } else if fh.len() > h.len() {
        false
    } else if fh.len() == h.len() {
        fh == h
    } else {
        match spec_find_sub(h, fh) {
            None => false,
            Some(mi) => {
                let prefix_ok = wildcard || fh.last() == '.' || h[fh.len() as int] == '.';
                let suffix_ok = fh[0] == '.' || h[mi - 1] == '.';
                if mi == 0 {
                    prefix_ok
                } else if mi == h.len() - fh.len() {
                    suffix_ok
                } else {
                    prefix_ok && suffix_ok
                }
            },
        }
    }
}

/// Whether `filter_hostname` anchors `hostname`.
#[verifier::spinoff_prover]
pub fn is_anchored_by_hostname(filter_hostname: &[char], hostname: &[char], wildcard: bool) -> (r:
    bool)
    ensures
        r == spec_is_anchored_by_hostname(filter_hostname@, hostname@, wildcard),
{
    let fl = filter_hostname.len();
    if fl == 0 {
        return true;
    }
    let hl = hostname.len();
    if fl > hl {
        false
    } else if fl == hl {
        chars_eq(filter_hostname, hostname)
    } else {
        match find_sub(hostname, filter_hostname) {
            None => false,
            Some(mi) => {
                let prefix_ok = wildcard || filter_hostname[fl - 1] == '.' || hostname[fl] == '.';
                if mi == 0 {
                    prefix_ok
                } else {
                    let suffix_ok = filter_hostname[0] == '.' || hostname[mi - 1] == '.';
                    if mi == hl - fl {
                        suffix_ok
                    } else {
                        prefix_ok && suffix_ok
                    }
                }
            },
        }
    }
}

/// The part of `url` after the first occurrence of `hostname`; empty when it does not occur.
pub open spec fn spec_url_after_hostname(url: Seq<char>, hostname: Seq<char>) -> Seq<char> {
    match spec_find_sub(url, hostname) {
        Some(i) => url.subrange(i + hostname.len(), url.len() as int),
        None => Seq::empty(),
    }
}

/// The part of `url` after the first occurrence of `hostname`.
#[verifier::spinoff_prover]
pub fn get_url_after_hostname(url: &[char], hostname: &[char]) -> (r: Vec<char>)
    ensures
        r@ == spec_url_after_hostname(url@, hostname@),
{
    let found = find_sub(url, hostname);
    match found {
        Some(i) => {
            let hl = hostname.len();
            let ul = url.len();
            assert(hl == hostname@.len());
            assert(occurs_at(url@, hostname@, i as int));
            assert(i + hl <= ul);
            let start: usize = i + hl;
            sub_chars(url, start, ul)
        },
        None => Vec::new(),
    }
}

/// The text a hostname-anchored regular expression is matched against: the URL from the end of
/// the first occurrence of the filter hostname (from its length, when it does not occur).
pub open spec fn spec_regex_text_after(url: Seq<char>, hostname: Seq<char>) -> Seq<char> {
    let start = match spec_find_sub(url, hostname) {
        Some(i) => i + hostname.len(),
        None => hostname.len() as int,
    };
    if start <= url.len() {
        url.subrange(start, url.len() as int)
    } else {
        Seq::empty()
    }
}

#[verifier::spinoff_prover]
fn regex_text_after(url: &[char], hostname: &[char]) -> (r: Vec<char>)
    ensures
        r@ == spec_regex_text_after(url@, hostname@),
{
    let found = find_sub(url, hostname);
    let start = match found {
        Some(i) => {
            let hl = hostname.len();
            let ul = url.len();
            assert(occurs_at(url@, hostname@, i as int));
            assert(i + hl <= ul);
            i + hl
        },
        None => hostname.len(),
    };
    if start <= url.len() {
        sub_chars(url, start, url.len())
    } else {
        Vec::new()
    }
}

// ---------------------------------------------------------------------------------------------
// Regular expressions
// ---------------------------------------------------------------------------------------------

/// Characters that are escaped when a pattern becomes a regular expression.
pub open spec fn is_regex_special(c: char) -> bool {
    c == '|' || c == '.' || c == '$' || c == '+' || c == '?' || c == '{' || c == '}' || c == '('
        || c == ')' || c == '[' || c == ']'
}

/// Regular expression text for one pattern character: specials escaped, `*` as `.*`.
pub open spec fn escape_char(c: char) -> Seq<char> {
    if is_regex_special(c) {
        seq!['\\', c]
    } else if c == '*' {
        seq!['.', '*']
    } else {
        seq![c]
    }
}

/// `escape_char` applied to every character of `s`.
pub open spec fn escape_specials(s: Seq<char>) -> Seq<char>
    decreases s.len(),
{
    if s.len() == 0 {
        Seq::empty()
    } else {
        escape_specials(s.drop_last()) + escape_char(s.last())
    }
}

/// Regular expression for a separator: anything but a letter, a digit or one of `_ - . %`.
pub open spec fn separator_class() -> Seq<char> {
    "(?:[^\\w\\d\\._%-])"@
}

/// Regular expression for a separator or the end of the text.
pub open spec fn separator_or_end() -> Seq<char> {
    "(?:[^\\w\\d\\._%-]|$)"@
}

/// Each `^` followed by a character other than a newline becomes a separator class followed by
/// that character (scanning from the left, without overlap).
pub open spec fn replace_anchors(s: Seq<char>) -> Seq<char>
    decreases s.len(),
{
    if s.len() == 0 {
        Seq::empty()
    } else if s.len() >= 2 && s[0] == '^' && s[1] != '\n' {
        separator_class().push(s[1]) + replace_anchors(s.subrange(2, s.len() as int))
    } else {
        seq![s[0]] + replace_anchors(s.drop_first())
    }
}

/// A final `^` becomes a separator-or-end class.
pub open spec fn replace_final_anchor(s: Seq<char>) -> Seq<char> {
    if s.len() > 0 && s.last() == '^' {
        s.drop_last() + separator_or_end()
    } else {
        s
    }
}

/// Each `\` followed by `c` becomes `c` (scanning from the left, without overlap).
pub open spec fn unescape_char(s: Seq<char>, c: char) -> Seq<char>
    decreases s.len(),
{
    if s.len() == 0 {
        Seq::empty()
    } else if s.len() >= 2 && s[0] == '\\' && s[1] == c {
        seq![c] + unescape_char(s.subrange(2, s.len() as int), c)
    } else {
        seq![s[0]] + unescape_char(s.drop_first(), c)
    }
}

/// Regular expression for one alternative of a filter pattern.
pub open spec fn spec_pattern_regex(f: Seq<char>, right: bool, left: bool, complete: bool) -> Seq<
    char,
> {
    if complete {
        let inner = if f.len() >= 2 {
            f.subrange(1, f.len() - 1)
        } else {
            Seq::empty()
        };
        unescape_char(unescape_char(inner, '/'), ':')
    } else {
        let body = replace_final_anchor(replace_anchors(escape_specials(f)));
        (if left {
            seq!['^']
        } else {
            Seq::empty()
        }) + body + (if right {
            seq!['$']
        } else {
            Seq::empty()
        })
    }
}

/// The alternatives of a filter pattern.
pub open spec fn part_alternatives(p: FilterPartView) -> Seq<Seq<char>> {
    match p {
        FilterPartView::Empty => Seq::empty(),
        FilterPartView::Simple(s) => seq![s],
        FilterPartView::AnyOf(l) => l,
    }
}

/// Regular expressions for a filter pattern; `None` when the pattern matches everything (no
/// alternative, or an empty one).
pub open spec fn spec_regex_patterns(p: FilterPartView, right: bool, left: bool, complete: bool) -> Option<
    Seq<Seq<char>>,
> {
    let alts = part_alternatives(p);
    if alts.len() == 0 || has_empty(alts) {
        None
    } else {
        Some(alts.map_values(|f: Seq<char>| spec_pattern_regex(f, right, left, complete)))
    }
}

fn push_all(out: &mut Vec<char>, s: &str)
    ensures
        final(out)@ == old(out)@ + s@,
{
    let v = str_to_chars(s);
    let mut i: usize = 0;
    while i < v.len()
        invariant
            i <= v@.len(),
            out@ == old(out)@ + v@.subrange(0, i as int),
        decreases v.len() - i,
    {
        out.push(v[i]);
        i += 1;
        proof {
            assert(out@ =~= old(out)@ + v@.subrange(0, i as int));
        }
    }
    proof {
        assert(v@.subrange(0, v@.len() as int) =~= v@);
    }
}

proof fn lemma_escape_specials_push(s: Seq<char>, i: int)
    requires
        0 <= i < s.len(),
    ensures
        escape_specials(s.subrange(0, i + 1)) == escape_specials(s.subrange(0, i)) + escape_char(
            s[i],
        ),
{
    assert(s.subrange(0, i + 1).drop_last() =~= s.subrange(0, i));
}

fn escape_specials_exec(s: &[char]) -> (r: Vec<char>)
    ensures
        r@ == escape_specials(s@),
{
    let mut out: Vec<char> = Vec::new();
    let mut i: usize = 0;
    while i < s.len()
        invariant
            i <= s@.len(),
            out@ == escape_specials(s@.subrange(0, i as int)),
        decreases s.len() - i,
    {
        let c = s[i];
        proof {
            lemma_escape_specials_push(s@, i as int);
        }
        if c == '|' || c == '.' || c == '$' || c == '+' || c == '?' || c == '{' || c == '}' || c
            == '(' || c == ')' || c == '[' || c == ']' {
            out.push('\\');
            out.push(c);
            proof {
                assert(escape_char(c) =~= seq!['\\', c]);
            }
        } else if c == '*' {
            out.push('.');
            out.push('*');
            proof {
                assert(escape_char(c) =~= seq!['.', '*']);
            }
        } else {
            out.push(c);
            proof {
                assert(escape_char(c) =~= seq![c]);
            }
        }
        i += 1;
    }
    proof {
        assert(s@.subrange(0, s@.len() as int) =~= s@);
    }
    out
}

fn replace_anchors_exec(s: &[char]) -> (r: Vec<char>)
    ensures
        r@ == replace_anchors(s@),
{
    let mut out: Vec<char> = Vec::new();
    let mut i: usize = 0;
    proof {
        assert(s@.subrange(0, s@.len() as int) =~= s@);
        assert(out@ + replace_anchors(s@) =~= replace_anchors(s@));
    }
    while i < s.len()
        invariant
            i <= s@.len(),
            out@ + replace_anchors(s@.subrange(i as int, s@.len() as int)) == replace_anchors(s@),
        decreases s.len() - i,
    {
        let ghost rest = s@.subrange(i as int, s@.len() as int);
        if i + 1 < s.len() && s[i] == '^' && s[i + 1] != '\n' {
            proof {
                assert(rest.subrange(2, rest.len() as int) =~= s@.subrange(i + 2, s@.len() as int));
            }
            let ghost before = out@;
            push_all(&mut out, "(?:[^\\w\\d\\._%-])");
            out.push(s[i + 1]);
            i += 2;
            proof {
                assert(out@ + replace_anchors(s@.subrange(i as int, s@.len() as int)) =~= before
                    + replace_anchors(rest));
            }
        } else {
            proof {
                assert(rest.drop_first() =~= s@.subrange(i + 1, s@.len() as int));
            }
            let ghost before = out@;
            out.push(s[i]);
            i += 1;
            proof {
                assert(out@ + replace_anchors(s@.subrange(i as int, s@.len() as int)) =~= before
                    + replace_anchors(rest));
            }
        }
    }
    proof {
        assert(s@.subrange(i as int, s@.len() as int) =~= Seq::<char>::empty());
        assert(out@ + Seq::<char>::empty() =~= out@);
    }
    out
}

fn unescape_char_exec(s: &[char], c: char) -> (r: Vec<char>)
    ensures
        r@ == unescape_char(s@, c),
{
    let mut out: Vec<char> = Vec::new();
    let mut i: usize = 0;
    proof {
        assert(s@.subrange(0, s@.len() as int) =~= s@);
        assert(out@ + unescape_char(s@, c) =~= unescape_char(s@, c));
    }
    while i < s.len()
        invariant
            i <= s@.len(),
            out@ + unescape_char(s@.subrange(i as int, s@.len() as int), c) == unescape_char(s@, c),
        decreases s.len() - i,
    {
        let ghost rest = s@.subrange(i as int, s@.len() as int);
        let ghost before = out@;
        if i + 1 < s.len() && s[i] == '\\' && s[i + 1] == c {
            proof {
                assert(rest.subrange(2, rest.len() as int) =~= s@.subrange(i + 2, s@.len() as int));
            }
            out.push(c);
            i += 2;
        } else {
            proof {
                assert(rest.drop_first() =~= s@.subrange(i + 1, s@.len() as int));
            }
            out.push(s[i]);
            i += 1;
        }
        proof {
            assert(out@ + unescape_char(s@.subrange(i as int, s@.len() as int), c) =~= before
                + unescape_char(rest, c));
        }
    }
    proof {
        assert(s@.subrange(i as int, s@.len() as int) =~= Seq::<char>::empty());
        assert(out@ + Seq::<char>::empty() =~= out@);
    }
    out
}

/// Regular expression text for one alternative of a filter pattern.
#[verifier::spinoff_prover]
pub fn pattern_regex(f: &str, right: bool, left: bool, complete: bool) -> (r: String)
    ensures
        r@ == spec_pattern_regex(f@, right, left, complete),
{
    let fv = str_to_chars(f);
    if complete {
        let inner = if fv.len() >= 2 {
            sub_chars(fv.as_slice(), 1, fv.len() - 1)
        } else {
            Vec::new()
        };
        let a = unescape_char_exec(inner.as_slice(), '/');
        let b = unescape_char_exec(a.as_slice(), ':');
        chars_to_string_all(b.as_slice())
    } else {
        let escaped = escape_specials_exec(fv.as_slice());
        let mut body = replace_anchors_exec(escaped.as_slice());
        if body.len() > 0 && body[body.len() - 1] == '^' {
            let ghost b0 = body@;
            body.pop();
            push_all(&mut body, "(?:[^\\w\\d\\._%-]|$)");
            proof {
                assert(body@ =~= b0.drop_last() + separator_or_end());
            }
        }
        let mut out: Vec<char> = Vec::new();
        if left {
            out.push('^');
        }
        let ghost start = out@;
        let mut i: usize = 0;
        while i < body.len()
            invariant
                i <= body@.len(),
                out@ == start + body@.subrange(0, i as int),
            decreases body.len() - i,
        {
            out.push(body[i]);
            i += 1;
            proof {
                assert(out@ =~= start + body@.subrange(0, i as int));
            }
        }
        if right {
            out.push('$');
        }
        proof {
            assert(body@.subrange(0, body@.len() as int) =~= body@);
            let l: Seq<char> = if left {
                seq!['^']
            } else {
                Seq::empty()
            };
            let rr: Seq<char> = if right {
                seq!['$']
            } else {
                Seq::empty()
            };
            assert(start =~= l);
            assert(out@ =~= l + body@ + rr);
        }
        chars_to_string_all(out.as_slice())
    }
}

/// Some string of `l` is empty.
pub open spec fn has_empty(l: Seq<Seq<char>>) -> bool {
    exists|i: int| 0 <= i < l.len() && #[trigger] l[i].len() == 0
}

fn any_empty(l: &Vec<String>) -> (r: bool)
    ensures
        r == has_empty(l.deep_view()),
{
    let ghost d = l.deep_view();
    let mut i: usize = 0;
    while i < l.len()
        invariant
            i <= l@.len(),
            d == l.deep_view(),
            d.len() == l@.len(),
            forall|j: int| 0 <= j < i ==> #[trigger] d[j].len() != 0,
        decreases l.len() - i,
    {
        proof {
            assert(d[i as int] == l@[i as int]@);
        }
        if str_to_chars(l[i].as_str()).len() == 0 {
            assert(d[i as int].len() == 0);
            return true;
        }
        i += 1;
    }
    false
}

/// Regular expressions for a filter pattern, or `None` when it matches everything.
#[verifier::spinoff_prover]
pub fn regex_patterns(p: &FilterPart, right: bool, left: bool, complete: bool) -> (r: Option<
    Vec<String>,
>)
    ensures
        r.deep_view() == spec_regex_patterns(p@, right, left, complete),
{
    let alts: Vec<String> = match p {
        FilterPart::Empty => Vec::new(),
        FilterPart::Simple(s) => {
            let mut v: Vec<String> = Vec::new();
            v.push(s.clone());
            proof {
                assert(v.deep_view() =~= seq![s@]);
            }
            v
        },
        FilterPart::AnyOf(l) => {
            let mut v: Vec<String> = Vec::new();
            let mut i: usize = 0;
            while i < l.len()
                invariant
                    i <= l@.len(),
                    v.deep_view() == l.deep_view().subrange(0, i as int),
                decreases l.len() - i,
            {
                let x = l[i].clone();
                let ghost before = v.deep_view();
                v.push(x);
                i += 1;
                proof {
                    assert(v.deep_view() =~= before.push(x@));
                    assert(v.deep_view() =~= l.deep_view().subrange(0, i as int));
                }
            }
            proof {
                assert(l.deep_view().subrange(0, l@.len() as int) =~= l.deep_view());
            }
            v
        },
    };
    proof {
        assert(alts.deep_view() =~= part_alternatives(p@));
    }
    let ghost a = part_alternatives(p@);
    if alts.len() == 0 || any_empty(&alts) {
        return None;
    }
    let mut out: Vec<String> = Vec::new();
    let mut i: usize = 0;
    while i < alts.len()
        invariant
            i <= alts@.len(),
            a == alts.deep_view(),
            a.len() == alts@.len(),
            !has_empty(a),
            out.deep_view() == a.subrange(0, i as int).map_values(
                |f: Seq<char>| spec_pattern_regex(f, right, left, complete),
            ),
        decreases alts.len() - i,
    {
        let s = alts[i].as_str();
        proof {
            assert(s@ == a[i as int]);
        }
        let x = pattern_regex(s, right, left, complete);
        let ghost before = out.deep_view();
        out.push(x);
        i += 1;
        proof {
            assert(out.deep_view() =~= before.push(x@));
            assert(a.subrange(0, i as int).map_values(
                |f: Seq<char>| spec_pattern_regex(f, right, left, complete),
            ) =~= a.subrange(0, i - 1).map_values(
                |f: Seq<char>| spec_pattern_regex(f, right, left, complete),
            ).push(spec_pattern_regex(a[i - 1], right, left, complete)));
        }
    }
    proof {
        assert(a.subrange(0, a.len() as int) =~= a);
    }
    Some(out)
}

/// Whether the `regex` crate, given these patterns as a set built with Unicode support turned
/// off, matches the haystack (as bytes); `None` when the set does not compile.
pub uninterp spec fn regex_set_match(patterns: Seq<Seq<char>>, haystack: Seq<char>) -> Option<bool>;

/// Builds a `regex::bytes::RegexSet` from `patterns` (with `unicode(false)`) and asks whether it
/// matches `haystack`. The contract names the outcome `regex_set_match` of the patterns and the
/// haystack and says nothing of what the regular expressions mean.
#[verifier::external_body]
fn regex_is_match(patterns: &Vec<String>, haystack: &str) -> (r: Option<bool>)
    ensures
        r == regex_set_match(patterns.deep_view(), haystack@),
{
    match regex::bytes::RegexSetBuilder::new(patterns).unicode(false).build() {
        Ok(set) => Some(set.is_match(haystack.as_bytes())),
        Err(_) => None,
    }
}

/// What a regular-expression filter says of `text`: filters that are no regular expression, and
/// patterns that match everything, hold; otherwise the compiled set must match, and a set that
/// does not compile matches nothing.
pub open spec fn spec_regex_filter_matches(f: NetworkFilterView, text: Seq<char>) -> bool {
    if !has_flag(f.mask, IS_REGEX) && !has_flag(f.mask, IS_COMPLETE_REGEX) {
        true
    } else {
        match spec_regex_patterns(
            f.filter,
            has_flag(f.mask, IS_RIGHT_ANCHOR),
            has_flag(f.mask, IS_LEFT_ANCHOR),
            has_flag(f.mask, IS_COMPLETE_REGEX),
        ) {
            None => true,
            Some(ps) => regex_outcome(regex_set_match(ps, text)),
        }
    }
}

/// A match only when the set compiled and matched.
pub open spec fn regex_outcome(r: Option<bool>) -> bool {
    r == Some(true)
}

/// Reads the outcome of a regular-expression set: a match only when it compiled and matched.
pub fn regex_match_outcome(r: Option<bool>) -> (b: bool)
    ensures
        b == regex_outcome(r),
{
    match r {
        Some(x) => x,
        None => false,
    }
}

/// Matches a regular-expression filter against `text`.
pub fn regex_filter_matches(filter: &NetworkFilter, text: &[char]) -> (r: bool)
    ensures
        r == spec_regex_filter_matches(filter@, text@),
{
    if !filter.is_regex() && !filter.is_complete_regex() {
        return true;
    }
    match regex_patterns(
        &filter.filter,
        filter.is_right_anchor(),
        filter.is_left_anchor(),
        filter.is_complete_regex(),
    ) {
        None => true,
        Some(ps) => {
            let hay = chars_to_string_all(text);
            let outcome = regex_is_match(&ps, hay.as_str());
            regex_match_outcome(outcome)
        },
    }
}

// ---------------------------------------------------------------------------------------------
// Whole patterns
// ---------------------------------------------------------------------------------------------

/// The URL a filter is matched against: as written for `$match-case`, lowercased otherwise.
pub open spec fn spec_match_url(f: NetworkFilterView, req: Request) -> Seq<char> {
    if has_flag(f.mask, MATCH_CASE) {
        req.url@
    } else {
        req.url_lower_cased@
    }
}

/// The pattern of a hostname-anchored filter, once its hostname anchors the request.
pub open spec fn spec_hostname_rest_matches(
    f: NetworkFilterView,
    url: Seq<char>,
    host: Seq<char>,
    fh: Seq<char>,
) -> bool {
    let right = has_flag(f.mask, IS_RIGHT_ANCHOR);
    let left = has_flag(f.mask, IS_LEFT_ANCHOR);
    if has_flag(f.mask, IS_REGEX) {
        spec_regex_filter_matches(f, spec_regex_text_after(url, fh))
    } else if right && left {
        part_holds(f.filter, MatchKind::Equals, spec_url_after_hostname(url, fh))
    } else if right {
        match f.filter {
            FilterPartView::Empty => host.len() == fh.len() || seq_ends_with(host, fh),
            _ => part_holds(f.filter, MatchKind::EndsWith, url),
        }
    } else if left {
        part_holds(f.filter, MatchKind::StartsWith, spec_url_after_hostname(url, fh))
    } else {
        part_holds(f.filter, MatchKind::Contains, spec_url_after_hostname(url, fh))
    }
}

/// Whether the URL pattern of a filter matches a request. A hostname-anchored filter without a
/// hostname matches nothing.
pub open spec fn spec_check_pattern(f: NetworkFilterView, req: Request) -> bool {
    let url = spec_match_url(f, req);
    let right = has_flag(f.mask, IS_RIGHT_ANCHOR);
    let left = has_flag(f.mask, IS_LEFT_ANCHOR);
    if has_flag(f.mask, IS_HOSTNAME_ANCHOR) {
        match f.hostname {
            None => false,
            Some(fh) => spec_is_anchored_by_hostname(
                fh,
                req.hostname@,
                has_flag(f.mask, IS_HOSTNAME_REGEX),
            ) && spec_hostname_rest_matches(f, url, req.hostname@, fh),
        }
    } else if has_flag(f.mask, IS_REGEX) || has_flag(f.mask, IS_COMPLETE_REGEX) {
        spec_regex_filter_matches(f, url)
    } else if left && right {
        part_holds(f.filter, MatchKind::Equals, url)
    } else if left {
        part_holds(f.filter, MatchKind::StartsWith, url)
    } else if right {
        part_holds(f.filter, MatchKind::EndsWith, url)
    } else {
        part_holds(f.filter, MatchKind::Contains, url)
    }
}

fn hostname_rest_matches(filter: &NetworkFilter, url: &[char], host: &[char], fh: &[char]) -> (r:
    bool)
    ensures
        r == spec_hostname_rest_matches(filter@, url@, host@, fh@),
{
    let right = filter.is_right_anchor();
    let left = filter.is_left_anchor();
    if filter.is_regex() {
        let text = regex_text_after(url, fh);
        regex_filter_matches(filter, text.as_slice())
    } else if right && left {
        let after = get_url_after_hostname(url, fh);
        check_part(&filter.filter, MatchKind::Equals, after.as_slice())
    } else if right {
        match &filter.filter {
            FilterPart::Empty => host.len() == fh.len() || ends_with(host, fh),
            _ => check_part(&filter.filter, MatchKind::EndsWith, url),
        }
    } else if left {
        let after = get_url_after_hostname(url, fh);
        check_part(&filter.filter, MatchKind::StartsWith, after.as_slice())
    } else {
        let after = get_url_after_hostname(url, fh);
        check_part(&filter.filter, MatchKind::Contains, after.as_slice())
    }
}

/// Whether the URL pattern of a filter matches a request.
pub fn check_pattern(filter: &NetworkFilter, request: &Request) -> (r: bool)
    ensures
        r == spec_check_pattern(filter@, *request),
{
    let url = str_to_chars(request.get_url(filter.match_case()));
    let right = filter.is_right_anchor();
    let left = filter.is_left_anchor();
    if filter.is_hostname_anchor() {
        match &filter.hostname {
            None => false,
            Some(fh) => {
                let fhv = str_to_chars(fh.as_str());
                let host = str_to_chars(request.hostname.as_str());
                is_anchored_by_hostname(
                    fhv.as_slice(),
                    host.as_slice(),
                    filter.mask.contains(IS_HOSTNAME_REGEX),
                ) && hostname_rest_matches(filter, url.as_slice(), host.as_slice(), fhv.as_slice())
            },
        }
    } else if filter.is_regex() || filter.is_complete_regex() {
        regex_filter_matches(filter, url.as_slice())
    } else if left && right {
        check_part(&filter.filter, MatchKind::Equals, url.as_slice())
    } else if left {
        check_part(&filter.filter, MatchKind::StartsWith, url.as_slice())
    } else if right {
        check_part(&filter.filter, MatchKind::EndsWith, url.as_slice())
    } else {
        check_part(&filter.filter, MatchKind::Contains, url.as_slice())
    }
}

/// A filter matches a request when its options allow it and its pattern matches.
pub open spec fn spec_matches(f: NetworkFilterView, req: Request) -> bool {
    spec_check_options(f, req) && spec_check_pattern(f, req)
}


// ---------------------------------------------------------------------------------------------
// Laws of matching
// ---------------------------------------------------------------------------------------------

proof fn lemma_member_within_union(s: Seq<u64>, n: int, k: int)
    requires
        0 <= k < n <= s.len(),
    ensures
        s[k] & crate::filters::network::or_fold(s, n) == s[k],
    decreases n,
{
    let h = s[k];
    let prev = crate::filters::network::or_fold(s, n - 1);
    let last = s[n - 1];
    if k == n - 1 {
        assert(h & (prev | h) == h) by (bit_vector);
    } else {
        lemma_member_within_union(s, n - 1, k);
        assert(h & prev == h ==> h & (prev | last) == h) by (bit_vector);
    }
}

/// A source excluded by `$domain=~...` is never matched: when one of the request's source
/// hostname hashes is among the filter's excluded domain hashes (whose recorded union, if any,
/// is the union of those hashes, as parsing records it), the filter does not apply to the
/// request, whatever its other options and pattern.
pub proof fn law_excluded_source_never_matches(f: NetworkFilterView, req: Request, h: u64)
    requires
        f.opt_not_domains matches Some(ex) && ex.contains(h),
        req.source_hostname_hashes.deep_view() matches Some(sh) && sh.contains(h),
        f.opt_not_domains_union matches Some(u) ==> u == crate::filters::network::hash_union(
            f.opt_not_domains->0,
        ),
    ensures
        !spec_check_options(f, req),
        !spec_matches(f, req),
{
    let ex = f.opt_not_domains->0;
    let sh = req.source_hostname_hashes.deep_view()->0;
    let i = choose|i: int| 0 <= i < sh.len() && sh[i] == h;
    let k = choose|k: int| 0 <= k < ex.len() && ex[k] == h;
    assert(ex.contains(sh[i]));
    match f.opt_not_domains_union {
        Some(u) => {
            lemma_member_within_union(ex, ex.len() as int, k);
            assert((sh[i] & u) == sh[i]);
            assert(any_within_union_and_in(sh, u, ex));
        },
        None => {
            assert(any_in(sh, ex));
        },
    }
}

/// A filter limited by `$domain=` to some sources never matches a request none of whose source
/// hostname hashes is among the filter's included domain hashes.
pub proof fn law_unlisted_source_never_matches(f: NetworkFilterView, req: Request)
    requires
        f.opt_domains matches Some(inc) && req.source_hostname_hashes.deep_view() matches Some(sh)
            && forall|i: int| 0 <= i < sh.len() ==> !inc.contains(#[trigger] sh[i]),
    ensures
        !spec_check_options(f, req),
        !spec_matches(f, req),
{
}

/// The party options restrict matching: a filter without the third-party bit (as after
/// `$first-party` or `$~third-party`) never matches a third-party request, and one without the
/// first-party bit (as after `$third-party` or `$~first-party`) never matches a first-party
/// request.
pub proof fn law_party_bits_restrict_matching(f: NetworkFilterView, req: Request)
    ensures
        req.is_third_party && !has_flag(f.mask, THIRD_PARTY) ==> !spec_matches(f, req),
        !req.is_third_party && !has_flag(f.mask, FIRST_PARTY) ==> !spec_matches(f, req),
{
}

proof fn lemma_or_sets(x: u32, f: u32)
    by (bit_vector)
    ensures
        (x | f) & f == f,
{
}

/// Lengths and first letters of the type and option names, which tell them apart.
proof fn lemma_type_name_shapes()
    ensures
        "generichide"@.len() == 11 && "generichide"@[0] == 'g',
        "ghide"@.len() == 5 && "ghide"@[0] == 'g',
        "document"@.len() == 8 && "document"@[0] == 'd',
        "doc"@.len() == 3 && "doc"@[0] == 'd',
        "image"@.len() == 5 && "image"@[0] == 'i',
        "media"@.len() == 5 && "media"@[0] == 'm',
        "object"@.len() == 6 && "object"@[0] == 'o',
        "object-subrequest"@.len() == 17 && "object-subrequest"@[0] == 'o',
        "other"@.len() == 5 && "other"@[0] == 'o',
        "ping"@.len() == 4 && "ping"@[0] == 'p',
        "beacon"@.len() == 6 && "beacon"@[0] == 'b',
        "script"@.len() == 6 && "script"@[0] == 's',
        "stylesheet"@.len() == 10 && "stylesheet"@[0] == 's',
        "css"@.len() == 3 && "css"@[0] == 'c',
        "subdocument"@.len() == 11 && "subdocument"@[0] == 's',
        "frame"@.len() == 5 && "frame"@[0] == 'f',
        "xmlhttprequest"@.len() == 14 && "xmlhttprequest"@[0] == 'x',
        "xhr"@.len() == 3 && "xhr"@[0] == 'x',
        "websocket"@.len() == 9 && "websocket"@[0] == 'w',
        "font"@.len() == 4 && "font"@[0] == 'f',
        "csp_report"@.len() == 10 && "csp_report"@[0] == 'c',
        "main_frame"@.len() == 10 && "main_frame"@[0] == 'm',
        "imageset"@.len() == 8 && "imageset"@[0] == 'i',
        "object_subrequest"@.len() == 17 && "object_subrequest"@[0] == 'o',
        "sub_frame"@.len() == 9 && "sub_frame"@[0] == 's',
{
    reveal_strlit("generichide");
    reveal_strlit("ghide");
    reveal_strlit("document");
    reveal_strlit("doc");
    reveal_strlit("image");
    reveal_strlit("media");
    reveal_strlit("object");
    reveal_strlit("object-subrequest");
    reveal_strlit("other");
    reveal_strlit("ping");
    reveal_strlit("beacon");
    reveal_strlit("script");
    reveal_strlit("stylesheet");
    reveal_strlit("css");
    reveal_strlit("subdocument");
    reveal_strlit("frame");
    reveal_strlit("xmlhttprequest");
    reveal_strlit("xhr");
    reveal_strlit("websocket");
    reveal_strlit("font");
    reveal_strlit("csp_report");
    reveal_strlit("main_frame");
    reveal_strlit("imageset");
    reveal_strlit("object_subrequest");
    reveal_strlit("sub_frame");
}

/// Content-type names agree between rules and requests: when a request's type string is also
/// the name of a content-type option (`image`, `script`, `stylesheet`, `xhr`, `beacon`, ...;
/// the option-only aliases `css`, `frame`, `doc` and `object-subrequest` aside), the request is
/// of the type that this option allows: applying the option adds exactly the request type's
/// bit to the allowed types.
pub proof fn law_type_strings_agree_with_type_options(
    s: Seq<char>,
    v: Seq<char>,
    st: crate::filters::network::OptState,
)
    requires
        crate::filters::network::spec_option_from_parts_rest(false, s, v) matches Ok(o) && !(o is Generichide),
        s != "css"@,
        s != "frame"@,
        s != "doc"@,
        s != "object-subrequest"@,
    ensures
        has_flag(
            crate::filters::network::apply_option(
                st,
                crate::filters::network::spec_option_from_parts_rest(false, s, v)->Ok_0,
            ).cpt_pos,
            spec_type_flag(crate::request::spec_cpt_match_type(s)),
        ),
{
    reveal(crate::filters::network::spec_option_from_parts_rest);
    lemma_type_name_shapes();
    let o = crate::filters::network::spec_option_from_parts_rest(false, s, v)->Ok_0;
    let f = spec_type_flag(crate::request::spec_cpt_match_type(s));
    assert(crate::filters::network::apply_option(st, o).cpt_pos == st.cpt_pos | f);
    lemma_or_sets(st.cpt_pos, f);
}

/// The alternative request type strings name the same type as their main name: `main_frame`
/// as `document`, `imageset` as `image`, `object_subrequest` as `object`, `sub_frame` as
/// `subdocument`, `beacon` as `ping` and `xhr` as `xmlhttprequest`; none of them is `other`.
pub proof fn law_type_string_aliases()
    ensures
        crate::request::spec_cpt_match_type("main_frame"@) == crate::request::spec_cpt_match_type("document"@),
        crate::request::spec_cpt_match_type("imageset"@) == crate::request::spec_cpt_match_type("image"@),
        crate::request::spec_cpt_match_type("object_subrequest"@) == crate::request::spec_cpt_match_type("object"@),
        crate::request::spec_cpt_match_type("sub_frame"@) == crate::request::spec_cpt_match_type("subdocument"@),
        crate::request::spec_cpt_match_type("beacon"@) == crate::request::spec_cpt_match_type("ping"@),
        crate::request::spec_cpt_match_type("xhr"@) == crate::request::spec_cpt_match_type("xmlhttprequest"@),
        crate::request::spec_cpt_match_type("main_frame"@) != RequestType::Other,
        crate::request::spec_cpt_match_type("imageset"@) != RequestType::Other,
        crate::request::spec_cpt_match_type("object_subrequest"@) != RequestType::Other,
        crate::request::spec_cpt_match_type("sub_frame"@) != RequestType::Other,
{
    lemma_type_name_shapes();
}

impl NetworkFilter {
    /// Whether this filter matches the request.
    pub fn matches(&self, request: &Request) -> (r: bool)
        ensures
            r == spec_matches(self@, *request),
    {
        check_options(self, request) && check_pattern(self, request)
    }
}

} // verus!
