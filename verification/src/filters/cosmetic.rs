//! Cosmetic filter rules: CSS selectors to hide, styles to apply and scripts to inject, each
//! possibly restricted to hostnames and entities (`domain.*`).

use vstd::prelude::*;

use crate::filters::network::opt_sorted_version_of;
use crate::utils::{
    seq_starts_with, chars_is_ascii, chars_to_string, chars_to_string_all, domain_to_ascii_chars, hash_chars,
    hash_chars_range, idna_to_ascii, sort_hashes, spec_fast_hash, spec_index_of, spec_is_ascii,
    spec_split, split_chars, str_to_chars, sub_chars, HASH_SEED,
};

verus! {

/// Reasons a cosmetic filter rule is refused.
#[derive(Clone, Copy, Debug, PartialEq, Eq, Structural)]
pub enum CosmeticFilterError {
    PunycodeError,
    InvalidStyleSpecifier,
    UnsupportedSyntax,
    MissingSharp,
    InvalidCssStyle,
    InvalidCssSelector,
    GenericUnhide,
    GenericScriptInject,
    GenericStyle,
    DoubleNegation,
    EmptyRule,
}

/// `#@#`: the rule excepts rather than hides.
pub const UNHIDE: u8 = 1;
/// `##+js(...)`: the rule injects a script.
pub const SCRIPT_INJECT: u8 = 2;
/// The rule holds non-ASCII text.
pub const IS_UNICODE: u8 = 4;
/// The selector starts with a class.
pub const IS_CLASS_SELECTOR: u8 = 8;
/// The selector starts with an id.
pub const IS_ID_SELECTOR: u8 = 16;
/// The selector is nothing but its first class or id.
pub const IS_SIMPLE: u8 = 32;

/// Option bits of a cosmetic filter.
#[derive(Clone, Copy, Debug, PartialEq, Eq, Structural)]
pub struct CosmeticFilterMask {
    pub bits: u8,
}

impl CosmeticFilterMask {
    /// Whether every bit of `flag` is set.
    pub fn contains(&self, flag: u8) -> (r: bool)
        ensures
            r == (self.bits & flag == flag),
    {
        self.bits & flag == flag
    }
}

/// A parsed cosmetic filter rule.
#[derive(Debug)]
pub struct CosmeticFilter {
    /// Sorted hashes of the entities (`name.*`) the rule applies to.
    pub entities: Option<Vec<u64>>,
    /// Sorted hashes of the hostnames the rule applies to.
    pub hostnames: Option<Vec<u64>>,
    pub mask: CosmeticFilterMask,
    /// Sorted hashes of the entities excluded with `~`.
    pub not_entities: Option<Vec<u64>>,
    /// Sorted hashes of the hostnames excluded with `~`.
    pub not_hostnames: Option<Vec<u64>>,
    pub raw_line: Option<String>,
    pub selector: String,
    /// First class or id of the selector, without its `.` or `#`.
    pub key: Option<String>,
    pub style: Option<String>,
}

/// Abstract value of a cosmetic filter.
pub ghost struct CosmeticFilterView {
    pub entities: Option<Seq<u64>>,
    pub hostnames: Option<Seq<u64>>,
    pub mask: u8,
    pub not_entities: Option<Seq<u64>>,
    pub not_hostnames: Option<Seq<u64>>,
    pub raw_line: Option<Seq<char>>,
    pub selector: Seq<char>,
    pub key: Option<Seq<char>>,
    pub style: Option<Seq<char>>,
}

impl View for CosmeticFilter {
    type V = CosmeticFilterView;

    open spec fn view(&self) -> CosmeticFilterView {
        CosmeticFilterView {
            entities: self.entities.deep_view(),
            hostnames: self.hostnames.deep_view(),
            mask: self.mask.bits,
            not_entities: self.not_entities.deep_view(),
            not_hostnames: self.not_hostnames.deep_view(),
            raw_line: self.raw_line.deep_view(),
            selector: self.selector@,
            key: self.key.deep_view(),
            style: self.style.deep_view(),
        }
    }
}

fn clone_hashes(s: &Option<Vec<u64>>) -> (r: Option<Vec<u64>>)
    ensures
        r.deep_view() == s.deep_view(),
{
    crate::filters::network::clone_opt_hashes(s)
}

fn clone_string(s: &Option<String>) -> (r: Option<String>)
    ensures
        r.deep_view() == s.deep_view(),
{
    crate::filters::network::clone_opt_string(s)
}

impl Clone for CosmeticFilter {
    fn clone(&self) -> (r: Self)
        ensures
            r@ == self@,
    {
        CosmeticFilter {
            entities: clone_hashes(&self.entities),
            hostnames: clone_hashes(&self.hostnames),
            mask: self.mask,
            not_entities: clone_hashes(&self.not_entities),
            not_hostnames: clone_hashes(&self.not_hostnames),
            raw_line: clone_string(&self.raw_line),
            selector: self.selector.clone(),
            key: clone_string(&self.key),
            style: clone_string(&self.style),
        }
    }
}

/// What a comma-separated location before `##` stands for.
#[derive(Clone, Copy, Debug, PartialEq, Eq, Structural)]
pub enum CosmeticFilterLocationType {
    Entity,
    NotEntity,
    Hostname,
    NotHostname,
}

/// Kind and name of one location: `~` negates, a final `.*` makes an entity.
pub open spec fn spec_location(part: Seq<char>) -> (CosmeticFilterLocationType, Seq<char>) {
    let negation = part.len() > 0 && part[0] == '~';
    let entity = part.len() >= 2 && part[part.len() - 2] == '.' && part[part.len() - 1] == '*';
    let start: int = if negation {
        1
    } else {
        0
    };
    let end: int = if entity {
        part.len() - 2
    } else {
        part.len() as int
    };
    let kind = if negation && entity {
        CosmeticFilterLocationType::NotEntity
    } else if negation {
        CosmeticFilterLocationType::NotHostname
    } else if entity {
        CosmeticFilterLocationType::Entity
    } else {
        CosmeticFilterLocationType::Hostname
    };
    (kind, part.subrange(start, end))
}

/// Locations of the non-empty parts of the first `n` parts.
pub open spec fn locations_of(parts: Seq<Seq<char>>, n: int) -> Seq<(CosmeticFilterLocationType, Seq<char>)>
    decreases n,
{
    if n <= 0 {
        Seq::empty()
    } else {
        let prev = locations_of(parts, n - 1);
        if parts[n - 1].len() == 0 {
            prev
        } else {
            prev.push(spec_location(parts[n - 1]))
        }
    }
}

/// Locations listed before the `#` at `sharp_index`, comma-separated, empty parts skipped.
pub open spec fn spec_locations_before_sharp(line: Seq<char>, sharp_index: int) -> Seq<
    (CosmeticFilterLocationType, Seq<char>),
> {
    let parts = spec_split(line.subrange(0, sharp_index), ',');
    locations_of(parts, parts.len() as int)
}

fn location_of(part: &Vec<char>) -> (r: (CosmeticFilterLocationType, String))
    ensures
        r.0 == spec_location(part@).0,
        r.1@ == spec_location(part@).1,
{
    let negation = part.len() > 0 && part[0] == '~';
    let entity = part.len() >= 2 && part[part.len() - 2] == '.' && part[part.len() - 1] == '*';
    let start: usize = if negation {
        1
    } else {
        0
    };
    let end: usize = if entity {
        part.len() - 2
    } else {
        part.len()
    };
    let kind = if negation && entity {
        CosmeticFilterLocationType::NotEntity
    } else if negation {
        CosmeticFilterLocationType::NotHostname
    } else if entity {
        CosmeticFilterLocationType::Entity
    } else {
        CosmeticFilterLocationType::Hostname
    };
    (kind, chars_to_string(part.as_slice(), start, end))
}

impl CosmeticFilter {
    /// The locations (hostnames and entities, possibly negated) listed before `sharp_index`.
    pub fn locations_before_sharp(line: &str, sharp_index: usize) -> (r: Vec<
        (CosmeticFilterLocationType, String),
    >)
        requires
            sharp_index <= line@.len(),
        ensures
            r@.len() == spec_locations_before_sharp(line@, sharp_index as int).len(),
            forall|i: int|
                0 <= i < r@.len() ==> (#[trigger] r@[i]).0 == spec_locations_before_sharp(
                    line@,
                    sharp_index as int,
                )[i].0 && r@[i].1@ == spec_locations_before_sharp(line@, sharp_index as int)[i].1,
    {
        let v = str_to_chars(line);
        let head = sub_chars(v.as_slice(), 0, sharp_index);
        let parts = split_chars(head.as_slice(), ',');
        let ghost ps = parts.deep_view();
        let mut out: Vec<(CosmeticFilterLocationType, String)> = Vec::new();
        let mut i: usize = 0;
        while i < parts.len()
            invariant
                i <= parts@.len(),
                ps == parts.deep_view(),
                ps.len() == parts@.len(),
                out@.len() == locations_of(ps, i as int).len(),
                forall|k: int|
                    0 <= k < out@.len() ==> (#[trigger] out@[k]).0 == locations_of(ps, i as int)[k].0
                        && out@[k].1@ == locations_of(ps, i as int)[k].1,
            decreases parts.len() - i,
        {
            proof {
                assert(ps[i as int] == parts@[i as int]@);
            }
            if parts[i].len() > 0 {
                let loc = location_of(&parts[i]);
                out.push(loc);
            }
            i += 1;
        }
        out
    }
}

/// The sorted version of a list of hashes, or `None` when it is empty.
pub open spec fn sorted_or_none_of(v: Option<Seq<u64>>, s: Seq<u64>) -> bool {
    if s.len() == 0 {
        v is None
    } else {
        opt_sorted_version_of(v, Some(s))
    }
}

fn sorted_or_none(v: Vec<u64>) -> (r: Option<Vec<u64>>)
    ensures
        sorted_or_none_of(r.deep_view(), v@),
{
    if v.len() == 0 {
        None
    } else {
        let mut w = v;
        sort_hashes(&mut w);
        proof {
            assert(w.deep_view() =~= w@);
        }
        Some(w)
    }
}

/// The hostname a location names: as is when ASCII, in punycode otherwise (`None` when it
/// cannot be converted).
pub open spec fn location_host(loc: Seq<char>) -> Option<Seq<char>> {
    if spec_is_ascii(loc) {
        Some(loc)
    } else {
        idna_to_ascii(loc)
    }
}

/// Hashes of the hostnames of the first `n` locations of kind `k`, or `None` when one of the
/// first `n` locations cannot be converted.
pub open spec fn location_hashes(locs: Seq<(CosmeticFilterLocationType, Seq<char>)>, k: CosmeticFilterLocationType, n: int) -> Option<
    Seq<u64>,
>
    decreases n,
{
    if n <= 0 {
        Some(Seq::empty())
    } else {
        match (location_hashes(locs, k, n - 1), location_host(locs[n - 1].1)) {
            (Some(prev), Some(h)) => Some(
                if locs[n - 1].0 == k {
                    prev.push(spec_fast_hash(h))
                } else {
                    prev
                },
            ),
            _ => None,
        }
    }
}

/// Some of the first `n` locations is not ASCII.
pub open spec fn any_unicode_location(locs: Seq<(CosmeticFilterLocationType, Seq<char>)>, n: int) -> bool {
    exists|i: int| 0 <= i < n && i < locs.len() && !spec_is_ascii(#[trigger] locs[i].1)
}

// ---------------------------------------------------------------------------------------------
// Hostname labels
// ---------------------------------------------------------------------------------------------

/// `hostname` without the public suffix of `domain` (what follows the first `.` of `domain`)
/// and its dot; `None` when `domain` has no `.`.
pub open spec fn spec_hostname_without_public_suffix(hostname: Seq<char>, domain: Seq<char>) -> Option<
    Seq<char>,
> {
    match spec_index_of(domain, '.') {
        Some(i) => {
            let suffix_len = domain.len() - i - 1;
            Some(hostname.subrange(0, hostname.len() - suffix_len - 1))
        },
        None => None,
    }
}

/// The public suffix of `domain` (and its dot) fits in `hostname`.
pub open spec fn suffix_fits(hostname: Seq<char>, domain: Seq<char>) -> bool {
    match spec_index_of(domain, '.') {
        Some(i) => domain.len() - i <= hostname.len(),
        None => true,
    }
}

/// `hostname` without the public suffix of `domain`.
pub fn get_hostname_without_public_suffix(hostname: &str, domain: &str) -> (r: Option<String>)
    requires
        suffix_fits(hostname@, domain@),
    ensures
        r.deep_view() == spec_hostname_without_public_suffix(hostname@, domain@),
{
    let d = str_to_chars(domain);
    match crate::utils::index_of(d.as_slice(), '.') {
        Some(i) => {
            let suffix_len = d.len() - i - 1;
            let h = str_to_chars(hostname);
            Some(chars_to_string(h.as_slice(), 0, h.len() - suffix_len - 1))
        },
        None => None,
    }
}

/// Index of the last `.` of `h[..p]`, or -1 when there is none.
pub open spec fn last_dot_before(h: Seq<char>, p: int) -> int
    decreases p,
{
    if p <= 0 || p > h.len() {
        -1
    } else if h[p - 1] == '.' {
        p - 1
    } else {
        last_dot_before(h, p - 1)
    }
}

/// The last dot before `p` is before `p`.
pub proof fn lemma_last_dot_before(h: Seq<char>, p: int)
    ensures
        -1 <= last_dot_before(h, p) < if p > 0 { p } else { 0 },
    decreases p,
{
    if p > 0 && p <= h.len() && h[p - 1] != '.' {
        lemma_last_dot_before(h, p - 1);
    }
}

/// Hashes of `h[d + 1..end]` for each `.` at index `d` below `ptr`, from the last one back,
/// then of `h[..end]`.
pub open spec fn label_hashes(h: Seq<char>, end: int, ptr: int) -> Seq<u64>
    decreases ptr,
{
    let d = last_dot_before(h, ptr);
    if d < 0 || ptr <= 0 {
        seq![spec_fast_hash(h.subrange(0, end))]
    } else {
        proof {
            lemma_last_dot_before(h, ptr);
        }
        seq![spec_fast_hash(h.subrange(d + 1, end))] + label_hashes(h, end, d)
    }
}

/// Hashes of all subdomains that `h[..end]` falls under, from the domain starting at
/// `start_of_domain` outwards to the whole; empty when `end` is 0.
pub open spec fn spec_hashes_from_labels(h: Seq<char>, end: int, start_of_domain: int) -> Seq<u64> {
    if end == 0 {
        Seq::empty()
    } else {
        label_hashes(h, end, start_of_domain)
    }
}

fn last_dot(h: &[char], p: usize) -> (r: Option<usize>)
    requires
        p <= h@.len(),
    ensures
        match r {
            Some(d) => d as int == last_dot_before(h@, p as int) && d < p,
            None => last_dot_before(h@, p as int) == -1,
        },
{
    let mut q = p;
    while q > 0 && h[q - 1] != '.'
        invariant
            q <= p <= h@.len(),
            last_dot_before(h@, p as int) == last_dot_before(h@, q as int),
        decreases q,
    {
        q -= 1;
    }
    if q == 0 {
        None
    } else {
        Some(q - 1)
    }
}

/// Hashes of all subdomains that `hostname[..end]` falls under.
pub fn get_hashes_from_labels(hostname: &str, end: usize, start_of_domain: usize) -> (r: Vec<u64>)
    requires
        start_of_domain <= end <= hostname@.len(),
    ensures
        r@ == spec_hashes_from_labels(hostname@, end as int, start_of_domain as int),
{
    let mut hashes: Vec<u64> = Vec::new();
    if end == 0 {
        return hashes;
    }
    let h = str_to_chars(hostname);
    let ghost full = label_hashes(h@, end as int, start_of_domain as int);
    let mut dot_ptr = start_of_domain;
    loop
        invariant
            dot_ptr <= start_of_domain <= end <= h@.len(),
            0 < end,
            hashes@ + label_hashes(h@, end as int, dot_ptr as int) == full,
        ensures
            dot_ptr <= start_of_domain <= end <= h@.len(),
            0 < end,
            hashes@ + label_hashes(h@, end as int, dot_ptr as int) == full,
            last_dot_before(h@, dot_ptr as int) == -1,
        decreases dot_ptr,
    {
        match last_dot(h.as_slice(), dot_ptr) {
            Some(d) => {
                let x = hash_chars_range(HASH_SEED, h.as_slice(), d + 1, end);
                let ghost before = hashes@;
                hashes.push(x);
                proof {
                    assert(hashes@ + label_hashes(h@, end as int, d as int) =~= before
                        + label_hashes(h@, end as int, dot_ptr as int));
                }
                dot_ptr = d;
            },
            None => {
                break;
            },
        }
    }
    let x = hash_chars_range(HASH_SEED, h.as_slice(), 0, end);
    let ghost before = hashes@;
    hashes.push(x);
    proof {
        assert(hashes@ =~= before + label_hashes(h@, end as int, dot_ptr as int));
    }
    hashes
}

/// Hashes of the parts of `hostname` that may match an entity rule.
pub open spec fn spec_entity_hashes(hostname: Seq<char>, domain: Seq<char>) -> Seq<u64> {
    match spec_hostname_without_public_suffix(hostname, domain) {
        Some(h) => spec_hashes_from_labels(h, h.len() as int, h.len() as int),
        None => Seq::empty(),
    }
}

/// Hashes of all segments of `hostname` that may match an entity-constrained rule.
pub fn get_entity_hashes_from_labels(hostname: &str, domain: &str) -> (r: Vec<u64>)
    requires
        suffix_fits(hostname@, domain@),
    ensures
        r@ == spec_entity_hashes(hostname@, domain@),
{
    match get_hostname_without_public_suffix(hostname, domain) {
        Some(h) => {
            let n = str_to_chars(h.as_str()).len();
            get_hashes_from_labels(h.as_str(), n, n)
        },
        None => Vec::new(),
    }
}

/// Hashes of all segments of `hostname` that may match a hostname-constrained rule.
pub fn get_hostname_hashes_from_labels(hostname: &str, domain: &str) -> (r: Vec<u64>)
    requires
        domain@.len() <= hostname@.len(),
    ensures
        r@ == spec_hashes_from_labels(
            hostname@,
            hostname@.len() as int,
            hostname@.len() - domain@.len(),
        ),
{
    let n = str_to_chars(hostname).len();
    let d = str_to_chars(domain).len();
    get_hashes_from_labels(hostname, n, n - d)
}

/// Selector validation: every selector is accepted.
pub fn is_valid_css_selector(_selector: &str) -> (r: bool)
    ensures
        r,
{
    true
}

/// Style validation: every style is accepted.
pub fn is_valid_css_style(_style: &str) -> (r: bool)
    ensures
        r,
{
    true
}

// ---------------------------------------------------------------------------------------------
// Selector keys
// ---------------------------------------------------------------------------------------------

/// Whether the `regex` crate's class `\w` (Unicode word characters) holds `c`.
pub uninterp spec fn regex_word_char(c: char) -> bool;

/// A character of the class `\w`: on ASCII a letter, a digit or `_`; beyond ASCII, as the
/// `regex` crate's Unicode tables decide.
pub open spec fn is_word_char(c: char) -> bool {
    if (c as u32) < 128 {
        ('a' <= c && c <= 'z') || ('A' <= c && c <= 'Z') || ('0' <= c && c <= '9') || c == '_'
    } else {
        regex_word_char(c)
    }
}

/// Whether `regex::Regex` for `^\w$` (Unicode mode, the crate's default) matches the string of
/// the single character `c`; the contract names the result `regex_word_char(c)`.
#[verifier::external_body]
fn regex_word(c: char) -> (r: bool)
    ensures
        r == regex_word_char(c),
{
    match regex::Regex::new(r"^\w$") {
        Ok(re) => re.is_match(&c.to_string()),
        Err(_) => false,
    }
}

fn word_char(c: char) -> (r: bool)
    ensures
        r == is_word_char(c),
{
    if (c as u32) < 128 {
        ('a' <= c && c <= 'z') || ('A' <= c && c <= 'Z') || ('0' <= c && c <= '9') || c == '_'
    } else {
        regex_word(c)
    }
}

/// A hexadecimal digit.
pub open spec fn is_hex(c: char) -> bool {
    ('0' <= c && c <= '9') || ('a' <= c && c <= 'f') || ('A' <= c && c <= 'F')
}

/// Value of a hexadecimal digit.
pub open spec fn hex_digit(c: char) -> int {
    if '0' <= c && c <= '9' {
        (c as u32 - '0' as u32) as int
    } else if 'a' <= c && c <= 'f' {
        (c as u32 - 'a' as u32 + 10) as int
    } else {
        (c as u32 - 'A' as u32 + 10) as int
    }
}

/// Value of a string of hexadecimal digits.
pub open spec fn hex_value(s: Seq<char>) -> int
    decreases s.len(),
{
    if s.len() == 0 {
        0
    } else {
        hex_value(s.drop_last()) * 16 + hex_digit(s.last())
    }
}

/// End of the run of characters of `[\w\\-]` from `i`.
pub open spec fn plain_run(s: Seq<char>, i: int) -> int
    decreases s.len() - i,
{
    if 0 <= i < s.len() && (is_word_char(s[i]) || s[i] == '\\' || s[i] == '-') {
        plain_run(s, i + 1)
    } else {
        i
    }
}

/// End of the run of hexadecimal digits from `i`.
pub open spec fn hex_run(s: Seq<char>, i: int) -> int
    decreases s.len() - i,
{
    if 0 <= i < s.len() && is_hex(s[i]) {
        hex_run(s, i + 1)
    } else {
        i
    }
}

/// End of the escaped-identifier token at `i`: `\` hex digits and a space, `\` and any
/// character but a newline, a word character, or `-`.
pub open spec fn esc_token_end(s: Seq<char>, i: int) -> Option<int> {
    if 0 <= i < s.len() && s[i] == '\\' {
        let h = hex_run(s, i + 1);
        if h > i + 1 && h < s.len() && s[h] == ' ' {
            Some(h + 1)
        } else if i + 1 < s.len() && s[i + 1] != '\n' {
            Some(i + 2)
        } else {
            None
        }
    } else if 0 <= i < s.len() && (is_word_char(s[i]) || s[i] == '-') {
        Some(i + 1)
    } else {
        None
    }
}

/// The run of hexadecimal digits from `i` ends at or after `i`, within the text.
pub proof fn lemma_hex_run(s: Seq<char>, i: int)
    requires
        0 <= i,
    ensures
        i <= hex_run(s, i),
        i <= s.len() ==> hex_run(s, i) <= s.len(),
    decreases s.len() - i,
{
    if 0 <= i < s.len() && is_hex(s[i]) {
        lemma_hex_run(s, i + 1);
    }
}

/// An escaped-identifier token ends after its start and within the text.
pub proof fn lemma_esc_token_end(s: Seq<char>, i: int)
    requires
        0 <= i,
    ensures
        esc_token_end(s, i) matches Some(j) ==> i < j <= s.len(),
{
    if 0 <= i < s.len() && s[i] == '\\' {
        lemma_hex_run(s, i + 1);
    }
}

/// End of the run of escaped-identifier tokens from `i`.
pub open spec fn esc_run(s: Seq<char>, i: int) -> int
    decreases s.len() - i,
{
    if i < 0 || i > s.len() {
        i
    } else {
        match esc_token_end(s, i) {
            Some(j) => {
                proof {
                    lemma_esc_token_end(s, i);
                }
                esc_run(s, j)
            },
            None => i,
        }
    }
}

/// The selector starts with `#` or `.`.
pub open spec fn starts_with_key_sigil(s: Seq<char>) -> bool {
    s.len() > 0 && (s[0] == '#' || s[0] == '.')
}

/// Decoding of the escapes in `s` from `i`: `\` hex digits and a space stand for the code point,
/// `\` and a character for the character. Fails on a code point above `u32::MAX` or that is
/// no character.
pub open spec fn unescape_from(s: Seq<char>, i: int) -> Result<Seq<char>, CosmeticFilterError>
    decreases s.len() - i,
{
    if i < 0 || i >= s.len() {
        Ok(Seq::empty())
    } else if s[i] == '\\' && i + 1 < s.len() {
        let h = hex_run(s, i + 1);
        if h > i + 1 && h < s.len() && s[h] == ' ' {
            let v = hex_value(s.subrange(i + 1, h));
            if v > u32::MAX || v > 0x10FFFF || (0xD800 <= v && v <= 0xDFFF) {
                Err(CosmeticFilterError::InvalidCssSelector)
            } else {
                proof {
                    lemma_hex_run(s, i + 1);
                }
                match unescape_from(s, h + 1) {
                    Ok(rest) => Ok(seq![code_point_char(v)] + rest),
                    Err(e) => Err(e),
                }
            }
        } else {
            match unescape_from(s, i + 2) {
                Ok(rest) => Ok(seq![s[i + 1]] + rest),
                Err(e) => Err(e),
            }
        }
    } else {
        match unescape_from(s, i + 1) {
            Ok(rest) => Ok(seq![s[i]] + rest),
            Err(e) => Err(e),
        }
    }
}

/// The character with code point `v`.
pub open spec fn code_point_char(v: int) -> char {
    (v as u32) as char
}

/// The first class or id of a selector that starts with `#` or `.`, with its sigil and its
/// escapes decoded.
pub open spec fn spec_key_from_selector(s: Seq<char>) -> Result<Seq<char>, CosmeticFilterError> {
    let e = plain_run(s, 1);
    if !starts_with_key_sigil(s) || e <= 1 {
        Err(CosmeticFilterError::InvalidCssSelector)
    } else if !s.subrange(0, e).contains('\\') {
        Ok(s.subrange(0, e))
    } else {
        let e2 = esc_run(s, 1);
        if e2 <= 1 {
            Err(CosmeticFilterError::InvalidCssSelector)
        } else {
            unescape_from(s.subrange(0, e2), 0)
        }
    }
}

/// `char::from_u32`.
#[verifier::external_body]
fn char_from_u32(v: u32) -> (r: Option<char>)
    ensures
        match r {
            Some(c) => c as u32 == v && v <= 0x10FFFF && !(0xD800 <= v && v <= 0xDFFF),
            None => v > 0x10FFFF || (0xD800 <= v && v <= 0xDFFF),
        },
{
    char::from_u32(v)
}

fn hex_digit_exec(c: char) -> (r: u64)
    requires
        is_hex(c),
    ensures
        r as int == hex_digit(c),
        r < 16,
{
    if '0' <= c && c <= '9' {
        (c as u32 - '0' as u32) as u64
    } else if 'a' <= c && c <= 'f' {
        (c as u32 - 'a' as u32 + 10) as u64
    } else {
        (c as u32 - 'A' as u32 + 10) as u64
    }
}

proof fn lemma_hex_value_mono(s: Seq<char>, n: int)
    requires
        0 <= n <= s.len(),
        forall|k: int| 0 <= k < s.len() ==> is_hex(#[trigger] s[k]),
    ensures
        hex_value(s.subrange(0, n)) <= hex_value(s),
        0 <= hex_value(s.subrange(0, n)),
    decreases s.len() - n,
{
    assert forall|k: int| 0 <= k < s.subrange(0, n).len() implies is_hex(#[trigger] s.subrange(0, n)[k]) by {
        assert(s.subrange(0, n)[k] == s[k]);
    }
    lemma_hex_value_nonneg(s.subrange(0, n));
    if n < s.len() {
        assert(is_hex(s[n]));
        lemma_hex_value_mono(s, n + 1);
        assert(s.subrange(0, n + 1).drop_last() =~= s.subrange(0, n));
        assert(hex_value(s.subrange(0, n + 1)) == hex_value(s.subrange(0, n)) * 16 + hex_digit(
            s[n],
        ));
    } else {
        assert(s.subrange(0, n) =~= s);
    }
}

proof fn lemma_hex_value_nonneg(s: Seq<char>)
    requires
        forall|k: int| 0 <= k < s.len() ==> is_hex(#[trigger] s[k]),
    ensures
        0 <= hex_value(s),
    decreases s.len(),
{
    if s.len() > 0 {
        assert forall|k: int| 0 <= k < s.drop_last().len() implies is_hex(#[trigger] s.drop_last()[k]) by {
            assert(s.drop_last()[k] == s[k]);
        }
        lemma_hex_value_nonneg(s.drop_last());
        assert(is_hex(s.last()));
    }
}

/// Value of the hexadecimal digits `s[a..b]`, or `None` when it exceeds `u32::MAX`.
fn hex_value_exec(s: &[char], a: usize, b: usize) -> (r: Option<u32>)
    requires
        a <= b <= s@.len(),
        forall|k: int| a <= k < b ==> is_hex(#[trigger] s@[k]),
    ensures
        match r {
            Some(v) => v as int == hex_value(s@.subrange(a as int, b as int)),
            None => hex_value(s@.subrange(a as int, b as int)) > u32::MAX,
        },
{
    let ghost t = s@.subrange(a as int, b as int);
    let mut v: u64 = 0;
    let mut i = a;
    while i < b
        invariant
            a <= i <= b <= s@.len(),
            t == s@.subrange(a as int, b as int),
            forall|k: int| a <= k < b ==> is_hex(#[trigger] s@[k]),
            v as int == hex_value(s@.subrange(a as int, i as int)),
            v <= u32::MAX,
        decreases b - i,
    {
        proof {
            assert(s@.subrange(a as int, i + 1).drop_last() =~= s@.subrange(a as int, i as int));
        }
        let d = hex_digit_exec(s[i]);
        let nv = v * 16 + d;
        i += 1;
        if nv > 4294967295u64 {
            proof {
                assert(forall|k: int| 0 <= k < t.len() ==> is_hex(#[trigger] t[k]));
                assert(t.subrange(0, i - a) =~= s@.subrange(a as int, i as int));
                lemma_hex_value_mono(t, i - a);
            }
            return None;
        }
        v = nv;
    }
    Some(v as u32)
}

fn hex_run_exec(s: &[char], i: usize) -> (r: usize)
    requires
        i <= s@.len(),
    ensures
        r == hex_run(s@, i as int),
        i <= r <= s@.len(),
        forall|k: int| i <= k < r ==> is_hex(#[trigger] s@[k]),
{
    let mut j = i;
    while j < s.len() && (('0' <= s[j] && s[j] <= '9') || ('a' <= s[j] && s[j] <= 'f') || ('A'
        <= s[j] && s[j] <= 'F'))
        invariant
            i <= j <= s@.len(),
            hex_run(s@, i as int) == hex_run(s@, j as int),
            forall|k: int| i <= k < j ==> is_hex(#[trigger] s@[k]),
        decreases s.len() - j,
    {
        j += 1;
    }
    j
}

fn unescape_exec(s: &[char]) -> (r: Result<Vec<char>, CosmeticFilterError>)
    ensures
        match r {
            Ok(v) => unescape_from(s@, 0) == Ok::<Seq<char>, CosmeticFilterError>(v@),
            Err(e) => unescape_from(s@, 0) == Err::<Seq<char>, CosmeticFilterError>(e),
        },
{
    let mut out: Vec<char> = Vec::new();
    let mut i: usize = 0;
    while i < s.len()
        invariant
            i <= s@.len(),
            unescape_from(s@, 0) == match unescape_from(s@, i as int) {
                Ok(rest) => Ok::<Seq<char>, CosmeticFilterError>(out@ + rest),
                Err(e) => Err(e),
            },
        decreases s.len() - i,
    {
        let ghost before = out@;
        if s[i] == '\\' && i + 1 < s.len() {
            let h = hex_run_exec(s, i + 1);
            if h > i + 1 && h < s.len() && s[h] == ' ' {
                match hex_value_exec(s, i + 1, h) {
                    None => {
                        return Err(CosmeticFilterError::InvalidCssSelector);
                    },
                    Some(v) => match char_from_u32(v) {
                        None => {
                            return Err(CosmeticFilterError::InvalidCssSelector);
                        },
                        Some(c) => {
                            out.push(c);
                            i = h + 1;
                            proof {
                                vstd::utf8::char_u32_cast(c, v);
                                assert(c == code_point_char(v as int));
                                match unescape_from(s@, i as int) {
                                    Ok(rest) => {
                                        assert(out@ + rest =~= before + (seq![c] + rest));
                                    },
                                    Err(e) => {},
                                }
                            }
                        },
                    },
                }
            } else {
                out.push(s[i + 1]);
                i += 2;
                proof {
                    match unescape_from(s@, i as int) {
                        Ok(rest) => {
                            assert(out@ + rest =~= before + (seq![s@[i - 1]] + rest));
                        },
                        Err(e) => {},
                    }
                }
            }
        } else {
            out.push(s[i]);
            i += 1;
            proof {
                match unescape_from(s@, i as int) {
                    Ok(rest) => {
                        assert(out@ + rest =~= before + (seq![s@[i - 1]] + rest));
                    },
                    Err(e) => {},
                }
            }
        }
    }
    proof {
        assert(out@ + Seq::<char>::empty() =~= out@);
    }
    Ok(out)
}

/// The first token (class or id, with its sigil) of a selector that starts with `#` or `.`,
/// its escapes decoded.
pub fn key_from_selector(selector: &str) -> (r: Result<String, CosmeticFilterError>)
    ensures
        match r {
            Ok(k) => spec_key_from_selector(selector@) == Ok::<Seq<char>, CosmeticFilterError>(k@),
            Err(e) => spec_key_from_selector(selector@) == Err::<Seq<char>, CosmeticFilterError>(e),
        },
{
    let s = str_to_chars(selector);
    if s.len() == 0 || !(s[0] == '#' || s[0] == '.') {
        return Err(CosmeticFilterError::InvalidCssSelector);
    }
    let mut e: usize = 1;
    while e < s.len() && (word_char(s[e]) || s[e] == '\\' || s[e] == '-')
        invariant
            1 <= e <= s@.len(),
            plain_run(s@, 1) == plain_run(s@, e as int),
        decreases s.len() - e,
    {
        e += 1;
    }
    if e <= 1 {
        return Err(CosmeticFilterError::InvalidCssSelector);
    }
    let head = sub_chars(s.as_slice(), 0, e);
    if !crate::utils::contains_char(head.as_slice(), '\\') {
        return Ok(chars_to_string_all(head.as_slice()));
    }
    let mut e2: usize = 1;
    loop
        invariant
            1 <= e2 <= s@.len(),
            esc_run(s@, 1) == esc_run(s@, e2 as int),
        ensures
            1 <= e2 <= s@.len(),
            esc_run(s@, 1) == e2,
        decreases s.len() - e2,
    {
        let c = s[e2 - 1];
        if e2 < s.len() && s[e2] == '\\' {
            let h = hex_run_exec(s.as_slice(), e2 + 1);
            if h > e2 + 1 && h < s.len() && s[h] == ' ' {
                e2 = h + 1;
            } else if e2 + 1 < s.len() && s[e2 + 1] != '\n' {
                e2 = e2 + 2;
            } else {
                break;
            }
        } else if e2 < s.len() && (word_char(s[e2]) || s[e2] == '-') {
            e2 = e2 + 1;
        } else {
            break;
        }
    }
    if e2 <= 1 {
        return Err(CosmeticFilterError::InvalidCssSelector);
    }
    let esc = sub_chars(s.as_slice(), 0, e2);
    match unescape_exec(esc.as_slice()) {
        Ok(k) => Ok(chars_to_string_all(k.as_slice())),
        Err(e) => Err(e),
    }
}

// ---------------------------------------------------------------------------------------------
// Parsing
// ---------------------------------------------------------------------------------------------

/// Position of the first `#`, whether it is followed by `@`, and where the selector starts.
pub open spec fn spec_header(line: Seq<char>) -> Option<(int, bool, int)> {
    match spec_index_of(line, '#') {
        None => None,
        Some(sharp) => {
            let unhide = sharp + 1 < line.len() && line[sharp + 1] == '@';
            Some((sharp, unhide, if unhide { sharp + 3 } else { sharp + 2 }))
        },
    }
}

/// The selector part of a rule starts within the rule (the rule does not end right after its
/// first `#` or `#@`).
pub open spec fn cosmetic_bounds_ok(line: Seq<char>) -> bool {
    match spec_header(line) {
        Some((_, _, suffix)) => suffix <= line.len(),
        None => true,
    }
}

/// Pseudo-classes and procedural operators that are not supported after a `:`.
#[verifier::opaque]
pub open spec fn unsupported_after_colon(c: Seq<char>) -> bool {
    ||| seq_starts_with(c, "-abp-"@)
    ||| seq_starts_with(c, "contains"@)
    ||| seq_starts_with(c, "has"@)
    ||| seq_starts_with(c, "if"@)
    ||| seq_starts_with(c, "if-not"@)
    ||| seq_starts_with(c, "matches-css"@)
    ||| seq_starts_with(c, "matches-css-after"@)
    ||| seq_starts_with(c, "matches-css-before"@)
    ||| seq_starts_with(c, "properties"@)
    ||| seq_starts_with(c, "subject"@)
    ||| seq_starts_with(c, "xpath"@)
    ||| seq_starts_with(c, "nth-ancestor"@)
    ||| seq_starts_with(c, "upward"@)
    ||| seq_starts_with(c, "remove"@)
}

/// A `:style(...)` specifier: `(` right after `style`, ASCII throughout, `)` last. The closing
/// `)` is looked for at the character whose index is the specifier's length in bytes minus one;
/// that character exists only when every character takes one byte, so a specifier with any
/// non-ASCII character is refused as invalid.
pub open spec fn valid_style_call(c: Seq<char>) -> bool {
    c.len() > 5 && c[5] == '(' && spec_is_ascii(c) && c[c.len() - 1] == ')'
}

/// Scans the `:` of `line` from `i` on: a `:style(...)` sets the style and ends the selector at
/// its `:`; unsupported syntax is refused. Returns the end of the selector and the style.
pub open spec fn scan_colons(line: Seq<char>, i: int, sel_end: int, style: Option<Seq<char>>) -> Result<
    (int, Option<Seq<char>>),
    CosmeticFilterError,
>
    decreases line.len() - i,
{
    if i < 0 || i > line.len() {
        Ok((sel_end, style))
    } else {
        match spec_index_of(line.subrange(i, line.len() as int), ':') {
            None => Ok((sel_end, style)),
            Some(k) => {
                proof {
                    crate::utils::lemma_index_of(line.subrange(i, line.len() as int), ':');
                }
                let colon = i + k;
                let content = line.subrange(colon + 1, line.len() as int);
                if seq_starts_with(content, "style"@) {
                    if valid_style_call(content) {
                        scan_colons(
                            line,
                            colon + 1,
                            colon,
                            Some(content.subrange(6, content.len() - 1)),
                        )
                    } else {
                        Err(CosmeticFilterError::InvalidStyleSpecifier)
                    }
                } else if unsupported_after_colon(content) {
                    Err(CosmeticFilterError::UnsupportedSyntax)
                } else {
                    scan_colons(line, colon + 1, sel_end, style)
                }
            },
        }
    }
}

/// Whether the selector part from `suffix` is a script injection `+js(...)`.
pub open spec fn is_script_part(line: Seq<char>, suffix: int) -> bool {
    let tail = line.subrange(suffix, line.len() as int);
    tail.len() > 4 && seq_starts_with(tail, "+js("@) && line.len() > 0 && line[line.len() - 1]
        == ')'
}

/// Selector and style of the part from `suffix` (the script arguments for an injection).
pub open spec fn spec_selector_part(line: Seq<char>, sharp: int, suffix: int) -> Result<
    (bool, Seq<char>, Option<Seq<char>>),
    CosmeticFilterError,
> {
    let tail = line.subrange(suffix, line.len() as int);
    if crate::utils::spec_trim(tail).len() == 0 {
        Err(CosmeticFilterError::EmptyRule)
    } else if is_script_part(line, suffix) {
        if sharp == 0 {
            Err(CosmeticFilterError::GenericScriptInject)
        } else {
            Ok((true, line.subrange(suffix + 4, line.len() - 1), None))
        }
    } else {
        match scan_colons(line, suffix, line.len() as int, None) {
            Err(e) => Err(e),
            Ok((end, style)) => if style is Some && sharp == 0 {
                Err(CosmeticFilterError::GenericStyle)
            } else {
                Ok((false, line.subrange(suffix, end), style))
            },
        }
    }
}

/// Key of a selector (its first class or id without the sigil) and the mask bits it sets.
pub open spec fn spec_key_part(selector: Seq<char>, script: bool) -> Result<(Option<Seq<char>>, u8), CosmeticFilterError> {
    if script || !starts_with_key_sigil(selector) {
        Ok((None, 0))
    } else {
        match spec_key_from_selector(selector) {
            Err(e) => Err(e),
            Ok(k) => {
                let kind = if selector[0] == '.' {
                    IS_CLASS_SELECTOR
                } else {
                    IS_ID_SELECTOR
                };
                let simple = if k == selector {
                    IS_SIMPLE
                } else {
                    0
                };
                Ok((Some(k.subrange(1, k.len() as int)), kind | simple))
            },
        }
    }
}

/// A parsed cosmetic rule before its hash lists are sorted.
pub ghost struct CosmeticParse {
    pub entities: Seq<u64>,
    pub hostnames: Seq<u64>,
    pub not_entities: Seq<u64>,
    pub not_hostnames: Seq<u64>,
    pub mask: u8,
    pub raw_line: Option<Seq<char>>,
    pub selector: Seq<char>,
    pub key: Option<Seq<char>>,
    pub style: Option<Seq<char>>,
}

/// What parsing a cosmetic rule gives.
pub open spec fn spec_cosmetic_parse(line: Seq<char>, debug: bool) -> Result<CosmeticParse, CosmeticFilterError> {
    match spec_header(line) {
        None => Err(CosmeticFilterError::MissingSharp),
        Some((sharp, unhide, suffix)) => if unhide && sharp == 0 {
            Err(CosmeticFilterError::GenericUnhide)
        } else {
            let locs = if sharp > 0 {
                spec_locations_before_sharp(line, sharp)
            } else {
                Seq::empty()
            };
            let n = locs.len() as int;
            match (
                location_hashes(locs, CosmeticFilterLocationType::Entity, n),
                location_hashes(locs, CosmeticFilterLocationType::Hostname, n),
                location_hashes(locs, CosmeticFilterLocationType::NotEntity, n),
                location_hashes(locs, CosmeticFilterLocationType::NotHostname, n),
            ) {
                (Some(ents), Some(hosts), Some(not_ents), Some(not_hosts)) => {
                    let mask0: u8 = (if unhide {
                        UNHIDE
                    } else {
                        0u8
                    }) | (if any_unicode_location(locs, n) {
                        IS_UNICODE
                    } else {
                        0u8
                    });
                    match spec_selector_part(line, sharp, suffix) {
                        Err(e) => Err(e),
                        Ok((script, selector, style)) => if (not_ents.len() > 0
                            || not_hosts.len() > 0) && unhide {
                            Err(CosmeticFilterError::DoubleNegation)
                        } else {
                            let mask1: u8 = mask0 | (if script {
                                SCRIPT_INJECT
                            } else {
                                0u8
                            }) | (if !spec_is_ascii(selector) {
                                IS_UNICODE
                            } else {
                                0u8
                            });
                            match spec_key_part(selector, script) {
                                Err(e) => Err(e),
                                Ok((key, bits)) => Ok(
                                    CosmeticParse {
                                        entities: ents,
                                        hostnames: hosts,
                                        not_entities: not_ents,
                                        not_hostnames: not_hosts,
                                        mask: mask1 | bits,
                                        raw_line: if debug {
                                            Some(line)
                                        } else {
                                            None
                                        },
                                        selector,
                                        key,
                                        style,
                                    },
                                ),
                            }
                        },
                    }
                },
                _ => Err(CosmeticFilterError::PunycodeError),
            }
        },
    }
}

/// A filter holds a parse result, its hash lists sorted (and `None` when empty).
pub open spec fn realizes_cosmetic(f: CosmeticFilterView, m: CosmeticParse) -> bool {
    &&& sorted_or_none_of(f.entities, m.entities)
    &&& sorted_or_none_of(f.hostnames, m.hostnames)
    &&& sorted_or_none_of(f.not_entities, m.not_entities)
    &&& sorted_or_none_of(f.not_hostnames, m.not_hostnames)
    &&& f.mask == m.mask
    &&& f.raw_line == m.raw_line
    &&& f.selector == m.selector
    &&& f.key == m.key
    &&& f.style == m.style
}

proof fn lemma_sorted_or_none_unique(a: Option<Seq<u64>>, b: Option<Seq<u64>>, s: Seq<u64>)
    requires
        sorted_or_none_of(a, s),
        sorted_or_none_of(b, s),
    ensures
        a == b,
{
    if s.len() > 0 {
        crate::filters::network::lemma_sorted_version_unique(a->0, b->0, s);
    }
}

/// A cosmetic parse result is realized by one filter view only.
pub proof fn lemma_realizes_cosmetic_unique(f1: CosmeticFilterView, f2: CosmeticFilterView, m: CosmeticParse)
    requires
        realizes_cosmetic(f1, m),
        realizes_cosmetic(f2, m),
    ensures
        f1 == f2,
{
    lemma_sorted_or_none_unique(f1.entities, f2.entities, m.entities);
    lemma_sorted_or_none_unique(f1.hostnames, f2.hostnames, m.hostnames);
    lemma_sorted_or_none_unique(f1.not_entities, f2.not_entities, m.not_entities);
    lemma_sorted_or_none_unique(f1.not_hostnames, f2.not_hostnames, m.not_hostnames);
}

proof fn lemma_location_hashes_none(
    locs: Seq<(CosmeticFilterLocationType, Seq<char>)>,
    k1: CosmeticFilterLocationType,
    k2: CosmeticFilterLocationType,
    n: int,
)
    ensures
        (location_hashes(locs, k1, n) is None) == (location_hashes(locs, k2, n) is None),
    decreases n,
{
    if n > 0 {
        lemma_location_hashes_none(locs, k1, k2, n - 1);
    }
}

/// Hashes of the locations before the `#`, by kind, and whether one of them is not ASCII.
fn parse_before_sharp(line: &str, sharp_index: usize) -> (r: Result<
    (Vec<u64>, Vec<u64>, Vec<u64>, Vec<u64>, bool),
    CosmeticFilterError,
>)
    requires
        sharp_index <= line@.len(),
    ensures
        ({
            let locs = spec_locations_before_sharp(line@, sharp_index as int);
            let n = locs.len() as int;
            match r {
                Ok((e, h, ne, nh, u)) => location_hashes(locs, CosmeticFilterLocationType::Entity, n)
                    == Some(e@) && location_hashes(locs, CosmeticFilterLocationType::Hostname, n)
                    == Some(h@) && location_hashes(locs, CosmeticFilterLocationType::NotEntity, n)
                    == Some(ne@) && location_hashes(locs, CosmeticFilterLocationType::NotHostname, n)
                    == Some(nh@) && u == any_unicode_location(locs, n),
                Err(err) => err == CosmeticFilterError::PunycodeError && location_hashes(
                    locs,
                    CosmeticFilterLocationType::Entity,
                    n,
                ) is None && location_hashes(locs, CosmeticFilterLocationType::Hostname, n) is None
                    && location_hashes(locs, CosmeticFilterLocationType::NotEntity, n) is None
                    && location_hashes(locs, CosmeticFilterLocationType::NotHostname, n) is None,
            }
        }),
{
    let locs = CosmeticFilter::locations_before_sharp(line, sharp_index);
    let ghost sl = spec_locations_before_sharp(line@, sharp_index as int);
    let mut e: Vec<u64> = Vec::new();
    let mut h: Vec<u64> = Vec::new();
    let mut ne: Vec<u64> = Vec::new();
    let mut nh: Vec<u64> = Vec::new();
    let mut unicode = false;
    let mut i: usize = 0;
    while i < locs.len()
        invariant
            i <= locs@.len(),
            sl == spec_locations_before_sharp(line@, sharp_index as int),
            locs@.len() == sl.len(),
            forall|k: int| 0 <= k < locs@.len() ==> (#[trigger] locs@[k]).0 == sl[k].0 && locs@[k].1@ == sl[k].1,
            location_hashes(sl, CosmeticFilterLocationType::Entity, i as int) == Some(e@),
            location_hashes(sl, CosmeticFilterLocationType::Hostname, i as int) == Some(h@),
            location_hashes(sl, CosmeticFilterLocationType::NotEntity, i as int) == Some(ne@),
            location_hashes(sl, CosmeticFilterLocationType::NotHostname, i as int) == Some(nh@),
            unicode == any_unicode_location(sl, i as int),
        decreases locs.len() - i,
    {
        let (kind, loc) = (locs[i].0, &locs[i].1);
        let lv = str_to_chars(loc.as_str());
        proof {
            assert(locs@[i as int].0 == sl[i as int].0);
            assert(lv@ == sl[i as int].1);
        }
        let ascii = chars_is_ascii(lv.as_slice());
        let host: Vec<char> = if ascii {
            lv
        } else {
            match domain_to_ascii_chars(lv.as_slice()) {
                Some(x) => x,
                None => {
                    proof {
                        lemma_location_hashes_none(sl, CosmeticFilterLocationType::Entity, CosmeticFilterLocationType::Hostname, sl.len() as int);
                        lemma_location_hashes_none(sl, CosmeticFilterLocationType::Entity, CosmeticFilterLocationType::NotEntity, sl.len() as int);
                        lemma_location_hashes_none(sl, CosmeticFilterLocationType::Entity, CosmeticFilterLocationType::NotHostname, sl.len() as int);
                        lemma_location_hashes_none_after(sl, CosmeticFilterLocationType::Entity, i as int + 1, sl.len() as int);
                    }
                    return Err(CosmeticFilterError::PunycodeError);
                },
            }
        };
        let hash = hash_chars(host.as_slice());
        match kind {
            CosmeticFilterLocationType::Entity => e.push(hash),
            CosmeticFilterLocationType::Hostname => h.push(hash),
            CosmeticFilterLocationType::NotEntity => ne.push(hash),
            CosmeticFilterLocationType::NotHostname => nh.push(hash),
        }
        let ghost prev_unicode = unicode;
        if !ascii {
            unicode = true;
        }
        i += 1;
        proof {
            assert forall|k: int| 0 <= k < i && k < sl.len() && !spec_is_ascii(#[trigger] sl[k].1) implies any_unicode_location(sl, i as int) by {}
            if any_unicode_location(sl, i as int) && !prev_unicode {
                let k = choose|k: int| 0 <= k < i && k < sl.len() && !spec_is_ascii(#[trigger] sl[k].1);
                if k < i - 1 {
                    assert(any_unicode_location(sl, i - 1));
                }
            }
            if prev_unicode {
                let k = choose|k: int| 0 <= k < i - 1 && k < sl.len() && !spec_is_ascii(#[trigger] sl[k].1);
                assert(any_unicode_location(sl, i as int));
            }
            if !ascii {
                assert(!spec_is_ascii(sl[i - 1].1));
                assert(any_unicode_location(sl, i as int));
            }
        }
    }
    Ok((e, h, ne, nh, unicode))
}

proof fn lemma_location_hashes_none_after(
    locs: Seq<(CosmeticFilterLocationType, Seq<char>)>,
    k: CosmeticFilterLocationType,
    m: int,
    n: int,
)
    requires
        0 < m <= n,
        location_host(locs[m - 1].1) is None,
    ensures
        location_hashes(locs, k, n) is None,
    decreases n - m,
{
    if n > m {
        lemma_location_hashes_none_after(locs, k, m, n - 1);
    }
}

fn starts_with_lit(s: &[char], lit: &str) -> (r: bool)
    ensures
        r == seq_starts_with(s@, lit@),
{
    let l = str_to_chars(lit);
    crate::utils::starts_with(s, l.as_slice())
}

fn unsupported_after_colon_exec(c: &[char]) -> (r: bool)
    ensures
        r == unsupported_after_colon(c@),
{
    reveal(unsupported_after_colon);
    starts_with_lit(c, "-abp-") || starts_with_lit(c, "contains") || starts_with_lit(c, "has")
        || starts_with_lit(c, "if") || starts_with_lit(c, "if-not") || starts_with_lit(
        c,
        "matches-css",
    ) || starts_with_lit(c, "matches-css-after") || starts_with_lit(c, "matches-css-before")
        || starts_with_lit(c, "properties") || starts_with_lit(c, "subject") || starts_with_lit(
        c,
        "xpath",
    ) || starts_with_lit(c, "nth-ancestor") || starts_with_lit(c, "upward") || starts_with_lit(
        c,
        "remove",
    )
}

#[verifier::spinoff_prover]
#[verifier::rlimit(40)]
fn scan_colons_exec(line: &[char], suffix: usize) -> (r: Result<(usize, Option<Vec<char>>), CosmeticFilterError>)
    requires
        suffix <= line@.len(),
    ensures
        match r {
            Ok((e, st)) => scan_colons(line@, suffix as int, line@.len() as int, None) == Ok::<
                (int, Option<Seq<char>>),
                CosmeticFilterError,
            >((e as int, st.deep_view())),
            Err(x) => scan_colons(line@, suffix as int, line@.len() as int, None) == Err::<
                (int, Option<Seq<char>>),
                CosmeticFilterError,
            >(x),
        },
{
    let mut i = suffix;
    let mut sel_end = line.len();
    let mut style: Option<Vec<char>> = None;
    loop
        invariant
            i <= line@.len(),
            scan_colons(line@, suffix as int, line@.len() as int, None) == scan_colons(
                line@,
                i as int,
                sel_end as int,
                style.deep_view(),
            ),
        decreases line@.len() - i,
    {
        let rest = sub_chars(line, i, line.len());
        match crate::utils::index_of(rest.as_slice(), ':') {
            None => {
                return Ok((sel_end, style));
            },
            Some(k) => {
                let colon = i + k;
                let content = sub_chars(line, colon + 1, line.len());
                if starts_with_lit(content.as_slice(), "style") {
                    let n = content.len();
                    if n > 5 && content[5] == '(' && chars_is_ascii(content.as_slice())
                        && content[n - 1] == ')' {
                        let st = sub_chars(content.as_slice(), 6, n - 1);
                        proof {
                            assert(Some(st).deep_view() == Some(st@));
                        }
                        style = Some(st);
                        sel_end = colon;
                        i = colon + 1;
                    } else {
                        return Err(CosmeticFilterError::InvalidStyleSpecifier);
                    }
                } else if unsupported_after_colon_exec(content.as_slice()) {
                    return Err(CosmeticFilterError::UnsupportedSyntax);
                } else {
                    i = colon + 1;
                }
            },
        }
    }
}

fn selector_part(line: &[char], sharp: usize, suffix: usize) -> (r: Result<
    (bool, Vec<char>, Option<Vec<char>>),
    CosmeticFilterError,
>)
    requires
        suffix <= line@.len(),
    ensures
        match r {
            Ok((script, sel, st)) => spec_selector_part(line@, sharp as int, suffix as int) == Ok::<
                (bool, Seq<char>, Option<Seq<char>>),
                CosmeticFilterError,
            >((script, sel@, st.deep_view())),
            Err(x) => spec_selector_part(line@, sharp as int, suffix as int) == Err::<
                (bool, Seq<char>, Option<Seq<char>>),
                CosmeticFilterError,
            >(x),
        },
{
    let tail = sub_chars(line, suffix, line.len());
    let trimmed = crate::utils::trim_chars(tail.as_slice());
    if trimmed.len() == 0 {
        return Err(CosmeticFilterError::EmptyRule);
    }
    let n = line.len();
    if tail.len() > 4 && starts_with_lit(tail.as_slice(), "+js(") && n > 0 && line[n - 1] == ')' {
        if sharp == 0 {
            return Err(CosmeticFilterError::GenericScriptInject);
        }
        let sel = sub_chars(line, suffix + 4, n - 1);
        return Ok((true, sel, None));
    }
    match scan_colons_exec(line, suffix) {
        Err(e) => Err(e),
        Ok((end, style)) => {
            if style.is_some() && sharp == 0 {
                return Err(CosmeticFilterError::GenericStyle);
            }
            proof {
                lemma_scan_colons_end(line@, suffix as int, suffix as int, line@.len() as int, None);
            }
            let sel = sub_chars(line, suffix, end);
            Ok((false, sel, style))
        },
    }
}

proof fn lemma_scan_colons_end(line: Seq<char>, lo: int, i: int, sel_end: int, style: Option<Seq<char>>)
    requires
        0 <= lo <= i <= line.len(),
        lo <= sel_end <= line.len(),
    ensures
        scan_colons(line, i, sel_end, style) matches Ok((e, _)) ==> lo <= e <= line.len(),
    decreases line.len() - i,
{
    let rest = line.subrange(i, line.len() as int);
    crate::utils::lemma_index_of(rest, ':');
    match spec_index_of(rest, ':') {
        None => {},
        Some(k) => {
            let colon = i + k;
            let content = line.subrange(colon + 1, line.len() as int);
            if seq_starts_with(content, "style"@) {
                if valid_style_call(content) {
                    lemma_scan_colons_end(line, lo, colon + 1, colon, Some(content.subrange(6, content.len() - 1)));
                }
            } else if !unsupported_after_colon(content) {
                lemma_scan_colons_end(line, lo, colon + 1, sel_end, style);
            }
        },
    }
}

proof fn lemma_plain_run(s: Seq<char>, i: int)
    requires
        0 <= i <= s.len(),
    ensures
        i <= plain_run(s, i) <= s.len(),
    decreases s.len() - i,
{
    if i < s.len() && (is_word_char(s[i]) || s[i] == '\\' || s[i] == '-') {
        lemma_plain_run(s, i + 1);
    }
}

proof fn lemma_esc_run(s: Seq<char>, i: int)
    requires
        0 <= i <= s.len(),
    ensures
        i <= esc_run(s, i) <= s.len(),
    decreases s.len() - i,
{
    lemma_esc_token_end(s, i);
    match esc_token_end(s, i) {
        Some(j) => lemma_esc_run(s, j),
        None => {},
    }
}

fn header(lv: &[char]) -> (r: Option<(usize, bool, usize)>)
    requires
        cosmetic_bounds_ok(lv@),
    ensures
        match r {
            Some((a, b, c)) => spec_header(lv@) == Some((a as int, b, c as int)) && a < lv@.len(),
            None => spec_header(lv@) is None,
        },
{
    let n = lv.len();
    match crate::utils::index_of(lv, '#') {
        None => None,
        Some(sharp) => {
            assert(sharp < n);
            let unhide = sharp + 1 < n && lv[sharp + 1] == '@';
            let suffix = if unhide {
                sharp + 3
            } else {
                sharp + 2
            };
            Some((sharp, unhide, suffix))
        },
    }
}

fn key_part(selector: &Vec<char>, script: bool) -> (r: Result<(Option<String>, u8), CosmeticFilterError>)
    ensures
        match r {
            Ok((k, bits)) => spec_key_part(selector@, script) == Ok::<
                (Option<Seq<char>>, u8),
                CosmeticFilterError,
            >((k.deep_view(), bits)),
            Err(x) => spec_key_part(selector@, script) == Err::<
                (Option<Seq<char>>, u8),
                CosmeticFilterError,
            >(x),
        },
{
    if script || !(selector.len() > 0 && (selector[0] == '.' || selector[0] == '#')) {
        return Ok((None, 0));
    }
    let sel = chars_to_string_all(selector.as_slice());
    match key_from_selector(sel.as_str()) {
        Err(e) => Err(e),
        Ok(k) => {
            let kv = str_to_chars(k.as_str());
            proof {
                lemma_key_nonempty(selector@);
            }
            let kind: u8 = if selector[0] == '.' {
                IS_CLASS_SELECTOR
            } else {
                IS_ID_SELECTOR
            };
            let simple: u8 = if crate::utils::chars_eq(kv.as_slice(), selector.as_slice()) {
                IS_SIMPLE
            } else {
                0
            };
            let key = chars_to_string(kv.as_slice(), 1, kv.len());
            Ok((Some(key), kind | simple))
        },
    }
}

proof fn lemma_key_nonempty(s: Seq<char>)
    requires
        starts_with_key_sigil(s),
    ensures
        spec_key_from_selector(s) matches Ok(k) ==> k.len() >= 1,
{
    lemma_plain_run(s, 1);
    lemma_esc_run(s, 1);
    let e2 = esc_run(s, 1);
    if e2 > 1 {
        let t = s.subrange(0, e2);
        assert(t[0] == s[0]);
        assert(t[0] != '\\');
    }
}

impl CosmeticFilter {
    /// Parses a cosmetic rule; with `debug` the rule itself is kept in `raw_line`.
    #[verifier::spinoff_prover]
    #[verifier::rlimit(80)]
    pub fn parse(line: &str, debug: bool) -> (r: Result<CosmeticFilter, CosmeticFilterError>)
        requires
            cosmetic_bounds_ok(line@),
        ensures
            match r {
                Ok(f) => spec_cosmetic_parse(line@, debug) matches Ok(m) && realizes_cosmetic(f@, m),
                Err(e) => spec_cosmetic_parse(line@, debug) == Err::<CosmeticParse, CosmeticFilterError>(e),
            },
    {
        let lv = str_to_chars(line);
        let (sharp, unhide, suffix) = match header(lv.as_slice()) {
            None => {
                return Err(CosmeticFilterError::MissingSharp);
            },
            Some(x) => x,
        };
        if unhide && sharp == 0 {
            return Err(CosmeticFilterError::GenericUnhide);
        }
        let (e, h, ne, nh, uni) = if sharp > 0 {
            match parse_before_sharp(line, sharp) {
                Ok(x) => x,
                Err(err) => {
                    return Err(err);
                },
            }
        } else {
            let r = (Vec::new(), Vec::new(), Vec::new(), Vec::new(), false);
            proof {
                let z: Seq<(CosmeticFilterLocationType, Seq<char>)> = Seq::empty();
                assert(location_hashes(z, CosmeticFilterLocationType::Entity, 0) == Some(r.0@));
                assert(location_hashes(z, CosmeticFilterLocationType::Hostname, 0) == Some(r.1@));
                assert(location_hashes(z, CosmeticFilterLocationType::NotEntity, 0) == Some(r.2@));
                assert(location_hashes(z, CosmeticFilterLocationType::NotHostname, 0) == Some(r.3@));
                assert(!any_unicode_location(z, 0));
            }
            r
        };
        let mask0: u8 = (if unhide {
            UNHIDE
        } else {
            0u8
        }) | (if uni {
            IS_UNICODE
        } else {
            0u8
        });
        let (script, selector, style) = match selector_part(lv.as_slice(), sharp, suffix) {
            Ok(x) => x,
            Err(err) => {
                return Err(err);
            },
        };
        if (ne.len() > 0 || nh.len() > 0) && unhide {
            return Err(CosmeticFilterError::DoubleNegation);
        }
        let mask1: u8 = mask0 | (if script {
            SCRIPT_INJECT
        } else {
            0u8
        }) | (if !chars_is_ascii(selector.as_slice()) {
            IS_UNICODE
        } else {
            0u8
        });
        let (key, bits) = match key_part(&selector, script) {
            Ok(x) => x,
            Err(err) => {
                return Err(err);
            },
        };
        let raw_line = if debug {
            Some(line.to_owned())
        } else {
            None
        };
        let ghost locs = if sharp > 0 {
            spec_locations_before_sharp(line@, sharp as int)
        } else {
            Seq::empty()
        };
        proof {
            assert(spec_header(line@) == Some((sharp as int, unhide, suffix as int)));
            let n = locs.len() as int;
            assert(location_hashes(locs, CosmeticFilterLocationType::Entity, n) == Some(e@));
            assert(location_hashes(locs, CosmeticFilterLocationType::Hostname, n) == Some(h@));
            assert(location_hashes(locs, CosmeticFilterLocationType::NotEntity, n) == Some(ne@));
            assert(location_hashes(locs, CosmeticFilterLocationType::NotHostname, n) == Some(nh@));
            assert(uni == any_unicode_location(locs, n));
        }
        let f = CosmeticFilter {
            entities: sorted_or_none(e),
            hostnames: sorted_or_none(h),
            mask: CosmeticFilterMask { bits: mask1 | bits },
            not_entities: sorted_or_none(ne),
            not_hostnames: sorted_or_none(nh),
            raw_line,
            selector: chars_to_string_all(selector.as_slice()),
            key,
            style: match style {
                Some(st) => Some(chars_to_string_all(st.as_slice())),
                None => None,
            },
        };
        proof {
            let m = CosmeticParse {
                entities: e@,
                hostnames: h@,
                not_entities: ne@,
                not_hostnames: nh@,
                mask: mask1 | bits,
                raw_line: if debug { Some(line@) } else { None },
                selector: selector@,
                key: key.deep_view(),
                style: style.deep_view(),
            };
            assert(spec_selector_part(line@, sharp as int, suffix as int) == Ok::<(bool, Seq<char>, Option<Seq<char>>), CosmeticFilterError>((script, selector@, style.deep_view())));
            assert(spec_key_part(selector@, script) == Ok::<(Option<Seq<char>>, u8), CosmeticFilterError>((key.deep_view(), bits)));
            assert(spec_cosmetic_parse(line@, debug) == Ok::<CosmeticParse, CosmeticFilterError>(m));
            assert(sorted_or_none_of(f@.entities, m.entities));
            assert(sorted_or_none_of(f@.not_hostnames, m.not_hostnames));
            assert(f@.mask == m.mask);
            assert(f@.raw_line == m.raw_line);
            assert(f@.selector == m.selector);
            assert(f@.key == m.key);
            assert(f@.style == m.style);
            assert(realizes_cosmetic(f@, m));
        }
        Ok(f)
    }

    /// Whether the rule names hostnames or entities (negated or not).
    pub fn has_hostname_constraint(&self) -> (r: bool)
        ensures
            r == (self.hostnames is Some || self.entities is Some || self.not_entities is Some
                || self.not_hostnames is Some),
    {
        self.hostnames.is_some() || self.entities.is_some() || self.not_entities.is_some()
            || self.not_hostnames.is_some()
    }

    /// For a hiding rule that only names negated hostnames or entities, the same rule without
    /// them, which applies everywhere else; `None` for other rules (positive locations, a
    /// style, a script injection, or no location at all).
    pub fn hidden_generic_rule(&self) -> (r: Option<CosmeticFilter>)
        ensures
            match r {
                Some(g) => self.hostnames is None && self.entities is None && (self.not_hostnames is Some
                    || self.not_entities is Some) && self.style is None && self.mask.bits & SCRIPT_INJECT
                    != SCRIPT_INJECT && g@ == (CosmeticFilterView {
                    not_hostnames: None,
                    not_entities: None,
                    ..self@
                }),
                None => !(self.hostnames is None && self.entities is None && (self.not_hostnames is Some
                    || self.not_entities is Some) && self.style is None && self.mask.bits & SCRIPT_INJECT
                    != SCRIPT_INJECT),
            },
    {
        if self.hostnames.is_some() || self.entities.is_some() {
            None
        } else if (self.not_hostnames.is_some() || self.not_entities.is_some()) && (self.style.is_none()
            && !self.mask.contains(SCRIPT_INJECT)) {
            let mut g = self.clone();
            g.not_hostnames = None;
            g.not_entities = None;
            Some(g)
        } else {
            None
        }
    }
}

} // verus!
