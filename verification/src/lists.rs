//! Parsing of single filter rules and of whole filter lists.

use vstd::prelude::*;

use crate::filters::cosmetic::{
    cosmetic_bounds_ok, realizes_cosmetic, spec_cosmetic_parse, CosmeticFilter,
    CosmeticFilterError, CosmeticFilterView,
};
use crate::filters::network::{
    realizes, spec_hosts_style_rule, spec_network_filter_parse, NetworkFilter, NetworkFilterError,
    NetworkFilterView,
};
use crate::utils::{is_ws, seq_contains_sub, seq_starts_with, spec_index_of, spec_trim, str_to_chars};

verus! {

/// Rule types to keep while parsing.
#[derive(Clone, Copy, Debug, PartialEq, Eq, Structural)]
pub enum RuleTypes {
    All,
    NetworkOnly,
    CosmeticOnly,
}

impl Default for RuleTypes {
    fn default() -> (r: Self)
        ensures
            r == RuleTypes::All,
    {
        RuleTypes::All
    }
}

impl RuleTypes {
    /// Whether network rules are kept.
    pub fn loads_network_rules(&self) -> (r: bool)
        ensures
            r == !(*self is CosmeticOnly),
    {
        match self {
            RuleTypes::All => true,
            RuleTypes::NetworkOnly => true,
            _ => false,
        }
    }

    /// Whether cosmetic rules are kept.
    pub fn loads_cosmetic_rules(&self) -> (r: bool)
        ensures
            r == !(*self is NetworkOnly),
    {
        match self {
            RuleTypes::All => true,
            RuleTypes::CosmeticOnly => true,
            _ => false,
        }
    }
}

/// Format of a filter list.
#[derive(Clone, Copy, Debug, PartialEq, Eq, Structural)]
pub enum FilterFormat {
    /// Rules in ABP/uBO-style format.
    Standard,
    /// Hosts-file lines: an optional IP address followed by one hostname; `!` starts a comment
    /// line and `#` a comment anywhere.
    Hosts,
}

impl Default for FilterFormat {
    fn default() -> (r: Self)
        ensures
            r == FilterFormat::Standard,
    {
        FilterFormat::Standard
    }
}

/// Options for interpreting filter rules while parsing.
#[derive(Clone, Copy, Debug, PartialEq, Eq, Structural)]
pub struct ParseOptions {
    pub format: FilterFormat,
    pub include_redirect_urls: bool,
    pub rule_types: RuleTypes,
}

impl Default for ParseOptions {
    fn default() -> (r: Self)
        ensures
            r == (ParseOptions {
                format: FilterFormat::Standard,
                include_redirect_urls: false,
                rule_types: RuleTypes::All,
            }),
    {
        ParseOptions {
            format: FilterFormat::Standard,
            include_redirect_urls: false,
            rule_types: RuleTypes::All,
        }
    }
}

/// What kind of rule a line looks like.
#[derive(Clone, Copy, Debug, PartialEq, Eq, Structural)]
pub enum FilterType {
    Network,
    Cosmetic,
    NotSupported,
}

/// A successfully parsed rule.
#[derive(Debug)]
pub enum ParsedFilter {
    Network(NetworkFilter),
    Cosmetic(CosmeticFilter),
}

/// Why a rule was not parsed.
#[derive(Clone, Copy, Debug, PartialEq, Eq, Structural)]
pub enum FilterParseError {
    Network(NetworkFilterError),
    Cosmetic(CosmeticFilterError),
    Unsupported,
    Empty,
}

/// Whether `f` has a whitespace character at index 1.
pub open spec fn ws_at_1(f: Seq<char>) -> bool {
    f.len() >= 2 && is_ws(f[1])
}

/// What kind of rule a (trimmed) line looks like: comments, headers and one-byte lines are not
/// supported; `|` and `@@|` start network rules; `$$` and the AdGuard cosmetic separators are
/// not supported; `##` and `#@#` are cosmetic; anything else is a network rule.
pub open spec fn spec_detect_filter_type(f: Seq<char>) -> FilterType {
    if (f.len() == 1 && (f[0] as u32) < 128) || seq_starts_with(f, "!"@) || (seq_starts_with(
        f,
        "#"@,
    ) && ws_at_1(f)) || seq_starts_with(f, "[Adblock"@) {
        FilterType::NotSupported
    } else if seq_starts_with(f, "|"@) || seq_starts_with(f, "@@|"@) {
        FilterType::Network
    } else if seq_contains_sub(f, "$$"@) {
        FilterType::NotSupported
    } else {
        match spec_index_of(f, '#') {
            Some(sharp) => {
                let rest = f.subrange(sharp + 1, f.len() as int);
                if seq_starts_with(rest, "@$#"@) || seq_starts_with(rest, "@%#"@)
                    || seq_starts_with(rest, "%#"@) || seq_starts_with(rest, "$#"@)
                    || seq_starts_with(rest, "?#"@) {
                    FilterType::NotSupported
                } else if seq_starts_with(rest, "#"@) || seq_starts_with(rest, "@#"@) {
                    FilterType::Cosmetic
                } else {
                    FilterType::Network
                }
            },
            None => FilterType::Network,
        }
    }
}

fn lit_prefix(s: &[char], lit: &str) -> (r: bool)
    ensures
        r == seq_starts_with(s@, lit@),
{
    let l = str_to_chars(lit);
    crate::utils::starts_with(s, l.as_slice())
}

/// What kind of rule a (trimmed) line looks like.
pub fn detect_filter_type(filter: &[char]) -> (r: FilterType)
    ensures
        r == spec_detect_filter_type(filter@),
{
    if (filter.len() == 1 && (filter[0] as u32) < 128) || lit_prefix(filter, "!") || (lit_prefix(
        filter,
        "#",
    ) && filter.len() >= 2 && crate::utils::is_whitespace(filter[1])) || lit_prefix(
        filter,
        "[Adblock",
    ) {
        return FilterType::NotSupported;
    }
    if lit_prefix(filter, "|") || lit_prefix(filter, "@@|") {
        return FilterType::Network;
    }
    let dd = str_to_chars("$$");
    if crate::utils::contains_sub(filter, dd.as_slice()) {
        return FilterType::NotSupported;
    }
    match crate::utils::index_of(filter, '#') {
        Some(sharp) => {
            let rest = crate::utils::sub_chars(filter, sharp + 1, filter.len());
            let r = rest.as_slice();
            if lit_prefix(r, "@$#") || lit_prefix(r, "@%#") || lit_prefix(r, "%#") || lit_prefix(
                r,
                "$#",
            ) || lit_prefix(r, "?#") {
                FilterType::NotSupported
            } else if lit_prefix(r, "#") || lit_prefix(r, "@#") {
                FilterType::Cosmetic
            } else {
                FilterType::Network
            }
        },
        None => FilterType::Network,
    }
}

/// State after the first `n` characters of `s` split at white space: the words done and the
/// start of the word being read, if any.
pub open spec fn words_state(s: Seq<char>, n: int) -> (Seq<Seq<char>>, Option<int>)
    decreases n,
{
    if n <= 0 {
        (Seq::empty(), None)
    } else {
        let (done, cur) = words_state(s, n - 1);
        if is_ws(s[n - 1]) {
            match cur {
                Some(st) => (done.push(s.subrange(st, n - 1)), None),
                None => (done, None),
            }
        } else {
            match cur {
                Some(st) => (done, Some(st)),
                None => (done, Some(n - 1)),
            }
        }
    }
}

/// The words of `s`: its maximal runs of characters that are not white space
/// (`str::split_whitespace`).
pub open spec fn spec_words(s: Seq<char>) -> Seq<Seq<char>> {
    let (done, cur) = words_state(s, s.len() as int);
    match cur {
        Some(st) => done.push(s.subrange(st, s.len() as int)),
        None => done,
    }
}

proof fn lemma_words_state(s: Seq<char>, n: int)
    requires
        0 <= n <= s.len(),
    ensures
        words_state(s, n).1 matches Some(st) ==> 0 <= st < n,
    decreases n,
{
    if n > 0 {
        lemma_words_state(s, n - 1);
    }
}

/// The words of `s`.
pub fn split_whitespace(s: &[char]) -> (r: Vec<Vec<char>>)
    ensures
        r.deep_view() == spec_words(s@),
{
    let mut done: Vec<Vec<char>> = Vec::new();
    let mut cur: Option<usize> = None;
    let mut i: usize = 0;
    while i < s.len()
        invariant
            i <= s@.len(),
            done.deep_view() == words_state(s@, i as int).0,
            cur == match words_state(s@, i as int).1 {
                Some(st) => Some(st as usize),
                None => None::<usize>,
            },
            words_state(s@, i as int).1 matches Some(st) ==> 0 <= st < i,
        decreases s.len() - i,
    {
        proof {
            lemma_words_state(s@, i as int);
        }
        if crate::utils::is_whitespace(s[i]) {
            match cur {
                Some(st) => {
                    let w = crate::utils::sub_chars(s, st, i);
                    let ghost before = done.deep_view();
                    proof {
                        assert(w.deep_view() =~= w@);
                    }
                    done.push(w);
                    proof {
                        assert(done.deep_view() =~= before.push(w@));
                    }
                    cur = None;
                },
                None => {},
            }
        } else {
            match cur {
                Some(_) => {},
                None => {
                    cur = Some(i);
                },
            }
        }
        i += 1;
    }
    match cur {
        Some(st) => {
            let w = crate::utils::sub_chars(s, st, s.len());
            let ghost before = done.deep_view();
            proof {
                assert(w.deep_view() =~= w@);
            }
            done.push(w);
            proof {
                assert(done.deep_view() =~= before.push(w@));
            }
        },
        None => {},
    }
    done
}

/// Where a line goes once its format and rule types are taken into account: which parser gets
/// which text, or the error.
pub enum ParseRoute {
    Network(Seq<char>),
    Cosmetic(Seq<char>),
    Hosts(Seq<char>),
    Fail(FilterParseError),
}

/// The hostname of a hosts-file line (already trimmed and non-empty), or why there is none.
pub open spec fn spec_hosts_line(f: Seq<char>) -> Result<Seq<char>, FilterParseError> {
    if seq_starts_with(f, "!"@) {
        Err(FilterParseError::Unsupported)
    } else {
        let g = strip_comment(f);
        if g.len() == 0 {
            Err(FilterParseError::Unsupported)
        } else {
            match host_of_words(spec_words(g)) {
                None => Err(FilterParseError::Unsupported),
                Some(h) => if h == "localhost"@ {
                    Err(FilterParseError::Unsupported)
                } else {
                    Ok(h)
                },
            }
        }
    }
}

/// Where a line goes.
pub open spec fn spec_route(line: Seq<char>, opts: ParseOptions) -> ParseRoute {
    let f = spec_trim(line);
    if f.len() == 0 {
        ParseRoute::Fail(FilterParseError::Empty)
    } else {
        match opts.format {
            FilterFormat::Standard => match spec_detect_filter_type(f) {
                FilterType::Network => if opts.rule_types is CosmeticOnly {
                    ParseRoute::Fail(FilterParseError::Unsupported)
                } else {
                    ParseRoute::Network(f)
                },
                FilterType::Cosmetic => if opts.rule_types is NetworkOnly {
                    ParseRoute::Fail(FilterParseError::Unsupported)
                } else {
                    ParseRoute::Cosmetic(f)
                },
                FilterType::NotSupported => ParseRoute::Fail(FilterParseError::Unsupported),
            },
            FilterFormat::Hosts => if opts.rule_types is CosmeticOnly {
                ParseRoute::Fail(FilterParseError::Unsupported)
            } else {
                match spec_hosts_line(f) {
                    Ok(h) => ParseRoute::Hosts(h),
                    Err(e) => ParseRoute::Fail(e),
                }
            },
        }
    }
}

/// The result of parsing a line agrees with its route.
pub open spec fn parse_result_ok(route: ParseRoute, debug: bool, r: Result<ParsedFilter, FilterParseError>) -> bool {
    match route {
        ParseRoute::Fail(e) => r == Err::<ParsedFilter, FilterParseError>(e),
        ParseRoute::Network(f) => match r {
            Ok(ParsedFilter::Network(nf)) => spec_network_filter_parse(f, debug) matches Ok(m)
                && realizes(nf@, m),
            Err(FilterParseError::Network(e)) => spec_network_filter_parse(f, debug) == Err::<
                NetworkFilterView,
                NetworkFilterError,
            >(e),
            _ => false,
        },
        ParseRoute::Cosmetic(f) => match r {
            Ok(ParsedFilter::Cosmetic(cf)) => spec_cosmetic_parse(f, debug) matches Ok(m)
                && realizes_cosmetic(cf@, m),
            Err(FilterParseError::Cosmetic(e)) => spec_cosmetic_parse(f, debug) == Err::<
                crate::filters::cosmetic::CosmeticParse,
                CosmeticFilterError,
            >(e),
            _ => false,
        },
        ParseRoute::Hosts(h) => match spec_hosts_style_rule(h) {
            Err(e) => r == Err::<ParsedFilter, FilterParseError>(FilterParseError::Network(e)),
            Ok(rule) => match r {
                Ok(ParsedFilter::Network(nf)) => spec_network_filter_parse(rule, debug) matches Ok(
                    m,
                ) && realizes(nf@, m),
                Err(FilterParseError::Network(e)) => spec_network_filter_parse(rule, debug)
                    == Err::<NetworkFilterView, NetworkFilterError>(e),
                _ => false,
            },
        },
    }
}

proof fn lemma_cosmetic_route_bounds(f: Seq<char>)
    requires
        spec_detect_filter_type(f) == FilterType::Cosmetic,
    ensures
        cosmetic_bounds_ok(f),
{
    reveal_strlit("@#");
    reveal_strlit("#");
    crate::utils::lemma_index_of(f, '#');
    match spec_index_of(f, '#') {
        Some(sharp) => {
            let rest = f.subrange(sharp + 1, f.len() as int);
            if seq_starts_with(rest, "@#"@) {
                assert(rest.len() >= 2);
                assert(rest.subrange(0, 2)[0] == '@');
                assert(f[sharp + 1] == '@');
            } else {
                assert(seq_starts_with(rest, "#"@));
                assert(rest.len() >= 1);
                assert(rest.subrange(0, 1)[0] == '#');
                assert(f[sharp + 1] == '#');
            }
        },
        None => {},
    }
}

/// `f` without a `#` comment (trimmed), or `f` itself when it has no `#`.
pub open spec fn strip_comment(f: Seq<char>) -> Seq<char> {
    match spec_index_of(f, '#') {
        Some(h) => spec_trim(f.subrange(0, h)),
        None => f,
    }
}

fn strip_comment_exec(f: &[char]) -> (r: Vec<char>)
    ensures
        r@ == strip_comment(f@),
{
    match crate::utils::index_of(f, '#') {
        Some(h) => {
            let head = crate::utils::sub_chars(f, 0, h);
            crate::utils::trim_chars(head.as_slice())
        },
        None => {
            proof {
                assert(f@.subrange(0, f@.len() as int) =~= f@);
            }
            crate::utils::sub_chars(f, 0, f.len())
        },
    }
}

/// The hostname of the words of a hosts line: the only word, or the second of two.
pub open spec fn host_of_words(words: Seq<Seq<char>>) -> Option<Seq<char>> {
    if words.len() == 1 {
        Some(words[0])
    } else if words.len() == 2 {
        Some(words[1])
    } else {
        None
    }
}

fn host_of_words_exec(words: &Vec<Vec<char>>) -> (r: Option<Vec<char>>)
    ensures
        match r {
            Some(h) => host_of_words(words.deep_view()) == Some(h@),
            None => host_of_words(words.deep_view()) is None,
        },
{
    let n = words.len();
    if n == 1 || n == 2 {
        let k = n - 1;
        proof {
            assert(words.deep_view()[k as int] == words@[k as int]@);
            assert(words@[k as int]@.subrange(0, words@[k as int]@.len() as int) =~= words@[k as int]@);
        }
        Some(crate::utils::sub_chars(words[k].as_slice(), 0, words[k].len()))
    } else {
        None
    }
}

fn hosts_line(f: &[char]) -> (r: Result<String, FilterParseError>)
    ensures
        match r {
            Ok(h) => spec_hosts_line(f@) == Ok::<Seq<char>, FilterParseError>(h@),
            Err(e) => spec_hosts_line(f@) == Err::<Seq<char>, FilterParseError>(e),
        },
{
    if lit_prefix(f, "!") {
        return Err(FilterParseError::Unsupported);
    }
    let g = strip_comment_exec(f);
    if g.len() == 0 {
        return Err(FilterParseError::Unsupported);
    }
    let words = split_whitespace(g.as_slice());
    let host = match host_of_words_exec(&words) {
        Some(h) => h,
        None => {
            return Err(FilterParseError::Unsupported);
        },
    };
    if crate::utils::eq_lit(host.as_slice(), "localhost") {
        return Err(FilterParseError::Unsupported);
    }
    Ok(crate::utils::chars_to_string_all(host.as_slice()))
}

/// Parses one rule (trimmed first) according to the options.
#[verifier::spinoff_prover]
#[verifier::rlimit(60)]
pub fn parse_filter(line: &str, debug: bool, opts: ParseOptions) -> (r: Result<ParsedFilter, FilterParseError>)
    ensures
        parse_result_ok(spec_route(line@, opts), debug, r),
{
    let lv = str_to_chars(line);
    let fv = crate::utils::trim_chars(lv.as_slice());
    if fv.len() == 0 {
        return Err(FilterParseError::Empty);
    }
    let f = crate::utils::chars_to_string_all(fv.as_slice());
    match opts.format {
        FilterFormat::Standard => {
            match detect_filter_type(fv.as_slice()) {
                FilterType::Network => {
                    if !opts.rule_types.loads_network_rules() {
                        return Err(FilterParseError::Unsupported);
                    }
                    match NetworkFilter::parse(f.as_str(), debug, opts) {
                        Ok(nf) => Ok(ParsedFilter::Network(nf)),
                        Err(e) => Err(FilterParseError::Network(e)),
                    }
                },
                FilterType::Cosmetic => {
                    if !opts.rule_types.loads_cosmetic_rules() {
                        return Err(FilterParseError::Unsupported);
                    }
                    proof {
                        lemma_cosmetic_route_bounds(fv@);
                    }
                    match CosmeticFilter::parse(f.as_str(), debug) {
                        Ok(cf) => Ok(ParsedFilter::Cosmetic(cf)),
                        Err(e) => Err(FilterParseError::Cosmetic(e)),
                    }
                },
                FilterType::NotSupported => Err(FilterParseError::Unsupported),
            }
        },
        FilterFormat::Hosts => {
            if !opts.rule_types.loads_network_rules() {
                return Err(FilterParseError::Unsupported);
            }
            match hosts_line(fv.as_slice()) {
                Err(e) => Err(e),
                Ok(h) => match NetworkFilter::parse_hosts_style(h.as_str(), debug) {
                    Ok(nf) => Ok(ParsedFilter::Network(nf)),
                    Err(e) => Err(FilterParseError::Network(e)),
                },
            }
        },
    }
}

/// The error that parsing a line along `route` gives, or `None` when it succeeds.
pub open spec fn spec_parse_error(route: ParseRoute, debug: bool) -> Option<FilterParseError> {
    match route {
        ParseRoute::Fail(e) => Some(e),
        ParseRoute::Network(f) => match spec_network_filter_parse(f, debug) {
            Ok(_) => None,
            Err(e) => Some(FilterParseError::Network(e)),
        },
        ParseRoute::Cosmetic(f) => match spec_cosmetic_parse(f, debug) {
            Ok(_) => None,
            Err(e) => Some(FilterParseError::Cosmetic(e)),
        },
        ParseRoute::Hosts(h) => match spec_hosts_style_rule(h) {
            Err(e) => Some(FilterParseError::Network(e)),
            Ok(rule) => match spec_network_filter_parse(rule, debug) {
                Ok(_) => None,
                Err(e) => Some(FilterParseError::Network(e)),
            },
        },
    }
}

/// The text that the network parser gets for a line, when the line yields a network filter.
pub open spec fn network_text(line: Seq<char>, debug: bool, opts: ParseOptions) -> Option<Seq<char>> {
    match spec_route(line, opts) {
        ParseRoute::Network(f) => if spec_network_filter_parse(f, debug) is Ok {
            Some(f)
        } else {
            None
        },
        ParseRoute::Hosts(h) => match spec_hosts_style_rule(h) {
            Ok(rule) => if spec_network_filter_parse(rule, debug) is Ok {
                Some(rule)
            } else {
                None
            },
            Err(_) => None,
        },
        _ => None,
    }
}

/// The text that the cosmetic parser gets for a line, when the line yields a cosmetic filter.
pub open spec fn cosmetic_text(line: Seq<char>, debug: bool, opts: ParseOptions) -> Option<Seq<char>> {
    match spec_route(line, opts) {
        ParseRoute::Cosmetic(f) => if spec_cosmetic_parse(f, debug) is Ok {
            Some(f)
        } else {
            None
        },
        _ => None,
    }
}

/// The network texts of the first `n` lines that yield network filters, in order.
pub open spec fn network_texts(lines: Seq<Seq<char>>, debug: bool, opts: ParseOptions, n: int) -> Seq<Seq<char>>
    decreases n,
{
    if n <= 0 {
        Seq::empty()
    } else {
        let prev = network_texts(lines, debug, opts, n - 1);
        match network_text(lines[n - 1], debug, opts) {
            Some(t) => prev.push(t),
            None => prev,
        }
    }
}

/// The cosmetic texts of the first `n` lines that yield cosmetic filters, in order.
pub open spec fn cosmetic_texts(lines: Seq<Seq<char>>, debug: bool, opts: ParseOptions, n: int) -> Seq<Seq<char>>
    decreases n,
{
    if n <= 0 {
        Seq::empty()
    } else {
        let prev = cosmetic_texts(lines, debug, opts, n - 1);
        match cosmetic_text(lines[n - 1], debug, opts) {
            Some(t) => prev.push(t),
            None => prev,
        }
    }
}

/// Each filter of `fs` is the parse of the text at the same index.
pub open spec fn network_filters_parse(fs: Seq<NetworkFilter>, texts: Seq<Seq<char>>, debug: bool) -> bool {
    &&& fs.len() == texts.len()
    &&& forall|i: int|
        0 <= i < fs.len() ==> (spec_network_filter_parse(#[trigger] texts[i], debug) matches Ok(m)
            && realizes(fs[i]@, m))
}

/// Each filter of `fs` is the parse of the text at the same index.
pub open spec fn cosmetic_filters_parse(fs: Seq<CosmeticFilter>, texts: Seq<Seq<char>>, debug: bool) -> bool {
    &&& fs.len() == texts.len()
    &&& forall|i: int|
        0 <= i < fs.len() ==> (spec_cosmetic_parse(#[trigger] texts[i], debug) matches Ok(m)
            && realizes_cosmetic(fs[i]@, m))
}

/// Views of a list of strings.
pub open spec fn strings_view(v: Seq<String>) -> Seq<Seq<char>> {
    v.map_values(|s: String| s@)
}

/// Parses every line, keeping the filters that parse and dropping the rest.
pub fn parse_filters(list: &[String], debug: bool, opts: ParseOptions) -> (r: (Vec<NetworkFilter>, Vec<CosmeticFilter>))
    ensures
        network_filters_parse(r.0@, network_texts(strings_view(list@), debug, opts, list@.len() as int), debug),
        cosmetic_filters_parse(r.1@, cosmetic_texts(strings_view(list@), debug, opts, list@.len() as int), debug),
{
    let ghost lines = strings_view(list@);
    let mut nets: Vec<NetworkFilter> = Vec::new();
    let mut cos: Vec<CosmeticFilter> = Vec::new();
    let mut i: usize = 0;
    while i < list.len()
        invariant
            i <= list@.len(),
            lines == strings_view(list@),
            network_filters_parse(nets@, network_texts(lines, debug, opts, i as int), debug),
            cosmetic_filters_parse(cos@, cosmetic_texts(lines, debug, opts, i as int), debug),
        decreases list.len() - i,
    {
        proof {
            assert(lines[i as int] == list@[i as int]@);
        }
        let r = parse_filter(list[i].as_str(), debug, opts);
        let ghost nb = nets@;
        let ghost cb = cos@;
        match r {
            Ok(ParsedFilter::Network(f)) => {
                nets.push(f);
            },
            Ok(ParsedFilter::Cosmetic(f)) => {
                cos.push(f);
            },
            Err(_) => {},
        }
        i += 1;
        proof {
            let nt = network_texts(lines, debug, opts, i as int);
            let ct = cosmetic_texts(lines, debug, opts, i as int);
            assert forall|k: int| 0 <= k < nets@.len() implies (spec_network_filter_parse(#[trigger] nt[k], debug) matches Ok(m)
                && realizes(nets@[k]@, m)) by {
                if k < nb.len() {
                    assert(nets@[k] == nb[k]);
                    assert(nt[k] == network_texts(lines, debug, opts, i - 1)[k]);
                }
            }
            assert forall|k: int| 0 <= k < cos@.len() implies (spec_cosmetic_parse(#[trigger] ct[k], debug) matches Ok(m)
                && realizes_cosmetic(cos@[k]@, m)) by {
                if k < cb.len() {
                    assert(cos@[k] == cb[k]);
                    assert(ct[k] == cosmetic_texts(lines, debug, opts, i - 1)[k]);
                }
            }
        }
    }
    (nets, cos)
}

/// `b` is `a` with the parse of `f` appended.
pub open spec fn pushed_cosmetic(a: Seq<CosmeticFilter>, b: Seq<CosmeticFilter>, f: Seq<char>, debug: bool) -> bool {
    &&& b.len() == a.len() + 1
    &&& b.drop_last() == a
    &&& spec_cosmetic_parse(f, debug) matches Ok(m)
    &&& realizes_cosmetic(b.last()@, m)
}

/// `b` is `a` with the parse of `t` appended.
pub open spec fn pushed_network(a: Seq<NetworkFilter>, b: Seq<NetworkFilter>, t: Option<Seq<char>>, debug: bool) -> bool {
    &&& b.len() == a.len() + 1
    &&& b.drop_last() == a
    &&& t matches Some(text)
    &&& spec_network_filter_parse(text, debug) matches Ok(m)
    &&& realizes(b.last()@, m)
}

/// Manages a set of rules to be given to an engine.
#[derive(Debug)]
pub struct FilterSet {
    pub debug: bool,
    pub network_filters: Vec<NetworkFilter>,
    pub cosmetic_filters: Vec<CosmeticFilter>,
}

/// The lines of a text: split at `\n`, a final empty line dropped, one trailing `\r` removed
/// from each line (`str::lines`).
pub open spec fn spec_lines(s: Seq<char>) -> Seq<Seq<char>> {
    let parts = crate::utils::spec_split(s, '\n');
    let kept = if parts.len() > 0 && parts.last().len() == 0 {
        parts.drop_last()
    } else {
        parts
    };
    kept.map_values(
        |l: Seq<char>|
            if l.len() > 0 && l.last() == '\r' {
                l.drop_last()
            } else {
                l
            },
    )
}

/// The lines of a text.
pub fn text_lines(s: &str) -> (r: Vec<String>)
    ensures
        strings_view(r@) == spec_lines(s@),
{
    let v = str_to_chars(s);
    let parts = crate::utils::split_chars(v.as_slice(), '\n');
    let ghost ps = parts.deep_view();
    let n = parts.len();
    let keep = if n > 0 && parts[n - 1].len() == 0 {
        n - 1
    } else {
        n
    };
    proof {
        if n > 0 {
            assert(ps[n - 1] == parts@[n - 1]@);
        }
    }
    let ghost kept = if ps.len() > 0 && ps.last().len() == 0 {
        ps.drop_last()
    } else {
        ps
    };
    let mut out: Vec<String> = Vec::new();
    let mut i: usize = 0;
    while i < keep
        invariant
            i <= keep <= n,
            n == parts@.len(),
            ps == parts.deep_view(),
            kept.len() == keep,
            forall|k: int| 0 <= k < keep ==> kept[k] == ps[k],
            strings_view(out@) == kept.subrange(0, i as int).map_values(
                |l: Seq<char>|
                    if l.len() > 0 && l.last() == '\r' {
                        l.drop_last()
                    } else {
                        l
                    },
            ),
        decreases keep - i,
    {
        let p = &parts[i];
        proof {
            assert(ps[i as int] == p@);
        }
        let m = p.len();
        let line = if m > 0 && p[m - 1] == '\r' {
            crate::utils::chars_to_string(p.as_slice(), 0, m - 1)
        } else {
            crate::utils::chars_to_string_all(p.as_slice())
        };
        let ghost before = out@;
        out.push(line);
        i += 1;
        proof {
            let f = |l: Seq<char>|
                if l.len() > 0 && l.last() == '\r' {
                    l.drop_last()
                } else {
                    l
                };
            assert(strings_view(out@) =~= strings_view(before).push(line@));
            assert(kept.subrange(0, i as int).map_values(f) =~= kept.subrange(0, i - 1).map_values(f).push(f(kept[i - 1])));
            if m > 0 && p@[m - 1] == '\r' {
                assert(line@ =~= p@.drop_last());
            }
        }
    }
    proof {
        assert(kept.subrange(0, keep as int) =~= kept);
    }
    out
}

impl FilterSet {
    /// An empty set; `debug` keeps the rules' text with the parsed filters.
    pub fn new(debug: bool) -> (r: Self)
        ensures
            r.debug == debug,
            r.network_filters@.len() == 0,
            r.cosmetic_filters@.len() == 0,
    {
        FilterSet { debug, network_filters: Vec::new(), cosmetic_filters: Vec::new() }
    }

    /// Adds the filters that parse among `filters`.
    pub fn add_filters(&mut self, filters: &[String], opts: ParseOptions)
        ensures
            final(self).debug == old(self).debug,
            final(self).network_filters@.subrange(0, old(self).network_filters@.len() as int)
                == old(self).network_filters@,
            network_filters_parse(
                final(self).network_filters@.subrange(
                    old(self).network_filters@.len() as int,
                    final(self).network_filters@.len() as int,
                ),
                network_texts(strings_view(filters@), old(self).debug, opts, filters@.len() as int),
                old(self).debug,
            ),
            final(self).cosmetic_filters@.subrange(0, old(self).cosmetic_filters@.len() as int)
                == old(self).cosmetic_filters@,
            cosmetic_filters_parse(
                final(self).cosmetic_filters@.subrange(
                    old(self).cosmetic_filters@.len() as int,
                    final(self).cosmetic_filters@.len() as int,
                ),
                cosmetic_texts(strings_view(filters@), old(self).debug, opts, filters@.len() as int),
                old(self).debug,
            ),
    {
        let (mut nets, mut cos) = parse_filters(filters, self.debug, opts);
        let ghost n0 = self.network_filters@;
        let ghost c0 = self.cosmetic_filters@;
        let ghost nv = nets@;
        let ghost cv = cos@;
        self.network_filters.append(&mut nets);
        self.cosmetic_filters.append(&mut cos);
        proof {
            assert(self.network_filters@.subrange(0, n0.len() as int) =~= n0);
            assert(self.network_filters@.subrange(n0.len() as int, self.network_filters@.len() as int) =~= nv);
            assert(self.cosmetic_filters@.subrange(0, c0.len() as int) =~= c0);
            assert(self.cosmetic_filters@.subrange(c0.len() as int, self.cosmetic_filters@.len() as int) =~= cv);
        }
    }

    /// Adds the filters that parse among the lines of `filter_list`.
    pub fn add_filter_list(&mut self, filter_list: &str, opts: ParseOptions)
        ensures
            final(self).debug == old(self).debug,
            final(self).network_filters@.subrange(0, old(self).network_filters@.len() as int)
                == old(self).network_filters@,
            network_filters_parse(
                final(self).network_filters@.subrange(
                    old(self).network_filters@.len() as int,
                    final(self).network_filters@.len() as int,
                ),
                network_texts(spec_lines(filter_list@), old(self).debug, opts, spec_lines(filter_list@).len() as int),
                old(self).debug,
            ),
            final(self).cosmetic_filters@.subrange(0, old(self).cosmetic_filters@.len() as int)
                == old(self).cosmetic_filters@,
            cosmetic_filters_parse(
                final(self).cosmetic_filters@.subrange(
                    old(self).cosmetic_filters@.len() as int,
                    final(self).cosmetic_filters@.len() as int,
                ),
                cosmetic_texts(spec_lines(filter_list@), old(self).debug, opts, spec_lines(filter_list@).len() as int),
                old(self).debug,
            ),
    {
        let rules = text_lines(filter_list);
        self.add_filters(rules.as_slice(), opts);
    }

    /// Parses one rule and adds it, or says why it was not added.
    pub fn add_filter(&mut self, filter: &str, opts: ParseOptions) -> (r: Result<(), FilterParseError>)
        ensures
            final(self).debug == old(self).debug,
            match r {
                Err(e) => spec_parse_error(spec_route(filter@, opts), old(self).debug) == Some(e)
                    && *final(self) == *old(self),
                Ok(()) => spec_parse_error(spec_route(filter@, opts), old(self).debug) is None
                    && match spec_route(filter@, opts) {
                    ParseRoute::Cosmetic(f) => final(self).network_filters@ == old(self).network_filters@
                        && pushed_cosmetic(old(self).cosmetic_filters@, final(self).cosmetic_filters@, f, old(self).debug),
                    _ => final(self).cosmetic_filters@ == old(self).cosmetic_filters@
                        && pushed_network(old(self).network_filters@, final(self).network_filters@, network_text(filter@, old(self).debug, opts), old(self).debug),
                },
            },
    {
        match parse_filter(filter, self.debug, opts) {
            Ok(ParsedFilter::Network(f)) => {
                let ghost before = self.network_filters@;
                self.network_filters.push(f);
                proof {
                    assert(self.network_filters@.drop_last() =~= before);
                }
                Ok(())
            },
            Ok(ParsedFilter::Cosmetic(f)) => {
                let ghost before = self.cosmetic_filters@;
                self.cosmetic_filters.push(f);
                proof {
                    assert(self.cosmetic_filters@.drop_last() =~= before);
                }
                Ok(())
            },
            Err(e) => Err(e),
        }
    }
}

} // verus!
