//! Filters that take effect at the network request level, including blocking and response
//! modification.

use vstd::prelude::*;

use crate::lists::ParseOptions;
use crate::utils::{
    ascii_lowercase, chars_is_ascii, contains_char, domain_to_ascii_chars, idna_to_ascii,
    occurs_at, occurs_at_exec, spec_ascii_lowercase, spec_is_ascii, spec_trim_start_seq,
    trim_start_seq, rfind_char_before, chars_eq, hash_chars, is_sorted, sort_hashes,
    spec_fast_hash, chars_to_string_all, index_of, spec_index_of, spec_split,
    spec_trim_start_char, split_chars, str_to_chars, sub_chars, trim_start_char, fast_hash,
    hash_chars_from, spec_tokenize, spec_tokenize_filter, tokenize_filter_chars, find_char_from,
};

verus! {

pub const FROM_IMAGE: u32 = 1;
pub const FROM_MEDIA: u32 = 2;
pub const FROM_OBJECT: u32 = 4;
pub const FROM_OTHER: u32 = 8;
pub const FROM_PING: u32 = 16;
pub const FROM_SCRIPT: u32 = 32;
pub const FROM_STYLESHEET: u32 = 64;
pub const FROM_SUBDOCUMENT: u32 = 128;
pub const FROM_WEBSOCKET: u32 = 256;
pub const FROM_XMLHTTPREQUEST: u32 = 512;
pub const FROM_FONT: u32 = 1024;
pub const FROM_HTTP: u32 = 2048;
pub const FROM_HTTPS: u32 = 4096;
pub const IS_IMPORTANT: u32 = 8192;
pub const MATCH_CASE: u32 = 16384;
pub const IS_REMOVEPARAM: u32 = 32768;
pub const THIRD_PARTY: u32 = 65536;
pub const FIRST_PARTY: u32 = 131072;
pub const IS_REGEX: u32 = 262144;
pub const IS_LEFT_ANCHOR: u32 = 524288;
pub const IS_RIGHT_ANCHOR: u32 = 1048576;
pub const IS_HOSTNAME_ANCHOR: u32 = 2097152;
pub const IS_EXCEPTION: u32 = 4194304;
pub const IS_CSP: u32 = 8388608;
pub const IS_COMPLETE_REGEX: u32 = 16777216;
/// "Other" network request types.
pub const UNMATCHED: u32 = 33554432;
pub const IS_REDIRECT: u32 = 67108864;
pub const BAD_FILTER: u32 = 134217728;
pub const IS_HOSTNAME_REGEX: u32 = 268435456;
/// Full document rules are not implied by negated types.
pub const FROM_DOCUMENT: u32 = 536870912;
pub const GENERIC_HIDE: u32 = 1073741824;
/// A redirect rule that should also block the request.
pub const ALSO_BLOCK_REDIRECT: u32 = 2147483648;

/// All request types that are implied by any negated type.
pub const FROM_NETWORK_TYPES: u32 = FROM_FONT | FROM_IMAGE | FROM_MEDIA | FROM_OBJECT | FROM_OTHER
    | FROM_PING | FROM_SCRIPT | FROM_STYLESHEET | FROM_SUBDOCUMENT | FROM_WEBSOCKET
    | FROM_XMLHTTPREQUEST;

/// Every request type.
pub const FROM_ALL_TYPES: u32 = FROM_NETWORK_TYPES | FROM_DOCUMENT;

/// Options set unless a filter says otherwise.
pub const DEFAULT_OPTIONS: u32 = FROM_NETWORK_TYPES | FROM_HTTP | FROM_HTTPS | THIRD_PARTY
    | FIRST_PARTY;

/// `mask` has every bit of `flag`.
pub open spec fn has_flag(mask: u32, flag: u32) -> bool {
    mask & flag == flag
}

/// `mask` with the bits of `flag` set or cleared.
pub open spec fn with_flag(mask: u32, flag: u32, value: bool) -> u32 {
    if value {
        mask | flag
    } else {
        mask & !flag
    }
}

/// Option bits of a network filter.
#[derive(Clone, Copy, Debug, PartialEq, Eq, Structural)]
pub struct NetworkFilterMask {
    pub bits: u32,
}

impl NetworkFilterMask {
    /// Whether every bit of `flag` is set.
    pub fn contains(&self, flag: u32) -> (r: bool)
        ensures
            r == has_flag(self.bits, flag),
    {
        self.bits & flag == flag
    }

    /// Sets or clears the bits of `flag`.
    pub fn set(&mut self, flag: u32, value: bool)
        ensures
            final(self).bits == with_flag(old(self).bits, flag, value),
    {
        if value {
            self.bits = self.bits | flag;
        } else {
            self.bits = self.bits & !flag;
        }
    }
}

/// Reasons a network filter rule is refused.
#[derive(Clone, Copy, Debug, PartialEq, Eq, Structural)]
pub enum NetworkFilterError {
    FilterParseError,
    NegatedBadFilter,
    NegatedImportant,
    NegatedOptionMatchCase,
    NegatedExplicitCancel,
    NegatedRedirection,
    NegatedTag,
    NegatedGenericHide,
    NegatedDocument,
    GenericHideWithoutException,
    EmptyRedirection,
    EmptyRemoveparam,
    NegatedRemoveparam,
    RemoveparamWithException,
    RemoveparamRegexUnsupported,
    RedirectionUrlInvalid,
    MultipleModifierOptions,
    UnrecognisedOption,
    NoRegex,
    FullRegexUnsupported,
    RegexParsingError,
    PunycodeError,
    CspWithContentType,
    MatchCaseWithoutFullRegex,
    NoSupportedDomains,
}

/// The pattern part of a network filter.
#[derive(Clone, Debug)]
pub enum FilterPart {
    Empty,
    Simple(String),
    AnyOf(Vec<String>),
}

/// `list` joined with `sep` between consecutive items.
pub open spec fn spec_join(list: Seq<Seq<char>>, sep: char) -> Seq<char>
    decreases list.len(),
{
    if list.len() == 0 {
        Seq::empty()
    } else if list.len() == 1 {
        list[0]
    } else {
        spec_join(list.drop_last(), sep).push(sep) + list.last()
    }
}

/// Text form of a filter pattern: `None` when empty, alternatives joined by `|`.
pub open spec fn spec_string_view(f: FilterPart) -> Option<Seq<char>> {
    match f {
        FilterPart::Empty => None,
        FilterPart::Simple(s) => Some(s@),
        FilterPart::AnyOf(v) => Some(spec_join(v.deep_view(), '|')),
    }
}

/// `list` joined with `|`.
fn join_pipe(list: &Vec<String>) -> (r: Vec<char>)
    ensures
        r@ == spec_join(list.deep_view(), '|'),
{
    let mut r: Vec<char> = Vec::new();
    let mut i: usize = 0;
    while i < list.len()
        invariant
            i <= list@.len(),
            r@ == spec_join(list.deep_view().take(i as int), '|'),
        decreases list.len() - i,
    {
        let piece = str_to_chars(list[i].as_str());
        if i > 0 {
            r.push('|');
        }
        let mut j: usize = 0;
        let ghost base = r@;
        while j < piece.len()
            invariant
                j <= piece@.len(),
                r@ == base + piece@.take(j as int),
            decreases piece.len() - j,
        {
            r.push(piece[j]);
            j += 1;
            proof {
                assert(r@ =~= base + piece@.take(j as int));
            }
        }
        proof {
            assert(piece@.take(piece@.len() as int) =~= piece@);
            assert(list.deep_view().take(i + 1).drop_last() =~= list.deep_view().take(i as int));
            assert(list.deep_view()[i as int] == list@[i as int]@);
            if i > 0 {
                assert(r@ =~= spec_join(list.deep_view().take(i as int), '|').push('|')
                    + list.deep_view().take(i + 1).last());
            } else {
                assert(r@ =~= list.deep_view().take(i + 1)[0]);
            }
        }
        i += 1;
    }
    proof {
        assert(list.deep_view().take(list@.len() as int) =~= list.deep_view());
    }
    r
}

impl FilterPart {
    /// The pattern as text: `None` when empty, alternatives joined by `|`.
    pub fn string_view(&self) -> (r: Option<String>)
        ensures
            r.deep_view() == spec_string_view(*self),
    {
        match self {
            FilterPart::Empty => None,
            FilterPart::Simple(s) => Some(s.clone()),
            FilterPart::AnyOf(v) => {
                let j = join_pipe(v);
                Some(chars_to_string_all(j.as_slice()))
            },
        }
    }
}

/// Any option that appears on the right side of a network filter after `$`. A `bool` is `true`
/// when the option stands alone and `false` when it is negated with `~`.
#[derive(Clone, Debug)]
pub enum NetworkFilterOption {
    Domain(Vec<(bool, String)>),
    Badfilter,
    Important,
    MatchCase,
    ThirdParty(bool),
    FirstParty(bool),
    Tag(String),
    Redirect(String),
    RedirectRule(String),
    Csp(Option<String>),
    Removeparam(String),
    Generichide,
    Document,
    Image(bool),
    Media(bool),
    Object(bool),
    Other(bool),
    Ping(bool),
    Script(bool),
    Stylesheet(bool),
    Subdocument(bool),
    XmlHttpRequest(bool),
    Websocket(bool),
    Font(bool),
}

/// Abstract value of a `NetworkFilterOption`.
pub ghost enum OptionModel {
    Domain(Seq<(bool, Seq<char>)>),
    Badfilter,
    Important,
    MatchCase,
    ThirdParty(bool),
    FirstParty(bool),
    Tag(Seq<char>),
    Redirect(Seq<char>),
    RedirectRule(Seq<char>),
    Csp(Option<Seq<char>>),
    Removeparam(Seq<char>),
    Generichide,
    Document,
    Image(bool),
    Media(bool),
    Object(bool),
    Other(bool),
    Ping(bool),
    Script(bool),
    Stylesheet(bool),
    Subdocument(bool),
    XmlHttpRequest(bool),
    Websocket(bool),
    Font(bool),
}

impl View for NetworkFilterOption {
    type V = OptionModel;

    open spec fn view(&self) -> OptionModel {
        match self {
            NetworkFilterOption::Domain(d) => OptionModel::Domain(d.deep_view()),
            NetworkFilterOption::Badfilter => OptionModel::Badfilter,
            NetworkFilterOption::Important => OptionModel::Important,
            NetworkFilterOption::MatchCase => OptionModel::MatchCase,
            NetworkFilterOption::ThirdParty(b) => OptionModel::ThirdParty(*b),
            NetworkFilterOption::FirstParty(b) => OptionModel::FirstParty(*b),
            NetworkFilterOption::Tag(s) => OptionModel::Tag(s@),
            NetworkFilterOption::Redirect(s) => OptionModel::Redirect(s@),
            NetworkFilterOption::RedirectRule(s) => OptionModel::RedirectRule(s@),
            NetworkFilterOption::Csp(s) => OptionModel::Csp(s.deep_view()),
            NetworkFilterOption::Removeparam(s) => OptionModel::Removeparam(s@),
            NetworkFilterOption::Generichide => OptionModel::Generichide,
            NetworkFilterOption::Document => OptionModel::Document,
            NetworkFilterOption::Image(b) => OptionModel::Image(*b),
            NetworkFilterOption::Media(b) => OptionModel::Media(*b),
            NetworkFilterOption::Object(b) => OptionModel::Object(*b),
            NetworkFilterOption::Other(b) => OptionModel::Other(*b),
            NetworkFilterOption::Ping(b) => OptionModel::Ping(*b),
            NetworkFilterOption::Script(b) => OptionModel::Script(*b),
            NetworkFilterOption::Stylesheet(b) => OptionModel::Stylesheet(*b),
            NetworkFilterOption::Subdocument(b) => OptionModel::Subdocument(*b),
            NetworkFilterOption::XmlHttpRequest(b) => OptionModel::XmlHttpRequest(*b),
            NetworkFilterOption::Websocket(b) => OptionModel::Websocket(*b),
            NetworkFilterOption::Font(b) => OptionModel::Font(*b),
        }
    }
}

/// The option restricts the request (content) types.
pub open spec fn spec_is_content_type(o: OptionModel) -> bool {
    match o {
        OptionModel::Document | OptionModel::Image(..) | OptionModel::Media(..)
        | OptionModel::Object(..) | OptionModel::Other(..) | OptionModel::Ping(..)
        | OptionModel::Script(..) | OptionModel::Stylesheet(..) | OptionModel::Subdocument(..)
        | OptionModel::XmlHttpRequest(..) | OptionModel::Websocket(..) | OptionModel::Font(
            ..,
        ) => true,
        _ => false,
    }
}

/// The option is `$redirect` or `$redirect-rule`.
pub open spec fn spec_is_redirection(o: OptionModel) -> bool {
    o is Redirect || o is RedirectRule
}

impl NetworkFilterOption {
    /// Whether this option restricts the request types.
    pub fn is_content_type(&self) -> (r: bool)
        ensures
            r == spec_is_content_type(self@),
    {
        match self {
            NetworkFilterOption::Document | NetworkFilterOption::Image(..)
            | NetworkFilterOption::Media(..) | NetworkFilterOption::Object(..)
            | NetworkFilterOption::Other(..) | NetworkFilterOption::Ping(..)
            | NetworkFilterOption::Script(..) | NetworkFilterOption::Stylesheet(..)
            | NetworkFilterOption::Subdocument(..) | NetworkFilterOption::XmlHttpRequest(..)
            | NetworkFilterOption::Websocket(..) | NetworkFilterOption::Font(..) => true,
            _ => false,
        }
    }

    /// Whether this option is `$redirect` or `$redirect-rule`.
    pub fn is_redirection(&self) -> (r: bool)
        ensures
            r == spec_is_redirection(self@),
    {
        match self {
            NetworkFilterOption::Redirect(..) | NetworkFilterOption::RedirectRule(..) => true,
            _ => false,
        }
    }
}

/// One entry of a `$domain=` list: a leading `~` negates it.
pub open spec fn spec_domain_entry(d: Seq<char>) -> (bool, Seq<char>) {
    if d.len() > 0 && d[0] == '~' {
        (false, d.drop_first())
    } else {
        (true, d)
    }
}

/// A `/regex/` domain entry, which is not supported and is dropped.
pub open spec fn is_regex_domain(d: Seq<char>) -> bool {
    d.len() > 0 && d[0] == '/' && d.last() == '/'
}

/// The supported domain entries among the first `n` pieces of a `$domain=` value.
pub open spec fn domain_entries(pieces: Seq<Seq<char>>, n: int) -> Seq<(bool, Seq<char>)>
    decreases n,
{
    if n <= 0 {
        Seq::empty()
    } else {
        let acc = domain_entries(pieces, n - 1);
        let e = spec_domain_entry(pieces[n - 1]);
        if is_regex_domain(e.1) {
            acc
        } else {
            acc.push(e)
        }
    }
}

/// The supported entries of a `$domain=` value.
pub open spec fn spec_domain_list(value: Seq<char>) -> Seq<(bool, Seq<char>)> {
    let pieces = spec_split(value, '|');
    domain_entries(pieces, pieces.len() as int)
}

/// A `$removeparam` value made only of ASCII letters, digits, `_` and `-`.
pub open spec fn valid_param(v: Seq<char>) -> bool {
    v.len() > 0 && forall|i: int|
        0 <= i < v.len() ==> ('a' <= #[trigger] v[i] <= 'z') || ('A' <= v[i] <= 'Z') || ('0'
            <= v[i] <= '9') || v[i] == '_' || v[i] == '-'
}

/// Name and value of an option: the text before and after the first `=`.
pub open spec fn spec_option_name_value(m: Seq<char>) -> (Seq<char>, Seq<char>) {
    match spec_index_of(m, '=') {
        Some(k) => (m.subrange(0, k), m.subrange(k + 1, m.len() as int)),
        None => (m, Seq::empty()),
    }
}

/// Parse of one comma-separated option of a network filter.
#[verifier::opaque]
pub open spec fn spec_parse_option(raw: Seq<char>) -> Result<OptionModel, NetworkFilterError> {
    let negation = raw.len() > 0 && raw[0] == '~';
    let (option, value) = spec_option_name_value(spec_trim_start_char(raw, '~'));
    spec_option_from_parts(negation, option, value)
}

/// Meaning of an option given its negation, name and value: names up to `$removeparam`.
#[verifier::opaque]
pub open spec fn spec_option_from_parts(negation: bool, option: Seq<char>, value: Seq<char>) -> Result<
    OptionModel,
    NetworkFilterError,
> {
    if option == "domain"@ || option == "from"@ {
        let d = spec_domain_list(value);
        if d.len() == 0 {
            Err(NetworkFilterError::NoSupportedDomains)
        } else {
            Ok(OptionModel::Domain(d))
        }
    } else if option == "badfilter"@ {
        if negation {
            Err(NetworkFilterError::NegatedBadFilter)
        } else {
            Ok(OptionModel::Badfilter)
        }
    } else if option == "important"@ {
        if negation {
            Err(NetworkFilterError::NegatedImportant)
        } else {
            Ok(OptionModel::Important)
        }
    } else if option == "match-case"@ {
        if negation {
            Err(NetworkFilterError::NegatedOptionMatchCase)
        } else {
            Ok(OptionModel::MatchCase)
        }
    } else if option == "third-party"@ || option == "3p"@ {
        Ok(OptionModel::ThirdParty(!negation))
    } else if option == "first-party"@ || option == "1p"@ {
        Ok(OptionModel::FirstParty(!negation))
    } else if option == "tag"@ {
        if negation {
            Err(NetworkFilterError::NegatedTag)
        } else {
            Ok(OptionModel::Tag(value))
        }
    } else if option == "redirect"@ {
        if negation {
            Err(NetworkFilterError::NegatedRedirection)
        } else if value.len() == 0 {
            Err(NetworkFilterError::EmptyRedirection)
        } else {
            Ok(OptionModel::Redirect(value))
        }
    } else if option == "redirect-rule"@ {
        if negation {
            Err(NetworkFilterError::NegatedRedirection)
        } else if value.len() == 0 {
            Err(NetworkFilterError::EmptyRedirection)
        } else {
            Ok(OptionModel::RedirectRule(value))
        }
    } else if option == "csp"@ {
        Ok(
            OptionModel::Csp(
                if value.len() > 0 {
                    Some(value)
                } else {
                    None
                },
            ),
        )
    } else if option == "removeparam"@ {
        if negation {
            Err(NetworkFilterError::NegatedRemoveparam)
        } else if value.len() == 0 {
            Err(NetworkFilterError::EmptyRemoveparam)
        } else if !valid_param(value) {
            Err(NetworkFilterError::RemoveparamRegexUnsupported)
        } else {
            Ok(OptionModel::Removeparam(value))
        }
    } else {
        spec_option_from_parts_rest(negation, option, value)
    }
}

/// Meaning of an option given its negation, name and value: names after `$removeparam`.
#[verifier::opaque]
pub open spec fn spec_option_from_parts_rest(negation: bool, option: Seq<char>, value: Seq<char>) -> Result<
    OptionModel,
    NetworkFilterError,
> {
    if option == "generichide"@ || option == "ghide"@ {
        if negation {
            Err(NetworkFilterError::NegatedGenericHide)
        } else {
            Ok(OptionModel::Generichide)
        }
    } else if option == "document"@ || option == "doc"@ {
        if negation {
            Err(NetworkFilterError::NegatedDocument)
        } else {
            Ok(OptionModel::Document)
        }
    } else if option == "image"@ {
        Ok(OptionModel::Image(!negation))
    } else if option == "media"@ {
        Ok(OptionModel::Media(!negation))
    } else if option == "object"@ || option == "object-subrequest"@ {
        Ok(OptionModel::Object(!negation))
    } else if option == "other"@ {
        Ok(OptionModel::Other(!negation))
    } else if option == "ping"@ || option == "beacon"@ {
        Ok(OptionModel::Ping(!negation))
    } else if option == "script"@ {
        Ok(OptionModel::Script(!negation))
    } else if option == "stylesheet"@ || option == "css"@ {
        Ok(OptionModel::Stylesheet(!negation))
    } else if option == "subdocument"@ || option == "frame"@ {
        Ok(OptionModel::Subdocument(!negation))
    } else if option == "xmlhttprequest"@ || option == "xhr"@ {
        Ok(OptionModel::XmlHttpRequest(!negation))
    } else if option == "websocket"@ {
        Ok(OptionModel::Websocket(!negation))
    } else if option == "font"@ {
        Ok(OptionModel::Font(!negation))
    } else {
        Err(NetworkFilterError::UnrecognisedOption)
    }
}

/// Parse of the first `n` options, stopping at the first refused one.
pub open spec fn options_from(pieces: Seq<Seq<char>>, n: int) -> Result<
    Seq<OptionModel>,
    NetworkFilterError,
>
    decreases n,
{
    if n <= 0 {
        Ok(Seq::empty())
    } else {
        match options_from(pieces, n - 1) {
            Err(e) => Err(e),
            Ok(acc) => match spec_parse_option(pieces[n - 1]) {
                Err(e) => Err(e),
                Ok(o) => Ok(acc.push(o)),
            },
        }
    }
}

/// Parse of the comma-separated options after `$`.
pub open spec fn spec_parse_filter_options(raw: Seq<char>) -> Result<
    Seq<OptionModel>,
    NetworkFilterError,
> {
    let pieces = spec_split(raw, ',');
    options_from(pieces, pieces.len() as int)
}

/// The supported entries of a `$domain=` value.
fn parse_domain_list(value: &[char]) -> (r: Vec<(bool, String)>)
    ensures
        r.deep_view() == spec_domain_list(value@),
{
    let pieces = split_chars(value, '|');
    let mut r: Vec<(bool, String)> = Vec::new();
    let mut i: usize = 0;
    while i < pieces.len()
        invariant
            i <= pieces@.len(),
            pieces.deep_view() == spec_split(value@, '|'),
            r.deep_view() == domain_entries(pieces.deep_view(), i as int),
        decreases pieces.len() - i,
    {
        let d = &pieces[i];
        proof {
            assert(pieces.deep_view()[i as int] == d@);
        }
        let (enabled, name) = if d.len() > 0 && d[0] == '~' {
            (false, sub_chars(d.as_slice(), 1, d.len()))
        } else {
            (true, sub_chars(d.as_slice(), 0, d.len()))
        };
        proof {
            assert(d@.drop_first() =~= d@.subrange(1, d@.len() as int));
            assert(d@ =~= d@.subrange(0, d@.len() as int));
        }
        if !(name.len() > 0 && name[0] == '/' && name[name.len() - 1] == '/') {
            let ghost before = r.deep_view();
            let s = chars_to_string_all(name.as_slice());
            r.push((enabled, s));
            proof {
                assert(r.deep_view() =~= before.push((enabled, name@)));
            }
        }
        i += 1;
    }
    r
}

/// `v` is non-empty and made only of ASCII letters, digits, `_` and `-`.
fn is_valid_param(v: &[char]) -> (r: bool)
    ensures
        r == valid_param(v@),
{
    if v.len() == 0 {
        return false;
    }
    let mut i: usize = 0;
    while i < v.len()
        invariant
            i <= v@.len(),
            forall|j: int|
                0 <= j < i ==> ('a' <= #[trigger] v@[j] <= 'z') || ('A' <= v@[j] <= 'Z') || ('0'
                    <= v@[j] <= '9') || v@[j] == '_' || v@[j] == '-',
        decreases v.len() - i,
    {
        let c = v[i];
        if !(('a' <= c && c <= 'z') || ('A' <= c && c <= 'Z') || ('0' <= c && c <= '9') || c
            == '_' || c == '-') {
            return false;
        }
        i += 1;
    }
    true
}

/// Whether `option` is the option name `name`.
fn is_name(option: &Vec<char>, name: &str) -> (r: bool)
    ensures
        r == (option@ == name@),
{
    let n = str_to_chars(name);
    chars_eq(option.as_slice(), n.as_slice())
}

/// Parses one comma-separated option of a network filter.
fn parse_one_option(raw: &[char]) -> (r: Result<NetworkFilterOption, NetworkFilterError>)
    ensures
        match r {
            Ok(o) => spec_parse_option(raw@) == Ok::<OptionModel, NetworkFilterError>(o@),
            Err(e) => spec_parse_option(raw@) == Err::<OptionModel, NetworkFilterError>(e),
        },
{
    proof {
        reveal(spec_parse_option);
    }
    let negation = raw.len() > 0 && raw[0] == '~';
    let m = trim_start_char(raw, '~');
    let (option, value) = match index_of(m.as_slice(), '=') {
        Some(k) => {
            assert(k < m.len());
            (sub_chars(m.as_slice(), 0, k), sub_chars(m.as_slice(), k + 1, m.len()))
        },
        None => (sub_chars(m.as_slice(), 0, m.len()), Vec::new()),
    };
    proof {
        assert(m@ =~= m@.subrange(0, m@.len() as int));
        assert(spec_option_name_value(m@) == (option@, value@));
    }
    option_from_parts(negation, &option, &value)
}

/// Meaning of an option given its negation, name and value: names up to `$removeparam`.
fn option_from_parts(negation: bool, option: &Vec<char>, value: &Vec<char>) -> (r: Result<
    NetworkFilterOption,
    NetworkFilterError,
>)
    ensures
        match r {
            Ok(o) => spec_option_from_parts(negation, option@, value@) == Ok::<
                OptionModel,
                NetworkFilterError,
            >(o@),
            Err(e) => spec_option_from_parts(negation, option@, value@) == Err::<
                OptionModel,
                NetworkFilterError,
            >(e),
        },
{
    proof {
        reveal(spec_option_from_parts);
    }
    let value_string = chars_to_string_all(value.as_slice());
    if is_name(option, "domain") || is_name(option, "from") {
        let d = parse_domain_list(value.as_slice());
        if d.len() == 0 {
            Err(NetworkFilterError::NoSupportedDomains)
        } else {
            Ok(NetworkFilterOption::Domain(d))
        }
    } else if is_name(option, "badfilter") {
        if negation {
            Err(NetworkFilterError::NegatedBadFilter)
        } else {
            Ok(NetworkFilterOption::Badfilter)
        }
    } else if is_name(option, "important") {
        if negation {
            Err(NetworkFilterError::NegatedImportant)
        } else {
            Ok(NetworkFilterOption::Important)
        }
    } else if is_name(option, "match-case") {
        if negation {
            Err(NetworkFilterError::NegatedOptionMatchCase)
        } else {
            Ok(NetworkFilterOption::MatchCase)
        }
    } else if is_name(option, "third-party") || is_name(option, "3p") {
        Ok(NetworkFilterOption::ThirdParty(!negation))
    } else if is_name(option, "first-party") || is_name(option, "1p") {
        Ok(NetworkFilterOption::FirstParty(!negation))
    } else if is_name(option, "tag") {
        if negation {
            Err(NetworkFilterError::NegatedTag)
        } else {
            Ok(NetworkFilterOption::Tag(value_string))
        }
    } else if is_name(option, "redirect") {
        if negation {
            Err(NetworkFilterError::NegatedRedirection)
        } else if value.len() == 0 {
            Err(NetworkFilterError::EmptyRedirection)
        } else {
            Ok(NetworkFilterOption::Redirect(value_string))
        }
    } else if is_name(option, "redirect-rule") {
        if negation {
            Err(NetworkFilterError::NegatedRedirection)
        } else if value.len() == 0 {
            Err(NetworkFilterError::EmptyRedirection)
        } else {
            Ok(NetworkFilterOption::RedirectRule(value_string))
        }
    } else if is_name(option, "csp") {
        Ok(
            NetworkFilterOption::Csp(
                if value.len() > 0 {
                    Some(value_string)
                } else {
                    None
                },
            ),
        )
    } else if is_name(option, "removeparam") {
        if negation {
            Err(NetworkFilterError::NegatedRemoveparam)
        } else if value.len() == 0 {
            Err(NetworkFilterError::EmptyRemoveparam)
        } else if !is_valid_param(value.as_slice()) {
            Err(NetworkFilterError::RemoveparamRegexUnsupported)
        } else {
            Ok(NetworkFilterOption::Removeparam(value_string))
        }
    } else {
        option_from_parts_rest(negation, option, value)
    }
}

/// Meaning of an option given its negation, name and value: names after `$removeparam`.
fn option_from_parts_rest(negation: bool, option: &Vec<char>, value: &Vec<char>) -> (r: Result<
    NetworkFilterOption,
    NetworkFilterError,
>)
    ensures
        match r {
            Ok(o) => spec_option_from_parts_rest(negation, option@, value@) == Ok::<
                OptionModel,
                NetworkFilterError,
            >(o@),
            Err(e) => spec_option_from_parts_rest(negation, option@, value@) == Err::<
                OptionModel,
                NetworkFilterError,
            >(e),
        },
{
    proof {
        reveal(spec_option_from_parts_rest);
    }
    if is_name(option, "generichide") || is_name(option, "ghide") {
        if negation {
            Err(NetworkFilterError::NegatedGenericHide)
        } else {
            Ok(NetworkFilterOption::Generichide)
        }
    } else if is_name(option, "document") || is_name(option, "doc") {
        if negation {
            Err(NetworkFilterError::NegatedDocument)
        } else {
            Ok(NetworkFilterOption::Document)
        }
    } else if is_name(option, "image") {
        Ok(NetworkFilterOption::Image(!negation))
    } else if is_name(option, "media") {
        Ok(NetworkFilterOption::Media(!negation))
    } else if is_name(option, "object") || is_name(option, "object-subrequest") {
        Ok(NetworkFilterOption::Object(!negation))
    } else if is_name(option, "other") {
        Ok(NetworkFilterOption::Other(!negation))
    } else if is_name(option, "ping") || is_name(option, "beacon") {
        Ok(NetworkFilterOption::Ping(!negation))
    } else if is_name(option, "script") {
        Ok(NetworkFilterOption::Script(!negation))
    } else if is_name(option, "stylesheet") || is_name(option, "css") {
        Ok(NetworkFilterOption::Stylesheet(!negation))
    } else if is_name(option, "subdocument") || is_name(option, "frame") {
        Ok(NetworkFilterOption::Subdocument(!negation))
    } else if is_name(option, "xmlhttprequest") || is_name(option, "xhr") {
        Ok(NetworkFilterOption::XmlHttpRequest(!negation))
    } else if is_name(option, "websocket") {
        Ok(NetworkFilterOption::Websocket(!negation))
    } else if is_name(option, "font") {
        Ok(NetworkFilterOption::Font(!negation))
    } else {
        Err(NetworkFilterError::UnrecognisedOption)
    }
}

/// Parses the comma-separated options that follow `$` in a network filter.
pub fn parse_filter_options(raw_options: &[char]) -> (r: Result<
    Vec<NetworkFilterOption>,
    NetworkFilterError,
>)
    ensures
        match r {
            Ok(v) => spec_parse_filter_options(raw_options@) == Ok::<
                Seq<OptionModel>,
                NetworkFilterError,
            >(v@.map_values(|o: NetworkFilterOption| o@)),
            Err(e) => spec_parse_filter_options(raw_options@) == Err::<
                Seq<OptionModel>,
                NetworkFilterError,
            >(e),
        },
{
    let pieces = split_chars(raw_options, ',');
    let mut result: Vec<NetworkFilterOption> = Vec::new();
    let mut i: usize = 0;
    proof {
        assert(result@.map_values(|o: NetworkFilterOption| o@) =~= Seq::<OptionModel>::empty());
    }
    while i < pieces.len()
        invariant
            i <= pieces@.len(),
            pieces.deep_view() == spec_split(raw_options@, ','),
            options_from(pieces.deep_view(), i as int) == Ok::<
                Seq<OptionModel>,
                NetworkFilterError,
            >(result@.map_values(|o: NetworkFilterOption| o@)),
        decreases pieces.len() - i,
    {
        proof {
            assert(pieces.deep_view()[i as int] == pieces@[i as int]@);
        }
        match parse_one_option(pieces[i].as_slice()) {
            Err(e) => {
                proof {
                    let n = pieces@.len() as int;
                    lemma_options_from_err(pieces.deep_view(), i + 1, n, e);
                }
                return Err(e);
            },
            Ok(o) => {
                let ghost before = result@.map_values(|o: NetworkFilterOption| o@);
                result.push(o);
                proof {
                    assert(result@.map_values(|o: NetworkFilterOption| o@) =~= before.push(o@));
                }
            },
        }
        i += 1;
    }
    Ok(result)
}

proof fn lemma_options_from_err(pieces: Seq<Seq<char>>, k: int, n: int, e: NetworkFilterError)
    requires
        1 <= k <= n,
        options_from(pieces, k) == Err::<Seq<OptionModel>, NetworkFilterError>(e),
    ensures
        options_from(pieces, n) == Err::<Seq<OptionModel>, NetworkFilterError>(e),
    decreases n - k,
{
    if k < n {
        lemma_options_from_err(pieces, k + 1, n, e);
    }
}

/// Counts used when checking option combinations: whether `$csp` and a content type were seen,
/// and how many modifier options (`$csp`, redirections, `$removeparam`) there are.
pub open spec fn validate_state(opts: Seq<OptionModel>, n: int) -> (bool, bool, int)
    decreases n,
{
    if n <= 0 {
        (false, false, 0)
    } else {
        let (csp, ct, m) = validate_state(opts, n - 1);
        let o = opts[n - 1];
        if o is Csp {
            (true, ct, m + 1)
        } else if spec_is_content_type(o) {
            (csp, true, m)
        } else if spec_is_redirection(o) || o is Removeparam {
            (csp, ct, m + 1)
        } else {
            (csp, ct, m)
        }
    }
}

/// Refuses `$csp` together with a content type, and more than one modifier option.
pub open spec fn spec_validate_options(opts: Seq<OptionModel>) -> Result<(), NetworkFilterError> {
    let (csp, ct, m) = validate_state(opts, opts.len() as int);
    if csp && ct {
        Err(NetworkFilterError::CspWithContentType)
    } else if m > 1 {
        Err(NetworkFilterError::MultipleModifierOptions)
    } else {
        Ok(())
    }
}

proof fn lemma_validate_state_bound(opts: Seq<OptionModel>, n: int)
    requires
        0 <= n,
    ensures
        0 <= validate_state(opts, n).2 <= n,
    decreases n,
{
    if n > 0 {
        lemma_validate_state_bound(opts, n - 1);
    }
}

/// Ensures that no invalid option combinations were provided for a filter.
pub fn validate_options(options: &[NetworkFilterOption]) -> (r: Result<(), NetworkFilterError>)
    ensures
        r == spec_validate_options(options@.map_values(|o: NetworkFilterOption| o@)),
{
    let ghost opts = options@.map_values(|o: NetworkFilterOption| o@);
    let mut has_csp = false;
    let mut has_content_type = false;
    let mut modifier_options: usize = 0;
    let mut i: usize = 0;
    while i < options.len()
        invariant
            i <= options@.len(),
            opts == options@.map_values(|o: NetworkFilterOption| o@),
            (has_csp, has_content_type, modifier_options as int) == validate_state(opts, i as int),
        decreases options.len() - i,
    {
        proof {
            lemma_validate_state_bound(opts, i as int);
        }
        let option = &options[i];
        if matches!(option, NetworkFilterOption::Csp(..)) {
            has_csp = true;
            modifier_options += 1;
        } else if option.is_content_type() {
            has_content_type = true;
        } else if option.is_redirection() || matches!(option, NetworkFilterOption::Removeparam(..)) {
            modifier_options += 1;
        }
        i += 1;
    }
    if has_csp && has_content_type {
        return Err(NetworkFilterError::CspWithContentType);
    }
    if modifier_options > 1 {
        return Err(NetworkFilterError::MultipleModifierOptions);
    }
    Ok(())
}

/// Abstract value of a `FilterPart`.
pub ghost enum FilterPartView {
    Empty,
    Simple(Seq<char>),
    AnyOf(Seq<Seq<char>>),
}

impl View for FilterPart {
    type V = FilterPartView;

    open spec fn view(&self) -> FilterPartView {
        match self {
            FilterPart::Empty => FilterPartView::Empty,
            FilterPart::Simple(s) => FilterPartView::Simple(s@),
            FilterPart::AnyOf(v) => FilterPartView::AnyOf(v.deep_view()),
        }
    }
}

impl FilterPart {
    /// A copy of this pattern.
    pub fn duplicate(&self) -> (r: FilterPart)
        ensures
            r@ == self@,
    {
        match self {
            FilterPart::Empty => FilterPart::Empty,
            FilterPart::Simple(s) => FilterPart::Simple(s.clone()),
            FilterPart::AnyOf(v) => {
                let mut c: Vec<String> = Vec::new();
                let mut i: usize = 0;
                while i < v.len()
                    invariant
                        i <= v@.len(),
                        c.deep_view() == v.deep_view().take(i as int),
                    decreases v.len() - i,
                {
                    let x = v[i].clone();
                    proof {
                        assert(x@ == v.deep_view()[i as int]);
                    }
                    let ghost before = c.deep_view();
                    c.push(x);
                    proof {
                        assert(c.deep_view() =~= before.push(x@));
                        assert(v.deep_view().take(i + 1) =~= v.deep_view().take(i as int).push(
                            v.deep_view()[i as int],
                        ));
                    }
                    i += 1;
                }
                proof {
                    assert(v.deep_view().take(v@.len() as int) =~= v.deep_view());
                }
                FilterPart::AnyOf(c)
            },
        }
    }
}

/// A parsed network filter rule.
#[derive(Debug)]
pub struct NetworkFilter {
    pub mask: NetworkFilterMask,
    pub filter: FilterPart,
    /// Sorted hashes of the domains of `$domain=`.
    pub opt_domains: Option<Vec<u64>>,
    /// Sorted hashes of the negated domains of `$domain=`.
    pub opt_not_domains: Option<Vec<u64>>,
    /// Value of `$redirect`, `$redirect-rule`, `$csp` or `$removeparam`; one per rule.
    pub modifier_option: Option<String>,
    pub hostname: Option<String>,
    pub tag: Option<String>,
    pub raw_line: Option<String>,
    pub id: u64,
    /// All hashes of `opt_domains` OR'ed together, to dismiss mismatches quickly.
    pub opt_domains_union: Option<u64>,
    /// All hashes of `opt_not_domains` OR'ed together.
    pub opt_not_domains_union: Option<u64>,
}

/// Abstract value of a `NetworkFilter`.
pub ghost struct NetworkFilterView {
    pub mask: u32,
    pub filter: FilterPartView,
    pub opt_domains: Option<Seq<u64>>,
    pub opt_not_domains: Option<Seq<u64>>,
    pub modifier_option: Option<Seq<char>>,
    pub hostname: Option<Seq<char>>,
    pub tag: Option<Seq<char>>,
    pub raw_line: Option<Seq<char>>,
    pub id: u64,
    pub opt_domains_union: Option<u64>,
    pub opt_not_domains_union: Option<u64>,
}

impl View for NetworkFilter {
    type V = NetworkFilterView;

    open spec fn view(&self) -> NetworkFilterView {
        NetworkFilterView {
            mask: self.mask.bits,
            filter: self.filter@,
            opt_domains: self.opt_domains.deep_view(),
            opt_not_domains: self.opt_not_domains.deep_view(),
            modifier_option: self.modifier_option.deep_view(),
            hostname: self.hostname.deep_view(),
            tag: self.tag.deep_view(),
            raw_line: self.raw_line.deep_view(),
            id: self.id,
            opt_domains_union: self.opt_domains_union,
            opt_not_domains_union: self.opt_not_domains_union,
        }
    }
}

/// Copy of an optional string.
pub fn clone_opt_string(s: &Option<String>) -> (r: Option<String>)
    ensures
        r.deep_view() == s.deep_view(),
{
    match s {
        Some(x) => Some(x.clone()),
        None => None,
    }
}

/// Copy of an optional list of hashes.
pub fn clone_opt_hashes(s: &Option<Vec<u64>>) -> (r: Option<Vec<u64>>)
    ensures
        r.deep_view() == s.deep_view(),
{
    match s {
        Some(x) => {
            let c = x.clone();
            proof {
                assert(c.deep_view() =~= x.deep_view());
            }
            Some(c)
        },
        None => None,
    }
}

impl NetworkFilter {
    /// The text of the filter: its rule, or `NetworkFilter` when the rule was not kept.
    pub fn to_string(&self) -> (r: String)
        ensures
            r@ == (match self@.raw_line {
                Some(raw) => raw,
                None => "NetworkFilter"@,
            }),
    {
        match &self.raw_line {
            Some(r) => r.clone(),
            None => "NetworkFilter".to_owned(),
        }
    }
}

impl Clone for NetworkFilter {
    fn clone(&self) -> (r: Self)
        ensures
            r@ == self@,
    {
        NetworkFilter {
            mask: self.mask,
            filter: self.filter.duplicate(),
            opt_domains: clone_opt_hashes(&self.opt_domains),
            opt_not_domains: clone_opt_hashes(&self.opt_not_domains),
            modifier_option: clone_opt_string(&self.modifier_option),
            hostname: clone_opt_string(&self.hostname),
            tag: clone_opt_string(&self.tag),
            raw_line: clone_opt_string(&self.raw_line),
            id: self.id,
            opt_domains_union: self.opt_domains_union,
            opt_not_domains_union: self.opt_not_domains_union,
        }
    }
}

/// Start anchor of a network filter pattern.
#[derive(Clone, Copy, Debug, PartialEq, Eq, Structural)]
pub enum NetworkFilterLeftAnchor {
    /// `||`: matches the start of a domain or subdomain label.
    DoublePipe,
    /// `|`: matches the exact start of the URL.
    SinglePipe,
}

/// Abstract syntax of a network filter: exception marker, anchors, pattern and options.
pub struct AbstractNetworkFilter {
    pub exception: bool,
    pub left_anchor: Option<NetworkFilterLeftAnchor>,
    pub pattern: Vec<char>,
    pub right_anchor: bool,
    pub options: Option<Vec<NetworkFilterOption>>,
}

/// Abstract value of an `AbstractNetworkFilter`.
pub ghost struct AbstractView {
    pub exception: bool,
    pub left_anchor: Option<NetworkFilterLeftAnchor>,
    pub pattern: Seq<char>,
    pub right_anchor: bool,
    pub options: Option<Seq<OptionModel>>,
}

impl View for AbstractNetworkFilter {
    type V = AbstractView;

    open spec fn view(&self) -> AbstractView {
        AbstractView {
            exception: self.exception,
            left_anchor: self.left_anchor,
            pattern: self.pattern@,
            right_anchor: self.right_anchor,
            options: match self.options {
                Some(v) => Some(v@.map_values(|o: NetworkFilterOption| o@)),
                None => None,
            },
        }
    }
}

/// Index of the last `c` in `s`, if any.
pub open spec fn spec_rindex_of(s: Seq<char>, c: char) -> Option<int> {
    if s.contains(c) {
        Some(choose|i: int| 0 <= i < s.len() && s[i] == c && forall|j: int| i < j < s.len() ==> s[j] != c)
    } else {
        None
    }
}

/// Index of the last `c` in `s` (`memrchr`).
pub fn rindex_of(s: &[char], c: char) -> (r: Option<usize>)
    ensures
        match r {
            Some(i) => spec_rindex_of(s@, c) == Some(i as int) && i < s@.len() && s@[i as int] == c,
            None => spec_rindex_of(s@, c) is None,
        },
{
    let r = rfind_char_before(s, c, s.len());
    proof {
        match r {
            Some(i) => {
                assert(s@.contains(c)) by {
                    assert(s@[i as int] == c);
                }
                let k = choose|k: int|
                    0 <= k < s@.len() && s@[k] == c && forall|j: int| k < j < s@.len() ==> s@[j]
                        != c;
                assert(k == i) by {
                    if k < i {
                        assert(s@[i as int] != c);
                    }
                    if i < k {
                        assert(s@[k] != c);
                    }
                }
            },
            None => {
                assert(!s@.contains(c));
            },
        }
    }
    r
}

/// `line` at `i` and `i + 1` holds `||`.
pub open spec fn double_pipe_at(line: Seq<char>, i: int) -> bool {
    0 <= i && i + 1 < line.len() && line[i] == '|' && line[i + 1] == '|'
}

/// Abstract syntax of a network filter line.
pub open spec fn spec_abstract_parse(line: Seq<char>) -> Result<AbstractView, NetworkFilterError> {
    let exception = line.len() >= 2 && line[0] == '@' && line[1] == '@';
    let start0: int = if exception {
        2
    } else {
        0
    };
    let (end0, options) = spec_options_part(line);
    if let Some(Err(e)) = options {
        Err(e)
    } else {
        let (left, start) = if double_pipe_at(line, start0) {
            (Some(NetworkFilterLeftAnchor::DoublePipe), start0 + 2)
        } else if start0 < line.len() && line[start0] == '|' {
            (Some(NetworkFilterLeftAnchor::SinglePipe), start0 + 1)
        } else {
            (None, start0)
        };
        let right = end0 > 0 && end0 > start && line[end0 - 1] == '|';
        let end = if right {
            end0 - 1
        } else {
            end0
        };
        Ok(
            AbstractView {
                exception,
                left_anchor: left,
                pattern: line.subrange(start, end),
                right_anchor: right,
                options: match options {
                    Some(Ok(o)) => Some(o),
                    _ => None,
                },
            },
        )
    }
}

/// End of the pattern part and parsed options of a filter line: the options follow the last `$`.
pub open spec fn spec_options_part(line: Seq<char>) -> (int, Option<
    Result<Seq<OptionModel>, NetworkFilterError>,
>) {
    match spec_rindex_of(line, '$') {
        Some(d) => (d, Some(spec_parse_filter_options(line.subrange(d + 1, line.len() as int)))),
        None => (line.len() as int, None),
    }
}

/// Splits off and parses the options that follow the last `$` of a filter line.
fn parse_options_part(line: &[char]) -> (r: Result<(usize, Option<Vec<NetworkFilterOption>>), NetworkFilterError>)
    ensures
        match r {
            Ok((end, opts)) => {
                &&& end <= line@.len()
                &&& (end < line@.len() ==> line@[end as int] == '$')
                &&& spec_options_part(line@).0 == end as int
                &&& match opts {
                    Some(o) => spec_options_part(line@).1 == Some(
                        Ok::<Seq<OptionModel>, NetworkFilterError>(
                            o@.map_values(|x: NetworkFilterOption| x@),
                        ),
                    ),
                    None => spec_options_part(line@).1 is None,
                }
            },
            Err(e) => spec_options_part(line@).1 == Some(
                Err::<Seq<OptionModel>, NetworkFilterError>(e),
            ),
        },
{
    match rindex_of(line, '$') {
        Some(d) => {
            assert(d < line.len());
            let raw = sub_chars(line, d + 1, line.len());
            match parse_filter_options(raw.as_slice()) {
                Ok(o) => Ok((d, Some(o))),
                Err(e) => Err(e),
            }
        },
        None => Ok((line.len(), None)),
    }
}

impl AbstractNetworkFilter {
    /// Splits a network filter line into its exception marker, anchors, pattern and options.
    pub fn parse(line: &[char]) -> (r: Result<AbstractNetworkFilter, NetworkFilterError>)
        ensures
            match r {
                Ok(a) => spec_abstract_parse(line@) == Ok::<AbstractView, NetworkFilterError>(a@),
                Err(e) => spec_abstract_parse(line@) == Err::<AbstractView, NetworkFilterError>(e),
            },
    {
        let mut start: usize = 0;
        let exception = line.len() >= 2 && line[0] == '@' && line[1] == '@';
        if exception {
            start = 2;
        }
        let (mut end, options) = match parse_options_part(line) {
            Ok(p) => p,
            Err(e) => {
                return Err(e);
            },
        };
        proof {
            if exception && end < line@.len() {
                assert(end >= 2) by {
                    if end < 2 {
                        assert(line@[end as int] == '$');
                    }
                }
            }
        }
        let left_anchor = if start + 1 < line.len() && line[start] == '|' && line[start + 1]
            == '|' {
            proof {
                if end < line@.len() {
                    assert(end >= start + 2) by {
                        if end < start + 2 {
                            assert(line@[end as int] == '$');
                        }
                    }
                }
            }
            start += 2;
            Some(NetworkFilterLeftAnchor::DoublePipe)
        } else if start < line.len() && line[start] == '|' {
            proof {
                if end < line@.len() {
                    assert(end >= start + 1) by {
                        if end < start + 1 {
                            assert(line@[end as int] == '$');
                        }
                    }
                }
            }
            start += 1;
            Some(NetworkFilterLeftAnchor::SinglePipe)
        } else {
            None
        };
        let right_anchor = end > 0 && end > start && line[end - 1] == '|';
        if right_anchor {
            end -= 1;
        }
        let pattern = sub_chars(line, start, end);
        Ok(AbstractNetworkFilter { exception, left_anchor, pattern, right_anchor, options })
    }
}

/// The first `n` domain entries without repetitions, in order of first appearance.
pub open spec fn dedup_entries(d: Seq<(bool, Seq<char>)>, n: int) -> Seq<(bool, Seq<char>)>
    decreases n,
{
    if n <= 0 {
        Seq::empty()
    } else {
        let acc = dedup_entries(d, n - 1);
        if acc.contains(d[n - 1]) {
            acc
        } else {
            acc.push(d[n - 1])
        }
    }
}

/// Hashes of the names of the first `n` entries whose flag is `enabled`.
pub open spec fn entry_hashes(d: Seq<(bool, Seq<char>)>, enabled: bool, n: int) -> Seq<u64>
    decreases n,
{
    if n <= 0 {
        Seq::empty()
    } else {
        let acc = entry_hashes(d, enabled, n - 1);
        if d[n - 1].0 == enabled {
            acc.push(spec_fast_hash(d[n - 1].1))
        } else {
            acc
        }
    }
}

/// The first `n` hashes OR'ed together.
pub open spec fn or_fold(s: Seq<u64>, n: int) -> u64
    decreases n,
{
    if n <= 0 {
        0
    } else {
        or_fold(s, n - 1) | s[n - 1]
    }
}

/// All hashes of `s` OR'ed together.
pub open spec fn hash_union(s: Seq<u64>) -> u64 {
    or_fold(s, s.len() as int)
}

/// Hashes of the distinct included (`enabled`) or excluded domains of a `$domain=` option.
pub open spec fn spec_domain_hashes(d: Seq<(bool, Seq<char>)>, enabled: bool) -> Seq<u64> {
    let dd = dedup_entries(d, d.len() as int);
    entry_hashes(dd, enabled, dd.len() as int)
}

/// `v` is `s` in sorted order.
pub open spec fn sorted_version_of(v: Seq<u64>, s: Seq<u64>) -> bool {
    is_sorted(v) && v.to_multiset() == s.to_multiset()
}

/// A list has one sorted version.
pub proof fn lemma_sorted_version_unique(a: Seq<u64>, b: Seq<u64>, s: Seq<u64>)
    requires
        sorted_version_of(a, s),
        sorted_version_of(b, s),
    ensures
        a == b,
{
    let leq = |x: u64, y: u64| x <= y;
    assert(vstd::relations::total_ordering(leq)) by {
        assert(vstd::relations::reflexive(leq));
        assert(vstd::relations::antisymmetric(leq));
        assert(vstd::relations::transitive(leq));
        assert(vstd::relations::strongly_connected(leq));
    }
    assert(vstd::relations::sorted_by(a, leq)) by {
        assert forall|i: int, j: int| 0 <= i < j < a.len() implies #[trigger] leq(a[i], a[j]) by {}
    }
    assert(vstd::relations::sorted_by(b, leq)) by {
        assert forall|i: int, j: int| 0 <= i < j < b.len() implies #[trigger] leq(b[i], b[j]) by {}
    }
    vstd::seq_lib::lemma_sorted_unique(a, b, leq);
}

/// A parse result is realized by one filter view only.
pub proof fn lemma_realizes_unique(v1: NetworkFilterView, v2: NetworkFilterView, m: NetworkFilterView)
    requires
        realizes(v1, m),
        realizes(v2, m),
    ensures
        v1 == v2,
{
    if let (Some(a), Some(b), Some(c)) = (v1.opt_domains, v2.opt_domains, m.opt_domains) {
        lemma_sorted_version_unique(a, b, c);
    }
    if let (Some(a), Some(b), Some(c)) = (v1.opt_not_domains, v2.opt_not_domains, m.opt_not_domains) {
        lemma_sorted_version_unique(a, b, c);
    }
}

/// An optional sorted list holds the sorted hashes of an optional list.
pub open spec fn opt_sorted_version_of(v: Option<Seq<u64>>, s: Option<Seq<u64>>) -> bool {
    match (v, s) {
        (Some(a), Some(b)) => sorted_version_of(a, b),
        (None, None) => true,
        _ => false,
    }
}

/// Whether `(enabled, name)` already occurs in `seen`.
fn entry_seen(seen: &Vec<(bool, Vec<char>)>, enabled: bool, name: &Vec<char>) -> (r: bool)
    ensures
        r == seen.deep_view().contains((enabled, name@)),
{
    let mut i: usize = 0;
    while i < seen.len()
        invariant
            i <= seen@.len(),
            forall|j: int| 0 <= j < i ==> seen.deep_view()[j] != (enabled, name@),
        decreases seen.len() - i,
    {
        proof {
            assert(seen@[i as int].1.deep_view() =~= seen@[i as int].1@);
            assert(seen.deep_view()[i as int] == (seen@[i as int].0, seen@[i as int].1@));
        }
        if seen[i].0 == enabled && chars_eq(seen[i].1.as_slice(), name.as_slice()) {
            proof {
                assert(seen.deep_view()[i as int] == (enabled, name@));
            }
            return true;
        }
        i += 1;
    }
    false
}

/// Sorted hashes of the distinct included and excluded domains of a `$domain=` option, with
/// their unions.
fn domain_hash_lists(d: &Vec<(bool, String)>) -> (r: (Vec<u64>, Vec<u64>, u64, u64))
    ensures
        sorted_version_of(r.0@, spec_domain_hashes(d.deep_view(), true)),
        sorted_version_of(r.1@, spec_domain_hashes(d.deep_view(), false)),
        r.2 == hash_union(spec_domain_hashes(d.deep_view(), true)),
        r.3 == hash_union(spec_domain_hashes(d.deep_view(), false)),
        r.0@.len() == spec_domain_hashes(d.deep_view(), true).len(),
        r.1@.len() == spec_domain_hashes(d.deep_view(), false).len(),
{
    let ghost dv = d.deep_view();
    let mut seen: Vec<(bool, Vec<char>)> = Vec::new();
    let mut i: usize = 0;
    while i < d.len()
        invariant
            i <= d@.len(),
            dv == d.deep_view(),
            seen.deep_view() == dedup_entries(dv, i as int),
        decreases d.len() - i,
    {
        let name = str_to_chars(d[i].1.as_str());
        let enabled = d[i].0;
        proof {
            assert(dv[i as int] == (enabled, name@));
        }
        if !entry_seen(&seen, enabled, &name) {
            let ghost before = seen.deep_view();
            proof {
                assert(name.deep_view() =~= name@);
            }
            seen.push((enabled, name));
            proof {
                assert(seen.deep_view() =~= before.push((enabled, name@)));
            }
        }
        i += 1;
    }
    let ghost dd = seen.deep_view();
    let mut inc: Vec<u64> = Vec::new();
    let mut exc: Vec<u64> = Vec::new();
    let mut inc_union: u64 = 0;
    let mut exc_union: u64 = 0;
    let mut j: usize = 0;
    while j < seen.len()
        invariant
            j <= seen@.len(),
            dd == seen.deep_view(),
            inc@ == entry_hashes(dd, true, j as int),
            exc@ == entry_hashes(dd, false, j as int),
            inc_union == or_fold(inc@, inc@.len() as int),
            exc_union == or_fold(exc@, exc@.len() as int),
        decreases seen.len() - j,
    {
        proof {
            assert(seen@[j as int].1.deep_view() =~= seen@[j as int].1@);
            assert(dd[j as int] == (seen@[j as int].0, seen@[j as int].1@));
        }
        let h = hash_chars(seen[j].1.as_slice());
        if seen[j].0 {
            let ghost before = inc@;
            inc.push(h);
            inc_union = inc_union | h;
            proof {
                assert(inc@.take(before.len() as int) =~= before);
                lemma_or_fold_take(inc@, before.len() as int, before.len() as int);
            }
        } else {
            let ghost before = exc@;
            exc.push(h);
            exc_union = exc_union | h;
            proof {
                assert(exc@.take(before.len() as int) =~= before);
                lemma_or_fold_take(exc@, before.len() as int, before.len() as int);
            }
        }
        j += 1;
    }
    let ghost inc0 = inc@;
    let ghost exc0 = exc@;
    sort_hashes(&mut inc);
    sort_hashes(&mut exc);
    proof {
        vstd::seq_lib::to_multiset_len(inc@);
        vstd::seq_lib::to_multiset_len(inc0);
        vstd::seq_lib::to_multiset_len(exc@);
        vstd::seq_lib::to_multiset_len(exc0);
    }
    (inc, exc, inc_union, exc_union)
}

proof fn lemma_or_fold_take(s: Seq<u64>, k: int, n: int)
    requires
        0 <= n <= k <= s.len(),
    ensures
        or_fold(s.take(k), n) == or_fold(s, n),
    decreases n,
{
    if n > 0 {
        lemma_or_fold_take(s, k, n - 1);
    }
}

/// What the options of a filter have set so far while it is parsed.
pub ghost struct OptState {
    pub mask: u32,
    pub cpt_pos: u32,
    pub cpt_neg: u32,
    pub opt_domains: Option<Seq<u64>>,
    pub opt_not_domains: Option<Seq<u64>>,
    pub opt_domains_union: Option<u64>,
    pub opt_not_domains_union: Option<u64>,
    pub modifier: Option<Seq<char>>,
    pub tag: Option<Seq<char>>,
}

/// `st` with another mask.
pub open spec fn st_mask(st: OptState, mask: u32) -> OptState {
    OptState {
        mask,
        cpt_pos: st.cpt_pos,
        cpt_neg: st.cpt_neg,
        opt_domains: st.opt_domains,
        opt_not_domains: st.opt_not_domains,
        opt_domains_union: st.opt_domains_union,
        opt_not_domains_union: st.opt_not_domains_union,
        modifier: st.modifier,
        tag: st.tag,
    }
}

/// `st` with another mask and modifier value.
pub open spec fn st_modifier(st: OptState, mask: u32, modifier: Option<Seq<char>>) -> OptState {
    OptState {
        mask,
        cpt_pos: st.cpt_pos,
        cpt_neg: st.cpt_neg,
        opt_domains: st.opt_domains,
        opt_not_domains: st.opt_not_domains,
        opt_domains_union: st.opt_domains_union,
        opt_not_domains_union: st.opt_not_domains_union,
        modifier,
        tag: st.tag,
    }
}

/// `st` after a content type option for `flag`, enabled or negated.
pub open spec fn st_content_type(st: OptState, flag: u32, enabled: bool) -> OptState {
    OptState {
        mask: st.mask,
        cpt_pos: if enabled {
            st.cpt_pos | flag
        } else {
            st.cpt_pos
        },
        cpt_neg: if enabled {
            st.cpt_neg
        } else {
            st.cpt_neg | flag
        },
        opt_domains: st.opt_domains,
        opt_not_domains: st.opt_not_domains,
        opt_domains_union: st.opt_domains_union,
        opt_not_domains_union: st.opt_not_domains_union,
        modifier: st.modifier,
        tag: st.tag,
    }
}

/// Effect of one option on the parse state.
pub open spec fn apply_option(st: OptState, o: OptionModel) -> OptState {
    match o {
        OptionModel::Domain(d) => {
            let inc = spec_domain_hashes(d, true);
            let exc = spec_domain_hashes(d, false);
            OptState {
                mask: st.mask,
                cpt_pos: st.cpt_pos,
                cpt_neg: st.cpt_neg,
                opt_domains: if inc.len() > 0 {
                    Some(inc)
                } else {
                    st.opt_domains
                },
                opt_not_domains: if exc.len() > 0 {
                    Some(exc)
                } else {
                    st.opt_not_domains
                },
                opt_domains_union: if inc.len() > 0 {
                    Some(hash_union(inc))
                } else {
                    st.opt_domains_union
                },
                opt_not_domains_union: if exc.len() > 0 {
                    Some(hash_union(exc))
                } else {
                    st.opt_not_domains_union
                },
                modifier: st.modifier,
                tag: st.tag,
            }
        },
        OptionModel::Badfilter => st_mask(st, st.mask | BAD_FILTER),
        OptionModel::Important => st_mask(st, st.mask | IS_IMPORTANT),
        OptionModel::MatchCase => st_mask(st, st.mask | MATCH_CASE),
        OptionModel::ThirdParty(b) => if b {
            st_mask(st, st.mask & !FIRST_PARTY)
        } else {
            st_mask(st, st.mask & !THIRD_PARTY)
        },
        OptionModel::FirstParty(b) => if b {
            st_mask(st, st.mask & !THIRD_PARTY)
        } else {
            st_mask(st, st.mask & !FIRST_PARTY)
        },
        OptionModel::Tag(v) => OptState {
            mask: st.mask,
            cpt_pos: st.cpt_pos,
            cpt_neg: st.cpt_neg,
            opt_domains: st.opt_domains,
            opt_not_domains: st.opt_not_domains,
            opt_domains_union: st.opt_domains_union,
            opt_not_domains_union: st.opt_not_domains_union,
            modifier: st.modifier,
            tag: Some(v),
        },
        OptionModel::Redirect(v) => st_modifier(
            st,
            st.mask | IS_REDIRECT | ALSO_BLOCK_REDIRECT,
            Some(v),
        ),
        OptionModel::RedirectRule(v) => st_modifier(st, st.mask | IS_REDIRECT, Some(v)),
        OptionModel::Removeparam(v) => st_modifier(st, st.mask | IS_REMOVEPARAM, Some(v)),
        OptionModel::Csp(v) => st_modifier(st, st.mask | IS_CSP | FROM_DOCUMENT, v),
        OptionModel::Generichide => st_mask(st, st.mask | GENERIC_HIDE),
        OptionModel::Document => st_content_type(st, FROM_DOCUMENT, true),
        OptionModel::Image(b) => st_content_type(st, FROM_IMAGE, b),
        OptionModel::Media(b) => st_content_type(st, FROM_MEDIA, b),
        OptionModel::Object(b) => st_content_type(st, FROM_OBJECT, b),
        OptionModel::Other(b) => st_content_type(st, FROM_OTHER, b),
        OptionModel::Ping(b) => st_content_type(st, FROM_PING, b),
        OptionModel::Script(b) => st_content_type(st, FROM_SCRIPT, b),
        OptionModel::Stylesheet(b) => st_content_type(st, FROM_STYLESHEET, b),
        OptionModel::Subdocument(b) => st_content_type(st, FROM_SUBDOCUMENT, b),
        OptionModel::XmlHttpRequest(b) => st_content_type(st, FROM_XMLHTTPREQUEST, b),
        OptionModel::Websocket(b) => st_content_type(st, FROM_WEBSOCKET, b),
        OptionModel::Font(b) => st_content_type(st, FROM_FONT, b),
    }
}

/// Parse state after the first `n` options.
pub open spec fn apply_options(st: OptState, opts: Seq<OptionModel>, n: int) -> OptState
    decreases n,
{
    if n <= 0 {
        st
    } else {
        apply_option(apply_options(st, opts, n - 1), opts[n - 1])
    }
}

proof fn lemma_option_bits_keep_party(m: u32)
    by (bit_vector)
    ensures
        (m | BAD_FILTER) & THIRD_PARTY == m & THIRD_PARTY,
        (m | BAD_FILTER) & FIRST_PARTY == m & FIRST_PARTY,
        (m | IS_IMPORTANT) & THIRD_PARTY == m & THIRD_PARTY,
        (m | IS_IMPORTANT) & FIRST_PARTY == m & FIRST_PARTY,
        (m | MATCH_CASE) & THIRD_PARTY == m & THIRD_PARTY,
        (m | MATCH_CASE) & FIRST_PARTY == m & FIRST_PARTY,
        (m | IS_REDIRECT | ALSO_BLOCK_REDIRECT) & THIRD_PARTY == m & THIRD_PARTY,
        (m | IS_REDIRECT | ALSO_BLOCK_REDIRECT) & FIRST_PARTY == m & FIRST_PARTY,
        (m | IS_REDIRECT) & THIRD_PARTY == m & THIRD_PARTY,
        (m | IS_REDIRECT) & FIRST_PARTY == m & FIRST_PARTY,
        (m | IS_REMOVEPARAM) & THIRD_PARTY == m & THIRD_PARTY,
        (m | IS_REMOVEPARAM) & FIRST_PARTY == m & FIRST_PARTY,
        (m | IS_CSP | FROM_DOCUMENT) & THIRD_PARTY == m & THIRD_PARTY,
        (m | IS_CSP | FROM_DOCUMENT) & FIRST_PARTY == m & FIRST_PARTY,
        (m | GENERIC_HIDE) & THIRD_PARTY == m & THIRD_PARTY,
        (m | GENERIC_HIDE) & FIRST_PARTY == m & FIRST_PARTY,
        (m & !FIRST_PARTY) & THIRD_PARTY == m & THIRD_PARTY,
        (m & !THIRD_PARTY) & FIRST_PARTY == m & FIRST_PARTY,
        (m & !FIRST_PARTY) & FIRST_PARTY != FIRST_PARTY,
        (m & !THIRD_PARTY) & THIRD_PARTY != THIRD_PARTY,
{
}

/// The party options: `$first-party` (`$1p`) acts as `$~third-party` and `$~first-party` as
/// `$third-party`. Allowing one party only removes the other party's bit and keeps the bit of
/// the allowed party as it was.
pub proof fn law_party_options(st: OptState, b: bool)
    ensures
        apply_option(st, OptionModel::FirstParty(b)) == apply_option(st, OptionModel::ThirdParty(!b)),
        !has_flag(apply_option(st, OptionModel::FirstParty(true)).mask, THIRD_PARTY),
        has_flag(apply_option(st, OptionModel::FirstParty(true)).mask, FIRST_PARTY) == has_flag(
            st.mask,
            FIRST_PARTY,
        ),
        !has_flag(apply_option(st, OptionModel::ThirdParty(true)).mask, FIRST_PARTY),
        has_flag(apply_option(st, OptionModel::ThirdParty(true)).mask, THIRD_PARTY) == has_flag(
            st.mask,
            THIRD_PARTY,
        ),
{
    lemma_option_bits_keep_party(st.mask);
}

/// No option brings back a party bit that is clear.
proof fn lemma_option_keeps_clear_party(st: OptState, o: OptionModel)
    ensures
        !has_flag(st.mask, THIRD_PARTY) ==> !has_flag(apply_option(st, o).mask, THIRD_PARTY),
        !has_flag(st.mask, FIRST_PARTY) ==> !has_flag(apply_option(st, o).mask, FIRST_PARTY),
{
    lemma_option_bits_keep_party(st.mask);
}

/// Once `$first-party` (or `$~third-party`) is among the options, the options leave the
/// third-party bit clear; once `$third-party` (or `$~first-party`) is, the first-party bit.
pub proof fn law_party_option_sticks(st: OptState, opts: Seq<OptionModel>, n: int, k: int)
    requires
        0 <= k < n <= opts.len(),
    ensures
        (opts[k] == OptionModel::FirstParty(true) || opts[k] == OptionModel::ThirdParty(false))
            ==> !has_flag(apply_options(st, opts, n).mask, THIRD_PARTY),
        (opts[k] == OptionModel::ThirdParty(true) || opts[k] == OptionModel::FirstParty(false))
            ==> !has_flag(apply_options(st, opts, n).mask, FIRST_PARTY),
    decreases n,
{
    let prev = apply_options(st, opts, n - 1);
    if k == n - 1 {
        law_party_options(prev, true);
        law_party_options(prev, false);
        lemma_option_bits_keep_party(prev.mask);
    } else {
        law_party_option_sticks(st, opts, n - 1, k);
        lemma_option_keeps_clear_party(prev, opts[n - 1]);
    }
}

/// Parse state of a filter while its options are applied.
pub struct ParseAcc {
    pub mask: NetworkFilterMask,
    pub cpt_pos: u32,
    pub cpt_neg: u32,
    pub opt_domains: Option<Vec<u64>>,
    pub opt_not_domains: Option<Vec<u64>>,
    pub opt_domains_union: Option<u64>,
    pub opt_not_domains_union: Option<u64>,
    pub modifier: Option<String>,
    pub tag: Option<String>,
}

/// `acc` holds the state `st` (domain lists sorted).
pub open spec fn acc_holds(acc: ParseAcc, st: OptState) -> bool {
    &&& acc.mask.bits == st.mask
    &&& acc.cpt_pos == st.cpt_pos
    &&& acc.cpt_neg == st.cpt_neg
    &&& opt_sorted_version_of(acc.opt_domains.deep_view(), st.opt_domains)
    &&& opt_sorted_version_of(acc.opt_not_domains.deep_view(), st.opt_not_domains)
    &&& acc.opt_domains_union == st.opt_domains_union
    &&& acc.opt_not_domains_union == st.opt_not_domains_union
    &&& acc.modifier.deep_view() == st.modifier
    &&& acc.tag.deep_view() == st.tag
}

/// Applies one option to the parse state.
fn apply_option_exec(acc: &mut ParseAcc, option: NetworkFilterOption, Ghost(st): Ghost<OptState>)
    requires
        acc_holds(*old(acc), st),
    ensures
        acc_holds(*final(acc), apply_option(st, option@)),
{
    match option {
        NetworkFilterOption::Domain(domains) => {
            let (inc, exc, inc_union, exc_union) = domain_hash_lists(&domains);
            if inc.len() > 0 {
                proof {
                    assert(inc.deep_view() =~= inc@);
                }
                acc.opt_domains = Some(inc);
                acc.opt_domains_union = Some(inc_union);
            }
            if exc.len() > 0 {
                proof {
                    assert(exc.deep_view() =~= exc@);
                }
                acc.opt_not_domains = Some(exc);
                acc.opt_not_domains_union = Some(exc_union);
            }
        },
        NetworkFilterOption::Badfilter => acc.mask.set(BAD_FILTER, true),
        NetworkFilterOption::Important => acc.mask.set(IS_IMPORTANT, true),
        NetworkFilterOption::MatchCase => acc.mask.set(MATCH_CASE, true),
        NetworkFilterOption::ThirdParty(false) | NetworkFilterOption::FirstParty(true) => {
            acc.mask.set(THIRD_PARTY, false)
        },
        NetworkFilterOption::ThirdParty(true) | NetworkFilterOption::FirstParty(false) => {
            acc.mask.set(FIRST_PARTY, false)
        },
        NetworkFilterOption::Tag(value) => acc.tag = Some(value),
        NetworkFilterOption::Redirect(value) => {
            acc.mask.set(IS_REDIRECT, true);
            acc.mask.set(ALSO_BLOCK_REDIRECT, true);
            acc.modifier = Some(value);
        },
        NetworkFilterOption::RedirectRule(value) => {
            acc.mask.set(IS_REDIRECT, true);
            acc.modifier = Some(value);
        },
        NetworkFilterOption::Removeparam(value) => {
            acc.mask.set(IS_REMOVEPARAM, true);
            acc.modifier = Some(value);
        },
        NetworkFilterOption::Csp(value) => {
            acc.mask.set(IS_CSP, true);
            acc.mask.set(FROM_DOCUMENT, true);
            acc.modifier = value;
        },
        NetworkFilterOption::Generichide => acc.mask.set(GENERIC_HIDE, true),
        NetworkFilterOption::Document => acc.cpt_pos = acc.cpt_pos | FROM_DOCUMENT,
        NetworkFilterOption::Image(e) => apply_content_type(acc, FROM_IMAGE, e),
        NetworkFilterOption::Media(e) => apply_content_type(acc, FROM_MEDIA, e),
        NetworkFilterOption::Object(e) => apply_content_type(acc, FROM_OBJECT, e),
        NetworkFilterOption::Other(e) => apply_content_type(acc, FROM_OTHER, e),
        NetworkFilterOption::Ping(e) => apply_content_type(acc, FROM_PING, e),
        NetworkFilterOption::Script(e) => apply_content_type(acc, FROM_SCRIPT, e),
        NetworkFilterOption::Stylesheet(e) => apply_content_type(acc, FROM_STYLESHEET, e),
        NetworkFilterOption::Subdocument(e) => apply_content_type(acc, FROM_SUBDOCUMENT, e),
        NetworkFilterOption::XmlHttpRequest(e) => apply_content_type(acc, FROM_XMLHTTPREQUEST, e),
        NetworkFilterOption::Websocket(e) => apply_content_type(acc, FROM_WEBSOCKET, e),
        NetworkFilterOption::Font(e) => apply_content_type(acc, FROM_FONT, e),
    }
}

/// Records a content type option for `flag`, enabled or negated.
fn apply_content_type(acc: &mut ParseAcc, flag: u32, enabled: bool)
    ensures
        final(acc).mask == old(acc).mask,
        final(acc).cpt_pos == (if enabled {
            old(acc).cpt_pos | flag
        } else {
            old(acc).cpt_pos
        }),
        final(acc).cpt_neg == (if enabled {
            old(acc).cpt_neg
        } else {
            old(acc).cpt_neg | flag
        }),
        final(acc).opt_domains == old(acc).opt_domains,
        final(acc).opt_not_domains == old(acc).opt_not_domains,
        final(acc).opt_domains_union == old(acc).opt_domains_union,
        final(acc).opt_not_domains_union == old(acc).opt_not_domains_union,
        final(acc).modifier == old(acc).modifier,
        final(acc).tag == old(acc).tag,
{
    if enabled {
        acc.cpt_pos = acc.cpt_pos | flag;
    } else {
        acc.cpt_neg = acc.cpt_neg | flag;
    }
}

/// The pattern holds a `*` or a `^`, so it needs regex matching.
pub open spec fn spec_check_is_regex(p: Seq<char>) -> bool {
    p.contains('*') || p.contains('^')
}

/// Whether the pattern holds a `*` or a `^`.
fn check_is_regex(p: &[char]) -> (r: bool)
    ensures
        r == spec_check_is_regex(p@),
{
    contains_char(p, '*') || contains_char(p, '^')
}

/// One of the characters that end the hostname of a `||` regex pattern.
pub open spec fn is_separator(c: char) -> bool {
    c == '/' || c == '^' || c == '*'
}

/// Index of the first `/`, `^` or `*` in `p`.
pub open spec fn spec_first_separator(p: Seq<char>) -> Option<int> {
    if exists|i: int| 0 <= i < p.len() && is_separator(p[i]) {
        Some(
            choose|i: int|
                0 <= i < p.len() && is_separator(p[i]) && forall|j: int|
                    0 <= j < i ==> !is_separator(p[j]),
        )
    } else {
        None
    }
}

/// Index of the first `/`, `^` or `*` in `p`.
fn first_separator(p: &[char]) -> (r: Option<usize>)
    ensures
        match r {
            Some(i) => spec_first_separator(p@) == Some(i as int) && i < p@.len(),
            None => spec_first_separator(p@) is None,
        },
{
    let mut i: usize = 0;
    while i < p.len()
        invariant
            i <= p@.len(),
            forall|j: int| 0 <= j < i ==> !is_separator(p@[j]),
        decreases p.len() - i,
    {
        if p[i] == '/' || p[i] == '^' || p[i] == '*' {
            proof {
                let k = choose|k: int|
                    0 <= k < p@.len() && is_separator(p@[k]) && forall|j: int|
                        0 <= j < k ==> !is_separator(p@[j]);
                assert(k == i) by {
                    if k < i {
                        assert(!is_separator(p@[k]));
                    }
                    if i < k {
                        assert(!is_separator(p@[i as int]));
                    }
                }
            }
            return Some(i);
        }
        i += 1;
    }
    None
}

/// Mask after recording the pattern's anchors and whether it is a regex.
pub open spec fn spec_anchor_mask(
    mask: u32,
    left: Option<NetworkFilterLeftAnchor>,
    right: bool,
    pattern: Seq<char>,
) -> u32 {
    let m1 = match left {
        Some(NetworkFilterLeftAnchor::DoublePipe) => mask | IS_HOSTNAME_ANCHOR,
        Some(NetworkFilterLeftAnchor::SinglePipe) => mask | IS_LEFT_ANCHOR,
        None => mask,
    };
    let m2 = if right {
        m1 | IS_RIGHT_ANCHOR
    } else {
        m1
    };
    with_flag(m2, IS_REGEX, spec_check_is_regex(pattern))
}

/// For `||` patterns, the hostname is split off: mask, hostname, and start of the rest.
pub open spec fn spec_host_split(
    mask: u32,
    left: Option<NetworkFilterLeftAnchor>,
    pattern: Seq<char>,
) -> (u32, Option<Seq<char>>, int) {
    let len = pattern.len() as int;
    if left == Some(NetworkFilterLeftAnchor::DoublePipe) {
        if spec_check_is_regex(pattern) {
            spec_host_split_regex(mask, pattern)
        } else {
            match spec_index_of(pattern, '/') {
                Some(i) => (mask | IS_LEFT_ANCHOR, Some(pattern.subrange(0, i)), i),
                None => (mask, Some(pattern), len),
            }
        }
    } else {
        (mask, None, 0)
    }
}

/// Hostname split of a `||` regex pattern: the hostname ends at the first `/`, `^` or `*`.
pub open spec fn spec_host_split_regex(mask: u32, pattern: Seq<char>) -> (u32, Option<Seq<char>>, int) {
    let len = pattern.len() as int;
            match spec_first_separator(pattern) {
                Some(fs) => {
                    let m = if pattern[fs] == '*' {
                        mask | IS_HOSTNAME_REGEX
                    } else {
                        mask
                    };
                    let host = Some(pattern.subrange(0, fs));
                    if len - fs == 1 && pattern[fs] == '^' {
                        (with_flag(with_flag(m, IS_REGEX, false), IS_RIGHT_ANCHOR, true), host, len)
                    } else {
                        (
                            with_flag(
                                with_flag(m, IS_LEFT_ANCHOR, true),
                                IS_REGEX,
                                spec_check_is_regex(pattern.subrange(fs, len)),
                            ),
                            host,
                            fs,
                        )
                    }
                },
                None => (mask, None, 0),
            }
}

/// Splits the hostname off a `||` pattern.
fn host_split(mask: u32, left: Option<NetworkFilterLeftAnchor>, pattern: &[char]) -> (r: (
    u32,
    Option<Vec<char>>,
    usize,
))
    ensures
        r.2 <= pattern@.len(),
        (r.0, r.1.deep_view(), r.2 as int) == spec_host_split(mask, left, pattern@),
{
    let len = pattern.len();
    if left == Some(NetworkFilterLeftAnchor::DoublePipe) {
        if check_is_regex(pattern) {
            host_split_regex(mask, pattern)
        } else {
            match index_of(pattern, '/') {
                Some(i) => {
                    let host = sub_chars(pattern, 0, i);
                    proof {
                        assert(host.deep_view() =~= host@);
                    }
                    (mask | IS_LEFT_ANCHOR, Some(host), i)
                },
                None => {
                    let host = sub_chars(pattern, 0, len);
                    proof {
                        assert(host.deep_view() =~= host@);
                        assert(host@ =~= pattern@);
                    }
                    (mask, Some(host), len)
                },
            }
        }
    } else {
        (mask, None, 0)
    }
}

/// Splits the hostname off a `||` regex pattern.
fn host_split_regex(mask: u32, pattern: &[char]) -> (r: (u32, Option<Vec<char>>, usize))
    ensures
        r.2 <= pattern@.len(),
        (r.0, r.1.deep_view(), r.2 as int) == spec_host_split_regex(mask, pattern@),
{
    let len = pattern.len();
            match first_separator(pattern) {
                Some(fs) => {
                    let m = if pattern[fs] == '*' {
                        mask | IS_HOSTNAME_REGEX
                    } else {
                        mask
                    };
                    let host = sub_chars(pattern, 0, fs);
                    proof {
                        assert(host.deep_view() =~= host@);
                    }
                    if len - fs == 1 && pattern[fs] == '^' {
                        ((m & !IS_REGEX) | IS_RIGHT_ANCHOR, Some(host), len)
                    } else {
                        let rest = sub_chars(pattern, fs, len);
                        let re = check_is_regex(rest.as_slice());
                        let m2 = m | IS_LEFT_ANCHOR;
                        (
                            if re {
                                m2 | IS_REGEX
                            } else {
                                m2 & !IS_REGEX
                            },
                            Some(host),
                            fs,
                        )
                    }
                },
                None => (mask, None, 0),
            }
}

/// Removes a trailing `*`, then a leading `*` (which also drops the left anchor).
pub open spec fn spec_trim_wildcards(mask: u32, pattern: Seq<char>, start: int) -> (u32, int, int) {
    let len = pattern.len() as int;
    let end = if len > start && pattern.len() > 0 && pattern.last() == '*' {
        len - 1
    } else {
        len
    };
    if end > start && pattern[start] == '*' {
        (mask & !IS_LEFT_ANCHOR, start + 1, end)
    } else {
        (mask, start, end)
    }
}

/// `|http://`, `|https://`, `|ws://` and `|http*://` patterns restrict the protocol instead.
pub open spec fn spec_protocol(mask: u32, pattern: Seq<char>, start: int, end: int) -> (u32, int) {
    if has_flag(mask, IS_LEFT_ANCHOR) {
        if end == start + 5 && occurs_at(pattern, "ws://"@, start) {
            ((((mask | FROM_WEBSOCKET) & !FROM_HTTP) & !FROM_HTTPS) & !IS_LEFT_ANCHOR, end)
        } else if end == start + 7 && occurs_at(pattern, "http://"@, start) {
            (((mask | FROM_HTTP) & !FROM_HTTPS) & !IS_LEFT_ANCHOR, end)
        } else if end == start + 8 && occurs_at(pattern, "https://"@, start) {
            (((mask | FROM_HTTPS) & !FROM_HTTP) & !IS_LEFT_ANCHOR, end)
        } else if end == start + 8 && occurs_at(pattern, "http*://"@, start) {
            (((mask | FROM_HTTPS) | FROM_HTTP) & !IS_LEFT_ANCHOR, end)
        } else {
            (mask, start)
        }
    } else {
        (mask, start)
    }
}

/// Mask, hostname and filter text of a pattern, or why it is refused.
#[verifier::opaque]
pub open spec fn spec_pattern_stage(
    mask: u32,
    left: Option<NetworkFilterLeftAnchor>,
    right: bool,
    pattern: Seq<char>,
) -> Result<(u32, Option<Seq<char>>, Option<Seq<char>>), NetworkFilterError> {
    let m2 = spec_anchor_mask(mask, left, right, pattern);
    let complete = pattern.len() > 1 && pattern[0] == '/' && pattern.last() == '/';
    if !complete && has_flag(m2, MATCH_CASE) {
        Err(NetworkFilterError::MatchCaseWithoutFullRegex)
    } else {
        let m3 = if complete {
            m2 | IS_COMPLETE_REGEX
        } else {
            m2
        };
        let (m4, host, start0) = spec_host_split(m3, left, pattern);
        let (m5, start1, end) = spec_trim_wildcards(m4, pattern, start0);
        let (m6, start) = spec_protocol(m5, pattern, start1, end);
        if end > start {
            let f = pattern.subrange(start, end);
            let m7 = with_flag(m6, IS_REGEX, spec_check_is_regex(f));
            Ok(
                (
                    m7,
                    host,
                    Some(
                        if has_flag(m7, MATCH_CASE) {
                            f
                        } else {
                            spec_ascii_lowercase(f)
                        },
                    ),
                ),
            )
        } else {
            Ok((m6, host, None))
        }
    }
}

/// Recognises the protocol-only patterns.
fn protocol_stage(mask: u32, pattern: &[char], start: usize, end: usize) -> (r: (u32, usize))
    requires
        start <= end <= pattern@.len(),
    ensures
        (r.0, r.1 as int) == spec_protocol(mask, pattern@, start as int, end as int),
        r.1 <= end,
{
    if mask & IS_LEFT_ANCHOR == IS_LEFT_ANCHOR {
        let ws = str_to_chars("ws://");
        let http = str_to_chars("http://");
        let https = str_to_chars("https://");
        let httpx = str_to_chars("http*://");
        if end - start == 5 && occurs_at_exec(pattern, ws.as_slice(), start) {
            ((((mask | FROM_WEBSOCKET) & !FROM_HTTP) & !FROM_HTTPS) & !IS_LEFT_ANCHOR, end)
        } else if end - start == 7 && occurs_at_exec(pattern, http.as_slice(), start) {
            (((mask | FROM_HTTP) & !FROM_HTTPS) & !IS_LEFT_ANCHOR, end)
        } else if end - start == 8 && occurs_at_exec(pattern, https.as_slice(), start) {
            (((mask | FROM_HTTPS) & !FROM_HTTP) & !IS_LEFT_ANCHOR, end)
        } else if end - start == 8 && occurs_at_exec(pattern, httpx.as_slice(), start) {
            (((mask | FROM_HTTPS) | FROM_HTTP) & !IS_LEFT_ANCHOR, end)
        } else {
            (mask, start)
        }
    } else {
        (mask, start)
    }
}

/// Mask, hostname and filter text of a pattern, or why it is refused.
fn pattern_stage(
    mask: u32,
    left: Option<NetworkFilterLeftAnchor>,
    right: bool,
    pattern: &[char],
) -> (r: Result<(u32, Option<Vec<char>>, Option<Vec<char>>), NetworkFilterError>)
    ensures
        match r {
            Ok((m, h, f)) => spec_pattern_stage(mask, left, right, pattern@) == Ok::<
                (u32, Option<Seq<char>>, Option<Seq<char>>),
                NetworkFilterError,
            >((m, h.deep_view(), f.deep_view())),
            Err(e) => spec_pattern_stage(mask, left, right, pattern@) == Err::<
                (u32, Option<Seq<char>>, Option<Seq<char>>),
                NetworkFilterError,
            >(e),
        },
{
    proof {
        reveal(spec_pattern_stage);
    }
    let m1 = match left {
        Some(NetworkFilterLeftAnchor::DoublePipe) => mask | IS_HOSTNAME_ANCHOR,
        Some(NetworkFilterLeftAnchor::SinglePipe) => mask | IS_LEFT_ANCHOR,
        None => mask,
    };
    let m2 = if right {
        m1 | IS_RIGHT_ANCHOR
    } else {
        m1
    };
    proof {
        reveal(spec_pattern_stage);
    }
    let is_regex = check_is_regex(pattern);
    let m2r = if is_regex {
        m2 | IS_REGEX
    } else {
        m2 & !IS_REGEX
    };
    let len = pattern.len();
    let complete = len > 1 && pattern[0] == '/' && pattern[len - 1] == '/';
    if !complete && m2r & MATCH_CASE == MATCH_CASE {
        return Err(NetworkFilterError::MatchCaseWithoutFullRegex);
    }
    let m3 = if complete {
        m2r | IS_COMPLETE_REGEX
    } else {
        m2r
    };
    let (m4, host, start0) = host_split(m3, left, pattern);
    let end = if len > start0 && len > 0 && pattern[len - 1] == '*' {
        len - 1
    } else {
        len
    };
    let (m5, start1) = if end > start0 && pattern[start0] == '*' {
        (m4 & !IS_LEFT_ANCHOR, start0 + 1)
    } else {
        (m4, start0)
    };
    let (m6, start) = protocol_stage(m5, pattern, start1, end);
    if end > start {
        let f = sub_chars(pattern, start, end);
        let re = check_is_regex(f.as_slice());
        let m7 = if re {
            m6 | IS_REGEX
        } else {
            m6 & !IS_REGEX
        };
        let text = if m7 & MATCH_CASE == MATCH_CASE {
            f
        } else {
            ascii_lowercase(f.as_slice())
        };
        proof {
            assert(text.deep_view() =~= text@);
        }
        Ok((m7, host, Some(text)))
    } else {
        Ok((m6, host, None))
    }
}

/// Hostname of a filter as stored: without leading `www.` for `||` filters, lowercased, and in
/// punycode when it is not ASCII.
#[verifier::opaque]
pub open spec fn spec_normalize_host(mask: u32, host: Seq<char>) -> Result<
    Seq<char>,
    NetworkFilterError,
> {
    let h = if has_flag(mask, IS_HOSTNAME_ANCHOR) {
        spec_trim_start_seq(host, "www."@)
    } else {
        host
    };
    let lower = spec_ascii_lowercase(h);
    if spec_is_ascii(lower) {
        Ok(lower)
    } else {
        match idna_to_ascii(lower) {
            Some(x) => Ok(x),
            None => Err(NetworkFilterError::PunycodeError),
        }
    }
}

/// Normalises the hostname of a filter.
fn normalize_host(mask: u32, host: &[char]) -> (r: Result<Vec<char>, NetworkFilterError>)
    ensures
        match r {
            Ok(h) => spec_normalize_host(mask, host@) == Ok::<Seq<char>, NetworkFilterError>(h@),
            Err(e) => spec_normalize_host(mask, host@) == Err::<Seq<char>, NetworkFilterError>(
                e,
            ),
        },
{
    proof {
        reveal(spec_normalize_host);
    }
    let h = if mask & IS_HOSTNAME_ANCHOR == IS_HOSTNAME_ANCHOR {
        let www = str_to_chars("www.");
        trim_start_seq(host, www.as_slice())
    } else {
        sub_chars(host, 0, host.len())
    };
    proof {
        assert(host@ =~= host@.subrange(0, host@.len() as int));
    }
    let lower = ascii_lowercase(h.as_slice());
    if chars_is_ascii(lower.as_slice()) {
        Ok(lower)
    } else {
        match domain_to_ascii_chars(lower.as_slice()) {
            Some(x) => Ok(x),
            None => Err(NetworkFilterError::PunycodeError),
        }
    }
}

/// Whether `v` realizes the abstract filter `m` (domain lists stored sorted).
pub open spec fn realizes(v: NetworkFilterView, m: NetworkFilterView) -> bool {
    &&& v.mask == m.mask
    &&& v.filter == m.filter
    &&& opt_sorted_version_of(v.opt_domains, m.opt_domains)
    &&& opt_sorted_version_of(v.opt_not_domains, m.opt_not_domains)
    &&& v.modifier_option == m.modifier_option
    &&& v.hostname == m.hostname
    &&& v.tag == m.tag
    &&& v.raw_line == m.raw_line
    &&& v.id == m.id
    &&& v.opt_domains_union == m.opt_domains_union
    &&& v.opt_not_domains_union == m.opt_not_domains_union
}

/// Options that every filter starts with.
pub open spec fn initial_opt_state(exception: bool) -> OptState {
    OptState {
        mask: if exception {
            THIRD_PARTY | FIRST_PARTY | FROM_HTTPS | FROM_HTTP | IS_EXCEPTION
        } else {
            THIRD_PARTY | FIRST_PARTY | FROM_HTTPS | FROM_HTTP
        },
        cpt_pos: 0,
        cpt_neg: 0,
        opt_domains: None,
        opt_not_domains: None,
        opt_domains_union: None,
        opt_not_domains_union: None,
        modifier: None,
        tag: None,
    }
}

/// Mask once the content type options are applied: positive types are added, a negated network
/// type implies all network types, and no positive type means all network types (for
/// `$removeparam`: document, subdocument and xhr).
pub open spec fn spec_type_mask(st: OptState) -> u32 {
    let m1 = st.mask | st.cpt_pos;
    let m2 = if !has_flag(m1, IS_REMOVEPARAM) && st.cpt_neg & FROM_NETWORK_TYPES != 0 {
        m1 | FROM_NETWORK_TYPES
    } else {
        m1
    };
    if st.cpt_pos & FROM_ALL_TYPES == 0 {
        if has_flag(m2, IS_REMOVEPARAM) {
            m2 | FROM_DOCUMENT | FROM_SUBDOCUMENT | FROM_XMLHTTPREQUEST
        } else {
            m2 | FROM_NETWORK_TYPES
        }
    } else {
        m2
    }
}

/// Final mask: `||host^` filters without types also match documents; negated types are removed.
pub open spec fn spec_final_mask(st: OptState, m4: u32, end_url_anchor: bool) -> u32 {
    let m5 = if st.cpt_pos & FROM_ALL_TYPES == 0 && st.cpt_neg & FROM_ALL_TYPES == 0 && has_flag(
        m4,
        IS_HOSTNAME_ANCHOR,
    ) && has_flag(m4, IS_RIGHT_ANCHOR) && !end_url_anchor && !has_flag(m4, IS_REMOVEPARAM) {
        m4 | FROM_ALL_TYPES
    } else {
        m4
    };
    m5 & !st.cpt_neg
}

/// The filter built from a line once its syntax and options are known.
pub open spec fn spec_finish_parse(
    line: Seq<char>,
    debug: bool,
    a: AbstractView,
    st: OptState,
) -> Result<NetworkFilterView, NetworkFilterError> {
    match spec_pattern_stage(spec_type_mask(st), a.left_anchor, a.right_anchor, a.pattern) {
        Err(e) => Err(e),
        Ok((m4, host, filter)) => {
            if has_flag(m4, GENERIC_HIDE) && !a.exception {
                Err(NetworkFilterError::GenericHideWithoutException)
            } else if has_flag(m4, IS_REMOVEPARAM) && a.exception {
                Err(NetworkFilterError::RemoveparamWithException)
            } else {
                let host_res: Result<Option<Seq<char>>, NetworkFilterError> = match host {
                    Some(h) => match spec_normalize_host(m4, h) {
                        Ok(x) => Ok(Some(x)),
                        Err(e) => Err(e),
                    },
                    None => Ok(None),
                };
                match host_res {
                    Err(e) => Err(e),
                    Ok(hostname) => Ok(
                        NetworkFilterView {
                            mask: spec_final_mask(st, m4, a.right_anchor),
                            filter: match filter {
                                Some(f) => FilterPartView::Simple(f),
                                None => FilterPartView::Empty,
                            },
                            opt_domains: st.opt_domains,
                            opt_not_domains: st.opt_not_domains,
                            modifier_option: st.modifier,
                            hostname,
                            tag: st.tag,
                            raw_line: if debug {
                                Some(line)
                            } else {
                                None
                            },
                            id: spec_fast_hash(line),
                            opt_domains_union: st.opt_domains_union,
                            opt_not_domains_union: st.opt_not_domains_union,
                        },
                    ),
                }
            }
        },
    }
}

/// The network filter that a rule line denotes, or why it is refused. Its domain lists are
/// given unsorted.
pub open spec fn spec_network_filter_parse(line: Seq<char>, debug: bool) -> Result<
    NetworkFilterView,
    NetworkFilterError,
> {
    match spec_abstract_parse(line) {
        Err(e) => Err(e),
        Ok(a) => {
            let init = initial_opt_state(a.exception);
            match a.options {
                Some(o) => match spec_validate_options(o) {
                    Err(e) => Err(e),
                    Ok(_) => spec_finish_parse(line, debug, a, apply_options(init, o, o.len() as int)),
                },
                None => spec_finish_parse(line, debug, a, init),
            }
        },
    }
}

/// Applies all options in order.
fn apply_all_options(acc: &mut ParseAcc, options: Vec<NetworkFilterOption>, Ghost(st): Ghost<
    OptState,
>)
    requires
        acc_holds(*old(acc), st),
    ensures
        acc_holds(
            *final(acc),
            apply_options(
                st,
                options@.map_values(|o: NetworkFilterOption| o@),
                options@.len() as int,
            ),
        ),
{
    let ghost opts = options@.map_values(|o: NetworkFilterOption| o@);
    let n = options.len();
    let mut rest = options;
    let mut i: usize = 0;
    while i < n
        invariant
            i <= n,
            n == opts.len(),
            rest@.len() == n - i,
            forall|k: int| 0 <= k < n - i ==> #[trigger] rest@[k]@ == opts[i + k],
            acc_holds(*acc, apply_options(st, opts, i as int)),
        decreases n - i,
    {
        let ghost before = rest@;
        let o = rest.remove(0);
        proof {
            assert(before[0]@ == opts[i as int]);
        }
        apply_option_exec(acc, o, Ghost(apply_options(st, opts, i as int)));
        i += 1;
        proof {
            assert forall|k: int| 0 <= k < n - i implies #[trigger] rest@[k]@ == opts[i + k] by {
                assert(rest@[k] == before[k + 1]);
            }
        }
    }
}

/// `spec_type_mask` of the state with these mask and content type bits.
fn type_mask(bits: u32, cpt_pos: u32, cpt_neg: u32) -> (r: u32)
    ensures
        forall|st: OptState|
            st.mask == bits && st.cpt_pos == cpt_pos && st.cpt_neg == cpt_neg ==> r
                == #[trigger] spec_type_mask(st),
{
    let mut mask = bits | cpt_pos;
    if !(mask & IS_REMOVEPARAM == IS_REMOVEPARAM) && cpt_neg & FROM_NETWORK_TYPES != 0 {
        mask = mask | FROM_NETWORK_TYPES;
    }
    if cpt_pos & FROM_ALL_TYPES == 0 {
        if mask & IS_REMOVEPARAM == IS_REMOVEPARAM {
            mask = mask | FROM_DOCUMENT | FROM_SUBDOCUMENT | FROM_XMLHTTPREQUEST;
        } else {
            mask = mask | FROM_NETWORK_TYPES;
        }
    }
    mask
}

/// `spec_final_mask` of the state with these content type bits.
fn final_mask_of(cpt_pos: u32, cpt_neg: u32, m4: u32, end_url_anchor: bool) -> (r: u32)
    ensures
        forall|st: OptState|
            st.cpt_pos == cpt_pos && st.cpt_neg == cpt_neg ==> r == #[trigger] spec_final_mask(
                st,
                m4,
                end_url_anchor,
            ),
{
    let mut m5 = m4;
    if cpt_pos & FROM_ALL_TYPES == 0 && cpt_neg & FROM_ALL_TYPES == 0 && m4 & IS_HOSTNAME_ANCHOR
        == IS_HOSTNAME_ANCHOR && m4 & IS_RIGHT_ANCHOR == IS_RIGHT_ANCHOR && !end_url_anchor && !(m4
        & IS_REMOVEPARAM == IS_REMOVEPARAM) {
        m5 = m5 | FROM_ALL_TYPES;
    }
    m5 & !cpt_neg
}

/// Assembles the filter once the pattern stage is done.
#[verifier::rlimit(40)]
fn finish_parse(
    line: &[char],
    debug: bool,
    a: &AbstractNetworkFilter,
    acc: ParseAcc,
    Ghost(st): Ghost<OptState>,
) -> (r: Result<NetworkFilter, NetworkFilterError>)
    requires
        acc_holds(acc, st),
    ensures
        match r {
            Ok(f) => spec_finish_parse(line@, debug, a@, st) matches Ok(m) && realizes(f@, m),
            Err(e) => spec_finish_parse(line@, debug, a@, st) == Err::<
                NetworkFilterView,
                NetworkFilterError,
            >(e),
        },
{
    let mask = type_mask(acc.mask.bits, acc.cpt_pos, acc.cpt_neg);
    assert(mask == spec_type_mask(st));
    let (m4, host, filter) = match pattern_stage(
        mask,
        a.left_anchor,
        a.right_anchor,
        a.pattern.as_slice(),
    ) {
        Ok(x) => x,
        Err(e) => {
            return Err(e);
        },
    };
    if m4 & GENERIC_HIDE == GENERIC_HIDE && !a.exception {
        return Err(NetworkFilterError::GenericHideWithoutException);
    }
    if m4 & IS_REMOVEPARAM == IS_REMOVEPARAM && a.exception {
        return Err(NetworkFilterError::RemoveparamWithException);
    }
    proof {
        if let Some(h) = &host {
            assert(h.deep_view() =~= h@);
        }
        if let Some(f) = &filter {
            assert(f.deep_view() =~= f@);
        }
    }
    let hostname = match host {
        Some(h) => match normalize_host(m4, h.as_slice()) {
            Ok(x) => Some(chars_to_string_all(x.as_slice())),
            Err(e) => {
                return Err(e);
            },
        },
        None => None,
    };
    let final_mask = final_mask_of(acc.cpt_pos, acc.cpt_neg, m4, a.right_anchor);
    assert(final_mask == spec_final_mask(st, m4, a.right_anchor));
    let filter_part = match filter {
        Some(f) => FilterPart::Simple(chars_to_string_all(f.as_slice())),
        None => FilterPart::Empty,
    };
    let raw_line = if debug {
        Some(chars_to_string_all(line))
    } else {
        None
    };
    let id = hash_chars(line);
    Ok(
        NetworkFilter {
            mask: NetworkFilterMask { bits: final_mask },
            filter: filter_part,
            opt_domains: acc.opt_domains,
            opt_not_domains: acc.opt_not_domains,
            modifier_option: acc.modifier,
            hostname,
            tag: acc.tag,
            raw_line,
            id,
            opt_domains_union: acc.opt_domains_union,
            opt_not_domains_union: acc.opt_not_domains_union,
        },
    )
}

/// Parses a network filter given as characters.
pub fn parse_network_filter(line: &[char], debug: bool) -> (r: Result<
    NetworkFilter,
    NetworkFilterError,
>)
    ensures
        match r {
            Ok(f) => spec_network_filter_parse(line@, debug) matches Ok(m) && realizes(f@, m),
            Err(e) => spec_network_filter_parse(line@, debug) == Err::<
                NetworkFilterView,
                NetworkFilterError,
            >(e),
        },
{
    let parsed = match AbstractNetworkFilter::parse(line) {
        Ok(a) => a,
        Err(e) => {
            return Err(e);
        },
    };
    let ghost init = initial_opt_state(parsed.exception);
    let mut mask = NetworkFilterMask { bits: THIRD_PARTY | FIRST_PARTY | FROM_HTTPS | FROM_HTTP };
    if parsed.exception {
        mask.set(IS_EXCEPTION, true);
    }
    let mut acc = ParseAcc {
        mask,
        cpt_pos: 0,
        cpt_neg: 0,
        opt_domains: None,
        opt_not_domains: None,
        opt_domains_union: None,
        opt_not_domains_union: None,
        modifier: None,
        tag: None,
    };
    let abs = AbstractNetworkFilter {
        exception: parsed.exception,
        left_anchor: parsed.left_anchor,
        pattern: parsed.pattern,
        right_anchor: parsed.right_anchor,
        options: None,
    };
    match parsed.options {
        Some(options) => {
            match validate_options(options.as_slice()) {
                Err(e) => {
                    return Err(e);
                },
                Ok(()) => {},
            }
            let ghost opts = options@.map_values(|o: NetworkFilterOption| o@);
            apply_all_options(&mut acc, options, Ghost(init));
            finish_parse(line, debug, &abs, acc, Ghost(apply_options(init, opts, opts.len() as int)))
        },
        None => finish_parse(line, debug, &abs, acc, Ghost(init)),
    }
}

impl NetworkFilter {
    /// Parses a network filter rule. With `debug`, the rule text is kept in `raw_line`.
    pub fn parse(line: &str, debug: bool, _opts: ParseOptions) -> (r: Result<
        NetworkFilter,
        NetworkFilterError,
    >)
        ensures
            match r {
                Ok(f) => spec_network_filter_parse(line@, debug) matches Ok(m) && realizes(f@, m),
                Err(e) => spec_network_filter_parse(line@, debug) == Err::<
                    NetworkFilterView,
                    NetworkFilterError,
                >(e),
            },
    {
        let chars = str_to_chars(line);
        parse_network_filter(chars.as_slice(), debug)
    }
}

/// Characters that cannot occur in a hosts-file hostname: `/^*!?$&(){}[]+=~` and backquote,
/// white space (the Unicode `White_Space` property, as the class `\s` has it), and `|@,'"><:;`.
pub open spec fn is_invalid_host_char(c: char) -> bool {
    c == '/' || c == '^' || c == '*' || c == '!' || c == '?' || c == '$' || c == '&' || c == '('
        || c == ')' || c == '{' || c == '}' || c == '[' || c == ']' || c == '+' || c == '='
        || c == '~' || c == '`' || crate::utils::is_ws(c) || c == '|' || c == '@' || c == ','
        || c == '\'' || c == '"' || c == '>' || c == '<' || c == ':' || c == ';'
}

/// Whether `c` cannot occur in a hosts-file hostname.
fn invalid_host_char(c: char) -> (r: bool)
    ensures
        r == is_invalid_host_char(c),
{
    c == '/' || c == '^' || c == '*' || c == '!' || c == '?' || c == '$' || c == '&' || c == '('
        || c == ')' || c == '{' || c == '}' || c == '[' || c == ']' || c == '+' || c == '='
        || c == '~' || c == '`' || crate::utils::is_whitespace(c) || c == '|' || c == '@' || c
        == ',' || c == '\'' || c == '"' || c == '>' || c == '<' || c == ':' || c == ';'
}

/// The `||hostname^` rule that a hosts-file hostname stands for, or why it is refused: it must
/// hold no invalid character, must contain a dot other than a leading one, and must not end
/// with a dot.
pub open spec fn spec_hosts_style_rule(hostname: Seq<char>) -> Result<
    Seq<char>,
    NetworkFilterError,
> {
    if exists|i: int| 0 <= i < hostname.len() && is_invalid_host_char(hostname[i]) {
        Err(NetworkFilterError::FilterParseError)
    } else if !hostname.contains('.') || (hostname.len() > 0 && hostname[0] == '.'
        && !hostname.drop_first().contains('.')) || (hostname.len() > 0 && hostname.last()
        == '.') {
        Err(NetworkFilterError::FilterParseError)
    } else {
        let host = spec_trim_start_seq(spec_ascii_lowercase(hostname), "www."@);
        if spec_is_ascii(host) {
            Ok(seq!['|', '|'] + host + seq!['^'])
        } else {
            match idna_to_ascii(host) {
                Some(x) => Ok(seq!['|', '|'] + x + seq!['^']),
                None => Err(NetworkFilterError::PunycodeError),
            }
        }
    }
}

/// The `||hostname^` rule that a hosts-file hostname stands for.
fn hosts_style_rule(hostname: &[char]) -> (r: Result<Vec<char>, NetworkFilterError>)
    ensures
        match r {
            Ok(v) => spec_hosts_style_rule(hostname@) == Ok::<Seq<char>, NetworkFilterError>(v@),
            Err(e) => spec_hosts_style_rule(hostname@) == Err::<Seq<char>, NetworkFilterError>(e),
        },
{
    let mut i: usize = 0;
    while i < hostname.len()
        invariant
            i <= hostname@.len(),
            forall|j: int| 0 <= j < i ==> !is_invalid_host_char(hostname@[j]),
        decreases hostname.len() - i,
    {
        if invalid_host_char(hostname[i]) {
            return Err(NetworkFilterError::FilterParseError);
        }
        i += 1;
    }
    let len = hostname.len();
    let no_dot = !contains_char(hostname, '.');
    let later_dot = find_char_from(hostname, '.', 1);
    let lone_leading_dot = len > 0 && hostname[0] == '.' && later_dot.is_none();
    proof {
        if len > 0 && hostname@[0] == '.' {
            let rest = hostname@.drop_first();
            assert(rest.contains('.') == exists|j: int| 1 <= j < len && hostname@[j] == '.') by {
                if rest.contains('.') {
                    let k = choose|k: int| 0 <= k < rest.len() && rest[k] == '.';
                    assert(hostname@[k + 1] == '.');
                }
                if exists|j: int| 1 <= j < len && hostname@[j] == '.' {
                    let j = choose|j: int| 1 <= j < len && hostname@[j] == '.';
                    assert(rest[j - 1] == '.');
                }
            }
        }
    }
    if no_dot || lone_leading_dot || (len > 0 && hostname[len - 1] == '.') {
        return Err(NetworkFilterError::FilterParseError);
    }
    let lower = ascii_lowercase(hostname);
    let www = str_to_chars("www.");
    let host = trim_start_seq(lower.as_slice(), www.as_slice());
    let body = if chars_is_ascii(host.as_slice()) {
        host
    } else {
        match domain_to_ascii_chars(host.as_slice()) {
            Some(x) => x,
            None => {
                return Err(NetworkFilterError::PunycodeError);
            },
        }
    };
    let mut rule: Vec<char> = Vec::new();
    rule.push('|');
    rule.push('|');
    let mut k: usize = 0;
    while k < body.len()
        invariant
            k <= body@.len(),
            rule@ == seq!['|', '|'] + body@.take(k as int),
        decreases body.len() - k,
    {
        rule.push(body[k]);
        k += 1;
        proof {
            assert(rule@ =~= seq!['|', '|'] + body@.take(k as int));
        }
    }
    rule.push('^');
    proof {
        assert(body@.take(body@.len() as int) =~= body@);
        assert(rule@ =~= seq!['|', '|'] + body@ + seq!['^']);
    }
    Ok(rule)
}

/// Hashes `s` into `h`, one element after another, as `compute_filter_id` does.
pub open spec fn hash_u64s_from(seed: u64, s: Seq<u64>) -> u64
    decreases s.len(),
{
    if s.len() == 0 {
        seed
    } else {
        hash_u64s_from(seed, s.drop_last()).wrapping_mul(33) ^ s.last()
    }
}

/// Identifier of a filter computed from its parts.
pub open spec fn spec_compute_filter_id(
    modifier_option: Option<Seq<char>>,
    mask: u32,
    filter: Option<Seq<char>>,
    hostname: Option<Seq<char>>,
    opt_domains: Option<Seq<u64>>,
    opt_not_domains: Option<Seq<u64>>,
) -> u64 {
    let h0 = 178464u64 ^ (mask as u64);
    let h1 = match modifier_option {
        Some(s) => hash_chars_from(h0, s),
        None => h0,
    };
    let h2 = match opt_domains {
        Some(d) => hash_u64s_from(h1, d),
        None => h1,
    };
    let h3 = match opt_not_domains {
        Some(d) => hash_u64s_from(h2, d),
        None => h2,
    };
    let h4 = match filter {
        Some(s) => hash_chars_from(h3, s),
        None => h3,
    };
    match hostname {
        Some(s) => hash_chars_from(h4, s),
        None => h4,
    }
}

/// Continues `seed` with the hashes in `s`.
fn hash_u64s(seed: u64, s: &[u64]) -> (h: u64)
    ensures
        h == hash_u64s_from(seed, s@),
{
    let mut h = seed;
    let mut i: usize = 0;
    while i < s.len()
        invariant
            i <= s@.len(),
            h == hash_u64s_from(seed, s@.take(i as int)),
        decreases s.len() - i,
    {
        proof {
            assert(s@.take(i + 1).drop_last() =~= s@.take(i as int));
        }
        h = h.wrapping_mul(33) ^ s[i];
        i += 1;
    }
    proof {
        assert(s@.take(s@.len() as int) =~= s@);
    }
    h
}

/// Continues `seed` with the characters of an optional string.
fn hash_opt_string(seed: u64, s: &Option<String>) -> (h: u64)
    ensures
        h == match s.deep_view() {
            Some(t) => hash_chars_from(seed, t),
            None => seed,
        },
{
    match s {
        Some(t) => {
            let v = str_to_chars(t.as_str());
            proof {
                assert(v@.subrange(0, v@.len() as int) =~= v@);
            }
            crate::utils::hash_chars_range(seed, v.as_slice(), 0, v.len())
        },
        None => seed,
    }
}

/// Identifier of a filter computed from its parts.
pub fn compute_filter_id(
    modifier_option: &Option<String>,
    mask: u32,
    filter: &Option<String>,
    hostname: &Option<String>,
    opt_domains: &Option<Vec<u64>>,
    opt_not_domains: &Option<Vec<u64>>,
) -> (r: u64)
    ensures
        r == spec_compute_filter_id(
            modifier_option.deep_view(),
            mask,
            filter.deep_view(),
            hostname.deep_view(),
            opt_domains.deep_view(),
            opt_not_domains.deep_view(),
        ),
{
    let h0 = 178464u64 ^ (mask as u64);
    let h1 = hash_opt_string(h0, modifier_option);
    let h2 = match opt_domains {
        Some(d) => {
            proof {
                assert(d.deep_view() =~= d@);
            }
            hash_u64s(h1, d.as_slice())
        },
        None => h1,
    };
    let h3 = match opt_not_domains {
        Some(d) => {
            proof {
                assert(d.deep_view() =~= d@);
            }
            hash_u64s(h2, d.as_slice())
        },
        None => h2,
    };
    let h4 = hash_opt_string(h3, filter);
    hash_opt_string(h4, hostname)
}

/// Tokens under which a filter is stored: either one group of tokens that a matching request
/// must all contain one of, or one single-token group per `$domain=` entry.
pub open spec fn spec_get_tokens(f: NetworkFilterView) -> Seq<Seq<u64>> {
    let t0: Seq<u64> = if f.opt_domains is Some && f.opt_not_domains is None
        && f.opt_domains->0.len() == 1 {
        seq![f.opt_domains->0[0]]
    } else {
        Seq::empty()
    };
    let right = has_flag(f.mask, IS_RIGHT_ANCHOR);
    let t1: Seq<u64> = match f.filter {
        FilterPartView::Simple(s) => if !has_flag(f.mask, IS_COMPLETE_REGEX) {
            spec_tokenize_filter(s, right, !right)
        } else {
            Seq::empty()
        },
        _ => Seq::empty(),
    };
    let t2: Seq<u64> = if !has_flag(f.mask, IS_HOSTNAME_REGEX) && f.hostname is Some {
        spec_tokenize(f.hostname->0)
    } else {
        Seq::empty()
    };
    let tokens = t0 + t1 + t2;
    let tokens2 = if tokens.len() == 0 && has_flag(f.mask, IS_REMOVEPARAM) && f.modifier_option is Some
        && valid_param(f.modifier_option->0) {
        spec_tokenize(spec_ascii_lowercase(f.modifier_option->0))
    } else {
        tokens
    };
    if tokens2.len() == 0 && f.opt_domains is Some && f.opt_not_domains is None {
        f.opt_domains->0.map_values(|d: u64| seq![d])
    } else {
        let http = has_flag(f.mask, FROM_HTTP);
        let https = has_flag(f.mask, FROM_HTTPS);
        if http && !https {
            seq![tokens2.push(spec_fast_hash("http"@))]
        } else if https && !http {
            seq![tokens2.push(spec_fast_hash("https"@))]
        } else {
            seq![tokens2]
        }
    }
}

/// Appends `b` to `a`.
fn append_hashes(a: &mut Vec<u64>, b: &Vec<u64>)
    ensures
        final(a)@ == old(a)@ + b@,
{
    let mut i: usize = 0;
    let ghost start = a@;
    while i < b.len()
        invariant
            i <= b@.len(),
            a@ == start + b@.take(i as int),
        decreases b.len() - i,
    {
        a.push(b[i]);
        i += 1;
        proof {
            assert(a@ =~= start + b@.take(i as int));
        }
    }
    proof {
        assert(b@.take(b@.len() as int) =~= b@);
    }
}

impl NetworkFilter {
    /// Given a hostname, produces the filter parsed from `||hostname^`, to emulate hosts-style
    /// blocking.
    pub fn parse_hosts_style(hostname: &str, debug: bool) -> (r: Result<
        NetworkFilter,
        NetworkFilterError,
    >)
        ensures
            match spec_hosts_style_rule(hostname@) {
                Err(e) => r == Err::<NetworkFilter, NetworkFilterError>(e),
                Ok(rule) => match r {
                    Ok(f) => spec_network_filter_parse(rule, debug) matches Ok(m) && realizes(f@, m),
                    Err(e) => spec_network_filter_parse(rule, debug) == Err::<
                        NetworkFilterView,
                        NetworkFilterError,
                    >(e),
                },
            },
    {
        let h = str_to_chars(hostname);
        match hosts_style_rule(h.as_slice()) {
            Err(e) => Err(e),
            Ok(rule) => parse_network_filter(rule.as_slice(), debug),
        }
    }

    /// Identifier of this filter with its `$badfilter` bit cleared: a `$badfilter` rule cancels
    /// the rules whose `get_id` equals this.
    pub fn get_id_without_badfilter(&self) -> (r: u64)
        ensures
            r == spec_compute_filter_id(
                self.modifier_option.deep_view(),
                self.mask.bits & !BAD_FILTER,
                spec_string_view(self.filter),
                self.hostname.deep_view(),
                self.opt_domains.deep_view(),
                self.opt_not_domains.deep_view(),
            ),
    {
        let mut mask = self.mask;
        mask.set(BAD_FILTER, false);
        let f = self.filter.string_view();
        compute_filter_id(
            &self.modifier_option,
            mask.bits,
            &f,
            &self.hostname,
            &self.opt_domains,
            &self.opt_not_domains,
        )
    }

    /// Identifier of this filter computed from its parts.
    pub fn get_id(&self) -> (r: u64)
        ensures
            r == spec_compute_filter_id(
                self.modifier_option.deep_view(),
                self.mask.bits,
                spec_string_view(self.filter),
                self.hostname.deep_view(),
                self.opt_domains.deep_view(),
                self.opt_not_domains.deep_view(),
            ),
    {
        let f = self.filter.string_view();
        compute_filter_id(
            &self.modifier_option,
            self.mask.bits,
            &f,
            &self.hostname,
            &self.opt_domains,
            &self.opt_not_domains,
        )
    }

    /// Tokens under which this filter is stored (see `spec_get_tokens`).
    pub fn get_tokens(&self) -> (r: Vec<Vec<u64>>)
        ensures
            r.deep_view() == spec_get_tokens(self@),
    {
        let mut tokens: Vec<u64> = Vec::new();
        match (&self.opt_domains, &self.opt_not_domains) {
            (Some(d), None) => {
                if d.len() == 1 {
                    tokens.push(d[0]);
                }
            },
            _ => {},
        }
        let right = self.mask.contains(IS_RIGHT_ANCHOR);
        match &self.filter {
            FilterPart::Simple(f) => {
                if !self.mask.contains(IS_COMPLETE_REGEX) {
                    let fc = str_to_chars(f.as_str());
                    let ft = tokenize_filter_chars(fc.as_slice(), right, !right);
                    append_hashes(&mut tokens, &ft);
                }
            },
            _ => {},
        }
        if !self.mask.contains(IS_HOSTNAME_REGEX) {
            match &self.hostname {
                Some(h) => {
                    let hc = str_to_chars(h.as_str());
                    let ht = tokenize_filter_chars(hc.as_slice(), false, false);
                    append_hashes(&mut tokens, &ht);
                },
                None => {},
            }
        }
        if tokens.len() == 0 && self.mask.contains(IS_REMOVEPARAM) {
            match &self.modifier_option {
                Some(rp) => {
                    let rc = str_to_chars(rp.as_str());
                    if is_valid_param(rc.as_slice()) {
                        let lower = ascii_lowercase(rc.as_slice());
                        let pt = tokenize_filter_chars(lower.as_slice(), false, false);
                        append_hashes(&mut tokens, &pt);
                    }
                },
                None => {},
            }
        }
        proof {
            assert(tokens@ =~= ({
                let f = self@;
                let t0: Seq<u64> = if f.opt_domains is Some && f.opt_not_domains is None
                    && f.opt_domains->0.len() == 1 {
                    seq![f.opt_domains->0[0]]
                } else {
                    Seq::empty()
                };
                let right = has_flag(f.mask, IS_RIGHT_ANCHOR);
                let t1: Seq<u64> = match f.filter {
                    FilterPartView::Simple(s) => if !has_flag(f.mask, IS_COMPLETE_REGEX) {
                        spec_tokenize_filter(s, right, !right)
                    } else {
                        Seq::empty()
                    },
                    _ => Seq::empty(),
                };
                let t2: Seq<u64> = if !has_flag(f.mask, IS_HOSTNAME_REGEX) && f.hostname is Some {
                    spec_tokenize(f.hostname->0)
                } else {
                    Seq::empty()
                };
                let tokens = t0 + t1 + t2;
                if tokens.len() == 0 && has_flag(f.mask, IS_REMOVEPARAM)
                    && f.modifier_option is Some && valid_param(f.modifier_option->0) {
                    spec_tokenize(spec_ascii_lowercase(f.modifier_option->0))
                } else {
                    tokens
                }
            }));
        }
        match (&self.opt_domains, &self.opt_not_domains) {
            (Some(d), None) => {
                if tokens.len() == 0 {
                    let mut groups: Vec<Vec<u64>> = Vec::new();
                    let mut i: usize = 0;
                    while i < d.len()
                        invariant
                            i <= d@.len(),
                            groups.deep_view() == d@.take(i as int).map_values(
                                |x: u64| seq![x],
                            ),
                        decreases d.len() - i,
                    {
                        let mut g: Vec<u64> = Vec::new();
                        g.push(d[i]);
                        let ghost before = groups.deep_view();
                        proof {
                            assert(g.deep_view() =~= seq![d@[i as int]]);
                        }
                        let ghost gv = g.deep_view();
                        groups.push(g);
                        proof {
                            assert(groups.deep_view() =~= before.push(gv));
                            assert(d@.take(i + 1).map_values(|x: u64| seq![x]) =~= d@.take(
                                i as int,
                            ).map_values(|x: u64| seq![x]).push(seq![d@[i as int]]));
                        }
                        i += 1;
                    }
                    proof {
                        assert(d@.take(d@.len() as int) =~= d@);
                        assert(d.deep_view() =~= d@);
                    }
                    return groups;
                }
            },
            _ => {},
        }
        let http = self.mask.contains(FROM_HTTP);
        let https = self.mask.contains(FROM_HTTPS);
        if http && !https {
            tokens.push(fast_hash("http"));
        } else if https && !http {
            tokens.push(fast_hash("https"));
        }
        let mut groups: Vec<Vec<u64>> = Vec::new();
        let ghost t = tokens@;
        proof {
            assert(tokens.deep_view() =~= tokens@);
        }
        groups.push(tokens);
        proof {
            assert(groups.deep_view() =~= seq![t]);
        }
        groups
    }

    pub fn is_exception(&self) -> (r: bool)
        ensures
            r == has_flag(self.mask.bits, IS_EXCEPTION),
    {
        self.mask.contains(IS_EXCEPTION)
    }

    pub fn is_hostname_anchor(&self) -> (r: bool)
        ensures
            r == has_flag(self.mask.bits, IS_HOSTNAME_ANCHOR),
    {
        self.mask.contains(IS_HOSTNAME_ANCHOR)
    }

    pub fn is_right_anchor(&self) -> (r: bool)
        ensures
            r == has_flag(self.mask.bits, IS_RIGHT_ANCHOR),
    {
        self.mask.contains(IS_RIGHT_ANCHOR)
    }

    pub fn is_left_anchor(&self) -> (r: bool)
        ensures
            r == has_flag(self.mask.bits, IS_LEFT_ANCHOR),
    {
        self.mask.contains(IS_LEFT_ANCHOR)
    }

    pub fn match_case(&self) -> (r: bool)
        ensures
            r == has_flag(self.mask.bits, MATCH_CASE),
    {
        self.mask.contains(MATCH_CASE)
    }

    pub fn is_important(&self) -> (r: bool)
        ensures
            r == has_flag(self.mask.bits, IS_IMPORTANT),
    {
        self.mask.contains(IS_IMPORTANT)
    }

    pub fn is_redirect(&self) -> (r: bool)
        ensures
            r == has_flag(self.mask.bits, IS_REDIRECT),
    {
        self.mask.contains(IS_REDIRECT)
    }

    pub fn is_removeparam(&self) -> (r: bool)
        ensures
            r == has_flag(self.mask.bits, IS_REMOVEPARAM),
    {
        self.mask.contains(IS_REMOVEPARAM)
    }

    pub fn also_block_redirect(&self) -> (r: bool)
        ensures
            r == has_flag(self.mask.bits, ALSO_BLOCK_REDIRECT),
    {
        self.mask.contains(ALSO_BLOCK_REDIRECT)
    }

    pub fn is_badfilter(&self) -> (r: bool)
        ensures
            r == has_flag(self.mask.bits, BAD_FILTER),
    {
        self.mask.contains(BAD_FILTER)
    }

    pub fn is_generic_hide(&self) -> (r: bool)
        ensures
            r == has_flag(self.mask.bits, GENERIC_HIDE),
    {
        self.mask.contains(GENERIC_HIDE)
    }

    pub fn is_regex(&self) -> (r: bool)
        ensures
            r == has_flag(self.mask.bits, IS_REGEX),
    {
        self.mask.contains(IS_REGEX)
    }

    pub fn is_complete_regex(&self) -> (r: bool)
        ensures
            r == has_flag(self.mask.bits, IS_COMPLETE_REGEX),
    {
        self.mask.contains(IS_COMPLETE_REGEX)
    }

    pub fn is_plain(&self) -> (r: bool)
        ensures
            r == !has_flag(self.mask.bits, IS_REGEX),
    {
        !self.is_regex()
    }

    pub fn is_csp(&self) -> (r: bool)
        ensures
            r == has_flag(self.mask.bits, IS_CSP),
    {
        self.mask.contains(IS_CSP)
    }

    pub fn third_party(&self) -> (r: bool)
        ensures
            r == has_flag(self.mask.bits, THIRD_PARTY),
    {
        self.mask.contains(THIRD_PARTY)
    }

    pub fn first_party(&self) -> (r: bool)
        ensures
            r == has_flag(self.mask.bits, FIRST_PARTY),
    {
        self.mask.contains(FIRST_PARTY)
    }

    pub fn for_http(&self) -> (r: bool)
        ensures
            r == has_flag(self.mask.bits, FROM_HTTP),
    {
        self.mask.contains(FROM_HTTP)
    }

    pub fn for_https(&self) -> (r: bool)
        ensures
            r == has_flag(self.mask.bits, FROM_HTTPS),
    {
        self.mask.contains(FROM_HTTPS)
    }
}

} // verus!
