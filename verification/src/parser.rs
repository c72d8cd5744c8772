//! Extraction of the scheme and host of a URL, following the WHATWG URL parser as far as
//! network filtering needs it.

use vstd::prelude::*;

use crate::utils::{chars_to_string_all, spec_ascii_lowercase, str_to_chars};

verus! {

/// Kind of URL scheme.
#[derive(Clone, Copy, Debug, PartialEq, Eq, Structural)]
pub enum SchemeType {
    File,
    SpecialNotFile,
    NotSpecial,
}

/// Kind of a scheme name.
pub open spec fn spec_scheme_type(s: Seq<char>) -> SchemeType {
    if s == "http"@ || s == "https"@ || s == "ws"@ || s == "wss"@ || s == "ftp"@ || s
        == "gopher"@ {
        SchemeType::SpecialNotFile
    } else if s == "file"@ {
        SchemeType::File
    } else {
        SchemeType::NotSpecial
    }
}

impl SchemeType {
    /// Whether the scheme has the special (http-like) syntax.
    pub fn is_special(&self) -> (r: bool)
        ensures
            r == !(*self is NotSpecial),
    {
        !matches!(*self, SchemeType::NotSpecial)
    }

    /// Whether the scheme is `file`.
    pub fn is_file(&self) -> (r: bool)
        ensures
            r == (*self is File),
    {
        matches!(*self, SchemeType::File)
    }

    /// Kind of a scheme name.
    pub fn from(s: &str) -> (r: Self)
        ensures
            r == spec_scheme_type(s@),
    {
        let v = str_to_chars(s);
        Self::from_chars(&v)
    }

    /// Kind of a scheme name given as characters.
    pub fn from_chars(v: &Vec<char>) -> (r: Self)
        ensures
            r == spec_scheme_type(v@),
    {
        if is_lit(v, "http") || is_lit(v, "https") || is_lit(v, "ws") || is_lit(v, "wss")
            || is_lit(v, "ftp") || is_lit(v, "gopher") {
            SchemeType::SpecialNotFile
        } else if is_lit(v, "file") {
            SchemeType::File
        } else {
            SchemeType::NotSpecial
        }
    }
}

/// Whether `v` holds the characters of `lit`.
fn is_lit(v: &Vec<char>, lit: &str) -> (r: bool)
    ensures
        r == (v@ == lit@),
{
    let l = str_to_chars(lit);
    crate::utils::chars_eq(v.as_slice(), l.as_slice())
}

/// A C0 control character or space, trimmed from both ends of a URL.
pub open spec fn c0_control_or_space(c: char) -> bool {
    (c as u32) <= 32
}

/// Tab and newlines, which the URL parser ignores.
pub open spec fn is_ignored(c: char) -> bool {
    c == '\t' || c == '\n' || c == '\r'
}

/// Number of leading C0-or-space characters of `s` from `i` on.
pub open spec fn lead_c0(s: Seq<char>, i: int) -> int
    decreases s.len() - i,
{
    if 0 <= i < s.len() && c0_control_or_space(s[i]) {
        lead_c0(s, i + 1)
    } else {
        i
    }
}

/// End of `s[..j]` once trailing C0-or-space characters are dropped, not going below `lo`.
pub open spec fn trail_c0(s: Seq<char>, lo: int, j: int) -> int
    decreases j - lo,
{
    if lo < j && j <= s.len() && c0_control_or_space(s[j - 1]) {
        trail_c0(s, lo, j - 1)
    } else {
        j
    }
}

/// The first `n` characters of `s` without tabs and newlines.
pub open spec fn drop_ignored(s: Seq<char>, n: int) -> Seq<char>
    decreases n,
{
    if n <= 0 {
        Seq::empty()
    } else if is_ignored(s[n - 1]) {
        drop_ignored(s, n - 1)
    } else {
        drop_ignored(s, n - 1).push(s[n - 1])
    }
}

/// The characters that the URL parser reads from `input`: trimmed of C0 controls and spaces at
/// both ends, without tabs and newlines.
pub open spec fn spec_input_chars(input: Seq<char>) -> Seq<char> {
    let start = lead_c0(input, 0);
    let end = trail_c0(input, start, input.len() as int);
    let t = input.subrange(start, end);
    drop_ignored(t, t.len() as int)
}

/// Remaining characters of a URL being parsed.
#[derive(Clone, Debug)]
pub struct Input {
    pub chars: Vec<char>,
    pub pos: usize,
}

impl View for Input {
    type V = Seq<char>;

    open spec fn view(&self) -> Seq<char> {
        self.chars@.subrange(self.pos as int, self.chars@.len() as int)
    }
}

impl Input {
    /// Well-formed: the position is within the characters.
    pub open spec fn wf(&self) -> bool {
        self.pos <= self.chars@.len()
    }

    /// The input that the parser reads from `input`.
    pub fn new(input: &str) -> (r: Input)
        ensures
            r.wf(),
            r@ == spec_input_chars(input@),
    {
        let s = str_to_chars(input);
        let mut start: usize = 0;
        while start < s.len() && (s[start] as u32) <= 32
            invariant
                start <= s@.len(),
                lead_c0(s@, 0) == lead_c0(s@, start as int),
            decreases s.len() - start,
        {
            start += 1;
        }
        let mut end: usize = s.len();
        while start < end && (s[end - 1] as u32) <= 32
            invariant
                start <= end <= s@.len(),
                trail_c0(s@, start as int, s@.len() as int) == trail_c0(s@, start as int, end as int),
            decreases end - start,
        {
            end -= 1;
        }
        let ghost t = s@.subrange(start as int, end as int);
        let mut chars: Vec<char> = Vec::new();
        let mut i = start;
        while i < end
            invariant
                start <= i <= end <= s@.len(),
                t == s@.subrange(start as int, end as int),
                chars@ == drop_ignored(t, i - start),
            decreases end - i,
        {
            let c = s[i];
            if !(c == '\t' || c == '\n' || c == '\r') {
                chars.push(c);
            }
            i += 1;
        }
        proof {
            assert(chars@.subrange(0, chars@.len() as int) =~= chars@);
        }
        Input { chars, pos: 0 }
    }

    /// Whether no character is left.
    pub fn is_empty(&self) -> (r: bool)
        requires
            self.wf(),
        ensures
            r == (self@.len() == 0),
    {
        self.pos >= self.chars.len()
    }

    /// The next character, if any, and the input after it.
    pub fn split_first(&self) -> (r: (Option<char>, Input))
        requires
            self.wf(),
        ensures
            r.1.wf(),
            self@.len() == 0 ==> r.0 is None && r.1@ == self@,
            self@.len() > 0 ==> r.0 == Some(self@[0]) && r.1@ == self@.drop_first(),
    {
        if self.pos < self.chars.len() {
            let rest = Input { chars: self.chars.clone(), pos: self.pos + 1 };
            proof {
                assert(rest@ =~= self@.drop_first());
            }
            (Some(self.chars[self.pos]), rest)
        } else {
            (None, Input { chars: self.chars.clone(), pos: self.pos })
        }
    }

    /// Whether the input starts with the characters of `p`.
    pub fn starts_with(&self, p: &str) -> (r: bool)
        requires
            self.wf(),
        ensures
            r == (p@.len() <= self@.len() && self@.subrange(0, p@.len() as int) == p@),
    {
        let pc = str_to_chars(p);
        let rest = crate::utils::sub_chars(self.chars.as_slice(), self.pos, self.chars.len());
        crate::utils::starts_with(rest.as_slice(), pc.as_slice())
    }

    /// The input after the prefix `p`, if it starts with `p`.
    pub fn split_prefix(&self, p: &str) -> (r: Option<Input>)
        requires
            self.wf(),
        ensures
            match r {
                Some(rest) => p@.len() <= self@.len() && self@.subrange(0, p@.len() as int) == p@
                    && rest.wf() && rest@ == self@.subrange(p@.len() as int, self@.len() as int),
                None => !(p@.len() <= self@.len() && self@.subrange(0, p@.len() as int) == p@),
            },
    {
        if self.starts_with(p) {
            let n = str_to_chars(p).len();
            let rest = Input { chars: self.chars.clone(), pos: self.pos + n };
            proof {
                assert(rest@ =~= self@.subrange(n as int, self@.len() as int));
            }
            Some(rest)
        } else {
            None
        }
    }
}

/// `ch` is an ASCII letter.
pub open spec fn spec_ascii_alpha(ch: char) -> bool {
    ('a' <= ch <= 'z') || ('A' <= ch <= 'Z')
}

/// Whether `ch` is an ASCII letter.
pub fn ascii_alpha(ch: char) -> (r: bool)
    ensures
        r == spec_ascii_alpha(ch),
{
    ('a' <= ch && ch <= 'z') || ('A' <= ch && ch <= 'Z')
}

/// Errors of URL host extraction.
#[derive(Clone, Copy, Debug, PartialEq, Eq, Structural)]
pub enum ParseError {
    EmptyHost,
    IdnaError,
    InvalidPort,
    InvalidIpv4Address,
    InvalidIpv6Address,
    InvalidDomainCharacter,
    HostParseError,
    RelativeUrlWithoutBase,
    RelativeUrlWithCannotBeABaseBase,
    SetHostOnCannotBeABaseUrl,
    Overflow,
    FileUrlNotSupported,
}

/// `i` as a `u32`, or `Overflow` when it does not fit.
pub fn to_u32(i: usize) -> (r: Result<u32, ParseError>)
    ensures
        match r {
            Ok(v) => i <= u32::MAX && v == i,
            Err(e) => i > u32::MAX && e == ParseError::Overflow,
        },
{
    if i <= 4294967295usize {
        Ok(i as u32)
    } else {
        Err(ParseError::Overflow)
    }
}

/// A character allowed in a scheme after its first letter.
pub open spec fn scheme_char(c: char) -> bool {
    spec_ascii_alpha(c) || ('0' <= c <= '9') || c == '+' || c == '-' || c == '.'
}

/// Index of the `:` that ends the scheme of `s`, when `s` starts with a valid scheme.
pub open spec fn spec_scheme_end(s: Seq<char>) -> Option<int> {
    if s.len() > 0 && spec_ascii_alpha(s[0]) && exists|k: int|
        0 <= k < s.len() && s[k] == ':' && forall|j: int| 0 <= j < k ==> scheme_char(s[j]) {
        Some(
            choose|k: int|
                0 <= k < s.len() && s[k] == ':' && forall|j: int| 0 <= j < k ==> scheme_char(s[j]),
        )
    } else {
        None
    }
}

/// What a failed read of a scheme leaves in the serialization: the lowercased input where it is
/// all scheme characters after a leading letter but has no `:`; nothing otherwise.
pub open spec fn spec_failed_scheme(s: Seq<char>) -> Seq<char> {
    if s.len() > 0 && spec_ascii_alpha(s[0]) && forall|j: int| 0 <= j < s.len() ==> scheme_char(s[j]) {
        spec_ascii_lowercase(s)
    } else {
        Seq::empty()
    }
}

/// Parser state: the serialization built so far (the lowercased scheme).
pub struct Parser {
    pub serialization: Vec<char>,
}

impl Parser {
    /// Reads a scheme up to `:`; on success the serialization holds it lowercased and the input
    /// after `:` is returned.
    pub fn parse_scheme(&mut self, input: Input) -> (r: Result<Input, ()>)
        requires
            input.wf(),
            old(self).serialization@.len() == 0,
        ensures
            match r {
                Ok(rest) => spec_scheme_end(input@) matches Some(k) && rest.wf() && rest@
                    == input@.subrange(k + 1, input@.len() as int)
                    && final(self).serialization@ == spec_ascii_lowercase(
                    input@.subrange(0, k),
                ),
                Err(()) => spec_scheme_end(input@) is None && final(self).serialization@
                    == spec_failed_scheme(input@),
            },
    {
        let ghost s = input@;
        if input.is_empty() || !ascii_alpha(input.chars[input.pos]) {
            return Err(());
        }
        let mut i = input.pos;
        let start = input.pos;
        while i < input.chars.len()
            invariant
                start <= i <= input.chars@.len(),
                start == input.pos,
                s == input@,
                s.len() > 0 && spec_ascii_alpha(s[0]),
                forall|j: int| 0 <= j < i - start ==> scheme_char(s[j]),
                self.serialization@ == spec_ascii_lowercase(s.subrange(0, i - start)),
            decreases input.chars.len() - i,
        {
            let c = input.chars[i];
            if ('a' <= c && c <= 'z') || ('A' <= c && c <= 'Z') || ('0' <= c && c <= '9') || c
                == '+' || c == '-' || c == '.' {
                let lc = crate::utils::ascii_lower(c);
                self.serialization.push(lc);
                i += 1;
                proof {
                    assert(spec_ascii_lowercase(s.subrange(0, i - start)) =~= spec_ascii_lowercase(
                        s.subrange(0, i - 1 - start),
                    ).push(lc));
                }
            } else if c == ':' {
                let ghost k = (i - start) as int;
                proof {
                    assert(s[k] == ':');
                    let w = choose|w: int|
                        0 <= w < s.len() && s[w] == ':' && forall|j: int|
                            0 <= j < w ==> scheme_char(s[j]);
                    assert(w == k) by {
                        if w < k {
                            assert(scheme_char(s[w]));
                        }
                        if k < w {
                            assert(scheme_char(s[k]));
                        }
                    }
                }
                let rest = Input { chars: input.chars.clone(), pos: i + 1 };
                proof {
                    assert(rest@ =~= s.subrange(k + 1, s.len() as int));
                }
                return Ok(rest);
            } else {
                proof {
                    let k = (i - start) as int;
                    if exists|w: int|
                        0 <= w < s.len() && s[w] == ':' && forall|j: int|
                            0 <= j < w ==> scheme_char(s[j]) {
                        let w = choose|w: int|
                            0 <= w < s.len() && s[w] == ':' && forall|j: int|
                                0 <= j < w ==> scheme_char(s[j]);
                        if w < k {
                            assert(scheme_char(s[w]));
                        } else if w == k {
                        } else {
                            assert(scheme_char(s[k]));
                        }
                    }
                }
                self.serialization = Vec::new();
                proof {
                    assert(!scheme_char(s[(i - start) as int]));
                    assert(self.serialization@ =~= spec_failed_scheme(s));
                }
                return Err(());
            }
        }
        proof {
            assert(s.subrange(0, s.len() as int) =~= s);
            assert(i - start == s.len());
        }
        Err(())
    }
}

/// End of the host of `s` (the part after the scheme, slashes and credentials): the first `:`
/// outside brackets, `/`, `?`, `#`, or (for special schemes) `\`.
pub open spec fn host_end(s: Seq<char>, special: bool, i: int, in_brackets: bool) -> int
    decreases s.len() - i,
{
    if i < 0 || i >= s.len() {
        s.len() as int
    } else {
        let c = s[i];
        if (c == ':' && !in_brackets) || (c == '\\' && special) || c == '/' || c == '?' || c
            == '#' {
            i
        } else {
            host_end(
                s,
                special,
                i + 1,
                if c == '[' {
                    true
                } else if c == ']' {
                    false
                } else {
                    in_brackets
                },
            )
        }
    }
}

/// End of the authority: the first `/`, `?`, `#` or (special) `\`.
pub open spec fn authority_end(s: Seq<char>, special: bool, i: int) -> int
    decreases s.len() - i,
{
    if i < 0 || i >= s.len() {
        s.len() as int
    } else if s[i] == '/' || s[i] == '?' || s[i] == '#' || (s[i] == '\\' && special) {
        i
    } else {
        authority_end(s, special, i + 1)
    }
}

/// Start of the host within the authority `s[..end]`: after the last `@`, if any.
pub open spec fn host_start(s: Seq<char>, end: int) -> int
    decreases end,
{
    if end <= 0 {
        0
    } else if s[end - 1] == '@' {
        end
    } else {
        host_start(s, end - 1)
    }
}

/// The host that `url::Host::parse` makes of a host string, as its `Display` writes it; `None`
/// where the string is refused.
pub uninterp spec fn url_host_parse(h: Seq<char>) -> Option<Seq<char>>;

/// The host that `url::Host::parse_opaque` makes of a host string, as its `Display` writes it;
/// `None` where the string is refused.
pub uninterp spec fn url_host_parse_opaque(h: Seq<char>) -> Option<Seq<char>>;

/// `url::Host::parse` on `h`, the host written out with `Display`; the contract names the
/// result `url_host_parse(h)`.
#[verifier::external_body]
fn host_parse(h: &str) -> (r: Option<String>)
    ensures
        r.deep_view() == url_host_parse(h@),
{
    match url::Host::parse(h) {
        Ok(host) => Some(host.to_string()),
        Err(_) => None,
    }
}

/// `url::Host::parse_opaque` on `h`, the host written out with `Display`; the contract names
/// the result `url_host_parse_opaque(h)`.
#[verifier::external_body]
fn host_parse_opaque(h: &str) -> (r: Option<String>)
    ensures
        r.deep_view() == url_host_parse_opaque(h@),
{
    match url::Host::parse_opaque(h) {
        Ok(host) => Some(host.to_string()),
        Err(_) => None,
    }
}

/// The host that a host string stands for: an empty host is refused for a special scheme;
/// otherwise the host as the `url` crate parses it (as an opaque host for a scheme that is not
/// special), or `HostParseError` where it refuses it.
pub open spec fn spec_parse_host(h: Seq<char>, special: bool) -> Result<Seq<char>, ParseError> {
    if special && h.len() == 0 {
        Err(ParseError::EmptyHost)
    } else {
        match (if special {
            url_host_parse(h)
        } else {
            url_host_parse_opaque(h)
        }) {
            Some(x) => Ok(x),
            None => Err(ParseError::HostParseError),
        }
    }
}

/// Host of the authority that starts `s` (slashes already removed).
pub open spec fn spec_after_double_slash(s: Seq<char>, special: bool) -> Result<
    Option<Seq<char>>,
    ParseError,
> {
    let start = host_start(s, authority_end(s, special, 0));
    let rest = s.subrange(start, s.len() as int);
    let h = rest.subrange(0, host_end(rest, special, 0, false));
    match spec_parse_host(h, special) {
        Ok(x) => Ok(Some(x)),
        Err(e) => Err(e),
    }
}

/// Where the host of the authority at the start of `s` ends.
pub open spec fn spec_host_end_in(s: Seq<char>, special: bool) -> int {
    let start = host_start(s, authority_end(s, special, 0));
    let rest = s.subrange(start, s.len() as int);
    start + host_end(rest, special, 0, false)
}

/// Whether a character of the user information is percent-encoded: controls, space, anything
/// beyond ASCII, and `"#<>`?{}/:;=@[\]^|`.
pub open spec fn in_userinfo_set(c: char) -> bool {
    let u = c as u32;
    u < 0x20 || u >= 0x7F || c == ' ' || c == '"' || c == '#' || c == '<' || c == '>' || c == '`'
        || c == '?' || c == '{' || c == '}' || c == '/' || c == ':' || c == ';' || c == '='
        || c == '@' || c == '[' || c == '\\' || c == ']' || c == '^' || c == '|'
}

/// The UTF-8 encoding of `c`.
pub open spec fn utf8_bytes(c: char) -> Seq<u8> {
    let u = c as u32 as int;
    if u < 0x80 {
        seq![u as u8]
    } else if u < 0x800 {
        seq![(0xC0 + u / 64) as u8, (0x80 + u % 64) as u8]
    } else if u < 0x10000 {
        seq![(0xE0 + u / 4096) as u8, (0x80 + (u / 64) % 64) as u8, (0x80 + u % 64) as u8]
    } else {
        seq![
            (0xF0 + u / 262144) as u8,
            (0x80 + (u / 4096) % 64) as u8,
            (0x80 + (u / 64) % 64) as u8,
            (0x80 + u % 64) as u8,
        ]
    }
}

/// The uppercase hexadecimal digits.
pub open spec fn hex_upper() -> Seq<char> {
    seq!['0', '1', '2', '3', '4', '5', '6', '7', '8', '9', 'A', 'B', 'C', 'D', 'E', 'F']
}

/// `%` and the two uppercase hexadecimal digits of `b`.
pub open spec fn pct_byte(b: u8) -> Seq<char> {
    seq!['%', hex_upper()[b as int / 16], hex_upper()[b as int % 16]]
}

/// Each byte of `bs` percent-encoded.
pub open spec fn pct_bytes(bs: Seq<u8>) -> Seq<char>
    decreases bs.len(),
{
    if bs.len() == 0 {
        Seq::empty()
    } else {
        pct_bytes(bs.drop_last()) + pct_byte(bs.last())
    }
}

/// A character of the user information as serialized: the percent-encoded bytes of its UTF-8
/// encoding where the encode set holds it, the character itself otherwise.
pub open spec fn encode_userinfo_char(c: char) -> Seq<char> {
    if in_userinfo_set(c) {
        pct_bytes(utf8_bytes(c))
    } else {
        seq![c]
    }
}

/// Each character of `u` as serialized in the user information.
pub open spec fn encode_userinfo(u: Seq<char>) -> Seq<char>
    decreases u.len(),
{
    if u.len() == 0 {
        Seq::empty()
    } else {
        encode_userinfo(u.drop_last()) + encode_userinfo_char(u.last())
    }
}

/// Index of the first `:` of `u` from `i` on.
pub open spec fn first_colon(u: Seq<char>, i: int) -> Option<int>
    decreases u.len() - i,
{
    if i < 0 || i >= u.len() {
        None
    } else if u[i] == ':' {
        Some(i)
    } else {
        first_colon(u, i + 1)
    }
}

/// The user information of the authority `s[..start]`, where `start` follows its last `@` (or
/// is `0`), as serialized: nothing when there is none or it is empty; otherwise the user name,
/// `:` and the password where the password (after the first `:`) is not empty, and `@` where
/// either is not empty, each percent-encoded.
pub open spec fn spec_userinfo(s: Seq<char>, start: int) -> Seq<char> {
    if start <= 1 {
        Seq::empty()
    } else {
        let u = s.subrange(0, start - 1);
        match first_colon(u, 0) {
            None => encode_userinfo(u) + seq!['@'],
            Some(k) => {
                let user = u.subrange(0, k);
                let pass = u.subrange(k + 1, u.len() as int);
                encode_userinfo(user) + (if pass.len() > 0 {
                    seq![':'] + encode_userinfo(pass)
                } else {
                    Seq::empty()
                }) + (if user.len() > 0 || pass.len() > 0 {
                    seq!['@']
                } else {
                    Seq::empty()
                })
            },
        }
    }
}

/// The authority at the start of `s` and what follows it, as serialized: `//`, the user
/// information, `host`, and the rest as given.
pub open spec fn spec_authority_serialization(s: Seq<char>, special: bool, host: Seq<char>) -> Seq<
    char,
> {
    let start = host_start(s, authority_end(s, special, 0));
    "//"@ + spec_userinfo(s, start) + host + s.subrange(spec_host_end_in(s, special), s.len() as int)
}

/// `out` followed by the UTF-8 bytes of `c`, percent-encoded.
fn push_pct_utf8(out: &mut Vec<char>, c: char)
    ensures
        final(out)@ == old(out)@ + pct_bytes(utf8_bytes(c)),
{
    let digits: [char; 16] = ['0', '1', '2', '3', '4', '5', '6', '7', '8', '9', 'A', 'B', 'C', 'D', 'E', 'F'];
    let u = c as u32;
    let mut bytes: Vec<u8> = Vec::new();
    if u < 0x80 {
        bytes.push(u as u8);
    } else if u < 0x800 {
        bytes.push((0xC0 + u / 64) as u8);
        bytes.push((0x80 + u % 64) as u8);
    } else if u < 0x10000 {
        bytes.push((0xE0 + u / 4096) as u8);
        bytes.push((0x80 + (u / 64) % 64) as u8);
        bytes.push((0x80 + u % 64) as u8);
    } else {
        bytes.push((0xF0 + u / 262144) as u8);
        bytes.push((0x80 + (u / 4096) % 64) as u8);
        bytes.push((0x80 + (u / 64) % 64) as u8);
        bytes.push((0x80 + u % 64) as u8);
    }
    proof {
        assert(digits@ =~= hex_upper());
        assert(bytes@ =~= utf8_bytes(c));
    }
    let mut i: usize = 0;
    while i < bytes.len()
        invariant
            i <= bytes@.len(),
            digits@ == hex_upper(),
            out@ == old(out)@ + pct_bytes(bytes@.subrange(0, i as int)),
        decreases bytes.len() - i,
    {
        let b = bytes[i];
        out.push('%');
        out.push(digits[(b / 16) as usize]);
        out.push(digits[(b % 16) as usize]);
        proof {
            assert(bytes@.subrange(0, i + 1).drop_last() =~= bytes@.subrange(0, i as int));
        }
        i += 1;
    }
    proof {
        assert(bytes@.subrange(0, bytes@.len() as int) =~= bytes@);
    }
}

/// Whether `c` is in the user-information encode set.
fn userinfo_set_holds(c: char) -> (r: bool)
    ensures
        r == in_userinfo_set(c),
{
    let u = c as u32;
    u < 0x20 || u >= 0x7F || c == ' ' || c == '"' || c == '#' || c == '<' || c == '>' || c == '`'
        || c == '?' || c == '{' || c == '}' || c == '/' || c == ':' || c == ';' || c == '='
        || c == '@' || c == '[' || c == '\\' || c == ']' || c == '^' || c == '|'
}

/// `out` followed by `s[a..b]` as serialized in the user information.
fn push_userinfo_part(out: &mut Vec<char>, s: &[char], a: usize, b: usize)
    requires
        a <= b <= s@.len(),
    ensures
        final(out)@ == old(out)@ + encode_userinfo(s@.subrange(a as int, b as int)),
{
    let mut i = a;
    while i < b
        invariant
            a <= i <= b <= s@.len(),
            out@ == old(out)@ + encode_userinfo(s@.subrange(a as int, i as int)),
        decreases b - i,
    {
        let c = s[i];
        let ghost before = out@;
        if userinfo_set_holds(c) {
            push_pct_utf8(out, c);
        } else {
            out.push(c);
        }
        proof {
            assert(s@.subrange(a as int, i + 1).drop_last() =~= s@.subrange(a as int, i as int));
            assert(out@ =~= before + encode_userinfo_char(c));
        }
        i += 1;
    }
}

/// `out` followed by the user information of the authority `s[..start]` (see `spec_userinfo`).
fn push_userinfo(out: &mut Vec<char>, s: &[char], start: usize)
    requires
        start <= s@.len(),
    ensures
        final(out)@ == old(out)@ + spec_userinfo(s@, start as int),
{
    if start <= 1 {
        proof {
            assert(old(out)@ + spec_userinfo(s@, start as int) =~= old(out)@);
        }
        return;
    }
    let n = start - 1;
    let ghost u = s@.subrange(0, n as int);
    let mut k: usize = 0;
    while k < n && s[k] != ':'
        invariant
            k <= n < s@.len(),
            u == s@.subrange(0, n as int),
            first_colon(u, 0) == first_colon(u, k as int),
        decreases n - k,
    {
        k += 1;
    }
    if k == n {
        push_userinfo_part(out, s, 0, n);
        out.push('@');
        proof {
            assert(first_colon(u, 0) is None);
            assert(out@ =~= old(out)@ + spec_userinfo(s@, start as int));
        }
    } else {
        proof {
            assert(first_colon(u, 0) == Some(k as int));
            assert(u.subrange(0, k as int) =~= s@.subrange(0, k as int));
            assert(u.subrange(k + 1, u.len() as int) =~= s@.subrange(k + 1, n as int));
        }
        push_userinfo_part(out, s, 0, k);
        if k + 1 < n {
            out.push(':');
            push_userinfo_part(out, s, k + 1, n);
        }
        if k > 0 || k + 1 < n {
            out.push('@');
        }
        proof {
            assert(out@ =~= old(out)@ + spec_userinfo(s@, start as int));
        }
    }
}

/// Number of leading `/` and `\` of `s` from `i` on.
pub open spec fn slash_count(s: Seq<char>, i: int) -> int
    decreases s.len() - i,
{
    if 0 <= i < s.len() && (s[i] == '/' || s[i] == '\\') {
        slash_count(s, i + 1)
    } else {
        i
    }
}

/// Scheme and host (if the URL has one) of a URL, or why it cannot be parsed.
pub open spec fn spec_parse_url(url: Seq<char>) -> Result<(Seq<char>, Option<Seq<char>>), ParseError> {
    let s = spec_input_chars(url);
    match spec_scheme_end(s) {
        None => Err(ParseError::RelativeUrlWithoutBase),
        Some(k) => {
            let scheme = spec_ascii_lowercase(s.subrange(0, k));
            let rest = s.subrange(k + 1, s.len() as int);
            match spec_scheme_type(scheme) {
                SchemeType::File => Err(ParseError::FileUrlNotSupported),
                SchemeType::SpecialNotFile => {
                    let r2 = rest.subrange(slash_count(rest, 0), rest.len() as int);
                    match spec_after_double_slash(r2, true) {
                        Ok(h) => Ok((scheme, h)),
                        Err(e) => Err(e),
                    }
                },
                SchemeType::NotSpecial => {
                    if rest.len() >= 2 && rest[0] == '/' && rest[1] == '/' {
                        match spec_after_double_slash(rest.subrange(2, rest.len() as int), false) {
                            Ok(h) => Ok((scheme, h)),
                            Err(e) => Err(e),
                        }
                    } else {
                        Ok((scheme, None))
                    }
                },
            }
        },
    }
}

/// The URL as it is serialized once parsed: lowercase scheme, `//`, the user information
/// percent-encoded (see `spec_userinfo`), the host as the `url` crate parses it, and the rest of
/// the URL as given; `None` when the URL has no host.
pub open spec fn spec_url_serialization(url: Seq<char>) -> Option<Seq<char>> {
    let s = spec_input_chars(url);
    match spec_scheme_end(s) {
        None => None,
        Some(k) => {
            let scheme = spec_ascii_lowercase(s.subrange(0, k));
            let rest = s.subrange(k + 1, s.len() as int);
            match spec_scheme_type(scheme) {
                SchemeType::File => None,
                SchemeType::SpecialNotFile => {
                    let r2 = rest.subrange(slash_count(rest, 0), rest.len() as int);
                    match spec_after_double_slash(r2, true) {
                        Ok(Some(h)) => Some(scheme + ":"@ + spec_authority_serialization(r2, true, h)),
                        _ => None,
                    }
                },
                SchemeType::NotSpecial => {
                    if rest.len() >= 2 && rest[0] == '/' && rest[1] == '/' {
                        let r2 = rest.subrange(2, rest.len() as int);
                        match spec_after_double_slash(r2, false) {
                            Ok(Some(h)) => Some(
                                scheme + ":"@ + spec_authority_serialization(r2, false, h),
                            ),
                            _ => None,
                        }
                    } else {
                        None
                    }
                },
            }
        },
    }
}

/// Scheme and host of a parsed URL, and the URL as serialized.
#[derive(Clone, Debug)]
pub struct Hostname {
    pub scheme: String,
    pub host: Option<String>,
    pub serialization: String,
}

/// Host of the authority at the start of `s`.
fn after_double_slash(s: &[char], special: bool) -> (r: Result<
    (Option<Vec<char>>, usize, usize),
    ParseError,
>)
    ensures
        match r {
            Ok((h, start, hend)) => spec_after_double_slash(s@, special) == Ok::<
                Option<Seq<char>>,
                ParseError,
            >(h.deep_view()) && start == host_start(s@, authority_end(s@, special, 0))
                && hend == spec_host_end_in(s@, special) && start <= hend <= s@.len(),
            Err(e) => spec_after_double_slash(s@, special) == Err::<
                Option<Seq<char>>,
                ParseError,
            >(e),
        },
{
    let mut end: usize = 0;
    while end < s.len() && !(s[end] == '/' || s[end] == '?' || s[end] == '#' || (s[end] == '\\'
        && special))
        invariant
            end <= s@.len(),
            authority_end(s@, special, 0) == authority_end(s@, special, end as int),
        decreases s.len() - end,
    {
        end += 1;
    }
    let mut start = end;
    while start > 0 && s[start - 1] != '@'
        invariant
            start <= end <= s@.len(),
            host_start(s@, end as int) == host_start(s@, start as int),
        decreases start,
    {
        start -= 1;
    }
    let rest = crate::utils::sub_chars(s, start, s.len());
    let mut i: usize = 0;
    let mut in_brackets = false;
    while i < rest.len() && !((rest[i] == ':' && !in_brackets) || (rest[i] == '\\' && special)
        || rest[i] == '/' || rest[i] == '?' || rest[i] == '#')
        invariant
            i <= rest@.len(),
            host_end(rest@, special, 0, false) == host_end(rest@, special, i as int, in_brackets),
        decreases rest.len() - i,
    {
        if rest[i] == '[' {
            in_brackets = true;
        } else if rest[i] == ']' {
            in_brackets = false;
        }
        i += 1;
    }
    let h = crate::utils::sub_chars(rest.as_slice(), 0, i);
    match Parser::parse_host(h.as_slice(), special) {
        Ok(x) => {
            proof {
                assert(x.deep_view() =~= x@);
            }
            Ok((Some(x), start, start + i))
        },
        Err(e) => Err(e),
    }
}

impl Parser {
    /// Parses a host string (see `spec_parse_host`).
    pub fn parse_host(h: &[char], special: bool) -> (r: Result<Vec<char>, ParseError>)
        ensures
            match r {
                Ok(x) => spec_parse_host(h@, special) == Ok::<Seq<char>, ParseError>(x@),
                Err(e) => spec_parse_host(h@, special) == Err::<Seq<char>, ParseError>(e),
            },
    {
        if special && h.len() == 0 {
            return Err(ParseError::EmptyHost);
        }
        let text = chars_to_string_all(h);
        let parsed = if special {
            host_parse(text.as_str())
        } else {
            host_parse_opaque(text.as_str())
        };
        match parsed {
            Some(x) => Ok(str_to_chars(x.as_str())),
            None => Err(ParseError::HostParseError),
        }
    }
}

/// `out` followed by `s[a..b]`.
fn push_range(out: &mut Vec<char>, s: &[char], a: usize, b: usize)
    requires
        a <= b <= s@.len(),
    ensures
        final(out)@ == old(out)@ + s@.subrange(a as int, b as int),
{
    let mut i = a;
    while i < b
        invariant
            a <= i <= b <= s@.len(),
            out@ == old(out)@ + s@.subrange(a as int, i as int),
        decreases b - i,
    {
        out.push(s[i]);
        i += 1;
        proof {
            assert(s@.subrange(a as int, i as int) =~= s@.subrange(a as int, i - 1).push(s@[i - 1]));
        }
    }
}

/// `scheme:` followed by the authority of `s` with its host replaced by `host`, and the rest.
fn serialize_url(scheme: &Vec<char>, s: &[char], start: usize, host: &Vec<char>, hend: usize) -> (r:
    String)
    requires
        start <= hend <= s@.len(),
    ensures
        r@ == scheme@ + ":"@ + ("//"@ + spec_userinfo(s@, start as int) + host@ + s@.subrange(
            hend as int,
            s@.len() as int,
        )),
{
    let mut out: Vec<char> = Vec::new();
    push_range(&mut out, scheme.as_slice(), 0, scheme.len());
    out.push(':');
    out.push('/');
    out.push('/');
    push_userinfo(&mut out, s, start);
    push_range(&mut out, host.as_slice(), 0, host.len());
    push_range(&mut out, s, hend, s.len());
    proof {
        reveal_strlit(":");
        reveal_strlit("//");
        assert(scheme@.subrange(0, scheme@.len() as int) =~= scheme@);
        assert(host@.subrange(0, host@.len() as int) =~= host@);
        assert(out@ =~= scheme@ + ":"@ + ("//"@ + spec_userinfo(s@, start as int) + host@
            + s@.subrange(hend as int, s@.len() as int)));
    }
    crate::utils::chars_to_string_all(out.as_slice())
}

/// The host as a string.
fn host_string(h: Option<Vec<char>>) -> (r: Option<String>)
    ensures
        r.deep_view() == h.deep_view(),
{
    match h {
        Some(x) => {
            let t = crate::utils::chars_to_string_all(x.as_slice());
            proof {
                assert(x.deep_view() =~= x@);
            }
            Some(t)
        },
        None => None,
    }
}

impl Parser {
    /// Parses the scheme and host of a URL, and serializes it (see `Hostname::parse`).
    pub fn parse_url(self, input: &str) -> (r: Result<Hostname, ParseError>)
        requires
            self.serialization@.len() == 0,
        ensures
            match r {
                Ok(h) => spec_parse_url(input@) == Ok::<
                    (Seq<char>, Option<Seq<char>>),
                    ParseError,
                >((h.scheme@, h.host.deep_view())) && (h.host is Some ==> spec_url_serialization(
                    input@,
                ) == Some(h.serialization@)) && (h.host is None ==> spec_url_serialization(
                    input@,
                ) is None),
                Err(e) => spec_parse_url(input@) == Err::<
                    (Seq<char>, Option<Seq<char>>),
                    ParseError,
                >(e),
            },
    {
        let inp = Input::new(input);
        let mut parser = self;
        let rest = match parser.parse_scheme(inp) {
            Ok(r) => r,
            Err(()) => {
                return Err(ParseError::RelativeUrlWithoutBase);
            },
        };
        let scheme_chars = parser.serialization;
        let scheme_type = SchemeType::from_chars(&scheme_chars);
        let scheme = crate::utils::chars_to_string_all(scheme_chars.as_slice());
        let tail = crate::utils::sub_chars(rest.chars.as_slice(), rest.pos, rest.chars.len());
        proof {
            assert(tail@ == rest@);
        }
        match scheme_type {
            SchemeType::File => Err(ParseError::FileUrlNotSupported),
            SchemeType::SpecialNotFile => {
                let mut k: usize = 0;
                while k < tail.len() && (tail[k] == '/' || tail[k] == '\\')
                    invariant
                        k <= tail@.len(),
                        slash_count(tail@, 0) == slash_count(tail@, k as int),
                    decreases tail.len() - k,
                {
                    k += 1;
                }
                let r2 = crate::utils::sub_chars(tail.as_slice(), k, tail.len());
                match after_double_slash(r2.as_slice(), true) {
                    Ok((h, start, hend)) => {
                        let serialization = match &h {
                            Some(x) => serialize_url(&scheme_chars, r2.as_slice(), start, x, hend),
                            None => String::new(),
                        };
                        Ok(Hostname { scheme, host: host_string(h), serialization })
                    },
                    Err(e) => Err(e),
                }
            },
            SchemeType::NotSpecial => {
                if tail.len() >= 2 && tail[0] == '/' && tail[1] == '/' {
                    let r2 = crate::utils::sub_chars(tail.as_slice(), 2, tail.len());
                    match after_double_slash(r2.as_slice(), false) {
                        Ok((h, start, hend)) => {
                            let serialization = match &h {
                                Some(x) => serialize_url(&scheme_chars, r2.as_slice(), start, x, hend),
                                None => String::new(),
                            };
                            Ok(Hostname { scheme, host: host_string(h), serialization })
                        },
                        Err(e) => Err(e),
                    }
                } else {
                    Ok(Hostname { scheme, host: None, serialization: String::new() })
                }
            },
        }
    }

}

impl Hostname {
    /// Parses the scheme and host of a URL.
    pub fn parse(input: &str) -> (r: Result<Hostname, ParseError>)
        ensures
            match r {
                Ok(h) => spec_parse_url(input@) == Ok::<
                    (Seq<char>, Option<Seq<char>>),
                    ParseError,
                >((h.scheme@, h.host.deep_view())) && (h.host is Some ==> spec_url_serialization(
                    input@,
                ) == Some(h.serialization@)) && (h.host is None ==> spec_url_serialization(
                    input@,
                ) is None),
                Err(e) => spec_parse_url(input@) == Err::<
                    (Seq<char>, Option<Seq<char>>),
                    ParseError,
                >(e),
            },
    {
        Parser { serialization: Vec::new() }.parse_url(input)
    }

    /// Whether the URL has a host.
    pub fn has_host(&self) -> (r: bool)
        ensures
            r == self.host is Some,
    {
        self.host.is_some()
    }

    /// The host, if the URL has one.
    pub fn host_str(&self) -> (r: Option<&str>)
        ensures
            r.deep_view() == self.host.deep_view(),
    {
        match &self.host {
            Some(h) => Some(h.as_str()),
            None => None,
        }
    }

    /// The URL as serialized: scheme, authority with the parsed host, and the rest as given.
    pub fn url_str(&self) -> (r: &str)
        ensures
            r@ == self.serialization@,
    {
        self.serialization.as_str()
    }
}

} // verus!
