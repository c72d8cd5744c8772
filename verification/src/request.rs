//! Network requests as the matcher sees them: the URL (and its lowercase form), the hostnames
//! involved, the request type and the token hashes used to look up candidate filters.

use vstd::prelude::*;

use crate::filters::network::{rindex_of, spec_rindex_of};
use crate::parser::{spec_parse_url, spec_url_serialization, Hostname};
use crate::utils::{
    chars_to_string, chars_to_string_all, eq_lit, hash_chars_range, spec_ascii_lowercase,
    spec_fast_hash, spec_tokenize, str_ascii_lowercase, str_eq, str_to_chars, tokenize, HASH_SEED,
};

verus! {

/// HTTP method of a request.
#[derive(Clone, Copy, Debug, PartialEq, Eq, Structural)]
pub enum RequestMethod {
    Connect,
    Delete,
    Get,
    Head,
    Options,
    Patch,
    Post,
    Put,
    Other,
}

/// The type of resource requested from the URL endpoint.
#[derive(Clone, Copy, Debug, PartialEq, Eq, Structural)]
pub enum RequestType {
    Beacon,
    Csp,
    Document,
    Dtd,
    Fetch,
    Font,
    Image,
    Media,
    Object,
    Other,
    Ping,
    Script,
    Stylesheet,
    Subdocument,
    Websocket,
    Xlst,
    Xmlhttprequest,
}

/// Possible failure reasons when creating a `Request`.
#[derive(Clone, Copy, Debug, PartialEq, Eq, Structural)]
pub enum RequestError {
    HostnameParseError,
    SourceHostnameParseError,
    UnicodeDecodingError,
}

/// The request type named by a content-policy type string.
pub open spec fn spec_cpt_match_type(cpt: Seq<char>) -> RequestType {
    if cpt == "beacon"@ {
        RequestType::Ping
    } else if cpt == "csp_report"@ {
        RequestType::Csp
    } else if cpt == "document"@ || cpt == "main_frame"@ {
        RequestType::Document
    } else if cpt == "font"@ {
        RequestType::Font
    } else if cpt == "image"@ || cpt == "imageset"@ {
        RequestType::Image
    } else if cpt == "media"@ {
        RequestType::Media
    } else if cpt == "object"@ || cpt == "object_subrequest"@ {
        RequestType::Object
    } else if cpt == "ping"@ {
        RequestType::Ping
    } else if cpt == "script"@ {
        RequestType::Script
    } else if cpt == "stylesheet"@ {
        RequestType::Stylesheet
    } else if cpt == "sub_frame"@ || cpt == "subdocument"@ {
        RequestType::Subdocument
    } else if cpt == "websocket"@ {
        RequestType::Websocket
    } else if cpt == "xhr"@ || cpt == "xmlhttprequest"@ {
        RequestType::Xmlhttprequest
    } else {
        RequestType::Other
    }
}

/// Maps a content-policy type string to a request type; unknown strings give `Other`.
pub fn cpt_match_type(cpt: &str) -> (r: RequestType)
    ensures
        r == spec_cpt_match_type(cpt@),
{
    let v = str_to_chars(cpt);
    let s = v.as_slice();
    if eq_lit(s, "beacon") {
        RequestType::Ping
    } else if eq_lit(s, "csp_report") {
        RequestType::Csp
    } else if eq_lit(s, "document") || eq_lit(s, "main_frame") {
        RequestType::Document
    } else if eq_lit(s, "font") {
        RequestType::Font
    } else if eq_lit(s, "image") || eq_lit(s, "imageset") {
        RequestType::Image
    } else if eq_lit(s, "media") {
        RequestType::Media
    } else if eq_lit(s, "object") || eq_lit(s, "object_subrequest") {
        RequestType::Object
    } else if eq_lit(s, "ping") {
        RequestType::Ping
    } else if eq_lit(s, "script") {
        RequestType::Script
    } else if eq_lit(s, "stylesheet") {
        RequestType::Stylesheet
    } else if eq_lit(s, "sub_frame") || eq_lit(s, "subdocument") {
        RequestType::Subdocument
    } else if eq_lit(s, "websocket") {
        RequestType::Websocket
    } else if eq_lit(s, "xhr") || eq_lit(s, "xmlhttprequest") {
        RequestType::Xmlhttprequest
    } else {
        RequestType::Other
    }
}

/// The method named by `raw`, compared without regard to ASCII case; `None` when empty.
pub open spec fn spec_parse_method(raw: Seq<char>) -> Option<RequestMethod> {
    let l = spec_ascii_lowercase(raw);
    if raw.len() == 0 {
        None
    } else if l == "connect"@ {
        Some(RequestMethod::Connect)
    } else if l == "delete"@ {
        Some(RequestMethod::Delete)
    } else if l == "get"@ {
        Some(RequestMethod::Get)
    } else if l == "head"@ {
        Some(RequestMethod::Head)
    } else if l == "options"@ {
        Some(RequestMethod::Options)
    } else if l == "patch"@ {
        Some(RequestMethod::Patch)
    } else if l == "post"@ {
        Some(RequestMethod::Post)
    } else if l == "put"@ {
        Some(RequestMethod::Put)
    } else {
        Some(RequestMethod::Other)
    }
}

/// Reads an HTTP method name, ignoring ASCII case.
pub fn parse_method(raw_method: &str) -> (r: Option<RequestMethod>)
    ensures
        r == spec_parse_method(raw_method@),
{
    let v = str_to_chars(raw_method);
    if v.len() == 0 {
        return None;
    }
    let lv = crate::utils::ascii_lowercase(v.as_slice());
    let l = lv.as_slice();
    Some(
        if eq_lit(l, "connect") {
            RequestMethod::Connect
        } else if eq_lit(l, "delete") {
            RequestMethod::Delete
        } else if eq_lit(l, "get") {
            RequestMethod::Get
        } else if eq_lit(l, "head") {
            RequestMethod::Head
        } else if eq_lit(l, "options") {
            RequestMethod::Options
        } else if eq_lit(l, "patch") {
            RequestMethod::Patch
        } else if eq_lit(l, "post") {
            RequestMethod::Post
        } else if eq_lit(l, "put") {
            RequestMethod::Put
        } else {
            RequestMethod::Other
        },
    )
}

/// Hashes of `h` and of each of its suffixes that starts after a `.` at an index below `n`
/// (the `.` not being the last character).
pub open spec fn suffix_hashes_upto(h: Seq<char>, n: int) -> Seq<u64>
    decreases n,
{
    if n <= 0 {
        seq![spec_fast_hash(h)]
    } else {
        let prev = suffix_hashes_upto(h, n - 1);
        if n - 1 < h.len() && h[n - 1] == '.' && n < h.len() {
            prev.push(spec_fast_hash(h.subrange(n, h.len() as int)))
        } else {
            prev
        }
    }
}

/// Hashes of a hostname and of all its dot-separated suffixes, the whole hostname first;
/// `None` for an empty hostname.
pub open spec fn spec_suffix_hostname_hashes(h: Seq<char>) -> Option<Seq<u64>> {
    if h.len() == 0 {
        None
    } else {
        Some(suffix_hashes_upto(h, h.len() as int))
    }
}

/// Hashes of a hostname and of its dot-separated suffixes.
pub fn suffix_hostname_hashes(hostname: &str) -> (r: Option<Vec<u64>>)
    ensures
        r.deep_view() == spec_suffix_hostname_hashes(hostname@),
{
    let h = str_to_chars(hostname);
    if h.len() == 0 {
        return None;
    }
    let mut out: Vec<u64> = Vec::new();
    proof {
        assert(h@.subrange(0, h@.len() as int) =~= h@);
    }
    out.push(hash_chars_range(HASH_SEED, h.as_slice(), 0, h.len()));
    let mut i: usize = 0;
    while i < h.len()
        invariant
            i <= h@.len(),
            out@ == suffix_hashes_upto(h@, i as int),
        decreases h.len() - i,
    {
        if h[i] == '.' && i + 1 < h.len() {
            let x = hash_chars_range(HASH_SEED, h.as_slice(), i + 1, h.len());
            out.push(x);
        }
        i += 1;
    }
    proof {
        assert(out.deep_view() =~= out@);
    }
    Some(out)
}

/// Token hashes of a lowercased URL, followed by the `0` token under which filters without a
/// token are filed.
pub open spec fn spec_request_tokens(url_lower: Seq<char>) -> Seq<u64> {
    spec_tokenize(url_lower).push(0)
}

/// Token hashes of a lowercased URL, plus the fallback `0` token.
pub fn calculate_tokens(url_lower_cased: &str) -> (r: Vec<u64>)
    ensures
        r@ == spec_request_tokens(url_lower_cased@),
{
    let mut t = tokenize(url_lower_cased);
    t.push(0);
    t
}

/// A digit or a dot.
pub open spec fn is_ip_char(c: char) -> bool {
    ('0' <= c && c <= '9') || c == '.'
}

/// Whether a hostname is an IP address literal: in brackets, or only digits and dots.
pub open spec fn is_ip_host(h: Seq<char>) -> bool {
    h.len() > 0 && (h[0] == '[' || forall|i: int| 0 <= i < h.len() ==> is_ip_char(#[trigger] h[i]))
}

/// Start of the domain within a hostname: the last two labels, or the whole hostname when it
/// has fewer labels or is an IP address.
pub open spec fn spec_domain_start(h: Seq<char>) -> int {
    if is_ip_host(h) {
        0
    } else {
        match spec_rindex_of(h, '.') {
            None => 0,
            Some(last) => match spec_rindex_of(h.subrange(0, last), '.') {
                None => 0,
                Some(j) => j + 1,
            },
        }
    }
}

/// The domain part of a hostname.
pub open spec fn spec_host_domain(h: Seq<char>) -> Seq<char> {
    h.subrange(spec_domain_start(h), h.len() as int)
}

fn is_ip_host_exec(h: &[char]) -> (r: bool)
    ensures
        r == is_ip_host(h@),
{
    if h.len() == 0 {
        return false;
    }
    if h[0] == '[' {
        return true;
    }
    let mut i: usize = 0;
    while i < h.len()
        invariant
            i <= h@.len(),
            h@[0] != '[',
            forall|j: int| 0 <= j < i ==> is_ip_char(#[trigger] h@[j]),
        decreases h.len() - i,
    {
        if !(('0' <= h[i] && h[i] <= '9') || h[i] == '.') {
            assert(!is_ip_char(h@[i as int]));
            return false;
        }
        i += 1;
    }
    true
}

/// Bounds of the domain within a hostname (start, end).
pub fn get_host_domain(hostname: &str) -> (r: (usize, usize))
    ensures
        r.0 == spec_domain_start(hostname@),
        r.1 == hostname@.len(),
        r.0 <= r.1,
{
    let h = str_to_chars(hostname);
    if is_ip_host_exec(h.as_slice()) {
        return (0, h.len());
    }
    match rindex_of(h.as_slice(), '.') {
        None => (0, h.len()),
        Some(last) => {
            let before = crate::utils::sub_chars(h.as_slice(), 0, last);
            match rindex_of(before.as_slice(), '.') {
                None => (0, h.len()),
                Some(j) => (j + 1, h.len()),
            }
        },
    }
}

/// Flags derived from the scheme: (is_http, is_https, is_supported, request type).
pub open spec fn spec_request_kind(schema: Seq<char>, raw_type: Seq<char>) -> (
    bool,
    bool,
    bool,
    RequestType,
) {
    if schema.len() == 0 {
        (false, true, true, spec_cpt_match_type(raw_type))
    } else {
        let is_http = schema == "http"@;
        let is_https = !is_http && schema == "https"@;
        let ws = !is_http && !is_https && (schema == "ws"@ || schema == "wss"@);
        (
            is_http,
            is_https,
            is_http || is_https || ws,
            if ws {
                RequestType::Websocket
            } else {
                spec_cpt_match_type(raw_type)
            },
        )
    }
}

/// A network request, as the blocker sees it.
#[derive(Debug)]
pub struct Request {
    pub request_type: RequestType,
    pub method: Option<RequestMethod>,
    pub is_http: bool,
    pub is_https: bool,
    pub is_supported: bool,
    pub is_third_party: bool,
    pub url: String,
    pub hostname: String,
    pub domain: String,
    pub source_hostname: String,
    /// Hashes of the source hostname and its suffixes.
    pub source_hostname_hashes: Option<Vec<u64>>,
    pub url_lower_cased: String,
    pub request_tokens: Vec<u64>,
    pub original_url: String,
}

/// `r` is the request built from these parameters.
pub open spec fn is_detailed_request(
    r: Request,
    raw_type: Seq<char>,
    url: Seq<char>,
    schema: Seq<char>,
    hostname: Seq<char>,
    domain: Seq<char>,
    source_hostname: Seq<char>,
    third_party: bool,
    original_url: Seq<char>,
    method: Option<RequestMethod>,
) -> bool {
    let k = spec_request_kind(schema, raw_type);
    &&& r.is_http == k.0
    &&& r.is_https == k.1
    &&& r.is_supported == k.2
    &&& r.request_type == k.3
    &&& r.method == method
    &&& r.is_third_party == third_party
    &&& r.url@ == url
    &&& r.url_lower_cased@ == spec_ascii_lowercase(url)
    &&& r.hostname@ == hostname
    &&& r.domain@ == domain
    &&& r.source_hostname@ == source_hostname
    &&& r.source_hostname_hashes.deep_view() == spec_suffix_hostname_hashes(source_hostname)
    &&& r.request_tokens@ == spec_request_tokens(spec_ascii_lowercase(url))
    &&& r.original_url@ == original_url
}

/// Scheme, hostname and serialized form of a URL that has a host.
pub open spec fn spec_parse_request_url(url: Seq<char>) -> Option<(Seq<char>, Seq<char>, Seq<char>)> {
    match spec_parse_url(url) {
        Ok((scheme, Some(host))) => match spec_url_serialization(url) {
            Some(norm) => Some((scheme, host, norm)),
            None => None,
        },
        _ => None,
    }
}

/// Scheme, hostname and serialized form of a URL, when it parses and has a host.
pub fn parse_request_url(url: &str) -> (r: Option<(String, String, String)>)
    ensures
        match r {
            Some((s, h, n)) => spec_parse_request_url(url@) == Some((s@, h@, n@)),
            None => spec_parse_request_url(url@) is None,
        },
{
    match Hostname::parse(url) {
        Ok(parsed) => match parsed.host {
            Some(h) => Some((parsed.scheme, h, parsed.serialization)),
            None => None,
        },
        Err(_) => None,
    }
}

/// The request that `Request::new` builds from its arguments, or its error.
pub open spec fn spec_new_request_ok(
    r: Request,
    url: Seq<char>,
    source_url: Seq<char>,
    request_type: Seq<char>,
    method: Seq<char>,
) -> bool {
    match spec_parse_request_url(url) {
        None => false,
        Some((scheme, host, norm)) => {
            let domain = spec_host_domain(host);
            match spec_parse_request_url(source_url) {
                Some((_, source_host, _)) => is_detailed_request(
                    r,
                    request_type,
                    norm,
                    scheme,
                    host,
                    domain,
                    source_host,
                    spec_host_domain(source_host) != domain,
                    url,
                    spec_parse_method(method),
                ),
                None => is_detailed_request(
                    r,
                    request_type,
                    norm,
                    scheme,
                    host,
                    domain,
                    Seq::empty(),
                    true,
                    url,
                    spec_parse_method(method),
                ),
            }
        },
    }
}

/// Party of a request: its `domain` is the registrable part of its hostname, and it is
/// third-party exactly when the registrable part of the source hostname differs from it
/// (so subdomains of one site are first-party to each other). A source URL without a host
/// makes every request third-party.
pub proof fn law_third_party_is_domain_difference(
    r: Request,
    url: Seq<char>,
    source_url: Seq<char>,
    request_type: Seq<char>,
    method: Seq<char>,
)
    requires
        spec_new_request_ok(r, url, source_url, request_type, method),
    ensures
        r.domain@ == spec_host_domain(r.hostname@),
        spec_parse_request_url(source_url) is Some ==> (r.is_third_party <==> spec_host_domain(
            r.source_hostname@,
        ) != spec_host_domain(r.hostname@)),
        spec_parse_request_url(source_url) is None ==> r.is_third_party,
        spec_parse_request_url(source_url) is Some && r.source_hostname@ == r.hostname@
            ==> !r.is_third_party,
{
}

/// The part of `s` from `start` to its end, as a string.
fn tail_string(s: &str, start: usize) -> (r: String)
    requires
        start <= s@.len(),
    ensures
        r@ == s@.subrange(start as int, s@.len() as int),
{
    let v = str_to_chars(s);
    chars_to_string(v.as_slice(), start, v.len())
}

impl Request {
    /// The URL as written, or its lowercase form.
    pub fn get_url(&self, case_sensitive: bool) -> (r: &str)
        ensures
            r@ == (if case_sensitive {
                self.url@
            } else {
                self.url_lower_cased@
            }),
    {
        if case_sensitive {
            self.url.as_str()
        } else {
            self.url_lower_cased.as_str()
        }
    }

    /// Token hashes of the URL.
    pub fn get_tokens(&self) -> (r: &Vec<u64>)
        ensures
            r@ == self.request_tokens@,
    {
        &self.request_tokens
    }

    /// The tokens under which matching filters are looked up: the source hostname hashes
    /// first (there are few of them), then the URL tokens.
    pub fn get_tokens_for_match(&self) -> (r: Vec<u64>)
        ensures
            r@ == (match self.source_hostname_hashes {
                Some(h) => h@,
                None => Seq::empty(),
            }) + self.request_tokens@,
    {
        let mut out: Vec<u64> = Vec::new();
        match &self.source_hostname_hashes {
            Some(h) => {
                let mut i: usize = 0;
                while i < h.len()
                    invariant
                        i <= h@.len(),
                        out@ == h@.subrange(0, i as int),
                    decreases h.len() - i,
                {
                    out.push(h[i]);
                    i += 1;
                    proof {
                        assert(out@ =~= h@.subrange(0, i as int));
                    }
                }
                proof {
                    assert(h@.subrange(0, h@.len() as int) =~= h@);
                }
            },
            None => {},
        }
        let ghost prefix = out@;
        let mut j: usize = 0;
        while j < self.request_tokens.len()
            invariant
                j <= self.request_tokens@.len(),
                out@ == prefix + self.request_tokens@.subrange(0, j as int),
            decreases self.request_tokens.len() - j,
        {
            out.push(self.request_tokens[j]);
            j += 1;
            proof {
                assert(out@ =~= prefix + self.request_tokens@.subrange(0, j as int));
            }
        }
        proof {
            assert(self.request_tokens@.subrange(0, self.request_tokens@.len() as int)
                =~= self.request_tokens@);
        }
        out
    }

    /// Builds a request from already-extracted parts.
    pub fn from_detailed_parameters(
        raw_type: &str,
        url: &str,
        schema: &str,
        hostname: &str,
        domain: &str,
        source_hostname: &str,
        third_party: bool,
        original_url: String,
        method: Option<RequestMethod>,
    ) -> (r: Request)
        ensures
            is_detailed_request(
                r,
                raw_type@,
                url@,
                schema@,
                hostname@,
                domain@,
                source_hostname@,
                third_party,
                original_url@,
                method,
            ),
    {
        let schema_v = str_to_chars(schema);
        let is_http: bool;
        let is_https: bool;
        let is_supported: bool;
        let request_type: RequestType;
        if schema_v.len() == 0 {
            is_https = true;
            is_http = false;
            is_supported = true;
            request_type = cpt_match_type(raw_type);
        } else {
            is_http = eq_lit(schema_v.as_slice(), "http");
            is_https = !is_http && eq_lit(schema_v.as_slice(), "https");
            let is_websocket = !is_http && !is_https && (eq_lit(schema_v.as_slice(), "ws")
                || eq_lit(schema_v.as_slice(), "wss"));
            is_supported = is_http || is_https || is_websocket;
            if is_websocket {
                request_type = RequestType::Websocket;
            } else {
                request_type = cpt_match_type(raw_type);
            }
        }
        let source_hostname_hashes = suffix_hostname_hashes(source_hostname);
        let url_lower_cased = str_ascii_lowercase(url);
        let request_tokens = calculate_tokens(url_lower_cased.as_str());
        Request {
            request_type,
            method,
            url: url.to_owned(),
            url_lower_cased,
            hostname: hostname.to_owned(),
            domain: domain.to_owned(),
            source_hostname: source_hostname.to_owned(),
            request_tokens,
            source_hostname_hashes,
            is_third_party: third_party,
            is_http,
            is_https,
            is_supported,
            original_url,
        }
    }

    /// Builds a request from its URL, the URL of the page that made it, its type and its
    /// method. Fails when the URL has no host.
    pub fn new(url: &str, source_url: &str, request_type: &str, method: &str) -> (r: Result<
        Request,
        RequestError,
    >)
        ensures
            match r {
                Ok(req) => spec_new_request_ok(req, url@, source_url@, request_type@, method@),
                Err(e) => spec_parse_request_url(url@) is None && e
                    == RequestError::HostnameParseError,
            },
    {
        match parse_request_url(url) {
            Some((scheme, host, norm)) => {
                let parsed_method = parse_method(method);
                let (ds, de) = get_host_domain(host.as_str());
                let domain = tail_string(host.as_str(), ds);
                match parse_request_url(source_url) {
                    Some((_, source_host, _)) => {
                        let (sds, sde) = get_host_domain(source_host.as_str());
                        let source_domain = tail_string(source_host.as_str(), sds);
                        let third_party = !str_eq(source_domain.as_str(), domain.as_str());
                        let req = Request::from_detailed_parameters(
                            request_type,
                            norm.as_str(),
                            scheme.as_str(),
                            host.as_str(),
                            domain.as_str(),
                            source_host.as_str(),
                            third_party,
                            url.to_owned(),
                            parsed_method,
                        );
                        Ok(req)
                    },
                    None => {
                        proof {
                            reveal_strlit("");
                            assert(""@ =~= Seq::<char>::empty());
                        }
                        let req = Request::from_detailed_parameters(
                            request_type,
                            norm.as_str(),
                            scheme.as_str(),
                            host.as_str(),
                            domain.as_str(),
                            "",
                            true,
                            url.to_owned(),
                            parsed_method,
                        );
                        Ok(req)
                    },
                }
            },
            None => Err(RequestError::HostnameParseError),
        }
    }

    /// Builds a request from a URL and hostnames that the caller has already extracted; the
    /// scheme is what precedes the first `:` of the URL (empty when there is none).
    pub fn preparsed(
        url: &str,
        hostname: &str,
        source_hostname: &str,
        request_type: &str,
        third_party: bool,
        method: &str,
    ) -> (r: Request)
        ensures
            is_detailed_request(
                r,
                request_type@,
                url@,
                match crate::utils::spec_index_of(url@, ':') {
                    Some(i) => url@.subrange(0, i),
                    None => Seq::empty(),
                },
                hostname@,
                spec_host_domain(hostname@),
                source_hostname@,
                third_party,
                url@,
                spec_parse_method(method@),
            ),
    {
        let u = str_to_chars(url);
        let splitter = match crate::utils::index_of(u.as_slice(), ':') {
            Some(i) => i,
            None => 0,
        };
        let schema = chars_to_string(u.as_slice(), 0, splitter);
        let (ds, de) = get_host_domain(hostname);
        let domain = tail_string(hostname, ds);
        let m = parse_method(method);
        proof {
            if crate::utils::spec_index_of(url@, ':') is None {
                assert(schema@ =~= Seq::<char>::empty());
            }
        }
        Request::from_detailed_parameters(
            request_type,
            url,
            schema.as_str(),
            hostname,
            domain.as_str(),
            source_hostname,
            third_party,
            url.to_owned(),
            m,
        )
    }
}

} // verus!
