//! Header directives: parsing `Name: value` lines at configuration time and
//! resolving template values against a live request.

use vstd::prelude::*;
use std::str::FromStr;
use crate::state::{env_lookup, header_lookup, named_value, ProcessInfo, RequestHeader, State};
use crate::text::{ascii_lower, dec, dec_string, drop_chars, starts_with, str_eq};
use vstd::string::StrSliceExecFns;

verus! {

/// A configured header: its normalised name and its value.
pub type HttpHeader = (String, String);

/// A directive that cannot become a header.
pub enum Error {
    InvalidHeaderValue { value: String, line: String },
    InvalidHeaderName { value: String, line: String },
}

/// An error as data: whether the name was at fault, the offending text and
/// the whole directive line.
pub open spec fn error_view(e: Error) -> (bool, Seq<char>, Seq<char>) {
    match e {
        Error::InvalidHeaderValue { value, line } => (false, value@, line@),
        Error::InvalidHeaderName { value, line } => (true, value@, line@),
    }
}

impl Error {
    /// The message naming the offending text.
    pub fn to_string(&self) -> (r: String)
        ensures
            r@ == match error_view(*self) {
                (true, v, l) => "Invalid header name "@ + v + ", line: "@ + l,
                (false, v, l) => "Invalid header value "@ + v + ", line: "@ + l,
            },
    {
        proof {
            reveal_strlit("Invalid header name ");
            reveal_strlit("Invalid header value ");
            reveal_strlit(", line: ");
        }
        match self {
            Error::InvalidHeaderName { value, line } => {
                let mut s = "Invalid header name ".to_owned();
                s.append(value.as_str());
                s.append(", line: ");
                s.append(line.as_str());
                s
            },
            Error::InvalidHeaderValue { value, line } => {
                let mut s = "Invalid header value ".to_owned();
                s.append(value.as_str());
                s.append(", line: ");
                s.append(line.as_str());
                s
            },
        }
    }
}

/// A character with the Unicode `White_Space` property.
pub open spec fn is_white_space(c: char) -> bool {
    ||| ('\u{9}' <= c && c <= '\u{d}')
    ||| c == ' '
    ||| c == '\u{85}'
    ||| c == '\u{a0}'
    ||| c == '\u{1680}'
    ||| ('\u{2000}' <= c && c <= '\u{200a}')
    ||| c == '\u{2028}'
    ||| c == '\u{2029}'
    ||| c == '\u{202f}'
    ||| c == '\u{205f}'
    ||| c == '\u{3000}'
}

/// `s` without its leading white space.
pub open spec fn trim_start(s: Seq<char>) -> Seq<char>
    decreases s.len(),
{
    if s.len() > 0 && is_white_space(s[0]) { trim_start(s.drop_first()) } else { s }
}

/// `s` without its trailing white space.
pub open spec fn trim_end(s: Seq<char>) -> Seq<char>
    decreases s.len(),
{
    if s.len() > 0 && is_white_space(s.last()) { trim_end(s.drop_last()) } else { s }
}

/// `s` without leading and trailing white space, as `str::trim` leaves it.
pub open spec fn trim_of(s: Seq<char>) -> Seq<char> {
    trim_end(trim_start(s))
}

/// The normalised header name that `http` makes of a string, if it is a legal one.
pub uninterp spec fn header_name_of(s: Seq<char>) -> Option<Seq<char>>;

/// A legal header value: tab, or any character from space on but DEL.
pub open spec fn valid_header_value(s: Seq<char>) -> bool {
    forall|i: int| 0 <= i < s.len() ==> {
        let c = #[trigger] s[i];
        c == '\t' || (' ' <= c && c != '\x7f')
    }
}

/// `s` where it is a legal header value.
pub open spec fn checked_value(s: Seq<char>) -> Option<Seq<char>> {
    if valid_header_value(s) { Some(s) } else { None }
}

fn white_space(c: char) -> (r: bool)
    ensures
        r == is_white_space(c),
{
    ('\u{9}' <= c && c <= '\u{d}') || c == ' ' || c == '\u{85}' || c == '\u{a0}' || c == '\u{1680}'
        || ('\u{2000}' <= c && c <= '\u{200a}') || c == '\u{2028}' || c == '\u{2029}' || c == '\u{202f}'
        || c == '\u{205f}' || c == '\u{3000}'
}

/// The string without leading and trailing white space.
pub fn trim_str(s: &str) -> (r: &str)
    ensures
        r@ == trim_of(s@),
{
    let n = s.unicode_len();
    let mut a: usize = 0;
    assert(s@.subrange(0, n as int) =~= s@);
    while a < n && white_space(s.get_char(a))
        invariant
            n == s@.len(),
            a <= n,
            trim_start(s@) == trim_start(s@.subrange(a as int, n as int)),
        decreases n - a,
    {
        assert(s@.subrange(a as int, n as int).drop_first() =~= s@.subrange(a + 1, n as int));
        a = a + 1;
    }
    let t = s.substring_char(a, n);
    assert(trim_start(t@) == t@);
    let m = t.unicode_len();
    let mut b: usize = m;
    assert(t@.subrange(0, m as int) =~= t@);
    while b > 0 && white_space(t.get_char(b - 1))
        invariant
            m == t@.len(),
            b <= m,
            trim_end(t@) == trim_end(t@.subrange(0, b as int)),
        decreases b,
    {
        assert(t@.subrange(0, b as int).drop_last() =~= t@.subrange(0, b - 1));
        b = b - 1;
    }
    let r = t.substring_char(0, b);
    assert(trim_end(r@) == r@);
    r
}

/// Relies on `http::HeaderName::from_str`: accepts legal header names, which
/// are never empty, and gives them in ASCII lower case.
#[verifier::external_body]
fn parse_header_name(s: &str) -> (r: Option<String>)
    ensures
        match r {
            Some(n) => header_name_of(s@) == Some(n@) && n@.len() == s@.len() && s@.len() > 0
                && forall|i: int| 0 <= i < s@.len() ==> #[trigger] ascii_lower(s@[i]) == n@[i] as u32,
            None => header_name_of(s@) is None,
        },
{
    match http::HeaderName::from_str(s) {
        Ok(name) => Some(name.as_str().to_owned()),
        Err(_) => None,
    }
}

/// `s` as a header value, where it is a legal one.
pub fn parse_header_value(s: &str) -> (r: Option<String>)
    ensures
        match r {
            Some(v) => valid_header_value(s@) && v@ == s@,
            None => !valid_header_value(s@),
        },
{
    let n = s.unicode_len();
    let mut i: usize = 0;
    while i < n
        invariant
            n == s@.len(),
            i <= n,
            forall|j: int| 0 <= j < i ==> {
                let c = #[trigger] s@[j];
                c == '\t' || (' ' <= c && c != '\x7f')
            },
        decreases n - i,
    {
        let c = s.get_char(i);
        if !(c == '\t' || (' ' <= c && c != '\x7f')) {
            return None;
        }
        i = i + 1;
    }
    Some(s.to_owned())
}

/// The position of the first colon of `s`, if it has one.
pub open spec fn first_colon(s: Seq<char>) -> Option<int> {
    if exists|i: int| 0 <= i < s.len() && s[i] == ':' {
        Some(choose|i: int| 0 <= i < s.len() && s[i] == ':' && forall|j: int| 0 <= j < i ==> s[j] != ':')
    } else {
        None
    }
}

/// What a directive line becomes: nothing without a colon, else the trimmed
/// halves around the first colon, or the error for the half that is illegal.
pub open spec fn directive_spec(raw: Seq<char>) -> Result<Option<(Seq<char>, Seq<char>)>, (bool, Seq<char>, Seq<char>)> {
    match first_colon(raw) {
        None => Ok(None),
        Some(i) => {
            let k = trim_of(raw.subrange(0, i));
            let v = trim_of(raw.subrange(i + 1, raw.len() as int));
            match header_name_of(k) {
                None => Err((true, k, raw)),
                Some(name) => if valid_header_value(v) {
                    Ok(Some((name, v)))
                } else {
                    Err((false, v, raw))
                },
            }
        },
    }
}

/// A parsed directive as data.
pub open spec fn directive_view(r: Result<Option<HttpHeader>, Error>) -> Result<Option<(Seq<char>, Seq<char>)>, (bool, Seq<char>, Seq<char>)> {
    match r {
        Ok(None) => Ok(None),
        Ok(Some(h)) => Ok(Some((h.0@, h.1@))),
        Err(e) => Err(error_view(e)),
    }
}

fn find_colon(s: &str) -> (r: Option<usize>)
    ensures
        match r {
            Some(i) => first_colon(s@) == Some(i as int) && i < s@.len(),
            None => first_colon(s@) is None,
        },
{
    let n = s.unicode_len();
    let mut i: usize = 0;
    while i < n
        invariant
            n == s@.len(),
            i <= n,
            forall|j: int| 0 <= j < i ==> s@[j] != ':',
        decreases n - i,
    {
        if s.get_char(i) == ':' {
            proof {
                let c = choose|k: int| 0 <= k < s@.len() && s@[k] == ':' && forall|j: int| 0 <= j < k ==> s@[j] != ':';
                assert(c == i as int) by {
                    if c < i {
                    } else if c > i {
                        assert(s@[i as int] == ':');
                    }
                }
            }
            return Some(i);
        }
        i = i + 1;
    }
    None
}

/// Parses one `Name: value` directive line. A line without a colon gives
/// `Ok(None)`; an illegal name or value gives the error naming it.
pub fn convert_header(value: &str) -> (r: Result<Option<HttpHeader>, Error>)
    ensures
        directive_view(r) == directive_spec(value@),
        !value@.contains(':') ==> r matches Ok(None),
{
    match find_colon(value) {
        None => {
            assert(!value@.contains(':') ==> first_colon(value@) is None);
            Ok(None)
        },
        Some(i) => {
            let n = value.unicode_len();
            let k = trim_str(value.substring_char(0, i));
            let v = trim_str(value.substring_char(i + 1, n));
            match parse_header_name(k) {
                None => Err(Error::InvalidHeaderName { value: k.to_owned(), line: value.to_owned() }),
                Some(name) => match parse_header_value(v) {
                    None => Err(Error::InvalidHeaderValue { value: v.to_owned(), line: value.to_owned() }),
                    Some(hv) => Ok(Some((name, hv))),
                },
            }
        },
    }
}

/// The headers that a list of directive lines gives, in order: lines without
/// a colon are skipped, and the first illegal line is the error.
pub open spec fn headers_spec(items: Seq<String>) -> Result<Seq<(Seq<char>, Seq<char>)>, (bool, Seq<char>, Seq<char>)>
    decreases items.len(),
{
    if items.len() == 0 {
        Ok(Seq::empty())
    } else {
        match headers_spec(items.drop_last()) {
            Err(e) => Err(e),
            Ok(acc) => match directive_spec(items.last()@) {
                Err(e) => Err(e),
                Ok(None) => Ok(acc),
                Ok(Some(p)) => Ok(acc.push(p)),
            },
        }
    }
}

/// A list of headers as data.
pub open spec fn headers_view(v: Seq<HttpHeader>) -> Seq<(Seq<char>, Seq<char>)> {
    v.map_values(|h: HttpHeader| (h.0@, h.1@))
}

proof fn lemma_error_sticks(items: Seq<String>, j: int, m: int)
    requires
        0 <= j <= m <= items.len(),
        headers_spec(items.take(j)) is Err,
    ensures
        headers_spec(items.take(m)) == headers_spec(items.take(j)),
    decreases m - j,
{
    if m > j {
        lemma_error_sticks(items, j, m - 1);
        assert(items.take(m).drop_last() =~= items.take(m - 1));
    }
}

/// Converts directive lines to headers, keeping their order.
pub fn convert_headers(header_values: &[String]) -> (r: Result<Vec<HttpHeader>, Error>)
    ensures
        match r {
            Ok(v) => headers_spec(header_values@) == Ok::<_, (bool, Seq<char>, Seq<char>)>(headers_view(v@)),
            Err(e) => headers_spec(header_values@) == Err::<Seq<(Seq<char>, Seq<char>)>, _>(error_view(e)),
        },
{
    let mut arr: Vec<HttpHeader> = Vec::new();
    let n = header_values.len();
    let mut i: usize = 0;
    assert(headers_view(arr@) =~= Seq::empty());
    assert(header_values@.take(0) =~= Seq::empty());
    while i < n
        invariant
            n == header_values@.len(),
            i <= n,
            headers_spec(header_values@.take(i as int)) == Ok::<_, (bool, Seq<char>, Seq<char>)>(headers_view(arr@)),
        decreases n - i,
    {
        assert(header_values@.take(i + 1).drop_last() =~= header_values@.take(i as int));
        assert(header_values@.take(i + 1).last() == header_values@[i as int]);
        match convert_header(header_values[i].as_str()) {
            Err(e) => {
                proof {
                    lemma_error_sticks(header_values@, i as int + 1, n as int);
                    assert(header_values@.take(n as int) =~= header_values@);
                }
                return Err(e);
            },
            Ok(None) => {},
            Ok(Some(h)) => {
                let ghost before = arr@;
                arr.push(h);
                assert(headers_view(arr@) =~= headers_view(before).push((h.0@, h.1@)));
            },
        }
        i = i + 1;
    }
    assert(header_values@.take(n as int) =~= header_values@);
    Ok(arr)
}


/// The `X-Forwarded-For` value with `remote` appended to an existing one.
pub open spec fn forwarded_for(existing: Option<Seq<char>>, remote: Seq<char>) -> Seq<char> {
    match existing {
        Some(v) => v + ", "@ + remote,
        None => remote,
    }
}

/// The context records a non-empty TLS version.
pub open spec fn tls_recorded(ctx: State) -> bool {
    ctx.tls_version matches Some(t) && t@.len() > 0
}

/// Whether `value` begins with `prefix`.
pub open spec fn has_prefix(value: Seq<char>, prefix: Seq<char>) -> bool {
    prefix.len() <= value.len() && value.subrange(0, prefix.len() as int) == prefix
}

/// `value` after `prefix`.
pub open spec fn after(value: Seq<char>, prefix: Seq<char>) -> Seq<char> {
    value.subrange(prefix.len() as int, value.len() as int)
}

/// The value a configured header value takes for one request, or `None` when
/// the header is left out.
pub open spec fn resolve_spec(value: Seq<char>, req: RequestHeader, ctx: State, process: ProcessInfo) -> Option<Seq<char>> {
    if value == "$host"@ {
        match req.host {
            Some(h) => checked_value(h@),
            None => None,
        }
    } else if value == "$scheme"@ {
        if tls_recorded(ctx) { Some("https"@) } else { Some("http"@) }
    } else if value == "$hostname"@ {
        Some(process.hostname@)
    } else if value == "$remote_addr"@ {
        match ctx.remote_addr {
            Some(a) => checked_value(a@),
            None => None,
        }
    } else if value == "$remote_port"@ {
        match ctx.remote_port {
            Some(p) => checked_value(dec(p as nat)),
            None => None,
        }
    } else if value == "$server_addr"@ {
        match ctx.server_addr {
            Some(a) => checked_value(a@),
            None => None,
        }
    } else if value == "$server_port"@ {
        match ctx.server_port {
            Some(p) => checked_value(dec(p as nat)),
            None => None,
        }
    } else if value == "$upstream_addr"@ {
        if ctx.upstream_address@.len() > 0 { checked_value(ctx.upstream_address@) } else { None }
    } else if value == "$proxy_add_x_forwarded_for"@ {
        match ctx.remote_addr {
            Some(a) => checked_value(forwarded_for(header_lookup(req.headers@, "X-Forwarded-For"@), a@)),
            None => None,
        }
    } else if has_prefix(value, "$http_"@) {
        header_lookup(req.headers@, after(value, "$http_"@))
    } else if has_prefix(value, "$"@) {
        match env_lookup(process.env@, after(value, "$"@)) {
            Some(v) => checked_value(v),
            None => None,
        }
    } else if has_prefix(value, ":"@) {
        let t = named_value(ctx, after(value, ":"@));
        if t.len() > 0 { checked_value(t) } else { None }
    } else {
        Some(value)
    }
}

/// An optional string as data.
pub open spec fn opt_view(o: Option<String>) -> Option<Seq<char>> {
    match o {
        Some(s) => Some(s@),
        None => None,
    }
}

fn checked_opt(s: Option<String>) -> (r: Option<String>)
    ensures
        opt_view(r) == match opt_view(s) {
            Some(v) => checked_value(v),
            None => None,
        },
{
    match s {
        Some(v) => parse_header_value(v.as_str()),
        None => None,
    }
}

fn checked_port(p: Option<u16>) -> (r: Option<String>)
    ensures
        opt_view(r) == match p {
            Some(p) => checked_value(dec(p as nat)),
            None => None,
        },
{
    match p {
        Some(p) => parse_header_value(dec_string(p as u64).as_str()),
        None => None,
    }
}

fn clone_opt(s: &Option<String>) -> (r: Option<String>)
    ensures
        opt_view(r) == opt_view(*s),
{
    match s {
        Some(v) => Some(v.clone()),
        None => None,
    }
}

/// Resolves a configured header value for one request: template values read
/// the request, the context or the process; anything else is kept as it is.
/// `None` means the header is left out for this request. The process's host
/// name must be a legal header value.
pub fn convert_header_value(value: &str, session: &RequestHeader, ctx: &State, process: &ProcessInfo) -> (r: Option<String>)
    requires
        valid_header_value(process.hostname@),
    ensures
        opt_view(r) == resolve_spec(value@, *session, *ctx, *process),
        value@ == "$scheme"@ ==> opt_view(r) == Some(if tls_recorded(*ctx) { "https"@ } else { "http"@ }),
        value@ == "$hostname"@ ==> opt_view(r) == Some(process.hostname@),
        !has_prefix(value@, "$"@) && !has_prefix(value@, ":"@) ==> opt_view(r) == Some(value@),
{
    proof {
        reveal_strlit("$host");
        reveal_strlit("$scheme");
        reveal_strlit("$hostname");
        reveal_strlit("$remote_addr");
        reveal_strlit("$remote_port");
        reveal_strlit("$server_addr");
        reveal_strlit("$server_port");
        reveal_strlit("$upstream_addr");
        reveal_strlit("$proxy_add_x_forwarded_for");
        reveal_strlit("$http_");
        reveal_strlit("$");
        reveal_strlit(":");
        reveal_strlit("https");
        reveal_strlit("http");
        reveal_strlit(", ");
        if has_prefix(value@, "$http_"@) {
            assert(value@.subrange(0, 6)[0] == value@[0]);
        }
        if value@.len() > 0 && value@[0] == '$' {
            assert(value@.subrange(0, 1) =~= "$"@);
        }
    }
    if str_eq(value, "$host") {
        checked_opt(clone_opt(&session.host))
    } else if str_eq(value, "$scheme") {
        let tls = match &ctx.tls_version {
            Some(t) => t.unicode_len() > 0,
            None => false,
        };
        if tls { Some("https".to_owned()) } else { Some("http".to_owned()) }
    } else if str_eq(value, "$hostname") {
        Some(process.hostname.clone())
    } else if str_eq(value, "$remote_addr") {
        checked_opt(clone_opt(&ctx.remote_addr))
    } else if str_eq(value, "$remote_port") {
        checked_port(ctx.remote_port)
    } else if str_eq(value, "$server_addr") {
        checked_opt(clone_opt(&ctx.server_addr))
    } else if str_eq(value, "$server_port") {
        checked_port(ctx.server_port)
    } else if str_eq(value, "$upstream_addr") {
        if ctx.upstream_address.unicode_len() > 0 {
            parse_header_value(ctx.upstream_address.as_str())
        } else {
            None
        }
    } else if str_eq(value, "$proxy_add_x_forwarded_for") {
        match &ctx.remote_addr {
            Some(remote) => {
                let v = match session.get_header("X-Forwarded-For") {
                    Some(existing) => {
                        let mut v = existing;
                        v.append(", ");
                        v.append(remote.as_str());
                        v
                    },
                    None => remote.clone(),
                };
                parse_header_value(v.as_str())
            },
            None => None,
        }
    } else if starts_with(value, "$http_") {
        session.get_header(drop_chars(value, "$http_".unicode_len()))
    } else if starts_with(value, "$") {
        checked_opt(process.get_env(drop_chars(value, 1)))
    } else if starts_with(value, ":") {
        let t = ctx.lookup_value(drop_chars(value, 1));
        if t.unicode_len() > 0 {
            parse_header_value(t.as_str())
        } else {
            None
        }
    } else {
        Some(value.to_owned())
    }
}


fn header(name: &str, value: &str) -> (r: HttpHeader)
    ensures
        r.0@ == name@,
        r.1@ == value@,
{
    (name.to_owned(), value.to_owned())
}

/// `cache-control: private, no-store`.
pub fn http_header_no_store() -> (r: HttpHeader)
    ensures
        r.0@ == "cache-control"@,
        r.1@ == "private, no-store"@,
{
    header("cache-control", "private, no-store")
}

/// `cache-control: private, no-cache`.
pub fn http_header_no_cache() -> (r: HttpHeader)
    ensures
        r.0@ == "cache-control"@,
        r.1@ == "private, no-cache"@,
{
    header("cache-control", "private, no-cache")
}

/// `content-type: application/json; charset=utf-8`.
pub fn http_header_content_json() -> (r: HttpHeader)
    ensures
        r.0@ == "content-type"@,
        r.1@ == "application/json; charset=utf-8"@,
{
    header("content-type", "application/json; charset=utf-8")
}

/// `content-type: text/html; charset=utf-8`.
pub fn http_header_content_html() -> (r: HttpHeader)
    ensures
        r.0@ == "content-type"@,
        r.1@ == "text/html; charset=utf-8"@,
{
    header("content-type", "text/html; charset=utf-8")
}

/// `transfer-encoding: chunked`.
pub fn http_header_transfer_chunked() -> (r: HttpHeader)
    ensures
        r.0@ == "transfer-encoding"@,
        r.1@ == "chunked"@,
{
    header("transfer-encoding", "chunked")
}

/// The name `x-request-id`.
pub fn http_header_name_x_request_id() -> (r: String)
    ensures
        r@ == "x-request-id"@,
{
    "x-request-id".to_owned()
}

} // verus!
