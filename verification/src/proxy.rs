//! Decisions and byte rewriting of the transparent HTTP/HTTPS proxy.

use vstd::prelude::*;
use vstd::utf8::{decode_utf8, encode_utf8, valid_utf8};
use vstd::string::StringSliceAdditionalSpecFns;
use crate::error::NetworkError;
use crate::string_map::StringMap;
use crate::network::{IpAddress, NetworkMode, NetworkPolicy};
use crate::numbers::{decimal_string, decimal_text, parse_unsigned, spec_parse_unsigned};
use crate::network::TransformRule;
use crate::policy::{spec_allow_domain, spec_evaluate, NetworkPolicyEvaluator, PolicyDecision};
use crate::error::prefixed;
use crate::text::{chars_of, first_index_of, last_index_of, push_str, string_of};

verus! {

/// Largest header block read before answering 431.
pub const MAX_HEADER_SIZE: usize = 65536;

/// Whether a policy needs the domain-level proxy: it has header rules, or it
/// denies by default while allowing some domains.
pub open spec fn spec_needs_domain_proxy(p: NetworkPolicy) -> bool {
    p.transform_rules@.len() > 0 || (p.allow_domains@.len() > 0 && p.mode == NetworkMode::DenyAll)
}

/// Checks whether a policy requires the domain-level proxy; subnet-only
/// policies do not.
pub fn needs_domain_proxy(policy: &NetworkPolicy) -> (b: bool)
    ensures
        b == spec_needs_domain_proxy(*policy),
{
    !policy.transform_rules.is_empty()
        || (!policy.allow_domains.is_empty() && match policy.mode {
            NetworkMode::DenyAll => true,
            NetworkMode::AllowAll => false,
        })
}


/// The port after the last `:` of a `host:port` text, or `default_port` when
/// there is no `:` or the text after it is not a port number.
pub open spec fn spec_extract_port(host: Seq<char>, default_port: u16) -> u16 {
    match last_index_of(host, ':') {
        Some(i) => match spec_parse_unsigned(host.skip(i + 1), 65535) {
            Some(v) => v as u16,
            None => default_port,
        },
        None => default_port,
    }
}

/// Position of the last `c` in `s`.
fn rfind(s: &[char], c: char) -> (r: Option<usize>)
    ensures
        match last_index_of(s@, c) {
            Some(i) => r matches Some(j) && j == i && 0 <= i < s@.len(),
            None => r is None,
        },
{
    let mut i: usize = s.len();
    assert(s@.subrange(0, i as int) =~= s@);
    while i > 0
        invariant
            i <= s@.len(),
            last_index_of(s@, c) == last_index_of(s@.subrange(0, i as int), c),
        decreases i,
    {
        assert(s@.subrange(0, i as int).drop_last() =~= s@.subrange(0, i - 1));
        if s[i - 1] == c {
            return Some(i - 1);
        }
        i = i - 1;
    }
    None
}

/// Extracts the port from a `host:port` text, defaulting to `default_port`.
pub fn extract_port(host: &str, default_port: u16) -> (p: u16)
    ensures
        p == spec_extract_port(host@, default_port),
{
    let cs = chars_of(host);
    proof {
        assert(cs@.subrange(0, cs@.len() as int) =~= cs@);
    }
    match rfind(cs.as_slice(), ':') {
        Some(i) => {
            let n = cs.len();
            assert(i < n);
            let mut rest: Vec<char> = Vec::new();
            let mut j: usize = i + 1;
            while j < cs.len()
                invariant
                    i < cs@.len(),
                    i + 1 <= j <= cs@.len(),
                    rest@ == cs@.subrange(i + 1, j as int),
                decreases cs@.len() - j,
            {
                rest.push(cs[j]);
                j = j + 1;
            }
            assert(rest@ =~= host@.skip(i + 1));
            match parse_unsigned(rest.as_slice(), 65535) {
                Some(v) => v as u16,
                None => default_port,
            }
        },
        None => default_port,
    }
}

/// The domain part of a `host[:port]` text: everything before the first `:`.
pub open spec fn spec_host_domain(host: Seq<char>) -> Seq<char> {
    match first_index_of(host, ':') {
        Some(i) => host.take(i),
        None => host,
    }
}

/// The domain part of a host header value or CONNECT target.
pub fn host_domain(host: &str) -> (d: String)
    ensures
        d@ == spec_host_domain(host@),
{
    let cs = chars_of(host);
    let mut i: usize = 0;
    assert(host@.skip(0) =~= host@);
    while i < cs.len()
        invariant
            i <= cs@.len(),
            cs@ == host@,
            first_index_of(host@, ':') == match first_index_of(host@.skip(i as int), ':') {
                Some(k) => Some(k + i),
                None => None,
            },
            forall|k: int| 0 <= k < i ==> cs@[k] != ':',
        decreases cs@.len() - i,
    {
        assert(host@.skip(i as int).drop_first() =~= host@.skip(i + 1));
        if cs[i] == ':' {
            let mut out: Vec<char> = Vec::new();
            let mut j: usize = 0;
            while j < i
                invariant
                    j <= i,
                    i < cs@.len(),
                    out@ == cs@.subrange(0, j as int),
                decreases i - j,
            {
                out.push(cs[j]);
                j = j + 1;
            }
            return string_of(out.as_slice());
        }
        i = i + 1;
    }
    assert(host@.skip(i as int).len() == 0);
    string_of(cs.as_slice())
}

/// The header block ends at `i`: bytes `i..i+4` are `\r\n\r\n`.
pub open spec fn is_terminator_at(r: Seq<u8>, i: int) -> bool {
    0 <= i && i + 4 <= r.len() && r[i] == 13 && r[i + 1] == 10 && r[i + 2] == 13 && r[i + 3] == 10
}

/// `i` is the first place where the header block ends.
pub open spec fn is_first_terminator(r: Seq<u8>, i: int) -> bool {
    is_terminator_at(r, i) && forall|j: int| 0 <= j < i ==> !is_terminator_at(r, j)
}

/// The header block contains its terminator somewhere.
pub open spec fn has_terminator(r: Seq<u8>) -> bool {
    exists|i: int| is_terminator_at(r, i)
}

/// The injected line for one header: `name: value\r\n`.
pub open spec fn header_line(e: (Seq<char>, Seq<char>)) -> Seq<u8> {
    encode_utf8(e.0) + seq![58u8, 32u8] + encode_utf8(e.1) + seq![13u8, 10u8]
}

/// The injected lines for all headers, in order.
pub open spec fn header_lines(s: Seq<(Seq<char>, Seq<char>)>) -> Seq<u8>
    decreases s.len(),
{
    if s.len() == 0 {
        Seq::empty()
    } else {
        header_lines(s.drop_last()) + header_line(s.last())
    }
}

/// The request with `headers` inserted before the empty line that ends the
/// header block at `i`.
pub open spec fn spliced(r: Seq<u8>, i: int, headers: Seq<(Seq<char>, Seq<char>)>) -> Seq<u8> {
    r.take(i + 2) + header_lines(headers) + r.skip(i + 2)
}

/// First position where the header block ends.
pub fn find_header_end(r: &[u8]) -> (p: Option<usize>)
    ensures
        match p {
            Some(i) => is_first_terminator(r@, i as int),
            None => !has_terminator(r@),
        },
{
    if r.len() < 4 {
        assert forall|j: int| !is_terminator_at(r@, j) by {}
        return None;
    }
    let mut i: usize = 0;
    while i <= r.len() - 4
        invariant
            r@.len() >= 4,
            i <= r@.len() - 3,
            forall|j: int| 0 <= j < i ==> !is_terminator_at(r@, j),
        decreases r@.len() - i,
    {
        if r[i] == 13 && r[i + 1] == 10 && r[i + 2] == 13 && r[i + 3] == 10 {
            return Some(i);
        }
        i = i + 1;
    }
    assert forall|j: int| !is_terminator_at(r@, j) by {
        if j >= i {
            assert(j + 4 > r@.len());
        }
    }
    None
}

/// Appends all bytes of `b` to `out`.
fn extend(out: &mut Vec<u8>, b: &[u8])
    ensures
        final(out)@ == old(out)@ + b@,
{
    let mut i: usize = 0;
    while i < b.len()
        invariant
            i <= b@.len(),
            out@ == old(out)@ + b@.subrange(0, i as int),
        decreases b@.len() - i,
    {
        out.push(b[i]);
        i = i + 1;
    }
    assert(b@.subrange(0, b@.len() as int) =~= b@);
}

/// Appends `r[from..to]` to `out`.
fn extend_range(out: &mut Vec<u8>, r: &[u8], from: usize, to: usize)
    requires
        from <= to <= r@.len(),
    ensures
        final(out)@ == old(out)@ + r@.subrange(from as int, to as int),
{
    let mut i: usize = from;
    while i < to
        invariant
            from <= i <= to,
            to <= r@.len(),
            out@ == old(out)@ + r@.subrange(from as int, i as int),
        decreases to - i,
    {
        out.push(r[i]);
        assert(r@.subrange(from as int, i + 1) =~= r@.subrange(from as int, i as int).push(r@[i as int]));
        i = i + 1;
    }
}

/// Inserts headers into raw HTTP request bytes, just before the empty line
/// that ends the header block; the body and everything else is kept. With no
/// headers the request is returned unchanged; a request without `\r\n\r\n`
/// is refused.
pub fn inject_headers(request: &[u8], headers: &StringMap) -> (r: Result<Vec<u8>, NetworkError>)
    ensures
        headers@.len() == 0 ==> (r matches Ok(v) && v@ == request@),
        headers@.len() > 0 ==> match r {
            Ok(v) => exists|i: int| is_first_terminator(request@, i) && v@ == spliced(request@, i, headers@),
            Err(e) => !has_terminator(request@) && (e matches NetworkError::Io(m) && m@ == "no header terminator"@),
        },
{
    if headers.is_empty() {
        let mut out: Vec<u8> = Vec::new();
        extend(&mut out, request);
        return Ok(out);
    }
    match find_header_end(request) {
        None => Err(NetworkError::Io("no header terminator".to_owned())),
        Some(p) => {
            let len = request.len();
            assert(p + 4 <= len);
            let mut out: Vec<u8> = Vec::new();
            extend_range(&mut out, request, 0, p + 2);
            let n = headers.len();
            let mut k: usize = 0;
            while k < n
                invariant
                    n == headers@.len(),
                    k <= n,
                    p + 4 <= request@.len(),
                    out@ == request@.take(p + 2) + header_lines(headers@.subrange(0, k as int)),
                decreases n - k,
            {
                let (name, value) = headers.entry(k);
                let ghost before = out@;
                extend(&mut out, name.as_str().as_bytes());
                out.push(58u8);
                out.push(32u8);
                extend(&mut out, value.as_str().as_bytes());
                out.push(13u8);
                out.push(10u8);
                proof {
                    let sub = headers@.subrange(0, k + 1);
                    assert(sub.drop_last() =~= headers@.subrange(0, k as int));
                    assert(sub.last() == headers@[k as int]);
                    assert(out@ =~= before + header_line(headers@[k as int]));
                }
                k = k + 1;
            }
            extend_range(&mut out, request, p + 2, request.len());
            proof {
                assert(headers@.subrange(0, n as int) =~= headers@);
                assert(request@.subrange(0, p + 2) =~= request@.take(p + 2));
                assert(request@.subrange(p + 2, request@.len() as int) =~= request@.skip(p + 2));
            }
            Ok(out)
        },
    }
}

/// The reason phrase the proxy uses for a status code.
pub open spec fn spec_reason(status: u16) -> Seq<char> {
    if status == 400 {
        "Bad Request"@
    } else if status == 403 {
        "Forbidden"@
    } else if status == 431 {
        "Request Header Fields Too Large"@
    } else if status == 502 {
        "Bad Gateway"@
    } else {
        "Error"@
    }
}

/// The HTML body of an error response.
pub open spec fn spec_error_body(status: u16, message: Seq<char>) -> Seq<char> {
    "<html><body><h1>"@ + decimal_text(status as nat) + " "@ + spec_reason(status) + "</h1><p>"@
        + message + "</p></body></html>"@
}

/// The full error response: status line, headers (with the body's length in
/// bytes) and body.
pub open spec fn spec_error_response(status: u16, message: Seq<char>) -> Seq<char> {
    let body = spec_error_body(status, message);
    "HTTP/1.1 "@ + decimal_text(status as nat) + " "@ + spec_reason(status)
        + "\r\nContent-Type: text/html\r\nContent-Length: "@ + decimal_text(encode_utf8(body).len())
        + "\r\nConnection: close\r\n\r\n"@ + body
}

/// The reason phrase for a status code.
fn reason(status: u16) -> (r: &'static str)
    ensures
        r@ == spec_reason(status),
{
    if status == 400 {
        "Bad Request"
    } else if status == 403 {
        "Forbidden"
    } else if status == 431 {
        "Request Header Fields Too Large"
    } else if status == 502 {
        "Bad Gateway"
    } else {
        "Error"
    }
}

/// Builds the HTTP error response the proxy sends for `status`.
pub fn http_error_response(status: u16, message: &str) -> (r: String)
    ensures
        r@ == spec_error_response(status, message@),
{
    let code = decimal_string(status as u64);
    let mut body = "<html><body><h1>".to_owned();
    push_str(&mut body, code.as_str());
    push_str(&mut body, " ");
    push_str(&mut body, reason(status));
    push_str(&mut body, "</h1><p>");
    push_str(&mut body, message);
    push_str(&mut body, "</p></body></html>");
    let bs = body.as_str();
    let body_len = bs.as_bytes().len();
    assert(body@ == spec_error_body(status, message@));
    assert(bs.spec_bytes() == encode_utf8(bs@));
    assert(body_len == encode_utf8(body@).len());
    let mut out = "HTTP/1.1 ".to_owned();
    push_str(&mut out, code.as_str());
    push_str(&mut out, " ");
    push_str(&mut out, reason(status));
    push_str(&mut out, "\r\nContent-Type: text/html\r\nContent-Length: ");
    let len_text = decimal_string(body_len as u64);
    push_str(&mut out, len_text.as_str());
    push_str(&mut out, "\r\nConnection: close\r\n\r\n");
    push_str(&mut out, body.as_str());
    out
}

/// What to do after one read while collecting a request's header block.
#[derive(Debug, PartialEq, Eq)]
pub enum HeaderReadStep {
    /// Read more bytes.
    Continue,
    /// Stop: the block is complete or the peer closed; the buffer holds the request.
    Done,
    /// Stop: the block grew past `MAX_HEADER_SIZE` without ending.
    TooLarge,
}

/// One step of reading a header block: an empty chunk means the peer closed;
/// otherwise the chunk is appended, and reading stops once `\r\n\r\n` is
/// in the buffer, or fails once the buffer exceeds `MAX_HEADER_SIZE`.
pub fn header_read_step(buf: &mut Vec<u8>, chunk: &[u8]) -> (step: HeaderReadStep)
    requires
        old(buf)@.len() + chunk@.len() <= usize::MAX,
    ensures
        chunk@.len() == 0 ==> final(buf)@ == old(buf)@ && step == HeaderReadStep::Done,
        chunk@.len() > 0 ==> final(buf)@ == old(buf)@ + chunk@ && step == (
            if has_terminator(final(buf)@) {
                HeaderReadStep::Done
            } else if final(buf)@.len() > MAX_HEADER_SIZE {
                HeaderReadStep::TooLarge
            } else {
                HeaderReadStep::Continue
            }),
{
    if chunk.len() == 0 {
        return HeaderReadStep::Done;
    }
    extend(buf, chunk);
    match find_header_end(buf.as_slice()) {
        Some(_) => HeaderReadStep::Done,
        None => {
            if buf.len() > MAX_HEADER_SIZE {
                HeaderReadStep::TooLarge
            } else {
                HeaderReadStep::Continue
            }
        },
    }
}

/// The decision for a request to `domain`: with a resolved address, the full
/// evaluation; without one, the domain-level verdict alone.
pub open spec fn spec_connection_decision(p: NetworkPolicy, d: Seq<char>, ip: Option<IpAddress>, r: PolicyDecision) -> bool {
    match ip {
        Some(a) => spec_evaluate(p, d, a, r),
        None => if spec_allow_domain(p, d) { r is Allow } else { r is Deny },
    }
}

/// Decides a proxied request to `domain`, given the address it resolved to
/// (if it resolved at all).
pub fn connection_decision(eval: &NetworkPolicyEvaluator, domain: &str, ip: Option<IpAddress>) -> (r: PolicyDecision)
    ensures
        spec_connection_decision(eval.policy(), domain@, ip, r),
{
    match ip {
        Some(a) => eval.evaluate_connection(domain, a),
        None => {
            if eval.should_allow_domain(domain) {
                PolicyDecision::Allow
            } else {
                PolicyDecision::Deny
            }
        },
    }
}

/// The start of an HTTP request as `httparse` leaves it after parsing a
/// buffer with `slots` header slots: the request target (if it got that far)
/// and the header slots as name and raw value; or the parser's error message.
pub uninterp spec fn spec_request_head(buf: Seq<u8>, slots: usize) -> Result<(Option<Seq<char>>, Seq<(Seq<char>, Seq<u8>)>), Seq<char>>;

/// Number of header slots a request is parsed with.
pub const HEADER_SLOTS: usize = 64;

/// A parsed request line and headers.
pub struct RequestHead {
    pub path: Option<String>,
    pub headers: Vec<(String, Vec<u8>)>,
}

/// The plain contents of a parse outcome.
pub open spec fn head_view(r: Result<RequestHead, String>) -> Result<(Option<Seq<char>>, Seq<(Seq<char>, Seq<u8>)>), Seq<char>> {
    match r {
        Ok(h) => Ok((
            match h.path { Some(p) => Some(p@), None => None },
            h.headers@.map_values(|e: (String, Vec<u8>)| (e.0@, e.1@)),
        )),
        Err(m) => Err(m@),
    }
}

/// Parses the start of a request with `httparse::Request::parse` and
/// `slots` header slots; on success the target and the header slots are
/// copied out, on failure the error's text.
/// Trusted: the outcome equals `spec_request_head` of the bytes and the slots.
#[verifier::external_body]
fn parse_request_head(buf: &[u8], slots: usize) -> (r: Result<RequestHead, String>)
    ensures
        head_view(r) == spec_request_head(buf@, slots),
{
    let mut headers = vec![httparse::EMPTY_HEADER; slots];
    let mut req = httparse::Request::new(&mut headers);
    match req.parse(buf) {
        Ok(_) => Ok(RequestHead {
            path: req.path.map(str::to_owned),
            headers: req.headers.iter().map(|h| (h.name.to_owned(), h.value.to_vec())).collect(),
        }),
        Err(e) => Err(e.to_string()),
    }
}

/// Decodes UTF-8 bytes with `std::str::from_utf8`.
/// Trusted: the bytes decode exactly when they are valid UTF-8, to the
/// characters they encode (as std documents).
#[verifier::external_body]
fn utf8_text(b: &[u8]) -> (r: Option<String>)
    ensures
        r is Some <==> valid_utf8(b@),
        r matches Some(s) ==> s@ == decode_utf8(b@),
{
    match std::str::from_utf8(b) {
        Ok(s) => Some(s.to_owned()),
        Err(_) => None,
    }
}

/// ASCII lowercase of a character; other characters are unchanged.
pub open spec fn ascii_lower(c: char) -> char {
    if 'A' <= c && c <= 'Z' { ((c as u32) + 32) as char } else { c }
}

/// Whether two texts are equal ignoring ASCII case.
pub open spec fn eq_ignore_ascii_case(a: Seq<char>, b: Seq<char>) -> bool {
    a.len() == b.len() && forall|i: int| 0 <= i < a.len() ==> ascii_lower(a[i]) == ascii_lower(b[i])
}

/// Index of the first header named `host` in any ASCII case.
pub open spec fn first_host_header(hs: Seq<(Seq<char>, Seq<u8>)>, i: int) -> bool {
    &&& 0 <= i < hs.len()
    &&& eq_ignore_ascii_case(hs[i].0, "host"@)
    &&& forall|j: int| 0 <= j < i ==> !eq_ignore_ascii_case(#[trigger] hs[j].0, "host"@)
}

/// The host of a request: the value of its first `Host` header (name in any
/// ASCII case), when that value is UTF-8; `None` when there is no such header
/// or its value is not UTF-8.
pub open spec fn spec_extract_host(hs: Seq<(Seq<char>, Seq<u8>)>) -> Option<Seq<char>> {
    if exists|i: int| first_host_header(hs, i) {
        let i = choose|i: int| first_host_header(hs, i);
        if valid_utf8(hs[i].1) { Some(decode_utf8(hs[i].1)) } else { None }
    } else {
        None
    }
}

fn lower_char(c: char) -> (r: char)
    ensures
        r == ascii_lower(c),
{
    if 'A' <= c && c <= 'Z' {
        ((c as u8) + 32) as char
    } else {
        c
    }
}

/// Whether `name` is `host` in any ASCII case.
fn is_host_name(name: &str) -> (b: bool)
    ensures
        b == eq_ignore_ascii_case(name@, "host"@),
{
    proof { reveal_strlit("host"); }
    let cs = chars_of(name);
    if cs.len() != 4 {
        return false;
    }
    let h = chars_of("host");
    let mut i: usize = 0;
    while i < 4
        invariant
            i <= 4,
            cs@.len() == 4,
            h@.len() == 4,
            h@ == "host"@,
            cs@ == name@,
            forall|j: int| 0 <= j < i ==> ascii_lower(cs@[j]) == ascii_lower(h@[j]),
        decreases 4 - i,
    {
        if lower_char(cs[i]) != lower_char(h[i]) {
            return false;
        }
        i = i + 1;
    }
    true
}

/// Looks up the `Host` header of a parsed request.
pub fn extract_host(head: &RequestHead) -> (r: Option<String>)
    ensures
        opt_chars(r) == spec_extract_host(head.headers@.map_values(|e: (String, Vec<u8>)| (e.0@, e.1@))),
{
    let ghost hs = head.headers@.map_values(|e: (String, Vec<u8>)| (e.0@, e.1@));
    let mut i: usize = 0;
    while i < head.headers.len()
        invariant
            i <= head.headers@.len(),
            hs == head.headers@.map_values(|e: (String, Vec<u8>)| (e.0@, e.1@)),
            forall|j: int| 0 <= j < i ==> !eq_ignore_ascii_case(#[trigger] hs[j].0, "host"@),
        decreases head.headers@.len() - i,
    {
        let (name, value) = (&head.headers[i].0, &head.headers[i].1);
        if is_host_name(name.as_str()) {
            proof {
                assert(first_host_header(hs, i as int));
                let k = choose|k: int| first_host_header(hs, k);
                if k < i {
                    assert(!eq_ignore_ascii_case(hs[k].0, "host"@));
                }
                if k > i {
                    assert(eq_ignore_ascii_case(hs[i as int].0, "host"@));
                }
            }
            return utf8_text(value.as_slice());
        }
        i = i + 1;
    }
    None
}

/// The text of an optional string.
pub open spec fn opt_chars(o: Option<String>) -> Option<Seq<char>> {
    match o {
        Some(s) => Some(s@),
        None => None,
    }
}

/// Whether a connection starts with an HTTP `CONNECT` request (its first
/// bytes are `CONNECT ` followed by anything).
pub open spec fn spec_is_connect(peek: Seq<u8>) -> bool {
    peek.len() >= 8 && peek.take(8) == seq![67u8, 79u8, 78u8, 78u8, 69u8, 67u8, 84u8, 32u8]
}

/// Tells a tunnel request (`CONNECT `) from plain HTTP by its first bytes.
pub fn is_connect(peek: &[u8]) -> (b: bool)
    ensures
        b == spec_is_connect(peek@),
{
    if peek.len() < 8 {
        return false;
    }
    let r = peek[0] == 67 && peek[1] == 79 && peek[2] == 78 && peek[3] == 78 && peek[4] == 69 && peek[5] == 67
        && peek[6] == 84 && peek[7] == 32;
    assert(r == (peek@.take(8) =~= seq![67u8, 79u8, 78u8, 78u8, 69u8, 67u8, 84u8, 32u8]));
    r
}

/// Where a proxied request goes once its start is read.
#[derive(Debug, PartialEq, Eq)]
pub enum RequestStart {
    /// Answer with this error status and message, then close.
    Reject(u16, String),
    /// Go on with the request for `domain`; `host` is the `host[:port]` text.
    Proceed { host: String, domain: String },
}

/// The target of a plain HTTP request: its `Host` header (empty when
/// missing), or a refusal when that names no domain.
pub open spec fn spec_plain_start(hs: Seq<(Seq<char>, Seq<u8>)>) -> (Seq<char>, Seq<char>) {
    let host = match spec_extract_host(hs) { Some(h) => h, None => Seq::empty() };
    (host, spec_host_domain(host))
}

/// What a plain HTTP request start means, from the plain contents of its
/// parse: a parse failure is an error (`HTTP parse error: ...`); a request
/// that names no domain is answered 400; otherwise it goes on for its host.
pub open spec fn spec_plain_outcome(
    parsed: Result<(Option<Seq<char>>, Seq<(Seq<char>, Seq<u8>)>), Seq<char>>,
    r: Result<RequestStart, NetworkError>,
) -> bool {
    match parsed {
        Err(m) => r matches Err(NetworkError::Io(x)) && x@ == "HTTP parse error: "@ + m,
        Ok((_, hs)) => {
            let (host, domain) = spec_plain_start(hs);
            if domain.len() == 0 {
                r matches Ok(RequestStart::Reject(s, m)) && s == 400 && m@ == "Bad Request: missing Host header"@
            } else {
                r matches Ok(RequestStart::Proceed { host: h, domain: d }) && h@ == host && d@ == domain
            }
        },
    }
}

/// What a `CONNECT` request start means, from the plain contents of its
/// parse: a parse failure is an error (`CONNECT parse: ...`); a target that
/// names no domain is answered 400; otherwise it goes on for the target
/// (`host` is the whole target).
pub open spec fn spec_connect_outcome(
    parsed: Result<(Option<Seq<char>>, Seq<(Seq<char>, Seq<u8>)>), Seq<char>>,
    r: Result<RequestStart, NetworkError>,
) -> bool {
    match parsed {
        Err(m) => r matches Err(NetworkError::Io(x)) && x@ == "CONNECT parse: "@ + m,
        Ok((path, _)) => {
            let target = match path { Some(p) => p, None => Seq::empty() };
            if spec_host_domain(target).len() == 0 {
                r matches Ok(RequestStart::Reject(s, m)) && s == 400 && m@ == "Bad Request"@
            } else {
                r matches Ok(RequestStart::Proceed { host: h, domain: d }) && h@ == target
                    && d@ == spec_host_domain(target)
            }
        },
    }
}

/// Decides a plain HTTP request start from its parse (see
/// `spec_plain_outcome`).
pub fn plain_start_of(parsed: Result<RequestHead, String>) -> (r: Result<RequestStart, NetworkError>)
    ensures
        spec_plain_outcome(head_view(parsed), r),
{
    match parsed {
        Err(m) => Err(NetworkError::Io(prefixed("HTTP parse error: ", m.as_str()))),
        Ok(head) => {
            let host = match extract_host(&head) {
                Some(h) => h,
                None => String::new(),
            };
            let domain = host_domain(host.as_str());
            if domain.unicode_len() == 0 {
                Ok(RequestStart::Reject(400, "Bad Request: missing Host header".to_owned()))
            } else {
                Ok(RequestStart::Proceed { host, domain })
            }
        },
    }
}

/// Decides a `CONNECT` request start from its parse (see
/// `spec_connect_outcome`).
pub fn connect_start_of(parsed: Result<RequestHead, String>) -> (r: Result<RequestStart, NetworkError>)
    ensures
        spec_connect_outcome(head_view(parsed), r),
{
    match parsed {
        Err(m) => Err(NetworkError::Io(prefixed("CONNECT parse: ", m.as_str()))),
        Ok(head) => {
            let target = match head.path {
                Some(p) => p,
                None => String::new(),
            };
            let domain = host_domain(target.as_str());
            if domain.unicode_len() == 0 {
                Ok(RequestStart::Reject(400, "Bad Request".to_owned()))
            } else {
                Ok(RequestStart::Proceed { host: target, domain })
            }
        },
    }
}

/// Reads the start of a plain HTTP request: parses it with `HEADER_SLOTS`
/// header slots and decides as `plain_start_of` does.
pub fn plain_http_start(buf: &[u8]) -> (r: Result<RequestStart, NetworkError>)
    ensures
        spec_plain_outcome(spec_request_head(buf@, HEADER_SLOTS), r),
{
    plain_start_of(parse_request_head(buf, HEADER_SLOTS))
}

/// Reads the start of a `CONNECT` request: parses it with `HEADER_SLOTS`
/// header slots and decides as `connect_start_of` does.
pub fn connect_start(buf: &[u8]) -> (r: Result<RequestStart, NetworkError>)
    ensures
        spec_connect_outcome(spec_request_head(buf@, HEADER_SLOTS), r),
{
    connect_start_of(parse_request_head(buf, HEADER_SLOTS))
}

/// What the proxy does with an allowed or denied plain HTTP request.
#[derive(Debug, PartialEq, Eq)]
pub enum Forward {
    /// Answer with this error status and message.
    Refuse(u16, String),
    /// Connect to the domain on `port` and send `data` first.
    Send { data: Vec<u8>, port: u16 },
}

/// Turns a decision on a plain HTTP request into what to do: a denied
/// request is answered 403; an allowed one is sent on unchanged, or with the
/// rule's headers injected, to the port of its host (80 by default).
pub fn plain_http_forward(decision: &PolicyDecision, request: &[u8], host: &str) -> (r: Result<Forward, NetworkError>)
    ensures
        match *decision {
            PolicyDecision::Deny => r matches Ok(Forward::Refuse(s, m)) && s == 403 && m@ == "Forbidden by network policy"@,
            PolicyDecision::Allow => r matches Ok(Forward::Send { data, port }) && data@ == request@
                && port == spec_extract_port(host@, 80),
            PolicyDecision::AllowWithTransform(rule) => match r {
                Ok(Forward::Send { data, port }) => port == spec_extract_port(host@, 80) && (
                    (rule.headers@.len() == 0 && data@ == request@) || (rule.headers@.len() > 0 && exists|i: int|
                        is_first_terminator(request@, i) && data@ == spliced(request@, i, rule.headers@))),
                Ok(Forward::Refuse(_, _)) => false,
                Err(e) => rule.headers@.len() > 0 && !has_terminator(request@)
                    && (e matches NetworkError::Io(m) && m@ == "no header terminator"@),
            },
        },
{
    match decision {
        PolicyDecision::Deny => Ok(Forward::Refuse(403, "Forbidden by network policy".to_owned())),
        PolicyDecision::Allow => {
            let mut data: Vec<u8> = Vec::new();
            extend(&mut data, request);
            Ok(Forward::Send { data, port: extract_port(host, 80) })
        },
        PolicyDecision::AllowWithTransform(rule) => {
            match inject_headers(request, &rule.headers) {
                Ok(data) => Ok(Forward::Send { data, port: extract_port(host, 80) }),
                Err(e) => Err(e),
            }
        },
    }
}

/// What the proxy does with a `CONNECT` request once it is decided.
#[derive(Debug)]
pub enum TunnelPlan {
    /// Answer with this error status and message.
    Refuse(u16, String),
    /// Confirm the tunnel and relay bytes unchanged.
    Relay,
    /// Confirm the tunnel, terminate TLS on both sides and inject the rule's
    /// headers into the request inside.
    Intercept(TransformRule),
}

/// Turns a decision on a `CONNECT` request into what to do.
pub fn tunnel_plan(decision: PolicyDecision) -> (r: TunnelPlan)
    ensures
        match decision {
            PolicyDecision::Deny => r matches TunnelPlan::Refuse(s, m) && s == 403 && m@ == "Forbidden by network policy"@,
            PolicyDecision::Allow => r == TunnelPlan::Relay,
            PolicyDecision::AllowWithTransform(rule) => r == TunnelPlan::Intercept(rule),
        },
{
    match decision {
        PolicyDecision::Deny => TunnelPlan::Refuse(403, "Forbidden by network policy".to_owned()),
        PolicyDecision::Allow => TunnelPlan::Relay,
        PolicyDecision::AllowWithTransform(rule) => TunnelPlan::Intercept(rule),
    }
}

/// The reply that confirms a tunnel.
pub fn tunnel_established() -> (r: &'static str)
    ensures
        r@ == "HTTP/1.1 200 Connection Established\r\n\r\n"@,
{
    "HTTP/1.1 200 Connection Established\r\n\r\n"
}

} // verus!
