//! Request heads as bytes: parsing a head off the front of the read buffer,
//! and writing one.
//!
//! A head is a request line of method, target and version, a line for each
//! header, and an empty line; every line ends with a carriage return and a
//! line feed. A header line is the name, a colon, and the value with any
//! blanks around it. A line that starts with a blank, as a folded header
//! would, is refused.

use vstd::prelude::*;
use vstd::slice::slice_subrange;
use vstd::string::StringSliceAdditionalSpecFns;
use crate::chunked::{find_line_end, line_end, line_end_at};
use crate::encoder::{
    crlf,
    header_line,
    header_lines,
    headers_view,
    lemma_crlf_bytes,
    lemma_header_lines_push,
    lemma_separator_bytes,
    Fields,
    Header,
};
use crate::header::{interpret, interpret_spec, trim, trimmed};
use crate::message::{Method, ParseError, RequestHead, Version};

verus! {

/// Bounds on the heads a parser takes.
#[derive(Clone, Copy, Debug)]
pub struct Limits {
    /// Most bytes a head may have.
    pub max_head: usize,
    /// Most headers a head may have.
    pub max_headers: usize,
}

/// A parsed request head.
#[derive(Debug)]
pub struct Request {
    pub method: Vec<u8>,
    pub target: Vec<u8>,
    pub version: Version,
    pub headers: Vec<Header>,
}

/// A request head as plain values.
pub struct RequestView {
    pub method: Seq<u8>,
    pub target: Seq<u8>,
    pub version: Version,
    pub headers: Fields,
}

impl RequestView {
    /// What the connection logic reads of this request.
    pub open spec fn head_spec(self) -> Result<RequestHead, ParseError> {
        interpret_spec(method_spec(self.method), self.version, self.headers)
    }
}

impl View for Request {
    type V = RequestView;

    open spec fn view(&self) -> RequestView {
        RequestView {
            method: self.method@,
            target: self.target@,
            version: self.version,
            headers: headers_view(self.headers@),
        }
    }
}

/// Whether `b` may stand in a method or a header name: a letter, a digit,
/// or one of ``!#$%&'*+-.^_`|~``.
pub open spec fn is_token_byte(b: u8) -> bool {
    ||| 48 <= b <= 57
    ||| 65 <= b <= 90
    ||| 97 <= b <= 122
    ||| b == 33
    ||| 35 <= b <= 39
    ||| b == 42
    ||| b == 43
    ||| b == 45
    ||| b == 46
    ||| b == 94
    ||| b == 95
    ||| b == 96
    ||| b == 124
    ||| b == 126
}

/// Whether `s` is a token: at least one byte, all of them token bytes.
pub open spec fn is_token(s: Seq<u8>) -> bool {
    s.len() > 0 && forall|i: int| 0 <= i < s.len() ==> is_token_byte(#[trigger] s[i])
}

/// Whether `b` may stand in a request target: any byte but blanks, control
/// bytes and the delete byte.
pub open spec fn is_target_byte(b: u8) -> bool {
    b > 32 && b != 127
}

/// Whether `s` is a request target: at least one byte, all of them target
/// bytes.
pub open spec fn is_target(s: Seq<u8>) -> bool {
    s.len() > 0 && forall|i: int| 0 <= i < s.len() ==> is_target_byte(#[trigger] s[i])
}

/// Whether `b` may stand in a header value: a blank, or any byte but
/// control bytes and the delete byte.
pub open spec fn is_value_byte(b: u8) -> bool {
    b == 9 || (b >= 32 && b != 127)
}

/// Whether all bytes of `s` may stand in a header value.
pub open spec fn is_value(s: Seq<u8>) -> bool {
    forall|i: int| 0 <= i < s.len() ==> is_value_byte(#[trigger] s[i])
}

/// The bytes that name a version.
pub open spec fn version_bytes(v: Version) -> Seq<u8> {
    match v {
        Version::Http10 => "HTTP/1.0".spec_bytes(),
        Version::Http11 => "HTTP/1.1".spec_bytes(),
    }
}

/// The version that `s` names, if it names one.
pub open spec fn version_spec(s: Seq<u8>) -> Option<Version> {
    if s == version_bytes(Version::Http11) {
        Some(Version::Http11)
    } else if s == version_bytes(Version::Http10) {
        Some(Version::Http10)
    } else {
        None
    }
}

/// The method that the bytes `s` name; any name but the standard ones is
/// an extension.
pub open spec fn method_spec(s: Seq<u8>) -> Method {
    if s == "GET".spec_bytes() {
        Method::Get
    } else if s == "HEAD".spec_bytes() {
        Method::Head
    } else if s == "POST".spec_bytes() {
        Method::Post
    } else if s == "PUT".spec_bytes() {
        Method::Put
    } else if s == "DELETE".spec_bytes() {
        Method::Delete
    } else if s == "CONNECT".spec_bytes() {
        Method::Connect
    } else if s == "OPTIONS".spec_bytes() {
        Method::Options
    } else if s == "TRACE".spec_bytes() {
        Method::Trace
    } else if s == "PATCH".spec_bytes() {
        Method::Patch
    } else {
        Method::Extension
    }
}

/// The position of the first `b` in `s` at or after `from`.
pub open spec fn find(s: Seq<u8>, b: u8, from: int) -> Option<int>
    decreases s.len() - from,
{
    if from < 0 || from >= s.len() {
        None
    } else if s[from] == b {
        Some(from)
    } else {
        find(s, b, from + 1)
    }
}

/// The method, target and version of the request line `line`.
pub open spec fn request_line_spec(line: Seq<u8>) -> Option<(Seq<u8>, Seq<u8>, Version)> {
    match find(line, 32, 0) {
        Some(i) => match find(line, 32, i + 1) {
            Some(j) => {
                let method = line.subrange(0, i);
                let target = line.subrange(i + 1, j);
                match version_spec(line.subrange(j + 1, line.len() as int)) {
                    Some(version) => if is_token(method) && is_target(target) {
                        Some((method, target, version))
                    } else {
                        None
                    },
                    None => None,
                }
            },
            None => None,
        },
        None => None,
    }
}

/// The name and value of the header line `line`.
pub open spec fn header_line_spec(line: Seq<u8>) -> Option<(Seq<u8>, Seq<u8>)> {
    match find(line, 58, 0) {
        Some(c) => if is_token(line.take(c)) && is_value(line.skip(c + 1)) {
            Some((line.take(c), trimmed(line.skip(c + 1))))
        } else {
            None
        },
        None => None,
    }
}

/// What parsing the header lines of a buffer comes to.
pub enum HeaderLines {
    /// The lines are not complete.
    NeedMore,
    /// A line is malformed, or there are too many.
    Fail,
    /// The headers, and the position after the empty line that ends them.
    Done { headers: Fields, end: int },
}

/// The headers whose lines start in `buf` at `from`, at most `limit` of
/// them.
pub open spec fn header_lines_spec(buf: Seq<u8>, from: int, limit: nat) -> HeaderLines
    decreases buf.len() - from,
{
    if from < 0 {
        HeaderLines::Fail
    } else if line_end_at(buf, from) {
        HeaderLines::Done { headers: Seq::empty(), end: from + 2 }
    } else {
        match line_end(buf, from) {
            None => HeaderLines::NeedMore,
            Some(e) => if limit == 0 || e < from || e + 2 > buf.len() {
                HeaderLines::Fail
            } else {
                match header_line_spec(buf.subrange(from, e)) {
                    None => HeaderLines::Fail,
                    Some(h) => match header_lines_spec(buf, e + 2, (limit - 1) as nat) {
                        HeaderLines::Done { headers, end } => HeaderLines::Done {
                            headers: seq![h] + headers,
                            end,
                        },
                        other => other,
                    },
                }
            },
        }
    }
}

/// What is made of a buffer that holds no complete head: a refusal when it
/// holds as much as a head may have, a wait otherwise.
pub open spec fn incomplete(buf: Seq<u8>, limits: Limits) -> Result<
    Option<(RequestView, int)>,
    ParseError,
> {
    if buf.len() >= limits.max_head {
        Err(ParseError::Malformed)
    } else {
        Ok(None)
    }
}

/// The request head at the front of `buf` and its length; nothing while the
/// head is not complete; a refusal where it is malformed or beyond the
/// limits.
pub open spec fn parse_spec(buf: Seq<u8>, limits: Limits) -> Result<
    Option<(RequestView, int)>,
    ParseError,
> {
    match line_end(buf, 0) {
        None => incomplete(buf, limits),
        Some(p) => match request_line_spec(buf.take(p)) {
            None => Err(ParseError::Malformed),
            Some((method, target, version)) => match header_lines_spec(
                buf,
                p + 2,
                limits.max_headers as nat,
            ) {
                HeaderLines::NeedMore => incomplete(buf, limits),
                HeaderLines::Fail => Err(ParseError::Malformed),
                HeaderLines::Done { headers, end } => if end > limits.max_head {
                    Err(ParseError::Malformed)
                } else {
                    Ok(Some((RequestView { method, target, version, headers }, end)))
                },
            },
        },
    }
}

fn token_byte(b: u8) -> (r: bool)
    ensures
        r == is_token_byte(b),
{
    (48 <= b && b <= 57) || (65 <= b && b <= 90) || (97 <= b && b <= 122) || b == 33 || (35 <= b
        && b <= 39) || b == 42 || b == 43 || b == 45 || b == 46 || b == 94 || b == 95 || b == 96
        || b == 124 || b == 126
}

fn check_token(s: &[u8]) -> (r: bool)
    ensures
        r == is_token(s@),
{
    if s.len() == 0 {
        return false;
    }
    let mut i: usize = 0;
    while i < s.len()
        invariant
            0 <= i <= s@.len(),
            forall|j: int| 0 <= j < i ==> is_token_byte(#[trigger] s@[j]),
        decreases s.len() - i,
    {
        if !token_byte(s[i]) {
            return false;
        }
        i = i + 1;
    }
    true
}

fn check_target(s: &[u8]) -> (r: bool)
    ensures
        r == is_target(s@),
{
    if s.len() == 0 {
        return false;
    }
    let mut i: usize = 0;
    while i < s.len()
        invariant
            0 <= i <= s@.len(),
            forall|j: int| 0 <= j < i ==> is_target_byte(#[trigger] s@[j]),
        decreases s.len() - i,
    {
        if s[i] <= 32 || s[i] == 127 {
            return false;
        }
        i = i + 1;
    }
    true
}

fn check_value(s: &[u8]) -> (r: bool)
    ensures
        r == is_value(s@),
{
    let mut i: usize = 0;
    while i < s.len()
        invariant
            0 <= i <= s@.len(),
            forall|j: int| 0 <= j < i ==> is_value_byte(#[trigger] s@[j]),
        decreases s.len() - i,
    {
        let b: u8 = s[i];
        if !(b == 9 || (b >= 32 && b != 127)) {
            return false;
        }
        i = i + 1;
    }
    true
}

/// Whether `a` and `b` hold the same bytes.
pub fn same_bytes(a: &[u8], b: &[u8]) -> (r: bool)
    ensures
        r == (a@ == b@),
{
    if a.len() != b.len() {
        return false;
    }
    let mut i: usize = 0;
    while i < a.len()
        invariant
            a@.len() == b@.len(),
            0 <= i <= a@.len(),
            forall|j: int| 0 <= j < i ==> a@[j] == b@[j],
        decreases a.len() - i,
    {
        if a[i] != b[i] {
            return false;
        }
        i = i + 1;
    }
    assert(a@ =~= b@);
    true
}

/// The method that the bytes `s` name.
pub fn method_of(s: &[u8]) -> (m: Method)
    ensures
        m == method_spec(s@),
{
    if same_bytes(s, "GET".as_bytes()) {
        Method::Get
    } else if same_bytes(s, "HEAD".as_bytes()) {
        Method::Head
    } else if same_bytes(s, "POST".as_bytes()) {
        Method::Post
    } else if same_bytes(s, "PUT".as_bytes()) {
        Method::Put
    } else if same_bytes(s, "DELETE".as_bytes()) {
        Method::Delete
    } else if same_bytes(s, "CONNECT".as_bytes()) {
        Method::Connect
    } else if same_bytes(s, "OPTIONS".as_bytes()) {
        Method::Options
    } else if same_bytes(s, "TRACE".as_bytes()) {
        Method::Trace
    } else if same_bytes(s, "PATCH".as_bytes()) {
        Method::Patch
    } else {
        Method::Extension
    }
}

fn parse_version(s: &[u8]) -> (r: Option<Version>)
    ensures
        r == version_spec(s@),
{
    if same_bytes(s, "HTTP/1.1".as_bytes()) {
        Some(Version::Http11)
    } else if same_bytes(s, "HTTP/1.0".as_bytes()) {
        Some(Version::Http10)
    } else {
        None
    }
}

fn find_byte(s: &[u8], b: u8, from: usize) -> (r: Option<usize>)
    requires
        from <= s@.len(),
    ensures
        match r {
            Some(i) => find(s@, b, from as int) == Some(i as int) && from <= i < s@.len(),
            None => find(s@, b, from as int) is None,
        },
{
    let mut i: usize = from;
    while i < s.len()
        invariant
            from <= i <= s@.len(),
            find(s@, b, from as int) == find(s@, b, i as int),
        decreases s.len() - i,
    {
        if s[i] == b {
            return Some(i);
        }
        i = i + 1;
    }
    None
}

fn copy(s: &[u8]) -> (v: Vec<u8>)
    ensures
        v@ == s@,
{
    let mut v: Vec<u8> = Vec::new();
    v.extend_from_slice(s);
    assert(v@ =~= s@);
    v
}

fn parse_request_line(line: &[u8]) -> (r: Option<(Vec<u8>, Vec<u8>, Version)>)
    ensures
        match r {
            Some((method, target, version)) => request_line_spec(line@) == Some(
                (method@, target@, version),
            ),
            None => request_line_spec(line@) is None,
        },
{
    let len: usize = line.len();
    let i = match find_byte(line, 32, 0) {
        Some(i) => i,
        None => {
            return None;
        },
    };
    let j = match find_byte(line, 32, i + 1) {
        Some(j) => j,
        None => {
            return None;
        },
    };
    let method = slice_subrange(line, 0, i);
    let target = slice_subrange(line, i + 1, j);
    let version = match parse_version(slice_subrange(line, j + 1, len)) {
        Some(v) => v,
        None => {
            return None;
        },
    };
    if check_token(method) && check_target(target) {
        Some((copy(method), copy(target), version))
    } else {
        None
    }
}

fn parse_header_line(line: &[u8]) -> (r: Option<Header>)
    ensures
        match r {
            Some(h) => header_line_spec(line@) == Some((h.0@, h.1@)),
            None => header_line_spec(line@) is None,
        },
{
    let len: usize = line.len();
    let c = match find_byte(line, 58, 0) {
        Some(c) => c,
        None => {
            return None;
        },
    };
    let name = slice_subrange(line, 0, c);
    let rest = slice_subrange(line, c + 1, len);
    assert(line@.take(c as int) =~= name@);
    assert(line@.skip(c + 1) =~= rest@);
    if check_token(name) && check_value(rest) {
        Some((copy(name), copy(trim(rest))))
    } else {
        None
    }
}

impl Request {
    /// What the connection logic reads of this request, or the reason the
    /// request is refused.
    pub fn head(&self) -> (r: Result<RequestHead, ParseError>)
        ensures
            r == self@.head_spec(),
    {
        interpret(method_of(self.method.as_slice()), self.version, &self.headers)
    }
}

/// `r`, with the headers `front` before its own.
pub open spec fn prepend(front: Fields, r: HeaderLines) -> HeaderLines {
    match r {
        HeaderLines::Done { headers, end } => HeaderLines::Done { headers: front + headers, end },
        other => other,
    }
}

fn incomplete_head(buf: &[u8], limits: Limits) -> (r: Result<Option<(Request, usize)>, ParseError>)
    ensures
        match incomplete(buf@, limits) {
            Ok(_) => r matches Ok(None),
            Err(e) => r matches Err(f) && f == e,
        },
{
    if buf.len() >= limits.max_head {
        Err(ParseError::Malformed)
    } else {
        Ok(None)
    }
}

/// Parses the request head at the front of `buf`.
///
/// A complete head within the limits is handed out with its length. While
/// the head is not complete, nothing is, unless the buffer already holds as
/// much as a head may have. A malformed head, and one beyond the limits, is
/// refused.
pub fn parse(buf: &[u8], limits: Limits) -> (r: Result<Option<(Request, usize)>, ParseError>)
    ensures
        match parse_spec(buf@, limits) {
            Ok(Some((view, end))) => r matches Ok(Some((req, n))) && req@ == view && n == end
                && n <= buf@.len(),
            Ok(None) => r matches Ok(None),
            Err(e) => r matches Err(f) && f == e,
        },
{
    let len: usize = buf.len();
    let p = match find_line_end(buf, 0) {
        Some(p) => p,
        None => {
            return incomplete_head(buf, limits);
        },
    };
    let line = slice_subrange(buf, 0, p);
    assert(line@ =~= buf@.take(p as int));
    let (method, target, version) = match parse_request_line(line) {
        Some(parts) => parts,
        None => {
            return Err(ParseError::Malformed);
        },
    };
    let mut headers: Vec<Header> = Vec::new();
    let mut pos: usize = p + 2;
    let ghost whole = header_lines_spec(buf@, p + 2, limits.max_headers as nat);
    assert(headers_view(headers@) =~= Seq::empty());
    assert(prepend(Seq::empty(), whole) == whole);
    loop
        invariant
            len == buf@.len(),
            p + 2 <= pos <= len,
            headers@.len() <= limits.max_headers,
            whole == header_lines_spec(buf@, p + 2, limits.max_headers as nat),
            whole == prepend(
                headers_view(headers@),
                header_lines_spec(
                    buf@,
                    pos as int,
                    (limits.max_headers - headers@.len()) as nat,
                ),
            ),
            line_end(buf@, 0) == Some(p as int),
            request_line_spec(buf@.take(p as int)) == Some((method@, target@, version)),
        decreases len - pos,
    {
        if len >= 2 && pos <= len - 2 && buf[pos] == 13 && buf[pos + 1] == 10 {
            let end: usize = pos + 2;
            assert(headers_view(headers@) + Seq::empty() =~= headers_view(headers@));
            if end > limits.max_head {
                return Err(ParseError::Malformed);
            }
            return Ok(Some((Request { method, target, version, headers }, end)));
        }
        let e = match find_line_end(buf, pos) {
            Some(e) => e,
            None => {
                return incomplete_head(buf, limits);
            },
        };
        if headers.len() >= limits.max_headers {
            return Err(ParseError::Malformed);
        }
        let header = match parse_header_line(slice_subrange(buf, pos, e)) {
            Some(h) => h,
            None => {
                return Err(ParseError::Malformed);
            },
        };
        proof {
            let front = headers_view(headers@);
            let h = (header.0@, header.1@);
            let next = headers_view(headers@.push(header));
            assert(next =~= front + seq![h]);
            let rest = header_lines_spec(
                buf@,
                e + 2,
                (limits.max_headers - headers@.len() - 1) as nat,
            );
            match rest {
                HeaderLines::Done { headers: more, end } => {
                    assert(front + (seq![h] + more) =~= next + more);
                },
                _ => {},
            }
        }
        headers.push(header);
        pos = e + 2;
    }
}

/// The request line without its end.
pub open spec fn request_line(method: Seq<u8>, target: Seq<u8>, version: Version) -> Seq<u8> {
    method + " ".spec_bytes() + target + " ".spec_bytes() + version_bytes(version)
}

/// The bytes of a request head.
pub open spec fn request_bytes(req: RequestView) -> Seq<u8> {
    request_line(req.method, req.target, req.version) + crlf() + header_lines(req.headers) + crlf()
}

/// Whether a head is one that the parser hands out: method and names are
/// tokens, the target is a target, and the values are made of value bytes
/// and have no blanks around them.
pub open spec fn well_formed(req: RequestView) -> bool {
    &&& is_token(req.method)
    &&& is_target(req.target)
    &&& forall|i: int|
        0 <= i < req.headers.len() ==> {
            &&& is_token((#[trigger] req.headers[i]).0)
            &&& is_value(req.headers[i].1)
            &&& trimmed(req.headers[i].1) == req.headers[i].1
        }
}

fn push_str(dst: &mut Vec<u8>, s: &str)
    ensures
        final(dst)@ == old(dst)@ + s.spec_bytes(),
{
    dst.extend_from_slice(s.as_bytes());
}

fn push_bytes(dst: &mut Vec<u8>, bytes: &[u8])
    ensures
        final(dst)@ == old(dst)@ + bytes@,
{
    dst.extend_from_slice(bytes);
}

/// Writes the head of `req`.
pub fn encode(req: &Request, dst: &mut Vec<u8>)
    ensures
        final(dst)@ == old(dst)@ + request_bytes(req@),
{
    push_bytes(dst, req.method.as_slice());
    push_str(dst, " ");
    push_bytes(dst, req.target.as_slice());
    push_str(dst, " ");
    match req.version {
        Version::Http10 => push_str(dst, "HTTP/1.0"),
        Version::Http11 => push_str(dst, "HTTP/1.1"),
    }
    push_str(dst, "\r\n");
    let ghost lined = dst@;
    assert(lined =~= old(dst)@ + request_line(req@.method, req@.target, req@.version) + crlf());
    let mut i: usize = 0;
    assert(headers_view(req.headers@).take(0) =~= Seq::empty());
    while i < req.headers.len()
        invariant
            0 <= i <= req.headers@.len(),
            dst@ == lined + header_lines(headers_view(req.headers@).take(i as int)),
        decreases req.headers.len() - i,
    {
        let ghost before = dst@;
        push_bytes(dst, req.headers[i].0.as_slice());
        push_str(dst, ": ");
        push_bytes(dst, req.headers[i].1.as_slice());
        push_str(dst, "\r\n");
        proof {
            let all = headers_view(req.headers@);
            let h = all[i as int];
            assert(all.take(i + 1) =~= all.take(i as int).push(h));
            lemma_header_lines_push(all.take(i as int), h);
            assert(dst@ =~= before + header_line(h.0, h.1));
        }
        i = i + 1;
    }
    assert(headers_view(req.headers@).take(i as int) =~= headers_view(req.headers@));
    push_str(dst, "\r\n");
    assert(dst@ =~= old(dst)@ + request_bytes(req@));
}

proof fn lemma_find(s: Seq<u8>, b: u8, from: int, at: int)
    requires
        0 <= from <= at < s.len(),
        s[at] == b,
        forall|i: int| from <= i < at ==> s[i] != b,
    ensures
        find(s, b, from) == Some(at),
    decreases at - from,
{
    if from < at {
        lemma_find(s, b, from + 1, at);
    }
}

proof fn lemma_line_end(buf: Seq<u8>, from: int, at: int)
    requires
        0 <= from <= at,
        line_end_at(buf, at),
        forall|i: int| from <= i < at ==> buf[i] != 13,
    ensures
        line_end(buf, from) == Some(at),
    decreases at - from,
{
    if from < at {
        lemma_line_end(buf, from + 1, at);
    }
}

proof fn lemma_version_bytes()
    ensures
        version_bytes(Version::Http10) == seq![72u8, 84u8, 84u8, 80u8, 47u8, 49u8, 46u8, 48u8],
        version_bytes(Version::Http11) == seq![72u8, 84u8, 84u8, 80u8, 47u8, 49u8, 46u8, 49u8],
        " ".spec_bytes() == seq![32u8],
{
    reveal_strlit("HTTP/1.0");
    reveal_strlit("HTTP/1.1");
    reveal_strlit(" ");
    let a = "HTTP/1.0"@;
    let b = "HTTP/1.1"@;
    let c = " "@;
    assert(a[0] == 'H' && a[1] == 'T' && a[2] == 'T' && a[3] == 'P' && a[4] == '/' && a[5] == '1'
        && a[6] == '.' && a[7] == '0');
    assert(b[0] == 'H' && b[1] == 'T' && b[2] == 'T' && b[3] == 'P' && b[4] == '/' && b[5] == '1'
        && b[6] == '.' && b[7] == '1');
    assert(c[0] == ' ');
    assert(vstd::utf8::is_ascii_chars(a));
    assert(vstd::utf8::is_ascii_chars(b));
    assert(vstd::utf8::is_ascii_chars(c));
    vstd::utf8::is_ascii_chars_encode_utf8(a);
    vstd::utf8::is_ascii_chars_encode_utf8(b);
    vstd::utf8::is_ascii_chars_encode_utf8(c);
    assert("HTTP/1.0".spec_bytes() =~= seq![72u8, 84u8, 84u8, 80u8, 47u8, 49u8, 46u8, 48u8]);
    assert("HTTP/1.1".spec_bytes() =~= seq![72u8, 84u8, 84u8, 80u8, 47u8, 49u8, 46u8, 49u8]);
    assert(" ".spec_bytes() =~= seq![32u8]);
}

proof fn lemma_request_line(method: Seq<u8>, target: Seq<u8>, version: Version)
    requires
        is_token(method),
        is_target(target),
    ensures
        request_line_spec(request_line(method, target, version)) == Some(
            (method, target, version),
        ),
        forall|i: int|
            0 <= i < request_line(method, target, version).len() ==> request_line(
                method,
                target,
                version,
            )[i] != 13,
{
    lemma_version_bytes();
    let line = request_line(method, target, version);
    let m = method.len() as int;
    let t = target.len() as int;
    let v = version_bytes(version);
    assert(line.len() == m + 1 + t + 1 + 8);
    assert forall|i: int| 0 <= i < m implies line[i] == method[i] by {}
    assert(line[m] == 32u8);
    assert forall|i: int| m + 1 <= i < m + 1 + t implies line[i] == target[i - m - 1] by {}
    assert(line[m + 1 + t] == 32u8);
    assert forall|i: int| m + 2 + t <= i < line.len() implies line[i] == v[i - m - 2 - t] by {}
    assert forall|i: int| 0 <= i < m implies line[i] != 32 by {
        assert(is_token_byte(method[i]));
    }
    lemma_find(line, 32, 0, m);
    assert forall|i: int| m + 1 <= i < m + 1 + t implies line[i] != 32 by {
        assert(is_target_byte(target[i - m - 1]));
    }
    lemma_find(line, 32, m + 1, m + 1 + t);
    assert(line.subrange(0, m) =~= method);
    assert(line.subrange(m + 1, m + 1 + t) =~= target);
    assert(line.subrange(m + 2 + t, line.len() as int) =~= v);
    assert(version_bytes(Version::Http10) != version_bytes(Version::Http11)) by {
        assert(version_bytes(Version::Http10)[7] == 48u8);
        assert(version_bytes(Version::Http11)[7] == 49u8);
    }
    assert forall|i: int| 0 <= i < line.len() implies line[i] != 13 by {
        if i < m {
            assert(is_token_byte(method[i]));
        } else if m + 1 <= i < m + 1 + t {
            assert(is_target_byte(target[i - m - 1]));
        } else if i >= m + 2 + t {
            assert(line[i] == v[i - m - 2 - t]);
        }
    }
}

proof fn lemma_header_line(name: Seq<u8>, value: Seq<u8>)
    requires
        is_token(name),
        is_value(value),
        trimmed(value) == value,
    ensures
        header_line_spec(name + ": ".spec_bytes() + value) == Some((name, value)),
        forall|i: int|
            0 <= i < (name + ": ".spec_bytes() + value).len() ==> (name + ": ".spec_bytes()
                + value)[i] != 13,
        (name + ": ".spec_bytes() + value)[0] != 13,
{
    lemma_separator_bytes();
    let line = name + ": ".spec_bytes() + value;
    let n = name.len() as int;
    assert forall|i: int| 0 <= i < n implies line[i] == name[i] by {}
    assert(line[n] == 58u8);
    assert(line[n + 1] == 32u8);
    assert forall|i: int| n + 2 <= i < line.len() implies line[i] == value[i - n - 2] by {}
    assert forall|i: int| 0 <= i < n implies line[i] != 58 by {
        assert(is_token_byte(name[i]));
    }
    lemma_find(line, 58, 0, n);
    assert(line.take(n) =~= name);
    let rest = line.skip(n + 1);
    assert(rest =~= seq![32u8] + value);
    assert forall|i: int| 0 <= i < rest.len() implies is_value_byte(#[trigger] rest[i]) by {
        if i > 0 {
            assert(rest[i] == value[i - 1]);
        }
    }
    assert(rest.drop_first() =~= value);
    assert(trimmed(rest) == trimmed(value)) by {
        assert(crate::header::trim_start(rest) == crate::header::trim_start(value));
    }
    assert forall|i: int| 0 <= i < line.len() implies line[i] != 13 by {
        if i < n {
            assert(is_token_byte(name[i]));
        } else if i >= n + 2 {
            assert(is_value_byte(value[i - n - 2]));
        }
    }
    assert(is_token_byte(name[0]));
}

proof fn lemma_header_lines(
    buf: Seq<u8>,
    pos: int,
    headers: Fields,
    rest: Seq<u8>,
    limit: nat,
)
    requires
        0 <= pos <= buf.len(),
        buf.skip(pos) == header_lines(headers) + crlf() + rest,
        headers.len() <= limit,
        forall|i: int|
            0 <= i < headers.len() ==> {
                &&& is_token((#[trigger] headers[i]).0)
                &&& is_value(headers[i].1)
                &&& trimmed(headers[i].1) == headers[i].1
            },
    ensures
        header_lines_spec(buf, pos, limit) == (HeaderLines::Done {
            headers,
            end: pos + header_lines(headers).len() + 2,
        }),
    decreases headers.len(),
{
    lemma_crlf_bytes();
    let tail = buf.skip(pos);
    assert(tail.len() == header_lines(headers).len() + 2 + rest.len());
    if headers.len() == 0 {
        assert(header_lines(headers) =~= Seq::<u8>::empty());
        assert(tail =~= crlf() + rest);
        assert(tail[0] == 13u8 && tail[1] == 10u8);
        assert(buf[pos] == tail[0] && buf[pos + 1] == tail[1]);
        assert(line_end_at(buf, pos));
        assert(headers =~= Seq::empty());
    } else {
        let h = headers[0];
        let others = headers.drop_first();
        let line = h.0 + ": ".spec_bytes() + h.1;
        let n = line.len() as int;
        lemma_header_line(h.0, h.1);
        assert(header_line(h.0, h.1) =~= line + crlf());
        assert(tail =~= line + crlf() + (header_lines(others) + crlf() + rest));
        assert forall|i: int| 0 <= i < n implies buf[pos + i] == line[i] by {
            assert(buf[pos + i] == tail[i]);
        }
        assert(buf[pos + n] == 13u8 && buf[pos + n + 1] == 10u8) by {
            assert(buf[pos + n] == tail[n]);
            assert(buf[pos + n + 1] == tail[n + 1]);
        }
        assert(line_end_at(buf, pos + n));
        assert(!line_end_at(buf, pos)) by {
            assert(buf[pos] == line[0]);
        }
        assert forall|i: int| pos <= i < pos + n implies buf[i] != 13 by {
            assert(buf[i] == line[i - pos]);
        }
        lemma_line_end(buf, pos, pos + n);
        assert(buf.subrange(pos, pos + n) =~= line);
        assert(buf.skip(pos + n + 2) =~= tail.skip(n + 2));
        assert(tail.skip(n + 2) =~= header_lines(others) + crlf() + rest);
        assert forall|i: int| 0 <= i < others.len() implies {
            &&& is_token((#[trigger] others[i]).0)
            &&& is_value(others[i].1)
            &&& trimmed(others[i].1) == others[i].1
        } by {
            assert(others[i] == headers[i + 1]);
        }
        lemma_header_lines(buf, pos + n + 2, others, rest, (limit - 1) as nat);
        assert(seq![h] + others =~= headers);
        assert(header_lines(headers).len() == n + 2 + header_lines(others).len());
    }
}

/// A head is parsed back as it was written.
///
/// Whatever follows it in the buffer, the bytes that [`encode`] writes for a
/// well-formed head within the limits are parsed by [`parse`] as that head,
/// with exactly its length; so writing what was parsed from such bytes gives
/// the same bytes again.
pub proof fn lemma_request_round_trip(req: RequestView, rest: Seq<u8>, limits: Limits)
    requires
        well_formed(req),
        req.headers.len() <= limits.max_headers,
        request_bytes(req).len() <= limits.max_head,
    ensures
        parse_spec(request_bytes(req) + rest, limits) == Ok::<
            Option<(RequestView, int)>,
            ParseError,
        >(Some((req, request_bytes(req).len() as int))),
{
    lemma_crlf_bytes();
    let line = request_line(req.method, req.target, req.version);
    let p = line.len() as int;
    let buf = request_bytes(req) + rest;
    lemma_request_line(req.method, req.target, req.version);
    assert(buf =~= line + crlf() + (header_lines(req.headers) + crlf() + rest));
    assert forall|i: int| 0 <= i < p implies buf[i] == line[i] by {}
    assert(buf[p] == 13u8 && buf[p + 1] == 10u8);
    assert(line_end_at(buf, p));
    lemma_line_end(buf, 0, p);
    assert(buf.take(p) =~= line);
    assert(buf.skip(p + 2) =~= header_lines(req.headers) + crlf() + rest);
    lemma_header_lines(buf, p + 2, req.headers, rest, limits.max_headers as nat);
    assert(request_bytes(req).len() == p + 2 + header_lines(req.headers).len() + 2);
}

} // verus!
