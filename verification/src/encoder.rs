//! Encoding of responses: the bytes of heads, of body chunks and of the end
//! of a body.
//!
//! A head is its status line, the line that frames the body, `Connection:
//! close` where keep-alive is denied, the response's own headers, a `Date`
//! header unless the response brought one, and an empty line. A body of
//! announced length goes out as it is, cut off at that length; any other
//! goes out in chunks.

use vstd::prelude::*;
use vstd::slice::slice_subrange;
use vstd::string::StringSliceAdditionalSpecFns;
use crate::message::{BodySize, Message};

verus! {

/// A header: its name and its value.
pub type Header = (Vec<u8>, Vec<u8>);

/// Headers as plain values: names and values, in order.
pub type Fields = Seq<(Seq<u8>, Seq<u8>)>;

/// The headers as plain values.
pub open spec fn headers_view(headers: Seq<Header>) -> Fields {
    Seq::new(headers.len(), |i: int| (headers[i].0@, headers[i].1@))
}

/// The decimal digits of `n`.
pub open spec fn digits(n: nat) -> Seq<u8>
    decreases n,
{
    if n < 10 {
        seq![(48 + n) as u8]
    } else {
        digits(n / 10).push((48 + n % 10) as u8)
    }
}

/// The hexadecimal digit of `d`, a number below sixteen, in upper case.
pub open spec fn hex_digit(d: nat) -> u8 {
    if d < 10 {
        (48 + d) as u8
    } else {
        (55 + d) as u8
    }
}

/// The hexadecimal digits of `n`, in upper case.
pub open spec fn hex(n: nat) -> Seq<u8>
    decreases n,
{
    if n < 16 {
        seq![hex_digit(n)]
    } else {
        hex(n / 16).push(hex_digit(n % 16))
    }
}

/// The end of a line.
pub open spec fn crlf() -> Seq<u8> {
    "\r\n".spec_bytes()
}

/// The interim head that lets a client send its body.
pub open spec fn continue_bytes() -> Seq<u8> {
    "HTTP/1.1 100 Continue\r\n\r\n".spec_bytes()
}

/// The first line of a response.
pub open spec fn status_line(status: u16, reason: Seq<u8>) -> Seq<u8> {
    "HTTP/1.1 ".spec_bytes() + digits(status as nat) + " ".spec_bytes() + reason + crlf()
}

/// The header that frames the body: its length where it announces one,
/// chunked transfer encoding where it does not.
pub open spec fn framing_line(body: BodySize) -> Seq<u8> {
    match body.announced_spec() {
        Some(n) => "Content-Length: ".spec_bytes() + digits(n as nat) + crlf(),
        None => "Transfer-Encoding: chunked\r\n".spec_bytes(),
    }
}

/// The header that tells the peer the connection will close; nothing where
/// keep-alive is granted.
pub open spec fn connection_line(keep_alive: bool) -> Seq<u8> {
    if keep_alive {
        Seq::empty()
    } else {
        "Connection: close\r\n".spec_bytes()
    }
}

/// One header as a line.
pub open spec fn header_line(name: Seq<u8>, value: Seq<u8>) -> Seq<u8> {
    name + ": ".spec_bytes() + value + crlf()
}

/// The headers, a line each, in their order.
pub open spec fn header_lines(headers: Fields) -> Seq<u8>
    decreases headers.len(),
{
    if headers.len() == 0 {
        Seq::empty()
    } else {
        header_line(headers[0].0, headers[0].1) + header_lines(headers.drop_first())
    }
}

/// The lower-case form of an ASCII letter; any other byte as it is.
pub open spec fn lower(b: u8) -> u8 {
    if 65 <= b <= 90 {
        (b + 32) as u8
    } else {
        b
    }
}

/// Whether two header names are the same but for the case of letters.
pub open spec fn same_name(a: Seq<u8>, b: Seq<u8>) -> bool {
    a.len() == b.len() && forall|i: int| 0 <= i < a.len() ==> lower(#[trigger] a[i]) == lower(b[i])
}

/// Whether one of the headers has the name `name`.
pub open spec fn has_header(headers: Fields, name: Seq<u8>) -> bool {
    exists|i: int| 0 <= i < headers.len() && same_name((#[trigger] headers[i]).0, name)
}

/// The `Date` header, unless the response brought its own.
pub open spec fn date_line(headers: Fields, date: Seq<u8>) -> Seq<u8> {
    if has_header(headers, "date".spec_bytes()) {
        Seq::empty()
    } else {
        header_line("Date".spec_bytes(), date)
    }
}

/// The bytes of a response head.
pub open spec fn head_bytes(
    status: u16,
    reason: Seq<u8>,
    body: BodySize,
    keep_alive: bool,
    headers: Fields,
    date: Seq<u8>,
) -> Seq<u8> {
    status_line(status, reason) + framing_line(body) + connection_line(keep_alive) + header_lines(
        headers,
    ) + date_line(headers, date) + crlf()
}

/// How a body is framed on the wire.
#[derive(Clone, Copy, Debug, PartialEq, Eq, Structural)]
pub enum Transfer {
    /// As it is, up to so many bytes.
    Length(u64),
    /// In chunks.
    Chunked,
}

/// The framing of a body of size `body`.
pub open spec fn transfer_of(body: BodySize) -> Transfer {
    match body.announced_spec() {
        Some(n) => Transfer::Length(n),
        None => Transfer::Chunked,
    }
}

/// How many bytes of a piece of `len` bytes fit the framing.
pub open spec fn fitting(transfer: Transfer, len: nat) -> nat {
    match transfer {
        Transfer::Length(left) => if len <= left {
            len
        } else {
            left as nat
        },
        Transfer::Chunked => len,
    }
}

/// The bytes of a piece of a body: under a length, the piece as it is, cut
/// off where the length is reached; in chunks, the piece's size in
/// hexadecimal, the piece, and a line end after each. An empty piece is no
/// chunk.
pub open spec fn chunk_bytes(transfer: Transfer, piece: Seq<u8>) -> Seq<u8> {
    match transfer {
        Transfer::Length(_) => piece.take(fitting(transfer, piece.len()) as int),
        Transfer::Chunked => if piece.len() == 0 {
            Seq::empty()
        } else {
            hex(piece.len()) + crlf() + piece + crlf()
        },
    }
}

/// The framing that is left after a piece of `len` bytes.
pub open spec fn after_chunk(transfer: Transfer, len: nat) -> Transfer {
    match transfer {
        Transfer::Length(left) => Transfer::Length((left - fitting(transfer, len)) as u64),
        Transfer::Chunked => Transfer::Chunked,
    }
}

/// The bytes that end a body: the last chunk where it went out in chunks.
pub open spec fn eof_bytes(transfer: Transfer) -> Seq<u8> {
    match transfer {
        Transfer::Length(_) => Seq::empty(),
        Transfer::Chunked => "0\r\n\r\n".spec_bytes(),
    }
}

/// The bytes of a message, for a body framed by `transfer`.
pub open spec fn message_bytes(
    transfer: Transfer,
    msg: Message,
    reason: Seq<u8>,
    headers: Fields,
    date: Seq<u8>,
) -> Seq<u8> {
    match msg {
        Message::Continue => continue_bytes(),
        Message::Head { status, body, keep_alive } => head_bytes(
            status,
            reason,
            body,
            keep_alive,
            headers,
            date,
        ),
        Message::Chunk(piece) => chunk_bytes(transfer, piece@),
        Message::Eof => eof_bytes(transfer),
    }
}

/// The framing that is left after a message.
pub open spec fn after_message(transfer: Transfer, msg: Message) -> Transfer {
    match msg {
        Message::Continue => transfer,
        Message::Head { status, body, keep_alive } => transfer_of(body),
        Message::Chunk(piece) => after_chunk(transfer, piece@.len()),
        Message::Eof => Transfer::Length(0),
    }
}

/// Whether `needle` stands in `hay` at position `at`.
pub open spec fn occurs_at(hay: Seq<u8>, needle: Seq<u8>, at: int) -> bool {
    0 <= at && at + needle.len() <= hay.len() && hay.subrange(at, at + needle.len()) == needle
}

/// Whether `needle` stands somewhere in `hay`.
pub open spec fn occurs_in(hay: Seq<u8>, needle: Seq<u8>) -> bool {
    exists|at: int| occurs_at(hay, needle, at)
}

/// Encoder of the responses of one connection.
#[derive(Debug)]
pub struct Encoder {
    transfer: Transfer,
}

fn push_digits(dst: &mut Vec<u8>, n: u64)
    ensures
        final(dst)@ == old(dst)@ + digits(n as nat),
    decreases n,
{
    if n >= 10 {
        push_digits(dst, n / 10);
    }
    let d: u8 = (n % 10) as u8;
    dst.push(48 + d);
    assert(dst@ == old(dst)@ + digits(n as nat));
}

fn push_hex(dst: &mut Vec<u8>, n: usize)
    ensures
        final(dst)@ == old(dst)@ + hex(n as nat),
    decreases n,
{
    if n >= 16 {
        push_hex(dst, n / 16);
    }
    let d: u8 = (n % 16) as u8;
    if d < 10 {
        dst.push(48 + d);
    } else {
        dst.push(55 + d);
    }
    assert(dst@ == old(dst)@ + hex(n as nat));
}

fn push_str(dst: &mut Vec<u8>, s: &str)
    ensures
        final(dst)@ == old(dst)@ + s.spec_bytes(),
{
    dst.extend_from_slice(s.as_bytes());
}

fn push_bytes(dst: &mut Vec<u8>, bytes: &[u8])
    ensures
        final(dst)@ == old(dst)@ + bytes@,
{
    dst.extend_from_slice(bytes);
}

fn to_lower(b: u8) -> (r: u8)
    ensures
        r == lower(b),
{
    if 65 <= b && b <= 90 {
        b + 32
    } else {
        b
    }
}

/// Whether two header names are the same but for the case of letters.
pub fn names_match(a: &[u8], b: &[u8]) -> (r: bool)
    ensures
        r == same_name(a@, b@),
{
    if a.len() != b.len() {
        return false;
    }
    let mut i: usize = 0;
    while i < a.len()
        invariant
            a@.len() == b@.len(),
            0 <= i <= a@.len(),
            forall|j: int| 0 <= j < i ==> lower(#[trigger] a@[j]) == lower(b@[j]),
        decreases a.len() - i,
    {
        if to_lower(a[i]) != to_lower(b[i]) {
            return false;
        }
        i = i + 1;
    }
    true
}

/// Whether one of the headers has the name `name`, whatever the case of
/// its letters.
pub fn contains_header(headers: &Vec<Header>, name: &[u8]) -> (r: bool)
    ensures
        r == has_header(headers_view(headers@), name@),
{
    let ghost fields = headers_view(headers@);
    let mut i: usize = 0;
    while i < headers.len()
        invariant
            fields == headers_view(headers@),
            0 <= i <= headers@.len(),
            forall|j: int| 0 <= j < i ==> !same_name((#[trigger] fields[j]).0, name@),
        decreases headers.len() - i,
    {
        if names_match(headers[i].0.as_slice(), name) {
            assert(fields[i as int].0 == headers@[i as int].0@);
            return true;
        }
        assert(fields[i as int].0 == headers@[i as int].0@);
        i = i + 1;
    }
    false
}

/// The lines of headers with one more at their end.
pub proof fn lemma_header_lines_push(headers: Fields, h: (Seq<u8>, Seq<u8>))
    ensures
        header_lines(headers.push(h)) == header_lines(headers) + header_line(h.0, h.1),
    decreases headers.len(),
{
    let more = headers.push(h);
    if headers.len() == 0 {
        assert(more.drop_first() =~= Seq::empty());
        assert(header_lines(more.drop_first()) =~= Seq::<u8>::empty());
        assert(header_lines(more) =~= header_line(h.0, h.1));
    } else {
        assert(more.drop_first() =~= headers.drop_first().push(h));
        lemma_header_lines_push(headers.drop_first(), h);
        assert(more[0] == headers[0]);
        assert(header_lines(more) =~= header_lines(headers) + header_line(h.0, h.1));
    }
}

fn push_headers(dst: &mut Vec<u8>, headers: &Vec<Header>)
    ensures
        final(dst)@ == old(dst)@ + header_lines(headers_view(headers@)),
{
    let ghost fields = headers_view(headers@);
    let mut i: usize = 0;
    assert(fields.take(0) =~= Seq::empty());
    while i < headers.len()
        invariant
            fields == headers_view(headers@),
            0 <= i <= headers@.len(),
            dst@ == old(dst)@ + header_lines(fields.take(i as int)),
        decreases headers.len() - i,
    {
        let ghost before = dst@;
        push_bytes(dst, headers[i].0.as_slice());
        push_str(dst, ": ");
        push_bytes(dst, headers[i].1.as_slice());
        push_str(dst, "\r\n");
        proof {
            let h = fields[i as int];
            assert(fields.take(i + 1) =~= fields.take(i as int).push(h));
            lemma_header_lines_push(fields.take(i as int), h);
            assert(dst@ =~= before + header_line(h.0, h.1));
        }
        i = i + 1;
    }
    assert(fields.take(i as int) =~= fields);
}

fn push_status_line(dst: &mut Vec<u8>, status: u16, reason: &[u8])
    ensures
        final(dst)@ == old(dst)@ + status_line(status, reason@),
{
    push_str(dst, "HTTP/1.1 ");
    push_digits(dst, status as u64);
    push_str(dst, " ");
    push_bytes(dst, reason);
    push_str(dst, "\r\n");
    assert(dst@ =~= old(dst)@ + status_line(status, reason@));
}

fn push_framing_line(dst: &mut Vec<u8>, body: BodySize) -> (transfer: Transfer)
    ensures
        final(dst)@ == old(dst)@ + framing_line(body),
        transfer == transfer_of(body),
{
    match body.announced() {
        Some(n) => {
            push_str(dst, "Content-Length: ");
            push_digits(dst, n);
            push_str(dst, "\r\n");
            assert(dst@ =~= old(dst)@ + framing_line(body));
            Transfer::Length(n)
        },
        None => {
            push_str(dst, "Transfer-Encoding: chunked\r\n");
            Transfer::Chunked
        },
    }
}

fn push_connection_line(dst: &mut Vec<u8>, keep_alive: bool)
    ensures
        final(dst)@ == old(dst)@ + connection_line(keep_alive),
{
    if !keep_alive {
        push_str(dst, "Connection: close\r\n");
    } else {
        assert(dst@ =~= old(dst)@ + connection_line(keep_alive));
    }
}

fn push_date_line(dst: &mut Vec<u8>, headers: &Vec<Header>, date: &[u8])
    ensures
        final(dst)@ == old(dst)@ + date_line(headers_view(headers@), date@),
{
    if !contains_header(headers, "date".as_bytes()) {
        push_str(dst, "Date");
        push_str(dst, ": ");
        push_bytes(dst, date);
        push_str(dst, "\r\n");
        assert(dst@ =~= old(dst)@ + header_line("Date".spec_bytes(), date@));
    } else {
        assert(dst@ =~= old(dst)@ + date_line(headers_view(headers@), date@));
    }
}

impl Encoder {
    /// The framing of the body that is being sent.
    pub closed spec fn transfer(&self) -> Transfer {
        self.transfer
    }

    /// An encoder that has no body under way.
    pub fn new() -> (e: Encoder)
        ensures
            e.transfer() == Transfer::Length(0),
    {
        Encoder { transfer: Transfer::Length(0) }
    }

    /// Writes the interim head that lets a client send its body.
    pub fn encode_continue(&self, dst: &mut Vec<u8>)
        ensures
            final(dst)@ == old(dst)@ + continue_bytes(),
    {
        push_str(dst, "HTTP/1.1 100 Continue\r\n\r\n");
    }

    /// Writes a response head, and takes the framing of the body from it.
    pub fn encode_head(
        &mut self,
        status: u16,
        reason: &[u8],
        body: BodySize,
        keep_alive: bool,
        headers: &Vec<Header>,
        date: &[u8],
        dst: &mut Vec<u8>,
    )
        ensures
            final(dst)@ == old(dst)@ + head_bytes(
                status,
                reason@,
                body,
                keep_alive,
                headers_view(headers@),
                date@,
            ),
            final(self).transfer() == transfer_of(body),
    {
        push_status_line(dst, status, reason);
        self.transfer = push_framing_line(dst, body);
        push_connection_line(dst, keep_alive);
        push_headers(dst, headers);
        push_date_line(dst, headers, date);
        push_str(dst, "\r\n");
        assert(dst@ =~= old(dst)@ + head_bytes(
            status,
            reason@,
            body,
            keep_alive,
            headers_view(headers@),
            date@,
        ));
    }

    /// Writes `msg`. A head goes out with `reason`, `headers` and `date`;
    /// for any other message these are not looked at.
    pub fn encode(
        &mut self,
        msg: &Message,
        reason: &[u8],
        headers: &Vec<Header>,
        date: &[u8],
        dst: &mut Vec<u8>,
    )
        ensures
            final(dst)@ == old(dst)@ + message_bytes(
                old(self).transfer(),
                *msg,
                reason@,
                headers_view(headers@),
                date@,
            ),
            final(self).transfer() == after_message(old(self).transfer(), *msg),
    {
        match msg {
            Message::Continue => {
                self.encode_continue(dst);
            },
            Message::Head { status, body, keep_alive } => {
                self.encode_head(*status, reason, *body, *keep_alive, headers, date, dst);
            },
            Message::Chunk(piece) => {
                self.encode_chunk(piece.as_slice(), dst);
            },
            Message::Eof => {
                self.encode_eof(dst);
            },
        }
    }

    /// Writes a piece of the body.
    pub fn encode_chunk(&mut self, piece: &[u8], dst: &mut Vec<u8>)
        ensures
            final(dst)@ == old(dst)@ + chunk_bytes(old(self).transfer(), piece@),
            final(self).transfer() == after_chunk(old(self).transfer(), piece@.len()),
    {
        match self.transfer {
            Transfer::Length(left) => {
                let len: usize = piece.len();
                if len as u64 <= left {
                    push_bytes(dst, piece);
                    self.transfer = Transfer::Length(left - len as u64);
                    assert(piece@.take(len as int) =~= piece@);
                } else {
                    push_bytes(dst, slice_subrange(piece, 0, left as usize));
                    self.transfer = Transfer::Length(0);
                }
            },
            Transfer::Chunked => {
                if piece.len() > 0 {
                    push_hex(dst, piece.len());
                    push_str(dst, "\r\n");
                    push_bytes(dst, piece);
                    push_str(dst, "\r\n");
                    assert(dst@ =~= old(dst)@ + chunk_bytes(Transfer::Chunked, piece@));
                } else {
                    assert(dst@ =~= old(dst)@ + chunk_bytes(Transfer::Chunked, piece@));
                }
            },
        }
    }

    /// Writes the end of the body.
    pub fn encode_eof(&mut self, dst: &mut Vec<u8>)
        ensures
            final(dst)@ == old(dst)@ + eof_bytes(old(self).transfer()),
            final(self).transfer() == Transfer::Length(0),
    {
        match self.transfer {
            Transfer::Length(_) => {
                assert(dst@ =~= old(dst)@ + eof_bytes(self.transfer));
            },
            Transfer::Chunked => {
                push_str(dst, "0\r\n\r\n");
            },
        }
        self.transfer = Transfer::Length(0);
    }
}

/// The end of a line is a carriage return and a line feed.
pub proof fn lemma_crlf_bytes()
    ensures
        crlf() == seq![13u8, 10u8],
{
    reveal_strlit("\r\n");
    let c = "\r\n"@;
    assert(c[0] == '\r' && c[1] == '\n');
    assert(vstd::utf8::is_ascii_chars(c));
    vstd::utf8::is_ascii_chars_encode_utf8(c);
    assert("\r\n".spec_bytes() =~= seq![13u8, 10u8]);
}

/// A header's name and value are parted by a colon and a space.
pub proof fn lemma_separator_bytes()
    ensures
        ": ".spec_bytes() == seq![58u8, 32u8],
{
    reveal_strlit(": ");
    let c = ": "@;
    assert(c[0] == ':' && c[1] == ' ');
    assert(vstd::utf8::is_ascii_chars(c));
    vstd::utf8::is_ascii_chars_encode_utf8(c);
    assert(": ".spec_bytes() =~= seq![58u8, 32u8]);
}

proof fn lemma_occurs_between(before: Seq<u8>, needle: Seq<u8>, after: Seq<u8>)
    ensures
        occurs_in(before + needle + after, needle),
{
    let hay = before + needle + after;
    assert(hay.subrange(before.len() as int, (before.len() + needle.len()) as int) =~= needle);
    assert(occurs_at(hay, needle, before.len() as int));
}

/// Every head frames its body, and a head that denies keep-alive says so.
///
/// Whatever the response, its head holds the line that frames the body,
/// which is `Content-Length` with the announced length or `Transfer-Encoding:
/// chunked`; it holds `Connection: close` when keep-alive is denied; it
/// holds the `Date` header with the given date unless the response brought
/// a date of its own; and it ends with an empty line.
pub proof fn lemma_head_lines(
    status: u16,
    reason: Seq<u8>,
    body: BodySize,
    keep_alive: bool,
    headers: Fields,
    date: Seq<u8>,
)
    ensures
        ({
            let head = head_bytes(status, reason, body, keep_alive, headers, date);
            &&& occurs_at(head, status_line(status, reason), 0)
            &&& occurs_in(head, framing_line(body))
            &&& (!keep_alive ==> occurs_in(head, "Connection: close\r\n".spec_bytes()))
            &&& (!has_header(headers, "date".spec_bytes()) ==> occurs_in(
                head,
                header_line("Date".spec_bytes(), date),
            ))
            &&& occurs_at(head, crlf(), head.len() - crlf().len())
        }),
{
    let head = head_bytes(status, reason, body, keep_alive, headers, date);
    let a = status_line(status, reason);
    let b = framing_line(body);
    let c = connection_line(keep_alive);
    let d = header_lines(headers);
    let e = date_line(headers, date);
    let f = crlf();
    assert(head.subrange(0, a.len() as int) =~= a);
    assert(head =~= a + b + (c + d + e + f));
    lemma_occurs_between(a, b, c + d + e + f);
    assert(head =~= (a + b) + c + (d + e + f));
    lemma_occurs_between(a + b, c, d + e + f);
    assert(head =~= (a + b + c + d) + e + f);
    lemma_occurs_between(a + b + c + d, e, f);
    assert(head.subrange(head.len() - f.len(), head.len() as int) =~= f);
}

} // verus!
