//! Decoding of a request body that is sent in chunks.
//!
//! A chunk is a line with its size in hexadecimal, that many bytes, and a
//! line end; a chunk of size zero and a line end close the body. Chunk
//! extensions and trailers are not taken.

use vstd::prelude::*;
use vstd::slice::slice_subrange;
use vstd::string::StringSliceAdditionalSpecFns;
use crate::encoder::{chunk_bytes, crlf, eof_bytes, hex, hex_digit, lemma_crlf_bytes, Transfer};
use crate::error::PayloadError;
use crate::payload::PayloadItem;

verus! {

/// Most hexadecimal digits a chunk size may have.
pub const MAX_SIZE_DIGITS: usize = 16;

/// Whether `b` is a hexadecimal digit, in either case.
pub open spec fn is_hex_digit(b: u8) -> bool {
    48 <= b <= 57 || 65 <= b <= 70 || 97 <= b <= 102
}

/// The number that the hexadecimal digit `b` stands for.
pub open spec fn hex_digit_value(b: u8) -> nat {
    if 48 <= b <= 57 {
        (b - 48) as nat
    } else if 65 <= b <= 70 {
        (b - 55) as nat
    } else {
        (b - 87) as nat
    }
}

/// The number that the hexadecimal digits `s` write.
pub open spec fn hex_value(s: Seq<u8>) -> nat
    decreases s.len(),
{
    if s.len() == 0 {
        0
    } else {
        16 * hex_value(s.drop_last()) + hex_digit_value(s.last())
    }
}

/// Whether `s` is a chunk size: one to sixteen hexadecimal digits.
pub open spec fn is_size(s: Seq<u8>) -> bool {
    0 < s.len() <= MAX_SIZE_DIGITS && forall|i: int|
        0 <= i < s.len() ==> is_hex_digit(#[trigger] s[i])
}

/// Whether a line end stands in `buf` at position `i`.
pub open spec fn line_end_at(buf: Seq<u8>, i: int) -> bool {
    0 <= i && i + 1 < buf.len() && buf[i] == 13 && buf[i + 1] == 10
}

/// The position of the first line end in `buf` at or after `from`.
pub open spec fn line_end(buf: Seq<u8>, from: int) -> Option<int>
    decreases buf.len() - from,
{
    if from < 0 || from + 1 >= buf.len() {
        None
    } else if line_end_at(buf, from) {
        Some(from)
    } else {
        line_end(buf, from + 1)
    }
}

proof fn lemma_hex_value_bound(s: Seq<u8>)
    requires
        s.len() <= MAX_SIZE_DIGITS,
        forall|i: int| 0 <= i < s.len() ==> is_hex_digit(#[trigger] s[i]),
    ensures
        hex_value(s) < pow16(s.len()),
    decreases s.len(),
{
    if s.len() > 0 {
        let front = s.drop_last();
        assert forall|i: int| 0 <= i < front.len() implies is_hex_digit(#[trigger] front[i]) by {
            assert(front[i] == s[i]);
        }
        lemma_hex_value_bound(front);
        assert(pow16(s.len()) == 16 * pow16(front.len()));
    }
}

/// Sixteen to the power of `n`.
pub open spec fn pow16(n: nat) -> nat
    decreases n,
{
    if n == 0 {
        1
    } else {
        16 * pow16((n - 1) as nat)
    }
}

proof fn lemma_pow16_16()
    ensures
        pow16(16) == 0x1_0000_0000_0000_0000nat,
{
    reveal_with_fuel(pow16, 17);
}

fn hex_digit_of(b: u8) -> (r: Option<u8>)
    ensures
        is_hex_digit(b) ==> r == Some(hex_digit_value(b) as u8) && hex_digit_value(b) < 16,
        !is_hex_digit(b) ==> r is None,
{
    if 48 <= b && b <= 57 {
        Some(b - 48)
    } else if 65 <= b && b <= 70 {
        Some(b - 55)
    } else if 97 <= b && b <= 102 {
        Some(b - 87)
    } else {
        None
    }
}

/// The chunk size that `s` writes, if it is one.
pub fn parse_size(s: &[u8]) -> (r: Option<u64>)
    ensures
        is_size(s@) ==> r == Some(hex_value(s@) as u64) && hex_value(s@) <= u64::MAX,
        !is_size(s@) ==> r is None,
{
    if s.len() == 0 || s.len() > MAX_SIZE_DIGITS {
        return None;
    }
    let mut acc: u64 = 0;
    let mut i: usize = 0;
    assert(s@.take(0) =~= Seq::<u8>::empty());
    while i < s.len()
        invariant
            0 <= i <= s@.len(),
            0 < s@.len() <= MAX_SIZE_DIGITS,
            forall|j: int| 0 <= j < i ==> is_hex_digit(#[trigger] s@[j]),
            acc == hex_value(s@.take(i as int)),
        decreases s.len() - i,
    {
        let d: u8 = match hex_digit_of(s[i]) {
            Some(d) => d,
            None => {
                return None;
            },
        };
        proof {
            let front = s@.take(i as int);
            let next = s@.take(i + 1);
            assert(next.drop_last() =~= front);
            assert(next.last() == s@[i as int]);
            assert forall|j: int| 0 <= j < front.len() implies is_hex_digit(
                #[trigger] front[j],
            ) by {
                assert(front[j] == s@[j]);
            }
            lemma_hex_value_bound(front);
            lemma_pow16_mono(front.len(), 15);
            lemma_pow16_16();
            assert(pow16(16) == 16 * pow16(15));
        }
        acc = acc * 16 + d as u64;
        i = i + 1;
    }
    assert(s@.take(i as int) =~= s@);
    Some(acc)
}

proof fn lemma_pow16_mono(a: nat, b: nat)
    requires
        a <= b,
    ensures
        pow16(a) <= pow16(b),
    decreases b,
{
    if a < b {
        lemma_pow16_mono(a, (b - 1) as nat);
    }
}

/// The position of the first line end in `buf` at or after `from`, if
/// there is one.
pub fn find_line_end(buf: &[u8], from: usize) -> (r: Option<usize>)
    ensures
        match r {
            Some(i) => line_end(buf@, from as int) == Some(i as int) && from <= i && i + 1
                < buf@.len(),
            None => line_end(buf@, from as int) is None,
        },
{
    if buf.len() < 2 || from > buf.len() - 2 {
        return None;
    }
    let last: usize = buf.len() - 1;
    let mut i: usize = from;
    while i < last
        invariant
            from <= i <= last,
            last == buf@.len() - 1,
            line_end(buf@, from as int) == line_end(buf@, i as int),
        decreases last - i,
    {
        if buf[i] == 13 && buf[i + 1] == 10 {
            return Some(i);
        }
        i = i + 1;
    }
    None
}

/// Where a decoder stands in a chunked body.
#[derive(Clone, Copy, Debug, PartialEq, Eq, Structural)]
pub enum ChunkState {
    /// Before the size line of a chunk.
    Size,
    /// In a chunk, with so many of its bytes still to come.
    Data(u64),
    /// After the bytes of a chunk, before its line end.
    DataEnd,
    /// After the size line of the last chunk, before the closing line end.
    Last,
    /// After the body.
    Done,
}

/// What one step of decoding makes of the front of the buffer.
pub enum Step {
    /// The buffer holds too little to go on.
    NeedMore,
    /// The framing is violated.
    Fail,
    /// So many bytes of framing are done with.
    Next { state: ChunkState, consumed: int },
    /// The next so many bytes belong to the body.
    Chunk { state: ChunkState, len: int },
    /// The body is complete, once so many bytes of framing are done with.
    Eof { consumed: int },
}

/// What a call of the decoder makes of the buffer.
pub enum Decode {
    /// Nothing yet: so many bytes of framing are done with, and more input
    /// is needed in `state`.
    NeedMore { state: ChunkState, consumed: int },
    /// The framing is violated, after `consumed` bytes of framing that
    /// were in order; the decoder stopped in `state`.
    Fail { state: ChunkState, consumed: int },
    /// A piece of the body: after `skipped` bytes of framing, `len` bytes.
    Chunk { state: ChunkState, skipped: int, len: int },
    /// The end of the body, after `consumed` bytes of framing.
    Eof { consumed: int },
}

/// The step that a line end at the front of `buf` allows: `then` if it is
/// there, a failure if something else is, and a wait while it may yet come.
pub open spec fn expect_line_end(buf: Seq<u8>, then: Step) -> Step {
    if buf.len() >= 2 {
        if line_end_at(buf, 0) {
            then
        } else {
            Step::Fail
        }
    } else if buf.len() == 1 && buf[0] != 13 {
        Step::Fail
    } else {
        Step::NeedMore
    }
}

/// One step of decoding in `state` on the buffer `buf`.
pub open spec fn step(state: ChunkState, buf: Seq<u8>) -> Step {
    match state {
        ChunkState::Size => match line_end(buf, 0) {
            Some(p) => if is_size(buf.take(p)) {
                if hex_value(buf.take(p)) == 0 {
                    Step::Next { state: ChunkState::Last, consumed: p + 2 }
                } else {
                    Step::Next {
                        state: ChunkState::Data(hex_value(buf.take(p)) as u64),
                        consumed: p + 2,
                    }
                }
            } else {
                Step::Fail
            },
            None => if buf.len() > MAX_SIZE_DIGITS + 1 {
                Step::Fail
            } else {
                Step::NeedMore
            },
        },
        ChunkState::Data(left) => if buf.len() == 0 {
            Step::NeedMore
        } else if buf.len() < left {
            Step::Chunk {
                state: ChunkState::Data((left - buf.len()) as u64),
                len: buf.len() as int,
            }
        } else {
            Step::Chunk { state: ChunkState::DataEnd, len: left as int }
        },
        ChunkState::DataEnd => expect_line_end(
            buf,
            Step::Next { state: ChunkState::Size, consumed: 2 },
        ),
        ChunkState::Last => expect_line_end(buf, Step::Eof { consumed: 2 }),
        ChunkState::Done => Step::Eof { consumed: 0 },
    }
}

/// `d`, seen from `c` bytes further to the front.
pub open spec fn shift(d: Decode, c: int) -> Decode {
    match d {
        Decode::NeedMore { state, consumed } => Decode::NeedMore { state, consumed: consumed + c },
        Decode::Fail { state, consumed } => Decode::Fail { state, consumed: consumed + c },
        Decode::Chunk { state, skipped, len } => Decode::Chunk { state, skipped: skipped + c, len },
        Decode::Eof { consumed } => Decode::Eof { consumed: consumed + c },
    }
}

/// What a call of the decoder in `state` makes of the buffer `buf`: steps
/// are taken until one yields an item, fails, or needs more input.
pub open spec fn decode_spec(state: ChunkState, buf: Seq<u8>) -> Decode
    decreases buf.len(),
{
    match step(state, buf) {
        Step::NeedMore => Decode::NeedMore { state, consumed: 0 },
        Step::Fail => Decode::Fail { state, consumed: 0 },
        Step::Chunk { state, len } => Decode::Chunk { state, skipped: 0, len },
        Step::Eof { consumed } => Decode::Eof { consumed },
        Step::Next { state: next, consumed } => if 0 < consumed <= buf.len() {
            shift(decode_spec(next, buf.skip(consumed)), consumed)
        } else {
            Decode::Fail { state, consumed: 0 }
        },
    }
}

/// Decoder of a body that is sent in chunks.
#[derive(Debug)]
pub struct ChunkedDecoder {
    state: ChunkState,
}

/// Takes `n` bytes off the front of `buf`.
fn advance(buf: &mut Vec<u8>, n: usize) -> (front: Vec<u8>)
    requires
        n <= old(buf)@.len(),
    ensures
        front@ == old(buf)@.take(n as int),
        final(buf)@ == old(buf)@.skip(n as int),
{
    let mut rest = buf.split_off(n);
    std::mem::swap(buf, &mut rest);
    rest
}

impl ChunkedDecoder {
    /// Where the decoder stands.
    pub closed spec fn state(&self) -> ChunkState {
        self.state
    }

    /// A decoder at the start of a body.
    pub fn new() -> (d: ChunkedDecoder)
        ensures
            d.state() == ChunkState::Size,
    {
        ChunkedDecoder { state: ChunkState::Size }
    }

    /// Whether the body is complete.
    pub fn is_done(&self) -> (r: bool)
        ensures
            r == (self.state() == ChunkState::Done),
    {
        self.state == ChunkState::Done
    }

    /// Takes the next item of the body off the front of `buf`.
    ///
    /// Framing at the front of the buffer is taken off it and the decoder
    /// moves on, until there is a piece of the body, which is handed out and
    /// taken off too, or the end of the body, or too little input. Where
    /// the framing is violated the call fails, and decoder and buffer stay
    /// as they were when the violation was met.
    pub fn decode(&mut self, buf: &mut Vec<u8>) -> (r: Result<Option<PayloadItem>, PayloadError>)
        ensures
            match decode_spec(old(self).state(), old(buf)@) {
                Decode::NeedMore { state, consumed } => {
                    &&& r == Ok::<Option<PayloadItem>, PayloadError>(None)
                    &&& final(self).state() == state
                    &&& 0 <= consumed <= old(buf)@.len()
                    &&& final(buf)@ == old(buf)@.skip(consumed)
                },
                Decode::Fail { state, consumed } => {
                    &&& r == Err::<Option<PayloadItem>, PayloadError>(
                        PayloadError::EncodingCorrupted,
                    )
                    &&& final(self).state() == state
                    &&& 0 <= consumed <= old(buf)@.len()
                    &&& final(buf)@ == old(buf)@.skip(consumed)
                },
                Decode::Chunk { state, skipped, len } => {
                    &&& r matches Ok(Some(PayloadItem::Chunk(chunk)))
                    &&& 0 <= skipped && 0 <= len && skipped + len <= old(buf)@.len()
                    &&& chunk@ == old(buf)@.subrange(skipped, skipped + len)
                    &&& final(buf)@ == old(buf)@.skip(skipped + len)
                    &&& final(self).state() == state
                },
                Decode::Eof { consumed } => {
                    &&& r matches Ok(Some(PayloadItem::Eof))
                    &&& 0 <= consumed <= old(buf)@.len()
                    &&& final(buf)@ == old(buf)@.skip(consumed)
                    &&& final(self).state() == ChunkState::Done
                },
            },
    {
        let ghost start = buf@;
        let ghost first = self.state;
        let ghost mut done: int = 0;
        assert(start.skip(0) =~= start);
        loop
            invariant
                start == old(buf)@,
                first == old(self).state(),
                0 <= done <= start.len(),
                buf@ == start.skip(done),
                decode_spec(first, start) == shift(decode_spec(self.state, buf@), done),
            decreases buf@.len(),
        {
            let ghost here = buf@;
            match self.state {
                ChunkState::Size => {
                    match find_line_end(buf.as_slice(), 0) {
                        Some(p) => {
                            let n = match parse_size(slice_subrange(buf.as_slice(), 0, p)) {
                                Some(n) => n,
                                None => {
                                    return Err(PayloadError::EncodingCorrupted);
                                },
                            };
                            let _ = advance(buf, p + 2);
                            if n == 0 {
                                self.state = ChunkState::Last;
                            } else {
                                self.state = ChunkState::Data(n);
                            }
                            proof {
                                assert(start.skip(done).skip(p + 2) =~= start.skip(
                                    done + p + 2,
                                ));
                                done = done + p + 2;
                            }
                        },
                        None => {
                            if buf.len() > MAX_SIZE_DIGITS + 1 {
                                return Err(PayloadError::EncodingCorrupted);
                            }
                            return Ok(None);
                        },
                    }
                },
                ChunkState::Data(left) => {
                    let len: usize = buf.len();
                    if len == 0 {
                        return Ok(None);
                    }
                    let k: usize = if (len as u64) < left {
                        self.state = ChunkState::Data(left - len as u64);
                        len
                    } else {
                        self.state = ChunkState::DataEnd;
                        left as usize
                    };
                    let chunk = advance(buf, k);
                    proof {
                        assert(here.take(k as int) =~= start.subrange(done, done + k));
                        assert(here.skip(k as int) =~= start.skip(done + k));
                    }
                    return Ok(Some(PayloadItem::Chunk(chunk)));
                },
                ChunkState::DataEnd => {
                    if buf.len() >= 2 {
                        if buf[0] == 13 && buf[1] == 10 {
                            let _ = advance(buf, 2);
                            self.state = ChunkState::Size;
                            proof {
                                assert(start.skip(done).skip(2) =~= start.skip(done + 2));
                                done = done + 2;
                            }
                        } else {
                            return Err(PayloadError::EncodingCorrupted);
                        }
                    } else if buf.len() == 1 && buf[0] != 13 {
                        return Err(PayloadError::EncodingCorrupted);
                    } else {
                        return Ok(None);
                    }
                },
                ChunkState::Last => {
                    if buf.len() >= 2 {
                        if buf[0] == 13 && buf[1] == 10 {
                            let _ = advance(buf, 2);
                            self.state = ChunkState::Done;
                            proof {
                                assert(here.skip(2) =~= start.skip(done + 2));
                            }
                            return Ok(Some(PayloadItem::Eof));
                        } else {
                            return Err(PayloadError::EncodingCorrupted);
                        }
                    } else if buf.len() == 1 && buf[0] != 13 {
                        return Err(PayloadError::EncodingCorrupted);
                    } else {
                        return Ok(None);
                    }
                },
                ChunkState::Done => {
                    return Ok(Some(PayloadItem::Eof));
                },
            }
        }
    }
}

/// The bytes of a body sent in chunks, a chunk for each of `pieces`.
pub open spec fn chunked_body(pieces: Seq<Seq<u8>>) -> Seq<u8>
    decreases pieces.len(),
{
    if pieces.len() == 0 {
        eof_bytes(Transfer::Chunked)
    } else {
        chunk_bytes(Transfer::Chunked, pieces[0]) + chunked_body(pieces.drop_first())
    }
}

/// The body that repeated calls of a decoder in `state` read from `buf`,
/// and how many bytes they take off it; nothing unless the calls reach the
/// end of the body.
pub open spec fn body_of(state: ChunkState, buf: Seq<u8>) -> Option<(Seq<u8>, int)>
    decreases buf.len(),
{
    match decode_spec(state, buf) {
        Decode::Chunk { state: next, skipped, len } => if 0 <= skipped && 0 <= len && 0 < skipped
            + len <= buf.len() {
            match body_of(next, buf.skip(skipped + len)) {
                Some((body, taken)) => Some(
                    (buf.subrange(skipped, skipped + len) + body, taken + skipped + len),
                ),
                None => None,
            }
        } else {
            None
        },
        Decode::Eof { consumed } => Some((Seq::empty(), consumed)),
        Decode::NeedMore { .. } => None,
        Decode::Fail { .. } => None,
    }
}

proof fn lemma_last_chunk_bytes()
    ensures
        eof_bytes(Transfer::Chunked) == seq![48u8, 13u8, 10u8, 13u8, 10u8],
{
    reveal_strlit("0\r\n\r\n");
    let c = "0\r\n\r\n"@;
    assert(c[0] == '0' && c[1] == '\r' && c[2] == '\n' && c[3] == '\r' && c[4] == '\n');
    assert(vstd::utf8::is_ascii_chars(c));
    vstd::utf8::is_ascii_chars_encode_utf8(c);
    assert("0\r\n\r\n".spec_bytes() =~= seq![48u8, 13u8, 10u8, 13u8, 10u8]);
}

proof fn lemma_hex_digits(n: nat, k: nat)
    requires
        k >= 1,
        n < pow16(k),
    ensures
        0 < hex(n).len() <= k,
        forall|i: int| 0 <= i < hex(n).len() ==> is_hex_digit(#[trigger] hex(n)[i]),
        hex_value(hex(n)) == n,
    decreases n,
{
    let s = hex(n);
    if n < 16 {
        assert(s.len() == 1);
        assert(s.drop_last() =~= Seq::<u8>::empty());
        assert(hex_value(s.drop_last()) == 0);
        assert(s.last() == hex_digit(n));
    } else {
        assert(pow16(1) == 16) by {
            reveal_with_fuel(pow16, 2);
        }
        assert(k >= 2) by {
            if k == 1 {
                assert(n < 16);
            }
        }
        assert(pow16(k) == 16 * pow16((k - 1) as nat));
        lemma_hex_digits(n / 16, (k - 1) as nat);
        let front = hex(n / 16);
        assert(s.drop_last() =~= front);
        assert(s.last() == hex_digit(n % 16));
        assert forall|i: int| 0 <= i < s.len() implies is_hex_digit(#[trigger] s[i]) by {
            if i < front.len() {
                assert(s[i] == front[i]);
            }
        }
    }
}

proof fn lemma_size_line(size: Seq<u8>, rest: Seq<u8>, from: int)
    requires
        0 <= from <= size.len(),
        forall|i: int| 0 <= i < size.len() ==> is_hex_digit(#[trigger] size[i]),
    ensures
        line_end(size + crlf() + rest, from) == Some(size.len() as int),
    decreases size.len() - from,
{
    lemma_crlf_bytes();
    let buf = size + crlf() + rest;
    assert(buf[size.len() as int] == 13u8);
    assert(buf[size.len() as int + 1] == 10u8);
    if from < size.len() {
        assert(buf[from] == size[from]);
        assert(is_hex_digit(size[from]));
        lemma_size_line(size, rest, from + 1);
    }
}

proof fn lemma_decode_chunk(piece: Seq<u8>, rest: Seq<u8>)
    requires
        0 < piece.len() <= u64::MAX,
    ensures
        decode_spec(ChunkState::Size, chunk_bytes(Transfer::Chunked, piece) + rest) == (
        Decode::Chunk {
            state: ChunkState::DataEnd,
            skipped: hex(piece.len()).len() as int + 2,
            len: piece.len() as int,
        }),
        (chunk_bytes(Transfer::Chunked, piece) + rest).subrange(
            hex(piece.len()).len() as int + 2,
            hex(piece.len()).len() as int + 2 + piece.len(),
        ) == piece,
        (chunk_bytes(Transfer::Chunked, piece) + rest).skip(
            hex(piece.len()).len() as int + 2 + piece.len(),
        ) == crlf() + rest,
{
    lemma_crlf_bytes();
    lemma_pow16_16();
    let size = hex(piece.len());
    lemma_hex_digits(piece.len(), 16);
    let tail = piece + crlf() + rest;
    let buf = chunk_bytes(Transfer::Chunked, piece) + rest;
    assert(buf =~= size + crlf() + tail);
    lemma_size_line(size, tail, 0);
    let p = size.len() as int;
    assert(buf.take(p) =~= size);
    assert(is_size(size));
    assert(buf.skip(p + 2) =~= tail);
    assert(step(ChunkState::Size, buf) == Step::Next {
        state: ChunkState::Data(piece.len() as u64),
        consumed: p + 2,
    });
    assert(step(ChunkState::Data(piece.len() as u64), tail) == Step::Chunk {
        state: ChunkState::DataEnd,
        len: piece.len() as int,
    });
    assert(decode_spec(ChunkState::Data(piece.len() as u64), tail) == Decode::Chunk {
        state: ChunkState::DataEnd,
        skipped: 0,
        len: piece.len() as int,
    });
    assert(decode_spec(ChunkState::Size, buf) == shift(
        decode_spec(ChunkState::Data(piece.len() as u64), buf.skip(p + 2)),
        p + 2,
    ));
    assert(buf.subrange(p + 2, p + 2 + piece.len()) =~= piece);
    assert(buf.skip(p + 2 + piece.len()) =~= crlf() + rest);
}

proof fn lemma_decode_chunk_end(rest: Seq<u8>)
    ensures
        decode_spec(ChunkState::DataEnd, crlf() + rest) == shift(
            decode_spec(ChunkState::Size, rest),
            2,
        ),
{
    lemma_crlf_bytes();
    let buf = crlf() + rest;
    assert(line_end_at(buf, 0));
    assert(buf.skip(2) =~= rest);
}

proof fn lemma_decode_last(rest: Seq<u8>)
    ensures
        decode_spec(ChunkState::Size, eof_bytes(Transfer::Chunked) + rest) == (Decode::Eof {
            consumed: 5,
        }),
{
    lemma_last_chunk_bytes();
    let buf = eof_bytes(Transfer::Chunked) + rest;
    assert(line_end(buf, 0) == Some(1int)) by {
        assert(buf[0] == 48u8);
        assert(buf[1] == 13u8 && buf[2] == 10u8);
        assert(!line_end_at(buf, 0));
        assert(line_end_at(buf, 1));
        assert(line_end(buf, 1) == Some(1int));
    }
    let size = buf.take(1);
    assert(size =~= seq![48u8]);
    assert(is_size(size));
    assert(size.drop_last() =~= Seq::<u8>::empty());
    assert(hex_value(size.drop_last()) == 0);
    assert(hex_value(size) == 0);
    assert(step(ChunkState::Size, buf) == Step::Next { state: ChunkState::Last, consumed: 3 });
    let tail = buf.skip(3);
    assert(tail[0] == 13u8 && tail[1] == 10u8);
    assert(line_end_at(tail, 0));
    assert(step(ChunkState::Last, tail) == Step::Eof { consumed: 2 });
    assert(decode_spec(ChunkState::Last, tail) == Decode::Eof { consumed: 2 });
    assert(decode_spec(ChunkState::Size, buf) == shift(
        decode_spec(ChunkState::Last, buf.skip(3)),
        3,
    ));
}

proof fn lemma_body_after_chunk(pieces: Seq<Seq<u8>>, rest: Seq<u8>)
    requires
        forall|i: int| 0 <= i < pieces.len() ==> 0 < (#[trigger] pieces[i]).len() <= u64::MAX,
    ensures
        body_of(ChunkState::DataEnd, crlf() + (chunked_body(pieces) + rest)) == Some(
            (pieces.flatten(), chunked_body(pieces).len() as int + 2),
        ),
    decreases pieces.len(),
{
    lemma_crlf_bytes();
    let inner = chunked_body(pieces) + rest;
    let buf = crlf() + inner;
    lemma_decode_chunk_end(inner);
    if pieces.len() == 0 {
        lemma_decode_last(rest);
        lemma_last_chunk_bytes();
        assert(pieces.flatten() =~= Seq::<u8>::empty());
    } else {
        let piece = pieces[0];
        let others = pieces.drop_first();
        let tail = chunked_body(others) + rest;
        assert(inner =~= chunk_bytes(Transfer::Chunked, piece) + tail);
        lemma_decode_chunk(piece, tail);
        let h = hex(piece.len()).len() as int;
        assert(decode_spec(ChunkState::DataEnd, buf) == Decode::Chunk {
            state: ChunkState::DataEnd,
            skipped: h + 4,
            len: piece.len() as int,
        });
        assert(buf.skip(h + 4 + piece.len()) =~= inner.skip(h + 2 + piece.len()));
        assert(buf.subrange(h + 4, h + 4 + piece.len()) =~= inner.subrange(
            h + 2,
            h + 2 + piece.len(),
        ));
        assert forall|i: int| 0 <= i < others.len() implies 0 < (#[trigger] others[i]).len()
            <= u64::MAX by {
            assert(others[i] == pieces[i + 1]);
        }
        lemma_body_after_chunk(others, rest);
        assert(pieces.flatten() =~= piece + others.flatten());
        assert(chunked_body(pieces).len() == h + 2 + piece.len() + 2 + chunked_body(others).len());
    }
}

/// A body that is sent in chunks is read back as it was.
///
/// Let the encoder write the pieces `pieces`, none of them empty, as chunks,
/// and then the end of the body. From these bytes, whatever follows them,
/// the decoder reads the pieces in their order and then the end of the
/// body, and takes exactly the bytes of the body off the buffer.
pub proof fn lemma_chunked_round_trip(pieces: Seq<Seq<u8>>, rest: Seq<u8>)
    requires
        forall|i: int| 0 <= i < pieces.len() ==> 0 < (#[trigger] pieces[i]).len() <= u64::MAX,
    ensures
        body_of(ChunkState::Size, chunked_body(pieces) + rest) == Some(
            (pieces.flatten(), chunked_body(pieces).len() as int),
        ),
{
    if pieces.len() == 0 {
        lemma_decode_last(rest);
        lemma_last_chunk_bytes();
        assert(pieces.flatten() =~= Seq::<u8>::empty());
    } else {
        let piece = pieces[0];
        let others = pieces.drop_first();
        let tail = chunked_body(others) + rest;
        let buf = chunked_body(pieces) + rest;
        assert(buf =~= chunk_bytes(Transfer::Chunked, piece) + tail);
        lemma_decode_chunk(piece, tail);
        let h = hex(piece.len()).len() as int;
        assert forall|i: int| 0 <= i < others.len() implies 0 < (#[trigger] others[i]).len()
            <= u64::MAX by {
            assert(others[i] == pieces[i + 1]);
        }
        lemma_body_after_chunk(others, rest);
        lemma_crlf_bytes();
        assert(pieces.flatten() =~= piece + others.flatten());
        assert(chunked_body(pieces).len() == h + 2 + piece.len() + 2 + chunked_body(others).len());
    }
}

} // verus!
