//! Decoding of a request body that is delimited by its length.
//!
//! The decoder takes from the read buffer what belongs to the body and
//! leaves the rest, whatever the pieces in which the bytes arrived.

use vstd::prelude::*;
use crate::event::PayloadStatus;

verus! {

/// A piece of a request body, or its end.
#[derive(Debug)]
pub enum PayloadItem {
    /// The next bytes of the body.
    Chunk(Vec<u8>),
    /// The body is complete.
    Eof,
}

/// Most bytes a body's receiver holds before its sender is told to pause.
pub const MAX_BUFFER_SIZE: usize = 32768;

/// The status a body's receiver reports to its sender: gone when it was
/// dropped, full when it holds `MAX_BUFFER_SIZE` bytes or more, and taking
/// data otherwise.
pub fn receiver_status(alive: bool, buffered: usize) -> (status: PayloadStatus)
    ensures
        status == (if !alive {
            PayloadStatus::Dropped
        } else if buffered < MAX_BUFFER_SIZE {
            PayloadStatus::Read
        } else {
            PayloadStatus::Pause
        }),
{
    if !alive {
        PayloadStatus::Dropped
    } else if buffered < MAX_BUFFER_SIZE {
        PayloadStatus::Read
    } else {
        PayloadStatus::Pause
    }
}

/// Decoder of a body of known length.
#[derive(Debug)]
pub struct LengthDecoder {
    remaining: u64,
}

/// How many of `buffered` bytes belong to a body of which `remaining` bytes
/// are still to come.
pub open spec fn chunk_len(remaining: nat, buffered: nat) -> nat {
    if remaining <= buffered {
        remaining
    } else {
        buffered
    }
}

/// What has happened to a body after some bytes arrived.
pub struct Progress {
    /// The bytes handed on as chunks, in order.
    pub delivered: Seq<u8>,
    /// How many bytes of the body are still to come.
    pub remaining: nat,
    /// The bytes left in the read buffer.
    pub buffered: Seq<u8>,
}

/// The progress of a body of which `remaining` bytes are to come, when the
/// read buffer holds `buffered` and the segments `segs` arrive one after the
/// other, the decoder running after each.
pub open spec fn receive(remaining: nat, buffered: Seq<u8>, segs: Seq<Seq<u8>>) -> Progress
    decreases segs.len(),
{
    if segs.len() == 0 {
        Progress { delivered: Seq::empty(), remaining, buffered }
    } else {
        let buf = buffered + segs[0];
        let k = chunk_len(remaining, buf.len());
        let rest = receive((remaining - k) as nat, buf.skip(k as int), segs.drop_first());
        Progress { delivered: buf.take(k as int) + rest.delivered, ..rest }
    }
}

impl LengthDecoder {
    /// How many bytes of the body are still to come.
    pub closed spec fn remaining(&self) -> u64 {
        self.remaining
    }

    /// A decoder for a body of `len` bytes.
    pub fn new(len: u64) -> (d: LengthDecoder)
        ensures
            d.remaining() == len,
    {
        LengthDecoder { remaining: len }
    }

    /// How many bytes of the body are still to come.
    pub fn left(&self) -> (n: u64)
        ensures
            n == self.remaining(),
    {
        self.remaining
    }

    /// Takes the next item of the body off the front of `buf`.
    ///
    /// A body with nothing to come yields `Eof` and an empty buffer yields
    /// nothing; both leave decoder and buffer as they are. Otherwise the
    /// chunk is the front of the buffer, as long as the body allows, and
    /// the buffer keeps what follows.
    pub fn decode(&mut self, buf: &mut Vec<u8>) -> (item: Option<PayloadItem>)
        ensures
            old(self).remaining() == 0 ==> item matches Some(PayloadItem::Eof),
            old(self).remaining() > 0 && old(buf)@.len() == 0 ==> item is None,
            old(self).remaining() == 0 || old(buf)@.len() == 0 ==> final(self).remaining() == old(
                self,
            ).remaining() && final(buf)@ == old(buf)@,
            old(self).remaining() > 0 && old(buf)@.len() > 0 ==> ({
                let k = chunk_len(old(self).remaining() as nat, old(buf)@.len());
                &&& item matches Some(PayloadItem::Chunk(chunk))
                &&& chunk@ == old(buf)@.take(k as int)
                &&& final(buf)@ == old(buf)@.skip(k as int)
                &&& final(self).remaining() == old(self).remaining() - k
            }),
    {
        if self.remaining == 0 {
            return Some(PayloadItem::Eof);
        }
        let len: usize = buf.len();
        if len == 0 {
            return None;
        }
        let k: usize = if self.remaining <= len as u64 {
            self.remaining as usize
        } else {
            len
        };
        let mut chunk = buf.split_off(k);
        std::mem::swap(buf, &mut chunk);
        self.remaining = self.remaining - k as u64;
        Some(PayloadItem::Chunk(chunk))
    }
}

proof fn lemma_flatten_first(segs: Seq<Seq<u8>>)
    requires
        segs.len() > 0,
    ensures
        segs.flatten() == segs[0] + segs.drop_first().flatten(),
{
}

proof fn lemma_receive(remaining: nat, buffered: Seq<u8>, segs: Seq<Seq<u8>>)
    requires
        remaining > 0 ==> buffered.len() == 0,
    ensures
        ({
            let all = buffered + segs.flatten();
            let k = chunk_len(remaining, all.len());
            let p = receive(remaining, buffered, segs);
            &&& p.delivered == all.take(k as int)
            &&& p.buffered == all.skip(k as int)
            &&& p.remaining == remaining - k
        }),
    decreases segs.len(),
{
    let all = buffered + segs.flatten();
    let k = chunk_len(remaining, all.len());
    if segs.len() == 0 {
        assert(segs.flatten() == Seq::<u8>::empty());
        assert(all == buffered);
        assert(all.take(k as int) == Seq::<u8>::empty());
        assert(all.skip(k as int) == buffered);
    } else {
        let buf = buffered + segs[0];
        let k1 = chunk_len(remaining, buf.len());
        let rest_segs = segs.drop_first();
        let r1 = (remaining - k1) as nat;
        let b1 = buf.skip(k1 as int);
        lemma_flatten_first(segs);
        lemma_receive(r1, b1, rest_segs);
        let rest = receive(r1, b1, rest_segs);
        let all1 = b1 + rest_segs.flatten();
        let k2 = chunk_len(r1, all1.len());
        assert(all == buf + rest_segs.flatten());
        assert(k == k1 + k2);
        assert(buf.take(k1 as int) + all1.take(k2 as int) == all.take(k as int));
        assert(all1.skip(k2 as int) == all.skip(k as int));
    }
}

/// A body of `len` bytes gets exactly its bytes, however they arrive.
///
/// Let the bytes that follow a request head arrive in the segments `segs`,
/// the decoder running after each. Then what is handed on as the body is
/// the first `len` bytes of the segments joined together, or all of them
/// while fewer than `len` have arrived: never a byte more, and none
/// missing. What lies beyond the body stays in the read buffer. The
/// outcome depends on the joined bytes alone, not on where they were cut.
pub proof fn lemma_length_body_exact(len: u64, segs: Seq<Seq<u8>>)
    ensures
        ({
            let all = segs.flatten();
            let p = receive(len as nat, Seq::empty(), segs);
            &&& all.len() >= len ==> p.delivered == all.take(len as int) && p.remaining == 0
                && p.buffered == all.skip(len as int)
            &&& all.len() < len ==> p.delivered == all && p.remaining == len - all.len()
                && p.buffered.len() == 0
        }),
{
    lemma_receive(len as nat, Seq::empty(), segs);
    let all = segs.flatten();
    assert(Seq::<u8>::empty() + all == all);
    if all.len() < len {
        assert(all.take(all.len() as int) == all);
    }
}

/// Two ways of cutting the same bytes into segments deliver the same body.
pub proof fn lemma_segmentation_irrelevant(len: u64, a: Seq<Seq<u8>>, b: Seq<Seq<u8>>)
    requires
        a.flatten() == b.flatten(),
    ensures
        receive(len as nat, Seq::empty(), a) == receive(len as nat, Seq::empty(), b),
{
    lemma_receive(len as nat, Seq::empty(), a);
    lemma_receive(len as nat, Seq::empty(), b);
}

} // verus!
