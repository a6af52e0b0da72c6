//! A connection in one piece: the dispatcher with the two buffers it keeps
//! the books of, the decoder that reads the one and the encoder that fills
//! the other.
//!
//! The caller moves bytes between the stream and the buffers, runs the
//! services, and reports the rest as signals; what is in the buffers and
//! what the dispatcher believes of them cannot come apart.

use vstd::prelude::*;
use crate::codec::{decoding, Decoder, Frame, FrameView, Mode};
use crate::dispatcher::Dispatcher;
use crate::encoder::{after_message, headers_view, message_bytes, Encoder, Header, Transfer};
use crate::event::{Command, Decoded, Event, FlushOutcome, ReadOutcome};
use crate::laws::lemma_step_effects;
use crate::message::Message;
use crate::model::{Model, State};
use crate::request::Limits;

verus! {

/// The dispatcher of a connection together with its buffers and its codec.
pub struct Connection<Io> {
    core: Dispatcher<Io>,
    decoder: Decoder,
    encoder: Encoder,
    read_buf: Vec<u8>,
    write_buf: Vec<u8>,
}

/// The event that reports the decoded item `frame`, for which the decoder
/// took `consumed` bytes.
pub open spec fn decoded_event(frame: FrameView, consumed: int) -> Event {
    Event::Decoded {
        item: match frame {
            FrameView::Head(_, head) => Decoded::Head(head),
            FrameView::Chunk(chunk) => Decoded::Chunk(chunk.len() as usize),
            FrameView::Eof => Decoded::Eof,
            FrameView::NeedMore => Decoded::NeedMore,
            FrameView::Invalid => Decoded::Invalid,
        },
        consumed: consumed as usize,
    }
}

impl<Io> Connection<Io> {
    /// The state of the dispatcher.
    pub closed spec fn model(&self) -> Model {
        self.core@
    }

    /// The stream.
    pub closed spec fn stream(&self) -> Io {
        self.core.stream()
    }

    /// The bytes in the read buffer.
    pub closed spec fn input(&self) -> Seq<u8> {
        self.read_buf@
    }

    /// The bytes in the write buffer.
    pub closed spec fn output(&self) -> Seq<u8> {
        self.write_buf@
    }

    /// What the decoder expects next.
    pub closed spec fn mode(&self) -> Mode {
        self.decoder.mode()
    }

    /// The bounds on the heads the decoder takes.
    pub closed spec fn limits(&self) -> Limits {
        self.decoder.limits()
    }

    /// The framing of the response body that is being sent.
    pub closed spec fn transfer(&self) -> Transfer {
        self.encoder.transfer()
    }

    /// What holds of every connection: the dispatcher is well formed, its
    /// books agree with the buffers, and the decoder expects a body exactly
    /// while the dispatcher has one open, as far as the connection is to
    /// serve further requests.
    pub open spec fn wf(&self) -> bool {
        &&& self.model().wf()
        &&& self.model().read_len == self.input().len()
        &&& self.model().write_len == self.output().len()
        &&& (self.model().payload is Some ==> !(self.mode() is Head))
        &&& (!(self.mode() is Head) ==> self.model().payload is Some
            || !self.model().flags.keepalive || self.model().state == State::Upgrade)
        &&& (self.model().state == State::Normal ==> self.mode() is Head)
    }

    /// Whether `len` bytes read from the stream are taken into the read
    /// buffer: the connection still reads, and the bytes fit.
    pub open spec fn takes_input(&self, len: nat) -> bool {
        &&& !self.model().terminated()
        &&& self.model().state != State::Shutdown
        &&& !self.model().flags.read_disconnect
        &&& self.model().read_len + len <= self.model().cfg.max_read_buf
    }

    /// Whether the connection still writes.
    pub open spec fn writes(&self) -> bool {
        !self.model().terminated() && !self.model().flags.write_disconnect
    }

    /// Puts a freshly accepted connection together.
    pub fn new(core: Dispatcher<Io>, limits: Limits) -> (c: Connection<Io>)
        requires
            core@.wf(),
            core@.state == State::Normal,
            core@.read_len == 0,
            core@.write_len == 0,
        ensures
            c.wf(),
            c.model() == core@,
            c.stream() == core.stream(),
            c.input() == Seq::<u8>::empty(),
            c.output() == Seq::<u8>::empty(),
            c.mode() == Mode::Head,
            c.limits() == limits,
            c.transfer() == Transfer::Length(0),
    {
        Connection {
            core,
            decoder: Decoder::new(limits),
            encoder: Encoder::new(),
            read_buf: Vec::new(),
            write_buf: Vec::new(),
        }
    }

    /// Whether `now` is a time from which every deadline can be reckoned.
    pub fn clock_fits(&self, now: u64) -> (r: bool)
        ensures
            r == self.model().clock_fits(now),
    {
        let cfg = self.core.config();
        now <= u64::MAX - cfg.keep_alive && now <= u64::MAX - cfg.client_disconnect_timeout
    }

    /// Takes `bytes`, read from the stream at `now`, into the read buffer,
    /// if the connection still reads and they fit.
    pub fn received(&mut self, bytes: &[u8], now: u64) -> (taken: bool)
        requires
            old(self).wf(),
            old(self).model().clock_fits(now),
        ensures
            final(self).wf(),
            taken == old(self).takes_input(bytes@.len()),
            taken ==> final(self).input() == old(self).input() + bytes@ && final(self).model()
                == old(self).model().step(
                Event::Read(ReadOutcome::Ready(bytes@.len() as usize)),
                now,
            ).0,
            !taken ==> final(self).input() == old(self).input() && final(self).model() == old(self).model(),
            final(self).output() == old(self).output(),
            final(self).mode() == old(self).mode(),
            final(self).transfer() == old(self).transfer(),
            final(self).limits() == old(self).limits(),
            final(self).stream() == old(self).stream(),
    {
        let len: usize = bytes.len();
        if self.core.is_terminated() || self.core.state() == State::Shutdown
            || self.core.flags().read_disconnect || len > self.core.read_capacity() {
            return false;
        }
        self.read_buf.extend_from_slice(bytes);
        assert(self.read_buf@ =~= old(self).read_buf@ + bytes@);
        let _ = self.core.handle(Event::Read(ReadOutcome::Ready(len)), now);
        true
    }

    /// Takes note of the signal `ev`, reported at `now`, and says what the
    /// caller is to do about it. A buffer of which the dispatcher gives up
    /// the contents is emptied.
    pub fn signal(&mut self, ev: Event, now: u64) -> (cmd: Command)
        requires
            old(self).wf(),
            old(self).model().clock_fits(now),
            Model::is_signal(ev),
        ensures
            final(self).wf(),
            (final(self).model(), cmd) == old(self).model().step(ev, now),
            final(self).input() == (if final(self).model().read_len == 0 {
                Seq::<u8>::empty()
            } else {
                old(self).input()
            }),
            final(self).output() == (if final(self).model().write_len == 0 {
                Seq::<u8>::empty()
            } else {
                old(self).output()
            }),
            final(self).mode() == old(self).mode(),
            final(self).transfer() == old(self).transfer(),
            final(self).limits() == old(self).limits(),
            final(self).stream() == old(self).stream(),
    {
        proof {
            lemma_step_effects(self.core@, ev, now);
        }
        let cmd = self.core.handle(ev, now);
        if self.core.read_len() == 0 {
            self.read_buf.clear();
        }
        if self.core.write_len() == 0 {
            self.write_buf.clear();
        }
        cmd
    }

    /// Lets the decoder take the next item off the read buffer, if the
    /// dispatcher wants one, and reports it to the dispatcher.
    ///
    /// The item is what the decoder makes of the buffer in its mode; the
    /// dispatcher takes the step of that item and says what the caller is
    /// to do with it.
    pub fn decode(&mut self, now: u64) -> (r: (Frame, Command))
        requires
            old(self).wf(),
            old(self).model().clock_fits(now),
        ensures
            final(self).wf(),
            !old(self).model().can_decode() ==> {
                &&& r.0 is NeedMore
                &&& r.1 == Command::Idle
                &&& final(self).model() == old(self).model()
                &&& final(self).input() == old(self).input()
                &&& final(self).mode() == old(self).mode()
            },
            old(self).model().can_decode() ==> ({
                let d = decoding(old(self).mode(), old(self).limits(), old(self).input());
                &&& r.0@ == d.frame
                &&& final(self).mode() == d.mode
                &&& 0 <= d.consumed <= old(self).input().len()
                &&& (final(self).model(), r.1) == old(self).model().step(
                    decoded_event(d.frame, d.consumed),
                    now,
                )
                &&& final(self).input() == (if final(self).model().read_len == 0 {
                    Seq::<u8>::empty()
                } else {
                    old(self).input().skip(d.consumed)
                })
            }),
            final(self).output() == old(self).output(),
            final(self).transfer() == old(self).transfer(),
            final(self).limits() == old(self).limits(),
            final(self).stream() == old(self).stream(),
    {
        if !self.core.can_decode() {
            return (Frame::NeedMore, Command::Idle);
        }
        let (frame, consumed) = self.decoder.decode(&mut self.read_buf);
        let item = match &frame {
            Frame::Head(_, head) => Decoded::Head(*head),
            Frame::Chunk(chunk) => Decoded::Chunk(chunk.len()),
            Frame::Eof => Decoded::Eof,
            Frame::NeedMore => Decoded::NeedMore,
            Frame::Invalid => Decoded::Invalid,
        };
        let cmd = self.core.handle(Event::Decoded { item, consumed }, now);
        if self.core.read_len() == 0 {
            self.read_buf.clear();
        }
        (frame, cmd)
    }

    /// Encodes the oldest message that waits for the encoder onto the write
    /// buffer, if the connection still writes and a message waits. A head
    /// goes out with `reason`, `headers` and `date`.
    pub fn encode_next(&mut self, reason: &[u8], headers: &Vec<Header>, date: &[u8], now: u64) -> (encoded: bool)
        requires
            old(self).wf(),
            old(self).model().clock_fits(now),
        ensures
            final(self).wf(),
            encoded == (old(self).writes() && old(self).model().messages.len() > 0),
            encoded ==> ({
                let bytes = message_bytes(
                    old(self).transfer(),
                    old(self).model().messages[0],
                    reason@,
                    headers_view(headers@),
                    date@,
                );
                &&& final(self).output() == old(self).output() + bytes
                &&& final(self).model() == old(self).model().step(
                    Event::Encoded(bytes.len() as usize),
                    now,
                ).0
                &&& final(self).transfer() == after_message(
                    old(self).transfer(),
                    old(self).model().messages[0],
                )
            }),
            !encoded ==> {
                &&& final(self).output() == old(self).output()
                &&& final(self).model() == old(self).model()
                &&& final(self).transfer() == old(self).transfer()
            },
            final(self).input() == old(self).input(),
            final(self).mode() == old(self).mode(),
            final(self).limits() == old(self).limits(),
            final(self).stream() == old(self).stream(),
    {
        if self.core.is_terminated() || self.core.flags().write_disconnect {
            return false;
        }
        let before: usize = self.write_buf.len();
        match self.core.next_message() {
            Some(msg) => {
                self.encoder.encode(msg, reason, headers, date, &mut self.write_buf);
            },
            None => {
                return false;
            },
        }
        let after: usize = self.write_buf.len();
        let n: usize = after - before;
        proof {
            lemma_step_effects(self.core@, Event::Encoded(n), now);
        }
        let _ = self.core.handle(Event::Encoded(n), now);
        true
    }

    /// Takes `n` bytes, written to the stream at `now`, off the write
    /// buffer, if the connection still writes.
    pub fn written(&mut self, n: usize, now: u64) -> (taken: bool)
        requires
            old(self).wf(),
            old(self).model().clock_fits(now),
            n <= old(self).output().len(),
        ensures
            final(self).wf(),
            taken == old(self).writes(),
            taken ==> final(self).output() == old(self).output().skip(n as int) && final(self).model() == old(self).model().step(Event::Flush(FlushOutcome::Ready(n)), now).0,
            !taken ==> final(self).output() == old(self).output() && final(self).model() == old(self).model(),
            final(self).input() == old(self).input(),
            final(self).mode() == old(self).mode(),
            final(self).transfer() == old(self).transfer(),
            final(self).limits() == old(self).limits(),
            final(self).stream() == old(self).stream(),
    {
        if self.core.is_terminated() || self.core.flags().write_disconnect {
            return false;
        }
        let mut rest = self.write_buf.split_off(n);
        std::mem::swap(&mut self.write_buf, &mut rest);
        proof {
            lemma_step_effects(self.core@, Event::Flush(FlushOutcome::Ready(n)), now);
        }
        let _ = self.core.handle(Event::Flush(FlushOutcome::Ready(n)), now);
        true
    }

    /// The bytes that wait to be written to the stream.
    pub fn pending_output(&self) -> (r: &[u8])
        ensures
            r@ == self.output(),
    {
        self.write_buf.as_slice()
    }

    /// The bytes that wait to be decoded.
    pub fn pending_input(&self) -> (r: &[u8])
        ensures
            r@ == self.input(),
    {
        self.read_buf.as_slice()
    }

    /// The dispatcher, for its queries.
    pub fn dispatcher(&self) -> (r: &Dispatcher<Io>)
        ensures
            r@ == self.model(),
            r.stream() == self.stream(),
    {
        &self.core
    }

    /// The stream, for reading and writing. The connection is untouched.
    pub fn io_mut(&mut self) -> (r: &mut Io)
        ensures
            *r == old(self).stream(),
            final(self).stream() == *final(r),
            final(self).model() == old(self).model(),
            final(self).input() == old(self).input(),
            final(self).output() == old(self).output(),
            final(self).mode() == old(self).mode(),
            final(self).transfer() == old(self).transfer(),
            final(self).limits() == old(self).limits(),
    {
        self.core.io_mut()
    }

    /// Gives the stream up to the upgrade service, with the bytes that were
    /// read beyond the request. The connection ends here.
    pub fn into_upgrade(self) -> (r: (Io, Vec<u8>))
        requires
            self.model().state == State::Upgrade,
        ensures
            r.0 == self.stream(),
            r.1@ == self.input(),
    {
        (self.core.into_upgrade(), self.read_buf)
    }
}

} // verus!
