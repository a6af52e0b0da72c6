//! What holds of every run of a dispatcher.

use vstd::prelude::*;
use crate::config::{PeerAddr, ServiceConfig};
use crate::event::{
    BodyOutcome,
    Command,
    Decoded,
    Event,
    ExpectOutcome,
    FlushOutcome,
    PayloadStatus,
    ReadOutcome,
    ServiceOutcome,
    ShutdownOutcome,
};
use crate::message::{Message, RequestHead, ResponseHead};
use crate::model::{Flags, Model, State};

verus! {

proof fn lemma_push_respects_config(s: Model, m: Message)
    requires
        s.heads_respect_config(),
        m matches Message::Head { keep_alive, .. } ==> (keep_alive ==> s.cfg.keep_alive_enabled()),
    ensures
        (Model { messages: s.messages.push(m), ..s }).heads_respect_config(),
{
    let t = Model { messages: s.messages.push(m), ..s };
    assert forall|i: int| 0 <= i < t.messages.len() implies (#[trigger] t.messages[i]
        matches Message::Head { keep_alive, .. } ==> (keep_alive ==> t.cfg.keep_alive_enabled())) by {
        if i < s.messages.len() {
            assert(t.messages[i] == s.messages[i]);
        } else {
            assert(t.messages[i] == m);
        }
    }
}

/// The state of a freshly accepted connection is well formed.
pub proof fn lemma_initial_wf(
    cfg: ServiceConfig,
    has_upgrade: bool,
    peer_addr: Option<PeerAddr>,
    now: u64,
)
    ensures
        Model::initial(cfg, has_upgrade, peer_addr, now).wf(),
{
}

/// Every step leads from a well-formed state to a well-formed state.
pub proof fn lemma_step_preserves_wf(s: Model, ev: Event, now: u64)
    requires
        s.wf(),
        s.accepts(ev, now),
    ensures
        s.step(ev, now).0.wf(),
{
    if s.terminated() {
        return ;
    }
    match ev {
        Event::Read(r) => {},
        Event::Decoded { item, consumed } => {
            match item {
                Decoded::Head(head) => {
                    lemma_push_respects_config(
                        s,
                        Message::Head {
                            status: crate::message::STATUS_BAD_REQUEST,
                            body: crate::message::BodySize::Empty,
                            keep_alive: false,
                        },
                    );
                },
                Decoded::Invalid => {
                    lemma_push_respects_config(
                        s,
                        Message::Head {
                            status: crate::message::STATUS_BAD_REQUEST,
                            body: crate::message::BodySize::Empty,
                            keep_alive: false,
                        },
                    );
                },
                _ => {},
            }
        },
        Event::Expect(o) => {
            match o {
                ExpectOutcome::Continue => {
                    lemma_push_respects_config(s, Message::Continue);
                },
                ExpectOutcome::Reject(res) => {
                    lemma_push_respects_config(
                        s,
                        Message::Head { status: res.status, body: res.body, keep_alive: false },
                    );
                },
            }
        },
        Event::Service(o) => {
            match o {
                ServiceOutcome::Response(res) => {
                    lemma_push_respects_config(
                        s,
                        Message::Head {
                            status: res.status,
                            body: res.body,
                            keep_alive: s.flags.keepalive && res.body.delimited_spec(s.version)
                                && !s.flags.write_disconnect,
                        },
                    );
                },
                ServiceOutcome::Error(res) => {
                    lemma_push_respects_config(
                        s,
                        Message::Head { status: res.status, body: res.body, keep_alive: false },
                    );
                },
            }
        },
        Event::Body(o) => {
            match o {
                BodyOutcome::Chunk(bytes) => {
                    lemma_push_respects_config(s, Message::Chunk(bytes));
                },
                BodyOutcome::Eof => {
                    lemma_push_respects_config(s, Message::Eof);
                },
                BodyOutcome::Failed => {},
            }
        },
        Event::Payload(status) => {},
        Event::Encoded(n) => {
            if s.messages.len() > 0 {
                let t = Model {
                    messages: s.messages.drop_first(),
                    write_len: (s.write_len + n) as usize,
                    ..s
                };
                assert forall|i: int| 0 <= i < t.messages.len() implies (#[trigger] t.messages[i]
                    matches Message::Head { keep_alive, .. } ==> (keep_alive
                    ==> t.cfg.keep_alive_enabled())) by {
                    assert(t.messages[i] == s.messages[i + 1]);
                }
            }
        },
        Event::Flush(o) => {},
        Event::Shutdown(o) => {},
        Event::Tick => {},
    }
}

/// Every run that starts in a well-formed state ends in one.
pub proof fn lemma_run_preserves_wf(s: Model, evs: Seq<(Event, u64)>)
    requires
        s.wf(),
        s.admits(evs),
    ensures
        s.run(evs).wf(),
    decreases evs.len(),
{
    if evs.len() > 0 {
        lemma_step_preserves_wf(s, evs[0].0, evs[0].1);
        lemma_run_preserves_wf(s.step(evs[0].0, evs[0].1).0, evs.drop_first());
    }
}

/// Responses leave in the order in which their requests arrived.
///
/// Whatever happens on a connection from the moment it is accepted, the
/// i-th response the dispatcher has queued answers the i-th request it has
/// handed to the services, and at most one request, the latest, is without
/// its response.
pub proof fn lemma_responses_in_request_order(
    cfg: ServiceConfig,
    has_upgrade: bool,
    peer_addr: Option<PeerAddr>,
    start: u64,
    evs: Seq<(Event, u64)>,
)
    requires
        Model::initial(cfg, has_upgrade, peer_addr, start).admits(evs),
    ensures
        ({
            let end = Model::initial(cfg, has_upgrade, peer_addr, start).run(evs);
            &&& forall|i: int| 0 <= i < end.answers.len() ==> #[trigger] end.answers[i] == i + 1
            &&& end.answers.len() <= end.accepted <= end.answers.len() + 1
            &&& (end.state == State::Normal ==> end.accepted == end.answers.len())
        }),
{
    lemma_initial_wf(cfg, has_upgrade, peer_addr, start);
    lemma_run_preserves_wf(Model::initial(cfg, has_upgrade, peer_addr, start), evs);
}

/// One step keeps the order of requests and responses.
///
/// A request is handed to the services only when every earlier request has
/// its response queued; a response is queued only for the request that is
/// with the services, and goes to the back of the queue; and the queue
/// loses messages at its front alone, unless writing has failed.
pub proof fn lemma_step_keeps_order(s: Model, ev: Event, now: u64)
    requires
        s.wf(),
        s.accepts(ev, now),
    ensures
        ({
            let t = s.step(ev, now).0;
            &&& (t.accepted == s.accepted || (t.accepted == s.accepted + 1 && s.state
                == State::Normal && s.accepted == s.answers.len() && t.in_flight()))
            &&& (t.answers == s.answers || (t.answers == s.answers.push(s.accepted)
                && s.in_flight() && t.state == State::SendPayload && t.messages.len()
                == s.messages.len() + 1 && t.messages.last() is Head && t.messages.drop_last()
                == s.messages))
            &&& (t.messages == s.messages || t.messages.len() == 0 || (t.messages.len()
                == s.messages.len() + 1 && t.messages.drop_last() == s.messages) || (
            s.messages.len() > 0 && t.messages == s.messages.drop_first()))
        }),
{
    let t = s.step(ev, now).0;
    if !s.terminated() {
        match ev {
            Event::Decoded { item, consumed } => {
                assert(s.messages.push(
                    Message::Head {
                        status: crate::message::STATUS_BAD_REQUEST,
                        body: crate::message::BodySize::Empty,
                        keep_alive: false,
                    },
                ).drop_last() == s.messages);
            },
            Event::Expect(o) => {
                if s.state == State::ExpectCall {
                    assert(t.messages.drop_last() == s.messages);
                }
            },
            Event::Service(o) => {
                if s.state == State::ServiceCall {
                    assert(t.messages.drop_last() == s.messages);
                }
            },
            Event::Body(o) => {
                if s.state == State::SendPayload && !s.response_done {
                    match o {
                        BodyOutcome::Chunk(bytes) => {
                            assert(s.messages.push(Message::Chunk(bytes)).drop_last()
                                == s.messages);
                        },
                        BodyOutcome::Eof => {
                            assert(s.messages.push(Message::Eof).drop_last() == s.messages);
                        },
                        BodyOutcome::Failed => {},
                    }
                }
            },
            _ => {},
        }
    }
}

/// With keep-alive disabled a connection serves one exchange.
///
/// On a connection whose configuration has `keep_alive` zero, whatever
/// happens from the moment it is accepted: every response head in the queue
/// tells the encoder to write `Connection: close`, at most one request is
/// handed to the services, and once a request has arrived the dispatcher
/// never awaits another.
pub proof fn lemma_without_keep_alive_one_exchange(
    cfg: ServiceConfig,
    has_upgrade: bool,
    peer_addr: Option<PeerAddr>,
    start: u64,
    evs: Seq<(Event, u64)>,
)
    requires
        cfg.keep_alive == 0,
        Model::initial(cfg, has_upgrade, peer_addr, start).admits(evs),
    ensures
        ({
            let end = Model::initial(cfg, has_upgrade, peer_addr, start).run(evs);
            &&& forall|i: int|
                0 <= i < end.messages.len() ==> (#[trigger] end.messages[i] matches Message::Head {
                    keep_alive,
                    ..
                } ==> !keep_alive)
            &&& end.accepted <= 1
            &&& !end.flags.keepalive
            &&& (end.flags.started ==> end.state != State::Normal)
        }),
{
    let init = Model::initial(cfg, has_upgrade, peer_addr, start);
    lemma_initial_wf(cfg, has_upgrade, peer_addr, start);
    lemma_run_preserves_wf(init, evs);
    lemma_run_keeps_config(init, evs);
}

/// A step changes neither the configuration nor what was known of the
/// connection when it was accepted.
#[verifier::rlimit(60)]
pub proof fn lemma_step_keeps_config(s: Model, ev: Event, now: u64)
    ensures
        s.step(ev, now).0.cfg == s.cfg,
        s.step(ev, now).0.has_upgrade == s.has_upgrade,
        s.step(ev, now).0.peer_addr == s.peer_addr,
{
    if !s.terminated() {
        match ev {
            Event::Read(r) => {
                assert(s.on_read(r, now).0.cfg == s.cfg);
            },
            Event::Decoded { item, consumed } => {
                match item {
                    Decoded::Head(head) => {
                        assert(s.on_head(head, consumed, now).0.cfg == s.cfg);
                    },
                    Decoded::Chunk(len) => {
                        assert(s.on_chunk(len, consumed, now).0.cfg == s.cfg);
                    },
                    Decoded::Eof => {
                        assert(s.on_body_end(consumed, now).0.cfg == s.cfg);
                    },
                    Decoded::NeedMore => {
                        assert(s.on_need_more(consumed, now).0.cfg == s.cfg);
                    },
                    Decoded::Invalid => {
                        assert(s.on_invalid(consumed, now).0.cfg == s.cfg);
                    },
                }
            },
            Event::Expect(o) => {
                assert(s.on_expect(o, now).0.cfg == s.cfg);
            },
            Event::Service(o) => {
                assert(s.on_service(o, now).0.cfg == s.cfg);
            },
            Event::Body(o) => {
                assert(s.on_body(o, now).0.cfg == s.cfg);
            },
            Event::Payload(status) => {},
            Event::Encoded(n) => {
                assert(s.on_encoded(n, now).0.cfg == s.cfg);
            },
            Event::Flush(o) => {
                assert(s.on_flush(o, now).0.cfg == s.cfg);
            },
            Event::Shutdown(o) => {},
            Event::Tick => {
                assert(s.on_tick(now).0.cfg == s.cfg);
            },
        }
    }
}

/// A run changes neither the configuration nor what was known of the
/// connection when it was accepted.
pub proof fn lemma_run_keeps_config(s: Model, evs: Seq<(Event, u64)>)
    ensures
        s.run(evs).cfg == s.cfg,
        s.run(evs).has_upgrade == s.has_upgrade,
        s.run(evs).peer_addr == s.peer_addr,
    decreases evs.len(),
{
    if evs.len() > 0 {
        let t = s.step(evs[0].0, evs[0].1).0;
        lemma_step_keeps_config(s, evs[0].0, evs[0].1);
        lemma_run_keeps_config(t, evs.drop_first());
        assert(s.run(evs) == t.run(evs.drop_first()));
    }
}

/// Without keep-alive, the end of an exchange is the end of the connection:
/// the step that leaves `SendPayload` enters `Shutdown`.
pub proof fn lemma_without_keep_alive_exchange_ends_in_shutdown(s: Model, ev: Event, now: u64)
    requires
        s.wf(),
        s.accepts(ev, now),
        !s.cfg.keep_alive_enabled(),
        s.state == State::SendPayload,
    ensures
        s.step(ev, now).0.state == State::SendPayload || s.step(ev, now).0.state
            == State::Shutdown,
{
}

/// With keep-alive, a finished exchange leaves the dispatcher idle.
///
/// When the last bytes of a response are flushed, the request body is
/// closed, keep-alive was granted and no further bytes wait in the read
/// buffer, then that one step takes the dispatcher back to `Normal` with
/// both buffers empty, and the idle timer armed to expire `keep_alive`
/// after `now`.
pub proof fn lemma_keep_alive_returns_to_idle(s: Model, now: u64)
    requires
        s.wf(),
        s.accepts(Event::Flush(FlushOutcome::Ready(s.write_len)), now),
        s.state == State::SendPayload,
        s.response_done,
        s.messages.len() == 0,
        s.payload is None,
        s.flags.keepalive,
        s.read_len == 0,
    ensures
        ({
            let t = s.step(Event::Flush(FlushOutcome::Ready(s.write_len)), now).0;
            &&& t.state == State::Normal
            &&& t.read_len == 0
            &&& t.write_len == 0
            &&& t.messages.len() == 0
            &&& t.ka_expire == now + s.cfg.keep_alive
            &&& t.ka_timer == Some(t.ka_expire)
            &&& t.deadline() == Some(t.ka_expire)
            &&& s.cfg.keep_alive > 0
        }),
{
}

/// The dispatcher comes to await a request only by finishing an exchange
/// that was granted keep-alive: the write buffer is then empty, the
/// keep-alive deadline is fresh, and the idle timer is armed exactly when
/// the read buffer is empty.
pub proof fn lemma_idle_only_after_complete_exchange(s: Model, ev: Event, now: u64)
    requires
        s.wf(),
        s.accepts(ev, now),
        s.state != State::Normal,
        s.step(ev, now).0.state == State::Normal,
    ensures
        ({
            let t = s.step(ev, now).0;
            &&& s.state == State::SendPayload
            &&& s.response_done
            &&& s.cfg.keep_alive > 0
            &&& t.flags.keepalive
            &&& t.flushed()
            &&& t.payload is None
            &&& t.ka_expire == now + s.cfg.keep_alive
            &&& (t.read_len == 0 ==> t.ka_timer == Some(t.ka_expire))
            &&& (t.read_len > 0 ==> t.ka_timer is None)
        }),
{
}

/// A request head that is late closes the connection, and nothing is
/// written.
///
/// While the dispatcher awaits a request, whether or not part of a head has
/// arrived, a `Tick` at `ka_expire` or later takes it into `Shutdown` with
/// no message queued and no byte to flush, so that the stream's shutdown is
/// due at once. An earlier `Tick` changes nothing.
pub proof fn lemma_late_head_closes_silently(s: Model, now: u64)
    requires
        s.wf(),
        s.accepts(Event::Tick, now),
        s.state == State::Normal,
        s.outcome is None,
    ensures
        s.deadline() == Some(s.ka_expire),
        now >= s.ka_expire ==> ({
            let t = s.step(Event::Tick, now).0;
            &&& t.state == State::Shutdown
            &&& t.messages.len() == 0
            &&& t.write_len == 0
            &&& t.answers == s.answers
            &&& t.can_shutdown()
            &&& t.disconnect_deadline == Some((now + s.cfg.client_disconnect_timeout) as u64)
        }),
        now < s.ka_expire ==> s.step(Event::Tick, now).0 == s,
{
}

/// Whether the events are those of a connection on which the client sends
/// nothing: reads that find no bytes, and the passing of time.
pub open spec fn silent(evs: Seq<(Event, u64)>) -> bool {
    forall|i: int|
        0 <= i < evs.len() ==> (#[trigger] evs[i]).0 == Event::Read(ReadOutcome::Pending)
            || evs[i].0 == Event::Tick
}

/// Whether the events hold a `Tick` reported at `deadline` or later.
pub open spec fn ticked_at(evs: Seq<(Event, u64)>, deadline: int) -> bool {
    exists|i: int| 0 <= i < evs.len() && (#[trigger] evs[i]).0 == Event::Tick && evs[i].1 >= deadline
}

/// A client that sends nothing is shut out when its time is up, and
/// nothing is written to it.
///
/// On a connection accepted at `start` on which the client sends nothing,
/// the dispatcher queues no message and writes no byte. Until a `Tick`
/// arrives at `start + client_request_timeout` or later it awaits a
/// request with its timer set to that time; from that `Tick` on it is in
/// `Shutdown` with nothing to flush, so that the stream's shutdown is due
/// at once.
pub proof fn lemma_silent_client_times_out(
    cfg: ServiceConfig,
    has_upgrade: bool,
    peer_addr: Option<PeerAddr>,
    start: u64,
    evs: Seq<(Event, u64)>,
)
    requires
        start + cfg.client_request_timeout <= u64::MAX,
        silent(evs),
        Model::initial(cfg, has_upgrade, peer_addr, start).admits(evs),
    ensures
        ({
            let end = Model::initial(cfg, has_upgrade, peer_addr, start).run(evs);
            let deadline = start + cfg.client_request_timeout;
            &&& end.messages.len() == 0
            &&& end.write_len == 0
            &&& end.answers.len() == 0
            &&& end.accepted == 0
            &&& (ticked_at(evs, deadline) ==> end.state == State::Shutdown && (end.outcome is None
                ==> end.can_shutdown()))
            &&& (!ticked_at(evs, deadline) ==> end.state == State::Normal && end.deadline()
                == Some(deadline as u64))
        }),
{
    let init = Model::initial(cfg, has_upgrade, peer_addr, start);
    lemma_initial_wf(cfg, has_upgrade, peer_addr, start);
    lemma_silent_run(init, (start + cfg.client_request_timeout) as u64, evs);
}

/// Whether the dispatcher sits idle or shut down, having neither received
/// nor written anything.
spec fn untouched(s: Model, deadline: u64) -> bool {
    &&& s.wf()
    &&& s.messages.len() == 0
    &&& s.write_len == 0
    &&& s.read_len == 0
    &&& s.answers.len() == 0
    &&& s.accepted == 0
    &&& !s.flags.started
    &&& !s.flags.read_disconnect
    &&& (s.state == State::Normal ==> s.ka_timer == Some(deadline) && s.outcome is None)
    &&& (s.state == State::Normal || s.state == State::Shutdown)
}

proof fn lemma_silent_run(s: Model, deadline: u64, evs: Seq<(Event, u64)>)
    requires
        untouched(s, deadline),
        silent(evs),
        s.admits(evs),
    ensures
        untouched(s.run(evs), deadline),
        s.state == State::Shutdown ==> s.run(evs).state == State::Shutdown,
        ticked_at(evs, deadline as int) ==> s.run(evs).state == State::Shutdown,
        !ticked_at(evs, deadline as int) && s.state == State::Normal ==> s.run(evs).state
            == State::Normal,
    decreases evs.len(),
{
    if evs.len() > 0 {
        let t = s.step(evs[0].0, evs[0].1).0;
        let rest = evs.drop_first();
        assert(evs[0].0 == Event::Read(ReadOutcome::Pending) || evs[0].0 == Event::Tick);
        lemma_step_preserves_wf(s, evs[0].0, evs[0].1);
        assert forall|i: int| 0 <= i < rest.len() implies (#[trigger] rest[i]).0 == Event::Read(
            ReadOutcome::Pending,
        ) || rest[i].0 == Event::Tick by {
            assert(rest[i] == evs[i + 1]);
        }
        lemma_silent_run(t, deadline, rest);
        if ticked_at(evs, deadline as int) {
            let i = choose|i: int|
                0 <= i < evs.len() && (#[trigger] evs[i]).0 == Event::Tick && evs[i].1 >= deadline;
            if i > 0 {
                assert(rest[i - 1] == evs[i]);
                assert(ticked_at(rest, deadline as int));
            }
        }
        if ticked_at(rest, deadline as int) {
            let j = choose|j: int|
                0 <= j < rest.len() && (#[trigger] rest[j]).0 == Event::Tick && rest[j].1
                    >= deadline;
            assert(evs[j + 1] == rest[j]);
            assert(ticked_at(evs, deadline as int));
        }
    }
}

/// What a step cannot do, unless it is the step of a decoded item.
///
/// Such a step opens no request body, and where it closes one it denies
/// keep-alive; it grants no keep-alive; it hands no connection to the
/// upgrade service; it comes to await a request only with keep-alive
/// granted and no body open; and it leaves the count of buffered input as
/// it is, or empties it, unless the step is a read.
pub proof fn lemma_step_effects(s: Model, ev: Event, now: u64)
    requires
        s.wf(),
        s.accepts(ev, now),
        !(ev is Decoded),
    ensures
        ({
            let t = s.step(ev, now).0;
            &&& (t.payload is Some ==> s.payload is Some)
            &&& (s.payload is Some && t.payload is None ==> !t.flags.keepalive)
            &&& (t.flags.keepalive ==> s.flags.keepalive)
            &&& (t.state == State::Upgrade ==> s.state == State::Upgrade)
            &&& (t.state == State::Normal && s.state != State::Normal ==> t.flags.keepalive
                && t.payload is None)
            &&& (!(ev matches Event::Read(ReadOutcome::Ready(_))) ==> t.read_len == s.read_len
                || t.read_len == 0)
            &&& (ev matches Event::Read(ReadOutcome::Ready(n)) ==> t.read_len == s.read_len
                || t.read_len == s.read_len + n)
            &&& (Model::is_signal(ev) ==> t.write_len == s.write_len || t.write_len == 0)
            &&& (ev matches Event::Read(_) ==> t.write_len == s.write_len)
        }),
{
    if !s.terminated() {
        match ev {
            Event::Read(r) => {
                match r {
                    ReadOutcome::Ready(n) => {},
                    ReadOutcome::Pending => {},
                    ReadOutcome::Eof => {},
                    ReadOutcome::Failed => {},
                }
            },
            Event::Decoded { item, consumed } => {},
            Event::Expect(o) => {},
            Event::Service(o) => {},
            Event::Body(o) => {},
            Event::Payload(status) => {},
            Event::Encoded(n) => {},
            Event::Flush(o) => {
                match o {
                    FlushOutcome::Ready(n) => {},
                    FlushOutcome::Pending => {},
                    FlushOutcome::Failed => {},
                }
            },
            Event::Shutdown(o) => {},
            Event::Tick => {},
        }
    }
}

} // verus!
