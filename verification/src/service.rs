//! Assembly of the services behind an HTTP/1 transport: the factory that
//! collects them, the record of their start-up, and the handler that
//! accepts connections once they run.
//!
//! The services themselves are values the caller owns; here they are
//! carried, never called.

use vstd::prelude::*;
use vstd::pervasive::cloned;
use crate::config::{PeerAddr, ServiceConfig};
use crate::dispatcher::Dispatcher;
use crate::event::ExpectOutcome;
use crate::model::Model;
use crate::readiness::{ready_step, ready_step_spec, ReadyStep, Readiness};

verus! {

/// The expect service used where none is given: every request may go on.
#[derive(Clone, Copy, Debug)]
pub struct ExpectHandler;

/// Stands for the upgrade service where none is configured.
#[derive(Clone, Copy, Debug)]
pub struct UpgradeHandler;

impl ExpectHandler {
    /// The verdict on any request.
    pub fn call(&self) -> (o: ExpectOutcome)
        ensures
            o == ExpectOutcome::Continue,
    {
        ExpectOutcome::Continue
    }
}

/// Factory of HTTP/1 connection handlers: the application service `S`, the
/// expect service `X`, an optional upgrade service `U` and an optional
/// callback `C` that is run on each accepted stream.
pub struct H1Service<S, X, U, C> {
    pub srv: S,
    pub cfg: ServiceConfig,
    pub expect: X,
    pub upgrade: Option<U>,
    pub on_connect_ext: Option<C>,
}

/// Which start-up a [`H1ServiceResponse`] waits for.
#[derive(Clone, Copy, Debug, PartialEq, Eq, Structural)]
pub enum InitStage {
    /// The expect service's.
    Expect,
    /// The upgrade service's.
    Upgrade,
    /// The application service's.
    Service,
}

/// Outcome of polling the start-up of a service.
pub enum InitPoll<T> {
    /// The service is not up yet.
    Pending,
    /// The service is up.
    Ready(T),
    /// The service failed to start.
    Failed,
}

/// A polled start-up, tagged with the service it is of.
pub enum InitPolled<S, X, U> {
    Expect(InitPoll<X>),
    Upgrade(InitPoll<U>),
    Service(InitPoll<S>),
}

/// What a poll of the start-up comes to.
pub enum InitStep<H> {
    /// A service came up; poll for the next stage at once.
    Again,
    /// Nothing more can be done now.
    Pending,
    /// A service failed to start; no handler will be built.
    Failed,
    /// Every service is up: here is the handler.
    Done(H),
}

/// The start-up of a handler's services: slots for the expect and upgrade
/// services, filled in that order as they come up, before the application
/// service completes the handler.
pub struct H1ServiceResponse<X, U, C> {
    fut_ex: bool,
    fut_upg: bool,
    expect: Option<X>,
    upgrade: Option<U>,
    on_connect_ext: Option<C>,
    cfg: Option<ServiceConfig>,
}

/// What a [`H1ServiceResponse`] holds.
pub struct InitView<X, U, C> {
    /// Whether the expect service is still to come up.
    pub fut_ex: bool,
    /// Whether an upgrade service is still to come up.
    pub fut_upg: bool,
    pub expect: Option<X>,
    pub upgrade: Option<U>,
    pub on_connect_ext: Option<C>,
    pub cfg: Option<ServiceConfig>,
}

impl<X, U, C> InitView<X, U, C> {
    /// The stage that is polled next.
    pub open spec fn stage(self) -> InitStage {
        if self.fut_ex {
            InitStage::Expect
        } else if self.fut_upg {
            InitStage::Upgrade
        } else {
            InitStage::Service
        }
    }

    /// Whether the record can still be polled: the configuration has not
    /// been handed out, and the expect service is either awaited or there.
    pub open spec fn wf(self) -> bool {
        &&& self.cfg is Some
        &&& (self.fut_ex || self.expect is Some)
        &&& (self.fut_ex ==> self.expect is None)
        &&& (self.fut_upg ==> self.upgrade is None)
    }
}

impl<X, U, C> View for H1ServiceResponse<X, U, C> {
    type V = InitView<X, U, C>;

    closed spec fn view(&self) -> InitView<X, U, C> {
        InitView {
            fut_ex: self.fut_ex,
            fut_upg: self.fut_upg,
            expect: self.expect,
            upgrade: self.upgrade,
            on_connect_ext: self.on_connect_ext,
            cfg: self.cfg,
        }
    }
}

/// Handler of accepted connections: the running services, the callback and
/// the configuration, and whether the services have been seen ready.
pub struct H1ServiceHandler<S, X, U, C> {
    srv: S,
    expect: X,
    upgrade: Option<U>,
    on_connect_ext: Option<C>,
    cfg: ServiceConfig,
    ready_seen: bool,
}

/// What a [`H1ServiceHandler`] holds.
pub struct HandlerView<S, X, U, C> {
    pub srv: S,
    pub expect: X,
    pub upgrade: Option<U>,
    pub on_connect_ext: Option<C>,
    pub cfg: ServiceConfig,
    /// Whether a round of readiness polls has ended `Ready`.
    pub ready_seen: bool,
}

impl<S, X, U, C> View for H1ServiceHandler<S, X, U, C> {
    type V = HandlerView<S, X, U, C>;

    closed spec fn view(&self) -> HandlerView<S, X, U, C> {
        HandlerView {
            srv: self.srv,
            expect: self.expect,
            upgrade: self.upgrade,
            on_connect_ext: self.on_connect_ext,
            cfg: self.cfg,
            ready_seen: self.ready_seen,
        }
    }
}

impl<S, C> H1Service<S, ExpectHandler, UpgradeHandler, C> {
    /// A factory for `service` with the default expect service, no upgrade
    /// service and no callback.
    pub fn with_config(cfg: ServiceConfig, service: S) -> (f: Self)
        ensures
            f.srv == service,
            f.cfg == cfg,
            f.upgrade is None,
            f.on_connect_ext is None,
    {
        H1Service { cfg, srv: service, expect: ExpectHandler, upgrade: None, on_connect_ext: None }
    }
}

impl<S, X, U, C> H1Service<S, X, U, C> {
    /// The same factory with `expect` as its expect service.
    pub fn expect<X1>(self, expect: X1) -> (f: H1Service<S, X1, U, C>)
        ensures
            f.expect == expect,
            f.srv == self.srv,
            f.cfg == self.cfg,
            f.upgrade == self.upgrade,
            f.on_connect_ext == self.on_connect_ext,
    {
        H1Service {
            expect,
            cfg: self.cfg,
            srv: self.srv,
            upgrade: self.upgrade,
            on_connect_ext: self.on_connect_ext,
        }
    }

    /// The same factory with `upgrade` as its upgrade service, or with none.
    pub fn upgrade<U1>(self, upgrade: Option<U1>) -> (f: H1Service<S, X, U1, C>)
        ensures
            f.upgrade == upgrade,
            f.srv == self.srv,
            f.cfg == self.cfg,
            f.expect == self.expect,
            f.on_connect_ext == self.on_connect_ext,
    {
        H1Service {
            upgrade,
            cfg: self.cfg,
            srv: self.srv,
            expect: self.expect,
            on_connect_ext: self.on_connect_ext,
        }
    }

    /// The same factory with `f` as the callback run on accepted streams,
    /// or with none.
    pub fn on_connect_ext(self, f: Option<C>) -> (r: Self)
        ensures
            r.on_connect_ext == f,
            r.srv == self.srv,
            r.cfg == self.cfg,
            r.expect == self.expect,
            r.upgrade == self.upgrade,
    {
        let mut this = self;
        this.on_connect_ext = f;
        this
    }

    /// Begins the start-up of a handler: the expect service is awaited, the
    /// upgrade service where one is configured, and no slot is filled. The
    /// record takes a copy of the callback and of the configuration.
    pub fn new_service<XS, US>(&self) -> (r: H1ServiceResponse<XS, US, C>) where C: Clone
        ensures
            r@.fut_ex,
            r@.fut_upg == (self.upgrade is Some),
            r@.expect is None,
            r@.upgrade is None,
            r@.cfg == Some(self.cfg),
            self.on_connect_ext is None ==> r@.on_connect_ext is None,
            self.on_connect_ext is Some ==> r@.on_connect_ext is Some && cloned::<C>(
                self.on_connect_ext.unwrap(),
                r@.on_connect_ext.unwrap(),
            ),
            r@.wf(),
            r@.stage() == InitStage::Expect,
    {
        H1ServiceResponse {
            fut_ex: true,
            fut_upg: self.upgrade.is_some(),
            expect: None,
            upgrade: None,
            on_connect_ext: self.on_connect_ext.clone(),
            cfg: Some(self.cfg),
        }
    }
}

impl<X, U, C> H1ServiceResponse<X, U, C> {
    /// The stage to poll next.
    pub fn stage(&self) -> (s: InitStage)
        ensures
            s == self@.stage(),
    {
        if self.fut_ex {
            InitStage::Expect
        } else if self.fut_upg {
            InitStage::Upgrade
        } else {
            InitStage::Service
        }
    }

    /// Whether the record can still be polled: it has not yet given its
    /// parts to a handler.
    pub fn can_poll(&self) -> (ok: bool)
        ensures
            ok == self@.wf(),
    {
        self.cfg.is_some() && (self.fut_ex || self.expect.is_some()) && (!self.fut_ex
            || self.expect.is_none()) && (!self.fut_upg || self.upgrade.is_none())
    }

    /// Takes the outcome of polling the current stage.
    ///
    /// A pending start-up leaves the record as it is, and so does a failed
    /// one, which ends the start-up for good. The expect or upgrade service
    /// that came up fills its slot and the next stage is due. When the
    /// application service comes up, the record gives up its slots, its
    /// callback and its configuration to the handler, which has not seen
    /// its services ready yet.
    pub fn poll<S>(&mut self, polled: InitPolled<S, X, U>) -> (step: InitStep<
        H1ServiceHandler<S, X, U, C>,
    >)
        requires
            old(self)@.wf(),
            polled is Expect <==> old(self)@.stage() == InitStage::Expect,
            polled is Upgrade <==> old(self)@.stage() == InitStage::Upgrade,
        ensures
            match polled {
                InitPolled::Expect(InitPoll::Ready(x)) => step is Again && final(self)@ == (InitView {
                    fut_ex: false,
                    expect: Some(x),
                    ..old(self)@
                }),
                InitPolled::Upgrade(InitPoll::Ready(u)) => step is Again && final(self)@ == (InitView {
                    fut_upg: false,
                    upgrade: Some(u),
                    ..old(self)@
                }),
                InitPolled::Service(InitPoll::Ready(s)) => {
                    &&& step matches InitStep::Done(h)
                    &&& h@ == (HandlerView {
                        srv: s,
                        expect: old(self)@.expect.unwrap(),
                        upgrade: old(self)@.upgrade,
                        on_connect_ext: old(self)@.on_connect_ext,
                        cfg: old(self)@.cfg.unwrap(),
                        ready_seen: false,
                    })
                    &&& final(self)@ == (InitView {
                        expect: None,
                        upgrade: None,
                        on_connect_ext: None,
                        cfg: None,
                        ..old(self)@
                    })
                },
                InitPolled::Expect(InitPoll::Pending)
                | InitPolled::Upgrade(InitPoll::Pending)
                | InitPolled::Service(InitPoll::Pending) => step is Pending && final(self)@ == old(
                    self,
                )@,
                InitPolled::Expect(InitPoll::Failed)
                | InitPolled::Upgrade(InitPoll::Failed)
                | InitPolled::Service(InitPoll::Failed) => step is Failed && final(self)@ == old(
                    self,
                )@,
            },
            !(step is Done) ==> final(self)@.wf(),
    {
        match polled {
            InitPolled::Expect(p) => match p {
                InitPoll::Pending => InitStep::Pending,
                InitPoll::Failed => InitStep::Failed,
                InitPoll::Ready(x) => {
                    self.expect = Some(x);
                    self.fut_ex = false;
                    InitStep::Again
                },
            },
            InitPolled::Upgrade(p) => match p {
                InitPoll::Pending => InitStep::Pending,
                InitPoll::Failed => InitStep::Failed,
                InitPoll::Ready(u) => {
                    self.upgrade = Some(u);
                    self.fut_upg = false;
                    InitStep::Again
                },
            },
            InitPolled::Service(p) => match p {
                InitPoll::Pending => InitStep::Pending,
                InitPoll::Failed => InitStep::Failed,
                InitPoll::Ready(service) => {
                    let cfg = self.cfg.take().unwrap();
                    let expect = self.expect.take().unwrap();
                    let upgrade = self.upgrade.take();
                    let on_connect_ext = self.on_connect_ext.take();
                    InitStep::Done(
                        H1ServiceHandler::new(cfg, service, expect, upgrade, on_connect_ext),
                    )
                },
            },
        }
    }
}

impl<S, X, U, C> H1ServiceHandler<S, X, U, C> {
    /// A handler of the running services, which it has not seen ready yet.
    pub fn new(
        cfg: ServiceConfig,
        srv: S,
        expect: X,
        upgrade: Option<U>,
        on_connect_ext: Option<C>,
    ) -> (h: Self)
        ensures
            h@ == (HandlerView { srv, expect, upgrade, on_connect_ext, cfg, ready_seen: false }),
    {
        H1ServiceHandler { srv, expect, upgrade, cfg, on_connect_ext, ready_seen: false }
    }

    /// Decides the next step of a round of readiness polls from the
    /// outcomes gathered so far, given in polling order: the expect service,
    /// the application service, then the upgrade service if there is one.
    /// A round that ends `Ready` is remembered.
    pub fn poll_ready(&mut self, polled: &[Readiness]) -> (step: ReadyStep)
        ensures
            step == ready_step_spec(old(self)@.upgrade is Some, polled@),
            final(self)@ == (HandlerView {
                ready_seen: old(self)@.ready_seen || step == ReadyStep::Ready,
                ..old(self)@
            }),
    {
        let step = ready_step(self.upgrade.is_some(), polled);
        match step {
            ReadyStep::Ready => {
                self.ready_seen = true;
            },
            _ => {},
        }
        step
    }

    /// Accepts the stream `io` at `now`: a dispatcher takes charge of it,
    /// with this handler's configuration, awaiting the first request.
    pub fn call<Io>(&self, io: Io, addr: Option<PeerAddr>, now: u64) -> (d: Dispatcher<Io>)
        requires
            self@.ready_seen,
            now + self@.cfg.client_request_timeout <= u64::MAX,
        ensures
            d@ == Model::initial(self@.cfg, self@.upgrade is Some, addr, now),
            d@.wf(),
            d.stream() == io,
    {
        Dispatcher::new(io, self.cfg, self.upgrade.is_some(), addr, now)
    }

    /// Whether a round of readiness polls has ended `Ready`.
    pub fn ready_seen(&self) -> (r: bool)
        ensures
            r == self@.ready_seen,
    {
        self.ready_seen
    }

    /// The application service.
    pub fn srv(&self) -> (r: &S)
        ensures
            *r == self@.srv,
    {
        &self.srv
    }

    /// The expect service.
    pub fn expect(&self) -> (r: &X)
        ensures
            *r == self@.expect,
    {
        &self.expect
    }

    /// The upgrade service, if there is one.
    pub fn upgrade(&self) -> (r: &Option<U>)
        ensures
            *r == self@.upgrade,
    {
        &self.upgrade
    }

    /// The callback run on accepted streams, if there is one.
    pub fn on_connect_ext(&self) -> (r: &Option<C>)
        ensures
            *r == self@.on_connect_ext,
    {
        &self.on_connect_ext
    }

    /// The configuration.
    pub fn config(&self) -> (r: ServiceConfig)
        ensures
            r == self@.cfg,
    {
        self.cfg
    }
}

} // verus!
