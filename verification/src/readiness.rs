//! Readiness of a service, and how the readiness of the services behind one
//! handler combines into the readiness of the handler.
//!
//! The services are polled in a fixed order: the expect service, the
//! application service, then the upgrade service where one is configured. A
//! failed poll ends the round at once; a pending one does not, so that every
//! service gets to register its waker.

use vstd::prelude::*;
use crate::error::DispatchError;

verus! {

/// What one readiness poll of a service reported.
#[derive(Clone, Copy, Debug, PartialEq, Eq, Structural)]
pub enum Readiness {
    /// The service can take one more request without blocking.
    Ready,
    /// The service cannot take a request now.
    Pending,
    /// The readiness poll failed.
    Failed,
}

/// One of the services behind a handler.
#[derive(Clone, Copy, Debug, PartialEq, Eq, Structural)]
pub enum Probe {
    /// The service that answers `Expect: 100-continue`.
    Expect,
    /// The application service.
    Service,
    /// The service that takes over upgraded connections.
    Upgrade,
}

/// What to do next in a round of readiness polls.
#[derive(Clone, Copy, Debug, PartialEq, Eq, Structural)]
pub enum ReadyStep {
    /// Poll this service and come back with one more outcome.
    Poll(Probe),
    /// Every service is ready: the handler is ready.
    Ready,
    /// No poll failed and some service is not ready: the handler is pending.
    Pending,
    /// The poll of this service failed: the handler fails, and the
    /// connection is not accepted.
    Failed(Probe),
}

/// How many services a handler polls.
pub open spec fn service_count(has_upgrade: bool) -> int {
    if has_upgrade {
        3
    } else {
        2
    }
}

/// The service polled at position `i` of a round.
pub open spec fn probe_at(i: int) -> Probe {
    if i == 0 {
        Probe::Expect
    } else if i == 1 {
        Probe::Service
    } else {
        Probe::Upgrade
    }
}

/// Whether one of the first `k` outcomes is a failure.
pub open spec fn failed_before(polled: Seq<Readiness>, k: int) -> bool {
    exists|i: int| 0 <= i < k && i < polled.len() && #[trigger] polled[i] == Readiness::Failed
}

/// Whether the first `n` outcomes are all `Ready`.
pub open spec fn all_ready(polled: Seq<Readiness>, n: int) -> bool {
    forall|i: int| 0 <= i < n && i < polled.len() ==> #[trigger] polled[i] == Readiness::Ready
}

/// The step that follows the outcomes `polled`, given in polling order.
pub open spec fn ready_step_spec(has_upgrade: bool, polled: Seq<Readiness>) -> ReadyStep {
    let n = service_count(has_upgrade);
    if failed_before(polled, n) {
        ReadyStep::Failed(
            probe_at(
                choose|i: int|
                    0 <= i < n && i < polled.len() && #[trigger] polled[i] == Readiness::Failed
                        && !failed_before(polled, i),
            ),
        )
    } else if polled.len() < n {
        ReadyStep::Poll(probe_at(polled.len() as int))
    } else if all_ready(polled, n) {
        ReadyStep::Ready
    } else {
        ReadyStep::Pending
    }
}

impl ReadyStep {
    /// What a round that ends with this step makes of the handler: ready,
    /// or failed with a readiness error that is fatal to it. A round that
    /// goes on, or ends pending, has no verdict.
    pub fn verdict(self) -> (r: Option<Result<(), DispatchError>>)
        ensures
            r == (match self {
                ReadyStep::Ready => Some(Ok::<(), DispatchError>(())),
                ReadyStep::Failed(_) => Some(
                    Err::<(), DispatchError>(DispatchError::ServiceReadiness),
                ),
                ReadyStep::Pending => None,
                ReadyStep::Poll(_) => None,
            }),
    {
        match self {
            ReadyStep::Ready => Some(Ok(())),
            ReadyStep::Failed(_) => Some(Err(DispatchError::ServiceReadiness)),
            ReadyStep::Pending => None,
            ReadyStep::Poll(_) => None,
        }
    }
}

impl Readiness {
    /// Whether the poll reported `Ready`.
    pub fn is_ready(self) -> (r: bool)
        ensures
            r == (self == Readiness::Ready),
    {
        match self {
            Readiness::Ready => true,
            _ => false,
        }
    }
}

fn probe_of(i: usize) -> (p: Probe)
    ensures
        p == probe_at(i as int),
{
    if i == 0 {
        Probe::Expect
    } else if i == 1 {
        Probe::Service
    } else {
        Probe::Upgrade
    }
}

/// Decides the next step of a round of readiness polls from the outcomes
/// gathered so far.
///
/// The first failure among the outcomes ends the round with that service's
/// failure. Without a failure, the next service in order is to be polled
/// until each has been polled once; then the round ends `Ready` when every
/// outcome is `Ready`, and `Pending` otherwise. Outcomes beyond the number of
/// services are not looked at.
pub fn ready_step(has_upgrade: bool, polled: &[Readiness]) -> (step: ReadyStep)
    ensures
        step == ready_step_spec(has_upgrade, polled@),
        step is Failed <==> failed_before(polled@, service_count(has_upgrade)),
        step matches ReadyStep::Failed(p) ==> exists|i: int|
            0 <= i < service_count(has_upgrade) && i < polled@.len() && #[trigger] polled@[i]
                == Readiness::Failed && !failed_before(polled@, i) && p == probe_at(i),
{
    let n: usize = if has_upgrade {
        3
    } else {
        2
    };
    let mut ready = true;
    let mut i: usize = 0;
    while i < n && i < polled.len()
        invariant
            n == service_count(has_upgrade),
            0 <= i <= n,
            i <= polled@.len(),
            !failed_before(polled@, i as int),
            ready == all_ready(polled@, i as int),
        decreases n - i,
    {
        match polled[i] {
            Readiness::Failed => {
                proof {
                    let w = i as int;
                    assert(polled@[w] == Readiness::Failed);
                    assert(failed_before(polled@, n as int));
                    let c = choose|k: int|
                        0 <= k < n && k < polled@.len() && #[trigger] polled@[k]
                            == Readiness::Failed && !failed_before(polled@, k);
                    assert(0 <= w < n && w < polled@.len() && polled@[w] == Readiness::Failed
                        && !failed_before(polled@, w));
                    if c < w {
                        assert(failed_before(polled@, w));
                    }
                    if w < c {
                        assert(failed_before(polled@, c));
                    }
                    assert(c == w);
                }
                return ReadyStep::Failed(probe_of(i));
            },
            Readiness::Ready => {},
            Readiness::Pending => {
                ready = false;
            },
        }
        proof {
            let w = i as int;
            assert forall|k: int| 0 <= k < w + 1 && k < polled@.len() implies #[trigger] polled@[k]
                != Readiness::Failed by {
                if k < w {
                    assert(!failed_before(polled@, w));
                }
            }
        }
        i = i + 1;
    }
    if i < n {
        ReadyStep::Poll(probe_of(i))
    } else if ready {
        ReadyStep::Ready
    } else {
        ReadyStep::Pending
    }
}

} // verus!
