//! Throttled scheduling of asynchronous discovery scans.

use vstd::prelude::*;
use crate::{TrackerError, DISCOVERY_TIMEOUT_NS};

verus! {

/// What the driver should do about discovery this cycle.
#[derive(Clone, Copy, Debug, PartialEq, Eq, Structural)]
pub enum DiscoveryAction {
    /// Check the outstanding discovery future, non-blockingly.
    CheckFuture(u64),
    /// Issue a new asynchronous discovery request.
    IssueRequest,
    /// Neither: no future is outstanding and the deadline has not passed.
    Wait,
}

/// What the driver reports back after acting.
#[derive(Clone, Copy, Debug, PartialEq, Eq, Structural)]
pub enum DiscoveryEvent {
    /// The outstanding future is not ready yet.
    FutureStillPending,
    /// The outstanding future was completed with this result code and, on
    /// success (code zero), this discovery snapshot handle.
    FutureCompleted { result_code: i64, snapshot: u64 },
    /// A new discovery request was issued; this is its future handle.
    Requested { future: u64 },
}

/// The deadline advanced by one timeout interval from `now`, capped at the
/// largest representable tick.
pub open spec fn advanced_deadline(now: u64) -> u64 {
    if now + DISCOVERY_TIMEOUT_NS <= u64::MAX {
        (now + DISCOVERY_TIMEOUT_NS) as u64
    } else {
        u64::MAX
    }
}

/// Schedules discovery scans: at most one request in flight, and a new one
/// only once the deadline — one timeout interval after the previous
/// request's issuance — has passed.
#[derive(Debug)]
pub struct DiscoveryScheduler {
    /// The discovery future in flight, if any.
    pub outstanding_future: Option<u64>,
    /// Tick after which the next request may be issued.
    pub deadline: u64,
}

impl DiscoveryScheduler {
    /// A fresh scheduler: nothing in flight, and the first request allowed
    /// as soon as the given construction tick has passed.
    pub fn new(now: u64) -> (r: Self)
        ensures
            r == (DiscoveryScheduler { outstanding_future: None::<u64>, deadline: now }),
    {
        DiscoveryScheduler { outstanding_future: None, deadline: now }
    }

    /// The action due at tick `now`: check the outstanding future if there
    /// is one; otherwise request a scan once past the deadline; else wait.
    pub open spec fn spec_action(self, now: u64) -> DiscoveryAction {
        match self.outstanding_future {
            Some(f) => DiscoveryAction::CheckFuture(f),
            None => if now > self.deadline {
                DiscoveryAction::IssueRequest
            } else {
                DiscoveryAction::Wait
            },
        }
    }

    /// Decides the discovery action for this cycle.
    pub fn action(&self, now: u64) -> (r: DiscoveryAction)
        ensures
            r == self.spec_action(now),
    {
        match self.outstanding_future {
            Some(f) => DiscoveryAction::CheckFuture(f),
            None => if now > self.deadline {
                DiscoveryAction::IssueRequest
            } else {
                DiscoveryAction::Wait
            },
        }
    }

    /// The scheduler after an event, and what the cycle gets out of it:
    /// a discovery snapshot handle, nothing, or a failed completion.
    pub open spec fn spec_apply(self, now: u64, ev: DiscoveryEvent) -> (
        DiscoveryScheduler,
        Result<Option<u64>, TrackerError>,
    ) {
        match ev {
            DiscoveryEvent::FutureStillPending => (self, Ok(None)),
            DiscoveryEvent::FutureCompleted { result_code, snapshot } => {
                let cleared = DiscoveryScheduler {
                    outstanding_future: None,
                    deadline: self.deadline,
                };
                if result_code == 0 {
                    (cleared, Ok(Some(snapshot)))
                } else {
                    (cleared, Err(TrackerError::AsyncOperationFailure(result_code)))
                }
            },
            DiscoveryEvent::Requested { future } => (
                DiscoveryScheduler {
                    outstanding_future: Some(future),
                    deadline: advanced_deadline(now),
                },
                Ok(None),
            ),
        }
    }

    /// Applies the driver's report. A completed future is cleared whether it
    /// succeeded or failed; issuing a request advances the deadline by one
    /// timeout interval, throttling discovery.
    pub fn apply_event(&mut self, now: u64, ev: DiscoveryEvent) -> (r: Result<
        Option<u64>,
        TrackerError,
    >)
        requires
            !(ev is Requested) ==> old(self).outstanding_future is Some,
            ev is Requested ==> old(self).spec_action(now) == DiscoveryAction::IssueRequest,
        ensures
            (*final(self), r) == old(self).spec_apply(now, ev),
    {
        match ev {
            DiscoveryEvent::FutureStillPending => Ok(None),
            DiscoveryEvent::FutureCompleted { result_code, snapshot } => {
                self.outstanding_future = None;
                if result_code == 0 {
                    Ok(Some(snapshot))
                } else {
                    Err(TrackerError::AsyncOperationFailure(result_code))
                }
            },
            DiscoveryEvent::Requested { future } => {
                self.outstanding_future = Some(future);
                self.deadline = if now <= u64::MAX - DISCOVERY_TIMEOUT_NS {
                    now + DISCOVERY_TIMEOUT_NS
                } else {
                    u64::MAX
                };
                Ok(None)
            },
        }
    }
}

/// While a discovery future is outstanding, no second request is issued,
/// even once the deadline has passed.
pub proof fn lemma_no_request_while_outstanding(s: DiscoveryScheduler, now: u64)
    requires
        s.outstanding_future is Some,
    ensures
        s.spec_action(now) != DiscoveryAction::IssueRequest,
{
}

/// Discovery requests are throttled to at most one per timeout interval:
/// after a request issued at `now1`, no later cycle — not even one that
/// completes that request's future at `now2` — issues another request at a
/// tick `now3` that is not strictly past `now1`'s advanced deadline.
pub proof fn lemma_discovery_throttled(
    s: DiscoveryScheduler,
    now1: u64,
    future: u64,
    now2: u64,
    result_code: i64,
    snapshot: u64,
    now3: u64,
)
    requires
        s.spec_action(now1) == DiscoveryAction::IssueRequest,
    ensures
        ({
            let s1 = s.spec_apply(now1, DiscoveryEvent::Requested { future }).0;
            let s2 = s1.spec_apply(
                now2,
                DiscoveryEvent::FutureCompleted { result_code, snapshot },
            ).0;
            &&& s1.spec_action(now2) != DiscoveryAction::IssueRequest
            &&& (s2.spec_action(now3) == DiscoveryAction::IssueRequest ==> now3
                > advanced_deadline(now1))
        }),
{
}

} // verus!
