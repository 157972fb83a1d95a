//! The barrier transaction that closes every round: it is sent again until the
//! network confirms it, or the wait has lasted too long.
use vstd::prelude::*;

verus! {

/// How long to wait for the confirmation of a barrier transaction, in ms.
pub const BARRIER_TIMEOUT_MS: u64 = 180_000;

/// A stalled last id is reported on every this many-th retry.
pub const STALL_REPORT_PERIOD: u64 = 8;

/// What follows one attempt to confirm the barrier transaction.
#[derive(PartialEq, Eq, Structural, Debug, Clone, Copy)]
pub enum BarrierAction {
    /// It was confirmed after `retries` retries: record and check the balance.
    Confirmed { retries: u64 },
    /// Not confirmed, and the wait has exceeded the limit.
    TimedOut,
    /// Not confirmed yet: look at the last id and try again.
    Retry,
}

/// The attempts made so far to confirm one barrier transaction.
pub struct BarrierAttempts {
    retries: u64,
}

impl BarrierAttempts {
    pub closed spec fn retries(&self) -> nat {
        self.retries as nat
    }

    /// The retries counted so far.
    pub fn retry_count(&self) -> (n: u64)
        ensures
            n == self.retries(),
    {
        self.retries
    }

    pub fn new() -> (attempts: BarrierAttempts)
        ensures
            attempts.retries() == 0,
    {
        BarrierAttempts { retries: 0 }
    }

    /// Decides after an attempt that was `confirmed` or not, `elapsed_ms`
    /// after the first one was sent.
    pub fn on_attempt(&self, confirmed: bool, elapsed_ms: u64) -> (action: BarrierAction)
        ensures
            action == (if confirmed {
                BarrierAction::Confirmed { retries: self.retries() as u64 }
            } else if elapsed_ms > 180_000 {
                BarrierAction::TimedOut
            } else {
                BarrierAction::Retry
            }),
    {
        if confirmed {
            BarrierAction::Confirmed { retries: self.retries }
        } else if elapsed_ms > BARRIER_TIMEOUT_MS {
            BarrierAction::TimedOut
        } else {
            BarrierAction::Retry
        }
    }

    /// Counts a retry, told whether the network's last id moved since the
    /// attempt; says whether to report that it is stalled, which happens on
    /// every eighth retry after the first while it does not move.
    pub fn on_retry(&mut self, last_id_advanced: bool) -> (report_stall: bool)
        requires
            old(self).retries() < u64::MAX,
        ensures
            final(self).retries() == old(self).retries() + 1,
            report_stall == (!last_id_advanced && old(self).retries() > 0 && old(self).retries()
                % 8 == 0),
    {
        let report = !last_id_advanced && self.retries > 0 && self.retries % STALL_REPORT_PERIOD
            == 0;
        self.retries = self.retries + 1;
        report
    }
}

/// After a confirmed barrier transfer of zero tokens to itself, the barrier
/// account must hold exactly the one token it was funded with.
pub fn barrier_balance_ok(balance: i64) -> (ok: bool)
    ensures
        ok == (balance == 1),
{
    balance == 1
}

} // verus!
