//! Abuse ledger: a sliding window of recent failed platform requests for one
//! tenant. When the window is full and its oldest entry is recent, the tenant
//! must be suspended, as an early brake well below the platform's own
//! IP-ban threshold for invalid requests.

use vstd::prelude::*;

use crate::{BAD_REQUEST_CAP, BAD_REQUEST_WINDOW_MS};

verus! {

/// Per-tenant record of recent failed ("invalid") platform requests.
/// Instants are milliseconds on a monotonic clock, oldest first.
pub struct DiscordOpsState {
    recent_bad_requests: Vec<u64>,
}

impl View for DiscordOpsState {
    type V = Seq<u64>;

    closed spec fn view(&self) -> Seq<u64> {
        self.recent_bad_requests@
    }
}

/// The instants are in arrival order (non-decreasing).
pub open spec fn ledger_sorted(s: Seq<u64>) -> bool {
    forall|i: int, j: int| 0 <= i <= j < s.len() ==> s[i] <= s[j]
}

/// Every recorded instant is at or before `now`.
pub open spec fn ledger_at_or_before(s: Seq<u64>, now: u64) -> bool {
    forall|i: int| 0 <= i < s.len() ==> s[i] <= now
}

/// The ledger's contents after recording one more failure at `now`:
/// append, then drop the oldest entries beyond the capacity.
pub open spec fn ledger_after_failure(s: Seq<u64>, now: u64) -> Seq<u64> {
    let grown = s.push(now);
    if grown.len() > BAD_REQUEST_CAP as int {
        grown.skip(grown.len() - BAD_REQUEST_CAP as int)
    } else {
        grown
    }
}

/// A full ledger whose oldest entry is within the window means suspension.
pub open spec fn suspend_condition(s: Seq<u64>, now: u64) -> bool {
    s.len() >= BAD_REQUEST_CAP as int && now - s[0] < BAD_REQUEST_WINDOW_MS as int
}

impl DiscordOpsState {
    pub open spec fn wf(&self) -> bool {
        &&& self@.len() <= BAD_REQUEST_CAP as int
        &&& ledger_sorted(self@)
    }

    pub fn new() -> (r: DiscordOpsState)
        ensures
            r@ =~= Seq::<u64>::empty(),
            r.wf(),
    {
        DiscordOpsState { recent_bad_requests: Vec::new() }
    }

    pub fn len(&self) -> (n: usize)
        ensures
            n == self@.len(),
    {
        self.recent_bad_requests.len()
    }

    /// Record one failed request at instant `now_ms`, keeping at most the
    /// newest `BAD_REQUEST_CAP` entries.
    pub fn add_failed_req(&mut self, now_ms: u64)
        requires
            old(self).wf(),
            ledger_at_or_before(old(self)@, now_ms),
        ensures
            final(self)@ =~= ledger_after_failure(old(self)@, now_ms),
            final(self).wf(),
            ledger_at_or_before(final(self)@, now_ms),
    {
        self.recent_bad_requests.push(now_ms);

        // The ledger held at most the capacity, so one removal restores it.
        if self.recent_bad_requests.len() > BAD_REQUEST_CAP {
            self.recent_bad_requests.remove(0);
            proof {
                assert(self.recent_bad_requests@ =~= old(self)@.push(now_ms).skip(1));
            }
        }
        proof {
            assert(self.recent_bad_requests@ =~= ledger_after_failure(old(self)@, now_ms));
        }
    }

    /// Whether the tenant must be suspended: the ledger is full and its
    /// oldest failure happened within the last `BAD_REQUEST_WINDOW_MS`.
    pub fn should_suspend_guild(&self, now_ms: u64) -> (r: bool)
        requires
            self.wf(),
            ledger_at_or_before(self@, now_ms),
        ensures
            r == suspend_condition(self@, now_ms),
    {
        if self.recent_bad_requests.len() < BAD_REQUEST_CAP {
            return false;
        }

        let oldest = self.recent_bad_requests[0];
        now_ms - oldest < BAD_REQUEST_WINDOW_MS
    }
}

} // verus!
