//! Scheduler core: one per worker process. Owns the set of tenant runners,
//! steers incoming events into them, isolates tenants from one another, and
//! arbitrates worker-pool capacity by evicting idle runners.

use vstd::prelude::*;

use crate::abuse::{ledger_after_failure, suspend_condition};
use crate::json::JsonObj;
use crate::rpc::{PremiumSlotTier, Script, ShutdownReason, VmDispatchEvent};
use crate::runner::{GuildRunner, RunnerState};

verus! {

/// The scheduler of one worker process.
pub struct Scheduler {
    pub runners: Vec<GuildRunner>,
    /// Queue depth given to every tenant runner.
    pub queue_cap: usize,
    /// Events dropped because their tenant was suspended.
    pub suspended_drop_count: u64,
    /// Latest clock value the scheduler has observed (milliseconds).
    pub clock_floor_ms: u64,
}

impl Scheduler {
    pub open spec fn wf(&self) -> bool {
        &&& self.queue_cap > 0
        &&& (forall|i: int|
            0 <= i < self.runners@.len() ==> (#[trigger] self.runners@[i]).wf())
        &&& (forall|i: int|
            0 <= i < self.runners@.len() ==> (#[trigger] self.runners@[i]).queue_cap
                == self.queue_cap)
        &&& (forall|i: int, j: int|
            0 <= i < j < self.runners@.len() ==> self.runners@[i].guild_id
                != self.runners@[j].guild_id)
        &&& (forall|i: int|
            0 <= i < self.runners@.len() ==> (#[trigger] self.runners@[i]).last_time_ms
                <= self.clock_floor_ms)
        &&& (forall|i: int|
            0 <= i < self.runners@.len() ==> (#[trigger] self.runners@[i]).last_event_ms
                <= self.clock_floor_ms)
    }

    /// Machine headroom for the counters touched on admission.
    pub open spec fn counters_have_headroom(&self) -> bool {
        &&& self.suspended_drop_count < u64::MAX
        &&& (forall|i: int|
            0 <= i < self.runners@.len() ==> (#[trigger] self.runners@[i]).next_seq
                < u64::MAX)
        &&& (forall|i: int|
            0 <= i < self.runners@.len() ==> (#[trigger] self.runners@[i]).overflow_count
                < u64::MAX)
    }

    /// Index of the runner that owns `guild_id`, if one exists.
    pub open spec fn spec_find_runner(&self, guild_id: u64) -> Option<int> {
        if exists|i: int|
            0 <= i < self.runners@.len() && (#[trigger] self.runners@[i]).guild_id
                == guild_id {
            Some(
                choose|i: int|
                    0 <= i < self.runners@.len() && (#[trigger] self.runners@[i]).guild_id
                        == guild_id,
            )
        } else {
            None
        }
    }

    pub fn new(queue_cap: usize) -> (s: Scheduler)
        requires
            queue_cap > 0,
        ensures
            s.wf(),
            s.runners@ =~= Seq::<GuildRunner>::empty(),
            s.queue_cap == queue_cap,
            s.suspended_drop_count == 0,
            s.counters_have_headroom(),
    {
        Scheduler { runners: Vec::new(), queue_cap, suspended_drop_count: 0, clock_floor_ms: 0 }
    }

    /// Find the position of a tenant's runner.
    pub fn find_runner(&self, guild_id: u64) -> (r: Option<usize>)
        ensures
            match r {
                Some(i) => i < self.runners@.len() && self.runners@[i as int].guild_id
                    == guild_id,
                None => forall|i: int|
                    0 <= i < self.runners@.len() ==> (#[trigger] self.runners@[i]).guild_id
                        != guild_id,
            },
    {
        let mut i: usize = 0;
        while i < self.runners.len()
            invariant
                i <= self.runners@.len(),
                forall|j: int|
                    0 <= j < i ==> (#[trigger] self.runners@[j]).guild_id != guild_id,
            decreases self.runners@.len() - i,
        {
            if self.runners[i].guild_id == guild_id {
                return Some(i);
            }
            i = i + 1;
        }
        None
    }

    /// Admit one dispatchable event for a tenant. A tenant without a runner
    /// gets one if it has enabled scripts. Events for a suspended tenant are
    /// dropped with a counter increment. Admitted events enter the tenant's
    /// bounded FIFO in arrival order; no other tenant's runner changes.
    #[verifier::spinoff_prover]
    pub fn admit_event(
        &mut self,
        guild_id: u64,
        name: String,
        value: JsonObj,
        scripts_enabled: bool,
        now_ms: u64,
    ) -> (admitted: bool)
        requires
            old(self).wf(),
            old(self).counters_have_headroom(),
            now_ms >= old(self).clock_floor_ms,
        ensures
            final(self).wf(),
            final(self).queue_cap == old(self).queue_cap,
            // No other tenant's runner is touched.
            forall|j: int|
                0 <= j < old(self).runners@.len() && old(self).runners@[j].guild_id
                    != guild_id ==> final(self).runners@.len() > j && final(self).runners@[j]
                    == old(self).runners@[j],
            match old(self).spec_find_runner(guild_id) {
                Some(i) => {
                    &&& final(self).runners@.len() == old(self).runners@.len()
                    &&& (old(self).runners@[i].state is Suspended ==> {
                        &&& !admitted
                        &&& final(self).suspended_drop_count == old(
                            self,
                        ).suspended_drop_count + 1
                        &&& final(self).runners@[i] == old(self).runners@[i]
                    })
                    &&& (!(old(self).runners@[i].state is Suspended) ==> {
                        &&& admitted
                        &&& final(self).runners@[i].guild_id == guild_id
                        &&& final(self).runners@[i].state == old(self).runners@[i].state
                        &&& final(self).runners@[i].vm == old(self).runners@[i].vm
                        &&& final(self).runners@[i].current_dispatch == old(
                            self,
                        ).runners@[i].current_dispatch
                        &&& final(self).runners@[i].issued@ =~= old(self).runners@[i].issued@
                        &&& final(self).runners@[i].acked@ =~= old(self).runners@[i].acked@
                        &&& final(self).runners@[i].next_seq == old(self).runners@[i].next_seq
                            + 1
                        &&& final(self).runners@[i].accepted@ =~= old(
                            self,
                        ).runners@[i].accepted@.push(old(self).runners@[i].next_seq)
                        &&& ({
                            let ev = crate::runner::QueuedEvent {
                                seq: old(self).runners@[i].next_seq,
                                name,
                                value,
                            };
                            if old(self).runners@[i].queue@.len() == old(self).queue_cap {
                                &&& final(self).runners@[i].queue@ =~= old(
                                    self,
                                ).runners@[i].queue@.skip(1).push(ev)
                                &&& final(self).runners@[i].overflow_count == old(
                                    self,
                                ).runners@[i].overflow_count + 1
                            } else {
                                &&& final(self).runners@[i].queue@ =~= old(
                                    self,
                                ).runners@[i].queue@.push(ev)
                                &&& final(self).runners@[i].overflow_count == old(
                                    self,
                                ).runners@[i].overflow_count
                            }
                        })
                    })
                },
                None => {
                    &&& (scripts_enabled ==> {
                        &&& admitted
                        &&& final(self).runners@.len() == old(self).runners@.len() + 1
                        &&& final(self).runners@.last().guild_id == guild_id
                        &&& final(self).runners@.last().state is Idle
                        &&& final(self).runners@.last().queue@.len() == 1
                        &&& final(self).runners@.last().queue@[0].seq == 0
                    })
                    &&& (!scripts_enabled ==> {
                        &&& !admitted
                        &&& final(self).runners@ =~= old(self).runners@
                    })
                },
            },
    {
        let idx = self.find_runner(guild_id);
        match idx {
            Some(i) => {
                proof {
                    let si = old(self).spec_find_runner(guild_id);
                    assert(si is Some);
                    assert(si.unwrap() == i as int);
                }
                let suspended = match self.runners[i].state {
                    RunnerState::Suspended(_) => true,
                    _ => false,
                };
                if suspended {
                    self.suspended_drop_count = self.suspended_drop_count + 1;
                    false
                } else {
                    let r = &mut self.runners[i];
                    r.accept_event(name, value, now_ms);
                    self.clock_floor_ms = now_ms;
                    true
                }
            },
            None => {
                if scripts_enabled {
                    let mut r = GuildRunner::new(guild_id, self.queue_cap);
                    r.accept_event(name, value, now_ms);
                    self.runners.push(r);
                    self.clock_floor_ms = now_ms;
                    true
                } else {
                    false
                }
            },
        }
    }

    /// Record one failed platform request on behalf of one tenant. Only that
    /// tenant's abuse ledger and lifecycle are touched: a failure storm on
    /// one guild can never suspend another.
    pub fn record_failed_request(&mut self, guild_id: u64, now_ms: u64) -> (suspended: bool)
        requires
            old(self).wf(),
            now_ms >= old(self).clock_floor_ms,
        ensures
            final(self).wf(),
            final(self).queue_cap == old(self).queue_cap,
            final(self).runners@.len() == old(self).runners@.len(),
            final(self).suspended_drop_count == old(self).suspended_drop_count,
            // Cross-tenant safety: every other tenant's runner is unchanged.
            forall|j: int|
                0 <= j < old(self).runners@.len() && old(self).runners@[j].guild_id
                    != guild_id ==> final(self).runners@[j] == old(self).runners@[j],
            match old(self).spec_find_runner(guild_id) {
                Some(i) => {
                    let pre = old(self).runners@[i];
                    let post = final(self).runners@[i];
                    &&& post.ops@ =~= ledger_after_failure(pre.ops@, now_ms)
                    &&& suspended == suspend_condition(post.ops@, now_ms)
                    &&& (suspended ==> {
                        &&& post.state == RunnerState::Suspended(
                            ShutdownReason::TooManyInvalidRequests,
                        )
                        &&& post.vm is None
                    })
                    &&& (!suspended ==> post.state == pre.state && post.vm == pre.vm)
                },
                None => !suspended && final(self).runners@ =~= old(self).runners@,
            },
    {
        let idx = self.find_runner(guild_id);
        match idx {
            Some(i) => {
                proof {
                    let si = old(self).spec_find_runner(guild_id);
                    assert(si is Some);
                    assert(si.unwrap() == i as int);
                }
                let r = &mut self.runners[i];
                let suspended = r.record_failed_request(now_ms);
                self.clock_floor_ms = now_ms;
                suspended
            },
            None => false,
        }
    }

    /// Install a new script set for a tenant, creating its runner if needed.
    /// Returns the sequence number the new VM will answer with `Hello`.
    pub fn create_scripts_vm(
        &mut self,
        guild_id: u64,
        premium_tier: Option<PremiumSlotTier>,
        scripts: Vec<Script>,
    ) -> (seq: u64)
        requires
            old(self).wf(),
            old(self).counters_have_headroom(),
        ensures
            final(self).wf(),
            final(self).queue_cap == old(self).queue_cap,
            forall|j: int|
                0 <= j < old(self).runners@.len() && old(self).runners@[j].guild_id
                    != guild_id ==> final(self).runners@.len() > j && final(self).runners@[j]
                    == old(self).runners@[j],
            match old(self).spec_find_runner(guild_id) {
                Some(i) => {
                    let pre = old(self).runners@[i];
                    let post = final(self).runners@[i];
                    &&& final(self).runners@.len() == old(self).runners@.len()
                    &&& seq == pre.next_seq
                    &&& post.next_seq == pre.next_seq + 1
                    &&& ((pre.state is Running || pre.state is Draining) ==> post.state
                        is Draining && post.pending_create == Some(
                        (seq, premium_tier, scripts),
                    ))
                    &&& (!(pre.state is Running || pre.state is Draining) ==> post.state
                        is Starting && post.vm == Some(
                        (crate::runner::VmSession {
                            created_seq: seq,
                            premium_tier,
                            scripts,
                            ready: false,
                        }),
                    ))
                },
                None => {
                    &&& final(self).runners@.len() == old(self).runners@.len() + 1
                    &&& seq == 0
                    &&& final(self).runners@.last().guild_id == guild_id
                    &&& final(self).runners@.last().state is Starting
                    &&& final(self).runners@.last().vm == Some(
                        (crate::runner::VmSession {
                            created_seq: 0u64,
                            premium_tier,
                            scripts,
                            ready: false,
                        }),
                    )
                },
            },
    {
        let idx = self.find_runner(guild_id);
        match idx {
            Some(i) => {
                proof {
                    let si = old(self).spec_find_runner(guild_id);
                    assert(si is Some);
                    assert(si.unwrap() == i as int);
                }
                let r = &mut self.runners[i];
                r.create_scripts_vm(premium_tier, scripts)
            },
            None => {
                let mut r = GuildRunner::new(guild_id, self.queue_cap);
                let seq = r.create_scripts_vm(premium_tier, scripts);
                self.runners.push(r);
                seq
            },
        }
    }

    /// Forward a VM's `Hello(seq)` to its tenant's runner. Out-of-date or
    /// unknown greetings are ignored.
    pub fn handle_hello(&mut self, guild_id: u64, seq: u64) -> (accepted: bool)
        requires
            old(self).wf(),
        ensures
            final(self).wf(),
            final(self).queue_cap == old(self).queue_cap,
            final(self).runners@.len() == old(self).runners@.len(),
            forall|j: int|
                0 <= j < old(self).runners@.len() && old(self).runners@[j].guild_id
                    != guild_id ==> final(self).runners@[j] == old(self).runners@[j],
            match old(self).spec_find_runner(guild_id) {
                Some(i) => {
                    let pre = old(self).runners@[i];
                    &&& accepted == (pre.state is Starting && pre.vm.unwrap().created_seq
                        == seq)
                    &&& (accepted ==> final(self).runners@[i].state is Running)
                    &&& (!accepted ==> final(self).runners@[i] == pre)
                },
                None => !accepted && final(self).runners@ =~= old(self).runners@,
            },
    {
        let idx = self.find_runner(guild_id);
        match idx {
            Some(i) => {
                proof {
                    let si = old(self).spec_find_runner(guild_id);
                    assert(si is Some);
                    assert(si.unwrap() == i as int);
                }
                let r = &mut self.runners[i];
                r.handle_hello(seq)
            },
            None => false,
        }
    }

    /// Forward a VM's `Ack(seq)` to its tenant's runner. Stale or unknown
    /// acknowledgements are counted and dropped.
    pub fn handle_ack(&mut self, guild_id: u64, seq: u64) -> (accepted: bool)
        requires
            old(self).wf(),
            old(self).counters_have_headroom(),
            forall|i: int|
                0 <= i < old(self).runners@.len() ==> (#[trigger] old(
                    self,
                ).runners@[i]).stale_ack_count < u64::MAX,
        ensures
            final(self).wf(),
            final(self).queue_cap == old(self).queue_cap,
            final(self).runners@.len() == old(self).runners@.len(),
            forall|j: int|
                0 <= j < old(self).runners@.len() && old(self).runners@[j].guild_id
                    != guild_id ==> final(self).runners@[j] == old(self).runners@[j],
            match old(self).spec_find_runner(guild_id) {
                Some(i) => {
                    let pre = old(self).runners@[i];
                    let post = final(self).runners@[i];
                    &&& accepted == (pre.current_dispatch == Some(seq))
                    &&& (accepted ==> post.current_dispatch is None && post.acked@
                        =~= pre.acked@.push(seq))
                    &&& (!accepted ==> post.current_dispatch == pre.current_dispatch
                        && post.acked@ =~= pre.acked@ && post.stale_ack_count
                        == pre.stale_ack_count + 1)
                    &&& post.state == pre.state
                    &&& post.vm == pre.vm
                    &&& post.queue == pre.queue
                    &&& post.next_seq == pre.next_seq
                    &&& post.issued@ =~= pre.issued@
                    &&& post.accepted@ =~= pre.accepted@
                    &&& post.overflow_count == pre.overflow_count
                    &&& post.pending_create == pre.pending_create
                },
                None => !accepted && final(self).runners@ =~= old(self).runners@,
            },
    {
        let idx = self.find_runner(guild_id);
        match idx {
            Some(i) => {
                proof {
                    let si = old(self).spec_find_runner(guild_id);
                    assert(si is Some);
                    assert(si.unwrap() == i as int);
                }
                let r = &mut self.runners[i];
                r.handle_ack(seq)
            },
            None => false,
        }
    }

    /// Hand a tenant's next queued event to its VM, if it is running and no
    /// dispatch is outstanding.
    pub fn pump_next(&mut self, guild_id: u64) -> (r: Option<VmDispatchEvent>)
        requires
            old(self).wf(),
        ensures
            final(self).wf(),
            final(self).queue_cap == old(self).queue_cap,
            final(self).runners@.len() == old(self).runners@.len(),
            forall|j: int|
                0 <= j < old(self).runners@.len() && old(self).runners@[j].guild_id
                    != guild_id ==> final(self).runners@[j] == old(self).runners@[j],
            match old(self).spec_find_runner(guild_id) {
                Some(i) => {
                    let pre = old(self).runners@[i];
                    let post = final(self).runners@[i];
                    &&& ((pre.state is Running && pre.current_dispatch is None
                        && pre.queue@.len() > 0) ==> {
                        let ev = pre.queue@[0];
                        &&& r == Some(
                            (VmDispatchEvent { name: ev.name, seq: ev.seq, value: ev.value }),
                        )
                        &&& post.queue@ =~= pre.queue@.skip(1)
                        &&& post.issued@ =~= pre.issued@.push(ev.seq)
                        &&& post.current_dispatch == Some(ev.seq)
                        &&& post.state == pre.state
                        &&& post.vm == pre.vm
                        &&& post.acked@ =~= pre.acked@
                        &&& post.accepted@ =~= pre.accepted@
                        &&& post.next_seq == pre.next_seq
                        &&& post.overflow_count == pre.overflow_count
                        &&& post.pending_create == pre.pending_create
                    })
                    &&& (!(pre.state is Running && pre.current_dispatch is None
                        && pre.queue@.len() > 0) ==> r is None && post == pre)
                },
                None => r is None && final(self).runners@ =~= old(self).runners@,
            },
    {
        let idx = self.find_runner(guild_id);
        match idx {
            Some(i) => {
                proof {
                    let si = old(self).spec_find_runner(guild_id);
                    assert(si is Some);
                    assert(si.unwrap() == i as int);
                }
                let running = self.runners[i].state == RunnerState::Running;
                if running {
                    let r = &mut self.runners[i];
                    r.pump_next()
                } else {
                    None
                }
            },
            None => None,
        }
    }

    /// Number of runners that currently hold a resident VM, the quantity the
    /// worker's resource caps are measured against.
    pub fn resident_vm_count(&self) -> (n: usize)
        ensures
            n == resident_vms(self.runners@),
    {
        let mut n: usize = 0;
        let mut i: usize = 0;
        while i < self.runners.len()
            invariant
                i <= self.runners@.len(),
                n <= i,
                n == resident_vms(self.runners@.take(i as int)),
            decreases self.runners@.len() - i,
        {
            proof {
                assert(self.runners@.take(i + 1).drop_last() =~= self.runners@.take(i as int));
                assert(self.runners@.take(i + 1).last() == self.runners@[i as int]);
            }
            if self.runners[i].vm.is_some() {
                n = n + 1;
            }
            i = i + 1;
        }
        proof {
            assert(self.runners@.take(self.runners@.len() as int) =~= self.runners@);
        }
        n
    }

    /// Evict the least-recently-used idle runner: among runners in `Idle`,
    /// remove the one whose last accepted event is oldest. Returns the
    /// evicted tenant, or `None` when no runner is idle.
    #[verifier::rlimit(80)]
    pub fn evict_lru_idle(&mut self) -> (evicted: Option<u64>)
        requires
            old(self).wf(),
        ensures
            final(self).wf(),
            final(self).queue_cap == old(self).queue_cap,
            match evicted {
                Some(g) => {
                    &&& exists|i: int|
                        {
                            &&& 0 <= i < old(self).runners@.len()
                            &&& (#[trigger] old(self).runners@[i]).guild_id == g
                            &&& old(self).runners@[i].state is Idle
                            &&& final(self).runners@ =~= old(self).runners@.remove(i)
                            &&& forall|j: int|
                                0 <= j < old(self).runners@.len() && old(
                                    self,
                                ).runners@[j].state is Idle ==> old(self).runners@[i].last_event_ms
                                    <= (#[trigger] old(self).runners@[j]).last_event_ms
                        }
                },
                None => {
                    &&& final(self).runners@ =~= old(self).runners@
                    &&& forall|j: int|
                        0 <= j < old(self).runners@.len() ==> !((#[trigger] old(
                            self,
                        ).runners@[j]).state is Idle)
                },
            },
    {
        let mut best: Option<usize> = None;
        let mut i: usize = 0;
        while i < self.runners.len()
            invariant
                i <= self.runners@.len(),
                match best {
                    Some(b) => {
                        &&& b < i
                        &&& self.runners@[b as int].state is Idle
                        &&& forall|j: int|
                            0 <= j < i && self.runners@[j].state is Idle ==> self.runners@[
                                b as int
                            ].last_event_ms <= (#[trigger] self.runners@[j]).last_event_ms
                    },
                    None => forall|j: int|
                        0 <= j < i ==> !((#[trigger] self.runners@[j]).state is Idle),
                },
            decreases self.runners@.len() - i,
        {
            if self.runners[i].state == RunnerState::Idle {
                let better = match best {
                    Some(b) => self.runners[i].last_event_ms < self.runners[b].last_event_ms,
                    None => true,
                };
                if better {
                    best = Some(i);
                }
            }
            i = i + 1;
        }
        match best {
            Some(b) => {
                let r = self.runners.remove(b);
                proof {
                    let pre = old(self).runners@;
                    let post = self.runners@;
                    assert(post =~= pre.remove(b as int));
                    assert forall|k: int| 0 <= k < post.len() implies {
                        &&& (#[trigger] post[k]).wf()
                        &&& post[k].queue_cap == self.queue_cap
                        &&& post[k].last_time_ms <= self.clock_floor_ms
                        &&& post[k].last_event_ms <= self.clock_floor_ms
                    } by {
                        if k < b as int {
                            assert(post[k] == pre[k]);
                        } else {
                            assert(post[k] == pre[k + 1]);
                        }
                    }
                    assert forall|k: int, l: int| 0 <= k < l < post.len() implies post[k].guild_id
                        != post[l].guild_id by {
                        if l < b as int {
                            assert(post[k] == pre[k] && post[l] == pre[l]);
                        } else if k < b as int {
                            assert(post[k] == pre[k] && post[l] == pre[l + 1]);
                        } else {
                            assert(post[k] == pre[k + 1] && post[l] == pre[l + 1]);
                        }
                    }
                }
                Some(r.guild_id)
            },
            None => None,
        }
    }

    /// Read access to one tenant's runner.
    pub fn get_runner(&self, guild_id: u64) -> (r: Option<&GuildRunner>)
        ensures
            match r {
                Some(g) => g.guild_id == guild_id && exists|i: int|
                    0 <= i < self.runners@.len() && *g == (#[trigger] self.runners@[i]),
                None => forall|i: int|
                    0 <= i < self.runners@.len() ==> (#[trigger] self.runners@[i]).guild_id
                        != guild_id,
            },
    {
        let idx = self.find_runner(guild_id);
        match idx {
            Some(i) => Some(&self.runners[i]),
            None => None,
        }
    }
}

/// How many runners hold a resident VM.
pub open spec fn resident_vms(rs: Seq<GuildRunner>) -> int
    decreases rs.len(),
{
    if rs.len() == 0 {
        0
    } else {
        resident_vms(rs.drop_last()) + if rs.last().vm is Some {
            1int
        } else {
            0int
        }
    }
}

/// At most one VM is live per tenant on a worker: tenants own at most one
/// runner each, and a runner owns at most one VM.
pub proof fn lemma_at_most_one_vm_per_tenant(s: &Scheduler)
    requires
        s.wf(),
    ensures
        forall|i: int, j: int|
            0 <= i < j < s.runners@.len() ==> s.runners@[i].guild_id != s.runners@[j].guild_id,
        forall|i: int|
            0 <= i < s.runners@.len() ==> (#[trigger] s.runners@[i]).vm_count() <= 1,
{
    assert forall|i: int| 0 <= i < s.runners@.len() implies (#[trigger] s.runners@[i]).vm_count()
        <= 1 by {
        assert(s.runners@[i].wf());
    }
}

} // verus!
