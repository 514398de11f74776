//! Per-tenant runner: the state machine that owns a tenant's script VM, its
//! pending event queue, and the sequence discipline between runner and VM.
//!
//! The runner assigns a monotonic sequence number to every outbound message,
//! delivers queued events to the VM strictly in acceptance order, and matches
//! each inbound acknowledgement against the single outstanding dispatch.

use vstd::prelude::*;

use crate::abuse::{
    ledger_after_failure, ledger_at_or_before, suspend_condition, DiscordOpsState,
};
use crate::json::JsonObj;
use crate::rpc::{PremiumSlotTier, Script, ShutdownReason, VmDispatchEvent};

verus! {

pub open spec fn strictly_increasing(s: Seq<u64>) -> bool {
    forall|i: int, j: int| 0 <= i < j < s.len() ==> s[i] < s[j]
}

pub open spec fn all_below(s: Seq<u64>, bound: u64) -> bool {
    forall|i: int| 0 <= i < s.len() ==> s[i] < bound
}

/// Every element of `a` occurs in `b`.
pub open spec fn seq_subset(a: Seq<u64>, b: Seq<u64>) -> bool {
    forall|i: int| 0 <= i < a.len() ==> b.contains(a[i])
}

/// Lifecycle state of a tenant runner.
#[derive(Clone, Copy, Debug, PartialEq, Eq, Structural)]
pub enum RunnerState {
    /// No VM resident; the tenant is waiting for its first event.
    Idle,
    /// A VM was created and has not yet reported ready.
    Starting,
    /// The VM is ready and consuming dispatches.
    Running,
    /// The script set changed; waiting for outstanding work before restarting.
    Draining,
    /// The tenant is suspended; events are dropped until a manual reload.
    Suspended(ShutdownReason),
}

/// One resident script VM.
#[derive(Clone, Debug, PartialEq, Eq)]
pub struct VmSession {
    /// Sequence number of the request this VM answers with `Hello`.
    pub created_seq: u64,
    pub premium_tier: Option<PremiumSlotTier>,
    pub scripts: Vec<Script>,
    /// The VM reported `Hello(created_seq)`.
    pub ready: bool,
}

/// An accepted event waiting in the tenant's bounded FIFO.
#[derive(Clone, Debug, PartialEq, Eq)]
pub struct QueuedEvent {
    pub seq: u64,
    pub name: String,
    pub value: JsonObj,
}

pub open spec fn queue_seqs(q: Seq<QueuedEvent>) -> Seq<u64> {
    q.map(|i: int, e: QueuedEvent| e.seq)
}

/// A subset relation survives appending on the right side.
pub proof fn lemma_seq_subset_push_right(a: Seq<u64>, b: Seq<u64>, x: u64)
    requires
        seq_subset(a, b),
    ensures
        seq_subset(a, b.push(x)),
{
    assert forall|i: int| 0 <= i < a.len() implies b.push(x).contains(a[i]) by {
        assert(b.contains(a[i]));
        let j = choose|j: int| 0 <= j < b.len() && b[j] == a[i];
        assert(b.push(x)[j] == a[i]);
    }
}

/// A subset relation survives appending the same element to both sides.
pub proof fn lemma_seq_subset_push_both(a: Seq<u64>, b: Seq<u64>, x: u64)
    requires
        seq_subset(a, b),
    ensures
        seq_subset(a.push(x), b.push(x)),
{
    lemma_seq_subset_push_right(a, b, x);
    assert forall|i: int| 0 <= i < a.push(x).len() implies b.push(x).contains(a.push(x)[i]) by {
        if i < a.len() {
            assert(a.push(x)[i] == a[i]);
        } else {
            assert(a.push(x)[i] == x);
            assert(b.push(x)[b.len() as int] == x);
        }
    }
}

/// A subset relation survives dropping a prefix on the left side.
pub proof fn lemma_seq_subset_skip(a: Seq<u64>, b: Seq<u64>, n: int)
    requires
        seq_subset(a, b),
        0 <= n <= a.len(),
    ensures
        seq_subset(a.skip(n), b),
{
    assert forall|i: int| 0 <= i < a.skip(n).len() implies b.contains(a.skip(n)[i]) by {
        assert(a.skip(n)[i] == a[i + n]);
    }
}

/// Per-tenant execution coordinator. Owns the (at most one) VM session, the
/// pending event queue, the abuse ledger, and the sequence counters.
pub struct GuildRunner {
    pub guild_id: u64,
    pub state: RunnerState,
    pub vm: Option<VmSession>,
    pub queue: Vec<QueuedEvent>,
    pub queue_cap: usize,
    /// Events dropped because the queue was full.
    pub overflow_count: u64,
    /// Acknowledgements that matched no outstanding dispatch.
    pub stale_ack_count: u64,
    /// Next sequence number to assign to an outbound message.
    pub next_seq: u64,
    /// Sequence number of the dispatch the VM is currently consuming.
    pub current_dispatch: Option<u64>,
    /// Script set to install once draining completes.
    pub pending_create: Option<(u64, Option<PremiumSlotTier>, Vec<Script>)>,
    /// Sliding window of recent failed platform requests.
    pub ops: DiscordOpsState,
    /// Latest clock value this runner has observed (milliseconds).
    pub last_time_ms: u64,
    /// Arrival time of the most recently accepted event (milliseconds);
    /// drives least-recently-used eviction of idle runners.
    pub last_event_ms: u64,
    /// History of sequence numbers assigned to accepted events.
    pub accepted: Ghost<Seq<u64>>,
    /// History of dispatch sequence numbers handed to the VM, in hand-over order.
    pub issued: Ghost<Seq<u64>>,
    /// History of acknowledged dispatch sequence numbers, in arrival order.
    pub acked: Ghost<Seq<u64>>,
}

impl GuildRunner {
    /// States in which a VM is resident.
    pub open spec fn has_vm_state(&self) -> bool {
        self.state is Starting || self.state is Running || self.state is Draining
    }

    /// Number of live VMs this runner owns.
    pub open spec fn vm_count(&self) -> int {
        if self.vm is Some {
            1
        } else {
            0
        }
    }

    pub open spec fn wf(&self) -> bool {
        &&& self.queue_cap > 0
        &&& self.queue@.len() <= self.queue_cap
        &&& (self.vm is Some <==> self.has_vm_state())
        &&& (self.pending_create is Some <==> self.state is Draining)
        &&& (self.vm is Some ==> (self.vm.unwrap().ready <==> !(self.state is Starting)))
        &&& strictly_increasing(queue_seqs(self.queue@))
        &&& all_below(queue_seqs(self.queue@), self.next_seq)
        &&& strictly_increasing(self.issued@)
        &&& all_below(self.issued@, self.next_seq)
        &&& strictly_increasing(self.acked@)
        &&& seq_subset(self.acked@, self.issued@)
        &&& strictly_increasing(self.accepted@)
        &&& all_below(self.accepted@, self.next_seq)
        &&& seq_subset(queue_seqs(self.queue@), self.accepted@)
        &&& seq_subset(self.issued@, self.accepted@)
        &&& (forall|i: int, j: int|
            0 <= i < self.issued@.len() && 0 <= j < self.queue@.len()
                ==> self.issued@[i] < queue_seqs(self.queue@)[j])
        &&& (self.current_dispatch is Some ==> {
            let s = self.current_dispatch.unwrap();
            &&& self.issued@.len() > 0
            &&& self.issued@.last() == s
            &&& (forall|i: int| 0 <= i < self.acked@.len() ==> self.acked@[i] < s)
            &&& (self.state is Running || self.state is Draining)
        })
        &&& self.ops.wf()
        &&& ledger_at_or_before(self.ops@, self.last_time_ms)
    }

    /// A fresh runner for one tenant: idle, empty queue, empty histories.
    pub fn new(guild_id: u64, queue_cap: usize) -> (r: GuildRunner)
        requires
            queue_cap > 0,
        ensures
            r.wf(),
            r.guild_id == guild_id,
            r.state is Idle,
            r.vm is None,
            r.queue@ =~= Seq::<QueuedEvent>::empty(),
            r.queue_cap == queue_cap,
            r.overflow_count == 0,
            r.next_seq == 0,
            r.accepted@ =~= Seq::<u64>::empty(),
            r.issued@ =~= Seq::<u64>::empty(),
            r.acked@ =~= Seq::<u64>::empty(),
            r.ops@ =~= Seq::<u64>::empty(),
            r.current_dispatch is None,
            r.pending_create is None,
            r.stale_ack_count == 0,
            r.last_time_ms == 0,
            r.last_event_ms == 0,
    {
        GuildRunner {
            guild_id,
            state: RunnerState::Idle,
            vm: None,
            queue: Vec::new(),
            queue_cap,
            overflow_count: 0,
            stale_ack_count: 0,
            next_seq: 0,
            current_dispatch: None,
            pending_create: None,
            ops: DiscordOpsState::new(),
            last_time_ms: 0,
            last_event_ms: 0,
            accepted: Ghost(Seq::empty()),
            issued: Ghost(Seq::empty()),
            acked: Ghost(Seq::empty()),
        }
    }

    /// Accept one event into the bounded FIFO, assigning it the next
    /// sequence number. When the queue is full the oldest undelivered event
    /// is dropped and the overflow counter increments by exactly one.
    pub fn accept_event(&mut self, name: String, value: JsonObj, now_ms: u64)
        requires
            old(self).wf(),
            !(old(self).state is Suspended),
            old(self).next_seq < u64::MAX,
            old(self).overflow_count < u64::MAX,
            now_ms >= old(self).last_event_ms,
        ensures
            final(self).last_event_ms == now_ms,
            final(self).wf(),
            final(self).next_seq == old(self).next_seq + 1,
            final(self).last_time_ms == old(self).last_time_ms,
            final(self).ops == old(self).ops,
            final(self).stale_ack_count == old(self).stale_ack_count,
            final(self).pending_create == old(self).pending_create,
            final(self).accepted@ =~= old(self).accepted@.push(old(self).next_seq),
            ({
                let ev = QueuedEvent { seq: old(self).next_seq, name, value };
                if old(self).queue@.len() == old(self).queue_cap {
                    &&& final(self).queue@ =~= old(self).queue@.skip(1).push(ev)
                    &&& final(self).overflow_count == old(self).overflow_count + 1
                } else {
                    &&& final(self).queue@ =~= old(self).queue@.push(ev)
                    &&& final(self).overflow_count == old(self).overflow_count
                }
            }),
            final(self).state == old(self).state,
            final(self).vm == old(self).vm,
            final(self).current_dispatch == old(self).current_dispatch,
            final(self).issued@ =~= old(self).issued@,
            final(self).acked@ =~= old(self).acked@,
            final(self).guild_id == old(self).guild_id,
            final(self).queue_cap == old(self).queue_cap,
    {
        let seq = self.next_seq;
        self.next_seq = self.next_seq + 1;
        self.last_event_ms = now_ms;
        proof {
            self.accepted@ = self.accepted@.push(seq);
        }
        if self.queue.len() == self.queue_cap {
            self.queue.remove(0);
            self.overflow_count = self.overflow_count + 1;
        }
        self.queue.push(QueuedEvent { seq, name, value });
        proof {
            let oldq = queue_seqs(old(self).queue@);
            let oldacc = old(self).accepted@;
            lemma_seq_subset_push_right(self.issued@, oldacc, seq);
            if old(self).queue@.len() == old(self).queue_cap {
                assert(queue_seqs(self.queue@) =~= oldq.skip(1).push(seq));
                lemma_seq_subset_skip(oldq, oldacc, 1);
                lemma_seq_subset_push_both(oldq.skip(1), oldacc, seq);
            } else {
                assert(queue_seqs(self.queue@) =~= oldq.push(seq));
                lemma_seq_subset_push_both(oldq, oldacc, seq);
            }
        }
    }

    /// Install a new script set. While the VM is busy (running or already
    /// draining) the runner enters `Draining` and remembers the request;
    /// otherwise the old VM (if any) is torn down and a fresh one starts.
    /// Returns the sequence number assigned to the request, which the new
    /// VM answers with `Hello`.
    pub fn create_scripts_vm(
        &mut self,
        premium_tier: Option<PremiumSlotTier>,
        scripts: Vec<Script>,
    ) -> (seq: u64)
        requires
            old(self).wf(),
            old(self).next_seq < u64::MAX,
        ensures
            final(self).wf(),
            seq == old(self).next_seq,
            final(self).next_seq == old(self).next_seq + 1,
            (old(self).state is Running || old(self).state is Draining) ==> {
                &&& final(self).state is Draining
                &&& final(self).pending_create == Some((seq, premium_tier, scripts))
                &&& final(self).vm == old(self).vm
                &&& final(self).current_dispatch == old(self).current_dispatch
            },
            !(old(self).state is Running || old(self).state is Draining) ==> {
                &&& final(self).state is Starting
                &&& final(self).vm == Some(
                    (VmSession { created_seq: seq, premium_tier, scripts, ready: false }),
                )
                &&& final(self).pending_create is None
                &&& final(self).current_dispatch is None
            },
            final(self).queue == old(self).queue,
            final(self).overflow_count == old(self).overflow_count,
            final(self).accepted@ =~= old(self).accepted@,
            final(self).issued@ =~= old(self).issued@,
            final(self).acked@ =~= old(self).acked@,
            final(self).guild_id == old(self).guild_id,
            final(self).ops == old(self).ops,
            final(self).queue_cap == old(self).queue_cap,
            final(self).last_time_ms == old(self).last_time_ms,
            final(self).last_event_ms == old(self).last_event_ms,
            final(self).stale_ack_count == old(self).stale_ack_count,
    {
        let seq = self.next_seq;
        self.next_seq = self.next_seq + 1;
        match self.state {
            RunnerState::Running | RunnerState::Draining => {
                self.state = RunnerState::Draining;
                self.pending_create = Some((seq, premium_tier, scripts));
            },
            _ => {
                self.state = RunnerState::Starting;
                self.vm = Some(VmSession { created_seq: seq, premium_tier, scripts, ready: false });
                self.pending_create = None;
                self.current_dispatch = None;
            },
        }
        seq
    }

    /// Draining has completed (all outstanding work resolved, or the grace
    /// timer expired): abandon any outstanding dispatch and start the VM
    /// recorded by the pending request.
    pub fn finish_drain(&mut self)
        requires
            old(self).wf(),
            old(self).state is Draining,
        ensures
            final(self).wf(),
            final(self).state is Starting,
            ({
                let (seq, tier, scripts) = old(self).pending_create.unwrap();
                final(self).vm == Some(
                    (VmSession { created_seq: seq, premium_tier: tier, scripts, ready: false }),
                )
            }),
            final(self).pending_create is None,
            final(self).current_dispatch is None,
            final(self).queue == old(self).queue,
            final(self).next_seq == old(self).next_seq,
            final(self).accepted@ =~= old(self).accepted@,
            final(self).issued@ =~= old(self).issued@,
            final(self).acked@ =~= old(self).acked@,
            final(self).guild_id == old(self).guild_id,
            final(self).ops == old(self).ops,
            final(self).overflow_count == old(self).overflow_count,
            final(self).queue_cap == old(self).queue_cap,
            final(self).last_time_ms == old(self).last_time_ms,
            final(self).last_event_ms == old(self).last_event_ms,
            final(self).stale_ack_count == old(self).stale_ack_count,
    {
        let pending = self.pending_create.take();
        match pending {
            Some((seq, tier, scripts)) => {
                self.vm = Some(
                    VmSession { created_seq: seq, premium_tier: tier, scripts, ready: false },
                );
                self.state = RunnerState::Starting;
                self.current_dispatch = None;
            },
            None => {
                proof {
                    assert(false);
                }
            },
        }
    }

    /// A VM reported readiness with the sequence number of the request it
    /// answers. Out-of-date `Hello`s are ignored.
    pub fn handle_hello(&mut self, seq: u64) -> (accepted: bool)
        requires
            old(self).wf(),
        ensures
            final(self).wf(),
            accepted == (old(self).state is Starting && old(self).vm.unwrap().created_seq
                == seq),
            accepted ==> {
                &&& final(self).state is Running
                &&& final(self).vm == Some(
                    (VmSession { ready: true, ..old(self).vm.unwrap() }),
                )
                &&& final(self).queue == old(self).queue
                &&& final(self).current_dispatch == old(self).current_dispatch
                &&& final(self).issued@ =~= old(self).issued@
                &&& final(self).acked@ =~= old(self).acked@
                &&& final(self).accepted@ =~= old(self).accepted@
                &&& final(self).next_seq == old(self).next_seq
                &&& final(self).guild_id == old(self).guild_id
                &&& final(self).ops == old(self).ops
                &&& final(self).queue_cap == old(self).queue_cap
                &&& final(self).last_time_ms == old(self).last_time_ms
                &&& final(self).last_event_ms == old(self).last_event_ms
                &&& final(self).stale_ack_count == old(self).stale_ack_count
                &&& final(self).overflow_count == old(self).overflow_count
                &&& final(self).pending_create == old(self).pending_create
            },
            !accepted ==> *final(self) == *old(self),
    {
        let mut accepted = false;
        if self.state == RunnerState::Starting {
            if let Some(v) = &self.vm {
                if v.created_seq == seq {
                    accepted = true;
                }
            }
        }
        if accepted {
            if let Some(v) = &mut self.vm {
                v.ready = true;
            }
            self.state = RunnerState::Running;
        }
        accepted
    }

    /// Match an inbound acknowledgement against the outstanding dispatch.
    /// A stale or unknown sequence number is counted and dropped.
    pub fn handle_ack(&mut self, seq: u64) -> (accepted: bool)
        requires
            old(self).wf(),
            old(self).stale_ack_count < u64::MAX,
        ensures
            final(self).wf(),
            accepted == (old(self).current_dispatch == Some(seq)),
            accepted ==> {
                &&& final(self).current_dispatch is None
                &&& final(self).acked@ =~= old(self).acked@.push(seq)
                &&& final(self).stale_ack_count == old(self).stale_ack_count
            },
            !accepted ==> {
                &&& final(self).current_dispatch == old(self).current_dispatch
                &&& final(self).acked@ =~= old(self).acked@
                &&& final(self).stale_ack_count == old(self).stale_ack_count + 1
            },
            final(self).state == old(self).state,
            final(self).vm == old(self).vm,
            final(self).queue == old(self).queue,
            final(self).next_seq == old(self).next_seq,
            final(self).issued@ =~= old(self).issued@,
            final(self).accepted@ =~= old(self).accepted@,
            final(self).guild_id == old(self).guild_id,
            final(self).ops == old(self).ops,
            final(self).overflow_count == old(self).overflow_count,
            final(self).pending_create == old(self).pending_create,
            final(self).queue_cap == old(self).queue_cap,
            final(self).last_time_ms == old(self).last_time_ms,
            final(self).last_event_ms == old(self).last_event_ms,
    {
        let matched = match self.current_dispatch {
            Some(s) => s == seq,
            None => false,
        };
        if matched {
            self.current_dispatch = None;
            proof {
                self.acked@ = self.acked@.push(seq);
                assert(self.issued@.last() == seq);
                assert(self.issued@.contains(seq)) by {
                    assert(self.issued@[self.issued@.len() - 1] == seq);
                }
            }
            true
        } else {
            self.stale_ack_count = self.stale_ack_count + 1;
            false
        }
    }

    /// The VM finished the current dispatch (a `Complete` signal without a
    /// sequence number): retire the outstanding dispatch, if any.
    pub fn handle_complete(&mut self)
        requires
            old(self).wf(),
        ensures
            final(self).wf(),
            old(self).current_dispatch is Some ==> {
                &&& final(self).current_dispatch is None
                &&& final(self).acked@ =~= old(self).acked@.push(
                    old(self).current_dispatch.unwrap(),
                )
            },
            old(self).current_dispatch is None ==> *final(self) == *old(self),
            final(self).state == old(self).state,
            final(self).vm == old(self).vm,
            final(self).queue == old(self).queue,
            final(self).issued@ =~= old(self).issued@,
            final(self).accepted@ =~= old(self).accepted@,
            final(self).next_seq == old(self).next_seq,
            final(self).guild_id == old(self).guild_id,
            final(self).ops == old(self).ops,
            final(self).queue_cap == old(self).queue_cap,
            final(self).last_time_ms == old(self).last_time_ms,
            final(self).last_event_ms == old(self).last_event_ms,
            final(self).stale_ack_count == old(self).stale_ack_count,
            final(self).overflow_count == old(self).overflow_count,
            final(self).pending_create == old(self).pending_create,
            final(self).vm == old(self).vm,
    {
        if let Some(s) = self.current_dispatch {
            self.current_dispatch = None;
            proof {
                self.acked@ = self.acked@.push(s);
                assert(self.issued@.contains(s)) by {
                    assert(self.issued@[self.issued@.len() - 1] == s);
                }
            }
        }
    }

    /// Hand the next queued event to the VM, if it is ready and no dispatch
    /// is outstanding. Events leave the queue strictly in acceptance order.
    pub fn pump_next(&mut self) -> (r: Option<VmDispatchEvent>)
        requires
            old(self).wf(),
            old(self).state is Running,
        ensures
            final(self).wf(),
            (old(self).current_dispatch is None && old(self).queue@.len() > 0) ==> {
                let ev = old(self).queue@[0];
                &&& r == Some(
                    (VmDispatchEvent { name: ev.name, seq: ev.seq, value: ev.value }),
                )
                &&& final(self).queue@ =~= old(self).queue@.skip(1)
                &&& final(self).issued@ =~= old(self).issued@.push(ev.seq)
                &&& final(self).current_dispatch == Some(ev.seq)
            },
            !(old(self).current_dispatch is None && old(self).queue@.len() > 0) ==> {
                &&& r is None
                &&& *final(self) == *old(self)
            },
            final(self).state == old(self).state,
            final(self).vm == old(self).vm,
            final(self).acked@ =~= old(self).acked@,
            final(self).accepted@ =~= old(self).accepted@,
            final(self).next_seq == old(self).next_seq,
            final(self).guild_id == old(self).guild_id,
            final(self).ops == old(self).ops,
            final(self).overflow_count == old(self).overflow_count,
            final(self).queue_cap == old(self).queue_cap,
            final(self).last_time_ms == old(self).last_time_ms,
            final(self).last_event_ms == old(self).last_event_ms,
            final(self).stale_ack_count == old(self).stale_ack_count,
            final(self).pending_create == old(self).pending_create,
    {
        if self.current_dispatch.is_none() && self.queue.len() > 0 {
            let ev = self.queue.remove(0);
            let seq = ev.seq;
            self.current_dispatch = Some(seq);
            proof {
                self.issued@ = self.issued@.push(seq);
                let oldq = queue_seqs(old(self).queue@);
                assert(oldq[0] == seq);
                assert(queue_seqs(self.queue@) =~= oldq.skip(1));
                lemma_seq_subset_push_right(self.acked@, old(self).issued@, seq);
                // The pushed element was an accepted event.
                assert(old(self).accepted@.contains(seq));
                lemma_seq_subset_skip(oldq, old(self).accepted@, 1);
                assert forall|i: int| 0 <= i < self.acked@.len() implies self.acked@[i]
                    < seq by {
                    assert(old(self).issued@.contains(self.acked@[i]));
                    let j = choose|j: int|
                        0 <= j < old(self).issued@.len() && old(self).issued@[j]
                            == self.acked@[i];
                    assert(old(self).issued@[j] < oldq[0]);
                }
                assert forall|i: int| 0 <= i < self.issued@.len() implies old(
                    self,
                ).accepted@.contains(self.issued@[i]) by {
                    if i < old(self).issued@.len() {
                        assert(self.issued@[i] == old(self).issued@[i]);
                    } else {
                        assert(self.issued@[i] == seq);
                    }
                }
            }
            Some(VmDispatchEvent { name: ev.name, seq, value: ev.value })
        } else {
            None
        }
    }

    /// The VM reported that it shut itself down. On `Other` the runner
    /// restarts it with the same script set under a fresh sequence number;
    /// on any abnormal reason the tenant is left suspended.
    pub fn handle_vm_shutdown(&mut self, reason: ShutdownReason)
        requires
            old(self).wf(),
            old(self).vm is Some,
            old(self).next_seq < u64::MAX,
        ensures
            final(self).wf(),
            reason is Other ==> {
                &&& final(self).state is Starting
                &&& final(self).vm == Some(
                    (VmSession {
                        created_seq: old(self).next_seq,
                        premium_tier: old(self).vm.unwrap().premium_tier,
                        scripts: old(self).vm.unwrap().scripts,
                        ready: false,
                    }),
                )
                &&& final(self).next_seq == old(self).next_seq + 1
            },
            !(reason is Other) ==> {
                &&& final(self).state == RunnerState::Suspended(reason)
                &&& final(self).vm is None
                &&& final(self).next_seq == old(self).next_seq
            },
            final(self).current_dispatch is None,
            final(self).pending_create is None,
            final(self).queue == old(self).queue,
            final(self).accepted@ =~= old(self).accepted@,
            final(self).issued@ =~= old(self).issued@,
            final(self).acked@ =~= old(self).acked@,
            final(self).guild_id == old(self).guild_id,
            final(self).ops == old(self).ops,
            final(self).overflow_count == old(self).overflow_count,
            final(self).queue_cap == old(self).queue_cap,
            final(self).last_time_ms == old(self).last_time_ms,
            final(self).last_event_ms == old(self).last_event_ms,
            final(self).stale_ack_count == old(self).stale_ack_count,
    {
        let old_vm = self.vm.take();
        self.current_dispatch = None;
        self.pending_create = None;
        match reason {
            ShutdownReason::Other => {
                let seq = self.next_seq;
                self.next_seq = self.next_seq + 1;
                match old_vm {
                    Some(v) => {
                        self.vm = Some(
                            VmSession {
                                created_seq: seq,
                                premium_tier: v.premium_tier,
                                scripts: v.scripts,
                                ready: false,
                            },
                        );
                        self.state = RunnerState::Starting;
                    },
                    None => {
                        proof {
                            assert(false);
                        }
                    },
                }
            },
            _ => {
                self.state = RunnerState::Suspended(reason);
            },
        }
    }

    /// Cooperative stop requested by the scheduler: tear the VM down and
    /// return to `Idle`.
    pub fn handle_shutdown_msg(&mut self)
        requires
            old(self).wf(),
        ensures
            final(self).wf(),
            final(self).state is Idle,
            final(self).vm is None,
            final(self).current_dispatch is None,
            final(self).pending_create is None,
            final(self).queue == old(self).queue,
            final(self).next_seq == old(self).next_seq,
            final(self).accepted@ =~= old(self).accepted@,
            final(self).issued@ =~= old(self).issued@,
            final(self).acked@ =~= old(self).acked@,
            final(self).guild_id == old(self).guild_id,
            final(self).ops == old(self).ops,
            final(self).queue_cap == old(self).queue_cap,
            final(self).last_time_ms == old(self).last_time_ms,
            final(self).last_event_ms == old(self).last_event_ms,
            final(self).stale_ack_count == old(self).stale_ack_count,
            final(self).overflow_count == old(self).overflow_count,
    {
        self.vm = None;
        self.current_dispatch = None;
        self.pending_create = None;
        self.state = RunnerState::Idle;
    }

    /// Idle timeout: the queue is empty and nothing is outstanding, so the
    /// VM is torn down to reclaim memory.
    pub fn go_idle(&mut self)
        requires
            old(self).wf(),
            old(self).state is Running,
            old(self).queue@.len() == 0,
            old(self).current_dispatch is None,
        ensures
            final(self).wf(),
            final(self).state is Idle,
            final(self).vm is None,
            final(self).queue == old(self).queue,
            final(self).next_seq == old(self).next_seq,
            final(self).accepted@ =~= old(self).accepted@,
            final(self).issued@ =~= old(self).issued@,
            final(self).acked@ =~= old(self).acked@,
            final(self).guild_id == old(self).guild_id,
            final(self).ops == old(self).ops,
            final(self).queue_cap == old(self).queue_cap,
            final(self).last_time_ms == old(self).last_time_ms,
            final(self).last_event_ms == old(self).last_event_ms,
            final(self).stale_ack_count == old(self).stale_ack_count,
            final(self).overflow_count == old(self).overflow_count,
            final(self).current_dispatch is None,
            final(self).pending_create is None,
    {
        self.vm = None;
        self.pending_create = None;
        self.state = RunnerState::Idle;
    }

    /// Record one failed platform request against this tenant's abuse
    /// ledger. When the ledger trips, the tenant transitions to
    /// `Suspended(TooManyInvalidRequests)` and its VM is torn down.
    pub fn record_failed_request(&mut self, now_ms: u64) -> (suspended: bool)
        requires
            old(self).wf(),
            now_ms >= old(self).last_time_ms,
        ensures
            final(self).wf(),
            final(self).ops@ =~= ledger_after_failure(old(self).ops@, now_ms),
            suspended == suspend_condition(final(self).ops@, now_ms),
            suspended ==> {
                &&& final(self).state == RunnerState::Suspended(
                    ShutdownReason::TooManyInvalidRequests,
                )
                &&& final(self).vm is None
                &&& final(self).current_dispatch is None
                &&& final(self).pending_create is None
            },
            !suspended ==> {
                &&& final(self).state == old(self).state
                &&& final(self).vm == old(self).vm
                &&& final(self).current_dispatch == old(self).current_dispatch
                &&& final(self).pending_create == old(self).pending_create
            },
            final(self).queue == old(self).queue,
            final(self).next_seq == old(self).next_seq,
            final(self).accepted@ =~= old(self).accepted@,
            final(self).issued@ =~= old(self).issued@,
            final(self).acked@ =~= old(self).acked@,
            final(self).guild_id == old(self).guild_id,
            final(self).last_time_ms == now_ms,
            final(self).overflow_count == old(self).overflow_count,
            final(self).queue_cap == old(self).queue_cap,
            final(self).last_event_ms == old(self).last_event_ms,
            final(self).stale_ack_count == old(self).stale_ack_count,
    {
        self.ops.add_failed_req(now_ms);
        self.last_time_ms = now_ms;
        let suspended = self.ops.should_suspend_guild(now_ms);
        if suspended {
            self.vm = None;
            self.current_dispatch = None;
            self.pending_create = None;
            self.state = RunnerState::Suspended(ShutdownReason::TooManyInvalidRequests);
        }
        suspended
    }
}

/// At most one VM is live per tenant, in exactly the lifecycle states that
/// own one.
pub proof fn lemma_at_most_one_vm(r: &GuildRunner)
    requires
        r.wf(),
    ensures
        r.vm_count() <= 1,
        r.vm_count() == 1 <==> r.has_vm_state(),
{
}

/// Events are handed to the VM strictly in acceptance order: the issued
/// history is a strictly increasing run of accepted sequence numbers, so the
/// VM observes accepted events in order, modulo overflow drops.
pub proof fn lemma_delivery_in_acceptance_order(r: &GuildRunner)
    requires
        r.wf(),
    ensures
        strictly_increasing(r.accepted@),
        strictly_increasing(r.issued@),
        seq_subset(r.issued@, r.accepted@),
{
}

/// Acknowledgement discipline: every acknowledged sequence number was an
/// issued dispatch, and no sequence number is acknowledged twice.
pub proof fn lemma_ack_discipline(r: &GuildRunner)
    requires
        r.wf(),
    ensures
        seq_subset(r.acked@, r.issued@),
        strictly_increasing(r.acked@),
        forall|i: int, j: int|
            0 <= i < r.acked@.len() && 0 <= j < r.acked@.len() && i != j ==> r.acked@[i]
                != r.acked@[j],
{
}

} // verus!
