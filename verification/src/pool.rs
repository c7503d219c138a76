use vstd::prelude::*;

verus! {

/// Upper bound on how many jobs one batch steal moves from the shared
/// injector into a worker's local deque.
pub const STEAL_BATCH: usize = 32;

/// One worker thread's scheduling state, as the pool sees it.
pub struct WorkerSlot {
    /// Jobs this worker has claimed by batch steal but not yet started,
    /// oldest claim first.
    pub local: Vec<u64>,
    /// The job this worker is currently executing, if any.
    pub running: Option<u64>,
    /// Whether this worker observed the shutdown signal and exited its loop.
    pub stopped: bool,
    /// Whether this worker was spawned as a panic-recovery replacement.
    pub recovered: bool,
}

/// The pool's job-accounting state: the shared injector, one slot per worker,
/// and the two ways a job's completion channel can resolve. Each job is
/// identified by the submission counter value it was given.
///
/// This is the protocol that the threaded runner follows, with one transition
/// per atomic scheduling event; any interleaving of submitters and workers is
/// some sequence of these transitions, and every transition preserves
/// `wf`, so the conservation properties hold under arbitrary concurrency.
pub struct Pool {
    /// Jobs pushed by submitters and not yet claimed by any worker, in
    /// submission order.
    pub injector: Vec<u64>,
    pub workers: Vec<WorkerSlot>,
    /// Jobs whose completion channel received its one value (a transform
    /// success or a transform failure, sent by the executing worker).
    pub delivered: Vec<u64>,
    /// Jobs whose completion channel closed without a value: their submitters
    /// resolve with the delivery-failure error.
    pub dropped: Vec<u64>,
    /// Whether the broadcast stop signal has been sent. Once true it stays
    /// true, so a subscriber created after the send still observes it.
    pub shutdown_sent: bool,
    /// The id the next submission will get; ids below it are submitted jobs.
    pub next_id: u64,
}

/// How often `id` occurs in `s`.
pub open spec fn count_in(s: Seq<u64>, id: u64) -> nat
    decreases s.len(),
{
    if s.len() == 0 {
        0
    } else {
        count_in(s.drop_last(), id) + (if s.last() == id {
            1nat
        } else {
            0nat
        })
    }
}

/// How often `id` occurs in one worker's claims and current execution.
pub open spec fn slot_count(s: WorkerSlot, id: u64) -> nat {
    count_in(s.local@, id) + (if s.running == Some(id) {
        1nat
    } else {
        0nat
    })
}

/// How often `id` occurs across all workers.
pub open spec fn workers_count(ws: Seq<WorkerSlot>, id: u64) -> nat
    decreases ws.len(),
{
    if ws.len() == 0 {
        0
    } else {
        workers_count(ws.drop_last(), id) + slot_count(ws.last(), id)
    }
}

/// The sequence an optional running job contributes when a worker dies.
pub open spec fn opt_seq(o: Option<u64>) -> Seq<u64> {
    match o {
        Some(id) => seq![id],
        None => Seq::empty(),
    }
}

impl Pool {
    /// How often job `id` occurs anywhere in the pool: pending, claimed,
    /// executing, or resolved.
    pub open spec fn job_count(self, id: u64) -> nat {
        count_in(self.injector@, id) + workers_count(self.workers@, id) + self.resolved_count(id)
    }

    /// How often job `id` has resolved (value delivered, or channel dropped).
    pub open spec fn resolved_count(self, id: u64) -> nat {
        count_in(self.delivered@, id) + count_in(self.dropped@, id)
    }

    /// Conservation: every submitted job is in exactly one place, and no
    /// unsubmitted id appears anywhere.
    pub open spec fn jobs_conserved(self) -> bool {
        forall|id: u64|
            #[trigger] self.job_count(id) == (if id < self.next_id {
                1nat
            } else {
                0nat
            })
    }

    /// A stopped worker holds nothing: it abandoned its claims on stopping.
    pub open spec fn stopped_slots_empty(self) -> bool {
        forall|i: int|
            0 <= i < self.workers@.len() && (#[trigger] self.workers@[i]).stopped
                ==> self.workers@[i].local@.len() == 0 && self.workers@[i].running is None
    }

    /// A worker only stops after the stop signal was sent.
    pub open spec fn stopped_after_signal(self) -> bool {
        forall|i: int|
            0 <= i < self.workers@.len() && (#[trigger] self.workers@[i]).stopped
                ==> self.shutdown_sent
    }

    pub open spec fn wf(self) -> bool {
        self.jobs_conserved() && self.stopped_slots_empty() && self.stopped_after_signal()
    }
}

proof fn lemma_count_push(s: Seq<u64>, x: u64, id: u64)
    ensures
        count_in(s.push(x), id) == count_in(s, id) + (if x == id {
            1nat
        } else {
            0nat
        }),
{
    assert(s.push(x).drop_last() =~= s);
}

proof fn lemma_count_concat(a: Seq<u64>, b: Seq<u64>, id: u64)
    ensures
        count_in(a + b, id) == count_in(a, id) + count_in(b, id),
    decreases b.len(),
{
    if b.len() == 0 {
        assert(a + b =~= a);
    } else {
        assert((a + b).drop_last() =~= a + b.drop_last());
        lemma_count_concat(a, b.drop_last(), id);
    }
}

proof fn lemma_count_first(s: Seq<u64>, id: u64)
    requires
        s.len() > 0,
    ensures
        count_in(s, id) == count_in(s.drop_first(), id) + (if s[0] == id {
            1nat
        } else {
            0nat
        }),
{
    let first = seq![s[0]];
    assert(s =~= first + s.drop_first());
    lemma_count_concat(first, s.drop_first(), id);
    assert(first.drop_last() =~= Seq::<u64>::empty());
    assert(count_in(first.drop_last(), id) == 0);
}

proof fn lemma_count_single(x: u64, id: u64)
    ensures
        count_in(seq![x], id) == (if x == id {
            1nat
        } else {
            0nat
        }),
{
    assert(count_in(Seq::<u64>::empty(), id) == 0);
    assert(seq![x].drop_last() =~= Seq::<u64>::empty());
}

proof fn lemma_workers_count_update(ws: Seq<WorkerSlot>, i: int, s: WorkerSlot, id: u64)
    requires
        0 <= i < ws.len(),
    ensures
        workers_count(ws.update(i, s), id) + slot_count(ws[i], id) == workers_count(ws, id)
            + slot_count(s, id),
    decreases ws.len(),
{
    let ws2 = ws.update(i, s);
    if i == ws.len() - 1 {
        assert(ws2.drop_last() =~= ws.drop_last());
    } else {
        assert(ws2.drop_last() =~= ws.drop_last().update(i, s));
        lemma_workers_count_update(ws.drop_last(), i, s, id);
    }
}

proof fn lemma_workers_count_at(ws: Seq<WorkerSlot>, i: int, id: u64)
    requires
        0 <= i < ws.len(),
    ensures
        workers_count(ws, id) >= slot_count(ws[i], id),
    decreases ws.len(),
{
    if i < ws.len() - 1 {
        lemma_workers_count_at(ws.drop_last(), i, id);
    }
}

proof fn lemma_workers_count_zero(ws: Seq<WorkerSlot>, id: u64)
    requires
        forall|i: int| 0 <= i < ws.len() ==> slot_count(#[trigger] ws[i], id) == 0,
    ensures
        workers_count(ws, id) == 0,
    decreases ws.len(),
{
    if ws.len() > 0 {
        lemma_workers_count_zero(ws.drop_last(), id);
        assert(slot_count(ws[ws.len() - 1], id) == 0);
    }
}

impl Pool {
    /// Starts a pool model with `worker_count` fresh workers and no jobs.
    pub fn new(worker_count: usize) -> (pool: Pool)
        ensures
            pool.wf(),
            pool.workers@.len() == worker_count,
            pool.next_id == 0,
            pool.injector@.len() == 0,
            pool.delivered@.len() == 0,
            pool.dropped@.len() == 0,
            !pool.shutdown_sent,
            forall|i: int|
                0 <= i < worker_count ==> !(#[trigger] pool.workers@[i]).stopped
                    && pool.workers@[i].local@.len() == 0 && pool.workers@[i].running is None
                    && !pool.workers@[i].recovered,
    {
        let mut workers: Vec<WorkerSlot> = Vec::new();
        let mut i: usize = 0;
        while i < worker_count
            invariant
                i <= worker_count,
                workers@.len() == i,
                forall|j: int|
                    0 <= j < i ==> !(#[trigger] workers@[j]).stopped && workers@[j].local@.len()
                        == 0 && workers@[j].running is None && !workers@[j].recovered,
            decreases worker_count - i,
        {
            workers.push(WorkerSlot { local: Vec::new(), running: None, stopped: false, recovered: false });
            i = i + 1;
        }
        let pool = Pool {
            injector: Vec::new(),
            workers,
            delivered: Vec::new(),
            dropped: Vec::new(),
            shutdown_sent: false,
            next_id: 0,
        };
        proof {
            assert forall|id: u64| #[trigger] pool.job_count(id) == 0nat by {
                assert forall|j: int| 0 <= j < pool.workers@.len() implies slot_count(
                    #[trigger] pool.workers@[j],
                    id,
                ) == 0 by {
                    assert(count_in(pool.workers@[j].local@, id) == 0);
                }
                lemma_workers_count_zero(pool.workers@, id);
            }
        }
        pool
    }

    /// Submission never blocks and never fails: the job enters the shared
    /// injector, visible to every worker, and gets the next id.
    pub fn submit(&mut self) -> (id: u64)
        requires
            old(self).wf(),
            old(self).next_id < u64::MAX,
        ensures
            final(self).wf(),
            id == old(self).next_id,
            final(self).next_id == old(self).next_id + 1,
            final(self).injector@ == old(self).injector@.push(id),
            final(self).workers@ == old(self).workers@,
            final(self).delivered@ == old(self).delivered@,
            final(self).dropped@ == old(self).dropped@,
            final(self).shutdown_sent == old(self).shutdown_sent,
    {
        let id = self.next_id;
        self.next_id = self.next_id + 1;
        self.injector.push(id);
        proof {
            let oldp = *old(self);
            assert forall|j: u64|
                #[trigger] self.job_count(j) == (if j < self.next_id {
                    1nat
                } else {
                    0nat
                }) by {
                lemma_count_push(oldp.injector@, id, j);
                assert(oldp.job_count(j) == (if j < oldp.next_id {
                    1nat
                } else {
                    0nat
                }));
            }
        }
        id
    }

    /// Broadcasts the stop signal. Idempotent: a second send changes nothing
    /// and does not fail, and the signal stays observable afterwards.
    pub fn shutdown(&mut self)
        requires
            old(self).wf(),
        ensures
            final(self).wf(),
            final(self).shutdown_sent,
            final(self).injector@ == old(self).injector@,
            final(self).workers@ == old(self).workers@,
            final(self).delivered@ == old(self).delivered@,
            final(self).dropped@ == old(self).dropped@,
            final(self).next_id == old(self).next_id,
    {
        self.shutdown_sent = true;
        proof {
            let oldp = *old(self);
            assert forall|j: u64|
                #[trigger] self.job_count(j) == (if j < self.next_id {
                    1nat
                } else {
                    0nat
                }) by {
                assert(self.job_count(j) == oldp.job_count(j));
                assert(oldp.job_count(j) == (if j < oldp.next_id {
                    1nat
                } else {
                    0nat
                }));
            }
        }
    }
}

impl Pool {
    /// The cheapest scheduling path: the worker takes the oldest job it has
    /// already claimed, with no contention on the shared injector.
    pub fn pop_local(&mut self, w: usize) -> (job: Option<u64>)
        requires
            old(self).wf(),
            w < old(self).workers@.len(),
            !old(self).workers@[w as int].stopped,
            old(self).workers@[w as int].running is None,
        ensures
            final(self).wf(),
            final(self).injector@ == old(self).injector@,
            final(self).delivered@ == old(self).delivered@,
            final(self).dropped@ == old(self).dropped@,
            final(self).shutdown_sent == old(self).shutdown_sent,
            final(self).next_id == old(self).next_id,
            old(self).workers@[w as int].local@.len() == 0 ==> job is None && final(self).workers@
                == old(self).workers@,
            old(self).workers@[w as int].local@.len() > 0 ==> ({
                let prior = old(self).workers@[w as int];
                &&& job == Some(prior.local@[0])
                &&& final(self).workers@.len() == old(self).workers@.len()
                &&& final(self).workers@[w as int].local@ == prior.local@.drop_first()
                &&& final(self).workers@[w as int].running == Some(prior.local@[0])
                &&& final(self).workers@[w as int].stopped == prior.stopped
                &&& final(self).workers@[w as int].recovered == prior.recovered
                &&& forall|i: int|
                    0 <= i < old(self).workers@.len() && i != w ==> final(self).workers@[i]
                        == old(self).workers@[i]
            }),
    {
        let empty = {
            let slot = &self.workers[w];
            slot.local.len() == 0
        };
        if empty {
            return None;
        }
        let ghost oldp = *old(self);
        let mut slot = self.workers.remove(w);
        let ghost prior = slot;
        let id = slot.local.remove(0);
        slot.running = Some(id);
        self.workers.insert(w, slot);
        proof {
            assert(slot.local@ =~= prior.local@.drop_first());
            assert(self.workers@ =~= oldp.workers@.update(w as int, slot));
            assert forall|j: u64|
                #[trigger] self.job_count(j) == (if j < self.next_id {
                    1nat
                } else {
                    0nat
                }) by {
                lemma_count_first(prior.local@, j);
                lemma_workers_count_update(oldp.workers@, w as int, slot, j);
                assert(oldp.job_count(j) == (if j < oldp.next_id {
                    1nat
                } else {
                    0nat
                }));
            }
        }
        Some(id)
    }

    /// The worker observed the shutdown signal: it stops consuming work and
    /// exits. The claims still in its abandoned deque are dropped with it,
    /// so each of those jobs resolves as a delivery failure, not silently.
    pub fn stop_worker(&mut self, w: usize)
        requires
            old(self).wf(),
            w < old(self).workers@.len(),
            old(self).shutdown_sent,
            !old(self).workers@[w as int].stopped,
            old(self).workers@[w as int].running is None,
        ensures
            final(self).wf(),
            final(self).injector@ == old(self).injector@,
            final(self).delivered@ == old(self).delivered@,
            final(self).shutdown_sent == old(self).shutdown_sent,
            final(self).next_id == old(self).next_id,
            final(self).dropped@ == old(self).dropped@ + old(self).workers@[w as int].local@,
            final(self).workers@.len() == old(self).workers@.len(),
            final(self).workers@[w as int].local@.len() == 0,
            final(self).workers@[w as int].running is None,
            final(self).workers@[w as int].stopped,
            final(self).workers@[w as int].recovered == old(self).workers@[w as int].recovered,
            forall|i: int|
                0 <= i < old(self).workers@.len() && i != w ==> final(self).workers@[i] == old(
                    self,
                ).workers@[i],
    {
        let ghost oldp = *old(self);
        let mut slot = self.workers.remove(w);
        let ghost prior = slot;
        self.dropped.append(&mut slot.local);
        slot.stopped = true;
        self.workers.insert(w, slot);
        proof {
            assert(self.workers@ =~= oldp.workers@.update(w as int, slot));
            assert forall|j: u64|
                #[trigger] self.job_count(j) == (if j < self.next_id {
                    1nat
                } else {
                    0nat
                }) by {
                lemma_count_concat(oldp.dropped@, prior.local@, j);
                lemma_workers_count_update(oldp.workers@, w as int, slot, j);
                assert(oldp.job_count(j) == (if j < oldp.next_id {
                    1nat
                } else {
                    0nat
                }));
            }
        }
    }

    /// The worker finished executing its job and sends the result — success
    /// or transform failure — into the job's completion channel. The channel
    /// had never received a value before and receives exactly this one.
    pub fn finish_running(&mut self, w: usize) -> (id: u64)
        requires
            old(self).wf(),
            w < old(self).workers@.len(),
            old(self).workers@[w as int].running is Some,
        ensures
            final(self).wf(),
            Some(id) == old(self).workers@[w as int].running,
            count_in(old(self).delivered@, id) == 0,
            count_in(old(self).dropped@, id) == 0,
            final(self).delivered@ == old(self).delivered@.push(id),
            final(self).injector@ == old(self).injector@,
            final(self).dropped@ == old(self).dropped@,
            final(self).shutdown_sent == old(self).shutdown_sent,
            final(self).next_id == old(self).next_id,
            final(self).workers@.len() == old(self).workers@.len(),
            final(self).workers@[w as int].running is None,
            final(self).workers@[w as int].local@ == old(self).workers@[w as int].local@,
            final(self).workers@[w as int].stopped == old(self).workers@[w as int].stopped,
            final(self).workers@[w as int].recovered == old(self).workers@[w as int].recovered,
            forall|i: int|
                0 <= i < old(self).workers@.len() && i != w ==> final(self).workers@[i] == old(
                    self,
                ).workers@[i],
    {
        let ghost oldp = *old(self);
        let mut slot = self.workers.remove(w);
        let ghost prior = slot;
        let id = slot.running.unwrap();
        slot.running = None;
        self.workers.insert(w, slot);
        self.delivered.push(id);
        proof {
            assert(self.workers@ =~= oldp.workers@.update(w as int, slot));
            lemma_workers_count_at(oldp.workers@, w as int, id);
            assert(oldp.job_count(id) >= 1);
            assert(id < oldp.next_id);
            assert forall|j: u64|
                #[trigger] self.job_count(j) == (if j < self.next_id {
                    1nat
                } else {
                    0nat
                }) by {
                lemma_count_push(oldp.delivered@, id, j);
                lemma_workers_count_update(oldp.workers@, w as int, slot, j);
                assert(oldp.job_count(j) == (if j < oldp.next_id {
                    1nat
                } else {
                    0nat
                }));
            }
        }
        id
    }

    /// A panic tore the worker's thread down mid-job. Its running job and
    /// every claim in its dying deque resolve as delivery failures — the
    /// panic never reaches other workers or other submitters — and exactly
    /// one replacement worker takes the slot, tagged as a recovery spawn.
    pub fn fail_worker(&mut self, w: usize)
        requires
            old(self).wf(),
            w < old(self).workers@.len(),
            !old(self).workers@[w as int].stopped,
        ensures
            final(self).wf(),
            final(self).injector@ == old(self).injector@,
            final(self).delivered@ == old(self).delivered@,
            final(self).shutdown_sent == old(self).shutdown_sent,
            final(self).next_id == old(self).next_id,
            final(self).dropped@ == old(self).dropped@ + opt_seq(
                old(self).workers@[w as int].running,
            ) + old(self).workers@[w as int].local@,
            final(self).workers@.len() == old(self).workers@.len(),
            final(self).workers@[w as int].local@.len() == 0,
            final(self).workers@[w as int].running is None,
            !final(self).workers@[w as int].stopped,
            final(self).workers@[w as int].recovered,
            forall|i: int|
                0 <= i < old(self).workers@.len() && i != w ==> final(self).workers@[i] == old(
                    self,
                ).workers@[i],
    {
        let ghost oldp = *old(self);
        let mut slot = self.workers.remove(w);
        let ghost prior = slot;
        if let Some(id) = slot.running {
            self.dropped.push(id);
        }
        self.dropped.append(&mut slot.local);
        let fresh = WorkerSlot { local: Vec::new(), running: None, stopped: false, recovered: true };
        let ghost fresh_slot = fresh;
        self.workers.insert(w, fresh);
        proof {
            assert(self.workers@ =~= oldp.workers@.update(w as int, fresh_slot));
            assert(self.dropped@ =~= oldp.dropped@ + opt_seq(prior.running) + prior.local@);
            assert forall|j: u64|
                #[trigger] self.job_count(j) == (if j < self.next_id {
                    1nat
                } else {
                    0nat
                }) by {
                lemma_count_concat(oldp.dropped@, opt_seq(prior.running), j);
                lemma_count_concat(oldp.dropped@ + opt_seq(prior.running), prior.local@, j);
                match prior.running {
                    Some(r) => {
                        assert(opt_seq(prior.running) =~= seq![r]);
                        lemma_count_single(r, j);
                    },
                    None => {
                        assert(count_in(opt_seq(prior.running), j) == 0);
                    },
                }
                lemma_workers_count_update(oldp.workers@, w as int, fresh_slot, j);
                assert(count_in(fresh_slot.local@, j) == 0);
                assert(oldp.job_count(j) == (if j < oldp.next_id {
                    1nat
                } else {
                    0nat
                }));
            }
        }
    }

    /// The worker's own deque is empty, so it steals a batch from the shared
    /// injector into its deque — at most `STEAL_BATCH` jobs, oldest first —
    /// and starts the oldest stolen job. Finding nothing is not an error:
    /// the caller simply retries after yielding.
    pub fn steal_batch_and_pop(&mut self, w: usize) -> (job: Option<u64>)
        requires
            old(self).wf(),
            w < old(self).workers@.len(),
            !old(self).workers@[w as int].stopped,
            old(self).workers@[w as int].running is None,
            old(self).workers@[w as int].local@.len() == 0,
        ensures
            final(self).wf(),
            final(self).delivered@ == old(self).delivered@,
            final(self).dropped@ == old(self).dropped@,
            final(self).shutdown_sent == old(self).shutdown_sent,
            final(self).next_id == old(self).next_id,
            final(self).workers@.len() == old(self).workers@.len(),
            old(self).injector@.len() == 0 ==> job is None && final(self).workers@ == old(
                self,
            ).workers@ && final(self).injector@ == old(self).injector@,
            old(self).injector@.len() > 0 ==> ({
                let k = if old(self).injector@.len() < STEAL_BATCH as int {
                    old(self).injector@.len() as int
                } else {
                    STEAL_BATCH as int
                };
                &&& job == Some(old(self).injector@[0])
                &&& final(self).injector@ == old(self).injector@.skip(k)
                &&& final(self).workers@[w as int].local@ == old(self).injector@.subrange(1, k)
                &&& final(self).workers@[w as int].running == Some(old(self).injector@[0])
                &&& final(self).workers@[w as int].stopped == old(self).workers@[w as int].stopped
                &&& final(self).workers@[w as int].recovered == old(
                    self,
                ).workers@[w as int].recovered
                &&& forall|i: int|
                    0 <= i < old(self).workers@.len() && i != w ==> final(self).workers@[i] == old(
                        self,
                    ).workers@[i]
            }),
    {
        if self.injector.len() == 0 {
            return None;
        }
        let ghost oldp = *old(self);
        let mut slot = self.workers.remove(w);
        let ghost prior = slot;
        let batch: usize = if self.injector.len() < STEAL_BATCH {
            self.injector.len()
        } else {
            STEAL_BATCH
        };
        let mut moved: usize = 0;
        while moved < batch
            invariant
                moved <= batch,
                batch <= oldp.injector@.len(),
                w < oldp.workers@.len(),
                self.injector@ == oldp.injector@.skip(moved as int),
                slot.local@ == oldp.injector@.subrange(0, moved as int),
                self.workers@ == oldp.workers@.remove(w as int),
                self.delivered@ == oldp.delivered@,
                self.dropped@ == oldp.dropped@,
                self.shutdown_sent == oldp.shutdown_sent,
                self.next_id == oldp.next_id,
                slot.running is None,
                slot.stopped == prior.stopped,
                slot.recovered == prior.recovered,
            decreases batch - moved,
        {
            let id = self.injector.remove(0);
            slot.local.push(id);
            proof {
                assert(self.injector@ =~= oldp.injector@.skip(moved as int + 1));
                assert(slot.local@ =~= oldp.injector@.subrange(0, moved as int + 1));
            }
            moved = moved + 1;
        }
        let id = slot.local.remove(0);
        slot.running = Some(id);
        self.workers.insert(w, slot);
        proof {
            let k = batch as int;
            assert(slot.local@ =~= oldp.injector@.subrange(1, k));
            assert(self.workers@ =~= oldp.workers@.update(w as int, slot));
            assert(oldp.injector@ =~= oldp.injector@.subrange(0, k) + oldp.injector@.skip(k));
            assert forall|j: u64|
                #[trigger] self.job_count(j) == (if j < self.next_id {
                    1nat
                } else {
                    0nat
                }) by {
                lemma_count_concat(oldp.injector@.subrange(0, k), oldp.injector@.skip(k), j);
                lemma_count_first(oldp.injector@.subrange(0, k), j);
                assert(oldp.injector@.subrange(0, k).drop_first() =~= oldp.injector@.subrange(
                    1,
                    k,
                ));
                lemma_workers_count_update(oldp.workers@, w as int, slot, j);
                assert(count_in(prior.local@, j) == 0);
                assert(oldp.job_count(j) == (if j < oldp.next_id {
                    1nat
                } else {
                    0nat
                }));
            }
        }
        Some(id)
    }

    /// After every worker has stopped, the pool tears its queue down: each
    /// job still waiting in the injector has its completion channel dropped,
    /// so its submitter resolves with the delivery failure instead of
    /// hanging forever.
    pub fn release_pending(&mut self)
        requires
            old(self).wf(),
            old(self).shutdown_sent,
            forall|i: int|
                0 <= i < old(self).workers@.len() ==> (#[trigger] old(self).workers@[i]).stopped,
        ensures
            final(self).wf(),
            final(self).injector@.len() == 0,
            final(self).dropped@ == old(self).dropped@ + old(self).injector@,
            final(self).delivered@ == old(self).delivered@,
            final(self).workers@ == old(self).workers@,
            final(self).shutdown_sent == old(self).shutdown_sent,
            final(self).next_id == old(self).next_id,
    {
        let ghost oldp = *old(self);
        self.dropped.append(&mut self.injector);
        proof {
            assert forall|j: u64|
                #[trigger] self.job_count(j) == (if j < self.next_id {
                    1nat
                } else {
                    0nat
                }) by {
                lemma_count_concat(oldp.dropped@, oldp.injector@, j);
                assert(oldp.job_count(j) == (if j < oldp.next_id {
                    1nat
                } else {
                    0nat
                }));
            }
        }
    }

    /// One iteration of a worker's scheduling loop: check the stop signal
    /// first, then the own deque, then a batch steal from the injector, and
    /// otherwise report that the caller should yield its time slice. When a
    /// job is claimed, it is the worker's oldest claim, or the injector's
    /// front if the worker held none — first claimed, first run, per worker.
    pub fn worker_step(&mut self, w: usize) -> (a: WorkerAction)
        requires
            old(self).wf(),
            w < old(self).workers@.len(),
            !old(self).workers@[w as int].stopped,
            old(self).workers@[w as int].running is None,
        ensures
            final(self).wf(),
            final(self).delivered@ == old(self).delivered@,
            final(self).shutdown_sent == old(self).shutdown_sent,
            final(self).next_id == old(self).next_id,
            final(self).workers@.len() == old(self).workers@.len(),
            (a is Stop) <==> old(self).shutdown_sent,
            (a is Idle) <==> (!old(self).shutdown_sent && old(self).workers@[w as int].local@.len()
                == 0 && old(self).injector@.len() == 0),
            a is Idle ==> final(self).workers@ == old(self).workers@ && final(self).injector@
                == old(self).injector@ && final(self).dropped@ == old(self).dropped@,
            a is Stop ==> ({
                &&& final(self).dropped@ == old(self).dropped@ + old(
                    self,
                ).workers@[w as int].local@
                &&& final(self).workers@[w as int].stopped
                &&& final(self).injector@ == old(self).injector@
            }),
            a matches WorkerAction::Run(id) ==> ({
                let line = old(self).workers@[w as int].local@ + old(self).injector@;
                &&& line.len() > 0
                &&& id == line[0]
                &&& final(self).dropped@ == old(self).dropped@
                &&& final(self).workers@[w as int].running == Some(id)
                &&& !final(self).workers@[w as int].stopped
            }),
    {
        if self.shutdown_sent {
            self.stop_worker(w);
            return WorkerAction::Stop;
        }
        match self.pop_local(w) {
            Some(id) => WorkerAction::Run(id),
            None => match self.steal_batch_and_pop(w) {
                Some(id) => WorkerAction::Run(id),
                None => WorkerAction::Idle,
            },
        }
    }
}

/// Diagnostic identity of one worker thread, registered in the pool's count
/// of live threads for as long as the thread runs.
pub struct ThreadMonitor {
    pub id: usize,
}

impl ThreadMonitor {
    /// Registers a newly spawned worker thread under its numeric identity.
    pub fn new(id: usize, live_count: &mut usize) -> (m: ThreadMonitor)
        requires
            *old(live_count) < usize::MAX,
        ensures
            *final(live_count) == *old(live_count) + 1,
            m.id == id,
    {
        *live_count = *live_count + 1;
        ThreadMonitor { id }
    }

    /// Deregisters the thread on its orderly exit from the scheduling loop.
    pub fn exit(&self, live_count: &mut usize)
        requires
            *old(live_count) > 0,
        ensures
            *final(live_count) == *old(live_count) - 1,
    {
        *live_count = *live_count - 1;
    }
}

/// What one scheduling step tells the worker's thread to do next.
#[derive(Copy, Clone, Debug, PartialEq, Eq, Structural)]
pub enum WorkerAction {
    /// The stop signal was observed: leave the loop; the thread joins.
    Stop,
    /// A job was claimed: execute its transform, then report the outcome
    /// with `finish_running` (result sent) or `fail_worker` (panic).
    Run(u64),
    /// Nothing to do anywhere: yield the time slice and try again.
    Idle,
}

/// How many occurrences of ids below `n` a sequence holds, summed id by id.
spec fn count_below(s: Seq<u64>, n: int) -> nat
    decreases n,
{
    if n <= 0 {
        0
    } else {
        count_below(s, n - 1) + count_in(s, (n - 1) as u64)
    }
}

proof fn lemma_count_at_least(s: Seq<u64>, i: int)
    requires
        0 <= i < s.len(),
    ensures
        count_in(s, s[i]) >= 1,
    decreases s.len(),
{
    if i < s.len() - 1 {
        lemma_count_at_least(s.drop_last(), i);
    }
}

proof fn lemma_count_below_empty(s: Seq<u64>, n: int)
    requires
        s.len() == 0,
    ensures
        count_below(s, n) == 0,
    decreases n,
{
    if n > 0 {
        lemma_count_below_empty(s, n - 1);
    }
}

proof fn lemma_count_below_push(s: Seq<u64>, x: u64, n: int)
    requires
        n <= 0x1_0000_0000_0000_0000,
    ensures
        count_below(s.push(x), n) == count_below(s, n) + (if (x as int) < n {
            1nat
        } else {
            0nat
        }),
    decreases n,
{
    if n > 0 {
        lemma_count_below_push(s, x, n - 1);
        lemma_count_push(s, x, (n - 1) as u64);
    }
}

proof fn lemma_count_below_all(s: Seq<u64>, n: int)
    requires
        n <= 0x1_0000_0000_0000_0000,
        forall|i: int| 0 <= i < s.len() ==> (s[i] as int) < n,
    ensures
        count_below(s, n) == s.len(),
    decreases s.len(),
{
    if s.len() == 0 {
        lemma_count_below_empty(s, n);
    } else {
        let shorter = s.drop_last();
        lemma_count_below_all(shorter, n);
        lemma_count_below_push(shorter, s.last(), n);
        assert(shorter.push(s.last()) =~= s);
    }
}

proof fn lemma_count_below_pair(p: Pool, n: int)
    requires
        n >= 0,
        n <= 0x1_0000_0000_0000_0000,
        forall|id: u64| (id as int) < n ==> #[trigger] p.resolved_count(id) == 1,
    ensures
        count_below(p.delivered@, n) + count_below(p.dropped@, n) == n,
    decreases n,
{
    if n > 0 {
        lemma_count_below_pair(p, n - 1);
        assert(p.resolved_count((n - 1) as u64) == 1);
    }
}

/// Exactly-once delivery: a job's completion channel never resolves twice.
/// It is delivered at most once, and never both delivered and dropped; and
/// once delivered, the job is nowhere else in the pool.
pub proof fn lemma_exactly_once(p: Pool, id: u64)
    requires
        p.wf(),
    ensures
        p.resolved_count(id) <= 1,
        count_in(p.delivered@, id) == 1 ==> count_in(p.dropped@, id) == 0 && count_in(
            p.injector@,
            id,
        ) == 0 && workers_count(p.workers@, id) == 0,
{
    assert(p.job_count(id) == (if id < p.next_id {
        1nat
    } else {
        0nat
    }));
}

/// No job loss: at every reachable state, each submitted job sits in exactly
/// one place — pending in the injector, claimed or executing on exactly one
/// worker, or resolved exactly once. However many submitters and workers
/// interleave, no job duplicates and none disappears.
pub proof fn lemma_no_job_loss(p: Pool, id: u64)
    requires
        p.wf(),
        id < p.next_id,
    ensures
        p.job_count(id) == 1,
{
    assert(p.job_count(id) == (if id < p.next_id {
        1nat
    } else {
        0nat
    }));
}

/// Graceful shutdown drains all submitted work: once every worker has
/// stopped and the pending queue was released, every job ever submitted —
/// including any submitted just before the signal — has resolved exactly
/// once, as a delivered result or as a delivery failure. Nothing hangs.
pub proof fn lemma_shutdown_resolves_all(p: Pool, id: u64)
    requires
        p.wf(),
        id < p.next_id,
        p.injector@.len() == 0,
        forall|i: int| 0 <= i < p.workers@.len() ==> (#[trigger] p.workers@[i]).stopped,
    ensures
        p.resolved_count(id) == 1,
{
    assert(p.job_count(id) == (if id < p.next_id {
        1nat
    } else {
        0nat
    }));
    assert forall|i: int| 0 <= i < p.workers@.len() implies slot_count(
        #[trigger] p.workers@[i],
        id,
    ) == 0 by {
        assert(p.workers@[i].stopped);
        assert(count_in(p.workers@[i].local@, id) == 0);
    }
    lemma_workers_count_zero(p.workers@, id);
}

/// No job loss, counted: however many submitters and workers interleaved,
/// and whatever mix of completions, panics and abandoned claims occurred,
/// once every worker has stopped and the pending queue was released the
/// number of resolved results equals exactly the number of submissions.
pub proof fn lemma_shutdown_resolution_count(p: Pool)
    requires
        p.wf(),
        p.injector@.len() == 0,
        forall|i: int| 0 <= i < p.workers@.len() ==> (#[trigger] p.workers@[i]).stopped,
    ensures
        p.delivered@.len() + p.dropped@.len() == p.next_id,
{
    let n = p.next_id as int;
    assert forall|i: int| 0 <= i < p.delivered@.len() implies (p.delivered@[i] as int) < n by {
        lemma_count_at_least(p.delivered@, i);
        let id = p.delivered@[i];
        assert(p.job_count(id) == (if id < p.next_id {
            1nat
        } else {
            0nat
        }));
    }
    assert forall|i: int| 0 <= i < p.dropped@.len() implies (p.dropped@[i] as int) < n by {
        lemma_count_at_least(p.dropped@, i);
        let id = p.dropped@[i];
        assert(p.job_count(id) == (if id < p.next_id {
            1nat
        } else {
            0nat
        }));
    }
    lemma_count_below_all(p.delivered@, n);
    lemma_count_below_all(p.dropped@, n);
    assert forall|id: u64| (id as int) < n implies #[trigger] p.resolved_count(id) == 1 by {
        lemma_shutdown_resolves_all(p, id);
    }
    lemma_count_below_pair(p, n);
}

} // verus!
