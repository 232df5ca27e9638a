//! Per-resource AI task scheduling: bounded FIFO rings per QoS class, an
//! earliest-deadline-first list for real-time tasks and deficit round robin
//! for the other classes.

use vstd::prelude::*;
use crate::kernel::ai::WorkloadType;
use crate::arch::x86_64::predictive_power::SystemPowerStats;

verus! {

/// AI task QoS classes, most urgent first.
#[derive(Clone, Copy, PartialEq, Eq, Debug)]
pub enum AiQoS {
    RealTimeInference,
    InteractiveAI,
    BackgroundTraining,
    SystemMaintenance,
}

/// Queue index of a QoS class.
pub open spec fn qos_index(q: AiQoS) -> int {
    match q {
        AiQoS::RealTimeInference => 0,
        AiQoS::InteractiveAI => 1,
        AiQoS::BackgroundTraining => 2,
        AiQoS::SystemMaintenance => 3,
    }
}

/// AI compute resource types.
#[derive(Clone, Copy, PartialEq, Eq, Debug)]
pub enum ComputeResource {
    NeuralEngine,
    CpuNeon,
    GpuMetal,
}

/// Absolute timing of a task.
#[derive(Clone, Copy, Debug)]
pub struct AiDeadline {
    pub submit_cycles: u64,
    pub deadline_cycles: u64,
    pub deadline_ns: u32,
}

/// AI task descriptor.
#[derive(Clone, Copy, Debug)]
pub struct AiTask {
    pub task_id: u64,
    pub qos: AiQoS,
    pub deadline: AiDeadline,
    pub workload_type: WorkloadType,
    pub model_id: u32,
    pub input_size: usize,
    pub input_addr: u64,
    pub output_size: usize,
    pub output_addr: u64,
    pub resource_hint: ComputeResource,
    pub completion_callback: Option<u64>,
    pub priority_weight: u32,
}

/// Ring slot that follows slot `i` in a ring of `n` slots.
pub open spec fn ring_next(i: int, n: int) -> int {
    if i + 1 == n {
        0
    } else {
        i + 1
    }
}

/// Number of occupied slots between `head` and `tail` in a ring of `n`.
pub open spec fn ring_len(head: int, tail: int, n: int) -> int {
    if tail >= head {
        tail - head
    } else {
        n - head + tail
    }
}

/// Slot of the `k`-th queued element.
pub open spec fn ring_slot(head: int, k: int, n: int) -> int {
    if head + k < n {
        head + k
    } else {
        head + k - n
    }
}

/// Bounded single-producer single-consumer ring of AI tasks with `N` slots,
/// one of which always stays empty.
pub struct AiTaskQueue<const N: usize> {
    tasks: Vec<Option<AiTask>>,
    head: u32,
    tail: u32,
    enqueue_count: u64,
    dequeue_count: u64,
}

impl<const N: usize> AiTaskQueue<N> {
    pub closed spec fn wf(&self) -> bool {
        &&& 0 < N <= u32::MAX
        &&& self.tasks@.len() == N
        &&& self.head < N
        &&& self.tail < N
        &&& forall|k: int|
            0 <= k < ring_len(self.head as int, self.tail as int, N as int) ==> (#[trigger] self.tasks@[ring_slot(
                self.head as int,
                k,
                N as int,
            )]) is Some
    }

    /// Queued tasks, oldest first.
    pub closed spec fn view(&self) -> Seq<AiTask> {
        Seq::new(
            ring_len(self.head as int, self.tail as int, N as int) as nat,
            |k: int| self.tasks@[ring_slot(self.head as int, k, N as int)]->Some_0,
        )
    }

    /// Ring indices `(head, tail)`.
    pub closed spec fn indices(&self) -> (u32, u32) {
        (self.head, self.tail)
    }

    pub closed spec fn counts(&self) -> (u64, u64) {
        (self.enqueue_count, self.dequeue_count)
    }

    /// An empty ring.
    pub fn new() -> (r: Self)
        requires
            0 < N <= u32::MAX,
        ensures
            r.wf(),
            r@ == Seq::<AiTask>::empty(),
            r.counts() == (0u64, 0u64),
    {
        let mut tasks: Vec<Option<AiTask>> = Vec::new();
        let mut i: usize = 0;
        while i < N
            invariant
                i <= N,
                tasks@.len() == i,
            decreases N - i,
        {
            tasks.push(None);
            i = i + 1;
        }
        let r = AiTaskQueue { tasks, head: 0, tail: 0, enqueue_count: 0, dequeue_count: 0 };
        assert(r@ =~= Seq::<AiTask>::empty());
        r
    }

    proof fn lemma_next(x: u32)
        requires
            0 < N <= u32::MAX,
            x < N,
        ensures
            (x + 1) as u32 % (N as u32) == ring_next(x as int, N as int),
    {
        if x + 1 < N {
            vstd::arithmetic::div_mod::lemma_small_mod((x + 1) as nat, N as nat);
        } else {
            vstd::arithmetic::div_mod::lemma_mod_add_multiples_vanish(0, N as int);
            vstd::arithmetic::div_mod::lemma_small_mod(0, N as nat);
        }
    }

    /// Appends `task`; a full ring hands the task back.
    pub fn enqueue(&mut self, task: AiTask) -> (res: Result<(), AiTask>)
        requires
            old(self).wf(),
        ensures
            final(self).wf(),
            old(self)@.len() == N - 1 <==> res == Err::<(), AiTask>(task),
            res is Err ==> final(self)@ == old(self)@ && final(self).counts() == old(self).counts(),
            res is Ok ==> final(self)@ == old(self)@.push(task) && final(self).counts() == (
            old(self).counts().0.wrapping_add(1),
            old(self).counts().1,
            ),
    {
        let tail = self.tail;
        let head = self.head;
        proof {
            Self::lemma_next(tail);
        }
        let next = tail.wrapping_add(1) % (N as u32);
        if next == head {
            return Err(task);
        }
        let ghost pre = *self;
        self.tasks.set(tail as usize, Some(task));
        self.tail = next;
        self.enqueue_count = self.enqueue_count.wrapping_add(1);
        proof {
            let h = head as int;
            let t = tail as int;
            let n = N as int;
            assert(ring_len(h, next as int, n) == ring_len(h, t, n) + 1);
            assert forall|k: int| 0 <= k < ring_len(h, next as int, n) implies (#[trigger] self.tasks@[ring_slot(
                h,
                k,
                n,
            )]) is Some by {
                if k < ring_len(h, t, n) {
                    assert(ring_slot(h, k, n) != t);
                    assert(pre.tasks@[ring_slot(h, k, n)] is Some);
                } else {
                    assert(ring_slot(h, k, n) == t);
                }
            }
            assert(self@ =~= pre@.push(task)) by {
                assert forall|k: int| 0 <= k < ring_len(h, t, n) implies self.tasks@[ring_slot(h, k, n)]
                    == pre.tasks@[ring_slot(h, k, n)] by {
                    assert(ring_slot(h, k, n) != t);
                }
                assert(ring_slot(h, ring_len(h, t, n), n) == t);
            }
        }
        Ok(())
    }

    /// Removes the oldest task, if any.
    pub fn dequeue(&mut self) -> (res: Option<AiTask>)
        requires
            old(self).wf(),
        ensures
            final(self).wf(),
            old(self)@.len() == 0 <==> res is None,
            res is None ==> final(self)@ == old(self)@ && final(self).counts() == old(self).counts(),
            res is Some ==> res == Some(old(self)@[0]) && final(self)@ == old(self)@.drop_first()
                && final(self).counts() == (old(self).counts().0, old(self).counts().1.wrapping_add(1)),
    {
        let head = self.head;
        let tail = self.tail;
        if head == tail {
            return None;
        }
        let ghost pre = *self;
        proof {
            assert(ring_slot(head as int, 0, N as int) == head as int);
            assert(pre.tasks@[ring_slot(head as int, 0, N as int)] is Some);
            Self::lemma_next(head);
        }
        let task = self.tasks[head as usize];
        self.tasks.set(head as usize, None);
        self.head = head.wrapping_add(1) % (N as u32);
        self.dequeue_count = self.dequeue_count.wrapping_add(1);
        proof {
            let h = head as int;
            let t = tail as int;
            let n = N as int;
            let h2 = self.head as int;
            assert(ring_len(h2, t, n) == ring_len(h, t, n) - 1);
            assert forall|k: int| 0 <= k < ring_len(h2, t, n) implies (#[trigger] self.tasks@[ring_slot(
                h2,
                k,
                n,
            )]) is Some by {
                assert(ring_slot(h2, k, n) == ring_slot(h, k + 1, n));
                assert(pre.tasks@[ring_slot(h, k + 1, n)] is Some);
            }
            assert(self@ =~= pre@.drop_first()) by {
                assert forall|k: int| 0 <= k < ring_len(h2, t, n) implies self.tasks@[ring_slot(h2, k, n)]
                    == pre.tasks@[ring_slot(h, k + 1, n)] by {
                    assert(ring_slot(h2, k, n) == ring_slot(h, k + 1, n));
                }
            }
        }
        task
    }

    /// Queue depth as the ring indices give it: `(tail - head) mod 2^32`
    /// reduced modulo `N`.
    pub fn depth(&self) -> (r: u32)
        requires
            self.wf(),
        ensures
            r == self.indices().1.wrapping_sub(self.indices().0) % (N as u32),
            self.indices().1 >= self.indices().0 ==> r == self@.len(),
    {
        proof {
            if self.tail >= self.head {
                vstd::arithmetic::div_mod::lemma_small_mod((self.tail - self.head) as nat, N as nat);
            }
        }
        self.tail.wrapping_sub(self.head) % (N as u32)
    }
}

/// The real-time list is ordered by deadline.
pub open spec fn deadline_sorted(s: Seq<(u64, u64)>) -> bool {
    forall|i: int, j: int| 0 <= i <= j < s.len() ==> (#[trigger] s[i]).0 <= (#[trigger] s[j]).0
}

/// Per-resource scheduler.
pub struct ResourceScheduler {
    pub resource: ComputeResource,
    pub qos_queues: Vec<AiTaskQueue<256>>,
    pub rt_heap: Vec<(u64, u64)>,
    pub drr_deficit: [u32; 4],
    pub drr_quantum: [u32; 4],
    pub utilization_ewma: u32,
    pub thermal_headroom: u32,
    pub tasks_completed: u64,
    pub tasks_missed_deadline: u64,
    pub average_latency_ns: u64,
}

/// Deficit round robin quanta of a resource, per QoS class.
pub open spec fn quantum_of(resource: ComputeResource) -> Seq<u32> {
    match resource {
        ComputeResource::NeuralEngine => seq![0u32, 4096u32, 2048u32, 1024u32],
        ComputeResource::CpuNeon => seq![0u32, 2048u32, 1024u32, 512u32],
        ComputeResource::GpuMetal => seq![0u32, 8192u32, 4096u32, 2048u32],
    }
}

/// Deficit round robin cost of a task: one unit per KiB of input, plus one.
pub open spec fn task_cost(task: AiTask) -> u32 {
    ((task.input_size / 1024) as u32).wrapping_add(1)
}

impl ResourceScheduler {
    pub open spec fn wf(&self) -> bool {
        &&& self.qos_queues@.len() == 4
        &&& forall|q: int| 0 <= q < 4 ==> (#[trigger] self.qos_queues@[q]).wf()
        &&& deadline_sorted(self.rt_heap@)
    }

    /// A scheduler for `resource` with empty queues, full thermal headroom
    /// (85 C) and the resource's quanta.
    pub fn new(resource: ComputeResource) -> (r: Self)
        ensures
            r.wf(),
            r.resource == resource,
            forall|q: int| 0 <= q < 4 ==> (#[trigger] r.qos_queues@[q])@.len() == 0,
            r.rt_heap@.len() == 0,
            r.drr_deficit@ == seq![0u32, 0u32, 0u32, 0u32],
            r.drr_quantum@ == quantum_of(resource),
            r.thermal_headroom == 8500,
    {
        let drr_quantum: [u32; 4] = match resource {
            ComputeResource::NeuralEngine => [0, 4096, 2048, 1024],
            ComputeResource::CpuNeon => [0, 2048, 1024, 512],
            ComputeResource::GpuMetal => [0, 8192, 4096, 2048],
        };
        let mut qos_queues: Vec<AiTaskQueue<256>> = Vec::new();
        qos_queues.push(AiTaskQueue::new());
        qos_queues.push(AiTaskQueue::new());
        qos_queues.push(AiTaskQueue::new());
        qos_queues.push(AiTaskQueue::new());
        let r = ResourceScheduler {
            resource,
            qos_queues,
            rt_heap: Vec::new(),
            drr_deficit: [0, 0, 0, 0],
            drr_quantum,
            utilization_ewma: 0,
            thermal_headroom: 8500,
            tasks_completed: 0,
            tasks_missed_deadline: 0,
            average_latency_ns: 0,
        };
        assert(r.drr_quantum@ =~= quantum_of(resource));
        assert(r.drr_deficit@ =~= seq![0u32, 0u32, 0u32, 0u32]);
        r
    }

    /// Inserts `(deadline, id)` after every entry whose deadline is not later.
    fn insert_by_deadline(&mut self, deadline: u64, id: u64)
        requires
            deadline_sorted(old(self).rt_heap@),
        ensures
            deadline_sorted(final(self).rt_heap@),
            exists|p: int|
                0 <= p <= old(self).rt_heap@.len() && final(self).rt_heap@ == old(self).rt_heap@.insert(
                    p,
                    (deadline, id),
                ) && (forall|i: int| 0 <= i < p ==> (#[trigger] old(self).rt_heap@[i]).0 <= deadline) && (forall|
                    i: int,
                |
                    p <= i < old(self).rt_heap@.len() ==> (#[trigger] old(self).rt_heap@[i]).0 > deadline),
            final(self).qos_queues == old(self).qos_queues,
            final(self).resource == old(self).resource,
            final(self).drr_deficit == old(self).drr_deficit,
            final(self).drr_quantum == old(self).drr_quantum,
            final(self).tasks_missed_deadline == old(self).tasks_missed_deadline,
    {
        let ghost pre = self.rt_heap@;
        let mut p: usize = 0;
        while p < self.rt_heap.len() && self.rt_heap[p].0 <= deadline
            invariant
                self.rt_heap@ == pre,
                p <= pre.len(),
                forall|i: int| 0 <= i < p ==> (#[trigger] pre[i]).0 <= deadline,
            decreases pre.len() - p,
        {
            p = p + 1;
        }
        self.rt_heap.insert(p, (deadline, id));
        proof {
            assert forall|i: int| p <= i < pre.len() implies (#[trigger] pre[i]).0 > deadline by {
                assert(pre[p as int].0 > deadline);
                assert(pre[p as int].0 <= pre[i].0);
            }
            let s = self.rt_heap@;
            assert(s == pre.insert(p as int, (deadline, id)));
            assert forall|i: int, j: int| 0 <= i <= j < s.len() implies (#[trigger] s[i]).0 <= (#[trigger] s[j]).0 by {
                let i0 = if i < p { i } else if i == p { -1 } else { i - 1 };
                let j0 = if j < p { j } else if j == p { -1 } else { j - 1 };
                if i0 >= 0 && j0 >= 0 {
                    assert(s[i] == pre[i0] && s[j] == pre[j0]);
                } else if i0 >= 0 {
                    assert(s[i] == pre[i0]);
                } else if j0 >= 0 {
                    assert(s[j] == pre[j0]);
                }
            }
            assert(self.rt_heap@ == old(self).rt_heap@.insert(p as int, (deadline, id)));
        }
    }

    /// Queues `task` in its class; a real-time task is also entered in the
    /// deadline list (even when its ring turns out to be full).
    pub fn schedule_task(&mut self, task: AiTask) -> (res: Result<(), AiTask>)
        requires
            old(self).wf(),
        ensures
            final(self).wf(),
            old(self).qos_queues@[qos_index(task.qos)]@.len() == 255 <==> res == Err::<(), AiTask>(task),
            res is Ok ==> final(self).qos_queues@[qos_index(task.qos)]@ == old(self).qos_queues@[qos_index(
                task.qos,
            )]@.push(task),
            forall|q: int|
                0 <= q < 4 && q != qos_index(task.qos) ==> (#[trigger] final(self).qos_queues@[q])@ == old(self).qos_queues@[q]@,
            task.qos == AiQoS::RealTimeInference ==> final(self).rt_heap@.len() == old(self).rt_heap@.len() + 1
                && final(self).rt_heap@.to_multiset() == old(self).rt_heap@.to_multiset().insert(
                (task.deadline.deadline_cycles, task.task_id),
            ),
            task.qos != AiQoS::RealTimeInference ==> final(self).rt_heap@ == old(self).rt_heap@,
    {
        let idx: usize = match task.qos {
            AiQoS::RealTimeInference => 0,
            AiQoS::InteractiveAI => 1,
            AiQoS::BackgroundTraining => 2,
            AiQoS::SystemMaintenance => 3,
        };
        if idx == 0 {
            let ghost before = self.rt_heap@;
            self.insert_by_deadline(task.deadline.deadline_cycles, task.task_id);
            proof {
                let p = choose|p: int|
                    0 <= p <= before.len() && self.rt_heap@ == before.insert(
                        p,
                        (task.deadline.deadline_cycles, task.task_id),
                    ) && (forall|i: int| 0 <= i < p ==> (#[trigger] before[i]).0 <= task.deadline.deadline_cycles)
                        && (forall|i: int|
                        p <= i < before.len() ==> (#[trigger] before[i]).0 > task.deadline.deadline_cycles);
                vstd::seq_lib::to_multiset_insert(before, p, (task.deadline.deadline_cycles, task.task_id));
            }
        }
        let ghost qs = self.qos_queues@;
        let r = self.qos_queues[idx].enqueue(task);
        proof {
            assert forall|q: int| 0 <= q < 4 implies (#[trigger] self.qos_queues@[q]).wf() by {
                if q != idx {
                    assert(self.qos_queues@[q] == qs[q]);
                }
            }
        }
        r
    }

    /// Tries to serve QoS class `q` by deficit round robin: with a positive
    /// deficit and a queued task, the task leaves and its cost is taken off
    /// the deficit.
    fn try_serve(&mut self, q: usize) -> (res: Option<AiTask>)
        requires
            old(self).wf(),
            1 <= q < 4,
        ensures
            final(self).wf(),
            final(self).rt_heap == old(self).rt_heap,
            final(self).drr_quantum == old(self).drr_quantum,
            final(self).tasks_missed_deadline == old(self).tasks_missed_deadline,
            drr_ready(*old(self), q as int) ==> {
                &&& res == Some(old(self).qos_queues@[q as int]@[0])
                &&& final(self).qos_queues@[q as int]@ == old(self).qos_queues@[q as int]@.drop_first()
                &&& forall|k: int|
                    0 <= k < 4 && k != q ==> (#[trigger] final(self).qos_queues@[k])@ == old(self).qos_queues@[k]@
                &&& final(self).drr_deficit@ == old(self).drr_deficit@.update(
                    q as int,
                    old(self).drr_deficit@[q as int].saturating_sub(
                        task_cost(old(self).qos_queues@[q as int]@[0]),
                    ),
                )
            },
            !drr_ready(*old(self), q as int) ==> {
                &&& res is None
                &&& forall|k: int|
                    0 <= k < 4 ==> (#[trigger] final(self).qos_queues@[k])@ == old(self).qos_queues@[k]@
                &&& final(self).drr_deficit == old(self).drr_deficit
            },
    {
        if self.drr_deficit[q] > 0 {
            let ghost qs = self.qos_queues@;
            let t = self.qos_queues[q].dequeue();
            proof {
                assert forall|k: int| 0 <= k < 4 implies (#[trigger] self.qos_queues@[k]).wf() by {
                    if k != q {
                        assert(self.qos_queues@[k] == qs[k]);
                    }
                }
                assert forall|k: int| 0 <= k < 4 && k != q implies (#[trigger] self.qos_queues@[k])@
                    == qs[k]@ by {
                    assert(self.qos_queues@[k] == qs[k]);
                }
            }
            if let Some(task) = t {
                let cost = (#[verifier::truncate] ((task.input_size / 1024) as u32)).wrapping_add(1);
                self.drr_deficit[q] = self.drr_deficit[q].saturating_sub(cost);
                return Some(task);
            }
            return None;
        }
        None
    }

    /// One deficit round robin pass over the non-real-time classes: the
    /// first ready class is served; when none is, every deficit grows by
    /// its quantum.
    fn drr_next(&mut self) -> (res: Option<AiTask>)
        requires
            old(self).wf(),
            drr_choice(*old(self)) is None ==> drr_room(old(self).drr_deficit@, old(self).drr_quantum@),
        ensures
            final(self).wf(),
            final(self).rt_heap == old(self).rt_heap,
            final(self).drr_quantum == old(self).drr_quantum,
            final(self).tasks_missed_deadline == old(self).tasks_missed_deadline,
            final(self).qos_queues@[0]@ == old(self).qos_queues@[0]@,
            drr_step(*old(self), *final(self), res),
    {
        let mut q: usize = 1;
        while q < 4
            invariant
                1 <= q <= 4,
                self.wf(),
                forall|k: int| 0 <= k < 4 ==> (#[trigger] self.qos_queues@[k])@ == old(self).qos_queues@[k]@,
                self.drr_deficit == old(self).drr_deficit,
                self.drr_quantum == old(self).drr_quantum,
                self.rt_heap == old(self).rt_heap,
                self.tasks_missed_deadline == old(self).tasks_missed_deadline,
                old(self).wf(),
                forall|k: int| 1 <= k < q ==> !drr_ready(*old(self), k),
            decreases 4 - q,
        {
            let ghost cur = *self;
            let r = self.try_serve(q);
            if r.is_some() {
                proof {
                    assert(drr_ready(cur, q as int));
                    assert(drr_ready(*old(self), q as int));
                    assert(drr_choice(*old(self)) == Some(q as int));
                }
                return r;
            }
            proof {
                assert(!drr_ready(cur, q as int));
            }
            q = q + 1;
        }
        assert(drr_choice(*old(self)) is None);
        let mut k: usize = 1;
        while k < 4
            invariant
                1 <= k <= 4,
                self.wf(),
                forall|j: int| 0 <= j < 4 ==> (#[trigger] self.qos_queues@[j])@ == old(self).qos_queues@[j]@,
                self.drr_quantum == old(self).drr_quantum,
                self.rt_heap == old(self).rt_heap,
                self.tasks_missed_deadline == old(self).tasks_missed_deadline,
                drr_room(old(self).drr_deficit@, old(self).drr_quantum@),
                self.drr_deficit@[0] == old(self).drr_deficit@[0],
                forall|j: int|
                    1 <= j < k ==> #[trigger] self.drr_deficit@[j] == (old(self).drr_deficit@[j]
                        + old(self).drr_quantum@[j]) as u32,
                forall|j: int| k <= j < 4 ==> #[trigger] self.drr_deficit@[j] == old(self).drr_deficit@[j],
            decreases 4 - k,
        {
            self.drr_deficit[k] = self.drr_deficit[k] + self.drr_quantum[k];
            k = k + 1;
        }
        assert(self.drr_deficit@ =~= replenished(old(self).drr_deficit@, old(self).drr_quantum@));
        None
    }

    /// Next task by earliest deadline first, then deficit round robin over
    /// the other classes. Real-time entries whose deadline is before `now`
    /// are dropped and counted as misses.
    pub fn get_next_task(&mut self, now: u64) -> (res: Option<AiTask>)
        requires
            old(self).wf(),
            drr_choice(*old(self)) is None ==> drr_room(old(self).drr_deficit@, old(self).drr_quantum@),
        ensures
            final(self).wf(),
            final(self).drr_quantum == old(self).drr_quantum,
            final(self).tasks_missed_deadline == add_wrapping(
                old(self).tasks_missed_deadline,
                expired_prefix(old(self).rt_heap@, now),
            ),
            rt_served(*old(self), now) ==> {
                &&& res == Some(old(self).qos_queues@[0]@[0])
                &&& final(self).qos_queues@[0]@ == old(self).qos_queues@[0]@.drop_first()
                &&& final(self).rt_heap@ == live_deadlines(old(self).rt_heap@, now).drop_first()
                &&& final(self).drr_deficit == old(self).drr_deficit
                &&& forall|k: int|
                    1 <= k < 4 ==> (#[trigger] final(self).qos_queues@[k])@ == old(self).qos_queues@[k]@
            },
            !rt_served(*old(self), now) ==> {
                &&& final(self).qos_queues@[0]@ == old(self).qos_queues@[0]@
                &&& final(self).rt_heap@ == live_deadlines(old(self).rt_heap@, now)
                &&& drr_step(*old(self), *final(self), res)
            },
        decreases old(self).rt_heap@.len(),
    {
        if self.rt_heap.len() > 0 {
            let (deadline_cycles, _task_id) = self.rt_heap[0];
            if now > deadline_cycles {
                let ghost before = *self;
                self.tasks_missed_deadline = self.tasks_missed_deadline.wrapping_add(1);
                self.rt_heap.remove(0);
                proof {
                    let h = before.rt_heap@;
                    assert(self.rt_heap@ == h.drop_first());
                    let s = self.rt_heap@;
                    assert forall|i: int, j: int| 0 <= i <= j < s.len() implies (#[trigger] s[i]).0
                        <= (#[trigger] s[j]).0 by {
                        assert(s[i] == h[i + 1] && s[j] == h[j + 1]);
                    }
                    let d = expired_prefix(h, now);
                    lemma_expired_prefix_bound(h, now);
                    assert(expired_prefix(s, now) == d - 1);
                    assert(h.skip(d as int) =~= s.skip(d - 1));
                    lemma_add_wrapping_step(before.tasks_missed_deadline, (d - 1) as nat);
                    assert(drr_choice(*self) == drr_choice(before));
                }
                return self.get_next_task(now);
            }
            let ghost before = *self;
            let t = self.qos_queues[0].dequeue();
            proof {
                assert forall|q: int| 0 <= q < 4 implies (#[trigger] self.qos_queues@[q]).wf() by {
                    if q != 0 {
                        assert(self.qos_queues@[q] == before.qos_queues@[q]);
                    }
                }
                assert forall|q: int| 1 <= q < 4 implies (#[trigger] self.qos_queues@[q])@
                    == before.qos_queues@[q]@ by {
                    assert(self.qos_queues@[q] == before.qos_queues@[q]);
                }
                assert(expired_prefix(before.rt_heap@, now) == 0);
                assert(before.rt_heap@.skip(0) =~= before.rt_heap@);
            }
            if let Some(task) = t {
                let ghost h = self.rt_heap@;
                self.rt_heap.remove(0);
                proof {
                    let s = self.rt_heap@;
                    assert(s == h.drop_first());
                    assert forall|i: int, j: int| 0 <= i <= j < s.len() implies (#[trigger] s[i]).0
                        <= (#[trigger] s[j]).0 by {
                        assert(s[i] == h[i + 1] && s[j] == h[j + 1]);
                    }
                }
                return Some(task);
            }
            proof {
                assert(drr_choice(*self) == drr_choice(before));
            }
            return self.drr_next();
        }
        proof {
            assert(self.rt_heap@.skip(0) =~= self.rt_heap@);
        }
        self.drr_next()
    }
}

/// Class `q` can be served: it has a positive deficit and a queued task.
pub open spec fn drr_ready(s: ResourceScheduler, q: int) -> bool {
    s.drr_deficit@[q] > 0 && s.qos_queues@[q]@.len() > 0
}

/// First non-real-time class that deficit round robin serves, if any.
pub open spec fn drr_choice(s: ResourceScheduler) -> Option<int> {
    if drr_ready(s, 1) {
        Some(1)
    } else if drr_ready(s, 2) {
        Some(2)
    } else if drr_ready(s, 3) {
        Some(3)
    } else {
        None
    }
}

/// Every non-real-time deficit can take one more quantum.
pub open spec fn drr_room(deficit: Seq<u32>, quantum: Seq<u32>) -> bool {
    forall|q: int| 1 <= q < 4 ==> #[trigger] deficit[q] + quantum[q] <= u32::MAX
}

/// Deficits after a pass that served nobody.
pub open spec fn replenished(deficit: Seq<u32>, quantum: Seq<u32>) -> Seq<u32> {
    seq![
        deficit[0],
        (deficit[1] + quantum[1]) as u32,
        (deficit[2] + quantum[2]) as u32,
        (deficit[3] + quantum[3]) as u32,
    ]
}

/// What one deficit round robin pass does to the non-real-time classes.
pub open spec fn drr_step(pre: ResourceScheduler, post: ResourceScheduler, res: Option<AiTask>) -> bool {
    match drr_choice(pre) {
        Some(q) => {
            &&& res == Some(pre.qos_queues@[q]@[0])
            &&& post.qos_queues@[q]@ == pre.qos_queues@[q]@.drop_first()
            &&& forall|k: int|
                1 <= k < 4 && k != q ==> (#[trigger] post.qos_queues@[k])@ == pre.qos_queues@[k]@
            &&& post.drr_deficit@ == pre.drr_deficit@.update(
                q,
                pre.drr_deficit@[q].saturating_sub(task_cost(pre.qos_queues@[q]@[0])),
            )
        },
        None => {
            &&& res is None
            &&& forall|k: int| 1 <= k < 4 ==> (#[trigger] post.qos_queues@[k])@ == pre.qos_queues@[k]@
            &&& post.drr_deficit@ == replenished(pre.drr_deficit@, pre.drr_quantum@)
        },
    }
}

/// Number of leading real-time entries whose deadline is before `now`.
pub open spec fn expired_prefix(heap: Seq<(u64, u64)>, now: u64) -> nat
    decreases heap.len(),
{
    if heap.len() > 0 && now > heap[0].0 {
        1 + expired_prefix(heap.drop_first(), now)
    } else {
        0
    }
}

proof fn lemma_expired_prefix_bound(heap: Seq<(u64, u64)>, now: u64)
    ensures
        expired_prefix(heap, now) <= heap.len(),
    decreases heap.len(),
{
    if heap.len() > 0 && now > heap[0].0 {
        lemma_expired_prefix_bound(heap.drop_first(), now);
    }
}

/// Real-time entries left once the expired ones are dropped.
pub open spec fn live_deadlines(heap: Seq<(u64, u64)>, now: u64) -> Seq<(u64, u64)> {
    heap.skip(expired_prefix(heap, now) as int)
}

/// A live real-time entry is left and the real-time ring has a task.
pub open spec fn rt_served(s: ResourceScheduler, now: u64) -> bool {
    live_deadlines(s.rt_heap@, now).len() > 0 && s.qos_queues@[0]@.len() > 0
}

/// `x + n` modulo 2^64.
pub open spec fn add_wrapping(x: u64, n: nat) -> u64 {
    ((x + n) % 0x1_0000_0000_0000_0000) as u64
}

proof fn lemma_add_wrapping_step(x: u64, n: nat)
    requires
        n < 0x1_0000_0000_0000_0000,
    ensures
        add_wrapping(x.wrapping_add(1), n) == add_wrapping(x, n + 1),
{
    let m: int = 0x1_0000_0000_0000_0000;
    if x == u64::MAX {
        vstd::arithmetic::div_mod::lemma_small_mod(n, m as nat);
        vstd::arithmetic::div_mod::lemma_mod_add_multiples_vanish(n as int, m);
    }
}

/// The integer terms of a resource's cost for a task: the queueing delay
/// (a quarter of the execution time per queued task), the predicted finish
/// time (execution plus queueing) and the thermal penalty (1000 below ten
/// degrees of headroom, in hundredths of a degree, else 10000 over the
/// headroom, at most 1000).
pub open spec fn cost_terms(queue_depth: u32, exec_time_ns: u32, thermal_headroom: u32) -> (u64, u64, u32) {
    let delay = (queue_depth * exec_time_ns / 4) as u64;
    (delay, (exec_time_ns + delay) as u64, if thermal_headroom < 1000 {
        1000u32
    } else if 10000u32 / thermal_headroom < 1000 {
        10000u32 / thermal_headroom
    } else {
        1000u32
    })
}

/// The integer terms of a resource's cost; see `cost_terms`.
pub fn resource_cost_terms(queue_depth: u32, exec_time_ns: u32, thermal_headroom: u32) -> (r: (u64, u64, u32))
    ensures
        r == cost_terms(queue_depth, exec_time_ns, thermal_headroom),
{
    proof {
        assert(queue_depth as u64 * exec_time_ns as u64 <= 0xFFFF_FFFEu64 * 0xFFFF_FFFFu64 + 0xFFFF_FFFFu64) by (nonlinear_arith);
    }
    let queue_delay_ns = queue_depth as u64 * exec_time_ns as u64 / 4;
    let predicted_finish_ns = exec_time_ns as u64 + queue_delay_ns;
    let thermal_penalty: u32 = if thermal_headroom < 1000 {
        1000
    } else {
        let p = 10000 / thermal_headroom;
        if p < 1000 {
            p
        } else {
            1000
        }
    };
    (queue_delay_ns, predicted_finish_ns, thermal_penalty)
}

/// Scheduler statistics.
#[derive(Clone, Copy, Debug)]
pub struct AiSchedulerStats {
    pub total_tasks_scheduled: u64,
    pub neural_engine_utilization: u32,
    pub cpu_neon_utilization: u32,
    pub gpu_metal_utilization: u32,
    pub rt_tasks_completed: u64,
    pub rt_deadline_misses: u64,
    pub average_latency_ns: u64,
    pub registered_fingerprints: u32,
    pub power_stats: SystemPowerStats,
}

} // verus!
