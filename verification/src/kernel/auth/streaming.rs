//! Ring buffer of behavioral events and a sliding window over the latest
//! ones.

use vstd::prelude::*;
use crate::kernel::auth::BehavioralEvent;
use crate::kernel::ai::scheduler::{ring_len, ring_slot, ring_next};

verus! {

/// Buffer-full error.
#[derive(Clone, Copy, PartialEq, Eq, Structural, Debug)]
pub struct BufferFull;

/// Ring buffer of behavioral events with `N` slots, one of which always
/// stays empty.
pub struct BehavioralStreamBuffer<const N: usize> {
    data: Vec<BehavioralEvent>,
    head: usize,
    tail: usize,
}

impl<const N: usize> BehavioralStreamBuffer<N> {
    pub closed spec fn wf(&self) -> bool {
        &&& 0 < N
        &&& self.data@.len() == N
        &&& self.head < N
        &&& self.tail < N
    }

    /// Buffered events, oldest first.
    pub closed spec fn view(&self) -> Seq<BehavioralEvent> {
        Seq::new(
            ring_len(self.head as int, self.tail as int, N as int) as nat,
            |k: int| self.data@[ring_slot(self.head as int, k, N as int)],
        )
    }

    /// A buffer holds fewer events than it has slots.
    pub proof fn lemma_len_bound(&self)
        requires
            self.wf(),
        ensures
            self@.len() < N,
    {
    }

    /// An empty buffer.
    pub fn new() -> (r: Self)
        requires
            0 < N,
        ensures
            r.wf(),
            r@ == Seq::<BehavioralEvent>::empty(),
    {
        let mut data: Vec<BehavioralEvent> = Vec::new();
        let mut i: usize = 0;
        while i < N
            invariant
                i <= N,
                data@.len() == i,
            decreases N - i,
        {
            data.push(BehavioralEvent::KeystrokeTiming { interval_us: 0, pressure: 0 });
            i = i + 1;
        }
        let r = BehavioralStreamBuffer { data, head: 0, tail: 0 };
        assert(r@ =~= Seq::<BehavioralEvent>::empty());
        r
    }

    proof fn lemma_next(x: usize)
        requires
            0 < N,
            x < N,
        ensures
            (x + 1) % (N as int) == ring_next(x as int, N as int),
    {
        if x + 1 < N {
            vstd::arithmetic::div_mod::lemma_small_mod((x + 1) as nat, N as nat);
        } else {
            vstd::arithmetic::div_mod::lemma_mod_self_0(N as int);
        }
    }

    /// Appends `event`; a full buffer refuses it.
    pub fn push(&mut self, event: BehavioralEvent) -> (r: Result<(), BufferFull>)
        requires
            old(self).wf(),
        ensures
            final(self).wf(),
            r is Err <==> old(self)@.len() == N - 1,
            r is Err ==> final(self)@ == old(self)@,
            r is Ok ==> final(self)@ == old(self)@.push(event),
    {
        let tail = self.tail;
        proof {
            Self::lemma_next(tail);
        }
        let next_tail = (tail + 1) % N;
        if next_tail == self.head {
            return Err(BufferFull);
        }
        let ghost pre = self@;
        let ghost h = self.head as int;
        self.data.set(tail, event);
        self.tail = next_tail;
        proof {
            let t = tail as int;
            let n = N as int;
            assert(ring_len(h, next_tail as int, n) == ring_len(h, t, n) + 1);
            assert(self@ =~= pre.push(event)) by {
                assert forall|k: int| 0 <= k < ring_len(h, t, n) implies self.data@[ring_slot(h, k, n)]
                    == old(self).data@[ring_slot(h, k, n)] by {
                    assert(ring_slot(h, k, n) != t);
                }
                assert(ring_slot(h, ring_len(h, t, n), n) == t);
            }
        }
        Ok(())
    }

    /// Removes the oldest event, if any.
    pub fn pop(&mut self) -> (r: Option<BehavioralEvent>)
        requires
            old(self).wf(),
        ensures
            final(self).wf(),
            r is None <==> old(self)@.len() == 0,
            r is None ==> final(self)@ == old(self)@,
            r is Some ==> r == Some(old(self)@[0]) && final(self)@ == old(self)@.drop_first(),
    {
        let head = self.head;
        let tail = self.tail;
        if head == tail {
            return None;
        }
        proof {
            Self::lemma_next(head);
            assert(ring_slot(head as int, 0, N as int) == head as int);
        }
        let event = self.data[head];
        let next_head = (head + 1) % N;
        self.head = next_head;
        proof {
            let h = head as int;
            let t = tail as int;
            let n = N as int;
            let h2 = next_head as int;
            assert(ring_len(h2, t, n) == ring_len(h, t, n) - 1);
            assert(self@ =~= old(self)@.drop_first()) by {
                assert forall|k: int| 0 <= k < ring_len(h2, t, n) implies ring_slot(h2, k, n) == ring_slot(h, k + 1, n) by {}
            }
        }
        Some(event)
    }

    /// Number of buffered events.
    pub fn len(&self) -> (r: usize)
        requires
            self.wf(),
        ensures
            r == self@.len(),
    {
        let head = self.head;
        let tail = self.tail;
        if tail >= head {
            tail - head
        } else {
            N - head + tail
        }
    }

    /// Whether no event is buffered.
    pub fn is_empty(&self) -> (r: bool)
        requires
            self.wf(),
        ensures
            r == (self@.len() == 0),
    {
        self.head == self.tail
    }

    /// Drops every event.
    pub fn clear(&mut self)
        requires
            old(self).wf(),
        ensures
            final(self).wf(),
            final(self)@ == Seq::<BehavioralEvent>::empty(),
    {
        self.head = 0;
        self.tail = 0;
        assert(self@ =~= Seq::<BehavioralEvent>::empty());
    }
}

/// Pushing onto an empty buffer and popping gives the event back and leaves
/// the buffer empty.
pub proof fn lemma_push_pop_round_trip(before: Seq<BehavioralEvent>, event: BehavioralEvent)
    requires
        before.len() == 0,
    ensures
        before.push(event)[0] == event,
        before.push(event).drop_first() == Seq::<BehavioralEvent>::empty(),
{
    assert(before.push(event).drop_first() =~= Seq::<BehavioralEvent>::empty());
}

/// The buffer's events after each of `es` has been pushed, in order, onto
/// events `v` (as an accepted `push` does).
pub open spec fn after_pushes(v: Seq<BehavioralEvent>, es: Seq<BehavioralEvent>) -> Seq<BehavioralEvent>
    decreases es.len(),
{
    if es.len() == 0 {
        v
    } else {
        after_pushes(v.push(es[0]), es.drop_first())
    }
}

/// What `n` successive `pop` calls return from a buffer holding `v`.
pub open spec fn pops(v: Seq<BehavioralEvent>, n: nat) -> Seq<Option<BehavioralEvent>>
    decreases n,
{
    if n == 0 {
        Seq::empty()
    } else if v.len() == 0 {
        seq![None::<BehavioralEvent>].add(pops(v, (n - 1) as nat))
    } else {
        seq![Some(v[0])].add(pops(v.drop_first(), (n - 1) as nat))
    }
}

proof fn lemma_after_pushes(v: Seq<BehavioralEvent>, es: Seq<BehavioralEvent>)
    ensures
        after_pushes(v, es) == v + es,
    decreases es.len(),
{
    if es.len() > 0 {
        lemma_after_pushes(v.push(es[0]), es.drop_first());
        assert(v.push(es[0]) + es.drop_first() =~= v + es);
    }
}

proof fn lemma_pops_all(v: Seq<BehavioralEvent>)
    ensures
        pops(v, v.len() + 1) == v.map_values(|e: BehavioralEvent| Some(e)).push(None),
    decreases v.len(),
{
    if v.len() == 0 {
        assert(pops(v, 0) =~= Seq::<Option<BehavioralEvent>>::empty());
        assert(pops(v, 1) =~= seq![None::<BehavioralEvent>]);
        assert(v.map_values(|e: BehavioralEvent| Some(e)).push(None) =~= seq![None::<BehavioralEvent>]);
    } else {
        lemma_pops_all(v.drop_first());
        assert(v.map_values(|e: BehavioralEvent| Some(e)).push(None) =~= seq![Some(v[0])].add(
            v.drop_first().map_values(|e: BehavioralEvent| Some(e)).push(None),
        ));
    }
}

/// The buffer is first in, first out: events pushed one by one onto an
/// empty buffer (each accepted) come back from successive pops in the
/// order they were pushed, and the pop after the last answers `None`.
pub proof fn lemma_fifo(es: Seq<BehavioralEvent>)
    ensures
        after_pushes(Seq::empty(), es) == es,
        pops(after_pushes(Seq::empty(), es), es.len() + 1) == es.map_values(|e: BehavioralEvent| Some(e)).push(
            None,
        ),
{
    lemma_after_pushes(Seq::empty(), es);
    assert(Seq::<BehavioralEvent>::empty() + es =~= es);
    lemma_pops_all(es);
}

/// Window of the latest `W` events, overwritten round robin.
pub struct SlidingWindow<const W: usize> {
    events: Vec<Option<BehavioralEvent>>,
    position: usize,
    duration_us: u64,
}

impl<const W: usize> SlidingWindow<W> {
    pub closed spec fn slots(&self) -> Seq<Option<BehavioralEvent>> {
        self.events@
    }

    pub closed spec fn cursor(&self) -> usize {
        self.position
    }

    pub closed spec fn duration(&self) -> u64 {
        self.duration_us
    }

    pub open spec fn wf(&self) -> bool {
        0 < W && self.slots().len() == W
    }

    /// An empty window covering `duration_us`.
    pub fn new(duration_us: u64) -> (r: Self)
        requires
            0 < W,
        ensures
            r.wf(),
            forall|i: int| 0 <= i < W ==> (#[trigger] r.slots()[i]) is None,
            r.cursor() == 0,
            r.duration() == duration_us,
    {
        let mut events: Vec<Option<BehavioralEvent>> = Vec::new();
        let mut i: usize = 0;
        while i < W
            invariant
                i <= W,
                events@.len() == i,
                forall|k: int| 0 <= k < i ==> (#[trigger] events@[k]) is None,
            decreases W - i,
        {
            events.push(None);
            i = i + 1;
        }
        SlidingWindow { events, position: 0, duration_us }
    }

    /// Stores `event` in the slot the cursor points at (modulo the window)
    /// and advances the cursor.
    pub fn add(&mut self, event: BehavioralEvent)
        requires
            old(self).wf(),
        ensures
            final(self).wf(),
            final(self).slots() == old(self).slots().update((old(self).cursor() as int) % (W as int), Some(event)),
            final(self).cursor() == old(self).cursor().wrapping_add(1),
            final(self).duration() == old(self).duration(),
    {
        let pos = self.position % W;
        self.position = self.position.wrapping_add(1);
        self.events.set(pos, Some(event));
    }

    /// Events in the window, in slot order.
    pub fn get_recent(&self) -> (r: Vec<BehavioralEvent>)
        ensures
            r@ == somes(self.slots()),
    {
        let mut out: Vec<BehavioralEvent> = Vec::new();
        let mut i: usize = 0;
        while i < self.events.len()
            invariant
                i <= self.slots().len(),
                out@ == somes(self.slots().subrange(0, i as int)),
            decreases self.slots().len() - i,
        {
            proof {
                assert(self.slots().subrange(0, i + 1).drop_last() =~= self.slots().subrange(0, i as int));
            }
            if let Some(e) = self.events[i] {
                out.push(e);
            }
            i = i + 1;
        }
        proof {
            assert(self.slots().subrange(0, self.slots().len() as int) =~= self.slots());
        }
        out
    }
}

/// The present events of `s`, in order.
pub open spec fn somes(s: Seq<Option<BehavioralEvent>>) -> Seq<BehavioralEvent>
    decreases s.len(),
{
    if s.len() == 0 {
        Seq::empty()
    } else {
        match s.last() {
            Some(e) => somes(s.drop_last()).push(e),
            None => somes(s.drop_last()),
        }
    }
}

} // verus!
