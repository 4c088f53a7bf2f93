//! The workers that wait on the rings of an asynchronous call buffer.
//!
//! Each request slot has one worker. A worker that finds its request not yet
//! submitted parks its waker in its slot; a worker that finds the completion
//! ring full queues its waker. The ring checkers then wake the workers whose
//! condition may have changed. What a waker is, and how it wakes, is up to the
//! executor: this module decides which wakers are handed back to be woken.

use crate::asynccall::{ring_count, PendingReason};
use vstd::prelude::*;

verus! {

/// The wakers of the workers that wait, each of type `W`.
pub struct AsyncCallInner<W> {
    request_not_ready: Vec<Option<W>>,
    comp_buffer_full: std::collections::VecDeque<W>,
}

/// The wakers parked in slots `lo` to `hi` (`hi` excluded), in slot order.
pub open spec fn wakers_in<W>(slots: Seq<Option<W>>, lo: int, hi: int) -> Seq<W>
    decreases hi - lo,
{
    if hi <= lo {
        Seq::empty()
    } else {
        let rest = wakers_in(slots, lo, hi - 1);
        match slots[hi - 1] {
            Some(w) => rest.push(w),
            None => rest,
        }
    }
}

/// The slots with slots `lo` to `hi` (`hi` excluded) emptied.
pub open spec fn cleared<W>(slots: Seq<Option<W>>, lo: int, hi: int) -> Seq<Option<W>> {
    Seq::new(slots.len(), |i: int| if lo <= i < hi { None } else { slots[i] })
}

/// Whether slot `i` lies in the range from slot `s` to slot `e` of a ring of
/// `n` slots, going round past the end where `e < s`; the whole ring where
/// `s == e`.
pub open spec fn in_wake_range(i: int, s: int, e: int, n: int) -> bool {
    if s == e {
        0 <= i < n
    } else if s < e {
        s <= i < e
    } else {
        s <= i < n || 0 <= i < e
    }
}

/// The wakers that waking the slots from `s` to `e` hands back, in the order
/// the slots are visited.
pub open spec fn woken_by<W>(slots: Seq<Option<W>>, s: int, e: int) -> Seq<W> {
    let n = slots.len() as int;
    if s == e {
        wakers_in(slots, 0, n)
    } else if s < e {
        wakers_in(slots, s, e)
    } else {
        wakers_in(slots, s, n) + wakers_in(slots, 0, e)
    }
}

/// A slot that holds `w` within `lo` to `hi` puts `w` among the wakers of
/// that range.
proof fn lemma_wakers_in_contains<W>(slots: Seq<Option<W>>, lo: int, hi: int, i: int, w: W)
    requires
        0 <= lo <= i < hi <= slots.len(),
        slots[i] == Some(w),
    ensures
        wakers_in(slots, lo, hi).contains(w),
    decreases hi - lo,
{
    if i == hi - 1 {
        let rest = wakers_in(slots, lo, hi - 1);
        assert(wakers_in(slots, lo, hi) == rest.push(w));
        assert(rest.push(w)[rest.len() as int] == w);
    } else {
        lemma_wakers_in_contains(slots, lo, hi - 1, i, w);
        let rest = wakers_in(slots, lo, hi - 1);
        let k = choose|k: int| 0 <= k < rest.len() && rest[k] == w;
        match slots[hi - 1] {
            Some(x) => {
                assert(rest.push(x)[k] == w);
            },
            None => {},
        }
    }
}

/// The wakers of a range depend on the slots of that range alone.
proof fn lemma_wakers_in_frame<W>(a: Seq<Option<W>>, b: Seq<Option<W>>, lo: int, hi: int)
    requires
        forall|i: int| lo <= i < hi ==> a[i] == b[i],
    ensures
        wakers_in(a, lo, hi) == wakers_in(b, lo, hi),
    decreases hi - lo,
{
    if hi > lo {
        lemma_wakers_in_frame(a, b, lo, hi - 1);
    }
}

impl<W> AsyncCallInner<W> {
    /// The waker parked in each request slot, if any.
    pub closed spec fn slots(&self) -> Seq<Option<W>> {
        self.request_not_ready@
    }

    /// The wakers queued for room on the completion ring, oldest first.
    pub closed spec fn queue(&self) -> Seq<W> {
        self.comp_buffer_full@
    }

    /// No waker parked for any of `request_entries` slots, none queued.
    pub fn new(request_entries: usize) -> (r: Self)
        ensures
            r.slots() == Seq::new(request_entries as nat, |i: int| None::<W>),
            r.queue() == Seq::<W>::empty(),
    {
        let mut slots: Vec<Option<W>> = Vec::new();
        while slots.len() < request_entries
            invariant
                slots.len() <= request_entries,
                forall|i: int| 0 <= i < slots.len() ==> slots@[i] is None,
            decreases request_entries - slots.len(),
        {
            slots.push(None);
        }
        assert(slots@ =~= Seq::new(request_entries as nat, |i: int| None::<W>));
        AsyncCallInner {
            request_not_ready: slots,
            comp_buffer_full: std::collections::VecDeque::new(),
        }
    }

    /// Parks `waker` for the worker `id`: in its slot where its request is
    /// not ready, at the back of the queue where the completion ring is full.
    pub fn pending(&mut self, id: usize, waker: W, reason: PendingReason)
        requires
            reason == PendingReason::RequestNotReady || reason == PendingReason::CompBufferFull,
            reason == PendingReason::RequestNotReady ==> id < old(self).slots().len(),
        ensures
            reason == PendingReason::RequestNotReady ==> {
                &&& final(self).slots() == old(self).slots().update(id as int, Some(waker))
                &&& final(self).queue() == old(self).queue()
            },
            reason == PendingReason::CompBufferFull ==> {
                &&& final(self).slots() == old(self).slots()
                &&& final(self).queue() == old(self).queue().push(waker)
            },
    {
        match reason {
            PendingReason::RequestNotReady => {
                self.request_not_ready[id] = Some(waker);
            },
            _ => {
                self.comp_buffer_full.push_back(waker);
            },
        }
    }

    /// Takes the wakers out of slots `lo` to `hi` and appends them to `out`.
    fn take_range(&mut self, lo: usize, hi: usize, out: &mut Vec<W>)
        requires
            lo <= hi <= old(self).slots().len(),
        ensures
            final(out)@ == old(out)@ + wakers_in(old(self).slots(), lo as int, hi as int),
            final(self).slots() == cleared(old(self).slots(), lo as int, hi as int),
            final(self).queue() == old(self).queue(),
    {
        let ghost s0 = self.slots();
        let ghost out0 = out@;
        let mut i: usize = lo;
        assert(s0 =~= cleared(s0, lo as int, lo as int));
        while i < hi
            invariant
                lo <= i <= hi <= s0.len(),
                s0.len() == self.slots().len(),
                out@ == out0 + wakers_in(s0, lo as int, i as int),
                self.slots() == cleared(s0, lo as int, i as int),
                self.queue() == old(self).queue(),
            decreases hi - i,
        {
            let taken = self.request_not_ready[i].take();
            let ghost before = out@;
            match taken {
                Some(w) => {
                    out.push(w);
                },
                None => {},
            }
            assert(self.slots() =~= cleared(s0, lo as int, i + 1));
            assert(out@ =~= out0 + wakers_in(s0, lo as int, i + 1));
            i = i + 1;
        }
    }

    /// Takes the wakers parked in the slots from `range.start` to
    /// `range.end`, both taken modulo the number of slots, going round the
    /// end where the range wraps, and the whole ring where they are equal.
    /// The wakers are handed back to be woken, in the order of the slots.
    pub fn wake_worker_wait_on_req_range(&mut self, range: core::ops::Range<u32>) -> (r: Vec<W>)
        requires
            old(self).slots().len() > 0,
        ensures
            ({
                let n = old(self).slots().len() as int;
                let s = (range.start as int) % n;
                let e = (range.end as int) % n;
                &&& r@ == woken_by(old(self).slots(), s, e)
                &&& final(self).slots() == Seq::new(
                    n as nat,
                    |i: int| if in_wake_range(i, s, e, n) { None } else { old(self).slots()[i] },
                )
                &&& final(self).queue() == old(self).queue()
            }),
    {
        let n: usize = self.request_not_ready.len();
        let start: usize = range.start as usize % n;
        let end: usize = range.end as usize % n;
        let ghost s0 = self.slots();
        let mut woken: Vec<W> = Vec::new();
        if start == end {
            self.take_range(0, n, &mut woken);
        } else if start < end {
            self.take_range(start, end, &mut woken);
        } else {
            self.take_range(start, n, &mut woken);
            proof {
                lemma_wakers_in_frame(self.slots(), s0, 0, end as int);
            }
            self.take_range(0, end, &mut woken);
        }
        assert(self.slots() =~= Seq::new(
            n as nat,
            |i: int| if in_wake_range(i, start as int, end as int, n as int) { None } else { s0[i] },
        ));
        assert(woken@ =~= woken_by(s0, start as int, end as int));
        woken
    }

    /// Takes the `count` oldest wakers queued for room on the completion
    /// ring, or all of them where fewer are queued, oldest first, to be
    /// woken.
    pub fn wake_worker_wait_on_comp_count(&mut self, count: usize) -> (r: Vec<W>)
        ensures
            ({
                let len = old(self).queue().len();
                let c = if count < len { count as int } else { len as int };
                &&& r@ == old(self).queue().subrange(0, c)
                &&& final(self).queue() == old(self).queue().subrange(c, len as int)
                &&& final(self).slots() == old(self).slots()
            }),
    {
        let len: usize = self.comp_buffer_full.len();
        let count: usize = if count < len {
            count
        } else {
            len
        };
        let ghost q0 = self.queue();
        let mut woken: Vec<W> = Vec::new();
        let mut i: usize = 0;
        while i < count
            invariant
                count <= len == q0.len(),
                i <= count,
                woken@ == q0.subrange(0, i as int),
                self.queue() == q0.subrange(i as int, len as int),
                self.slots() == old(self).slots(),
            decreases count - i,
        {
            match self.comp_buffer_full.pop_front() {
                Some(w) => {
                    woken.push(w);
                },
                None => {},
            }
            assert(woken@ =~= q0.subrange(0, i + 1));
            assert(self.queue() =~= q0.subrange(i + 1, len as int));
            i = i + 1;
        }
        woken
    }
}

/// A worker parked in a slot of the range that is woken is among the wakers
/// handed back.
pub proof fn lemma_parked_worker_is_woken<W>(slots: Seq<Option<W>>, id: int, w: W, s: int, e: int)
    requires
        0 <= s < slots.len(),
        0 <= e < slots.len(),
        0 <= id < slots.len(),
        slots[id] == Some(w),
        in_wake_range(id, s, e, slots.len() as int),
    ensures
        woken_by(slots, s, e).contains(w),
{
    let n = slots.len() as int;
    if s == e {
        lemma_wakers_in_contains(slots, 0, n, id, w);
    } else if s < e {
        lemma_wakers_in_contains(slots, s, e, id, w);
    } else {
        let a = wakers_in(slots, s, n);
        let b = wakers_in(slots, 0, e);
        if s <= id {
            lemma_wakers_in_contains(slots, s, n, id, w);
            let k = choose|k: int| 0 <= k < a.len() && a[k] == w;
            assert((a + b)[k] == w);
        } else {
            lemma_wakers_in_contains(slots, 0, e, id, w);
            let k = choose|k: int| 0 <= k < b.len() && b[k] == w;
            assert((a + b)[a.len() + k] == w);
        }
    }
}

/// What the request checker last saw of the request ring's tail.
pub struct ReqChecker {
    tail: u32,
}

impl ReqChecker {
    /// The tail last seen.
    pub closed spec fn spec_tail(&self) -> u32 {
        self.tail
    }

    /// A checker that has seen the tail at zero.
    pub fn new() -> (r: Self)
        ensures
            r.spec_tail() == 0,
    {
        ReqChecker { tail: 0 }
    }

    /// The tail last seen.
    pub fn tail(&self) -> (r: u32)
        ensures
            r == self.spec_tail(),
    {
        self.tail
    }

    /// One look at the request ring, for a thread that `thread_is_dead`
    /// says whether has died: where it has, the checker stops (`None`) and
    /// changes nothing. Otherwise, where the ring's tail `req_tail` has moved
    /// since the last look, wakes the workers of the slots it moved over and
    /// remembers it, and hands back the wakers to be woken.
    pub fn poll<W>(
        &mut self,
        inner: &mut AsyncCallInner<W>,
        thread_is_dead: bool,
        req_tail: u32,
    ) -> (r: Option<Vec<W>>)
        requires
            !thread_is_dead && old(self).spec_tail() != req_tail ==> old(inner).slots().len() > 0,
        ensures
            thread_is_dead ==> {
                &&& r is None
                &&& *final(self) == *old(self)
                &&& *final(inner) == *old(inner)
            },
            !thread_is_dead ==> r is Some && final(self).spec_tail() == req_tail,
            !thread_is_dead && old(self).spec_tail() == req_tail ==> {
                &&& r.unwrap()@ == Seq::<W>::empty()
                &&& *final(inner) == *old(inner)
            },
            !thread_is_dead && old(self).spec_tail() != req_tail ==> {
                let n = old(inner).slots().len() as int;
                let s = (old(self).spec_tail() as int) % n;
                let e = (req_tail as int) % n;
                &&& r.unwrap()@ == woken_by(old(inner).slots(), s, e)
                &&& final(inner).slots() == Seq::new(
                    n as nat,
                    |i: int| if in_wake_range(i, s, e, n) { None } else { old(inner).slots()[i] },
                )
                &&& final(inner).queue() == old(inner).queue()
            },
    {
        if thread_is_dead {
            return None;
        }
        if self.tail != req_tail {
            let woken = inner.wake_worker_wait_on_req_range(self.tail..req_tail);
            self.tail = req_tail;
            Some(woken)
        } else {
            Some(Vec::new())
        }
    }
}

/// What the completion checker last saw of the completion ring's head.
pub struct CompChecker {
    head: u32,
}

impl CompChecker {
    /// The head last seen.
    pub closed spec fn spec_head(&self) -> u32 {
        self.head
    }

    /// A checker that has seen the head at zero.
    pub fn new() -> (r: Self)
        ensures
            r.spec_head() == 0,
    {
        CompChecker { head: 0 }
    }

    /// The head last seen.
    pub fn head(&self) -> (r: u32)
        ensures
            r == self.spec_head(),
    {
        self.head
    }

    /// One look at the completion ring, for a thread that `thread_is_dead`
    /// says whether has died: where it has, the checker stops (`None`) and
    /// changes nothing. Otherwise, where the user has consumed completions
    /// since the last look, moving the head to `comp_head`, wakes as many of
    /// the workers queued for room as completions were consumed (the
    /// distance between the heads, modulo 2^32), remembers the head, and
    /// hands back the wakers to be woken.
    pub fn poll<W>(
        &mut self,
        inner: &mut AsyncCallInner<W>,
        thread_is_dead: bool,
        comp_head: u32,
    ) -> (r: Option<Vec<W>>)
        ensures
            thread_is_dead ==> {
                &&& r is None
                &&& *final(self) == *old(self)
                &&& *final(inner) == *old(inner)
            },
            !thread_is_dead ==> {
                let len = old(inner).queue().len();
                let count = ring_count(old(self).spec_head(), comp_head);
                let c = if count < len { count } else { len as int };
                &&& r is Some
                &&& final(self).spec_head() == comp_head
                &&& final(inner).slots() == old(inner).slots()
                &&& r.unwrap()@ == old(inner).queue().subrange(0, c)
                &&& final(inner).queue() == old(inner).queue().subrange(c, len as int)
            },
    {
        if thread_is_dead {
            return None;
        }
        if self.head != comp_head {
            let count: u32 = comp_head.wrapping_sub(self.head);
            let woken = inner.wake_worker_wait_on_comp_count(count as usize);
            self.head = comp_head;
            Some(woken)
        } else {
            proof {
                assert(old(inner).queue().subrange(0, 0) =~= Seq::<W>::empty());
                assert(old(inner).queue().subrange(0, old(inner).queue().len() as int)
                    =~= old(inner).queue());
            }
            Some(Vec::new())
        }
    }
}

/// The slots woken from slot `s` to slot `e` are those met going round the
/// ring from `s` up to, but not including, `e`: slot `i` is woken exactly
/// when fewer steps lead from `s` to `i` than from `s` to `e`; where `s` and
/// `e` are the same slot, the whole ring.
pub proof fn lemma_wake_range_is_the_slots_from_s_to_e(i: int, s: int, e: int, n: int)
    requires
        0 <= i < n,
        0 <= s < n,
        0 <= e < n,
    ensures
        s == e ==> in_wake_range(i, s, e, n),
        s != e ==> (in_wake_range(i, s, e, n) <==> (i - s) % n < (e - s) % n),
{
    if i >= s {
        vstd::arithmetic::div_mod::lemma_small_mod((i - s) as nat, n as nat);
    } else {
        vstd::arithmetic::div_mod::lemma_mod_add_multiples_vanish(i - s, n);
        vstd::arithmetic::div_mod::lemma_small_mod((i - s + n) as nat, n as nat);
    }
    if e >= s {
        vstd::arithmetic::div_mod::lemma_small_mod((e - s) as nat, n as nat);
    } else {
        vstd::arithmetic::div_mod::lemma_mod_add_multiples_vanish(e - s, n);
        vstd::arithmetic::div_mod::lemma_small_mod((e - s + n) as nat, n as nat);
    }
}

/// The wakers of a range are the wakers parked in its slots, each once, in
/// slot order: an empty range has none, and widening it by one slot adds
/// that slot's waker, if any, at the end.
pub proof fn lemma_wakers_in_order<W>(slots: Seq<Option<W>>, lo: int, hi: int)
    requires
        0 <= lo <= hi < slots.len(),
    ensures
        wakers_in(slots, lo, lo) == Seq::<W>::empty(),
        wakers_in(slots, lo, hi + 1) == match slots[hi] {
            Some(w) => wakers_in(slots, lo, hi).push(w),
            None => wakers_in(slots, lo, hi),
        },
{
}

} // verus!
