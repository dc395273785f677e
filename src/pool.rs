//! A pool of numeric ranges handed out from `[lo, hi)`, backed by
//! `range_alloc::RangeAllocator` and tracking every range it has lent.

use range_alloc::RangeAllocator;
use std::ops::Range;
use vstd::prelude::*;

verus! {

#[verifier::external_type_specification]
#[verifier::external_body]
#[verifier::reject_recursive_types(T)]
pub struct ExRangeAllocator<T>(RangeAllocator<T>);

/// The free list of a range allocator: its unused ranges, as `(start, end)`.
pub uninterp spec fn free_list(a: RangeAllocator<u64>) -> Seq<(u64, u64)>;

/// The whole interval an allocator manages, as `(start, end)`.
pub uninterp spec fn span_of(a: RangeAllocator<u64>) -> (u64, u64);

/// Free ranges are non-empty, lie in `[lo, hi)`, ascend, and neither overlap nor touch.
pub open spec fn free_list_wf(s: Seq<(u64, u64)>, lo: u64, hi: u64) -> bool {
    &&& forall|i: int| 0 <= i < s.len() ==> lo <= #[trigger] s[i].0 < s[i].1 <= hi
    &&& forall|i: int, j: int| 0 <= i < j < s.len() ==> #[trigger] s[i].1 < #[trigger] s[j].0
}

pub open spec fn allocator_wf(a: RangeAllocator<u64>) -> bool {
    span_of(a).0 <= span_of(a).1 && free_list_wf(free_list(a), span_of(a).0, span_of(a).1)
}

/// Two half-open ranges share no offset.
pub open spec fn disjoint(a: (u64, u64), b: (u64, u64)) -> bool {
    a.1 <= b.0 || b.1 <= a.0
}

/// Offset `x` lies in one of the free ranges.
pub open spec fn in_free_list(s: Seq<(u64, u64)>, x: int) -> bool {
    exists|i: int| 0 <= i < s.len() && s[i].0 <= x < #[trigger] s[i].1
}

/// The free list after `len` units were taken from the front of its `i`-th range.
pub open spec fn take_front(s: Seq<(u64, u64)>, i: int, len: u64) -> Seq<(u64, u64)> {
    if s[i].1 - s[i].0 == len {
        s.remove(i)
    } else {
        s.update(i, ((s[i].0 + len) as u64, s[i].1))
    }
}

/// The free list after the managed interval was extended from `old_end` to `new_end`.
pub open spec fn extend_end(s: Seq<(u64, u64)>, old_end: u64, new_end: u64) -> Seq<(u64, u64)> {
    if s.len() > 0 && s.last().1 == old_end {
        s.update(s.len() - 1, (s.last().0, new_end))
    } else {
        s.push((old_end, new_end))
    }
}

/// Relies on `RangeAllocator::new`: the whole range starts as the one free range.
#[verifier::external_body]
fn new_allocator(start: u64, end: u64) -> (r: RangeAllocator<u64>)
    requires
        start < end,
    ensures
        span_of(r) == (start, end),
        free_list(r) == seq![(start, end)],
{
    RangeAllocator::new(start..end)
}

/// Relies on `RangeAllocator::initial_range`: the interval managed now.
#[verifier::external_body]
fn allocator_span(a: &RangeAllocator<u64>) -> (r: (u64, u64))
    ensures
        r == span_of(*a),
{
    let range = a.initial_range();
    (range.start, range.end)
}

/// Relies on `RangeAllocator::grow_to`: the last free range is extended when it
/// reaches the old end, otherwise the new tail is appended as a free range.
#[verifier::external_body]
fn grow_allocator(a: &mut RangeAllocator<u64>, new_end: u64)
    requires
        allocator_wf(*old(a)),
        span_of(*old(a)).1 <= new_end,
    ensures
        span_of(*final(a)) == (span_of(*old(a)).0, new_end),
        free_list(*final(a)) == extend_end(free_list(*old(a)), span_of(*old(a)).1, new_end),
{
    a.grow_to(new_end)
}

/// Relies on `RangeAllocator::allocate_range`: it succeeds exactly when some free
/// range holds `len` units, and then takes them from the front of one such range.
#[verifier::external_body]
fn allocate_front(a: &mut RangeAllocator<u64>, len: u64) -> (r: Option<Range<u64>>)
    requires
        allocator_wf(*old(a)),
        0 < len <= u64::MAX / 2,
    ensures
        span_of(*final(a)) == span_of(*old(a)),
        match r {
            Some(range) => exists|i: int|
                0 <= i < free_list(*old(a)).len()
                && free_list(*old(a))[i].1 - free_list(*old(a))[i].0 >= len
                && range.start == free_list(*old(a))[i].0
                && range.end == free_list(*old(a))[i].0 + len
                && free_list(*final(a)) == take_front(free_list(*old(a)), i, len),
            None => free_list(*final(a)) == free_list(*old(a)) && forall|i: int|
                0 <= i < free_list(*old(a)).len() ==> #[trigger] free_list(*old(a))[i].1
                    - free_list(*old(a))[i].0 < len,
        },
{
    a.allocate_range(len).ok()
}

/// Relies on `RangeAllocator::free_range`: the range becomes free again and is
/// merged with its neighbours, keeping the free list ordered and coalesced.
#[verifier::external_body]
fn free_back(a: &mut RangeAllocator<u64>, start: u64, end: u64)
    requires
        allocator_wf(*old(a)),
        span_of(*old(a)).0 <= start < end <= span_of(*old(a)).1,
        forall|i: int|
            0 <= i < free_list(*old(a)).len() ==> disjoint(
                (start, end),
                #[trigger] free_list(*old(a))[i],
            ),
    ensures
        span_of(*final(a)) == span_of(*old(a)),
        allocator_wf(*final(a)),
        forall|x: int|
            in_free_list(free_list(*final(a)), x) <==> (in_free_list(free_list(*old(a)), x) || (
            start <= x < end)),
{
    a.free_range(start..end)
}

/// A range allocator together with the ranges it has lent and not yet taken back.
pub struct RangePool {
    alloc: RangeAllocator<u64>,
    live: Vec<(u64, u64)>,
}

impl RangePool {
    /// The interval the pool manages, as `(start, end)`.
    pub closed spec fn span(&self) -> (u64, u64) {
        span_of(self.alloc)
    }

    /// The ranges lent out and not yet released, in the order they were lent.
    pub closed spec fn lent(&self) -> Seq<(u64, u64)> {
        self.live@
    }

    /// The pool's free ranges.
    pub closed spec fn free(&self) -> Seq<(u64, u64)> {
        free_list(self.alloc)
    }

    /// Every lent range is non-empty, lies inside the span, and is disjoint from
    /// every other lent range and from every free range.
    pub open spec fn wf(&self) -> bool {
        &&& self.span().0 <= self.span().1
        &&& free_list_wf(self.free(), self.span().0, self.span().1)
        &&& lent_wf(self.lent(), self.free(), self.span())
    }

    /// A pool managing `[start, end)` with nothing lent.
    pub fn new(start: u64, end: u64) -> (r: RangePool)
        requires
            start < end,
        ensures
            r.wf(),
            r.span() == (start, end),
            r.lent() == Seq::<(u64, u64)>::empty(),
            r.free() == seq![(start, end)],
    {
        RangePool { alloc: new_allocator(start, end), live: Vec::new() }
    }

    /// The interval the pool manages.
    pub fn span_range(&self) -> (r: (u64, u64))
        ensures
            r == self.span(),
    {
        allocator_span(&self.alloc)
    }

    /// Lends `len` units from the front of a free range large enough for them;
    /// `None`, with the pool unchanged, when no free range is.
    pub fn allocate(&mut self, len: u64) -> (r: Option<Range<u64>>)
        requires
            old(self).wf(),
            0 < len <= u64::MAX / 2,
        ensures
            final(self).wf(),
            final(self).span() == old(self).span(),
            match r {
                Some(range) => {
                    &&& range.end - range.start == len
                    &&& final(self).lent() == old(self).lent().push((range.start, range.end))
                    &&& exists|i: int|
                        0 <= i < old(self).free().len() && old(self).free()[i].0 == range.start
                            && old(self).free()[i].1 - old(self).free()[i].0 >= len
                },
                None => {
                    &&& final(self).lent() == old(self).lent()
                    &&& final(self).free() == old(self).free()
                    &&& forall|i: int|
                        0 <= i < old(self).free().len() ==> #[trigger] old(self).free()[i].1
                            - old(self).free()[i].0 < len
                },
            },
    {
        let ghost old_free = free_list(self.alloc);
        let ghost old_live = self.live@;
        let r = allocate_front(&mut self.alloc, len);
        match r {
            Some(range) => {
                let ghost i = choose|i: int|
                    0 <= i < old_free.len() && old_free[i].1 - old_free[i].0 >= len
                        && range.start == old_free[i].0 && range.end == old_free[i].0 + len
                        && free_list(self.alloc) == take_front(old_free, i, len);
                self.live.push((range.start, range.end));
                proof {
                    let lo = span_of(self.alloc).0;
                    let hi = span_of(self.alloc).1;
                    lemma_take_front_wf(old_free, i, len, lo, hi);
                    lemma_take_front_lent(old_live, old_free, i, len, (lo, hi));
                }
                Some(range)
            },
            None => None,
        }
    }

    /// Takes back a lent range `[start, end)`. Returns whether it was lent; a
    /// range that was not leaves the pool unchanged.
    pub fn release(&mut self, start: u64, end: u64) -> (r: bool)
        requires
            old(self).wf(),
        ensures
            final(self).wf(),
            final(self).span() == old(self).span(),
            r == old(self).lent().contains((start, end)),
            r ==> exists|k: int|
                0 <= k < old(self).lent().len() && old(self).lent()[k] == (start, end)
                    && final(self).lent() == old(self).lent().remove(k),
            !r ==> final(self).lent() == old(self).lent() && final(self).free() == old(self).free(),
            forall|q: (u64, u64)|
                #[trigger] final(self).lent().contains(q) <==> (old(self).lent().contains(q) && q != (start, end)),
    {
        let mut k: usize = 0;
        while k < self.live.len()
            invariant
                k <= self.live.len(),
                self.wf(),
                self.live@ == old(self).live@,
                self.alloc == old(self).alloc,
                forall|j: int| 0 <= j < k ==> self.live@[j] != (start, end),
            decreases self.live.len() - k,
        {
            if self.live[k].0 == start && self.live[k].1 == end {
                let ghost old_free = free_list(self.alloc);
                let ghost old_live = self.live@;
                let ghost sp = span_of(self.alloc);
                proof {
                    assert(old_live[k as int] == (start, end));
                    assert forall|i: int| 0 <= i < old_free.len() implies disjoint(
                        (start, end),
                        #[trigger] old_free[i],
                    ) by {
                        assert(disjoint(old_live[k as int], old_free[i]));
                    }
                }
                self.live.remove(k);
                free_back(&mut self.alloc, start, end);
                proof {
                    lemma_release_lent(old_live, k as int, old_free, free_list(self.alloc), sp);
                    let l2 = self.live@;
                    assert forall|q: (u64, u64)| l2.contains(q) <==> (old_live.contains(q) && q != (start, end)) by {
                        if l2.contains(q) {
                            let a = choose|a: int| 0 <= a < l2.len() && l2[a] == q;
                            let a2 = if a < k { a } else { a + 1 };
                            assert(l2[a] == old_live[a2]);
                            assert(disjoint(old_live[a2], old_live[k as int]));
                        }
                        if old_live.contains(q) && q != (start, end) {
                            let a = choose|a: int| 0 <= a < old_live.len() && old_live[a] == q;
                            if a < k {
                                assert(l2[a] == q);
                            } else {
                                assert(l2[a - 1] == q);
                            }
                        }
                    }
                }
                return true;
            }
            k += 1;
        }
        proof {
            assert(!self.live@.contains((start, end)));
        }
        false
    }

    /// Extends the managed interval to end at `new_end`; the lent ranges keep
    /// their offsets.
    pub fn grow_to(&mut self, new_end: u64)
        requires
            old(self).wf(),
            old(self).span().1 < new_end,
        ensures
            final(self).wf(),
            final(self).span() == (old(self).span().0, new_end),
            final(self).lent() == old(self).lent(),
            final(self).free() == extend_end(old(self).free(), old(self).span().1, new_end),
    {
        let ghost old_free = free_list(self.alloc);
        let ghost sp = span_of(self.alloc);
        grow_allocator(&mut self.alloc, new_end);
        proof {
            lemma_extend_end_wf(old_free, sp.0, sp.1, new_end);
            lemma_extend_end_lent(self.live@, old_free, sp, new_end);
        }
    }
}

/// Whatever sequence of allocations, releases and growths produced a pool,
/// the ranges it has lent are pairwise disjoint and lie inside the interval
/// it manages.
pub proof fn lemma_lent_ranges_disjoint(pool: &RangePool)
    requires
        pool.wf(),
    ensures
        forall|i: int|
            0 <= i < pool.lent().len() ==> pool.span().0 <= #[trigger] pool.lent()[i].0 < pool.lent()[i].1 <= pool.span().1,
        forall|i: int, j: int|
            0 <= i < pool.lent().len() && 0 <= j < pool.lent().len() && i != j ==> (#[trigger] pool.lent()[i]).1
                <= (#[trigger] pool.lent()[j]).0 || pool.lent()[j].1 <= pool.lent()[i].0,
{
    assert forall|i: int, j: int|
        0 <= i < pool.lent().len() && 0 <= j < pool.lent().len() && i != j implies (#[trigger] pool.lent()[i]).1
            <= (#[trigger] pool.lent()[j]).0 || pool.lent()[j].1 <= pool.lent()[i].0 by {
        assert(disjoint(pool.lent()[i], pool.lent()[j]));
    }
}

/// Growing a pool keeps every lent range where it was, and it stays inside
/// the larger interval.
pub proof fn lemma_growth_keeps_offsets(before: &RangePool, after: &RangePool)
    requires
        before.wf(),
        after.wf(),
        after.span() == (before.span().0, after.span().1),
        before.span().1 < after.span().1,
        after.lent() == before.lent(),
    ensures
        forall|i: int|
            0 <= i < before.lent().len() ==> #[trigger] after.lent()[i] == before.lent()[i] && after.span().0
                <= before.lent()[i].0 && before.lent()[i].1 <= after.span().1,
{
}

/// The lent ranges are non-empty, inside `span`, pairwise disjoint, and disjoint
/// from every free range.
pub open spec fn lent_wf(live: Seq<(u64, u64)>, free: Seq<(u64, u64)>, span: (u64, u64)) -> bool {
    &&& forall|i: int| 0 <= i < live.len() ==> span.0 <= #[trigger] live[i].0 < live[i].1 <= span.1
    &&& forall|i: int, j: int|
        0 <= i < live.len() && 0 <= j < live.len() && i != j ==> disjoint(
            #[trigger] live[i],
            #[trigger] live[j],
        )
    &&& forall|i: int, k: int|
        0 <= i < live.len() && 0 <= k < free.len() ==> disjoint(#[trigger] live[i], #[trigger] free[k])
}

proof fn lemma_take_front_wf(s: Seq<(u64, u64)>, i: int, len: u64, lo: u64, hi: u64)
    requires
        free_list_wf(s, lo, hi),
        0 <= i < s.len(),
        0 < len <= s[i].1 - s[i].0,
    ensures
        free_list_wf(take_front(s, i, len), lo, hi),
{
    let t = take_front(s, i, len);
    if s[i].1 - s[i].0 == len {
        assert forall|a: int, b: int| 0 <= a < b < t.len() implies #[trigger] t[a].1 < #[trigger] t[b].0 by {
            let a2 = if a < i { a } else { a + 1 };
            let b2 = if b < i { b } else { b + 1 };
            assert(t[a] == s[a2] && t[b] == s[b2]);
        }
    }
}

proof fn lemma_take_front_lent(
    live: Seq<(u64, u64)>,
    s: Seq<(u64, u64)>,
    i: int,
    len: u64,
    span: (u64, u64),
)
    requires
        free_list_wf(s, span.0, span.1),
        lent_wf(live, s, span),
        0 <= i < s.len(),
        0 < len <= s[i].1 - s[i].0,
    ensures
        lent_wf(live.push((s[i].0, (s[i].0 + len) as u64)), take_front(s, i, len), span),
{
    let r = (s[i].0, (s[i].0 + len) as u64);
    let l2 = live.push(r);
    let t = take_front(s, i, len);
    assert forall|a: int| 0 <= a < live.len() implies disjoint(live[a], r) by {
        assert(disjoint(live[a], s[i]));
    }
    assert forall|a: int, k: int| 0 <= a < l2.len() && 0 <= k < t.len() implies disjoint(
        #[trigger] l2[a],
        #[trigger] t[k],
    ) by {
        let k2 = if s[i].1 - s[i].0 == len && k >= i { k + 1 } else { k };
        if a < live.len() {
            assert(l2[a] == live[a]);
            assert(disjoint(live[a], s[k2]));
        } else {
            if k2 != i {
                assert(disjoint(s[i], s[k2])) by {
                    if k2 < i {
                        assert(s[k2].1 < s[i].0);
                    } else {
                        assert(s[i].1 < s[k2].0);
                    }
                }
            }
        }
    }
    assert forall|a: int, b: int|
        0 <= a < l2.len() && 0 <= b < l2.len() && a != b implies disjoint(
        #[trigger] l2[a],
        #[trigger] l2[b],
    ) by {
        if a < live.len() && b < live.len() {
        } else if a < live.len() {
            assert(disjoint(live[a], r));
        } else {
            assert(disjoint(live[b], r));
        }
    }
}

proof fn lemma_release_lent(
    live: Seq<(u64, u64)>,
    k: int,
    free: Seq<(u64, u64)>,
    free2: Seq<(u64, u64)>,
    span: (u64, u64),
)
    requires
        lent_wf(live, free, span),
        0 <= k < live.len(),
        free_list_wf(free2, span.0, span.1),
        forall|x: int|
            in_free_list(free2, x) <==> (in_free_list(free, x) || (live[k].0 <= x < live[k].1)),
    ensures
        lent_wf(live.remove(k), free2, span),
{
    let l2 = live.remove(k);
    assert forall|a: int| 0 <= a < l2.len() implies span.0 <= #[trigger] l2[a].0 < l2[a].1
        <= span.1 by {
        let a2 = if a < k { a } else { a + 1 };
        assert(l2[a] == live[a2]);
    }
    assert forall|a: int, b: int|
        0 <= a < l2.len() && 0 <= b < l2.len() && a != b implies disjoint(
        #[trigger] l2[a],
        #[trigger] l2[b],
    ) by {
        let a2 = if a < k { a } else { a + 1 };
        let b2 = if b < k { b } else { b + 1 };
        assert(l2[a] == live[a2] && l2[b] == live[b2]);
    }
    assert forall|a: int, j: int| 0 <= a < l2.len() && 0 <= j < free2.len() implies disjoint(
        #[trigger] l2[a],
        #[trigger] free2[j],
    ) by {
        let a2 = if a < k { a } else { a + 1 };
        let l = live[a2];
        let f = free2[j];
        assert(l2[a] == l);
        if !disjoint(l, f) {
            let x: int = if l.0 < f.0 { f.0 as int } else { l.0 as int };
            assert(in_free_list(free2, x));
            if in_free_list(free, x) {
                let m = choose|m: int| 0 <= m < free.len() && free[m].0 <= x < #[trigger] free[m].1;
                assert(disjoint(live[a2], free[m]));
            } else {
                assert(disjoint(live[a2], live[k]));
            }
        }
    }
}

proof fn lemma_extend_end_wf(s: Seq<(u64, u64)>, lo: u64, hi: u64, new_end: u64)
    requires
        free_list_wf(s, lo, hi),
        lo <= hi < new_end,
    ensures
        free_list_wf(extend_end(s, hi, new_end), lo, new_end),
{
    let t = extend_end(s, hi, new_end);
    if s.len() > 0 && s.last().1 == hi {
        assert forall|a: int, b: int| 0 <= a < b < t.len() implies #[trigger] t[a].1 < #[trigger] t[b].0 by {
            assert(s[a].1 < s[b].0);
        }
    } else {
        assert forall|a: int, b: int| 0 <= a < b < t.len() implies #[trigger] t[a].1 < #[trigger] t[b].0 by {
            if b == s.len() {
                assert(s[a].1 <= hi);
                assert(s[a].1 != hi || a != s.len() - 1);
                if s[a].1 == hi {
                    assert(s[a].1 < s[s.len() - 1].0);
                }
            }
        }
    }
}

proof fn lemma_extend_end_lent(
    live: Seq<(u64, u64)>,
    s: Seq<(u64, u64)>,
    span: (u64, u64),
    new_end: u64,
)
    requires
        lent_wf(live, s, span),
        free_list_wf(s, span.0, span.1),
        span.1 < new_end,
    ensures
        lent_wf(live, extend_end(s, span.1, new_end), (span.0, new_end)),
{
    let t = extend_end(s, span.1, new_end);
    assert forall|a: int, k: int| 0 <= a < live.len() && 0 <= k < t.len() implies disjoint(
        #[trigger] live[a],
        #[trigger] t[k],
    ) by {
        if k < s.len() {
            assert(disjoint(live[a], s[k]));
        }
    }
}

} // verus!
