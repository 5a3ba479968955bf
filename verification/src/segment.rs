//! Memory segments: half-open address ranges, the canonical form of a set of
//! free ranges, first-fit reservation, and release with coalescing.

use vstd::prelude::*;

verus! {

/// A half-open range of physical addresses, `start` included and `end` not.
#[derive(Clone, Copy, Debug, PartialEq, Eq, Structural)]
pub struct Segment {
    pub start: u64,
    pub end: u64,
}

impl Segment {
    /// The address `x` lies in the range.
    pub open spec fn holds(self, x: int) -> bool {
        self.start <= x < self.end
    }

    /// The number of addresses in the range.
    pub open spec fn size(self) -> int {
        if self.start <= self.end {
            self.end - self.start
        } else {
            0
        }
    }

    /// The two ranges share an address.
    pub open spec fn overlaps(self, other: Segment) -> bool {
        &&& self.start < self.end
        &&& other.start < other.end
        &&& self.start < other.end
        &&& other.start < self.end
    }

    /// The ranges overlap or one ends where the other starts.
    pub open spec fn touches(self, other: Segment) -> bool {
        self.start <= other.end && other.start <= self.end
    }

    /// Whether the two ranges share an address.
    pub fn overlapping(&self, other: &Segment) -> (r: bool)
        ensures
            r == self.overlaps(*other),
    {
        self.start < self.end && other.start < other.end && self.start < other.end && other.start
            < self.end
    }
}

/// Two ranges overlap exactly when some address lies in both.
pub proof fn lemma_overlap_shares_address(a: Segment, b: Segment)
    ensures
        a.overlaps(b) <==> exists|x: int| a.holds(x) && b.holds(x),
{
    if a.overlaps(b) {
        let x = if a.start <= b.start {
            b.start as int
        } else {
            a.start as int
        };
        assert(a.holds(x) && b.holds(x));
    }
}

/// Some range of `segs` holds the address `x`.
pub open spec fn covers(segs: Seq<Segment>, x: int) -> bool {
    exists|i: int| 0 <= i < segs.len() && (#[trigger] segs[i]).holds(x)
}

/// The canonical form of a free list: every range is non-empty, the ranges
/// ascend by address, and no two overlap or touch.
pub open spec fn normalized(segs: Seq<Segment>) -> bool {
    &&& forall|i: int| 0 <= i < segs.len() ==> (#[trigger] segs[i]).start < segs[i].end
    &&& forall|i: int, j: int|
        0 <= i < j < segs.len() ==> (#[trigger] segs[i]).end < (#[trigger] segs[j]).start
}

/// Some range of `segs` overlaps `range`.
pub open spec fn overlaps_any(segs: Seq<Segment>, range: Segment) -> bool {
    exists|i: int| 0 <= i < segs.len() && (#[trigger] segs[i]).overlaps(range)
}

/// Some range of `segs` overlaps or touches `range`.
pub open spec fn touches_any(segs: Seq<Segment>, range: Segment) -> bool {
    exists|i: int| 0 <= i < segs.len() && (#[trigger] segs[i]).touches(range)
}

/// Coverage of a list with one more range at its end.
pub proof fn lemma_covers_push(s: Seq<Segment>, seg: Segment, x: int)
    ensures
        covers(s.push(seg), x) <==> (covers(s, x) || seg.holds(x)),
{
    let t = s.push(seg);
    if covers(s, x) {
        let i = choose|i: int| 0 <= i < s.len() && (#[trigger] s[i]).holds(x);
        assert(t[i].holds(x));
    }
    if seg.holds(x) {
        assert(t[s.len() as int].holds(x));
    }
    if covers(t, x) {
        let i = choose|i: int| 0 <= i < t.len() && (#[trigger] t[i]).holds(x);
        if i < s.len() {
            assert(s[i].holds(x));
        }
    }
}

/// A list overlaps a range exactly when it covers one of its addresses.
pub proof fn lemma_overlaps_any_shares_address(segs: Seq<Segment>, range: Segment)
    ensures
        overlaps_any(segs, range) <==> exists|x: int| range.holds(x) && covers(segs, x),
{
    if overlaps_any(segs, range) {
        let i = choose|i: int| 0 <= i < segs.len() && (#[trigger] segs[i]).overlaps(range);
        lemma_overlap_shares_address(segs[i], range);
        let x = choose|x: int| segs[i].holds(x) && range.holds(x);
        assert(range.holds(x) && covers(segs, x));
    }
    if exists|x: int| range.holds(x) && covers(segs, x) {
        let x = choose|x: int| range.holds(x) && covers(segs, x);
        let i = choose|i: int| 0 <= i < segs.len() && (#[trigger] segs[i]).holds(x);
        lemma_overlap_shares_address(segs[i], range);
        assert(segs[i].overlaps(range));
    }
}

/// Whether some range of `segs` overlaps `range`.
pub fn any_overlap(segs: &Vec<Segment>, range: Segment) -> (r: bool)
    ensures
        r == overlaps_any(segs@, range),
{
    let mut i: usize = 0;
    while i < segs.len()
        invariant
            i <= segs.len(),
            forall|k: int| 0 <= k < i ==> !(#[trigger] segs@[k]).overlaps(range),
        decreases segs.len() - i,
    {
        if segs[i].overlapping(&range) {
            return true;
        }
        i += 1;
    }
    false
}

/// Whether the list is in canonical form.
pub fn is_normalized(segs: &Vec<Segment>) -> (r: bool)
    ensures
        r == normalized(segs@),
{
    let mut i: usize = 0;
    while i < segs.len()
        invariant
            i <= segs.len(),
            normalized(segs@.take(i as int)),
        decreases segs.len() - i,
    {
        if segs[i].start >= segs[i].end {
            return false;
        }
        if i > 0 && segs[i - 1].end >= segs[i].start {
            assert(!(segs@[i - 1].end < segs@[i as int].start));
            return false;
        }
        proof {
            let t = segs@.take(i + 1);
            assert forall|a: int, b: int| 0 <= a < b < t.len() implies (#[trigger] t[a]).end < (
            #[trigger] t[b]).start by {
                if b < i {
                    assert(segs@.take(i as int)[a].end < segs@.take(i as int)[b].start);
                } else if a < i - 1 {
                    assert(segs@.take(i as int)[a].end < segs@.take(i as int)[i - 1].start);
                    assert(segs@.take(i as int)[i - 1].start < segs@.take(i as int)[i - 1].end);
                }
            }
            assert forall|a: int| 0 <= a < t.len() implies (#[trigger] t[a]).start < t[a].end by {
                if a < i {
                    assert(segs@.take(i as int)[a].start < segs@.take(i as int)[a].end);
                }
            }
        }
        i += 1;
    }
    assert(segs@.take(segs.len() as int) =~= segs@);
    true
}

/// `i` is the first range of `free` that has room for `size` addresses.
pub open spec fn is_first_fit(free: Seq<Segment>, size: int, i: int) -> bool {
    &&& 0 <= i < free.len()
    &&& free[i].size() >= size
    &&& forall|j: int| 0 <= j < i ==> (#[trigger] free[j]).size() < size
}

/// No range of `free` has room for `size` addresses.
pub open spec fn no_fit(free: Seq<Segment>, size: int) -> bool {
    forall|j: int| 0 <= j < free.len() ==> (#[trigger] free[j]).size() < size
}

/// The range handed out when `size` addresses are taken from the low end of
/// `seg`.
pub open spec fn taken_from(seg: Segment, size: int) -> Segment {
    Segment { start: seg.start, end: (seg.start + size) as u64 }
}

/// The free list after `size` addresses were taken from the low end of its
/// range `i`: the range starts later, or leaves the list when nothing of it
/// remains.
pub open spec fn after_taking(free: Seq<Segment>, i: int, size: int) -> Seq<Segment> {
    if free[i].size() == size {
        free.remove(i)
    } else {
        free.update(i, Segment { start: (free[i].start + size) as u64, end: free[i].end })
    }
}

/// Taking from a canonical list leaves a canonical list, which covers what
/// it covered before except the addresses handed out.
pub proof fn lemma_taking_keeps_normalized(free: Seq<Segment>, i: int, size: int)
    requires
        normalized(free),
        0 <= i < free.len(),
        0 <= size <= free[i].size(),
    ensures
        normalized(after_taking(free, i, size)),
        forall|x: int|
            covers(after_taking(free, i, size), x) <==> (covers(free, x) && !taken_from(
                free[i],
                size,
            ).holds(x)),
{
    let post = after_taking(free, i, size);
    let got = taken_from(free[i], size);
    assert(free[i].start < free[i].end);
    if free[i].size() == size {
        assert forall|a: int, b: int| 0 <= a < b < post.len() implies (#[trigger] post[a]).end < (
        #[trigger] post[b]).start by {
            let fa = if a < i {
                a
            } else {
                a + 1
            };
            let fb = if b < i {
                b
            } else {
                b + 1
            };
            assert(free[fa].end < free[fb].start);
        }
        assert forall|a: int| 0 <= a < post.len() implies (#[trigger] post[a]).start
            < post[a].end by {
            let fa = if a < i {
                a
            } else {
                a + 1
            };
            assert(free[fa].start < free[fa].end);
        }
    } else {
        assert forall|a: int, b: int| 0 <= a < b < post.len() implies (#[trigger] post[a]).end < (
        #[trigger] post[b]).start by {
            assert(free[a].end < free[b].start);
        }
        assert forall|a: int| 0 <= a < post.len() implies (#[trigger] post[a]).start
            < post[a].end by {
            assert(free[a].start < free[a].end);
        }
    }
    assert forall|x: int| covers(post, x) <==> (covers(free, x) && !got.holds(x)) by {
        if covers(post, x) {
            let a = choose|a: int| 0 <= a < post.len() && (#[trigger] post[a]).holds(x);
            let fa = if free[i].size() == size && a >= i {
                a + 1
            } else {
                a
            };
            assert(free[fa].holds(x));
            if fa < i {
                assert(free[fa].end < free[i].start);
            } else if fa > i {
                assert(free[i].end < free[fa].start);
            }
        }
        if covers(free, x) && !got.holds(x) {
            let fa = choose|a: int| 0 <= a < free.len() && (#[trigger] free[a]).holds(x);
            let a = if free[i].size() == size && fa > i {
                fa - 1
            } else {
                fa
            };
            assert(post[a].holds(x));
        }
    }
}

/// First fit: takes `size` addresses from the low end of the first range of
/// the free list that has room for them.
pub fn take_first_fit(free: &mut Vec<Segment>, size: u64) -> (r: Option<Segment>)
    requires
        normalized(old(free)@),
    ensures
        match r {
            Some(seg) => exists|i: int|
                {
                    &&& is_first_fit(old(free)@, size as int, i)
                    &&& seg == taken_from(old(free)@[i], size as int)
                    &&& final(free)@ == after_taking(old(free)@, i, size as int)
                },
            None => no_fit(old(free)@, size as int) && final(free)@ == old(free)@,
        },
        normalized(final(free)@),
        r matches Some(seg) ==> seg.size() == size && !overlaps_any(final(free)@, seg) && (forall|
            x: int,
        |
            covers(old(free)@, x) <==> (covers(final(free)@, x) || seg.holds(x))),
{
    let mut i: usize = 0;
    while i < free.len()
        invariant
            i <= free.len(),
            free@ == old(free)@,
            normalized(free@),
            forall|j: int| 0 <= j < i ==> (#[trigger] free@[j]).size() < size,
        decreases free.len() - i,
    {
        let seg = free[i];
        assert(seg.start < seg.end);
        if seg.end - seg.start >= size {
            let got = Segment { start: seg.start, end: seg.start + size };
            proof {
                lemma_taking_keeps_normalized(free@, i as int, size as int);
                assert(is_first_fit(free@, size as int, i as int));
            }
            if seg.end - seg.start == size {
                free.remove(i);
            } else {
                free.set(i, Segment { start: seg.start + size, end: seg.end });
            }
            proof {
                assert(free@ == after_taking(old(free)@, i as int, size as int));
                lemma_overlaps_any_shares_address(free@, got);
                assert forall|x: int|
                    covers(old(free)@, x) <==> (covers(free@, x) || got.holds(x)) by {
                    if got.holds(x) {
                        assert(old(free)@[i as int].holds(x));
                    }
                }
            }
            return Some(got);
        }
        i += 1;
    }
    None
}

/// The canonical list that covers what `free` covers and `range` besides.
/// It exists and is unique; `merge_into` computes it.
pub open spec fn is_merge_of(out: Seq<Segment>, free: Seq<Segment>, range: Segment) -> bool {
    &&& normalized(out)
    &&& forall|x: int|
        #![trigger covers(out, x)]
        covers(out, x) <==> (covers(free, x) || range.holds(x))
}

/// Releases `range` into a canonical free list: the result is again
/// canonical, so that ranges which have become contiguous are one range.
pub fn merge_into(free: &Vec<Segment>, range: Segment) -> (out: Vec<Segment>)
    requires
        normalized(free@),
    ensures
        is_merge_of(out@, free@, range),
{
    let mut out: Vec<Segment> = Vec::new();
    if range.start >= range.end {
        let mut k: usize = 0;
        while k < free.len()
            invariant
                k <= free.len(),
                out@ == free@.take(k as int),
            decreases free.len() - k,
        {
            out.push(free[k]);
            k += 1;
            assert(free@.take(k as int) =~= free@.take(k - 1).push(free@[k - 1]));
        }
        assert(free@.take(free.len() as int) =~= free@);
        return out;
    }
    let mut cur = range;
    let mut placed = false;
    let mut i: usize = 0;
    while i < free.len()
        invariant
            i <= free.len(),
            normalized(free@),
            normalized(out@),
            cur.start < cur.end,
            forall|k: int, j: int|
                0 <= k < out.len() && i <= j < free.len() ==> (#[trigger] out@[k]).end < (
                #[trigger] free@[j]).start,
            !placed ==> forall|k: int| 0 <= k < out.len() ==> (#[trigger] out@[k]).end < cur.start,
            !placed ==> forall|x: int|
                #![trigger covers(out@, x)]
                (covers(out@, x) || cur.holds(x)) <==> (covers(free@.take(i as int), x)
                    || range.holds(x)),
            placed ==> forall|x: int|
                #![trigger covers(out@, x)]
                covers(out@, x) <==> (covers(free@.take(i as int), x) || range.holds(x)),
        decreases free.len() - i,
    {
        let seg = free[i];
        let ghost old_out = out@;
        let ghost old_cur = cur;
        let ghost seen = free@.take(i as int);
        let ghost seen_next = free@.take(i + 1);
        proof {
            if !placed {
                assert forall|x: int|
                    (covers(old_out, x) || old_cur.holds(x)) <==> (covers(seen, x) || range.holds(
                        x,
                    )) by {}
            }
            assert(seen_next =~= seen.push(seg));
            assert(seg.start < seg.end);
            assert forall|j: int| i < j < free.len() implies seg.end < (#[trigger] free@[j]).start by {
                assert(free@[i as int].end < free@[j].start);
            }
        }
        if placed || seg.end < cur.start {
            out.push(seg);
            proof {
                assert forall|a: int, b: int| 0 <= a < b < out.len() implies (#[trigger] out@[a]).end
                    < (#[trigger] out@[b]).start by {
                    if b < old_out.len() {
                        assert(old_out[a].end < old_out[b].start);
                    } else {
                        assert(old_out[a].end < free@[i as int].start);
                    }
                }
                assert forall|a: int| 0 <= a < out.len() implies (#[trigger] out@[a]).start
                    < out@[a].end by {
                    if a < old_out.len() {
                        assert(old_out[a].start < old_out[a].end);
                    }
                }
                assert(out@ == old_out.push(seg));
                if placed {
                    assert forall|x: int|
                        covers(out@, x) <==> (covers(seen_next, x) || range.holds(x)) by {
                        lemma_covers_push(old_out, seg, x);
                        lemma_covers_push(seen, seg, x);
                        assert(covers(old_out, x) <==> (covers(seen, x) || range.holds(x)));
                    }
                } else {
                    assert forall|x: int|
                        (covers(out@, x) || cur.holds(x)) <==> (covers(seen_next, x)
                            || range.holds(x)) by {
                        lemma_covers_push(old_out, seg, x);
                        lemma_covers_push(seen, seg, x);
                        assert((covers(old_out, x) || cur.holds(x)) <==> (covers(seen, x)
                            || range.holds(x)));
                    }
                }
            }
        } else if cur.end < seg.start {
            out.push(cur);
            out.push(seg);
            placed = true;
            proof {
                let mid = old_out.push(cur);
                assert(out@ == mid.push(seg));
                assert forall|a: int, b: int| 0 <= a < b < out.len() implies (#[trigger] out@[a]).end
                    < (#[trigger] out@[b]).start by {
                    if b < old_out.len() {
                        assert(old_out[a].end < old_out[b].start);
                    } else if b == old_out.len() {
                        assert(old_out[a].end < cur.start);
                    } else if a < old_out.len() {
                        assert(old_out[a].end < free@[i as int].start);
                    }
                }
                assert forall|a: int| 0 <= a < out.len() implies (#[trigger] out@[a]).start
                    < out@[a].end by {
                    if a < old_out.len() {
                        assert(old_out[a].start < old_out[a].end);
                    }
                }
                assert forall|x: int|
                    covers(out@, x) <==> (covers(seen_next, x) || range.holds(x)) by {
                    lemma_covers_push(mid, seg, x);
                    lemma_covers_push(old_out, cur, x);
                    lemma_covers_push(seen, seg, x);
                }
            }
        } else {
            let lo = if seg.start < cur.start {
                seg.start
            } else {
                cur.start
            };
            let hi = if seg.end > cur.end {
                seg.end
            } else {
                cur.end
            };
            cur = Segment { start: lo, end: hi };
            proof {
                assert forall|k: int| 0 <= k < out.len() implies (#[trigger] out@[k]).end
                    < cur.start by {
                    assert(out@[k].end < old_cur.start);
                    assert(out@[k].end < free@[i as int].start);
                }
                assert forall|x: int|
                    (covers(out@, x) || cur.holds(x)) <==> (covers(seen_next, x) || range.holds(
                        x,
                    )) by {
                    lemma_covers_push(seen, seg, x);
                    assert(cur.holds(x) <==> (old_cur.holds(x) || seg.holds(x)));
                    assert((covers(out@, x) || old_cur.holds(x)) <==> (covers(seen, x)
                        || range.holds(x)));
                }
            }
        }
        i += 1;
    }
    assert(free@.take(free.len() as int) =~= free@);
    let ghost old_out = out@;
    if !placed {
        out.push(cur);
    }
    proof {
        if !placed {
            assert forall|a: int, b: int| 0 <= a < b < out.len() implies (#[trigger] out@[a]).end < (
            #[trigger] out@[b]).start by {
                if b < old_out.len() {
                    assert(old_out[a].end < old_out[b].start);
                } else {
                    assert(old_out[a].end < cur.start);
                }
            }
            assert forall|a: int| 0 <= a < out.len() implies (#[trigger] out@[a]).start
                < out@[a].end by {
                if a < old_out.len() {
                    assert(old_out[a].start < old_out[a].end);
                }
            }
            assert(normalized(out@));
        } else {
            assert(out@ == old_out);
            assert(normalized(out@));
        }
        assert(normalized(out@));
        assert forall|x: int| #![trigger covers(out@, x)]
            covers(out@, x) <==> (covers(free@, x) || range.holds(x)) by {
            if !placed {
                lemma_covers_push(old_out, cur, x);
                assert((covers(old_out, x) || cur.holds(x)) <==> (covers(free@, x) || range.holds(
                    x,
                )));
            } else {
                assert(covers(old_out, x) <==> (covers(free@.take(free.len() as int), x)
                    || range.holds(x)));
            }
        }
    }
    out
}

/// The canonical list that covers exactly what the ranges of `segs` cover.
pub open spec fn is_normal_form_of(out: Seq<Segment>, segs: Seq<Segment>) -> bool {
    &&& normalized(out)
    &&& forall|x: int| #![trigger covers(out, x)] covers(out, x) <==> covers(segs, x)
}

/// Brings any list of ranges into canonical form: sorted by address, with
/// overlapping and contiguous ranges made one and empty ranges dropped.
pub fn normalize(segs: &Vec<Segment>) -> (out: Vec<Segment>)
    ensures
        is_normal_form_of(out@, segs@),
{
    let mut out: Vec<Segment> = Vec::new();
    let mut i: usize = 0;
    while i < segs.len()
        invariant
            i <= segs.len(),
            is_normal_form_of(out@, segs@.take(i as int)),
        decreases segs.len() - i,
    {
        let ghost before = out@;
        out = merge_into(&out, segs[i]);
        proof {
            let seen = segs@.take(i as int);
            assert(segs@.take(i + 1) =~= seen.push(segs@[i as int]));
            assert forall|x: int| covers(out@, x) <==> covers(segs@.take(i + 1), x) by {
                lemma_covers_push(seen, segs@[i as int], x);
            }
        }
        i += 1;
    }
    assert(segs@.take(segs.len() as int) =~= segs@);
    out
}

/// A canonical list is determined by what it covers: two canonical lists
/// that cover the same addresses are equal.
pub proof fn lemma_normalized_unique(a: Seq<Segment>, b: Seq<Segment>)
    requires
        normalized(a),
        normalized(b),
        forall|x: int| covers(a, x) <==> covers(b, x),
    ensures
        a == b,
    decreases a.len() + b.len(),
{
    if a.len() == 0 {
        if b.len() > 0 {
            assert(b[0].holds(b[0].start as int));
            assert(covers(b, b[0].start as int));
        }
        assert(a =~= b);
    } else if b.len() == 0 {
        assert(a[0].holds(a[0].start as int));
        assert(covers(a, a[0].start as int));
    } else {
        lemma_first_is_least(a, b);
        lemma_first_is_least(b, a);
        assert(a[0].start == b[0].start);
        lemma_first_end(a, b);
        lemma_first_end(b, a);
        assert(a[0] == b[0]);
        let ta = a.skip(1);
        let tb = b.skip(1);
        lemma_tail_covers(a);
        lemma_tail_covers(b);
        assert forall|x: int| covers(ta, x) <==> covers(tb, x) by {
            assert(covers(a, x) <==> covers(b, x));
        }
        lemma_normalized_unique(ta, tb);
        assert(a =~= seq![a[0]] + ta);
        assert(b =~= seq![b[0]] + tb);
    }
}

proof fn lemma_first_is_least(a: Seq<Segment>, b: Seq<Segment>)
    requires
        normalized(a),
        normalized(b),
        a.len() > 0,
        b.len() > 0,
        forall|x: int| covers(a, x) <==> covers(b, x),
    ensures
        b[0].start <= a[0].start,
{
    let x = a[0].start as int;
    assert(a[0].holds(x));
    assert(covers(b, x));
    let j = choose|j: int| 0 <= j < b.len() && (#[trigger] b[j]).holds(x);
    if j > 0 {
        assert(b[0].end < b[j].start);
        assert(b[0].start < b[0].end);
    }
}

proof fn lemma_first_end(a: Seq<Segment>, b: Seq<Segment>)
    requires
        normalized(a),
        normalized(b),
        a.len() > 0,
        b.len() > 0,
        a[0].start == b[0].start,
        forall|x: int| covers(a, x) <==> covers(b, x),
    ensures
        a[0].end <= b[0].end,
{
    if a[0].end > b[0].end {
        let x = b[0].end as int;
        assert(b[0].start < b[0].end);
        assert(a[0].holds(x));
        assert(covers(b, x));
        let j = choose|j: int| 0 <= j < b.len() && (#[trigger] b[j]).holds(x);
        if j > 0 {
            assert(b[0].end < b[j].start);
        }
    }
}

proof fn lemma_tail_covers(a: Seq<Segment>)
    requires
        normalized(a),
        a.len() > 0,
    ensures
        normalized(a.skip(1)),
        forall|x: int| covers(a.skip(1), x) <==> (covers(a, x) && !a[0].holds(x)),
{
    let t = a.skip(1);
    assert forall|i: int, j: int| 0 <= i < j < t.len() implies (#[trigger] t[i]).end < (
    #[trigger] t[j]).start by {
        assert(a[i + 1].end < a[j + 1].start);
    }
    assert forall|i: int| 0 <= i < t.len() implies (#[trigger] t[i]).start < t[i].end by {
        assert(a[i + 1].start < a[i + 1].end);
    }
    assert forall|x: int| covers(t, x) <==> (covers(a, x) && !a[0].holds(x)) by {
        if covers(t, x) {
            let i = choose|i: int| 0 <= i < t.len() && (#[trigger] t[i]).holds(x);
            assert(a[i + 1].holds(x));
            assert(a[0].end < a[i + 1].start);
        }
        if covers(a, x) && !a[0].holds(x) {
            let i = choose|i: int| 0 <= i < a.len() && (#[trigger] a[i]).holds(x);
            assert(t[i - 1].holds(x));
        }
    }
}

/// Releasing two ranges gives the same free list in either order.
pub proof fn lemma_release_order(
    free: Seq<Segment>,
    first: Segment,
    second: Segment,
    via_first: Seq<Segment>,
    via_second: Seq<Segment>,
    end_a: Seq<Segment>,
    end_b: Seq<Segment>,
)
    requires
        is_merge_of(via_first, free, first),
        is_merge_of(end_a, via_first, second),
        is_merge_of(via_second, free, second),
        is_merge_of(end_b, via_second, first),
    ensures
        end_a == end_b,
{
    lemma_normalized_unique(end_a, end_b);
}

/// Releasing two adjacent ranges `[a, b)` and `[b, c)`, in either order,
/// into a free list that neither overlaps nor touches `[a, c)` leaves the one
/// range `[a, c)` in the list, between the ranges that were there before.
pub proof fn lemma_adjacent_releases_coalesce(
    free: Seq<Segment>,
    a: u64,
    b: u64,
    c: u64,
    mid: Seq<Segment>,
    out: Seq<Segment>,
    swapped: bool,
)
    requires
        normalized(free),
        a < b < c,
        !touches_any(free, Segment { start: a, end: c }),
        !swapped ==> is_merge_of(mid, free, Segment { start: a, end: b }) && is_merge_of(
            out,
            mid,
            Segment { start: b, end: c },
        ),
        swapped ==> is_merge_of(mid, free, Segment { start: b, end: c }) && is_merge_of(
            out,
            mid,
            Segment { start: a, end: b },
        ),
    ensures
        out.len() == free.len() + 1,
        out == free.insert(slot_of(free, Segment { start: a, end: c }), Segment { start: a, end: c }),
        out.contains(Segment { start: a, end: c }),
{
    let whole = Segment { start: a, end: c };
    let p = slot_of(free, whole);
    lemma_insert_apart(free, whole);
    let want = free.insert(p, whole);
    assert forall|x: int| covers(out, x) <==> covers(want, x) by {
        assert(whole.holds(x) <==> (Segment { start: a, end: b }.holds(x) || Segment {
            start: b,
            end: c,
        }.holds(x)));
    }
    lemma_normalized_unique(out, want);
    assert(want[p] == whole);
}

/// Where `range` belongs in the ascending list `free`: behind the ranges
/// that start before it.
pub open spec fn slot_of(free: Seq<Segment>, range: Segment) -> int
    decreases free.len(),
{
    if free.len() == 0 || range.start < free[0].start {
        0
    } else {
        1 + slot_of(free.skip(1), range)
    }
}

/// A non-empty range that neither overlaps nor touches a canonical list
/// joins it as a range of its own.
pub proof fn lemma_insert_apart(free: Seq<Segment>, range: Segment)
    requires
        normalized(free),
        range.start < range.end,
        !touches_any(free, range),
    ensures
        0 <= slot_of(free, range) <= free.len(),
        is_merge_of(free.insert(slot_of(free, range), range), free, range),
    decreases free.len(),
{
    let p = slot_of(free, range);
    let out = free.insert(p, range);
    if free.len() == 0 {
        assert(out =~= seq![range]);
        assert forall|x: int| covers(out, x) <==> (covers(free, x) || range.holds(x)) by {
            if range.holds(x) {
                assert(out[0].holds(x));
            }
        }
    } else if range.start < free[0].start {
        assert(!free[0].touches(range));
        assert forall|i: int, j: int| 0 <= i < j < out.len() implies (#[trigger] out[i]).end < (
        #[trigger] out[j]).start by {
            if i == 0 {
                if j > 1 {
                    assert(free[0].end < free[j - 1].start);
                    assert(free[0].start < free[0].end);
                }
            } else {
                assert(free[i - 1].end < free[j - 1].start);
            }
        }
        assert forall|i: int| 0 <= i < out.len() implies (#[trigger] out[i]).start < out[i].end by {
            if i > 0 {
                assert(free[i - 1].start < free[i - 1].end);
            }
        }
        assert forall|x: int| covers(out, x) <==> (covers(free, x) || range.holds(x)) by {
            if covers(out, x) {
                let i = choose|i: int| 0 <= i < out.len() && (#[trigger] out[i]).holds(x);
                if i > 0 {
                    assert(free[i - 1].holds(x));
                }
            }
            if covers(free, x) {
                let i = choose|i: int| 0 <= i < free.len() && (#[trigger] free[i]).holds(x);
                assert(out[i + 1].holds(x));
            }
            if range.holds(x) {
                assert(out[0].holds(x));
            }
        }
    } else {
        let t = free.skip(1);
        lemma_tail_covers(free);
        assert forall|i: int| 0 <= i < t.len() implies !(#[trigger] t[i]).touches(range) by {
            assert(!free[i + 1].touches(range));
        }
        lemma_insert_apart(t, range);
        let q = slot_of(t, range);
        let tout = t.insert(q, range);
        assert(out =~= seq![free[0]] + tout);
        assert(!free[0].touches(range));
        assert(free[0].start < free[0].end);
        assert forall|i: int, j: int| 0 <= i < j < out.len() implies (#[trigger] out[i]).end < (
        #[trigger] out[j]).start by {
            if i == 0 {
                if j - 1 < q {
                    assert(free[0].end < free[j].start);
                } else if j - 1 == q {
                } else {
                    assert(free[0].end < free[j - 1].start);
                }
            } else {
                assert(tout[i - 1].end < tout[j - 1].start);
            }
        }
        assert forall|i: int| 0 <= i < out.len() implies (#[trigger] out[i]).start < out[i].end by {
            if i > 0 {
                assert(tout[i - 1].start < tout[i - 1].end);
            }
        }
        assert forall|x: int| covers(out, x) <==> (covers(free, x) || range.holds(x)) by {
            assert(covers(tout, x) <==> (covers(t, x) || range.holds(x)));
            if covers(out, x) {
                let i = choose|i: int| 0 <= i < out.len() && (#[trigger] out[i]).holds(x);
                if i > 0 {
                    assert(tout[i - 1].holds(x));
                } else {
                    assert(free[0].holds(x));
                }
            }
            if covers(tout, x) {
                let i = choose|i: int| 0 <= i < tout.len() && (#[trigger] tout[i]).holds(x);
                assert(out[i + 1].holds(x));
            }
            if free[0].holds(x) {
                assert(out[0].holds(x));
            }
        }
    }
}

/// Releasing a non-empty range that is adjacent to no range of the free
/// list adds exactly one range to the list and merges nothing: every range
/// that was there is still there, unchanged.
pub proof fn lemma_release_apart_adds_one(free: Seq<Segment>, range: Segment, out: Seq<Segment>)
    requires
        normalized(free),
        range.start < range.end,
        !touches_any(free, range),
        is_merge_of(out, free, range),
    ensures
        out.len() == free.len() + 1,
        out == free.insert(slot_of(free, range), range),
{
    lemma_insert_apart(free, range);
    lemma_normalized_unique(out, free.insert(slot_of(free, range), range));
}


/// The first range of `free`, by position, that has room for `size`
/// addresses, if there is one.
pub open spec fn first_fit(free: Seq<Segment>, size: int) -> Option<int>
    decreases free.len(),
{
    if free.len() == 0 {
        None
    } else {
        match first_fit(free.drop_last(), size) {
            Some(i) => Some(i),
            None => if free.last().size() >= size {
                Some(free.len() - 1)
            } else {
                None
            },
        }
    }
}

/// `first_fit` finds the first fit, and nothing where nothing fits.
pub proof fn lemma_first_fit(free: Seq<Segment>, size: int)
    ensures
        match first_fit(free, size) {
            Some(i) => is_first_fit(free, size, i),
            None => no_fit(free, size),
        },
    decreases free.len(),
{
    if free.len() > 0 {
        let head = free.drop_last();
        lemma_first_fit(head, size);
        match first_fit(head, size) {
            Some(i) => {
                assert(head[i] == free[i]);
                assert forall|j: int| 0 <= j < i implies (#[trigger] free[j]).size() < size by {
                    assert(head[j].size() < size);
                }
            },
            None => {
                assert forall|j: int| 0 <= j < head.len() implies (#[trigger] free[j]).size()
                    < size by {
                    assert(head[j].size() < size);
                }
            },
        }
    }
}

/// There is at most one first fit.
pub proof fn lemma_first_fit_is(free: Seq<Segment>, size: int, i: int)
    requires
        is_first_fit(free, size, i),
    ensures
        first_fit(free, size) == Some(i),
{
    lemma_first_fit(free, size);
    match first_fit(free, size) {
        Some(j) => {
            if j < i {
                assert(free[j].size() < size);
            } else if i < j {
                assert(free[i].size() < size);
            }
        },
        None => {
            assert(free[i].size() < size);
        },
    }
}

/// A copy of the list.
pub fn copy_segments(segs: &Vec<Segment>) -> (r: Vec<Segment>)
    ensures
        r@ == segs@,
{
    let mut r: Vec<Segment> = Vec::new();
    let mut i: usize = 0;
    while i < segs.len()
        invariant
            i <= segs.len(),
            r@ == segs@.take(i as int),
        decreases segs.len() - i,
    {
        r.push(segs[i]);
        i += 1;
        assert(segs@.take(i as int) =~= segs@.take(i - 1).push(segs@[i - 1]));
    }
    assert(segs@.take(segs.len() as int) =~= segs@);
    r
}

} // verus!
