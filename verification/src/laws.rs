//! What holds of the ledger over every history of admissions and teardowns.

use crate::ledger::{
    any_claimed, claimed, enrolled, lemma_enrollment, lemma_fits_others, lemma_forget_keeps_wf,
    lemma_new_pool_keeps_wf, lemma_new_segments_keep_wf, released, used_address, used_count,
    LedgerView, RecordView,
};
use crate::pool::{ascending, lemma_with_ids, lemma_without_len, with_ids, Pool};
use crate::segment::{
    covers, lemma_overlap_shares_address, lemma_overlaps_any_shares_address, overlaps_any,
};
use vstd::prelude::*;

verus! {

/// One operation on the ledger: a container is admitted or torn down.
pub open spec fn step(pre: LedgerView, post: LedgerView) -> bool {
    ||| exists|rec: RecordView| enrolled(pre, post, rec)
    ||| exists|i: int| released(pre, post, i)
}

/// A history of the ledger: every state but the first comes from the one
/// before it by one operation.
pub open spec fn history(trace: Seq<LedgerView>) -> bool {
    &&& trace.len() > 0
    &&& forall|j: int| 0 <= j < trace.len() - 1 ==> step(#[trigger] trace[j], trace[j + 1])
}

/// In a consistent ledger the memory ranges of two containers share no
/// address, and none shares an address with a free segment.
pub proof fn lemma_held_ranges_disjoint(l: LedgerView, a: int, b: int)
    requires
        l.wf(),
        0 <= a < b < l.containers.len(),
    ensures
        !l.containers[a].memory.overlaps(l.containers[b].memory),
        !overlaps_any(l.free_segments, l.containers[a].memory),
        !overlaps_any(l.free_segments, l.containers[b].memory),
        forall|x: int|
            !(l.containers[a].memory.holds(x) && l.containers[b].memory.holds(x)) && !(covers(
                l.free_segments,
                x,
            ) && l.containers[a].memory.holds(x)),
{
    assert(l.fits_at(a));
    assert(l.fits_at(b));
    assert(l.containers.take(b)[a] == l.containers[a]);
    assert(!l.containers.take(b)[a].memory.overlaps(l.containers[b].memory));
    lemma_overlap_shares_address(l.containers[a].memory, l.containers[b].memory);
    lemma_overlaps_any_shares_address(l.free_segments, l.containers[a].memory);
}

/// In a consistent ledger no identifier is held by two containers, held
/// twice by one, or held and free.
pub proof fn lemma_held_ids_disjoint(l: LedgerView, pool: Pool, a: int, b: int, v: i8)
    requires
        l.wf(),
        0 <= a < b < l.containers.len(),
    ensures
        !(l.containers[a].ids(pool).contains(v) && l.containers[b].ids(pool).contains(v)),
        l.containers[a].ids(pool).contains(v) ==> !l.free(pool).contains(v),
        l.containers[a].ids(pool).no_duplicates(),
{
    assert(l.fits_at(a));
    assert(l.fits_at(b));
    let ra = l.containers[a];
    let rb = l.containers[b];
    if ra.ids(pool).contains(v) {
        let k = choose|k: int| 0 <= k < ra.ids(pool).len() && ra.ids(pool)[k] == v;
        assert(!l.free(pool).contains(ra.ids(pool)[k]));
    }
    if ra.ids(pool).contains(v) && rb.ids(pool).contains(v) {
        let k = choose|k: int| 0 <= k < rb.ids(pool).len() && rb.ids(pool)[k] == v;
        assert(l.containers.take(b)[a] == ra);
        assert(claimed(l.containers.take(b), pool, rb.ids(pool)[k]));
        assert(any_claimed(l.containers.take(b), pool, rb.ids(pool)));
    }
}

/// A teardown keeps the ledger consistent.
pub proof fn lemma_release(pre: LedgerView, post: LedgerView, i: int)
    requires
        pre.wf(),
        released(pre, post, i),
    ensures
        post.wf(),
{
    let rec = pre.containers[i];
    let l0 = pre.forgotten(i);
    lemma_forget_keeps_wf(pre, i);
    lemma_fits_others(pre, i);
    assert forall|c: int| 0 <= c < l0.containers.len() implies !overlaps_any(
        post.free_segments,
        (#[trigger] l0.containers[c]).memory,
    ) by {
        let mem = l0.containers[c].memory;
        assert(l0.fits_at(c));
        lemma_overlaps_any_shares_address(post.free_segments, mem);
        lemma_overlaps_any_shares_address(pre.free_segments, mem);
        if overlaps_any(post.free_segments, mem) {
            let x = choose|x: int| mem.holds(x) && covers(post.free_segments, x);
            assert(covers(post.free_segments, x) <==> (covers(pre.free_segments, x)
                || rec.memory.holds(x)));
            if rec.memory.holds(x) {
                lemma_overlap_shares_address(mem, rec.memory);
                assert(l0.containers[c].memory.overlaps(rec.memory));
            } else {
                assert(mem.holds(x) && covers(pre.free_segments, x));
            }
        }
    }
    lemma_new_segments_keep_wf(l0, post.free_segments);
    let l1 = LedgerView { free_segments: post.free_segments, ..l0 };
    lemma_returned_pool(l1, Pool::Rcpu, rec);
    let l2 = l1.with_free(Pool::Rcpu, post.free_rcpus);
    lemma_returned_pool(l2, Pool::FpgaRegion, rec);
    let l3 = l2.with_free(Pool::FpgaRegion, post.free_fpga_regions);
    lemma_returned_pool(l3, Pool::Bdf, rec);
    assert(post == l3.with_free(Pool::Bdf, post.free_bdf));
}

proof fn lemma_returned_pool(l: LedgerView, pool: Pool, rec: RecordView)
    requires
        l.wf(),
        crate::pool::returnable(pool, l.free(pool), rec.ids(pool)),
        !any_claimed(l.containers, pool, rec.ids(pool)),
    ensures
        l.with_free(pool, with_ids(l.free(pool), rec.ids(pool))).wf(),
{
    let ids = rec.ids(pool);
    let now = with_ids(l.free(pool), ids);
    lemma_with_ids(pool, l.free(pool), ids);
    assert forall|c: int, v: i8|
        0 <= c < l.containers.len() && (#[trigger] l.containers[c]).ids(pool).contains(v)
            implies !#[trigger] now.contains(v) by {
        assert(l.fits_at(c));
        let held = l.containers[c].ids(pool);
        let k = choose|k: int| 0 <= k < held.len() && held[k] == v;
        assert(!l.free(pool).contains(held[k]));
        if ids.contains(v) {
            let m = choose|m: int| 0 <= m < ids.len() && ids[m] == v;
            assert(claimed(l.containers, pool, ids[m]));
        }
    }
    lemma_new_pool_keeps_wf(l, pool, now);
}

proof fn lemma_used_address_push(s: Seq<RecordView>, r: RecordView, x: int)
    ensures
        used_address(s.push(r), x) <==> (used_address(s, x) || r.memory.holds(x)),
{
    let t = s.push(r);
    if used_address(s, x) {
        let c = choose|c: int| 0 <= c < s.len() && (#[trigger] s[c]).memory.holds(x);
        assert(t[c].memory.holds(x));
    }
    if r.memory.holds(x) {
        assert(t[s.len() as int].memory.holds(x));
    }
    if used_address(t, x) {
        let c = choose|c: int| 0 <= c < t.len() && (#[trigger] t[c]).memory.holds(x);
        if c < s.len() {
            assert(s[c].memory.holds(x));
        }
    }
}

proof fn lemma_used_address_remove(s: Seq<RecordView>, i: int, x: int)
    requires
        0 <= i < s.len(),
    ensures
        used_address(s, x) <==> (used_address(s.remove(i), x) || s[i].memory.holds(x)),
{
    let t = s.remove(i);
    if used_address(s, x) {
        let c = choose|c: int| 0 <= c < s.len() && (#[trigger] s[c]).memory.holds(x);
        if c < i {
            assert(t[c].memory.holds(x));
        } else if c > i {
            assert(t[c - 1].memory.holds(x));
        }
    }
    if used_address(t, x) {
        let c = choose|c: int| 0 <= c < t.len() && (#[trigger] t[c]).memory.holds(x);
        if c < i {
            assert(s[c].memory.holds(x));
        } else {
            assert(s[c + 1].memory.holds(x));
        }
    }
}

proof fn lemma_used_count_remove(s: Seq<RecordView>, i: int, pool: Pool)
    requires
        0 <= i < s.len(),
    ensures
        used_count(s, pool) == used_count(s.remove(i), pool) + s[i].ids(pool).len(),
    decreases s.len(),
{
    if i == s.len() - 1 {
        assert(s.remove(i) =~= s.drop_last());
    } else {
        let head = s.drop_last();
        lemma_used_count_remove(head, i, pool);
        assert(s.remove(i).drop_last() =~= head.remove(i));
        assert(s.remove(i).last() == s.last());
    }
}

/// One operation changes neither the managed address space nor the capacity
/// of any pool, and leaves a consistent ledger consistent.
pub proof fn lemma_step(pre: LedgerView, post: LedgerView)
    requires
        pre.wf(),
        step(pre, post),
    ensures
        post.wf(),
        forall|x: int| #![trigger post.manages(x)] post.manages(x) <==> pre.manages(x),
        forall|pool: Pool| #![trigger post.pool_size(pool)] post.pool_size(pool) == pre.pool_size(pool),
{
    if exists|rec: RecordView| enrolled(pre, post, rec) {
        let rec = choose|rec: RecordView| enrolled(pre, post, rec);
        lemma_enrollment(pre, post, rec);
        assert forall|x: int| #![trigger post.manages(x)] post.manages(x) <==> pre.manages(x) by {
            lemma_used_address_push(pre.containers, rec, x);
            assert(covers(pre.free_segments, x) <==> (covers(post.free_segments, x)
                || rec.memory.holds(x)));
        }
        assert forall|pool: Pool| #![trigger post.pool_size(pool)]
            post.pool_size(pool) == pre.pool_size(pool) by {
            assert(post.containers.drop_last() =~= pre.containers);
            assert(post.containers.last() == rec);
            match pool {
                Pool::Rcpu => {},
                Pool::FpgaRegion => {
                    lemma_without_len(pre.free_fpga_regions, rec.fpga_regions);
                },
                Pool::Bdf => {},
            }
        }
    } else {
        let i = choose|i: int| released(pre, post, i);
        let rec = pre.containers[i];
        lemma_release(pre, post, i);
        assert forall|x: int| #![trigger post.manages(x)] post.manages(x) <==> pre.manages(x) by {
            lemma_used_address_remove(pre.containers, i, x);
            assert(covers(post.free_segments, x) <==> (covers(pre.free_segments, x)
                || rec.memory.holds(x)));
        }
        assert(pre.fits_at(i));
        assert forall|pool: Pool| #![trigger post.pool_size(pool)]
            post.pool_size(pool) == pre.pool_size(pool) by {
            lemma_used_count_remove(pre.containers, i, pool);
            lemma_with_ids(pool, pre.free(pool), rec.ids(pool));
        }
    }
}

/// The partition invariant. Over every history of admissions and teardowns
/// that starts from a consistent ledger, the ledger stays consistent, so
/// that the memory ranges held by the active containers are pairwise
/// disjoint and disjoint from the free segments; and what the containers hold
/// together with the free segments is the managed address space that the
/// history started with.
pub proof fn lemma_partition_invariant(trace: Seq<LedgerView>, k: int)
    requires
        history(trace),
        trace[0].wf(),
        0 <= k < trace.len(),
    ensures
        trace[k].wf(),
        forall|x: int| #![trigger trace[k].manages(x)] trace[k].manages(x) <==> trace[0].manages(x),
        forall|a: int, b: int|
            0 <= a < b < trace[k].containers.len() ==> !(#[trigger] trace[k].containers[a]).memory.overlaps(
                (#[trigger] trace[k].containers[b]).memory,
            ),
        forall|a: int|
            0 <= a < trace[k].containers.len() ==> !overlaps_any(
                trace[k].free_segments,
                (#[trigger] trace[k].containers[a]).memory,
            ),
    decreases k,
{
    if k > 0 {
        lemma_partition_invariant(trace, k - 1);
        assert(step(trace[k - 1], trace[k - 1 + 1]));
        lemma_step(trace[k - 1], trace[k]);
        assert forall|x: int| #![trigger trace[k].manages(x)]
            trace[k].manages(x) <==> trace[0].manages(x) by {
            assert(trace[k].manages(x) <==> trace[k - 1].manages(x));
            assert(trace[k - 1].manages(x) <==> trace[0].manages(x));
        }
    }
    let l = trace[k];
    assert forall|a: int, b: int| 0 <= a < b < l.containers.len() implies !(
    #[trigger] l.containers[a]).memory.overlaps((#[trigger] l.containers[b]).memory) by {
        lemma_held_ranges_disjoint(l, a, b);
    }
    assert forall|a: int| 0 <= a < l.containers.len() implies !overlaps_any(
        l.free_segments,
        (#[trigger] l.containers[a]).memory,
    ) by {
        assert(l.fits_at(a));
    }
}

/// Conservation of identifiers. Over every history of admissions and
/// teardowns that starts from a consistent ledger, the free identifiers of a
/// pool and those assigned to the active containers together number what
/// they numbered at the start: the capacity of the pool.
pub proof fn lemma_pool_conservation(trace: Seq<LedgerView>, k: int, pool: Pool)
    requires
        history(trace),
        trace[0].wf(),
        0 <= k < trace.len(),
    ensures
        trace[k].free(pool).len() + used_count(trace[k].containers, pool) == trace[0].pool_size(
            pool,
        ),
    decreases k,
{
    if k > 0 {
        lemma_pool_conservation(trace, k - 1, pool);
        lemma_partition_invariant(trace, k - 1);
        assert(step(trace[k - 1], trace[k - 1 + 1]));
        lemma_step(trace[k - 1], trace[k]);
        assert(trace[k].pool_size(pool) == trace[k - 1].pool_size(pool));
    }
}

/// Two ascending lists that hold the same identifiers are the same list.
pub proof fn lemma_ascending_unique(a: Seq<i8>, b: Seq<i8>)
    requires
        ascending(a),
        ascending(b),
        forall|v: i8| #![trigger a.contains(v)] a.contains(v) <==> b.contains(v),
    ensures
        a == b,
    decreases a.len(),
{
    if a.len() == 0 {
        if b.len() > 0 {
            assert(b.contains(b[0]));
            assert(a.contains(b[0]));
        }
        assert(a =~= b);
    } else {
        let x = a[a.len() - 1];
        assert(a.contains(x));
        assert(b.contains(x));
        let at = choose|at: int| 0 <= at < b.len() && b[at] == x;
        let y = b[b.len() - 1];
        assert(b.contains(y));
        assert(a.contains(y));
        let back = choose|back: int| 0 <= back < a.len() && a[back] == y;
        if at < b.len() - 1 {
            assert(b[at] < b[b.len() - 1]);
            if back < a.len() - 1 {
                assert(a[back] < a[a.len() - 1]);
            }
        }
        assert(x == y);
        let ha = a.drop_last();
        let hb = b.drop_last();
        assert forall|i: int, j: int| 0 <= i < j < ha.len() implies (#[trigger] ha[i]) < (
        #[trigger] ha[j]) by {
            assert(a[i] < a[j]);
        }
        assert forall|i: int, j: int| 0 <= i < j < hb.len() implies (#[trigger] hb[i]) < (
        #[trigger] hb[j]) by {
            assert(b[i] < b[j]);
        }
        assert forall|v: i8| #![trigger ha.contains(v)] ha.contains(v) <==> hb.contains(v) by {
            if ha.contains(v) {
                let k = choose|k: int| 0 <= k < ha.len() && ha[k] == v;
                assert(a[k] == v);
                assert(a[k] < a[a.len() - 1]);
                assert(a.contains(v));
                assert(b.contains(v));
                let m = choose|m: int| 0 <= m < b.len() && b[m] == v;
                assert(m < b.len() - 1);
                assert(hb[m] == v);
            }
            if hb.contains(v) {
                let k = choose|k: int| 0 <= k < hb.len() && hb[k] == v;
                assert(b[k] == v);
                assert(b[k] < b[b.len() - 1]);
                assert(b.contains(v));
                assert(a.contains(v));
                let m = choose|m: int| 0 <= m < a.len() && a[m] == v;
                assert(m < a.len() - 1);
                assert(ha[m] == v);
            }
        }
        lemma_ascending_unique(ha, hb);
        assert(a =~= ha.push(x));
        assert(b =~= hb.push(y));
    }
}

/// Tearing a container down right after it was admitted restores the
/// ledger: the free segments are coalesced back into what they were, and
/// every identifier is free again at its place.
pub proof fn lemma_teardown_undoes_admission(
    pre: LedgerView,
    mid: LedgerView,
    post: LedgerView,
    rec: RecordView,
)
    requires
        pre.wf(),
        enrolled(pre, mid, rec),
        released(mid, post, mid.containers.len() - 1),
    ensures
        post == pre,
{
    lemma_enrollment(pre, mid, rec);
    lemma_release(mid, post, mid.containers.len() - 1);
    let last = mid.containers.len() - 1;
    assert(mid.containers[last] == rec);
    assert(post.containers =~= pre.containers);
    crate::segment::lemma_normalized_unique(post.free_segments, pre.free_segments);
    assert(mid.fits_at(last));
    assert forall|pool: Pool| #![trigger post.free(pool)] post.free(pool) == pre.free(pool) by {
        lemma_with_ids(pool, mid.free(pool), rec.ids(pool));
        match pool {
            Pool::Rcpu => {
                assert forall|v: i8|
                    #![trigger post.free(pool).contains(v)]
                    post.free(pool).contains(v) <==> pre.free(pool).contains(v) by {
                    lemma_concat_contains(rec.rcpus, mid.free_rcpus, v);
                }
            },
            Pool::FpgaRegion => {
                crate::pool::lemma_without(pre.free_fpga_regions, rec.fpga_regions);
                assert forall|v: i8|
                    #![trigger post.free(pool).contains(v)]
                    post.free(pool).contains(v) <==> pre.free(pool).contains(v) by {
                    if rec.fpga_regions.contains(v) {
                        let k = choose|k: int|
                            0 <= k < rec.fpga_regions.len() && rec.fpga_regions[k] == v;
                        assert(pre.free_fpga_regions.contains(rec.fpga_regions[k]));
                    }
                }
            },
            Pool::Bdf => {
                assert forall|v: i8|
                    #![trigger post.free(pool).contains(v)]
                    post.free(pool).contains(v) <==> pre.free(pool).contains(v) by {
                    lemma_concat_contains(rec.ids(Pool::Bdf), mid.free_bdf, v);
                }
            },
        }
        lemma_ascending_unique(post.free(pool), pre.free(pool));
    }
    assert(post.free(Pool::Rcpu) == pre.free(Pool::Rcpu));
    assert(post.free(Pool::FpgaRegion) == pre.free(Pool::FpgaRegion));
    assert(post.free(Pool::Bdf) == pre.free(Pool::Bdf));
}

proof fn lemma_concat_contains(a: Seq<i8>, b: Seq<i8>, v: i8)
    ensures
        (a + b).contains(v) <==> (a.contains(v) || b.contains(v)),
{
    let ab = a + b;
    if a.contains(v) {
        let k = choose|k: int| 0 <= k < a.len() && a[k] == v;
        assert(ab[k] == v);
    }
    if b.contains(v) {
        let k = choose|k: int| 0 <= k < b.len() && b[k] == v;
        assert(ab[a.len() + k] == v);
    }
    if ab.contains(v) {
        let k = choose|k: int| 0 <= k < ab.len() && ab[k] == v;
        if k < a.len() {
            assert(a[k] == v);
        } else {
            assert(b[k - a.len()] == v);
        }
    }
}

} // verus!
