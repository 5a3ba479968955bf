//! Pools of small integer identifiers: auxiliary processor cores, FPGA
//! regions and shared-memory channel slots.

use crate::error::EngineError;
use vstd::prelude::*;

verus! {

/// The identifier pools that the ledger keeps.
#[derive(Clone, Copy, Debug, PartialEq, Eq, Structural)]
pub enum Pool {
    /// Auxiliary processor cores.
    Rcpu,
    /// Reconfigurable FPGA regions.
    FpgaRegion,
    /// Slots for inter-partition shared-memory channels.
    Bdf,
}

impl Pool {
    /// The lowest identifier that the pool may hold.
    pub open spec fn lowest(self) -> int {
        match self {
            Pool::Rcpu => 0,
            Pool::FpgaRegion => 0,
            Pool::Bdf => 1,
        }
    }

    /// The highest identifier that the pool may hold: a core or a region is
    /// one bit of a mask, and a slot is a PCI device number.
    pub open spec fn highest(self) -> int {
        match self {
            Pool::Rcpu => 63,
            Pool::FpgaRegion => 31,
            Pool::Bdf => 31,
        }
    }

    /// The lowest identifier that the pool may hold.
    pub fn lowest_id(&self) -> (r: i8)
        ensures
            r == self.lowest(),
    {
        match self {
            Pool::Rcpu => 0,
            Pool::FpgaRegion => 0,
            Pool::Bdf => 1,
        }
    }

    /// The highest identifier that the pool may hold.
    pub fn highest_id(&self) -> (r: i8)
        ensures
            r == self.highest(),
    {
        match self {
            Pool::Rcpu => 63,
            Pool::FpgaRegion => 31,
            Pool::Bdf => 31,
        }
    }

    /// The failure reported when the pool cannot satisfy a reservation.
    pub open spec fn shortage(self) -> EngineError {
        match self {
            Pool::Rcpu => EngineError::InsufficientRpu,
            Pool::FpgaRegion => EngineError::RegionUnavailable,
            Pool::Bdf => EngineError::BdfExhausted,
        }
    }

    /// The failure reported when the pool cannot satisfy a reservation.
    pub fn shortage_error(&self) -> (e: EngineError)
        ensures
            e == self.shortage(),
    {
        match self {
            Pool::Rcpu => EngineError::InsufficientRpu,
            Pool::FpgaRegion => EngineError::RegionUnavailable,
            Pool::Bdf => EngineError::BdfExhausted,
        }
    }
}

/// The identifiers ascend strictly, so that none occurs twice.
pub open spec fn ascending(ids: Seq<i8>) -> bool {
    forall|i: int, j: int| 0 <= i < j < ids.len() ==> (#[trigger] ids[i]) < (#[trigger] ids[j])
}

/// Every identifier lies between `lo` and `hi`.
pub open spec fn within(ids: Seq<i8>, lo: int, hi: int) -> bool {
    forall|i: int| 0 <= i < ids.len() ==> lo <= (#[trigger] ids[i]) <= hi
}

/// `ids` is a well-formed free list of `pool`.
pub open spec fn pool_wf(pool: Pool, ids: Seq<i8>) -> bool {
    ascending(ids) && within(ids, pool.lowest(), pool.highest())
}

/// `s` without the identifiers that occur in `ids`, the others in their
/// order.
pub open spec fn without(s: Seq<i8>, ids: Seq<i8>) -> Seq<i8>
    decreases s.len(),
{
    if s.len() == 0 {
        s
    } else if ids.contains(s.last()) {
        without(s.drop_last(), ids)
    } else {
        without(s.drop_last(), ids).push(s.last())
    }
}

/// What `without` keeps: the identifiers of `s` that are not in `ids`, in
/// the order they had.
pub proof fn lemma_without(s: Seq<i8>, ids: Seq<i8>)
    ensures
        forall|v: i8| #[trigger] without(s, ids).contains(v) <==> (s.contains(v) && !ids.contains(v)),
        without(s, ids).len() <= s.len(),
        ascending(s) ==> ascending(without(s, ids)),
    decreases s.len(),
{
    let out = without(s, ids);
    if s.len() == 0 {
    } else {
        let head = s.drop_last();
        let last = s.last();
        let rest = without(head, ids);
        lemma_without(head, ids);
        assert forall|v: i8| #[trigger] out.contains(v) <==> (s.contains(v) && !ids.contains(v)) by {
            if out.contains(v) {
                let k = choose|k: int| 0 <= k < out.len() && out[k] == v;
                if k < rest.len() {
                    assert(rest[k] == v);
                    assert(rest.contains(v));
                    let m = choose|m: int| 0 <= m < head.len() && head[m] == v;
                    assert(s[m] == v);
                } else {
                    assert(s[s.len() - 1] == v);
                }
            }
            if s.contains(v) && !ids.contains(v) {
                let m = choose|m: int| 0 <= m < s.len() && s[m] == v;
                if m < head.len() {
                    assert(head[m] == v);
                    assert(head.contains(v));
                    assert(rest.contains(v));
                    let k = choose|k: int| 0 <= k < rest.len() && rest[k] == v;
                    assert(out[k] == v);
                } else {
                    assert(out[out.len() - 1] == v);
                }
            }
        }
        if ascending(s) {
            assert forall|i: int, j: int| 0 <= i < j < head.len() implies (#[trigger] head[i]) < (
            #[trigger] head[j]) by {
                assert(s[i] < s[j]);
            }
            if !ids.contains(last) {
                assert forall|i: int, j: int| 0 <= i < j < out.len() implies (#[trigger] out[i]) < (
                #[trigger] out[j]) by {
                    if j < rest.len() {
                        assert(rest[i] < rest[j]);
                    } else {
                        assert(rest.contains(rest[i]));
                        assert(head.contains(rest[i]));
                        let m = choose|m: int| 0 <= m < head.len() && head[m] == rest[i];
                        assert(s[m] < s[s.len() - 1]);
                    }
                }
            }
        }
    }
}

/// What is left of a list lies in the range that the list lay in.
pub proof fn lemma_without_within(s: Seq<i8>, ids: Seq<i8>, lo: int, hi: int)
    requires
        within(s, lo, hi),
    ensures
        within(without(s, ids), lo, hi),
{
    let out = without(s, ids);
    lemma_without(s, ids);
    assert forall|i: int| 0 <= i < out.len() implies lo <= (#[trigger] out[i]) <= hi by {
        assert(out.contains(out[i]));
        let m = choose|m: int| 0 <= m < s.len() && s[m] == out[i];
        assert(lo <= s[m] <= hi);
    }
}

/// Taking away identifiers that are not there changes nothing.
pub proof fn lemma_without_absent(s: Seq<i8>, ids: Seq<i8>, k: int)
    requires
        0 <= k < ids.len(),
        !s.contains(ids[k]),
    ensures
        without(s, ids) == without(s, ids.remove(k)),
    decreases s.len(),
{
    if s.len() > 0 {
        let head = s.drop_last();
        let last = s.last();
        assert forall|v: i8| head.contains(v) implies s.contains(v) by {
            let m = choose|m: int| 0 <= m < head.len() && head[m] == v;
            assert(s[m] == v);
        }
        lemma_without_absent(head, ids, k);
        assert(s[s.len() - 1] == last);
        assert(last != ids[k]);
        let fewer = ids.remove(k);
        if ids.contains(last) {
            let m = choose|m: int| 0 <= m < ids.len() && ids[m] == last;
            if m < k {
                assert(fewer[m] == last);
            } else {
                assert(fewer[m - 1] == last);
            }
            assert(fewer.contains(last));
        }
        if fewer.contains(last) {
            let m = choose|m: int| 0 <= m < fewer.len() && fewer[m] == last;
            if m < k {
                assert(ids[m] == last);
            } else {
                assert(ids[m + 1] == last);
            }
        }
    }
}

/// Conservation: taking distinct identifiers that are all in a pool shortens
/// the pool by exactly their number.
pub proof fn lemma_without_len(s: Seq<i8>, ids: Seq<i8>)
    requires
        ascending(s),
        ids.no_duplicates(),
        forall|k: int| 0 <= k < ids.len() ==> s.contains(#[trigger] ids[k]),
    ensures
        without(s, ids).len() + ids.len() == s.len(),
    decreases s.len(),
{
    if s.len() == 0 {
        if ids.len() > 0 {
            assert(s.contains(ids[0]));
        }
    } else {
        let head = s.drop_last();
        let last = s.last();
        assert forall|i: int, j: int| 0 <= i < j < head.len() implies (#[trigger] head[i]) < (
        #[trigger] head[j]) by {
            assert(s[i] < s[j]);
        }
        assert(!head.contains(last)) by {
            if head.contains(last) {
                let m = choose|m: int| 0 <= m < head.len() && head[m] == last;
                assert(s[m] < s[s.len() - 1]);
            }
        }
        if ids.contains(last) {
            let k = choose|k: int| 0 <= k < ids.len() && ids[k] == last;
            let fewer = ids.remove(k);
            lemma_without_absent(head, ids, k);
            assert forall|m: int| 0 <= m < fewer.len() implies head.contains(#[trigger] fewer[m]) by {
                let orig = if m < k {
                    m
                } else {
                    m + 1
                };
                assert(fewer[m] == ids[orig]);
                assert(s.contains(ids[orig]));
                let at = choose|at: int| 0 <= at < s.len() && s[at] == ids[orig];
                assert(ids[orig] != ids[k]);
                assert(head[at] == fewer[m]);
            }
            assert(fewer.no_duplicates()) by {
                assert forall|a: int, b: int| 0 <= a < fewer.len() && 0 <= b < fewer.len() && a
                    != b implies fewer[a] != fewer[b] by {
                    let oa = if a < k {
                        a
                    } else {
                        a + 1
                    };
                    let ob = if b < k {
                        b
                    } else {
                        b + 1
                    };
                    assert(ids[oa] != ids[ob]);
                }
            }
            lemma_without_len(head, fewer);
        } else {
            assert forall|m: int| 0 <= m < ids.len() implies head.contains(#[trigger] ids[m]) by {
                assert(s.contains(ids[m]));
                let at = choose|at: int| 0 <= at < s.len() && s[at] == ids[m];
                assert(ids.contains(ids[m]));
                assert(head[at] == ids[m]);
            }
            lemma_without_len(head, ids);
        }
    }
}

/// Whether `id` is in the list.
pub fn has_id(ids: &Vec<i8>, id: i8) -> (r: bool)
    ensures
        r == ids@.contains(id),
{
    let mut i: usize = 0;
    while i < ids.len()
        invariant
            i <= ids.len(),
            forall|k: int| 0 <= k < i ==> ids@[k] != id,
        decreases ids.len() - i,
    {
        if ids[i] == id {
            return true;
        }
        i += 1;
    }
    false
}

/// Whether no identifier occurs twice in the list.
pub fn all_distinct(ids: &Vec<i8>) -> (r: bool)
    ensures
        r == ids@.no_duplicates(),
{
    let mut i: usize = 0;
    while i < ids.len()
        invariant
            i <= ids.len(),
            forall|a: int, b: int| 0 <= a < i && 0 <= b < ids.len() && a != b ==> ids@[a] != ids@[b],
        decreases ids.len() - i,
    {
        let mut j: usize = i + 1;
        while j < ids.len()
            invariant
                i < j <= ids.len(),
                forall|b: int| i < b < j ==> ids@[i as int] != ids@[b],
            decreases ids.len() - j,
        {
            if ids[i] == ids[j] {
                return false;
            }
            j += 1;
        }
        i += 1;
    }
    true
}

/// Whether the list is a well-formed free list of `pool`.
pub fn is_pool_wf(pool: Pool, ids: &Vec<i8>) -> (r: bool)
    ensures
        r == pool_wf(pool, ids@),
{
    let lo = pool.lowest_id();
    let hi = pool.highest_id();
    let mut i: usize = 0;
    while i < ids.len()
        invariant
            i <= ids.len(),
            lo == pool.lowest(),
            hi == pool.highest(),
            forall|a: int, b: int| 0 <= a < b < i ==> (#[trigger] ids@[a]) < (#[trigger] ids@[b]),
            forall|a: int| 0 <= a < i ==> lo <= (#[trigger] ids@[a]) <= hi,
        decreases ids.len() - i,
    {
        if ids[i] < lo || ids[i] > hi {
            return false;
        }
        if i > 0 && ids[i - 1] >= ids[i] {
            return false;
        }
        proof {
            assert forall|a: int, b: int| 0 <= a < b < i + 1 implies (#[trigger] ids@[a]) < (
            #[trigger] ids@[b]) by {
                if b == i && a < i - 1 {
                    assert(ids@[a] < ids@[i - 1]);
                }
            }
        }
        i += 1;
    }
    true
}

/// Whether every identifier of the list lies between `lo` and `hi`.
pub fn all_within(ids: &Vec<i8>, lo: i8, hi: i8) -> (r: bool)
    ensures
        r == within(ids@, lo as int, hi as int),
{
    let mut i: usize = 0;
    while i < ids.len()
        invariant
            i <= ids.len(),
            forall|a: int| 0 <= a < i ==> lo <= (#[trigger] ids@[a]) <= hi,
        decreases ids.len() - i,
    {
        if ids[i] < lo || ids[i] > hi {
            return false;
        }
        i += 1;
    }
    true
}

/// A copy of the list.
pub fn copy_ids(ids: &Vec<i8>) -> (r: Vec<i8>)
    ensures
        r@ == ids@,
{
    let mut r: Vec<i8> = Vec::new();
    let mut i: usize = 0;
    while i < ids.len()
        invariant
            i <= ids.len(),
            r@ == ids@.take(i as int),
        decreases ids.len() - i,
    {
        r.push(ids[i]);
        i += 1;
        assert(ids@.take(i as int) =~= ids@.take(i - 1).push(ids@[i - 1]));
    }
    assert(ids@.take(ids.len() as int) =~= ids@);
    r
}

/// Takes the `n` lowest identifiers out of an ascending free list, or
/// nothing when the list holds fewer.
pub fn take_lowest(pool: &mut Vec<i8>, n: usize) -> (r: Option<Vec<i8>>)
    ensures
        match r {
            Some(ids) => {
                &&& n <= old(pool).len()
                &&& ids@ == old(pool)@.take(n as int)
                &&& final(pool)@ == old(pool)@.skip(n as int)
            },
            None => n > old(pool).len() && final(pool)@ == old(pool)@,
        },
{
    if n > pool.len() {
        return None;
    }
    let mut taken: Vec<i8> = Vec::new();
    let mut rest: Vec<i8> = Vec::new();
    let mut i: usize = 0;
    while i < pool.len()
        invariant
            i <= pool.len(),
            n <= pool.len(),
            pool@ == old(pool)@,
            i <= n ==> taken@ == pool@.take(i as int) && rest@.len() == 0,
            i > n ==> taken@ == pool@.take(n as int) && rest@ == pool@.subrange(n as int, i as int),
        decreases pool.len() - i,
    {
        if i < n {
            taken.push(pool[i]);
            assert(pool@.take(i + 1) =~= pool@.take(i as int).push(pool@[i as int]));
        } else {
            rest.push(pool[i]);
            assert(pool@.subrange(n as int, i + 1) =~= pool@.subrange(n as int, i as int).push(
                pool@[i as int],
            ));
            assert(rest@ =~= pool@.subrange(n as int, i + 1));
        }
        i += 1;
    }
    assert(rest@ =~= old(pool)@.skip(n as int));
    assert(taken@ =~= old(pool)@.take(n as int));
    *pool = rest;
    Some(taken)
}

/// The ascending list that holds `v` besides the identifiers of `s`.
pub open spec fn with_id(s: Seq<i8>, v: i8) -> Seq<i8> {
    s.insert(rank(s, v), v)
}

/// The number of identifiers of `s` that are below `v`.
pub open spec fn rank(s: Seq<i8>, v: i8) -> int
    decreases s.len(),
{
    if s.len() == 0 {
        0
    } else if s.last() < v {
        rank(s.drop_last(), v) + 1
    } else {
        rank(s.drop_last(), v)
    }
}

/// The ascending list that holds the identifiers of `ids` besides those of
/// `s`.
pub open spec fn with_ids(s: Seq<i8>, ids: Seq<i8>) -> Seq<i8>
    decreases ids.len(),
{
    if ids.len() == 0 {
        s
    } else {
        with_id(with_ids(s, ids.drop_last()), ids.last())
    }
}

/// In an ascending list the rank of an identifier is the index where the
/// identifiers stop being smaller.
pub proof fn lemma_rank(s: Seq<i8>, v: i8, p: int)
    requires
        ascending(s),
        0 <= p <= s.len(),
        forall|i: int| 0 <= i < p ==> (#[trigger] s[i]) < v,
        forall|i: int| p <= i < s.len() ==> (#[trigger] s[i]) >= v,
    ensures
        rank(s, v) == p,
    decreases s.len(),
{
    if s.len() > 0 {
        let head = s.drop_last();
        assert forall|i: int, j: int| 0 <= i < j < head.len() implies (#[trigger] head[i]) < (
        #[trigger] head[j]) by {
            assert(s[i] < s[j]);
        }
        if p == s.len() {
            assert(s[s.len() - 1] < v);
            lemma_rank(head, v, p - 1);
        } else {
            assert(s[s.len() - 1] >= v);
            lemma_rank(head, v, p);
        }
    }
}

/// Putting back one identifier that a well-formed pool does not hold gives
/// a well-formed pool with one identifier more.
pub proof fn lemma_with_id(pool: Pool, s: Seq<i8>, v: i8)
    requires
        pool_wf(pool, s),
        !s.contains(v),
        pool.lowest() <= v <= pool.highest(),
    ensures
        pool_wf(pool, with_id(s, v)),
        with_id(s, v).len() == s.len() + 1,
        forall|w: i8| #[trigger] with_id(s, v).contains(w) <==> (s.contains(w) || w == v),
        0 <= rank(s, v) <= s.len(),
    decreases s.len(),
{
    lemma_rank_bounds(s, v);
    let p = rank(s, v);
    let out = with_id(s, v);
    lemma_rank_splits(s, v);
    assert forall|i: int, j: int| 0 <= i < j < out.len() implies (#[trigger] out[i]) < (
    #[trigger] out[j]) by {
        let oi = if i < p {
            i
        } else {
            i - 1
        };
        let oj = if j < p {
            j
        } else {
            j - 1
        };
        if i == p {
            assert(s[oj] >= v);
            assert(s.contains(s[oj]));
        } else if j == p {
            assert(s[oi] < v);
        } else {
            assert(s[oi] < s[oj]);
        }
    }
    assert forall|i: int| 0 <= i < out.len() implies pool.lowest() <= (#[trigger] out[i])
        <= pool.highest() by {
        if i < p {
            assert(pool.lowest() <= s[i] <= pool.highest());
        } else if i > p {
            assert(pool.lowest() <= s[i - 1] <= pool.highest());
        }
    }
    assert forall|w: i8| #[trigger] out.contains(w) <==> (s.contains(w) || w == v) by {
        if out.contains(w) {
            let k = choose|k: int| 0 <= k < out.len() && out[k] == w;
            if k < p {
                assert(s[k] == w);
            } else if k > p {
                assert(s[k - 1] == w);
            }
        }
        if s.contains(w) {
            let k = choose|k: int| 0 <= k < s.len() && s[k] == w;
            if k < p {
                assert(out[k] == w);
            } else {
                assert(out[k + 1] == w);
            }
        }
        if w == v {
            assert(out[p] == w);
        }
    }
}

proof fn lemma_rank_bounds(s: Seq<i8>, v: i8)
    ensures
        0 <= rank(s, v) <= s.len(),
    decreases s.len(),
{
    if s.len() > 0 {
        lemma_rank_bounds(s.drop_last(), v);
    }
}

proof fn lemma_rank_splits(s: Seq<i8>, v: i8)
    requires
        ascending(s),
    ensures
        forall|i: int| 0 <= i < rank(s, v) && i < s.len() ==> (#[trigger] s[i]) < v,
        forall|i: int| rank(s, v) <= i < s.len() ==> (#[trigger] s[i]) >= v,
    decreases s.len(),
{
    if s.len() > 0 {
        let head = s.drop_last();
        assert forall|i: int, j: int| 0 <= i < j < head.len() implies (#[trigger] head[i]) < (
        #[trigger] head[j]) by {
            assert(s[i] < s[j]);
        }
        lemma_rank_splits(head, v);
        lemma_rank_bounds(head, v);
        let last = s[s.len() - 1];
        if last < v {
            assert forall|i: int| 0 <= i < rank(s, v) && i < s.len() implies (#[trigger] s[i])
                < v by {
                if i < s.len() - 1 {
                    assert(s[i] < s[s.len() - 1]);
                }
            }
            assert(rank(s, v) == rank(head, v) + 1);
            assert forall|i: int| rank(s, v) <= i < s.len() implies (#[trigger] s[i]) >= v by {
                assert(head[i] >= v);
            }
        } else {
            assert forall|i: int| 0 <= i < rank(s, v) && i < s.len() implies (#[trigger] s[i])
                < v by {
                if i < head.len() {
                    assert(head[i] < v);
                }
            }
            assert forall|i: int| rank(s, v) <= i < s.len() implies (#[trigger] s[i]) >= v by {
                if i < head.len() {
                    assert(head[i] >= v);
                }
            }
        }
    }
}

/// The identifiers of `ids` can go back into the free list `s`: they are
/// distinct, of the pool's range, and none is in the list already.
pub open spec fn returnable(pool: Pool, s: Seq<i8>, ids: Seq<i8>) -> bool {
    &&& ids.no_duplicates()
    &&& within(ids, pool.lowest(), pool.highest())
    &&& forall|k: int| 0 <= k < ids.len() ==> !s.contains(#[trigger] ids[k])
}

/// Putting back identifiers that can go back gives a well-formed pool that
/// holds exactly the old identifiers and the returned ones, each once.
pub proof fn lemma_with_ids(pool: Pool, s: Seq<i8>, ids: Seq<i8>)
    requires
        pool_wf(pool, s),
        returnable(pool, s, ids),
    ensures
        pool_wf(pool, with_ids(s, ids)),
        with_ids(s, ids).len() == s.len() + ids.len(),
        forall|w: i8| #[trigger] with_ids(s, ids).contains(w) <==> (s.contains(w) || ids.contains(w)),
    decreases ids.len(),
{
    if ids.len() > 0 {
        let head = ids.drop_last();
        let last = ids.last();
        assert(head.no_duplicates()) by {
            assert forall|a: int, b: int| 0 <= a < head.len() && 0 <= b < head.len() && a
                != b implies head[a] != head[b] by {
                assert(ids[a] != ids[b]);
            }
        }
        assert forall|k: int| 0 <= k < head.len() implies !s.contains(#[trigger] head[k]) by {
            assert(!s.contains(ids[k]));
        }
        assert forall|k: int| 0 <= k < head.len() implies pool.lowest() <= (#[trigger] head[k])
            <= pool.highest() by {
            assert(pool.lowest() <= ids[k] <= pool.highest());
        }
        lemma_with_ids(pool, s, head);
        let mid = with_ids(s, head);
        assert(!mid.contains(last)) by {
            assert(!s.contains(ids[ids.len() - 1]));
            if head.contains(last) {
                let k = choose|k: int| 0 <= k < head.len() && head[k] == last;
                assert(ids[k] != ids[ids.len() - 1]);
            }
        }
        assert(pool.lowest() <= ids[ids.len() - 1] <= pool.highest());
        lemma_with_id(pool, mid, last);
        let out = with_ids(s, ids);
        assert forall|w: i8| #[trigger] out.contains(w) <==> (s.contains(w) || ids.contains(w)) by {
            if head.contains(w) {
                let k = choose|k: int| 0 <= k < head.len() && head[k] == w;
                assert(ids[k] == w);
            }
            if ids.contains(w) {
                let k = choose|k: int| 0 <= k < ids.len() && ids[k] == w;
                if k < head.len() {
                    assert(head[k] == w);
                }
            }
            assert(ids[ids.len() - 1] == last);
        }
    }
}

/// Whether the identifiers can go back into the free list.
pub fn can_return(pool: Pool, s: &Vec<i8>, ids: &Vec<i8>) -> (r: bool)
    ensures
        r == returnable(pool, s@, ids@),
{
    if !all_distinct(ids) {
        return false;
    }
    if !all_within(ids, pool.lowest_id(), pool.highest_id()) {
        return false;
    }
    let mut k: usize = 0;
    while k < ids.len()
        invariant
            k <= ids.len(),
            forall|m: int| 0 <= m < k ==> !s@.contains(#[trigger] ids@[m]),
        decreases ids.len() - k,
    {
        if has_id(s, ids[k]) {
            return false;
        }
        k += 1;
    }
    true
}

/// Puts identifiers back into an ascending free list, each at its place.
/// Nothing is put back unless all of them can go back.
pub fn give_back(pool: Pool, s: &mut Vec<i8>, ids: &Vec<i8>) -> (ok: bool)
    requires
        pool_wf(pool, old(s)@),
    ensures
        ok == returnable(pool, old(s)@, ids@),
        ok ==> final(s)@ == with_ids(old(s)@, ids@),
        !ok ==> final(s)@ == old(s)@,
        pool_wf(pool, final(s)@),
        ok ==> final(s)@.len() == old(s)@.len() + ids@.len(),
{
    if !can_return(pool, s, ids) {
        return false;
    }
    let mut k: usize = 0;
    assert(ids@.take(0) =~= Seq::<i8>::empty());
    while k < ids.len()
        invariant
            k <= ids.len(),
            pool_wf(pool, old(s)@),
            returnable(pool, old(s)@, ids@),
            s@ == with_ids(old(s)@, ids@.take(k as int)),
        decreases ids.len() - k,
    {
        let v = ids[k];
        let ghost before = s@;
        let ghost head = ids@.take(k as int);
        proof {
            assert(ids@.take(k + 1).drop_last() =~= head);
            assert(ids@.take(k + 1).last() == v);
            assert(returnable(pool, old(s)@, head)) by {
                assert forall|a: int, b: int| 0 <= a < head.len() && 0 <= b < head.len() && a
                    != b implies head[a] != head[b] by {
                    assert(ids@[a] != ids@[b]);
                }
                assert forall|m: int| 0 <= m < head.len() implies !old(s)@.contains(
                    #[trigger] head[m],
                ) by {
                    assert(!old(s)@.contains(ids@[m]));
                }
                assert forall|m: int| 0 <= m < head.len() implies pool.lowest() <= (
                #[trigger] head[m]) <= pool.highest() by {
                    assert(pool.lowest() <= ids@[m] <= pool.highest());
                }
            }
            lemma_with_ids(pool, old(s)@, head);
            assert(!before.contains(v)) by {
                assert(!old(s)@.contains(ids@[k as int]));
                if head.contains(v) {
                    let m = choose|m: int| 0 <= m < head.len() && head[m] == v;
                    assert(ids@[m] != ids@[k as int]);
                }
            }
            assert(pool.lowest() <= ids@[k as int] <= pool.highest());
            lemma_with_id(pool, before, v);
        }
        let mut p: usize = 0;
        while p < s.len() && s[p] < v
            invariant
                p <= s.len(),
                s@ == before,
                forall|i: int| 0 <= i < p ==> (#[trigger] s@[i]) < v,
            decreases s.len() - p,
        {
            p += 1;
        }
        proof {
            assert forall|i: int| p <= i < s.len() implies (#[trigger] s@[i]) >= v by {
                if i > p {
                    assert(s@[p as int] < s@[i]);
                }
            }
            lemma_rank(before, v, p as int);
        }
        s.insert(p, v);
        k += 1;
    }
    proof {
        assert(ids@.take(ids.len() as int) =~= ids@);
        lemma_with_ids(pool, old(s)@, ids@);
    }
    true
}

/// The lowest identifier of a list that is not empty.
pub open spec fn least(ids: Seq<i8>) -> i8
    decreases ids.len(),
{
    if ids.len() <= 1 {
        ids[0]
    } else if ids.last() < least(ids.drop_last()) {
        ids.last()
    } else {
        least(ids.drop_last())
    }
}

/// The lowest identifier of a list is one of the list, and none of the list
/// is lower.
pub proof fn lemma_least(ids: Seq<i8>)
    requires
        ids.len() > 0,
    ensures
        ids.contains(least(ids)),
        forall|k: int| 0 <= k < ids.len() ==> least(ids) <= #[trigger] ids[k],
    decreases ids.len(),
{
    if ids.len() <= 1 {
        assert(ids[0] == least(ids));
    } else {
        let head = ids.drop_last();
        lemma_least(head);
        let at = choose|at: int| 0 <= at < head.len() && head[at] == least(head);
        assert(ids[at] == least(head));
        assert(ids[ids.len() - 1] == ids.last());
        assert forall|k: int| 0 <= k < ids.len() implies least(ids) <= #[trigger] ids[k] by {
            if k < head.len() {
                assert(least(head) <= head[k]);
            }
        }
    }
}

/// The lowest identifier of an ascending list is its first.
pub proof fn lemma_least_is_first(ids: Seq<i8>)
    requires
        ascending(ids),
        ids.len() > 0,
    ensures
        least(ids) == ids[0],
{
    lemma_least(ids);
    let at = choose|at: int| 0 <= at < ids.len() && ids[at] == least(ids);
    if at > 0 {
        assert(ids[0] < ids[at]);
    }
}

/// An ascending list without its first identifier is the rest of the list.
pub proof fn lemma_without_first(ids: Seq<i8>)
    requires
        ascending(ids),
        ids.len() > 0,
    ensures
        without(ids, seq![ids[0]]) == ids.skip(1),
    decreases ids.len(),
{
    let first = seq![ids[0]];
    assert(first[0] == ids[0]);
    if ids.len() == 1 {
        assert(first.contains(ids.last()));
        assert(ids.drop_last() =~= Seq::<i8>::empty());
        assert(without(ids.drop_last(), first) =~= Seq::<i8>::empty());
        assert(ids.skip(1) =~= Seq::<i8>::empty());
    } else {
        let head = ids.drop_last();
        assert forall|i: int, j: int| 0 <= i < j < head.len() implies (#[trigger] head[i]) < (
        #[trigger] head[j]) by {
            assert(ids[i] < ids[j]);
        }
        lemma_without_first(head);
        assert(head[0] == ids[0]);
        assert(ids[0] < ids[ids.len() - 1]);
        assert(!first.contains(ids.last())) by {
            if first.contains(ids.last()) {
                let k = choose|k: int| 0 <= k < first.len() && first[k] == ids.last();
                assert(first[k] == ids[0]);
            }
        }
        assert(head.skip(1).push(ids.last()) =~= ids.skip(1));
    }
}

/// In an ascending list every identifier of the low end is below every
/// identifier of the rest.
pub proof fn lemma_low_end_is_lowest(ids: Seq<i8>, n: int)
    requires
        ascending(ids),
        0 <= n <= ids.len(),
    ensures
        ascending(ids.take(n)),
        forall|i: int, j: int|
            0 <= i < n && 0 <= j < ids.len() - n ==> (#[trigger] ids.take(n)[i]) < (
            #[trigger] ids.skip(n)[j]),
{
    assert forall|i: int, j: int| 0 <= i < j < n implies (#[trigger] ids.take(n)[i]) < (
    #[trigger] ids.take(n)[j]) by {
        assert(ids[i] < ids[j]);
    }
    assert forall|i: int, j: int| 0 <= i < n && 0 <= j < ids.len() - n implies (
    #[trigger] ids.take(n)[i]) < (#[trigger] ids.skip(n)[j]) by {
        assert(ids[i] < ids[j + n]);
    }
}

} // verus!
