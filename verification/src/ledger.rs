//! The resource ledger: the free memory segments and identifier pools of one
//! host, and for each active container the record of what it holds.

use crate::error::EngineError;
use crate::pool::{
    ascending, can_return, copy_ids, give_back, has_id, is_pool_wf, lemma_with_ids, pool_wf,
    returnable, take_lowest, with_ids, without, Pool,
};
use crate::segment::{
    after_taking, any_overlap, covers, is_first_fit, is_merge_of, is_normalized,
    lemma_overlap_shares_address, lemma_overlaps_any_shares_address, merge_into, no_fit,
    normalized, overlaps_any, take_first_fit, taken_from, Segment,
};
use crate::text::{chars_of, same_chars};
use vstd::prelude::*;

verus! {

/// What one active container holds: the canonical record of what to give
/// back when it is torn down.
#[derive(Debug)]
pub struct ContainerRecord {
    /// The container's identifier.
    pub id: String,
    /// The memory range taken from the free segments.
    pub memory: Segment,
    /// The auxiliary processor cores.
    pub rcpus: Vec<i8>,
    /// The FPGA regions.
    pub fpga_regions: Vec<i8>,
    /// The shared-memory channel slot, if the container has networking.
    pub bdf: Option<i8>,
}

/// The mathematical content of a `ContainerRecord`.
pub struct RecordView {
    pub id: Seq<char>,
    pub memory: Segment,
    pub rcpus: Seq<i8>,
    pub fpga_regions: Seq<i8>,
    pub bdf: Option<i8>,
}

impl View for ContainerRecord {
    type V = RecordView;

    open spec fn view(&self) -> RecordView {
        RecordView {
            id: self.id@,
            memory: self.memory,
            rcpus: self.rcpus@,
            fpga_regions: self.fpga_regions@,
            bdf: self.bdf,
        }
    }
}

impl RecordView {
    /// The identifiers of `pool` that the container holds.
    pub open spec fn ids(self, pool: Pool) -> Seq<i8> {
        match pool {
            Pool::Rcpu => self.rcpus,
            Pool::FpgaRegion => self.fpga_regions,
            Pool::Bdf => match self.bdf {
                Some(b) => seq![b],
                None => Seq::<i8>::empty(),
            },
        }
    }
}

/// The ledger of one host.
#[derive(Debug)]
pub struct Ledger {
    /// The free memory segments, in canonical form.
    pub free_segments: Vec<Segment>,
    /// The free auxiliary processor cores, ascending.
    pub free_rcpus: Vec<i8>,
    /// The free FPGA regions, ascending.
    pub free_fpga_regions: Vec<i8>,
    /// The free shared-memory channel slots, ascending.
    pub free_bdf: Vec<i8>,
    /// The records of the active containers, oldest first.
    pub containers: Vec<ContainerRecord>,
}

/// The mathematical content of a `Ledger`.
pub struct LedgerView {
    pub free_segments: Seq<Segment>,
    pub free_rcpus: Seq<i8>,
    pub free_fpga_regions: Seq<i8>,
    pub free_bdf: Seq<i8>,
    pub containers: Seq<RecordView>,
}

/// The contents of a list of records.
pub open spec fn views(records: Seq<ContainerRecord>) -> Seq<RecordView> {
    records.map_values(|r: ContainerRecord| r@)
}

impl View for Ledger {
    type V = LedgerView;

    open spec fn view(&self) -> LedgerView {
        LedgerView {
            free_segments: self.free_segments@,
            free_rcpus: self.free_rcpus@,
            free_fpga_regions: self.free_fpga_regions@,
            free_bdf: self.free_bdf@,
            containers: views(self.containers@),
        }
    }
}

/// Some record holds the address `x`.
pub open spec fn used_address(records: Seq<RecordView>, x: int) -> bool {
    exists|c: int| 0 <= c < records.len() && (#[trigger] records[c]).memory.holds(x)
}

/// The memory of some record overlaps `range`.
pub open spec fn memory_overlapped(records: Seq<RecordView>, range: Segment) -> bool {
    exists|c: int| 0 <= c < records.len() && (#[trigger] records[c]).memory.overlaps(range)
}

/// Some record holds the identifier `v` of `pool`.
pub open spec fn claimed(records: Seq<RecordView>, pool: Pool, v: i8) -> bool {
    exists|c: int| 0 <= c < records.len() && (#[trigger] records[c]).ids(pool).contains(v)
}

/// Some record holds one of the identifiers `ids` of `pool`.
pub open spec fn any_claimed(records: Seq<RecordView>, pool: Pool, ids: Seq<i8>) -> bool {
    exists|k: int| 0 <= k < ids.len() && claimed(records, pool, #[trigger] ids[k])
}

/// Some record belongs to the container `id`.
pub open spec fn named(records: Seq<RecordView>, id: Seq<char>) -> bool {
    exists|c: int| 0 <= c < records.len() && (#[trigger] records[c]).id == id
}

/// The names that the ledger document uses for its own sections, which no
/// container can have.
pub open spec fn is_reserved_name(id: Seq<char>) -> bool {
    ||| id == "containerid"@
    ||| id == "free_segments"@
    ||| id == "free_pci_devices_bdf"@
    ||| id == "free_rcpus"@
    ||| id == "free_fpga_regions"@
}

/// The number of identifiers of `pool` that the records hold.
pub open spec fn used_count(records: Seq<RecordView>, pool: Pool) -> int
    decreases records.len(),
{
    if records.len() == 0 {
        0
    } else {
        used_count(records.drop_last(), pool) + records.last().ids(pool).len()
    }
}

impl LedgerView {
    /// The free identifiers of `pool`.
    pub open spec fn free(self, pool: Pool) -> Seq<i8> {
        match pool {
            Pool::Rcpu => self.free_rcpus,
            Pool::FpgaRegion => self.free_fpga_regions,
            Pool::Bdf => self.free_bdf,
        }
    }

    /// The ledger with the free list of `pool` replaced.
    pub open spec fn with_free(self, pool: Pool, ids: Seq<i8>) -> LedgerView {
        match pool {
            Pool::Rcpu => LedgerView { free_rcpus: ids, ..self },
            Pool::FpgaRegion => LedgerView { free_fpga_regions: ids, ..self },
            Pool::Bdf => LedgerView { free_bdf: ids, ..self },
        }
    }

    /// The ledger with only its first `n` records.
    pub open spec fn upto(self, n: int) -> LedgerView {
        LedgerView { containers: self.containers.take(n), ..self }
    }

    /// The address `x` belongs to the managed address space: it is free or
    /// held by a container.
    pub open spec fn manages(self, x: int) -> bool {
        covers(self.free_segments, x) || used_address(self.containers, x)
    }

    /// The number of identifiers of `pool` that the ledger knows, free or
    /// assigned: the capacity of the pool.
    pub open spec fn pool_size(self, pool: Pool) -> int {
        self.free(pool).len() + used_count(self.containers, pool)
    }

    /// The record can join the ledger: what it holds is neither free nor
    /// held by another record, and its name is not taken.
    pub open spec fn fits(self, rec: RecordView) -> bool {
        &&& rec.memory.start <= rec.memory.end
        &&& !overlaps_any(self.free_segments, rec.memory)
        &&& !memory_overlapped(self.containers, rec.memory)
        &&& returnable(Pool::Rcpu, self.free_rcpus, rec.rcpus)
        &&& returnable(Pool::FpgaRegion, self.free_fpga_regions, rec.ids(Pool::FpgaRegion))
        &&& returnable(Pool::Bdf, self.free_bdf, rec.ids(Pool::Bdf))
        &&& !any_claimed(self.containers, Pool::Rcpu, rec.rcpus)
        &&& !any_claimed(self.containers, Pool::FpgaRegion, rec.fpga_regions)
        &&& !any_claimed(self.containers, Pool::Bdf, rec.ids(Pool::Bdf))
        &&& !is_reserved_name(rec.id)
        &&& !named(self.containers, rec.id)
    }

    /// The free lists are in canonical form.
    pub open spec fn free_wf(self) -> bool {
        &&& normalized(self.free_segments)
        &&& pool_wf(Pool::Rcpu, self.free_rcpus)
        &&& pool_wf(Pool::FpgaRegion, self.free_fpga_regions)
        &&& pool_wf(Pool::Bdf, self.free_bdf)
    }

    /// Record `c` fits the free lists and the records before it.
    pub open spec fn fits_at(self, c: int) -> bool {
        self.upto(c).fits(self.containers[c])
    }

    /// The ledger is consistent: the free lists are canonical, and no
    /// address, identifier or name is free and held, or held twice.
    pub open spec fn wf(self) -> bool {
        &&& self.free_wf()
        &&& forall|c: int| 0 <= c < self.containers.len() ==> #[trigger] self.fits_at(c)
    }

    /// The ledger after `rec` was recorded.
    pub open spec fn recorded(self, rec: RecordView) -> LedgerView {
        LedgerView { containers: self.containers.push(rec), ..self }
    }

    /// The ledger after record `i` was forgotten.
    pub open spec fn forgotten(self, i: int) -> LedgerView {
        LedgerView { containers: self.containers.remove(i), ..self }
    }
}

/// A consistent ledger stays consistent when a record that fits joins it.
pub proof fn lemma_record_keeps_wf(l: LedgerView, rec: RecordView)
    requires
        l.wf(),
        l.fits(rec),
    ensures
        l.recorded(rec).wf(),
{
    let post = l.recorded(rec);
    assert forall|c: int| 0 <= c < post.containers.len() implies #[trigger] post.fits_at(c) by {
        if c < l.containers.len() {
            assert(l.fits_at(c));
            assert(post.containers.take(c) =~= l.containers.take(c));
            assert(post.upto(c) == l.upto(c));
        } else {
            assert(post.containers.take(c) =~= l.containers);
            assert(post.upto(c) == l);
        }
    }
}

/// In a consistent ledger every record would fit if it were not there: it
/// fits the free lists and the other records.
pub proof fn lemma_fits_others(l: LedgerView, i: int)
    requires
        l.wf(),
        0 <= i < l.containers.len(),
    ensures
        l.forgotten(i).fits(l.containers[i]),
{
    let rec = l.containers[i];
    let rest = l.containers.remove(i);
    assert(l.fits_at(i));
    let before = l.containers.take(i);
    assert forall|c: int| 0 <= c < rest.len() implies !(#[trigger] rest[c]).memory.overlaps(
        rec.memory,
    ) by {
        if c < i {
            assert(before[c].memory == rest[c].memory);
            assert(!before[c].memory.overlaps(rec.memory));
        } else {
            let o = c + 1;
            assert(l.fits_at(o));
            assert(l.containers.take(o)[i] == rec);
            assert(!l.containers.take(o)[i].memory.overlaps(l.containers[o].memory));
        }
    }
    assert forall|pool: Pool, c: int, v: i8| 0 <= c < rest.len() && rec.ids(pool).contains(v)
        && rest[c].ids(pool).contains(v) implies false by {
        if c < i {
            assert(before[c] == rest[c]);
            let k = choose|k: int| 0 <= k < rec.ids(pool).len() && rec.ids(pool)[k] == v;
            assert(claimed(before, pool, rec.ids(pool)[k]));
            assert(any_claimed(before, pool, rec.ids(pool)));
        } else {
            let o = c + 1;
            assert(l.fits_at(o));
            assert(l.containers.take(o)[i] == rec);
            let k = choose|k: int|
                0 <= k < rest[c].ids(pool).len() && rest[c].ids(pool)[k] == v;
            assert(claimed(l.containers.take(o), pool, rest[c].ids(pool)[k]));
            assert(any_claimed(l.containers.take(o), pool, l.containers[o].ids(pool)));
        }
    }
    assert forall|c: int| 0 <= c < rest.len() implies (#[trigger] rest[c]).id != rec.id by {
        if c < i {
            assert(before[c].id == rest[c].id);
        } else {
            let o = c + 1;
            assert(l.fits_at(o));
            assert(l.containers.take(o)[i] == rec);
        }
    }
    assert(!any_claimed(rest, Pool::Rcpu, rec.rcpus)) by {
        if any_claimed(rest, Pool::Rcpu, rec.rcpus) {
            let k = choose|k: int|
                0 <= k < rec.rcpus.len() && claimed(rest, Pool::Rcpu, #[trigger] rec.rcpus[k]);
            let c = choose|c: int|
                0 <= c < rest.len() && (#[trigger] rest[c]).ids(Pool::Rcpu).contains(rec.rcpus[k]);
            assert(rec.ids(Pool::Rcpu).contains(rec.rcpus[k]));
        }
    }
    assert(!any_claimed(rest, Pool::FpgaRegion, rec.fpga_regions)) by {
        if any_claimed(rest, Pool::FpgaRegion, rec.fpga_regions) {
            let k = choose|k: int|
                0 <= k < rec.fpga_regions.len() && claimed(
                    rest,
                    Pool::FpgaRegion,
                    #[trigger] rec.fpga_regions[k],
                );
            let c = choose|c: int|
                0 <= c < rest.len() && (#[trigger] rest[c]).ids(Pool::FpgaRegion).contains(
                    rec.fpga_regions[k],
                );
            assert(rec.ids(Pool::FpgaRegion).contains(rec.fpga_regions[k]));
        }
    }
    assert(!any_claimed(rest, Pool::Bdf, rec.ids(Pool::Bdf))) by {
        let ids = rec.ids(Pool::Bdf);
        if any_claimed(rest, Pool::Bdf, ids) {
            let k = choose|k: int| 0 <= k < ids.len() && claimed(rest, Pool::Bdf, #[trigger] ids[k]);
            let c = choose|c: int|
                0 <= c < rest.len() && (#[trigger] rest[c]).ids(Pool::Bdf).contains(ids[k]);
            assert(ids.contains(ids[k]));
        }
    }
}

/// A consistent ledger stays consistent when a record is forgotten.
pub proof fn lemma_forget_keeps_wf(l: LedgerView, i: int)
    requires
        l.wf(),
        0 <= i < l.containers.len(),
    ensures
        l.forgotten(i).wf(),
{
    let post = l.forgotten(i);
    assert forall|c: int| 0 <= c < post.containers.len() implies #[trigger] post.fits_at(c) by {
        if c < i {
            assert(l.fits_at(c));
            assert(post.containers.take(c) =~= l.containers.take(c));
            assert(post.upto(c) == l.upto(c));
        } else {
            let o = c + 1;
            assert(l.fits_at(o));
            let rec = l.containers[o];
            let wide = l.containers.take(o);
            let narrow = post.containers.take(c);
            assert(narrow =~= wide.remove(i));
            lemma_fewer_records_fit(l.upto(o), i, rec);
            assert(post.upto(c) == l.upto(o).forgotten(i));
        }
    }
}

/// A record that fits a ledger fits it with one record less.
pub proof fn lemma_fewer_records_fit(l: LedgerView, i: int, rec: RecordView)
    requires
        0 <= i < l.containers.len(),
        l.fits(rec),
    ensures
        l.forgotten(i).fits(rec),
{
    let rest = l.containers.remove(i);
    assert forall|c: int| 0 <= c < rest.len() implies exists|o: int|
        0 <= o < l.containers.len() && l.containers[o] == #[trigger] rest[c] by {
        let o = if c < i {
            c
        } else {
            c + 1
        };
        assert(l.containers[o] == rest[c]);
    }
    if memory_overlapped(rest, rec.memory) {
        let c = choose|c: int|
            0 <= c < rest.len() && (#[trigger] rest[c]).memory.overlaps(rec.memory);
        let o = choose|o: int| 0 <= o < l.containers.len() && l.containers[o] == rest[c];
        assert(l.containers[o].memory.overlaps(rec.memory));
    }
    if named(rest, rec.id) {
        let c = choose|c: int| 0 <= c < rest.len() && (#[trigger] rest[c]).id == rec.id;
        let o = choose|o: int| 0 <= o < l.containers.len() && l.containers[o] == rest[c];
        assert(l.containers[o].id == rec.id);
    }
    assert forall|pool: Pool, ids: Seq<i8>| any_claimed(rest, pool, ids) implies any_claimed(
        l.containers,
        pool,
        ids,
    ) by {
        let k = choose|k: int| 0 <= k < ids.len() && claimed(rest, pool, #[trigger] ids[k]);
        let c = choose|c: int|
            0 <= c < rest.len() && (#[trigger] rest[c]).ids(pool).contains(ids[k]);
        let o = choose|o: int| 0 <= o < l.containers.len() && l.containers[o] == rest[c];
        assert(l.containers[o].ids(pool).contains(ids[k]));
        assert(claimed(l.containers, pool, ids[k]));
    }
}

/// A consistent ledger stays consistent when its free segments are
/// replaced by a canonical list that overlaps no record.
pub proof fn lemma_new_segments_keep_wf(l: LedgerView, free: Seq<Segment>)
    requires
        l.wf(),
        normalized(free),
        forall|c: int|
            0 <= c < l.containers.len() ==> !overlaps_any(free, (#[trigger] l.containers[c]).memory),
    ensures
        (LedgerView { free_segments: free, ..l }).wf(),
{
    let post = LedgerView { free_segments: free, ..l };
    assert forall|c: int| 0 <= c < post.containers.len() implies #[trigger] post.fits_at(c) by {
        assert(l.fits_at(c));
        assert(!overlaps_any(free, l.containers[c].memory));
    }
}

/// A consistent ledger stays consistent when the free list of a pool is
/// replaced by a well-formed list that holds no identifier of a record.
pub proof fn lemma_new_pool_keeps_wf(l: LedgerView, pool: Pool, ids: Seq<i8>)
    requires
        l.wf(),
        pool_wf(pool, ids),
        forall|c: int, v: i8|
            0 <= c < l.containers.len() && (#[trigger] l.containers[c]).ids(pool).contains(v)
                ==> !#[trigger] ids.contains(v),
    ensures
        l.with_free(pool, ids).wf(),
{
    let post = l.with_free(pool, ids);
    assert forall|c: int| 0 <= c < post.containers.len() implies #[trigger] post.fits_at(c) by {
        assert(l.fits_at(c));
        let rec = l.containers[c];
        assert forall|k: int| 0 <= k < rec.ids(pool).len() implies !ids.contains(
            #[trigger] rec.ids(pool)[k],
        ) by {
            assert(rec.ids(pool).contains(rec.ids(pool)[k]));
        }
    }
}

impl ContainerRecord {
    /// A copy of the record.
    pub fn copy(&self) -> (r: ContainerRecord)
        ensures
            r@ == self@,
    {
        ContainerRecord {
            id: self.id.clone(),
            memory: self.memory,
            rcpus: copy_ids(&self.rcpus),
            fpga_regions: copy_ids(&self.fpga_regions),
            bdf: self.bdf,
        }
    }

    /// The identifiers of `pool` that the container holds.
    pub fn pool_ids(&self, pool: Pool) -> (r: Vec<i8>)
        ensures
            r@ == self@.ids(pool),
    {
        match pool {
            Pool::Rcpu => copy_ids(&self.rcpus),
            Pool::FpgaRegion => copy_ids(&self.fpga_regions),
            Pool::Bdf => {
                let mut r: Vec<i8> = Vec::new();
                match self.bdf {
                    Some(b) => {
                        r.push(b);
                        assert(r@ =~= seq![b]);
                    },
                    None => {},
                }
                r
            },
        }
    }
}

/// Whether `id` is a name that the ledger document keeps for itself.
pub fn reserved_name(id: &str) -> (r: bool)
    ensures
        r == is_reserved_name(id@),
{
    let v = chars_of(id);
    same_chars(&v, &chars_of("containerid")) || same_chars(&v, &chars_of("free_segments"))
        || same_chars(&v, &chars_of("free_pci_devices_bdf")) || same_chars(
        &v,
        &chars_of("free_rcpus"),
    ) || same_chars(&v, &chars_of("free_fpga_regions"))
}

impl Ledger {
    /// Whether the ledger is consistent.
    pub open spec fn wf(&self) -> bool {
        self@.wf()
    }

    /// A ledger with nothing free and no container.
    pub fn new() -> (l: Ledger)
        ensures
            l.wf(),
            l@.free_segments.len() == 0,
            l@.free_rcpus.len() == 0,
            l@.free_fpga_regions.len() == 0,
            l@.free_bdf.len() == 0,
            l@.containers.len() == 0,
    {
        Ledger {
            free_segments: Vec::new(),
            free_rcpus: Vec::new(),
            free_fpga_regions: Vec::new(),
            free_bdf: Vec::new(),
            containers: Vec::new(),
        }
    }

    /// A copy of the ledger.
    pub fn copy(&self) -> (l: Ledger)
        ensures
            l@ == self@,
    {
        let mut segs: Vec<Segment> = Vec::new();
        let mut i: usize = 0;
        while i < self.free_segments.len()
            invariant
                i <= self.free_segments.len(),
                segs@ == self.free_segments@.take(i as int),
            decreases self.free_segments.len() - i,
        {
            segs.push(self.free_segments[i]);
            i += 1;
            assert(self.free_segments@.take(i as int) =~= self.free_segments@.take(i - 1).push(
                self.free_segments@[i - 1],
            ));
        }
        assert(self.free_segments@.take(self.free_segments.len() as int) =~= self.free_segments@);
        let mut recs: Vec<ContainerRecord> = Vec::new();
        let mut c: usize = 0;
        while c < self.containers.len()
            invariant
                c <= self.containers.len(),
                views(recs@) == views(self.containers@).take(c as int),
            decreases self.containers.len() - c,
        {
            let ghost before = views(recs@);
            recs.push(self.containers[c].copy());
            c += 1;
            assert(views(recs@) =~= before.push(self.containers@[c - 1]@));
            assert(views(self.containers@).take(c as int) =~= views(self.containers@).take(
                c - 1,
            ).push(self.containers@[c - 1]@));
        }
        assert(views(self.containers@).take(self.containers.len() as int) =~= views(
            self.containers@,
        ));
        Ledger {
            free_segments: segs,
            free_rcpus: copy_ids(&self.free_rcpus),
            free_fpga_regions: copy_ids(&self.free_fpga_regions),
            free_bdf: copy_ids(&self.free_bdf),
            containers: recs,
        }
    }

    /// The free identifiers of `pool`.
    pub fn free_ids(&self, pool: Pool) -> (r: &Vec<i8>)
        ensures
            r@ == self@.free(pool),
    {
        match pool {
            Pool::Rcpu => &self.free_rcpus,
            Pool::FpgaRegion => &self.free_fpga_regions,
            Pool::Bdf => &self.free_bdf,
        }
    }

    /// Whether the memory of one of the first `upto` records overlaps
    /// `range`.
    pub fn memory_taken(&self, upto: usize, range: Segment) -> (r: bool)
        requires
            upto <= self.containers.len(),
        ensures
            r == memory_overlapped(self@.containers.take(upto as int), range),
    {
        let ghost recs = self@.containers.take(upto as int);
        let mut c: usize = 0;
        while c < upto
            invariant
                c <= upto <= self.containers.len(),
                recs == self@.containers.take(upto as int),
                forall|k: int| 0 <= k < c ==> !(#[trigger] recs[k]).memory.overlaps(range),
            decreases upto - c,
        {
            if self.containers[c].memory.overlapping(&range) {
                assert(recs[c as int].memory.overlaps(range));
                return true;
            }
            c += 1;
        }
        false
    }

    /// Whether one of the first `upto` records holds the identifier `v` of
    /// `pool`.
    pub fn id_claimed(&self, upto: usize, pool: Pool, v: i8) -> (r: bool)
        requires
            upto <= self.containers.len(),
        ensures
            r == claimed(self@.containers.take(upto as int), pool, v),
    {
        let ghost recs = self@.containers.take(upto as int);
        let mut c: usize = 0;
        while c < upto
            invariant
                c <= upto <= self.containers.len(),
                recs == self@.containers.take(upto as int),
                forall|k: int| 0 <= k < c ==> !(#[trigger] recs[k]).ids(pool).contains(v),
            decreases upto - c,
        {
            let held = match pool {
                Pool::Rcpu => has_id(&self.containers[c].rcpus, v),
                Pool::FpgaRegion => has_id(&self.containers[c].fpga_regions, v),
                Pool::Bdf => match self.containers[c].bdf {
                    Some(b) => {
                        assert(seq![b][0] == b);
                        b == v
                    },
                    None => false,
                },
            };
            assert(held == recs[c as int].ids(pool).contains(v));
            if held {
                return true;
            }
            c += 1;
        }
        false
    }

    /// Whether one of the first `upto` records holds one of the identifiers
    /// `ids` of `pool`.
    pub fn ids_claimed(&self, upto: usize, pool: Pool, ids: &Vec<i8>) -> (r: bool)
        requires
            upto <= self.containers.len(),
        ensures
            r == any_claimed(self@.containers.take(upto as int), pool, ids@),
    {
        let mut k: usize = 0;
        while k < ids.len()
            invariant
                k <= ids.len(),
                upto <= self.containers.len(),
                forall|m: int|
                    0 <= m < k ==> !claimed(
                        self@.containers.take(upto as int),
                        pool,
                        #[trigger] ids@[m],
                    ),
            decreases ids.len() - k,
        {
            if self.id_claimed(upto, pool, ids[k]) {
                return true;
            }
            k += 1;
        }
        false
    }

    /// Whether one of the first `upto` records belongs to the container
    /// `id`.
    pub fn name_taken(&self, upto: usize, id: &str) -> (r: bool)
        requires
            upto <= self.containers.len(),
        ensures
            r == named(self@.containers.take(upto as int), id@),
    {
        let ghost recs = self@.containers.take(upto as int);
        let wanted = chars_of(id);
        let mut c: usize = 0;
        while c < upto
            invariant
                c <= upto <= self.containers.len(),
                recs == self@.containers.take(upto as int),
                wanted@ == id@,
                forall|k: int| 0 <= k < c ==> (#[trigger] recs[k]).id != id@,
            decreases upto - c,
        {
            let have = chars_of(self.containers[c].id.as_str());
            if same_chars(&have, &wanted) {
                assert(recs[c as int].id == id@);
                return true;
            }
            c += 1;
        }
        false
    }

    /// The index of the record of the container `id`, if it has one.
    pub fn find(&self, id: &str) -> (r: Option<usize>)
        ensures
            match r {
                Some(i) => i < self.containers.len() && self@.containers[i as int].id == id@
                    && forall|k: int| 0 <= k < i ==> (#[trigger] self@.containers[k]).id != id@,
                None => !named(self@.containers, id@),
            },
    {
        let wanted = chars_of(id);
        let mut c: usize = 0;
        while c < self.containers.len()
            invariant
                c <= self.containers.len(),
                wanted@ == id@,
                forall|k: int| 0 <= k < c ==> (#[trigger] self@.containers[k]).id != id@,
            decreases self.containers.len() - c,
        {
            let have = chars_of(self.containers[c].id.as_str());
            if same_chars(&have, &wanted) {
                return Some(c);
            }
            c += 1;
        }
        None
    }

    /// Whether `rec` fits the free lists and the first `upto` records.
    pub fn fits_before(&self, upto: usize, rec: &ContainerRecord) -> (r: bool)
        requires
            upto <= self.containers.len(),
        ensures
            r == self@.upto(upto as int).fits(rec@),
    {
        let bdf = rec.pool_ids(Pool::Bdf);
        rec.memory.start <= rec.memory.end && !any_overlap(&self.free_segments, rec.memory)
            && !self.memory_taken(upto, rec.memory) && can_return(
            Pool::Rcpu,
            &self.free_rcpus,
            &rec.rcpus,
        ) && can_return(Pool::FpgaRegion, &self.free_fpga_regions, &rec.fpga_regions)
            && can_return(Pool::Bdf, &self.free_bdf, &bdf) && !self.ids_claimed(
            upto,
            Pool::Rcpu,
            &rec.rcpus,
        ) && !self.ids_claimed(upto, Pool::FpgaRegion, &rec.fpga_regions) && !self.ids_claimed(
            upto,
            Pool::Bdf,
            &bdf,
        ) && !reserved_name(rec.id.as_str()) && !self.name_taken(upto, rec.id.as_str())
    }

    /// Whether the ledger is consistent.
    pub fn is_wf(&self) -> (r: bool)
        ensures
            r == self.wf(),
    {
        if !(is_normalized(&self.free_segments) && is_pool_wf(Pool::Rcpu, &self.free_rcpus)
            && is_pool_wf(Pool::FpgaRegion, &self.free_fpga_regions) && is_pool_wf(
            Pool::Bdf,
            &self.free_bdf,
        )) {
            return false;
        }
        let mut c: usize = 0;
        while c < self.containers.len()
            invariant
                c <= self.containers.len(),
                self@.free_wf(),
                forall|k: int| 0 <= k < c ==> #[trigger] self@.fits_at(k),
            decreases self.containers.len() - c,
        {
            if !self.fits_before(c, &self.containers[c]) {
                assert(!self@.fits_at(c as int));
                return false;
            }
            c += 1;
        }
        true
    }

    /// First-fit reservation: takes `size` bytes from the low end of the
    /// first free segment, by ascending address, that has room for them.
    pub fn reserve_memory(&mut self, size: u64) -> (r: Result<Segment, EngineError>)
        requires
            old(self).wf(),
        ensures
            final(self).wf(),
            match r {
                Ok(seg) => exists|i: int|
                    {
                        &&& is_first_fit(old(self)@.free_segments, size as int, i)
                        &&& seg == taken_from(old(self)@.free_segments[i], size as int)
                        &&& final(self)@ == (LedgerView {
                            free_segments: after_taking(
                                old(self)@.free_segments,
                                i,
                                size as int,
                            ),
                            ..old(self)@
                        })
                    },
                Err(e) => e == EngineError::OutOfMemory && no_fit(
                    old(self)@.free_segments,
                    size as int,
                ) && final(self)@ == old(self)@,
            },
    {
        let ghost pre = self@;
        match take_first_fit(&mut self.free_segments, size) {
            Some(seg) => {
                proof {
                    let post = self@;
                    assert(post == LedgerView { free_segments: post.free_segments, ..pre });
                    assert forall|c: int| 0 <= c < pre.containers.len() implies !overlaps_any(
                        post.free_segments,
                        (#[trigger] pre.containers[c]).memory,
                    ) by {
                        let mem = pre.containers[c].memory;
                        assert(pre.fits_at(c));
                        lemma_overlaps_any_shares_address(post.free_segments, mem);
                        lemma_overlaps_any_shares_address(pre.free_segments, mem);
                        if overlaps_any(post.free_segments, mem) {
                            let x = choose|x: int| mem.holds(x) && covers(post.free_segments, x);
                            assert(covers(pre.free_segments, x) <==> (covers(post.free_segments, x)
                                || seg.holds(x)));
                            assert(mem.holds(x) && covers(pre.free_segments, x));
                        }
                    }
                    lemma_new_segments_keep_wf(pre, post.free_segments);
                }
                Ok(seg)
            },
            None => Err(EngineError::OutOfMemory),
        }
    }

    /// Releases `range` into the free segments and coalesces: segments that
    /// have become contiguous are one segment afterwards. A range that is
    /// inverted, or that overlaps what is free or held, is refused.
    pub fn release_memory(&mut self, range: Segment) -> (r: Result<(), EngineError>)
        requires
            old(self).wf(),
        ensures
            final(self).wf(),
            r is Err <==> (range.start > range.end || overlaps_any(
                old(self)@.free_segments,
                range,
            ) || memory_overlapped(old(self)@.containers, range)),
            match r {
                Ok(_) => is_merge_of(final(self)@.free_segments, old(self)@.free_segments, range)
                    && final(self)@ == (LedgerView {
                    free_segments: final(self)@.free_segments,
                    ..old(self)@
                }),
                Err(e) => e == EngineError::LedgerCorrupt && final(self)@ == old(self)@,
            },
    {
        let ghost pre = self@;
        assert(pre.containers.take(pre.containers.len() as int) =~= pre.containers);
        if range.start > range.end || any_overlap(&self.free_segments, range) || self.memory_taken(
            self.containers.len(),
            range,
        ) {
            return Err(EngineError::LedgerCorrupt);
        }
        let merged = merge_into(&self.free_segments, range);
        self.free_segments = merged;
        proof {
            let post = self@;
            assert(post == LedgerView { free_segments: post.free_segments, ..pre });
            assert forall|c: int| 0 <= c < pre.containers.len() implies !overlaps_any(
                post.free_segments,
                (#[trigger] pre.containers[c]).memory,
            ) by {
                let mem = pre.containers[c].memory;
                assert(pre.fits_at(c));
                lemma_overlaps_any_shares_address(post.free_segments, mem);
                lemma_overlaps_any_shares_address(pre.free_segments, mem);
                if overlaps_any(post.free_segments, mem) {
                    let x = choose|x: int| mem.holds(x) && covers(post.free_segments, x);
                    assert(covers(post.free_segments, x) <==> (covers(pre.free_segments, x)
                        || range.holds(x)));
                    if range.holds(x) {
                        lemma_overlap_shares_address(mem, range);
                        assert(pre.containers[c].memory.overlaps(range));
                    } else {
                        assert(mem.holds(x) && covers(pre.free_segments, x));
                    }
                }
            }
            lemma_new_segments_keep_wf(pre, post.free_segments);
        }
        Ok(())
    }

    /// Takes the `n` lowest identifiers out of `pool`, in ascending order.
    pub fn reserve_id(&mut self, pool: Pool, n: usize) -> (r: Result<Vec<i8>, EngineError>)
        requires
            old(self).wf(),
        ensures
            final(self).wf(),
            match r {
                Ok(ids) => {
                    &&& n <= old(self)@.free(pool).len()
                    &&& ids@ == old(self)@.free(pool).take(n as int)
                    &&& final(self)@ == old(self)@.with_free(
                        pool,
                        old(self)@.free(pool).skip(n as int),
                    )
                },
                Err(e) => {
                    &&& n > old(self)@.free(pool).len()
                    &&& e == pool.shortage()
                    &&& final(self)@ == old(self)@
                },
            },
    {
        let ghost pre = self@;
        let got = match pool {
            Pool::Rcpu => take_lowest(&mut self.free_rcpus, n),
            Pool::FpgaRegion => take_lowest(&mut self.free_fpga_regions, n),
            Pool::Bdf => take_lowest(&mut self.free_bdf, n),
        };
        match got {
            Some(ids) => {
                proof {
                    let rest = pre.free(pool).skip(n as int);
                    assert(self@ == pre.with_free(pool, rest));
                    lemma_part_of_pool(pool, pre.free(pool), n as int);
                    assert forall|c: int, v: i8|
                        0 <= c < pre.containers.len() && (#[trigger] pre.containers[c]).ids(
                            pool,
                        ).contains(v) implies !#[trigger] rest.contains(v) by {
                        assert(pre.fits_at(c));
                        let held = pre.containers[c].ids(pool);
                        let k = choose|k: int| 0 <= k < held.len() && held[k] == v;
                        assert(!pre.free(pool).contains(held[k]));
                    }
                    lemma_new_pool_keeps_wf(pre, pool, rest);
                }
                Ok(ids)
            },
            None => Err(pool.shortage_error()),
        }
    }

    /// Puts identifiers back into `pool`. Identifiers that are free already,
    /// held by a container, named twice or out of the pool's range are a
    /// sign of a corrupt ledger: then nothing is put back.
    pub fn release_ids(&mut self, pool: Pool, ids: &Vec<i8>) -> (r: Result<(), EngineError>)
        requires
            old(self).wf(),
        ensures
            final(self).wf(),
            r is Err <==> (!returnable(pool, old(self)@.free(pool), ids@) || any_claimed(
                old(self)@.containers,
                pool,
                ids@,
            )),
            match r {
                Ok(_) => final(self)@ == old(self)@.with_free(
                    pool,
                    with_ids(old(self)@.free(pool), ids@),
                ),
                Err(e) => e == EngineError::LedgerCorrupt && final(self)@ == old(self)@,
            },
    {
        let ghost pre = self@;
        assert(pre.containers.take(pre.containers.len() as int) =~= pre.containers);
        if self.ids_claimed(self.containers.len(), pool, ids) {
            return Err(EngineError::LedgerCorrupt);
        }
        let ok = match pool {
            Pool::Rcpu => give_back(pool, &mut self.free_rcpus, ids),
            Pool::FpgaRegion => give_back(pool, &mut self.free_fpga_regions, ids),
            Pool::Bdf => give_back(pool, &mut self.free_bdf, ids),
        };
        if !ok {
            assert(self@ == pre);
            return Err(EngineError::LedgerCorrupt);
        }
        proof {
            let now = with_ids(pre.free(pool), ids@);
            assert(self@ == pre.with_free(pool, now));
            lemma_with_ids(pool, pre.free(pool), ids@);
            assert forall|c: int, v: i8|
                0 <= c < pre.containers.len() && (#[trigger] pre.containers[c]).ids(pool).contains(
                    v,
                ) implies !#[trigger] now.contains(v) by {
                assert(pre.fits_at(c));
                let held = pre.containers[c].ids(pool);
                let k = choose|k: int| 0 <= k < held.len() && held[k] == v;
                assert(!pre.free(pool).contains(held[k]));
                if ids@.contains(v) {
                    let m = choose|m: int| 0 <= m < ids@.len() && ids@[m] == v;
                    assert(claimed(pre.containers, pool, ids@[m]));
                }
            }
            lemma_new_pool_keeps_wf(pre, pool, now);
        }
        Ok(())
    }

    /// Associates a container with what it holds. A record that does not fit
    /// the ledger is refused.
    pub fn record_container(&mut self, rec: ContainerRecord) -> (r: Result<(), EngineError>)
        requires
            old(self).wf(),
        ensures
            final(self).wf(),
            match r {
                Ok(_) => old(self)@.fits(rec@) && final(self)@ == old(self)@.recorded(rec@),
                Err(e) => !old(self)@.fits(rec@) && e == EngineError::LedgerCorrupt && final(self)@
                    == old(self)@,
            },
    {
        let ghost pre = self@;
        assert(pre.containers.take(pre.containers.len() as int) =~= pre.containers);
        assert(pre.upto(pre.containers.len() as int) == pre);
        if !self.fits_before(self.containers.len(), &rec) {
            return Err(EngineError::LedgerCorrupt);
        }
        self.containers.push(rec);
        proof {
            assert(views(self.containers@) =~= pre.containers.push(rec@));
            lemma_record_keeps_wf(pre, rec@);
        }
        Ok(())
    }

    /// Removes the record of the container `id` from the ledger and hands it
    /// out: the only way by which resources leave a container.
    pub fn forget_container(&mut self, id: &str) -> (r: Result<ContainerRecord, EngineError>)
        requires
            old(self).wf(),
        ensures
            final(self).wf(),
            match r {
                Ok(rec) => exists|i: int|
                    {
                        &&& 0 <= i < old(self)@.containers.len()
                        &&& old(self)@.containers[i].id == id@
                        &&& rec@ == old(self)@.containers[i]
                        &&& final(self)@ == old(self)@.forgotten(i)
                        &&& final(self)@.fits(rec@)
                    },
                Err(e) => !named(old(self)@.containers, id@) && e == EngineError::UnknownContainer
                    && final(self)@ == old(self)@,
            },
    {
        let ghost pre = self@;
        match self.find(id) {
            None => Err(EngineError::UnknownContainer),
            Some(i) => {
                let rec = self.containers.remove(i);
                proof {
                    assert(views(self.containers@) =~= pre.containers.remove(i as int));
                    assert(self@ == pre.forgotten(i as int));
                    lemma_forget_keeps_wf(pre, i as int);
                    lemma_fits_others(pre, i as int);
                }
                Ok(rec)
            },
        }
    }
}

/// The low end and the rest of a well-formed pool are well-formed pools
/// that share no identifier.
pub proof fn lemma_part_of_pool(pool: Pool, s: Seq<i8>, n: int)
    requires
        pool_wf(pool, s),
        0 <= n <= s.len(),
    ensures
        pool_wf(pool, s.skip(n)),
        pool_wf(pool, s.take(n)),
        returnable(pool, s.skip(n), s.take(n)),
        forall|v: i8| #[trigger] s.skip(n).contains(v) ==> s.contains(v),
        forall|v: i8| #[trigger] s.take(n).contains(v) ==> s.contains(v),
{
    let lo = s.take(n);
    let hi = s.skip(n);
    assert forall|i: int, j: int| 0 <= i < j < hi.len() implies (#[trigger] hi[i]) < (
    #[trigger] hi[j]) by {
        assert(s[i + n] < s[j + n]);
    }
    assert forall|i: int, j: int| 0 <= i < j < lo.len() implies (#[trigger] lo[i]) < (
    #[trigger] lo[j]) by {
        assert(s[i] < s[j]);
    }
    assert forall|i: int| 0 <= i < hi.len() implies pool.lowest() <= (#[trigger] hi[i])
        <= pool.highest() by {
        assert(pool.lowest() <= s[i + n] <= pool.highest());
    }
    assert forall|i: int| 0 <= i < lo.len() implies pool.lowest() <= (#[trigger] lo[i])
        <= pool.highest() by {
        assert(pool.lowest() <= s[i] <= pool.highest());
    }
    assert forall|a: int, b: int| 0 <= a < lo.len() && 0 <= b < lo.len() && a != b implies lo[a]
        != lo[b] by {
        if a < b {
            assert(s[a] < s[b]);
        } else {
            assert(s[b] < s[a]);
        }
    }
    assert forall|k: int| 0 <= k < lo.len() implies !hi.contains(#[trigger] lo[k]) by {
        if hi.contains(lo[k]) {
            let m = choose|m: int| 0 <= m < hi.len() && hi[m] == lo[k];
            assert(s[k] < s[m + n]);
        }
    }
    assert forall|v: i8| #[trigger] hi.contains(v) implies s.contains(v) by {
        let m = choose|m: int| 0 <= m < hi.len() && hi[m] == v;
        assert(s[m + n] == v);
    }
    assert forall|v: i8| #[trigger] lo.contains(v) implies s.contains(v) by {
        let m = choose|m: int| 0 <= m < lo.len() && lo[m] == v;
        assert(s[m] == v);
    }
}


/// `post` is what `pre` becomes when a container is enrolled with the record
/// `rec`: everything the record holds has moved out of the free lists, and
/// nothing else has changed.
pub open spec fn enrolled(pre: LedgerView, post: LedgerView, rec: RecordView) -> bool {
    &&& post.containers == pre.containers.push(rec)
    &&& rec.memory.start <= rec.memory.end
    &&& normalized(post.free_segments)
    &&& !overlaps_any(post.free_segments, rec.memory)
    &&& is_merge_of(pre.free_segments, post.free_segments, rec.memory)
    &&& pre.free_rcpus == rec.rcpus + post.free_rcpus
    &&& rec.fpga_regions.no_duplicates()
    &&& forall|k: int|
        0 <= k < rec.fpga_regions.len() ==> pre.free_fpga_regions.contains(
            #[trigger] rec.fpga_regions[k],
        )
    &&& post.free_fpga_regions == without(pre.free_fpga_regions, rec.fpga_regions)
    &&& pre.free_bdf == rec.ids(Pool::Bdf) + post.free_bdf
    &&& !is_reserved_name(rec.id)
    &&& !named(pre.containers, rec.id)
}

/// `post` is what `pre` becomes when the container of record `i` is torn
/// down: the record is gone, and everything it held is free again, the
/// memory coalesced with the free segments next to it.
pub open spec fn released(pre: LedgerView, post: LedgerView, i: int) -> bool {
    &&& 0 <= i < pre.containers.len()
    &&& post.containers == pre.containers.remove(i)
    &&& is_merge_of(post.free_segments, pre.free_segments, pre.containers[i].memory)
    &&& post.free_rcpus == with_ids(pre.free_rcpus, pre.containers[i].rcpus)
    &&& post.free_fpga_regions == with_ids(
        pre.free_fpga_regions,
        pre.containers[i].fpga_regions,
    )
    &&& post.free_bdf == with_ids(pre.free_bdf, pre.containers[i].ids(Pool::Bdf))
}

/// Whether two lists of segments are equal.
pub fn same_segments(a: &Vec<Segment>, b: &Vec<Segment>) -> (r: bool)
    ensures
        r == (a@ == b@),
{
    if a.len() != b.len() {
        return false;
    }
    let mut i: usize = 0;
    while i < a.len()
        invariant
            i <= a.len(),
            a.len() == b.len(),
            forall|k: int| 0 <= k < i ==> a@[k] == b@[k],
        decreases a.len() - i,
    {
        if a[i].start != b[i].start || a[i].end != b[i].end {
            return false;
        }
        i += 1;
    }
    assert(a@ =~= b@);
    true
}

/// Whether `whole` is `head` followed by `tail`.
pub fn is_concat(whole: &Vec<i8>, head: &Vec<i8>, tail: &Vec<i8>) -> (r: bool)
    ensures
        r == (whole@ == head@ + tail@),
{
    if head.len() > whole.len() || whole.len() - head.len() != tail.len() {
        return false;
    }
    let mut i: usize = 0;
    while i < whole.len()
        invariant
            i <= whole.len(),
            whole.len() == head.len() + tail.len(),
            forall|k: int| 0 <= k < i ==> whole@[k] == (head@ + tail@)[k],
        decreases whole.len() - i,
    {
        let other = if i < head.len() {
            head[i]
        } else {
            tail[i - head.len()]
        };
        if whole[i] != other {
            return false;
        }
        i += 1;
    }
    assert(whole@ =~= head@ + tail@);
    true
}

/// Whether every identifier of `ids` is in `pool`.
pub fn all_in(pool: &Vec<i8>, ids: &Vec<i8>) -> (r: bool)
    ensures
        r == forall|k: int| 0 <= k < ids@.len() ==> pool@.contains(#[trigger] ids@[k]),
{
    let mut k: usize = 0;
    while k < ids.len()
        invariant
            k <= ids.len(),
            forall|m: int| 0 <= m < k ==> pool@.contains(#[trigger] ids@[m]),
        decreases ids.len() - k,
    {
        if !has_id(pool, ids[k]) {
            return false;
        }
        k += 1;
    }
    true
}

/// The identifiers of `s` that are not in `ids`, in their order.
pub fn remove_ids(s: &Vec<i8>, ids: &Vec<i8>) -> (r: Vec<i8>)
    ensures
        r@ == without(s@, ids@),
{
    let mut out: Vec<i8> = Vec::new();
    let mut i: usize = 0;
    assert(s@.take(0) =~= Seq::<i8>::empty());
    while i < s.len()
        invariant
            i <= s.len(),
            out@ == without(s@.take(i as int), ids@),
        decreases s.len() - i,
    {
        proof {
            assert(s@.take(i + 1).drop_last() =~= s@.take(i as int));
            assert(s@.take(i + 1).last() == s@[i as int]);
        }
        if !has_id(ids, s[i]) {
            out.push(s[i]);
        }
        i += 1;
    }
    assert(s@.take(s.len() as int) =~= s@);
    out
}

/// Whether two lists of identifiers are equal.
pub fn same_ids(a: &Vec<i8>, b: &Vec<i8>) -> (r: bool)
    ensures
        r == (a@ == b@),
{
    let empty: Vec<i8> = Vec::new();
    assert(b@ + empty@ =~= b@);
    is_concat(a, b, &empty)
}

impl Ledger {
    /// Commits the admission of a container: the ledger in which `rec` is recorded and the
    /// free lists are the given ones. The admission is refused unless the
    /// given free lists are those of this ledger with exactly the holdings
    /// of `rec` taken out.
    pub fn enroll(
        &self,
        free_segments: &Vec<Segment>,
        free_rcpus: &Vec<i8>,
        free_fpga_regions: &Vec<i8>,
        free_bdf: &Vec<i8>,
        rec: ContainerRecord,
    ) -> (r: Result<Ledger, EngineError>)
        requires
            self.wf(),
        ensures
            match r {
                Ok(post) => {
                    &&& enrolled(self@, post@, rec@)
                    &&& post.wf()
                    &&& post@.free_segments == free_segments@
                    &&& post@.free_rcpus == free_rcpus@
                    &&& post@.free_fpga_regions == free_fpga_regions@
                    &&& post@.free_bdf == free_bdf@
                },
                Err(e) => e == EngineError::LedgerCorrupt && !enrolled(
                    self@,
                    LedgerView {
                        free_segments: free_segments@,
                        free_rcpus: free_rcpus@,
                        free_fpga_regions: free_fpga_regions@,
                        free_bdf: free_bdf@,
                        containers: self@.containers.push(rec@),
                    },
                    rec@,
                ),
            },
    {
        let ghost want = LedgerView {
            free_segments: free_segments@,
            free_rcpus: free_rcpus@,
            free_fpga_regions: free_fpga_regions@,
            free_bdf: free_bdf@,
            containers: self@.containers.push(rec@),
        };
        assert(self@.containers.take(self@.containers.len() as int) =~= self@.containers);
        if rec.memory.start > rec.memory.end || !is_normalized(free_segments) || any_overlap(
            free_segments,
            rec.memory,
        ) {
            return Err(EngineError::LedgerCorrupt);
        }
        let merged = merge_into(free_segments, rec.memory);
        if !same_segments(&merged, &self.free_segments) {
            proof {
                if is_merge_of(self@.free_segments, free_segments@, rec.memory) {
                    crate::segment::lemma_normalized_unique(merged@, self@.free_segments);
                }
            }
            return Err(EngineError::LedgerCorrupt);
        }
        let bdf = rec.pool_ids(Pool::Bdf);
        let removed = remove_ids(&self.free_fpga_regions, &rec.fpga_regions);
        if !is_concat(&self.free_rcpus, &rec.rcpus, free_rcpus) || !crate::pool::all_distinct(
            &rec.fpga_regions,
        ) || !all_in(&self.free_fpga_regions, &rec.fpga_regions) || !same_ids(
            free_fpga_regions,
            &removed,
        ) || !is_concat(&self.free_bdf, &bdf, free_bdf) || reserved_name(rec.id.as_str())
            || self.name_taken(self.containers.len(), rec.id.as_str()) {
            return Err(EngineError::LedgerCorrupt);
        }
        let mut post = self.copy();
        post.free_segments = merge_into(free_segments, Segment { start: 0, end: 0 });
        post.free_rcpus = copy_ids(free_rcpus);
        post.free_fpga_regions = copy_ids(free_fpga_regions);
        post.free_bdf = copy_ids(free_bdf);
        proof {
            crate::segment::lemma_normalized_unique(post.free_segments@, free_segments@);
        }
        let ghost before = views(post.containers@);
        post.containers.push(rec);
        proof {
            assert(views(post.containers@) =~= before.push(rec@));
            assert(post@ == want);
            lemma_enrollment(self@, post@, rec@);
        }
        Ok(post)
    }

    /// Tears a container down in the ledger: forgets its record and returns
    /// everything the record held to the free lists, coalescing the memory.
    /// The record alone says what is returned.
    pub fn discharge(&mut self, id: &str) -> (r: Result<ContainerRecord, EngineError>)
        requires
            old(self).wf(),
        ensures
            final(self).wf(),
            match r {
                Ok(rec) => exists|i: int|
                    {
                        &&& released(old(self)@, final(self)@, i)
                        &&& old(self)@.containers[i].id == id@
                        &&& rec@ == old(self)@.containers[i]
                    },
                Err(e) => e == EngineError::UnknownContainer && !named(old(self)@.containers, id@)
                    && final(self)@ == old(self)@,
            },
    {
        let ghost pre = self@;
        let rec = match self.forget_container(id) {
            Ok(rec) => rec,
            Err(e) => {
                return Err(e);
            },
        };
        let ghost i = choose|i: int|
            {
                &&& 0 <= i < pre.containers.len()
                &&& pre.containers[i].id == id@
                &&& rec@ == pre.containers[i]
                &&& self@ == pre.forgotten(i)
                &&& self@.fits(rec@)
            };
        let bdf = rec.pool_ids(Pool::Bdf);
        let memory = self.release_memory(rec.memory);
        let rcpus = self.release_ids(Pool::Rcpu, &rec.rcpus);
        let regions = self.release_ids(Pool::FpgaRegion, &rec.fpga_regions);
        let slot = self.release_ids(Pool::Bdf, &bdf);
        assert(memory is Ok && rcpus is Ok && regions is Ok && slot is Ok);
        assert(released(pre, self@, i));
        Ok(rec)
    }
}

/// Enrolling a container keeps the ledger consistent.
pub proof fn lemma_enrollment(pre: LedgerView, post: LedgerView, rec: RecordView)
    requires
        pre.wf(),
        enrolled(pre, post, rec),
    ensures
        post.wf(),
{
    let n = rec.rcpus.len() as int;
    let m = rec.ids(Pool::Bdf).len() as int;
    assert(post.free_rcpus =~= pre.free_rcpus.skip(n));
    assert(rec.rcpus =~= pre.free_rcpus.take(n));
    assert(post.free_bdf =~= pre.free_bdf.skip(m));
    assert(rec.ids(Pool::Bdf) =~= pre.free_bdf.take(m));
    lemma_part_of_pool(Pool::Rcpu, pre.free_rcpus, n);
    lemma_part_of_pool(Pool::Bdf, pre.free_bdf, m);
    crate::pool::lemma_without(pre.free_fpga_regions, rec.fpga_regions);
    crate::pool::lemma_without_within(
        pre.free_fpga_regions,
        rec.fpga_regions,
        Pool::FpgaRegion.lowest(),
        Pool::FpgaRegion.highest(),
    );
    // The old records fit the smaller free lists.
    let l1 = LedgerView { free_segments: post.free_segments, ..pre };
    assert forall|c: int| 0 <= c < pre.containers.len() implies !overlaps_any(
        post.free_segments,
        (#[trigger] pre.containers[c]).memory,
    ) by {
        let mem = pre.containers[c].memory;
        assert(pre.fits_at(c));
        lemma_overlaps_any_shares_address(post.free_segments, mem);
        lemma_overlaps_any_shares_address(pre.free_segments, mem);
        if overlaps_any(post.free_segments, mem) {
            let x = choose|x: int| mem.holds(x) && covers(post.free_segments, x);
            assert(covers(pre.free_segments, x) <==> (covers(post.free_segments, x)
                || rec.memory.holds(x)));
            assert(mem.holds(x) && covers(pre.free_segments, x));
        }
    }
    lemma_new_segments_keep_wf(pre, post.free_segments);
    let l2 = l1.with_free(Pool::Rcpu, post.free_rcpus);
    assert forall|c: int, v: i8|
        0 <= c < l1.containers.len() && (#[trigger] l1.containers[c]).ids(Pool::Rcpu).contains(v)
            implies !#[trigger] post.free_rcpus.contains(v) by {
        assert(pre.fits_at(c));
        let held = pre.containers[c].ids(Pool::Rcpu);
        let k = choose|k: int| 0 <= k < held.len() && held[k] == v;
        assert(!pre.free_rcpus.contains(held[k]));
    }
    lemma_new_pool_keeps_wf(l1, Pool::Rcpu, post.free_rcpus);
    let l3 = l2.with_free(Pool::FpgaRegion, post.free_fpga_regions);
    assert forall|c: int, v: i8|
        0 <= c < l2.containers.len() && (#[trigger] l2.containers[c]).ids(
            Pool::FpgaRegion,
        ).contains(v) implies !#[trigger] post.free_fpga_regions.contains(v) by {
        assert(pre.fits_at(c));
        let held = pre.containers[c].ids(Pool::FpgaRegion);
        let k = choose|k: int| 0 <= k < held.len() && held[k] == v;
        assert(!pre.free_fpga_regions.contains(held[k]));
    }
    lemma_new_pool_keeps_wf(l2, Pool::FpgaRegion, post.free_fpga_regions);
    let l4 = l3.with_free(Pool::Bdf, post.free_bdf);
    assert forall|c: int, v: i8|
        0 <= c < l3.containers.len() && (#[trigger] l3.containers[c]).ids(Pool::Bdf).contains(v)
            implies !#[trigger] post.free_bdf.contains(v) by {
        assert(pre.fits_at(c));
        let held = pre.containers[c].ids(Pool::Bdf);
        let k = choose|k: int| 0 <= k < held.len() && held[k] == v;
        assert(!pre.free_bdf.contains(held[k]));
    }
    lemma_new_pool_keeps_wf(l3, Pool::Bdf, post.free_bdf);
    assert(l4.wf());
    // The new record fits them and the old records.
    assert(!memory_overlapped(pre.containers, rec.memory)) by {
        if memory_overlapped(pre.containers, rec.memory) {
            let c = choose|c: int|
                0 <= c < pre.containers.len() && (#[trigger] pre.containers[c]).memory.overlaps(
                    rec.memory,
                );
            let mem = pre.containers[c].memory;
            assert(pre.fits_at(c));
            lemma_overlap_shares_address(mem, rec.memory);
            let x = choose|x: int| mem.holds(x) && rec.memory.holds(x);
            assert(covers(pre.free_segments, x) <==> (covers(post.free_segments, x)
                || rec.memory.holds(x)));
            lemma_overlaps_any_shares_address(pre.free_segments, mem);
            assert(mem.holds(x) && covers(pre.free_segments, x));
        }
    }
    assert forall|pool: Pool, ids: Seq<i8>|
        (forall|k: int| 0 <= k < ids.len() ==> pre.free(pool).contains(#[trigger] ids[k]))
            implies !any_claimed(pre.containers, pool, ids) by {
        if any_claimed(pre.containers, pool, ids) {
            let k = choose|k: int|
                0 <= k < ids.len() && claimed(pre.containers, pool, #[trigger] ids[k]);
            let c = choose|c: int|
                0 <= c < pre.containers.len() && (#[trigger] pre.containers[c]).ids(pool).contains(
                    ids[k],
                );
            assert(pre.fits_at(c));
            let held = pre.containers[c].ids(pool);
            let at = choose|at: int| 0 <= at < held.len() && held[at] == ids[k];
            assert(!pre.free(pool).contains(held[at]));
            assert(pre.free(pool).contains(ids[k]));
        }
    }
    assert forall|k: int| 0 <= k < rec.rcpus.len() implies pre.free(Pool::Rcpu).contains(
        #[trigger] rec.rcpus[k],
    ) by {
        assert(pre.free_rcpus[k] == rec.rcpus[k]);
    }
    assert forall|k: int| 0 <= k < rec.ids(Pool::Bdf).len() implies pre.free(Pool::Bdf).contains(
        #[trigger] rec.ids(Pool::Bdf)[k],
    ) by {
        assert(pre.free_bdf[k] == rec.ids(Pool::Bdf)[k]);
    }
    assert(returnable(Pool::FpgaRegion, post.free_fpga_regions, rec.fpga_regions)) by {
        assert forall|k: int| 0 <= k < rec.fpga_regions.len() implies Pool::FpgaRegion.lowest() <= (
        #[trigger] rec.fpga_regions[k]) <= Pool::FpgaRegion.highest() by {
            let v = rec.fpga_regions[k];
            assert(pre.free_fpga_regions.contains(v));
            let at = choose|at: int|
                0 <= at < pre.free_fpga_regions.len() && pre.free_fpga_regions[at] == v;
            assert(Pool::FpgaRegion.lowest() <= pre.free_fpga_regions[at]
                <= Pool::FpgaRegion.highest());
        }
        assert forall|k: int| 0 <= k < rec.fpga_regions.len() implies !post.free_fpga_regions.contains(
            #[trigger] rec.fpga_regions[k],
        ) by {
            assert(rec.fpga_regions.contains(rec.fpga_regions[k]));
        }
    }
    assert(l4.fits(rec));
    assert(post == l4.recorded(rec));
    lemma_record_keeps_wf(l4, rec);
}

} // verus!
