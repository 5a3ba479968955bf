//! The FPGA allocator: which regions a request names, whether they are all
//! free, and the binding of a guest's accelerators to versions of hardware
//! designs. A version is granted whole or not at all, and so is the list of
//! accelerators of a guest.

use crate::catalog::{
    design_views, version_views, window_views, Catalog, DesignView, MemWindow, VersionView,
    WindowView,
};
use crate::config_generator::{BackendView, Backendconfig};
use crate::cpu::{bit_mask, lemma_mask_fits, mask_of};
use crate::descriptor::{block_views, Block, BlockView, DescriptorView};
use crate::document::strings_view;
use crate::error::EngineError;
use crate::frontend::{accel_views, same_but_bindings, AccelView, Accelerator, ImageConfig};
use crate::ledger::{all_in, remove_ids};
use crate::pool::{all_distinct, copy_ids, without};
use crate::templates::Template;
use crate::text::{
    chars_of, id_value, parse_id_chars, pieces_view, same_chars, split, split_on, string_of,
};
use vstd::arithmetic::power2::lemma2_to64;
use vstd::prelude::*;

verus! {

/// The regions that a request names: numbers with dashes between them.
pub open spec fn region_ids(requested: Seq<char>) -> Option<Seq<i8>> {
    let parts = split_on(requested, "-"@);
    if forall|i: int| 0 <= i < parts.len() ==> (#[trigger] id_value(parts[i])) is Some {
        Some(parts.map_values(|p: Seq<char>| id_value(p)->0))
    } else {
        None
    }
}

/// The request names regions, each once, and all of them are free.
pub open spec fn grantable(free: Seq<i8>, requested: Seq<char>) -> bool {
    match region_ids(requested) {
        Some(ids) => ids.no_duplicates() && forall|k: int|
            0 <= k < ids.len() ==> free.contains(#[trigger] ids[k]),
        None => false,
    }
}

/// Reads the regions that a request names.
pub fn parse_regions(requested: &str) -> (r: Option<Vec<i8>>)
    ensures
        match r {
            Some(ids) => region_ids(requested@) == Some(ids@),
            None => region_ids(requested@) is None,
        },
{
    let parts = split(&chars_of(requested), &chars_of("-"));
    let ghost pieces = split_on(requested@, "-"@);
    let mut out: Vec<i8> = Vec::new();
    let mut i: usize = 0;
    while i < parts.len()
        invariant
            i <= parts.len(),
            pieces == pieces_view(parts@),
            pieces == split_on(requested@, "-"@),
            out.len() == i,
            forall|k: int| 0 <= k < i ==> (#[trigger] id_value(pieces[k])) == Some(out@[k]),
        decreases parts.len() - i,
    {
        assert(pieces[i as int] == parts@[i as int]@);
        match parse_id_chars(&parts[i]) {
            Some(v) => {
                out.push(v);
            },
            None => {
                return None;
            },
        }
        i += 1;
    }
    assert(pieces.map_values(|p: Seq<char>| id_value(p)->0) =~= out@);
    Some(out)
}

/// Grants the requested regions if every one of them is free: then they
/// leave `free`, join `assigned`, and their number is returned. If one of
/// them is not free, or the request names no regions or one region twice,
/// nothing changes and 0 is returned.
pub fn regions_available(free: &mut Vec<i8>, requested: &str, assigned: &mut Vec<i8>) -> (n: usize)
    ensures
        grantable(old(free)@, requested@) ==> {
            &&& n == region_ids(requested@)->0.len()
            &&& n > 0
            &&& final(free)@ == without(old(free)@, region_ids(requested@)->0)
            &&& final(assigned)@ == old(assigned)@ + region_ids(requested@)->0
        },
        !grantable(old(free)@, requested@) ==> {
            &&& n == 0
            &&& final(free)@ == old(free)@
            &&& final(assigned)@ == old(assigned)@
        },
{
    let ids = match parse_regions(requested) {
        Some(ids) => ids,
        None => {
            return 0;
        },
    };
    if !all_distinct(&ids) || !all_in(free, &ids) {
        return 0;
    }
    proof {
        crate::text::lemma_split_nonempty(requested@, "-"@);
    }
    let rest = remove_ids(free, &ids);
    *free = rest;
    let ghost before = assigned@;
    let mut k: usize = 0;
    while k < ids.len()
        invariant
            k <= ids.len(),
            assigned@ == before + ids@.take(k as int),
        decreases ids.len() - k,
    {
        assigned.push(ids[k]);
        k += 1;
        assert(assigned@ =~= before + ids@.take(k as int));
    }
    assert(ids@.take(ids.len() as int) =~= ids@);
    ids.len()
}

/// What the binding of accelerators has produced so far.
pub struct Binding {
    /// The regions still free.
    pub free: Seq<i8>,
    /// The regions taken for the guest, in the order of binding.
    pub used: Seq<i8>,
    /// The artifacts to load, in the order of binding.
    pub bitstreams: Seq<Seq<char>>,
    /// The memory windows of the versions bound.
    pub windows: Seq<WindowView>,
}

impl Binding {
    /// The binding after the regions of `region` were granted for the
    /// artifact `name`.
    pub open spec fn grant(self, region: Seq<char>, name: Seq<char>, window: Option<WindowView>) -> Binding {
        Binding {
            free: without(self.free, region_ids(region)->0),
            used: self.used + region_ids(region)->0,
            bitstreams: self.bitstreams.push(name),
            windows: match window {
                Some(w) => self.windows.push(w),
                None => self.windows,
            },
        }
    }
}

/// The first version whose regions are all free, if there is one.
pub open spec fn first_grantable(free: Seq<i8>, versions: Seq<VersionView>) -> Option<int>
    decreases versions.len(),
{
    if versions.len() == 0 {
        None
    } else {
        match first_grantable(free, versions.drop_last()) {
            Some(i) => Some(i),
            None => if grantable(free, versions.last().region) {
                Some(versions.len() - 1)
            } else {
                None
            },
        }
    }
}

/// The first design of the core type `core`, if the catalog has one.
pub open spec fn find_design(catalog: Seq<DesignView>, core: Seq<char>) -> Option<int>
    decreases catalog.len(),
{
    if catalog.len() == 0 {
        None
    } else {
        match find_design(catalog.drop_last(), core) {
            Some(i) => Some(i),
            None => if catalog.last().core == core {
                Some(catalog.len() - 1)
            } else {
                None
            },
        }
    }
}

/// The name of the file at the end of a path.
pub open spec fn file_name(path: Seq<char>) -> Seq<char> {
    split_on(path, "/"@).last()
}

/// The memory window that an explicit request declares, if it declares a
/// physical start. A window without a virtual start lies at 0.
pub open spec fn declared_window(a: AccelView) -> Option<WindowView> {
    if a.starting_phys_address.len() > 0 {
        Some(
            WindowView {
                phys_start: a.starting_phys_address,
                virt_start: if a.acc_starting_vaddress.len() > 0 {
                    a.acc_starting_vaddress
                } else {
                    "0"@
                },
                size: a.mem_size,
            },
        )
    } else {
        None
    }
}

/// The binding of one accelerator. A request by name takes the first
/// version of its design whose regions are all free, and fails for want of a
/// catalog entry if the catalog gives that version a window without a size.
/// Where no version that the catalog describes has its regions free, the
/// request fails for want of a region, or for want of a catalog entry if the
/// catalog leaves a version of the design undescribed. An explicit request
/// takes the regions it names. Nothing is granted in part.
pub open spec fn bind_one(b: Binding, a: AccelView, catalog: Seq<DesignView>) -> Result<
    Binding,
    EngineError,
> {
    if a.bitstream.len() == 0 {
        match find_design(catalog, a.core) {
            Some(d) => match first_grantable(b.free, catalog[d].versions) {
                Some(v) => if catalog[d].versions[v].sized {
                    Ok(
                        b.grant(
                            catalog[d].versions[v].region,
                            catalog[d].versions[v].name,
                            catalog[d].versions[v].window,
                        ),
                    )
                } else {
                    Err(EngineError::NoCatalogEntry)
                },
                None => if catalog[d].complete {
                    Err(EngineError::RegionUnavailable)
                } else {
                    Err(EngineError::NoCatalogEntry)
                },
            },
            None => Err(EngineError::NoCatalogEntry),
        }
    } else if grantable(b.free, a.region) {
        Ok(b.grant(a.region, file_name(a.bitstream), declared_window(a)))
    } else {
        Err(EngineError::RegionUnavailable)
    }
}

/// The binding of the accelerators of a guest, in order. The first failure
/// fails the whole list.
pub open spec fn bind_all(b: Binding, list: Seq<AccelView>, catalog: Seq<DesignView>) -> Result<
    Binding,
    EngineError,
>
    decreases list.len(),
{
    if list.len() == 0 {
        Ok(b)
    } else {
        match bind_all(b, list.drop_last(), catalog) {
            Ok(mid) => bind_one(mid, list.last(), catalog),
            Err(e) => Err(e),
        }
    }
}

/// The binding that the FPGA allocator starts from: the free regions of
/// the working state, nothing taken yet, and the artifacts and memory windows
/// that were recorded before, to which the binding adds.
pub open spec fn binding_of(c: BackendView, bitstreams: Seq<Seq<char>>) -> Binding {
    Binding {
        free: c.fpga_regions,
        used: Seq::<i8>::empty(),
        bitstreams: bitstreams,
        windows: c.soft_core_mem,
    }
}

/// The working state after the FPGA allocator has run.
pub open spec fn fpga_stage(c: BackendView, b: Binding) -> BackendView {
    BackendView {
        fpga_regions: b.free,
        used_fpga_regions: b.used,
        soft_core_mem: b.windows,
        descriptor: DescriptorView { fpga_regions: bit_mask(b.used, 32) as u32, ..c.descriptor },
        ..c
    }
}

fn find_design_index(catalog: &Catalog, core: &str) -> (r: Option<usize>)
    ensures
        match r {
            Some(i) => find_design(design_views(catalog.designs@), core@) == Some(i as int) && i
                < catalog.designs.len(),
            None => find_design(design_views(catalog.designs@), core@) is None,
        },
{
    let ghost all = design_views(catalog.designs@);
    let wanted = chars_of(core);
    let mut i: usize = 0;
    assert(all.take(0) =~= Seq::<DesignView>::empty());
    while i < catalog.designs.len()
        invariant
            i <= catalog.designs.len(),
            all == design_views(catalog.designs@),
            wanted@ == core@,
            find_design(all.take(i as int), core@) is None,
        decreases catalog.designs.len() - i,
    {
        proof {
            assert(all.take(i + 1).drop_last() =~= all.take(i as int));
            assert(all.take(i + 1).last() == catalog.designs@[i as int]@);
        }
        if same_chars(&chars_of(catalog.designs[i].core.as_str()), &wanted) {
            proof {
                lemma_find_design_stable(all, core@, i as int + 1);
            }
            return Some(i);
        }
        i += 1;
    }
    assert(all.take(catalog.designs.len() as int) =~= all);
    None
}

proof fn lemma_find_design_stable(all: Seq<DesignView>, core: Seq<char>, n: int)
    requires
        0 <= n <= all.len(),
        find_design(all.take(n), core) is Some,
    ensures
        find_design(all, core) == find_design(all.take(n), core),
    decreases all.len() - n,
{
    if n < all.len() {
        assert(all.take(n + 1).drop_last() =~= all.take(n));
        lemma_find_design_stable(all, core, n + 1);
    } else {
        assert(all.take(n) =~= all);
    }
}

proof fn lemma_first_grantable_stable(free: Seq<i8>, all: Seq<VersionView>, n: int)
    requires
        0 <= n <= all.len(),
        first_grantable(free, all.take(n)) is Some,
    ensures
        first_grantable(free, all) == first_grantable(free, all.take(n)),
    decreases all.len() - n,
{
    if n < all.len() {
        assert(all.take(n + 1).drop_last() =~= all.take(n));
        lemma_first_grantable_stable(free, all, n + 1);
    } else {
        assert(all.take(n) =~= all);
    }
}

/// Whether the request names regions, each once, that are all free.
pub fn is_grantable(free: &Vec<i8>, requested: &str) -> (r: bool)
    ensures
        r == grantable(free@, requested@),
{
    match parse_regions(requested) {
        Some(ids) => all_distinct(&ids) && all_in(free, &ids),
        None => false,
    }
}

fn file_name_of(path: &str) -> (r: String)
    ensures
        r@ == file_name(path@),
{
    let parts = split(&chars_of(path), &chars_of("/"));
    assert(pieces_view(parts@).last() == parts@[parts.len() - 1]@);
    string_of(&parts[parts.len() - 1])
}

fn window_of_request(a: &Accelerator) -> (r: Option<MemWindow>)
    ensures
        crate::catalog::window_view(r) == declared_window(a@),
{
    if a.starting_phys_address.as_str().unicode_len() > 0 {
        let virt = if a.acc_starting_vaddress.as_str().unicode_len() > 0 {
            a.acc_starting_vaddress.clone()
        } else {
            string_of(&chars_of("0"))
        };
        Some(
            MemWindow {
                phys_start: a.starting_phys_address.clone(),
                virt_start: virt,
                size: a.mem_size.clone(),
            },
        )
    } else {
        None
    }
}

/// The working lists of the FPGA allocator.
struct Bound {
    free: Vec<i8>,
    used: Vec<i8>,
    bitstreams: Vec<String>,
    windows: Vec<MemWindow>,
}

impl Bound {
    spec fn binding(&self) -> Binding {
        Binding {
            free: self.free@,
            used: self.used@,
            bitstreams: strings_view(self.bitstreams@),
            windows: window_views(self.windows@),
        }
    }

    fn grant(&mut self, region: &str, name: String, window: Option<MemWindow>)
        requires
            grantable(old(self).free@, region@),
        ensures
            final(self).binding() == old(self).binding().grant(
                region@,
                name@,
                crate::catalog::window_view(window),
            ),
    {
        let ghost before = self.binding();
        let n = regions_available(&mut self.free, region, &mut self.used);
        self.bitstreams.push(name);
        match window {
            Some(w) => {
                self.windows.push(w);
            },
            None => {},
        }
        proof {
            let want = before.grant(region@, name@, crate::catalog::window_view(window));
            assert(self.binding().bitstreams =~= want.bitstreams);
            assert(self.binding().windows =~= want.windows);
        }
    }
}

fn bind(b: &mut Bound, a: &Accelerator, catalog: &Catalog) -> (r: Result<(), EngineError>)
    ensures
        match r {
            Ok(_) => bind_one(old(b).binding(), a@, design_views(catalog.designs@)) == Ok::<
                Binding,
                EngineError,
            >(final(b).binding()),
            Err(e) => bind_one(old(b).binding(), a@, design_views(catalog.designs@)) == Err::<
                Binding,
                EngineError,
            >(e) && final(b).binding() == old(b).binding(),
        },
{
    if a.bitstream.as_str().unicode_len() == 0 {
        let d = match find_design_index(catalog, a.core.as_str()) {
            Some(d) => d,
            None => {
                return Err(EngineError::NoCatalogEntry);
            },
        };
        let design = &catalog.designs[d];
        let ghost versions = version_views(design.versions@);
        assert(design_views(catalog.designs@)[d as int].versions == versions);
        let mut v: usize = 0;
        assert(versions.take(0) =~= Seq::<VersionView>::empty());
        while v < design.versions.len()
            invariant
                v <= design.versions.len(),
                versions == version_views(design.versions@),
                first_grantable(b.free@, versions.take(v as int)) is None,
                b.binding() == old(b).binding(),
                a.bitstream@.len() == 0,
                d < catalog.designs.len(),
                find_design(design_views(catalog.designs@), a.core@) == Some(d as int),
                design_views(catalog.designs@)[d as int].versions == versions,
            decreases design.versions.len() - v,
        {
            proof {
                assert(versions.take(v + 1).drop_last() =~= versions.take(v as int));
                assert(versions.take(v + 1).last() == design.versions@[v as int]@);
            }
            let version = &design.versions[v];
            if is_grantable(&b.free, version.region.as_str()) {
                proof {
                    assert(first_grantable(b.free@, versions.take(v + 1)) == Some(v as int));
                    lemma_first_grantable_stable(b.free@, versions, v as int + 1);
                    assert(versions[v as int] == version@);
                }
                if !version.sized {
                    return Err(EngineError::NoCatalogEntry);
                }
                let window = match &version.window {
                    Some(w) => Some(w.copy()),
                    None => None,
                };
                b.grant(version.region.as_str(), version.name.clone(), window);
                return Ok(());
            }
            v += 1;
        }
        assert(versions.take(design.versions.len() as int) =~= versions);
        assert(design_views(catalog.designs@)[d as int].complete == design.complete);
        if design.complete {
            Err(EngineError::RegionUnavailable)
        } else {
            Err(EngineError::NoCatalogEntry)
        }
    } else if is_grantable(&b.free, a.region.as_str()) {
        let name = file_name_of(a.bitstream.as_str());
        let window = window_of_request(a);
        b.grant(a.region.as_str(), name, window);
        Ok(())
    } else {
        Err(EngineError::RegionUnavailable)
    }
}

/// Everything that the binding took was free, and is named once: the
/// regions taken and the regions left are a partition of what was free and
/// taken before, and the regions left keep their order. What was recorded
/// before stays recorded, and the binding adds to it.
pub proof fn lemma_binding_takes_free(
    b: Binding,
    list: Seq<AccelView>,
    catalog: Seq<DesignView>,
    lo: int,
    hi: int,
)
    requires
        bind_all(b, list, catalog) is Ok,
        b.used.no_duplicates(),
        forall|k: int| 0 <= k < b.used.len() ==> !b.free.contains(#[trigger] b.used[k]),
    ensures
        ({
            let end = bind_all(b, list, catalog)->Ok_0;
            &&& crate::pool::ascending(b.free) ==> crate::pool::ascending(end.free)
            &&& crate::pool::within(b.free, lo, hi) && crate::pool::within(b.used, lo, hi)
                ==> crate::pool::within(end.free, lo, hi) && crate::pool::within(
                end.used,
                lo,
                hi,
            )
            &&& end.windows.len() >= b.windows.len()
            &&& end.windows.take(b.windows.len() as int) == b.windows
            &&& end.bitstreams.len() == b.bitstreams.len() + list.len()
            &&& end.bitstreams.take(b.bitstreams.len() as int) == b.bitstreams
            &&& end.used.no_duplicates()
            &&& forall|k: int| 0 <= k < end.used.len() ==> !end.free.contains(#[trigger] end.used[k])
            &&& forall|v: i8|
                #![trigger end.free.contains(v)]
                (end.free.contains(v) || end.used.contains(v)) <==> (b.free.contains(v)
                    || b.used.contains(v))
            &&& end.free == without(b.free, end.used.skip(b.used.len() as int))
            &&& end.used.take(b.used.len() as int) == b.used
            &&& b.used.len() <= end.used.len()
        }),
    decreases list.len(),
{
    if list.len() == 0 {
        let end = b;
        assert(end.used.skip(b.used.len() as int) =~= Seq::<i8>::empty());
        lemma_without_nothing(b.free);
        assert(end.used.take(b.used.len() as int) =~= b.used);
        assert(end.windows.take(b.windows.len() as int) =~= b.windows);
        assert(end.bitstreams.take(b.bitstreams.len() as int) =~= b.bitstreams);
    } else {
        lemma_binding_takes_free(b, list.drop_last(), catalog, lo, hi);
        let mid = bind_all(b, list.drop_last(), catalog)->Ok_0;
        let end = bind_all(b, list, catalog)->Ok_0;
        let a = list.last();
        let region = if a.bitstream.len() == 0 {
            let d = find_design(catalog, a.core)->0;
            let v = first_grantable(mid.free, catalog[d].versions)->0;
            lemma_first_grantable_found(mid.free, catalog[d].versions);
            catalog[d].versions[v].region
        } else {
            a.region
        };
        assert(grantable(mid.free, region));
        let ids = region_ids(region)->0;
        assert(end.free == without(mid.free, ids));
        assert(end.used == mid.used + ids);
        crate::pool::lemma_without(mid.free, ids);
        assert(end.windows.take(b.windows.len() as int) =~= mid.windows.take(
            b.windows.len() as int,
        ));
        assert(end.bitstreams.take(b.bitstreams.len() as int) =~= mid.bitstreams.take(
            b.bitstreams.len() as int,
        ));
        if crate::pool::within(b.free, lo, hi) && crate::pool::within(b.used, lo, hi) {
            crate::pool::lemma_without_within(mid.free, ids, lo, hi);
            assert forall|k: int| 0 <= k < end.used.len() implies lo <= (#[trigger] end.used[k])
                <= hi by {
                let n = mid.used.len() as int;
                if k < n {
                    assert(lo <= mid.used[k] <= hi);
                } else {
                    assert(mid.free.contains(ids[k - n]));
                    let at = choose|at: int| 0 <= at < mid.free.len() && mid.free[at] == ids[k - n];
                    assert(lo <= mid.free[at] <= hi);
                }
            }
        }
        assert forall|i: int, j: int|
            0 <= i < end.used.len() && 0 <= j < end.used.len() && i != j implies end.used[i]
            != end.used[j] by {
            let n = mid.used.len() as int;
            if i < n && j < n {
                assert(mid.used[i] != mid.used[j]);
            } else if i >= n && j >= n {
                assert(ids[i - n] != ids[j - n]);
            } else if i < n {
                assert(mid.free.contains(ids[j - n]));
                assert(!mid.free.contains(mid.used[i]));
            } else {
                assert(mid.free.contains(ids[i - n]));
                assert(!mid.free.contains(mid.used[j]));
            }
        }
        assert forall|k: int| 0 <= k < end.used.len() implies !end.free.contains(
            #[trigger] end.used[k],
        ) by {
            let n = mid.used.len() as int;
            if k < n {
                assert(!mid.free.contains(mid.used[k]));
            } else {
                assert(ids.contains(ids[k - n]));
            }
        }
        assert forall|v: i8|
            #![trigger end.free.contains(v)]
            (end.free.contains(v) || end.used.contains(v)) <==> (b.free.contains(v)
                || b.used.contains(v)) by {
            assert((mid.free.contains(v) || mid.used.contains(v)) <==> (b.free.contains(v)
                || b.used.contains(v)));
            let n = mid.used.len() as int;
            if end.used.contains(v) {
                let k = choose|k: int| 0 <= k < end.used.len() && end.used[k] == v;
                if k < n {
                    assert(mid.used[k] == v);
                } else {
                    assert(ids[k - n] == v);
                    assert(mid.free.contains(ids[k - n]));
                }
            }
            if mid.used.contains(v) {
                let k = choose|k: int| 0 <= k < mid.used.len() && mid.used[k] == v;
                assert(end.used[k] == v);
            }
            if ids.contains(v) {
                let k = choose|k: int| 0 <= k < ids.len() && ids[k] == v;
                assert(end.used[n + k] == v);
            }
        }
        let m = b.used.len() as int;
        let taken_mid = mid.used.skip(m);
        let taken_end = end.used.skip(m);
        assert(taken_end =~= taken_mid + ids);
        lemma_without_twice(b.free, taken_mid, ids);
        assert(end.used.take(m) =~= mid.used.take(m));
    }
}

proof fn lemma_first_grantable_found(free: Seq<i8>, versions: Seq<VersionView>)
    requires
        first_grantable(free, versions) is Some,
    ensures
        0 <= first_grantable(free, versions)->0 < versions.len(),
        grantable(free, versions[first_grantable(free, versions)->0].region),
    decreases versions.len(),
{
    if versions.len() > 0 {
        if first_grantable(free, versions.drop_last()) is Some {
            lemma_first_grantable_found(free, versions.drop_last());
        }
    }
}

proof fn lemma_without_nothing(s: Seq<i8>)
    ensures
        without(s, Seq::<i8>::empty()) == s,
    decreases s.len(),
{
    if s.len() > 0 {
        lemma_without_nothing(s.drop_last());
        assert(s.drop_last().push(s.last()) =~= s);
    }
}

proof fn lemma_without_twice(s: Seq<i8>, a: Seq<i8>, b: Seq<i8>)
    ensures
        without(without(s, a), b) == without(s, a + b),
    decreases s.len(),
{
    if s.len() > 0 {
        let head = s.drop_last();
        let last = s.last();
        lemma_without_twice(head, a, b);
        let ab = a + b;
        if a.contains(last) {
            let k = choose|k: int| 0 <= k < a.len() && a[k] == last;
            assert(ab[k] == last);
        }
        if b.contains(last) {
            let k = choose|k: int| 0 <= k < b.len() && b[k] == last;
            assert(ab[a.len() + k] == last);
        }
        if ab.contains(last) {
            let k = choose|k: int| 0 <= k < ab.len() && ab[k] == last;
            if k < a.len() {
                assert(a[k] == last);
            } else {
                assert(b[k - a.len()] == last);
            }
        }
        if !a.contains(last) {
            let mid = without(head, a).push(last);
            assert(mid.drop_last() =~= without(head, a));
        }
    }
}

/// Configures the FPGA regions of the cell. Each accelerator of the guest,
/// in order, is bound to the first version of its design whose regions are
/// all free, or to the regions it names itself. The regions bound leave the
/// free list, which keeps its order, and a memory window that comes with a
/// binding is recorded behind the windows recorded before. If one accelerator
/// cannot be bound, nothing is bound: the working state and the image
/// description stay as they were.
pub fn fpgaconf(c: &mut Backendconfig, config: &mut ImageConfig, catalog: &Catalog) -> (r: Result<
    (),
    EngineError,
>)
    ensures
        same_but_bindings(*old(config), *final(config)),
        match r {
            Ok(_) => {
                let b = bind_all(
                    binding_of(old(c)@, strings_view(old(config).bitstreams@)),
                    accel_views(old(config).accelerators@),
                    design_views(catalog.designs@),
                );
                &&& b is Ok
                &&& final(c)@ == fpga_stage(old(c)@, b->Ok_0)
                &&& strings_view(final(config).bitstreams@) == b->Ok_0.bitstreams
                &&& final(config).regions@ == old(config).regions@ + b->Ok_0.used
                &&& final(c)@.used_fpga_regions.no_duplicates()
                &&& forall|k: int|
                    0 <= k < final(c)@.used_fpga_regions.len() ==> old(c)@.fpga_regions.contains(
                        #[trigger] final(c)@.used_fpga_regions[k],
                    ) && !final(c)@.fpga_regions.contains(final(c)@.used_fpga_regions[k])
                &&& final(c)@.fpga_regions == without(
                    old(c)@.fpga_regions,
                    final(c)@.used_fpga_regions,
                )
                &&& final(c)@.soft_core_mem.len() >= old(c)@.soft_core_mem.len()
                &&& final(c)@.soft_core_mem.take(old(c)@.soft_core_mem.len() as int) == old(
                    c,
                )@.soft_core_mem
                &&& strings_view(final(config).bitstreams@).take(
                    old(config).bitstreams@.len() as int,
                ) == strings_view(old(config).bitstreams@)
            },
            Err(e) => {
                &&& bind_all(
                    binding_of(old(c)@, strings_view(old(config).bitstreams@)),
                    accel_views(old(config).accelerators@),
                    design_views(catalog.designs@),
                ) == Err::<Binding, EngineError>(e)
                &&& final(c)@ == old(c)@
                &&& strings_view(final(config).bitstreams@) == strings_view(
                    old(config).bitstreams@,
                )
                &&& final(config).regions@ == old(config).regions@
            },
        },
{
    let mut names: Vec<String> = Vec::new();
    let mut i: usize = 0;
    while i < config.bitstreams.len()
        invariant
            i <= config.bitstreams.len(),
            config == old(config),
            strings_view(names@) == strings_view(config.bitstreams@).take(i as int),
        decreases config.bitstreams.len() - i,
    {
        let ghost before = strings_view(names@);
        names.push(config.bitstreams[i].clone());
        i += 1;
        assert(strings_view(names@) =~= before.push(config.bitstreams@[i - 1]@));
        assert(strings_view(config.bitstreams@).take(i as int) =~= strings_view(
            config.bitstreams@,
        ).take(i - 1).push(config.bitstreams@[i - 1]@));
    }
    assert(strings_view(config.bitstreams@).take(config.bitstreams.len() as int) =~= strings_view(
        config.bitstreams@,
    ));
    let mut recorded: Vec<MemWindow> = Vec::new();
    let mut w: usize = 0;
    while w < c.soft_core_mem.len()
        invariant
            w <= c.soft_core_mem.len(),
            c == old(c),
            window_views(recorded@) == window_views(c.soft_core_mem@).take(w as int),
        decreases c.soft_core_mem.len() - w,
    {
        let ghost before = window_views(recorded@);
        recorded.push(c.soft_core_mem[w].copy());
        w += 1;
        assert(window_views(recorded@) =~= before.push(c.soft_core_mem@[w - 1]@));
        assert(window_views(c.soft_core_mem@).take(w as int) =~= window_views(
            c.soft_core_mem@,
        ).take(w - 1).push(c.soft_core_mem@[w - 1]@));
    }
    assert(window_views(c.soft_core_mem@).take(c.soft_core_mem.len() as int) =~= window_views(
        c.soft_core_mem@,
    ));
    let mut b = Bound {
        free: copy_ids(&c.fpga_regions),
        used: Vec::new(),
        bitstreams: names,
        windows: recorded,
    };
    let ghost start = binding_of(c@, strings_view(config.bitstreams@));
    let ghost list = accel_views(config.accelerators@);
    let ghost designs = design_views(catalog.designs@);
    assert(b.binding().used =~= start.used);
    assert(b.binding().windows =~= start.windows);
    assert(b.binding() == start);
    let mut k: usize = 0;
    assert(list.take(0) =~= Seq::<AccelView>::empty());
    while k < config.accelerators.len()
        invariant
            k <= config.accelerators.len(),
            config == old(config),
            c == old(c),
            list == accel_views(config.accelerators@),
            designs == design_views(catalog.designs@),
            start == binding_of(c@, strings_view(config.bitstreams@)),
            bind_all(start, list.take(k as int), designs) == Ok::<Binding, EngineError>(
                b.binding(),
            ),
        decreases config.accelerators.len() - k,
    {
        proof {
            assert(list.take(k + 1).drop_last() =~= list.take(k as int));
            assert(list.take(k + 1).last() == config.accelerators@[k as int]@);
        }
        match bind(&mut b, &config.accelerators[k], catalog) {
            Ok(_) => {},
            Err(e) => {
                proof {
                    lemma_bind_all_fails(start, list, designs, k as int + 1);
                }
                return Err(e);
            },
        }
        k += 1;
    }
    assert(list.take(config.accelerators.len() as int) =~= list);
    proof {
        lemma_mask_fits(b.used@, 32);
        lemma2_to64();
        lemma_binding_takes_free(start, list, designs, 0, 31);
        let end = b.binding();
        assert(end.used.skip(0) =~= end.used);
        assert forall|k: int| 0 <= k < end.used.len() implies start.free.contains(
            #[trigger] end.used[k],
        ) by {
            assert(end.used.contains(end.used[k]));
            assert(end.free.contains(end.used[k]) || end.used.contains(end.used[k]));
        }
    }
    let mask = mask_of(&b.used, 32);
    let mut regions = copy_ids(&config.regions);
    let ghost before = regions@;
    let mut j: usize = 0;
    while j < b.used.len()
        invariant
            j <= b.used.len(),
            regions@ == before + b.used@.take(j as int),
        decreases b.used.len() - j,
    {
        regions.push(b.used[j]);
        j += 1;
        assert(regions@ =~= before + b.used@.take(j as int));
    }
    assert(b.used@.take(b.used.len() as int) =~= b.used@);
    config.bitstreams = b.bitstreams;
    config.regions = regions;
    c.fpga_regions = b.free;
    c.used_fpga_regions = b.used;
    c.soft_core_mem = b.windows;
    c.descriptor.fpga_regions = mask as u32;
    Ok(())
}

proof fn lemma_bind_all_fails(b: Binding, list: Seq<AccelView>, catalog: Seq<DesignView>, n: int)
    requires
        0 <= n <= list.len(),
        bind_all(b, list.take(n), catalog) is Err,
    ensures
        bind_all(b, list, catalog) == bind_all(b, list.take(n), catalog),
    decreases list.len() - n,
{
    if n < list.len() {
        assert(list.take(n + 1).drop_last() =~= list.take(n));
        lemma_bind_all_fails(b, list, catalog, n + 1);
    } else {
        assert(list.take(n) =~= list);
    }
}

/// The table of stream IDs of a cell: one entry where the cell holds an
/// FPGA region, none where it holds none.
pub open spec fn stream_blocks(c: BackendView) -> Seq<BlockView> {
    if c.used_fpga_regions.len() > 0 {
        seq![BlockView { template: Template::StreamId, text: Template::StreamId.body() }]
    } else {
        seq![BlockView { template: Template::StreamIdEmpty, text: Template::StreamIdEmpty.body() }]
    }
}

/// The working state after the table of stream IDs was configured.
pub open spec fn stream_stage(c: BackendView) -> BackendView {
    BackendView {
        descriptor: DescriptorView {
            stream_ids: stream_blocks(c),
            num_stream_ids: if c.used_fpga_regions.len() > 0 {
                1
            } else {
                0
            },
            ..c.descriptor
        },
        ..c
    }
}

/// Configures the table of stream IDs: the master stream ID of the FPGA
/// where the cell holds a region of it, and an empty table otherwise. The
/// declared length is the number of entries emitted.
pub fn stream_id_config(c: &mut Backendconfig)
    ensures
        final(c)@ == stream_stage(old(c)@),
        final(c)@.descriptor.num_stream_ids == crate::descriptor::entries_sum(
            final(c)@.descriptor.stream_ids,
        ),
{
    let kind = if c.used_fpga_regions.len() > 0 {
        Template::StreamId
    } else {
        Template::StreamIdEmpty
    };
    let mut blocks: Vec<Block> = Vec::new();
    blocks.push(Block { template: kind, text: string_of(&chars_of(kind.text())) });
    proof {
        let views = block_views(blocks@);
        assert(views =~= stream_blocks(c@));
        assert(views.drop_last() =~= Seq::<BlockView>::empty());
        assert(crate::descriptor::entries_sum(views.drop_last()) == 0);
    }
    c.descriptor.num_stream_ids = kind.entry_count() as usize;
    c.descriptor.stream_ids = blocks;
}

} // verus!
