//! The working state of one create request, and the resolver that drives
//! the allocators and the descriptor builder over it.

use crate::catalog::{
    catalog_in, design_views, load_catalog, window_views, Catalog, DesignView, MemWindow,
    WindowView,
};
use crate::cpu::{core_count, cores_requested, cpu_stage, cpuconf};
use crate::descriptor::{descriptor_text, Descriptor, DescriptorView};
use crate::device::{dev_stage, devconfig};
use crate::document::{strings_view, toml_document, toml_rendering};
use crate::error::EngineError;
use crate::fpga::{
    bind_all, binding_of, fpga_stage, fpgaconf, lemma_binding_takes_free, stream_id_config,
    stream_stage, Binding,
};
use crate::frontend::{accel_views, same_but_bindings, AccelView, FrontendConfig, ImageConfig};
use crate::ledger::{
    enrolled, is_reserved_name, named, ContainerRecord, Ledger, LedgerView, RecordView,
};
use crate::mem::{lowest_slot, mem_stage_for, memconfig, required_size};
use crate::platform::{load_config, platform_in, Platform, PlatformView};
use crate::pool::{copy_ids, pool_wf, Pool};
use crate::rpu::{rpu_stage, rpuconf};
use crate::segment::{
    copy_segments, covers, first_fit, is_merge_of, lemma_first_fit,
    lemma_overlaps_any_shares_address, lemma_taking_keeps_normalized, overlaps_any, taken_from,
    Segment,
};
use crate::state::{
    container_id, container_name, ledger_tree, lemma_reads_as_one, reads_as, retrieve_state,
    save_state,
};
use crate::templates::Template;
use crate::text::{chars_of, extend_str, hex_text, same_chars, string_of};
use vstd::prelude::*;

verus! {

/// Everything that the configuration of a partitioned container produces:
/// the descriptor, and what was taken from the free resources for it. The
/// free lists are working copies of the ledger's; the ledger itself changes
/// only when the request is committed.
#[derive(Debug)]
pub struct Backendconfig {
    /// The text of the descriptor, once it is rendered.
    pub conf: String,
    /// The number of CPU cores of the cell.
    pub cpus: u8,
    /// The file that the descriptor is written to.
    pub conffile: String,
    /// The network of the guest, or `none`.
    pub net: String,
    /// Whether the guest runs on auxiliary processor cores.
    pub rpu_req: bool,
    /// The free memory segments.
    pub segments: Vec<Segment>,
    /// The memory taken for the guest.
    pub used_segments: Vec<Segment>,
    /// The free shared-memory channel slots.
    pub bdf: Vec<i8>,
    /// The free auxiliary processor cores.
    pub rcpus: Vec<i8>,
    /// The auxiliary processor cores taken for the guest.
    pub used_rcpus: Vec<i8>,
    /// The free FPGA regions.
    pub fpga_regions: Vec<i8>,
    /// The FPGA regions taken for the guest.
    pub used_fpga_regions: Vec<i8>,
    /// The memory windows of the accelerators bound.
    pub soft_core_mem: Vec<MemWindow>,
    /// The shared-memory channel slot taken for the guest.
    pub used_bdf: Option<i8>,
    /// The descriptor under construction.
    pub descriptor: Descriptor,
}

/// The mathematical content of a `Backendconfig`.
pub struct BackendView {
    pub conf: Seq<char>,
    pub cpus: u8,
    pub conffile: Seq<char>,
    pub net: Seq<char>,
    pub rpu_req: bool,
    pub segments: Seq<Segment>,
    pub used_segments: Seq<Segment>,
    pub bdf: Seq<i8>,
    pub rcpus: Seq<i8>,
    pub used_rcpus: Seq<i8>,
    pub fpga_regions: Seq<i8>,
    pub used_fpga_regions: Seq<i8>,
    pub soft_core_mem: Seq<WindowView>,
    pub used_bdf: Option<i8>,
    pub descriptor: DescriptorView,
}

impl View for Backendconfig {
    type V = BackendView;

    open spec fn view(&self) -> BackendView {
        BackendView {
            conf: self.conf@,
            cpus: self.cpus,
            conffile: self.conffile@,
            net: self.net@,
            rpu_req: self.rpu_req,
            segments: self.segments@,
            used_segments: self.used_segments@,
            bdf: self.bdf@,
            rcpus: self.rcpus@,
            used_rcpus: self.used_rcpus@,
            fpga_regions: self.fpga_regions@,
            used_fpga_regions: self.used_fpga_regions@,
            soft_core_mem: window_views(self.soft_core_mem@),
            used_bdf: self.used_bdf,
            descriptor: self.descriptor@,
        }
    }
}

impl BackendView {
    /// The guest has a network.
    pub open spec fn networked(self) -> bool {
        self.net != "none"@
    }
}

impl Backendconfig {
    /// A working state with nothing free and nothing taken, and an empty
    /// descriptor.
    pub fn new() -> (c: Backendconfig)
        ensures
            c@.conf.len() == 0,
            c@.cpus == 0,
            c@.conffile.len() == 0,
            c@.net.len() == 0,
            !c@.rpu_req,
            c@.segments.len() == 0,
            c@.used_segments.len() == 0,
            c@.bdf.len() == 0,
            c@.rcpus.len() == 0,
            c@.used_rcpus.len() == 0,
            c@.fpga_regions.len() == 0,
            c@.used_fpga_regions.len() == 0,
            c@.soft_core_mem.len() == 0,
            c@.used_bdf is None,
            c@.descriptor.preamble == Template::QemuPreamble,
            c@.descriptor.name.len() == 0,
            c@.descriptor.cpus == 0,
            c@.descriptor.rcpus is None,
            c@.descriptor.fpga_regions == 0,
            c@.descriptor.mem_regions.len() == 0,
            c@.descriptor.irqchips.len() == 0,
            c@.descriptor.pci_devices.len() == 0,
            c@.descriptor.stream_ids.len() == 0,
            c@.descriptor.counts_match(),
    {
        Backendconfig {
            conf: String::new(),
            cpus: 0,
            conffile: String::new(),
            net: String::new(),
            rpu_req: false,
            segments: Vec::new(),
            used_segments: Vec::new(),
            bdf: Vec::new(),
            rcpus: Vec::new(),
            used_rcpus: Vec::new(),
            fpga_regions: Vec::new(),
            used_fpga_regions: Vec::new(),
            soft_core_mem: Vec::new(),
            used_bdf: None,
            descriptor: Descriptor::new(Template::QemuPreamble, String::new()),
        }
    }

    /// Whether the guest has a network.
    pub fn has_network(&self) -> (r: bool)
        ensures
            r == self@.networked(),
    {
        !crate::text::same_chars(
            &crate::text::chars_of(self.net.as_str()),
            &crate::text::chars_of("none"),
        )
    }
}



/// The memory of a guest whose request declares no limit: 64 MiB.
pub const DEFAULT_MEMORY: u64 = 67_108_864;

/// The preamble for a guest of the kind `os`: Linux guests have their own,
/// and guests of the runtime `zephyr` the one that the platform names.
pub open spec fn preamble_for(os: Seq<char>, named: Option<Seq<char>>) -> Option<Template> {
    if os == "zephyr"@ {
        match named {
            Some(s) => if s == "QEMU_PREAMBLE"@ {
                Some(Template::QemuPreamble)
            } else if s == "ULTRASCALE_PREAMBLE"@ {
                Some(Template::UltrascalePreamble)
            } else {
                None
            },
            None => None,
        }
    } else if os == "linux"@ {
        Some(Template::LinuxPreamble)
    } else {
        None
    }
}

/// The working state after the preamble was chosen.
pub open spec fn start_stage(c: BackendView, id: Seq<char>, os: Seq<char>, p: PlatformView) -> Result<
    BackendView,
    EngineError,
> {
    match preamble_for(os, p.preamble) {
        Some(t) => Ok(
            BackendView {
                descriptor: DescriptorView {
                    preamble: t,
                    name: container_name(id),
                    ..c.descriptor
                },
                ..c
            },
        ),
        None => Err(EngineError::DescriptorTemplateMissing),
    }
}

/// Starts the descriptor: chooses the preamble for the kind of guest and
/// names the cell after the container.
pub fn confighelperstart(
    fc: &FrontendConfig,
    c: &mut Backendconfig,
    ic: &ImageConfig,
    platform: &Platform,
) -> (r: Result<(), EngineError>)
    ensures
        match r {
            Ok(_) => start_stage(old(c)@, fc.containerid@, ic.os_var@, platform@) == Ok::<
                BackendView,
                EngineError,
            >(final(c)@),
            Err(e) => start_stage(old(c)@, fc.containerid@, ic.os_var@, platform@) == Err::<
                BackendView,
                EngineError,
            >(e) && final(c)@ == old(c)@,
        },
{
    let os = chars_of(ic.os_var.as_str());
    let kind = if same_chars(&os, &chars_of("zephyr")) {
        match &platform.preamble {
            Some(s) => {
                let named = chars_of(s.as_str());
                if same_chars(&named, &chars_of("QEMU_PREAMBLE")) {
                    Template::QemuPreamble
                } else if same_chars(&named, &chars_of("ULTRASCALE_PREAMBLE")) {
                    Template::UltrascalePreamble
                } else {
                    return Err(EngineError::DescriptorTemplateMissing);
                }
            },
            None => {
                return Err(EngineError::DescriptorTemplateMissing);
            },
        }
    } else if same_chars(&os, &chars_of("linux")) {
        Template::LinuxPreamble
    } else {
        return Err(EngineError::DescriptorTemplateMissing);
    };
    c.descriptor.preamble = kind;
    c.descriptor.name = container_id(fc.containerid.as_str());
    Ok(())
}

/// Finishes the descriptor: the one step that serialises it. Nothing is
/// written unless every block stands in its table and every declared length
/// is the number of entries emitted.
pub fn confighelperend(c: &mut Backendconfig) -> (r: Result<(), EngineError>)
    ensures
        match r {
            Ok(_) => {
                &&& old(c)@.descriptor.well_placed()
                &&& old(c)@.descriptor.counts_match()
                &&& final(c)@ == (BackendView {
                    conf: descriptor_text(old(c)@.descriptor),
                    ..old(c)@
                })
            },
            Err(e) => {
                &&& final(c)@ == old(c)@
                &&& (e == EngineError::DescriptorTemplateMissing && !old(
                    c,
                )@.descriptor.well_placed() || e == EngineError::ArrayCountMismatch && old(
                    c,
                )@.descriptor.well_placed() && !old(c)@.descriptor.counts_match())
            },
        },
{
    match c.descriptor.render() {
        Ok(text) => {
            c.conf = text;
            Ok(())
        },
        Err(e) => Err(e),
    }
}

/// The descriptor that a request starts from.
pub open spec fn empty_descriptor() -> DescriptorView {
    DescriptorView {
        preamble: Template::QemuPreamble,
        name: Seq::<char>::empty(),
        cpus: 0,
        rcpus: None,
        fpga_regions: 0,
        mem_regions: Seq::empty(),
        irqchips: Seq::empty(),
        pci_devices: Seq::empty(),
        stream_ids: Seq::empty(),
        num_memory_regions: 0,
        num_irqchips: 0,
        num_pci_devices: 0,
        num_stream_ids: 0,
    }
}

/// The file that the descriptor of a container is written to.
pub open spec fn conffile_of(crundir: Seq<char>, id: Seq<char>) -> Seq<char> {
    crundir + "/config"@ + container_name(id) + ".conf"@
}

/// The working state that a request starts from: the free lists of the
/// ledger, nothing taken, and an empty descriptor.
pub open spec fn initial(fc: FrontendConfig, image: ImageConfig, l: LedgerView) -> BackendView {
    BackendView {
        conf: Seq::<char>::empty(),
        cpus: 0,
        conffile: conffile_of(fc.crundir@, fc.containerid@),
        net: image.net@,
        rpu_req: image.rpu_req,
        segments: l.free_segments,
        used_segments: Seq::empty(),
        bdf: l.free_bdf,
        rcpus: l.free_rcpus,
        used_rcpus: Seq::empty(),
        fpga_regions: l.free_fpga_regions,
        used_fpga_regions: Seq::empty(),
        soft_core_mem: Seq::empty(),
        used_bdf: None,
        descriptor: empty_descriptor(),
    }
}

/// The working state after the cores were allocated. A guest runs either on
/// CPU cores or on auxiliary cores: one that asks for auxiliary cores gets
/// no CPU core.
pub open spec fn cores_stage(c: BackendView, n: u8, assigned: Seq<char>) -> Result<
    BackendView,
    EngineError,
> {
    if c.rpu_req {
        match cpu_stage(c, 0, assigned) {
            Ok(c1) => rpu_stage(c1, n),
            Err(e) => Err(e),
        }
    } else {
        cpu_stage(c, n, assigned)
    }
}

/// Some accelerator is requested by name, so that the catalog is needed.
pub open spec fn needs_catalog(list: Seq<AccelView>) -> bool {
    exists|i: int| 0 <= i < list.len() && (#[trigger] list[i]).bitstream.len() == 0
}

/// The designs to bind the accelerators against: those of the catalog
/// where one is requested by name, and none where all name their bitstream.
pub open spec fn designs_for(list: Seq<AccelView>, catalog: Seq<char>) -> Result<
    Seq<DesignView>,
    EngineError,
> {
    if needs_catalog(list) {
        match catalog_in(catalog) {
            Some(d) => Ok(d),
            None => Err(EngineError::NoCatalogEntry),
        }
    } else {
        Ok(Seq::empty())
    }
}

/// The working state after the accelerators were bound, and the binding.
pub open spec fn accel_stage(c: BackendView, image: ImageConfig, catalog: Seq<char>) -> Result<
    (BackendView, Binding),
    EngineError,
> {
    match designs_for(accel_views(image.accelerators@), catalog) {
        Ok(d) => match bind_all(
            binding_of(c, strings_view(image.bitstreams@)),
            accel_views(image.accelerators@),
            d,
        ) {
            Ok(b) => Ok((fpga_stage(c, b), b)),
            Err(e) => Err(e),
        },
        Err(e) => Err(e),
    }
}

/// The memory that a request asks for.
pub open spec fn memory_request(fc: FrontendConfig) -> u64 {
    match fc.memory_limit() {
        Some(m) => m,
        None => DEFAULT_MEMORY,
    }
}

/// The allocations of a create request, in their order: preamble, cores,
/// accelerators, memory, devices, stream IDs. The first failure fails the
/// request.
pub open spec fn plan(
    fc: FrontendConfig,
    image: ImageConfig,
    l: LedgerView,
    p: PlatformView,
    catalog: Seq<char>,
    assigned: Seq<char>,
) -> Result<(BackendView, Binding), EngineError> {
    match start_stage(initial(fc, image, l), fc.containerid@, image.os_var@, p) {
        Err(e) => Err(e),
        Ok(c1) => match cores_stage(c1, cores_requested(fc.quota(), fc.period()), assigned) {
            Err(e) => Err(e),
            Ok(c2) => match accel_stage(c2, image, catalog) {
                Err(e) => Err(e),
                Ok((c3, b)) => match mem_stage_for(c3, memory_request(fc), p) {
                    Err(e) => Err(e),
                    Ok(c4) => match dev_stage(c4, p) {
                        Err(e) => Err(e),
                        Ok(c5) => Ok((stream_stage(c5), b)),
                    },
                },
            },
        },
    }
}

/// The record of the container that the working state was made for.
pub open spec fn record_for(c: BackendView) -> RecordView {
    RecordView {
        id: c.descriptor.name,
        memory: c.used_segments[0],
        rcpus: c.used_rcpus,
        fpga_regions: c.used_fpga_regions,
        bdf: c.used_bdf,
    }
}

/// The ledger after the request was committed: the free lists are the
/// working state's, and the container has its record.
pub open spec fn ledger_after(l: LedgerView, c: BackendView) -> LedgerView {
    LedgerView {
        free_segments: c.segments,
        free_rcpus: c.rcpus,
        free_fpga_regions: c.fpga_regions,
        free_bdf: c.bdf,
        containers: l.containers.push(record_for(c)),
    }
}

/// What to write to the console file of the container: the console socket
/// and a line feed, where the request names one.
pub open spec fn console_of(fc: FrontendConfig) -> Option<Seq<char>> {
    if fc.guestconsole@.len() > 0 {
        Some(fc.guestconsole@ + "\n"@)
    } else {
        None
    }
}

/// Everything that a create request produces.
#[derive(Debug)]
pub struct Generated {
    /// The description of the image, with the accelerators bound.
    pub image: ImageConfig,
    /// The working state, with the descriptor rendered in `conf`.
    pub working: Backendconfig,
    /// The ledger with the request committed.
    pub ledger: Ledger,
    /// The document of that ledger, to persist.
    pub state: String,
    /// What to write to the console file, if anything.
    pub console: Option<String>,
}

/// The mathematical content of a `Generated`.
pub struct GeneratedView {
    pub working: BackendView,
    pub bitstreams: Seq<Seq<char>>,
    pub regions: Seq<i8>,
    pub ledger: LedgerView,
    pub state: Seq<char>,
    pub console: Option<Seq<char>>,
}

impl View for Generated {
    type V = GeneratedView;

    open spec fn view(&self) -> GeneratedView {
        GeneratedView {
            working: self.working@,
            bitstreams: strings_view(self.image.bitstreams@),
            regions: self.image.regions@,
            ledger: self.ledger@,
            state: self.state@,
            console: match self.console {
                Some(s) => Some(s@),
                None => None,
            },
        }
    }
}

/// What a create request produces, from the request, the description of the
/// image and the texts of the three documents and of the hypervisor's core
/// report. The request is planned on a working copy, the descriptor is
/// rendered, and only then the ledger is committed; a failure at any point
/// is the failure of the request, and leaves nothing behind. A request for a
/// container whose name is taken is refused as one that would corrupt the
/// ledger.
pub open spec fn generation(
    fc: FrontendConfig,
    image: ImageConfig,
    state: Seq<char>,
    platform: Seq<char>,
    catalog: Seq<char>,
    assigned: Seq<char>,
) -> Result<GeneratedView, EngineError> {
    match toml_document(state) {
        None => Err(EngineError::LedgerCorrupt),
        Some(t) => if !(exists|l: LedgerView| reads_as(t, l)) {
            Err(EngineError::LedgerCorrupt)
        } else {
            let l = choose|l: LedgerView| reads_as(t, l);
            match platform_in(platform) {
                None => Err(EngineError::DescriptorTemplateMissing),
                Some(p) => match plan(fc, image, l, p, catalog, assigned) {
                    Err(e) => Err(e),
                    Ok((c, b)) => if !c.descriptor.well_placed() {
                        Err(EngineError::DescriptorTemplateMissing)
                    } else if !name_is_free(l, c) {
                        Err(EngineError::LedgerCorrupt)
                    } else {
                        match toml_rendering(ledger_tree(ledger_after(l, c))) {
                            None => Err(EngineError::LedgerIOError),
                            Some(text) => Ok(
                                GeneratedView {
                                    working: BackendView {
                                        conf: descriptor_text(c.descriptor),
                                        ..c
                                    },
                                    bitstreams: b.bitstreams,
                                    regions: image.regions@ + b.used,
                                    ledger: ledger_after(l, c),
                                    state: text,
                                    console: console_of(fc),
                                },
                            ),
                        }
                    },
                },
            }
        },
    }
}

fn copy_strings(v: &Vec<String>) -> (r: Vec<String>)
    ensures
        strings_view(r@) == strings_view(v@),
{
    let mut r: Vec<String> = Vec::new();
    let mut i: usize = 0;
    while i < v.len()
        invariant
            i <= v.len(),
            strings_view(r@) == strings_view(v@).take(i as int),
        decreases v.len() - i,
    {
        let ghost before = strings_view(r@);
        r.push(v[i].clone());
        i += 1;
        assert(strings_view(r@) =~= before.push(v@[i - 1]@));
        assert(strings_view(v@).take(i as int) =~= strings_view(v@).take(i - 1).push(v@[i - 1]@));
    }
    assert(strings_view(v@).take(v.len() as int) =~= strings_view(v@));
    r
}

fn any_by_name(list: &Vec<crate::frontend::Accelerator>) -> (r: bool)
    ensures
        r == needs_catalog(accel_views(list@)),
{
    let mut i: usize = 0;
    while i < list.len()
        invariant
            i <= list.len(),
            forall|k: int| 0 <= k < i ==> (#[trigger] accel_views(list@)[k]).bitstream.len() != 0,
        decreases list.len() - i,
    {
        if list[i].bitstream.as_str().unicode_len() == 0 {
            assert(accel_views(list@)[i as int].bitstream.len() == 0);
            return true;
        }
        i += 1;
    }
    false
}

fn start_working(fc: &FrontendConfig, image: &ImageConfig, l: &Ledger) -> (c: Backendconfig)
    ensures
        c@ == initial(*fc, *image, l@),
{
    let mut c = Backendconfig::new();
    let mut path = chars_of(fc.crundir.as_str());
    extend_str(&mut path, "/config");
    extend_str(&mut path, container_id(fc.containerid.as_str()).as_str());
    extend_str(&mut path, ".conf");
    c.conffile = string_of(&path);
    c.net = image.net.clone();
    c.rpu_req = image.rpu_req;
    c.segments = copy_segments(&l.free_segments);
    c.bdf = copy_ids(&l.free_bdf);
    c.rcpus = copy_ids(&l.free_rcpus);
    c.fpga_regions = copy_ids(&l.free_fpga_regions);
    proof {
        let v = c@;
        let w = initial(*fc, *image, l@);
        assert(v.conf =~= w.conf);
        assert(v.used_segments =~= w.used_segments);
        assert(v.used_rcpus =~= w.used_rcpus);
        assert(v.used_fpga_regions =~= w.used_fpga_regions);
        assert(v.soft_core_mem =~= w.soft_core_mem);
        assert(v.descriptor.name =~= w.descriptor.name);
        assert(v.descriptor.mem_regions =~= w.descriptor.mem_regions);
        assert(v.descriptor.irqchips =~= w.descriptor.irqchips);
        assert(v.descriptor.pci_devices =~= w.descriptor.pci_devices);
        assert(v.descriptor.stream_ids =~= w.descriptor.stream_ids);
        assert(v.descriptor == w.descriptor);
    }
    c
}

/// Runs the allocators of a create request over a working copy of the
/// ledger's free lists.
pub fn plan_request(
    fc: &FrontendConfig,
    image: &mut ImageConfig,
    l: &Ledger,
    platform: &Platform,
    catalog: &str,
    cpus_assigned: &str,
) -> (r: Result<Backendconfig, EngineError>)
    requires
        l.wf(),
    ensures
        same_but_bindings(*old(image), *final(image)),
        match r {
            Ok(c) => {
                let planned = plan(*fc, *old(image), l@, platform@, catalog@, cpus_assigned@);
                &&& planned is Ok
                &&& c@ == planned->Ok_0.0
                &&& strings_view(final(image).bitstreams@) == planned->Ok_0.1.bitstreams
                &&& final(image).regions@ == old(image).regions@ + planned->Ok_0.1.used
                &&& c@.descriptor.counts_match()
                &&& c@.used_segments.len() == 1
            },
            Err(e) => {
                &&& plan(*fc, *old(image), l@, platform@, catalog@, cpus_assigned@) == Err::<
                    (BackendView, Binding),
                    EngineError,
                >(e)
                &&& strings_view(final(image).bitstreams@) == strings_view(old(image).bitstreams@)
                &&& final(image).regions@ == old(image).regions@
            },
        },
{
    let mut c = start_working(fc, image, l);
    match confighelperstart(fc, &mut c, image, platform) {
        Ok(_) => {},
        Err(e) => {
            return Err(e);
        },
    }
    let n = core_count(fc.cpu_quota(), fc.cpu_period());
    if c.rpu_req {
        match cpuconf(&mut c, 0, cpus_assigned) {
            Ok(_) => {},
            Err(e) => {
                return Err(e);
            },
        }
        match rpuconf(&mut c, n) {
            Ok(_) => {},
            Err(e) => {
                return Err(e);
            },
        }
    } else {
        match cpuconf(&mut c, n, cpus_assigned) {
            Ok(_) => {},
            Err(e) => {
                return Err(e);
            },
        }
    }
    let designs = if any_by_name(&image.accelerators) {
        match load_catalog(catalog) {
            Ok(d) => d,
            Err(e) => {
                return Err(e);
            },
        }
    } else {
        let empty = Catalog { designs: Vec::new() };
        assert(design_views(empty.designs@) =~= Seq::<DesignView>::empty());
        empty
    };
    let saved_bitstreams = copy_strings(&image.bitstreams);
    let saved_regions = copy_ids(&image.regions);
    match fpgaconf(&mut c, image, &designs) {
        Ok(_) => {},
        Err(e) => {
            return Err(e);
        },
    }
    let request = match fc.mem_limit() {
        Some(m) => m,
        None => DEFAULT_MEMORY,
    };
    let request_hex = hex_text(request);
    proof {
        crate::text::lemma_hex_round_trip(request);
    }
    match memconfig(&mut c, request_hex.as_str(), platform) {
        Ok(_) => {},
        Err(e) => {
            image.bitstreams = saved_bitstreams;
            image.regions = saved_regions;
            return Err(e);
        },
    }
    match devconfig(&mut c, platform) {
        Ok(_) => {},
        Err(e) => {
            image.bitstreams = saved_bitstreams;
            image.regions = saved_regions;
            return Err(e);
        },
    }
    stream_id_config(&mut c);
    Ok(c)
}

/// Generates the configuration of a partitioned container: reserves what
/// the guest asks for, renders the descriptor of its cell, and commits the
/// reservation to the ledger. Nothing is committed unless everything was
/// reserved and the descriptor was rendered.
pub fn config_generate(
    fc: &FrontendConfig,
    image: ImageConfig,
    state: &str,
    platform: &str,
    catalog: &str,
    cpus_assigned: &str,
) -> (r: Result<Generated, EngineError>)
    ensures
        match r {
            Ok(g) => {
                &&& generation(*fc, image, state@, platform@, catalog@, cpus_assigned@) == Ok::<
                    GeneratedView,
                    EngineError,
                >(g@)
                &&& same_but_bindings(image, g.image)
                &&& g.ledger.wf()
                &&& g.working@.descriptor.counts_match()
                &&& g.working@.descriptor.well_placed()
                &&& toml_document(state@) is Some
                &&& exists|l: LedgerView|
                    #![trigger reads_as(toml_document(state@)->0, l)]
                    reads_as(toml_document(state@)->0, l) && enrolled(
                        l,
                        g.ledger@,
                        record_for(g.working@),
                    )
            },
            Err(e) => generation(*fc, image, state@, platform@, catalog@, cpus_assigned@) == Err::<
                GeneratedView,
                EngineError,
            >(e),
        },
{
    let l = match retrieve_state(state) {
        Ok(l) => l,
        Err(e) => {
            return Err(e);
        },
    };
    let ghost t = toml_document(state@)->0;
    proof {
        let chosen = choose|x: LedgerView| reads_as(t, x);
        lemma_reads_as_one(t, chosen, l@);
    }
    let plat = match load_config(platform) {
        Ok(p) => p,
        Err(e) => {
            return Err(e);
        },
    };
    let mut image = image;
    let ghost given = image;
    let mut c = match plan_request(fc, &mut image, &l, &plat, catalog, cpus_assigned) {
        Ok(c) => c,
        Err(e) => {
            return Err(e);
        },
    };
    let ghost planned = c@;
    proof {
        lemma_plan_commits(*fc, given, l@, plat@, catalog@, cpus_assigned@);
    }
    match confighelperend(&mut c) {
        Ok(_) => {},
        Err(e) => {
            return Err(e);
        },
    }
    let rec = ContainerRecord {
        id: c.descriptor.name.clone(),
        memory: c.used_segments[0],
        rcpus: copy_ids(&c.used_rcpus),
        fpga_regions: copy_ids(&c.used_fpga_regions),
        bdf: c.used_bdf,
    };
    assert(rec@ == record_for(planned));
    let post = match l.enroll(&c.segments, &c.rcpus, &c.fpga_regions, &c.bdf, rec) {
        Ok(post) => post,
        Err(e) => {
            return Err(e);
        },
    };
    assert(post@ == ledger_after(l@, planned));
    let text = match save_state(&post) {
        Ok(text) => text,
        Err(e) => {
            return Err(e);
        },
    };
    let console = if fc.guestconsole.as_str().unicode_len() > 0 {
        let mut out = chars_of(fc.guestconsole.as_str());
        extend_str(&mut out, "\n");
        Some(string_of(&out))
    } else {
        None
    };
    Ok(Generated { image: image, working: c, ledger: post, state: text, console: console })
}



/// The name under which the planned container is recorded is free: no
/// container has it, and it is none of the ledger's own names.
pub open spec fn name_is_free(l: LedgerView, c: BackendView) -> bool {
    !is_reserved_name(c.descriptor.name) && !named(l.containers, c.descriptor.name)
}

/// A plan that succeeds can be committed. What the allocators took from the
/// working copy of a consistent ledger is exactly what the container's record
/// holds, so that the ledger accepts the commit whenever the name of the
/// container is free.
pub proof fn lemma_plan_commits(
    fc: FrontendConfig,
    image: ImageConfig,
    l: LedgerView,
    p: PlatformView,
    catalog: Seq<char>,
    assigned: Seq<char>,
)
    requires
        l.wf(),
        plan(fc, image, l, p, catalog, assigned) is Ok,
    ensures
        ({
            let c = plan(fc, image, l, p, catalog, assigned)->Ok_0.0;
            &&& c.descriptor.name == container_name(fc.containerid@)
            &&& enrolled(l, ledger_after(l, c), record_for(c)) <==> name_is_free(l, c)
        }),
{
    let c0 = initial(fc, image, l);
    let r1 = start_stage(c0, fc.containerid@, image.os_var@, p);
    assert(r1 is Ok);
    let c1 = r1->Ok_0;
    let n = cores_requested(fc.quota(), fc.period());
    let r2 = cores_stage(c1, n, assigned);
    assert(r2 is Ok);
    let c2 = r2->Ok_0;
    let r3 = accel_stage(c2, image, catalog);
    assert(r3 is Ok);
    let pair = r3->Ok_0;
    let c3 = pair.0;
    let b = pair.1;
    let request = memory_request(fc);
    let r4 = mem_stage_for(c3, request, p);
    assert(r4 is Ok);
    let c4 = r4->Ok_0;
    let r5 = dev_stage(c4, p);
    assert(r5 is Ok);
    let c5 = r5->Ok_0;
    let c = stream_stage(c5);
    assert(plan(fc, image, l, p, catalog, assigned)->Ok_0.0 == c);
    let rec = record_for(c);
    let post = ledger_after(l, c);

    // The cores.
    assert(c2.segments == l.free_segments);
    assert(c2.fpga_regions == l.free_fpga_regions);
    assert(c2.bdf == l.free_bdf);
    assert(l.free_rcpus =~= c2.used_rcpus + c2.rcpus);
    assert(c.rcpus == c2.rcpus && c.used_rcpus == c2.used_rcpus);

    // The FPGA regions.
    let designs = designs_for(accel_views(image.accelerators@), catalog)->Ok_0;
    let b0 = binding_of(c2, strings_view(image.bitstreams@));
    assert(b == bind_all(b0, accel_views(image.accelerators@), designs)->Ok_0);
    assert(pool_wf(Pool::FpgaRegion, l.free_fpga_regions));
    lemma_binding_takes_free(
        b0,
        accel_views(image.accelerators@),
        designs,
        Pool::FpgaRegion.lowest(),
        Pool::FpgaRegion.highest(),
    );
    assert(b.used.skip(0) =~= b.used);
    assert(c.fpga_regions == b.free && c.used_fpga_regions == b.used);
    assert forall|k: int| 0 <= k < b.used.len() implies l.free_fpga_regions.contains(
        #[trigger] b.used[k],
    ) by {
        assert(b.used.contains(b.used[k]));
        assert(b.free.contains(b.used[k]) || b.used.contains(b.used[k]));
    }

    // The memory.
    let need = required_size(request, p);
    let free = l.free_segments;
    assert(c3.segments == free);
    lemma_first_fit(free, need);
    let i = first_fit(free, need)->0;
    let taken = taken_from(free[i], need);
    assert(c.segments == crate::segment::after_taking(free, i, need));
    assert(c.used_segments =~= seq![taken]);
    assert(rec.memory == taken);
    lemma_taking_keeps_normalized(free, i, need);
    lemma_overlaps_any_shares_address(c.segments, taken);
    assert(free[i].start < free[i].end);
    assert forall|x: int|
        #![trigger covers(free, x)]
        covers(free, x) <==> (covers(c.segments, x) || taken.holds(x)) by {
        if taken.holds(x) {
            assert(free[i].holds(x));
        }
    }
    assert(is_merge_of(free, c.segments, taken));
    assert(!overlaps_any(c.segments, taken));

    // The slot.
    assert(l.free_bdf =~= rec.ids(Pool::Bdf) + c.bdf) by {
        assert(c4.bdf == l.free_bdf);
        if c4.networked() {
            assert(lowest_slot(l.free_bdf) is Some);
            crate::pool::lemma_least_is_first(l.free_bdf);
            crate::pool::lemma_without_first(l.free_bdf);
            assert(rec.ids(Pool::Bdf) =~= seq![l.free_bdf[0]]);
            assert(c.bdf == l.free_bdf.skip(1));
        }
    }
}

} // verus!
