//! The memory allocator of a create request: first-fit reservation of the
//! guest's RAM and the table of memory regions of the descriptor.

use crate::builder::{
    all_memory, has_kind, placed_blocks, render_placed, uses_are, uses_kind, Context, Place,
    RAM0_SIZE,
};
use crate::catalog::{window_views, MemWindow, WindowView};
use crate::config_generator::{BackendView, Backendconfig};
use crate::descriptor::{
    block_views, count_entries, entries_sum, fill, filled, params_view, Block, BlockView,
    DescriptorView,
};
use crate::error::EngineError;
use crate::platform::{use_views, Platform, PlatformView};
use crate::pool::{least, lemma_least_is_first, pool_wf, Pool};
use crate::segment::{
    after_taking, copy_segments, first_fit, is_merge_of, lemma_first_fit, lemma_first_fit_is,
    normalized, overlaps_any,
    take_first_fit, taken_from, Segment,
};
use crate::templates::Template;
use crate::text::{chars_of, hex_value, parse_hex, string_of};
use vstd::prelude::*;

verus! {

/// The distance between the shared memories of two network channels.
pub const CHANNEL_STRIDE: u64 = 0x100000;

/// The slot of the next network channel: the lowest of the free ones, if
/// one is free.
pub open spec fn lowest_slot(bdf: Seq<i8>) -> Option<i8> {
    if bdf.len() > 0 {
        Some(least(bdf))
    } else {
        None
    }
}

/// The address of the shared memory of the channel in `slot`: the first
/// channel lies at the platform's base address, and each further one a
/// stride behind the one before.
pub open spec fn channel_address(base: Option<u64>, slot: i8) -> Option<u64> {
    match base {
        Some(b) => if slot >= 1 && b + (slot - 1) * CHANNEL_STRIDE <= u64::MAX {
            Some((b + (slot - 1) * CHANNEL_STRIDE) as u64)
        } else {
            None
        },
        None => None,
    }
}

/// The memory region of an accelerator's window.
pub open spec fn window_block(w: WindowView) -> BlockView {
    BlockView {
        template: Template::AccelMem,
        text: filled(
            Template::AccelMem.body(),
            seq![
                ("phys_start"@, w.phys_start),
                ("virt_start"@, w.virt_start),
                ("size"@, w.size),
            ],
        ),
    }
}

/// The memory regions of the accelerators' windows.
pub open spec fn window_blocks(windows: Seq<WindowView>) -> Seq<BlockView> {
    windows.map_values(|w: WindowView| window_block(w))
}

/// The table of memory regions: the fixed system regions first, then the
/// RAM of the guest, then the windows of its accelerators, then, for a guest
/// with a network, the regions of the shared-memory channels.
pub open spec fn memory_blocks(uses: Seq<crate::platform::UseView>, windows: Seq<WindowView>, ctx: Context) -> Seq<
    BlockView,
> {
    placed_blocks(uses, Place::Fixed, ctx) + placed_blocks(uses, Place::Ram, ctx) + window_blocks(
        windows,
    ) + if ctx.networked {
        placed_blocks(uses, Place::Shared, ctx)
    } else {
        Seq::<BlockView>::empty()
    }
}

/// The memory that a guest needs: its RAM, and 64 KiB more where the
/// platform keeps the first part of the RAM apart.
pub open spec fn required_size(request: u64, p: PlatformView) -> int {
    request + if has_kind(p.regions, Template::Ram0) {
        RAM0_SIZE as int
    } else {
        0
    }
}

/// What the blocks of the table of memory regions depend on.
pub open spec fn mem_context(c: BackendView, p: PlatformView, request: u64, start: u64) -> Context {
    Context {
        start: start,
        request: request,
        has_ram0: has_kind(p.regions, Template::Ram0),
        address: if c.networked() && has_kind(p.regions, Template::Ivshmem) {
            channel_address(p.ivshmem_base, lowest_slot(c.bdf)->0)
        } else {
            None
        },
        networked: c.networked(),
        slot: 0,
        demo_start: 0,
        net_start: 0,
    }
}

/// The working state after the memory allocator has run for a guest that
/// asks for `request` bytes of RAM.
pub open spec fn mem_stage_for(c: BackendView, request: u64, p: PlatformView) -> Result<
    BackendView,
    EngineError,
> {
    if !all_memory(p.regions) {
        Err(EngineError::DescriptorTemplateMissing)
    } else if c.networked() && lowest_slot(c.bdf) is None {
        Err(EngineError::BdfExhausted)
    } else if c.networked() && has_kind(p.regions, Template::Ivshmem) && channel_address(
        p.ivshmem_base,
        lowest_slot(c.bdf)->0,
    ) is None {
        Err(EngineError::DescriptorTemplateMissing)
    } else if required_size(request, p) > u64::MAX {
        Err(EngineError::OutOfMemory)
    } else {
        match first_fit(c.segments, required_size(request, p)) {
            None => Err(EngineError::OutOfMemory),
            Some(i) => {
                let blocks = memory_blocks(
                    p.regions,
                    c.soft_core_mem,
                    mem_context(c, p, request, c.segments[i].start),
                );
                if entries_sum(blocks) > usize::MAX {
                    Err(EngineError::ArrayCountMismatch)
                } else {
                    Ok(
                        BackendView {
                            segments: after_taking(c.segments, i, required_size(request, p)),
                            used_segments: seq![
                                taken_from(c.segments[i], required_size(request, p)),
                            ],
                            descriptor: DescriptorView {
                                mem_regions: blocks,
                                num_memory_regions: entries_sum(blocks),
                                ..c.descriptor
                            },
                            ..c
                        },
                    )
                }
            },
        }
    }
}

/// The working state after the memory allocator has run for a request
/// written as a hexadecimal number. A request that is no number cannot be
/// satisfied.
pub open spec fn mem_stage(c: BackendView, request_text: Seq<char>, p: PlatformView) -> Result<
    BackendView,
    EngineError,
> {
    match hex_value(request_text) {
        None => Err(EngineError::OutOfMemory),
        Some(request) => mem_stage_for(c, request, p),
    }
}

/// Renders the table of memory regions of a guest: the fixed regions of the
/// platform, the RAM, the windows of the accelerators and, for a guest with a
/// network, the regions of the shared-memory channels.
pub fn generate_config(platform: &Platform, windows: &Vec<MemWindow>, ctx: &Context) -> (blocks: Vec<
    Block,
>)
    requires
        ctx.has_ram0 ==> ctx.start + RAM0_SIZE <= u64::MAX,
    ensures
        block_views(blocks@) == memory_blocks(
            use_views(platform.regions@),
            window_views(windows@),
            *ctx,
        ),
{
    let mut blocks: Vec<Block> = Vec::new();
    assert(block_views(blocks@) =~= Seq::<BlockView>::empty());
    render_placed(&mut blocks, &platform.regions, Place::Fixed, ctx);
    render_placed(&mut blocks, &platform.regions, Place::Ram, ctx);
    render_windows(&mut blocks, windows);
    if ctx.networked {
        render_placed(&mut blocks, &platform.regions, Place::Shared, ctx);
    }
    assert(block_views(blocks@) =~= memory_blocks(
        use_views(platform.regions@),
        window_views(windows@),
        *ctx,
    ));
    blocks
}

/// The number of entries of a rendered table of memory regions: a block
/// of a shared-memory channel counts for each region it stands for.
pub fn count_mem_regions(blocks: &Vec<Block>) -> (n: u128)
    ensures
        n == entries_sum(block_views(blocks@)),
{
    count_entries(blocks)
}

fn render_window(w: &MemWindow) -> (b: Block)
    ensures
        b@ == window_block(w@),
{
    let mut params: Vec<(String, String)> = Vec::new();
    params.push((string_of(&chars_of("phys_start")), w.phys_start.clone()));
    params.push((string_of(&chars_of("virt_start")), w.virt_start.clone()));
    params.push((string_of(&chars_of("size")), w.size.clone()));
    assert(params_view(params@) =~= seq![
        ("phys_start"@, w@.phys_start),
        ("virt_start"@, w@.virt_start),
        ("size"@, w@.size),
    ]);
    let text = fill(&chars_of(Template::AccelMem.text()), &params);
    Block { template: Template::AccelMem, text: string_of(&text) }
}

fn render_windows(out: &mut Vec<Block>, windows: &Vec<MemWindow>)
    ensures
        block_views(final(out)@) == block_views(old(out)@) + window_blocks(window_views(windows@)),
{
    let ghost head = block_views(out@);
    let ghost all = window_blocks(window_views(windows@));
    let mut i: usize = 0;
    assert(block_views(out@) =~= head + all.take(0));
    while i < windows.len()
        invariant
            i <= windows.len(),
            all == window_blocks(window_views(windows@)),
            block_views(out@) == head + all.take(i as int),
        decreases windows.len() - i,
    {
        let ghost before = block_views(out@);
        let b = render_window(&windows[i]);
        out.push(b);
        assert(block_views(out@) =~= before.push(window_block(windows@[i as int]@)));
        assert(all[i as int] == window_block(windows@[i as int]@));
        i += 1;
        assert(block_views(out@) =~= head + all.take(i as int));
    }
    assert(all.take(windows.len() as int) =~= all);
}

/// Configures the memory of the cell. The guest's RAM is taken, first fit,
/// from the low end of the first free segment that has room for it, and the
/// table of memory regions is rendered from the platform's list: fixed
/// regions, RAM, accelerator windows and, for a guest with a network, the
/// regions of its shared-memory channel. The declared length of the table is
/// the number of entries rendered.
pub fn memconfig(c: &mut Backendconfig, mem_request_hex: &str, platform: &Platform) -> (r: Result<
    (),
    EngineError,
>)
    requires
        normalized(old(c)@.segments),
        pool_wf(Pool::Bdf, old(c)@.bdf),
    ensures
        match r {
            Ok(_) => mem_stage(old(c)@, mem_request_hex@, platform@) == Ok::<
                BackendView,
                EngineError,
            >(final(c)@),
            Err(e) => mem_stage(old(c)@, mem_request_hex@, platform@) == Err::<
                BackendView,
                EngineError,
            >(e) && final(c)@ == old(c)@,
        },
        r is Ok ==> final(c)@.descriptor.num_memory_regions == entries_sum(
            final(c)@.descriptor.mem_regions,
        ) && normalized(final(c)@.segments),
        r is Ok ==> {
            &&& final(c)@.used_segments.len() == 1
            &&& final(c)@.used_segments[0].start <= final(c)@.used_segments[0].end
            &&& !overlaps_any(final(c)@.segments, final(c)@.used_segments[0])
            &&& is_merge_of(old(c)@.segments, final(c)@.segments, final(c)@.used_segments[0])
            &&& final(c)@.bdf == old(c)@.bdf
        },
{
    let request = match parse_hex(mem_request_hex) {
        Some(v) => v,
        None => {
            return Err(EngineError::OutOfMemory);
        },
    };
    if !uses_are(&platform.regions, true) {
        return Err(EngineError::DescriptorTemplateMissing);
    }
    let networked = c.has_network();
    if networked && c.bdf.len() == 0 {
        return Err(EngineError::BdfExhausted);
    }
    proof {
        if c.bdf.len() > 0 {
            lemma_least_is_first(c@.bdf);
            assert(Pool::Bdf.lowest() <= c@.bdf[0]);
        }
    }
    let address: Option<u64> = if networked && uses_kind(&platform.regions, Template::Ivshmem) {
        let slot = c.bdf[0];
        let offset: u64 = (slot as u64 - 1) * CHANNEL_STRIDE;
        match platform.ivshmem_base {
            Some(b) => {
                if b > u64::MAX - offset {
                    return Err(EngineError::DescriptorTemplateMissing);
                }
                Some(b + offset)
            },
            None => {
                return Err(EngineError::DescriptorTemplateMissing);
            },
        }
    } else {
        None
    };
    let has_ram0 = uses_kind(&platform.regions, Template::Ram0);
    let extra: u64 = if has_ram0 {
        RAM0_SIZE
    } else {
        0
    };
    if request > u64::MAX - extra {
        return Err(EngineError::OutOfMemory);
    }
    let required: u64 = request + extra;
    let mut segments = copy_segments(&c.segments);
    let seg = match take_first_fit(&mut segments, required) {
        Some(seg) => seg,
        None => {
            proof {
                lemma_first_fit(c@.segments, required as int);
                if first_fit(c@.segments, required as int) is Some {
                    let i = first_fit(c@.segments, required as int)->0;
                    assert(c@.segments[i].size() >= required);
                }
            }
            return Err(EngineError::OutOfMemory);
        },
    };
    let ghost i = choose|i: int|
        {
            &&& crate::segment::is_first_fit(c@.segments, required as int, i)
            &&& seg == taken_from(c@.segments[i], required as int)
            &&& segments@ == after_taking(c@.segments, i, required as int)
        };
    proof {
        lemma_first_fit_is(c@.segments, required as int, i);
    }
    let ctx = Context {
        start: seg.start,
        request: request,
        has_ram0: has_ram0,
        address: address,
        networked: networked,
        slot: 0,
        demo_start: 0,
        net_start: 0,
    };
    assert(ctx == mem_context(c@, platform@, request, c@.segments[i].start));
    assert(seg.size() == required);
    let blocks = generate_config(platform, &c.soft_core_mem, &ctx);
    assert(block_views(blocks@) =~= memory_blocks(use_views(platform.regions@), c@.soft_core_mem, ctx));
    let n = count_mem_regions(&blocks);
    if n > usize::MAX as u128 {
        return Err(EngineError::ArrayCountMismatch);
    }
    let mut used: Vec<Segment> = Vec::new();
    used.push(seg);
    assert(used@ =~= seq![seg]);
    c.segments = segments;
    c.used_segments = used;
    c.descriptor.mem_regions = blocks;
    c.descriptor.num_memory_regions = n as usize;
    Ok(())
}

} // verus!
