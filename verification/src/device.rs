//! The device allocator of a create request: the slot of the guest's
//! shared-memory channel, and the tables of interrupt controllers and PCI
//! devices of the descriptor.

use crate::builder::{
    all_devices, first_entry, first_entry_of, placed_blocks, render_placed, uses_are, Context,
    Place,
};
use crate::config_generator::{BackendView, Backendconfig};
use crate::descriptor::{block_views, count_entries, entries_sum, Block, BlockView, DescriptorView};
use crate::error::EngineError;
use crate::mem::lowest_slot;
use crate::ledger::lemma_part_of_pool;
use crate::platform::{use_views, Platform, PlatformView};
use crate::pool::{lemma_least, lemma_least_is_first, lemma_without_first, pool_wf, without, Pool};
use crate::templates::Template;
use crate::text::{chars_of, string_of};
use vstd::prelude::*;

verus! {

/// What the blocks of the device tables depend on.
pub open spec fn dev_context(c: BackendView) -> Context {
    Context {
        start: 0,
        request: 0,
        has_ram0: false,
        address: None,
        networked: c.networked(),
        slot: if c.networked() {
            lowest_slot(c.bdf)->0
        } else {
            0
        },
        demo_start: if c.networked() {
            first_entry_of(c.descriptor.mem_regions, Template::IvshmemDemo) as u128
        } else {
            0
        },
        net_start: if c.networked() {
            first_entry_of(c.descriptor.mem_regions, Template::Ivshmem) as u128
        } else {
            0
        },
    }
}

/// The table of PCI devices: the platform's devices for a guest with a
/// network, and an empty table for a guest without.
pub open spec fn pci_blocks(c: BackendView, p: PlatformView) -> Seq<BlockView> {
    if c.networked() {
        placed_blocks(p.devices, Place::Pci, dev_context(c))
    } else {
        seq![
            BlockView {
                template: Template::PciDeviceEmpty,
                text: Template::PciDeviceEmpty.body(),
            },
        ]
    }
}

/// The free slots that are left when the lowest one is taken.
pub open spec fn slots_left(bdf: Seq<i8>) -> Seq<i8> {
    match lowest_slot(bdf) {
        Some(slot) => without(bdf, seq![slot]),
        None => bdf,
    }
}

/// The working state after the device allocator has run.
pub open spec fn dev_stage(c: BackendView, p: PlatformView) -> Result<BackendView, EngineError> {
    if !all_devices(p.devices) {
        Err(EngineError::DescriptorTemplateMissing)
    } else if c.networked() && lowest_slot(c.bdf) is None {
        Err(EngineError::BdfExhausted)
    } else if entries_sum(placed_blocks(p.devices, Place::Irq, dev_context(c))) > usize::MAX
        || entries_sum(pci_blocks(c, p)) > usize::MAX {
        Err(EngineError::ArrayCountMismatch)
    } else {
        Ok(
            BackendView {
                bdf: if c.networked() {
                    slots_left(c.bdf)
                } else {
                    c.bdf
                },
                used_bdf: if c.networked() {
                    lowest_slot(c.bdf)
                } else {
                    None
                },
                descriptor: DescriptorView {
                    irqchips: placed_blocks(p.devices, Place::Irq, dev_context(c)),
                    pci_devices: pci_blocks(c, p),
                    num_irqchips: entries_sum(
                        placed_blocks(p.devices, Place::Irq, dev_context(c)),
                    ),
                    num_pci_devices: entries_sum(pci_blocks(c, p)),
                    ..c.descriptor
                },
                ..c
            },
        )
    }
}

/// Configures the devices of the cell. A guest with a network gets the
/// lowest free slot for its shared-memory channel, and the PCI devices that
/// the platform lists; a guest without a network gets no PCI device, and
/// interrupt controllers without a pin for a channel. The declared lengths
/// of both tables are the numbers of entries rendered.
pub fn devconfig(c: &mut Backendconfig, platform: &Platform) -> (r: Result<(), EngineError>)
    requires
        pool_wf(Pool::Bdf, old(c)@.bdf),
    ensures
        match r {
            Ok(_) => dev_stage(old(c)@, platform@) == Ok::<BackendView, EngineError>(final(c)@),
            Err(e) => dev_stage(old(c)@, platform@) == Err::<BackendView, EngineError>(e)
                && final(c)@ == old(c)@,
        },
        r is Ok ==> final(c)@.descriptor.num_irqchips == entries_sum(final(c)@.descriptor.irqchips)
            && final(c)@.descriptor.num_pci_devices == entries_sum(
            final(c)@.descriptor.pci_devices,
        ),
        pool_wf(Pool::Bdf, final(c)@.bdf),
        r is Ok && old(c)@.networked() ==> {
            &&& final(c)@.used_bdf is Some
            &&& old(c)@.bdf == seq![final(c)@.used_bdf->0] + final(c)@.bdf
            &&& forall|k: int|
                0 <= k < old(c)@.bdf.len() ==> final(c)@.used_bdf->0 <= #[trigger] old(c)@.bdf[k]
        },
        r is Ok && !old(c)@.networked() ==> final(c)@.used_bdf is None && final(c)@.bdf == old(
            c,
        )@.bdf,
{
    if !uses_are(&platform.devices, false) {
        return Err(EngineError::DescriptorTemplateMissing);
    }
    let networked = c.has_network();
    if networked && c.bdf.len() == 0 {
        return Err(EngineError::BdfExhausted);
    }
    let ghost slots = c@.bdf;
    proof {
        if slots.len() > 0 {
            lemma_least(slots);
            lemma_least_is_first(slots);
            lemma_without_first(slots);
            lemma_part_of_pool(Pool::Bdf, slots, 1);
            assert(slots =~= seq![slots[0]] + slots.skip(1));
        }
    }
    let ctx = if networked {
        Context {
            start: 0,
            request: 0,
            has_ram0: false,
            address: None,
            networked: true,
            slot: c.bdf[0],
            demo_start: first_entry(&c.descriptor.mem_regions, Template::IvshmemDemo),
            net_start: first_entry(&c.descriptor.mem_regions, Template::Ivshmem),
        }
    } else {
        Context {
            start: 0,
            request: 0,
            has_ram0: false,
            address: None,
            networked: false,
            slot: 0,
            demo_start: 0,
            net_start: 0,
        }
    };
    assert(ctx == dev_context(c@));
    let mut irqs: Vec<Block> = Vec::new();
    assert(block_views(irqs@) =~= Seq::<BlockView>::empty());
    render_placed(&mut irqs, &platform.devices, Place::Irq, &ctx);
    assert(block_views(irqs@) =~= placed_blocks(use_views(platform.devices@), Place::Irq, ctx));
    let mut pcis: Vec<Block> = Vec::new();
    assert(block_views(pcis@) =~= Seq::<BlockView>::empty());
    if networked {
        render_placed(&mut pcis, &platform.devices, Place::Pci, &ctx);
        assert(block_views(pcis@) =~= placed_blocks(use_views(platform.devices@), Place::Pci, ctx));
    } else {
        pcis.push(
            Block {
                template: Template::PciDeviceEmpty,
                text: string_of(&chars_of(Template::PciDeviceEmpty.text())),
            },
        );
        assert(block_views(pcis@) =~= pci_blocks(c@, platform@));
    }
    let n_irq = count_entries(&irqs);
    let n_pci = count_entries(&pcis);
    if n_irq > usize::MAX as u128 || n_pci > usize::MAX as u128 {
        return Err(EngineError::ArrayCountMismatch);
    }
    if networked {
        let mut rest: Vec<i8> = Vec::new();
        let mut i: usize = 1;
        while i < c.bdf.len()
            invariant
                1 <= i <= c.bdf.len(),
                rest@ == c.bdf@.subrange(1, i as int),
            decreases c.bdf.len() - i,
        {
            rest.push(c.bdf[i]);
            i += 1;
            assert(c.bdf@.subrange(1, i as int) =~= c.bdf@.subrange(1, i - 1).push(c.bdf@[i - 1]));
        }
        assert(rest@ =~= c.bdf@.skip(1));
        c.used_bdf = Some(c.bdf[0]);
        c.bdf = rest;
    } else {
        c.used_bdf = None;
    }
    c.descriptor.irqchips = irqs;
    c.descriptor.pci_devices = pcis;
    c.descriptor.num_irqchips = n_irq as usize;
    c.descriptor.num_pci_devices = n_pci as usize;
    Ok(())
}

} // verus!
