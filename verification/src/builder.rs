//! From the uses of templates that a platform lists to the blocks of a
//! descriptor: which table and which part of it a template belongs to, the
//! values that the engine computes for its placeholders, and the rendering
//! of the uses of one part, in the platform's order.

use crate::descriptor::{block_views, fill, filled, params_view, Block, BlockView};
use crate::platform::{use_views, TemplateUse, UseView};
use crate::templates::Template;
use crate::text::{
    chars_of, dec_chars, dec_digit_chars_wide, dec_digits, dec_text, hex_chars, hex_literal,
    string_of,
};
use vstd::prelude::*;

verus! {

/// The parts of a descriptor that a platform fills by listing templates.
#[derive(Clone, Copy, Debug, PartialEq, Eq, Structural)]
pub enum Place {
    /// The fixed system regions: UART, communication region and the like.
    Fixed,
    /// The RAM of the guest.
    Ram,
    /// The regions of the shared-memory channels.
    Shared,
    /// The interrupt controllers.
    Irq,
    /// The PCI devices.
    Pci,
}

/// The part of a descriptor that uses of the template go to, if a platform
/// may list the template.
pub open spec fn place_of(t: Template) -> Option<Place> {
    match t {
        Template::Ram | Template::Ram0 => Some(Place::Ram),
        Template::Ivshmem | Template::IvshmemDemo => Some(Place::Shared),
        Template::Tcma | Template::Tcmb | Template::Uart | Template::CommRegion | Template::Shm => Some(
            Place::Fixed,
        ),
        Template::IrqChip | Template::IrqChipBoard | Template::IrqChipPlain => Some(Place::Irq),
        Template::PciDevice | Template::PciDeviceWithDemo | Template::PciDeviceEmpty => Some(
            Place::Pci,
        ),
        _ => None,
    }
}

/// The part of a descriptor that uses of the template go to.
pub fn place(t: Template) -> (r: Option<Place>)
    ensures
        r == place_of(t),
{
    match t {
        Template::Ram | Template::Ram0 => Some(Place::Ram),
        Template::Ivshmem | Template::IvshmemDemo => Some(Place::Shared),
        Template::Tcma | Template::Tcmb | Template::Uart | Template::CommRegion | Template::Shm => Some(
            Place::Fixed,
        ),
        Template::IrqChip | Template::IrqChipBoard | Template::IrqChipPlain => Some(Place::Irq),
        Template::PciDevice | Template::PciDeviceWithDemo | Template::PciDeviceEmpty => Some(
            Place::Pci,
        ),
        _ => None,
    }
}

/// Whether the place is a part of the table of memory regions.
pub open spec fn is_memory(p: Place) -> bool {
    p == Place::Fixed || p == Place::Ram || p == Place::Shared
}

/// What the engine has decided for a guest, as far as blocks depend on it.
#[derive(Clone, Copy, Debug)]
pub struct Context {
    /// The start of the memory taken for the guest.
    pub start: u64,
    /// The size of the guest's RAM.
    pub request: u64,
    /// Whether the first 64 KiB of the RAM are a region of their own.
    pub has_ram0: bool,
    /// The address of the shared memory of the guest's network channel.
    pub address: Option<u64>,
    /// Whether the guest has a network.
    pub networked: bool,
    /// The slot of the guest's network channel.
    pub slot: i8,
    /// The index of the first memory region of the demo channel.
    pub demo_start: u128,
    /// The index of the first memory region of the network channel.
    pub net_start: u128,
}

/// The size of the region that holds the first part of the RAM where a
/// platform keeps it apart.
pub const RAM0_SIZE: u64 = 0x10000;

/// Where the main RAM region starts: behind the first 64 KiB where those
/// are a region of their own.
pub open spec fn ram_start(ctx: Context) -> int {
    if ctx.has_ram0 {
        ctx.start + RAM0_SIZE
    } else {
        ctx.start as int
    }
}

/// The values that the engine itself fills into a template, before those
/// of the platform.
pub open spec fn computed_params(t: Template, ctx: Context) -> Seq<(Seq<char>, Seq<char>)> {
    match t {
        Template::Ram0 => seq![("phys_start"@, hex_literal(ctx.start as nat))],
        Template::Ram => seq![
            ("phys_start"@, hex_literal(ram_start(ctx) as nat)),
            ("size"@, hex_literal(ctx.request as nat)),
        ],
        Template::Ivshmem => match ctx.address {
            Some(a) => seq![("address"@, hex_literal(a as nat))],
            None => Seq::<(Seq<char>, Seq<char>)>::empty(),
        },
        Template::IrqChip | Template::IrqChipBoard | Template::IrqChipPlain | Template::PciDevice | Template::PciDeviceWithDemo | Template::PciDeviceEmpty => if ctx.networked {
            seq![
                ("ivshmem_bdf"@, dec_text(ctx.slot as int)),
                ("demo_regions_start"@, dec_digits(ctx.demo_start as nat)),
                ("shmem_regions_start"@, dec_digits(ctx.net_start as nat)),
            ]
        } else {
            Seq::<(Seq<char>, Seq<char>)>::empty()
        },
        _ => Seq::<(Seq<char>, Seq<char>)>::empty(),
    }
}

/// The kind of block that a use becomes: its own, except that the interrupt
/// controller of a guest without a network is the plain one, whose pin
/// bitmap holds no pin of a shared-memory channel.
pub open spec fn kind_of_block(t: Template, ctx: Context) -> Template {
    if place_of(t) == Some(Place::Irq) && !ctx.networked {
        Template::IrqChipPlain
    } else {
        t
    }
}

/// The block that a use of a template becomes: the template with the
/// computed values filled in, then the platform's.
pub open spec fn block_of(u: UseView, ctx: Context) -> BlockView {
    BlockView {
        template: kind_of_block(u.template, ctx),
        text: filled(
            kind_of_block(u.template, ctx).body(),
            computed_params(u.template, ctx) + u.params,
        ),
    }
}

/// The blocks of the uses that go to `place`, in the order of the list.
pub open spec fn placed_blocks(uses: Seq<UseView>, place: Place, ctx: Context) -> Seq<BlockView>
    decreases uses.len(),
{
    if uses.len() == 0 {
        Seq::<BlockView>::empty()
    } else if place_of(uses.last().template) == Some(place) {
        placed_blocks(uses.drop_last(), place, ctx).push(block_of(uses.last(), ctx))
    } else {
        placed_blocks(uses.drop_last(), place, ctx)
    }
}

/// Some use of the list is of the kind `t`.
pub open spec fn has_kind(uses: Seq<UseView>, t: Template) -> bool {
    exists|i: int| 0 <= i < uses.len() && (#[trigger] uses[i]).template == t
}

/// Whether some use of the list is of the kind `t`.
pub fn uses_kind(uses: &Vec<TemplateUse>, t: Template) -> (r: bool)
    ensures
        r == has_kind(use_views(uses@), t),
{
    let mut i: usize = 0;
    while i < uses.len()
        invariant
            i <= uses.len(),
            forall|k: int| 0 <= k < i ==> (#[trigger] use_views(uses@)[k]).template != t,
        decreases uses.len() - i,
    {
        if uses[i].template == t {
            assert(use_views(uses@)[i as int].template == t);
            return true;
        }
        i += 1;
    }
    false
}

/// Every use of the list goes to a part of the table of memory regions.
pub open spec fn all_memory(uses: Seq<UseView>) -> bool {
    forall|i: int|
        0 <= i < uses.len() ==> place_of((#[trigger] uses[i]).template) is Some && is_memory(
            place_of(uses[i].template)->0,
        )
}

/// Every use of the list is an interrupt controller or a PCI device.
pub open spec fn all_devices(uses: Seq<UseView>) -> bool {
    forall|i: int|
        0 <= i < uses.len() ==> place_of((#[trigger] uses[i]).template) is Some && !is_memory(
            place_of(uses[i].template)->0,
        )
}

/// Whether every use of the list goes to the table of memory regions
/// (`memory`) or to the tables of devices (otherwise).
pub fn uses_are(uses: &Vec<TemplateUse>, memory: bool) -> (r: bool)
    ensures
        memory ==> r == all_memory(use_views(uses@)),
        !memory ==> r == all_devices(use_views(uses@)),
{
    let mut i: usize = 0;
    while i < uses.len()
        invariant
            i <= uses.len(),
            forall|k: int|
                0 <= k < i ==> place_of((#[trigger] use_views(uses@)[k]).template) is Some && (
                is_memory(place_of(use_views(uses@)[k].template)->0) == memory),
        decreases uses.len() - i,
    {
        let ok = match place(uses[i].template) {
            Some(Place::Fixed) | Some(Place::Ram) | Some(Place::Shared) => memory,
            Some(Place::Irq) | Some(Place::Pci) => !memory,
            None => false,
        };
        if !ok {
            assert(use_views(uses@)[i as int].template == uses@[i as int].template);
            return false;
        }
        i += 1;
    }
    true
}

fn pair(key: &str, value: &Vec<char>) -> (p: (String, String))
    ensures
        p.0@ == key@,
        p.1@ == value@,
{
    (string_of(&chars_of(key)), string_of(value))
}

fn computed(t: Template, ctx: &Context) -> (r: Vec<(String, String)>)
    requires
        ctx.has_ram0 ==> ctx.start + RAM0_SIZE <= u64::MAX,
    ensures
        params_view(r@) == computed_params(t, *ctx),
{
    let mut out: Vec<(String, String)> = Vec::new();
    match t {
        Template::Ram0 => {
            out.push(pair("phys_start", &hex_chars(ctx.start)));
        },
        Template::Ram => {
            let start = if ctx.has_ram0 {
                ctx.start + RAM0_SIZE
            } else {
                ctx.start
            };
            out.push(pair("phys_start", &hex_chars(start)));
            out.push(pair("size", &hex_chars(ctx.request)));
        },
        Template::Ivshmem => {
            match ctx.address {
                Some(a) => {
                    out.push(pair("address", &hex_chars(a)));
                },
                None => {},
            }
        },
        Template::IrqChip | Template::IrqChipBoard | Template::IrqChipPlain | Template::PciDevice | Template::PciDeviceWithDemo | Template::PciDeviceEmpty => {
            if ctx.networked {
                out.push(pair("ivshmem_bdf", &dec_chars(ctx.slot as i64)));
                out.push(pair("demo_regions_start", &dec_digit_chars_wide(ctx.demo_start)));
                out.push(pair("shmem_regions_start", &dec_digit_chars_wide(ctx.net_start)));
            }
        },
        _ => {},
    }
    assert(params_view(out@) =~= computed_params(t, *ctx));
    out
}

/// Renders one use of a template.
pub fn render_use(u: &TemplateUse, ctx: &Context) -> (b: Block)
    requires
        ctx.has_ram0 ==> ctx.start + RAM0_SIZE <= u64::MAX,
    ensures
        b@ == block_of(u@, *ctx),
{
    let is_irq = match place(u.template) {
        Some(Place::Irq) => true,
        _ => false,
    };
    let kind = if is_irq && !ctx.networked {
        Template::IrqChipPlain
    } else {
        u.template
    };
    let mut params = computed(u.template, ctx);
    let ghost head = params_view(params@);
    let mut i: usize = 0;
    while i < u.params.len()
        invariant
            i <= u.params.len(),
            params_view(params@) == head + params_view(u.params@).take(i as int),
        decreases u.params.len() - i,
    {
        let ghost before = params_view(params@);
        params.push((u.params[i].0.clone(), u.params[i].1.clone()));
        i += 1;
        assert(params_view(params@) =~= before.push((u.params@[i - 1].0@, u.params@[i - 1].1@)));
        assert(params_view(params@) =~= head + params_view(u.params@).take(i as int));
    }
    assert(params_view(u.params@).take(u.params.len() as int) =~= params_view(u.params@));
    let text = fill(&chars_of(kind.text()), &params);
    Block { template: kind, text: string_of(&text) }
}

/// Renders the uses that go to `place`, in the order of the list, behind
/// the blocks of `out`.
pub fn render_placed(out: &mut Vec<Block>, uses: &Vec<TemplateUse>, place_wanted: Place, ctx: &Context)
    requires
        ctx.has_ram0 ==> ctx.start + RAM0_SIZE <= u64::MAX,
    ensures
        block_views(final(out)@) == block_views(old(out)@) + placed_blocks(
            use_views(uses@),
            place_wanted,
            *ctx,
        ),
{
    let ghost all = use_views(uses@);
    let ghost head = block_views(out@);
    let mut i: usize = 0;
    assert(all.take(0) =~= Seq::<UseView>::empty());
    assert(block_views(out@) =~= head + placed_blocks(all.take(0), place_wanted, *ctx));
    while i < uses.len()
        invariant
            i <= uses.len(),
            all == use_views(uses@),
            ctx.has_ram0 ==> ctx.start + RAM0_SIZE <= u64::MAX,
            block_views(out@) == head + placed_blocks(all.take(i as int), place_wanted, *ctx),
        decreases uses.len() - i,
    {
        proof {
            assert(all.take(i + 1).drop_last() =~= all.take(i as int));
            assert(all.take(i + 1).last() == uses@[i as int]@);
        }
        let here = match place(uses[i].template) {
            Some(p) => p == place_wanted,
            None => false,
        };
        if here {
            let ghost before = block_views(out@);
            let b = render_use(&uses[i], ctx);
            out.push(b);
            assert(block_views(out@) =~= before.push(block_of(uses@[i as int]@, *ctx)));
            assert(block_views(out@) =~= head + placed_blocks(
                all.take(i + 1),
                place_wanted,
                *ctx,
            ));
        }
        i += 1;
    }
    assert(all.take(uses.len() as int) =~= all);
}

/// The index of the first table entry that a block of the kind `t` emits:
/// the number of entries of the blocks before the first such block.
pub open spec fn first_entry_of(blocks: Seq<BlockView>, t: Template) -> nat
    decreases blocks.len(),
{
    if blocks.len() == 0 {
        0
    } else if blocks[0].template == t {
        0
    } else {
        blocks[0].template.entries() + first_entry_of(blocks.skip(1), t)
    }
}

/// The index of the first table entry that a block of the kind `t` emits.
pub fn first_entry(blocks: &Vec<Block>, t: Template) -> (n: u128)
    ensures
        n == first_entry_of(block_views(blocks@), t),
        n <= 5 * blocks.len(),
{
    let ghost all = block_views(blocks@);
    let mut n: u128 = 0;
    let mut i: usize = 0;
    assert(all.skip(0) =~= all);
    while i < blocks.len()
        invariant
            i <= blocks.len(),
            all == block_views(blocks@),
            n <= 5 * i,
            first_entry_of(all, t) == n + first_entry_of(all.skip(i as int), t),
        decreases blocks.len() - i,
    {
        proof {
            assert(all.skip(i as int)[0] == blocks@[i as int]@);
            assert(all.skip(i as int).skip(1) =~= all.skip(i + 1));
        }
        if blocks[i].template == t {
            return n;
        }
        n = n + blocks[i].template.entry_count() as u128;
        i += 1;
    }
    n
}

} // verus!
