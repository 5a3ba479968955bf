//! The partition descriptor: a typed model of its tables, and the one step
//! that serialises it. The lengths that the preamble declares are checked
//! against the entries that the body emits before a single character is
//! written.

use crate::error::EngineError;
use crate::templates::{Table, Template};
use crate::text::{
    chars_of, dec_digit_chars, dec_digits, extend_chars, extend_str, hex_chars, hex_literal,
    string_of, substitute, substituted,
};
use vstd::prelude::*;

verus! {

/// The token that stands for the parameter `key` in a template.
pub open spec fn placeholder(key: Seq<char>) -> Seq<char> {
    seq!['{'] + key + seq!['}']
}

/// The texts of a list of parameters.
pub open spec fn params_view(params: Seq<(String, String)>) -> Seq<(Seq<char>, Seq<char>)> {
    params.map_values(|p: (String, String)| (p.0@, p.1@))
}

/// A template with its parameters filled in: for each parameter in turn,
/// every occurrence of its placeholder is replaced by its value.
pub open spec fn filled(template: Seq<char>, params: Seq<(Seq<char>, Seq<char>)>) -> Seq<char>
    decreases params.len(),
{
    if params.len() == 0 {
        template
    } else {
        substituted(
            filled(template, params.drop_last()),
            placeholder(params.last().0),
            params.last().1,
        )
    }
}

/// Fills the parameters into the characters of a template.
pub fn fill(template: &Vec<char>, params: &Vec<(String, String)>) -> (r: Vec<char>)
    ensures
        r@ == filled(template@, params_view(params@)),
{
    let mut out: Vec<char> = Vec::new();
    extend_chars(&mut out, template);
    let mut i: usize = 0;
    assert(params_view(params@).take(0) =~= Seq::<(Seq<char>, Seq<char>)>::empty());
    assert(out@ =~= template@);
    while i < params.len()
        invariant
            i <= params.len(),
            out@ == filled(template@, params_view(params@).take(i as int)),
        decreases params.len() - i,
    {
        proof {
            let now = params_view(params@).take(i + 1);
            assert(now.drop_last() =~= params_view(params@).take(i as int));
            assert(now.last() == (params@[i as int].0@, params@[i as int].1@));
        }
        let mut token: Vec<char> = Vec::new();
        token.push('{');
        extend_str(&mut token, params[i].0.as_str());
        token.push('}');
        assert(token@ =~= placeholder(params@[i as int].0@));
        let value = chars_of(params[i].1.as_str());
        out = substitute(&out, &token, &value);
        i += 1;
    }
    assert(params_view(params@).take(params.len() as int) =~= params_view(params@));
    out
}

/// Renders one block: the template with the parameters filled in, each
/// placeholder `{key}` replaced by the value of `key`.
pub fn generate_mem_region(template: &str, params: &Vec<(String, String)>) -> (r: String)
    ensures
        r@ == filled(template@, params_view(params@)),
{
    let t = chars_of(template);
    let out = fill(&t, params);
    string_of(&out)
}

/// One rendered block of a descriptor table.
#[derive(Debug)]
pub struct Block {
    /// The kind of the block.
    pub template: Template,
    /// The text of the block.
    pub text: String,
}

/// The mathematical content of a `Block`.
pub struct BlockView {
    pub template: Template,
    pub text: Seq<char>,
}

impl View for Block {
    type V = BlockView;

    open spec fn view(&self) -> BlockView {
        BlockView { template: self.template, text: self.text@ }
    }
}

/// The contents of a list of blocks.
pub open spec fn block_views(blocks: Seq<Block>) -> Seq<BlockView> {
    blocks.map_values(|b: Block| b@)
}

/// The number of table entries that the blocks emit.
pub open spec fn entries_sum(blocks: Seq<BlockView>) -> nat
    decreases blocks.len(),
{
    if blocks.len() == 0 {
        0
    } else {
        entries_sum(blocks.drop_last()) + blocks.last().template.entries()
    }
}

/// The texts of the blocks, one after the other.
pub open spec fn blocks_text(blocks: Seq<BlockView>) -> Seq<char>
    decreases blocks.len(),
{
    if blocks.len() == 0 {
        Seq::<char>::empty()
    } else {
        blocks_text(blocks.drop_last()) + blocks.last().text
    }
}

/// Every block is of a kind that belongs to `table`.
pub open spec fn all_of_table(blocks: Seq<BlockView>, table: Table) -> bool {
    forall|i: int| 0 <= i < blocks.len() ==> (#[trigger] blocks[i]).template.table() == Some(table)
}

/// A partition descriptor before it is serialised.
#[derive(Debug)]
pub struct Descriptor {
    /// The preamble that the guest's kind and the platform select.
    pub preamble: Template,
    /// The name of the cell.
    pub name: String,
    /// The CPU cores of the cell, one bit each.
    pub cpus: u64,
    /// The auxiliary cores of the cell, one bit each, where the cell runs on
    /// them.
    pub rcpus: Option<u64>,
    /// The FPGA regions of the cell, one bit each.
    pub fpga_regions: u32,
    /// The memory regions, in the order of the table.
    pub mem_regions: Vec<Block>,
    /// The interrupt controllers.
    pub irqchips: Vec<Block>,
    /// The PCI devices.
    pub pci_devices: Vec<Block>,
    /// The stream IDs.
    pub stream_ids: Vec<Block>,
    /// The declared length of the table of memory regions.
    pub num_memory_regions: usize,
    /// The declared length of the table of interrupt controllers.
    pub num_irqchips: usize,
    /// The declared length of the table of PCI devices.
    pub num_pci_devices: usize,
    /// The declared length of the table of stream IDs.
    pub num_stream_ids: usize,
}

/// The mathematical content of a `Descriptor`.
pub struct DescriptorView {
    pub preamble: Template,
    pub name: Seq<char>,
    pub cpus: u64,
    pub rcpus: Option<u64>,
    pub fpga_regions: u32,
    pub mem_regions: Seq<BlockView>,
    pub irqchips: Seq<BlockView>,
    pub pci_devices: Seq<BlockView>,
    pub stream_ids: Seq<BlockView>,
    pub num_memory_regions: nat,
    pub num_irqchips: nat,
    pub num_pci_devices: nat,
    pub num_stream_ids: nat,
}

impl View for Descriptor {
    type V = DescriptorView;

    open spec fn view(&self) -> DescriptorView {
        DescriptorView {
            preamble: self.preamble,
            name: self.name@,
            cpus: self.cpus,
            rcpus: self.rcpus,
            fpga_regions: self.fpga_regions,
            mem_regions: block_views(self.mem_regions@),
            irqchips: block_views(self.irqchips@),
            pci_devices: block_views(self.pci_devices@),
            stream_ids: block_views(self.stream_ids@),
            num_memory_regions: self.num_memory_regions as nat,
            num_irqchips: self.num_irqchips as nat,
            num_pci_devices: self.num_pci_devices as nat,
            num_stream_ids: self.num_stream_ids as nat,
        }
    }
}

/// Whether the kind is one of the preambles.
pub open spec fn is_preamble(t: Template) -> bool {
    t == Template::QemuPreamble || t == Template::UltrascalePreamble || t
        == Template::LinuxPreamble
}

impl DescriptorView {
    /// The preamble is a preamble, every block stands in the table of its
    /// kind, and auxiliary cores appear only under a preamble that declares
    /// them.
    pub open spec fn well_placed(self) -> bool {
        &&& is_preamble(self.preamble)
        &&& all_of_table(self.mem_regions, Table::Memory)
        &&& all_of_table(self.irqchips, Table::IrqChip)
        &&& all_of_table(self.pci_devices, Table::PciDevice)
        &&& all_of_table(self.stream_ids, Table::StreamId)
        &&& (self.rcpus is Some ==> self.preamble == Template::UltrascalePreamble)
    }

    /// Every declared length is the number of entries emitted for its
    /// table.
    pub open spec fn counts_match(self) -> bool {
        &&& self.num_memory_regions == entries_sum(self.mem_regions)
        &&& self.num_irqchips == entries_sum(self.irqchips)
        &&& self.num_pci_devices == entries_sum(self.pci_devices)
        &&& self.num_stream_ids == entries_sum(self.stream_ids)
    }
}

/// The declaration of one table in the descriptor's structure.
pub open spec fn declaration(kind: Seq<char>, name: Seq<char>, n: nat) -> Seq<char> {
    "\t"@ + kind + " "@ + name + "["@ + dec_digits(n) + "];\n"@
}

/// The declarations of the tables, with their lengths.
pub open spec fn tables_text(d: DescriptorView) -> Seq<char> {
    "\t__u32 fpga_regions[1];\n"@ + declaration(
        "struct jailhouse_memory"@,
        "mem_regions"@,
        d.num_memory_regions,
    ) + declaration("struct jailhouse_irqchip"@, "irqchips"@, d.num_irqchips) + declaration(
        "struct jailhouse_pci_device"@,
        "pci_devices"@,
        d.num_pci_devices,
    ) + declaration("union jailhouse_stream_id"@, "stream_ids"@, d.num_stream_ids)
}

/// A field that holds one bit mask.
pub open spec fn mask_text(field: Seq<char>, mask: nat) -> Seq<char> {
    "\n\t."@ + field + " = {\n\t\t"@ + hex_literal(mask) + ",\n\t},\n"@
}

/// The preamble of the descriptor: its template with the name of the cell
/// and the declarations of the tables filled in.
pub open spec fn preamble_text(d: DescriptorView) -> Seq<char> {
    filled(d.preamble.body(), seq![("containerid"@, d.name), ("tables"@, tables_text(d))])
}

/// The text of the descriptor: the preamble, the masks of the cores and of
/// the FPGA regions, the memory regions, the interrupt controllers, the PCI
/// devices and the stream IDs, in this order.
pub open spec fn descriptor_text(d: DescriptorView) -> Seq<char> {
    preamble_text(d) + mask_text("cpus"@, d.cpus as nat) + (match d.rcpus {
        Some(m) => mask_text("rcpus"@, m as nat),
        None => Seq::<char>::empty(),
    }) + mask_text("fpga_regions"@, d.fpga_regions as nat) + ".mem_regions = {\n"@ + blocks_text(
        d.mem_regions,
    ) + "\n},\n"@ + blocks_text(d.irqchips) + blocks_text(d.pci_devices) + blocks_text(
        d.stream_ids,
    ) + "\n};\n"@
}

/// The number of table entries that the blocks emit.
pub fn count_entries(blocks: &Vec<Block>) -> (n: u128)
    ensures
        n == entries_sum(block_views(blocks@)),
{
    let mut n: u128 = 0;
    let mut i: usize = 0;
    assert(block_views(blocks@).take(0) =~= Seq::<BlockView>::empty());
    while i < blocks.len()
        invariant
            i <= blocks.len(),
            n == entries_sum(block_views(blocks@).take(i as int)),
            n <= 5 * i,
        decreases blocks.len() - i,
    {
        proof {
            let now = block_views(blocks@).take(i + 1);
            assert(now.drop_last() =~= block_views(blocks@).take(i as int));
            assert(now.last() == blocks@[i as int]@);
        }
        let e = blocks[i].template.entry_count();
        n = n + e as u128;
        i += 1;
    }
    assert(block_views(blocks@).take(blocks.len() as int) =~= block_views(blocks@));
    n
}

/// Whether every block is of a kind that belongs to `table`.
pub fn blocks_of_table(blocks: &Vec<Block>, table: Table) -> (r: bool)
    ensures
        r == all_of_table(block_views(blocks@), table),
{
    let mut i: usize = 0;
    while i < blocks.len()
        invariant
            i <= blocks.len(),
            forall|k: int|
                0 <= k < i ==> (#[trigger] block_views(blocks@)[k]).template.table() == Some(table),
        decreases blocks.len() - i,
    {
        let ok = match blocks[i].template.table_of() {
            Some(t) => t == table,
            None => false,
        };
        if !ok {
            assert(block_views(blocks@)[i as int].template.table() != Some(table));
            return false;
        }
        i += 1;
    }
    true
}

fn append_blocks(out: &mut Vec<char>, blocks: &Vec<Block>)
    ensures
        final(out)@ == old(out)@ + blocks_text(block_views(blocks@)),
{
    let mut i: usize = 0;
    assert(block_views(blocks@).take(0) =~= Seq::<BlockView>::empty());
    assert(out@ =~= old(out)@ + blocks_text(block_views(blocks@).take(0)));
    while i < blocks.len()
        invariant
            i <= blocks.len(),
            out@ == old(out)@ + blocks_text(block_views(blocks@).take(i as int)),
        decreases blocks.len() - i,
    {
        proof {
            let now = block_views(blocks@).take(i + 1);
            assert(now.drop_last() =~= block_views(blocks@).take(i as int));
            assert(now.last() == blocks@[i as int]@);
        }
        let ghost before = out@;
        extend_str(out, blocks[i].text.as_str());
        i += 1;
        assert(out@ =~= old(out)@ + blocks_text(block_views(blocks@).take(i as int)));
    }
    assert(block_views(blocks@).take(blocks.len() as int) =~= block_views(blocks@));
}

fn append_declaration(out: &mut Vec<char>, kind: &str, name: &str, n: usize)
    ensures
        final(out)@ == old(out)@ + declaration(kind@, name@, n as nat),
{
    extend_str(out, "\t");
    extend_str(out, kind);
    extend_str(out, " ");
    extend_str(out, name);
    extend_str(out, "[");
    let digits = dec_digit_chars(n as u64);
    extend_chars(out, &digits);
    extend_str(out, "];\n");
    assert(out@ =~= old(out)@ + declaration(kind@, name@, n as nat));
}

fn append_mask(out: &mut Vec<char>, field: &str, mask: u64)
    ensures
        final(out)@ == old(out)@ + mask_text(field@, mask as nat),
{
    extend_str(out, "\n\t.");
    extend_str(out, field);
    extend_str(out, " = {\n\t\t");
    let digits = hex_chars(mask);
    extend_chars(out, &digits);
    extend_str(out, ",\n\t},\n");
    assert(out@ =~= old(out)@ + mask_text(field@, mask as nat));
}

impl Descriptor {
    /// A descriptor with empty tables, for a cell without cores.
    pub fn new(preamble: Template, name: String) -> (d: Descriptor)
        ensures
            d@.preamble == preamble,
            d@.name == name@,
            d@.cpus == 0,
            d@.rcpus is None,
            d@.fpga_regions == 0,
            d@.mem_regions.len() == 0,
            d@.irqchips.len() == 0,
            d@.pci_devices.len() == 0,
            d@.stream_ids.len() == 0,
            d@.num_memory_regions == 0,
            d@.num_irqchips == 0,
            d@.num_pci_devices == 0,
            d@.num_stream_ids == 0,
            d@.counts_match(),
    {
        Descriptor {
            preamble: preamble,
            name: name,
            cpus: 0,
            rcpus: None,
            fpga_regions: 0,
            mem_regions: Vec::new(),
            irqchips: Vec::new(),
            pci_devices: Vec::new(),
            stream_ids: Vec::new(),
            num_memory_regions: 0,
            num_irqchips: 0,
            num_pci_devices: 0,
            num_stream_ids: 0,
        }
    }

    /// Whether every block stands in the table of its kind.
    pub fn is_well_placed(&self) -> (r: bool)
        ensures
            r == self@.well_placed(),
    {
        let preamble_ok = match self.preamble {
            Template::QemuPreamble => true,
            Template::UltrascalePreamble => true,
            Template::LinuxPreamble => true,
            _ => false,
        };
        let rcpus_ok = match self.rcpus {
            Some(_) => match self.preamble {
                Template::UltrascalePreamble => true,
                _ => false,
            },
            None => true,
        };
        preamble_ok && rcpus_ok && blocks_of_table(&self.mem_regions, Table::Memory)
            && blocks_of_table(&self.irqchips, Table::IrqChip) && blocks_of_table(
            &self.pci_devices,
            Table::PciDevice,
        ) && blocks_of_table(&self.stream_ids, Table::StreamId)
    }

    /// Whether every declared length is the number of entries emitted.
    pub fn has_matching_counts(&self) -> (r: bool)
        ensures
            r == self@.counts_match(),
    {
        count_entries(&self.mem_regions) == self.num_memory_regions as u128 && count_entries(
            &self.irqchips,
        ) == self.num_irqchips as u128 && count_entries(&self.pci_devices)
            == self.num_pci_devices as u128 && count_entries(&self.stream_ids)
            == self.num_stream_ids as u128
    }

    /// Serialises the descriptor. A descriptor that declares a length other
    /// than the number of entries it emits for that table is never written.
    pub fn render(&self) -> (r: Result<String, EngineError>)
        ensures
            match r {
                Ok(text) => {
                    &&& self@.well_placed()
                    &&& self@.counts_match()
                    &&& text@ == descriptor_text(self@)
                },
                Err(e) => {
                    ||| e == EngineError::DescriptorTemplateMissing && !self@.well_placed()
                    ||| e == EngineError::ArrayCountMismatch && self@.well_placed()
                        && !self@.counts_match()
                },
            },
    {
        if !self.is_well_placed() {
            return Err(EngineError::DescriptorTemplateMissing);
        }
        if !self.has_matching_counts() {
            return Err(EngineError::ArrayCountMismatch);
        }
        let mut tables: Vec<char> = Vec::new();
        extend_str(&mut tables, "\t__u32 fpga_regions[1];\n");
        append_declaration(
            &mut tables,
            "struct jailhouse_memory",
            "mem_regions",
            self.num_memory_regions,
        );
        append_declaration(&mut tables, "struct jailhouse_irqchip", "irqchips", self.num_irqchips);
        append_declaration(
            &mut tables,
            "struct jailhouse_pci_device",
            "pci_devices",
            self.num_pci_devices,
        );
        append_declaration(
            &mut tables,
            "union jailhouse_stream_id",
            "stream_ids",
            self.num_stream_ids,
        );
        assert(tables@ =~= tables_text(self@));
        let mut params: Vec<(String, String)> = Vec::new();
        params.push((string_of(&chars_of("containerid")), self.name.clone()));
        params.push((string_of(&chars_of("tables")), string_of(&tables)));
        assert(params_view(params@) =~= seq![
            ("containerid"@, self@.name),
            ("tables"@, tables_text(self@)),
        ]);
        let mut out = fill(&chars_of(self.preamble.text()), &params);
        assert(out@ == preamble_text(self@));
        append_mask(&mut out, "cpus", self.cpus);
        match self.rcpus {
            Some(m) => {
                append_mask(&mut out, "rcpus", m);
            },
            None => {},
        }
        append_mask(&mut out, "fpga_regions", self.fpga_regions as u64);
        extend_str(&mut out, ".mem_regions = {\n");
        append_blocks(&mut out, &self.mem_regions);
        extend_str(&mut out, "\n},\n");
        append_blocks(&mut out, &self.irqchips);
        append_blocks(&mut out, &self.pci_devices);
        append_blocks(&mut out, &self.stream_ids);
        extend_str(&mut out, "\n};\n");
        assert(out@ =~= descriptor_text(self@));
        Ok(string_of(&out))
    }
}

/// Count consistency. Whatever descriptor is serialised, the lengths that
/// its preamble declares for the tables of memory regions, interrupt
/// controllers, PCI devices and stream IDs are the numbers of entries that
/// its body emits for them.
pub proof fn lemma_declared_counts(d: DescriptorView)
    requires
        d.well_placed(),
        d.counts_match(),
    ensures
        tables_text(d) == "\t__u32 fpga_regions[1];\n"@ + declaration(
            "struct jailhouse_memory"@,
            "mem_regions"@,
            entries_sum(d.mem_regions),
        ) + declaration("struct jailhouse_irqchip"@, "irqchips"@, entries_sum(d.irqchips))
            + declaration(
            "struct jailhouse_pci_device"@,
            "pci_devices"@,
            entries_sum(d.pci_devices),
        ) + declaration("union jailhouse_stream_id"@, "stream_ids"@, entries_sum(d.stream_ids)),
{
}

} // verus!
