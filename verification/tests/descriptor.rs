use runphi::descriptor::{blocks_of_table, count_entries, fill, generate_mem_region, Block, Descriptor};
use runphi::error::EngineError;
use runphi::templates::{
    get_templates_map, template_by_name, Table, Template, COMM_REGION_TEMPLATE,
    IRQ_CHIP_TEMPLATE, IVSHMEM_TEMPLATE, RAM_TEMPLATE,
};

fn pairs(list: &[(&str, &str)]) -> Vec<(String, String)> {
    list.iter().map(|(k, v)| (k.to_string(), v.to_string())).collect()
}

fn block(template: Template, text: &str) -> Block {
    Block { template, text: text.to_string() }
}

#[test]
fn placeholders_are_filled_in_order() {
    let text = generate_mem_region(
        RAM_TEMPLATE,
        &pairs(&[("phys_start", "0x70000000"), ("size", "0x4000000"), ("virt_start", "0x0")]),
    );
    assert_eq!(
        text,
        "\n/* RAM */ {\n    .phys_start = 0x70000000,\n    .virt_start = 0x0,\n    .size = 0x4000000,\n    .flags = JAILHOUSE_MEM_READ | JAILHOUSE_MEM_WRITE |\n        JAILHOUSE_MEM_EXECUTE | JAILHOUSE_MEM_DMA |\n        JAILHOUSE_MEM_LOADABLE,\n},\n"
    );
    assert_eq!(generate_mem_region("{a}{b}", &pairs(&[("a", "{b}"), ("b", "x")])), "xx");
    assert_eq!(generate_mem_region("{a}{b}", &pairs(&[("b", "x"), ("a", "{b}")])), "{b}x");
    assert_eq!(generate_mem_region("{a}", &pairs(&[])), "{a}");
    assert_eq!(generate_mem_region(COMM_REGION_TEMPLATE, &pairs(&[("size", "1")])), COMM_REGION_TEMPLATE);
    assert_eq!(
        generate_mem_region(IVSHMEM_TEMPLATE, &pairs(&[("address", "0x7f900000")])),
        "JAILHOUSE_SHMEM_NET_REGIONS(0x7f900000, 1),"
    );
    let t: Vec<char> = "<{k}>".chars().collect();
    assert_eq!(fill(&t, &pairs(&[("k", "v")])).into_iter().collect::<String>(), "<v>");
}

#[test]
fn the_templates_are_all_there() {
    let map = get_templates_map();
    assert_eq!(map.len(), 21);
    for (name, text) in &map {
        assert_eq!(template_by_name(name), Some(*text));
        let kind = Template::from_name(name).unwrap();
        assert_eq!(kind.name(), *name);
        assert_eq!(kind.text(), *text);
    }
    assert!(map.contains(&("RAM_TEMPLATE", RAM_TEMPLATE)));
    assert!(map.contains(&("IRQ_CHIP_TEMPLATE", IRQ_CHIP_TEMPLATE)));
    assert!(map.iter().any(|(n, _)| *n == "SHM_TEMPLATE"));
    assert_eq!(template_by_name("NO_TEMPLATE"), None);
    assert_eq!(template_by_name("ram_template"), None);
    assert_eq!(Template::from_name("NO_TEMPLATE"), None);
    assert_eq!(Template::from_name("UART_TEMPLATE"), Some(Template::Uart));
}

#[test]
fn kinds_know_their_table_and_their_entries() {
    assert_eq!(Template::Ram.table_of(), Some(Table::Memory));
    assert_eq!(Template::AccelMem.table_of(), Some(Table::Memory));
    assert_eq!(Template::IrqChipBoard.table_of(), Some(Table::IrqChip));
    assert_eq!(Template::PciDeviceEmpty.table_of(), Some(Table::PciDevice));
    assert_eq!(Template::StreamId.table_of(), Some(Table::StreamId));
    assert_eq!(Template::QemuPreamble.table_of(), None);
    assert_eq!(Template::IvshmemDemo.entry_count(), 5);
    assert_eq!(Template::Ivshmem.entry_count(), 4);
    assert_eq!(Template::PciDeviceWithDemo.entry_count(), 2);
    assert_eq!(Template::PciDevice.entry_count(), 1);
    assert_eq!(Template::PciDeviceEmpty.entry_count(), 0);
    assert_eq!(Template::StreamIdEmpty.entry_count(), 0);
    assert_eq!(Template::Uart.entry_count(), 1);
    let blocks = vec![block(Template::IvshmemDemo, ""), block(Template::Ivshmem, ""), block(Template::Ram, "")];
    assert_eq!(count_entries(&blocks), 10);
    assert_eq!(count_entries(&Vec::new()), 0);
    assert!(blocks_of_table(&blocks, Table::Memory));
    assert!(!blocks_of_table(&blocks, Table::PciDevice));
}

fn small() -> Descriptor {
    let mut d = Descriptor::new(Template::QemuPreamble, "cell".to_string());
    d.cpus = 0x6;
    d.mem_regions.push(block(Template::Uart, "<uart>"));
    d.mem_regions.push(block(Template::Ivshmem, "<net>"));
    d.num_memory_regions = 5;
    d.irqchips.push(block(Template::IrqChip, "<gic>"));
    d.num_irqchips = 1;
    d.pci_devices.push(block(Template::PciDeviceWithDemo, "<pci>"));
    d.num_pci_devices = 2;
    d.stream_ids.push(block(Template::StreamIdEmpty, "<sid>"));
    d.num_stream_ids = 0;
    d
}

#[test]
fn a_descriptor_is_rendered_in_one_step() {
    let d = small();
    assert!(d.is_well_placed());
    assert!(d.has_matching_counts());
    let text = d.render().unwrap();
    let want = "\n#include \"cell.h\"\n\nstruct {\n\tstruct jailhouse_cell_desc cell;\n\t__u64 cpus[1];\n\
\t__u32 fpga_regions[1];\n\tstruct jailhouse_memory mem_regions[5];\n\tstruct jailhouse_irqchip irqchips[1];\n\
\tstruct jailhouse_pci_device pci_devices[2];\n\tunion jailhouse_stream_id stream_ids[0];\n\
} __attribute__((packed)) config = {\n\t.cell = {\n\t\t.signature = JAILHOUSE_CELL_DESC_SIGNATURE,\n\
\t\t.revision = JAILHOUSE_CONFIG_REVISION,\n\t\t.name = \"cell\",\n\t\t.flags = JAILHOUSE_CELL_PASSIVE_COMMREG |\n\
\t\t\tJAILHOUSE_CELL_VIRTUAL_CONSOLE_PERMITTED,\n\n\t\t.cpu_set_size = sizeof(config.cpus),\n\
\t\t.num_memory_regions = ARRAY_SIZE(config.mem_regions),\n\t\t.num_irqchips = ARRAY_SIZE(config.irqchips),\n\
\t\t.num_pci_devices = ARRAY_SIZE(config.pci_devices),\n\n\t\t.vpci_irq_base = 140-32,\n\
\t\t.cpu_reset_address = 0x70000000,\n\n\t\t.console = {\n\t\t\t.address = 0x09000000,\n\
\t\t\t.type = JAILHOUSE_CON_TYPE_PL011,\n\t\t\t.flags = JAILHOUSE_CON_ACCESS_MMIO |\n\
\t\t\t\t JAILHOUSE_CON_REGDIST_4,\n\t\t},\n\t},\n\
\n\t.cpus = {\n\t\t0x6,\n\t},\n\n\t.fpga_regions = {\n\t\t0x0,\n\t},\n\
.mem_regions = {\n<uart><net>\n},\n<gic><pci><sid>\n};\n";
    assert_eq!(text, want);
}

#[test]
fn a_wrong_length_is_never_written() {
    for table in 0..4 {
        for delta in [-1i64, 1] {
            let mut d = small();
            let field = match table {
                0 => &mut d.num_memory_regions,
                1 => &mut d.num_irqchips,
                2 => &mut d.num_pci_devices,
                _ => &mut d.num_stream_ids,
            };
            if *field == 0 && delta < 0 {
                continue;
            }
            *field = (*field as i64 + delta) as usize;
            assert!(!d.has_matching_counts());
            assert_eq!(d.render(), Err(EngineError::ArrayCountMismatch));
        }
    }
    let mut d = small();
    d.mem_regions.pop();
    assert_eq!(d.render(), Err(EngineError::ArrayCountMismatch));
}

#[test]
fn a_block_in_the_wrong_table_is_never_written() {
    let mut d = small();
    d.mem_regions.push(block(Template::IrqChip, "<gic>"));
    d.num_memory_regions = 6;
    assert!(!d.is_well_placed());
    assert_eq!(d.render(), Err(EngineError::DescriptorTemplateMissing));
    let mut d = small();
    d.preamble = Template::Ram;
    assert_eq!(d.render(), Err(EngineError::DescriptorTemplateMissing));
    let mut d = small();
    d.rcpus = Some(1);
    assert_eq!(d.render(), Err(EngineError::DescriptorTemplateMissing));
    d.preamble = Template::UltrascalePreamble;
    let text = d.render().unwrap();
    assert!(text.contains("\n\t.cpus = {\n\t\t0x6,\n\t},\n\n\t.rcpus = {\n\t\t0x1,\n\t},\n\n\t.fpga_regions"));
    assert!(text.contains("\t__u64 rcpus[1];\n\t__u32 fpga_regions[1];\n"));
}

#[test]
fn an_empty_descriptor_declares_empty_tables() {
    let d = Descriptor::new(Template::LinuxPreamble, "x".to_string());
    let text = d.render().unwrap();
    assert!(text.contains("mem_regions[0];"));
    assert!(text.contains("irqchips[0];"));
    assert!(text.contains("pci_devices[0];"));
    assert!(text.contains("stream_ids[0];"));
    assert!(text.contains(".mem_regions = {\n\n},\n\n};\n"));
}
