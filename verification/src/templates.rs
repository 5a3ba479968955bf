//! The templates of the descriptor: texts with `{placeholder}` tokens, one for
//! each kind of block that a descriptor can hold.

use vstd::prelude::*;

verus! {

/// The RAM of the guest, loadable and open to DMA.
pub const RAM_TEMPLATE: &'static str = "\n/* RAM */ {\n    .phys_start = {phys_start},\n    .virt_start = {virt_start},\n    .size = {size},\n    .flags = JAILHOUSE_MEM_READ | JAILHOUSE_MEM_WRITE |\n        JAILHOUSE_MEM_EXECUTE | JAILHOUSE_MEM_DMA |\n        JAILHOUSE_MEM_LOADABLE,\n},\n";

/// The first 64 KiB of the guest's RAM, where a guest expects them apart.
pub const RAM0_TEMPLATE: &'static str = "\n/* RAM */ {\n    .phys_start = {phys_start},\n    .virt_start = {virt_start},\n    .size = {size},\n    .flags = JAILHOUSE_MEM_READ | JAILHOUSE_MEM_WRITE |\n        JAILHOUSE_MEM_EXECUTE | JAILHOUSE_MEM_LOADABLE,\n},\n";

/// The UART, shared with the root cell.
pub const UART_TEMPLATE: &'static str = "\n/* UART */ {\n    .phys_start = {phys_start},\n    .virt_start = {virt_start},\n    .size = {size},\n    .flags = JAILHOUSE_MEM_READ | JAILHOUSE_MEM_WRITE |\n        JAILHOUSE_MEM_IO | JAILHOUSE_MEM_ROOTSHARED,\n},\n";

/// The communication region between hypervisor and guest.
pub const COMM_REGION_TEMPLATE: &'static str = "\n/* communication region */ {\n    .virt_start = 0x80000000,\n    .size = 0x00001000,\n    .flags = JAILHOUSE_MEM_READ | JAILHOUSE_MEM_WRITE |\n        JAILHOUSE_MEM_COMM_REGION,\n},\n";

/// The four shared-memory regions of a network channel.
pub const IVSHMEM_TEMPLATE: &'static str = "JAILHOUSE_SHMEM_NET_REGIONS({address}, 1),";

/// The five shared-memory regions of the demo channel.
pub const IVSHMEM_DEMO_TEMPLATE: &'static str = "\n/* IVSHMEM shared memory region for 00:00.0 (demo) */\n\t{\n\t.phys_start = 0x7f8f0000,\n\t.virt_start = 0x7f8f0000,\n\t.size = 0x1000,\n\t.flags = JAILHOUSE_MEM_READ | JAILHOUSE_MEM_ROOTSHARED,\n\t},\n\t{\n\t.phys_start = 0x7f8f1000,\n\t.virt_start = 0x7f8f1000,\n\t.size = 0x9000,\n\t.flags = JAILHOUSE_MEM_READ | JAILHOUSE_MEM_WRITE |\n\t\tJAILHOUSE_MEM_ROOTSHARED,\n\t},\n\t{\n\t.phys_start = 0x7f8fa000,\n\t.virt_start = 0x7f8fa000,\n\t.size = 0x2000,\n\t.flags = JAILHOUSE_MEM_READ | JAILHOUSE_MEM_ROOTSHARED,\n\t},\n\t{\n\t.phys_start = 0x7f8fc000,\n\t.virt_start = 0x7f8fc000,\n\t.size = 0x2000,\n\t.flags = JAILHOUSE_MEM_READ | JAILHOUSE_MEM_ROOTSHARED,\n\t},\n\t{\n\t.phys_start = 0x7f8fe000,\n\t.virt_start = 0x7f8fe000,\n\t.size = 0x2000,\n\t.flags = JAILHOUSE_MEM_READ | JAILHOUSE_MEM_WRITE |\n\t\tJAILHOUSE_MEM_ROOTSHARED,\n\t},\n";

/// The interrupt controller, with the virtual PCI and shared-memory pins.
pub const IRQ_CHIP_TEMPLATE: &'static str = "\n.irqchips = {\n\t/* GIC */ {\n\t\t.address = {gic_address},\n\t\t.pin_base = 32,\n\t\t.pin_bitmap = {\n\t\t\t1 << ({uart_pin} - 32),\n\t\t\t0,\n\t\t\t0,\n\t\t\t(1 << (140 - 128)) | (1 << ({ivshmem_pin} - 128))\n\t\t},\n\t},\n},\n";

/// The interrupt controller of a board, with the shared-memory pin.
pub const IRQ_CHIP_BOARD_TEMPLATE: &'static str = "\n.irqchips = {\n\t/* GIC */ {\n\t\t.address = {gic_address},\n\t\t.pin_base = 32,\n\t\t.pin_bitmap = {\n\t\t\t1 << ({uart_pin} - 32),\n\t\t\t0,\n\t\t\t0,\n\t\t\t(1 << ({ivshmem_pin} - 128))\n\t\t},\n\t},\n},\n";

/// The network channel.
pub const PCI_DEVICE_TEMPLATE: &'static str = "\n.pci_devices = {\n{ /* IVSHMEM 00:0{ivshmem_bdf}.0 (networking) */\n\t.type = JAILHOUSE_PCI_TYPE_IVSHMEM,\n\t.domain = 1, \n\t.bdf = {ivshmem_bdf} << 3,\n\t.bar_mask = JAILHOUSE_IVSHMEM_BAR_MASK_INTX,\n\t.shmem_regions_start = {shmem_regions_start},\n\t.shmem_dev_id = 1,\n\t.shmem_peers = 2,\n\t.shmem_protocol = JAILHOUSE_SHMEM_PROTO_VETH,\n},\n},\n";

/// The demo channel and the network channel.
pub const PCI_DEVICE_TEMPLATE_WITH_DEMO: &'static str = "\n.pci_devices = {\n{ /* IVSHMEM 00:00.0 (demo) */\n\t.type = JAILHOUSE_PCI_TYPE_IVSHMEM,\n\t.domain = 1,\n\t.bdf = 0 << 3,\n\t.bar_mask = JAILHOUSE_IVSHMEM_BAR_MASK_INTX,\n\t.shmem_regions_start = {demo_regions_start},\n\t.shmem_dev_id = {ivshmem_bdf},\n\t.shmem_peers = 3,\n\t.shmem_protocol = JAILHOUSE_SHMEM_PROTO_UNDEFINED,\n},\n{ /* IVSHMEM 00:0{ivshmem_bdf}.0 (networking) */\n\t.type = JAILHOUSE_PCI_TYPE_IVSHMEM,\n\t.domain = 1, \n\t.bdf = {ivshmem_bdf} << 3,\n\t.bar_mask = JAILHOUSE_IVSHMEM_BAR_MASK_INTX,\n\t.shmem_regions_start = {shmem_regions_start},\n\t.shmem_dev_id = 1,\n\t.shmem_peers = 2,\n\t.shmem_protocol = JAILHOUSE_SHMEM_PROTO_VETH,\n},\n},\n";

/// No PCI device.
pub const PCI_DEVICE_EMPTY_TEMPLATE: &'static str = "\n.pci_devices = {\n},\n";

/// Tightly coupled memory, bank A.
pub const TCMA_TEMPLATE: &'static str = "\n/* TCM 0-A */  {\n    .phys_start = {phys_start},\n    .virt_start = {virt_start},\n    .size = {size},\n    .flags = JAILHOUSE_MEM_READ | JAILHOUSE_MEM_WRITE |\n\t\tJAILHOUSE_MEM_EXECUTE | JAILHOUSE_MEM_LOADABLE | \n\t\tJAILHOUSE_MEM_TCM_A,\n},\n";

/// Tightly coupled memory, bank B.
pub const TCMB_TEMPLATE: &'static str = "\n/* TCM 0-B */  {\n    .phys_start = {phys_start},\n    .virt_start = {virt_start},\n    .size = {size},\n    .flags = JAILHOUSE_MEM_READ | JAILHOUSE_MEM_WRITE |\n\t\tJAILHOUSE_MEM_EXECUTE | JAILHOUSE_MEM_LOADABLE |\n\t\tJAILHOUSE_MEM_TCM_B,\n},\n";

/// The head of a descriptor for the emulated platform.
pub const QEMU_PREAMBLE_TEMPLATE: &'static str = "\n#include \"cell.h\"\n\nstruct {\n\tstruct jailhouse_cell_desc cell;\n\t__u64 cpus[1];\n{tables}} __attribute__((packed)) config = {\n\t.cell = {\n\t\t.signature = JAILHOUSE_CELL_DESC_SIGNATURE,\n\t\t.revision = JAILHOUSE_CONFIG_REVISION,\n\t\t.name = \"{containerid}\",\n\t\t.flags = JAILHOUSE_CELL_PASSIVE_COMMREG |\n\t\t\tJAILHOUSE_CELL_VIRTUAL_CONSOLE_PERMITTED,\n\n\t\t.cpu_set_size = sizeof(config.cpus),\n\t\t.num_memory_regions = ARRAY_SIZE(config.mem_regions),\n\t\t.num_irqchips = ARRAY_SIZE(config.irqchips),\n\t\t.num_pci_devices = ARRAY_SIZE(config.pci_devices),\n\n\t\t.vpci_irq_base = 140-32,\n\t\t.cpu_reset_address = 0x70000000,\n\n\t\t.console = {\n\t\t\t.address = 0x09000000,\n\t\t\t.type = JAILHOUSE_CON_TYPE_PL011,\n\t\t\t.flags = JAILHOUSE_CON_ACCESS_MMIO |\n\t\t\t\t JAILHOUSE_CON_REGDIST_4,\n\t\t},\n\t},\n";

/// The head of a descriptor for the UltraScale+ platform, which has auxiliary cores.
pub const ULTRASCALE_PREAMBLE_TEMPLATE: &'static str = "\n#include \"cell.h\"\n\nstruct {\n\tstruct jailhouse_cell_desc cell;\n\t__u64 cpus[1];\n\t__u64 rcpus[1];\n{tables}} __attribute__((packed)) config = {\n\t.cell = {\n\t\t.signature = JAILHOUSE_CELL_DESC_SIGNATURE,\n\t\t.revision = JAILHOUSE_CONFIG_REVISION,\n\t\t.architecture = JAILHOUSE_ARM64,\n\t\t.name = \"{containerid}\",\n\t\t.flags = JAILHOUSE_CELL_PASSIVE_COMMREG,\n\n\t\t.cpu_set_size = sizeof(config.cpus),\n\t\t.rcpu_set_size = sizeof(config.rcpus),\n\t\t.num_memory_regions = ARRAY_SIZE(config.mem_regions),\n\t\t.num_irqchips = ARRAY_SIZE(config.irqchips),\n\t\t.num_pci_devices = ARRAY_SIZE(config.pci_devices),\n\n\t\t.console = {\n\t\t\t.address = 0xff010000,\n\t\t\t.type = JAILHOUSE_CON_TYPE_XUARTPS,\n\t\t\t.flags = JAILHOUSE_CON_ACCESS_MMIO |\n\t\t\t\t JAILHOUSE_CON_REGDIST_4,\n\t\t},\n\t},\n";

/// A plain shared-memory window.
pub const SHM_TEMPLATE: &'static str = "\n/* SHM */ {\n\t.phys_start = 0x46d00000,\n\t.virt_start = 0x46d00000,\n\t.size = 0x10000,\n\t.flags = JAILHOUSE_MEM_READ | JAILHOUSE_MEM_WRITE |\n\t\tJAILHOUSE_MEM_ROOTSHARED, \n},\n";

/// The head of a descriptor for a Linux guest.
pub const LINUX_PREAMBLE_TEMPLATE: &'static str = "\n#include \"cell.h\"\n\nstruct {\n\tstruct jailhouse_cell_desc cell;\n\t__u64 cpus[1];\n{tables}} __attribute__((packed)) config = {\n\t.cell = {\n\t\t.signature = JAILHOUSE_CELL_DESC_SIGNATURE,\n\t\t.revision = JAILHOUSE_CONFIG_REVISION,\n\t\t.name = \"{containerid}\",\n\t\t.flags = JAILHOUSE_CELL_PASSIVE_COMMREG |\n\t\t\tJAILHOUSE_CELL_VIRTUAL_CONSOLE_PERMITTED,\n\n\t\t.cpu_set_size = sizeof(config.cpus),\n\t\t.num_memory_regions = ARRAY_SIZE(config.mem_regions),\n\t\t.num_irqchips = ARRAY_SIZE(config.irqchips),\n\t\t.num_pci_devices = ARRAY_SIZE(config.pci_devices),\n\n\t\t.vpci_irq_base = 140-32,\n\t},\n";

/// The interrupt controller of a guest without networking: the UART pin alone.
pub const IRQ_CHIP_PLAIN_TEMPLATE: &'static str = "\n.irqchips = {\n\t/* GIC */ {\n\t\t.address = {gic_address},\n\t\t.pin_base = 32,\n\t\t.pin_bitmap = {\n\t\t\t1 << ({uart_pin} - 32),\n\t\t\t0,\n\t\t\t0,\n\t\t\t0\n\t\t},\n\t},\n},\n";

/// The memory window of an accelerator.
pub const ACCEL_MEM_TEMPLATE: &'static str = "\n/* accelerator memory */ {\n    .phys_start = {phys_start},\n    .virt_start = {virt_start},\n    .size = {size},\n    .flags = JAILHOUSE_MEM_READ | JAILHOUSE_MEM_WRITE |\n        JAILHOUSE_MEM_EXECUTE | JAILHOUSE_MEM_LOADABLE,\n},\n";

/// The stream-ID table of a guest that holds an FPGA region.
pub const STREAM_ID_TEMPLATE: &'static str = "\n        .stream_ids = {\n                {\n                    .mmu500.id = 0x1280,\n                    .mmu500.mask_out = 0x3f, // Mask out bits 0..5\n                },\n            },\n        ";

/// The stream-ID table of a guest without FPGA regions.
pub const STREAM_ID_EMPTY_TEMPLATE: &'static str = "\n        .stream_ids = {\n            },\n        ";

/// The template of the given name, if there is one.
pub open spec fn template_text(name: Seq<char>) -> Option<Seq<char>> {
    if name == "RAM_TEMPLATE"@ {
        Some(RAM_TEMPLATE@)
    } else if name == "RAM0_TEMPLATE"@ {
        Some(RAM0_TEMPLATE@)
    } else if name == "UART_TEMPLATE"@ {
        Some(UART_TEMPLATE@)
    } else if name == "COMM_REGION_TEMPLATE"@ {
        Some(COMM_REGION_TEMPLATE@)
    } else if name == "IVSHMEM_TEMPLATE"@ {
        Some(IVSHMEM_TEMPLATE@)
    } else if name == "IVSHMEM_DEMO_TEMPLATE"@ {
        Some(IVSHMEM_DEMO_TEMPLATE@)
    } else if name == "IRQ_CHIP_TEMPLATE"@ {
        Some(IRQ_CHIP_TEMPLATE@)
    } else if name == "IRQ_CHIP_BOARD_TEMPLATE"@ {
        Some(IRQ_CHIP_BOARD_TEMPLATE@)
    } else if name == "PCI_DEVICE_TEMPLATE"@ {
        Some(PCI_DEVICE_TEMPLATE@)
    } else if name == "PCI_DEVICE_TEMPLATE_WITH_DEMO"@ {
        Some(PCI_DEVICE_TEMPLATE_WITH_DEMO@)
    } else if name == "PCI_DEVICE_EMPTY_TEMPLATE"@ {
        Some(PCI_DEVICE_EMPTY_TEMPLATE@)
    } else if name == "TCMA_TEMPLATE"@ {
        Some(TCMA_TEMPLATE@)
    } else if name == "TCMB_TEMPLATE"@ {
        Some(TCMB_TEMPLATE@)
    } else if name == "QEMU_PREAMBLE_TEMPLATE"@ {
        Some(QEMU_PREAMBLE_TEMPLATE@)
    } else if name == "ULTRASCALE_PREAMBLE_TEMPLATE"@ {
        Some(ULTRASCALE_PREAMBLE_TEMPLATE@)
    } else if name == "SHM_TEMPLATE"@ {
        Some(SHM_TEMPLATE@)
    } else if name == "LINUX_PREAMBLE_TEMPLATE"@ {
        Some(LINUX_PREAMBLE_TEMPLATE@)
    } else if name == "IRQ_CHIP_PLAIN_TEMPLATE"@ {
        Some(IRQ_CHIP_PLAIN_TEMPLATE@)
    } else if name == "ACCEL_MEM_TEMPLATE"@ {
        Some(ACCEL_MEM_TEMPLATE@)
    } else if name == "STREAM_ID_TEMPLATE"@ {
        Some(STREAM_ID_TEMPLATE@)
    } else if name == "STREAM_ID_EMPTY_TEMPLATE"@ {
        Some(STREAM_ID_EMPTY_TEMPLATE@)
    } else {
        None
    }
}

/// Every template with its name.
pub fn get_templates_map() -> (templates: Vec<(&'static str, &'static str)>)
    ensures
        templates.len() == 21,
        forall|i: int|
            0 <= i < templates.len() ==> template_text((#[trigger] templates[i]).0@) == Some(
                templates[i].1@,
            ),
        forall|name: Seq<char>|
            template_text(name) is Some ==> exists|i: int|
                0 <= i < templates.len() && (#[trigger] templates[i]).0@ == name,
        forall|i: int, j: int|
            0 <= i < j < templates.len() ==> (#[trigger] templates[i]).0@ != (
            #[trigger] templates[j]).0@,
{
    let mut templates: Vec<(&'static str, &'static str)> = Vec::new();

    templates.push(("RAM_TEMPLATE", RAM_TEMPLATE));
    templates.push(("RAM0_TEMPLATE", RAM0_TEMPLATE));
    templates.push(("UART_TEMPLATE", UART_TEMPLATE));
    templates.push(("COMM_REGION_TEMPLATE", COMM_REGION_TEMPLATE));
    templates.push(("IVSHMEM_TEMPLATE", IVSHMEM_TEMPLATE));
    templates.push(("IVSHMEM_DEMO_TEMPLATE", IVSHMEM_DEMO_TEMPLATE));
    templates.push(("IRQ_CHIP_TEMPLATE", IRQ_CHIP_TEMPLATE));
    templates.push(("IRQ_CHIP_BOARD_TEMPLATE", IRQ_CHIP_BOARD_TEMPLATE));
    templates.push(("PCI_DEVICE_TEMPLATE", PCI_DEVICE_TEMPLATE));
    templates.push(("PCI_DEVICE_TEMPLATE_WITH_DEMO", PCI_DEVICE_TEMPLATE_WITH_DEMO));
    templates.push(("PCI_DEVICE_EMPTY_TEMPLATE", PCI_DEVICE_EMPTY_TEMPLATE));
    templates.push(("TCMA_TEMPLATE", TCMA_TEMPLATE));
    templates.push(("TCMB_TEMPLATE", TCMB_TEMPLATE));
    templates.push(("QEMU_PREAMBLE_TEMPLATE", QEMU_PREAMBLE_TEMPLATE));
    templates.push(("ULTRASCALE_PREAMBLE_TEMPLATE", ULTRASCALE_PREAMBLE_TEMPLATE));
    templates.push(("SHM_TEMPLATE", SHM_TEMPLATE));
    templates.push(("LINUX_PREAMBLE_TEMPLATE", LINUX_PREAMBLE_TEMPLATE));
    templates.push(("IRQ_CHIP_PLAIN_TEMPLATE", IRQ_CHIP_PLAIN_TEMPLATE));
    templates.push(("ACCEL_MEM_TEMPLATE", ACCEL_MEM_TEMPLATE));
    templates.push(("STREAM_ID_TEMPLATE", STREAM_ID_TEMPLATE));
    templates.push(("STREAM_ID_EMPTY_TEMPLATE", STREAM_ID_EMPTY_TEMPLATE));
    proof {
        lemma_names_differ();
        assert(templates[0].0@ == "RAM_TEMPLATE"@);
        assert(templates[1].0@ == "RAM0_TEMPLATE"@);
        assert(templates[2].0@ == "UART_TEMPLATE"@);
        assert(templates[3].0@ == "COMM_REGION_TEMPLATE"@);
        assert(templates[4].0@ == "IVSHMEM_TEMPLATE"@);
        assert(templates[5].0@ == "IVSHMEM_DEMO_TEMPLATE"@);
        assert(templates[6].0@ == "IRQ_CHIP_TEMPLATE"@);
        assert(templates[7].0@ == "IRQ_CHIP_BOARD_TEMPLATE"@);
        assert(templates[8].0@ == "PCI_DEVICE_TEMPLATE"@);
        assert(templates[9].0@ == "PCI_DEVICE_TEMPLATE_WITH_DEMO"@);
        assert(templates[10].0@ == "PCI_DEVICE_EMPTY_TEMPLATE"@);
        assert(templates[11].0@ == "TCMA_TEMPLATE"@);
        assert(templates[12].0@ == "TCMB_TEMPLATE"@);
        assert(templates[13].0@ == "QEMU_PREAMBLE_TEMPLATE"@);
        assert(templates[14].0@ == "ULTRASCALE_PREAMBLE_TEMPLATE"@);
        assert(templates[15].0@ == "SHM_TEMPLATE"@);
        assert(templates[16].0@ == "LINUX_PREAMBLE_TEMPLATE"@);
        assert(templates[17].0@ == "IRQ_CHIP_PLAIN_TEMPLATE"@);
        assert(templates[18].0@ == "ACCEL_MEM_TEMPLATE"@);
        assert(templates[19].0@ == "STREAM_ID_TEMPLATE"@);
        assert(templates[20].0@ == "STREAM_ID_EMPTY_TEMPLATE"@);
    }
    templates
}

/// The names of the templates differ from each other.
pub proof fn lemma_names_differ()
    ensures

        "RAM_TEMPLATE"@ != "RAM0_TEMPLATE"@,
        "RAM_TEMPLATE"@ != "UART_TEMPLATE"@,
        "RAM_TEMPLATE"@ != "COMM_REGION_TEMPLATE"@,
        "RAM_TEMPLATE"@ != "IVSHMEM_TEMPLATE"@,
        "RAM_TEMPLATE"@ != "IVSHMEM_DEMO_TEMPLATE"@,
        "RAM_TEMPLATE"@ != "IRQ_CHIP_TEMPLATE"@,
        "RAM_TEMPLATE"@ != "IRQ_CHIP_BOARD_TEMPLATE"@,
        "RAM_TEMPLATE"@ != "PCI_DEVICE_TEMPLATE"@,
        "RAM_TEMPLATE"@ != "PCI_DEVICE_TEMPLATE_WITH_DEMO"@,
        "RAM_TEMPLATE"@ != "PCI_DEVICE_EMPTY_TEMPLATE"@,
        "RAM_TEMPLATE"@ != "TCMA_TEMPLATE"@,
        "RAM_TEMPLATE"@ != "TCMB_TEMPLATE"@,
        "RAM_TEMPLATE"@ != "QEMU_PREAMBLE_TEMPLATE"@,
        "RAM_TEMPLATE"@ != "ULTRASCALE_PREAMBLE_TEMPLATE"@,
        "RAM_TEMPLATE"@ != "SHM_TEMPLATE"@,
        "RAM_TEMPLATE"@ != "LINUX_PREAMBLE_TEMPLATE"@,
        "RAM_TEMPLATE"@ != "IRQ_CHIP_PLAIN_TEMPLATE"@,
        "RAM_TEMPLATE"@ != "ACCEL_MEM_TEMPLATE"@,
        "RAM_TEMPLATE"@ != "STREAM_ID_TEMPLATE"@,
        "RAM_TEMPLATE"@ != "STREAM_ID_EMPTY_TEMPLATE"@,
        "RAM0_TEMPLATE"@ != "UART_TEMPLATE"@,
        "RAM0_TEMPLATE"@ != "COMM_REGION_TEMPLATE"@,
        "RAM0_TEMPLATE"@ != "IVSHMEM_TEMPLATE"@,
        "RAM0_TEMPLATE"@ != "IVSHMEM_DEMO_TEMPLATE"@,
        "RAM0_TEMPLATE"@ != "IRQ_CHIP_TEMPLATE"@,
        "RAM0_TEMPLATE"@ != "IRQ_CHIP_BOARD_TEMPLATE"@,
        "RAM0_TEMPLATE"@ != "PCI_DEVICE_TEMPLATE"@,
        "RAM0_TEMPLATE"@ != "PCI_DEVICE_TEMPLATE_WITH_DEMO"@,
        "RAM0_TEMPLATE"@ != "PCI_DEVICE_EMPTY_TEMPLATE"@,
        "RAM0_TEMPLATE"@ != "TCMA_TEMPLATE"@,
        "RAM0_TEMPLATE"@ != "TCMB_TEMPLATE"@,
        "RAM0_TEMPLATE"@ != "QEMU_PREAMBLE_TEMPLATE"@,
        "RAM0_TEMPLATE"@ != "ULTRASCALE_PREAMBLE_TEMPLATE"@,
        "RAM0_TEMPLATE"@ != "SHM_TEMPLATE"@,
        "RAM0_TEMPLATE"@ != "LINUX_PREAMBLE_TEMPLATE"@,
        "RAM0_TEMPLATE"@ != "IRQ_CHIP_PLAIN_TEMPLATE"@,
        "RAM0_TEMPLATE"@ != "ACCEL_MEM_TEMPLATE"@,
        "RAM0_TEMPLATE"@ != "STREAM_ID_TEMPLATE"@,
        "RAM0_TEMPLATE"@ != "STREAM_ID_EMPTY_TEMPLATE"@,
        "UART_TEMPLATE"@ != "COMM_REGION_TEMPLATE"@,
        "UART_TEMPLATE"@ != "IVSHMEM_TEMPLATE"@,
        "UART_TEMPLATE"@ != "IVSHMEM_DEMO_TEMPLATE"@,
        "UART_TEMPLATE"@ != "IRQ_CHIP_TEMPLATE"@,
        "UART_TEMPLATE"@ != "IRQ_CHIP_BOARD_TEMPLATE"@,
        "UART_TEMPLATE"@ != "PCI_DEVICE_TEMPLATE"@,
        "UART_TEMPLATE"@ != "PCI_DEVICE_TEMPLATE_WITH_DEMO"@,
        "UART_TEMPLATE"@ != "PCI_DEVICE_EMPTY_TEMPLATE"@,
        "UART_TEMPLATE"@ != "TCMA_TEMPLATE"@,
        "UART_TEMPLATE"@ != "TCMB_TEMPLATE"@,
        "UART_TEMPLATE"@ != "QEMU_PREAMBLE_TEMPLATE"@,
        "UART_TEMPLATE"@ != "ULTRASCALE_PREAMBLE_TEMPLATE"@,
        "UART_TEMPLATE"@ != "SHM_TEMPLATE"@,
        "UART_TEMPLATE"@ != "LINUX_PREAMBLE_TEMPLATE"@,
        "UART_TEMPLATE"@ != "IRQ_CHIP_PLAIN_TEMPLATE"@,
        "UART_TEMPLATE"@ != "ACCEL_MEM_TEMPLATE"@,
        "UART_TEMPLATE"@ != "STREAM_ID_TEMPLATE"@,
        "UART_TEMPLATE"@ != "STREAM_ID_EMPTY_TEMPLATE"@,
        "COMM_REGION_TEMPLATE"@ != "IVSHMEM_TEMPLATE"@,
        "COMM_REGION_TEMPLATE"@ != "IVSHMEM_DEMO_TEMPLATE"@,
        "COMM_REGION_TEMPLATE"@ != "IRQ_CHIP_TEMPLATE"@,
        "COMM_REGION_TEMPLATE"@ != "IRQ_CHIP_BOARD_TEMPLATE"@,
        "COMM_REGION_TEMPLATE"@ != "PCI_DEVICE_TEMPLATE"@,
        "COMM_REGION_TEMPLATE"@ != "PCI_DEVICE_TEMPLATE_WITH_DEMO"@,
        "COMM_REGION_TEMPLATE"@ != "PCI_DEVICE_EMPTY_TEMPLATE"@,
        "COMM_REGION_TEMPLATE"@ != "TCMA_TEMPLATE"@,
        "COMM_REGION_TEMPLATE"@ != "TCMB_TEMPLATE"@,
        "COMM_REGION_TEMPLATE"@ != "QEMU_PREAMBLE_TEMPLATE"@,
        "COMM_REGION_TEMPLATE"@ != "ULTRASCALE_PREAMBLE_TEMPLATE"@,
        "COMM_REGION_TEMPLATE"@ != "SHM_TEMPLATE"@,
        "COMM_REGION_TEMPLATE"@ != "LINUX_PREAMBLE_TEMPLATE"@,
        "COMM_REGION_TEMPLATE"@ != "IRQ_CHIP_PLAIN_TEMPLATE"@,
        "COMM_REGION_TEMPLATE"@ != "ACCEL_MEM_TEMPLATE"@,
        "COMM_REGION_TEMPLATE"@ != "STREAM_ID_TEMPLATE"@,
        "COMM_REGION_TEMPLATE"@ != "STREAM_ID_EMPTY_TEMPLATE"@,
        "IVSHMEM_TEMPLATE"@ != "IVSHMEM_DEMO_TEMPLATE"@,
        "IVSHMEM_TEMPLATE"@ != "IRQ_CHIP_TEMPLATE"@,
        "IVSHMEM_TEMPLATE"@ != "IRQ_CHIP_BOARD_TEMPLATE"@,
        "IVSHMEM_TEMPLATE"@ != "PCI_DEVICE_TEMPLATE"@,
        "IVSHMEM_TEMPLATE"@ != "PCI_DEVICE_TEMPLATE_WITH_DEMO"@,
        "IVSHMEM_TEMPLATE"@ != "PCI_DEVICE_EMPTY_TEMPLATE"@,
        "IVSHMEM_TEMPLATE"@ != "TCMA_TEMPLATE"@,
        "IVSHMEM_TEMPLATE"@ != "TCMB_TEMPLATE"@,
        "IVSHMEM_TEMPLATE"@ != "QEMU_PREAMBLE_TEMPLATE"@,
        "IVSHMEM_TEMPLATE"@ != "ULTRASCALE_PREAMBLE_TEMPLATE"@,
        "IVSHMEM_TEMPLATE"@ != "SHM_TEMPLATE"@,
        "IVSHMEM_TEMPLATE"@ != "LINUX_PREAMBLE_TEMPLATE"@,
        "IVSHMEM_TEMPLATE"@ != "IRQ_CHIP_PLAIN_TEMPLATE"@,
        "IVSHMEM_TEMPLATE"@ != "ACCEL_MEM_TEMPLATE"@,
        "IVSHMEM_TEMPLATE"@ != "STREAM_ID_TEMPLATE"@,
        "IVSHMEM_TEMPLATE"@ != "STREAM_ID_EMPTY_TEMPLATE"@,
        "IVSHMEM_DEMO_TEMPLATE"@ != "IRQ_CHIP_TEMPLATE"@,
        "IVSHMEM_DEMO_TEMPLATE"@ != "IRQ_CHIP_BOARD_TEMPLATE"@,
        "IVSHMEM_DEMO_TEMPLATE"@ != "PCI_DEVICE_TEMPLATE"@,
        "IVSHMEM_DEMO_TEMPLATE"@ != "PCI_DEVICE_TEMPLATE_WITH_DEMO"@,
        "IVSHMEM_DEMO_TEMPLATE"@ != "PCI_DEVICE_EMPTY_TEMPLATE"@,
        "IVSHMEM_DEMO_TEMPLATE"@ != "TCMA_TEMPLATE"@,
        "IVSHMEM_DEMO_TEMPLATE"@ != "TCMB_TEMPLATE"@,
        "IVSHMEM_DEMO_TEMPLATE"@ != "QEMU_PREAMBLE_TEMPLATE"@,
        "IVSHMEM_DEMO_TEMPLATE"@ != "ULTRASCALE_PREAMBLE_TEMPLATE"@,
        "IVSHMEM_DEMO_TEMPLATE"@ != "SHM_TEMPLATE"@,
        "IVSHMEM_DEMO_TEMPLATE"@ != "LINUX_PREAMBLE_TEMPLATE"@,
        "IVSHMEM_DEMO_TEMPLATE"@ != "IRQ_CHIP_PLAIN_TEMPLATE"@,
        "IVSHMEM_DEMO_TEMPLATE"@ != "ACCEL_MEM_TEMPLATE"@,
        "IVSHMEM_DEMO_TEMPLATE"@ != "STREAM_ID_TEMPLATE"@,
        "IVSHMEM_DEMO_TEMPLATE"@ != "STREAM_ID_EMPTY_TEMPLATE"@,
        "IRQ_CHIP_TEMPLATE"@ != "IRQ_CHIP_BOARD_TEMPLATE"@,
        "IRQ_CHIP_TEMPLATE"@ != "PCI_DEVICE_TEMPLATE"@,
        "IRQ_CHIP_TEMPLATE"@ != "PCI_DEVICE_TEMPLATE_WITH_DEMO"@,
        "IRQ_CHIP_TEMPLATE"@ != "PCI_DEVICE_EMPTY_TEMPLATE"@,
        "IRQ_CHIP_TEMPLATE"@ != "TCMA_TEMPLATE"@,
        "IRQ_CHIP_TEMPLATE"@ != "TCMB_TEMPLATE"@,
        "IRQ_CHIP_TEMPLATE"@ != "QEMU_PREAMBLE_TEMPLATE"@,
        "IRQ_CHIP_TEMPLATE"@ != "ULTRASCALE_PREAMBLE_TEMPLATE"@,
        "IRQ_CHIP_TEMPLATE"@ != "SHM_TEMPLATE"@,
        "IRQ_CHIP_TEMPLATE"@ != "LINUX_PREAMBLE_TEMPLATE"@,
        "IRQ_CHIP_TEMPLATE"@ != "IRQ_CHIP_PLAIN_TEMPLATE"@,
        "IRQ_CHIP_TEMPLATE"@ != "ACCEL_MEM_TEMPLATE"@,
        "IRQ_CHIP_TEMPLATE"@ != "STREAM_ID_TEMPLATE"@,
        "IRQ_CHIP_TEMPLATE"@ != "STREAM_ID_EMPTY_TEMPLATE"@,
        "IRQ_CHIP_BOARD_TEMPLATE"@ != "PCI_DEVICE_TEMPLATE"@,
        "IRQ_CHIP_BOARD_TEMPLATE"@ != "PCI_DEVICE_TEMPLATE_WITH_DEMO"@,
        "IRQ_CHIP_BOARD_TEMPLATE"@ != "PCI_DEVICE_EMPTY_TEMPLATE"@,
        "IRQ_CHIP_BOARD_TEMPLATE"@ != "TCMA_TEMPLATE"@,
        "IRQ_CHIP_BOARD_TEMPLATE"@ != "TCMB_TEMPLATE"@,
        "IRQ_CHIP_BOARD_TEMPLATE"@ != "QEMU_PREAMBLE_TEMPLATE"@,
        "IRQ_CHIP_BOARD_TEMPLATE"@ != "ULTRASCALE_PREAMBLE_TEMPLATE"@,
        "IRQ_CHIP_BOARD_TEMPLATE"@ != "SHM_TEMPLATE"@,
        "IRQ_CHIP_BOARD_TEMPLATE"@ != "LINUX_PREAMBLE_TEMPLATE"@,
        "IRQ_CHIP_BOARD_TEMPLATE"@ != "IRQ_CHIP_PLAIN_TEMPLATE"@,
        "IRQ_CHIP_BOARD_TEMPLATE"@ != "ACCEL_MEM_TEMPLATE"@,
        "IRQ_CHIP_BOARD_TEMPLATE"@ != "STREAM_ID_TEMPLATE"@,
        "IRQ_CHIP_BOARD_TEMPLATE"@ != "STREAM_ID_EMPTY_TEMPLATE"@,
        "PCI_DEVICE_TEMPLATE"@ != "PCI_DEVICE_TEMPLATE_WITH_DEMO"@,
        "PCI_DEVICE_TEMPLATE"@ != "PCI_DEVICE_EMPTY_TEMPLATE"@,
        "PCI_DEVICE_TEMPLATE"@ != "TCMA_TEMPLATE"@,
        "PCI_DEVICE_TEMPLATE"@ != "TCMB_TEMPLATE"@,
        "PCI_DEVICE_TEMPLATE"@ != "QEMU_PREAMBLE_TEMPLATE"@,
        "PCI_DEVICE_TEMPLATE"@ != "ULTRASCALE_PREAMBLE_TEMPLATE"@,
        "PCI_DEVICE_TEMPLATE"@ != "SHM_TEMPLATE"@,
        "PCI_DEVICE_TEMPLATE"@ != "LINUX_PREAMBLE_TEMPLATE"@,
        "PCI_DEVICE_TEMPLATE"@ != "IRQ_CHIP_PLAIN_TEMPLATE"@,
        "PCI_DEVICE_TEMPLATE"@ != "ACCEL_MEM_TEMPLATE"@,
        "PCI_DEVICE_TEMPLATE"@ != "STREAM_ID_TEMPLATE"@,
        "PCI_DEVICE_TEMPLATE"@ != "STREAM_ID_EMPTY_TEMPLATE"@,
        "PCI_DEVICE_TEMPLATE_WITH_DEMO"@ != "PCI_DEVICE_EMPTY_TEMPLATE"@,
        "PCI_DEVICE_TEMPLATE_WITH_DEMO"@ != "TCMA_TEMPLATE"@,
        "PCI_DEVICE_TEMPLATE_WITH_DEMO"@ != "TCMB_TEMPLATE"@,
        "PCI_DEVICE_TEMPLATE_WITH_DEMO"@ != "QEMU_PREAMBLE_TEMPLATE"@,
        "PCI_DEVICE_TEMPLATE_WITH_DEMO"@ != "ULTRASCALE_PREAMBLE_TEMPLATE"@,
        "PCI_DEVICE_TEMPLATE_WITH_DEMO"@ != "SHM_TEMPLATE"@,
        "PCI_DEVICE_TEMPLATE_WITH_DEMO"@ != "LINUX_PREAMBLE_TEMPLATE"@,
        "PCI_DEVICE_TEMPLATE_WITH_DEMO"@ != "IRQ_CHIP_PLAIN_TEMPLATE"@,
        "PCI_DEVICE_TEMPLATE_WITH_DEMO"@ != "ACCEL_MEM_TEMPLATE"@,
        "PCI_DEVICE_TEMPLATE_WITH_DEMO"@ != "STREAM_ID_TEMPLATE"@,
        "PCI_DEVICE_TEMPLATE_WITH_DEMO"@ != "STREAM_ID_EMPTY_TEMPLATE"@,
        "PCI_DEVICE_EMPTY_TEMPLATE"@ != "TCMA_TEMPLATE"@,
        "PCI_DEVICE_EMPTY_TEMPLATE"@ != "TCMB_TEMPLATE"@,
        "PCI_DEVICE_EMPTY_TEMPLATE"@ != "QEMU_PREAMBLE_TEMPLATE"@,
        "PCI_DEVICE_EMPTY_TEMPLATE"@ != "ULTRASCALE_PREAMBLE_TEMPLATE"@,
        "PCI_DEVICE_EMPTY_TEMPLATE"@ != "SHM_TEMPLATE"@,
        "PCI_DEVICE_EMPTY_TEMPLATE"@ != "LINUX_PREAMBLE_TEMPLATE"@,
        "PCI_DEVICE_EMPTY_TEMPLATE"@ != "IRQ_CHIP_PLAIN_TEMPLATE"@,
        "PCI_DEVICE_EMPTY_TEMPLATE"@ != "ACCEL_MEM_TEMPLATE"@,
        "PCI_DEVICE_EMPTY_TEMPLATE"@ != "STREAM_ID_TEMPLATE"@,
        "PCI_DEVICE_EMPTY_TEMPLATE"@ != "STREAM_ID_EMPTY_TEMPLATE"@,
        "TCMA_TEMPLATE"@ != "TCMB_TEMPLATE"@,
        "TCMA_TEMPLATE"@ != "QEMU_PREAMBLE_TEMPLATE"@,
        "TCMA_TEMPLATE"@ != "ULTRASCALE_PREAMBLE_TEMPLATE"@,
        "TCMA_TEMPLATE"@ != "SHM_TEMPLATE"@,
        "TCMA_TEMPLATE"@ != "LINUX_PREAMBLE_TEMPLATE"@,
        "TCMA_TEMPLATE"@ != "IRQ_CHIP_PLAIN_TEMPLATE"@,
        "TCMA_TEMPLATE"@ != "ACCEL_MEM_TEMPLATE"@,
        "TCMA_TEMPLATE"@ != "STREAM_ID_TEMPLATE"@,
        "TCMA_TEMPLATE"@ != "STREAM_ID_EMPTY_TEMPLATE"@,
        "TCMB_TEMPLATE"@ != "QEMU_PREAMBLE_TEMPLATE"@,
        "TCMB_TEMPLATE"@ != "ULTRASCALE_PREAMBLE_TEMPLATE"@,
        "TCMB_TEMPLATE"@ != "SHM_TEMPLATE"@,
        "TCMB_TEMPLATE"@ != "LINUX_PREAMBLE_TEMPLATE"@,
        "TCMB_TEMPLATE"@ != "IRQ_CHIP_PLAIN_TEMPLATE"@,
        "TCMB_TEMPLATE"@ != "ACCEL_MEM_TEMPLATE"@,
        "TCMB_TEMPLATE"@ != "STREAM_ID_TEMPLATE"@,
        "TCMB_TEMPLATE"@ != "STREAM_ID_EMPTY_TEMPLATE"@,
        "QEMU_PREAMBLE_TEMPLATE"@ != "ULTRASCALE_PREAMBLE_TEMPLATE"@,
        "QEMU_PREAMBLE_TEMPLATE"@ != "SHM_TEMPLATE"@,
        "QEMU_PREAMBLE_TEMPLATE"@ != "LINUX_PREAMBLE_TEMPLATE"@,
        "QEMU_PREAMBLE_TEMPLATE"@ != "IRQ_CHIP_PLAIN_TEMPLATE"@,
        "QEMU_PREAMBLE_TEMPLATE"@ != "ACCEL_MEM_TEMPLATE"@,
        "QEMU_PREAMBLE_TEMPLATE"@ != "STREAM_ID_TEMPLATE"@,
        "QEMU_PREAMBLE_TEMPLATE"@ != "STREAM_ID_EMPTY_TEMPLATE"@,
        "ULTRASCALE_PREAMBLE_TEMPLATE"@ != "SHM_TEMPLATE"@,
        "ULTRASCALE_PREAMBLE_TEMPLATE"@ != "LINUX_PREAMBLE_TEMPLATE"@,
        "ULTRASCALE_PREAMBLE_TEMPLATE"@ != "IRQ_CHIP_PLAIN_TEMPLATE"@,
        "ULTRASCALE_PREAMBLE_TEMPLATE"@ != "ACCEL_MEM_TEMPLATE"@,
        "ULTRASCALE_PREAMBLE_TEMPLATE"@ != "STREAM_ID_TEMPLATE"@,
        "ULTRASCALE_PREAMBLE_TEMPLATE"@ != "STREAM_ID_EMPTY_TEMPLATE"@,
        "SHM_TEMPLATE"@ != "LINUX_PREAMBLE_TEMPLATE"@,
        "SHM_TEMPLATE"@ != "IRQ_CHIP_PLAIN_TEMPLATE"@,
        "SHM_TEMPLATE"@ != "ACCEL_MEM_TEMPLATE"@,
        "SHM_TEMPLATE"@ != "STREAM_ID_TEMPLATE"@,
        "SHM_TEMPLATE"@ != "STREAM_ID_EMPTY_TEMPLATE"@,
        "LINUX_PREAMBLE_TEMPLATE"@ != "IRQ_CHIP_PLAIN_TEMPLATE"@,
        "LINUX_PREAMBLE_TEMPLATE"@ != "ACCEL_MEM_TEMPLATE"@,
        "LINUX_PREAMBLE_TEMPLATE"@ != "STREAM_ID_TEMPLATE"@,
        "LINUX_PREAMBLE_TEMPLATE"@ != "STREAM_ID_EMPTY_TEMPLATE"@,
        "IRQ_CHIP_PLAIN_TEMPLATE"@ != "ACCEL_MEM_TEMPLATE"@,
        "IRQ_CHIP_PLAIN_TEMPLATE"@ != "STREAM_ID_TEMPLATE"@,
        "IRQ_CHIP_PLAIN_TEMPLATE"@ != "STREAM_ID_EMPTY_TEMPLATE"@,
        "ACCEL_MEM_TEMPLATE"@ != "STREAM_ID_TEMPLATE"@,
        "ACCEL_MEM_TEMPLATE"@ != "STREAM_ID_EMPTY_TEMPLATE"@,
        "STREAM_ID_TEMPLATE"@ != "STREAM_ID_EMPTY_TEMPLATE"@,
{
    reveal_strlit("RAM_TEMPLATE");
    reveal_strlit("RAM0_TEMPLATE");
    reveal_strlit("UART_TEMPLATE");
    reveal_strlit("COMM_REGION_TEMPLATE");
    reveal_strlit("IVSHMEM_TEMPLATE");
    reveal_strlit("IVSHMEM_DEMO_TEMPLATE");
    reveal_strlit("IRQ_CHIP_TEMPLATE");
    reveal_strlit("IRQ_CHIP_BOARD_TEMPLATE");
    reveal_strlit("PCI_DEVICE_TEMPLATE");
    reveal_strlit("PCI_DEVICE_TEMPLATE_WITH_DEMO");
    reveal_strlit("PCI_DEVICE_EMPTY_TEMPLATE");
    reveal_strlit("TCMA_TEMPLATE");
    reveal_strlit("TCMB_TEMPLATE");
    reveal_strlit("QEMU_PREAMBLE_TEMPLATE");
    reveal_strlit("ULTRASCALE_PREAMBLE_TEMPLATE");
    reveal_strlit("SHM_TEMPLATE");
    reveal_strlit("LINUX_PREAMBLE_TEMPLATE");
    reveal_strlit("IRQ_CHIP_PLAIN_TEMPLATE");
    reveal_strlit("ACCEL_MEM_TEMPLATE");
    reveal_strlit("STREAM_ID_TEMPLATE");
    reveal_strlit("STREAM_ID_EMPTY_TEMPLATE");

    assert("RAM_TEMPLATE"@.len() != "RAM0_TEMPLATE"@.len());
    assert("RAM_TEMPLATE"@.len() != "UART_TEMPLATE"@.len());
    assert("RAM_TEMPLATE"@.len() != "COMM_REGION_TEMPLATE"@.len());
    assert("RAM_TEMPLATE"@.len() != "IVSHMEM_TEMPLATE"@.len());
    assert("RAM_TEMPLATE"@.len() != "IVSHMEM_DEMO_TEMPLATE"@.len());
    assert("RAM_TEMPLATE"@.len() != "IRQ_CHIP_TEMPLATE"@.len());
    assert("RAM_TEMPLATE"@.len() != "IRQ_CHIP_BOARD_TEMPLATE"@.len());
    assert("RAM_TEMPLATE"@.len() != "PCI_DEVICE_TEMPLATE"@.len());
    assert("RAM_TEMPLATE"@.len() != "PCI_DEVICE_TEMPLATE_WITH_DEMO"@.len());
    assert("RAM_TEMPLATE"@.len() != "PCI_DEVICE_EMPTY_TEMPLATE"@.len());
    assert("RAM_TEMPLATE"@.len() != "TCMA_TEMPLATE"@.len());
    assert("RAM_TEMPLATE"@.len() != "TCMB_TEMPLATE"@.len());
    assert("RAM_TEMPLATE"@.len() != "QEMU_PREAMBLE_TEMPLATE"@.len());
    assert("RAM_TEMPLATE"@.len() != "ULTRASCALE_PREAMBLE_TEMPLATE"@.len());
    assert("RAM_TEMPLATE"@[0] != "SHM_TEMPLATE"@[0]);
    assert("RAM_TEMPLATE"@.len() != "LINUX_PREAMBLE_TEMPLATE"@.len());
    assert("RAM_TEMPLATE"@.len() != "IRQ_CHIP_PLAIN_TEMPLATE"@.len());
    assert("RAM_TEMPLATE"@.len() != "ACCEL_MEM_TEMPLATE"@.len());
    assert("RAM_TEMPLATE"@.len() != "STREAM_ID_TEMPLATE"@.len());
    assert("RAM_TEMPLATE"@.len() != "STREAM_ID_EMPTY_TEMPLATE"@.len());
    assert("RAM0_TEMPLATE"@[0] != "UART_TEMPLATE"@[0]);
    assert("RAM0_TEMPLATE"@.len() != "COMM_REGION_TEMPLATE"@.len());
    assert("RAM0_TEMPLATE"@.len() != "IVSHMEM_TEMPLATE"@.len());
    assert("RAM0_TEMPLATE"@.len() != "IVSHMEM_DEMO_TEMPLATE"@.len());
    assert("RAM0_TEMPLATE"@.len() != "IRQ_CHIP_TEMPLATE"@.len());
    assert("RAM0_TEMPLATE"@.len() != "IRQ_CHIP_BOARD_TEMPLATE"@.len());
    assert("RAM0_TEMPLATE"@.len() != "PCI_DEVICE_TEMPLATE"@.len());
    assert("RAM0_TEMPLATE"@.len() != "PCI_DEVICE_TEMPLATE_WITH_DEMO"@.len());
    assert("RAM0_TEMPLATE"@.len() != "PCI_DEVICE_EMPTY_TEMPLATE"@.len());
    assert("RAM0_TEMPLATE"@[0] != "TCMA_TEMPLATE"@[0]);
    assert("RAM0_TEMPLATE"@[0] != "TCMB_TEMPLATE"@[0]);
    assert("RAM0_TEMPLATE"@.len() != "QEMU_PREAMBLE_TEMPLATE"@.len());
    assert("RAM0_TEMPLATE"@.len() != "ULTRASCALE_PREAMBLE_TEMPLATE"@.len());
    assert("RAM0_TEMPLATE"@.len() != "SHM_TEMPLATE"@.len());
    assert("RAM0_TEMPLATE"@.len() != "LINUX_PREAMBLE_TEMPLATE"@.len());
    assert("RAM0_TEMPLATE"@.len() != "IRQ_CHIP_PLAIN_TEMPLATE"@.len());
    assert("RAM0_TEMPLATE"@.len() != "ACCEL_MEM_TEMPLATE"@.len());
    assert("RAM0_TEMPLATE"@.len() != "STREAM_ID_TEMPLATE"@.len());
    assert("RAM0_TEMPLATE"@.len() != "STREAM_ID_EMPTY_TEMPLATE"@.len());
    assert("UART_TEMPLATE"@.len() != "COMM_REGION_TEMPLATE"@.len());
    assert("UART_TEMPLATE"@.len() != "IVSHMEM_TEMPLATE"@.len());
    assert("UART_TEMPLATE"@.len() != "IVSHMEM_DEMO_TEMPLATE"@.len());
    assert("UART_TEMPLATE"@.len() != "IRQ_CHIP_TEMPLATE"@.len());
    assert("UART_TEMPLATE"@.len() != "IRQ_CHIP_BOARD_TEMPLATE"@.len());
    assert("UART_TEMPLATE"@.len() != "PCI_DEVICE_TEMPLATE"@.len());
    assert("UART_TEMPLATE"@.len() != "PCI_DEVICE_TEMPLATE_WITH_DEMO"@.len());
    assert("UART_TEMPLATE"@.len() != "PCI_DEVICE_EMPTY_TEMPLATE"@.len());
    assert("UART_TEMPLATE"@[0] != "TCMA_TEMPLATE"@[0]);
    assert("UART_TEMPLATE"@[0] != "TCMB_TEMPLATE"@[0]);
    assert("UART_TEMPLATE"@.len() != "QEMU_PREAMBLE_TEMPLATE"@.len());
    assert("UART_TEMPLATE"@.len() != "ULTRASCALE_PREAMBLE_TEMPLATE"@.len());
    assert("UART_TEMPLATE"@.len() != "SHM_TEMPLATE"@.len());
    assert("UART_TEMPLATE"@.len() != "LINUX_PREAMBLE_TEMPLATE"@.len());
    assert("UART_TEMPLATE"@.len() != "IRQ_CHIP_PLAIN_TEMPLATE"@.len());
    assert("UART_TEMPLATE"@.len() != "ACCEL_MEM_TEMPLATE"@.len());
    assert("UART_TEMPLATE"@.len() != "STREAM_ID_TEMPLATE"@.len());
    assert("UART_TEMPLATE"@.len() != "STREAM_ID_EMPTY_TEMPLATE"@.len());
    assert("COMM_REGION_TEMPLATE"@.len() != "IVSHMEM_TEMPLATE"@.len());
    assert("COMM_REGION_TEMPLATE"@.len() != "IVSHMEM_DEMO_TEMPLATE"@.len());
    assert("COMM_REGION_TEMPLATE"@.len() != "IRQ_CHIP_TEMPLATE"@.len());
    assert("COMM_REGION_TEMPLATE"@.len() != "IRQ_CHIP_BOARD_TEMPLATE"@.len());
    assert("COMM_REGION_TEMPLATE"@.len() != "PCI_DEVICE_TEMPLATE"@.len());
    assert("COMM_REGION_TEMPLATE"@.len() != "PCI_DEVICE_TEMPLATE_WITH_DEMO"@.len());
    assert("COMM_REGION_TEMPLATE"@.len() != "PCI_DEVICE_EMPTY_TEMPLATE"@.len());
    assert("COMM_REGION_TEMPLATE"@.len() != "TCMA_TEMPLATE"@.len());
    assert("COMM_REGION_TEMPLATE"@.len() != "TCMB_TEMPLATE"@.len());
    assert("COMM_REGION_TEMPLATE"@.len() != "QEMU_PREAMBLE_TEMPLATE"@.len());
    assert("COMM_REGION_TEMPLATE"@.len() != "ULTRASCALE_PREAMBLE_TEMPLATE"@.len());
    assert("COMM_REGION_TEMPLATE"@.len() != "SHM_TEMPLATE"@.len());
    assert("COMM_REGION_TEMPLATE"@.len() != "LINUX_PREAMBLE_TEMPLATE"@.len());
    assert("COMM_REGION_TEMPLATE"@.len() != "IRQ_CHIP_PLAIN_TEMPLATE"@.len());
    assert("COMM_REGION_TEMPLATE"@.len() != "ACCEL_MEM_TEMPLATE"@.len());
    assert("COMM_REGION_TEMPLATE"@.len() != "STREAM_ID_TEMPLATE"@.len());
    assert("COMM_REGION_TEMPLATE"@.len() != "STREAM_ID_EMPTY_TEMPLATE"@.len());
    assert("IVSHMEM_TEMPLATE"@.len() != "IVSHMEM_DEMO_TEMPLATE"@.len());
    assert("IVSHMEM_TEMPLATE"@.len() != "IRQ_CHIP_TEMPLATE"@.len());
    assert("IVSHMEM_TEMPLATE"@.len() != "IRQ_CHIP_BOARD_TEMPLATE"@.len());
    assert("IVSHMEM_TEMPLATE"@.len() != "PCI_DEVICE_TEMPLATE"@.len());
    assert("IVSHMEM_TEMPLATE"@.len() != "PCI_DEVICE_TEMPLATE_WITH_DEMO"@.len());
    assert("IVSHMEM_TEMPLATE"@.len() != "PCI_DEVICE_EMPTY_TEMPLATE"@.len());
    assert("IVSHMEM_TEMPLATE"@.len() != "TCMA_TEMPLATE"@.len());
    assert("IVSHMEM_TEMPLATE"@.len() != "TCMB_TEMPLATE"@.len());
    assert("IVSHMEM_TEMPLATE"@.len() != "QEMU_PREAMBLE_TEMPLATE"@.len());
    assert("IVSHMEM_TEMPLATE"@.len() != "ULTRASCALE_PREAMBLE_TEMPLATE"@.len());
    assert("IVSHMEM_TEMPLATE"@.len() != "SHM_TEMPLATE"@.len());
    assert("IVSHMEM_TEMPLATE"@.len() != "LINUX_PREAMBLE_TEMPLATE"@.len());
    assert("IVSHMEM_TEMPLATE"@.len() != "IRQ_CHIP_PLAIN_TEMPLATE"@.len());
    assert("IVSHMEM_TEMPLATE"@.len() != "ACCEL_MEM_TEMPLATE"@.len());
    assert("IVSHMEM_TEMPLATE"@.len() != "STREAM_ID_TEMPLATE"@.len());
    assert("IVSHMEM_TEMPLATE"@.len() != "STREAM_ID_EMPTY_TEMPLATE"@.len());
    assert("IVSHMEM_DEMO_TEMPLATE"@.len() != "IRQ_CHIP_TEMPLATE"@.len());
    assert("IVSHMEM_DEMO_TEMPLATE"@.len() != "IRQ_CHIP_BOARD_TEMPLATE"@.len());
    assert("IVSHMEM_DEMO_TEMPLATE"@.len() != "PCI_DEVICE_TEMPLATE"@.len());
    assert("IVSHMEM_DEMO_TEMPLATE"@.len() != "PCI_DEVICE_TEMPLATE_WITH_DEMO"@.len());
    assert("IVSHMEM_DEMO_TEMPLATE"@.len() != "PCI_DEVICE_EMPTY_TEMPLATE"@.len());
    assert("IVSHMEM_DEMO_TEMPLATE"@.len() != "TCMA_TEMPLATE"@.len());
    assert("IVSHMEM_DEMO_TEMPLATE"@.len() != "TCMB_TEMPLATE"@.len());
    assert("IVSHMEM_DEMO_TEMPLATE"@.len() != "QEMU_PREAMBLE_TEMPLATE"@.len());
    assert("IVSHMEM_DEMO_TEMPLATE"@.len() != "ULTRASCALE_PREAMBLE_TEMPLATE"@.len());
    assert("IVSHMEM_DEMO_TEMPLATE"@.len() != "SHM_TEMPLATE"@.len());
    assert("IVSHMEM_DEMO_TEMPLATE"@.len() != "LINUX_PREAMBLE_TEMPLATE"@.len());
    assert("IVSHMEM_DEMO_TEMPLATE"@.len() != "IRQ_CHIP_PLAIN_TEMPLATE"@.len());
    assert("IVSHMEM_DEMO_TEMPLATE"@.len() != "ACCEL_MEM_TEMPLATE"@.len());
    assert("IVSHMEM_DEMO_TEMPLATE"@.len() != "STREAM_ID_TEMPLATE"@.len());
    assert("IVSHMEM_DEMO_TEMPLATE"@.len() != "STREAM_ID_EMPTY_TEMPLATE"@.len());
    assert("IRQ_CHIP_TEMPLATE"@.len() != "IRQ_CHIP_BOARD_TEMPLATE"@.len());
    assert("IRQ_CHIP_TEMPLATE"@.len() != "PCI_DEVICE_TEMPLATE"@.len());
    assert("IRQ_CHIP_TEMPLATE"@.len() != "PCI_DEVICE_TEMPLATE_WITH_DEMO"@.len());
    assert("IRQ_CHIP_TEMPLATE"@.len() != "PCI_DEVICE_EMPTY_TEMPLATE"@.len());
    assert("IRQ_CHIP_TEMPLATE"@.len() != "TCMA_TEMPLATE"@.len());
    assert("IRQ_CHIP_TEMPLATE"@.len() != "TCMB_TEMPLATE"@.len());
    assert("IRQ_CHIP_TEMPLATE"@.len() != "QEMU_PREAMBLE_TEMPLATE"@.len());
    assert("IRQ_CHIP_TEMPLATE"@.len() != "ULTRASCALE_PREAMBLE_TEMPLATE"@.len());
    assert("IRQ_CHIP_TEMPLATE"@.len() != "SHM_TEMPLATE"@.len());
    assert("IRQ_CHIP_TEMPLATE"@.len() != "LINUX_PREAMBLE_TEMPLATE"@.len());
    assert("IRQ_CHIP_TEMPLATE"@.len() != "IRQ_CHIP_PLAIN_TEMPLATE"@.len());
    assert("IRQ_CHIP_TEMPLATE"@.len() != "ACCEL_MEM_TEMPLATE"@.len());
    assert("IRQ_CHIP_TEMPLATE"@.len() != "STREAM_ID_TEMPLATE"@.len());
    assert("IRQ_CHIP_TEMPLATE"@.len() != "STREAM_ID_EMPTY_TEMPLATE"@.len());
    assert("IRQ_CHIP_BOARD_TEMPLATE"@.len() != "PCI_DEVICE_TEMPLATE"@.len());
    assert("IRQ_CHIP_BOARD_TEMPLATE"@.len() != "PCI_DEVICE_TEMPLATE_WITH_DEMO"@.len());
    assert("IRQ_CHIP_BOARD_TEMPLATE"@.len() != "PCI_DEVICE_EMPTY_TEMPLATE"@.len());
    assert("IRQ_CHIP_BOARD_TEMPLATE"@.len() != "TCMA_TEMPLATE"@.len());
    assert("IRQ_CHIP_BOARD_TEMPLATE"@.len() != "TCMB_TEMPLATE"@.len());
    assert("IRQ_CHIP_BOARD_TEMPLATE"@.len() != "QEMU_PREAMBLE_TEMPLATE"@.len());
    assert("IRQ_CHIP_BOARD_TEMPLATE"@.len() != "ULTRASCALE_PREAMBLE_TEMPLATE"@.len());
    assert("IRQ_CHIP_BOARD_TEMPLATE"@.len() != "SHM_TEMPLATE"@.len());
    assert("IRQ_CHIP_BOARD_TEMPLATE"@[0] != "LINUX_PREAMBLE_TEMPLATE"@[0]);
    assert("IRQ_CHIP_BOARD_TEMPLATE"@[9] != "IRQ_CHIP_PLAIN_TEMPLATE"@[9]);
    assert("IRQ_CHIP_BOARD_TEMPLATE"@.len() != "ACCEL_MEM_TEMPLATE"@.len());
    assert("IRQ_CHIP_BOARD_TEMPLATE"@.len() != "STREAM_ID_TEMPLATE"@.len());
    assert("IRQ_CHIP_BOARD_TEMPLATE"@.len() != "STREAM_ID_EMPTY_TEMPLATE"@.len());
    assert("PCI_DEVICE_TEMPLATE"@.len() != "PCI_DEVICE_TEMPLATE_WITH_DEMO"@.len());
    assert("PCI_DEVICE_TEMPLATE"@.len() != "PCI_DEVICE_EMPTY_TEMPLATE"@.len());
    assert("PCI_DEVICE_TEMPLATE"@.len() != "TCMA_TEMPLATE"@.len());
    assert("PCI_DEVICE_TEMPLATE"@.len() != "TCMB_TEMPLATE"@.len());
    assert("PCI_DEVICE_TEMPLATE"@.len() != "QEMU_PREAMBLE_TEMPLATE"@.len());
    assert("PCI_DEVICE_TEMPLATE"@.len() != "ULTRASCALE_PREAMBLE_TEMPLATE"@.len());
    assert("PCI_DEVICE_TEMPLATE"@.len() != "SHM_TEMPLATE"@.len());
    assert("PCI_DEVICE_TEMPLATE"@.len() != "LINUX_PREAMBLE_TEMPLATE"@.len());
    assert("PCI_DEVICE_TEMPLATE"@.len() != "IRQ_CHIP_PLAIN_TEMPLATE"@.len());
    assert("PCI_DEVICE_TEMPLATE"@.len() != "ACCEL_MEM_TEMPLATE"@.len());
    assert("PCI_DEVICE_TEMPLATE"@.len() != "STREAM_ID_TEMPLATE"@.len());
    assert("PCI_DEVICE_TEMPLATE"@.len() != "STREAM_ID_EMPTY_TEMPLATE"@.len());
    assert("PCI_DEVICE_TEMPLATE_WITH_DEMO"@.len() != "PCI_DEVICE_EMPTY_TEMPLATE"@.len());
    assert("PCI_DEVICE_TEMPLATE_WITH_DEMO"@.len() != "TCMA_TEMPLATE"@.len());
    assert("PCI_DEVICE_TEMPLATE_WITH_DEMO"@.len() != "TCMB_TEMPLATE"@.len());
    assert("PCI_DEVICE_TEMPLATE_WITH_DEMO"@.len() != "QEMU_PREAMBLE_TEMPLATE"@.len());
    assert("PCI_DEVICE_TEMPLATE_WITH_DEMO"@.len() != "ULTRASCALE_PREAMBLE_TEMPLATE"@.len());
    assert("PCI_DEVICE_TEMPLATE_WITH_DEMO"@.len() != "SHM_TEMPLATE"@.len());
    assert("PCI_DEVICE_TEMPLATE_WITH_DEMO"@.len() != "LINUX_PREAMBLE_TEMPLATE"@.len());
    assert("PCI_DEVICE_TEMPLATE_WITH_DEMO"@.len() != "IRQ_CHIP_PLAIN_TEMPLATE"@.len());
    assert("PCI_DEVICE_TEMPLATE_WITH_DEMO"@.len() != "ACCEL_MEM_TEMPLATE"@.len());
    assert("PCI_DEVICE_TEMPLATE_WITH_DEMO"@.len() != "STREAM_ID_TEMPLATE"@.len());
    assert("PCI_DEVICE_TEMPLATE_WITH_DEMO"@.len() != "STREAM_ID_EMPTY_TEMPLATE"@.len());
    assert("PCI_DEVICE_EMPTY_TEMPLATE"@.len() != "TCMA_TEMPLATE"@.len());
    assert("PCI_DEVICE_EMPTY_TEMPLATE"@.len() != "TCMB_TEMPLATE"@.len());
    assert("PCI_DEVICE_EMPTY_TEMPLATE"@.len() != "QEMU_PREAMBLE_TEMPLATE"@.len());
    assert("PCI_DEVICE_EMPTY_TEMPLATE"@.len() != "ULTRASCALE_PREAMBLE_TEMPLATE"@.len());
    assert("PCI_DEVICE_EMPTY_TEMPLATE"@.len() != "SHM_TEMPLATE"@.len());
    assert("PCI_DEVICE_EMPTY_TEMPLATE"@.len() != "LINUX_PREAMBLE_TEMPLATE"@.len());
    assert("PCI_DEVICE_EMPTY_TEMPLATE"@.len() != "IRQ_CHIP_PLAIN_TEMPLATE"@.len());
    assert("PCI_DEVICE_EMPTY_TEMPLATE"@.len() != "ACCEL_MEM_TEMPLATE"@.len());
    assert("PCI_DEVICE_EMPTY_TEMPLATE"@.len() != "STREAM_ID_TEMPLATE"@.len());
    assert("PCI_DEVICE_EMPTY_TEMPLATE"@.len() != "STREAM_ID_EMPTY_TEMPLATE"@.len());
    assert("TCMA_TEMPLATE"@[3] != "TCMB_TEMPLATE"@[3]);
    assert("TCMA_TEMPLATE"@.len() != "QEMU_PREAMBLE_TEMPLATE"@.len());
    assert("TCMA_TEMPLATE"@.len() != "ULTRASCALE_PREAMBLE_TEMPLATE"@.len());
    assert("TCMA_TEMPLATE"@.len() != "SHM_TEMPLATE"@.len());
    assert("TCMA_TEMPLATE"@.len() != "LINUX_PREAMBLE_TEMPLATE"@.len());
    assert("TCMA_TEMPLATE"@.len() != "IRQ_CHIP_PLAIN_TEMPLATE"@.len());
    assert("TCMA_TEMPLATE"@.len() != "ACCEL_MEM_TEMPLATE"@.len());
    assert("TCMA_TEMPLATE"@.len() != "STREAM_ID_TEMPLATE"@.len());
    assert("TCMA_TEMPLATE"@.len() != "STREAM_ID_EMPTY_TEMPLATE"@.len());
    assert("TCMB_TEMPLATE"@.len() != "QEMU_PREAMBLE_TEMPLATE"@.len());
    assert("TCMB_TEMPLATE"@.len() != "ULTRASCALE_PREAMBLE_TEMPLATE"@.len());
    assert("TCMB_TEMPLATE"@.len() != "SHM_TEMPLATE"@.len());
    assert("TCMB_TEMPLATE"@.len() != "LINUX_PREAMBLE_TEMPLATE"@.len());
    assert("TCMB_TEMPLATE"@.len() != "IRQ_CHIP_PLAIN_TEMPLATE"@.len());
    assert("TCMB_TEMPLATE"@.len() != "ACCEL_MEM_TEMPLATE"@.len());
    assert("TCMB_TEMPLATE"@.len() != "STREAM_ID_TEMPLATE"@.len());
    assert("TCMB_TEMPLATE"@.len() != "STREAM_ID_EMPTY_TEMPLATE"@.len());
    assert("QEMU_PREAMBLE_TEMPLATE"@.len() != "ULTRASCALE_PREAMBLE_TEMPLATE"@.len());
    assert("QEMU_PREAMBLE_TEMPLATE"@.len() != "SHM_TEMPLATE"@.len());
    assert("QEMU_PREAMBLE_TEMPLATE"@.len() != "LINUX_PREAMBLE_TEMPLATE"@.len());
    assert("QEMU_PREAMBLE_TEMPLATE"@.len() != "IRQ_CHIP_PLAIN_TEMPLATE"@.len());
    assert("QEMU_PREAMBLE_TEMPLATE"@.len() != "ACCEL_MEM_TEMPLATE"@.len());
    assert("QEMU_PREAMBLE_TEMPLATE"@.len() != "STREAM_ID_TEMPLATE"@.len());
    assert("QEMU_PREAMBLE_TEMPLATE"@.len() != "STREAM_ID_EMPTY_TEMPLATE"@.len());
    assert("ULTRASCALE_PREAMBLE_TEMPLATE"@.len() != "SHM_TEMPLATE"@.len());
    assert("ULTRASCALE_PREAMBLE_TEMPLATE"@.len() != "LINUX_PREAMBLE_TEMPLATE"@.len());
    assert("ULTRASCALE_PREAMBLE_TEMPLATE"@.len() != "IRQ_CHIP_PLAIN_TEMPLATE"@.len());
    assert("ULTRASCALE_PREAMBLE_TEMPLATE"@.len() != "ACCEL_MEM_TEMPLATE"@.len());
    assert("ULTRASCALE_PREAMBLE_TEMPLATE"@.len() != "STREAM_ID_TEMPLATE"@.len());
    assert("ULTRASCALE_PREAMBLE_TEMPLATE"@.len() != "STREAM_ID_EMPTY_TEMPLATE"@.len());
    assert("SHM_TEMPLATE"@.len() != "LINUX_PREAMBLE_TEMPLATE"@.len());
    assert("SHM_TEMPLATE"@.len() != "IRQ_CHIP_PLAIN_TEMPLATE"@.len());
    assert("SHM_TEMPLATE"@.len() != "ACCEL_MEM_TEMPLATE"@.len());
    assert("SHM_TEMPLATE"@.len() != "STREAM_ID_TEMPLATE"@.len());
    assert("SHM_TEMPLATE"@.len() != "STREAM_ID_EMPTY_TEMPLATE"@.len());
    assert("LINUX_PREAMBLE_TEMPLATE"@[0] != "IRQ_CHIP_PLAIN_TEMPLATE"@[0]);
    assert("LINUX_PREAMBLE_TEMPLATE"@.len() != "ACCEL_MEM_TEMPLATE"@.len());
    assert("LINUX_PREAMBLE_TEMPLATE"@.len() != "STREAM_ID_TEMPLATE"@.len());
    assert("LINUX_PREAMBLE_TEMPLATE"@.len() != "STREAM_ID_EMPTY_TEMPLATE"@.len());
    assert("IRQ_CHIP_PLAIN_TEMPLATE"@.len() != "ACCEL_MEM_TEMPLATE"@.len());
    assert("IRQ_CHIP_PLAIN_TEMPLATE"@.len() != "STREAM_ID_TEMPLATE"@.len());
    assert("IRQ_CHIP_PLAIN_TEMPLATE"@.len() != "STREAM_ID_EMPTY_TEMPLATE"@.len());
    assert("ACCEL_MEM_TEMPLATE"@[0] != "STREAM_ID_TEMPLATE"@[0]);
    assert("ACCEL_MEM_TEMPLATE"@.len() != "STREAM_ID_EMPTY_TEMPLATE"@.len());
    assert("STREAM_ID_TEMPLATE"@.len() != "STREAM_ID_EMPTY_TEMPLATE"@.len());
}

/// The template of the given name, if there is one.
pub fn template_by_name(name: &str) -> (r: Option<&'static str>)
    ensures
        match r {
            Some(t) => template_text(name@) == Some(t@),
            None => template_text(name@) is None,
        },
{
    let wanted = crate::text::chars_of(name);

    if crate::text::same_chars(&wanted, &crate::text::chars_of("RAM_TEMPLATE")) {
        return Some(RAM_TEMPLATE);
    }
    if crate::text::same_chars(&wanted, &crate::text::chars_of("RAM0_TEMPLATE")) {
        return Some(RAM0_TEMPLATE);
    }
    if crate::text::same_chars(&wanted, &crate::text::chars_of("UART_TEMPLATE")) {
        return Some(UART_TEMPLATE);
    }
    if crate::text::same_chars(&wanted, &crate::text::chars_of("COMM_REGION_TEMPLATE")) {
        return Some(COMM_REGION_TEMPLATE);
    }
    if crate::text::same_chars(&wanted, &crate::text::chars_of("IVSHMEM_TEMPLATE")) {
        return Some(IVSHMEM_TEMPLATE);
    }
    if crate::text::same_chars(&wanted, &crate::text::chars_of("IVSHMEM_DEMO_TEMPLATE")) {
        return Some(IVSHMEM_DEMO_TEMPLATE);
    }
    if crate::text::same_chars(&wanted, &crate::text::chars_of("IRQ_CHIP_TEMPLATE")) {
        return Some(IRQ_CHIP_TEMPLATE);
    }
    if crate::text::same_chars(&wanted, &crate::text::chars_of("IRQ_CHIP_BOARD_TEMPLATE")) {
        return Some(IRQ_CHIP_BOARD_TEMPLATE);
    }
    if crate::text::same_chars(&wanted, &crate::text::chars_of("PCI_DEVICE_TEMPLATE")) {
        return Some(PCI_DEVICE_TEMPLATE);
    }
    if crate::text::same_chars(&wanted, &crate::text::chars_of("PCI_DEVICE_TEMPLATE_WITH_DEMO")) {
        return Some(PCI_DEVICE_TEMPLATE_WITH_DEMO);
    }
    if crate::text::same_chars(&wanted, &crate::text::chars_of("PCI_DEVICE_EMPTY_TEMPLATE")) {
        return Some(PCI_DEVICE_EMPTY_TEMPLATE);
    }
    if crate::text::same_chars(&wanted, &crate::text::chars_of("TCMA_TEMPLATE")) {
        return Some(TCMA_TEMPLATE);
    }
    if crate::text::same_chars(&wanted, &crate::text::chars_of("TCMB_TEMPLATE")) {
        return Some(TCMB_TEMPLATE);
    }
    if crate::text::same_chars(&wanted, &crate::text::chars_of("QEMU_PREAMBLE_TEMPLATE")) {
        return Some(QEMU_PREAMBLE_TEMPLATE);
    }
    if crate::text::same_chars(&wanted, &crate::text::chars_of("ULTRASCALE_PREAMBLE_TEMPLATE")) {
        return Some(ULTRASCALE_PREAMBLE_TEMPLATE);
    }
    if crate::text::same_chars(&wanted, &crate::text::chars_of("SHM_TEMPLATE")) {
        return Some(SHM_TEMPLATE);
    }
    if crate::text::same_chars(&wanted, &crate::text::chars_of("LINUX_PREAMBLE_TEMPLATE")) {
        return Some(LINUX_PREAMBLE_TEMPLATE);
    }
    if crate::text::same_chars(&wanted, &crate::text::chars_of("IRQ_CHIP_PLAIN_TEMPLATE")) {
        return Some(IRQ_CHIP_PLAIN_TEMPLATE);
    }
    if crate::text::same_chars(&wanted, &crate::text::chars_of("ACCEL_MEM_TEMPLATE")) {
        return Some(ACCEL_MEM_TEMPLATE);
    }
    if crate::text::same_chars(&wanted, &crate::text::chars_of("STREAM_ID_TEMPLATE")) {
        return Some(STREAM_ID_TEMPLATE);
    }
    if crate::text::same_chars(&wanted, &crate::text::chars_of("STREAM_ID_EMPTY_TEMPLATE")) {
        return Some(STREAM_ID_EMPTY_TEMPLATE);
    }
    None
}


/// The tables of a descriptor whose lengths its preamble declares.
#[derive(Clone, Copy, Debug, PartialEq, Eq, Structural)]
pub enum Table {
    /// The memory regions.
    Memory,
    /// The interrupt controllers.
    IrqChip,
    /// The PCI devices.
    PciDevice,
    /// The stream IDs.
    StreamId,
}

/// The kinds of block that a descriptor can hold, one for each template.
#[derive(Clone, Copy, Debug, PartialEq, Eq, Structural)]
pub enum Template {
    /// `RAM_TEMPLATE`.
    Ram,
    /// `RAM0_TEMPLATE`.
    Ram0,
    /// `UART_TEMPLATE`.
    Uart,
    /// `COMM_REGION_TEMPLATE`.
    CommRegion,
    /// `IVSHMEM_TEMPLATE`.
    Ivshmem,
    /// `IVSHMEM_DEMO_TEMPLATE`.
    IvshmemDemo,
    /// `IRQ_CHIP_TEMPLATE`.
    IrqChip,
    /// `IRQ_CHIP_BOARD_TEMPLATE`.
    IrqChipBoard,
    /// `PCI_DEVICE_TEMPLATE`.
    PciDevice,
    /// `PCI_DEVICE_TEMPLATE_WITH_DEMO`.
    PciDeviceWithDemo,
    /// `PCI_DEVICE_EMPTY_TEMPLATE`.
    PciDeviceEmpty,
    /// `TCMA_TEMPLATE`.
    Tcma,
    /// `TCMB_TEMPLATE`.
    Tcmb,
    /// `QEMU_PREAMBLE_TEMPLATE`.
    QemuPreamble,
    /// `ULTRASCALE_PREAMBLE_TEMPLATE`.
    UltrascalePreamble,
    /// `SHM_TEMPLATE`.
    Shm,
    /// `LINUX_PREAMBLE_TEMPLATE`.
    LinuxPreamble,
    /// `IRQ_CHIP_PLAIN_TEMPLATE`.
    IrqChipPlain,
    /// `ACCEL_MEM_TEMPLATE`.
    AccelMem,
    /// `STREAM_ID_TEMPLATE`.
    StreamId,
    /// `STREAM_ID_EMPTY_TEMPLATE`.
    StreamIdEmpty,
}

impl Template {
    /// The name of the template.
    pub open spec fn name_text(self) -> Seq<char> {
        match self {
            Template::Ram => "RAM_TEMPLATE"@,
            Template::Ram0 => "RAM0_TEMPLATE"@,
            Template::Uart => "UART_TEMPLATE"@,
            Template::CommRegion => "COMM_REGION_TEMPLATE"@,
            Template::Ivshmem => "IVSHMEM_TEMPLATE"@,
            Template::IvshmemDemo => "IVSHMEM_DEMO_TEMPLATE"@,
            Template::IrqChip => "IRQ_CHIP_TEMPLATE"@,
            Template::IrqChipBoard => "IRQ_CHIP_BOARD_TEMPLATE"@,
            Template::PciDevice => "PCI_DEVICE_TEMPLATE"@,
            Template::PciDeviceWithDemo => "PCI_DEVICE_TEMPLATE_WITH_DEMO"@,
            Template::PciDeviceEmpty => "PCI_DEVICE_EMPTY_TEMPLATE"@,
            Template::Tcma => "TCMA_TEMPLATE"@,
            Template::Tcmb => "TCMB_TEMPLATE"@,
            Template::QemuPreamble => "QEMU_PREAMBLE_TEMPLATE"@,
            Template::UltrascalePreamble => "ULTRASCALE_PREAMBLE_TEMPLATE"@,
            Template::Shm => "SHM_TEMPLATE"@,
            Template::LinuxPreamble => "LINUX_PREAMBLE_TEMPLATE"@,
            Template::IrqChipPlain => "IRQ_CHIP_PLAIN_TEMPLATE"@,
            Template::AccelMem => "ACCEL_MEM_TEMPLATE"@,
            Template::StreamId => "STREAM_ID_TEMPLATE"@,
            Template::StreamIdEmpty => "STREAM_ID_EMPTY_TEMPLATE"@,
        }
    }

    /// The name of the template.
    pub fn name(&self) -> (r: &'static str)
        ensures
            r@ == self.name_text(),
    {
        match self {
            Template::Ram => "RAM_TEMPLATE",
            Template::Ram0 => "RAM0_TEMPLATE",
            Template::Uart => "UART_TEMPLATE",
            Template::CommRegion => "COMM_REGION_TEMPLATE",
            Template::Ivshmem => "IVSHMEM_TEMPLATE",
            Template::IvshmemDemo => "IVSHMEM_DEMO_TEMPLATE",
            Template::IrqChip => "IRQ_CHIP_TEMPLATE",
            Template::IrqChipBoard => "IRQ_CHIP_BOARD_TEMPLATE",
            Template::PciDevice => "PCI_DEVICE_TEMPLATE",
            Template::PciDeviceWithDemo => "PCI_DEVICE_TEMPLATE_WITH_DEMO",
            Template::PciDeviceEmpty => "PCI_DEVICE_EMPTY_TEMPLATE",
            Template::Tcma => "TCMA_TEMPLATE",
            Template::Tcmb => "TCMB_TEMPLATE",
            Template::QemuPreamble => "QEMU_PREAMBLE_TEMPLATE",
            Template::UltrascalePreamble => "ULTRASCALE_PREAMBLE_TEMPLATE",
            Template::Shm => "SHM_TEMPLATE",
            Template::LinuxPreamble => "LINUX_PREAMBLE_TEMPLATE",
            Template::IrqChipPlain => "IRQ_CHIP_PLAIN_TEMPLATE",
            Template::AccelMem => "ACCEL_MEM_TEMPLATE",
            Template::StreamId => "STREAM_ID_TEMPLATE",
            Template::StreamIdEmpty => "STREAM_ID_EMPTY_TEMPLATE",
        }
    }

    /// The text of the template.
    pub open spec fn body(self) -> Seq<char> {
        match self {
            Template::Ram => RAM_TEMPLATE@,
            Template::Ram0 => RAM0_TEMPLATE@,
            Template::Uart => UART_TEMPLATE@,
            Template::CommRegion => COMM_REGION_TEMPLATE@,
            Template::Ivshmem => IVSHMEM_TEMPLATE@,
            Template::IvshmemDemo => IVSHMEM_DEMO_TEMPLATE@,
            Template::IrqChip => IRQ_CHIP_TEMPLATE@,
            Template::IrqChipBoard => IRQ_CHIP_BOARD_TEMPLATE@,
            Template::PciDevice => PCI_DEVICE_TEMPLATE@,
            Template::PciDeviceWithDemo => PCI_DEVICE_TEMPLATE_WITH_DEMO@,
            Template::PciDeviceEmpty => PCI_DEVICE_EMPTY_TEMPLATE@,
            Template::Tcma => TCMA_TEMPLATE@,
            Template::Tcmb => TCMB_TEMPLATE@,
            Template::QemuPreamble => QEMU_PREAMBLE_TEMPLATE@,
            Template::UltrascalePreamble => ULTRASCALE_PREAMBLE_TEMPLATE@,
            Template::Shm => SHM_TEMPLATE@,
            Template::LinuxPreamble => LINUX_PREAMBLE_TEMPLATE@,
            Template::IrqChipPlain => IRQ_CHIP_PLAIN_TEMPLATE@,
            Template::AccelMem => ACCEL_MEM_TEMPLATE@,
            Template::StreamId => STREAM_ID_TEMPLATE@,
            Template::StreamIdEmpty => STREAM_ID_EMPTY_TEMPLATE@,
        }
    }

    /// The text of the template.
    pub fn text(&self) -> (r: &'static str)
        ensures
            r@ == self.body(),
    {
        match self {
            Template::Ram => RAM_TEMPLATE,
            Template::Ram0 => RAM0_TEMPLATE,
            Template::Uart => UART_TEMPLATE,
            Template::CommRegion => COMM_REGION_TEMPLATE,
            Template::Ivshmem => IVSHMEM_TEMPLATE,
            Template::IvshmemDemo => IVSHMEM_DEMO_TEMPLATE,
            Template::IrqChip => IRQ_CHIP_TEMPLATE,
            Template::IrqChipBoard => IRQ_CHIP_BOARD_TEMPLATE,
            Template::PciDevice => PCI_DEVICE_TEMPLATE,
            Template::PciDeviceWithDemo => PCI_DEVICE_TEMPLATE_WITH_DEMO,
            Template::PciDeviceEmpty => PCI_DEVICE_EMPTY_TEMPLATE,
            Template::Tcma => TCMA_TEMPLATE,
            Template::Tcmb => TCMB_TEMPLATE,
            Template::QemuPreamble => QEMU_PREAMBLE_TEMPLATE,
            Template::UltrascalePreamble => ULTRASCALE_PREAMBLE_TEMPLATE,
            Template::Shm => SHM_TEMPLATE,
            Template::LinuxPreamble => LINUX_PREAMBLE_TEMPLATE,
            Template::IrqChipPlain => IRQ_CHIP_PLAIN_TEMPLATE,
            Template::AccelMem => ACCEL_MEM_TEMPLATE,
            Template::StreamId => STREAM_ID_TEMPLATE,
            Template::StreamIdEmpty => STREAM_ID_EMPTY_TEMPLATE,
        }
    }

    /// The table that blocks of this kind belong to; a preamble belongs to none.
    pub open spec fn table(self) -> Option<Table> {
        match self {
            Template::Ram => Some(Table::Memory),
            Template::Ram0 => Some(Table::Memory),
            Template::Uart => Some(Table::Memory),
            Template::CommRegion => Some(Table::Memory),
            Template::Ivshmem => Some(Table::Memory),
            Template::IvshmemDemo => Some(Table::Memory),
            Template::IrqChip => Some(Table::IrqChip),
            Template::IrqChipBoard => Some(Table::IrqChip),
            Template::PciDevice => Some(Table::PciDevice),
            Template::PciDeviceWithDemo => Some(Table::PciDevice),
            Template::PciDeviceEmpty => Some(Table::PciDevice),
            Template::Tcma => Some(Table::Memory),
            Template::Tcmb => Some(Table::Memory),
            Template::QemuPreamble => None,
            Template::UltrascalePreamble => None,
            Template::Shm => Some(Table::Memory),
            Template::LinuxPreamble => None,
            Template::IrqChipPlain => Some(Table::IrqChip),
            Template::AccelMem => Some(Table::Memory),
            Template::StreamId => Some(Table::StreamId),
            Template::StreamIdEmpty => Some(Table::StreamId),
        }
    }

    /// The table that blocks of this kind belong to.
    pub fn table_of(&self) -> (r: Option<Table>)
        ensures
            r == self.table(),
    {
        match self {
            Template::Ram => Some(Table::Memory),
            Template::Ram0 => Some(Table::Memory),
            Template::Uart => Some(Table::Memory),
            Template::CommRegion => Some(Table::Memory),
            Template::Ivshmem => Some(Table::Memory),
            Template::IvshmemDemo => Some(Table::Memory),
            Template::IrqChip => Some(Table::IrqChip),
            Template::IrqChipBoard => Some(Table::IrqChip),
            Template::PciDevice => Some(Table::PciDevice),
            Template::PciDeviceWithDemo => Some(Table::PciDevice),
            Template::PciDeviceEmpty => Some(Table::PciDevice),
            Template::Tcma => Some(Table::Memory),
            Template::Tcmb => Some(Table::Memory),
            Template::QemuPreamble => None,
            Template::UltrascalePreamble => None,
            Template::Shm => Some(Table::Memory),
            Template::LinuxPreamble => None,
            Template::IrqChipPlain => Some(Table::IrqChip),
            Template::AccelMem => Some(Table::Memory),
            Template::StreamId => Some(Table::StreamId),
            Template::StreamIdEmpty => Some(Table::StreamId),
        }
    }

    /// The number of table entries that a block of this kind emits.
    pub open spec fn entries(self) -> nat {
        match self {
            Template::Ram => 1,
            Template::Ram0 => 1,
            Template::Uart => 1,
            Template::CommRegion => 1,
            Template::Ivshmem => 4,
            Template::IvshmemDemo => 5,
            Template::IrqChip => 1,
            Template::IrqChipBoard => 1,
            Template::PciDevice => 1,
            Template::PciDeviceWithDemo => 2,
            Template::PciDeviceEmpty => 0,
            Template::Tcma => 1,
            Template::Tcmb => 1,
            Template::QemuPreamble => 0,
            Template::UltrascalePreamble => 0,
            Template::Shm => 1,
            Template::LinuxPreamble => 0,
            Template::IrqChipPlain => 1,
            Template::AccelMem => 1,
            Template::StreamId => 1,
            Template::StreamIdEmpty => 0,
        }
    }

    /// The number of table entries that a block of this kind emits.
    pub fn entry_count(&self) -> (r: u8)
        ensures
            r == self.entries(),
    {
        match self {
            Template::Ram => 1,
            Template::Ram0 => 1,
            Template::Uart => 1,
            Template::CommRegion => 1,
            Template::Ivshmem => 4,
            Template::IvshmemDemo => 5,
            Template::IrqChip => 1,
            Template::IrqChipBoard => 1,
            Template::PciDevice => 1,
            Template::PciDeviceWithDemo => 2,
            Template::PciDeviceEmpty => 0,
            Template::Tcma => 1,
            Template::Tcmb => 1,
            Template::QemuPreamble => 0,
            Template::UltrascalePreamble => 0,
            Template::Shm => 1,
            Template::LinuxPreamble => 0,
            Template::IrqChipPlain => 1,
            Template::AccelMem => 1,
            Template::StreamId => 1,
            Template::StreamIdEmpty => 0,
        }
    }

    /// The kind of the given name, if there is one.
    pub open spec fn named(name: Seq<char>) -> Option<Template> {
        if name == "RAM_TEMPLATE"@ {
            Some(Template::Ram)
        } else if name == "RAM0_TEMPLATE"@ {
            Some(Template::Ram0)
        } else if name == "UART_TEMPLATE"@ {
            Some(Template::Uart)
        } else if name == "COMM_REGION_TEMPLATE"@ {
            Some(Template::CommRegion)
        } else if name == "IVSHMEM_TEMPLATE"@ {
            Some(Template::Ivshmem)
        } else if name == "IVSHMEM_DEMO_TEMPLATE"@ {
            Some(Template::IvshmemDemo)
        } else if name == "IRQ_CHIP_TEMPLATE"@ {
            Some(Template::IrqChip)
        } else if name == "IRQ_CHIP_BOARD_TEMPLATE"@ {
            Some(Template::IrqChipBoard)
        } else if name == "PCI_DEVICE_TEMPLATE"@ {
            Some(Template::PciDevice)
        } else if name == "PCI_DEVICE_TEMPLATE_WITH_DEMO"@ {
            Some(Template::PciDeviceWithDemo)
        } else if name == "PCI_DEVICE_EMPTY_TEMPLATE"@ {
            Some(Template::PciDeviceEmpty)
        } else if name == "TCMA_TEMPLATE"@ {
            Some(Template::Tcma)
        } else if name == "TCMB_TEMPLATE"@ {
            Some(Template::Tcmb)
        } else if name == "QEMU_PREAMBLE_TEMPLATE"@ {
            Some(Template::QemuPreamble)
        } else if name == "ULTRASCALE_PREAMBLE_TEMPLATE"@ {
            Some(Template::UltrascalePreamble)
        } else if name == "SHM_TEMPLATE"@ {
            Some(Template::Shm)
        } else if name == "LINUX_PREAMBLE_TEMPLATE"@ {
            Some(Template::LinuxPreamble)
        } else if name == "IRQ_CHIP_PLAIN_TEMPLATE"@ {
            Some(Template::IrqChipPlain)
        } else if name == "ACCEL_MEM_TEMPLATE"@ {
            Some(Template::AccelMem)
        } else if name == "STREAM_ID_TEMPLATE"@ {
            Some(Template::StreamId)
        } else if name == "STREAM_ID_EMPTY_TEMPLATE"@ {
            Some(Template::StreamIdEmpty)
        } else {
            None
        }
    }

    /// The kind of the given name, if there is one.
    pub fn from_name(name: &str) -> (r: Option<Template>)
        ensures
            r == Template::named(name@),
            match r {
                Some(t) => t.name_text() == name@,
                None => forall|t: Template| t.name_text() != name@,
            },
    {
        let wanted = crate::text::chars_of(name);
        if crate::text::same_chars(&wanted, &crate::text::chars_of("RAM_TEMPLATE")) {
            return Some(Template::Ram);
        }
        if crate::text::same_chars(&wanted, &crate::text::chars_of("RAM0_TEMPLATE")) {
            return Some(Template::Ram0);
        }
        if crate::text::same_chars(&wanted, &crate::text::chars_of("UART_TEMPLATE")) {
            return Some(Template::Uart);
        }
        if crate::text::same_chars(&wanted, &crate::text::chars_of("COMM_REGION_TEMPLATE")) {
            return Some(Template::CommRegion);
        }
        if crate::text::same_chars(&wanted, &crate::text::chars_of("IVSHMEM_TEMPLATE")) {
            return Some(Template::Ivshmem);
        }
        if crate::text::same_chars(&wanted, &crate::text::chars_of("IVSHMEM_DEMO_TEMPLATE")) {
            return Some(Template::IvshmemDemo);
        }
        if crate::text::same_chars(&wanted, &crate::text::chars_of("IRQ_CHIP_TEMPLATE")) {
            return Some(Template::IrqChip);
        }
        if crate::text::same_chars(&wanted, &crate::text::chars_of("IRQ_CHIP_BOARD_TEMPLATE")) {
            return Some(Template::IrqChipBoard);
        }
        if crate::text::same_chars(&wanted, &crate::text::chars_of("PCI_DEVICE_TEMPLATE")) {
            return Some(Template::PciDevice);
        }
        if crate::text::same_chars(&wanted, &crate::text::chars_of("PCI_DEVICE_TEMPLATE_WITH_DEMO")) {
            return Some(Template::PciDeviceWithDemo);
        }
        if crate::text::same_chars(&wanted, &crate::text::chars_of("PCI_DEVICE_EMPTY_TEMPLATE")) {
            return Some(Template::PciDeviceEmpty);
        }
        if crate::text::same_chars(&wanted, &crate::text::chars_of("TCMA_TEMPLATE")) {
            return Some(Template::Tcma);
        }
        if crate::text::same_chars(&wanted, &crate::text::chars_of("TCMB_TEMPLATE")) {
            return Some(Template::Tcmb);
        }
        if crate::text::same_chars(&wanted, &crate::text::chars_of("QEMU_PREAMBLE_TEMPLATE")) {
            return Some(Template::QemuPreamble);
        }
        if crate::text::same_chars(&wanted, &crate::text::chars_of("ULTRASCALE_PREAMBLE_TEMPLATE")) {
            return Some(Template::UltrascalePreamble);
        }
        if crate::text::same_chars(&wanted, &crate::text::chars_of("SHM_TEMPLATE")) {
            return Some(Template::Shm);
        }
        if crate::text::same_chars(&wanted, &crate::text::chars_of("LINUX_PREAMBLE_TEMPLATE")) {
            return Some(Template::LinuxPreamble);
        }
        if crate::text::same_chars(&wanted, &crate::text::chars_of("IRQ_CHIP_PLAIN_TEMPLATE")) {
            return Some(Template::IrqChipPlain);
        }
        if crate::text::same_chars(&wanted, &crate::text::chars_of("ACCEL_MEM_TEMPLATE")) {
            return Some(Template::AccelMem);
        }
        if crate::text::same_chars(&wanted, &crate::text::chars_of("STREAM_ID_TEMPLATE")) {
            return Some(Template::StreamId);
        }
        if crate::text::same_chars(&wanted, &crate::text::chars_of("STREAM_ID_EMPTY_TEMPLATE")) {
            return Some(Template::StreamIdEmpty);
        }
        None
    }
}

} // verus!
