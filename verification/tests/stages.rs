use runphi::builder::{first_entry, place, render_use, uses_are, uses_kind, Context, Place};
use runphi::catalog::{load_catalog, MemWindow};
use runphi::config_generator::{confighelperend, confighelperstart, plan_request, Backendconfig};
use runphi::cpu::{core_count, cpuconf, mask_of, parse_core_range};
use runphi::descriptor::Block;
use runphi::device::devconfig;
use runphi::error::EngineError;
use runphi::fpga::{fpgaconf, stream_id_config};
use runphi::frontend::{Accelerator, FrontendConfig, ImageConfig};
use runphi::mem::{count_mem_regions, generate_config, memconfig};
use runphi::platform::{load_config, Platform, TemplateUse};
use runphi::rpu::rpuconf;
use runphi::segment::Segment;
use runphi::state::retrieve_state;
use runphi::templates::Template;

const PLATFORM: &str = r#"
[jailhouse_preample]
preamble = "QEMU_PREAMBLE"

[mem_regions]
regions = ["IVSHMEM_DEMO_TEMPLATE", "IVSHMEM_TEMPLATE", "RAM0_TEMPLATE", "UART_TEMPLATE", "RAM_TEMPLATE", "COMM_REGION_TEMPLATE"]

[UART_TEMPLATE]
phys_start = "0x09000000"
virt_start = "0x09000000"
size = "0x1000"
colour = "blue"

[RAM0_TEMPLATE]
virt_start = "0"
size = "0x10000"

[RAM_TEMPLATE]
virt_start = "0x70000000"

[IVSHMEM_TEMPLATE]
address = "0x7f900000"

[devices]
devs = ["IRQ_CHIP_BOARD_TEMPLATE", "PCI_DEVICE_TEMPLATE_WITH_DEMO"]

[IRQ_CHIP_BOARD_TEMPLATE]
gic_address = "0x08000000"
uart_pin = "33"
ivshmem_pin = "136"
"#;

fn seg(start: u64, end: u64) -> Segment {
    Segment { start, end }
}

fn platform() -> Platform {
    load_config(PLATFORM).unwrap()
}

fn working(net: &str) -> Backendconfig {
    let mut c = Backendconfig::new();
    c.net = net.to_string();
    c.segments = vec![seg(0x1000, 0x2000), seg(0x7000_0000, 0x7800_0000)];
    c.bdf = vec![2, 3];
    c.rcpus = vec![0, 1, 5];
    c.fpga_regions = vec![0, 1, 2, 3];
    c
}

#[test]
fn the_platform_is_read_with_the_parameters_of_its_templates() {
    let p = platform();
    assert_eq!(p.preamble, Some("QEMU_PREAMBLE".to_string()));
    assert_eq!(p.ivshmem_base, Some(0x7f90_0000));
    let kinds: Vec<Template> = p.regions.iter().map(|u| u.template).collect();
    assert_eq!(
        kinds,
        vec![Template::IvshmemDemo, Template::Ivshmem, Template::Ram0, Template::Uart, Template::Ram, Template::CommRegion]
    );
    assert_eq!(
        p.regions[3].params,
        vec![
            ("phys_start".to_string(), "0x09000000".to_string()),
            ("virt_start".to_string(), "0x09000000".to_string()),
            ("size".to_string(), "0x1000".to_string()),
        ]
    );
    assert_eq!(p.regions[1].params, vec![("address".to_string(), "0x7f900000".to_string())]);
    assert!(p.regions[5].params.is_empty());
    assert_eq!(p.devices.len(), 2);
    assert_eq!(p.devices[0].template, Template::IrqChipBoard);
    assert_eq!(p.devices[0].params.len(), 3);
    assert_eq!(p.devices[0].params[0].0, "gic_address");
}

#[test]
fn a_platform_that_names_no_template_is_refused() {
    for (from, to) in [
        ("\"UART_TEMPLATE\", ", "\"UART\", "),
        ("[mem_regions]", "[regions]"),
        ("[devices]", "[device]"),
        ("devs = [\"IRQ_CHIP_BOARD_TEMPLATE\", \"PCI_DEVICE_TEMPLATE_WITH_DEMO\"]", "devs = \"IRQ_CHIP_BOARD_TEMPLATE\""),
        ("\"RAM0_TEMPLATE\", ", "0, "),
    ] {
        assert!(PLATFORM.contains(from));
        let text = PLATFORM.replacen(from, to, 1);
        assert_eq!(load_config(&text).err(), Some(EngineError::DescriptorTemplateMissing), "{}", to);
    }
    assert_eq!(load_config("not toml").err(), Some(EngineError::DescriptorTemplateMissing));
    let lenient = PLATFORM.replacen("[jailhouse_preample]", "[preamble]", 1)
        .replacen("address = \"0x7f900000\"", "address = \"here\"", 1);
    let p = load_config(&lenient).unwrap();
    assert_eq!(p.preamble, None);
    assert_eq!(p.ivshmem_base, None);
}

#[test]
fn cores_asked_for() {
    assert_eq!(core_count(Some(20000), Some(10000)), 2);
    assert_eq!(core_count(Some(20001), Some(10000)), 3);
    assert_eq!(core_count(Some(1), Some(10000)), 1);
    assert_eq!(core_count(Some(10000), Some(10000)), 1);
    assert_eq!(core_count(None, None), 1);
    assert_eq!(core_count(Some(25000), None), 3);
    assert_eq!(core_count(None, Some(2500)), 4);
    assert_eq!(core_count(Some(0), Some(10000)), 0);
    assert_eq!(core_count(Some(-1), Some(10000)), 0);
    assert_eq!(core_count(Some(5), Some(0)), 255);
    assert_eq!(core_count(Some(0), Some(0)), 0);
    assert_eq!(core_count(Some(255), Some(1)), 255);
    assert_eq!(core_count(Some(256), Some(1)), 255);
    assert_eq!(core_count(Some(i64::MAX), Some(1)), 255);
    assert_eq!(core_count(Some(i64::MAX), Some(u64::MAX)), 1);
}

#[test]
fn the_core_report_is_a_range() {
    assert_eq!(parse_core_range("0-3\n"), Some((0, 3)));
    assert_eq!(parse_core_range(" 2-7 "), Some((2, 7)));
    assert_eq!(parse_core_range("0-3-5"), Some((0, 3)));
    assert_eq!(parse_core_range("3"), None);
    assert_eq!(parse_core_range(""), None);
    assert_eq!(parse_core_range("a-3"), None);
    assert_eq!(parse_core_range("0-"), None);
    assert_eq!(parse_core_range("0,3"), None);
}

#[test]
fn masks() {
    assert_eq!(mask_of(&vec![0, 1], 64), 0x3);
    assert_eq!(mask_of(&vec![], 64), 0);
    assert_eq!(mask_of(&vec![63], 64), 1 << 63);
    assert_eq!(mask_of(&vec![5, 2, 5], 64), 0x24);
    assert_eq!(mask_of(&vec![31, 32, -1], 32), 1 << 31);
    assert_eq!(mask_of(&vec![0], 0), 0);
    let all: Vec<i8> = (0..64).collect();
    assert_eq!(mask_of(&all, 64), u64::MAX);
}

#[test]
fn cpus_are_the_lowest_free_cores() {
    let mut c = working("none");
    assert_eq!(cpuconf(&mut c, 2, "0-8"), Ok(()));
    assert_eq!((c.cpus, c.descriptor.cpus), (2, 0x3));
    assert_eq!(cpuconf(&mut c, 3, "4-8\n"), Ok(()));
    assert_eq!((c.cpus, c.descriptor.cpus), (3, 0x70));
    assert_eq!(cpuconf(&mut c, 4, "4-8"), Ok(()));
    assert_eq!(c.descriptor.cpus, 0xf0);
    assert_eq!(cpuconf(&mut c, 5, "4-8"), Err(EngineError::InsufficientCpu));
    assert_eq!((c.cpus, c.descriptor.cpus), (4, 0xf0));
    assert_eq!(cpuconf(&mut c, 0, "garbage"), Ok(()));
    assert_eq!((c.cpus, c.descriptor.cpus), (0, 0));
    assert_eq!(cpuconf(&mut c, 1, "garbage"), Err(EngineError::InsufficientCpu));
    assert_eq!(cpuconf(&mut c, 1, "3"), Err(EngineError::InsufficientCpu));
    assert_eq!(cpuconf(&mut c, 1, "3-3"), Err(EngineError::InsufficientCpu));
    assert_eq!(cpuconf(&mut c, 1, "5-3"), Err(EngineError::InsufficientCpu));
    assert_eq!(cpuconf(&mut c, 4, "60-100"), Ok(()));
    assert_eq!(c.descriptor.cpus, 0xf << 60);
    assert_eq!(cpuconf(&mut c, 5, "60-100"), Err(EngineError::InsufficientCpu));
    assert_eq!(cpuconf(&mut c, 1, "64-100"), Err(EngineError::InsufficientCpu));
}

#[test]
fn rpus_are_taken_from_the_front_of_the_pool() {
    let mut c = working("none");
    assert_eq!(rpuconf(&mut c, 2), Ok(()));
    assert_eq!(c.used_rcpus, vec![0, 1]);
    assert_eq!(c.rcpus, vec![5]);
    assert!(c.used_rcpus.iter().all(|g| c.rcpus.iter().all(|l| g < l)));
    assert_eq!(c.descriptor.rcpus, Some(0x3));
    assert_eq!(rpuconf(&mut c, 2), Err(EngineError::InsufficientRpu));
    assert_eq!(c.rcpus, vec![5]);
    assert_eq!(c.used_rcpus, vec![0, 1]);
    assert_eq!(rpuconf(&mut c, 1), Ok(()));
    assert_eq!(c.descriptor.rcpus, Some(0x20));
    assert!(c.rcpus.is_empty());
}

#[test]
fn memory_regions_come_in_the_order_of_the_table() {
    let mut c = working("bridge");
    c.soft_core_mem.push(MemWindow {
        phys_start: "0xa0000000".to_string(),
        virt_start: "0".to_string(),
        size: "0x10000".to_string(),
    });
    assert_eq!(memconfig(&mut c, "0x100000", &platform()), Ok(()));
    assert_eq!(c.used_segments, vec![seg(0x7000_0000, 0x7011_0000)]);
    assert_eq!(c.segments, vec![seg(0x1000, 0x2000), seg(0x7011_0000, 0x7800_0000)]);
    let d = &c.descriptor;
    let kinds: Vec<Template> = d.mem_regions.iter().map(|b| b.template).collect();
    assert_eq!(
        kinds,
        vec![
            Template::Uart,
            Template::CommRegion,
            Template::Ram0,
            Template::Ram,
            Template::AccelMem,
            Template::IvshmemDemo,
            Template::Ivshmem
        ]
    );
    assert_eq!(d.num_memory_regions, 14);
    assert!(d.mem_regions[2].text.contains(".phys_start = 0x70000000,"));
    assert!(d.mem_regions[2].text.contains(".size = 0x10000,"));
    assert!(d.mem_regions[3].text.contains(".phys_start = 0x70010000,"));
    assert!(d.mem_regions[3].text.contains(".size = 0x100000,"));
    assert!(d.mem_regions[3].text.contains(".virt_start = 0x70000000,"));
    assert!(d.mem_regions[4].text.contains("/* accelerator memory */"));
    assert!(d.mem_regions[4].text.contains(".phys_start = 0xa0000000,"));
    assert_eq!(d.mem_regions[6].text, "JAILHOUSE_SHMEM_NET_REGIONS(0x7fa00000, 1),");
    assert_eq!(c.bdf, vec![2, 3]);
    assert_eq!(first_entry(&d.mem_regions, Template::IvshmemDemo), 5);
    assert_eq!(first_entry(&d.mem_regions, Template::Ivshmem), 10);
    assert_eq!(first_entry(&d.mem_regions, Template::Uart), 0);
    assert_eq!(first_entry(&d.mem_regions, Template::Tcma), 14);
}

#[test]
fn memory_failures() {
    let p = platform();
    let mut c = working("none");
    assert_eq!(memconfig(&mut c, "0x7ff0001", &p), Err(EngineError::OutOfMemory));
    assert_eq!(memconfig(&mut c, "0xffffffffffffffff", &p), Err(EngineError::OutOfMemory));
    assert_eq!(memconfig(&mut c, "lots", &p), Err(EngineError::OutOfMemory));
    assert!(c.used_segments.is_empty());
    assert_eq!(memconfig(&mut c, "0x7ff0000", &p), Ok(()));
    assert_eq!(c.segments, vec![seg(0x1000, 0x2000)]);
    let mut c = working("bridge");
    c.bdf.clear();
    assert_eq!(memconfig(&mut c, "0x1000", &p), Err(EngineError::BdfExhausted));
    let mut c = working("bridge");
    let mut q = platform();
    q.ivshmem_base = None;
    assert_eq!(memconfig(&mut c, "0x1000", &q), Err(EngineError::DescriptorTemplateMissing));
    q.ivshmem_base = Some(u64::MAX);
    assert_eq!(memconfig(&mut c, "0x1000", &q), Err(EngineError::DescriptorTemplateMissing));
    let mut q = platform();
    q.regions.push(TemplateUse { template: Template::PciDevice, params: Vec::new() });
    assert_eq!(memconfig(&mut c, "0x1000", &q), Err(EngineError::DescriptorTemplateMissing));
    let mut q = platform();
    q.regions.push(TemplateUse { template: Template::AccelMem, params: Vec::new() });
    assert_eq!(memconfig(&mut c, "0x1000", &q), Err(EngineError::DescriptorTemplateMissing));
    assert!(c.descriptor.mem_regions.is_empty());
}

#[test]
fn small_guests_fit_the_first_segment() {
    let mut c = working("none");
    let mut p = platform();
    p.regions.retain(|u| u.template != Template::Ram0);
    assert_eq!(memconfig(&mut c, "0x1000", &p), Ok(()));
    assert_eq!(c.used_segments, vec![seg(0x1000, 0x2000)]);
    assert_eq!(c.segments, vec![seg(0x7000_0000, 0x7800_0000)]);
    assert!(c.descriptor.mem_regions[2].text.contains(".phys_start = 0x1000,"));
    assert_eq!(c.descriptor.num_memory_regions, 3);
}

#[test]
fn devices_of_a_guest_with_a_network() {
    let mut c = working("bridge");
    let p = platform();
    memconfig(&mut c, "0x100000", &p).unwrap();
    assert_eq!(devconfig(&mut c, &p), Ok(()));
    assert_eq!(c.used_bdf, Some(2));
    assert_eq!(c.bdf, vec![3]);
    let d = &c.descriptor;
    assert_eq!((d.num_irqchips, d.num_pci_devices), (1, 2));
    assert_eq!(d.irqchips[0].template, Template::IrqChipBoard);
    assert!(d.irqchips[0].text.contains("(1 << (136 - 128))"));
    assert!(d.irqchips[0].text.contains("1 << (33 - 32),"));
    assert_eq!(d.pci_devices[0].template, Template::PciDeviceWithDemo);
    let pci = &d.pci_devices[0].text;
    assert!(pci.contains(".shmem_dev_id = 2,"));
    assert!(pci.contains("/* IVSHMEM 00:02.0 (networking) */"));
    assert!(pci.contains(".bdf = 2 << 3,"));
    assert!(pci.contains(".shmem_regions_start = 4,"));
    assert!(pci.contains(".shmem_regions_start = 9,"));
    assert!(!pci.contains('{') || !pci.contains("{ivshmem_bdf}"));
    assert!(!pci.contains("regions_start}"));
}

#[test]
fn devices_of_a_guest_without_a_network() {
    let mut c = working("none");
    let p = platform();
    assert_eq!(devconfig(&mut c, &p), Ok(()));
    assert_eq!(c.used_bdf, None);
    assert_eq!(c.bdf, vec![2, 3]);
    let d = &c.descriptor;
    assert_eq!((d.num_irqchips, d.num_pci_devices), (1, 0));
    assert_eq!(d.irqchips[0].template, Template::IrqChipPlain);
    assert!(d.irqchips[0].text.contains("1 << (33 - 32),\n\t\t\t0,\n\t\t\t0,\n\t\t\t0\n"));
    assert!(d.irqchips[0].text.contains(".address = 0x08000000,"));
    assert_eq!(d.pci_devices.len(), 1);
    assert_eq!(d.pci_devices[0].text, "\n.pci_devices = {\n},\n");
}

#[test]
fn device_failures() {
    let p = platform();
    let mut c = working("bridge");
    c.bdf.clear();
    assert_eq!(devconfig(&mut c, &p), Err(EngineError::BdfExhausted));
    assert_eq!(c.used_bdf, None);
    c.bdf = vec![31];
    assert_eq!(devconfig(&mut c, &p), Ok(()));
    assert_eq!(c.used_bdf, Some(31));
    assert!(c.bdf.is_empty());
    let mut q = platform();
    q.devices.push(TemplateUse { template: Template::Uart, params: Vec::new() });
    let mut c = working("none");
    assert_eq!(devconfig(&mut c, &q), Err(EngineError::DescriptorTemplateMissing));
    assert!(c.descriptor.irqchips.is_empty());
}

#[test]
fn stream_ids_follow_the_fpga_regions() {
    let mut c = working("none");
    stream_id_config(&mut c);
    assert_eq!(c.descriptor.num_stream_ids, 0);
    assert_eq!(c.descriptor.stream_ids[0].template, Template::StreamIdEmpty);
    c.used_fpga_regions = vec![1];
    stream_id_config(&mut c);
    assert_eq!(c.descriptor.num_stream_ids, 1);
    assert_eq!(c.descriptor.stream_ids.len(), 1);
    assert!(c.descriptor.stream_ids[0].text.contains(".mmu500.id = 0x1280,"));
}

const CATALOG: &str = r#"
[hardware_designs]
designs = ["fir", "aes"]

[fir]
versions = ["fir_wide", "fir_small"]

[fir_wide]
name = "fir_wide.bit"
region = "2-3"

[fir_small]
name = "fir_small.bit"
region = 0
phys_start = "0xa0000000"
size = "0x10000"

[aes]
versions = ["aes_v1"]

[aes_v1]
name = "aes.bit"
region = "0"
phys_start = "0xa0010000"
virt_start = "0xa0010000"
size = "0x1000"
"#;

fn by_name(core: &str) -> Accelerator {
    Accelerator {
        core: core.to_string(),
        bitstream: String::new(),
        region: String::new(),
        starting_phys_address: String::new(),
        acc_starting_vaddress: String::new(),
        mem_size: String::new(),
    }
}

#[test]
fn the_catalog_is_read() {
    let cat = load_catalog(CATALOG).unwrap();
    assert_eq!(cat.designs.len(), 2);
    assert_eq!(cat.designs[0].core, "fir");
    assert_eq!(cat.designs[0].versions.len(), 2);
    assert_eq!(cat.designs[0].versions[0].name, "fir_wide.bit");
    assert_eq!(cat.designs[0].versions[0].region, "2-3");
    assert!(cat.designs[0].versions[0].window.is_none());
    assert_eq!(cat.designs[0].versions[1].region, "0");
    let w = cat.designs[0].versions[1].window.as_ref().unwrap();
    assert_eq!((w.phys_start.as_str(), w.virt_start.as_str(), w.size.as_str()), ("0xa0000000", "0", "0x10000"));
    let w = cat.designs[1].versions[0].window.as_ref().unwrap();
    assert_eq!(w.virt_start, "0xa0010000");
    assert!(cat.designs[0].complete && cat.designs[1].complete);
    assert_eq!(load_catalog("= not toml").err(), Some(EngineError::NoCatalogEntry));
    assert_eq!(
        load_catalog(&CATALOG.replacen("[hardware_designs]", "[designs]", 1)).err(),
        Some(EngineError::NoCatalogEntry)
    );
}

#[test]
fn a_design_that_cannot_be_read_leaves_the_others_alone() {
    for (from, to) in [("[aes]", "[des]"), ("versions = [\"aes_v1\"]", "versions = [1]")] {
        assert!(CATALOG.contains(from));
        let cat = load_catalog(&CATALOG.replacen(from, to, 1)).unwrap();
        assert_eq!(cat.designs.len(), 1);
        assert_eq!(cat.designs[0].core, "fir");
        assert_eq!(cat.designs[0].versions.len(), 2);
        let mut c = working("none");
        let mut ic = ImageConfig::new();
        ic.accelerators.push(by_name("fir"));
        assert_eq!(fpgaconf(&mut c, &mut ic, &cat), Ok(()));
        assert_eq!(ic.bitstreams, vec!["fir_wide.bit".to_string()]);
        let mut ic = ImageConfig::new();
        ic.accelerators.push(by_name("aes"));
        assert_eq!(fpgaconf(&mut c, &mut ic, &cat), Err(EngineError::NoCatalogEntry));
    }
}

#[test]
fn a_design_is_read_up_to_the_first_version_that_cannot_be_read() {
    for (from, to) in [
        ("[fir_small]", "[fir_tiny]"),
        ("name = \"fir_small.bit\"", "title = \"fir_small.bit\""),
        ("region = 0", "region = true"),
    ] {
        assert!(CATALOG.contains(from));
        let cat = load_catalog(&CATALOG.replacen(from, to, 1)).unwrap();
        assert_eq!(cat.designs.len(), 2);
        assert_eq!(cat.designs[0].versions.len(), 1);
        assert!(!cat.designs[0].complete);
        assert!(cat.designs[1].complete);
        let mut c = working("none");
        let mut ic = ImageConfig::new();
        ic.accelerators.push(by_name("fir"));
        ic.accelerators.push(by_name("aes"));
        assert_eq!(fpgaconf(&mut c, &mut ic, &cat), Ok(()));
        assert_eq!(c.used_fpga_regions, vec![2, 3, 0]);
        let mut c = working("none");
        c.fpga_regions = vec![0, 1, 2];
        let mut ic = ImageConfig::new();
        ic.accelerators.push(by_name("fir"));
        assert_eq!(fpgaconf(&mut c, &mut ic, &cat), Err(EngineError::NoCatalogEntry));
        assert_eq!(c.fpga_regions, vec![0, 1, 2]);
    }
    let cat = load_catalog(&CATALOG.replacen("[fir_wide]", "[fir_broad]", 1)).unwrap();
    assert!(cat.designs[0].versions.is_empty());
    assert!(!cat.designs[0].complete);
    let mut c = working("none");
    let mut ic = ImageConfig::new();
    ic.accelerators.push(by_name("fir"));
    assert_eq!(fpgaconf(&mut c, &mut ic, &cat), Err(EngineError::NoCatalogEntry));
}

#[test]
fn a_window_without_a_size_matters_only_to_the_request_that_would_take_it() {
    let text = CATALOG
        .replacen("size = \"0x10000\"", "length = \"0x10000\"", 1)
        .replacen("\"fir_small\"]", "\"fir_small\", \"fir_last\"]", 1)
        + "\n[fir_last]\nname = \"fir_last.bit\"\nregion = 1\n";
    let cat = load_catalog(&text).unwrap();
    assert_eq!(cat.designs[0].versions.len(), 3);
    assert!(cat.designs[0].complete);
    assert!(cat.designs[0].versions[0].sized);
    assert!(!cat.designs[0].versions[1].sized);
    assert!(cat.designs[0].versions[1].window.is_none());
    assert!(cat.designs[0].versions[2].sized);

    let mut c = working("none");
    c.fpga_regions = vec![0, 1];
    let mut ic = ImageConfig::new();
    ic.accelerators.push(by_name("fir"));
    assert_eq!(fpgaconf(&mut c, &mut ic, &cat), Err(EngineError::NoCatalogEntry));
    assert_eq!(c.fpga_regions, vec![0, 1]);
    assert!(c.used_fpga_regions.is_empty());
    assert!(c.soft_core_mem.is_empty());
    assert!(ic.bitstreams.is_empty());

    let mut c = working("none");
    c.fpga_regions = vec![1];
    let mut ic = ImageConfig::new();
    ic.accelerators.push(by_name("fir"));
    assert_eq!(fpgaconf(&mut c, &mut ic, &cat), Ok(()));
    assert_eq!(c.used_fpga_regions, vec![1]);
    assert_eq!(ic.bitstreams, vec!["fir_last.bit".to_string()]);

    let mut c = working("none");
    let mut ic = ImageConfig::new();
    ic.accelerators.push(by_name("fir"));
    assert_eq!(fpgaconf(&mut c, &mut ic, &cat), Ok(()));
    assert_eq!(c.used_fpga_regions, vec![2, 3]);
}

#[test]
fn a_window_is_recorded_in_addition_to_those_recorded_before() {
    let cat = load_catalog(CATALOG).unwrap();
    let mut c = working("none");
    c.soft_core_mem.push(MemWindow {
        phys_start: "0x90000000".to_string(),
        virt_start: "0".to_string(),
        size: "0x100".to_string(),
    });
    let mut ic = ImageConfig::new();
    ic.accelerators.push(by_name("aes"));
    assert_eq!(fpgaconf(&mut c, &mut ic, &cat), Ok(()));
    assert_eq!(c.soft_core_mem.len(), 2);
    assert_eq!(c.soft_core_mem[0].phys_start, "0x90000000");
    assert_eq!(c.soft_core_mem[1].phys_start, "0xa0010000");
    let mut ic = ImageConfig::new();
    ic.accelerators.push(by_name("fir"));
    assert_eq!(fpgaconf(&mut c, &mut ic, &cat), Ok(()));
    assert_eq!(c.soft_core_mem.len(), 2);
    assert_eq!(c.used_fpga_regions, vec![2, 3]);
    let mut ic = ImageConfig::new();
    ic.accelerators.push(by_name("aes"));
    assert_eq!(fpgaconf(&mut c, &mut ic, &cat), Err(EngineError::RegionUnavailable));
    assert_eq!(c.soft_core_mem.len(), 2);
}

#[test]
fn a_version_is_bound_whole_or_not_at_all() {
    let cat = load_catalog(CATALOG).unwrap();
    let mut c = working("none");
    c.fpga_regions = vec![0, 1, 2];
    let mut ic = ImageConfig::new();
    ic.accelerators.push(by_name("fir"));
    assert_eq!(fpgaconf(&mut c, &mut ic, &cat), Ok(()));
    assert_eq!(c.used_fpga_regions, vec![0]);
    assert_eq!(c.fpga_regions, vec![1, 2]);
    assert_eq!(ic.bitstreams, vec!["fir_small.bit".to_string()]);
    assert_eq!(ic.regions, vec![0]);
    assert_eq!(c.soft_core_mem.len(), 1);
    assert_eq!(c.soft_core_mem[0].phys_start, "0xa0000000");
    assert_eq!(c.descriptor.fpga_regions, 1);

    let mut c = working("none");
    c.fpga_regions = vec![1, 2];
    let mut ic = ImageConfig::new();
    ic.accelerators.push(by_name("fir"));
    assert_eq!(fpgaconf(&mut c, &mut ic, &cat), Err(EngineError::RegionUnavailable));
    assert_eq!(c.fpga_regions, vec![1, 2]);
    assert!(c.fpga_regions.contains(&2));
    assert!(c.used_fpga_regions.is_empty());
    assert!(ic.bitstreams.is_empty());
    assert!(ic.regions.is_empty());
}

#[test]
fn a_list_of_accelerators_is_bound_whole_or_not_at_all() {
    let cat = load_catalog(CATALOG).unwrap();
    let mut c = working("none");
    let mut ic = ImageConfig::new();
    ic.bitstreams.push("earlier.bit".to_string());
    ic.regions.push(9);
    ic.accelerators.push(by_name("fir"));
    ic.accelerators.push(by_name("aes"));
    ic.accelerators.push(by_name("aes"));
    assert_eq!(fpgaconf(&mut c, &mut ic, &cat), Err(EngineError::RegionUnavailable));
    assert_eq!(c.fpga_regions, vec![0, 1, 2, 3]);
    assert!(c.used_fpga_regions.is_empty());
    assert!(c.soft_core_mem.is_empty());
    assert_eq!(ic.bitstreams, vec!["earlier.bit".to_string()]);
    assert_eq!(ic.regions, vec![9]);
    ic.accelerators.pop();
    ic.accelerators.push(by_name("sha"));
    assert_eq!(fpgaconf(&mut c, &mut ic, &cat), Err(EngineError::NoCatalogEntry));
    ic.accelerators.pop();
    assert_eq!(fpgaconf(&mut c, &mut ic, &cat), Ok(()));
    assert_eq!(ic.bitstreams, vec!["earlier.bit".to_string(), "fir_wide.bit".to_string(), "aes.bit".to_string()]);
    assert_eq!(ic.regions, vec![9, 2, 3, 0]);
    assert_eq!(c.fpga_regions, vec![1]);
    assert_eq!(c.descriptor.fpga_regions, 0xd);
}

#[test]
fn an_explicit_request_names_its_region_and_its_window() {
    let cat = load_catalog(CATALOG).unwrap();
    let mut c = working("none");
    let mut ic = ImageConfig::new();
    ic.accelerators.push(Accelerator {
        core: "ignored".to_string(),
        bitstream: "/opt/bit/soft.core.bit".to_string(),
        region: "1-3".to_string(),
        starting_phys_address: "0xb0000000".to_string(),
        acc_starting_vaddress: String::new(),
        mem_size: "0x2000".to_string(),
    });
    assert_eq!(fpgaconf(&mut c, &mut ic, &cat), Ok(()));
    assert_eq!(ic.bitstreams, vec!["soft.core.bit".to_string()]);
    assert_eq!(c.used_fpga_regions, vec![1, 3]);
    assert_eq!(c.fpga_regions, vec![0, 2]);
    let w = &c.soft_core_mem[0];
    assert_eq!((w.phys_start.as_str(), w.virt_start.as_str(), w.size.as_str()), ("0xb0000000", "0", "0x2000"));
    let mut ic = ImageConfig::new();
    let mut again = Accelerator {
        core: String::new(),
        bitstream: "plain.bit".to_string(),
        region: "3".to_string(),
        starting_phys_address: String::new(),
        acc_starting_vaddress: "0x1".to_string(),
        mem_size: String::new(),
    };
    ic.accelerators.push(Accelerator { ..by_name("") });
    ic.accelerators.clear();
    again.region = "3".to_string();
    ic.accelerators.push(again);
    assert_eq!(fpgaconf(&mut c, &mut ic, &cat), Err(EngineError::RegionUnavailable));
    ic.accelerators[0].region = "2".to_string();
    let mut fresh = working("none");
    fresh.fpga_regions = vec![0, 2];
    assert_eq!(fpgaconf(&mut fresh, &mut ic, &cat), Ok(()));
    assert_eq!(ic.bitstreams, vec!["plain.bit".to_string()]);
    assert!(fresh.soft_core_mem.is_empty());
}

#[test]
fn the_preamble_follows_guest_and_platform() {
    let mut fc = FrontendConfig::new();
    fc.containerid = "cell-1".to_string();
    let mut ic = ImageConfig::new();
    let mut p = platform();
    let mut c = Backendconfig::new();
    ic.os_var = "zephyr".to_string();
    assert_eq!(confighelperstart(&fc, &mut c, &ic, &p), Ok(()));
    assert_eq!(c.descriptor.preamble, Template::QemuPreamble);
    assert_eq!(c.descriptor.name, "cell-1");
    p.preamble = Some("ULTRASCALE_PREAMBLE".to_string());
    assert_eq!(confighelperstart(&fc, &mut c, &ic, &p), Ok(()));
    assert_eq!(c.descriptor.preamble, Template::UltrascalePreamble);
    p.preamble = Some("OTHER_PREAMBLE".to_string());
    assert_eq!(confighelperstart(&fc, &mut c, &ic, &p), Err(EngineError::DescriptorTemplateMissing));
    p.preamble = None;
    assert_eq!(confighelperstart(&fc, &mut c, &ic, &p), Err(EngineError::DescriptorTemplateMissing));
    ic.os_var = "linux".to_string();
    assert_eq!(confighelperstart(&fc, &mut c, &ic, &p), Ok(()));
    assert_eq!(c.descriptor.preamble, Template::LinuxPreamble);
    ic.os_var = "Linux".to_string();
    assert_eq!(confighelperstart(&fc, &mut c, &ic, &p), Err(EngineError::DescriptorTemplateMissing));
    assert_eq!(c.descriptor.preamble, Template::LinuxPreamble);
}

#[test]
fn the_descriptor_is_rendered_at_the_end() {
    let mut c = Backendconfig::new();
    c.descriptor.name = "n".to_string();
    assert_eq!(confighelperend(&mut c), Ok(()));
    assert!(c.conf.starts_with("\n#include \"cell.h\"\n"));
    assert!(c.conf.ends_with("\n};\n"));
    c.descriptor.num_irqchips = 1;
    let before = c.conf.clone();
    assert_eq!(confighelperend(&mut c), Err(EngineError::ArrayCountMismatch));
    assert_eq!(c.conf, before);
    c.descriptor.num_irqchips = 0;
    c.descriptor.irqchips.push(Block { template: Template::Ram, text: String::new() });
    assert_eq!(confighelperend(&mut c), Err(EngineError::DescriptorTemplateMissing));
}

#[test]
fn a_failed_plan_leaves_the_image_as_it_was() {
    let state = r#"
[containerid]
ids = []
[free_segments]
segments = ["0x1000, 0x2000"]
[free_pci_devices_bdf]
bdf = []
[free_rcpus]
ids = []
[free_fpga_regions]
ids = [0, 2, 3]
"#;
    let l = retrieve_state(state).unwrap();
    let mut fc = FrontendConfig::new();
    fc.containerid = "p".to_string();
    let mut ic = ImageConfig::new();
    ic.os_var = "zephyr".to_string();
    ic.net = "none".to_string();
    ic.accelerators.push(by_name("fir"));
    let r = plan_request(&fc, &mut ic, &l, &platform(), CATALOG, "0-4");
    assert_eq!(r.err(), Some(EngineError::OutOfMemory));
    assert!(ic.bitstreams.is_empty());
    assert!(ic.regions.is_empty());
    assert_eq!(l.free_fpga_regions, vec![0, 2, 3]);
}

#[test]
fn places_and_uses() {
    assert_eq!(place(Template::Uart), Some(Place::Fixed));
    assert_eq!(place(Template::Ram0), Some(Place::Ram));
    assert_eq!(place(Template::IvshmemDemo), Some(Place::Shared));
    assert_eq!(place(Template::IrqChip), Some(Place::Irq));
    assert_eq!(place(Template::PciDeviceEmpty), Some(Place::Pci));
    assert_eq!(place(Template::AccelMem), None);
    assert_eq!(place(Template::QemuPreamble), None);
    let p = platform();
    assert!(uses_are(&p.regions, true));
    assert!(!uses_are(&p.regions, false));
    assert!(uses_are(&p.devices, false));
    assert!(uses_kind(&p.regions, Template::Ram0));
    assert!(!uses_kind(&p.regions, Template::Tcma));
    let ctx = Context {
        start: 0x1000,
        request: 0x20,
        has_ram0: false,
        address: None,
        networked: true,
        slot: 3,
        demo_start: 7,
        net_start: 12,
    };
    let b = render_use(&TemplateUse { template: Template::PciDevice, params: Vec::new() }, &ctx);
    assert!(b.text.contains(".bdf = 3 << 3,"));
    assert!(b.text.contains(".shmem_regions_start = 12,"));
    let r = render_use(&TemplateUse { template: Template::Ram, params: Vec::new() }, &ctx);
    assert!(r.text.contains(".phys_start = 0x1000,"));
    assert!(r.text.contains(".virt_start = {virt_start},"));
    assert!(r.text.contains(".size = 0x20,"));
}

#[test]
fn the_memory_table_is_rendered_from_the_platform() {
    let p = platform();
    let ctx = Context {
        start: 0x4000_0000,
        request: 0x20_0000,
        has_ram0: true,
        address: Some(0x7f90_0000),
        networked: false,
        slot: 0,
        demo_start: 0,
        net_start: 0,
    };
    let blocks = generate_config(&p, &Vec::new(), &ctx);
    let kinds: Vec<Template> = blocks.iter().map(|b| b.template).collect();
    assert_eq!(kinds, vec![Template::Uart, Template::CommRegion, Template::Ram0, Template::Ram]);
    assert_eq!(count_mem_regions(&blocks), 4);
    assert!(blocks[0].text.contains(".phys_start = 0x09000000,"));
    assert!(blocks[0].text.contains(".size = 0x1000,"));
    assert!(!blocks[0].text.contains("blue"));
    assert!(blocks[2].text.contains(".phys_start = 0x40000000,"));
    assert!(blocks[2].text.contains(".virt_start = 0,"));
    assert!(blocks[3].text.contains(".phys_start = 0x40010000,"));
    assert!(blocks[3].text.contains(".size = 0x200000,"));
    let networked = Context { networked: true, ..ctx };
    let blocks = generate_config(&p, &Vec::new(), &networked);
    assert_eq!(blocks.len(), 6);
    assert_eq!(count_mem_regions(&blocks), 13);
    assert_eq!(blocks[5].text, "JAILHOUSE_SHMEM_NET_REGIONS(0x7f900000, 1),");
    assert_eq!(blocks[4].template, Template::IvshmemDemo);
}
