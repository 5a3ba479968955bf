use runphi::config_generator::{config_generate, Backendconfig, Generated};
use runphi::error::EngineError;
use runphi::frontend::{Accelerator, FrontendConfig, ImageConfig};
use runphi::segment::Segment;
use runphi::state::{destroy_update_state, retrieve_state};
use runphi::templates::Template;

const STATE: &str = r#"
[containerid]
ids = []

[free_segments]
segments = ["0x70000000, 0x78000000"]

[free_pci_devices_bdf]
bdf = [1, 2]

[free_rcpus]
ids = [0, 1]

[free_fpga_regions]
ids = [0, 1, 2, 3]
"#;

const PLATFORM: &str = r#"
[jailhouse_preample]
preamble = "ULTRASCALE_PREAMBLE"

[mem_regions]
regions = ["IVSHMEM_TEMPLATE", "UART_TEMPLATE", "COMM_REGION_TEMPLATE", "RAM_TEMPLATE"]

[UART_TEMPLATE]
phys_start = "0xff010000"
virt_start = "0xff010000"
size = "0x1000"

[RAM_TEMPLATE]
virt_start = "0x0"

[IVSHMEM_TEMPLATE]
address = "0x7f900000"

[devices]
devs = ["IRQ_CHIP_TEMPLATE", "PCI_DEVICE_TEMPLATE"]

[IRQ_CHIP_TEMPLATE]
gic_address = "0xf9010000"
uart_pin = "54"
ivshmem_pin = "141"
"#;

const CATALOG: &str = r#"
[hardware_designs]
designs = ["fir", "aes"]

[fir]
versions = ["fir_wide", "fir_small"]

[fir_wide]
name = "fir_wide.bit"
region = "2-3"

[fir_small]
name = "fir_small.bit"
region = 0
phys_start = "0xa0000000"
size = "0x10000"

[aes]
versions = ["aes_v1"]

[aes_v1]
name = "aes.bit"
region = "0"
phys_start = "0xa0010000"
virt_start = "0xa0010000"
size = "0x1000"
"#;

fn request(id: &str, json: &str) -> FrontendConfig {
    let mut fc = FrontendConfig::new();
    fc.jsonconfig = serde_json::from_str(json).unwrap();
    fc.containerid = id.to_string();
    fc.crundir = format!("/run/runPHI/{}", id);
    fc
}

fn image(os: &str, net: &str) -> ImageConfig {
    let mut ic = ImageConfig::new();
    ic.os_var = os.to_string();
    ic.net = net.to_string();
    ic
}

fn by_name(core: &str) -> Accelerator {
    Accelerator {
        core: core.to_string(),
        bitstream: String::new(),
        region: String::new(),
        starting_phys_address: String::new(),
        acc_starting_vaddress: String::new(),
        mem_size: String::new(),
    }
}

fn explicit(bitstream: &str, region: &str) -> Accelerator {
    Accelerator {
        core: String::new(),
        bitstream: bitstream.to_string(),
        region: region.to_string(),
        starting_phys_address: String::new(),
        acc_starting_vaddress: String::new(),
        mem_size: String::new(),
    }
}

const TWO_CPUS: &str = r#"{"linux": {"resources": {"cpu": {"quota": 20000, "period": 10000},
    "memory": {"limit": 67108864}}}}"#;

fn create_c1() -> Generated {
    let fc = request("c1", TWO_CPUS);
    config_generate(&fc, image("zephyr", "none"), STATE, PLATFORM, CATALOG, "0-8").unwrap()
}

fn count(hay: &str, needle: &str) -> usize {
    hay.matches(needle).count()
}

#[test]
fn create_reserves_two_cpus_and_64_mib() {
    let g = create_c1();
    let c: &Backendconfig = &g.working;
    assert_eq!(c.cpus, 2);
    assert_eq!(c.descriptor.cpus, 0x3);
    assert!(c.conf.contains("\n\t.cpus = {\n\t\t0x3,\n\t},\n"));
    assert_eq!(c.used_segments, vec![Segment { start: 0x7000_0000, end: 0x7400_0000 }]);
    assert_eq!(g.ledger.free_segments, vec![Segment { start: 0x7400_0000, end: 0x7800_0000 }]);
    assert_eq!(g.ledger.containers.len(), 1);
    assert_eq!(g.ledger.containers[0].id, "c1");
    assert_eq!(g.ledger.containers[0].memory, Segment { start: 0x7000_0000, end: 0x7400_0000 });
    assert_eq!(g.ledger.containers[0].bdf, None);
    assert!(g.ledger.containers[0].rcpus.is_empty());
    assert_eq!(g.ledger.free_bdf, vec![1, 2]);
    assert_eq!(g.ledger.free_rcpus, vec![0, 1]);
}

#[test]
fn create_renders_one_ram_region_and_the_fixed_regions() {
    let g = create_c1();
    let d = &g.working.descriptor;
    let kinds: Vec<Template> = d.mem_regions.iter().map(|b| b.template).collect();
    assert_eq!(kinds, vec![Template::Uart, Template::CommRegion, Template::Ram]);
    assert_eq!(d.num_memory_regions, 3);
    assert!(d.mem_regions[2].text.contains(".phys_start = 0x70000000,"));
    assert!(d.mem_regions[2].text.contains(".size = 0x4000000,"));
    assert!(d.mem_regions[2].text.contains(".virt_start = 0x0,"));
    let conf = &g.working.conf;
    assert_eq!(count(conf, "/* RAM */"), 1);
    assert_eq!(count(conf, "/* UART */"), 1);
    assert_eq!(count(conf, "/* communication region */"), 1);
    assert!(conf.contains("\tstruct jailhouse_memory mem_regions[3];\n"));
    assert!(!conf.contains("JAILHOUSE_SHMEM_NET_REGIONS"));
}

#[test]
fn create_without_network_has_no_pci_device() {
    let g = create_c1();
    let d = &g.working.descriptor;
    assert_eq!(d.num_pci_devices, 0);
    assert_eq!(d.pci_devices.len(), 1);
    assert_eq!(d.pci_devices[0].template, Template::PciDeviceEmpty);
    assert_eq!(d.num_irqchips, 1);
    assert_eq!(d.irqchips[0].template, Template::IrqChipPlain);
    let conf = &g.working.conf;
    assert!(conf.contains("\tstruct jailhouse_pci_device pci_devices[0];\n"));
    assert!(conf.contains("\tstruct jailhouse_irqchip irqchips[1];\n"));
    assert!(conf.contains("\tunion jailhouse_stream_id stream_ids[0];\n"));
    assert!(!conf.contains("JAILHOUSE_PCI_TYPE_IVSHMEM"));
    assert!(conf.contains("1 << (54 - 32),"));
    assert!(conf.contains(".address = 0xf9010000,"));
}

#[test]
fn create_names_the_cell_and_ends_the_descriptor() {
    let g = create_c1();
    let conf = &g.working.conf;
    assert!(conf.contains(".name = \"c1\","));
    assert!(conf.ends_with("\n};\n"));
    assert!(!conf.contains("{containerid}"));
    assert!(!conf.contains("{tables}"));
    assert_eq!(g.working.conffile, "/run/runPHI/c1/configc1.conf");
    assert_eq!(g.console, None);
}

#[test]
fn destroy_gives_everything_back() {
    let g = create_c1();
    let after = destroy_update_state(&g.state, "c1").unwrap();
    let l = retrieve_state(&after).unwrap();
    assert_eq!(l.free_segments, vec![Segment { start: 0x7000_0000, end: 0x7800_0000 }]);
    assert!(l.containers.is_empty());
    assert_eq!(l.free_bdf, vec![1, 2]);
    assert_eq!(l.free_rcpus, vec![0, 1]);
    assert_eq!(l.free_fpga_regions, vec![0, 1, 2, 3]);
}

#[test]
fn second_create_fails_when_its_region_is_taken() {
    let fc1 = request("c1", TWO_CPUS);
    let mut ic1 = image("zephyr", "none");
    ic1.accelerators.push(explicit("/lib/firmware/first.bit", "0"));
    let g1 = config_generate(&fc1, ic1, STATE, PLATFORM, CATALOG, "0-8").unwrap();
    assert_eq!(g1.ledger.containers[0].fpga_regions, vec![0]);
    assert_eq!(g1.image.bitstreams, vec!["first.bit".to_string()]);
    assert_eq!(g1.image.regions, vec![0]);

    let fc2 = request("c2", TWO_CPUS);
    let mut ic2 = image("zephyr", "none");
    ic2.accelerators.push(by_name("aes"));
    let r = config_generate(&fc2, ic2, &g1.state, PLATFORM, CATALOG, "0-8");
    assert_eq!(r.err(), Some(EngineError::RegionUnavailable));

    let l = retrieve_state(&g1.state).unwrap();
    assert_eq!(l.containers.len(), 1);
    assert_eq!(l.containers[0].id, "c1");
    assert_eq!(l.containers[0].fpga_regions, vec![0]);
    assert_eq!(l.containers[0].memory, Segment { start: 0x7000_0000, end: 0x7400_0000 });
    assert_eq!(l.free_fpga_regions, vec![1, 2, 3]);
}

#[test]
fn create_with_network_takes_the_lowest_slot() {
    let fc = request("net1", TWO_CPUS);
    let g = config_generate(&fc, image("zephyr", "bridge"), STATE, PLATFORM, CATALOG, "0-8")
        .unwrap();
    let d = &g.working.descriptor;
    assert_eq!(g.working.used_bdf, Some(1));
    assert_eq!(g.ledger.free_bdf, vec![2]);
    assert_eq!(g.ledger.containers[0].bdf, Some(1));
    let kinds: Vec<Template> = d.mem_regions.iter().map(|b| b.template).collect();
    assert_eq!(
        kinds,
        vec![Template::Uart, Template::CommRegion, Template::Ram, Template::Ivshmem]
    );
    assert_eq!(d.num_memory_regions, 7);
    assert_eq!(d.num_pci_devices, 1);
    assert_eq!(d.num_irqchips, 1);
    assert_eq!(d.irqchips[0].template, Template::IrqChip);
    assert!(d.mem_regions[3].text.contains("JAILHOUSE_SHMEM_NET_REGIONS(0x7f900000, 1),"));
    assert!(d.pci_devices[0].text.contains(".bdf = 1 << 3,"));
    assert!(d.pci_devices[0].text.contains(".shmem_regions_start = 3,"));
    assert!(d.irqchips[0].text.contains("(1 << (141 - 128))"));
    assert!(g.working.conf.contains("\tstruct jailhouse_memory mem_regions[7];\n"));
    assert!(g.working.conf.contains("\tstruct jailhouse_pci_device pci_devices[1];\n"));
}

#[test]
fn second_network_channel_lies_a_stride_behind() {
    let fc = request("net1", TWO_CPUS);
    let g1 = config_generate(&fc, image("zephyr", "bridge"), STATE, PLATFORM, CATALOG, "0-8")
        .unwrap();
    let fc2 = request("net2", TWO_CPUS);
    let g2 = config_generate(&fc2, image("zephyr", "bridge"), &g1.state, PLATFORM, CATALOG, "0-8")
        .unwrap();
    assert_eq!(g2.working.used_bdf, Some(2));
    assert!(g2.working.conf.contains("JAILHOUSE_SHMEM_NET_REGIONS(0x7fa00000, 1),"));
    assert!(g2.working.conf.contains(".bdf = 2 << 3,"));
    let fc3 = request("net3", TWO_CPUS);
    let r = config_generate(&fc3, image("zephyr", "bridge"), &g2.state, PLATFORM, CATALOG, "0-8");
    assert_eq!(r.err(), Some(EngineError::BdfExhausted));
}

#[test]
fn rpu_guest_gets_auxiliary_cores_and_no_cpu() {
    let fc = request("r1", TWO_CPUS);
    let mut ic = image("zephyr", "none");
    ic.rpu_req = true;
    let g = config_generate(&fc, ic, STATE, PLATFORM, CATALOG, "0-8").unwrap();
    assert_eq!(g.working.cpus, 0);
    assert_eq!(g.working.descriptor.cpus, 0);
    assert_eq!(g.working.used_rcpus, vec![0, 1]);
    assert_eq!(g.working.descriptor.rcpus, Some(0x3));
    assert!(g.ledger.free_rcpus.is_empty());
    assert_eq!(g.ledger.containers[0].rcpus, vec![0, 1]);
    assert!(g.working.conf.contains("\n\t.rcpus = {\n\t\t0x3,\n\t},\n"));
    assert!(g.working.conf.contains("\n\t.cpus = {\n\t\t0x0,\n\t},\n"));
}

#[test]
fn accelerator_by_name_takes_the_first_version_that_fits() {
    let fc = request("a1", TWO_CPUS);
    let mut ic = image("zephyr", "none");
    ic.accelerators.push(by_name("fir"));
    ic.accelerators.push(by_name("aes"));
    let g = config_generate(&fc, ic, STATE, PLATFORM, CATALOG, "0-8").unwrap();
    assert_eq!(g.working.used_fpga_regions, vec![2, 3, 0]);
    assert_eq!(g.ledger.free_fpga_regions, vec![1]);
    assert_eq!(g.image.bitstreams, vec!["fir_wide.bit".to_string(), "aes.bit".to_string()]);
    assert_eq!(g.image.regions, vec![2, 3, 0]);
    assert_eq!(g.working.descriptor.fpga_regions, 0b1101);
    assert!(g.working.conf.contains("\n\t.fpga_regions = {\n\t\t0xd,\n\t},\n"));
    let d = &g.working.descriptor;
    assert_eq!(d.num_stream_ids, 1);
    assert_eq!(d.stream_ids[0].template, Template::StreamId);
    assert!(g.working.conf.contains("\tunion jailhouse_stream_id stream_ids[1];\n"));
    let kinds: Vec<Template> = d.mem_regions.iter().map(|b| b.template).collect();
    assert_eq!(
        kinds,
        vec![Template::Uart, Template::CommRegion, Template::Ram, Template::AccelMem]
    );
    assert!(d.mem_regions[3].text.contains(".phys_start = 0xa0010000,"));
    assert!(d.mem_regions[3].text.contains(".virt_start = 0xa0010000,"));
    assert!(d.mem_regions[3].text.contains(".size = 0x1000,"));
    assert_eq!(d.num_memory_regions, 4);
}

#[test]
fn declared_lengths_match_emitted_entries_in_every_combination() {
    for net in ["none", "bridge"] {
        for accelerators in 0..3 {
            for rpu in [false, true] {
                let fc = request("combo", TWO_CPUS);
                let mut ic = image("zephyr", net);
                ic.rpu_req = rpu;
                if accelerators >= 1 {
                    ic.accelerators.push(by_name("fir"));
                }
                if accelerators >= 2 {
                    ic.accelerators.push(by_name("aes"));
                }
                let g = config_generate(&fc, ic, STATE, PLATFORM, CATALOG, "0-8").unwrap();
                let d = &g.working.descriptor;
                let entries = |blocks: &Vec<runphi::descriptor::Block>| -> usize {
                    blocks.iter().map(|b| b.template.entry_count() as usize).sum()
                };
                assert_eq!(d.num_memory_regions, entries(&d.mem_regions));
                assert_eq!(d.num_irqchips, entries(&d.irqchips));
                assert_eq!(d.num_pci_devices, entries(&d.pci_devices));
                assert_eq!(d.num_stream_ids, entries(&d.stream_ids));
                let conf = &g.working.conf;
                let shm = if net == "none" { 0 } else { 4 };
                let plain = count(conf, ".flags = JAILHOUSE_MEM");
                assert_eq!(d.num_memory_regions, plain + shm);
                assert!(conf.contains(&format!("mem_regions[{}];", plain + shm)));
                assert!(conf.contains(&format!(
                    "pci_devices[{}];",
                    count(conf, ".type = JAILHOUSE_PCI_TYPE_IVSHMEM,")
                )));
                assert!(conf.contains(&format!("irqchips[{}];", count(conf, "/* GIC */"))));
                assert!(conf.contains(&format!("stream_ids[{}];", count(conf, ".mmu500.id"))));
            }
        }
    }
}

#[test]
fn too_many_cpus_are_refused() {
    let fc = request("big", r#"{"linux": {"resources": {"cpu": {"quota": 90000, "period": 10000}}}}"#);
    let r = config_generate(&fc, image("zephyr", "none"), STATE, PLATFORM, CATALOG, "0-8");
    assert_eq!(r.err(), Some(EngineError::InsufficientCpu));
}

#[test]
fn too_many_rpus_are_refused() {
    let fc = request("big", r#"{"linux": {"resources": {"cpu": {"quota": 30000, "period": 10000}}}}"#);
    let mut ic = image("zephyr", "none");
    ic.rpu_req = true;
    let r = config_generate(&fc, ic, STATE, PLATFORM, CATALOG, "0-8");
    assert_eq!(r.err(), Some(EngineError::InsufficientRpu));
}

#[test]
fn too_much_memory_is_refused() {
    let fc = request("big", r#"{"linux": {"resources": {"memory": {"limit": 134217729}}}}"#);
    let r = config_generate(&fc, image("zephyr", "none"), STATE, PLATFORM, CATALOG, "0-8");
    assert_eq!(r.err(), Some(EngineError::OutOfMemory));
}

#[test]
fn unknown_core_type_is_refused() {
    let fc = request("a", TWO_CPUS);
    let mut ic = image("zephyr", "none");
    ic.accelerators.push(by_name("fft"));
    let r = config_generate(&fc, ic, STATE, PLATFORM, CATALOG, "0-8");
    assert_eq!(r.err(), Some(EngineError::NoCatalogEntry));
}

#[test]
fn unknown_guest_kind_is_refused() {
    let fc = request("a", TWO_CPUS);
    let r = config_generate(&fc, image("freertos", "none"), STATE, PLATFORM, CATALOG, "0-8");
    assert_eq!(r.err(), Some(EngineError::DescriptorTemplateMissing));
}

#[test]
fn corrupt_ledger_is_refused() {
    let fc = request("a", TWO_CPUS);
    let r = config_generate(&fc, image("zephyr", "none"), "[free_rcpus]\nids = [0]\n", PLATFORM, CATALOG, "0-8");
    assert_eq!(r.err(), Some(EngineError::LedgerCorrupt));
}

#[test]
fn same_container_twice_is_refused() {
    let g = create_c1();
    let fc = request("c1", TWO_CPUS);
    let r = config_generate(&fc, image("zephyr", "none"), &g.state, PLATFORM, CATALOG, "0-8");
    assert_eq!(r.err(), Some(EngineError::LedgerCorrupt));
}

#[test]
fn defaults_are_one_cpu_and_64_mib() {
    let fc = request("d", "{}");
    let g = config_generate(&fc, image("zephyr", "none"), STATE, PLATFORM, CATALOG, "0-8").unwrap();
    assert_eq!(g.working.cpus, 1);
    assert_eq!(g.working.descriptor.cpus, 0x1);
    assert_eq!(g.working.used_segments, vec![Segment { start: 0x7000_0000, end: 0x7400_0000 }]);
}

#[test]
fn long_names_are_cut_to_24_characters() {
    let fc = request("0123456789abcdefghijklmnopqrstuvwxyz", TWO_CPUS);
    let g = config_generate(&fc, image("zephyr", "none"), STATE, PLATFORM, CATALOG, "0-8").unwrap();
    assert_eq!(g.ledger.containers[0].id, "0123456789abcdefghijklmn");
    assert!(g.working.conf.contains(".name = \"0123456789abcdefghijklmn\","));
}

#[test]
fn linux_guest_gets_its_own_preamble() {
    let fc = request("lin", TWO_CPUS);
    let g = config_generate(&fc, image("linux", "none"), STATE, PLATFORM, CATALOG, "0-8").unwrap();
    assert_eq!(g.working.descriptor.preamble, Template::LinuxPreamble);
    assert!(g.working.conf.contains(".vpci_irq_base = 140-32,"));
}

#[test]
fn console_is_handed_out_with_a_line_feed() {
    let mut fc = request("con", TWO_CPUS);
    fc.guestconsole = "/tmp/console.sock".to_string();
    let g = config_generate(&fc, image("zephyr", "none"), STATE, PLATFORM, CATALOG, "0-8").unwrap();
    assert_eq!(g.console, Some("/tmp/console.sock\n".to_string()));
}
