use runphi::boot::{bootconfbackend, DEFAULT_CPIO, DEFAULT_DTB, DEFAULT_KERNEL};
use runphi::communication::{communicationconfig, CONSOLE_TEMPLATE};
use runphi::config_generator::Backendconfig;
use runphi::error::EngineError;
use runphi::forwarding::{delete_entry_table, need_forward_to_runc, starts_pause, text_contains};
use runphi::frontend::{mountpoint_of, pid_of, state_report, FrontendConfig, ImageConfig};
use runphi::logging::{
    level_from_environment, log_elapsed_time, parse_log_level, Level, Logger,
};
use runphi::pattern::capture_in_lines;
use runphi::xen;

fn json(text: &str) -> serde_json::Value {
    serde_json::from_str(text).unwrap()
}

#[test]
fn every_failure_names_its_resource() {
    let all = [
        (EngineError::LedgerCorrupt, "resource ledger"),
        (EngineError::LedgerIOError, "resource ledger"),
        (EngineError::InsufficientCpu, "cpu"),
        (EngineError::InsufficientRpu, "rpu"),
        (EngineError::OutOfMemory, "memory"),
        (EngineError::NoCatalogEntry, "fpga"),
        (EngineError::RegionUnavailable, "fpga"),
        (EngineError::BdfExhausted, "pci"),
        (EngineError::DescriptorTemplateMissing, "descriptor"),
        (EngineError::ArrayCountMismatch, "descriptor"),
        (EngineError::UnknownContainer, "resource ledger"),
    ];
    let mut seen: Vec<&str> = Vec::new();
    for (e, class) in all {
        let m = e.message();
        assert!(m.starts_with(class), "{}", m);
        assert!(!seen.contains(&m));
        seen.push(m);
    }
    assert_eq!(EngineError::InsufficientCpu.message(), "cpu: not enough free CPU left");
}

#[test]
fn log_levels_are_read_in_any_case() {
    assert_eq!(parse_log_level("error"), Some(Level::Error));
    assert_eq!(parse_log_level("WARN"), Some(Level::Warn));
    assert_eq!(parse_log_level("Info"), Some(Level::Info));
    assert_eq!(parse_log_level("dEbUg"), Some(Level::Debug));
    assert_eq!(parse_log_level("trace"), Some(Level::Trace));
    assert_eq!(parse_log_level("warning"), None);
    assert_eq!(parse_log_level(""), None);
    assert_eq!(parse_log_level(" info"), None);
    assert_eq!(parse_log_level("ınfo"), None);
    assert_eq!(level_from_environment(None), Level::Error);
    assert_eq!(level_from_environment(Some("debug")), Level::Debug);
    assert_eq!(level_from_environment(Some("loud")), Level::Info);
}

#[test]
fn the_log_writes_down_to_its_level() {
    let mut log = Logger::new(Level::Info);
    assert_eq!(log.log(Level::Error, "bad"), Some("Error: bad\n".to_string()));
    assert_eq!(log.log(Level::Info, "so"), Some("Info: so\n".to_string()));
    assert_eq!(log.log(Level::Debug, "detail"), None);
    log.set_level(Level::Trace);
    assert_eq!(log.log(Level::Debug, "detail"), Some("Debug: detail\n".to_string()));
    assert_eq!(log.log(Level::Trace, ""), Some("Trace: \n".to_string()));
    assert_eq!(log.log(Level::Warn, "w"), Some("Warn: w\n".to_string()));
    assert_eq!(log.level, Level::Trace);
    assert!(Level::Error.rank_of() < Level::Trace.rank_of());
}

#[test]
fn pause_containers_go_to_the_other_runtime() {
    let pause = json(r#"{"process": {"args": ["/bin/sh", "/pause"]}}"#);
    let guest = json(r#"{"process": {"args": ["/boot.bin", "/pause/x", 7]}}"#);
    let odd = json(r#"{"process": {"args": "/pause"}}"#);
    let table = vec!["abc123".to_string(), "xx-def456-yy".to_string()];
    assert!(starts_pause(&pause));
    assert!(!starts_pause(&guest));
    assert!(!starts_pause(&odd));
    assert!(!starts_pause(&serde_json::Value::Null));
    let d = need_forward_to_runc(&pause, "new1", &table);
    assert!(d.forward && d.record);
    let d = need_forward_to_runc(&guest, "new1", &table);
    assert!(!d.forward && !d.record);
    let d = need_forward_to_runc(&guest, "def456", &table);
    assert!(d.forward && !d.record);
    let d = need_forward_to_runc(&serde_json::Value::Null, "abc123", &table);
    assert!(d.forward && !d.record);
    let d = need_forward_to_runc(&guest, "abc1234", &table);
    assert!(!d.forward);
    let d = need_forward_to_runc(&guest, "", &Vec::new());
    assert!(!d.forward);
    let d = need_forward_to_runc(&guest, "", &vec![String::new()]);
    assert!(d.forward);
}

#[test]
fn deleted_containers_leave_the_table() {
    let table = vec!["abc123".to_string(), "xx-def456-yy".to_string(), "abc".to_string()];
    assert_eq!(delete_entry_table(&table, "def456"), vec!["abc123".to_string(), "abc".to_string()]);
    assert_eq!(delete_entry_table(&table, "abc"), vec!["xx-def456-yy".to_string()]);
    assert_eq!(delete_entry_table(&table, "zzz"), table);
    assert!(delete_entry_table(&table, "").is_empty());
    let c = |s: &str| s.chars().collect::<Vec<char>>();
    assert!(text_contains(&c("hello"), &c("llo")));
    assert!(text_contains(&c("hello"), &c("")));
    assert!(text_contains(&c(""), &c("")));
    assert!(!text_contains(&c("hello"), &c("lol")));
    assert!(!text_contains(&c("hel"), &c("hello")));
}

#[test]
fn the_request_is_read_from_the_runtime_configuration() {
    let mut fc = FrontendConfig::new();
    assert_eq!(fc.jsonconfig, serde_json::Value::Null);
    assert_eq!((fc.cpu_quota(), fc.cpu_period(), fc.mem_limit(), fc.mem_reservation()), (None, None, None, None));
    fc.jsonconfig = json(
        r#"{"linux": {"resources": {"cpu": {"quota": -1, "period": 5000, "cpus": "0-1"},
        "memory": {"limit": 18446744073709551615, "reservation": 1.5}}}}"#,
    );
    assert_eq!(fc.cpu_quota(), Some(-1));
    assert_eq!(fc.cpu_period(), Some(5000));
    assert_eq!(fc.mem_limit(), Some(u64::MAX));
    assert_eq!(fc.mem_reservation(), None);
    fc.jsonconfig = json(r#"{"linux": {"resources": {"cpu": {"quota": 9223372036854775808, "period": -5}}}}"#);
    assert_eq!(fc.cpu_quota(), None);
    assert_eq!(fc.cpu_period(), None);
    fc.jsonconfig = json(r#"{"linux": {"resources": ["cpu"]}}"#);
    assert_eq!(fc.cpu_quota(), None);
    fc.jsonconfig = json(r#"{"linux": {"resources": {"cpu": {"quota": "20000"}}}}"#);
    assert_eq!(fc.cpu_quota(), None);
}

#[test]
fn the_root_file_system_lies_in_the_bundle() {
    assert_eq!(mountpoint_of(&json(r#"{"root": {"path": "rootfs"}}"#), "/b/x"), Some("/b/x/rootfs".to_string()));
    assert_eq!(mountpoint_of(&json(r#"{"root": {"path": "/abs/rootfs"}}"#), "/b/x"), Some("/abs/rootfs".to_string()));
    assert_eq!(mountpoint_of(&json(r#"{"root": {"path": ""}}"#), "/b"), Some("/b/".to_string()));
    assert_eq!(mountpoint_of(&json(r#"{"root": {"path": 3}}"#), "/b"), None);
    assert_eq!(mountpoint_of(&json(r#"{"root": {}}"#), "/b"), None);
    assert_eq!(mountpoint_of(&json(r#"{"root": "rootfs"}"#), "/b"), None);
    assert_eq!(mountpoint_of(&json("[]"), "/b"), None);
}

#[test]
fn the_inmate_lies_under_the_mount_point() {
    let mut parsed = ImageConfig::new();
    parsed.os_var = "zephyr".to_string();
    parsed.inmate = "/app/zephyr.bin \n".to_string();
    let ic = ImageConfig::get_from_file("/mnt/c1", parsed);
    assert_eq!(ic.inmate, "/mnt/c1/app/zephyr.bin");
    assert_eq!(ic.os_var, "zephyr");
    let ic = ImageConfig::get_from_file("/mnt/c1", ImageConfig::new());
    assert_eq!(ic.inmate, "/mnt/c1/boot/boot.bin");
    let mut parsed = ImageConfig::new();
    parsed.inmate = " ".to_string();
    assert_eq!(ImageConfig::get_from_file(" /m", parsed).inmate, "/m");
}

#[test]
fn boot_defaults() {
    let mut ic = ImageConfig::new();
    bootconfbackend(&mut ic, "ignored");
    assert_eq!(ic.kernel, DEFAULT_KERNEL);
    assert_eq!(ic.kernel, "/root/runPHI/demo_containers/linux/Image");
    assert_eq!(ic.cpio, DEFAULT_CPIO);
    assert_eq!(ic.cpio, "/root/runPHI/demo_containers/linux/rootfs.cpio.gz");
    assert_eq!(ic.dtb, DEFAULT_DTB);
    assert_eq!(ic.dtb, "/root/jailhouse/configs/arm64/dts/inmate-qemu-arm64.dtb");
    let mut ic = ImageConfig::new();
    ic.kernel = "/k".to_string();
    ic.cpio = "yes".to_string();
    ic.dtb = "/d".to_string();
    bootconfbackend(&mut ic, "archive bytes");
    assert_eq!((ic.kernel.as_str(), ic.cpio.as_str(), ic.dtb.as_str()), ("/k", "archive bytes", "/d"));
}

#[test]
fn the_console_is_declared_behind_the_opening_of_the_cell() {
    let mut c = Backendconfig::new();
    c.conf = "struct {\n\t.cell = {\n\t\t.name = \"é\",\n\t},\n\t.cell = {},\n".to_string();
    assert_eq!(communicationconfig(&mut c), Ok(()));
    assert_eq!(
        c.conf,
        format!(
            "struct {{\n\t.cell = {{\n{}\n\n\t\t.name = \"é\",\n\t}},\n\t.cell = {{}},\n",
            CONSOLE_TEMPLATE
        )
    );
    assert!(CONSOLE_TEMPLATE.contains("\t.address = 0x09000000,\n"));
    let mut c = Backendconfig::new();
    c.conf = "cell = [".to_string();
    assert_eq!(communicationconfig(&mut c), Err(EngineError::DescriptorTemplateMissing));
    assert_eq!(c.conf, "cell = [");
}

#[test]
fn captures_in_lines() {
    let text = "a = 1\nname = \"first\"\nb\nname=\"second\"\n";
    assert_eq!(capture_in_lines(xen::NAME_PATTERN, text, 1, true), Some("first".to_string()));
    assert_eq!(capture_in_lines(xen::NAME_PATTERN, text, 1, false), Some("second".to_string()));
    assert_eq!(capture_in_lines(xen::NAME_PATTERN, text, 0, true), Some("name = \"first\"".to_string()));
    assert_eq!(capture_in_lines(xen::NAME_PATTERN, text, 2, true), None);
    assert_eq!(capture_in_lines(xen::NAME_PATTERN, "name = \"\"", 1, true), None);
    assert_eq!(capture_in_lines("name = \"(\\w+)\"\\n", text, 1, true), None);
    assert_eq!(capture_in_lines("(unclosed", text, 0, true), None);
    assert_eq!(capture_in_lines("a|(b)", "a\nb", 1, true), Some("b".to_string()));
    assert_eq!(capture_in_lines("a|(b)", "b\na", 1, false), Some("b".to_string()));
}

#[test]
fn a_xen_domain_is_configured_section_by_section() {
    let mut fc = FrontendConfig::new();
    fc.containerid = "dom1".to_string();
    fc.crundir = "/run/runPHI/dom1".to_string();
    fc.jsonconfig = json(
        r#"{"linux": {"resources": {"cpu": {"quota": 20000, "period": 10000},
        "memory": {"limit": 2048, "reservation": 4096}}}}"#,
    );
    let (ic, c) = xen::config_generate(&fc, ImageConfig::new(), 8, &vec![7, 3], 10000).unwrap();
    assert_eq!(ic.inmate, "/root/vmlinuz");
    assert_eq!(ic.ramdisk, "/root/initrd.gz");
    assert_eq!(c.cpus, 2);
    assert_eq!(c.conffile, "/run/runPHI/dom1/config.cfg");
    let want = "\n#---------------------------------------------------------------\n\
#Configuration file for container with id : dom1 \n\
#---------------------------------------------------------------\n\nname = \"dom1\" \n\n\
\n\nkernel = \"/root/vmlinuz\" \n\nramdisk = \"/root/initrd.gz\" \n\n\
\nvcpus = 2\n\ncpus = [5, 6] \n\ncpu_affinity = [\"5\", \"6\"]\n\n\
\n#storage_request = 4096M \ndisk = ['/dev/test-vg/lv_dom1,raw,xvda,rw']\n\
\n#Initial memory and max memory\nmemory = 2048 \nmaxmem = 2048\n\
\nvif = ['bridge=xenbr0'] \n\n";
    assert_eq!(c.conf, want);
    let v = xen::guest_volume(&c.conf);
    assert_eq!(v.storage_request, "4096M");
    assert_eq!(v.disk, "/dev/test-vg/lv_dom1");
    assert_eq!(xen::split_volume(&v.disk), Some(("lv_dom1".to_string(), "/dev/test-vg".to_string())));
    assert_eq!(xen::split_volume("noslash"), None);
    assert_eq!(xen::split_volume("a/"), Some((String::new(), "a".to_string())));
    let none = xen::guest_volume("nothing here");
    assert_eq!((none.storage_request.as_str(), none.disk.as_str()), ("", ""));
}

#[test]
fn a_xen_domain_is_refused_without_cpus_or_space() {
    let mut fc = FrontendConfig::new();
    fc.containerid = "d".to_string();
    fc.jsonconfig = json(r#"{"linux": {"resources": {"cpu": {"quota": 30000, "period": 10000}}}}"#);
    assert_eq!(
        xen::config_generate(&fc, ImageConfig::new(), 4, &vec![0, 1], 1000).err(),
        Some(EngineError::InsufficientCpu)
    );
    assert_eq!(
        xen::config_generate(&fc, ImageConfig::new(), 8, &vec![], 0).err(),
        Some(EngineError::OutOfMemory)
    );
    assert_eq!(
        xen::config_generate(&fc, ImageConfig::new(), 8, &vec![], 511).err(),
        Some(EngineError::OutOfMemory)
    );
    let (_, c) = xen::config_generate(&fc, ImageConfig::new(), 3, &vec![], 512).unwrap();
    assert!(c.conf.contains("cpus = [0, 1, 2] \n"));
    assert!(c.conf.contains("#storage_request = 512M \n"));
    assert!(c.conf.contains("memory = 512 \nmaxmem = 512\n"));
}

#[test]
fn xen_sections() {
    let mut c = xen::Backendconfig::new();
    assert_eq!((c.conf.as_str(), c.cpus, c.conffile.as_str(), c.net.as_str()), ("", 0, "", ""));
    assert_eq!(xen::netconfig(&mut c), Ok(()));
    assert_eq!(c.conf, "\nvif = ['bridge=xenbr0'] \n\n");
    let mut c = xen::Backendconfig::new();
    assert_eq!(xen::cpuconf(&mut c, 0, -5, &vec![]), Ok(()));
    assert_eq!(c.conf, "\nvcpus = 0\n\ncpus = [] \n\ncpu_affinity = []\n\n");
    assert_eq!(xen::cpuconf(&mut c, 1, 0, &vec![]), Err(EngineError::InsufficientCpu));
    let mut c = xen::Backendconfig::new();
    assert_eq!(xen::memconf(&mut c, 0, 0, "vg", 5), Ok(()));
    assert_eq!(
        c.conf,
        "\n#storage_request = 1024M\ndisk = ['/dev/vg/lv_,raw,xvda,rw']\n\n#Initial memory and max memory\nmemory =  1024 \nmaxmem = 1024\n"
    );
    let mut ic = ImageConfig::new();
    ic.inmate = "/k".to_string();
    let mut c = xen::Backendconfig::new();
    xen::bootconf(&mut c, &mut ic);
    assert_eq!(c.conf, "\n\nkernel = \"/k\" \n\nramdisk = \"/root/initrd.gz\" \n\n");
    assert_eq!(xen::LVM_GROUP_NAME, "test-vg");
}

#[test]
fn elapsed_time_is_reported_in_nanoseconds() {
    assert_eq!(log_elapsed_time("Duration of save state", 1234), "Duration of save state :[1234 ns]");
    assert_eq!(log_elapsed_time("", 0), " :[0 ns]");
    assert_eq!(
        log_elapsed_time("x", u128::MAX),
        format!("x :[{} ns]", u128::MAX)
    );
}

#[test]
fn the_state_of_a_container_is_reported() {
    let text = state_report("c1", 4242, "/b", "/b/rootfs", "2024-05-06T07:08:09Z");
    let want = r#"{
      "ociVersion": "1.0.2-dev",
      "id": "c1",
      "pid": 4242,
      "status": "running",
      "bundle": "/b",
      "rootfs": "/b/rootfs",
      "created": "2024-05-06T07:08:09Z",
      "owner": ""
    }"#;
    assert_eq!(text, want);
    let v: serde_json::Value = serde_json::from_str(&text).unwrap();
    assert_eq!(v["pid"].as_i64(), Some(4242));
}

#[test]
fn process_identifiers_are_read_or_default_to_one() {
    for text in ["4242", " 17\n", "+5", "-5", "0", "2147483647", "-2147483648", "2147483648",
        "-2147483649", "", "-", "--1", "-+1", "+-1", "12a", "1 2", "0x10", "007"] {
        assert_eq!(pid_of(text), text.trim().parse::<i32>().unwrap_or(1), "{:?}", text);
    }
}

#[test]
fn the_cpu_listing_reports_the_number_of_cpus() {
    let listing = "Architecture:        aarch64\nCPU op-mode(s):      32-bit, 64-bit\nCPU(s):              8\nOn-line CPU(s) list: 0-7\nCPU(s):   9\n";
    assert_eq!(xen::total_of(listing), Some(8));
    assert_eq!(xen::total_of("CPU(s):\t+4 cores\r\n"), Some(4));
    assert_eq!(xen::total_of("Architecture: x86_64\n"), Some(0));
    assert_eq!(xen::total_of(""), Some(0));
    assert_eq!(xen::total_of(" CPU(s): 8\n"), Some(0));
    assert_eq!(xen::total_of("CPU(s):\n"), None);
    assert_eq!(xen::total_of("CPU(s): eight\nCPU(s): 8\n"), None);
    assert_eq!(xen::total_of("CPU(s):8\n"), None);
    assert_eq!(xen::total_of("CPU(s): -3\n"), Some(-3));
}

#[test]
fn the_vcpu_listing_reports_the_pinned_cpus() {
    let listing = "Name                                ID  VCPU   CPU State   Time(s) Affinity (Hard / Soft)\n\
Domain-0                             0     0    4   -b-     207.6  0 / all\n\
Domain-0                             0     1    4   -b-     205.5  1 / all\n\
Guest1                               1     0    7   r--     150.9  7 / 7\n\
Guest2                               2     0    6   r--     150.9  6 / 6\n\
Guest3                               3     0    -   --p       0.0  all / all\n\
short line\n\n";
    assert_eq!(xen::pinned_of(listing), vec![7, 6]);
    assert_eq!(xen::pinned_of(""), Vec::<i64>::new());
    assert_eq!(xen::pinned_of("a b c 12 x\nMyName 1 0 3\n g 1 0 -2"), vec![12, -2]);
}
