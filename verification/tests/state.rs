use runphi::error::EngineError;
use runphi::ledger::{ContainerRecord, Ledger};
use runphi::segment::Segment;
use runphi::state::{
    container_id, destroy_update_state, get_rcpu_for_container, ids_chars, parse_ids,
    parse_segment, parse_slot, retrieve_state, save_state, segment_chars, slot_chars,
};

fn seg(start: u64, end: u64) -> Segment {
    Segment { start, end }
}

const TWO: &str = r#"
[containerid]
ids = ["c1", "c2"]

[free_segments]
segments = ["0x74000000, 0x78000000", "0x60000000, 0x60001000", "0x60001000, 0x60002000"]

[free_pci_devices_bdf]
bdf = [2]

[free_rcpus]
ids = [1]

[free_fpga_regions]
ids = [3, 1]

[c1]
memory = "0x70000000, 0x72000000"
rcpus = "0"
fpga_regions = "2, 0"
pci_bdf = "1"

[c2]
memory = "0x72000000, 0x74000000"
rcpus = "none"
fpga_regions = "none"
pci_bdf = "none"
"#;

#[test]
fn a_ledger_is_read_with_its_lists_in_canonical_form() {
    let l = retrieve_state(TWO).unwrap();
    assert_eq!(l.free_segments, vec![seg(0x6000_0000, 0x6000_2000), seg(0x7400_0000, 0x7800_0000)]);
    assert_eq!(l.free_fpga_regions, vec![1, 3]);
    assert_eq!(l.free_rcpus, vec![1]);
    assert_eq!(l.free_bdf, vec![2]);
    assert_eq!(l.containers.len(), 2);
    assert_eq!(l.containers[0].id, "c1");
    assert_eq!(l.containers[0].memory, seg(0x7000_0000, 0x7200_0000));
    assert_eq!(l.containers[0].rcpus, vec![0]);
    assert_eq!(l.containers[0].fpga_regions, vec![2, 0]);
    assert_eq!(l.containers[0].bdf, Some(1));
    assert_eq!(l.containers[1].id, "c2");
    assert!(l.containers[1].rcpus.is_empty());
    assert_eq!(l.containers[1].bdf, None);
    assert!(l.is_wf());
}

#[test]
fn a_ledger_survives_writing_and_reading() {
    let l = retrieve_state(TWO).unwrap();
    let text = save_state(&l).unwrap();
    let again = retrieve_state(&text).unwrap();
    assert_eq!(again.free_segments, l.free_segments);
    assert_eq!(again.free_rcpus, l.free_rcpus);
    assert_eq!(again.free_fpga_regions, l.free_fpga_regions);
    assert_eq!(again.free_bdf, l.free_bdf);
    assert_eq!(again.containers.len(), 2);
    for (a, b) in again.containers.iter().zip(l.containers.iter()) {
        assert_eq!(a.id, b.id);
        assert_eq!(a.memory, b.memory);
        assert_eq!(a.rcpus, b.rcpus);
        assert_eq!(a.fpga_regions, b.fpga_regions);
        assert_eq!(a.bdf, b.bdf);
    }
    assert_eq!(save_state(&again).unwrap(), text);
}

#[test]
fn the_document_has_the_sections_of_a_ledger() {
    let mut l = Ledger::new();
    l.free_segments = vec![seg(0x10, 0xff)];
    l.free_bdf = vec![1];
    l.containers.push(ContainerRecord {
        id: "box".to_string(),
        memory: seg(0x1000, 0x2000),
        rcpus: vec![3, 4],
        fpga_regions: vec![],
        bdf: Some(2),
    });
    let text = save_state(&l).unwrap();
    let doc: toml::Value = text.parse().unwrap();
    assert_eq!(doc["containerid"]["ids"].as_array().unwrap().len(), 1);
    assert_eq!(doc["containerid"]["ids"][0].as_str(), Some("box"));
    assert_eq!(doc["free_segments"]["segments"][0].as_str(), Some("0x10, 0xff"));
    assert_eq!(doc["free_pci_devices_bdf"]["bdf"][0].as_integer(), Some(1));
    assert_eq!(doc["free_rcpus"]["ids"].as_array().unwrap().len(), 0);
    assert_eq!(doc["free_fpga_regions"]["ids"].as_array().unwrap().len(), 0);
    assert_eq!(doc["box"]["memory"].as_str(), Some("0x1000, 0x2000"));
    assert_eq!(doc["box"]["rcpus"].as_str(), Some("3, 4"));
    assert_eq!(doc["box"]["fpga_regions"].as_str(), Some("none"));
    assert_eq!(doc["box"]["pci_bdf"].as_str(), Some("2"));
}

fn broken(from: &str, to: &str) -> String {
    assert!(TWO.contains(from));
    TWO.replacen(from, to, 1)
}

#[test]
fn a_document_that_is_no_ledger_gives_no_ledger() {
    let cases = vec![
        "this is not toml".to_string(),
        String::new(),
        broken("[free_rcpus]", "[free_rcpu]"),
        broken("[free_segments]", "[segments]"),
        broken("[free_pci_devices_bdf]", "[bdf]"),
        broken("[free_fpga_regions]", "[regions]"),
        broken("[containerid]", "[containers]"),
        broken("bdf = [2]", "bdf = [\"2\"]"),
        broken("bdf = [2]", "bdf = 2"),
        broken("ids = [1]", "ids = [1, 1]"),
        broken("ids = [1]", "ids = [64]"),
        broken("ids = [1]", "ids = [300]"),
        broken("ids = [1]", "ids = [0]"),
        broken("bdf = [2]", "bdf = [1]"),
        broken("bdf = [2]", "bdf = [0]"),
        broken("ids = [3, 1]", "ids = [3, 2]"),
        broken("0x74000000, 0x78000000", "0x74000000 0x78000000"),
        broken("0x74000000, 0x78000000", "0x78000000, 0x74000000"),
        broken("0x74000000, 0x78000000", "0x73000000, 0x78000000"),
        broken("0x74000000, 0x78000000", "0x7400000g, 0x78000000"),
        broken("\"0x60000000, 0x60001000\"", "7"),
        broken("[c2]", "[c3]"),
        broken("rcpus = \"0\"", "rcpus = \"zero\""),
        broken("rcpus = \"0\"", "rcpus = 0"),
        broken("pci_bdf = \"1\"", "pci_bdf = \"1, 2\""),
        broken("fpga_regions = \"2, 0\"", "fpga_regions = \"2,0\""),
        broken("memory = \"0x72000000, 0x74000000\"", "memory = \"0x71000000, 0x74000000\""),
        broken("memory = \"0x72000000, 0x74000000\"", "mem = \"0x72000000, 0x74000000\""),
        broken("ids = [\"c1\", \"c2\"]", "ids = [\"c1\", \"c1\"]"),
        broken("ids = [\"c1\", \"c2\"]", "ids = [\"c1\", 2]"),
    ];
    for text in cases {
        assert_eq!(retrieve_state(&text).err(), Some(EngineError::LedgerCorrupt), "{}", text);
    }
}

#[test]
fn a_record_that_is_not_listed_is_not_read() {
    let l = retrieve_state(&broken("ids = [\"c1\", \"c2\"]", "ids = [\"c2\"]")).unwrap();
    assert_eq!(l.containers.len(), 1);
    assert_eq!(l.containers[0].id, "c2");
}

#[test]
fn teardown_returns_what_the_record_holds() {
    let after = destroy_update_state(TWO, "c1").unwrap();
    let l = retrieve_state(&after).unwrap();
    assert_eq!(l.containers.len(), 1);
    assert_eq!(l.containers[0].id, "c2");
    assert_eq!(
        l.free_segments,
        vec![seg(0x6000_0000, 0x6000_2000), seg(0x7000_0000, 0x7200_0000), seg(0x7400_0000, 0x7800_0000)]
    );
    assert_eq!(l.free_rcpus, vec![0, 1]);
    assert_eq!(l.free_fpga_regions, vec![0, 1, 2, 3]);
    assert_eq!(l.free_bdf, vec![1, 2]);
    let last = destroy_update_state(&after, "c2").unwrap();
    let l = retrieve_state(&last).unwrap();
    assert!(l.containers.is_empty());
    assert_eq!(l.free_segments, vec![seg(0x6000_0000, 0x6000_2000), seg(0x7000_0000, 0x7800_0000)]);
    let doc: toml::Value = last.parse().unwrap();
    assert!(doc.get("c1").is_none());
    assert!(doc.get("c2").is_none());
}

#[test]
fn teardown_of_an_unknown_container_is_reported() {
    assert_eq!(destroy_update_state(TWO, "c9").err(), Some(EngineError::UnknownContainer));
    assert_eq!(destroy_update_state("x = ", "c1").err(), Some(EngineError::LedgerCorrupt));
    assert_eq!(
        destroy_update_state(&broken("[free_rcpus]", "[free]"), "c1").err(),
        Some(EngineError::LedgerCorrupt)
    );
}

#[test]
fn the_cores_of_a_container_are_read_from_its_record() {
    assert_eq!(get_rcpu_for_container(TWO, "c1"), Ok("0".to_string()));
    assert_eq!(get_rcpu_for_container(TWO, "c2"), Ok("none".to_string()));
    assert_eq!(get_rcpu_for_container(TWO, "c3"), Err(EngineError::UnknownContainer));
    assert_eq!(get_rcpu_for_container("= =", "c1"), Err(EngineError::LedgerCorrupt));
}

#[test]
fn segments_and_identifiers_in_text() {
    assert_eq!(parse_segment("0x70000000, 0x78000000"), Some(seg(0x7000_0000, 0x7800_0000)));
    assert_eq!(parse_segment("10, 20"), Some(seg(0x10, 0x20)));
    assert_eq!(parse_segment("0x10,0x20"), None);
    assert_eq!(parse_segment("0x10, 0x20, 0x30"), None);
    assert_eq!(parse_segment("0x10"), None);
    assert_eq!(parse_segment(""), None);
    assert_eq!(parse_ids("none"), Some(vec![]));
    assert_eq!(parse_ids("0, 1"), Some(vec![0, 1]));
    assert_eq!(parse_ids("5"), Some(vec![5]));
    assert_eq!(parse_ids(""), None);
    assert_eq!(parse_ids("0,1"), None);
    assert_eq!(parse_ids("-1"), None);
    assert_eq!(parse_slot("none"), Some(None));
    assert_eq!(parse_slot("2"), Some(Some(2)));
    assert_eq!(parse_slot("two"), None);
    let text = |v: Vec<char>| v.into_iter().collect::<String>();
    assert_eq!(text(segment_chars(seg(0x7000_0000, 0x7800_0000))), "0x70000000, 0x78000000");
    assert_eq!(text(ids_chars(&vec![3, 0, 12])), "3, 0, 12");
    assert_eq!(text(ids_chars(&vec![])), "none");
    assert_eq!(text(slot_chars(Some(2))), "2");
    assert_eq!(text(slot_chars(None)), "none");
}

#[test]
fn names_have_at_most_24_characters() {
    assert_eq!(container_id("short"), "short");
    assert_eq!(container_id("0123456789abcdefghijklmn"), "0123456789abcdefghijklmn");
    assert_eq!(container_id("0123456789abcdefghijklmno"), "0123456789abcdefghijklmn");
    assert_eq!(container_id("äöüäöüäöüäöüäöüäöüäöüäöüäöü"), "äöüäöüäöüäöüäöüäöüäöüäöü");
    assert_eq!(container_id(""), "");
}
