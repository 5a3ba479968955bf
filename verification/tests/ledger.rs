use runphi::error::EngineError;
use runphi::ledger::{reserved_name, same_segments, ContainerRecord, Ledger};
use runphi::pool::Pool;
use runphi::segment::Segment;

fn seg(start: u64, end: u64) -> Segment {
    Segment { start, end }
}

fn fresh() -> Ledger {
    let mut l = Ledger::new();
    l.free_segments = vec![seg(0x7000_0000, 0x7800_0000)];
    l.free_rcpus = vec![0, 1];
    l.free_fpga_regions = vec![0, 1, 2, 3];
    l.free_bdf = vec![1, 2];
    l
}

fn record(id: &str, memory: Segment) -> ContainerRecord {
    ContainerRecord {
        id: id.to_string(),
        memory,
        rcpus: Vec::new(),
        fpga_regions: Vec::new(),
        bdf: None,
    }
}

fn managed_bytes(l: &Ledger) -> u64 {
    let free: u64 = l.free_segments.iter().map(|s| s.end - s.start).sum();
    let used: u64 = l.containers.iter().map(|c| c.memory.end - c.memory.start).sum();
    free + used
}

fn pool_total(l: &Ledger, pool: Pool) -> usize {
    let used: usize = l.containers.iter().map(|c| c.pool_ids(pool).len()).sum();
    l.free_ids(pool).len() + used
}

#[test]
fn reserve_memory_is_first_fit_from_the_low_end() {
    let mut l = fresh();
    assert!(l.is_wf());
    assert_eq!(l.reserve_memory(0x400_0000), Ok(seg(0x7000_0000, 0x7400_0000)));
    assert_eq!(l.free_segments, vec![seg(0x7400_0000, 0x7800_0000)]);
    assert_eq!(l.reserve_memory(0x400_0001), Err(EngineError::OutOfMemory));
    assert_eq!(l.free_segments, vec![seg(0x7400_0000, 0x7800_0000)]);
    assert_eq!(l.reserve_memory(0x400_0000), Ok(seg(0x7400_0000, 0x7800_0000)));
    assert!(l.free_segments.is_empty());
    assert_eq!(l.reserve_memory(1), Err(EngineError::OutOfMemory));
}

#[test]
fn release_memory_coalesces() {
    let mut l = fresh();
    let a = l.reserve_memory(0x1000).unwrap();
    let b = l.reserve_memory(0x1000).unwrap();
    let c = l.reserve_memory(0x1000).unwrap();
    assert_eq!(l.release_memory(b), Ok(()));
    assert_eq!(l.free_segments, vec![b, seg(0x7000_3000, 0x7800_0000)]);
    assert_eq!(l.release_memory(a), Ok(()));
    assert_eq!(l.free_segments, vec![seg(0x7000_0000, 0x7000_2000), seg(0x7000_3000, 0x7800_0000)]);
    assert_eq!(l.release_memory(c), Ok(()));
    assert_eq!(l.free_segments, vec![seg(0x7000_0000, 0x7800_0000)]);
}

#[test]
fn memory_that_is_free_or_held_cannot_be_released() {
    let mut l = fresh();
    let a = l.reserve_memory(0x1000).unwrap();
    assert_eq!(l.record_container(record("c1", a)), Ok(()));
    assert_eq!(l.release_memory(a), Err(EngineError::LedgerCorrupt));
    assert_eq!(l.release_memory(seg(0x7000_0800, 0x7000_2000)), Err(EngineError::LedgerCorrupt));
    assert_eq!(l.release_memory(seg(0x7700_0000, 0x7900_0000)), Err(EngineError::LedgerCorrupt));
    assert_eq!(l.release_memory(seg(5, 4)), Err(EngineError::LedgerCorrupt));
    assert_eq!(l.free_segments, vec![seg(0x7000_1000, 0x7800_0000)]);
    assert_eq!(l.release_memory(seg(0x10, 0x20)), Ok(()));
    assert_eq!(l.free_segments, vec![seg(0x10, 0x20), seg(0x7000_1000, 0x7800_0000)]);
}

#[test]
fn reserve_id_takes_the_lowest_and_names_the_shortage() {
    let mut l = fresh();
    assert_eq!(l.reserve_id(Pool::FpgaRegion, 2), Ok(vec![0, 1]));
    assert_eq!(l.free_fpga_regions, vec![2, 3]);
    assert_eq!(l.reserve_id(Pool::FpgaRegion, 3), Err(EngineError::RegionUnavailable));
    assert_eq!(l.reserve_id(Pool::Rcpu, 3), Err(EngineError::InsufficientRpu));
    assert_eq!(l.reserve_id(Pool::Bdf, 3), Err(EngineError::BdfExhausted));
    assert_eq!(l.reserve_id(Pool::Bdf, 1), Ok(vec![1]));
    assert_eq!(l.reserve_id(Pool::Bdf, 1), Ok(vec![2]));
    assert_eq!(l.reserve_id(Pool::Bdf, 1), Err(EngineError::BdfExhausted));
    assert_eq!(l.reserve_id(Pool::Rcpu, 0), Ok(vec![]));
    assert_eq!(l.free_rcpus, vec![0, 1]);
}

#[test]
fn release_ids_refuses_what_is_free_or_held() {
    let mut l = fresh();
    let ids = l.reserve_id(Pool::Rcpu, 2).unwrap();
    let mut rec = record("c1", seg(0, 0));
    rec.rcpus = vec![0];
    assert_eq!(l.record_container(rec), Ok(()));
    assert_eq!(l.release_ids(Pool::Rcpu, &ids), Err(EngineError::LedgerCorrupt));
    assert_eq!(l.release_ids(Pool::Rcpu, &vec![1]), Ok(()));
    assert_eq!(l.release_ids(Pool::Rcpu, &vec![1]), Err(EngineError::LedgerCorrupt));
    assert_eq!(l.release_ids(Pool::Rcpu, &vec![5, 5]), Err(EngineError::LedgerCorrupt));
    assert_eq!(l.release_ids(Pool::Rcpu, &vec![64]), Err(EngineError::LedgerCorrupt));
    assert_eq!(l.free_rcpus, vec![1]);
    assert_eq!(l.release_ids(Pool::Rcpu, &vec![9, 3]), Ok(()));
    assert_eq!(l.free_rcpus, vec![1, 3, 9]);
}

#[test]
fn records_must_fit() {
    let mut l = fresh();
    assert_eq!(l.record_container(record("c1", seg(0x7000_0000, 0x7000_1000))), Err(EngineError::LedgerCorrupt));
    let a = l.reserve_memory(0x1000).unwrap();
    assert_eq!(l.record_container(record("free_rcpus", a)), Err(EngineError::LedgerCorrupt));
    assert_eq!(l.record_container(record("c1", a)), Ok(()));
    assert_eq!(l.record_container(record("c1", seg(0, 0))), Err(EngineError::LedgerCorrupt));
    assert_eq!(l.record_container(record("c2", seg(0x7000_0800, 0x7000_1000))), Err(EngineError::LedgerCorrupt));
    let mut held = record("c3", seg(0, 0));
    held.rcpus = vec![1];
    assert_eq!(l.record_container(held), Err(EngineError::LedgerCorrupt));
    let mut twice = record("c4", seg(0, 0));
    twice.fpga_regions = vec![9, 9];
    assert_eq!(l.record_container(twice), Err(EngineError::LedgerCorrupt));
    let mut far = record("c5", seg(0, 0));
    far.bdf = Some(0);
    assert_eq!(l.record_container(far), Err(EngineError::LedgerCorrupt));
    assert_eq!(l.containers.len(), 1);
    assert!(l.is_wf());
}

#[test]
fn forget_hands_out_the_record() {
    let mut l = fresh();
    let a = l.reserve_memory(0x1000).unwrap();
    l.record_container(record("c1", a)).unwrap();
    assert_eq!(l.forget_container("c2").err(), Some(EngineError::UnknownContainer));
    let rec = l.forget_container("c1").unwrap();
    assert_eq!(rec.id, "c1");
    assert_eq!(rec.memory, a);
    assert!(l.containers.is_empty());
    assert_eq!(l.forget_container("c1").err(), Some(EngineError::UnknownContainer));
}

#[test]
fn enroll_and_discharge_keep_the_partition_and_the_pools() {
    let start = fresh();
    let total = managed_bytes(&start);
    let mut l = start.copy();
    let mut history: Vec<Ledger> = vec![l.copy()];
    for (step, id) in ["a", "b", "c"].iter().enumerate() {
        let mut segs = l.free_segments.clone();
        let mem = runphi::segment::take_first_fit(&mut segs, 0x100_0000 * (step as u64 + 1)).unwrap();
        let mut rcpus = l.free_rcpus.clone();
        let used_rcpus = if step == 0 { runphi::pool::take_lowest(&mut rcpus, 1).unwrap() } else { Vec::new() };
        let mut fpga = l.free_fpga_regions.clone();
        let mut used_fpga: Vec<i8> = Vec::new();
        if step == 1 {
            assert_eq!(runphi::fpga::regions_available(&mut fpga, "3-1", &mut used_fpga), 2);
        }
        let mut bdf = l.free_bdf.clone();
        let used_bdf = if step == 2 { Some(runphi::pool::take_lowest(&mut bdf, 1).unwrap()[0]) } else { None };
        let rec = ContainerRecord {
            id: id.to_string(),
            memory: mem,
            rcpus: used_rcpus,
            fpga_regions: used_fpga,
            bdf: used_bdf,
        };
        l = l.enroll(&segs, &rcpus, &fpga, &bdf, rec).unwrap();
        history.push(l.copy());
    }
    assert_eq!(l.discharge("b").unwrap().fpga_regions, vec![3, 1]);
    history.push(l.copy());
    assert_eq!(l.discharge("a").unwrap().rcpus, vec![0]);
    history.push(l.copy());
    assert_eq!(l.discharge("zz").err(), Some(EngineError::UnknownContainer));
    assert_eq!(l.discharge("c").unwrap().bdf, Some(1));
    history.push(l.copy());
    for state in &history {
        assert!(state.is_wf());
        assert_eq!(managed_bytes(state), total);
        assert_eq!(pool_total(state, Pool::Rcpu), 2);
        assert_eq!(pool_total(state, Pool::FpgaRegion), 4);
        assert_eq!(pool_total(state, Pool::Bdf), 2);
        for (i, a) in state.containers.iter().enumerate() {
            for b in state.containers.iter().skip(i + 1) {
                assert!(!a.memory.overlapping(&b.memory));
            }
            for f in &state.free_segments {
                assert!(!a.memory.overlapping(f));
            }
        }
    }
    assert!(same_segments(&l.free_segments, &start.free_segments));
    assert_eq!(l.free_rcpus, start.free_rcpus);
    assert_eq!(l.free_fpga_regions, start.free_fpga_regions);
    assert_eq!(l.free_bdf, start.free_bdf);
}

#[test]
fn enroll_refuses_lists_that_do_not_add_up() {
    let l = fresh();
    let whole = l.free_segments.clone();
    let rest = vec![seg(0x7000_1000, 0x7800_0000)];
    let mem = seg(0x7000_0000, 0x7000_1000);
    let ok = |l: &Ledger, segs: &Vec<Segment>, rc: &Vec<i8>, fp: &Vec<i8>, bd: &Vec<i8>, rec: ContainerRecord| {
        l.enroll(segs, rc, fp, bd, rec).map(|_| ()).map_err(|e| e)
    };
    assert_eq!(ok(&l, &rest, &vec![0, 1], &vec![0, 1, 2, 3], &vec![1, 2], record("c", mem)), Ok(()));
    assert_eq!(ok(&l, &whole, &vec![0, 1], &vec![0, 1, 2, 3], &vec![1, 2], record("c", mem)), Err(EngineError::LedgerCorrupt));
    assert_eq!(ok(&l, &rest, &vec![1], &vec![0, 1, 2, 3], &vec![1, 2], record("c", mem)), Err(EngineError::LedgerCorrupt));
    assert_eq!(ok(&l, &rest, &vec![0, 1], &vec![0, 1, 2], &vec![1, 2], record("c", mem)), Err(EngineError::LedgerCorrupt));
    assert_eq!(ok(&l, &rest, &vec![0, 1], &vec![0, 1, 2, 3], &vec![2], record("c", mem)), Err(EngineError::LedgerCorrupt));
    assert_eq!(ok(&l, &rest, &vec![0, 1], &vec![0, 1, 2, 3], &vec![1, 2], record("containerid", mem)), Err(EngineError::LedgerCorrupt));
    assert_eq!(ok(&l, &vec![seg(0x7000_2000, 0x7800_0000)], &vec![0, 1], &vec![0, 1, 2, 3], &vec![1, 2], record("c", mem)), Err(EngineError::LedgerCorrupt));
    let mut with_bdf = record("c", mem);
    with_bdf.bdf = Some(1);
    assert_eq!(ok(&l, &rest, &vec![0, 1], &vec![0, 1, 2, 3], &vec![2], with_bdf), Ok(()));
}

#[test]
fn inconsistent_ledgers_are_recognised() {
    let mut l = fresh();
    l.free_rcpus = vec![1, 0];
    assert!(!l.is_wf());
    let mut l = fresh();
    l.free_segments = vec![seg(0, 10), seg(10, 20)];
    assert!(!l.is_wf());
    let mut l = fresh();
    l.containers.push(record("c1", seg(0x7000_0000, 0x7000_0010)));
    assert!(!l.is_wf());
    let mut l = fresh();
    l.containers.push(record("c1", seg(0, 0x10)));
    l.containers.push(record("c2", seg(0x8, 0x20)));
    assert!(!l.is_wf());
    let mut l = fresh();
    l.containers.push(record("c1", seg(0, 0x10)));
    l.containers.push(record("c1", seg(0x10, 0x20)));
    assert!(!l.is_wf());
    let mut l = fresh();
    let mut r = record("c1", seg(0, 0x10));
    r.bdf = Some(2);
    l.containers.push(r);
    assert!(!l.is_wf());
    assert!(reserved_name("free_segments"));
    assert!(reserved_name("containerid"));
    assert!(reserved_name("free_pci_devices_bdf"));
    assert!(reserved_name("free_fpga_regions"));
    assert!(!reserved_name("c1"));
}

#[test]
fn lookups_on_records() {
    let mut l = fresh();
    let mut r = record("c1", seg(0, 0x10));
    r.rcpus = vec![7];
    r.bdf = Some(5);
    l.record_container(r).unwrap();
    assert_eq!(l.find("c1"), Some(0));
    assert_eq!(l.find("c"), None);
    assert!(l.name_taken(1, "c1"));
    assert!(!l.name_taken(0, "c1"));
    assert!(l.memory_taken(1, seg(0xf, 0x20)));
    assert!(!l.memory_taken(1, seg(0x10, 0x20)));
    assert!(l.id_claimed(1, Pool::Rcpu, 7));
    assert!(l.id_claimed(1, Pool::Bdf, 5));
    assert!(!l.id_claimed(1, Pool::FpgaRegion, 7));
    assert!(l.ids_claimed(1, Pool::Rcpu, &vec![1, 7]));
    assert!(!l.ids_claimed(1, Pool::Rcpu, &vec![1, 2]));
    assert_eq!(l.containers[0].pool_ids(Pool::Bdf), vec![5]);
    assert_eq!(l.containers[0].copy().rcpus, vec![7]);
    assert!(l.fits_before(0, &l.containers[0]));
    assert!(!l.fits_before(1, &l.containers[0]));
}
