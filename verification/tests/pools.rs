use runphi::fpga::{is_grantable, parse_regions, regions_available};
use runphi::ledger::{all_in, is_concat, remove_ids, same_ids};
use runphi::pool::{
    all_distinct, all_within, can_return, copy_ids, give_back, has_id, is_pool_wf, take_lowest,
    Pool,
};
use runphi::error::EngineError;

#[test]
fn failed_grant_of_two_regions_changes_nothing() {
    let mut free: Vec<i8> = vec![0, 1, 2];
    let mut assigned: Vec<i8> = Vec::new();
    let n = regions_available(&mut free, "2-3", &mut assigned);
    assert_eq!(n, 0);
    assert_eq!(free, vec![0, 1, 2]);
    assert!(free.contains(&2));
    assert!(assigned.is_empty());
}

#[test]
fn grant_of_two_regions_moves_both() {
    let mut free: Vec<i8> = vec![0, 1, 2, 3];
    let mut assigned: Vec<i8> = vec![7];
    let n = regions_available(&mut free, "2-3", &mut assigned);
    assert_eq!(n, 2);
    assert_eq!(free, vec![0, 1]);
    assert_eq!(assigned, vec![7, 2, 3]);
}

#[test]
fn grant_of_one_region() {
    let mut free: Vec<i8> = vec![3, 1];
    let mut assigned: Vec<i8> = Vec::new();
    assert_eq!(regions_available(&mut free, "1", &mut assigned), 1);
    assert_eq!(free, vec![3]);
    assert_eq!(assigned, vec![1]);
}

#[test]
fn a_region_named_twice_is_not_granted() {
    let mut free: Vec<i8> = vec![0, 1, 2];
    let mut assigned: Vec<i8> = Vec::new();
    assert_eq!(regions_available(&mut free, "2-2", &mut assigned), 0);
    assert_eq!(free, vec![0, 1, 2]);
    assert!(assigned.is_empty());
}

#[test]
fn a_request_that_names_no_region_is_not_granted() {
    for bad in ["", "a", "1-", "-1", "1--2", "128", "1,2", " 1"] {
        let mut free: Vec<i8> = vec![0, 1, 2];
        let mut assigned: Vec<i8> = Vec::new();
        assert_eq!(regions_available(&mut free, bad, &mut assigned), 0, "{:?}", bad);
        assert_eq!(free, vec![0, 1, 2]);
        assert!(assigned.is_empty());
        assert!(!is_grantable(&free, bad));
    }
    assert_eq!(parse_regions("2-3"), Some(vec![2, 3]));
    assert_eq!(parse_regions("+2"), Some(vec![2]));
    assert_eq!(parse_regions("127"), Some(vec![127]));
    assert_eq!(parse_regions("x"), None);
    assert!(is_grantable(&vec![5, 6], "6-5"));
}

#[test]
fn the_lowest_identifiers_are_taken_first() {
    let mut pool: Vec<i8> = vec![1, 4, 6, 9];
    assert_eq!(take_lowest(&mut pool, 2), Some(vec![1, 4]));
    assert_eq!(pool, vec![6, 9]);
    assert_eq!(take_lowest(&mut pool, 0), Some(vec![]));
    assert_eq!(pool, vec![6, 9]);
    assert_eq!(take_lowest(&mut pool, 3), None);
    assert_eq!(pool, vec![6, 9]);
    assert_eq!(take_lowest(&mut pool, 2), Some(vec![6, 9]));
    assert!(pool.is_empty());
}

#[test]
fn identifiers_go_back_to_their_place() {
    let mut pool: Vec<i8> = vec![2, 5];
    assert!(give_back(Pool::Rcpu, &mut pool, &vec![7, 0, 3]));
    assert_eq!(pool, vec![0, 2, 3, 5, 7]);
}

#[test]
fn an_identifier_is_not_released_twice() {
    let mut pool: Vec<i8> = vec![2, 5];
    assert!(!give_back(Pool::Rcpu, &mut pool, &vec![3, 5]));
    assert_eq!(pool, vec![2, 5]);
    assert!(!give_back(Pool::Rcpu, &mut pool, &vec![3, 3]));
    assert_eq!(pool, vec![2, 5]);
    assert!(!can_return(Pool::Rcpu, &pool, &vec![2]));
    assert!(can_return(Pool::Rcpu, &pool, &vec![1]));
}

#[test]
fn identifiers_out_of_range_do_not_go_back() {
    let mut bdf: Vec<i8> = vec![2];
    assert!(!give_back(Pool::Bdf, &mut bdf, &vec![0]));
    assert!(!give_back(Pool::Bdf, &mut bdf, &vec![32]));
    assert!(give_back(Pool::Bdf, &mut bdf, &vec![31, 1]));
    assert_eq!(bdf, vec![1, 2, 31]);
    let mut fpga: Vec<i8> = Vec::new();
    assert!(!give_back(Pool::FpgaRegion, &mut fpga, &vec![32]));
    assert!(!give_back(Pool::FpgaRegion, &mut fpga, &vec![-1]));
    assert!(give_back(Pool::FpgaRegion, &mut fpga, &vec![31, 0]));
    let mut rcpu: Vec<i8> = Vec::new();
    assert!(!give_back(Pool::Rcpu, &mut rcpu, &vec![64]));
    assert!(give_back(Pool::Rcpu, &mut rcpu, &vec![63]));
}

#[test]
fn pool_ranges_and_shortages() {
    assert_eq!((Pool::Rcpu.lowest_id(), Pool::Rcpu.highest_id()), (0, 63));
    assert_eq!((Pool::FpgaRegion.lowest_id(), Pool::FpgaRegion.highest_id()), (0, 31));
    assert_eq!((Pool::Bdf.lowest_id(), Pool::Bdf.highest_id()), (1, 31));
    assert_eq!(Pool::Rcpu.shortage_error(), EngineError::InsufficientRpu);
    assert_eq!(Pool::FpgaRegion.shortage_error(), EngineError::RegionUnavailable);
    assert_eq!(Pool::Bdf.shortage_error(), EngineError::BdfExhausted);
}

#[test]
fn list_helpers() {
    assert!(has_id(&vec![1, 2], 2));
    assert!(!has_id(&vec![1, 2], 3));
    assert!(all_distinct(&vec![3, 1, 2]));
    assert!(!all_distinct(&vec![3, 1, 3]));
    assert!(all_distinct(&Vec::new()));
    assert!(all_within(&vec![1, 5], 1, 5));
    assert!(!all_within(&vec![0, 5], 1, 5));
    assert!(is_pool_wf(Pool::Bdf, &vec![1, 2]));
    assert!(!is_pool_wf(Pool::Bdf, &vec![2, 1]));
    assert!(!is_pool_wf(Pool::Bdf, &vec![1, 1]));
    assert!(!is_pool_wf(Pool::Bdf, &vec![0, 1]));
    assert_eq!(copy_ids(&vec![4, 2]), vec![4, 2]);
    assert_eq!(remove_ids(&vec![5, 1, 4, 1], &vec![1, 9]), vec![5, 4]);
    assert!(all_in(&vec![1, 2, 3], &vec![3, 1]));
    assert!(!all_in(&vec![1, 2, 3], &vec![3, 4]));
    assert!(is_concat(&vec![1, 2, 3], &vec![1], &vec![2, 3]));
    assert!(!is_concat(&vec![1, 2, 3], &vec![1], &vec![3, 2]));
    assert!(!is_concat(&vec![1, 2, 3], &vec![1, 2, 3, 4], &vec![]));
    assert!(same_ids(&vec![1, 2], &vec![1, 2]));
    assert!(!same_ids(&vec![1, 2], &vec![2, 1]));
}
