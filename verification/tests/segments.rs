use runphi::segment::{
    any_overlap, copy_segments, is_normalized, merge_into, normalize, take_first_fit, Segment,
};

fn seg(start: u64, end: u64) -> Segment {
    Segment { start, end }
}

#[test]
fn adjacent_ranges_become_one_in_either_order() {
    let free: Vec<Segment> = Vec::new();
    let one = merge_into(&merge_into(&free, seg(0x1000, 0x2000)), seg(0x2000, 0x3000));
    let other = merge_into(&merge_into(&free, seg(0x2000, 0x3000)), seg(0x1000, 0x2000));
    assert_eq!(one, vec![seg(0x1000, 0x3000)]);
    assert_eq!(other, vec![seg(0x1000, 0x3000)]);
}

#[test]
fn adjacent_ranges_become_one_between_other_ranges() {
    let free = vec![seg(0, 0x100), seg(0x9000, 0xa000)];
    let one = merge_into(&merge_into(&free, seg(0x1000, 0x2000)), seg(0x2000, 0x3000));
    let other = merge_into(&merge_into(&free, seg(0x2000, 0x3000)), seg(0x1000, 0x2000));
    assert_eq!(one, vec![seg(0, 0x100), seg(0x1000, 0x3000), seg(0x9000, 0xa000)]);
    assert_eq!(one, other);
}

#[test]
fn a_range_apart_adds_exactly_one_segment() {
    let free = vec![seg(0, 0x100), seg(0x9000, 0xa000)];
    let out = merge_into(&free, seg(0x200, 0x300));
    assert_eq!(out.len(), free.len() + 1);
    assert_eq!(out, vec![seg(0, 0x100), seg(0x200, 0x300), seg(0x9000, 0xa000)]);
    let front = merge_into(&free, seg(0xb000, 0xc000));
    assert_eq!(front, vec![seg(0, 0x100), seg(0x9000, 0xa000), seg(0xb000, 0xc000)]);
}

#[test]
fn a_range_that_fills_a_gap_joins_both_neighbours() {
    let free = vec![seg(0, 0x100), seg(0x200, 0x300), seg(0x400, 0x500)];
    let out = merge_into(&free, seg(0x100, 0x200));
    assert_eq!(out, vec![seg(0, 0x300), seg(0x400, 0x500)]);
    let all = merge_into(&out, seg(0x300, 0x400));
    assert_eq!(all, vec![seg(0, 0x500)]);
}

#[test]
fn an_empty_range_changes_nothing() {
    let free = vec![seg(0, 0x100)];
    assert_eq!(merge_into(&free, seg(0x100, 0x100)), free);
    assert_eq!(merge_into(&free, seg(0x300, 0x200)), free);
}

#[test]
fn normalize_sorts_and_coalesces() {
    let listed = vec![seg(0x300, 0x400), seg(0, 0x100), seg(0x100, 0x200), seg(0x50, 0x80), seg(7, 7)];
    assert_eq!(normalize(&listed), vec![seg(0, 0x200), seg(0x300, 0x400)]);
    assert!(is_normalized(&normalize(&listed)));
    assert!(!is_normalized(&listed));
    assert!(!is_normalized(&vec![seg(0, 0x100), seg(0x100, 0x200)]));
    assert!(!is_normalized(&vec![seg(5, 5)]));
    assert!(is_normalized(&Vec::new()));
}

#[test]
fn first_fit_takes_the_first_segment_with_room() {
    let mut free = vec![seg(0, 0x100), seg(0x1000, 0x3000), seg(0x8000, 0x10000)];
    let got = take_first_fit(&mut free, 0x800);
    assert_eq!(got, Some(seg(0x1000, 0x1800)));
    assert_eq!(free, vec![seg(0, 0x100), seg(0x1800, 0x3000), seg(0x8000, 0x10000)]);
}

#[test]
fn first_fit_is_not_best_fit() {
    let mut free = vec![seg(0, 0x1000), seg(0x2000, 0x2100)];
    assert_eq!(take_first_fit(&mut free, 0x100), Some(seg(0, 0x100)));
    assert_eq!(free, vec![seg(0x100, 0x1000), seg(0x2000, 0x2100)]);
}

#[test]
fn an_exact_fit_removes_the_segment() {
    let mut free = vec![seg(0, 0x100), seg(0x1000, 0x3000)];
    assert_eq!(take_first_fit(&mut free, 0x100), Some(seg(0, 0x100)));
    assert_eq!(free, vec![seg(0x1000, 0x3000)]);
}

#[test]
fn nothing_fits_leaves_the_list_alone() {
    let mut free = vec![seg(0, 0x100), seg(0x1000, 0x3000)];
    assert_eq!(take_first_fit(&mut free, 0x2001), None);
    assert_eq!(free, vec![seg(0, 0x100), seg(0x1000, 0x3000)]);
    let mut none: Vec<Segment> = Vec::new();
    assert_eq!(take_first_fit(&mut none, 0), None);
}

#[test]
fn a_request_for_nothing_takes_nothing() {
    let mut free = vec![seg(0x10, 0x100)];
    assert_eq!(take_first_fit(&mut free, 0), Some(seg(0x10, 0x10)));
    assert_eq!(free, vec![seg(0x10, 0x100)]);
}

#[test]
fn overlap_is_sharing_an_address() {
    assert!(seg(0, 10).overlapping(&seg(9, 20)));
    assert!(!seg(0, 10).overlapping(&seg(10, 20)));
    assert!(!seg(0, 10).overlapping(&seg(5, 5)));
    assert!(any_overlap(&vec![seg(0, 10), seg(20, 30)], seg(25, 26)));
    assert!(!any_overlap(&vec![seg(0, 10), seg(20, 30)], seg(10, 20)));
    assert_eq!(copy_segments(&vec![seg(1, 2)]), vec![seg(1, 2)]);
}
