use proc_core::memory::AddressSpace;

#[test]
fn empty_space_maps_nothing() {
    let space = AddressSpace::new();
    assert_eq!(space.translate(0), None);
    assert_eq!(space.translate(0x1234), None);
}

#[test]
fn linear_area_translates_by_offset() {
    let mut space = AddressSpace::new();
    space.push(0x1000, 0x3000, 0x8000_0000, true);
    assert_eq!(space.translate(0x1000), Some(0x8000_0000));
    assert_eq!(space.translate(0x1abc), Some(0x8000_0abc));
    assert_eq!(space.translate(0x2fff), Some(0x8000_1fff));
    // one past the end is unmapped
    assert_eq!(space.translate(0x3000), None);
    assert_eq!(space.translate(0xfff), None);
}

#[test]
fn find_free_area_returns_lowest_gap() {
    let mut space = AddressSpace::new();
    assert_eq!(space.find_free_area(0, 0x1000), Some(0));
    space.push(0, 0x1000, 0, false);
    // the lowest free region of that size now starts after the area
    assert_eq!(space.find_free_area(0, 0x1000), Some(0x1000));
    space.push(0x2000, 0x3000, 0, false);
    // a gap of exactly 0x1000 bytes lies between the two areas
    assert_eq!(space.find_free_area(0, 0x1000), Some(0x1000));
    // a larger request skips the gap
    assert_eq!(space.find_free_area(0, 0x1001), Some(0x3000));
    // the hint is respected
    assert_eq!(space.find_free_area(0x2800, 0x100), Some(0x3000));
}

#[test]
fn find_free_area_reports_impossible_requests() {
    let space = AddressSpace::new();
    assert_eq!(space.find_free_area(2, usize::MAX), None);
    assert_eq!(space.find_free_area(0, usize::MAX), Some(0));
}
