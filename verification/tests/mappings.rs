use profile_core::lib_mappings::LibMappings;

#[test]
fn lookup_in_empty_map_finds_nothing() {
    let m: LibMappings<u32> = LibMappings::new();
    assert_eq!(m.convert_address(0), None);
    assert_eq!(m.convert_address(0x1000), None);
    assert_eq!(m.convert_address(u64::MAX), None);
    assert_eq!(m.len(), 0);
}

#[test]
fn lookup_gives_relative_address_and_owner() {
    let mut m: LibMappings<u32> = LibMappings::new();
    m.add_mapping(0x1000, 0x2000, 0x40, 7);
    assert_eq!(m.convert_address(0x1000), Some((0x40, &7)));
    assert_eq!(m.convert_address(0x1234), Some((0x274, &7)));
    assert_eq!(m.convert_address(0x1fff), Some((0x103f, &7)));
}

#[test]
fn range_is_half_open() {
    let mut m: LibMappings<u32> = LibMappings::new();
    m.add_mapping(0x1000, 0x2000, 0, 7);
    assert_eq!(m.convert_address(0xfff), None);
    assert_eq!(m.convert_address(0x2000), None);
    assert_eq!(m.convert_address(0x1fff), Some((0xfff, &7)));
}

#[test]
fn adjacent_ranges_do_not_disturb_each_other() {
    let mut m: LibMappings<u32> = LibMappings::new();
    m.add_mapping(0x1000, 0x2000, 0, 1);
    m.add_mapping(0x2000, 0x3000, 0, 2);
    m.add_mapping(0x0, 0x1000, 0, 3);
    assert_eq!(m.len(), 3);
    assert_eq!(m.convert_address(0xfff), Some((0xfff, &3)));
    assert_eq!(m.convert_address(0x1000), Some((0, &1)));
    assert_eq!(m.convert_address(0x1fff), Some((0xfff, &1)));
    assert_eq!(m.convert_address(0x2000), Some((0, &2)));
}

#[test]
fn overlapping_range_takes_over_its_whole_span() {
    let mut m: LibMappings<u32> = LibMappings::new();
    m.add_mapping(0x1000, 0x3000, 0, 1);
    m.add_mapping(0x2000, 0x4000, 0x100, 2);
    assert_eq!(m.convert_address(0x2000), Some((0x100, &2)));
    assert_eq!(m.convert_address(0x2fff), Some((0x10ff, &2)));
    assert_eq!(m.convert_address(0x3fff), Some((0x20ff, &2)));
}

#[test]
fn overlapped_range_leaves_whole() {
    let mut m: LibMappings<u32> = LibMappings::new();
    m.add_mapping(0x1000, 0x3000, 0, 1);
    m.add_mapping(0x2000, 0x4000, 0, 2);
    assert_eq!(m.convert_address(0x1800), None);
    assert_eq!(m.len(), 1);
}

#[test]
fn range_in_the_middle_drops_the_range_around_it() {
    let mut m: LibMappings<u32> = LibMappings::new();
    m.add_mapping(0x1000, 0x5000, 0, 1);
    m.add_mapping(0x2000, 0x3000, 0, 2);
    assert_eq!(m.convert_address(0x1800), None);
    assert_eq!(m.convert_address(0x2800), Some((0x800, &2)));
    assert_eq!(m.convert_address(0x4000), None);
}

#[test]
fn wide_range_drops_every_range_it_touches() {
    let mut m: LibMappings<u32> = LibMappings::new();
    m.add_mapping(0x1000, 0x2000, 0, 1);
    m.add_mapping(0x3000, 0x4000, 0, 2);
    m.add_mapping(0x5000, 0x6000, 0, 3);
    m.add_mapping(0x7000, 0x8000, 0, 4);
    m.add_mapping(0x1800, 0x5001, 0, 9);
    assert_eq!(m.len(), 2);
    assert_eq!(m.convert_address(0x1000), None);
    assert_eq!(m.convert_address(0x1800), Some((0, &9)));
    assert_eq!(m.convert_address(0x3800), Some((0x2000, &9)));
    assert_eq!(m.convert_address(0x5000), Some((0x3800, &9)));
    assert_eq!(m.convert_address(0x5001), None);
    assert_eq!(m.convert_address(0x7000), Some((0, &4)));
}

#[test]
fn same_start_replaces() {
    let mut m: LibMappings<u32> = LibMappings::new();
    m.add_mapping(0x1000, 0x2000, 0, 1);
    m.add_mapping(0x1000, 0x1800, 0x10, 2);
    assert_eq!(m.len(), 1);
    assert_eq!(m.convert_address(0x1000), Some((0x10, &2)));
    assert_eq!(m.convert_address(0x1800), None);
}

#[test]
fn empty_range_changes_nothing() {
    let mut m: LibMappings<u32> = LibMappings::new();
    m.add_mapping(0x1000, 0x2000, 0, 1);
    m.add_mapping(0x1800, 0x1800, 0, 2);
    m.add_mapping(0x1900, 0x1100, 0, 3);
    assert_eq!(m.len(), 1);
    assert_eq!(m.convert_address(0x1800), Some((0x800, &1)));
    assert_eq!(m.convert_address(0x1200), Some((0x200, &1)));
}

#[test]
fn remove_by_start_address() {
    let mut m: LibMappings<u32> = LibMappings::new();
    m.add_mapping(0x1000, 0x2000, 0x40, 1);
    m.add_mapping(0x3000, 0x4000, 0x80, 2);
    assert_eq!(m.remove_mapping(0x1000), Some((0x40, 1)));
    assert_eq!(m.convert_address(0x1000), None);
    assert_eq!(m.convert_address(0x1800), None);
    assert_eq!(m.convert_address(0x3000), Some((0x80, &2)));
    assert_eq!(m.len(), 1);
}

#[test]
fn remove_of_unknown_start_is_a_no_op() {
    let mut m: LibMappings<u32> = LibMappings::new();
    m.add_mapping(0x1000, 0x2000, 0, 1);
    m.add_mapping(0x3000, 0x4000, 0, 2);
    assert_eq!(m.remove_mapping(0x1800), None);
    assert_eq!(m.remove_mapping(0x2000), None);
    assert_eq!(m.remove_mapping(0x0), None);
    assert_eq!(m.remove_mapping(0x5000), None);
    assert_eq!(m.len(), 2);
    assert_eq!(m.convert_address(0x1800), Some((0x800, &1)));
    assert_eq!(m.convert_address(0x3800), Some((0x800, &2)));
}

#[test]
fn remove_on_empty_map_is_a_no_op() {
    let mut m: LibMappings<u32> = LibMappings::new();
    assert_eq!(m.remove_mapping(0x1000), None);
    assert_eq!(m.len(), 0);
}

#[test]
fn remove_does_not_bring_back_what_was_overlapped() {
    let mut m: LibMappings<u32> = LibMappings::new();
    m.add_mapping(0x1000, 0x3000, 0, 1);
    m.add_mapping(0x2000, 0x4000, 0, 2);
    assert_eq!(m.remove_mapping(0x2000), Some((0, 2)));
    assert_eq!(m.convert_address(0x2800), None);
    assert_eq!(m.convert_address(0x1800), None);
}

#[test]
fn clear_drops_everything() {
    let mut m: LibMappings<u32> = LibMappings::new();
    m.add_mapping(0x1000, 0x2000, 0, 1);
    m.add_mapping(0x3000, 0x4000, 0, 2);
    assert_eq!(m.convert_address(0x1800), Some((0x800, &1)));
    m.clear();
    assert_eq!(m.convert_address(0x1800), None);
    assert_eq!(m.convert_address(0x3000), None);
    assert_eq!(m.len(), 0);
    m.add_mapping(0x1000, 0x2000, 5, 3);
    assert_eq!(m.convert_address(0x1800), Some((0x805, &3)));
}

#[test]
fn most_recent_range_wins_over_a_sequence_of_changes() {
    let mut m: LibMappings<u32> = LibMappings::new();
    m.add_mapping(0x1000, 0x2000, 0, 1);
    m.add_mapping(0x1800, 0x2800, 0x100, 2);
    m.remove_mapping(0x1000);
    m.add_mapping(0x1000, 0x1800, 0x200, 3);
    m.add_mapping(0x2000, 0x2400, 0x300, 4);
    assert_eq!(m.convert_address(0x1000), Some((0x200, &3)));
    assert_eq!(m.convert_address(0x17ff), Some((0x9ff, &3)));
    assert_eq!(m.convert_address(0x1800), None);
    assert_eq!(m.convert_address(0x2000), Some((0x300, &4)));
    assert_eq!(m.convert_address(0x2400), None);
}

#[test]
fn many_ranges_are_found_by_search() {
    let mut m: LibMappings<u64> = LibMappings::new();
    let mut i: u64 = 0;
    while i < 1000 {
        let k = (i * 7919) % 1000;
        m.add_mapping(k * 0x100, k * 0x100 + 0x80, 0, k);
        i += 1;
    }
    assert_eq!(m.len(), 1000);
    let mut k: u64 = 0;
    while k < 1000 {
        assert_eq!(m.convert_address(k * 0x100 + 0x7f), Some((0x7f, &k)));
        assert_eq!(m.convert_address(k * 0x100 + 0x80), None);
        k += 1;
    }
}

#[test]
fn range_up_to_the_top_of_the_address_space() {
    let mut m: LibMappings<u32> = LibMappings::new();
    m.add_mapping(u64::MAX - 0x10, u64::MAX, 0, 1);
    assert_eq!(m.convert_address(u64::MAX - 1), Some((0xf, &1)));
    assert_eq!(m.convert_address(u64::MAX), None);
}

#[test]
fn relative_addresses_up_to_the_limit() {
    let mut m: LibMappings<u32> = LibMappings::new();
    m.add_mapping(0x1000, 0x1010, u32::MAX - 0xf, 1);
    assert_eq!(m.convert_address(0x100f), Some((u32::MAX, &1)));
    let mut big: LibMappings<u32> = LibMappings::new();
    big.add_mapping(0, 0x1_0000_0000, 0, 2);
    assert_eq!(big.convert_address(0xffff_ffff), Some((u32::MAX, &2)));
}

#[test]
fn ranges_that_can_be_added_are_told_in_advance() {
    assert!(LibMappings::<u32>::accepts(0x1000, 0x2000, 0));
    assert!(LibMappings::<u32>::accepts(0x1000, 0x1000, u32::MAX));
    assert!(LibMappings::<u32>::accepts(0x2000, 0x1000, u32::MAX));
    assert!(LibMappings::<u32>::accepts(0, 0x1_0000_0000, 0));
    assert!(!LibMappings::<u32>::accepts(0, 0x1_0000_0001, 0));
    assert!(!LibMappings::<u32>::accepts(0, 0x1_0000_0000, 1));
    assert!(LibMappings::<u32>::accepts(0x10, 0x11, u32::MAX));
    assert!(!LibMappings::<u32>::accepts(0x10, 0x12, u32::MAX));
    assert!(!LibMappings::<u32>::accepts(0, u64::MAX, 0));
}
