use rcore_kernel::page_counter::{bits_iter, PageCounter};

const SV39_LEVELS: [usize; 3] = [9, 9, 9];

#[test]
fn sv39_level_shifts() {
    assert_eq!(bits_iter(&SV39_LEVELS), vec![9, 18]);
}

#[test]
fn fresh_counter_counts_root_table() {
    let c = PageCounter::new(12, &SV39_LEVELS);
    assert_eq!(c.count(), 1);
}

#[test]
fn one_segment_counts_data_and_tables() {
    let mut c = PageCounter::new(12, &SV39_LEVELS);
    c.insert(&[(0x1000, 0x3000)]);
    assert_eq!(c.count(), 5);
}

#[test]
fn segments_sharing_tables_count_tables_once() {
    let mut c = PageCounter::new(12, &SV39_LEVELS);
    c.insert(&[(0x1000, 0x3000), (0x5000, 0x5800)]);
    assert_eq!(c.count(), 6);
    c.insert(&[(0x4000_0000, 0x4000_1000)]);
    assert_eq!(c.count(), 9);
}

#[test]
fn partial_pages_round_outwards() {
    let mut c = PageCounter::new(12, &SV39_LEVELS);
    c.insert(&[(0x1800, 0x2001)]);
    assert_eq!(c.count(), 5);
}
