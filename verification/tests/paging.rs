use lib::paging::{Page, PageTablePage, VirtualAddress};

fn sample_page() -> Page {
    Page { number: (0o123 << 27) | (0o456 << 18) | (0o701 << 9) | 0o017 }
}

#[test]
fn page_from_address_drops_the_offset() {
    let p = Page::from_address(&VirtualAddress(0x1234_5678));
    assert_eq!(p.number, 0x12345);
    assert_eq!(VirtualAddress(0x1234_5678).page().number, 0x12345);
}

#[test]
fn page_offset_is_the_low_twelve_bits() {
    assert_eq!(VirtualAddress(0x1234_5678).page_offset(), 0x678);
    assert_eq!(VirtualAddress(0x1000).page_offset(), 0);
}

#[test]
fn lower_half_start_address_is_not_sign_extended() {
    assert_eq!(Page { number: 5 }.start_address().0, 0x5000);
    assert_eq!(Page { number: 0o377_777_777_777 }.start_address().0, 0x7fff_ffff_f000);
}

#[test]
fn upper_half_start_address_is_sign_extended() {
    assert_eq!(Page { number: 0o400_000_000_000 }.start_address().0, 0xffff_8000_0000_0000);
    assert_eq!(Page { number: 0o777_777_777_777 }.start_address().0, 0xffff_ffff_ffff_f000);
}

#[test]
fn table_indices_are_nine_bit_groups() {
    let p = sample_page();
    assert_eq!(p.p4_index(), 0o123);
    assert_eq!(p.p3_index(), 0o456);
    assert_eq!(p.p2_index(), 0o701);
    assert_eq!(p.p1_index(), 0o017);
}

#[test]
fn table_pages_follow_the_recursive_mapping() {
    let p = sample_page();
    assert_eq!(p.p4_page().0.number, 0o777_777_777_777);
    assert_eq!(p.p3_page().0.number, 0o777_777_777_123);
    assert_eq!(p.p2_page().0.number, 0o777_777_123_456);
    assert_eq!(p.p1_page().0.number, 0o777_123_456_701);
}

#[test]
fn table_pages_are_nested_p1_pages() {
    let p = sample_page();
    let p1 = p.p1_page().0;
    assert_eq!(p1.p1_page().0.number, p.p2_page().0.number);
    let p2 = p.p2_page().0;
    assert_eq!(p2.p1_page().0.number, p.p3_page().0.number);
    let p3 = p.p3_page().0;
    assert_eq!(p3.p1_page().0.number, p.p4_page().0.number);
}

#[test]
fn field_addresses_step_by_eight_bytes() {
    let p4 = PageTablePage(Page { number: 0o777_777_777_777 });
    assert_eq!(p4.field(0).0, 0xffff_ffff_ffff_f000);
    assert_eq!(p4.field(1).0, 0xffff_ffff_ffff_f008);
    assert_eq!(p4.field(511).0, 0xffff_ffff_ffff_fff8);
    let p1 = sample_page().p1_page();
    assert_eq!(p1.field(5).0, 0xffff_ff94_e5dc_1000 + 40);
}

#[test]
fn next_pages_counts_up_from_the_page() {
    let mut it = Page { number: 41 }.next_pages();
    assert_eq!(it.next().map(|p| p.number), Some(42));
    assert_eq!(it.next().map(|p| p.number), Some(43));
}
