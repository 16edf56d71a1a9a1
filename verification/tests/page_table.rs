use lib::frame::Frame;
use lib::frame_stack::FrameStack;
use lib::page_table::{
    PageTableFieldFlags, PageTableMemory, ACCESSED, ALL_FLAGS, NOT_FREE, NO_EXECUTE, PRESENT,
    WRITABLE,
};
use lib::paging::{Page, PageTableField};

#[test]
fn flags_truncate_to_known_bits() {
    let f = PageTableFieldFlags::from_bits_truncate(0xffff_ffff_ffff_ffff);
    assert_eq!(f.bits(), ALL_FLAGS);
    assert_eq!(PageTableFieldFlags::from_bits_truncate(0x1000).bits(), 0);
}

#[test]
fn flags_contain_their_parts() {
    let pw = PageTableFieldFlags { bits: PRESENT }.union(PageTableFieldFlags { bits: WRITABLE });
    assert_eq!(pw.bits(), 0x803);
    assert!(pw.contains(PageTableFieldFlags { bits: PRESENT }));
    assert!(pw.contains(PageTableFieldFlags { bits: NOT_FREE }));
    assert!(!pw.contains(PageTableFieldFlags { bits: NO_EXECUTE }));
}

#[test]
fn fresh_memory_reads_zero_and_entries_are_free() {
    let m = PageTableMemory::new();
    assert_eq!(m.read(0x1000), 0);
    assert!(PageTableField(0x1000).is_free(&m));
}

#[test]
fn set_entry_points_to_its_frame() {
    let mut m = PageTableMemory::new();
    let field = PageTableField(0x2000);
    field.set(&mut m, Frame { number: 0x1234 }, PageTableFieldFlags { bits: PRESENT | WRITABLE });
    assert_eq!(m.read(0x2000), 0x123_4803);
    assert_eq!(field.pointed_frame(&m).number, 0x1234);
    assert!(!field.is_free(&m));
    assert!(field.is(&m, PageTableFieldFlags { bits: WRITABLE }));
    assert!(!field.is(&m, PageTableFieldFlags { bits: ACCESSED }));
}

#[test]
fn add_and_remove_flags() {
    let mut m = PageTableMemory::new();
    let field = PageTableField(0x3000);
    field.add_flag(&mut m, PageTableFieldFlags { bits: ACCESSED });
    assert_eq!(m.read(0x3000), 0x820);
    assert!(field.is(&m, PageTableFieldFlags { bits: ACCESSED }));
    field.remove_flag(&mut m, PageTableFieldFlags { bits: 0x20 });
    assert_eq!(m.read(0x3000), 0x800);
    field.remove_flag(&mut m, PageTableFieldFlags { bits: NOT_FREE });
    assert!(field.is_free(&m));
}

#[test]
fn pointed_frame_keeps_thirty_two_bits() {
    let mut m = PageTableMemory::new();
    m.write(0x10, 0x000f_ffff_ffff_f803);
    assert_eq!(PageTableField(0x10).pointed_frame(&m).number, 0xffff_ffff);
}

#[test]
fn zero_clears_the_first_sixty_four_words() {
    let mut m = PageTableMemory::new();
    let page = Page { number: 5 };
    m.write(0x5000, 7);
    m.write(0x5000 + 63 * 8, 7);
    m.write(0x5000 + 64 * 8, 7);
    page.zero(&mut m);
    assert_eq!(m.read(0x5000), 0);
    assert_eq!(m.read(0x5000 + 63 * 8), 0);
    assert_eq!(m.read(0x5000 + 64 * 8), 7);
}

#[test]
fn map_to_new_frame_builds_all_levels() {
    let mut m = PageTableMemory::new();
    let mut frames = FrameStack::new();
    for n in [10, 20, 30, 40] {
        frames.push(Frame { number: n });
    }
    let page = Page { number: (1 << 27) | (2 << 18) | (3 << 9) | 4 };
    page.map_to_new_frame(&mut m, &mut frames);
    assert_eq!(frames.length(), 0);
    let p4 = page.p4_page().field(page.p4_index());
    let p3 = page.p3_page().field(page.p3_index());
    let p2 = page.p2_page().field(page.p2_index());
    let p1 = page.p1_page().field(page.p1_index());
    assert_eq!(p4.pointed_frame(&m).number, 40);
    assert_eq!(p3.pointed_frame(&m).number, 30);
    assert_eq!(p2.pointed_frame(&m).number, 20);
    assert_eq!(p1.pointed_frame(&m).number, 10);
    assert_eq!(m.read(p1.0), (10 << 12) | 0x803);
}

#[test]
fn map_to_new_frame_reuses_present_tables() {
    let mut m = PageTableMemory::new();
    let mut frames = FrameStack::new();
    for n in 1..=6 {
        frames.push(Frame { number: n });
    }
    let first = Page { number: 0x100 };
    let second = Page { number: 0x101 };
    first.map_to_new_frame(&mut m, &mut frames);
    assert_eq!(frames.length(), 2);
    second.map_to_new_frame(&mut m, &mut frames);
    assert_eq!(frames.length(), 1);
    let p1 = second.p1_page().field(second.p1_index());
    assert_eq!(p1.pointed_frame(&m).number, 2);
}
