use lib::allocator::{allocate, deallocate, Allocator, HeapMemory, FIRST_PAGE_NUMBER};
use lib::frame::Frame;
use lib::frame_stack::FrameStack;
use lib::page_table::PageTableMemory;
use lib::paging::{Page, VirtualAddress};

fn frames(n: u32) -> FrameStack {
    let mut s = FrameStack::new();
    for i in 0..n {
        s.push(Frame { number: 100 + i });
    }
    s
}

#[test]
fn first_allocation_sets_up_the_heap() {
    let mut alloc: Option<Allocator> = None;
    let mut m = PageTableMemory::new();
    let mut f = frames(8);
    let start = allocate(&mut alloc, 16, 8, &mut m, &mut f, &mut HeapMemory::new());
    assert_eq!(start.0, 0x80_0000_0000);
    let a = alloc.unwrap();
    assert_eq!(a.next_byte.0, 0x80_0000_0010);
    assert_eq!(a.current_page.number, FIRST_PAGE_NUMBER);
    assert_eq!(f.length(), 4);
}

#[test]
fn allocation_aligns_its_start() {
    let mut a = Allocator {
        current_page: Page { number: 0x10 },
        next_byte: VirtualAddress(0x10_003),
    };
    let mut m = PageTableMemory::new();
    let mut f = frames(0);
    let start = a.allocate(8, 16, &mut m, &mut f, &mut HeapMemory::new());
    assert_eq!(start.0, 0x10_010);
    assert_eq!(a.next_byte.0, 0x10_00b);
    assert_eq!(a.current_page.number, 0x10);
}

#[test]
fn allocation_with_zero_alignment_starts_at_the_next_byte() {
    let mut a = Allocator {
        current_page: Page { number: 0x10 },
        next_byte: VirtualAddress(0x10_003),
    };
    let mut m = PageTableMemory::new();
    let mut f = frames(0);
    let start = a.allocate(5, 0, &mut m, &mut f, &mut HeapMemory::new());
    assert_eq!(start.0, 0x10_003);
    assert_eq!(a.next_byte.0, 0x10_008);
}

#[test]
fn allocation_maps_the_pages_it_reaches() {
    let mut a = Allocator {
        current_page: Page { number: 0x10 },
        next_byte: VirtualAddress(0x10_ff0),
    };
    let mut m = PageTableMemory::new();
    let mut f = frames(8);
    let start = a.allocate(0x2000, 0, &mut m, &mut f, &mut HeapMemory::new());
    assert_eq!(start.0, 0x10_ff0);
    assert_eq!(a.current_page.number, 0x12);
    let p = Page { number: 0x12 };
    let field = p.p1_page().field(p.p1_index());
    assert!(!field.is_free(&m));
    let q = Page { number: 0x11 };
    let field = q.p1_page().field(q.p1_index());
    assert!(!field.is_free(&m));
    assert_eq!(f.length(), 3);
}

#[test]
fn deallocate_changes_nothing() {
    deallocate(0x1000, 16, 8);
}

#[test]
fn allocated_bytes_read_zero() {
    let mut a = Allocator {
        current_page: Page { number: 0x10 },
        next_byte: VirtualAddress(0x10_003),
    };
    let mut m = PageTableMemory::new();
    let mut f = frames(0);
    let mut heap = HeapMemory::new();
    for address in 0x10_000..0x10_020u64 {
        heap.write(address, 0xab);
    }
    let start = a.allocate(8, 16, &mut m, &mut f, &mut heap);
    assert_eq!(start.0, 0x10_010);
    for address in 0x10_010..0x10_018u64 {
        assert_eq!(heap.read(address), 0);
    }
    assert_eq!(heap.read(0x10_00f), 0xab);
    assert_eq!(heap.read(0x10_018), 0xab);
}

#[test]
fn heap_reads_zero_where_nothing_was_written() {
    let mut heap = HeapMemory::new();
    assert_eq!(heap.read(0x80_0000_0000), 0);
    heap.write(0x80_0000_0000, 7);
    assert_eq!(heap.read(0x80_0000_0000), 7);
    heap.zero(0x80_0000_0000, 1);
    assert_eq!(heap.read(0x80_0000_0000), 0);
}
