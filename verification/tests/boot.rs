use lib::boot::{frame_stack, init_frame_stack, map_p1_entries, map_to_p1_table, maximal_phys_addr, MemoryArea};
use lib::frame::Frame;
use lib::frame_stack::FrameStack;
use lib::page_table::PageTableMemory;

#[test]
fn maximal_address_is_the_highest_end() {
    let areas = [
        MemoryArea { base_addr: 0x100000, length: 0x1000 },
        MemoryArea { base_addr: 0, length: 0x9f000 },
    ];
    assert_eq!(maximal_phys_addr(&areas), 0x101000);
    assert_eq!(maximal_phys_addr(&[]), 0);
}

#[test]
fn boot_stack_takes_frames_above_its_end() {
    let areas = [
        MemoryArea { base_addr: 0, length: 0x9f000 },
        MemoryArea { base_addr: 0xa00000, length: 0x8000 },
        MemoryArea { base_addr: 0xc00000, length: 0x2800 },
    ];
    // The stack ends at 10 MiB + 16 + (0xc02800 / 4096) * 8 = 0xa06020.
    let stack = frame_stack(0x100000, &areas);
    assert_eq!(stack, vec![0xa07000, 0xc00000, 0xc01000, 0xc02000]);
}

#[test]
fn boot_stack_of_no_areas_is_empty() {
    assert_eq!(frame_stack(0, &[]), Vec::<u64>::new());
}

#[test]
fn p1_table_and_entry_writes() {
    let mut m = PageTableMemory::new();
    map_to_p1_table(&mut m, 3, Frame { number: 0x77 });
    assert_eq!(m.read(0xffff_ffff_c000_1000 + 24), 0x77001);
    map_p1_entries(&mut m, 2, 5, Frame { number: 0x88 });
    assert_eq!(m.read(0xffff_ff80_0020_0000 | (2 << 12) | 40), 0x88003);
}

#[test]
fn small_memory_needs_no_extra_tables() {
    let mut m = PageTableMemory::new();
    let mut frames = FrameStack::new();
    frames.push(Frame { number: 1 });
    let areas = [
        MemoryArea { base_addr: 0, length: 0x300000 },
        MemoryArea { base_addr: 0x400000, length: 0x3000 },
    ];
    init_frame_stack(0x200000, &areas, &mut m, &mut frames);
    assert_eq!(frames.length(), 3);
    assert_eq!(frames.pop().map(|f| f.number), Some(0x402));
    assert_eq!(frames.pop().map(|f| f.number), Some(0x401));
    assert_eq!(frames.pop().map(|f| f.number), Some(0x400));
    assert_eq!(m.read(0xffff_ff80_0020_0000), (0x200 << 12) | 3);
    assert_eq!(m.read(0xffff_ff80_0020_0000 | 40), (0x205 << 12) | 3);
    assert_eq!(m.read(0xffff_ff80_0020_0000 | (511 * 8)), (0x3ff << 12) | 3);
}

#[test]
fn large_memory_takes_a_frame_for_an_extra_table() {
    let mut m = PageTableMemory::new();
    let mut frames = FrameStack::new();
    let areas = [MemoryArea { base_addr: 0x400000, length: 0x8000_0000 }];
    init_frame_stack(0x200000, &areas, &mut m, &mut frames);
    assert_eq!(m.read(0xffff_ffff_c000_1008), (0x400 << 12) | 1);
    assert_eq!(m.read(0xffff_ff80_0020_1000), (0x400 << 12) | 3);
    assert_eq!(m.read(0xffff_ff80_0020_1000 | (511 * 8)), (0x5ff << 12) | 3);
    assert_eq!(frames.length(), 524287);
    assert_eq!(frames.pop().map(|f| f.number), Some(0x803ff));
}
