use lib::frame::Frame;
use lib::frame_stack::{allocate_frame, deallocate_frame, init, length, max_size, FrameStack};
use std::cmp::Ordering;

#[test]
fn frames_compare_by_number() {
    assert!(Frame { number: 3 } == Frame { number: 3 });
    assert!(Frame { number: 3 } != Frame { number: 4 });
    assert_eq!(Frame { number: 3 }.partial_cmp(&Frame { number: 4 }), Some(Ordering::Less));
    assert_eq!(Frame { number: 5 }.partial_cmp(&Frame { number: 4 }), Some(Ordering::Greater));
    assert!(Frame { number: 5 } >= Frame { number: 5 });
}

#[test]
fn empty_stack_gives_nothing() {
    let mut s = init();
    assert_eq!(length(&s), 0);
    assert!(allocate_frame(&mut s).is_none());
}

#[test]
fn last_freed_frame_comes_first() {
    let mut s = FrameStack::new();
    deallocate_frame(&mut s, Frame { number: 1 });
    deallocate_frame(&mut s, Frame { number: 2 });
    assert_eq!(length(&s), 2);
    assert_eq!(allocate_frame(&mut s).map(|f| f.number), Some(2));
    assert_eq!(allocate_frame(&mut s).map(|f| f.number), Some(1));
    assert!(allocate_frame(&mut s).is_none());
}

#[test]
fn max_size_counts_header_and_entries() {
    assert_eq!(max_size(0), 16);
    assert_eq!(max_size(1000), 16 + 4000);
    assert_eq!(max_size(u32::MAX), 16 + 4 * (u32::MAX as u64));
}
