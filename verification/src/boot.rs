//! Setting up the stack of free frames at boot from the memory areas that
//! the boot loader reports.
use vstd::prelude::*;
use crate::frame::Frame;
use crate::frame_stack::{FrameStack, max_size, deallocate_frame};
use crate::page_table::PageTableMemory;

verus! {

/// A range of usable physical memory reported by the boot loader.
#[derive(Clone, Copy, Debug, PartialEq, Eq, Structural)]
pub struct MemoryArea {
    pub base_addr: u64,
    pub length: u64,
}

/// Physical address where the boot-time frame stack is placed: 10 MiB.
pub const FRAME_STACK_ADDRESS: u64 = 0xA0_0000;

/// Bytes taken by the header of the boot-time frame stack: a pointer and a
/// `u32` length, padded to pointer alignment.
pub const BOOT_STACK_HEADER_SIZE: u64 = 16;

/// Bytes taken by one entry of the boot-time frame stack: a physical
/// address.
pub const BOOT_STACK_ENTRY_SIZE: u64 = 8;

/// Size of a frame in bytes.
pub const FRAME_SIZE: u64 = 4096;

/// Every area ends inside the address space.
pub open spec fn areas_fit(areas: Seq<MemoryArea>) -> bool {
    forall|i: int| 0 <= i < areas.len() ==> #[trigger] areas[i].base_addr + areas[i].length <= u64::MAX
}

/// The highest end address of the areas, and zero for none.
pub open spec fn maximal_end(areas: Seq<MemoryArea>) -> int
    decreases areas.len(),
{
    if areas.len() == 0 {
        0
    } else {
        let rest = maximal_end(areas.drop_last());
        let end = areas.last().base_addr + areas.last().length;
        if end > rest {
            end
        } else {
            rest
        }
    }
}

/// The start addresses of the frames from `addr` on, in steps of a frame,
/// below `end`, that lie above `start`.
pub open spec fn area_frames(addr: int, end: int, start: int) -> Seq<u64>
    decreases (if end > addr { end - addr } else { 0 }),
{
    if addr >= end {
        Seq::empty()
    } else {
        let rest = area_frames(addr + 4096, end, start);
        if addr > start {
            seq![addr as u64] + rest
        } else {
            rest
        }
    }
}

/// The frames of all areas, area after area, that lie above `start`.
pub open spec fn free_frames(areas: Seq<MemoryArea>, start: int) -> Seq<u64>
    decreases areas.len(),
{
    if areas.len() == 0 {
        Seq::empty()
    } else {
        free_frames(areas.drop_last(), start) + area_frames(
            areas.last().base_addr as int,
            areas.last().base_addr + areas.last().length,
            start,
        )
    }
}

/// The highest end address of the areas, and zero for none.
pub fn maximal_phys_addr(areas: &[MemoryArea]) -> (max: u64)
    requires
        areas_fit(areas@),
    ensures
        max == maximal_end(areas@),
{
    let mut max: u64 = 0;
    let mut i: usize = 0;
    while i < areas.len()
        invariant
            i <= areas@.len(),
            areas_fit(areas@),
            max == maximal_end(areas@.subrange(0, i as int)),
        decreases areas.len() - i,
    {
        let area = areas[i];
        assert(areas@[i as int].base_addr + areas@[i as int].length <= u64::MAX);
        let end = area.base_addr + area.length;
        if end > max {
            max = end;
        }
        assert(areas@.subrange(0, i as int + 1).drop_last() =~= areas@.subrange(0, i as int));
        i = i + 1;
    }
    assert(areas@.subrange(0, i as int) =~= areas@);
    max
}

/// The first address above which frames are free: behind the frame stack,
/// which takes its header and one entry for every frame up to the highest
/// address.
pub open spec fn free_start(maximal: u64) -> int {
    FRAME_STACK_ADDRESS + BOOT_STACK_HEADER_SIZE + (maximal / 4096) * BOOT_STACK_ENTRY_SIZE
}

/// Appends to `out` the frames of one area that lie above `start`.
fn push_area_frames(out: &mut Vec<u64>, area: MemoryArea, start: u64)
    requires
        area.base_addr + area.length <= u64::MAX,
    ensures
        final(out)@ == old(out)@ + area_frames(
            area.base_addr as int,
            area.base_addr + area.length,
            start as int,
        ),
{
    let end = area.base_addr + area.length;
    let mut addr = area.base_addr;
    let ghost total = area_frames(area.base_addr as int, end as int, start as int);
    assert(old(out)@ + total =~= out@ + area_frames(addr as int, end as int, start as int));
    while addr < end
        invariant
            addr <= end,
            old(out)@ + total == out@ + area_frames(addr as int, end as int, start as int),
        decreases end - addr,
    {
        let ghost before = out@;
        if addr > start {
            out.push(addr);
            assert(before + area_frames(addr as int, end as int, start as int) =~= out@
                + area_frames(addr + 4096, end as int, start as int));
        } else {
            assert(before + area_frames(addr as int, end as int, start as int) =~= out@
                + area_frames(addr + 4096, end as int, start as int));
        }
        if end - addr <= FRAME_SIZE {
            assert(area_frames(addr + 4096, end as int, start as int) =~= Seq::<u64>::empty());
            addr = end;
            assert(area_frames(addr as int, end as int, start as int) =~= Seq::<u64>::empty());
        } else {
            addr = addr + FRAME_SIZE;
        }
    }
    assert(area_frames(addr as int, end as int, start as int) =~= Seq::<u64>::empty());
    assert(out@ =~= old(out)@ + total);
}

/// Builds the boot-time stack of free frames: the start address of every
/// frame of every area, area after area in increasing order, that lies
/// above the end of the stack itself. The stack must lie behind the kernel.
pub fn frame_stack(kernel_end: u64, areas: &[MemoryArea]) -> (stack: Vec<u64>)
    requires
        kernel_end < FRAME_STACK_ADDRESS,
        areas_fit(areas@),
    ensures
        stack@ == free_frames(areas@, free_start(maximal_end(areas@) as u64)),
{
    let maximal = maximal_phys_addr(areas);
    let start = FRAME_STACK_ADDRESS + BOOT_STACK_HEADER_SIZE + maximal / FRAME_SIZE * BOOT_STACK_ENTRY_SIZE;
    let mut stack: Vec<u64> = Vec::new();
    let mut i: usize = 0;
    while i < areas.len()
        invariant
            i <= areas@.len(),
            areas_fit(areas@),
            start == free_start(maximal),
            maximal == maximal_end(areas@),
            stack@ == free_frames(areas@.subrange(0, i as int), start as int),
        decreases areas.len() - i,
    {
        assert(areas@[i as int].base_addr + areas@[i as int].length <= u64::MAX);
        push_area_frames(&mut stack, areas[i], start);
        assert(areas@.subrange(0, i as int + 1).drop_last() =~= areas@.subrange(0, i as int));
        i = i + 1;
    }
    assert(areas@.subrange(0, i as int) =~= areas@);
    stack
}

/// Address of the P2 entry, reached through the recursive mapping, that
/// holds P1 table `p2_index` of the frame-stack region.
pub open spec fn p1_table_address(p2_index: u32) -> u64 {
    (0o177777_777_777_000_001_0000u64 + p2_index * 8) as u64
}

/// Address of entry `p1_index` of P1 table `p2_index` of the frame-stack
/// region.
pub open spec fn p1_entry_address(p2_index: u32, p1_index: u32) -> u64 {
    0o177777_777_000_001_000_0000u64 | ((p2_index as u64) << 12u64) | ((p1_index * 8) as u64)
}

/// The entry that maps frame `number` with the given flag bits.
pub open spec fn frame_entry(number: u32, flag_bits: u64) -> u64 {
    ((number as u64) << 12u64) | flag_bits
}

/// Makes `to` P1 table `p2_index` of the frame-stack region, present.
pub fn map_to_p1_table(memory: &mut PageTableMemory, p2_index: u32, to: Frame)
    requires
        p2_index < 0x7ff_fe00,
    ensures
        final(memory)@ == old(memory)@.insert(p1_table_address(p2_index), frame_entry(to.number, 1)),
{
    memory.write(0o177777_777_777_000_001_0000 + (p2_index as u64) * 8, ((to.number as u64) << 12) | 1);
}

/// Maps entry `p1_index` of P1 table `p2_index` of the frame-stack region to
/// `to`, present and writable.
pub fn map_p1_entries(memory: &mut PageTableMemory, p2_index: u32, p1_index: u32, to: Frame)
    ensures
        final(memory)@ == old(memory)@.insert(p1_entry_address(p2_index, p1_index), frame_entry(to.number, 3)),
{
    memory.write(
        0o177777_777_000_001_000_0000 | ((p2_index as u64) << 12) | (p1_index as u64 * 8),
        ((to.number as u64) << 12) | 3,
    );
}

/// The memory after the writes, in order, of `(address, value)` pairs.
pub open spec fn apply_writes(m: Map<u64, u64>, writes: Seq<(u64, u64)>) -> Map<u64, u64>
    decreases writes.len(),
{
    if writes.len() == 0 {
        m
    } else {
        apply_writes(m, writes.drop_last()).insert(writes.last().0, writes.last().1)
    }
}

/// The 512 writes that fill P1 table `k` of the frame-stack region: entry
/// `i` maps the frame `first + 512 * k + i`.
pub open spec fn p1_block(first: u32, k: u32, count: int) -> Seq<(u64, u64)> {
    Seq::new(
        count as nat,
        |i: int| (p1_entry_address(k, i as u32), frame_entry((first + 512 * k + i) as u32, 3)),
    )
}

/// The writes for P1 tables 1 to `t`: table `k` is placed in frame
/// `tables[k - 1]` and filled.
pub open spec fn table_blocks(first: u32, tables: Seq<u32>, t: nat) -> Seq<(u64, u64)>
    decreases t,
{
    if t == 0 {
        Seq::empty()
    } else {
        table_blocks(first, tables, (t - 1) as nat) + seq![
            (p1_table_address(t as u32), frame_entry(tables[t - 1], 1)),
        ] + p1_block(first, t as u32, 512)
    }
}

/// The writes that map the first P1 table of the frame-stack region, right
/// behind the kernel.
pub open spec fn initial_writes(first: u32) -> Seq<(u64, u64)> {
    seq![(p1_entry_address(0, 0), frame_entry(first, 3))] + p1_block(first, 0, 512)
}

/// The numbers of the frames from `lo` up to `hi`, kept to 32 bits, that
/// are at least `first_free`.
pub open spec fn area_numbers(lo: int, hi: int, first_free: u32) -> Seq<u32>
    decreases (if hi > lo { hi - lo } else { 0 }),
{
    if hi <= lo {
        Seq::empty()
    } else {
        area_numbers(lo, hi - 1, first_free) + (if (hi - 1) as u32 >= first_free {
            seq![(hi - 1) as u32]
        } else {
            Seq::empty()
        })
    }
}

/// The number of the frame that holds an area's first byte.
pub open spec fn area_low(a: MemoryArea) -> int {
    a.base_addr as int / 4096
}

/// The frame number just past an area.
pub open spec fn area_high(a: MemoryArea) -> int {
    (a.base_addr + a.length) / 4096
}

/// The frame numbers, area after area, that are at least `first_free`.
pub open spec fn eligible_frames(areas: Seq<MemoryArea>, first_free: u32) -> Seq<u32>
    decreases areas.len(),
{
    if areas.len() == 0 {
        Seq::empty()
    } else {
        eligible_frames(areas.drop_last(), first_free) + area_numbers(
            area_low(areas.last()),
            area_high(areas.last()),
            first_free,
        )
    }
}

/// Number of frame numbers that the areas span.
pub open spec fn frame_count(areas: Seq<MemoryArea>) -> int
    decreases areas.len(),
{
    if areas.len() == 0 {
        0
    } else {
        frame_count(areas.drop_last()) + (area_high(areas.last()) - area_low(areas.last()))
    }
}

/// Sum of the whole frames in the areas' lengths.
pub open spec fn total_length_frames(areas: Seq<MemoryArea>) -> int
    decreases areas.len(),
{
    if areas.len() == 0 {
        0
    } else {
        total_length_frames(areas.drop_last()) + areas.last().length / 4096
    }
}

/// The number of P1 tables that the frame stack needs beyond the first: the
/// whole pages of the stack's largest size, with one entry for every whole
/// frame of the areas' lengths (a count kept to 32 bits), in units of the
/// 512 pages that one table maps.
pub open spec fn p1_tables_required(areas: Seq<MemoryArea>) -> int {
    ((16 + 4 * (total_length_frames(areas) % 0x1_0000_0000)) / 4096 / 512) as u32 as int
}

/// The frames with the given numbers.
pub open spec fn as_frames(numbers: Seq<u32>) -> Seq<Frame> {
    numbers.map_values(|n: u32| Frame { number: n })
}

/// The smaller of two integers.
pub open spec fn min_int(a: int, b: int) -> int {
    if a < b {
        a
    } else {
        b
    }
}

/// The table writes for the first `t` tables depend only on the first `t`
/// frames.
proof fn lemma_table_blocks_prefix(first: u32, tables: Seq<u32>, x: u32, t: nat)
    requires
        t <= tables.len(),
    ensures
        table_blocks(first, tables, t) == table_blocks(first, tables.push(x), t),
    decreases t,
{
    if t > 0 {
        lemma_table_blocks_prefix(first, tables, x, (t - 1) as nat);
        assert(tables[t - 1] == tables.push(x)[t - 1]);
    }
}

/// Writing one more pair after a sequence of writes.
proof fn lemma_apply_push(m: Map<u64, u64>, writes: Seq<(u64, u64)>, w: (u64, u64))
    ensures
        apply_writes(m, writes.push(w)) == apply_writes(m, writes).insert(w.0, w.1),
{
    assert(writes.push(w).drop_last() =~= writes);
}

/// An area's eligible numbers are no more than its numbers.
proof fn lemma_area_numbers_len(lo: int, hi: int, first_free: u32)
    ensures
        area_numbers(lo, hi, first_free).len() <= (if hi > lo { hi - lo } else { 0 }),
    decreases (if hi > lo { hi - lo } else { 0 }),
{
    if hi > lo {
        lemma_area_numbers_len(lo, hi - 1, first_free);
    }
}

/// The frame count of a prefix of the areas is at most that of all areas.
proof fn lemma_frame_count_prefix(areas: Seq<MemoryArea>, i: int)
    requires
        0 <= i <= areas.len(),
        areas_fit(areas),
    ensures
        0 <= frame_count(areas.subrange(0, i)) <= frame_count(areas),
    decreases areas.len() - i,
{
    if i < areas.len() {
        lemma_frame_count_prefix(areas, i + 1);
        assert(areas.subrange(0, i + 1).drop_last() =~= areas.subrange(0, i));
        assert(areas.subrange(0, i + 1).last() == areas[i]);
        let sub = areas.subrange(0, i);
        assert forall|k: int| 0 <= k < sub.len() implies #[trigger] sub[k].base_addr + sub[k].length
            <= u64::MAX by {
            assert(sub[k] == areas[k]);
        }
        lemma_frame_count_nonneg(sub);
        let a = areas[i];
        assert(a.base_addr + a.length <= u64::MAX);
        assert(area_low(a) <= area_high(a)) by (nonlinear_arith)
            requires
                a.base_addr <= a.base_addr + a.length,
        ;
    } else {
        assert(areas.subrange(0, i) =~= areas);
        lemma_frame_count_nonneg(areas);
    }
}

/// A frame count is never negative.
proof fn lemma_frame_count_nonneg(areas: Seq<MemoryArea>)
    requires
        areas_fit(areas),
    ensures
        frame_count(areas) >= 0,
    decreases areas.len(),
{
    if areas.len() > 0 {
        let rest = areas.drop_last();
        assert forall|i: int| 0 <= i < rest.len() implies #[trigger] rest[i].base_addr + rest[i].length
            <= u64::MAX by {
            assert(rest[i] == areas[i]);
        }
        lemma_frame_count_nonneg(rest);
        let a = areas.last();
        assert(a == areas[areas.len() - 1]);
        assert(area_low(a) <= area_high(a)) by (nonlinear_arith)
            requires
                a.base_addr <= a.base_addr + a.length,
        ;
    }
}

/// Fills P1 table `k` of the frame-stack region: entry `i` maps frame
/// `first + 512 * k + i`.
fn fill_p1_table(
    memory: &mut PageTableMemory,
    first: u32,
    k: u32,
    Ghost(m0): Ghost<Map<u64, u64>>,
    Ghost(writes): Ghost<Seq<(u64, u64)>>,
)
    requires
        first <= 0x10_0000,
        k <= 0x4000,
        old(memory)@ == apply_writes(m0, writes),
    ensures
        final(memory)@ == apply_writes(m0, writes + p1_block(first, k, 512)),
{
    let mut i: u32 = 0;
    assert(writes + p1_block(first, k, 0) =~= writes);
    while i < 512
        invariant
            i <= 512,
            first <= 0x10_0000,
            k <= 0x4000,
            memory@ == apply_writes(m0, writes + p1_block(first, k, i as int)),
        decreases 512 - i,
    {
        let number = first + k * 512 + i;
        map_p1_entries(memory, k, i, Frame { number });
        proof {
            let w = (p1_entry_address(k, i), frame_entry(number, 3));
            lemma_apply_push(m0, writes + p1_block(first, k, i as int), w);
            assert((writes + p1_block(first, k, i as int)).push(w) =~= writes + p1_block(
                first,
                k,
                i as int + 1,
            ));
        }
        i = i + 1;
    }
}

/// Sum of the whole frames in the areas' lengths.
fn number_of_frames(areas: &[MemoryArea]) -> (n: u64)
    requires
        total_length_frames(areas@) <= u64::MAX,
        forall|j: int| 0 <= j <= areas@.len() ==> 0 <= #[trigger] total_length_frames(areas@.subrange(0, j))
            <= total_length_frames(areas@),
    ensures
        n == total_length_frames(areas@),
{
    let mut n: u64 = 0;
    let mut i: usize = 0;
    while i < areas.len()
        invariant
            i <= areas@.len(),
            total_length_frames(areas@) <= u64::MAX,
            forall|j: int| 0 <= j <= areas@.len() ==> 0 <= #[trigger] total_length_frames(areas@.subrange(0, j))
                <= total_length_frames(areas@),
            n == total_length_frames(areas@.subrange(0, i as int)),
        decreases areas.len() - i,
    {
        assert(areas@.subrange(0, i as int + 1).drop_last() =~= areas@.subrange(0, i as int));
        assert(total_length_frames(areas@.subrange(0, i as int + 1)) <= total_length_frames(areas@));
        n = n + areas[i].length / 4096;
        i = i + 1;
    }
    assert(areas@.subrange(0, i as int) =~= areas@);
    n
}

/// The whole-frame sums of the prefixes of the areas grow up to the sum of
/// all areas.
proof fn lemma_total_length_prefix(areas: Seq<MemoryArea>)
    ensures
        forall|j: int| 0 <= j <= areas.len() ==> 0 <= #[trigger] total_length_frames(areas.subrange(0, j))
            <= total_length_frames(areas),
    decreases areas.len(),
{
    if areas.len() == 0 {
        assert forall|j: int| 0 <= j <= areas.len() implies 0 <= #[trigger] total_length_frames(
            areas.subrange(0, j),
        ) <= total_length_frames(areas) by {
            assert(areas.subrange(0, j) =~= areas);
        }
    } else {
        let rest = areas.drop_last();
        lemma_total_length_prefix(rest);
        assert(rest.subrange(0, rest.len() as int) =~= rest);
        assert(0 <= total_length_frames(rest.subrange(0, rest.len() as int)));
        assert forall|j: int| 0 <= j <= areas.len() implies 0 <= #[trigger] total_length_frames(
            areas.subrange(0, j),
        ) <= total_length_frames(areas) by {
            if j == areas.len() {
                assert(areas.subrange(0, j) =~= areas);
                assert(areas.subrange(0, j - 1) =~= rest.subrange(0, j - 1));
                assert(rest.subrange(0, rest.len() as int) =~= rest);
            } else {
                assert(areas.subrange(0, j) =~= rest.subrange(0, j));
                assert(0 <= total_length_frames(rest.subrange(0, j)) <= total_length_frames(rest));
            }
        }
    }
}

/// The eligible frames are no more than the frame numbers the areas span.
proof fn lemma_eligible_len(areas: Seq<MemoryArea>, first_free: u32)
    requires
        areas_fit(areas),
    ensures
        eligible_frames(areas, first_free).len() <= frame_count(areas),
    decreases areas.len(),
{
    if areas.len() > 0 {
        let rest = areas.drop_last();
        assert forall|k: int| 0 <= k < rest.len() implies #[trigger] rest[k].base_addr + rest[k].length
            <= u64::MAX by {
            assert(rest[k] == areas[k]);
        }
        lemma_eligible_len(rest, first_free);
        let a = areas.last();
        assert(a == areas[areas.len() - 1]);
        assert(area_low(a) <= area_high(a)) by (nonlinear_arith)
            requires
                a.base_addr <= a.base_addr + a.length,
        ;
        lemma_area_numbers_len(area_low(a), area_high(a), first_free);
    }
}

/// What holds while the frame-stack region is being set up, after the
/// eligible frames `seen` were handled: the first `last` of them became P1
/// tables, as many as were required and available; the writes so far are
/// those of the first table and of the `last` tables; the others were put on
/// the stack in the order they came.
pub open spec fn setup_state(
    memory: Map<u64, u64>,
    stack: Seq<Frame>,
    last: u32,
    required: u32,
    first: u32,
    seen: Seq<u32>,
    m0: Map<u64, u64>,
) -> bool {
    &&& last == min_int(required as int, seen.len() as int)
    &&& memory == apply_writes(m0, initial_writes(first) + table_blocks(first, seen, last as nat))
    &&& stack == as_frames(seen.skip(last as int))
}

/// Handles one eligible frame: it becomes the next P1 table while more are
/// required, and goes on the stack after that.
fn handle_frame(
    memory: &mut PageTableMemory,
    frames: &mut FrameStack,
    last: &mut u32,
    required: u32,
    first: u32,
    number: u32,
    Ghost(m0): Ghost<Map<u64, u64>>,
    Ghost(seen): Ghost<Seq<u32>>,
)
    requires
        first <= 0x10_0000,
        required <= 0x2000,
        old(frames).wf(),
        seen.len() + 1 < u32::MAX,
        setup_state(old(memory)@, old(frames)@, *old(last), required, first, seen, m0),
    ensures
        final(frames).wf(),
        setup_state(final(memory)@, final(frames)@, *final(last), required, first, seen.push(number), m0),
{
    let ghost seen2 = seen.push(number);
    proof {
        lemma_table_blocks_prefix(first, seen, number, *last as nat);
    }
    if *last < required {
        let ghost old_last = *last;
        *last = *last + 1;
        let ghost base = initial_writes(first) + table_blocks(first, seen2, old_last as nat);
        let ghost w = (p1_table_address(*last), frame_entry(number, 1));
        map_to_p1_table(memory, *last, Frame { number });
        proof {
            lemma_apply_push(m0, base, w);
        }
        fill_p1_table(memory, first, *last, Ghost(m0), Ghost(base.push(w)));
        proof {
            assert(seen2[old_last as int] == number);
            assert(initial_writes(first) + table_blocks(first, seen2, *last as nat) =~= base.push(w)
                + p1_block(first, *last, 512));
            assert(seen2.skip(*last as int) =~= Seq::<u32>::empty());
            assert(seen.skip(old_last as int) =~= Seq::<u32>::empty());
            assert(as_frames(seen2.skip(*last as int)) =~= as_frames(seen.skip(old_last as int)));
        }
    } else {
        deallocate_frame(frames, Frame { number });
        proof {
            assert(seen2.skip(*last as int) =~= seen.skip(*last as int).push(number));
            assert(as_frames(seen2.skip(*last as int)) =~= as_frames(seen.skip(*last as int)).push(
                Frame { number },
            ));
        }
    }
}

/// Handles the frames of one area, in increasing order, that are at least
/// `first_free`.
fn handle_area(
    memory: &mut PageTableMemory,
    frames: &mut FrameStack,
    last: &mut u32,
    required: u32,
    first: u32,
    first_free: u32,
    area: MemoryArea,
    Ghost(m0): Ghost<Map<u64, u64>>,
    Ghost(seen): Ghost<Seq<u32>>,
)
    requires
        first <= 0x10_0000,
        required <= 0x2000,
        old(frames).wf(),
        area.base_addr + area.length <= u64::MAX,
        seen.len() + (area_high(area) - area_low(area)) < u32::MAX,
        setup_state(old(memory)@, old(frames)@, *old(last), required, first, seen, m0),
    ensures
        final(frames).wf(),
        setup_state(
            final(memory)@,
            final(frames)@,
            *final(last),
            required,
            first,
            seen + area_numbers(area_low(area), area_high(area), first_free),
            m0,
        ),
{
    let base = area.base_addr;
    let end = area.base_addr + area.length;
    let lo = base >> 12;
    let hi = end >> 12;
    assert(lo == base / 4096 && hi == end / 4096) by (bit_vector)
        requires
            lo == base >> 12,
            hi == end >> 12,
    ;
    let mut n = lo;
    assert(seen + area_numbers(lo as int, n as int, first_free) =~= seen);
    while n < hi
        invariant
            lo <= n <= hi,
            lo == area_low(area),
            hi == area_high(area),
            first <= 0x10_0000,
            required <= 0x2000,
            frames.wf(),
            seen.len() + (hi - lo) < u32::MAX,
            setup_state(
                memory@,
                frames@,
                *last,
                required,
                first,
                seen + area_numbers(lo as int, n as int, first_free),
                m0,
            ),
        decreases hi - n,
    {
        let ghost before = seen + area_numbers(lo as int, n as int, first_free);
        proof {
            lemma_area_numbers_len(lo as int, n as int, first_free);
        }
        let number = n as u32;
        if number >= first_free {
            handle_frame(memory, frames, last, required, first, number, Ghost(m0), Ghost(before));
            assert(before.push(number) =~= seen + area_numbers(lo as int, n + 1, first_free));
        } else {
            assert(before =~= seen + area_numbers(lo as int, n + 1, first_free));
        }
        n = n + 1;
    }
}

/// Sets up the stack of free frames behind the kernel, which ends at
/// `kernel_end`. The first P1 table of the stack's region maps the 512
/// frames behind the kernel. Then the stack is emptied, and the frames of
/// the areas from the 512th behind the kernel on are handled in order: the
/// first of them become the further P1 tables that a stack of all frames
/// needs, each mapping the next 512 frames of the region, and the rest go
/// on the stack.
pub fn init_frame_stack(
    kernel_end: u32,
    areas: &[MemoryArea],
    memory: &mut PageTableMemory,
    frames: &mut FrameStack,
)
    requires
        areas_fit(areas@),
        total_length_frames(areas@) <= u64::MAX,
        frame_count(areas@) + 1 < u32::MAX,
    ensures
        ({
            let first = (kernel_end / 4096) as u32;
            let seen = eligible_frames(areas@, (first + 512) as u32);
            let last = min_int(p1_tables_required(areas@), seen.len() as int);
            &&& final(frames).wf()
            &&& final(frames)@ == as_frames(seen.skip(last))
            &&& final(memory)@ == apply_writes(
                old(memory)@,
                initial_writes(first) + table_blocks(first, seen, last as nat),
            )
        }),
{
    let ghost m0 = memory@;
    let first = kernel_end >> 12;
    assert(first == kernel_end / 4096 && first <= 0x10_0000) by (bit_vector)
        requires
            first == kernel_end >> 12,
    ;
    map_p1_entries(memory, 0, 0, Frame { number: first });
    let ghost w0 = (p1_entry_address(0, 0), frame_entry(first, 3));
    proof {
        lemma_apply_push(m0, Seq::empty(), w0);
        assert(Seq::<(u64, u64)>::empty().push(w0) =~= seq![w0]);
        assert(apply_writes(m0, Seq::<(u64, u64)>::empty()) == m0);
    }
    let ghost first_writes = seq![w0];
    fill_p1_table(memory, first, 0, Ghost(m0), Ghost(first_writes));
    *frames = FrameStack::new();
    proof {
        lemma_total_length_prefix(areas@);
    }
    let n = number_of_frames(areas);
    let frames_count = #[verifier::truncate] (n as u32);
    assert(frames_count == n % 0x1_0000_0000) by (bit_vector)
        requires
            frames_count == n as u32,
    ;
    let size = max_size(frames_count);
    let required = (size / 4096 / 512) as u32;
    assert(size / 4096 / 512 <= 0x2000);
    assert(required == p1_tables_required(areas@) && required <= 0x2000);
    let first_free = first + 512;
    let mut last: u32 = 0;
    proof {
        assert(table_blocks(first, Seq::<u32>::empty(), 0) =~= Seq::<(u64, u64)>::empty());
        assert(initial_writes(first) + table_blocks(first, Seq::<u32>::empty(), 0) =~= seq![w0]
            + p1_block(first, 0, 512));
        assert(as_frames(Seq::<u32>::empty().skip(0)) =~= Seq::<Frame>::empty());
        assert(areas@.subrange(0, 0) =~= Seq::<MemoryArea>::empty());
    }
    let mut i: usize = 0;
    while i < areas.len()
        invariant
            i <= areas@.len(),
            areas_fit(areas@),
            frame_count(areas@) + 1 < u32::MAX,
            first <= 0x10_0000,
            first_free == first + 512,
            required <= 0x2000,
            frames.wf(),
            setup_state(
                memory@,
                frames@,
                last,
                required,
                first,
                eligible_frames(areas@.subrange(0, i as int), first_free),
                m0,
            ),
        decreases areas.len() - i,
    {
        let ghost seen = eligible_frames(areas@.subrange(0, i as int), first_free);
        let area = areas[i];
        proof {
            assert(areas@.subrange(0, i as int + 1).drop_last() =~= areas@.subrange(0, i as int));
            assert(areas@.subrange(0, i as int + 1).last() == area);
            let sub = areas@.subrange(0, i as int);
            assert forall|k: int| 0 <= k < sub.len() implies #[trigger] sub[k].base_addr + sub[k].length
                <= u64::MAX by {
                assert(sub[k] == areas@[k]);
            }
            lemma_eligible_len(sub, first_free);
            lemma_frame_count_prefix(areas@, i as int + 1);
            assert(area.base_addr + area.length <= u64::MAX);
        }
        handle_area(
            memory,
            frames,
            &mut last,
            required,
            first,
            first_free,
            area,
            Ghost(m0),
            Ghost(seen),
        );
        i = i + 1;
    }
    assert(areas@.subrange(0, i as int) =~= areas@);
}

/// Every frame that the boot-time stack holds lies above the stack's own
/// end: the stack never hands out the memory it lives in.
pub proof fn law_boot_frames_lie_above_stack(areas: Seq<MemoryArea>, start: int)
    requires
        areas_fit(areas),
    ensures
        forall|k: int|
            0 <= k < free_frames(areas, start).len() ==> #[trigger] free_frames(areas, start)[k] > start,
    decreases areas.len(),
{
    if areas.len() > 0 {
        let rest_areas = areas.drop_last();
        assert forall|k: int| 0 <= k < rest_areas.len() implies #[trigger] rest_areas[k].base_addr
            + rest_areas[k].length <= u64::MAX by {
            assert(rest_areas[k] == areas[k]);
        }
        law_boot_frames_lie_above_stack(rest_areas, start);
        let a = areas.last();
        assert(a == areas[areas.len() - 1]);
        lemma_area_frames_above(a.base_addr as int, a.base_addr + a.length, start);
        let left = free_frames(rest_areas, start);
        let right = area_frames(a.base_addr as int, a.base_addr + a.length, start);
        assert forall|k: int| 0 <= k < (left + right).len() implies #[trigger] (left + right)[k] > start by {
            if k < left.len() {
                assert((left + right)[k] == left[k]);
            } else {
                assert((left + right)[k] == right[k - left.len()]);
            }
        }
    }
}

/// The frames of one area that the stack takes lie above `start`.
proof fn lemma_area_frames_above(addr: int, end: int, start: int)
    requires
        0 <= addr,
        end <= u64::MAX,
    ensures
        forall|k: int|
            0 <= k < area_frames(addr, end, start).len() ==> #[trigger] area_frames(addr, end, start)[k]
                > start,
    decreases (if end > addr { end - addr } else { 0 }),
{
    if addr < end {
        lemma_area_frames_above(addr + 4096, end, start);
        let rest = area_frames(addr + 4096, end, start);
        if addr > start {
            let whole = seq![addr as u64] + rest;
            assert forall|k: int| 0 <= k < whole.len() implies #[trigger] whole[k] > start by {
                if k > 0 {
                    assert(whole[k] == rest[k - 1]);
                } else {
                    assert(whole[0] == addr as u64);
                }
            }
        }
    }
}

/// Every frame that goes on the stack, and every frame that becomes a P1
/// table, lies at least 512 frames behind the kernel: the frames that the
/// first P1 table maps for the stack are never handed out.
pub proof fn law_setup_frames_lie_behind_stack_region(areas: Seq<MemoryArea>, first_free: u32)
    ensures
        forall|k: int|
            0 <= k < eligible_frames(areas, first_free).len() ==> #[trigger] eligible_frames(areas, first_free)[k]
                >= first_free,
    decreases areas.len(),
{
    if areas.len() > 0 {
        law_setup_frames_lie_behind_stack_region(areas.drop_last(), first_free);
        let a = areas.last();
        lemma_area_numbers_at_least(area_low(a), area_high(a), first_free);
        let left = eligible_frames(areas.drop_last(), first_free);
        let right = area_numbers(area_low(a), area_high(a), first_free);
        assert forall|k: int| 0 <= k < (left + right).len() implies #[trigger] (left + right)[k] >= first_free by {
            if k < left.len() {
                assert((left + right)[k] == left[k]);
            } else {
                assert((left + right)[k] == right[k - left.len()]);
            }
        }
    }
}

/// The numbers that one area contributes are at least `first_free`.
proof fn lemma_area_numbers_at_least(lo: int, hi: int, first_free: u32)
    ensures
        forall|k: int|
            0 <= k < area_numbers(lo, hi, first_free).len() ==> #[trigger] area_numbers(lo, hi, first_free)[k]
                >= first_free,
    decreases (if hi > lo { hi - lo } else { 0 }),
{
    if hi > lo {
        lemma_area_numbers_at_least(lo, hi - 1, first_free);
        let left = area_numbers(lo, hi - 1, first_free);
        let right: Seq<u32> = if (hi - 1) as u32 >= first_free {
            seq![(hi - 1) as u32]
        } else {
            Seq::empty()
        };
        assert forall|k: int| 0 <= k < (left + right).len() implies #[trigger] (left + right)[k] >= first_free by {
            if k < left.len() {
                assert((left + right)[k] == left[k]);
            } else {
                assert((left + right)[k] == right[k - left.len()]);
            }
        }
    }
}

} // verus!
