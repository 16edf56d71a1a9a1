//! Entries of the page tables, the memory that holds them, and the mapping
//! of a virtual page to a fresh physical frame.
//!
//! Page-table memory is modelled as a map from the address of an entry to
//! the entry's value; an address that was never written reads as zero.
use vstd::prelude::*;
use vstd::hash_map::HashMapWithView;
use crate::frame::Frame;
use crate::frame_stack::FrameStack;
use crate::paging::{
    Page,
    PageTablePage,
    PageTableField,
    start_address_of,
    field_address,
    table_index,
    table_page_number,
    lemma_start_address_bounds,
};

verus! {

/// Set in every entry that is in use.
pub const NOT_FREE: u64 = 0x800;

/// The entry maps a frame.
pub const PRESENT: u64 = 0x801;

/// The mapped memory may be written.
pub const WRITABLE: u64 = 0x802;

/// The mapped memory may be used from user mode.
pub const USER_ACCESSIBLE: u64 = 0x804;

/// Writes go through the cache to memory.
pub const WRITE_THROUGH: u64 = 0x808;

/// The mapped memory is not cached.
pub const NO_CACHE: u64 = 0x810;

/// Set by the processor when the entry is used.
pub const ACCESSED: u64 = 0x820;

/// Set by the processor when the mapped memory is written.
pub const DIRTY: u64 = 0x840;

/// Free for the kernel's own use.
pub const OTHER1: u64 = 0xA00;

/// Free for the kernel's own use.
pub const OTHER2: u64 = 0xC00;

/// Instructions may not be fetched from the mapped memory.
pub const NO_EXECUTE: u64 = 0x8000_0000_0000_0800;

/// Every bit that some flag uses.
pub const ALL_FLAGS: u64 = 0x8000_0000_0000_0E7F;

/// The bits of an entry that hold the address of the mapped frame.
pub const FRAME_ADDRESS_MASK: u64 = 0x000f_ffff_ffff_f000;

/// A set of entry flags, given by its bits.
#[derive(Clone, Copy, Debug)]
pub struct PageTableFieldFlags {
    pub bits: u64,
}

impl PageTableFieldFlags {
    /// The flags among `bits`; bits that no flag uses are dropped.
    pub fn from_bits_truncate(bits: u64) -> (f: PageTableFieldFlags)
        ensures
            f.bits == bits & ALL_FLAGS,
    {
        PageTableFieldFlags { bits: bits & ALL_FLAGS }
    }

    /// The raw bits of the set.
    pub fn bits(&self) -> (b: u64)
        ensures
            b == self.bits,
    {
        self.bits
    }

    /// Whether every flag of `other` is in this set.
    pub fn contains(&self, other: PageTableFieldFlags) -> (r: bool)
        ensures
            r == (self.bits & other.bits == other.bits),
    {
        (self.bits & other.bits) == other.bits
    }

    /// The flags of both sets.
    pub fn union(self, other: PageTableFieldFlags) -> (f: PageTableFieldFlags)
        ensures
            f.bits == self.bits | other.bits,
    {
        PageTableFieldFlags { bits: self.bits | other.bits }
    }
}

/// The value of the entry at `address`; zero where nothing was written.
pub open spec fn read_entry(m: Map<u64, u64>, address: u64) -> u64 {
    if m.contains_key(address) {
        m[address]
    } else {
        0
    }
}

/// An entry is free when its `NOT_FREE` bit is clear.
pub open spec fn entry_is_free(value: u64) -> bool {
    value & NOT_FREE == 0
}

/// The entry that maps `frame` with the given flag bits.
pub open spec fn entry_for(frame: Frame, flag_bits: u64) -> u64 {
    ((frame.number as int * 4096) as u64) | flag_bits
}

/// The frame that an entry maps: bits 12 and up of its frame address, kept
/// to the 32 bits of a frame number.
pub open spec fn frame_of_entry(value: u64) -> u32 {
    ((value as int / 4096) % 0x1_0000_0000) as u32
}

/// Whether `address` is one of the words that zeroing `count` words from
/// `start` clears.
pub open spec fn in_zeroed_words(start: u64, count: int, address: u64) -> bool {
    start <= address < start + 8 * count && (address - start) % 8 == 0
}

/// The memory after the first `count` eight-byte words from `start` were set
/// to zero.
pub open spec fn zero_words(m: Map<u64, u64>, start: u64, count: int) -> Map<u64, u64> {
    Map::new(
        |a: u64| m.contains_key(a) || in_zeroed_words(start, count, a),
        |a: u64|
            if in_zeroed_words(start, count, a) {
                0
            } else {
                m[a]
            },
    )
}

/// Number of words that zeroing a page clears: the first 512 bytes of the
/// page, as 64 words.
pub const ZEROED_WORDS: u64 = 64;

/// The memory after the page `number` was zeroed.
pub open spec fn zero_page(m: Map<u64, u64>, number: u64) -> Map<u64, u64> {
    zero_words(m, start_address_of(number) as u64, ZEROED_WORDS as int)
}

/// The address of the entry for page `number` in its table of the given
/// level.
pub open spec fn field_of(number: u64, level: nat) -> u64 {
    field_address(table_page_number(number, level) as u64, table_index(number, level)) as u64
}

/// One level of the walk: when the entry at `field` is free, it gets the
/// frame on top of the stack, writable, and the table page `table` that it
/// now maps is zeroed. `None` when a frame is needed and none is left.
pub open spec fn walk_step(m: Map<u64, u64>, frames: Seq<Frame>, field: u64, table: u64) -> Option<
    (Map<u64, u64>, Seq<Frame>),
> {
    if entry_is_free(read_entry(m, field)) {
        if frames.len() == 0 {
            None
        } else {
            Some(
                (
                    zero_page(m.insert(field, entry_for(frames.last(), PRESENT | WRITABLE)), table),
                    frames.drop_last(),
                ),
            )
        }
    } else {
        Some((m, frames))
    }
}

/// Page-table memory and free frames after page `number` was mapped to a
/// fresh frame: the P4, P3 and P2 entries on the way get a frame and a
/// zeroed table where they were free, then the P1 entry, which must be free,
/// gets the next frame. `None` where the mapping cannot be done: a frame is
/// needed and none is left, or the P1 entry is in use.
#[verifier::opaque]
pub open spec fn map_to_new_frame_spec(m: Map<u64, u64>, frames: Seq<Frame>, number: u64) -> Option<
    (Map<u64, u64>, Seq<Frame>),
> {
    match walk_step(m, frames, field_of(number, 4), table_page_number(number, 3) as u64) {
        None => None,
        Some((m3, f3)) => match walk_step(
            m3,
            f3,
            field_of(number, 3),
            table_page_number(number, 2) as u64,
        ) {
            None => None,
            Some((m2, f2)) => match walk_step(
                m2,
                f2,
                field_of(number, 2),
                table_page_number(number, 1) as u64,
            ) {
                None => None,
                Some((m1, f1)) => if entry_is_free(read_entry(m1, field_of(number, 1))) && f1.len()
                    > 0 {
                    Some((m1.insert(field_of(number, 1), entry_for(f1.last(), PRESENT | WRITABLE)), f1.drop_last()))
                } else {
                    None
                },
            },
        },
    }
}

/// The memory that holds the page tables.
pub struct PageTableMemory {
    entries: HashMapWithView<u64, u64>,
}

impl View for PageTableMemory {
    type V = Map<u64, u64>;

    closed spec fn view(&self) -> Map<u64, u64> {
        self.entries@
    }
}

impl PageTableMemory {
    /// Memory in which every entry reads as zero.
    pub fn new() -> (m: PageTableMemory)
        ensures
            m@ == Map::<u64, u64>::empty(),
    {
        broadcast use vstd::std_specs::hash::group_hash_axioms;

        PageTableMemory { entries: HashMapWithView::new() }
    }

    /// The value at `address`.
    pub fn read(&self, address: u64) -> (v: u64)
        ensures
            v == read_entry(self@, address),
    {
        match self.entries.get(&address) {
            Some(v) => *v,
            None => 0,
        }
    }

    /// Stores `value` at `address`.
    pub fn write(&mut self, address: u64, value: u64)
        ensures
            final(self)@ == old(self)@.insert(address, value),
    {
        self.entries.insert(address, value);
    }
}

impl PageTableField {
    /// Whether the entry holds every flag of `flags`.
    pub fn is(&self, memory: &PageTableMemory, flags: PageTableFieldFlags) -> (r: bool)
        ensures
            r == (read_entry(memory@, self.0) & ALL_FLAGS & flags.bits == flags.bits),
    {
        PageTableFieldFlags::from_bits_truncate(memory.read(self.0)).contains(flags)
    }

    /// Sets the given flags in the entry.
    pub fn add_flag(&self, memory: &mut PageTableMemory, flags: PageTableFieldFlags)
        ensures
            final(memory)@ == old(memory)@.insert(
                self.0,
                read_entry(old(memory)@, self.0) | flags.bits,
            ),
    {
        let v = memory.read(self.0);
        memory.write(self.0, v | flags.bits);
    }

    /// Clears the given flags in the entry.
    pub fn remove_flag(&self, memory: &mut PageTableMemory, flags: PageTableFieldFlags)
        ensures
            final(memory)@ == old(memory)@.insert(
                self.0,
                read_entry(old(memory)@, self.0) & !flags.bits,
            ),
    {
        let v = memory.read(self.0);
        memory.write(self.0, v & !flags.bits);
    }

    /// Whether the entry is free, that is without its `NOT_FREE` bit.
    pub fn is_free(&self, memory: &PageTableMemory) -> (r: bool)
        ensures
            r == entry_is_free(read_entry(memory@, self.0)),
    {
        let ghost v = read_entry(memory@, self.0);
        assert((v & 0x8000_0000_0000_0E7Fu64 & 0x800u64 == 0x800u64) == !(v & 0x800u64 == 0))
            by (bit_vector);
        !self.is(memory, PageTableFieldFlags { bits: NOT_FREE })
    }

    /// The frame that the entry maps.
    pub fn pointed_frame(&self, memory: &PageTableMemory) -> (f: Frame)
        ensures
            f.number == frame_of_entry(read_entry(memory@, self.0)),
    {
        let v = memory.read(self.0);
        assert(((v & 0x000f_ffff_ffff_f000u64) >> 12u64) as u32 == ((v / 4096) % 0x1_0000_0000)
            as u32) by (bit_vector);
        Frame { number: ((v & FRAME_ADDRESS_MASK) >> 12) as u32 }
    }

    /// Makes the entry map `frame` with the given flags.
    pub fn set(&self, memory: &mut PageTableMemory, frame: Frame, flags: PageTableFieldFlags)
        ensures
            final(memory)@ == old(memory)@.insert(self.0, entry_for(frame, flags.bits)),
    {
        let n = frame.number as u64;
        assert((n << 12u64) & 0x000f_ffff_ffff_f000u64 == ((n * 4096) as u64)) by (bit_vector)
            requires
                n < 0x1_0000_0000,
        ;
        memory.write(self.0, ((frame.number as u64) << 12) & FRAME_ADDRESS_MASK | flags.bits());
    }
}

impl Page {
    /// Zeroes the first 512 bytes of the page, as 64 words.
    pub fn zero(&self, memory: &mut PageTableMemory)
        ensures
            final(memory)@ == zero_page(old(memory)@, self.number),
    {
        proof {
            lemma_start_address_bounds(self.number);
        }
        let start = self.start_address().0;
        let ghost m0 = memory@;
        let mut i: u64 = 0;
        while i < ZEROED_WORDS
            invariant
                i <= ZEROED_WORDS,
                start == start_address_of(self.number),
                start <= 0xFFFF_FFFF_FFFF_F000,
                memory@ == zero_words(m0, start, i as int),
            decreases ZEROED_WORDS - i,
        {
            memory.write(start + i * 8, 0);
            assert(memory@ =~= zero_words(m0, start, i as int + 1));
            i = i + 1;
        }
    }
}

impl PageTablePage {
    /// Zeroes the start of the table, as `Page::zero` does.
    pub fn zero(&self, memory: &mut PageTableMemory)
        ensures
            final(memory)@ == zero_page(old(memory)@, self.0.number),
    {
        self.0.zero(memory)
    }
}

/// One level of the walk in `Page::map_to_new_frame`.
fn ensure_table(
    memory: &mut PageTableMemory,
    frames: &mut FrameStack,
    field: PageTableField,
    table: PageTablePage,
)
    requires
        old(frames).wf(),
        walk_step(old(memory)@, old(frames)@, field.0, table.0.number) is Some,
    ensures
        final(frames).wf(),
        walk_step(old(memory)@, old(frames)@, field.0, table.0.number) == Some(
            (final(memory)@, final(frames)@),
        ),
{
    if field.is_free(memory) {
        let frame = frames.pop();
        match frame {
            Some(f) => {
                field.set(memory, f, PageTableFieldFlags { bits: PRESENT | WRITABLE });
                table.zero(memory);
            },
            None => {},
        }
    }
}

impl Page {
    /// Maps this page to a fresh frame from `frames`, making the P4, P3 and
    /// P2 entries on the way present, with a zeroed table, where they were
    /// free. The P1 entry must be free.
    pub fn map_to_new_frame(&self, memory: &mut PageTableMemory, frames: &mut FrameStack)
        requires
            old(frames).wf(),
            map_to_new_frame_spec(old(memory)@, old(frames)@, self.number) is Some,
        ensures
            final(frames).wf(),
            map_to_new_frame_spec(old(memory)@, old(frames)@, self.number) == Some(
                (final(memory)@, final(frames)@),
            ),
    {
        reveal(map_to_new_frame_spec);
        let ghost n = self.number;
        let i4 = self.p4_index();
        let p4_page = self.p4_page();
        proof {
            lemma_start_address_bounds(p4_page.0.number);
        }
        let p4_field = p4_page.field(i4);
        ensure_table(memory, frames, p4_field, self.p3_page());
        let i3 = self.p3_index();
        let p3_page = self.p3_page();
        proof {
            lemma_start_address_bounds(p3_page.0.number);
        }
        let p3_field = p3_page.field(i3);
        ensure_table(memory, frames, p3_field, self.p2_page());
        let i2 = self.p2_index();
        let p2_page = self.p2_page();
        proof {
            lemma_start_address_bounds(p2_page.0.number);
        }
        let p2_field = p2_page.field(i2);
        ensure_table(memory, frames, p2_field, self.p1_page());
        let i1 = self.p1_index();
        let p1_page = self.p1_page();
        proof {
            lemma_start_address_bounds(p1_page.0.number);
        }
        let p1_field = p1_page.field(i1);
        let frame = frames.pop();
        match frame {
            Some(f) => p1_field.set(memory, f, PageTableFieldFlags { bits: PRESENT | WRITABLE }),
            None => {},
        }
    }
}

/// An entry written by `set` maps the frame it was given, and is free
/// exactly when the flags given lack `NOT_FREE`, as long as the flags do not
/// reach into the frame address.
pub proof fn law_set_then_pointed_frame(frame: Frame, flag_bits: u64)
    requires
        flag_bits & FRAME_ADDRESS_MASK == 0,
    ensures
        frame_of_entry(entry_for(frame, flag_bits)) == frame.number,
        entry_is_free(entry_for(frame, flag_bits)) == (flag_bits & NOT_FREE == 0),
{
    let n = frame.number as u64;
    let e = entry_for(frame, flag_bits);
    assert(e == ((n * 4096) as u64) | flag_bits);
    assert((((((n * 4096) as u64) | flag_bits) / 4096) % 0x1_0000_0000) as u32 == n as u32 && ((((
    n * 4096) as u64) | flag_bits) & 0x800 == 0) == (flag_bits & 0x800 == 0)) by (bit_vector)
        requires
            n < 0x1_0000_0000,
            flag_bits & 0x000f_ffff_ffff_f000 == 0,
    ;
}

/// After `add_flag` the entry holds the added flags; after `remove_flag` it
/// holds none of the removed ones.
pub proof fn law_add_then_remove_flag(value: u64, flag_bits: u64)
    ensures
        (value | flag_bits) & flag_bits == flag_bits,
        (value & !flag_bits) & flag_bits == 0,
{
    assert((value | flag_bits) & flag_bits == flag_bits) by (bit_vector);
    assert((value & !flag_bits) & flag_bits == 0) by (bit_vector);
}

/// Mapping a page takes between one and four frames off the top of the
/// stack, and leaves the page's P1 entry in use and mapping the last frame
/// taken.
pub proof fn law_map_to_new_frame_result(m: Map<u64, u64>, frames: Seq<Frame>, number: u64)
    requires
        map_to_new_frame_spec(m, frames, number) is Some,
    ensures
        ({
            let (m2, f2) = map_to_new_frame_spec(m, frames, number)->Some_0;
            &&& f2.len() < frames.len() <= f2.len() + 4
            &&& f2 == frames.subrange(0, f2.len() as int)
            &&& !entry_is_free(read_entry(m2, field_of(number, 1)))
            &&& frame_of_entry(read_entry(m2, field_of(number, 1))) == frames[f2.len() as int].number
        }),
{
    reveal(map_to_new_frame_spec);
    assert(PRESENT | WRITABLE == 0x803u64) by (bit_vector);
    assert(0x803u64 & 0x000f_ffff_ffff_f000u64 == 0) by (bit_vector);
    assert(0x803u64 & 0x800u64 != 0) by (bit_vector);
    let (m3, f3) = walk_step(m, frames, field_of(number, 4), table_page_number(number, 3) as u64)->Some_0;
    let (m2, f2) = walk_step(m3, f3, field_of(number, 3), table_page_number(number, 2) as u64)->Some_0;
    let (m1, f1) = walk_step(m2, f2, field_of(number, 2), table_page_number(number, 1) as u64)->Some_0;
    assert(f3 == frames.subrange(0, f3.len() as int));
    assert(f2 == frames.subrange(0, f2.len() as int));
    assert(f1 == frames.subrange(0, f1.len() as int));
    let last = f1.last();
    law_set_then_pointed_frame(last, 0x803u64);
    assert(frames.subrange(0, f1.len() - 1) =~= f1.drop_last());
}

/// An entry written with `PRESENT | WRITABLE` holds both flags.
proof fn lemma_entry_flags(frame: Frame)
    ensures
        entry_for(frame, PRESENT | WRITABLE) & (PRESENT | WRITABLE) == (PRESENT | WRITABLE),
        0u64 & NOT_FREE == 0,
{
    let x = (frame.number as int * 4096) as u64;
    assert((x | 0x803u64) & 0x803u64 == 0x803u64) by (bit_vector);
    assert(PRESENT | WRITABLE == 0x803u64) by (bit_vector);
    assert(0u64 & 0x800u64 == 0) by (bit_vector);
}

/// For a page outside the region where the page tables show themselves,
/// its four tables are distinct pages, one below the other, in the upper
/// half: the P1 table page below the P2 one, below the P3 one, below the
/// P4 one; and each entry of the walk lies within its table's page.
proof fn lemma_walk_tables_apart(n: u64)
    requires
        (n as int / 134217728) % 512 != 511,
    ensures
        forall|l: nat|
            1 <= l <= 4 ==> {
                &&& 0o777_000_000_000 <= #[trigger] table_page_number(n, l) <= 0o777_777_777_777
                &&& start_address_of(table_page_number(n, l) as u64) == table_page_number(n, l) * 4096
                    + 0o177777_000_000_000_000_0000
                &&& field_of(n, l) == start_address_of(table_page_number(n, l) as u64) + table_index(n, l) * 8
                &&& 0 <= table_index(n, l) < 512
            },
        table_page_number(n, 1) < table_page_number(n, 2),
        table_page_number(n, 2) < table_page_number(n, 3),
        table_page_number(n, 3) < table_page_number(n, 4),
{
    let a = n / 134217728 % 512;
    let b = n / 262144 % 262144;
    let c = n / 512 % 134217728;
    assert(a == (n >> 27) & 0x1ff && b == (n >> 18) & 0x3ffff && c == (n >> 9) & 0x7ffffff) by (bit_vector)
        requires
            a == n / 134217728 % 512,
            b == n / 262144 % 262144,
            c == n / 512 % 134217728,
    ;
    assert(((n >> 27) & 0x1ff) != 0x1ff ==> ((n >> 18) & 0x3ffff) < 0x3fe00 && ((n >> 9) & 0x7ffffff)
        < 0x7fc0000) by (bit_vector);
    assert forall|l: nat| 1 <= l <= 4 implies {
        &&& 0o777_000_000_000 <= #[trigger] table_page_number(n, l) <= 0o777_777_777_777
        &&& start_address_of(table_page_number(n, l) as u64) == table_page_number(n, l) * 4096
            + 0o177777_000_000_000_000_0000
        &&& field_of(n, l) == start_address_of(table_page_number(n, l) as u64) + table_index(n, l) * 8
        &&& 0 <= table_index(n, l) < 512
    } by {
        let t = table_page_number(n, l);
        assert(0o777_000_000_000 <= t <= 0o777_777_777_777);
        let tu = t as u64;
        assert(tu * 4096 < 0x1_0000_0000_0000) by (nonlinear_arith)
            requires
                tu <= 0o777_777_777_777,
        ;
        assert((tu * 4096) % 0x1_0000_0000_0000 == tu * 4096) by (nonlinear_arith)
            requires
                0 <= tu * 4096 < 0x1_0000_0000_0000,
        ;
    }
}

/// Walking a page's tables leaves every entry outside the zeroed part of
/// the next table as it was, but the entry it examines; that entry, when
/// free, gets a frame, present and writable. A free entry stays free.
proof fn lemma_walk_step_effect(m: Map<u64, u64>, frames: Seq<Frame>, field: u64, table: u64, x: u64)
    requires
        walk_step(m, frames, field, table) is Some,
        !in_zeroed_words(start_address_of(table) as u64, ZEROED_WORDS as int, x),
    ensures
        ({
            let m2 = walk_step(m, frames, field, table)->Some_0.0;
            &&& x != field ==> read_entry(m2, x) == read_entry(m, x)
            &&& x == field && entry_is_free(read_entry(m, field)) ==> read_entry(m2, x) & (PRESENT
                | WRITABLE) == (PRESENT | WRITABLE) && read_entry(m2, x) == entry_for(
                frames.last(),
                PRESENT | WRITABLE,
            )
            &&& x == field && !entry_is_free(read_entry(m, field)) ==> read_entry(m2, x) == read_entry(m, x)
        }),
{
    if entry_is_free(read_entry(m, field)) {
        lemma_entry_flags(frames.last());
    }
}

/// A walk step keeps a free entry free: it either writes no entry but the
/// one it examines, or zeroes words, which leaves them free.
proof fn lemma_walk_step_keeps_free(m: Map<u64, u64>, frames: Seq<Frame>, field: u64, table: u64, x: u64)
    requires
        walk_step(m, frames, field, table) is Some,
        x != field,
        entry_is_free(read_entry(m, x)),
    ensures
        entry_is_free(read_entry(walk_step(m, frames, field, table)->Some_0.0, x)),
{
    lemma_entry_flags(Frame { number: 0 });
}

/// A walk step that gives a free entry a frame zeroes the first words of
/// the new table's page.
proof fn lemma_walk_step_zeroes(m: Map<u64, u64>, frames: Seq<Frame>, field: u64, table: u64, x: u64)
    requires
        walk_step(m, frames, field, table) is Some,
        entry_is_free(read_entry(m, field)),
        in_zeroed_words(start_address_of(table) as u64, ZEROED_WORDS as int, x),
    ensures
        read_entry(walk_step(m, frames, field, table)->Some_0.0, x) == 0,
{
}

/// Mapping a page outside the region where the page tables show themselves
/// makes the table below each P4, P3 or P2 entry that was free a fresh one:
/// the first 512 bytes of its page, which zeroing a page clears, read zero
/// afterwards, but the entry that the walk sets in it.
pub proof fn law_map_to_new_frame_zeroes_new_tables(m: Map<u64, u64>, frames: Seq<Frame>, number: u64, x: u64)
    requires
        map_to_new_frame_spec(m, frames, number) is Some,
        (number as int / 134217728) % 512 != 511,
    ensures
        entry_is_free(read_entry(m, field_of(number, 4))) && x != field_of(number, 3) && in_zeroed_words(
            start_address_of(table_page_number(number, 3) as u64) as u64,
            ZEROED_WORDS as int,
            x,
        ) ==> read_entry(map_to_new_frame_spec(m, frames, number)->Some_0.0, x) == 0,
        entry_is_free(read_entry(m, field_of(number, 3))) && x != field_of(number, 2) && in_zeroed_words(
            start_address_of(table_page_number(number, 2) as u64) as u64,
            ZEROED_WORDS as int,
            x,
        ) ==> read_entry(map_to_new_frame_spec(m, frames, number)->Some_0.0, x) == 0,
        entry_is_free(read_entry(m, field_of(number, 2))) && x != field_of(number, 1) && in_zeroed_words(
            start_address_of(table_page_number(number, 1) as u64) as u64,
            ZEROED_WORDS as int,
            x,
        ) ==> read_entry(map_to_new_frame_spec(m, frames, number)->Some_0.0, x) == 0,
{
    reveal(map_to_new_frame_spec);
    lemma_walk_tables_apart(number);
    let f4 = field_of(number, 4);
    let f3 = field_of(number, 3);
    let f2 = field_of(number, 2);
    let f1 = field_of(number, 1);
    let t3 = table_page_number(number, 3) as u64;
    let t2 = table_page_number(number, 2) as u64;
    let t1 = table_page_number(number, 1) as u64;
    assert(0o777_000_000_000 <= table_page_number(number, 4));
    assert(0o777_000_000_000 <= table_page_number(number, 3));
    assert(0o777_000_000_000 <= table_page_number(number, 2));
    assert(0o777_000_000_000 <= table_page_number(number, 1));
    let (m3, fr3) = walk_step(m, frames, f4, t3)->Some_0;
    let (m2, fr2) = walk_step(m3, fr3, f3, t2)->Some_0;
    let (m1, fr1) = walk_step(m2, fr2, f2, t1)->Some_0;
    let last = m1.insert(f1, entry_for(fr1.last(), PRESENT | WRITABLE));
    assert(map_to_new_frame_spec(m, frames, number)->Some_0.0 == last);
    lemma_entry_flags(frames.last());
    if entry_is_free(read_entry(m, f4)) && in_zeroed_words(start_address_of(t3 as u64) as u64, 64, x) && x
        != f3 {
        lemma_walk_step_zeroes(m, frames, f4, t3, x);
        lemma_walk_step_effect(m3, fr3, f3, t2, x);
        lemma_walk_step_effect(m2, fr2, f2, t1, x);
    }
    if entry_is_free(read_entry(m, f3)) && in_zeroed_words(start_address_of(t2 as u64) as u64, 64, x) && x
        != f2 {
        lemma_walk_step_keeps_free(m, frames, f4, t3, f3);
        lemma_walk_step_zeroes(m3, fr3, f3, t2, x);
        lemma_walk_step_effect(m2, fr2, f2, t1, x);
    }
    if entry_is_free(read_entry(m, f2)) && in_zeroed_words(start_address_of(t1 as u64) as u64, 64, x) && x
        != f1 {
        lemma_walk_step_keeps_free(m, frames, f4, t3, f2);
        lemma_walk_step_keeps_free(m3, fr3, f3, t2, f2);
        lemma_walk_step_zeroes(m2, fr2, f2, t1, x);
    }
}

/// Mapping a page outside the region where the page tables show themselves
/// leaves each of its P4, P3 and P2 entries that was free present and
/// writable, so that the page's memory can be written through them, and its
/// P1 entry present and writable too.
pub proof fn law_map_to_new_frame_tables_are_writable(m: Map<u64, u64>, frames: Seq<Frame>, number: u64)
    requires
        map_to_new_frame_spec(m, frames, number) is Some,
        (number as int / 134217728) % 512 != 511,
    ensures
        forall|l: nat|
            2 <= l <= 4 && entry_is_free(read_entry(m, field_of(number, l))) ==> read_entry(
                map_to_new_frame_spec(m, frames, number)->Some_0.0,
                #[trigger] field_of(number, l),
            ) & (PRESENT | WRITABLE) == (PRESENT | WRITABLE),
        read_entry(map_to_new_frame_spec(m, frames, number)->Some_0.0, field_of(number, 1)) & (PRESENT
            | WRITABLE) == (PRESENT | WRITABLE),
        forall|l: nat|
            2 <= l <= 4 && entry_is_free(read_entry(m, field_of(number, l))) ==> exists|j: int|
                map_to_new_frame_spec(m, frames, number)->Some_0.1.len() <= j < frames.len()
                    && #[trigger] frame_of_entry(
                    read_entry(map_to_new_frame_spec(m, frames, number)->Some_0.0, field_of(number, l)),
                ) == frames[j].number,
{
    reveal(map_to_new_frame_spec);
    lemma_walk_tables_apart(number);
    let f4 = field_of(number, 4);
    let f3 = field_of(number, 3);
    let f2 = field_of(number, 2);
    let f1 = field_of(number, 1);
    let t3 = table_page_number(number, 3) as u64;
    let t2 = table_page_number(number, 2) as u64;
    let t1 = table_page_number(number, 1) as u64;
    assert(0o777_000_000_000 <= table_page_number(number, 4));
    assert(0o777_000_000_000 <= table_page_number(number, 3));
    assert(0o777_000_000_000 <= table_page_number(number, 2));
    assert(0o777_000_000_000 <= table_page_number(number, 1));
    let (m3, fr3) = walk_step(m, frames, f4, t3)->Some_0;
    let (m2, fr2) = walk_step(m3, fr3, f3, t2)->Some_0;
    let (m1, fr1) = walk_step(m2, fr2, f2, t1)->Some_0;
    let last = m1.insert(f1, entry_for(fr1.last(), PRESENT | WRITABLE));
    assert(map_to_new_frame_spec(m, frames, number)->Some_0.0 == last);
    lemma_entry_flags(fr1.last());
    // The entries lie in pages above the ones zeroed after them.
    lemma_walk_step_effect(m, frames, f4, t3, f4);
    lemma_walk_step_effect(m3, fr3, f3, t2, f4);
    lemma_walk_step_effect(m2, fr2, f2, t1, f4);
    lemma_walk_step_effect(m3, fr3, f3, t2, f3);
    lemma_walk_step_effect(m2, fr2, f2, t1, f3);
    lemma_walk_step_effect(m2, fr2, f2, t1, f2);
    if entry_is_free(read_entry(m, f3)) {
        lemma_walk_step_keeps_free(m, frames, f4, t3, f3);
    }
    if entry_is_free(read_entry(m, f2)) {
        lemma_walk_step_keeps_free(m, frames, f4, t3, f2);
        lemma_walk_step_keeps_free(m3, fr3, f3, t2, f2);
    }
    // The frames of the new entries come off the top of the stack.
    assert(PRESENT | WRITABLE == 0x803u64) by (bit_vector);
    assert(0x803u64 & FRAME_ADDRESS_MASK == 0) by (bit_vector);
    let fin = fr1.drop_last();
    assert(fr3.len() <= frames.len() && fr2.len() <= fr3.len() && fr1.len() <= fr2.len());
    assert(fr3 =~= frames.subrange(0, fr3.len() as int));
    assert(fr2 =~= fr3.subrange(0, fr2.len() as int));
    assert(fr1 =~= fr2.subrange(0, fr1.len() as int));
    if entry_is_free(read_entry(m, f4)) {
        law_set_then_pointed_frame(frames.last(), 0x803u64);
        let j = frames.len() - 1;
        assert(frame_of_entry(read_entry(last, f4)) == frames[j].number);
        assert(fin.len() <= j < frames.len());
    }
    if entry_is_free(read_entry(m, f3)) {
        law_set_then_pointed_frame(fr3.last(), 0x803u64);
        let j = fr3.len() - 1;
        assert(fr3.last() == frames[j]);
        assert(frame_of_entry(read_entry(last, f3)) == frames[j].number);
        assert(fin.len() <= j < frames.len());
    }
    if entry_is_free(read_entry(m, f2)) {
        law_set_then_pointed_frame(fr2.last(), 0x803u64);
        let j = fr2.len() - 1;
        assert(fr2.last() == frames[j]);
        assert(frame_of_entry(read_entry(last, f2)) == frames[j].number);
        assert(fin.len() <= j < frames.len());
    }
    assert forall|l: nat|
        2 <= l <= 4 && entry_is_free(read_entry(m, field_of(number, l))) implies exists|j: int|
            map_to_new_frame_spec(m, frames, number)->Some_0.1.len() <= j < frames.len()
                && #[trigger] frame_of_entry(
                read_entry(map_to_new_frame_spec(m, frames, number)->Some_0.0, field_of(number, l)),
            ) == frames[j].number by {
        if l == 4 {
            let j = frames.len() - 1;
            assert(frame_of_entry(read_entry(last, f4)) == frames[j].number);
        } else if l == 3 {
            let j = fr3.len() - 1;
            assert(frame_of_entry(read_entry(last, f3)) == frames[j].number);
        } else {
            let j = fr2.len() - 1;
            assert(frame_of_entry(read_entry(last, f2)) == frames[j].number);
        }
    }
}

/// Mapping a page outside the region where the page tables show themselves
/// keeps the tables that were there: a P4 entry in use stays as it was, and
/// so does a P3 or P2 entry in use below entries in use.
pub proof fn law_map_to_new_frame_keeps_tables_in_use(m: Map<u64, u64>, frames: Seq<Frame>, number: u64)
    requires
        map_to_new_frame_spec(m, frames, number) is Some,
        (number as int / 134217728) % 512 != 511,
    ensures
        ({
            let m2 = map_to_new_frame_spec(m, frames, number)->Some_0.0;
            let used4 = !entry_is_free(read_entry(m, field_of(number, 4)));
            let used3 = used4 && !entry_is_free(read_entry(m, field_of(number, 3)));
            let used2 = used3 && !entry_is_free(read_entry(m, field_of(number, 2)));
            &&& used4 ==> read_entry(m2, field_of(number, 4)) == read_entry(m, field_of(number, 4))
            &&& used3 ==> read_entry(m2, field_of(number, 3)) == read_entry(m, field_of(number, 3))
            &&& used2 ==> read_entry(m2, field_of(number, 2)) == read_entry(m, field_of(number, 2))
        }),
{
    reveal(map_to_new_frame_spec);
    lemma_walk_tables_apart(number);
    let f4 = field_of(number, 4);
    let f3 = field_of(number, 3);
    let f2 = field_of(number, 2);
    let f1 = field_of(number, 1);
    let t3 = table_page_number(number, 3) as u64;
    let t2 = table_page_number(number, 2) as u64;
    let t1 = table_page_number(number, 1) as u64;
    assert(0o777_000_000_000 <= table_page_number(number, 4));
    assert(0o777_000_000_000 <= table_page_number(number, 3));
    assert(0o777_000_000_000 <= table_page_number(number, 2));
    assert(0o777_000_000_000 <= table_page_number(number, 1));
    let (m3, fr3) = walk_step(m, frames, f4, t3)->Some_0;
    let (m2, fr2) = walk_step(m3, fr3, f3, t2)->Some_0;
    let (m1, fr1) = walk_step(m2, fr2, f2, t1)->Some_0;
    lemma_walk_step_effect(m, frames, f4, t3, f4);
    lemma_walk_step_effect(m3, fr3, f3, t2, f4);
    lemma_walk_step_effect(m2, fr2, f2, t1, f4);
    lemma_walk_step_effect(m3, fr3, f3, t2, f3);
    lemma_walk_step_effect(m2, fr2, f2, t1, f3);
    lemma_walk_step_effect(m2, fr2, f2, t1, f2);
}

} // verus!
