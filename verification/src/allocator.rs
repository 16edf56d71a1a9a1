//! The kernel heap: a bump allocator that maps the pages it hands out on
//! demand and never frees memory.
use vstd::prelude::*;
use crate::frame_stack::FrameStack;
use crate::paging::{Page, VirtualAddress, PageIter};
use crate::page_table::{PageTableMemory, map_to_new_frame_spec};
use crate::frame::Frame;
use vstd::hash_map::HashMapWithView;

verus! {

/// The heap starts on the second page of the P4 table: its first page is
/// page number 8^9.
pub const FIRST_PAGE_NUMBER: u64 = 0o_001_000_000_000;

/// The bump allocator: the last page it mapped and the next byte it hands
/// out.
#[derive(Clone, Copy, Debug)]
pub struct Allocator {
    pub current_page: Page,
    pub next_byte: VirtualAddress,
}

/// Page-table memory and free frames after the `count` pages from number
/// `first` on were mapped one after the other; `None` when one of them
/// cannot be mapped.
pub open spec fn map_pages_spec(m: Map<u64, u64>, frames: Seq<Frame>, first: u64, count: nat) -> Option<
    (Map<u64, u64>, Seq<Frame>),
>
    decreases count,
{
    if count == 0 {
        Some((m, frames))
    } else {
        match map_to_new_frame_spec(m, frames, first) {
            None => None,
            Some((m1, f1)) => map_pages_spec(m1, f1, (first + 1) as u64, (count - 1) as nat),
        }
    }
}

/// The first address from `address` on that is a multiple of `align`; an
/// alignment of zero asks for nothing.
pub open spec fn align_up(address: u64, align: u64) -> int {
    if align > 0 && address % align != 0 {
        address + align - address % align
    } else {
        address as int
    }
}

/// Whether an allocation of `size` bytes with alignment `align` can be done:
/// its arithmetic stays within the address space, it ends on or after the
/// last mapped page, and every new page it reaches can be mapped.
pub open spec fn can_allocate(
    a: Allocator,
    size: u64,
    align: u64,
    m: Map<u64, u64>,
    frames: Seq<Frame>,
) -> bool {
    let addr = a.next_byte.0;
    &&& (align > 0 && addr % align != 0 ==> addr + align <= u64::MAX)
    &&& 1 <= addr + size <= u64::MAX
    &&& align_up(addr, align) + size <= u64::MAX
    &&& a.current_page.number <= (addr + size - 1) / 4096
    &&& map_pages_spec(
        m,
        frames,
        (a.current_page.number + 1) as u64,
        ((addr + size - 1) / 4096 - a.current_page.number) as nat,
    ) is Some
}

/// The bytes of the kernel heap, by address; a byte never written reads as
/// zero.
pub struct HeapMemory {
    bytes: HashMapWithView<u64, u8>,
}

impl View for HeapMemory {
    type V = Map<u64, u8>;

    closed spec fn view(&self) -> Map<u64, u8> {
        self.bytes@
    }
}

/// The byte at `address`; zero where nothing was written.
pub open spec fn read_byte(m: Map<u64, u8>, address: u64) -> u8 {
    if m.contains_key(address) {
        m[address]
    } else {
        0
    }
}

/// The heap after the `size` bytes from `start` on were set to zero.
pub open spec fn zero_bytes(m: Map<u64, u8>, start: int, size: int) -> Map<u64, u8> {
    Map::new(
        |a: u64| m.contains_key(a) || start <= a < start + size,
        |a: u64|
            if start <= a < start + size {
                0
            } else {
                m[a]
            },
    )
}

impl HeapMemory {
    /// A heap in which every byte reads as zero.
    pub fn new() -> (h: HeapMemory)
        ensures
            h@ == Map::<u64, u8>::empty(),
    {
        broadcast use vstd::std_specs::hash::group_hash_axioms;

        HeapMemory { bytes: HashMapWithView::new() }
    }

    /// The byte at `address`.
    pub fn read(&self, address: u64) -> (v: u8)
        ensures
            v == read_byte(self@, address),
    {
        match self.bytes.get(&address) {
            Some(v) => *v,
            None => 0,
        }
    }

    /// Stores `value` at `address`.
    pub fn write(&mut self, address: u64, value: u8)
        ensures
            final(self)@ == old(self)@.insert(address, value),
    {
        self.bytes.insert(address, value);
    }

    /// Sets the `size` bytes from `start` on to zero.
    pub fn zero(&mut self, start: u64, size: u64)
        requires
            start + size <= u64::MAX,
        ensures
            final(self)@ == zero_bytes(old(self)@, start as int, size as int),
    {
        let mut i: u64 = 0;
        assert(self@ =~= zero_bytes(old(self)@, start as int, 0));
        while i < size
            invariant
                i <= size,
                start + size <= u64::MAX,
                self@ == zero_bytes(old(self)@, start as int, i as int),
            decreases size - i,
        {
            self.write(start + i, 0);
            i = i + 1;
            assert(self@ =~= zero_bytes(old(self)@, start as int, i as int));
        }
    }
}

impl Allocator {
    /// Hands out `size` bytes aligned to `align` and maps the pages up to
    /// the last byte of `size` bytes from the old next byte. The next
    /// allocation starts `size` bytes after the old next byte: when
    /// alignment moved the start, the two may overlap. The bytes handed
    /// out are set to zero.
    pub fn allocate(
        &mut self,
        size: u64,
        align: u64,
        memory: &mut PageTableMemory,
        frames: &mut FrameStack,
        heap: &mut HeapMemory,
    ) -> (start: VirtualAddress)
        requires
            old(frames).wf(),
            can_allocate(*old(self), size, align, old(memory)@, old(frames)@),
        ensures
            final(frames).wf(),
            start.0 == align_up(old(self).next_byte.0, align),
            final(heap)@ == zero_bytes(old(heap)@, start.0 as int, size as int),
            final(self).next_byte.0 == old(self).next_byte.0 + size,
            final(self).current_page.number == (old(self).next_byte.0 + size - 1) / 4096,
            map_pages_spec(
                old(memory)@,
                old(frames)@,
                (old(self).current_page.number + 1) as u64,
                ((old(self).next_byte.0 + size - 1) / 4096 - old(self).current_page.number) as nat,
            ) == Some((final(memory)@, final(frames)@)),
    {
        let addr = self.next_byte.0;
        if align > 0 && addr % align != 0 {
            self.next_byte = VirtualAddress(addr + align - addr % align);
        }
        let end_page = VirtualAddress(addr + size - 1).page();
        let count = end_page.number - self.current_page.number;
        let mut pages: PageIter = self.current_page.next_pages();
        let ghost first = (self.current_page.number + 1) as u64;
        let ghost m0 = memory@;
        let ghost f0 = frames@;
        let mut j: u64 = 0;
        while j < count
            invariant
                j <= count,
                frames.wf(),
                first == self.current_page.number + 1,
                count == end_page.number - self.current_page.number,
                end_page.number == (addr + size - 1) / 4096,
                pages.0.number == self.current_page.number + j,
                map_pages_spec(m0, f0, first, count as nat) == map_pages_spec(
                    memory@,
                    frames@,
                    (first + j) as u64,
                    (count - j) as nat,
                ),
                map_pages_spec(m0, f0, first, count as nat) is Some,
            decreases count - j,
        {
            let page = pages.next();
            match page {
                Some(p) => {
                    p.map_to_new_frame(memory, frames);
                },
                None => {},
            }
            j = j + 1;
        }
        let start = self.next_byte;
        self.next_byte = VirtualAddress(addr + size);
        self.current_page = end_page;
        heap.zero(start.0, size);
        start
    }
}

/// The allocator that serves the next request: the one given, or the one
/// right after the heap is set up.
pub open spec fn current_allocator(allocator: Option<Allocator>) -> Allocator {
    if allocator is Some {
        allocator->Some_0
    } else {
        initial_allocator()
    }
}

/// Page tables and free frames when the next request is served: as they
/// are, or after the heap's first page was mapped.
pub open spec fn tables_before(allocator: Option<Allocator>, m: Map<u64, u64>, frames: Seq<Frame>) -> (
    Map<u64, u64>,
    Seq<Frame>,
) {
    if allocator is Some {
        (m, frames)
    } else {
        map_to_new_frame_spec(m, frames, FIRST_PAGE_NUMBER)->Some_0
    }
}

/// Whether `allocate` can serve the request: the heap's first page can be
/// mapped when the heap is not set up yet, and the allocator can serve it.
pub open spec fn can_allocate_from(
    allocator: Option<Allocator>,
    size: u64,
    align: u64,
    m: Map<u64, u64>,
    frames: Seq<Frame>,
) -> bool {
    &&& allocator is None ==> map_to_new_frame_spec(m, frames, FIRST_PAGE_NUMBER) is Some
    &&& can_allocate(
        current_allocator(allocator),
        size,
        align,
        tables_before(allocator, m, frames).0,
        tables_before(allocator, m, frames).1,
    )
}

/// What `allocate` did: it handed out `start`, the allocator moved on by
/// `size` bytes, the pages up to the last byte reached were mapped, and the
/// bytes handed out read zero.
pub open spec fn allocated(
    allocator: Option<Allocator>,
    size: u64,
    align: u64,
    m: Map<u64, u64>,
    frames: Seq<Frame>,
    heap: Map<u64, u8>,
    allocator2: Option<Allocator>,
    m2: Map<u64, u64>,
    frames2: Seq<Frame>,
    heap2: Map<u64, u8>,
    start: u64,
) -> bool {
    let a = current_allocator(allocator);
    let (m1, f1) = tables_before(allocator, m, frames);
    &&& allocator2 is Some
    &&& start == align_up(a.next_byte.0, align)
    &&& allocator2->Some_0.next_byte.0 == a.next_byte.0 + size
    &&& allocator2->Some_0.current_page.number == (a.next_byte.0 + size - 1) / 4096
    &&& map_pages_spec(
        m1,
        f1,
        (a.current_page.number + 1) as u64,
        ((a.next_byte.0 + size - 1) / 4096 - a.current_page.number) as nat,
    ) == Some((m2, frames2))
    &&& heap2 == zero_bytes(heap, start as int, size as int)
}

/// Hands out `size` bytes aligned to `align` from the kernel heap, set to
/// zero. On the first call the heap is set up: its first page is mapped
/// and allocation starts at that page's start.
pub fn allocate(
    allocator: &mut Option<Allocator>,
    size: u64,
    align: u64,
    memory: &mut PageTableMemory,
    frames: &mut FrameStack,
    heap: &mut HeapMemory,
) -> (start: VirtualAddress)
    requires
        old(frames).wf(),
        can_allocate_from(*old(allocator), size, align, old(memory)@, old(frames)@),
    ensures
        final(frames).wf(),
        allocated(
            *old(allocator),
            size,
            align,
            old(memory)@,
            old(frames)@,
            old(heap)@,
            *final(allocator),
            final(memory)@,
            final(frames)@,
            final(heap)@,
            start.0,
        ),
{
    if allocator.is_none() {
        let first = Page { number: FIRST_PAGE_NUMBER };
        first.map_to_new_frame(memory, frames);
        *allocator = Some(Allocator { next_byte: first.start_address(), current_page: first });
    }
    match allocator {
        Some(a) => a.allocate(size, align, memory, frames, heap),
        None => VirtualAddress(0),
    }
}

/// Size of the stack that a new thread runs on.
pub const NEW_STACK_SIZE: u64 = 8192;

/// The memory that the heap allocator works on: the allocator, once set
/// up, the page tables, the free frames, and the heap's bytes.
pub struct KernelMemory {
    pub allocator: Option<Allocator>,
    pub tables: PageTableMemory,
    pub frames: FrameStack,
    pub heap: HeapMemory,
}

/// Whether a new thread's stack can be allocated.
pub open spec fn can_allocate_stack(mem: KernelMemory) -> bool {
    &&& mem.frames.wf()
    &&& can_allocate_from(mem.allocator, NEW_STACK_SIZE, 4096, mem.tables@, mem.frames@)
}

/// The top of the next thread stack: the end of `NEW_STACK_SIZE` bytes
/// allocated with page alignment.
pub open spec fn new_stack_top(mem: KernelMemory) -> u64 {
    (align_up(current_allocator(mem.allocator).next_byte.0, 4096) + NEW_STACK_SIZE) as u64
}

/// Memory `after` is memory `before` once a thread stack was allocated
/// from the heap.
pub open spec fn stack_allocated(before: KernelMemory, after: KernelMemory) -> bool {
    &&& after.frames.wf()
    &&& allocated(
        before.allocator,
        NEW_STACK_SIZE,
        4096,
        before.tables@,
        before.frames@,
        before.heap@,
        after.allocator,
        after.tables@,
        after.frames@,
        after.heap@,
        (new_stack_top(before) - NEW_STACK_SIZE) as u64,
    )
}

/// Allocates a stack for a new thread, `NEW_STACK_SIZE` bytes on a page
/// boundary, and gives its top: stacks grow down.
pub fn new_stack(mem: &mut KernelMemory) -> (top: VirtualAddress)
    requires
        can_allocate_stack(*old(mem)),
    ensures
        top.0 == new_stack_top(*old(mem)),
        stack_allocated(*old(mem), *final(mem)),
{
    let bottom = allocate(
        &mut mem.allocator,
        NEW_STACK_SIZE,
        4096,
        &mut mem.tables,
        &mut mem.frames,
        &mut mem.heap,
    );
    VirtualAddress(bottom.0 + NEW_STACK_SIZE)
}

/// A new thread's stack ends on a page boundary, and every byte of it
/// reads zero.
pub proof fn law_new_stack_is_zeroed_and_aligned(before: KernelMemory, after: KernelMemory, address: u64)
    requires
        can_allocate_stack(before),
        stack_allocated(before, after),
        new_stack_top(before) - NEW_STACK_SIZE <= address < new_stack_top(before),
    ensures
        new_stack_top(before) % 4096 == 0,
        read_byte(after.heap@, address) == 0,
{
    law_align_up(current_allocator(before.allocator).next_byte.0, 4096);
}

/// The allocator right after the heap was set up.
pub open spec fn initial_allocator() -> Allocator {
    Allocator {
        current_page: Page { number: FIRST_PAGE_NUMBER },
        next_byte: VirtualAddress(0o_001_000_000_000_0000),
    }
}

/// An allocation starts at a multiple of its alignment, no earlier than the
/// allocator's next byte and less than one alignment after it.
pub proof fn law_align_up(address: u64, align: u64)
    requires
        align > 0,
    ensures
        align_up(address, align) % (align as int) == 0,
        address <= align_up(address, align) < address + align,
{
    let a = address as int;
    let b = align as int;
    vstd::arithmetic::div_mod::lemma_fundamental_div_mod(a, b);
    vstd::arithmetic::div_mod::lemma_mod_bound(a, b);
    if a % b != 0 {
        assert(a + b - a % b == b * (a / b + 1)) by (nonlinear_arith)
            requires
                a == b * (a / b) + a % b,
        ;
        vstd::arithmetic::div_mod::lemma_mod_multiples_basic(a / b + 1, b);
        assert((a / b + 1) * b == b * (a / b + 1)) by (nonlinear_arith);
    }
}

/// Requests whose alignment the next byte meets already are placed one
/// right after the other: the allocation starts at the next byte, and the
/// next byte moves to its end.
pub proof fn law_aligned_allocations_are_contiguous(address: u64, align: u64)
    requires
        align == 0 || address % align == 0,
    ensures
        align_up(address, align) == address,
{
}

/// The bytes that an allocation hands out read zero, and every other byte
/// keeps its value.
pub proof fn law_allocation_reads_zero(heap: Map<u64, u8>, start: u64, size: u64, address: u64)
    ensures
        start <= address < start + size ==> read_byte(zero_bytes(heap, start as int, size as int), address) == 0,
        !(start <= address < start + size) ==> read_byte(zero_bytes(heap, start as int, size as int), address)
            == read_byte(heap, address),
{
}

/// Freeing heap memory does nothing: the bump allocator never reuses it.
pub fn deallocate(_ptr: u64, _old_size: u64, _align: u64) {
}

} // verus!
