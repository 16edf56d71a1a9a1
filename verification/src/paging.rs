//! Virtual pages of the four-level x86_64 page table and the recursive
//! mapping through which the kernel reaches its own page tables.
//!
//! The last entry of the top-level (P4) table points to the P4 table itself,
//! so every table of the hierarchy appears at a fixed virtual page.
use vstd::prelude::*;

verus! {

/// Size of a page in bytes.
pub const PAGE_SIZE: u64 = 4096;

/// Page numbers from this one on lie in the upper half of the address space
/// and get their start address sign-extended.
pub const UPPER_HALF_FIRST_PAGE: u64 = 0o400_000_000_000;

/// The bits that sign extension sets in an upper-half address.
pub const SIGN_EXTENSION: u64 = 0o177777_000_000_000_000_0000;

/// A virtual address.
#[derive(Clone, Copy, Debug)]
pub struct VirtualAddress(pub u64);

/// A virtual page, identified by its number.
#[derive(Clone, Copy, Debug)]
pub struct Page {
    pub number: u64,
}

/// A page that holds a page table.
#[derive(Clone, Copy, Debug)]
pub struct PageTablePage(pub Page);

/// The location of one entry of a page table.
#[derive(Clone, Copy, Debug)]
pub struct PageTableField(pub u64);

/// The start address of page `number`: its number times the page size,
/// sign-extended for upper-half pages; bits shifted out past the top of the
/// address are lost.
pub open spec fn start_address_of(number: u64) -> int {
    if number >= UPPER_HALF_FIRST_PAGE {
        (number * 4096) % 0x1_0000_0000_0000 + SIGN_EXTENSION
    } else {
        (number * 4096) % 0x1_0000_0000_0000_0000
    }
}

/// The number of pages that one entry of a table at the given level (1 to
/// 4) covers: 512 to the power `level - 1`.
pub open spec fn pages_per_entry(level: nat) -> int {
    if level == 4 {
        134217728
    } else if level == 3 {
        262144
    } else if level == 2 {
        512
    } else {
        1
    }
}

/// Index of page `number` in its table at the given level (1 to 4): nine
/// bits of the page number, the top nine for level 4.
pub open spec fn table_index(number: u64, level: nat) -> int {
    (number as int / pages_per_entry(level)) % 512
}

impl Page {
    /// The page that contains `address`.
    pub fn from_address(address: &VirtualAddress) -> (p: Page)
        ensures
            p.number == address.0 / 4096,
    {
        let a = address.0;
        assert(a >> 12 == a / 4096) by (bit_vector);
        Page { number: a >> 12 }
    }

    /// The address of the first byte of the page.
    pub fn start_address(&self) -> (a: VirtualAddress)
        ensures
            a.0 == start_address_of(self.number),
    {
        let n = self.number;
        if n >= UPPER_HALF_FIRST_PAGE {
            assert((n << 12) | 0o177777_000_000_000_000_0000u64 == (n * 4096) % 0x1_0000_0000_0000
                + 0o177777_000_000_000_000_0000u64) by (bit_vector);
            VirtualAddress((n << 12) | SIGN_EXTENSION)
        } else {
            assert(n << 12 == (n * 4096) % 0x1_0000_0000_0000_0000) by (bit_vector);
            VirtualAddress(n << 12)
        }
    }

    /// Index of the page's entry in its P4 table.
    pub fn p4_index(&self) -> (i: u64)
        ensures
            i == table_index(self.number, 4),
            i < 512,
    {
        let n = self.number;
        assert((n >> 27) & 0o777 == (n / 134217728) % 512) by (bit_vector);
        (n >> 27) & 0o777
    }

    /// Index of the page's entry in its P3 table.
    pub fn p3_index(&self) -> (i: u64)
        ensures
            i == table_index(self.number, 3),
            i < 512,
    {
        let n = self.number;
        assert((n >> 18) & 0o777 == (n / 262144) % 512) by (bit_vector);
        (n >> 18) & 0o777
    }

    /// Index of the page's entry in its P2 table.
    pub fn p2_index(&self) -> (i: u64)
        ensures
            i == table_index(self.number, 2),
            i < 512,
    {
        let n = self.number;
        assert((n >> 9) & 0o777 == (n / 512) % 512) by (bit_vector);
        (n >> 9) & 0o777
    }

    /// Index of the page's entry in its P1 table.
    pub fn p1_index(&self) -> (i: u64)
        ensures
            i == table_index(self.number, 1),
            i < 512,
    {
        let n = self.number;
        assert((n >> 0) & 0o777 == n % 512) by (bit_vector);
        (n >> 0) & 0o777
    }
}

/// The page at which the recursive mapping shows the table of the given
/// level (1 to 4) that covers page `number`.
pub open spec fn table_page_number(number: u64, level: nat) -> int {
    if level == 4 {
        0o777_777_777_777
    } else if level == 3 {
        0o777_777_777_000 + (number as int / 134217728) % 512
    } else if level == 2 {
        0o777_777_000_000 + (number as int / 262144) % 262144
    } else {
        0o777_000_000_000 + (number as int / 512) % 134217728
    }
}

impl Page {
    /// The page that shows the P4 table.
    pub fn p4_page(&self) -> (t: PageTablePage)
        ensures
            t.0.number == table_page_number(self.number, 4),
    {
        PageTablePage(Page { number: 0o_777_777_777_777 })
    }

    /// The page that shows the P3 table covering this page.
    pub fn p3_page(&self) -> (t: PageTablePage)
        ensures
            t.0.number == table_page_number(self.number, 3),
    {
        let n = self.number;
        let i4 = self.p4_index();
        assert(0o_777_777_777_000u64 | ((n >> 27) & 0o777) == 0o777_777_777_000u64 + (n / 134217728)
            % 512) by (bit_vector);
        assert(i4 == (n >> 27) & 0o777) by (bit_vector)
            requires
                i4 == (n / 134217728) % 512,
        ;
        PageTablePage(Page { number: 0o_777_777_777_000 | i4 })
    }

    /// The page that shows the P2 table covering this page.
    pub fn p2_page(&self) -> (t: PageTablePage)
        ensures
            t.0.number == table_page_number(self.number, 2),
    {
        let n = self.number;
        let i4 = self.p4_index();
        let i3 = self.p3_index();
        assert(i4 == (n >> 27) & 0o777 && i3 == (n >> 18) & 0o777) by (bit_vector)
            requires
                i4 == (n / 134217728) % 512,
                i3 == (n / 262144) % 512,
        ;
        assert(0o_777_777_000_000u64 | (((n >> 27) & 0o777) << 9) | ((n >> 18) & 0o777)
            == 0o777_777_000_000u64 + (n / 262144) % 262144) by (bit_vector);
        PageTablePage(Page { number: 0o_777_777_000_000 | (i4 << 9) | i3 })
    }

    /// The page that shows the P1 table covering this page.
    pub fn p1_page(&self) -> (t: PageTablePage)
        ensures
            t.0.number == table_page_number(self.number, 1),
    {
        let n = self.number;
        let i4 = self.p4_index();
        let i3 = self.p3_index();
        let i2 = self.p2_index();
        assert(i4 == (n >> 27) & 0o777 && i3 == (n >> 18) & 0o777 && i2 == (n >> 9) & 0o777)
            by (bit_vector)
            requires
                i4 == (n / 134217728) % 512,
                i3 == (n / 262144) % 512,
                i2 == (n / 512) % 512,
        ;
        assert(0o_777_000_000_000u64 | (((n >> 27) & 0o777) << 18) | (((n >> 18) & 0o777) << 9)
            | ((n >> 9) & 0o777) == 0o777_000_000_000u64 + (n / 512) % 134217728) by (bit_vector);
        PageTablePage(Page { number: 0o_777_000_000_000 | (i4 << 18) | (i3 << 9) | i2 })
    }
}

/// Each table page shown by the recursive mapping is the P1 table page of
/// the table page one level below it.
pub proof fn law_table_pages_are_nested(number: u64)
    ensures
        table_page_number(number, 2) == table_page_number(
            table_page_number(number, 1) as u64,
            1,
        ),
        table_page_number(number, 3) == table_page_number(
            table_page_number(number, 2) as u64,
            1,
        ),
        table_page_number(number, 4) == table_page_number(
            table_page_number(number, 3) as u64,
            1,
        ),
{
    let n = number;
    assert(0o777_777_000_000u64 + (n / 262144) % 262144 == 0o777_000_000_000u64 + ((
    0o777_000_000_000u64 + (n / 512) % 134217728) / 512) % 134217728) by (bit_vector);
    assert(0o777_777_777_000u64 + (n / 134217728) % 512 == 0o777_000_000_000u64 + ((
    0o777_777_000_000u64 + (n / 262144) % 262144) / 512) % 134217728) by (bit_vector);
    assert(0o777_777_777_777u64 == 0o777_000_000_000u64 + ((0o777_777_777_000u64 + (n
        / 134217728) % 512) / 512) % 134217728) by (bit_vector);
}

/// The address of entry `index` of a page table whose page is `number`.
pub open spec fn field_address(number: u64, index: int) -> int {
    start_address_of(number) + index * 8
}

/// A start address is page-aligned and leaves room for a whole page below
/// the top of the address space.
pub proof fn lemma_start_address_bounds(n: u64)
    ensures
        start_address_of(n) % 4096 == 0,
        start_address_of(n) <= 0xFFFF_FFFF_FFFF_F000,
{
    assert((n * 4096) % 0x1_0000_0000_0000 <= 0xFFFF_FFFF_F000 && ((n * 4096)
        % 0x1_0000_0000_0000) % 4096 == 0) by (bit_vector);
    assert((n * 4096) % 0x1_0000_0000_0000_0000 <= 0xFFFF_FFFF_FFFF_F000 && ((n * 4096)
        % 0x1_0000_0000_0000_0000) % 4096 == 0) by (bit_vector);
}

impl PageTablePage {
    /// The location of entry `index` of this table; the address must lie
    /// within the address space.
    pub fn field(&self, index: u64) -> (f: PageTableField)
        requires
            field_address(self.0.number, index as int) <= u64::MAX,
        ensures
            f.0 == field_address(self.0.number, index as int),
    {
        proof {
            lemma_start_address_bounds(self.0.number);
        }
        let start = self.0.start_address();
        PageTableField(start.0 + index * 8)
    }
}

impl VirtualAddress {
    /// The page that contains this address.
    pub fn page(&self) -> (p: Page)
        ensures
            p.number == self.0 / 4096,
    {
        Page::from_address(self)
    }

    /// The position of this address within its page.
    pub fn page_offset(&self) -> (o: u32)
        ensures
            o == self.0 % 4096,
    {
        let a = self.0;
        assert((a as u32) & 0xfff == a % 4096) by (bit_vector);
        (a as u32) & 0xfff
    }
}

/// The pages that follow a given page, in increasing order.
#[derive(Clone, Copy, Debug)]
pub struct PageIter(pub Page);

impl Page {
    /// The pages after this one, starting with the next.
    pub fn next_pages(self) -> (it: PageIter)
        ensures
            it.0 == self,
    {
        PageIter(self)
    }
}

impl PageIter {
    /// Steps to the next page and returns it.
    pub fn next(&mut self) -> (r: Option<Page>)
        requires
            old(self).0.number < u64::MAX,
        ensures
            final(self).0.number == old(self).0.number + 1,
            r == Some(final(self).0),
    {
        self.0.number = self.0.number + 1;
        Some(self.0)
    }
}

} // verus!
