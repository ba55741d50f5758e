//! ROM addresses: a base plus an offset, and the copy regions that map ROM
//! ranges onto runtime addresses.

use vstd::prelude::*;
use vstd::string::StringExecFns;
use crate::text::{hex_padded, push_hex_padded};

verus! {

/// Whether `addr` is a runtime (RAM) address: its top byte is `0x80`.
pub open spec fn spec_is_vaddr(addr: u32) -> bool {
    addr & 0xFF00_0000 == 0x8000_0000
}

/// Returns true if the provided address is a runtime 'virtual address'.
pub fn is_vaddr(addr: u32) -> (b: bool)
    ensures
        b == spec_is_vaddr(addr),
{
    addr & 0xFF00_0000 == 0x8000_0000
}

/// The runtime addresses are exactly those from `0x8000_0000` up to
/// `0x80FF_FFFF`.
pub proof fn lemma_vaddr_range(addr: u32)
    ensures
        spec_is_vaddr(addr) <==> 0x8000_0000 <= addr <= 0x80FF_FFFF,
{
    assert((addr & 0xFF00_0000 == 0x8000_0000) <==> (0x8000_0000 <= addr <= 0x80FF_FFFF))
        by (bit_vector);
}

/// Holds a base address and offset. Useful for pointer calculations.
#[derive(Debug, PartialEq, Eq, Hash, Clone, Copy, Structural)]
pub struct Location {
    /// Base address.
    pub base: u32,
    /// Address offset.
    pub offset: u32,
}

impl Location {
    /// The absolute address that the location names.
    pub open spec fn addr(self) -> int {
        self.base + self.offset
    }

    pub fn new(base_addr: u32) -> (loc: Location)
        ensures
            loc == (Location { base: base_addr, offset: 0 }),
    {
        Location { base: base_addr, offset: 0 }
    }

    /// Moves the location `offset` bytes further from its base.
    pub fn add_offset(self, offset: u32) -> (loc: Location)
        requires
            self.offset + offset <= u32::MAX,
        ensures
            loc.base == self.base,
            loc.offset == self.offset + offset,
            loc.addr() == self.addr() + offset,
    {
        Location { base: self.base, offset: self.offset + offset }
    }

    /// The location as it is written: the base as eight digits and the
    /// offset as four, in upper-case base sixteen.
    pub open spec fn shown(self) -> Seq<char> {
        "0x"@ + hex_padded(self.base as nat, 8) + "+"@ + hex_padded(self.offset as nat, 4)
    }

    /// The location as it is written.
    pub fn to_text(&self) -> (out: String)
        ensures
            out@ == self.shown(),
    {
        let mut out = String::from_str("0x");
        push_hex_padded(&mut out, self.base, 8);
        out.append("+");
        push_hex_padded(&mut out, self.offset, 4);
        out
    }

    /// The absolute address, when it fits in 32 bits.
    pub fn absolute(self) -> (a: Option<u32>)
        ensures
            a == (if self.addr() <= u32::MAX { Some(self.addr() as u32) } else { None }),
    {
        self.base.checked_add(self.offset)
    }
}

/// Dynamically-allocated memory; the data at `start`..`end` will be copied to
/// address `dest` at some point during runtime.
#[derive(Debug, PartialEq, Eq, Clone, Copy, Structural)]
pub struct Dma {
    /// Starting address (ROM).
    pub start: u32,
    /// Ending address (ROM).
    pub end: u32,
    /// Destination virtual-address (RAM).
    pub dest: u32,
}

impl Dma {
    /// A region is only made with a runtime address as its destination.
    pub fn new(start: u32, end: u32, dest: u32) -> (dma: Dma)
        requires
            spec_is_vaddr(dest),
        ensures
            dma == (Dma { start, end, dest }),
    {
        Dma { start, end, dest }
    }

    /// The ROM location of the byte that will live at `vaddr` at runtime.
    pub fn loc_at_vaddr(&self, vaddr: u32) -> (loc: Location)
        requires
            vaddr >= self.dest,
        ensures
            loc.base == self.start,
            loc.offset == vaddr - self.dest,
    {
        Location { base: self.start, offset: vaddr - self.dest }
    }

    /// As `loc_at_vaddr`, but `None` for an address below the destination.
    pub fn checked_loc_at_vaddr(&self, vaddr: u32) -> (loc: Option<Location>)
        ensures
            vaddr >= self.dest ==> loc == Some(
                Location { base: self.start, offset: (vaddr - self.dest) as u32 },
            ),
            vaddr < self.dest ==> loc.is_none(),
    {
        if vaddr >= self.dest {
            Some(self.loc_at_vaddr(vaddr))
        } else {
            None
        }
    }

    pub fn loc_at_offset(&self, offset: u32) -> (loc: Location)
        ensures
            loc == (Location { base: self.start, offset }),
    {
        Location { base: self.start, offset }
    }

    /// The number of bytes that the region covers.
    pub fn len(&self) -> (n: u32)
        requires
            self.start <= self.end,
        ensures
            n == self.end - self.start,
    {
        self.end - self.start
    }
}

/// The text a map shows when it is described: either an entry of the
/// message table, or a function that picks one at runtime.
#[derive(Debug, Clone, Copy, PartialEq, Eq, Structural)]
pub enum Text {
    Id(u16, u16),
    Dynamic(Location),
}

impl Text {
    /// Message section of a packed message id: its high half.
    pub open spec fn section_of(u: u32) -> u16 {
        (u >> 16) as u16
    }

    /// Message number of a packed message id: its low half.
    pub open spec fn number_of(u: u32) -> u16 {
        (u & 0xFFFF) as u16
    }

    /// Reads a packed word as a message: a runtime address names a function
    /// inside `dma`, anything else is a (section, number) pair.
    pub fn from(u: u32, dma: &Dma) -> (t: Text)
        requires
            spec_is_vaddr(u) ==> u >= dma.dest,
        ensures
            spec_is_vaddr(u) ==> t == Text::Dynamic(
                Location { base: dma.start, offset: (u - dma.dest) as u32 },
            ),
            !spec_is_vaddr(u) ==> t == Text::Id(Self::section_of(u), Self::number_of(u)),
    {
        if is_vaddr(u) {
            Text::Dynamic(dma.loc_at_vaddr(u))
        } else {
            let section: u32 = (u & 0xFFFF_0000) >> 16;
            let number: u32 = u & 0x0000_FFFF;
            assert((u & 0xFFFF_0000) >> 16 == u >> 16) by (bit_vector);
            assert(u >> 16 <= 0xFFFF) by (bit_vector);
            assert(u & 0x0000_FFFF <= 0xFFFF) by (bit_vector);
            Text::Id(section as u16, number as u16)
        }
    }
}

} // verus!
