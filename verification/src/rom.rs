//! A ROM image held in memory, with a read position.

use vstd::prelude::*;
use vstd::string::StringExecFns;
use crate::loc::Location;
use crate::text::{hex_padded, push_hex_padded};

verus! {

/// The market that a ROM was made for.
#[derive(Debug, Clone, Copy, PartialEq, Eq, Structural)]
pub enum Region {
    Japan,
    America,
    Europe,
}

impl Region {
    /// The region that a country code of the ROM header stands for.
    pub open spec fn of(byte: u8) -> Option<Region> {
        if byte == 0x4A {
            Some(Region::Japan)
        } else if byte == 0x45 {
            Some(Region::America)
        } else if byte == 0x50 {
            Some(Region::Europe)
        } else {
            None
        }
    }

    /// Reads a country code: `J`, `E` or `P`.
    pub fn from(byte: u8) -> (region: Option<Region>)
        ensures
            region == Self::of(byte),
    {
        match byte {
            0x4A => Some(Region::Japan),
            0x45 => Some(Region::America),
            0x50 => Some(Region::Europe),
            _ => None,
        }
    }
}

/// Why an image is not a ROM that can be read.
#[derive(Debug, Clone, Copy, PartialEq, Eq, Structural)]
pub enum RomError {
    /// The image does not begin with the byte `0x80`: it is not stored
    /// big-endian.
    NotBigEndian,
    /// The country code at `0x3E` is none of Japan, America and Europe.
    UnknownRegion,
}

/// Why a read failed.
#[derive(Debug, Clone, Copy, PartialEq, Eq, Structural)]
pub enum ReadError {
    /// The image ended before the value did.
    Eof,
    /// A byte of a string is not ASCII.
    BadAscii(u8),
    /// A pointer that must point somewhere is null.
    NullPointer,
    /// The runtime address that a region is copied to is none.
    BadDestination(u32),
    /// A runtime address lies below the region that it should lie in.
    BadAddress(u32),
    /// A script is not well formed.
    Bytecode(crate::bytecode::Error),
    /// A compressed asset could not be decompressed.
    Compression(crate::yay0::Yay0Error),
    /// A compressed asset does not have the size that its entry gives.
    SizeMismatch(u32, u32),
}

/// An address as the ROM stores it.
#[derive(Debug, Clone, Copy, PartialEq, Eq, Structural)]
pub enum Pointer {
    Address(u32),
    NullPtr,
}

/// The big-endian 32-bit word whose first byte stands at `at`.
#[verifier::opaque]
pub open spec fn be32(bytes: Seq<u8>, at: int) -> u32
    recommends
        0 <= at,
        at + 4 <= bytes.len(),
{
    (bytes[at] as int * 0x100_0000 + bytes[at + 1] as int * 0x1_0000 + bytes[at + 2] as int * 0x100
        + bytes[at + 3] as int) as u32
}

/// The big-endian 16-bit word whose first byte stands at `at`.
#[verifier::opaque]
pub open spec fn be16(bytes: Seq<u8>, at: int) -> u16
    recommends
        0 <= at,
        at + 2 <= bytes.len(),
{
    (bytes[at] as int * 0x100 + bytes[at + 1] as int) as u16
}

/// The address that a stored pointer stands for: the word plus
/// 2,147,333,120 modulo 2^32, and no address for the word zero.
pub open spec fn pointer_of(word: u32) -> Pointer {
    if word == 0 {
        Pointer::NullPtr
    } else {
        Pointer::Address(((word + 2_147_333_120) % 0x1_0000_0000) as u32)
    }
}

/// Reads the big-endian 32-bit word at `at`, if the bytes reach that far.
pub fn word_at(bytes: &[u8], at: u64) -> (word: Option<u32>)
    ensures
        at + 4 <= bytes@.len() ==> word == Some(be32(bytes@, at as int)),
        at + 4 > bytes@.len() ==> word.is_none(),
{
    if at >= bytes.len() as u64 {
        return None;
    }
    let i = at as usize;
    if bytes.len() - i < 4 {
        return None;
    }
    reveal(be32);
    let a: u32 = bytes[i] as u32;
    let b: u32 = bytes[i + 1] as u32;
    let c: u32 = bytes[i + 2] as u32;
    let d: u32 = bytes[i + 3] as u32;
    Some(a * 0x100_0000 + b * 0x1_0000 + c * 0x100 + d)
}

/// Reads the big-endian 16-bit word at `at`, if the bytes reach that far.
pub fn half_at(bytes: &[u8], at: u64) -> (word: Option<u16>)
    ensures
        at + 2 <= bytes@.len() ==> word == Some(be16(bytes@, at as int)),
        at + 2 > bytes@.len() ==> word.is_none(),
{
    if at >= bytes.len() as u64 {
        return None;
    }
    let i = at as usize;
    if bytes.len() - i < 2 {
        return None;
    }
    reveal(be16);
    let a: u16 = bytes[i] as u16;
    let b: u16 = bytes[i + 1] as u16;
    Some(a * 0x100 + b)
}

/// Reads the big-endian 32-bit word at `at`, which lies inside the bytes.
pub fn word_inside(bytes: &[u8], at: u64) -> (word: u32)
    requires
        at + 4 <= bytes@.len(),
    ensures
        word == be32(bytes@, at as int),
{
    reveal(be32);
    let i = at as usize;
    let a: u32 = bytes[i] as u32;
    let b: u32 = bytes[i + 1] as u32;
    let c: u32 = bytes[i + 2] as u32;
    let d: u32 = bytes[i + 3] as u32;
    a * 0x100_0000 + b * 0x1_0000 + c * 0x100 + d
}

/// Reads the big-endian 16-bit word at `at`, which lies inside the bytes.
pub fn half_inside(bytes: &[u8], at: u64) -> (word: u16)
    requires
        at + 2 <= bytes@.len(),
    ensures
        word == be16(bytes@, at as int),
{
    reveal(be16);
    let i = at as usize;
    let a: u16 = bytes[i] as u16;
    let b: u16 = bytes[i + 1] as u16;
    a * 0x100 + b
}

/// A ROM image with a read position.
#[derive(Debug)]
pub struct Rom {
    bytes: Vec<u8>,
    pos: u64,
    region: Region,
}

impl Rom {
    /// The bytes of the image.
    pub closed spec fn bytes(&self) -> Seq<u8> {
        self.bytes@
    }

    /// The read position, counted in bytes from the start of the image.
    pub closed spec fn pos(&self) -> int {
        self.pos as int
    }

    /// The region of the ROM.
    pub closed spec fn spec_region(&self) -> Region {
        self.region
    }

    /// What `from` makes of an image.
    pub open spec fn checked(bytes: Seq<u8>) -> Result<Region, RomError> {
        if bytes.len() == 0 || bytes[0] != 0x80 {
            Err(RomError::NotBigEndian)
        } else if bytes.len() <= 0x3E {
            Err(RomError::UnknownRegion)
        } else {
            match Region::of(bytes[0x3E]) {
                Some(region) => Ok(region),
                None => Err(RomError::UnknownRegion),
            }
        }
    }

    /// Takes an image as a ROM. Only big-endian images of the three known
    /// regions are taken. Reading starts at the first byte.
    pub fn from(bytes: Vec<u8>) -> (rom: Result<Rom, RomError>)
        ensures
            match Self::checked(bytes@) {
                Ok(region) => rom matches Ok(r) && r.bytes() == bytes@ && r.pos() == 0
                    && r.spec_region() == region,
                Err(e) => rom matches Err(f) && f == e,
            },
    {
        if bytes.len() == 0 || bytes[0] != 0x80 {
            return Err(RomError::NotBigEndian);
        }
        if bytes.len() <= 0x3E {
            return Err(RomError::UnknownRegion);
        }
        match Region::from(bytes[0x3E]) {
            Some(region) => Ok(Rom { bytes, pos: 0, region }),
            None => Err(RomError::UnknownRegion),
        }
    }

    /// The region of the ROM.
    pub fn region(&self) -> (region: Region)
        ensures
            region == self.spec_region(),
    {
        self.region
    }

    /// The read position.
    pub fn position(&self) -> (pos: u64)
        ensures
            pos == self.pos(),
    {
        self.pos
    }

    /// The bytes of the image.
    pub fn as_bytes(&self) -> (bytes: &[u8])
        ensures
            bytes@ == self.bytes(),
    {
        self.bytes.as_slice()
    }

    /// Moves the read position to a location.
    pub fn seek(&mut self, loc: Location)
        ensures
            final(self).pos() == loc.addr(),
            final(self).bytes() == old(self).bytes(),
            final(self).spec_region() == old(self).spec_region(),
    {
        self.pos = loc.base as u64 + loc.offset as u64;
    }

    /// Moves the read position to an offset from the start of the image.
    pub fn seek_to(&mut self, pos: u64)
        ensures
            final(self).pos() == pos,
            final(self).bytes() == old(self).bytes(),
            final(self).spec_region() == old(self).spec_region(),
    {
        self.pos = pos;
    }

    /// Moves the read position by a number of bytes, forward or back. It
    /// stops at the start of the image and at the largest position.
    pub fn skip(&mut self, bytes: i64)
        ensures
            final(self).pos() == (if old(self).pos() + bytes < 0 {
                0
            } else if old(self).pos() + bytes > u64::MAX {
                u64::MAX as int
            } else {
                old(self).pos() + bytes
            }),
            final(self).bytes() == old(self).bytes(),
            final(self).spec_region() == old(self).spec_region(),
    {
        if bytes >= 0 {
            self.pos = self.pos.saturating_add(bytes as u64);
        } else {
            let back: u64 = if bytes == i64::MIN {
                0x8000_0000_0000_0000u64
            } else {
                (-bytes) as u64
            };
            self.pos = self.pos.saturating_sub(back);
        }
    }

    /// Reads a big-endian 32-bit word and moves past it.
    pub fn read_u32(&mut self) -> (word: Result<u32, ReadError>)
        ensures
            final(self).bytes() == old(self).bytes(),
            final(self).spec_region() == old(self).spec_region(),
            old(self).pos() + 4 <= old(self).bytes().len() ==> word == Ok::<u32, ReadError>(
                be32(old(self).bytes(), old(self).pos()),
            ) && final(self).pos() == old(self).pos() + 4,
            old(self).pos() + 4 > old(self).bytes().len() ==> word == Err::<u32, ReadError>(
                ReadError::Eof,
            ) && final(self).pos() == old(self).pos(),
    {
        match word_at(self.bytes.as_slice(), self.pos) {
            Some(word) => {
                assert(self.pos + 4 <= self.bytes.len());
                self.pos = self.pos + 4;
                Ok(word)
            },
            None => Err(ReadError::Eof),
        }
    }

    /// Reads a stored pointer and moves past it.
    pub fn read_addr(&mut self) -> (ptr: Result<Pointer, ReadError>)
        ensures
            final(self).bytes() == old(self).bytes(),
            final(self).spec_region() == old(self).spec_region(),
            old(self).pos() + 4 <= old(self).bytes().len() ==> ptr == Ok::<Pointer, ReadError>(
                pointer_of(be32(old(self).bytes(), old(self).pos())),
            ) && final(self).pos() == old(self).pos() + 4,
            old(self).pos() + 4 > old(self).bytes().len() ==> ptr == Err::<Pointer, ReadError>(
                ReadError::Eof,
            ) && final(self).pos() == old(self).pos(),
    {
        match self.read_u32() {
            Err(e) => Err(e),
            Ok(weird) => if weird == 0 {
                Ok(Pointer::NullPtr)
            } else {
                Ok(Pointer::Address(weird.wrapping_add(2_147_333_120)))
            },
        }
    }
}

/// The ASCII text that stands at `at`, up to the zero byte that ends it.
pub open spec fn string_at(bytes: Seq<u8>, at: int) -> Result<Seq<char>, ReadError>
    decreases bytes.len() - at,
{
    if at < 0 || at >= bytes.len() {
        Err(ReadError::Eof)
    } else if bytes[at] == 0 {
        Ok(Seq::empty())
    } else if bytes[at] >= 128 {
        Err(ReadError::BadAscii(bytes[at]))
    } else {
        match string_at(bytes, at + 1) {
            Err(e) => Err(e),
            Ok(rest) => Ok(seq![bytes[at] as char] + rest),
        }
    }
}

/// A reading of text that goes on after the characters `done`.
pub open spec fn after_chars(done: Seq<char>, r: Result<Seq<char>, ReadError>) -> Result<
    Seq<char>,
    ReadError,
> {
    match r {
        Ok(rest) => Ok(done + rest),
        Err(e) => Err(e),
    }
}

/// Reads the ASCII text at `at`, up to the zero byte that ends it.
pub fn text_at(bytes: &[u8], at: u64) -> (r: Result<String, ReadError>)
    ensures
        match string_at(bytes@, at as int) {
            Ok(text) => r matches Ok(s) && s@ == text,
            Err(e) => r matches Err(f) && f == e,
        },
{
    let mut out = String::new();
    let n = bytes.len();
    if at >= n as u64 {
        return Err(ReadError::Eof);
    }
    let mut i: usize = at as usize;
    let ghost whole = string_at(bytes@, at as int);
    assert(whole == after_chars(out@, string_at(bytes@, i as int))) by {
        match string_at(bytes@, i as int) {
            Ok(rest) => {
                assert(Seq::<char>::empty() + rest =~= rest);
            },
            Err(e) => {},
        }
    }
    while i < n
        invariant
            i <= n,
            n == bytes@.len(),
            whole == string_at(bytes@, at as int),
            whole == after_chars(out@, string_at(bytes@, i as int)),
        decreases n - i,
    {
        let byte = bytes[i];
        if byte == 0 {
            assert(out@ + Seq::<char>::empty() =~= out@);
            return Ok(out);
        }
        if byte >= 128 {
            return Err(ReadError::BadAscii(byte));
        }
        let ghost before = out@;
        out.push(byte as char);
        proof {
            match string_at(bytes@, i + 1) {
                Ok(rest) => {
                    assert(before + (seq![byte as char] + rest) =~= before.push(byte as char)
                        + rest);
                },
                Err(e) => {},
            }
        }
        i += 1;
    }
    Err(ReadError::Eof)
}

impl Rom {
    /// Reads the ASCII text at the read position and moves past the zero
    /// byte that ends it.
    pub fn read_string(&mut self) -> (r: Result<String, ReadError>)
        ensures
            final(self).bytes() == old(self).bytes(),
            final(self).spec_region() == old(self).spec_region(),
            match string_at(old(self).bytes(), old(self).pos()) {
                Ok(text) => r matches Ok(s) && s@ == text && final(self).pos() == old(self).pos()
                    + text.len() + 1,
                Err(e) => r matches Err(f) && f == e && final(self).pos() == old(self).pos(),
            },
    {
        match text_at(self.bytes.as_slice(), self.pos) {
            Err(e) => Err(e),
            Ok(text) => {
                proof {
                    lemma_string_fits(self.bytes@, self.pos as int);
                }
                let len = text.as_str().unicode_len();
                let size = self.bytes.len();
                assert(self.pos + len + 1 <= size);
                self.pos = self.pos + len as u64 + 1;
                Ok(text)
            },
        }
    }
}

/// A text that was read lies inside the image, with the zero byte that
/// ends it.
pub proof fn lemma_string_fits(bytes: Seq<u8>, at: int)
    requires
        string_at(bytes, at).is_ok(),
    ensures
        0 <= at,
        at + string_at(bytes, at).unwrap().len() + 1 <= bytes.len(),
    decreases bytes.len() - at,
{
    if bytes[at] != 0 {
        lemma_string_fits(bytes, at + 1);
    }
}

/// Reads two bytes as a big-endian 16-bit word.
pub fn read_u16(bytes: &[u8]) -> (word: u16)
    requires
        bytes@.len() == 2,
    ensures
        word == be16(bytes@, 0),
{
    half_inside(bytes, 0)
}

/// Reads four bytes as a big-endian 32-bit word.
pub fn read_u32(bytes: &[u8]) -> (word: u32)
    requires
        bytes@.len() == 4,
    ensures
        word == be32(bytes@, 0),
{
    word_inside(bytes, 0)
}

impl Pointer {
    /// The pointer as it is written: an address as eight digits in
    /// upper-case base sixteen after `0x`, no address as `nullptr`.
    pub open spec fn shown(self) -> Seq<char> {
        match self {
            Pointer::Address(addr) => "0x"@ + hex_padded(addr as nat, 8),
            Pointer::NullPtr => "nullptr"@,
        }
    }

    /// The pointer as it is written.
    pub fn to_text(&self) -> (out: String)
        ensures
            out@ == self.shown(),
    {
        match self {
            Pointer::Address(addr) => {
                let mut out = String::from_str("0x");
                push_hex_padded(&mut out, *addr, 8);
                out
            },
            Pointer::NullPtr => String::from_str("nullptr"),
        }
    }
}

} // verus!
