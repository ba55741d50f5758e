//! The decompressor for assets that the ROM stores compressed. A
//! compressed asset is a header, a stream of command bits, a stream of
//! links to earlier output, and a stream of plain bytes.

use vstd::prelude::*;
use crate::rom::{be16, be32, half_at, word_at, word_inside};

verus! {

/// `Yay0`, the first four bytes of every compressed asset.
pub const MAGIC: u32 = 0x5961_7930;

/// Why an asset could not be decompressed.
#[derive(Debug, Clone, Copy, PartialEq, Eq, Structural)]
pub enum Yay0Error {
    /// The data does not begin with `Yay0`.
    BadMagic,
    /// The data ends before the asset does.
    Truncated,
    /// A link points to before the start of the output.
    BadLink,
    /// A link copies more than the asset has room for.
    Overrun,
}

/// How far decompression has come: the output so far, the places of the
/// next link, of the next plain byte and of the next byte of commands,
/// the command bits in hand with the next one highest, and how many of
/// them are left.
pub struct Inflating {
    pub out: Seq<u8>,
    pub link: int,
    pub data: int,
    pub command_at: int,
    pub command: int,
    pub bits: int,
}

/// The output after `length` bytes were copied to its end, one at a time,
/// beginning `back` bytes before the end. Once the copy has come to where
/// the output ended, it goes on with the bytes that it wrote itself: the
/// last `back` bytes are repeated over and over.
pub open spec fn copied(out: Seq<u8>, back: int, length: nat) -> Seq<u8> {
    out + Seq::new(length, |i: int| out[out.len() - back + i % back])
}

/// One step of decompression. The next command bit says what comes
/// next: a set bit, one plain byte; a clear bit, a copy of earlier
/// output. A link is two bytes: the low twelve bits are the distance back
/// from the end of the output, less one; the high four are the length
/// less two, or zero if the length is the next plain byte plus eighteen.
pub open spec fn step(source: Seq<u8>, size: int, st: Inflating) -> Result<Inflating, Yay0Error> {
    if st.bits == 0 && !(0 <= st.command_at < source.len()) {
        Err(Yay0Error::Truncated)
    } else {
        let command = if st.bits == 0 {
            source[st.command_at] as int
        } else {
            st.command
        };
        let command_at = if st.bits == 0 {
            st.command_at + 1
        } else {
            st.command_at
        };
        let bits = if st.bits == 0 {
            7
        } else {
            st.bits - 1
        };
        if command >= 128 {
            if !(0 <= st.data < source.len()) {
                Err(Yay0Error::Truncated)
            } else {
                Ok(
                    Inflating {
                        out: st.out.push(source[st.data]),
                        link: st.link,
                        data: st.data + 1,
                        command_at,
                        command: (command * 2) % 256,
                        bits,
                    },
                )
            }
        } else if !(0 <= st.link && st.link + 2 <= source.len()) {
            Err(Yay0Error::Truncated)
        } else {
            let link = be16(source, st.link) as int;
            let back = link % 4096 + 1;
            let nibble = link / 4096;
            if back > st.out.len() {
                Err(Yay0Error::BadLink)
            } else if nibble == 0 && !(0 <= st.data < source.len()) {
                Err(Yay0Error::Truncated)
            } else {
                let length = if nibble == 0 {
                    source[st.data] as int + 18
                } else {
                    nibble + 2
                };
                if st.out.len() + length > size {
                    Err(Yay0Error::Overrun)
                } else {
                    Ok(
                        Inflating {
                            out: copied(st.out, back, length as nat),
                            link: st.link + 2,
                            data: if nibble == 0 {
                                st.data + 1
                            } else {
                                st.data
                            },
                            command_at,
                            command: (command * 2) % 256,
                            bits,
                        },
                    )
                }
            }
        }
    }
}

/// The asset of `size` bytes that decompression gives from a state on:
/// steps are made until the output has that size. (Every step adds to the
/// output; the test for it is what shows that decompression ends.)
pub open spec fn inflate(source: Seq<u8>, size: int, st: Inflating) -> Result<Seq<u8>, Yay0Error>
    decreases size - st.out.len(),
{
    if st.out.len() >= size {
        Ok(st.out)
    } else {
        match step(source, size, st) {
            Err(e) => Err(e),
            Ok(next) => if next.out.len() <= st.out.len() {
                Err(Yay0Error::Overrun)
            } else {
                inflate(source, size, next)
            },
        }
    }
}

/// Every step adds to the output.
pub proof fn lemma_step_grows(source: Seq<u8>, size: int, st: Inflating)
    ensures
        step(source, size, st) matches Ok(next) ==> next.out.len() > st.out.len(),
{
}

/// The asset that compressed data stands for. The header is sixteen
/// bytes: `Yay0`, the size of the asset, the place of the links and the
/// place of the plain bytes, each a big-endian word. The command bits
/// follow the header.
pub open spec fn decompressed(source: Seq<u8>) -> Result<Seq<u8>, Yay0Error> {
    if source.len() < 16 {
        Err(Yay0Error::Truncated)
    } else if be32(source, 0) != MAGIC {
        Err(Yay0Error::BadMagic)
    } else {
        inflate(
            source,
            be32(source, 4) as int,
            Inflating {
                out: Seq::empty(),
                link: be32(source, 8) as int,
                data: be32(source, 12) as int,
                command_at: 16,
                command: 0,
                bits: 0,
            },
        )
    }
}

/// Copies `length` bytes to the end of the output, one at a time,
/// beginning `back` bytes before the end.
fn copy_back(decoded: &mut Vec<u8>, back: usize, length: usize)
    requires
        1 <= back <= old(decoded)@.len(),
        old(decoded)@.len() + length <= u32::MAX,
    ensures
        final(decoded)@ == copied(old(decoded)@, back as int, length as nat),
        final(decoded)@.len() == old(decoded)@.len() + length,
{
    let start: usize = decoded.len() - back;
    let ghost before = decoded@;
    let mut i: usize = 0;
    assert(decoded@ =~= copied(before, back as int, 0));
    while i < length
        invariant
            i <= length,
            start + back == before.len(),
            back >= 1,
            before.len() + length <= u32::MAX,
            decoded@ == copied(before, back as int, i as nat),
        decreases length - i,
    {
        let byte = decoded[start + i];
        proof {
            let b = back as int;
            let k = i as int;
            if k >= b {
                assert((k - b) % b == k % b) by (nonlinear_arith)
                    requires
                        b >= 1,
                        k >= b,
                ;
                assert(0 <= (k - b) % b < b) by (nonlinear_arith)
                    requires
                        b >= 1,
                        k >= b,
                ;
            } else {
                assert(k % b == k) by (nonlinear_arith)
                    requires
                        0 <= k < b,
                ;
            }
            assert(byte == before[before.len() - b + k % b]);
        }
        decoded.push(byte);
        i += 1;
        assert(decoded@ =~= copied(before, back as int, i as nat));
    }
}

/// The state of decompression.
struct State {
    decoded: Vec<u8>,
    link: u64,
    data: u64,
    command_at: u64,
    command: u8,
    bits: u8,
}

impl View for State {
    type V = Inflating;

    closed spec fn view(&self) -> Inflating {
        Inflating {
            out: self.decoded@,
            link: self.link as int,
            data: self.data as int,
            command_at: self.command_at as int,
            command: self.command as int,
            bits: self.bits as int,
        }
    }
}

impl State {
    /// The places are not so large that moving them on would overflow.
    spec fn bounded(&self, size: int) -> bool {
        &&& self.decoded@.len() <= size <= u32::MAX
        &&& self.bits <= 7
        &&& self.link <= u32::MAX + 2 * self.decoded@.len()
        &&& self.data <= u32::MAX + self.decoded@.len()
        &&& self.command_at <= 16 + self.decoded@.len()
    }
}

/// Makes one step of decompression.
fn step_once(source: &[u8], size: u32, state: State) -> (r: Result<State, Yay0Error>)
    requires
        state.bounded(size as int),
        state.decoded@.len() < size,
    ensures
        match step(source@, size as int, state@) {
            Ok(next) => r matches Ok(after) && after@ == next && after.bounded(size as int)
                && after.decoded@.len() > state.decoded@.len(),
            Err(e) => r matches Err(f) && f == e,
        },
{
    let n = source.len();
    let mut state = state;
    let command: u8 = if state.bits == 0 {
        if state.command_at >= n as u64 {
            return Err(Yay0Error::Truncated);
        }
        let c = source[state.command_at as usize];
        state.command_at += 1;
        state.bits = 7;
        c
    } else {
        state.bits -= 1;
        state.command
    };
    state.command = ((command as u16 * 2) % 256) as u8;
    if command >= 128 {
        if state.data >= n as u64 {
            return Err(Yay0Error::Truncated);
        }
        state.decoded.push(source[state.data as usize]);
        state.data += 1;
        Ok(state)
    } else {
        let link: u16 = match half_at(source, state.link) {
            Some(h) => h,
            None => {
                return Err(Yay0Error::Truncated);
            },
        };
        let back: usize = (link % 4096) as usize + 1;
        let nibble: u16 = link / 4096;
        if back > state.decoded.len() {
            return Err(Yay0Error::BadLink);
        }
        let length: usize = if nibble == 0 {
            if state.data >= n as u64 {
                return Err(Yay0Error::Truncated);
            }
            let extra = source[state.data as usize];
            state.data += 1;
            extra as usize + 18
        } else {
            nibble as usize + 2
        };
        if length > size as usize - state.decoded.len() {
            return Err(Yay0Error::Overrun);
        }
        state.link += 2;
        copy_back(&mut state.decoded, back, length);
        Ok(state)
    }
}

/// Decompresses an asset.
pub fn decompress(source: &[u8]) -> (r: Result<Vec<u8>, Yay0Error>)
    ensures
        match decompressed(source@) {
            Ok(asset) => r matches Ok(decoded) && decoded@ == asset,
            Err(e) => r matches Err(f) && f == e,
        },
{
    if source.len() < 16 {
        return Err(Yay0Error::Truncated);
    }
    let magic = word_inside(source, 0);
    if magic != MAGIC {
        return Err(Yay0Error::BadMagic);
    }
    let size: u32 = word_inside(source, 4);
    let link: u32 = word_inside(source, 8);
    let data: u32 = word_inside(source, 12);
    let mut state = State {
        decoded: Vec::new(),
        link: link as u64,
        data: data as u64,
        command_at: 16,
        command: 0,
        bits: 0,
    };
    let ghost whole = decompressed(source@);
    while state.decoded.len() < size as usize
        invariant
            state.bounded(size as int),
            whole == decompressed(source@),
            whole == inflate(source@, size as int, state@),
        decreases size - state.decoded@.len(),
    {
        let ghost before = state@;
        assert(before.out.len() < size);
        state = match step_once(source, size, state) {
            Err(e) => {
                assert(inflate(source@, size as int, before) == Err::<Seq<u8>, Yay0Error>(e));
                return Err(e);
            },
            Ok(next) => {
                assert(inflate(source@, size as int, before) == inflate(
                    source@,
                    size as int,
                    next@,
                ));
                next
            },
        };
    }
    Ok(state.decoded)
}

} // verus!
