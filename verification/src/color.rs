//! Colours and palettes in the packed formats of the console.

use vstd::prelude::*;

verus! {

/// A colour with eight bits for each of red, green, blue and opacity.
#[derive(Debug, Clone, Copy, PartialEq, Eq, Hash, Structural)]
pub struct Color {
    pub r: u8,
    pub g: u8,
    pub b: u8,
    pub a: u8,
}

/// An eight-bit channel scaled down to five bits, rounding towards zero.
pub open spec fn to_five_bits(channel: u8) -> int {
    31 * channel / 255
}

/// A five-bit channel scaled up to eight bits, rounding towards zero.
pub open spec fn to_eight_bits(channel: int) -> int {
    255 * channel / 31
}

impl Color {
    /// The colour packed into sixteen bits: five each for red, green and
    /// blue, highest first, and the lowest bit set if the colour is more
    /// than half opaque.
    pub open spec fn packed16(self) -> int {
        to_five_bits(self.r) * 2048 + to_five_bits(self.g) * 64 + to_five_bits(self.b) * 2 + (if self.a
            > 0x80 {
            1int
        } else {
            0int
        })
    }

    /// The colour that sixteen packed bits stand for.
    pub open spec fn unpacked16(s: u16) -> Color {
        Color {
            r: to_eight_bits(((s / 2048) % 32) as int) as u8,
            g: to_eight_bits(((s / 64) % 32) as int) as u8,
            b: to_eight_bits(((s / 2) % 32) as int) as u8,
            a: if s % 2 == 1 {
                0xFF
            } else {
                0x00
            },
        }
    }

    /// The colour packed into thirty-two bits: red, green, blue, opacity,
    /// highest first.
    pub open spec fn packed32(self) -> int {
        self.r * 0x100_0000 + self.g * 0x1_0000 + self.b * 0x100 + self.a
    }

    /// The colour that thirty-two packed bits stand for.
    pub open spec fn unpacked32(s: u32) -> Color {
        Color {
            r: (s / 0x100_0000) as u8,
            g: ((s / 0x1_0000) % 0x100) as u8,
            b: ((s / 0x100) % 0x100) as u8,
            a: (s % 0x100) as u8,
        }
    }

    pub fn into_rgba16(self) -> (s: u16)
        ensures
            s == self.packed16(),
    {
        let r: u16 = (31 * (self.r as u16)) / 255;
        let g: u16 = (31 * (self.g as u16)) / 255;
        let b: u16 = (31 * (self.b as u16)) / 255;
        let opaque: u16 = if self.a > 0x80 {
            1
        } else {
            0
        };
        r * 2048 + g * 64 + b * 2 + opaque
    }

    pub fn from_rgba16(s: u16) -> (c: Color)
        ensures
            c == Self::unpacked16(s),
    {
        let r: u16 = (s / 2048) % 32;
        let g: u16 = (s / 64) % 32;
        let b: u16 = (s / 2) % 32;
        Color {
            r: ((255 * r) / 31) as u8,
            g: ((255 * g) / 31) as u8,
            b: ((255 * b) / 31) as u8,
            a: if s % 2 == 1 {
                0xFF
            } else {
                0x00
            },
        }
    }

    pub fn into_rgba32(self) -> (s: u32)
        ensures
            s == self.packed32(),
    {
        (self.r as u32) * 0x100_0000 + (self.g as u32) * 0x1_0000 + (self.b as u32) * 0x100 + (
        self.a as u32)
    }

    pub fn from_rgba32(s: u32) -> (c: Color)
        ensures
            c == Self::unpacked32(s),
    {
        Color {
            r: (s / 0x100_0000) as u8,
            g: ((s / 0x1_0000) % 0x100) as u8,
            b: ((s / 0x100) % 0x100) as u8,
            a: (s % 0x100) as u8,
        }
    }
}

/// Thirty-two bits hold a colour exactly: packing and unpacking undo each
/// other, both ways round.
pub proof fn lemma_rgba32_roundtrip(c: Color, s: u32)
    ensures
        0 <= c.packed32() <= u32::MAX,
        Color::unpacked32(c.packed32() as u32) == c,
        Color::unpacked32(s).packed32() == s,
{
    let p = c.packed32();
    vstd::arithmetic::div_mod::lemma_fundamental_div_mod_converse(
        p,
        0x100_0000,
        c.r as int,
        c.g * 0x1_0000 + c.b * 0x100 + c.a,
    );
    vstd::arithmetic::div_mod::lemma_fundamental_div_mod_converse(
        p,
        0x1_0000,
        c.r * 0x100 + c.g,
        c.b * 0x100 + c.a,
    );
    vstd::arithmetic::div_mod::lemma_fundamental_div_mod_converse(
        c.r * 0x100 + c.g,
        0x100,
        c.r as int,
        c.g as int,
    );
    vstd::arithmetic::div_mod::lemma_fundamental_div_mod_converse(
        p,
        0x100,
        c.r * 0x1_0000 + c.g * 0x100 + c.b,
        c.a as int,
    );
    vstd::arithmetic::div_mod::lemma_fundamental_div_mod_converse(
        c.r * 0x1_0000 + c.g * 0x100 + c.b,
        0x100,
        c.r * 0x100 + c.g,
        c.b as int,
    );
    let t = s as int;
    assert(t == (t / 0x100) * 0x100 + t % 0x100);
    assert(t / 0x100 == (t / 0x1_0000) * 0x100 + (t / 0x100) % 0x100);
    assert(t / 0x1_0000 == (t / 0x100_0000) * 0x100 + (t / 0x1_0000) % 0x100);
    assert(t / 0x100_0000 < 0x100);
}

/// A list of colours.
#[derive(Debug, PartialEq, Eq)]
pub struct Palette {
    pub colors: Vec<Color>,
}

impl View for Palette {
    type V = Seq<Color>;

    open spec fn view(&self) -> Seq<Color> {
        self.colors@
    }
}

/// The two bytes that a palette stores for a colour: the bits 4 to 7 of
/// the first byte are the bits 8 to 11 of the packed colour, its other
/// bits are zero; the second byte is the low byte of the packed colour.
pub open spec fn stored16(c: Color) -> (u8, u8) {
    ((((c.packed16() / 256) % 16) * 16) as u8, (c.packed16() % 256) as u8)
}

/// Each colour of a list as two stored bytes.
pub open spec fn packed_rgba16(colors: Seq<Color>) -> Seq<u8> {
    Seq::new(
        2 * colors.len(),
        |i: int|
            if i % 2 == 0 {
                stored16(colors[i / 2]).0
            } else {
                stored16(colors[i / 2]).1
            },
    )
}

/// The colours that a list of bytes holds, two bytes each, the high byte
/// first. A byte left over at the end is not read.
pub open spec fn unpacked_rgba16(packed: Seq<u8>) -> Seq<Color> {
    Seq::new(
        packed.len() / 2,
        |i: int| Color::unpacked16((packed[2 * i] * 256 + packed[2 * i + 1]) as u16),
    )
}

/// One channel after the other of each colour: `channels` is 3 for red,
/// green, blue and 4 for those and the opacity.
pub open spec fn interleaved(colors: Seq<Color>, channels: int) -> Seq<u8> {
    Seq::new(
        (channels * colors.len()) as nat,
        |i: int|
            {
                let c = colors[i / channels];
                let k = i % channels;
                if k == 0 {
                    c.r
                } else if k == 1 {
                    c.g
                } else if k == 2 {
                    c.b
                } else {
                    c.a
                }
            },
    )
}

/// The opacity of each colour.
pub open spec fn alphas(colors: Seq<Color>) -> Seq<u8> {
    Seq::new(colors.len(), |i: int| colors[i].a)
}

impl Palette {
    pub fn into_rgba16(self) -> (packed: Vec<u8>)
        ensures
            packed@ == packed_rgba16(self@),
    {
        let mut packed: Vec<u8> = Vec::new();
        let mut i: usize = 0;
        while i < self.colors.len()
            invariant
                i <= self.colors.len(),
                packed@ == packed_rgba16(self.colors@.take(i as int)),
            decreases self.colors.len() - i,
        {
            let short: u16 = self.colors[i].into_rgba16();
            let high: u16 = ((short / 256) % 16) * 16;
            packed.push(high as u8);
            packed.push((short % 256) as u8);
            i += 1;
            assert(packed@ =~= packed_rgba16(self.colors@.take(i as int)));
        }
        assert(self.colors@.take(i as int) =~= self.colors@);
        packed
    }

    pub fn from_rgba16(packed: &[u8]) -> (palette: Palette)
        ensures
            palette@ == unpacked_rgba16(packed@),
    {
        let mut colors: Vec<Color> = Vec::new();
        let mut i: usize = 0;
        let pairs = packed.len() / 2;
        while i < pairs
            invariant
                i <= pairs,
                pairs == packed@.len() / 2,
                2 * pairs <= packed@.len() <= usize::MAX,
                colors@ == unpacked_rgba16(packed@).take(i as int),
            decreases pairs - i,
        {
            let major: u16 = packed[2 * i] as u16;
            let minor: u16 = packed[2 * i + 1] as u16;
            let short: u16 = major * 256 + minor;
            colors.push(Color::from_rgba16(short));
            i += 1;
            assert(colors@ =~= unpacked_rgba16(packed@).take(i as int));
        }
        assert(unpacked_rgba16(packed@).take(i as int) =~= unpacked_rgba16(packed@));
        Palette { colors }
    }

    pub fn rgb(&self) -> (packed: Vec<u8>)
        ensures
            packed@ == interleaved(self@, 3),
    {
        let mut packed: Vec<u8> = Vec::new();
        let mut i: usize = 0;
        while i < self.colors.len()
            invariant
                i <= self.colors.len(),
                packed@ == interleaved(self.colors@.take(i as int), 3),
            decreases self.colors.len() - i,
        {
            let color = self.colors[i];
            packed.push(color.r);
            packed.push(color.g);
            packed.push(color.b);
            i += 1;
            assert(packed@ =~= interleaved(self.colors@.take(i as int), 3));
        }
        assert(self.colors@.take(i as int) =~= self.colors@);
        packed
    }

    pub fn rgba(&self) -> (packed: Vec<u8>)
        ensures
            packed@ == interleaved(self@, 4),
    {
        let mut packed: Vec<u8> = Vec::new();
        let mut i: usize = 0;
        while i < self.colors.len()
            invariant
                i <= self.colors.len(),
                packed@ == interleaved(self.colors@.take(i as int), 4),
            decreases self.colors.len() - i,
        {
            let color = self.colors[i];
            packed.push(color.r);
            packed.push(color.g);
            packed.push(color.b);
            packed.push(color.a);
            i += 1;
            assert(packed@ =~= interleaved(self.colors@.take(i as int), 4));
        }
        assert(self.colors@.take(i as int) =~= self.colors@);
        packed
    }

    pub fn alpha(&self) -> (packed: Vec<u8>)
        ensures
            packed@ == alphas(self@),
    {
        let mut packed: Vec<u8> = Vec::new();
        let mut i: usize = 0;
        while i < self.colors.len()
            invariant
                i <= self.colors.len(),
                packed@ == alphas(self.colors@.take(i as int)),
            decreases self.colors.len() - i,
        {
            packed.push(self.colors[i].a);
            i += 1;
            assert(packed@ =~= alphas(self.colors@.take(i as int)));
        }
        assert(self.colors@.take(i as int) =~= self.colors@);
        packed
    }
}

} // verus!
