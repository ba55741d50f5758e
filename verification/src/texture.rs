//! Textures as the ROM stores them: a header of 48 bytes, the pixels, and
//! a palette where the format has one.

use vstd::prelude::*;
use crate::assoc::{assoc_index, assoc_put};
use vstd::slice::{slice_subrange, slice_to_vec};
use crate::rom::{be16, half_at, half_inside};

verus! {

/// How the pixels of a texture are stored.
#[derive(Clone, Copy, Debug, Eq, Hash, Ord, PartialEq, PartialOrd, Structural)]
pub enum Format {
    I4,
    I8,
    IA4,
    IA8,
    IA16,
    CI4,
    CI8,
    RGBA16,
    RGBA32,
}

/// What follows the pixels of a texture.
#[derive(Clone, Copy, Debug, Eq, Hash, Ord, PartialEq, PartialOrd, Structural)]
pub enum ExtraData {
    NoExtra,
    Mipmaps,
    Aux,
    AuxPlus,
}

#[derive(Clone, Copy, Debug, Eq, Hash, Ord, PartialEq, PartialOrd, Structural)]
pub enum Filter {
    NoFilter,
    Bilinear,
}

#[derive(Clone, Copy, Debug, Eq, Hash, Ord, PartialEq, PartialOrd, Structural)]
pub enum CombineMode {
    MultiplyColors,
    MultiplyColors_,
    DifferenceAlpha,
    InterpolatedBlend,
}

#[derive(Clone, Copy, Debug, Eq, Hash, Ord, PartialEq, PartialOrd, Structural)]
pub enum Wrap {
    Repeat,
    Mirror,
    Clamp,
}

#[derive(Clone, Copy, Debug, Eq, Hash, Ord, PartialEq, PartialOrd, Structural)]
pub struct Options {
    pub combine_mode: CombineMode,
    pub horizontal_wrap: Wrap,
    pub vertical_wrap: Wrap,
    pub filter: Filter,
}

/// What a pixel holds, as an image file names it.
#[derive(Clone, Copy, Debug, Eq, PartialEq, Structural)]
pub enum ColorKind {
    Grayscale,
    GrayscaleAlpha,
    Indexed,
    Rgba,
}

/// How many bits an image file gives each channel.
#[derive(Clone, Copy, Debug, Eq, PartialEq, Structural)]
pub enum ChannelDepth {
    Four,
    Eight,
}

/// Why bytes are not a texture.
#[derive(Clone, Copy, Debug, Eq, PartialEq, Structural)]
pub enum TextureError {
    /// The bytes end before the texture does.
    Truncated,
    /// A byte of the name is not ASCII.
    BadName(u8),
    IllegalExtraTiles(u16),
    IllegalCombineMode(u8),
    IllegalFormat(u8, u8),
    IllegalWrap(u8),
    IllegalFiltering(u8),
    /// The texture says it has a second image but gives no format for it.
    MissingAuxFormat,
}

impl Format {
    /// The format that the two codes of a header stand for.
    pub open spec fn of(format: u8, bit_depth: u8) -> Option<Format> {
        if format == 4 && bit_depth == 0 {
            Some(Format::I4)
        } else if format == 4 && bit_depth == 1 {
            Some(Format::I8)
        } else if format == 3 && bit_depth == 0 {
            Some(Format::IA4)
        } else if format == 3 && bit_depth == 1 {
            Some(Format::IA8)
        } else if format == 3 && bit_depth == 2 {
            Some(Format::IA16)
        } else if format == 2 && bit_depth == 0 {
            Some(Format::CI4)
        } else if format == 2 && bit_depth == 1 {
            Some(Format::CI8)
        } else if format == 0 && bit_depth == 2 {
            Some(Format::RGBA16)
        } else if format == 0 && bit_depth == 3 {
            Some(Format::RGBA32)
        } else {
            None
        }
    }

    /// Reads the two codes of a header as a format.
    pub fn try_from(codes: (u8, u8)) -> (f: Option<Format>)
        ensures
            f == Self::of(codes.0, codes.1),
    {
        match codes {
            (4, 0) => Some(Format::I4),
            (4, 1) => Some(Format::I8),
            (3, 0) => Some(Format::IA4),
            (3, 1) => Some(Format::IA8),
            (3, 2) => Some(Format::IA16),
            (2, 0) => Some(Format::CI4),
            (2, 1) => Some(Format::CI8),
            (0, 2) => Some(Format::RGBA16),
            (0, 3) => Some(Format::RGBA32),
            _ => None,
        }
    }

    /// The number of bytes that an image of the given size takes: half a
    /// byte, one, two or four bytes for each pixel.
    pub open spec fn data_bytes(self, width: u16, height: u16) -> int {
        let pixels = width * height;
        match self {
            Format::I4 | Format::IA4 | Format::CI4 => pixels / 2,
            Format::I8 | Format::IA8 | Format::CI8 => pixels,
            Format::IA16 | Format::RGBA16 => pixels * 2,
            Format::RGBA32 => pixels * 4,
        }
    }

    /// The number of bytes that the palette of the format takes.
    pub open spec fn palette_bytes(self) -> int {
        match self {
            Format::CI4 => 32,
            Format::CI8 => 512,
            _ => 0,
        }
    }

    pub fn data_size(&self, width: u16, height: u16) -> (size: u64)
        ensures
            size == self.data_bytes(width, height),
            size <= 4 * ((width as int) * (height as int)),
            size <= 17_179_344_900,
    {
        assert((width as int) * (height as int) <= 4_294_836_225) by (nonlinear_arith)
            requires
                width <= 65_535,
                height <= 65_535,
        ;
        let pixels: u64 = (width as u64) * (height as u64);
        match self {
            Format::I4 | Format::IA4 | Format::CI4 => pixels / 2,
            Format::I8 | Format::IA8 | Format::CI8 => pixels,
            Format::IA16 | Format::RGBA16 => pixels * 2,
            Format::RGBA32 => pixels * 4,
        }
    }

    pub fn palette_size(&self) -> (size: usize)
        ensures
            size == self.palette_bytes(),
    {
        match self {
            Format::CI4 => 32,
            Format::CI8 => 512,
            _ => 0,
        }
    }

    /// What a pixel of the format holds.
    pub fn color_type(&self) -> (kind: ColorKind)
        ensures
            kind == (match self {
                Format::I4 | Format::I8 => ColorKind::Grayscale,
                Format::IA4 | Format::IA8 | Format::IA16 => ColorKind::GrayscaleAlpha,
                Format::CI4 | Format::CI8 => ColorKind::Indexed,
                Format::RGBA16 | Format::RGBA32 => ColorKind::Rgba,
            }),
    {
        match self {
            Format::I4 | Format::I8 => ColorKind::Grayscale,
            Format::IA4 | Format::IA8 | Format::IA16 => ColorKind::GrayscaleAlpha,
            Format::CI4 | Format::CI8 => ColorKind::Indexed,
            Format::RGBA16 | Format::RGBA32 => ColorKind::Rgba,
        }
    }

    /// How many bits an image file gives each channel of the format.
    pub fn bit_depth(&self) -> (depth: ChannelDepth)
        ensures
            depth == (match self {
                Format::I4 | Format::CI4 => ChannelDepth::Four,
                _ => ChannelDepth::Eight,
            }),
    {
        match self {
            Format::I4 | Format::CI4 => ChannelDepth::Four,
            _ => ChannelDepth::Eight,
        }
    }

    /// The number of bits of each channel that carry information.
    pub open spec fn significant_bits(self) -> Seq<u8> {
        match self {
            Format::I4 => seq![4u8],
            Format::I8 => seq![8u8],
            Format::IA4 => seq![3u8, 1u8],
            Format::IA8 => seq![4u8, 4u8],
            Format::IA16 => seq![8u8, 8u8],
            Format::CI4 | Format::CI8 => seq![5u8, 5u8, 5u8],
            Format::RGBA16 => seq![5u8, 5u8, 5u8, 1u8],
            Format::RGBA32 => seq![8u8, 8u8, 8u8, 8u8],
        }
    }

    pub fn sig_bits(&self) -> (bits: Vec<u8>)
        ensures
            bits@ == self.significant_bits(),
    {
        let bits = match self {
            Format::I4 => vec![4u8],
            Format::I8 => vec![8u8],
            Format::IA4 => vec![3u8, 1u8],
            Format::IA8 => vec![4u8, 4u8],
            Format::IA16 => vec![8u8, 8u8],
            Format::CI4 | Format::CI8 => vec![5u8, 5u8, 5u8],
            Format::RGBA16 => vec![5u8, 5u8, 5u8, 1u8],
            Format::RGBA32 => vec![8u8, 8u8, 8u8, 8u8],
        };
        assert(bits@ =~= self.significant_bits());
        bits
    }
}

/// A texture: how it is to be drawn, and its pixels as they are stored.
#[derive(Debug, Eq, PartialEq)]
pub struct Texture {
    pub options: Options,
    pub format: Format,
    pub width: u16,
    pub height: u16,
    pub data: Vec<u8>,
    pub palette: Vec<u8>,
}

/// A `Texture` as a mathematical value.
pub struct TextureModel {
    pub options: Options,
    pub format: Format,
    pub width: u16,
    pub height: u16,
    pub data: Seq<u8>,
    pub palette: Seq<u8>,
}

impl View for Texture {
    type V = TextureModel;

    open spec fn view(&self) -> TextureModel {
        TextureModel {
            options: self.options,
            format: self.format,
            width: self.width,
            height: self.height,
            data: self.data@,
            palette: self.palette@,
        }
    }
}

/// What a header says follows the pixels.
pub open spec fn extra_of(code: u16) -> Option<ExtraData> {
    if code == 0 {
        Some(ExtraData::NoExtra)
    } else if code == 1 {
        Some(ExtraData::Mipmaps)
    } else if code == 2 {
        Some(ExtraData::Aux)
    } else if code == 3 {
        Some(ExtraData::AuxPlus)
    } else {
        None
    }
}

pub open spec fn combine_of(code: u8) -> Option<CombineMode> {
    if code == 0x00 {
        Some(CombineMode::MultiplyColors)
    } else if code == 0x08 {
        Some(CombineMode::MultiplyColors_)
    } else if code == 0x0d {
        Some(CombineMode::DifferenceAlpha)
    } else if code == 0x10 {
        Some(CombineMode::InterpolatedBlend)
    } else {
        None
    }
}

pub open spec fn wrap_of(code: u8) -> Option<Wrap> {
    if code == 0 {
        Some(Wrap::Repeat)
    } else if code == 1 {
        Some(Wrap::Mirror)
    } else if code == 2 {
        Some(Wrap::Clamp)
    } else {
        None
    }
}

pub open spec fn filter_of(code: u8) -> Option<Filter> {
    if code == 0 {
        Some(Filter::NoFilter)
    } else if code == 2 {
        Some(Filter::Bilinear)
    } else {
        None
    }
}

/// The bytes that the smaller copies of an image take, each half as wide
/// and half as high as the one before, down to the last that has sixteen
/// bytes in two rows.
pub open spec fn mipmap_bytes(format: Format, width: u16, height: u16) -> int
    decreases width,
{
    if width > 0 && format.data_bytes(width, 2) >= 16 {
        format.data_bytes(width, height) + mipmap_bytes(format, width / 2, height / 2)
    } else {
        0
    }
}

/// Whether every byte is ASCII.
pub open spec fn all_ascii(bytes: Seq<u8>) -> bool {
    forall|i: int| 0 <= i < bytes.len() ==> bytes[i] < 128
}

/// The first byte that is not ASCII.
pub open spec fn first_non_ascii(bytes: Seq<u8>) -> u8
    decreases bytes.len(),
{
    if bytes.len() == 0 {
        0
    } else if bytes[0] >= 128 {
        bytes[0]
    } else {
        first_non_ascii(bytes.skip(1))
    }
}

/// What a header is read as: the name, the options, the format, the size
/// of the image, where the palette begins and where the texture ends.
pub struct HeaderModel {
    pub name: Seq<u8>,
    pub options: Options,
    pub format: Format,
    pub width: u16,
    pub height: u16,
    pub palette_offset: int,
    pub end: int,
}

/// The header at the start of `data`. The name is 32 bytes of ASCII.
/// Then come, as big-endian 16-bit words, the width of the second image,
/// the width, the height of the second image, the height, and what
/// follows the pixels; then, a byte each, the way colours combine, the
/// formats and the bit depths of the two images (the first in the low
/// half of each byte), the two ways to wrap, and the filter. A texture
/// with a second image of the same format has half the height that the
/// header gives.
pub open spec fn header(data: Seq<u8>) -> Result<HeaderModel, TextureError> {
    if data.len() < 48 {
        Err(TextureError::Truncated)
    } else if !all_ascii(data.subrange(0, 32)) {
        Err(TextureError::BadName(first_non_ascii(data.subrange(0, 32))))
    } else {
        match extra_of(be16(data, 40)) {
            None => Err(TextureError::IllegalExtraTiles(be16(data, 40))),
            Some(extra) => match combine_of(data[42]) {
                None => Err(TextureError::IllegalCombineMode(data[42])),
                Some(combine_mode) => match Format::of(data[43] % 16, data[44] % 16) {
                    None => Err(TextureError::IllegalFormat(data[43] % 16, data[44] % 16)),
                    Some(format) => match wrap_of(data[45] % 16) {
                        None => Err(TextureError::IllegalWrap(data[45] % 16)),
                        Some(horizontal_wrap) => match wrap_of(data[46] % 16) {
                            None => Err(TextureError::IllegalWrap(data[46] % 16)),
                            Some(vertical_wrap) => match filter_of(data[47]) {
                                None => Err(TextureError::IllegalFiltering(data[47])),
                                Some(filter) => {
                                    let width = be16(data, 34);
                                    let height = if extra == ExtraData::Aux {
                                        be16(data, 38) / 2
                                    } else {
                                        be16(data, 38)
                                    };
                                    let size = format.data_bytes(width, height);
                                    let options = Options {
                                        combine_mode,
                                        horizontal_wrap,
                                        vertical_wrap,
                                        filter,
                                    };
                                    layout(
                                        data,
                                        extra,
                                        HeaderModel {
                                            name: data.subrange(0, 32),
                                            options,
                                            format,
                                            width,
                                            height,
                                            palette_offset: 48 + size,
                                            end: 48 + size + format.palette_bytes(),
                                        },
                                    )
                                },
                            },
                        },
                    },
                },
            },
        }
    }
}

/// Where the palette begins and the texture ends, by what follows the
/// pixels: nothing; the smaller copies of the image; a second image of
/// the same format; or, behind the palette, a second image with a format
/// and a palette of its own. `plain` is the header as it would be with
/// nothing after the pixels.
pub open spec fn layout(data: Seq<u8>, extra: ExtraData, plain: HeaderModel) -> Result<
    HeaderModel,
    TextureError,
> {
    let size = plain.format.data_bytes(plain.width, plain.height);
    let palette = plain.format.palette_bytes();
    match extra {
        ExtraData::NoExtra => Ok(plain),
        ExtraData::Mipmaps => {
            let more = mipmap_bytes(plain.format, plain.width / 2, plain.height / 2);
            Ok(
                HeaderModel {
                    palette_offset: 48 + size + more,
                    end: 48 + size + more + palette,
                    ..plain
                },
            )
        },
        ExtraData::Aux => Ok(
            HeaderModel { palette_offset: 48 + 2 * size, end: 48 + 2 * size + palette, ..plain },
        ),
        ExtraData::AuxPlus => match Format::of(data[43] / 16, data[44] / 16) {
            None => Err(TextureError::MissingAuxFormat),
            Some(aux) => Ok(
                HeaderModel {
                    end: 48 + size + palette + aux.data_bytes(be16(data, 32), be16(data, 36))
                        + aux.palette_bytes(),
                    ..plain
                },
            ),
        },
    }
}

/// The texture at the start of `data`, with its name and the number of
/// bytes that it takes. The pixels follow the header; the palette stands
/// where the header says. Both must lie inside `data`.
pub open spec fn texture_at(data: Seq<u8>) -> Result<(Seq<u8>, TextureModel, int), TextureError> {
    match header(data) {
        Err(e) => Err(e),
        Ok(h) => {
            let size = h.format.data_bytes(h.width, h.height);
            let palette = h.format.palette_bytes();
            if 48 + size > data.len() || h.palette_offset + palette > data.len() {
                Err(TextureError::Truncated)
            } else {
                Ok(
                    (
                        h.name,
                        TextureModel {
                            options: h.options,
                            format: h.format,
                            width: h.width,
                            height: h.height,
                            data: data.subrange(48, 48 + size),
                            palette: data.subrange(h.palette_offset, h.palette_offset + palette),
                        },
                        h.end,
                    ),
                )
            }
        },
    }
}

/// What was read of a header.
struct Header {
    name: Vec<u8>,
    options: Options,
    format: Format,
    width: u16,
    height: u16,
    palette_offset: u64,
    end: u64,
}

impl View for Header {
    type V = HeaderModel;

    closed spec fn view(&self) -> HeaderModel {
        HeaderModel {
            name: self.name@,
            options: self.options,
            format: self.format,
            width: self.width,
            height: self.height,
            palette_offset: self.palette_offset as int,
            end: self.end as int,
        }
    }
}

/// The first 32 bytes as a name, if they are ASCII.
fn read_name(data: &[u8]) -> (r: Result<Vec<u8>, TextureError>)
    requires
        data@.len() >= 32,
    ensures
        all_ascii(data@.subrange(0, 32)) ==> (r matches Ok(name) && name@ == data@.subrange(0, 32)),
        !all_ascii(data@.subrange(0, 32)) ==> (r matches Err(e) && e == TextureError::BadName(
            first_non_ascii(data@.subrange(0, 32)),
        )),
{
    let mut name: Vec<u8> = Vec::new();
    let ghost raw = data@.subrange(0, 32);
    let mut i: usize = 0;
    assert(raw.skip(0) =~= raw);
    while i < 32
        invariant
            i <= 32,
            data@.len() >= 32,
            raw == data@.subrange(0, 32),
            name@ == raw.take(i as int),
            forall|j: int| 0 <= j < i ==> raw[j] < 128,
            first_non_ascii(raw) == first_non_ascii(raw.skip(i as int)),
        decreases 32 - i,
    {
        let byte = data[i];
        assert(raw.skip(i as int)[0] == byte);
        assert(raw.skip(i as int).skip(1) =~= raw.skip(i + 1));
        if byte >= 128 {
            assert(raw[i as int] >= 128);
            return Err(TextureError::BadName(byte));
        }
        name.push(byte);
        i += 1;
        assert(name@ =~= raw.take(i as int));
    }
    assert(raw.take(32) =~= raw);
    Ok(name)
}

/// The bytes that the smaller copies of an image take.
fn mipmap_size(format: Format, width: u16, height: u16) -> (size: u64)
    ensures
        size == mipmap_bytes(format, width, height),
        size <= 524_280 * 65_535,
{
    let mut w: u16 = width;
    let mut h: u16 = height;
    let mut len: u64 = 0;
    while w > 0 && format.data_size(w, 2) >= 16
        invariant
            len + mipmap_bytes(format, w, h) == mipmap_bytes(format, width, height),
            len as int + 524_280 * (w as int) <= 524_280 * (width as int),
        decreases w,
    {
        assert((w as int) * (h as int) <= (w as int) * 65_535) by (nonlinear_arith)
            requires
                h <= 65_535,
                w >= 0,
        ;
        let size = format.data_size(w, h);
        assert(size as int <= 4 * ((w as int) * (h as int)));
        assert(size as int <= 262_140 * (w as int));
        len += size;
        w = w / 2;
        h = h / 2;
    }
    len
}

/// Reads the header at the start of `data`.
fn read_header(data: &[u8]) -> (r: Result<Header, TextureError>)
    ensures
        match header(data@) {
            Ok(h) => r matches Ok(read) && read@ == h && read.end <= 0x1000_0000_0000
                && read.palette_offset <= 0x1000_0000_0000,
            Err(e) => r matches Err(f) && f == e,
        },
{
    if data.len() < 48 {
        return Err(TextureError::Truncated);
    }
    let name = match read_name(data) {
        Err(e) => {
            return Err(e);
        },
        Ok(n) => n,
    };
    let width = half_inside(data, 34);
    let full_height = half_inside(data, 38);
    let aux_width = half_inside(data, 32);
    let aux_height = half_inside(data, 36);
    let extra_code = half_inside(data, 40);
    let extra = match extra_code {
        0 => ExtraData::NoExtra,
        1 => ExtraData::Mipmaps,
        2 => ExtraData::Aux,
        3 => ExtraData::AuxPlus,
        _ => {
            return Err(TextureError::IllegalExtraTiles(extra_code));
        },
    };
    let combine_mode = match data[42] {
        0x00 => CombineMode::MultiplyColors,
        0x08 => CombineMode::MultiplyColors_,
        0x0d => CombineMode::DifferenceAlpha,
        0x10 => CombineMode::InterpolatedBlend,
        _ => {
            return Err(TextureError::IllegalCombineMode(data[42]));
        },
    };
    let format = match Format::try_from((data[43] % 16, data[44] % 16)) {
        Some(f) => f,
        None => {
            return Err(TextureError::IllegalFormat(data[43] % 16, data[44] % 16));
        },
    };
    let horizontal_wrap = match data[45] % 16 {
        0 => Wrap::Repeat,
        1 => Wrap::Mirror,
        2 => Wrap::Clamp,
        _ => {
            return Err(TextureError::IllegalWrap(data[45] % 16));
        },
    };
    let vertical_wrap = match data[46] % 16 {
        0 => Wrap::Repeat,
        1 => Wrap::Mirror,
        2 => Wrap::Clamp,
        _ => {
            return Err(TextureError::IllegalWrap(data[46] % 16));
        },
    };
    let filter = match data[47] {
        0 => Filter::NoFilter,
        2 => Filter::Bilinear,
        _ => {
            return Err(TextureError::IllegalFiltering(data[47]));
        },
    };
    let height: u16 = match extra {
        ExtraData::Aux => full_height / 2,
        _ => full_height,
    };
    let size = format.data_size(width, height);
    let palette = format.palette_size() as u64;
    let options = Options { combine_mode, horizontal_wrap, vertical_wrap, filter };
    let (palette_offset, end): (u64, u64) = match extra {
        ExtraData::NoExtra => (48 + size, 48 + size + palette),
        ExtraData::Mipmaps => {
            let more = mipmap_size(format, width / 2, height / 2);
            (48 + size + more, 48 + size + more + palette)
        },
        ExtraData::Aux => (48 + 2 * size, 48 + 2 * size + palette),
        ExtraData::AuxPlus => {
            let aux = match Format::try_from((data[43] / 16, data[44] / 16)) {
                Some(f) => f,
                None => {
                    return Err(TextureError::MissingAuxFormat);
                },
            };
            (
                48 + size,
                48 + size + palette + aux.data_size(aux_width, aux_height)
                    + aux.palette_size() as u64,
            )
        },
    };
    Ok(Header { name, options, format, width, height, palette_offset, end })
}

impl Texture {
    /// Reads the texture at the start of `data`. Returns its name, the
    /// texture, and the number of bytes that it takes.
    pub fn decode(data: &[u8]) -> (r: Result<(Vec<u8>, Texture, u64), TextureError>)
        ensures
            match texture_at(data@) {
                Ok((name, texture, end)) => r matches Ok(read) && read.0@ == name && read.1@
                    == texture && read.2 == end,
                Err(e) => r matches Err(f) && f == e,
            },
    {
        let header = match read_header(data) {
            Err(e) => {
                return Err(e);
            },
            Ok(h) => h,
        };
        let n = data.len() as u64;
        let size = header.format.data_size(header.width, header.height);
        let palette = header.format.palette_size() as u64;
        if 48 + size > n || header.palette_offset + palette > n {
            return Err(TextureError::Truncated);
        }
        let pixels = slice_to_vec(slice_subrange(data, 48, (48 + size) as usize));
        let colors = slice_to_vec(
            slice_subrange(
                data,
                header.palette_offset as usize,
                (header.palette_offset + palette) as usize,
            ),
        );
        Ok(
            (
                header.name,
                Texture {
                    options: header.options,
                    format: header.format,
                    width: header.width,
                    height: header.height,
                    data: pixels,
                    palette: colors,
                },
                header.end,
            ),
        )
    }
}

/// The model of a list of named textures.
pub open spec fn named_view(list: Seq<(Vec<u8>, Texture)>) -> Seq<(Seq<u8>, TextureModel)> {
    Seq::new(list.len(), |i: int| (list[i].0@, list[i].1@))
}

/// The textures of an archive, one after the other, added to those in
/// `found`. A texture with the name of an earlier one takes its place.
pub open spec fn archive_from(data: Seq<u8>, found: Seq<(Seq<u8>, TextureModel)>) -> Result<
    Seq<(Seq<u8>, TextureModel)>,
    TextureError,
>
    decreases data.len(),
{
    if data.len() == 0 {
        Ok(found)
    } else {
        match texture_at(data) {
            Err(e) => Err(e),
            Ok((name, texture, end)) => if end > data.len() || end <= 0 {
                Err(TextureError::Truncated)
            } else {
                archive_from(data.skip(end), assoc_put(found, name, texture))
            },
        }
    }
}

/// Where the texture with a name stands in a list.
fn find_named(list: &Vec<(Vec<u8>, Texture)>, name: &Vec<u8>) -> (r: Option<usize>)
    ensures
        match r {
            Some(i) => i < list.len() && assoc_index(named_view(list@), name@) == Some(i as int),
            None => assoc_index(named_view(list@), name@).is_none(),
        },
{
    let mut i: usize = list.len();
    let ghost whole = named_view(list@);
    assert(whole.take(i as int) =~= whole);
    while i > 0
        invariant
            i <= list.len(),
            whole == named_view(list@),
            assoc_index(whole, name@) == assoc_index(whole.take(i as int), name@),
        decreases i,
    {
        i -= 1;
        let ghost part = whole.take(i + 1);
        assert(part.last() == whole[i as int]);
        assert(part.drop_last() =~= whole.take(i as int));
        if same_bytes(&list[i].0, name) {
            return Some(i);
        }
    }
    None
}

/// Whether two lists hold the same bytes.
fn same_bytes(a: &Vec<u8>, b: &Vec<u8>) -> (r: bool)
    ensures
        r == (a@ == b@),
{
    if a.len() != b.len() {
        return false;
    }
    let mut i: usize = 0;
    while i < a.len()
        invariant
            i <= a.len(),
            a.len() == b.len(),
            forall|j: int| 0 <= j < i ==> a@[j] == b@[j],
        decreases a.len() - i,
    {
        if a[i] != b[i] {
            return false;
        }
        i += 1;
    }
    assert(a@ =~= b@);
    true
}

/// Reads an archive of textures: one texture after the other, to the end
/// of the data. Returns the textures by name, in the order in which the
/// names first stand in the archive.
pub fn decode_archive(data: &[u8]) -> (r: Result<Vec<(Vec<u8>, Texture)>, TextureError>)
    ensures
        match archive_from(data@, Seq::empty()) {
            Ok(found) => r matches Ok(list) && named_view(list@) == found,
            Err(e) => r matches Err(f) && f == e,
        },
{
    let mut list: Vec<(Vec<u8>, Texture)> = Vec::new();
    let mut at: usize = 0;
    let n = data.len();
    assert(data@.skip(0) =~= data@);
    assert(named_view(list@) =~= Seq::empty());
    while at < n
        invariant
            at <= n,
            n == data@.len(),
            archive_from(data@, Seq::empty()) == archive_from(
                data@.skip(at as int),
                named_view(list@),
            ),
        decreases n - at,
    {
        let rest = slice_subrange(data, at, n);
        assert(rest@ =~= data@.skip(at as int));
        let (name, texture, length) = match Texture::decode(rest) {
            Err(e) => {
                return Err(e);
            },
            Ok(read) => read,
        };
        if length > (n - at) as u64 || length == 0 {
            return Err(TextureError::Truncated);
        }
        let ghost before = named_view(list@);
        let ghost entry = (name@, texture@);
        match find_named(&list, &name) {
            Some(i) => {
                list.push((name, texture));
                let _ = list.swap_remove(i);
                assert(named_view(list@) =~= assoc_put(before, entry.0, entry.1));
            },
            None => {
                list.push((name, texture));
                assert(named_view(list@) =~= assoc_put(before, entry.0, entry.1));
            },
        }
        assert(rest@.skip(length as int) =~= data@.skip(at + length));
        at = at + length as usize;
    }
    assert(data@.skip(at as int).len() == 0);
    Ok(list)
}

/// One byte that holds two pixels of three bits of brightness and one
/// bit of opacity each, as four bytes: brightness and opacity of the
/// first pixel, then of the second, each scaled to eight bits.
pub open spec fn ia4_pixels(byte: u8) -> Seq<u8> {
    seq![
        ((byte / 32) * 255 / 7) as u8,
        (((byte / 16) % 2) * 255) as u8,
        (((byte / 2) % 8) * 255 / 7) as u8,
        ((byte % 2) * 255) as u8,
    ]
}

/// One byte that holds a pixel of four bits of brightness and four bits
/// of opacity, as two bytes, each scaled to eight bits.
pub open spec fn ia8_pixel(byte: u8) -> Seq<u8> {
    seq![((byte / 16) * 17) as u8, ((byte % 16) * 17) as u8]
}

/// Two bytes that hold a pixel of five bits each of red, green and blue
/// and one bit of opacity, as four bytes.
pub open spec fn rgba16_pixel(high: u8, low: u8) -> Seq<u8> {
    let c = crate::color::Color::unpacked16((high * 256 + low) as u16);
    seq![c.r, c.g, c.b, c.a]
}

/// The first `n` pixels of a row as an image file holds them. Most
/// formats are stored as they are; those with fewer than eight bits to a
/// channel of a pixel with opacity are widened to eight.
pub open spec fn row_pixels(format: Format, row: Seq<u8>, n: nat) -> Seq<u8>
    decreases n,
{
    if n == 0 {
        Seq::empty()
    } else {
        let before = row_pixels(format, row, (n - 1) as nat);
        match format {
            Format::IA4 => if n <= row.len() {
                before + ia4_pixels(row[n - 1])
            } else {
                before
            },
            Format::IA8 => if n <= row.len() {
                before + ia8_pixel(row[n - 1])
            } else {
                before
            },
            Format::RGBA16 => if 2 * n <= row.len() {
                before + rgba16_pixel(row[2 * n - 2], row[2 * n - 1])
            } else {
                before
            },
            _ => if n <= row.len() {
                before.push(row[n - 1])
            } else {
                before
            },
        }
    }
}

/// A whole row as an image file holds it.
pub open spec fn row_image(format: Format, row: Seq<u8>) -> Seq<u8> {
    row_pixels(format, row, row.len())
}

/// The number of rows of `len` bytes: the last row may be shorter than
/// `size`.
pub open spec fn row_count(len: int, size: int) -> int {
    (len + size - 1) / size
}

/// The row at place `j` of an image.
pub open spec fn row_at(data: Seq<u8>, size: int, j: int) -> Seq<u8> {
    data.subrange(
        j * size,
        if (j + 1) * size <= data.len() {
            (j + 1) * size
        } else {
            data.len() as int
        },
    )
}

/// The rows below place `j`, from the highest to the first, each as an
/// image file holds it.
pub open spec fn rows_down(format: Format, data: Seq<u8>, size: int, j: int) -> Seq<u8>
    decreases j,
{
    if j <= 0 {
        Seq::empty()
    } else {
        row_image(format, row_at(data, size, j - 1)) + rows_down(format, data, size, j - 1)
    }
}

/// The rows of an image in the opposite order, each as an image file
/// holds it. A row is `size` bytes; the last may be shorter.
pub open spec fn rows_image(format: Format, data: Seq<u8>, size: int) -> Seq<u8> {
    if size <= 0 {
        Seq::empty()
    } else {
        rows_down(format, data, size, row_count(data.len() as int, size))
    }
}

fn push_row(out: &mut Vec<u8>, format: Format, row: &[u8])
    ensures
        final(out)@ == old(out)@ + row_image(format, row@),
{
    let ghost start = out@;
    let mut i: usize = 0;
    assert(out@ =~= start + row_pixels(format, row@, 0));
    while i < row.len()
        invariant
            i <= row.len(),
            out@ == start + row_pixels(format, row@, i as nat),
        decreases row.len() - i,
    {
        let ghost before = row_pixels(format, row@, i as nat);
        match format {
            Format::IA4 => {
                let b = row[i];
                out.push((((b / 32) as u16) * 255 / 7) as u8);
                out.push(((b / 16) % 2) * 255);
                out.push(((((b / 2) % 8) as u16) * 255 / 7) as u8);
                out.push((b % 2) * 255);
                assert(out@ =~= start + (before + ia4_pixels(b)));
            },
            Format::IA8 => {
                let b = row[i];
                out.push((b / 16) * 17);
                out.push((b % 16) * 17);
                assert(out@ =~= start + (before + ia8_pixel(b)));
            },
            Format::RGBA16 => {
                if i < row.len() / 2 {
                    let high = row[2 * i];
                    let low = row[2 * i + 1];
                    let c = crate::color::Color::from_rgba16((high as u16) * 256 + low as u16);
                    out.push(c.r);
                    out.push(c.g);
                    out.push(c.b);
                    out.push(c.a);
                    assert(out@ =~= start + (before + rgba16_pixel(high, low)));
                }
            },
            _ => {
                out.push(row[i]);
                assert(out@ =~= start + before.push(row@[i as int]));
            },
        }
        i += 1;
    }
}

impl Texture {
    /// The bytes of a row of the image.
    pub fn row_size(&self) -> (size: u64)
        ensures
            size == self.format.data_bytes(self.width, 1),
    {
        self.format.data_size(self.width, 1)
    }

    /// The pixels as an image file holds them: the rows from the last to
    /// the first, widened to eight bits a channel where the format has
    /// fewer.
    pub fn image_data(&self) -> (out: Vec<u8>)
        ensures
            out@ == rows_image(self.format, self.data@, self.format.data_bytes(self.width, 1)),
    {
        let mut out: Vec<u8> = Vec::new();
        let size = self.row_size();
        let n = self.data.len() as u64;
        if size == 0 {
            return out;
        }
        if n == 0 {
            assert(row_count(0, size as int) == 0) by (nonlinear_arith)
                requires
                    size > 0,
            ;
            return out;
        }
        let rows: u64 = (n - 1) / size + 1;
        assert(rows == row_count(n as int, size as int)) by (nonlinear_arith)
            requires
                rows == (n - 1) / (size as int) + 1,
                size > 0,
                n > 0,
        ;
        assert((rows - 1) * size < n && rows * size >= n) by (nonlinear_arith)
            requires
                rows == (n - 1) / (size as int) + 1,
                size > 0,
                n > 0,
        ;
        let mut j: u64 = rows;
        let ghost whole = rows_down(self.format, self.data@, size as int, rows as int);
        while j > 0
            invariant
                j <= rows,
                n == self.data@.len(),
                n == self.data.len(),
                size > 0,
                (rows - 1) * size < n,
                whole == rows_down(self.format, self.data@, size as int, rows as int),
                out@ + rows_down(self.format, self.data@, size as int, j as int) == whole,
            decreases j,
        {
            j -= 1;
            assert(j * size <= (rows - 1) * size) by (nonlinear_arith)
                requires
                    j <= rows - 1,
                    size > 0,
            ;
            let start: u64 = j * size;
            let end: u64 = if n - start >= size {
                start + size
            } else {
                n
            };
            assert((j + 1) * size == j * size + size) by (nonlinear_arith);
            let ghost before = out@;
            let ghost row = row_at(self.data@, size as int, j as int);
            assert(start < n && start <= end <= n);
            let part = slice_subrange(self.data.as_slice(), start as usize, end as usize);
            assert(part@ =~= row);
            push_row(&mut out, self.format, part);
            assert(out@ + rows_down(self.format, self.data@, size as int, j as int) =~= before + (
            row_image(self.format, row) + rows_down(self.format, self.data@, size as int, j as int)));
        }
        assert(out@ + Seq::<u8>::empty() =~= out@);
        out
    }
}

} // verus!
