//! The table of assets of the ROM: backgrounds, shapes and other data,
//! each stored raw or compressed.

use vstd::prelude::*;
use vstd::slice::{slice_subrange, slice_to_vec};
use crate::color::{unpacked_rgba16, Color, Palette};
use crate::rom::{be16, be32, half_at, half_inside, word_at, word_inside, ReadError, Region, Rom};
use crate::text::chars_of;
use crate::yay0::{decompress, decompressed, MAGIC};

verus! {

/// The number of entries of the table of assets.
pub const ASSET_COUNT: u32 = 1033;

/// The runtime address that the places inside a shape are counted from.
pub const BASE_ADDR: u32 = 0x8021_0000;

/// Where the table of assets stands in the ROM of a region.
pub fn asset_table_addr(region: Region) -> (addr: u32)
    ensures
        addr == (match region {
            Region::Japan => 0x1E0_0020u32,
            Region::America => 0x1E4_0020u32,
            Region::Europe => 0x260_0020u32,
        }),
{
    match region {
        Region::Japan => 0x1E0_0020,
        Region::America => 0x1E4_0020,
        Region::Europe => 0x260_0020,
    }
}

/// The geometry of a map. Nothing of it is kept yet but that its header
/// is sound.
#[derive(Debug, Clone, Copy, PartialEq, Eq, Structural)]
pub struct Shape {}

impl Shape {
    /// What `parse` makes of the bytes of a shape: the header is five
    /// runtime addresses, of which the first four must not lie below the
    /// base address.
    pub open spec fn parsed(data: Seq<u8>) -> Result<Shape, ReadError> {
        if data.len() < 20 {
            Err(ReadError::Eof)
        } else if be32(data, 0) < BASE_ADDR {
            Err(ReadError::BadAddress(be32(data, 0)))
        } else if be32(data, 4) < BASE_ADDR {
            Err(ReadError::BadAddress(be32(data, 4)))
        } else if be32(data, 8) < BASE_ADDR {
            Err(ReadError::BadAddress(be32(data, 8)))
        } else if be32(data, 12) < BASE_ADDR {
            Err(ReadError::BadAddress(be32(data, 12)))
        } else {
            Ok(Shape {  })
        }
    }

    /// Reads the header of a shape.
    pub fn parse(data: &[u8]) -> (r: Result<Shape, ReadError>)
        ensures
            r == Self::parsed(data@),
    {
        if data.len() < 20 {
            return Err(ReadError::Eof);
        }
        let mesh_tree = word_inside(data, 0);
        if mesh_tree < BASE_ADDR {
            return Err(ReadError::BadAddress(mesh_tree));
        }
        let vertex_table = word_inside(data, 4);
        if vertex_table < BASE_ADDR {
            return Err(ReadError::BadAddress(vertex_table));
        }
        let model_names = word_inside(data, 8);
        if model_names < BASE_ADDR {
            return Err(ReadError::BadAddress(model_names));
        }
        let collider_names = word_inside(data, 12);
        if collider_names < BASE_ADDR {
            return Err(ReadError::BadAddress(collider_names));
        }
        Ok(Shape {  })
    }
}

/// What an asset holds.
#[derive(Debug, PartialEq, Eq)]
pub enum AssetData {
    Background { width: u16, height: u16, raster: (u32, Vec<u8>), palette: (u32, Palette) },
    Shape { shape: Shape },
    Unknown { bytes: Vec<u8> },
}

/// An `AssetData` as a mathematical value.
pub enum AssetDataModel {
    Background { width: u16, height: u16, raster: (u32, Seq<u8>), palette: (u32, Seq<Color>) },
    Shape { shape: Shape },
    Unknown { bytes: Seq<u8> },
}

impl View for AssetData {
    type V = AssetDataModel;

    open spec fn view(&self) -> AssetDataModel {
        match self {
            AssetData::Background { width, height, raster, palette } => AssetDataModel::Background {
                width: *width,
                height: *height,
                raster: (raster.0, raster.1@),
                palette: (palette.0, palette.1@),
            },
            AssetData::Shape { shape } => AssetDataModel::Shape { shape: *shape },
            AssetData::Unknown { bytes } => AssetDataModel::Unknown { bytes: bytes@ },
        }
    }
}

/// One entry of the table of assets, with what it leads to.
#[derive(Debug, PartialEq, Eq)]
pub struct Asset {
    pub name: String,
    pub data_offset: u32,
    pub compressed_size: u32,
    pub decompressed_size: u32,
    pub data: AssetData,
}

/// An `Asset` as a mathematical value.
pub struct AssetModel {
    pub name: Seq<char>,
    pub data_offset: u32,
    pub compressed_size: u32,
    pub decompressed_size: u32,
    pub data: AssetDataModel,
}

impl View for Asset {
    type V = AssetModel;

    open spec fn view(&self) -> AssetModel {
        AssetModel {
            name: self.name@,
            data_offset: self.data_offset,
            compressed_size: self.compressed_size,
            decompressed_size: self.decompressed_size,
            data: self.data@,
        }
    }
}

/// The table of assets.
#[derive(Debug, PartialEq, Eq)]
pub struct AssetTable {
    pub assets: Vec<Asset>,
}

/// The model of each asset of a list, in order.
pub open spec fn assets_view(assets: Seq<Asset>) -> Seq<AssetModel> {
    Seq::new(assets.len(), |i: int| assets[i]@)
}

/// The name that stands in the `left` bytes from `at` on: the ASCII
/// characters up to the first zero byte, or all of them. What follows a
/// zero byte is not looked at.
pub open spec fn name_at(bytes: Seq<u8>, at: int, left: nat, terminated: bool) -> Result<
    Seq<char>,
    ReadError,
>
    decreases left,
{
    if left == 0 {
        Ok(Seq::empty())
    } else if at < 0 || at >= bytes.len() {
        Err(ReadError::Eof)
    } else {
        let ended = terminated || bytes[at] == 0;
        if !ended && bytes[at] >= 128 {
            Err(ReadError::BadAscii(bytes[at]))
        } else {
            match name_at(bytes, at + 1, (left - 1) as nat, ended) {
                Err(e) => Err(e),
                Ok(rest) => if ended {
                    Ok(rest)
                } else {
                    Ok(seq![bytes[at] as char] + rest)
                },
            }
        }
    }
}

/// A reading of a name that goes on after the characters `done`.
pub open spec fn after_name(done: Seq<char>, r: Result<Seq<char>, ReadError>) -> Result<
    Seq<char>,
    ReadError,
> {
    match r {
        Ok(rest) => Ok(done + rest),
        Err(e) => Err(e),
    }
}

/// Reads the name that stands in the `len` bytes from `at` on.
pub fn read_name(bytes: &[u8], at: u64, len: u32) -> (r: Result<String, ReadError>)
    requires
        at + len <= u64::MAX,
    ensures
        match name_at(bytes@, at as int, len as nat, false) {
            Ok(name) => r matches Ok(s) && s@ == name,
            Err(e) => r matches Err(f) && f == e,
        },
{
    let mut out = String::new();
    let mut terminated = false;
    let mut i: u32 = 0;
    let n = bytes.len() as u64;
    let ghost whole = name_at(bytes@, at as int, len as nat, false);
    assert(whole == after_name(out@, name_at(bytes@, at + i, (len - i) as nat, terminated))) by {
        match name_at(bytes@, at + i, (len - i) as nat, terminated) {
            Ok(rest) => {
                assert(Seq::<char>::empty() + rest =~= rest);
            },
            Err(e) => {},
        }
    }
    while i < len
        invariant
            i <= len,
            at + len <= u64::MAX,
            n == bytes@.len(),
            whole == name_at(bytes@, at as int, len as nat, false),
            whole == after_name(out@, name_at(bytes@, at + i, (len - i) as nat, terminated)),
        decreases len - i,
    {
        let place: u64 = at + i as u64;
        if place >= n {
            return Err(ReadError::Eof);
        }
        let byte = bytes[place as usize];
        if byte == 0 {
            terminated = true;
        }
        let ghost before = out@;
        if !terminated {
            if byte >= 128 {
                return Err(ReadError::BadAscii(byte));
            }
            out.push(byte as char);
        }
        proof {
            match name_at(bytes@, at + i + 1, (len - i - 1) as nat, terminated) {
                Ok(rest) => {
                    if !terminated {
                        assert(before + (seq![byte as char] + rest) =~= before.push(byte as char)
                            + rest);
                    }
                },
                Err(e) => {},
            }
        }
        i += 1;
    }
    assert(out@ + Seq::<char>::empty() =~= out@);
    Ok(out)
}

/// Whether a text ends with another.
pub open spec fn ends_with(text: Seq<char>, end: Seq<char>) -> bool {
    text.len() >= end.len() && text.subrange(text.len() - end.len(), text.len() as int) == end
}

/// The ending of the names of backgrounds.
pub open spec fn bg_suffix() -> Seq<char> {
    seq!['_', 'b', 'g']
}

/// The ending of the names of shapes.
pub open spec fn shape_suffix() -> Seq<char> {
    seq!['_', 's', 'h', 'a', 'p', 'e']
}

/// Whether a text ends with the characters given.
fn has_suffix(text: &Vec<char>, end: &Vec<char>) -> (b: bool)
    ensures
        b == ends_with(text@, end@),
{
    if text.len() < end.len() {
        return false;
    }
    let start = text.len() - end.len();
    let mut i: usize = 0;
    while i < end.len()
        invariant
            i <= end.len(),
            start + end.len() == text.len(),
            forall|j: int| 0 <= j < i ==> text@[start + j] == end@[j],
        decreases end.len() - i,
    {
        if text[start + i] != end[i] {
            assert(text@.subrange(text@.len() - end@.len(), text@.len() as int)[i as int]
                != end@[i as int]);
            return false;
        }
        i += 1;
    }
    assert(text@.subrange(text@.len() - end@.len(), text@.len() as int) =~= end@);
    true
}

/// The part of `bytes` from `from` on that is `len` long, if it lies
/// inside.
pub open spec fn part(bytes: Seq<u8>, from: int, len: int) -> Result<Seq<u8>, ReadError> {
    if 0 <= from && 0 <= len && from + len <= bytes.len() {
        Ok(bytes.subrange(from, from + len))
    } else {
        Err(ReadError::Eof)
    }
}

fn take_part(bytes: &[u8], from: u64, len: u64) -> (r: Result<Vec<u8>, ReadError>)
    ensures
        match part(bytes@, from as int, len as int) {
            Ok(p) => r matches Ok(v) && v@ == p,
            Err(e) => r matches Err(f) && f == e,
        },
{
    let n = bytes.len() as u64;
    if from > n || len > n - from {
        return Err(ReadError::Eof);
    }
    Ok(slice_to_vec(slice_subrange(bytes, from as usize, (from + len) as usize)))
}

/// A background: a header of sixteen bytes that holds the addresses of
/// the raster and of the palette, counted from 0x80200000, and the width
/// and the height; a raster of one byte for each pixel; and a palette of
/// 256 colours of sixteen bits.
pub open spec fn background(data: Seq<u8>) -> Result<AssetDataModel, ReadError> {
    if data.len() < 16 {
        Err(ReadError::Eof)
    } else {
        let raster_addr = ((be32(data, 0) + 0x7FE0_0000) % 0x1_0000_0000) as u32;
        let palette_addr = ((be32(data, 4) + 0x7FE0_0000) % 0x1_0000_0000) as u32;
        let width = be16(data, 12);
        let height = be16(data, 14);
        match part(data, raster_addr as int, width * height) {
            Err(e) => Err(e),
            Ok(raster) => match part(data, palette_addr as int, 512) {
                Err(e) => Err(e),
                Ok(colors) => Ok(
                    AssetDataModel::Background {
                        width,
                        height,
                        raster: (raster_addr, raster),
                        palette: (palette_addr, unpacked_rgba16(colors)),
                    },
                ),
            },
        }
    }
}

/// What the data of an asset is read as, by the ending of its name.
pub open spec fn classified(name: Seq<char>, data: Seq<u8>) -> Result<AssetDataModel, ReadError> {
    if ends_with(name, bg_suffix()) {
        background(data)
    } else if ends_with(name, shape_suffix()) {
        match Shape::parsed(data) {
            Ok(shape) => Ok(AssetDataModel::Shape { shape }),
            Err(e) => Err(e),
        }
    } else {
        Ok(AssetDataModel::Unknown { bytes: data })
    }
}

fn read_background(data: &[u8]) -> (r: Result<AssetData, ReadError>)
    ensures
        match background(data@) {
            Ok(m) => r matches Ok(d) && d@ == m,
            Err(e) => r matches Err(f) && f == e,
        },
{
    if data.len() < 16 {
        return Err(ReadError::Eof);
    }
    let raster_word = word_inside(data, 0);
    let palette_word = word_inside(data, 4);
    let raster_addr = raster_word.wrapping_add(0x7FE0_0000);
    let palette_addr = palette_word.wrapping_add(0x7FE0_0000);
    let width = half_inside(data, 12);
    let height = half_inside(data, 14);
    assert((width as int) * (height as int) <= 4_294_836_225) by (nonlinear_arith)
        requires
            width <= 65_535,
            height <= 65_535,
    ;
    let raster = match take_part(data, raster_addr as u64, (width as u64) * (height as u64)) {
        Err(e) => {
            return Err(e);
        },
        Ok(v) => v,
    };
    let colors = match take_part(data, palette_addr as u64, 512) {
        Err(e) => {
            return Err(e);
        },
        Ok(v) => v,
    };
    let palette = Palette::from_rgba16(colors.as_slice());
    Ok(
        AssetData::Background {
            width,
            height,
            raster: (raster_addr, raster),
            palette: (palette_addr, palette),
        },
    )
}

/// Reads the data of an asset as what the ending of its name says it is.
pub fn classify(name: &str, data: Vec<u8>) -> (r: Result<AssetData, ReadError>)
    ensures
        match classified(name@, data@) {
            Ok(m) => r matches Ok(d) && d@ == m,
            Err(e) => r matches Err(f) && f == e,
        },
{
    let chars = chars_of(name);
    let bg: Vec<char> = vec!['_', 'b', 'g'];
    let shape: Vec<char> = vec!['_', 's', 'h', 'a', 'p', 'e'];
    assert(bg@ =~= bg_suffix());
    assert(shape@ =~= shape_suffix());
    if has_suffix(&chars, &bg) {
        read_background(data.as_slice())
    } else if has_suffix(&chars, &shape) {
        match Shape::parse(data.as_slice()) {
            Ok(shape) => Ok(AssetData::Shape { shape }),
            Err(e) => Err(e),
        }
    } else {
        Ok(AssetData::Unknown { bytes: data })
    }
}

/// The data that an entry of the table leads to. Data that begins with
/// `Yay0` is compressed: its header must give the size that the entry
/// gives, and as many bytes are taken to be decompressed.
pub open spec fn stored_data(bytes: Seq<u8>, at: int, size: u32) -> Result<Seq<u8>, ReadError> {
    if at < 0 || at + 4 > bytes.len() {
        Err(ReadError::Eof)
    } else if be32(bytes, at) == MAGIC {
        if at + 8 > bytes.len() {
            Err(ReadError::Eof)
        } else if be32(bytes, at + 4) != size {
            Err(ReadError::SizeMismatch(be32(bytes, at + 4), size))
        } else {
            match part(bytes, at, size as int) {
                Err(e) => Err(e),
                Ok(packed) => match decompressed(packed) {
                    Ok(data) => Ok(data),
                    Err(e) => Err(ReadError::Compression(e)),
                },
            }
        }
    } else {
        part(bytes, at, size as int)
    }
}

fn read_stored(bytes: &[u8], at: u64, size: u32) -> (r: Result<Vec<u8>, ReadError>)
    requires
        at <= 2 * u32::MAX,
    ensures
        match stored_data(bytes@, at as int, size) {
            Ok(data) => r matches Ok(v) && v@ == data,
            Err(e) => r matches Err(f) && f == e,
        },
{
    let first = match word_at(bytes, at) {
        Some(w) => w,
        None => {
            return Err(ReadError::Eof);
        },
    };
    if first == MAGIC {
        let stated = match word_at(bytes, at + 4) {
            Some(w) => w,
            None => {
                return Err(ReadError::Eof);
            },
        };
        if stated != size {
            return Err(ReadError::SizeMismatch(stated, size));
        }
        let packed = match take_part(bytes, at, size as u64) {
            Err(e) => {
                return Err(e);
            },
            Ok(v) => v,
        };
        match decompress(packed.as_slice()) {
            Ok(data) => Ok(data),
            Err(e) => Err(ReadError::Compression(e)),
        }
    } else {
        take_part(bytes, at, size as u64)
    }
}

/// The asset whose entry stands at `pos` in the table at `table`: a name
/// of sixteen bytes, the place of the data counted from the table, the
/// size of the data as it is stored, and its size once it is
/// decompressed.
#[verifier::opaque]
pub open spec fn asset_at(bytes: Seq<u8>, table: int, pos: int) -> Result<AssetModel, ReadError> {
    match name_at(bytes, pos, 16, false) {
        Err(e) => Err(e),
        Ok(name) => if pos + 28 > bytes.len() {
            Err(ReadError::Eof)
        } else {
            let data_offset = be32(bytes, pos + 16);
            let compressed_size = be32(bytes, pos + 20);
            let decompressed_size = be32(bytes, pos + 24);
            match stored_data(bytes, table + data_offset, decompressed_size) {
                Err(e) => Err(e),
                Ok(data) => match classified(name, data) {
                    Err(e) => Err(e),
                    Ok(data) => Ok(
                        AssetModel { name, data_offset, compressed_size, decompressed_size, data },
                    ),
                },
            }
        },
    }
}

/// Reads the asset whose entry stands at `pos` in the table at `table`.
pub fn read_asset_at(bytes: &[u8], table: u32, pos: u64) -> (r: Result<Asset, ReadError>)
    requires
        pos <= 2 * u32::MAX,
    ensures
        match asset_at(bytes@, table as int, pos as int) {
            Ok(m) => r matches Ok(a) && a@ == m,
            Err(e) => r matches Err(f) && f == e,
        },
{
    reveal(asset_at);
    let name = match read_name(bytes, pos, 16) {
        Err(e) => {
            return Err(e);
        },
        Ok(n) => n,
    };
    let n = bytes.len() as u64;
    if pos + 28 > n {
        return Err(ReadError::Eof);
    }
    let data_offset = word_inside(bytes, pos + 16);
    let compressed_size = word_inside(bytes, pos + 20);
    let decompressed_size = word_inside(bytes, pos + 24);
    let stored = match read_stored(bytes, table as u64 + data_offset as u64, decompressed_size) {
        Err(e) => {
            return Err(e);
        },
        Ok(v) => v,
    };
    let data = match classify(name.as_str(), stored) {
        Err(e) => {
            return Err(e);
        },
        Ok(d) => d,
    };
    Ok(Asset { name, data_offset, compressed_size, decompressed_size, data })
}

/// The first `count` assets of the table at `table`, 28 bytes an entry;
/// the first that cannot be read is the error.
pub open spec fn assets_at(bytes: Seq<u8>, table: int, count: nat) -> Result<Seq<AssetModel>, ReadError>
    decreases count,
{
    if count == 0 {
        Ok(Seq::empty())
    } else {
        match assets_at(bytes, table, (count - 1) as nat) {
            Err(e) => Err(e),
            Ok(before) => match asset_at(bytes, table, table + 28 * (count - 1)) {
                Err(e) => Err(e),
                Ok(asset) => Ok(before.push(asset)),
            },
        }
    }
}

/// The error of a shorter table is the error of every longer one.
pub proof fn lemma_assets_error(bytes: Seq<u8>, table: int, short: nat, long: nat)
    requires
        short <= long,
        assets_at(bytes, table, short).is_err(),
    ensures
        assets_at(bytes, table, long) == assets_at(bytes, table, short),
    decreases long - short,
{
    if short < long {
        lemma_assets_error(bytes, table, short, (long - 1) as nat);
    }
}

impl AssetTable {
    /// Reads the table of assets of a ROM, with the data of every asset.
    pub fn read(rom: &Rom) -> (r: Result<AssetTable, ReadError>)
        ensures
            ({
                let table = match rom.spec_region() {
                    Region::Japan => 0x1E0_0020int,
                    Region::America => 0x1E4_0020int,
                    Region::Europe => 0x260_0020int,
                };
                match assets_at(rom.bytes(), table, ASSET_COUNT as nat) {
                    Ok(list) => r matches Ok(t) && assets_view(t.assets@) == list,
                    Err(e) => r matches Err(f) && f == e,
                }
            }),
    {
        let table = asset_table_addr(rom.region());
        let bytes = rom.as_bytes();
        let mut assets: Vec<Asset> = Vec::new();
        let mut i: u32 = 0;
        assert(assets_view(assets@) =~= Seq::empty());
        while i < ASSET_COUNT
            invariant
                i <= ASSET_COUNT,
                table <= 0x260_0020,
                table as int == (match rom.spec_region() {
                    Region::Japan => 0x1E0_0020int,
                    Region::America => 0x1E4_0020int,
                    Region::Europe => 0x260_0020int,
                }),
                bytes@ == rom.bytes(),
                assets_at(bytes@, table as int, i as nat) == Ok::<Seq<AssetModel>, ReadError>(
                    assets_view(assets@),
                ),
            decreases ASSET_COUNT - i,
        {
            let ghost before = assets_view(assets@);
            let asset = match read_asset_at(bytes, table, table as u64 + 28 * (i as u64)) {
                Err(e) => {
                    proof {
                        assert(assets_at(bytes@, table as int, (i + 1) as nat) == Err::<
                            Seq<AssetModel>,
                            ReadError,
                        >(e));
                        lemma_assets_error(
                            bytes@,
                            table as int,
                            (i + 1) as nat,
                            ASSET_COUNT as nat,
                        );
                    }
                    return Err(e);
                },
                Ok(a) => a,
            };
            let ghost added = asset@;
            assets.push(asset);
            assert(assets_view(assets@) =~= before.push(added));
            i += 1;
        }
        Ok(AssetTable { assets })
    }

    /// The names of the assets, each on a line of its own.
    pub fn listing(&self) -> (out: String)
        ensures
            out@ == crate::text::joined(
                Seq::new(self.assets@.len(), |i: int| self.assets@[i].name@),
                "\n"@,
            ),
    {
        let mut names: Vec<String> = Vec::new();
        let mut i: usize = 0;
        while i < self.assets.len()
            invariant
                i <= self.assets.len(),
                names@.len() == i,
                forall|j: int| 0 <= j < i ==> names@[j]@ == self.assets@[j].name@,
            decreases self.assets.len() - i,
        {
            names.push(self.assets[i].name.clone());
            i += 1;
        }
        assert(crate::text::strings_view(names@) =~= Seq::new(
            self.assets@.len(),
            |i: int| self.assets@[i].name@,
        ));
        crate::text::join(&names, "\n")
    }
}

} // verus!
