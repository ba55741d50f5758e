use ztar_rod::asset::{asset_table_addr, classify, read_asset_at, read_name, AssetData, Shape};
use ztar_rod::color::{Color, Palette};
use ztar_rod::rom::{read_u16, read_u32, ReadError, Region, Rom, RomError, Pointer};
use ztar_rod::texture::{
    decode_archive, ChannelDepth, ColorKind, CombineMode, Filter, Format, Options, Texture,
    TextureError, Wrap,
};
use ztar_rod::yay0::{decompress, Yay0Error};

#[test]
fn colours_pack_into_thirty_two_bits() {
    let c = Color { r: 0x12, g: 0x34, b: 0x56, a: 0x78 };
    assert_eq!(c.into_rgba32(), 0x1234_5678);
    assert_eq!(Color::from_rgba32(0x1234_5678), c);
    assert_eq!(Color::from_rgba32(0xFFFF_FFFF), Color { r: 255, g: 255, b: 255, a: 255 });
    assert_eq!(Color::from_rgba32(0), Color { r: 0, g: 0, b: 0, a: 0 });
}

#[test]
fn colours_pack_into_sixteen_bits() {
    assert_eq!(Color { r: 255, g: 255, b: 255, a: 255 }.into_rgba16(), 0xFFFF);
    assert_eq!(Color { r: 255, g: 0, b: 0, a: 0x80 }.into_rgba16(), 0xF800);
    assert_eq!(Color { r: 0, g: 255, b: 0, a: 0x81 }.into_rgba16(), 0x07C1);
    assert_eq!(Color { r: 254, g: 8, b: 9, a: 0 }.into_rgba16(), (30 << 11) | (0 << 6) | (1 << 1));
    assert_eq!(Color::from_rgba16(0xFFFF), Color { r: 255, g: 255, b: 255, a: 255 });
    assert_eq!(Color::from_rgba16(0x0000), Color { r: 0, g: 0, b: 0, a: 0 });
    assert_eq!(Color::from_rgba16(1 << 11), Color { r: 8, g: 0, b: 0, a: 0 });
    assert_eq!(Color::from_rgba16((16 << 6) | 1), Color { r: 0, g: 131, b: 0, a: 255 });
}

#[test]
fn palettes_pack_and_unpack() {
    let palette = Palette::from_rgba16(&[0xF8, 0x01, 0x00, 0x3E, 0x07]);
    assert_eq!(
        palette.colors,
        vec![
            Color { r: 255, g: 0, b: 0, a: 255 },
            Color { r: 0, g: 0, b: 255, a: 0 },
        ]
    );
    assert_eq!(palette.rgb(), vec![255, 0, 0, 0, 0, 255]);
    assert_eq!(palette.rgba(), vec![255, 0, 0, 255, 0, 0, 255, 0]);
    assert_eq!(palette.alpha(), vec![255, 0]);
    // the first byte keeps only the bits 8 to 11 of the packed colour, moved down by four
    assert_eq!(palette.into_rgba16(), vec![0x80, 0x01, 0x00, 0x3E]);
    assert_eq!(Palette::from_rgba16(&[]).colors, vec![]);
}

fn yay0(size: u32, commands: &[u8], links: &[u8], data: &[u8]) -> Vec<u8> {
    let mut out = b"Yay0".to_vec();
    out.extend_from_slice(&size.to_be_bytes());
    let link_at = 16 + commands.len() as u32;
    let data_at = link_at + links.len() as u32;
    out.extend_from_slice(&link_at.to_be_bytes());
    out.extend_from_slice(&data_at.to_be_bytes());
    out.extend_from_slice(commands);
    out.extend_from_slice(links);
    out.extend_from_slice(data);
    out
}

#[test]
fn decompression_copies_and_repeats() {
    // one plain byte, then seven copies of it
    let packed = yay0(8, &[0x80, 0, 0, 0], &[0x50, 0x00], b"A");
    assert_eq!(decompress(&packed), Ok(b"AAAAAAAA".to_vec()));
    // "abc", then "abcabc" copied from three back, then "!"
    let packed = yay0(10, &[0b1110_1000], &[0x40, 0x02], b"abc!");
    assert_eq!(decompress(&packed), Ok(b"abcabcabc!".to_vec()));
    // a long copy: the length is the next plain byte plus eighteen
    let packed = yay0(21, &[0b1000_0000], &[0x00, 0x00], &[b'z', 2]);
    assert_eq!(decompress(&packed), Ok(vec![b'z'; 21]));
    // nothing to do
    let packed = yay0(0, &[], &[], &[]);
    assert_eq!(decompress(&packed), Ok(vec![]));
}

#[test]
fn decompression_errors() {
    assert_eq!(decompress(b"Yay0"), Err(Yay0Error::Truncated));
    let mut bad = yay0(1, &[0x80], &[], b"A");
    bad[0] = b'X';
    assert_eq!(decompress(&bad), Err(Yay0Error::BadMagic));
    assert_eq!(decompress(&yay0(2, &[0x80], &[], b"A")), Err(Yay0Error::Truncated));
    assert_eq!(decompress(&yay0(4, &[0x00], &[0x10, 0x00], b"")), Err(Yay0Error::BadLink));
    assert_eq!(decompress(&yay0(4, &[0x80], &[0x50, 0x00], b"A")), Err(Yay0Error::Overrun));
    assert_eq!(decompress(&yay0(4, &[0x00], &[0x50], b"")), Err(Yay0Error::Truncated));
    assert_eq!(decompress(&yay0(20, &[0x80], &[0x00, 0x00], b"A")), Err(Yay0Error::Truncated));
}

fn texture_bytes(name: &str, width: u16, height: u16, extra: u16, format: (u8, u8), body: &[u8]) -> Vec<u8> {
    let mut out = vec![0u8; 48];
    out[..name.len()].copy_from_slice(name.as_bytes());
    out[34..36].copy_from_slice(&width.to_be_bytes());
    out[38..40].copy_from_slice(&height.to_be_bytes());
    out[40..42].copy_from_slice(&extra.to_be_bytes());
    out[42] = 0x08;
    out[43] = format.0;
    out[44] = format.1;
    out[45] = 1;
    out[46] = 2;
    out[47] = 2;
    out.extend_from_slice(body);
    out
}

#[test]
fn texture_formats() {
    assert_eq!(Format::try_from((4, 0)), Some(Format::I4));
    assert_eq!(Format::try_from((0, 3)), Some(Format::RGBA32));
    assert_eq!(Format::try_from((2, 1)), Some(Format::CI8));
    assert_eq!(Format::try_from((1, 0)), None);
    assert_eq!(Format::I4.data_size(4, 4), 8);
    assert_eq!(Format::CI8.data_size(4, 4), 16);
    assert_eq!(Format::RGBA16.data_size(4, 4), 32);
    assert_eq!(Format::RGBA32.data_size(65535, 65535), 4 * 65535 * 65535);
    assert_eq!(Format::CI4.palette_size(), 32);
    assert_eq!(Format::CI8.palette_size(), 512);
    assert_eq!(Format::IA8.palette_size(), 0);
    assert_eq!(Format::IA4.sig_bits(), vec![3, 1]);
    assert_eq!(Format::RGBA16.sig_bits(), vec![5, 5, 5, 1]);
    assert_eq!(Format::CI4.color_type(), ColorKind::Indexed);
    assert_eq!(Format::IA16.color_type(), ColorKind::GrayscaleAlpha);
    assert_eq!(Format::I4.bit_depth(), ChannelDepth::Four);
    assert_eq!(Format::I8.bit_depth(), ChannelDepth::Eight);
}

#[test]
fn a_texture_is_decoded_with_its_palette() {
    let mut body = vec![7u8; 8];
    body.extend((0..32).map(|i| i as u8));
    let data = texture_bytes("tex_a", 4, 4, 0, (2, 0), &body);
    let (name, texture, end) = Texture::decode(&data).unwrap();
    assert_eq!(&name[..5], b"tex_a");
    assert_eq!(name.len(), 32);
    assert_eq!(end, 48 + 8 + 32);
    assert_eq!(
        texture,
        Texture {
            options: Options {
                combine_mode: CombineMode::MultiplyColors_,
                horizontal_wrap: Wrap::Mirror,
                vertical_wrap: Wrap::Clamp,
                filter: Filter::Bilinear,
            },
            format: Format::CI4,
            width: 4,
            height: 4,
            data: vec![7u8; 8],
            palette: (0..32).collect(),
        }
    );
}

#[test]
fn texture_layouts_and_errors() {
    // a second image of the same format: half the height, the palette after both
    let data = texture_bytes("aux", 2, 4, 2, (4, 1), &[1, 2, 3, 4, 5, 6, 7, 8]);
    let (_, texture, end) = Texture::decode(&data).unwrap();
    assert_eq!(texture.height, 2);
    assert_eq!(texture.data, vec![1, 2, 3, 4]);
    assert_eq!(end, 48 + 8);
    // smaller copies: 16x16 I8 is followed by 8x8, 4x4 is too small to count
    let data = texture_bytes("mip", 16, 16, 1, (4, 1), &vec![0u8; 256 + 64]);
    let (_, _, end) = Texture::decode(&data).unwrap();
    assert_eq!(end, 48 + 256 + 64);
    assert_eq!(Texture::decode(&[0u8; 47]).err(), Some(TextureError::Truncated));
    let short = texture_bytes("short", 4, 4, 0, (4, 1), &[0u8; 15]);
    assert_eq!(Texture::decode(&short).err(), Some(TextureError::Truncated));
    let mut bad = texture_bytes("bad", 1, 1, 0, (4, 1), &[0]);
    bad[3] = 0x80;
    assert_eq!(Texture::decode(&bad).err(), Some(TextureError::BadName(0x80)));
    assert_eq!(
        Texture::decode(&texture_bytes("x", 1, 1, 4, (4, 1), &[0])).err(),
        Some(TextureError::IllegalExtraTiles(4))
    );
    assert_eq!(
        Texture::decode(&texture_bytes("x", 1, 1, 0, (5, 1), &[0])).err(),
        Some(TextureError::IllegalFormat(5, 1))
    );
    assert_eq!(
        Texture::decode(&texture_bytes("x", 1, 1, 3, (4, 1), &[0])).err(),
        Some(TextureError::MissingAuxFormat)
    );
    let mut bad = texture_bytes("x", 1, 1, 0, (4, 1), &[0]);
    bad[42] = 1;
    assert_eq!(Texture::decode(&bad).err(), Some(TextureError::IllegalCombineMode(1)));
    let mut bad = texture_bytes("x", 1, 1, 0, (4, 1), &[0]);
    bad[45] = 3;
    assert_eq!(Texture::decode(&bad).err(), Some(TextureError::IllegalWrap(3)));
    let mut bad = texture_bytes("x", 1, 1, 0, (4, 1), &[0]);
    bad[47] = 1;
    assert_eq!(Texture::decode(&bad).err(), Some(TextureError::IllegalFiltering(1)));
}

#[test]
fn an_archive_is_its_textures_by_name() {
    let mut data = texture_bytes("one", 1, 1, 0, (4, 1), &[1]);
    data.extend(texture_bytes("two", 2, 1, 0, (4, 1), &[2, 3]));
    data.extend(texture_bytes("one", 1, 1, 0, (4, 1), &[9]));
    let archive = decode_archive(&data).unwrap();
    assert_eq!(archive.len(), 2);
    assert_eq!(&archive[0].0[..3], b"one");
    assert_eq!(archive[0].1.data, vec![9]);
    assert_eq!(&archive[1].0[..3], b"two");
    assert_eq!(archive[1].1.data, vec![2, 3]);
    assert_eq!(decode_archive(&[]).unwrap().len(), 0);
    data.push(0);
    assert_eq!(decode_archive(&data).err(), Some(TextureError::Truncated));
}

#[test]
fn a_rom_must_be_big_endian_and_of_a_known_region() {
    let mut bytes = vec![0u8; 0x40];
    assert_eq!(Rom::from(bytes.clone()).err(), Some(RomError::NotBigEndian));
    assert_eq!(Rom::from(vec![]).err(), Some(RomError::NotBigEndian));
    bytes[0] = 0x80;
    assert_eq!(Rom::from(bytes.clone()).err(), Some(RomError::UnknownRegion));
    assert_eq!(Rom::from(vec![0x80]).err(), Some(RomError::UnknownRegion));
    bytes[0x3E] = b'J';
    assert_eq!(Rom::from(bytes.clone()).unwrap().region(), Region::Japan);
    bytes[0x3E] = b'P';
    assert_eq!(Rom::from(bytes.clone()).unwrap().region(), Region::Europe);
    assert_eq!(Region::from(b'E'), Some(Region::America));
    assert_eq!(Region::from(b'e'), None);
    assert_eq!(asset_table_addr(Region::Japan), 0x1E00020);
    assert_eq!(asset_table_addr(Region::America), 0x1E40020);
    assert_eq!(asset_table_addr(Region::Europe), 0x2600020);
}

#[test]
fn reading_moves_the_position() {
    let mut bytes = vec![0u8; 0x40];
    bytes[0] = 0x80;
    bytes[0x3E] = b'E';
    bytes.extend_from_slice(&[0x12, 0x34, 0x56, 0x78, 0, 0, 0, 0, 0x80, 0x02, 0x4B, 0x00]);
    bytes.extend_from_slice(b"kmr_00\0x");
    let mut rom = Rom::from(bytes).unwrap();
    rom.seek_to(0x40);
    assert_eq!(rom.read_u32(), Ok(0x1234_5678));
    assert_eq!(rom.position(), 0x44);
    assert_eq!(rom.read_addr(), Ok(Pointer::NullPtr));
    // the stored pointer plus 2,147,333,120 modulo 2^32
    assert_eq!(rom.read_addr(), Ok(Pointer::Address(0x8002_4B00u32.wrapping_add(2_147_333_120))));
    assert_eq!(rom.read_string(), Ok("kmr_00".to_string()));
    assert_eq!(rom.position(), 0x4C + 7);
    assert_eq!(rom.read_string(), Err(ReadError::Eof));
    assert_eq!(rom.read_u32(), Err(ReadError::Eof));
    rom.skip(-3);
    assert_eq!(rom.position(), 0x4C + 4);
    rom.skip(-1000);
    assert_eq!(rom.position(), 0);
    rom.skip(2);
    assert_eq!(rom.position(), 2);
    assert_eq!(read_u16(&[0x12, 0x34]), 0x1234);
    assert_eq!(read_u32(&[0x12, 0x34, 0x56, 0x78]), 0x1234_5678);
}

#[test]
fn names_of_assets_end_at_the_zero_byte() {
    assert_eq!(read_name(b"kmr_bg\0garbage\xff\xff", 0, 16), Ok("kmr_bg".to_string()));
    assert_eq!(read_name(b"0123456789abcdefXYZ", 0, 16), Ok("0123456789abcdef".to_string()));
    assert_eq!(read_name(b"ab\x80", 0, 16), Err(ReadError::BadAscii(0x80)));
    assert_eq!(read_name(b"abc", 0, 16), Err(ReadError::Eof));
    assert_eq!(read_name(b"abc", 1, 2), Ok("bc".to_string()));
}

#[test]
fn assets_are_told_apart_by_their_names() {
    assert_eq!(
        classify("thing", vec![1, 2, 3]),
        Ok(AssetData::Unknown { bytes: vec![1, 2, 3] })
    );
    let mut shape = Vec::new();
    for w in [0x8021_0000u32, 0x8021_0100, 0x8021_0200, 0x8021_0300, 0] {
        shape.extend_from_slice(&w.to_be_bytes());
    }
    assert_eq!(classify("kmr_00_shape", shape.clone()), Ok(AssetData::Shape { shape: Shape {} }));
    assert_eq!(Shape::parse(&shape[..19]), Err(ReadError::Eof));
    shape[4..8].copy_from_slice(&0x8020_FFFFu32.to_be_bytes());
    assert_eq!(Shape::parse(&shape), Err(ReadError::BadAddress(0x8020_FFFF)));
    // a background of 2 by 1 pixels: the raster right after the header, then the palette
    let mut bg = Vec::new();
    bg.extend_from_slice(&0x8020_0010u32.to_be_bytes());
    bg.extend_from_slice(&0x8020_0012u32.to_be_bytes());
    bg.extend_from_slice(&[0, 0, 0, 0]);
    bg.extend_from_slice(&[0, 2, 0, 1]);
    bg.extend_from_slice(&[5, 6]);
    bg.extend_from_slice(&[0xFF; 512]);
    match classify("kmr_bg", bg.clone()) {
        Ok(AssetData::Background { width, height, raster, palette }) => {
            assert_eq!((width, height), (2, 1));
            assert_eq!(raster, (0x10, vec![5, 6]));
            assert_eq!(palette.0, 0x12);
            assert_eq!(palette.1.colors.len(), 256);
            assert_eq!(palette.1.colors[0], Color { r: 255, g: 255, b: 255, a: 255 });
        }
        other => panic!("not a background: {:?}", other),
    }
    bg.pop();
    assert_eq!(classify("kmr_bg", bg), Err(ReadError::Eof));
}

#[test]
fn an_asset_is_read_from_its_entry() {
    // a table at 0x20 with one entry; the data stands raw at table + 0x40
    let mut bytes = vec![0u8; 0x20];
    bytes.extend_from_slice(b"raw_data\0\0\0\0\0\0\0\0");
    bytes.extend_from_slice(&0x40u32.to_be_bytes());
    bytes.extend_from_slice(&4u32.to_be_bytes());
    bytes.extend_from_slice(&4u32.to_be_bytes());
    bytes.resize(0x60, 0);
    bytes.extend_from_slice(&[9, 8, 7, 6]);
    let asset = read_asset_at(&bytes, 0x20, 0x20).unwrap();
    assert_eq!(asset.name, "raw_data");
    assert_eq!(asset.data_offset, 0x40);
    assert_eq!(asset.compressed_size, 4);
    assert_eq!(asset.decompressed_size, 4);
    assert_eq!(asset.data, AssetData::Unknown { bytes: vec![9, 8, 7, 6] });
    bytes.pop();
    assert_eq!(read_asset_at(&bytes, 0x20, 0x20).err(), Some(ReadError::Eof));
    // compressed data whose header gives another size than the entry
    let mut bytes = vec![0u8; 0x20];
    bytes.extend_from_slice(b"packed\0\0\0\0\0\0\0\0\0\0");
    bytes.extend_from_slice(&0x40u32.to_be_bytes());
    bytes.extend_from_slice(&23u32.to_be_bytes());
    bytes.extend_from_slice(&8u32.to_be_bytes());
    bytes.resize(0x60, 0);
    bytes.extend_from_slice(b"Yay0");
    bytes.extend_from_slice(&9u32.to_be_bytes());
    bytes.resize(0x80, 0);
    assert_eq!(
        read_asset_at(&bytes, 0x20, 0x20).err(),
        Some(ReadError::SizeMismatch(9, 8))
    );
}
