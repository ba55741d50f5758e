use ztar_rod::arg::Arg;
use ztar_rod::area::read_map_at;
use ztar_rod::ast::{Expression, Identifier, Statement};
use ztar_rod::bytecode::{Bytecode, Error, Operation};
use ztar_rod::loc::{Dma, Location, Text};
use ztar_rod::opcode::Opcode;
use ztar_rod::rom::{ReadError, Rom};
use ztar_rod::scope::Scope;
use ztar_rod::script::{decompile_map, known_methods, Entrance};
use ztar_rod::unparse::Unparse;

fn put(bytes: &mut Vec<u8>, at: usize, words: &[u32]) {
    for (i, w) in words.iter().enumerate() {
        bytes[at + 4 * i..at + 4 * i + 4].copy_from_slice(&w.to_be_bytes());
    }
}

fn stored(addr: u32) -> u32 {
    addr.wrapping_sub(2_147_333_120)
}

fn image() -> Vec<u8> {
    let mut bytes = vec![0u8; 0x400];
    bytes[0] = 0x80;
    bytes[0x3E] = b'E';
    // the area: one map, the table of maps at 0x100, the name at 0x80
    put(&mut bytes, 0x40, &[1, stored(0x100), stored(0x80)]);
    bytes[0x80..0x83].copy_from_slice(b"kmr");
    bytes[0x90..0x96].copy_from_slice(b"kmr_00");
    bytes[0xA0..0xA6].copy_from_slice(b"sky_bg");
    // the map: name, header, region (start, end, runtime address), background, setup, flags
    put(
        &mut bytes,
        0x100,
        &[stored(0x90), 0x8024_0100, 0x200, 0x400, 0x8024_0000, stored(0xA0), 0x8024_0020, 7],
    );
    // the header of the map at 0x300
    put(&mut bytes, 0x310, &[0x8024_0180, 0x8024_01C0, 1]);
    put(&mut bytes, 0x33C, &[0x0019_0042]);
    // the main script at 0x380: word_0 = 3; return; end
    put(&mut bytes, 0x380, &[36, 2, (-30_000_000i32) as u32, 3, 2, 0, 1, 0]);
    // one entrance at 0x3C0
    put(&mut bytes, 0x3C0, &[0x3F80_0000, 0, 0xBF80_0000, 0x42B4_0000]);
    bytes
}

#[test]
fn a_map_is_read_from_its_entry() {
    let bytes = image();
    let map = read_map_at(&bytes, 0x100).unwrap();
    assert_eq!(map.name, "kmr_00");
    assert_eq!(map.dma, Dma { start: 0x200, end: 0x400, dest: 0x8024_0000 });
    assert_eq!(map.init_asm, Some(Location { base: 0x200, offset: 0x20 }));
    assert_eq!(map.main_fun.0, Location { base: 0x200, offset: 0x180 });
    assert_eq!(map.main_fun.1.len(), 3);
    assert_eq!(
        map.entrances,
        vec![Entrance { x: 0x3F80_0000, y: 0, z: 0xBF80_0000, yaw: 0x42B4_0000 }]
    );
    assert_eq!(map.tattle, Text::Id(0x19, 0x42));
    assert_eq!(map.background, Some("sky_bg".to_string()));
    assert_eq!(map.flags, 7);
}

#[test]
fn an_area_is_read_with_its_maps() {
    let mut rom = Rom::from(image()).unwrap();
    rom.seek(Location::new(0x40));
    let area = rom.read_area().unwrap();
    assert_eq!(area.name, "kmr");
    assert_eq!(area.maps.len(), 1);
    assert_eq!(area.maps[0].name, "kmr_00");
    assert_eq!(rom.position(), 0x4C);
    rom.seek(Location::new(0x100));
    let map = rom.read_map().unwrap();
    assert_eq!(rom.position(), 0x120);
    let out = decompile_map(map, &rom, &known_methods(), 64)
        .unwrap();
    assert_eq!(out.source, "fun main() {\n    var word_0 = 3\n}");
}

#[test]
fn what_is_wrong_with_a_map_is_told() {
    let mut bytes = image();
    put(&mut bytes, 0x100, &[0]);
    assert_eq!(read_map_at(&bytes, 0x100).err(), Some(ReadError::NullPointer));
    let mut bytes = image();
    put(&mut bytes, 0x110, &[0x7024_0000]);
    assert_eq!(read_map_at(&bytes, 0x100).err(), Some(ReadError::BadDestination(0x7024_0000)));
    let mut bytes = image();
    put(&mut bytes, 0x104, &[0x8023_FFFF]);
    assert_eq!(read_map_at(&bytes, 0x100).err(), Some(ReadError::BadAddress(0x8023_FFFF)));
    let mut bytes = image();
    put(&mut bytes, 0x380, &[99]);
    assert_eq!(
        read_map_at(&bytes, 0x100).err(),
        Some(ReadError::Bytecode(Error::UnknownOpcode(99)))
    );
    let mut bytes = image();
    put(&mut bytes, 0x318, &[5]);
    assert_eq!(read_map_at(&bytes, 0x100).err(), Some(ReadError::Eof));
    let mut bytes = image();
    put(&mut bytes, 0x33C, &[0x8001_0000]);
    assert_eq!(read_map_at(&bytes, 0x100).err(), Some(ReadError::BadAddress(0x8001_0000)));
    let mut bytes = image();
    bytes[0x92] = 0x90;
    assert_eq!(read_map_at(&bytes, 0x100).err(), Some(ReadError::BadAscii(0x90)));
    assert_eq!(read_map_at(&image(), 0x3F0).err(), Some(ReadError::Eof));
    let mut bytes = image();
    put(&mut bytes, 0x40, &[2]);
    let mut rom = Rom::from(bytes).unwrap();
    rom.seek(Location::new(0x40));
    // the second entry of the table is all zero: its name is a null pointer
    assert_eq!(rom.read_area().err(), Some(ReadError::NullPointer));
    assert_eq!(rom.position(), 0x40);
}

fn word(index: i32) -> Arg {
    Arg((index - 30_000_000) as u32)
}

#[test]
fn nested_blocks_are_rebuilt_as_they_were_laid_out() {
    // if { switch { case { loop { thread { } } } default { if { } else { } } } } else { loop { } }
    let ops: Vec<Operation> = vec![
        (Opcode::IfGt, vec![word(0), Arg(1)]),
        (Opcode::Switch, vec![word(1)]),
        (Opcode::CaseLte, vec![Arg(4)]),
        (Opcode::Loop, vec![word(2)]),
        (Opcode::Thread, vec![]),
        (Opcode::BreakLoop, vec![]),
        (Opcode::EndChildThread, vec![]),
        (Opcode::EndLoop, vec![]),
        (Opcode::CaseDefault, vec![]),
        (Opcode::IfNe, vec![word(3), Arg(0)]),
        (Opcode::Else, vec![]),
        (Opcode::Return, vec![]),
        (Opcode::EndIf, vec![]),
        (Opcode::EndSwitch, vec![]),
        (Opcode::Else, vec![]),
        (Opcode::Loop, vec![Arg(0)]),
        (Opcode::EndLoop, vec![]),
        (Opcode::EndIf, vec![]),
        (Opcode::End, vec![]),
    ];
    let mut scope = Scope::new();
    let stmts = Bytecode::new(ops).decompile(&mut scope).unwrap();
    assert_eq!(stmts.len(), 1);
    let text = stmts.unparse(&scope);
    assert_eq!(
        text,
        "if word_0 > 1 {\n\
         \x20   switch word_1 {\n\
         \x20       case <= 4 {\n\
         \x20           loop word_2 {\n\
         \x20               thread {\n\
         \x20                   breakloop\n\
         \x20               }\n\
         \x20           }\n\
         \x20       }\n\
         \x20       default {\n\
         \x20           if word_3 != 0 {\n\
         \x20           \n\
         \x20           } else {\n\
         \x20               return\n\
         \x20           }\n\
         \x20       }\n\
         \x20   }\n\
         } else {\n\
         \x20   loop {\n\
         \x20   \n\
         \x20   }\n\
         }"
    );
    // every block that was opened is closed: the last line stands at the level of the first
    assert_eq!(text.matches('{').count(), text.matches('}').count());
    assert!(text.ends_with("\n}"));
    let _ = Expression::Identifier(Identifier(String::new()));
    let _ = Statement::Return;
}
