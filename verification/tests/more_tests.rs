use ztar_rod::arg::Arg;
use ztar_rod::area::{area_location, Area, AREA_COUNT};
use ztar_rod::asset::{read_asset_at, Asset, AssetData, AssetTable};
use ztar_rod::ast::{
    Case, Declaration, Expression, Identifier, IdentifierOrPointer, InnerBlocks, LoopTimes,
    MethodThreading, Operator, Statement,
};
use ztar_rod::bytecode::{Bytecode, Operation};
use ztar_rod::datatype::DataType;
use ztar_rod::infer::infer_datatypes;
use ztar_rod::loc::{Dma, Location, Text};
use ztar_rod::opcode::Opcode;
use ztar_rod::rom::{ReadError, Rom};
use ztar_rod::scope::Scope;
use ztar_rod::script::{decompile_map, known_methods, Error, GameMap};
use ztar_rod::texture::{CombineMode, Filter, Format, Options, Texture, Wrap};
use ztar_rod::unparse::Unparse;
use ztar_rod::yay0::Yay0Error;

fn ident(name: &str) -> Identifier {
    Identifier(name.to_string())
}

#[test]
fn a_type_that_is_known_is_not_replaced() {
    let mut scope = Scope::new();
    scope.insert_ptr(0x802C_9288, "takes_bool".to_string(), DataType::Asm(vec![DataType::Bool]));
    scope.insert_name("word_0".to_string(), DataType::Int);
    scope.insert_name("word_1".to_string(), DataType::Any);
    let call = |name: &str| Statement::MethodCall {
        method: IdentifierOrPointer::Pointer(0x802C_9288),
        arguments: vec![Expression::Identifier(ident(name))],
        threading: MethodThreading::No,
        bc_is_func: false,
    };
    let assign = |name: &str, value: Expression| Statement::VarAssign {
        operator: ztar_rod::ast::AssignmentOperator::Eq,
        identifier: ident(name),
        expression: value,
    };
    let block = vec![
        call("word_0"),
        call("word_1"),
        assign("word_1", Expression::LiteralInt(4)),
    ];
    let (_, warnings) = infer_datatypes(block, &mut scope);
    // word_0 was an int and stays one; word_1 had no type: the assignment, which is
    // met first, says int, the call says bool, and what was said first stands
    assert_eq!(warnings.len(), 1);
    assert_eq!(warnings[0].identifier, "word_1");
    assert_eq!(warnings[0].declared_datatype, DataType::Int);
    assert_eq!(warnings[0].inferred_datatype, DataType::Bool);
    assert_eq!(
        warnings[0].message(),
        "variable 'word_1' declared as int but is used as bool"
    );
    assert_eq!(scope.lookup_name("word_0"), Some(&DataType::Int));
    assert_eq!(scope.lookup_name("word_1"), Some(&DataType::Int));
}

#[test]
fn an_entry_without_a_type_is_passed_over() {
    let mut scope = Scope::new();
    let assign = |name: &str, value: Expression| Statement::VarAssign {
        operator: ztar_rod::ast::AssignmentOperator::Eq,
        identifier: ident(name),
        expression: value,
    };
    // met last to first: b = 1 is asked for first, then a = c, where c has no type,
    // then d = 2
    let block = vec![
        assign("d", Expression::LiteralInt(2)),
        assign("a", Expression::Identifier(ident("c"))),
        assign("b", Expression::LiteralInt(1)),
    ];
    let (_, warnings) = infer_datatypes(block, &mut scope);
    assert!(warnings.is_empty());
    assert_eq!(scope.lookup_name("b"), Some(&DataType::Int));
    assert_eq!(scope.lookup_name("a"), None);
    assert_eq!(scope.lookup_name("c"), None);
    assert_eq!(scope.lookup_name("d"), Some(&DataType::Int));
}

#[test]
fn names_without_a_type_do_not_stop_the_others() {
    let mut scope = Scope::new();
    scope.insert_name("a".to_string(), DataType::Any);
    scope.insert_name("b".to_string(), DataType::Any);
    scope.insert_name("c".to_string(), DataType::Any);
    let assign = |name: &str, value: Expression| Statement::VarAssign {
        operator: ztar_rod::ast::AssignmentOperator::Eq,
        identifier: ident(name),
        expression: value,
    };
    let block = vec![
        assign("a", Expression::LiteralInt(1)),
        assign("b", Expression::Identifier(ident("c"))),
    ];
    let (block, warnings) = infer_datatypes(block, &mut scope);
    assert!(warnings.is_empty());
    assert_eq!(scope.lookup_name("a"), Some(&DataType::Int));
    assert_eq!(scope.lookup_name("b"), Some(&DataType::Any));
    assert_eq!(scope.lookup_name("c"), Some(&DataType::Any));
    assert_eq!(
        block,
        vec![
            assign("a", Expression::LiteralInt(1)),
            assign("b", Expression::Identifier(ident("c"))),
        ]
    );
}

#[test]
fn an_inference_that_is_undone_is_remarked_on() {
    let mut scope = Scope::new();
    scope.insert_name("x".to_string(), DataType::Any);
    let assign = |name: &str, value: Expression| Statement::VarAssign {
        operator: ztar_rod::ast::AssignmentOperator::Eq,
        identifier: ident(name),
        expression: value,
    };
    // met last to first: x is a bool first, and the int that is asked for after
    // that is refused
    let block = vec![
        assign("x", Expression::LiteralInt(3)),
        assign("x", Expression::LiteralBool(true)),
    ];
    let (_, warnings) = infer_datatypes(block, &mut scope);
    assert_eq!(scope.lookup_name("x"), Some(&DataType::Bool));
    assert_eq!(warnings.len(), 1);
    assert_eq!(warnings[0].identifier, "x");
    assert_eq!(warnings[0].declared_datatype, DataType::Bool);
    assert_eq!(warnings[0].inferred_datatype, DataType::Int);
    assert_eq!(
        warnings[0].message(),
        "variable 'x' declared as bool but is used as int"
    );
}

#[test]
fn blocks_inside_a_statement() {
    let s = Statement::If {
        condition: Expression::LiteralBool(true),
        block_true: vec![Statement::Return],
        block_false: vec![],
    };
    assert_eq!(s.inner_blocks(), vec![&vec![Statement::Return], &vec![]]);
    let s = Statement::Switch {
        expression: Expression::LiteralInt(1),
        cases: vec![
            (Case::Default, vec![Statement::BreakCase]),
            (
                Case::Test { operator: Operator::Eq, against: Expression::LiteralInt(2) },
                vec![Statement::Return, Statement::Return],
            ),
        ],
    };
    assert_eq!(
        s.inner_blocks(),
        vec![&vec![Statement::BreakCase], &vec![Statement::Return, Statement::Return]]
    );
    assert_eq!(s.clone(), s);
    let s = Statement::Loop { times: LoopTimes::Infinite, block: vec![Statement::Unbind] };
    assert_eq!(s.inner_blocks(), vec![&vec![Statement::Unbind]]);
    assert!(Statement::Return.inner_blocks().is_empty());
    let d = Declaration::Fun {
        name: IdentifierOrPointer::Identifier(ident("f")),
        arguments: vec![(ident("a"), DataType::Int), (ident("b"), DataType::Fun(vec![]))],
        block: vec![Statement::Return],
    };
    assert_eq!(d.inner_blocks(), vec![&vec![Statement::Return]]);
    assert_eq!(d.clone(), d);
    let scope = Scope::new();
    assert_eq!(d.unparse(&scope), "fun f(a: int, b: fun()) {\n    return\n}");
}

fn texture(format: Format, width: u16, height: u16, data: Vec<u8>) -> Texture {
    Texture {
        options: Options {
            combine_mode: CombineMode::MultiplyColors,
            horizontal_wrap: Wrap::Repeat,
            vertical_wrap: Wrap::Repeat,
            filter: Filter::NoFilter,
        },
        format,
        width,
        height,
        data,
        palette: vec![],
    }
}

#[test]
fn rows_are_written_from_the_last_to_the_first() {
    let t = texture(Format::I8, 2, 3, vec![1, 2, 3, 4, 5, 6]);
    assert_eq!(t.row_size(), 2);
    assert_eq!(t.image_data(), vec![5, 6, 3, 4, 1, 2]);
    // a last row that is short
    let t = texture(Format::I8, 2, 3, vec![1, 2, 3, 4, 5]);
    assert_eq!(t.image_data(), vec![5, 3, 4, 1, 2]);
    let t = texture(Format::I8, 0, 3, vec![1, 2, 3]);
    assert_eq!(t.image_data(), Vec::<u8>::new());
    let t = texture(Format::I8, 2, 0, vec![]);
    assert_eq!(t.image_data(), Vec::<u8>::new());
}

#[test]
fn narrow_pixels_are_widened() {
    // two pixels a byte: brightness 7 opaque, brightness 0 clear
    let t = texture(Format::IA4, 2, 1, vec![0b1111_0000]);
    assert_eq!(t.image_data(), vec![255, 255, 0, 0]);
    let t = texture(Format::IA4, 2, 1, vec![0b0111_0010]);
    assert_eq!(t.image_data(), vec![109, 255, 36, 0]);
    let t = texture(Format::IA8, 2, 1, vec![0xF0, 0x3C]);
    assert_eq!(t.image_data(), vec![255, 0, 51, 204]);
    let t = texture(Format::RGBA16, 1, 2, vec![0xF8, 0x01, 0x00, 0x3E]);
    assert_eq!(t.image_data(), vec![0, 0, 255, 0, 255, 0, 0, 255]);
}

fn map_named(name: &str, flags: u32) -> GameMap {
    GameMap {
        name: name.to_string(),
        init_asm: None,
        main_fun: (Location::new(0), Bytecode::new(vec![(Opcode::End, vec![])])),
        dma: Dma { start: 0, end: 0, dest: 0x8024_0000 },
        entrances: vec![],
        tattle: Text::Id(0, 0),
        background: None,
        flags,
    }
}

#[test]
fn maps_of_one_name_are_kept_once() {
    let area = Area {
        name: "kmr".to_string(),
        maps: vec![
            map_named("kmr_00", 0),
            map_named("kmr_01", 1),
            map_named("kmr_00", 2),
            map_named("kmr_02", 3),
            map_named("kmr_01", 4),
        ],
    };
    let kept: Vec<(String, u32)> =
        area.unique_maps().into_iter().map(|m| (m.name, m.flags)).collect();
    assert_eq!(
        kept,
        vec![("kmr_00".to_string(), 0), ("kmr_01".to_string(), 1), ("kmr_02".to_string(), 3)]
    );
    assert_eq!(area_location(0), Location { base: 0x6E8F0, offset: 0 });
    assert_eq!(area_location(AREA_COUNT - 1), Location { base: 0x6E8F0, offset: 27 * 16 });
}

fn rom_with(at: usize, words: &[u32]) -> Rom {
    let mut bytes = vec![0u8; at];
    bytes[0] = 0x80;
    bytes[0x3E] = b'E';
    for w in words {
        bytes.extend_from_slice(&w.to_be_bytes());
    }
    Rom::from(bytes).unwrap()
}

#[test]
fn what_is_wrong_with_a_script_is_told() {
    let rom = rom_with(0x100, &[]);
    let globals = known_methods();
    let bad: Vec<Operation> = vec![(Opcode::Jump, vec![]), (Opcode::End, vec![])];
    let mut map = map_named("bad", 0);
    map.main_fun = (Location::new(0x100), Bytecode::new(bad));
    assert_eq!(
        decompile_map(map, &rom, &globals, 8).err(),
        Some(Error::BytecodeDecompile(ztar_rod::bytecode::Error::UnimplementedOpcode(
            Opcode::Jump
        )))
    );
    // a script that starts a script below the runtime address of its map
    let leads_out: Vec<Operation> = vec![(Opcode::Exec, vec![Arg(0x8024_0010)]), (Opcode::End, vec![])];
    let mut map = map_named("out", 0);
    map.dma = Dma { start: 0x100, end: 0x200, dest: 0x8024_1000 };
    map.main_fun = (Location::new(0x100), Bytecode::new(leads_out));
    assert_eq!(decompile_map(map, &rom, &globals, 8).err(), Some(Error::BadAddress(0x8024_0010)));
    // a script that starts a script that is not there
    let leads_nowhere: Vec<Operation> =
        vec![(Opcode::Exec, vec![Arg(0x8024_0010)]), (Opcode::End, vec![])];
    let mut map = map_named("nowhere", 0);
    map.dma = Dma { start: 0x100, end: 0x200, dest: 0x8024_0000 };
    map.main_fun = (Location::new(0x100), Bytecode::new(leads_nowhere));
    assert_eq!(
        decompile_map(map, &rom, &globals, 8).err(),
        Some(Error::BytecodeDecompile(ztar_rod::bytecode::Error::MissingEnd))
    );
    let mut map = map_named("far", 0);
    map.main_fun = (Location { base: 0xFFFF_FFFF, offset: 1 }, Bytecode::new(vec![]));
    assert_eq!(decompile_map(map, &rom, &globals, 8).err(), Some(Error::BadAddress(0xFFFF_FFFF)));
}

#[test]
fn known_scripts_capture_and_known_code_types_its_arguments() {
    // the script that word_0 is set to stands at 0x140: return; end
    let mut words = vec![0u32; 16];
    words.extend_from_slice(&[2, 0, 1, 0]);
    let rom = rom_with(0x100, &words);
    let ops: Vec<Operation> = vec![
        (Opcode::SetInt, vec![Arg((-30_000_000i32) as u32), Arg(0x8024_0040)]),
        (Opcode::ExecWait, vec![Arg(0x8028_5960)]),
        (Opcode::Call, vec![Arg(0x802C_9288), Arg(3), Arg(0)]),
        (Opcode::Call, vec![Arg(0x802C_8B60), Arg(3), Arg(0), Arg((512 - 230_000_000i32) as u32), Arg(7)]),
        (Opcode::Return, vec![]),
        (Opcode::End, vec![]),
    ];
    let mut map = map_named("kmr_00", 0);
    map.dma = Dma { start: 0x100, end: 0x200, dest: 0x8024_0000 };
    map.main_fun = (Location::new(0x100), Bytecode::new(ops));
    let out = decompile_map(map, &rom, &known_methods(), 8).unwrap();
    assert_eq!(
        out.source,
        "fun main() {\n\
         \x20   var word_0: fun() = dump_0040\n\
         \x20   enter_walk(word_0)\n\
         \x20   model_enable(3, false)\n\
         \x20   model_translate(3, 0.0, 0.5, 224609.3818359375)\n\
         }\n\
         \n\
         fun dump_0040() {\n\
         \n\
         }"
    );
}

#[test]
fn a_compressed_asset_that_is_damaged() {
    let mut bytes = vec![0u8; 0x20];
    bytes.extend_from_slice(b"packed\0\0\0\0\0\0\0\0\0\0");
    bytes.extend_from_slice(&0x40u32.to_be_bytes());
    bytes.extend_from_slice(&24u32.to_be_bytes());
    bytes.extend_from_slice(&24u32.to_be_bytes());
    bytes.resize(0x60, 0);
    // the header says 24 bytes, one plain byte is there, and then the data ends
    bytes.extend_from_slice(b"Yay0");
    bytes.extend_from_slice(&24u32.to_be_bytes());
    bytes.extend_from_slice(&20u32.to_be_bytes());
    bytes.extend_from_slice(&23u32.to_be_bytes());
    bytes.extend_from_slice(&[0xC0, 0, 0, 0, 0, 0, 0, b'A']);
    assert_eq!(
        read_asset_at(&bytes, 0x20, 0x20).err(),
        Some(ReadError::Compression(Yay0Error::Truncated))
    );
    let table = AssetTable {
        assets: vec![
            Asset {
                name: "one".to_string(),
                data_offset: 0,
                compressed_size: 0,
                decompressed_size: 0,
                data: AssetData::Unknown { bytes: vec![] },
            },
            Asset {
                name: "two_bg".to_string(),
                data_offset: 4,
                compressed_size: 0,
                decompressed_size: 0,
                data: AssetData::Unknown { bytes: vec![] },
            },
        ],
    };
    assert_eq!(table.listing(), "one\ntwo_bg");
}
