use ztar_rod::arg::Arg;
use ztar_rod::ast::Fixed;
use ztar_rod::bytecode::Operation;
use ztar_rod::listing::{lookup_method, Bytecode, DataType, ListingError};
use ztar_rod::opcode::Opcode;
use ztar_rod::symbol::{Symbol, Trigger};
use ztar_rod::types::Type;

#[test]
fn words_become_symbols_by_their_range() {
    assert_eq!(Symbol::from(5), Symbol::Primitive(5));
    assert_eq!(Symbol::from(-5i32 as u32), Symbol::Primitive(-5));
    assert_eq!(Symbol::from(0x8024_0010), Symbol::Pointer(0x10));
    assert_eq!(Symbol::from(0x8025_0010), Symbol::Primitive(0x8025_0010u32 as i32));
    assert_eq!(Symbol::from(-270_000_000i32 as u32), Symbol::Primitive(-270_000_000));
    assert_eq!(Symbol::from(-260_000_000i32 as u32), Symbol::Unknown(-10_000_000));
    assert_eq!(Symbol::from((-230_000_000i32 + 1536) as u32), Symbol::Float(Fixed { raw: 1536 }));
    assert_eq!(Symbol::from((-210_000_000i32 + 1) as u32), Symbol::FlagArray(1));
    assert_eq!(Symbol::from((-190_000_000i32 + 2) as u32), Symbol::Array(2));
    assert_eq!(Symbol::from((-170_000_000i32 + 425) as u32), Symbol::GameByte(425));
    assert_eq!(Symbol::from((-170_000_000i32 - 1) as u32), Symbol::GameByte(0xFFFF_FFFF));
    assert_eq!(Symbol::from((-150_000_000i32 + 3) as u32), Symbol::AreaByte(3));
    assert_eq!(Symbol::from((-130_000_000i32 + 4) as u32), Symbol::GameFlag(4));
    assert_eq!(Symbol::from((-110_000_000i32 + 5) as u32), Symbol::AreaFlag(5));
    assert_eq!(Symbol::from((-90_000_000i32 + 6) as u32), Symbol::MapFlag(6));
    assert_eq!(Symbol::from((-70_000_000i32 + 7) as u32), Symbol::Flag(7));
    assert_eq!(Symbol::from((-50_000_000i32 + 8) as u32), Symbol::MapVar(8));
    assert_eq!(Symbol::from((-30_000_000i32 + 9) as u32), Symbol::Var(9));
    assert_eq!(Symbol::from((-30_000_000i32 - 1) as u32), Symbol::Var(-1));
}

#[test]
fn symbols_as_text() {
    assert_eq!(Symbol::Primitive(-12).to_text(), "-12");
    assert_eq!(Symbol::Unknown(0x1f).to_text(), "unknown_1f");
    assert_eq!(Symbol::Float(Fixed { raw: 1536 }).to_text(), "1.5");
    assert_eq!(Symbol::Float(Fixed { raw: 2048 }).to_text(), "2");
    assert_eq!(Symbol::Float(Fixed { raw: -1024 }).to_text(), "-1");
    assert_eq!(Symbol::FlagArray(3).to_text(), "arr_3");
    assert_eq!(Symbol::Array(-3).to_text(), "arr_-3");
    assert_eq!(Symbol::GameByte(0).to_text(), "STORY_PROGRESS");
    assert_eq!(Symbol::GameByte(425).to_text(), "MAP_LOCATION");
    assert_eq!(Symbol::GameByte(7).to_text(), "global_7");
    assert_eq!(Symbol::AreaByte(1).to_text(), "area_1");
    assert_eq!(Symbol::GameFlag(2).to_text(), "global_flag_2");
    assert_eq!(Symbol::AreaFlag(3).to_text(), "area_flag_3");
    assert_eq!(Symbol::MapFlag(4).to_text(), "map_flag_4");
    assert_eq!(Symbol::Flag(0xab).to_text(), "bool_ab");
    assert_eq!(Symbol::MapVar(0x10).to_text(), "map_10");
    assert_eq!(Symbol::Var(-1).to_text(), "var_ffffffff");
    assert_eq!(Symbol::Pointer(0x1a0).to_text(), "dump_1a0");
    assert_eq!(Symbol::Trigger(Trigger::WallHammer).to_text(), "hammer_wall");
    let mut out = String::new();
    Symbol::Primitive(255).push_shown_hex(&mut out);
    out.push(' ');
    Symbol::Primitive(-1).push_shown_hex(&mut out);
    out.push(' ');
    Symbol::Primitive(5).push_shown_binary(&mut out);
    out.push(' ');
    Symbol::Var(2).push_shown_hex(&mut out);
    assert_eq!(out, "0x000000FF 0xFFFFFFFF 0b101 var_2");
}

#[test]
fn symbol_views() {
    assert_eq!(Symbol::Primitive(0x800).hint_trigger(), Symbol::Trigger(Trigger::FloorInteract));
    assert_eq!(Symbol::Primitive(3).hint_trigger(), Symbol::Primitive(3));
    assert_eq!(Symbol::Var(0x800).hint_trigger(), Symbol::Var(0x800));
    assert!(Symbol::Flag(1).is_flag());
    assert!(Symbol::MapFlag(1).is_flag());
    assert!(!Symbol::Var(1).is_flag());
    assert_eq!(Symbol::Primitive(1).as_bool(), Some(true));
    assert_eq!(Symbol::Primitive(0).as_bool(), Some(false));
    assert_eq!(Symbol::Var(1).as_bool(), None);
    assert_eq!(Symbol::Pointer(8).as_offset(), Some(8));
    assert_eq!(Symbol::Primitive(8).as_offset(), None);
    assert_eq!(Symbol::Primitive(-1).as_u32(), Some(0xFFFF_FFFF));
    assert_eq!(Symbol::Flag(1).as_u32(), None);
    for t in [
        Trigger::FloorTouch, Trigger::FloorAbove, Trigger::FloorInteract, Trigger::FloorJump,
        Trigger::WallTouch, Trigger::WallPush, Trigger::WallInteract, Trigger::WallHammer,
        Trigger::Bomb, Trigger::GameFlagSet, Trigger::AreaFlagSet,
    ] {
        assert_eq!(Trigger::from_u32(t.to_u32()), Some(t));
    }
    assert_eq!(Trigger::FloorTouch.to_u32(), 0x80);
    assert_eq!(Trigger::from_u32(0x81), None);
    assert_eq!(Trigger::Bomb.to_str(), "bomb");
}

fn var(i: i32) -> Symbol {
    Symbol::Var(i)
}

fn num(i: i32) -> Symbol {
    Symbol::Primitive(i)
}

#[test]
fn a_script_is_listed_line_by_line() {
    let bc = Bytecode {
        offset: 0x1a0,
        data: vec![
            (Opcode::SetInt, vec![var(0), num(5)]),
            (Opcode::SetInt, vec![Symbol::Flag(1), num(1)]),
            (Opcode::IfEq, vec![var(0), num(5)]),
            (Opcode::AddInt, vec![var(0), num(1)]),
            (Opcode::Else, vec![]),
            (Opcode::Loop, vec![num(0)]),
            (Opcode::BreakLoop, vec![]),
            (Opcode::EndLoop, vec![]),
            (Opcode::EndIf, vec![]),
            (Opcode::IfAndNz, vec![var(1), num(6)]),
            (Opcode::Label, vec![num(2)]),
            (Opcode::EndIf, vec![]),
            (Opcode::Thread, vec![]),
            (Opcode::WaitSeconds, vec![num(3)]),
            (Opcode::EndThread, vec![]),
            (Opcode::Return, vec![]),
            (Opcode::End, vec![]),
            (Opcode::Return, vec![]),
        ],
    };
    assert_eq!(
        bc.to_text().unwrap(),
        "fun dump_1a0() {\n\
         \x20   var_0 = 5\n\
         \x20   bool_1 = true\n\
         \x20   if var_0 == 5 {\n\
         \x20       var_0 += 1\n\
         \x20   } else {\n\
         \x20       loop {\n\
         \x20           break loop\n\
         \x20       }\n\
         \x20   }\n\
         \x20   if var_1 !& 0b110 {\n\
         \x20       label .o2\n\
         \x20   }\n\
         \x20   thread {\n\
         \x20       sleep 3 secs\n\
         \x20   }\n\
         \x20   return\n\
         }"
    );
}

#[test]
fn a_switch_is_listed_with_its_arms() {
    let bc = Bytecode {
        offset: 0,
        data: vec![
            (Opcode::Switch, vec![var(0)]),
            (Opcode::CaseEq, vec![num(1)]),
            (Opcode::Return, vec![]),
            (Opcode::CaseRange, vec![num(2), num(4)]),
            (Opcode::Goto, vec![num(1)]),
            (Opcode::EndCaseGroup, vec![]),
            (Opcode::CaseDefault, vec![]),
            (Opcode::BreakCase, vec![]),
            (Opcode::EndSwitch, vec![]),
            (Opcode::End, vec![]),
        ],
    };
    assert_eq!(
        bc.to_text().unwrap(),
        "fun dump_0() {\n\
         \x20   switch var_0 {\n\
         \x20       case == 1 {\n\
         \x20           return\n\
         \x20       }\n\
         \x20       case 2..4 {\n\
         \x20           goto .o1\n\
         \x20       }\n\
         \x20       default {\n\
         \x20           break case\n\
         \x20       }\n\
         \x20   }\n\
         }"
    );
}

#[test]
fn calls_are_listed_by_what_is_known_of_their_target() {
    let addr = |a: u32| Symbol::Primitive(a as i32);
    let bc = Bytecode {
        offset: 0x20,
        data: vec![
            (Opcode::Call, vec![addr(0x802C_9288), num(7), num(1)]),
            (Opcode::Call, vec![addr(0x802D_0000), num(7), var(1)]),
            (Opcode::Exec, vec![Symbol::Pointer(0x40), num(2)]),
            (Opcode::ExecWait, vec![addr(0x8028_5960)]),
            (Opcode::ExecRet, vec![Symbol::Pointer(0x40), var(3), num(9), num(10)]),
            (Opcode::Bind, vec![Symbol::Pointer(0x80), num(0x100), num(4), num(1), num(0)]),
            (Opcode::Bind, vec![Symbol::Pointer(0x80), num(0x100), num(4), num(1), var(2)]),
            (Opcode::Kill, vec![var(3)]),
            (Opcode::UseArray, vec![num(0x1234)]),
            (Opcode::End, vec![]),
        ],
    };
    assert_eq!(
        bc.to_text().unwrap(),
        "fun dump_20() {\n\
         \x20   model_set_vis(7, true)\n\
         \x20   0x802D0000(0x00000007, var_1)\n\
         \x20   thread dump_40(0x00000002)\n\
         \x20   enter_walk(var_0)\n\
         \x20   var_3 = thread dump_40(var_3, 0x0000000A)\n\
         \x20   bind_interact_wall(dump_80, 4)\n\
         \x20   var_2 = bind_interact_wall(dump_80, 4)\n\
         \x20   kill var_3\n\
         \x20   arr = 0x00001234\n\
         }"
    );
}

#[test]
fn what_cannot_be_listed() {
    let list = |data: Vec<(Opcode, Vec<Symbol>)>| Bytecode { offset: 0, data }.to_text();
    assert_eq!(list(vec![(Opcode::Return, vec![num(1)])]), Err(ListingError::ArgCount(Opcode::Return)));
    assert_eq!(list(vec![(Opcode::SetRef, vec![])]), Err(ListingError::Unimplemented(Opcode::SetRef)));
    assert_eq!(
        list(vec![(Opcode::Switch, vec![var(0)]), (Opcode::Switch, vec![var(0)])]),
        Err(ListingError::DoubleSwitch)
    );
    assert_eq!(list(vec![(Opcode::IfEq, vec![var(0), num(0)])]), Err(ListingError::LevelMismatch));
    assert_eq!(list(vec![(Opcode::EndIf, vec![]), (Opcode::EndIf, vec![])]), Err(ListingError::LevelMismatch));
    assert_eq!(
        list(vec![(Opcode::SetInt, vec![Symbol::Flag(0), var(0)])]),
        Err(ListingError::NotBool(Opcode::SetInt))
    );
    assert_eq!(
        list(vec![(Opcode::Call, vec![Symbol::Primitive(0x802D_9700u32 as i32), num(1), num(2)])]),
        Err(ListingError::TooManyArguments(0x802D_9700))
    );
    assert_eq!(list(vec![(Opcode::Call, vec![])]), Err(ListingError::MalformedCallTarget(Opcode::Call)));
    assert_eq!(
        list(vec![(Opcode::Bind, vec![num(0), num(0), num(0), num(0), num(1)])]),
        Err(ListingError::BadBind)
    );
    assert_eq!(list(vec![]), Ok("fun dump_0() {\n}".to_string()));
}

#[test]
fn addresses_are_scanned_with_what_they_point_to() {
    let addr = |a: u32| Symbol::Primitive(a as i32);
    let bc = Bytecode {
        offset: 0,
        data: vec![
            (Opcode::SetInt, vec![var(0), Symbol::Pointer(0x10)]),
            (Opcode::SetInt, vec![var(0), num(3)]),
            (Opcode::Call, vec![Symbol::Pointer(0x20), Symbol::Pointer(0x30), num(1)]),
            (Opcode::Exec, vec![Symbol::Pointer(0x40)]),
            (Opcode::Exec, vec![Symbol::Pointer(0x40)]),
            (Opcode::ExecWait, vec![addr(0x8028_5960), Symbol::Pointer(0x50)]),
            (Opcode::Call, vec![addr(0x802C_9288), Symbol::Pointer(0x60), num(1)]),
            (Opcode::Call, vec![addr(0x802D_0000), Symbol::Pointer(0x70)]),
            (Opcode::End, vec![]),
            (Opcode::Exec, vec![Symbol::Pointer(0x80)]),
        ],
    };
    assert_eq!(
        bc.scan_data_offsets(),
        Ok(vec![
            (DataType::Unknown, 0x10),
            (DataType::Asm, 0x20),
            (DataType::Unknown, 0x30),
            (DataType::Function, 0x40),
            (DataType::Function, 0x50),
            (DataType::Unknown, 0x70),
        ])
    );
    let bad = Bytecode { offset: 0, data: vec![(Opcode::Call, vec![var(0)])] };
    assert_eq!(bad.scan_data_offsets(), Err(ListingError::MalformedCallTarget(Opcode::Call)));
    let bad = Bytecode { offset: 0, data: vec![(Opcode::SetInt, vec![var(0)])] };
    assert_eq!(bad.scan_data_offsets(), Err(ListingError::ArgCount(Opcode::SetInt)));
}

#[test]
fn operations_are_taken_over_for_listing() {
    let ops: Vec<Operation> = vec![
        (Opcode::SetInt, vec![Arg((-30_000_000i32) as u32), Arg(5)]),
        (Opcode::End, vec![]),
    ];
    let bc = Bytecode::from_operations(0x44, &ops);
    assert_eq!(bc.offset, 0x44);
    assert_eq!(
        bc.data,
        vec![(Opcode::SetInt, vec![Symbol::Var(0), Symbol::Primitive(5)]), (Opcode::End, vec![])]
    );
    assert_eq!(lookup_method(0x802C_9308), Some(("model_set_vis", vec![Type::Int, Type::Bool])));
    assert_eq!(lookup_method(0x802C_9309), None);
}

#[test]
fn a_listing_closes_every_block_that_it_opens() {
    let bc = Bytecode {
        offset: 0x10,
        data: vec![
            (Opcode::IfEq, vec![var(0), num(1)]),
            (Opcode::Switch, vec![var(1)]),
            (Opcode::CaseEq, vec![num(1)]),
            (Opcode::Return, vec![]),
            (Opcode::CaseDefault, vec![]),
            (Opcode::Loop, vec![num(0)]),
            (Opcode::Thread, vec![]),
            (Opcode::Exec, vec![Symbol::Pointer(0x40)]),
            (Opcode::EndThread, vec![]),
            (Opcode::EndLoop, vec![]),
            (Opcode::EndSwitch, vec![]),
            (Opcode::Else, vec![]),
            (Opcode::Return, vec![]),
            (Opcode::EndIf, vec![]),
            (Opcode::End, vec![]),
        ],
    };
    let text = bc.to_text().unwrap();
    let mut open: i32 = 0;
    let mut opened = 0;
    for c in text.chars() {
        if c == '{' {
            open += 1;
            opened += 1;
        } else if c == '}' {
            open -= 1;
        }
        assert!(open >= 0);
    }
    assert_eq!(open, 0);
    // the script, the conditional and its other branch, the switch and its two arms,
    // the loop and the thread
    assert_eq!(opened, 8);
    assert!(text.starts_with("fun dump_10() {\n"));
    assert!(text.ends_with("\n}"));

    // a block that stays open is no listing
    let open_end = Bytecode {
        offset: 0,
        data: vec![(Opcode::Loop, vec![num(0)]), (Opcode::End, vec![])],
    };
    assert_eq!(open_end.to_text(), Err(ListingError::LevelMismatch));
}
