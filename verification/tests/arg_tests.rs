use ztar_rod::arg::{Arg, ArgKind};
use ztar_rod::ast::{Expression, Fixed, Identifier, IdentifierOrPointer, Operator};
use ztar_rod::opcode::{Opcode, LAST_OPCODE};

fn word(s: i32) -> Arg {
    Arg(s as u32)
}

#[test]
fn every_threshold_separates_two_kinds() {
    let ladder: [(i32, ArgKind, ArgKind); 12] = [
        (-250_000_000, ArgKind::Int, ArgKind::Float),
        (-220_000_000, ArgKind::Float, ArgKind::FlagArrayIndex),
        (-200_000_000, ArgKind::FlagArrayIndex, ArgKind::ArrayIndex),
        (-180_000_000, ArgKind::ArrayIndex, ArgKind::GameByte),
        (-160_000_000, ArgKind::GameByte, ArgKind::AreaByte),
        (-140_000_000, ArgKind::AreaByte, ArgKind::GameFlag),
        (-120_000_000, ArgKind::GameFlag, ArgKind::AreaFlag),
        (-100_000_000, ArgKind::AreaFlag, ArgKind::MapFlag),
        (-80_000_000, ArgKind::MapFlag, ArgKind::FunFlag),
        (-60_000_000, ArgKind::FunFlag, ArgKind::MapWord),
        (-40_000_000, ArgKind::MapWord, ArgKind::FunWord),
        (-20_000_000, ArgKind::FunWord, ArgKind::Int),
    ];
    for (threshold, at_or_below, above) in ladder {
        assert_eq!(word(threshold).kind(), at_or_below);
        assert_eq!(word(threshold + 1).kind(), above);
    }
}

#[test]
fn plain_integers_and_pointers() {
    assert_eq!(Arg(0).kind(), ArgKind::Int);
    assert_eq!(Arg(42).kind(), ArgKind::Int);
    assert_eq!(word(-1).kind(), ArgKind::Int);
    assert_eq!(word(i32::MAX).kind(), ArgKind::Int);
    assert_eq!(word(i32::MIN).kind(), ArgKind::Int);
    assert_eq!(word(-270_000_000).kind(), ArgKind::Int);
    assert_eq!(Arg(0x8024_0000).kind(), ArgKind::Pointer);
    assert_eq!(Arg(0x8024_FFFF).kind(), ArgKind::Pointer);
    assert_eq!(Arg(0x8023_FFFF).kind(), ArgKind::Int);
    assert_eq!(Arg(0x8025_0000).kind(), ArgKind::Int);
    assert_eq!(Arg(0x8028_5960).kind(), ArgKind::Int);
}

#[test]
fn storage_names_are_prefix_and_hex_index() {
    let name = |s: i32| word(s).into_identifier().map(|id| id.0);
    assert_eq!(name(-30_000_000), Some("word_0".to_string()));
    assert_eq!(name(-30_000_000 + 0x1F), Some("word_1F".to_string()));
    assert_eq!(name(-70_000_000 + 3), Some("flag_3".to_string()));
    assert_eq!(name(-50_000_000 + 10), Some("mapvar_A".to_string()));
    assert_eq!(name(-90_000_000), Some("mapflag_0".to_string()));
    assert_eq!(name(-110_000_000 + 2), Some("areaflag_2".to_string()));
    assert_eq!(name(-130_000_000 + 255), Some("gameflag_FF".to_string()));
    assert_eq!(name(-150_000_000 + 1), Some("areabyte_1".to_string()));
    assert_eq!(name(-170_000_000 + 425), Some("gamebyte_1A9".to_string()));
    // an index below the middle of the range wraps round
    assert_eq!(name(-30_000_001), Some("word_FFFFFFFF".to_string()));
    assert_eq!(name(5), None);
    assert_eq!(name(-230_000_000), None);
    assert_eq!(name(-210_000_000), None);
}

#[test]
fn operands_as_expressions() {
    assert_eq!(Arg(7).into_expression(), Expression::LiteralInt(7));
    assert_eq!(Arg(0x8024_1234).into_expression(), Expression::LiteralInt(0x8024_1234));
    assert_eq!(
        word(-230_000_000 + 512).into_expression(),
        Expression::LiteralFloat(Fixed { raw: 512 })
    );
    assert_eq!(
        word(-230_000_000 - 1024).into_expression(),
        Expression::LiteralFloat(Fixed { raw: -1024 })
    );
    assert_eq!(
        word(-210_000_000 + 3).into_expression(),
        Expression::ArrayIndex(Identifier("flags".to_string()), 3)
    );
    assert_eq!(
        word(-190_000_000 + 9).into_expression(),
        Expression::ArrayIndex(Identifier("array".to_string()), 9)
    );
    assert_eq!(
        word(-30_000_000 + 2).into_expression(),
        Expression::Identifier(Identifier("word_2".to_string()))
    );
}

#[test]
fn targets_and_labels() {
    assert_eq!(
        Arg(0x8028_5960).into_ident_or_ptr(),
        Some(IdentifierOrPointer::Pointer(0x8028_5960))
    );
    assert_eq!(
        Arg(0x8024_0010).into_ident_or_ptr(),
        Some(IdentifierOrPointer::Pointer(0x8024_0010))
    );
    assert_eq!(word(-30_000_000).into_ident_or_ptr(), None);
    assert_eq!(Arg(12).into_int(), Some(12));
    assert_eq!(word(-5).into_int(), Some(-5));
    assert_eq!(word(-30_000_000).into_int(), None);
    assert_eq!(Arg(0x8024_0010).into_int(), None);
    assert_eq!(word(-5).as_signed(), -5);
    assert_eq!(Arg(0x8000_0000).as_signed(), i32::MIN);
}

#[test]
fn fixed_point_words_survive_decoding_and_encoding() {
    for s in [-249_999_999, -230_000_000, -229_998_976, -220_000_000] {
        let arg = word(s);
        assert_eq!(arg.kind(), ArgKind::Float);
        let decoded = Fixed::decode(arg);
        assert_eq!(decoded.raw, s as i64 + 230_000_000);
        assert_eq!(decoded.encode(), Some(arg));
    }
    assert_eq!(Fixed { raw: 1536 }.encode(), Some(word(1536 - 230_000_000)));
    assert_eq!(Fixed { raw: 10_000_001 }.encode(), None);
    assert_eq!(Fixed { raw: -20_000_000 }.encode(), None);
}

#[test]
fn opcodes_count_from_one() {
    assert_eq!(Opcode::from_u32(0), None);
    assert_eq!(Opcode::from_u32(1), Some(Opcode::End));
    assert_eq!(Opcode::from_u32(2), Some(Opcode::Return));
    assert_eq!(Opcode::from_u32(10), Some(Opcode::IfEq));
    assert_eq!(Opcode::from_u32(36), Some(Opcode::SetInt));
    assert_eq!(Opcode::from_u32(67), Some(Opcode::Call));
    assert_eq!(Opcode::from_u32(89), Some(Opcode::EndChildThread));
    assert_eq!(Opcode::from_u32(90), None);
    assert_eq!(LAST_OPCODE, 89);
    for code in 1..=LAST_OPCODE {
        assert_eq!(Opcode::from_u32(code).map(|op| op.to_u32()), Some(code));
    }
}

#[test]
fn comparison_opcodes_have_operators() {
    assert_eq!(Opcode::IfEq.into_operator(), Some(Operator::Eq));
    assert_eq!(Opcode::IfAndNz.into_operator(), Some(Operator::BitAndNz));
    assert_eq!(Opcode::IfAndZ.into_operator(), Some(Operator::BitAndZ));
    assert_eq!(Opcode::CaseOrEq.into_operator(), Some(Operator::Eq));
    assert_eq!(Opcode::CaseAndEq.into_operator(), Some(Operator::Eq));
    assert_eq!(Opcode::CaseGte.into_operator(), Some(Operator::Gte));
    assert_eq!(Opcode::CaseDefault.into_operator(), None);
    assert_eq!(Opcode::Return.into_operator(), None);
}
