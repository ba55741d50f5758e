use ztar_rod::ast::{Expression, Fixed, Identifier, IdentifierOrPointer, Statement, Trigger, TriggerObj};
use ztar_rod::loc::Location;
use ztar_rod::rom::Pointer;
use ztar_rod::scope::Scope;
use ztar_rod::text::{area_name, chars_of, hex_len, indent, join};
use ztar_rod::types::{Hint, Signature, Type};
use ztar_rod::unparse::Unparse;

fn strings(items: &[&str]) -> Vec<String> {
    items.iter().map(|s| s.to_string()).collect()
}

#[test]
fn join_puts_the_separator_between() {
    assert_eq!(join(&strings(&[]), ", "), "");
    assert_eq!(join(&strings(&["a"]), ", "), "a");
    assert_eq!(join(&strings(&["a", "b", "c"]), ", "), "a, b, c");
    assert_eq!(join(&strings(&["", ""]), "\n"), "\n");
}

#[test]
fn indent_adds_four_spaces_to_each_line() {
    assert_eq!(indent(""), "");
    assert_eq!(indent("a"), "    a");
    assert_eq!(indent("a\nb"), "    a\n    b");
    assert_eq!(indent("a\n\nb"), "    a\n    \n    b");
    assert_eq!(indent("a\n"), "    a");
    assert_eq!(indent("\n"), "    ");
    assert_eq!(indent("a\r\nb\r\n"), "    a\n    b");
    assert_eq!(indent("\r\n"), "    ");
    assert_eq!(indent("a\rb\r"), "    a\rb\r");
    assert_eq!(indent("if x {\n    y\n}"), "    if x {\n        y\n    }");
}

#[test]
fn area_names_end_at_the_first_underscore() {
    assert_eq!(area_name("kmr_00"), "kmr");
    assert_eq!(area_name("kmr_00_extra"), "kmr");
    assert_eq!(area_name("plain"), "plain");
    assert_eq!(area_name("_x"), "");
    assert_eq!(area_name(""), "");
}

#[test]
fn characters_and_digits() {
    assert_eq!(chars_of("héllo"), vec!['h', 'é', 'l', 'l', 'o']);
    assert_eq!(hex_len(0), 1);
    assert_eq!(hex_len(0xF), 1);
    assert_eq!(hex_len(0x10), 2);
    assert_eq!(hex_len(0xFFFF_FFFF), 8);
}

#[test]
fn locations_and_pointers_as_text() {
    assert_eq!(Location { base: 0x1E40020, offset: 0x1C }.to_text(), "0x01E40020+001C");
    assert_eq!(Location { base: 0xFFFF_FFFF, offset: 0x12345 }.to_text(), "0xFFFFFFFF+12345");
    assert_eq!(Pointer::Address(0x8024_0010).to_text(), "0x80240010");
    assert_eq!(Pointer::Address(0x10).to_text(), "0x00000010");
    assert_eq!(Pointer::NullPtr.to_text(), "nullptr");
}

#[test]
fn fixed_point_literals_are_written_exactly() {
    let scope = Scope::new();
    let write = |raw: i64| Expression::LiteralFloat(Fixed { raw }).unparse(&scope);
    assert_eq!(write(0), "0.0");
    assert_eq!(write(1024), "1.0");
    assert_eq!(write(1536), "1.5");
    assert_eq!(write(512), "0.5");
    assert_eq!(write(-256), "-0.25");
    assert_eq!(write(1), "0.0009765625");
    assert_eq!(write(1023), "0.9990234375");
    assert_eq!(write(-1025), "-1.0009765625");
    assert_eq!(write(102_400), "100.0");
    assert_eq!(write(10), "0.009765625");
}

#[test]
fn integer_literals_and_pointers_in_expressions() {
    let mut scope = Scope::new();
    scope.insert_ptr(0x8024_0100, "known".to_string(), ztar_rod::datatype::DataType::Fun(vec![]));
    let write = |e: Expression| e.unparse(&scope);
    assert_eq!(write(Expression::LiteralInt(0)), "0");
    assert_eq!(write(Expression::LiteralInt(42)), "42");
    assert_eq!(write(Expression::LiteralInt(0xFFFF_FFFF)), "-1");
    assert_eq!(write(Expression::LiteralInt(0x8000_0000)), "-2147483648");
    assert_eq!(write(Expression::LiteralInt(0x8024_0100)), "known");
    assert_eq!(write(Expression::LiteralInt(0x8024_0104)), "0x80240104");
    assert_eq!(write(Expression::LiteralBool(false)), "false");
    assert_eq!(
        write(Expression::ArrayIndex(Identifier("array".to_string()), 255)),
        "array[255]"
    );
    assert_eq!(IdentifierOrPointer::Pointer(0x8024_0100).unparse(&scope), "known");
    assert_eq!(IdentifierOrPointer::Pointer(0x1F).unparse(&scope), "0x1F");
}

#[test]
fn triggers_and_binds() {
    let scope = Scope::new();
    assert_eq!(
        Trigger::FloorTouch(TriggerObj::Collider(12)).unparse(&scope),
        "floortouch {collider:12}"
    );
    assert_eq!(
        Trigger::WallHammer(TriggerObj::Entity(3)).unparse(&scope),
        "wallhammer {entity:3}"
    );
    assert_eq!(
        Trigger::Bomb(IdentifierOrPointer::Pointer(0x8024_0000)).unparse(&scope),
        "bomb 0x80240000"
    );
    assert_eq!(
        Statement::Bind {
            trigger: Trigger::FlagChange(Identifier("areaflag_2".to_string())),
            dispatch: IdentifierOrPointer::Identifier(Identifier("on_change".to_string())),
        }
        .unparse(&scope),
        "bind flagchange areaflag_2 on_change"
    );
    assert_eq!(Statement::Unbind.unparse(&scope), "unbind");
}

#[test]
fn unparsing_twice_gives_the_same_text() {
    let mut scope = Scope::new();
    scope.insert_ptr(0x8024_0100, "known".to_string(), ztar_rod::datatype::DataType::Fun(vec![]));
    let tree = || {
        vec![
            Statement::If {
                condition: Expression::LiteralInt(0x8024_0100),
                block_true: vec![Statement::Loop {
                    times: ztar_rod::ast::LoopTimes::Infinite,
                    block: vec![Statement::BreakLoop],
                }],
                block_false: vec![Statement::Return, Statement::Return],
            },
            Statement::Label { name: "7".to_string() },
        ]
    };
    let first = tree().unparse(&scope);
    let second = tree().unparse(&scope);
    assert_eq!(first, second);
    assert_eq!(
        first,
        "if known {\n    loop {\n        breakloop\n    }\n} else {\n    return\n    return\n}\n.7"
    );
}

#[test]
fn listing_types_and_hints() {
    assert_eq!(Type::Undefined.to_text(), "undefined");
    assert_eq!(Type::Array(Box::new(Type::Array(Box::new(Type::Int)))).to_text(), "[[int]]");
    assert_eq!(Type::Function.to_text(), "fun");
    assert_eq!(Type::Collider.to_text(), "collider");
    let sig = Signature::new(vec![Type::Int, Type::Bool], None);
    assert_eq!(
        Hint::Asm(Signature::new(vec![Type::Int, Type::Bool], None)).unwrap_sig(),
        sig
    );
    assert_eq!(
        Hint::Function(Signature::new(vec![], Some(Type::Thread))).unwrap_sig(),
        Signature { args: vec![], ret: Some(Type::Thread) }
    );
}
