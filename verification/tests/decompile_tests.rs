use ztar_rod::arg::Arg;
use ztar_rod::ast::{
    AssignmentOperator, Expression, Identifier, Operator, Statement,
};
use ztar_rod::bytecode::{Bytecode, Error, Operation};
use ztar_rod::datatype::DataType;
use ztar_rod::opcode::Opcode;
use ztar_rod::scope::Scope;
use ztar_rod::unparse::Unparse;

fn funword(index: i32) -> Arg {
    Arg((index - 30_000_000) as u32)
}

fn funflag(index: i32) -> Arg {
    Arg((index - 70_000_000) as u32)
}

#[test]
fn first_set_declares_second_assigns() {
    let ops: Vec<Operation> = vec![
        (Opcode::SetInt, vec![funword(0), Arg(5)]),
        (Opcode::SetInt, vec![funword(0), Arg(6)]),
        (Opcode::End, vec![]),
    ];
    let mut scope = Scope::new();
    let stmts = Bytecode::new(ops).decompile(&mut scope).unwrap();
    assert_eq!(
        stmts,
        vec![
            Statement::VarDeclare {
                datatype: DataType::Any,
                identifier: Identifier("word_0".to_string()),
                expression: Some(Expression::LiteralInt(5)),
            },
            Statement::VarAssign {
                operator: AssignmentOperator::Eq,
                identifier: Identifier("word_0".to_string()),
                expression: Expression::LiteralInt(6),
            },
        ]
    );
}

#[test]
fn conditional_with_declaration_end_to_end() {
    let ops: Vec<Operation> = vec![
        (Opcode::IfEq, vec![funflag(3), Arg(1)]),
        (Opcode::SetInt, vec![funword(0), Arg(42)]),
        (Opcode::EndIf, vec![]),
        (Opcode::Return, vec![]),
        (Opcode::End, vec![]),
    ];
    let mut scope = Scope::new();
    let stmts = Bytecode::new(ops).decompile(&mut scope).unwrap();
    assert_eq!(
        stmts,
        vec![Statement::If {
            condition: Expression::Operation {
                lhs: Box::new(Expression::Identifier(Identifier("flag_3".to_string()))),
                op: Operator::Eq,
                rhs: Box::new(Expression::LiteralBool(true)),
            },
            block_true: vec![Statement::VarDeclare {
                datatype: DataType::Any,
                identifier: Identifier("word_0".to_string()),
                expression: Some(Expression::LiteralInt(42)),
            }],
            block_false: vec![],
        }]
    );
    assert_eq!(stmts.unparse(&scope), "if flag_3 == true {\n    var word_0 = 42\n}");
}

#[test]
fn missing_end_is_an_error() {
    let ops: Vec<Operation> = vec![(Opcode::SetInt, vec![funword(0), Arg(5)])];
    let mut scope = Scope::new();
    let r = Bytecode::new(ops).decompile(&mut scope);
    assert_eq!(r, Err(Error::MissingEnd));
    assert_eq!(scope.lookup_name("word_0"), None);
}
