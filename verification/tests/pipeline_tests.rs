use ztar_rod::arg::Arg;
use ztar_rod::ast::{
    AssignmentOperator, Case, Expression, Fixed, Identifier, IdentifierOrPointer, LoopTimes,
    MethodThreading, Operator, Statement, TimeUnit,
};
use ztar_rod::bytecode::{Bytecode, Error, Operation};
use ztar_rod::datatype::DataType;
use ztar_rod::loc::{Dma, Location, Text};
use ztar_rod::opcode::Opcode;
use ztar_rod::rom::Rom;
use ztar_rod::scope::Scope;
use ztar_rod::capture::fix_call_arg_capture;
use ztar_rod::infer::{infer_datatypes, name_method_ptr, update_literal};
use ztar_rod::script::{decompile_map, GameMap, KnownMethod};
use ztar_rod::unparse::Unparse;

fn word(index: i32) -> Arg {
    Arg((index - 30_000_000) as u32)
}

fn flag(index: i32) -> Arg {
    Arg((index - 70_000_000) as u32)
}

fn ident(name: &str) -> Identifier {
    Identifier(name.to_string())
}

fn decompile(ops: Vec<Operation>) -> Result<Vec<Statement>, Error> {
    let mut scope = Scope::new();
    Bytecode::new(ops).decompile(&mut scope)
}

#[test]
fn if_else_is_rebuilt() {
    let stmts = decompile(vec![
        (Opcode::IfLt, vec![word(1), Arg(10)]),
        (Opcode::BreakLoop, vec![]),
        (Opcode::Else, vec![]),
        (Opcode::BreakCase, vec![]),
        (Opcode::EndIf, vec![]),
        (Opcode::End, vec![]),
    ])
    .unwrap();
    assert_eq!(
        stmts,
        vec![Statement::If {
            condition: Expression::Operation {
                lhs: Box::new(Expression::Identifier(ident("word_1"))),
                op: Operator::Lt,
                rhs: Box::new(Expression::LiteralInt(10)),
            },
            block_true: vec![Statement::BreakLoop],
            block_false: vec![Statement::BreakCase],
        }]
    );
    let scope = Scope::new();
    assert_eq!(
        stmts.unparse(&scope),
        "if word_1 < 10 {\n    breakloop\n} else {\n    breakcase\n}"
    );
}

#[test]
fn switch_with_cases_and_default() {
    let stmts = decompile(vec![
        (Opcode::Switch, vec![word(0)]),
        (Opcode::CaseEq, vec![Arg(1)]),
        (Opcode::Return, vec![]),
        (Opcode::CaseGt, vec![Arg(5)]),
        (Opcode::CaseDefault, vec![]),
        (Opcode::BreakCase, vec![]),
        (Opcode::EndSwitch, vec![]),
        (Opcode::End, vec![]),
    ])
    .unwrap();
    assert_eq!(
        stmts,
        vec![Statement::Switch {
            expression: Expression::Identifier(ident("word_0")),
            cases: vec![
                (
                    Case::Test { operator: Operator::Eq, against: Expression::LiteralInt(1) },
                    vec![Statement::Return]
                ),
                (
                    Case::Test { operator: Operator::Gt, against: Expression::LiteralInt(5) },
                    vec![]
                ),
                (Case::Default, vec![Statement::BreakCase]),
            ],
        }]
    );
    let scope = Scope::new();
    assert_eq!(
        stmts.unparse(&scope),
        "switch word_0 {\n    case == 1 {\n        return\n    }\n    case > 5 {\n    \n    }\n    default {\n        breakcase\n    }\n}"
    );
}

#[test]
fn case_after_default_is_refused() {
    let r = decompile(vec![
        (Opcode::Switch, vec![word(0)]),
        (Opcode::CaseDefault, vec![]),
        (Opcode::CaseEq, vec![Arg(1)]),
        (Opcode::EndSwitch, vec![]),
        (Opcode::End, vec![]),
    ]);
    assert_eq!(r, Err(Error::CaseAfterDefault(Opcode::CaseEq)));
}

#[test]
fn case_and_eq_is_unimplemented() {
    let r = decompile(vec![
        (Opcode::Switch, vec![word(0)]),
        (Opcode::CaseAndEq, vec![Arg(1)]),
        (Opcode::EndSwitch, vec![]),
        (Opcode::End, vec![]),
    ]);
    assert_eq!(r, Err(Error::UnimplementedOpcode(Opcode::CaseAndEq)));
}

#[test]
fn switch_without_arms_ends_at_the_next_statement() {
    let stmts = decompile(vec![
        (Opcode::Switch, vec![word(0)]),
        (Opcode::BreakLoop, vec![]),
        (Opcode::End, vec![]),
    ])
    .unwrap();
    assert_eq!(
        stmts,
        vec![
            Statement::Switch {
                expression: Expression::Identifier(ident("word_0")),
                cases: vec![],
            },
            Statement::BreakLoop,
        ]
    );
}

#[test]
fn thread_and_loop_are_rebuilt() {
    let stmts = decompile(vec![
        (Opcode::Thread, vec![]),
        (Opcode::Loop, vec![Arg(0)]),
        (Opcode::Wait, vec![Arg(1)]),
        (Opcode::EndLoop, vec![]),
        (Opcode::EndThread, vec![]),
        (Opcode::Loop, vec![Arg(3)]),
        (Opcode::WaitSeconds, vec![Arg(2)]),
        (Opcode::EndLoop, vec![]),
        (Opcode::End, vec![]),
    ])
    .unwrap();
    assert_eq!(
        stmts,
        vec![
            Statement::Thread {
                block: vec![Statement::Loop {
                    times: LoopTimes::Infinite,
                    block: vec![Statement::Wait {
                        time: Expression::LiteralInt(1),
                        unit: TimeUnit::Frames
                    }],
                }],
            },
            Statement::Loop {
                times: LoopTimes::Expression(Expression::LiteralInt(3)),
                block: vec![Statement::Wait {
                    time: Expression::LiteralInt(2),
                    unit: TimeUnit::Seconds
                }],
            },
        ]
    );
    let scope = Scope::new();
    assert_eq!(
        stmts.unparse(&scope),
        "thread {\n    loop {\n        wait 1\n    }\n}\nloop 3 {\n    waitsecs 2\n}"
    );
}

#[test]
fn structural_errors() {
    assert_eq!(decompile(vec![]), Err(Error::MissingEnd));
    assert_eq!(
        decompile(vec![(Opcode::End, vec![]), (Opcode::Return, vec![])]),
        Err(Error::UnexpectedEnd)
    );
    assert_eq!(
        decompile(vec![(Opcode::IfEq, vec![word(0)]), (Opcode::End, vec![])]),
        Err(Error::MissingArg(Opcode::IfEq, 1))
    );
    assert_eq!(
        decompile(vec![(Opcode::IfEq, vec![word(0), Arg(1)]), (Opcode::End, vec![])]),
        Err(Error::UnexpectedEnd)
    );
    assert_eq!(
        decompile(vec![(Opcode::SetInt, vec![Arg(7), Arg(1)]), (Opcode::End, vec![])]),
        Err(Error::BadArg(Opcode::SetInt, 0))
    );
    assert_eq!(
        decompile(vec![(Opcode::Else, vec![]), (Opcode::End, vec![])]),
        Err(Error::UnimplementedOpcode(Opcode::Else))
    );
    assert_eq!(
        decompile(vec![(Opcode::Label, vec![word(0)]), (Opcode::End, vec![])]),
        Err(Error::BadArg(Opcode::Label, 0))
    );
    assert_eq!(
        decompile(vec![(Opcode::Thread, vec![]), (Opcode::Return, vec![])]),
        Err(Error::MissingEnd)
    );
}

#[test]
fn empty_script_is_empty() {
    assert_eq!(decompile(vec![(Opcode::End, vec![])]), Ok(vec![]));
    assert_eq!(decompile(vec![(Opcode::Return, vec![]), (Opcode::End, vec![])]), Ok(vec![]));
}

#[test]
fn calls_labels_and_arithmetic() {
    let stmts = decompile(vec![
        (Opcode::Label, vec![Arg(3)]),
        (Opcode::Call, vec![Arg(0x802C9288), Arg(4), Arg(1)]),
        (Opcode::Exec, vec![Arg(0x80241234)]),
        (Opcode::ExecRet, vec![Arg(0x80241234), word(2), Arg(9)]),
        (Opcode::AddInt, vec![word(0), Arg(1)]),
        (Opcode::Goto, vec![Arg(3)]),
        (Opcode::End, vec![]),
    ])
    .unwrap();
    assert_eq!(
        stmts,
        vec![
            Statement::Label { name: "3".to_string() },
            Statement::MethodCall {
                method: IdentifierOrPointer::Pointer(0x802C9288),
                arguments: vec![Expression::LiteralInt(4), Expression::LiteralInt(1)],
                threading: MethodThreading::No,
                bc_is_func: false,
            },
            Statement::MethodCall {
                method: IdentifierOrPointer::Pointer(0x80241234),
                arguments: vec![],
                threading: MethodThreading::Yes,
                bc_is_func: true,
            },
            Statement::MethodCall {
                method: IdentifierOrPointer::Pointer(0x80241234),
                arguments: vec![Expression::LiteralInt(9)],
                threading: MethodThreading::Assign(ident("word_2")),
                bc_is_func: true,
            },
            Statement::VarAssign {
                operator: AssignmentOperator::Add,
                identifier: ident("word_0"),
                expression: Expression::LiteralInt(1),
            },
            Statement::Goto { label_name: "3".to_string() },
        ]
    );
    let scope = Scope::new();
    assert_eq!(
        stmts.unparse(&scope),
        ".3\n0x802C9288(4, 1)\nthread 0x80241234()\nword_2 = thread 0x80241234(9)\nword_0 += 1\ngoto .3"
    );
}

#[test]
fn set_float_declares_a_float() {
    // 1.5 is 1536 / 1024
    let one_and_a_half = Arg((1536 - 230_000_000i32) as u32);
    let mut scope = Scope::new();
    let stmts = Bytecode::new(vec![
        (Opcode::SetFloat, vec![word(4), one_and_a_half]),
        (Opcode::SetInt, vec![flag(1), Arg(0)]),
        (Opcode::End, vec![]),
    ])
    .decompile(&mut scope)
    .unwrap();
    assert_eq!(
        stmts,
        vec![
            Statement::VarDeclare {
                datatype: DataType::Float,
                identifier: ident("word_4"),
                expression: Some(Expression::LiteralFloat(Fixed { raw: 1536 })),
            },
            Statement::VarDeclare {
                datatype: DataType::Bool,
                identifier: ident("flag_1"),
                expression: Some(Expression::LiteralInt(0)),
            },
        ]
    );
    assert_eq!(scope.lookup_name("word_4"), Some(&DataType::Any));
    assert_eq!(scope.lookup_name("flag_1"), Some(&DataType::Bool));
    assert_eq!(
        stmts.unparse(&scope),
        "var word_4: float = 1.5\nvar flag_1: bool = 0"
    );
}

#[test]
fn else_if_is_contracted() {
    let inner = Statement::If {
        condition: Expression::LiteralBool(false),
        block_true: vec![Statement::Return],
        block_false: vec![],
    };
    let outer = Statement::If {
        condition: Expression::LiteralBool(true),
        block_true: vec![],
        block_false: vec![inner],
    };
    let scope = Scope::new();
    assert_eq!(
        outer.unparse(&scope),
        "if true {\n\n} else if false {\n    return\n}"
    );
}

#[test]
fn capture_fills_in_arguments_of_known_scripts() {
    let mut scope = Scope::new();
    scope.insert_ptr(
        0x80285960,
        "enter_walk".to_string(),
        DataType::Fun(vec![DataType::Fun(vec![])]),
    );
    scope.insert_ptr(0x802C9288, "model_enable".to_string(), DataType::Asm(vec![DataType::Int, DataType::Bool]));
    let call = |ptr: u32, arguments: Vec<Expression>| Statement::MethodCall {
        method: IdentifierOrPointer::Pointer(ptr),
        arguments,
        threading: MethodThreading::No,
        bc_is_func: true,
    };
    let block = vec![
        call(0x80285960, vec![]),
        call(0x802C9288, vec![]),
        Statement::Thread { block: vec![call(0x80285960, vec![])] },
    ];
    let fixed = fix_call_arg_capture(block, &scope);
    let expected = vec![
        call(0x80285960, vec![Expression::Identifier(ident("word_0"))]),
        call(0x802C9288, vec![]),
        Statement::Thread {
            block: vec![call(0x80285960, vec![Expression::Identifier(ident("word_0"))])],
        },
    ];
    assert_eq!(fixed, expected);
    // running it again changes nothing
    let again = fix_call_arg_capture(fixed, &scope);
    assert_eq!(again, expected);
    assert_eq!(again.unparse(&scope), "enter_walk(word_0)\nmodel_enable()\nthread {\n    enter_walk(word_0)\n}");
}

#[test]
fn literals_are_rewritten_to_the_expected_type() {
    assert_eq!(
        update_literal(Expression::LiteralInt(1), &DataType::Bool),
        (Expression::LiteralBool(true), None)
    );
    assert_eq!(
        update_literal(Expression::LiteralInt(2), &DataType::Bool),
        (Expression::LiteralBool(false), None)
    );
    assert_eq!(
        update_literal(Expression::LiteralInt(0), &DataType::Float),
        (Expression::LiteralFloat(Fixed { raw: 0 }), None)
    );
    assert_eq!(
        update_literal(Expression::LiteralInt((1024 - 230_000_000i32) as u32), &DataType::Float),
        (Expression::LiteralFloat(Fixed { raw: 1024 }), None)
    );
    assert_eq!(
        update_literal(Expression::LiteralInt(0x8024_0ABC), &DataType::Fun(vec![])),
        (
            Expression::Identifier(ident("dump_0ABC")),
            Some((Some(0x8024_0ABC), "dump_0ABC".to_string(), DataType::Fun(vec![])))
        )
    );
    assert_eq!(
        update_literal(Expression::LiteralInt(0x8025_0ABC), &DataType::Fun(vec![])),
        (Expression::LiteralInt(0x8025_0ABC), None)
    );
    assert_eq!(
        update_literal(Expression::LiteralInt(5), &DataType::Int),
        (Expression::LiteralInt(5), None)
    );
    assert_eq!(name_method_ptr(0x8024_0001), "dump_0001");
    assert_eq!(name_method_ptr(0x8024_FFFF), "dump_FFFF");
}

#[test]
fn inference_takes_types_from_use() {
    let mut scope = Scope::new();
    scope.insert_ptr(
        0x802C9288,
        "model_enable".to_string(),
        DataType::Asm(vec![DataType::Int, DataType::Bool]),
    );
    scope.push();
    let stmts = Bytecode::new(vec![
        (Opcode::SetInt, vec![word(0), Arg(7)]),
        (Opcode::Call, vec![Arg(0x802C9288), word(0), Arg(1)]),
        (Opcode::Exec, vec![Arg(0x8024_1000), word(0)]),
        (Opcode::End, vec![]),
    ])
    .decompile(&mut scope)
    .unwrap();
    let (stmts, warnings) = infer_datatypes(stmts, &mut scope);
    assert!(warnings.is_empty());
    assert_eq!(scope.lookup_name("word_0"), Some(&DataType::Int));
    assert_eq!(scope.lookup_ptr(0x8024_1000), Some("dump_1000"));
    assert_eq!(
        stmts,
        vec![
            Statement::VarDeclare {
                datatype: DataType::Int,
                identifier: ident("word_0"),
                expression: Some(Expression::LiteralInt(7)),
            },
            Statement::MethodCall {
                method: IdentifierOrPointer::Pointer(0x802C9288),
                arguments: vec![
                    Expression::Identifier(ident("word_0")),
                    Expression::LiteralBool(true)
                ],
                threading: MethodThreading::No,
                bc_is_func: false,
            },
            Statement::MethodCall {
                method: IdentifierOrPointer::Pointer(0x8024_1000),
                arguments: vec![Expression::Identifier(ident("word_0"))],
                threading: MethodThreading::Yes,
                bc_is_func: true,
            },
        ]
    );
    assert_eq!(
        stmts.unparse(&scope),
        "var word_0: int = 7\nmodel_enable(word_0, true)\nthread dump_1000(word_0)"
    );
    let flat = scope.pop().unwrap();
    assert_eq!(
        flat,
        vec![
            (Some(0x8024_1000), "dump_1000".to_string(), DataType::Fun(vec![DataType::Any])),
            (None, "word_0".to_string(), DataType::Int),
        ]
    );
}

#[test]
fn declared_type_that_disagrees_is_remarked_on() {
    let mut scope = Scope::new();
    scope.insert_name("word_0".to_string(), DataType::Int);
    let block = vec![Statement::VarDeclare {
        datatype: DataType::Float,
        identifier: ident("word_0"),
        expression: None,
    }];
    let (block, warnings) = infer_datatypes(block, &mut scope);
    assert_eq!(warnings.len(), 1);
    assert_eq!(
        warnings[0].message(),
        "variable 'word_0' declared as float but is used as int"
    );
    assert_eq!(scope.lookup_name("word_0"), Some(&DataType::Int));
    assert_eq!(
        block,
        vec![Statement::VarDeclare {
            datatype: DataType::Any,
            identifier: ident("word_0"),
            expression: None
        }]
    );
}

fn be(words: &[u32]) -> Vec<u8> {
    let mut bytes = Vec::new();
    for w in words {
        bytes.extend_from_slice(&w.to_be_bytes());
    }
    bytes
}

fn rom_with(at: usize, words: &[u32]) -> Rom {
    let mut bytes = vec![0u8; at];
    bytes[0] = 0x80;
    bytes[0x3E] = b'E';
    bytes.extend(be(words));
    Rom::from(bytes).unwrap()
}

#[test]
fn bytecode_is_read_up_to_end() {
    let mut rom = rom_with(0x100, &[36, 2, (-30_000_000i32) as u32, 5, 2, 0, 1, 0, 99]);
    rom.seek(Location { base: 0x100, offset: 0 });
    let bc = Bytecode::read(&mut rom).unwrap();
    assert_eq!(bc.len(), 3);
    assert_eq!(rom.position(), 0x100 + 32);
    let mut scope = Scope::new();
    assert_eq!(
        bc.decompile(&mut scope).unwrap(),
        vec![Statement::VarDeclare {
            datatype: DataType::Any,
            identifier: ident("word_0"),
            expression: Some(Expression::LiteralInt(5)),
        }]
    );
}

#[test]
fn bytecode_without_end_or_with_unknown_opcode() {
    let mut rom = rom_with(0x100, &[2, 0]);
    rom.seek(Location::new(0x100));
    assert_eq!(Bytecode::read(&mut rom).err(), Some(Error::MissingEnd));
    let mut rom = rom_with(0x100, &[90, 0, 1, 0]);
    rom.seek(Location::new(0x100));
    assert_eq!(Bytecode::read(&mut rom).err(), Some(Error::UnknownOpcode(90)));
    let mut rom = rom_with(0x100, &[0, 0, 1, 0]);
    rom.seek(Location::new(0x100));
    assert_eq!(Bytecode::read(&mut rom).err(), Some(Error::UnknownOpcode(0)));
    let mut rom = rom_with(0x100, &[2, 5, 1]);
    rom.seek(Location::new(0x100));
    assert_eq!(Bytecode::read(&mut rom).err(), Some(Error::MissingEnd));
}

#[test]
fn a_map_is_decompiled_with_the_scripts_it_leads_to() {
    // main at 0x100 (vaddr 0x80240000): exec 0x80240040; return; end
    // script at 0x140 (vaddr 0x80240040): set word_0 = 1; exec 0x80240000 (main's vaddr, itself a script); end
    let mut words: Vec<u32> = vec![68, 1, 0x8024_0040, 2, 0, 1, 0];
    while words.len() < 16 {
        words.push(0);
    }
    words.extend_from_slice(&[36, 2, (-30_000_000i32) as u32, 1, 68, 1, 0x8024_0040, 1, 0]);
    let mut rom = rom_with(0x100, &words);
    let dma = Dma::new(0x100, 0x200, 0x8024_0000);
    rom.seek(Location::new(0x100));
    let main = Bytecode::read(&mut rom).unwrap();
    let map = GameMap {
        name: "test_00".to_string(),
        init_asm: None,
        main_fun: (Location::new(0x100), main),
        dma,
        entrances: vec![],
        tattle: Text::Id(0, 0),
        background: None,
        flags: 0,
    };
    let globals: Vec<KnownMethod> = vec![];
    let out = decompile_map(map, &rom, &globals, 100).unwrap();
    assert!(out.warnings.is_empty());
    assert_eq!(
        out.source,
        "fun main() {\n    thread dump_0040()\n}\n\nfun dump_0040() {\n    var word_0 = 1\n    thread dump_0040()\n}"
    );
}

#[test]
fn following_scripts_stops_at_the_depth_allowed() {
    let words: Vec<u32> = vec![68, 1, 0x8024_0000, 1, 0];
    let mut rom = rom_with(0x100, &words);
    let dma = Dma::new(0x100, 0x200, 0x8024_0000);
    rom.seek(Location::new(0x100));
    let main = Bytecode::read(&mut rom).unwrap();
    let map = GameMap {
        name: "test_01".to_string(),
        init_asm: None,
        main_fun: (Location::new(0x100), main),
        dma,
        entrances: vec![],
        tattle: Text::Id(0, 0),
        background: None,
        flags: 0,
    };
    let globals: Vec<KnownMethod> = vec![];
    let r = decompile_map(map, &rom, &globals, 0);
    assert_eq!(r.err(), Some(ztar_rod::script::Error::TooDeep));
}

#[test]
fn inference_runs_until_a_pass_brings_no_news() {
    // word_1 takes its type from word_0, which takes it from the call
    let mut scope = Scope::new();
    scope.insert_ptr(0x802C8F28, "model_clone".to_string(), DataType::Asm(vec![DataType::Int, DataType::Int]));
    scope.push();
    let stmts = Bytecode::new(vec![
        (Opcode::SetInt, vec![word(0), Arg(1)]),
        (Opcode::SetInt, vec![word(1), Arg(2)]),
        (Opcode::SetInt, vec![word(1), word(0)]),
        (Opcode::Loop, vec![Arg(0)]),
        (Opcode::Call, vec![Arg(0x802C8F28), word(0), Arg(3)]),
        (Opcode::SetFloat, vec![word(2), Arg(0)]),
        (Opcode::SetInt, vec![word(2), Arg((2048 - 230_000_000i32) as u32)]),
        (Opcode::EndLoop, vec![]),
        (Opcode::End, vec![]),
    ])
    .decompile(&mut scope)
    .unwrap();
    let (stmts, warnings) = infer_datatypes(stmts, &mut scope);
    // the declaration of word_2 is met while the scope has no type for it yet
    assert_eq!(warnings.len(), 1);
    assert_eq!(
        warnings[0].message(),
        "variable 'word_2' declared as float but is used as any"
    );
    assert_eq!(scope.lookup_name("word_0"), Some(&DataType::Int));
    assert_eq!(scope.lookup_name("word_1"), Some(&DataType::Int));
    assert_eq!(scope.lookup_name("word_2"), Some(&DataType::Float));
    assert_eq!(
        ztar_rod::unparse::unparse_block(&stmts, &scope),
        "var word_0: int = 1\n\
         var word_1: int = 2\n\
         word_1 = word_0\n\
         loop {\n\
         \x20   model_clone(word_0, 3)\n\
         \x20   var word_2: float = 0.0\n\
         \x20   word_2 = 2.0\n\
         }"
    );
    // a second run changes nothing
    let before = stmts.clone().unparse(&scope);
    let (again, warnings) = infer_datatypes(stmts, &mut scope);
    assert!(warnings.is_empty());
    assert_eq!(again.unparse(&scope), before);
}

#[test]
fn no_block_is_left_open() {
    let stmts = decompile(vec![
        (Opcode::IfEq, vec![flag(3), Arg(1)]),
        (Opcode::Switch, vec![word(0)]),
        (Opcode::CaseEq, vec![Arg(1)]),
        (Opcode::Loop, vec![Arg(0)]),
        (Opcode::Thread, vec![]),
        (Opcode::Call, vec![Arg(0x8024_0040), word(1)]),
        (Opcode::EndThread, vec![]),
        (Opcode::BreakLoop, vec![]),
        (Opcode::EndLoop, vec![]),
        (Opcode::CaseDefault, vec![]),
        (Opcode::SetInt, vec![word(1), Arg(2)]),
        (Opcode::EndSwitch, vec![]),
        (Opcode::Else, vec![]),
        (Opcode::IfLt, vec![word(0), Arg(4)]),
        (Opcode::Wait, vec![Arg(1)]),
        (Opcode::EndIf, vec![]),
        (Opcode::EndIf, vec![]),
        (Opcode::Return, vec![]),
        (Opcode::End, vec![]),
    ])
    .unwrap();
    let scope = Scope::new();
    let text = stmts.unparse(&scope);
    let opening = text.chars().filter(|c| *c == '{').count();
    let closing = text.chars().filter(|c| *c == '}').count();
    // one pair for each block: if, switch, two arms, loop, thread, else if
    assert_eq!(opening, 7);
    assert_eq!(closing, 7);
    // the deepest line stands five blocks deep, the first and the last in none
    assert!(text.starts_with("if flag_3 == true {\n"));
    assert!(text.ends_with("\n}"));
    assert!(text.contains("\n                    0x80240040(word_1)\n"));
    let mut open: i32 = 0;
    for c in text.chars() {
        if c == '{' {
            open += 1;
        } else if c == '}' {
            open -= 1;
        }
        assert!(open >= 0);
    }
    assert_eq!(open, 0);
}
