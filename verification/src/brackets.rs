//! Curly brackets in written scripts. The blocks of a script are written
//! in curly brackets, one pair for each block, so a script is written
//! with as many opening as closing brackets, whatever its statements are
//! and however deep they nest: no block is left open.

use vstd::prelude::*;
use crate::arg::{Arg, ArgKind, storage_name};
use crate::ast::{CaseModel, ExprModel, LoopModel, StmtModel, TargetModel, ThreadingModel};
use crate::bytecode::{
    assignment, assignment_operator, call, case_head, if_condition, parse_block, parse_cases,
    parse_op, parse_script, simple_statement, tail_expressions, without_final_return, BlockEnd,
    OpModel, Stop,
};
use crate::datatype::{type_text, TypeModel};
use crate::opcode::Opcode;
use crate::scope::ScopeModel;
use crate::text::{decimal, hex_digit, hex_upper, indented, indented_rest, joined, signed_decimal};
use crate::unparse::{
    arguments_text, assignment_text, block_text, braced, case_head_text, cases_text, expr_text,
    exprs_text, fixed_digits, fixed_text, fraction_digits, int_text, operator_text, stmt_text,
    stmts_text, target_text,
};

verus! {

/// What a character adds to the number of blocks that are open: one for
/// an opening curly bracket, one less for a closing one.
pub open spec fn weight(c: char) -> int {
    if c == '{' {
        1
    } else if c == '}' {
        -1
    } else {
        0
    }
}

/// How many more opening than closing curly brackets a text has.
pub open spec fn open_brackets(s: Seq<char>) -> int
    decreases s.len(),
{
    if s.len() == 0 {
        0
    } else {
        weight(s[0]) + open_brackets(s.skip(1))
    }
}

/// Whether a text has as many opening as closing curly brackets.
pub open spec fn level(s: Seq<char>) -> bool {
    open_brackets(s) == 0
}

/// Whether what stands outside the blocks of a statement is level: the
/// statement itself if it has no block, else its condition, its subject,
/// the heads of its arms or its count, and the same of every statement in
/// its blocks.
pub open spec fn leaves_level(s: StmtModel, scope: ScopeModel) -> bool
    decreases s, 1nat,
{
    match s {
        StmtModel::If { condition, block_true, block_false } => level(expr_text(condition, scope))
            && block_leaves_level(block_true, scope) && block_leaves_level(block_false, scope),
        StmtModel::Switch { expression, cases } => level(expr_text(expression, scope))
            && cases_leaves_level(cases, scope),
        StmtModel::Thread { block } => block_leaves_level(block, scope),
        StmtModel::Loop { times, block } => (match times {
            LoopModel::Times(e) => level(expr_text(e, scope)),
            LoopModel::Infinite => true,
        }) && block_leaves_level(block, scope),
        other => level(stmt_text(other, scope)),
    }
}

/// Whether what stands outside the blocks is level in every statement of
/// a block.
pub open spec fn block_leaves_level(block: Seq<StmtModel>, scope: ScopeModel) -> bool
    decreases block, 0nat,
{
    forall|i: int| 0 <= i < block.len() ==> leaves_level(#[trigger] block[i], scope)
}

/// Whether the head of every arm of a switch is level, and what stands
/// outside the blocks in every statement of the arm.
pub open spec fn cases_leaves_level(
    cases: Seq<(CaseModel, Seq<StmtModel>)>,
    scope: ScopeModel,
) -> bool
    decreases cases, 0nat,
{
    forall|i: int|
        0 <= i < cases.len() ==> level(case_head_text((#[trigger] cases[i]).0, scope))
            && block_leaves_level(cases[i].1, scope)
}

/// The brackets of two texts written one after the other add up.
pub proof fn lemma_add(a: Seq<char>, b: Seq<char>)
    ensures
        open_brackets(a + b) == open_brackets(a) + open_brackets(b),
    decreases a.len(),
{
    if a.len() == 0 {
        assert(a + b =~= b);
    } else {
        assert((a + b).skip(1) =~= a.skip(1) + b);
        lemma_add(a.skip(1), b);
    }
}

/// A single character has its own weight.
pub proof fn lemma_one(c: char)
    ensures
        open_brackets(seq![c]) == weight(c),
{
    assert(seq![c].skip(1).len() == 0);
    assert(open_brackets(seq![c].skip(1)) == 0);
}

/// The brackets of three texts written one after the other add up.
pub proof fn lemma_add3(a: Seq<char>, b: Seq<char>, c: Seq<char>)
    ensures
        open_brackets(a + b + c) == open_brackets(a) + open_brackets(b) + open_brackets(c),
{
    lemma_add(a, b);
    lemma_add(a + b, c);
}

/// A text without curly brackets is level.
pub proof fn lemma_plain(s: Seq<char>)
    requires
        forall|i: int| 0 <= i < s.len() ==> s[i] != '{' && s[i] != '}',
    ensures
        level(s),
    decreases s.len(),
{
    if s.len() > 0 {
        assert forall|i: int| 0 <= i < s.skip(1).len() implies s.skip(1)[i] != '{' && s.skip(1)[i]
            != '}' by {
            assert(s.skip(1)[i] == s[i + 1]);
        }
        lemma_plain(s.skip(1));
    }
}

/// Level texts with a level text between each two of them are level.
pub proof fn lemma_joined(items: Seq<Seq<char>>, sep: Seq<char>)
    requires
        forall|i: int| 0 <= i < items.len() ==> level(#[trigger] items[i]),
        level(sep),
    ensures
        level(joined(items, sep)),
    decreases items.len(),
{
    if items.len() > 1 {
        lemma_joined(items.drop_last(), sep);
        lemma_add3(joined(items.drop_last(), sep), sep, items.last());
    }
}

/// Indentation adds no bracket.
proof fn lemma_indented_rest(s: Seq<char>)
    ensures
        open_brackets(indented_rest(s)) == open_brackets(s),
    decreases s.len(),
{
    if s.len() == 0 {
    } else if s[0] == '\r' && s.len() > 1 && s[1] == '\n' {
        lemma_indented_rest(s.skip(1));
    } else if s[0] == '\n' {
        if s.len() == 1 {
            assert(open_brackets(s.skip(1)) == 0);
        } else {
            lemma_indented_rest(s.skip(1));
            lemma_plain(seq!['\n', ' ', ' ', ' ', ' ']);
            lemma_add(seq!['\n', ' ', ' ', ' ', ' '], indented_rest(s.skip(1)));
        }
    } else {
        lemma_indented_rest(s.skip(1));
        lemma_add(seq![s[0]], indented_rest(s.skip(1)));
        lemma_one(s[0]);
    }
}

/// Indentation adds no bracket.
pub proof fn lemma_indented(s: Seq<char>)
    ensures
        open_brackets(indented(s)) == open_brackets(s),
{
    if s.len() > 0 {
        lemma_indented_rest(s);
        lemma_plain(seq![' ', ' ', ' ', ' ']);
        lemma_add(seq![' ', ' ', ' ', ' '], indented_rest(s));
    }
}

/// The brackets round a block are a pair: the block in brackets has as
/// many brackets open as the block by itself.
pub proof fn lemma_braced(body: Seq<char>)
    ensures
        open_brackets(braced(body)) == open_brackets(body),
{
    reveal_strlit("{\n");
    reveal_strlit("\n}");
    let open = "{\n"@;
    let close = "\n}"@;
    assert(open =~= seq!['{'] + seq!['\n']);
    assert(close =~= seq!['\n'] + seq!['}']);
    lemma_add(seq!['{'], seq!['\n']);
    lemma_add(seq!['\n'], seq!['}']);
    lemma_plain(seq!['\n']);
    lemma_one('{');
    lemma_one('}');
    lemma_indented(body);
    lemma_add3(open, indented(body), close);
}

/// A block in brackets after a head: the brackets open are those of the
/// head and of the block.
proof fn lemma_headed(head: Seq<char>, body: Seq<char>)
    ensures
        open_brackets(head + braced(body)) == open_brackets(head) + open_brackets(body),
{
    lemma_braced(body);
    lemma_add(head, braced(body));
}

/// A word of the language, an expression and a space: the brackets open
/// are those of the expression.
proof fn lemma_worded(word: Seq<char>, e: Seq<char>)
    requires
        forall|i: int| 0 <= i < word.len() ==> word[i] != '{' && word[i] != '}',
    ensures
        open_brackets(word + e + " "@) == open_brackets(e),
{
    reveal_strlit(" ");
    lemma_plain(word);
    lemma_plain(" "@);
    lemma_add3(word, e, " "@);
}

/// No block is left open: a statement is written with as many opening as
/// closing curly brackets, if what stands outside its blocks is.
pub proof fn lemma_stmt_level(s: StmtModel, scope: ScopeModel)
    requires
        leaves_level(s, scope),
    ensures
        level(stmt_text(s, scope)),
    decreases s, 3nat,
{
    match s {
        StmtModel::If { condition, block_true, block_false } => {
            reveal_strlit("if ");
            reveal_strlit(" else ");
            let start = "if "@ + expr_text(condition, scope) + " "@;
            lemma_worded("if "@, expr_text(condition, scope));
            lemma_block_level(block_true, scope);
            let head = start + braced(block_text(block_true, scope));
            lemma_headed(start, block_text(block_true, scope));
            lemma_plain(" else "@);
            if block_false.len() == 0 {
            } else if block_false.len() == 1 && block_false[0] is If {
                lemma_stmt_level(block_false[0], scope);
                lemma_add3(head, " else "@, stmt_text(block_false[0], scope));
            } else {
                lemma_block_level(block_false, scope);
                lemma_braced(block_text(block_false, scope));
                lemma_add3(head, " else "@, braced(block_text(block_false, scope)));
            }
        },
        StmtModel::Switch { expression, cases } => {
            reveal_strlit("switch ");
            reveal_strlit("\n");
            lemma_worded("switch "@, expr_text(expression, scope));
            lemma_cases_level(cases, scope);
            lemma_headed(
                "switch "@ + expr_text(expression, scope) + " "@,
                joined(cases_text(cases, scope), "\n"@),
            );
        },
        StmtModel::Thread { block } => {
            reveal_strlit("thread ");
            lemma_plain("thread "@);
            lemma_block_level(block, scope);
            lemma_headed("thread "@, block_text(block, scope));
        },
        StmtModel::Loop { times, block } => {
            reveal_strlit("loop ");
            lemma_block_level(block, scope);
            match times {
                LoopModel::Infinite => {
                    lemma_plain("loop "@);
                    lemma_headed("loop "@, block_text(block, scope));
                },
                LoopModel::Times(e) => {
                    lemma_worded("loop "@, expr_text(e, scope));
                    lemma_headed("loop "@ + expr_text(e, scope) + " "@, block_text(block, scope));
                },
            }
        },
        _ => {},
    }
}

/// No block is left open: a block of statements is written with as many
/// opening as closing curly brackets, if what stands outside the blocks
/// of its statements is.
pub proof fn lemma_block_level(block: Seq<StmtModel>, scope: ScopeModel)
    requires
        block_leaves_level(block, scope),
    ensures
        level(block_text(block, scope)),
    decreases block, 1nat,
{
    reveal_strlit("\n");
    lemma_plain("\n"@);
    let texts = stmts_text(block, scope);
    assert forall|i: int| 0 <= i < texts.len() implies level(#[trigger] texts[i]) by {
        assert(leaves_level(block[i], scope));
        lemma_stmt_level(block[i], scope);
    }
    lemma_joined(texts, "\n"@);
}

/// The arms of a switch are written with as many opening as closing
/// curly brackets, if their heads and what stands outside the blocks of
/// their statements are.
pub proof fn lemma_cases_level(cases: Seq<(CaseModel, Seq<StmtModel>)>, scope: ScopeModel)
    requires
        cases_leaves_level(cases, scope),
    ensures
        level(joined(cases_text(cases, scope), "\n"@)),
    decreases cases, 2nat,
{
    reveal_strlit("\n");
    lemma_plain("\n"@);
    let texts = cases_text(cases, scope);
    assert forall|i: int| 0 <= i < texts.len() implies level(#[trigger] texts[i]) by {
        assert(level(case_head_text(cases[i].0, scope)));
        lemma_block_level(cases[i].1, scope);
        lemma_headed(case_head_text(cases[i].0, scope), block_text(cases[i].1, scope));
    }
    lemma_joined(texts, "\n"@);
}

/// Whether every name that the scope has for an address is level.
pub open spec fn scope_level(scope: ScopeModel) -> bool {
    forall|ptr: u32| (#[trigger] scope.lookup_ptr(ptr)) matches Some(name) ==> level(name)
}

/// A scope that holds nothing is level.
pub proof fn lemma_fresh_level()
    ensures
        scope_level(ScopeModel::fresh()),
{
    let scope = ScopeModel::fresh();
    assert forall|ptr: u32| (#[trigger] scope.lookup_ptr(ptr)) is None by {
        assert(scope.layers.last().ptrs.len() == 0);
        assert(scope.pop().layers.len() == 0);
        assert(scope.pop().lookup_ptr(ptr) is None);
    }
}

/// A character at the end of a text adds its weight.
proof fn lemma_push(s: Seq<char>, c: char)
    ensures
        open_brackets(s.push(c)) == open_brackets(s) + weight(c),
{
    assert(s.push(c) =~= s + seq![c]);
    lemma_add(s, seq![c]);
    lemma_one(c);
}

/// The brackets of four texts written one after the other add up.
proof fn lemma_add4(a: Seq<char>, b: Seq<char>, c: Seq<char>, d: Seq<char>)
    ensures
        open_brackets(a + b + c + d) == open_brackets(a) + open_brackets(b) + open_brackets(c)
            + open_brackets(d),
{
    lemma_add3(a, b, c);
    lemma_add(a + b + c, d);
}

/// The brackets of five texts written one after the other add up.
proof fn lemma_add5(a: Seq<char>, b: Seq<char>, c: Seq<char>, d: Seq<char>, e: Seq<char>)
    ensures
        open_brackets(a + b + c + d + e) == open_brackets(a) + open_brackets(b) + open_brackets(c)
            + open_brackets(d) + open_brackets(e),
{
    lemma_add4(a, b, c, d);
    lemma_add(a + b + c + d, e);
}

/// A number in base ten has no bracket.
pub proof fn lemma_decimal(n: nat)
    ensures
        level(decimal(n)),
    decreases n,
{
    if n < 10 {
        lemma_one(hex_digit(n));
    } else {
        lemma_decimal(n / 10);
        lemma_push(decimal(n / 10), hex_digit(n % 10));
    }
}

/// A number in base sixteen has no bracket.
pub proof fn lemma_hex(n: nat)
    ensures
        level(hex_upper(n)),
    decreases n,
{
    if n < 16 {
        lemma_one(hex_digit(n));
    } else {
        lemma_hex(n / 16);
        lemma_push(hex_upper(n / 16), hex_digit(n % 16));
    }
}

/// A signed number in base ten has no bracket.
pub proof fn lemma_signed(i: int)
    ensures
        level(signed_decimal(i)),
{
    if i < 0 {
        lemma_one('-');
        lemma_decimal((-i) as nat);
        lemma_add(seq!['-'], decimal((-i) as nat));
    } else {
        lemma_decimal(i as nat);
    }
}

proof fn lemma_fixed_digits(value: nat, n: nat)
    ensures
        level(fixed_digits(value, n)),
    decreases n,
{
    if n > 0 {
        lemma_fixed_digits(value / 10, (n - 1) as nat);
        lemma_push(fixed_digits(value / 10, (n - 1) as nat), hex_digit(value % 10));
    }
}

proof fn lemma_fraction_digits(value: nat, n: nat)
    ensures
        level(fraction_digits(value, n)),
    decreases n,
{
    if n > 1 && value % 10 == 0 {
        lemma_fraction_digits(value / 10, (n - 1) as nat);
    } else {
        lemma_fixed_digits(value, n);
    }
}

/// A fixed-point number written out has no bracket.
pub proof fn lemma_fixed(raw: int)
    ensures
        level(fixed_text(raw)),
{
    let magnitude = if raw < 0 {
        -raw
    } else {
        raw
    };
    let sign = if raw < 0 {
        seq!['-']
    } else {
        Seq::<char>::empty()
    };
    let whole = decimal((magnitude / 1024) as nat);
    let fraction = fraction_digits(((magnitude % 1024) * 9_765_625) as nat, 10);
    lemma_one('-');
    lemma_one('.');
    lemma_decimal((magnitude / 1024) as nat);
    lemma_fraction_digits(((magnitude % 1024) * 9_765_625) as nat, 10);
    lemma_add4(sign, whole, seq!['.'], fraction);
}

/// An address is written level: by a name of a level scope, or as a
/// number.
proof fn lemma_address(word: u32, scope: ScopeModel)
    requires
        scope_level(scope),
    ensures
        level(target_text(TargetModel::Pointer(word), scope)),
        level(int_text(word, scope)),
{
    reveal_strlit("0x");
    lemma_plain("0x"@);
    lemma_hex(word as nat);
    lemma_add("0x"@, hex_upper(word as nat));
    lemma_signed(crate::arg::signed(word));
    assert(scope.lookup_ptr(word) matches Some(name) ==> level(name));
}

/// The name of a place of storage has no bracket.
proof fn lemma_storage_name(kind: ArgKind, index: nat)
    ensures
        level(storage_name(kind, index)),
{
    reveal_strlit("gamebyte");
    reveal_strlit("areabyte");
    reveal_strlit("mapvar");
    reveal_strlit("word");
    reveal_strlit("gameflag");
    reveal_strlit("areaflag");
    reveal_strlit("mapflag");
    reveal_strlit("flag");
    reveal_strlit("_");
    lemma_plain(kind.prefix());
    lemma_plain("_"@);
    lemma_hex(index);
    lemma_add3(kind.prefix(), "_"@, hex_upper(index));
}

/// The expression that an operand stands for is written level.
proof fn lemma_operand(arg: Arg, scope: ScopeModel)
    requires
        scope_level(scope),
    ensures
        level(expr_text(arg.spec_expression(), scope)),
{
    reveal_strlit("flags");
    reveal_strlit("array");
    reveal_strlit("[");
    reveal_strlit("]");
    match arg.spec_expression() {
        ExprModel::Int(word) => {
            lemma_address(word, scope);
        },
        ExprModel::Float(f) => {
            lemma_fixed(f.raw as int);
        },
        ExprModel::ArrayIndex(name, idx) => {
            lemma_plain(name);
            lemma_plain("["@);
            lemma_plain("]"@);
            lemma_decimal(idx as nat);
            lemma_add4(name, "["@, decimal(idx as nat), "]"@);
        },
        ExprModel::Name(name) => {
            lemma_storage_name(arg.spec_kind(), arg.spec_index());
        },
        _ => {},
    }
}

/// An operator has no bracket.
proof fn lemma_operator(op: crate::ast::Operator)
    ensures
        level(operator_text(op)),
{
    reveal_strlit("+");
    reveal_strlit("-");
    reveal_strlit("*");
    reveal_strlit("/");
    reveal_strlit("%");
    reveal_strlit("==");
    reveal_strlit("!=");
    reveal_strlit("<");
    reveal_strlit(">");
    reveal_strlit("<=");
    reveal_strlit(">=");
    reveal_strlit("&");
    reveal_strlit("!&");
    reveal_strlit("and");
    reveal_strlit("or");
    reveal_strlit("not");
    lemma_plain(operator_text(op));
}

/// The condition of a conditional is written level.
proof fn lemma_condition(opcode: Opcode, args: Seq<Arg>, scope: ScopeModel)
    requires
        scope_level(scope),
    ensures
        if_condition(opcode, args) matches Ok(c) ==> level(expr_text(c, scope)),
{
    match if_condition(opcode, args) {
        Ok(c) => {
            reveal_strlit(" ");
            reveal_strlit("true");
            reveal_strlit("false");
            let lhs = args[0].spec_expression();
            let rhs = crate::bytecode::compared_with(opcode, args[0], args[1]);
            let op = opcode.operator().unwrap();
            lemma_operand(args[0], scope);
            lemma_operand(args[1], scope);
            lemma_plain("true"@);
            lemma_plain("false"@);
            lemma_plain(" "@);
            lemma_operator(op);
            assert(level(expr_text(rhs, scope)));
            lemma_add5(
                expr_text(lhs, scope),
                " "@,
                operator_text(op),
                " "@,
                expr_text(rhs, scope),
            );
        },
        Err(e) => {},
    }
}

/// The head of an arm of a switch is written level.
proof fn lemma_case_head(opcode: Opcode, args: Seq<Arg>, scope: ScopeModel)
    requires
        scope_level(scope),
    ensures
        case_head(opcode, args) matches Ok(head) ==> level(case_head_text(head, scope)),
{
    match case_head(opcode, args) {
        Ok(CaseModel::Default) => {
            reveal_strlit("default ");
            lemma_plain("default "@);
        },
        Ok(CaseModel::Test { operator, against }) => {
            reveal_strlit("case ");
            reveal_strlit(" ");
            lemma_plain("case "@);
            lemma_plain(" "@);
            lemma_operator(operator);
            lemma_operand(args[0], scope);
            lemma_add5(
                "case "@,
                operator_text(operator),
                " "@,
                expr_text(against, scope),
                " "@,
            );
        },
        Err(e) => {},
    }
}

/// The arguments of a call are written level.
proof fn lemma_arguments(args: Seq<Arg>, from: int, scope: ScopeModel)
    requires
        scope_level(scope),
        from >= 0,
    ensures
        level(arguments_text(tail_expressions(args, from), scope)),
{
    reveal_strlit(", ");
    lemma_plain(", "@);
    let exprs = tail_expressions(args, from);
    let texts = exprs_text(exprs, scope);
    assert forall|i: int| 0 <= i < texts.len() implies level(#[trigger] texts[i]) by {
        lemma_operand(args[from + i], scope);
    }
    lemma_joined(texts, ", "@);
}

/// A statement that assigns is written level.
proof fn lemma_assignment(opcode: Opcode, args: Seq<Arg>, seen: Seq<Arg>, scope: ScopeModel)
    requires
        scope_level(scope),
        assignment_operator(opcode).is_some(),
    ensures
        assignment(opcode, args, seen) matches Ok((stmt, after)) ==> leaves_level(stmt, scope),
{
    match assignment(opcode, args, seen) {
        Ok((stmt, after)) => {
            reveal_strlit(" ");
            reveal_strlit("=");
            reveal_strlit("+=");
            reveal_strlit("-=");
            reveal_strlit("*=");
            reveal_strlit("/=");
            reveal_strlit("%=");
            reveal_strlit("var ");
            reveal_strlit(": ");
            reveal_strlit(" = ");
            reveal_strlit("any");
            reveal_strlit("float");
            reveal_strlit("bool");
            let identifier = storage_name(args[0].spec_kind(), args[0].spec_index());
            let value = expr_text(args[1].spec_expression(), scope);
            lemma_storage_name(args[0].spec_kind(), args[0].spec_index());
            lemma_operand(args[1], scope);
            lemma_plain(" "@);
            lemma_plain("var "@);
            lemma_plain(": "@);
            lemma_plain(" = "@);
            match stmt {
                StmtModel::VarAssign { operator, identifier: id, expression } => {
                    lemma_plain(assignment_text(operator));
                    lemma_add5(identifier, " "@, assignment_text(operator), " "@, value);
                },
                StmtModel::VarDeclare { datatype, identifier: id, expression } => {
                    lemma_plain(type_text(datatype));
                    lemma_add(" = "@, value);
                    if datatype == TypeModel::Any {
                        lemma_add4("var "@, identifier, " = "@, value);
                    } else {
                        lemma_add4("var "@, identifier, ": "@, type_text(datatype));
                        lemma_add3("var "@ + identifier + ": "@ + type_text(datatype), " = "@, value);
                    }
                },
                _ => {},
            }
        },
        Err(e) => {},
    }
}

/// A statement that calls is written level.
proof fn lemma_call(opcode: Opcode, args: Seq<Arg>, scope: ScopeModel)
    requires
        scope_level(scope),
    ensures
        call(opcode, args) matches Ok(stmt) ==> leaves_level(stmt, scope),
{
    match call(opcode, args) {
        Ok(StmtModel::MethodCall { method, arguments, threading, bc_is_func }) => {
            reveal_strlit("(");
            reveal_strlit(")");
            reveal_strlit(" = thread ");
            reveal_strlit("thread ");
            lemma_plain("("@);
            lemma_plain(")"@);
            lemma_plain(" = thread "@);
            lemma_plain("thread "@);
            lemma_address(args[0].0, scope);
            let target = target_text(method, scope);
            let list = arguments_text(arguments, scope);
            if opcode == Opcode::ExecRet {
                lemma_arguments(args, 2, scope);
            } else {
                lemma_arguments(args, 1, scope);
            }
            lemma_add4(target, "("@, list, ")"@);
            let written = target + "("@ + list + ")"@;
            match threading {
                ThreadingModel::Assign(name) => {
                    lemma_storage_name(args[1].spec_kind(), args[1].spec_index());
                    lemma_add3(name, " = thread "@, written);
                },
                ThreadingModel::Yes => {
                    lemma_add("thread "@, written);
                },
                ThreadingModel::No => {},
            }
        },
        _ => {},
    }
}

/// A statement without a block that was read from an operation is written
/// level.
proof fn lemma_simple(opcode: Opcode, args: Seq<Arg>, seen: Seq<Arg>, scope: ScopeModel)
    requires
        scope_level(scope),
    ensures
        simple_statement(opcode, args, seen) matches Ok((stmt, after)) ==> leaves_level(
            stmt,
            scope,
        ),
{
    match simple_statement(opcode, args, seen) {
        Ok((stmt, after)) => {
            reveal_strlit("wait ");
            reveal_strlit("waitsecs ");
            reveal_strlit(".");
            reveal_strlit("goto .");
            reveal_strlit("return");
            reveal_strlit("breakloop");
            reveal_strlit("breakcase");
            if assignment_operator(opcode).is_some() {
                lemma_assignment(opcode, args, seen, scope);
            } else if opcode == Opcode::Call || opcode == Opcode::Exec || opcode == Opcode::ExecWait
                || opcode == Opcode::ExecRet {
                lemma_call(opcode, args, scope);
            } else if opcode == Opcode::Wait || opcode == Opcode::WaitSeconds {
                lemma_operand(args[0], scope);
                lemma_plain("wait "@);
                lemma_plain("waitsecs "@);
                lemma_add("wait "@, expr_text(args[0].spec_expression(), scope));
                lemma_add("waitsecs "@, expr_text(args[0].spec_expression(), scope));
            } else if opcode == Opcode::Label || opcode == Opcode::Goto {
                let n = args[0].spec_int().unwrap();
                lemma_signed(n as int);
                lemma_plain("."@);
                lemma_plain("goto ."@);
                lemma_add("."@, signed_decimal(n as int));
                lemma_add("goto ."@, signed_decimal(n as int));
            } else {
                lemma_plain("return"@);
                lemma_plain("breakloop"@);
                lemma_plain("breakcase"@);
            }
        },
        Err(e) => {},
    }
}

/// What stands outside the blocks is level in statements that follow each
/// other, if it is in both parts.
proof fn lemma_leaves_add(a: Seq<StmtModel>, b: Seq<StmtModel>, scope: ScopeModel)
    requires
        block_leaves_level(a, scope),
        block_leaves_level(b, scope),
    ensures
        block_leaves_level(a + b, scope),
{
    assert forall|i: int| 0 <= i < (a + b).len() implies leaves_level(#[trigger] (a + b)[i], scope) by {
        if i < a.len() {
            assert((a + b)[i] == a[i]);
        } else {
            assert((a + b)[i] == b[i - a.len()]);
        }
    }
}

/// What stands outside the blocks of a statement that was read from
/// operations is level.
pub proof fn lemma_parse_op_level(ops: Seq<OpModel>, pos: int, seen: Seq<Arg>, scope: ScopeModel)
    requires
        scope_level(scope),
    ensures
        parse_op(ops, pos, seen) matches Ok(p) ==> block_leaves_level(p.stmts, scope),
    decreases ops.len() - pos, 0nat,
{
    if !(pos < 0 || pos >= ops.len()) {
        let opcode = ops[pos].0;
        let args = ops[pos].1;
        if opcode.is_if() {
            lemma_condition(opcode, args, scope);
            lemma_parse_block_level(ops, pos + 1, seen, BlockEnd::IfTrue, scope);
            match parse_block(ops, pos + 1, seen, BlockEnd::IfTrue) {
                Ok(yes) => {
                    if !(yes.pos <= pos || yes.pos > ops.len()) {
                        lemma_parse_block_level(ops, yes.pos, yes.seen, BlockEnd::IfFalse, scope);
                    }
                },
                Err(e) => {},
            }
        } else if opcode == Opcode::Switch || opcode == Opcode::SwitchConst {
            if args.len() > 0 {
                lemma_operand(args[0], scope);
            }
            lemma_parse_cases_level(ops, pos + 1, seen, false, scope);
        } else if opcode == Opcode::Thread {
            lemma_parse_block_level(ops, pos + 1, seen, BlockEnd::Thread, scope);
        } else if opcode == Opcode::Loop {
            if args.len() > 0 {
                lemma_operand(args[0], scope);
            }
            lemma_parse_block_level(ops, pos + 1, seen, BlockEnd::Loop, scope);
        } else {
            lemma_simple(opcode, args, seen, scope);
        }
    }
}

/// What stands outside the blocks is level in every statement of a block
/// that was read from operations.
pub proof fn lemma_parse_block_level(
    ops: Seq<OpModel>,
    pos: int,
    seen: Seq<Arg>,
    end: BlockEnd,
    scope: ScopeModel,
)
    requires
        scope_level(scope),
    ensures
        parse_block(ops, pos, seen, end) matches Ok(p) ==> block_leaves_level(p.stmts, scope),
    decreases ops.len() - pos, 1nat,
{
    if !(pos < 0 || pos >= ops.len()) {
        if end.stop(ops[pos].0) == Stop::Go {
            lemma_parse_op_level(ops, pos, seen, scope);
            match parse_op(ops, pos, seen) {
                Ok(first) => {
                    if !(first.pos <= pos || first.pos > ops.len()) {
                        lemma_parse_block_level(ops, first.pos, first.seen, end, scope);
                        match parse_block(ops, first.pos, first.seen, end) {
                            Ok(rest) => {
                                lemma_leaves_add(first.stmts, rest.stmts, scope);
                            },
                            Err(e) => {},
                        }
                    }
                },
                Err(e) => {},
            }
        }
    }
}

/// The heads of the arms of a switch that was read from operations are
/// level, and what stands outside the blocks in the statements of the
/// arms.
pub proof fn lemma_parse_cases_level(
    ops: Seq<OpModel>,
    pos: int,
    seen: Seq<Arg>,
    had_default: bool,
    scope: ScopeModel,
)
    requires
        scope_level(scope),
    ensures
        parse_cases(ops, pos, seen, had_default) matches Ok(p) ==> cases_leaves_level(
            p.cases,
            scope,
        ),
    decreases ops.len() - pos, 1nat,
{
    if !(pos < 0 || pos >= ops.len()) {
        let opcode = ops[pos].0;
        let args = ops[pos].1;
        if opcode.opens_case() && !had_default {
            lemma_parse_block_level(ops, pos + 1, seen, BlockEnd::Case, scope);
            lemma_case_head(opcode, args, scope);
            match parse_block(ops, pos + 1, seen, BlockEnd::Case) {
                Ok(body) => {
                    if !(body.pos <= pos || body.pos > ops.len()) {
                        lemma_parse_cases_level(
                            ops,
                            body.pos,
                            body.seen,
                            opcode == Opcode::CaseDefault,
                            scope,
                        );
                        match (
                            case_head(opcode, args),
                            parse_cases(ops, body.pos, body.seen, opcode == Opcode::CaseDefault),
                        ) {
                            (Ok(head), Ok(rest)) => {
                                let all = seq![(head, body.stmts)] + rest.cases;
                                assert forall|i: int| 0 <= i < all.len() implies level(
                                    case_head_text((#[trigger] all[i]).0, scope),
                                ) && block_leaves_level(all[i].1, scope) by {
                                    if i > 0 {
                                        assert(all[i] == rest.cases[i - 1]);
                                    }
                                }
                            },
                            _ => {},
                        }
                    }
                },
                Err(e) => {},
            }
        }
    }
}

/// What stands outside the blocks is level in every statement of a script
/// that was read from operations.
pub proof fn lemma_parse_script_level(ops: Seq<OpModel>, pos: int, seen: Seq<Arg>, scope: ScopeModel)
    requires
        scope_level(scope),
    ensures
        parse_script(ops, pos, seen) matches Ok(p) ==> block_leaves_level(p.stmts, scope),
    decreases ops.len() - pos, 1nat,
{
    if !(pos < 0 || pos >= ops.len()) && ops[pos].0 != Opcode::End {
        lemma_parse_op_level(ops, pos, seen, scope);
        match parse_op(ops, pos, seen) {
            Ok(first) => {
                if !(first.pos <= pos || first.pos > ops.len()) {
                    lemma_parse_script_level(ops, first.pos, first.seen, scope);
                    match parse_script(ops, first.pos, first.seen) {
                        Ok(rest) => {
                            lemma_leaves_add(first.stmts, rest.stmts, scope);
                        },
                        Err(e) => {},
                    }
                }
            },
            Err(e) => {},
        }
    }
}

/// Balanced control flow: whatever operations a script is read from, if
/// it can be read at all, it is written with as many opening as closing
/// curly brackets, so that no block is left open. The names that the
/// scope has for addresses must themselves be level.
pub proof fn lemma_script_level(ops: Seq<OpModel>, pos: int, seen: Seq<Arg>, scope: ScopeModel)
    requires
        scope_level(scope),
    ensures
        parse_script(ops, pos, seen) matches Ok(p) ==> level(
            block_text(without_final_return(p.stmts), scope),
        ),
{
    lemma_parse_script_level(ops, pos, seen, scope);
    match parse_script(ops, pos, seen) {
        Ok(p) => {
            let kept = without_final_return(p.stmts);
            assert forall|i: int| 0 <= i < kept.len() implies leaves_level(#[trigger] kept[i], scope) by {
                assert(kept[i] == p.stmts[i]);
            }
            lemma_block_level(kept, scope);
        },
        Err(e) => {},
    }
}

} // verus!
