//! Writing a statement tree out as script source text.

use vstd::prelude::*;
use vstd::string::StringExecFns;
use crate::arg::{is_local_pointer, signed, Arg};
use crate::ast::{
    block_view, cases_view, exprs_view, params_view, AssignmentOperator, Case, CaseModel,
    Declaration, DeclModel, ExprModel, Expression, Fixed, Identifier, IdentifierOrPointer,
    LoopModel, LoopTimes, MethodThreading, Operator, Statement, StmtModel, TargetModel,
    ThreadingModel, TimeUnit, Trigger, TriggerModel, TriggerObj,
};
use crate::datatype::{type_text, DataType, TypeModel};
use crate::scope::{Scope, ScopeModel};
use crate::text::{
    decimal, hex_digit, hex_upper, indent, indented, join, joined, push_decimal, push_hex,
    push_signed, signed_decimal, strings_view,
};

verus! {

/// The last `n` digits of `value` in base ten, with zeros in front.
pub open spec fn fixed_digits(value: nat, n: nat) -> Seq<char>
    decreases n,
{
    if n == 0 {
        Seq::empty()
    } else {
        fixed_digits(value / 10, (n - 1) as nat).push(hex_digit(value % 10))
    }
}

/// The `n` digits of a fraction without the zeros at their end, but with
/// one digit at least.
pub open spec fn fraction_digits(value: nat, n: nat) -> Seq<char>
    decreases n,
{
    if n > 1 && value % 10 == 0 {
        fraction_digits(value / 10, (n - 1) as nat)
    } else {
        fixed_digits(value, n)
    }
}

/// A fixed-point number written out exactly in base ten: a minus sign if
/// it is negative, the whole part, a point, and the fraction with as many
/// digits as it needs, one at least. (1024ths have at most ten.)
pub open spec fn fixed_text(raw: int) -> Seq<char> {
    let magnitude = if raw < 0 {
        -raw
    } else {
        raw
    };
    let sign = if raw < 0 {
        seq!['-']
    } else {
        Seq::empty()
    };
    sign + decimal((magnitude / 1024) as nat) + seq!['.'] + fraction_digits(
        ((magnitude % 1024) * 9_765_625) as nat,
        10,
    )
}

/// An operator as it is written.
pub open spec fn operator_text(op: Operator) -> Seq<char> {
    match op {
        Operator::Add => "+"@,
        Operator::Sub => "-"@,
        Operator::Mul => "*"@,
        Operator::Div => "/"@,
        Operator::Mod => "%"@,
        Operator::Eq => "=="@,
        Operator::Ne => "!="@,
        Operator::Lt => "<"@,
        Operator::Gt => ">"@,
        Operator::Lte => "<="@,
        Operator::Gte => ">="@,
        Operator::BitAndZ => "&"@,
        Operator::BitAndNz => "!&"@,
        Operator::And => "and"@,
        Operator::Or => "or"@,
        Operator::Not => "not"@,
    }
}

/// An assignment operator as it is written.
pub open spec fn assignment_text(op: AssignmentOperator) -> Seq<char> {
    match op {
        AssignmentOperator::Eq => "="@,
        AssignmentOperator::Add => "+="@,
        AssignmentOperator::Sub => "-="@,
        AssignmentOperator::Mul => "*="@,
        AssignmentOperator::Div => "/="@,
        AssignmentOperator::Mod => "%="@,
    }
}

/// A call target as it is written: a name as it is; an address by the
/// name that the scope has for it, or else in base sixteen after `0x`.
pub open spec fn target_text(target: TargetModel, scope: ScopeModel) -> Seq<char> {
    match target {
        TargetModel::Name(name) => name,
        TargetModel::Pointer(ptr) => match scope.lookup_ptr(ptr) {
            Some(name) => name,
            None => "0x"@ + hex_upper(ptr as nat),
        },
    }
}

/// An integer literal as it is written. The address of a script or of
/// native code of the map is written as the name that the scope has for
/// it, or else in base sixteen after `0x`; any other word as a signed
/// number in base ten.
pub open spec fn int_text(word: u32, scope: ScopeModel) -> Seq<char> {
    if is_local_pointer(word) {
        match scope.lookup_ptr(word) {
            Some(name) => name,
            None => "0x"@ + hex_upper(word as nat),
        }
    } else {
        signed_decimal(signed(word))
    }
}

/// An expression as it is written.
pub open spec fn expr_text(e: ExprModel, scope: ScopeModel) -> Seq<char>
    decreases e,
{
    match e {
        ExprModel::Int(word) => int_text(word, scope),
        ExprModel::Float(f) => fixed_text(f.raw as int),
        ExprModel::Bool(b) => if b {
            "true"@
        } else {
            "false"@
        },
        ExprModel::Name(name) => name,
        ExprModel::ArrayIndex(name, idx) => name + "["@ + decimal(idx as nat) + "]"@,
        ExprModel::Operation { lhs, op, rhs } => expr_text(*lhs, scope) + " "@ + operator_text(op)
            + " "@ + expr_text(*rhs, scope),
    }
}

/// The written form of each expression of a list.
pub open spec fn exprs_text(exprs: Seq<ExprModel>, scope: ScopeModel) -> Seq<Seq<char>> {
    Seq::new(exprs.len(), |i: int| expr_text(exprs[i], scope))
}

/// An argument list as it is written: the arguments, separated by a comma
/// and a space.
pub open spec fn arguments_text(exprs: Seq<ExprModel>, scope: ScopeModel) -> Seq<char> {
    joined(exprs_text(exprs, scope), ", "@)
}

/// The subject of a trigger as it is written.
pub open spec fn trigger_obj_text(obj: TriggerObj) -> Seq<char> {
    match obj {
        TriggerObj::Collider(id) => "{collider:"@ + decimal(id as nat) + "}"@,
        TriggerObj::Entity(id) => "{entity:"@ + decimal(id as nat) + "}"@,
    }
}

/// A trigger as it is written.
pub open spec fn trigger_text(trigger: TriggerModel, scope: ScopeModel) -> Seq<char> {
    match trigger {
        TriggerModel::FloorTouch(obj) => "floortouch "@ + trigger_obj_text(obj),
        TriggerModel::FloorAbove(obj) => "floorabove "@ + trigger_obj_text(obj),
        TriggerModel::FloorInteract(obj) => "floorinteract "@ + trigger_obj_text(obj),
        TriggerModel::FloorJump(obj) => "floorjump "@ + trigger_obj_text(obj),
        TriggerModel::WallTouch(obj) => "walltouch "@ + trigger_obj_text(obj),
        TriggerModel::WallPush(obj) => "wallpush "@ + trigger_obj_text(obj),
        TriggerModel::WallInteract(obj) => "wallinteract "@ + trigger_obj_text(obj),
        TriggerModel::WallHammer(obj) => "wallhammer "@ + trigger_obj_text(obj),
        TriggerModel::CeilingTouch(obj) => "ceilingtouch "@ + trigger_obj_text(obj),
        TriggerModel::Bomb(target) => "bomb "@ + target_text(target, scope),
        TriggerModel::FlagChange(name) => "flagchange "@ + name,
    }
}

/// A block in curly brackets: its text, indented, on lines of its own.
pub open spec fn braced(body: Seq<char>) -> Seq<char> {
    "{\n"@ + indented(body) + "\n}"@
}

/// The written form of each statement of a block.
pub open spec fn stmts_text(block: Seq<StmtModel>, scope: ScopeModel) -> Seq<Seq<char>>
    decreases block, 0nat,
{
    Seq::new(
        block.len(),
        |i: int|
            if 0 <= i < block.len() {
                stmt_text(block[i], scope)
            } else {
                Seq::empty()
            },
    )
}

/// A block as it is written: one statement after the other, each
/// beginning on a new line.
pub open spec fn block_text(block: Seq<StmtModel>, scope: ScopeModel) -> Seq<char>
    decreases block, 1nat,
{
    joined(stmts_text(block, scope), "\n"@)
}

/// The head of an arm of a switch as it is written.
pub open spec fn case_head_text(case: CaseModel, scope: ScopeModel) -> Seq<char> {
    match case {
        CaseModel::Default => "default "@,
        CaseModel::Test { operator, against } => "case "@ + operator_text(operator) + " "@
            + expr_text(against, scope) + " "@,
    }
}

/// The written form of each arm of a switch.
pub open spec fn cases_text(cases: Seq<(CaseModel, Seq<StmtModel>)>, scope: ScopeModel) -> Seq<
    Seq<char>,
>
    decreases cases, 2nat,
{
    Seq::new(
        cases.len(),
        |i: int|
            if 0 <= i < cases.len() {
                case_head_text(cases[i].0, scope) + braced(block_text(cases[i].1, scope))
            } else {
                Seq::empty()
            },
    )
}

/// A statement as it is written.
///
/// A conditional whose second branch is nothing but another conditional
/// is written with `else if`.
pub open spec fn stmt_text(s: StmtModel, scope: ScopeModel) -> Seq<char>
    decreases s, 3nat,
{
    match s {
        StmtModel::Return => "return"@,
        StmtModel::Label { name } => "."@ + name,
        StmtModel::Goto { label_name } => "goto ."@ + label_name,
        StmtModel::VarAssign { operator, identifier, expression } => identifier + " "@
            + assignment_text(operator) + " "@ + expr_text(expression, scope),
        StmtModel::VarDeclare { datatype, identifier, expression } => {
            let typed = if datatype == TypeModel::Any {
                "var "@ + identifier
            } else {
                "var "@ + identifier + ": "@ + type_text(datatype)
            };
            match expression {
                Some(e) => typed + " = "@ + expr_text(e, scope),
                None => typed,
            }
        },
        StmtModel::MethodCall { method, arguments, threading, bc_is_func } => {
            let call = target_text(method, scope) + "("@ + arguments_text(arguments, scope) + ")"@;
            match threading {
                ThreadingModel::Assign(name) => name + " = thread "@ + call,
                ThreadingModel::Yes => "thread "@ + call,
                ThreadingModel::No => call,
            }
        },
        StmtModel::Wait { time, unit } => match unit {
            TimeUnit::Frames => "wait "@ + expr_text(time, scope),
            TimeUnit::Seconds => "waitsecs "@ + expr_text(time, scope),
        },
        StmtModel::Bind { trigger, dispatch } => "bind "@ + trigger_text(trigger, scope) + " "@
            + target_text(dispatch, scope),
        StmtModel::Unbind => "unbind"@,
        StmtModel::BreakLoop => "breakloop"@,
        StmtModel::BreakCase => "breakcase"@,
        StmtModel::If { condition, block_true, block_false } => {
            let head = "if "@ + expr_text(condition, scope) + " "@ + braced(
                block_text(block_true, scope),
            );
            if block_false.len() == 0 {
                head
            } else if block_false.len() == 1 && block_false[0] is If {
                head + " else "@ + stmt_text(block_false[0], scope)
            } else {
                head + " else "@ + braced(block_text(block_false, scope))
            }
        },
        StmtModel::Switch { expression, cases } => "switch "@ + expr_text(expression, scope) + " "@
            + braced(joined(cases_text(cases, scope), "\n"@)),
        StmtModel::Thread { block } => "thread "@ + braced(block_text(block, scope)),
        StmtModel::Loop { times, block } => match times {
            LoopModel::Infinite => "loop "@ + braced(block_text(block, scope)),
            LoopModel::Times(e) => "loop "@ + expr_text(e, scope) + " "@ + braced(
                block_text(block, scope),
            ),
        },
    }
}

/// The written form of each parameter of a function: the name, a colon,
/// and the type.
pub open spec fn params_text(params: Seq<(Seq<char>, TypeModel)>) -> Seq<Seq<char>> {
    Seq::new(params.len(), |i: int| params[i].0 + ": "@ + type_text(params[i].1))
}

/// A declaration as it is written.
pub open spec fn decl_text(decl: DeclModel, scope: ScopeModel) -> Seq<char> {
    match decl {
        DeclModel::Fun { name, arguments, block } => "fun "@ + target_text(name, scope) + "("@
            + joined(params_text(arguments), ", "@) + ") "@ + braced(block_text(block, scope)),
    }
}

fn operator_str(op: Operator) -> (s: &'static str)
    ensures
        s@ == operator_text(op),
{
    match op {
        Operator::Add => "+",
        Operator::Sub => "-",
        Operator::Mul => "*",
        Operator::Div => "/",
        Operator::Mod => "%",
        Operator::Eq => "==",
        Operator::Ne => "!=",
        Operator::Lt => "<",
        Operator::Gt => ">",
        Operator::Lte => "<=",
        Operator::Gte => ">=",
        Operator::BitAndZ => "&",
        Operator::BitAndNz => "!&",
        Operator::And => "and",
        Operator::Or => "or",
        Operator::Not => "not",
    }
}

fn assignment_str(op: AssignmentOperator) -> (s: &'static str)
    ensures
        s@ == assignment_text(op),
{
    match op {
        AssignmentOperator::Eq => "=",
        AssignmentOperator::Add => "+=",
        AssignmentOperator::Sub => "-=",
        AssignmentOperator::Mul => "*=",
        AssignmentOperator::Div => "/=",
        AssignmentOperator::Mod => "%=",
    }
}

fn digit_char(d: u64) -> (c: char)
    requires
        d < 10,
    ensures
        c == hex_digit(d as nat),
{
    if d == 0 { '0' } else if d == 1 { '1' } else if d == 2 { '2' } else if d == 3 { '3' }
    else if d == 4 { '4' } else if d == 5 { '5' } else if d == 6 { '6' } else if d == 7 { '7' }
    else if d == 8 { '8' } else { '9' }
}

/// Appends the last `n` digits of `value`, with zeros in front.
fn push_fixed_digits(out: &mut String, value: u64, n: u32)
    ensures
        final(out)@ == old(out)@ + fixed_digits(value as nat, n as nat),
    decreases n,
{
    if n > 0 {
        push_fixed_digits(out, value / 10, n - 1);
        out.push(digit_char(value % 10));
        assert(final(out)@ =~= old(out)@ + fixed_digits(value as nat, n as nat));
    } else {
        assert(final(out)@ =~= old(out)@ + fixed_digits(value as nat, n as nat));
    }
}

/// Appends a fixed-point number, written out exactly in base ten.
pub fn push_fixed(out: &mut String, f: Fixed)
    ensures
        final(out)@ == old(out)@ + fixed_text(f.raw as int),
{
    let magnitude: u64 = if f.raw < 0 {
        out.push('-');
        if f.raw == i64::MIN {
            0x8000_0000_0000_0000u64
        } else {
            (-f.raw) as u64
        }
    } else {
        f.raw as u64
    };
    let ghost signed_part = out@;
    push_decimal(out, magnitude / 1024);
    out.push('.');
    let mut value: u64 = (magnitude % 1024) * 9_765_625;
    let mut n: u32 = 10;
    let ghost whole = value;
    while n > 1 && value % 10 == 0
        invariant
            1 <= n <= 10,
            fraction_digits(value as nat, n as nat) == fraction_digits(whole as nat, 10),
        decreases n,
    {
        value = value / 10;
        n -= 1;
    }
    push_fixed_digits(out, value, n);
    assert(final(out)@ =~= old(out)@ + fixed_text(f.raw as int));
}

/// A call target as script source text.
pub fn unparse_target(target: &IdentifierOrPointer, scope: &Scope) -> (out: String)
    ensures
        out@ == target_text(target@, scope@),
{
    match target {
        IdentifierOrPointer::Identifier(id) => id.0.clone(),
        IdentifierOrPointer::Pointer(ptr) => match scope.lookup_ptr(*ptr) {
            Some(name) => String::from_str(name),
            None => {
                let mut out = String::from_str("0x");
                push_hex(&mut out, *ptr as u64);
                out
            },
        },
    }
}

fn unparse_int(word: u32, scope: &Scope) -> (out: String)
    ensures
        out@ == int_text(word, scope@),
{
    if word >= 0x8024_0000 && word <= 0x8024_FFFF {
        match scope.lookup_ptr(word) {
            Some(name) => String::from_str(name),
            None => {
                let mut out = String::from_str("0x");
                push_hex(&mut out, word as u64);
                out
            },
        }
    } else {
        let mut out = String::new();
        push_signed(&mut out, Arg(word).as_signed() as i64);
        assert(out@ =~= signed_decimal(signed(word)));
        out
    }
}

/// An expression as script source text.
pub fn unparse_expression(e: &Expression, scope: &Scope) -> (out: String)
    ensures
        out@ == expr_text(e@, scope@),
    decreases *e,
{
    match e {
        Expression::LiteralInt(word) => unparse_int(*word, scope),
        Expression::LiteralFloat(f) => {
            let mut out = String::new();
            push_fixed(&mut out, *f);
            assert(out@ =~= fixed_text(f.raw as int));
            out
        },
        Expression::LiteralBool(b) => if *b {
            String::from_str("true")
        } else {
            String::from_str("false")
        },
        Expression::Identifier(id) => id.0.clone(),
        Expression::ArrayIndex(id, idx) => {
            let mut out = id.0.clone();
            out.append("[");
            push_decimal(&mut out, *idx as u64);
            out.append("]");
            out
        },
        Expression::Operation { lhs, op, rhs } => {
            let mut out = unparse_expression(lhs, scope);
            out.append(" ");
            out.append(operator_str(*op));
            out.append(" ");
            let right = unparse_expression(rhs, scope);
            out.append(right.as_str());
            out
        },
    }
}

/// An argument list as script source text.
pub fn unparse_arguments(args: &Vec<Expression>, scope: &Scope) -> (out: String)
    ensures
        out@ == arguments_text(exprs_view(args@), scope@),
{
    let mut parts: Vec<String> = Vec::new();
    let mut i: usize = 0;
    while i < args.len()
        invariant
            i <= args.len(),
            parts@.len() == i,
            forall|j: int| 0 <= j < i ==> parts@[j]@ == expr_text(args@[j]@, scope@),
        decreases args.len() - i,
    {
        parts.push(unparse_expression(&args[i], scope));
        i += 1;
    }
    assert(strings_view(parts@) =~= exprs_text(exprs_view(args@), scope@));
    join(&parts, ", ")
}

fn unparse_trigger_obj(obj: TriggerObj) -> (out: String)
    ensures
        out@ == trigger_obj_text(obj),
{
    match obj {
        TriggerObj::Collider(id) => {
            let mut out = String::from_str("{collider:");
            push_decimal(&mut out, id as u64);
            out.append("}");
            out
        },
        TriggerObj::Entity(id) => {
            let mut out = String::from_str("{entity:");
            push_decimal(&mut out, id as u64);
            out.append("}");
            out
        },
    }
}

fn keyword_and_obj(keyword: &str, obj: TriggerObj) -> (out: String)
    ensures
        out@ == keyword@ + trigger_obj_text(obj),
{
    let mut out = String::from_str(keyword);
    let subject = unparse_trigger_obj(obj);
    out.append(subject.as_str());
    out
}

/// A trigger as script source text.
pub fn unparse_trigger(trigger: &Trigger, scope: &Scope) -> (out: String)
    ensures
        out@ == trigger_text(trigger@, scope@),
{
    match trigger {
        Trigger::FloorTouch(obj) => keyword_and_obj("floortouch ", *obj),
        Trigger::FloorAbove(obj) => keyword_and_obj("floorabove ", *obj),
        Trigger::FloorInteract(obj) => keyword_and_obj("floorinteract ", *obj),
        Trigger::FloorJump(obj) => keyword_and_obj("floorjump ", *obj),
        Trigger::WallTouch(obj) => keyword_and_obj("walltouch ", *obj),
        Trigger::WallPush(obj) => keyword_and_obj("wallpush ", *obj),
        Trigger::WallInteract(obj) => keyword_and_obj("wallinteract ", *obj),
        Trigger::WallHammer(obj) => keyword_and_obj("wallhammer ", *obj),
        Trigger::CeilingTouch(obj) => keyword_and_obj("ceilingtouch ", *obj),
        Trigger::Bomb(target) => {
            let mut out = String::from_str("bomb ");
            let subject = unparse_target(target, scope);
            out.append(subject.as_str());
            out
        },
        Trigger::FlagChange(id) => {
            let mut out = String::from_str("flagchange ");
            out.append(id.0.as_str());
            out
        },
    }
}

/// Appends a block in curly brackets.
fn push_braced(out: &mut String, body: &str)
    ensures
        final(out)@ == old(out)@ + braced(body@),
{
    out.append("{\n");
    let inner = indent(body);
    out.append(inner.as_str());
    out.append("\n}");
    assert(final(out)@ =~= old(out)@ + braced(body@));
}

/// A block as script source text.
pub fn unparse_block(block: &Vec<Statement>, scope: &Scope) -> (out: String)
    ensures
        out@ == block_text(block_view(block@), scope@),
    decreases *block, 1nat,
{
    let mut parts: Vec<String> = Vec::new();
    let mut i: usize = 0;
    while i < block.len()
        invariant
            i <= block.len(),
            parts@.len() == i,
            forall|j: int| 0 <= j < i ==> parts@[j]@ == stmt_text(block@[j]@, scope@),
        decreases block.len() - i,
    {
        parts.push(unparse_statement(&block[i], scope));
        i += 1;
    }
    assert(strings_view(parts@) =~= stmts_text(block_view(block@), scope@));
    join(&parts, "\n")
}

fn unparse_cases(cases: &Vec<(Case, Vec<Statement>)>, scope: &Scope) -> (out: String)
    ensures
        out@ == joined(cases_text(cases_view(cases@), scope@), "\n"@),
    decreases *cases, 2nat,
{
    let mut parts: Vec<String> = Vec::new();
    let mut i: usize = 0;
    while i < cases.len()
        invariant
            i <= cases.len(),
            parts@.len() == i,
            forall|j: int|
                0 <= j < i ==> parts@[j]@ == case_head_text(cases@[j].0@, scope@) + braced(
                    block_text(block_view(cases@[j].1@), scope@),
                ),
        decreases cases.len() - i,
    {
        let mut part = match &cases[i].0 {
            Case::Default => String::from_str("default "),
            Case::Test { operator, against } => {
                let mut head = String::from_str("case ");
                head.append(operator_str(*operator));
                head.append(" ");
                let subject = unparse_expression(against, scope);
                head.append(subject.as_str());
                head.append(" ");
                head
            },
        };
        let body = unparse_block(&cases[i].1, scope);
        push_braced(&mut part, body.as_str());
        parts.push(part);
        i += 1;
    }
    assert(strings_view(parts@) =~= cases_text(cases_view(cases@), scope@));
    join(&parts, "\n")
}

/// A statement as script source text.
pub fn unparse_statement(s: &Statement, scope: &Scope) -> (out: String)
    ensures
        out@ == stmt_text(s@, scope@),
    decreases *s, 3nat,
{
    match s {
        Statement::Return => String::from_str("return"),
        Statement::Label { name } => {
            let mut out = String::from_str(".");
            out.append(name.as_str());
            out
        },
        Statement::Goto { label_name } => {
            let mut out = String::from_str("goto .");
            out.append(label_name.as_str());
            out
        },
        Statement::VarAssign { operator, identifier, expression } => {
            let mut out = identifier.0.clone();
            out.append(" ");
            out.append(assignment_str(*operator));
            out.append(" ");
            let value = unparse_expression(expression, scope);
            out.append(value.as_str());
            out
        },
        Statement::VarDeclare { datatype, identifier, expression } => {
            let mut out = String::from_str("var ");
            out.append(identifier.0.as_str());
            if !datatype.is_any() {
                out.append(": ");
                let written = datatype.to_text();
                out.append(written.as_str());
            }
            match expression {
                Some(e) => {
                    out.append(" = ");
                    let value = unparse_expression(e, scope);
                    out.append(value.as_str());
                },
                None => {},
            }
            out
        },
        Statement::MethodCall { method, arguments, threading, bc_is_func } => {
            let mut out = match threading {
                MethodThreading::Assign(id) => {
                    let mut head = id.0.clone();
                    head.append(" = thread ");
                    head
                },
                MethodThreading::Yes => String::from_str("thread "),
                MethodThreading::No => String::new(),
            };
            let ghost head = out@;
            let target = unparse_target(method, scope);
            out.append(target.as_str());
            out.append("(");
            let list = unparse_arguments(arguments, scope);
            out.append(list.as_str());
            out.append(")");
            assert(out@ =~= head + (target_text(method@, scope@) + "("@ + arguments_text(
                exprs_view(arguments@),
                scope@,
            ) + ")"@));
            assert(Seq::<char>::empty() + (target_text(method@, scope@) + "("@ + arguments_text(
                exprs_view(arguments@),
                scope@,
            ) + ")"@) =~= target_text(method@, scope@) + "("@ + arguments_text(
                exprs_view(arguments@),
                scope@,
            ) + ")"@);
            out
        },
        Statement::Wait { time, unit } => {
            let mut out = match unit {
                TimeUnit::Frames => String::from_str("wait "),
                TimeUnit::Seconds => String::from_str("waitsecs "),
            };
            let value = unparse_expression(time, scope);
            out.append(value.as_str());
            out
        },
        Statement::Bind { trigger, dispatch } => {
            let mut out = String::from_str("bind ");
            let event = unparse_trigger(trigger, scope);
            out.append(event.as_str());
            out.append(" ");
            let target = unparse_target(dispatch, scope);
            out.append(target.as_str());
            out
        },
        Statement::Unbind => String::from_str("unbind"),
        Statement::BreakLoop => String::from_str("breakloop"),
        Statement::BreakCase => String::from_str("breakcase"),
        Statement::If { condition, block_true, block_false } => {
            let mut out = String::from_str("if ");
            let written = unparse_expression(condition, scope);
            out.append(written.as_str());
            out.append(" ");
            let yes = unparse_block(block_true, scope);
            push_braced(&mut out, yes.as_str());
            if block_false.len() == 0 {
                out
            } else {
                let chained = block_false.len() == 1 && match &block_false[0] {
                    Statement::If { .. } => true,
                    _ => false,
                };
                assert(block_view(block_false@)[0] == block_false@[0]@);
                out.append(" else ");
                if chained {
                    let rest = unparse_statement(&block_false[0], scope);
                    out.append(rest.as_str());
                } else {
                    let no = unparse_block(block_false, scope);
                    push_braced(&mut out, no.as_str());
                }
                out
            }
        },
        Statement::Switch { expression, cases } => {
            let mut out = String::from_str("switch ");
            let subject = unparse_expression(expression, scope);
            out.append(subject.as_str());
            out.append(" ");
            let arms = unparse_cases(cases, scope);
            push_braced(&mut out, arms.as_str());
            out
        },
        Statement::Thread { block } => {
            let mut out = String::from_str("thread ");
            let body = unparse_block(block, scope);
            push_braced(&mut out, body.as_str());
            out
        },
        Statement::Loop { times, block } => {
            let mut out = String::from_str("loop ");
            match times {
                LoopTimes::Infinite => {},
                LoopTimes::Expression(e) => {
                    let count = unparse_expression(e, scope);
                    out.append(count.as_str());
                    out.append(" ");
                },
            }
            let body = unparse_block(block, scope);
            push_braced(&mut out, body.as_str());
            out
        },
    }
}

/// A declaration as script source text.
pub fn unparse_declaration(decl: &Declaration, scope: &Scope) -> (out: String)
    ensures
        out@ == decl_text(decl@, scope@),
{
    match decl {
        Declaration::Fun { name, arguments, block } => {
            let mut out = String::from_str("fun ");
            let written = unparse_target(name, scope);
            out.append(written.as_str());
            out.append("(");
            let mut parts: Vec<String> = Vec::new();
            let mut i: usize = 0;
            while i < arguments.len()
                invariant
                    i <= arguments.len(),
                    parts@.len() == i,
                    forall|j: int|
                        0 <= j < i ==> parts@[j]@ == arguments@[j].0@ + ": "@ + type_text(
                            arguments@[j].1@,
                        ),
                decreases arguments.len() - i,
            {
                let mut part = arguments[i].0.0.clone();
                part.append(": ");
                let ty = arguments[i].1.to_text();
                part.append(ty.as_str());
                parts.push(part);
                i += 1;
            }
            assert(strings_view(parts@) =~= params_text(params_view(arguments@)));
            let list = join(&parts, ", ");
            out.append(list.as_str());
            out.append(") ");
            let body = unparse_block(block, scope);
            push_braced(&mut out, body.as_str());
            out
        },
    }
}

/// Things that can be written out as script source text, given a scope
/// in which to look addresses up.
pub trait Unparse {
    /// The text that the value is written as.
    spec fn text(&self, scope: ScopeModel) -> Seq<char>;

    fn unparse(self, scope: &Scope) -> (out: String)
        ensures
            out@ == self.text(scope@),
    ;
}

impl Unparse for Declaration {
    open spec fn text(&self, scope: ScopeModel) -> Seq<char> {
        decl_text(self@, scope)
    }

    fn unparse(self, scope: &Scope) -> (out: String) {
        unparse_declaration(&self, scope)
    }
}

impl Unparse for Statement {
    open spec fn text(&self, scope: ScopeModel) -> Seq<char> {
        stmt_text(self@, scope)
    }

    fn unparse(self, scope: &Scope) -> (out: String) {
        unparse_statement(&self, scope)
    }
}

impl Unparse for Expression {
    open spec fn text(&self, scope: ScopeModel) -> Seq<char> {
        expr_text(self@, scope)
    }

    fn unparse(self, scope: &Scope) -> (out: String) {
        unparse_expression(&self, scope)
    }
}

impl Unparse for IdentifierOrPointer {
    open spec fn text(&self, scope: ScopeModel) -> Seq<char> {
        target_text(self@, scope)
    }

    fn unparse(self, scope: &Scope) -> (out: String) {
        unparse_target(&self, scope)
    }
}

impl Unparse for Trigger {
    open spec fn text(&self, scope: ScopeModel) -> Seq<char> {
        trigger_text(self@, scope)
    }

    fn unparse(self, scope: &Scope) -> (out: String) {
        unparse_trigger(&self, scope)
    }
}

impl Unparse for TriggerObj {
    open spec fn text(&self, scope: ScopeModel) -> Seq<char> {
        trigger_obj_text(*self)
    }

    fn unparse(self, scope: &Scope) -> (out: String) {
        unparse_trigger_obj(self)
    }
}

impl Unparse for Operator {
    open spec fn text(&self, scope: ScopeModel) -> Seq<char> {
        operator_text(*self)
    }

    fn unparse(self, scope: &Scope) -> (out: String) {
        String::from_str(operator_str(self))
    }
}

impl Unparse for Identifier {
    open spec fn text(&self, scope: ScopeModel) -> Seq<char> {
        self@
    }

    fn unparse(self, scope: &Scope) -> (out: String) {
        self.0
    }
}

impl Unparse for DataType {
    open spec fn text(&self, scope: ScopeModel) -> Seq<char> {
        type_text(self@)
    }

    fn unparse(self, scope: &Scope) -> (out: String) {
        self.to_text()
    }
}

impl Unparse for Vec<Statement> {
    open spec fn text(&self, scope: ScopeModel) -> Seq<char> {
        block_text(block_view(self@), scope)
    }

    fn unparse(self, scope: &Scope) -> (out: String) {
        unparse_block(&self, scope)
    }
}

impl Unparse for Vec<Expression> {
    open spec fn text(&self, scope: ScopeModel) -> Seq<char> {
        arguments_text(exprs_view(self@), scope)
    }

    fn unparse(self, scope: &Scope) -> (out: String) {
        unparse_arguments(&self, scope)
    }
}

/// Writing a tree out depends on nothing but the tree and what the scope
/// holds: two trees and two scopes that are alike give the same text,
/// however often they are written.
pub proof fn lemma_unparse_stable(a: Statement, b: Statement, s: Scope, t: Scope)
    requires
        a@ == b@,
        s@ == t@,
    ensures
        a.text(s@) == b.text(t@),
{
}

} // verus!
