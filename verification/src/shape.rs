//! Scripts as trees of operations, the way a compiler would hold them
//! before laying them out flat, and the proof that rebuilding undoes the
//! laying out: whatever the tree, the statements rebuilt from its flat form
//! nest as the tree does, and nothing of the flat form is left over.

use vstd::prelude::*;
use crate::arg::Arg;
use crate::ast::{CaseModel, StmtModel};
use crate::bytecode::{
    assignment_operator, case_head, if_condition, loop_times, need_expression, parse_block,
    parse_cases, parse_op, parse_script, simple_statement, BlockEnd, Error, OpModel, Parsed,
    ParsedCases, Stop,
};
use crate::opcode::Opcode;

verus! {

/// A script as a tree of operations.
pub enum Shape {
    /// An operation that is a statement by itself.
    Plain(OpModel),
    /// A conditional: the operation that opens it, the first branch, and
    /// the second branch if the conditional has an `Else`.
    If { head: OpModel, yes: Seq<Shape>, no: Option<Seq<Shape>> },
    /// A switch: the operation that opens it and its arms, each the
    /// operation that opens the arm and the body of the arm.
    Switch { head: OpModel, arms: Seq<(OpModel, Seq<Shape>)> },
    /// A thread: the operands of the operation that opens it, the opcode
    /// that closes it, and its body.
    Thread { args: Seq<Arg>, closer: Opcode, body: Seq<Shape> },
    /// A loop: the operation that opens it and its body.
    Loop { head: OpModel, body: Seq<Shape> },
}

/// An operation without operands.
pub open spec fn bare(opcode: Opcode) -> OpModel {
    (opcode, Seq::empty())
}

/// Whether an opcode is a statement by itself.
pub open spec fn is_simple(opcode: Opcode) -> bool {
    assignment_operator(opcode).is_some() || opcode == Opcode::Call || opcode == Opcode::Exec
        || opcode == Opcode::ExecWait || opcode == Opcode::ExecRet || opcode == Opcode::Wait
        || opcode == Opcode::WaitSeconds || opcode == Opcode::Label || opcode == Opcode::Goto
        || opcode == Opcode::Return || opcode == Opcode::BreakLoop || opcode == Opcode::BreakCase
}

/// The tree laid out flat: a block is opened by its operation, closed by
/// the closing opcode of its kind, and holds its statements in between.
pub open spec fn flatten(shape: Shape) -> Seq<OpModel>
    decreases shape, 0nat, 0nat,
{
    match shape {
        Shape::Plain(op) => seq![op],
        Shape::If { head, yes, no } => seq![head] + flatten_from(yes, 0) + (match no {
            Some(block) => seq![bare(Opcode::Else)] + flatten_from(block, 0),
            None => Seq::empty(),
        }) + seq![bare(Opcode::EndIf)],
        Shape::Switch { head, arms } => seq![head] + flatten_arms(arms, 0) + seq![
            bare(Opcode::EndSwitch),
        ],
        Shape::Thread { args, closer, body } => seq![(Opcode::Thread, args)] + flatten_from(body, 0)
            + seq![bare(closer)],
        Shape::Loop { head, body } => seq![head] + flatten_from(body, 0) + seq![
            bare(Opcode::EndLoop),
        ],
    }
}

/// The trees of a block from place `i` on, laid out flat one after the
/// other.
pub open spec fn flatten_from(shapes: Seq<Shape>, i: int) -> Seq<OpModel>
    decreases shapes, 1nat, shapes.len() - i,
{
    if i < 0 || i >= shapes.len() {
        Seq::empty()
    } else {
        flatten(shapes[i]) + flatten_from(shapes, i + 1)
    }
}

/// The arms of a switch from place `k` on, laid out flat.
pub open spec fn flatten_arms(arms: Seq<(OpModel, Seq<Shape>)>, k: int) -> Seq<OpModel>
    decreases arms, 1nat, arms.len() - k,
{
    if k < 0 || k >= arms.len() {
        Seq::empty()
    } else {
        seq![arms[k].0] + flatten_from(arms[k].1, 0) + flatten_arms(arms, k + 1)
    }
}

/// Whether a tree is one that can be laid out: every operation has the
/// operands that its opcode needs, a plain operation is a statement by
/// itself, and a default arm is the last arm of its switch.
pub open spec fn well_formed(shape: Shape) -> bool
    decreases shape, 0nat,
{
    match shape {
        Shape::Plain(op) => is_simple(op.0) && simple_statement(op.0, op.1, Seq::empty()).is_ok(),
        Shape::If { head, yes, no } => head.0.is_if() && if_condition(head.0, head.1).is_ok()
            && all_well_formed(yes) && (match no {
            Some(block) => all_well_formed(block),
            None => true,
        }),
        Shape::Switch { head, arms } => (head.0 == Opcode::Switch || head.0 == Opcode::SwitchConst)
            && need_expression(head.0, head.1, 0).is_ok() && arms_well_formed(arms),
        Shape::Thread { args, closer, body } => (closer == Opcode::EndThread || closer
            == Opcode::EndChildThread) && all_well_formed(body),
        Shape::Loop { head, body } => head.0 == Opcode::Loop && loop_times(head.1).is_ok()
            && all_well_formed(body),
    }
}

/// Whether every tree of a block is well formed.
pub open spec fn all_well_formed(shapes: Seq<Shape>) -> bool
    decreases shapes, 1nat,
{
    forall|i: int| 0 <= i < shapes.len() ==> well_formed(#[trigger] shapes[i])
}

/// Whether the arms of a switch are well formed.
pub open spec fn arms_well_formed(arms: Seq<(OpModel, Seq<Shape>)>) -> bool
    decreases arms, 1nat,
{
    forall|k: int|
        0 <= k < arms.len() ==> {
            let arm = #[trigger] arms[k];
            &&& arm.0.0.opens_case()
            &&& case_head(arm.0.0, arm.0.1).is_ok()
            &&& (arm.0.0 == Opcode::CaseDefault ==> k == arms.len() - 1)
            &&& all_well_formed(arm.1)
        }
}

/// The statement that a tree stands for, and the operands that have been
/// assigned to after it.
pub open spec fn expected(shape: Shape, seen: Seq<Arg>) -> (StmtModel, Seq<Arg>)
    decreases shape, 0nat, 0nat,
{
    match shape {
        Shape::Plain(op) => match simple_statement(op.0, op.1, seen) {
            Ok(told) => told,
            Err(_) => (StmtModel::Return, seen),
        },
        Shape::If { head, yes, no } => {
            let first = expected_from(yes, 0, seen);
            let second = match no {
                Some(block) => expected_from(block, 0, first.1),
                None => (Seq::empty(), first.1),
            };
            (
                StmtModel::If {
                    condition: if_condition(head.0, head.1).unwrap(),
                    block_true: first.0,
                    block_false: second.0,
                },
                second.1,
            )
        },
        Shape::Switch { head, arms } => {
            let inner = expected_arms(arms, 0, seen);
            (
                StmtModel::Switch {
                    expression: need_expression(head.0, head.1, 0).unwrap(),
                    cases: inner.0,
                },
                inner.1,
            )
        },
        Shape::Thread { args, closer, body } => {
            let inner = expected_from(body, 0, seen);
            (StmtModel::Thread { block: inner.0 }, inner.1)
        },
        Shape::Loop { head, body } => {
            let inner = expected_from(body, 0, seen);
            (StmtModel::Loop { times: loop_times(head.1).unwrap(), block: inner.0 }, inner.1)
        },
    }
}

/// The statements that the trees of a block stand for, from place `i` on.
pub open spec fn expected_from(shapes: Seq<Shape>, i: int, seen: Seq<Arg>) -> (
    Seq<StmtModel>,
    Seq<Arg>,
)
    decreases shapes, 1nat, shapes.len() - i,
{
    if i < 0 || i >= shapes.len() {
        (Seq::empty(), seen)
    } else {
        let first = expected(shapes[i], seen);
        let rest = expected_from(shapes, i + 1, first.1);
        (seq![first.0] + rest.0, rest.1)
    }
}

/// The arms that the arms of a tree stand for, from place `k` on.
pub open spec fn expected_arms(arms: Seq<(OpModel, Seq<Shape>)>, k: int, seen: Seq<Arg>) -> (
    Seq<(CaseModel, Seq<StmtModel>)>,
    Seq<Arg>,
)
    decreases arms, 1nat, arms.len() - k,
{
    if k < 0 || k >= arms.len() {
        (Seq::empty(), seen)
    } else {
        let body = expected_from(arms[k].1, 0, seen);
        let rest = expected_arms(arms, k + 1, body.1);
        (seq![(case_head(arms[k].0.0, arms[k].0.1).unwrap(), body.0)] + rest.0, rest.1)
    }
}

/// Whether the operations `part` stand in `ops` from place `pos` on.
pub open spec fn occurs(ops: Seq<OpModel>, pos: int, part: Seq<OpModel>) -> bool {
    &&& 0 <= pos
    &&& pos + part.len() <= ops.len()
    &&& forall|i: int| 0 <= i < part.len() ==> ops[pos + i] == #[trigger] part[i]
}

/// Where two runs of operations stand one after the other, each stands
/// where it does.
pub proof fn lemma_occurs_split(ops: Seq<OpModel>, pos: int, a: Seq<OpModel>, b: Seq<OpModel>)
    requires
        occurs(ops, pos, a + b),
    ensures
        occurs(ops, pos, a),
        occurs(ops, pos + a.len(), b),
{
    let whole = a + b;
    assert forall|i: int| 0 <= i < a.len() implies ops[pos + i] == #[trigger] a[i] by {
        assert(whole[i] == a[i]);
    }
    assert forall|i: int| 0 <= i < b.len() implies ops[pos + a.len() + i] == #[trigger] b[i] by {
        assert(whole[a.len() + i] == b[i]);
    }
}

/// Whether a plain operation makes a statement does not depend on what
/// was assigned to before it.
pub proof fn lemma_simple_any_seen(op: OpModel, seen: Seq<Arg>)
    requires
        simple_statement(op.0, op.1, Seq::empty()).is_ok(),
    ensures
        simple_statement(op.0, op.1, seen).is_ok(),
{
}

/// No tree begins with an opcode that ends a block, or with `End`.
pub proof fn lemma_first_goes(shape: Shape, end: BlockEnd)
    requires
        well_formed(shape),
    ensures
        flatten(shape).len() >= 1,
        end.stop(flatten(shape)[0].0) == Stop::Go,
        flatten(shape)[0].0 != Opcode::End,
        !flatten(shape)[0].0.opens_case(),
        flatten(shape)[0].0 != Opcode::CaseAndEq,
        flatten(shape)[0].0 != Opcode::EndSwitch,
{
}

/// A run of operations that is a part of a run standing in `ops` stands
/// in `ops` too.
pub proof fn lemma_occurs_part(
    ops: Seq<OpModel>,
    pos: int,
    whole: Seq<OpModel>,
    offset: int,
    part: Seq<OpModel>,
)
    requires
        occurs(ops, pos, whole),
        0 <= offset,
        offset + part.len() <= whole.len(),
        whole.subrange(offset, offset + part.len()) == part,
    ensures
        occurs(ops, pos + offset, part),
{
    assert forall|i: int| 0 <= i < part.len() implies ops[pos + offset + i] == #[trigger] part[i] by {
        assert(whole.subrange(offset, offset + part.len())[i] == whole[offset + i]);
        assert(ops[pos + (offset + i)] == whole[offset + i]);
    }
}

/// What the reading of a block gives where it ends at `stop_pos`.
pub open spec fn block_read(
    ops: Seq<OpModel>,
    stop_pos: int,
    end: BlockEnd,
    told: (Seq<StmtModel>, Seq<Arg>),
) -> Result<Parsed, Error> {
    Ok(
        Parsed {
            stmts: told.0,
            pos: if end.stop(ops[stop_pos].0) == Stop::Consume {
                stop_pos + 1
            } else {
                stop_pos
            },
            seen: told.1,
        },
    )
}

/// A block that begins with the opcode that ends it is empty.
pub proof fn lemma_parse_empty_block(ops: Seq<OpModel>, pos: int, seen: Seq<Arg>, end: BlockEnd)
    requires
        0 <= pos < ops.len(),
        end.stop(ops[pos].0) != Stop::Go,
    ensures
        parse_block(ops, pos, seen, end) == block_read(ops, pos, end, (Seq::empty(), seen)),
{
}

/// Rebuilding undoes laying out, for one tree: where the flat form of a
/// well-formed tree stands in a list of operations, the statement read
/// there is the statement that the tree stands for, and reading ends
/// right after the flat form.
pub proof fn lemma_parse_shape(ops: Seq<OpModel>, pos: int, seen: Seq<Arg>, shape: Shape)
    requires
        well_formed(shape),
        occurs(ops, pos, flatten(shape)),
    ensures
        parse_op(ops, pos, seen) == Ok::<Parsed, Error>(
            Parsed {
                stmts: seq![expected(shape, seen).0],
                pos: pos + flatten(shape).len(),
                seen: expected(shape, seen).1,
            },
        ),
    decreases shape, 0nat, 0nat,
{
    let flat = flatten(shape);
    assert(ops[pos + 0] == flat[0]);
    match shape {
        Shape::Plain(op) => {
            lemma_simple_any_seen(op, seen);
        },
        Shape::If { head, yes, no } => {
            let fy = flatten_from(yes, 0);
            let ly = fy.len() as int;
            let stop1 = pos + 1 + ly;
            assert(flat.subrange(1, 1 + ly) =~= fy);
            lemma_occurs_part(ops, pos, flat, 1, fy);
            assert(ops[pos + (1 + ly)] == flat[1 + ly]);
            match no {
                Some(block) => {
                    let fn_ = flatten_from(block, 0);
                    let ln = fn_.len() as int;
                    assert(flat[1 + ly] == bare(Opcode::Else));
                    lemma_parse_block(ops, pos + 1, seen, BlockEnd::IfTrue, yes, 0);
                    let first = expected_from(yes, 0, seen);
                    assert(flat.subrange(2 + ly, 2 + ly + ln) =~= fn_);
                    lemma_occurs_part(ops, pos, flat, 2 + ly, fn_);
                    assert(ops[pos + (2 + ly + ln)] == flat[2 + ly + ln]);
                    assert(flat[2 + ly + ln] == bare(Opcode::EndIf));
                    lemma_parse_block(ops, stop1 + 1, first.1, BlockEnd::IfFalse, block, 0);
                },
                None => {
                    assert(flat[1 + ly] == bare(Opcode::EndIf));
                    lemma_parse_block(ops, pos + 1, seen, BlockEnd::IfTrue, yes, 0);
                    let first = expected_from(yes, 0, seen);
                    lemma_parse_empty_block(ops, stop1, first.1, BlockEnd::IfFalse);
                },
            }
        },
        Shape::Switch { head, arms } => {
            let fa = flatten_arms(arms, 0);
            assert(flat.subrange(1, flat.len() as int) =~= fa + seq![bare(Opcode::EndSwitch)]);
            lemma_occurs_part(ops, pos, flat, 1, fa + seq![bare(Opcode::EndSwitch)]);
            lemma_parse_arms(ops, pos + 1, seen, arms, 0, false);
        },
        Shape::Thread { args, closer, body } => {
            let fb = flatten_from(body, 0);
            let lb = fb.len() as int;
            assert(flat.subrange(1, 1 + lb) =~= fb);
            lemma_occurs_part(ops, pos, flat, 1, fb);
            assert(ops[pos + (1 + lb)] == flat[1 + lb]);
            assert(flat[1 + lb] == bare(closer));
            lemma_parse_block(ops, pos + 1, seen, BlockEnd::Thread, body, 0);
        },
        Shape::Loop { head, body } => {
            let fb = flatten_from(body, 0);
            let lb = fb.len() as int;
            assert(flat.subrange(1, 1 + lb) =~= fb);
            lemma_occurs_part(ops, pos, flat, 1, fb);
            assert(ops[pos + (1 + lb)] == flat[1 + lb]);
            assert(flat[1 + lb] == bare(Opcode::EndLoop));
            lemma_parse_block(ops, pos + 1, seen, BlockEnd::Loop, body, 0);
        },
    }
}

/// Rebuilding undoes laying out, for a block: where the flat form of
/// well-formed trees stands in a list of operations and is followed by an
/// opcode that ends the block, the statements read are those that the
/// trees stand for, and reading ends at that opcode.
pub proof fn lemma_parse_block(
    ops: Seq<OpModel>,
    pos: int,
    seen: Seq<Arg>,
    end: BlockEnd,
    shapes: Seq<Shape>,
    i: int,
)
    requires
        all_well_formed(shapes),
        0 <= i <= shapes.len(),
        occurs(ops, pos, flatten_from(shapes, i)),
        pos + flatten_from(shapes, i).len() < ops.len(),
        end.stop(ops[pos + flatten_from(shapes, i).len()].0) != Stop::Go,
    ensures
        parse_block(ops, pos, seen, end) == block_read(
            ops,
            pos + flatten_from(shapes, i).len(),
            end,
            expected_from(shapes, i, seen),
        ),
    decreases shapes, 1nat, shapes.len() - i,
{
    if i < shapes.len() {
        let shape = shapes[i];
        let first = flatten(shape);
        let rest = flatten_from(shapes, i + 1);
        assert(well_formed(shape));
        lemma_first_goes(shape, end);
        lemma_occurs_split(ops, pos, first, rest);
        assert(ops[pos + 0] == first[0]);
        lemma_parse_shape(ops, pos, seen, shape);
        lemma_parse_block(ops, pos + first.len(), expected(shape, seen).1, end, shapes, i + 1);
    }
}

/// Rebuilding undoes laying out, for the arms of a switch.
pub proof fn lemma_parse_arms(
    ops: Seq<OpModel>,
    pos: int,
    seen: Seq<Arg>,
    arms: Seq<(OpModel, Seq<Shape>)>,
    k: int,
    had_default: bool,
)
    requires
        arms_well_formed(arms),
        0 <= k <= arms.len(),
        k < arms.len() ==> !had_default,
        occurs(ops, pos, flatten_arms(arms, k) + seq![bare(Opcode::EndSwitch)]),
    ensures
        parse_cases(ops, pos, seen, had_default) == Ok::<ParsedCases, Error>(
            ParsedCases {
                cases: expected_arms(arms, k, seen).0,
                pos: pos + flatten_arms(arms, k).len() + 1,
                seen: expected_arms(arms, k, seen).1,
            },
        ),
    decreases arms, 1nat, arms.len() - k,
{
    let flat = flatten_arms(arms, k) + seq![bare(Opcode::EndSwitch)];
    assert(ops[pos + 0] == flat[0]);
    if k < arms.len() {
        let arm = arms[k];
        let body = flatten_from(arm.1, 0);
        let lb = body.len() as int;
        let rest = flatten_arms(arms, k + 1) + seq![bare(Opcode::EndSwitch)];
        assert(flat[0] == arm.0);
        assert(flat.subrange(1, 1 + lb) =~= body);
        lemma_occurs_part(ops, pos, flat, 1, body);
        assert(flat.subrange(1 + lb, flat.len() as int) =~= rest);
        lemma_occurs_part(ops, pos, flat, 1 + lb, rest);
        assert(ops[pos + 1 + lb + 0] == rest[0]);
        if k + 1 < arms.len() {
            assert(rest[0] == arms[k + 1].0);
            assert(arms[k + 1].0.0.opens_case());
        } else {
            assert(flatten_arms(arms, k + 1) =~= Seq::<OpModel>::empty());
            assert(rest[0] == bare(Opcode::EndSwitch));
        }
        lemma_parse_block(ops, pos + 1, seen, BlockEnd::Case, arm.1, 0);
        let told = expected_from(arm.1, 0, seen);
        lemma_parse_arms(ops, pos + 1 + lb, told.1, arms, k + 1, arm.0.0 == Opcode::CaseDefault);
    } else {
        assert(flatten_arms(arms, k) =~= Seq::<OpModel>::empty());
        assert(flat[0] == bare(Opcode::EndSwitch));
    }
}

/// Rebuilding undoes laying out, for what is left of a whole script.
pub proof fn lemma_parse_script_from(
    ops: Seq<OpModel>,
    pos: int,
    seen: Seq<Arg>,
    shapes: Seq<Shape>,
    i: int,
)
    requires
        all_well_formed(shapes),
        0 <= i <= shapes.len(),
        occurs(ops, pos, flatten_from(shapes, i) + seq![bare(Opcode::End)]),
        pos + flatten_from(shapes, i).len() + 1 == ops.len(),
    ensures
        parse_script(ops, pos, seen) == Ok::<Parsed, Error>(
            Parsed {
                stmts: expected_from(shapes, i, seen).0,
                pos: ops.len() as int,
                seen: expected_from(shapes, i, seen).1,
            },
        ),
    decreases shapes.len() - i,
{
    let flat = flatten_from(shapes, i) + seq![bare(Opcode::End)];
    assert(ops[pos + 0] == flat[0]);
    if i < shapes.len() {
        let shape = shapes[i];
        let first = flatten(shape);
        let rest = flatten_from(shapes, i + 1) + seq![bare(Opcode::End)];
        assert(well_formed(shape));
        lemma_first_goes(shape, BlockEnd::Loop);
        assert(flat =~= first + rest);
        lemma_occurs_split(ops, pos, first, rest);
        assert(flat[0] == first[0]);
        lemma_parse_shape(ops, pos, seen, shape);
        lemma_parse_script_from(ops, pos + first.len(), expected(shape, seen).1, shapes, i + 1);
    } else {
        assert(flatten_from(shapes, i) =~= Seq::<OpModel>::empty());
        assert(flat[0] == bare(Opcode::End));
    }
}

/// Rebuilding undoes laying out: the flat form of any well-formed trees,
/// closed by `End`, is read as the statements that the trees stand for,
/// nested as the trees are, and nothing is left over.
pub proof fn lemma_roundtrip(shapes: Seq<Shape>)
    requires
        all_well_formed(shapes),
    ensures
        parse_script(flatten_from(shapes, 0) + seq![bare(Opcode::End)], 0, Seq::empty())
            == Ok::<Parsed, Error>(
            Parsed {
                stmts: expected_from(shapes, 0, Seq::empty()).0,
                pos: (flatten_from(shapes, 0).len() + 1) as int,
                seen: expected_from(shapes, 0, Seq::empty()).1,
            },
        ),
{
    let ops = flatten_from(shapes, 0) + seq![bare(Opcode::End)];
    lemma_parse_script_from(ops, 0, Seq::empty(), shapes, 0);
}

/// A script that is not closed by `End` is never rebuilt: whatever
/// stands in the operations from `pos` on, if no `End` is among them, the
/// reading fails.
pub proof fn lemma_missing_end_fails(ops: Seq<OpModel>, pos: int, seen: Seq<Arg>)
    requires
        forall|i: int| pos <= i < ops.len() ==> (#[trigger] ops[i]).0 != Opcode::End,
    ensures
        parse_script(ops, pos, seen).is_err(),
    decreases ops.len() - pos,
{
    if 0 <= pos < ops.len() {
        assert(ops[pos].0 != Opcode::End);
        match parse_op(ops, pos, seen) {
            Err(e) => {},
            Ok(first) => {
                if !(first.pos <= pos || first.pos > ops.len()) {
                    lemma_missing_end_fails(ops, first.pos, first.seen);
                }
            },
        }
    }
}

/// Where the operations simply run out, it is `End` that is missing:
/// statements by themselves, without an `End` after them, fail with
/// `MissingEnd`.
pub proof fn lemma_plain_without_end(ops: Seq<OpModel>, pos: int, seen: Seq<Arg>)
    requires
        0 <= pos <= ops.len(),
        forall|i: int|
            pos <= i < ops.len() ==> is_simple((#[trigger] ops[i]).0) && simple_statement(
                ops[i].0,
                ops[i].1,
                Seq::empty(),
            ).is_ok(),
    ensures
        parse_script(ops, pos, seen) == Err::<Parsed, Error>(Error::MissingEnd),
    decreases ops.len() - pos,
{
    if pos < ops.len() {
        assert(is_simple(ops[pos].0));
        lemma_simple_any_seen(ops[pos], seen);
        let first = parse_op(ops, pos, seen).unwrap();
        assert(first.pos == pos + 1);
        lemma_plain_without_end(ops, pos + 1, first.seen);
    }
}

} // verus!
