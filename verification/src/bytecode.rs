//! Rebuilding structured statements from the flat list of operations that
//! a script is stored as. Blocks are not marked by jumps: an opening
//! opcode is matched by the closing opcode that follows its body.

use vstd::prelude::*;
use vstd::string::StringExecFns;
use crate::arg::{Arg, ArgKind};
use crate::ast::{
    block_view, cases_view, exprs_view, lemma_block_view_add, AssignmentOperator, Case, CaseModel,
    ExprModel, Expression, Identifier, LoopModel, LoopTimes, MethodThreading, Operator, Statement,
    StmtModel, ThreadingModel, TimeUnit,
};
use crate::datatype::{DataType, TypeModel};
use crate::opcode::Opcode;
use crate::rom::{be32, word_at, word_inside, Rom};
use crate::scope::{Scope, ScopeModel};
use crate::text::{push_signed, signed_decimal};

verus! {

/// One operation of a script: what to do, and its operands.
pub type Operation = (Opcode, Vec<Arg>);

/// An `Operation` as a mathematical value.
pub type OpModel = (Opcode, Seq<Arg>);

/// The model of each operation of a list, in order.
pub open spec fn ops_view(ops: Seq<Operation>) -> Seq<OpModel> {
    Seq::new(ops.len(), |i: int| (ops[i].0, ops[i].1@))
}

/// Why a list of operations is not a script.
#[derive(Debug, Clone, Copy, PartialEq, Eq, Structural)]
pub enum Error {
    /// The opcode is known, but nothing rebuilds it yet; or it stands
    /// where no statement can begin.
    UnimplementedOpcode(Opcode),
    /// The operations ran out before the closing `End`.
    MissingEnd,
    /// An `End` stands before the last operation.
    UnexpectedEnd,
    /// The opcode has too few operands: the one at this place is missing.
    MissingArg(Opcode, u8),
    /// The operand at this place is not of a kind that the opcode takes.
    BadArg(Opcode, u8),
    /// The word is no opcode.
    UnknownOpcode(u32),
    /// An arm of a switch follows the default arm.
    CaseAfterDefault(Opcode),
}

/// How far the reading of a list of operations has come: the statements
/// rebuilt, the place of the next operation, and the storage operands
/// that were assigned to so far, in the order of their first assignment.
pub struct Parsed {
    pub stmts: Seq<StmtModel>,
    pub pos: int,
    pub seen: Seq<Arg>,
}

/// The arms of a switch read so far, with the place of the next operation
/// and the operands seen.
pub struct ParsedCases {
    pub cases: Seq<(CaseModel, Seq<StmtModel>)>,
    pub pos: int,
    pub seen: Seq<Arg>,
}

/// The kinds of block, by what ends them.
#[derive(Debug, Clone, Copy, PartialEq, Eq, Structural)]
pub enum BlockEnd {
    /// The first branch of a conditional: ended by `Else`, which belongs
    /// to it, or by `EndIf`, which is left for the second branch.
    IfTrue,
    /// The second branch of a conditional: ended by `EndIf`.
    IfFalse,
    /// An arm of a switch: ended by whatever opens an arm or closes the
    /// switch, which is left in place.
    Case,
    /// The body of a thread: ended by `EndThread` or `EndChildThread`.
    Thread,
    /// The body of a loop: ended by `EndLoop`.
    Loop,
}

/// What an opcode means to the block that meets it.
#[derive(Debug, Clone, Copy, PartialEq, Eq, Structural)]
pub enum Stop {
    /// It begins another statement of the block.
    Go,
    /// It ends the block and is used up.
    Consume,
    /// It ends the block and stays for whoever reads next.
    Leave,
}

impl BlockEnd {
    /// What `opcode` means to a block of this kind.
    pub open spec fn stop(self, opcode: Opcode) -> Stop {
        match self {
            BlockEnd::IfTrue => if opcode == Opcode::Else {
                Stop::Consume
            } else if opcode == Opcode::EndIf {
                Stop::Leave
            } else {
                Stop::Go
            },
            BlockEnd::IfFalse => if opcode == Opcode::EndIf {
                Stop::Consume
            } else {
                Stop::Go
            },
            BlockEnd::Case => if opcode.ends_case() {
                Stop::Leave
            } else {
                Stop::Go
            },
            BlockEnd::Thread => if opcode == Opcode::EndThread || opcode == Opcode::EndChildThread {
                Stop::Consume
            } else {
                Stop::Go
            },
            BlockEnd::Loop => if opcode == Opcode::EndLoop {
                Stop::Consume
            } else {
                Stop::Go
            },
        }
    }

    /// What `opcode` means to a block of this kind.
    pub fn stop_at(self, opcode: Opcode) -> (stop: Stop)
        ensures
            stop == self.stop(opcode),
    {
        match self {
            BlockEnd::IfTrue => match opcode {
                Opcode::Else => Stop::Consume,
                Opcode::EndIf => Stop::Leave,
                _ => Stop::Go,
            },
            BlockEnd::IfFalse => match opcode {
                Opcode::EndIf => Stop::Consume,
                _ => Stop::Go,
            },
            BlockEnd::Case => match opcode {
                Opcode::CaseEq | Opcode::CaseOrEq | Opcode::CaseNe | Opcode::CaseLt => Stop::Leave,
                Opcode::CaseGt | Opcode::CaseLte | Opcode::CaseGte | Opcode::CaseAndZ => Stop::Leave,
                Opcode::CaseDefault | Opcode::CaseAndEq | Opcode::EndSwitch => Stop::Leave,
                _ => Stop::Go,
            },
            BlockEnd::Thread => match opcode {
                Opcode::EndThread | Opcode::EndChildThread => Stop::Consume,
                _ => Stop::Go,
            },
            BlockEnd::Loop => match opcode {
                Opcode::EndLoop => Stop::Consume,
                _ => Stop::Go,
            },
        }
    }
}

/// The operand at place `i`, or the error that says it is missing.
pub open spec fn need(opcode: Opcode, args: Seq<Arg>, i: int) -> Result<Arg, Error> {
    if 0 <= i < args.len() {
        Ok(args[i])
    } else {
        Err(Error::MissingArg(opcode, i as u8))
    }
}

/// The operand at place `i` as the name of storage.
pub open spec fn need_identifier(opcode: Opcode, args: Seq<Arg>, i: int) -> Result<Seq<char>, Error> {
    match need(opcode, args, i) {
        Err(e) => Err(e),
        Ok(arg) => match arg.spec_identifier() {
            Some(name) => Ok(name),
            None => Err(Error::BadArg(opcode, i as u8)),
        },
    }
}

/// The operand at place `i` as an expression.
pub open spec fn need_expression(opcode: Opcode, args: Seq<Arg>, i: int) -> Result<ExprModel, Error> {
    match need(opcode, args, i) {
        Err(e) => Err(e),
        Ok(arg) => Ok(arg.spec_expression()),
    }
}

/// The operand at place `i` as a label: a plain integer, written in base
/// ten.
pub open spec fn need_label(opcode: Opcode, args: Seq<Arg>, i: int) -> Result<Seq<char>, Error> {
    match need(opcode, args, i) {
        Err(e) => Err(e),
        Ok(arg) => match arg.spec_int() {
            Some(n) => Ok(signed_decimal(n as int)),
            None => Err(Error::BadArg(opcode, i as u8)),
        },
    }
}

/// The operands from place `from` on, each as an expression.
pub open spec fn tail_expressions(args: Seq<Arg>, from: int) -> Seq<ExprModel> {
    if from >= args.len() {
        Seq::empty()
    } else {
        Seq::new((args.len() - from) as nat, |i: int| args[from + i].spec_expression())
    }
}

/// The right side of a comparison whose left side is `lhs`. Where a flag
/// is tested for being equal or unequal to a plain integer, the integer
/// is read as a truth value: true if it is one.
pub open spec fn compared_with(opcode: Opcode, lhs: Arg, rhs: Arg) -> ExprModel {
    if (opcode == Opcode::IfEq || opcode == Opcode::IfNe) && lhs.spec_kind().is_flag()
        && rhs.spec_kind() == ArgKind::Int {
        ExprModel::Bool(rhs.0 == 1)
    } else {
        rhs.spec_expression()
    }
}

/// The condition of a conditional opcode: its first two operands with the
/// opcode's comparison between them.
pub open spec fn if_condition(opcode: Opcode, args: Seq<Arg>) -> Result<ExprModel, Error> {
    match need(opcode, args, 0) {
        Err(e) => Err(e),
        Ok(lhs) => match need(opcode, args, 1) {
            Err(e) => Err(e),
            Ok(rhs) => Ok(
                ExprModel::Operation {
                    lhs: Box::new(lhs.spec_expression()),
                    op: opcode.operator().unwrap(),
                    rhs: Box::new(compared_with(opcode, lhs, rhs)),
                },
            ),
        },
    }
}

/// The head of the arm that a case opcode opens.
pub open spec fn case_head(opcode: Opcode, args: Seq<Arg>) -> Result<CaseModel, Error> {
    if opcode == Opcode::CaseDefault {
        Ok(CaseModel::Default)
    } else {
        match need_expression(opcode, args, 0) {
            Err(e) => Err(e),
            Ok(against) => Ok(CaseModel::Test { operator: opcode.operator().unwrap(), against }),
        }
    }
}

/// How often a loop with these operands runs: for ever if the first
/// operand is the word zero, else as often as the operand says.
pub open spec fn loop_times(args: Seq<Arg>) -> Result<LoopModel, Error> {
    match need(Opcode::Loop, args, 0) {
        Err(e) => Err(e),
        Ok(arg) => if arg.0 == 0 {
            Ok(LoopModel::Infinite)
        } else {
            Ok(LoopModel::Times(arg.spec_expression()))
        },
    }
}

/// The assignment operator of an opcode that changes a variable.
pub open spec fn assignment_operator(opcode: Opcode) -> Option<AssignmentOperator> {
    match opcode {
        Opcode::SetInt | Opcode::SetRef | Opcode::SetFloat => Some(AssignmentOperator::Eq),
        Opcode::AddInt | Opcode::AddFloat => Some(AssignmentOperator::Add),
        Opcode::SubInt | Opcode::SubFloat => Some(AssignmentOperator::Sub),
        Opcode::MulInt | Opcode::MulFloat => Some(AssignmentOperator::Mul),
        Opcode::DivInt | Opcode::DivFloat => Some(AssignmentOperator::Div),
        Opcode::ModInt => Some(AssignmentOperator::Mod),
        _ => None,
    }
}

/// Whether the opcode sets a variable, as against changing its value.
pub open spec fn is_set(opcode: Opcode) -> bool {
    opcode == Opcode::SetInt || opcode == Opcode::SetRef || opcode == Opcode::SetFloat
}

/// The statement for an opcode that assigns: the first assignment to a
/// word or flag of the function declares it, every other is a plain
/// assignment. Storage of wider scope is never declared.
pub open spec fn assignment(opcode: Opcode, args: Seq<Arg>, seen: Seq<Arg>) -> Result<
    (StmtModel, Seq<Arg>),
    Error,
> {
    match need_identifier(opcode, args, 0) {
        Err(e) => Err(e),
        Ok(identifier) => match need_expression(opcode, args, 1) {
            Err(e) => Err(e),
            Ok(expression) => {
                let target = args[0];
                let assign = StmtModel::VarAssign {
                    operator: assignment_operator(opcode).unwrap(),
                    identifier,
                    expression,
                };
                if !is_set(opcode) {
                    Ok((assign, seen))
                } else if seen.contains(target) {
                    Ok((assign, seen))
                } else if target.spec_kind() == ArgKind::FunWord {
                    Ok(
                        (
                            StmtModel::VarDeclare {
                                datatype: if opcode == Opcode::SetFloat {
                                    TypeModel::Float
                                } else {
                                    TypeModel::Any
                                },
                                identifier,
                                expression: Some(expression),
                            },
                            seen.push(target),
                        ),
                    )
                } else if target.spec_kind() == ArgKind::FunFlag {
                    Ok(
                        (
                            StmtModel::VarDeclare {
                                datatype: TypeModel::Bool,
                                identifier,
                                expression: Some(expression),
                            },
                            seen.push(target),
                        ),
                    )
                } else {
                    Ok((assign, seen.push(target)))
                }
            },
        },
    }
}

/// The statement for an opcode that calls: the first operand is the
/// target, the others are the arguments. `ExecRet` keeps the thread it
/// starts in the variable that its second operand names.
pub open spec fn call(opcode: Opcode, args: Seq<Arg>) -> Result<StmtModel, Error> {
    match need(opcode, args, 0) {
        Err(e) => Err(e),
        Ok(first) => match first.spec_target() {
            None => Err(Error::BadArg(opcode, 0)),
            Some(method) => if opcode == Opcode::ExecRet {
                match need_identifier(opcode, args, 1) {
                    Err(e) => Err(e),
                    Ok(variable) => Ok(
                        StmtModel::MethodCall {
                            method,
                            arguments: tail_expressions(args, 2),
                            threading: ThreadingModel::Assign(variable),
                            bc_is_func: true,
                        },
                    ),
                }
            } else {
                Ok(
                    StmtModel::MethodCall {
                        method,
                        arguments: tail_expressions(args, 1),
                        threading: if opcode == Opcode::Exec {
                            ThreadingModel::Yes
                        } else {
                            ThreadingModel::No
                        },
                        bc_is_func: opcode != Opcode::Call,
                    },
                )
            },
        },
    }
}

/// The statement for an opcode that has no body of its own, with the
/// operands seen after it.
pub open spec fn simple_statement(opcode: Opcode, args: Seq<Arg>, seen: Seq<Arg>) -> Result<
    (StmtModel, Seq<Arg>),
    Error,
> {
    if assignment_operator(opcode).is_some() {
        assignment(opcode, args, seen)
    } else if opcode == Opcode::Call || opcode == Opcode::Exec || opcode == Opcode::ExecWait
        || opcode == Opcode::ExecRet {
        match call(opcode, args) {
            Err(e) => Err(e),
            Ok(stmt) => Ok((stmt, seen)),
        }
    } else if opcode == Opcode::Wait || opcode == Opcode::WaitSeconds {
        match need_expression(opcode, args, 0) {
            Err(e) => Err(e),
            Ok(time) => Ok(
                (
                    StmtModel::Wait {
                        time,
                        unit: if opcode == Opcode::Wait {
                            TimeUnit::Frames
                        } else {
                            TimeUnit::Seconds
                        },
                    },
                    seen,
                ),
            ),
        }
    } else if opcode == Opcode::Label {
        match need_label(opcode, args, 0) {
            Err(e) => Err(e),
            Ok(name) => Ok((StmtModel::Label { name }, seen)),
        }
    } else if opcode == Opcode::Goto {
        match need_label(opcode, args, 0) {
            Err(e) => Err(e),
            Ok(label_name) => Ok((StmtModel::Goto { label_name }, seen)),
        }
    } else if opcode == Opcode::Return {
        Ok((StmtModel::Return, seen))
    } else if opcode == Opcode::BreakLoop {
        Ok((StmtModel::BreakLoop, seen))
    } else if opcode == Opcode::BreakCase {
        Ok((StmtModel::BreakCase, seen))
    } else if opcode == Opcode::End {
        Err(Error::UnexpectedEnd)
    } else {
        Err(Error::UnimplementedOpcode(opcode))
    }
}

/// The statement that begins at `pos`, read to its end.
///
/// A conditional is its condition, then a block up to `Else` or `EndIf`,
/// then a block up to `EndIf`. A switch is its subject and its arms. A
/// thread or a loop is a block up to its closing opcode. Every other
/// opcode is a statement by itself.
pub open spec fn parse_op(ops: Seq<OpModel>, pos: int, seen: Seq<Arg>) -> Result<Parsed, Error>
    decreases ops.len() - pos, 0nat,
{
    if pos < 0 || pos >= ops.len() {
        Err(Error::MissingEnd)
    } else {
        let opcode = ops[pos].0;
        let args = ops[pos].1;
        if opcode.is_if() {
            match if_condition(opcode, args) {
                Err(e) => Err(e),
                Ok(condition) => match parse_block(ops, pos + 1, seen, BlockEnd::IfTrue) {
                    Err(e) => Err(e),
                    Ok(yes) => if yes.pos <= pos || yes.pos > ops.len() {
                        Err(Error::MissingEnd)
                    } else {
                        match parse_block(ops, yes.pos, yes.seen, BlockEnd::IfFalse) {
                            Err(e) => Err(e),
                            Ok(no) => Ok(
                                Parsed {
                                    stmts: seq![
                                        StmtModel::If {
                                            condition,
                                            block_true: yes.stmts,
                                            block_false: no.stmts,
                                        },
                                    ],
                                    pos: no.pos,
                                    seen: no.seen,
                                },
                            ),
                        }
                    },
                },
            }
        } else if opcode == Opcode::Switch || opcode == Opcode::SwitchConst {
            match need_expression(opcode, args, 0) {
                Err(e) => Err(e),
                Ok(expression) => match parse_cases(ops, pos + 1, seen, false) {
                    Err(e) => Err(e),
                    Ok(arms) => Ok(
                        Parsed {
                            stmts: seq![StmtModel::Switch { expression, cases: arms.cases }],
                            pos: arms.pos,
                            seen: arms.seen,
                        },
                    ),
                },
            }
        } else if opcode == Opcode::Thread {
            match parse_block(ops, pos + 1, seen, BlockEnd::Thread) {
                Err(e) => Err(e),
                Ok(body) => Ok(
                    Parsed {
                        stmts: seq![StmtModel::Thread { block: body.stmts }],
                        pos: body.pos,
                        seen: body.seen,
                    },
                ),
            }
        } else if opcode == Opcode::Loop {
            match loop_times(args) {
                Err(e) => Err(e),
                Ok(times) => match parse_block(ops, pos + 1, seen, BlockEnd::Loop) {
                    Err(e) => Err(e),
                    Ok(body) => Ok(
                        Parsed {
                            stmts: seq![StmtModel::Loop { times, block: body.stmts }],
                            pos: body.pos,
                            seen: body.seen,
                        },
                    ),
                },
            }
        } else {
            match simple_statement(opcode, args, seen) {
                Err(e) => Err(e),
                Ok((stmt, after)) => Ok(Parsed { stmts: seq![stmt], pos: pos + 1, seen: after }),
            }
        }
    }
}

/// The statements from `pos` up to the opcode that ends a block of the
/// given kind. If the operations run out first, `End` is missing. (The
/// test that each statement ends after it began never fails; it is what
/// shows that the reading comes to an end.)
pub open spec fn parse_block(ops: Seq<OpModel>, pos: int, seen: Seq<Arg>, end: BlockEnd) -> Result<
    Parsed,
    Error,
>
    decreases ops.len() - pos, 1nat,
{
    if pos < 0 || pos >= ops.len() {
        Err(Error::MissingEnd)
    } else {
        match end.stop(ops[pos].0) {
            Stop::Consume => Ok(Parsed { stmts: Seq::empty(), pos: pos + 1, seen }),
            Stop::Leave => Ok(Parsed { stmts: Seq::empty(), pos, seen }),
            Stop::Go => match parse_op(ops, pos, seen) {
                Err(e) => Err(e),
                Ok(first) => if first.pos <= pos || first.pos > ops.len() {
                    Err(Error::MissingEnd)
                } else {
                    match parse_block(ops, first.pos, first.seen, end) {
                        Err(e) => Err(e),
                        Ok(rest) => Ok(
                            Parsed {
                                stmts: first.stmts + rest.stmts,
                                pos: rest.pos,
                                seen: rest.seen,
                            },
                        ),
                    }
                },
            },
        }
    }
}

/// The arms of a switch from `pos` on. An opcode that opens an arm is
/// followed by the arm's block; no arm may follow the default arm.
/// `EndSwitch` closes the switch. Any other opcode ends the switch too and
/// is left in place: some scripts of the game hold a switch that has no
/// arms and is never closed, and they are read as they are.
pub open spec fn parse_cases(ops: Seq<OpModel>, pos: int, seen: Seq<Arg>, had_default: bool) -> Result<
    ParsedCases,
    Error,
>
    decreases ops.len() - pos, 1nat,
{
    if pos < 0 || pos >= ops.len() {
        Err(Error::MissingEnd)
    } else {
        let opcode = ops[pos].0;
        let args = ops[pos].1;
        if opcode.opens_case() {
            if had_default {
                Err(Error::CaseAfterDefault(opcode))
            } else {
                match parse_block(ops, pos + 1, seen, BlockEnd::Case) {
                    Err(e) => Err(e),
                    Ok(body) => match case_head(opcode, args) {
                        Err(e) => Err(e),
                        Ok(head) => if body.pos <= pos || body.pos > ops.len() {
                            Err(Error::MissingEnd)
                        } else {
                            match parse_cases(
                                ops,
                                body.pos,
                                body.seen,
                                opcode == Opcode::CaseDefault,
                            ) {
                                Err(e) => Err(e),
                                Ok(rest) => Ok(
                                    ParsedCases {
                                        cases: seq![(head, body.stmts)] + rest.cases,
                                        pos: rest.pos,
                                        seen: rest.seen,
                                    },
                                ),
                            }
                        },
                    },
                }
            }
        } else if opcode == Opcode::CaseAndEq {
            Err(Error::UnimplementedOpcode(Opcode::CaseAndEq))
        } else if opcode == Opcode::EndSwitch {
            Ok(ParsedCases { cases: Seq::empty(), pos: pos + 1, seen })
        } else {
            Ok(ParsedCases { cases: Seq::empty(), pos, seen })
        }
    }
}

/// The statements of a whole script from `pos` on. The script ends with
/// `End`, which must be its last operation.
pub open spec fn parse_script(ops: Seq<OpModel>, pos: int, seen: Seq<Arg>) -> Result<Parsed, Error>
    decreases ops.len() - pos, 1nat,
{
    if pos < 0 || pos >= ops.len() {
        Err(Error::MissingEnd)
    } else if ops[pos].0 == Opcode::End {
        if pos + 1 < ops.len() {
            Err(Error::UnexpectedEnd)
        } else {
            Ok(Parsed { stmts: Seq::empty(), pos: pos + 1, seen })
        }
    } else {
        match parse_op(ops, pos, seen) {
            Err(e) => Err(e),
            Ok(first) => if first.pos <= pos || first.pos > ops.len() {
                Err(Error::MissingEnd)
            } else {
                match parse_script(ops, first.pos, first.seen) {
                    Err(e) => Err(e),
                    Ok(rest) => Ok(
                        Parsed { stmts: first.stmts + rest.stmts, pos: rest.pos, seen: rest.seen },
                    ),
                }
            },
        }
    }
}

/// The statements without a `Return` at their very end: it says nothing.
pub open spec fn without_final_return(stmts: Seq<StmtModel>) -> Seq<StmtModel> {
    if stmts.len() > 0 && stmts.last() == StmtModel::Return {
        stmts.drop_last()
    } else {
        stmts
    }
}

/// Reading moves forward: a statement that was read ends after the place
/// where it began, and inside the operations.
pub proof fn lemma_parse_op_advances(ops: Seq<OpModel>, pos: int, seen: Seq<Arg>)
    ensures
        parse_op(ops, pos, seen) matches Ok(p) ==> pos < p.pos <= ops.len(),
    decreases ops.len() - pos, 0nat,
{
    if !(pos < 0 || pos >= ops.len()) {
        let opcode = ops[pos].0;
        if opcode.is_if() {
            lemma_parse_block_advances(ops, pos + 1, seen, BlockEnd::IfTrue);
            match parse_block(ops, pos + 1, seen, BlockEnd::IfTrue) {
                Ok(yes) => {
                    if !(yes.pos <= pos || yes.pos > ops.len()) {
                        lemma_parse_block_advances(ops, yes.pos, yes.seen, BlockEnd::IfFalse);
                    }
                },
                Err(e) => {},
            }
        } else if opcode == Opcode::Switch || opcode == Opcode::SwitchConst {
            lemma_parse_cases_advances(ops, pos + 1, seen, false);
        } else if opcode == Opcode::Thread {
            lemma_parse_block_advances(ops, pos + 1, seen, BlockEnd::Thread);
        } else if opcode == Opcode::Loop {
            lemma_parse_block_advances(ops, pos + 1, seen, BlockEnd::Loop);
        }
    }
}

/// A block that was read ends at or after the place where it began, and
/// inside the operations.
pub proof fn lemma_parse_block_advances(ops: Seq<OpModel>, pos: int, seen: Seq<Arg>, end: BlockEnd)
    ensures
        parse_block(ops, pos, seen, end) matches Ok(p) ==> pos <= p.pos <= ops.len(),
    decreases ops.len() - pos, 1nat,
{
    if !(pos < 0 || pos >= ops.len()) {
        if end.stop(ops[pos].0) == Stop::Go {
            lemma_parse_op_advances(ops, pos, seen);
            match parse_op(ops, pos, seen) {
                Ok(first) => {
                    if !(first.pos <= pos || first.pos > ops.len()) {
                        lemma_parse_block_advances(ops, first.pos, first.seen, end);
                    }
                },
                Err(e) => {},
            }
        }
    }
}

/// The arms of a switch that were read end at or after the place where
/// they began, and inside the operations.
pub proof fn lemma_parse_cases_advances(ops: Seq<OpModel>, pos: int, seen: Seq<Arg>, had_default: bool)
    ensures
        parse_cases(ops, pos, seen, had_default) matches Ok(p) ==> pos <= p.pos <= ops.len(),
    decreases ops.len() - pos, 1nat,
{
    if !(pos < 0 || pos >= ops.len()) {
        let opcode = ops[pos].0;
        if opcode.opens_case() && !had_default {
            lemma_parse_block_advances(ops, pos + 1, seen, BlockEnd::Case);
            match parse_block(ops, pos + 1, seen, BlockEnd::Case) {
                Ok(body) => {
                    if !(body.pos <= pos || body.pos > ops.len()) {
                        lemma_parse_cases_advances(
                            ops,
                            body.pos,
                            body.seen,
                            opcode == Opcode::CaseDefault,
                        );
                    }
                },
                Err(e) => {},
            }
        }
    }
}

/// Whether a value is what its model says, or the same error.
pub open spec fn agrees<T: View>(r: Result<T, Error>, m: Result<T::V, Error>) -> bool {
    match m {
        Ok(v) => r matches Ok(x) && x@ == v,
        Err(e) => r matches Err(f) && f == e,
    }
}

/// Whether what was read is what the model says was to be read.
pub open spec fn parsed_as(
    r: Result<(Vec<Statement>, usize), Error>,
    seen: Seq<Arg>,
    from: int,
    limit: int,
    m: Result<Parsed, Error>,
) -> bool {
    match m {
        Ok(p) => r matches Ok((stmts, next)) && block_view(stmts@) == p.stmts && next == p.pos
            && seen == p.seen && from <= next <= limit,
        Err(e) => r matches Err(f) && f == e,
    }
}

/// Whether the arms that were read are what the model says.
pub open spec fn cases_as(
    r: Result<(Vec<(Case, Vec<Statement>)>, usize), Error>,
    seen: Seq<Arg>,
    from: int,
    limit: int,
    m: Result<ParsedCases, Error>,
) -> bool {
    match m {
        Ok(p) => r matches Ok((cases, next)) && cases_view(cases@) == p.cases && next == p.pos
            && seen == p.seen && from <= next <= limit,
        Err(e) => r matches Err(f) && f == e,
    }
}

fn is_if(opcode: Opcode) -> (b: bool)
    ensures
        b == opcode.is_if(),
{
    match opcode {
        Opcode::IfEq | Opcode::IfNe | Opcode::IfLt | Opcode::IfGt => true,
        Opcode::IfLte | Opcode::IfGte | Opcode::IfAndNz | Opcode::IfAndZ => true,
        _ => false,
    }
}

fn opens_case(opcode: Opcode) -> (b: bool)
    ensures
        b == opcode.opens_case(),
{
    match opcode {
        Opcode::CaseEq | Opcode::CaseOrEq | Opcode::CaseNe | Opcode::CaseLt => true,
        Opcode::CaseGt | Opcode::CaseLte | Opcode::CaseGte | Opcode::CaseAndZ => true,
        Opcode::CaseDefault => true,
        _ => false,
    }
}

fn assignment_operator_of(opcode: Opcode) -> (op: Option<AssignmentOperator>)
    ensures
        op == assignment_operator(opcode),
{
    match opcode {
        Opcode::SetInt | Opcode::SetRef | Opcode::SetFloat => Some(AssignmentOperator::Eq),
        Opcode::AddInt | Opcode::AddFloat => Some(AssignmentOperator::Add),
        Opcode::SubInt | Opcode::SubFloat => Some(AssignmentOperator::Sub),
        Opcode::MulInt | Opcode::MulFloat => Some(AssignmentOperator::Mul),
        Opcode::DivInt | Opcode::DivFloat => Some(AssignmentOperator::Div),
        Opcode::ModInt => Some(AssignmentOperator::Mod),
        _ => None,
    }
}

fn take_arg(opcode: Opcode, args: &Vec<Arg>, i: u8) -> (r: Result<Arg, Error>)
    ensures
        r == need(opcode, args@, i as int),
{
    if (i as usize) < args.len() {
        Ok(args[i as usize])
    } else {
        Err(Error::MissingArg(opcode, i))
    }
}

fn take_identifier(opcode: Opcode, args: &Vec<Arg>, i: u8) -> (r: Result<Identifier, Error>)
    ensures
        agrees(r, need_identifier(opcode, args@, i as int)),
{
    match take_arg(opcode, args, i) {
        Err(e) => Err(e),
        Ok(arg) => match arg.into_identifier() {
            Some(id) => Ok(id),
            None => Err(Error::BadArg(opcode, i)),
        },
    }
}

fn take_expression(opcode: Opcode, args: &Vec<Arg>, i: u8) -> (r: Result<Expression, Error>)
    ensures
        agrees(r, need_expression(opcode, args@, i as int)),
{
    match take_arg(opcode, args, i) {
        Err(e) => Err(e),
        Ok(arg) => Ok(arg.into_expression()),
    }
}

fn take_label(opcode: Opcode, args: &Vec<Arg>, i: u8) -> (r: Result<String, Error>)
    ensures
        agrees(r, need_label(opcode, args@, i as int)),
{
    match take_arg(opcode, args, i) {
        Err(e) => Err(e),
        Ok(arg) => match arg.into_int() {
            Some(n) => {
                let mut name = String::new();
                push_signed(&mut name, n as i64);
                assert(name@ =~= signed_decimal(n as int));
                Ok(name)
            },
            None => Err(Error::BadArg(opcode, i)),
        },
    }
}

fn take_tail(args: &Vec<Arg>, from: usize) -> (r: Vec<Expression>)
    ensures
        exprs_view(r@) == tail_expressions(args@, from as int),
{
    let mut r: Vec<Expression> = Vec::new();
    let mut i: usize = from;
    while i < args.len()
        invariant
            from <= i,
            from < args.len() ==> i <= args.len(),
            from < args.len() ==> r@.len() == i - from,
            from >= args.len() ==> r@.len() == 0,
            forall|j: int| 0 <= j < r@.len() ==> r@[j]@ == args@[from + j].spec_expression(),
        decreases args.len() - i,
    {
        r.push(args[i].into_expression());
        i += 1;
    }
    assert(exprs_view(r@) =~= tail_expressions(args@, from as int));
    r
}

fn was_seen(seen: &Vec<Arg>, arg: Arg) -> (b: bool)
    ensures
        b == seen@.contains(arg),
{
    let mut i: usize = 0;
    while i < seen.len()
        invariant
            i <= seen.len(),
            forall|j: int| 0 <= j < i ==> seen@[j] != arg,
        decreases seen.len() - i,
    {
        if seen[i].0 == arg.0 {
            assert(seen@[i as int] == arg);
            return true;
        }
        i += 1;
    }
    false
}

fn condition_of(opcode: Opcode, args: &Vec<Arg>) -> (r: Result<Expression, Error>)
    requires
        opcode.is_if(),
    ensures
        agrees(r, if_condition(opcode, args@)),
{
    let lhs = match take_arg(opcode, args, 0) {
        Err(e) => {
            return Err(e);
        },
        Ok(arg) => arg,
    };
    let rhs = match take_arg(opcode, args, 1) {
        Err(e) => {
            return Err(e);
        },
        Ok(arg) => arg,
    };
    let op = match opcode.into_operator() {
        Some(op) => op,
        None => Operator::Eq,
    };
    let equality = match opcode {
        Opcode::IfEq | Opcode::IfNe => true,
        _ => false,
    };
    let right = if equality && lhs.kind().names_flag() && rhs.kind() == ArgKind::Int {
        Expression::LiteralBool(rhs.0 == 1)
    } else {
        rhs.into_expression()
    };
    Ok(Expression::Operation { lhs: Box::new(lhs.into_expression()), op, rhs: Box::new(right) })
}

fn case_head_of(opcode: Opcode, args: &Vec<Arg>) -> (r: Result<Case, Error>)
    requires
        opcode.opens_case(),
    ensures
        agrees(r, case_head(opcode, args@)),
{
    if opcode == Opcode::CaseDefault {
        Ok(Case::Default)
    } else {
        match take_expression(opcode, args, 0) {
            Err(e) => Err(e),
            Ok(against) => {
                let operator = match opcode.into_operator() {
                    Some(op) => op,
                    None => Operator::Eq,
                };
                Ok(Case::Test { operator, against })
            },
        }
    }
}

fn loop_times_of(args: &Vec<Arg>) -> (r: Result<LoopTimes, Error>)
    ensures
        agrees(r, loop_times(args@)),
{
    match take_arg(Opcode::Loop, args, 0) {
        Err(e) => Err(e),
        Ok(arg) => if arg.0 == 0 {
            Ok(LoopTimes::Infinite)
        } else {
            Ok(LoopTimes::Expression(arg.into_expression()))
        },
    }
}

fn assignment_of(opcode: Opcode, operator: AssignmentOperator, args: &Vec<Arg>, seen: &mut Vec<Arg>) -> (r:
    Result<Statement, Error>)
    requires
        assignment_operator(opcode) == Some(operator),
    ensures
        match assignment(opcode, args@, old(seen)@) {
            Ok((stmt, after)) => r matches Ok(s) && s@ == stmt && final(seen)@ == after,
            Err(e) => r matches Err(f) && f == e,
        },
{
    let identifier = match take_identifier(opcode, args, 0) {
        Err(e) => {
            return Err(e);
        },
        Ok(id) => id,
    };
    let expression = match take_expression(opcode, args, 1) {
        Err(e) => {
            return Err(e);
        },
        Ok(e) => e,
    };
    let target = args[0];
    let set = match opcode {
        Opcode::SetInt | Opcode::SetRef | Opcode::SetFloat => true,
        _ => false,
    };
    if set && !was_seen(seen, target) {
        seen.push(target);
        match target.kind() {
            ArgKind::FunWord => {
                let datatype = match opcode {
                    Opcode::SetFloat => DataType::Float,
                    _ => DataType::Any,
                };
                return Ok(
                    Statement::VarDeclare { datatype, identifier, expression: Some(expression) },
                );
            },
            ArgKind::FunFlag => {
                return Ok(
                    Statement::VarDeclare {
                        datatype: DataType::Bool,
                        identifier,
                        expression: Some(expression),
                    },
                );
            },
            _ => {},
        }
    }
    Ok(Statement::VarAssign { operator, identifier, expression })
}

fn call_of(opcode: Opcode, args: &Vec<Arg>) -> (r: Result<Statement, Error>)
    ensures
        agrees(r, call(opcode, args@)),
{
    let first = match take_arg(opcode, args, 0) {
        Err(e) => {
            return Err(e);
        },
        Ok(arg) => arg,
    };
    let method = match first.into_ident_or_ptr() {
        None => {
            return Err(Error::BadArg(opcode, 0));
        },
        Some(m) => m,
    };
    if opcode == Opcode::ExecRet {
        match take_identifier(opcode, args, 1) {
            Err(e) => Err(e),
            Ok(variable) => Ok(
                Statement::MethodCall {
                    method,
                    arguments: take_tail(args, 2),
                    threading: MethodThreading::Assign(variable),
                    bc_is_func: true,
                },
            ),
        }
    } else {
        let threading = if opcode == Opcode::Exec {
            MethodThreading::Yes
        } else {
            MethodThreading::No
        };
        Ok(
            Statement::MethodCall {
                method,
                arguments: take_tail(args, 1),
                threading,
                bc_is_func: opcode != Opcode::Call,
            },
        )
    }
}

fn simple_statement_of(opcode: Opcode, args: &Vec<Arg>, seen: &mut Vec<Arg>) -> (r: Result<
    Statement,
    Error,
>)
    ensures
        match simple_statement(opcode, args@, old(seen)@) {
            Ok((stmt, after)) => r matches Ok(s) && s@ == stmt && final(seen)@ == after,
            Err(e) => r matches Err(f) && f == e,
        },
{
    match assignment_operator_of(opcode) {
        Some(operator) => {
            return assignment_of(opcode, operator, args, seen);
        },
        None => {},
    }
    match opcode {
        Opcode::Call | Opcode::Exec | Opcode::ExecWait | Opcode::ExecRet => call_of(opcode, args),
        Opcode::Wait | Opcode::WaitSeconds => match take_expression(opcode, args, 0) {
            Err(e) => Err(e),
            Ok(time) => {
                let unit = if opcode == Opcode::Wait {
                    TimeUnit::Frames
                } else {
                    TimeUnit::Seconds
                };
                Ok(Statement::Wait { time, unit })
            },
        },
        Opcode::Label => match take_label(opcode, args, 0) {
            Err(e) => Err(e),
            Ok(name) => Ok(Statement::Label { name }),
        },
        Opcode::Goto => match take_label(opcode, args, 0) {
            Err(e) => Err(e),
            Ok(label_name) => Ok(Statement::Goto { label_name }),
        },
        Opcode::Return => Ok(Statement::Return),
        Opcode::BreakLoop => Ok(Statement::BreakLoop),
        Opcode::BreakCase => Ok(Statement::BreakCase),
        Opcode::End => Err(Error::UnexpectedEnd),
        _ => Err(Error::UnimplementedOpcode(opcode)),
    }
}

/// A block of one statement.
fn single(stmt: Statement) -> (block: Vec<Statement>)
    ensures
        block_view(block@) == seq![stmt@],
{
    let mut block: Vec<Statement> = Vec::new();
    block.push(stmt);
    assert(block_view(block@) =~= seq![stmt@]);
    block
}

/// Reads the statement that begins at `pos`.
pub fn decompile_op(ops: &Vec<Operation>, pos: usize, seen: &mut Vec<Arg>) -> (r: Result<
    (Vec<Statement>, usize),
    Error,
>)
    ensures
        parsed_as(
            r,
            final(seen)@,
            pos + 1,
            ops.len() as int,
            parse_op(ops_view(ops@), pos as int, old(seen)@),
        ),
    decreases ops.len() - pos, 0nat,
{
    if pos >= ops.len() {
        return Err(Error::MissingEnd);
    }
    let opcode = ops[pos].0;
    let args = &ops[pos].1;
    if is_if(opcode) {
        let condition = match condition_of(opcode, args) {
            Err(e) => {
                return Err(e);
            },
            Ok(c) => c,
        };
        let (block_true, middle) = match read_block(ops, pos + 1, seen, BlockEnd::IfTrue) {
            Err(e) => {
                return Err(e);
            },
            Ok(b) => b,
        };
        let (block_false, next) = match read_block(ops, middle, seen, BlockEnd::IfFalse) {
            Err(e) => {
                return Err(e);
            },
            Ok(b) => b,
        };
        Ok((single(Statement::If { condition, block_true, block_false }), next))
    } else if opcode == Opcode::Switch || opcode == Opcode::SwitchConst {
        let expression = match take_expression(opcode, args, 0) {
            Err(e) => {
                return Err(e);
            },
            Ok(e) => e,
        };
        let (cases, next) = match read_cases(ops, pos + 1, seen, false) {
            Err(e) => {
                return Err(e);
            },
            Ok(c) => c,
        };
        Ok((single(Statement::Switch { expression, cases }), next))
    } else if opcode == Opcode::Thread {
        let (block, next) = match read_block(ops, pos + 1, seen, BlockEnd::Thread) {
            Err(e) => {
                return Err(e);
            },
            Ok(b) => b,
        };
        Ok((single(Statement::Thread { block }), next))
    } else if opcode == Opcode::Loop {
        let times = match loop_times_of(args) {
            Err(e) => {
                return Err(e);
            },
            Ok(t) => t,
        };
        let (block, next) = match read_block(ops, pos + 1, seen, BlockEnd::Loop) {
            Err(e) => {
                return Err(e);
            },
            Ok(b) => b,
        };
        Ok((single(Statement::Loop { times, block }), next))
    } else {
        match simple_statement_of(opcode, args, seen) {
            Err(e) => Err(e),
            Ok(stmt) => Ok((single(stmt), pos + 1)),
        }
    }
}

/// Reads statements from `pos` up to the end of a block of the given kind.
pub fn read_block(ops: &Vec<Operation>, pos: usize, seen: &mut Vec<Arg>, end: BlockEnd) -> (r: Result<
    (Vec<Statement>, usize),
    Error,
>)
    ensures
        parsed_as(
            r,
            final(seen)@,
            pos as int,
            ops.len() as int,
            parse_block(ops_view(ops@), pos as int, old(seen)@, end),
        ),
    decreases ops.len() - pos, 1nat,
{
    if pos >= ops.len() {
        return Err(Error::MissingEnd);
    }
    match end.stop_at(ops[pos].0) {
        Stop::Consume => {
            let block: Vec<Statement> = Vec::new();
            assert(block_view(block@) =~= Seq::empty());
            Ok((block, pos + 1))
        },
        Stop::Leave => {
            let block: Vec<Statement> = Vec::new();
            assert(block_view(block@) =~= Seq::empty());
            Ok((block, pos))
        },
        Stop::Go => {
            let (mut block, middle) = match decompile_op(ops, pos, seen) {
                Err(e) => {
                    return Err(e);
                },
                Ok(b) => b,
            };
            let (mut rest, next) = match read_block(ops, middle, seen, end) {
                Err(e) => {
                    return Err(e);
                },
                Ok(b) => b,
            };
            proof {
                lemma_block_view_add(block@, rest@);
            }
            block.append(&mut rest);
            Ok((block, next))
        },
    }
}

/// Reads the arms of a switch from `pos` on.
pub fn read_cases(ops: &Vec<Operation>, pos: usize, seen: &mut Vec<Arg>, had_default: bool) -> (r:
    Result<(Vec<(Case, Vec<Statement>)>, usize), Error>)
    ensures
        cases_as(
            r,
            final(seen)@,
            pos as int,
            ops.len() as int,
            parse_cases(ops_view(ops@), pos as int, old(seen)@, had_default),
        ),
    decreases ops.len() - pos, 1nat,
{
    if pos >= ops.len() {
        return Err(Error::MissingEnd);
    }
    let opcode = ops[pos].0;
    let args = &ops[pos].1;
    if opens_case(opcode) {
        if had_default {
            return Err(Error::CaseAfterDefault(opcode));
        }
        let (body, middle) = match read_block(ops, pos + 1, seen, BlockEnd::Case) {
            Err(e) => {
                return Err(e);
            },
            Ok(b) => b,
        };
        let head = match case_head_of(opcode, args) {
            Err(e) => {
                return Err(e);
            },
            Ok(h) => h,
        };
        let (mut rest, next) = match read_cases(ops, middle, seen, opcode == Opcode::CaseDefault) {
            Err(e) => {
                return Err(e);
            },
            Ok(c) => c,
        };
        let mut cases: Vec<(Case, Vec<Statement>)> = Vec::new();
        let ghost first = (head@, block_view(body@));
        let ghost others = cases_view(rest@);
        cases.push((head, body));
        cases.append(&mut rest);
        assert(cases_view(cases@) =~= seq![first] + others);
        Ok((cases, next))
    } else if opcode == Opcode::CaseAndEq {
        Err(Error::UnimplementedOpcode(Opcode::CaseAndEq))
    } else if opcode == Opcode::EndSwitch {
        let cases: Vec<(Case, Vec<Statement>)> = Vec::new();
        assert(cases_view(cases@) =~= Seq::empty());
        Ok((cases, pos + 1))
    } else {
        let cases: Vec<(Case, Vec<Statement>)> = Vec::new();
        assert(cases_view(cases@) =~= Seq::empty());
        Ok((cases, pos))
    }
}

/// Reads the statements of a whole script from `pos` on.
pub fn read_script(ops: &Vec<Operation>, pos: usize, seen: &mut Vec<Arg>) -> (r: Result<
    (Vec<Statement>, usize),
    Error,
>)
    ensures
        parsed_as(
            r,
            final(seen)@,
            pos + 1,
            ops.len() as int,
            parse_script(ops_view(ops@), pos as int, old(seen)@),
        ),
    decreases ops.len() - pos, 1nat,
{
    if pos >= ops.len() {
        return Err(Error::MissingEnd);
    }
    if ops[pos].0 == Opcode::End {
        if pos + 1 < ops.len() {
            return Err(Error::UnexpectedEnd);
        }
        let block: Vec<Statement> = Vec::new();
        assert(block_view(block@) =~= Seq::empty());
        return Ok((block, pos + 1));
    }
    let (mut block, middle) = match decompile_op(ops, pos, seen) {
        Err(e) => {
            return Err(e);
        },
        Ok(b) => b,
    };
    let (mut rest, next) = match read_script(ops, middle, seen) {
        Err(e) => {
            return Err(e);
        },
        Ok(b) => b,
    };
    proof {
        lemma_block_view_add(block@, rest@);
    }
    block.append(&mut rest);
    Ok((block, next))
}

/// `count` operands stored as big-endian words from `at` on.
pub open spec fn args_at(bytes: Seq<u8>, at: int, count: nat) -> Seq<Arg> {
    Seq::new(count, |i: int| Arg(be32(bytes, at + 4 * i)))
}

/// The operations stored from `at` on, up to and with the first `End`,
/// and the place after them. An operation is stored as its opcode, the
/// number of its operands, and the operands, each a big-endian word. If
/// the bytes run out first, `End` is missing; a word that is no opcode
/// is an error once its operands have been read.
pub open spec fn read_ops(bytes: Seq<u8>, at: int) -> Result<(Seq<OpModel>, int), Error>
    decreases bytes.len() - at,
{
    if at < 0 || at + 8 > bytes.len() {
        Err(Error::MissingEnd)
    } else {
        let word = be32(bytes, at);
        let argc = be32(bytes, at + 4) as nat;
        let next = at + 8 + 4 * argc;
        if next > bytes.len() {
            Err(Error::MissingEnd)
        } else {
            match Opcode::with_code(word) {
                None => Err(Error::UnknownOpcode(word)),
                Some(opcode) => {
                    let first = (opcode, args_at(bytes, at + 8, argc));
                    if opcode == Opcode::End {
                        Ok((seq![first], next))
                    } else {
                        match read_ops(bytes, next) {
                            Err(e) => Err(e),
                            Ok((rest, end)) => Ok((seq![first] + rest, end)),
                        }
                    }
                },
            }
        }
    }
}

/// A reading that goes on after the operations `done`.
pub open spec fn after_ops(done: Seq<OpModel>, r: Result<(Seq<OpModel>, int), Error>) -> Result<
    (Seq<OpModel>, int),
    Error,
> {
    match r {
        Ok((ops, end)) => Ok((done + ops, end)),
        Err(e) => Err(e),
    }
}

/// Reads `count` operands from `at` on; the caller has seen to it that
/// the bytes reach that far.
fn read_args(bytes: &[u8], at: u64, count: u32) -> (args: Vec<Arg>)
    requires
        at + 4 * count <= bytes@.len(),
    ensures
        args@ == args_at(bytes@, at as int, count as nat),
{
    let mut args: Vec<Arg> = Vec::new();
    let mut i: u32 = 0;
    while i < count
        invariant
            i <= count,
            at + 4 * count <= bytes@.len(),
            args@ == args_at(bytes@, at as int, i as nat),
        decreases count - i,
    {
        let size = bytes.len();
        let word = word_inside(bytes, at + 4 * (i as u64));
        args.push(Arg(word));
        i += 1;
        assert(args@ =~= args_at(bytes@, at as int, i as nat));
    }
    args
}

/// Reads operations from `start` up to and with the first `End`.
pub fn read_operations(bytes: &[u8], start: u64) -> (r: Result<(Vec<Operation>, u64), Error>)
    ensures
        match read_ops(bytes@, start as int) {
            Ok((ops, end)) => r matches Ok((data, next)) && ops_view(data@) == ops && next == end,
            Err(e) => r matches Err(f) && f == e,
        },
{
    let mut data: Vec<Operation> = Vec::new();
    let mut at: u64 = start;
    assert(ops_view(data@) =~= Seq::empty());
    assert(read_ops(bytes@, start as int) == after_ops(
        ops_view(data@),
        read_ops(bytes@, at as int),
    )) by {
        match read_ops(bytes@, at as int) {
            Ok((ops, end)) => {
                assert(Seq::<OpModel>::empty() + ops =~= ops);
            },
            Err(e) => {},
        }
    }
    loop
        invariant
            read_ops(bytes@, start as int) == after_ops(ops_view(data@), read_ops(bytes@, at as int)),
        decreases bytes@.len() - at,
    {
        let size = bytes.len();
        let word = match word_at(bytes, at) {
            Some(w) => w,
            None => {
                return Err(Error::MissingEnd);
            },
        };
        let argc = match word_at(bytes, at + 4) {
            Some(w) => w,
            None => {
                return Err(Error::MissingEnd);
            },
        };
        let room: u64 = size as u64 - (at + 8);
        if 4 * (argc as u64) > room {
            return Err(Error::MissingEnd);
        }
        let args = read_args(bytes, at + 8, argc);
        let next: u64 = at + 8 + 4 * (argc as u64);
        match Opcode::from_u32(word) {
            None => {
                return Err(Error::UnknownOpcode(word));
            },
            Some(opcode) => {
                let ghost done = ops_view(data@);
                let ghost first = (opcode, args@);
                data.push((opcode, args));
                assert(ops_view(data@) =~= done.push(first));
                if opcode == Opcode::End {
                    assert(done + seq![first] =~= done.push(first));
                    return Ok((data, next));
                }
                proof {
                    match read_ops(bytes@, next as int) {
                        Ok((rest, end)) => {
                            assert(done + (seq![first] + rest) =~= done.push(first) + rest);
                        },
                        Err(e) => {},
                    }
                }
                at = next;
            },
        }
    }
}

/// The scope after the words and flags of the function that were assigned
/// to have been brought into it, in the order of their first assignment:
/// a word with a type yet to be inferred, a flag as a truth value.
pub open spec fn declare_seen(scope: ScopeModel, seen: Seq<Arg>) -> ScopeModel
    decreases seen.len(),
{
    if seen.len() == 0 {
        scope
    } else {
        let before = declare_seen(scope, seen.drop_last());
        let arg = seen.last();
        if arg.spec_kind() == ArgKind::FunWord {
            before.insert_name(arg.spec_identifier().unwrap(), TypeModel::Any)
        } else if arg.spec_kind() == ArgKind::FunFlag {
            before.insert_name(arg.spec_identifier().unwrap(), TypeModel::Bool)
        } else {
            before
        }
    }
}

/// Bringing names into a scope keeps its layers and keeps it well formed.
pub proof fn lemma_declare_seen(scope: ScopeModel, seen: Seq<Arg>)
    requires
        scope.layers.len() > 0,
    ensures
        declare_seen(scope, seen).layers.len() == scope.layers.len(),
        scope.wf() ==> declare_seen(scope, seen).wf(),
    decreases seen.len(),
{
    if seen.len() > 0 {
        lemma_declare_seen(scope, seen.drop_last());
        let before = declare_seen(scope, seen.drop_last());
        let arg = seen.last();
        if scope.wf() {
            assert(before.layers.last().wf());
            if arg.spec_kind() == ArgKind::FunWord {
                crate::scope::lemma_insert_name_wf(
                    before.layers.last(),
                    arg.spec_identifier().unwrap(),
                    TypeModel::Any,
                );
            } else if arg.spec_kind() == ArgKind::FunFlag {
                crate::scope::lemma_insert_name_wf(
                    before.layers.last(),
                    arg.spec_identifier().unwrap(),
                    TypeModel::Bool,
                );
            }
        }
    }
}

/// A script as it is stored, and how far it has been read.
#[derive(Debug)]
pub struct Bytecode {
    data: Vec<Operation>,
    pos: usize,
    seen_identifiers: Vec<Arg>,
}

impl Bytecode {
    /// The operations of the script.
    pub closed spec fn ops(&self) -> Seq<OpModel> {
        ops_view(self.data@)
    }

    /// The place of the next operation to be read.
    pub closed spec fn pos(&self) -> int {
        self.pos as int
    }

    /// The storage operands that were assigned to so far.
    pub closed spec fn seen(&self) -> Seq<Arg> {
        self.seen_identifiers@
    }

    /// A script of the given operations, with nothing of it read yet.
    pub fn new(data: Vec<Operation>) -> (bc: Bytecode)
        ensures
            bc.ops() == ops_view(data@),
            bc.pos() == 0,
            bc.seen() == Seq::<Arg>::empty(),
    {
        Bytecode { data, pos: 0, seen_identifiers: Vec::new() }
    }

    /// The number of operations of the script.
    pub fn len(&self) -> (n: usize)
        ensures
            n == self.ops().len(),
    {
        self.data.len()
    }

    /// Reads a script from the ROM at its read position: operations up to
    /// and with the first `End`. The read position ends up after them.
    pub fn read(rom: &mut Rom) -> (r: Result<Bytecode, Error>)
        ensures
            final(rom).bytes() == old(rom).bytes(),
            final(rom).spec_region() == old(rom).spec_region(),
            match read_ops(old(rom).bytes(), old(rom).pos()) {
                Ok((ops, end)) => r matches Ok(bc) && bc.ops() == ops && bc.pos() == 0 && bc.seen()
                    == Seq::<Arg>::empty() && final(rom).pos() == end,
                Err(e) => r matches Err(f) && f == e && final(rom).pos() == old(rom).pos(),
            },
    {
        match read_operations(rom.as_bytes(), rom.position()) {
            Err(e) => Err(e),
            Ok((data, next)) => {
                rom.seek_to(next);
                Ok(Bytecode::new(data))
            },
        }
    }

    /// The operation that is next to be read.
    pub fn peek_op(&self) -> (r: Result<&Operation, Error>)
        ensures
            self.pos() >= self.ops().len() ==> (r matches Err(e) && e == Error::MissingEnd),
            self.pos() < self.ops().len() ==> (r matches Ok(op) && (op.0, op.1@)
                == self.ops()[self.pos()]),
    {
        if self.pos < self.data.len() {
            Ok(&self.data[self.pos])
        } else {
            Err(Error::MissingEnd)
        }
    }

    /// Reads the statement that begins at the next operation.
    pub fn decompile_op(&mut self) -> (r: Result<Vec<Statement>, Error>)
        ensures
            final(self).ops() == old(self).ops(),
            match parse_op(old(self).ops(), old(self).pos(), old(self).seen()) {
                Ok(p) => r matches Ok(stmts) && block_view(stmts@) == p.stmts && final(self).pos()
                    == p.pos && final(self).seen() == p.seen,
                Err(e) => r matches Err(f) && f == e,
            },
    {
        match decompile_op(&self.data, self.pos, &mut self.seen_identifiers) {
            Err(e) => Err(e),
            Ok((stmts, next)) => {
                self.pos = next;
                Ok(stmts)
            },
        }
    }

    /// Rebuilds the statements of the script from where it has been read
    /// to. The script must end with `End`; a `Return` at the very end is
    /// left out. On success the words and flags of the function that the
    /// script assigns to are brought into the innermost layer of `scope`;
    /// on failure `scope` is as it was.
    pub fn decompile(self, scope: &mut Scope) -> (r: Result<Vec<Statement>, Error>)
        requires
            old(scope)@.layers.len() > 0,
        ensures
            match parse_script(self.ops(), self.pos(), self.seen()) {
                Ok(p) => r matches Ok(stmts) && block_view(stmts@) == without_final_return(p.stmts)
                    && final(scope)@ == declare_seen(old(scope)@, p.seen),
                Err(e) => r matches Err(f) && f == e && final(scope)@ == old(scope)@,
            },
            old(scope)@.wf() ==> final(scope)@.wf(),
    {
        let mut seen = self.seen_identifiers;
        let mut stmts = match read_script(&self.data, self.pos, &mut seen) {
            Err(e) => {
                return Err(e);
            },
            Ok((stmts, _)) => stmts,
        };
        let ghost whole = stmts@;
        let n = stmts.len();
        if n > 0 {
            let ends_in_return = match &stmts[n - 1] {
                Statement::Return => true,
                _ => false,
            };
            assert(block_view(whole).last() == whole[n - 1]@);
            if ends_in_return {
                let _ = stmts.pop();
                assert(block_view(stmts@) =~= block_view(whole).drop_last());
            }
        }
        let mut i: usize = 0;
        assert(seen@.take(0) =~= Seq::<Arg>::empty());
        while i < seen.len()
            invariant
                i <= seen.len(),
                scope@.layers.len() > 0,
                old(scope)@.layers.len() > 0,
                scope@ == declare_seen(old(scope)@, seen@.take(i as int)),
            decreases seen.len() - i,
        {
            let arg = seen[i];
            proof {
                assert(seen@.take(i + 1).drop_last() =~= seen@.take(i as int));
                assert(seen@.take(i + 1).last() == arg);
                lemma_declare_seen(old(scope)@, seen@.take(i + 1));
            }
            match arg.kind() {
                ArgKind::FunWord => {
                    match arg.into_identifier() {
                        Some(id) => {
                            let _ = scope.insert_name(id.0, DataType::Any);
                        },
                        None => {},
                    }
                },
                ArgKind::FunFlag => {
                    match arg.into_identifier() {
                        Some(id) => {
                            let _ = scope.insert_name(id.0, DataType::Bool);
                        },
                        None => {},
                    }
                },
                _ => {},
            }
            i += 1;
        }
        proof {
            assert(seen@.take(i as int) =~= seen@);
            lemma_declare_seen(old(scope)@, seen@);
        }
        Ok(stmts)
    }
}

} // verus!
