//! Calls to scripts capture their environment: the arguments that such a
//! call passes without naming them are written out here.

use vstd::prelude::*;
use vstd::string::StringExecFns;
use crate::arg::{storage_name, ArgKind, FUNWORD_STR};
use crate::ast::{
    block_view, cases_view, exprs_view, Case, CaseModel, ExprModel, Expression, Identifier,
    Statement, StmtModel, TargetModel,
};
use crate::datatype::{types_view, DataType, TypeModel};
use crate::scope::{Scope, ScopeModel};
use crate::text::push_hex;

verus! {

/// The arguments that a call to a script with `count` parameters passes
/// without saying so: the first `count` words of the calling function.
pub open spec fn captured_arguments(count: nat) -> Seq<ExprModel> {
    Seq::new(count, |i: int| ExprModel::Name(storage_name(ArgKind::FunWord, i as nat)))
}

/// The number of arguments that a call captures: as many as its target
/// has parameters, if the target is known as a script and the call names
/// no argument itself; none otherwise. Native code never captures.
pub open spec fn captured_count(method: TargetModel, arguments: Seq<ExprModel>, scope: ScopeModel) -> nat {
    match scope.resolve(method) {
        Some((_, TypeModel::Fun(params))) => if arguments.len() == 0 {
            params.len()
        } else {
            0
        },
        _ => 0,
    }
}

/// A block with every capturing call in it, at any depth, given its
/// arguments.
pub open spec fn capture_block(block: Seq<StmtModel>, scope: ScopeModel) -> Seq<StmtModel>
    decreases block, 0nat,
{
    Seq::new(
        block.len(),
        |i: int|
            if 0 <= i < block.len() {
                capture_stmt(block[i], scope)
            } else {
                StmtModel::Return
            },
    )
}

/// The arms of a switch with every capturing call in them given its
/// arguments.
pub open spec fn capture_cases(cases: Seq<(CaseModel, Seq<StmtModel>)>, scope: ScopeModel) -> Seq<
    (CaseModel, Seq<StmtModel>),
>
    decreases cases, 1nat,
{
    Seq::new(
        cases.len(),
        |i: int|
            if 0 <= i < cases.len() {
                (cases[i].0, capture_block(cases[i].1, scope))
            } else {
                (CaseModel::Default, Seq::empty())
            },
    )
}

/// A statement with every capturing call in it given its arguments.
pub open spec fn capture_stmt(s: StmtModel, scope: ScopeModel) -> StmtModel
    decreases s, 2nat,
{
    match s {
        StmtModel::MethodCall { method, arguments, threading, bc_is_func } => StmtModel::MethodCall {
            method,
            arguments: arguments + captured_arguments(captured_count(method, arguments, scope)),
            threading,
            bc_is_func,
        },
        StmtModel::If { condition, block_true, block_false } => StmtModel::If {
            condition,
            block_true: capture_block(block_true, scope),
            block_false: capture_block(block_false, scope),
        },
        StmtModel::Switch { expression, cases } => StmtModel::Switch {
            expression,
            cases: capture_cases(cases, scope),
        },
        StmtModel::Thread { block } => StmtModel::Thread { block: capture_block(block, scope) },
        StmtModel::Loop { times, block } => StmtModel::Loop {
            times,
            block: capture_block(block, scope),
        },
        other => other,
    }
}

/// The name of a word of the function.
fn funword_name(index: u64) -> (id: Identifier)
    ensures
        id@ == storage_name(ArgKind::FunWord, index as nat),
{
    let mut name = String::from_str(FUNWORD_STR);
    name.append("_");
    push_hex(&mut name, index);
    Identifier(name)
}

fn capture_statement(s: Statement, scope: &Scope) -> (r: Statement)
    ensures
        r@ == capture_stmt(s@, scope@),
    decreases s, 2nat,
{
    let ghost whole = s;
    match s {
        Statement::MethodCall { method, arguments, threading, bc_is_func } => {
            let count: usize = match method.lookup(scope) {
                Some((_, datatype)) => match datatype {
                    DataType::Fun(params) => {
                        assert(datatype@ == TypeModel::Fun(types_view(params@)));
                        if arguments.len() == 0 {
                            params.len()
                        } else {
                            0
                        }
                    },
                    _ => {
                        assert(!(datatype@ is Fun));
                        0
                    },
                },
                None => 0,
            };
            assert(count == captured_count(method@, exprs_view(arguments@), scope@));
            let ghost given = exprs_view(arguments@);
            let mut arguments = arguments;
            let mut i: usize = 0;
            while i < count
                invariant
                    i <= count,
                    exprs_view(arguments@) == given + captured_arguments(i as nat),
                decreases count - i,
            {
                let ghost before = exprs_view(arguments@);
                let id = funword_name(i as u64);
                let ghost added = ExprModel::Name(id@);
                arguments.push(Expression::Identifier(id));
                assert(exprs_view(arguments@) =~= before.push(added));
                i += 1;
                assert(before.push(added) =~= given + captured_arguments(i as nat));
            }
            Statement::MethodCall { method, arguments, threading, bc_is_func }
        },
        Statement::If { condition, block_true, block_false } => Statement::If {
            condition,
            block_true: fix_call_arg_capture(block_true, scope),
            block_false: fix_call_arg_capture(block_false, scope),
        },
        Statement::Switch { expression, cases } => {
            let mut fixed: Vec<(Case, Vec<Statement>)> = Vec::new();
            let ghost all = cases@;
            assert(decreases_to!(whole => cases));
            assert(decreases_to!(cases => all));
            for arm in it: cases
                invariant
                    it.seq() == all,
                    whole == s,
                    decreases_to!(whole => all),
                    fixed@.len() == it.index(),
                    forall|j: int|
                        0 <= j < it.index() ==> fixed@[j].0@ == all[j].0@ && block_view(fixed@[j].1@)
                            == capture_block(block_view(all[j].1@), scope@),
            {
                proof {
                    let k = it.index() as int;
                    assert(arm == all[k]);
                    assert(decreases_to!(all => all[k]));
                    assert(decreases_to!(all[k] => all[k].1));
                }
                let (head, body) = arm;
                assert(decreases_to!(whole => body));
                fixed.push((head, fix_call_arg_capture(body, scope)));
            }
            assert(cases_view(fixed@) =~= capture_cases(cases_view(all), scope@));
            Statement::Switch { expression, cases: fixed }
        },
        Statement::Thread { block } => Statement::Thread {
            block: fix_call_arg_capture(block, scope),
        },
        Statement::Loop { times, block } => Statement::Loop {
            times,
            block: fix_call_arg_capture(block, scope),
        },
        other => other,
    }
}

/// Calls to scripts capture their environment: they pass every word of
/// the calling function that the called script has a parameter for,
/// without naming it. This gives each call to a known script that names
/// no arguments the arguments that it passes, in the block and in every
/// block inside it. Calls to native code take their arguments as they
/// are written and are left alone.
pub fn fix_call_arg_capture(block: Vec<Statement>, scope: &Scope) -> (fixed: Vec<Statement>)
    ensures
        block_view(fixed@) == capture_block(block_view(block@), scope@),
    decreases block, 0nat,
{
    let mut fixed: Vec<Statement> = Vec::new();
    let ghost all = block@;
    for stmt in it: block
        invariant
            it.seq() == all,
            fixed@.len() == it.index(),
            forall|j: int| 0 <= j < it.index() ==> fixed@[j]@ == capture_stmt(all[j]@, scope@),
    {
        fixed.push(capture_statement(stmt, scope));
    }
    assert(block_view(fixed@) =~= capture_block(block_view(all), scope@));
    fixed
}

/// Filling in captured arguments a second time, with the same scope,
/// changes nothing: a call that was given arguments names its arguments
/// from then on, and a call that was given none is given none again.
pub proof fn lemma_capture_idempotent(block: Seq<StmtModel>, scope: ScopeModel)
    ensures
        capture_block(capture_block(block, scope), scope) == capture_block(block, scope),
    decreases block, 0nat,
{
    let once = capture_block(block, scope);
    let twice = capture_block(once, scope);
    assert forall|i: int| 0 <= i < block.len() implies twice[i] == once[i] by {
        lemma_capture_stmt_idempotent(block[i], scope);
    }
    assert(twice =~= once);
}

/// Filling in captured arguments twice is the same as once, for the arms
/// of a switch.
pub proof fn lemma_capture_cases_idempotent(cases: Seq<(CaseModel, Seq<StmtModel>)>, scope: ScopeModel)
    ensures
        capture_cases(capture_cases(cases, scope), scope) == capture_cases(cases, scope),
    decreases cases, 1nat,
{
    let once = capture_cases(cases, scope);
    let twice = capture_cases(once, scope);
    assert forall|i: int| 0 <= i < cases.len() implies twice[i] == once[i] by {
        lemma_capture_idempotent(cases[i].1, scope);
    }
    assert(twice =~= once);
}

/// Filling in captured arguments twice is the same as once, for one
/// statement.
pub proof fn lemma_capture_stmt_idempotent(s: StmtModel, scope: ScopeModel)
    ensures
        capture_stmt(capture_stmt(s, scope), scope) == capture_stmt(s, scope),
    decreases s, 2nat,
{
    match s {
        StmtModel::MethodCall { method, arguments, threading, bc_is_func } => {
            let count = captured_count(method, arguments, scope);
            let given = arguments + captured_arguments(count);
            assert(given.len() == arguments.len() + count);
            assert(captured_count(method, given, scope) == 0 || count == 0);
            assert(given + captured_arguments(0) =~= given);
            if count == 0 {
                assert(given =~= arguments);
            }
        },
        StmtModel::If { condition, block_true, block_false } => {
            lemma_capture_idempotent(block_true, scope);
            lemma_capture_idempotent(block_false, scope);
        },
        StmtModel::Switch { expression, cases } => {
            lemma_capture_cases_idempotent(cases, scope);
        },
        StmtModel::Thread { block } => {
            lemma_capture_idempotent(block, scope);
        },
        StmtModel::Loop { times, block } => {
            lemma_capture_idempotent(block, scope);
        },
        _ => {},
    }
}

} // verus!
