//! Inferring the types of the variables of a script from the way they
//! are used.

use vstd::prelude::*;
use vstd::string::StringExecFns;
use crate::arg::{is_local_pointer, signed};
use crate::assoc::lemma_assoc_put;
use crate::ast::{
    block_view, cases_view, exprs_view, AssignmentOperator, Case, CaseModel, ExprModel, Expression,
    Fixed, Identifier, IdentifierOrPointer, MethodThreading, Operator, Statement, StmtModel,
    TargetModel, ThreadingModel,
};
use crate::datatype::{type_text, types_view, DataType, TypeModel};
use crate::scope::{entries_view, Entry, EntryModel, Scope, ScopeModel};
use crate::text::{hex_padded, push_hex_padded};

verus! {

/// The name given to a script or to native code of the map that has no
/// name yet: `dump_` and the low half of its address, as four digits in
/// upper-case base sixteen.
pub open spec fn method_name(ptr: u32) -> Seq<char> {
    "dump_"@ + hex_padded((ptr % 0x1_0000) as nat, 4)
}

/// Names a script or native code of the map by its address.
pub fn name_method_ptr(ptr: u32) -> (name: String)
    ensures
        name@ == method_name(ptr),
{
    let mut name = String::from_str("dump_");
    push_hex_padded(&mut name, ptr % 0x1_0000, 4);
    name
}

/// Whether an operator works out a number from two numbers.
pub open spec fn is_arithmetic(op: Operator) -> bool {
    op == Operator::Add || op == Operator::Sub || op == Operator::Mul || op == Operator::Div || op
        == Operator::Mod
}

/// The type of an expression: a literal has the type of its kind; a name
/// has the type that the scope holds for it; an element of an array has
/// the item type of the array; arithmetic has the type of its left side;
/// every other operation is a truth value. What is not known is `Any`.
pub open spec fn expr_type(e: ExprModel, scope: ScopeModel) -> TypeModel
    decreases e,
{
    match e {
        ExprModel::Int(_) => TypeModel::Int,
        ExprModel::Float(_) => TypeModel::Float,
        ExprModel::Bool(_) => TypeModel::Bool,
        ExprModel::Name(name) => match scope.lookup_name(name) {
            Some(t) => t,
            None => TypeModel::Any,
        },
        ExprModel::ArrayIndex(name, _) => match scope.lookup_name(name) {
            Some(TypeModel::Arr(item)) => *item,
            _ => TypeModel::Any,
        },
        ExprModel::Operation { lhs, op, rhs } => if is_arithmetic(op) {
            expr_type(*lhs, scope)
        } else {
            TypeModel::Bool
        },
    }
}

/// The type of each expression of a list.
pub open spec fn exprs_type(exprs: Seq<ExprModel>, scope: ScopeModel) -> Seq<TypeModel> {
    Seq::new(exprs.len(), |i: int| expr_type(exprs[i], scope))
}

impl Expression {
    /// The type of the expression, as far as the scope tells.
    pub fn infer_datatype(&self, scope: &Scope) -> (datatype: DataType)
        ensures
            datatype@ == expr_type(self@, scope@),
        decreases *self,
    {
        match self {
            Expression::LiteralInt(_) => DataType::Int,
            Expression::LiteralFloat(_) => DataType::Float,
            Expression::LiteralBool(_) => DataType::Bool,
            Expression::Identifier(id) => match scope.lookup_name(id.0.as_str()) {
                Some(datatype) => datatype.clone(),
                None => DataType::Any,
            },
            Expression::ArrayIndex(id, _) => match scope.lookup_name(id.0.as_str()) {
                Some(datatype) => match datatype {
                    DataType::Arr(item) => (**item).clone(),
                    _ => DataType::Any,
                },
                None => DataType::Any,
            },
            Expression::Operation { lhs, op, rhs } => match op {
                Operator::Add | Operator::Sub | Operator::Mul | Operator::Div | Operator::Mod => {
                    lhs.infer_datatype(scope)
                },
                _ => DataType::Bool,
            },
        }
    }
}

impl IdentifierOrPointer {
    /// The name and the type that the target has in a scope. An address
    /// is looked up by the name that the scope has for it.
    pub fn lookup<'a>(&'a self, scope: &'a Scope) -> (found: Option<(&'a str, &'a DataType)>)
        ensures
            found.is_some() == scope@.resolve(self@).is_some(),
            found matches Some((name, datatype)) ==> Some((name@, datatype@)) == scope@.resolve(
                self@,
            ),
    {
        match self {
            IdentifierOrPointer::Identifier(id) => match scope.lookup_name(id.0.as_str()) {
                Some(datatype) => Some((id.0.as_str(), datatype)),
                None => None,
            },
            IdentifierOrPointer::Pointer(ptr) => match scope.lookup_ptr(*ptr) {
                Some(name) => match scope.lookup_name(name) {
                    Some(datatype) => Some((name, datatype)),
                    None => None,
                },
                None => None,
            },
        }
    }
}

/// What a type rewrites a literal to, and the entry that the scope is to
/// get for it, if any. Where a truth value is expected, an integer is true
/// if it is one. Where a number with a fraction is expected, an integer is
/// read as a fixed-point word, and zero as zero. Where a script or native
/// code is expected, the address of one in the map becomes the name made
/// for it, and the name is to be entered with the expected type. Anything
/// else stays as it is.
pub open spec fn updated_literal(e: ExprModel, t: TypeModel) -> (ExprModel, Option<EntryModel>) {
    match e {
        ExprModel::Int(word) => match t {
            TypeModel::Bool => (ExprModel::Bool(word == 1), None),
            TypeModel::Float => (
                ExprModel::Float(
                    Fixed {
                        raw: if word == 0 {
                            0
                        } else {
                            (signed(word) + 230_000_000) as i64
                        },
                    },
                ),
                None,
            ),
            TypeModel::Fun(_) | TypeModel::Asm(_) => if is_local_pointer(word) {
                (ExprModel::Name(method_name(word)), Some((Some(word), method_name(word), t)))
            } else {
                (e, None)
            },
            _ => (e, None),
        },
        _ => (e, None),
    }
}

/// A list with one more entry, if there is one.
pub open spec fn with_entry(entries: Seq<EntryModel>, entry: Option<EntryModel>) -> Seq<EntryModel> {
    match entry {
        Some(e) => entries.push(e),
        None => entries,
    }
}

/// A declaration whose type is not the type that its variable is used
/// with.
pub struct MismatchModel {
    pub identifier: Seq<char>,
    pub declared_datatype: TypeModel,
    pub inferred_datatype: TypeModel,
}

/// What one statement tells about types: the statement with its literals
/// and its declared type brought in line, the entries that the scope is to
/// get once the pass is over, and remarks on declarations that disagree
/// with the scope.
pub struct StmtInference {
    pub stmt: StmtModel,
    pub entries: Seq<EntryModel>,
    pub warnings: Seq<MismatchModel>,
}

/// What a declaration tells. If the innermost layer knows the variable, a
/// declaration without a type takes the type from there, and its literal
/// is rewritten to that type; one with the same type stays; one with
/// another type loses its type, with a remark, and the scope keeps what it
/// has. If the innermost layer does not know the variable, the scope is to
/// get it with the type of the value it is declared with.
pub open spec fn infer_declare(
    datatype: TypeModel,
    identifier: Seq<char>,
    expression: Option<ExprModel>,
    scope: ScopeModel,
) -> StmtInference {
    match scope.lookup_name_depth(identifier, 0) {
        Some(inferred) => if datatype == TypeModel::Any {
            match expression {
                Some(e) => StmtInference {
                    stmt: StmtModel::VarDeclare {
                        datatype: inferred,
                        identifier,
                        expression: Some(updated_literal(e, inferred).0),
                    },
                    entries: with_entry(Seq::empty(), updated_literal(e, inferred).1),
                    warnings: Seq::empty(),
                },
                None => StmtInference {
                    stmt: StmtModel::VarDeclare { datatype: inferred, identifier, expression },
                    entries: Seq::empty(),
                    warnings: Seq::empty(),
                },
            }
        } else if inferred == datatype {
            StmtInference {
                stmt: StmtModel::VarDeclare { datatype, identifier, expression },
                entries: Seq::empty(),
                warnings: Seq::empty(),
            }
        } else {
            StmtInference {
                stmt: StmtModel::VarDeclare { datatype: TypeModel::Any, identifier, expression },
                entries: Seq::empty(),
                warnings: seq![
                    MismatchModel {
                        identifier,
                        declared_datatype: datatype,
                        inferred_datatype: inferred,
                    },
                ],
            }
        },
        None => StmtInference {
            stmt: StmtModel::VarDeclare { datatype, identifier, expression },
            entries: seq![
                (
                    None,
                    identifier,
                    match expression {
                        Some(e) => expr_type(e, scope),
                        None => TypeModel::Any,
                    },
                ),
            ],
            warnings: Seq::empty(),
        },
    }
}

/// What an assignment tells. A variable of unknown type is to get the
/// type of the value; a literal assigned to a variable that is known to
/// hold numbers with fractions is rewritten as one.
pub open spec fn infer_assign(
    operator: AssignmentOperator,
    identifier: Seq<char>,
    expression: ExprModel,
    scope: ScopeModel,
) -> StmtInference {
    match scope.lookup_name(identifier) {
        Some(TypeModel::Float) => StmtInference {
            stmt: StmtModel::VarAssign {
                operator,
                identifier,
                expression: updated_literal(expression, TypeModel::Float).0,
            },
            entries: with_entry(Seq::empty(), updated_literal(expression, TypeModel::Float).1),
            warnings: Seq::empty(),
        },
        Some(TypeModel::Any) | None => StmtInference {
            stmt: StmtModel::VarAssign { operator, identifier, expression },
            entries: seq![(None, identifier, expr_type(expression, scope))],
            warnings: Seq::empty(),
        },
        _ => StmtInference {
            stmt: StmtModel::VarAssign { operator, identifier, expression },
            entries: Seq::empty(),
            warnings: Seq::empty(),
        },
    }
}

/// What the first `n` arguments of a call to a known target tell, each
/// held against the parameter at its place. A variable of unknown type is
/// to get the type of the parameter; any other name is left alone; any
/// other argument is rewritten, if it is a literal, to the type of the
/// parameter.
pub open spec fn infer_arguments(
    params: Seq<TypeModel>,
    arguments: Seq<ExprModel>,
    scope: ScopeModel,
    n: nat,
) -> (Seq<ExprModel>, Seq<EntryModel>)
    decreases n,
{
    if n == 0 || n > params.len() || n > arguments.len() {
        (arguments, Seq::empty())
    } else {
        let before = infer_arguments(params, arguments, scope, (n - 1) as nat);
        let i = n - 1;
        match arguments[i] {
            ExprModel::Name(name) => if scope.lookup_name(name) == Some(TypeModel::Any) {
                (before.0, before.1.push((None, name, params[i])))
            } else {
                before
            },
            other => (
                before.0.update(i, updated_literal(other, params[i]).0),
                with_entry(before.1, updated_literal(other, params[i]).1),
            ),
        }
    }
}

/// The smaller of two lengths.
pub open spec fn shorter(a: nat, b: nat) -> nat {
    if a <= b {
        a
    } else {
        b
    }
}

/// What a call tells. The arguments of a call to a known target are held
/// against its parameters. A call to an address of the map that has no
/// name yet makes a name for it, to be entered as a script or as native
/// code, by the opcode that the call came from, with the types of the
/// arguments as they are known now.
pub open spec fn infer_call(
    method: TargetModel,
    arguments: Seq<ExprModel>,
    threading: ThreadingModel,
    bc_is_func: bool,
    scope: ScopeModel,
) -> StmtInference {
    match scope.resolve(method) {
        Some((_, TypeModel::Fun(params))) | Some((_, TypeModel::Asm(params))) => {
            let told = infer_arguments(
                params,
                arguments,
                scope,
                shorter(params.len(), arguments.len()),
            );
            StmtInference {
                stmt: StmtModel::MethodCall { method, arguments: told.0, threading, bc_is_func },
                entries: told.1,
                warnings: Seq::empty(),
            }
        },
        _ => StmtInference {
            stmt: StmtModel::MethodCall { method, arguments, threading, bc_is_func },
            entries: match method {
                TargetModel::Pointer(ptr) => if is_local_pointer(ptr) {
                    seq![
                        (
                            Some(ptr),
                            method_name(ptr),
                            if bc_is_func {
                                TypeModel::Fun(exprs_type(arguments, scope))
                            } else {
                                TypeModel::Asm(exprs_type(arguments, scope))
                            },
                        ),
                    ]
                } else {
                    Seq::empty()
                },
                _ => Seq::empty(),
            },
            warnings: Seq::empty(),
        },
    }
}

/// What a statement tells by itself, without the blocks inside it.
pub open spec fn infer_stmt(s: StmtModel, scope: ScopeModel) -> StmtInference {
    match s {
        StmtModel::VarDeclare { datatype, identifier, expression } => infer_declare(
            datatype,
            identifier,
            expression,
            scope,
        ),
        StmtModel::VarAssign { operator, identifier, expression } => infer_assign(
            operator,
            identifier,
            expression,
            scope,
        ),
        StmtModel::MethodCall { method, arguments, threading, bc_is_func } => infer_call(
            method,
            arguments,
            threading,
            bc_is_func,
            scope,
        ),
        other => StmtInference { stmt: other, entries: Seq::empty(), warnings: Seq::empty() },
    }
}

/// The scope after one entry was made, and whether that was news. A name
/// that the innermost layer did not hold, or held without a type, is
/// news. A name that it held with another type keeps that type: the
/// entry is undone, but for the name that an address got, and a remark
/// is due (see `entry_remark`).
pub open spec fn apply_entry(scope: ScopeModel, entry: EntryModel) -> (ScopeModel, bool) {
    let entered = scope.insert(entry.0, entry.1, entry.2);
    match scope.top_type(entry.1) {
        None => (entered, true),
        Some(TypeModel::Any) => (entered, true),
        Some(old) => if old == entry.2 {
            (entered, false)
        } else {
            (entered.insert(entry.0, entry.1, old), false)
        },
    }
}

/// The remark on an entry that was undone: the name, the type that it
/// keeps, and the type that was refused. There is one where the innermost
/// layer held the name with a type that is not the entry's.
pub open spec fn entry_remark(scope: ScopeModel, entry: EntryModel) -> Option<MismatchModel> {
    match scope.top_type(entry.1) {
        None => None,
        Some(TypeModel::Any) => None,
        Some(old) => if old == entry.2 {
            None
        } else {
            Some(
                MismatchModel {
                    identifier: entry.1,
                    declared_datatype: old,
                    inferred_datatype: entry.2,
                },
            )
        },
    }
}

/// The scope after the entries of a pass were made in order, and whether
/// any was news. An entry without a type is passed over; those after it
/// are made all the same.
pub open spec fn apply_entries(scope: ScopeModel, entries: Seq<EntryModel>) -> (ScopeModel, bool)
    decreases entries.len(),
{
    if entries.len() == 0 {
        (scope, false)
    } else if entries[0].2 == TypeModel::Any {
        apply_entries(scope, entries.skip(1))
    } else {
        let first = apply_entry(scope, entries[0]);
        let rest = apply_entries(first.0, entries.skip(1));
        (rest.0, first.1 || rest.1)
    }
}

/// The remarks on the entries of a pass that were undone, in the order of
/// the entries.
pub open spec fn entries_remarks(scope: ScopeModel, entries: Seq<EntryModel>) -> Seq<MismatchModel>
    decreases entries.len(),
{
    if entries.len() == 0 {
        Seq::empty()
    } else if entries[0].2 == TypeModel::Any {
        entries_remarks(scope, entries.skip(1))
    } else {
        let rest = entries_remarks(apply_entry(scope, entries[0]).0, entries.skip(1));
        match entry_remark(scope, entries[0]) {
            Some(remark) => seq![remark] + rest,
            None => rest,
        }
    }
}

/// What a walk over a block gives: the block rewritten, the scope as the
/// blocks inside left it, the entries to be made, and the remarks.
pub struct BlockInference {
    pub block: Seq<StmtModel>,
    pub scope: ScopeModel,
    pub entries: Seq<EntryModel>,
    pub warnings: Seq<MismatchModel>,
}

/// What inference gives for the arms of a switch.
pub struct CasesInference {
    pub cases: Seq<(CaseModel, Seq<StmtModel>)>,
    pub scope: ScopeModel,
    pub warnings: Seq<MismatchModel>,
}

/// What inference gives for the blocks inside one statement.
pub struct InnerInference {
    pub stmt: StmtModel,
    pub scope: ScopeModel,
    pub warnings: Seq<MismatchModel>,
}

/// The greater of two numbers.
pub open spec fn greater(a: nat, b: nat) -> nat {
    if a >= b {
        a
    } else {
        b
    }
}

/// How deep the blocks inside a statement nest.
pub open spec fn stmt_height(s: StmtModel) -> nat
    decreases s, 0nat,
{
    match s {
        StmtModel::If { condition, block_true, block_false } => greater(
            height_upto(block_true, block_true.len() as int),
            height_upto(block_false, block_false.len() as int),
        ),
        StmtModel::Switch { expression, cases } => cases_height_upto(cases, cases.len() as int),
        StmtModel::Thread { block } => height_upto(block, block.len() as int),
        StmtModel::Loop { times, block } => height_upto(block, block.len() as int),
        _ => 0,
    }
}

/// How deep the first `n` statements of a block nest, the block itself
/// counted.
pub open spec fn height_upto(block: Seq<StmtModel>, n: int) -> nat
    decreases block, n,
{
    if n <= 0 || n > block.len() {
        0
    } else {
        greater(height_upto(block, n - 1), stmt_height(block[n - 1]) + 1)
    }
}

/// How deep the first `n` arms of a switch nest.
pub open spec fn cases_height_upto(cases: Seq<(CaseModel, Seq<StmtModel>)>, n: int) -> nat
    decreases cases, n,
{
    if n <= 0 || n > cases.len() {
        0
    } else {
        greater(
            cases_height_upto(cases, n - 1),
            height_upto(cases[n - 1].1, cases[n - 1].1.len() as int),
        )
    }
}

/// How deep a block nests: an empty block not at all, any other one
/// deeper than its deepest statement.
pub open spec fn block_height(block: Seq<StmtModel>) -> nat {
    height_upto(block, block.len() as int)
}

/// How deep the arms of a switch nest.
pub open spec fn cases_height(cases: Seq<(CaseModel, Seq<StmtModel>)>) -> nat {
    cases_height_upto(cases, cases.len() as int)
}

/// The name that an expression may bring into a scope: itself if it is a
/// name, the name made for it if it is the address of a script or of
/// native code of the map.
pub open spec fn expr_names(e: ExprModel) -> Set<Seq<char>> {
    match e {
        ExprModel::Name(name) => set![name],
        ExprModel::Int(word) => if is_local_pointer(word) {
            set![method_name(word)]
        } else {
            Set::empty()
        },
        _ => Set::empty(),
    }
}

/// The names that the first `n` arguments of a call may bring into a
/// scope.
pub open spec fn args_names(args: Seq<ExprModel>, n: int) -> Set<Seq<char>>
    decreases n,
{
    if n <= 0 || n > args.len() {
        Set::empty()
    } else {
        args_names(args, n - 1).union(expr_names(args[n - 1]))
    }
}

/// The names that a statement may bring into a scope: the variables that
/// it declares or assigns to, the names and addresses among its values
/// and arguments, the target of a call if it is an address of the map,
/// and the names of the statements inside it.
pub open spec fn stmt_names(s: StmtModel) -> Set<Seq<char>>
    decreases s, 0nat,
{
    match s {
        StmtModel::VarDeclare { datatype, identifier, expression } => match expression {
            Some(e) => set![identifier].union(expr_names(e)),
            None => set![identifier],
        },
        StmtModel::VarAssign { operator, identifier, expression } => set![identifier].union(
            expr_names(expression),
        ),
        StmtModel::MethodCall { method, arguments, threading, bc_is_func } => (match method {
            TargetModel::Pointer(ptr) => expr_names(ExprModel::Int(ptr)),
            TargetModel::Name(_) => Set::empty(),
        }).union(args_names(arguments, arguments.len() as int)),
        StmtModel::If { condition, block_true, block_false } => names_upto(
            block_true,
            block_true.len() as int,
        ).union(names_upto(block_false, block_false.len() as int)),
        StmtModel::Switch { expression, cases } => cases_names_upto(cases, cases.len() as int),
        StmtModel::Thread { block } => names_upto(block, block.len() as int),
        StmtModel::Loop { times, block } => names_upto(block, block.len() as int),
        _ => Set::empty(),
    }
}

/// The names that the first `n` statements of a block may bring into a
/// scope.
pub open spec fn names_upto(block: Seq<StmtModel>, n: int) -> Set<Seq<char>>
    decreases block, n,
{
    if n <= 0 || n > block.len() {
        Set::empty()
    } else {
        names_upto(block, n - 1).union(stmt_names(block[n - 1]))
    }
}

/// The names that the first `n` arms of a switch may bring into a scope.
pub open spec fn cases_names_upto(cases: Seq<(CaseModel, Seq<StmtModel>)>, n: int) -> Set<Seq<char>>
    decreases cases, n,
{
    if n <= 0 || n > cases.len() {
        Set::empty()
    } else {
        cases_names_upto(cases, n - 1).union(
            names_upto(cases[n - 1].1, cases[n - 1].1.len() as int),
        )
    }
}

/// The names that a block may bring into a scope.
pub open spec fn block_names(block: Seq<StmtModel>) -> Set<Seq<char>> {
    names_upto(block, block.len() as int)
}

/// The names that the arms of a switch may bring into a scope.
pub open spec fn cases_names(cases: Seq<(CaseModel, Seq<StmtModel>)>) -> Set<Seq<char>> {
    cases_names_upto(cases, cases.len() as int)
}

/// Whether the innermost layer of a scope holds a type for a name, as
/// against no entry or an entry without a type.
pub open spec fn has_type(scope: ScopeModel, name: Seq<char>) -> bool {
    match scope.top_type(name) {
        Some(t) => t != TypeModel::Any,
        None => false,
    }
}

/// Those of the names given that have no type yet.
pub open spec fn untyped(scope: ScopeModel, names: Set<Seq<char>>) -> Set<Seq<char>> {
    Set::new(|name: Seq<char>| names.contains(name) && !has_type(scope, name))
}

/// How many of the names that a block may bring into a scope have no type
/// there yet.
pub open spec fn unknown_count(scope: ScopeModel, block: Seq<StmtModel>) -> nat {
    untyped(scope, block_names(block)).len()
}

/// Inference on a block: passes over the block, each followed by the
/// making of its entries, until a pass brings no news. The remarks of a
/// pass are those of its statements, then those on the entries that were
/// undone. (Every pass that
/// brings news gives a type to a name of the block that had none, and no
/// pass makes the block nest deeper; the test for it never fails, and is
/// what shows that inference ends.)
pub open spec fn infer_block(block: Seq<StmtModel>, scope: ScopeModel) -> BlockInference
    decreases block_height(block), 1nat, unknown_count(scope, block), 0nat,
{
    let pass = infer_walk(block, scope);
    let made = apply_entries(pass.scope, pass.entries);
    let undone = entries_remarks(pass.scope, pass.entries);
    if made.1 && block_height(pass.block) <= block_height(block) && unknown_count(
        made.0,
        pass.block,
    ) < unknown_count(scope, block) {
        let next = infer_block(pass.block, made.0);
        BlockInference {
            block: next.block,
            scope: next.scope,
            entries: Seq::empty(),
            warnings: pass.warnings + undone + next.warnings,
        }
    } else {
        BlockInference {
            block: pass.block,
            scope: made.0,
            entries: Seq::empty(),
            warnings: pass.warnings + undone,
        }
    }
}

/// One pass over a block, from its last statement to its first, so that
/// the use of a variable is seen before its declaration. Each statement
/// is looked at by itself, then inference is run on the blocks inside it.
pub open spec fn infer_walk(block: Seq<StmtModel>, scope: ScopeModel) -> BlockInference
    decreases block_height(block), 0nat, 2nat, block.len(),
{
    if block.len() == 0 {
        BlockInference { block, scope, entries: Seq::empty(), warnings: Seq::empty() }
    } else {
        proof {
            lemma_height_last(block);
            lemma_infer_stmt_height(block.last(), scope);
        }
        let told = infer_stmt(block.last(), scope);
        let inside = infer_inner(told.stmt, scope);
        let rest = infer_walk(block.drop_last(), inside.scope);
        BlockInference {
            block: rest.block.push(inside.stmt),
            scope: rest.scope,
            entries: told.entries + rest.entries,
            warnings: told.warnings + inside.warnings + rest.warnings,
        }
    }
}

/// The number of arms, for a switch.
pub open spec fn arm_count(s: StmtModel) -> nat {
    match s {
        StmtModel::Switch { expression, cases } => cases.len(),
        _ => 0,
    }
}

/// Inference on the blocks inside a statement, in the order in which they
/// are written.
pub open spec fn infer_inner(s: StmtModel, scope: ScopeModel) -> InnerInference
    decreases stmt_height(s) + 1, 0nat, 1nat, arm_count(s) + 1,
{
    match s {
        StmtModel::If { condition, block_true, block_false } => {
            let yes = infer_block(block_true, scope);
            let no = infer_block(block_false, yes.scope);
            InnerInference {
                stmt: StmtModel::If { condition, block_true: yes.block, block_false: no.block },
                scope: no.scope,
                warnings: yes.warnings + no.warnings,
            }
        },
        StmtModel::Switch { expression, cases } => {
            let arms = infer_cases(cases, scope);
            InnerInference {
                stmt: StmtModel::Switch { expression, cases: arms.cases },
                scope: arms.scope,
                warnings: arms.warnings,
            }
        },
        StmtModel::Thread { block } => {
            let body = infer_block(block, scope);
            InnerInference {
                stmt: StmtModel::Thread { block: body.block },
                scope: body.scope,
                warnings: body.warnings,
            }
        },
        StmtModel::Loop { times, block } => {
            let body = infer_block(block, scope);
            InnerInference {
                stmt: StmtModel::Loop { times, block: body.block },
                scope: body.scope,
                warnings: body.warnings,
            }
        },
        other => InnerInference { stmt: other, scope, warnings: Seq::empty() },
    }
}

/// Inference on the arms of a switch, from the first to the last.
pub open spec fn infer_cases(cases: Seq<(CaseModel, Seq<StmtModel>)>, scope: ScopeModel) -> CasesInference
    decreases cases_height(cases) + 1, 0nat, 0nat, cases.len(),
{
    if cases.len() == 0 {
        CasesInference { cases, scope, warnings: Seq::empty() }
    } else {
        proof {
            lemma_cases_height_last(cases);
        }
        let before = infer_cases(cases.drop_last(), scope);
        let body = infer_block(cases.last().1, before.scope);
        CasesInference {
            cases: before.cases.push((cases.last().0, body.block)),
            scope: body.scope,
            warnings: before.warnings + body.warnings,
        }
    }
}

/// How deep a block nests depends on its statements alone: a block and a
/// longer one that begins with it nest alike as far as the shorter goes.
pub proof fn lemma_height_prefix(a: Seq<StmtModel>, b: Seq<StmtModel>, n: int)
    requires
        0 <= n <= a.len(),
        n <= b.len(),
        forall|i: int| 0 <= i < n ==> a[i] == b[i],
    ensures
        height_upto(a, n) == height_upto(b, n),
    decreases n,
{
    if n > 0 {
        lemma_height_prefix(a, b, n - 1);
    }
}

/// A block nests deeper than its last statement, and no less deep than
/// the block without it.
pub proof fn lemma_height_last(block: Seq<StmtModel>)
    requires
        block.len() > 0,
    ensures
        stmt_height(block.last()) + 1 <= block_height(block),
        block_height(block.drop_last()) <= block_height(block),
        block_height(block) == greater(
            block_height(block.drop_last()),
            stmt_height(block.last()) + 1,
        ),
{
    lemma_height_prefix(block.drop_last(), block, block.len() - 1);
}

/// The arms of a switch nest alike as far as they are the same arms.
pub proof fn lemma_cases_height_prefix(
    a: Seq<(CaseModel, Seq<StmtModel>)>,
    b: Seq<(CaseModel, Seq<StmtModel>)>,
    n: int,
)
    requires
        0 <= n <= a.len(),
        n <= b.len(),
        forall|i: int| 0 <= i < n ==> a[i].1 == b[i].1,
    ensures
        cases_height_upto(a, n) == cases_height_upto(b, n),
    decreases n,
{
    if n > 0 {
        lemma_cases_height_prefix(a, b, n - 1);
    }
}

/// The arms of a switch nest as deep as the deepest of them.
pub proof fn lemma_cases_height_last(cases: Seq<(CaseModel, Seq<StmtModel>)>)
    requires
        cases.len() > 0,
    ensures
        block_height(cases.last().1) <= cases_height(cases),
        cases_height(cases.drop_last()) <= cases_height(cases),
        cases_height(cases) == greater(
            cases_height(cases.drop_last()),
            block_height(cases.last().1),
        ),
{
    lemma_cases_height_prefix(cases.drop_last(), cases, cases.len() - 1);
}

/// Looking at a statement by itself leaves the blocks inside it as they
/// are.
pub proof fn lemma_infer_stmt_height(s: StmtModel, scope: ScopeModel)
    ensures
        stmt_height(infer_stmt(s, scope).stmt) == stmt_height(s),
        arm_count(infer_stmt(s, scope).stmt) == arm_count(s),
{
}

/// A remark on a name that is used with another type than the one it
/// has: a declaration whose type is not the type that its variable is
/// used with, or an entry for a scope that was undone because the name
/// had a type already. `declared_datatype` is the type that the name has
/// and keeps, `inferred_datatype` the one that its use asked for.
#[derive(Debug, PartialEq, Eq)]
pub struct TypeMismatch {
    pub identifier: String,
    pub declared_datatype: DataType,
    pub inferred_datatype: DataType,
}

impl View for TypeMismatch {
    type V = MismatchModel;

    open spec fn view(&self) -> MismatchModel {
        MismatchModel {
            identifier: self.identifier@,
            declared_datatype: self.declared_datatype@,
            inferred_datatype: self.inferred_datatype@,
        }
    }
}

/// The model of each remark of a list, in order.
pub open spec fn mismatches_view(list: Seq<TypeMismatch>) -> Seq<MismatchModel> {
    Seq::new(list.len(), |i: int| list[i]@)
}

/// The model of an entry, if there is one.
pub open spec fn entry_view(entry: Option<Entry>) -> Option<EntryModel> {
    match entry {
        Some(e) => Some((e.0, e.1@, e.2@)),
        None => None,
    }
}

/// Brings a literal in line with the type that is expected where it
/// stands. Returns the expression, rewritten if it is a literal that the
/// type reads otherwise, and the entry that the scope is to get if the
/// literal was the address of a script or of native code of the map.
pub fn update_literal(expr: Expression, datatype: &DataType) -> (r: (Expression, Option<Entry>))
    ensures
        r.0@ == updated_literal(expr@, datatype@).0,
        entry_view(r.1) == updated_literal(expr@, datatype@).1,
{
    match expr {
        Expression::LiteralInt(word) => match datatype {
            DataType::Bool => (Expression::LiteralBool(word == 1), None),
            DataType::Float => {
                let raw: i64 = if word == 0 {
                    0
                } else {
                    crate::arg::Arg(word).as_signed() as i64 + 230_000_000
                };
                (Expression::LiteralFloat(Fixed { raw }), None)
            },
            DataType::Fun(_) | DataType::Asm(_) => {
                if word >= 0x8024_0000 && word <= 0x8024_FFFF {
                    let name = name_method_ptr(word);
                    (
                        Expression::Identifier(Identifier(name.clone())),
                        Some((Some(word), name, datatype.clone())),
                    )
                } else {
                    (Expression::LiteralInt(word), None)
                }
            },
            _ => (Expression::LiteralInt(word), None),
        },
        other => (other, None),
    }
}

/// Appends an entry to a list, if there is one.
fn push_entry(entries: &mut Vec<Entry>, entry: Option<Entry>)
    ensures
        entries_view(final(entries)@) == with_entry(entries_view(old(entries)@), entry_view(entry)),
{
    match entry {
        Some(e) => {
            let ghost row = (e.0, e.1@, e.2@);
            entries.push(e);
            assert(entries_view(entries@) =~= entries_view(old(entries)@).push(row));
        },
        None => {},
    }
}

/// A list of entries that holds nothing.
fn no_entries() -> (entries: Vec<Entry>)
    ensures
        entries_view(entries@) == Seq::<EntryModel>::empty(),
{
    let entries: Vec<Entry> = Vec::new();
    assert(entries_view(entries@) =~= Seq::<EntryModel>::empty());
    entries
}

/// A list of remarks that holds nothing.
pub(crate) fn no_warnings() -> (warnings: Vec<TypeMismatch>)
    ensures
        mismatches_view(warnings@) == Seq::<MismatchModel>::empty(),
{
    let warnings: Vec<TypeMismatch> = Vec::new();
    assert(mismatches_view(warnings@) =~= Seq::<MismatchModel>::empty());
    warnings
}

/// Whether what was found is what the model of a statement says.
pub open spec fn told_as(r: (Statement, Vec<Entry>, Vec<TypeMismatch>), m: StmtInference) -> bool {
    r.0@ == m.stmt && entries_view(r.1@) == m.entries && mismatches_view(r.2@) == m.warnings
}

fn infer_declaration(
    datatype: DataType,
    identifier: Identifier,
    expression: Option<Expression>,
    scope: &Scope,
) -> (r: (Statement, Vec<Entry>, Vec<TypeMismatch>))
    ensures
        told_as(
            r,
            infer_declare(
                datatype@,
                identifier@,
                match expression {
                    Some(e) => Some(e@),
                    None => None,
                },
                scope@,
            ),
        ),
{
    let mut entries = no_entries();
    let mut warnings = no_warnings();
    match scope.lookup_name_depth(identifier.0.as_str(), 0) {
        Some(found) => {
            let inferred = found.clone();
            if datatype.is_any() {
                match expression {
                    Some(e) => {
                        let (rewritten, entry) = update_literal(e, &inferred);
                        push_entry(&mut entries, entry);
                        (
                            Statement::VarDeclare {
                                datatype: inferred,
                                identifier,
                                expression: Some(rewritten),
                            },
                            entries,
                            warnings,
                        )
                    },
                    None => (
                        Statement::VarDeclare { datatype: inferred, identifier, expression: None },
                        entries,
                        warnings,
                    ),
                }
            } else if inferred.same(&datatype) {
                (Statement::VarDeclare { datatype, identifier, expression }, entries, warnings)
            } else {
                let ghost remark = MismatchModel {
                    identifier: identifier@,
                    declared_datatype: datatype@,
                    inferred_datatype: inferred@,
                };
                warnings.push(
                    TypeMismatch {
                        identifier: identifier.0.clone(),
                        declared_datatype: datatype,
                        inferred_datatype: inferred,
                    },
                );
                assert(mismatches_view(warnings@) =~= seq![remark]);
                (
                    Statement::VarDeclare { datatype: DataType::Any, identifier, expression },
                    entries,
                    warnings,
                )
            }
        },
        None => {
            let value_type = match &expression {
                Some(e) => e.infer_datatype(scope),
                None => DataType::Any,
            };
            let ghost row = (None::<u32>, identifier@, value_type@);
            entries.push((None, identifier.0.clone(), value_type));
            assert(entries_view(entries@) =~= seq![row]);
            (Statement::VarDeclare { datatype, identifier, expression }, entries, warnings)
        },
    }
}

/// What is to be done with an assignment, by the type of its variable.
enum AssignCase {
    Enter,
    Rewrite,
    Leave,
}

fn infer_assignment(
    operator: AssignmentOperator,
    identifier: Identifier,
    expression: Expression,
    scope: &Scope,
) -> (r: (Statement, Vec<Entry>, Vec<TypeMismatch>))
    ensures
        told_as(r, infer_assign(operator, identifier@, expression@, scope@)),
{
    let mut entries = no_entries();
    let warnings = no_warnings();
    let case = match scope.lookup_name(identifier.0.as_str()) {
        Some(found) => match found {
            DataType::Any => AssignCase::Enter,
            DataType::Float => AssignCase::Rewrite,
            _ => AssignCase::Leave,
        },
        None => AssignCase::Enter,
    };
    match case {
        AssignCase::Enter => {
            let value_type = expression.infer_datatype(scope);
            let ghost row = (None::<u32>, identifier@, value_type@);
            entries.push((None, identifier.0.clone(), value_type));
            assert(entries_view(entries@) =~= seq![row]);
            (Statement::VarAssign { operator, identifier, expression }, entries, warnings)
        },
        AssignCase::Rewrite => {
            let (rewritten, entry) = update_literal(expression, &DataType::Float);
            push_entry(&mut entries, entry);
            (
                Statement::VarAssign { operator, identifier, expression: rewritten },
                entries,
                warnings,
            )
        },
        AssignCase::Leave => (
            Statement::VarAssign { operator, identifier, expression },
            entries,
            warnings,
        ),
    }
}

/// Holds the arguments of a call against the parameters of its target.
fn infer_call_arguments(params: &Vec<DataType>, arguments: Vec<Expression>, scope: &Scope) -> (r: (
    Vec<Expression>,
    Vec<Entry>,
))
    ensures
        ({
            let m = infer_arguments(
                types_view(params@),
                exprs_view(arguments@),
                scope@,
                shorter(params@.len(), arguments@.len()),
            );
            exprs_view(r.0@) == m.0 && entries_view(r.1@) == m.1
        }),
{
    let count: usize = if params.len() <= arguments.len() {
        params.len()
    } else {
        arguments.len()
    };
    let ghost given = exprs_view(arguments@);
    let ghost types = types_view(params@);
    let mut entries = no_entries();
    let mut rest = arguments;
    let mut done: Vec<Expression> = Vec::new();
    let mut i: usize = 0;
    reverse_in_place(&mut rest);
    while i < count
        invariant
            i <= count,
            count == shorter(params@.len(), given.len()),
            types == types_view(params@),
            given.len() == i + rest@.len(),
            done@.len() == i,
            forall|j: int| 0 <= j < rest@.len() ==> rest@[j]@ == given[given.len() - 1 - j],
            forall|j: int|
                0 <= j < i ==> done@[j]@ == infer_arguments(types, given, scope@, i as nat).0[j],
            infer_arguments(types, given, scope@, i as nat).0.len() == given.len(),
            entries_view(entries@) == infer_arguments(types, given, scope@, i as nat).1,
        decreases count - i,
    {
        let ghost before = infer_arguments(types, given, scope@, i as nat);
        let ghost after = infer_arguments(types, given, scope@, (i + 1) as nat);
        let arg = match rest.pop() {
            Some(a) => a,
            None => Expression::LiteralInt(0),
        };
        assert(arg@ == given[i as int]);
        let ty = &params[i];
        assert(ty@ == types[i as int]);
        match arg {
            Expression::Identifier(id) => {
                let unknown = match scope.lookup_name(id.0.as_str()) {
                    Some(found) => found.is_any(),
                    None => false,
                };
                if unknown {
                    let ghost row = (None::<u32>, id@, ty@);
                    let ghost old_entries = entries_view(entries@);
                    entries.push((None, id.0.clone(), ty.clone()));
                    assert(entries_view(entries@) =~= old_entries.push(row));
                }
                done.push(Expression::Identifier(id));
            },
            other => {
                let (rewritten, entry) = update_literal(other, ty);
                push_entry(&mut entries, entry);
                done.push(rewritten);
            },
        }
        proof {
            lemma_infer_arguments_rest(types, given, scope@, i as nat);
            lemma_infer_arguments_rest(types, given, scope@, (i + 1) as nat);
            assert(before.0[i as int] == given[i as int]);
            assert(done@[i as int]@ == after.0[i as int]);
            assert forall|j: int| 0 <= j < i + 1 implies done@[j]@ == after.0[j] by {
                if j < i {
                    assert(done@[j]@ == before.0[j]);
                    assert(after.0[j] == before.0[j]);
                }
            }
        }
        i += 1;
    }
    let ghost told = infer_arguments(types, given, scope@, count as nat);
    proof {
        lemma_infer_arguments_rest(types, given, scope@, count as nat);
    }
    while rest.len() > 0
        invariant
            done@.len() + rest@.len() == given.len(),
            told.0.len() == given.len(),
            forall|j: int| 0 <= j < rest@.len() ==> rest@[j]@ == given[given.len() - 1 - j],
            forall|j: int| count <= j < given.len() ==> told.0[j] == given[j],
            count <= done@.len(),
            forall|j: int| 0 <= j < done@.len() ==> done@[j]@ == told.0[j],
        decreases rest.len(),
    {
        match rest.pop() {
            Some(a) => {
                done.push(a);
            },
            None => {},
        }
    }
    assert(exprs_view(done@) =~= told.0);
    (done, entries)
}

/// The first `n` places apart, the arguments stay as they are, and there
/// are as many after as before.
pub proof fn lemma_infer_arguments_rest(
    params: Seq<TypeModel>,
    arguments: Seq<ExprModel>,
    scope: ScopeModel,
    n: nat,
)
    ensures
        infer_arguments(params, arguments, scope, n).0.len() == arguments.len(),
        forall|j: int|
            n <= j < arguments.len() ==> infer_arguments(params, arguments, scope, n).0[j]
                == arguments[j],
    decreases n,
{
    if !(n == 0 || n > params.len() || n > arguments.len()) {
        lemma_infer_arguments_rest(params, arguments, scope, (n - 1) as nat);
    }
}

/// Turns a list round.
fn reverse_in_place<T>(list: &mut Vec<T>)
    ensures
        final(list)@.len() == old(list)@.len(),
        forall|j: int|
            0 <= j < old(list)@.len() ==> final(list)@[j] == old(list)@[old(list)@.len() - 1 - j],
{
    let mut turned: Vec<T> = Vec::new();
    let ghost all = list@;
    while list.len() > 0
        invariant
            turned@.len() + list@.len() == all.len(),
            forall|j: int| 0 <= j < list@.len() ==> list@[j] == all[j],
            forall|j: int| 0 <= j < turned@.len() ==> turned@[j] == all[all.len() - 1 - j],
        decreases list.len(),
    {
        match list.pop() {
            Some(x) => {
                turned.push(x);
            },
            None => {},
        }
    }
    list.append(&mut turned);
}

/// The type of each argument, as far as the scope tells.
fn argument_types(arguments: &Vec<Expression>, scope: &Scope) -> (types: Vec<DataType>)
    ensures
        types_view(types@) == exprs_type(exprs_view(arguments@), scope@),
{
    let mut types: Vec<DataType> = Vec::new();
    let mut i: usize = 0;
    while i < arguments.len()
        invariant
            i <= arguments.len(),
            types@.len() == i,
            forall|j: int| 0 <= j < i ==> types@[j]@ == expr_type(arguments@[j]@, scope@),
        decreases arguments.len() - i,
    {
        types.push(arguments[i].infer_datatype(scope));
        i += 1;
    }
    assert(types_view(types@) =~= exprs_type(exprs_view(arguments@), scope@));
    types
}

fn infer_method_call(
    method: IdentifierOrPointer,
    arguments: Vec<Expression>,
    threading: MethodThreading,
    bc_is_func: bool,
    scope: &Scope,
) -> (r: (Statement, Vec<Entry>, Vec<TypeMismatch>))
    ensures
        told_as(
            r,
            infer_call(method@, exprs_view(arguments@), threading@, bc_is_func, scope@),
        ),
{
    let warnings = no_warnings();
    let known: Option<&Vec<DataType>> = match method.lookup(scope) {
        Some((_, datatype)) => match datatype {
            DataType::Fun(params) => {
                assert(datatype@ == TypeModel::Fun(types_view(params@)));
                Some(params)
            },
            DataType::Asm(params) => {
                assert(datatype@ == TypeModel::Asm(types_view(params@)));
                Some(params)
            },
            _ => {
                assert(!(datatype@ is Fun) && !(datatype@ is Asm));
                None
            },
        },
        None => None,
    };
    match known {
        Some(params) => {
            let (told, entries) = infer_call_arguments(params, arguments, scope);
            (
                Statement::MethodCall { method, arguments: told, threading, bc_is_func },
                entries,
                warnings,
            )
        },
        None => {
            let mut entries = no_entries();
            match &method {
                IdentifierOrPointer::Pointer(ptr) => {
                    if *ptr >= 0x8024_0000 && *ptr <= 0x8024_FFFF {
                        let types = argument_types(&arguments, scope);
                        let datatype = if bc_is_func {
                            DataType::Fun(types)
                        } else {
                            DataType::Asm(types)
                        };
                        let name = name_method_ptr(*ptr);
                        let ghost row = (Some(*ptr), name@, datatype@);
                        entries.push((Some(*ptr), name, datatype));
                        assert(entries_view(entries@) =~= seq![row]);
                    }
                },
                _ => {},
            }
            (Statement::MethodCall { method, arguments, threading, bc_is_func }, entries, warnings)
        },
    }
}

/// Looks at a statement by itself, without the blocks inside it.
fn infer_statement(s: Statement, scope: &Scope) -> (r: (Statement, Vec<Entry>, Vec<TypeMismatch>))
    ensures
        told_as(r, infer_stmt(s@, scope@)),
{
    match s {
        Statement::VarDeclare { datatype, identifier, expression } => infer_declaration(
            datatype,
            identifier,
            expression,
            scope,
        ),
        Statement::VarAssign { operator, identifier, expression } => infer_assignment(
            operator,
            identifier,
            expression,
            scope,
        ),
        Statement::MethodCall { method, arguments, threading, bc_is_func } => infer_method_call(
            method,
            arguments,
            threading,
            bc_is_func,
            scope,
        ),
        other => (other, no_entries(), no_warnings()),
    }
}

/// Entries keep the number of layers of a scope, and keep it well formed.
pub proof fn lemma_apply_entry(scope: ScopeModel, entry: EntryModel)
    requires
        scope.layers.len() > 0,
    ensures
        apply_entry(scope, entry).0.layers.len() == scope.layers.len(),
        scope.wf() ==> apply_entry(scope, entry).0.wf(),
{
    let entered = scope.insert(entry.0, entry.1, entry.2);
    lemma_insert(scope, entry.0, entry.1, entry.2);
    match scope.top_type(entry.1) {
        Some(old) => {
            lemma_insert(entered, entry.0, entry.1, old);
        },
        None => {},
    }
}

/// An insertion keeps the number of layers of a scope, and keeps it well
/// formed.
pub proof fn lemma_insert(scope: ScopeModel, ptr: Option<u32>, name: Seq<char>, datatype: TypeModel)
    requires
        scope.layers.len() > 0,
    ensures
        scope.insert(ptr, name, datatype).layers.len() == scope.layers.len(),
        scope.wf() ==> scope.insert(ptr, name, datatype).wf(),
{
    if scope.wf() {
        assert(scope.layers.last().wf());
        match ptr {
            Some(p) => {
                crate::scope::lemma_insert_ptr_wf(scope.layers.last(), p, name, datatype);
            },
            None => {
                crate::scope::lemma_insert_name_wf(scope.layers.last(), name, datatype);
            },
        }
    }
}

/// Makes the entries of a pass, in order; an entry without a type is
/// passed over. Says whether any of them was news, and gives the remarks
/// on those that were undone.
fn apply_inferred(scope: &mut Scope, entries: &Vec<Entry>) -> (r: (bool, Vec<TypeMismatch>))
    requires
        old(scope)@.layers.len() > 0,
    ensures
        (final(scope)@, r.0) == apply_entries(old(scope)@, entries_view(entries@)),
        mismatches_view(r.1@) == entries_remarks(old(scope)@, entries_view(entries@)),
        final(scope)@.layers.len() == old(scope)@.layers.len(),
        old(scope)@.wf() ==> final(scope)@.wf(),
{
    let mut made = false;
    let mut remarks = no_warnings();
    let mut i: usize = 0;
    let ghost all = entries_view(entries@);
    assert(all.skip(0) =~= all);
    while i < entries.len()
        invariant
            i <= entries.len(),
            all == entries_view(entries@),
            scope@.layers.len() == old(scope)@.layers.len(),
            scope@.layers.len() > 0,
            old(scope)@.wf() ==> scope@.wf(),
            apply_entries(old(scope)@, all) == (
                apply_entries(scope@, all.skip(i as int)).0,
                made || apply_entries(scope@, all.skip(i as int)).1,
            ),
            entries_remarks(old(scope)@, all) == mismatches_view(remarks@) + entries_remarks(
                scope@,
                all.skip(i as int),
            ),
        decreases entries.len() - i,
    {
        let ghost rest = all.skip(i as int);
        let ghost before = scope@;
        let ghost said = mismatches_view(remarks@);
        assert(rest[0] == all[i as int]);
        assert(rest.skip(1) =~= all.skip(i + 1));
        if entries[i].2.is_any() {
            i += 1;
            continue ;
        }
        proof {
            lemma_apply_entry(before, rest[0]);
        }
        let ptr = entries[i].0;
        let name = entries[i].1.clone();
        let datatype = entries[i].2.clone();
        match scope.insert(ptr, name, datatype) {
            None => {
                made = true;
            },
            Some(old_datatype) => {
                if old_datatype.is_any() {
                    made = true;
                } else if !entries[i].2.same(&old_datatype) {
                    proof {
                        lemma_insert(before, rest[0].0, rest[0].1, rest[0].2);
                    }
                    let remark = TypeMismatch {
                        identifier: entries[i].1.clone(),
                        declared_datatype: old_datatype.clone(),
                        inferred_datatype: entries[i].2.clone(),
                    };
                    let _ = scope.insert(ptr, entries[i].1.clone(), old_datatype);
                    remarks.push(remark);
                    assert(mismatches_view(remarks@) =~= said.push(
                        entry_remark(before, rest[0]).unwrap(),
                    ));
                    assert(said.push(entry_remark(before, rest[0]).unwrap()) + entries_remarks(
                        apply_entry(before, rest[0]).0,
                        rest.skip(1),
                    ) =~= said + entries_remarks(before, rest));
                }
            },
        }
        assert(scope@ == apply_entry(before, rest[0]).0);
        i += 1;
    }
    assert(all.skip(i as int).len() == 0);
    assert(mismatches_view(remarks@) + Seq::<MismatchModel>::empty() =~= mismatches_view(remarks@));
    (made, remarks)
}

impl TypeMismatch {
    /// The remark in words.
    pub open spec fn message_text(m: MismatchModel) -> Seq<char> {
        "variable '"@ + m.identifier + "' declared as "@ + type_text(m.declared_datatype)
            + " but is used as "@ + type_text(m.inferred_datatype)
    }

    /// The remark in words.
    pub fn message(&self) -> (out: String)
        ensures
            out@ == Self::message_text(self@),
    {
        let mut out = String::from_str("variable '");
        out.append(self.identifier.as_str());
        out.append("' declared as ");
        let declared = self.declared_datatype.to_text();
        out.append(declared.as_str());
        out.append(" but is used as ");
        let inferred = self.inferred_datatype.to_text();
        out.append(inferred.as_str());
        out
    }
}

/// The names of a block depend on its statements alone.
pub proof fn lemma_names_prefix(a: Seq<StmtModel>, b: Seq<StmtModel>, n: int)
    requires
        0 <= n <= a.len(),
        n <= b.len(),
        forall|i: int| 0 <= i < n ==> a[i] == b[i],
    ensures
        names_upto(a, n) == names_upto(b, n),
    decreases n,
{
    if n > 0 {
        lemma_names_prefix(a, b, n - 1);
    }
}

/// The names of a block are those of its last statement and those of the
/// block without it.
pub proof fn lemma_names_last(block: Seq<StmtModel>)
    requires
        block.len() > 0,
    ensures
        block_names(block) == block_names(block.drop_last()).union(stmt_names(block.last())),
{
    lemma_names_prefix(block.drop_last(), block, block.len() - 1);
}

/// The names of the arms of a switch depend on the bodies of the arms
/// alone.
pub proof fn lemma_cases_names_prefix(
    a: Seq<(CaseModel, Seq<StmtModel>)>,
    b: Seq<(CaseModel, Seq<StmtModel>)>,
    n: int,
)
    requires
        0 <= n <= a.len(),
        n <= b.len(),
        forall|i: int| 0 <= i < n ==> a[i].1 == b[i].1,
    ensures
        cases_names_upto(a, n) == cases_names_upto(b, n),
    decreases n,
{
    if n > 0 {
        lemma_cases_names_prefix(a, b, n - 1);
    }
}

/// The names of the arms of a switch are those of the last arm and those
/// of the arms before it.
pub proof fn lemma_cases_names_last(cases: Seq<(CaseModel, Seq<StmtModel>)>)
    requires
        cases.len() > 0,
    ensures
        cases_names(cases) == cases_names(cases.drop_last()).union(block_names(cases.last().1)),
{
    lemma_cases_names_prefix(cases.drop_last(), cases, cases.len() - 1);
}

/// There are only so many names among the arguments of a call.
pub proof fn lemma_args_names_finite(args: Seq<ExprModel>, n: int)
    ensures
        args_names(args, n).finite(),
    decreases n,
{
    if !(n <= 0 || n > args.len()) {
        lemma_args_names_finite(args, n - 1);
    }
}

/// There are only so many names in a statement.
pub proof fn lemma_stmt_names_finite(s: StmtModel)
    ensures
        stmt_names(s).finite(),
    decreases s, 0nat,
{
    match s {
        StmtModel::MethodCall { method, arguments, threading, bc_is_func } => {
            lemma_args_names_finite(arguments, arguments.len() as int);
        },
        StmtModel::If { condition, block_true, block_false } => {
            lemma_names_finite(block_true, block_true.len() as int);
            lemma_names_finite(block_false, block_false.len() as int);
        },
        StmtModel::Switch { expression, cases } => {
            lemma_cases_names_finite(cases, cases.len() as int);
        },
        StmtModel::Thread { block } => {
            lemma_names_finite(block, block.len() as int);
        },
        StmtModel::Loop { times, block } => {
            lemma_names_finite(block, block.len() as int);
        },
        _ => {},
    }
}

/// There are only so many names in a block.
pub proof fn lemma_names_finite(block: Seq<StmtModel>, n: int)
    ensures
        names_upto(block, n).finite(),
    decreases block, n,
{
    if !(n <= 0 || n > block.len()) {
        lemma_names_finite(block, n - 1);
        lemma_stmt_names_finite(block[n - 1]);
    }
}

/// There are only so many names in the arms of a switch.
pub proof fn lemma_cases_names_finite(cases: Seq<(CaseModel, Seq<StmtModel>)>, n: int)
    ensures
        cases_names_upto(cases, n).finite(),
    decreases cases, n,
{
    if !(n <= 0 || n > cases.len()) {
        lemma_cases_names_finite(cases, n - 1);
        lemma_names_finite(cases[n - 1].1, cases[n - 1].1.len() as int);
    }
}

/// Rewriting a literal brings no new name: the name that it may become,
/// and the name of the entry that comes with it, is a name that the
/// literal could bring before.
pub proof fn lemma_updated_literal_names(e: ExprModel, t: TypeModel)
    ensures
        expr_names(updated_literal(e, t).0).subset_of(expr_names(e)),
        updated_literal(e, t).1 matches Some(entry) ==> expr_names(e).contains(entry.1),
{
}

/// The names of one argument are among those of all arguments.
pub proof fn lemma_args_names_member(args: Seq<ExprModel>, i: int, n: int)
    requires
        0 <= i < n <= args.len(),
    ensures
        expr_names(args[i]).subset_of(args_names(args, n)),
    decreases n,
{
    if i < n - 1 {
        lemma_args_names_member(args, i, n - 1);
    }
}

/// Arguments that bring no new names one by one bring none together.
pub proof fn lemma_args_names_subset(a: Seq<ExprModel>, b: Seq<ExprModel>, n: int)
    requires
        0 <= n <= a.len(),
        n <= b.len(),
        forall|i: int| 0 <= i < n ==> expr_names(#[trigger] a[i]).subset_of(expr_names(b[i])),
    ensures
        args_names(a, n).subset_of(args_names(b, n)),
    decreases n,
{
    if n > 0 {
        lemma_args_names_subset(a, b, n - 1);
        assert(expr_names(a[n - 1]).subset_of(expr_names(b[n - 1])));
    }
}

/// Holding the arguments of a call against the parameters brings no new
/// name: every argument as rewritten, and every entry, has a name that
/// the arguments could bring before.
pub proof fn lemma_infer_arguments_names(
    params: Seq<TypeModel>,
    arguments: Seq<ExprModel>,
    scope: ScopeModel,
    n: nat,
)
    ensures
        infer_arguments(params, arguments, scope, n).0.len() == arguments.len(),
        forall|i: int|
            0 <= i < arguments.len() ==> expr_names(
                #[trigger] infer_arguments(params, arguments, scope, n).0[i],
            ).subset_of(expr_names(arguments[i])),
        forall|k: int|
            0 <= k < infer_arguments(params, arguments, scope, n).1.len() ==> args_names(
                arguments,
                arguments.len() as int,
            ).contains((#[trigger] infer_arguments(params, arguments, scope, n).1[k]).1),
    decreases n,
{
    if !(n == 0 || n > params.len() || n > arguments.len()) {
        let before = infer_arguments(params, arguments, scope, (n - 1) as nat);
        let after = infer_arguments(params, arguments, scope, n);
        lemma_infer_arguments_names(params, arguments, scope, (n - 1) as nat);
        lemma_infer_arguments_rest(params, arguments, scope, (n - 1) as nat);
        let i = n - 1;
        lemma_args_names_member(arguments, i, arguments.len() as int);
        lemma_updated_literal_names(arguments[i], params[i]);
        assert(before.0[i] == arguments[i]);
        assert forall|j: int| 0 <= j < arguments.len() implies expr_names(
            #[trigger] after.0[j],
        ).subset_of(expr_names(arguments[j])) by {
            if j != i {
                assert(after.0[j] == before.0[j]);
            }
        }
        assert forall|k: int| 0 <= k < after.1.len() implies args_names(
            arguments,
            arguments.len() as int,
        ).contains((#[trigger] after.1[k]).1) by {
            if k < before.1.len() {
                assert(after.1[k] == before.1[k]);
            }
        }
    }
}

/// Looking at a statement by itself brings no new name: the statement as
/// rewritten, and every entry, has names that the statement could bring
/// before.
pub proof fn lemma_infer_stmt_names(s: StmtModel, scope: ScopeModel)
    ensures
        stmt_names(infer_stmt(s, scope).stmt).subset_of(stmt_names(s)),
        forall|k: int|
            0 <= k < infer_stmt(s, scope).entries.len() ==> stmt_names(s).contains(
                (#[trigger] infer_stmt(s, scope).entries[k]).1,
            ),
{
    let told = infer_stmt(s, scope);
    match s {
        StmtModel::VarDeclare { datatype, identifier, expression } => {
            match expression {
                Some(e) => {
                    match scope.lookup_name_depth(identifier, 0) {
                        Some(inferred) => {
                            lemma_updated_literal_names(e, inferred);
                        },
                        None => {},
                    }
                },
                None => {},
            }
        },
        StmtModel::VarAssign { operator, identifier, expression } => {
            lemma_updated_literal_names(expression, TypeModel::Float);
        },
        StmtModel::MethodCall { method, arguments, threading, bc_is_func } => {
            match scope.resolve(method) {
                Some((_, TypeModel::Fun(params))) => {
                    let n = shorter(params.len(), arguments.len());
                    lemma_infer_arguments_names(params, arguments, scope, n);
                    lemma_args_names_subset(
                        infer_arguments(params, arguments, scope, n).0,
                        arguments,
                        arguments.len() as int,
                    );
                },
                Some((_, TypeModel::Asm(params))) => {
                    let n = shorter(params.len(), arguments.len());
                    lemma_infer_arguments_names(params, arguments, scope, n);
                    lemma_args_names_subset(
                        infer_arguments(params, arguments, scope, n).0,
                        arguments,
                        arguments.len() as int,
                    );
                },
                _ => {},
            }
        },
        _ => {},
    }
}

/// Whether the innermost layer of a scope holds a type for a name.
pub open spec fn holds_type(scope: ScopeModel, name: Seq<char>, t: TypeModel) -> bool {
    scope.top_type(name) == Some(t)
}

/// Whether `after` is what inference may make of a scope: as many
/// layers, well formed, and every name that had a type in the innermost
/// layer has that type still.
pub open spec fn settled(before: ScopeModel, after: ScopeModel) -> bool {
    &&& after.layers.len() == before.layers.len()
    &&& after.wf()
    &&& forall|name: Seq<char>, t: TypeModel|
        #[trigger] holds_type(before, name, t) && t != TypeModel::Any ==> holds_type(after, name, t)
}

/// An entry never takes the type of a name away or changes it.
pub proof fn lemma_apply_entry_settled(scope: ScopeModel, entry: EntryModel)
    requires
        scope.wf(),
        scope.layers.len() > 0,
    ensures
        settled(scope, apply_entry(scope, entry).0),
{
    let after = apply_entry(scope, entry).0;
    let entered = scope.insert(entry.0, entry.1, entry.2);
    lemma_apply_entry(scope, entry);
    lemma_insert(scope, entry.0, entry.1, entry.2);
    assert(scope.layers.last().wf());
    assert forall|name: Seq<char>, t: TypeModel|
        #[trigger] holds_type(scope, name, t) && t != TypeModel::Any implies holds_type(
        after,
        name,
        t,
    ) by {
        lemma_assoc_put(scope.layers.last().types, entry.1, entry.2, name);
        assert(entered.layers.last().wf());
        match scope.top_type(entry.1) {
            Some(old) => {
                lemma_assoc_put(entered.layers.last().types, entry.1, old, name);
            },
            None => {},
        }
    }
}

/// Being settled carries over from step to step.
pub proof fn lemma_settled_trans(a: ScopeModel, b: ScopeModel, c: ScopeModel)
    requires
        settled(a, b),
        settled(b, c),
    ensures
        settled(a, c),
{
    assert forall|name: Seq<char>, t: TypeModel|
        #[trigger] holds_type(a, name, t) && t != TypeModel::Any implies holds_type(c, name, t) by {
        assert(holds_type(b, name, t));
    }
}

/// The entries of a pass never take the type of a name away or change it.
pub proof fn lemma_apply_entries_settled(scope: ScopeModel, entries: Seq<EntryModel>)
    requires
        scope.wf(),
        scope.layers.len() > 0,
    ensures
        settled(scope, apply_entries(scope, entries).0),
    decreases entries.len(),
{
    if entries.len() == 0 {
    } else if entries[0].2 == TypeModel::Any {
        lemma_apply_entries_settled(scope, entries.skip(1));
    } else {
        let first = apply_entry(scope, entries[0]);
        lemma_apply_entry_settled(scope, entries[0]);
        lemma_apply_entries_settled(first.0, entries.skip(1));
        lemma_settled_trans(scope, first.0, apply_entries(first.0, entries.skip(1)).0);
    }
}

/// A type that a name is settled with is a type that it has.
pub proof fn lemma_settled_has_type(before: ScopeModel, after: ScopeModel, name: Seq<char>)
    requires
        settled(before, after),
        has_type(before, name),
    ensures
        has_type(after, name),
{
    let t = before.top_type(name).unwrap();
    assert(holds_type(before, name, t));
    assert(holds_type(after, name, t));
}

/// Where the entries of a pass bring news, one of them gives a type to a
/// name that had none.
pub proof fn lemma_news_witness(scope: ScopeModel, entries: Seq<EntryModel>) -> (k: int)
    requires
        scope.wf(),
        scope.layers.len() > 0,
        apply_entries(scope, entries).1,
    ensures
        0 <= k < entries.len(),
        !has_type(scope, entries[k].1),
        has_type(apply_entries(scope, entries).0, entries[k].1),
    decreases entries.len(),
{
    let first = apply_entry(scope, entries[0]);
    let rest = entries.skip(1);
    if entries[0].2 == TypeModel::Any {
        let k = lemma_news_witness(scope, rest);
        assert(rest[k] == entries[k + 1]);
        return k + 1;
    }
    lemma_apply_entry_settled(scope, entries[0]);
    lemma_apply_entries_settled(first.0, rest);
    if first.1 {
        let name = entries[0].1;
        lemma_insert(scope, entries[0].0, entries[0].1, entries[0].2);
        assert(scope.layers.last().wf());
        lemma_assoc_put(scope.layers.last().types, name, entries[0].2, name);
        assert(has_type(first.0, name));
        lemma_settled_has_type(first.0, apply_entries(first.0, rest).0, name);
        0
    } else {
        let k = lemma_news_witness(first.0, rest);
        assert(rest[k] == entries[k + 1]);
        if has_type(scope, rest[k].1) {
            lemma_settled_has_type(scope, first.0, rest[k].1);
        }
        k + 1
    }
}

/// Whether inference did to a block and a scope what it may do: the scope
/// keeps what it knew, and the block nests no deeper and has no new
/// names.
pub open spec fn sound(
    block: Seq<StmtModel>,
    scope: ScopeModel,
    after_block: Seq<StmtModel>,
    after_scope: ScopeModel,
) -> bool {
    &&& settled(scope, after_scope)
    &&& block_height(after_block) <= block_height(block)
    &&& block_names(after_block).subset_of(block_names(block))
}

/// Inference on a block does what it may do.
pub proof fn lemma_infer_block_sound(block: Seq<StmtModel>, scope: ScopeModel)
    requires
        scope.wf(),
        scope.layers.len() > 0,
    ensures
        sound(block, scope, infer_block(block, scope).block, infer_block(block, scope).scope),
    decreases block_height(block), 1nat, unknown_count(scope, block), 0nat,
{
    let pass = infer_walk(block, scope);
    let made = apply_entries(pass.scope, pass.entries);
    lemma_infer_walk_sound(block, scope);
    lemma_apply_entries_settled(pass.scope, pass.entries);
    lemma_settled_trans(scope, pass.scope, made.0);
    if made.1 && block_height(pass.block) <= block_height(block) && unknown_count(
        made.0,
        pass.block,
    ) < unknown_count(scope, block) {
        let next = infer_block(pass.block, made.0);
        lemma_infer_block_sound(pass.block, made.0);
        lemma_settled_trans(scope, made.0, next.scope);
    }
}

/// A pass over a block does what it may do, and every entry that it asks
/// for has a name of the block.
pub proof fn lemma_infer_walk_sound(block: Seq<StmtModel>, scope: ScopeModel)
    requires
        scope.wf(),
        scope.layers.len() > 0,
    ensures
        sound(block, scope, infer_walk(block, scope).block, infer_walk(block, scope).scope),
        infer_walk(block, scope).block.len() == block.len(),
        forall|k: int|
            0 <= k < infer_walk(block, scope).entries.len() ==> block_names(block).contains(
                (#[trigger] infer_walk(block, scope).entries[k]).1,
            ),
    decreases block_height(block), 0nat, 2nat, block.len(),
{
    if block.len() > 0 {
        lemma_height_last(block);
        lemma_names_last(block);
        lemma_infer_stmt_height(block.last(), scope);
        lemma_infer_stmt_names(block.last(), scope);
        let told = infer_stmt(block.last(), scope);
        let inside = infer_inner(told.stmt, scope);
        lemma_infer_inner_sound(told.stmt, scope);
        let rest = infer_walk(block.drop_last(), inside.scope);
        lemma_infer_walk_sound(block.drop_last(), inside.scope);
        lemma_settled_trans(scope, inside.scope, rest.scope);
        let after = rest.block.push(inside.stmt);
        assert(after.drop_last() =~= rest.block);
        assert(after.last() == inside.stmt);
        lemma_height_last(after);
        lemma_names_last(after);
        let whole = infer_walk(block, scope);
        assert forall|k: int| 0 <= k < whole.entries.len() implies block_names(block).contains(
            (#[trigger] whole.entries[k]).1,
        ) by {
            if k < told.entries.len() {
                assert(whole.entries[k] == told.entries[k]);
            } else {
                assert(whole.entries[k] == rest.entries[k - told.entries.len()]);
            }
        }
    }
}

/// Inference on the blocks inside a statement does what it may do.
pub proof fn lemma_infer_inner_sound(s: StmtModel, scope: ScopeModel)
    requires
        scope.wf(),
        scope.layers.len() > 0,
    ensures
        settled(scope, infer_inner(s, scope).scope),
        stmt_height(infer_inner(s, scope).stmt) <= stmt_height(s),
        stmt_names(infer_inner(s, scope).stmt).subset_of(stmt_names(s)),
    decreases stmt_height(s) + 1, 0nat, 1nat, arm_count(s) + 1,
{
    match s {
        StmtModel::If { condition, block_true, block_false } => {
            let yes = infer_block(block_true, scope);
            lemma_infer_block_sound(block_true, scope);
            let no = infer_block(block_false, yes.scope);
            lemma_infer_block_sound(block_false, yes.scope);
            lemma_settled_trans(scope, yes.scope, no.scope);
        },
        StmtModel::Switch { expression, cases } => {
            lemma_infer_cases_sound(cases, scope);
        },
        StmtModel::Thread { block } => {
            lemma_infer_block_sound(block, scope);
        },
        StmtModel::Loop { times, block } => {
            lemma_infer_block_sound(block, scope);
        },
        _ => {},
    }
}

/// Inference on the arms of a switch does what it may do.
pub proof fn lemma_infer_cases_sound(cases: Seq<(CaseModel, Seq<StmtModel>)>, scope: ScopeModel)
    requires
        scope.wf(),
        scope.layers.len() > 0,
    ensures
        settled(scope, infer_cases(cases, scope).scope),
        infer_cases(cases, scope).cases.len() == cases.len(),
        cases_height(infer_cases(cases, scope).cases) <= cases_height(cases),
        cases_names(infer_cases(cases, scope).cases).subset_of(cases_names(cases)),
    decreases cases_height(cases) + 1, 0nat, 0nat, cases.len(),
{
    if cases.len() > 0 {
        lemma_cases_height_last(cases);
        lemma_cases_names_last(cases);
        let before = infer_cases(cases.drop_last(), scope);
        lemma_infer_cases_sound(cases.drop_last(), scope);
        let body = infer_block(cases.last().1, before.scope);
        lemma_infer_block_sound(cases.last().1, before.scope);
        lemma_settled_trans(scope, before.scope, body.scope);
        let after = before.cases.push((cases.last().0, body.block));
        assert(after.drop_last() =~= before.cases);
        lemma_cases_height_last(after);
        lemma_cases_names_last(after);
    }
}

/// A pass that brings news brings inference nearer its end: fewer names
/// of the block are without a type than before, and the block nests no
/// deeper.
pub proof fn lemma_progress(block: Seq<StmtModel>, scope: ScopeModel)
    requires
        scope.wf(),
        scope.layers.len() > 0,
        apply_entries(infer_walk(block, scope).scope, infer_walk(block, scope).entries).1,
    ensures
        block_height(infer_walk(block, scope).block) <= block_height(block),
        unknown_count(
            apply_entries(infer_walk(block, scope).scope, infer_walk(block, scope).entries).0,
            infer_walk(block, scope).block,
        ) < unknown_count(scope, block),
{
    let pass = infer_walk(block, scope);
    let made = apply_entries(pass.scope, pass.entries);
    lemma_infer_walk_sound(block, scope);
    lemma_apply_entries_settled(pass.scope, pass.entries);
    lemma_settled_trans(scope, pass.scope, made.0);
    let k = lemma_news_witness(pass.scope, pass.entries);
    let x = pass.entries[k].1;
    let fewer = untyped(made.0, block_names(pass.block));
    let more = untyped(scope, block_names(block));
    assert(block_names(block).contains(x));
    if has_type(scope, x) {
        lemma_settled_has_type(scope, pass.scope, x);
    }
    assert(more.contains(x));
    assert(!fewer.contains(x));
    assert forall|n: Seq<char>| fewer.contains(n) implies more.contains(n) by {
        if has_type(scope, n) {
            lemma_settled_has_type(scope, made.0, n);
        }
    }
    lemma_names_finite(block, block.len() as int);
    vstd::set_lib::lemma_len_subset(more, block_names(block));
    fewer.lemma_subset_not_in_lt(more, x);
}

/// Whether what a walk gave is what the model says.
pub open spec fn walked_as(
    r: (Vec<Statement>, Vec<Entry>, Vec<TypeMismatch>),
    scope: ScopeModel,
    m: BlockInference,
) -> bool {
    block_view(r.0@) == m.block && scope == m.scope && entries_view(r.1@) == m.entries
        && mismatches_view(r.2@) == m.warnings
}

/// Appends the remarks in `more` to `warnings`.
pub(crate) fn append_warnings(warnings: &mut Vec<TypeMismatch>, more: Vec<TypeMismatch>)
    ensures
        mismatches_view(final(warnings)@) == mismatches_view(old(warnings)@) + mismatches_view(
            more@,
        ),
{
    let mut more = more;
    let ghost added = more@;
    warnings.append(&mut more);
    assert(mismatches_view(warnings@) =~= mismatches_view(old(warnings)@) + mismatches_view(added));
}

/// Appends the entries in `more` to `entries`.
fn append_entries(entries: &mut Vec<Entry>, more: Vec<Entry>)
    ensures
        entries_view(final(entries)@) == entries_view(old(entries)@) + entries_view(more@),
{
    let mut more = more;
    let ghost added = more@;
    entries.append(&mut more);
    assert(entries_view(entries@) =~= entries_view(old(entries)@) + entries_view(added));
}

/// One pass over a block, from its last statement to its first.
fn walk_block(block: Vec<Statement>, scope: &mut Scope) -> (r: (
    Vec<Statement>,
    Vec<Entry>,
    Vec<TypeMismatch>,
))
    requires
        old(scope)@.layers.len() > 0,
        old(scope)@.wf(),
    ensures
        walked_as(r, final(scope)@, infer_walk(block_view(block@), old(scope)@)),
        final(scope)@.layers.len() == old(scope)@.layers.len(),
        final(scope)@.wf(),
    decreases block_height(block_view(block@)), 0nat, 2nat, block.len(),
{
    let mut block = block;
    let ghost all = block@;
    match block.pop() {
        None => {
            assert(block_view(all) =~= Seq::empty());
            (block, no_entries(), no_warnings())
        },
        Some(last) => {
            assert(block_view(all).last() == last@);
            assert(block_view(all).drop_last() =~= block_view(block@));
            proof {
                lemma_height_last(block_view(all));
                lemma_infer_stmt_height(last@, scope@);
            }
            let (told, mut entries, mut warnings) = infer_statement(last, scope);
            let (inside, inner_warnings) = infer_inside(told, scope);
            let (mut rest, rest_entries, rest_warnings) = walk_block(block, scope);
            let ghost before = block_view(rest@);
            rest.push(inside);
            assert(block_view(rest@) =~= before.push(inside@));
            append_entries(&mut entries, rest_entries);
            append_warnings(&mut warnings, inner_warnings);
            append_warnings(&mut warnings, rest_warnings);
            (rest, entries, warnings)
        },
    }
}

/// Runs inference on the blocks inside a statement.
fn infer_inside(s: Statement, scope: &mut Scope) -> (r: (Statement, Vec<TypeMismatch>))
    requires
        old(scope)@.layers.len() > 0,
        old(scope)@.wf(),
    ensures
        ({
            let m = infer_inner(s@, old(scope)@);
            r.0@ == m.stmt && final(scope)@ == m.scope && mismatches_view(r.1@) == m.warnings
        }),
        final(scope)@.layers.len() == old(scope)@.layers.len(),
        final(scope)@.wf(),
    decreases stmt_height(s@) + 1, 0nat, 1nat, arm_count(s@) + 1,
{
    match s {
        Statement::If { condition, block_true, block_false } => {
            let (yes, mut warnings) = infer_rounds(block_true, scope);
            let (no, more) = infer_rounds(block_false, scope);
            append_warnings(&mut warnings, more);
            (Statement::If { condition, block_true: yes, block_false: no }, warnings)
        },
        Statement::Switch { expression, cases } => {
            let (arms, warnings) = infer_arms(cases, scope);
            (Statement::Switch { expression, cases: arms }, warnings)
        },
        Statement::Thread { block } => {
            let (body, warnings) = infer_rounds(block, scope);
            (Statement::Thread { block: body }, warnings)
        },
        Statement::Loop { times, block } => {
            let (body, warnings) = infer_rounds(block, scope);
            (Statement::Loop { times, block: body }, warnings)
        },
        other => (other, no_warnings()),
    }
}

/// Runs inference on the arms of a switch, from the first to the last.
fn infer_arms(cases: Vec<(Case, Vec<Statement>)>, scope: &mut Scope) -> (r: (
    Vec<(Case, Vec<Statement>)>,
    Vec<TypeMismatch>,
))
    requires
        old(scope)@.layers.len() > 0,
        old(scope)@.wf(),
    ensures
        ({
            let m = infer_cases(cases_view(cases@), old(scope)@);
            cases_view(r.0@) == m.cases && final(scope)@ == m.scope && mismatches_view(r.1@)
                == m.warnings
        }),
        final(scope)@.layers.len() == old(scope)@.layers.len(),
        final(scope)@.wf(),
    decreases cases_height(cases_view(cases@)) + 1, 0nat, 0nat, cases.len(),
{
    let mut cases = cases;
    let ghost all = cases@;
    match cases.pop() {
        None => {
            assert(cases_view(all) =~= Seq::empty());
            (cases, no_warnings())
        },
        Some(last) => {
            assert(cases_view(all).last() == (last.0@, block_view(last.1@)));
            assert(cases_view(all).drop_last() =~= cases_view(cases@));
            proof {
                lemma_cases_height_last(cases_view(all));
            }
            let (mut arms, mut warnings) = infer_arms(cases, scope);
            let (head, body) = last;
            let (inferred, more) = infer_rounds(body, scope);
            let ghost before = cases_view(arms@);
            let ghost arm = (head@, block_view(inferred@));
            arms.push((head, inferred));
            assert(cases_view(arms@) =~= before.push(arm));
            append_warnings(&mut warnings, more);
            (arms, warnings)
        },
    }
}

/// Runs passes over a block until one brings no news.
fn infer_rounds(block: Vec<Statement>, scope: &mut Scope) -> (r: (Vec<Statement>, Vec<TypeMismatch>))
    requires
        old(scope)@.layers.len() > 0,
        old(scope)@.wf(),
    ensures
        ({
            let m = infer_block(block_view(block@), old(scope)@);
            block_view(r.0@) == m.block && final(scope)@ == m.scope && mismatches_view(r.1@)
                == m.warnings
        }),
        final(scope)@.layers.len() == old(scope)@.layers.len(),
        final(scope)@.wf(),
    decreases block_height(block_view(block@)), 1nat, unknown_count(old(scope)@, block_view(block@)), 0nat,
{
    let ghost start = scope@;
    let ghost given = block_view(block@);
    let (walked, entries, mut warnings) = walk_block(block, scope);
    let (made, undone) = apply_inferred(scope, &entries);
    append_warnings(&mut warnings, undone);
    if made {
        proof {
            lemma_progress(given, start);
        }
        let (done, more) = infer_rounds(walked, scope);
        append_warnings(&mut warnings, more);
        (done, warnings)
    } else {
        (walked, warnings)
    }
}

/// Infers the types of the variables of a block from the way they are
/// used, enters them in the innermost layer of the scope, and brings the
/// declarations and literals of the block in line with them. Passes are
/// made over the block, and over every block inside it, until a pass
/// brings no news. An inference that would give a name another type
/// than the one it has is undone. Returns the block as rewritten and the
/// remarks: on declarations that disagree with the way their variable is
/// used, and on inferences that were undone. A remark never stops
/// inference.
pub fn infer_datatypes(block: Vec<Statement>, scope: &mut Scope) -> (r: (
    Vec<Statement>,
    Vec<TypeMismatch>,
))
    requires
        old(scope)@.layers.len() > 0,
        old(scope)@.wf(),
    ensures
        block_view(r.0@) == infer_block(block_view(block@), old(scope)@).block,
        final(scope)@ == infer_block(block_view(block@), old(scope)@).scope,
        mismatches_view(r.1@) == infer_block(block_view(block@), old(scope)@).warnings,
        final(scope)@.layers.len() == old(scope)@.layers.len(),
        final(scope)@.wf(),
{
    infer_rounds(block, scope)
}

} // verus!
