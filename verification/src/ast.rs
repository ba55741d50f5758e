//! The statement tree that decompiled scripts are held in, and the
//! mathematical model of each of its node types.

use vstd::prelude::*;
use crate::datatype::{DataType, TypeModel};

verus! {

/// A name in script source.
#[derive(Debug, PartialEq, Eq, Hash, PartialOrd, Ord)]
pub struct Identifier(pub String);

impl View for Identifier {
    type V = Seq<char>;

    open spec fn view(&self) -> Seq<char> {
        self.0@
    }
}

impl Clone for Identifier {
    fn clone(&self) -> (r: Identifier)
        ensures
            r@ == self@,
    {
        Identifier(self.0.clone())
    }
}

/// A call target or trigger subject: a name, or an address that may yet
/// get one.
#[derive(Debug, PartialEq, Eq, Hash, PartialOrd, Ord)]
pub enum IdentifierOrPointer {
    Identifier(Identifier),
    Pointer(u32),
}

/// An `IdentifierOrPointer` as a mathematical value.
pub enum TargetModel {
    Name(Seq<char>),
    Pointer(u32),
}

impl View for IdentifierOrPointer {
    type V = TargetModel;

    open spec fn view(&self) -> TargetModel {
        match self {
            IdentifierOrPointer::Identifier(id) => TargetModel::Name(id@),
            IdentifierOrPointer::Pointer(ptr) => TargetModel::Pointer(*ptr),
        }
    }
}

impl Clone for IdentifierOrPointer {
    fn clone(&self) -> (r: IdentifierOrPointer)
        ensures
            r@ == self@,
    {
        match self {
            IdentifierOrPointer::Identifier(id) => IdentifierOrPointer::Identifier(id.clone()),
            IdentifierOrPointer::Pointer(ptr) => IdentifierOrPointer::Pointer(*ptr),
        }
    }
}

/// A number with ten binary places: `raw` is the value times 1024.
#[derive(Debug, Clone, Copy, PartialEq, Eq, Hash, Structural)]
pub struct Fixed {
    pub raw: i64,
}

#[derive(Debug, Clone, Copy, PartialEq, Eq, Hash, Structural)]
pub enum Operator {
    // Arithmetic
    Add,
    Sub,
    Mul,
    Div,
    Mod,
    // Logic
    Eq,
    Ne,
    Gt,
    Lt,
    Gte,
    Lte,
    BitAndZ,
    BitAndNz,
    And,
    Or,
    Not,
}

#[derive(Debug, Clone, Copy, PartialEq, Eq, Hash, Structural)]
pub enum AssignmentOperator {
    Eq,
    Add,
    Sub,
    Mul,
    Div,
    Mod,
}

#[derive(Debug, Clone, Copy, PartialEq, Eq, Hash, Structural)]
pub enum TimeUnit {
    Frames,
    Seconds,
}

#[derive(Debug, Clone, Copy, PartialEq, Eq, Hash, Structural)]
pub enum TriggerObj {
    Collider(u32),
    Entity(u8),
}

#[derive(Debug, PartialEq, Eq)]
pub enum Expression {
    LiteralInt(u32),
    LiteralFloat(Fixed),
    LiteralBool(bool),
    Identifier(Identifier),
    ArrayIndex(Identifier, u8),
    Operation { lhs: Box<Expression>, op: Operator, rhs: Box<Expression> },
}

/// An `Expression` as a mathematical value.
pub enum ExprModel {
    Int(u32),
    Float(Fixed),
    Bool(bool),
    Name(Seq<char>),
    ArrayIndex(Seq<char>, u8),
    Operation { lhs: Box<ExprModel>, op: Operator, rhs: Box<ExprModel> },
}

/// The model of one expression.
pub open spec fn expr_view(e: Expression) -> ExprModel
    decreases e,
{
    match e {
        Expression::LiteralInt(v) => ExprModel::Int(v),
        Expression::LiteralFloat(v) => ExprModel::Float(v),
        Expression::LiteralBool(v) => ExprModel::Bool(v),
        Expression::Identifier(id) => ExprModel::Name(id@),
        Expression::ArrayIndex(id, idx) => ExprModel::ArrayIndex(id@, idx),
        Expression::Operation { lhs, op, rhs } => ExprModel::Operation {
            lhs: Box::new(expr_view(*lhs)),
            op,
            rhs: Box::new(expr_view(*rhs)),
        },
    }
}

impl View for Expression {
    type V = ExprModel;

    open spec fn view(&self) -> ExprModel {
        expr_view(*self)
    }
}

impl Clone for Expression {
    fn clone(&self) -> (r: Expression)
        ensures
            r@ == self@,
        decreases *self,
    {
        match self {
            Expression::LiteralInt(v) => Expression::LiteralInt(*v),
            Expression::LiteralFloat(v) => Expression::LiteralFloat(*v),
            Expression::LiteralBool(v) => Expression::LiteralBool(*v),
            Expression::Identifier(id) => Expression::Identifier(id.clone()),
            Expression::ArrayIndex(id, idx) => Expression::ArrayIndex(id.clone(), *idx),
            Expression::Operation { lhs, op, rhs } => Expression::Operation {
                lhs: Box::new((**lhs).clone()),
                op: *op,
                rhs: Box::new((**rhs).clone()),
            },
        }
    }
}

/// The model of each expression in a list, in order.
pub open spec fn exprs_view(exprs: Seq<Expression>) -> Seq<ExprModel> {
    Seq::new(exprs.len(), |i: int| exprs[i]@)
}

/// How a call relates to the thread that makes it.
#[derive(Debug, PartialEq, Eq)]
pub enum MethodThreading {
    /// `method()`
    No,
    /// `thread method()`
    Yes,
    /// `var = thread method()`
    Assign(Identifier),
}

/// A `MethodThreading` as a mathematical value.
pub enum ThreadingModel {
    No,
    Yes,
    Assign(Seq<char>),
}

impl View for MethodThreading {
    type V = ThreadingModel;

    open spec fn view(&self) -> ThreadingModel {
        match self {
            MethodThreading::No => ThreadingModel::No,
            MethodThreading::Yes => ThreadingModel::Yes,
            MethodThreading::Assign(id) => ThreadingModel::Assign(id@),
        }
    }
}

/// The event that a bound script waits for.
#[derive(Debug, PartialEq, Eq)]
pub enum Trigger {
    FloorTouch(TriggerObj),
    FloorAbove(TriggerObj),
    FloorInteract(TriggerObj),
    FloorJump(TriggerObj),
    WallTouch(TriggerObj),
    WallPush(TriggerObj),
    WallInteract(TriggerObj),
    WallHammer(TriggerObj),
    CeilingTouch(TriggerObj),
    /// Address of (x, y, z, radius).
    Bomb(IdentifierOrPointer),
    /// Area flags and map flags only.
    FlagChange(Identifier),
}

/// A `Trigger` as a mathematical value.
pub enum TriggerModel {
    FloorTouch(TriggerObj),
    FloorAbove(TriggerObj),
    FloorInteract(TriggerObj),
    FloorJump(TriggerObj),
    WallTouch(TriggerObj),
    WallPush(TriggerObj),
    WallInteract(TriggerObj),
    WallHammer(TriggerObj),
    CeilingTouch(TriggerObj),
    Bomb(TargetModel),
    FlagChange(Seq<char>),
}

impl View for Trigger {
    type V = TriggerModel;

    open spec fn view(&self) -> TriggerModel {
        match self {
            Trigger::FloorTouch(obj) => TriggerModel::FloorTouch(*obj),
            Trigger::FloorAbove(obj) => TriggerModel::FloorAbove(*obj),
            Trigger::FloorInteract(obj) => TriggerModel::FloorInteract(*obj),
            Trigger::FloorJump(obj) => TriggerModel::FloorJump(*obj),
            Trigger::WallTouch(obj) => TriggerModel::WallTouch(*obj),
            Trigger::WallPush(obj) => TriggerModel::WallPush(*obj),
            Trigger::WallInteract(obj) => TriggerModel::WallInteract(*obj),
            Trigger::WallHammer(obj) => TriggerModel::WallHammer(*obj),
            Trigger::CeilingTouch(obj) => TriggerModel::CeilingTouch(*obj),
            Trigger::Bomb(target) => TriggerModel::Bomb(target@),
            Trigger::FlagChange(id) => TriggerModel::FlagChange(id@),
        }
    }
}

/// The head of one arm of a switch.
#[derive(Debug, PartialEq, Eq)]
pub enum Case {
    Default,
    Test { operator: Operator, against: Expression },
}

/// A `Case` as a mathematical value.
pub enum CaseModel {
    Default,
    Test { operator: Operator, against: ExprModel },
}

impl View for Case {
    type V = CaseModel;

    open spec fn view(&self) -> CaseModel {
        match self {
            Case::Default => CaseModel::Default,
            Case::Test { operator, against } => CaseModel::Test {
                operator: *operator,
                against: against@,
            },
        }
    }
}

/// How often a loop runs.
#[derive(Debug, PartialEq, Eq)]
pub enum LoopTimes {
    Infinite,
    Expression(Expression),
}

/// A `LoopTimes` as a mathematical value.
pub enum LoopModel {
    Infinite,
    Times(ExprModel),
}

impl View for LoopTimes {
    type V = LoopModel;

    open spec fn view(&self) -> LoopModel {
        match self {
            LoopTimes::Infinite => LoopModel::Infinite,
            LoopTimes::Expression(e) => LoopModel::Times(e@),
        }
    }
}

#[allow(inconsistent_fields)]
#[derive(Debug, PartialEq, Eq)]
pub enum Statement {
    Return,
    Label { name: String },
    Goto { label_name: String },
    VarAssign { operator: AssignmentOperator, identifier: Identifier, expression: Expression },
    VarDeclare { datatype: DataType, identifier: Identifier, expression: Option<Expression> },
    MethodCall {
        method: IdentifierOrPointer,
        arguments: Vec<Expression>,
        threading: MethodThreading,
        /// Whether the call came from an opcode that starts a script rather
        /// than one that calls native code. Type inference goes by it when
        /// it meets a target that it does not know.
        bc_is_func: bool,
    },
    Wait { time: Expression, unit: TimeUnit },
    Bind { trigger: Trigger, dispatch: IdentifierOrPointer },
    Unbind,
    BreakLoop,
    BreakCase,
    If { condition: Expression, block_true: Vec<Statement>, block_false: Vec<Statement> },
    Switch { expression: Expression, cases: Vec<(Case, Vec<Statement>)> },
    Thread { block: Vec<Statement> },
    Loop { times: LoopTimes, block: Vec<Statement> },
}

/// A `Statement` as a mathematical value.
#[allow(inconsistent_fields)]
pub enum StmtModel {
    Return,
    Label { name: Seq<char> },
    Goto { label_name: Seq<char> },
    VarAssign { operator: AssignmentOperator, identifier: Seq<char>, expression: ExprModel },
    VarDeclare { datatype: TypeModel, identifier: Seq<char>, expression: Option<ExprModel> },
    MethodCall {
        method: TargetModel,
        arguments: Seq<ExprModel>,
        threading: ThreadingModel,
        bc_is_func: bool,
    },
    Wait { time: ExprModel, unit: TimeUnit },
    Bind { trigger: TriggerModel, dispatch: TargetModel },
    Unbind,
    BreakLoop,
    BreakCase,
    If { condition: ExprModel, block_true: Seq<StmtModel>, block_false: Seq<StmtModel> },
    Switch { expression: ExprModel, cases: Seq<(CaseModel, Seq<StmtModel>)> },
    Thread { block: Seq<StmtModel> },
    Loop { times: LoopModel, block: Seq<StmtModel> },
}

/// The model of each statement of a block, in order.
pub open spec fn block_view(block: Seq<Statement>) -> Seq<StmtModel>
    decreases block, 0nat,
{
    Seq::new(
        block.len(),
        |i: int|
            if 0 <= i < block.len() {
                stmt_view(block[i])
            } else {
                StmtModel::Return
            },
    )
}

/// The model of each arm of a switch, in order.
pub open spec fn cases_view(cases: Seq<(Case, Vec<Statement>)>) -> Seq<(CaseModel, Seq<StmtModel>)>
    decreases cases, 0nat,
{
    Seq::new(
        cases.len(),
        |i: int|
            if 0 <= i < cases.len() {
                (cases[i].0@, block_view(cases[i].1@))
            } else {
                (CaseModel::Default, Seq::empty())
            },
    )
}

/// The model of one statement.
pub open spec fn stmt_view(s: Statement) -> StmtModel
    decreases s, 1nat,
{
    match s {
        Statement::Return => StmtModel::Return,
        Statement::Label { name } => StmtModel::Label { name: name@ },
        Statement::Goto { label_name } => StmtModel::Goto { label_name: label_name@ },
        Statement::VarAssign { operator, identifier, expression } => StmtModel::VarAssign {
            operator,
            identifier: identifier@,
            expression: expression@,
        },
        Statement::VarDeclare { datatype, identifier, expression } => StmtModel::VarDeclare {
            datatype: datatype@,
            identifier: identifier@,
            expression: match expression {
                Some(e) => Some(e@),
                None => None,
            },
        },
        Statement::MethodCall { method, arguments, threading, bc_is_func } => {
            StmtModel::MethodCall {
                method: method@,
                arguments: exprs_view(arguments@),
                threading: threading@,
                bc_is_func,
            }
        },
        Statement::Wait { time, unit } => StmtModel::Wait { time: time@, unit },
        Statement::Bind { trigger, dispatch } => StmtModel::Bind {
            trigger: trigger@,
            dispatch: dispatch@,
        },
        Statement::Unbind => StmtModel::Unbind,
        Statement::BreakLoop => StmtModel::BreakLoop,
        Statement::BreakCase => StmtModel::BreakCase,
        Statement::If { condition, block_true, block_false } => StmtModel::If {
            condition: condition@,
            block_true: block_view(block_true@),
            block_false: block_view(block_false@),
        },
        Statement::Switch { expression, cases } => StmtModel::Switch {
            expression: expression@,
            cases: cases_view(cases@),
        },
        Statement::Thread { block } => StmtModel::Thread { block: block_view(block@) },
        Statement::Loop { times, block } => StmtModel::Loop {
            times: times@,
            block: block_view(block@),
        },
    }
}

impl View for Statement {
    type V = StmtModel;

    open spec fn view(&self) -> StmtModel {
        stmt_view(*self)
    }
}

/// A top-level item of a script.
#[derive(Debug, PartialEq, Eq)]
pub enum Declaration {
    Fun { name: IdentifierOrPointer, arguments: Vec<(Identifier, DataType)>, block: Vec<Statement> },
}

/// A `Declaration` as a mathematical value.
pub enum DeclModel {
    Fun { name: TargetModel, arguments: Seq<(Seq<char>, TypeModel)>, block: Seq<StmtModel> },
}

/// The model of each parameter of a function, in order.
pub open spec fn params_view(params: Seq<(Identifier, DataType)>) -> Seq<(Seq<char>, TypeModel)> {
    Seq::new(params.len(), |i: int| (params[i].0@, params[i].1@))
}

impl View for Declaration {
    type V = DeclModel;

    open spec fn view(&self) -> DeclModel {
        match self {
            Declaration::Fun { name, arguments, block } => DeclModel::Fun {
                name: name@,
                arguments: params_view(arguments@),
                block: block_view(block@),
            },
        }
    }
}

/// The model of each declaration of a list, in order.
pub open spec fn decls_view(decls: Seq<Declaration>) -> Seq<DeclModel> {
    Seq::new(decls.len(), |i: int| decls[i]@)
}

/// A whole script: its declarations in order.
#[derive(Debug, PartialEq, Eq)]
pub struct Script(pub Vec<Declaration>);

impl View for Script {
    type V = Seq<DeclModel>;

    open spec fn view(&self) -> Seq<DeclModel> {
        decls_view(self.0@)
    }
}

/// The model of two blocks in a row is the two models in a row.
pub proof fn lemma_block_view_add(a: Seq<Statement>, b: Seq<Statement>)
    ensures
        block_view(a + b) == block_view(a) + block_view(b),
{
    assert(block_view(a + b) =~= block_view(a) + block_view(b));
}

/// The model of each block of a list, in order.
pub open spec fn blocks_view(blocks: Seq<&Vec<Statement>>) -> Seq<Seq<StmtModel>> {
    Seq::new(blocks.len(), |i: int| block_view(blocks[i]@))
}

/// The blocks that stand directly inside a statement, in the order in
/// which they are written: the two branches of a conditional, the arms of
/// a switch, the body of a thread or of a loop.
pub open spec fn inner_of(s: StmtModel) -> Seq<Seq<StmtModel>> {
    match s {
        StmtModel::If { condition, block_true, block_false } => seq![block_true, block_false],
        StmtModel::Switch { expression, cases } => Seq::new(cases.len(), |i: int| cases[i].1),
        StmtModel::Thread { block } => seq![block],
        StmtModel::Loop { times, block } => seq![block],
        _ => Seq::empty(),
    }
}

/// Nodes that hold blocks of statements.
pub trait InnerBlocks {
    /// The blocks that stand directly inside the node.
    spec fn inner_models(&self) -> Seq<Seq<StmtModel>>;

    /// The blocks that stand directly inside the node, in the order in
    /// which they are written.
    fn inner_blocks(&self) -> (blocks: Vec<&Vec<Statement>>)
        ensures
            blocks_view(blocks@) == self.inner_models(),
    ;
}

impl InnerBlocks for Declaration {
    open spec fn inner_models(&self) -> Seq<Seq<StmtModel>> {
        match self@ {
            DeclModel::Fun { name, arguments, block } => seq![block],
        }
    }

    fn inner_blocks(&self) -> (blocks: Vec<&Vec<Statement>>) {
        match self {
            Declaration::Fun { block, .. } => {
                let mut blocks: Vec<&Vec<Statement>> = Vec::new();
                blocks.push(block);
                assert(blocks_view(blocks@) =~= seq![block_view(block@)]);
                blocks
            },
        }
    }
}

impl InnerBlocks for Statement {
    open spec fn inner_models(&self) -> Seq<Seq<StmtModel>> {
        inner_of(self@)
    }

    fn inner_blocks(&self) -> (blocks: Vec<&Vec<Statement>>) {
        let mut blocks: Vec<&Vec<Statement>> = Vec::new();
        match self {
            Statement::If { block_true, block_false, .. } => {
                blocks.push(block_true);
                blocks.push(block_false);
                assert(blocks_view(blocks@) =~= seq![
                    block_view(block_true@),
                    block_view(block_false@),
                ]);
            },
            Statement::Switch { cases, .. } => {
                let mut i: usize = 0;
                while i < cases.len()
                    invariant
                        i <= cases.len(),
                        blocks@.len() == i,
                        forall|j: int| 0 <= j < i ==> blocks@[j]@ == cases@[j].1@,
                    decreases cases.len() - i,
                {
                    blocks.push(&cases[i].1);
                    i += 1;
                }
                assert(blocks_view(blocks@) =~= inner_of(self@));
            },
            Statement::Thread { block } => {
                blocks.push(block);
                assert(blocks_view(blocks@) =~= seq![block_view(block@)]);
            },
            Statement::Loop { block, .. } => {
                blocks.push(block);
                assert(blocks_view(blocks@) =~= seq![block_view(block@)]);
            },
            _ => {
                assert(blocks_view(blocks@) =~= Seq::<Seq<StmtModel>>::empty());
            },
        }
        blocks
    }
}

impl Clone for MethodThreading {
    fn clone(&self) -> (r: MethodThreading)
        ensures
            r@ == self@,
    {
        match self {
            MethodThreading::No => MethodThreading::No,
            MethodThreading::Yes => MethodThreading::Yes,
            MethodThreading::Assign(id) => MethodThreading::Assign(id.clone()),
        }
    }
}

impl Clone for Trigger {
    fn clone(&self) -> (r: Trigger)
        ensures
            r@ == self@,
    {
        match self {
            Trigger::FloorTouch(obj) => Trigger::FloorTouch(*obj),
            Trigger::FloorAbove(obj) => Trigger::FloorAbove(*obj),
            Trigger::FloorInteract(obj) => Trigger::FloorInteract(*obj),
            Trigger::FloorJump(obj) => Trigger::FloorJump(*obj),
            Trigger::WallTouch(obj) => Trigger::WallTouch(*obj),
            Trigger::WallPush(obj) => Trigger::WallPush(*obj),
            Trigger::WallInteract(obj) => Trigger::WallInteract(*obj),
            Trigger::WallHammer(obj) => Trigger::WallHammer(*obj),
            Trigger::CeilingTouch(obj) => Trigger::CeilingTouch(*obj),
            Trigger::Bomb(target) => Trigger::Bomb(target.clone()),
            Trigger::FlagChange(id) => Trigger::FlagChange(id.clone()),
        }
    }
}

impl Clone for Case {
    fn clone(&self) -> (r: Case)
        ensures
            r@ == self@,
    {
        match self {
            Case::Default => Case::Default,
            Case::Test { operator, against } => Case::Test {
                operator: *operator,
                against: against.clone(),
            },
        }
    }
}

impl Clone for LoopTimes {
    fn clone(&self) -> (r: LoopTimes)
        ensures
            r@ == self@,
    {
        match self {
            LoopTimes::Infinite => LoopTimes::Infinite,
            LoopTimes::Expression(e) => LoopTimes::Expression(e.clone()),
        }
    }
}

/// A copy of a list of expressions.
pub fn clone_expressions(exprs: &Vec<Expression>) -> (r: Vec<Expression>)
    ensures
        exprs_view(r@) == exprs_view(exprs@),
{
    let mut r: Vec<Expression> = Vec::new();
    let mut i: usize = 0;
    while i < exprs.len()
        invariant
            i <= exprs.len(),
            r@.len() == i,
            forall|j: int| 0 <= j < i ==> r@[j]@ == exprs@[j]@,
        decreases exprs.len() - i,
    {
        r.push(exprs[i].clone());
        i += 1;
    }
    assert(exprs_view(r@) =~= exprs_view(exprs@));
    r
}

/// A copy of a block.
pub fn clone_block(block: &Vec<Statement>) -> (r: Vec<Statement>)
    ensures
        block_view(r@) == block_view(block@),
    decreases *block, 0nat,
{
    let mut r: Vec<Statement> = Vec::new();
    let mut i: usize = 0;
    while i < block.len()
        invariant
            i <= block.len(),
            r@.len() == i,
            forall|j: int| 0 <= j < i ==> r@[j]@ == block@[j]@,
        decreases block.len() - i,
    {
        r.push(block[i].clone());
        i += 1;
    }
    assert(block_view(r@) =~= block_view(block@));
    r
}

/// A copy of the arms of a switch.
pub fn clone_cases(cases: &Vec<(Case, Vec<Statement>)>) -> (r: Vec<(Case, Vec<Statement>)>)
    ensures
        cases_view(r@) == cases_view(cases@),
    decreases *cases, 1nat,
{
    let mut r: Vec<(Case, Vec<Statement>)> = Vec::new();
    let mut i: usize = 0;
    while i < cases.len()
        invariant
            i <= cases.len(),
            r@.len() == i,
            forall|j: int|
                0 <= j < i ==> r@[j].0@ == cases@[j].0@ && block_view(r@[j].1@) == block_view(
                    cases@[j].1@,
                ),
        decreases cases.len() - i,
    {
        assert(decreases_to!(*cases => cases@));
        assert(decreases_to!(cases@ => cases@[i as int]));
        assert(decreases_to!(cases@[i as int] => cases@[i as int].1));
        let head = cases[i].0.clone();
        let body = clone_block(&cases[i].1);
        r.push((head, body));
        i += 1;
    }
    assert(cases_view(r@) =~= cases_view(cases@));
    r
}

impl Clone for Statement {
    fn clone(&self) -> (r: Statement)
        ensures
            r@ == self@,
        decreases *self, 2nat,
    {
        match self {
            Statement::Return => Statement::Return,
            Statement::Label { name } => Statement::Label { name: name.clone() },
            Statement::Goto { label_name } => Statement::Goto { label_name: label_name.clone() },
            Statement::VarAssign { operator, identifier, expression } => Statement::VarAssign {
                operator: *operator,
                identifier: identifier.clone(),
                expression: expression.clone(),
            },
            Statement::VarDeclare { datatype, identifier, expression } => Statement::VarDeclare {
                datatype: datatype.clone(),
                identifier: identifier.clone(),
                expression: match expression {
                    Some(e) => Some(e.clone()),
                    None => None,
                },
            },
            Statement::MethodCall { method, arguments, threading, bc_is_func } => {
                Statement::MethodCall {
                    method: method.clone(),
                    arguments: clone_expressions(arguments),
                    threading: threading.clone(),
                    bc_is_func: *bc_is_func,
                }
            },
            Statement::Wait { time, unit } => Statement::Wait { time: time.clone(), unit: *unit },
            Statement::Bind { trigger, dispatch } => Statement::Bind {
                trigger: trigger.clone(),
                dispatch: dispatch.clone(),
            },
            Statement::Unbind => Statement::Unbind,
            Statement::BreakLoop => Statement::BreakLoop,
            Statement::BreakCase => Statement::BreakCase,
            Statement::If { condition, block_true, block_false } => Statement::If {
                condition: condition.clone(),
                block_true: clone_block(block_true),
                block_false: clone_block(block_false),
            },
            Statement::Switch { expression, cases } => Statement::Switch {
                expression: expression.clone(),
                cases: clone_cases(cases),
            },
            Statement::Thread { block } => Statement::Thread { block: clone_block(block) },
            Statement::Loop { times, block } => Statement::Loop {
                times: times.clone(),
                block: clone_block(block),
            },
        }
    }
}

impl Clone for Declaration {
    fn clone(&self) -> (r: Declaration)
        ensures
            r@ == self@,
    {
        match self {
            Declaration::Fun { name, arguments, block } => {
                let mut params: Vec<(Identifier, DataType)> = Vec::new();
                let mut i: usize = 0;
                while i < arguments.len()
                    invariant
                        i <= arguments.len(),
                        params@.len() == i,
                        forall|j: int|
                            0 <= j < i ==> params@[j].0@ == arguments@[j].0@ && params@[j].1@
                                == arguments@[j].1@,
                    decreases arguments.len() - i,
                {
                    params.push((arguments[i].0.clone(), arguments[i].1.clone()));
                    i += 1;
                }
                assert(params_view(params@) =~= params_view(arguments@));
                Declaration::Fun { name: name.clone(), arguments: params, block: clone_block(block) }
            },
        }
    }
}

} // verus!
