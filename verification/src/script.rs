//! Decompiling the scripts of a map: rebuilding each script's statements,
//! filling in the arguments that calls pass without saying so, inferring
//! the types of variables, and writing the result out as source text.

use vstd::prelude::*;
use vstd::string::StringExecFns;
use crate::ast::{
    decls_view, Declaration, DeclModel, Identifier, IdentifierOrPointer, StmtModel, TargetModel,
};
use crate::bytecode::{
    declare_seen, parse_script, read_operations, read_ops, without_final_return, Bytecode, OpModel,
};
use crate::capture::{capture_block, fix_call_arg_capture};
use crate::datatype::{types_view, DataType, TypeModel};
use crate::infer::{
    append_warnings, infer_block, infer_datatypes, lemma_insert, mismatches_view, no_warnings,
    MismatchModel, TypeMismatch,
};
use crate::loc::{Dma, Location, Text};
use crate::rom::Rom;
use crate::scope::{entries_view, Entry, EntryModel, Scope, ScopeModel};
use crate::text::{join, joined, strings_view};
use crate::unparse::{decl_text, unparse_declaration};

verus! {

/// Why the scripts of a map could not be decompiled.
#[derive(Debug, Clone, Copy, PartialEq, Eq, Structural)]
pub enum Error {
    /// A script is not well formed.
    BytecodeDecompile(crate::bytecode::Error),
    /// A script lies at an address below the runtime address of its map.
    BadAddress(u32),
    /// Scripts call scripts that call scripts, deeper than was allowed.
    TooDeep,
}

/// A script that is known before any script is read: its address, its
/// name and its type.
pub type KnownMethod = (u32, String, DataType);

/// What decompilation has gathered: the scope, the addresses of the
/// scripts that were read, the declarations made, and the remarks.
pub struct EnvModel {
    pub scope: ScopeModel,
    pub visited: Seq<u32>,
    pub declarations: Seq<DeclModel>,
    pub warnings: Seq<MismatchModel>,
}

/// The statements of a whole script and the scope after its words and
/// flags were brought into it.
pub open spec fn decompiled(ops: Seq<OpModel>, pos: int, seen: Seq<crate::arg::Arg>, scope: ScopeModel) -> Result<
    (Seq<StmtModel>, ScopeModel),
    crate::bytecode::Error,
> {
    match parse_script(ops, pos, seen) {
        Ok(p) => Ok((without_final_return(p.stmts), declare_seen(scope, p.seen))),
        Err(e) => Err(e),
    }
}

/// What decompiling one script adds to what was gathered. The script is
/// read in a layer of its own: its statements are rebuilt, its calls get
/// the arguments they capture, its types are inferred. Then the layer is
/// taken off, the scripts and the native code that it found are entered
/// in the layer below, and each script found is decompiled in turn. The
/// script's own declaration comes after those of the scripts it found.
pub open spec fn decompile_fun_model(
    name: Seq<char>,
    ops: Seq<OpModel>,
    pos: int,
    seen: Seq<crate::arg::Arg>,
    env: EnvModel,
    bytes: Seq<u8>,
    dma: Dma,
    depth: nat,
) -> Result<EnvModel, Error>
    decreases depth, 1nat, 0nat,
{
    match decompiled(ops, pos, seen, env.scope.push()) {
        Err(e) => Err(Error::BytecodeDecompile(e)),
        Ok((block, scope)) => {
            let told = infer_block(capture_block(block, scope), scope);
            let found = told.scope.layers.last().flatten();
            let below = EnvModel {
                scope: told.scope.pop(),
                visited: env.visited,
                declarations: env.declarations,
                warnings: env.warnings + told.warnings,
            };
            match follow_model(found, below, bytes, dma, depth) {
                Err(e) => Err(e),
                Ok(after) => Ok(
                    EnvModel {
                        scope: after.scope,
                        visited: after.visited,
                        declarations: after.declarations.push(
                            DeclModel::Fun {
                                name: TargetModel::Name(name),
                                arguments: Seq::empty(),
                                block: told.block,
                            },
                        ),
                        warnings: after.warnings,
                    },
                ),
            }
        },
    }
}

/// What following the entries of a layer adds to what was gathered. An
/// address that was found to be a script is entered in the scope and, if
/// no script was read from it before, the script there is read from the
/// ROM and decompiled. An address that was found to be native code is
/// entered in the scope. Names without an address are dropped with their
/// layer.
pub open spec fn follow_model(
    found: Seq<EntryModel>,
    env: EnvModel,
    bytes: Seq<u8>,
    dma: Dma,
    depth: nat,
) -> Result<EnvModel, Error>
    decreases depth, 0nat, found.len(),
{
    if found.len() == 0 {
        Ok(env)
    } else {
        let rest = found.skip(1);
        match (found[0].0, found[0].2) {
            (Some(ptr), TypeModel::Fun(args)) => {
                let entered = EnvModel {
                    scope: env.scope.insert_ptr(ptr, found[0].1, TypeModel::Fun(args)),
                    visited: env.visited,
                    declarations: env.declarations,
                    warnings: env.warnings,
                };
                if env.visited.contains(ptr) {
                    follow_model(rest, entered, bytes, dma, depth)
                } else if depth == 0 {
                    Err(Error::TooDeep)
                } else if ptr < dma.dest {
                    Err(Error::BadAddress(ptr))
                } else {
                    match read_ops(bytes, dma.start + (ptr - dma.dest)) {
                        Err(e) => Err(Error::BytecodeDecompile(e)),
                        Ok((ops, _)) => match decompile_fun_model(
                            found[0].1,
                            ops,
                            0,
                            Seq::empty(),
                            EnvModel {
                                scope: entered.scope,
                                visited: env.visited.push(ptr),
                                declarations: env.declarations,
                                warnings: env.warnings,
                            },
                            bytes,
                            dma,
                            (depth - 1) as nat,
                        ) {
                            Err(e) => Err(e),
                            Ok(after) => follow_model(rest, after, bytes, dma, depth),
                        },
                    }
                }
            },
            (Some(ptr), TypeModel::Asm(args)) => follow_model(
                rest,
                EnvModel {
                    scope: env.scope.insert_ptr(ptr, found[0].1, TypeModel::Asm(args)),
                    visited: env.visited,
                    declarations: env.declarations,
                    warnings: env.warnings,
                },
                bytes,
                dma,
                depth,
            ),
            _ => follow_model(rest, env, bytes, dma, depth),
        }
    }
}

/// What decompilation has gathered.
pub struct DecompEnv {
    pub scope: Scope,
    pub visited: Vec<u32>,
    pub declarations: Vec<Declaration>,
    pub warnings: Vec<TypeMismatch>,
}

impl View for DecompEnv {
    type V = EnvModel;

    open spec fn view(&self) -> EnvModel {
        EnvModel {
            scope: self.scope@,
            visited: self.visited@,
            declarations: decls_view(self.declarations@),
            warnings: mismatches_view(self.warnings@),
        }
    }
}

fn was_visited(visited: &Vec<u32>, ptr: u32) -> (b: bool)
    ensures
        b == visited@.contains(ptr),
{
    let mut i: usize = 0;
    while i < visited.len()
        invariant
            i <= visited.len(),
            forall|j: int| 0 <= j < i ==> visited@[j] != ptr,
        decreases visited.len() - i,
    {
        if visited[i] == ptr {
            return true;
        }
        i += 1;
    }
    false
}

/// Decompiles one script and, after it, the scripts that it refers to.
pub fn decompile_fun(
    name: String,
    bc: Bytecode,
    env: DecompEnv,
    rom: &Rom,
    dma: &Dma,
    depth: usize,
) -> (r: Result<DecompEnv, Error>)
    requires
        env@.scope.layers.len() > 0,
        env@.scope.wf(),
    ensures
        match decompile_fun_model(
            name@,
            bc.ops(),
            bc.pos(),
            bc.seen(),
            env@,
            rom.bytes(),
            *dma,
            depth as nat,
        ) {
            Ok(m) => r matches Ok(after) && after@ == m && m.scope.layers.len()
                == env@.scope.layers.len() && m.scope.wf(),
            Err(e) => r matches Err(f) && f == e,
        },
    decreases depth, 1nat, 0nat,
{
    let ghost start = env@;
    let ghost ops = bc.ops();
    let ghost pos = bc.pos();
    let ghost seen = bc.seen();
    let mut env = env;
    env.scope.push();
    let ghost pushed = env.scope@;
    let block = match bc.decompile(&mut env.scope) {
        Err(e) => {
            return Err(Error::BytecodeDecompile(e));
        },
        Ok(b) => b,
    };
    proof {
        match parse_script(ops, pos, seen) {
            Ok(p) => {
                crate::bytecode::lemma_declare_seen(pushed, p.seen);
            },
            Err(e) => {},
        }
    }
    let block = fix_call_arg_capture(block, &env.scope);
    let (block, warnings) = infer_datatypes(block, &mut env.scope);
    append_warnings(&mut env.warnings, warnings);
    let found = match env.scope.pop() {
        Some(f) => f,
        None => Vec::new(),
    };
    assert(entries_view(found@).skip(0) =~= entries_view(found@));
    let mut env = match follow(&found, 0, env, rom, dma, depth) {
        Err(e) => {
            return Err(e);
        },
        Ok(after) => after,
    };
    let ghost before = decls_view(env.declarations@);
    let declaration = Declaration::Fun {
        name: IdentifierOrPointer::Identifier(Identifier(name)),
        arguments: Vec::new(),
        block,
    };
    assert(crate::ast::params_view(Seq::<(Identifier, DataType)>::empty()) =~= Seq::empty());
    let ghost added = declaration@;
    env.declarations.push(declaration);
    assert(decls_view(env.declarations@) =~= before.push(added));
    Ok(env)
}

/// Enters the scripts and the native code that a layer found, from the
/// entry at `from` on, and decompiles each script that was not read
/// before.
pub fn follow(
    found: &Vec<Entry>,
    from: usize,
    env: DecompEnv,
    rom: &Rom,
    dma: &Dma,
    depth: usize,
) -> (r: Result<DecompEnv, Error>)
    requires
        env@.scope.layers.len() > 0,
        env@.scope.wf(),
        from <= found.len(),
    ensures
        match follow_model(
            entries_view(found@).skip(from as int),
            env@,
            rom.bytes(),
            *dma,
            depth as nat,
        ) {
            Ok(m) => r matches Ok(after) && after@ == m && m.scope.layers.len()
                == env@.scope.layers.len() && m.scope.wf(),
            Err(e) => r matches Err(f) && f == e,
        },
    decreases depth, 0nat, found.len() - from,
{
    if from >= found.len() {
        return Ok(env);
    }
    let ghost rows = entries_view(found@).skip(from as int);
    assert(rows[0] == (found@[from as int].0, found@[from as int].1@, found@[from as int].2@));
    assert(rows.skip(1) =~= entries_view(found@).skip(from + 1));
    let mut env = env;
    let ghost start = env@;
    let ptr = match found[from].0 {
        Some(p) => p,
        None => {
            return follow(found, from + 1, env, rom, dma, depth);
        },
    };
    let script = match &found[from].2 {
        DataType::Fun(args) => {
            assert(found@[from as int].2@ == TypeModel::Fun(types_view(args@)));
            true
        },
        DataType::Asm(args) => {
            assert(found@[from as int].2@ == TypeModel::Asm(types_view(args@)));
            false
        },
        _ => {
            assert(!(found@[from as int].2@ is Fun) && !(found@[from as int].2@ is Asm));
            return follow(found, from + 1, env, rom, dma, depth);
        },
    };
    proof {
        lemma_insert(start.scope, Some(ptr), rows[0].1, rows[0].2);
    }
    let _ = env.scope.insert_ptr(ptr, found[from].1.clone(), found[from].2.clone());
    if !script || was_visited(&env.visited, ptr) {
        return follow(found, from + 1, env, rom, dma, depth);
    }
    if depth == 0 {
        return Err(Error::TooDeep);
    }
    if ptr < dma.dest {
        return Err(Error::BadAddress(ptr));
    }
    let at: u64 = dma.start as u64 + (ptr - dma.dest) as u64;
    let data = match read_operations(rom.as_bytes(), at) {
        Err(e) => {
            return Err(Error::BytecodeDecompile(e));
        },
        Ok((data, _)) => data,
    };
    env.visited.push(ptr);
    let env = match decompile_fun(
        found[from].1.clone(),
        Bytecode::new(data),
        env,
        rom,
        dma,
        depth - 1,
    ) {
        Err(e) => {
            return Err(e);
        },
        Ok(after) => after,
    };
    follow(found, from + 1, env, rom, dma, depth)
}

/// Where a map is entered: a place and the way to face, each the bits of
/// a 32-bit floating-point number.
#[derive(Debug, Clone, Copy, PartialEq, Eq, Structural)]
pub struct Entrance {
    pub x: u32,
    pub y: u32,
    pub z: u32,
    pub yaw: u32,
}

/// One map of the game, as its header in the ROM describes it.
#[derive(Debug)]
pub struct GameMap {
    pub name: String,
    pub init_asm: Option<Location>,
    pub main_fun: (Location, Bytecode),
    pub dma: Dma,
    pub entrances: Vec<Entrance>,
    pub tattle: Text,
    pub background: Option<String>,
    pub flags: u32,
}

/// The scripts of a map as source text, with the remarks that type
/// inference made on the way.
#[derive(Debug)]
pub struct Decompiled {
    pub source: String,
    pub warnings: Vec<TypeMismatch>,
}

/// The model of each known script of a list, in order.
pub open spec fn signatures_view(list: Seq<KnownMethod>) -> Seq<(u32, Seq<char>, TypeModel)> {
    Seq::new(list.len(), |i: int| (list[i].0, list[i].1@, list[i].2@))
}

/// The scope after the known scripts were entered, in order.
pub open spec fn with_globals(scope: ScopeModel, globals: Seq<(u32, Seq<char>, TypeModel)>) -> ScopeModel
    decreases globals.len(),
{
    if globals.len() == 0 {
        scope
    } else {
        let last = globals.last();
        with_globals(scope, globals.drop_last()).insert_ptr(last.0, last.1, last.2)
    }
}

/// Entering known scripts keeps the number of layers of a scope, and
/// keeps it well formed.
pub proof fn lemma_with_globals(scope: ScopeModel, globals: Seq<(u32, Seq<char>, TypeModel)>)
    requires
        scope.layers.len() > 0,
    ensures
        with_globals(scope, globals).layers.len() == scope.layers.len(),
        scope.wf() ==> with_globals(scope, globals).wf(),
    decreases globals.len(),
{
    if globals.len() > 0 {
        let last = globals.last();
        lemma_with_globals(scope, globals.drop_last());
        lemma_insert(with_globals(scope, globals.drop_last()), Some(last.0), last.1, last.2);
    }
}

/// The name that a declaration declares.
pub open spec fn declared_name(decl: DeclModel) -> TargetModel {
    match decl {
        DeclModel::Fun { name, arguments, block } => name,
    }
}

/// The declarations without those that declare the same name as the one
/// kept before them.
pub open spec fn deduped(decls: Seq<DeclModel>) -> Seq<DeclModel>
    decreases decls.len(),
{
    if decls.len() == 0 {
        Seq::empty()
    } else {
        let before = deduped(decls.drop_last());
        if before.len() > 0 && declared_name(before.last()) == declared_name(decls.last()) {
            before
        } else {
            before.push(decls.last())
        }
    }
}

/// The declarations as source text, the last first, with an empty line
/// between each two.
pub open spec fn source_text(decls: Seq<DeclModel>, scope: ScopeModel) -> Seq<char> {
    joined(
        Seq::new(decls.len(), |i: int| decl_text(decls[decls.len() - 1 - i], scope)),
        "\n\n"@,
    )
}

/// The source text of the scripts of a map and the remarks on it. The
/// known scripts are entered in a new scope, then the main script of the
/// map under the name `main`, as a script without parameters. The main
/// script is decompiled, and with it every script that it leads to.
pub open spec fn decompile_map_model(
    main_ptr: u32,
    ops: Seq<OpModel>,
    pos: int,
    seen: Seq<crate::arg::Arg>,
    globals: Seq<(u32, Seq<char>, TypeModel)>,
    bytes: Seq<u8>,
    dma: Dma,
    depth: nat,
) -> Result<(Seq<char>, Seq<MismatchModel>), Error> {
    let scope = with_globals(ScopeModel::fresh(), globals).insert_ptr(
        main_ptr,
        "main"@,
        TypeModel::Fun(Seq::empty()),
    );
    match decompile_fun_model(
        "main"@,
        ops,
        pos,
        seen,
        EnvModel {
            scope,
            visited: Seq::empty(),
            declarations: Seq::empty(),
            warnings: Seq::empty(),
        },
        bytes,
        dma,
        depth,
    ) {
        Err(e) => Err(e),
        Ok(env) => Ok((source_text(deduped(env.declarations), env.scope), env.warnings)),
    }
}

fn same_target(a: &IdentifierOrPointer, b: &IdentifierOrPointer) -> (r: bool)
    ensures
        r == (a@ == b@),
{
    match (a, b) {
        (IdentifierOrPointer::Identifier(x), IdentifierOrPointer::Identifier(y)) => x.0 == y.0,
        (IdentifierOrPointer::Pointer(x), IdentifierOrPointer::Pointer(y)) => *x == *y,
        _ => false,
    }
}

fn same_declared(a: &Declaration, b: &Declaration) -> (r: bool)
    ensures
        r == (declared_name(a@) == declared_name(b@)),
{
    match (a, b) {
        (Declaration::Fun { name: x, .. }, Declaration::Fun { name: y, .. }) => same_target(x, y),
    }
}

/// Drops each declaration that declares the same name as the one kept
/// before it.
pub fn dedup_declarations(decls: Vec<Declaration>) -> (kept: Vec<Declaration>)
    ensures
        decls_view(kept@) == deduped(decls_view(decls@)),
{
    let mut kept: Vec<Declaration> = Vec::new();
    let ghost all = decls@;
    assert(decls_view(all.take(0)) =~= Seq::empty());
    assert(decls_view(kept@) =~= Seq::empty());
    for decl in it: decls
        invariant
            it.seq() == all,
            decls_view(kept@) == deduped(decls_view(all.take(it.index() as int))),
    {
        let ghost k = it.index() as int;
        let ghost before = decls_view(kept@);
        assert(decls_view(all.take(k + 1)).drop_last() =~= decls_view(all.take(k)));
        assert(decls_view(all.take(k + 1)).last() == decl@);
        let n = kept.len();
        let repeated = n > 0 && same_declared(&kept[n - 1], &decl);
        if !repeated {
            kept.push(decl);
            assert(decls_view(kept@) =~= before.push(decl@));
        }
    }
    assert(all.take(all.len() as int) =~= all);
    kept
}

/// Writes the declarations out, the last first, with an empty line
/// between each two.
pub fn unparse_declarations(decls: &Vec<Declaration>, scope: &Scope) -> (out: String)
    ensures
        out@ == source_text(decls_view(decls@), scope@),
{
    let mut parts: Vec<String> = Vec::new();
    let n = decls.len();
    let mut i: usize = 0;
    while i < n
        invariant
            i <= n,
            n == decls.len(),
            parts@.len() == i,
            forall|j: int| 0 <= j < i ==> parts@[j]@ == decl_text(decls@[n - 1 - j]@, scope@),
        decreases n - i,
    {
        parts.push(unparse_declaration(&decls[n - 1 - i], scope));
        i += 1;
    }
    assert(strings_view(parts@) =~= Seq::new(
        decls_view(decls@).len(),
        |i: int| decl_text(decls_view(decls@)[decls_view(decls@).len() - 1 - i], scope@),
    ));
    join(&parts, "\n\n")
}

/// Decompiles the scripts of a map: its main script and every script that
/// the main script leads to. `globals` are the scripts and the native
/// code that are known before any script is read; `depth` is how many
/// scripts deep the scripts that a script refers to are followed. Fails
/// if the place of the main script does not fit in 32 bits.
pub fn decompile_map(map: GameMap, rom: &Rom, globals: &Vec<KnownMethod>, depth: usize) -> (r: Result<
    Decompiled,
    Error,
>)
    ensures
        map.main_fun.0.addr() > u32::MAX ==> (r matches Err(e) && e == Error::BadAddress(
            map.main_fun.0.base,
        )),
        map.main_fun.0.addr() <= u32::MAX ==> match decompile_map_model(
            map.main_fun.0.addr() as u32,
            map.main_fun.1.ops(),
            map.main_fun.1.pos(),
            map.main_fun.1.seen(),
            signatures_view(globals@),
            rom.bytes(),
            map.dma,
            depth as nat,
        ) {
            Ok((source, warnings)) => r matches Ok(d) && d.source@ == source && mismatches_view(
                d.warnings@,
            ) == warnings,
            Err(e) => r matches Err(f) && f == e,
        },
{
    let (main_loc, main_bc) = map.main_fun;
    let main_ptr = match main_loc.absolute() {
        Some(p) => p,
        None => {
            return Err(Error::BadAddress(main_loc.base));
        },
    };
    let mut scope = Scope::new();
    let ghost known = signatures_view(globals@);
    let mut i: usize = 0;
    assert(known.take(0) =~= Seq::empty());
    while i < globals.len()
        invariant
            i <= globals.len(),
            known == signatures_view(globals@),
            scope@ == with_globals(ScopeModel::fresh(), known.take(i as int)),
            scope@.layers.len() > 0,
            scope@.wf(),
        decreases globals.len() - i,
    {
        proof {
            assert(known.take(i + 1).drop_last() =~= known.take(i as int));
            assert(known.take(i + 1).last() == known[i as int]);
            lemma_with_globals(ScopeModel::fresh(), known.take(i + 1));
        }
        let _ = scope.insert_ptr(globals[i].0, globals[i].1.clone(), globals[i].2.clone());
        i += 1;
    }
    assert(known.take(i as int) =~= known);
    let no_params: Vec<DataType> = Vec::new();
    assert(types_view(no_params@) =~= Seq::empty());
    let _ = scope.insert_ptr(main_ptr, String::from_str("main"), DataType::Fun(no_params));
    let env = DecompEnv {
        scope,
        visited: Vec::new(),
        declarations: Vec::new(),
        warnings: no_warnings(),
    };
    assert(decls_view(env.declarations@) =~= Seq::empty());
    let env = match decompile_fun(
        String::from_str("main"),
        main_bc,
        env,
        rom,
        &map.dma,
        depth,
    ) {
        Err(e) => {
            return Err(e);
        },
        Ok(after) => after,
    };
    let declarations = dedup_declarations(env.declarations);
    let source = unparse_declarations(&declarations, &env.scope);
    Ok(Decompiled { source, warnings: env.warnings })
}

/// A script that takes the given parameters.
fn fun_of(params: Vec<DataType>) -> (t: DataType)
    ensures
        t@ == TypeModel::Fun(types_view(params@)),
{
    DataType::Fun(params)
}

/// Native code that takes the given parameters.
fn asm_of(params: Vec<DataType>) -> (t: DataType)
    ensures
        t@ == TypeModel::Asm(types_view(params@)),
{
    DataType::Asm(params)
}

/// `count` whole numbers.
fn ints(count: usize) -> (params: Vec<DataType>)
    ensures
        types_view(params@) == Seq::new(count as nat, |i: int| TypeModel::Int),
        count == 0 ==> types_view(params@) == Seq::<TypeModel>::empty(),
{
    let mut params: Vec<DataType> = Vec::new();
    let mut i: usize = 0;
    while i < count
        invariant
            i <= count,
            params@.len() == i,
            forall|j: int| 0 <= j < i ==> params@[j]@ == TypeModel::Int,
        decreases count - i,
    {
        params.push(DataType::Int);
        i += 1;
    }
    assert(types_view(params@) =~= Seq::new(count as nat, |i: int| TypeModel::Int));
    assert(count == 0 ==> types_view(params@) =~= Seq::<TypeModel>::empty());
    params
}

/// A whole number and a truth value.
fn int_and_bool() -> (params: Vec<DataType>)
    ensures
        types_view(params@) == seq![TypeModel::Int, TypeModel::Bool],
{
    let mut params: Vec<DataType> = Vec::new();
    params.push(DataType::Int);
    params.push(DataType::Bool);
    assert(types_view(params@) =~= seq![TypeModel::Int, TypeModel::Bool]);
    params
}

/// The scripts and the native code of the game that are known by name:
/// the address of each, its name and its type. Scripts are known with
/// the parameters that they capture, native code with the arguments that
/// it takes.
pub open spec fn known_model() -> Seq<(u32, Seq<char>, TypeModel)> {
    seq![
        (0x8028_5960u32, "enter_walk"@, TypeModel::Fun(seq![TypeModel::Fun(Seq::empty())])),
        (0x8028_5CF4u32, "exit_walk"@, TypeModel::Fun(Seq::empty())),
        (0x8028_5CB0u32, "enter_save_point"@, TypeModel::Fun(Seq::empty())),
        (0x8028_5DD4u32, "enter_door"@, TypeModel::Fun(Seq::new(4, |i: int| TypeModel::Int))),
        (0x8028_5DACu32, "exit_door"@, TypeModel::Fun(Seq::new(4, |i: int| TypeModel::Int))),
        (0x8028_5E74u32, "enter_double_door"@, TypeModel::Fun(Seq::new(4, |i: int| TypeModel::Int))),
        (0x8028_5E4Cu32, "exit_double_door"@, TypeModel::Fun(Seq::new(4, |i: int| TypeModel::Int))),
        (0x802C_8B60u32, "model_translate"@, TypeModel::Asm(seq![TypeModel::Int, TypeModel::Float, TypeModel::Float, TypeModel::Float])),
        (0x802C_8C64u32, "model_rotate"@, TypeModel::Asm(Seq::new(5, |i: int| TypeModel::Int))),
        (0x802C_8D88u32, "model_scale"@, TypeModel::Asm(Seq::new(4, |i: int| TypeModel::Int))),
        (0x802C_8F28u32, "model_clone"@, TypeModel::Asm(Seq::new(2, |i: int| TypeModel::Int))),
        (0x802C_9000u32, "model_set_panning"@, TypeModel::Asm(Seq::new(2, |i: int| TypeModel::Int))),
        (0x802C_9000u32, "model_enable_flag10"@, TypeModel::Asm(seq![TypeModel::Int, TypeModel::Bool])),
        (0x802C_9208u32, "model_enable_panning"@, TypeModel::Asm(seq![TypeModel::Int, TypeModel::Bool])),
        (0x802C_9288u32, "model_enable"@, TypeModel::Asm(seq![TypeModel::Int, TypeModel::Bool])),
        (0x802C_9308u32, "model_enable"@, TypeModel::Asm(seq![TypeModel::Int, TypeModel::Bool])),
        (0x802C_A6C0u32, "cam_enable_flag2"@, TypeModel::Asm(seq![TypeModel::Int, TypeModel::Bool])),
        (0x802C_A774u32, "cam_enable_flag80"@, TypeModel::Asm(seq![TypeModel::Int, TypeModel::Bool])),
        (0x802C_A828u32, "cam_set_perspective"@, TypeModel::Asm(Seq::new(5, |i: int| TypeModel::Int))),
        (0x802C_AB18u32, "cam_set_viewport"@, TypeModel::Asm(Seq::new(5, |i: int| TypeModel::Int))),
        (0x802C_AD98u32, "cam_set_bg_color"@, TypeModel::Asm(Seq::new(4, |i: int| TypeModel::Int))),
        (0x802C_B680u32, "cam_enable_flag4"@, TypeModel::Asm(seq![TypeModel::Int, TypeModel::Bool])),
        (0x802D_9700u32, "set_sprite_shading"@, TypeModel::Asm(Seq::new(1, |i: int| TypeModel::Int))),
    ]
}

/// The scripts and the native code of the game that are known by name,
/// in the order in which they are to be entered into a scope.
pub fn known_methods() -> (list: Vec<KnownMethod>)
    ensures
        signatures_view(list@) == known_model(),
{
    let mut list: Vec<KnownMethod> = Vec::new();
    let no_params: Vec<DataType> = Vec::new();
    assert(types_view(no_params@) =~= Seq::empty());
    let mut walker: Vec<DataType> = Vec::new();
    walker.push(fun_of(no_params));
    assert(types_view(walker@) =~= seq![TypeModel::Fun(Seq::empty())]);
    list.push((0x8028_5960, String::from_str("enter_walk"), fun_of(walker)));
    list.push((0x8028_5CF4, String::from_str("exit_walk"), fun_of(ints(0))));
    list.push((0x8028_5CB0, String::from_str("enter_save_point"), fun_of(ints(0))));
    list.push((0x8028_5DD4, String::from_str("enter_door"), fun_of(ints(4))));
    list.push((0x8028_5DAC, String::from_str("exit_door"), fun_of(ints(4))));
    list.push((0x8028_5E74, String::from_str("enter_double_door"), fun_of(ints(4))));
    list.push((0x8028_5E4C, String::from_str("exit_double_door"), fun_of(ints(4))));
    let mut offsets: Vec<DataType> = Vec::new();
    offsets.push(DataType::Int);
    offsets.push(DataType::Float);
    offsets.push(DataType::Float);
    offsets.push(DataType::Float);
    assert(types_view(offsets@) =~= seq![
        TypeModel::Int,
        TypeModel::Float,
        TypeModel::Float,
        TypeModel::Float,
    ]);
    list.push((0x802C_8B60, String::from_str("model_translate"), asm_of(offsets)));
    list.push((0x802C_8C64, String::from_str("model_rotate"), asm_of(ints(5))));
    list.push((0x802C_8D88, String::from_str("model_scale"), asm_of(ints(4))));
    list.push((0x802C_8F28, String::from_str("model_clone"), asm_of(ints(2))));
    list.push((0x802C_9000, String::from_str("model_set_panning"), asm_of(ints(2))));
    list.push((0x802C_9000, String::from_str("model_enable_flag10"), asm_of(int_and_bool())));
    list.push((0x802C_9208, String::from_str("model_enable_panning"), asm_of(int_and_bool())));
    list.push((0x802C_9288, String::from_str("model_enable"), asm_of(int_and_bool())));
    list.push((0x802C_9308, String::from_str("model_enable"), asm_of(int_and_bool())));
    list.push((0x802C_A6C0, String::from_str("cam_enable_flag2"), asm_of(int_and_bool())));
    list.push((0x802C_A774, String::from_str("cam_enable_flag80"), asm_of(int_and_bool())));
    list.push((0x802C_A828, String::from_str("cam_set_perspective"), asm_of(ints(5))));
    list.push((0x802C_AB18, String::from_str("cam_set_viewport"), asm_of(ints(5))));
    list.push((0x802C_AD98, String::from_str("cam_set_bg_color"), asm_of(ints(4))));
    list.push((0x802C_B680, String::from_str("cam_enable_flag4"), asm_of(int_and_bool())));
    list.push((0x802D_9700, String::from_str("set_sprite_shading"), asm_of(ints(1))));
    assert(signatures_view(list@) =~= known_model());
    list
}

} // verus!
