//! The flat listing of a script: one line for each operation, indented by
//! the blocks that are open, without rebuilding the statements first.

use vstd::prelude::*;
use vstd::string::StringExecFns;
use crate::arg::wrapped;
use crate::opcode::Opcode;
use crate::symbol::{unsigned, Symbol};
use crate::text::{hex_lower, hex_upper, join, joined, push_hex, push_hex_lower, strings_view};
use crate::types::Type;

verus! {

/// One operation of a listing: what to do, and its operands.
pub type Operation = Opcode;

/// What an address found in a script points to.
#[derive(Debug, Clone, Copy, PartialEq, Eq, Structural)]
pub enum DataType {
    Unknown,
    Function,
    Asm,
}

/// Why a script cannot be listed.
#[derive(Debug, Clone, Copy, PartialEq, Eq, Structural)]
pub enum ListingError {
    /// The operation has not the number of operands that its opcode
    /// takes.
    ArgCount(Opcode),
    /// Nothing lists the opcode yet.
    Unimplemented(Opcode),
    /// A switch opens right after another.
    DoubleSwitch,
    /// A block is closed that was not opened, or left open at the end.
    LevelMismatch,
    /// A flag is set to what is no plain number, or an argument that
    /// should be a truth value is none.
    NotBool(Opcode),
    /// A call to a known method has more arguments than the method takes.
    TooManyArguments(u32),
    /// The target of a call is no address.
    MalformedCallTarget(Opcode),
    /// A script is bound to a trigger with a last operand that is a
    /// plain number other than zero.
    BadBind,
    /// The script has more operations than fit in 32 bits.
    TooLong,
}

/// The method that is known to stand at an address: its name and the
/// types of its arguments.
pub open spec fn known_method(addr: u32) -> Option<(Seq<char>, Seq<Type>)> {
    if addr == 0x8028_5960 {
        Some(("enter_walk"@, seq![Type::Function]))
    } else if addr == 0x802C_9288 || addr == 0x802C_9308 {
        Some(("model_set_vis"@, seq![Type::Int, Type::Bool]))
    } else if addr == 0x802C_A6C0 {
        Some(("cam_set_flag2"@, seq![Type::Int, Type::Int]))
    } else if addr == 0x802C_A774 {
        Some(("cam_set_flag80"@, seq![Type::Int, Type::Int]))
    } else if addr == 0x802C_A828 {
        Some(
            (
                "cam_set_perspective"@,
                seq![Type::Int, Type::Int, Type::Int, Type::Int, Type::Int],
            ),
        )
    } else if addr == 0x802C_AB18 {
        Some(("cam_set_viewport"@, seq![Type::Int, Type::Int, Type::Int, Type::Int, Type::Int]))
    } else if addr == 0x802C_AD98 {
        Some(("cam_set_bg_color"@, seq![Type::Int, Type::Int, Type::Int, Type::Int]))
    } else if addr == 0x802C_B680 {
        Some(("cam_set_flag4"@, seq![Type::Int, Type::Int]))
    } else if addr == 0x802D_9700 {
        Some(("use_sprite_shading"@, seq![Type::Int]))
    } else {
        None
    }
}

/// The method that is known to stand at an address.
pub fn lookup_method(addr: u32) -> (r: Option<(&'static str, Vec<Type>)>)
    ensures
        match known_method(addr) {
            Some((name, args)) => r matches Some(found) && found.0@ == name && found.1@ == args,
            None => r.is_none(),
        },
{
    let r = match addr {
        0x8028_5960 => Some(("enter_walk", vec![Type::Function])),
        0x802C_9288 | 0x802C_9308 => Some(("model_set_vis", vec![Type::Int, Type::Bool])),
        0x802C_A6C0 => Some(("cam_set_flag2", vec![Type::Int, Type::Int])),
        0x802C_A774 => Some(("cam_set_flag80", vec![Type::Int, Type::Int])),
        0x802C_A828 => Some(
            ("cam_set_perspective", vec![Type::Int, Type::Int, Type::Int, Type::Int, Type::Int]),
        ),
        0x802C_AB18 => Some(
            ("cam_set_viewport", vec![Type::Int, Type::Int, Type::Int, Type::Int, Type::Int]),
        ),
        0x802C_AD98 => Some(
            ("cam_set_bg_color", vec![Type::Int, Type::Int, Type::Int, Type::Int]),
        ),
        0x802C_B680 => Some(("cam_set_flag4", vec![Type::Int, Type::Int])),
        0x802D_9700 => Some(("use_sprite_shading", vec![Type::Int])),
        _ => None,
    };
    proof {
        if r.is_some() {
            assert(r.unwrap().1@ =~= known_method(addr).unwrap().1);
        }
    }
    r
}

/// A listing in the making: the text so far, how many blocks are open,
/// and whether the head of an arm of a switch was written last, so that
/// the arm has still to be opened.
pub struct Listing {
    pub text: Seq<char>,
    pub level: nat,
    pub in_case: bool,
}

/// Four spaces for each open block.
pub open spec fn indentation(level: nat) -> Seq<char>
    decreases level,
{
    if level == 0 {
        Seq::empty()
    } else {
        indentation((level - 1) as nat) + "    "@
    }
}

impl Listing {
    /// With more text.
    pub open spec fn raw(self, more: Seq<char>) -> Listing {
        Listing { text: self.text + more, ..self }
    }

    /// With a line of its own, indented.
    pub open spec fn line(self, body: Seq<char>) -> Listing {
        self.raw(indentation(self.level) + body + "\n"@)
    }

    /// With one more block open.
    pub open spec fn opened(self) -> Listing {
        Listing { level: self.level + 1, ..self }
    }

    /// With one block fewer open, if any is.
    pub open spec fn closed(self) -> Result<Listing, ListingError> {
        if self.level == 0 {
            Err(ListingError::LevelMismatch)
        } else {
            Ok(Listing { level: (self.level - 1) as nat, ..self })
        }
    }

    /// Before a statement: the arm whose head was written last is
    /// opened.
    pub open spec fn leave_case(self) -> Listing {
        if self.in_case {
            Listing { in_case: false, ..self.raw(" {\n"@).opened() }
        } else {
            self
        }
    }

    /// Before the head of an arm: the arm before it is closed, unless its
    /// head was written last.
    pub open spec fn enter_case(self) -> Result<Listing, ListingError> {
        if self.in_case {
            Ok(self)
        } else {
            match self.closed() {
                Err(e) => Err(e),
                Ok(st) => Ok(Listing { in_case: true, ..st.line("}"@) }),
            }
        }
    }
}

/// The number of operands that an opcode takes in a listing, where it is
/// a fixed number.
pub open spec fn arg_count(opcode: Opcode) -> Option<nat> {
    match opcode {
        Opcode::Return | Opcode::BreakLoop | Opcode::BreakCase | Opcode::EndLoop | Opcode::Else
        | Opcode::EndIf | Opcode::CaseDefault | Opcode::EndCaseGroup | Opcode::EndSwitch
        | Opcode::Thread | Opcode::EndThread | Opcode::EndChildThread => Some(0),
        Opcode::Label | Opcode::Goto | Opcode::Loop | Opcode::Wait | Opcode::WaitSeconds
        | Opcode::Switch | Opcode::SwitchConst | Opcode::CaseEq | Opcode::CaseNe | Opcode::CaseLt
        | Opcode::CaseGt | Opcode::CaseLte | Opcode::CaseGte | Opcode::CaseOrEq | Opcode::CaseAndEq
        | Opcode::CaseAndZ | Opcode::UseArray | Opcode::UseFlagArray | Opcode::Kill => Some(1),
        Opcode::IfEq | Opcode::IfNe | Opcode::IfLt | Opcode::IfGt | Opcode::IfLte | Opcode::IfGte
        | Opcode::IfAndNz | Opcode::IfAndZ | Opcode::CaseRange | Opcode::SetInt | Opcode::SetFloat
        | Opcode::AddInt | Opcode::AddFloat | Opcode::SubInt | Opcode::SubFloat | Opcode::MulInt
        | Opcode::MulFloat | Opcode::DivInt | Opcode::DivFloat | Opcode::ModInt => Some(2),
        Opcode::Bind => Some(5),
        _ => None,
    }
}

/// Whether nothing lists the opcode yet.
pub open spec fn unlisted(opcode: Opcode) -> bool {
    match opcode {
        Opcode::SetRef | Opcode::UseIntBuffer | Opcode::Get1Int | Opcode::Get2Int | Opcode::Get3Int
        | Opcode::Get4Int | Opcode::GetIntN | Opcode::UseFloatBuffer | Opcode::Get1Float
        | Opcode::Get2Float | Opcode::Get3Float | Opcode::Get4Float | Opcode::GetFloatN
        | Opcode::AllocArray | Opcode::And | Opcode::AndRef | Opcode::Or | Opcode::OrRef
        | Opcode::BindLock | Opcode::Unbind | Opcode::Jump | Opcode::SetPriority
        | Opcode::SetTimescale | Opcode::SetSuspensionGroup | Opcode::SuspendAll
        | Opcode::ResumeAll | Opcode::SuspendOthers | Opcode::ResumeOthers | Opcode::Suspend
        | Opcode::Resume | Opcode::DoesScriptExist | Opcode::ChildThread => true,
        _ => false,
    }
}

/// What stands between the two sides of an operation that compares or
/// assigns.
pub open spec fn infix(opcode: Opcode) -> Seq<char> {
    match opcode {
        Opcode::IfEq => " == "@,
        Opcode::IfNe => " != "@,
        Opcode::IfLt => " < "@,
        Opcode::IfGt => " > "@,
        Opcode::IfLte => " <= "@,
        Opcode::IfGte => " >= "@,
        Opcode::IfAndNz => " !& "@,
        Opcode::IfAndZ => " & "@,
        Opcode::SetInt | Opcode::SetFloat => " = "@,
        Opcode::AddInt | Opcode::AddFloat => " += "@,
        Opcode::SubInt | Opcode::SubFloat => " -= "@,
        Opcode::MulInt | Opcode::MulFloat => " *= "@,
        Opcode::DivInt | Opcode::DivFloat => " /= "@,
        Opcode::ModInt => " %= "@,
        _ => Seq::empty(),
    }
}

/// What stands in front of the operand of the head of an arm.
pub open spec fn case_word(opcode: Opcode) -> Seq<char> {
    match opcode {
        Opcode::CaseEq => "case == "@,
        Opcode::CaseNe => "case != "@,
        Opcode::CaseLt => "case < "@,
        Opcode::CaseGt => "case > "@,
        Opcode::CaseLte => "case <= "@,
        Opcode::CaseGte => "case > "@,
        Opcode::CaseOrEq => "case or == "@,
        Opcode::CaseAndEq => "case and == "@,
        Opcode::CaseAndZ => "case & "@,
        Opcode::CaseRange => "case "@,
        _ => "default"@,
    }
}

/// A truth value as it is written.
pub open spec fn bool_text(b: bool) -> Seq<char> {
    if b {
        "true"@
    } else {
        "false"@
    }
}

/// The line of an operation that is a statement or opens a block, after
/// the indentation. An operation that sets a flag must set it to a plain
/// number, which is written as a truth value.
pub open spec fn body_text(opcode: Opcode, args: Seq<Symbol>) -> Result<Seq<char>, ListingError> {
    match opcode {
        Opcode::Return => Ok("return"@),
        Opcode::Label => Ok("label .o"@ + args[0].shown()),
        Opcode::Goto => Ok("goto .o"@ + args[0].shown()),
        Opcode::BreakLoop => Ok("break loop"@),
        Opcode::BreakCase => Ok("break case"@),
        Opcode::Wait => Ok("sleep "@ + args[0].shown()),
        Opcode::WaitSeconds => Ok("sleep "@ + args[0].shown() + " secs"@),
        Opcode::Kill => Ok("kill "@ + args[0].shown()),
        Opcode::UseArray | Opcode::UseFlagArray => Ok("arr = "@ + args[0].shown_hex()),
        Opcode::SetInt | Opcode::SetFloat => if args[0] is GameFlag || args[0] is AreaFlag
            || args[0] is MapFlag || args[0] is Flag {
            match args[1] {
                Symbol::Primitive(v) => Ok(args[0].shown() + " = "@ + bool_text(v == 1)),
                _ => Err(ListingError::NotBool(opcode)),
            }
        } else {
            Ok(args[0].shown() + " = "@ + args[1].shown())
        },
        Opcode::AddInt | Opcode::AddFloat | Opcode::SubInt | Opcode::SubFloat | Opcode::MulInt
        | Opcode::MulFloat | Opcode::DivInt | Opcode::DivFloat | Opcode::ModInt => Ok(
            args[0].shown() + infix(opcode) + args[1].shown(),
        ),
        Opcode::Loop => if args[0] == Symbol::Primitive(0) {
            Ok("loop {"@)
        } else {
            Ok("loop "@ + args[0].shown() + " {"@)
        },
        Opcode::IfAndNz | Opcode::IfAndZ => Ok(
            "if "@ + args[0].shown_binary() + infix(opcode) + args[1].shown_binary() + " {"@,
        ),
        Opcode::IfEq | Opcode::IfNe | Opcode::IfLt | Opcode::IfGt | Opcode::IfLte | Opcode::IfGte => {
            Ok("if "@ + args[0].shown() + infix(opcode) + args[1].shown() + " {"@)
        },
        Opcode::Thread => Ok("thread {"@),
        Opcode::Switch | Opcode::SwitchConst => Ok("switch "@ + args[0].shown() + " {"@),
        Opcode::CaseDefault => Ok("default"@),
        Opcode::CaseRange => Ok("case "@ + args[0].shown() + ".."@ + args[1].shown()),
        Opcode::CaseEq | Opcode::CaseNe | Opcode::CaseLt | Opcode::CaseGt | Opcode::CaseLte
        | Opcode::CaseGte | Opcode::CaseOrEq | Opcode::CaseAndEq | Opcode::CaseAndZ => Ok(
            case_word(opcode) + args[0].shown(),
        ),
        _ => Ok(Seq::empty()),
    }
}

/// Whether the opcode is a statement by itself in a listing.
pub open spec fn is_statement(opcode: Opcode) -> bool {
    match opcode {
        Opcode::Return | Opcode::Label | Opcode::Goto | Opcode::BreakLoop | Opcode::BreakCase
        | Opcode::Wait | Opcode::WaitSeconds | Opcode::Kill | Opcode::UseArray
        | Opcode::UseFlagArray | Opcode::SetInt | Opcode::SetFloat | Opcode::AddInt
        | Opcode::AddFloat | Opcode::SubInt | Opcode::SubFloat | Opcode::MulInt | Opcode::MulFloat
        | Opcode::DivInt | Opcode::DivFloat | Opcode::ModInt => true,
        _ => false,
    }
}

/// Whether the opcode opens a block in a listing.
pub open spec fn is_opener(opcode: Opcode) -> bool {
    opcode.is_if() || opcode == Opcode::Loop || opcode == Opcode::Thread
}

/// Whether the opcode closes a block in a listing.
pub open spec fn is_closer(opcode: Opcode) -> bool {
    opcode == Opcode::EndLoop || opcode == Opcode::EndIf || opcode == Opcode::EndThread || opcode
        == Opcode::EndChildThread
}

/// Whether the opcode is the head of an arm of a switch.
pub open spec fn is_case_head(opcode: Opcode) -> bool {
    opcode.opens_case() || opcode == Opcode::CaseAndEq || opcode == Opcode::CaseRange
}

/// The argument at place `n` of a call to a method, as it is written. An
/// argument of a method that is known is written by the type that the
/// method takes there; a truth value must be a plain number. An argument
/// of any other method is written with plain numbers in base sixteen.
pub open spec fn call_argument(
    opcode: Opcode,
    addr: u32,
    sig: Option<Seq<Type>>,
    n: int,
    arg: Symbol,
) -> Result<Seq<char>, ListingError> {
    match sig {
        None => Ok(arg.shown_hex()),
        Some(types) => if n >= types.len() {
            Err(ListingError::TooManyArguments(addr))
        } else if types[n] == Type::Bool {
            match arg {
                Symbol::Primitive(v) => Ok(bool_text(v == 1)),
                _ => Err(ListingError::NotBool(opcode)),
            }
        } else {
            Ok(arg.shown())
        },
    }
}

/// The first `n` arguments of a call, each as it is written; the first
/// that cannot be written is the error.
pub open spec fn call_arguments(
    opcode: Opcode,
    addr: u32,
    sig: Option<Seq<Type>>,
    args: Seq<Symbol>,
    n: nat,
) -> Result<Seq<Seq<char>>, ListingError>
    decreases n,
{
    if n == 0 || n > args.len() {
        Ok(Seq::empty())
    } else {
        match call_arguments(opcode, addr, sig, args, (n - 1) as nat) {
            Err(e) => Err(e),
            Ok(before) => match call_argument(opcode, addr, sig, n - 1, args[n - 1]) {
                Err(e) => Err(e),
                Ok(written) => Ok(before.push(written)),
            },
        }
    }
}

/// A call as it is written, with the line break after it: the target,
/// and the arguments in round brackets. A method that is known is
/// written by its name, any other address as a number in base sixteen. A
/// call to the script that walks into a map is always written with the
/// one argument that it takes.
pub open spec fn call_text(opcode: Opcode, target: Symbol, args: Seq<Symbol>) -> Result<
    Seq<char>,
    ListingError,
> {
    match target {
        Symbol::Primitive(v) => {
            let addr = wrapped(v as int) as u32;
            if addr == 0x8028_5960 {
                Ok("enter_walk(var_0)\n"@)
            } else {
                let known = known_method(addr);
                let sig = match known {
                    Some((_, types)) => Some(types),
                    None => None,
                };
                let name = match known {
                    Some((name, _)) => name,
                    None => "0x"@ + hex_upper(addr as nat),
                };
                match call_arguments(opcode, addr, sig, args, args.len()) {
                    Err(e) => Err(e),
                    Ok(written) => Ok(name + "("@ + joined(written, ", "@) + ")\n"@),
                }
            }
        },
        _ => match call_arguments(opcode, 0, None, args, args.len()) {
            Err(e) => Err(e),
            Ok(written) => Ok(target.shown_hex() + "("@ + joined(written, ", "@) + ")\n"@),
        },
    }
}

/// The operands of a call that starts a thread and keeps it: all but the
/// third.
pub open spec fn without_third(args: Seq<Symbol>) -> Seq<Symbol> {
    if args.len() > 2 {
        args.subrange(0, 2) + args.subrange(3, args.len() as int)
    } else {
        args
    }
}

/// The line that binds a script to a trigger: the trigger, the script and
/// what the trigger is on. A last operand that is not a plain number is
/// what the binding is kept in.
pub open spec fn bind_text(args: Seq<Symbol>) -> Result<Seq<char>, ListingError> {
    let trigger = match args[1] {
        Symbol::Primitive(value) => match crate::symbol::Trigger::with_code(
            wrapped(value as int) as u32,
        ) {
            Some(t) => Symbol::Trigger(t),
            None => args[1],
        },
        other => other,
    };
    let call = "bind_"@ + trigger.shown() + "("@ + args[0].shown_hex() + ", "@ + args[2].shown()
        + ")"@;
    match args[4] {
        Symbol::Primitive(n) => if n == 0 {
            Ok(call)
        } else {
            Err(ListingError::BadBind)
        },
        kept => Ok(kept.shown_hex() + " = "@ + call),
    }
}

/// The listing after one more operation.
pub open spec fn step(st: Listing, opcode: Opcode, args: Seq<Symbol>) -> Result<Listing, ListingError> {
    if unlisted(opcode) {
        Err(ListingError::Unimplemented(opcode))
    } else if arg_count(opcode).is_some() && arg_count(opcode).unwrap() != args.len() {
        Err(ListingError::ArgCount(opcode))
    } else if is_statement(opcode) {
        match body_text(opcode, args) {
            Err(e) => Err(e),
            Ok(body) => Ok(st.leave_case().line(body)),
        }
    } else if is_opener(opcode) {
        match body_text(opcode, args) {
            Err(e) => Err(e),
            Ok(body) => Ok(st.leave_case().line(body).opened()),
        }
    } else if is_closer(opcode) {
        match st.leave_case().closed() {
            Err(e) => Err(e),
            Ok(shut) => Ok(shut.line("}"@)),
        }
    } else if opcode == Opcode::Else {
        match st.leave_case().closed() {
            Err(e) => Err(e),
            Ok(shut) => Ok(shut.line("} else {"@).opened()),
        }
    } else if opcode == Opcode::EndSwitch {
        match st.leave_case().closed() {
            Err(e) => Err(e),
            Ok(arm) => match arm.line("}"@).closed() {
                Err(e) => Err(e),
                Ok(whole) => Ok(whole.line("}"@)),
            },
        }
    } else if opcode == Opcode::Switch || opcode == Opcode::SwitchConst {
        if st.in_case {
            Err(ListingError::DoubleSwitch)
        } else {
            Ok(Listing { in_case: true, ..st.line(body_text(opcode, args).unwrap()).opened() })
        }
    } else if is_case_head(opcode) {
        match st.enter_case() {
            Err(e) => Err(e),
            Ok(at) => Ok(at.raw(indentation(at.level) + body_text(opcode, args).unwrap())),
        }
    } else if opcode == Opcode::EndCaseGroup {
        if st.in_case {
            Ok(Listing { in_case: false, ..st.raw("{}\n"@) })
        } else {
            Ok(st)
        }
    } else if opcode == Opcode::Call || opcode == Opcode::ExecWait || opcode == Opcode::Exec {
        if args.len() == 0 {
            Err(ListingError::MalformedCallTarget(opcode))
        } else {
            match call_text(opcode, args[0], args.subrange(1, args.len() as int)) {
                Err(e) => Err(e),
                Ok(call) => {
                    let at = st.leave_case();
                    Ok(
                        at.raw(
                            indentation(at.level) + (if opcode == Opcode::Exec {
                                "thread "@
                            } else {
                                Seq::empty()
                            }) + call,
                        ),
                    )
                },
            }
        }
    } else if opcode == Opcode::ExecRet {
        if args.len() < 2 {
            Err(ListingError::ArgCount(opcode))
        } else {
            let passed = without_third(args);
            match call_text(opcode, passed[0], passed.subrange(1, passed.len() as int)) {
                Err(e) => Err(e),
                Ok(call) => {
                    let at = st.leave_case();
                    Ok(at.raw(indentation(at.level) + args[1].shown() + " = thread "@ + call))
                },
            }
        }
    } else if opcode == Opcode::Bind {
        match bind_text(args) {
            Err(e) => Err(e),
            Ok(body) => Ok(st.leave_case().line(body)),
        }
    } else {
        Ok(st)
    }
}

/// The listing after the operations from place `i` on, up to the first
/// `End`.
pub open spec fn run(ops: Seq<(Opcode, Seq<Symbol>)>, i: int, st: Listing) -> Result<
    Listing,
    ListingError,
>
    decreases ops.len() - i,
{
    if i < 0 || i >= ops.len() || ops[i].0 == Opcode::End {
        Ok(st)
    } else {
        match step(st, ops[i].0, ops[i].1) {
            Err(e) => Err(e),
            Ok(next) => run(ops, i + 1, next),
        }
    }
}

/// The listing of a script: a head that names the script by the place
/// where it stands, a line for each operation up to `End`, and a closing
/// bracket. Every block that is opened must be closed.
pub open spec fn listed(offset: u32, ops: Seq<(Opcode, Seq<Symbol>)>) -> Result<Seq<char>, ListingError> {
    if ops.len() > u32::MAX {
        Err(ListingError::TooLong)
    } else {
        match run(
            ops,
            0,
            Listing {
                text: "fun dump_"@ + hex_lower(offset as nat) + "() {\n"@,
                level: 1,
                in_case: false,
            },
        ) {
            Err(e) => Err(e),
            Ok(st) => if st.level != 1 {
                Err(ListingError::LevelMismatch)
            } else {
                Ok(st.text + "}"@)
            },
        }
    }
}

/// A script as the listing takes it: the place where it stands in its
/// map, and its operations.
#[derive(Debug)]
pub struct Bytecode {
    pub offset: u32,
    pub data: Vec<(Operation, Vec<Symbol>)>,
}

/// The model of each operation of a list, in order.
pub open spec fn listing_ops(data: Seq<(Operation, Vec<Symbol>)>) -> Seq<(Opcode, Seq<Symbol>)> {
    Seq::new(data.len(), |i: int| (data[i].0, data[i].1@))
}

/// A listing in the making.
struct Printer {
    out: String,
    level: u64,
    in_case: bool,
}

impl View for Printer {
    type V = Listing;

    closed spec fn view(&self) -> Listing {
        Listing { text: self.out@, level: self.level as nat, in_case: self.in_case }
    }
}

/// Appends four spaces for each open block.
fn push_indent(out: &mut String, level: u64)
    ensures
        final(out)@ == old(out)@ + indentation(level as nat),
{
    let mut i: u64 = 0;
    assert(out@ =~= old(out)@ + indentation(0));
    while i < level
        invariant
            i <= level,
            out@ == old(out)@ + indentation(i as nat),
        decreases level - i,
    {
        out.append("    ");
        i += 1;
        assert(out@ =~= old(out)@ + indentation(i as nat));
    }
}

impl Printer {
    spec fn level(&self) -> nat {
        self.level as nat
    }

    fn raw(self, more: &str) -> (r: Printer)
        ensures
            r@ == self@.raw(more@),
            r.level == self.level,
    {
        let mut p = self;
        p.out.append(more);
        p
    }

    fn indent(self) -> (r: Printer)
        ensures
            r@ == self@.raw(indentation(self.level())),
            r.level == self.level,
    {
        let mut p = self;
        push_indent(&mut p.out, p.level);
        p
    }

    fn line(self, body: &str) -> (r: Printer)
        ensures
            r@ == self@.line(body@),
            r.level == self.level,
    {
        let mut p = self;
        let ghost start = p.out@;
        push_indent(&mut p.out, p.level);
        p.out.append(body);
        p.out.append("\n");
        assert(p.out@ =~= start + (indentation(self.level()) + body@ + "\n"@));
        p
    }

    fn opened(self) -> (r: Printer)
        requires
            self.level < u64::MAX,
        ensures
            r@ == self@.opened(),
            r.level == self.level + 1,
    {
        let mut p = self;
        p.level = p.level + 1;
        p
    }

    fn closed(self) -> (r: Result<Printer, ListingError>)
        ensures
            match self@.closed() {
                Ok(m) => r matches Ok(p) && p@ == m && p.level + 1 == self.level,
                Err(e) => r matches Err(f) && f == e,
            },
    {
        if self.level == 0 {
            Err(ListingError::LevelMismatch)
        } else {
            let mut p = self;
            p.level = p.level - 1;
            Ok(p)
        }
    }

    fn leave_case(self) -> (r: Printer)
        requires
            self.level < u64::MAX,
        ensures
            r@ == self@.leave_case(),
            r.level <= self.level + 1,
    {
        if self.in_case {
            let mut p = self.raw(" {\n").opened();
            p.in_case = false;
            p
        } else {
            self
        }
    }

    fn enter_case(self) -> (r: Result<Printer, ListingError>)
        ensures
            match self@.enter_case() {
                Ok(m) => r matches Ok(p) && p@ == m && p.level <= self.level,
                Err(e) => r matches Err(f) && f == e,
            },
    {
        if self.in_case {
            Ok(self)
        } else {
            match self.closed() {
                Err(e) => Err(e),
                Ok(p) => {
                    let mut p = p.line("}");
                    p.in_case = true;
                    Ok(p)
                },
            }
        }
    }
}

fn infix_str(opcode: Opcode) -> (s: &'static str)
    ensures
        s@ == infix(opcode),
{
    match opcode {
        Opcode::IfEq => " == ",
        Opcode::IfNe => " != ",
        Opcode::IfLt => " < ",
        Opcode::IfGt => " > ",
        Opcode::IfLte => " <= ",
        Opcode::IfGte => " >= ",
        Opcode::IfAndNz => " !& ",
        Opcode::IfAndZ => " & ",
        Opcode::SetInt | Opcode::SetFloat => " = ",
        Opcode::AddInt | Opcode::AddFloat => " += ",
        Opcode::SubInt | Opcode::SubFloat => " -= ",
        Opcode::MulInt | Opcode::MulFloat => " *= ",
        Opcode::DivInt | Opcode::DivFloat => " /= ",
        Opcode::ModInt => " %= ",
        _ => {
            proof {
                reveal_strlit("");
            }
            assert(""@ =~= Seq::<char>::empty());
            ""
        },
    }
}

fn case_str(opcode: Opcode) -> (s: &'static str)
    ensures
        s@ == case_word(opcode),
{
    match opcode {
        Opcode::CaseEq => "case == ",
        Opcode::CaseNe => "case != ",
        Opcode::CaseLt => "case < ",
        Opcode::CaseGt => "case > ",
        Opcode::CaseLte => "case <= ",
        Opcode::CaseGte => "case > ",
        Opcode::CaseOrEq => "case or == ",
        Opcode::CaseAndEq => "case and == ",
        Opcode::CaseAndZ => "case & ",
        Opcode::CaseRange => "case ",
        _ => "default",
    }
}

fn bool_str(b: bool) -> (s: &'static str)
    ensures
        s@ == bool_text(b),
{
    if b {
        "true"
    } else {
        "false"
    }
}

/// A word, the operand at place 0, and what follows it.
fn word_first(word: &str, args: &Vec<Symbol>, after: &str) -> (out: String)
    requires
        args.len() >= 1,
    ensures
        out@ == word@ + args@[0].shown() + after@,
{
    let mut out = String::from_str(word);
    args[0].push_shown(&mut out);
    out.append(after);
    out
}

/// The two operands with the sign of the operation between them.
fn both_sides(opcode: Opcode, args: &Vec<Symbol>) -> (out: String)
    requires
        args.len() >= 2,
    ensures
        out@ == args@[0].shown() + infix(opcode) + args@[1].shown(),
{
    let mut out = String::new();
    args[0].push_shown(&mut out);
    out.append(infix_str(opcode));
    args[1].push_shown(&mut out);
    assert(out@ =~= args@[0].shown() + infix(opcode) + args@[1].shown());
    out
}

/// The line of an operation that is a statement or opens a block.
fn body_of(opcode: Opcode, args: &Vec<Symbol>) -> (r: Result<String, ListingError>)
    requires
        arg_count(opcode).is_some(),
        arg_count(opcode).unwrap() == args.len(),
    ensures
        match body_text(opcode, args@) {
            Ok(body) => r matches Ok(s) && s@ == body,
            Err(e) => r matches Err(f) && f == e,
        },
{
    proof {
        reveal_strlit("");
    }
    assert(""@ =~= Seq::<char>::empty());
    match opcode {
        Opcode::Return => Ok(String::from_str("return")),
        Opcode::Label => {
            let out = word_first("label .o", args, "");
            assert(out@ =~= "label .o"@ + args@[0].shown());
            Ok(out)
        },
        Opcode::Goto => {
            let out = word_first("goto .o", args, "");
            assert(out@ =~= "goto .o"@ + args@[0].shown());
            Ok(out)
        },
        Opcode::BreakLoop => Ok(String::from_str("break loop")),
        Opcode::BreakCase => Ok(String::from_str("break case")),
        Opcode::Wait => {
            let out = word_first("sleep ", args, "");
            assert(out@ =~= "sleep "@ + args@[0].shown());
            Ok(out)
        },
        Opcode::WaitSeconds => Ok(word_first("sleep ", args, " secs")),
        Opcode::Kill => {
            let out = word_first("kill ", args, "");
            assert(out@ =~= "kill "@ + args@[0].shown());
            Ok(out)
        },
        Opcode::UseArray | Opcode::UseFlagArray => {
            let mut out = String::from_str("arr = ");
            args[0].push_shown_hex(&mut out);
            Ok(out)
        },
        Opcode::SetInt | Opcode::SetFloat => {
            if args[0].is_flag() {
                match args[1].as_bool() {
                    Some(b) => {
                        let mut out = String::new();
                        args[0].push_shown(&mut out);
                        out.append(" = ");
                        out.append(bool_str(b));
                        assert(out@ =~= args@[0].shown() + " = "@ + bool_text(b));
                        Ok(out)
                    },
                    None => Err(ListingError::NotBool(opcode)),
                }
            } else {
                Ok(both_sides(opcode, args))
            }
        },
        Opcode::AddInt | Opcode::AddFloat | Opcode::SubInt | Opcode::SubFloat | Opcode::MulInt
        | Opcode::MulFloat | Opcode::DivInt | Opcode::DivFloat | Opcode::ModInt => Ok(
            both_sides(opcode, args),
        ),
        Opcode::Loop => {
            let forever = match args[0] {
                Symbol::Primitive(v) => v == 0,
                _ => false,
            };
            if forever {
                Ok(String::from_str("loop {"))
            } else {
                Ok(word_first("loop ", args, " {"))
            }
        },
        Opcode::IfAndNz | Opcode::IfAndZ => {
            let mut out = String::from_str("if ");
            args[0].push_shown_binary(&mut out);
            out.append(infix_str(opcode));
            args[1].push_shown_binary(&mut out);
            out.append(" {");
            Ok(out)
        },
        Opcode::IfEq | Opcode::IfNe | Opcode::IfLt | Opcode::IfGt | Opcode::IfLte | Opcode::IfGte => {
            let mut out = String::from_str("if ");
            let sides = both_sides(opcode, args);
            out.append(sides.as_str());
            out.append(" {");
            assert(out@ =~= "if "@ + args@[0].shown() + infix(opcode) + args@[1].shown() + " {"@);
            Ok(out)
        },
        Opcode::Thread => Ok(String::from_str("thread {")),
        Opcode::Switch | Opcode::SwitchConst => Ok(word_first("switch ", args, " {")),
        Opcode::CaseDefault => Ok(String::from_str("default")),
        Opcode::CaseRange => {
            let mut out = String::from_str("case ");
            args[0].push_shown(&mut out);
            out.append("..");
            args[1].push_shown(&mut out);
            Ok(out)
        },
        Opcode::CaseEq | Opcode::CaseNe | Opcode::CaseLt | Opcode::CaseGt | Opcode::CaseLte
        | Opcode::CaseGte | Opcode::CaseOrEq | Opcode::CaseAndEq | Opcode::CaseAndZ => {
            let out = word_first(case_str(opcode), args, "");
            assert(out@ =~= case_word(opcode) + args@[0].shown());
            Ok(out)
        },
        _ => Ok(String::new()),
    }
}

/// The error among the first arguments of a call is the error of the
/// call.
pub proof fn lemma_call_arguments_error(
    opcode: Opcode,
    addr: u32,
    sig: Option<Seq<Type>>,
    args: Seq<Symbol>,
    short: nat,
    long: nat,
)
    requires
        short <= long <= args.len(),
        call_arguments(opcode, addr, sig, args, short).is_err(),
    ensures
        call_arguments(opcode, addr, sig, args, long) == call_arguments(
            opcode,
            addr,
            sig,
            args,
            short,
        ),
    decreases long - short,
{
    if short < long {
        lemma_call_arguments_error(opcode, addr, sig, args, short, (long - 1) as nat);
    }
}

/// The model of the types of a method that is known, if it is.
pub open spec fn sig_view(sig: Option<Vec<Type>>) -> Option<Seq<Type>> {
    match sig {
        Some(types) => Some(types@),
        None => None,
    }
}

/// The arguments of a call, each as it is written, with a comma and a
/// space between each two.
fn arguments_of(opcode: Opcode, addr: u32, sig: &Option<Vec<Type>>, args: &Vec<Symbol>) -> (r: Result<
    String,
    ListingError,
>)
    ensures
        match call_arguments(opcode, addr, sig_view(*sig), args@, args@.len()) {
            Ok(written) => r matches Ok(s) && s@ == joined(written, ", "@),
            Err(e) => r matches Err(f) && f == e,
        },
{
    let mut parts: Vec<String> = Vec::new();
    let mut i: usize = 0;
    let ghost types = sig_view(*sig);
    assert(strings_view(parts@) =~= Seq::empty());
    while i < args.len()
        invariant
            i <= args.len(),
            types == sig_view(*sig),
            call_arguments(opcode, addr, types, args@, i as nat) == Ok::<
                Seq<Seq<char>>,
                ListingError,
            >(strings_view(parts@)),
        decreases args.len() - i,
    {
        let ghost before = strings_view(parts@);
        let arg = args[i];
        let written: Result<String, ListingError> = match sig {
            None => {
                let mut out = String::new();
                arg.push_shown_hex(&mut out);
                assert(out@ =~= arg.shown_hex());
                Ok(out)
            },
            Some(list) => {
                if i >= list.len() {
                    Err(ListingError::TooManyArguments(addr))
                } else {
                    let truth = match list[i] {
                        Type::Bool => true,
                        _ => false,
                    };
                    if truth {
                        match arg.as_bool() {
                            Some(b) => Ok(String::from_str(bool_str(b))),
                            None => Err(ListingError::NotBool(opcode)),
                        }
                    } else {
                        Ok(arg.to_text())
                    }
                }
            },
        };
        match written {
            Err(e) => {
                proof {
                    assert(call_arguments(opcode, addr, types, args@, (i + 1) as nat) == Err::<
                        Seq<Seq<char>>,
                        ListingError,
                    >(e));
                    lemma_call_arguments_error(
                        opcode,
                        addr,
                        types,
                        args@,
                        (i + 1) as nat,
                        args@.len(),
                    );
                }
                return Err(e);
            },
            Ok(s) => {
                let ghost added = s@;
                parts.push(s);
                assert(strings_view(parts@) =~= before.push(added));
            },
        }
        i += 1;
    }
    Ok(join(&parts, ", "))
}

/// A call as it is written, with the line break after it.
fn call_of(opcode: Opcode, target: Symbol, args: &Vec<Symbol>) -> (r: Result<String, ListingError>)
    ensures
        match call_text(opcode, target, args@) {
            Ok(text) => r matches Ok(s) && s@ == text,
            Err(e) => r matches Err(f) && f == e,
        },
{
    match target {
        Symbol::Primitive(v) => {
            let addr = unsigned(v);
            if addr == 0x8028_5960 {
                return Ok(String::from_str("enter_walk(var_0)\n"));
            }
            let (mut out, sig): (String, Option<Vec<Type>>) = match lookup_method(addr) {
                Some((name, types)) => (String::from_str(name), Some(types)),
                None => {
                    let mut out = String::from_str("0x");
                    push_hex(&mut out, addr as u64);
                    (out, None)
                },
            };
            let list = match arguments_of(opcode, addr, &sig, args) {
                Err(e) => {
                    return Err(e);
                },
                Ok(s) => s,
            };
            out.append("(");
            out.append(list.as_str());
            out.append(")\n");
            Ok(out)
        },
        _ => {
            let list = match arguments_of(opcode, 0, &None, args) {
                Err(e) => {
                    return Err(e);
                },
                Ok(s) => s,
            };
            let mut out = String::new();
            target.push_shown_hex(&mut out);
            out.append("(");
            out.append(list.as_str());
            out.append(")\n");
            assert(out@ =~= target.shown_hex() + "("@ + list@ + ")\n"@);
            Ok(out)
        },
    }
}

/// The operands from place `from` on.
fn tail_of(args: &Vec<Symbol>, from: usize) -> (tail: Vec<Symbol>)
    requires
        from <= args.len(),
    ensures
        tail@ == args@.subrange(from as int, args@.len() as int),
{
    let mut tail: Vec<Symbol> = Vec::new();
    let mut i: usize = from;
    while i < args.len()
        invariant
            from <= i <= args.len(),
            tail@ == args@.subrange(from as int, i as int),
        decreases args.len() - i,
    {
        tail.push(args[i]);
        i += 1;
        assert(tail@ =~= args@.subrange(from as int, i as int));
    }
    tail
}

/// The line that binds a script to a trigger.
fn bind_of(args: &Vec<Symbol>) -> (r: Result<String, ListingError>)
    requires
        args.len() == 5,
    ensures
        match bind_text(args@) {
            Ok(text) => r matches Ok(s) && s@ == text,
            Err(e) => r matches Err(f) && f == e,
        },
{
    let mut out = String::new();
    match args[4] {
        Symbol::Primitive(n) => {
            if n != 0 {
                return Err(ListingError::BadBind);
            }
        },
        kept => {
            kept.push_shown_hex(&mut out);
            out.append(" = ");
        },
    }
    let ghost head = out@;
    out.append("bind_");
    let trigger = args[1].hint_trigger();
    trigger.push_shown(&mut out);
    out.append("(");
    args[0].push_shown_hex(&mut out);
    out.append(", ");
    args[2].push_shown(&mut out);
    out.append(")");
    assert(out@ =~= head + ("bind_"@ + trigger.shown() + "("@ + args@[0].shown_hex() + ", "@
        + args@[2].shown() + ")"@));
    assert(Seq::<char>::empty() + ("bind_"@ + trigger.shown() + "("@ + args@[0].shown_hex() + ", "@
        + args@[2].shown() + ")"@) =~= "bind_"@ + trigger.shown() + "("@ + args@[0].shown_hex()
        + ", "@ + args@[2].shown() + ")"@);
    Ok(out)
}

/// Whether the operations end at place `i`: with `End`, or because there
/// are no more.
fn at_end(data: &Vec<(Operation, Vec<Symbol>)>, i: usize) -> (b: bool)
    ensures
        b == (i >= data.len() || data@[i as int].0 == Opcode::End),
{
    i >= data.len() || data[i].0 == Opcode::End
}

fn is_statement_op(opcode: Opcode) -> (b: bool)
    ensures
        b == is_statement(opcode),
{
    match opcode {
        Opcode::Return | Opcode::Label | Opcode::Goto | Opcode::BreakLoop | Opcode::BreakCase => true,
        Opcode::Wait | Opcode::WaitSeconds | Opcode::Kill | Opcode::UseArray => true,
        Opcode::UseFlagArray | Opcode::SetInt | Opcode::SetFloat | Opcode::AddInt => true,
        Opcode::AddFloat | Opcode::SubInt | Opcode::SubFloat | Opcode::MulInt => true,
        Opcode::MulFloat | Opcode::DivInt | Opcode::DivFloat | Opcode::ModInt => true,
        _ => false,
    }
}

fn is_opener_op(opcode: Opcode) -> (b: bool)
    ensures
        b == is_opener(opcode),
{
    match opcode {
        Opcode::IfEq | Opcode::IfNe | Opcode::IfLt | Opcode::IfGt | Opcode::IfLte => true,
        Opcode::IfGte | Opcode::IfAndNz | Opcode::IfAndZ | Opcode::Loop | Opcode::Thread => true,
        _ => false,
    }
}

fn is_case_head_op(opcode: Opcode) -> (b: bool)
    ensures
        b == is_case_head(opcode),
{
    match opcode {
        Opcode::CaseEq | Opcode::CaseOrEq | Opcode::CaseNe | Opcode::CaseLt | Opcode::CaseGt => true,
        Opcode::CaseLte | Opcode::CaseGte | Opcode::CaseAndZ | Opcode::CaseDefault => true,
        Opcode::CaseAndEq | Opcode::CaseRange => true,
        _ => false,
    }
}

fn is_unlisted(opcode: Opcode) -> (b: bool)
    ensures
        b == unlisted(opcode),
{
    match opcode {
        Opcode::SetRef | Opcode::UseIntBuffer | Opcode::Get1Int | Opcode::Get2Int => true,
        Opcode::Get3Int | Opcode::Get4Int | Opcode::GetIntN | Opcode::UseFloatBuffer => true,
        Opcode::Get1Float | Opcode::Get2Float | Opcode::Get3Float | Opcode::Get4Float => true,
        Opcode::GetFloatN | Opcode::AllocArray | Opcode::And | Opcode::AndRef | Opcode::Or => true,
        Opcode::OrRef | Opcode::BindLock | Opcode::Unbind | Opcode::Jump => true,
        Opcode::SetPriority | Opcode::SetTimescale | Opcode::SetSuspensionGroup => true,
        Opcode::SuspendAll | Opcode::ResumeAll | Opcode::SuspendOthers => true,
        Opcode::ResumeOthers | Opcode::Suspend | Opcode::Resume | Opcode::DoesScriptExist => true,
        Opcode::ChildThread => true,
        _ => false,
    }
}

fn count_of(opcode: Opcode) -> (n: Option<usize>)
    ensures
        match arg_count(opcode) {
            Some(k) => n == Some(k as usize) && k <= 5,
            None => n.is_none(),
        },
{
    match opcode {
        Opcode::Return | Opcode::BreakLoop | Opcode::BreakCase | Opcode::EndLoop | Opcode::Else => {
            Some(0)
        },
        Opcode::EndIf | Opcode::CaseDefault | Opcode::EndCaseGroup | Opcode::EndSwitch => Some(0),
        Opcode::Thread | Opcode::EndThread | Opcode::EndChildThread => Some(0),
        Opcode::Label | Opcode::Goto | Opcode::Loop | Opcode::Wait | Opcode::WaitSeconds => Some(1),
        Opcode::Switch | Opcode::SwitchConst | Opcode::CaseEq | Opcode::CaseNe => Some(1),
        Opcode::CaseLt | Opcode::CaseGt | Opcode::CaseLte | Opcode::CaseGte => Some(1),
        Opcode::CaseOrEq | Opcode::CaseAndEq | Opcode::CaseAndZ | Opcode::UseArray => Some(1),
        Opcode::UseFlagArray | Opcode::Kill => Some(1),
        Opcode::IfEq | Opcode::IfNe | Opcode::IfLt | Opcode::IfGt | Opcode::IfLte => Some(2),
        Opcode::IfGte | Opcode::IfAndNz | Opcode::IfAndZ | Opcode::CaseRange => Some(2),
        Opcode::SetInt | Opcode::SetFloat | Opcode::AddInt | Opcode::AddFloat => Some(2),
        Opcode::SubInt | Opcode::SubFloat | Opcode::MulInt | Opcode::MulFloat => Some(2),
        Opcode::DivInt | Opcode::DivFloat | Opcode::ModInt => Some(2),
        Opcode::Bind => Some(5),
        _ => None,
    }
}

/// Writes one more operation.
fn step_once(p: Printer, opcode: Opcode, args: &Vec<Symbol>) -> (r: Result<Printer, ListingError>)
    requires
        p.level < 0x1_0000_0000_0000,
    ensures
        match step(p@, opcode, args@) {
            Ok(m) => r matches Ok(q) && q@ == m && q.level <= p.level + 2,
            Err(e) => r matches Err(f) && f == e,
        },
{
    if is_unlisted(opcode) {
        return Err(ListingError::Unimplemented(opcode));
    }
    match count_of(opcode) {
        Some(k) => {
            if args.len() != k {
                return Err(ListingError::ArgCount(opcode));
            }
        },
        None => {},
    }
    if is_statement_op(opcode) {
        match body_of(opcode, args) {
            Err(e) => Err(e),
            Ok(body) => Ok(p.leave_case().line(body.as_str())),
        }
    } else if is_opener_op(opcode) {
        match body_of(opcode, args) {
            Err(e) => Err(e),
            Ok(body) => Ok(p.leave_case().line(body.as_str()).opened()),
        }
    } else if opcode == Opcode::EndLoop || opcode == Opcode::EndIf || opcode == Opcode::EndThread
        || opcode == Opcode::EndChildThread {
        match p.leave_case().closed() {
            Err(e) => Err(e),
            Ok(shut) => Ok(shut.line("}")),
        }
    } else if opcode == Opcode::Else {
        match p.leave_case().closed() {
            Err(e) => Err(e),
            Ok(shut) => Ok(shut.line("} else {").opened()),
        }
    } else if opcode == Opcode::EndSwitch {
        match p.leave_case().closed() {
            Err(e) => Err(e),
            Ok(arm) => match arm.line("}").closed() {
                Err(e) => Err(e),
                Ok(whole) => Ok(whole.line("}")),
            },
        }
    } else if opcode == Opcode::Switch || opcode == Opcode::SwitchConst {
        if p.in_case {
            return Err(ListingError::DoubleSwitch);
        }
        match body_of(opcode, args) {
            Err(e) => Err(e),
            Ok(body) => {
                let mut q = p.line(body.as_str()).opened();
                q.in_case = true;
                Ok(q)
            },
        }
    } else if is_case_head_op(opcode) {
        match p.enter_case() {
            Err(e) => Err(e),
            Ok(at) => match body_of(opcode, args) {
                Err(e) => Err(e),
                Ok(body) => {
                    let ghost start = at@;
                    let q = at.indent().raw(body.as_str());
                    assert(q@.text =~= start.raw(indentation(start.level) + body@).text);
                    Ok(q)
                },
            },
        }
    } else if opcode == Opcode::EndCaseGroup {
        if p.in_case {
            let mut q = p.raw("{}\n");
            q.in_case = false;
            Ok(q)
        } else {
            Ok(p)
        }
    } else if opcode == Opcode::Call || opcode == Opcode::ExecWait || opcode == Opcode::Exec {
        if args.len() == 0 {
            return Err(ListingError::MalformedCallTarget(opcode));
        }
        let tail = tail_of(args, 1);
        let call = match call_of(opcode, args[0], &tail) {
            Err(e) => {
                return Err(e);
            },
            Ok(s) => s,
        };
        let at = p.leave_case();
        let ghost start = at@;
        let mut q = at.indent();
        if opcode == Opcode::Exec {
            q = q.raw("thread ");
        }
        let q = q.raw(call.as_str());
        assert(q@.text =~= start.raw(
            indentation(start.level) + (if opcode == Opcode::Exec {
                "thread "@
            } else {
                Seq::empty()
            }) + call@,
        ).text);
        Ok(q)
    } else if opcode == Opcode::ExecRet {
        if args.len() < 2 {
            return Err(ListingError::ArgCount(opcode));
        }
        let mut tail: Vec<Symbol> = Vec::new();
        tail.push(args[1]);
        if args.len() > 2 {
            let mut more = tail_of(args, 3);
            tail.append(&mut more);
        }
        let ghost passed = without_third(args@);
        assert(tail@ =~= passed.subrange(1, passed.len() as int));
        assert(passed[0] == args@[0]);
        let call = match call_of(opcode, args[0], &tail) {
            Err(e) => {
                return Err(e);
            },
            Ok(s) => s,
        };
        let at = p.leave_case();
        let ghost start = at@;
        let mut head = String::new();
        args[1].push_shown(&mut head);
        head.append(" = thread ");
        let q = at.indent().raw(head.as_str()).raw(call.as_str());
        assert(q@.text =~= start.raw(
            indentation(start.level) + args@[1].shown() + " = thread "@ + call@,
        ).text);
        Ok(q)
    } else if opcode == Opcode::Bind {
        match bind_of(args) {
            Err(e) => Err(e),
            Ok(body) => Ok(p.leave_case().line(body.as_str())),
        }
    } else {
        Ok(p)
    }
}

impl Bytecode {
    /// A script for listing, from its operations as they were read.
    pub fn from_operations(offset: u32, ops: &Vec<crate::bytecode::Operation>) -> (bc: Bytecode)
        ensures
            bc.offset == offset,
            listing_ops(bc.data@) == Seq::new(
                ops@.len(),
                |i: int| (ops@[i].0, Seq::new(ops@[i].1@.len(), |k: int| Symbol::of(ops@[i].1@[k].0))),
            ),
    {
        let mut data: Vec<(Operation, Vec<Symbol>)> = Vec::new();
        let mut i: usize = 0;
        while i < ops.len()
            invariant
                i <= ops.len(),
                data@.len() == i,
                forall|j: int|
                    0 <= j < i ==> data@[j].0 == ops@[j].0 && data@[j].1@ == Seq::new(
                        ops@[j].1@.len(),
                        |k: int| Symbol::of(ops@[j].1@[k].0),
                    ),
            decreases ops.len() - i,
        {
            let mut symbols: Vec<Symbol> = Vec::new();
            let mut k: usize = 0;
            while k < ops[i].1.len()
                invariant
                    i < ops.len(),
                    k <= ops@[i as int].1@.len(),
                    symbols@.len() == k,
                    forall|m: int| 0 <= m < k ==> symbols@[m] == Symbol::of(ops@[i as int].1@[m].0),
                decreases ops@[i as int].1@.len() - k,
            {
                symbols.push(Symbol::from(ops[i].1[k].0));
                k += 1;
            }
            assert(symbols@ =~= Seq::new(
                ops@[i as int].1@.len(),
                |k: int| Symbol::of(ops@[i as int].1@[k].0),
            ));
            data.push((ops[i].0, symbols));
            i += 1;
        }
        let bc = Bytecode { offset, data };
        assert(listing_ops(bc.data@) =~= Seq::new(
            ops@.len(),
            |i: int| (ops@[i].0, Seq::new(ops@[i].1@.len(), |k: int| Symbol::of(ops@[i].1@[k].0))),
        ));
        bc
    }

    /// The script as a listing of source text: a line for each operation
    /// up to `End`, indented by the blocks that are open.
    #[verifier::loop_isolation(false)]
    pub fn to_text(&self) -> (r: Result<String, ListingError>)
        ensures
            match listed(self.offset, listing_ops(self.data@)) {
                Ok(text) => r matches Ok(s) && s@ == text,
                Err(e) => r matches Err(f) && f == e,
            },
    {
        if self.data.len() > 0xFFFF_FFFF {
            return Err(ListingError::TooLong);
        }
        let mut out = String::from_str("fun dump_");
        push_hex_lower(&mut out, self.offset as u64);
        out.append("() {\n");
        let mut p = Printer { out, level: 1, in_case: false };
        let ghost ops = listing_ops(self.data@);
        let ghost whole = run(ops, 0, p@);
        let mut i: usize = 0;
        while !at_end(&self.data, i)
            invariant
                i <= self.data.len(),
                self.data.len() <= 0xFFFF_FFFF,
                ops == listing_ops(self.data@),
                p.level <= 2 * i + 1,
                whole == run(ops, i as int, p@),
            decreases self.data.len() - i,
        {
            p = match step_once(p, self.data[i].0, &self.data[i].1) {
                Err(e) => {
                    return Err(e);
                },
                Ok(q) => q,
            };
            i += 1;
        }
        assert(whole == Ok::<Listing, ListingError>(p@));
        if p.level != 1 {
            return Err(ListingError::LevelMismatch);
        }
        let mut out = p.out;
        out.append("}");
        Ok(out)
    }

    /// The addresses of the map that the script refers to, each with what
    /// the way it is used tells of it. A variable may be set to an
    /// address; a call names its target, native code for `Call` and a
    /// script for the others; the arguments of a call to a method that
    /// is known are what the method takes in their place, those of any
    /// other call are unknown. An address that repeats the one found
    /// just before it is left out.
    #[verifier::loop_isolation(false)]
    pub fn scan_data_offsets(&self) -> (r: Result<Vec<(DataType, u32)>, ListingError>)
        ensures
            match scanned(listing_ops(self.data@), 0, Seq::empty()) {
                Ok(found) => r matches Ok(list) && list@ == dedup_offsets(found),
                Err(e) => r matches Err(f) && f == e,
            },
    {
        let mut ptrs: Vec<(DataType, u32)> = Vec::new();
        let ghost ops = listing_ops(self.data@);
        let ghost whole = scanned(ops, 0, Seq::empty());
        let mut i: usize = 0;
        while !at_end(&self.data, i)
            invariant
                i <= self.data.len(),
                ops == listing_ops(self.data@),
                whole == scanned(ops, i as int, ptrs@),
            decreases self.data.len() - i,
        {
            match scan_operation(self.data[i].0, &self.data[i].1, &mut ptrs) {
                Err(e) => {
                    return Err(e);
                },
                Ok(()) => {},
            }
            i += 1;
        }
        assert(whole == Ok::<Seq<(DataType, u32)>, ListingError>(ptrs@));
        Ok(dedup(ptrs))
    }
}

/// The list with an address added, if the operand is one.
pub open spec fn found(list: Seq<(DataType, u32)>, kind: DataType, sym: Symbol) -> Seq<
    (DataType, u32),
> {
    match sym {
        Symbol::Pointer(offset) => list.push((kind, offset)),
        _ => list,
    }
}

/// The list with the addresses among the operands from place `from` up to
/// place `to` added, all of one kind.
pub open spec fn found_all(list: Seq<(DataType, u32)>, args: Seq<Symbol>, from: int, to: int) -> Seq<
    (DataType, u32),
>
    decreases to - from,
{
    if from >= to || to > args.len() || from < 0 {
        list
    } else {
        found(found_all(list, args, from, to - 1), DataType::Unknown, args[to - 1])
    }
}

/// The list with the addresses among the arguments of a call to a known
/// method added, up to place `to` of the operands: those that the method
/// takes as a script or as native code. `None` if the call has more
/// arguments than the method takes.
pub open spec fn found_typed(
    list: Seq<(DataType, u32)>,
    types: Seq<Type>,
    args: Seq<Symbol>,
    to: int,
) -> Option<Seq<(DataType, u32)>>
    decreases to,
{
    if to <= 1 || to > args.len() {
        Some(list)
    } else {
        match found_typed(list, types, args, to - 1) {
            None => None,
            Some(before) => if to - 2 >= types.len() {
                None
            } else if types[to - 2] == Type::Function {
                Some(found(before, DataType::Function, args[to - 1]))
            } else if types[to - 2] == Type::Asm {
                Some(found(before, DataType::Asm, args[to - 1]))
            } else {
                Some(before)
            },
        }
    }
}

/// The list with the addresses that one operation refers to added.
pub open spec fn scan_step(list: Seq<(DataType, u32)>, opcode: Opcode, args: Seq<Symbol>) -> Result<
    Seq<(DataType, u32)>,
    ListingError,
> {
    if opcode == Opcode::SetInt || opcode == Opcode::SetRef {
        if args.len() < 2 {
            Err(ListingError::ArgCount(opcode))
        } else {
            Ok(found(list, DataType::Unknown, args[1]))
        }
    } else if opcode == Opcode::Call || opcode == Opcode::Exec || opcode == Opcode::ExecWait
        || opcode == Opcode::ExecRet {
        if args.len() < 1 {
            Err(ListingError::ArgCount(opcode))
        } else {
            let target = found(
                list,
                if opcode == Opcode::Call {
                    DataType::Asm
                } else {
                    DataType::Function
                },
                args[0],
            );
            match args[0] {
                Symbol::Pointer(_) => Ok(found_all(target, args, 1, args.len() as int)),
                Symbol::Primitive(v) => match known_method(wrapped(v as int) as u32) {
                    None => Ok(found_all(target, args, 1, args.len() as int)),
                    Some((_, types)) => match found_typed(target, types, args, args.len() as int) {
                        Some(all) => Ok(all),
                        None => Err(ListingError::TooManyArguments(wrapped(v as int) as u32)),
                    },
                },
                _ => Err(ListingError::MalformedCallTarget(opcode)),
            }
        }
    } else {
        Ok(list)
    }
}

/// The addresses that the operations from place `i` on refer to, up to
/// the first `End`, added to `list`.
pub open spec fn scanned(ops: Seq<(Opcode, Seq<Symbol>)>, i: int, list: Seq<(DataType, u32)>) -> Result<
    Seq<(DataType, u32)>,
    ListingError,
>
    decreases ops.len() - i,
{
    if i < 0 || i >= ops.len() || ops[i].0 == Opcode::End {
        Ok(list)
    } else {
        match scan_step(list, ops[i].0, ops[i].1) {
            Err(e) => Err(e),
            Ok(next) => scanned(ops, i + 1, next),
        }
    }
}

/// The list without each address that repeats the one kept before it.
pub open spec fn dedup_offsets(list: Seq<(DataType, u32)>) -> Seq<(DataType, u32)>
    decreases list.len(),
{
    if list.len() == 0 {
        Seq::empty()
    } else {
        let before = dedup_offsets(list.drop_last());
        if before.len() > 0 && before.last().1 == list.last().1 {
            before
        } else {
            before.push(list.last())
        }
    }
}

fn note(list: &mut Vec<(DataType, u32)>, kind: DataType, sym: Symbol)
    ensures
        final(list)@ == found(old(list)@, kind, sym),
{
    match sym.as_offset() {
        Some(offset) => {
            list.push((kind, offset));
        },
        None => {},
    }
}

#[verifier::loop_isolation(false)]
fn scan_operation(opcode: Opcode, args: &Vec<Symbol>, list: &mut Vec<(DataType, u32)>) -> (r: Result<
    (),
    ListingError,
>)
    ensures
        match scan_step(old(list)@, opcode, args@) {
            Ok(next) => r.is_ok() && final(list)@ == next,
            Err(e) => r matches Err(f) && f == e,
        },
{
    match opcode {
        Opcode::SetInt | Opcode::SetRef => {
            if args.len() < 2 {
                return Err(ListingError::ArgCount(opcode));
            }
            note(list, DataType::Unknown, args[1]);
            Ok(())
        },
        Opcode::Call | Opcode::Exec | Opcode::ExecWait | Opcode::ExecRet => {
            if args.len() < 1 {
                return Err(ListingError::ArgCount(opcode));
            }
            let kind = if opcode == Opcode::Call {
                DataType::Asm
            } else {
                DataType::Function
            };
            note(list, kind, args[0]);
            let ghost target = list@;
            let known: Option<Vec<Type>> = match args[0] {
                Symbol::Pointer(_) => None,
                Symbol::Primitive(v) => match lookup_method(unsigned(v)) {
                    Some((_, types)) => Some(types),
                    None => None,
                },
                _ => {
                    return Err(ListingError::MalformedCallTarget(opcode));
                },
            };
            match known {
                None => {
                    let mut k: usize = 1;
                    while k < args.len()
                        invariant
                            1 <= k <= args.len(),
                            list@ == found_all(target, args@, 1, k as int),
                        decreases args.len() - k,
                    {
                        note(list, DataType::Unknown, args[k]);
                        k += 1;
                    }
                    Ok(())
                },
                Some(types) => {
                    let mut k: usize = 1;
                    while k < args.len()
                        invariant
                            1 <= k <= args.len(),
                            found_typed(target, types@, args@, k as int) == Some(list@),
                        decreases args.len() - k,
                    {
                        if k - 1 >= types.len() {
                            proof {
                                assert(found_typed(target, types@, args@, k + 1).is_none());
                                lemma_found_typed_none(
                                    target,
                                    types@,
                                    args@,
                                    k + 1,
                                    args@.len() as int,
                                );
                            }
                            return Err(
                                ListingError::TooManyArguments(
                                    match args[0] {
                                        Symbol::Primitive(v) => unsigned(v),
                                        _ => 0,
                                    },
                                ),
                            );
                        }
                        match types[k - 1] {
                            Type::Function => {
                                note(list, DataType::Function, args[k]);
                            },
                            Type::Asm => {
                                note(list, DataType::Asm, args[k]);
                            },
                            _ => {},
                        }
                        k += 1;
                    }
                    Ok(())
                },
            }
        },
        _ => Ok(()),
    }
}

/// Once a call has more arguments than its method takes, it has with
/// every further argument.
pub proof fn lemma_found_typed_none(
    list: Seq<(DataType, u32)>,
    types: Seq<Type>,
    args: Seq<Symbol>,
    short: int,
    long: int,
)
    requires
        2 <= short <= long <= args.len(),
        found_typed(list, types, args, short).is_none(),
    ensures
        found_typed(list, types, args, long).is_none(),
    decreases long - short,
{
    if short < long {
        lemma_found_typed_none(list, types, args, short, long - 1);
    }
}

/// Leaves out each address that repeats the one kept before it.
fn dedup(list: Vec<(DataType, u32)>) -> (kept: Vec<(DataType, u32)>)
    ensures
        kept@ == dedup_offsets(list@),
{
    let mut kept: Vec<(DataType, u32)> = Vec::new();
    let mut i: usize = 0;
    assert(list@.take(0) =~= Seq::empty());
    while i < list.len()
        invariant
            i <= list.len(),
            kept@ == dedup_offsets(list@.take(i as int)),
        decreases list.len() - i,
    {
        assert(list@.take(i + 1).drop_last() =~= list@.take(i as int));
        assert(list@.take(i + 1).last() == list@[i as int]);
        let n = kept.len();
        if !(n > 0 && kept[n - 1].1 == list[i].1) {
            kept.push(list[i]);
        }
        i += 1;
    }
    assert(list@.take(i as int) =~= list@);
    kept
}

} // verus!
