//! The instruction set of the scripting bytecode.

use vstd::prelude::*;
use crate::ast::Operator;

verus! {

/// One instruction of the bytecode. The game stores opcodes as words,
/// counting from one in the order given here.
#[derive(Debug, Clone, Copy, PartialEq, Eq, Hash, Structural)]
pub enum Opcode {
    End,
    Return,
    Label,
    Goto,
    Loop,
    EndLoop,
    BreakLoop,
    Wait,
    WaitSeconds,
    IfEq,
    IfNe,
    IfLt,
    IfGt,
    IfLte,
    IfGte,
    IfAndNz,
    IfAndZ,
    Else,
    EndIf,
    Switch,
    SwitchConst,
    CaseEq,
    CaseNe,
    CaseLt,
    CaseGt,
    CaseLte,
    CaseGte,
    CaseDefault,
    CaseOrEq,
    CaseAndEq,
    CaseAndZ,
    EndCaseGroup,
    CaseRange,
    BreakCase,
    EndSwitch,
    SetInt,
    SetRef,
    SetFloat,
    AddInt,
    SubInt,
    MulInt,
    DivInt,
    ModInt,
    AddFloat,
    SubFloat,
    MulFloat,
    DivFloat,
    UseIntBuffer,
    Get1Int,
    Get2Int,
    Get3Int,
    Get4Int,
    GetIntN,
    UseFloatBuffer,
    Get1Float,
    Get2Float,
    Get3Float,
    Get4Float,
    GetFloatN,
    UseArray,
    UseFlagArray,
    AllocArray,
    And,
    AndRef,
    Or,
    OrRef,
    Call,
    Exec,
    ExecRet,
    ExecWait,
    Bind,
    Unbind,
    Kill,
    Jump,
    SetPriority,
    SetTimescale,
    SetSuspensionGroup,
    BindLock,
    SuspendAll,
    ResumeAll,
    SuspendOthers,
    ResumeOthers,
    Suspend,
    Resume,
    DoesScriptExist,
    Thread,
    EndThread,
    ChildThread,
    EndChildThread,
}

/// The largest word that is an opcode.
pub const LAST_OPCODE: u32 = 89;

impl Opcode {
    /// The word that stands for the opcode in bytecode.
    pub open spec fn code(self) -> u32 {
        match self {
            Opcode::End => 1,
            Opcode::Return => 2,
            Opcode::Label => 3,
            Opcode::Goto => 4,
            Opcode::Loop => 5,
            Opcode::EndLoop => 6,
            Opcode::BreakLoop => 7,
            Opcode::Wait => 8,
            Opcode::WaitSeconds => 9,
            Opcode::IfEq => 10,
            Opcode::IfNe => 11,
            Opcode::IfLt => 12,
            Opcode::IfGt => 13,
            Opcode::IfLte => 14,
            Opcode::IfGte => 15,
            Opcode::IfAndNz => 16,
            Opcode::IfAndZ => 17,
            Opcode::Else => 18,
            Opcode::EndIf => 19,
            Opcode::Switch => 20,
            Opcode::SwitchConst => 21,
            Opcode::CaseEq => 22,
            Opcode::CaseNe => 23,
            Opcode::CaseLt => 24,
            Opcode::CaseGt => 25,
            Opcode::CaseLte => 26,
            Opcode::CaseGte => 27,
            Opcode::CaseDefault => 28,
            Opcode::CaseOrEq => 29,
            Opcode::CaseAndEq => 30,
            Opcode::CaseAndZ => 31,
            Opcode::EndCaseGroup => 32,
            Opcode::CaseRange => 33,
            Opcode::BreakCase => 34,
            Opcode::EndSwitch => 35,
            Opcode::SetInt => 36,
            Opcode::SetRef => 37,
            Opcode::SetFloat => 38,
            Opcode::AddInt => 39,
            Opcode::SubInt => 40,
            Opcode::MulInt => 41,
            Opcode::DivInt => 42,
            Opcode::ModInt => 43,
            Opcode::AddFloat => 44,
            Opcode::SubFloat => 45,
            Opcode::MulFloat => 46,
            Opcode::DivFloat => 47,
            Opcode::UseIntBuffer => 48,
            Opcode::Get1Int => 49,
            Opcode::Get2Int => 50,
            Opcode::Get3Int => 51,
            Opcode::Get4Int => 52,
            Opcode::GetIntN => 53,
            Opcode::UseFloatBuffer => 54,
            Opcode::Get1Float => 55,
            Opcode::Get2Float => 56,
            Opcode::Get3Float => 57,
            Opcode::Get4Float => 58,
            Opcode::GetFloatN => 59,
            Opcode::UseArray => 60,
            Opcode::UseFlagArray => 61,
            Opcode::AllocArray => 62,
            Opcode::And => 63,
            Opcode::AndRef => 64,
            Opcode::Or => 65,
            Opcode::OrRef => 66,
            Opcode::Call => 67,
            Opcode::Exec => 68,
            Opcode::ExecRet => 69,
            Opcode::ExecWait => 70,
            Opcode::Bind => 71,
            Opcode::Unbind => 72,
            Opcode::Kill => 73,
            Opcode::Jump => 74,
            Opcode::SetPriority => 75,
            Opcode::SetTimescale => 76,
            Opcode::SetSuspensionGroup => 77,
            Opcode::BindLock => 78,
            Opcode::SuspendAll => 79,
            Opcode::ResumeAll => 80,
            Opcode::SuspendOthers => 81,
            Opcode::ResumeOthers => 82,
            Opcode::Suspend => 83,
            Opcode::Resume => 84,
            Opcode::DoesScriptExist => 85,
            Opcode::Thread => 86,
            Opcode::EndThread => 87,
            Opcode::ChildThread => 88,
            Opcode::EndChildThread => 89,
        }
    }

    /// The opcode that a word stands for, if any.
    pub open spec fn with_code(word: u32) -> Option<Opcode> {
        if word == 1 {
            Some(Opcode::End)
        } else if word == 2 {
            Some(Opcode::Return)
        } else if word == 3 {
            Some(Opcode::Label)
        } else if word == 4 {
            Some(Opcode::Goto)
        } else if word == 5 {
            Some(Opcode::Loop)
        } else if word == 6 {
            Some(Opcode::EndLoop)
        } else if word == 7 {
            Some(Opcode::BreakLoop)
        } else if word == 8 {
            Some(Opcode::Wait)
        } else if word == 9 {
            Some(Opcode::WaitSeconds)
        } else if word == 10 {
            Some(Opcode::IfEq)
        } else if word == 11 {
            Some(Opcode::IfNe)
        } else if word == 12 {
            Some(Opcode::IfLt)
        } else if word == 13 {
            Some(Opcode::IfGt)
        } else if word == 14 {
            Some(Opcode::IfLte)
        } else if word == 15 {
            Some(Opcode::IfGte)
        } else if word == 16 {
            Some(Opcode::IfAndNz)
        } else if word == 17 {
            Some(Opcode::IfAndZ)
        } else if word == 18 {
            Some(Opcode::Else)
        } else if word == 19 {
            Some(Opcode::EndIf)
        } else if word == 20 {
            Some(Opcode::Switch)
        } else if word == 21 {
            Some(Opcode::SwitchConst)
        } else if word == 22 {
            Some(Opcode::CaseEq)
        } else if word == 23 {
            Some(Opcode::CaseNe)
        } else if word == 24 {
            Some(Opcode::CaseLt)
        } else if word == 25 {
            Some(Opcode::CaseGt)
        } else if word == 26 {
            Some(Opcode::CaseLte)
        } else if word == 27 {
            Some(Opcode::CaseGte)
        } else if word == 28 {
            Some(Opcode::CaseDefault)
        } else if word == 29 {
            Some(Opcode::CaseOrEq)
        } else if word == 30 {
            Some(Opcode::CaseAndEq)
        } else if word == 31 {
            Some(Opcode::CaseAndZ)
        } else if word == 32 {
            Some(Opcode::EndCaseGroup)
        } else if word == 33 {
            Some(Opcode::CaseRange)
        } else if word == 34 {
            Some(Opcode::BreakCase)
        } else if word == 35 {
            Some(Opcode::EndSwitch)
        } else if word == 36 {
            Some(Opcode::SetInt)
        } else if word == 37 {
            Some(Opcode::SetRef)
        } else if word == 38 {
            Some(Opcode::SetFloat)
        } else if word == 39 {
            Some(Opcode::AddInt)
        } else if word == 40 {
            Some(Opcode::SubInt)
        } else if word == 41 {
            Some(Opcode::MulInt)
        } else if word == 42 {
            Some(Opcode::DivInt)
        } else if word == 43 {
            Some(Opcode::ModInt)
        } else if word == 44 {
            Some(Opcode::AddFloat)
        } else if word == 45 {
            Some(Opcode::SubFloat)
        } else if word == 46 {
            Some(Opcode::MulFloat)
        } else if word == 47 {
            Some(Opcode::DivFloat)
        } else if word == 48 {
            Some(Opcode::UseIntBuffer)
        } else if word == 49 {
            Some(Opcode::Get1Int)
        } else if word == 50 {
            Some(Opcode::Get2Int)
        } else if word == 51 {
            Some(Opcode::Get3Int)
        } else if word == 52 {
            Some(Opcode::Get4Int)
        } else if word == 53 {
            Some(Opcode::GetIntN)
        } else if word == 54 {
            Some(Opcode::UseFloatBuffer)
        } else if word == 55 {
            Some(Opcode::Get1Float)
        } else if word == 56 {
            Some(Opcode::Get2Float)
        } else if word == 57 {
            Some(Opcode::Get3Float)
        } else if word == 58 {
            Some(Opcode::Get4Float)
        } else if word == 59 {
            Some(Opcode::GetFloatN)
        } else if word == 60 {
            Some(Opcode::UseArray)
        } else if word == 61 {
            Some(Opcode::UseFlagArray)
        } else if word == 62 {
            Some(Opcode::AllocArray)
        } else if word == 63 {
            Some(Opcode::And)
        } else if word == 64 {
            Some(Opcode::AndRef)
        } else if word == 65 {
            Some(Opcode::Or)
        } else if word == 66 {
            Some(Opcode::OrRef)
        } else if word == 67 {
            Some(Opcode::Call)
        } else if word == 68 {
            Some(Opcode::Exec)
        } else if word == 69 {
            Some(Opcode::ExecRet)
        } else if word == 70 {
            Some(Opcode::ExecWait)
        } else if word == 71 {
            Some(Opcode::Bind)
        } else if word == 72 {
            Some(Opcode::Unbind)
        } else if word == 73 {
            Some(Opcode::Kill)
        } else if word == 74 {
            Some(Opcode::Jump)
        } else if word == 75 {
            Some(Opcode::SetPriority)
        } else if word == 76 {
            Some(Opcode::SetTimescale)
        } else if word == 77 {
            Some(Opcode::SetSuspensionGroup)
        } else if word == 78 {
            Some(Opcode::BindLock)
        } else if word == 79 {
            Some(Opcode::SuspendAll)
        } else if word == 80 {
            Some(Opcode::ResumeAll)
        } else if word == 81 {
            Some(Opcode::SuspendOthers)
        } else if word == 82 {
            Some(Opcode::ResumeOthers)
        } else if word == 83 {
            Some(Opcode::Suspend)
        } else if word == 84 {
            Some(Opcode::Resume)
        } else if word == 85 {
            Some(Opcode::DoesScriptExist)
        } else if word == 86 {
            Some(Opcode::Thread)
        } else if word == 87 {
            Some(Opcode::EndThread)
        } else if word == 88 {
            Some(Opcode::ChildThread)
        } else if word == 89 {
            Some(Opcode::EndChildThread)
        } else {
            None
        }
    }

    /// The word that stands for the opcode in bytecode.
    pub fn to_u32(self) -> (word: u32)
        ensures
            word == self.code(),
            1 <= word <= LAST_OPCODE,
    {
        match self {
            Opcode::End => 1,
            Opcode::Return => 2,
            Opcode::Label => 3,
            Opcode::Goto => 4,
            Opcode::Loop => 5,
            Opcode::EndLoop => 6,
            Opcode::BreakLoop => 7,
            Opcode::Wait => 8,
            Opcode::WaitSeconds => 9,
            Opcode::IfEq => 10,
            Opcode::IfNe => 11,
            Opcode::IfLt => 12,
            Opcode::IfGt => 13,
            Opcode::IfLte => 14,
            Opcode::IfGte => 15,
            Opcode::IfAndNz => 16,
            Opcode::IfAndZ => 17,
            Opcode::Else => 18,
            Opcode::EndIf => 19,
            Opcode::Switch => 20,
            Opcode::SwitchConst => 21,
            Opcode::CaseEq => 22,
            Opcode::CaseNe => 23,
            Opcode::CaseLt => 24,
            Opcode::CaseGt => 25,
            Opcode::CaseLte => 26,
            Opcode::CaseGte => 27,
            Opcode::CaseDefault => 28,
            Opcode::CaseOrEq => 29,
            Opcode::CaseAndEq => 30,
            Opcode::CaseAndZ => 31,
            Opcode::EndCaseGroup => 32,
            Opcode::CaseRange => 33,
            Opcode::BreakCase => 34,
            Opcode::EndSwitch => 35,
            Opcode::SetInt => 36,
            Opcode::SetRef => 37,
            Opcode::SetFloat => 38,
            Opcode::AddInt => 39,
            Opcode::SubInt => 40,
            Opcode::MulInt => 41,
            Opcode::DivInt => 42,
            Opcode::ModInt => 43,
            Opcode::AddFloat => 44,
            Opcode::SubFloat => 45,
            Opcode::MulFloat => 46,
            Opcode::DivFloat => 47,
            Opcode::UseIntBuffer => 48,
            Opcode::Get1Int => 49,
            Opcode::Get2Int => 50,
            Opcode::Get3Int => 51,
            Opcode::Get4Int => 52,
            Opcode::GetIntN => 53,
            Opcode::UseFloatBuffer => 54,
            Opcode::Get1Float => 55,
            Opcode::Get2Float => 56,
            Opcode::Get3Float => 57,
            Opcode::Get4Float => 58,
            Opcode::GetFloatN => 59,
            Opcode::UseArray => 60,
            Opcode::UseFlagArray => 61,
            Opcode::AllocArray => 62,
            Opcode::And => 63,
            Opcode::AndRef => 64,
            Opcode::Or => 65,
            Opcode::OrRef => 66,
            Opcode::Call => 67,
            Opcode::Exec => 68,
            Opcode::ExecRet => 69,
            Opcode::ExecWait => 70,
            Opcode::Bind => 71,
            Opcode::Unbind => 72,
            Opcode::Kill => 73,
            Opcode::Jump => 74,
            Opcode::SetPriority => 75,
            Opcode::SetTimescale => 76,
            Opcode::SetSuspensionGroup => 77,
            Opcode::BindLock => 78,
            Opcode::SuspendAll => 79,
            Opcode::ResumeAll => 80,
            Opcode::SuspendOthers => 81,
            Opcode::ResumeOthers => 82,
            Opcode::Suspend => 83,
            Opcode::Resume => 84,
            Opcode::DoesScriptExist => 85,
            Opcode::Thread => 86,
            Opcode::EndThread => 87,
            Opcode::ChildThread => 88,
            Opcode::EndChildThread => 89,
        }
    }

    /// Reads a word as an opcode. Words from one up to `LAST_OPCODE` are
    /// opcodes; no other word is.
    pub fn from_u32(word: u32) -> (op: Option<Opcode>)
        ensures
            op == Self::with_code(word),
            op.is_some() <==> 1 <= word <= LAST_OPCODE,
            op matches Some(o) ==> o.code() == word,
    {
        match word {
            1 => Some(Opcode::End),
            2 => Some(Opcode::Return),
            3 => Some(Opcode::Label),
            4 => Some(Opcode::Goto),
            5 => Some(Opcode::Loop),
            6 => Some(Opcode::EndLoop),
            7 => Some(Opcode::BreakLoop),
            8 => Some(Opcode::Wait),
            9 => Some(Opcode::WaitSeconds),
            10 => Some(Opcode::IfEq),
            11 => Some(Opcode::IfNe),
            12 => Some(Opcode::IfLt),
            13 => Some(Opcode::IfGt),
            14 => Some(Opcode::IfLte),
            15 => Some(Opcode::IfGte),
            16 => Some(Opcode::IfAndNz),
            17 => Some(Opcode::IfAndZ),
            18 => Some(Opcode::Else),
            19 => Some(Opcode::EndIf),
            20 => Some(Opcode::Switch),
            21 => Some(Opcode::SwitchConst),
            22 => Some(Opcode::CaseEq),
            23 => Some(Opcode::CaseNe),
            24 => Some(Opcode::CaseLt),
            25 => Some(Opcode::CaseGt),
            26 => Some(Opcode::CaseLte),
            27 => Some(Opcode::CaseGte),
            28 => Some(Opcode::CaseDefault),
            29 => Some(Opcode::CaseOrEq),
            30 => Some(Opcode::CaseAndEq),
            31 => Some(Opcode::CaseAndZ),
            32 => Some(Opcode::EndCaseGroup),
            33 => Some(Opcode::CaseRange),
            34 => Some(Opcode::BreakCase),
            35 => Some(Opcode::EndSwitch),
            36 => Some(Opcode::SetInt),
            37 => Some(Opcode::SetRef),
            38 => Some(Opcode::SetFloat),
            39 => Some(Opcode::AddInt),
            40 => Some(Opcode::SubInt),
            41 => Some(Opcode::MulInt),
            42 => Some(Opcode::DivInt),
            43 => Some(Opcode::ModInt),
            44 => Some(Opcode::AddFloat),
            45 => Some(Opcode::SubFloat),
            46 => Some(Opcode::MulFloat),
            47 => Some(Opcode::DivFloat),
            48 => Some(Opcode::UseIntBuffer),
            49 => Some(Opcode::Get1Int),
            50 => Some(Opcode::Get2Int),
            51 => Some(Opcode::Get3Int),
            52 => Some(Opcode::Get4Int),
            53 => Some(Opcode::GetIntN),
            54 => Some(Opcode::UseFloatBuffer),
            55 => Some(Opcode::Get1Float),
            56 => Some(Opcode::Get2Float),
            57 => Some(Opcode::Get3Float),
            58 => Some(Opcode::Get4Float),
            59 => Some(Opcode::GetFloatN),
            60 => Some(Opcode::UseArray),
            61 => Some(Opcode::UseFlagArray),
            62 => Some(Opcode::AllocArray),
            63 => Some(Opcode::And),
            64 => Some(Opcode::AndRef),
            65 => Some(Opcode::Or),
            66 => Some(Opcode::OrRef),
            67 => Some(Opcode::Call),
            68 => Some(Opcode::Exec),
            69 => Some(Opcode::ExecRet),
            70 => Some(Opcode::ExecWait),
            71 => Some(Opcode::Bind),
            72 => Some(Opcode::Unbind),
            73 => Some(Opcode::Kill),
            74 => Some(Opcode::Jump),
            75 => Some(Opcode::SetPriority),
            76 => Some(Opcode::SetTimescale),
            77 => Some(Opcode::SetSuspensionGroup),
            78 => Some(Opcode::BindLock),
            79 => Some(Opcode::SuspendAll),
            80 => Some(Opcode::ResumeAll),
            81 => Some(Opcode::SuspendOthers),
            82 => Some(Opcode::ResumeOthers),
            83 => Some(Opcode::Suspend),
            84 => Some(Opcode::Resume),
            85 => Some(Opcode::DoesScriptExist),
            86 => Some(Opcode::Thread),
            87 => Some(Opcode::EndThread),
            88 => Some(Opcode::ChildThread),
            89 => Some(Opcode::EndChildThread),
            _ => None,
        }
    }

    /// The comparison that a conditional or a case opcode makes.
    pub open spec fn operator(self) -> Option<Operator> {
        match self {
            Opcode::IfEq => Some(Operator::Eq),
            Opcode::IfNe => Some(Operator::Ne),
            Opcode::IfLt => Some(Operator::Lt),
            Opcode::IfGt => Some(Operator::Gt),
            Opcode::IfLte => Some(Operator::Lte),
            Opcode::IfGte => Some(Operator::Gte),
            Opcode::IfAndNz => Some(Operator::BitAndNz),
            Opcode::IfAndZ => Some(Operator::BitAndZ),
            Opcode::CaseEq => Some(Operator::Eq),
            Opcode::CaseOrEq => Some(Operator::Eq),
            Opcode::CaseAndEq => Some(Operator::Eq),
            Opcode::CaseNe => Some(Operator::Ne),
            Opcode::CaseLt => Some(Operator::Lt),
            Opcode::CaseGt => Some(Operator::Gt),
            Opcode::CaseLte => Some(Operator::Lte),
            Opcode::CaseGte => Some(Operator::Gte),
            Opcode::CaseAndZ => Some(Operator::BitAndZ),
            _ => None,
        }
    }

    /// The comparison that a conditional or a case opcode makes; `None` for
    /// every other opcode.
    pub fn into_operator(self) -> (op: Option<Operator>)
        ensures
            op == self.operator(),
    {
        match self {
            Opcode::IfEq => Some(Operator::Eq),
            Opcode::IfNe => Some(Operator::Ne),
            Opcode::IfLt => Some(Operator::Lt),
            Opcode::IfGt => Some(Operator::Gt),
            Opcode::IfLte => Some(Operator::Lte),
            Opcode::IfGte => Some(Operator::Gte),
            Opcode::IfAndNz => Some(Operator::BitAndNz),
            Opcode::IfAndZ => Some(Operator::BitAndZ),
            Opcode::CaseEq => Some(Operator::Eq),
            Opcode::CaseOrEq => Some(Operator::Eq),
            Opcode::CaseAndEq => Some(Operator::Eq),
            Opcode::CaseNe => Some(Operator::Ne),
            Opcode::CaseLt => Some(Operator::Lt),
            Opcode::CaseGt => Some(Operator::Gt),
            Opcode::CaseLte => Some(Operator::Lte),
            Opcode::CaseGte => Some(Operator::Gte),
            Opcode::CaseAndZ => Some(Operator::BitAndZ),
            _ => None,
        }
    }

    /// Whether the opcode opens a conditional.
    pub open spec fn is_if(self) -> bool {
        self == Opcode::IfEq || self == Opcode::IfNe || self == Opcode::IfLt || self
            == Opcode::IfGt || self == Opcode::IfLte || self == Opcode::IfGte || self
            == Opcode::IfAndNz || self == Opcode::IfAndZ
    }

    /// Whether the opcode opens an arm of a switch.
    pub open spec fn opens_case(self) -> bool {
        self == Opcode::CaseEq || self == Opcode::CaseOrEq || self == Opcode::CaseNe || self
            == Opcode::CaseLt || self == Opcode::CaseGt || self == Opcode::CaseLte || self
            == Opcode::CaseGte || self == Opcode::CaseAndZ || self == Opcode::CaseDefault
    }

    /// Whether the opcode ends the arm of a switch that is open before it.
    pub open spec fn ends_case(self) -> bool {
        self.opens_case() || self == Opcode::CaseAndEq || self == Opcode::EndSwitch
    }
}

/// Every opcode is read back from its own word, and only from that word.
pub proof fn lemma_opcode_roundtrip(op: Opcode, word: u32)
    ensures
        Opcode::with_code(op.code()) == Some(op),
        Opcode::with_code(word) == Some(op) <==> word == op.code(),
{
}

} // verus!
