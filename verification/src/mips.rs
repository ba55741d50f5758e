//! The machine instructions of the console's processor: each
//! instruction as a value, and the 32-bit word that stands for it.

use vstd::prelude::*;

verus! {

/// A general register, by its usual name.
#[derive(Debug, Clone, Copy, PartialEq, Eq, Hash, Structural)]
pub enum Register {
    Zero,
    At,
    V0,
    V1,
    A0,
    A1,
    A2,
    A3,
    T0,
    T1,
    T2,
    T3,
    T4,
    T5,
    T6,
    T7,
    S0,
    S1,
    S2,
    S3,
    S4,
    S5,
    S6,
    S7,
    T8,
    T9,
    K0,
    K1,
    Gp,
    Sp,
    Fp,
    Ra,
}

impl Register {
    /// The number of the register.
    #[verifier::opaque]
    pub open spec fn number(self) -> u32 {
        match self {
            Register::Zero => 0,
            Register::At => 1,
            Register::V0 => 2,
            Register::V1 => 3,
            Register::A0 => 4,
            Register::A1 => 5,
            Register::A2 => 6,
            Register::A3 => 7,
            Register::T0 => 8,
            Register::T1 => 9,
            Register::T2 => 10,
            Register::T3 => 11,
            Register::T4 => 12,
            Register::T5 => 13,
            Register::T6 => 14,
            Register::T7 => 15,
            Register::S0 => 16,
            Register::S1 => 17,
            Register::S2 => 18,
            Register::S3 => 19,
            Register::S4 => 20,
            Register::S5 => 21,
            Register::S6 => 22,
            Register::S7 => 23,
            Register::T8 => 24,
            Register::T9 => 25,
            Register::K0 => 26,
            Register::K1 => 27,
            Register::Gp => 28,
            Register::Sp => 29,
            Register::Fp => 30,
            Register::Ra => 31,
        }
    }

    /// The register with a number; numbers are taken modulo 32.
    #[verifier::opaque]
    pub open spec fn of(n: u32) -> Register {
        if n % 32 == 0 {
            Register::Zero
        } else if n % 32 == 1 {
            Register::At
        } else if n % 32 == 2 {
            Register::V0
        } else if n % 32 == 3 {
            Register::V1
        } else if n % 32 == 4 {
            Register::A0
        } else if n % 32 == 5 {
            Register::A1
        } else if n % 32 == 6 {
            Register::A2
        } else if n % 32 == 7 {
            Register::A3
        } else if n % 32 == 8 {
            Register::T0
        } else if n % 32 == 9 {
            Register::T1
        } else if n % 32 == 10 {
            Register::T2
        } else if n % 32 == 11 {
            Register::T3
        } else if n % 32 == 12 {
            Register::T4
        } else if n % 32 == 13 {
            Register::T5
        } else if n % 32 == 14 {
            Register::T6
        } else if n % 32 == 15 {
            Register::T7
        } else if n % 32 == 16 {
            Register::S0
        } else if n % 32 == 17 {
            Register::S1
        } else if n % 32 == 18 {
            Register::S2
        } else if n % 32 == 19 {
            Register::S3
        } else if n % 32 == 20 {
            Register::S4
        } else if n % 32 == 21 {
            Register::S5
        } else if n % 32 == 22 {
            Register::S6
        } else if n % 32 == 23 {
            Register::S7
        } else if n % 32 == 24 {
            Register::T8
        } else if n % 32 == 25 {
            Register::T9
        } else if n % 32 == 26 {
            Register::K0
        } else if n % 32 == 27 {
            Register::K1
        } else if n % 32 == 28 {
            Register::Gp
        } else if n % 32 == 29 {
            Register::Sp
        } else if n % 32 == 30 {
            Register::Fp
        } else {
            Register::Ra
        }
    }

    /// The number of the register.
    pub fn to_u32(self) -> (n: u32)
        ensures
            n == self.number(),
            n < 32,
    {
        reveal(Register::number);
        match self {
            Register::Zero => 0,
            Register::At => 1,
            Register::V0 => 2,
            Register::V1 => 3,
            Register::A0 => 4,
            Register::A1 => 5,
            Register::A2 => 6,
            Register::A3 => 7,
            Register::T0 => 8,
            Register::T1 => 9,
            Register::T2 => 10,
            Register::T3 => 11,
            Register::T4 => 12,
            Register::T5 => 13,
            Register::T6 => 14,
            Register::T7 => 15,
            Register::S0 => 16,
            Register::S1 => 17,
            Register::S2 => 18,
            Register::S3 => 19,
            Register::S4 => 20,
            Register::S5 => 21,
            Register::S6 => 22,
            Register::S7 => 23,
            Register::T8 => 24,
            Register::T9 => 25,
            Register::K0 => 26,
            Register::K1 => 27,
            Register::Gp => 28,
            Register::Sp => 29,
            Register::Fp => 30,
            Register::Ra => 31,
        }
    }

    /// The register with a number below 32.
    pub fn from_u32(n: u32) -> (r: Register)
        requires
            n < 32,
        ensures
            r == Self::of(n),
            r.number() == n,
    {
        reveal(Register::number);
        reveal(Register::of);
        match n {
            0 => Register::Zero,
            1 => Register::At,
            2 => Register::V0,
            3 => Register::V1,
            4 => Register::A0,
            5 => Register::A1,
            6 => Register::A2,
            7 => Register::A3,
            8 => Register::T0,
            9 => Register::T1,
            10 => Register::T2,
            11 => Register::T3,
            12 => Register::T4,
            13 => Register::T5,
            14 => Register::T6,
            15 => Register::T7,
            16 => Register::S0,
            17 => Register::S1,
            18 => Register::S2,
            19 => Register::S3,
            20 => Register::S4,
            21 => Register::S5,
            22 => Register::S6,
            23 => Register::S7,
            24 => Register::T8,
            25 => Register::T9,
            26 => Register::K0,
            27 => Register::K1,
            28 => Register::Gp,
            29 => Register::Sp,
            30 => Register::Fp,
            _ => Register::Ra,
        }
    }
}

/// One of the four coprocessors.
#[derive(Debug, Clone, Copy, PartialEq, Eq, Hash, Structural)]
pub enum Coprocessor {
    Cp0,
    Cp1,
    Cp2,
    Cp3,
}

impl Coprocessor {
    /// The number of the coprocessor.
    pub open spec fn number(self) -> u32 {
        match self {
            Coprocessor::Cp0 => 0,
            Coprocessor::Cp1 => 1,
            Coprocessor::Cp2 => 2,
            Coprocessor::Cp3 => 3,
        }
    }

    /// The coprocessor with a number; numbers are taken modulo 4.
    pub open spec fn of(n: u32) -> Coprocessor {
        if n % 4 == 0 {
            Coprocessor::Cp0
        } else if n % 4 == 1 {
            Coprocessor::Cp1
        } else if n % 4 == 2 {
            Coprocessor::Cp2
        } else {
            Coprocessor::Cp3
        }
    }

    /// The number of the coprocessor.
    pub fn to_u32(self) -> (n: u32)
        ensures
            n == self.number(),
            n < 4,
    {
        match self {
            Coprocessor::Cp0 => 0,
            Coprocessor::Cp1 => 1,
            Coprocessor::Cp2 => 2,
            Coprocessor::Cp3 => 3,
        }
    }

    /// The coprocessor with a number below 4.
    pub fn from_u32(n: u32) -> (c: Coprocessor)
        requires
            n < 4,
        ensures
            c == Self::of(n),
            c.number() == n,
    {
        match n {
            0 => Coprocessor::Cp0,
            1 => Coprocessor::Cp1,
            2 => Coprocessor::Cp2,
            _ => Coprocessor::Cp3,
        }
    }
}

/// One instruction, with its operands in the order in which assembly
/// source writes them.
#[allow(non_camel_case_types)]
#[derive(Debug, Clone, Copy, PartialEq, Eq, Structural)]
pub enum Instruction {
    ADD(Register, Register, Register),
    ADDI(Register, Register, i16),
    ADDIU(Register, Register, i16),
    ADDU(Register, Register, Register),
    AND(Register, Register, Register),
    ANDI(Register, Register, i16),
    BCzF(Coprocessor, i16),
    BCzFL(Coprocessor, i16),
    BCzT(Coprocessor, i16),
    BCzTL(Coprocessor, i16),
    BEQ(Register, Register, i16),
    BEQL(Register, Register, i16),
    BGEZ(Register, i16),
    BGEZAL(Register, i16),
    BGEZALL(Register, i16),
    BGEZL(Register, i16),
    BGTZ(Register, i16),
    BGTZL(Register, i16),
    BLEZ(Register, i16),
    BLEZL(Register, i16),
    BLTZ(Register, i16),
    BLTZAL(Register, i16),
    BLTZALL(Register, i16),
    BLTZL(Register, i16),
    BNE(Register, Register, i16),
    BNEL(Register, Register, i16),
    BREAK(u32),
    CACHE(u8, i16, Register),
    CFCz(Coprocessor, Register, Register),
    COPz(Coprocessor, u32),
    CTCz(Coprocessor, Register, Register),
    DADD(Register, Register, Register),
    DADDI(Register, Register, i16),
    DADDIU(Register, Register, i16),
    DADDU(Register, Register, Register),
    DDIV(Register, Register),
    DDIVU(Register, Register),
    DIV(Register, Register),
    DIVU(Register, Register),
    DMFC0(Register, Register),
    DMTC0(Register, Register),
    DMULT(Register, Register),
    DMULTU(Register, Register),
    DSLL(Register, Register, u8),
    DSLLV(Register, Register, Register),
    DSLL32(Register, Register, u8),
    DSRA(Register, Register, u8),
    DSRAV(Register, Register, Register),
    DSRA32(Register, Register, u8),
    DSRL(Register, Register, u8),
    DSRLV(Register, Register, Register),
    DSRL32(Register, Register, u8),
    DSUB(Register, Register, Register),
    DSUBU(Register, Register, Register),
    ERET,
    J(u32),
    JAL(u32),
    JALR(Register, Register),
    JR(Register),
    LB(Register, i16, Register),
    LBU(Register, i16, Register),
    LD(Register, i16, Register),
    LDCz(Coprocessor, Register, i16, Register),
    LDL(Register, i16, Register),
    LDR(Register, i16, Register),
    LH(Register, i16, Register),
    LHU(Register, i16, Register),
    LL(Register, i16, Register),
    LLD(Register, i16, Register),
    LUI(Register, i16),
    LW(Register, i16, Register),
    LWCz(Coprocessor, Register, i16, Register),
    LWL(Register, i16, Register),
    LWR(Register, i16, Register),
    LWU(Register, i16, Register),
    MFC0(Register, Register),
    MFCz(Coprocessor, Register, Register),
    MFHI(Register),
    MFLO(Register),
    MTC0(Register, Register),
    MTCz(Coprocessor, Register, Register),
    MTHI(Register),
    MTLO(Register),
    MULT(Register, Register),
    MULTU(Register, Register),
    NOR(Register, Register, Register),
    OR(Register, Register, Register),
    ORI(Register, Register, i16),
    SB(Register, i16, Register),
    SC(Register, i16, Register),
    SCD(Register, i16, Register),
    SD(Register, i16, Register),
    SDCz(Coprocessor, Register, i16, Register),
    SDL(Register, i16, Register),
    SDR(Register, i16, Register),
    SH(Register, i16, Register),
    SLL(Register, Register, u8),
    SLLV(Register, Register, Register),
    SLT(Register, Register, Register),
    SLTI(Register, Register, i16),
    SLTIU(Register, Register, i16),
    SLTU(Register, Register, Register),
    SRA(Register, Register, u8),
    SRAV(Register, Register, Register),
    SRL(Register, Register, u8),
    SRLV(Register, Register, Register),
    SUB(Register, Register, Register),
    SUBU(Register, Register, Register),
    SW(Register, i16, Register),
    SWCz(Coprocessor, Register, i16, Register),
    SWL(Register, i16, Register),
    SWR(Register, i16, Register),
    SYNC,
    SYSCALL(u32),
    TEQ(Register, Register, u16),
    TEQI(Register, i16),
    TGE(Register, Register, u16),
    TGEI(Register, i16),
    TGEIU(Register, i16),
    TGEU(Register, Register, u16),
    TLBP,
    TLBR,
    TLBWI,
    TLBWR,
    TLT(Register, Register, u16),
    TLTI(Register, i16),
    TLTIU(Register, i16),
    TLTU(Register, Register, u16),
    TNE(Register, Register, u16),
    TNEI(Register, i16),
    XOR(Register, Register, Register),
    XORI(Register, Register, i16),
}

/// A signed 16-bit number as the 16 bits that hold it.
pub open spec fn low16(i: i16) -> u32 {
    if i < 0 {
        (i + 0x1_0000) as u32
    } else {
        i as u32
    }
}

/// The signed number that 16 bits hold.
pub open spec fn signed16(bits: u32) -> i16 {
    if bits % 0x1_0000 >= 0x8000 {
        (bits % 0x1_0000 - 0x1_0000) as i16
    } else {
        (bits % 0x1_0000) as i16
    }
}

/// The low sixteen bits of a shift instruction: the destination register
/// from bit 11 on, the shift amount from bit 6 on, and the function in
/// the lowest six bits. A shift amount of 32 or more runs into the bits
/// of the register.
#[verifier::opaque]
pub open spec fn merged(rd: u32, sa: u8, funct: u32) -> u32 {
    ((((rd % 32) * 2048) as u32 | (sa as u32 * 64) as u32) + funct % 64) as u32
}

/// A shift amount below 32 stands beside the register.
pub proof fn lemma_merged(rd: u32, sa: u8, funct: u32)
    requires
        rd < 32,
        sa < 32,
        funct < 64,
    ensures
        merged(rd, sa, funct) == rd * 2048 + sa * 64 + funct,
{
    reveal(merged);
    let a: u32 = (rd * 2048) as u32;
    let b: u32 = (sa as u32 * 64) as u32;
    assert(a | b == a + b) by (bit_vector)
        requires
            a % 2048 == 0,
            a < 0x1_0000,
            b % 64 == 0,
            b < 2048,
    ;
}

fn low_half(i: i16) -> (bits: u32)
    ensures
        bits == low16(i),
        bits < 0x1_0000,
{
    if i < 0 {
        (i as i32 + 0x1_0000) as u32
    } else {
        i as u32
    }
}

fn merge(rd: u32, sa: u8, funct: u32) -> (bits: u32)
    requires
        rd < 32,
        funct < 64,
    ensures
        bits == merged(rd, sa, funct),
        bits < 0x1_0000,
{
    reveal(merged);
    let a: u32 = rd * 2048;
    let b: u32 = sa as u32 * 64;
    assert((a | b) <= 0xFFC0) by (bit_vector)
        requires
            a < 0x1_0000,
            a % 64 == 0,
            b < 0x4000,
            b % 64 == 0,
    ;
    (a | b) + funct
}

/// The four bytes of a word, the highest first.
pub open spec fn word_bytes(word: u32) -> Seq<u8> {
    seq![
        (word / 0x100_0000) as u8,
        ((word / 0x1_0000) % 0x100) as u8,
        ((word / 0x100) % 0x100) as u8,
        (word % 0x100) as u8,
    ]
}

/// The word that four bytes make, the highest first.
pub open spec fn bytes_word(bytes: Seq<u8>) -> u32 {
    (bytes[0] * 0x100_0000 + bytes[1] * 0x1_0000 + bytes[2] * 0x100 + bytes[3]) as u32
}

/// How the bits of an instruction are laid out.
#[derive(Debug, Clone, Copy, PartialEq, Eq, Structural)]
pub enum Layout {
    /// Six bits of opcode, two registers of five bits each, and the low
    /// sixteen bits.
    Fields { op: u32, rs: u32, rt: u32, low: u32 },
    /// Six bits of opcode and the other 26 bits as one number.
    Wide { op: u32, rest: u32 },
}

impl Layout {
    /// Whether every part fits in its bits.
    pub open spec fn fits(self) -> bool {
        match self {
            Layout::Fields { op, rs, rt, low } => op < 64 && rs < 32 && rt < 32 && low < 0x1_0000,
            Layout::Wide { op, rest } => op < 64 && rest < 0x400_0000,
        }
    }

    /// The word that the parts make.
    #[verifier::opaque]
    pub open spec fn word(self) -> u32 {
        match self {
            Layout::Fields { op, rs, rt, low } => (op * 0x400_0000 + rs * 0x20_0000 + rt * 0x1_0000
                + low) as u32,
            Layout::Wide { op, rest } => (op * 0x400_0000 + rest) as u32,
        }
    }

    /// The word that the parts make.
    pub fn to_word(self) -> (word: u32)
        requires
            self.fits(),
        ensures
            word == self.word(),
    {
        reveal(Layout::word);
        match self {
            Layout::Fields { op, rs, rt, low } => op * 0x400_0000 + rs * 0x20_0000 + rt * 0x1_0000
                + low,
            Layout::Wide { op, rest } => op * 0x400_0000 + rest,
        }
    }
}

impl Instruction {
    /// The layout of an instruction from `ADD` to `BEQ`.
    pub open spec fn layout_0(self) -> Option<Layout> {
        match self {
            Instruction::ADD(rd, rs, rt) => Some(Layout::Fields { op: 0, rs: rs.number(), rt: rt.number(), low: (rd.number() * 2048 + 32) as u32 }),
            Instruction::ADDI(rt, rs, imm) => Some(Layout::Fields { op: 8, rs: rs.number(), rt: rt.number(), low: low16(imm) }),
            Instruction::ADDIU(rt, rs, imm) => Some(Layout::Fields { op: 9, rs: rs.number(), rt: rt.number(), low: low16(imm) }),
            Instruction::ADDU(rd, rs, rt) => Some(Layout::Fields { op: 0, rs: rs.number(), rt: rt.number(), low: (rd.number() * 2048 + 33) as u32 }),
            Instruction::AND(rd, rs, rt) => Some(Layout::Fields { op: 0, rs: rs.number(), rt: rt.number(), low: (rd.number() * 2048 + 36) as u32 }),
            Instruction::ANDI(rt, rs, imm) => Some(Layout::Fields { op: 12, rs: rs.number(), rt: rt.number(), low: low16(imm) }),
            Instruction::BCzF(cop, off) => Some(Layout::Fields { op: (16 + cop.number()) as u32, rs: 8, rt: 0, low: low16(off) }),
            Instruction::BCzFL(cop, off) => Some(Layout::Fields { op: (16 + cop.number()) as u32, rs: 8, rt: 2, low: low16(off) }),
            Instruction::BCzT(cop, off) => Some(Layout::Fields { op: (16 + cop.number()) as u32, rs: 8, rt: 1, low: low16(off) }),
            Instruction::BCzTL(cop, off) => Some(Layout::Fields { op: (16 + cop.number()) as u32, rs: 8, rt: 3, low: low16(off) }),
            Instruction::BEQ(rs, rt, offset) => Some(Layout::Fields { op: 4, rs: rs.number(), rt: rt.number(), low: low16(offset) }),
            _ => None,
        }
    }

    /// The layout of an instruction from `BEQL` to `BLTZAL`.
    pub open spec fn layout_1(self) -> Option<Layout> {
        match self {
            Instruction::BEQL(rs, rt, offset) => Some(Layout::Fields { op: 20, rs: rs.number(), rt: rt.number(), low: low16(offset) }),
            Instruction::BGEZ(rs, offset) => Some(Layout::Fields { op: 1, rs: rs.number(), rt: 1, low: low16(offset) }),
            Instruction::BGEZAL(rs, offset) => Some(Layout::Fields { op: 1, rs: rs.number(), rt: 17, low: low16(offset) }),
            Instruction::BGEZALL(rs, offset) => Some(Layout::Fields { op: 1, rs: rs.number(), rt: 19, low: low16(offset) }),
            Instruction::BGEZL(rs, offset) => Some(Layout::Fields { op: 1, rs: rs.number(), rt: 3, low: low16(offset) }),
            Instruction::BGTZ(rs, offset) => Some(Layout::Fields { op: 7, rs: rs.number(), rt: 0, low: low16(offset) }),
            Instruction::BGTZL(rs, offset) => Some(Layout::Fields { op: 23, rs: rs.number(), rt: 0, low: low16(offset) }),
            Instruction::BLEZ(rs, offset) => Some(Layout::Fields { op: 6, rs: rs.number(), rt: 0, low: low16(offset) }),
            Instruction::BLEZL(rs, offset) => Some(Layout::Fields { op: 22, rs: rs.number(), rt: 0, low: low16(offset) }),
            Instruction::BLTZ(rs, offset) => Some(Layout::Fields { op: 1, rs: rs.number(), rt: 0, low: low16(offset) }),
            Instruction::BLTZAL(rs, offset) => Some(Layout::Fields { op: 1, rs: rs.number(), rt: 16, low: low16(offset) }),
            _ => None,
        }
    }

    /// The layout of an instruction from `BLTZALL` to `DADDI`.
    pub open spec fn layout_2(self) -> Option<Layout> {
        match self {
            Instruction::BLTZALL(rs, offset) => Some(Layout::Fields { op: 1, rs: rs.number(), rt: 18, low: low16(offset) }),
            Instruction::BLTZL(rs, offset) => Some(Layout::Fields { op: 1, rs: rs.number(), rt: 2, low: low16(offset) }),
            Instruction::BNE(rs, rt, offset) => Some(Layout::Fields { op: 5, rs: rs.number(), rt: rt.number(), low: low16(offset) }),
            Instruction::BNEL(rs, rt, offset) => Some(Layout::Fields { op: 21, rs: rs.number(), rt: rt.number(), low: low16(offset) }),
            Instruction::BREAK(code) => Some(Layout::Wide { op: 0, rest: ((code % 0x10_0000) * 64 + 13) as u32 }),
            Instruction::CACHE(op, offset, base) => Some(Layout::Fields { op: 47, rs: base.number(), rt: op as u32 % 32, low: low16(offset) }),
            Instruction::CFCz(cop, rt, rd) => Some(Layout::Fields { op: (16 + cop.number()) as u32, rs: 2, rt: rt.number(), low: (rd.number() * 2048) as u32 }),
            Instruction::COPz(cop, cofun) => Some(Layout::Wide { op: (16 + cop.number()) as u32, rest: (0x200_0000 + cofun % 0x200_0000) as u32 }),
            Instruction::CTCz(cop, rt, rd) => Some(Layout::Fields { op: (16 + cop.number()) as u32, rs: 6, rt: rt.number(), low: (rd.number() * 2048) as u32 }),
            Instruction::DADD(rd, rs, rt) => Some(Layout::Fields { op: 0, rs: rs.number(), rt: rt.number(), low: (rd.number() * 2048 + 44) as u32 }),
            Instruction::DADDI(rt, rs, imm) => Some(Layout::Fields { op: 24, rs: rs.number(), rt: rt.number(), low: low16(imm) }),
            _ => None,
        }
    }

    /// The layout of an instruction from `DADDIU` to `DSLL`.
    pub open spec fn layout_3(self) -> Option<Layout> {
        match self {
            Instruction::DADDIU(rt, rs, imm) => Some(Layout::Fields { op: 25, rs: rs.number(), rt: rt.number(), low: low16(imm) }),
            Instruction::DADDU(rd, rs, rt) => Some(Layout::Fields { op: 0, rs: rs.number(), rt: rt.number(), low: (rd.number() * 2048 + 45) as u32 }),
            Instruction::DDIV(rs, rt) => Some(Layout::Fields { op: 0, rs: rs.number(), rt: rt.number(), low: 30 }),
            Instruction::DDIVU(rs, rt) => Some(Layout::Fields { op: 0, rs: rs.number(), rt: rt.number(), low: 31 }),
            Instruction::DIV(rs, rt) => Some(Layout::Fields { op: 0, rs: rs.number(), rt: rt.number(), low: 26 }),
            Instruction::DIVU(rs, rt) => Some(Layout::Fields { op: 0, rs: rs.number(), rt: rt.number(), low: 27 }),
            Instruction::DMFC0(rt, rd) => Some(Layout::Fields { op: 16, rs: 1, rt: rt.number(), low: (rd.number() * 2048) as u32 }),
            Instruction::DMTC0(rt, rd) => Some(Layout::Fields { op: 16, rs: 5, rt: rt.number(), low: (rd.number() * 2048) as u32 }),
            Instruction::DMULT(rs, rt) => Some(Layout::Fields { op: 0, rs: rs.number(), rt: rt.number(), low: 28 }),
            Instruction::DMULTU(rs, rt) => Some(Layout::Fields { op: 0, rs: rs.number(), rt: rt.number(), low: 29 }),
            Instruction::DSLL(rd, rt, sa) => Some(Layout::Fields { op: 0, rs: 0, rt: rt.number(), low: merged(rd.number(), sa, 56) }),
            _ => None,
        }
    }

    /// The layout of an instruction from `DSLLV` to `ERET`.
    pub open spec fn layout_4(self) -> Option<Layout> {
        match self {
            Instruction::DSLLV(rd, rt, rs) => Some(Layout::Fields { op: 0, rs: rs.number(), rt: rt.number(), low: (rd.number() * 2048 + 20) as u32 }),
            Instruction::DSLL32(rd, rt, sa) => Some(Layout::Fields { op: 0, rs: 0, rt: rt.number(), low: merged(rd.number(), sa, 60) }),
            Instruction::DSRA(rd, rt, sa) => Some(Layout::Fields { op: 0, rs: 0, rt: rt.number(), low: merged(rd.number(), sa, 59) }),
            Instruction::DSRAV(rd, rt, rs) => Some(Layout::Fields { op: 0, rs: rs.number(), rt: rt.number(), low: (rd.number() * 2048 + 23) as u32 }),
            Instruction::DSRA32(rd, rt, sa) => Some(Layout::Fields { op: 0, rs: 0, rt: rt.number(), low: merged(rd.number(), sa, 63) }),
            Instruction::DSRL(rd, rt, sa) => Some(Layout::Fields { op: 0, rs: 0, rt: rt.number(), low: merged(rd.number(), sa, 58) }),
            Instruction::DSRLV(rd, rt, rs) => Some(Layout::Fields { op: 0, rs: rs.number(), rt: rt.number(), low: (rd.number() * 2048 + 22) as u32 }),
            Instruction::DSRL32(rd, rt, sa) => Some(Layout::Fields { op: 0, rs: 0, rt: rt.number(), low: merged(rd.number(), sa, 62) }),
            Instruction::DSUB(rd, rs, rt) => Some(Layout::Fields { op: 0, rs: rs.number(), rt: rt.number(), low: (rd.number() * 2048 + 46) as u32 }),
            Instruction::DSUBU(rd, rs, rt) => Some(Layout::Fields { op: 0, rs: rs.number(), rt: rt.number(), low: (rd.number() * 2048 + 47) as u32 }),
            Instruction::ERET => Some(Layout::Fields { op: 16, rs: 16, rt: 0, low: 24 }),
            _ => None,
        }
    }

    /// The layout of an instruction from `J` to `LH`.
    pub open spec fn layout_5(self) -> Option<Layout> {
        match self {
            Instruction::J(target) => Some(Layout::Wide { op: 2, rest: (target / 4) % 0x400_0000 }),
            Instruction::JAL(target) => Some(Layout::Wide { op: 3, rest: (target / 4) % 0x400_0000 }),
            Instruction::JALR(rd, rs) => Some(Layout::Fields { op: 0, rs: rs.number(), rt: 0, low: (rd.number() * 2048 + 9) as u32 }),
            Instruction::JR(rs) => Some(Layout::Fields { op: 0, rs: rs.number(), rt: 0, low: 8 }),
            Instruction::LB(rt, offset, base) => Some(Layout::Fields { op: 32, rs: base.number(), rt: rt.number(), low: low16(offset) }),
            Instruction::LBU(rt, offset, base) => Some(Layout::Fields { op: 36, rs: base.number(), rt: rt.number(), low: low16(offset) }),
            Instruction::LD(rt, offset, base) => Some(Layout::Fields { op: 55, rs: base.number(), rt: rt.number(), low: low16(offset) }),
            Instruction::LDCz(cop, rt, offset, base) => Some(Layout::Fields { op: (52 + cop.number()) as u32, rs: base.number(), rt: rt.number(), low: low16(offset) }),
            Instruction::LDL(rt, offset, base) => Some(Layout::Fields { op: 26, rs: base.number(), rt: rt.number(), low: low16(offset) }),
            Instruction::LDR(rt, offset, base) => Some(Layout::Fields { op: 27, rs: base.number(), rt: rt.number(), low: low16(offset) }),
            Instruction::LH(rt, offset, base) => Some(Layout::Fields { op: 33, rs: base.number(), rt: rt.number(), low: low16(offset) }),
            _ => None,
        }
    }

    /// The layout of an instruction from `LHU` to `MFCz`.
    pub open spec fn layout_6(self) -> Option<Layout> {
        match self {
            Instruction::LHU(rt, offset, base) => Some(Layout::Fields { op: 37, rs: base.number(), rt: rt.number(), low: low16(offset) }),
            Instruction::LL(rt, offset, base) => Some(Layout::Fields { op: 48, rs: base.number(), rt: rt.number(), low: low16(offset) }),
            Instruction::LLD(rt, offset, base) => Some(Layout::Fields { op: 52, rs: base.number(), rt: rt.number(), low: low16(offset) }),
            Instruction::LUI(rt, imm) => Some(Layout::Fields { op: 15, rs: 0, rt: rt.number(), low: low16(imm) }),
            Instruction::LW(rt, offset, base) => Some(Layout::Fields { op: 35, rs: base.number(), rt: rt.number(), low: low16(offset) }),
            Instruction::LWCz(cop, rt, offset, base) => Some(Layout::Fields { op: (48 + cop.number()) as u32, rs: base.number(), rt: rt.number(), low: low16(offset) }),
            Instruction::LWL(rt, offset, base) => Some(Layout::Fields { op: 34, rs: base.number(), rt: rt.number(), low: low16(offset) }),
            Instruction::LWR(rt, offset, base) => Some(Layout::Fields { op: 38, rs: base.number(), rt: rt.number(), low: low16(offset) }),
            Instruction::LWU(rt, offset, base) => Some(Layout::Fields { op: 39, rs: base.number(), rt: rt.number(), low: low16(offset) }),
            Instruction::MFC0(rt, rd) => Some(Layout::Fields { op: 16, rs: 0, rt: rt.number(), low: (rd.number() * 2048) as u32 }),
            Instruction::MFCz(cop, rt, rd) => Some(Layout::Fields { op: (16 + cop.number()) as u32, rs: 0, rt: rt.number(), low: (rd.number() * 2048) as u32 }),
            _ => None,
        }
    }

    /// The layout of an instruction from `MFHI` to `ORI`.
    pub open spec fn layout_7(self) -> Option<Layout> {
        match self {
            Instruction::MFHI(rd) => Some(Layout::Fields { op: 0, rs: 0, rt: 0, low: (rd.number() * 2048 + 16) as u32 }),
            Instruction::MFLO(rd) => Some(Layout::Fields { op: 0, rs: 0, rt: 0, low: (rd.number() * 2048 + 18) as u32 }),
            Instruction::MTC0(rt, rd) => Some(Layout::Fields { op: 16, rs: 4, rt: rt.number(), low: (rd.number() * 2048) as u32 }),
            Instruction::MTCz(cop, rt, rd) => Some(Layout::Fields { op: (16 + cop.number()) as u32, rs: 4, rt: rt.number(), low: (rd.number() * 2048) as u32 }),
            Instruction::MTHI(rs) => Some(Layout::Fields { op: 0, rs: rs.number(), rt: 0, low: 17 }),
            Instruction::MTLO(rs) => Some(Layout::Fields { op: 0, rs: rs.number(), rt: 0, low: 19 }),
            Instruction::MULT(rs, rt) => Some(Layout::Fields { op: 0, rs: rs.number(), rt: rt.number(), low: 24 }),
            Instruction::MULTU(rs, rt) => Some(Layout::Fields { op: 0, rs: rs.number(), rt: rt.number(), low: 25 }),
            Instruction::NOR(rd, rs, rt) => Some(Layout::Fields { op: 0, rs: rs.number(), rt: rt.number(), low: (rd.number() * 2048 + 39) as u32 }),
            Instruction::OR(rd, rs, rt) => Some(Layout::Fields { op: 0, rs: rs.number(), rt: rt.number(), low: (rd.number() * 2048 + 37) as u32 }),
            Instruction::ORI(rt, rs, imm) => Some(Layout::Fields { op: 13, rs: rs.number(), rt: rt.number(), low: low16(imm) }),
            _ => None,
        }
    }

    /// The layout of an instruction from `SB` to `SLT`.
    pub open spec fn layout_8(self) -> Option<Layout> {
        match self {
            Instruction::SB(rt, offset, base) => Some(Layout::Fields { op: 40, rs: base.number(), rt: rt.number(), low: low16(offset) }),
            Instruction::SC(rt, offset, base) => Some(Layout::Fields { op: 56, rs: base.number(), rt: rt.number(), low: low16(offset) }),
            Instruction::SCD(rt, offset, base) => Some(Layout::Fields { op: 60, rs: base.number(), rt: rt.number(), low: low16(offset) }),
            Instruction::SD(rt, offset, base) => Some(Layout::Fields { op: 63, rs: base.number(), rt: rt.number(), low: low16(offset) }),
            Instruction::SDCz(cop, rt, offset, base) => Some(Layout::Fields { op: (60 + cop.number()) as u32, rs: base.number(), rt: rt.number(), low: low16(offset) }),
            Instruction::SDL(rt, offset, base) => Some(Layout::Fields { op: 44, rs: base.number(), rt: rt.number(), low: low16(offset) }),
            Instruction::SDR(rt, offset, base) => Some(Layout::Fields { op: 45, rs: base.number(), rt: rt.number(), low: low16(offset) }),
            Instruction::SH(rt, offset, base) => Some(Layout::Fields { op: 41, rs: base.number(), rt: rt.number(), low: low16(offset) }),
            Instruction::SLL(rd, rt, sa) => Some(Layout::Fields { op: 0, rs: 0, rt: rt.number(), low: merged(rd.number(), sa, 0) }),
            Instruction::SLLV(rd, rt, rs) => Some(Layout::Fields { op: 0, rs: rs.number(), rt: rt.number(), low: (rd.number() * 2048 + 4) as u32 }),
            Instruction::SLT(rd, rs, rt) => Some(Layout::Fields { op: 0, rs: rs.number(), rt: rt.number(), low: (rd.number() * 2048 + 42) as u32 }),
            _ => None,
        }
    }

    /// The layout of an instruction from `SLTI` to `SWCz`.
    pub open spec fn layout_9(self) -> Option<Layout> {
        match self {
            Instruction::SLTI(rt, rs, imm) => Some(Layout::Fields { op: 10, rs: rs.number(), rt: rt.number(), low: low16(imm) }),
            Instruction::SLTIU(rt, rs, imm) => Some(Layout::Fields { op: 11, rs: rs.number(), rt: rt.number(), low: low16(imm) }),
            Instruction::SLTU(rd, rs, rt) => Some(Layout::Fields { op: 0, rs: rs.number(), rt: rt.number(), low: (rd.number() * 2048 + 43) as u32 }),
            Instruction::SRA(rd, rt, sa) => Some(Layout::Fields { op: 0, rs: 0, rt: rt.number(), low: merged(rd.number(), sa, 3) }),
            Instruction::SRAV(rd, rt, rs) => Some(Layout::Fields { op: 0, rs: rs.number(), rt: rt.number(), low: (rd.number() * 2048 + 7) as u32 }),
            Instruction::SRL(rd, rt, sa) => Some(Layout::Fields { op: 0, rs: 0, rt: rt.number(), low: merged(rd.number(), sa, 2) }),
            Instruction::SRLV(rd, rt, rs) => Some(Layout::Fields { op: 0, rs: rs.number(), rt: rt.number(), low: (rd.number() * 2048 + 6) as u32 }),
            Instruction::SUB(rd, rs, rt) => Some(Layout::Fields { op: 0, rs: rs.number(), rt: rt.number(), low: (rd.number() * 2048 + 34) as u32 }),
            Instruction::SUBU(rd, rs, rt) => Some(Layout::Fields { op: 0, rs: rs.number(), rt: rt.number(), low: (rd.number() * 2048 + 35) as u32 }),
            Instruction::SW(rt, offset, base) => Some(Layout::Fields { op: 43, rs: base.number(), rt: rt.number(), low: low16(offset) }),
            Instruction::SWCz(cop, rt, offset, base) => Some(Layout::Fields { op: (56 + cop.number()) as u32, rs: base.number(), rt: rt.number(), low: low16(offset) }),
            _ => None,
        }
    }

    /// The layout of an instruction from `SWL` to `TLBP`.
    pub open spec fn layout_10(self) -> Option<Layout> {
        match self {
            Instruction::SWL(rt, offset, base) => Some(Layout::Fields { op: 42, rs: base.number(), rt: rt.number(), low: low16(offset) }),
            Instruction::SWR(rt, offset, base) => Some(Layout::Fields { op: 46, rs: base.number(), rt: rt.number(), low: low16(offset) }),
            Instruction::SYNC => Some(Layout::Fields { op: 0, rs: 0, rt: 0, low: 15 }),
            Instruction::SYSCALL(code) => Some(Layout::Wide { op: 0, rest: ((code % 0x10_0000) * 64 + 12) as u32 }),
            Instruction::TEQ(rs, rt, code) => Some(Layout::Fields { op: 0, rs: rs.number(), rt: rt.number(), low: ((code as u32 % 0x400) * 64 + 52) as u32 }),
            Instruction::TEQI(rs, imm) => Some(Layout::Fields { op: 1, rs: rs.number(), rt: 12, low: low16(imm) }),
            Instruction::TGE(rs, rt, code) => Some(Layout::Fields { op: 0, rs: rs.number(), rt: rt.number(), low: ((code as u32 % 0x400) * 64 + 48) as u32 }),
            Instruction::TGEI(rs, imm) => Some(Layout::Fields { op: 1, rs: rs.number(), rt: 8, low: low16(imm) }),
            Instruction::TGEIU(rs, imm) => Some(Layout::Fields { op: 1, rs: rs.number(), rt: 9, low: low16(imm) }),
            Instruction::TGEU(rs, rt, code) => Some(Layout::Fields { op: 0, rs: rs.number(), rt: rt.number(), low: ((code as u32 % 0x400) * 64 + 49) as u32 }),
            Instruction::TLBP => Some(Layout::Fields { op: 16, rs: 16, rt: 0, low: 8 }),
            _ => None,
        }
    }

    /// The layout of an instruction from `TLBR` to `XORI`.
    pub open spec fn layout_11(self) -> Option<Layout> {
        match self {
            Instruction::TLBR => Some(Layout::Fields { op: 16, rs: 16, rt: 0, low: 1 }),
            Instruction::TLBWI => Some(Layout::Fields { op: 16, rs: 16, rt: 0, low: 2 }),
            Instruction::TLBWR => Some(Layout::Fields { op: 16, rs: 16, rt: 0, low: 6 }),
            Instruction::TLT(rs, rt, code) => Some(Layout::Fields { op: 0, rs: rs.number(), rt: rt.number(), low: ((code as u32 % 0x400) * 64 + 50) as u32 }),
            Instruction::TLTI(rs, imm) => Some(Layout::Fields { op: 1, rs: rs.number(), rt: 10, low: low16(imm) }),
            Instruction::TLTIU(rs, imm) => Some(Layout::Fields { op: 1, rs: rs.number(), rt: 11, low: low16(imm) }),
            Instruction::TLTU(rs, rt, code) => Some(Layout::Fields { op: 0, rs: rs.number(), rt: rt.number(), low: ((code as u32 % 0x400) * 64 + 51) as u32 }),
            Instruction::TNE(rs, rt, code) => Some(Layout::Fields { op: 0, rs: rs.number(), rt: rt.number(), low: ((code as u32 % 0x400) * 64 + 54) as u32 }),
            Instruction::TNEI(rs, imm) => Some(Layout::Fields { op: 1, rs: rs.number(), rt: 14, low: low16(imm) }),
            Instruction::XOR(rd, rs, rt) => Some(Layout::Fields { op: 0, rs: rs.number(), rt: rt.number(), low: (rd.number() * 2048 + 38) as u32 }),
            Instruction::XORI(rt, rs, imm) => Some(Layout::Fields { op: 14, rs: rs.number(), rt: rt.number(), low: low16(imm) }),
            _ => None,
        }
    }

    /// How the bits of the instruction are laid out.
    pub open spec fn layout(self) -> Layout {
        if let Some(layout) = self.layout_0() {
            layout
        } else if let Some(layout) = self.layout_1() {
            layout
        } else if let Some(layout) = self.layout_2() {
            layout
        } else if let Some(layout) = self.layout_3() {
            layout
        } else if let Some(layout) = self.layout_4() {
            layout
        } else if let Some(layout) = self.layout_5() {
            layout
        } else if let Some(layout) = self.layout_6() {
            layout
        } else if let Some(layout) = self.layout_7() {
            layout
        } else if let Some(layout) = self.layout_8() {
            layout
        } else if let Some(layout) = self.layout_9() {
            layout
        } else if let Some(layout) = self.layout_10() {
            layout
        } else if let Some(layout) = self.layout_11() {
            layout
        } else {
            Layout::Wide { op: 0, rest: 0 }
        }
    }

    /// The word that stands for the instruction.
    pub open spec fn word(self) -> u32 {
        self.layout().word()
    }

    #[verifier::rlimit(60)]
    fn to_layout_0(self) -> (layout: Option<Layout>)
        ensures
            layout == self.layout_0(),
            layout matches Some(l) ==> l.fits(),
    {
        match self {
            Instruction::ADD(rd, rs, rt) => Some(Layout::Fields { op: 0, rs: rs.to_u32(), rt: rt.to_u32(), low: rd.to_u32() * 2048 + 32 }),
            Instruction::ADDI(rt, rs, imm) => Some(Layout::Fields { op: 8, rs: rs.to_u32(), rt: rt.to_u32(), low: low_half(imm) }),
            Instruction::ADDIU(rt, rs, imm) => Some(Layout::Fields { op: 9, rs: rs.to_u32(), rt: rt.to_u32(), low: low_half(imm) }),
            Instruction::ADDU(rd, rs, rt) => Some(Layout::Fields { op: 0, rs: rs.to_u32(), rt: rt.to_u32(), low: rd.to_u32() * 2048 + 33 }),
            Instruction::AND(rd, rs, rt) => Some(Layout::Fields { op: 0, rs: rs.to_u32(), rt: rt.to_u32(), low: rd.to_u32() * 2048 + 36 }),
            Instruction::ANDI(rt, rs, imm) => Some(Layout::Fields { op: 12, rs: rs.to_u32(), rt: rt.to_u32(), low: low_half(imm) }),
            Instruction::BCzF(cop, off) => Some(Layout::Fields { op: 16 + cop.to_u32(), rs: 8, rt: 0, low: low_half(off) }),
            Instruction::BCzFL(cop, off) => Some(Layout::Fields { op: 16 + cop.to_u32(), rs: 8, rt: 2, low: low_half(off) }),
            Instruction::BCzT(cop, off) => Some(Layout::Fields { op: 16 + cop.to_u32(), rs: 8, rt: 1, low: low_half(off) }),
            Instruction::BCzTL(cop, off) => Some(Layout::Fields { op: 16 + cop.to_u32(), rs: 8, rt: 3, low: low_half(off) }),
            Instruction::BEQ(rs, rt, offset) => Some(Layout::Fields { op: 4, rs: rs.to_u32(), rt: rt.to_u32(), low: low_half(offset) }),
            _ => None,
        }
    }

    #[verifier::rlimit(60)]
    fn to_layout_1(self) -> (layout: Option<Layout>)
        ensures
            layout == self.layout_1(),
            layout matches Some(l) ==> l.fits(),
    {
        match self {
            Instruction::BEQL(rs, rt, offset) => Some(Layout::Fields { op: 20, rs: rs.to_u32(), rt: rt.to_u32(), low: low_half(offset) }),
            Instruction::BGEZ(rs, offset) => Some(Layout::Fields { op: 1, rs: rs.to_u32(), rt: 1, low: low_half(offset) }),
            Instruction::BGEZAL(rs, offset) => Some(Layout::Fields { op: 1, rs: rs.to_u32(), rt: 17, low: low_half(offset) }),
            Instruction::BGEZALL(rs, offset) => Some(Layout::Fields { op: 1, rs: rs.to_u32(), rt: 19, low: low_half(offset) }),
            Instruction::BGEZL(rs, offset) => Some(Layout::Fields { op: 1, rs: rs.to_u32(), rt: 3, low: low_half(offset) }),
            Instruction::BGTZ(rs, offset) => Some(Layout::Fields { op: 7, rs: rs.to_u32(), rt: 0, low: low_half(offset) }),
            Instruction::BGTZL(rs, offset) => Some(Layout::Fields { op: 23, rs: rs.to_u32(), rt: 0, low: low_half(offset) }),
            Instruction::BLEZ(rs, offset) => Some(Layout::Fields { op: 6, rs: rs.to_u32(), rt: 0, low: low_half(offset) }),
            Instruction::BLEZL(rs, offset) => Some(Layout::Fields { op: 22, rs: rs.to_u32(), rt: 0, low: low_half(offset) }),
            Instruction::BLTZ(rs, offset) => Some(Layout::Fields { op: 1, rs: rs.to_u32(), rt: 0, low: low_half(offset) }),
            Instruction::BLTZAL(rs, offset) => Some(Layout::Fields { op: 1, rs: rs.to_u32(), rt: 16, low: low_half(offset) }),
            _ => None,
        }
    }

    #[verifier::rlimit(60)]
    fn to_layout_2(self) -> (layout: Option<Layout>)
        ensures
            layout == self.layout_2(),
            layout matches Some(l) ==> l.fits(),
    {
        match self {
            Instruction::BLTZALL(rs, offset) => Some(Layout::Fields { op: 1, rs: rs.to_u32(), rt: 18, low: low_half(offset) }),
            Instruction::BLTZL(rs, offset) => Some(Layout::Fields { op: 1, rs: rs.to_u32(), rt: 2, low: low_half(offset) }),
            Instruction::BNE(rs, rt, offset) => Some(Layout::Fields { op: 5, rs: rs.to_u32(), rt: rt.to_u32(), low: low_half(offset) }),
            Instruction::BNEL(rs, rt, offset) => Some(Layout::Fields { op: 21, rs: rs.to_u32(), rt: rt.to_u32(), low: low_half(offset) }),
            Instruction::BREAK(code) => Some(Layout::Wide { op: 0, rest: (code % 0x10_0000) * 64 + 13 }),
            Instruction::CACHE(op, offset, base) => Some(Layout::Fields { op: 47, rs: base.to_u32(), rt: op as u32 % 32, low: low_half(offset) }),
            Instruction::CFCz(cop, rt, rd) => Some(Layout::Fields { op: 16 + cop.to_u32(), rs: 2, rt: rt.to_u32(), low: rd.to_u32() * 2048 }),
            Instruction::COPz(cop, cofun) => Some(Layout::Wide { op: 16 + cop.to_u32(), rest: 0x200_0000 + cofun % 0x200_0000 }),
            Instruction::CTCz(cop, rt, rd) => Some(Layout::Fields { op: 16 + cop.to_u32(), rs: 6, rt: rt.to_u32(), low: rd.to_u32() * 2048 }),
            Instruction::DADD(rd, rs, rt) => Some(Layout::Fields { op: 0, rs: rs.to_u32(), rt: rt.to_u32(), low: rd.to_u32() * 2048 + 44 }),
            Instruction::DADDI(rt, rs, imm) => Some(Layout::Fields { op: 24, rs: rs.to_u32(), rt: rt.to_u32(), low: low_half(imm) }),
            _ => None,
        }
    }

    #[verifier::rlimit(60)]
    fn to_layout_3(self) -> (layout: Option<Layout>)
        ensures
            layout == self.layout_3(),
            layout matches Some(l) ==> l.fits(),
    {
        match self {
            Instruction::DADDIU(rt, rs, imm) => Some(Layout::Fields { op: 25, rs: rs.to_u32(), rt: rt.to_u32(), low: low_half(imm) }),
            Instruction::DADDU(rd, rs, rt) => Some(Layout::Fields { op: 0, rs: rs.to_u32(), rt: rt.to_u32(), low: rd.to_u32() * 2048 + 45 }),
            Instruction::DDIV(rs, rt) => Some(Layout::Fields { op: 0, rs: rs.to_u32(), rt: rt.to_u32(), low: 30 }),
            Instruction::DDIVU(rs, rt) => Some(Layout::Fields { op: 0, rs: rs.to_u32(), rt: rt.to_u32(), low: 31 }),
            Instruction::DIV(rs, rt) => Some(Layout::Fields { op: 0, rs: rs.to_u32(), rt: rt.to_u32(), low: 26 }),
            Instruction::DIVU(rs, rt) => Some(Layout::Fields { op: 0, rs: rs.to_u32(), rt: rt.to_u32(), low: 27 }),
            Instruction::DMFC0(rt, rd) => Some(Layout::Fields { op: 16, rs: 1, rt: rt.to_u32(), low: rd.to_u32() * 2048 }),
            Instruction::DMTC0(rt, rd) => Some(Layout::Fields { op: 16, rs: 5, rt: rt.to_u32(), low: rd.to_u32() * 2048 }),
            Instruction::DMULT(rs, rt) => Some(Layout::Fields { op: 0, rs: rs.to_u32(), rt: rt.to_u32(), low: 28 }),
            Instruction::DMULTU(rs, rt) => Some(Layout::Fields { op: 0, rs: rs.to_u32(), rt: rt.to_u32(), low: 29 }),
            Instruction::DSLL(rd, rt, sa) => Some(Layout::Fields { op: 0, rs: 0, rt: rt.to_u32(), low: merge(rd.to_u32(), sa, 56) }),
            _ => None,
        }
    }

    #[verifier::rlimit(60)]
    fn to_layout_4(self) -> (layout: Option<Layout>)
        ensures
            layout == self.layout_4(),
            layout matches Some(l) ==> l.fits(),
    {
        match self {
            Instruction::DSLLV(rd, rt, rs) => Some(Layout::Fields { op: 0, rs: rs.to_u32(), rt: rt.to_u32(), low: rd.to_u32() * 2048 + 20 }),
            Instruction::DSLL32(rd, rt, sa) => Some(Layout::Fields { op: 0, rs: 0, rt: rt.to_u32(), low: merge(rd.to_u32(), sa, 60) }),
            Instruction::DSRA(rd, rt, sa) => Some(Layout::Fields { op: 0, rs: 0, rt: rt.to_u32(), low: merge(rd.to_u32(), sa, 59) }),
            Instruction::DSRAV(rd, rt, rs) => Some(Layout::Fields { op: 0, rs: rs.to_u32(), rt: rt.to_u32(), low: rd.to_u32() * 2048 + 23 }),
            Instruction::DSRA32(rd, rt, sa) => Some(Layout::Fields { op: 0, rs: 0, rt: rt.to_u32(), low: merge(rd.to_u32(), sa, 63) }),
            Instruction::DSRL(rd, rt, sa) => Some(Layout::Fields { op: 0, rs: 0, rt: rt.to_u32(), low: merge(rd.to_u32(), sa, 58) }),
            Instruction::DSRLV(rd, rt, rs) => Some(Layout::Fields { op: 0, rs: rs.to_u32(), rt: rt.to_u32(), low: rd.to_u32() * 2048 + 22 }),
            Instruction::DSRL32(rd, rt, sa) => Some(Layout::Fields { op: 0, rs: 0, rt: rt.to_u32(), low: merge(rd.to_u32(), sa, 62) }),
            Instruction::DSUB(rd, rs, rt) => Some(Layout::Fields { op: 0, rs: rs.to_u32(), rt: rt.to_u32(), low: rd.to_u32() * 2048 + 46 }),
            Instruction::DSUBU(rd, rs, rt) => Some(Layout::Fields { op: 0, rs: rs.to_u32(), rt: rt.to_u32(), low: rd.to_u32() * 2048 + 47 }),
            Instruction::ERET => Some(Layout::Fields { op: 16, rs: 16, rt: 0, low: 24 }),
            _ => None,
        }
    }

    #[verifier::rlimit(60)]
    fn to_layout_5(self) -> (layout: Option<Layout>)
        ensures
            layout == self.layout_5(),
            layout matches Some(l) ==> l.fits(),
    {
        match self {
            Instruction::J(target) => Some(Layout::Wide { op: 2, rest: (target / 4) % 0x400_0000 }),
            Instruction::JAL(target) => Some(Layout::Wide { op: 3, rest: (target / 4) % 0x400_0000 }),
            Instruction::JALR(rd, rs) => Some(Layout::Fields { op: 0, rs: rs.to_u32(), rt: 0, low: rd.to_u32() * 2048 + 9 }),
            Instruction::JR(rs) => Some(Layout::Fields { op: 0, rs: rs.to_u32(), rt: 0, low: 8 }),
            Instruction::LB(rt, offset, base) => Some(Layout::Fields { op: 32, rs: base.to_u32(), rt: rt.to_u32(), low: low_half(offset) }),
            Instruction::LBU(rt, offset, base) => Some(Layout::Fields { op: 36, rs: base.to_u32(), rt: rt.to_u32(), low: low_half(offset) }),
            Instruction::LD(rt, offset, base) => Some(Layout::Fields { op: 55, rs: base.to_u32(), rt: rt.to_u32(), low: low_half(offset) }),
            Instruction::LDCz(cop, rt, offset, base) => Some(Layout::Fields { op: 52 + cop.to_u32(), rs: base.to_u32(), rt: rt.to_u32(), low: low_half(offset) }),
            Instruction::LDL(rt, offset, base) => Some(Layout::Fields { op: 26, rs: base.to_u32(), rt: rt.to_u32(), low: low_half(offset) }),
            Instruction::LDR(rt, offset, base) => Some(Layout::Fields { op: 27, rs: base.to_u32(), rt: rt.to_u32(), low: low_half(offset) }),
            Instruction::LH(rt, offset, base) => Some(Layout::Fields { op: 33, rs: base.to_u32(), rt: rt.to_u32(), low: low_half(offset) }),
            _ => None,
        }
    }

    #[verifier::rlimit(60)]
    fn to_layout_6(self) -> (layout: Option<Layout>)
        ensures
            layout == self.layout_6(),
            layout matches Some(l) ==> l.fits(),
    {
        match self {
            Instruction::LHU(rt, offset, base) => Some(Layout::Fields { op: 37, rs: base.to_u32(), rt: rt.to_u32(), low: low_half(offset) }),
            Instruction::LL(rt, offset, base) => Some(Layout::Fields { op: 48, rs: base.to_u32(), rt: rt.to_u32(), low: low_half(offset) }),
            Instruction::LLD(rt, offset, base) => Some(Layout::Fields { op: 52, rs: base.to_u32(), rt: rt.to_u32(), low: low_half(offset) }),
            Instruction::LUI(rt, imm) => Some(Layout::Fields { op: 15, rs: 0, rt: rt.to_u32(), low: low_half(imm) }),
            Instruction::LW(rt, offset, base) => Some(Layout::Fields { op: 35, rs: base.to_u32(), rt: rt.to_u32(), low: low_half(offset) }),
            Instruction::LWCz(cop, rt, offset, base) => Some(Layout::Fields { op: 48 + cop.to_u32(), rs: base.to_u32(), rt: rt.to_u32(), low: low_half(offset) }),
            Instruction::LWL(rt, offset, base) => Some(Layout::Fields { op: 34, rs: base.to_u32(), rt: rt.to_u32(), low: low_half(offset) }),
            Instruction::LWR(rt, offset, base) => Some(Layout::Fields { op: 38, rs: base.to_u32(), rt: rt.to_u32(), low: low_half(offset) }),
            Instruction::LWU(rt, offset, base) => Some(Layout::Fields { op: 39, rs: base.to_u32(), rt: rt.to_u32(), low: low_half(offset) }),
            Instruction::MFC0(rt, rd) => Some(Layout::Fields { op: 16, rs: 0, rt: rt.to_u32(), low: rd.to_u32() * 2048 }),
            Instruction::MFCz(cop, rt, rd) => Some(Layout::Fields { op: 16 + cop.to_u32(), rs: 0, rt: rt.to_u32(), low: rd.to_u32() * 2048 }),
            _ => None,
        }
    }

    #[verifier::rlimit(60)]
    fn to_layout_7(self) -> (layout: Option<Layout>)
        ensures
            layout == self.layout_7(),
            layout matches Some(l) ==> l.fits(),
    {
        match self {
            Instruction::MFHI(rd) => Some(Layout::Fields { op: 0, rs: 0, rt: 0, low: rd.to_u32() * 2048 + 16 }),
            Instruction::MFLO(rd) => Some(Layout::Fields { op: 0, rs: 0, rt: 0, low: rd.to_u32() * 2048 + 18 }),
            Instruction::MTC0(rt, rd) => Some(Layout::Fields { op: 16, rs: 4, rt: rt.to_u32(), low: rd.to_u32() * 2048 }),
            Instruction::MTCz(cop, rt, rd) => Some(Layout::Fields { op: 16 + cop.to_u32(), rs: 4, rt: rt.to_u32(), low: rd.to_u32() * 2048 }),
            Instruction::MTHI(rs) => Some(Layout::Fields { op: 0, rs: rs.to_u32(), rt: 0, low: 17 }),
            Instruction::MTLO(rs) => Some(Layout::Fields { op: 0, rs: rs.to_u32(), rt: 0, low: 19 }),
            Instruction::MULT(rs, rt) => Some(Layout::Fields { op: 0, rs: rs.to_u32(), rt: rt.to_u32(), low: 24 }),
            Instruction::MULTU(rs, rt) => Some(Layout::Fields { op: 0, rs: rs.to_u32(), rt: rt.to_u32(), low: 25 }),
            Instruction::NOR(rd, rs, rt) => Some(Layout::Fields { op: 0, rs: rs.to_u32(), rt: rt.to_u32(), low: rd.to_u32() * 2048 + 39 }),
            Instruction::OR(rd, rs, rt) => Some(Layout::Fields { op: 0, rs: rs.to_u32(), rt: rt.to_u32(), low: rd.to_u32() * 2048 + 37 }),
            Instruction::ORI(rt, rs, imm) => Some(Layout::Fields { op: 13, rs: rs.to_u32(), rt: rt.to_u32(), low: low_half(imm) }),
            _ => None,
        }
    }

    #[verifier::rlimit(60)]
    fn to_layout_8(self) -> (layout: Option<Layout>)
        ensures
            layout == self.layout_8(),
            layout matches Some(l) ==> l.fits(),
    {
        match self {
            Instruction::SB(rt, offset, base) => Some(Layout::Fields { op: 40, rs: base.to_u32(), rt: rt.to_u32(), low: low_half(offset) }),
            Instruction::SC(rt, offset, base) => Some(Layout::Fields { op: 56, rs: base.to_u32(), rt: rt.to_u32(), low: low_half(offset) }),
            Instruction::SCD(rt, offset, base) => Some(Layout::Fields { op: 60, rs: base.to_u32(), rt: rt.to_u32(), low: low_half(offset) }),
            Instruction::SD(rt, offset, base) => Some(Layout::Fields { op: 63, rs: base.to_u32(), rt: rt.to_u32(), low: low_half(offset) }),
            Instruction::SDCz(cop, rt, offset, base) => Some(Layout::Fields { op: 60 + cop.to_u32(), rs: base.to_u32(), rt: rt.to_u32(), low: low_half(offset) }),
            Instruction::SDL(rt, offset, base) => Some(Layout::Fields { op: 44, rs: base.to_u32(), rt: rt.to_u32(), low: low_half(offset) }),
            Instruction::SDR(rt, offset, base) => Some(Layout::Fields { op: 45, rs: base.to_u32(), rt: rt.to_u32(), low: low_half(offset) }),
            Instruction::SH(rt, offset, base) => Some(Layout::Fields { op: 41, rs: base.to_u32(), rt: rt.to_u32(), low: low_half(offset) }),
            Instruction::SLL(rd, rt, sa) => Some(Layout::Fields { op: 0, rs: 0, rt: rt.to_u32(), low: merge(rd.to_u32(), sa, 0) }),
            Instruction::SLLV(rd, rt, rs) => Some(Layout::Fields { op: 0, rs: rs.to_u32(), rt: rt.to_u32(), low: rd.to_u32() * 2048 + 4 }),
            Instruction::SLT(rd, rs, rt) => Some(Layout::Fields { op: 0, rs: rs.to_u32(), rt: rt.to_u32(), low: rd.to_u32() * 2048 + 42 }),
            _ => None,
        }
    }

    #[verifier::rlimit(60)]
    fn to_layout_9(self) -> (layout: Option<Layout>)
        ensures
            layout == self.layout_9(),
            layout matches Some(l) ==> l.fits(),
    {
        match self {
            Instruction::SLTI(rt, rs, imm) => Some(Layout::Fields { op: 10, rs: rs.to_u32(), rt: rt.to_u32(), low: low_half(imm) }),
            Instruction::SLTIU(rt, rs, imm) => Some(Layout::Fields { op: 11, rs: rs.to_u32(), rt: rt.to_u32(), low: low_half(imm) }),
            Instruction::SLTU(rd, rs, rt) => Some(Layout::Fields { op: 0, rs: rs.to_u32(), rt: rt.to_u32(), low: rd.to_u32() * 2048 + 43 }),
            Instruction::SRA(rd, rt, sa) => Some(Layout::Fields { op: 0, rs: 0, rt: rt.to_u32(), low: merge(rd.to_u32(), sa, 3) }),
            Instruction::SRAV(rd, rt, rs) => Some(Layout::Fields { op: 0, rs: rs.to_u32(), rt: rt.to_u32(), low: rd.to_u32() * 2048 + 7 }),
            Instruction::SRL(rd, rt, sa) => Some(Layout::Fields { op: 0, rs: 0, rt: rt.to_u32(), low: merge(rd.to_u32(), sa, 2) }),
            Instruction::SRLV(rd, rt, rs) => Some(Layout::Fields { op: 0, rs: rs.to_u32(), rt: rt.to_u32(), low: rd.to_u32() * 2048 + 6 }),
            Instruction::SUB(rd, rs, rt) => Some(Layout::Fields { op: 0, rs: rs.to_u32(), rt: rt.to_u32(), low: rd.to_u32() * 2048 + 34 }),
            Instruction::SUBU(rd, rs, rt) => Some(Layout::Fields { op: 0, rs: rs.to_u32(), rt: rt.to_u32(), low: rd.to_u32() * 2048 + 35 }),
            Instruction::SW(rt, offset, base) => Some(Layout::Fields { op: 43, rs: base.to_u32(), rt: rt.to_u32(), low: low_half(offset) }),
            Instruction::SWCz(cop, rt, offset, base) => Some(Layout::Fields { op: 56 + cop.to_u32(), rs: base.to_u32(), rt: rt.to_u32(), low: low_half(offset) }),
            _ => None,
        }
    }

    #[verifier::rlimit(60)]
    fn to_layout_10(self) -> (layout: Option<Layout>)
        ensures
            layout == self.layout_10(),
            layout matches Some(l) ==> l.fits(),
    {
        match self {
            Instruction::SWL(rt, offset, base) => Some(Layout::Fields { op: 42, rs: base.to_u32(), rt: rt.to_u32(), low: low_half(offset) }),
            Instruction::SWR(rt, offset, base) => Some(Layout::Fields { op: 46, rs: base.to_u32(), rt: rt.to_u32(), low: low_half(offset) }),
            Instruction::SYNC => Some(Layout::Fields { op: 0, rs: 0, rt: 0, low: 15 }),
            Instruction::SYSCALL(code) => Some(Layout::Wide { op: 0, rest: (code % 0x10_0000) * 64 + 12 }),
            Instruction::TEQ(rs, rt, code) => Some(Layout::Fields { op: 0, rs: rs.to_u32(), rt: rt.to_u32(), low: (code as u32 % 0x400) * 64 + 52 }),
            Instruction::TEQI(rs, imm) => Some(Layout::Fields { op: 1, rs: rs.to_u32(), rt: 12, low: low_half(imm) }),
            Instruction::TGE(rs, rt, code) => Some(Layout::Fields { op: 0, rs: rs.to_u32(), rt: rt.to_u32(), low: (code as u32 % 0x400) * 64 + 48 }),
            Instruction::TGEI(rs, imm) => Some(Layout::Fields { op: 1, rs: rs.to_u32(), rt: 8, low: low_half(imm) }),
            Instruction::TGEIU(rs, imm) => Some(Layout::Fields { op: 1, rs: rs.to_u32(), rt: 9, low: low_half(imm) }),
            Instruction::TGEU(rs, rt, code) => Some(Layout::Fields { op: 0, rs: rs.to_u32(), rt: rt.to_u32(), low: (code as u32 % 0x400) * 64 + 49 }),
            Instruction::TLBP => Some(Layout::Fields { op: 16, rs: 16, rt: 0, low: 8 }),
            _ => None,
        }
    }

    #[verifier::rlimit(60)]
    fn to_layout_11(self) -> (layout: Option<Layout>)
        ensures
            layout == self.layout_11(),
            layout matches Some(l) ==> l.fits(),
    {
        match self {
            Instruction::TLBR => Some(Layout::Fields { op: 16, rs: 16, rt: 0, low: 1 }),
            Instruction::TLBWI => Some(Layout::Fields { op: 16, rs: 16, rt: 0, low: 2 }),
            Instruction::TLBWR => Some(Layout::Fields { op: 16, rs: 16, rt: 0, low: 6 }),
            Instruction::TLT(rs, rt, code) => Some(Layout::Fields { op: 0, rs: rs.to_u32(), rt: rt.to_u32(), low: (code as u32 % 0x400) * 64 + 50 }),
            Instruction::TLTI(rs, imm) => Some(Layout::Fields { op: 1, rs: rs.to_u32(), rt: 10, low: low_half(imm) }),
            Instruction::TLTIU(rs, imm) => Some(Layout::Fields { op: 1, rs: rs.to_u32(), rt: 11, low: low_half(imm) }),
            Instruction::TLTU(rs, rt, code) => Some(Layout::Fields { op: 0, rs: rs.to_u32(), rt: rt.to_u32(), low: (code as u32 % 0x400) * 64 + 51 }),
            Instruction::TNE(rs, rt, code) => Some(Layout::Fields { op: 0, rs: rs.to_u32(), rt: rt.to_u32(), low: (code as u32 % 0x400) * 64 + 54 }),
            Instruction::TNEI(rs, imm) => Some(Layout::Fields { op: 1, rs: rs.to_u32(), rt: 14, low: low_half(imm) }),
            Instruction::XOR(rd, rs, rt) => Some(Layout::Fields { op: 0, rs: rs.to_u32(), rt: rt.to_u32(), low: rd.to_u32() * 2048 + 38 }),
            Instruction::XORI(rt, rs, imm) => Some(Layout::Fields { op: 14, rs: rs.to_u32(), rt: rt.to_u32(), low: low_half(imm) }),
            _ => None,
        }
    }

    /// How the bits of the instruction are laid out.
    pub fn to_layout(self) -> (layout: Layout)
        ensures
            layout == self.layout(),
            layout.fits(),
    {
        if let Some(layout) = self.to_layout_0() {
            layout
        } else if let Some(layout) = self.to_layout_1() {
            layout
        } else if let Some(layout) = self.to_layout_2() {
            layout
        } else if let Some(layout) = self.to_layout_3() {
            layout
        } else if let Some(layout) = self.to_layout_4() {
            layout
        } else if let Some(layout) = self.to_layout_5() {
            layout
        } else if let Some(layout) = self.to_layout_6() {
            layout
        } else if let Some(layout) = self.to_layout_7() {
            layout
        } else if let Some(layout) = self.to_layout_8() {
            layout
        } else if let Some(layout) = self.to_layout_9() {
            layout
        } else if let Some(layout) = self.to_layout_10() {
            layout
        } else if let Some(layout) = self.to_layout_11() {
            layout
        } else {
            Layout::Wide { op: 0, rest: 0 }
        }
    }

    /// The word that stands for the instruction.
    pub fn to_word(self) -> (num: u32)
        ensures
            num == self.word(),
    {
        self.to_layout().to_word()
    }

    /// The four bytes that stand for the instruction, the highest first.
    pub open spec fn bytes(self) -> Seq<u8> {
        word_bytes(self.word())
    }

    /// The four bytes that stand for the instruction, the highest first.
    pub fn encode(self) -> (bytes: [u8; 4])
        ensures
            bytes@ == self.bytes(),
    {
        let num: u32 = self.to_word();
        let bytes = [
            (num / 0x100_0000) as u8,
            ((num / 0x1_0000) % 0x100) as u8,
            ((num / 0x100) % 0x100) as u8,
            (num % 0x100) as u8,
        ];
        assert(bytes@ =~= self.bytes());
        bytes
    }
}

/// The fields of a word, as every instruction may read them.
#[derive(Debug, Clone, Copy, PartialEq, Eq, Structural)]
pub struct Bits {
    /// The bits 26 to 31.
    pub opcode: u32,
    /// The bits 21 to 25.
    pub rs: u32,
    /// The bits 16 to 20.
    pub rt: u32,
    /// The bits 11 to 15.
    pub rd: u32,
    /// The bits 6 to 10.
    pub sa: u8,
    /// The bits 0 to 5.
    pub funct: u32,
    /// The bits 0 to 15 as a signed number.
    pub imm: i16,
    /// The bits 6 to 15.
    pub code10: u16,
    /// The bits 6 to 25.
    pub code20: u32,
    /// The bits 0 to 25 times four.
    pub target: u32,
    /// The bits 0 to 24.
    pub cofun: u32,
}

impl Bits {
    /// The fields of a word.
    #[verifier::opaque]
    pub open spec fn of(word: u32) -> Bits {
        Bits {
            opcode: word / 0x400_0000,
            rs: (word / 0x20_0000) % 32,
            rt: (word / 0x1_0000) % 32,
            rd: (word / 0x800) % 32,
            sa: ((word / 64) % 32) as u8,
            funct: word % 64,
            imm: signed16(word),
            code10: ((word / 64) % 0x400) as u16,
            code20: (word / 64) % 0x10_0000,
            target: ((word % 0x400_0000) * 4) as u32,
            cofun: word % 0x200_0000,
        }
    }

    /// Whether every field fits in its bits.
    pub open spec fn fits(self) -> bool {
        self.opcode < 64 && self.rs < 32 && self.rt < 32 && self.rd < 32
    }

    /// The fields of a word.
    pub fn split(word: u32) -> (b: Bits)
        ensures
            b == Self::of(word),
            b.fits(),
    {
        reveal(Bits::of);
        let low: u32 = word % 0x1_0000;
        Bits {
            opcode: word / 0x400_0000,
            rs: (word / 0x20_0000) % 32,
            rt: (word / 0x1_0000) % 32,
            rd: (word / 0x800) % 32,
            sa: ((word / 64) % 32) as u8,
            funct: word % 64,
            imm: if low >= 0x8000 {
                (low as i32 - 0x1_0000) as i16
            } else {
                low as i16
            },
            code10: ((word / 64) % 0x400) as u16,
            code20: (word / 64) % 0x10_0000,
            target: (word % 0x400_0000) * 4,
            cofun: word % 0x200_0000,
        }
    }
}

/// The instruction among those with opcode zero, which are told apart by
/// their function, and whether the bits that it leaves unused are zero.
pub open spec fn decoded_special(b: Bits) -> Option<(Instruction, bool)> {
    let rs = Register::of(b.rs);
    let rt = Register::of(b.rt);
    let rd = Register::of(b.rd);
    let cop = Coprocessor::of(b.opcode);
    match b.funct {
        0b000000 => Some((Instruction::SLL(rd, rt, b.sa), b.rs == 0)),
        0b000010 => Some((Instruction::SRL(rd, rt, b.sa), b.rs == 0)),
        0b000011 => Some((Instruction::SRA(rd, rt, b.sa), b.rs == 0)),
        0b000100 => Some((Instruction::SLLV(rd, rt, rs), b.sa == 0)),
        0b000110 => Some((Instruction::SRLV(rd, rt, rs), b.sa == 0)),
        0b000111 => Some((Instruction::SRAV(rd, rt, rs), b.sa == 0)),
        0b001000 => Some((Instruction::JR(rs), b.rt == 0 && b.rd == 0 && b.sa == 0)),
        0b001001 => Some((Instruction::JALR(rd, rs), b.rt == 0 && b.sa == 0)),
        0b001100 => Some((Instruction::SYSCALL(b.code20), true)),
        0b001101 => Some((Instruction::BREAK(b.code20), true)),
        0b001111 => Some((Instruction::SYNC, b.rs == 0 && b.rt == 0 && b.rd == 0 && b.sa == 0)),
        0b010000 => Some((Instruction::MFHI(rd), b.rs == 0 && b.rt == 0 && b.sa == 0)),
        0b010001 => Some((Instruction::MTHI(rs), b.rt == 0 && b.rd == 0 && b.sa == 0)),
        0b010010 => Some((Instruction::MFLO(rd), b.rs == 0 && b.rt == 0 && b.sa == 0)),
        0b010011 => Some((Instruction::MTLO(rs), b.rt == 0 && b.rd == 0 && b.sa == 0)),
        0b010100 => Some((Instruction::DSLLV(rd, rt, rs), b.sa == 0)),
        0b010110 => Some((Instruction::DSRLV(rd, rt, rs), b.sa == 0)),
        0b010111 => Some((Instruction::DSRAV(rd, rt, rs), b.sa == 0)),
        0b011000 => Some((Instruction::MULT(rs, rt), b.rd == 0 && b.sa == 0)),
        0b011001 => Some((Instruction::MULTU(rs, rt), b.rd == 0 && b.sa == 0)),
        0b011010 => Some((Instruction::DIV(rs, rt), b.rd == 0 && b.sa == 0)),
        0b011011 => Some((Instruction::DIVU(rs, rt), b.rd == 0 && b.sa == 0)),
        0b011100 => Some((Instruction::DMULT(rs, rt), b.rd == 0 && b.sa == 0)),
        0b011101 => Some((Instruction::DMULTU(rs, rt), b.rd == 0 && b.sa == 0)),
        0b011110 => Some((Instruction::DDIV(rs, rt), b.rd == 0 && b.sa == 0)),
        0b011111 => Some((Instruction::DDIVU(rs, rt), b.rd == 0 && b.sa == 0)),
        0b100000 => Some((Instruction::ADD(rd, rs, rt), b.sa == 0)),
        0b100001 => Some((Instruction::ADDU(rd, rs, rt), b.sa == 0)),
        0b100010 => Some((Instruction::SUB(rd, rs, rt), b.sa == 0)),
        0b100011 => Some((Instruction::SUBU(rd, rs, rt), b.sa == 0)),
        0b100100 => Some((Instruction::AND(rd, rs, rt), b.sa == 0)),
        0b100101 => Some((Instruction::OR(rd, rs, rt), b.sa == 0)),
        0b100110 => Some((Instruction::XOR(rd, rs, rt), b.sa == 0)),
        0b100111 => Some((Instruction::NOR(rd, rs, rt), b.sa == 0)),
        0b101010 => Some((Instruction::SLT(rd, rs, rt), b.sa == 0)),
        0b101011 => Some((Instruction::SLTU(rd, rs, rt), b.sa == 0)),
        0b101100 => Some((Instruction::DADD(rd, rs, rt), b.sa == 0)),
        0b101101 => Some((Instruction::DADDU(rd, rs, rt), b.sa == 0)),
        0b101110 => Some((Instruction::DSUB(rd, rs, rt), b.sa == 0)),
        0b101111 => Some((Instruction::DSUBU(rd, rs, rt), b.sa == 0)),
        0b110000 => Some((Instruction::TGE(rs, rt, b.code10), true)),
        0b110001 => Some((Instruction::TGEU(rs, rt, b.code10), true)),
        0b110010 => Some((Instruction::TLT(rs, rt, b.code10), true)),
        0b110011 => Some((Instruction::TLTU(rs, rt, b.code10), true)),
        0b110100 => Some((Instruction::TEQ(rs, rt, b.code10), true)),
        0b110110 => Some((Instruction::TNE(rs, rt, b.code10), true)),
        0b111000 => Some((Instruction::DSLL(rd, rt, b.sa), b.rs == 0)),
        0b111010 => Some((Instruction::DSRL(rd, rt, b.sa), b.rs == 0)),
        0b111011 => Some((Instruction::DSRA(rd, rt, b.sa), b.rs == 0)),
        0b111100 => Some((Instruction::DSLL32(rd, rt, b.sa), b.rs == 0)),
        0b111110 => Some((Instruction::DSRL32(rd, rt, b.sa), b.rs == 0)),
        0b111111 => Some((Instruction::DSRA32(rd, rt, b.sa), b.rs == 0)),
        _ => None,
    }
}

/// The instruction among those with opcode one, which are told apart by
/// their second register field, and whether its unused bits are zero.
pub open spec fn decoded_regimm(b: Bits) -> Option<(Instruction, bool)> {
    let rs = Register::of(b.rs);
    let rt = Register::of(b.rt);
    let rd = Register::of(b.rd);
    let cop = Coprocessor::of(b.opcode);
    match b.rt {
        0b00000 => Some((Instruction::BLTZ(rs, b.imm), true)),
        0b00001 => Some((Instruction::BGEZ(rs, b.imm), true)),
        0b00010 => Some((Instruction::BLTZL(rs, b.imm), true)),
        0b00011 => Some((Instruction::BGEZL(rs, b.imm), true)),
        0b01000 => Some((Instruction::TGEI(rs, b.imm), true)),
        0b01001 => Some((Instruction::TGEIU(rs, b.imm), true)),
        0b01010 => Some((Instruction::TLTI(rs, b.imm), true)),
        0b01011 => Some((Instruction::TLTIU(rs, b.imm), true)),
        0b01100 => Some((Instruction::TEQI(rs, b.imm), true)),
        0b01110 => Some((Instruction::TNEI(rs, b.imm), true)),
        0b10000 => Some((Instruction::BLTZAL(rs, b.imm), true)),
        0b10001 => Some((Instruction::BGEZAL(rs, b.imm), true)),
        0b10010 => Some((Instruction::BLTZALL(rs, b.imm), true)),
        0b10011 => Some((Instruction::BGEZALL(rs, b.imm), true)),
        _ => None,
    }
}

/// The instruction of the system coprocessor, and whether its unused
/// bits are zero.
pub open spec fn decoded_cop0(b: Bits) -> Option<(Instruction, bool)> {
    let rs = Register::of(b.rs);
    let rt = Register::of(b.rt);
    let rd = Register::of(b.rd);
    let cop = Coprocessor::of(b.opcode);
    match (b.rs, b.funct) {
        (0b00000, 0b000000) => Some((Instruction::MFC0(rt, rd), b.sa == 0)),
        (0b00001, 0b000000) => Some((Instruction::DMFC0(rt, rd), b.sa == 0)),
        (0b00100, 0b000000) => Some((Instruction::MTC0(rt, rd), b.sa == 0)),
        (0b00101, 0b000000) => Some((Instruction::DMTC0(rt, rd), b.sa == 0)),
        (0b10000, 0b000001) => Some((Instruction::TLBR, b.rt == 0 && b.rd == 0 && b.sa == 0)),
        (0b10000, 0b000010) => Some((Instruction::TLBWI, b.rt == 0 && b.rd == 0 && b.sa == 0)),
        (0b10000, 0b000110) => Some((Instruction::TLBWR, b.rt == 0 && b.rd == 0 && b.sa == 0)),
        (0b10000, 0b001000) => Some((Instruction::TLBP, b.rt == 0 && b.rd == 0 && b.sa == 0)),
        (0b10000, 0b011000) => Some((Instruction::ERET, b.rt == 0 && b.rd == 0 && b.sa == 0)),
        _ => None,
    }
}

/// The instruction of the first or second coprocessor, and whether its
/// unused bits are zero.
pub open spec fn decoded_copz(b: Bits) -> Option<(Instruction, bool)> {
    let rs = Register::of(b.rs);
    let rt = Register::of(b.rt);
    let rd = Register::of(b.rd);
    let cop = Coprocessor::of(b.opcode);
    match (b.rs, b.rt) {
        (0b00000, _) => Some((Instruction::MFCz(cop, rt, rd), b.sa == 0 && b.funct == 0)),
        (0b00010, _) => Some((Instruction::CFCz(cop, rt, rd), b.sa == 0 && b.funct == 0)),
        (0b00100, _) => Some((Instruction::MTCz(cop, rt, rd), b.sa == 0 && b.funct == 0)),
        (0b00110, _) => Some((Instruction::CTCz(cop, rt, rd), b.sa == 0 && b.funct == 0)),
        (0b01000, 0b00000) => Some((Instruction::BCzF(cop, b.imm), true)),
        (0b01000, 0b00001) => Some((Instruction::BCzT(cop, b.imm), true)),
        (0b01000, 0b00010) => Some((Instruction::BCzFL(cop, b.imm), true)),
        (0b01000, 0b00011) => Some((Instruction::BCzTL(cop, b.imm), true)),
        (_, _) => Some((Instruction::COPz(cop, b.cofun), b.rs >= 16)),
    }
}

/// The instruction that the fields of a word stand for, if any, and
/// whether the bits that it leaves unused are zero.
pub open spec fn decoded_main(b: Bits) -> Option<(Instruction, bool)> {
    let rs = Register::of(b.rs);
    let rt = Register::of(b.rt);
    let rd = Register::of(b.rd);
    let cop = Coprocessor::of(b.opcode);
    match b.opcode {
        0b000000 => decoded_special(b),
        0b000001 => decoded_regimm(b),
        0b000010 => Some((Instruction::J(b.target), true)),
        0b000011 => Some((Instruction::JAL(b.target), true)),
        0b000100 => Some((Instruction::BEQ(rs, rt, b.imm), true)),
        0b000101 => Some((Instruction::BNE(rs, rt, b.imm), true)),
        0b000110 => Some((Instruction::BLEZ(rs, b.imm), b.rt == 0)),
        0b000111 => Some((Instruction::BGTZ(rs, b.imm), b.rt == 0)),
        0b001000 => Some((Instruction::ADDI(rt, rs, b.imm), true)),
        0b001001 => Some((Instruction::ADDIU(rt, rs, b.imm), true)),
        0b001010 => Some((Instruction::SLTI(rt, rs, b.imm), true)),
        0b001011 => Some((Instruction::SLTIU(rt, rs, b.imm), true)),
        0b001100 => Some((Instruction::ANDI(rt, rs, b.imm), true)),
        0b001101 => Some((Instruction::ORI(rt, rs, b.imm), true)),
        0b001110 => Some((Instruction::XORI(rt, rs, b.imm), true)),
        0b001111 => Some((Instruction::LUI(rt, b.imm), b.rs == 0)),
        0b010000 => decoded_cop0(b),
        0b010001 | 0b010010 => decoded_copz(b),
        0b010100 => Some((Instruction::BEQL(rs, rt, b.imm), true)),
        0b010101 => Some((Instruction::BNEL(rs, rt, b.imm), true)),
        0b010110 => Some((Instruction::BLEZL(rs, b.imm), b.rt == 0)),
        0b010111 => Some((Instruction::BGTZL(rs, b.imm), b.rt == 0)),
        0b011000 => Some((Instruction::DADDI(rt, rs, b.imm), true)),
        0b011001 => Some((Instruction::DADDIU(rt, rs, b.imm), true)),
        0b011010 => Some((Instruction::LDL(rt, b.imm, rs), true)),
        0b011011 => Some((Instruction::LDR(rt, b.imm, rs), true)),
        0b100000 => Some((Instruction::LB(rt, b.imm, rs), true)),
        0b100001 => Some((Instruction::LH(rt, b.imm, rs), true)),
        0b100010 => Some((Instruction::LWL(rt, b.imm, rs), true)),
        0b100011 => Some((Instruction::LW(rt, b.imm, rs), true)),
        0b100100 => Some((Instruction::LBU(rt, b.imm, rs), true)),
        0b100101 => Some((Instruction::LHU(rt, b.imm, rs), true)),
        0b100110 => Some((Instruction::LWR(rt, b.imm, rs), true)),
        0b100111 => Some((Instruction::LWU(rt, b.imm, rs), true)),
        0b101000 => Some((Instruction::SB(rt, b.imm, rs), true)),
        0b101001 => Some((Instruction::SH(rt, b.imm, rs), true)),
        0b101010 => Some((Instruction::SWL(rt, b.imm, rs), true)),
        0b101011 => Some((Instruction::SW(rt, b.imm, rs), true)),
        0b101100 => Some((Instruction::SDL(rt, b.imm, rs), true)),
        0b101101 => Some((Instruction::SDR(rt, b.imm, rs), true)),
        0b101110 => Some((Instruction::SWR(rt, b.imm, rs), true)),
        0b101111 => Some((Instruction::CACHE(b.rt as u8, b.imm, rs), true)),
        0b110000 => Some((Instruction::LL(rt, b.imm, rs), true)),
        0b110001 | 0b110010 => Some((Instruction::LWCz(cop, rt, b.imm, rs), true)),
        0b110100 => Some((Instruction::LLD(rt, b.imm, rs), true)),
        0b110101 | 0b110110 => Some((Instruction::LDCz(cop, rt, b.imm, rs), true)),
        0b110111 => Some((Instruction::LD(rt, b.imm, rs), true)),
        0b111000 => Some((Instruction::SC(rt, b.imm, rs), true)),
        0b111001 | 0b111010 => Some((Instruction::SWCz(cop, rt, b.imm, rs), true)),
        0b111100 => Some((Instruction::SCD(rt, b.imm, rs), true)),
        0b111101 | 0b111110 => Some((Instruction::SDCz(cop, rt, b.imm, rs), true)),
        0b111111 => Some((Instruction::SD(rt, b.imm, rs), true)),
        _ => None,
    }
}

fn decode_special(b: Bits) -> (r: Option<(Instruction, bool)>)
    requires
        b.fits(),
    ensures
        r == decoded_special(b),
{
    let rs = Register::from_u32(b.rs);
    let rt = Register::from_u32(b.rt);
    let rd = Register::from_u32(b.rd);
    let cop = Coprocessor::from_u32(b.opcode % 4);
    match b.funct {
        0b000000 => Some((Instruction::SLL(rd, rt, b.sa), b.rs == 0)),
        0b000010 => Some((Instruction::SRL(rd, rt, b.sa), b.rs == 0)),
        0b000011 => Some((Instruction::SRA(rd, rt, b.sa), b.rs == 0)),
        0b000100 => Some((Instruction::SLLV(rd, rt, rs), b.sa == 0)),
        0b000110 => Some((Instruction::SRLV(rd, rt, rs), b.sa == 0)),
        0b000111 => Some((Instruction::SRAV(rd, rt, rs), b.sa == 0)),
        0b001000 => Some((Instruction::JR(rs), b.rt == 0 && b.rd == 0 && b.sa == 0)),
        0b001001 => Some((Instruction::JALR(rd, rs), b.rt == 0 && b.sa == 0)),
        0b001100 => Some((Instruction::SYSCALL(b.code20), true)),
        0b001101 => Some((Instruction::BREAK(b.code20), true)),
        0b001111 => Some((Instruction::SYNC, b.rs == 0 && b.rt == 0 && b.rd == 0 && b.sa == 0)),
        0b010000 => Some((Instruction::MFHI(rd), b.rs == 0 && b.rt == 0 && b.sa == 0)),
        0b010001 => Some((Instruction::MTHI(rs), b.rt == 0 && b.rd == 0 && b.sa == 0)),
        0b010010 => Some((Instruction::MFLO(rd), b.rs == 0 && b.rt == 0 && b.sa == 0)),
        0b010011 => Some((Instruction::MTLO(rs), b.rt == 0 && b.rd == 0 && b.sa == 0)),
        0b010100 => Some((Instruction::DSLLV(rd, rt, rs), b.sa == 0)),
        0b010110 => Some((Instruction::DSRLV(rd, rt, rs), b.sa == 0)),
        0b010111 => Some((Instruction::DSRAV(rd, rt, rs), b.sa == 0)),
        0b011000 => Some((Instruction::MULT(rs, rt), b.rd == 0 && b.sa == 0)),
        0b011001 => Some((Instruction::MULTU(rs, rt), b.rd == 0 && b.sa == 0)),
        0b011010 => Some((Instruction::DIV(rs, rt), b.rd == 0 && b.sa == 0)),
        0b011011 => Some((Instruction::DIVU(rs, rt), b.rd == 0 && b.sa == 0)),
        0b011100 => Some((Instruction::DMULT(rs, rt), b.rd == 0 && b.sa == 0)),
        0b011101 => Some((Instruction::DMULTU(rs, rt), b.rd == 0 && b.sa == 0)),
        0b011110 => Some((Instruction::DDIV(rs, rt), b.rd == 0 && b.sa == 0)),
        0b011111 => Some((Instruction::DDIVU(rs, rt), b.rd == 0 && b.sa == 0)),
        0b100000 => Some((Instruction::ADD(rd, rs, rt), b.sa == 0)),
        0b100001 => Some((Instruction::ADDU(rd, rs, rt), b.sa == 0)),
        0b100010 => Some((Instruction::SUB(rd, rs, rt), b.sa == 0)),
        0b100011 => Some((Instruction::SUBU(rd, rs, rt), b.sa == 0)),
        0b100100 => Some((Instruction::AND(rd, rs, rt), b.sa == 0)),
        0b100101 => Some((Instruction::OR(rd, rs, rt), b.sa == 0)),
        0b100110 => Some((Instruction::XOR(rd, rs, rt), b.sa == 0)),
        0b100111 => Some((Instruction::NOR(rd, rs, rt), b.sa == 0)),
        0b101010 => Some((Instruction::SLT(rd, rs, rt), b.sa == 0)),
        0b101011 => Some((Instruction::SLTU(rd, rs, rt), b.sa == 0)),
        0b101100 => Some((Instruction::DADD(rd, rs, rt), b.sa == 0)),
        0b101101 => Some((Instruction::DADDU(rd, rs, rt), b.sa == 0)),
        0b101110 => Some((Instruction::DSUB(rd, rs, rt), b.sa == 0)),
        0b101111 => Some((Instruction::DSUBU(rd, rs, rt), b.sa == 0)),
        0b110000 => Some((Instruction::TGE(rs, rt, b.code10), true)),
        0b110001 => Some((Instruction::TGEU(rs, rt, b.code10), true)),
        0b110010 => Some((Instruction::TLT(rs, rt, b.code10), true)),
        0b110011 => Some((Instruction::TLTU(rs, rt, b.code10), true)),
        0b110100 => Some((Instruction::TEQ(rs, rt, b.code10), true)),
        0b110110 => Some((Instruction::TNE(rs, rt, b.code10), true)),
        0b111000 => Some((Instruction::DSLL(rd, rt, b.sa), b.rs == 0)),
        0b111010 => Some((Instruction::DSRL(rd, rt, b.sa), b.rs == 0)),
        0b111011 => Some((Instruction::DSRA(rd, rt, b.sa), b.rs == 0)),
        0b111100 => Some((Instruction::DSLL32(rd, rt, b.sa), b.rs == 0)),
        0b111110 => Some((Instruction::DSRL32(rd, rt, b.sa), b.rs == 0)),
        0b111111 => Some((Instruction::DSRA32(rd, rt, b.sa), b.rs == 0)),
        _ => None,
    }
}

fn decode_regimm(b: Bits) -> (r: Option<(Instruction, bool)>)
    requires
        b.fits(),
    ensures
        r == decoded_regimm(b),
{
    let rs = Register::from_u32(b.rs);
    let rt = Register::from_u32(b.rt);
    let rd = Register::from_u32(b.rd);
    let cop = Coprocessor::from_u32(b.opcode % 4);
    match b.rt {
        0b00000 => Some((Instruction::BLTZ(rs, b.imm), true)),
        0b00001 => Some((Instruction::BGEZ(rs, b.imm), true)),
        0b00010 => Some((Instruction::BLTZL(rs, b.imm), true)),
        0b00011 => Some((Instruction::BGEZL(rs, b.imm), true)),
        0b01000 => Some((Instruction::TGEI(rs, b.imm), true)),
        0b01001 => Some((Instruction::TGEIU(rs, b.imm), true)),
        0b01010 => Some((Instruction::TLTI(rs, b.imm), true)),
        0b01011 => Some((Instruction::TLTIU(rs, b.imm), true)),
        0b01100 => Some((Instruction::TEQI(rs, b.imm), true)),
        0b01110 => Some((Instruction::TNEI(rs, b.imm), true)),
        0b10000 => Some((Instruction::BLTZAL(rs, b.imm), true)),
        0b10001 => Some((Instruction::BGEZAL(rs, b.imm), true)),
        0b10010 => Some((Instruction::BLTZALL(rs, b.imm), true)),
        0b10011 => Some((Instruction::BGEZALL(rs, b.imm), true)),
        _ => None,
    }
}

fn decode_cop0(b: Bits) -> (r: Option<(Instruction, bool)>)
    requires
        b.fits(),
    ensures
        r == decoded_cop0(b),
{
    let rs = Register::from_u32(b.rs);
    let rt = Register::from_u32(b.rt);
    let rd = Register::from_u32(b.rd);
    let cop = Coprocessor::from_u32(b.opcode % 4);
    match (b.rs, b.funct) {
        (0b00000, 0b000000) => Some((Instruction::MFC0(rt, rd), b.sa == 0)),
        (0b00001, 0b000000) => Some((Instruction::DMFC0(rt, rd), b.sa == 0)),
        (0b00100, 0b000000) => Some((Instruction::MTC0(rt, rd), b.sa == 0)),
        (0b00101, 0b000000) => Some((Instruction::DMTC0(rt, rd), b.sa == 0)),
        (0b10000, 0b000001) => Some((Instruction::TLBR, b.rt == 0 && b.rd == 0 && b.sa == 0)),
        (0b10000, 0b000010) => Some((Instruction::TLBWI, b.rt == 0 && b.rd == 0 && b.sa == 0)),
        (0b10000, 0b000110) => Some((Instruction::TLBWR, b.rt == 0 && b.rd == 0 && b.sa == 0)),
        (0b10000, 0b001000) => Some((Instruction::TLBP, b.rt == 0 && b.rd == 0 && b.sa == 0)),
        (0b10000, 0b011000) => Some((Instruction::ERET, b.rt == 0 && b.rd == 0 && b.sa == 0)),
        _ => None,
    }
}

fn decode_copz(b: Bits) -> (r: Option<(Instruction, bool)>)
    requires
        b.fits(),
    ensures
        r == decoded_copz(b),
{
    let rs = Register::from_u32(b.rs);
    let rt = Register::from_u32(b.rt);
    let rd = Register::from_u32(b.rd);
    let cop = Coprocessor::from_u32(b.opcode % 4);
    match (b.rs, b.rt) {
        (0b00000, _) => Some((Instruction::MFCz(cop, rt, rd), b.sa == 0 && b.funct == 0)),
        (0b00010, _) => Some((Instruction::CFCz(cop, rt, rd), b.sa == 0 && b.funct == 0)),
        (0b00100, _) => Some((Instruction::MTCz(cop, rt, rd), b.sa == 0 && b.funct == 0)),
        (0b00110, _) => Some((Instruction::CTCz(cop, rt, rd), b.sa == 0 && b.funct == 0)),
        (0b01000, 0b00000) => Some((Instruction::BCzF(cop, b.imm), true)),
        (0b01000, 0b00001) => Some((Instruction::BCzT(cop, b.imm), true)),
        (0b01000, 0b00010) => Some((Instruction::BCzFL(cop, b.imm), true)),
        (0b01000, 0b00011) => Some((Instruction::BCzTL(cop, b.imm), true)),
        (_, _) => Some((Instruction::COPz(cop, b.cofun), b.rs >= 16)),
    }
}

fn decode_main(b: Bits) -> (r: Option<(Instruction, bool)>)
    requires
        b.fits(),
    ensures
        r == decoded_main(b),
{
    let rs = Register::from_u32(b.rs);
    let rt = Register::from_u32(b.rt);
    let rd = Register::from_u32(b.rd);
    let cop = Coprocessor::from_u32(b.opcode % 4);
    match b.opcode {
        0b000000 => decode_special(b),
        0b000001 => decode_regimm(b),
        0b000010 => Some((Instruction::J(b.target), true)),
        0b000011 => Some((Instruction::JAL(b.target), true)),
        0b000100 => Some((Instruction::BEQ(rs, rt, b.imm), true)),
        0b000101 => Some((Instruction::BNE(rs, rt, b.imm), true)),
        0b000110 => Some((Instruction::BLEZ(rs, b.imm), b.rt == 0)),
        0b000111 => Some((Instruction::BGTZ(rs, b.imm), b.rt == 0)),
        0b001000 => Some((Instruction::ADDI(rt, rs, b.imm), true)),
        0b001001 => Some((Instruction::ADDIU(rt, rs, b.imm), true)),
        0b001010 => Some((Instruction::SLTI(rt, rs, b.imm), true)),
        0b001011 => Some((Instruction::SLTIU(rt, rs, b.imm), true)),
        0b001100 => Some((Instruction::ANDI(rt, rs, b.imm), true)),
        0b001101 => Some((Instruction::ORI(rt, rs, b.imm), true)),
        0b001110 => Some((Instruction::XORI(rt, rs, b.imm), true)),
        0b001111 => Some((Instruction::LUI(rt, b.imm), b.rs == 0)),
        0b010000 => decode_cop0(b),
        0b010001 | 0b010010 => decode_copz(b),
        0b010100 => Some((Instruction::BEQL(rs, rt, b.imm), true)),
        0b010101 => Some((Instruction::BNEL(rs, rt, b.imm), true)),
        0b010110 => Some((Instruction::BLEZL(rs, b.imm), b.rt == 0)),
        0b010111 => Some((Instruction::BGTZL(rs, b.imm), b.rt == 0)),
        0b011000 => Some((Instruction::DADDI(rt, rs, b.imm), true)),
        0b011001 => Some((Instruction::DADDIU(rt, rs, b.imm), true)),
        0b011010 => Some((Instruction::LDL(rt, b.imm, rs), true)),
        0b011011 => Some((Instruction::LDR(rt, b.imm, rs), true)),
        0b100000 => Some((Instruction::LB(rt, b.imm, rs), true)),
        0b100001 => Some((Instruction::LH(rt, b.imm, rs), true)),
        0b100010 => Some((Instruction::LWL(rt, b.imm, rs), true)),
        0b100011 => Some((Instruction::LW(rt, b.imm, rs), true)),
        0b100100 => Some((Instruction::LBU(rt, b.imm, rs), true)),
        0b100101 => Some((Instruction::LHU(rt, b.imm, rs), true)),
        0b100110 => Some((Instruction::LWR(rt, b.imm, rs), true)),
        0b100111 => Some((Instruction::LWU(rt, b.imm, rs), true)),
        0b101000 => Some((Instruction::SB(rt, b.imm, rs), true)),
        0b101001 => Some((Instruction::SH(rt, b.imm, rs), true)),
        0b101010 => Some((Instruction::SWL(rt, b.imm, rs), true)),
        0b101011 => Some((Instruction::SW(rt, b.imm, rs), true)),
        0b101100 => Some((Instruction::SDL(rt, b.imm, rs), true)),
        0b101101 => Some((Instruction::SDR(rt, b.imm, rs), true)),
        0b101110 => Some((Instruction::SWR(rt, b.imm, rs), true)),
        0b101111 => Some((Instruction::CACHE(b.rt as u8, b.imm, rs), true)),
        0b110000 => Some((Instruction::LL(rt, b.imm, rs), true)),
        0b110001 | 0b110010 => Some((Instruction::LWCz(cop, rt, b.imm, rs), true)),
        0b110100 => Some((Instruction::LLD(rt, b.imm, rs), true)),
        0b110101 | 0b110110 => Some((Instruction::LDCz(cop, rt, b.imm, rs), true)),
        0b110111 => Some((Instruction::LD(rt, b.imm, rs), true)),
        0b111000 => Some((Instruction::SC(rt, b.imm, rs), true)),
        0b111001 | 0b111010 => Some((Instruction::SWCz(cop, rt, b.imm, rs), true)),
        0b111100 => Some((Instruction::SCD(rt, b.imm, rs), true)),
        0b111101 | 0b111110 => Some((Instruction::SDCz(cop, rt, b.imm, rs), true)),
        0b111111 => Some((Instruction::SD(rt, b.imm, rs), true)),
        _ => None,
    }
}

impl Instruction {
    /// The instruction that a word stands for, if any. A word whose
    /// opcode and function name an instruction stands for it only if the
    /// bits that the instruction leaves unused are zero.
    pub open spec fn of_word(word: u32) -> Option<Instruction> {
        match decoded_main(Bits::of(word)) {
            Some((instruction, true)) => Some(instruction),
            _ => None,
        }
    }

    /// The instruction that a word stands for, if any.
    pub fn from_word(word: u32) -> (r: Option<Instruction>)
        ensures
            r == Self::of_word(word),
    {
        match decode_main(Bits::split(word)) {
            Some((instruction, true)) => Some(instruction),
            _ => None,
        }
    }

    /// The instruction that four bytes stand for, the highest byte first,
    /// if any.
    pub open spec fn of_bytes(bytes: Seq<u8>) -> Option<Instruction> {
        Self::of_word(bytes_word(bytes))
    }

    /// The instruction that four bytes stand for, the highest byte first,
    /// if any.
    pub fn decode(instruction: [u8; 4]) -> (r: Option<Instruction>)
        ensures
            r == Self::of_bytes(instruction@),
    {
        let word: u32 = (instruction[0] as u32) * 0x100_0000 + (instruction[1] as u32) * 0x1_0000 + (
        instruction[2] as u32) * 0x100 + instruction[3] as u32;
        Self::from_word(word)
    }
}

} // verus!
