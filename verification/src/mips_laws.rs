//! The two ways between instructions and words undo each other: every
//! instruction whose operands fit in their bits is read back from the
//! word that stands for it.

use vstd::prelude::*;
use vstd::arithmetic::div_mod::lemma_fundamental_div_mod_converse;
use crate::mips::{
    bytes_word, lemma_merged, low16, merged, signed16, word_bytes, Bits, Coprocessor, Instruction,
    Layout, Register,
};

verus! {

/// A register is the register with its number.
proof fn lemma_register(r: Register)
    ensures
        Register::of(r.number()) == r,
        r.number() < 32,
{
    reveal(Register::number);
    reveal(Register::of);
}

/// A coprocessor is the coprocessor with its number.
proof fn lemma_coprocessor(c: Coprocessor)
    ensures
        Coprocessor::of(c.number()) == c,
        Coprocessor::of((16 + c.number()) as u32) == c,
        Coprocessor::of((48 + c.number()) as u32) == c,
        Coprocessor::of((52 + c.number()) as u32) == c,
        Coprocessor::of((56 + c.number()) as u32) == c,
        Coprocessor::of((60 + c.number()) as u32) == c,
        c.number() < 4,
{
}

/// Sixteen bits hold a signed number exactly.
proof fn lemma_low16(i: i16)
    ensures
        low16(i) < 0x1_0000,
        signed16(low16(i)) == i,
{
}

/// A number below `d` times `n`, divided by `d`: what is above the low
/// part stays, and the low part is what is left.
proof fn lemma_cut(high: int, low: int, d: int)
    requires
        d > 0,
        0 <= low < d,
        0 <= high,
    ensures
        (high * d + low) / d == high,
        (high * d + low) % d == low,
{
    lemma_fundamental_div_mod_converse(high * d + low, d, high, low);
}

/// The parts of a word made of an opcode, two registers and sixteen low
/// bits.
proof fn lemma_split(op: int, rs: int, rt: int, low: int)
    requires
        0 <= op < 64,
        0 <= rs < 32,
        0 <= rt < 32,
        0 <= low < 0x1_0000,
    ensures
        ({
            let w = op * 0x400_0000 + rs * 0x20_0000 + rt * 0x1_0000 + low;
            &&& 0 <= w < 0x1_0000_0000
            &&& w / 0x400_0000 == op
            &&& (w / 0x20_0000) % 32 == rs
            &&& (w / 0x1_0000) % 32 == rt
            &&& w % 0x1_0000 == low
            &&& (w / 0x800) % 32 == low / 0x800
            &&& (w / 64) % 32 == (low / 64) % 32
            &&& (w / 64) % 0x400 == low / 64
            &&& w % 64 == low % 64
        }),
{
    let w = op * 0x400_0000 + rs * 0x20_0000 + rt * 0x1_0000 + low;
    let high = (op * 32 + rs) * 32 + rt;
    lemma_cut(op, rs * 0x20_0000 + rt * 0x1_0000 + low, 0x400_0000);
    lemma_cut(op * 32 + rs, rt * 0x1_0000 + low, 0x20_0000);
    lemma_cut(op, rs, 32);
    lemma_cut(high, low, 0x1_0000);
    lemma_cut(op * 32 + rs, rt, 32);
    lemma_cut(high * 32 + low / 0x800, low % 0x800, 0x800);
    lemma_cut(high, low / 0x800, 32);
    lemma_cut(high * 0x400 + low / 64, low % 64, 64);
    lemma_cut(high * 32 + low / 0x800, (low / 64) % 32, 32);
    lemma_cut(high, low / 64, 0x400);
}

/// The parts of a word made of an opcode and the other 26 bits.
proof fn lemma_split_wide(op: int, rest: int)
    requires
        0 <= op < 64,
        0 <= rest < 0x400_0000,
    ensures
        ({
            let w = op * 0x400_0000 + rest;
            &&& 0 <= w < 0x1_0000_0000
            &&& w / 0x400_0000 == op
            &&& w % 0x400_0000 == rest
            &&& (w / 0x20_0000) % 32 == rest / 0x20_0000
            &&& (w / 64) % 0x10_0000 == rest / 64
            &&& w % 64 == rest % 64
            &&& w % 0x200_0000 == rest % 0x200_0000
        }),
{
    lemma_cut(op, rest, 0x400_0000);
    lemma_cut(op * 32 + rest / 0x20_0000, rest % 0x20_0000, 0x20_0000);
    lemma_cut(op, rest / 0x20_0000, 32);
    lemma_cut(op * 0x10_0000 + rest / 64, rest % 64, 64);
    lemma_cut(op, rest / 64, 0x10_0000);
    lemma_cut(op * 2 + rest / 0x200_0000, rest % 0x200_0000, 0x200_0000);
}

/// The fields of a word that was made from an opcode, two registers and
/// the low sixteen bits.
proof fn lemma_fields(op: u32, rs: u32, rt: u32, low: u32)
    requires
        op < 64,
        rs < 32,
        rt < 32,
        low < 0x1_0000,
    ensures
        ({
            let b = Bits::of((Layout::Fields { op, rs, rt, low }).word());
            &&& b.opcode == op
            &&& b.rs == rs
            &&& b.rt == rt
            &&& b.rd == low / 2048
            &&& b.sa == (low / 64) % 32
            &&& b.funct == low % 64
            &&& b.imm == signed16(low)
            &&& b.code10 == low / 64
        }),
{
    reveal(Bits::of);
    reveal(Layout::word);
    lemma_split(op as int, rs as int, rt as int, low as int);
}

/// The fields of a word that was made from an opcode and the other 26
/// bits as one number.
proof fn lemma_wide(op: u32, rest: u32)
    requires
        op < 64,
        rest < 0x400_0000,
    ensures
        ({
            let b = Bits::of((Layout::Wide { op, rest }).word());
            &&& b.opcode == op
            &&& b.rs == rest / 0x20_0000
            &&& b.funct == rest % 64
            &&& b.code20 == rest / 64
            &&& b.target == rest * 4
            &&& b.cofun == rest % 0x200_0000
        }),
{
    reveal(Bits::of);
    reveal(Layout::word);
    lemma_split_wide(op as int, rest as int);
}

/// The fields of a word whose low sixteen bits are a register, a shift
/// amount and a function.
proof fn lemma_parts(op: u32, rs: u32, rt: u32, low: u32, rd: u32, sa: u8, funct: u32)
    requires
        op < 64,
        rs < 32,
        rt < 32,
        rd < 32,
        sa < 32,
        funct < 64,
        low == rd * 2048 + sa * 64 + funct,
    ensures
        ({
            let b = Bits::of((Layout::Fields { op, rs, rt, low }).word());
            &&& b.opcode == op
            &&& b.rs == rs
            &&& b.rt == rt
            &&& b.rd == rd
            &&& b.sa == sa
            &&& b.funct == funct
        }),
{
    lemma_fields(op, rs, rt, low);
    lemma_cut(rd as int, sa * 64 + funct, 2048);
    lemma_cut(rd * 32 + sa, funct as int, 64);
    lemma_cut(rd as int, sa as int, 32);
}

/// The fields of a word whose low sixteen bits are a code of ten bits
/// and a function.
proof fn lemma_trap(op: u32, rs: u32, rt: u32, low: u32, code: u16, funct: u32)
    requires
        op < 64,
        rs < 32,
        rt < 32,
        code < 0x400,
        funct < 64,
        low == (code as u32 % 0x400) * 64 + funct,
    ensures
        ({
            let b = Bits::of((Layout::Fields { op, rs, rt, low }).word());
            &&& b.opcode == op
            &&& b.rs == rs
            &&& b.rt == rt
            &&& b.code10 == code
            &&& b.funct == funct
        }),
{
    lemma_fields(op, rs, rt, low);
    lemma_cut(code as int, funct as int, 64);
}

/// The fields of a word that holds a code of twenty bits and a function.
proof fn lemma_call(op: u32, rest: u32, code: u32, funct: u32)
    requires
        op < 64,
        code < 0x10_0000,
        funct < 64,
        rest == (code % 0x10_0000) * 64 + funct,
    ensures
        ({
            let b = Bits::of((Layout::Wide { op, rest }).word());
            &&& b.opcode == op
            &&& b.code20 == code
            &&& b.funct == funct
        }),
{
    lemma_wide(op, rest);
    lemma_cut(code as int, funct as int, 64);
}

/// The fields of a word that holds the target of a jump.
proof fn lemma_jump(op: u32, rest: u32, target: u32)
    requires
        op < 64,
        target % 4 == 0,
        target < 0x1000_0000,
        rest == (target / 4) % 0x400_0000,
    ensures
        ({
            let b = Bits::of((Layout::Wide { op, rest }).word());
            &&& b.opcode == op
            &&& b.target == target
        }),
{
    lemma_wide(op, rest);
}

/// The fields of a word that holds an operation of a coprocessor.
proof fn lemma_operation(op: u32, rest: u32, cofun: u32)
    requires
        op < 64,
        cofun < 0x200_0000,
        rest == 0x200_0000 + cofun % 0x200_0000,
    ensures
        ({
            let b = Bits::of((Layout::Wide { op, rest }).word());
            &&& b.opcode == op
            &&& b.cofun == cofun
            &&& 16 <= b.rs < 32
        }),
{
    lemma_wide(op, rest);
}

/// Whether the operands of an instruction fit in the bits that a word
/// has for them: a shift amount and the operation of a cache instruction
/// in five bits, the code of a trap in ten, the code of a system call or
/// a break in twenty, the operation of a coprocessor in 25; the target
/// of a jump is a multiple of four below 2^28; and an instruction of a
/// coprocessor by number is for the first or the second.
pub open spec fn well_formed(i: Instruction) -> bool {
    match i {
        Instruction::BCzF(cop, off) => (cop == Coprocessor::Cp1 || cop == Coprocessor::Cp2),
        Instruction::BCzFL(cop, off) => (cop == Coprocessor::Cp1 || cop == Coprocessor::Cp2),
        Instruction::BCzT(cop, off) => (cop == Coprocessor::Cp1 || cop == Coprocessor::Cp2),
        Instruction::BCzTL(cop, off) => (cop == Coprocessor::Cp1 || cop == Coprocessor::Cp2),
        Instruction::BREAK(code) => code < 0x10_0000,
        Instruction::CACHE(op, offset, base) => op < 32,
        Instruction::CFCz(cop, rt, rd) => (cop == Coprocessor::Cp1 || cop == Coprocessor::Cp2),
        Instruction::COPz(cop, cofun) => cofun < 0x200_0000 && (cop == Coprocessor::Cp1 || cop == Coprocessor::Cp2),
        Instruction::CTCz(cop, rt, rd) => (cop == Coprocessor::Cp1 || cop == Coprocessor::Cp2),
        Instruction::DSLL(rd, rt, sa) => sa < 32,
        Instruction::DSLL32(rd, rt, sa) => sa < 32,
        Instruction::DSRA(rd, rt, sa) => sa < 32,
        Instruction::DSRA32(rd, rt, sa) => sa < 32,
        Instruction::DSRL(rd, rt, sa) => sa < 32,
        Instruction::DSRL32(rd, rt, sa) => sa < 32,
        Instruction::J(target) => target % 4 == 0 && target < 0x1000_0000,
        Instruction::JAL(target) => target % 4 == 0 && target < 0x1000_0000,
        Instruction::LDCz(cop, rt, offset, base) => (cop == Coprocessor::Cp1 || cop == Coprocessor::Cp2),
        Instruction::LWCz(cop, rt, offset, base) => (cop == Coprocessor::Cp1 || cop == Coprocessor::Cp2),
        Instruction::MFCz(cop, rt, rd) => (cop == Coprocessor::Cp1 || cop == Coprocessor::Cp2),
        Instruction::MTCz(cop, rt, rd) => (cop == Coprocessor::Cp1 || cop == Coprocessor::Cp2),
        Instruction::SDCz(cop, rt, offset, base) => (cop == Coprocessor::Cp1 || cop == Coprocessor::Cp2),
        Instruction::SLL(rd, rt, sa) => sa < 32,
        Instruction::SRA(rd, rt, sa) => sa < 32,
        Instruction::SRL(rd, rt, sa) => sa < 32,
        Instruction::SWCz(cop, rt, offset, base) => (cop == Coprocessor::Cp1 || cop == Coprocessor::Cp2),
        Instruction::SYSCALL(code) => code < 0x10_0000,
        Instruction::TEQ(rs, rt, code) => code < 0x400,
        Instruction::TGE(rs, rt, code) => code < 0x400,
        Instruction::TGEU(rs, rt, code) => code < 0x400,
        Instruction::TLT(rs, rt, code) => code < 0x400,
        Instruction::TLTU(rs, rt, code) => code < 0x400,
        Instruction::TNE(rs, rt, code) => code < 0x400,
        _ => true,
    }
}

/// `ADD` is read back from its word.
proof fn read_add(rd: Register, rs: Register, rt: Register)
    ensures
        Instruction::of_word(Instruction::ADD(rd, rs, rt).word()) == Some(Instruction::ADD(rd, rs, rt)),
{
    lemma_register(rd);
    lemma_register(rs);
    lemma_register(rt);
    lemma_parts(0, rs.number(), rt.number(), (rd.number() * 2048 + 32) as u32, rd.number(), 0, 32);
}

/// `ADDI` is read back from its word.
proof fn read_addi(rt: Register, rs: Register, imm: i16)
    ensures
        Instruction::of_word(Instruction::ADDI(rt, rs, imm).word()) == Some(Instruction::ADDI(rt, rs, imm)),
{
    lemma_register(rt);
    lemma_register(rs);
    lemma_low16(imm);
    lemma_fields(8, rs.number(), rt.number(), low16(imm));
}

/// `ADDIU` is read back from its word.
proof fn read_addiu(rt: Register, rs: Register, imm: i16)
    ensures
        Instruction::of_word(Instruction::ADDIU(rt, rs, imm).word()) == Some(Instruction::ADDIU(rt, rs, imm)),
{
    lemma_register(rt);
    lemma_register(rs);
    lemma_low16(imm);
    lemma_fields(9, rs.number(), rt.number(), low16(imm));
}

/// `ADDU` is read back from its word.
proof fn read_addu(rd: Register, rs: Register, rt: Register)
    ensures
        Instruction::of_word(Instruction::ADDU(rd, rs, rt).word()) == Some(Instruction::ADDU(rd, rs, rt)),
{
    lemma_register(rd);
    lemma_register(rs);
    lemma_register(rt);
    lemma_parts(0, rs.number(), rt.number(), (rd.number() * 2048 + 33) as u32, rd.number(), 0, 33);
}

/// `AND` is read back from its word.
proof fn read_and(rd: Register, rs: Register, rt: Register)
    ensures
        Instruction::of_word(Instruction::AND(rd, rs, rt).word()) == Some(Instruction::AND(rd, rs, rt)),
{
    lemma_register(rd);
    lemma_register(rs);
    lemma_register(rt);
    lemma_parts(0, rs.number(), rt.number(), (rd.number() * 2048 + 36) as u32, rd.number(), 0, 36);
}

/// `ANDI` is read back from its word.
proof fn read_andi(rt: Register, rs: Register, imm: i16)
    ensures
        Instruction::of_word(Instruction::ANDI(rt, rs, imm).word()) == Some(Instruction::ANDI(rt, rs, imm)),
{
    lemma_register(rt);
    lemma_register(rs);
    lemma_low16(imm);
    lemma_fields(12, rs.number(), rt.number(), low16(imm));
}

/// `BCzF` is read back from its word.
proof fn read_bczf(cop: Coprocessor, off: i16)
    requires
        cop == Coprocessor::Cp1 || cop == Coprocessor::Cp2,
    ensures
        Instruction::of_word(Instruction::BCzF(cop, off).word()) == Some(Instruction::BCzF(cop, off)),
{
    lemma_coprocessor(cop);
    lemma_low16(off);
    lemma_fields((16 + cop.number()) as u32, 8, 0, low16(off));
}

/// `BCzFL` is read back from its word.
proof fn read_bczfl(cop: Coprocessor, off: i16)
    requires
        cop == Coprocessor::Cp1 || cop == Coprocessor::Cp2,
    ensures
        Instruction::of_word(Instruction::BCzFL(cop, off).word()) == Some(Instruction::BCzFL(cop, off)),
{
    lemma_coprocessor(cop);
    lemma_low16(off);
    lemma_fields((16 + cop.number()) as u32, 8, 2, low16(off));
}

/// `BCzT` is read back from its word.
proof fn read_bczt(cop: Coprocessor, off: i16)
    requires
        cop == Coprocessor::Cp1 || cop == Coprocessor::Cp2,
    ensures
        Instruction::of_word(Instruction::BCzT(cop, off).word()) == Some(Instruction::BCzT(cop, off)),
{
    lemma_coprocessor(cop);
    lemma_low16(off);
    lemma_fields((16 + cop.number()) as u32, 8, 1, low16(off));
}

/// `BCzTL` is read back from its word.
proof fn read_bcztl(cop: Coprocessor, off: i16)
    requires
        cop == Coprocessor::Cp1 || cop == Coprocessor::Cp2,
    ensures
        Instruction::of_word(Instruction::BCzTL(cop, off).word()) == Some(Instruction::BCzTL(cop, off)),
{
    lemma_coprocessor(cop);
    lemma_low16(off);
    lemma_fields((16 + cop.number()) as u32, 8, 3, low16(off));
}

/// `BEQ` is read back from its word.
proof fn read_beq(rs: Register, rt: Register, offset: i16)
    ensures
        Instruction::of_word(Instruction::BEQ(rs, rt, offset).word()) == Some(Instruction::BEQ(rs, rt, offset)),
{
    lemma_register(rs);
    lemma_register(rt);
    lemma_low16(offset);
    lemma_fields(4, rs.number(), rt.number(), low16(offset));
}

/// `BEQL` is read back from its word.
proof fn read_beql(rs: Register, rt: Register, offset: i16)
    ensures
        Instruction::of_word(Instruction::BEQL(rs, rt, offset).word()) == Some(Instruction::BEQL(rs, rt, offset)),
{
    lemma_register(rs);
    lemma_register(rt);
    lemma_low16(offset);
    lemma_fields(20, rs.number(), rt.number(), low16(offset));
}

/// `BGEZ` is read back from its word.
proof fn read_bgez(rs: Register, offset: i16)
    ensures
        Instruction::of_word(Instruction::BGEZ(rs, offset).word()) == Some(Instruction::BGEZ(rs, offset)),
{
    lemma_register(rs);
    lemma_low16(offset);
    lemma_fields(1, rs.number(), 1, low16(offset));
}

/// `BGEZAL` is read back from its word.
proof fn read_bgezal(rs: Register, offset: i16)
    ensures
        Instruction::of_word(Instruction::BGEZAL(rs, offset).word()) == Some(Instruction::BGEZAL(rs, offset)),
{
    lemma_register(rs);
    lemma_low16(offset);
    lemma_fields(1, rs.number(), 17, low16(offset));
}

/// `BGEZALL` is read back from its word.
proof fn read_bgezall(rs: Register, offset: i16)
    ensures
        Instruction::of_word(Instruction::BGEZALL(rs, offset).word()) == Some(Instruction::BGEZALL(rs, offset)),
{
    lemma_register(rs);
    lemma_low16(offset);
    lemma_fields(1, rs.number(), 19, low16(offset));
}

/// `BGEZL` is read back from its word.
proof fn read_bgezl(rs: Register, offset: i16)
    ensures
        Instruction::of_word(Instruction::BGEZL(rs, offset).word()) == Some(Instruction::BGEZL(rs, offset)),
{
    lemma_register(rs);
    lemma_low16(offset);
    lemma_fields(1, rs.number(), 3, low16(offset));
}

/// `BGTZ` is read back from its word.
proof fn read_bgtz(rs: Register, offset: i16)
    ensures
        Instruction::of_word(Instruction::BGTZ(rs, offset).word()) == Some(Instruction::BGTZ(rs, offset)),
{
    lemma_register(rs);
    lemma_low16(offset);
    lemma_fields(7, rs.number(), 0, low16(offset));
}

/// `BGTZL` is read back from its word.
proof fn read_bgtzl(rs: Register, offset: i16)
    ensures
        Instruction::of_word(Instruction::BGTZL(rs, offset).word()) == Some(Instruction::BGTZL(rs, offset)),
{
    lemma_register(rs);
    lemma_low16(offset);
    lemma_fields(23, rs.number(), 0, low16(offset));
}

/// `BLEZ` is read back from its word.
proof fn read_blez(rs: Register, offset: i16)
    ensures
        Instruction::of_word(Instruction::BLEZ(rs, offset).word()) == Some(Instruction::BLEZ(rs, offset)),
{
    lemma_register(rs);
    lemma_low16(offset);
    lemma_fields(6, rs.number(), 0, low16(offset));
}

/// `BLEZL` is read back from its word.
proof fn read_blezl(rs: Register, offset: i16)
    ensures
        Instruction::of_word(Instruction::BLEZL(rs, offset).word()) == Some(Instruction::BLEZL(rs, offset)),
{
    lemma_register(rs);
    lemma_low16(offset);
    lemma_fields(22, rs.number(), 0, low16(offset));
}

/// `BLTZ` is read back from its word.
proof fn read_bltz(rs: Register, offset: i16)
    ensures
        Instruction::of_word(Instruction::BLTZ(rs, offset).word()) == Some(Instruction::BLTZ(rs, offset)),
{
    lemma_register(rs);
    lemma_low16(offset);
    lemma_fields(1, rs.number(), 0, low16(offset));
}

/// `BLTZAL` is read back from its word.
proof fn read_bltzal(rs: Register, offset: i16)
    ensures
        Instruction::of_word(Instruction::BLTZAL(rs, offset).word()) == Some(Instruction::BLTZAL(rs, offset)),
{
    lemma_register(rs);
    lemma_low16(offset);
    lemma_fields(1, rs.number(), 16, low16(offset));
}

/// `BLTZALL` is read back from its word.
proof fn read_bltzall(rs: Register, offset: i16)
    ensures
        Instruction::of_word(Instruction::BLTZALL(rs, offset).word()) == Some(Instruction::BLTZALL(rs, offset)),
{
    lemma_register(rs);
    lemma_low16(offset);
    lemma_fields(1, rs.number(), 18, low16(offset));
}

/// `BLTZL` is read back from its word.
proof fn read_bltzl(rs: Register, offset: i16)
    ensures
        Instruction::of_word(Instruction::BLTZL(rs, offset).word()) == Some(Instruction::BLTZL(rs, offset)),
{
    lemma_register(rs);
    lemma_low16(offset);
    lemma_fields(1, rs.number(), 2, low16(offset));
}

/// `BNE` is read back from its word.
proof fn read_bne(rs: Register, rt: Register, offset: i16)
    ensures
        Instruction::of_word(Instruction::BNE(rs, rt, offset).word()) == Some(Instruction::BNE(rs, rt, offset)),
{
    lemma_register(rs);
    lemma_register(rt);
    lemma_low16(offset);
    lemma_fields(5, rs.number(), rt.number(), low16(offset));
}

/// `BNEL` is read back from its word.
proof fn read_bnel(rs: Register, rt: Register, offset: i16)
    ensures
        Instruction::of_word(Instruction::BNEL(rs, rt, offset).word()) == Some(Instruction::BNEL(rs, rt, offset)),
{
    lemma_register(rs);
    lemma_register(rt);
    lemma_low16(offset);
    lemma_fields(21, rs.number(), rt.number(), low16(offset));
}

/// `BREAK` is read back from its word.
proof fn read_break(code: u32)
    requires
        code < 0x10_0000,
    ensures
        Instruction::of_word(Instruction::BREAK(code).word()) == Some(Instruction::BREAK(code)),
{
    lemma_call(0, ((code % 0x10_0000) * 64 + 13) as u32, code, 13);
}

/// `CACHE` is read back from its word.
proof fn read_cache(op: u8, offset: i16, base: Register)
    requires
        op < 32,
    ensures
        Instruction::of_word(Instruction::CACHE(op, offset, base).word()) == Some(Instruction::CACHE(op, offset, base)),
{
    lemma_low16(offset);
    lemma_register(base);
    lemma_fields(47, base.number(), op as u32 % 32, low16(offset));
}

/// `CFCz` is read back from its word.
proof fn read_cfcz(cop: Coprocessor, rt: Register, rd: Register)
    requires
        cop == Coprocessor::Cp1 || cop == Coprocessor::Cp2,
    ensures
        Instruction::of_word(Instruction::CFCz(cop, rt, rd).word()) == Some(Instruction::CFCz(cop, rt, rd)),
{
    lemma_coprocessor(cop);
    lemma_register(rt);
    lemma_register(rd);
    lemma_parts((16 + cop.number()) as u32, 2, rt.number(), (rd.number() * 2048) as u32, rd.number(), 0, 0);
}

/// `COPz` is read back from its word.
proof fn read_copz(cop: Coprocessor, cofun: u32)
    requires
        cofun < 0x200_0000,
        cop == Coprocessor::Cp1 || cop == Coprocessor::Cp2,
    ensures
        Instruction::of_word(Instruction::COPz(cop, cofun).word()) == Some(Instruction::COPz(cop, cofun)),
{
    lemma_coprocessor(cop);
    lemma_operation((16 + cop.number()) as u32, (0x200_0000 + cofun % 0x200_0000) as u32, cofun);
}

/// `CTCz` is read back from its word.
proof fn read_ctcz(cop: Coprocessor, rt: Register, rd: Register)
    requires
        cop == Coprocessor::Cp1 || cop == Coprocessor::Cp2,
    ensures
        Instruction::of_word(Instruction::CTCz(cop, rt, rd).word()) == Some(Instruction::CTCz(cop, rt, rd)),
{
    lemma_coprocessor(cop);
    lemma_register(rt);
    lemma_register(rd);
    lemma_parts((16 + cop.number()) as u32, 6, rt.number(), (rd.number() * 2048) as u32, rd.number(), 0, 0);
}

/// `DADD` is read back from its word.
proof fn read_dadd(rd: Register, rs: Register, rt: Register)
    ensures
        Instruction::of_word(Instruction::DADD(rd, rs, rt).word()) == Some(Instruction::DADD(rd, rs, rt)),
{
    lemma_register(rd);
    lemma_register(rs);
    lemma_register(rt);
    lemma_parts(0, rs.number(), rt.number(), (rd.number() * 2048 + 44) as u32, rd.number(), 0, 44);
}

/// `DADDI` is read back from its word.
proof fn read_daddi(rt: Register, rs: Register, imm: i16)
    ensures
        Instruction::of_word(Instruction::DADDI(rt, rs, imm).word()) == Some(Instruction::DADDI(rt, rs, imm)),
{
    lemma_register(rt);
    lemma_register(rs);
    lemma_low16(imm);
    lemma_fields(24, rs.number(), rt.number(), low16(imm));
}

/// `DADDIU` is read back from its word.
proof fn read_daddiu(rt: Register, rs: Register, imm: i16)
    ensures
        Instruction::of_word(Instruction::DADDIU(rt, rs, imm).word()) == Some(Instruction::DADDIU(rt, rs, imm)),
{
    lemma_register(rt);
    lemma_register(rs);
    lemma_low16(imm);
    lemma_fields(25, rs.number(), rt.number(), low16(imm));
}

/// `DADDU` is read back from its word.
proof fn read_daddu(rd: Register, rs: Register, rt: Register)
    ensures
        Instruction::of_word(Instruction::DADDU(rd, rs, rt).word()) == Some(Instruction::DADDU(rd, rs, rt)),
{
    lemma_register(rd);
    lemma_register(rs);
    lemma_register(rt);
    lemma_parts(0, rs.number(), rt.number(), (rd.number() * 2048 + 45) as u32, rd.number(), 0, 45);
}

/// `DDIV` is read back from its word.
proof fn read_ddiv(rs: Register, rt: Register)
    ensures
        Instruction::of_word(Instruction::DDIV(rs, rt).word()) == Some(Instruction::DDIV(rs, rt)),
{
    lemma_register(rs);
    lemma_register(rt);
    lemma_parts(0, rs.number(), rt.number(), 30, 0, 0, 30);
}

/// `DDIVU` is read back from its word.
proof fn read_ddivu(rs: Register, rt: Register)
    ensures
        Instruction::of_word(Instruction::DDIVU(rs, rt).word()) == Some(Instruction::DDIVU(rs, rt)),
{
    lemma_register(rs);
    lemma_register(rt);
    lemma_parts(0, rs.number(), rt.number(), 31, 0, 0, 31);
}

/// `DIV` is read back from its word.
proof fn read_div(rs: Register, rt: Register)
    ensures
        Instruction::of_word(Instruction::DIV(rs, rt).word()) == Some(Instruction::DIV(rs, rt)),
{
    lemma_register(rs);
    lemma_register(rt);
    lemma_parts(0, rs.number(), rt.number(), 26, 0, 0, 26);
}

/// `DIVU` is read back from its word.
proof fn read_divu(rs: Register, rt: Register)
    ensures
        Instruction::of_word(Instruction::DIVU(rs, rt).word()) == Some(Instruction::DIVU(rs, rt)),
{
    lemma_register(rs);
    lemma_register(rt);
    lemma_parts(0, rs.number(), rt.number(), 27, 0, 0, 27);
}

/// `DMFC0` is read back from its word.
proof fn read_dmfc0(rt: Register, rd: Register)
    ensures
        Instruction::of_word(Instruction::DMFC0(rt, rd).word()) == Some(Instruction::DMFC0(rt, rd)),
{
    lemma_register(rt);
    lemma_register(rd);
    lemma_parts(16, 1, rt.number(), (rd.number() * 2048) as u32, rd.number(), 0, 0);
}

/// `DMTC0` is read back from its word.
proof fn read_dmtc0(rt: Register, rd: Register)
    ensures
        Instruction::of_word(Instruction::DMTC0(rt, rd).word()) == Some(Instruction::DMTC0(rt, rd)),
{
    lemma_register(rt);
    lemma_register(rd);
    lemma_parts(16, 5, rt.number(), (rd.number() * 2048) as u32, rd.number(), 0, 0);
}

/// `DMULT` is read back from its word.
proof fn read_dmult(rs: Register, rt: Register)
    ensures
        Instruction::of_word(Instruction::DMULT(rs, rt).word()) == Some(Instruction::DMULT(rs, rt)),
{
    lemma_register(rs);
    lemma_register(rt);
    lemma_parts(0, rs.number(), rt.number(), 28, 0, 0, 28);
}

/// `DMULTU` is read back from its word.
proof fn read_dmultu(rs: Register, rt: Register)
    ensures
        Instruction::of_word(Instruction::DMULTU(rs, rt).word()) == Some(Instruction::DMULTU(rs, rt)),
{
    lemma_register(rs);
    lemma_register(rt);
    lemma_parts(0, rs.number(), rt.number(), 29, 0, 0, 29);
}

/// `DSLL` is read back from its word.
proof fn read_dsll(rd: Register, rt: Register, sa: u8)
    requires
        sa < 32,
    ensures
        Instruction::of_word(Instruction::DSLL(rd, rt, sa).word()) == Some(Instruction::DSLL(rd, rt, sa)),
{
    lemma_register(rd);
    lemma_register(rt);
    lemma_merged(rd.number(), sa, 56);
    lemma_parts(0, 0, rt.number(), merged(rd.number(), sa, 56), rd.number(), sa, 56);
}

/// `DSLLV` is read back from its word.
proof fn read_dsllv(rd: Register, rt: Register, rs: Register)
    ensures
        Instruction::of_word(Instruction::DSLLV(rd, rt, rs).word()) == Some(Instruction::DSLLV(rd, rt, rs)),
{
    lemma_register(rd);
    lemma_register(rt);
    lemma_register(rs);
    lemma_parts(0, rs.number(), rt.number(), (rd.number() * 2048 + 20) as u32, rd.number(), 0, 20);
}

/// `DSLL32` is read back from its word.
proof fn read_dsll32(rd: Register, rt: Register, sa: u8)
    requires
        sa < 32,
    ensures
        Instruction::of_word(Instruction::DSLL32(rd, rt, sa).word()) == Some(Instruction::DSLL32(rd, rt, sa)),
{
    lemma_register(rd);
    lemma_register(rt);
    lemma_merged(rd.number(), sa, 60);
    lemma_parts(0, 0, rt.number(), merged(rd.number(), sa, 60), rd.number(), sa, 60);
}

/// `DSRA` is read back from its word.
proof fn read_dsra(rd: Register, rt: Register, sa: u8)
    requires
        sa < 32,
    ensures
        Instruction::of_word(Instruction::DSRA(rd, rt, sa).word()) == Some(Instruction::DSRA(rd, rt, sa)),
{
    lemma_register(rd);
    lemma_register(rt);
    lemma_merged(rd.number(), sa, 59);
    lemma_parts(0, 0, rt.number(), merged(rd.number(), sa, 59), rd.number(), sa, 59);
}

/// `DSRAV` is read back from its word.
proof fn read_dsrav(rd: Register, rt: Register, rs: Register)
    ensures
        Instruction::of_word(Instruction::DSRAV(rd, rt, rs).word()) == Some(Instruction::DSRAV(rd, rt, rs)),
{
    lemma_register(rd);
    lemma_register(rt);
    lemma_register(rs);
    lemma_parts(0, rs.number(), rt.number(), (rd.number() * 2048 + 23) as u32, rd.number(), 0, 23);
}

/// `DSRA32` is read back from its word.
proof fn read_dsra32(rd: Register, rt: Register, sa: u8)
    requires
        sa < 32,
    ensures
        Instruction::of_word(Instruction::DSRA32(rd, rt, sa).word()) == Some(Instruction::DSRA32(rd, rt, sa)),
{
    lemma_register(rd);
    lemma_register(rt);
    lemma_merged(rd.number(), sa, 63);
    lemma_parts(0, 0, rt.number(), merged(rd.number(), sa, 63), rd.number(), sa, 63);
}

/// `DSRL` is read back from its word.
proof fn read_dsrl(rd: Register, rt: Register, sa: u8)
    requires
        sa < 32,
    ensures
        Instruction::of_word(Instruction::DSRL(rd, rt, sa).word()) == Some(Instruction::DSRL(rd, rt, sa)),
{
    lemma_register(rd);
    lemma_register(rt);
    lemma_merged(rd.number(), sa, 58);
    lemma_parts(0, 0, rt.number(), merged(rd.number(), sa, 58), rd.number(), sa, 58);
}

/// `DSRLV` is read back from its word.
proof fn read_dsrlv(rd: Register, rt: Register, rs: Register)
    ensures
        Instruction::of_word(Instruction::DSRLV(rd, rt, rs).word()) == Some(Instruction::DSRLV(rd, rt, rs)),
{
    lemma_register(rd);
    lemma_register(rt);
    lemma_register(rs);
    lemma_parts(0, rs.number(), rt.number(), (rd.number() * 2048 + 22) as u32, rd.number(), 0, 22);
}

/// `DSRL32` is read back from its word.
proof fn read_dsrl32(rd: Register, rt: Register, sa: u8)
    requires
        sa < 32,
    ensures
        Instruction::of_word(Instruction::DSRL32(rd, rt, sa).word()) == Some(Instruction::DSRL32(rd, rt, sa)),
{
    lemma_register(rd);
    lemma_register(rt);
    lemma_merged(rd.number(), sa, 62);
    lemma_parts(0, 0, rt.number(), merged(rd.number(), sa, 62), rd.number(), sa, 62);
}

/// `DSUB` is read back from its word.
proof fn read_dsub(rd: Register, rs: Register, rt: Register)
    ensures
        Instruction::of_word(Instruction::DSUB(rd, rs, rt).word()) == Some(Instruction::DSUB(rd, rs, rt)),
{
    lemma_register(rd);
    lemma_register(rs);
    lemma_register(rt);
    lemma_parts(0, rs.number(), rt.number(), (rd.number() * 2048 + 46) as u32, rd.number(), 0, 46);
}

/// `DSUBU` is read back from its word.
proof fn read_dsubu(rd: Register, rs: Register, rt: Register)
    ensures
        Instruction::of_word(Instruction::DSUBU(rd, rs, rt).word()) == Some(Instruction::DSUBU(rd, rs, rt)),
{
    lemma_register(rd);
    lemma_register(rs);
    lemma_register(rt);
    lemma_parts(0, rs.number(), rt.number(), (rd.number() * 2048 + 47) as u32, rd.number(), 0, 47);
}

/// `ERET` is read back from its word.
proof fn read_eret()
    ensures
        Instruction::of_word(Instruction::ERET.word()) == Some(Instruction::ERET),
{
    lemma_parts(16, 16, 0, 24, 0, 0, 24);
}

/// `J` is read back from its word.
proof fn read_j(target: u32)
    requires
        target % 4 == 0 && target < 0x1000_0000,
    ensures
        Instruction::of_word(Instruction::J(target).word()) == Some(Instruction::J(target)),
{
    lemma_jump(2, (target / 4) % 0x400_0000, target);
}

/// `JAL` is read back from its word.
proof fn read_jal(target: u32)
    requires
        target % 4 == 0 && target < 0x1000_0000,
    ensures
        Instruction::of_word(Instruction::JAL(target).word()) == Some(Instruction::JAL(target)),
{
    lemma_jump(3, (target / 4) % 0x400_0000, target);
}

/// `JALR` is read back from its word.
proof fn read_jalr(rd: Register, rs: Register)
    ensures
        Instruction::of_word(Instruction::JALR(rd, rs).word()) == Some(Instruction::JALR(rd, rs)),
{
    lemma_register(rd);
    lemma_register(rs);
    lemma_parts(0, rs.number(), 0, (rd.number() * 2048 + 9) as u32, rd.number(), 0, 9);
}

/// `JR` is read back from its word.
proof fn read_jr(rs: Register)
    ensures
        Instruction::of_word(Instruction::JR(rs).word()) == Some(Instruction::JR(rs)),
{
    lemma_register(rs);
    lemma_parts(0, rs.number(), 0, 8, 0, 0, 8);
}

/// `LB` is read back from its word.
proof fn read_lb(rt: Register, offset: i16, base: Register)
    ensures
        Instruction::of_word(Instruction::LB(rt, offset, base).word()) == Some(Instruction::LB(rt, offset, base)),
{
    lemma_register(rt);
    lemma_low16(offset);
    lemma_register(base);
    lemma_fields(32, base.number(), rt.number(), low16(offset));
}

/// `LBU` is read back from its word.
proof fn read_lbu(rt: Register, offset: i16, base: Register)
    ensures
        Instruction::of_word(Instruction::LBU(rt, offset, base).word()) == Some(Instruction::LBU(rt, offset, base)),
{
    lemma_register(rt);
    lemma_low16(offset);
    lemma_register(base);
    lemma_fields(36, base.number(), rt.number(), low16(offset));
}

/// `LD` is read back from its word.
proof fn read_ld(rt: Register, offset: i16, base: Register)
    ensures
        Instruction::of_word(Instruction::LD(rt, offset, base).word()) == Some(Instruction::LD(rt, offset, base)),
{
    lemma_register(rt);
    lemma_low16(offset);
    lemma_register(base);
    lemma_fields(55, base.number(), rt.number(), low16(offset));
}

/// `LDCz` is read back from its word.
proof fn read_ldcz(cop: Coprocessor, rt: Register, offset: i16, base: Register)
    requires
        cop == Coprocessor::Cp1 || cop == Coprocessor::Cp2,
    ensures
        Instruction::of_word(Instruction::LDCz(cop, rt, offset, base).word()) == Some(Instruction::LDCz(cop, rt, offset, base)),
{
    lemma_coprocessor(cop);
    lemma_register(rt);
    lemma_low16(offset);
    lemma_register(base);
    lemma_fields((52 + cop.number()) as u32, base.number(), rt.number(), low16(offset));
}

/// `LDL` is read back from its word.
proof fn read_ldl(rt: Register, offset: i16, base: Register)
    ensures
        Instruction::of_word(Instruction::LDL(rt, offset, base).word()) == Some(Instruction::LDL(rt, offset, base)),
{
    lemma_register(rt);
    lemma_low16(offset);
    lemma_register(base);
    lemma_fields(26, base.number(), rt.number(), low16(offset));
}

/// `LDR` is read back from its word.
proof fn read_ldr(rt: Register, offset: i16, base: Register)
    ensures
        Instruction::of_word(Instruction::LDR(rt, offset, base).word()) == Some(Instruction::LDR(rt, offset, base)),
{
    lemma_register(rt);
    lemma_low16(offset);
    lemma_register(base);
    lemma_fields(27, base.number(), rt.number(), low16(offset));
}

/// `LH` is read back from its word.
proof fn read_lh(rt: Register, offset: i16, base: Register)
    ensures
        Instruction::of_word(Instruction::LH(rt, offset, base).word()) == Some(Instruction::LH(rt, offset, base)),
{
    lemma_register(rt);
    lemma_low16(offset);
    lemma_register(base);
    lemma_fields(33, base.number(), rt.number(), low16(offset));
}

/// `LHU` is read back from its word.
proof fn read_lhu(rt: Register, offset: i16, base: Register)
    ensures
        Instruction::of_word(Instruction::LHU(rt, offset, base).word()) == Some(Instruction::LHU(rt, offset, base)),
{
    lemma_register(rt);
    lemma_low16(offset);
    lemma_register(base);
    lemma_fields(37, base.number(), rt.number(), low16(offset));
}

/// `LL` is read back from its word.
proof fn read_ll(rt: Register, offset: i16, base: Register)
    ensures
        Instruction::of_word(Instruction::LL(rt, offset, base).word()) == Some(Instruction::LL(rt, offset, base)),
{
    lemma_register(rt);
    lemma_low16(offset);
    lemma_register(base);
    lemma_fields(48, base.number(), rt.number(), low16(offset));
}

/// `LLD` is read back from its word.
proof fn read_lld(rt: Register, offset: i16, base: Register)
    ensures
        Instruction::of_word(Instruction::LLD(rt, offset, base).word()) == Some(Instruction::LLD(rt, offset, base)),
{
    lemma_register(rt);
    lemma_low16(offset);
    lemma_register(base);
    lemma_fields(52, base.number(), rt.number(), low16(offset));
}

/// `LUI` is read back from its word.
proof fn read_lui(rt: Register, imm: i16)
    ensures
        Instruction::of_word(Instruction::LUI(rt, imm).word()) == Some(Instruction::LUI(rt, imm)),
{
    lemma_register(rt);
    lemma_low16(imm);
    lemma_fields(15, 0, rt.number(), low16(imm));
}

/// `LW` is read back from its word.
proof fn read_lw(rt: Register, offset: i16, base: Register)
    ensures
        Instruction::of_word(Instruction::LW(rt, offset, base).word()) == Some(Instruction::LW(rt, offset, base)),
{
    lemma_register(rt);
    lemma_low16(offset);
    lemma_register(base);
    lemma_fields(35, base.number(), rt.number(), low16(offset));
}

/// `LWCz` is read back from its word.
proof fn read_lwcz(cop: Coprocessor, rt: Register, offset: i16, base: Register)
    requires
        cop == Coprocessor::Cp1 || cop == Coprocessor::Cp2,
    ensures
        Instruction::of_word(Instruction::LWCz(cop, rt, offset, base).word()) == Some(Instruction::LWCz(cop, rt, offset, base)),
{
    lemma_coprocessor(cop);
    lemma_register(rt);
    lemma_low16(offset);
    lemma_register(base);
    lemma_fields((48 + cop.number()) as u32, base.number(), rt.number(), low16(offset));
}

/// `LWL` is read back from its word.
proof fn read_lwl(rt: Register, offset: i16, base: Register)
    ensures
        Instruction::of_word(Instruction::LWL(rt, offset, base).word()) == Some(Instruction::LWL(rt, offset, base)),
{
    lemma_register(rt);
    lemma_low16(offset);
    lemma_register(base);
    lemma_fields(34, base.number(), rt.number(), low16(offset));
}

/// `LWR` is read back from its word.
proof fn read_lwr(rt: Register, offset: i16, base: Register)
    ensures
        Instruction::of_word(Instruction::LWR(rt, offset, base).word()) == Some(Instruction::LWR(rt, offset, base)),
{
    lemma_register(rt);
    lemma_low16(offset);
    lemma_register(base);
    lemma_fields(38, base.number(), rt.number(), low16(offset));
}

/// `LWU` is read back from its word.
proof fn read_lwu(rt: Register, offset: i16, base: Register)
    ensures
        Instruction::of_word(Instruction::LWU(rt, offset, base).word()) == Some(Instruction::LWU(rt, offset, base)),
{
    lemma_register(rt);
    lemma_low16(offset);
    lemma_register(base);
    lemma_fields(39, base.number(), rt.number(), low16(offset));
}

/// `MFC0` is read back from its word.
proof fn read_mfc0(rt: Register, rd: Register)
    ensures
        Instruction::of_word(Instruction::MFC0(rt, rd).word()) == Some(Instruction::MFC0(rt, rd)),
{
    lemma_register(rt);
    lemma_register(rd);
    lemma_parts(16, 0, rt.number(), (rd.number() * 2048) as u32, rd.number(), 0, 0);
}

/// `MFCz` is read back from its word.
proof fn read_mfcz(cop: Coprocessor, rt: Register, rd: Register)
    requires
        cop == Coprocessor::Cp1 || cop == Coprocessor::Cp2,
    ensures
        Instruction::of_word(Instruction::MFCz(cop, rt, rd).word()) == Some(Instruction::MFCz(cop, rt, rd)),
{
    lemma_coprocessor(cop);
    lemma_register(rt);
    lemma_register(rd);
    lemma_parts((16 + cop.number()) as u32, 0, rt.number(), (rd.number() * 2048) as u32, rd.number(), 0, 0);
}

/// `MFHI` is read back from its word.
proof fn read_mfhi(rd: Register)
    ensures
        Instruction::of_word(Instruction::MFHI(rd).word()) == Some(Instruction::MFHI(rd)),
{
    lemma_register(rd);
    lemma_parts(0, 0, 0, (rd.number() * 2048 + 16) as u32, rd.number(), 0, 16);
}

/// `MFLO` is read back from its word.
proof fn read_mflo(rd: Register)
    ensures
        Instruction::of_word(Instruction::MFLO(rd).word()) == Some(Instruction::MFLO(rd)),
{
    lemma_register(rd);
    lemma_parts(0, 0, 0, (rd.number() * 2048 + 18) as u32, rd.number(), 0, 18);
}

/// `MTC0` is read back from its word.
proof fn read_mtc0(rt: Register, rd: Register)
    ensures
        Instruction::of_word(Instruction::MTC0(rt, rd).word()) == Some(Instruction::MTC0(rt, rd)),
{
    lemma_register(rt);
    lemma_register(rd);
    lemma_parts(16, 4, rt.number(), (rd.number() * 2048) as u32, rd.number(), 0, 0);
}

/// `MTCz` is read back from its word.
proof fn read_mtcz(cop: Coprocessor, rt: Register, rd: Register)
    requires
        cop == Coprocessor::Cp1 || cop == Coprocessor::Cp2,
    ensures
        Instruction::of_word(Instruction::MTCz(cop, rt, rd).word()) == Some(Instruction::MTCz(cop, rt, rd)),
{
    lemma_coprocessor(cop);
    lemma_register(rt);
    lemma_register(rd);
    lemma_parts((16 + cop.number()) as u32, 4, rt.number(), (rd.number() * 2048) as u32, rd.number(), 0, 0);
}

/// `MTHI` is read back from its word.
proof fn read_mthi(rs: Register)
    ensures
        Instruction::of_word(Instruction::MTHI(rs).word()) == Some(Instruction::MTHI(rs)),
{
    lemma_register(rs);
    lemma_parts(0, rs.number(), 0, 17, 0, 0, 17);
}

/// `MTLO` is read back from its word.
proof fn read_mtlo(rs: Register)
    ensures
        Instruction::of_word(Instruction::MTLO(rs).word()) == Some(Instruction::MTLO(rs)),
{
    lemma_register(rs);
    lemma_parts(0, rs.number(), 0, 19, 0, 0, 19);
}

/// `MULT` is read back from its word.
proof fn read_mult(rs: Register, rt: Register)
    ensures
        Instruction::of_word(Instruction::MULT(rs, rt).word()) == Some(Instruction::MULT(rs, rt)),
{
    lemma_register(rs);
    lemma_register(rt);
    lemma_parts(0, rs.number(), rt.number(), 24, 0, 0, 24);
}

/// `MULTU` is read back from its word.
proof fn read_multu(rs: Register, rt: Register)
    ensures
        Instruction::of_word(Instruction::MULTU(rs, rt).word()) == Some(Instruction::MULTU(rs, rt)),
{
    lemma_register(rs);
    lemma_register(rt);
    lemma_parts(0, rs.number(), rt.number(), 25, 0, 0, 25);
}

/// `NOR` is read back from its word.
proof fn read_nor(rd: Register, rs: Register, rt: Register)
    ensures
        Instruction::of_word(Instruction::NOR(rd, rs, rt).word()) == Some(Instruction::NOR(rd, rs, rt)),
{
    lemma_register(rd);
    lemma_register(rs);
    lemma_register(rt);
    lemma_parts(0, rs.number(), rt.number(), (rd.number() * 2048 + 39) as u32, rd.number(), 0, 39);
}

/// `OR` is read back from its word.
proof fn read_or(rd: Register, rs: Register, rt: Register)
    ensures
        Instruction::of_word(Instruction::OR(rd, rs, rt).word()) == Some(Instruction::OR(rd, rs, rt)),
{
    lemma_register(rd);
    lemma_register(rs);
    lemma_register(rt);
    lemma_parts(0, rs.number(), rt.number(), (rd.number() * 2048 + 37) as u32, rd.number(), 0, 37);
}

/// `ORI` is read back from its word.
proof fn read_ori(rt: Register, rs: Register, imm: i16)
    ensures
        Instruction::of_word(Instruction::ORI(rt, rs, imm).word()) == Some(Instruction::ORI(rt, rs, imm)),
{
    lemma_register(rt);
    lemma_register(rs);
    lemma_low16(imm);
    lemma_fields(13, rs.number(), rt.number(), low16(imm));
}

/// `SB` is read back from its word.
proof fn read_sb(rt: Register, offset: i16, base: Register)
    ensures
        Instruction::of_word(Instruction::SB(rt, offset, base).word()) == Some(Instruction::SB(rt, offset, base)),
{
    lemma_register(rt);
    lemma_low16(offset);
    lemma_register(base);
    lemma_fields(40, base.number(), rt.number(), low16(offset));
}

/// `SC` is read back from its word.
proof fn read_sc(rt: Register, offset: i16, base: Register)
    ensures
        Instruction::of_word(Instruction::SC(rt, offset, base).word()) == Some(Instruction::SC(rt, offset, base)),
{
    lemma_register(rt);
    lemma_low16(offset);
    lemma_register(base);
    lemma_fields(56, base.number(), rt.number(), low16(offset));
}

/// `SCD` is read back from its word.
proof fn read_scd(rt: Register, offset: i16, base: Register)
    ensures
        Instruction::of_word(Instruction::SCD(rt, offset, base).word()) == Some(Instruction::SCD(rt, offset, base)),
{
    lemma_register(rt);
    lemma_low16(offset);
    lemma_register(base);
    lemma_fields(60, base.number(), rt.number(), low16(offset));
}

/// `SD` is read back from its word.
proof fn read_sd(rt: Register, offset: i16, base: Register)
    ensures
        Instruction::of_word(Instruction::SD(rt, offset, base).word()) == Some(Instruction::SD(rt, offset, base)),
{
    lemma_register(rt);
    lemma_low16(offset);
    lemma_register(base);
    lemma_fields(63, base.number(), rt.number(), low16(offset));
}

/// `SDCz` is read back from its word.
proof fn read_sdcz(cop: Coprocessor, rt: Register, offset: i16, base: Register)
    requires
        cop == Coprocessor::Cp1 || cop == Coprocessor::Cp2,
    ensures
        Instruction::of_word(Instruction::SDCz(cop, rt, offset, base).word()) == Some(Instruction::SDCz(cop, rt, offset, base)),
{
    lemma_coprocessor(cop);
    lemma_register(rt);
    lemma_low16(offset);
    lemma_register(base);
    lemma_fields((60 + cop.number()) as u32, base.number(), rt.number(), low16(offset));
}

/// `SDL` is read back from its word.
proof fn read_sdl(rt: Register, offset: i16, base: Register)
    ensures
        Instruction::of_word(Instruction::SDL(rt, offset, base).word()) == Some(Instruction::SDL(rt, offset, base)),
{
    lemma_register(rt);
    lemma_low16(offset);
    lemma_register(base);
    lemma_fields(44, base.number(), rt.number(), low16(offset));
}

/// `SDR` is read back from its word.
proof fn read_sdr(rt: Register, offset: i16, base: Register)
    ensures
        Instruction::of_word(Instruction::SDR(rt, offset, base).word()) == Some(Instruction::SDR(rt, offset, base)),
{
    lemma_register(rt);
    lemma_low16(offset);
    lemma_register(base);
    lemma_fields(45, base.number(), rt.number(), low16(offset));
}

/// `SH` is read back from its word.
proof fn read_sh(rt: Register, offset: i16, base: Register)
    ensures
        Instruction::of_word(Instruction::SH(rt, offset, base).word()) == Some(Instruction::SH(rt, offset, base)),
{
    lemma_register(rt);
    lemma_low16(offset);
    lemma_register(base);
    lemma_fields(41, base.number(), rt.number(), low16(offset));
}

/// `SLL` is read back from its word.
proof fn read_sll(rd: Register, rt: Register, sa: u8)
    requires
        sa < 32,
    ensures
        Instruction::of_word(Instruction::SLL(rd, rt, sa).word()) == Some(Instruction::SLL(rd, rt, sa)),
{
    lemma_register(rd);
    lemma_register(rt);
    lemma_merged(rd.number(), sa, 0);
    lemma_parts(0, 0, rt.number(), merged(rd.number(), sa, 0), rd.number(), sa, 0);
}

/// `SLLV` is read back from its word.
proof fn read_sllv(rd: Register, rt: Register, rs: Register)
    ensures
        Instruction::of_word(Instruction::SLLV(rd, rt, rs).word()) == Some(Instruction::SLLV(rd, rt, rs)),
{
    lemma_register(rd);
    lemma_register(rt);
    lemma_register(rs);
    lemma_parts(0, rs.number(), rt.number(), (rd.number() * 2048 + 4) as u32, rd.number(), 0, 4);
}

/// `SLT` is read back from its word.
proof fn read_slt(rd: Register, rs: Register, rt: Register)
    ensures
        Instruction::of_word(Instruction::SLT(rd, rs, rt).word()) == Some(Instruction::SLT(rd, rs, rt)),
{
    lemma_register(rd);
    lemma_register(rs);
    lemma_register(rt);
    lemma_parts(0, rs.number(), rt.number(), (rd.number() * 2048 + 42) as u32, rd.number(), 0, 42);
}

/// `SLTI` is read back from its word.
proof fn read_slti(rt: Register, rs: Register, imm: i16)
    ensures
        Instruction::of_word(Instruction::SLTI(rt, rs, imm).word()) == Some(Instruction::SLTI(rt, rs, imm)),
{
    lemma_register(rt);
    lemma_register(rs);
    lemma_low16(imm);
    lemma_fields(10, rs.number(), rt.number(), low16(imm));
}

/// `SLTIU` is read back from its word.
proof fn read_sltiu(rt: Register, rs: Register, imm: i16)
    ensures
        Instruction::of_word(Instruction::SLTIU(rt, rs, imm).word()) == Some(Instruction::SLTIU(rt, rs, imm)),
{
    lemma_register(rt);
    lemma_register(rs);
    lemma_low16(imm);
    lemma_fields(11, rs.number(), rt.number(), low16(imm));
}

/// `SLTU` is read back from its word.
proof fn read_sltu(rd: Register, rs: Register, rt: Register)
    ensures
        Instruction::of_word(Instruction::SLTU(rd, rs, rt).word()) == Some(Instruction::SLTU(rd, rs, rt)),
{
    lemma_register(rd);
    lemma_register(rs);
    lemma_register(rt);
    lemma_parts(0, rs.number(), rt.number(), (rd.number() * 2048 + 43) as u32, rd.number(), 0, 43);
}

/// `SRA` is read back from its word.
proof fn read_sra(rd: Register, rt: Register, sa: u8)
    requires
        sa < 32,
    ensures
        Instruction::of_word(Instruction::SRA(rd, rt, sa).word()) == Some(Instruction::SRA(rd, rt, sa)),
{
    lemma_register(rd);
    lemma_register(rt);
    lemma_merged(rd.number(), sa, 3);
    lemma_parts(0, 0, rt.number(), merged(rd.number(), sa, 3), rd.number(), sa, 3);
}

/// `SRAV` is read back from its word.
proof fn read_srav(rd: Register, rt: Register, rs: Register)
    ensures
        Instruction::of_word(Instruction::SRAV(rd, rt, rs).word()) == Some(Instruction::SRAV(rd, rt, rs)),
{
    lemma_register(rd);
    lemma_register(rt);
    lemma_register(rs);
    lemma_parts(0, rs.number(), rt.number(), (rd.number() * 2048 + 7) as u32, rd.number(), 0, 7);
}

/// `SRL` is read back from its word.
proof fn read_srl(rd: Register, rt: Register, sa: u8)
    requires
        sa < 32,
    ensures
        Instruction::of_word(Instruction::SRL(rd, rt, sa).word()) == Some(Instruction::SRL(rd, rt, sa)),
{
    lemma_register(rd);
    lemma_register(rt);
    lemma_merged(rd.number(), sa, 2);
    lemma_parts(0, 0, rt.number(), merged(rd.number(), sa, 2), rd.number(), sa, 2);
}

/// `SRLV` is read back from its word.
proof fn read_srlv(rd: Register, rt: Register, rs: Register)
    ensures
        Instruction::of_word(Instruction::SRLV(rd, rt, rs).word()) == Some(Instruction::SRLV(rd, rt, rs)),
{
    lemma_register(rd);
    lemma_register(rt);
    lemma_register(rs);
    lemma_parts(0, rs.number(), rt.number(), (rd.number() * 2048 + 6) as u32, rd.number(), 0, 6);
}

/// `SUB` is read back from its word.
proof fn read_sub(rd: Register, rs: Register, rt: Register)
    ensures
        Instruction::of_word(Instruction::SUB(rd, rs, rt).word()) == Some(Instruction::SUB(rd, rs, rt)),
{
    lemma_register(rd);
    lemma_register(rs);
    lemma_register(rt);
    lemma_parts(0, rs.number(), rt.number(), (rd.number() * 2048 + 34) as u32, rd.number(), 0, 34);
}

/// `SUBU` is read back from its word.
proof fn read_subu(rd: Register, rs: Register, rt: Register)
    ensures
        Instruction::of_word(Instruction::SUBU(rd, rs, rt).word()) == Some(Instruction::SUBU(rd, rs, rt)),
{
    lemma_register(rd);
    lemma_register(rs);
    lemma_register(rt);
    lemma_parts(0, rs.number(), rt.number(), (rd.number() * 2048 + 35) as u32, rd.number(), 0, 35);
}

/// `SW` is read back from its word.
proof fn read_sw(rt: Register, offset: i16, base: Register)
    ensures
        Instruction::of_word(Instruction::SW(rt, offset, base).word()) == Some(Instruction::SW(rt, offset, base)),
{
    lemma_register(rt);
    lemma_low16(offset);
    lemma_register(base);
    lemma_fields(43, base.number(), rt.number(), low16(offset));
}

/// `SWCz` is read back from its word.
proof fn read_swcz(cop: Coprocessor, rt: Register, offset: i16, base: Register)
    requires
        cop == Coprocessor::Cp1 || cop == Coprocessor::Cp2,
    ensures
        Instruction::of_word(Instruction::SWCz(cop, rt, offset, base).word()) == Some(Instruction::SWCz(cop, rt, offset, base)),
{
    lemma_coprocessor(cop);
    lemma_register(rt);
    lemma_low16(offset);
    lemma_register(base);
    lemma_fields((56 + cop.number()) as u32, base.number(), rt.number(), low16(offset));
}

/// `SWL` is read back from its word.
proof fn read_swl(rt: Register, offset: i16, base: Register)
    ensures
        Instruction::of_word(Instruction::SWL(rt, offset, base).word()) == Some(Instruction::SWL(rt, offset, base)),
{
    lemma_register(rt);
    lemma_low16(offset);
    lemma_register(base);
    lemma_fields(42, base.number(), rt.number(), low16(offset));
}

/// `SWR` is read back from its word.
proof fn read_swr(rt: Register, offset: i16, base: Register)
    ensures
        Instruction::of_word(Instruction::SWR(rt, offset, base).word()) == Some(Instruction::SWR(rt, offset, base)),
{
    lemma_register(rt);
    lemma_low16(offset);
    lemma_register(base);
    lemma_fields(46, base.number(), rt.number(), low16(offset));
}

/// `SYNC` is read back from its word.
proof fn read_sync()
    ensures
        Instruction::of_word(Instruction::SYNC.word()) == Some(Instruction::SYNC),
{
    lemma_parts(0, 0, 0, 15, 0, 0, 15);
}

/// `SYSCALL` is read back from its word.
proof fn read_syscall(code: u32)
    requires
        code < 0x10_0000,
    ensures
        Instruction::of_word(Instruction::SYSCALL(code).word()) == Some(Instruction::SYSCALL(code)),
{
    lemma_call(0, ((code % 0x10_0000) * 64 + 12) as u32, code, 12);
}

/// `TEQ` is read back from its word.
proof fn read_teq(rs: Register, rt: Register, code: u16)
    requires
        code < 0x400,
    ensures
        Instruction::of_word(Instruction::TEQ(rs, rt, code).word()) == Some(Instruction::TEQ(rs, rt, code)),
{
    lemma_register(rs);
    lemma_register(rt);
    lemma_trap(0, rs.number(), rt.number(), ((code as u32 % 0x400) * 64 + 52) as u32, code, 52);
}

/// `TEQI` is read back from its word.
proof fn read_teqi(rs: Register, imm: i16)
    ensures
        Instruction::of_word(Instruction::TEQI(rs, imm).word()) == Some(Instruction::TEQI(rs, imm)),
{
    lemma_register(rs);
    lemma_low16(imm);
    lemma_fields(1, rs.number(), 12, low16(imm));
}

/// `TGE` is read back from its word.
proof fn read_tge(rs: Register, rt: Register, code: u16)
    requires
        code < 0x400,
    ensures
        Instruction::of_word(Instruction::TGE(rs, rt, code).word()) == Some(Instruction::TGE(rs, rt, code)),
{
    lemma_register(rs);
    lemma_register(rt);
    lemma_trap(0, rs.number(), rt.number(), ((code as u32 % 0x400) * 64 + 48) as u32, code, 48);
}

/// `TGEI` is read back from its word.
proof fn read_tgei(rs: Register, imm: i16)
    ensures
        Instruction::of_word(Instruction::TGEI(rs, imm).word()) == Some(Instruction::TGEI(rs, imm)),
{
    lemma_register(rs);
    lemma_low16(imm);
    lemma_fields(1, rs.number(), 8, low16(imm));
}

/// `TGEIU` is read back from its word.
proof fn read_tgeiu(rs: Register, imm: i16)
    ensures
        Instruction::of_word(Instruction::TGEIU(rs, imm).word()) == Some(Instruction::TGEIU(rs, imm)),
{
    lemma_register(rs);
    lemma_low16(imm);
    lemma_fields(1, rs.number(), 9, low16(imm));
}

/// `TGEU` is read back from its word.
proof fn read_tgeu(rs: Register, rt: Register, code: u16)
    requires
        code < 0x400,
    ensures
        Instruction::of_word(Instruction::TGEU(rs, rt, code).word()) == Some(Instruction::TGEU(rs, rt, code)),
{
    lemma_register(rs);
    lemma_register(rt);
    lemma_trap(0, rs.number(), rt.number(), ((code as u32 % 0x400) * 64 + 49) as u32, code, 49);
}

/// `TLBP` is read back from its word.
proof fn read_tlbp()
    ensures
        Instruction::of_word(Instruction::TLBP.word()) == Some(Instruction::TLBP),
{
    lemma_parts(16, 16, 0, 8, 0, 0, 8);
}

/// `TLBR` is read back from its word.
proof fn read_tlbr()
    ensures
        Instruction::of_word(Instruction::TLBR.word()) == Some(Instruction::TLBR),
{
    lemma_parts(16, 16, 0, 1, 0, 0, 1);
}

/// `TLBWI` is read back from its word.
proof fn read_tlbwi()
    ensures
        Instruction::of_word(Instruction::TLBWI.word()) == Some(Instruction::TLBWI),
{
    lemma_parts(16, 16, 0, 2, 0, 0, 2);
}

/// `TLBWR` is read back from its word.
proof fn read_tlbwr()
    ensures
        Instruction::of_word(Instruction::TLBWR.word()) == Some(Instruction::TLBWR),
{
    lemma_parts(16, 16, 0, 6, 0, 0, 6);
}

/// `TLT` is read back from its word.
proof fn read_tlt(rs: Register, rt: Register, code: u16)
    requires
        code < 0x400,
    ensures
        Instruction::of_word(Instruction::TLT(rs, rt, code).word()) == Some(Instruction::TLT(rs, rt, code)),
{
    lemma_register(rs);
    lemma_register(rt);
    lemma_trap(0, rs.number(), rt.number(), ((code as u32 % 0x400) * 64 + 50) as u32, code, 50);
}

/// `TLTI` is read back from its word.
proof fn read_tlti(rs: Register, imm: i16)
    ensures
        Instruction::of_word(Instruction::TLTI(rs, imm).word()) == Some(Instruction::TLTI(rs, imm)),
{
    lemma_register(rs);
    lemma_low16(imm);
    lemma_fields(1, rs.number(), 10, low16(imm));
}

/// `TLTIU` is read back from its word.
proof fn read_tltiu(rs: Register, imm: i16)
    ensures
        Instruction::of_word(Instruction::TLTIU(rs, imm).word()) == Some(Instruction::TLTIU(rs, imm)),
{
    lemma_register(rs);
    lemma_low16(imm);
    lemma_fields(1, rs.number(), 11, low16(imm));
}

/// `TLTU` is read back from its word.
proof fn read_tltu(rs: Register, rt: Register, code: u16)
    requires
        code < 0x400,
    ensures
        Instruction::of_word(Instruction::TLTU(rs, rt, code).word()) == Some(Instruction::TLTU(rs, rt, code)),
{
    lemma_register(rs);
    lemma_register(rt);
    lemma_trap(0, rs.number(), rt.number(), ((code as u32 % 0x400) * 64 + 51) as u32, code, 51);
}

/// `TNE` is read back from its word.
proof fn read_tne(rs: Register, rt: Register, code: u16)
    requires
        code < 0x400,
    ensures
        Instruction::of_word(Instruction::TNE(rs, rt, code).word()) == Some(Instruction::TNE(rs, rt, code)),
{
    lemma_register(rs);
    lemma_register(rt);
    lemma_trap(0, rs.number(), rt.number(), ((code as u32 % 0x400) * 64 + 54) as u32, code, 54);
}

/// `TNEI` is read back from its word.
proof fn read_tnei(rs: Register, imm: i16)
    ensures
        Instruction::of_word(Instruction::TNEI(rs, imm).word()) == Some(Instruction::TNEI(rs, imm)),
{
    lemma_register(rs);
    lemma_low16(imm);
    lemma_fields(1, rs.number(), 14, low16(imm));
}

/// `XOR` is read back from its word.
proof fn read_xor(rd: Register, rs: Register, rt: Register)
    ensures
        Instruction::of_word(Instruction::XOR(rd, rs, rt).word()) == Some(Instruction::XOR(rd, rs, rt)),
{
    lemma_register(rd);
    lemma_register(rs);
    lemma_register(rt);
    lemma_parts(0, rs.number(), rt.number(), (rd.number() * 2048 + 38) as u32, rd.number(), 0, 38);
}

/// `XORI` is read back from its word.
proof fn read_xori(rt: Register, rs: Register, imm: i16)
    ensures
        Instruction::of_word(Instruction::XORI(rt, rs, imm).word()) == Some(Instruction::XORI(rt, rs, imm)),
{
    lemma_register(rt);
    lemma_register(rs);
    lemma_low16(imm);
    lemma_fields(14, rs.number(), rt.number(), low16(imm));
}

/// The instructions from `ADD` to `BEQ` are read back from their words.
proof fn lemma_read_back_0(i: Instruction)
    requires
        well_formed(i),
        i.layout_0().is_some(),
    ensures
        Instruction::of_word(i.word()) == Some(i),
{
    match i {
        Instruction::ADD(rd, rs, rt) => read_add(rd, rs, rt),
        Instruction::ADDI(rt, rs, imm) => read_addi(rt, rs, imm),
        Instruction::ADDIU(rt, rs, imm) => read_addiu(rt, rs, imm),
        Instruction::ADDU(rd, rs, rt) => read_addu(rd, rs, rt),
        Instruction::AND(rd, rs, rt) => read_and(rd, rs, rt),
        Instruction::ANDI(rt, rs, imm) => read_andi(rt, rs, imm),
        Instruction::BCzF(cop, off) => read_bczf(cop, off),
        Instruction::BCzFL(cop, off) => read_bczfl(cop, off),
        Instruction::BCzT(cop, off) => read_bczt(cop, off),
        Instruction::BCzTL(cop, off) => read_bcztl(cop, off),
        Instruction::BEQ(rs, rt, offset) => read_beq(rs, rt, offset),
        _ => {},
    }
}

/// The instructions from `BEQL` to `BLTZAL` are read back from their words.
proof fn lemma_read_back_1(i: Instruction)
    requires
        well_formed(i),
        i.layout_1().is_some(),
    ensures
        Instruction::of_word(i.word()) == Some(i),
{
    match i {
        Instruction::BEQL(rs, rt, offset) => read_beql(rs, rt, offset),
        Instruction::BGEZ(rs, offset) => read_bgez(rs, offset),
        Instruction::BGEZAL(rs, offset) => read_bgezal(rs, offset),
        Instruction::BGEZALL(rs, offset) => read_bgezall(rs, offset),
        Instruction::BGEZL(rs, offset) => read_bgezl(rs, offset),
        Instruction::BGTZ(rs, offset) => read_bgtz(rs, offset),
        Instruction::BGTZL(rs, offset) => read_bgtzl(rs, offset),
        Instruction::BLEZ(rs, offset) => read_blez(rs, offset),
        Instruction::BLEZL(rs, offset) => read_blezl(rs, offset),
        Instruction::BLTZ(rs, offset) => read_bltz(rs, offset),
        Instruction::BLTZAL(rs, offset) => read_bltzal(rs, offset),
        _ => {},
    }
}

/// The instructions from `BLTZALL` to `DADDI` are read back from their words.
proof fn lemma_read_back_2(i: Instruction)
    requires
        well_formed(i),
        i.layout_2().is_some(),
    ensures
        Instruction::of_word(i.word()) == Some(i),
{
    match i {
        Instruction::BLTZALL(rs, offset) => read_bltzall(rs, offset),
        Instruction::BLTZL(rs, offset) => read_bltzl(rs, offset),
        Instruction::BNE(rs, rt, offset) => read_bne(rs, rt, offset),
        Instruction::BNEL(rs, rt, offset) => read_bnel(rs, rt, offset),
        Instruction::BREAK(code) => read_break(code),
        Instruction::CACHE(op, offset, base) => read_cache(op, offset, base),
        Instruction::CFCz(cop, rt, rd) => read_cfcz(cop, rt, rd),
        Instruction::COPz(cop, cofun) => read_copz(cop, cofun),
        Instruction::CTCz(cop, rt, rd) => read_ctcz(cop, rt, rd),
        Instruction::DADD(rd, rs, rt) => read_dadd(rd, rs, rt),
        Instruction::DADDI(rt, rs, imm) => read_daddi(rt, rs, imm),
        _ => {},
    }
}

/// The instructions from `DADDIU` to `DSLL` are read back from their words.
proof fn lemma_read_back_3(i: Instruction)
    requires
        well_formed(i),
        i.layout_3().is_some(),
    ensures
        Instruction::of_word(i.word()) == Some(i),
{
    match i {
        Instruction::DADDIU(rt, rs, imm) => read_daddiu(rt, rs, imm),
        Instruction::DADDU(rd, rs, rt) => read_daddu(rd, rs, rt),
        Instruction::DDIV(rs, rt) => read_ddiv(rs, rt),
        Instruction::DDIVU(rs, rt) => read_ddivu(rs, rt),
        Instruction::DIV(rs, rt) => read_div(rs, rt),
        Instruction::DIVU(rs, rt) => read_divu(rs, rt),
        Instruction::DMFC0(rt, rd) => read_dmfc0(rt, rd),
        Instruction::DMTC0(rt, rd) => read_dmtc0(rt, rd),
        Instruction::DMULT(rs, rt) => read_dmult(rs, rt),
        Instruction::DMULTU(rs, rt) => read_dmultu(rs, rt),
        Instruction::DSLL(rd, rt, sa) => read_dsll(rd, rt, sa),
        _ => {},
    }
}

/// The instructions from `DSLLV` to `ERET` are read back from their words.
proof fn lemma_read_back_4(i: Instruction)
    requires
        well_formed(i),
        i.layout_4().is_some(),
    ensures
        Instruction::of_word(i.word()) == Some(i),
{
    match i {
        Instruction::DSLLV(rd, rt, rs) => read_dsllv(rd, rt, rs),
        Instruction::DSLL32(rd, rt, sa) => read_dsll32(rd, rt, sa),
        Instruction::DSRA(rd, rt, sa) => read_dsra(rd, rt, sa),
        Instruction::DSRAV(rd, rt, rs) => read_dsrav(rd, rt, rs),
        Instruction::DSRA32(rd, rt, sa) => read_dsra32(rd, rt, sa),
        Instruction::DSRL(rd, rt, sa) => read_dsrl(rd, rt, sa),
        Instruction::DSRLV(rd, rt, rs) => read_dsrlv(rd, rt, rs),
        Instruction::DSRL32(rd, rt, sa) => read_dsrl32(rd, rt, sa),
        Instruction::DSUB(rd, rs, rt) => read_dsub(rd, rs, rt),
        Instruction::DSUBU(rd, rs, rt) => read_dsubu(rd, rs, rt),
        Instruction::ERET => read_eret(),
        _ => {},
    }
}

/// The instructions from `J` to `LH` are read back from their words.
proof fn lemma_read_back_5(i: Instruction)
    requires
        well_formed(i),
        i.layout_5().is_some(),
    ensures
        Instruction::of_word(i.word()) == Some(i),
{
    match i {
        Instruction::J(target) => read_j(target),
        Instruction::JAL(target) => read_jal(target),
        Instruction::JALR(rd, rs) => read_jalr(rd, rs),
        Instruction::JR(rs) => read_jr(rs),
        Instruction::LB(rt, offset, base) => read_lb(rt, offset, base),
        Instruction::LBU(rt, offset, base) => read_lbu(rt, offset, base),
        Instruction::LD(rt, offset, base) => read_ld(rt, offset, base),
        Instruction::LDCz(cop, rt, offset, base) => read_ldcz(cop, rt, offset, base),
        Instruction::LDL(rt, offset, base) => read_ldl(rt, offset, base),
        Instruction::LDR(rt, offset, base) => read_ldr(rt, offset, base),
        Instruction::LH(rt, offset, base) => read_lh(rt, offset, base),
        _ => {},
    }
}

/// The instructions from `LHU` to `MFCz` are read back from their words.
proof fn lemma_read_back_6(i: Instruction)
    requires
        well_formed(i),
        i.layout_6().is_some(),
    ensures
        Instruction::of_word(i.word()) == Some(i),
{
    match i {
        Instruction::LHU(rt, offset, base) => read_lhu(rt, offset, base),
        Instruction::LL(rt, offset, base) => read_ll(rt, offset, base),
        Instruction::LLD(rt, offset, base) => read_lld(rt, offset, base),
        Instruction::LUI(rt, imm) => read_lui(rt, imm),
        Instruction::LW(rt, offset, base) => read_lw(rt, offset, base),
        Instruction::LWCz(cop, rt, offset, base) => read_lwcz(cop, rt, offset, base),
        Instruction::LWL(rt, offset, base) => read_lwl(rt, offset, base),
        Instruction::LWR(rt, offset, base) => read_lwr(rt, offset, base),
        Instruction::LWU(rt, offset, base) => read_lwu(rt, offset, base),
        Instruction::MFC0(rt, rd) => read_mfc0(rt, rd),
        Instruction::MFCz(cop, rt, rd) => read_mfcz(cop, rt, rd),
        _ => {},
    }
}

/// The instructions from `MFHI` to `ORI` are read back from their words.
proof fn lemma_read_back_7(i: Instruction)
    requires
        well_formed(i),
        i.layout_7().is_some(),
    ensures
        Instruction::of_word(i.word()) == Some(i),
{
    match i {
        Instruction::MFHI(rd) => read_mfhi(rd),
        Instruction::MFLO(rd) => read_mflo(rd),
        Instruction::MTC0(rt, rd) => read_mtc0(rt, rd),
        Instruction::MTCz(cop, rt, rd) => read_mtcz(cop, rt, rd),
        Instruction::MTHI(rs) => read_mthi(rs),
        Instruction::MTLO(rs) => read_mtlo(rs),
        Instruction::MULT(rs, rt) => read_mult(rs, rt),
        Instruction::MULTU(rs, rt) => read_multu(rs, rt),
        Instruction::NOR(rd, rs, rt) => read_nor(rd, rs, rt),
        Instruction::OR(rd, rs, rt) => read_or(rd, rs, rt),
        Instruction::ORI(rt, rs, imm) => read_ori(rt, rs, imm),
        _ => {},
    }
}

/// The instructions from `SB` to `SLT` are read back from their words.
proof fn lemma_read_back_8(i: Instruction)
    requires
        well_formed(i),
        i.layout_8().is_some(),
    ensures
        Instruction::of_word(i.word()) == Some(i),
{
    match i {
        Instruction::SB(rt, offset, base) => read_sb(rt, offset, base),
        Instruction::SC(rt, offset, base) => read_sc(rt, offset, base),
        Instruction::SCD(rt, offset, base) => read_scd(rt, offset, base),
        Instruction::SD(rt, offset, base) => read_sd(rt, offset, base),
        Instruction::SDCz(cop, rt, offset, base) => read_sdcz(cop, rt, offset, base),
        Instruction::SDL(rt, offset, base) => read_sdl(rt, offset, base),
        Instruction::SDR(rt, offset, base) => read_sdr(rt, offset, base),
        Instruction::SH(rt, offset, base) => read_sh(rt, offset, base),
        Instruction::SLL(rd, rt, sa) => read_sll(rd, rt, sa),
        Instruction::SLLV(rd, rt, rs) => read_sllv(rd, rt, rs),
        Instruction::SLT(rd, rs, rt) => read_slt(rd, rs, rt),
        _ => {},
    }
}

/// The instructions from `SLTI` to `SWCz` are read back from their words.
proof fn lemma_read_back_9(i: Instruction)
    requires
        well_formed(i),
        i.layout_9().is_some(),
    ensures
        Instruction::of_word(i.word()) == Some(i),
{
    match i {
        Instruction::SLTI(rt, rs, imm) => read_slti(rt, rs, imm),
        Instruction::SLTIU(rt, rs, imm) => read_sltiu(rt, rs, imm),
        Instruction::SLTU(rd, rs, rt) => read_sltu(rd, rs, rt),
        Instruction::SRA(rd, rt, sa) => read_sra(rd, rt, sa),
        Instruction::SRAV(rd, rt, rs) => read_srav(rd, rt, rs),
        Instruction::SRL(rd, rt, sa) => read_srl(rd, rt, sa),
        Instruction::SRLV(rd, rt, rs) => read_srlv(rd, rt, rs),
        Instruction::SUB(rd, rs, rt) => read_sub(rd, rs, rt),
        Instruction::SUBU(rd, rs, rt) => read_subu(rd, rs, rt),
        Instruction::SW(rt, offset, base) => read_sw(rt, offset, base),
        Instruction::SWCz(cop, rt, offset, base) => read_swcz(cop, rt, offset, base),
        _ => {},
    }
}

/// The instructions from `SWL` to `TLBP` are read back from their words.
proof fn lemma_read_back_10(i: Instruction)
    requires
        well_formed(i),
        i.layout_10().is_some(),
    ensures
        Instruction::of_word(i.word()) == Some(i),
{
    match i {
        Instruction::SWL(rt, offset, base) => read_swl(rt, offset, base),
        Instruction::SWR(rt, offset, base) => read_swr(rt, offset, base),
        Instruction::SYNC => read_sync(),
        Instruction::SYSCALL(code) => read_syscall(code),
        Instruction::TEQ(rs, rt, code) => read_teq(rs, rt, code),
        Instruction::TEQI(rs, imm) => read_teqi(rs, imm),
        Instruction::TGE(rs, rt, code) => read_tge(rs, rt, code),
        Instruction::TGEI(rs, imm) => read_tgei(rs, imm),
        Instruction::TGEIU(rs, imm) => read_tgeiu(rs, imm),
        Instruction::TGEU(rs, rt, code) => read_tgeu(rs, rt, code),
        Instruction::TLBP => read_tlbp(),
        _ => {},
    }
}

/// The instructions from `TLBR` to `XORI` are read back from their words.
proof fn lemma_read_back_11(i: Instruction)
    requires
        well_formed(i),
        i.layout_11().is_some(),
    ensures
        Instruction::of_word(i.word()) == Some(i),
{
    match i {
        Instruction::TLBR => read_tlbr(),
        Instruction::TLBWI => read_tlbwi(),
        Instruction::TLBWR => read_tlbwr(),
        Instruction::TLT(rs, rt, code) => read_tlt(rs, rt, code),
        Instruction::TLTI(rs, imm) => read_tlti(rs, imm),
        Instruction::TLTIU(rs, imm) => read_tltiu(rs, imm),
        Instruction::TLTU(rs, rt, code) => read_tltu(rs, rt, code),
        Instruction::TNE(rs, rt, code) => read_tne(rs, rt, code),
        Instruction::TNEI(rs, imm) => read_tnei(rs, imm),
        Instruction::XOR(rd, rs, rt) => read_xor(rd, rs, rt),
        Instruction::XORI(rt, rs, imm) => read_xori(rt, rs, imm),
        _ => {},
    }
}

/// Decoding undoes encoding: an instruction whose operands fit in their
/// bits is the instruction that its word stands for.
pub proof fn lemma_decode_encode(i: Instruction)
    requires
        well_formed(i),
    ensures
        Instruction::of_word(i.word()) == Some(i),
{
    if i.layout_0().is_some() {
        lemma_read_back_0(i);
    } else if i.layout_1().is_some() {
        lemma_read_back_1(i);
    } else if i.layout_2().is_some() {
        lemma_read_back_2(i);
    } else if i.layout_3().is_some() {
        lemma_read_back_3(i);
    } else if i.layout_4().is_some() {
        lemma_read_back_4(i);
    } else if i.layout_5().is_some() {
        lemma_read_back_5(i);
    } else if i.layout_6().is_some() {
        lemma_read_back_6(i);
    } else if i.layout_7().is_some() {
        lemma_read_back_7(i);
    } else if i.layout_8().is_some() {
        lemma_read_back_8(i);
    } else if i.layout_9().is_some() {
        lemma_read_back_9(i);
    } else if i.layout_10().is_some() {
        lemma_read_back_10(i);
    } else if i.layout_11().is_some() {
        lemma_read_back_11(i);
    } else {
    }
}

/// The four bytes of a word make the word again.
pub proof fn lemma_word_bytes(word: u32)
    ensures
        bytes_word(word_bytes(word)) == word,
{
}

/// Decoding undoes encoding, byte for byte: an instruction whose operands
/// fit in their bits is the instruction that its four bytes stand for.
pub proof fn lemma_decode_encode_bytes(i: Instruction)
    requires
        well_formed(i),
    ensures
        Instruction::of_bytes(i.bytes()) == Some(i),
{
    lemma_word_bytes(i.word());
    lemma_decode_encode(i);
}

} // verus!
