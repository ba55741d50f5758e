use ztar_rod::mips::{Coprocessor, Instruction, Register};

fn word(i: Instruction) -> u32 {
    u32::from_be_bytes(i.encode())
}

fn read(w: u32) -> Option<Instruction> {
    Instruction::decode(w.to_be_bytes())
}

#[test]
fn instructions_are_encoded_as_the_processor_reads_them() {
    assert_eq!(word(Instruction::SLL(Register::Zero, Register::Zero, 0)), 0x0000_0000);
    assert_eq!(word(Instruction::ADDIU(Register::Sp, Register::Sp, -24)), 0x27BD_FFE8);
    assert_eq!(word(Instruction::SW(Register::Ra, 20, Register::Sp)), 0xAFBF_0014);
    assert_eq!(word(Instruction::LW(Register::Ra, 20, Register::Sp)), 0x8FBF_0014);
    assert_eq!(word(Instruction::JR(Register::Ra)), 0x03E0_0008);
    assert_eq!(word(Instruction::JAL(0x0024_0000)), 0x0C09_0000);
    assert_eq!(word(Instruction::LUI(Register::A0, -32732)), 0x3C04_8024);
    assert_eq!(word(Instruction::ADDU(Register::V0, Register::A0, Register::A1)), 0x0085_1021);
    assert_eq!(word(Instruction::SLL(Register::T0, Register::T1, 4)), 0x0009_4100);
    assert_eq!(word(Instruction::SYSCALL(1)), 0x0000_004C);
    assert_eq!(word(Instruction::ERET), 0x4200_0018);
    assert_eq!(word(Instruction::MFCz(Coprocessor::Cp1, Register::T0, Register::A0)), 0x4408_2000);
    assert_eq!(word(Instruction::BCzT(Coprocessor::Cp1, 3)), 0x4501_0003);
    assert_eq!(word(Instruction::LWCz(Coprocessor::Cp1, Register::A0, -4, Register::Sp)), 0xC7A4_FFFC);
    assert_eq!(word(Instruction::COPz(Coprocessor::Cp2, 0x12345)), 0x4A01_2345);
    assert_eq!(word(Instruction::TEQ(Register::A0, Register::A1, 7)), 0x0085_01F4);
    assert_eq!(word(Instruction::CACHE(5, 16, Register::A0)), 0xBC85_0010);
    // a shift amount of 32 or more runs into the bits of the register
    assert_eq!(word(Instruction::SLL(Register::Zero, Register::Zero, 32)), 0x0000_0800);
}

#[test]
fn words_are_decoded_back() {
    let samples = [
        Instruction::SLL(Register::Zero, Register::Zero, 0),
        Instruction::ADDIU(Register::Sp, Register::Sp, -24),
        Instruction::SW(Register::Ra, 20, Register::Sp),
        Instruction::JR(Register::Ra),
        Instruction::JALR(Register::Ra, Register::T9),
        Instruction::JAL(0x0024_0000),
        Instruction::J(0x0FFF_FFFC),
        Instruction::BEQ(Register::A0, Register::Zero, -2),
        Instruction::BLTZ(Register::A0, 8),
        Instruction::BGEZAL(Register::A0, 8),
        Instruction::TEQI(Register::A0, -1),
        Instruction::SRA(Register::T0, Register::T1, 31),
        Instruction::DSRL32(Register::T0, Register::T1, 1),
        Instruction::MULT(Register::A0, Register::A1),
        Instruction::MFHI(Register::V0),
        Instruction::SYNC,
        Instruction::BREAK(0xF_FFFF),
        Instruction::TNE(Register::A0, Register::A1, 1023),
        Instruction::MFC0(Register::T0, Register::T4),
        Instruction::DMTC0(Register::T0, Register::T4),
        Instruction::TLBWI,
        Instruction::ERET,
        Instruction::CTCz(Coprocessor::Cp1, Register::T0, Register::Ra),
        Instruction::BCzFL(Coprocessor::Cp2, -1),
        Instruction::COPz(Coprocessor::Cp1, 0x1FF_FFFF),
        Instruction::LDCz(Coprocessor::Cp1, Register::A0, 8, Register::Sp),
        Instruction::SDCz(Coprocessor::Cp2, Register::A0, 8, Register::Sp),
        Instruction::SWCz(Coprocessor::Cp1, Register::A0, 8, Register::Sp),
        Instruction::CACHE(31, -1, Register::Gp),
        Instruction::LL(Register::K0, 0, Register::K1),
        Instruction::SCD(Register::Fp, 4, Register::At),
        Instruction::XORI(Register::V1, Register::S7, 0x7FFF),
    ];
    for i in samples {
        assert_eq!(read(word(i)), Some(i), "{:?}", i);
    }
    for n in 0..32 {
        let r = Register::from_u32(n);
        assert_eq!(r.to_u32(), n);
        assert_eq!(read(word(Instruction::JR(r))), Some(Instruction::JR(r)));
    }
}

#[test]
fn words_that_are_no_instruction() {
    // JR with bits set that it leaves unused
    assert_eq!(read(0x03E0_0808), None);
    // opcode 0 with an unknown function
    assert_eq!(read(0x0000_0001), None);
    // an opcode that is none
    assert_eq!(read(0x7000_0000), None);
    // SYNC with a register
    assert_eq!(read(0x0020_000F), None);
    // LUI with a source register
    assert_eq!(read(0x3C24_0000), None);
    // the third coprocessor has no instructions
    assert_eq!(read(0x4C00_0000), None);
    assert_eq!(read(0x0000_0000), Some(Instruction::SLL(Register::Zero, Register::Zero, 0)));
    assert_eq!(
        read(0xFFFF_FFFF),
        Some(Instruction::SD(Register::Ra, -1, Register::Ra))
    );
}
