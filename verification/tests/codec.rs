use asm16::instr_repr::{write_imm_to_byte_lower, Operand, Reg, Verb};

#[test]
fn halt_encodes_to_all_ones() {
    assert_eq!(Verb::Halt.to_bytes(), [0xFF, 0xFF, 0xFF]);
}

#[test]
fn nop_encodes_to_all_zero() {
    assert_eq!(Verb::Nop.to_bytes(), [0x00, 0x00, 0x00]);
}

#[test]
fn encoding_is_deterministic() {
    let v = Verb::Mov(Operand::Reg(Reg::R1), Operand::Imm(0x1234));
    assert_eq!(v.to_bytes(), v.to_bytes());
    assert_eq!(Verb::Halt.to_bytes(), Verb::Halt.to_bytes());
}

#[test]
fn mov_family_encodings() {
    assert_eq!(
        Verb::Mov(Operand::Reg(Reg::R1), Operand::Imm(0x1234)).to_bytes(),
        [0x11, 0x12, 0x34]
    );
    assert_eq!(
        Verb::Mov(Operand::Reg(Reg::R2), Operand::MemAtImm(0x10)).to_bytes(),
        [0x22, 0x00, 0x10]
    );
    assert_eq!(
        Verb::Mov(Operand::MemAtImm(0x10), Operand::Reg(Reg::R3)).to_bytes(),
        [0x33, 0x00, 0x10]
    );
    assert_eq!(
        Verb::Mov(Operand::Reg(Reg::R4), Operand::Reg(Reg::R5)).to_bytes(),
        [0xF0, 0x00, 0x45]
    );
    assert_eq!(
        Verb::Mov(Operand::Reg(Reg::R6), Operand::MemAtReg(Reg::R7)).to_bytes(),
        [0xF0, 0x01, 0x67]
    );
    assert_eq!(
        Verb::Mov(Operand::MemAtReg(Reg::R8), Operand::Reg(Reg::R9)).to_bytes(),
        [0xF0, 0x02, 0x89]
    );
}

#[test]
fn jump_family_encodings() {
    assert_eq!(Verb::Jmp(Operand::Imm(0x1234)).to_bytes(), [0xE3, 0x12, 0x34]);
    assert_eq!(
        Verb::Jz(Operand::Imm(0x10), Operand::Reg(Reg::R3)).to_bytes(),
        [0x43, 0x00, 0x10]
    );
    assert_eq!(
        Verb::Jnz(Operand::Imm(0x10), Operand::Reg(Reg::R3)).to_bytes(),
        [0x53, 0x00, 0x10]
    );
    assert_eq!(
        Verb::Jpos(Operand::Imm(0x10), Operand::Reg(Reg::R3)).to_bytes(),
        [0x63, 0x00, 0x10]
    );
    assert_eq!(
        Verb::Jposz(Operand::Imm(0x10), Operand::Reg(Reg::R3)).to_bytes(),
        [0x73, 0x00, 0x10]
    );
    assert_eq!(
        Verb::Jneg(Operand::Imm(0x10), Operand::Reg(Reg::R3)).to_bytes(),
        [0x83, 0x00, 0x10]
    );
    assert_eq!(
        Verb::Jnegz(Operand::Imm(0x10), Operand::Reg(Reg::R3)).to_bytes(),
        [0x93, 0x00, 0x10]
    );
}

#[test]
fn set_family_encodings() {
    assert_eq!(
        Verb::Setz(Operand::Reg(Reg::R1), Operand::Reg(Reg::R2)).to_bytes(),
        [0xF0, 0x10, 0x12]
    );
    assert_eq!(
        Verb::Setnz(Operand::Reg(Reg::R1), Operand::Reg(Reg::R2)).to_bytes(),
        [0xF0, 0x11, 0x12]
    );
    assert_eq!(
        Verb::Setpos(Operand::Reg(Reg::R1), Operand::Reg(Reg::R2)).to_bytes(),
        [0xF0, 0x12, 0x12]
    );
    assert_eq!(
        Verb::Setposz(Operand::Reg(Reg::R1), Operand::Reg(Reg::R2)).to_bytes(),
        [0xF0, 0x13, 0x12]
    );
    assert_eq!(
        Verb::Setneg(Operand::Reg(Reg::R1), Operand::Reg(Reg::R2)).to_bytes(),
        [0xF0, 0x14, 0x12]
    );
    assert_eq!(
        Verb::Setnegz(Operand::Reg(Reg::R3), Operand::Reg(Reg::R4)).to_bytes(),
        [0xF0, 0x15, 0x34]
    );
}

#[test]
fn arithmetic_encodings() {
    assert_eq!(
        Verb::Add(Operand::Reg(Reg::R1), Operand::Imm(5)).to_bytes(),
        [0xA1, 0x00, 0x05]
    );
    assert_eq!(
        Verb::Sub(Operand::Reg(Reg::R1), Operand::Imm(5)).to_bytes(),
        [0xB1, 0x00, 0x05]
    );
    assert_eq!(
        Verb::And(Operand::Reg(Reg::R1), Operand::Imm(5)).to_bytes(),
        [0xC1, 0x00, 0x05]
    );
    assert_eq!(
        Verb::Or(Operand::Reg(Reg::R1), Operand::Imm(5)).to_bytes(),
        [0xD1, 0x00, 0x05]
    );
    assert_eq!(
        Verb::Add(Operand::Reg(Reg::R1), Operand::Reg(Reg::R2)).to_bytes(),
        [0xF0, 0x20, 0x12]
    );
    assert_eq!(
        Verb::Sub(Operand::Reg(Reg::R1), Operand::Reg(Reg::R2)).to_bytes(),
        [0xF0, 0x21, 0x12]
    );
    assert_eq!(
        Verb::And(Operand::Reg(Reg::R1), Operand::Reg(Reg::R2)).to_bytes(),
        [0xF0, 0x22, 0x12]
    );
    assert_eq!(
        Verb::Or(Operand::Reg(Reg::R1), Operand::Reg(Reg::R2)).to_bytes(),
        [0xF0, 0x23, 0x12]
    );
    assert_eq!(Verb::Not(Operand::Reg(Reg::R3)).to_bytes(), [0xF0, 0x24, 0x30]);
}

#[test]
fn shift_encodings_pack_a_4_bit_immediate() {
    assert_eq!(
        Verb::Shl(Operand::Reg(Reg::R1), Operand::Reg(Reg::R2)).to_bytes(),
        [0xF0, 0x31, 0x12]
    );
    assert_eq!(
        Verb::Shr(Operand::Reg(Reg::R1), Operand::Reg(Reg::R2)).to_bytes(),
        [0xF0, 0x33, 0x12]
    );
    assert_eq!(
        Verb::Shl(Operand::Reg(Reg::R1), Operand::Imm(5)).to_bytes(),
        [0xF0, 0x30, 0x15]
    );
    assert_eq!(
        Verb::Shr(Operand::Reg(Reg::R1), Operand::Imm(5)).to_bytes(),
        [0xF0, 0x32, 0x15]
    );
    assert_eq!(
        Verb::Shl(Operand::Reg(Reg::R1), Operand::Imm(20)).to_bytes(),
        [0xF0, 0x30, 0x14],
        "only the immediate's low nibble is encoded"
    );
}

#[test]
fn stack_and_diagnostic_encodings() {
    assert_eq!(Verb::Dbg(Operand::Imm(0x1234)).to_bytes(), [0xE0, 0x12, 0x34]);
    assert_eq!(Verb::DbgRegs.to_bytes(), [0xE1, 0x00, 0x00]);
    assert_eq!(Verb::Call(Operand::Imm(0x1234)).to_bytes(), [0xE4, 0x12, 0x34]);
    assert_eq!(Verb::Ret.to_bytes(), [0xE5, 0x00, 0x00]);
    assert_eq!(Verb::Push(Operand::Reg(Reg::R3)).to_bytes(), [0xF0, 0x40, 0x30]);
    assert_eq!(Verb::Pop(Operand::Reg(Reg::R4)).to_bytes(), [0xF0, 0x41, 0x40]);
    assert_eq!(
        Verb::Loadf(Operand::Reg(Reg::R2), Operand::Imm(3)).to_bytes(),
        [0xF0, 0x50, 0x23]
    );
    assert_eq!(
        Verb::Storef(Operand::Reg(Reg::R2), Operand::Imm(3)).to_bytes(),
        [0xF0, 0x51, 0x23]
    );
}

#[test]
fn register_ids_and_nibble_writes() {
    assert_eq!(Reg::R0.to_id(), 0);
    assert_eq!(Reg::R15.to_id(), 15);
    let mut b: u8 = 0xA0;
    Reg::R5.write_into_byte_lower(&mut b);
    assert_eq!(b, 0xA5);
    let mut c: u8 = 0x0B;
    Reg::R7.write_into_byte_upper(&mut c);
    assert_eq!(c, 0x7B);
    let mut d: u8 = 0xA0;
    write_imm_to_byte_lower(0x1B, &mut d);
    assert_eq!(d, 0xAB);
}

#[test]
fn operand_getters() {
    assert_eq!(Operand::Reg(Reg::R9).to_reg(), Reg::R9);
    assert_eq!(Operand::Imm(0x1234).to_imm(), 0x1234);
}

#[test]
fn disassembly_matches_parsed_form() {
    assert_eq!(
        Verb::Mov(Operand::Reg(Reg::R1), Operand::Imm(5)).render(),
        "mov R1 0x5"
    );
    assert_eq!(
        Verb::Mov(Operand::Reg(Reg::R12), Operand::MemAtReg(Reg::R3)).render(),
        "mov R12 [R3]"
    );
    assert_eq!(
        Verb::Jz(Operand::Label(".loop".to_string()), Operand::Reg(Reg::R2)).render(),
        "jz .loop R2"
    );
    assert_eq!(Verb::Jmp(Operand::Imm(0x2A)).render(), "jmp 0x2A ");
    assert_eq!(Verb::DbgRegs.render(), "dbg");
    assert_eq!(Verb::Halt.render(), "halt");
    assert_eq!(
        Verb::Storef(Operand::Reg(Reg::R2), Operand::Imm(7)).render(),
        "storef R2 0x7"
    );
}

#[test]
fn hex_file_line_format() {
    assert_eq!(Verb::Halt.as_hex_file_line(), "FF_FF_FF  // halt");
    assert_eq!(
        Verb::Mov(Operand::Reg(Reg::R1), Operand::Imm(5)).as_hex_file_line(),
        "11_00_05  // mov R1 0x5"
    );
}
