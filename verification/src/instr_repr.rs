//! The instruction set: opcodes, operands, the fixed 3-byte binary
//! encoding, and the canonical textual (disassembly) form.
//!
//! The wire format packs one instruction into exactly three bytes. A
//! "register plus 16-bit value" family puts a family tag in the primary
//! byte's high nibble, a register id in its low nibble, and a big-endian
//! 16-bit immediate or address in bytes 1 and 2. A second family is
//! signalled by a primary byte of 0xF0, followed by a discriminator byte
//! and a third byte packing two register ids (upper and lower nibble).
//! `halt` encodes to three 0xFF bytes and `nop` to three zero bytes.
//!
//! The mathematical model of an instruction is its view (`VerbView`,
//! `OperandView`), in which a symbolic label is a character sequence;
//! signatures, encoding and rendering are all specified over views.
//!
//! Disassembly (`render`) produces exactly the textual form the parser
//! accepts, so the trace printed before execution can be checked against
//! the source by eye.

use vstd::prelude::*;
use vstd::string::StringExecFns;
use crate::text::{push_char, push_hex, spec_hex_seq, spec_hex_digit, hex_digit_char};

verus! {

/// One of the 16 register slots. Register 0 is the stack pointer by
/// convention only: `call`, `ret`, `push`, `pop` and the frame-relative
/// moves use it, but nothing else distinguishes it.
#[derive(Debug, PartialEq, Eq, Structural, Clone, Copy)]
pub enum Reg {
    R0,
    R1,
    R2,
    R3,
    R4,
    R5,
    R6,
    R7,
    R8,
    R9,
    R10,
    R11,
    R12,
    R13,
    R14,
    R15,
}

/// An addressing-mode-tagged operand. `Label` exists only before
/// resolution; the resolver rewrites it to `Imm`.
#[derive(Debug, PartialEq, Eq, Clone)]
pub enum Operand {
    /// A register.
    Reg(Reg),
    /// A 16-bit immediate constant (or, for control flow, an address).
    Imm(u16),
    /// A symbolic jump or call target, including its leading marker.
    Label(String),
    /// The memory cell addressed by a register's current value.
    MemAtReg(Reg),
    /// The memory cell addressed by an immediate.
    MemAtImm(u16),
}

/// The mathematical value of an operand: as `Operand`, with a symbolic
/// label as its character sequence.
pub enum OperandView {
    /// A register.
    Reg(Reg),
    /// A 16-bit immediate constant.
    Imm(u16),
    /// A symbolic jump or call target, including its leading marker.
    Label(Seq<char>),
    /// The memory cell addressed by a register's current value.
    MemAtReg(Reg),
    /// The memory cell addressed by an immediate.
    MemAtImm(u16),
}

impl View for Operand {
    type V = OperandView;

    open spec fn view(&self) -> OperandView {
        match self {
            Operand::Reg(r) => OperandView::Reg(*r),
            Operand::Imm(v) => OperandView::Imm(*v),
            Operand::Label(name) => OperandView::Label(name@),
            Operand::MemAtReg(r) => OperandView::MemAtReg(*r),
            Operand::MemAtImm(v) => OperandView::MemAtImm(*v),
        }
    }
}

impl DeepView for Operand {
    type V = OperandView;

    open spec fn deep_view(&self) -> OperandView {
        self.view()
    }
}

/// One instruction: an opcode with its 0-2 operands.
#[derive(Debug, PartialEq, Eq, Clone)]
pub enum Verb {
    /// The move family: six (destination, source) operand-kind pairs.
    Mov(Operand, Operand),
    /// Unconditional jump to an immediate or label target.
    Jmp(Operand),
    /// Jump if the register is zero.
    Jz(Operand, Operand),
    /// Jump if the register is not zero.
    Jnz(Operand, Operand),
    /// Jump if the register is strictly positive.
    Jpos(Operand, Operand),
    /// Jump if the register is zero or positive.
    Jposz(Operand, Operand),
    /// Jump if the register is strictly negative.
    Jneg(Operand, Operand),
    /// Jump if the register is zero or negative.
    Jnegz(Operand, Operand),
    /// Write 1 into the destination if the source register is zero, else 0.
    Setz(Operand, Operand),
    /// Write 1 if the source register is not zero, else 0.
    Setnz(Operand, Operand),
    /// Write 1 if the source register is strictly positive, else 0.
    Setpos(Operand, Operand),
    /// Write 1 if the source register is zero or positive, else 0.
    Setposz(Operand, Operand),
    /// Write 1 if the source register is strictly negative, else 0.
    Setneg(Operand, Operand),
    /// Write 1 if the source register is zero or negative, else 0.
    Setnegz(Operand, Operand),
    /// Wrapping addition into the destination register.
    Add(Operand, Operand),
    /// Wrapping subtraction from the destination register.
    Sub(Operand, Operand),
    /// Bitwise and into the destination register.
    And(Operand, Operand),
    /// Bitwise or into the destination register.
    Or(Operand, Operand),
    /// Bitwise complement of a register.
    Not(Operand),
    /// Shift left; the amount is reduced modulo the 16-bit width.
    Shl(Operand, Operand),
    /// Logical (zero-filling) shift right; the amount is reduced modulo
    /// the 16-bit width.
    Shr(Operand, Operand),
    /// Range dump: must be immediately followed by a second `Dbg` carrying
    /// the range's inclusive upper bound.
    Dbg(Operand),
    /// Register dump.
    DbgRegs,
    /// No operation.
    Nop,
    /// Stop execution; idempotent.
    Halt,
    /// Store the current pointer at the cell the stack register addresses,
    /// increment the stack register, and jump to the target.
    Call(Operand),
    /// Decrement the stack register and jump back to the stored address.
    Ret,
    /// Store a register at the cell the stack register addresses and
    /// increment the stack register.
    Push(Operand),
    /// Decrement the stack register and load the cell it addresses.
    Pop(Operand),
    /// Load into a register from the cell `stack register - offset`.
    Loadf(Operand, Operand),
    /// Store a register into the cell `stack register - offset`.
    Storef(Operand, Operand),
}

/// The mathematical value of an instruction: as `Verb`, over operand
/// views.
pub enum VerbView {
    /// The move family.
    Mov(OperandView, OperandView),
    /// Unconditional jump.
    Jmp(OperandView),
    /// Jump if zero.
    Jz(OperandView, OperandView),
    /// Jump if not zero.
    Jnz(OperandView, OperandView),
    /// Jump if strictly positive.
    Jpos(OperandView, OperandView),
    /// Jump if zero or positive.
    Jposz(OperandView, OperandView),
    /// Jump if strictly negative.
    Jneg(OperandView, OperandView),
    /// Jump if zero or negative.
    Jnegz(OperandView, OperandView),
    /// Set if zero.
    Setz(OperandView, OperandView),
    /// Set if not zero.
    Setnz(OperandView, OperandView),
    /// Set if strictly positive.
    Setpos(OperandView, OperandView),
    /// Set if zero or positive.
    Setposz(OperandView, OperandView),
    /// Set if strictly negative.
    Setneg(OperandView, OperandView),
    /// Set if zero or negative.
    Setnegz(OperandView, OperandView),
    /// Wrapping addition.
    Add(OperandView, OperandView),
    /// Wrapping subtraction.
    Sub(OperandView, OperandView),
    /// Bitwise and.
    And(OperandView, OperandView),
    /// Bitwise or.
    Or(OperandView, OperandView),
    /// Bitwise complement.
    Not(OperandView),
    /// Shift left.
    Shl(OperandView, OperandView),
    /// Logical shift right.
    Shr(OperandView, OperandView),
    /// Range dump.
    Dbg(OperandView),
    /// Register dump.
    DbgRegs,
    /// No operation.
    Nop,
    /// Stop execution.
    Halt,
    /// Call.
    Call(OperandView),
    /// Return.
    Ret,
    /// Push a register.
    Push(OperandView),
    /// Pop into a register.
    Pop(OperandView),
    /// Frame-relative load.
    Loadf(OperandView, OperandView),
    /// Frame-relative store.
    Storef(OperandView, OperandView),
}

impl View for Verb {
    type V = VerbView;

    open spec fn view(&self) -> VerbView {
        match self {
            Verb::Mov(o1, o2) => VerbView::Mov(o1@, o2@),
            Verb::Jmp(o) => VerbView::Jmp(o@),
            Verb::Jz(o1, o2) => VerbView::Jz(o1@, o2@),
            Verb::Jnz(o1, o2) => VerbView::Jnz(o1@, o2@),
            Verb::Jpos(o1, o2) => VerbView::Jpos(o1@, o2@),
            Verb::Jposz(o1, o2) => VerbView::Jposz(o1@, o2@),
            Verb::Jneg(o1, o2) => VerbView::Jneg(o1@, o2@),
            Verb::Jnegz(o1, o2) => VerbView::Jnegz(o1@, o2@),
            Verb::Setz(o1, o2) => VerbView::Setz(o1@, o2@),
            Verb::Setnz(o1, o2) => VerbView::Setnz(o1@, o2@),
            Verb::Setpos(o1, o2) => VerbView::Setpos(o1@, o2@),
            Verb::Setposz(o1, o2) => VerbView::Setposz(o1@, o2@),
            Verb::Setneg(o1, o2) => VerbView::Setneg(o1@, o2@),
            Verb::Setnegz(o1, o2) => VerbView::Setnegz(o1@, o2@),
            Verb::Add(o1, o2) => VerbView::Add(o1@, o2@),
            Verb::Sub(o1, o2) => VerbView::Sub(o1@, o2@),
            Verb::And(o1, o2) => VerbView::And(o1@, o2@),
            Verb::Or(o1, o2) => VerbView::Or(o1@, o2@),
            Verb::Not(o) => VerbView::Not(o@),
            Verb::Shl(o1, o2) => VerbView::Shl(o1@, o2@),
            Verb::Shr(o1, o2) => VerbView::Shr(o1@, o2@),
            Verb::Dbg(o) => VerbView::Dbg(o@),
            Verb::DbgRegs => VerbView::DbgRegs,
            Verb::Nop => VerbView::Nop,
            Verb::Halt => VerbView::Halt,
            Verb::Call(o) => VerbView::Call(o@),
            Verb::Ret => VerbView::Ret,
            Verb::Push(o) => VerbView::Push(o@),
            Verb::Pop(o) => VerbView::Pop(o@),
            Verb::Loadf(o1, o2) => VerbView::Loadf(o1@, o2@),
            Verb::Storef(o1, o2) => VerbView::Storef(o1@, o2@),
        }
    }
}

impl DeepView for Verb {
    type V = VerbView;

    open spec fn deep_view(&self) -> VerbView {
        self.view()
    }
}

impl Reg {
    /// The register's id, 0 through 15.
    pub open spec fn spec_id(self) -> u8 {
        match self {
            Reg::R0 => 0,
            Reg::R1 => 1,
            Reg::R2 => 2,
            Reg::R3 => 3,
            Reg::R4 => 4,
            Reg::R5 => 5,
            Reg::R6 => 6,
            Reg::R7 => 7,
            Reg::R8 => 8,
            Reg::R9 => 9,
            Reg::R10 => 10,
            Reg::R11 => 11,
            Reg::R12 => 12,
            Reg::R13 => 13,
            Reg::R14 => 14,
            Reg::R15 => 15,
        }
    }

    /// The register's id as a byte.
    pub fn to_id(&self) -> (r: u8)
        ensures
            r == self.spec_id(),
            r < 16,
    {
        match self {
            Reg::R0 => 0,
            Reg::R1 => 1,
            Reg::R2 => 2,
            Reg::R3 => 3,
            Reg::R4 => 4,
            Reg::R5 => 5,
            Reg::R6 => 6,
            Reg::R7 => 7,
            Reg::R8 => 8,
            Reg::R9 => 9,
            Reg::R10 => 10,
            Reg::R11 => 11,
            Reg::R12 => 12,
            Reg::R13 => 13,
            Reg::R14 => 14,
            Reg::R15 => 15,
        }
    }

    /// Writes the register id into the low nibble of a byte, keeping the
    /// high nibble.
    pub fn write_into_byte_lower(&self, b: &mut u8)
        ensures
            *final(b) == nib_low(*old(b), self.spec_id()),
    {
        *b &= 0xF0;
        *b |= self.to_id();
    }

    /// Writes the register id into the high nibble of a byte, keeping the
    /// low nibble.
    pub fn write_into_byte_upper(&self, b: &mut u8)
        ensures
            *final(b) == nib_high(*old(b), self.spec_id()),
    {
        *b &= 0x0F;
        *b |= self.to_id() << 4u8;
    }
}

/// Every register id is below 16.
pub proof fn lemma_reg_id_bound(r: Reg)
    ensures
        r.spec_id() < 16,
{
    match r {
        Reg::R0 => {},
        Reg::R1 => {},
        Reg::R2 => {},
        Reg::R3 => {},
        Reg::R4 => {},
        Reg::R5 => {},
        Reg::R6 => {},
        Reg::R7 => {},
        Reg::R8 => {},
        Reg::R9 => {},
        Reg::R10 => {},
        Reg::R11 => {},
        Reg::R12 => {},
        Reg::R13 => {},
        Reg::R14 => {},
        Reg::R15 => {},
    }
}

impl Operand {
    /// The register inside a `Reg` operand.
    pub fn to_reg(&self) -> (r: Reg)
        requires
            self@ is Reg,
        ensures
            self@ == OperandView::Reg(r),
    {
        match self {
            Operand::Reg(r) => *r,
            _ => vstd::pervasive::unreached(),
        }
    }

    /// The constant inside an `Imm` operand.
    pub fn to_imm(&self) -> (r: u16)
        requires
            self@ is Imm,
        ensures
            self@ == OperandView::Imm(r),
    {
        match self {
            Operand::Imm(imm) => *imm,
            _ => vstd::pervasive::unreached(),
        }
    }
}

impl OperandView {
    /// The register inside a `Reg` operand.
    pub open spec fn spec_reg(self) -> Reg
        recommends
            self is Reg,
    {
        match self {
            OperandView::Reg(r) => r,
            _ => Reg::R0,
        }
    }

    /// The constant inside an `Imm` operand.
    pub open spec fn spec_imm(self) -> u16
        recommends
            self is Imm,
    {
        match self {
            OperandView::Imm(v) => v,
            _ => 0,
        }
    }

    /// Whether the operand is no longer a symbolic label.
    pub open spec fn is_resolved(self) -> bool {
        !(self is Label)
    }
}

/// A jump or call target: an immediate address, or a label before
/// resolution.
pub open spec fn target_sig(o: OperandView) -> bool {
    o is Imm || o is Label
}

/// The conditional-jump signature: a target and a tested register.
pub open spec fn cond_jump_sig(o1: OperandView, o2: OperandView) -> bool {
    target_sig(o1) && o2 is Reg
}

/// The conditional-set signature: a destination and a tested register.
pub open spec fn cond_set_sig(o1: OperandView, o2: OperandView) -> bool {
    o1 is Reg && o2 is Reg
}

/// The arithmetic signature: a destination register and a register or
/// immediate source.
pub open spec fn arith_sig(o1: OperandView, o2: OperandView) -> bool {
    o1 is Reg && (o2 is Reg || o2 is Imm)
}

/// The frame-relative signature: a register and an immediate offset.
pub open spec fn frame_sig(o1: OperandView, o2: OperandView) -> bool {
    o1 is Reg && o2 is Imm
}

/// The six legal (destination, source) pairs of the move family.
pub open spec fn mov_sig(o1: OperandView, o2: OperandView) -> bool {
    ||| (o1 is Reg && o2 is Imm)
    ||| (o1 is Reg && o2 is MemAtImm)
    ||| (o1 is MemAtImm && o2 is Reg)
    ||| (o1 is Reg && o2 is Reg)
    ||| (o1 is Reg && o2 is MemAtReg)
    ||| (o1 is MemAtReg && o2 is Reg)
}

impl VerbView {
    /// Whether the operand kinds match this opcode's signature. The parser
    /// establishes this for every instruction it emits; the encoder and
    /// the emulator rely on it.
    pub open spec fn wf(self) -> bool {
        match self {
            VerbView::Mov(o1, o2) => mov_sig(o1, o2),
            VerbView::Jmp(o) => target_sig(o),
            VerbView::Jz(o1, o2) => cond_jump_sig(o1, o2),
            VerbView::Jnz(o1, o2) => cond_jump_sig(o1, o2),
            VerbView::Jpos(o1, o2) => cond_jump_sig(o1, o2),
            VerbView::Jposz(o1, o2) => cond_jump_sig(o1, o2),
            VerbView::Jneg(o1, o2) => cond_jump_sig(o1, o2),
            VerbView::Jnegz(o1, o2) => cond_jump_sig(o1, o2),
            VerbView::Setz(o1, o2) => cond_set_sig(o1, o2),
            VerbView::Setnz(o1, o2) => cond_set_sig(o1, o2),
            VerbView::Setpos(o1, o2) => cond_set_sig(o1, o2),
            VerbView::Setposz(o1, o2) => cond_set_sig(o1, o2),
            VerbView::Setneg(o1, o2) => cond_set_sig(o1, o2),
            VerbView::Setnegz(o1, o2) => cond_set_sig(o1, o2),
            VerbView::Add(o1, o2) => arith_sig(o1, o2),
            VerbView::Sub(o1, o2) => arith_sig(o1, o2),
            VerbView::And(o1, o2) => arith_sig(o1, o2),
            VerbView::Or(o1, o2) => arith_sig(o1, o2),
            VerbView::Not(o) => o is Reg,
            VerbView::Shl(o1, o2) => arith_sig(o1, o2),
            VerbView::Shr(o1, o2) => arith_sig(o1, o2),
            VerbView::Dbg(o) => o is Imm,
            VerbView::DbgRegs => true,
            VerbView::Nop => true,
            VerbView::Halt => true,
            VerbView::Call(o) => target_sig(o),
            VerbView::Ret => true,
            VerbView::Push(o) => o is Reg,
            VerbView::Pop(o) => o is Reg,
            VerbView::Loadf(o1, o2) => frame_sig(o1, o2),
            VerbView::Storef(o1, o2) => frame_sig(o1, o2),
        }
    }

    /// Whether no operand is still a symbolic label.
    pub open spec fn is_resolved(self) -> bool {
        match self {
            VerbView::Mov(o1, o2) => o1.is_resolved() && o2.is_resolved(),
            VerbView::Jmp(o) => o.is_resolved(),
            VerbView::Jz(o1, o2) => o1.is_resolved() && o2.is_resolved(),
            VerbView::Jnz(o1, o2) => o1.is_resolved() && o2.is_resolved(),
            VerbView::Jpos(o1, o2) => o1.is_resolved() && o2.is_resolved(),
            VerbView::Jposz(o1, o2) => o1.is_resolved() && o2.is_resolved(),
            VerbView::Jneg(o1, o2) => o1.is_resolved() && o2.is_resolved(),
            VerbView::Jnegz(o1, o2) => o1.is_resolved() && o2.is_resolved(),
            VerbView::Setz(o1, o2) => o1.is_resolved() && o2.is_resolved(),
            VerbView::Setnz(o1, o2) => o1.is_resolved() && o2.is_resolved(),
            VerbView::Setpos(o1, o2) => o1.is_resolved() && o2.is_resolved(),
            VerbView::Setposz(o1, o2) => o1.is_resolved() && o2.is_resolved(),
            VerbView::Setneg(o1, o2) => o1.is_resolved() && o2.is_resolved(),
            VerbView::Setnegz(o1, o2) => o1.is_resolved() && o2.is_resolved(),
            VerbView::Add(o1, o2) => o1.is_resolved() && o2.is_resolved(),
            VerbView::Sub(o1, o2) => o1.is_resolved() && o2.is_resolved(),
            VerbView::And(o1, o2) => o1.is_resolved() && o2.is_resolved(),
            VerbView::Or(o1, o2) => o1.is_resolved() && o2.is_resolved(),
            VerbView::Not(o) => o.is_resolved(),
            VerbView::Shl(o1, o2) => o1.is_resolved() && o2.is_resolved(),
            VerbView::Shr(o1, o2) => o1.is_resolved() && o2.is_resolved(),
            VerbView::Dbg(o) => o.is_resolved(),
            VerbView::DbgRegs => true,
            VerbView::Nop => true,
            VerbView::Halt => true,
            VerbView::Call(o) => o.is_resolved(),
            VerbView::Ret => true,
            VerbView::Push(o) => o.is_resolved(),
            VerbView::Pop(o) => o.is_resolved(),
            VerbView::Loadf(o1, o2) => o1.is_resolved() && o2.is_resolved(),
            VerbView::Storef(o1, o2) => o1.is_resolved() && o2.is_resolved(),
        }
    }
}

/// The byte with `id` in its low nibble and `b`'s high nibble.
pub open spec fn nib_low(b: u8, id: u8) -> u8 {
    (b & 0xF0) | id
}

/// The byte with `id` in its high nibble and `b`'s low nibble.
pub open spec fn nib_high(b: u8, id: u8) -> u8 {
    (b & 0x0F) | (id << 4u8)
}

/// The byte with the immediate's low 4 bits in its low nibble and `b`'s
/// high nibble.
pub open spec fn nib_low_imm(b: u8, v: u16) -> u8 {
    (b & 0xF0) | (((v & 0xFF) as u8) & 0x0F)
}

/// The high byte of a big-endian 16-bit value.
pub open spec fn imm_high_byte(v: u16) -> u8 {
    (v >> 8u16) as u8
}

/// The low byte of a big-endian 16-bit value.
pub open spec fn imm_low_byte(v: u16) -> u8 {
    (v & 0xFF) as u8
}

/// Writes the immediate's low 4 bits into the low nibble of a byte,
/// keeping the high nibble.
pub fn write_imm_to_byte_lower(imm: u16, b: &mut u8)
    ensures
        *final(b) == nib_low_imm(*old(b), imm),
{
    proof {
        assert(imm & 0xFF < 256) by (bit_vector);
    }
    let lo: u8 = (imm & 0xFF) as u8;
    *b &= 0xF0;
    *b |= lo & 0x0F;
}

/// The two big-endian bytes of a 16-bit value.
fn imm_be(v: u16) -> (r: (u8, u8))
    ensures
        r.0 == imm_high_byte(v),
        r.1 == imm_low_byte(v),
{
    proof {
        assert(v >> 8u16 < 256 && v & 0xFF < 256) by (bit_vector);
    }
    (((v >> 8u16) as u8), ((v & 0xFF) as u8))
}

/// Encodes the register-plus-16-bit-value family: the family tag's high
/// nibble, a register id, and a big-endian immediate.
fn enc_ri(family: u8, r: Reg, imm: u16) -> (res: [u8; 3])
    ensures
        res@ == seq![nib_low(family, r.spec_id()), imm_high_byte(imm), imm_low_byte(imm)],
{
    let mut b0 = family;
    r.write_into_byte_lower(&mut b0);
    let (b1, b2) = imm_be(imm);
    let res = [b0, b1, b2];
    proof {
        assert(res@ =~= seq![
            nib_low(family, r.spec_id()),
            imm_high_byte(imm),
            imm_low_byte(imm),
        ]);
    }
    res
}

/// Encodes a primary byte with a bare big-endian immediate.
fn enc_imm16(b0: u8, imm: u16) -> (res: [u8; 3])
    ensures
        res@ == seq![b0, imm_high_byte(imm), imm_low_byte(imm)],
{
    let (b1, b2) = imm_be(imm);
    let res = [b0, b1, b2];
    proof {
        assert(res@ =~= seq![b0, imm_high_byte(imm), imm_low_byte(imm)]);
    }
    res
}

/// Encodes the two-register form of the second family: 0xF0, a
/// discriminator, and two register ids packed in one byte.
fn enc_rr(disc: u8, ra: Reg, rb: Reg) -> (res: [u8; 3])
    ensures
        res@ == seq![0xF0u8, disc, nib_low(nib_high(0, ra.spec_id()), rb.spec_id())],
{
    let mut b2: u8 = 0;
    ra.write_into_byte_upper(&mut b2);
    rb.write_into_byte_lower(&mut b2);
    let res = [0xF0, disc, b2];
    proof {
        assert(res@ =~= seq![0xF0u8, disc, nib_low(nib_high(0, ra.spec_id()), rb.spec_id())]);
    }
    res
}

/// Encodes the one-register form of the second family: the register id in
/// the upper nibble of the third byte.
fn enc_r_upper(disc: u8, ra: Reg) -> (res: [u8; 3])
    ensures
        res@ == seq![0xF0u8, disc, nib_high(0, ra.spec_id())],
{
    let mut b2: u8 = 0;
    ra.write_into_byte_upper(&mut b2);
    let res = [0xF0, disc, b2];
    proof {
        assert(res@ =~= seq![0xF0u8, disc, nib_high(0, ra.spec_id())]);
    }
    res
}

/// Encodes the register-plus-4-bit-immediate form of the second family.
fn enc_r_imm4(disc: u8, ra: Reg, imm: u16) -> (res: [u8; 3])
    ensures
        res@ == seq![0xF0u8, disc, nib_low_imm(nib_high(0, ra.spec_id()), imm)],
{
    let mut b2: u8 = 0;
    ra.write_into_byte_upper(&mut b2);
    write_imm_to_byte_lower(imm, &mut b2);
    let res = [0xF0, disc, b2];
    proof {
        assert(res@ =~= seq![0xF0u8, disc, nib_low_imm(nib_high(0, ra.spec_id()), imm)]);
    }
    res
}

impl VerbView {
    /// The instruction's 3-byte encoding, as a sequence.
    pub open spec fn spec_encode(self) -> Seq<u8>
        recommends
            self.wf(),
            self.is_resolved(),
    {
        match self {
            VerbView::Mov(o1, o2) => match (o1, o2) {
                (OperandView::Reg(r1), OperandView::Imm(imm)) => seq![
                    nib_low(0x10, r1.spec_id()),
                    imm_high_byte(imm),
                    imm_low_byte(imm),
                ],
                (OperandView::Reg(r1), OperandView::MemAtImm(imm)) => seq![
                    nib_low(0x20, r1.spec_id()),
                    imm_high_byte(imm),
                    imm_low_byte(imm),
                ],
                (OperandView::MemAtImm(imm), OperandView::Reg(r1)) => seq![
                    nib_low(0x30, r1.spec_id()),
                    imm_high_byte(imm),
                    imm_low_byte(imm),
                ],
                (OperandView::Reg(r1), OperandView::Reg(r2)) => seq![
                    0xF0u8,
                    0x00u8,
                    nib_low(nib_high(0, r1.spec_id()), r2.spec_id()),
                ],
                (OperandView::Reg(ra), OperandView::MemAtReg(rb)) => seq![
                    0xF0u8,
                    0x01u8,
                    nib_low(nib_high(0, ra.spec_id()), rb.spec_id()),
                ],
                (OperandView::MemAtReg(ra), OperandView::Reg(rb)) => seq![
                    0xF0u8,
                    0x02u8,
                    nib_low(nib_high(0, ra.spec_id()), rb.spec_id()),
                ],
                _ => seq![0u8, 0u8, 0u8],
            },
            VerbView::Jmp(o) => seq![
                0xE3u8,
                imm_high_byte(o.spec_imm()),
                imm_low_byte(o.spec_imm()),
            ],
            VerbView::Jz(o, r) => seq![
                nib_low(0x40, r.spec_reg().spec_id()),
                imm_high_byte(o.spec_imm()),
                imm_low_byte(o.spec_imm()),
            ],
            VerbView::Jnz(o, r) => seq![
                nib_low(0x50, r.spec_reg().spec_id()),
                imm_high_byte(o.spec_imm()),
                imm_low_byte(o.spec_imm()),
            ],
            VerbView::Jpos(o, r) => seq![
                nib_low(0x60, r.spec_reg().spec_id()),
                imm_high_byte(o.spec_imm()),
                imm_low_byte(o.spec_imm()),
            ],
            VerbView::Jposz(o, r) => seq![
                nib_low(0x70, r.spec_reg().spec_id()),
                imm_high_byte(o.spec_imm()),
                imm_low_byte(o.spec_imm()),
            ],
            VerbView::Jneg(o, r) => seq![
                nib_low(0x80, r.spec_reg().spec_id()),
                imm_high_byte(o.spec_imm()),
                imm_low_byte(o.spec_imm()),
            ],
            VerbView::Jnegz(o, r) => seq![
                nib_low(0x90, r.spec_reg().spec_id()),
                imm_high_byte(o.spec_imm()),
                imm_low_byte(o.spec_imm()),
            ],
            VerbView::Setz(ra, rb) => seq![
                0xF0u8,
                0x10u8,
                nib_low(nib_high(0, ra.spec_reg().spec_id()), rb.spec_reg().spec_id()),
            ],
            VerbView::Setnz(ra, rb) => seq![
                0xF0u8,
                0x11u8,
                nib_low(nib_high(0, ra.spec_reg().spec_id()), rb.spec_reg().spec_id()),
            ],
            VerbView::Setpos(ra, rb) => seq![
                0xF0u8,
                0x12u8,
                nib_low(nib_high(0, ra.spec_reg().spec_id()), rb.spec_reg().spec_id()),
            ],
            VerbView::Setposz(ra, rb) => seq![
                0xF0u8,
                0x13u8,
                nib_low(nib_high(0, ra.spec_reg().spec_id()), rb.spec_reg().spec_id()),
            ],
            VerbView::Setneg(ra, rb) => seq![
                0xF0u8,
                0x14u8,
                nib_low(nib_high(0, ra.spec_reg().spec_id()), rb.spec_reg().spec_id()),
            ],
            VerbView::Setnegz(ra, rb) => seq![
                0xF0u8,
                0x15u8,
                nib_low(nib_high(0, ra.spec_reg().spec_id()), rb.spec_reg().spec_id()),
            ],
            VerbView::Add(o1, o2) => match (o1, o2) {
                (OperandView::Reg(r1), OperandView::Reg(r2)) => seq![
                    0xF0u8,
                    0x20u8,
                    nib_low(nib_high(0, r1.spec_id()), r2.spec_id()),
                ],
                _ => seq![
                    nib_low(0xA0, o1.spec_reg().spec_id()),
                    imm_high_byte(o2.spec_imm()),
                    imm_low_byte(o2.spec_imm()),
                ],
            },
            VerbView::Sub(o1, o2) => match (o1, o2) {
                (OperandView::Reg(r1), OperandView::Reg(r2)) => seq![
                    0xF0u8,
                    0x21u8,
                    nib_low(nib_high(0, r1.spec_id()), r2.spec_id()),
                ],
                _ => seq![
                    nib_low(0xB0, o1.spec_reg().spec_id()),
                    imm_high_byte(o2.spec_imm()),
                    imm_low_byte(o2.spec_imm()),
                ],
            },
            VerbView::And(o1, o2) => match (o1, o2) {
                (OperandView::Reg(r1), OperandView::Reg(r2)) => seq![
                    0xF0u8,
                    0x22u8,
                    nib_low(nib_high(0, r1.spec_id()), r2.spec_id()),
                ],
                _ => seq![
                    nib_low(0xC0, o1.spec_reg().spec_id()),
                    imm_high_byte(o2.spec_imm()),
                    imm_low_byte(o2.spec_imm()),
                ],
            },
            VerbView::Or(o1, o2) => match (o1, o2) {
                (OperandView::Reg(r1), OperandView::Reg(r2)) => seq![
                    0xF0u8,
                    0x23u8,
                    nib_low(nib_high(0, r1.spec_id()), r2.spec_id()),
                ],
                _ => seq![
                    nib_low(0xD0, o1.spec_reg().spec_id()),
                    imm_high_byte(o2.spec_imm()),
                    imm_low_byte(o2.spec_imm()),
                ],
            },
            VerbView::Not(o) => seq![0xF0u8, 0x24u8, nib_high(0, o.spec_reg().spec_id())],
            VerbView::Shl(o1, o2) => match (o1, o2) {
                (OperandView::Reg(r1), OperandView::Reg(r2)) => seq![
                    0xF0u8,
                    0x31u8,
                    nib_low(nib_high(0, r1.spec_id()), r2.spec_id()),
                ],
                _ => seq![
                    0xF0u8,
                    0x30u8,
                    nib_low_imm(nib_high(0, o1.spec_reg().spec_id()), o2.spec_imm()),
                ],
            },
            VerbView::Shr(o1, o2) => match (o1, o2) {
                (OperandView::Reg(r1), OperandView::Reg(r2)) => seq![
                    0xF0u8,
                    0x33u8,
                    nib_low(nib_high(0, r1.spec_id()), r2.spec_id()),
                ],
                _ => seq![
                    0xF0u8,
                    0x32u8,
                    nib_low_imm(nib_high(0, o1.spec_reg().spec_id()), o2.spec_imm()),
                ],
            },
            VerbView::Dbg(o) => seq![
                0xE0u8,
                imm_high_byte(o.spec_imm()),
                imm_low_byte(o.spec_imm()),
            ],
            VerbView::DbgRegs => seq![0xE1u8, 0u8, 0u8],
            VerbView::Nop => seq![0u8, 0u8, 0u8],
            VerbView::Halt => seq![0xFFu8, 0xFFu8, 0xFFu8],
            VerbView::Call(o) => seq![
                0xE4u8,
                imm_high_byte(o.spec_imm()),
                imm_low_byte(o.spec_imm()),
            ],
            VerbView::Ret => seq![0xE5u8, 0u8, 0u8],
            VerbView::Push(o) => seq![0xF0u8, 0x40u8, nib_high(0, o.spec_reg().spec_id())],
            VerbView::Pop(o) => seq![0xF0u8, 0x41u8, nib_high(0, o.spec_reg().spec_id())],
            VerbView::Loadf(o1, o2) => seq![
                0xF0u8,
                0x50u8,
                nib_low_imm(nib_high(0, o1.spec_reg().spec_id()), o2.spec_imm()),
            ],
            VerbView::Storef(o1, o2) => seq![
                0xF0u8,
                0x51u8,
                nib_low_imm(nib_high(0, o1.spec_reg().spec_id()), o2.spec_imm()),
            ],
        }
    }
}

impl Verb {
    /// The instruction's 3-byte encoding. Encoding is a pure function of
    /// the instruction, so encoding twice yields identical bytes.
    pub fn to_bytes(&self) -> (res: [u8; 3])
        requires
            self@.wf(),
            self@.is_resolved(),
        ensures
            res@ == self@.spec_encode(),
    {
        match self {
            Verb::Mov(o1, o2) => match (o1, o2) {
                (Operand::Reg(r1), Operand::Imm(imm)) => enc_ri(0x10, *r1, *imm),
                (Operand::Reg(r1), Operand::MemAtImm(imm)) => enc_ri(0x20, *r1, *imm),
                (Operand::MemAtImm(imm), Operand::Reg(r1)) => enc_ri(0x30, *r1, *imm),
                (Operand::Reg(r1), Operand::Reg(r2)) => enc_rr(0x00, *r1, *r2),
                (Operand::Reg(ra), Operand::MemAtReg(rb)) => enc_rr(0x01, *ra, *rb),
                (Operand::MemAtReg(ra), Operand::Reg(rb)) => enc_rr(0x02, *ra, *rb),
                _ => vstd::pervasive::unreached(),
            },
            Verb::Jmp(o) => enc_imm16(0xE3, o.to_imm()),
            Verb::Jz(o, r) => enc_ri(0x40, r.to_reg(), o.to_imm()),
            Verb::Jnz(o, r) => enc_ri(0x50, r.to_reg(), o.to_imm()),
            Verb::Jpos(o, r) => enc_ri(0x60, r.to_reg(), o.to_imm()),
            Verb::Jposz(o, r) => enc_ri(0x70, r.to_reg(), o.to_imm()),
            Verb::Jneg(o, r) => enc_ri(0x80, r.to_reg(), o.to_imm()),
            Verb::Jnegz(o, r) => enc_ri(0x90, r.to_reg(), o.to_imm()),
            Verb::Setz(ra, rb) => enc_rr(0x10, ra.to_reg(), rb.to_reg()),
            Verb::Setnz(ra, rb) => enc_rr(0x11, ra.to_reg(), rb.to_reg()),
            Verb::Setpos(ra, rb) => enc_rr(0x12, ra.to_reg(), rb.to_reg()),
            Verb::Setposz(ra, rb) => enc_rr(0x13, ra.to_reg(), rb.to_reg()),
            Verb::Setneg(ra, rb) => enc_rr(0x14, ra.to_reg(), rb.to_reg()),
            Verb::Setnegz(ra, rb) => enc_rr(0x15, ra.to_reg(), rb.to_reg()),
            Verb::Add(o1, o2) => match o2 {
                Operand::Reg(r2) => enc_rr(0x20, o1.to_reg(), *r2),
                _ => enc_ri(0xA0, o1.to_reg(), o2.to_imm()),
            },
            Verb::Sub(o1, o2) => match o2 {
                Operand::Reg(r2) => enc_rr(0x21, o1.to_reg(), *r2),
                _ => enc_ri(0xB0, o1.to_reg(), o2.to_imm()),
            },
            Verb::And(o1, o2) => match o2 {
                Operand::Reg(r2) => enc_rr(0x22, o1.to_reg(), *r2),
                _ => enc_ri(0xC0, o1.to_reg(), o2.to_imm()),
            },
            Verb::Or(o1, o2) => match o2 {
                Operand::Reg(r2) => enc_rr(0x23, o1.to_reg(), *r2),
                _ => enc_ri(0xD0, o1.to_reg(), o2.to_imm()),
            },
            Verb::Not(o) => enc_r_upper(0x24, o.to_reg()),
            Verb::Shl(o1, o2) => match o2 {
                Operand::Reg(r2) => enc_rr(0x31, o1.to_reg(), *r2),
                _ => enc_r_imm4(0x30, o1.to_reg(), o2.to_imm()),
            },
            Verb::Shr(o1, o2) => match o2 {
                Operand::Reg(r2) => enc_rr(0x33, o1.to_reg(), *r2),
                _ => enc_r_imm4(0x32, o1.to_reg(), o2.to_imm()),
            },
            Verb::Dbg(o) => enc_imm16(0xE0, o.to_imm()),
            Verb::DbgRegs => {
                let res = [0xE1, 0, 0];
                proof {
                    assert(res@ =~= seq![0xE1u8, 0u8, 0u8]);
                }
                res
            },
            Verb::Nop => {
                let res = [0, 0, 0];
                proof {
                    assert(res@ =~= seq![0u8, 0u8, 0u8]);
                }
                res
            },
            Verb::Halt => {
                let res = [0xFF, 0xFF, 0xFF];
                proof {
                    assert(res@ =~= seq![0xFFu8, 0xFFu8, 0xFFu8]);
                }
                res
            },
            Verb::Call(o) => enc_imm16(0xE4, o.to_imm()),
            Verb::Ret => {
                let res = [0xE5, 0, 0];
                proof {
                    assert(res@ =~= seq![0xE5u8, 0u8, 0u8]);
                }
                res
            },
            Verb::Push(o) => enc_r_upper(0x40, o.to_reg()),
            Verb::Pop(o) => enc_r_upper(0x41, o.to_reg()),
            Verb::Loadf(o1, o2) => enc_r_imm4(0x50, o1.to_reg(), o2.to_imm()),
            Verb::Storef(o1, o2) => enc_r_imm4(0x51, o1.to_reg(), o2.to_imm()),
        }
    }
}

/// `halt` always encodes to three 0xFF bytes and `nop` to three zero
/// bytes, and the encoding of any instruction is determined by the
/// instruction alone.
pub proof fn lemma_fixed_encodings()
    ensures
        VerbView::Halt.spec_encode() =~= seq![0xFFu8, 0xFFu8, 0xFFu8],
        VerbView::Nop.spec_encode() =~= seq![0u8, 0u8, 0u8],
{
}

/// The decimal numeral of a register id, one digit below ten, two above.
pub open spec fn spec_render_reg(r: Reg) -> Seq<char> {
    let id = r.spec_id();
    if id < 10 {
        seq![spec_hex_digit(id)]
    } else {
        seq!['1', spec_hex_digit((id - 10) as u8)]
    }
}

impl OperandView {
    /// The operand's textual form: `R` and a decimal id for a register,
    /// `0x` and uppercase hexadecimal for an immediate, the stored name
    /// for a label, and the bracketed inner form for the memory kinds.
    pub open spec fn spec_render(self) -> Seq<char> {
        match self {
            OperandView::Reg(r) => "R"@ + spec_render_reg(r),
            OperandView::Imm(v) => "0x"@ + spec_hex_seq(v),
            OperandView::Label(name) => name,
            OperandView::MemAtReg(r) => "[R"@ + spec_render_reg(r) + "]"@,
            OperandView::MemAtImm(v) => "[0x"@ + spec_hex_seq(v) + "]"@,
        }
    }
}

/// Appends the decimal id of a register.
fn push_reg_digits(s: &mut String, r: Reg)
    ensures
        final(s)@ == old(s)@ + spec_render_reg(r),
{
    let id = r.to_id();
    if id < 10 {
        push_char(s, hex_digit_char(id));
        proof {
            assert(old(s)@ + spec_render_reg(r) =~= old(s)@.push(spec_hex_digit(id)));
        }
    } else {
        push_char(s, '1');
        push_char(s, hex_digit_char(id - 10));
        proof {
            assert(old(s)@ + spec_render_reg(r) =~= old(s)@.push('1').push(
                spec_hex_digit((id - 10) as u8),
            ));
        }
    }
}

/// Appends an operand's textual form.
fn push_operand(s: &mut String, o: &Operand)
    ensures
        final(s)@ == old(s)@ + o@.spec_render(),
{
    match o {
        Operand::Reg(r) => {
            s.append("R");
            push_reg_digits(s, *r);
        },
        Operand::Imm(v) => {
            s.append("0x");
            push_hex(s, *v);
        },
        Operand::Label(name) => {
            s.append(name.as_str());
        },
        Operand::MemAtReg(r) => {
            s.append("[R");
            push_reg_digits(s, *r);
            s.append("]");
        },
        Operand::MemAtImm(v) => {
            s.append("[0x");
            push_hex(s, *v);
            s.append("]");
        },
    }
    proof {
        assert(s@ =~= old(s)@ + o@.spec_render());
    }
}

/// Appends a mnemonic (with its trailing space) and two operands.
fn render2(s: &mut String, name: &str, o1: &Operand, o2: &Operand)
    ensures
        final(s)@ == old(s)@ + name@ + o1@.spec_render() + " "@ + o2@.spec_render(),
{
    s.append(name);
    push_operand(s, o1);
    s.append(" ");
    push_operand(s, o2);
}

/// Appends a mnemonic (with its trailing space) and one operand.
fn render1(s: &mut String, name: &str, o: &Operand)
    ensures
        final(s)@ == old(s)@ + name@ + o@.spec_render(),
{
    s.append(name);
    push_operand(s, o);
}

impl VerbView {
    /// The instruction's textual (disassembly) form, exactly what the
    /// parser accepts for it.
    pub open spec fn spec_render(self) -> Seq<char> {
        match self {
            VerbView::Mov(o1, o2) => "mov "@ + o1.spec_render() + " "@ + o2.spec_render(),
            VerbView::Jmp(o) => "jmp "@ + o.spec_render() + " "@,
            VerbView::Jz(o1, o2) => "jz "@ + o1.spec_render() + " "@ + o2.spec_render(),
            VerbView::Jnz(o1, o2) => "jnz "@ + o1.spec_render() + " "@ + o2.spec_render(),
            VerbView::Jpos(o1, o2) => "jpos "@ + o1.spec_render() + " "@ + o2.spec_render(),
            VerbView::Jposz(o1, o2) => "jposz "@ + o1.spec_render() + " "@ + o2.spec_render(),
            VerbView::Jneg(o1, o2) => "jneg "@ + o1.spec_render() + " "@ + o2.spec_render(),
            VerbView::Jnegz(o1, o2) => "jnegz "@ + o1.spec_render() + " "@ + o2.spec_render(),
            VerbView::Setz(o1, o2) => "setz "@ + o1.spec_render() + " "@ + o2.spec_render(),
            VerbView::Setnz(o1, o2) => "setnz "@ + o1.spec_render() + " "@ + o2.spec_render(),
            VerbView::Setpos(o1, o2) => "setpos "@ + o1.spec_render() + " "@ + o2.spec_render(),
            VerbView::Setposz(o1, o2) => "setposz "@ + o1.spec_render() + " "@
                + o2.spec_render(),
            VerbView::Setneg(o1, o2) => "setneg "@ + o1.spec_render() + " "@ + o2.spec_render(),
            VerbView::Setnegz(o1, o2) => "setnegz "@ + o1.spec_render() + " "@
                + o2.spec_render(),
            VerbView::Add(o1, o2) => "add "@ + o1.spec_render() + " "@ + o2.spec_render(),
            VerbView::Sub(o1, o2) => "sub "@ + o1.spec_render() + " "@ + o2.spec_render(),
            VerbView::And(o1, o2) => "and "@ + o1.spec_render() + " "@ + o2.spec_render(),
            VerbView::Or(o1, o2) => "or "@ + o1.spec_render() + " "@ + o2.spec_render(),
            VerbView::Not(o) => "not "@ + o.spec_render(),
            VerbView::Shl(o1, o2) => "shl "@ + o1.spec_render() + " "@ + o2.spec_render(),
            VerbView::Shr(o1, o2) => "shr "@ + o1.spec_render() + " "@ + o2.spec_render(),
            VerbView::Dbg(o) => "dbg "@ + o.spec_render(),
            VerbView::DbgRegs => "dbg"@,
            VerbView::Nop => "nop"@,
            VerbView::Halt => "halt"@,
            VerbView::Call(o) => "call "@ + o.spec_render(),
            VerbView::Ret => "ret"@,
            VerbView::Push(o) => "push "@ + o.spec_render(),
            VerbView::Pop(o) => "pop "@ + o.spec_render(),
            VerbView::Loadf(o1, o2) => "loadf "@ + o1.spec_render() + " "@ + o2.spec_render(),
            VerbView::Storef(o1, o2) => "storef "@ + o1.spec_render() + " "@ + o2.spec_render(),
        }
    }
}

impl Verb {
    /// The instruction's textual (disassembly) form.
    pub fn render(&self) -> (r: String)
        ensures
            r@ == self@.spec_render(),
    {
        let mut s = String::new();
        match self {
            Verb::Mov(o1, o2) => render2(&mut s, "mov ", o1, o2),
            Verb::Jmp(o) => {
                render1(&mut s, "jmp ", o);
                s.append(" ");
            },
            Verb::Jz(o1, o2) => render2(&mut s, "jz ", o1, o2),
            Verb::Jnz(o1, o2) => render2(&mut s, "jnz ", o1, o2),
            Verb::Jpos(o1, o2) => render2(&mut s, "jpos ", o1, o2),
            Verb::Jposz(o1, o2) => render2(&mut s, "jposz ", o1, o2),
            Verb::Jneg(o1, o2) => render2(&mut s, "jneg ", o1, o2),
            Verb::Jnegz(o1, o2) => render2(&mut s, "jnegz ", o1, o2),
            Verb::Setz(o1, o2) => render2(&mut s, "setz ", o1, o2),
            Verb::Setnz(o1, o2) => render2(&mut s, "setnz ", o1, o2),
            Verb::Setpos(o1, o2) => render2(&mut s, "setpos ", o1, o2),
            Verb::Setposz(o1, o2) => render2(&mut s, "setposz ", o1, o2),
            Verb::Setneg(o1, o2) => render2(&mut s, "setneg ", o1, o2),
            Verb::Setnegz(o1, o2) => render2(&mut s, "setnegz ", o1, o2),
            Verb::Add(o1, o2) => render2(&mut s, "add ", o1, o2),
            Verb::Sub(o1, o2) => render2(&mut s, "sub ", o1, o2),
            Verb::And(o1, o2) => render2(&mut s, "and ", o1, o2),
            Verb::Or(o1, o2) => render2(&mut s, "or ", o1, o2),
            Verb::Not(o) => render1(&mut s, "not ", o),
            Verb::Shl(o1, o2) => render2(&mut s, "shl ", o1, o2),
            Verb::Shr(o1, o2) => render2(&mut s, "shr ", o1, o2),
            Verb::Dbg(o) => render1(&mut s, "dbg ", o),
            Verb::DbgRegs => s.append("dbg"),
            Verb::Nop => s.append("nop"),
            Verb::Halt => s.append("halt"),
            Verb::Call(o) => render1(&mut s, "call ", o),
            Verb::Ret => s.append("ret"),
            Verb::Push(o) => render1(&mut s, "push ", o),
            Verb::Pop(o) => render1(&mut s, "pop ", o),
            Verb::Loadf(o1, o2) => render2(&mut s, "loadf ", o1, o2),
            Verb::Storef(o1, o2) => render2(&mut s, "storef ", o1, o2),
        }
        proof {
            assert(s@ =~= self@.spec_render());
        }
        s
    }
}

/// The two-digit uppercase hexadecimal form of a byte.
pub open spec fn spec_hex2(b: u8) -> Seq<char> {
    seq![spec_hex_digit(b >> 4u8), spec_hex_digit(b & 0x0F)]
}

/// Appends the two-digit uppercase hexadecimal form of a byte.
fn push_hex2(s: &mut String, b: u8)
    ensures
        final(s)@ == old(s)@ + spec_hex2(b),
{
    proof {
        assert(b >> 4u8 < 16 && b & 0x0F < 16) by (bit_vector);
    }
    push_char(s, hex_digit_char(b >> 4u8));
    push_char(s, hex_digit_char(b & 0x0F));
    proof {
        assert(s@ =~= old(s)@ + spec_hex2(b));
    }
}

impl VerbView {
    /// One trace line: the instruction's three encoded bytes as
    /// underscore-separated uppercase hex pairs, then its disassembled
    /// form behind a comment marker.
    pub open spec fn spec_hex_file_line(self) -> Seq<char> {
        let e = self.spec_encode();
        spec_hex2(e[0]) + "_"@ + spec_hex2(e[1]) + "_"@ + spec_hex2(e[2]) + "  // "@
            + self.spec_render()
    }
}

impl Verb {
    /// One trace line for this instruction.
    pub fn as_hex_file_line(&self) -> (r: String)
        requires
            self@.wf(),
            self@.is_resolved(),
        ensures
            r@ == self@.spec_hex_file_line(),
    {
        let bytes = self.to_bytes();
        let mut s = String::new();
        push_hex2(&mut s, bytes[0]);
        s.append("_");
        push_hex2(&mut s, bytes[1]);
        s.append("_");
        push_hex2(&mut s, bytes[2]);
        s.append("  // ");
        let text = self.render();
        s.append(text.as_str());
        proof {
            assert(s@ =~= self@.spec_hex_file_line());
        }
        s
    }
}

} // verus!
