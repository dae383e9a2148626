//! The CPU state machine: an instruction pointer that wraps modulo 65536,
//! 16 signed 16-bit registers, a flat 65536-cell signed 16-bit memory
//! image, and a halted flag.
//!
//! The machine's semantics is the spec function `step_spec`: fetch the
//! instruction at the pointer (an error if the pointer has run past the
//! program), apply its effects, and advance the pointer by one with
//! wraparound unless the instruction redirects control flow. Control-flow
//! instructions set the pointer to `target - 1` so that the shared
//! trailing increment lands exactly on `target`; `ret` sets the exact
//! stored address so the increment lands one past the call site.
//!
//! All register and memory arithmetic wraps silently; shift amounts are
//! reduced modulo the 16-bit width and shift-right is logical
//! (zero-filling). Reserved memory-mapped cells: [0, 1200) is the
//! framebuffer, 1200 the switch-state input, 1201 the button-state input,
//! 1204 the LED output. The host touches them only through the four
//! narrow accessors; everything else is ordinary RAM.

use vstd::prelude::*;
use vstd::pervasive::VecAdditionalExecFns;
use vstd::slice::slice_subrange;
use crate::errors::ExecError;
use crate::instr_repr::{Operand, OperandView, Reg, Verb, VerbView};

verus! {

/// The number of memory cells.
pub const MEM_SIZE: usize = 65536;

/// The number of framebuffer cells; they occupy addresses [0, 1200).
pub const GFX_SIZE: usize = 1200;

/// The switch-state input cell.
pub const SWITCH_ADDR: usize = 1200;

/// The button-state input cell.
pub const BUTTON_ADDR: usize = 1201;

/// The LED output cell.
pub const LED_ADDR: usize = 1204;

/// Instructions executed per batch: the modeled hardware retires 12500
/// instructions per second, and a host redrawing 60 times per second
/// interleaves I/O once per batch.
pub const BATCH_SIZE: usize = 208;

/// The value registers and memory hold before their first write; chosen
/// to make reads of uninitialized cells easy to spot. A debug aid, not
/// semantics.
pub const POISON: i16 = -2;

/// The mathematical state of the machine.
#[verifier::ext_equal]
pub struct EmuView {
    /// The resolved program; position is address.
    pub instrs: Seq<VerbView>,
    /// The instruction pointer.
    pub ip: u16,
    /// Whether `halt` has executed.
    pub halted: bool,
    /// The 16 registers.
    pub regs: Seq<i16>,
    /// The 65536 memory cells.
    pub mem: Seq<i16>,
}

/// A diagnostic event, as the machine's mathematical state describes it.
#[verifier::ext_equal]
pub enum EventView {
    /// A range dump: the pointer after the pair, the inclusive bounds,
    /// and the cells between them at the moment of the dump.
    Range { at: u16, lo: u16, hi: u16, cells: Seq<i16> },
    /// A register dump: the pointer and the register file.
    Regs { at: u16, regs: Seq<i16> },
}

/// A diagnostic event carried out of a batch for the host to print.
/// Diagnostics are side-effect-only: they never mutate machine state.
#[derive(Debug, Clone, PartialEq, Eq)]
pub enum DbgEvent {
    /// A range dump.
    Range {
        /// The pointer after the pair executed.
        at: u16,
        /// The inclusive lower bound.
        lo: u16,
        /// The inclusive upper bound.
        hi: u16,
        /// The dumped cells, empty if the bounds cross.
        cells: Vec<i16>,
    },
    /// A register dump.
    Regs {
        /// The pointer at the dump.
        at: u16,
        /// The register file at the dump.
        regs: Vec<i16>,
    },
}

impl View for DbgEvent {
    type V = EventView;

    open spec fn view(&self) -> EventView {
        match self {
            DbgEvent::Range { at, lo, hi, cells } => EventView::Range {
                at: *at,
                lo: *lo,
                hi: *hi,
                cells: cells@,
            },
            DbgEvent::Regs { at, regs } => EventView::Regs { at: *at, regs: regs@ },
        }
    }
}

impl DeepView for DbgEvent {
    type V = EventView;

    open spec fn deep_view(&self) -> EventView {
        self.view()
    }
}

impl EmuView {
    /// Well-formedness: the register file and memory image have their
    /// fixed sizes, and every instruction is well-formed and resolved.
    pub open spec fn wf(self) -> bool {
        &&& self.regs.len() == 16
        &&& self.mem.len() == MEM_SIZE
        &&& forall|i: int|
            0 <= i < self.instrs.len() ==> (#[trigger] self.instrs[i]).wf()
                && self.instrs[i].is_resolved()
    }
}

/// The result of one step of the machine: the state after it, the
/// diagnostic event it emitted if any, the error it stopped on if any,
/// and whether it was a (possibly repeated) `halt`.
#[verifier::ext_equal]
pub struct StepSpec {
    /// The state after the step; unchanged on an error.
    pub post: EmuView,
    /// The diagnostic event the step emitted.
    pub event: Option<EventView>,
    /// The error the step stopped on.
    pub err: Option<ExecError>,
    /// Whether the step fetched `halt`.
    pub halt: bool,
}

/// The index of the register an operand names.
pub open spec fn reg_idx(o: OperandView) -> int {
    o.spec_reg().spec_id() as int
}

/// The value of the register an operand names.
pub open spec fn reg_of(s: EmuView, o: OperandView) -> i16 {
    s.regs[reg_idx(o)]
}

/// The value of a register-or-immediate source operand; an immediate is
/// reinterpreted as a signed 16-bit value.
pub open spec fn src_val(s: EmuView, o: OperandView) -> i16 {
    if o is Reg {
        reg_of(s, o)
    } else {
        o.spec_imm() as i16
    }
}

/// The state with one register changed.
pub open spec fn set_reg(s: EmuView, idx: int, v: i16) -> EmuView {
    EmuView { regs: s.regs.update(idx, v), ..s }
}

/// The state with one memory cell changed.
pub open spec fn set_mem(s: EmuView, addr: u16, v: i16) -> EmuView {
    EmuView { mem: s.mem.update(addr as int, v), ..s }
}

/// The state with the instruction pointer changed.
pub open spec fn set_ip(s: EmuView, ip: u16) -> EmuView {
    EmuView { ip, ..s }
}

/// The shared trailing increment: the pointer advances by one with
/// wraparound.
pub open spec fn adv(s: EmuView) -> EmuView {
    EmuView { ip: s.ip.wrapping_add(1), ..s }
}

/// A step that neither halts, errs, nor emits an event.
pub open spec fn step_to(post: EmuView) -> StepSpec {
    StepSpec { post, event: None, err: None, halt: false }
}

/// A step that stops on an error, leaving the state unchanged.
pub open spec fn step_err(s: EmuView, e: ExecError) -> StepSpec {
    StepSpec { post: s, event: None, err: Some(e), halt: false }
}

/// The state after a conditional jump: redirected to `target - 1` (the
/// trailing increment then lands on the target) if taken, unchanged if
/// not.
pub open spec fn jump_if(s: EmuView, o: OperandView, taken: bool) -> EmuView {
    if taken {
        set_ip(s, o.spec_imm().wrapping_sub(1))
    } else {
        s
    }
}

/// The move family's effect, by (destination, source) kind.
pub open spec fn mov_effect(s: EmuView, o1: OperandView, o2: OperandView) -> EmuView
    recommends
        crate::instr_repr::mov_sig(o1, o2),
{
    match (o1, o2) {
        (OperandView::Reg(_), OperandView::Imm(v)) => set_reg(s, reg_idx(o1), v as i16),
        (OperandView::Reg(_), OperandView::MemAtImm(a)) => set_reg(s, reg_idx(o1), s.mem[a as int]),
        (OperandView::MemAtImm(a), OperandView::Reg(_)) => set_mem(s, a, reg_of(s, o2)),
        (OperandView::Reg(_), OperandView::Reg(_)) => set_reg(s, reg_idx(o1), reg_of(s, o2)),
        (OperandView::Reg(_), OperandView::MemAtReg(r2)) => set_reg(
            s,
            reg_idx(o1),
            s.mem[(s.regs[r2.spec_id() as int] as u16) as int],
        ),
        (OperandView::MemAtReg(r1), OperandView::Reg(_)) => set_mem(
            s,
            s.regs[r1.spec_id() as int] as u16,
            reg_of(s, o2),
        ),
        _ => s,
    }
}

/// Shift left on the 16-bit pattern; the amount is the source's low 4
/// bits (reduction modulo the word width).
pub open spec fn shl_val(a: i16, amt: i16) -> i16 {
    (((a as u16) << ((amt as u16) % 16)) as i16)
}

/// Logical (zero-filling) shift right on the 16-bit pattern; the amount
/// is the source's low 4 bits.
pub open spec fn shr_val(a: i16, amt: i16) -> i16 {
    (((a as u16) >> ((amt as u16) % 16)) as i16)
}

/// Bitwise complement of a 16-bit value: on two's complement, flipping
/// every bit of `x` yields `-1 - x`, which never leaves the 16-bit range.
pub open spec fn not_val(x: i16) -> i16 {
    (-1 - x) as i16
}

/// `not_val` is the bitwise complement.
pub proof fn lemma_not_val(x: i16)
    by (bit_vector)
    ensures
        not_val(x) == !x,
{
}

/// One or zero, as a conditional-set instruction writes it.
pub open spec fn flag(b: bool) -> i16 {
    if b {
        1
    } else {
        0
    }
}

/// One fetch-decode-execute step of the machine.
pub open spec fn step_spec(s: EmuView) -> StepSpec
    recommends
        s.wf(),
{
    if s.ip as int >= s.instrs.len() {
        step_err(s, ExecError::UndefinedExecution)
    } else {
        let v = s.instrs[s.ip as int];
        match v {
            VerbView::Mov(o1, o2) => step_to(adv(mov_effect(s, o1, o2))),
            VerbView::Jmp(o) => step_to(adv(jump_if(s, o, true))),
            VerbView::Jz(o, r) => step_to(adv(jump_if(s, o, reg_of(s, r) == 0))),
            VerbView::Jnz(o, r) => step_to(adv(jump_if(s, o, reg_of(s, r) != 0))),
            VerbView::Jpos(o, r) => step_to(adv(jump_if(s, o, reg_of(s, r) > 0))),
            VerbView::Jposz(o, r) => step_to(adv(jump_if(s, o, reg_of(s, r) >= 0))),
            VerbView::Jneg(o, r) => step_to(adv(jump_if(s, o, reg_of(s, r) < 0))),
            VerbView::Jnegz(o, r) => step_to(adv(jump_if(s, o, reg_of(s, r) <= 0))),
            VerbView::Setz(d, r) => step_to(adv(set_reg(s, reg_idx(d), flag(reg_of(s, r) == 0)))),
            VerbView::Setnz(d, r) => step_to(adv(set_reg(s, reg_idx(d), flag(reg_of(s, r) != 0)))),
            VerbView::Setpos(d, r) => step_to(adv(set_reg(s, reg_idx(d), flag(reg_of(s, r) > 0)))),
            VerbView::Setposz(d, r) => step_to(
                adv(set_reg(s, reg_idx(d), flag(reg_of(s, r) >= 0))),
            ),
            VerbView::Setneg(d, r) => step_to(adv(set_reg(s, reg_idx(d), flag(reg_of(s, r) < 0)))),
            VerbView::Setnegz(d, r) => step_to(
                adv(set_reg(s, reg_idx(d), flag(reg_of(s, r) <= 0))),
            ),
            VerbView::Add(o1, o2) => step_to(
                adv(set_reg(s, reg_idx(o1), reg_of(s, o1).wrapping_add(src_val(s, o2)))),
            ),
            VerbView::Sub(o1, o2) => step_to(
                adv(set_reg(s, reg_idx(o1), reg_of(s, o1).wrapping_sub(src_val(s, o2)))),
            ),
            VerbView::And(o1, o2) => step_to(
                adv(set_reg(s, reg_idx(o1), reg_of(s, o1) & src_val(s, o2))),
            ),
            VerbView::Or(o1, o2) => step_to(
                adv(set_reg(s, reg_idx(o1), reg_of(s, o1) | src_val(s, o2))),
            ),
            VerbView::Not(o) => step_to(adv(set_reg(s, reg_idx(o), not_val(reg_of(s, o))))),
            VerbView::Shl(o1, o2) => step_to(
                adv(set_reg(s, reg_idx(o1), shl_val(reg_of(s, o1), src_val(s, o2)))),
            ),
            VerbView::Shr(o1, o2) => step_to(
                adv(set_reg(s, reg_idx(o1), shr_val(reg_of(s, o1), src_val(s, o2)))),
            ),
            VerbView::Dbg(o1) => {
                let at = s.ip.wrapping_add(1);
                if at as int >= s.instrs.len() {
                    step_err(s, ExecError::MalformedDiagnosticPair)
                } else {
                    match s.instrs[at as int] {
                        VerbView::Dbg(o2) => {
                            let lo = o1.spec_imm();
                            let hi = o2.spec_imm();
                            let cells = if lo <= hi {
                                s.mem.subrange(lo as int, hi as int + 1)
                            } else {
                                Seq::empty()
                            };
                            StepSpec {
                                post: adv(set_ip(s, at)),
                                event: Some(EventView::Range { at, lo, hi, cells }),
                                err: None,
                                halt: false,
                            }
                        },
                        _ => step_err(s, ExecError::MalformedDiagnosticPair),
                    }
                }
            },
            VerbView::DbgRegs => StepSpec {
                post: adv(s),
                event: Some(EventView::Regs { at: s.ip, regs: s.regs }),
                err: None,
                halt: false,
            },
            VerbView::Nop => step_to(adv(s)),
            VerbView::Halt => StepSpec {
                post: EmuView { halted: true, ..s },
                event: None,
                err: None,
                halt: true,
            },
            VerbView::Call(o) => {
                let rsp = s.regs[0] as u16;
                let pushed = set_mem(s, rsp, s.ip as i16);
                let bumped = set_reg(pushed, 0, s.regs[0].wrapping_add(1));
                step_to(adv(jump_if(bumped, o, true)))
            },
            VerbView::Ret => {
                let new_r0 = s.regs[0].wrapping_sub(1);
                let rsp = new_r0 as u16;
                step_to(adv(set_ip(set_reg(s, 0, new_r0), s.mem[rsp as int] as u16)))
            },
            VerbView::Push(o) => {
                let rsp = s.regs[0] as u16;
                let pushed = set_mem(s, rsp, reg_of(s, o));
                step_to(adv(set_reg(pushed, 0, s.regs[0].wrapping_add(1))))
            },
            VerbView::Pop(o) => {
                let new_r0 = s.regs[0].wrapping_sub(1);
                let rsp = new_r0 as u16;
                let popped = set_reg(s, 0, new_r0);
                step_to(adv(set_reg(popped, reg_idx(o), s.mem[rsp as int])))
            },
            VerbView::Loadf(o1, o2) => {
                let addr = (s.regs[0] as u16).wrapping_sub(o2.spec_imm());
                step_to(adv(set_reg(s, reg_idx(o1), s.mem[addr as int])))
            },
            VerbView::Storef(o1, o2) => {
                let addr = (s.regs[0] as u16).wrapping_sub(o2.spec_imm());
                step_to(adv(set_mem(s, addr, reg_of(s, o1))))
            },
        }
    }
}

/// The result of running a bounded batch: the final state, the diagnostic
/// events in order, and the error the run stopped on if any.
#[verifier::ext_equal]
pub struct RunSpec {
    /// The state after the batch.
    pub post: EmuView,
    /// The diagnostic events, in execution order.
    pub events: Seq<EventView>,
    /// The error the batch stopped on, if any.
    pub err: Option<ExecError>,
}

/// The events of one step, as a sequence of zero or one.
pub open spec fn step_events(st: StepSpec) -> Seq<EventView> {
    match st.event {
        Some(e) => seq![e],
        None => Seq::empty(),
    }
}

/// Running at most `n` steps: stop early on an error or on `halt`.
pub open spec fn run_spec(s: EmuView, n: nat) -> RunSpec
    recommends
        s.wf(),
    decreases n,
{
    if n == 0 {
        RunSpec { post: s, events: Seq::empty(), err: None }
    } else {
        let st = step_spec(s);
        if st.err is Some {
            RunSpec { post: st.post, events: Seq::empty(), err: st.err }
        } else if st.halt {
            RunSpec { post: st.post, events: Seq::empty(), err: None }
        } else {
            let rest = run_spec(st.post, (n - 1) as nat);
            RunSpec { post: rest.post, events: step_events(st) + rest.events, err: rest.err }
        }
    }
}


/// Conditional-jump correctness: for every predicate, every tested
/// register and every state, the jump redirects the pointer to its target
/// exactly when the predicate holds on the tested register, and touches
/// neither registers, memory nor the halted flag.
pub proof fn lemma_conditional_jump(s: EmuView, t: u16, r: Reg)
    requires
        s.wf(),
        (s.ip as int) < s.instrs.len(),
    ensures
        s.instrs[s.ip as int] == VerbView::Jz(OperandView::Imm(t), OperandView::Reg(r))
            ==> step_spec(s).post.ip == (if s.regs[r.spec_id() as int] == 0 {
            t
        } else {
            s.ip.wrapping_add(1)
        }),
        s.instrs[s.ip as int] == VerbView::Jnz(OperandView::Imm(t), OperandView::Reg(r))
            ==> step_spec(s).post.ip == (if s.regs[r.spec_id() as int] != 0 {
            t
        } else {
            s.ip.wrapping_add(1)
        }),
        s.instrs[s.ip as int] == VerbView::Jpos(OperandView::Imm(t), OperandView::Reg(r))
            ==> step_spec(s).post.ip == (if s.regs[r.spec_id() as int] > 0 {
            t
        } else {
            s.ip.wrapping_add(1)
        }),
        s.instrs[s.ip as int] == VerbView::Jposz(OperandView::Imm(t), OperandView::Reg(r))
            ==> step_spec(s).post.ip == (if s.regs[r.spec_id() as int] >= 0 {
            t
        } else {
            s.ip.wrapping_add(1)
        }),
        s.instrs[s.ip as int] == VerbView::Jneg(OperandView::Imm(t), OperandView::Reg(r))
            ==> step_spec(s).post.ip == (if s.regs[r.spec_id() as int] < 0 {
            t
        } else {
            s.ip.wrapping_add(1)
        }),
        s.instrs[s.ip as int] == VerbView::Jnegz(OperandView::Imm(t), OperandView::Reg(r))
            ==> step_spec(s).post.ip == (if s.regs[r.spec_id() as int] <= 0 {
            t
        } else {
            s.ip.wrapping_add(1)
        }),
        (s.instrs[s.ip as int] matches VerbView::Jz(..) || s.instrs[s.ip as int] matches
            VerbView::Jnz(..) || s.instrs[s.ip as int] matches VerbView::Jpos(..)
            || s.instrs[s.ip as int] matches VerbView::Jposz(..) || s.instrs[s.ip as int] matches
            VerbView::Jneg(..) || s.instrs[s.ip as int] matches VerbView::Jnegz(..)) ==> {
            &&& step_spec(s).post.regs == s.regs
            &&& step_spec(s).post.mem == s.mem
            &&& step_spec(s).post.halted == s.halted
        },
{
}

/// Conditional-set correctness: for every predicate, the set writes
/// exactly one when the predicate holds on the source register and
/// exactly zero when it does not, redirecting nothing.
pub proof fn lemma_conditional_set(s: EmuView, d: Reg, r: Reg)
    requires
        s.wf(),
        (s.ip as int) < s.instrs.len(),
    ensures
        s.instrs[s.ip as int] == VerbView::Setz(OperandView::Reg(d), OperandView::Reg(r))
            ==> step_spec(s).post.regs == s.regs.update(
            d.spec_id() as int,
            flag(s.regs[r.spec_id() as int] == 0),
        ),
        s.instrs[s.ip as int] == VerbView::Setnz(OperandView::Reg(d), OperandView::Reg(r))
            ==> step_spec(s).post.regs == s.regs.update(
            d.spec_id() as int,
            flag(s.regs[r.spec_id() as int] != 0),
        ),
        s.instrs[s.ip as int] == VerbView::Setpos(OperandView::Reg(d), OperandView::Reg(r))
            ==> step_spec(s).post.regs == s.regs.update(
            d.spec_id() as int,
            flag(s.regs[r.spec_id() as int] > 0),
        ),
        s.instrs[s.ip as int] == VerbView::Setposz(OperandView::Reg(d), OperandView::Reg(r))
            ==> step_spec(s).post.regs == s.regs.update(
            d.spec_id() as int,
            flag(s.regs[r.spec_id() as int] >= 0),
        ),
        s.instrs[s.ip as int] == VerbView::Setneg(OperandView::Reg(d), OperandView::Reg(r))
            ==> step_spec(s).post.regs == s.regs.update(
            d.spec_id() as int,
            flag(s.regs[r.spec_id() as int] < 0),
        ),
        s.instrs[s.ip as int] == VerbView::Setnegz(OperandView::Reg(d), OperandView::Reg(r))
            ==> step_spec(s).post.regs == s.regs.update(
            d.spec_id() as int,
            flag(s.regs[r.spec_id() as int] <= 0),
        ),
        (s.instrs[s.ip as int] matches VerbView::Setz(..) || s.instrs[s.ip as int] matches
            VerbView::Setnz(..) || s.instrs[s.ip as int] matches VerbView::Setpos(..)
            || s.instrs[s.ip as int] matches VerbView::Setposz(..) || s.instrs[s.ip as int]
            matches VerbView::Setneg(..) || s.instrs[s.ip as int] matches VerbView::Setnegz(..))
            ==> {
            &&& step_spec(s).post.ip == s.ip.wrapping_add(1)
            &&& step_spec(s).post.mem == s.mem
            &&& step_spec(s).post.halted == s.halted
        },
{
}

/// What one `call` does: the current pointer is stored at the cell the
/// stack register addresses, the stack register grows by exactly one, and
/// execution lands exactly on the target.
pub proof fn lemma_call_effect(s: EmuView, t: u16)
    requires
        s.wf(),
        (s.ip as int) < s.instrs.len(),
        s.instrs[s.ip as int] == VerbView::Call(OperandView::Imm(t)),
    ensures
        step_spec(s).post.ip == t,
        step_spec(s).post.regs =~= s.regs.update(0, s.regs[0].wrapping_add(1)),
        step_spec(s).post.mem =~= s.mem.update((s.regs[0] as u16) as int, s.ip as i16),
        step_spec(s).err is None,
{
}

/// What one `ret` does: the stack register shrinks by exactly one,
/// memory is untouched, and the pointer lands one past the stored
/// address.
pub proof fn lemma_ret_effect(s: EmuView)
    requires
        s.wf(),
        (s.ip as int) < s.instrs.len(),
        s.instrs[s.ip as int] is Ret,
    ensures
        step_spec(s).post.regs =~= s.regs.update(0, s.regs[0].wrapping_sub(1)),
        step_spec(s).post.mem == s.mem,
        step_spec(s).post.ip == (s.mem[(s.regs[0].wrapping_sub(1) as u16) as int]
            as u16).wrapping_add(1),
        step_spec(s).err is None,
{
}

/// Call/return symmetry: after a `call`, the stack register has grown by
/// exactly one and the pointer is at the callee; after the matching
/// `ret`, the stack register is back to its pre-call value and execution
/// resumes at the instruction immediately following the call site.
pub proof fn lemma_call_ret_symmetry(s: EmuView, t: u16)
    requires
        s.wf(),
        (s.ip as int) < s.instrs.len(),
        s.instrs[s.ip as int] == VerbView::Call(OperandView::Imm(t)),
        (t as int) < s.instrs.len(),
        s.instrs[t as int] is Ret,
    ensures
        step_spec(s).post.regs[0] == s.regs[0].wrapping_add(1),
        step_spec(s).post.ip == t,
        step_spec(step_spec(s).post).post.regs[0] == s.regs[0],
        step_spec(step_spec(s).post).post.ip == s.ip.wrapping_add(1),
{
    let s1 = step_spec(s).post;
    lemma_call_effect(s, t);
    lemma_ret_effect(s1);
    assert(s1.regs[0] == s.regs[0].wrapping_add(1));
    assert(s1.regs[0].wrapping_sub(1) == s.regs[0]);
    let rsp = s.regs[0] as u16;
    assert(s1.regs[0].wrapping_sub(1) as u16 == rsp);
    assert(s1.mem[rsp as int] == s.ip as i16);
    let ip0 = s.ip;
    assert((ip0 as i16) as u16 == ip0) by (bit_vector);
}

/// What one exec step reported.
pub enum StepOutcome {
    /// The instruction executed without an event.
    Ran,
    /// The machine is halted (a first or repeated `halt`).
    Halted,
    /// The instruction executed and emitted a diagnostic event.
    Event(DbgEvent),
    /// The step failed; the machine state is unchanged.
    Fail(ExecError),
}

/// The dispatch class of an instruction: one entry per execution-engine
/// family.
fn opcode_kind(v: &Verb) -> (k: u8)
    ensures
        k <= 15,
        (k == 0) <==> v@ is Mov,
        (k == 1) <==> v@ is Jmp,
        (k == 2) <==> (v@ is Jz || v@ is Jnz || v@ is Jpos || v@ is Jposz || v@ is Jneg
            || v@ is Jnegz),
        (k == 3) <==> (v@ is Setz || v@ is Setnz || v@ is Setpos || v@ is Setposz || v@ is Setneg
            || v@ is Setnegz),
        (k == 4) <==> (v@ is Add || v@ is Sub || v@ is And || v@ is Or || v@ is Shl || v@ is Shr),
        (k == 5) <==> v@ is Not,
        (k == 6) <==> v@ is Dbg,
        (k == 7) <==> v@ is DbgRegs,
        (k == 8) <==> v@ is Nop,
        (k == 9) <==> v@ is Halt,
        (k == 10) <==> v@ is Call,
        (k == 11) <==> v@ is Ret,
        (k == 12) <==> v@ is Push,
        (k == 13) <==> v@ is Pop,
        (k == 14) <==> v@ is Loadf,
        (k == 15) <==> v@ is Storef,
{
    match v {
        Verb::Mov(..) => 0,
        Verb::Jmp(..) => 1,
        Verb::Jz(..) => 2,
        Verb::Jnz(..) => 2,
        Verb::Jpos(..) => 2,
        Verb::Jposz(..) => 2,
        Verb::Jneg(..) => 2,
        Verb::Jnegz(..) => 2,
        Verb::Setz(..) => 3,
        Verb::Setnz(..) => 3,
        Verb::Setpos(..) => 3,
        Verb::Setposz(..) => 3,
        Verb::Setneg(..) => 3,
        Verb::Setnegz(..) => 3,
        Verb::Add(..) => 4,
        Verb::Sub(..) => 4,
        Verb::And(..) => 4,
        Verb::Or(..) => 4,
        Verb::Shl(..) => 4,
        Verb::Shr(..) => 4,
        Verb::Not(..) => 5,
        Verb::Dbg(..) => 6,
        Verb::DbgRegs => 7,
        Verb::Nop => 8,
        Verb::Halt => 9,
        Verb::Call(..) => 10,
        Verb::Ret => 11,
        Verb::Push(..) => 12,
        Verb::Pop(..) => 13,
        Verb::Loadf(..) => 14,
        Verb::Storef(..) => 15,
    }
}

/// The emulator: a resolved program with exclusive ownership of its
/// register file and memory image.
pub struct CpuEmu {
    instrs: Vec<Verb>,
    ip: u16,
    halted: bool,
    regs: Vec<i16>,
    mem: Vec<i16>,
}

impl View for CpuEmu {
    type V = EmuView;

    closed spec fn view(&self) -> EmuView {
        EmuView {
            instrs: self.instrs.deep_view(),
            ip: self.ip,
            halted: self.halted,
            regs: self.regs@,
            mem: self.mem@,
        }
    }
}

impl CpuEmu {
    /// Builds a machine over a resolved program: pointer at zero, not
    /// halted, registers and memory filled with the poison value.
    pub fn new(instrs: Vec<Verb>) -> (r: CpuEmu)
        requires
            forall|i: int|
                0 <= i < instrs.deep_view().len() ==> (#[trigger] instrs.deep_view()[i]).wf()
                    && instrs.deep_view()[i].is_resolved(),
        ensures
            r@.wf(),
            r@.instrs == instrs.deep_view(),
            r@.ip == 0,
            !r@.halted,
            r@.regs =~= Seq::new(16, |i: int| POISON),
            r@.mem =~= Seq::new(MEM_SIZE as nat, |i: int| POISON),
    {
        let mut regs: Vec<i16> = Vec::new();
        for i in 0..16
            invariant
                regs@ =~= Seq::new(i as nat, |j: int| POISON),
        {
            regs.push(POISON);
            proof {
                assert(regs@ =~= Seq::new((i + 1) as nat, |j: int| POISON));
            }
        }
        let mut mem: Vec<i16> = Vec::new();
        for i in 0..MEM_SIZE
            invariant
                mem@ =~= Seq::new(i as nat, |j: int| POISON),
        {
            mem.push(POISON);
            proof {
                assert(mem@ =~= Seq::new((i + 1) as nat, |j: int| POISON));
            }
        }
        CpuEmu { instrs, ip: 0, halted: false, regs, mem }
    }

    /// A read-only view of the framebuffer cells, addresses [0, 1200).
    /// What it holds depends on memory alone, never on the registers.
    pub fn get_gfx_buffer(&self) -> (r: &[i16])
        requires
            self@.wf(),
        ensures
            r@ == self@.mem.subrange(0, GFX_SIZE as int),
    {
        slice_subrange(self.mem.as_slice(), 0, GFX_SIZE)
    }

    /// The LED output cell.
    pub fn get_led_output(&self) -> (r: i16)
        requires
            self@.wf(),
        ensures
            r == self@.mem[LED_ADDR as int],
    {
        self.mem[LED_ADDR]
    }

    /// Writes the switch-state input cell. Only that cell changes: the
    /// framebuffer, every other cell, the registers, the pointer and the
    /// halted flag stay as they were.
    pub fn set_switch_states(&mut self, new_states: i16)
        requires
            old(self)@.wf(),
        ensures
            final(self)@.wf(),
            final(self)@ == set_mem(old(self)@, SWITCH_ADDR as u16, new_states),
    {
        self.mem.set(SWITCH_ADDR, new_states);
        proof {
            assert(self@ =~= set_mem(old(self)@, SWITCH_ADDR as u16, new_states));
        }
    }

    /// Writes the button-state input cell. Only that cell changes.
    pub fn set_button_states(&mut self, new_states: i16)
        requires
            old(self)@.wf(),
        ensures
            final(self)@.wf(),
            final(self)@ == set_mem(old(self)@, BUTTON_ADDR as u16, new_states),
    {
        self.mem.set(BUTTON_ADDR, new_states);
        proof {
            assert(self@ =~= set_mem(old(self)@, BUTTON_ADDR as u16, new_states));
        }
    }

    /// Executes one step, as `step_spec` describes it.
    pub fn step(&mut self) -> (r: StepOutcome)
        requires
            old(self)@.wf(),
        ensures
            final(self)@.wf(),
            final(self)@ == step_spec(old(self)@).post,
            match r {
                StepOutcome::Fail(e) => step_spec(old(self)@).err == Some(e),
                StepOutcome::Halted => step_spec(old(self)@).err is None && step_spec(
                    old(self)@,
                ).halt,
                StepOutcome::Event(ev) => step_spec(old(self)@).err is None && !step_spec(
                    old(self)@,
                ).halt && step_spec(old(self)@).event == Some(ev@),
                StepOutcome::Ran => step_spec(old(self)@).err is None && !step_spec(
                    old(self)@,
                ).halt && step_spec(old(self)@).event is None,
            },
    {
        if self.ip as usize >= self.instrs.len() {
            return StepOutcome::Fail(ExecError::UndefinedExecution);
        }
        let idx = self.ip as usize;
        let kind = opcode_kind(&self.instrs[idx]);
        match kind {
            0 => self.step_mov(),
            1 => self.step_jmp(),
            2 => self.step_cond_jump(),
            3 => self.step_cond_set(),
            4 => self.step_arith(),
            5 => self.step_not(),
            6 => self.step_dbg_range(),
            7 => self.step_dbg_regs(),
            8 => self.step_nop(),
            9 => self.step_halt(),
            10 => self.step_call(),
            11 => self.step_ret(),
            12 => self.step_push(),
            13 => self.step_pop(),
            14 => self.step_loadf(),
            _ => self.step_storef(),
        }
    }

    /// The move family.
    fn step_mov(&mut self) -> (r: StepOutcome)
        requires
            old(self)@.wf(),
            (old(self)@.ip as int) < old(self)@.instrs.len(),
            old(self)@.instrs[old(self)@.ip as int] is Mov,
        ensures
            final(self)@.wf(),
            final(self)@ == step_spec(old(self)@).post,
            r == StepOutcome::Ran,
            step_spec(old(self)@).err is None,
            !step_spec(old(self)@).halt,
            step_spec(old(self)@).event is None,
    {
        let ghost pre = self@;
        let idx = self.ip as usize;
        match &self.instrs[idx] {
            Verb::Mov(o1, o2) => {
                match (o1, o2) {
                    (Operand::Reg(reg), Operand::Imm(imm)) => {
                        let id = reg.to_id();
                        #[verifier::truncate]
                        let v = *imm as i16;
                        self.regs.set(id as usize, v);
                    },
                    (Operand::Reg(reg), Operand::MemAtImm(imm)) => {
                        let id = reg.to_id();
                        let v = self.mem[*imm as usize];
                        self.regs.set(id as usize, v);
                    },
                    (Operand::MemAtImm(imm), Operand::Reg(reg)) => {
                        let v = self.regs[reg.to_id() as usize];
                        self.mem.set(*imm as usize, v);
                    },
                    (Operand::Reg(r1), Operand::Reg(r2)) => {
                        let v = self.regs[r2.to_id() as usize];
                        self.regs.set(r1.to_id() as usize, v);
                    },
                    (Operand::Reg(r1), Operand::MemAtReg(r2)) => {
                        #[verifier::truncate]
                        let addr = self.regs[r2.to_id() as usize] as u16;
                        let v = self.mem[addr as usize];
                        self.regs.set(r1.to_id() as usize, v);
                    },
                    (Operand::MemAtReg(r1), Operand::Reg(r2)) => {
                        #[verifier::truncate]
                        let addr = self.regs[r1.to_id() as usize] as u16;
                        let v = self.regs[r2.to_id() as usize];
                        self.mem.set(addr as usize, v);
                    },
                    _ => {
                        proof {
                            assert(false);
                        }
                    },
                }
            },
            _ => vstd::pervasive::unreached(),
        }
        self.ip = self.ip.wrapping_add(1);
        proof {
            assert(self@ =~= step_spec(pre).post);
        }
        StepOutcome::Ran
    }

    /// Unconditional jump.
    fn step_jmp(&mut self) -> (r: StepOutcome)
        requires
            old(self)@.wf(),
            (old(self)@.ip as int) < old(self)@.instrs.len(),
            old(self)@.instrs[old(self)@.ip as int] is Jmp,
        ensures
            final(self)@.wf(),
            final(self)@ == step_spec(old(self)@).post,
            r == StepOutcome::Ran,
            step_spec(old(self)@).err is None,
            !step_spec(old(self)@).halt,
            step_spec(old(self)@).event is None,
    {
        let ghost pre = self@;
        let idx = self.ip as usize;
        let target = match &self.instrs[idx] {
            Verb::Jmp(o) => o.to_imm(),
            _ => vstd::pervasive::unreached(),
        };
        self.ip = target.wrapping_sub(1);
        self.ip = self.ip.wrapping_add(1);
        proof {
            assert(self@ =~= step_spec(pre).post);
        }
        StepOutcome::Ran
    }

    /// The six conditional jumps.
    fn step_cond_jump(&mut self) -> (r: StepOutcome)
        requires
            old(self)@.wf(),
            (old(self)@.ip as int) < old(self)@.instrs.len(),
            ({
                let v = old(self)@.instrs[old(self)@.ip as int];
                v is Jz || v is Jnz || v is Jpos || v is Jposz || v is Jneg || v is Jnegz
            }),
        ensures
            final(self)@.wf(),
            final(self)@ == step_spec(old(self)@).post,
            r == StepOutcome::Ran,
            step_spec(old(self)@).err is None,
            !step_spec(old(self)@).halt,
            step_spec(old(self)@).event is None,
    {
        let ghost pre = self@;
        let idx = self.ip as usize;
        let (target, taken) = match &self.instrs[idx] {
            Verb::Jz(o, r) => (o.to_imm(), self.regs[r.to_reg().to_id() as usize] == 0),
            Verb::Jnz(o, r) => (o.to_imm(), self.regs[r.to_reg().to_id() as usize] != 0),
            Verb::Jpos(o, r) => (o.to_imm(), self.regs[r.to_reg().to_id() as usize] > 0),
            Verb::Jposz(o, r) => (o.to_imm(), self.regs[r.to_reg().to_id() as usize] >= 0),
            Verb::Jneg(o, r) => (o.to_imm(), self.regs[r.to_reg().to_id() as usize] < 0),
            Verb::Jnegz(o, r) => (o.to_imm(), self.regs[r.to_reg().to_id() as usize] <= 0),
            _ => vstd::pervasive::unreached(),
        };
        if taken {
            self.ip = target.wrapping_sub(1);
        }
        self.ip = self.ip.wrapping_add(1);
        proof {
            assert(self@ =~= step_spec(pre).post);
        }
        StepOutcome::Ran
    }

    /// The six conditional sets.
    fn step_cond_set(&mut self) -> (r: StepOutcome)
        requires
            old(self)@.wf(),
            (old(self)@.ip as int) < old(self)@.instrs.len(),
            ({
                let v = old(self)@.instrs[old(self)@.ip as int];
                v is Setz || v is Setnz || v is Setpos || v is Setposz || v is Setneg
                    || v is Setnegz
            }),
        ensures
            final(self)@.wf(),
            final(self)@ == step_spec(old(self)@).post,
            r == StepOutcome::Ran,
            step_spec(old(self)@).err is None,
            !step_spec(old(self)@).halt,
            step_spec(old(self)@).event is None,
    {
        let ghost pre = self@;
        let idx = self.ip as usize;
        let (id, holds) = match &self.instrs[idx] {
            Verb::Setz(d, r) => (d.to_reg().to_id(), self.regs[r.to_reg().to_id() as usize] == 0),
            Verb::Setnz(d, r) => (d.to_reg().to_id(), self.regs[r.to_reg().to_id() as usize] != 0),
            Verb::Setpos(d, r) => (d.to_reg().to_id(), self.regs[r.to_reg().to_id() as usize] > 0),
            Verb::Setposz(d, r) => (
                d.to_reg().to_id(),
                self.regs[r.to_reg().to_id() as usize] >= 0,
            ),
            Verb::Setneg(d, r) => (d.to_reg().to_id(), self.regs[r.to_reg().to_id() as usize] < 0),
            Verb::Setnegz(d, r) => (
                d.to_reg().to_id(),
                self.regs[r.to_reg().to_id() as usize] <= 0,
            ),
            _ => vstd::pervasive::unreached(),
        };
        self.regs.set(id as usize, if holds { 1 } else { 0 });
        self.ip = self.ip.wrapping_add(1);
        proof {
            assert(self@ =~= step_spec(pre).post);
        }
        StepOutcome::Ran
    }

    /// The arithmetic family: add, sub, and, or, shl, shr.
    fn step_arith(&mut self) -> (r: StepOutcome)
        requires
            old(self)@.wf(),
            (old(self)@.ip as int) < old(self)@.instrs.len(),
            ({
                let v = old(self)@.instrs[old(self)@.ip as int];
                v is Add || v is Sub || v is And || v is Or || v is Shl || v is Shr
            }),
        ensures
            final(self)@.wf(),
            final(self)@ == step_spec(old(self)@).post,
            r == StepOutcome::Ran,
            step_spec(old(self)@).err is None,
            !step_spec(old(self)@).halt,
            step_spec(old(self)@).event is None,
    {
        let ghost pre = self@;
        let idx = self.ip as usize;
        let (id, b, op): (u8, i16, u8) = match &self.instrs[idx] {
            Verb::Add(o1, o2) => (o1.to_reg().to_id(), self.arith_src(o2), 0),
            Verb::Sub(o1, o2) => (o1.to_reg().to_id(), self.arith_src(o2), 1),
            Verb::And(o1, o2) => (o1.to_reg().to_id(), self.arith_src(o2), 2),
            Verb::Or(o1, o2) => (o1.to_reg().to_id(), self.arith_src(o2), 3),
            Verb::Shl(o1, o2) => (o1.to_reg().to_id(), self.arith_src(o2), 4),
            Verb::Shr(o1, o2) => (o1.to_reg().to_id(), self.arith_src(o2), 5),
            _ => vstd::pervasive::unreached(),
        };
        let a = self.regs[id as usize];
        let v: i16 = if op == 0 {
            a.wrapping_add(b)
        } else if op == 1 {
            a.wrapping_sub(b)
        } else if op == 2 {
            a & b
        } else if op == 3 {
            a | b
        } else if op == 4 {
            #[verifier::truncate]
            let pat = a as u16;
            #[verifier::truncate]
            let sh = (b as u16) % 16;
            #[verifier::truncate]
            let out = (pat << sh) as i16;
            out
        } else {
            #[verifier::truncate]
            let pat = a as u16;
            #[verifier::truncate]
            let sh = (b as u16) % 16;
            #[verifier::truncate]
            let out = (pat >> sh) as i16;
            out
        };
        self.regs.set(id as usize, v);
        self.ip = self.ip.wrapping_add(1);
        proof {
            assert(self@ =~= step_spec(pre).post);
        }
        StepOutcome::Ran
    }

    /// The value of a register-or-immediate source operand.
    fn arith_src(&self, o: &Operand) -> (r: i16)
        requires
            self@.wf(),
            o@ is Reg || o@ is Imm,
        ensures
            r == src_val(self@, o@),
    {
        match o {
            Operand::Reg(r2) => self.regs[r2.to_id() as usize],
            _ => {
                #[verifier::truncate]
                let v = o.to_imm() as i16;
                v
            },
        }
    }

    /// Bitwise complement.
    fn step_not(&mut self) -> (r: StepOutcome)
        requires
            old(self)@.wf(),
            (old(self)@.ip as int) < old(self)@.instrs.len(),
            old(self)@.instrs[old(self)@.ip as int] is Not,
        ensures
            final(self)@.wf(),
            final(self)@ == step_spec(old(self)@).post,
            r == StepOutcome::Ran,
            step_spec(old(self)@).err is None,
            !step_spec(old(self)@).halt,
            step_spec(old(self)@).event is None,
    {
        let ghost pre = self@;
        let idx = self.ip as usize;
        let id = match &self.instrs[idx] {
            Verb::Not(o) => o.to_reg().to_id(),
            _ => vstd::pervasive::unreached(),
        };
        let v0 = self.regs[id as usize];
        let v: i16 = -1 - v0;
        self.regs.set(id as usize, v);
        self.ip = self.ip.wrapping_add(1);
        proof {
            assert(self@ =~= step_spec(pre).post);
        }
        StepOutcome::Ran
    }

    /// The range-dump pair: the follow-up instruction must be a second
    /// range dump carrying the upper bound.
    fn step_dbg_range(&mut self) -> (r: StepOutcome)
        requires
            old(self)@.wf(),
            (old(self)@.ip as int) < old(self)@.instrs.len(),
            old(self)@.instrs[old(self)@.ip as int] is Dbg,
        ensures
            final(self)@.wf(),
            final(self)@ == step_spec(old(self)@).post,
            !step_spec(old(self)@).halt,
            match r {
                StepOutcome::Fail(e) => step_spec(old(self)@).err == Some(e),
                StepOutcome::Event(ev) => step_spec(old(self)@).err is None && step_spec(
                    old(self)@,
                ).event == Some(ev@),
                _ => false,
            },
    {
        let ghost pre = self@;
        let idx = self.ip as usize;
        let lo = match &self.instrs[idx] {
            Verb::Dbg(o1) => o1.to_imm(),
            _ => vstd::pervasive::unreached(),
        };
        let at = self.ip.wrapping_add(1);
        if at as usize >= self.instrs.len() {
            return StepOutcome::Fail(ExecError::MalformedDiagnosticPair);
        }
        let hi = match &self.instrs[at as usize] {
            Verb::Dbg(o2) => o2.to_imm(),
            _ => {
                return StepOutcome::Fail(ExecError::MalformedDiagnosticPair);
            },
        };
        let mut cells: Vec<i16> = Vec::new();
        let mut i = lo as usize;
        while i <= hi as usize && lo <= hi
            invariant
                lo <= hi ==> lo as int <= i as int <= hi as int + 1,
                lo > hi ==> i == lo,
                self@.mem.len() == MEM_SIZE,
                cells@ =~= if lo <= hi {
                    self@.mem.subrange(lo as int, i as int)
                } else {
                    Seq::empty()
                },
            decreases hi as int + 1 - i as int,
        {
            cells.push(self.mem[i]);
            proof {
                assert(cells@ =~= self@.mem.subrange(lo as int, i + 1));
            }
            i = i + 1;
        }
        self.ip = at;
        self.ip = self.ip.wrapping_add(1);
        let ev = DbgEvent::Range { at, lo, hi, cells };
        proof {
            assert(self@ =~= step_spec(pre).post);
            assert(step_spec(pre).event == Some(ev@));
        }
        StepOutcome::Event(ev)
    }

    /// The register dump.
    fn step_dbg_regs(&mut self) -> (r: StepOutcome)
        requires
            old(self)@.wf(),
            (old(self)@.ip as int) < old(self)@.instrs.len(),
            old(self)@.instrs[old(self)@.ip as int] is DbgRegs,
        ensures
            final(self)@.wf(),
            final(self)@ == step_spec(old(self)@).post,
            step_spec(old(self)@).err is None,
            !step_spec(old(self)@).halt,
            match r {
                StepOutcome::Event(ev) => step_spec(old(self)@).event == Some(ev@),
                _ => false,
            },
    {
        let ghost pre = self@;
        let mut regs_copy: Vec<i16> = Vec::new();
        let mut i: usize = 0;
        while i < 16
            invariant
                i <= 16,
                self@.regs.len() == 16,
                regs_copy@ =~= self@.regs.subrange(0, i as int),
            decreases 16 - i,
        {
            regs_copy.push(self.regs[i]);
            proof {
                assert(regs_copy@ =~= self@.regs.subrange(0, i + 1));
            }
            i = i + 1;
        }
        let ev = DbgEvent::Regs { at: self.ip, regs: regs_copy };
        self.ip = self.ip.wrapping_add(1);
        proof {
            assert(pre.regs.subrange(0, 16) =~= pre.regs);
            assert(self@ =~= step_spec(pre).post);
            assert(step_spec(pre).event == Some(ev@));
        }
        StepOutcome::Event(ev)
    }

    /// No operation.
    fn step_nop(&mut self) -> (r: StepOutcome)
        requires
            old(self)@.wf(),
            (old(self)@.ip as int) < old(self)@.instrs.len(),
            old(self)@.instrs[old(self)@.ip as int] is Nop,
        ensures
            final(self)@.wf(),
            final(self)@ == step_spec(old(self)@).post,
            r == StepOutcome::Ran,
            step_spec(old(self)@).err is None,
            !step_spec(old(self)@).halt,
            step_spec(old(self)@).event is None,
    {
        let ghost pre = self@;
        self.ip = self.ip.wrapping_add(1);
        proof {
            assert(self@ =~= step_spec(pre).post);
        }
        StepOutcome::Ran
    }

    /// Halt: the first execution flips the flag; later fetches return
    /// immediately. The pointer does not advance.
    fn step_halt(&mut self) -> (r: StepOutcome)
        requires
            old(self)@.wf(),
            (old(self)@.ip as int) < old(self)@.instrs.len(),
            old(self)@.instrs[old(self)@.ip as int] is Halt,
        ensures
            final(self)@.wf(),
            final(self)@ == step_spec(old(self)@).post,
            r == StepOutcome::Halted,
            step_spec(old(self)@).err is None,
            step_spec(old(self)@).halt,
    {
        let ghost pre = self@;
        if !self.halted {
            self.halted = true;
        }
        proof {
            assert(self@ =~= step_spec(pre).post);
        }
        StepOutcome::Halted
    }

    /// Call: store the pointer at the stack cell, bump the stack
    /// register, and redirect.
    fn step_call(&mut self) -> (r: StepOutcome)
        requires
            old(self)@.wf(),
            (old(self)@.ip as int) < old(self)@.instrs.len(),
            old(self)@.instrs[old(self)@.ip as int] is Call,
        ensures
            final(self)@.wf(),
            final(self)@ == step_spec(old(self)@).post,
            r == StepOutcome::Ran,
            step_spec(old(self)@).err is None,
            !step_spec(old(self)@).halt,
            step_spec(old(self)@).event is None,
    {
        let ghost pre = self@;
        let idx = self.ip as usize;
        let target = match &self.instrs[idx] {
            Verb::Call(o) => o.to_imm(),
            _ => vstd::pervasive::unreached(),
        };
        #[verifier::truncate]
        let rsp = self.regs[0] as u16;
        #[verifier::truncate]
        let stored = self.ip as i16;
        self.mem.set(rsp as usize, stored);
        let bumped = self.regs[0].wrapping_add(1);
        self.regs.set(0, bumped);
        self.ip = target.wrapping_sub(1);
        self.ip = self.ip.wrapping_add(1);
        proof {
            assert(self@ =~= step_spec(pre).post);
        }
        StepOutcome::Ran
    }

    /// Return: drop the stack register and jump to the exact stored
    /// address; the trailing increment lands one past the call site.
    fn step_ret(&mut self) -> (r: StepOutcome)
        requires
            old(self)@.wf(),
            (old(self)@.ip as int) < old(self)@.instrs.len(),
            old(self)@.instrs[old(self)@.ip as int] is Ret,
        ensures
            final(self)@.wf(),
            final(self)@ == step_spec(old(self)@).post,
            r == StepOutcome::Ran,
            step_spec(old(self)@).err is None,
            !step_spec(old(self)@).halt,
            step_spec(old(self)@).event is None,
    {
        let ghost pre = self@;
        let new_r0 = self.regs[0].wrapping_sub(1);
        self.regs.set(0, new_r0);
        #[verifier::truncate]
        let rsp = new_r0 as u16;
        #[verifier::truncate]
        let back = self.mem[rsp as usize] as u16;
        self.ip = back;
        self.ip = self.ip.wrapping_add(1);
        proof {
            assert(self@ =~= step_spec(pre).post);
        }
        StepOutcome::Ran
    }

    /// Push a register at the stack cell and bump the stack register.
    fn step_push(&mut self) -> (r: StepOutcome)
        requires
            old(self)@.wf(),
            (old(self)@.ip as int) < old(self)@.instrs.len(),
            old(self)@.instrs[old(self)@.ip as int] is Push,
        ensures
            final(self)@.wf(),
            final(self)@ == step_spec(old(self)@).post,
            r == StepOutcome::Ran,
            step_spec(old(self)@).err is None,
            !step_spec(old(self)@).halt,
            step_spec(old(self)@).event is None,
    {
        let ghost pre = self@;
        let idx = self.ip as usize;
        let id = match &self.instrs[idx] {
            Verb::Push(o) => o.to_reg().to_id(),
            _ => vstd::pervasive::unreached(),
        };
        #[verifier::truncate]
        let rsp = self.regs[0] as u16;
        let v = self.regs[id as usize];
        self.mem.set(rsp as usize, v);
        let bumped = self.regs[0].wrapping_add(1);
        self.regs.set(0, bumped);
        self.ip = self.ip.wrapping_add(1);
        proof {
            assert(self@ =~= step_spec(pre).post);
        }
        StepOutcome::Ran
    }

    /// Drop the stack register and load the cell it now addresses.
    fn step_pop(&mut self) -> (r: StepOutcome)
        requires
            old(self)@.wf(),
            (old(self)@.ip as int) < old(self)@.instrs.len(),
            old(self)@.instrs[old(self)@.ip as int] is Pop,
        ensures
            final(self)@.wf(),
            final(self)@ == step_spec(old(self)@).post,
            r == StepOutcome::Ran,
            step_spec(old(self)@).err is None,
            !step_spec(old(self)@).halt,
            step_spec(old(self)@).event is None,
    {
        let ghost pre = self@;
        let idx = self.ip as usize;
        let id = match &self.instrs[idx] {
            Verb::Pop(o) => o.to_reg().to_id(),
            _ => vstd::pervasive::unreached(),
        };
        let new_r0 = self.regs[0].wrapping_sub(1);
        self.regs.set(0, new_r0);
        #[verifier::truncate]
        let rsp = new_r0 as u16;
        let v = self.mem[rsp as usize];
        self.regs.set(id as usize, v);
        self.ip = self.ip.wrapping_add(1);
        proof {
            assert(self@ =~= step_spec(pre).post);
        }
        StepOutcome::Ran
    }

    /// Frame-relative load from `stack register - offset`.
    fn step_loadf(&mut self) -> (r: StepOutcome)
        requires
            old(self)@.wf(),
            (old(self)@.ip as int) < old(self)@.instrs.len(),
            old(self)@.instrs[old(self)@.ip as int] is Loadf,
        ensures
            final(self)@.wf(),
            final(self)@ == step_spec(old(self)@).post,
            r == StepOutcome::Ran,
            step_spec(old(self)@).err is None,
            !step_spec(old(self)@).halt,
            step_spec(old(self)@).event is None,
    {
        let ghost pre = self@;
        let idx = self.ip as usize;
        let (id, off) = match &self.instrs[idx] {
            Verb::Loadf(o1, o2) => (o1.to_reg().to_id(), o2.to_imm()),
            _ => vstd::pervasive::unreached(),
        };
        #[verifier::truncate]
        let base = self.regs[0] as u16;
        let addr = base.wrapping_sub(off);
        let v = self.mem[addr as usize];
        self.regs.set(id as usize, v);
        self.ip = self.ip.wrapping_add(1);
        proof {
            assert(self@ =~= step_spec(pre).post);
        }
        StepOutcome::Ran
    }

    /// Frame-relative store into `stack register - offset`.
    fn step_storef(&mut self) -> (r: StepOutcome)
        requires
            old(self)@.wf(),
            (old(self)@.ip as int) < old(self)@.instrs.len(),
            old(self)@.instrs[old(self)@.ip as int] is Storef,
        ensures
            final(self)@.wf(),
            final(self)@ == step_spec(old(self)@).post,
            r == StepOutcome::Ran,
            step_spec(old(self)@).err is None,
            !step_spec(old(self)@).halt,
            step_spec(old(self)@).event is None,
    {
        let ghost pre = self@;
        let idx = self.ip as usize;
        let (id, off) = match &self.instrs[idx] {
            Verb::Storef(o1, o2) => (o1.to_reg().to_id(), o2.to_imm()),
            _ => vstd::pervasive::unreached(),
        };
        #[verifier::truncate]
        let base = self.regs[0] as u16;
        let addr = base.wrapping_sub(off);
        let v = self.regs[id as usize];
        self.mem.set(addr as usize, v);
        self.ip = self.ip.wrapping_add(1);
        proof {
            assert(self@ =~= step_spec(pre).post);
        }
        StepOutcome::Ran
    }

    /// Executes at most `n` steps, stopping early at `halt` or on an
    /// error, and returns the diagnostic events in order.
    pub fn run_steps(&mut self, n: usize) -> (r: Result<Vec<DbgEvent>, ExecError>)
        requires
            old(self)@.wf(),
        ensures
            final(self)@.wf(),
            final(self)@ == run_spec(old(self)@, n as nat).post,
            match r {
                Ok(evs) => run_spec(old(self)@, n as nat).err is None && evs.deep_view()
                    == run_spec(old(self)@, n as nat).events,
                Err(e) => run_spec(old(self)@, n as nat).err == Some(e),
            },
    {
        let ghost full = run_spec(old(self)@, n as nat);
        let mut events: Vec<DbgEvent> = Vec::new();
        let mut i: usize = 0;
        while i < n
            invariant
                i <= n,
                self@.wf(),
                full == run_spec(old(self)@, n as nat),
                run_spec(self@, (n - i) as nat).post == full.post,
                run_spec(self@, (n - i) as nat).err == full.err,
                events.deep_view() + run_spec(self@, (n - i) as nat).events =~= full.events,
            decreases n - i,
        {
            let ghost before = self@;
            let ghost rest = run_spec(before, (n - i) as nat);
            match self.step() {
                StepOutcome::Fail(e) => {
                    proof {
                        assert(rest.err == Some(e));
                    }
                    return Err(e);
                },
                StepOutcome::Halted => {
                    proof {
                        assert(rest.post == step_spec(before).post);
                        assert(rest.err is None);
                        assert(events.deep_view() + run_spec(self@, 0) .events =~= events.deep_view());
                        assert(full.events =~= events.deep_view());
                    }
                    return Ok(events);
                },
                StepOutcome::Event(ev) => {
                    proof {
                        let st = step_spec(before);
                        assert(rest.events =~= step_events(st) + run_spec(
                            st.post,
                            (n - i - 1) as nat,
                        ).events);
                    }
                    let ghost old_events = events.deep_view();
                    events.push(ev);
                    proof {
                        assert(events.deep_view() =~= old_events.push(ev@));
                        assert(events.deep_view() + run_spec(self@, (n - i - 1) as nat).events
                            =~= full.events);
                    }
                },
                StepOutcome::Ran => {
                    proof {
                        let st = step_spec(before);
                        assert(step_events(st) =~= Seq::<EventView>::empty());
                        assert(rest.events =~= run_spec(st.post, (n - i - 1) as nat).events);
                        assert(events.deep_view() + run_spec(self@, (n - i - 1) as nat).events
                            =~= full.events);
                    }
                },
            }
            i = i + 1;
        }
        proof {
            assert(run_spec(self@, 0).events =~= Seq::<EventView>::empty());
            assert(full.events =~= events.deep_view());
        }
        Ok(events)
    }

    /// Runs one batch of `BATCH_SIZE` instructions (or until `halt` or an
    /// error) and returns the diagnostic events to print.
    pub fn run_some_instructions(&mut self) -> (r: Result<Vec<DbgEvent>, ExecError>)
        requires
            old(self)@.wf(),
        ensures
            final(self)@.wf(),
            final(self)@ == run_spec(old(self)@, BATCH_SIZE as nat).post,
            match r {
                Ok(evs) => run_spec(old(self)@, BATCH_SIZE as nat).err is None && evs.deep_view()
                    == run_spec(old(self)@, BATCH_SIZE as nat).events,
                Err(e) => run_spec(old(self)@, BATCH_SIZE as nat).err == Some(e),
            },
    {
        self.run_steps(BATCH_SIZE)
    }

    /// Whether `halt` has executed.
    pub fn is_halted(&self) -> (r: bool)
        ensures
            r == self@.halted,
    {
        self.halted
    }
}

} // verus!
