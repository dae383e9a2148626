use asm16::emu::{CpuEmu, DbgEvent};
use asm16::errors::ExecError;
use asm16::instr_repr::Verb;
use asm16::label_resolver::resolve_labels;
use asm16::name_map::NameMap;
use asm16::tokens::get_tokens;

fn load(src: &str) -> CpuEmu {
    let empty = NameMap::new();
    let (mut verbs, labels) = get_tokens(src.to_string(), &empty).expect("source should assemble");
    resolve_labels(&mut verbs, &labels).expect("labels should resolve");
    CpuEmu::new(verbs)
}

fn run_to_halt(emu: &mut CpuEmu) -> Vec<DbgEvent> {
    let mut events = Vec::new();
    for _ in 0..64 {
        let batch = emu.run_some_instructions().expect("execution should not fault");
        events.extend(batch);
        if emu.is_halted() {
            return events;
        }
    }
    panic!("program did not halt within the step budget");
}

fn dumped_regs(events: &[DbgEvent], idx: usize) -> Vec<i16> {
    let mut seen = 0;
    for ev in events {
        if let DbgEvent::Regs { regs, .. } = ev {
            if seen == idx {
                return regs.clone();
            }
            seen += 1;
        }
    }
    panic!("fewer register dumps than expected");
}

#[test]
fn overflow_wraps_silently() {
    let mut emu = load("mov R1 32767\nadd R1 1\ndbg\nhalt\n");
    let events = run_to_halt(&mut emu);
    let regs = dumped_regs(&events, 0);
    assert_eq!(regs[1], -32768);
}

#[test]
fn subtraction_wraps_silently() {
    let mut emu = load("mov R1 0x8000\nsub R1 1\ndbg\nhalt\n");
    let events = run_to_halt(&mut emu);
    let regs = dumped_regs(&events, 0);
    assert_eq!(regs[1], 32767);
}

#[test]
fn call_and_ret_are_symmetric() {
    let mut emu = load("mov R0 0x100\ncall .f\ndbg\nhalt\n.f\ndbg\nret\n");
    let events = run_to_halt(&mut emu);
    let inside = dumped_regs(&events, 0);
    assert_eq!(inside[0], 0x101, "call grows the stack register by one");
    let after = dumped_regs(&events, 1);
    assert_eq!(after[0], 0x100, "ret restores the stack register");
    match &events[0] {
        DbgEvent::Regs { at, .. } => assert_eq!(*at, 4, "call lands on the callee"),
        _ => panic!("expected a register dump"),
    }
    match &events[1] {
        DbgEvent::Regs { at, .. } => {
            assert_eq!(*at, 2, "ret resumes right after the call site")
        },
        _ => panic!("expected a register dump"),
    }
}

#[test]
fn call_stores_return_address_on_stack() {
    let mut emu = load("mov R0 0x100\ncall .f\nhalt\n.f\ndbg 0x100\ndbg 0x100\nret\n");
    let events = run_to_halt(&mut emu);
    match &events[0] {
        DbgEvent::Range { cells, .. } => assert_eq!(cells.as_slice(), &[1i16]),
        _ => panic!("expected a range dump"),
    }
}

#[test]
fn conditional_jump_taken_iff_predicate_holds() {
    let mut emu = load("mov R1 0\njz .skip R1\nmov R2 1\n.skip\ndbg\nhalt\n");
    let regs = dumped_regs(&run_to_halt(&mut emu), 0);
    assert_eq!(regs[2], -2, "taken jump skips the move");

    let mut emu2 = load("mov R1 0\njnz .skip R1\nmov R2 1\n.skip\ndbg\nhalt\n");
    let regs2 = dumped_regs(&run_to_halt(&mut emu2), 0);
    assert_eq!(regs2[2], 1, "untaken jump falls through");

    let mut emu3 = load("mov R1 0xFFFF\njneg .skip R1\nmov R2 1\n.skip\ndbg\nhalt\n");
    let regs3 = dumped_regs(&run_to_halt(&mut emu3), 0);
    assert_eq!(regs3[2], -2, "negative value takes jneg");

    let mut emu4 = load("mov R1 1\njposz .skip R1\nmov R2 1\n.skip\ndbg\nhalt\n");
    let regs4 = dumped_regs(&run_to_halt(&mut emu4), 0);
    assert_eq!(regs4[2], -2, "positive value takes jposz");
}

#[test]
fn conditional_set_writes_exactly_one_or_zero() {
    let src = "mov R1 0xFFFF\nmov R2 0\nmov R3 1\nsetz R4 R2\nsetz R5 R3\nsetneg R6 R1\nsetneg R7 R3\nsetpos R8 R1\nsetpos R9 R3\nsetposz R10 R2\nsetnegz R11 R2\nsetnz R12 R2\ndbg\nhalt\n";
    let mut emu = load(src);
    let regs = dumped_regs(&run_to_halt(&mut emu), 0);
    assert_eq!(regs[4], 1, "setz on zero");
    assert_eq!(regs[5], 0, "setz on one");
    assert_eq!(regs[6], 1, "setneg on minus one");
    assert_eq!(regs[7], 0, "setneg on one");
    assert_eq!(regs[8], 0, "setpos on minus one");
    assert_eq!(regs[9], 1, "setpos on one");
    assert_eq!(regs[10], 1, "setposz on zero");
    assert_eq!(regs[11], 1, "setnegz on zero");
    assert_eq!(regs[12], 0, "setnz on zero");
}

#[test]
fn bitwise_ops_and_logical_shift_right() {
    let src = "mov R1 0xF0F0\nmov R2 0x0FF0\nand R1 R2\nmov R3 0x8000\nshr R3 1\nmov R4 0x4000\nshl R4 1\nmov R5 0\nnot R5\ndbg\nhalt\n";
    let mut emu = load(src);
    let regs = dumped_regs(&run_to_halt(&mut emu), 0);
    assert_eq!(regs[1], 0x0F0, "and keeps common bits");
    assert_eq!(regs[3], 0x4000, "shift right is logical, zero-filling");
    assert_eq!(regs[4], -32768i16, "shift left moves into the sign bit");
    assert_eq!(regs[5], -1, "not flips every bit");
}

#[test]
fn io_cells_are_isolated() {
    let mut emu = load("mov R1 [1200]\nmov [1204] R1\nhalt\n");
    emu.set_switch_states(5);
    emu.set_button_states(9);
    assert_eq!(emu.get_led_output(), -2, "writing inputs never touches the LED");
    let gfx = emu.get_gfx_buffer();
    assert_eq!(gfx.len(), 1200);
    for cell in gfx {
        assert_eq!(*cell, -2, "writing inputs never touches the framebuffer");
    }
    run_to_halt(&mut emu);
    assert_eq!(emu.get_led_output(), 5, "the program reads the switch cell");
}

#[test]
fn button_cell_reaches_the_program() {
    let mut emu = load("mov R1 [1201]\nmov [1204] R1\nhalt\n");
    emu.set_button_states(9);
    run_to_halt(&mut emu);
    assert_eq!(emu.get_led_output(), 9);
}

#[test]
fn range_dump_reports_cells_between_bounds() {
    let mut emu = load("mov R1 7\nmov [0x40] R1\ndbg 0x40\ndbg 0x42\nhalt\n");
    let events = run_to_halt(&mut emu);
    match &events[0] {
        DbgEvent::Range { at, lo, hi, cells } => {
            assert_eq!(*at, 3);
            assert_eq!(*lo, 0x40);
            assert_eq!(*hi, 0x42);
            assert_eq!(cells.as_slice(), &[7i16, -2, -2]);
        },
        _ => panic!("expected a range dump"),
    }
}

#[test]
fn range_dump_without_partner_is_fatal() {
    let mut emu = load("dbg 0x10\nhalt\n");
    let r = emu.run_some_instructions();
    assert_eq!(r.unwrap_err(), ExecError::MalformedDiagnosticPair);
}

#[test]
fn running_past_the_program_is_fatal() {
    let mut emu = load("nop\n");
    let r = emu.run_some_instructions();
    assert_eq!(r.unwrap_err(), ExecError::UndefinedExecution);
}

#[test]
fn halt_is_idempotent() {
    let mut emu = load("halt\n");
    assert!(emu.run_some_instructions().is_ok());
    assert!(emu.is_halted());
    let again = emu.run_some_instructions().expect("repeated batches return at once");
    assert!(again.is_empty());
    assert!(emu.is_halted());
}

#[test]
fn batches_run_a_fixed_instruction_budget() {
    let mut src = String::new();
    for _ in 0..300 {
        src.push_str("nop\n");
    }
    src.push_str("mov R1 1\nmov [1204] R1\nhalt\n");
    let mut emu = load(&src);
    emu.run_some_instructions().expect("first batch runs clean");
    assert!(!emu.is_halted(), "one batch retires fewer than 301 instructions");
    assert_eq!(emu.get_led_output(), -2);
    emu.run_some_instructions().expect("second batch runs clean");
    assert!(emu.is_halted());
    assert_eq!(emu.get_led_output(), 1);
}

#[test]
fn push_pop_and_frame_relative_moves() {
    let src = "mov R0 0x200\nmov R1 11\nmov R2 22\npush R1\npush R2\nloadf R3 2\nloadf R4 1\npop R5\npop R6\nstoref R1 2\nloadf R7 2\ndbg\nhalt\n";
    let mut emu = load(src);
    let regs = dumped_regs(&run_to_halt(&mut emu), 0);
    assert_eq!(regs[3], 11, "frame slot two below the stack top");
    assert_eq!(regs[4], 22, "frame slot one below the stack top");
    assert_eq!(regs[5], 22, "pop returns the last push");
    assert_eq!(regs[6], 11, "pop returns the earlier push");
    assert_eq!(regs[0], 0x200, "push and pop balance the stack register");
    assert_eq!(regs[7], 11, "storef then loadf reads the stored value");
}

#[test]
fn uninitialized_cells_hold_the_poison_value() {
    let mut emu = load("mov R1 [0x500]\nmov [1204] R1\nhalt\n");
    run_to_halt(&mut emu);
    assert_eq!(emu.get_led_output(), -2);
}
