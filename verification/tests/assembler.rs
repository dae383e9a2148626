use asm16::errors::AsmError;
use asm16::instr_repr::{Operand, Reg, Verb};
use asm16::label_resolver::resolve_labels;
use asm16::location_resolver::create_location_map;
use asm16::name_map::NameMap;
use asm16::tokens::{convert_str_to_imm, convert_str_to_reg, get_tokens};

fn assemble(src: &str) -> (Vec<Verb>, NameMap) {
    let empty = NameMap::new();
    get_tokens(src.to_string(), &empty).expect("source should assemble")
}

#[test]
fn parses_mov_register_immediate() {
    let (verbs, _) = assemble("mov R1 0x5\n");
    assert_eq!(verbs.len(), 1);
    assert_eq!(
        verbs[0],
        Verb::Mov(Operand::Reg(Reg::R1), Operand::Imm(5))
    );
}

#[test]
fn parses_all_mov_forms() {
    let (verbs, _) = assemble("mov R1 7\nmov R2 [7]\nmov [7] R3\nmov R4 R5\nmov R6 [R7]\nmov [R8] R9\n");
    assert_eq!(verbs.len(), 6);
    assert_eq!(verbs[1], Verb::Mov(Operand::Reg(Reg::R2), Operand::MemAtImm(7)));
    assert_eq!(verbs[2], Verb::Mov(Operand::MemAtImm(7), Operand::Reg(Reg::R3)));
    assert_eq!(verbs[3], Verb::Mov(Operand::Reg(Reg::R4), Operand::Reg(Reg::R5)));
    assert_eq!(verbs[4], Verb::Mov(Operand::Reg(Reg::R6), Operand::MemAtReg(Reg::R7)));
    assert_eq!(verbs[5], Verb::Mov(Operand::MemAtReg(Reg::R8), Operand::Reg(Reg::R9)));
}

#[test]
fn comments_and_blanks_contribute_nothing() {
    let (verbs, _) = assemble("; a comment\n\n   \nnop\n; end\n");
    assert_eq!(verbs, vec![Verb::Nop]);
}

#[test]
fn label_binds_count_of_preceding_instructions() {
    let (verbs, labels) = assemble(".start\nnop\nnop\n.here\nhalt\n");
    assert_eq!(verbs.len(), 3);
    assert_eq!(labels.get(".start"), Some(0));
    assert_eq!(labels.get(".here"), Some(2));
    assert_eq!(labels.get(".absent"), None);
}

#[test]
fn forward_reference_resolves_to_correct_address() {
    let (mut verbs, labels) = assemble("jmp .end\nnop\n.end\nhalt\n");
    resolve_labels(&mut verbs, &labels).expect("label should resolve");
    assert_eq!(verbs[0], Verb::Jmp(Operand::Imm(2)));
}

#[test]
fn undefined_label_is_fatal_at_resolution() {
    let (mut verbs, labels) = assemble("jmp .nowhere\nhalt\n");
    let before = verbs.clone();
    let r = resolve_labels(&mut verbs, &labels);
    assert_eq!(r, Err(AsmError::UnresolvedLabel));
    assert_eq!(verbs, before);
}

#[test]
fn call_target_resolves() {
    let (mut verbs, labels) = assemble("call .f\nhalt\n.f\nret\n");
    resolve_labels(&mut verbs, &labels).expect("label should resolve");
    assert_eq!(verbs[0], Verb::Call(Operand::Imm(2)));
}

#[test]
fn unknown_mnemonic_aborts() {
    let empty = NameMap::new();
    let r = get_tokens("frobnicate R1\n".to_string(), &empty);
    assert_eq!(r.unwrap_err(), AsmError::UnknownVerb);
}

#[test]
fn missing_operand_aborts() {
    let empty = NameMap::new();
    let r = get_tokens("mov R1\n".to_string(), &empty);
    assert_eq!(r.unwrap_err(), AsmError::MissingOperand);
}

#[test]
fn wrong_operand_kinds_abort() {
    let empty = NameMap::new();
    let r = get_tokens("mov 5 6\n".to_string(), &empty);
    assert_eq!(r.unwrap_err(), AsmError::BadOperandKinds);
    let r2 = get_tokens("jz R1 R2\n".to_string(), &empty);
    assert_eq!(r2.unwrap_err(), AsmError::BadOperandKinds);
}

#[test]
fn malformed_bracket_aborts() {
    let empty = NameMap::new();
    let r = get_tokens("mov R1 [5\n".to_string(), &empty);
    assert_eq!(r.unwrap_err(), AsmError::MalformedBracket);
    let r2 = get_tokens("mov R1 [what]\n".to_string(), &empty);
    assert_eq!(r2.unwrap_err(), AsmError::MalformedBracket);
}

#[test]
fn malformed_operand_aborts() {
    let empty = NameMap::new();
    let r = get_tokens("mov R1 ~x\n".to_string(), &empty);
    assert_eq!(r.unwrap_err(), AsmError::MalformedOperand);
}

#[test]
fn literals_decimal_hex_plus_and_truncation() {
    let empty = NameMap::new();
    assert_eq!(convert_str_to_imm("42", &empty), Some(42));
    assert_eq!(convert_str_to_imm("0x2A", &empty), Some(42));
    assert_eq!(convert_str_to_imm("0x2a", &empty), Some(42));
    assert_eq!(convert_str_to_imm("+42", &empty), Some(42));
    assert_eq!(convert_str_to_imm("65541", &empty), Some(5));
    assert_eq!(convert_str_to_imm("", &empty), None);
    assert_eq!(convert_str_to_imm("0x", &empty), None);
    assert_eq!(convert_str_to_imm("12a", &empty), None);
    assert_eq!(convert_str_to_imm("99999999999999999999999", &empty), None);
}

#[test]
fn register_names_parse_exactly() {
    assert_eq!(convert_str_to_reg("R0"), Some(Reg::R0));
    assert_eq!(convert_str_to_reg("r0"), Some(Reg::R0));
    assert_eq!(convert_str_to_reg("R15"), Some(Reg::R15));
    assert_eq!(convert_str_to_reg("r9"), Some(Reg::R9));
    assert_eq!(convert_str_to_reg("R16"), None);
    assert_eq!(convert_str_to_reg("R"), None);
    assert_eq!(convert_str_to_reg("R07"), None);
    assert_eq!(convert_str_to_reg("Rx"), None);
}

#[test]
fn location_table_substitutes_for_literals() {
    let table = create_location_map("screen 0x10\nswitches 1200\n; note\n".to_string())
        .expect("definitions should load");
    assert_eq!(table.get("screen"), Some(16));
    assert_eq!(table.get("switches"), Some(1200));
    let (verbs, _) = get_tokens("mov R1 screen\nmov R2 [switches]\n".to_string(), &table)
        .expect("source should assemble");
    assert_eq!(verbs[0], Verb::Mov(Operand::Reg(Reg::R1), Operand::Imm(16)));
    assert_eq!(verbs[1], Verb::Mov(Operand::Reg(Reg::R2), Operand::MemAtImm(1200)));
}

#[test]
fn location_table_bad_literal_aborts() {
    let r = create_location_map("x notanumber\n".to_string());
    assert_eq!(r.unwrap_err(), AsmError::BadLiteral);
}

#[test]
fn round_trip_of_disassembled_text() {
    let empty = NameMap::new();
    let src = "mov R1 0x2A\nmov R2 [R3]\njz .t R4\njmp 0x5\nsetnegz R5 R6\nadd R7 0x10\nsub R8 R9\nnot R10\nshl R11 0x2\nshr R12 R13\ndbg 0x100\ndbg\nnop\nhalt\ncall .t\nret\npush R14\npop R15\nloadf R1 0x3\nstoref R2 0x4\n.t\nnop\n";
    let (verbs, _) = get_tokens(src.to_string(), &empty).expect("source should assemble");
    for v in &verbs {
        let text = v.render();
        let (reparsed, _) = get_tokens(text, &empty).expect("disassembly should re-parse");
        assert_eq!(reparsed.len(), 1);
        assert_eq!(&reparsed[0], v);
    }
}

#[test]
fn trailing_text_after_operands_is_ignored() {
    let (verbs, _) = assemble("mov R1 5 this is ignored\n");
    assert_eq!(verbs[0], Verb::Mov(Operand::Reg(Reg::R1), Operand::Imm(5)));
}
