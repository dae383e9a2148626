//! Error taxonomy: assembly-time errors (syntax, label resolution) and
//! run-time errors (execution past the program, a malformed diagnostic
//! pair). Every error is fatal at the layer that detects it: the assembler
//! never continues past a bad line, the emulator never continues past a
//! failed fetch.

use vstd::prelude::*;

verus! {

/// An error raised while assembling: by the tokenizer, the per-opcode
/// operand validation, the location-table loader, or the label resolver.
#[derive(Debug, Clone, Copy, PartialEq, Eq, Structural)]
pub enum AsmError {
    /// The mnemonic at the start of a line is not part of the vocabulary.
    UnknownVerb,
    /// A line holds fewer operands than its mnemonic requires.
    MissingOperand,
    /// The operand kinds do not match the mnemonic's signature.
    BadOperandKinds,
    /// A bracket operand does not end in `]`, or its inner text is neither
    /// a literal nor a register name.
    MalformedBracket,
    /// An operand token is neither a known constant, a literal, a label,
    /// a bracket form, nor a register name.
    MalformedOperand,
    /// A definitions line binds a name to text that is not a literal.
    BadLiteral,
    /// A definitions line starts with a character that ends its name
    /// immediately, leaving the name empty.
    EmptyName,
    /// A jump or call references a label that is never defined.
    UnresolvedLabel,
}

/// An error raised while executing.
#[derive(Debug, Clone, Copy, PartialEq, Eq, Structural)]
pub enum ExecError {
    /// The instruction pointer ran past the assembled program.
    UndefinedExecution,
    /// A range-dump instruction is not immediately followed by the partner
    /// instruction carrying the range's upper bound.
    MalformedDiagnosticPair,
}

} // verus!
