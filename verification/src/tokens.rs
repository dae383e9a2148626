//! The assembler front end: reads source text one line at a time and
//! yields the instruction sequence plus the label map.
//!
//! Line forms: blank or comment (the marker is `;`) — nothing; a label
//! definition (`.` followed immediately by a name) — binds the current
//! address; otherwise a mnemonic and 0-2 whitespace-delimited operand
//! tokens, consumed to end of line. Operand tokenizing order: a named
//! constant from the location table, else a numeric literal (decimal or
//! `0x`-prefixed hexadecimal, truncated to 16 bits), else a `.`-prefixed
//! symbolic label, else a bracket-wrapped literal or register, else a
//! bare register name. Anything else is a fatal error, and the parser
//! never attempts recovery.
//!
//! Every function is specified against a spec-level grammar over
//! `Seq<char>`: `spec_get_tokens` is the meaning of a whole source text,
//! built from `spec_parse_verb`, `spec_parse_operand` and the token
//! classifiers below.

use vstd::prelude::*;
use vstd::string::StrSliceExecFns;
use crate::errors::AsmError;
use crate::instr_repr::{
    arith_sig, cond_jump_sig, cond_set_sig, frame_sig, mov_sig, target_sig, Operand, OperandView,
    Reg, Verb, VerbView,
};
use crate::name_map::NameMap;
use crate::source_cursor::SourceCodeCursor;
use crate::text::{
    is_ascii_alpha, is_ascii_alpha_char, is_ascii_ws, is_ascii_ws_char, is_line_ws,
    is_line_ws_char, lead_count, lemma_lead_count, lemma_lead_count_is, parse_u64_body, push_char,
    spec_parse_u64, str_eq,
};

verus! {

/// The in-line whitespace class, as a predicate value shared by every
/// use of `lead_count`.
pub open spec fn line_ws_p() -> spec_fn(char) -> bool {
    |c: char| is_line_ws(c)
}

/// Everything but the line terminator.
pub open spec fn not_nl_p() -> spec_fn(char) -> bool {
    |c: char| c != '\n'
}

/// The token class: everything but ASCII whitespace.
pub open spec fn tok_p() -> spec_fn(char) -> bool {
    |c: char| !is_ascii_ws(c)
}

/// The mnemonic class: ASCII letters.
pub open spec fn alpha_p() -> spec_fn(char) -> bool {
    |c: char| is_ascii_alpha(c)
}

/// The text after its leading spaces and tabs.
pub open spec fn skip_ws(s: Seq<char>) -> Seq<char> {
    s.skip(lead_count(s, line_ws_p()) as int)
}

/// The text after the current line: everything past the first newline,
/// or nothing if no newline is left.
pub open spec fn after_line(s: Seq<char>) -> Seq<char> {
    let k = lead_count(s, not_nl_p());
    if k < s.len() {
        s.skip(k as int + 1)
    } else {
        Seq::empty()
    }
}

/// The leading token: the longest prefix free of ASCII whitespace.
pub open spec fn token_of(s: Seq<char>) -> Seq<char> {
    s.take(lead_count(s, tok_p()) as int)
}

/// The text after the leading token.
pub open spec fn after_token(s: Seq<char>) -> Seq<char> {
    s.skip(lead_count(s, tok_p()) as int)
}

/// The leading mnemonic: the longest prefix of ASCII letters.
pub open spec fn alpha_prefix(s: Seq<char>) -> Seq<char> {
    s.take(lead_count(s, alpha_p()) as int)
}

/// The text after the leading mnemonic.
pub open spec fn after_alpha(s: Seq<char>) -> Seq<char> {
    s.skip(lead_count(s, alpha_p()) as int)
}

/// Consuming one character that satisfies the class moves `skip_ws` one
/// step without changing where it lands.
proof fn lemma_skip_ws_step(s: Seq<char>)
    requires
        s.len() > 0,
        is_line_ws(s[0]),
    ensures
        skip_ws(s.drop_first()) == skip_ws(s),
{
    lemma_lead_count(s.drop_first(), line_ws_p());
    assert(skip_ws(s.drop_first()) =~= skip_ws(s));
}

/// Where the first character is not in-line whitespace, nothing is
/// skipped.
proof fn lemma_skip_ws_end(s: Seq<char>)
    requires
        s.len() == 0 || !is_line_ws(s[0]),
    ensures
        skip_ws(s) == s,
{
    assert(skip_ws(s) =~= s);
}

/// Consuming one non-newline character leaves `after_line` unchanged.
proof fn lemma_after_line_step(s: Seq<char>)
    requires
        s.len() > 0,
        s[0] != '\n',
    ensures
        after_line(s.drop_first()) == after_line(s),
{
    lemma_lead_count(s.drop_first(), not_nl_p());
    lemma_lead_count(s, not_nl_p());
    assert(after_line(s.drop_first()) =~= after_line(s));
}

/// Dropping a prefix that holds no newline leaves `after_line`
/// unchanged.
proof fn lemma_after_line_skip(s: Seq<char>, k: int)
    requires
        0 <= k <= s.len(),
        forall|j: int| 0 <= j < k ==> s[j] != '\n',
    ensures
        after_line(s.skip(k)) == after_line(s),
    decreases k,
{
    if k > 0 {
        lemma_after_line_step(s);
        assert(s.skip(k) =~= s.drop_first().skip(k - 1));
        assert forall|j: int| 0 <= j < k - 1 implies s.drop_first()[j] != '\n' by {
            assert(s[j + 1] != '\n');
        }
        lemma_after_line_skip(s.drop_first(), k - 1);
    } else {
        assert(s.skip(0) =~= s);
    }
}

/// Skipping in-line whitespace leaves `after_line` unchanged.
pub(crate) proof fn lemma_after_line_skip_ws(s: Seq<char>)
    ensures
        after_line(skip_ws(s)) == after_line(s),
{
    lemma_lead_count(s, line_ws_p());
    lemma_after_line_skip(s, lead_count(s, line_ws_p()) as int);
}

/// Skipping a mnemonic leaves `after_line` unchanged.
proof fn lemma_after_line_after_alpha(s: Seq<char>)
    ensures
        after_line(after_alpha(s)) == after_line(s),
{
    lemma_lead_count(s, alpha_p());
    lemma_after_line_skip(s, lead_count(s, alpha_p()) as int);
}

/// Skipping a token leaves `after_line` unchanged.
pub(crate) proof fn lemma_after_line_after_token(s: Seq<char>)
    ensures
        after_line(after_token(s)) == after_line(s),
{
    lemma_lead_count(s, tok_p());
    lemma_after_line_skip(s, lead_count(s, tok_p()) as int);
}

/// Reading one operand never crosses the newline.
proof fn lemma_after_line_operand_rest(s: Seq<char>)
    ensures
        after_line(operand_rest(s)) == after_line(s),
{
    lemma_after_line_skip_ws(s);
    lemma_after_line_after_token(skip_ws(s));
}

/// Whether the next character is a space or a tab.
fn peek_is_line_ws(cursor: &SourceCodeCursor) -> (r: bool)
    requires
        cursor.wf(),
    ensures
        r == (cursor.rest().len() > 0 && is_line_ws(cursor.rest()[0])),
{
    match cursor.peek() {
        Some(c) => is_line_ws_char(c),
        None => false,
    }
}

/// Whether the next character exists and is not a newline.
fn peek_not_nl(cursor: &SourceCodeCursor) -> (r: bool)
    requires
        cursor.wf(),
    ensures
        r == (cursor.rest().len() > 0 && cursor.rest()[0] != '\n'),
{
    match cursor.peek() {
        Some(c) => c != '\n',
        None => false,
    }
}

/// Whether the next character exists and is not ASCII whitespace.
fn peek_is_tok(cursor: &SourceCodeCursor) -> (r: bool)
    requires
        cursor.wf(),
    ensures
        r == (cursor.rest().len() > 0 && !is_ascii_ws(cursor.rest()[0])),
{
    match cursor.peek() {
        Some(c) => !is_ascii_ws_char(c),
        None => false,
    }
}

/// Whether the next character exists and is an ASCII letter.
fn peek_is_alpha(cursor: &SourceCodeCursor) -> (r: bool)
    requires
        cursor.wf(),
    ensures
        r == (cursor.rest().len() > 0 && is_ascii_alpha(cursor.rest()[0])),
{
    match cursor.peek() {
        Some(c) => is_ascii_alpha_char(c),
        None => false,
    }
}

/// Consumes leading spaces and tabs.
pub fn consume_whitespace(cursor: &mut SourceCodeCursor)
    requires
        old(cursor).wf(),
    ensures
        final(cursor).wf(),
        final(cursor).rest() == skip_ws(old(cursor).rest()),
        final(cursor).rest().len() <= old(cursor).rest().len(),
{
    while peek_is_line_ws(cursor)
        invariant
            cursor.wf(),
            skip_ws(cursor.rest()) == skip_ws(old(cursor).rest()),
            cursor.rest().len() <= old(cursor).rest().len(),
        decreases cursor.rest().len(),
    {
        proof {
            lemma_skip_ws_step(cursor.rest());
        }
        cursor.next();
    }
    proof {
        lemma_skip_ws_end(cursor.rest());
    }
}

/// Consumes the rest of the line, including its newline if there is one.
pub fn consume_rest_of_line(cursor: &mut SourceCodeCursor)
    requires
        old(cursor).wf(),
    ensures
        final(cursor).wf(),
        final(cursor).rest() == after_line(old(cursor).rest()),
        final(cursor).rest().len() <= old(cursor).rest().len(),
{
    while peek_not_nl(cursor)
        invariant
            cursor.wf(),
            after_line(cursor.rest()) == after_line(old(cursor).rest()),
            cursor.rest().len() <= old(cursor).rest().len(),
        decreases cursor.rest().len(),
    {
        proof {
            lemma_after_line_step(cursor.rest());
        }
        cursor.next();
    }
    proof {
        lemma_lead_count(cursor.rest(), not_nl_p());
        if cursor.rest().len() > 0 {
            assert(lead_count(cursor.rest(), not_nl_p()) == 0);
            assert(after_line(cursor.rest()) =~= cursor.rest().drop_first());
        }
    }
    cursor.next();
}

/// Reads the leading token: everything up to the next ASCII whitespace.
pub(crate) fn read_token(cursor: &mut SourceCodeCursor) -> (r: String)
    requires
        old(cursor).wf(),
    ensures
        final(cursor).wf(),
        r@ == token_of(old(cursor).rest()),
        final(cursor).rest() == after_token(old(cursor).rest()),
        final(cursor).rest().len() <= old(cursor).rest().len(),
{
    let mut s = String::new();
    while peek_is_tok(cursor)
        invariant
            cursor.wf(),
            s@.len() <= old(cursor).rest().len(),
            s@ =~= old(cursor).rest().take(s@.len() as int),
            cursor.rest() =~= old(cursor).rest().skip(s@.len() as int),
            forall|j: int| 0 <= j < s@.len() ==> !is_ascii_ws(old(cursor).rest()[j]),
        decreases cursor.rest().len(),
    {
        let c = match cursor.next() {
            Some(c) => c,
            None => vstd::pervasive::unreached(),
        };
        push_char(&mut s, c);
        proof {
            assert(s@ =~= old(cursor).rest().take(s@.len() as int));
            assert(cursor.rest() =~= old(cursor).rest().skip(s@.len() as int));
        }
    }
    proof {
        lemma_lead_count_is(old(cursor).rest(), tok_p(), s@.len() as int);
    }
    s
}

/// Reads the leading mnemonic: the run of ASCII letters.
fn read_name(cursor: &mut SourceCodeCursor) -> (r: String)
    requires
        old(cursor).wf(),
    ensures
        final(cursor).wf(),
        r@ == alpha_prefix(old(cursor).rest()),
        final(cursor).rest() == after_alpha(old(cursor).rest()),
        final(cursor).rest().len() <= old(cursor).rest().len(),
{
    let mut s = String::new();
    while peek_is_alpha(cursor)
        invariant
            cursor.wf(),
            s@.len() <= old(cursor).rest().len(),
            s@ =~= old(cursor).rest().take(s@.len() as int),
            cursor.rest() =~= old(cursor).rest().skip(s@.len() as int),
            forall|j: int| 0 <= j < s@.len() ==> is_ascii_alpha(old(cursor).rest()[j]),
        decreases cursor.rest().len(),
    {
        let c = match cursor.next() {
            Some(c) => c,
            None => vstd::pervasive::unreached(),
        };
        push_char(&mut s, c);
        proof {
            assert(s@ =~= old(cursor).rest().take(s@.len() as int));
            assert(cursor.rest() =~= old(cursor).rest().skip(s@.len() as int));
        }
    }
    proof {
        lemma_lead_count_is(old(cursor).rest(), alpha_p(), s@.len() as int);
    }
    s
}

/// The meaning of a token where an immediate is expected: a named
/// constant from the location table wins; otherwise a numeric literal,
/// decimal or `0x`-prefixed hexadecimal, truncated to 16 bits.
pub open spec fn spec_convert_str_to_imm(s: Seq<char>, m: Map<Seq<char>, u16>) -> Option<u16> {
    if m.contains_key(s) {
        Some(m[s])
    } else if s.len() >= 2 && s[0] == '0' && s[1] == 'x' {
        match spec_parse_u64(s.skip(2), true) {
            Some(v) => Some(v as u16),
            None => None,
        }
    } else {
        match spec_parse_u64(s, false) {
            Some(v) => Some(v as u16),
            None => None,
        }
    }
}

/// Reads a token as an immediate: a named constant, else a literal.
pub fn convert_str_to_imm(s: &str, var_loc_map: &NameMap) -> (r: Option<u16>)
    ensures
        r == spec_convert_str_to_imm(s@, var_loc_map@),
{
    if let Some(val) = var_loc_map.get(s) {
        return Some(val);
    }
    let n = s.unicode_len();
    let parsed = if n >= 2 && s.get_char(0) == '0' && s.get_char(1) == 'x' {
        parse_u64_body(s, 2, true)
    } else {
        proof {
            assert(s@.skip(0) =~= s@);
        }
        parse_u64_body(s, 0, false)
    };
    match parsed {
        Some(v) => {
            #[verifier::truncate]
            let t = v as u16;
            Some(t)
        },
        None => None,
    }
}

/// The register with the given id.
pub open spec fn spec_reg_from_id(id: nat) -> Reg {
    if id == 0 {
        Reg::R0
    } else if id == 1 {
        Reg::R1
    } else if id == 2 {
        Reg::R2
    } else if id == 3 {
        Reg::R3
    } else if id == 4 {
        Reg::R4
    } else if id == 5 {
        Reg::R5
    } else if id == 6 {
        Reg::R6
    } else if id == 7 {
        Reg::R7
    } else if id == 8 {
        Reg::R8
    } else if id == 9 {
        Reg::R9
    } else if id == 10 {
        Reg::R10
    } else if id == 11 {
        Reg::R11
    } else if id == 12 {
        Reg::R12
    } else if id == 13 {
        Reg::R13
    } else if id == 14 {
        Reg::R14
    } else {
        Reg::R15
    }
}

/// Register ids and registers are inverses.
pub proof fn lemma_reg_from_id(r: Reg)
    ensures
        spec_reg_from_id(r.spec_id() as nat) == r,
{
    crate::instr_repr::lemma_reg_id_bound(r);
    match r {
        Reg::R0 => {},
        Reg::R1 => {},
        Reg::R2 => {},
        Reg::R3 => {},
        Reg::R4 => {},
        Reg::R5 => {},
        Reg::R6 => {},
        Reg::R7 => {},
        Reg::R8 => {},
        Reg::R9 => {},
        Reg::R10 => {},
        Reg::R11 => {},
        Reg::R12 => {},
        Reg::R13 => {},
        Reg::R14 => {},
        Reg::R15 => {},
    }
}

/// The register with the given id.
fn reg_from_id(id: u8) -> (r: Reg)
    requires
        id < 16,
    ensures
        r == spec_reg_from_id(id as nat),
        r.spec_id() == id,
{
    let r = if id == 0 {
        Reg::R0
    } else if id == 1 {
        Reg::R1
    } else if id == 2 {
        Reg::R2
    } else if id == 3 {
        Reg::R3
    } else if id == 4 {
        Reg::R4
    } else if id == 5 {
        Reg::R5
    } else if id == 6 {
        Reg::R6
    } else if id == 7 {
        Reg::R7
    } else if id == 8 {
        Reg::R8
    } else if id == 9 {
        Reg::R9
    } else if id == 10 {
        Reg::R10
    } else if id == 11 {
        Reg::R11
    } else if id == 12 {
        Reg::R12
    } else if id == 13 {
        Reg::R13
    } else if id == 14 {
        Reg::R14
    } else {
        Reg::R15
    };
    r
}

/// The meaning of a token where a register is expected: `R` or `r`
/// followed by a decimal id 0 through 15, written without a leading
/// zero.
pub open spec fn spec_convert_str_to_reg(s: Seq<char>) -> Option<Reg> {
    if s.len() == 2 && (s[0] == 'R' || s[0] == 'r') && crate::text::is_dec_digit(s[1]) {
        Some(spec_reg_from_id(crate::text::dec_digit_val(s[1])))
    } else if s.len() == 3 && (s[0] == 'R' || s[0] == 'r') && s[1] == '1'
        && crate::text::is_dec_digit(s[2]) && crate::text::dec_digit_val(s[2]) <= 5 {
        Some(spec_reg_from_id(10 + crate::text::dec_digit_val(s[2])))
    } else {
        None
    }
}

/// Reads a token as a register name.
pub fn convert_str_to_reg(s: &str) -> (r: Option<Reg>)
    ensures
        r == spec_convert_str_to_reg(s@),
{
    let n = s.unicode_len();
    if n == 2 {
        let c0 = s.get_char(0);
        if c0 == 'R' || c0 == 'r' {
            match crate::text::digit_of_char(s.get_char(1), false) {
                Some(d) => Some(reg_from_id(d)),
                None => None,
            }
        } else {
            None
        }
    } else if n == 3 {
        let c0 = s.get_char(0);
        let c1 = s.get_char(1);
        if (c0 == 'R' || c0 == 'r') && c1 == '1' {
            match crate::text::digit_of_char(s.get_char(2), false) {
                Some(d) => if d <= 5 {
                    Some(reg_from_id(10 + d))
                } else {
                    None
                },
                None => None,
            }
        } else {
            None
        }
    } else {
        None
    }
}

/// What parsing one operand yields: nothing (end of line), an operand,
/// or a fatal syntax error.
pub enum SpecOperand {
    /// The line ended before another operand.
    Absent,
    /// An operand of the given kind and value.
    Found(OperandView),
    /// A fatal syntax error.
    Error(AsmError),
}

/// The meaning of one operand token, tried in order: a constant or
/// literal, a `.`-prefixed label, a bracket form, a register name.
pub open spec fn classify_token(t: Seq<char>, m: Map<Seq<char>, u16>) -> SpecOperand {
    match spec_convert_str_to_imm(t, m) {
        Some(v) => SpecOperand::Found(OperandView::Imm(v)),
        None => if t.len() > 0 && t[0] == '.' {
            SpecOperand::Found(OperandView::Label(t))
        } else if t.len() > 0 && t[0] == '[' {
            if t[t.len() - 1] != ']' {
                SpecOperand::Error(AsmError::MalformedBracket)
            } else {
                let inner = t.subrange(1, t.len() - 1);
                match spec_convert_str_to_imm(inner, m) {
                    Some(v) => SpecOperand::Found(OperandView::MemAtImm(v)),
                    None => match spec_convert_str_to_reg(inner) {
                        Some(r) => SpecOperand::Found(OperandView::MemAtReg(r)),
                        None => SpecOperand::Error(AsmError::MalformedBracket),
                    },
                }
            }
        } else {
            match spec_convert_str_to_reg(t) {
                Some(r) => SpecOperand::Found(OperandView::Reg(r)),
                None => SpecOperand::Error(AsmError::MalformedOperand),
            }
        },
    }
}

/// The meaning of the next operand on the line.
pub open spec fn spec_parse_operand(s: Seq<char>, m: Map<Seq<char>, u16>) -> SpecOperand {
    let w = skip_ws(s);
    if w.len() == 0 || w[0] == '\n' {
        SpecOperand::Absent
    } else {
        classify_token(token_of(w), m)
    }
}

/// The text left after reading the next operand.
pub open spec fn operand_rest(s: Seq<char>) -> Seq<char> {
    let w = skip_ws(s);
    if w.len() == 0 || w[0] == '\n' {
        w
    } else {
        after_token(w)
    }
}

/// Reads the next whitespace-delimited operand on the line, or reports
/// that the line ended.
pub fn parse_operand(cursor: &mut SourceCodeCursor, var_loc_map: &NameMap) -> (r: Result<
    Option<Operand>,
    AsmError,
>)
    requires
        old(cursor).wf(),
    ensures
        final(cursor).wf(),
        final(cursor).rest() == operand_rest(old(cursor).rest()),
        final(cursor).rest().len() <= old(cursor).rest().len(),
        match r {
            Ok(Some(op)) => spec_parse_operand(old(cursor).rest(), var_loc_map@)
                == SpecOperand::Found(op@),
            Ok(None) => spec_parse_operand(old(cursor).rest(), var_loc_map@)
                == SpecOperand::Absent,
            Err(e) => spec_parse_operand(old(cursor).rest(), var_loc_map@) == SpecOperand::Error(
                e,
            ),
        },
{
    consume_whitespace(cursor);
    let stop = match cursor.peek() {
        None => true,
        Some(c) => c == '\n',
    };
    if stop {
        return Ok(None);
    }
    let operand_str = read_token(cursor);
    if let Some(val) = convert_str_to_imm(operand_str.as_str(), var_loc_map) {
        return Ok(Some(Operand::Imm(val)));
    }
    let n = operand_str.as_str().unicode_len();
    if n > 0 && operand_str.as_str().get_char(0) == '.' {
        return Ok(Some(Operand::Label(operand_str)));
    }
    if n > 0 && operand_str.as_str().get_char(0) == '[' {
        if operand_str.as_str().get_char(n - 1) != ']' {
            return Err(AsmError::MalformedBracket);
        }
        let inner = operand_str.as_str().substring_char(1, n - 1);
        if let Some(val) = convert_str_to_imm(inner, var_loc_map) {
            return Ok(Some(Operand::MemAtImm(val)));
        }
        match convert_str_to_reg(inner) {
            Some(reg) => {
                return Ok(Some(Operand::MemAtReg(reg)));
            },
            None => {
                return Err(AsmError::MalformedBracket);
            },
        }
    }
    if let Some(reg) = convert_str_to_reg(operand_str.as_str()) {
        return Ok(Some(Operand::Reg(reg)));
    }
    Err(AsmError::MalformedOperand)
}

/// What parsing one line as an instruction yields.
pub enum SpecVerb {
    /// A well-formed instruction.
    Parsed(VerbView),
    /// A fatal syntax error; assembly aborts.
    Failed(AsmError),
}

/// The meaning of a two-operand line: both operands must be present and
/// match the signature.
pub open spec fn spec_two_op(
    s: Seq<char>,
    m: Map<Seq<char>, u16>,
    mk: spec_fn(OperandView, OperandView) -> VerbView,
    sig: spec_fn(OperandView, OperandView) -> bool,
) -> SpecVerb {
    match spec_parse_operand(s, m) {
        SpecOperand::Error(e) => SpecVerb::Failed(e),
        o1 => match spec_parse_operand(operand_rest(s), m) {
            SpecOperand::Error(e) => SpecVerb::Failed(e),
            o2 => match (o1, o2) {
                (SpecOperand::Found(a), SpecOperand::Found(b)) => if sig(a, b) {
                    SpecVerb::Parsed(mk(a, b))
                } else {
                    SpecVerb::Failed(AsmError::BadOperandKinds)
                },
                _ => SpecVerb::Failed(AsmError::MissingOperand),
            },
        },
    }
}

/// The meaning of a one-operand line; `absent` is the error when the
/// line ends early.
pub open spec fn spec_one_op(
    s: Seq<char>,
    m: Map<Seq<char>, u16>,
    mk: spec_fn(OperandView) -> VerbView,
    sig: spec_fn(OperandView) -> bool,
    absent: AsmError,
) -> SpecVerb {
    match spec_parse_operand(s, m) {
        SpecOperand::Error(e) => SpecVerb::Failed(e),
        SpecOperand::Found(a) => if sig(a) {
            SpecVerb::Parsed(mk(a))
        } else {
            SpecVerb::Failed(AsmError::BadOperandKinds)
        },
        SpecOperand::Absent => SpecVerb::Failed(absent),
    }
}

/// The meaning of a diagnostic line: bare `dbg` dumps the registers, and
/// `dbg` with an immediate is one half of a range dump.
pub open spec fn spec_dbg(s: Seq<char>, m: Map<Seq<char>, u16>) -> SpecVerb {
    match spec_parse_operand(s, m) {
        SpecOperand::Error(e) => SpecVerb::Failed(e),
        SpecOperand::Absent => SpecVerb::Parsed(VerbView::DbgRegs),
        SpecOperand::Found(a) => if a is Imm {
            SpecVerb::Parsed(VerbView::Dbg(a))
        } else {
            SpecVerb::Failed(AsmError::BadOperandKinds)
        },
    }
}

/// The vocabulary of mnemonics, plus a marker for anything else.
#[derive(Debug, PartialEq, Eq, Structural, Clone, Copy)]
pub enum Mnemonic {
    /// `mov`
    Mov,
    /// `jmp`
    Jmp,
    /// `jz`
    Jz,
    /// `jnz`
    Jnz,
    /// `jpos`
    Jpos,
    /// `jposz`
    Jposz,
    /// `jneg`
    Jneg,
    /// `jnegz`
    Jnegz,
    /// `setz`
    Setz,
    /// `setnz`
    Setnz,
    /// `setpos`
    Setpos,
    /// `setposz`
    Setposz,
    /// `setneg`
    Setneg,
    /// `setnegz`
    Setnegz,
    /// `add`
    Add,
    /// `sub`
    Sub,
    /// `and`
    And,
    /// `or`
    Or,
    /// `not`
    Not,
    /// `shl`
    Shl,
    /// `shr`
    Shr,
    /// `dbg`
    Dbg,
    /// `nop`
    Nop,
    /// `halt`
    Halt,
    /// `call`
    Call,
    /// `ret`
    Ret,
    /// `push`
    Push,
    /// `pop`
    Pop,
    /// `loadf`
    Loadf,
    /// `storef`
    Storef,
    /// Not a known mnemonic.
    Unknown,
}

/// Which mnemonic a name is.
pub open spec fn mnemonic_of(n: Seq<char>) -> Mnemonic {
    if n == "mov"@ {
        Mnemonic::Mov
    } else if n == "jmp"@ {
        Mnemonic::Jmp
    } else if n == "jz"@ {
        Mnemonic::Jz
    } else if n == "jnz"@ {
        Mnemonic::Jnz
    } else if n == "jpos"@ {
        Mnemonic::Jpos
    } else if n == "jposz"@ {
        Mnemonic::Jposz
    } else if n == "jneg"@ {
        Mnemonic::Jneg
    } else if n == "jnegz"@ {
        Mnemonic::Jnegz
    } else if n == "setz"@ {
        Mnemonic::Setz
    } else if n == "setnz"@ {
        Mnemonic::Setnz
    } else if n == "setpos"@ {
        Mnemonic::Setpos
    } else if n == "setposz"@ {
        Mnemonic::Setposz
    } else if n == "setneg"@ {
        Mnemonic::Setneg
    } else if n == "setnegz"@ {
        Mnemonic::Setnegz
    } else if n == "add"@ {
        Mnemonic::Add
    } else if n == "sub"@ {
        Mnemonic::Sub
    } else if n == "and"@ {
        Mnemonic::And
    } else if n == "or"@ {
        Mnemonic::Or
    } else if n == "not"@ {
        Mnemonic::Not
    } else if n == "shl"@ {
        Mnemonic::Shl
    } else if n == "shr"@ {
        Mnemonic::Shr
    } else if n == "dbg"@ {
        Mnemonic::Dbg
    } else if n == "nop"@ {
        Mnemonic::Nop
    } else if n == "halt"@ {
        Mnemonic::Halt
    } else if n == "call"@ {
        Mnemonic::Call
    } else if n == "ret"@ {
        Mnemonic::Ret
    } else if n == "push"@ {
        Mnemonic::Push
    } else if n == "pop"@ {
        Mnemonic::Pop
    } else if n == "loadf"@ {
        Mnemonic::Loadf
    } else if n == "storef"@ {
        Mnemonic::Storef
    } else {
        Mnemonic::Unknown
    }
}

/// Reads a name as a mnemonic.
fn mnemonic_code(s: &str) -> (r: Mnemonic)
    ensures
        r == mnemonic_of(s@),
{
    if str_eq(s, "mov") {
        Mnemonic::Mov
    } else if str_eq(s, "jmp") {
        Mnemonic::Jmp
    } else if str_eq(s, "jz") {
        Mnemonic::Jz
    } else if str_eq(s, "jnz") {
        Mnemonic::Jnz
    } else if str_eq(s, "jpos") {
        Mnemonic::Jpos
    } else if str_eq(s, "jposz") {
        Mnemonic::Jposz
    } else if str_eq(s, "jneg") {
        Mnemonic::Jneg
    } else if str_eq(s, "jnegz") {
        Mnemonic::Jnegz
    } else if str_eq(s, "setz") {
        Mnemonic::Setz
    } else if str_eq(s, "setnz") {
        Mnemonic::Setnz
    } else if str_eq(s, "setpos") {
        Mnemonic::Setpos
    } else if str_eq(s, "setposz") {
        Mnemonic::Setposz
    } else if str_eq(s, "setneg") {
        Mnemonic::Setneg
    } else if str_eq(s, "setnegz") {
        Mnemonic::Setnegz
    } else if str_eq(s, "add") {
        Mnemonic::Add
    } else if str_eq(s, "sub") {
        Mnemonic::Sub
    } else if str_eq(s, "and") {
        Mnemonic::And
    } else if str_eq(s, "or") {
        Mnemonic::Or
    } else if str_eq(s, "not") {
        Mnemonic::Not
    } else if str_eq(s, "shl") {
        Mnemonic::Shl
    } else if str_eq(s, "shr") {
        Mnemonic::Shr
    } else if str_eq(s, "dbg") {
        Mnemonic::Dbg
    } else if str_eq(s, "nop") {
        Mnemonic::Nop
    } else if str_eq(s, "halt") {
        Mnemonic::Halt
    } else if str_eq(s, "call") {
        Mnemonic::Call
    } else if str_eq(s, "ret") {
        Mnemonic::Ret
    } else if str_eq(s, "push") {
        Mnemonic::Push
    } else if str_eq(s, "pop") {
        Mnemonic::Pop
    } else if str_eq(s, "loadf") {
        Mnemonic::Loadf
    } else if str_eq(s, "storef") {
        Mnemonic::Storef
    } else {
        Mnemonic::Unknown
    }
}

/// The meaning of one instruction line.
pub open spec fn spec_parse_verb(s: Seq<char>, m: Map<Seq<char>, u16>) -> SpecVerb {
    let w = skip_ws(s);
    let r1 = after_alpha(w);
    match mnemonic_of(alpha_prefix(w)) {
        Mnemonic::Mov => spec_two_op(r1, m, |a, b| VerbView::Mov(a, b), |a, b| mov_sig(a, b)),
        Mnemonic::Jmp => spec_one_op(r1, m, |a| VerbView::Jmp(a), |a| target_sig(a), AsmError::MissingOperand),
        Mnemonic::Jz => spec_two_op(r1, m, |a, b| VerbView::Jz(a, b), |a, b| cond_jump_sig(a, b)),
        Mnemonic::Jnz => spec_two_op(r1, m, |a, b| VerbView::Jnz(a, b), |a, b| cond_jump_sig(a, b)),
        Mnemonic::Jpos => spec_two_op(r1, m, |a, b| VerbView::Jpos(a, b), |a, b| cond_jump_sig(a, b)),
        Mnemonic::Jposz => spec_two_op(r1, m, |a, b| VerbView::Jposz(a, b), |a, b| cond_jump_sig(a, b)),
        Mnemonic::Jneg => spec_two_op(r1, m, |a, b| VerbView::Jneg(a, b), |a, b| cond_jump_sig(a, b)),
        Mnemonic::Jnegz => spec_two_op(r1, m, |a, b| VerbView::Jnegz(a, b), |a, b| cond_jump_sig(a, b)),
        Mnemonic::Setz => spec_two_op(r1, m, |a, b| VerbView::Setz(a, b), |a, b| cond_set_sig(a, b)),
        Mnemonic::Setnz => spec_two_op(r1, m, |a, b| VerbView::Setnz(a, b), |a, b| cond_set_sig(a, b)),
        Mnemonic::Setpos => spec_two_op(r1, m, |a, b| VerbView::Setpos(a, b), |a, b| cond_set_sig(a, b)),
        Mnemonic::Setposz => spec_two_op(r1, m, |a, b| VerbView::Setposz(a, b), |a, b| cond_set_sig(a, b)),
        Mnemonic::Setneg => spec_two_op(r1, m, |a, b| VerbView::Setneg(a, b), |a, b| cond_set_sig(a, b)),
        Mnemonic::Setnegz => spec_two_op(r1, m, |a, b| VerbView::Setnegz(a, b), |a, b| cond_set_sig(a, b)),
        Mnemonic::Add => spec_two_op(r1, m, |a, b| VerbView::Add(a, b), |a, b| arith_sig(a, b)),
        Mnemonic::Sub => spec_two_op(r1, m, |a, b| VerbView::Sub(a, b), |a, b| arith_sig(a, b)),
        Mnemonic::And => spec_two_op(r1, m, |a, b| VerbView::And(a, b), |a, b| arith_sig(a, b)),
        Mnemonic::Or => spec_two_op(r1, m, |a, b| VerbView::Or(a, b), |a, b| arith_sig(a, b)),
        Mnemonic::Not => spec_one_op(r1, m, |a| VerbView::Not(a), |a| a is Reg, AsmError::BadOperandKinds),
        Mnemonic::Shl => spec_two_op(r1, m, |a, b| VerbView::Shl(a, b), |a, b| arith_sig(a, b)),
        Mnemonic::Shr => spec_two_op(r1, m, |a, b| VerbView::Shr(a, b), |a, b| arith_sig(a, b)),
        Mnemonic::Dbg => spec_dbg(r1, m),
        Mnemonic::Nop => SpecVerb::Parsed(VerbView::Nop),
        Mnemonic::Halt => SpecVerb::Parsed(VerbView::Halt),
        Mnemonic::Call => spec_one_op(r1, m, |a| VerbView::Call(a), |a| target_sig(a), AsmError::MissingOperand),
        Mnemonic::Ret => SpecVerb::Parsed(VerbView::Ret),
        Mnemonic::Push => spec_one_op(r1, m, |a| VerbView::Push(a), |a| a is Reg, AsmError::MissingOperand),
        Mnemonic::Pop => spec_one_op(r1, m, |a| VerbView::Pop(a), |a| a is Reg, AsmError::MissingOperand),
        Mnemonic::Loadf => spec_two_op(r1, m, |a, b| VerbView::Loadf(a, b), |a, b| frame_sig(a, b)),
        Mnemonic::Storef => spec_two_op(r1, m, |a, b| VerbView::Storef(a, b), |a, b| frame_sig(a, b)),
        Mnemonic::Unknown => SpecVerb::Failed(AsmError::UnknownVerb),
    }
}

/// Reads two operands and the rest of the line.
fn two_operands(cursor: &mut SourceCodeCursor, var_loc_map: &NameMap) -> (r: Result<
    (Operand, Operand),
    AsmError,
>)
    requires
        old(cursor).wf(),
    ensures
        final(cursor).wf(),
        final(cursor).rest().len() <= old(cursor).rest().len(),
        match r {
            Ok(p) => spec_parse_operand(old(cursor).rest(), var_loc_map@) == SpecOperand::Found(
                p.0@,
            ) && spec_parse_operand(operand_rest(old(cursor).rest()), var_loc_map@)
                == SpecOperand::Found(p.1@) && final(cursor).rest() == after_line(
                old(cursor).rest(),
            ),
            Err(e) => match spec_parse_operand(old(cursor).rest(), var_loc_map@) {
                SpecOperand::Error(e1) => e == e1,
                o1 => match spec_parse_operand(operand_rest(old(cursor).rest()), var_loc_map@) {
                    SpecOperand::Error(e2) => e == e2,
                    o2 => e == AsmError::MissingOperand && !(o1 is Found && o2 is Found),
                },
            },
        },
{
    let o1 = parse_operand(cursor, var_loc_map)?;
    let o2 = parse_operand(cursor, var_loc_map)?;
    consume_rest_of_line(cursor);
    proof {
        lemma_after_line_operand_rest(old(cursor).rest());
        lemma_after_line_operand_rest(operand_rest(old(cursor).rest()));
    }
    match (o1, o2) {
        (Some(a), Some(b)) => Ok((a, b)),
        _ => Err(AsmError::MissingOperand),
    }
}

/// Reads at most one operand and the rest of the line.
fn one_operand(cursor: &mut SourceCodeCursor, var_loc_map: &NameMap) -> (r: Result<
    Option<Operand>,
    AsmError,
>)
    requires
        old(cursor).wf(),
    ensures
        final(cursor).wf(),
        final(cursor).rest().len() <= old(cursor).rest().len(),
        match r {
            Ok(Some(op)) => spec_parse_operand(old(cursor).rest(), var_loc_map@)
                == SpecOperand::Found(op@) && final(cursor).rest() == after_line(
                old(cursor).rest(),
            ),
            Ok(None) => spec_parse_operand(old(cursor).rest(), var_loc_map@)
                == SpecOperand::Absent && final(cursor).rest() == after_line(
                old(cursor).rest(),
            ),
            Err(e) => spec_parse_operand(old(cursor).rest(), var_loc_map@) == SpecOperand::Error(
                e,
            ),
        },
{
    let o = parse_operand(cursor, var_loc_map)?;
    consume_rest_of_line(cursor);
    proof {
        lemma_after_line_operand_rest(old(cursor).rest());
    }
    Ok(o)
}

/// The mnemonics whose lines carry two operands.
pub open spec fn is_two_code(c: Mnemonic) -> bool {
    match c {
        Mnemonic::Mov => true,
        Mnemonic::Jz => true,
        Mnemonic::Jnz => true,
        Mnemonic::Jpos => true,
        Mnemonic::Jposz => true,
        Mnemonic::Jneg => true,
        Mnemonic::Jnegz => true,
        Mnemonic::Setz => true,
        Mnemonic::Setnz => true,
        Mnemonic::Setpos => true,
        Mnemonic::Setposz => true,
        Mnemonic::Setneg => true,
        Mnemonic::Setnegz => true,
        Mnemonic::Add => true,
        Mnemonic::Sub => true,
        Mnemonic::And => true,
        Mnemonic::Or => true,
        Mnemonic::Shl => true,
        Mnemonic::Shr => true,
        Mnemonic::Loadf => true,
        Mnemonic::Storef => true,
        _ => false,
    }
}

/// The mnemonics whose lines carry at most one operand.
pub open spec fn is_one_code(c: Mnemonic) -> bool {
    match c {
        Mnemonic::Jmp => true,
        Mnemonic::Not => true,
        Mnemonic::Dbg => true,
        Mnemonic::Call => true,
        Mnemonic::Push => true,
        Mnemonic::Pop => true,
        _ => false,
    }
}

/// An operand error on a two-operand line is the line's error.
proof fn lemma_two_op_err(s: Seq<char>, m: Map<Seq<char>, u16>, e: AsmError)
    requires
        is_two_code(mnemonic_of(alpha_prefix(skip_ws(s)))),
        ({
            let r1 = after_alpha(skip_ws(s));
            match spec_parse_operand(r1, m) {
                SpecOperand::Error(e1) => e == e1,
                o1 => match spec_parse_operand(operand_rest(r1), m) {
                    SpecOperand::Error(e2) => e == e2,
                    o2 => e == AsmError::MissingOperand && !(o1 is Found && o2 is Found),
                },
            }
        }),
    ensures
        spec_parse_verb(s, m) == SpecVerb::Failed(e),
{
}

/// An operand error on a one-operand line is the line's error.
proof fn lemma_one_err(s: Seq<char>, m: Map<Seq<char>, u16>, e: AsmError)
    requires
        is_one_code(mnemonic_of(alpha_prefix(skip_ws(s)))),
        spec_parse_operand(after_alpha(skip_ws(s)), m) == SpecOperand::Error(e),
    ensures
        spec_parse_verb(s, m) == SpecVerb::Failed(e),
{
}

/// Validates a two-operand line against its mnemonic's signature and
/// builds the instruction.
#[verifier::spinoff_prover]
fn finish_two(
    Ghost(s): Ghost<Seq<char>>,
    Ghost(m): Ghost<Map<Seq<char>, u16>>,
    code: Mnemonic,
    o1: Operand,
    o2: Operand,
) -> (r: Result<Verb, AsmError>)
    requires
        is_two_code(code),
        mnemonic_of(alpha_prefix(skip_ws(s))) == code,
        spec_parse_operand(after_alpha(skip_ws(s)), m) == SpecOperand::Found(o1@),
        spec_parse_operand(operand_rest(after_alpha(skip_ws(s))), m) == SpecOperand::Found(o2@),
    ensures
        match r {
            Ok(v) => spec_parse_verb(s, m) == SpecVerb::Parsed(v@) && v@.wf(),
            Err(e) => spec_parse_verb(s, m) == SpecVerb::Failed(e),
        },
{
    match code {
        Mnemonic::Mov => match (&o1, &o2) {
            (Operand::Reg(_), Operand::Imm(_))
            | (Operand::Reg(_), Operand::MemAtImm(_))
            | (Operand::MemAtImm(_), Operand::Reg(_))
            | (Operand::Reg(_), Operand::Reg(_))
            | (Operand::Reg(_), Operand::MemAtReg(_))
            | (Operand::MemAtReg(_), Operand::Reg(_)) => Ok(Verb::Mov(o1, o2)),
            _ => Err(AsmError::BadOperandKinds),
        },
        Mnemonic::Jz => match (&o1, &o2) {
            (Operand::Imm(_), Operand::Reg(_)) | (Operand::Label(_), Operand::Reg(_)) => Ok(Verb::Jz(o1, o2)),
            _ => Err(AsmError::BadOperandKinds),
        },
        Mnemonic::Jnz => match (&o1, &o2) {
            (Operand::Imm(_), Operand::Reg(_)) | (Operand::Label(_), Operand::Reg(_)) => Ok(Verb::Jnz(o1, o2)),
            _ => Err(AsmError::BadOperandKinds),
        },
        Mnemonic::Jpos => match (&o1, &o2) {
            (Operand::Imm(_), Operand::Reg(_)) | (Operand::Label(_), Operand::Reg(_)) => Ok(Verb::Jpos(o1, o2)),
            _ => Err(AsmError::BadOperandKinds),
        },
        Mnemonic::Jposz => match (&o1, &o2) {
            (Operand::Imm(_), Operand::Reg(_)) | (Operand::Label(_), Operand::Reg(_)) => Ok(Verb::Jposz(o1, o2)),
            _ => Err(AsmError::BadOperandKinds),
        },
        Mnemonic::Jneg => match (&o1, &o2) {
            (Operand::Imm(_), Operand::Reg(_)) | (Operand::Label(_), Operand::Reg(_)) => Ok(Verb::Jneg(o1, o2)),
            _ => Err(AsmError::BadOperandKinds),
        },
        Mnemonic::Jnegz => match (&o1, &o2) {
            (Operand::Imm(_), Operand::Reg(_)) | (Operand::Label(_), Operand::Reg(_)) => Ok(Verb::Jnegz(o1, o2)),
            _ => Err(AsmError::BadOperandKinds),
        },
        Mnemonic::Setz => match (&o1, &o2) {
            (Operand::Reg(_), Operand::Reg(_)) => Ok(Verb::Setz(o1, o2)),
            _ => Err(AsmError::BadOperandKinds),
        },
        Mnemonic::Setnz => match (&o1, &o2) {
            (Operand::Reg(_), Operand::Reg(_)) => Ok(Verb::Setnz(o1, o2)),
            _ => Err(AsmError::BadOperandKinds),
        },
        Mnemonic::Setpos => match (&o1, &o2) {
            (Operand::Reg(_), Operand::Reg(_)) => Ok(Verb::Setpos(o1, o2)),
            _ => Err(AsmError::BadOperandKinds),
        },
        Mnemonic::Setposz => match (&o1, &o2) {
            (Operand::Reg(_), Operand::Reg(_)) => Ok(Verb::Setposz(o1, o2)),
            _ => Err(AsmError::BadOperandKinds),
        },
        Mnemonic::Setneg => match (&o1, &o2) {
            (Operand::Reg(_), Operand::Reg(_)) => Ok(Verb::Setneg(o1, o2)),
            _ => Err(AsmError::BadOperandKinds),
        },
        Mnemonic::Setnegz => match (&o1, &o2) {
            (Operand::Reg(_), Operand::Reg(_)) => Ok(Verb::Setnegz(o1, o2)),
            _ => Err(AsmError::BadOperandKinds),
        },
        Mnemonic::Add => match (&o1, &o2) {
            (Operand::Reg(_), Operand::Reg(_)) | (Operand::Reg(_), Operand::Imm(_)) => Ok(Verb::Add(o1, o2)),
            _ => Err(AsmError::BadOperandKinds),
        },
        Mnemonic::Sub => match (&o1, &o2) {
            (Operand::Reg(_), Operand::Reg(_)) | (Operand::Reg(_), Operand::Imm(_)) => Ok(Verb::Sub(o1, o2)),
            _ => Err(AsmError::BadOperandKinds),
        },
        Mnemonic::And => match (&o1, &o2) {
            (Operand::Reg(_), Operand::Reg(_)) | (Operand::Reg(_), Operand::Imm(_)) => Ok(Verb::And(o1, o2)),
            _ => Err(AsmError::BadOperandKinds),
        },
        Mnemonic::Or => match (&o1, &o2) {
            (Operand::Reg(_), Operand::Reg(_)) | (Operand::Reg(_), Operand::Imm(_)) => Ok(Verb::Or(o1, o2)),
            _ => Err(AsmError::BadOperandKinds),
        },
        Mnemonic::Shl => match (&o1, &o2) {
            (Operand::Reg(_), Operand::Reg(_)) | (Operand::Reg(_), Operand::Imm(_)) => Ok(Verb::Shl(o1, o2)),
            _ => Err(AsmError::BadOperandKinds),
        },
        Mnemonic::Shr => match (&o1, &o2) {
            (Operand::Reg(_), Operand::Reg(_)) | (Operand::Reg(_), Operand::Imm(_)) => Ok(Verb::Shr(o1, o2)),
            _ => Err(AsmError::BadOperandKinds),
        },
        Mnemonic::Loadf => match (&o1, &o2) {
            (Operand::Reg(_), Operand::Imm(_)) => Ok(Verb::Loadf(o1, o2)),
            _ => Err(AsmError::BadOperandKinds),
        },
        Mnemonic::Storef => match (&o1, &o2) {
            (Operand::Reg(_), Operand::Imm(_)) => Ok(Verb::Storef(o1, o2)),
            _ => Err(AsmError::BadOperandKinds),
        },
        _ => vstd::pervasive::unreached(),
    }
}

/// Validates a one-operand (or bare diagnostic) line and builds the
/// instruction.
#[verifier::spinoff_prover]
fn finish_one(
    Ghost(s): Ghost<Seq<char>>,
    Ghost(m): Ghost<Map<Seq<char>, u16>>,
    code: Mnemonic,
    o: Option<Operand>,
) -> (r: Result<Verb, AsmError>)
    requires
        is_one_code(code),
        mnemonic_of(alpha_prefix(skip_ws(s))) == code,
        match o {
            Some(op) => spec_parse_operand(after_alpha(skip_ws(s)), m) == SpecOperand::Found(
                op@,
            ),
            None => spec_parse_operand(after_alpha(skip_ws(s)), m) == SpecOperand::Absent,
        },
    ensures
        match r {
            Ok(v) => spec_parse_verb(s, m) == SpecVerb::Parsed(v@) && v@.wf(),
            Err(e) => spec_parse_verb(s, m) == SpecVerb::Failed(e),
        },
{
    match code {
        Mnemonic::Jmp => match o {
            Some(op) => match &op {
                Operand::Imm(_) | Operand::Label(_) => Ok(Verb::Jmp(op)),
                _ => Err(AsmError::BadOperandKinds),
            },
            None => Err(AsmError::MissingOperand),
        },
        Mnemonic::Not => match o {
            Some(op) => match &op {
                Operand::Reg(_) => Ok(Verb::Not(op)),
                _ => Err(AsmError::BadOperandKinds),
            },
            None => Err(AsmError::BadOperandKinds),
        },
        Mnemonic::Call => match o {
            Some(op) => match &op {
                Operand::Imm(_) | Operand::Label(_) => Ok(Verb::Call(op)),
                _ => Err(AsmError::BadOperandKinds),
            },
            None => Err(AsmError::MissingOperand),
        },
        Mnemonic::Push => match o {
            Some(op) => match &op {
                Operand::Reg(_) => Ok(Verb::Push(op)),
                _ => Err(AsmError::BadOperandKinds),
            },
            None => Err(AsmError::MissingOperand),
        },
        Mnemonic::Pop => match o {
            Some(op) => match &op {
                Operand::Reg(_) => Ok(Verb::Pop(op)),
                _ => Err(AsmError::BadOperandKinds),
            },
            None => Err(AsmError::MissingOperand),
        },
        Mnemonic::Dbg => match o {
            None => Ok(Verb::DbgRegs),
            Some(op) => match &op {
                Operand::Imm(_) => Ok(Verb::Dbg(op)),
                _ => Err(AsmError::BadOperandKinds),
            },
        },
        _ => vstd::pervasive::unreached(),
    }
}

/// Reads one instruction line: a mnemonic, its operands, and the rest of
/// the line. Operand kinds are validated here, never at execution time.
pub fn parse_verb(cursor: &mut SourceCodeCursor, var_loc_map: &NameMap) -> (r: Result<
    Verb,
    AsmError,
>)
    requires
        old(cursor).wf(),
    ensures
        final(cursor).wf(),
        match r {
            Ok(v) => spec_parse_verb(old(cursor).rest(), var_loc_map@) == SpecVerb::Parsed(v@)
                && v@.wf() && final(cursor).rest() == after_line(old(cursor).rest()),
            Err(e) => spec_parse_verb(old(cursor).rest(), var_loc_map@) == SpecVerb::Failed(e),
        },
{
    let ghost s0 = old(cursor).rest();
    consume_whitespace(cursor);
    let ghost w = cursor.rest();
    let verb_name = read_name(cursor);
    proof {
        lemma_after_line_skip_ws(s0);
        lemma_after_line_after_alpha(w);
    }
    let code = mnemonic_code(verb_name.as_str());
    let is_two = match code {
        Mnemonic::Mov => true,
        Mnemonic::Jz => true,
        Mnemonic::Jnz => true,
        Mnemonic::Jpos => true,
        Mnemonic::Jposz => true,
        Mnemonic::Jneg => true,
        Mnemonic::Jnegz => true,
        Mnemonic::Setz => true,
        Mnemonic::Setnz => true,
        Mnemonic::Setpos => true,
        Mnemonic::Setposz => true,
        Mnemonic::Setneg => true,
        Mnemonic::Setnegz => true,
        Mnemonic::Add => true,
        Mnemonic::Sub => true,
        Mnemonic::And => true,
        Mnemonic::Or => true,
        Mnemonic::Shl => true,
        Mnemonic::Shr => true,
        Mnemonic::Loadf => true,
        Mnemonic::Storef => true,
        _ => false,
    };
    let is_one = match code {
        Mnemonic::Jmp => true,
        Mnemonic::Not => true,
        Mnemonic::Dbg => true,
        Mnemonic::Call => true,
        Mnemonic::Push => true,
        Mnemonic::Pop => true,
        _ => false,
    };
    proof {
        assert(is_two == is_two_code(code));
        assert(is_one == is_one_code(code));
    }
    if is_two {
        let p = match two_operands(cursor, var_loc_map) {
            Ok(p) => p,
            Err(e) => {
                proof {
                    lemma_two_op_err(s0, var_loc_map@, e);
                }
                return Err(e);
            },
        };
        finish_two(Ghost(s0), Ghost(var_loc_map@), code, p.0, p.1)
    } else if is_one {
        let o = match one_operand(cursor, var_loc_map) {
            Ok(o) => o,
            Err(e) => {
                proof {
                    lemma_one_err(s0, var_loc_map@, e);
                }
                return Err(e);
            },
        };
        finish_one(Ghost(s0), Ghost(var_loc_map@), code, o)
    } else {
        match code {
            Mnemonic::Nop => {
                consume_rest_of_line(cursor);
                Ok(Verb::Nop)
            },
            Mnemonic::Halt => {
                consume_rest_of_line(cursor);
                Ok(Verb::Halt)
            },
            Mnemonic::Ret => {
                consume_rest_of_line(cursor);
                Ok(Verb::Ret)
            },
            _ => Err(AsmError::UnknownVerb),
        }
    }
}


/// A symbolic label the disassembler can print and the parser will read
/// back: nonempty, marker first, and free of whitespace.
pub open spec fn label_renderable(n: Seq<char>) -> bool {
    &&& n.len() >= 1
    &&& n[0] == '.'
    &&& forall|j: int| 0 <= j < n.len() ==> !is_ascii_ws(#[trigger] n[j])
}

/// Whether an operand's textual form reads back as the same operand.
pub open spec fn op_renderable(o: OperandView) -> bool {
    match o {
        OperandView::Label(n) => label_renderable(n),
        _ => true,
    }
}

/// The register numeral's characters are hexadecimal digits.
proof fn lemma_render_reg_digits(r: Reg)
    ensures
        1 <= crate::instr_repr::spec_render_reg(r).len() <= 2,
        forall|j: int|
            0 <= j < crate::instr_repr::spec_render_reg(r).len() ==> crate::text::is_hex_digit(
                #[trigger] crate::instr_repr::spec_render_reg(r)[j],
            ),
{
    crate::instr_repr::lemma_reg_id_bound(r);
    let id = r.spec_id();
    if id < 10 {
        crate::text::lemma_hex_digit_roundtrip(id);
    } else {
        crate::text::lemma_hex_digit_roundtrip((id - 10) as u8);
        assert(crate::text::is_hex_digit('1'));
    }
}

/// The register token `R` + numeral reads back as that register.
proof fn lemma_reg_token(r: Reg)
    ensures
        spec_convert_str_to_reg("R"@ + crate::instr_repr::spec_render_reg(r)) == Some(r),
{
    reveal_strlit("R");
    crate::instr_repr::lemma_reg_id_bound(r);
    lemma_reg_from_id(r);
    let id = r.spec_id();
    let t = "R"@ + crate::instr_repr::spec_render_reg(r);
    if id < 10 {
        crate::text::lemma_hex_digit_roundtrip(id);
        assert(t.len() == 2);
        assert(t[0] == 'R');
        assert(t[1] == crate::text::spec_hex_digit(id));
    } else {
        crate::text::lemma_hex_digit_roundtrip((id - 10) as u8);
        assert(t.len() == 3);
        assert(t[0] == 'R');
        assert(t[1] == '1');
        assert(t[2] == crate::text::spec_hex_digit((id - 10) as u8));
    }
}

/// No register name is a numeral, a label, or a bracket form.
proof fn lemma_reg_token_class(r: Reg)
    ensures
        ({
            let t = "R"@ + crate::instr_repr::spec_render_reg(r);
            &&& t.len() >= 2
            &&& t[0] == 'R'
            &&& forall|j: int| 0 <= j < t.len() ==> !is_ascii_ws(#[trigger] t[j])
            &&& spec_convert_str_to_imm(t, Map::empty()) is None
        }),
{
    reveal_strlit("R");
    lemma_render_reg_digits(r);
    let t = "R"@ + crate::instr_repr::spec_render_reg(r);
    assert forall|j: int| 0 <= j < t.len() implies !is_ascii_ws(#[trigger] t[j]) by {
        if j > 0 {
            crate::text::lemma_hex_digit_class(crate::instr_repr::spec_render_reg(r)[j - 1]);
        }
    }
    assert(!crate::text::is_dec_digit('R'));
    assert(spec_parse_u64(t, false) is None);
}

/// An immediate's numeral token reads back as the immediate.
proof fn lemma_imm_token(v: u16)
    ensures
        ({
            let t = "0x"@ + crate::text::spec_hex_seq(v);
            &&& t.len() >= 3
            &&& t[0] == '0'
            &&& forall|j: int| 0 <= j < t.len() ==> !is_ascii_ws(#[trigger] t[j])
            &&& spec_convert_str_to_imm(t, Map::empty()) == Some(v)
        }),
{
    reveal_strlit("0x");
    crate::text::lemma_hex_seq_roundtrip(v);
    let h = crate::text::spec_hex_seq(v);
    let t = "0x"@ + h;
    assert forall|j: int| 0 <= j < t.len() implies !is_ascii_ws(#[trigger] t[j]) by {
        if j >= 2 {
            crate::text::lemma_hex_digit_class(h[j - 2]);
        }
    }
    assert(t.skip(2) =~= h);
    crate::text::lemma_hex_digit_class(h[0]);
    assert(spec_parse_u64(h, true) == Some(crate::text::digits_val(h, true) as u64));
    assert(crate::text::digits_val(h, true) == v);
    assert((v as u64) as u16 == v);
}

/// An operand's textual form is one whitespace-free token and reads back
/// as the same operand, under an empty location table.
proof fn lemma_classify_render(o: OperandView)
    requires
        op_renderable(o),
    ensures
        o.spec_render().len() >= 1,
        forall|j: int| 0 <= j < o.spec_render().len() ==> !is_ascii_ws(#[trigger] o.spec_render()[j]),
        classify_token(o.spec_render(), Map::empty()) == SpecOperand::Found(o),
{
    reveal_strlit("R");
    reveal_strlit("0x");
    reveal_strlit("[R");
    reveal_strlit("[0x");
    reveal_strlit("]");
    let t = o.spec_render();
    match o {
        OperandView::Reg(r) => {
            lemma_reg_token(r);
            lemma_reg_token_class(r);
        },
        OperandView::Imm(v) => {
            lemma_imm_token(v);
        },
        OperandView::Label(n) => {
            assert(t == n);
            assert(!crate::text::is_dec_digit('.'));
            assert(spec_parse_u64(n, false) is None);
            assert(spec_convert_str_to_imm(n, Map::empty()) is None);
        },
        OperandView::MemAtReg(r) => {
            lemma_reg_token(r);
            lemma_reg_token_class(r);
            let rt = "R"@ + crate::instr_repr::spec_render_reg(r);
            assert(t =~= seq!['['] + rt + seq![']']);
            assert forall|j: int| 0 <= j < t.len() implies !is_ascii_ws(#[trigger] t[j]) by {
                if 1 <= j < t.len() - 1 {
                    assert(t[j] == rt[j - 1]);
                }
            }
            assert(t[0] == '[');
            assert(t[t.len() - 1] == ']');
            assert(!crate::text::is_dec_digit('['));
            assert(spec_parse_u64(t, false) is None);
            assert(spec_convert_str_to_imm(t, Map::empty()) is None);
            assert(t.subrange(1, t.len() - 1) =~= rt);
            assert(classify_token(t, Map::empty()) == SpecOperand::Found(o));
        },
        OperandView::MemAtImm(v) => {
            lemma_imm_token(v);
            let it = "0x"@ + crate::text::spec_hex_seq(v);
            assert(t =~= seq!['['] + it + seq![']']);
            assert forall|j: int| 0 <= j < t.len() implies !is_ascii_ws(#[trigger] t[j]) by {
                if 1 <= j < t.len() - 1 {
                    assert(t[j] == it[j - 1]);
                }
            }
            assert(t[0] == '[');
            assert(t[t.len() - 1] == ']');
            assert(!crate::text::is_dec_digit('['));
            assert(spec_parse_u64(t, false) is None);
            assert(spec_convert_str_to_imm(t, Map::empty()) is None);
            assert(t.subrange(1, t.len() - 1) =~= it);
            assert(classify_token(t, Map::empty()) == SpecOperand::Found(o));
        },
    }
}

/// Reading one operand out of ` <operand><tail>` yields the operand and
/// leaves the tail, when the tail is empty or starts with a space.
proof fn lemma_operand_at(x: Seq<char>, o: OperandView, tail: Seq<char>)
    requires
        op_renderable(o),
        x == seq![' '] + o.spec_render() + tail,
        tail.len() > 0 ==> tail[0] == ' ',
    ensures
        spec_parse_operand(x, Map::empty()) == SpecOperand::Found(o),
        operand_rest(x) == tail,
{
    lemma_classify_render(o);
    let t = o.spec_render();
    assert(x[0] == ' ');
    assert(x[1] == t[0]);
    lemma_lead_count_is(x, line_ws_p(), 1);
    let w = skip_ws(x);
    assert(w =~= t + tail);
    assert forall|j: int| 0 <= j < t.len() implies tok_p()(#[trigger] w[j]) by {
        assert(w[j] == t[j]);
    }
    lemma_lead_count_is(w, tok_p(), t.len() as int);
    assert(token_of(w) =~= t);
    assert(after_token(w) =~= tail);
    assert(w[0] == t[0]);
    assert(!is_ascii_ws(t[0]));
}

/// A line that starts with a mnemonic keeps it: nothing is skipped, the
/// mnemonic is the alphabetic prefix, and the rest follows it.
proof fn lemma_name_stage(name: Seq<char>, rest: Seq<char>)
    requires
        name.len() >= 1,
        forall|j: int| 0 <= j < name.len() ==> crate::text::is_ascii_alpha(#[trigger] name[j]),
        rest.len() > 0 ==> rest[0] == ' ',
    ensures
        skip_ws(name + rest) == name + rest,
        alpha_prefix(name + rest) == name,
        after_alpha(name + rest) == rest,
{
    let s = name + rest;
    crate::text::lemma_alpha_class(name[0]);
    assert(s[0] == name[0]);
    lemma_lead_count_is(s, line_ws_p(), 0);
    assert(skip_ws(s) =~= s);
    assert forall|j: int| 0 <= j < name.len() implies alpha_p()(#[trigger] s[j]) by {
        assert(s[j] == name[j]);
    }
    if rest.len() > 0 {
        assert(s[name.len() as int] == ' ');
    }
    lemma_lead_count_is(s, alpha_p(), name.len() as int);
    assert(alpha_prefix(s) =~= name);
    assert(after_alpha(s) =~= rest);
}

/// Two rendered operands after a mnemonic read back as themselves.
proof fn lemma_two_stage(o1: OperandView, o2: OperandView, r1: Seq<char>)
    requires
        op_renderable(o1),
        op_renderable(o2),
        r1 == seq![' '] + o1.spec_render() + " "@ + o2.spec_render(),
    ensures
        spec_parse_operand(r1, Map::empty()) == SpecOperand::Found(o1),
        spec_parse_operand(operand_rest(r1), Map::empty()) == SpecOperand::Found(o2),
{
    reveal_strlit(" ");
    let tail1 = seq![' '] + o2.spec_render();
    assert(r1 =~= seq![' '] + o1.spec_render() + tail1);
    lemma_operand_at(r1, o1, tail1);
    let empty_tail = Seq::<char>::empty();
    assert(tail1 =~= seq![' '] + o2.spec_render() + empty_tail);
    lemma_operand_at(tail1, o2, empty_tail);
}

/// On an empty remainder no operand is read.
proof fn lemma_absent_stage(r1: Seq<char>)
    requires
        r1.len() == 0 || r1 == " "@,
    ensures
        spec_parse_operand(r1, Map::empty()) == SpecOperand::Absent,
{
    reveal_strlit(" ");
    if r1.len() == 0 {
        assert(skip_ws(r1) =~= r1);
    } else {
        assert(r1[0] == ' ');
        lemma_lead_count_is(r1, line_ws_p(), 1);
        assert(skip_ws(r1) =~= Seq::<char>::empty());
    }
}

/// Whether an instruction's textual form reads back as the same
/// instruction: every symbolic label in it must be printable.
pub open spec fn verb_renderable(v: VerbView) -> bool {
    match v {
        VerbView::Mov(o1, o2) => op_renderable(o1) && op_renderable(o2),
        VerbView::Jmp(o) => op_renderable(o),
        VerbView::Jz(o1, o2) => op_renderable(o1) && op_renderable(o2),
        VerbView::Jnz(o1, o2) => op_renderable(o1) && op_renderable(o2),
        VerbView::Jpos(o1, o2) => op_renderable(o1) && op_renderable(o2),
        VerbView::Jposz(o1, o2) => op_renderable(o1) && op_renderable(o2),
        VerbView::Jneg(o1, o2) => op_renderable(o1) && op_renderable(o2),
        VerbView::Jnegz(o1, o2) => op_renderable(o1) && op_renderable(o2),
        VerbView::Setz(o1, o2) => op_renderable(o1) && op_renderable(o2),
        VerbView::Setnz(o1, o2) => op_renderable(o1) && op_renderable(o2),
        VerbView::Setpos(o1, o2) => op_renderable(o1) && op_renderable(o2),
        VerbView::Setposz(o1, o2) => op_renderable(o1) && op_renderable(o2),
        VerbView::Setneg(o1, o2) => op_renderable(o1) && op_renderable(o2),
        VerbView::Setnegz(o1, o2) => op_renderable(o1) && op_renderable(o2),
        VerbView::Add(o1, o2) => op_renderable(o1) && op_renderable(o2),
        VerbView::Sub(o1, o2) => op_renderable(o1) && op_renderable(o2),
        VerbView::And(o1, o2) => op_renderable(o1) && op_renderable(o2),
        VerbView::Or(o1, o2) => op_renderable(o1) && op_renderable(o2),
        VerbView::Not(o) => op_renderable(o),
        VerbView::Shl(o1, o2) => op_renderable(o1) && op_renderable(o2),
        VerbView::Shr(o1, o2) => op_renderable(o1) && op_renderable(o2),
        VerbView::Dbg(o) => op_renderable(o),
        VerbView::DbgRegs => true,
        VerbView::Nop => true,
        VerbView::Halt => true,
        VerbView::Call(o) => op_renderable(o),
        VerbView::Ret => true,
        VerbView::Push(o) => op_renderable(o),
        VerbView::Pop(o) => op_renderable(o),
        VerbView::Loadf(o1, o2) => op_renderable(o1) && op_renderable(o2),
        VerbView::Storef(o1, o2) => op_renderable(o1) && op_renderable(o2),
    }
}

/// Round trip for `mov`.
proof fn lemma_rt_mov(o1: OperandView, o2: OperandView)
    requires
        VerbView::Mov(o1, o2).wf(),
        op_renderable(o1),
        op_renderable(o2),
    ensures
        spec_parse_verb(VerbView::Mov(o1, o2).spec_render(), Map::empty()) == SpecVerb::Parsed(
            VerbView::Mov(o1, o2),
        ),
{
    reveal_strlit("mov ");
    reveal_strlit("mov");
    reveal_strlit(" ");
    assert("mov"@.len() == 3);
    assert forall|j: int| 0 <= j < "mov"@.len() implies crate::text::is_ascii_alpha(
        #[trigger] "mov"@[j],
    ) by {
        if j == 0 {
            assert("mov"@[0] == 'm');
        } else if j == 1 {
            assert("mov"@[1] == 'o');
        } else {
            assert("mov"@[2] == 'v');
        }
    }
    let name = "mov"@;
    let v = VerbView::Mov(o1, o2);
    let s = v.spec_render();
    let rest = seq![' '] + o1.spec_render() + " "@ + o2.spec_render();
    assert(s =~= name + rest);
    lemma_name_stage(name, rest);
    lemma_two_stage(o1, o2, rest);
    assert(mnemonic_of(name) == Mnemonic::Mov);
    assert(spec_parse_verb(s, Map::empty()) == SpecVerb::Parsed(v));
}
/// Round trip for `jmp`.
proof fn lemma_rt_jmp(o: OperandView)
    requires
        VerbView::Jmp(o).wf(),
        op_renderable(o),
    ensures
        spec_parse_verb(VerbView::Jmp(o).spec_render(), Map::empty()) == SpecVerb::Parsed(
            VerbView::Jmp(o),
        ),
{
    reveal_strlit("jmp ");
    reveal_strlit("jmp");
    reveal_strlit(" ");
    assert("jmp"@.len() == 3);
    reveal_strlit("mov");
    assert("mov"@.len() == 3);
    assert("jmp"@[0] == 'j');
    assert("mov"@[0] == 'm');
    assert("jmp"@ != "mov"@);
    assert forall|j: int| 0 <= j < "jmp"@.len() implies crate::text::is_ascii_alpha(
        #[trigger] "jmp"@[j],
    ) by {
        if j == 0 {
            assert("jmp"@[0] == 'j');
        } else if j == 1 {
            assert("jmp"@[1] == 'm');
        } else {
            assert("jmp"@[2] == 'p');
        }
    }
    let name = "jmp"@;
    let v = VerbView::Jmp(o);
    let s = v.spec_render();
    let rest = seq![' '] + o.spec_render() + " "@;
    assert(s =~= name + rest);
    lemma_name_stage(name, rest);
    let tail = " "@;
    assert(rest =~= seq![' '] + o.spec_render() + tail);
    lemma_operand_at(rest, o, tail);
    assert(mnemonic_of(name) == Mnemonic::Jmp);
    assert(spec_parse_verb(s, Map::empty()) == SpecVerb::Parsed(v));
}
/// Round trip for `jz`.
proof fn lemma_rt_jz(o1: OperandView, o2: OperandView)
    requires
        VerbView::Jz(o1, o2).wf(),
        op_renderable(o1),
        op_renderable(o2),
    ensures
        spec_parse_verb(VerbView::Jz(o1, o2).spec_render(), Map::empty()) == SpecVerb::Parsed(
            VerbView::Jz(o1, o2),
        ),
{
    reveal_strlit("jz ");
    reveal_strlit("jz");
    reveal_strlit(" ");
    assert("jz"@.len() == 2);
    reveal_strlit("mov");
    assert("mov"@.len() == 3);
    assert("jz"@ != "mov"@);
    reveal_strlit("jmp");
    assert("jmp"@.len() == 3);
    assert("jz"@ != "jmp"@);
    assert forall|j: int| 0 <= j < "jz"@.len() implies crate::text::is_ascii_alpha(
        #[trigger] "jz"@[j],
    ) by {
        if j == 0 {
            assert("jz"@[0] == 'j');
        } else {
            assert("jz"@[1] == 'z');
        }
    }
    let name = "jz"@;
    let v = VerbView::Jz(o1, o2);
    let s = v.spec_render();
    let rest = seq![' '] + o1.spec_render() + " "@ + o2.spec_render();
    assert(s =~= name + rest);
    lemma_name_stage(name, rest);
    lemma_two_stage(o1, o2, rest);
    assert(mnemonic_of(name) == Mnemonic::Jz);
    assert(spec_parse_verb(s, Map::empty()) == SpecVerb::Parsed(v));
}
/// Round trip for `jnz`.
proof fn lemma_rt_jnz(o1: OperandView, o2: OperandView)
    requires
        VerbView::Jnz(o1, o2).wf(),
        op_renderable(o1),
        op_renderable(o2),
    ensures
        spec_parse_verb(VerbView::Jnz(o1, o2).spec_render(), Map::empty()) == SpecVerb::Parsed(
            VerbView::Jnz(o1, o2),
        ),
{
    reveal_strlit("jnz ");
    reveal_strlit("jnz");
    reveal_strlit(" ");
    assert("jnz"@.len() == 3);
    reveal_strlit("mov");
    assert("mov"@.len() == 3);
    assert("jnz"@[0] == 'j');
    assert("mov"@[0] == 'm');
    assert("jnz"@ != "mov"@);
    reveal_strlit("jmp");
    assert("jmp"@.len() == 3);
    assert("jnz"@[1] == 'n');
    assert("jmp"@[1] == 'm');
    assert("jnz"@ != "jmp"@);
    reveal_strlit("jz");
    assert("jz"@.len() == 2);
    assert("jnz"@ != "jz"@);
    assert forall|j: int| 0 <= j < "jnz"@.len() implies crate::text::is_ascii_alpha(
        #[trigger] "jnz"@[j],
    ) by {
        if j == 0 {
            assert("jnz"@[0] == 'j');
        } else if j == 1 {
            assert("jnz"@[1] == 'n');
        } else {
            assert("jnz"@[2] == 'z');
        }
    }
    let name = "jnz"@;
    let v = VerbView::Jnz(o1, o2);
    let s = v.spec_render();
    let rest = seq![' '] + o1.spec_render() + " "@ + o2.spec_render();
    assert(s =~= name + rest);
    lemma_name_stage(name, rest);
    lemma_two_stage(o1, o2, rest);
    assert(mnemonic_of(name) == Mnemonic::Jnz);
    assert(spec_parse_verb(s, Map::empty()) == SpecVerb::Parsed(v));
}
/// Round trip for `jpos`.
proof fn lemma_rt_jpos(o1: OperandView, o2: OperandView)
    requires
        VerbView::Jpos(o1, o2).wf(),
        op_renderable(o1),
        op_renderable(o2),
    ensures
        spec_parse_verb(VerbView::Jpos(o1, o2).spec_render(), Map::empty()) == SpecVerb::Parsed(
            VerbView::Jpos(o1, o2),
        ),
{
    reveal_strlit("jpos ");
    reveal_strlit("jpos");
    reveal_strlit(" ");
    assert("jpos"@.len() == 4);
    reveal_strlit("mov");
    assert("mov"@.len() == 3);
    assert("jpos"@ != "mov"@);
    reveal_strlit("jmp");
    assert("jmp"@.len() == 3);
    assert("jpos"@ != "jmp"@);
    reveal_strlit("jz");
    assert("jz"@.len() == 2);
    assert("jpos"@ != "jz"@);
    reveal_strlit("jnz");
    assert("jnz"@.len() == 3);
    assert("jpos"@ != "jnz"@);
    assert forall|j: int| 0 <= j < "jpos"@.len() implies crate::text::is_ascii_alpha(
        #[trigger] "jpos"@[j],
    ) by {
        if j == 0 {
            assert("jpos"@[0] == 'j');
        } else if j == 1 {
            assert("jpos"@[1] == 'p');
        } else if j == 2 {
            assert("jpos"@[2] == 'o');
        } else {
            assert("jpos"@[3] == 's');
        }
    }
    let name = "jpos"@;
    let v = VerbView::Jpos(o1, o2);
    let s = v.spec_render();
    let rest = seq![' '] + o1.spec_render() + " "@ + o2.spec_render();
    assert(s =~= name + rest);
    lemma_name_stage(name, rest);
    lemma_two_stage(o1, o2, rest);
    assert(mnemonic_of(name) == Mnemonic::Jpos);
    assert(spec_parse_verb(s, Map::empty()) == SpecVerb::Parsed(v));
}
/// Round trip for `jposz`.
proof fn lemma_rt_jposz(o1: OperandView, o2: OperandView)
    requires
        VerbView::Jposz(o1, o2).wf(),
        op_renderable(o1),
        op_renderable(o2),
    ensures
        spec_parse_verb(VerbView::Jposz(o1, o2).spec_render(), Map::empty()) == SpecVerb::Parsed(
            VerbView::Jposz(o1, o2),
        ),
{
    reveal_strlit("jposz ");
    reveal_strlit("jposz");
    reveal_strlit(" ");
    assert("jposz"@.len() == 5);
    reveal_strlit("mov");
    assert("mov"@.len() == 3);
    assert("jposz"@ != "mov"@);
    reveal_strlit("jmp");
    assert("jmp"@.len() == 3);
    assert("jposz"@ != "jmp"@);
    reveal_strlit("jz");
    assert("jz"@.len() == 2);
    assert("jposz"@ != "jz"@);
    reveal_strlit("jnz");
    assert("jnz"@.len() == 3);
    assert("jposz"@ != "jnz"@);
    reveal_strlit("jpos");
    assert("jpos"@.len() == 4);
    assert("jposz"@ != "jpos"@);
    assert forall|j: int| 0 <= j < "jposz"@.len() implies crate::text::is_ascii_alpha(
        #[trigger] "jposz"@[j],
    ) by {
        if j == 0 {
            assert("jposz"@[0] == 'j');
        } else if j == 1 {
            assert("jposz"@[1] == 'p');
        } else if j == 2 {
            assert("jposz"@[2] == 'o');
        } else if j == 3 {
            assert("jposz"@[3] == 's');
        } else {
            assert("jposz"@[4] == 'z');
        }
    }
    let name = "jposz"@;
    let v = VerbView::Jposz(o1, o2);
    let s = v.spec_render();
    let rest = seq![' '] + o1.spec_render() + " "@ + o2.spec_render();
    assert(s =~= name + rest);
    lemma_name_stage(name, rest);
    lemma_two_stage(o1, o2, rest);
    assert(mnemonic_of(name) == Mnemonic::Jposz);
    assert(spec_parse_verb(s, Map::empty()) == SpecVerb::Parsed(v));
}
/// Round trip for `jneg`.
proof fn lemma_rt_jneg(o1: OperandView, o2: OperandView)
    requires
        VerbView::Jneg(o1, o2).wf(),
        op_renderable(o1),
        op_renderable(o2),
    ensures
        spec_parse_verb(VerbView::Jneg(o1, o2).spec_render(), Map::empty()) == SpecVerb::Parsed(
            VerbView::Jneg(o1, o2),
        ),
{
    reveal_strlit("jneg ");
    reveal_strlit("jneg");
    reveal_strlit(" ");
    assert("jneg"@.len() == 4);
    reveal_strlit("mov");
    assert("mov"@.len() == 3);
    assert("jneg"@ != "mov"@);
    reveal_strlit("jmp");
    assert("jmp"@.len() == 3);
    assert("jneg"@ != "jmp"@);
    reveal_strlit("jz");
    assert("jz"@.len() == 2);
    assert("jneg"@ != "jz"@);
    reveal_strlit("jnz");
    assert("jnz"@.len() == 3);
    assert("jneg"@ != "jnz"@);
    reveal_strlit("jpos");
    assert("jpos"@.len() == 4);
    assert("jneg"@[1] == 'n');
    assert("jpos"@[1] == 'p');
    assert("jneg"@ != "jpos"@);
    reveal_strlit("jposz");
    assert("jposz"@.len() == 5);
    assert("jneg"@ != "jposz"@);
    assert forall|j: int| 0 <= j < "jneg"@.len() implies crate::text::is_ascii_alpha(
        #[trigger] "jneg"@[j],
    ) by {
        if j == 0 {
            assert("jneg"@[0] == 'j');
        } else if j == 1 {
            assert("jneg"@[1] == 'n');
        } else if j == 2 {
            assert("jneg"@[2] == 'e');
        } else {
            assert("jneg"@[3] == 'g');
        }
    }
    let name = "jneg"@;
    let v = VerbView::Jneg(o1, o2);
    let s = v.spec_render();
    let rest = seq![' '] + o1.spec_render() + " "@ + o2.spec_render();
    assert(s =~= name + rest);
    lemma_name_stage(name, rest);
    lemma_two_stage(o1, o2, rest);
    assert(mnemonic_of(name) == Mnemonic::Jneg);
    assert(spec_parse_verb(s, Map::empty()) == SpecVerb::Parsed(v));
}
/// Round trip for `jnegz`.
proof fn lemma_rt_jnegz(o1: OperandView, o2: OperandView)
    requires
        VerbView::Jnegz(o1, o2).wf(),
        op_renderable(o1),
        op_renderable(o2),
    ensures
        spec_parse_verb(VerbView::Jnegz(o1, o2).spec_render(), Map::empty()) == SpecVerb::Parsed(
            VerbView::Jnegz(o1, o2),
        ),
{
    reveal_strlit("jnegz ");
    reveal_strlit("jnegz");
    reveal_strlit(" ");
    assert("jnegz"@.len() == 5);
    reveal_strlit("mov");
    assert("mov"@.len() == 3);
    assert("jnegz"@ != "mov"@);
    reveal_strlit("jmp");
    assert("jmp"@.len() == 3);
    assert("jnegz"@ != "jmp"@);
    reveal_strlit("jz");
    assert("jz"@.len() == 2);
    assert("jnegz"@ != "jz"@);
    reveal_strlit("jnz");
    assert("jnz"@.len() == 3);
    assert("jnegz"@ != "jnz"@);
    reveal_strlit("jpos");
    assert("jpos"@.len() == 4);
    assert("jnegz"@ != "jpos"@);
    reveal_strlit("jposz");
    assert("jposz"@.len() == 5);
    assert("jnegz"@[1] == 'n');
    assert("jposz"@[1] == 'p');
    assert("jnegz"@ != "jposz"@);
    reveal_strlit("jneg");
    assert("jneg"@.len() == 4);
    assert("jnegz"@ != "jneg"@);
    assert forall|j: int| 0 <= j < "jnegz"@.len() implies crate::text::is_ascii_alpha(
        #[trigger] "jnegz"@[j],
    ) by {
        if j == 0 {
            assert("jnegz"@[0] == 'j');
        } else if j == 1 {
            assert("jnegz"@[1] == 'n');
        } else if j == 2 {
            assert("jnegz"@[2] == 'e');
        } else if j == 3 {
            assert("jnegz"@[3] == 'g');
        } else {
            assert("jnegz"@[4] == 'z');
        }
    }
    let name = "jnegz"@;
    let v = VerbView::Jnegz(o1, o2);
    let s = v.spec_render();
    let rest = seq![' '] + o1.spec_render() + " "@ + o2.spec_render();
    assert(s =~= name + rest);
    lemma_name_stage(name, rest);
    lemma_two_stage(o1, o2, rest);
    assert(mnemonic_of(name) == Mnemonic::Jnegz);
    assert(spec_parse_verb(s, Map::empty()) == SpecVerb::Parsed(v));
}
/// Round trip for `setz`.
proof fn lemma_rt_setz(o1: OperandView, o2: OperandView)
    requires
        VerbView::Setz(o1, o2).wf(),
        op_renderable(o1),
        op_renderable(o2),
    ensures
        spec_parse_verb(VerbView::Setz(o1, o2).spec_render(), Map::empty()) == SpecVerb::Parsed(
            VerbView::Setz(o1, o2),
        ),
{
    reveal_strlit("setz ");
    reveal_strlit("setz");
    reveal_strlit(" ");
    assert("setz"@.len() == 4);
    reveal_strlit("mov");
    assert("mov"@.len() == 3);
    assert("setz"@ != "mov"@);
    reveal_strlit("jmp");
    assert("jmp"@.len() == 3);
    assert("setz"@ != "jmp"@);
    reveal_strlit("jz");
    assert("jz"@.len() == 2);
    assert("setz"@ != "jz"@);
    reveal_strlit("jnz");
    assert("jnz"@.len() == 3);
    assert("setz"@ != "jnz"@);
    reveal_strlit("jpos");
    assert("jpos"@.len() == 4);
    assert("setz"@[0] == 's');
    assert("jpos"@[0] == 'j');
    assert("setz"@ != "jpos"@);
    reveal_strlit("jposz");
    assert("jposz"@.len() == 5);
    assert("setz"@ != "jposz"@);
    reveal_strlit("jneg");
    assert("jneg"@.len() == 4);
    assert("setz"@[0] == 's');
    assert("jneg"@[0] == 'j');
    assert("setz"@ != "jneg"@);
    reveal_strlit("jnegz");
    assert("jnegz"@.len() == 5);
    assert("setz"@ != "jnegz"@);
    assert forall|j: int| 0 <= j < "setz"@.len() implies crate::text::is_ascii_alpha(
        #[trigger] "setz"@[j],
    ) by {
        if j == 0 {
            assert("setz"@[0] == 's');
        } else if j == 1 {
            assert("setz"@[1] == 'e');
        } else if j == 2 {
            assert("setz"@[2] == 't');
        } else {
            assert("setz"@[3] == 'z');
        }
    }
    let name = "setz"@;
    let v = VerbView::Setz(o1, o2);
    let s = v.spec_render();
    let rest = seq![' '] + o1.spec_render() + " "@ + o2.spec_render();
    assert(s =~= name + rest);
    lemma_name_stage(name, rest);
    lemma_two_stage(o1, o2, rest);
    assert(mnemonic_of(name) == Mnemonic::Setz);
    assert(spec_parse_verb(s, Map::empty()) == SpecVerb::Parsed(v));
}
/// Round trip for `setnz`.
proof fn lemma_rt_setnz(o1: OperandView, o2: OperandView)
    requires
        VerbView::Setnz(o1, o2).wf(),
        op_renderable(o1),
        op_renderable(o2),
    ensures
        spec_parse_verb(VerbView::Setnz(o1, o2).spec_render(), Map::empty()) == SpecVerb::Parsed(
            VerbView::Setnz(o1, o2),
        ),
{
    reveal_strlit("setnz ");
    reveal_strlit("setnz");
    reveal_strlit(" ");
    assert("setnz"@.len() == 5);
    reveal_strlit("mov");
    assert("mov"@.len() == 3);
    assert("setnz"@ != "mov"@);
    reveal_strlit("jmp");
    assert("jmp"@.len() == 3);
    assert("setnz"@ != "jmp"@);
    reveal_strlit("jz");
    assert("jz"@.len() == 2);
    assert("setnz"@ != "jz"@);
    reveal_strlit("jnz");
    assert("jnz"@.len() == 3);
    assert("setnz"@ != "jnz"@);
    reveal_strlit("jpos");
    assert("jpos"@.len() == 4);
    assert("setnz"@ != "jpos"@);
    reveal_strlit("jposz");
    assert("jposz"@.len() == 5);
    assert("setnz"@[0] == 's');
    assert("jposz"@[0] == 'j');
    assert("setnz"@ != "jposz"@);
    reveal_strlit("jneg");
    assert("jneg"@.len() == 4);
    assert("setnz"@ != "jneg"@);
    reveal_strlit("jnegz");
    assert("jnegz"@.len() == 5);
    assert("setnz"@[0] == 's');
    assert("jnegz"@[0] == 'j');
    assert("setnz"@ != "jnegz"@);
    reveal_strlit("setz");
    assert("setz"@.len() == 4);
    assert("setnz"@ != "setz"@);
    assert forall|j: int| 0 <= j < "setnz"@.len() implies crate::text::is_ascii_alpha(
        #[trigger] "setnz"@[j],
    ) by {
        if j == 0 {
            assert("setnz"@[0] == 's');
        } else if j == 1 {
            assert("setnz"@[1] == 'e');
        } else if j == 2 {
            assert("setnz"@[2] == 't');
        } else if j == 3 {
            assert("setnz"@[3] == 'n');
        } else {
            assert("setnz"@[4] == 'z');
        }
    }
    let name = "setnz"@;
    let v = VerbView::Setnz(o1, o2);
    let s = v.spec_render();
    let rest = seq![' '] + o1.spec_render() + " "@ + o2.spec_render();
    assert(s =~= name + rest);
    lemma_name_stage(name, rest);
    lemma_two_stage(o1, o2, rest);
    assert(mnemonic_of(name) == Mnemonic::Setnz);
    assert(spec_parse_verb(s, Map::empty()) == SpecVerb::Parsed(v));
}
/// Round trip for `setpos`.
proof fn lemma_rt_setpos(o1: OperandView, o2: OperandView)
    requires
        VerbView::Setpos(o1, o2).wf(),
        op_renderable(o1),
        op_renderable(o2),
    ensures
        spec_parse_verb(VerbView::Setpos(o1, o2).spec_render(), Map::empty()) == SpecVerb::Parsed(
            VerbView::Setpos(o1, o2),
        ),
{
    reveal_strlit("setpos ");
    reveal_strlit("setpos");
    reveal_strlit(" ");
    assert("setpos"@.len() == 6);
    reveal_strlit("mov");
    assert("mov"@.len() == 3);
    assert("setpos"@ != "mov"@);
    reveal_strlit("jmp");
    assert("jmp"@.len() == 3);
    assert("setpos"@ != "jmp"@);
    reveal_strlit("jz");
    assert("jz"@.len() == 2);
    assert("setpos"@ != "jz"@);
    reveal_strlit("jnz");
    assert("jnz"@.len() == 3);
    assert("setpos"@ != "jnz"@);
    reveal_strlit("jpos");
    assert("jpos"@.len() == 4);
    assert("setpos"@ != "jpos"@);
    reveal_strlit("jposz");
    assert("jposz"@.len() == 5);
    assert("setpos"@ != "jposz"@);
    reveal_strlit("jneg");
    assert("jneg"@.len() == 4);
    assert("setpos"@ != "jneg"@);
    reveal_strlit("jnegz");
    assert("jnegz"@.len() == 5);
    assert("setpos"@ != "jnegz"@);
    reveal_strlit("setz");
    assert("setz"@.len() == 4);
    assert("setpos"@ != "setz"@);
    reveal_strlit("setnz");
    assert("setnz"@.len() == 5);
    assert("setpos"@ != "setnz"@);
    assert forall|j: int| 0 <= j < "setpos"@.len() implies crate::text::is_ascii_alpha(
        #[trigger] "setpos"@[j],
    ) by {
        if j == 0 {
            assert("setpos"@[0] == 's');
        } else if j == 1 {
            assert("setpos"@[1] == 'e');
        } else if j == 2 {
            assert("setpos"@[2] == 't');
        } else if j == 3 {
            assert("setpos"@[3] == 'p');
        } else if j == 4 {
            assert("setpos"@[4] == 'o');
        } else {
            assert("setpos"@[5] == 's');
        }
    }
    let name = "setpos"@;
    let v = VerbView::Setpos(o1, o2);
    let s = v.spec_render();
    let rest = seq![' '] + o1.spec_render() + " "@ + o2.spec_render();
    assert(s =~= name + rest);
    lemma_name_stage(name, rest);
    lemma_two_stage(o1, o2, rest);
    assert(mnemonic_of(name) == Mnemonic::Setpos);
    assert(spec_parse_verb(s, Map::empty()) == SpecVerb::Parsed(v));
}
/// Round trip for `setposz`.
proof fn lemma_rt_setposz(o1: OperandView, o2: OperandView)
    requires
        VerbView::Setposz(o1, o2).wf(),
        op_renderable(o1),
        op_renderable(o2),
    ensures
        spec_parse_verb(VerbView::Setposz(o1, o2).spec_render(), Map::empty()) == SpecVerb::Parsed(
            VerbView::Setposz(o1, o2),
        ),
{
    reveal_strlit("setposz ");
    reveal_strlit("setposz");
    reveal_strlit(" ");
    assert("setposz"@.len() == 7);
    reveal_strlit("mov");
    assert("mov"@.len() == 3);
    assert("setposz"@ != "mov"@);
    reveal_strlit("jmp");
    assert("jmp"@.len() == 3);
    assert("setposz"@ != "jmp"@);
    reveal_strlit("jz");
    assert("jz"@.len() == 2);
    assert("setposz"@ != "jz"@);
    reveal_strlit("jnz");
    assert("jnz"@.len() == 3);
    assert("setposz"@ != "jnz"@);
    reveal_strlit("jpos");
    assert("jpos"@.len() == 4);
    assert("setposz"@ != "jpos"@);
    reveal_strlit("jposz");
    assert("jposz"@.len() == 5);
    assert("setposz"@ != "jposz"@);
    reveal_strlit("jneg");
    assert("jneg"@.len() == 4);
    assert("setposz"@ != "jneg"@);
    reveal_strlit("jnegz");
    assert("jnegz"@.len() == 5);
    assert("setposz"@ != "jnegz"@);
    reveal_strlit("setz");
    assert("setz"@.len() == 4);
    assert("setposz"@ != "setz"@);
    reveal_strlit("setnz");
    assert("setnz"@.len() == 5);
    assert("setposz"@ != "setnz"@);
    reveal_strlit("setpos");
    assert("setpos"@.len() == 6);
    assert("setposz"@ != "setpos"@);
    assert forall|j: int| 0 <= j < "setposz"@.len() implies crate::text::is_ascii_alpha(
        #[trigger] "setposz"@[j],
    ) by {
        if j == 0 {
            assert("setposz"@[0] == 's');
        } else if j == 1 {
            assert("setposz"@[1] == 'e');
        } else if j == 2 {
            assert("setposz"@[2] == 't');
        } else if j == 3 {
            assert("setposz"@[3] == 'p');
        } else if j == 4 {
            assert("setposz"@[4] == 'o');
        } else if j == 5 {
            assert("setposz"@[5] == 's');
        } else {
            assert("setposz"@[6] == 'z');
        }
    }
    let name = "setposz"@;
    let v = VerbView::Setposz(o1, o2);
    let s = v.spec_render();
    let rest = seq![' '] + o1.spec_render() + " "@ + o2.spec_render();
    assert(s =~= name + rest);
    lemma_name_stage(name, rest);
    lemma_two_stage(o1, o2, rest);
    assert(mnemonic_of(name) == Mnemonic::Setposz);
    assert(spec_parse_verb(s, Map::empty()) == SpecVerb::Parsed(v));
}
/// Round trip for `setneg`.
proof fn lemma_rt_setneg(o1: OperandView, o2: OperandView)
    requires
        VerbView::Setneg(o1, o2).wf(),
        op_renderable(o1),
        op_renderable(o2),
    ensures
        spec_parse_verb(VerbView::Setneg(o1, o2).spec_render(), Map::empty()) == SpecVerb::Parsed(
            VerbView::Setneg(o1, o2),
        ),
{
    reveal_strlit("setneg ");
    reveal_strlit("setneg");
    reveal_strlit(" ");
    assert("setneg"@.len() == 6);
    reveal_strlit("mov");
    assert("mov"@.len() == 3);
    assert("setneg"@ != "mov"@);
    reveal_strlit("jmp");
    assert("jmp"@.len() == 3);
    assert("setneg"@ != "jmp"@);
    reveal_strlit("jz");
    assert("jz"@.len() == 2);
    assert("setneg"@ != "jz"@);
    reveal_strlit("jnz");
    assert("jnz"@.len() == 3);
    assert("setneg"@ != "jnz"@);
    reveal_strlit("jpos");
    assert("jpos"@.len() == 4);
    assert("setneg"@ != "jpos"@);
    reveal_strlit("jposz");
    assert("jposz"@.len() == 5);
    assert("setneg"@ != "jposz"@);
    reveal_strlit("jneg");
    assert("jneg"@.len() == 4);
    assert("setneg"@ != "jneg"@);
    reveal_strlit("jnegz");
    assert("jnegz"@.len() == 5);
    assert("setneg"@ != "jnegz"@);
    reveal_strlit("setz");
    assert("setz"@.len() == 4);
    assert("setneg"@ != "setz"@);
    reveal_strlit("setnz");
    assert("setnz"@.len() == 5);
    assert("setneg"@ != "setnz"@);
    reveal_strlit("setpos");
    assert("setpos"@.len() == 6);
    assert("setneg"@[3] == 'n');
    assert("setpos"@[3] == 'p');
    assert("setneg"@ != "setpos"@);
    reveal_strlit("setposz");
    assert("setposz"@.len() == 7);
    assert("setneg"@ != "setposz"@);
    assert forall|j: int| 0 <= j < "setneg"@.len() implies crate::text::is_ascii_alpha(
        #[trigger] "setneg"@[j],
    ) by {
        if j == 0 {
            assert("setneg"@[0] == 's');
        } else if j == 1 {
            assert("setneg"@[1] == 'e');
        } else if j == 2 {
            assert("setneg"@[2] == 't');
        } else if j == 3 {
            assert("setneg"@[3] == 'n');
        } else if j == 4 {
            assert("setneg"@[4] == 'e');
        } else {
            assert("setneg"@[5] == 'g');
        }
    }
    let name = "setneg"@;
    let v = VerbView::Setneg(o1, o2);
    let s = v.spec_render();
    let rest = seq![' '] + o1.spec_render() + " "@ + o2.spec_render();
    assert(s =~= name + rest);
    lemma_name_stage(name, rest);
    lemma_two_stage(o1, o2, rest);
    assert(mnemonic_of(name) == Mnemonic::Setneg);
    assert(spec_parse_verb(s, Map::empty()) == SpecVerb::Parsed(v));
}
/// Round trip for `setnegz`.
proof fn lemma_rt_setnegz(o1: OperandView, o2: OperandView)
    requires
        VerbView::Setnegz(o1, o2).wf(),
        op_renderable(o1),
        op_renderable(o2),
    ensures
        spec_parse_verb(VerbView::Setnegz(o1, o2).spec_render(), Map::empty()) == SpecVerb::Parsed(
            VerbView::Setnegz(o1, o2),
        ),
{
    reveal_strlit("setnegz ");
    reveal_strlit("setnegz");
    reveal_strlit(" ");
    assert("setnegz"@.len() == 7);
    reveal_strlit("mov");
    assert("mov"@.len() == 3);
    assert("setnegz"@ != "mov"@);
    reveal_strlit("jmp");
    assert("jmp"@.len() == 3);
    assert("setnegz"@ != "jmp"@);
    reveal_strlit("jz");
    assert("jz"@.len() == 2);
    assert("setnegz"@ != "jz"@);
    reveal_strlit("jnz");
    assert("jnz"@.len() == 3);
    assert("setnegz"@ != "jnz"@);
    reveal_strlit("jpos");
    assert("jpos"@.len() == 4);
    assert("setnegz"@ != "jpos"@);
    reveal_strlit("jposz");
    assert("jposz"@.len() == 5);
    assert("setnegz"@ != "jposz"@);
    reveal_strlit("jneg");
    assert("jneg"@.len() == 4);
    assert("setnegz"@ != "jneg"@);
    reveal_strlit("jnegz");
    assert("jnegz"@.len() == 5);
    assert("setnegz"@ != "jnegz"@);
    reveal_strlit("setz");
    assert("setz"@.len() == 4);
    assert("setnegz"@ != "setz"@);
    reveal_strlit("setnz");
    assert("setnz"@.len() == 5);
    assert("setnegz"@ != "setnz"@);
    reveal_strlit("setpos");
    assert("setpos"@.len() == 6);
    assert("setnegz"@ != "setpos"@);
    reveal_strlit("setposz");
    assert("setposz"@.len() == 7);
    assert("setnegz"@[3] == 'n');
    assert("setposz"@[3] == 'p');
    assert("setnegz"@ != "setposz"@);
    reveal_strlit("setneg");
    assert("setneg"@.len() == 6);
    assert("setnegz"@ != "setneg"@);
    assert forall|j: int| 0 <= j < "setnegz"@.len() implies crate::text::is_ascii_alpha(
        #[trigger] "setnegz"@[j],
    ) by {
        if j == 0 {
            assert("setnegz"@[0] == 's');
        } else if j == 1 {
            assert("setnegz"@[1] == 'e');
        } else if j == 2 {
            assert("setnegz"@[2] == 't');
        } else if j == 3 {
            assert("setnegz"@[3] == 'n');
        } else if j == 4 {
            assert("setnegz"@[4] == 'e');
        } else if j == 5 {
            assert("setnegz"@[5] == 'g');
        } else {
            assert("setnegz"@[6] == 'z');
        }
    }
    let name = "setnegz"@;
    let v = VerbView::Setnegz(o1, o2);
    let s = v.spec_render();
    let rest = seq![' '] + o1.spec_render() + " "@ + o2.spec_render();
    assert(s =~= name + rest);
    lemma_name_stage(name, rest);
    lemma_two_stage(o1, o2, rest);
    assert(mnemonic_of(name) == Mnemonic::Setnegz);
    assert(spec_parse_verb(s, Map::empty()) == SpecVerb::Parsed(v));
}
/// Round trip for `add`.
proof fn lemma_rt_add(o1: OperandView, o2: OperandView)
    requires
        VerbView::Add(o1, o2).wf(),
        op_renderable(o1),
        op_renderable(o2),
    ensures
        spec_parse_verb(VerbView::Add(o1, o2).spec_render(), Map::empty()) == SpecVerb::Parsed(
            VerbView::Add(o1, o2),
        ),
{
    reveal_strlit("add ");
    reveal_strlit("add");
    reveal_strlit(" ");
    assert("add"@.len() == 3);
    reveal_strlit("mov");
    assert("mov"@.len() == 3);
    assert("add"@[0] == 'a');
    assert("mov"@[0] == 'm');
    assert("add"@ != "mov"@);
    reveal_strlit("jmp");
    assert("jmp"@.len() == 3);
    assert("add"@[0] == 'a');
    assert("jmp"@[0] == 'j');
    assert("add"@ != "jmp"@);
    reveal_strlit("jz");
    assert("jz"@.len() == 2);
    assert("add"@ != "jz"@);
    reveal_strlit("jnz");
    assert("jnz"@.len() == 3);
    assert("add"@[0] == 'a');
    assert("jnz"@[0] == 'j');
    assert("add"@ != "jnz"@);
    reveal_strlit("jpos");
    assert("jpos"@.len() == 4);
    assert("add"@ != "jpos"@);
    reveal_strlit("jposz");
    assert("jposz"@.len() == 5);
    assert("add"@ != "jposz"@);
    reveal_strlit("jneg");
    assert("jneg"@.len() == 4);
    assert("add"@ != "jneg"@);
    reveal_strlit("jnegz");
    assert("jnegz"@.len() == 5);
    assert("add"@ != "jnegz"@);
    reveal_strlit("setz");
    assert("setz"@.len() == 4);
    assert("add"@ != "setz"@);
    reveal_strlit("setnz");
    assert("setnz"@.len() == 5);
    assert("add"@ != "setnz"@);
    reveal_strlit("setpos");
    assert("setpos"@.len() == 6);
    assert("add"@ != "setpos"@);
    reveal_strlit("setposz");
    assert("setposz"@.len() == 7);
    assert("add"@ != "setposz"@);
    reveal_strlit("setneg");
    assert("setneg"@.len() == 6);
    assert("add"@ != "setneg"@);
    reveal_strlit("setnegz");
    assert("setnegz"@.len() == 7);
    assert("add"@ != "setnegz"@);
    assert forall|j: int| 0 <= j < "add"@.len() implies crate::text::is_ascii_alpha(
        #[trigger] "add"@[j],
    ) by {
        if j == 0 {
            assert("add"@[0] == 'a');
        } else if j == 1 {
            assert("add"@[1] == 'd');
        } else {
            assert("add"@[2] == 'd');
        }
    }
    let name = "add"@;
    let v = VerbView::Add(o1, o2);
    let s = v.spec_render();
    let rest = seq![' '] + o1.spec_render() + " "@ + o2.spec_render();
    assert(s =~= name + rest);
    lemma_name_stage(name, rest);
    lemma_two_stage(o1, o2, rest);
    assert(mnemonic_of(name) == Mnemonic::Add);
    assert(spec_parse_verb(s, Map::empty()) == SpecVerb::Parsed(v));
}
/// Round trip for `sub`.
proof fn lemma_rt_sub(o1: OperandView, o2: OperandView)
    requires
        VerbView::Sub(o1, o2).wf(),
        op_renderable(o1),
        op_renderable(o2),
    ensures
        spec_parse_verb(VerbView::Sub(o1, o2).spec_render(), Map::empty()) == SpecVerb::Parsed(
            VerbView::Sub(o1, o2),
        ),
{
    reveal_strlit("sub ");
    reveal_strlit("sub");
    reveal_strlit(" ");
    assert("sub"@.len() == 3);
    reveal_strlit("mov");
    assert("mov"@.len() == 3);
    assert("sub"@[0] == 's');
    assert("mov"@[0] == 'm');
    assert("sub"@ != "mov"@);
    reveal_strlit("jmp");
    assert("jmp"@.len() == 3);
    assert("sub"@[0] == 's');
    assert("jmp"@[0] == 'j');
    assert("sub"@ != "jmp"@);
    reveal_strlit("jz");
    assert("jz"@.len() == 2);
    assert("sub"@ != "jz"@);
    reveal_strlit("jnz");
    assert("jnz"@.len() == 3);
    assert("sub"@[0] == 's');
    assert("jnz"@[0] == 'j');
    assert("sub"@ != "jnz"@);
    reveal_strlit("jpos");
    assert("jpos"@.len() == 4);
    assert("sub"@ != "jpos"@);
    reveal_strlit("jposz");
    assert("jposz"@.len() == 5);
    assert("sub"@ != "jposz"@);
    reveal_strlit("jneg");
    assert("jneg"@.len() == 4);
    assert("sub"@ != "jneg"@);
    reveal_strlit("jnegz");
    assert("jnegz"@.len() == 5);
    assert("sub"@ != "jnegz"@);
    reveal_strlit("setz");
    assert("setz"@.len() == 4);
    assert("sub"@ != "setz"@);
    reveal_strlit("setnz");
    assert("setnz"@.len() == 5);
    assert("sub"@ != "setnz"@);
    reveal_strlit("setpos");
    assert("setpos"@.len() == 6);
    assert("sub"@ != "setpos"@);
    reveal_strlit("setposz");
    assert("setposz"@.len() == 7);
    assert("sub"@ != "setposz"@);
    reveal_strlit("setneg");
    assert("setneg"@.len() == 6);
    assert("sub"@ != "setneg"@);
    reveal_strlit("setnegz");
    assert("setnegz"@.len() == 7);
    assert("sub"@ != "setnegz"@);
    reveal_strlit("add");
    assert("add"@.len() == 3);
    assert("sub"@[0] == 's');
    assert("add"@[0] == 'a');
    assert("sub"@ != "add"@);
    assert forall|j: int| 0 <= j < "sub"@.len() implies crate::text::is_ascii_alpha(
        #[trigger] "sub"@[j],
    ) by {
        if j == 0 {
            assert("sub"@[0] == 's');
        } else if j == 1 {
            assert("sub"@[1] == 'u');
        } else {
            assert("sub"@[2] == 'b');
        }
    }
    let name = "sub"@;
    let v = VerbView::Sub(o1, o2);
    let s = v.spec_render();
    let rest = seq![' '] + o1.spec_render() + " "@ + o2.spec_render();
    assert(s =~= name + rest);
    lemma_name_stage(name, rest);
    lemma_two_stage(o1, o2, rest);
    assert(mnemonic_of(name) == Mnemonic::Sub);
    assert(spec_parse_verb(s, Map::empty()) == SpecVerb::Parsed(v));
}
/// Round trip for `and`.
proof fn lemma_rt_and(o1: OperandView, o2: OperandView)
    requires
        VerbView::And(o1, o2).wf(),
        op_renderable(o1),
        op_renderable(o2),
    ensures
        spec_parse_verb(VerbView::And(o1, o2).spec_render(), Map::empty()) == SpecVerb::Parsed(
            VerbView::And(o1, o2),
        ),
{
    reveal_strlit("and ");
    reveal_strlit("and");
    reveal_strlit(" ");
    assert("and"@.len() == 3);
    reveal_strlit("mov");
    assert("mov"@.len() == 3);
    assert("and"@[0] == 'a');
    assert("mov"@[0] == 'm');
    assert("and"@ != "mov"@);
    reveal_strlit("jmp");
    assert("jmp"@.len() == 3);
    assert("and"@[0] == 'a');
    assert("jmp"@[0] == 'j');
    assert("and"@ != "jmp"@);
    reveal_strlit("jz");
    assert("jz"@.len() == 2);
    assert("and"@ != "jz"@);
    reveal_strlit("jnz");
    assert("jnz"@.len() == 3);
    assert("and"@[0] == 'a');
    assert("jnz"@[0] == 'j');
    assert("and"@ != "jnz"@);
    reveal_strlit("jpos");
    assert("jpos"@.len() == 4);
    assert("and"@ != "jpos"@);
    reveal_strlit("jposz");
    assert("jposz"@.len() == 5);
    assert("and"@ != "jposz"@);
    reveal_strlit("jneg");
    assert("jneg"@.len() == 4);
    assert("and"@ != "jneg"@);
    reveal_strlit("jnegz");
    assert("jnegz"@.len() == 5);
    assert("and"@ != "jnegz"@);
    reveal_strlit("setz");
    assert("setz"@.len() == 4);
    assert("and"@ != "setz"@);
    reveal_strlit("setnz");
    assert("setnz"@.len() == 5);
    assert("and"@ != "setnz"@);
    reveal_strlit("setpos");
    assert("setpos"@.len() == 6);
    assert("and"@ != "setpos"@);
    reveal_strlit("setposz");
    assert("setposz"@.len() == 7);
    assert("and"@ != "setposz"@);
    reveal_strlit("setneg");
    assert("setneg"@.len() == 6);
    assert("and"@ != "setneg"@);
    reveal_strlit("setnegz");
    assert("setnegz"@.len() == 7);
    assert("and"@ != "setnegz"@);
    reveal_strlit("add");
    assert("add"@.len() == 3);
    assert("and"@[1] == 'n');
    assert("add"@[1] == 'd');
    assert("and"@ != "add"@);
    reveal_strlit("sub");
    assert("sub"@.len() == 3);
    assert("and"@[0] == 'a');
    assert("sub"@[0] == 's');
    assert("and"@ != "sub"@);
    assert forall|j: int| 0 <= j < "and"@.len() implies crate::text::is_ascii_alpha(
        #[trigger] "and"@[j],
    ) by {
        if j == 0 {
            assert("and"@[0] == 'a');
        } else if j == 1 {
            assert("and"@[1] == 'n');
        } else {
            assert("and"@[2] == 'd');
        }
    }
    let name = "and"@;
    let v = VerbView::And(o1, o2);
    let s = v.spec_render();
    let rest = seq![' '] + o1.spec_render() + " "@ + o2.spec_render();
    assert(s =~= name + rest);
    lemma_name_stage(name, rest);
    lemma_two_stage(o1, o2, rest);
    assert(mnemonic_of(name) == Mnemonic::And);
    assert(spec_parse_verb(s, Map::empty()) == SpecVerb::Parsed(v));
}
/// Round trip for `or`.
proof fn lemma_rt_or(o1: OperandView, o2: OperandView)
    requires
        VerbView::Or(o1, o2).wf(),
        op_renderable(o1),
        op_renderable(o2),
    ensures
        spec_parse_verb(VerbView::Or(o1, o2).spec_render(), Map::empty()) == SpecVerb::Parsed(
            VerbView::Or(o1, o2),
        ),
{
    reveal_strlit("or ");
    reveal_strlit("or");
    reveal_strlit(" ");
    assert("or"@.len() == 2);
    reveal_strlit("mov");
    assert("mov"@.len() == 3);
    assert("or"@ != "mov"@);
    reveal_strlit("jmp");
    assert("jmp"@.len() == 3);
    assert("or"@ != "jmp"@);
    reveal_strlit("jz");
    assert("jz"@.len() == 2);
    assert("or"@[0] == 'o');
    assert("jz"@[0] == 'j');
    assert("or"@ != "jz"@);
    reveal_strlit("jnz");
    assert("jnz"@.len() == 3);
    assert("or"@ != "jnz"@);
    reveal_strlit("jpos");
    assert("jpos"@.len() == 4);
    assert("or"@ != "jpos"@);
    reveal_strlit("jposz");
    assert("jposz"@.len() == 5);
    assert("or"@ != "jposz"@);
    reveal_strlit("jneg");
    assert("jneg"@.len() == 4);
    assert("or"@ != "jneg"@);
    reveal_strlit("jnegz");
    assert("jnegz"@.len() == 5);
    assert("or"@ != "jnegz"@);
    reveal_strlit("setz");
    assert("setz"@.len() == 4);
    assert("or"@ != "setz"@);
    reveal_strlit("setnz");
    assert("setnz"@.len() == 5);
    assert("or"@ != "setnz"@);
    reveal_strlit("setpos");
    assert("setpos"@.len() == 6);
    assert("or"@ != "setpos"@);
    reveal_strlit("setposz");
    assert("setposz"@.len() == 7);
    assert("or"@ != "setposz"@);
    reveal_strlit("setneg");
    assert("setneg"@.len() == 6);
    assert("or"@ != "setneg"@);
    reveal_strlit("setnegz");
    assert("setnegz"@.len() == 7);
    assert("or"@ != "setnegz"@);
    reveal_strlit("add");
    assert("add"@.len() == 3);
    assert("or"@ != "add"@);
    reveal_strlit("sub");
    assert("sub"@.len() == 3);
    assert("or"@ != "sub"@);
    reveal_strlit("and");
    assert("and"@.len() == 3);
    assert("or"@ != "and"@);
    assert forall|j: int| 0 <= j < "or"@.len() implies crate::text::is_ascii_alpha(
        #[trigger] "or"@[j],
    ) by {
        if j == 0 {
            assert("or"@[0] == 'o');
        } else {
            assert("or"@[1] == 'r');
        }
    }
    let name = "or"@;
    let v = VerbView::Or(o1, o2);
    let s = v.spec_render();
    let rest = seq![' '] + o1.spec_render() + " "@ + o2.spec_render();
    assert(s =~= name + rest);
    lemma_name_stage(name, rest);
    lemma_two_stage(o1, o2, rest);
    assert(mnemonic_of(name) == Mnemonic::Or);
    assert(spec_parse_verb(s, Map::empty()) == SpecVerb::Parsed(v));
}
/// Round trip for `not`.
proof fn lemma_rt_not(o: OperandView)
    requires
        VerbView::Not(o).wf(),
        op_renderable(o),
    ensures
        spec_parse_verb(VerbView::Not(o).spec_render(), Map::empty()) == SpecVerb::Parsed(
            VerbView::Not(o),
        ),
{
    reveal_strlit("not ");
    reveal_strlit("not");
    reveal_strlit(" ");
    assert("not"@.len() == 3);
    reveal_strlit("mov");
    assert("mov"@.len() == 3);
    assert("not"@[0] == 'n');
    assert("mov"@[0] == 'm');
    assert("not"@ != "mov"@);
    reveal_strlit("jmp");
    assert("jmp"@.len() == 3);
    assert("not"@[0] == 'n');
    assert("jmp"@[0] == 'j');
    assert("not"@ != "jmp"@);
    reveal_strlit("jz");
    assert("jz"@.len() == 2);
    assert("not"@ != "jz"@);
    reveal_strlit("jnz");
    assert("jnz"@.len() == 3);
    assert("not"@[0] == 'n');
    assert("jnz"@[0] == 'j');
    assert("not"@ != "jnz"@);
    reveal_strlit("jpos");
    assert("jpos"@.len() == 4);
    assert("not"@ != "jpos"@);
    reveal_strlit("jposz");
    assert("jposz"@.len() == 5);
    assert("not"@ != "jposz"@);
    reveal_strlit("jneg");
    assert("jneg"@.len() == 4);
    assert("not"@ != "jneg"@);
    reveal_strlit("jnegz");
    assert("jnegz"@.len() == 5);
    assert("not"@ != "jnegz"@);
    reveal_strlit("setz");
    assert("setz"@.len() == 4);
    assert("not"@ != "setz"@);
    reveal_strlit("setnz");
    assert("setnz"@.len() == 5);
    assert("not"@ != "setnz"@);
    reveal_strlit("setpos");
    assert("setpos"@.len() == 6);
    assert("not"@ != "setpos"@);
    reveal_strlit("setposz");
    assert("setposz"@.len() == 7);
    assert("not"@ != "setposz"@);
    reveal_strlit("setneg");
    assert("setneg"@.len() == 6);
    assert("not"@ != "setneg"@);
    reveal_strlit("setnegz");
    assert("setnegz"@.len() == 7);
    assert("not"@ != "setnegz"@);
    reveal_strlit("add");
    assert("add"@.len() == 3);
    assert("not"@[0] == 'n');
    assert("add"@[0] == 'a');
    assert("not"@ != "add"@);
    reveal_strlit("sub");
    assert("sub"@.len() == 3);
    assert("not"@[0] == 'n');
    assert("sub"@[0] == 's');
    assert("not"@ != "sub"@);
    reveal_strlit("and");
    assert("and"@.len() == 3);
    assert("not"@[0] == 'n');
    assert("and"@[0] == 'a');
    assert("not"@ != "and"@);
    reveal_strlit("or");
    assert("or"@.len() == 2);
    assert("not"@ != "or"@);
    assert forall|j: int| 0 <= j < "not"@.len() implies crate::text::is_ascii_alpha(
        #[trigger] "not"@[j],
    ) by {
        if j == 0 {
            assert("not"@[0] == 'n');
        } else if j == 1 {
            assert("not"@[1] == 'o');
        } else {
            assert("not"@[2] == 't');
        }
    }
    let name = "not"@;
    let v = VerbView::Not(o);
    let s = v.spec_render();
    let rest = seq![' '] + o.spec_render();
    assert(s =~= name + rest);
    lemma_name_stage(name, rest);
    let tail = Seq::<char>::empty();
    assert(rest =~= seq![' '] + o.spec_render() + tail);
    lemma_operand_at(rest, o, tail);
    assert(mnemonic_of(name) == Mnemonic::Not);
    assert(spec_parse_verb(s, Map::empty()) == SpecVerb::Parsed(v));
}
/// Round trip for `shl`.
proof fn lemma_rt_shl(o1: OperandView, o2: OperandView)
    requires
        VerbView::Shl(o1, o2).wf(),
        op_renderable(o1),
        op_renderable(o2),
    ensures
        spec_parse_verb(VerbView::Shl(o1, o2).spec_render(), Map::empty()) == SpecVerb::Parsed(
            VerbView::Shl(o1, o2),
        ),
{
    reveal_strlit("shl ");
    reveal_strlit("shl");
    reveal_strlit(" ");
    assert("shl"@.len() == 3);
    reveal_strlit("mov");
    assert("mov"@.len() == 3);
    assert("shl"@[0] == 's');
    assert("mov"@[0] == 'm');
    assert("shl"@ != "mov"@);
    reveal_strlit("jmp");
    assert("jmp"@.len() == 3);
    assert("shl"@[0] == 's');
    assert("jmp"@[0] == 'j');
    assert("shl"@ != "jmp"@);
    reveal_strlit("jz");
    assert("jz"@.len() == 2);
    assert("shl"@ != "jz"@);
    reveal_strlit("jnz");
    assert("jnz"@.len() == 3);
    assert("shl"@[0] == 's');
    assert("jnz"@[0] == 'j');
    assert("shl"@ != "jnz"@);
    reveal_strlit("jpos");
    assert("jpos"@.len() == 4);
    assert("shl"@ != "jpos"@);
    reveal_strlit("jposz");
    assert("jposz"@.len() == 5);
    assert("shl"@ != "jposz"@);
    reveal_strlit("jneg");
    assert("jneg"@.len() == 4);
    assert("shl"@ != "jneg"@);
    reveal_strlit("jnegz");
    assert("jnegz"@.len() == 5);
    assert("shl"@ != "jnegz"@);
    reveal_strlit("setz");
    assert("setz"@.len() == 4);
    assert("shl"@ != "setz"@);
    reveal_strlit("setnz");
    assert("setnz"@.len() == 5);
    assert("shl"@ != "setnz"@);
    reveal_strlit("setpos");
    assert("setpos"@.len() == 6);
    assert("shl"@ != "setpos"@);
    reveal_strlit("setposz");
    assert("setposz"@.len() == 7);
    assert("shl"@ != "setposz"@);
    reveal_strlit("setneg");
    assert("setneg"@.len() == 6);
    assert("shl"@ != "setneg"@);
    reveal_strlit("setnegz");
    assert("setnegz"@.len() == 7);
    assert("shl"@ != "setnegz"@);
    reveal_strlit("add");
    assert("add"@.len() == 3);
    assert("shl"@[0] == 's');
    assert("add"@[0] == 'a');
    assert("shl"@ != "add"@);
    reveal_strlit("sub");
    assert("sub"@.len() == 3);
    assert("shl"@[1] == 'h');
    assert("sub"@[1] == 'u');
    assert("shl"@ != "sub"@);
    reveal_strlit("and");
    assert("and"@.len() == 3);
    assert("shl"@[0] == 's');
    assert("and"@[0] == 'a');
    assert("shl"@ != "and"@);
    reveal_strlit("or");
    assert("or"@.len() == 2);
    assert("shl"@ != "or"@);
    reveal_strlit("not");
    assert("not"@.len() == 3);
    assert("shl"@[0] == 's');
    assert("not"@[0] == 'n');
    assert("shl"@ != "not"@);
    assert forall|j: int| 0 <= j < "shl"@.len() implies crate::text::is_ascii_alpha(
        #[trigger] "shl"@[j],
    ) by {
        if j == 0 {
            assert("shl"@[0] == 's');
        } else if j == 1 {
            assert("shl"@[1] == 'h');
        } else {
            assert("shl"@[2] == 'l');
        }
    }
    let name = "shl"@;
    let v = VerbView::Shl(o1, o2);
    let s = v.spec_render();
    let rest = seq![' '] + o1.spec_render() + " "@ + o2.spec_render();
    assert(s =~= name + rest);
    lemma_name_stage(name, rest);
    lemma_two_stage(o1, o2, rest);
    assert(mnemonic_of(name) == Mnemonic::Shl);
    assert(spec_parse_verb(s, Map::empty()) == SpecVerb::Parsed(v));
}
/// Round trip for `shr`.
proof fn lemma_rt_shr(o1: OperandView, o2: OperandView)
    requires
        VerbView::Shr(o1, o2).wf(),
        op_renderable(o1),
        op_renderable(o2),
    ensures
        spec_parse_verb(VerbView::Shr(o1, o2).spec_render(), Map::empty()) == SpecVerb::Parsed(
            VerbView::Shr(o1, o2),
        ),
{
    reveal_strlit("shr ");
    reveal_strlit("shr");
    reveal_strlit(" ");
    assert("shr"@.len() == 3);
    reveal_strlit("mov");
    assert("mov"@.len() == 3);
    assert("shr"@[0] == 's');
    assert("mov"@[0] == 'm');
    assert("shr"@ != "mov"@);
    reveal_strlit("jmp");
    assert("jmp"@.len() == 3);
    assert("shr"@[0] == 's');
    assert("jmp"@[0] == 'j');
    assert("shr"@ != "jmp"@);
    reveal_strlit("jz");
    assert("jz"@.len() == 2);
    assert("shr"@ != "jz"@);
    reveal_strlit("jnz");
    assert("jnz"@.len() == 3);
    assert("shr"@[0] == 's');
    assert("jnz"@[0] == 'j');
    assert("shr"@ != "jnz"@);
    reveal_strlit("jpos");
    assert("jpos"@.len() == 4);
    assert("shr"@ != "jpos"@);
    reveal_strlit("jposz");
    assert("jposz"@.len() == 5);
    assert("shr"@ != "jposz"@);
    reveal_strlit("jneg");
    assert("jneg"@.len() == 4);
    assert("shr"@ != "jneg"@);
    reveal_strlit("jnegz");
    assert("jnegz"@.len() == 5);
    assert("shr"@ != "jnegz"@);
    reveal_strlit("setz");
    assert("setz"@.len() == 4);
    assert("shr"@ != "setz"@);
    reveal_strlit("setnz");
    assert("setnz"@.len() == 5);
    assert("shr"@ != "setnz"@);
    reveal_strlit("setpos");
    assert("setpos"@.len() == 6);
    assert("shr"@ != "setpos"@);
    reveal_strlit("setposz");
    assert("setposz"@.len() == 7);
    assert("shr"@ != "setposz"@);
    reveal_strlit("setneg");
    assert("setneg"@.len() == 6);
    assert("shr"@ != "setneg"@);
    reveal_strlit("setnegz");
    assert("setnegz"@.len() == 7);
    assert("shr"@ != "setnegz"@);
    reveal_strlit("add");
    assert("add"@.len() == 3);
    assert("shr"@[0] == 's');
    assert("add"@[0] == 'a');
    assert("shr"@ != "add"@);
    reveal_strlit("sub");
    assert("sub"@.len() == 3);
    assert("shr"@[1] == 'h');
    assert("sub"@[1] == 'u');
    assert("shr"@ != "sub"@);
    reveal_strlit("and");
    assert("and"@.len() == 3);
    assert("shr"@[0] == 's');
    assert("and"@[0] == 'a');
    assert("shr"@ != "and"@);
    reveal_strlit("or");
    assert("or"@.len() == 2);
    assert("shr"@ != "or"@);
    reveal_strlit("not");
    assert("not"@.len() == 3);
    assert("shr"@[0] == 's');
    assert("not"@[0] == 'n');
    assert("shr"@ != "not"@);
    reveal_strlit("shl");
    assert("shl"@.len() == 3);
    assert("shr"@[2] == 'r');
    assert("shl"@[2] == 'l');
    assert("shr"@ != "shl"@);
    assert forall|j: int| 0 <= j < "shr"@.len() implies crate::text::is_ascii_alpha(
        #[trigger] "shr"@[j],
    ) by {
        if j == 0 {
            assert("shr"@[0] == 's');
        } else if j == 1 {
            assert("shr"@[1] == 'h');
        } else {
            assert("shr"@[2] == 'r');
        }
    }
    let name = "shr"@;
    let v = VerbView::Shr(o1, o2);
    let s = v.spec_render();
    let rest = seq![' '] + o1.spec_render() + " "@ + o2.spec_render();
    assert(s =~= name + rest);
    lemma_name_stage(name, rest);
    lemma_two_stage(o1, o2, rest);
    assert(mnemonic_of(name) == Mnemonic::Shr);
    assert(spec_parse_verb(s, Map::empty()) == SpecVerb::Parsed(v));
}
/// Round trip for a range-dump half.
proof fn lemma_rt_dbg(o: OperandView)
    requires
        VerbView::Dbg(o).wf(),
        op_renderable(o),
    ensures
        spec_parse_verb(VerbView::Dbg(o).spec_render(), Map::empty()) == SpecVerb::Parsed(
            VerbView::Dbg(o),
        ),
{
    reveal_strlit("dbg ");
    reveal_strlit("dbg");
    reveal_strlit(" ");
    assert("dbg"@.len() == 3);
    reveal_strlit("mov");
    assert("mov"@.len() == 3);
    assert("dbg"@[0] == 'd');
    assert("mov"@[0] == 'm');
    assert("dbg"@ != "mov"@);
    reveal_strlit("jmp");
    assert("jmp"@.len() == 3);
    assert("dbg"@[0] == 'd');
    assert("jmp"@[0] == 'j');
    assert("dbg"@ != "jmp"@);
    reveal_strlit("jz");
    assert("jz"@.len() == 2);
    assert("dbg"@ != "jz"@);
    reveal_strlit("jnz");
    assert("jnz"@.len() == 3);
    assert("dbg"@[0] == 'd');
    assert("jnz"@[0] == 'j');
    assert("dbg"@ != "jnz"@);
    reveal_strlit("jpos");
    assert("jpos"@.len() == 4);
    assert("dbg"@ != "jpos"@);
    reveal_strlit("jposz");
    assert("jposz"@.len() == 5);
    assert("dbg"@ != "jposz"@);
    reveal_strlit("jneg");
    assert("jneg"@.len() == 4);
    assert("dbg"@ != "jneg"@);
    reveal_strlit("jnegz");
    assert("jnegz"@.len() == 5);
    assert("dbg"@ != "jnegz"@);
    reveal_strlit("setz");
    assert("setz"@.len() == 4);
    assert("dbg"@ != "setz"@);
    reveal_strlit("setnz");
    assert("setnz"@.len() == 5);
    assert("dbg"@ != "setnz"@);
    reveal_strlit("setpos");
    assert("setpos"@.len() == 6);
    assert("dbg"@ != "setpos"@);
    reveal_strlit("setposz");
    assert("setposz"@.len() == 7);
    assert("dbg"@ != "setposz"@);
    reveal_strlit("setneg");
    assert("setneg"@.len() == 6);
    assert("dbg"@ != "setneg"@);
    reveal_strlit("setnegz");
    assert("setnegz"@.len() == 7);
    assert("dbg"@ != "setnegz"@);
    reveal_strlit("add");
    assert("add"@.len() == 3);
    assert("dbg"@[0] == 'd');
    assert("add"@[0] == 'a');
    assert("dbg"@ != "add"@);
    reveal_strlit("sub");
    assert("sub"@.len() == 3);
    assert("dbg"@[0] == 'd');
    assert("sub"@[0] == 's');
    assert("dbg"@ != "sub"@);
    reveal_strlit("and");
    assert("and"@.len() == 3);
    assert("dbg"@[0] == 'd');
    assert("and"@[0] == 'a');
    assert("dbg"@ != "and"@);
    reveal_strlit("or");
    assert("or"@.len() == 2);
    assert("dbg"@ != "or"@);
    reveal_strlit("not");
    assert("not"@.len() == 3);
    assert("dbg"@[0] == 'd');
    assert("not"@[0] == 'n');
    assert("dbg"@ != "not"@);
    reveal_strlit("shl");
    assert("shl"@.len() == 3);
    assert("dbg"@[0] == 'd');
    assert("shl"@[0] == 's');
    assert("dbg"@ != "shl"@);
    reveal_strlit("shr");
    assert("shr"@.len() == 3);
    assert("dbg"@[0] == 'd');
    assert("shr"@[0] == 's');
    assert("dbg"@ != "shr"@);
    assert forall|j: int| 0 <= j < "dbg"@.len() implies crate::text::is_ascii_alpha(
        #[trigger] "dbg"@[j],
    ) by {
        if j == 0 {
            assert("dbg"@[0] == 'd');
        } else if j == 1 {
            assert("dbg"@[1] == 'b');
        } else {
            assert("dbg"@[2] == 'g');
        }
    }
    let name = "dbg"@;
    let v = VerbView::Dbg(o);
    let s = v.spec_render();
    let rest = seq![' '] + o.spec_render();
    assert(s =~= name + rest);
    lemma_name_stage(name, rest);
    let tail = Seq::<char>::empty();
    assert(rest =~= seq![' '] + o.spec_render() + tail);
    lemma_operand_at(rest, o, tail);
    assert(mnemonic_of(name) == Mnemonic::Dbg);
    assert(spec_parse_verb(s, Map::empty()) == SpecVerb::Parsed(v));
}

/// Round trip for a register dump.
proof fn lemma_rt_dbgregs()
    ensures
        spec_parse_verb(VerbView::DbgRegs.spec_render(), Map::empty()) == SpecVerb::Parsed(
            VerbView::DbgRegs,
        ),
{
    reveal_strlit("dbg ");
    reveal_strlit("dbg");
    reveal_strlit(" ");
    assert("dbg"@.len() == 3);
    reveal_strlit("mov");
    assert("mov"@.len() == 3);
    assert("dbg"@[0] == 'd');
    assert("mov"@[0] == 'm');
    assert("dbg"@ != "mov"@);
    reveal_strlit("jmp");
    assert("jmp"@.len() == 3);
    assert("dbg"@[0] == 'd');
    assert("jmp"@[0] == 'j');
    assert("dbg"@ != "jmp"@);
    reveal_strlit("jz");
    assert("jz"@.len() == 2);
    assert("dbg"@ != "jz"@);
    reveal_strlit("jnz");
    assert("jnz"@.len() == 3);
    assert("dbg"@[0] == 'd');
    assert("jnz"@[0] == 'j');
    assert("dbg"@ != "jnz"@);
    reveal_strlit("jpos");
    assert("jpos"@.len() == 4);
    assert("dbg"@ != "jpos"@);
    reveal_strlit("jposz");
    assert("jposz"@.len() == 5);
    assert("dbg"@ != "jposz"@);
    reveal_strlit("jneg");
    assert("jneg"@.len() == 4);
    assert("dbg"@ != "jneg"@);
    reveal_strlit("jnegz");
    assert("jnegz"@.len() == 5);
    assert("dbg"@ != "jnegz"@);
    reveal_strlit("setz");
    assert("setz"@.len() == 4);
    assert("dbg"@ != "setz"@);
    reveal_strlit("setnz");
    assert("setnz"@.len() == 5);
    assert("dbg"@ != "setnz"@);
    reveal_strlit("setpos");
    assert("setpos"@.len() == 6);
    assert("dbg"@ != "setpos"@);
    reveal_strlit("setposz");
    assert("setposz"@.len() == 7);
    assert("dbg"@ != "setposz"@);
    reveal_strlit("setneg");
    assert("setneg"@.len() == 6);
    assert("dbg"@ != "setneg"@);
    reveal_strlit("setnegz");
    assert("setnegz"@.len() == 7);
    assert("dbg"@ != "setnegz"@);
    reveal_strlit("add");
    assert("add"@.len() == 3);
    assert("dbg"@[0] == 'd');
    assert("add"@[0] == 'a');
    assert("dbg"@ != "add"@);
    reveal_strlit("sub");
    assert("sub"@.len() == 3);
    assert("dbg"@[0] == 'd');
    assert("sub"@[0] == 's');
    assert("dbg"@ != "sub"@);
    reveal_strlit("and");
    assert("and"@.len() == 3);
    assert("dbg"@[0] == 'd');
    assert("and"@[0] == 'a');
    assert("dbg"@ != "and"@);
    reveal_strlit("or");
    assert("or"@.len() == 2);
    assert("dbg"@ != "or"@);
    reveal_strlit("not");
    assert("not"@.len() == 3);
    assert("dbg"@[0] == 'd');
    assert("not"@[0] == 'n');
    assert("dbg"@ != "not"@);
    reveal_strlit("shl");
    assert("shl"@.len() == 3);
    assert("dbg"@[0] == 'd');
    assert("shl"@[0] == 's');
    assert("dbg"@ != "shl"@);
    reveal_strlit("shr");
    assert("shr"@.len() == 3);
    assert("dbg"@[0] == 'd');
    assert("shr"@[0] == 's');
    assert("dbg"@ != "shr"@);
    assert forall|j: int| 0 <= j < "dbg"@.len() implies crate::text::is_ascii_alpha(
        #[trigger] "dbg"@[j],
    ) by {
        if j == 0 {
            assert("dbg"@[0] == 'd');
        } else if j == 1 {
            assert("dbg"@[1] == 'b');
        } else {
            assert("dbg"@[2] == 'g');
        }
    }
    let name = "dbg"@;
    let v = VerbView::DbgRegs;
    let s = v.spec_render();
    let rest = Seq::<char>::empty();
    assert(s =~= name + rest);
    lemma_name_stage(name, rest);
    lemma_absent_stage(rest);
    assert(mnemonic_of(name) == Mnemonic::Dbg);
    assert(spec_parse_verb(s, Map::empty()) == SpecVerb::Parsed(v));
}
/// Round trip for `nop`.
proof fn lemma_rt_nop()
    ensures
        spec_parse_verb(VerbView::Nop.spec_render(), Map::empty()) == SpecVerb::Parsed(
            VerbView::Nop,
        ),
{
    reveal_strlit("nop ");
    reveal_strlit("nop");
    reveal_strlit(" ");
    assert("nop"@.len() == 3);
    reveal_strlit("mov");
    assert("mov"@.len() == 3);
    assert("nop"@[0] == 'n');
    assert("mov"@[0] == 'm');
    assert("nop"@ != "mov"@);
    reveal_strlit("jmp");
    assert("jmp"@.len() == 3);
    assert("nop"@[0] == 'n');
    assert("jmp"@[0] == 'j');
    assert("nop"@ != "jmp"@);
    reveal_strlit("jz");
    assert("jz"@.len() == 2);
    assert("nop"@ != "jz"@);
    reveal_strlit("jnz");
    assert("jnz"@.len() == 3);
    assert("nop"@[0] == 'n');
    assert("jnz"@[0] == 'j');
    assert("nop"@ != "jnz"@);
    reveal_strlit("jpos");
    assert("jpos"@.len() == 4);
    assert("nop"@ != "jpos"@);
    reveal_strlit("jposz");
    assert("jposz"@.len() == 5);
    assert("nop"@ != "jposz"@);
    reveal_strlit("jneg");
    assert("jneg"@.len() == 4);
    assert("nop"@ != "jneg"@);
    reveal_strlit("jnegz");
    assert("jnegz"@.len() == 5);
    assert("nop"@ != "jnegz"@);
    reveal_strlit("setz");
    assert("setz"@.len() == 4);
    assert("nop"@ != "setz"@);
    reveal_strlit("setnz");
    assert("setnz"@.len() == 5);
    assert("nop"@ != "setnz"@);
    reveal_strlit("setpos");
    assert("setpos"@.len() == 6);
    assert("nop"@ != "setpos"@);
    reveal_strlit("setposz");
    assert("setposz"@.len() == 7);
    assert("nop"@ != "setposz"@);
    reveal_strlit("setneg");
    assert("setneg"@.len() == 6);
    assert("nop"@ != "setneg"@);
    reveal_strlit("setnegz");
    assert("setnegz"@.len() == 7);
    assert("nop"@ != "setnegz"@);
    reveal_strlit("add");
    assert("add"@.len() == 3);
    assert("nop"@[0] == 'n');
    assert("add"@[0] == 'a');
    assert("nop"@ != "add"@);
    reveal_strlit("sub");
    assert("sub"@.len() == 3);
    assert("nop"@[0] == 'n');
    assert("sub"@[0] == 's');
    assert("nop"@ != "sub"@);
    reveal_strlit("and");
    assert("and"@.len() == 3);
    assert("nop"@[0] == 'n');
    assert("and"@[0] == 'a');
    assert("nop"@ != "and"@);
    reveal_strlit("or");
    assert("or"@.len() == 2);
    assert("nop"@ != "or"@);
    reveal_strlit("not");
    assert("not"@.len() == 3);
    assert("nop"@[2] == 'p');
    assert("not"@[2] == 't');
    assert("nop"@ != "not"@);
    reveal_strlit("shl");
    assert("shl"@.len() == 3);
    assert("nop"@[0] == 'n');
    assert("shl"@[0] == 's');
    assert("nop"@ != "shl"@);
    reveal_strlit("shr");
    assert("shr"@.len() == 3);
    assert("nop"@[0] == 'n');
    assert("shr"@[0] == 's');
    assert("nop"@ != "shr"@);
    reveal_strlit("dbg");
    assert("dbg"@.len() == 3);
    assert("nop"@[0] == 'n');
    assert("dbg"@[0] == 'd');
    assert("nop"@ != "dbg"@);
    assert forall|j: int| 0 <= j < "nop"@.len() implies crate::text::is_ascii_alpha(
        #[trigger] "nop"@[j],
    ) by {
        if j == 0 {
            assert("nop"@[0] == 'n');
        } else if j == 1 {
            assert("nop"@[1] == 'o');
        } else {
            assert("nop"@[2] == 'p');
        }
    }
    let name = "nop"@;
    let v = VerbView::Nop;
    let s = v.spec_render();
    let rest = Seq::<char>::empty();
    assert(s =~= name + rest);
    lemma_name_stage(name, rest);
    assert(mnemonic_of(name) == Mnemonic::Nop);
    assert(spec_parse_verb(s, Map::empty()) == SpecVerb::Parsed(v));
}
/// Round trip for `halt`.
proof fn lemma_rt_halt()
    ensures
        spec_parse_verb(VerbView::Halt.spec_render(), Map::empty()) == SpecVerb::Parsed(
            VerbView::Halt,
        ),
{
    reveal_strlit("halt ");
    reveal_strlit("halt");
    reveal_strlit(" ");
    assert("halt"@.len() == 4);
    reveal_strlit("mov");
    assert("mov"@.len() == 3);
    assert("halt"@ != "mov"@);
    reveal_strlit("jmp");
    assert("jmp"@.len() == 3);
    assert("halt"@ != "jmp"@);
    reveal_strlit("jz");
    assert("jz"@.len() == 2);
    assert("halt"@ != "jz"@);
    reveal_strlit("jnz");
    assert("jnz"@.len() == 3);
    assert("halt"@ != "jnz"@);
    reveal_strlit("jpos");
    assert("jpos"@.len() == 4);
    assert("halt"@[0] == 'h');
    assert("jpos"@[0] == 'j');
    assert("halt"@ != "jpos"@);
    reveal_strlit("jposz");
    assert("jposz"@.len() == 5);
    assert("halt"@ != "jposz"@);
    reveal_strlit("jneg");
    assert("jneg"@.len() == 4);
    assert("halt"@[0] == 'h');
    assert("jneg"@[0] == 'j');
    assert("halt"@ != "jneg"@);
    reveal_strlit("jnegz");
    assert("jnegz"@.len() == 5);
    assert("halt"@ != "jnegz"@);
    reveal_strlit("setz");
    assert("setz"@.len() == 4);
    assert("halt"@[0] == 'h');
    assert("setz"@[0] == 's');
    assert("halt"@ != "setz"@);
    reveal_strlit("setnz");
    assert("setnz"@.len() == 5);
    assert("halt"@ != "setnz"@);
    reveal_strlit("setpos");
    assert("setpos"@.len() == 6);
    assert("halt"@ != "setpos"@);
    reveal_strlit("setposz");
    assert("setposz"@.len() == 7);
    assert("halt"@ != "setposz"@);
    reveal_strlit("setneg");
    assert("setneg"@.len() == 6);
    assert("halt"@ != "setneg"@);
    reveal_strlit("setnegz");
    assert("setnegz"@.len() == 7);
    assert("halt"@ != "setnegz"@);
    reveal_strlit("add");
    assert("add"@.len() == 3);
    assert("halt"@ != "add"@);
    reveal_strlit("sub");
    assert("sub"@.len() == 3);
    assert("halt"@ != "sub"@);
    reveal_strlit("and");
    assert("and"@.len() == 3);
    assert("halt"@ != "and"@);
    reveal_strlit("or");
    assert("or"@.len() == 2);
    assert("halt"@ != "or"@);
    reveal_strlit("not");
    assert("not"@.len() == 3);
    assert("halt"@ != "not"@);
    reveal_strlit("shl");
    assert("shl"@.len() == 3);
    assert("halt"@ != "shl"@);
    reveal_strlit("shr");
    assert("shr"@.len() == 3);
    assert("halt"@ != "shr"@);
    reveal_strlit("dbg");
    assert("dbg"@.len() == 3);
    assert("halt"@ != "dbg"@);
    reveal_strlit("nop");
    assert("nop"@.len() == 3);
    assert("halt"@ != "nop"@);
    assert forall|j: int| 0 <= j < "halt"@.len() implies crate::text::is_ascii_alpha(
        #[trigger] "halt"@[j],
    ) by {
        if j == 0 {
            assert("halt"@[0] == 'h');
        } else if j == 1 {
            assert("halt"@[1] == 'a');
        } else if j == 2 {
            assert("halt"@[2] == 'l');
        } else {
            assert("halt"@[3] == 't');
        }
    }
    let name = "halt"@;
    let v = VerbView::Halt;
    let s = v.spec_render();
    let rest = Seq::<char>::empty();
    assert(s =~= name + rest);
    lemma_name_stage(name, rest);
    assert(mnemonic_of(name) == Mnemonic::Halt);
    assert(spec_parse_verb(s, Map::empty()) == SpecVerb::Parsed(v));
}
/// Round trip for `call`.
proof fn lemma_rt_call(o: OperandView)
    requires
        VerbView::Call(o).wf(),
        op_renderable(o),
    ensures
        spec_parse_verb(VerbView::Call(o).spec_render(), Map::empty()) == SpecVerb::Parsed(
            VerbView::Call(o),
        ),
{
    reveal_strlit("call ");
    reveal_strlit("call");
    reveal_strlit(" ");
    assert("call"@.len() == 4);
    reveal_strlit("mov");
    assert("mov"@.len() == 3);
    assert("call"@ != "mov"@);
    reveal_strlit("jmp");
    assert("jmp"@.len() == 3);
    assert("call"@ != "jmp"@);
    reveal_strlit("jz");
    assert("jz"@.len() == 2);
    assert("call"@ != "jz"@);
    reveal_strlit("jnz");
    assert("jnz"@.len() == 3);
    assert("call"@ != "jnz"@);
    reveal_strlit("jpos");
    assert("jpos"@.len() == 4);
    assert("call"@[0] == 'c');
    assert("jpos"@[0] == 'j');
    assert("call"@ != "jpos"@);
    reveal_strlit("jposz");
    assert("jposz"@.len() == 5);
    assert("call"@ != "jposz"@);
    reveal_strlit("jneg");
    assert("jneg"@.len() == 4);
    assert("call"@[0] == 'c');
    assert("jneg"@[0] == 'j');
    assert("call"@ != "jneg"@);
    reveal_strlit("jnegz");
    assert("jnegz"@.len() == 5);
    assert("call"@ != "jnegz"@);
    reveal_strlit("setz");
    assert("setz"@.len() == 4);
    assert("call"@[0] == 'c');
    assert("setz"@[0] == 's');
    assert("call"@ != "setz"@);
    reveal_strlit("setnz");
    assert("setnz"@.len() == 5);
    assert("call"@ != "setnz"@);
    reveal_strlit("setpos");
    assert("setpos"@.len() == 6);
    assert("call"@ != "setpos"@);
    reveal_strlit("setposz");
    assert("setposz"@.len() == 7);
    assert("call"@ != "setposz"@);
    reveal_strlit("setneg");
    assert("setneg"@.len() == 6);
    assert("call"@ != "setneg"@);
    reveal_strlit("setnegz");
    assert("setnegz"@.len() == 7);
    assert("call"@ != "setnegz"@);
    reveal_strlit("add");
    assert("add"@.len() == 3);
    assert("call"@ != "add"@);
    reveal_strlit("sub");
    assert("sub"@.len() == 3);
    assert("call"@ != "sub"@);
    reveal_strlit("and");
    assert("and"@.len() == 3);
    assert("call"@ != "and"@);
    reveal_strlit("or");
    assert("or"@.len() == 2);
    assert("call"@ != "or"@);
    reveal_strlit("not");
    assert("not"@.len() == 3);
    assert("call"@ != "not"@);
    reveal_strlit("shl");
    assert("shl"@.len() == 3);
    assert("call"@ != "shl"@);
    reveal_strlit("shr");
    assert("shr"@.len() == 3);
    assert("call"@ != "shr"@);
    reveal_strlit("dbg");
    assert("dbg"@.len() == 3);
    assert("call"@ != "dbg"@);
    reveal_strlit("nop");
    assert("nop"@.len() == 3);
    assert("call"@ != "nop"@);
    reveal_strlit("halt");
    assert("halt"@.len() == 4);
    assert("call"@[0] == 'c');
    assert("halt"@[0] == 'h');
    assert("call"@ != "halt"@);
    assert forall|j: int| 0 <= j < "call"@.len() implies crate::text::is_ascii_alpha(
        #[trigger] "call"@[j],
    ) by {
        if j == 0 {
            assert("call"@[0] == 'c');
        } else if j == 1 {
            assert("call"@[1] == 'a');
        } else if j == 2 {
            assert("call"@[2] == 'l');
        } else {
            assert("call"@[3] == 'l');
        }
    }
    let name = "call"@;
    let v = VerbView::Call(o);
    let s = v.spec_render();
    let rest = seq![' '] + o.spec_render();
    assert(s =~= name + rest);
    lemma_name_stage(name, rest);
    let tail = Seq::<char>::empty();
    assert(rest =~= seq![' '] + o.spec_render() + tail);
    lemma_operand_at(rest, o, tail);
    assert(mnemonic_of(name) == Mnemonic::Call);
    assert(spec_parse_verb(s, Map::empty()) == SpecVerb::Parsed(v));
}
/// Round trip for `ret`.
proof fn lemma_rt_ret()
    ensures
        spec_parse_verb(VerbView::Ret.spec_render(), Map::empty()) == SpecVerb::Parsed(
            VerbView::Ret,
        ),
{
    reveal_strlit("ret ");
    reveal_strlit("ret");
    reveal_strlit(" ");
    assert("ret"@.len() == 3);
    reveal_strlit("mov");
    assert("mov"@.len() == 3);
    assert("ret"@[0] == 'r');
    assert("mov"@[0] == 'm');
    assert("ret"@ != "mov"@);
    reveal_strlit("jmp");
    assert("jmp"@.len() == 3);
    assert("ret"@[0] == 'r');
    assert("jmp"@[0] == 'j');
    assert("ret"@ != "jmp"@);
    reveal_strlit("jz");
    assert("jz"@.len() == 2);
    assert("ret"@ != "jz"@);
    reveal_strlit("jnz");
    assert("jnz"@.len() == 3);
    assert("ret"@[0] == 'r');
    assert("jnz"@[0] == 'j');
    assert("ret"@ != "jnz"@);
    reveal_strlit("jpos");
    assert("jpos"@.len() == 4);
    assert("ret"@ != "jpos"@);
    reveal_strlit("jposz");
    assert("jposz"@.len() == 5);
    assert("ret"@ != "jposz"@);
    reveal_strlit("jneg");
    assert("jneg"@.len() == 4);
    assert("ret"@ != "jneg"@);
    reveal_strlit("jnegz");
    assert("jnegz"@.len() == 5);
    assert("ret"@ != "jnegz"@);
    reveal_strlit("setz");
    assert("setz"@.len() == 4);
    assert("ret"@ != "setz"@);
    reveal_strlit("setnz");
    assert("setnz"@.len() == 5);
    assert("ret"@ != "setnz"@);
    reveal_strlit("setpos");
    assert("setpos"@.len() == 6);
    assert("ret"@ != "setpos"@);
    reveal_strlit("setposz");
    assert("setposz"@.len() == 7);
    assert("ret"@ != "setposz"@);
    reveal_strlit("setneg");
    assert("setneg"@.len() == 6);
    assert("ret"@ != "setneg"@);
    reveal_strlit("setnegz");
    assert("setnegz"@.len() == 7);
    assert("ret"@ != "setnegz"@);
    reveal_strlit("add");
    assert("add"@.len() == 3);
    assert("ret"@[0] == 'r');
    assert("add"@[0] == 'a');
    assert("ret"@ != "add"@);
    reveal_strlit("sub");
    assert("sub"@.len() == 3);
    assert("ret"@[0] == 'r');
    assert("sub"@[0] == 's');
    assert("ret"@ != "sub"@);
    reveal_strlit("and");
    assert("and"@.len() == 3);
    assert("ret"@[0] == 'r');
    assert("and"@[0] == 'a');
    assert("ret"@ != "and"@);
    reveal_strlit("or");
    assert("or"@.len() == 2);
    assert("ret"@ != "or"@);
    reveal_strlit("not");
    assert("not"@.len() == 3);
    assert("ret"@[0] == 'r');
    assert("not"@[0] == 'n');
    assert("ret"@ != "not"@);
    reveal_strlit("shl");
    assert("shl"@.len() == 3);
    assert("ret"@[0] == 'r');
    assert("shl"@[0] == 's');
    assert("ret"@ != "shl"@);
    reveal_strlit("shr");
    assert("shr"@.len() == 3);
    assert("ret"@[0] == 'r');
    assert("shr"@[0] == 's');
    assert("ret"@ != "shr"@);
    reveal_strlit("dbg");
    assert("dbg"@.len() == 3);
    assert("ret"@[0] == 'r');
    assert("dbg"@[0] == 'd');
    assert("ret"@ != "dbg"@);
    reveal_strlit("nop");
    assert("nop"@.len() == 3);
    assert("ret"@[0] == 'r');
    assert("nop"@[0] == 'n');
    assert("ret"@ != "nop"@);
    reveal_strlit("halt");
    assert("halt"@.len() == 4);
    assert("ret"@ != "halt"@);
    reveal_strlit("call");
    assert("call"@.len() == 4);
    assert("ret"@ != "call"@);
    assert forall|j: int| 0 <= j < "ret"@.len() implies crate::text::is_ascii_alpha(
        #[trigger] "ret"@[j],
    ) by {
        if j == 0 {
            assert("ret"@[0] == 'r');
        } else if j == 1 {
            assert("ret"@[1] == 'e');
        } else {
            assert("ret"@[2] == 't');
        }
    }
    let name = "ret"@;
    let v = VerbView::Ret;
    let s = v.spec_render();
    let rest = Seq::<char>::empty();
    assert(s =~= name + rest);
    lemma_name_stage(name, rest);
    assert(mnemonic_of(name) == Mnemonic::Ret);
    assert(spec_parse_verb(s, Map::empty()) == SpecVerb::Parsed(v));
}
/// Round trip for `push`.
proof fn lemma_rt_push(o: OperandView)
    requires
        VerbView::Push(o).wf(),
        op_renderable(o),
    ensures
        spec_parse_verb(VerbView::Push(o).spec_render(), Map::empty()) == SpecVerb::Parsed(
            VerbView::Push(o),
        ),
{
    reveal_strlit("push ");
    reveal_strlit("push");
    reveal_strlit(" ");
    assert("push"@.len() == 4);
    reveal_strlit("mov");
    assert("mov"@.len() == 3);
    assert("push"@ != "mov"@);
    reveal_strlit("jmp");
    assert("jmp"@.len() == 3);
    assert("push"@ != "jmp"@);
    reveal_strlit("jz");
    assert("jz"@.len() == 2);
    assert("push"@ != "jz"@);
    reveal_strlit("jnz");
    assert("jnz"@.len() == 3);
    assert("push"@ != "jnz"@);
    reveal_strlit("jpos");
    assert("jpos"@.len() == 4);
    assert("push"@[0] == 'p');
    assert("jpos"@[0] == 'j');
    assert("push"@ != "jpos"@);
    reveal_strlit("jposz");
    assert("jposz"@.len() == 5);
    assert("push"@ != "jposz"@);
    reveal_strlit("jneg");
    assert("jneg"@.len() == 4);
    assert("push"@[0] == 'p');
    assert("jneg"@[0] == 'j');
    assert("push"@ != "jneg"@);
    reveal_strlit("jnegz");
    assert("jnegz"@.len() == 5);
    assert("push"@ != "jnegz"@);
    reveal_strlit("setz");
    assert("setz"@.len() == 4);
    assert("push"@[0] == 'p');
    assert("setz"@[0] == 's');
    assert("push"@ != "setz"@);
    reveal_strlit("setnz");
    assert("setnz"@.len() == 5);
    assert("push"@ != "setnz"@);
    reveal_strlit("setpos");
    assert("setpos"@.len() == 6);
    assert("push"@ != "setpos"@);
    reveal_strlit("setposz");
    assert("setposz"@.len() == 7);
    assert("push"@ != "setposz"@);
    reveal_strlit("setneg");
    assert("setneg"@.len() == 6);
    assert("push"@ != "setneg"@);
    reveal_strlit("setnegz");
    assert("setnegz"@.len() == 7);
    assert("push"@ != "setnegz"@);
    reveal_strlit("add");
    assert("add"@.len() == 3);
    assert("push"@ != "add"@);
    reveal_strlit("sub");
    assert("sub"@.len() == 3);
    assert("push"@ != "sub"@);
    reveal_strlit("and");
    assert("and"@.len() == 3);
    assert("push"@ != "and"@);
    reveal_strlit("or");
    assert("or"@.len() == 2);
    assert("push"@ != "or"@);
    reveal_strlit("not");
    assert("not"@.len() == 3);
    assert("push"@ != "not"@);
    reveal_strlit("shl");
    assert("shl"@.len() == 3);
    assert("push"@ != "shl"@);
    reveal_strlit("shr");
    assert("shr"@.len() == 3);
    assert("push"@ != "shr"@);
    reveal_strlit("dbg");
    assert("dbg"@.len() == 3);
    assert("push"@ != "dbg"@);
    reveal_strlit("nop");
    assert("nop"@.len() == 3);
    assert("push"@ != "nop"@);
    reveal_strlit("halt");
    assert("halt"@.len() == 4);
    assert("push"@[0] == 'p');
    assert("halt"@[0] == 'h');
    assert("push"@ != "halt"@);
    reveal_strlit("call");
    assert("call"@.len() == 4);
    assert("push"@[0] == 'p');
    assert("call"@[0] == 'c');
    assert("push"@ != "call"@);
    reveal_strlit("ret");
    assert("ret"@.len() == 3);
    assert("push"@ != "ret"@);
    assert forall|j: int| 0 <= j < "push"@.len() implies crate::text::is_ascii_alpha(
        #[trigger] "push"@[j],
    ) by {
        if j == 0 {
            assert("push"@[0] == 'p');
        } else if j == 1 {
            assert("push"@[1] == 'u');
        } else if j == 2 {
            assert("push"@[2] == 's');
        } else {
            assert("push"@[3] == 'h');
        }
    }
    let name = "push"@;
    let v = VerbView::Push(o);
    let s = v.spec_render();
    let rest = seq![' '] + o.spec_render();
    assert(s =~= name + rest);
    lemma_name_stage(name, rest);
    let tail = Seq::<char>::empty();
    assert(rest =~= seq![' '] + o.spec_render() + tail);
    lemma_operand_at(rest, o, tail);
    assert(mnemonic_of(name) == Mnemonic::Push);
    assert(spec_parse_verb(s, Map::empty()) == SpecVerb::Parsed(v));
}
/// Round trip for `pop`.
proof fn lemma_rt_pop(o: OperandView)
    requires
        VerbView::Pop(o).wf(),
        op_renderable(o),
    ensures
        spec_parse_verb(VerbView::Pop(o).spec_render(), Map::empty()) == SpecVerb::Parsed(
            VerbView::Pop(o),
        ),
{
    reveal_strlit("pop ");
    reveal_strlit("pop");
    reveal_strlit(" ");
    assert("pop"@.len() == 3);
    reveal_strlit("mov");
    assert("mov"@.len() == 3);
    assert("pop"@[0] == 'p');
    assert("mov"@[0] == 'm');
    assert("pop"@ != "mov"@);
    reveal_strlit("jmp");
    assert("jmp"@.len() == 3);
    assert("pop"@[0] == 'p');
    assert("jmp"@[0] == 'j');
    assert("pop"@ != "jmp"@);
    reveal_strlit("jz");
    assert("jz"@.len() == 2);
    assert("pop"@ != "jz"@);
    reveal_strlit("jnz");
    assert("jnz"@.len() == 3);
    assert("pop"@[0] == 'p');
    assert("jnz"@[0] == 'j');
    assert("pop"@ != "jnz"@);
    reveal_strlit("jpos");
    assert("jpos"@.len() == 4);
    assert("pop"@ != "jpos"@);
    reveal_strlit("jposz");
    assert("jposz"@.len() == 5);
    assert("pop"@ != "jposz"@);
    reveal_strlit("jneg");
    assert("jneg"@.len() == 4);
    assert("pop"@ != "jneg"@);
    reveal_strlit("jnegz");
    assert("jnegz"@.len() == 5);
    assert("pop"@ != "jnegz"@);
    reveal_strlit("setz");
    assert("setz"@.len() == 4);
    assert("pop"@ != "setz"@);
    reveal_strlit("setnz");
    assert("setnz"@.len() == 5);
    assert("pop"@ != "setnz"@);
    reveal_strlit("setpos");
    assert("setpos"@.len() == 6);
    assert("pop"@ != "setpos"@);
    reveal_strlit("setposz");
    assert("setposz"@.len() == 7);
    assert("pop"@ != "setposz"@);
    reveal_strlit("setneg");
    assert("setneg"@.len() == 6);
    assert("pop"@ != "setneg"@);
    reveal_strlit("setnegz");
    assert("setnegz"@.len() == 7);
    assert("pop"@ != "setnegz"@);
    reveal_strlit("add");
    assert("add"@.len() == 3);
    assert("pop"@[0] == 'p');
    assert("add"@[0] == 'a');
    assert("pop"@ != "add"@);
    reveal_strlit("sub");
    assert("sub"@.len() == 3);
    assert("pop"@[0] == 'p');
    assert("sub"@[0] == 's');
    assert("pop"@ != "sub"@);
    reveal_strlit("and");
    assert("and"@.len() == 3);
    assert("pop"@[0] == 'p');
    assert("and"@[0] == 'a');
    assert("pop"@ != "and"@);
    reveal_strlit("or");
    assert("or"@.len() == 2);
    assert("pop"@ != "or"@);
    reveal_strlit("not");
    assert("not"@.len() == 3);
    assert("pop"@[0] == 'p');
    assert("not"@[0] == 'n');
    assert("pop"@ != "not"@);
    reveal_strlit("shl");
    assert("shl"@.len() == 3);
    assert("pop"@[0] == 'p');
    assert("shl"@[0] == 's');
    assert("pop"@ != "shl"@);
    reveal_strlit("shr");
    assert("shr"@.len() == 3);
    assert("pop"@[0] == 'p');
    assert("shr"@[0] == 's');
    assert("pop"@ != "shr"@);
    reveal_strlit("dbg");
    assert("dbg"@.len() == 3);
    assert("pop"@[0] == 'p');
    assert("dbg"@[0] == 'd');
    assert("pop"@ != "dbg"@);
    reveal_strlit("nop");
    assert("nop"@.len() == 3);
    assert("pop"@[0] == 'p');
    assert("nop"@[0] == 'n');
    assert("pop"@ != "nop"@);
    reveal_strlit("halt");
    assert("halt"@.len() == 4);
    assert("pop"@ != "halt"@);
    reveal_strlit("call");
    assert("call"@.len() == 4);
    assert("pop"@ != "call"@);
    reveal_strlit("ret");
    assert("ret"@.len() == 3);
    assert("pop"@[0] == 'p');
    assert("ret"@[0] == 'r');
    assert("pop"@ != "ret"@);
    reveal_strlit("push");
    assert("push"@.len() == 4);
    assert("pop"@ != "push"@);
    assert forall|j: int| 0 <= j < "pop"@.len() implies crate::text::is_ascii_alpha(
        #[trigger] "pop"@[j],
    ) by {
        if j == 0 {
            assert("pop"@[0] == 'p');
        } else if j == 1 {
            assert("pop"@[1] == 'o');
        } else {
            assert("pop"@[2] == 'p');
        }
    }
    let name = "pop"@;
    let v = VerbView::Pop(o);
    let s = v.spec_render();
    let rest = seq![' '] + o.spec_render();
    assert(s =~= name + rest);
    lemma_name_stage(name, rest);
    let tail = Seq::<char>::empty();
    assert(rest =~= seq![' '] + o.spec_render() + tail);
    lemma_operand_at(rest, o, tail);
    assert(mnemonic_of(name) == Mnemonic::Pop);
    assert(spec_parse_verb(s, Map::empty()) == SpecVerb::Parsed(v));
}
/// Round trip for `loadf`.
proof fn lemma_rt_loadf(o1: OperandView, o2: OperandView)
    requires
        VerbView::Loadf(o1, o2).wf(),
        op_renderable(o1),
        op_renderable(o2),
    ensures
        spec_parse_verb(VerbView::Loadf(o1, o2).spec_render(), Map::empty()) == SpecVerb::Parsed(
            VerbView::Loadf(o1, o2),
        ),
{
    reveal_strlit("loadf ");
    reveal_strlit("loadf");
    reveal_strlit(" ");
    assert("loadf"@.len() == 5);
    reveal_strlit("mov");
    assert("mov"@.len() == 3);
    assert("loadf"@ != "mov"@);
    reveal_strlit("jmp");
    assert("jmp"@.len() == 3);
    assert("loadf"@ != "jmp"@);
    reveal_strlit("jz");
    assert("jz"@.len() == 2);
    assert("loadf"@ != "jz"@);
    reveal_strlit("jnz");
    assert("jnz"@.len() == 3);
    assert("loadf"@ != "jnz"@);
    reveal_strlit("jpos");
    assert("jpos"@.len() == 4);
    assert("loadf"@ != "jpos"@);
    reveal_strlit("jposz");
    assert("jposz"@.len() == 5);
    assert("loadf"@[0] == 'l');
    assert("jposz"@[0] == 'j');
    assert("loadf"@ != "jposz"@);
    reveal_strlit("jneg");
    assert("jneg"@.len() == 4);
    assert("loadf"@ != "jneg"@);
    reveal_strlit("jnegz");
    assert("jnegz"@.len() == 5);
    assert("loadf"@[0] == 'l');
    assert("jnegz"@[0] == 'j');
    assert("loadf"@ != "jnegz"@);
    reveal_strlit("setz");
    assert("setz"@.len() == 4);
    assert("loadf"@ != "setz"@);
    reveal_strlit("setnz");
    assert("setnz"@.len() == 5);
    assert("loadf"@[0] == 'l');
    assert("setnz"@[0] == 's');
    assert("loadf"@ != "setnz"@);
    reveal_strlit("setpos");
    assert("setpos"@.len() == 6);
    assert("loadf"@ != "setpos"@);
    reveal_strlit("setposz");
    assert("setposz"@.len() == 7);
    assert("loadf"@ != "setposz"@);
    reveal_strlit("setneg");
    assert("setneg"@.len() == 6);
    assert("loadf"@ != "setneg"@);
    reveal_strlit("setnegz");
    assert("setnegz"@.len() == 7);
    assert("loadf"@ != "setnegz"@);
    reveal_strlit("add");
    assert("add"@.len() == 3);
    assert("loadf"@ != "add"@);
    reveal_strlit("sub");
    assert("sub"@.len() == 3);
    assert("loadf"@ != "sub"@);
    reveal_strlit("and");
    assert("and"@.len() == 3);
    assert("loadf"@ != "and"@);
    reveal_strlit("or");
    assert("or"@.len() == 2);
    assert("loadf"@ != "or"@);
    reveal_strlit("not");
    assert("not"@.len() == 3);
    assert("loadf"@ != "not"@);
    reveal_strlit("shl");
    assert("shl"@.len() == 3);
    assert("loadf"@ != "shl"@);
    reveal_strlit("shr");
    assert("shr"@.len() == 3);
    assert("loadf"@ != "shr"@);
    reveal_strlit("dbg");
    assert("dbg"@.len() == 3);
    assert("loadf"@ != "dbg"@);
    reveal_strlit("nop");
    assert("nop"@.len() == 3);
    assert("loadf"@ != "nop"@);
    reveal_strlit("halt");
    assert("halt"@.len() == 4);
    assert("loadf"@ != "halt"@);
    reveal_strlit("call");
    assert("call"@.len() == 4);
    assert("loadf"@ != "call"@);
    reveal_strlit("ret");
    assert("ret"@.len() == 3);
    assert("loadf"@ != "ret"@);
    reveal_strlit("push");
    assert("push"@.len() == 4);
    assert("loadf"@ != "push"@);
    reveal_strlit("pop");
    assert("pop"@.len() == 3);
    assert("loadf"@ != "pop"@);
    assert forall|j: int| 0 <= j < "loadf"@.len() implies crate::text::is_ascii_alpha(
        #[trigger] "loadf"@[j],
    ) by {
        if j == 0 {
            assert("loadf"@[0] == 'l');
        } else if j == 1 {
            assert("loadf"@[1] == 'o');
        } else if j == 2 {
            assert("loadf"@[2] == 'a');
        } else if j == 3 {
            assert("loadf"@[3] == 'd');
        } else {
            assert("loadf"@[4] == 'f');
        }
    }
    let name = "loadf"@;
    let v = VerbView::Loadf(o1, o2);
    let s = v.spec_render();
    let rest = seq![' '] + o1.spec_render() + " "@ + o2.spec_render();
    assert(s =~= name + rest);
    lemma_name_stage(name, rest);
    lemma_two_stage(o1, o2, rest);
    assert(mnemonic_of(name) == Mnemonic::Loadf);
    assert(spec_parse_verb(s, Map::empty()) == SpecVerb::Parsed(v));
}
/// Round trip for `storef`.
proof fn lemma_rt_storef(o1: OperandView, o2: OperandView)
    requires
        VerbView::Storef(o1, o2).wf(),
        op_renderable(o1),
        op_renderable(o2),
    ensures
        spec_parse_verb(VerbView::Storef(o1, o2).spec_render(), Map::empty()) == SpecVerb::Parsed(
            VerbView::Storef(o1, o2),
        ),
{
    reveal_strlit("storef ");
    reveal_strlit("storef");
    reveal_strlit(" ");
    assert("storef"@.len() == 6);
    reveal_strlit("mov");
    assert("mov"@.len() == 3);
    assert("storef"@ != "mov"@);
    reveal_strlit("jmp");
    assert("jmp"@.len() == 3);
    assert("storef"@ != "jmp"@);
    reveal_strlit("jz");
    assert("jz"@.len() == 2);
    assert("storef"@ != "jz"@);
    reveal_strlit("jnz");
    assert("jnz"@.len() == 3);
    assert("storef"@ != "jnz"@);
    reveal_strlit("jpos");
    assert("jpos"@.len() == 4);
    assert("storef"@ != "jpos"@);
    reveal_strlit("jposz");
    assert("jposz"@.len() == 5);
    assert("storef"@ != "jposz"@);
    reveal_strlit("jneg");
    assert("jneg"@.len() == 4);
    assert("storef"@ != "jneg"@);
    reveal_strlit("jnegz");
    assert("jnegz"@.len() == 5);
    assert("storef"@ != "jnegz"@);
    reveal_strlit("setz");
    assert("setz"@.len() == 4);
    assert("storef"@ != "setz"@);
    reveal_strlit("setnz");
    assert("setnz"@.len() == 5);
    assert("storef"@ != "setnz"@);
    reveal_strlit("setpos");
    assert("setpos"@.len() == 6);
    assert("storef"@[1] == 't');
    assert("setpos"@[1] == 'e');
    assert("storef"@ != "setpos"@);
    reveal_strlit("setposz");
    assert("setposz"@.len() == 7);
    assert("storef"@ != "setposz"@);
    reveal_strlit("setneg");
    assert("setneg"@.len() == 6);
    assert("storef"@[1] == 't');
    assert("setneg"@[1] == 'e');
    assert("storef"@ != "setneg"@);
    reveal_strlit("setnegz");
    assert("setnegz"@.len() == 7);
    assert("storef"@ != "setnegz"@);
    reveal_strlit("add");
    assert("add"@.len() == 3);
    assert("storef"@ != "add"@);
    reveal_strlit("sub");
    assert("sub"@.len() == 3);
    assert("storef"@ != "sub"@);
    reveal_strlit("and");
    assert("and"@.len() == 3);
    assert("storef"@ != "and"@);
    reveal_strlit("or");
    assert("or"@.len() == 2);
    assert("storef"@ != "or"@);
    reveal_strlit("not");
    assert("not"@.len() == 3);
    assert("storef"@ != "not"@);
    reveal_strlit("shl");
    assert("shl"@.len() == 3);
    assert("storef"@ != "shl"@);
    reveal_strlit("shr");
    assert("shr"@.len() == 3);
    assert("storef"@ != "shr"@);
    reveal_strlit("dbg");
    assert("dbg"@.len() == 3);
    assert("storef"@ != "dbg"@);
    reveal_strlit("nop");
    assert("nop"@.len() == 3);
    assert("storef"@ != "nop"@);
    reveal_strlit("halt");
    assert("halt"@.len() == 4);
    assert("storef"@ != "halt"@);
    reveal_strlit("call");
    assert("call"@.len() == 4);
    assert("storef"@ != "call"@);
    reveal_strlit("ret");
    assert("ret"@.len() == 3);
    assert("storef"@ != "ret"@);
    reveal_strlit("push");
    assert("push"@.len() == 4);
    assert("storef"@ != "push"@);
    reveal_strlit("pop");
    assert("pop"@.len() == 3);
    assert("storef"@ != "pop"@);
    reveal_strlit("loadf");
    assert("loadf"@.len() == 5);
    assert("storef"@ != "loadf"@);
    assert forall|j: int| 0 <= j < "storef"@.len() implies crate::text::is_ascii_alpha(
        #[trigger] "storef"@[j],
    ) by {
        if j == 0 {
            assert("storef"@[0] == 's');
        } else if j == 1 {
            assert("storef"@[1] == 't');
        } else if j == 2 {
            assert("storef"@[2] == 'o');
        } else if j == 3 {
            assert("storef"@[3] == 'r');
        } else if j == 4 {
            assert("storef"@[4] == 'e');
        } else {
            assert("storef"@[5] == 'f');
        }
    }
    let name = "storef"@;
    let v = VerbView::Storef(o1, o2);
    let s = v.spec_render();
    let rest = seq![' '] + o1.spec_render() + " "@ + o2.spec_render();
    assert(s =~= name + rest);
    lemma_name_stage(name, rest);
    lemma_two_stage(o1, o2, rest);
    assert(mnemonic_of(name) == Mnemonic::Storef);
    assert(spec_parse_verb(s, Map::empty()) == SpecVerb::Parsed(v));
}

/// Round trip: every instruction the parser accepts re-parses, from its
/// own disassembled text and under an empty location table, to the same
/// instruction — mnemonic and operands alike.
pub proof fn lemma_round_trip(v: VerbView)
    requires
        v.wf(),
        verb_renderable(v),
    ensures
        spec_parse_verb(v.spec_render(), Map::empty()) == SpecVerb::Parsed(v),
{
    match v {
        VerbView::Mov(o1, o2) => lemma_rt_mov(o1, o2),
        VerbView::Jmp(o) => lemma_rt_jmp(o),
        VerbView::Jz(o1, o2) => lemma_rt_jz(o1, o2),
        VerbView::Jnz(o1, o2) => lemma_rt_jnz(o1, o2),
        VerbView::Jpos(o1, o2) => lemma_rt_jpos(o1, o2),
        VerbView::Jposz(o1, o2) => lemma_rt_jposz(o1, o2),
        VerbView::Jneg(o1, o2) => lemma_rt_jneg(o1, o2),
        VerbView::Jnegz(o1, o2) => lemma_rt_jnegz(o1, o2),
        VerbView::Setz(o1, o2) => lemma_rt_setz(o1, o2),
        VerbView::Setnz(o1, o2) => lemma_rt_setnz(o1, o2),
        VerbView::Setpos(o1, o2) => lemma_rt_setpos(o1, o2),
        VerbView::Setposz(o1, o2) => lemma_rt_setposz(o1, o2),
        VerbView::Setneg(o1, o2) => lemma_rt_setneg(o1, o2),
        VerbView::Setnegz(o1, o2) => lemma_rt_setnegz(o1, o2),
        VerbView::Add(o1, o2) => lemma_rt_add(o1, o2),
        VerbView::Sub(o1, o2) => lemma_rt_sub(o1, o2),
        VerbView::And(o1, o2) => lemma_rt_and(o1, o2),
        VerbView::Or(o1, o2) => lemma_rt_or(o1, o2),
        VerbView::Not(o) => lemma_rt_not(o),
        VerbView::Shl(o1, o2) => lemma_rt_shl(o1, o2),
        VerbView::Shr(o1, o2) => lemma_rt_shr(o1, o2),
        VerbView::Dbg(o) => lemma_rt_dbg(o),
        VerbView::DbgRegs => lemma_rt_dbgregs(),
        VerbView::Nop => lemma_rt_nop(),
        VerbView::Halt => lemma_rt_halt(),
        VerbView::Call(o) => lemma_rt_call(o),
        VerbView::Ret => lemma_rt_ret(),
        VerbView::Push(o) => lemma_rt_push(o),
        VerbView::Pop(o) => lemma_rt_pop(o),
        VerbView::Loadf(o1, o2) => lemma_rt_loadf(o1, o2),
        VerbView::Storef(o1, o2) => lemma_rt_storef(o1, o2),
    }
}

/// What assembling a whole source yields: the instruction sequence and
/// label map, or the error that aborted assembly.
pub enum SpecSrc {
    /// Assembly finished.
    Done(Seq<VerbView>, Map<Seq<char>, u16>),
    /// Assembly aborted on the first bad line.
    Aborted(AsmError),
}

/// A nonempty text shrinks when its first line is dropped.
pub(crate) proof fn lemma_after_line_lt(s: Seq<char>)
    requires
        s.len() > 0,
    ensures
        after_line(s).len() < s.len(),
{
    lemma_lead_count(s, not_nl_p());
}

/// The meaning of a whole source text, one line at a time: blank and
/// comment lines contribute nothing, a label line binds the next address,
/// and any other line must parse as an instruction. `verbs` and `labels`
/// accumulate what earlier lines produced.
pub open spec fn spec_get_tokens(
    s: Seq<char>,
    m: Map<Seq<char>, u16>,
    verbs: Seq<VerbView>,
    labels: Map<Seq<char>, u16>,
) -> SpecSrc
    decreases s.len(),
    via spec_get_tokens_dec
{
    if s.len() == 0 {
        SpecSrc::Done(verbs, labels)
    } else {
        let w = skip_ws(s);
        if w.len() == 0 {
            SpecSrc::Done(verbs, labels)
        } else if w[0] == '\n' || w[0] == ';' {
            spec_get_tokens(after_line(w), m, verbs, labels)
        } else if w[0] == '.' {
            spec_get_tokens(
                after_line(w),
                m,
                verbs,
                labels.insert(token_of(w), verbs.len() as u16),
            )
        } else {
            match spec_parse_verb(w, m) {
                SpecVerb::Failed(e) => SpecSrc::Aborted(e),
                SpecVerb::Parsed(v) => spec_get_tokens(after_line(w), m, verbs.push(v), labels),
            }
        }
    }
}

#[via_fn]
proof fn spec_get_tokens_dec(
    s: Seq<char>,
    m: Map<Seq<char>, u16>,
    verbs: Seq<VerbView>,
    labels: Map<Seq<char>, u16>,
) {
    if s.len() > 0 {
        lemma_lead_count(s, line_ws_p());
        let w = skip_ws(s);
        if w.len() > 0 {
            lemma_after_line_lt(w);
        }
    }
}

/// Whether any text is left.
pub(crate) fn peek_some(cursor: &SourceCodeCursor) -> (r: bool)
    requires
        cursor.wf(),
    ensures
        r == (cursor.rest().len() > 0),
{
    match cursor.peek() {
        Some(_) => true,
        None => false,
    }
}

/// Assembles a whole source text: one pass, line by line, yielding the
/// instruction sequence (position is address) and the label map, or the
/// error of the first bad line, with no partial output.
pub fn get_tokens(source_code_contents: String, var_loc_map: &NameMap) -> (r: Result<
    (Vec<Verb>, NameMap),
    AsmError,
>)
    ensures
        match r {
            Ok(p) => spec_get_tokens(
                source_code_contents@,
                var_loc_map@,
                Seq::empty(),
                Map::empty(),
            ) == SpecSrc::Done(p.0.deep_view(), p.1@) && forall|i: int|
                0 <= i < p.0.deep_view().len() ==> (#[trigger] p.0.deep_view()[i]).wf(),
            Err(e) => spec_get_tokens(
                source_code_contents@,
                var_loc_map@,
                Seq::empty(),
                Map::empty(),
            ) == SpecSrc::Aborted(e),
        },
{
    let mut cursor = SourceCodeCursor::new(source_code_contents);
    let mut label_map = NameMap::new();
    let mut verbs: Vec<Verb> = Vec::new();
    proof {
        assert(verbs.deep_view() =~= Seq::<VerbView>::empty());
    }
    while peek_some(&cursor)
        invariant
            cursor.wf(),
            spec_get_tokens(cursor.rest(), var_loc_map@, verbs.deep_view(), label_map@)
                == spec_get_tokens(
                source_code_contents@,
                var_loc_map@,
                Seq::empty(),
                Map::empty(),
            ),
            forall|i: int|
                0 <= i < verbs.deep_view().len() ==> (#[trigger] verbs.deep_view()[i]).wf(),
        decreases cursor.rest().len(),
    {
        let ghost iter_rest = cursor.rest();
        consume_whitespace(&mut cursor);
        let ghost w = cursor.rest();
        match cursor.peek() {
            None => {
            },
            Some(c) => {
                if c == '\n' || c == ';' {
                    consume_rest_of_line(&mut cursor);
                    proof {
                        lemma_after_line_lt(w);
                    }
                } else if c == '.' {
                    let label_name = read_token(&mut cursor);
                    consume_rest_of_line(&mut cursor);
                    proof {
                        lemma_after_line_after_token(w);
                        lemma_after_line_lt(w);
                    }
                    #[verifier::truncate]
                    let addr = verbs.len() as u16;
                    label_map.insert(label_name, addr);
                } else {
                    let verb = match parse_verb(&mut cursor, var_loc_map) {
                        Ok(v) => v,
                        Err(e) => {
                            return Err(e);
                        },
                    };
                    let ghost dv = verbs.deep_view();
                    verbs.push(verb);
                    proof {
                        assert(verbs.deep_view() =~= dv.push(verb@));
                        lemma_after_line_lt(w);
                    }
                }
            },
        }
    }
    Ok((verbs, label_map))
}

} // verus!
