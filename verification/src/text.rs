//! Character classes, numeral grammars and hexadecimal rendering shared by
//! the tokenizer, the disassembler and the trace formatter.
//!
//! Everything is specified over `Seq<char>`: a numeral's value is a fold
//! over its digits, a token is the longest prefix satisfying a character
//! predicate, and the exec functions are proved against those definitions.

use vstd::prelude::*;

verus! {

/// The whitespace that separates tokens within a line: space and tab only.
/// A newline ends the line instead and is handled separately.
pub open spec fn is_line_ws(c: char) -> bool {
    c == ' ' || c == '\t'
}

/// ASCII whitespace, the class that ends an operand or name token:
/// space, tab, newline, form feed and carriage return.
pub open spec fn is_ascii_ws(c: char) -> bool {
    c == ' ' || c == '\t' || c == '\n' || c == '\x0c' || c == '\r'
}

/// ASCII letters, the class a mnemonic is read from.
pub open spec fn is_ascii_alpha(c: char) -> bool {
    (97 <= c as u32 && c as u32 <= 122) || (65 <= c as u32 && c as u32 <= 90)
}

/// A decimal digit.
pub open spec fn is_dec_digit(c: char) -> bool {
    48 <= c as u32 && c as u32 <= 57
}

/// A hexadecimal digit, either case.
pub open spec fn is_hex_digit(c: char) -> bool {
    is_dec_digit(c) || (97 <= c as u32 && c as u32 <= 102) || (65 <= c as u32 && c as u32 <= 70)
}

/// The numeric value of a decimal digit.
pub open spec fn dec_digit_val(c: char) -> nat
    recommends
        is_dec_digit(c),
{
    (c as u32 - 48) as nat
}

/// The numeric value of a hexadecimal digit.
pub open spec fn hex_digit_val(c: char) -> nat
    recommends
        is_hex_digit(c),
{
    if is_dec_digit(c) {
        dec_digit_val(c)
    } else if 97 <= c as u32 {
        (c as u32 - 87) as nat
    } else {
        (c as u32 - 55) as nat
    }
}

/// The digit predicate for a radix of 10 or 16.
pub open spec fn is_digit(c: char, hex: bool) -> bool {
    if hex {
        is_hex_digit(c)
    } else {
        is_dec_digit(c)
    }
}

/// The digit value for a radix of 10 or 16.
pub open spec fn digit_val(c: char, hex: bool) -> nat {
    if hex {
        hex_digit_val(c)
    } else {
        dec_digit_val(c)
    }
}

/// The value of a digit string, most significant digit first.
pub open spec fn digits_val(s: Seq<char>, hex: bool) -> nat
    decreases s.len(),
{
    if s.len() == 0 {
        0
    } else {
        digits_val(s.drop_last(), hex) * (if hex { 16nat } else { 10nat }) + digit_val(
            s.last(),
            hex,
        )
    }
}

/// Whether every character of `s` is a digit of the radix.
pub open spec fn all_digits(s: Seq<char>, hex: bool) -> bool {
    forall|i: int| 0 <= i < s.len() ==> is_digit(#[trigger] s[i], hex)
}

/// The numeral grammar of a literal body, mirroring how an unsigned
/// integer is read from text: an optional leading `+`, then at least one
/// digit, with a value that fits in 64 bits.
pub open spec fn spec_parse_u64(s: Seq<char>, hex: bool) -> Option<u64> {
    let digits = if s.len() > 0 && s[0] == '+' {
        s.drop_first()
    } else {
        s
    };
    if digits.len() > 0 && all_digits(digits, hex) && digits_val(digits, hex) <= u64::MAX {
        Some(digits_val(digits, hex) as u64)
    } else {
        None
    }
}

/// The length of the longest prefix of `s` whose characters all satisfy `p`.
pub open spec fn lead_count(s: Seq<char>, p: spec_fn(char) -> bool) -> nat
    decreases s.len(),
{
    if s.len() == 0 || !p(s[0]) {
        0
    } else {
        1 + lead_count(s.drop_first(), p)
    }
}

/// What `lead_count` means: every character before it satisfies `p`, and
/// the character at it (if any) does not.
pub proof fn lemma_lead_count(s: Seq<char>, p: spec_fn(char) -> bool)
    ensures
        lead_count(s, p) <= s.len(),
        forall|j: int| 0 <= j < lead_count(s, p) ==> p(#[trigger] s[j]),
        lead_count(s, p) < s.len() ==> !p(s[lead_count(s, p) as int]),
    decreases s.len(),
{
    if s.len() == 0 || !p(s[0]) {
    } else {
        lemma_lead_count(s.drop_first(), p);
        assert forall|j: int| 0 <= j < lead_count(s, p) implies p(#[trigger] s[j]) by {
            if j > 0 {
                assert(p(s.drop_first()[j - 1]));
            }
        }
    }
}

/// `lead_count` is the unique boundary: any position whose prefix is all
/// `p` and which is either the end or a non-`p` character equals it.
pub proof fn lemma_lead_count_is(s: Seq<char>, p: spec_fn(char) -> bool, k: int)
    requires
        0 <= k <= s.len(),
        forall|j: int| 0 <= j < k ==> p(#[trigger] s[j]),
        k < s.len() ==> !p(s[k]),
    ensures
        lead_count(s, p) == k,
    decreases s.len(),
{
    if s.len() == 0 || !p(s[0]) {
    } else {
        assert forall|j: int| 0 <= j < k - 1 implies p(#[trigger] s.drop_first()[j]) by {
            assert(p(s[j + 1]));
        }
        lemma_lead_count_is(s.drop_first(), p, k - 1);
    }
}

/// The uppercase hexadecimal character of a digit value.
pub open spec fn spec_hex_digit(d: u8) -> char
    recommends
        d < 16,
{
    if d == 0 {
        '0'
    } else if d == 1 {
        '1'
    } else if d == 2 {
        '2'
    } else if d == 3 {
        '3'
    } else if d == 4 {
        '4'
    } else if d == 5 {
        '5'
    } else if d == 6 {
        '6'
    } else if d == 7 {
        '7'
    } else if d == 8 {
        '8'
    } else if d == 9 {
        '9'
    } else if d == 10 {
        'A'
    } else if d == 11 {
        'B'
    } else if d == 12 {
        'C'
    } else if d == 13 {
        'D'
    } else if d == 14 {
        'E'
    } else {
        'F'
    }
}

/// The shortest uppercase hexadecimal numeral of a value, most
/// significant digit first.
pub open spec fn spec_hex_seq(v: u16) -> Seq<char>
    decreases v,
{
    if v < 16 {
        seq![spec_hex_digit(v as u8)]
    } else {
        spec_hex_seq(v / 16) + seq![spec_hex_digit((v % 16) as u8)]
    }
}

/// A rendered hexadecimal digit is an uppercase hexadecimal digit
/// character and reads back as the same value.
pub proof fn lemma_hex_digit_roundtrip(d: u8)
    requires
        d < 16,
    ensures
        is_hex_digit(spec_hex_digit(d)),
        !is_line_ws(spec_hex_digit(d)),
        !is_ascii_ws(spec_hex_digit(d)),
        hex_digit_val(spec_hex_digit(d)) == d,
        spec_hex_digit(d) != '+',
        spec_hex_digit(d) != ']',
        d < 10 ==> is_dec_digit(spec_hex_digit(d)) && dec_digit_val(spec_hex_digit(d)) == d,
{
}

/// A rendered hexadecimal numeral consists of hexadecimal digits and
/// reads back as the value it was rendered from.
pub proof fn lemma_hex_seq_roundtrip(v: u16)
    ensures
        spec_hex_seq(v).len() >= 1,
        all_digits(spec_hex_seq(v), true),
        digits_val(spec_hex_seq(v), true) == v,
        forall|i: int|
            0 <= i < spec_hex_seq(v).len() ==> is_hex_digit(#[trigger] spec_hex_seq(v)[i]),
    decreases v,
{
    if v < 16 {
        lemma_hex_digit_roundtrip(v as u8);
        let s = spec_hex_seq(v);
        assert(s.last() == spec_hex_digit(v as u8));
        assert(s.drop_last() =~= Seq::<char>::empty());
        assert(digits_val(s, true) == digits_val(s.drop_last(), true) * 16 + hex_digit_val(
            spec_hex_digit(v as u8),
        ));
    } else {
        lemma_hex_seq_roundtrip(v / 16);
        lemma_hex_digit_roundtrip((v % 16) as u8);
        let s = spec_hex_seq(v);
        assert(s.drop_last() =~= spec_hex_seq(v / 16));
        assert(s.last() == spec_hex_digit((v % 16) as u8));
        assert(digits_val(s, true) == (v / 16) * 16 + (v % 16));
        assert forall|i: int| 0 <= i < s.len() implies is_hex_digit(#[trigger] s[i]) by {
            if i < s.len() - 1 {
                assert(s[i] == spec_hex_seq(v / 16)[i]);
            }
        }
    }
}

/// Extending a digit string by one digit multiplies its value by the
/// radix and adds the digit.
pub proof fn lemma_digits_val_step(s: Seq<char>, hex: bool, j: int)
    requires
        0 <= j < s.len(),
    ensures
        digits_val(s.take(j + 1), hex) == digits_val(s.take(j), hex) * (if hex {
            16nat
        } else {
            10nat
        }) + digit_val(s[j], hex),
{
    assert(s.take(j + 1).drop_last() =~= s.take(j));
    assert(s.take(j + 1).last() == s[j]);
}

/// A digit string's value never shrinks as the string grows.
pub proof fn lemma_digits_val_mono(s: Seq<char>, hex: bool, i: int, j: int)
    requires
        0 <= i <= j <= s.len(),
    ensures
        digits_val(s.take(i), hex) <= digits_val(s.take(j), hex),
    decreases j - i,
{
    if i < j {
        lemma_digits_val_mono(s, hex, i, j - 1);
        lemma_digits_val_step(s, hex, j - 1);
    }
}

/// Reads an unsigned 64-bit numeral from the characters of `s` at and
/// after `start`: an optional leading `+`, then at least one digit of the
/// radix, with a value that fits in 64 bits; `None` otherwise.
pub fn parse_u64_body(s: &str, start: usize, hex: bool) -> (r: Option<u64>)
    requires
        start as int <= s@.len(),
    ensures
        r == spec_parse_u64(s@.skip(start as int), hex),
{
    let ghost body = s@.skip(start as int);
    let n = s.unicode_len();
    let mut i = start;
    if i < n && s.get_char(i) == '+' {
        i = i + 1;
    }
    let ghost digits = if body.len() > 0 && body[0] == '+' {
        body.drop_first()
    } else {
        body
    };
    proof {
        assert(digits =~= s@.skip(i as int));
    }
    if i == n {
        return None;
    }
    let radix: u64 = if hex {
        16
    } else {
        10
    };
    let mut acc: u64 = 0;
    let mut j = i;
    while j < n
        invariant
            start <= i <= j <= n,
            n == s@.len(),
            digits =~= s@.skip(i as int),
            digits == (if s@.skip(start as int).len() > 0 && s@.skip(start as int)[0] == '+' {
                s@.skip(start as int).drop_first()
            } else {
                s@.skip(start as int)
            }),
            radix == if hex {
                16u64
            } else {
                10u64
            },
            forall|k: int| 0 <= k < j - i ==> is_digit(#[trigger] digits[k], hex),
            acc == digits_val(digits.take(j - i), hex),
        decreases n - j,
    {
        let c = s.get_char(j);
        match digit_of_char(c, hex) {
            None => {
                proof {
                    let sp = s@.skip(start as int);
                    let d2 = if sp.len() > 0 && sp[0] == '+' {
                        sp.drop_first()
                    } else {
                        sp
                    };
                    assert(d2 =~= digits);
                    assert(digits[j - i] == c);
                    assert(!all_digits(d2, hex));
                    assert(spec_parse_u64(sp, hex) is None);
                }
                return None;
            },
            Some(d) => {
                proof {
                    lemma_digits_val_step(digits, hex, j - i);
                    assert(digits[j - i] == c);
                }
                let next = match acc.checked_mul(radix) {
                    Some(x) => x.checked_add(d as u64),
                    None => None,
                };
                match next {
                    Some(y) => {
                        acc = y;
                    },
                    None => {
                        proof {
                            let sp = s@.skip(start as int);
                            let d2 = if sp.len() > 0 && sp[0] == '+' {
                                sp.drop_first()
                            } else {
                                sp
                            };
                            assert(d2 =~= digits);
                            assert(digits_val(digits.take(j - i + 1), hex) > u64::MAX);
                            lemma_digits_val_mono(digits, hex, j - i + 1, digits.len() as int);
                            assert(digits.take(digits.len() as int) =~= digits);
                            assert(digits_val(d2, hex) > u64::MAX);
                            assert(spec_parse_u64(sp, hex) is None);
                        }
                        return None;
                    },
                }
            },
        }
        j = j + 1;
    }
    proof {
        let sp = s@.skip(start as int);
        let d2 = if sp.len() > 0 && sp[0] == '+' {
            sp.drop_first()
        } else {
            sp
        };
        assert(d2 =~= digits);
        assert(digits.take(digits.len() as int) =~= digits);
        assert(all_digits(d2, hex));
        assert(digits_val(d2, hex) == acc);
        assert(spec_parse_u64(sp, hex) == Some(acc));
    }
    Some(acc)
}

/// A hexadecimal digit character is not whitespace nor any of the
/// characters that carry meaning in operand syntax.
pub proof fn lemma_hex_digit_class(c: char)
    requires
        is_hex_digit(c),
    ensures
        !is_ascii_ws(c),
        !is_line_ws(c),
        c != '+',
        c != ']',
        c != '[',
        c != '.',
{
}

/// An ASCII letter is not whitespace.
pub proof fn lemma_alpha_class(c: char)
    requires
        is_ascii_alpha(c),
    ensures
        !is_line_ws(c),
        !is_ascii_ws(c),
{
}

/// Appends one character to a string.
///
/// Relies on `String::push`: the pushed character follows the existing
/// contents.
#[verifier::external_body]
pub fn push_char(s: &mut String, c: char)
    ensures
        final(s)@ == old(s)@.push(c),
{
    s.push(c);
}

/// Whether `c` is a space or a tab.
pub fn is_line_ws_char(c: char) -> (r: bool)
    ensures
        r == is_line_ws(c),
{
    c == ' ' || c == '\t'
}

/// Whether `c` is ASCII whitespace.
pub fn is_ascii_ws_char(c: char) -> (r: bool)
    ensures
        r == is_ascii_ws(c),
{
    c == ' ' || c == '\t' || c == '\n' || c == '\x0c' || c == '\r'
}

/// Whether `c` is an ASCII letter.
pub fn is_ascii_alpha_char(c: char) -> (r: bool)
    ensures
        r == is_ascii_alpha(c),
{
    let u = c as u32;
    (97 <= u && u <= 122) || (65 <= u && u <= 90)
}

/// The value of `c` as a digit of the radix, or `None` if it is not one.
pub fn digit_of_char(c: char, hex: bool) -> (r: Option<u8>)
    ensures
        match r {
            Some(d) => is_digit(c, hex) && d == digit_val(c, hex) && d < 16,
            None => !is_digit(c, hex),
        },
{
    let u = c as u32;
    if 48 <= u && u <= 57 {
        Some((u - 48) as u8)
    } else if hex && 97 <= u && u <= 102 {
        Some((u - 87) as u8)
    } else if hex && 65 <= u && u <= 70 {
        Some((u - 55) as u8)
    } else {
        None
    }
}

/// The uppercase hexadecimal character of a digit value.
pub fn hex_digit_char(d: u8) -> (r: char)
    requires
        d < 16,
    ensures
        r == spec_hex_digit(d),
{
    if d == 0 {
        '0'
    } else if d == 1 {
        '1'
    } else if d == 2 {
        '2'
    } else if d == 3 {
        '3'
    } else if d == 4 {
        '4'
    } else if d == 5 {
        '5'
    } else if d == 6 {
        '6'
    } else if d == 7 {
        '7'
    } else if d == 8 {
        '8'
    } else if d == 9 {
        '9'
    } else if d == 10 {
        'A'
    } else if d == 11 {
        'B'
    } else if d == 12 {
        'C'
    } else if d == 13 {
        'D'
    } else if d == 14 {
        'E'
    } else {
        'F'
    }
}

/// Appends the shortest uppercase hexadecimal numeral of `v` to `s`.
pub fn push_hex(s: &mut String, v: u16)
    ensures
        final(s)@ == old(s)@ + spec_hex_seq(v),
    decreases v,
{
    if v < 16 {
        push_char(s, hex_digit_char(v as u8));
        assert(old(s)@ + spec_hex_seq(v) =~= old(s)@.push(spec_hex_digit(v as u8)));
    } else {
        push_hex(s, v / 16);
        push_char(s, hex_digit_char((v % 16) as u8));
        assert(old(s)@ + spec_hex_seq(v) =~= (old(s)@ + spec_hex_seq(v / 16)).push(
            spec_hex_digit((v % 16) as u8),
        ));
    }
}

/// Whether two string slices hold the same characters.
pub fn str_eq(a: &str, b: &str) -> (r: bool)
    ensures
        r == (a@ == b@),
{
    let an = a.unicode_len();
    let bn = b.unicode_len();
    if an != bn {
        return false;
    }
    for i in 0..an
        invariant
            an == a@.len(),
            an == b@.len(),
            forall|j: int| 0 <= j < i ==> a@[j] == b@[j],
    {
        if a.get_char(i) != b.get_char(i) {
            return false;
        }
    }
    proof {
        assert(a@ =~= b@);
    }
    true
}

} // verus!
