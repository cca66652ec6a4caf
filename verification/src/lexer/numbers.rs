use vstd::prelude::*;
use crate::lexer::cursor::Cursor;
use crate::lexer::classes::{
    is_dec_digit, is_dec_digit_char, is_hex_digit, is_hex_digit_char,
};
use crate::syntax_kind::SyntaxKind;

verus! {

/// One past the run of decimal digits starting at `i`.
pub open spec fn digits_end(s: Seq<char>, i: int) -> int
    decreases s.len() - i,
{
    if i < s.len() && is_dec_digit_char(s[i]) {
        digits_end(s, i + 1)
    } else {
        i
    }
}

pub proof fn lemma_digits_end_bounds(s: Seq<char>, i: int)
    requires
        0 <= i <= s.len(),
    ensures
        i <= digits_end(s, i) <= s.len(),
    decreases s.len() - i,
{
    if i < s.len() && is_dec_digit_char(s[i]) {
        lemma_digits_end_bounds(s, i + 1);
    }
}

/// One past the run of hexadecimal digits starting at `i`.
pub open spec fn hex_digits_end(s: Seq<char>, i: int) -> int
    decreases s.len() - i,
{
    if i < s.len() && is_hex_digit_char(s[i]) {
        hex_digits_end(s, i + 1)
    } else {
        i
    }
}

pub proof fn lemma_hex_digits_end_bounds(s: Seq<char>, i: int)
    requires
        0 <= i <= s.len(),
    ensures
        i <= hex_digits_end(s, i) <= s.len(),
    decreases s.len() - i,
{
    if i < s.len() && is_hex_digit_char(s[i]) {
        lemma_hex_digits_end_bounds(s, i + 1);
    }
}

/// Where a number token starting with the digit at `i` ends. `0x`/`0X`
/// introduces a run of hexadecimal digits; otherwise a run of decimal
/// digits, an optional fraction part after `.`, and an optional exponent
/// part: `e`/`E`, an optional sign, and a run of digits.
pub open spec fn number_end(s: Seq<char>, i: int) -> int {
    if 0 <= i < s.len() && s[i] == '0' && i + 1 < s.len() && (s[i + 1] == 'x' || s[i + 1] == 'X') {
        hex_digits_end(s, i + 2)
    } else {
        let d = digits_end(s, i + 1);
        let d2 = if d < s.len() && s[d] == '.' {
            digits_end(s, d + 1)
        } else {
            d
        };
        if d2 < s.len() && (s[d2] == 'e' || s[d2] == 'E') {
            if d2 + 1 < s.len() && (s[d2 + 1] == '+' || s[d2 + 1] == '-') {
                digits_end(s, d2 + 2)
            } else {
                digits_end(s, d2 + 1)
            }
        } else {
            d2
        }
    }
}

pub proof fn lemma_number_end_bounds(s: Seq<char>, i: int)
    requires
        0 <= i < s.len(),
    ensures
        i + 1 <= number_end(s, i) <= s.len(),
{
    if s[i] == '0' && i + 1 < s.len() && (s[i + 1] == 'x' || s[i + 1] == 'X') {
        lemma_hex_digits_end_bounds(s, i + 2);
    } else {
        lemma_digits_end_bounds(s, i + 1);
        let d = digits_end(s, i + 1);
        if d < s.len() && s[d] == '.' {
            lemma_digits_end_bounds(s, d + 1);
        }
        let d2 = if d < s.len() && s[d] == '.' {
            digits_end(s, d + 1)
        } else {
            d
        };
        if d2 < s.len() && (s[d2] == 'e' || s[d2] == 'E') {
            if d2 + 1 < s.len() && (s[d2 + 1] == '+' || s[d2 + 1] == '-') {
                lemma_digits_end_bounds(s, d2 + 2);
            } else {
                lemma_digits_end_bounds(s, d2 + 1);
            }
        }
    }
}

/// Consume the run of decimal digits at the read position.
fn bump_digits(cursor: &mut Cursor<'_>)
    requires
        old(cursor).wf(),
    ensures
        final(cursor).wf(),
        final(cursor).text == old(cursor).text,
        final(cursor).start == old(cursor).start,
        final(cursor).pos == digits_end(old(cursor).s(), old(cursor).pos as int),
{
    let ghost s = cursor.s();
    let ghost orig = cursor.pos as int;
    loop
        invariant
            cursor.wf(),
            s == cursor.s(),
            cursor.text == old(cursor).text,
            cursor.start == old(cursor).start,
            orig <= cursor.pos,
            digits_end(s, orig) == digits_end(s, cursor.pos as int),
        ensures
            cursor.wf(),
            cursor.text == old(cursor).text,
            cursor.start == old(cursor).start,
            cursor.pos == digits_end(s, orig),
        decreases s.len() - cursor.pos,
    {
        let cur = cursor.current();
        let go = match cur {
            Some(ch) => is_dec_digit(ch),
            None => false,
        };
        if go {
            cursor.bump();
        } else {
            break ;
        }
    }
}

/// Consume the run of hexadecimal digits at the read position.
fn bump_hex_digits(cursor: &mut Cursor<'_>)
    requires
        old(cursor).wf(),
    ensures
        final(cursor).wf(),
        final(cursor).text == old(cursor).text,
        final(cursor).start == old(cursor).start,
        final(cursor).pos == hex_digits_end(old(cursor).s(), old(cursor).pos as int),
{
    let ghost s = cursor.s();
    let ghost orig = cursor.pos as int;
    loop
        invariant
            cursor.wf(),
            s == cursor.s(),
            cursor.text == old(cursor).text,
            cursor.start == old(cursor).start,
            orig <= cursor.pos,
            hex_digits_end(s, orig) == hex_digits_end(s, cursor.pos as int),
        ensures
            cursor.wf(),
            cursor.text == old(cursor).text,
            cursor.start == old(cursor).start,
            cursor.pos == hex_digits_end(s, orig),
        decreases s.len() - cursor.pos,
    {
        let cur = cursor.current();
        let go = match cur {
            Some(ch) => is_hex_digit(ch),
            None => false,
        };
        if go {
            cursor.bump();
        } else {
            break ;
        }
    }
}

/// Consume the rest of a number token whose first digit `c` was already
/// consumed: hexadecimal after `0x`/`0X`, else digits with optional
/// fraction and exponent parts.
pub(crate) fn scan_number(c: char, cursor: &mut Cursor<'_>) -> (r: SyntaxKind)
    requires
        old(cursor).wf(),
        old(cursor).pos >= 1,
        old(cursor).pos <= old(cursor).s().len(),
        old(cursor).s()[old(cursor).pos - 1] == c,
        is_dec_digit_char(c),
    ensures
        final(cursor).wf(),
        final(cursor).text == old(cursor).text,
        final(cursor).start == old(cursor).start,
        r == SyntaxKind::NUMBER,
        final(cursor).pos == number_end(old(cursor).s(), old(cursor).pos - 1),
{
    if c == '0' && (cursor.matches('x') || cursor.matches('X')) {
        cursor.bump();
        bump_hex_digits(cursor);
        return SyntaxKind::NUMBER;
    }
    bump_digits(cursor);
    if cursor.matches('.') {
        cursor.bump();
        bump_digits(cursor);
    }
    if cursor.matches('e') || cursor.matches('E') {
        cursor.bump();
        if cursor.matches('+') || cursor.matches('-') {
            cursor.bump();
        }
        bump_digits(cursor);
    }
    SyntaxKind::NUMBER
}

} // verus!
