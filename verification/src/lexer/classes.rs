use vstd::prelude::*;

verus! {

/// Whitespace characters: the blank, tab, line and page control characters.
pub open spec fn is_whitespace_char(c: char) -> bool {
    c == ' ' || c == '\t' || c == '\n' || c == '\r' || c == '\u{b}' || c == '\u{c}'
}

#[verifier::when_used_as_spec(is_whitespace_char)]
pub fn is_whitespace(c: char) -> (r: bool)
    ensures
        r == is_whitespace_char(c),
{
    c == ' ' || c == '\t' || c == '\n' || c == '\r' || c == '\u{b}' || c == '\u{c}'
}

/// Characters that may open an identifier: ASCII letters and underscore.
pub open spec fn is_ident_start_char(c: char) -> bool {
    ('a' <= c && c <= 'z') || ('A' <= c && c <= 'Z') || c == '_'
}

#[verifier::when_used_as_spec(is_ident_start_char)]
pub fn is_ident_start(c: char) -> (r: bool)
    ensures
        r == is_ident_start_char(c),
{
    ('a' <= c && c <= 'z') || ('A' <= c && c <= 'Z') || c == '_'
}

/// Characters that may continue an identifier: letters, digits, underscore.
pub open spec fn is_ident_continue_char(c: char) -> bool {
    is_ident_start_char(c) || is_dec_digit_char(c)
}

#[verifier::when_used_as_spec(is_ident_continue_char)]
pub fn is_ident_continue(c: char) -> (r: bool)
    ensures
        r == is_ident_continue_char(c),
{
    is_ident_start(c) || is_dec_digit(c)
}

/// Decimal digits.
pub open spec fn is_dec_digit_char(c: char) -> bool {
    '0' <= c && c <= '9'
}

#[verifier::when_used_as_spec(is_dec_digit_char)]
pub fn is_dec_digit(c: char) -> (r: bool)
    ensures
        r == is_dec_digit_char(c),
{
    '0' <= c && c <= '9'
}

/// Hexadecimal digits.
pub open spec fn is_hex_digit_char(c: char) -> bool {
    is_dec_digit_char(c) || ('a' <= c && c <= 'f') || ('A' <= c && c <= 'F')
}

#[verifier::when_used_as_spec(is_hex_digit_char)]
pub fn is_hex_digit(c: char) -> (r: bool)
    ensures
        r == is_hex_digit_char(c),
{
    is_dec_digit(c) || ('a' <= c && c <= 'f') || ('A' <= c && c <= 'F')
}

} // verus!
