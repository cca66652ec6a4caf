pub mod brackets;
pub mod classes;
pub mod comments;
pub mod cursor;
pub mod numbers;
pub mod strings;

use vstd::prelude::*;
use crate::lexer::brackets::{bracket_tail_level, lemma_eq_run_bounds, match_long_bracket_tail};
use crate::lexer::classes::{
    is_dec_digit, is_dec_digit_char, is_ident_continue, is_ident_continue_char, is_ident_start,
    is_ident_start_char, is_whitespace, is_whitespace_char,
};
use crate::lexer::comments::{comment_end, lemma_eol_comment_end_bounds, scan_comment};
use crate::lexer::cursor::Cursor;
use crate::lexer::numbers::{lemma_number_end_bounds, number_end, scan_number};
use crate::lexer::strings::{
    lemma_long_body_end_bounds, lemma_string_end_bounds, long_body_end, scan_long_string,
    scan_string, string_end,
};
use crate::syntax_kind::{char_kind, keyword_kind, SyntaxKind};

verus! {

broadcast use vstd::string::axiom_spec_iter;

/// A single classified lexical unit: a kind paired with the number of
/// characters of input it covers. Tokens carry no position; a consumer
/// walks them in order and accumulates offsets itself.
#[derive(Debug, Clone, Copy, PartialEq, Eq, Hash, Structural)]
pub struct Token {
    /// The kind of token
    pub kind: SyntaxKind,
    /// The length of the token, in characters
    pub len: u32,
}

/// One past the run of whitespace characters starting at `i`.
pub open spec fn whitespace_end(s: Seq<char>, i: int) -> int
    decreases s.len() - i,
{
    if i < s.len() && is_whitespace_char(s[i]) {
        whitespace_end(s, i + 1)
    } else {
        i
    }
}

pub proof fn lemma_whitespace_end_bounds(s: Seq<char>, i: int)
    requires
        0 <= i <= s.len(),
    ensures
        i <= whitespace_end(s, i) <= s.len(),
    decreases s.len() - i,
{
    if i < s.len() && is_whitespace_char(s[i]) {
        lemma_whitespace_end_bounds(s, i + 1);
    }
}

/// One past the run of identifier characters starting at `i`.
pub open spec fn ident_end(s: Seq<char>, i: int) -> int
    decreases s.len() - i,
{
    if i < s.len() && is_ident_continue_char(s[i]) {
        ident_end(s, i + 1)
    } else {
        i
    }
}

pub proof fn lemma_ident_end_bounds(s: Seq<char>, i: int)
    requires
        0 <= i <= s.len(),
    ensures
        i <= ident_end(s, i) <= s.len(),
    decreases s.len() - i,
{
    if i < s.len() && is_ident_continue_char(s[i]) {
        lemma_ident_end_bounds(s, i + 1);
    }
}

/// The kind and end position of the token starting at `i`. Dispatch is on
/// the first character, first match wins, and each branch consumes
/// greedily:
/// a whitespace run; `--` opening a comment; a long-bracket opener `[=*[`
/// opening a long string; an identifier run, classified by keyword lookup;
/// a number; single-character punctuation; `~=`; a quoted short string;
/// and, for anything else, an error token of one character.
pub open spec fn token_at(s: Seq<char>, i: int) -> (SyntaxKind, int) {
    let c = s[i];
    if is_whitespace_char(c) {
        (SyntaxKind::WHITESPACE, whitespace_end(s, i))
    } else if c == '-' && i + 1 < s.len() && s[i + 1] == '-' {
        (SyntaxKind::COMMENT, comment_end(s, i + 2))
    } else if c == '[' && bracket_tail_level(s, i + 1, '[') is Some {
        let l = bracket_tail_level(s, i + 1, '[')->0;
        (SyntaxKind::STRING, long_body_end(s, i + l + 2, l))
    } else if is_ident_start_char(c) {
        let e = ident_end(s, i + 1);
        match keyword_kind(s.subrange(i, e)) {
            Some(k) => (k, e),
            None => (SyntaxKind::IDENT, e),
        }
    } else if is_dec_digit_char(c) {
        (SyntaxKind::NUMBER, number_end(s, i))
    } else if char_kind(c) is Some {
        (char_kind(c)->0, i + 1)
    } else if c == '~' && i + 1 < s.len() && s[i + 1] == '=' {
        (SyntaxKind::NEQ, i + 2)
    } else if c == '"' || c == '\'' {
        (SyntaxKind::STRING, string_end(s, i + 1, c))
    } else {
        (SyntaxKind::ERROR, i + 1)
    }
}

/// The kind of the token starting at `i`.
pub open spec fn next_token_kind(s: Seq<char>, i: int) -> SyntaxKind {
    token_at(s, i).0
}

/// The length, in characters, of the token starting at `i`.
pub open spec fn next_token_len(s: Seq<char>, i: int) -> int {
    token_at(s, i).1 - i
}

/// Forward progress: every token covers at least one character and never
/// reaches past the end of the input.
pub proof fn lemma_token_at_bounds(s: Seq<char>, i: int)
    requires
        0 <= i < s.len(),
    ensures
        i + 1 <= token_at(s, i).1 <= s.len(),
        1 <= next_token_len(s, i) <= s.len() - i,
{
    let c = s[i];
    if is_whitespace_char(c) {
        lemma_whitespace_end_bounds(s, i + 1);
    } else if c == '-' && i + 1 < s.len() && s[i + 1] == '-' {
        match brackets::probe_level(s, i + 2, '[') {
            Some(l) => {
                brackets::lemma_probe_level_bounds(s, i + 2, '[');
                lemma_long_body_end_bounds(s, i + l + 4, l);
            },
            None => {
                lemma_eol_comment_end_bounds(s, i + 2);
            },
        }
    } else if c == '[' && bracket_tail_level(s, i + 1, '[') is Some {
        let l = bracket_tail_level(s, i + 1, '[')->0;
        lemma_eq_run_bounds(s, i + 1);
        lemma_long_body_end_bounds(s, i + l + 2, l);
    } else if is_ident_start_char(c) {
        lemma_ident_end_bounds(s, i + 1);
    } else if is_dec_digit_char(c) {
        lemma_number_end_bounds(s, i);
    } else if char_kind(c) is Some {
    } else if c == '~' && i + 1 < s.len() && s[i + 1] == '=' {
    } else if c == '"' || c == '\'' {
        lemma_string_end_bounds(s, i + 1, c);
    } else {
    }
}

/// Consume the rest of a whitespace run whose first character was already
/// consumed.
fn skip_whitespace(cursor: &mut Cursor<'_>)
    requires
        old(cursor).wf(),
    ensures
        final(cursor).wf(),
        final(cursor).text == old(cursor).text,
        final(cursor).start == old(cursor).start,
        final(cursor).pos == whitespace_end(old(cursor).s(), old(cursor).pos as int),
{
    let ghost s = cursor.s();
    let ghost orig = cursor.pos as int;
    loop
        invariant
            cursor.wf(),
            s == cursor.s(),
            cursor.text == old(cursor).text,
            cursor.start == old(cursor).start,
            orig <= cursor.pos,
            whitespace_end(s, orig) == whitespace_end(s, cursor.pos as int),
        ensures
            cursor.wf(),
            cursor.text == old(cursor).text,
            cursor.start == old(cursor).start,
            cursor.pos == whitespace_end(s, orig),
        decreases s.len() - cursor.pos,
    {
        let cur = cursor.current();
        let go = match cur {
            Some(ch) => is_whitespace(ch),
            None => false,
        };
        if go {
            cursor.bump();
        } else {
            break ;
        }
    }
}

/// Consume the rest of an identifier run whose first character was already
/// consumed.
fn skip_ident(cursor: &mut Cursor<'_>)
    requires
        old(cursor).wf(),
    ensures
        final(cursor).wf(),
        final(cursor).text == old(cursor).text,
        final(cursor).start == old(cursor).start,
        final(cursor).pos == ident_end(old(cursor).s(), old(cursor).pos as int),
{
    let ghost s = cursor.s();
    let ghost orig = cursor.pos as int;
    loop
        invariant
            cursor.wf(),
            s == cursor.s(),
            cursor.text == old(cursor).text,
            cursor.start == old(cursor).start,
            orig <= cursor.pos,
            ident_end(s, orig) == ident_end(s, cursor.pos as int),
        ensures
            cursor.wf(),
            cursor.text == old(cursor).text,
            cursor.start == old(cursor).start,
            cursor.pos == ident_end(s, orig),
        decreases s.len() - cursor.pos,
    {
        let cur = cursor.current();
        let go = match cur {
            Some(ch) => is_ident_continue(ch),
            None => false,
        };
        if go {
            cursor.bump();
        } else {
            break ;
        }
    }
}

/// Consume the rest of an identifier and classify the whole consumed word:
/// a keyword kind when the keyword table knows it, else `IDENT`.
pub(crate) fn scan_identifier_or_keyword(c: char, cursor: &mut Cursor<'_>) -> (r: SyntaxKind)
    requires
        old(cursor).wf(),
        old(cursor).pos == old(cursor).start + 1,
        old(cursor).start < old(cursor).s().len(),
    ensures
        final(cursor).wf(),
        final(cursor).text == old(cursor).text,
        final(cursor).start == old(cursor).start,
        final(cursor).pos == ident_end(old(cursor).s(), old(cursor).start + 1),
        r == (match keyword_kind(
            old(cursor).s().subrange(old(cursor).start as int, final(cursor).pos as int),
        ) {
            Some(k) => k,
            None => SyntaxKind::IDENT,
        }),
{
    skip_ident(cursor);
    let kw = SyntaxKind::from_keyword(cursor.text, cursor.start, cursor.pos);
    match kw {
        Some(kind) => kind,
        None => SyntaxKind::IDENT,
    }
}

/// Classify and consume the token whose first character `c` was already
/// consumed; on return the cursor stands one past the token.
fn next_token_inner(c: char, cursor: &mut Cursor<'_>) -> (r: SyntaxKind)
    requires
        old(cursor).wf(),
        old(cursor).pos == old(cursor).start + 1,
        old(cursor).start < old(cursor).s().len(),
        c == old(cursor).s()[old(cursor).start as int],
    ensures
        final(cursor).wf(),
        final(cursor).text == old(cursor).text,
        final(cursor).start == old(cursor).start,
        r == next_token_kind(old(cursor).s(), old(cursor).start as int),
        final(cursor).pos == old(cursor).start + next_token_len(old(cursor).s(), old(cursor).start as int),
{
    let ghost s = cursor.s();
    let ghost t0 = cursor.start as int;
    if is_whitespace(c) {
        skip_whitespace(cursor);
        return SyntaxKind::WHITESPACE;
    }
    if c == '-' && cursor.matches('-') {
        cursor.bump();
        return scan_comment(cursor);
    }
    if c == '[' {
        let tail = match_long_bracket_tail('[', 0, cursor);
        if let Some(level) = tail {
            proof {
                lemma_eq_run_bounds(s, t0 + 1);
            }
            cursor.bump_n(level + 1);
            scan_long_string(level, cursor);
            return SyntaxKind::STRING;
        }
    }
    if is_ident_start(c) {
        return scan_identifier_or_keyword(c, cursor);
    }
    if is_dec_digit(c) {
        return scan_number(c, cursor);
    }
    let mapped = SyntaxKind::from_char(c);
    if let Some(kind) = mapped {
        return kind;
    }
    if c == '~' && cursor.matches('=') {
        cursor.bump();
        return SyntaxKind::NEQ;
    }
    if c == '"' || c == '\'' {
        scan_string(c, cursor);
        return SyntaxKind::STRING;
    }
    SyntaxKind::ERROR
}

/// The text of `text`, one character per element.
pub(crate) fn chars_of(text: &str) -> (r: Vec<char>)
    ensures
        r@ == text@,
{
    let mut r: Vec<char> = Vec::new();
    for c in it: text.chars()
        invariant
            it.seq() == text@,
            r@.len() == it.index(),
            forall|j: int| 0 <= j < r@.len() ==> r@[j] == it.seq()[j],
    {
        r.push(c);
    }
    proof {
        assert(r@ =~= text@);
    }
    r
}

/// Get the token starting at position `start` of `text`.
pub fn next_token_at(text: &Vec<char>, start: usize) -> (t: Token)
    requires
        start < text@.len() <= u32::MAX,
    ensures
        t.kind == next_token_kind(text@, start as int),
        t.len == next_token_len(text@, start as int),
        1 <= t.len,
        start + t.len <= text@.len(),
{
    proof {
        lemma_token_at_bounds(text@, start as int);
    }
    let mut cursor = Cursor::new(text, start);
    let c = cursor.bump().unwrap();
    let kind = next_token_inner(c, &mut cursor);
    let len = cursor.into_len();
    Token { kind, len }
}

/// Get the next token from a string. The input must not be empty: on
/// non-empty input there always is a token, of length at least one, even
/// when the first character is recognized by no rule.
pub fn next_token(text: &str) -> (t: Token)
    requires
        text@.len() > 0,
        text@.len() <= u32::MAX,
    ensures
        t.kind == next_token_kind(text@, 0),
        t.len == next_token_len(text@, 0),
        1 <= t.len <= text@.len(),
{
    let chars = chars_of(text);
    next_token_at(&chars, 0)
}

/// The complete token sequence of `s`, starting at position `i`: each token
/// begins where the previous one ended, until the input is exhausted.
pub open spec fn token_list(s: Seq<char>, i: int) -> Seq<Token>
    decreases s.len() - i,
    when 0 <= i
    via token_list_dec
{
    if i >= s.len() {
        Seq::empty()
    } else {
        seq![
            Token {
                kind: next_token_kind(s, i),
                len: next_token_len(s, i) as u32,
            },
        ] + token_list(s, i + next_token_len(s, i))
    }
}

#[via_fn]
proof fn token_list_dec(s: Seq<char>, i: int) {
    if i < s.len() {
        lemma_token_at_bounds(s, i);
    }
}

/// The number of characters covered by a token sequence.
pub open spec fn tokens_total_len(tokens: Seq<Token>) -> int
    decreases tokens.len(),
{
    if tokens.len() == 0 {
        0
    } else {
        tokens[0].len + tokens_total_len(tokens.drop_first())
    }
}

/// Forward progress and round trip: the tokens of `s` from position `i`
/// each cover at least one character, and together they cover the rest of
/// the input exactly — concatenating the text they cover reproduces the
/// input.
pub proof fn lemma_tokens_cover_text(s: Seq<char>, i: int)
    requires
        0 <= i <= s.len() <= u32::MAX,
    ensures
        tokens_total_len(token_list(s, i)) == s.len() - i,
        forall|j: int| 0 <= j < token_list(s, i).len() ==> token_list(s, i)[j].len >= 1,
    decreases s.len() - i,
{
    if i < s.len() {
        lemma_token_at_bounds(s, i);
        let n = next_token_len(s, i);
        let t = Token { kind: next_token_kind(s, i), len: n as u32 };
        lemma_tokens_cover_text(s, i + n);
        assert(token_list(s, i) == seq![t] + token_list(s, i + n));
        assert(token_list(s, i).drop_first() =~= token_list(s, i + n));
    }
}

/// Break a string up into its component tokens. The result is the
/// complete ordered token sequence of the text, and is determined by the
/// text alone.
pub fn tokenize(text: &str) -> (r: Vec<Token>)
    requires
        text@.len() <= u32::MAX,
    ensures
        r@ == token_list(text@, 0),
{
    let ghost s = text@;
    let chars = chars_of(text);
    let mut result: Vec<Token> = Vec::new();
    let mut offset: usize = 0;
    while offset < chars.len()
        invariant
            chars@ == s,
            s.len() <= u32::MAX,
            offset <= s.len(),
            token_list(s, 0) == result@ + token_list(s, offset as int),
        decreases s.len() - offset,
    {
        let token = next_token_at(&chars, offset);
        result.push(token);
        proof {
            let rest = token_list(s, offset as int);
            assert(rest == seq![token] + token_list(s, offset + token.len));
            assert(result@ + token_list(s, offset + token.len) =~= (result@.drop_last() + seq![
                token,
            ]) + token_list(s, offset + token.len));
            assert(token_list(s, 0) =~= result@ + token_list(s, offset + token.len));
        }
        offset = offset + token.len as usize;
    }
    proof {
        assert(token_list(s, offset as int) =~= Seq::<Token>::empty());
        assert(token_list(s, 0) =~= result@);
    }
    result
}

} // verus!
