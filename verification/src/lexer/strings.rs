use vstd::prelude::*;
use crate::lexer::cursor::Cursor;
use crate::lexer::brackets::{probe_level, lemma_probe_level_bounds, match_long_bracket};

verus! {

/// Where a short string that started with quote `quote` ends, scanning from
/// `i` (the position just after the opening quote): one past the first
/// unescaped closing quote, or the end of input when the string is
/// unterminated. A backslash followed by a backslash or by the quote is
/// consumed as one unit; any other character after a backslash is left for
/// the next step.
pub open spec fn string_end(s: Seq<char>, i: int, quote: char) -> int
    decreases s.len() - i,
{
    if i >= s.len() {
        s.len() as int
    } else if s[i] == '\\' {
        if i + 1 < s.len() && (s[i + 1] == '\\' || s[i + 1] == quote) {
            string_end(s, i + 2, quote)
        } else {
            string_end(s, i + 1, quote)
        }
    } else if s[i] == quote {
        i + 1
    } else {
        string_end(s, i + 1, quote)
    }
}

pub proof fn lemma_string_end_bounds(s: Seq<char>, i: int, quote: char)
    requires
        0 <= i <= s.len(),
    ensures
        i <= string_end(s, i, quote) <= s.len(),
    decreases s.len() - i,
{
    if i >= s.len() {
    } else if s[i] == '\\' {
        if i + 1 < s.len() && (s[i + 1] == '\\' || s[i + 1] == quote) {
            lemma_string_end_bounds(s, i + 2, quote);
        } else {
            lemma_string_end_bounds(s, i + 1, quote);
        }
    } else if s[i] == quote {
    } else {
        lemma_string_end_bounds(s, i + 1, quote);
    }
}

/// Where the body of a long string (or long comment) of the given level
/// ends, scanning from `i`: one past a same-level closer `]=*]`, or the end
/// of input when none follows. A closer of any other level is passed over
/// one character at a time, never recognized.
pub open spec fn long_body_end(s: Seq<char>, i: int, level: int) -> int
    decreases s.len() - i,
{
    if i >= s.len() {
        s.len() as int
    } else if probe_level(s, i, ']') == Some(level) {
        i + level + 2
    } else {
        long_body_end(s, i + 1, level)
    }
}

pub proof fn lemma_long_body_end_bounds(s: Seq<char>, i: int, level: int)
    requires
        0 <= i <= s.len(),
    ensures
        i <= long_body_end(s, i, level) <= s.len(),
    decreases s.len() - i,
{
    if i >= s.len() {
    } else if probe_level(s, i, ']') == Some(level) {
        lemma_probe_level_bounds(s, i, ']');
    } else {
        lemma_long_body_end_bounds(s, i + 1, level);
    }
}

/// Consume a short string's body and closing quote, given the opening quote
/// character; an unterminated string silently absorbs to the end of input.
pub(crate) fn scan_string(c: char, cursor: &mut Cursor<'_>)
    requires
        old(cursor).wf(),
    ensures
        final(cursor).wf(),
        final(cursor).text == old(cursor).text,
        final(cursor).start == old(cursor).start,
        final(cursor).pos == string_end(old(cursor).s(), old(cursor).pos as int, c),
{
    let ghost s = cursor.s();
    let ghost orig = cursor.pos as int;
    let quote_type = c;
    loop
        invariant_except_break
            string_end(s, orig, quote_type) == string_end(s, cursor.pos as int, quote_type),
        invariant
            cursor.wf(),
            s == cursor.s(),
            cursor.text == old(cursor).text,
            cursor.start == old(cursor).start,
            orig <= cursor.pos,
        ensures
            cursor.wf(),
            cursor.text == old(cursor).text,
            cursor.start == old(cursor).start,
            cursor.pos == string_end(s, orig, quote_type),
        decreases s.len() - cursor.pos,
    {
        let cur = cursor.current();
        match cur {
            Some(ch) => {
                if ch == '\\' {
                    cursor.bump();
                    if cursor.matches('\\') || cursor.matches(quote_type) {
                        cursor.bump();
                    }
                } else if ch == quote_type {
                    cursor.bump();
                    break ;
                } else {
                    cursor.bump();
                }
            },
            None => {
                break ;
            },
        }
    }
}

/// Consume the body and closer of a long string whose level is already
/// known: probe for a same-level closer, consuming one character per failed
/// probe; on success consume the closer; at the end of input just stop
/// (unterminated long strings silently absorb to the end).
pub(crate) fn scan_long_string(level: u32, cursor: &mut Cursor<'_>)
    requires
        old(cursor).wf(),
    ensures
        final(cursor).wf(),
        final(cursor).text == old(cursor).text,
        final(cursor).start == old(cursor).start,
        final(cursor).pos == long_body_end(old(cursor).s(), old(cursor).pos as int, level as int),
{
    let ghost s = cursor.s();
    let ghost orig = cursor.pos as int;
    loop
        invariant_except_break
            long_body_end(s, orig, level as int) == long_body_end(
                s,
                cursor.pos as int,
                level as int,
            ),
        invariant
            cursor.wf(),
            s == cursor.s(),
            cursor.text == old(cursor).text,
            cursor.start == old(cursor).start,
            orig <= cursor.pos,
        ensures
            cursor.wf(),
            cursor.text == old(cursor).text,
            cursor.start == old(cursor).start,
            cursor.pos == long_body_end(s, orig, level as int),
        decreases s.len() - cursor.pos,
    {
        let probe = match_long_bracket(']', cursor);
        let same = match probe {
            Some(l) => l == level,
            None => false,
        };
        if same {
            proof {
                lemma_probe_level_bounds(s, cursor.pos as int, ']');
            }
            cursor.bump_n(level + 2);
            break ;
        }
        proof {
            // a probe of the wrong level really is of the wrong level
            if probe_level(s, cursor.pos as int, ']') is Some {
                lemma_probe_level_bounds(s, cursor.pos as int, ']');
            }
        }
        let stepped = cursor.bump();
        if stepped.is_none() {
            break ;
        }
    }
}

} // verus!
