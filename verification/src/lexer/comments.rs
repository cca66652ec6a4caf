use vstd::prelude::*;
use crate::lexer::cursor::Cursor;
use crate::lexer::brackets::{lemma_probe_level_bounds, probe_level, scan_long_bracket};
use crate::lexer::strings::{long_body_end, lemma_long_body_end_bounds, scan_long_string};
use crate::syntax_kind::SyntaxKind;

verus! {

/// Where a line comment's body ends, scanning from `i`: just before the
/// next line terminator (`\n`, or the `\r` of `\r\n`), or the end of input.
/// The terminator itself is not part of the comment. A bare `\r` with no
/// `\n` after it does not terminate the comment.
pub open spec fn eol_comment_end(s: Seq<char>, i: int) -> int
    decreases s.len() - i,
{
    if i >= s.len() {
        s.len() as int
    } else if s[i] == '\n' {
        i
    } else if s[i] == '\r' && i + 1 < s.len() && s[i + 1] == '\n' {
        i
    } else {
        eol_comment_end(s, i + 1)
    }
}

pub proof fn lemma_eol_comment_end_bounds(s: Seq<char>, i: int)
    requires
        0 <= i <= s.len(),
    ensures
        i <= eol_comment_end(s, i) <= s.len(),
    decreases s.len() - i,
{
    if i < s.len() && !(s[i] == '\n') && !(s[i] == '\r' && i + 1 < s.len() && s[i + 1] == '\n') {
        lemma_eol_comment_end_bounds(s, i + 1);
    }
}

/// Where a comment ends, scanning from `i` (the position just after `--`).
/// A long-bracket opener right there makes it a block comment, closed only
/// by a same-level closer; otherwise the comment runs to the end of line.
pub open spec fn comment_end(s: Seq<char>, i: int) -> int {
    match probe_level(s, i, '[') {
        Some(l) => long_body_end(s, i + l + 2, l),
        None => eol_comment_end(s, i),
    }
}

/// Consume a comment's body, the read position standing just after `--`.
/// An unterminated block comment silently absorbs to the end of input.
pub(crate) fn scan_comment(cursor: &mut Cursor<'_>) -> (r: SyntaxKind)
    requires
        old(cursor).wf(),
    ensures
        final(cursor).wf(),
        final(cursor).text == old(cursor).text,
        final(cursor).start == old(cursor).start,
        r == SyntaxKind::COMMENT,
        final(cursor).pos == comment_end(old(cursor).s(), old(cursor).pos as int),
{
    let opener = scan_long_bracket('[', cursor);
    match opener {
        Some(level) => {
            proof {
                lemma_probe_level_bounds(old(cursor).s(), old(cursor).pos as int, '[');
            }
            scan_long_string(level, cursor);
            SyntaxKind::COMMENT
        },
        None => {
            bump_until_eol(cursor);
            SyntaxKind::COMMENT
        },
    }
}

/// Consume characters up to, but not including, the next line terminator
/// (`\n` or `\r\n`), or to the end of input.
pub(crate) fn bump_until_eol(cursor: &mut Cursor<'_>)
    requires
        old(cursor).wf(),
    ensures
        final(cursor).wf(),
        final(cursor).text == old(cursor).text,
        final(cursor).start == old(cursor).start,
        final(cursor).pos == eol_comment_end(old(cursor).s(), old(cursor).pos as int),
{
    let ghost s = cursor.s();
    let ghost orig = cursor.pos as int;
    loop
        invariant
            cursor.wf(),
            s == cursor.s(),
            cursor.text == old(cursor).text,
            cursor.start == old(cursor).start,
            orig <= cursor.pos,
            eol_comment_end(s, orig) == eol_comment_end(s, cursor.pos as int),
        ensures
            cursor.wf(),
            cursor.text == old(cursor).text,
            cursor.start == old(cursor).start,
            cursor.pos == eol_comment_end(s, orig),
        decreases s.len() - cursor.pos,
    {
        if cursor.matches('\n') {
            break ;
        }
        if cursor.matches('\r') {
            let after = cursor.nth(1);
            let is_nl = match after {
                Some(ch) => ch == '\n',
                None => false,
            };
            if is_nl {
                break ;
            }
        }
        let stepped = cursor.bump();
        if stepped.is_none() {
            break ;
        }
    }
}

} // verus!
