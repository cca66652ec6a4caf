use vstd::prelude::*;
use crate::lexer::cursor::Cursor;

verus! {

/// The number of consecutive `=` characters starting at position `i`.
pub open spec fn eq_run(s: Seq<char>, i: int) -> int
    decreases s.len() - i,
{
    if i < s.len() && s[i] == '=' {
        1 + eq_run(s, i + 1)
    } else {
        0
    }
}

pub proof fn lemma_eq_run_bounds(s: Seq<char>, i: int)
    requires
        0 <= i <= s.len(),
    ensures
        0 <= eq_run(s, i) <= s.len() - i,
    decreases s.len() - i,
{
    if i < s.len() && s[i] == '=' {
        lemma_eq_run_bounds(s, i + 1);
    }
}

/// If every character in `[i, j)` is `=`, the run at `i` extends the run at `j`.
pub proof fn lemma_eq_run_extend(s: Seq<char>, i: int, j: int)
    requires
        0 <= i <= j <= s.len(),
        forall|k: int| i <= k < j ==> s[k] == '=',
    ensures
        eq_run(s, i) == (j - i) + eq_run(s, j),
    decreases j - i,
{
    if i < j {
        lemma_eq_run_extend(s, i + 1, j);
    }
}

/// The level of a long-bracket tail at `i`: after the run of `=` characters
/// counted from `i`, the bracket character `c` must follow; the level is the
/// length of that run. `None` when `c` does not follow the run.
pub open spec fn bracket_tail_level(s: Seq<char>, i: int, c: char) -> Option<int> {
    let l = eq_run(s, i);
    if i + l < s.len() && s[i + l] == c {
        Some(l)
    } else {
        None
    }
}

/// The level of a whole long bracket `c =* c` starting at `i`: the bracket
/// character, a run of `=`, and the bracket character again. The bracket
/// occupies `level + 2` characters. Open and close must repeat the same
/// character (`[` or `]`) on both sides.
pub open spec fn probe_level(s: Seq<char>, i: int, c: char) -> Option<int> {
    if 0 <= i < s.len() && s[i] == c {
        bracket_tail_level(s, i + 1, c)
    } else {
        None
    }
}

pub proof fn lemma_probe_level_bounds(s: Seq<char>, i: int, c: char)
    requires
        0 <= i <= s.len(),
        probe_level(s, i, c) is Some,
    ensures
        0 <= probe_level(s, i, c)->0,
        i + probe_level(s, i, c)->0 + 2 <= s.len(),
{
    lemma_eq_run_bounds(s, i + 1);
}

/// Pure lookahead for a long-bracket tail: counts the `=` characters at
/// `offset` places past the read position and confirms that `c` follows.
/// Nothing is consumed.
pub(crate) fn match_long_bracket_tail(c: char, offset: u32, cursor: &Cursor<'_>) -> (r: Option<
    u32,
>)
    requires
        cursor.wf(),
    ensures
        (match bracket_tail_level(cursor.s(), cursor.pos + offset, c) {
            Some(l) => r == Some(l as u32),
            None => r is None,
        }),
{
    let ghost s = cursor.s();
    let ghost a = cursor.pos + offset;
    let mut level: u32 = 0;
    loop
        invariant
            cursor.wf(),
            s == cursor.s(),
            a == cursor.pos + offset,
            a + level <= s.len() || level == 0,
            forall|k: int| a <= k < a + level ==> s[k] == '=',
        ensures
            a + level <= s.len() || level == 0,
            forall|k: int| a <= k < a + level ==> s[k] == '=',
            !(a + level < s.len() && s[a + level] == '='),
        decreases s.len() - level,
    {
        let probe = cursor.nth(level + offset);
        let is_eq = match probe {
            Some(ch) => ch == '=',
            None => false,
        };
        if is_eq {
            level = level + 1;
        } else {
            break ;
        }
    }
    proof {
        // the characters seen make up the whole run of `=` at `a`
        if a <= s.len() {
            lemma_eq_run_extend(s, a, a + level);
            assert(eq_run(s, a + level) == 0);
        }
    }
    match cursor.nth(level + offset) {
        Some(ch) => if ch == c {
            Some(level)
        } else {
            None
        },
        None => None,
    }
}

/// Pure lookahead for a whole long bracket `c =* c` at the read position.
/// Returns its level without consuming anything.
pub(crate) fn match_long_bracket(c: char, cursor: &Cursor<'_>) -> (r: Option<u32>)
    requires
        cursor.wf(),
    ensures
        (match probe_level(cursor.s(), cursor.pos as int, c) {
            Some(l) => r == Some(l as u32),
            None => r is None,
        }),
{
    if cursor.matches(c) {
        match_long_bracket_tail(c, 1, cursor)
    } else {
        None
    }
}

/// Probe for a whole long bracket at the read position; on a match consume
/// it entirely (`level + 2` characters) and return its level, else leave the
/// cursor where it was.
pub(crate) fn scan_long_bracket(c: char, cursor: &mut Cursor<'_>) -> (r: Option<u32>)
    requires
        old(cursor).wf(),
    ensures
        final(cursor).wf(),
        final(cursor).text == old(cursor).text,
        final(cursor).start == old(cursor).start,
        (match probe_level(old(cursor).s(), old(cursor).pos as int, c) {
            Some(l) => r == Some(l as u32) && final(cursor).pos == old(cursor).pos + l + 2,
            None => r is None && final(cursor).pos == old(cursor).pos,
        }),
{
    let probe = match_long_bracket(c, cursor);
    match probe {
        Some(level) => {
            proof {
                lemma_probe_level_bounds(old(cursor).s(), old(cursor).pos as int, c);
            }
            cursor.bump_n(level + 2);
            Some(level)
        },
        None => None,
    }
}

} // verus!
