use vstd::prelude::*;

verus! {

/// Character-level scanning primitive. It sees the whole text, remembers
/// where the current token started, and advances a read position; the
/// characters between the two are the text consumed for this token.
/// Exhausted input never errors: reads past the end yield `None`.
pub(crate) struct Cursor<'a> {
    pub(crate) text: &'a Vec<char>,
    pub(crate) start: usize,
    pub(crate) pos: usize,
}

impl<'a> Cursor<'a> {
    /// The positions are ordered and in range, and the text is small enough
    /// that every consumed length fits the token length field.
    pub(crate) open spec fn wf(self) -> bool {
        self.start <= self.pos <= self.text@.len() <= u32::MAX
    }

    /// The text being scanned, as a sequence of characters.
    pub(crate) open spec fn s(self) -> Seq<char> {
        self.text@
    }

    pub(crate) fn new(text: &'a Vec<char>, start: usize) -> (c: Cursor<'a>)
        requires
            start <= text@.len() <= u32::MAX,
        ensures
            c.text == text,
            c.start == start,
            c.pos == start,
            c.wf(),
    {
        Cursor { text, start, pos: start }
    }

    /// The character at the read position, without advancing.
    pub(crate) fn current(&self) -> (r: Option<char>)
        requires
            self.wf(),
        ensures
            r == (if self.pos < self.s().len() {
                Some(self.s()[self.pos as int])
            } else {
                None::<char>
            }),
    {
        if self.pos < self.text.len() {
            Some(self.text[self.pos])
        } else {
            None
        }
    }

    /// The character `n` places past the read position, without advancing.
    pub(crate) fn nth(&self, n: u32) -> (r: Option<char>)
        requires
            self.wf(),
        ensures
            r == (if self.pos + n < self.s().len() {
                Some(self.s()[self.pos + n])
            } else {
                None::<char>
            }),
    {
        let rem = self.text.len() - self.pos;
        if (n as usize) < rem {
            Some(self.text[self.pos + n as usize])
        } else {
            None
        }
    }

    /// Advance one character; at the end of input, stay put and yield `None`.
    pub(crate) fn bump(&mut self) -> (r: Option<char>)
        requires
            old(self).wf(),
        ensures
            final(self).wf(),
            final(self).text == old(self).text,
            final(self).start == old(self).start,
            old(self).pos < old(self).s().len() ==> final(self).pos == old(self).pos + 1 && r
                == Some(old(self).s()[old(self).pos as int]),
            old(self).pos >= old(self).s().len() ==> final(self).pos == old(self).pos && r is None,
    {
        if self.pos < self.text.len() {
            let c = self.text[self.pos];
            self.pos = self.pos + 1;
            Some(c)
        } else {
            None
        }
    }

    /// Advance `n` characters at once.
    pub(crate) fn bump_n(&mut self, n: u32)
        requires
            old(self).wf(),
            old(self).pos + n <= old(self).s().len(),
        ensures
            final(self).wf(),
            final(self).text == old(self).text,
            final(self).start == old(self).start,
            final(self).pos == old(self).pos + n,
    {
        self.pos = self.pos + n as usize;
    }

    /// Zero-width lookahead: is the character at the read position `c`?
    pub(crate) fn matches(&self, c: char) -> (r: bool)
        requires
            self.wf(),
        ensures
            r == (self.pos < self.s().len() && self.s()[self.pos as int] == c),
    {
        if self.pos < self.text.len() {
            self.text[self.pos] == c
        } else {
            false
        }
    }

    /// The number of characters consumed since the token started.
    pub(crate) fn into_len(&self) -> (r: u32)
        requires
            self.wf(),
        ensures
            r == self.pos - self.start,
    {
        (self.pos - self.start) as u32
    }
}

} // verus!
