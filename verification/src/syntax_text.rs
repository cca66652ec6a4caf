use vstd::prelude::*;
use crate::syntax_node::{
    lemma_texts_concat_extract, lemma_texts_concat_split, lemma_texts_concat_take_push,
    pieces_text, texts_concat,
};
use crate::text_range::TextRange;

verus! {

/// A view over a contiguous range of a node's reconstructed text. The text
/// is not materialized as one string: it is kept as the chunk texts pulled
/// from the node's descendant tokens, and the range selects a part of their
/// concatenation. Positions are in characters from the node's own start.
pub struct SyntaxText {
    pieces: Vec<String>,
    range: TextRange,
}

/// The character length of `s`.
fn str_char_len(s: &str) -> (n: usize)
    ensures
        n == s@.len(),
{
    let v = crate::lexer::chars_of(s);
    v.len()
}

/// Clip `x` into the range `[lo, hi]`.
pub open spec fn clip(x: int, lo: int, hi: int) -> int {
    if x < lo {
        lo
    } else if x > hi {
        hi
    } else {
        x
    }
}

/// The chunk decomposition of the range `[start, end)` over a list of
/// piece texts laid end to end from position `acc`: for each piece whose
/// extent overlaps the range, the overlapping part of its text, in order;
/// pieces the range misses contribute nothing.
pub open spec fn chunk_list(ps: Seq<Seq<char>>, acc: int, start: int, end: int) -> Seq<Seq<char>>
    decreases ps.len(),
{
    if ps.len() == 0 {
        Seq::empty()
    } else {
        let lo = if start >= acc {
            start
        } else {
            acc
        };
        let hi = if end <= acc + ps[0].len() {
            end
        } else {
            acc + ps[0].len()
        };
        let rest = chunk_list(ps.drop_first(), acc + ps[0].len(), start, end);
        if lo < hi {
            seq![ps[0].subrange(lo - acc, hi - acc)] + rest
        } else {
            rest
        }
    }
}

impl SyntaxText {
    /// The concatenation of all chunk texts: the whole node's text.
    pub closed spec fn full_spec(self) -> Seq<char> {
        pieces_text(self.pieces@)
    }

    /// The texts of the chunks this view draws from, in document order:
    /// for a node's text, the texts of the node's descendant tokens.
    pub closed spec fn pieces_spec(self) -> Seq<Seq<char>> {
        self.pieces@.map_values(|p: String| p@)
    }

    /// The range this view selects, within the node's own text.
    pub closed spec fn range_spec(self) -> TextRange {
        self.range
    }

    /// The text this view covers.
    pub closed spec fn text_spec(self) -> Seq<char> {
        self.full_spec().subrange(self.range.start as int, self.range.end as int)
    }

    #[verifier::type_invariant]
    closed spec fn type_inv(self) -> bool {
        self.range.wf() && self.range.end <= self.full_spec().len() <= u32::MAX
    }

    pub(crate) fn new_whole(pieces: Vec<String>) -> (r: SyntaxText)
        requires
            pieces_text(pieces@).len() <= u32::MAX,
        ensures
            r.text_spec() == pieces_text(pieces@),
            r.pieces_spec() == pieces@.map_values(|p: String| p@),
            r.range_spec().start == 0,
    {
        let ghost vs = pieces@.map_values(|p: String| p@);
        let mut total: u32 = 0;
        let mut i: usize = 0;
        let n = pieces.len();
        while i < n
            invariant
                i <= n == pieces@.len(),
                vs == pieces@.map_values(|p: String| p@),
                vs.len() == pieces@.len(),
                texts_concat(vs).len() <= u32::MAX,
                total == texts_concat(vs.take(i as int)).len(),
            decreases n - i,
        {
            let pl = str_char_len(pieces[i].as_str());
            proof {
                lemma_texts_concat_take_push(vs, i as int);
                lemma_texts_concat_split(vs, i + 1);
            }
            total = total + pl as u32;
            i = i + 1;
        }
        proof {
            assert(vs.take(n as int) =~= vs);
        }
        let r = SyntaxText { pieces, range: TextRange { start: 0, end: total } };
        proof {
            assert(r.text_spec() =~= r.full_spec());
        }
        r
    }

    /// The length of the covered text, in characters.
    pub fn len(&self) -> (r: u32)
        ensures
            r == self.text_spec().len(),
    {
        proof {
            use_type_invariant(&*self);
        }
        self.range.end - self.range.start
    }

    /// The chunk texts of this view, in document order: for each piece the
    /// view's range overlaps, exactly the overlapping part of that piece's
    /// text, and nothing else; together the chunks concatenate to exactly
    /// the covered text.
    pub fn chunks(&self) -> (r: Vec<String>)
        ensures
            r@.map_values(|p: String| p@) == chunk_list(
                self.pieces_spec(),
                0,
                self.range_spec().start as int,
                self.range_spec().end as int,
            ),
            texts_concat(r@.map_values(|p: String| p@)) == self.text_spec(),
    {
        proof {
            use_type_invariant(&*self);
        }
        let ghost vs = self.pieces@.map_values(|p: String| p@);
        let ghost full = self.full_spec();
        let start = self.range.start;
        let end = self.range.end;
        let mut out: Vec<String> = Vec::new();
        let mut acc: u32 = 0;
        let mut i: usize = 0;
        let n = self.pieces.len();
        proof {
            assert(vs.skip(0) =~= vs);
            assert(Seq::<Seq<char>>::empty() + chunk_list(vs, 0, start as int, end as int)
                =~= chunk_list(vs, 0, start as int, end as int));
            assert(out@.map_values(|p: String| p@) =~= Seq::<Seq<char>>::empty());
        }
        while i < n
            invariant
                i <= n == self.pieces@.len(),
                vs == self.pieces@.map_values(|p: String| p@),
                vs.len() == self.pieces@.len(),
                full == self.full_spec(),
                full.len() <= u32::MAX,
                start == self.range_spec().start,
                end == self.range_spec().end,
                start <= end <= full.len(),
                acc == texts_concat(vs.take(i as int)).len(),
                acc <= full.len(),
                texts_concat(out@.map_values(|p: String| p@)) == full.subrange(
                    start as int,
                    clip(acc as int, start as int, end as int),
                ),
                chunk_list(vs, 0, start as int, end as int) == out@.map_values(|p: String| p@)
                    + chunk_list(vs.skip(i as int), acc as int, start as int, end as int),
            decreases n - i,
        {
            let ghost out_vs = out@.map_values(|p: String| p@);
            let pl = str_char_len(self.pieces[i].as_str());
            proof {
                lemma_texts_concat_take_push(vs, i as int);
                lemma_texts_concat_split(vs, i + 1);
                lemma_texts_concat_extract(vs, i as int);
                // one step of the chunk decomposition
                assert(vs.skip(i as int)[0] == vs[i as int]);
                assert(vs.skip(i as int).drop_first() =~= vs.skip(i + 1));
            }
            let lo = if start >= acc {
                start
            } else {
                acc
            };
            let hi_end = acc + pl as u32;
            let hi = if end <= hi_end {
                end
            } else {
                hi_end
            };
            if lo < hi {
                let piece = self.pieces[i].as_str().substring_char(
                    (lo - acc) as usize,
                    (hi - acc) as usize,
                );
                let chunk = piece.to_owned();
                out.push(chunk);
                proof {
                    assert(out@.map_values(|p: String| p@) =~= out_vs.push(chunk@));
                    lemma_texts_concat_take_push(
                        out@.map_values(|p: String| p@),
                        out_vs.len() as int,
                    );
                    assert(out@.map_values(|p: String| p@).take(out_vs.len() as int) =~= out_vs);
                    assert(out@.map_values(|p: String| p@).take(out@.len() as int)
                        =~= out@.map_values(|p: String| p@));
                    // the piece occupies [acc, acc + pl) of the full text
                    assert(vs[i as int] =~= full.subrange(acc as int, acc + pl));
                    assert(chunk@ =~= full.subrange(lo as int, hi as int));
                    // extending the covered prefix by the chunk
                    assert(full.subrange(start as int, lo as int) + full.subrange(
                        lo as int,
                        hi as int,
                    ) =~= full.subrange(start as int, hi as int));
                    assert(clip(acc as int, start as int, end as int) == lo as int);
                    assert(clip((acc + pl) as int, start as int, end as int) == hi as int);
                    assert(chunk@ =~= vs[i as int].subrange(lo - acc, hi - acc));
                    assert(chunk_list(vs.skip(i as int), acc as int, start as int, end as int)
                        == seq![chunk@] + chunk_list(
                        vs.skip(i + 1),
                        acc + pl,
                        start as int,
                        end as int,
                    ));
                    assert((out_vs + seq![chunk@]) + chunk_list(
                        vs.skip(i + 1),
                        acc + pl,
                        start as int,
                        end as int,
                    ) =~= out_vs + (seq![chunk@] + chunk_list(
                        vs.skip(i + 1),
                        acc + pl,
                        start as int,
                        end as int,
                    )));
                }
            } else {
                proof {
                    assert(clip((acc + pl) as int, start as int, end as int) == clip(
                        acc as int,
                        start as int,
                        end as int,
                    ));
                    assert(chunk_list(vs.skip(i as int), acc as int, start as int, end as int)
                        == chunk_list(vs.skip(i + 1), acc + pl, start as int, end as int));
                }
            }
            acc = acc + pl as u32;
            i = i + 1;
        }
        proof {
            assert(vs.take(n as int) =~= vs);
            assert(clip(acc as int, start as int, end as int) == end as int);
            assert(vs.skip(n as int) =~= Seq::<Seq<char>>::empty());
            assert(out@.map_values(|p: String| p@) + Seq::<Seq<char>>::empty() =~= out@.map_values(
                |p: String| p@,
            ));
        }
        out
    }

    /// Append the covered text to `buf`.
    pub fn push_to(&self, buf: &mut String)
        ensures
            final(buf)@ == old(buf)@ + self.text_spec(),
    {
        let chunks = self.chunks();
        let ghost cvs = chunks@.map_values(|p: String| p@);
        let ghost start_val = buf@;
        let mut i: usize = 0;
        let n = chunks.len();
        while i < n
            invariant
                i <= n == chunks@.len(),
                cvs == chunks@.map_values(|p: String| p@),
                cvs.len() == chunks@.len(),
                buf@ == start_val + texts_concat(cvs.take(i as int)),
            decreases n - i,
        {
            buf.append(chunks[i].as_str());
            proof {
                lemma_texts_concat_take_push(cvs, i as int);
                assert(start_val + texts_concat(cvs.take(i + 1)) =~= (start_val + texts_concat(
                    cvs.take(i as int),
                )) + cvs[i as int]);
            }
            i = i + 1;
        }
        proof {
            assert(cvs.take(n as int) =~= cvs);
        }
    }

    /// The covered text as one string.
    pub fn to_string(&self) -> (r: String)
        ensures
            r@ == self.text_spec(),
    {
        let mut buf = String::new();
        self.push_to(&mut buf);
        proof {
            assert(Seq::<char>::empty() + self.text_spec() =~= self.text_spec());
        }
        buf
    }

    /// The character at `offset` within the covered text, found by a
    /// linear chunk scan that never assembles the whole text; `None` past
    /// the end.
    pub fn char_at(&self, offset: u32) -> (r: Option<char>)
        ensures
            offset < self.text_spec().len() ==> r == Some(self.text_spec()[offset as int]),
            offset >= self.text_spec().len() ==> r is None,
    {
        proof {
            use_type_invariant(&*self);
        }
        let chunks = self.chunks();
        let ghost cvs = chunks@.map_values(|p: String| p@);
        let ghost text = self.text_spec();
        let mut base: u32 = 0;
        let mut i: usize = 0;
        let n = chunks.len();
        while i < n
            invariant
                i <= n == chunks@.len(),
                cvs == chunks@.map_values(|p: String| p@),
                cvs.len() == chunks@.len(),
                text == self.text_spec(),
                texts_concat(cvs) == text,
                text.len() <= u32::MAX,
                base == texts_concat(cvs.take(i as int)).len(),
                base <= text.len(),
                offset >= base,
            decreases n - i,
        {
            let pl = str_char_len(chunks[i].as_str());
            proof {
                lemma_texts_concat_take_push(cvs, i as int);
                lemma_texts_concat_split(cvs, i + 1);
                lemma_texts_concat_extract(cvs, i as int);
            }
            if (offset as usize) < base as usize + pl {
                let c = chunks[i].as_str().get_char(offset as usize - base as usize);
                return Some(c);
            }
            base = base + pl as u32;
            i = i + 1;
        }
        proof {
            assert(cvs.take(n as int) =~= cvs);
        }
        None
    }

    /// The offset, within the covered text, of the first occurrence of
    /// `c`, found chunk by chunk.
    pub fn find(&self, c: char) -> (r: Option<u32>)
        ensures
            (match r {
                Some(i) => 0 <= i < self.text_spec().len() && self.text_spec()[i as int] == c
                    && forall|j: int| 0 <= j < i ==> self.text_spec()[j] != c,
                None => forall|j: int|
                    0 <= j < self.text_spec().len() ==> self.text_spec()[j] != c,
            }),
    {
        proof {
            use_type_invariant(&*self);
        }
        let chunks = self.chunks();
        let ghost cvs = chunks@.map_values(|p: String| p@);
        let ghost text = self.text_spec();
        let mut base: u32 = 0;
        let mut i: usize = 0;
        let n = chunks.len();
        while i < n
            invariant
                i <= n == chunks@.len(),
                cvs == chunks@.map_values(|p: String| p@),
                cvs.len() == chunks@.len(),
                text == self.text_spec(),
                texts_concat(cvs) == text,
                text.len() <= u32::MAX,
                base == texts_concat(cvs.take(i as int)).len(),
                base <= text.len(),
                forall|p: int| 0 <= p < base ==> text[p] != c,
            decreases n - i,
        {
            let cs = crate::lexer::chars_of(chunks[i].as_str());
            proof {
                lemma_texts_concat_take_push(cvs, i as int);
                lemma_texts_concat_split(cvs, i + 1);
                lemma_texts_concat_extract(cvs, i as int);
            }
            let mut j: usize = 0;
            let m = cs.len();
            while j < m
                invariant
                    j <= m == cs@.len(),
                    cs@ == cvs[i as int],
                    0 <= i < cvs.len(),
                    text == self.text_spec(),
                    texts_concat(cvs) == text,
                    text.len() <= u32::MAX,
                    base == texts_concat(cvs.take(i as int)).len(),
                    base + cs@.len() <= text.len(),
                    forall|q: int| 0 <= q < base + j ==> text[q] != c,
                    forall|q: int|
                        0 <= q < cs@.len() ==> text[base + q] == cs@[q],
                decreases m - j,
            {
                if cs[j] == c {
                    return Some(base + j as u32);
                }
                j = j + 1;
            }
            base = base + m as u32;
            i = i + 1;
        }
        proof {
            assert(cvs.take(n as int) =~= cvs);
        }
        None
    }

    /// Whether `c` occurs in the covered text.
    pub fn contains(&self, c: char) -> (r: bool)
        ensures
            r == self.text_spec().contains(c),
    {
        let found = self.find(c);
        proof {
            if self.text_spec().contains(c) {
                let w = choose|w: int|
                    0 <= w < self.text_spec().len() && self.text_spec()[w] == c;
                assert(found is None ==> self.text_spec()[w] != c);
            }
        }
        found.is_some()
    }

    /// Chunk-wise comparison of the covered text against a plain string:
    /// the chunks are checked one after the other against the matching
    /// window of `rhs`, and the covered text is never assembled.
    pub fn eq_str(&self, rhs: &str) -> (r: bool)
        ensures
            r == (self.text_spec() == rhs@),
    {
        proof {
            use_type_invariant(&*self);
        }
        let os = crate::lexer::chars_of(rhs);
        if self.len() as usize != os.len() {
            return false;
        }
        let chunks = self.chunks();
        let ghost cvs = chunks@.map_values(|p: String| p@);
        let ghost text = self.text_spec();
        let mut base: u32 = 0;
        let mut i: usize = 0;
        let n = chunks.len();
        while i < n
            invariant
                i <= n == chunks@.len(),
                cvs == chunks@.map_values(|p: String| p@),
                cvs.len() == chunks@.len(),
                text == self.text_spec(),
                texts_concat(cvs) == text,
                text.len() <= u32::MAX,
                os@ == rhs@,
                text.len() == os@.len(),
                base == texts_concat(cvs.take(i as int)).len(),
                base <= text.len(),
                forall|p: int| 0 <= p < base ==> text[p] == os@[p],
            decreases n - i,
        {
            let cs = crate::lexer::chars_of(chunks[i].as_str());
            proof {
                lemma_texts_concat_take_push(cvs, i as int);
                lemma_texts_concat_split(cvs, i + 1);
                lemma_texts_concat_extract(cvs, i as int);
            }
            let mut j: usize = 0;
            let m = cs.len();
            while j < m
                invariant
                    j <= m == cs@.len(),
                    cs@ == cvs[i as int],
                    0 <= i < cvs.len(),
                    text == self.text_spec(),
                    texts_concat(cvs) == text,
                    text.len() <= u32::MAX,
                    os@ == rhs@,
                    text.len() == os@.len(),
                    base == texts_concat(cvs.take(i as int)).len(),
                    base + cs@.len() <= text.len(),
                    forall|q: int| 0 <= q < base + j ==> text[q] == os@[q],
                    forall|q: int|
                        0 <= q < cs@.len() ==> text[base + q] == cs@[q],
                decreases m - j,
            {
                if cs[j] != os[base as usize + j] {
                    return false;
                }
                j = j + 1;
            }
            base = base + m as u32;
            i = i + 1;
        }
        proof {
            assert(cvs.take(n as int) =~= cvs);
            assert(text =~= os@);
        }
        true
    }

    /// Restrict the view to a sub-range. The given range is clipped to this
    /// view's own range by its `restrict` rule; asking for a slice outside
    /// that range is a precondition violation, never silently clamped.
    pub fn slice<R: SyntaxTextSlice>(&self, range: R) -> (r: SyntaxText)
        requires
            range.restrict_spec(self.range_spec()) is Some,
        ensures
            r.pieces_spec() == self.pieces_spec(),
            r.range_spec() == range.restrict_spec(self.range_spec())->0,
            r.text_spec() == self.full_spec().subrange(
                range.restrict_spec(self.range_spec())->0.start as int,
                range.restrict_spec(self.range_spec())->0.end as int,
            ),
    {
        proof {
            use_type_invariant(&*self);
        }
        let restricted = range.restrict(self.range);
        let rr = match restricted {
            Some(rr) => rr,
            None => vstd::pervasive::unreached(),
        };
        let pieces = clone_pieces(&self.pieces);
        SyntaxText { pieces, range: rr }
    }
}

#[verifier::external_type_specification]
#[verifier::reject_recursive_types(Idx)]
pub struct ExRangeTo<Idx>(core::ops::RangeTo<Idx>);

#[verifier::external_type_specification]
#[verifier::reject_recursive_types(Idx)]
pub struct ExRangeFrom<Idx>(core::ops::RangeFrom<Idx>);

/// What may stand as the range argument of `SyntaxText::slice`, and how it
/// is clipped to the view's own range.
pub trait SyntaxTextSlice: Sized {
    /// The range the argument selects within `range`, if it lies inside.
    spec fn restrict_spec(&self, range: TextRange) -> Option<TextRange>;

    fn restrict(&self, range: TextRange) -> (r: Option<TextRange>)
        requires
            range.wf(),
        ensures
            r == self.restrict_spec(range),
            r is Some ==> r->0.wf() && range.start <= r->0.start && r->0.end <= range.end,
    ;
}

impl SyntaxTextSlice for TextRange {
    /// An absolute range must lie wholly inside the view's range; one that
    /// reaches outside is refused, never silently clamped.
    open spec fn restrict_spec(&self, range: TextRange) -> Option<TextRange> {
        if self.start <= self.end && range.start <= self.start && self.end <= range.end {
            Some(*self)
        } else {
            None
        }
    }

    fn restrict(&self, range: TextRange) -> (r: Option<TextRange>) {
        if self.start <= self.end && range.start <= self.start && self.end <= range.end {
            Some(TextRange { start: self.start, end: self.end })
        } else {
            None
        }
    }
}

impl SyntaxTextSlice for core::ops::RangeTo<u32> {
    open spec fn restrict_spec(&self, range: TextRange) -> Option<TextRange> {
        if range.start <= self.end <= range.end {
            Some(TextRange { start: range.start, end: self.end })
        } else {
            None
        }
    }

    fn restrict(&self, range: TextRange) -> (r: Option<TextRange>) {
        if range.contains_inclusive(self.end) {
            Some(TextRange::from_to(range.start, self.end))
        } else {
            None
        }
    }
}

impl SyntaxTextSlice for core::ops::RangeFrom<u32> {
    open spec fn restrict_spec(&self, range: TextRange) -> Option<TextRange> {
        if range.start <= self.start <= range.end {
            Some(TextRange { start: self.start, end: range.end })
        } else {
            None
        }
    }

    fn restrict(&self, range: TextRange) -> (r: Option<TextRange>) {
        if range.contains_inclusive(self.start) {
            Some(TextRange::from_to(self.start, range.end))
        } else {
            None
        }
    }
}

impl SyntaxTextSlice for core::ops::Range<u32> {
    /// An absolute range must lie wholly inside the view's range; one that
    /// reaches outside is refused, never silently clamped.
    open spec fn restrict_spec(&self, range: TextRange) -> Option<TextRange> {
        if self.start <= self.end && range.start <= self.start && self.end <= range.end {
            Some(TextRange { start: self.start, end: self.end })
        } else {
            None
        }
    }

    fn restrict(&self, range: TextRange) -> (r: Option<TextRange>) {
        if self.start <= self.end && range.start <= self.start && self.end <= range.end {
            Some(TextRange { start: self.start, end: self.end })
        } else {
            None
        }
    }
}

/// A fresh list of the same piece texts.
fn clone_pieces(v: &Vec<String>) -> (r: Vec<String>)
    ensures
        r@.map_values(|p: String| p@) == v@.map_values(|p: String| p@),
{
    let mut out: Vec<String> = Vec::new();
    let mut i: usize = 0;
    let n = v.len();
    while i < n
        invariant
            i <= n == v@.len(),
            out@.len() == i,
            forall|j: int| 0 <= j < i ==> (#[trigger] out@[j])@ == v@[j]@,
        decreases n - i,
    {
        let p = v[i].as_str().to_owned();
        out.push(p);
        i = i + 1;
    }
    proof {
        assert(out@.map_values(|p: String| p@) =~= v@.map_values(|p: String| p@));
    }
    out
}

} // verus!
