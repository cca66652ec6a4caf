use vstd::prelude::*;
use crate::syntax_error::{Location, SyntaxError};
use crate::syntax_kind::SyntaxKind;
use crate::syntax_node::{errors_sorted, SyntaxNode, SyntaxNodeWrapper, SyntaxTree, WalkEvent};

verus! {

/// The kinds a `Chunk` accepts: a whole source file's root node.
pub open spec fn chunk_accepts(k: SyntaxKind) -> bool {
    k == SyntaxKind::CHUNK
}

/// The kinds a `Block` accepts.
pub open spec fn block_accepts(k: SyntaxKind) -> bool {
    k == SyntaxKind::BLOCK
}

/// The typed view of a whole source file: the root node together with the
/// diagnostic side-table frozen at build time.
pub struct Chunk {
    syntax: SyntaxNode,
    errors: Vec<SyntaxError>,
}

impl Chunk {
    /// The untyped node under this view.
    pub closed spec fn syntax_spec(self) -> SyntaxNode {
        self.syntax
    }

    /// The diagnostics attached to the root.
    pub closed spec fn errors_spec(self) -> Seq<(Seq<char>, Location)> {
        self.errors@.map_values(|e: SyntaxError| e@)
    }

    /// The side-table is always kept in offset order.
    #[verifier::type_invariant]
    closed spec fn side_table_inv(self) -> bool {
        errors_sorted(self.errors_spec())
    }

    /// Typed reinterpretation of a frozen tree: succeeds exactly when the
    /// root node's kind is in the accepted set, reads the same node (no
    /// copy of the tree), and never fails any other way.
    pub fn cast(tree: SyntaxTree) -> (r: Option<Chunk>)
        ensures
            r is Some <==> chunk_accepts(tree.root_spec().kind_spec()),
            r is Some ==> r->0.syntax_spec() == tree.root_spec(),
            r is Some ==> r->0.errors_spec() == tree.errors_spec(),
    {
        let is_chunk = tree.root().kind() == SyntaxKind::CHUNK;
        if is_chunk {
            let (root, errors) = tree.into_parts();
            Some(Chunk { syntax: root, errors })
        } else {
            None
        }
    }

    /// The diagnostics recorded while this chunk's tree was built, as
    /// offsets into the chunk's own text, in offset order.
    pub fn errors(&self) -> (r: Vec<SyntaxError>)
        ensures
            r@.map_values(|e: SyntaxError| e@) == self.errors_spec(),
            errors_sorted(r@.map_values(|e: SyntaxError| e@)),
    {
        proof {
            use_type_invariant(&*self);
        }
        let mut out: Vec<SyntaxError> = Vec::new();
        let mut i: usize = 0;
        let n = self.errors.len();
        while i < n
            invariant
                i <= n == self.errors@.len(),
                out@.len() == i,
                forall|j: int| 0 <= j < i ==> (#[trigger] out@[j])@ == self.errors@[j]@,
            decreases n - i,
        {
            out.push(self.errors[i].clone());
            i = i + 1;
        }
        proof {
            assert(out@.map_values(|e: SyntaxError| e@) =~= self.errors@.map_values(
                |e: SyntaxError| e@,
            ));
        }
        out
    }
}

impl SyntaxNodeWrapper for Chunk {
    fn syntax(&self) -> &SyntaxNode {
        &self.syntax
    }
}

/// The typed view of a statement block.
pub struct Block {
    syntax: SyntaxNode,
}

impl Block {
    /// The untyped node under this view.
    pub closed spec fn syntax_spec(self) -> SyntaxNode {
        self.syntax
    }

    /// Typed reinterpretation of an untyped node: succeeds exactly when the
    /// node's kind is in the accepted set, and is a relabeling of the same
    /// node, never a copy.
    pub fn cast(syntax: SyntaxNode) -> (r: Option<Block>)
        ensures
            r is Some <==> block_accepts(syntax.kind_spec()),
            r is Some ==> r->0.syntax_spec() == syntax,
    {
        let is_block = syntax.kind() == SyntaxKind::BLOCK;
        if is_block {
            Some(Block { syntax })
        } else {
            None
        }
    }
}

impl SyntaxNodeWrapper for Block {
    fn syntax(&self) -> &SyntaxNode {
        &self.syntax
    }
}

/// The nodes a walk enters whose kind the `Block` cast accepts, in the
/// order the walk enters them.
pub open spec fn block_enters(events: Seq<WalkEvent<SyntaxNode>>) -> Seq<SyntaxNode>
    decreases events.len(),
{
    if events.len() == 0 {
        Seq::empty()
    } else {
        let rest = block_enters(events.drop_first());
        match events[0] {
            WalkEvent::Enter(n) => if block_accepts(n.kind_spec()) {
                seq![n] + rest
            } else {
                rest
            },
            WalkEvent::Leave(_) => rest,
        }
    }
}

/// Every node the filter keeps is of an accepted kind.
proof fn lemma_block_enters_accepted(events: Seq<WalkEvent<SyntaxNode>>)
    ensures
        forall|j: int|
            0 <= j < block_enters(events).len() ==> block_accepts(
                (#[trigger] block_enters(events)[j]).kind_spec(),
            ),
    decreases events.len(),
{
    if events.len() > 0 {
        lemma_block_enters_accepted(events.drop_first());
    }
}

/// Filter a walk's events down to the `Block` category: the result casts
/// exactly the nodes of the accepted kind that the walk enters, in walk
/// order, and nothing else.
pub fn blocks_of_events(events: &Vec<WalkEvent<SyntaxNode>>) -> (r: Vec<Block>)
    ensures
        r@.map_values(|b: Block| b.syntax_spec()) == block_enters(events@),
{
    let mut out: Vec<Block> = Vec::new();
    let mut i: usize = 0;
    let n = events.len();
    proof {
        assert(events@.skip(0) =~= events@);
        assert(out@.map_values(|b: Block| b.syntax_spec()) =~= Seq::<SyntaxNode>::empty());
        assert(Seq::<SyntaxNode>::empty() + block_enters(events@) =~= block_enters(events@));
    }
    while i < n
        invariant
            i <= n == events@.len(),
            block_enters(events@) == out@.map_values(|b: Block| b.syntax_spec()) + block_enters(
                events@.skip(i as int),
            ),
        decreases n - i,
    {
        let ghost out_vs = out@.map_values(|b: Block| b.syntax_spec());
        proof {
            assert(events@.skip(i as int)[0] == events@[i as int]);
            assert(events@.skip(i as int).drop_first() =~= events@.skip(i + 1));
        }
        if let WalkEvent::Enter(candidate) = &events[i] {
            let cast = Block::cast(candidate.clone());
            if let Some(block) = cast {
                out.push(block);
                proof {
                    assert(out@.map_values(|b: Block| b.syntax_spec()) =~= out_vs.push(
                        events@[i as int]->Enter_0,
                    ));
                    assert((out_vs + seq![events@[i as int]->Enter_0]) + block_enters(
                        events@.skip(i + 1),
                    ) =~= out_vs + (seq![events@[i as int]->Enter_0] + block_enters(
                        events@.skip(i + 1),
                    )));
                }
            }
        }
        i = i + 1;
    }
    proof {
        assert(events@.skip(n as int) =~= Seq::<WalkEvent<SyntaxNode>>::empty());
        assert(out@.map_values(|b: Block| b.syntax_spec()) + Seq::<SyntaxNode>::empty()
            =~= out@.map_values(|b: Block| b.syntax_spec()));
    }
    out
}

/// The descendants of `node` that carry the `Block` category, in preorder:
/// the walk's events filtered by `blocks_of_events`, whose contract pins
/// the result exactly.
pub fn block_descendants(node: &SyntaxNode) -> (r: Vec<Block>)
    ensures
        forall|i: int|
            0 <= i < r@.len() ==> block_accepts((#[trigger] r@[i]).syntax_spec().kind_spec()),
{
    let events = node.preorder();
    let r = blocks_of_events(&events);
    proof {
        lemma_block_enters_accepted(events@);
        assert forall|i: int|
            0 <= i < r@.len() implies block_accepts(
            (#[trigger] r@[i]).syntax_spec().kind_spec(),
        ) by {
            assert(r@[i].syntax_spec() == r@.map_values(|b: Block| b.syntax_spec())[i]);
        }
    }
    r
}

} // verus!
