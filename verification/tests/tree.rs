use lua_parser::syntax_node::build_chunk;
use lua_parser::{
    Block, Chunk, Location, ParseError, SyntaxError, SyntaxErrorKind, SyntaxKind,
    SyntaxNodeWrapper, SyntaxTreeBuilder, TextRange,
};

fn sample_tree() -> lua_parser::SyntaxTree {
    // CHUNK( "local", " ", BLOCK( "x" ), " end" )
    let mut builder = SyntaxTreeBuilder::new();
    builder.start_node(SyntaxKind::CHUNK);
    builder.token(SyntaxKind::LOCAL, "local");
    builder.token(SyntaxKind::WHITESPACE, " ");
    builder.start_node(SyntaxKind::BLOCK);
    builder.token(SyntaxKind::IDENT, "x");
    builder.finish_node();
    builder.token(SyntaxKind::WHITESPACE, " ");
    builder.token(SyntaxKind::END, "end");
    builder.finish_node();
    builder.finish()
}

#[test]
fn tree_round_trip() {
    let tree = sample_tree();
    assert_eq!(tree.root().kind(), SyntaxKind::CHUNK);
    assert_eq!(tree.root().text().to_string(), "local x end");

    // the same property through the flat builder helper
    let tokens = vec![
        (SyntaxKind::IDENT, String::from("print")),
        (SyntaxKind::L_PAREN, String::from("(")),
        (SyntaxKind::NUMBER, String::from("42")),
        (SyntaxKind::R_PAREN, String::from(")")),
    ];
    let tree = build_chunk(&tokens);
    assert_eq!(tree.root().text().to_string(), "print(42)");
    assert!(tree.errors().is_empty());
}

#[test]
fn casting_totality() {
    let tree = sample_tree();
    let root = tree.root().clone();
    // the root is a CHUNK: Block::cast must refuse it, Chunk::cast accept it
    assert!(Block::cast(root).is_none());
    let block_node = tree.root().first_child().expect("block child");
    assert_eq!(block_node.kind(), SyntaxKind::BLOCK);
    let block = Block::cast(block_node).expect("block cast");
    assert_eq!(block.syntax().kind(), SyntaxKind::BLOCK);
    let chunk = Chunk::cast(tree).expect("chunk cast");
    assert_eq!(chunk.syntax().kind(), SyntaxKind::CHUNK);
    assert!(chunk.errors().is_empty());

    // a tree whose root is a BLOCK goes the other way
    let mut builder = SyntaxTreeBuilder::new();
    builder.start_node(SyntaxKind::BLOCK);
    builder.token(SyntaxKind::IDENT, "y");
    builder.finish_node();
    let tree = builder.finish();
    assert!(Block::cast(tree.root().clone()).is_some());
    assert!(Chunk::cast(tree).is_none());
}

#[test]
fn navigation() {
    let tree = sample_tree();
    let root = tree.root();
    assert!(root.parent().is_none());
    let block = root.first_child().expect("child");
    assert_eq!(block.kind(), SyntaxKind::BLOCK);
    assert_eq!(
        block.parent().expect("parent").kind(),
        SyntaxKind::CHUNK
    );
    assert_eq!(root.children().len(), 1);
    let elements = root.children_with_tokens();
    assert_eq!(elements.len(), 5);
    assert_eq!(elements[0].kind(), SyntaxKind::LOCAL);
    assert!(elements[0].as_token().is_some());
    assert!(elements[0].as_node().is_none());
    assert_eq!(elements[2].kind(), SyntaxKind::BLOCK);
    assert!(elements[2].as_node().is_some());
    let texts: Vec<String> = elements
        .iter()
        .map(|el| match (el.as_node(), el.as_token()) {
            (Some(n), _) => n.text().to_string(),
            (_, Some(t)) => t.text(),
            _ => unreachable!(),
        })
        .collect();
    assert_eq!(texts.concat(), "local x end");
}

#[test]
fn diagnostics_sorted_by_offset() {
    let mut builder = SyntaxTreeBuilder::new();
    builder.start_node(SyntaxKind::CHUNK);
    builder.token(SyntaxKind::IDENT, "abc");
    builder.error(ParseError(String::from("late")), 7);
    builder.error(ParseError(String::from("early")), 2);
    builder.error(ParseError(String::from("middle")), 5);
    builder.finish_node();
    let tree = builder.finish();
    let errors = tree.errors();
    let offsets: Vec<u32> = errors.iter().map(|e| e.location().offset()).collect();
    assert_eq!(offsets, vec![2, 5, 7]);
    assert_eq!(
        errors[0].kind(),
        SyntaxErrorKind::ParseError(ParseError(String::from("early")))
    );
}

#[test]
fn error_rebasing() {
    // offset N, add D, subtract E: the new offset is N + D - E
    let loc = Location::Offset(10);
    assert_eq!(loc.add_offset(5, 3), Location::Offset(12));
    assert_eq!(loc.offset(), 10);

    // the range variant shifts both endpoints identically
    let loc = Location::Range(TextRange::from_to(4, 9));
    let moved = loc.add_offset(5, 3);
    assert_eq!(moved, Location::Range(TextRange::from_to(6, 11)));
    assert_eq!(moved.offset(), 6);
}

#[test]
fn syntax_error_accessors() {
    let err = SyntaxError::new(
        SyntaxErrorKind::ParseError(ParseError(String::from("oops"))),
        Location::Offset(3),
    );
    assert_eq!(
        err.kind(),
        SyntaxErrorKind::ParseError(ParseError(String::from("oops")))
    );
    assert_eq!(err.location(), Location::Offset(3));
}

#[test]
fn syntax_text_queries() {
    let tree = sample_tree();
    let text = tree.root().text();
    assert_eq!(text.len(), 11);
    assert_eq!(text.to_string(), "local x end");
    assert_eq!(text.char_at(0), Some('l'));
    assert_eq!(text.char_at(6), Some('x'));
    assert_eq!(text.char_at(11), None);
    assert_eq!(text.find('x'), Some(6));
    assert_eq!(text.find('z'), None);
    assert!(text.contains(' '));
    assert!(!text.contains('q'));
    assert!(text.eq_str("local x end"));
    assert!(!text.eq_str("local x en"));
    assert!(!text.eq_str("local x endd"));
    let chunks = text.chunks();
    assert_eq!(chunks, vec!["local", " ", "x", " ", "end"]);
    let mut buf = String::from(">");
    text.push_to(&mut buf);
    assert_eq!(buf, ">local x end");
}

#[test]
fn syntax_text_slicing() {
    let tree = sample_tree();
    let text = tree.root().text();
    // an absolute sub-range, clipped forms, and chunk-crossing slices
    assert_eq!(text.slice(2u32..7u32).to_string(), "cal x");
    assert_eq!(text.slice(..5u32).to_string(), "local");
    assert_eq!(text.slice(8u32..).to_string(), "end");
    assert_eq!(text.slice(TextRange::from_to(6, 7)).to_string(), "x");
    let sub = text.slice(2u32..7u32);
    assert_eq!(sub.len(), 5);
    assert_eq!(sub.chunks(), vec!["cal", " ", "x"]);
    // slicing a slice takes absolute positions within the inner range
    assert_eq!(sub.slice(TextRange::from_to(3, 5)).to_string(), "al");
}

#[test]
fn kind_codes_round_trip() {
    let kinds = [
        SyntaxKind::ERROR,
        SyntaxKind::WHITESPACE,
        SyntaxKind::COMMENT,
        SyntaxKind::STRING,
        SyntaxKind::NUMBER,
        SyntaxKind::IDENT,
        SyntaxKind::AND,
        SyntaxKind::FUNCTION,
        SyntaxKind::NEQ,
        SyntaxKind::CHUNK,
        SyntaxKind::BLOCK,
    ];
    for k in kinds.iter() {
        assert_eq!(SyntaxKind::from_code(k.code()), *k);
    }
    assert_eq!(SyntaxKind::from_code(60000), SyntaxKind::ERROR);
}

#[test]
fn navigation_walks() {
    let tree = sample_tree();
    let root = tree.root();

    // ancestors: a nested node sees itself, then the chain up to the root
    let block = root.first_child().expect("block");
    let up: Vec<SyntaxKind> = block.ancestors().iter().map(|n| n.kind()).collect();
    assert_eq!(up, vec![SyntaxKind::BLOCK, SyntaxKind::CHUNK]);

    // first and last token of the subtree
    assert_eq!(root.first_token().expect("first").text(), "local");
    assert_eq!(root.last_token().expect("last").text(), "end");

    // document-order token chain
    let first = root.first_token().unwrap();
    let second = first.next_token().expect("second");
    assert_eq!(second.text(), " ");
    assert_eq!(second.prev_token().expect("back").text(), "local");

    // sibling walk from the single node child
    let sibs = block.siblings(lua_parser::Direction::Next);
    assert_eq!(sibs.len(), 1);

    // a preorder walk enters and leaves each node once
    let events = root.preorder();
    assert_eq!(events.len(), 4);
    let mut depth = 0i32;
    let mut max_depth = 0i32;
    for ev in events.iter() {
        match ev {
            lua_parser::WalkEvent::Enter(_) => {
                depth += 1;
                max_depth = max_depth.max(depth);
            }
            lua_parser::WalkEvent::Leave(_) => depth -= 1,
        }
    }
    assert_eq!(depth, 0);
    assert_eq!(max_depth, 2);

    // a walk with tokens visits the leaves between enter and leave
    let events = root.preorder_with_tokens();
    let mut texts = String::new();
    for ev in events.iter() {
        if let lua_parser::WalkEvent::Enter(el) = ev {
            if let Some(t) = el.as_token() {
                texts.push_str(&t.text());
            }
        }
    }
    assert_eq!(texts, "local x end");
}

#[test]
fn or_token_navigation() {
    let tree = sample_tree();
    let root = tree.root();
    let first = root.first_child_or_token().expect("first element");
    assert_eq!(first.kind(), SyntaxKind::LOCAL);
    let last = root.last_child_or_token().expect("last element");
    assert_eq!(last.kind(), SyntaxKind::END);
    let second = first.next_sibling_or_token().expect("second element");
    assert_eq!(second.kind(), SyntaxKind::WHITESPACE);
    let back = second.prev_sibling_or_token().expect("back");
    assert_eq!(back.kind(), SyntaxKind::LOCAL);
    let block = root.first_child().expect("block");
    assert_eq!(
        block.next_sibling_or_token().expect("after block").kind(),
        SyntaxKind::WHITESPACE
    );
    assert_eq!(
        block.prev_sibling_or_token().expect("before block").kind(),
        SyntaxKind::WHITESPACE
    );
}

#[test]
fn typed_descendant_filtering() {
    // CHUNK( BLOCK( "a", BLOCK( "b" ) ), "c" )
    let mut builder = SyntaxTreeBuilder::new();
    builder.start_node(SyntaxKind::CHUNK);
    builder.start_node(SyntaxKind::BLOCK);
    builder.token(SyntaxKind::IDENT, "a");
    builder.start_node(SyntaxKind::BLOCK);
    builder.token(SyntaxKind::IDENT, "b");
    builder.finish_node();
    builder.finish_node();
    builder.token(SyntaxKind::IDENT, "c");
    builder.finish_node();
    let tree = builder.finish();
    let blocks = lua_parser::ast::block_descendants(tree.root());
    assert_eq!(blocks.len(), 2);
    assert_eq!(blocks[0].syntax().text().to_string(), "ab");
    assert_eq!(blocks[1].syntax().text().to_string(), "b");
}

#[test]
fn builder_default_is_fresh() {
    let mut builder = SyntaxTreeBuilder::default();
    builder.start_node(SyntaxKind::CHUNK);
    builder.finish_node();
    let tree = builder.finish();
    assert_eq!(tree.root().text().to_string(), "");
    assert_eq!(tree.root().text().len(), 0);
    assert!(tree.errors().is_empty());
}

#[test]
fn stored_ranges() {
    let tree = sample_tree();
    let root = tree.root();
    // positions the storage engine keeps: ASCII text, so bytes == characters
    let r = root.range();
    assert_eq!((r.start(), r.end()), (0, 11));
    let block = root.first_child().expect("block");
    let br = block.range();
    assert_eq!((br.start(), br.end()), (6, 7));
    let first = root.first_child_or_token().expect("first");
    assert_eq!((first.range().start(), first.range().end()), (0, 5));
    let last_tok = root.last_token().expect("last");
    assert_eq!((last_tok.range().start(), last_tok.range().end()), (8, 11));
}

#[test]
fn element_walks() {
    let tree = sample_tree();
    let root = tree.root();

    // every subtree element once, in document pre-order
    let descendants = root.descendants_with_tokens();
    assert_eq!(descendants.len(), 7);
    assert_eq!(descendants[0].kind(), SyntaxKind::CHUNK);
    assert_eq!(descendants[1].kind(), SyntaxKind::LOCAL);
    assert_eq!(descendants[3].kind(), SyntaxKind::BLOCK);
    assert_eq!(descendants[4].kind(), SyntaxKind::IDENT);

    // element sibling chains from a node and from a token
    let block = root.first_child().expect("block");
    let onward = block.siblings_with_tokens(lua_parser::Direction::Next);
    let kinds: Vec<SyntaxKind> = onward.iter().map(|el| el.kind()).collect();
    assert_eq!(
        kinds,
        vec![SyntaxKind::BLOCK, SyntaxKind::WHITESPACE, SyntaxKind::END]
    );
    let first = root.first_token().expect("first");
    let back = first.siblings_with_tokens(lua_parser::Direction::Prev);
    assert_eq!(back.len(), 1);

    // the root-ward walk from an element
    let ident_el = descendants[4].as_token().expect("ident token");
    let elem = lua_parser::SyntaxElement::Token(ident_el.clone());
    let up: Vec<SyntaxKind> = elem.ancestors().iter().map(|n| n.kind()).collect();
    assert_eq!(up, vec![SyntaxKind::BLOCK, SyntaxKind::CHUNK]);
}
