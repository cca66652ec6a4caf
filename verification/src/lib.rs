pub mod ast;
pub mod lexer;
pub mod syntax_error;
pub mod syntax_kind;
pub mod syntax_node;
pub mod syntax_text;
pub mod text_range;

pub use crate::ast::{Block, Chunk};
pub use crate::lexer::{tokenize, Token};
pub use crate::syntax_error::{Location, SyntaxError, SyntaxErrorKind};
pub use crate::syntax_kind::SyntaxKind;
pub use crate::syntax_node::{
    Direction, InsertPosition, SyntaxElement, SyntaxNode, SyntaxNodeWrapper, SyntaxToken,
    SyntaxTree, SyntaxTreeBuilder, WalkEvent,
};
pub use crate::syntax_text::{SyntaxText, SyntaxTextSlice};
pub use crate::text_range::{TextRange, TextUnit};

use vstd::prelude::*;

verus! {

/// A parse-level diagnostic message. Throughout the crate, every position,
/// length and offset is measured in characters; the one exception is the
/// `range` of a stored node, token or element, which reports the byte
/// positions the tree storage engine keeps.
#[derive(Debug, Clone, PartialEq, Eq, Hash)]
pub struct ParseError(pub String);

} // verus!
