//! A parser for JavaScript text: it turns the token stream of the text
//! into a tree of program parts.
use vstd::prelude::*;

pub mod ast;
pub mod error;
pub mod labels;
pub mod scan;
pub mod lines;
pub mod parser;
pub mod tokens;

pub use crate::error::ParseError;
pub use crate::lines::{Line, Position};
pub use crate::parser::{Builder, CommentHandler, DefaultCommentHandler, Parser};

verus! {

} // verus!
