pub mod diagnostic;
pub mod parse_tree;
pub mod source;
pub mod token;
pub mod text;
