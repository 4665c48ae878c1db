pub mod cast;
pub mod infix;
pub mod postfix;
pub mod prefix;
