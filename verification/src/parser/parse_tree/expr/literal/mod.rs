use vstd::prelude::*;

use crate::parser::{
    source::{SourceSpan, Spanned},
    token::number::NumberLiteral,
};

verus! {

/// A literal value.
pub enum LiteralExpr<'a> {
    Number(Spanned<'a, NumberLiteral>),
    Boolean(Spanned<'a, bool>),
    SelfValue(SourceSpan<'a>),
}

} // verus!
