use vstd::prelude::*;

use crate::parser::parse_tree::grammar::{g_expr_expect, g_ty_expect, g_vector, input_of, parsed_view, state_of, view_vector};

use crate::parser::{
    diagnostic::{Diagnostics, FatalParsingError},
    parse_tree::{
        expect_symbol, expr::Expr, lemma_next_token, lemma_parse_step_trans, lemma_took_nothing,
        lemma_took_nothing_trans, next_token, starts_vector, try_parse_post, try_pseudo_keyword,
        try_symbol, ty::Ty, MismatchHandling,
    },
    source::{group_index_nonneg, Spanned},
    token::{ident::PseudoKeyword, lemma_tokenizer_measure_nonneg, symbol::Symbol, Tokenizer},
};

verus! {

broadcast use {group_index_nonneg, lemma_parse_step_trans, lemma_tokenizer_measure_nonneg, lemma_next_token};

/// Whether a shaped type is a vector (`vec`) or a matrix (`mat`).
#[derive(Clone, Copy, Debug, PartialEq, Eq, Structural)]
pub enum VectorKind {
    Vector,
    Matrix,
}

/// A vector type `vec[T; N]`, a square matrix type `mat[T; N]`, or a rectangular matrix
/// type `mat[T; C, R]` (`len` is then the column count and `rows` the row count).
pub struct VectorTy<'a> {
    pub kind: VectorKind,
    pub elem: Box<Spanned<'a, Ty<'a>>>,
    pub len: Spanned<'a, Expr<'a>>,
    pub rows: Option<Spanned<'a, Expr<'a>>>,
}

impl<'a> VectorTy<'a> {
    /// Parses `vec` or `mat`, `[`, the element type, `;`, a length, for a matrix an
    /// optional `,` and row count, and `]`, if the next token is `vec` or `mat`.
    pub fn try_parse(tokenizer: &mut Tokenizer<'a>, diagnostics: &mut Diagnostics<'a>) -> (r: Result<
        Option<Spanned<'a, Self>>,
        FatalParsingError,
    >)
        requires
            old(tokenizer).wf(),
            old(diagnostics).wf(),
        ensures
            (parsed_view(r, |x: VectorTy<'a>| view_vector(x)), state_of(*final(tokenizer), *final(diagnostics))) == g_vector(input_of(*old(tokenizer)), state_of(*old(tokenizer), *old(diagnostics))),
            try_parse_post(
                *old(tokenizer),
                *final(tokenizer),
                *old(diagnostics),
                *final(diagnostics),
                r,
                starts_vector(next_token(*old(tokenizer)).kind),
            ),
            r matches Ok(Some(x)) ==> (x.value.kind == VectorKind::Vector <==> next_token(*old(tokenizer)).kind
                == crate::parser::token::TokenKind::Identifier(Some(PseudoKeyword::Vec))),
            r matches Ok(Some(x)) ==> (x.value.kind == VectorKind::Vector ==> x.value.rows is None),
        decreases old(tokenizer).measure(), 3int,
    {
        proof {
            reveal_with_fuel(g_vector, 1);
            reveal_with_fuel(g_ty_expect, 1);
            reveal_with_fuel(g_expr_expect, 1);
        }
        let ghost t0 = *tokenizer;
        let ghost d0 = *diagnostics;
        let (start, kind) = match try_pseudo_keyword(tokenizer, diagnostics, PseudoKeyword::Vec) {
            Some(start) => (start, VectorKind::Vector),
            None => {
                let ghost t1 = *tokenizer;
                let ghost d1 = *diagnostics;
                proof {
                    lemma_took_nothing(t0, t1, d0, d1);
                }
                match try_pseudo_keyword(tokenizer, diagnostics, PseudoKeyword::Mat) {
                    Some(start) => (start, VectorKind::Matrix),
                    None => {
                        proof {
                            lemma_took_nothing_trans(t0, t1, *tokenizer, d0, d1, *diagnostics);
                        }
                        return Ok(None);
                    },
                }
            },
        };
        expect_symbol(tokenizer, diagnostics, Symbol::BracketOpen, MismatchHandling::Consume)?;
        let elem = Ty::expect_parse(tokenizer, diagnostics, MismatchHandling::ConsumeUntilSafe)?;
        expect_symbol(tokenizer, diagnostics, Symbol::Semicolon, MismatchHandling::Skip)?;
        let len = Expr::expect_parse(tokenizer, diagnostics, MismatchHandling::ConsumeUntilSafe)?;
        let comma = match kind {
            VectorKind::Matrix => try_symbol(tokenizer, diagnostics, Symbol::Comma),
            VectorKind::Vector => None,
        };
        let rows = match comma {
            Some(_) => Some(Expr::expect_parse(tokenizer, diagnostics, MismatchHandling::ConsumeUntilSafe)?),
            None => None,
        };
        let end = expect_symbol(tokenizer, diagnostics, Symbol::BracketClose, MismatchHandling::Consume)?;
        Ok(Some(start.join(end).into_spanned(Self { kind, elem: Box::new(elem), len, rows })))
    }
}

} // verus!
