use vstd::prelude::*;

use crate::parser::parse_tree::grammar::{g_expr_expect, g_slice, g_ty_expect, input_of, parsed_view, state_of, view_slice};

use crate::parser::{
    diagnostic::{Diagnostics, FatalParsingError},
    parse_tree::{
        expect_symbol, expr::Expr, lemma_peek_outcome, lemma_parse_step_trans, next_token, starts_ty, token_after,
        try_parse_post, try_symbol, ty::Ty, MismatchHandling,
    },
    source::{group_index_nonneg, Spanned},
    token::{lemma_tokenizer_measure_nonneg, symbol::Symbol, TokenKind, Tokenizer},
};

verus! {

broadcast use {group_index_nonneg, lemma_parse_step_trans, lemma_tokenizer_measure_nonneg};

/// A slice type `[T]`, or an array type `[T; N]`.
pub struct SliceTy<'a> {
    pub base: Box<Spanned<'a, Ty<'a>>>,
    pub len: Option<Spanned<'a, Expr<'a>>>,
}

impl<'a> SliceTy<'a> {
    /// Parses `[`, a type, an optional `;` and length, and `]`, if the next token is `[`.
    pub fn try_parse(tokenizer: &mut Tokenizer<'a>, diagnostics: &mut Diagnostics<'a>) -> (r: Result<
        Option<Spanned<'a, Self>>,
        FatalParsingError,
    >)
        requires
            old(tokenizer).wf(),
            old(diagnostics).wf(),
        ensures
            (parsed_view(r, |x: SliceTy<'a>| view_slice(x)), state_of(*final(tokenizer), *final(diagnostics))) == g_slice(input_of(*old(tokenizer)), state_of(*old(tokenizer), *old(diagnostics))),
            try_parse_post(
                *old(tokenizer),
                *final(tokenizer),
                *old(diagnostics),
                *final(diagnostics),
                r,
                next_token(*old(tokenizer)).kind == TokenKind::Symbol(Symbol::BracketOpen),
            ),
            r matches Ok(Some(x)) ==> x.value.base.span.start() == token_after(*old(tokenizer)).span.start()
                && (x.value.base.value is Error <==> !starts_ty(token_after(*old(tokenizer)).kind)),
        decreases old(tokenizer).measure(), 3int,
    {
        proof {
            reveal_with_fuel(g_slice, 1);
            reveal_with_fuel(g_expr_expect, 1);
            reveal_with_fuel(g_ty_expect, 1);
        }
        let ghost t0 = *tokenizer;
        proof {
            lemma_peek_outcome(t0);
        }
        let start = match try_symbol(tokenizer, diagnostics, Symbol::BracketOpen) {
            Some(start) => start,
            None => return Ok(None),
        };
        let ghost t1 = *tokenizer;
        assert(next_token(t1) == token_after(t0));
        let base = Ty::expect_parse(tokenizer, diagnostics, MismatchHandling::ConsumeUntilSafe)?;
        let len = if try_symbol(tokenizer, diagnostics, Symbol::Semicolon).is_some() {
            Some(Expr::expect_parse(tokenizer, diagnostics, MismatchHandling::ConsumeUntilSafe)?)
        } else {
            None
        };
        let end = expect_symbol(tokenizer, diagnostics, Symbol::BracketClose, MismatchHandling::Consume)?;
        assert(t1.pos() >= start.end());
        Ok(Some(start.join(end).into_spanned(Self { base: Box::new(base), len })))
    }
}

} // verus!
