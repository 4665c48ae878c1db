use vstd::prelude::*;

use crate::parser::parse_tree::grammar::{CastOperatorView, lemma_view_casts_push, expected_view, g_cast, g_cast_expect, g_cast_operator, g_cast_operators, g_cast_operators_from, g_prefix, g_ty_expect, input_of, lemma_expect_parse_view, parsed_view, state_of, view_cast_operator, view_casts, view_expr};

use crate::parser::{
    diagnostic::{Diagnostics, FatalParsingError},
    parse_tree::{
        expect_parse, expect_parse_post, expr::{operator::prefix::PrefixOperationExpr, Expr},
        items_post, lemma_next_token, lemma_parse_step_trans, lemma_took_nothing, next_token, parse_step, took_nothing,
        starts_expr, starts_ty, token_after, try_keyword, try_parse_post, ty::Ty, Expectation, MismatchHandling,
    },
    source::{group_index_nonneg, Spanned},
    token::{keyword::Keyword, lemma_tokenizer_measure_nonneg, TokenKind, Tokenizer},
};

verus! {

broadcast use {group_index_nonneg, lemma_parse_step_trans, lemma_tokenizer_measure_nonneg, lemma_next_token};

/// `as` and the type to cast to.
pub struct CastOperator<'a> {
    pub ty: Spanned<'a, Ty<'a>>,
}

/// An expression followed by one or more casts.
pub struct CastOperationExpression<'a> {
    pub expr: Box<Spanned<'a, Expr<'a>>>,
    pub casts: Spanned<'a, Vec<Spanned<'a, CastOperator<'a>>>>,
}

impl<'a> CastOperator<'a> {
    /// Parses `as` and a type, if the next token is `as`.
    pub fn try_parse(tokenizer: &mut Tokenizer<'a>, diagnostics: &mut Diagnostics<'a>) -> (r: Result<
        Option<Spanned<'a, Self>>,
        FatalParsingError,
    >)
        requires
            old(tokenizer).wf(),
            old(diagnostics).wf(),
        ensures
            (parsed_view(r, |x: CastOperator<'a>| view_cast_operator(x)), state_of(*final(tokenizer), *final(diagnostics))) == g_cast_operator(input_of(*old(tokenizer)), state_of(*old(tokenizer), *old(diagnostics))),
            try_parse_post(
                *old(tokenizer),
                *final(tokenizer),
                *old(diagnostics),
                *final(diagnostics),
                r,
                next_token(*old(tokenizer)).kind == TokenKind::Keyword(Keyword::As),
            ),
            r matches Ok(Some(x)) ==> x.value.ty.span.start() == token_after(*old(tokenizer)).span.start()
                && (x.value.ty.value is Error <==> !starts_ty(token_after(*old(tokenizer)).kind)),
        decreases old(tokenizer).measure(), 15int,
    {
        proof {
            reveal_with_fuel(g_cast_operator, 1);
            reveal_with_fuel(g_ty_expect, 1);
        }
        let ghost t0 = *tokenizer;
        let start = match try_keyword(tokenizer, diagnostics, Keyword::As) {
            Some(start) => start,
            None => return Ok(None),
        };
        assert(next_token(*tokenizer) == token_after(t0));
        let ty = Ty::expect_parse(tokenizer, diagnostics, MismatchHandling::ConsumeUntilSafe)?;
        let span = start.join(ty.span);
        Ok(Some(span.into_spanned(Self { ty })))
    }

    /// Parses casts as long as there are any; `None` when there is none.
    pub fn try_many(tokenizer: &mut Tokenizer<'a>, diagnostics: &mut Diagnostics<'a>) -> (r: Result<
        Option<Spanned<'a, Vec<Spanned<'a, Self>>>>,
        FatalParsingError,
    >)
        requires
            old(tokenizer).wf(),
            old(diagnostics).wf(),
        ensures
            (parsed_view(r, |x: Vec<Spanned<'a, CastOperator<'a>>>| view_casts(x@)), state_of(*final(tokenizer), *final(diagnostics))) == g_cast_operators(input_of(*old(tokenizer)), state_of(*old(tokenizer), *old(diagnostics))),
            try_parse_post(
                *old(tokenizer),
                *final(tokenizer),
                *old(diagnostics),
                *final(diagnostics),
                r,
                next_token(*old(tokenizer)).kind == TokenKind::Keyword(Keyword::As),
            ),
        decreases old(tokenizer).measure(), 16int,
    {
        proof {
            reveal_with_fuel(g_cast_operators, 1);
            reveal_with_fuel(g_cast_operators_from, 1);
        }
        let ghost t0 = *tokenizer;
        let ghost d0 = *diagnostics;
        let ghost c = input_of(t0);
        let mut values: Vec<Spanned<'a, Self>> = Vec::new();
        proof {
            lemma_view_casts_push(values@, arbitrary());
        }
        loop
            invariant_except_break
                values.len() == 0 ==> *tokenizer == t0 && *diagnostics == d0,
                g_cast_operators_from(c, state_of(t0, d0), Seq::empty()) == g_cast_operators_from(
                    c,
                    state_of(*tokenizer, *diagnostics),
                    view_casts(values@),
                ),
            invariant
                c == input_of(t0),
                t0 == *old(tokenizer),
                d0 == *old(diagnostics),
                t0.wf(),
                d0.wf(),
                parse_step(t0, *tokenizer, d0, *diagnostics),
                values.len() > 0 ==> items_post(t0, *tokenizer, values@)
                    && next_token(t0).kind == TokenKind::Keyword(Keyword::As),
            ensures
                g_cast_operators_from(c, state_of(t0, d0), Seq::empty()) == (
                    Ok::<Seq<Spanned<'a, CastOperatorView<'a>>>, FatalParsingError>(view_casts(values@)),
                    state_of(*tokenizer, *diagnostics),
                ),
                parse_step(t0, *tokenizer, d0, *diagnostics),
                values.len() == 0 ==> took_nothing(t0, *tokenizer, d0@, diagnostics@)
                    && next_token(t0).kind != TokenKind::Keyword(Keyword::As),
                values.len() > 0 ==> items_post(t0, *tokenizer, values@)
                    && next_token(t0).kind == TokenKind::Keyword(Keyword::As),
            decreases tokenizer.measure(),
        {
            proof {
                reveal_with_fuel(g_cast_operators, 1);
                reveal_with_fuel(g_cast_operators_from, 1);
                reveal_with_fuel(g_cast_operator, 1);
                tokenizer.lemma_wf();
            }
            let ghost before = values@;
            let value = match Self::try_parse(tokenizer, diagnostics)? {
                Some(value) => value,
                None => break,
            };
            values.push(value);
            proof {
                lemma_view_casts_push(before, value);
                tokenizer.lemma_wf();
            }
        }
        if values.len() == 0 {
            return Ok(None);
        }
        let span = values[0].span.join(values[values.len() - 1].span);
        Ok(Some(span.into_spanned(values)))
    }
}

impl<'a> CastOperationExpression<'a> {
    /// Parses a prefix expression and the casts after it; without casts, the prefix
    /// expression is returned as it is.
    pub fn try_parse(tokenizer: &mut Tokenizer<'a>, diagnostics: &mut Diagnostics<'a>) -> (r: Result<
        Option<Spanned<'a, Expr<'a>>>,
        FatalParsingError,
    >)
        requires
            old(tokenizer).wf(),
            old(diagnostics).wf(),
        ensures
            (parsed_view(r, |x: Expr<'a>| view_expr(x)), state_of(*final(tokenizer), *final(diagnostics))) == g_cast(input_of(*old(tokenizer)), state_of(*old(tokenizer), *old(diagnostics))),
            try_parse_post(
                *old(tokenizer),
                *final(tokenizer),
                *old(diagnostics),
                *final(diagnostics),
                r,
                starts_expr(next_token(*old(tokenizer)).kind),
            ),
        decreases old(tokenizer).measure(), 25int,
    {
        proof {
            reveal_with_fuel(g_cast, 1);
            reveal_with_fuel(g_cast_operators, 1);
            reveal_with_fuel(g_prefix, 1);
        }
        let expr = match PrefixOperationExpr::try_parse(tokenizer, diagnostics)? {
            Some(expr) => expr,
            None => return Ok(None),
        };
        if let Some(casts) = CastOperator::try_many(tokenizer, diagnostics)? {
            let span = expr.span.join(casts.span);
            return Ok(Some(span.into_spanned(Expr::CastOperation(Self { expr: Box::new(expr), casts }))));
        }
        Ok(Some(expr))
    }

    /// Parses a cast expression; where there is none, reports an expected expression,
    /// recovers as `mismatch_handling` says, and returns `Expr::Error`.
    pub fn expect_parse(
        tokenizer: &mut Tokenizer<'a>,
        diagnostics: &mut Diagnostics<'a>,
        mismatch_handling: MismatchHandling,
    ) -> (r: Result<Spanned<'a, Expr<'a>>, FatalParsingError>)
        requires
            old(tokenizer).wf(),
            old(diagnostics).wf(),
        ensures
            (expected_view(r, |x: Expr<'a>| view_expr(x)), state_of(*final(tokenizer), *final(diagnostics))) == g_cast_expect(input_of(*old(tokenizer)), state_of(*old(tokenizer), *old(diagnostics)), mismatch_handling),
            expect_parse_post(*old(tokenizer), *final(tokenizer), *old(diagnostics), *final(diagnostics), r),
        decreases old(tokenizer).measure(), 26int,
    {
        proof {
            reveal_with_fuel(g_cast_expect, 1);
            reveal_with_fuel(g_cast, 1);
        }
        let ghost t0 = *tokenizer;
        let ghost d0 = *diagnostics;
        let parsed = Self::try_parse(tokenizer, diagnostics)?;
        proof {
            if parsed is None {
                lemma_took_nothing(t0, *tokenizer, d0, *diagnostics);
            }
        }
        proof {
            lemma_expect_parse_view(
                input_of(*tokenizer),
                state_of(*tokenizer, *diagnostics),
                mismatch_handling,
                parsed,
                Expectation::Expr, Expr::Error, |x: Expr<'a>| view_expr(x),
            );
        }
        expect_parse(tokenizer, diagnostics, mismatch_handling, parsed, Expectation::Expr, Expr::Error)
    }
}

} // verus!
