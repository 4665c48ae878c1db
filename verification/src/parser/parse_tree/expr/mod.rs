use vstd::prelude::*;

use crate::parser::parse_tree::grammar::{lemma_view_exprs_push, expected_view, g_expr, g_expr_expect, g_expr_list, g_expr_list_from, g_infix, input_of, lemma_expect_parse_view, parsed_view, state_of, view_expr, view_exprs};

pub mod atom;
pub mod construct;
pub mod literal;
pub mod operator;

use crate::parser::{
    diagnostic::{Diagnostics, FatalParsingError},
    parse_tree::{
        expect_parse, expect_parse_post, expect_symbol,
        expr::{
            atom::AtomExpr,
            operator::{
                cast::CastOperationExpression, infix::InfixOperationExpr,
                postfix::PostfixOperationExpr, prefix::PrefixOperationExpr,
            },
        },
        fatal_last, lemma_next_token, lemma_parse_step_trans, lemma_peek_outcome, lemma_took_nothing, next_token, parse_step, span_in,
        starts_expr, try_parse_post, try_symbol, Expectation, MismatchHandling,
    },
    source::{group_index_nonneg, SourceSpan, Spanned},
    token::{lemma_tokenizer_measure_nonneg, symbol::Symbol, TokenKind, Tokenizer},
};

verus! {

broadcast use {group_index_nonneg, lemma_parse_step_trans, lemma_tokenizer_measure_nonneg, lemma_next_token};

/// An expression. `Error` stands where an expression was expected and none was found.
pub enum Expr<'a> {
    PostfixOperation(PostfixOperationExpr<'a>),
    PrefixOperation(PrefixOperationExpr<'a>),
    InfixOperation(InfixOperationExpr<'a>),
    CastOperation(CastOperationExpression<'a>),
    Atom(AtomExpr<'a>),
    Error,
}

impl<'a> Expr<'a> {
    /// Parses an expression if the next token can start one.
    pub fn try_parse(tokenizer: &mut Tokenizer<'a>, diagnostics: &mut Diagnostics<'a>) -> (r: Result<
        Option<Spanned<'a, Self>>,
        FatalParsingError,
    >)
        requires
            old(tokenizer).wf(),
            old(diagnostics).wf(),
        ensures
            (parsed_view(r, |x: Expr<'a>| view_expr(x)), state_of(*final(tokenizer), *final(diagnostics))) == g_expr(input_of(*old(tokenizer)), state_of(*old(tokenizer), *old(diagnostics))),
            try_parse_post(
                *old(tokenizer),
                *final(tokenizer),
                *old(diagnostics),
                *final(diagnostics),
                r,
                starts_expr(next_token(*old(tokenizer)).kind),
            ),
        decreases old(tokenizer).measure(), 29int,
    {
        proof {
            reveal_with_fuel(g_expr, 1);
            reveal_with_fuel(g_infix, 1);
        }
        InfixOperationExpr::try_parse(tokenizer, diagnostics, 0)
    }

    /// Parses an expression; where there is none, reports it, recovers as
    /// `mismatch_handling` says, and returns `Error`.
    pub fn expect_parse(
        tokenizer: &mut Tokenizer<'a>,
        diagnostics: &mut Diagnostics<'a>,
        mismatch_handling: MismatchHandling,
    ) -> (r: Result<Spanned<'a, Self>, FatalParsingError>)
        requires
            old(tokenizer).wf(),
            old(diagnostics).wf(),
        ensures
            (expected_view(r, |x: Expr<'a>| view_expr(x)), state_of(*final(tokenizer), *final(diagnostics))) == g_expr_expect(input_of(*old(tokenizer)), state_of(*old(tokenizer), *old(diagnostics)), mismatch_handling),
            expect_parse_post(*old(tokenizer), *final(tokenizer), *old(diagnostics), *final(diagnostics), r),
        decreases old(tokenizer).measure(), 30int,
    {
        proof {
            reveal_with_fuel(g_expr_expect, 1);
            reveal_with_fuel(g_expr, 1);
        }
        let ghost t0 = *tokenizer;
        let ghost d0 = *diagnostics;
        let parsed = Self::try_parse(tokenizer, diagnostics)?;
        proof {
            if parsed is None {
                lemma_took_nothing(t0, *tokenizer, d0, *diagnostics);
            }
        }
        proof {
            lemma_expect_parse_view(
                input_of(*tokenizer),
                state_of(*tokenizer, *diagnostics),
                mismatch_handling,
                parsed,
                Expectation::Expr, Self::Error, |x: Expr<'a>| view_expr(x),
            );
        }
        expect_parse(tokenizer, diagnostics, mismatch_handling, parsed, Expectation::Expr, Self::Error)
    }

    /// Parses `(`, expressions separated by `,` (a trailing `,` allowed), and `)`, if the
    /// next token is `(`.
    pub fn try_list(tokenizer: &mut Tokenizer<'a>, diagnostics: &mut Diagnostics<'a>) -> (r: Result<
        Option<Spanned<'a, Vec<Spanned<'a, Self>>>>,
        FatalParsingError,
    >)
        requires
            old(tokenizer).wf(),
            old(diagnostics).wf(),
        ensures
            (parsed_view(r, |x: Vec<Spanned<'a, Expr<'a>>>| view_exprs(x@)), state_of(*final(tokenizer), *final(diagnostics))) == g_expr_list(input_of(*old(tokenizer)), state_of(*old(tokenizer), *old(diagnostics))),
            try_parse_post(
                *old(tokenizer),
                *final(tokenizer),
                *old(diagnostics),
                *final(diagnostics),
                r,
                next_token(*old(tokenizer)).kind == TokenKind::Symbol(Symbol::ParenOpen),
            ),
        decreases old(tokenizer).measure(), 17int,
    {
        proof {
            reveal_with_fuel(g_expr_list, 1);
            reveal_with_fuel(g_expr_list_from, 1);
        }
        let ghost t0 = *tokenizer;
        proof {
            lemma_peek_outcome(t0);
        }
        let start = match try_symbol(tokenizer, diagnostics, Symbol::ParenOpen) {
            Some(start) => start,
            None => return Ok(None),
        };
        let list = Self::parse_list_rest(tokenizer, diagnostics, start, Symbol::ParenClose)?;
        Ok(Some(list))
    }

    /// Parses the rest of a list of expressions that began with `start` (which the tokenizer
    /// has passed) and ends with `close`: expressions separated by `,` (a trailing `,`
    /// allowed), and `close`. Where the list does not go on with `,` or `close`, that is
    /// reported and the token taken.
    pub fn parse_list_rest(
        tokenizer: &mut Tokenizer<'a>,
        diagnostics: &mut Diagnostics<'a>,
        start: SourceSpan<'a>,
        close: Symbol,
    ) -> (r: Result<Spanned<'a, Vec<Spanned<'a, Self>>>, FatalParsingError>)
        requires
            old(tokenizer).wf(),
            old(diagnostics).wf(),
            span_in(*old(tokenizer), start),
            start.end() <= old(tokenizer).pos(),
        ensures
            (expected_view(r, |x: Vec<Spanned<'a, Expr<'a>>>| view_exprs(x@)), state_of(*final(tokenizer), *final(diagnostics))) == g_expr_list_from(input_of(*old(tokenizer)), state_of(*old(tokenizer), *old(diagnostics)), start, close, Seq::empty()),
            parse_step(*old(tokenizer), *final(tokenizer), *old(diagnostics), *final(diagnostics)),
            r matches Ok(x) ==> span_in(*old(tokenizer), x.span) && x.span.start() == start.start()
                && final(tokenizer).pos() >= x.span.start(),
            r is Err ==> fatal_last(final(diagnostics)@),
        decreases old(tokenizer).measure(), 31int,
    {
        proof {
            reveal_with_fuel(g_expr_list_from, 1);
            reveal_with_fuel(g_expr_expect, 1);
        }
        let ghost t0 = *tokenizer;
        let ghost d0 = *diagnostics;
        let ghost c = input_of(t0);
        let ghost target = g_expr_list_from(c, state_of(t0, d0), start, close, Seq::empty());
        proof {
            tokenizer.lemma_wf();
        }
        let mut values: Vec<Spanned<'a, Self>> = Vec::new();
        proof {
            lemma_view_exprs_push(values@, arbitrary());
        }
        loop
            invariant
                c == input_of(t0),
                g_expr_list_from(c, state_of(*tokenizer, *diagnostics), start, close, view_exprs(values@)) == target,
                target == g_expr_list_from(c, state_of(t0, d0), start, close, Seq::empty()),
                t0 == *old(tokenizer),
                d0 == *old(diagnostics),
                t0.wf(),
                parse_step(t0, *tokenizer, d0, *diagnostics),
                tokenizer.pos() >= start.end(),
                span_in(t0, start),
            decreases tokenizer.measure(),
        {
            proof {
                reveal_with_fuel(g_expr_list_from, 1);
                reveal_with_fuel(g_expr_expect, 1);
                tokenizer.lemma_wf();
            }
            let ghost before = values@;
            if let Some(end) = try_symbol(tokenizer, diagnostics, close) {
                return Ok(start.join(end).into_spanned(values));
            }
            let value = Self::expect_parse(tokenizer, diagnostics, MismatchHandling::ConsumeUntilSafe)?;
            values.push(value);
            proof {
                lemma_view_exprs_push(before, value);
                tokenizer.lemma_wf();
            }
            if try_symbol(tokenizer, diagnostics, Symbol::Comma).is_some() {
                continue;
            }
            let end = expect_symbol(tokenizer, diagnostics, close, MismatchHandling::Consume)?;
            return Ok(start.join(end).into_spanned(values));
        }
    }
}

} // verus!
