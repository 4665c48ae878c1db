use vstd::prelude::*;

use crate::parser::parse_tree::grammar::{g_list_outcome_matches, expected_view, g_expr_expect, g_generic, g_generic_expect, g_generic_expect_list, g_generic_list, g_generic_list_from, g_ty, input_of, lemma_expect_parse_view, lemma_view_generics_push, parsed_view, state_of, view_generic, view_generics};

use crate::parser::{
    diagnostic::{Diagnostics, FatalParsingError},
    parse_tree::{
        expect_parse, expect_parse_post, expect_symbol, expr::Expr, parse_step, lemma_next_token,
        lemma_parse_step_trans, lemma_took_nothing, lemma_took_nothing_trans, next_token, span_in,
        starts_generic_argument, try_keyword, try_parse_post, try_symbol, ty::Ty, Expectation,
        MismatchHandling,
    },
    source::{group_index_nonneg, Spanned},
    token::{keyword::Keyword, lemma_tokenizer_measure_nonneg, symbol::Symbol, TokenKind, Tokenizer},
};

verus! {

broadcast use {group_index_nonneg, lemma_parse_step_trans, lemma_tokenizer_measure_nonneg, lemma_next_token};

/// A generic argument: a type, or `const` and an expression. `Error` stands where one was
/// expected and none was found.
pub enum GenericArgument<'a> {
    Ty(Spanned<'a, Ty<'a>>),
    Const(Spanned<'a, Expr<'a>>),
    Error,
}

impl<'a> GenericArgument<'a> {
    /// Parses `const` and an expression, or a type.
    pub fn try_parse(tokenizer: &mut Tokenizer<'a>, diagnostics: &mut Diagnostics<'a>) -> (r: Result<
        Option<Spanned<'a, Self>>,
        FatalParsingError,
    >)
        requires
            old(tokenizer).wf(),
            old(diagnostics).wf(),
        ensures
            (parsed_view(r, |x: GenericArgument<'a>| view_generic(x)), state_of(*final(tokenizer), *final(diagnostics))) == g_generic(input_of(*old(tokenizer)), state_of(*old(tokenizer), *old(diagnostics))),
            try_parse_post(
                *old(tokenizer),
                *final(tokenizer),
                *old(diagnostics),
                *final(diagnostics),
                r,
                starts_generic_argument(next_token(*old(tokenizer)).kind),
            ),
            r matches Ok(Some(x)) ==> (x.value is Const <==> next_token(*old(tokenizer)).kind
                == TokenKind::Keyword(Keyword::Const)) && !(x.value is Error),
        decreases old(tokenizer).measure(), 12int,
    {
        proof {
            reveal_with_fuel(g_generic, 1);
            reveal_with_fuel(g_expr_expect, 1);
            reveal_with_fuel(g_ty, 1);
        }
        let ghost t0 = *tokenizer;
        let ghost d0 = *diagnostics;
        if let Some(start) = try_keyword(tokenizer, diagnostics, Keyword::Const) {
            let expr = Expr::expect_parse(tokenizer, diagnostics, MismatchHandling::ConsumeUntilSafe)?;
            return Ok(Some(start.join(expr.span).into_spanned(Self::Const(expr))));
        }
        proof {
            lemma_took_nothing(t0, *tokenizer, d0, *diagnostics);
        }
        let ghost t1 = *tokenizer;
        let ghost d1 = *diagnostics;
        let ty = match Ty::try_parse(tokenizer, diagnostics)? {
            Some(ty) => ty,
            None => {
                proof {
                    lemma_took_nothing_trans(t0, t1, *tokenizer, d0, d1, *diagnostics);
                }
                return Ok(None);
            },
        };
        Ok(Some(Spanned { span: ty.span, value: Self::Ty(ty) }))
    }

    /// Parses a generic argument; where there is none, reports it, recovers as
    /// `mismatch_handling` says, and returns `Error`.
    pub fn expect_parse(
        tokenizer: &mut Tokenizer<'a>,
        diagnostics: &mut Diagnostics<'a>,
        mismatch_handling: MismatchHandling,
    ) -> (r: Result<Spanned<'a, Self>, FatalParsingError>)
        requires
            old(tokenizer).wf(),
            old(diagnostics).wf(),
        ensures
            (expected_view(r, |x: GenericArgument<'a>| view_generic(x)), state_of(*final(tokenizer), *final(diagnostics))) == g_generic_expect(input_of(*old(tokenizer)), state_of(*old(tokenizer), *old(diagnostics)), mismatch_handling),
            expect_parse_post(*old(tokenizer), *final(tokenizer), *old(diagnostics), *final(diagnostics), r),
            r matches Ok(x) ==> (x.value is Error <==> !starts_generic_argument(
                next_token(*old(tokenizer)).kind,
            )),
        decreases old(tokenizer).measure(), 13int,
    {
        proof {
            reveal_with_fuel(g_generic_expect, 1);
            reveal_with_fuel(g_generic, 1);
        }
        let ghost t0 = *tokenizer;
        let ghost d0 = *diagnostics;
        let parsed = Self::try_parse(tokenizer, diagnostics)?;
        proof {
            if parsed is None {
                lemma_took_nothing(t0, *tokenizer, d0, *diagnostics);
            }
        }
        proof {
            lemma_expect_parse_view(
                input_of(*tokenizer),
                state_of(*tokenizer, *diagnostics),
                mismatch_handling,
                parsed,
                Expectation::GenericArgument, Self::Error, |x: GenericArgument<'a>| view_generic(x),
            );
        }
        expect_parse(tokenizer, diagnostics, mismatch_handling, parsed, Expectation::GenericArgument, Self::Error)
    }

    /// Parses `[`, generic arguments separated by `,` (a trailing `,` allowed), and `]`,
    /// if the next token is `[`.
    pub fn try_list(tokenizer: &mut Tokenizer<'a>, diagnostics: &mut Diagnostics<'a>) -> (r: Result<
        Option<Spanned<'a, Vec<Spanned<'a, Self>>>>,
        FatalParsingError,
    >)
        requires
            old(tokenizer).wf(),
            old(diagnostics).wf(),
        ensures
            (parsed_view(r, |x: Vec<Spanned<'a, GenericArgument<'a>>>| view_generics(x@)), state_of(*final(tokenizer), *final(diagnostics))) == g_generic_list(input_of(*old(tokenizer)), state_of(*old(tokenizer), *old(diagnostics))),
            try_parse_post(
                *old(tokenizer),
                *final(tokenizer),
                *old(diagnostics),
                *final(diagnostics),
                r,
                next_token(*old(tokenizer)).kind == TokenKind::Symbol(Symbol::BracketOpen),
            ),
        decreases old(tokenizer).measure(), 4int,
    {
        proof {
            reveal_with_fuel(g_generic_list, 1);
            reveal_with_fuel(g_generic_list_from, 1);
        }
        let ghost t0 = *tokenizer;
        let ghost d0 = *diagnostics;
        let start = match try_symbol(tokenizer, diagnostics, Symbol::BracketOpen) {
            Some(start) => start,
            None => return Ok(None),
        };
        let ghost c = input_of(t0);
        let ghost target = g_generic_list_from(c, state_of(*tokenizer, *diagnostics), start, Seq::empty());
        proof {
            tokenizer.lemma_wf();
            assert(g_list_outcome_matches(g_generic_list(c, state_of(t0, d0)), target));
        }
        let mut values: Vec<Spanned<'a, Self>> = Vec::new();
        proof {
            lemma_view_generics_push(values@, arbitrary());
        }
        loop
            invariant
                c == input_of(t0),
                g_generic_list_from(c, state_of(*tokenizer, *diagnostics), start, view_generics(values@)) == target,
                g_list_outcome_matches(g_generic_list(c, state_of(t0, d0)), target),
                t0 == *old(tokenizer),
                d0 == *old(diagnostics),
                next_token(t0).kind == TokenKind::Symbol(Symbol::BracketOpen),
                t0.wf(),
                parse_step(t0, *tokenizer, d0, *diagnostics),
                tokenizer.measure() < t0.measure(),
                tokenizer.pos() >= start.end(),
                span_in(t0, start),
                start.start() == next_token(t0).span.start(),
            decreases tokenizer.measure(),
        {
            proof {
                reveal_with_fuel(g_generic_list_from, 1);
                reveal_with_fuel(g_generic_expect, 1);
                tokenizer.lemma_wf();
            }
            let ghost before = values@;
            if let Some(end) = try_symbol(tokenizer, diagnostics, Symbol::BracketClose) {
                return Ok(Some(start.join(end).into_spanned(values)));
            }
            let value = Self::expect_parse(tokenizer, diagnostics, MismatchHandling::ConsumeUntilSafe)?;
            values.push(value);
            proof {
                lemma_view_generics_push(before, value);
                tokenizer.lemma_wf();
            }
            if try_symbol(tokenizer, diagnostics, Symbol::Comma).is_some() {
                continue;
            }
            let end = expect_symbol(tokenizer, diagnostics, Symbol::BracketClose, MismatchHandling::Consume)?;
            return Ok(Some(start.join(end).into_spanned(values)));
        }
    }

    /// Parses a list of generic arguments; where there is none, reports it, recovers as
    /// `mismatch_handling` says, and returns an empty list.
    pub fn expect_list(
        tokenizer: &mut Tokenizer<'a>,
        diagnostics: &mut Diagnostics<'a>,
        mismatch_handling: MismatchHandling,
    ) -> (r: Result<Spanned<'a, Vec<Spanned<'a, Self>>>, FatalParsingError>)
        requires
            old(tokenizer).wf(),
            old(diagnostics).wf(),
        ensures
            (expected_view(r, |x: Vec<Spanned<'a, GenericArgument<'a>>>| view_generics(x@)), state_of(*final(tokenizer), *final(diagnostics))) == g_generic_expect_list(input_of(*old(tokenizer)), state_of(*old(tokenizer), *old(diagnostics)), mismatch_handling),
            expect_parse_post(*old(tokenizer), *final(tokenizer), *old(diagnostics), *final(diagnostics), r),
        decreases old(tokenizer).measure(), 14int,
    {
        proof {
            reveal_with_fuel(g_generic_expect_list, 1);
            reveal_with_fuel(g_generic_list, 1);
        }
        let ghost t0 = *tokenizer;
        let ghost d0 = *diagnostics;
        let parsed = Self::try_list(tokenizer, diagnostics)?;
        proof {
            if parsed is None {
                lemma_took_nothing(t0, *tokenizer, d0, *diagnostics);
            }
        }
        let fallback: Vec<Spanned<'a, Self>> = Vec::new();
        proof {
            lemma_expect_parse_view(
                input_of(*tokenizer),
                state_of(*tokenizer, *diagnostics),
                mismatch_handling,
                parsed,
                Expectation::GenericArgument,
                fallback,
                |x: Vec<Spanned<'a, GenericArgument<'a>>>| view_generics(x@),
            );
            lemma_view_generics_push(fallback@, arbitrary());
        }
        expect_parse(tokenizer, diagnostics, mismatch_handling, parsed, Expectation::GenericArgument, fallback)
    }
}

} // verus!
