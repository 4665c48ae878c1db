use vstd::prelude::*;

use crate::parser::parse_tree::grammar::{PostfixOperatorView, lemma_view_postfix_operators_push, expected_view, g_atom, g_expr_expect, g_expr_list, g_generic_expect_list, g_postfix, g_postfix_expect, g_postfix_operator, g_postfix_operators, g_postfix_operators_from, input_of, lemma_expect_parse_view, parsed_view, state_of, view_expr, view_postfix_operator, view_postfix_operators};

use crate::parser::{
    diagnostic::{Diagnostics, FatalParsingError},
    parse_tree::{
        expect_ident, expect_parse, expect_parse_post, expect_symbol,
        expr::{atom::AtomExpr, Expr}, ident_pseudo, items_post, token_after, parse_step, took_nothing, lemma_next_token, lemma_parse_step_trans, lemma_took_nothing,
        lemma_took_nothing_trans, next_token, starts_atom, symbol::generic::GenericArgument,
        try_parse_post, try_symbol, Expectation, MismatchHandling,
    },
    source::{group_index_nonneg, Spanned},
    token::{ident::PseudoKeyword, lemma_tokenizer_measure_nonneg, symbol::Symbol, TokenKind, Tokenizer},
};

verus! {

broadcast use {group_index_nonneg, lemma_parse_step_trans, lemma_tokenizer_measure_nonneg, lemma_next_token};

/// An operation written after its operand: field access, a call, indexing, or generic
/// arguments.
pub enum PostfixOperator<'a> {
    Field(Option<PseudoKeyword>),
    Invoke(Vec<Spanned<'a, Expr<'a>>>),
    Access(Box<Expr<'a>>),
    Generics(Vec<Spanned<'a, GenericArgument<'a>>>),
}

/// An atom followed by one or more postfix operations.
pub struct PostfixOperationExpr<'a> {
    pub operand: Box<Spanned<'a, Expr<'a>>>,
    pub operators: Spanned<'a, Vec<Spanned<'a, PostfixOperator<'a>>>>,
}

/// A postfix operation starts with `.`, `(`, `[` or `::`.
pub open spec fn starts_postfix_operator(k: TokenKind) -> bool {
    ||| k == TokenKind::Symbol(Symbol::Dot)
    ||| k == TokenKind::Symbol(Symbol::ParenOpen)
    ||| k == TokenKind::Symbol(Symbol::BracketOpen)
    ||| k == TokenKind::Symbol(Symbol::DoubleColon)
}

impl<'a> PostfixOperator<'a> {
    /// Parses `.` and a name, arguments `(..)`, an index `[..]`, or `::` and generic
    /// arguments.
    fn try_parse(tokenizer: &mut Tokenizer<'a>, diagnostics: &mut Diagnostics<'a>) -> (r: Result<
        Option<Spanned<'a, Self>>,
        FatalParsingError,
    >)
        requires
            old(tokenizer).wf(),
            old(diagnostics).wf(),
        ensures
            (parsed_view(r, |x: PostfixOperator<'a>| view_postfix_operator(x)), state_of(*final(tokenizer), *final(diagnostics))) == g_postfix_operator(input_of(*old(tokenizer)), state_of(*old(tokenizer), *old(diagnostics))),
            try_parse_post(
                *old(tokenizer),
                *final(tokenizer),
                *old(diagnostics),
                *final(diagnostics),
                r,
                starts_postfix_operator(next_token(*old(tokenizer)).kind),
            ),
            r matches Ok(Some(x)) ==> {
                let k = next_token(*old(tokenizer)).kind;
                &&& (x.value is Field <==> k == TokenKind::Symbol(Symbol::Dot))
                &&& (x.value is Invoke <==> k == TokenKind::Symbol(Symbol::ParenOpen))
                &&& (x.value is Access <==> k == TokenKind::Symbol(Symbol::BracketOpen))
                &&& (x.value is Generics <==> k == TokenKind::Symbol(Symbol::DoubleColon))
                &&& k == TokenKind::Symbol(Symbol::Dot) ==> x.value == PostfixOperator::<'a>::Field(
                    ident_pseudo(token_after(*old(tokenizer)).kind),
                )
            },
        decreases old(tokenizer).measure(), 18int,
    {
        proof {
            reveal_with_fuel(g_postfix_operator, 1);
            reveal_with_fuel(g_expr_expect, 1);
            reveal_with_fuel(g_expr_list, 1);
            reveal_with_fuel(g_generic_expect_list, 1);
        }
        let ghost t0 = *tokenizer;
        let ghost d0 = *diagnostics;
        if let Some(start) = try_symbol(tokenizer, diagnostics, Symbol::Dot) {
            let ghost ta = *tokenizer;
            let ident = expect_ident(tokenizer, diagnostics, MismatchHandling::Consume)?;
            assert(ident.span == next_token(ta).span);
            assert(ident.span.start() >= start.start());
            let span = start.join(ident.span);
            return Ok(Some(span.into_spanned(Self::Field(ident.value))));
        }
        let ghost t1 = *tokenizer;
        let ghost d1 = *diagnostics;
        proof {
            lemma_took_nothing(t0, t1, d0, d1);
        }
        if let Some(values) = Expr::try_list(tokenizer, diagnostics)? {
            return Ok(Some(Spanned { span: values.span, value: Self::Invoke(values.value) }));
        }
        let ghost t2 = *tokenizer;
        let ghost d2 = *diagnostics;
        proof {
            lemma_took_nothing_trans(t0, t1, t2, d0, d1, d2);
            lemma_took_nothing(t0, t2, d0, d2);
        }
        if let Some(start) = try_symbol(tokenizer, diagnostics, Symbol::BracketOpen) {
            let expr = Expr::expect_parse(tokenizer, diagnostics, MismatchHandling::ConsumeUntilSafe)?;
            let end = expect_symbol(tokenizer, diagnostics, Symbol::BracketClose, MismatchHandling::Consume)?;
            return Ok(Some(start.join(end).into_spanned(Self::Access(Box::new(expr.value)))));
        }
        let ghost t3 = *tokenizer;
        let ghost d3 = *diagnostics;
        proof {
            lemma_took_nothing_trans(t0, t2, t3, d0, d2, d3);
            lemma_took_nothing(t0, t3, d0, d3);
        }
        if let Some(start) = try_symbol(tokenizer, diagnostics, Symbol::DoubleColon) {
            let generics = GenericArgument::expect_list(tokenizer, diagnostics, MismatchHandling::ConsumeUntilSafe)?;
            let span = start.join(generics.span);
            return Ok(Some(span.into_spanned(Self::Generics(generics.value))));
        }
        proof {
            lemma_took_nothing_trans(t0, t3, *tokenizer, d0, d3, *diagnostics);
        }
        Ok(None)
    }

    /// Parses postfix operations as long as there are any; `None` when there is none.
    pub fn try_many(tokenizer: &mut Tokenizer<'a>, diagnostics: &mut Diagnostics<'a>) -> (r: Result<
        Option<Spanned<'a, Vec<Spanned<'a, Self>>>>,
        FatalParsingError,
    >)
        requires
            old(tokenizer).wf(),
            old(diagnostics).wf(),
        ensures
            (parsed_view(r, |x: Vec<Spanned<'a, PostfixOperator<'a>>>| view_postfix_operators(x@)), state_of(*final(tokenizer), *final(diagnostics))) == g_postfix_operators(input_of(*old(tokenizer)), state_of(*old(tokenizer), *old(diagnostics))),
            try_parse_post(
                *old(tokenizer),
                *final(tokenizer),
                *old(diagnostics),
                *final(diagnostics),
                r,
                starts_postfix_operator(next_token(*old(tokenizer)).kind),
            ),
        decreases old(tokenizer).measure(), 19int,
    {
        proof {
            reveal_with_fuel(g_postfix_operators, 1);
            reveal_with_fuel(g_postfix_operators_from, 1);
        }
        let ghost t0 = *tokenizer;
        let ghost d0 = *diagnostics;
        let ghost starts = starts_postfix_operator(next_token(t0).kind);
        let ghost c = input_of(t0);
        let mut values: Vec<Spanned<'a, Self>> = Vec::new();
        proof {
            lemma_view_postfix_operators_push(values@, arbitrary());
        }
        loop
            invariant_except_break
                values.len() == 0 ==> *tokenizer == t0 && *diagnostics == d0,
                g_postfix_operators_from(c, state_of(t0, d0), Seq::empty()) == g_postfix_operators_from(
                    c,
                    state_of(*tokenizer, *diagnostics),
                    view_postfix_operators(values@),
                ),
            invariant
                c == input_of(t0),
                t0 == *old(tokenizer),
                d0 == *old(diagnostics),
                t0.wf(),
                d0.wf(),
                starts == starts_postfix_operator(next_token(t0).kind),
                parse_step(t0, *tokenizer, d0, *diagnostics),
                values.len() > 0 ==> items_post(t0, *tokenizer, values@) && starts,
            ensures
                g_postfix_operators_from(c, state_of(t0, d0), Seq::empty()) == (
                    Ok::<Seq<Spanned<'a, PostfixOperatorView<'a>>>, FatalParsingError>(view_postfix_operators(values@)),
                    state_of(*tokenizer, *diagnostics),
                ),
                parse_step(t0, *tokenizer, d0, *diagnostics),
                values.len() == 0 ==> took_nothing(t0, *tokenizer, d0@, diagnostics@) && !starts,
                values.len() > 0 ==> items_post(t0, *tokenizer, values@) && starts,
            decreases tokenizer.measure(),
        {
            proof {
                reveal_with_fuel(g_postfix_operators, 1);
                reveal_with_fuel(g_postfix_operators_from, 1);
                reveal_with_fuel(g_postfix_operator, 1);
                tokenizer.lemma_wf();
            }
            let ghost before = values@;
            let value = match Self::try_parse(tokenizer, diagnostics)? {
                Some(value) => value,
                None => break,
            };
            values.push(value);
            proof {
                lemma_view_postfix_operators_push(before, value);
                tokenizer.lemma_wf();
            }
        }
        if values.len() == 0 {
            return Ok(None);
        }
        let span = values[0].span.join(values[values.len() - 1].span);
        Ok(Some(span.into_spanned(values)))
    }
}

impl<'a> PostfixOperationExpr<'a> {
    /// Parses an atom and the postfix operations after it; without operations, the atom is
    /// returned as it is.
    pub fn try_parse(tokenizer: &mut Tokenizer<'a>, diagnostics: &mut Diagnostics<'a>) -> (r: Result<
        Option<Spanned<'a, Expr<'a>>>,
        FatalParsingError,
    >)
        requires
            old(tokenizer).wf(),
            old(diagnostics).wf(),
        ensures
            (parsed_view(r, |x: Expr<'a>| view_expr(x)), state_of(*final(tokenizer), *final(diagnostics))) == g_postfix(input_of(*old(tokenizer)), state_of(*old(tokenizer), *old(diagnostics))),
            try_parse_post(
                *old(tokenizer),
                *final(tokenizer),
                *old(diagnostics),
                *final(diagnostics),
                r,
                starts_atom(next_token(*old(tokenizer)).kind),
            ),
        decreases old(tokenizer).measure(), 21int,
    {
        proof {
            reveal_with_fuel(g_postfix, 1);
            reveal_with_fuel(g_atom, 1);
            reveal_with_fuel(g_postfix_operators, 1);
        }
        let expr = match AtomExpr::try_parse(tokenizer, diagnostics)? {
            Some(expr) => expr,
            None => return Ok(None),
        };
        if let Some(operators) = PostfixOperator::try_many(tokenizer, diagnostics)? {
            let span = expr.span.join(operators.span);
            return Ok(Some(span.into_spanned(Expr::PostfixOperation(Self { operand: Box::new(expr), operators }))));
        }
        Ok(Some(expr))
    }

    /// Parses a postfix expression; where there is none, reports an expected expression,
    /// recovers as `mismatch_handling` says, and returns `Expr::Error`.
    pub fn expect_parse(
        tokenizer: &mut Tokenizer<'a>,
        diagnostics: &mut Diagnostics<'a>,
        mismatch_handling: MismatchHandling,
    ) -> (r: Result<Spanned<'a, Expr<'a>>, FatalParsingError>)
        requires
            old(tokenizer).wf(),
            old(diagnostics).wf(),
        ensures
            (expected_view(r, |x: Expr<'a>| view_expr(x)), state_of(*final(tokenizer), *final(diagnostics))) == g_postfix_expect(input_of(*old(tokenizer)), state_of(*old(tokenizer), *old(diagnostics)), mismatch_handling),
            expect_parse_post(*old(tokenizer), *final(tokenizer), *old(diagnostics), *final(diagnostics), r),
        decreases old(tokenizer).measure(), 22int,
    {
        proof {
            reveal_with_fuel(g_postfix_expect, 1);
            reveal_with_fuel(g_postfix, 1);
        }
        let ghost t0 = *tokenizer;
        let ghost d0 = *diagnostics;
        let parsed = Self::try_parse(tokenizer, diagnostics)?;
        proof {
            if parsed is None {
                lemma_took_nothing(t0, *tokenizer, d0, *diagnostics);
            }
        }
        proof {
            lemma_expect_parse_view(
                input_of(*tokenizer),
                state_of(*tokenizer, *diagnostics),
                mismatch_handling,
                parsed,
                Expectation::Expr, Expr::Error, |x: Expr<'a>| view_expr(x),
            );
        }
        expect_parse(tokenizer, diagnostics, mismatch_handling, parsed, Expectation::Expr, Expr::Error)
    }
}

} // verus!
