use vstd::prelude::*;

use crate::parser::parse_tree::grammar::{g_many_from, prefix_step, expected_view, g_postfix, g_postfix_expect, g_prefix, g_prefix_expect, g_prefix_operator, g_prefix_operators, input_of, lemma_expect_parse_view, parsed_view, state_of, view_expr};

use crate::parser::{
    diagnostic::{Diagnostics, FatalParsingError},
    parse_tree::{
        expect_parse, expect_parse_post, expr::{operator::postfix::PostfixOperationExpr, Expr},
        is_prefix_operator_token, lemma_next_token, lemma_parse_step_trans, lemma_peek_outcome,
        lemma_took_nothing, next_token, parse_step, peek_outcome, peek_token, span_in, starts_expr, try_many_infallible, try_parse_post, Expectation, MismatchHandling,
    },
    source::{group_index_nonneg, Spanned},
    token::{lemma_tokenizer_measure_nonneg, symbol::Symbol, Token, TokenKind, Tokenizer},
};

verus! {

broadcast use {group_index_nonneg, lemma_parse_step_trans, lemma_tokenizer_measure_nonneg, lemma_next_token};

/// A unary operator written before its operand.
#[derive(Clone, Copy, Debug, PartialEq, Eq, Structural, PartialOrd, Ord)]
pub enum PrefixOperator {
    Positive,
    Negative,
    Not,
    BitwiseNot,
}

/// An expression preceded by one or more prefix operators.
pub struct PrefixOperationExpr<'a> {
    pub operand: Box<Spanned<'a, Expr<'a>>>,
    pub operators: Spanned<'a, Vec<Spanned<'a, PrefixOperator>>>,
}

impl PrefixOperator {
    /// The prefix operator a token stands for: `+`, `-`, `!`, `~`.
    pub open spec fn spec_from_token(kind: TokenKind) -> Option<Self> {
        if kind == TokenKind::Symbol(Symbol::Add) {
            Some(PrefixOperator::Positive)
        } else if kind == TokenKind::Symbol(Symbol::Subtract) {
            Some(PrefixOperator::Negative)
        } else if kind == TokenKind::Symbol(Symbol::Not) {
            Some(PrefixOperator::Not)
        } else if kind == TokenKind::Symbol(Symbol::BitwiseNot) {
            Some(PrefixOperator::BitwiseNot)
        } else {
            None
        }
    }

    fn from_token(kind: TokenKind) -> (r: Option<Self>)
        ensures
            r == Self::spec_from_token(kind),
    {
        if kind == TokenKind::Symbol(Symbol::Add) {
            Some(PrefixOperator::Positive)
        } else if kind == TokenKind::Symbol(Symbol::Subtract) {
            Some(PrefixOperator::Negative)
        } else if kind == TokenKind::Symbol(Symbol::Not) {
            Some(PrefixOperator::Not)
        } else if kind == TokenKind::Symbol(Symbol::BitwiseNot) {
            Some(PrefixOperator::BitwiseNot)
        } else {
            None
        }
    }

    /// Takes the next token if it is a prefix operator, and returns the operator.
    pub fn try_parse<'a>(tokenizer: &mut Tokenizer<'a>, diagnostics: &mut Diagnostics<'a>) -> (r: Option<
        Spanned<'a, Self>,
    >)
        requires
            old(tokenizer).wf(),
            old(diagnostics).wf(),
        ensures
            (r, state_of(*final(tokenizer), *final(diagnostics))) == g_prefix_operator(input_of(*old(tokenizer)), state_of(*old(tokenizer), *old(diagnostics))),
            parse_step(*old(tokenizer), *final(tokenizer), *old(diagnostics), *final(diagnostics)),
            ({
                let (tok, m, ds) = peek_outcome(*old(tokenizer));
                &&& final(diagnostics)@ == old(diagnostics)@ + ds
                &&& final(tokenizer).idx() == m
                &&& match Self::spec_from_token(tok.kind) {
                    Some(op) => r == Some(Spanned { span: tok.span, value: op })
                        && final(tokenizer).peeked() == None::<Token<'a>>,
                    None => r == None::<Spanned<'a, Self>> && final(tokenizer).peeked() == Some(tok),
                }
            }),
            r is Some ==> final(tokenizer).measure() < old(tokenizer).measure(),
            r matches Some(x) ==> span_in(*old(tokenizer), x.span) && x.span.start() == next_token(
                *old(tokenizer),
            ).span.start() && final(tokenizer).pos() >= x.span.start(),
            try_parse_post(
                *old(tokenizer),
                *final(tokenizer),
                *old(diagnostics),
                *final(diagnostics),
                Ok::<Option<Spanned<'a, Self>>, FatalParsingError>(r),
                is_prefix_operator_token(next_token(*old(tokenizer)).kind),
            ),
    {
        proof {
            lemma_peek_outcome(*tokenizer);
        }
        let token = peek_token(tokenizer, diagnostics);
        let operator = match Self::from_token(token.kind) {
            Some(operator) => operator,
            None => return None,
        };
        let _ = tokenizer.next();
        Some(token.span.into_spanned(operator))
    }

    /// Takes prefix operators as long as there are any; `None` when there is none.
    fn try_many<'a>(tokenizer: &mut Tokenizer<'a>, diagnostics: &mut Diagnostics<'a>) -> (r: Option<
        Spanned<'a, Vec<Spanned<'a, Self>>>,
    >)
        requires
            old(tokenizer).wf(),
            old(diagnostics).wf(),
        ensures
            (match r { Some(x) => Some(Spanned { span: x.span, value: x.value@ }), None => None::<Spanned<'a, Seq<Spanned<'a, PrefixOperator>>>> }, state_of(*final(tokenizer), *final(diagnostics))) == g_prefix_operators(input_of(*old(tokenizer)), state_of(*old(tokenizer), *old(diagnostics))),
            try_parse_post(
                *old(tokenizer),
                *final(tokenizer),
                *old(diagnostics),
                *final(diagnostics),
                Ok::<Option<Spanned<'a, Vec<Spanned<'a, Self>>>>, FatalParsingError>(r),
                is_prefix_operator_token(next_token(*old(tokenizer)).kind),
            ),
    {
        proof {
            reveal_with_fuel(g_many_from, 1);
        }
        try_many_infallible(
            tokenizer,
            diagnostics,
            Self::try_parse,
            Ghost(|k: TokenKind| is_prefix_operator_token(k)),
            Ghost(prefix_step()),
        )
    }
}

impl<'a> PrefixOperationExpr<'a> {
    /// Parses prefix operators and the postfix expression after them; without operators,
    /// the postfix expression is returned as it is.
    pub fn try_parse(tokenizer: &mut Tokenizer<'a>, diagnostics: &mut Diagnostics<'a>) -> (r: Result<
        Option<Spanned<'a, Expr<'a>>>,
        FatalParsingError,
    >)
        requires
            old(tokenizer).wf(),
            old(diagnostics).wf(),
        ensures
            (parsed_view(r, |x: Expr<'a>| view_expr(x)), state_of(*final(tokenizer), *final(diagnostics))) == g_prefix(input_of(*old(tokenizer)), state_of(*old(tokenizer), *old(diagnostics))),
            try_parse_post(
                *old(tokenizer),
                *final(tokenizer),
                *old(diagnostics),
                *final(diagnostics),
                r,
                starts_expr(next_token(*old(tokenizer)).kind),
            ),
            is_prefix_operator_token(next_token(*old(tokenizer)).kind) ==> (r matches Ok(Some(x))
                ==> x.value is PrefixOperation),
        decreases old(tokenizer).measure(), 23int,
    {
        proof {
            reveal_with_fuel(g_prefix, 1);
            reveal_with_fuel(g_postfix, 1);
            reveal_with_fuel(g_postfix_expect, 1);
        }
        let ghost t0 = *tokenizer;
        let ghost d0 = *diagnostics;
        let operators = match PrefixOperator::try_many(tokenizer, diagnostics) {
            Some(operators) => operators,
            None => {
                proof {
                    lemma_took_nothing(t0, *tokenizer, d0, *diagnostics);
                }
                return PostfixOperationExpr::try_parse(tokenizer, diagnostics);
            },
        };
        let expr = PostfixOperationExpr::expect_parse(tokenizer, diagnostics, MismatchHandling::ConsumeUntilSafe)?;
        let span = operators.span.join(expr.span);
        Ok(Some(span.into_spanned(Expr::PrefixOperation(Self { operand: Box::new(expr), operators }))))
    }

    /// Parses a prefix expression; where there is none, reports an expected expression,
    /// recovers as `mismatch_handling` says, and returns `Expr::Error`.
    pub fn expect_parse(
        tokenizer: &mut Tokenizer<'a>,
        diagnostics: &mut Diagnostics<'a>,
        mismatch_handling: MismatchHandling,
    ) -> (r: Result<Spanned<'a, Expr<'a>>, FatalParsingError>)
        requires
            old(tokenizer).wf(),
            old(diagnostics).wf(),
        ensures
            (expected_view(r, |x: Expr<'a>| view_expr(x)), state_of(*final(tokenizer), *final(diagnostics))) == g_prefix_expect(input_of(*old(tokenizer)), state_of(*old(tokenizer), *old(diagnostics)), mismatch_handling),
            expect_parse_post(*old(tokenizer), *final(tokenizer), *old(diagnostics), *final(diagnostics), r),
        decreases old(tokenizer).measure(), 24int,
    {
        proof {
            reveal_with_fuel(g_prefix_expect, 1);
            reveal_with_fuel(g_prefix, 1);
        }
        let ghost t0 = *tokenizer;
        let ghost d0 = *diagnostics;
        let parsed = Self::try_parse(tokenizer, diagnostics)?;
        proof {
            if parsed is None {
                lemma_took_nothing(t0, *tokenizer, d0, *diagnostics);
            }
        }
        proof {
            lemma_expect_parse_view(
                input_of(*tokenizer),
                state_of(*tokenizer, *diagnostics),
                mismatch_handling,
                parsed,
                Expectation::Expr, Expr::Error, |x: Expr<'a>| view_expr(x),
            );
        }
        expect_parse(tokenizer, diagnostics, mismatch_handling, parsed, Expectation::Expr, Expr::Error)
    }
}

} // verus!
