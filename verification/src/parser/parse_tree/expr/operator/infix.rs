use vstd::prelude::*;

use crate::parser::parse_tree::grammar::{spanned_view, ExprView, expected_view, g_cast, g_infix, g_infix_expect, g_infix_from, g_infix_operator, input_of, lemma_expect_parse_view, parsed_view, state_of, view_expr};

use crate::parser::{
    diagnostic::{Diagnostics, FatalParsingError},
    parse_tree::{
        expect_parse, expect_parse_post,
        expr::{operator::cast::CastOperationExpression, Expr}, lemma_next_token,
        lemma_parse_step_trans, lemma_took_nothing, next_token, parse_step,
        peek_outcome, peek_token, span_in, starts_expr, try_parse_post, Expectation,
        MismatchHandling,
    },
    source::{group_index_nonneg, Spanned},
    token::{lemma_tokenizer_measure_nonneg, symbol::Symbol, TokenKind, Tokenizer},
};

verus! {

broadcast use {group_index_nonneg, lemma_parse_step_trans, lemma_tokenizer_measure_nonneg, lemma_next_token};

/// A binary operator, written between its operands.
#[derive(Clone, Copy, Debug, PartialEq, Eq, Structural, PartialOrd, Ord)]
pub enum InfixOperator {
    Add,
    Sub,
    Mul,
    Div,
    Mod,
    Eq,
    Ne,
    Gt,
    Lt,
    Ge,
    Le,
    BoolAnd,
    BoolOr,
    BoolXor,
    BitAnd,
    BitOr,
    BitXor,
    Shl,
    Shr,
    Range,
    RangeTo,
}

/// How tightly the operators of a group bind.
#[derive(Clone, Copy, Debug, PartialEq, Eq, Structural, PartialOrd, Ord)]
enum InfixOperatorPrecedence {
    Range,
    BoolOr,
    BoolXor,
    BoolAnd,
    Compare,
    BitOr,
    BitXor,
    BitAnd,
    Shift,
    AddSub,
    MulDiv,
}

/// An infix operation and its two operands.
pub struct InfixOperationExpr<'a> {
    pub operands: Box<(Spanned<'a, Expr<'a>>, Spanned<'a, Expr<'a>>)>,
    pub operator: Spanned<'a, InfixOperator>,
}

impl InfixOperatorPrecedence {
    spec fn spec_value(self) -> u8 {
        match self {
            InfixOperatorPrecedence::Range => 10,
            InfixOperatorPrecedence::BoolOr => 20,
            InfixOperatorPrecedence::BoolXor => 25,
            InfixOperatorPrecedence::BoolAnd => 30,
            InfixOperatorPrecedence::Compare => 40,
            InfixOperatorPrecedence::BitOr => 43,
            InfixOperatorPrecedence::BitXor => 44,
            InfixOperatorPrecedence::BitAnd => 45,
            InfixOperatorPrecedence::Shift => 50,
            InfixOperatorPrecedence::AddSub => 60,
            InfixOperatorPrecedence::MulDiv => 70,
        }
    }

    fn value(self) -> (r: u8)
        ensures
            r == self.spec_value(),
    {
        match self {
            InfixOperatorPrecedence::Range => 10,
            InfixOperatorPrecedence::BoolOr => 20,
            InfixOperatorPrecedence::BoolXor => 25,
            InfixOperatorPrecedence::BoolAnd => 30,
            InfixOperatorPrecedence::Compare => 40,
            InfixOperatorPrecedence::BitOr => 43,
            InfixOperatorPrecedence::BitXor => 44,
            InfixOperatorPrecedence::BitAnd => 45,
            InfixOperatorPrecedence::Shift => 50,
            InfixOperatorPrecedence::AddSub => 60,
            InfixOperatorPrecedence::MulDiv => 70,
        }
    }

    /// Left and right binding power: the right one is one more, so that operators of one
    /// group associate to the left.
    fn binding_power(&self) -> (r: (u8, u8))
        ensures
            r == (self.spec_value(), (self.spec_value() + 1) as u8),
    {
        let v = self.value();
        (v, v + 1)
    }
}

impl InfixOperator {
    /// How tightly the operator binds: multiplicative 70, additive 60, shifts 50, `&` 45,
    /// `^` 44, `|` 43, comparisons 40, `&&` 30, `^^` 25,
    /// `||` 20, ranges 10.
    pub open spec fn spec_precedence(self) -> u8 {
        match self {
            InfixOperator::Mul | InfixOperator::Div | InfixOperator::Mod => 70,
            InfixOperator::Add | InfixOperator::Sub => 60,
            InfixOperator::Shl | InfixOperator::Shr => 50,
            InfixOperator::BitAnd => 45,
            InfixOperator::BitXor => 44,
            InfixOperator::BitOr => 43,
            InfixOperator::Eq | InfixOperator::Ne | InfixOperator::Gt | InfixOperator::Lt
            | InfixOperator::Ge | InfixOperator::Le => 40,
            InfixOperator::BoolAnd => 30,
            InfixOperator::BoolXor => 25,
            InfixOperator::BoolOr => 20,
            InfixOperator::Range | InfixOperator::RangeTo => 10,
        }
    }

    /// The documented precedence ladder: `*`, `/` and `%` bind equally, and more tightly than
    /// `+` and `-`, which bind equally and more tightly than the shifts; then, each binding
    /// less tightly than the one before, `&`, `^`, `|`, the six comparisons (all equal),
    /// `&&`, `^^`, `||`, and the two ranges (equal). The binding powers are 70 for `*`, `/`
    /// and `%`, 60 for `+` and `-`, 50 for the shifts, 45, 44 and 43 for `&`, `^` and `|`, 40
    /// for the comparisons, 30 for `&&`, 25 for `^^`, 20 for `||` and 10 for the ranges.
    pub proof fn lemma_precedence_ladder()
        ensures
            InfixOperator::Mul.spec_precedence() == InfixOperator::Div.spec_precedence(),
            InfixOperator::Mul.spec_precedence() == InfixOperator::Mod.spec_precedence(),
            InfixOperator::Add.spec_precedence() == InfixOperator::Sub.spec_precedence(),
            InfixOperator::Shl.spec_precedence() == InfixOperator::Shr.spec_precedence(),
            InfixOperator::Eq.spec_precedence() == InfixOperator::Ne.spec_precedence(),
            InfixOperator::Eq.spec_precedence() == InfixOperator::Gt.spec_precedence(),
            InfixOperator::Eq.spec_precedence() == InfixOperator::Lt.spec_precedence(),
            InfixOperator::Eq.spec_precedence() == InfixOperator::Ge.spec_precedence(),
            InfixOperator::Eq.spec_precedence() == InfixOperator::Le.spec_precedence(),
            InfixOperator::Range.spec_precedence() == InfixOperator::RangeTo.spec_precedence(),
            InfixOperator::Range.spec_precedence() < InfixOperator::BoolOr.spec_precedence(),
            InfixOperator::BoolOr.spec_precedence() < InfixOperator::BoolXor.spec_precedence(),
            InfixOperator::BoolXor.spec_precedence() < InfixOperator::BoolAnd.spec_precedence(),
            InfixOperator::BoolAnd.spec_precedence() < InfixOperator::Eq.spec_precedence(),
            InfixOperator::Eq.spec_precedence() < InfixOperator::BitOr.spec_precedence(),
            InfixOperator::BitOr.spec_precedence() < InfixOperator::BitXor.spec_precedence(),
            InfixOperator::BitXor.spec_precedence() < InfixOperator::BitAnd.spec_precedence(),
            InfixOperator::BitAnd.spec_precedence() < InfixOperator::Shl.spec_precedence(),
            InfixOperator::Shl.spec_precedence() < InfixOperator::Add.spec_precedence(),
            InfixOperator::Add.spec_precedence() < InfixOperator::Mul.spec_precedence(),
            InfixOperator::Mul.spec_precedence() == 70,
            InfixOperator::Add.spec_precedence() == 60,
            InfixOperator::Shl.spec_precedence() == 50,
            InfixOperator::BitAnd.spec_precedence() == 45,
            InfixOperator::BitXor.spec_precedence() == 44,
            InfixOperator::BitOr.spec_precedence() == 43,
            InfixOperator::Eq.spec_precedence() == 40,
            InfixOperator::BoolAnd.spec_precedence() == 30,
            InfixOperator::BoolXor.spec_precedence() == 25,
            InfixOperator::BoolOr.spec_precedence() == 20,
            InfixOperator::Range.spec_precedence() == 10,
    {
    }

    fn precedence(self) -> (r: InfixOperatorPrecedence)
        ensures
            r.spec_value() == self.spec_precedence(),
    {
        match self {
            Self::Mul | Self::Div | Self::Mod => InfixOperatorPrecedence::MulDiv,
            Self::Add | Self::Sub => InfixOperatorPrecedence::AddSub,
            Self::Shl | Self::Shr => InfixOperatorPrecedence::Shift,
            Self::BitAnd => InfixOperatorPrecedence::BitAnd,
            Self::BitXor => InfixOperatorPrecedence::BitXor,
            Self::BitOr => InfixOperatorPrecedence::BitOr,
            Self::Eq | Self::Ne | Self::Gt | Self::Lt | Self::Ge | Self::Le => {
                InfixOperatorPrecedence::Compare
            },
            Self::BoolAnd => InfixOperatorPrecedence::BoolAnd,
            Self::BoolXor => InfixOperatorPrecedence::BoolXor,
            Self::BoolOr => InfixOperatorPrecedence::BoolOr,
            Self::Range | Self::RangeTo => InfixOperatorPrecedence::Range,
        }
    }

    /// The left and right binding power: the precedence, and one more.
    pub fn binding_power(self) -> (r: (u8, u8))
        ensures
            r == (self.spec_precedence(), (self.spec_precedence() + 1) as u8),
    {
        self.precedence().binding_power()
    }

    /// The infix operator a token stands for.
    pub open spec fn spec_from_token(kind: TokenKind) -> Option<Self> {
        match kind {
            TokenKind::Symbol(symbol) => match symbol {
                Symbol::Add => Some(InfixOperator::Add),
                Symbol::Subtract => Some(InfixOperator::Sub),
                Symbol::Multiply => Some(InfixOperator::Mul),
                Symbol::Divide => Some(InfixOperator::Div),
                Symbol::Remainder => Some(InfixOperator::Mod),
                Symbol::Equal => Some(InfixOperator::Eq),
                Symbol::NotEqual => Some(InfixOperator::Ne),
                Symbol::GreaterThan => Some(InfixOperator::Gt),
                Symbol::LessThan => Some(InfixOperator::Lt),
                Symbol::GreaterThanOrEqual => Some(InfixOperator::Ge),
                Symbol::LessThanOrEqual => Some(InfixOperator::Le),
                Symbol::BooleanAnd => Some(InfixOperator::BoolAnd),
                Symbol::BooleanOr => Some(InfixOperator::BoolOr),
                Symbol::BooleanXor => Some(InfixOperator::BoolXor),
                Symbol::BitwiseAnd => Some(InfixOperator::BitAnd),
                Symbol::BitwiseOr => Some(InfixOperator::BitOr),
                Symbol::BitwiseXor => Some(InfixOperator::BitXor),
                Symbol::ShiftLeft => Some(InfixOperator::Shl),
                Symbol::ShiftRight => Some(InfixOperator::Shr),
                Symbol::Range => Some(InfixOperator::Range),
                Symbol::RangeTo => Some(InfixOperator::RangeTo),
                _ => None,
            },
            _ => None,
        }
    }

    fn from_token(kind: TokenKind) -> (r: Option<Self>)
        ensures
            r == Self::spec_from_token(kind),
    {
        match kind {
            TokenKind::Symbol(symbol) => match symbol {
                Symbol::Add => Some(InfixOperator::Add),
                Symbol::Subtract => Some(InfixOperator::Sub),
                Symbol::Multiply => Some(InfixOperator::Mul),
                Symbol::Divide => Some(InfixOperator::Div),
                Symbol::Remainder => Some(InfixOperator::Mod),
                Symbol::Equal => Some(InfixOperator::Eq),
                Symbol::NotEqual => Some(InfixOperator::Ne),
                Symbol::GreaterThan => Some(InfixOperator::Gt),
                Symbol::LessThan => Some(InfixOperator::Lt),
                Symbol::GreaterThanOrEqual => Some(InfixOperator::Ge),
                Symbol::LessThanOrEqual => Some(InfixOperator::Le),
                Symbol::BooleanAnd => Some(InfixOperator::BoolAnd),
                Symbol::BooleanOr => Some(InfixOperator::BoolOr),
                Symbol::BooleanXor => Some(InfixOperator::BoolXor),
                Symbol::BitwiseAnd => Some(InfixOperator::BitAnd),
                Symbol::BitwiseOr => Some(InfixOperator::BitOr),
                Symbol::BitwiseXor => Some(InfixOperator::BitXor),
                Symbol::ShiftLeft => Some(InfixOperator::Shl),
                Symbol::ShiftRight => Some(InfixOperator::Shr),
                Symbol::Range => Some(InfixOperator::Range),
                Symbol::RangeTo => Some(InfixOperator::RangeTo),
                _ => None,
            },
            _ => None,
        }
    }

    /// Returns the infix operator that the next token stands for, if any, and leaves the
    /// token in the lookahead.
    pub fn peek_parse<'a>(tokenizer: &mut Tokenizer<'a>, diagnostics: &mut Diagnostics<'a>) -> (r: Option<
        Spanned<'a, Self>,
    >)
        requires
            old(tokenizer).wf(),
            old(diagnostics).wf(),
        ensures
            (r, state_of(*final(tokenizer), *final(diagnostics))) == g_infix_operator(input_of(*old(tokenizer)), state_of(*old(tokenizer), *old(diagnostics))),
            parse_step(*old(tokenizer), *final(tokenizer), *old(diagnostics), *final(diagnostics)),
            ({
                let (tok, m, ds) = peek_outcome(*old(tokenizer));
                &&& final(diagnostics)@ == old(diagnostics)@ + ds
                &&& final(tokenizer).idx() == m
                &&& final(tokenizer).peeked() == Some(tok)
                &&& r == match Self::spec_from_token(tok.kind) {
                    Some(op) => Some(Spanned { span: tok.span, value: op }),
                    None => None::<Spanned<'a, Self>>,
                }
            }),
    {
        let token = peek_token(tokenizer, diagnostics);
        let operator = match Self::from_token(token.kind) {
            Some(operator) => operator,
            None => return None,
        };
        Some(token.span.into_spanned(operator))
    }
}

impl<'a> InfixOperationExpr<'a> {
    /// Parses a cast expression and, as long as an infix operator that binds at least as
    /// tightly as `min_binding` follows, the operator and its right operand (parsed with the
    /// operator's right binding power); operators of one precedence associate to the left.
    pub fn try_parse(tokenizer: &mut Tokenizer<'a>, diagnostics: &mut Diagnostics<'a>, min_binding: u8) -> (r: Result<
        Option<Spanned<'a, Expr<'a>>>,
        FatalParsingError,
    >)
        requires
            old(tokenizer).wf(),
            old(diagnostics).wf(),
        ensures
            (parsed_view(r, |x: Expr<'a>| view_expr(x)), state_of(*final(tokenizer), *final(diagnostics))) == g_infix(input_of(*old(tokenizer)), state_of(*old(tokenizer), *old(diagnostics)), min_binding),
            try_parse_post(
                *old(tokenizer),
                *final(tokenizer),
                *old(diagnostics),
                *final(diagnostics),
                r,
                starts_expr(next_token(*old(tokenizer)).kind),
            ),
        decreases old(tokenizer).measure(), 27int,
    {
        proof {
            reveal_with_fuel(g_infix, 1);
            reveal_with_fuel(g_cast, 1);
            reveal_with_fuel(g_infix_from, 1);
        }
        let ghost t0 = *tokenizer;
        let ghost d0 = *diagnostics;
        let mut lhs = match CastOperationExpression::try_parse(tokenizer, diagnostics)? {
            Some(lhs) => lhs,
            None => return Ok(None),
        };
        let ghost c = input_of(t0);
        proof {
            tokenizer.lemma_wf();
        }
        let ghost target = g_infix_from(
            c,
            state_of(*tokenizer, *diagnostics),
            spanned_view(lhs, |x: Expr<'a>| view_expr(x)),
            min_binding,
        );
        assert(g_infix(c, state_of(t0, d0), min_binding) == target);
        loop
            invariant_except_break
                g_infix_from(c, state_of(*tokenizer, *diagnostics), spanned_view(lhs, |x: Expr<'a>| view_expr(x)), min_binding)
                    == target,
            invariant
                c == input_of(t0),
                g_infix(c, state_of(t0, d0), min_binding) == target,
                t0 == *old(tokenizer),
                d0 == *old(diagnostics),
                t0.wf(),
                parse_step(t0, *tokenizer, d0, *diagnostics),
                starts_expr(next_token(t0).kind),
                span_in(t0, lhs.span),
                lhs.span.start() == next_token(t0).span.start(),
                tokenizer.pos() >= lhs.span.start(),
                tokenizer.measure() < t0.measure(),
            ensures
                target == (
                    Ok::<Option<Spanned<'a, ExprView<'a>>>, FatalParsingError>(
                        Some(spanned_view(lhs, |x: Expr<'a>| view_expr(x))),
                    ),
                    state_of(*tokenizer, *diagnostics),
                ),
                parse_step(t0, *tokenizer, d0, *diagnostics),
                starts_expr(next_token(t0).kind),
                span_in(t0, lhs.span),
                lhs.span.start() == next_token(t0).span.start(),
                tokenizer.pos() >= lhs.span.start(),
                tokenizer.measure() < t0.measure(),
            decreases tokenizer.measure(),
        {
            proof {
                reveal_with_fuel(g_infix, 1);
                reveal_with_fuel(g_cast, 1);
                reveal_with_fuel(g_infix_from, 1);
                reveal_with_fuel(g_infix_expect, 1);
                tokenizer.lemma_wf();
            }
            let op = match InfixOperator::peek_parse(tokenizer, diagnostics) {
                Some(op) => op,
                None => break,
            };
            let (left_binding, right_binding) = op.value.binding_power();
            if left_binding < min_binding {
                break;
            }
            let ghost tb = *tokenizer;
            let ghost db = *diagnostics;
            let _ = tokenizer.next();
            proof {
                tb.lemma_wf();
                assert(db@ =~= diagnostics@.subrange(0, db@.len() as int));
                assert(parse_step(tb, *tokenizer, db, *diagnostics));
            }
            let rhs = Self::expect_parse(tokenizer, diagnostics, MismatchHandling::ConsumeUntilSafe, right_binding)?;
            let span = lhs.span.join(rhs.span);
            lhs = span.into_spanned(Expr::InfixOperation(Self { operands: Box::new((lhs, rhs)), operator: op }));
        }
        Ok(Some(lhs))
    }

    /// Parses an infix expression as `try_parse` does; where there is none, reports an
    /// expected expression, recovers as `mismatch_handling` says, and returns `Expr::Error`.
    pub fn expect_parse(
        tokenizer: &mut Tokenizer<'a>,
        diagnostics: &mut Diagnostics<'a>,
        mismatch_handling: MismatchHandling,
        min_binding: u8,
    ) -> (r: Result<Spanned<'a, Expr<'a>>, FatalParsingError>)
        requires
            old(tokenizer).wf(),
            old(diagnostics).wf(),
        ensures
            (expected_view(r, |x: Expr<'a>| view_expr(x)), state_of(*final(tokenizer), *final(diagnostics))) == g_infix_expect(input_of(*old(tokenizer)), state_of(*old(tokenizer), *old(diagnostics)), mismatch_handling, min_binding),
            expect_parse_post(*old(tokenizer), *final(tokenizer), *old(diagnostics), *final(diagnostics), r),
        decreases old(tokenizer).measure(), 28int,
    {
        proof {
            reveal_with_fuel(g_infix_expect, 1);
            reveal_with_fuel(g_infix, 1);
        }
        let ghost t0 = *tokenizer;
        let ghost d0 = *diagnostics;
        let parsed = Self::try_parse(tokenizer, diagnostics, min_binding)?;
        proof {
            if parsed is None {
                lemma_took_nothing(t0, *tokenizer, d0, *diagnostics);
            }
        }
        proof {
            lemma_expect_parse_view(
                input_of(*tokenizer),
                state_of(*tokenizer, *diagnostics),
                mismatch_handling,
                parsed,
                Expectation::Expr, Expr::Error, |x: Expr<'a>| view_expr(x),
            );
        }
        expect_parse(tokenizer, diagnostics, mismatch_handling, parsed, Expectation::Expr, Expr::Error)
    }
}

} // verus!
