use vstd::prelude::*;

use crate::parser::parse_tree::grammar::{g_array, g_atom, g_atom_rest, g_struct_init, g_expr_expect, g_symbol_path, input_of, parsed_view, state_of, view_expr};

use crate::parser::{
    diagnostic::{Diagnostics, FatalParsingError},
    parse_tree::{
        expect_symbol, expr::{construct::StructInit, Expr}, lemma_next_token, lemma_parse_step_trans, lemma_peek_outcome,
        lemma_took_nothing, lemma_took_nothing_trans, next_token, starts_array, starts_atom,
        starts_symbol_path, symbol::SymbolPath, try_keyword, try_number, try_parse_post,
        try_pseudo_keyword, try_symbol, MismatchHandling,
    },
    source::{group_index_nonneg, Spanned},
    token::{
        ident::PseudoKeyword, keyword::Keyword, lemma_tokenizer_measure_nonneg, number::NumberLiteral,
        symbol::Symbol, TokenKind, Tokenizer,
    },
};

verus! {

broadcast use {group_index_nonneg, lemma_parse_step_trans, lemma_tokenizer_measure_nonneg, lemma_next_token};

/// Whether a bracketed literal is an array, a vector (`vec`) or a matrix (`mat`).
#[derive(Clone, Copy, Debug, PartialEq, Eq, Structural)]
pub enum ArrayKind {
    Array,
    Vector,
    Matrix,
}

/// An expression that is not an operation: a number, `true` or `false`, a symbol path, an
/// array, vector or matrix literal with its elements, or a struct construction.
pub enum AtomExpr<'a> {
    Number(NumberLiteral),
    Boolean(bool),
    Symbol(SymbolPath<'a>),
    Array(ArrayKind, Vec<Spanned<'a, Expr<'a>>>),
    Struct(StructInit<'a>),
}

impl<'a> AtomExpr<'a> {
    /// Parses an array, vector or matrix literal, a struct construction, a symbol path, a
    /// number, `true`, `false`, or an expression in parentheses (which is returned as it is, with the span of the
    /// parentheses).
    pub fn try_parse(tokenizer: &mut Tokenizer<'a>, diagnostics: &mut Diagnostics<'a>) -> (r: Result<
        Option<Spanned<'a, Expr<'a>>>,
        FatalParsingError,
    >)
        requires
            old(tokenizer).wf(),
            old(diagnostics).wf(),
        ensures
            (parsed_view(r, |x: Expr<'a>| view_expr(x)), state_of(*final(tokenizer), *final(diagnostics))) == g_atom(input_of(*old(tokenizer)), state_of(*old(tokenizer), *old(diagnostics))),
            try_parse_post(
                *old(tokenizer),
                *final(tokenizer),
                *old(diagnostics),
                *final(diagnostics),
                r,
                starts_atom(next_token(*old(tokenizer)).kind),
            ),
            ({
                let tok = next_token(*old(tokenizer));
                match tok.kind {
                    TokenKind::NumberLiteral(n) => r == Ok::<Option<Spanned<'a, Expr<'a>>>, FatalParsingError>(
                        Some(Spanned { span: tok.span, value: Expr::Atom(AtomExpr::Number(n)) }),
                    ),
                    TokenKind::Keyword(Keyword::True) => r == Ok::<Option<Spanned<'a, Expr<'a>>>, FatalParsingError>(
                        Some(Spanned { span: tok.span, value: Expr::Atom(AtomExpr::Boolean(true)) }),
                    ),
                    TokenKind::Keyword(Keyword::False) => r == Ok::<Option<Spanned<'a, Expr<'a>>>, FatalParsingError>(
                        Some(Spanned { span: tok.span, value: Expr::Atom(AtomExpr::Boolean(false)) }),
                    ),
                    _ => (starts_array(tok.kind) ==> (r matches Ok(Some(x)) ==> x.value matches Expr::Atom(
                        AtomExpr::Array(_, _),
                    ))) && (tok.kind == TokenKind::Identifier(Some(PseudoKeyword::New)) ==> (r matches Ok(
                        Some(x),
                    ) ==> x.value matches Expr::Atom(AtomExpr::Struct(_)))) && (starts_symbol_path(tok.kind)
                        && !starts_array(tok.kind) && tok.kind != TokenKind::Identifier(Some(PseudoKeyword::New))
                        ==> (r matches Ok(Some(x)) ==> x.value matches Expr::Atom(AtomExpr::Symbol(_)))),
                }
            }),
        decreases old(tokenizer).measure(), 20int,
    {
        proof {
            reveal_with_fuel(g_atom, 1);
            reveal_with_fuel(g_atom_rest, 1);
            reveal_with_fuel(g_array, 1);
            reveal_with_fuel(g_struct_init, 1);
            reveal_with_fuel(g_expr_expect, 1);
            reveal_with_fuel(g_symbol_path, 1);
        }
        let ghost ta = *tokenizer;
        let ghost da = *diagnostics;
        if let Some(array) = Self::try_parse_array(tokenizer, diagnostics)? {
            return Ok(Some(array));
        }
        let ghost ts = *tokenizer;
        let ghost ds = *diagnostics;
        proof {
            lemma_took_nothing(ta, ts, da, ds);
        }
        if let Some(construction) = StructInit::try_parse(tokenizer, diagnostics)? {
            return Ok(Some(construction));
        }
        let ghost t0 = *tokenizer;
        let ghost d0 = *diagnostics;
        proof {
            lemma_took_nothing(ts, t0, ds, d0);
            lemma_took_nothing_trans(ta, ts, t0, da, ds, d0);
        }
        if let Some(path) = SymbolPath::try_parse(tokenizer, diagnostics, false)? {
            return Ok(Some(Spanned { span: path.span, value: Expr::Atom(Self::Symbol(path.value)) }));
        }
        let ghost t1 = *tokenizer;
        let ghost d1 = *diagnostics;
        proof {
            lemma_took_nothing(t0, t1, d0, d1);
        }
        if let Some(number) = try_number(tokenizer, diagnostics) {
            return Ok(Some(Spanned { span: number.span, value: Expr::Atom(Self::Number(number.value)) }));
        }
        let ghost t2 = *tokenizer;
        let ghost d2 = *diagnostics;
        proof {
            lemma_took_nothing_trans(t0, t1, t2, d0, d1, d2);
            lemma_took_nothing(t0, t2, d0, d2);
        }
        if let Some(span) = try_keyword(tokenizer, diagnostics, Keyword::True) {
            return Ok(Some(Spanned { span, value: Expr::Atom(Self::Boolean(true)) }));
        }
        let ghost t3 = *tokenizer;
        let ghost d3 = *diagnostics;
        proof {
            lemma_took_nothing_trans(t0, t2, t3, d0, d2, d3);
            lemma_took_nothing(t0, t3, d0, d3);
        }
        if let Some(span) = try_keyword(tokenizer, diagnostics, Keyword::False) {
            return Ok(Some(Spanned { span, value: Expr::Atom(Self::Boolean(false)) }));
        }
        let ghost t4 = *tokenizer;
        let ghost d4 = *diagnostics;
        proof {
            lemma_took_nothing_trans(t0, t3, t4, d0, d3, d4);
            lemma_took_nothing(t0, t4, d0, d4);
        }
        if let Some(start) = try_symbol(tokenizer, diagnostics, Symbol::ParenOpen) {
            let expr = Expr::expect_parse(tokenizer, diagnostics, MismatchHandling::ConsumeUntilSafe)?;
            let end = expect_symbol(tokenizer, diagnostics, Symbol::ParenClose, MismatchHandling::Consume)?;
            return Ok(Some(start.join(end).into_spanned(expr.value)));
        }
        proof {
            lemma_took_nothing_trans(t0, t4, *tokenizer, d0, d4, *diagnostics);
            lemma_took_nothing_trans(ta, t0, *tokenizer, da, d0, *diagnostics);
        }
        Ok(None)
    }

    /// Parses an array literal `[..]`, a vector literal `vec[..]` or a matrix literal
    /// `mat[..]`, if the next token is `[`, `vec` or `mat`.
    pub fn try_parse_array(tokenizer: &mut Tokenizer<'a>, diagnostics: &mut Diagnostics<'a>) -> (r: Result<
        Option<Spanned<'a, Expr<'a>>>,
        FatalParsingError,
    >)
        requires
            old(tokenizer).wf(),
            old(diagnostics).wf(),
        ensures
            (parsed_view(r, |x: Expr<'a>| view_expr(x)), state_of(*final(tokenizer), *final(diagnostics))) == g_array(input_of(*old(tokenizer)), state_of(*old(tokenizer), *old(diagnostics))),
            try_parse_post(
                *old(tokenizer),
                *final(tokenizer),
                *old(diagnostics),
                *final(diagnostics),
                r,
                starts_array(next_token(*old(tokenizer)).kind),
            ),
            r matches Ok(Some(x)) ==> x.value matches Expr::Atom(AtomExpr::Array(_, _)),
        decreases old(tokenizer).measure(), 19int,
    {
        proof {
            reveal_with_fuel(g_array, 1);
        }
        let ghost t0 = *tokenizer;
        let ghost d0 = *diagnostics;
        proof {
            lemma_peek_outcome(t0);
        }
        let head = match try_pseudo_keyword(tokenizer, diagnostics, PseudoKeyword::Vec) {
            Some(start) => Some((start, ArrayKind::Vector)),
            None => {
                let ghost t1 = *tokenizer;
                let ghost d1 = *diagnostics;
                proof {
                    lemma_took_nothing(t0, t1, d0, d1);
                }
                match try_pseudo_keyword(tokenizer, diagnostics, PseudoKeyword::Mat) {
                    Some(start) => Some((start, ArrayKind::Matrix)),
                    None => {
                        proof {
                            lemma_took_nothing_trans(t0, t1, *tokenizer, d0, d1, *diagnostics);
                        }
                        None
                    },
                }
            },
        };
        let ghost t2 = *tokenizer;
        let ghost d2 = *diagnostics;
        let (start, kind) = match head {
            Some((start, kind)) => {
                expect_symbol(tokenizer, diagnostics, Symbol::BracketOpen, MismatchHandling::Consume)?;
                (start, kind)
            },
            None => {
                proof {
                    lemma_took_nothing(t0, t2, d0, d2);
                }
                match try_symbol(tokenizer, diagnostics, Symbol::BracketOpen) {
                    Some(start) => (start, ArrayKind::Array),
                    None => {
                        proof {
                            lemma_took_nothing_trans(t0, t2, *tokenizer, d0, d2, *diagnostics);
                        }
                        return Ok(None);
                    },
                }
            },
        };
        let list = Expr::parse_list_rest(tokenizer, diagnostics, start, Symbol::BracketClose)?;
        Ok(Some(Spanned { span: list.span, value: Expr::Atom(Self::Array(kind, list.value)) }))
    }
}

} // verus!
