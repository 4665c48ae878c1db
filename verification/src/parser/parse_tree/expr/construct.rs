use vstd::prelude::*;

use crate::parser::parse_tree::grammar::{expected_view, g_dot_path_from, g_expr_expect, g_field_inits_from, g_struct_init, input_of, lemma_view_field_inits_push, parsed_view, state_of, view_expr, view_field_inits, view_struct_init, AtomView, ExprView};

use crate::parser::{
    diagnostic::{Diagnostics, FatalParsingError},
    parse_tree::{
        expect_ident, expect_symbol, expr::{atom::AtomExpr, Expr}, fatal_last, lemma_next_token,
        lemma_parse_step_trans, lemma_peek_outcome, next_token, parse_step, span_in, try_ident,
        try_parse_post, try_pseudo_keyword, try_symbol, MismatchHandling,
    },
    source::{group_index_nonneg, SourceSpan, Spanned},
    token::{ident::PseudoKeyword, lemma_tokenizer_measure_nonneg, symbol::Symbol, TokenKind, Tokenizer},
};

verus! {

broadcast use {group_index_nonneg, lemma_parse_step_trans, lemma_tokenizer_measure_nonneg, lemma_next_token};

/// A field initializer: `name: value`, or `name` alone, which takes the value of the
/// variable of that name.
pub struct FieldInit<'a> {
    pub name: Spanned<'a, Option<PseudoKeyword>>,
    pub value: Option<Spanned<'a, Expr<'a>>>,
}

/// A struct construction `new Path { initializers }`: the path names the struct, with its
/// names separated by `.`.
pub struct StructInit<'a> {
    pub path: Spanned<'a, Vec<Spanned<'a, Option<PseudoKeyword>>>>,
    pub fields: Vec<Spanned<'a, FieldInit<'a>>>,
}

impl<'a> StructInit<'a> {
    /// Parses `new`, a path of names separated by `.`, `{`, field initializers separated by
    /// `,` (a trailing `,` allowed), and `}`, if the next token is `new`.
    pub fn try_parse(tokenizer: &mut Tokenizer<'a>, diagnostics: &mut Diagnostics<'a>) -> (r: Result<
        Option<Spanned<'a, Expr<'a>>>,
        FatalParsingError,
    >)
        requires
            old(tokenizer).wf(),
            old(diagnostics).wf(),
        ensures
            (parsed_view(r, |x: Expr<'a>| view_expr(x)), state_of(*final(tokenizer), *final(diagnostics))) == g_struct_init(input_of(*old(tokenizer)), state_of(*old(tokenizer), *old(diagnostics))),
            try_parse_post(
                *old(tokenizer),
                *final(tokenizer),
                *old(diagnostics),
                *final(diagnostics),
                r,
                next_token(*old(tokenizer)).kind == TokenKind::Identifier(Some(PseudoKeyword::New)),
            ),
            r matches Ok(Some(x)) ==> x.value matches Expr::Atom(AtomExpr::Struct(_)),
        decreases old(tokenizer).measure(), 18int,
    {
        proof {
            reveal_with_fuel(g_struct_init, 1);
            reveal_with_fuel(g_field_inits_from, 1);
            reveal_with_fuel(g_expr_expect, 1);
        }
        let ghost t0 = *tokenizer;
        proof {
            lemma_peek_outcome(t0);
        }
        let start = match try_pseudo_keyword(tokenizer, diagnostics, PseudoKeyword::New) {
            Some(start) => start,
            None => return Ok(None),
        };
        let first = expect_ident(tokenizer, diagnostics, MismatchHandling::Skip)?;
        let first_span = first.span;
        let names = Self::parse_dot_path(tokenizer, diagnostics, first);
        let last = names[names.len() - 1].span;
        let path_span = first_span.join(last);
        expect_symbol(tokenizer, diagnostics, Symbol::BraceOpen, MismatchHandling::Consume)?;
        let fields = Self::parse_field_inits_rest(tokenizer, diagnostics, start)?;
        let construction = StructInit { path: path_span.into_spanned(names), fields: fields.value };
        assert(view_struct_init(construction).path.value == construction.path.value@);
        assert(view_expr(Expr::Atom(AtomExpr::Struct(construction))) == ExprView::Atom(AtomView::Struct(view_struct_init(construction))));
        Ok(Some(Spanned { span: fields.span, value: Expr::Atom(AtomExpr::Struct(construction)) }))
    }

    /// Parses `.` and a name, for as long as they come, after the name `first`; a `.` without
    /// a name after it is reported and ends the path.
    fn parse_dot_path(
        tokenizer: &mut Tokenizer<'a>,
        diagnostics: &mut Diagnostics<'a>,
        first: Spanned<'a, Option<PseudoKeyword>>,
    ) -> (r: Vec<Spanned<'a, Option<PseudoKeyword>>>)
        requires
            old(tokenizer).wf(),
            old(diagnostics).wf(),
            span_in(*old(tokenizer), first.span),
        ensures
            (r@, state_of(*final(tokenizer), *final(diagnostics))) == g_dot_path_from(input_of(*old(tokenizer)), state_of(*old(tokenizer), *old(diagnostics)), seq![first]),
            parse_step(*old(tokenizer), *final(tokenizer), *old(diagnostics), *final(diagnostics)),
            r@.len() >= 1,
            r@[0] == first,
            forall|k: int| 0 <= k < r@.len() ==> span_in(*old(tokenizer), #[trigger] r@[k].span),
    {
        let ghost t0 = *tokenizer;
        let ghost d0 = *diagnostics;
        let ghost c = input_of(t0);
        let ghost target = g_dot_path_from(c, state_of(t0, d0), seq![first]);
        let mut values: Vec<Spanned<'a, Option<PseudoKeyword>>> = Vec::new();
        values.push(first);
        assert(values@ == seq![first]);
        loop
            invariant
                c == input_of(t0),
                g_dot_path_from(c, state_of(*tokenizer, *diagnostics), values@) == target,
                target == g_dot_path_from(c, state_of(t0, d0), seq![first]),
                t0 == *old(tokenizer),
                d0 == *old(diagnostics),
                t0.wf(),
                parse_step(t0, *tokenizer, d0, *diagnostics),
                values@.len() >= 1,
                values@[0] == first,
                forall|k: int| 0 <= k < values@.len() ==> span_in(t0, #[trigger] values@[k].span),
            decreases tokenizer.measure(),
        {
            proof {
                reveal_with_fuel(g_dot_path_from, 1);
                tokenizer.lemma_wf();
            }
            if try_symbol(tokenizer, diagnostics, Symbol::Dot).is_none() {
                return values;
            }
            match try_ident(tokenizer, diagnostics) {
                Some(ident) => {
                    values.push(ident);
                },
                None => {
                    let _ = expect_ident(tokenizer, diagnostics, MismatchHandling::Skip);
                    return values;
                },
            }
        }
    }

    /// Parses the rest of the field initializers of a struct construction that began with
    /// `start` (which the tokenizer has passed, with its `{`): initializers separated by `,`
    /// (a trailing `,` allowed), and `}`. Where they do not go on with `,` or `}`, that is
    /// reported and the token taken.
    fn parse_field_inits_rest(
        tokenizer: &mut Tokenizer<'a>,
        diagnostics: &mut Diagnostics<'a>,
        start: SourceSpan<'a>,
    ) -> (r: Result<Spanned<'a, Vec<Spanned<'a, FieldInit<'a>>>>, FatalParsingError>)
        requires
            old(tokenizer).wf(),
            old(diagnostics).wf(),
            span_in(*old(tokenizer), start),
            start.end() <= old(tokenizer).pos(),
        ensures
            (expected_view(r, |x: Vec<Spanned<'a, FieldInit<'a>>>| view_field_inits(x@)), state_of(*final(tokenizer), *final(diagnostics))) == g_field_inits_from(input_of(*old(tokenizer)), state_of(*old(tokenizer), *old(diagnostics)), start, Seq::empty()),
            parse_step(*old(tokenizer), *final(tokenizer), *old(diagnostics), *final(diagnostics)),
            r matches Ok(x) ==> span_in(*old(tokenizer), x.span) && x.span.start() == start.start()
                && final(tokenizer).pos() >= x.span.start(),
            r is Err ==> fatal_last(final(diagnostics)@),
        decreases old(tokenizer).measure(), 31int,
    {
        proof {
            reveal_with_fuel(g_field_inits_from, 1);
            reveal_with_fuel(g_expr_expect, 1);
        }
        let ghost t0 = *tokenizer;
        let ghost d0 = *diagnostics;
        let ghost c = input_of(t0);
        let ghost target = g_field_inits_from(c, state_of(t0, d0), start, Seq::empty());
        proof {
            tokenizer.lemma_wf();
        }
        let mut values: Vec<Spanned<'a, FieldInit<'a>>> = Vec::new();
        proof {
            lemma_view_field_inits_push(values@, arbitrary());
        }
        loop
            invariant
                c == input_of(t0),
                g_field_inits_from(c, state_of(*tokenizer, *diagnostics), start, view_field_inits(values@)) == target,
                target == g_field_inits_from(c, state_of(t0, d0), start, Seq::empty()),
                t0 == *old(tokenizer),
                d0 == *old(diagnostics),
                t0.wf(),
                parse_step(t0, *tokenizer, d0, *diagnostics),
                tokenizer.pos() >= start.end(),
                span_in(t0, start),
            decreases tokenizer.measure(),
        {
            proof {
                reveal_with_fuel(g_field_inits_from, 1);
                reveal_with_fuel(g_expr_expect, 1);
                tokenizer.lemma_wf();
            }
            let ghost before = values@;
            if let Some(end) = try_symbol(tokenizer, diagnostics, Symbol::BraceClose) {
                return Ok(start.join(end).into_spanned(values));
            }
            let name = expect_ident(tokenizer, diagnostics, MismatchHandling::ConsumeUntilSafe)?;
            let value = if try_symbol(tokenizer, diagnostics, Symbol::Colon).is_some() {
                Some(Expr::expect_parse(tokenizer, diagnostics, MismatchHandling::ConsumeUntilSafe)?)
            } else {
                None
            };
            let span = match &value {
                Some(v) => name.span.join(v.span),
                None => name.span,
            };
            let item = Spanned { span, value: FieldInit { name, value } };
            values.push(item);
            proof {
                lemma_view_field_inits_push(before, item);
                tokenizer.lemma_wf();
            }
            if try_symbol(tokenizer, diagnostics, Symbol::Comma).is_some() {
                continue;
            }
            let end = expect_symbol(tokenizer, diagnostics, Symbol::BraceClose, MismatchHandling::Consume)?;
            return Ok(start.join(end).into_spanned(values));
        }
    }
}

} // verus!
