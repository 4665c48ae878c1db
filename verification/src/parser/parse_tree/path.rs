use vstd::prelude::*;

use crate::parser::parse_tree::grammar::{gathered, g_path_from, g_path, input_of, parsed_view, state_of};

use crate::parser::{
    diagnostic::{Diagnostics, FatalParsingError},
    parse_tree::{
        expect_ident, items_post, parse_step, lemma_next_token, lemma_parse_step_trans, next_token, try_ident,
        try_parse_post, try_symbol, MismatchHandling,
    },
    source::{group_index_nonneg, Spanned},
    token::{ident::PseudoKeyword, lemma_tokenizer_measure_nonneg, symbol::Symbol, TokenKind, Tokenizer},
};

verus! {

broadcast use {group_index_nonneg, lemma_parse_step_trans, lemma_tokenizer_measure_nonneg, lemma_next_token};

/// Names separated by `::`.
pub type Path<'a> = Spanned<'a, Vec<Spanned<'a, Option<PseudoKeyword>>>>;

impl<'a> Spanned<'a, Vec<Spanned<'a, Option<PseudoKeyword>>>> {
    /// Parses an identifier and then, for each `::`, the identifier after it; where `::` is
    /// not followed by an identifier, reports it, skips to the next `;` or `]`, and ends the
    /// path.
    pub fn try_parse(tokenizer: &mut Tokenizer<'a>, diagnostics: &mut Diagnostics<'a>) -> (r: Result<
        Option<Self>,
        FatalParsingError,
    >)
        requires
            old(tokenizer).wf(),
            old(diagnostics).wf(),
        ensures
            (parsed_view(r, |x: Vec<Spanned<'a, Option<PseudoKeyword>>>| x@), state_of(*final(tokenizer), *final(diagnostics))) == g_path(input_of(*old(tokenizer)), state_of(*old(tokenizer), *old(diagnostics))),
            try_parse_post(
                *old(tokenizer),
                *final(tokenizer),
                *old(diagnostics),
                *final(diagnostics),
                match r {
                    Ok(Some(p)) => Ok::<Option<Spanned<'a, ()>>, FatalParsingError>(Some(Spanned { span: p.span, value: () })),
                    Ok(None) => Ok::<Option<Spanned<'a, ()>>, FatalParsingError>(None),
                    Err(e) => Err::<Option<Spanned<'a, ()>>, FatalParsingError>(e),
                },
                next_token(*old(tokenizer)).kind is Identifier,
            ),
            r matches Ok(Some(p)) ==> p.value.len() >= 1 && next_token(*old(tokenizer)).kind
                == TokenKind::Identifier(p.value@[0].value) && p.value@[0].span == next_token(
                *old(tokenizer),
            ).span,
    {
        let ghost t0 = *tokenizer;
        let ghost d0 = *diagnostics;
        let mut values: Vec<Spanned<'a, Option<PseudoKeyword>>> = Vec::new();
        let first = match try_ident(tokenizer, diagnostics) {
            Some(first) => first,
            None => return Ok(None),
        };
        values.push(first);
        let ghost c = input_of(t0);
        let ghost target = g_path_from(c, state_of(*tokenizer, *diagnostics), values@);
        proof {
            tokenizer.lemma_wf();
            assert(values@ == seq![first]);
        }
        loop
            invariant_except_break
                g_path_from(c, state_of(*tokenizer, *diagnostics), values@) == target,
            invariant
                c == input_of(t0),
                g_path(c, state_of(t0, d0)) == (
                    match target.0 {
                        Err(e) => Err(e),
                        Ok(l) => Ok(gathered(l)),
                    },
                    target.1,
                ),
                t0 == *old(tokenizer),
                d0 == *old(diagnostics),
                t0.wf(),
                parse_step(t0, *tokenizer, d0, *diagnostics),
                items_post(t0, *tokenizer, values@),
                next_token(t0).kind == TokenKind::Identifier(values@[0].value),
                values@[0].span == next_token(t0).span,
            ensures
                target == (
                    Ok::<Seq<Spanned<'a, Option<PseudoKeyword>>>, FatalParsingError>(values@),
                    state_of(*tokenizer, *diagnostics),
                ),
                c == input_of(t0),
                g_path(c, state_of(t0, d0)) == (
                    match target.0 {
                        Err(e) => Err(e),
                        Ok(l) => Ok(gathered(l)),
                    },
                    target.1,
                ),
                t0 == *old(tokenizer),
                d0 == *old(diagnostics),
                t0.wf(),
                parse_step(t0, *tokenizer, d0, *diagnostics),
                items_post(t0, *tokenizer, values@),
                next_token(t0).kind == TokenKind::Identifier(values@[0].value),
                values@[0].span == next_token(t0).span,
            decreases tokenizer.measure(),
        {
            proof {
                reveal_with_fuel(g_path_from, 1);
                tokenizer.lemma_wf();
            }
            if try_symbol(tokenizer, diagnostics, Symbol::DoubleColon).is_none() {
                break;
            }
            match try_ident(tokenizer, diagnostics) {
                Some(ident) => values.push(ident),
                None => {
                    expect_ident(
                        tokenizer,
                        diagnostics,
                        MismatchHandling::SkipTo(
                            TokenKind::Symbol(Symbol::Semicolon),
                            TokenKind::Symbol(Symbol::BracketClose),
                        ),
                    )?;
                    break;
                },
            }
        }
        let span = values[0].span.join(values[values.len() - 1].span);
        Ok(Some(span.into_spanned(values)))
    }
}

} // verus!
