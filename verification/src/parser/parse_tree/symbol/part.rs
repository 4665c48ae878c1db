use vstd::prelude::*;

use crate::parser::parse_tree::grammar::{PartView, lemma_view_parts_push, g_generic_list, g_part, g_parts, g_parts_from, input_of, parsed_view, state_of, view_part, view_parts};

use crate::parser::{
    diagnostic::{DiagnosticKind, Diagnostics, FatalParsingError},
    parse_tree::{
        ident_pseudo, items_post_within, token_after, lemma_next_token, lemma_parse_step_trans, lemma_took_nothing, lemma_took_nothing_trans,
        next_token, parse_step, peek_token, took_nothing, symbol::generic::GenericArgument, try_ident,
        try_parse_post_within, try_symbol,
    },
    source::{group_index_nonneg, Spanned},
    token::{ident::PseudoKeyword, lemma_tokenizer_measure_nonneg, symbol::Symbol, TokenKind, Tokenizer},
};

verus! {

broadcast use {group_index_nonneg, lemma_parse_step_trans, lemma_tokenizer_measure_nonneg, lemma_next_token};

/// A part of a symbol path after its start: `::name`, or generic arguments `[..]`.
/// `Error` stands where `::` is followed by neither.
pub enum SymbolPathPart<'a> {
    Ident(Option<PseudoKeyword>),
    Generics(Vec<Spanned<'a, GenericArgument<'a>>>),
    Error,
}

/// A symbol path part starts with `::`, or (where generics may follow a part directly)
/// with `[`.
pub open spec fn starts_symbol_path_part(k: TokenKind, lenient_generic_separation: bool) -> bool {
    k == TokenKind::Symbol(Symbol::DoubleColon) || (lenient_generic_separation && k
        == TokenKind::Symbol(Symbol::BracketOpen))
}

impl<'a> SymbolPathPart<'a> {
    /// Parses `::` followed by generic arguments or a name (reporting an error when neither
    /// follows), or, with `lenient_generic_separation`, generic arguments on their own. The
    /// part's span leaves out the `::` when a name or generics follow it.
    pub fn try_parse(
        tokenizer: &mut Tokenizer<'a>,
        diagnostics: &mut Diagnostics<'a>,
        lenient_generic_separation: bool,
    ) -> (r: Result<Option<Spanned<'a, Self>>, FatalParsingError>)
        requires
            old(tokenizer).wf(),
            old(diagnostics).wf(),
        ensures
            (parsed_view(r, |x: SymbolPathPart<'a>| view_part(x)), state_of(*final(tokenizer), *final(diagnostics))) == g_part(input_of(*old(tokenizer)), state_of(*old(tokenizer), *old(diagnostics)), lenient_generic_separation),
            try_parse_post_within(
                *old(tokenizer),
                *final(tokenizer),
                *old(diagnostics),
                *final(diagnostics),
                r,
                starts_symbol_path_part(next_token(*old(tokenizer)).kind, lenient_generic_separation),
            ),
            r matches Ok(Some(x)) ==> {
                let k = next_token(*old(tokenizer)).kind;
                let after = token_after(*old(tokenizer));
                if lenient_generic_separation && k == TokenKind::Symbol(Symbol::BracketOpen) {
                    x.value is Generics
                } else {
                    &&& k == TokenKind::Symbol(Symbol::DoubleColon)
                    &&& after.kind == TokenKind::Symbol(Symbol::BracketOpen) ==> x.value is Generics
                    &&& after.kind is Identifier ==> x.value == SymbolPathPart::<'a>::Ident(
                        ident_pseudo(after.kind),
                    ) && x.span == after.span
                    &&& after.kind != TokenKind::Symbol(Symbol::BracketOpen) && !(after.kind is Identifier)
                        ==> x.value is Error
                }
            },
        decreases old(tokenizer).measure(), 5int,
    {
        proof {
            reveal_with_fuel(g_part, 1);
            reveal_with_fuel(g_generic_list, 1);
        }
        let ghost t0 = *tokenizer;
        let ghost d0 = *diagnostics;
        if lenient_generic_separation {
            if let Some(generics) = GenericArgument::try_list(tokenizer, diagnostics)? {
                return Ok(Some(Spanned { span: generics.span, value: Self::Generics(generics.value) }));
            }
        }
        let ghost t1 = *tokenizer;
        let ghost d1 = *diagnostics;
        proof {
            if lenient_generic_separation {
                lemma_took_nothing(t0, t1, d0, d1);
            } else {
                assert(d0@ =~= d1@.subrange(0, d0@.len() as int));
            }
        }
        let start = match try_symbol(tokenizer, diagnostics, Symbol::DoubleColon) {
            Some(start) => start,
            None => {
                proof {
                    if lenient_generic_separation {
                        lemma_took_nothing_trans(t0, t1, *tokenizer, d0, d1, *diagnostics);
                    }
                }
                return Ok(None);
            },
        };
        let ghost t2 = *tokenizer;
        let ghost d2 = *diagnostics;
        assert(next_token(t2) == token_after(t0));
        if let Some(generics) = GenericArgument::try_list(tokenizer, diagnostics)? {
            return Ok(Some(Spanned { span: generics.span, value: Self::Generics(generics.value) }));
        }
        let ghost t3 = *tokenizer;
        let ghost d3 = *diagnostics;
        proof {
            lemma_took_nothing(t2, t3, d2, d3);
        }
        if let Some(ident) = try_ident(tokenizer, diagnostics) {
            return Ok(Some(Spanned { span: ident.span, value: Self::Ident(ident.value) }));
        }
        let token = peek_token(tokenizer, diagnostics);
        let span = start.join(token.span);
        diagnostics.push_error(
            DiagnosticKind::ExpectedSymbolPathPart { got: Box::new(DiagnosticKind::from_token(token)) },
            span,
        );
        Ok(Some(span.into_spanned(Self::Error)))
    }

    /// Parses symbol path parts as long as there are any; `None` when there is none.
    pub fn try_many(
        tokenizer: &mut Tokenizer<'a>,
        diagnostics: &mut Diagnostics<'a>,
        lenient_generic_separation: bool,
    ) -> (r: Result<Option<Spanned<'a, Vec<Spanned<'a, Self>>>>, FatalParsingError>)
        requires
            old(tokenizer).wf(),
            old(diagnostics).wf(),
        ensures
            (parsed_view(r, |x: Vec<Spanned<'a, SymbolPathPart<'a>>>| view_parts(x@)), state_of(*final(tokenizer), *final(diagnostics))) == g_parts(input_of(*old(tokenizer)), state_of(*old(tokenizer), *old(diagnostics)), lenient_generic_separation),
            try_parse_post_within(
                *old(tokenizer),
                *final(tokenizer),
                *old(diagnostics),
                *final(diagnostics),
                r,
                starts_symbol_path_part(next_token(*old(tokenizer)).kind, lenient_generic_separation),
            ),
        decreases old(tokenizer).measure(), 6int,
    {
        proof {
            reveal_with_fuel(g_parts, 1);
            reveal_with_fuel(g_parts_from, 1);
        }
        let ghost t0 = *tokenizer;
        let ghost d0 = *diagnostics;
        let ghost starts = starts_symbol_path_part(next_token(t0).kind, lenient_generic_separation);
        let ghost c = input_of(t0);
        let mut values: Vec<Spanned<'a, Self>> = Vec::new();
        proof {
            lemma_view_parts_push(values@, arbitrary());
        }
        loop
            invariant_except_break
                values.len() == 0 ==> *tokenizer == t0 && *diagnostics == d0,
                g_parts_from(c, state_of(t0, d0), lenient_generic_separation, Seq::empty()) == g_parts_from(
                    c,
                    state_of(*tokenizer, *diagnostics), lenient_generic_separation,
                    view_parts(values@),
                ),
            invariant
                c == input_of(t0),
                t0 == *old(tokenizer),
                d0 == *old(diagnostics),
                t0.wf(),
                d0.wf(),
                starts == starts_symbol_path_part(next_token(t0).kind, lenient_generic_separation),
                parse_step(t0, *tokenizer, d0, *diagnostics),
                values.len() > 0 ==> items_post_within(t0, *tokenizer, values@) && starts,
            ensures
                g_parts_from(c, state_of(t0, d0), lenient_generic_separation, Seq::empty()) == (
                    Ok::<Seq<Spanned<'a, PartView<'a>>>, FatalParsingError>(view_parts(values@)),
                    state_of(*tokenizer, *diagnostics),
                ),
                parse_step(t0, *tokenizer, d0, *diagnostics),
                values.len() == 0 ==> took_nothing(t0, *tokenizer, d0@, diagnostics@) && !starts,
                values.len() > 0 ==> items_post_within(t0, *tokenizer, values@) && starts,
            decreases tokenizer.measure(),
        {
            proof {
                reveal_with_fuel(g_parts, 1);
                reveal_with_fuel(g_parts_from, 1);
                reveal_with_fuel(g_part, 1);
                tokenizer.lemma_wf();
            }
            let ghost before = values@;
            let value = match Self::try_parse(tokenizer, diagnostics, lenient_generic_separation)? {
                Some(value) => value,
                None => break,
            };
            values.push(value);
            proof {
                lemma_view_parts_push(before, value);
                tokenizer.lemma_wf();
            }
        }
        if values.len() == 0 {
            return Ok(None);
        }
        let span = values[0].span.join(values[values.len() - 1].span);
        Ok(Some(span.into_spanned(values)))
    }
}

} // verus!
