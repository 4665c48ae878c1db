use vstd::prelude::*;

use crate::parser::parse_tree::grammar::{lemma_view_parts_push, g_parts, g_start, g_symbol_path, input_of, parsed_view, state_of, view_symbol_path};

pub mod generic;
pub mod part;
pub mod start;
pub mod type_part;

use crate::parser::{
    diagnostic::{Diagnostics, FatalParsingError},
    parse_tree::{
        lemma_next_token, lemma_parse_step_trans, next_token, starts_symbol_path, symbol::{part::SymbolPathPart, start::SymbolPathStart},
        try_parse_post,
    },
    source::{group_index_nonneg, Spanned},
    token::{lemma_tokenizer_measure_nonneg, TokenKind, Tokenizer},
};

verus! {

broadcast use {group_index_nonneg, lemma_parse_step_trans, lemma_tokenizer_measure_nonneg, lemma_next_token};

/// A path to a symbol: a name or a `type[..]` part, then parts that name members or give
/// generic arguments.
pub struct SymbolPath<'a> {
    pub first: Box<Spanned<'a, SymbolPathStart<'a>>>,
    pub parts: Vec<Spanned<'a, SymbolPathPart<'a>>>,
}

impl<'a> SymbolPath<'a> {
    /// Parses a symbol path if the next token is an identifier or `type`. With
    /// `lenient_generic_separation`, generic arguments may follow a part without `::`.
    pub fn try_parse(
        tokenizer: &mut Tokenizer<'a>,
        diagnostics: &mut Diagnostics<'a>,
        lenient_generic_separation: bool,
    ) -> (r: Result<Option<Spanned<'a, Self>>, FatalParsingError>)
        requires
            old(tokenizer).wf(),
            old(diagnostics).wf(),
        ensures
            (parsed_view(r, |x: SymbolPath<'a>| view_symbol_path(x)), state_of(*final(tokenizer), *final(diagnostics))) == g_symbol_path(input_of(*old(tokenizer)), state_of(*old(tokenizer), *old(diagnostics)), lenient_generic_separation),
            try_parse_post(
                *old(tokenizer),
                *final(tokenizer),
                *old(diagnostics),
                *final(diagnostics),
                r,
                starts_symbol_path(next_token(*old(tokenizer)).kind),
            ),
            r matches Ok(Some(x)) ==> match next_token(*old(tokenizer)).kind {
                TokenKind::Identifier(pseudo) => x.value.first.value == SymbolPathStart::<'a>::Ident(pseudo)
                    && x.value.first.span == next_token(*old(tokenizer)).span,
                _ => x.value.first.value is Type,
            },
        decreases old(tokenizer).measure(), 9int,
    {
        proof {
            reveal_with_fuel(g_symbol_path, 1);
            reveal_with_fuel(g_parts, 1);
            reveal_with_fuel(g_start, 1);
        }
        let first = match SymbolPathStart::try_parse(tokenizer, diagnostics)? {
            Some(first) => first,
            None => return Ok(None),
        };
        let parts = SymbolPathPart::try_many(tokenizer, diagnostics, lenient_generic_separation)?;
        let (parts_span, parts) = match parts {
            Some(parts) => (parts.span, parts.value),
            None => (first.span, Vec::new()),
        };
        proof {
            lemma_view_parts_push(parts@, arbitrary());
        }
        let span = first.span.join(parts_span);
        Ok(Some(span.into_spanned(Self { first: Box::new(first), parts })))
    }
}

} // verus!
