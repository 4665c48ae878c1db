use vstd::prelude::*;

use crate::parser::parse_tree::grammar::{g_start, g_type_part, input_of, parsed_view, state_of, view_start};

use crate::parser::{
    diagnostic::{Diagnostics, FatalParsingError},
    parse_tree::{
        lemma_next_token, lemma_parse_step_trans, lemma_took_nothing, lemma_took_nothing_trans,
        next_token, starts_symbol_path, symbol::type_part::TypePart, try_ident, try_parse_post,
    },
    source::{group_index_nonneg, Spanned},
    token::{ident::PseudoKeyword, lemma_tokenizer_measure_nonneg, TokenKind, Tokenizer},
};

verus! {

broadcast use {group_index_nonneg, lemma_parse_step_trans, lemma_tokenizer_measure_nonneg, lemma_next_token};

/// The first part of a symbol path: a name, or a `type[..]` part.
pub enum SymbolPathStart<'a> {
    Ident(Option<PseudoKeyword>),
    Type(TypePart<'a>),
}

impl<'a> SymbolPathStart<'a> {
    /// Parses an identifier, or a `type[..]` part.
    pub fn try_parse(tokenizer: &mut Tokenizer<'a>, diagnostics: &mut Diagnostics<'a>) -> (r: Result<
        Option<Spanned<'a, Self>>,
        FatalParsingError,
    >)
        requires
            old(tokenizer).wf(),
            old(diagnostics).wf(),
        ensures
            (parsed_view(r, |x: SymbolPathStart<'a>| view_start(x)), state_of(*final(tokenizer), *final(diagnostics))) == g_start(input_of(*old(tokenizer)), state_of(*old(tokenizer), *old(diagnostics))),
            try_parse_post(
                *old(tokenizer),
                *final(tokenizer),
                *old(diagnostics),
                *final(diagnostics),
                r,
                starts_symbol_path(next_token(*old(tokenizer)).kind),
            ),
            r matches Ok(Some(x)) ==> match next_token(*old(tokenizer)).kind {
                TokenKind::Identifier(pseudo) => x.value == SymbolPathStart::<'a>::Ident(pseudo)
                    && x.span == next_token(*old(tokenizer)).span,
                _ => x.value is Type,
            },
        decreases old(tokenizer).measure(), 8int,
    {
        proof {
            reveal_with_fuel(g_start, 1);
            reveal_with_fuel(g_type_part, 1);
        }
        let ghost t0 = *tokenizer;
        let ghost d0 = *diagnostics;
        if let Some(ident) = try_ident(tokenizer, diagnostics) {
            return Ok(Some(Spanned { span: ident.span, value: Self::Ident(ident.value) }));
        }
        let ghost t1 = *tokenizer;
        let ghost d1 = *diagnostics;
        proof {
            lemma_took_nothing(t0, t1, d0, d1);
        }
        if let Some(type_as) = TypePart::try_parse(tokenizer, diagnostics)? {
            return Ok(Some(Spanned { span: type_as.span, value: Self::Type(type_as.value) }));
        }
        proof {
            lemma_took_nothing_trans(t0, t1, *tokenizer, d0, d1, *diagnostics);
        }
        Ok(None)
    }
}

} // verus!
