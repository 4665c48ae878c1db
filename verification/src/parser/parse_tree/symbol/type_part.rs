use vstd::prelude::*;

use crate::parser::parse_tree::grammar::{g_ty_expect, g_type_part, input_of, parsed_view, state_of, view_type_part};

use crate::parser::{
    diagnostic::{Diagnostics, FatalParsingError},
    parse_tree::{
        expect_symbol, lemma_next_token, lemma_parse_step_trans, next_token, try_keyword,
        try_parse_post, ty::Ty, MismatchHandling,
    },
    source::{group_index_nonneg, Spanned},
    token::{keyword::Keyword, lemma_tokenizer_measure_nonneg, symbol::Symbol, TokenKind, Tokenizer},
};

verus! {

broadcast use {group_index_nonneg, lemma_parse_step_trans, lemma_tokenizer_measure_nonneg, lemma_next_token};

/// `type[T]` or `type[T as U]`: a type used as the start of a symbol path.
pub struct TypePart<'a> {
    pub ty: Spanned<'a, Ty<'a>>,
    pub as_ty: Option<Spanned<'a, Ty<'a>>>,
}

impl<'a> TypePart<'a> {
    /// Parses `type`, `[`, a type, an optional `as` and type, and `]`, if the next token is
    /// `type`.
    pub fn try_parse(tokenizer: &mut Tokenizer<'a>, diagnostics: &mut Diagnostics<'a>) -> (r: Result<
        Option<Spanned<'a, Self>>,
        FatalParsingError,
    >)
        requires
            old(tokenizer).wf(),
            old(diagnostics).wf(),
        ensures
            (parsed_view(r, |x: TypePart<'a>| view_type_part(x)), state_of(*final(tokenizer), *final(diagnostics))) == g_type_part(input_of(*old(tokenizer)), state_of(*old(tokenizer), *old(diagnostics))),
            try_parse_post(
                *old(tokenizer),
                *final(tokenizer),
                *old(diagnostics),
                *final(diagnostics),
                r,
                next_token(*old(tokenizer)).kind == TokenKind::Keyword(Keyword::Type),
            ),
        decreases old(tokenizer).measure(), 7int,
    {
        proof {
            reveal_with_fuel(g_type_part, 1);
            reveal_with_fuel(g_ty_expect, 1);
        }
        let start = match try_keyword(tokenizer, diagnostics, Keyword::Type) {
            Some(start) => start,
            None => return Ok(None),
        };
        expect_symbol(tokenizer, diagnostics, Symbol::BracketOpen, MismatchHandling::Consume)?;
        let ty = Ty::expect_parse(tokenizer, diagnostics, MismatchHandling::ConsumeUntilSafe)?;
        let as_ty = if try_keyword(tokenizer, diagnostics, Keyword::As).is_some() {
            Some(Ty::expect_parse(tokenizer, diagnostics, MismatchHandling::ConsumeUntilSafe)?)
        } else {
            None
        };
        let end = expect_symbol(tokenizer, diagnostics, Symbol::BracketClose, MismatchHandling::Consume)?;
        Ok(Some(start.join(end).into_spanned(Self { ty, as_ty })))
    }
}

} // verus!
