use vstd::prelude::*;

use crate::parser::parse_tree::grammar::{g_reference, g_ty_expect, input_of, parsed_view, state_of, view_reference};

use crate::parser::{
    diagnostic::{Diagnostics, FatalParsingError},
    parse_tree::{
        lemma_next_token, lemma_parse_step_trans, lemma_peek_outcome, next_token, token_after, try_keyword,
        try_parse_post, try_symbol, ty::Ty, MismatchHandling,
    },
    source::{group_index_nonneg, SourceSpan, Spanned},
    token::{keyword::Keyword, lemma_tokenizer_measure_nonneg, symbol::Symbol, TokenKind, Tokenizer},
};

verus! {

broadcast use {group_index_nonneg, lemma_next_token, lemma_parse_step_trans, lemma_tokenizer_measure_nonneg};

/// A reference type: `&T` or `&mut T`.
pub struct ReferenceTy<'a> {
    pub base: Box<Spanned<'a, Ty<'a>>>,
    pub mutable: Option<SourceSpan<'a>>,
}

impl<'a> ReferenceTy<'a> {
    /// Parses `&`, an optional `mut`, and a type, if the next token is `&`.
    pub fn try_parse(tokenizer: &mut Tokenizer<'a>, diagnostics: &mut Diagnostics<'a>) -> (r: Result<
        Option<Spanned<'a, Self>>,
        FatalParsingError,
    >)
        requires
            old(tokenizer).wf(),
            old(diagnostics).wf(),
        ensures
            (parsed_view(r, |x: ReferenceTy<'a>| view_reference(x)), state_of(*final(tokenizer), *final(diagnostics))) == g_reference(input_of(*old(tokenizer)), state_of(*old(tokenizer), *old(diagnostics))),
            try_parse_post(
                *old(tokenizer),
                *final(tokenizer),
                *old(diagnostics),
                *final(diagnostics),
                r,
                next_token(*old(tokenizer)).kind == TokenKind::Symbol(Symbol::BitwiseAnd),
            ),
            r matches Ok(Some(x)) ==> x.value.mutable == if token_after(*old(tokenizer)).kind
                == TokenKind::Keyword(Keyword::Mut) {
                Some(token_after(*old(tokenizer)).span)
            } else {
                None::<SourceSpan<'a>>
            },
        decreases old(tokenizer).measure(), 2int,
    {
        proof {
            reveal_with_fuel(g_reference, 1);
            reveal_with_fuel(g_ty_expect, 1);
        }
        let ghost t0 = *tokenizer;
        proof {
            lemma_peek_outcome(t0);
        }
        let start = match try_symbol(tokenizer, diagnostics, Symbol::BitwiseAnd) {
            Some(start) => start,
            None => return Ok(None),
        };
        let ghost t1 = *tokenizer;
        assert(t1.pos() >= start.end());
        let mutable = try_keyword(tokenizer, diagnostics, Keyword::Mut);
        let ty = Ty::expect_parse(tokenizer, diagnostics, MismatchHandling::ConsumeUntilSafe)?;
        Ok(Some(start.join(ty.span).into_spanned(Self { base: Box::new(ty), mutable })))
    }
}

} // verus!
