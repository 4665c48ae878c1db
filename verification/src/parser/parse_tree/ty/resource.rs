use vstd::prelude::*;

use crate::parser::parse_tree::grammar::{g_resource, g_resource_ref, g_ty_expect, input_of, parsed_view, state_of, view_resource, view_resource_ref};

use crate::parser::{
    diagnostic::{Diagnostics, FatalParsingError},
    parse_tree::{
        expect_symbol, lemma_next_token, lemma_parse_step_trans, lemma_peek_outcome, next_token, peek_token,
        starts_resource, try_keyword, try_parse_post, try_symbol, ty::Ty, MismatchHandling,
    },
    source::{group_index_nonneg, SourceSpan, Spanned},
    token::{
        ident::PseudoKeyword, keyword::Keyword, lemma_tokenizer_measure_nonneg, symbol::Symbol, TokenKind,
        Tokenizer,
    },
};

verus! {

broadcast use {group_index_nonneg, lemma_parse_step_trans, lemma_tokenizer_measure_nonneg, lemma_next_token};

/// The GPU resource a resource type stands for.
#[derive(Clone, Copy, Debug, PartialEq, Eq, Structural)]
pub enum ResourceKind {
    Uniform,
    Storage,
    Sampler,
    Texture1d,
    Texture2d,
    Texture2dArray,
    Texture3d,
}

impl ResourceKind {
    /// The resource kind that a token names: `uniform`, `storage`, `sampler`, `texture_1d`,
    /// `texture_2d`, `texture_2d_array` or `texture_3d`.
    pub open spec fn spec_from_token(kind: TokenKind) -> Option<Self> {
        match kind {
            TokenKind::Identifier(Some(PseudoKeyword::Uniform)) => Some(ResourceKind::Uniform),
            TokenKind::Identifier(Some(PseudoKeyword::Storage)) => Some(ResourceKind::Storage),
            TokenKind::Identifier(Some(PseudoKeyword::Sampler)) => Some(ResourceKind::Sampler),
            TokenKind::Identifier(Some(PseudoKeyword::Texture1d)) => Some(ResourceKind::Texture1d),
            TokenKind::Identifier(Some(PseudoKeyword::Texture2d)) => Some(ResourceKind::Texture2d),
            TokenKind::Identifier(Some(PseudoKeyword::Texture2dArray)) => Some(ResourceKind::Texture2dArray),
            TokenKind::Identifier(Some(PseudoKeyword::Texture3d)) => Some(ResourceKind::Texture3d),
            _ => None,
        }
    }

    /// The resource kind that a token names, if any.
    pub fn from_token(kind: TokenKind) -> (r: Option<Self>)
        ensures
            r == Self::spec_from_token(kind),
    {
        match kind {
            TokenKind::Identifier(Some(PseudoKeyword::Uniform)) => Some(ResourceKind::Uniform),
            TokenKind::Identifier(Some(PseudoKeyword::Storage)) => Some(ResourceKind::Storage),
            TokenKind::Identifier(Some(PseudoKeyword::Sampler)) => Some(ResourceKind::Sampler),
            TokenKind::Identifier(Some(PseudoKeyword::Texture1d)) => Some(ResourceKind::Texture1d),
            TokenKind::Identifier(Some(PseudoKeyword::Texture2d)) => Some(ResourceKind::Texture2d),
            TokenKind::Identifier(Some(PseudoKeyword::Texture2dArray)) => Some(ResourceKind::Texture2dArray),
            TokenKind::Identifier(Some(PseudoKeyword::Texture3d)) => Some(ResourceKind::Texture3d),
            _ => None,
        }
    }

    /// A sampler stands alone; every other resource type has a type argument.
    pub open spec fn spec_has_argument(self) -> bool {
        self != ResourceKind::Sampler
    }

    /// Storage buffers and textures may be writable (`mut` before the type argument);
    /// uniform buffers may not.
    pub open spec fn spec_may_be_mutable(self) -> bool {
        self != ResourceKind::Sampler && self != ResourceKind::Uniform
    }

    /// Whether the resource type has a type argument.
    pub fn has_argument(self) -> (r: bool)
        ensures
            r == self.spec_has_argument(),
    {
        !matches!(self, ResourceKind::Sampler)
    }

    /// Whether the resource may be writable.
    pub fn may_be_mutable(self) -> (r: bool)
        ensures
            r == self.spec_may_be_mutable(),
    {
        !matches!(self, ResourceKind::Sampler | ResourceKind::Uniform)
    }
}

/// A resource type: `sampler`, or a resource with its type argument, such as `uniform<T>`,
/// `storage<mut T>` or `texture_2d<T>`.
pub struct ResourceTy<'a> {
    pub kind: ResourceKind,
    pub mutable: Option<SourceSpan<'a>>,
    pub argument: Option<Box<Spanned<'a, Ty<'a>>>>,
}

/// A resource reference `*T`.
pub struct ResourceRefTy<'a> {
    pub base: Box<Spanned<'a, Ty<'a>>>,
}

impl<'a> ResourceTy<'a> {
    /// Parses a resource type if the next token names a resource: the name, and for all but
    /// `sampler`, `<`, `mut` where the resource may be writable, the type argument and `>`.
    pub fn try_parse(tokenizer: &mut Tokenizer<'a>, diagnostics: &mut Diagnostics<'a>) -> (r: Result<
        Option<Spanned<'a, Self>>,
        FatalParsingError,
    >)
        requires
            old(tokenizer).wf(),
            old(diagnostics).wf(),
        ensures
            (parsed_view(r, |x: ResourceTy<'a>| view_resource(x)), state_of(*final(tokenizer), *final(diagnostics))) == g_resource(input_of(*old(tokenizer)), state_of(*old(tokenizer), *old(diagnostics))),
            try_parse_post(
                *old(tokenizer),
                *final(tokenizer),
                *old(diagnostics),
                *final(diagnostics),
                r,
                starts_resource(next_token(*old(tokenizer)).kind),
            ),
            r matches Ok(Some(x)) ==> Some(x.value.kind) == ResourceKind::spec_from_token(
                next_token(*old(tokenizer)).kind,
            ) && (x.value.argument is Some <==> x.value.kind.spec_has_argument()),
        decreases old(tokenizer).measure(), 3int,
    {
        proof {
            reveal_with_fuel(g_resource, 1);
            reveal_with_fuel(g_ty_expect, 1);
        }
        let ghost t0 = *tokenizer;
        proof {
            lemma_peek_outcome(t0);
        }
        let token = peek_token(tokenizer, diagnostics);
        let kind = match ResourceKind::from_token(token.kind) {
            Some(kind) => kind,
            None => return Ok(None),
        };
        proof {
            tokenizer.lemma_wf();
        }
        let _ = tokenizer.next();
        let start = token.span;
        if !kind.has_argument() {
            return Ok(Some(start.into_spanned(Self { kind, mutable: None, argument: None })));
        }
        expect_symbol(tokenizer, diagnostics, Symbol::LessThan, MismatchHandling::Consume)?;
        let mutable = if kind.may_be_mutable() {
            try_keyword(tokenizer, diagnostics, Keyword::Mut)
        } else {
            None
        };
        let argument = Ty::expect_parse(tokenizer, diagnostics, MismatchHandling::ConsumeUntilSafe)?;
        let end = expect_symbol(tokenizer, diagnostics, Symbol::GreaterThan, MismatchHandling::Consume)?;
        Ok(Some(start.join(end).into_spanned(Self { kind, mutable, argument: Some(Box::new(argument)) })))
    }
}

impl<'a> ResourceRefTy<'a> {
    /// Parses `*` and a type, if the next token is `*`.
    pub fn try_parse(tokenizer: &mut Tokenizer<'a>, diagnostics: &mut Diagnostics<'a>) -> (r: Result<
        Option<Spanned<'a, Self>>,
        FatalParsingError,
    >)
        requires
            old(tokenizer).wf(),
            old(diagnostics).wf(),
        ensures
            (parsed_view(r, |x: ResourceRefTy<'a>| view_resource_ref(x)), state_of(*final(tokenizer), *final(diagnostics))) == g_resource_ref(input_of(*old(tokenizer)), state_of(*old(tokenizer), *old(diagnostics))),
            try_parse_post(
                *old(tokenizer),
                *final(tokenizer),
                *old(diagnostics),
                *final(diagnostics),
                r,
                next_token(*old(tokenizer)).kind == TokenKind::Symbol(Symbol::Multiply),
            ),
        decreases old(tokenizer).measure(), 3int,
    {
        proof {
            reveal_with_fuel(g_resource_ref, 1);
            reveal_with_fuel(g_ty_expect, 1);
        }
        let start = match try_symbol(tokenizer, diagnostics, Symbol::Multiply) {
            Some(start) => start,
            None => return Ok(None),
        };
        let base = Ty::expect_parse(tokenizer, diagnostics, MismatchHandling::ConsumeUntilSafe)?;
        Ok(Some(start.join(base.span).into_spanned(Self { base: Box::new(base) })))
    }
}

} // verus!
