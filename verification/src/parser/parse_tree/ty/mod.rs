use vstd::prelude::*;

use crate::parser::parse_tree::grammar::{expected_view, g_reference, g_resource, g_resource_ref, g_slice, g_symbol_path, g_ty, g_ty_expect, g_ty_rest, g_vector, input_of, lemma_expect_parse_view, parsed_view, state_of, view_ty};

pub mod reference;
pub mod resource;
pub mod slice;
pub mod vector;

use crate::parser::{
    diagnostic::{Diagnostics, FatalParsingError},
    parse_tree::{
        expect_parse, expect_parse_post, lemma_took_nothing, lemma_took_nothing_trans,
        lemma_parse_step_trans, next_token, starts_resource, starts_symbol_path, starts_ty, starts_vector, symbol::SymbolPath,
        try_parse_post, ty::{
            reference::ReferenceTy, resource::{ResourceRefTy, ResourceTy}, slice::SliceTy,
            vector::VectorTy,
        }, Expectation,
        MismatchHandling,
    },
    source::{group_index_nonneg, Spanned},
    token::{lemma_tokenizer_measure_nonneg, symbol::Symbol, TokenKind, Tokenizer},
};

verus! {

broadcast use {group_index_nonneg, lemma_parse_step_trans, lemma_tokenizer_measure_nonneg};

/// A type: a symbol path, a slice or array, a vector or matrix, a resource, a reference,
/// or a resource reference; `Error` stands where a type was expected and none was found.
pub enum Ty<'a> {
    Symbol(SymbolPath<'a>),
    Slice(SliceTy<'a>),
    Vector(VectorTy<'a>),
    Resource(ResourceTy<'a>),
    ResourceRef(ResourceRefTy<'a>),
    Reference(ReferenceTy<'a>),
    Error,
}

impl<'a> Ty<'a> {
    /// Parses a type if the next token can start one: `vec[..]` or `mat[..]`, a resource
    /// type, a symbol path (with generics allowed right after a name), `[..]`, `&..` or `*..`.
    pub fn try_parse(tokenizer: &mut Tokenizer<'a>, diagnostics: &mut Diagnostics<'a>) -> (r: Result<
        Option<Spanned<'a, Self>>,
        FatalParsingError,
    >)
        requires
            old(tokenizer).wf(),
            old(diagnostics).wf(),
        ensures
            (parsed_view(r, |x: Ty<'a>| view_ty(x)), state_of(*final(tokenizer), *final(diagnostics))) == g_ty(input_of(*old(tokenizer)), state_of(*old(tokenizer), *old(diagnostics))),
            try_parse_post(
                *old(tokenizer),
                *final(tokenizer),
                *old(diagnostics),
                *final(diagnostics),
                r,
                starts_ty(next_token(*old(tokenizer)).kind),
            ),
            r matches Ok(Some(x)) ==> {
                let k = next_token(*old(tokenizer)).kind;
                &&& (x.value is Vector <==> starts_vector(k))
                &&& (x.value is Resource <==> starts_resource(k))
                &&& (x.value is Symbol <==> starts_symbol_path(k) && !starts_vector(k) && !starts_resource(k))
                &&& (x.value is Slice <==> k == TokenKind::Symbol(Symbol::BracketOpen))
                &&& (x.value is Reference <==> k == TokenKind::Symbol(Symbol::BitwiseAnd))
                &&& (x.value is ResourceRef <==> k == TokenKind::Symbol(Symbol::Multiply))
            },
        decreases old(tokenizer).measure(), 10int,
    {
        proof {
            reveal_with_fuel(g_ty, 1);
            reveal_with_fuel(g_vector, 1);
            reveal_with_fuel(g_ty_rest, 1);
            reveal_with_fuel(g_resource, 1);
            reveal_with_fuel(g_resource_ref, 1);
            reveal_with_fuel(g_reference, 1);
            reveal_with_fuel(g_slice, 1);
            reveal_with_fuel(g_symbol_path, 1);
        }
        let ghost tv = *tokenizer;
        let ghost dv = *diagnostics;
        if let Some(vector) = VectorTy::try_parse(tokenizer, diagnostics)? {
            return Ok(Some(Spanned { span: vector.span, value: Self::Vector(vector.value) }));
        }
        let ghost ta = *tokenizer;
        let ghost da = *diagnostics;
        proof {
            lemma_took_nothing(tv, ta, dv, da);
        }
        if let Some(resource) = ResourceTy::try_parse(tokenizer, diagnostics)? {
            return Ok(Some(Spanned { span: resource.span, value: Self::Resource(resource.value) }));
        }
        let ghost t0 = *tokenizer;
        let ghost d0 = *diagnostics;
        proof {
            lemma_took_nothing(ta, t0, da, d0);
            lemma_took_nothing_trans(tv, ta, t0, dv, da, d0);
        }
        if let Some(symbol) = SymbolPath::try_parse(tokenizer, diagnostics, true)? {
            return Ok(Some(Spanned { span: symbol.span, value: Self::Symbol(symbol.value) }));
        }
        let ghost t1 = *tokenizer;
        let ghost d1 = *diagnostics;
        proof {
            lemma_took_nothing(t0, t1, d0, d1);
        }
        if let Some(slice) = SliceTy::try_parse(tokenizer, diagnostics)? {
            return Ok(Some(Spanned { span: slice.span, value: Self::Slice(slice.value) }));
        }
        let ghost t2 = *tokenizer;
        let ghost d2 = *diagnostics;
        proof {
            lemma_took_nothing_trans(t0, t1, t2, d0, d1, d2);
            lemma_took_nothing(t0, t2, d0, d2);
        }
        if let Some(reference) = ReferenceTy::try_parse(tokenizer, diagnostics)? {
            return Ok(Some(Spanned { span: reference.span, value: Self::Reference(reference.value) }));
        }
        let ghost t3 = *tokenizer;
        let ghost d3 = *diagnostics;
        proof {
            lemma_took_nothing_trans(t0, t2, t3, d0, d2, d3);
            lemma_took_nothing(t0, t3, d0, d3);
        }
        if let Some(resource_ref) = ResourceRefTy::try_parse(tokenizer, diagnostics)? {
            return Ok(Some(Spanned { span: resource_ref.span, value: Self::ResourceRef(resource_ref.value) }));
        }
        proof {
            lemma_took_nothing_trans(t0, t3, *tokenizer, d0, d3, *diagnostics);
            lemma_took_nothing_trans(tv, t0, *tokenizer, dv, d0, *diagnostics);
        }
        Ok(None)
    }

    /// Parses a type; where there is none, reports it, recovers as `mismatch_handling` says,
    /// and returns `Error`.
    pub fn expect_parse(
        tokenizer: &mut Tokenizer<'a>,
        diagnostics: &mut Diagnostics<'a>,
        mismatch_handling: MismatchHandling,
    ) -> (r: Result<Spanned<'a, Self>, FatalParsingError>)
        requires
            old(tokenizer).wf(),
            old(diagnostics).wf(),
        ensures
            (expected_view(r, |x: Ty<'a>| view_ty(x)), state_of(*final(tokenizer), *final(diagnostics))) == g_ty_expect(input_of(*old(tokenizer)), state_of(*old(tokenizer), *old(diagnostics)), mismatch_handling),
            expect_parse_post(*old(tokenizer), *final(tokenizer), *old(diagnostics), *final(diagnostics), r),
            r matches Ok(x) ==> (x.value is Error <==> !starts_ty(next_token(*old(tokenizer)).kind)),
        decreases old(tokenizer).measure(), 11int,
    {
        proof {
            reveal_with_fuel(g_ty_expect, 1);
            reveal_with_fuel(g_ty, 1);
        }
        let ghost t0 = *tokenizer;
        let ghost d0 = *diagnostics;
        let parsed = match Self::try_parse(tokenizer, diagnostics) {
            Ok(parsed) => parsed,
            Err(e) => return Err(e),
        };
        proof {
            if parsed is None {
                lemma_took_nothing(t0, *tokenizer, d0, *diagnostics);
            }
        }
        proof {
            lemma_expect_parse_view(
                input_of(*tokenizer),
                state_of(*tokenizer, *diagnostics),
                mismatch_handling,
                parsed,
                Expectation::Ty, Self::Error, |x: Ty<'a>| view_ty(x),
            );
        }
        expect_parse(tokenizer, diagnostics, mismatch_handling, parsed, Expectation::Ty, Self::Error)
    }
}

} // verus!
