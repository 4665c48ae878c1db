// The grammar that the parser follows, stated over parsing states: for each parsing
// function, what it gives and where it leaves the tokenizer and the diagnostics, as a
// function of where parsing stood. Trees are seen through views that hold their lists as
// sequences. A recursive step is taken only from a state with a smaller measure; the
// parsing functions prove that they always are.

use vstd::prelude::*;

use crate::parser::{
    diagnostic::{spec_kind_from_token, Diagnostic, DiagnosticKind, DiagnosticLevel, Diagnostics, FatalParsingError},
    parse_tree::{
        mismatch_effect, peek_token_spec, Expectation, MismatchHandling,
        expr::{
            atom::{ArrayKind, AtomExpr},
            construct::{FieldInit, StructInit},
            operator::{
                cast::CastOperator, infix::InfixOperator, postfix::PostfixOperator,
                prefix::PrefixOperator,
            },
            Expr,
        },
        symbol::{
            generic::GenericArgument, part::SymbolPathPart, start::SymbolPathStart,
            type_part::TypePart, SymbolPath,
        },
        ty::{
            reference::ReferenceTy, resource::{ResourceKind, ResourceRefTy, ResourceTy}, slice::SliceTy,
            vector::{VectorKind, VectorTy}, Ty,
        },
    },
    source::{SourceSpan, Spanned},
    token::{
        ident::PseudoKeyword, keyword::Keyword, number::NumberLiteral, symbol::Symbol, tokenizer_measure,
        Token, TokenKind, Tokenizer,
    },
};

verus! {

/// Where parsing stands: the tokenizer's index and lookahead, and the diagnostics so far.
pub struct ParseState<'a> {
    pub idx: int,
    pub peek: Option<Token<'a>>,
    pub diags: Seq<Diagnostic<'a>>,
}

/// The text being parsed, and its file.
pub struct ParseInput<'a> {
    pub path: Option<&'a str>,
    pub src: &'a [char],
}

/// What a parser that may find nothing gives: its result and where parsing then stands.
pub type Parsed<'a, T> = (Result<Option<Spanned<'a, T>>, FatalParsingError>, ParseState<'a>);

/// What a parser that reports what it does not find gives: its result and where parsing
/// then stands.
pub type Expected<'a, T> = (Result<Spanned<'a, T>, FatalParsingError>, ParseState<'a>);

/// The parsing state of a tokenizer and the diagnostics reported so far.
pub open spec fn state_of<'a>(t: Tokenizer<'a>, d: Diagnostics<'a>) -> ParseState<'a> {
    ParseState { idx: t.idx(), peek: t.peeked(), diags: d@ }
}

/// The text and file that a tokenizer reads.
pub open spec fn input_of<'a>(t: Tokenizer<'a>) -> ParseInput<'a> {
    ParseInput { path: t.path(), src: t.src_ref() }
}

/// The tokenizer's measure at a parsing state.
pub open spec fn measure_of<'a>(c: ParseInput<'a>, st: ParseState<'a>) -> int {
    tokenizer_measure(c.src@.len() as int, st.idx, st.peek)
}

/// Parsing went from `st0` to `st1` without making the measure grow.
pub open spec fn settled<'a>(c: ParseInput<'a>, st0: ParseState<'a>, st1: ParseState<'a>) -> bool {
    0 <= measure_of(c, st1) <= measure_of(c, st0)
}

/// Parsing went from `st0` to `st1` and took something.
pub open spec fn shrunk<'a>(c: ParseInput<'a>, st0: ParseState<'a>, st1: ParseState<'a>) -> bool {
    0 <= measure_of(c, st1) < measure_of(c, st0)
}

/// The state with the lookahead taken.
pub open spec fn taken<'a>(st: ParseState<'a>) -> ParseState<'a> {
    ParseState { idx: st.idx, peek: None, diags: st.diags }
}

/// The next token (tokenizer errors before it reported and passed), left in the lookahead.
pub open spec fn g_peek<'a>(c: ParseInput<'a>, st: ParseState<'a>) -> (Token<'a>, ParseState<'a>) {
    let (tok, m, ds) = peek_token_spec(c.path, c.src, st.idx, st.peek);
    (tok, ParseState { idx: m, peek: Some(tok), diags: st.diags + ds })
}

/// Takes the next token if it is `kind`; gives its span.
pub open spec fn g_try_token<'a>(c: ParseInput<'a>, st: ParseState<'a>, kind: TokenKind) -> (
    Option<SourceSpan<'a>>,
    ParseState<'a>,
) {
    let (tok, s1) = g_peek(c, st);
    if tok.kind == kind {
        (Some(tok.span), taken(s1))
    } else {
        (None, s1)
    }
}

/// Takes the next token if it is an identifier; gives it with its pseudo-keyword.
pub open spec fn g_try_ident<'a>(c: ParseInput<'a>, st: ParseState<'a>) -> (
    Option<Spanned<'a, Option<PseudoKeyword>>>,
    ParseState<'a>,
) {
    let (tok, s1) = g_peek(c, st);
    match tok.kind {
        TokenKind::Identifier(p) => (Some(Spanned { span: tok.span, value: p }), taken(s1)),
        _ => (None, s1),
    }
}

/// Takes the next token if it is a number; gives it.
pub open spec fn g_try_number<'a>(c: ParseInput<'a>, st: ParseState<'a>) -> (
    Option<Spanned<'a, NumberLiteral>>,
    ParseState<'a>,
) {
    let (tok, s1) = g_peek(c, st);
    match tok.kind {
        TokenKind::NumberLiteral(n) => (Some(Spanned { span: tok.span, value: n }), taken(s1)),
        _ => (None, s1),
    }
}

/// Reports `kind` at `tok`, the lookahead of `st`, and recovers as `mh` says.
pub open spec fn g_mismatch<'a>(
    c: ParseInput<'a>,
    st: ParseState<'a>,
    tok: Token<'a>,
    mh: MismatchHandling,
    kind: DiagnosticKind<'a>,
) -> (Result<(), FatalParsingError>, ParseState<'a>) {
    let e = mismatch_effect(mh, c.path, c.src, st.idx, tok, kind);
    (e.0, ParseState { idx: e.1, peek: e.2, diags: st.diags + e.3 })
}

/// Takes the next token if it is `kind`; else reports `expectation` and recovers as `mh`
/// says. Gives the span of the token found.
pub open spec fn g_expect_token<'a>(
    c: ParseInput<'a>,
    st: ParseState<'a>,
    kind: TokenKind,
    mh: MismatchHandling,
    expectation: Expectation,
) -> (Result<SourceSpan<'a>, FatalParsingError>, ParseState<'a>) {
    let (tok, s1) = g_peek(c, st);
    if tok.kind == kind {
        (Ok(tok.span), taken(s1))
    } else {
        let (e, s2) = g_mismatch(c, s1, tok, mh, expectation.spec_wrap(spec_kind_from_token(tok)));
        (if e is Ok { Ok(tok.span) } else { Err(FatalParsingError) }, s2)
    }
}

/// Takes the next token if it is an identifier; else reports an expected identifier and
/// recovers as `mh` says.
pub open spec fn g_expect_ident<'a>(c: ParseInput<'a>, st: ParseState<'a>, mh: MismatchHandling) -> Expected<
    'a,
    Option<PseudoKeyword>,
> {
    let (tok, s1) = g_peek(c, st);
    match tok.kind {
        TokenKind::Identifier(p) => (Ok(Spanned { span: tok.span, value: p }), taken(s1)),
        _ => {
            let (e, s2) = g_mismatch(
                c,
                s1,
                tok,
                mh,
                Expectation::Ident.spec_wrap(spec_kind_from_token(tok)),
            );
            (
                if e is Ok {
                    Ok(Spanned { span: tok.span, value: None })
                } else {
                    Err(FatalParsingError)
                },
                s2,
            )
        },
    }
}

/// Hands back `parsed`; when it is `None`, reports `expectation` at the next token,
/// recovers as `mh` says, and gives `fallback` with that token's span.
pub open spec fn g_expect_parse<'a, T>(
    c: ParseInput<'a>,
    st: ParseState<'a>,
    mh: MismatchHandling,
    parsed: Option<Spanned<'a, T>>,
    expectation: Expectation,
    fallback: T,
) -> Expected<'a, T> {
    match parsed {
        Some(x) => (Ok(x), st),
        None => {
            let (tok, s1) = g_peek(c, st);
            let (e, s2) = g_mismatch(c, s1, tok, mh, expectation.spec_wrap(spec_kind_from_token(tok)));
            (
                if e is Ok {
                    Ok(Spanned { span: tok.span, value: fallback })
                } else {
                    Err(FatalParsingError)
                },
                s2,
            )
        },
    }
}

/// A spanned value with its value seen through `f`.
pub open spec fn spanned_view<'a, T, V>(x: Spanned<'a, T>, f: spec_fn(T) -> V) -> Spanned<'a, V> {
    Spanned { span: x.span, value: f(x.value) }
}

/// A parser's result with its value seen through `f`.
pub open spec fn parsed_view<'a, T, V>(
    r: Result<Option<Spanned<'a, T>>, FatalParsingError>,
    f: spec_fn(T) -> V,
) -> Result<Option<Spanned<'a, V>>, FatalParsingError> {
    match r {
        Ok(Some(x)) => Ok(Some(spanned_view(x, f))),
        Ok(None) => Ok(None),
        Err(e) => Err(e),
    }
}

/// A result of a parser that reports what it does not find, with its value seen through
/// `f`.
pub open spec fn expected_view<'a, T, V>(
    r: Result<Spanned<'a, T>, FatalParsingError>,
    f: spec_fn(T) -> V,
) -> Result<Spanned<'a, V>, FatalParsingError> {
    match r {
        Ok(x) => Ok(spanned_view(x, f)),
        Err(e) => Err(e),
    }
}

/// An expression tree with its lists as sequences.
pub enum ExprView<'a> {
    PostfixOperation(PostfixView<'a>),
    PrefixOperation(PrefixView<'a>),
    InfixOperation(InfixView<'a>),
    CastOperation(CastView<'a>),
    Atom(AtomView<'a>),
    Error,
}

/// An atom, as `ExprView` holds it.
pub enum AtomView<'a> {
    Number(NumberLiteral),
    Boolean(bool),
    Symbol(SymbolPathView<'a>),
    Array(ArrayKind, Seq<Spanned<'a, ExprView<'a>>>),
    Struct(StructInitView<'a>),
}

/// A struct construction, with its lists as sequences.
pub struct StructInitView<'a> {
    pub path: Spanned<'a, Seq<Spanned<'a, Option<PseudoKeyword>>>>,
    pub fields: Seq<Spanned<'a, FieldInitView<'a>>>,
}

/// A field initializer.
pub struct FieldInitView<'a> {
    pub name: Spanned<'a, Option<PseudoKeyword>>,
    pub value: Option<Spanned<'a, ExprView<'a>>>,
}

/// A postfix operation, with its lists as sequences.
pub enum PostfixOperatorView<'a> {
    Field(Option<PseudoKeyword>),
    Invoke(Seq<Spanned<'a, ExprView<'a>>>),
    Access(Box<ExprView<'a>>),
    Generics(Seq<Spanned<'a, GenericView<'a>>>),
}

/// A postfix expression, with its lists as sequences.
pub struct PostfixView<'a> {
    pub operand: Box<Spanned<'a, ExprView<'a>>>,
    pub operators: Spanned<'a, Seq<Spanned<'a, PostfixOperatorView<'a>>>>,
}

/// A prefix expression, with its operators as a sequence.
pub struct PrefixView<'a> {
    pub operand: Box<Spanned<'a, ExprView<'a>>>,
    pub operators: Spanned<'a, Seq<Spanned<'a, PrefixOperator>>>,
}

/// An infix operation and its operands.
pub struct InfixView<'a> {
    pub operands: Box<(Spanned<'a, ExprView<'a>>, Spanned<'a, ExprView<'a>>)>,
    pub operator: Spanned<'a, InfixOperator>,
}

/// `as` and the type cast to.
pub struct CastOperatorView<'a> {
    pub ty: Spanned<'a, TyView<'a>>,
}

/// An expression and its casts, as a sequence.
pub struct CastView<'a> {
    pub expr: Box<Spanned<'a, ExprView<'a>>>,
    pub casts: Spanned<'a, Seq<Spanned<'a, CastOperatorView<'a>>>>,
}

/// A type with its lists as sequences.
pub enum TyView<'a> {
    Symbol(SymbolPathView<'a>),
    Slice(SliceView<'a>),
    Vector(VectorView<'a>),
    Resource(ResourceView<'a>),
    ResourceRef(ResourceRefView<'a>),
    Reference(ReferenceView<'a>),
    Error,
}

/// A slice or array type.
pub struct SliceView<'a> {
    pub base: Box<Spanned<'a, TyView<'a>>>,
    pub len: Option<Spanned<'a, ExprView<'a>>>,
}

/// A vector or matrix type.
pub struct VectorView<'a> {
    pub kind: VectorKind,
    pub elem: Box<Spanned<'a, TyView<'a>>>,
    pub len: Spanned<'a, ExprView<'a>>,
    pub rows: Option<Spanned<'a, ExprView<'a>>>,
}

/// A resource type.
pub struct ResourceView<'a> {
    pub kind: ResourceKind,
    pub mutable: Option<SourceSpan<'a>>,
    pub argument: Option<Box<Spanned<'a, TyView<'a>>>>,
}

/// A resource reference.
pub struct ResourceRefView<'a> {
    pub base: Box<Spanned<'a, TyView<'a>>>,
}

/// A reference type.
pub struct ReferenceView<'a> {
    pub base: Box<Spanned<'a, TyView<'a>>>,
    pub mutable: Option<SourceSpan<'a>>,
}

/// A symbol path, with its parts as a sequence.
pub struct SymbolPathView<'a> {
    pub first: Box<Spanned<'a, StartView<'a>>>,
    pub parts: Seq<Spanned<'a, PartView<'a>>>,
}

/// The start of a symbol path.
pub enum StartView<'a> {
    Ident(Option<PseudoKeyword>),
    Type(TypePartView<'a>),
}

/// A `type[..]` part.
pub struct TypePartView<'a> {
    pub ty: Spanned<'a, TyView<'a>>,
    pub as_ty: Option<Spanned<'a, TyView<'a>>>,
}

/// A part of a symbol path, with generic arguments as a sequence.
pub enum PartView<'a> {
    Ident(Option<PseudoKeyword>),
    Generics(Seq<Spanned<'a, GenericView<'a>>>),
    Error,
}

/// A generic argument.
pub enum GenericView<'a> {
    Ty(Spanned<'a, TyView<'a>>),
    Const(Spanned<'a, ExprView<'a>>),
    Error,
}

/// The tree of an expression, with its lists as sequences.
pub open spec fn view_expr<'a>(e: Expr<'a>) -> ExprView<'a>
    decreases e,
{
    match e {
        Expr::PostfixOperation(p) => ExprView::PostfixOperation(
            PostfixView {
                operand: Box::new(
                    Spanned { span: p.operand.span, value: view_expr(p.operand.value) },
                ),
                operators: Spanned {
                    span: p.operators.span,
                    value: view_postfix_operators(p.operators.value@),
                },
            },
        ),
        Expr::PrefixOperation(p) => ExprView::PrefixOperation(
            PrefixView {
                operand: Box::new(
                    Spanned { span: p.operand.span, value: view_expr(p.operand.value) },
                ),
                operators: Spanned { span: p.operators.span, value: p.operators.value@ },
            },
        ),
        Expr::InfixOperation(x) => ExprView::InfixOperation(
            InfixView {
                operands: Box::new(
                    (
                        Spanned { span: x.operands.0.span, value: view_expr(x.operands.0.value) },
                        Spanned { span: x.operands.1.span, value: view_expr(x.operands.1.value) },
                    ),
                ),
                operator: x.operator,
            },
        ),
        Expr::CastOperation(c) => ExprView::CastOperation(
            CastView {
                expr: Box::new(Spanned { span: c.expr.span, value: view_expr(c.expr.value) }),
                casts: Spanned { span: c.casts.span, value: view_casts(c.casts.value@) },
            },
        ),
        Expr::Atom(a) => ExprView::Atom(
            match a {
                AtomExpr::Number(n) => AtomView::Number(n),
                AtomExpr::Boolean(b) => AtomView::Boolean(b),
                AtomExpr::Symbol(s) => AtomView::Symbol(view_symbol_path(s)),
                AtomExpr::Array(k, items) => AtomView::Array(k, view_exprs(items@)),
                AtomExpr::Struct(si) => AtomView::Struct(view_struct_init(si)),
            },
        ),
        Expr::Error => ExprView::Error,
    }
}

/// The tree of a struct construction.
pub open spec fn view_struct_init<'a>(si: StructInit<'a>) -> StructInitView<'a>
    decreases si,
{
    StructInitView {
        path: Spanned { span: si.path.span, value: si.path.value@ },
        fields: view_field_inits(si.fields@),
    }
}

/// The tree of a field initializer.
pub open spec fn view_field_init<'a>(f: FieldInit<'a>) -> FieldInitView<'a>
    decreases f,
{
    FieldInitView {
        name: f.name,
        value: match f.value {
            Some(v) => Some(Spanned { span: v.span, value: view_expr(v.value) }),
            None => None,
        },
    }
}

/// A list of field initializers as a sequence of trees.
pub open spec fn view_field_inits<'a>(s: Seq<Spanned<'a, FieldInit<'a>>>) -> Seq<Spanned<'a, FieldInitView<'a>>>
    decreases s,
{
    Seq::new(
        s.len(),
        |i: int|
            if 0 <= i < s.len() {
                Spanned { span: s[i].span, value: view_field_init(s[i].value) }
            } else {
                arbitrary()
            },
    )
}

/// A list of expressions as a sequence of trees.
pub open spec fn view_exprs<'a>(s: Seq<Spanned<'a, Expr<'a>>>) -> Seq<Spanned<'a, ExprView<'a>>>
    decreases s,
{
    Seq::new(
        s.len(),
        |i: int|
            if 0 <= i < s.len() {
                Spanned { span: s[i].span, value: view_expr(s[i].value) }
            } else {
                arbitrary()
            },
    )
}

/// The tree of a postfix operation.
pub open spec fn view_postfix_operator<'a>(o: PostfixOperator<'a>) -> PostfixOperatorView<'a>
    decreases o,
{
    match o {
        PostfixOperator::Field(p) => PostfixOperatorView::Field(p),
        PostfixOperator::Invoke(args) => PostfixOperatorView::Invoke(view_exprs(args@)),
        PostfixOperator::Access(e) => PostfixOperatorView::Access(Box::new(view_expr(*e))),
        PostfixOperator::Generics(args) => PostfixOperatorView::Generics(view_generics(args@)),
    }
}

/// A list of postfix operations as a sequence.
pub open spec fn view_postfix_operators<'a>(s: Seq<Spanned<'a, PostfixOperator<'a>>>) -> Seq<
    Spanned<'a, PostfixOperatorView<'a>>,
>
    decreases s,
{
    Seq::new(
        s.len(),
        |i: int|
            if 0 <= i < s.len() {
                Spanned { span: s[i].span, value: view_postfix_operator(s[i].value) }
            } else {
                arbitrary()
            },
    )
}

/// The tree of a cast.
pub open spec fn view_cast_operator<'a>(o: CastOperator<'a>) -> CastOperatorView<'a>
    decreases o,
{
    CastOperatorView { ty: Spanned { span: o.ty.span, value: view_ty(o.ty.value) } }
}

/// A list of casts as a sequence.
pub open spec fn view_casts<'a>(s: Seq<Spanned<'a, CastOperator<'a>>>) -> Seq<
    Spanned<'a, CastOperatorView<'a>>,
>
    decreases s,
{
    Seq::new(
        s.len(),
        |i: int|
            if 0 <= i < s.len() {
                Spanned { span: s[i].span, value: view_cast_operator(s[i].value) }
            } else {
                arbitrary()
            },
    )
}

/// The tree of a type, with its lists as sequences.
pub open spec fn view_ty<'a>(t: Ty<'a>) -> TyView<'a>
    decreases t,
{
    match t {
        Ty::Symbol(s) => TyView::Symbol(view_symbol_path(s)),
        Ty::Slice(s) => TyView::Slice(view_slice(s)),
        Ty::Vector(v) => TyView::Vector(view_vector(v)),
        Ty::Resource(r) => TyView::Resource(view_resource(r)),
        Ty::ResourceRef(r) => TyView::ResourceRef(view_resource_ref(r)),
        Ty::Reference(r) => TyView::Reference(view_reference(r)),
        Ty::Error => TyView::Error,
    }
}

/// The tree of a slice or array type.
pub open spec fn view_slice<'a>(s: SliceTy<'a>) -> SliceView<'a>
    decreases s,
{
    SliceView {
        base: Box::new(Spanned { span: s.base.span, value: view_ty(s.base.value) }),
        len: match s.len {
            Some(l) => Some(Spanned { span: l.span, value: view_expr(l.value) }),
            None => None,
        },
    }
}

/// The tree of a vector or matrix type.
pub open spec fn view_vector<'a>(v: VectorTy<'a>) -> VectorView<'a>
    decreases v,
{
    VectorView {
        kind: v.kind,
        elem: Box::new(Spanned { span: v.elem.span, value: view_ty(v.elem.value) }),
        len: Spanned { span: v.len.span, value: view_expr(v.len.value) },
        rows: match v.rows {
            Some(r) => Some(Spanned { span: r.span, value: view_expr(r.value) }),
            None => None,
        },
    }
}

/// The tree of a resource type.
pub open spec fn view_resource<'a>(r: ResourceTy<'a>) -> ResourceView<'a>
    decreases r,
{
    ResourceView {
        kind: r.kind,
        mutable: r.mutable,
        argument: match r.argument {
            Some(a) => Some(Box::new(Spanned { span: a.span, value: view_ty(a.value) })),
            None => None,
        },
    }
}

/// The tree of a resource reference.
pub open spec fn view_resource_ref<'a>(r: ResourceRefTy<'a>) -> ResourceRefView<'a>
    decreases r,
{
    ResourceRefView { base: Box::new(Spanned { span: r.base.span, value: view_ty(r.base.value) }) }
}

/// The tree of a reference type.
pub open spec fn view_reference<'a>(r: ReferenceTy<'a>) -> ReferenceView<'a>
    decreases r,
{
    ReferenceView {
        base: Box::new(Spanned { span: r.base.span, value: view_ty(r.base.value) }),
        mutable: r.mutable,
    }
}

/// The tree of a symbol path.
pub open spec fn view_symbol_path<'a>(s: SymbolPath<'a>) -> SymbolPathView<'a>
    decreases s,
{
    SymbolPathView {
        first: Box::new(Spanned { span: s.first.span, value: view_start(s.first.value) }),
        parts: view_parts(s.parts@),
    }
}

/// The tree of the start of a symbol path.
pub open spec fn view_start<'a>(s: SymbolPathStart<'a>) -> StartView<'a>
    decreases s,
{
    match s {
        SymbolPathStart::Ident(p) => StartView::Ident(p),
        SymbolPathStart::Type(t) => StartView::Type(view_type_part(t)),
    }
}

/// The tree of a `type[..]` part.
pub open spec fn view_type_part<'a>(t: TypePart<'a>) -> TypePartView<'a>
    decreases t,
{
    TypePartView {
        ty: Spanned { span: t.ty.span, value: view_ty(t.ty.value) },
        as_ty: match t.as_ty {
            Some(a) => Some(Spanned { span: a.span, value: view_ty(a.value) }),
            None => None,
        },
    }
}

/// The tree of a symbol path part.
pub open spec fn view_part<'a>(p: SymbolPathPart<'a>) -> PartView<'a>
    decreases p,
{
    match p {
        SymbolPathPart::Ident(x) => PartView::Ident(x),
        SymbolPathPart::Generics(args) => PartView::Generics(view_generics(args@)),
        SymbolPathPart::Error => PartView::Error,
    }
}

/// A list of symbol path parts as a sequence.
pub open spec fn view_parts<'a>(s: Seq<Spanned<'a, SymbolPathPart<'a>>>) -> Seq<Spanned<'a, PartView<'a>>>
    decreases s,
{
    Seq::new(
        s.len(),
        |i: int|
            if 0 <= i < s.len() {
                Spanned { span: s[i].span, value: view_part(s[i].value) }
            } else {
                arbitrary()
            },
    )
}

/// The tree of a generic argument.
pub open spec fn view_generic<'a>(g: GenericArgument<'a>) -> GenericView<'a>
    decreases g,
{
    match g {
        GenericArgument::Ty(t) => GenericView::Ty(Spanned { span: t.span, value: view_ty(t.value) }),
        GenericArgument::Const(e) => GenericView::Const(
            Spanned { span: e.span, value: view_expr(e.value) },
        ),
        GenericArgument::Error => GenericView::Error,
    }
}

/// A list of generic arguments as a sequence.
pub open spec fn view_generics<'a>(s: Seq<Spanned<'a, GenericArgument<'a>>>) -> Seq<
    Spanned<'a, GenericView<'a>>,
>
    decreases s,
{
    Seq::new(
        s.len(),
        |i: int|
            if 0 <= i < s.len() {
                Spanned { span: s[i].span, value: view_generic(s[i].value) }
            } else {
                arbitrary()
            },
    )
}

/// A type: a vector or matrix type, a resource type, a symbol path (generic arguments may
/// follow a name directly), `[..]`, `&..` or `*..`.
#[verifier::opaque]
pub open spec fn g_ty<'a>(c: ParseInput<'a>, st: ParseState<'a>) -> Parsed<'a, TyView<'a>>
    decreases measure_of(c, st), 20int,
{
    let (r0, s0) = g_vector(c, st);
    match r0 {
        Err(e) => (Err(e), s0),
        Ok(Some(v)) => (Ok(Some(Spanned { span: v.span, value: TyView::Vector(v.value) })), s0),
        Ok(None) => if settled(c, st, s0) {
            let (ra, sa) = g_resource(c, s0);
            match ra {
                Err(e) => (Err(e), sa),
                Ok(Some(x)) => (Ok(Some(Spanned { span: x.span, value: TyView::Resource(x.value) })), sa),
                Ok(None) => if settled(c, st, sa) {
                    g_ty_rest(c, st, sa)
                } else {
                    (Err(FatalParsingError), sa)
                },
            }
        } else {
            (Err(FatalParsingError), s0)
        },
    }
}

/// A symbol path, `[..]`, `&..` or `*..`, from `sa` on, where `st` is where the type began.
#[verifier::opaque]
pub open spec fn g_ty_rest<'a>(c: ParseInput<'a>, st: ParseState<'a>, sa: ParseState<'a>) -> Parsed<'a, TyView<'a>>
    decreases measure_of(c, st), 19int,
{
    if !settled(c, st, sa) {
        (Err(FatalParsingError), sa)
    } else {
        let (r1, s1) = g_symbol_path(c, sa, true);
        match r1 {
            Err(e) => (Err(e), s1),
            Ok(Some(p)) => (Ok(Some(Spanned { span: p.span, value: TyView::Symbol(p.value) })), s1),
            Ok(None) => if settled(c, st, s1) {
                let (r2, s2) = g_slice(c, s1);
                match r2 {
                    Err(e) => (Err(e), s2),
                    Ok(Some(x)) => (Ok(Some(Spanned { span: x.span, value: TyView::Slice(x.value) })), s2),
                    Ok(None) => if settled(c, st, s2) {
                        let (r3, s3) = g_reference(c, s2);
                        match r3 {
                            Err(e) => (Err(e), s3),
                            Ok(Some(x)) => (
                                Ok(Some(Spanned { span: x.span, value: TyView::Reference(x.value) })),
                                s3,
                            ),
                            Ok(None) => if settled(c, st, s3) {
                                let (r4, s4) = g_resource_ref(c, s3);
                                match r4 {
                                    Err(e) => (Err(e), s4),
                                    Ok(Some(x)) => (
                                        Ok(Some(Spanned { span: x.span, value: TyView::ResourceRef(x.value) })),
                                        s4,
                                    ),
                                    Ok(None) => (Ok(None), s4),
                                }
                            } else {
                                (Err(FatalParsingError), s3)
                            },
                        }
                    } else {
                        (Err(FatalParsingError), s2)
                    },
                }
            } else {
                (Err(FatalParsingError), s1)
            },
        }
    }
}

/// A resource name, and for all but `sampler`, `<`, `mut` where the resource may be
/// writable, the type argument, and `>`.
#[verifier::opaque]
pub open spec fn g_resource<'a>(c: ParseInput<'a>, st: ParseState<'a>) -> Parsed<'a, ResourceView<'a>>
    decreases measure_of(c, st), 5int,
{
    let (tok, s1) = g_peek(c, st);
    match ResourceKind::spec_from_token(tok.kind) {
        None => (Ok(None), s1),
        Some(kind) => {
            let s2 = taken(s1);
            let start = tok.span;
            if !kind.spec_has_argument() {
                (Ok(Some(Spanned { span: start, value: ResourceView { kind, mutable: None, argument: None } })), s2)
            } else {
                let (ro, s3) = g_expect_token(
                    c,
                    s2,
                    TokenKind::Symbol(Symbol::LessThan),
                    MismatchHandling::Consume,
                    Expectation::Symbol(Symbol::LessThan),
                );
                match ro {
                    Err(e) => (Err(e), s3),
                    Ok(_) => {
                        let (m, s4) = if kind.spec_may_be_mutable() {
                            g_try_token(c, s3, TokenKind::Keyword(Keyword::Mut))
                        } else {
                            (None, s3)
                        };
                        if shrunk(c, st, s4) {
                            let (rt, s5) = g_ty_expect(c, s4, MismatchHandling::ConsumeUntilSafe);
                            match rt {
                                Err(e) => (Err(e), s5),
                                Ok(argument) => {
                                    let (rc, s6) = g_expect_token(
                                        c,
                                        s5,
                                        TokenKind::Symbol(Symbol::GreaterThan),
                                        MismatchHandling::Consume,
                                        Expectation::Symbol(Symbol::GreaterThan),
                                    );
                                    match rc {
                                        Err(e) => (Err(e), s6),
                                        Ok(end) => (
                                            Ok(Some(Spanned {
                                                span: start.spec_join(end),
                                                value: ResourceView { kind, mutable: m, argument: Some(Box::new(argument)) },
                                            })),
                                            s6,
                                        ),
                                    }
                                },
                            }
                        } else {
                            (Err(FatalParsingError), s4)
                        }
                    },
                }
            }
        },
    }
}

/// `*` and a type.
#[verifier::opaque]
pub open spec fn g_resource_ref<'a>(c: ParseInput<'a>, st: ParseState<'a>) -> Parsed<'a, ResourceRefView<'a>>
    decreases measure_of(c, st), 4int,
{
    let (o, s1) = g_try_token(c, st, TokenKind::Symbol(Symbol::Multiply));
    match o {
        None => (Ok(None), s1),
        Some(start) => if shrunk(c, st, s1) {
            let (rt, s2) = g_ty_expect(c, s1, MismatchHandling::ConsumeUntilSafe);
            match rt {
                Err(e) => (Err(e), s2),
                Ok(base) => (
                    Ok(Some(Spanned { span: start.spec_join(base.span), value: ResourceRefView { base: Box::new(base) } })),
                    s2,
                ),
            }
        } else {
            (Err(FatalParsingError), s1)
        },
    }
}

/// `vec` or `mat`, `[`, the element type, `;`, a length, for `mat` an optional `,` and
/// row count, and `]`.
#[verifier::opaque]
pub open spec fn g_vector<'a>(c: ParseInput<'a>, st: ParseState<'a>) -> Parsed<'a, VectorView<'a>>
    decreases measure_of(c, st), 5int,
{
    let (v, s1) = g_try_token(c, st, TokenKind::Identifier(Some(PseudoKeyword::Vec)));
    let (m, s2) = match v {
        Some(_) => (None, s1),
        None => g_try_token(c, s1, TokenKind::Identifier(Some(PseudoKeyword::Mat))),
    };
    let head = match v {
        Some(sp) => Some((sp, VectorKind::Vector)),
        None => match m {
            Some(sp) => Some((sp, VectorKind::Matrix)),
            None => None,
        },
    };
    match head {
        None => (Ok(None), s2),
        Some((start, kind)) => {
            let (rb, s3) = g_expect_token(
                c,
                s2,
                TokenKind::Symbol(Symbol::BracketOpen),
                MismatchHandling::Consume,
                Expectation::Symbol(Symbol::BracketOpen),
            );
            match rb {
                Err(e) => (Err(e), s3),
                Ok(_) => if shrunk(c, st, s3) {
                    let (rt, s4) = g_ty_expect(c, s3, MismatchHandling::ConsumeUntilSafe);
                    match rt {
                        Err(e) => (Err(e), s4),
                        Ok(elem) => {
                            let (rs, s5) = g_expect_token(
                                c,
                                s4,
                                TokenKind::Symbol(Symbol::Semicolon),
                                MismatchHandling::Skip,
                                Expectation::Symbol(Symbol::Semicolon),
                            );
                            match rs {
                                Err(e) => (Err(e), s5),
                                Ok(_) => if shrunk(c, st, s5) {
                                    let (rl, s6) = g_expr_expect(c, s5, MismatchHandling::ConsumeUntilSafe);
                                    match rl {
                                        Err(e) => (Err(e), s6),
                                        Ok(len) => {
                                            let (comma, s7) = match kind {
                                                VectorKind::Matrix => g_try_token(c, s6, TokenKind::Symbol(Symbol::Comma)),
                                                VectorKind::Vector => (None, s6),
                                            };
                                            let (rr, s8) = match comma {
                                                Some(_) => if shrunk(c, st, s7) {
                                                    let (r, s) = g_expr_expect(c, s7, MismatchHandling::ConsumeUntilSafe);
                                                    match r {
                                                        Err(e) => (Err::<Option<Spanned<'a, ExprView<'a>>>, FatalParsingError>(e), s),
                                                        Ok(x) => (Ok(Some(x)), s),
                                                    }
                                                } else {
                                                    (Err(FatalParsingError), s7)
                                                },
                                                None => (Ok(None), s7),
                                            };
                                            match rr {
                                                Err(e) => (Err(e), s8),
                                                Ok(rows) => {
                                                    let (re, s9) = g_expect_token(
                                                        c,
                                                        s8,
                                                        TokenKind::Symbol(Symbol::BracketClose),
                                                        MismatchHandling::Consume,
                                                        Expectation::Symbol(Symbol::BracketClose),
                                                    );
                                                    match re {
                                                        Err(e) => (Err(e), s9),
                                                        Ok(end) => (
                                                            Ok(Some(Spanned {
                                                                span: start.spec_join(end),
                                                                value: VectorView { kind, elem: Box::new(elem), len, rows },
                                                            })),
                                                            s9,
                                                        ),
                                                    }
                                                },
                                            }
                                        },
                                    }
                                } else {
                                    (Err(FatalParsingError), s5)
                                },
                            }
                        },
                    }
                } else {
                    (Err(FatalParsingError), s3)
                },
            }
        },
    }
}

/// A type; where there is none, it is reported and `Error` stands for it.
#[verifier::opaque]
pub open spec fn g_ty_expect<'a>(c: ParseInput<'a>, st: ParseState<'a>, mh: MismatchHandling) -> Expected<
    'a,
    TyView<'a>,
>
    decreases measure_of(c, st), 22int,
{
    let (r1, s1) = g_ty(c, st);
    match r1 {
        Err(e) => (Err(e), s1),
        Ok(parsed) => g_expect_parse(c, s1, mh, parsed, Expectation::Ty, TyView::Error),
    }
}

/// `[`, a type, an optional `;` and length, and `]`.
#[verifier::opaque]
pub open spec fn g_slice<'a>(c: ParseInput<'a>, st: ParseState<'a>) -> Parsed<'a, SliceView<'a>>
    decreases measure_of(c, st), 6int,
{
    let (o, s1) = g_try_token(c, st, TokenKind::Symbol(Symbol::BracketOpen));
    match o {
        None => (Ok(None), s1),
        Some(start) => if shrunk(c, st, s1) {
            let (rb, s2) = g_ty_expect(c, s1, MismatchHandling::ConsumeUntilSafe);
            match rb {
                Err(e) => (Err(e), s2),
                Ok(base) => {
                    let (semi, s3) = g_try_token(c, s2, TokenKind::Symbol(Symbol::Semicolon));
                    let (rl, s4) = match semi {
                        Some(_) => if shrunk(c, st, s3) {
                            let (re, s) = g_expr_expect(c, s3, MismatchHandling::ConsumeUntilSafe);
                            match re {
                                Err(e) => (Err::<Option<Spanned<'a, ExprView<'a>>>, FatalParsingError>(e), s),
                                Ok(x) => (Ok(Some(x)), s),
                            }
                        } else {
                            (Err(FatalParsingError), s3)
                        },
                        None => (Ok(None), s3),
                    };
                    match rl {
                        Err(e) => (Err(e), s4),
                        Ok(len) => {
                            let (re, s5) = g_expect_token(
                                c,
                                s4,
                                TokenKind::Symbol(Symbol::BracketClose),
                                MismatchHandling::Consume,
                                Expectation::Symbol(Symbol::BracketClose),
                            );
                            match re {
                                Err(e) => (Err(e), s5),
                                Ok(end) => (
                                    Ok(Some(Spanned { span: start.spec_join(end), value: SliceView { base: Box::new(base), len } })),
                                    s5,
                                ),
                            }
                        },
                    }
                },
            }
        } else {
            (Err(FatalParsingError), s1)
        },
    }
}

/// `&`, an optional `mut`, and a type.
#[verifier::opaque]
pub open spec fn g_reference<'a>(c: ParseInput<'a>, st: ParseState<'a>) -> Parsed<'a, ReferenceView<'a>>
    decreases measure_of(c, st), 4int,
{
    let (o, s1) = g_try_token(c, st, TokenKind::Symbol(Symbol::BitwiseAnd));
    match o {
        None => (Ok(None), s1),
        Some(start) => {
            let (m, s2) = g_try_token(c, s1, TokenKind::Keyword(Keyword::Mut));
            if shrunk(c, st, s2) {
                let (rt, s3) = g_ty_expect(c, s2, MismatchHandling::ConsumeUntilSafe);
                match rt {
                    Err(e) => (Err(e), s3),
                    Ok(ty) => (
                        Ok(Some(Spanned { span: start.spec_join(ty.span), value: ReferenceView { base: Box::new(ty), mutable: m } })),
                        s3,
                    ),
                }
            } else {
                (Err(FatalParsingError), s2)
            }
        },
    }
}

/// A symbol path: its start, then its parts.
#[verifier::opaque]
pub open spec fn g_symbol_path<'a>(c: ParseInput<'a>, st: ParseState<'a>, lenient: bool) -> Parsed<
    'a,
    SymbolPathView<'a>,
>
    decreases measure_of(c, st), 18int,
{
    let (r1, s1) = g_start(c, st);
    match r1 {
        Err(e) => (Err(e), s1),
        Ok(None) => (Ok(None), s1),
        Ok(Some(first)) => if settled(c, st, s1) {
            let (r2, s2) = g_parts(c, s1, lenient);
            match r2 {
                Err(e) => (Err(e), s2),
                Ok(parts) => {
                    let (pspan, pv) = match parts {
                        Some(p) => (p.span, p.value),
                        None => (first.span, Seq::empty()),
                    };
                    (
                        Ok(Some(Spanned { span: first.span.spec_join(pspan), value: SymbolPathView { first: Box::new(first), parts: pv } })),
                        s2,
                    )
                },
            }
        } else {
            (Err(FatalParsingError), s1)
        },
    }
}

/// A name, or a `type[..]` part.
#[verifier::opaque]
pub open spec fn g_start<'a>(c: ParseInput<'a>, st: ParseState<'a>) -> Parsed<'a, StartView<'a>>
    decreases measure_of(c, st), 16int,
{
    let (i, s1) = g_try_ident(c, st);
    match i {
        Some(id) => (Ok(Some(Spanned { span: id.span, value: StartView::Ident(id.value) })), s1),
        None => if settled(c, st, s1) {
            let (r, s2) = g_type_part(c, s1);
            match r {
                Err(e) => (Err(e), s2),
                Ok(Some(tp)) => (Ok(Some(Spanned { span: tp.span, value: StartView::Type(tp.value) })), s2),
                Ok(None) => (Ok(None), s2),
            }
        } else {
            (Err(FatalParsingError), s1)
        },
    }
}

/// `type`, `[`, a type, an optional `as` and type, and `]`.
#[verifier::opaque]
pub open spec fn g_type_part<'a>(c: ParseInput<'a>, st: ParseState<'a>) -> Parsed<'a, TypePartView<'a>>
    decreases measure_of(c, st), 14int,
{
    let (o, s1) = g_try_token(c, st, TokenKind::Keyword(Keyword::Type));
    match o {
        None => (Ok(None), s1),
        Some(start) => {
            let (rb, s2) = g_expect_token(
                c,
                s1,
                TokenKind::Symbol(Symbol::BracketOpen),
                MismatchHandling::Consume,
                Expectation::Symbol(Symbol::BracketOpen),
            );
            match rb {
                Err(e) => (Err(e), s2),
                Ok(_) => if shrunk(c, st, s2) {
                    let (rt, s3) = g_ty_expect(c, s2, MismatchHandling::ConsumeUntilSafe);
                    match rt {
                        Err(e) => (Err(e), s3),
                        Ok(ty) => {
                            let (a, s4) = g_try_token(c, s3, TokenKind::Keyword(Keyword::As));
                            let (ra, s5) = match a {
                                Some(_) => if shrunk(c, st, s4) {
                                    let (r, s) = g_ty_expect(c, s4, MismatchHandling::ConsumeUntilSafe);
                                    match r {
                                        Err(e) => (Err::<Option<Spanned<'a, TyView<'a>>>, FatalParsingError>(e), s),
                                        Ok(x) => (Ok(Some(x)), s),
                                    }
                                } else {
                                    (Err(FatalParsingError), s4)
                                },
                                None => (Ok(None), s4),
                            };
                            match ra {
                                Err(e) => (Err(e), s5),
                                Ok(as_ty) => {
                                    let (re, s6) = g_expect_token(
                                        c,
                                        s5,
                                        TokenKind::Symbol(Symbol::BracketClose),
                                        MismatchHandling::Consume,
                                        Expectation::Symbol(Symbol::BracketClose),
                                    );
                                    match re {
                                        Err(e) => (Err(e), s6),
                                        Ok(end) => (
                                            Ok(Some(Spanned { span: start.spec_join(end), value: TypePartView { ty, as_ty } })),
                                            s6,
                                        ),
                                    }
                                },
                            }
                        },
                    }
                } else {
                    (Err(FatalParsingError), s2)
                },
            }
        },
    }
}

/// A symbol path part: `::` and generic arguments or a name (an `Error` part, reported,
/// when neither follows), or, when `lenient`, generic arguments on their own.
#[verifier::opaque]
pub open spec fn g_part<'a>(c: ParseInput<'a>, st: ParseState<'a>, lenient: bool) -> Parsed<'a, PartView<'a>>
    decreases measure_of(c, st), 10int,
{
    let (r0, s0) = if lenient {
        g_generic_list(c, st)
    } else {
        (Ok(None), st)
    };
    match r0 {
        Err(e) => (Err(e), s0),
        Ok(Some(g)) => (Ok(Some(Spanned { span: g.span, value: PartView::Generics(g.value) })), s0),
        Ok(None) => {
            let (o, s1) = g_try_token(c, s0, TokenKind::Symbol(Symbol::DoubleColon));
            match o {
                None => (Ok(None), s1),
                Some(start) => if shrunk(c, st, s1) {
                    let (rg, s2) = g_generic_list(c, s1);
                    match rg {
                        Err(e) => (Err(e), s2),
                        Ok(Some(g)) => (Ok(Some(Spanned { span: g.span, value: PartView::Generics(g.value) })), s2),
                        Ok(None) => {
                            let (i, s3) = g_try_ident(c, s2);
                            match i {
                                Some(id) => (Ok(Some(Spanned { span: id.span, value: PartView::Ident(id.value) })), s3),
                                None => {
                                    let (tok, s4) = g_peek(c, s3);
                                    let span = start.spec_join(tok.span);
                                    let report = Diagnostic {
                                        kind: DiagnosticKind::ExpectedSymbolPathPart {
                                            got: Box::new(spec_kind_from_token(tok)),
                                        },
                                        level: DiagnosticLevel::Error,
                                        span,
                                    };
                                    (
                                        Ok(Some(Spanned { span, value: PartView::Error })),
                                        ParseState { idx: s4.idx, peek: s4.peek, diags: s4.diags.push(report) },
                                    )
                                },
                            }
                        },
                    }
                } else {
                    (Err(FatalParsingError), s1)
                },
            }
        },
    }
}

/// Symbol path parts, one after another, added to `acc`.
#[verifier::opaque]
pub open spec fn g_parts_from<'a>(
    c: ParseInput<'a>,
    st: ParseState<'a>,
    lenient: bool,
    acc: Seq<Spanned<'a, PartView<'a>>>,
) -> (Result<Seq<Spanned<'a, PartView<'a>>>, FatalParsingError>, ParseState<'a>)
    decreases measure_of(c, st), 11int,
{
    let (r, s1) = g_part(c, st, lenient);
    match r {
        Err(e) => (Err(e), s1),
        Ok(None) => (Ok(acc), s1),
        Ok(Some(x)) => if shrunk(c, st, s1) {
            g_parts_from(c, s1, lenient, acc.push(x))
        } else {
            (Err(FatalParsingError), s1)
        },
    }
}

/// The items gathered by a loop, spanned from the first to the last; `None` when there is
/// none.
pub open spec fn gathered<'a, T>(items: Seq<Spanned<'a, T>>) -> Option<Spanned<'a, Seq<Spanned<'a, T>>>> {
    if items.len() == 0 {
        None
    } else {
        Some(Spanned { span: items[0].span.spec_join(items.last().span), value: items })
    }
}

/// Symbol path parts as long as there are any.
#[verifier::opaque]
pub open spec fn g_parts<'a>(c: ParseInput<'a>, st: ParseState<'a>, lenient: bool) -> Parsed<
    'a,
    Seq<Spanned<'a, PartView<'a>>>,
>
    decreases measure_of(c, st), 12int,
{
    let (r, s1) = g_parts_from(c, st, lenient, Seq::empty());
    match r {
        Err(e) => (Err(e), s1),
        Ok(items) => (Ok(gathered(items)), s1),
    }
}

/// `const` and an expression, or a type.
#[verifier::opaque]
pub open spec fn g_generic<'a>(c: ParseInput<'a>, st: ParseState<'a>) -> Parsed<'a, GenericView<'a>>
    decreases measure_of(c, st), 24int,
{
    let (o, s1) = g_try_token(c, st, TokenKind::Keyword(Keyword::Const));
    match o {
        Some(start) => if shrunk(c, st, s1) {
            let (re, s2) = g_expr_expect(c, s1, MismatchHandling::ConsumeUntilSafe);
            match re {
                Err(e) => (Err(e), s2),
                Ok(x) => (Ok(Some(Spanned { span: start.spec_join(x.span), value: GenericView::Const(x) })), s2),
            }
        } else {
            (Err(FatalParsingError), s1)
        },
        None => if settled(c, st, s1) {
            let (rt, s2) = g_ty(c, s1);
            match rt {
                Err(e) => (Err(e), s2),
                Ok(None) => (Ok(None), s2),
                Ok(Some(ty)) => (Ok(Some(Spanned { span: ty.span, value: GenericView::Ty(ty) })), s2),
            }
        } else {
            (Err(FatalParsingError), s1)
        },
    }
}

/// A generic argument; where there is none, it is reported and `Error` stands for it.
#[verifier::opaque]
pub open spec fn g_generic_expect<'a>(c: ParseInput<'a>, st: ParseState<'a>, mh: MismatchHandling) -> Expected<
    'a,
    GenericView<'a>,
>
    decreases measure_of(c, st), 26int,
{
    let (r1, s1) = g_generic(c, st);
    match r1 {
        Err(e) => (Err(e), s1),
        Ok(parsed) => g_expect_parse(c, s1, mh, parsed, Expectation::GenericArgument, GenericView::Error),
    }
}

/// The rest of a generic argument list after `[` (at `start`), with the arguments so far.
#[verifier::opaque]
pub open spec fn g_generic_list_from<'a>(
    c: ParseInput<'a>,
    st: ParseState<'a>,
    start: SourceSpan<'a>,
    acc: Seq<Spanned<'a, GenericView<'a>>>,
) -> Expected<'a, Seq<Spanned<'a, GenericView<'a>>>>
    decreases measure_of(c, st), 27int,
{
    let (close, s1) = g_try_token(c, st, TokenKind::Symbol(Symbol::BracketClose));
    match close {
        Some(end) => (Ok(Spanned { span: start.spec_join(end), value: acc }), s1),
        None => if settled(c, st, s1) {
            let (rv, s2) = g_generic_expect(c, s1, MismatchHandling::ConsumeUntilSafe);
            match rv {
                Err(e) => (Err(e), s2),
                Ok(v) => {
                    let (comma, s3) = g_try_token(c, s2, TokenKind::Symbol(Symbol::Comma));
                    match comma {
                        Some(_) => if shrunk(c, st, s3) {
                            g_generic_list_from(c, s3, start, acc.push(v))
                        } else {
                            (Err(FatalParsingError), s3)
                        },
                        None => {
                            let (re, s4) = g_expect_token(
                                c,
                                s3,
                                TokenKind::Symbol(Symbol::BracketClose),
                                MismatchHandling::Consume,
                                Expectation::Symbol(Symbol::BracketClose),
                            );
                            match re {
                                Err(e) => (Err(e), s4),
                                Ok(end) => (Ok(Spanned { span: start.spec_join(end), value: acc.push(v) }), s4),
                            }
                        },
                    }
                },
            }
        } else {
            (Err(FatalParsingError), s1)
        },
    }
}

/// `[`, generic arguments separated by `,` (a trailing `,` allowed), and `]`.
#[verifier::opaque]
pub open spec fn g_generic_list<'a>(c: ParseInput<'a>, st: ParseState<'a>) -> Parsed<
    'a,
    Seq<Spanned<'a, GenericView<'a>>>,
>
    decreases measure_of(c, st), 8int,
{
    let (o, s1) = g_try_token(c, st, TokenKind::Symbol(Symbol::BracketOpen));
    match o {
        None => (Ok(None), s1),
        Some(start) => if shrunk(c, st, s1) {
            let (r, s2) = g_generic_list_from(c, s1, start, Seq::empty());
            match r {
                Err(e) => (Err(e), s2),
                Ok(l) => (Ok(Some(l)), s2),
            }
        } else {
            (Err(FatalParsingError), s1)
        },
    }
}

/// A generic argument list; where there is none, it is reported and an empty one stands for
/// it.
#[verifier::opaque]
pub open spec fn g_generic_expect_list<'a>(c: ParseInput<'a>, st: ParseState<'a>, mh: MismatchHandling) -> Expected<
    'a,
    Seq<Spanned<'a, GenericView<'a>>>,
>
    decreases measure_of(c, st), 28int,
{
    let (r1, s1) = g_generic_list(c, st);
    match r1 {
        Err(e) => (Err(e), s1),
        Ok(parsed) => g_expect_parse(c, s1, mh, parsed, Expectation::GenericArgument, Seq::empty()),
    }
}

/// An expression.
#[verifier::opaque]
pub open spec fn g_expr<'a>(c: ParseInput<'a>, st: ParseState<'a>) -> Parsed<'a, ExprView<'a>>
    decreases measure_of(c, st), 58int,
{
    g_infix(c, st, 0)
}

/// An expression; where there is none, it is reported and `Error` stands for it.
#[verifier::opaque]
pub open spec fn g_expr_expect<'a>(c: ParseInput<'a>, st: ParseState<'a>, mh: MismatchHandling) -> Expected<
    'a,
    ExprView<'a>,
>
    decreases measure_of(c, st), 60int,
{
    let (r1, s1) = g_expr(c, st);
    match r1 {
        Err(e) => (Err(e), s1),
        Ok(parsed) => g_expect_parse(c, s1, mh, parsed, Expectation::Expr, ExprView::Error),
    }
}

/// The rest of a list of expressions that began at `start` and ends with `close`, with the
/// expressions so far: `close` ends it, else an expression, then `,` goes on with the list
/// or `close` is expected.
#[verifier::opaque]
pub open spec fn g_expr_list_from<'a>(
    c: ParseInput<'a>,
    st: ParseState<'a>,
    start: SourceSpan<'a>,
    close: Symbol,
    acc: Seq<Spanned<'a, ExprView<'a>>>,
) -> Expected<'a, Seq<Spanned<'a, ExprView<'a>>>>
    decreases measure_of(c, st), 61int,
{
    let (closed, s1) = g_try_token(c, st, TokenKind::Symbol(close));
    match closed {
        Some(end) => (Ok(Spanned { span: start.spec_join(end), value: acc }), s1),
        None => if settled(c, st, s1) {
            let (rv, s2) = g_expr_expect(c, s1, MismatchHandling::ConsumeUntilSafe);
            match rv {
                Err(e) => (Err(e), s2),
                Ok(v) => {
                    let (comma, s3) = g_try_token(c, s2, TokenKind::Symbol(Symbol::Comma));
                    match comma {
                        Some(_) => if shrunk(c, st, s3) {
                            g_expr_list_from(c, s3, start, close, acc.push(v))
                        } else {
                            (Err(FatalParsingError), s3)
                        },
                        None => {
                            let (re, s4) = g_expect_token(
                                c,
                                s3,
                                TokenKind::Symbol(close),
                                MismatchHandling::Consume,
                                Expectation::Symbol(close),
                            );
                            match re {
                                Err(e) => (Err(e), s4),
                                Ok(end) => (Ok(Spanned { span: start.spec_join(end), value: acc.push(v) }), s4),
                            }
                        },
                    }
                },
            }
        } else {
            (Err(FatalParsingError), s1)
        },
    }
}

/// `(`, expressions separated by `,` (a trailing `,` allowed), and `)`.
#[verifier::opaque]
pub open spec fn g_expr_list<'a>(c: ParseInput<'a>, st: ParseState<'a>) -> Parsed<
    'a,
    Seq<Spanned<'a, ExprView<'a>>>,
>
    decreases measure_of(c, st), 34int,
{
    let (o, s1) = g_try_token(c, st, TokenKind::Symbol(Symbol::ParenOpen));
    match o {
        None => (Ok(None), s1),
        Some(start) => if shrunk(c, st, s1) {
            let (r, s2) = g_expr_list_from(c, s1, start, Symbol::ParenClose, Seq::empty());
            match r {
                Err(e) => (Err(e), s2),
                Ok(l) => (Ok(Some(l)), s2),
            }
        } else {
            (Err(FatalParsingError), s1)
        },
    }
}

/// The infix operator that the next token stands for, if any, left in the lookahead.
pub open spec fn g_infix_operator<'a>(c: ParseInput<'a>, st: ParseState<'a>) -> (
    Option<Spanned<'a, InfixOperator>>,
    ParseState<'a>,
) {
    let (tok, s1) = g_peek(c, st);
    match InfixOperator::spec_from_token(tok.kind) {
        Some(op) => (Some(Spanned { span: tok.span, value: op }), s1),
        None => (None, s1),
    }
}

/// Operators that bind at least as tightly as `min`, each with its right operand, applied
/// to `lhs` from the left.
#[verifier::opaque]
pub open spec fn g_infix_from<'a>(
    c: ParseInput<'a>,
    st: ParseState<'a>,
    lhs: Spanned<'a, ExprView<'a>>,
    min: u8,
) -> Parsed<'a, ExprView<'a>>
    decreases measure_of(c, st), 53int,
{
    let (o, s1) = g_infix_operator(c, st);
    match o {
        None => (Ok(Some(lhs)), s1),
        Some(op) => if op.value.spec_precedence() < min {
            (Ok(Some(lhs)), s1)
        } else {
            let s2 = taken(s1);
            if shrunk(c, st, s2) {
                let (rr, s3) = g_infix_expect(
                    c,
                    s2,
                    MismatchHandling::ConsumeUntilSafe,
                    (op.value.spec_precedence() + 1) as u8,
                );
                match rr {
                    Err(e) => (Err(e), s3),
                    Ok(rhs) => if shrunk(c, st, s3) {
                        g_infix_from(
                            c,
                            s3,
                            Spanned {
                                span: lhs.span.spec_join(rhs.span),
                                value: ExprView::InfixOperation(InfixView { operands: Box::new((lhs, rhs)), operator: op }),
                            },
                            min,
                        )
                    } else {
                        (Err(FatalParsingError), s3)
                    },
                }
            } else {
                (Err(FatalParsingError), s2)
            }
        },
    }
}

/// A cast expression, then infix operators that bind at least as tightly as `min`.
#[verifier::opaque]
pub open spec fn g_infix<'a>(c: ParseInput<'a>, st: ParseState<'a>, min: u8) -> Parsed<'a, ExprView<'a>>
    decreases measure_of(c, st), 54int,
{
    let (r, s1) = g_cast(c, st);
    match r {
        Err(e) => (Err(e), s1),
        Ok(None) => (Ok(None), s1),
        Ok(Some(lhs)) => if shrunk(c, st, s1) {
            g_infix_from(c, s1, lhs, min)
        } else {
            (Err(FatalParsingError), s1)
        },
    }
}

/// An infix expression; where there is none, it is reported and `Error` stands for it.
#[verifier::opaque]
pub open spec fn g_infix_expect<'a>(
    c: ParseInput<'a>,
    st: ParseState<'a>,
    mh: MismatchHandling,
    min: u8,
) -> Expected<'a, ExprView<'a>>
    decreases measure_of(c, st), 56int,
{
    let (r1, s1) = g_infix(c, st, min);
    match r1 {
        Err(e) => (Err(e), s1),
        Ok(parsed) => g_expect_parse(c, s1, mh, parsed, Expectation::Expr, ExprView::Error),
    }
}

/// `as` and a type.
#[verifier::opaque]
pub open spec fn g_cast_operator<'a>(c: ParseInput<'a>, st: ParseState<'a>) -> Parsed<'a, CastOperatorView<'a>>
    decreases measure_of(c, st), 30int,
{
    let (o, s1) = g_try_token(c, st, TokenKind::Keyword(Keyword::As));
    match o {
        None => (Ok(None), s1),
        Some(start) => if shrunk(c, st, s1) {
            let (rt, s2) = g_ty_expect(c, s1, MismatchHandling::ConsumeUntilSafe);
            match rt {
                Err(e) => (Err(e), s2),
                Ok(ty) => (Ok(Some(Spanned { span: start.spec_join(ty.span), value: CastOperatorView { ty } })), s2),
            }
        } else {
            (Err(FatalParsingError), s1)
        },
    }
}

/// Casts, one after another, added to `acc`.
#[verifier::opaque]
pub open spec fn g_cast_operators_from<'a>(
    c: ParseInput<'a>,
    st: ParseState<'a>,
    acc: Seq<Spanned<'a, CastOperatorView<'a>>>,
) -> (Result<Seq<Spanned<'a, CastOperatorView<'a>>>, FatalParsingError>, ParseState<'a>)
    decreases measure_of(c, st), 31int,
{
    let (r, s1) = g_cast_operator(c, st);
    match r {
        Err(e) => (Err(e), s1),
        Ok(None) => (Ok(acc), s1),
        Ok(Some(x)) => if shrunk(c, st, s1) {
            g_cast_operators_from(c, s1, acc.push(x))
        } else {
            (Err(FatalParsingError), s1)
        },
    }
}

/// Casts as long as there are any.
#[verifier::opaque]
pub open spec fn g_cast_operators<'a>(c: ParseInput<'a>, st: ParseState<'a>) -> Parsed<
    'a,
    Seq<Spanned<'a, CastOperatorView<'a>>>,
>
    decreases measure_of(c, st), 32int,
{
    let (r, s1) = g_cast_operators_from(c, st, Seq::empty());
    match r {
        Err(e) => (Err(e), s1),
        Ok(items) => (Ok(gathered(items)), s1),
    }
}

/// A prefix expression and the casts after it.
#[verifier::opaque]
pub open spec fn g_cast<'a>(c: ParseInput<'a>, st: ParseState<'a>) -> Parsed<'a, ExprView<'a>>
    decreases measure_of(c, st), 50int,
{
    let (r, s1) = g_prefix(c, st);
    match r {
        Err(e) => (Err(e), s1),
        Ok(None) => (Ok(None), s1),
        Ok(Some(x)) => if settled(c, st, s1) {
            let (rc, s2) = g_cast_operators(c, s1);
            match rc {
                Err(e) => (Err(e), s2),
                Ok(Some(casts)) => (
                    Ok(Some(Spanned { span: x.span.spec_join(casts.span), value: ExprView::CastOperation(CastView { expr: Box::new(x), casts }) })),
                    s2,
                ),
                Ok(None) => (Ok(Some(x)), s2),
            }
        } else {
            (Err(FatalParsingError), s1)
        },
    }
}

/// A cast expression; where there is none, it is reported and `Error` stands for it.
#[verifier::opaque]
pub open spec fn g_cast_expect<'a>(c: ParseInput<'a>, st: ParseState<'a>, mh: MismatchHandling) -> Expected<
    'a,
    ExprView<'a>,
>
    decreases measure_of(c, st), 52int,
{
    let (r1, s1) = g_cast(c, st);
    match r1 {
        Err(e) => (Err(e), s1),
        Ok(parsed) => g_expect_parse(c, s1, mh, parsed, Expectation::Expr, ExprView::Error),
    }
}

/// Takes the next token if it is a prefix operator; gives the operator.
pub open spec fn g_prefix_operator<'a>(c: ParseInput<'a>, st: ParseState<'a>) -> (
    Option<Spanned<'a, PrefixOperator>>,
    ParseState<'a>,
) {
    let (tok, s1) = g_peek(c, st);
    match PrefixOperator::spec_from_token(tok.kind) {
        Some(op) => (Some(Spanned { span: tok.span, value: op }), taken(s1)),
        None => (None, s1),
    }
}

/// Items parsed by `step`, one after another while it finds one, added to `acc`; an error
/// ends the items.
#[verifier::opaque]
pub open spec fn g_many_parsed_from<'a, T>(
    step: spec_fn(ParseInput<'a>, ParseState<'a>) -> Parsed<'a, T>,
    c: ParseInput<'a>,
    st: ParseState<'a>,
    acc: Seq<Spanned<'a, T>>,
) -> (Result<Seq<Spanned<'a, T>>, FatalParsingError>, ParseState<'a>)
    decreases measure_of(c, st),
{
    let (r, s1) = step(c, st);
    match r {
        Err(e) => (Err(e), s1),
        Ok(None) => (Ok(acc), s1),
        Ok(Some(x)) => if shrunk(c, st, s1) {
            g_many_parsed_from(step, c, s1, acc.push(x))
        } else {
            (Err(FatalParsingError), s1)
        },
    }
}

/// Items parsed by `step` as long as it finds one.
pub open spec fn g_many_parsed<'a, T>(
    step: spec_fn(ParseInput<'a>, ParseState<'a>) -> Parsed<'a, T>,
    c: ParseInput<'a>,
    st: ParseState<'a>,
) -> Parsed<'a, Seq<Spanned<'a, T>>> {
    let (r, s1) = g_many_parsed_from(step, c, st, Seq::empty());
    match r {
        Err(e) => (Err(e), s1),
        Ok(items) => (Ok(gathered(items)), s1),
    }
}

/// Items read by `step`, one after another while it finds one, added to `acc`.
#[verifier::opaque]
pub open spec fn g_many_from<'a, T>(
    step: spec_fn(ParseInput<'a>, ParseState<'a>) -> (Option<Spanned<'a, T>>, ParseState<'a>),
    c: ParseInput<'a>,
    st: ParseState<'a>,
    acc: Seq<Spanned<'a, T>>,
) -> (Seq<Spanned<'a, T>>, ParseState<'a>)
    decreases measure_of(c, st),
{
    let (o, s1) = step(c, st);
    match o {
        None => (acc, s1),
        Some(x) => if shrunk(c, st, s1) {
            g_many_from(step, c, s1, acc.push(x))
        } else {
            (acc, s1)
        },
    }
}

/// Items read by `step` as long as it finds one.
pub open spec fn g_many<'a, T>(
    step: spec_fn(ParseInput<'a>, ParseState<'a>) -> (Option<Spanned<'a, T>>, ParseState<'a>),
    c: ParseInput<'a>,
    st: ParseState<'a>,
) -> (Option<Spanned<'a, Seq<Spanned<'a, T>>>>, ParseState<'a>) {
    let (items, s1) = g_many_from(step, c, st, Seq::empty());
    (gathered(items), s1)
}

/// Reading one prefix operator, as a step of `g_many`.
pub open spec fn prefix_step<'a>() -> spec_fn(ParseInput<'a>, ParseState<'a>) -> (
    Option<Spanned<'a, PrefixOperator>>,
    ParseState<'a>,
) {
    |c: ParseInput<'a>, st: ParseState<'a>| g_prefix_operator(c, st)
}

/// Prefix operators as long as there are any.
pub open spec fn g_prefix_operators<'a>(c: ParseInput<'a>, st: ParseState<'a>) -> (
    Option<Spanned<'a, Seq<Spanned<'a, PrefixOperator>>>>,
    ParseState<'a>,
) {
    g_many(prefix_step(), c, st)
}

/// Prefix operators and the postfix expression after them.
#[verifier::opaque]
pub open spec fn g_prefix<'a>(c: ParseInput<'a>, st: ParseState<'a>) -> Parsed<'a, ExprView<'a>>
    decreases measure_of(c, st), 46int,
{
    let (ops, s1) = g_prefix_operators(c, st);
    if settled(c, st, s1) {
        match ops {
            None => g_postfix(c, s1),
            Some(operators) => {
                let (re, s2) = g_postfix_expect(c, s1, MismatchHandling::ConsumeUntilSafe);
                match re {
                    Err(e) => (Err(e), s2),
                    Ok(x) => (
                        Ok(Some(Spanned { span: operators.span.spec_join(x.span), value: ExprView::PrefixOperation(PrefixView { operand: Box::new(x), operators }) })),
                        s2,
                    ),
                }
            },
        }
    } else {
        (Err(FatalParsingError), s1)
    }
}

/// A prefix expression; where there is none, it is reported and `Error` stands for it.
#[verifier::opaque]
pub open spec fn g_prefix_expect<'a>(c: ParseInput<'a>, st: ParseState<'a>, mh: MismatchHandling) -> Expected<
    'a,
    ExprView<'a>,
>
    decreases measure_of(c, st), 48int,
{
    let (r1, s1) = g_prefix(c, st);
    match r1 {
        Err(e) => (Err(e), s1),
        Ok(parsed) => g_expect_parse(c, s1, mh, parsed, Expectation::Expr, ExprView::Error),
    }
}

/// `.` and a name, arguments `(..)`, an index `[..]`, or `::` and generic arguments.
#[verifier::opaque]
pub open spec fn g_postfix_operator<'a>(c: ParseInput<'a>, st: ParseState<'a>) -> Parsed<
    'a,
    PostfixOperatorView<'a>,
>
    decreases measure_of(c, st), 36int,
{
    let (dot, s1) = g_try_token(c, st, TokenKind::Symbol(Symbol::Dot));
    match dot {
        Some(start) => {
            let (ri, s2) = g_expect_ident(c, s1, MismatchHandling::Consume);
            match ri {
                Err(e) => (Err(e), s2),
                Ok(ident) => (
                    Ok(Some(Spanned { span: start.spec_join(ident.span), value: PostfixOperatorView::Field(ident.value) })),
                    s2,
                ),
            }
        },
        None => if settled(c, st, s1) {
            let (rl, s2) = g_expr_list(c, s1);
            match rl {
                Err(e) => (Err(e), s2),
                Ok(Some(values)) => (
                    Ok(Some(Spanned { span: values.span, value: PostfixOperatorView::Invoke(values.value) })),
                    s2,
                ),
                Ok(None) => {
                    let (br, s3) = g_try_token(c, s2, TokenKind::Symbol(Symbol::BracketOpen));
                    match br {
                        Some(start) => if shrunk(c, st, s3) {
                            let (re, s4) = g_expr_expect(c, s3, MismatchHandling::ConsumeUntilSafe);
                            match re {
                                Err(e) => (Err(e), s4),
                                Ok(x) => {
                                    let (rend, s5) = g_expect_token(
                                        c,
                                        s4,
                                        TokenKind::Symbol(Symbol::BracketClose),
                                        MismatchHandling::Consume,
                                        Expectation::Symbol(Symbol::BracketClose),
                                    );
                                    match rend {
                                        Err(e) => (Err(e), s5),
                                        Ok(end) => (
                                            Ok(Some(Spanned { span: start.spec_join(end), value: PostfixOperatorView::Access(Box::new(x.value)) })),
                                            s5,
                                        ),
                                    }
                                },
                            }
                        } else {
                            (Err(FatalParsingError), s3)
                        },
                        None => {
                            let (dc, s4) = g_try_token(c, s3, TokenKind::Symbol(Symbol::DoubleColon));
                            match dc {
                                Some(start) => if shrunk(c, st, s4) {
                                    let (rg, s5) = g_generic_expect_list(c, s4, MismatchHandling::ConsumeUntilSafe);
                                    match rg {
                                        Err(e) => (Err(e), s5),
                                        Ok(generics) => (
                                            Ok(Some(Spanned { span: start.spec_join(generics.span), value: PostfixOperatorView::Generics(generics.value) })),
                                            s5,
                                        ),
                                    }
                                } else {
                                    (Err(FatalParsingError), s4)
                                },
                                None => (Ok(None), s4),
                            }
                        },
                    }
                },
            }
        } else {
            (Err(FatalParsingError), s1)
        },
    }
}

/// Postfix operations, one after another, added to `acc`.
#[verifier::opaque]
pub open spec fn g_postfix_operators_from<'a>(
    c: ParseInput<'a>,
    st: ParseState<'a>,
    acc: Seq<Spanned<'a, PostfixOperatorView<'a>>>,
) -> (Result<Seq<Spanned<'a, PostfixOperatorView<'a>>>, FatalParsingError>, ParseState<'a>)
    decreases measure_of(c, st), 37int,
{
    let (r, s1) = g_postfix_operator(c, st);
    match r {
        Err(e) => (Err(e), s1),
        Ok(None) => (Ok(acc), s1),
        Ok(Some(x)) => if shrunk(c, st, s1) {
            g_postfix_operators_from(c, s1, acc.push(x))
        } else {
            (Err(FatalParsingError), s1)
        },
    }
}

/// Postfix operations as long as there are any.
#[verifier::opaque]
pub open spec fn g_postfix_operators<'a>(c: ParseInput<'a>, st: ParseState<'a>) -> Parsed<
    'a,
    Seq<Spanned<'a, PostfixOperatorView<'a>>>,
>
    decreases measure_of(c, st), 38int,
{
    let (r, s1) = g_postfix_operators_from(c, st, Seq::empty());
    match r {
        Err(e) => (Err(e), s1),
        Ok(items) => (Ok(gathered(items)), s1),
    }
}

/// An atom and the postfix operations after it.
#[verifier::opaque]
pub open spec fn g_postfix<'a>(c: ParseInput<'a>, st: ParseState<'a>) -> Parsed<'a, ExprView<'a>>
    decreases measure_of(c, st), 42int,
{
    let (r, s1) = g_atom(c, st);
    match r {
        Err(e) => (Err(e), s1),
        Ok(None) => (Ok(None), s1),
        Ok(Some(x)) => if settled(c, st, s1) {
            let (ro, s2) = g_postfix_operators(c, s1);
            match ro {
                Err(e) => (Err(e), s2),
                Ok(Some(operators)) => (
                    Ok(Some(Spanned { span: x.span.spec_join(operators.span), value: ExprView::PostfixOperation(PostfixView { operand: Box::new(x), operators }) })),
                    s2,
                ),
                Ok(None) => (Ok(Some(x)), s2),
            }
        } else {
            (Err(FatalParsingError), s1)
        },
    }
}

/// A postfix expression; where there is none, it is reported and `Error` stands for it.
#[verifier::opaque]
pub open spec fn g_postfix_expect<'a>(c: ParseInput<'a>, st: ParseState<'a>, mh: MismatchHandling) -> Expected<
    'a,
    ExprView<'a>,
>
    decreases measure_of(c, st), 44int,
{
    let (r1, s1) = g_postfix(c, st);
    match r1 {
        Err(e) => (Err(e), s1),
        Ok(parsed) => g_expect_parse(c, s1, mh, parsed, Expectation::Expr, ExprView::Error),
    }
}

/// A symbol path, a number, `true`, `false`, or an expression in parentheses.
#[verifier::opaque]
pub open spec fn g_atom<'a>(c: ParseInput<'a>, st: ParseState<'a>) -> Parsed<'a, ExprView<'a>>
    decreases measure_of(c, st), 40int,
{
    let (ra, sa) = g_array(c, st);
    match ra {
        Err(e) => (Err(e), sa),
        Ok(Some(x)) => (Ok(Some(x)), sa),
        Ok(None) => if settled(c, st, sa) {
            let (rs, s0) = g_struct_init(c, sa);
            match rs {
                Err(e) => (Err(e), s0),
                Ok(Some(x)) => (Ok(Some(x)), s0),
                Ok(None) => if settled(c, st, s0) {
                    g_atom_rest(c, st, s0)
                } else {
                    (Err(FatalParsingError), s0)
                },
            }
        } else {
            (Err(FatalParsingError), sa)
        },
    }
}

/// A symbol path, a number, `true`, `false`, or an expression in parentheses, from `s0` on,
/// where `st` is where the atom began.
#[verifier::opaque]
pub open spec fn g_atom_rest<'a>(c: ParseInput<'a>, st: ParseState<'a>, s0: ParseState<'a>) -> Parsed<'a, ExprView<'a>>
    decreases measure_of(c, st), 39int,
{
    if !settled(c, st, s0) {
        (Err(FatalParsingError), s0)
    } else {
        let (rp, s1) = g_symbol_path(c, s0, false);
        match rp {
            Err(e) => (Err(e), s1),
            Ok(Some(p)) => (Ok(Some(Spanned { span: p.span, value: ExprView::Atom(AtomView::Symbol(p.value)) })), s1),
            Ok(None) => {
                let (n, s2) = g_try_number(c, s1);
                match n {
                    Some(num) => (Ok(Some(Spanned { span: num.span, value: ExprView::Atom(AtomView::Number(num.value)) })), s2),
                    None => {
                        let (t, s3) = g_try_token(c, s2, TokenKind::Keyword(Keyword::True));
                        match t {
                            Some(span) => (Ok(Some(Spanned { span, value: ExprView::Atom(AtomView::Boolean(true)) })), s3),
                            None => {
                                let (f, s4) = g_try_token(c, s3, TokenKind::Keyword(Keyword::False));
                                match f {
                                    Some(span) => (Ok(Some(Spanned { span, value: ExprView::Atom(AtomView::Boolean(false)) })), s4),
                                    None => {
                                        let (p, s5) = g_try_token(c, s4, TokenKind::Symbol(Symbol::ParenOpen));
                                        match p {
                                            None => (Ok(None), s5),
                                            Some(start) => if shrunk(c, st, s5) {
                                                let (re, s6) = g_expr_expect(c, s5, MismatchHandling::ConsumeUntilSafe);
                                                match re {
                                                    Err(e) => (Err(e), s6),
                                                    Ok(x) => {
                                                        let (rend, s7) = g_expect_token(
                                                            c,
                                                            s6,
                                                            TokenKind::Symbol(Symbol::ParenClose),
                                                            MismatchHandling::Consume,
                                                            Expectation::Symbol(Symbol::ParenClose),
                                                        );
                                                        match rend {
                                                            Err(e) => (Err(e), s7),
                                                            Ok(end) => (Ok(Some(Spanned { span: start.spec_join(end), value: x.value })), s7),
                                                        }
                                                    },
                                                }
                                            } else {
                                                (Err(FatalParsingError), s5)
                                            },
                                        }
                                    },
                                }
                            },
                        }
                    },
                }
            },
        }
    }
}

/// Names after `.`, one after another, added to `acc`; a `.` without a name after it is
/// reported and ends the path.
#[verifier::opaque]
pub open spec fn g_dot_path_from<'a>(
    c: ParseInput<'a>,
    st: ParseState<'a>,
    acc: Seq<Spanned<'a, Option<PseudoKeyword>>>,
) -> (Seq<Spanned<'a, Option<PseudoKeyword>>>, ParseState<'a>)
    decreases measure_of(c, st),
{
    let (dot, s1) = g_try_token(c, st, TokenKind::Symbol(Symbol::Dot));
    match dot {
        None => (acc, s1),
        Some(_) => {
            let (i, s2) = g_try_ident(c, s1);
            match i {
                Some(id) => if shrunk(c, st, s2) {
                    g_dot_path_from(c, s2, acc.push(id))
                } else {
                    (acc, s2)
                },
                None => {
                    let (_, s3) = g_expect_ident(c, s2, MismatchHandling::Skip);
                    (acc, s3)
                },
            }
        },
    }
}

/// The rest of the field initializers of a struct construction that began at `start`, with
/// the initializers so far: `}` ends them; else a name, an optional `:` and value, and then
/// `,` goes on or `}` is expected.
#[verifier::opaque]
pub open spec fn g_field_inits_from<'a>(
    c: ParseInput<'a>,
    st: ParseState<'a>,
    start: SourceSpan<'a>,
    acc: Seq<Spanned<'a, FieldInitView<'a>>>,
) -> Expected<'a, Seq<Spanned<'a, FieldInitView<'a>>>>
    decreases measure_of(c, st), 61int,
{
    let (closed, s1) = g_try_token(c, st, TokenKind::Symbol(Symbol::BraceClose));
    match closed {
        Some(end) => (Ok(Spanned { span: start.spec_join(end), value: acc }), s1),
        None => {
            let (rn, s2) = g_expect_ident(c, s1, MismatchHandling::ConsumeUntilSafe);
            match rn {
                Err(e) => (Err(e), s2),
                Ok(name) => {
                    let (colon, s3) = g_try_token(c, s2, TokenKind::Symbol(Symbol::Colon));
                    let (rv, s4) = match colon {
                        Some(_) => if shrunk(c, st, s3) {
                            let (r, s) = g_expr_expect(c, s3, MismatchHandling::ConsumeUntilSafe);
                            match r {
                                Err(e) => (Err::<Option<Spanned<'a, ExprView<'a>>>, FatalParsingError>(e), s),
                                Ok(x) => (Ok(Some(x)), s),
                            }
                        } else {
                            (Err(FatalParsingError), s3)
                        },
                        None => (Ok(None), s3),
                    };
                    match rv {
                        Err(e) => (Err(e), s4),
                        Ok(value) => {
                            let item = Spanned {
                                span: match value {
                                    Some(v) => name.span.spec_join(v.span),
                                    None => name.span,
                                },
                                value: FieldInitView { name, value },
                            };
                            let (comma, s5) = g_try_token(c, s4, TokenKind::Symbol(Symbol::Comma));
                            match comma {
                                Some(_) => if shrunk(c, st, s5) {
                                    g_field_inits_from(c, s5, start, acc.push(item))
                                } else {
                                    (Err(FatalParsingError), s5)
                                },
                                None => {
                                    let (re, s6) = g_expect_token(
                                        c,
                                        s5,
                                        TokenKind::Symbol(Symbol::BraceClose),
                                        MismatchHandling::Consume,
                                        Expectation::Symbol(Symbol::BraceClose),
                                    );
                                    match re {
                                        Err(e) => (Err(e), s6),
                                        Ok(end) => (Ok(Spanned { span: start.spec_join(end), value: acc.push(item) }), s6),
                                    }
                                },
                            }
                        },
                    }
                },
            }
        },
    }
}

/// `new`, a path of names separated by `.`, `{`, and the field initializers up to `}`.
#[verifier::opaque]
pub open spec fn g_struct_init<'a>(c: ParseInput<'a>, st: ParseState<'a>) -> Parsed<'a, ExprView<'a>>
    decreases measure_of(c, st), 37int,
{
    let (n, s1) = g_try_token(c, st, TokenKind::Identifier(Some(PseudoKeyword::New)));
    match n {
        None => (Ok(None), s1),
        Some(start) => {
            let (rf, s2) = g_expect_ident(c, s1, MismatchHandling::Skip);
            match rf {
                Err(e) => (Err(e), s2),
                Ok(first) => {
                    let (names, s3) = g_dot_path_from(c, s2, seq![first]);
                    let path = Spanned { span: first.span.spec_join(names.last().span), value: names };
                    let (ro, s4) = g_expect_token(
                        c,
                        s3,
                        TokenKind::Symbol(Symbol::BraceOpen),
                        MismatchHandling::Consume,
                        Expectation::Symbol(Symbol::BraceOpen),
                    );
                    match ro {
                        Err(e) => (Err(e), s4),
                        Ok(_) => if shrunk(c, st, s4) {
                            let (rl, s5) = g_field_inits_from(c, s4, start, Seq::empty());
                            match rl {
                                Err(e) => (Err(e), s5),
                                Ok(l) => (
                                    Ok(Some(Spanned {
                                        span: l.span,
                                        value: ExprView::Atom(AtomView::Struct(StructInitView { path, fields: l.value })),
                                    })),
                                    s5,
                                ),
                            }
                        } else {
                            (Err(FatalParsingError), s4)
                        },
                    }
                },
            }
        },
    }
}

/// An array literal `[..]`, a vector literal `vec[..]` or a matrix literal `mat[..]`: the
/// expressions between the brackets, separated by `,` (a trailing `,` allowed).
#[verifier::opaque]
pub open spec fn g_array<'a>(c: ParseInput<'a>, st: ParseState<'a>) -> Parsed<'a, ExprView<'a>>
    decreases measure_of(c, st), 38int,
{
    let (v, s1) = g_try_token(c, st, TokenKind::Identifier(Some(PseudoKeyword::Vec)));
    let (m, s2) = match v {
        Some(_) => (None, s1),
        None => g_try_token(c, s1, TokenKind::Identifier(Some(PseudoKeyword::Mat))),
    };
    let head = match v {
        Some(sp) => Some((sp, ArrayKind::Vector)),
        None => match m {
            Some(sp) => Some((sp, ArrayKind::Matrix)),
            None => None,
        },
    };
    let (opened, s3) = match head {
        Some((start, kind)) => {
            let (ro, s) = g_expect_token(
                c,
                s2,
                TokenKind::Symbol(Symbol::BracketOpen),
                MismatchHandling::Consume,
                Expectation::Symbol(Symbol::BracketOpen),
            );
            match ro {
                Err(e) => (Err(e), s),
                Ok(_) => (Ok(Some((start, kind))), s),
            }
        },
        None => {
            let (o, s) = g_try_token(c, s2, TokenKind::Symbol(Symbol::BracketOpen));
            match o {
                Some(start) => (Ok(Some((start, ArrayKind::Array))), s),
                None => (Ok(None), s),
            }
        },
    };
    match opened {
        Err(e) => (Err(e), s3),
        Ok(None) => (Ok(None), s3),
        Ok(Some((start, kind))) => if shrunk(c, st, s3) {
            let (rl, s4) = g_expr_list_from(c, s3, start, Symbol::BracketClose, Seq::empty());
            match rl {
                Err(e) => (Err(e), s4),
                Ok(l) => (Ok(Some(Spanned { span: l.span, value: ExprView::Atom(AtomView::Array(kind, l.value)) })), s4),
            }
        } else {
            (Err(FatalParsingError), s3)
        },
    }
}

/// Names after `::`, one after another, added to `acc`; a `::` without a name after it is
/// reported, the tokens up to the next `;` or `]` are skipped, and the path ends.
#[verifier::opaque]
pub open spec fn g_path_from<'a>(
    c: ParseInput<'a>,
    st: ParseState<'a>,
    acc: Seq<Spanned<'a, Option<PseudoKeyword>>>,
) -> (Result<Seq<Spanned<'a, Option<PseudoKeyword>>>, FatalParsingError>, ParseState<'a>)
    decreases measure_of(c, st),
{
    let (dc, s1) = g_try_token(c, st, TokenKind::Symbol(Symbol::DoubleColon));
    match dc {
        None => (Ok(acc), s1),
        Some(_) => {
            let (i, s2) = g_try_ident(c, s1);
            match i {
                Some(id) => if shrunk(c, st, s2) {
                    g_path_from(c, s2, acc.push(id))
                } else {
                    (Err(FatalParsingError), s2)
                },
                None => {
                    let (re, s3) = g_expect_ident(
                        c,
                        s2,
                        MismatchHandling::SkipTo(
                            TokenKind::Symbol(Symbol::Semicolon),
                            TokenKind::Symbol(Symbol::BracketClose),
                        ),
                    );
                    match re {
                        Err(e) => (Err(e), s3),
                        Ok(_) => (Ok(acc), s3),
                    }
                },
            }
        },
    }
}

/// A name and then, for each `::`, the name after it.
pub open spec fn g_path<'a>(c: ParseInput<'a>, st: ParseState<'a>) -> Parsed<
    'a,
    Seq<Spanned<'a, Option<PseudoKeyword>>>,
> {
    let (f, s1) = g_try_ident(c, st);
    match f {
        None => (Ok(None), s1),
        Some(first) => {
            let (r, s2) = g_path_from(c, s1, seq![first]);
            match r {
                Err(e) => (Err(e), s2),
                Ok(values) => (Ok(gathered(values)), s2),
            }
        },
    }
}

/// Viewing a list with one more item at the end views the item at the end.
pub proof fn lemma_view_exprs_push<'a>(s: Seq<Spanned<'a, Expr<'a>>>, x: Spanned<'a, Expr<'a>>)
    ensures
        view_exprs(s.push(x)) == view_exprs(s).push(Spanned { span: x.span, value: view_expr(x.value) }),
        view_exprs(Seq::empty()) == Seq::<Spanned<'a, ExprView<'a>>>::empty(),
{
    assert(view_exprs(s.push(x)) =~= view_exprs(s).push(Spanned { span: x.span, value: view_expr(x.value) }));
    assert(view_exprs(Seq::empty()) =~= Seq::<Spanned<'a, ExprView<'a>>>::empty());
}

/// Viewing a list with one more item at the end views the item at the end.
pub proof fn lemma_view_field_inits_push<'a>(s: Seq<Spanned<'a, FieldInit<'a>>>, x: Spanned<'a, FieldInit<'a>>)
    ensures
        view_field_inits(s.push(x)) == view_field_inits(s).push(Spanned { span: x.span, value: view_field_init(x.value) }),
        view_field_inits(Seq::empty()) == Seq::<Spanned<'a, FieldInitView<'a>>>::empty(),
{
    assert(view_field_inits(s.push(x)) =~= view_field_inits(s).push(Spanned { span: x.span, value: view_field_init(x.value) }));
    assert(view_field_inits(Seq::empty()) =~= Seq::<Spanned<'a, FieldInitView<'a>>>::empty());
}

/// Viewing a list with one more item at the end views the item at the end.
pub proof fn lemma_view_postfix_operators_push<'a>(s: Seq<Spanned<'a, PostfixOperator<'a>>>, x: Spanned<'a, PostfixOperator<'a>>)
    ensures
        view_postfix_operators(s.push(x)) == view_postfix_operators(s).push(Spanned { span: x.span, value: view_postfix_operator(x.value) }),
        view_postfix_operators(Seq::empty()) == Seq::<Spanned<'a, PostfixOperatorView<'a>>>::empty(),
{
    assert(view_postfix_operators(s.push(x)) =~= view_postfix_operators(s).push(Spanned { span: x.span, value: view_postfix_operator(x.value) }));
    assert(view_postfix_operators(Seq::empty()) =~= Seq::<Spanned<'a, PostfixOperatorView<'a>>>::empty());
}

/// Viewing a list with one more item at the end views the item at the end.
pub proof fn lemma_view_casts_push<'a>(s: Seq<Spanned<'a, CastOperator<'a>>>, x: Spanned<'a, CastOperator<'a>>)
    ensures
        view_casts(s.push(x)) == view_casts(s).push(Spanned { span: x.span, value: view_cast_operator(x.value) }),
        view_casts(Seq::empty()) == Seq::<Spanned<'a, CastOperatorView<'a>>>::empty(),
{
    assert(view_casts(s.push(x)) =~= view_casts(s).push(Spanned { span: x.span, value: view_cast_operator(x.value) }));
    assert(view_casts(Seq::empty()) =~= Seq::<Spanned<'a, CastOperatorView<'a>>>::empty());
}

/// Viewing a list with one more item at the end views the item at the end.
pub proof fn lemma_view_parts_push<'a>(s: Seq<Spanned<'a, SymbolPathPart<'a>>>, x: Spanned<'a, SymbolPathPart<'a>>)
    ensures
        view_parts(s.push(x)) == view_parts(s).push(Spanned { span: x.span, value: view_part(x.value) }),
        view_parts(Seq::empty()) == Seq::<Spanned<'a, PartView<'a>>>::empty(),
{
    assert(view_parts(s.push(x)) =~= view_parts(s).push(Spanned { span: x.span, value: view_part(x.value) }));
    assert(view_parts(Seq::empty()) =~= Seq::<Spanned<'a, PartView<'a>>>::empty());
}

/// Viewing a list with one more item at the end views the item at the end.
pub proof fn lemma_view_generics_push<'a>(s: Seq<Spanned<'a, GenericArgument<'a>>>, x: Spanned<'a, GenericArgument<'a>>)
    ensures
        view_generics(s.push(x)) == view_generics(s).push(Spanned { span: x.span, value: view_generic(x.value) }),
        view_generics(Seq::empty()) == Seq::<Spanned<'a, GenericView<'a>>>::empty(),
{
    assert(view_generics(s.push(x)) =~= view_generics(s).push(Spanned { span: x.span, value: view_generic(x.value) }));
    assert(view_generics(Seq::empty()) =~= Seq::<Spanned<'a, GenericView<'a>>>::empty());
}

/// Viewing the value that `g_expect_parse` hands back is handing back the viewed value.
pub proof fn lemma_expect_parse_view<'a, T, V>(
    c: ParseInput<'a>,
    st: ParseState<'a>,
    mh: MismatchHandling,
    parsed: Option<Spanned<'a, T>>,
    expectation: Expectation,
    fallback: T,
    f: spec_fn(T) -> V,
)
    ensures
        ({
            let a = g_expect_parse(c, st, mh, parsed, expectation, fallback);
            let b = g_expect_parse(
                c,
                st,
                mh,
                match parsed {
                    Some(x) => Some(spanned_view(x, f)),
                    None => None,
                },
                expectation,
                f(fallback),
            );
            expected_view(a.0, f) == b.0 && a.1 == b.1
        }),
{
}

/// The rest of a list whose opening symbol spans `start`, with the items `acc` read so far:
/// the closing symbol (looked for first, while the list is empty or `allow_trailing` holds)
/// ends it; else an item is read by `step` (recovering with `ConsumeUntilSafe`), and then
/// `delim` goes on with the list or the closing symbol is expected.
#[verifier::opaque]
pub open spec fn g_list_from<'a, T>(
    step: spec_fn(ParseInput<'a>, ParseState<'a>, MismatchHandling) -> Expected<'a, T>,
    c: ParseInput<'a>,
    st: ParseState<'a>,
    start: SourceSpan<'a>,
    close: Symbol,
    delim: Symbol,
    allow_trailing: bool,
    acc: Seq<Spanned<'a, T>>,
) -> Expected<'a, Seq<Spanned<'a, T>>>
    decreases measure_of(c, st),
{
    let (closed, s1) = if acc.len() == 0 || allow_trailing {
        g_try_token(c, st, TokenKind::Symbol(close))
    } else {
        (None, st)
    };
    match closed {
        Some(end) => (Ok(Spanned { span: start.spec_join(end), value: acc }), s1),
        None => {
            let (rv, s2) = step(c, s1, MismatchHandling::ConsumeUntilSafe);
            match rv {
                Err(e) => (Err(e), s2),
                Ok(v) => {
                    let (d, s3) = g_try_token(c, s2, TokenKind::Symbol(delim));
                    match d {
                        Some(_) => if shrunk(c, st, s3) {
                            g_list_from(step, c, s3, start, close, delim, allow_trailing, acc.push(v))
                        } else {
                            (Err(FatalParsingError), s3)
                        },
                        None => {
                            let (re, s4) = g_expect_token(
                                c,
                                s3,
                                TokenKind::Symbol(close),
                                MismatchHandling::Consume,
                                Expectation::Symbol(close),
                            );
                            match re {
                                Err(e) => (Err(e), s4),
                                Ok(end) => (Ok(Spanned { span: start.spec_join(end), value: acc.push(v) }), s4),
                            }
                        },
                    }
                },
            }
        },
    }
}

/// A list: `open`, then items read by `step` and separated by `delim`, then `close` (see
/// `g_list_from`); nothing when the next token is not `open`.
pub open spec fn g_list<'a, T>(
    step: spec_fn(ParseInput<'a>, ParseState<'a>, MismatchHandling) -> Expected<'a, T>,
    c: ParseInput<'a>,
    st: ParseState<'a>,
    open: Symbol,
    close: Symbol,
    delim: Symbol,
    allow_trailing: bool,
) -> Parsed<'a, Seq<Spanned<'a, T>>> {
    let (o, s1) = g_try_token(c, st, TokenKind::Symbol(open));
    match o {
        None => (Ok(None), s1),
        Some(start) => {
            let (r, s2) = g_list_from(step, c, s1, start, close, delim, allow_trailing, Seq::empty());
            match r {
                Err(e) => (Err(e), s2),
                Ok(l) => (Ok(Some(l)), s2),
            }
        },
    }
}

/// What a list parser gives, given what parsing its items after the opening symbol gives.
pub open spec fn g_list_outcome_matches<'a, T>(
    list: Parsed<'a, Seq<Spanned<'a, T>>>,
    items: Expected<'a, Seq<Spanned<'a, T>>>,
) -> bool {
    list == (
        match items.0 {
            Err(e) => Err(e),
            Ok(l) => Ok(Some(l)),
        },
        items.1,
    )
}

/// The infix operation `l op r`, spanning both operands.
pub open spec fn infix_node<'a>(
    l: Spanned<'a, ExprView<'a>>,
    op: Spanned<'a, InfixOperator>,
    r: Spanned<'a, ExprView<'a>>,
) -> Spanned<'a, ExprView<'a>> {
    Spanned {
        span: l.span.spec_join(r.span),
        value: ExprView::InfixOperation(InfixView { operands: Box::new((l, r)), operator: op }),
    }
}

/// Looking at the operator again, where it was just looked at, finds the same and takes
/// nothing.
proof fn lemma_infix_operator_again<'a>(c: ParseInput<'a>, st: ParseState<'a>)
    ensures
        g_infix_operator(c, g_infix_operator(c, st).1) == g_infix_operator(c, st),
{
    reveal(peek_token_spec);
    let (tok, s1) = g_peek(c, st);
    assert(s1.diags + Seq::<Diagnostic<'a>>::empty() =~= s1.diags);
}

/// Where no operator that binds tightly enough comes next, the operand stands alone.
proof fn lemma_infix_from_stops<'a>(
    c: ParseInput<'a>,
    st: ParseState<'a>,
    lhs: Spanned<'a, ExprView<'a>>,
    min: u8,
    o: Option<Spanned<'a, InfixOperator>>,
    p: ParseState<'a>,
)
    requires
        g_infix_operator(c, st) == (o, p),
        o matches Some(op) ==> op.value.spec_precedence() < min,
    ensures
        g_infix_from(c, st, lhs, min) == (Ok::<Option<Spanned<'a, ExprView<'a>>>, FatalParsingError>(Some(lhs)), p),
{
    reveal_with_fuel(g_infix_from, 1);
}

/// Where an operator that binds tightly enough comes next, it takes the operand and what
/// follows as its right operand, and the operators after that go on from the operation.
proof fn lemma_infix_from_takes<'a>(
    c: ParseInput<'a>,
    st: ParseState<'a>,
    lhs: Spanned<'a, ExprView<'a>>,
    min: u8,
    op: Spanned<'a, InfixOperator>,
    p: ParseState<'a>,
    rhs: Spanned<'a, ExprView<'a>>,
    s3: ParseState<'a>,
    result: Parsed<'a, ExprView<'a>>,
)
    requires
        g_infix_operator(c, st) == (Some(op), p),
        op.value.spec_precedence() >= min,
        g_infix_expect(c, taken(p), MismatchHandling::ConsumeUntilSafe, (op.value.spec_precedence() + 1) as u8)
            == (Ok::<Spanned<'a, ExprView<'a>>, FatalParsingError>(rhs), s3),
        shrunk(c, st, taken(p)),
        shrunk(c, st, s3),
        g_infix_from(c, s3, infix_node(lhs, op, rhs), min) == result,
    ensures
        g_infix_from(c, st, lhs, min) == result,
{
    reveal_with_fuel(g_infix_from, 1);
    reveal_with_fuel(g_infix_expect, 1);
}

/// An infix expression is an operand and the operators after it.
proof fn lemma_infix_from_operand<'a>(
    c: ParseInput<'a>,
    st: ParseState<'a>,
    min: u8,
    lhs: Spanned<'a, ExprView<'a>>,
    s1: ParseState<'a>,
    result: Parsed<'a, ExprView<'a>>,
)
    requires
        g_cast(c, st) == (Ok::<Option<Spanned<'a, ExprView<'a>>>, FatalParsingError>(Some(lhs)), s1),
        shrunk(c, st, s1),
        g_infix_from(c, s1, lhs, min) == result,
    ensures
        g_infix(c, st, min) == result,
{
    reveal_with_fuel(g_infix, 1);
    reveal_with_fuel(g_cast, 1);
    reveal_with_fuel(g_infix_from, 1);
}

/// An expected infix expression that is there is taken as it is.
proof fn lemma_infix_expect_found<'a>(
    c: ParseInput<'a>,
    st: ParseState<'a>,
    min: u8,
    x: Spanned<'a, ExprView<'a>>,
    s1: ParseState<'a>,
)
    requires
        g_infix(c, st, min) == (Ok::<Option<Spanned<'a, ExprView<'a>>>, FatalParsingError>(Some(x)), s1),
    ensures
        g_infix_expect(c, st, MismatchHandling::ConsumeUntilSafe, min) == (
            Ok::<Spanned<'a, ExprView<'a>>, FatalParsingError>(x),
            s1,
        ),
{
    reveal_with_fuel(g_infix_expect, 1);
    reveal_with_fuel(g_infix, 1);
}

/// Where operand `k` of a chain starts: at `st0` for the first, and right after the
/// operator before it for the others (`p[k - 1]` is the state in which that operator was
/// looked at).
pub open spec fn operand_start<'a>(st0: ParseState<'a>, p: Seq<ParseState<'a>>, k: int) -> ParseState<'a> {
    if k <= 0 {
        st0
    } else {
        taken(p[k - 1])
    }
}

/// The text from `st0` on is the chain `xs[0] ops[0] xs[1] ... ops[n - 1] xs[n]` followed by
/// no infix operator: operand `k` is read by `g_cast` and ends in state `s[k]`, where the
/// operator after it is looked at (ending in `p[k]`). Each operand takes text, and looking
/// at the next token takes none.
pub open spec fn reads_chain<'a>(
    c: ParseInput<'a>,
    st0: ParseState<'a>,
    xs: Seq<Spanned<'a, ExprView<'a>>>,
    ops: Seq<Spanned<'a, InfixOperator>>,
    s: Seq<ParseState<'a>>,
    p: Seq<ParseState<'a>>,
) -> bool {
    &&& xs.len() == ops.len() + 1
    &&& s.len() == xs.len()
    &&& p.len() == xs.len()
    &&& forall|k: int|
        0 <= k < xs.len() ==> g_cast(c, #[trigger] operand_start(st0, p, k)) == (
            Ok::<Option<Spanned<'a, ExprView<'a>>>, FatalParsingError>(Some(xs[k])),
            s[k],
        )
    &&& forall|k: int| 0 <= k < ops.len() ==> #[trigger] g_infix_operator(c, s[k]) == (Some(ops[k]), p[k])
    &&& g_infix_operator(c, s[ops.len() as int]) == (None::<Spanned<'a, InfixOperator>>, p[ops.len() as int])
    &&& forall|k: int|
        0 <= k < xs.len() ==> 0 <= measure_of(c, #[trigger] p[k]) <= measure_of(c, s[k]) < measure_of(
            c,
            operand_start(st0, p, k),
        )
}

/// The operator at the root of the chain's part from operand `l` to operand `h`: the last
/// one of the lowest precedence among `ops[l]` to `ops[h - 1]`.
pub open spec fn chain_root<'a>(ops: Seq<Spanned<'a, InfixOperator>>, l: int, h: int) -> int
    decreases h - l,
{
    if h <= l + 1 {
        l
    } else {
        let r = chain_root(ops, l, h - 1);
        if ops[h - 1].value.spec_precedence() <= ops[r].value.spec_precedence() {
            h - 1
        } else {
            r
        }
    }
}

/// The tree that the documented rules give to the chain's part from operand `l` to operand
/// `h`: an operand alone, or the operation of its root operator (see `chain_root`) on the
/// trees of the parts before and after it. So an operator that binds more tightly takes its
/// operands first, and operators that bind equally associate to the left.
pub open spec fn chain_tree<'a>(
    xs: Seq<Spanned<'a, ExprView<'a>>>,
    ops: Seq<Spanned<'a, InfixOperator>>,
    l: int,
    h: int,
) -> Spanned<'a, ExprView<'a>>
    decreases h - l,
{
    let r = chain_root(ops, l, h);
    if l < h && l <= r < h {
        infix_node(chain_tree(xs, ops, l, r), ops[r], chain_tree(xs, ops, r + 1, h))
    } else {
        xs[l]
    }
}

/// The first operator from `ops[i]` on that binds less tightly than `min`, or the end.
pub open spec fn chain_stop<'a>(ops: Seq<Spanned<'a, InfixOperator>>, i: int, min: int) -> int
    decreases ops.len() - i,
{
    if i >= ops.len() {
        ops.len() as int
    } else if ops[i].value.spec_precedence() < min {
        i
    } else {
        chain_stop(ops, i + 1, min)
    }
}

proof fn lemma_chain_root_range<'a>(ops: Seq<Spanned<'a, InfixOperator>>, l: int, h: int)
    requires
        l < h,
    ensures
        l <= chain_root(ops, l, h) < h,
        forall|k: int| l <= k < h ==> ops[chain_root(ops, l, h)].value.spec_precedence() <= #[trigger] ops[k].value.spec_precedence(),
    decreases h - l,
{
    if h > l + 1 {
        lemma_chain_root_range(ops, l, h - 1);
    }
}

/// Where every operator before `ops[i]` binds at least as tightly as it, and every one after
/// it up to `h` binds more tightly, `ops[i]` is the root.
proof fn lemma_chain_root_at<'a>(ops: Seq<Spanned<'a, InfixOperator>>, l: int, i: int, h: int)
    requires
        l <= i < h,
        forall|k: int| l <= k < i ==> #[trigger] ops[k].value.spec_precedence() >= ops[i].value.spec_precedence(),
        forall|k: int| i < k < h ==> #[trigger] ops[k].value.spec_precedence() > ops[i].value.spec_precedence(),
    ensures
        chain_root(ops, l, h) == i,
    decreases h - l,
{
    if h == i + 1 {
        if i > l {
            lemma_chain_root_range(ops, l, i);
            let r = chain_root(ops, l, i);
            assert(ops[r].value.spec_precedence() >= ops[i].value.spec_precedence());
        }
    } else {
        lemma_chain_root_at(ops, l, i, h - 1);
    }
}

proof fn lemma_chain_stop_range<'a>(ops: Seq<Spanned<'a, InfixOperator>>, i: int, min: int)
    requires
        0 <= i <= ops.len(),
    ensures
        i <= chain_stop(ops, i, min) <= ops.len(),
        chain_stop(ops, i, min) < ops.len() ==> ops[chain_stop(ops, i, min)].value.spec_precedence() < min,
        forall|k: int| i <= k < chain_stop(ops, i, min) ==> #[trigger] ops[k].value.spec_precedence() >= min,
    decreases ops.len() - i,
{
    if i < ops.len() && ops[i].value.spec_precedence() >= min {
        lemma_chain_stop_range(ops, i + 1, min);
    }
}

/// The operators bind no more tightly than 70.
proof fn lemma_precedence_bound(op: InfixOperator)
    ensures
        op.spec_precedence() <= 70,
{
}

proof fn lemma_chain_stop_skip<'a>(ops: Seq<Spanned<'a, InfixOperator>>, i: int, j: int, min: int)
    requires
        0 <= i <= j <= ops.len(),
        forall|k: int| i <= k < j ==> #[trigger] ops[k].value.spec_precedence() >= min,
    ensures
        chain_stop(ops, i, min) == chain_stop(ops, j, min),
    decreases j - i,
{
    if i < j {
        lemma_chain_stop_skip(ops, i + 1, j, min);
    }
}

/// Later operators in a chain are looked at with a smaller measure.
#[verifier::rlimit(50)]
proof fn lemma_chain_measures<'a>(
    c: ParseInput<'a>,
    st0: ParseState<'a>,
    xs: Seq<Spanned<'a, ExprView<'a>>>,
    ops: Seq<Spanned<'a, InfixOperator>>,
    s: Seq<ParseState<'a>>,
    p: Seq<ParseState<'a>>,
    i: int,
    j: int,
)
    requires
        reads_chain(c, st0, xs, ops, s, p),
        0 <= i < j <= ops.len(),
    ensures
        measure_of(c, p[j]) < measure_of(c, taken(p[i])) < measure_of(c, p[i]),
    decreases j - i,
{
    let pj = p[j];
    let pj1 = p[j - 1];
    let pi = p[i];
    assert(operand_start(st0, p, j) == taken(pj1));
    assert(measure_of(c, pj) <= measure_of(c, s[j]) < measure_of(c, operand_start(st0, p, j)));
    assert(g_infix_operator(c, s[i]) == (Some(ops[i]), pi));
    assert(measure_of(c, taken(pi)) < measure_of(c, pi));
    assert(g_infix_operator(c, s[j - 1]) == (Some(ops[j - 1]), pj1));
    assert(measure_of(c, taken(pj1)) < measure_of(c, pj1));
    if j > i + 1 {
        lemma_chain_measures(c, st0, xs, ops, s, p, i, j - 1);
    }
}

/// The operators after `chain_tree(l, i)` in the chain, those that bind at least as tightly
/// as `min`, are applied to it as the documented rules say, from any state where the
/// operator after operand `i` is looked at.
proof fn lemma_chain_from<'a>(
    c: ParseInput<'a>,
    st0: ParseState<'a>,
    xs: Seq<Spanned<'a, ExprView<'a>>>,
    ops: Seq<Spanned<'a, InfixOperator>>,
    s: Seq<ParseState<'a>>,
    p: Seq<ParseState<'a>>,
    l: int,
    i: int,
    min: u8,
    at: ParseState<'a>,
)
    requires
        reads_chain(c, st0, xs, ops, s, p),
        0 <= l <= i <= ops.len(),
        g_infix_operator(c, at) == g_infix_operator(c, s[i]),
        measure_of(c, p[i]) <= measure_of(c, at),
        forall|k: int| l <= k < i ==> #[trigger] ops[k].value.spec_precedence() >= min,
        i < ops.len() && ops[i].value.spec_precedence() >= min ==> forall|k: int|
            l <= k < i ==> #[trigger] ops[k].value.spec_precedence() >= ops[i].value.spec_precedence(),
    ensures
        g_infix_from(c, at, chain_tree(xs, ops, l, i), min) == (
            Ok::<Option<Spanned<'a, ExprView<'a>>>, FatalParsingError>(
                Some(chain_tree(xs, ops, l, chain_stop(ops, i, min as int))),
            ),
            p[chain_stop(ops, i, min as int)],
        ),
    decreases ops.len() - i, 0int,
{
    let n = ops.len() as int;
    if i == n {
        lemma_infix_from_stops(c, at, chain_tree(xs, ops, l, i), min, None, p[i]);
    } else if ops[i].value.spec_precedence() < min {
        assert(g_infix_operator(c, s[i]) == (Some(ops[i]), p[i]));
        lemma_infix_from_stops(c, at, chain_tree(xs, ops, l, i), min, Some(ops[i]), p[i]);
    } else {
        let op = ops[i];
        assert(g_infix_operator(c, s[i]) == (Some(op), p[i]));
        let m = op.value.spec_precedence();
        lemma_precedence_bound(op.value);
        let m1 = (m + 1) as u8;
        lemma_chain_rest(c, st0, xs, ops, s, p, i + 1, m1);
        let j = chain_stop(ops, i + 1, m1 as int);
        lemma_chain_stop_range(ops, i + 1, m1 as int);
        let rhs = chain_tree(xs, ops, i + 1, j);
        assert(operand_start(st0, p, i + 1) == taken(p[i]));
        lemma_infix_expect_found(c, taken(p[i]), m1, rhs, p[j]);
        lemma_chain_measures(c, st0, xs, ops, s, p, i, j);
        lemma_chain_root_at(ops, l, i, j);
        assert(chain_tree(xs, ops, l, j) == infix_node(chain_tree(xs, ops, l, i), op, rhs));
        assert forall|k: int| l <= k < j implies #[trigger] ops[k].value.spec_precedence() >= min by {
            if k > i {
                assert(ops[k].value.spec_precedence() >= m1);
            }
        }
        if j < n && ops[j].value.spec_precedence() >= min {
            assert forall|k: int| l <= k < j implies #[trigger] ops[k].value.spec_precedence()
                >= ops[j].value.spec_precedence() by {
                if k > i {
                    assert(ops[k].value.spec_precedence() >= m1);
                }
            }
        }
        lemma_infix_operator_again(c, s[j]);
        lemma_chain_from(c, st0, xs, ops, s, p, l, j, min, p[j]);
        lemma_chain_stop_skip(ops, i, j, min as int);
        lemma_infix_from_takes(
            c,
            at,
            chain_tree(xs, ops, l, i),
            min,
            op,
            p[i],
            rhs,
            p[j],
            g_infix_from(c, p[j], chain_tree(xs, ops, l, j), min),
        );
    }
}

/// The chain's part from operand `i` on, as far as its operators bind at least as tightly
/// as `min`, is parsed as the documented rules say.
proof fn lemma_chain_rest<'a>(
    c: ParseInput<'a>,
    st0: ParseState<'a>,
    xs: Seq<Spanned<'a, ExprView<'a>>>,
    ops: Seq<Spanned<'a, InfixOperator>>,
    s: Seq<ParseState<'a>>,
    p: Seq<ParseState<'a>>,
    i: int,
    min: u8,
)
    requires
        reads_chain(c, st0, xs, ops, s, p),
        0 <= i <= ops.len(),
    ensures
        g_infix(c, operand_start(st0, p, i), min) == (
            Ok::<Option<Spanned<'a, ExprView<'a>>>, FatalParsingError>(
                Some(chain_tree(xs, ops, i, chain_stop(ops, i, min as int))),
            ),
            p[chain_stop(ops, i, min as int)],
        ),
    decreases ops.len() - i, 1int,
{
    assert(chain_tree(xs, ops, i, i) == xs[i]);
    lemma_chain_from(c, st0, xs, ops, s, p, i, i, min, s[i]);
    lemma_infix_from_operand(
        c,
        operand_start(st0, p, i),
        min,
        xs[i],
        s[i],
        g_infix_from(c, s[i], xs[i], min),
    );
}

/// Operator precedence and left associativity: where the text from `st0` on is a chain of
/// operands and infix operators (see `reads_chain`), the expression parsed from `st0` is the
/// chain's tree by the documented rules (`chain_tree`: the last operator of the lowest
/// precedence is the root, each side grouped the same way), and parsing stops where it
/// looked for an operator after the last operand.
pub proof fn lemma_chain_grouping<'a>(
    c: ParseInput<'a>,
    st0: ParseState<'a>,
    xs: Seq<Spanned<'a, ExprView<'a>>>,
    ops: Seq<Spanned<'a, InfixOperator>>,
    s: Seq<ParseState<'a>>,
    p: Seq<ParseState<'a>>,
)
    requires
        reads_chain(c, st0, xs, ops, s, p),
    ensures
        g_expr(c, st0) == (
            Ok::<Option<Spanned<'a, ExprView<'a>>>, FatalParsingError>(
                Some(chain_tree(xs, ops, 0, ops.len() as int)),
            ),
            p[ops.len() as int],
        ),
{
    lemma_chain_rest(c, st0, xs, ops, s, p, 0, 0);
    lemma_chain_stop_range(ops, 0, 0);
    assert(operand_start(st0, p, 0) == st0);
    reveal_with_fuel(g_expr, 1);
    reveal_with_fuel(g_infix, 1);
}

/// A chain of two operators groups by their precedence: where the second binds more
/// tightly, it takes the middle operand; otherwise the first operation is the second's left
/// operand.
pub proof fn lemma_two_operator_chain<'a>(
    c: ParseInput<'a>,
    st0: ParseState<'a>,
    xs: Seq<Spanned<'a, ExprView<'a>>>,
    ops: Seq<Spanned<'a, InfixOperator>>,
    s: Seq<ParseState<'a>>,
    p: Seq<ParseState<'a>>,
)
    requires
        reads_chain(c, st0, xs, ops, s, p),
        ops.len() == 2,
    ensures
        ops[0].value.spec_precedence() < ops[1].value.spec_precedence() ==> g_expr(c, st0) == (Ok::<Option<Spanned<'a, ExprView<'a>>>, FatalParsingError>(Some(infix_node(xs[0], ops[0], infix_node(xs[1], ops[1], xs[2])))), p[2]),
        ops[0].value.spec_precedence() >= ops[1].value.spec_precedence() ==> g_expr(c, st0) == (Ok::<Option<Spanned<'a, ExprView<'a>>>, FatalParsingError>(Some(infix_node(infix_node(xs[0], ops[0], xs[1]), ops[1], xs[2]))), p[2]),
{
    lemma_chain_grouping(c, st0, xs, ops, s, p);
    assert(chain_root(ops, 0, 1) == 0);
    assert(chain_tree(xs, ops, 0, 0) == xs[0]);
    assert(chain_tree(xs, ops, 1, 1) == xs[1]);
    assert(chain_tree(xs, ops, 2, 2) == xs[2]);
    assert(chain_tree(xs, ops, 0, 1) == infix_node(xs[0], ops[0], xs[1]));
    if ops[0].value.spec_precedence() < ops[1].value.spec_precedence() {
        assert(chain_root(ops, 0, 2) == 0);
        assert(chain_root(ops, 1, 2) == 1);
        assert(chain_tree(xs, ops, 1, 2) == infix_node(xs[1], ops[1], xs[2]));
    } else {
        assert(chain_root(ops, 0, 2) == 1);
    }
}

/// The documented grouping of two-operator chains, over any operands: `*`, `/` and `%` bind
/// more tightly than `+` and `-` (so `x + y % z` is `x + (y % z)` and `x % y + z` is
/// `(x % y) + z`); the comparisons bind more tightly than `&&` (so `x > y && z` is
/// `(x > y) && z` and `x && y > z` is `x && (y > z)`); and operators of one of these groups
/// associate to the left (`x - y + z` is `(x - y) + z`, `x < y == z` is `(x < y) == z`).
pub proof fn lemma_documented_grouping<'a>(
    c: ParseInput<'a>,
    st0: ParseState<'a>,
    xs: Seq<Spanned<'a, ExprView<'a>>>,
    ops: Seq<Spanned<'a, InfixOperator>>,
    s: Seq<ParseState<'a>>,
    p: Seq<ParseState<'a>>,
)
    requires
        reads_chain(c, st0, xs, ops, s, p),
        ops.len() == 2,
    ensures
        (ops[0].value == InfixOperator::Add || ops[0].value == InfixOperator::Sub) && (ops[1].value == InfixOperator::Mul || ops[1].value == InfixOperator::Div || ops[1].value == InfixOperator::Mod) ==> g_expr(c, st0) == (Ok::<Option<Spanned<'a, ExprView<'a>>>, FatalParsingError>(Some(infix_node(xs[0], ops[0], infix_node(xs[1], ops[1], xs[2])))), p[2]),
        (ops[0].value == InfixOperator::Mul || ops[0].value == InfixOperator::Div || ops[0].value == InfixOperator::Mod) && (ops[1].value == InfixOperator::Add || ops[1].value == InfixOperator::Sub) ==> g_expr(c, st0) == (Ok::<Option<Spanned<'a, ExprView<'a>>>, FatalParsingError>(Some(infix_node(infix_node(xs[0], ops[0], xs[1]), ops[1], xs[2]))), p[2]),
        (ops[0].value == InfixOperator::Add || ops[0].value == InfixOperator::Sub) && (ops[1].value == InfixOperator::Add || ops[1].value == InfixOperator::Sub) ==> g_expr(c, st0) == (Ok::<Option<Spanned<'a, ExprView<'a>>>, FatalParsingError>(Some(infix_node(infix_node(xs[0], ops[0], xs[1]), ops[1], xs[2]))), p[2]),
        (ops[0].value == InfixOperator::Mul || ops[0].value == InfixOperator::Div || ops[0].value == InfixOperator::Mod) && (ops[1].value == InfixOperator::Mul || ops[1].value == InfixOperator::Div || ops[1].value == InfixOperator::Mod) ==> g_expr(c, st0) == (Ok::<Option<Spanned<'a, ExprView<'a>>>, FatalParsingError>(Some(infix_node(infix_node(xs[0], ops[0], xs[1]), ops[1], xs[2]))), p[2]),
        (ops[0].value == InfixOperator::Eq || ops[0].value == InfixOperator::Ne || ops[0].value == InfixOperator::Gt || ops[0].value == InfixOperator::Lt || ops[0].value == InfixOperator::Ge || ops[0].value == InfixOperator::Le) && ops[1].value == InfixOperator::BoolAnd ==> g_expr(c, st0) == (Ok::<Option<Spanned<'a, ExprView<'a>>>, FatalParsingError>(Some(infix_node(infix_node(xs[0], ops[0], xs[1]), ops[1], xs[2]))), p[2]),
        ops[0].value == InfixOperator::BoolAnd && (ops[1].value == InfixOperator::Eq || ops[1].value == InfixOperator::Ne || ops[1].value == InfixOperator::Gt || ops[1].value == InfixOperator::Lt || ops[1].value == InfixOperator::Ge || ops[1].value == InfixOperator::Le) ==> g_expr(c, st0) == (Ok::<Option<Spanned<'a, ExprView<'a>>>, FatalParsingError>(Some(infix_node(xs[0], ops[0], infix_node(xs[1], ops[1], xs[2])))), p[2]),
        (ops[0].value == InfixOperator::Eq || ops[0].value == InfixOperator::Ne || ops[0].value == InfixOperator::Gt || ops[0].value == InfixOperator::Lt || ops[0].value == InfixOperator::Ge || ops[0].value == InfixOperator::Le) && (ops[1].value == InfixOperator::Eq || ops[1].value == InfixOperator::Ne || ops[1].value == InfixOperator::Gt || ops[1].value == InfixOperator::Lt || ops[1].value == InfixOperator::Ge || ops[1].value == InfixOperator::Le) ==> g_expr(c, st0) == (Ok::<Option<Spanned<'a, ExprView<'a>>>, FatalParsingError>(Some(infix_node(infix_node(xs[0], ops[0], xs[1]), ops[1], xs[2]))), p[2]),
{
    InfixOperator::lemma_precedence_ladder();
    lemma_two_operator_chain(c, st0, xs, ops, s, p);
}

/// Storage buffers and all textures may be writable: after `storage`, `texture_1d`,
/// `texture_2d`, `texture_2d_array` or `texture_3d` and `<`, a `mut` is taken as the
/// resource's mutability, and the type argument follows it.
pub proof fn lemma_writable_resources<'a>(
    c: ParseInput<'a>,
    st: ParseState<'a>,
    tok: Token<'a>,
    s1: ParseState<'a>,
    lt: SourceSpan<'a>,
    s3: ParseState<'a>,
    m: SourceSpan<'a>,
    s4: ParseState<'a>,
    arg: Spanned<'a, TyView<'a>>,
    s5: ParseState<'a>,
    end: SourceSpan<'a>,
    s6: ParseState<'a>,
)
    requires
        g_peek(c, st) == (tok, s1),
        tok.kind == TokenKind::Identifier(Some(PseudoKeyword::Storage)) || tok.kind == TokenKind::Identifier(
            Some(PseudoKeyword::Texture1d),
        ) || tok.kind == TokenKind::Identifier(Some(PseudoKeyword::Texture2d)) || tok.kind
            == TokenKind::Identifier(Some(PseudoKeyword::Texture2dArray)) || tok.kind == TokenKind::Identifier(
            Some(PseudoKeyword::Texture3d),
        ),
        g_expect_token(
            c,
            taken(s1),
            TokenKind::Symbol(Symbol::LessThan),
            MismatchHandling::Consume,
            Expectation::Symbol(Symbol::LessThan),
        ) == (Ok::<SourceSpan<'a>, FatalParsingError>(lt), s3),
        g_try_token(c, s3, TokenKind::Keyword(Keyword::Mut)) == (Some(m), s4),
        shrunk(c, st, s4),
        g_ty_expect(c, s4, MismatchHandling::ConsumeUntilSafe) == (Ok::<Spanned<'a, TyView<'a>>, FatalParsingError>(arg), s5),
        g_expect_token(
            c,
            s5,
            TokenKind::Symbol(Symbol::GreaterThan),
            MismatchHandling::Consume,
            Expectation::Symbol(Symbol::GreaterThan),
        ) == (Ok::<SourceSpan<'a>, FatalParsingError>(end), s6),
    ensures
        g_resource(c, st) matches (Ok(Some(r)), s) && s == s6 && r.span == tok.span.spec_join(end)
            && r.value.mutable == Some(m) && r.value.argument == Some(Box::new(arg)),
{
    reveal_with_fuel(g_resource, 1);
    reveal_with_fuel(g_ty_expect, 1);
}

/// A uniform buffer is never writable: after `uniform` and `<`, the type argument is read
/// where a `mut` would stand, and the resource has no mutability.
pub proof fn lemma_uniform_is_read_only<'a>(
    c: ParseInput<'a>,
    st: ParseState<'a>,
    tok: Token<'a>,
    s1: ParseState<'a>,
    lt: SourceSpan<'a>,
    s3: ParseState<'a>,
    arg: Spanned<'a, TyView<'a>>,
    s5: ParseState<'a>,
    end: SourceSpan<'a>,
    s6: ParseState<'a>,
)
    requires
        g_peek(c, st) == (tok, s1),
        tok.kind == TokenKind::Identifier(Some(PseudoKeyword::Uniform)),
        g_expect_token(
            c,
            taken(s1),
            TokenKind::Symbol(Symbol::LessThan),
            MismatchHandling::Consume,
            Expectation::Symbol(Symbol::LessThan),
        ) == (Ok::<SourceSpan<'a>, FatalParsingError>(lt), s3),
        shrunk(c, st, s3),
        g_ty_expect(c, s3, MismatchHandling::ConsumeUntilSafe) == (Ok::<Spanned<'a, TyView<'a>>, FatalParsingError>(arg), s5),
        g_expect_token(
            c,
            s5,
            TokenKind::Symbol(Symbol::GreaterThan),
            MismatchHandling::Consume,
            Expectation::Symbol(Symbol::GreaterThan),
        ) == (Ok::<SourceSpan<'a>, FatalParsingError>(end), s6),
    ensures
        g_resource(c, st) matches (Ok(Some(r)), s) && s == s6 && r.span == tok.span.spec_join(end)
            && r.value.mutable is None && r.value.argument == Some(Box::new(arg)),
{
    reveal_with_fuel(g_resource, 1);
    reveal_with_fuel(g_ty_expect, 1);
}

/// A sampler stands alone: after `sampler` nothing more is read.
pub proof fn lemma_sampler_stands_alone<'a>(c: ParseInput<'a>, st: ParseState<'a>, tok: Token<'a>, s1: ParseState<'a>)
    requires
        g_peek(c, st) == (tok, s1),
        tok.kind == TokenKind::Identifier(Some(PseudoKeyword::Sampler)),
    ensures
        g_resource(c, st) matches (Ok(Some(r)), s) && s == taken(s1) && r.span == tok.span
            && r.value.mutable is None && r.value.argument is None,
{
    reveal_with_fuel(g_resource, 1);
    reveal_with_fuel(g_ty_expect, 1);
}

} // verus!
