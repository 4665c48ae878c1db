use vstd::prelude::*;

use crate::parser::{
    source::SourceSpan,
    token::{
        ident::PseudoKeyword, keyword::Keyword, symbol::Symbol, Token, TokenError,
        TokenErrorKind, TokenKind,
    },
};

verus! {

/// What a diagnostic reports.
pub enum DiagnosticKind<'a> {
    /// The tokenizer could not read a token.
    Token(TokenErrorKind),
    /// A token that was not expected there.
    UnexpectedToken(SourceSpan<'a>),
    /// The end of the input, where more was expected.
    UnexpectedEof,
    ExpectedSymbol { symbol: Symbol, got: Box<DiagnosticKind<'a>> },
    ExpectedKeyword { keyword: Keyword, got: Box<DiagnosticKind<'a>> },
    ExpectedPseudoKeyword { keyword: PseudoKeyword, got: Box<DiagnosticKind<'a>> },
    ExpectedIdent { got: Box<DiagnosticKind<'a>> },
    ExpectedTy { got: Box<DiagnosticKind<'a>> },
    ExpectedExpr { got: Box<DiagnosticKind<'a>> },
    ExpectedGenericArgument { got: Box<DiagnosticKind<'a>> },
    ExpectedSymbolPathPart { got: Box<DiagnosticKind<'a>> },
}

/// How serious a diagnostic is.
#[derive(Clone, Copy, Debug, PartialEq, Eq, Structural, PartialOrd, Ord)]
pub enum DiagnosticLevel {
    Warning,
    Error,
    Fatal,
}

/// A report about the input, where it applies, and how serious it is.
pub struct Diagnostic<'a> {
    pub kind: DiagnosticKind<'a>,
    pub level: DiagnosticLevel,
    pub span: SourceSpan<'a>,
}

/// The error that stops parsing after a fatal diagnostic.
#[derive(Clone, Copy, Debug, PartialEq, Eq, Structural)]
pub struct FatalParsingError;

/// The diagnostics reported so far, in order.
pub struct Diagnostics<'a> {
    diagnostics: Vec<Diagnostic<'a>>,
    has_error_or_fatal: bool,
}

/// The diagnostic is an error or a fatal error.
pub open spec fn is_error_or_fatal(d: Diagnostic) -> bool {
    d.level == DiagnosticLevel::Error || d.level == DiagnosticLevel::Fatal
}

impl<'a> View for Diagnostics<'a> {
    type V = Seq<Diagnostic<'a>>;

    closed spec fn view(&self) -> Seq<Diagnostic<'a>> {
        self.diagnostics@
    }
}

impl<'a> Diagnostics<'a> {
    closed spec fn flag(&self) -> bool {
        self.has_error_or_fatal
    }

    /// The flag tells whether any diagnostic is an error or a fatal error.
    pub closed spec fn wf(&self) -> bool {
        self.has_error_or_fatal == exists|i: int|
            0 <= i < self.diagnostics@.len() && #[trigger] is_error_or_fatal(self.diagnostics@[i])
    }

    /// No diagnostics yet.
    pub fn new() -> (r: Self)
        ensures
            r.wf(),
            r@ == Seq::<Diagnostic<'a>>::empty(),
    {
        Self { diagnostics: Vec::new(), has_error_or_fatal: false }
    }

    /// Adds a diagnostic at the end.
    pub fn push(&mut self, diagnostic: Diagnostic<'a>)
        requires
            old(self).wf(),
        ensures
            final(self).wf(),
            final(self)@ == old(self)@.push(diagnostic),
    {
        let serious = diagnostic.level == DiagnosticLevel::Error || diagnostic.level
            == DiagnosticLevel::Fatal;
        let ghost old_diags = self.diagnostics@;
        self.diagnostics.push(diagnostic);
        if serious {
            self.has_error_or_fatal = true;
            assert(is_error_or_fatal(self.diagnostics@[self.diagnostics@.len() - 1]));
        }
        proof {
            if !serious {
                assert forall|i: int|
                    0 <= i < self.diagnostics@.len() && #[trigger] is_error_or_fatal(
                        self.diagnostics@[i],
                    ) implies 0 <= i < old_diags.len() && is_error_or_fatal(old_diags[i]) by {
                    if i == old_diags.len() {
                        assert(self.diagnostics@[i] == diagnostic);
                    } else {
                        assert(self.diagnostics@[i] == old_diags[i]);
                    }
                }
                assert forall|i: int|
                    0 <= i < old_diags.len() && #[trigger] is_error_or_fatal(
                        old_diags[i],
                    ) implies 0 <= i < self.diagnostics@.len() && is_error_or_fatal(self.diagnostics@[i]) by {
                    assert(self.diagnostics@[i] == old_diags[i]);
                }
            }
        }
    }

    /// Adds an error.
    pub fn push_error(&mut self, kind: DiagnosticKind<'a>, span: SourceSpan<'a>)
        requires
            old(self).wf(),
        ensures
            final(self).wf(),
            final(self)@ == old(self)@.push(
                Diagnostic { kind, level: DiagnosticLevel::Error, span },
            ),
    {
        self.push(Diagnostic { kind, level: DiagnosticLevel::Error, span });
    }

    /// Adds a fatal error, and returns the error that stops parsing.
    pub fn push_fatal(&mut self, kind: DiagnosticKind<'a>, span: SourceSpan<'a>) -> (r: Result<
        (),
        FatalParsingError,
    >)
        requires
            old(self).wf(),
        ensures
            final(self).wf(),
            final(self)@ == old(self)@.push(
                Diagnostic { kind, level: DiagnosticLevel::Fatal, span },
            ),
            r == Err::<(), FatalParsingError>(FatalParsingError),
    {
        self.push(Diagnostic { kind, level: DiagnosticLevel::Fatal, span });
        Err(FatalParsingError)
    }

    /// Some diagnostic is an error or a fatal error.
    pub fn has_error_or_fatal(&self) -> (r: bool)
        requires
            self.wf(),
        ensures
            r == exists|i: int| 0 <= i < self@.len() && #[trigger] is_error_or_fatal(self@[i]),
    {
        assert(self@ == self.diagnostics@);
        self.has_error_or_fatal
    }

    /// The diagnostics, in the order they were reported.
    pub fn into_iter(self) -> (r: Vec<Diagnostic<'a>>)
        ensures
            r@ == self@,
    {
        self.diagnostics
    }
}

/// What a token is reported as when it is not what was expected.
pub open spec fn spec_kind_from_token<'a>(token: Token<'a>) -> DiagnosticKind<'a> {
    if token.kind == TokenKind::Eof {
        DiagnosticKind::UnexpectedEof
    } else {
        DiagnosticKind::UnexpectedToken(token.span)
    }
}

impl<'a> DiagnosticKind<'a> {
    /// The end of the input, or else the unexpected token.
    pub fn from_token(token: Token<'a>) -> (r: Self)
        ensures
            r == spec_kind_from_token(token),
    {
        if let TokenKind::Eof = token.kind {
            return Self::UnexpectedEof;
        }
        Self::UnexpectedToken(token.span)
    }
}

/// The error diagnostic for a tokenizer error.
pub open spec fn spec_diagnostic_from_token_error<'a>(e: TokenError<'a>) -> Diagnostic<'a> {
    Diagnostic { kind: DiagnosticKind::Token(e.kind), level: DiagnosticLevel::Error, span: e.span }
}

impl<'a> From<TokenError<'a>> for Diagnostic<'a> {
    fn from(value: TokenError<'a>) -> (r: Self) {
        Self { kind: DiagnosticKind::Token(value.kind), level: DiagnosticLevel::Error, span: value.span }
    }
}

impl<'a> vstd::std_specs::convert::FromSpecImpl<TokenError<'a>> for Diagnostic<'a> {
    open spec fn obeys_from_spec() -> bool {
        true
    }

    open spec fn from_spec(v: TokenError<'a>) -> Self {
        spec_diagnostic_from_token_error(v)
    }
}

/// Diagnostics keep what is pushed, in push order: starting with none (`views[0]`, as from
/// `new`) and pushing `xs[0]`, ..., `xs[n - 1]` one after another (`views[k + 1]` is
/// `views[k]` with `xs[k]` pushed), the diagnostics are exactly `xs`, none dropped,
/// repeated or reordered; `into_iter` hands them out as they are.
pub proof fn lemma_push_order<'a>(views: Seq<Seq<Diagnostic<'a>>>, xs: Seq<Diagnostic<'a>>)
    requires
        views.len() == xs.len() + 1,
        views[0] == Seq::<Diagnostic<'a>>::empty(),
        forall|k: int| 0 <= k < xs.len() ==> #[trigger] views[k + 1] == views[k].push(xs[k]),
    ensures
        forall|k: int| 0 <= k <= xs.len() ==> #[trigger] views[k] == xs.take(k),
        views.last() == xs,
    decreases xs.len(),
{
    if xs.len() > 0 {
        let n = xs.len() - 1;
        lemma_push_order(views.take(n + 1), xs.take(n));
        assert forall|k: int| 0 <= k <= xs.len() implies #[trigger] views[k] == xs.take(k) by {
            if k <= n {
                assert(views.take(n + 1)[k] == views[k]);
                assert(xs.take(n).take(k) =~= xs.take(k));
            } else {
                assert(views.take(n + 1)[n] == views[n]);
                assert(xs.take(n).take(n) =~= xs.take(n));
                assert(views[n + 1] == views[n].push(xs[n]));
                assert(xs.take(n).push(xs[n]) =~= xs.take(k));
            }
        }
        assert(xs.take(xs.len() as int) =~= xs);
    } else {
        assert(xs.take(0) =~= Seq::<Diagnostic<'a>>::empty());
    }
}

/// While diagnostics are only added, the flag keeps telling whether any is an error.
pub proof fn lemma_has_error_or_fatal_monotone<'a>(before: Seq<Diagnostic<'a>>, after: Seq<Diagnostic<'a>>)
    requires
        before.is_prefix_of(after),
        exists|i: int| 0 <= i < before.len() && #[trigger] is_error_or_fatal(before[i]),
    ensures
        exists|i: int| 0 <= i < after.len() && #[trigger] is_error_or_fatal(after[i]),
{
    let i = choose|i: int| 0 <= i < before.len() && #[trigger] is_error_or_fatal(before[i]);
    assert(after[i] == before[i]);
}

} // verus!
