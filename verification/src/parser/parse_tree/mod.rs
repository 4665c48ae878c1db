use vstd::prelude::*;

pub mod expr;
pub mod grammar;
pub mod path;
pub mod symbol;
pub mod ty;

use crate::parser::{
    parse_tree::grammar::{
        g_expect_ident, g_expect_parse, g_expect_token, g_peek, g_try_ident, g_try_number, g_try_token,
        g_list, g_list_from, g_list_outcome_matches, g_many, g_many_from, g_many_parsed, g_many_parsed_from, input_of,
        state_of, Expected, ParseInput, ParseState, Parsed,
    },
    diagnostic::{
        spec_diagnostic_from_token_error, spec_kind_from_token, Diagnostic, DiagnosticKind,
        DiagnosticLevel, Diagnostics, FatalParsingError,
    },
    source::{group_index_nonneg, SourceSpan, Spanned},
    token::{
        ident::PseudoKeyword, keyword::Keyword, lemma_lex_step_bounds, lex_result, lex_step,
        lookahead_pos, number::NumberLiteral, symbol::Symbol, tokenizer_measure, Token, TokenKind, Tokenizer,
    },
};

verus! {

broadcast use group_index_nonneg;

/// What to do when the parser finds a token other than the one it expected.
#[derive(Clone, Copy, Debug, PartialEq, Eq, Structural)]
pub enum MismatchHandling {
    /// Report an error and leave the token.
    Skip,
    /// Report an error and take the token.
    Consume,
    /// Report an error and take tokens, bracketed groups whole, up to the next closing
    /// bracket, `;` or `,` at the same depth, or the end of the input.
    ConsumeUntilSafe,
    /// Report an error and take tokens up to the next one of either kind, which is left,
    /// or the end of the input.
    SkipTo(TokenKind, TokenKind),
    /// Report a fatal error and stop parsing.
    Fatal,
}

/// What was expected where a diagnostic reports something else.
#[derive(Clone, Copy, Debug, PartialEq, Eq, Structural)]
pub enum Expectation {
    Symbol(Symbol),
    Keyword(Keyword),
    PseudoKeyword(PseudoKeyword),
    Ident,
    Ty,
    Expr,
    GenericArgument,
}

impl Expectation {
    /// The diagnostic that reports `got` where this was expected.
    pub open spec fn spec_wrap<'a>(self, got: DiagnosticKind<'a>) -> DiagnosticKind<'a> {
        match self {
            Expectation::Symbol(symbol) => DiagnosticKind::ExpectedSymbol { symbol, got: Box::new(got) },
            Expectation::Keyword(keyword) => DiagnosticKind::ExpectedKeyword { keyword, got: Box::new(got) },
            Expectation::PseudoKeyword(keyword) => DiagnosticKind::ExpectedPseudoKeyword {
                keyword,
                got: Box::new(got),
            },
            Expectation::Ident => DiagnosticKind::ExpectedIdent { got: Box::new(got) },
            Expectation::Ty => DiagnosticKind::ExpectedTy { got: Box::new(got) },
            Expectation::Expr => DiagnosticKind::ExpectedExpr { got: Box::new(got) },
            Expectation::GenericArgument => DiagnosticKind::ExpectedGenericArgument {
                got: Box::new(got),
            },
        }
    }

    /// The diagnostic that reports `got` where this was expected.
    pub fn wrap<'a>(self, got: DiagnosticKind<'a>) -> (r: DiagnosticKind<'a>)
        ensures
            r == self.spec_wrap(got),
    {
        match self {
            Expectation::Symbol(symbol) => DiagnosticKind::ExpectedSymbol { symbol, got: Box::new(got) },
            Expectation::Keyword(keyword) => DiagnosticKind::ExpectedKeyword { keyword, got: Box::new(got) },
            Expectation::PseudoKeyword(keyword) => DiagnosticKind::ExpectedPseudoKeyword {
                keyword,
                got: Box::new(got),
            },
            Expectation::Ident => DiagnosticKind::ExpectedIdent { got: Box::new(got) },
            Expectation::Ty => DiagnosticKind::ExpectedTy { got: Box::new(got) },
            Expectation::Expr => DiagnosticKind::ExpectedExpr { got: Box::new(got) },
            Expectation::GenericArgument => DiagnosticKind::ExpectedGenericArgument {
                got: Box::new(got),
            },
        }
    }
}

#[derive(Clone, Copy, Debug, PartialEq, Eq, Structural)]
enum RecurseToken {
    Paren,
    Brace,
    Bracket,
}

impl RecurseToken {
    spec fn spec_from_open(symbol: Symbol) -> Option<Self> {
        match symbol {
            Symbol::ParenOpen => Some(RecurseToken::Paren),
            Symbol::BraceOpen => Some(RecurseToken::Brace),
            Symbol::BracketOpen => Some(RecurseToken::Bracket),
            _ => None,
        }
    }

    spec fn spec_close(self) -> Symbol {
        match self {
            RecurseToken::Paren => Symbol::ParenClose,
            RecurseToken::Brace => Symbol::BraceClose,
            RecurseToken::Bracket => Symbol::BracketClose,
        }
    }

    fn from_open(symbol: Symbol) -> (r: Option<Self>)
        ensures
            r == Self::spec_from_open(symbol),
    {
        match symbol {
            Symbol::ParenOpen => Some(Self::Paren),
            Symbol::BraceOpen => Some(Self::Brace),
            Symbol::BracketOpen => Some(Self::Bracket),
            _ => None,
        }
    }

    fn is_close(self, symbol: Symbol) -> (r: bool)
        ensures
            r == (self.spec_close() == symbol),
    {
        self.get_close() == symbol
    }

    fn get_close(self) -> (r: Symbol)
        ensures
            r == self.spec_close(),
    {
        match self {
            Self::Paren => Symbol::ParenClose,
            Self::Brace => Symbol::BraceClose,
            Self::Bracket => Symbol::BracketClose,
        }
    }
}

/// A closing bracket.
pub open spec fn is_closing_symbol(symbol: Symbol) -> bool {
    symbol == Symbol::ParenClose || symbol == Symbol::BraceClose || symbol == Symbol::BracketClose
}

/// Where error recovery may stop outside of brackets: a closing bracket, `;` or `,`.
pub open spec fn is_safe_stop(symbol: Symbol) -> bool {
    is_closing_symbol(symbol) || symbol == Symbol::Semicolon || symbol == Symbol::Comma
}

/// What `peek_token` does on a tokenizer at index `i` with lookahead `peek`: the token it
/// returns (and leaves in the lookahead), where the tokenizer then stands, and the
/// diagnostics it adds. A tokenizer error is reported, its text and the token after it are
/// taken, and peeking goes on.
#[verifier::opaque]
pub open spec fn peek_token_spec<'a>(
    path: Option<&'a str>,
    src: &'a [char],
    i: int,
    peek: Option<Token<'a>>,
) -> (Token<'a>, int, Seq<Diagnostic<'a>>)
    decreases src@.len() - i,
{
    match peek {
        Some(t) => (t, i, Seq::empty()),
        None => match lex_result(path, src, i) {
            Ok(t) => (t, lex_step(src@, i).2, Seq::empty()),
            Err(e) => {
                let j = lex_step(src@, i).2;
                let k = lex_step(src@, j).2;
                if 0 <= i < j <= k <= src@.len() {
                    let rest = peek_token_spec(path, src, k, None);
                    (rest.0, rest.1, seq![spec_diagnostic_from_token_error(e)] + rest.2)
                } else {
                    (Token { span: SourceSpan::spec_new(path, src, i, i), kind: TokenKind::Eof }, i, Seq::empty())
                }
            },
        },
    }
}

/// `peek_token_spec` of a tokenizer's state.
pub open spec fn peek_outcome<'a>(t: Tokenizer<'a>) -> (Token<'a>, int, Seq<Diagnostic<'a>>) {
    peek_token_spec(t.path(), t.src_ref(), t.idx(), t.peeked())
}

/// The lookahead a tokenizer may hold at index `i` of `src`.
pub open spec fn valid_peek<'a>(path: Option<&'a str>, src: &'a [char], i: int, peek: Option<Token<'a>>) -> bool {
    peek matches Some(t) ==> t.wf_in(path, src) && t.span.end() <= i
}

/// The token that `peek_token` finds is a well-formed token read at or after `i`; peeking
/// never makes the measure grow; the diagnostics it adds are errors.
pub proof fn lemma_peek_token_spec<'a>(path: Option<&'a str>, src: &'a [char], i: int, peek: Option<Token<'a>>)
    requires
        src@.len() < u32::MAX,
        0 <= i <= src@.len(),
        valid_peek(path, src, i, peek),
    ensures
        ({
            let (tok, m, ds) = peek_token_spec(path, src, i, peek);
            &&& tok.wf_in(path, src)
            &&& i <= m <= src@.len()
            &&& tok.span.end() <= m
            &&& tokenizer_measure(src@.len() as int, m, Some(tok)) <= tokenizer_measure(src@.len() as int, i, peek)
            &&& peek is Some ==> m == i && ds.len() == 0 && Some(tok) == peek
            &&& forall|k: int| 0 <= k < ds.len() ==> (#[trigger] ds[k]).level == DiagnosticLevel::Error
            &&& tok.span.start() >= lookahead_pos(i, peek)
        }),
    decreases src@.len() - i,
{
    reveal(peek_token_spec);
    if peek is None {
        lemma_lex_step_bounds(src@, i);
        let (r, a, b) = lex_step(src@, i);
        SourceSpan::lemma_spec_new(path, src, a, b);
        match lex_result(path, src, i) {
            Ok(t) => {},
            Err(e) => {
                let j = b;
                lemma_lex_step_bounds(src@, j);
                let k = lex_step(src@, j).2;
                lemma_peek_token_spec(path, src, k, None);
                let rest = peek_token_spec(path, src, k, None);
                let ds = seq![spec_diagnostic_from_token_error(e)] + rest.2;
                assert forall|x: int| 0 <= x < ds.len() implies (#[trigger] ds[x]).level == DiagnosticLevel::Error by {
                    if x > 0 {
                        assert(ds[x] == rest.2[x - 1]);
                    }
                }
            },
        }
    }
}

/// Parsing only adds diagnostics, keeps both objects well formed, reads the same text, and
/// never makes the tokenizer's measure grow.
pub open spec fn parse_step<'a>(
    t0: Tokenizer<'a>,
    t1: Tokenizer<'a>,
    d0: Diagnostics<'a>,
    d1: Diagnostics<'a>,
) -> bool {
    &&& t1.wf()
    &&& d1.wf()
    &&& t1.same_text(&t0)
    &&& t1.measure() <= t0.measure()
    &&& t1.pos() >= t0.pos()
    &&& d0@.is_prefix_of(d1@)
}

/// Returns the next token, reporting (and taking) any tokenizer errors before it. The
/// token stays in the lookahead.
pub fn peek_token<'a>(tokenizer: &mut Tokenizer<'a>, diagnostics: &mut Diagnostics<'a>) -> (r: Token<'a>)
    requires
        old(tokenizer).wf(),
        old(diagnostics).wf(),
    ensures
        (r, state_of(*final(tokenizer), *final(diagnostics))) == g_peek(input_of(*old(tokenizer)), state_of(*old(tokenizer), *old(diagnostics))),
        parse_step(*old(tokenizer), *final(tokenizer), *old(diagnostics), *final(diagnostics)),
        r == peek_outcome(*old(tokenizer)).0,
        final(tokenizer).idx() == peek_outcome(*old(tokenizer)).1,
        final(diagnostics)@ == old(diagnostics)@ + peek_outcome(*old(tokenizer)).2,
        final(tokenizer).peeked() == Some(r),
        r.wf_in(old(tokenizer).path(), old(tokenizer).src_ref()),
{
    proof {
        reveal(peek_token_spec);
        tokenizer.lemma_wf();
        lemma_peek_token_spec(tokenizer.path(), tokenizer.src_ref(), tokenizer.idx(), tokenizer.peeked());
    }
    let ghost outcome = peek_outcome(*tokenizer);
    loop
        invariant
            tokenizer.wf(),
            diagnostics.wf(),
            tokenizer.same_text(old(tokenizer)),
            old(tokenizer).wf(),
            outcome == peek_outcome(*old(tokenizer)),
            peek_outcome(*tokenizer).0 == outcome.0,
            peek_outcome(*tokenizer).1 == outcome.1,
            old(diagnostics)@ + outcome.2 == diagnostics@ + peek_outcome(*tokenizer).2,
            old(diagnostics)@.is_prefix_of(diagnostics@),
            old(tokenizer).idx() <= tokenizer.idx(),
            tokenizer.peeked() is Some ==> tokenizer.idx() == old(tokenizer).idx(),
        decreases tokenizer.src().len() - tokenizer.idx(),
    {
        proof {
            tokenizer.lemma_wf();
            reveal(peek_token_spec);
        }
        let ghost i = tokenizer.idx();
        match tokenizer.peek() {
            Ok(it) => {
                proof {
                    tokenizer.lemma_wf();
                    lemma_peek_token_spec(old(tokenizer).path(), old(tokenizer).src_ref(), old(tokenizer).idx(), old(tokenizer).peeked());
                }
                assert(diagnostics@ =~= old(diagnostics)@ + outcome.2);
                return it;
            },
            Err(err) => {
                let ghost j = tokenizer.idx();
                proof {
                    lemma_lex_step_bounds(tokenizer.src(), i);
                    lemma_lex_step_bounds(tokenizer.src(), j);
                }
                let _ = tokenizer.next();
                let ghost d_before = diagnostics@;
                diagnostics.push_error(DiagnosticKind::Token(err.kind), err.span);
                proof {
                    let rest = peek_outcome(*tokenizer);
                    assert(diagnostics@ =~= d_before.push(spec_diagnostic_from_token_error(err)));
                    assert(seq![spec_diagnostic_from_token_error(err)] + rest.2 =~= seq![
                        spec_diagnostic_from_token_error(err),
                    ].add(rest.2));
                    assert(d_before + (seq![spec_diagnostic_from_token_error(err)] + rest.2)
                        =~= d_before.push(spec_diagnostic_from_token_error(err)) + rest.2);
                    assert(old(diagnostics)@.is_prefix_of(diagnostics@)) by {
                        assert(forall|x: int|
                            0 <= x < old(diagnostics)@.len() ==> diagnostics@[x] == d_before[x]);
                    }
                }
            },
        }
    }
}


/// One step of error recovery on the token `kind`, with the brackets opened so far in
/// `stack`: go on with a new stack, stop, or fail because `kind` closes a bracket other
/// than the innermost open one.
enum RecoveryStep {
    GoOn(Seq<RecurseToken>),
    Stop,
    Mismatched(Symbol),
}

spec fn recovery_step(kind: TokenKind, stack: Seq<RecurseToken>) -> RecoveryStep {
    match kind {
        TokenKind::Eof => RecoveryStep::Stop,
        TokenKind::Symbol(sym) => match RecurseToken::spec_from_open(sym) {
            Some(rt) => RecoveryStep::GoOn(stack.push(rt)),
            None => if stack.len() == 0 {
                if is_safe_stop(sym) {
                    RecoveryStep::Stop
                } else {
                    RecoveryStep::GoOn(stack)
                }
            } else if stack.last().spec_close() == sym {
                RecoveryStep::GoOn(stack.drop_last())
            } else if is_closing_symbol(sym) {
                RecoveryStep::Mismatched(stack.last().spec_close())
            } else {
                RecoveryStep::GoOn(stack)
            },
        },
        _ => RecoveryStep::GoOn(stack),
    }
}

/// What error recovery by `ConsumeUntilSafe` does from index `i` with lookahead `peek`
/// (`first`: the lookahead is not taken before the first look): the result, where the
/// tokenizer stands, its lookahead, and the diagnostics added.
#[verifier::opaque]
spec fn recovery_spec<'a>(
    path: Option<&'a str>,
    src: &'a [char],
    i: int,
    peek: Option<Token<'a>>,
    stack: Seq<RecurseToken>,
    first: bool,
) -> (Result<(), FatalParsingError>, int, Option<Token<'a>>, Seq<Diagnostic<'a>>)
    decreases tokenizer_measure(src@.len() as int, i, peek), if first {
        1int
    } else {
        0int
    },
{
    let len = src@.len() as int;
    let (i1, p1) = if first {
        (i, peek)
    } else {
        match peek {
            Some(_) => (i, None::<Token<'a>>),
            None => (lex_step(src@, i).2, None::<Token<'a>>),
        }
    };
    let (tok, m, ds) = peek_token_spec(path, src, i1, p1);
    let p2 = Some(tok);
    let mu = tokenizer_measure(len, m, p2);
    let mu0 = tokenizer_measure(len, i, peek);
    match recovery_step(tok.kind, stack) {
        RecoveryStep::Stop => (Ok(()), m, p2, ds),
        RecoveryStep::Mismatched(close) => (
            Err(FatalParsingError),
            m,
            p2,
            ds.push(
                Diagnostic {
                    kind: DiagnosticKind::ExpectedSymbol {
                        symbol: close,
                        got: Box::new(DiagnosticKind::UnexpectedToken(tok.span)),
                    },
                    level: DiagnosticLevel::Fatal,
                    span: tok.span,
                },
            ),
        ),
        RecoveryStep::GoOn(next_stack) => if 0 <= mu && (mu < mu0 || (first && mu <= mu0)) {
            let rest = recovery_spec(path, src, m, p2, next_stack, false);
            (rest.0, rest.1, rest.2, ds + rest.3)
        } else {
            (Ok(()), m, p2, ds)
        },
    }
}

/// What skipping to a token of kind `a` or `b` does from index `i` with lookahead `peek`
/// (`first`: the lookahead is not taken before the first look): where the tokenizer stands,
/// its lookahead, and the diagnostics added.
#[verifier::opaque]
spec fn skip_to_spec<'a>(
    path: Option<&'a str>,
    src: &'a [char],
    i: int,
    peek: Option<Token<'a>>,
    a: TokenKind,
    b: TokenKind,
    first: bool,
) -> (Result<(), FatalParsingError>, int, Option<Token<'a>>, Seq<Diagnostic<'a>>)
    decreases tokenizer_measure(src@.len() as int, i, peek), if first {
        1int
    } else {
        0int
    },
{
    let len = src@.len() as int;
    let (i1, p1) = if first {
        (i, peek)
    } else {
        match peek {
            Some(_) => (i, None::<Token<'a>>),
            None => (lex_step(src@, i).2, None::<Token<'a>>),
        }
    };
    let (tok, m, ds) = peek_token_spec(path, src, i1, p1);
    let p2 = Some(tok);
    let mu = tokenizer_measure(len, m, p2);
    let mu0 = tokenizer_measure(len, i, peek);
    if tok.kind == TokenKind::Eof || tok.kind == a || tok.kind == b {
        (Ok(()), m, p2, ds)
    } else if 0 <= mu && (mu < mu0 || (first && mu <= mu0)) {
        let rest = skip_to_spec(path, src, m, p2, a, b, false);
        (rest.0, rest.1, rest.2, ds + rest.3)
    } else {
        (Ok(()), m, p2, ds)
    }
}

proof fn lemma_skip_to_spec<'a>(
    path: Option<&'a str>,
    src: &'a [char],
    i: int,
    peek: Option<Token<'a>>,
    a: TokenKind,
    b: TokenKind,
    first: bool,
)
    requires
        src@.len() < u32::MAX,
        0 <= i <= src@.len(),
        valid_peek(path, src, i, peek),
    ensures
        outcome_ok(path, src, lookahead_pos(i, peek), tokenizer_measure(src@.len() as int, i, peek), skip_to_spec(path, src, i, peek, a, b, first)),
        skip_to_spec(path, src, i, peek, a, b, first).0 == Ok::<(), FatalParsingError>(()),
    decreases tokenizer_measure(src@.len() as int, i, peek), if first {
        1int
    } else {
        0int
    },
{
    reveal(skip_to_spec);
    let len = src@.len() as int;
    if !first && peek is None {
        lemma_lex_step_bounds(src@, i);
    }
    let (i1, p1) = if first {
        (i, peek)
    } else {
        match peek {
            Some(_) => (i, None::<Token<'a>>),
            None => (lex_step(src@, i).2, None::<Token<'a>>),
        }
    };
    lemma_peek_token_spec(path, src, i1, p1);
    let (tok, m, ds) = peek_token_spec(path, src, i1, p1);
    let p2 = Some(tok);
    let mu = tokenizer_measure(len, m, p2);
    let mu0 = tokenizer_measure(len, i, peek);
    if !(tok.kind == TokenKind::Eof || tok.kind == a || tok.kind == b) {
        if 0 <= mu && (mu < mu0 || (first && mu <= mu0)) {
            lemma_skip_to_spec(path, src, m, p2, a, b, false);
        }
    }
}

/// What `apply_mismatch` does with a tokenizer at index `i` with lookahead `peek`: the
/// result, where the tokenizer stands, its lookahead, and the diagnostics added.
pub closed spec fn mismatch_outcome<'a>(
    mismatch_handling: MismatchHandling,
    path: Option<&'a str>,
    src: &'a [char],
    i: int,
    peek: Option<Token<'a>>,
) -> (Result<(), FatalParsingError>, int, Option<Token<'a>>, Seq<Diagnostic<'a>>) {
    match mismatch_handling {
        MismatchHandling::Consume => match peek {
            Some(_) => (Ok(()), i, None, Seq::empty()),
            None => (Ok(()), lex_step(src@, i).2, None, Seq::empty()),
        },
        MismatchHandling::ConsumeUntilSafe => recovery_spec(path, src, i, peek, Seq::empty(), true),
        MismatchHandling::SkipTo(a, b) => skip_to_spec(path, src, i, peek, a, b, true),
        _ => (Ok(()), i, peek, Seq::empty()),
    }
}

/// What reporting `kind` at the token `tok` (the lookahead, with the tokenizer at `i`) and
/// then recovering does: the result, where the tokenizer stands, its lookahead, and the
/// diagnostics added. With `Fatal` the report is fatal and nothing is taken.
pub open spec fn mismatch_effect<'a>(
    mismatch_handling: MismatchHandling,
    path: Option<&'a str>,
    src: &'a [char],
    i: int,
    tok: Token<'a>,
    kind: DiagnosticKind<'a>,
) -> (Result<(), FatalParsingError>, int, Option<Token<'a>>, Seq<Diagnostic<'a>>) {
    if mismatch_handling == MismatchHandling::Fatal {
        (
            Err(FatalParsingError),
            i,
            Some(tok),
            seq![Diagnostic { kind, level: DiagnosticLevel::Fatal, span: tok.span }],
        )
    } else {
        let o = mismatch_outcome(mismatch_handling, path, src, i, Some(tok));
        (o.0, o.1, o.2, seq![Diagnostic { kind, level: DiagnosticLevel::Error, span: tok.span }] + o.3)
    }
}

/// A tokenizer state and the diagnostics added on the way to it: well-formed, not above
/// the measure `mu`, and an `Err` comes with a fatal diagnostic as the last one added.
pub open spec fn outcome_ok<'a>(
    path: Option<&'a str>,
    src: &'a [char],
    i0: int,
    mu: int,
    o: (Result<(), FatalParsingError>, int, Option<Token<'a>>, Seq<Diagnostic<'a>>),
) -> bool {
    &&& i0 <= o.1 <= src@.len()
    &&& valid_peek(path, src, o.1, o.2)
    &&& tokenizer_measure(src@.len() as int, o.1, o.2) <= mu
    &&& lookahead_pos(o.1, o.2) >= i0
    &&& o.0 is Err ==> o.3.len() > 0 && o.3.last().level == DiagnosticLevel::Fatal
}

proof fn lemma_recovery_spec<'a>(
    path: Option<&'a str>,
    src: &'a [char],
    i: int,
    peek: Option<Token<'a>>,
    stack: Seq<RecurseToken>,
    first: bool,
)
    requires
        src@.len() < u32::MAX,
        0 <= i <= src@.len(),
        valid_peek(path, src, i, peek),
    ensures
        outcome_ok(path, src, lookahead_pos(i, peek), tokenizer_measure(src@.len() as int, i, peek), recovery_spec(path, src, i, peek, stack, first)),
    decreases tokenizer_measure(src@.len() as int, i, peek), if first {
        1int
    } else {
        0int
    },
{
    reveal(recovery_spec);
    let len = src@.len() as int;
    if !first && peek is None {
        lemma_lex_step_bounds(src@, i);
    }
    let (i1, p1) = if first {
        (i, peek)
    } else {
        match peek {
            Some(_) => (i, None::<Token<'a>>),
            None => (lex_step(src@, i).2, None::<Token<'a>>),
        }
    };
    lemma_peek_token_spec(path, src, i1, p1);
    let (tok, m, ds) = peek_token_spec(path, src, i1, p1);
    let p2 = Some(tok);
    let mu = tokenizer_measure(len, m, p2);
    let mu0 = tokenizer_measure(len, i, peek);
    match recovery_step(tok.kind, stack) {
        RecoveryStep::GoOn(next_stack) => {
            if 0 <= mu && (mu < mu0 || (first && mu <= mu0)) {
                lemma_recovery_spec(path, src, m, p2, next_stack, false);
                let rest = recovery_spec(path, src, m, p2, next_stack, false);
                if rest.0 is Err {
                    assert((ds + rest.3).last() == rest.3.last());
                }
            }
        },
        _ => {},
    }
}

/// Reporting a mismatch and recovering keeps the tokenizer well formed and never makes its
/// measure grow; an `Err` comes with a fatal diagnostic as the last one added.
pub proof fn lemma_mismatch_effect<'a>(
    mismatch_handling: MismatchHandling,
    path: Option<&'a str>,
    src: &'a [char],
    i: int,
    tok: Token<'a>,
    kind: DiagnosticKind<'a>,
)
    requires
        src@.len() < u32::MAX,
        0 <= i <= src@.len(),
        valid_peek(path, src, i, Some(tok)),
    ensures
        outcome_ok(path, src, tok.span.start(), tokenizer_measure(src@.len() as int, i, Some(tok)), mismatch_effect(mismatch_handling, path, src, i, tok, kind)),
{
    if mismatch_handling == MismatchHandling::ConsumeUntilSafe {
        lemma_recovery_spec(path, src, i, Some(tok), Seq::empty(), true);
        let o = recovery_spec(path, src, i, Some(tok), Seq::empty(), true);
        if o.0 is Err {
            let d = seq![Diagnostic { kind, level: DiagnosticLevel::Error, span: tok.span }];
            assert((d + o.3).last() == o.3.last());
        }
    }
    if let MismatchHandling::SkipTo(a, b) = mismatch_handling {
        lemma_skip_to_spec(path, src, i, Some(tok), a, b, true);
    }
}

impl MismatchHandling {
    /// Reports `kind` at `span`: as a fatal error (and returns the error that stops
    /// parsing) for `Fatal`, else as an error.
    fn push_diagnostic<'a>(
        &self,
        diagnostics: &mut Diagnostics<'a>,
        kind: DiagnosticKind<'a>,
        span: SourceSpan<'a>,
    ) -> (r: Result<(), FatalParsingError>)
        requires
            old(diagnostics).wf(),
        ensures
            final(diagnostics).wf(),
            *self == MismatchHandling::Fatal ==> r == Err::<(), FatalParsingError>(FatalParsingError)
                && final(diagnostics)@ == old(diagnostics)@.push(
                Diagnostic { kind, level: DiagnosticLevel::Fatal, span },
            ),
            *self != MismatchHandling::Fatal ==> r == Ok::<(), FatalParsingError>(())
                && final(diagnostics)@ == old(diagnostics)@.push(
                Diagnostic { kind, level: DiagnosticLevel::Error, span },
            ),
    {
        if let Self::Fatal = self {
            return diagnostics.push_fatal(kind, span);
        }
        diagnostics.push_error(kind, span);
        Ok(())
    }

    /// Recovers from a mismatch as the variant says.
    fn apply_mismatch<'a>(&self, tokenizer: &mut Tokenizer<'a>, diagnostics: &mut Diagnostics<'a>) -> (r: Result<
        (),
        FatalParsingError,
    >)
        requires
            old(tokenizer).wf(),
            old(diagnostics).wf(),
        ensures
            final(tokenizer).wf(),
            final(diagnostics).wf(),
            final(tokenizer).same_text(old(tokenizer)),
            ({
                let o = mismatch_outcome(
                    *self,
                    old(tokenizer).path(),
                    old(tokenizer).src_ref(),
                    old(tokenizer).idx(),
                    old(tokenizer).peeked(),
                );
                &&& r == o.0
                &&& final(tokenizer).idx() == o.1
                &&& final(tokenizer).peeked() == o.2
                &&& final(diagnostics)@ == old(diagnostics)@ + o.3
            }),
    {
        match self {
            Self::Consume => {
                proof {
                    tokenizer.lemma_wf();
                }
                let _ = tokenizer.next();
                assert(diagnostics@ =~= old(diagnostics)@ + Seq::<Diagnostic<'a>>::empty());
                return Ok(());
            },
            Self::ConsumeUntilSafe => {
                return Self::recover(tokenizer, diagnostics);
            },
            Self::SkipTo(a, b) => {
                Self::skip_to(tokenizer, diagnostics, *a, *b);
                return Ok(());
            },
            _ => {
                assert(diagnostics@ =~= old(diagnostics)@ + Seq::<Diagnostic<'a>>::empty());
                return Ok(());
            },
        }
    }

    /// Takes tokens up to the next one of kind `a` or `b`, which is left in the lookahead, or
    /// the end of the input.
    fn skip_to<'a>(tokenizer: &mut Tokenizer<'a>, diagnostics: &mut Diagnostics<'a>, a: TokenKind, b: TokenKind)
        requires
            old(tokenizer).wf(),
            old(diagnostics).wf(),
        ensures
            final(tokenizer).wf(),
            final(diagnostics).wf(),
            final(tokenizer).same_text(old(tokenizer)),
            ({
                let o = skip_to_spec(
                    old(tokenizer).path(),
                    old(tokenizer).src_ref(),
                    old(tokenizer).idx(),
                    old(tokenizer).peeked(),
                    a,
                    b,
                    true,
                );
                &&& o.0 == Ok::<(), FatalParsingError>(())
                &&& final(tokenizer).idx() == o.1
                &&& final(tokenizer).peeked() == o.2
                &&& final(diagnostics)@ == old(diagnostics)@ + o.3
            }),
    {
        let mut first = true;
        let ghost path = tokenizer.path();
        let ghost src = tokenizer.src_ref();
        let ghost total = skip_to_spec(path, src, tokenizer.idx(), tokenizer.peeked(), a, b, true);
        proof {
            tokenizer.lemma_wf();
            lemma_skip_to_spec(path, src, tokenizer.idx(), tokenizer.peeked(), a, b, true);
        }
        assert(diagnostics@ + total.3 =~= old(diagnostics)@ + total.3);
        loop
            invariant
                tokenizer.wf(),
                diagnostics.wf(),
                tokenizer.same_text(old(tokenizer)),
                path == tokenizer.path(),
                src == tokenizer.src_ref(),
                !first ==> (tokenizer.peeked() matches Some(t) && t.kind != TokenKind::Eof),
                total == skip_to_spec(path, src, old(tokenizer).idx(), old(tokenizer).peeked(), a, b, true),
                total.0 == Ok::<(), FatalParsingError>(()),
                skip_to_spec(path, src, tokenizer.idx(), tokenizer.peeked(), a, b, first).1 == total.1,
                skip_to_spec(path, src, tokenizer.idx(), tokenizer.peeked(), a, b, first).2 == total.2,
                old(diagnostics)@ + total.3 == diagnostics@ + skip_to_spec(path, src, tokenizer.idx(), tokenizer.peeked(), a, b, first).3,
            decreases tokenizer.measure(), if first {
                1int
            } else {
                0int
            },
        {
            proof {
                tokenizer.lemma_wf();
            }
            let ghost i = tokenizer.idx();
            let ghost peek0 = tokenizer.peeked();
            let ghost first0 = first;
            let ghost d0 = diagnostics@;
            let ghost mu0 = tokenizer.measure();
            let ghost whole = skip_to_spec(path, src, i, peek0, a, b, first0);
            if first {
                first = false;
            } else {
                let _ = tokenizer.next();
            }
            proof {
                tokenizer.lemma_wf();
                lemma_peek_token_spec(path, src, tokenizer.idx(), tokenizer.peeked());
            }
            let ghost i1 = tokenizer.idx();
            let ghost p1 = tokenizer.peeked();
            let peek = peek_token(tokenizer, diagnostics);
            let ghost m = tokenizer.idx();
            let ghost ds = peek_token_spec(path, src, i1, p1).2;
            proof {
                tokenizer.lemma_wf();
                reveal(skip_to_spec);
                assert(tokenizer.measure() < mu0 || (first0 && tokenizer.measure() <= mu0));
                assert(0 <= tokenizer.measure());
            }
            if peek.kind == TokenKind::Eof || peek.kind == a || peek.kind == b {
                assert(diagnostics@ =~= old(diagnostics)@ + total.3);
                return;
            }
            proof {
                let rest = skip_to_spec(path, src, m, Some(peek), a, b, false);
                assert(whole == (rest.0, rest.1, rest.2, ds + rest.3));
                assert(d0 + (ds + rest.3) =~= diagnostics@ + rest.3);
            }
        }
    }

    /// Takes tokens, bracketed groups whole, up to the next closing bracket, `;` or `,` at
    /// the depth where it started, or the end of the input; a closing bracket that does not
    /// match the innermost open one is a fatal error.
    fn recover<'a>(tokenizer: &mut Tokenizer<'a>, diagnostics: &mut Diagnostics<'a>) -> (r: Result<
        (),
        FatalParsingError,
    >)
        requires
            old(tokenizer).wf(),
            old(diagnostics).wf(),
        ensures
            final(tokenizer).wf(),
            final(diagnostics).wf(),
            final(tokenizer).same_text(old(tokenizer)),
            ({
                let o = recovery_spec(
                    old(tokenizer).path(),
                    old(tokenizer).src_ref(),
                    old(tokenizer).idx(),
                    old(tokenizer).peeked(),
                    Seq::empty(),
                    true,
                );
                &&& r == o.0
                &&& final(tokenizer).idx() == o.1
                &&& final(tokenizer).peeked() == o.2
                &&& final(diagnostics)@ == old(diagnostics)@ + o.3
            }),
    {
        let mut stack: Vec<RecurseToken> = Vec::new();
        let mut first = true;
        let ghost path = tokenizer.path();
        let ghost src = tokenizer.src_ref();
        let ghost total = recovery_spec(path, src, tokenizer.idx(), tokenizer.peeked(), Seq::empty(), true);
        assert(stack@ =~= Seq::<RecurseToken>::empty());
        assert(diagnostics@ + total.3 =~= old(diagnostics)@ + total.3);
        loop
            invariant
                tokenizer.wf(),
                diagnostics.wf(),
                tokenizer.same_text(old(tokenizer)),
                path == tokenizer.path(),
                src == tokenizer.src_ref(),
                !first ==> (tokenizer.peeked() matches Some(t) && t.kind != TokenKind::Eof),
                total == recovery_spec(path, src, old(tokenizer).idx(), old(tokenizer).peeked(), Seq::empty(), true),
                recovery_spec(path, src, tokenizer.idx(), tokenizer.peeked(), stack@, first).0 == total.0,
                recovery_spec(path, src, tokenizer.idx(), tokenizer.peeked(), stack@, first).1 == total.1,
                recovery_spec(path, src, tokenizer.idx(), tokenizer.peeked(), stack@, first).2 == total.2,
                old(diagnostics)@ + total.3 == diagnostics@ + recovery_spec(path, src, tokenizer.idx(), tokenizer.peeked(), stack@, first).3,
            decreases tokenizer.measure(), if first {
                1int
            } else {
                0int
            },
        {
            proof {
                tokenizer.lemma_wf();
            }
            let ghost i = tokenizer.idx();
            let ghost peek0 = tokenizer.peeked();
            let ghost first0 = first;
            let ghost stack0 = stack@;
            let ghost d0 = diagnostics@;
            let ghost mu0 = tokenizer.measure();
            let ghost whole = recovery_spec(path, src, i, peek0, stack0, first0);
            if first {
                first = false;
            } else {
                let _ = tokenizer.next();
            }
            proof {
                tokenizer.lemma_wf();
                lemma_peek_token_spec(path, src, tokenizer.idx(), tokenizer.peeked());
            }
            let ghost i1 = tokenizer.idx();
            let ghost p1 = tokenizer.peeked();
            let peek = peek_token(tokenizer, diagnostics);
            let ghost m = tokenizer.idx();
            let ghost ds = peek_token_spec(path, src, i1, p1).2;
            proof {
                tokenizer.lemma_wf();
                reveal(recovery_spec);
                assert(tokenizer.measure() < mu0 || (first0 && tokenizer.measure() <= mu0));
                assert(0 <= tokenizer.measure());
            }
            let ghost step = recovery_step(peek.kind, stack0);
            match peek.kind {
                TokenKind::Symbol(symbol) => {
                    if let Some(recurse) = RecurseToken::from_open(symbol) {
                        stack.push(recurse);
                        proof {
                            let rest = recovery_spec(path, src, m, Some(peek), stack@, false);
                            assert(whole == (rest.0, rest.1, rest.2, ds + rest.3));
                            assert(d0 + (ds + rest.3) =~= diagnostics@ + rest.3);
                        }
                        continue;
                    }
                    if stack.len() == 0 {
                        if symbol == Symbol::ParenClose || symbol == Symbol::BraceClose || symbol == Symbol::BracketClose
                            || symbol == Symbol::Semicolon || symbol == Symbol::Comma {
                            assert(diagnostics@ =~= old(diagnostics)@ + total.3);
                            return Ok(());
                        }
                        proof {
                            let rest = recovery_spec(path, src, m, Some(peek), stack@, false);
                            assert(whole == (rest.0, rest.1, rest.2, ds + rest.3));
                            assert(d0 + (ds + rest.3) =~= diagnostics@ + rest.3);
                        }
                        continue;
                    }
                    let recurse = stack[stack.len() - 1];
                    if recurse.is_close(symbol) {
                        stack.pop();
                        assert(stack@ =~= stack0.drop_last());
                    } else if symbol == Symbol::ParenClose || symbol == Symbol::BraceClose || symbol == Symbol::BracketClose {
                        let r = diagnostics.push_fatal(
                            DiagnosticKind::ExpectedSymbol {
                                symbol: recurse.get_close(),
                                got: Box::new(DiagnosticKind::UnexpectedToken(peek.span)),
                            },
                            peek.span,
                        );
                        assert(diagnostics@ =~= old(diagnostics)@ + total.3);
                        return r;
                    }
                    proof {
                        let rest = recovery_spec(path, src, m, Some(peek), stack@, false);
                        assert(whole == (rest.0, rest.1, rest.2, ds + rest.3));
                        assert(d0 + (ds + rest.3) =~= diagnostics@ + rest.3);
                    }
                },
                TokenKind::Eof => {
                    assert(diagnostics@ =~= old(diagnostics)@ + total.3);
                    return Ok(());
                },
                _ => {
                    proof {
                        let rest = recovery_spec(path, src, m, Some(peek), stack@, false);
                        assert(whole == (rest.0, rest.1, rest.2, ds + rest.3));
                        assert(d0 + (ds + rest.3) =~= diagnostics@ + rest.3);
                    }
                },
            }
        }
    }
}

/// The spans of a tokenizer's text and file.
pub open spec fn span_in<'a>(t: Tokenizer<'a>, span: SourceSpan<'a>) -> bool {
    span.wf_in(t.path(), t.src_ref())
}

/// Peeking at a tokenizer whose lookahead is full changes nothing.
pub proof fn lemma_peek_token_spec_full<'a>(t: Tokenizer<'a>)
    requires
        t.peeked() is Some,
    ensures
        peek_outcome(t) == (t.peeked().unwrap(), t.idx(), Seq::<Diagnostic<'a>>::empty()),
{
    reveal(peek_token_spec);
}

/// What `peek_token` finds, and the tokenizer after it, are well formed; taking a token
/// other than `Eof` from the lookahead makes the measure smaller.
pub proof fn lemma_peek_outcome<'a>(t: Tokenizer<'a>)
    requires
        t.wf(),
    ensures
        ({
            let (tok, m, ds) = peek_outcome(t);
            &&& tok.wf_in(t.path(), t.src_ref())
            &&& t.idx() <= m <= t.src().len()
            &&& tok.span.end() <= m
            &&& tokenizer_measure(t.src().len() as int, m, Some(tok)) <= t.measure()
            &&& tok.span.start() >= t.pos()
            &&& tok.kind != TokenKind::Eof ==> tokenizer_measure(t.src().len() as int, m, None) < t.measure()
            &&& forall|k: int| 0 <= k < ds.len() ==> (#[trigger] ds[k]).level == DiagnosticLevel::Error
        }),
{
    t.lemma_wf();
    lemma_peek_token_spec(t.path(), t.src_ref(), t.idx(), t.peeked());
}

/// Reports `expectation` at the next token (which stays in the lookahead) and recovers as
/// `mismatch_handling` says; returns that token.
fn report_mismatch<'a>(
    tokenizer: &mut Tokenizer<'a>,
    diagnostics: &mut Diagnostics<'a>,
    mismatch_handling: MismatchHandling,
    expectation: Expectation,
) -> (r: Result<Token<'a>, FatalParsingError>)
    requires
        old(tokenizer).wf(),
        old(diagnostics).wf(),
    ensures
        parse_step(*old(tokenizer), *final(tokenizer), *old(diagnostics), *final(diagnostics)),
        ({
            let (tok, m, ds) = peek_outcome(*old(tokenizer));
            let e = mismatch_effect(
                mismatch_handling,
                old(tokenizer).path(),
                old(tokenizer).src_ref(),
                m,
                tok,
                expectation.spec_wrap(spec_kind_from_token(tok)),
            );
            &&& r == if e.0 is Ok {
                Ok::<Token<'a>, FatalParsingError>(tok)
            } else {
                Err::<Token<'a>, FatalParsingError>(FatalParsingError)
            }
            &&& final(tokenizer).idx() == e.1
            &&& final(tokenizer).peeked() == e.2
            &&& final(diagnostics)@ == old(diagnostics)@ + ds + e.3
            &&& tok.wf_in(old(tokenizer).path(), old(tokenizer).src_ref())
        }),
        mismatch_handling == MismatchHandling::Skip || mismatch_handling == MismatchHandling::Consume ==> r is Ok,
        r is Err ==> final(diagnostics)@.len() > 0 && final(diagnostics)@.last().level
            == DiagnosticLevel::Fatal,
{
    proof {
        lemma_peek_outcome(*tokenizer);
    }
    let ghost d0 = diagnostics@;
    let token = peek_token(tokenizer, diagnostics);
    let ghost d1 = diagnostics@;
    let ghost m = tokenizer.idx();
    let ghost kind = expectation.spec_wrap(spec_kind_from_token(token));
    proof {
        tokenizer.lemma_wf();
        lemma_mismatch_effect(mismatch_handling, tokenizer.path(), tokenizer.src_ref(), m, token, kind);
    }
    let ghost e = mismatch_effect(mismatch_handling, tokenizer.path(), tokenizer.src_ref(), m, token, kind);
    match mismatch_handling.push_diagnostic(diagnostics, expectation.wrap(DiagnosticKind::from_token(token)), token.span) {
        Ok(()) => {},
        Err(err) => {
            assert(diagnostics@ =~= d0 + peek_outcome(*old(tokenizer)).2 + e.3);
            assert(d0.is_prefix_of(diagnostics@)) by {
                assert(forall|x: int| 0 <= x < d0.len() ==> diagnostics@[x] == d1[x]);
            }
            return Err(err);
        },
    }
    let ghost d2 = diagnostics@;
    let res = mismatch_handling.apply_mismatch(tokenizer, diagnostics);
    proof {
        let mo = mismatch_outcome(mismatch_handling, old(tokenizer).path(), old(tokenizer).src_ref(), m, Some(token));
        assert(diagnostics@ =~= d0 + peek_outcome(*old(tokenizer)).2 + e.3);
        assert(d0.is_prefix_of(diagnostics@)) by {
            assert(forall|x: int| 0 <= x < d0.len() ==> diagnostics@[x] == d1[x]);
        }
        if res is Err {
            assert(e.3.last() == mo.3.last());
            assert(diagnostics@.last() == e.3.last());
        }
    }
    match res {
        Ok(()) => Ok(token),
        Err(err) => Err(err),
    }
}

/// Returns the span of the next token if it is the symbol `symbol`, and leaves the token
/// in the lookahead either way.
pub fn peek_symbol<'a>(tokenizer: &mut Tokenizer<'a>, diagnostics: &mut Diagnostics<'a>, symbol: Symbol) -> (r: Option<SourceSpan<'a>>)
    requires
        old(tokenizer).wf(),
        old(diagnostics).wf(),
    ensures
        parse_step(*old(tokenizer), *final(tokenizer), *old(diagnostics), *final(diagnostics)),
        ({
            let (tok, m, ds) = peek_outcome(*old(tokenizer));
            &&& final(diagnostics)@ == old(diagnostics)@ + ds
            &&& final(tokenizer).idx() == m
            &&& final(tokenizer).peeked() == Some(tok)
            &&& r == if tok.kind == TokenKind::Symbol(symbol) {
                Some(tok.span)
            } else {
                None::<SourceSpan<'a>>
            }
            &&& tok.wf_in(old(tokenizer).path(), old(tokenizer).src_ref())
        }),
{
    let token = peek_token(tokenizer, diagnostics);
    if token.kind == TokenKind::Symbol(symbol) {
        return Some(token.span);
    }
    None
}

/// Takes the next token if it is an identifier; returns it with its pseudo-keyword.
pub fn try_ident<'a>(tokenizer: &mut Tokenizer<'a>, diagnostics: &mut Diagnostics<'a>) -> (r: Option<
    Spanned<'a, Option<PseudoKeyword>>,
>)
    requires
        old(tokenizer).wf(),
        old(diagnostics).wf(),
    ensures
        (r, state_of(*final(tokenizer), *final(diagnostics))) == g_try_ident(input_of(*old(tokenizer)), state_of(*old(tokenizer), *old(diagnostics))),
        parse_step(*old(tokenizer), *final(tokenizer), *old(diagnostics), *final(diagnostics)),
        ({
            let (tok, m, ds) = peek_outcome(*old(tokenizer));
            &&& final(diagnostics)@ == old(diagnostics)@ + ds
            &&& final(tokenizer).idx() == m
            &&& match tok.kind {
                TokenKind::Identifier(pseudo) => r == Some(Spanned { span: tok.span, value: pseudo })
                    && final(tokenizer).peeked() == None::<Token<'a>>,
                _ => r == None::<Spanned<'a, Option<PseudoKeyword>>> && final(tokenizer).peeked()
                    == Some(tok),
            }
            &&& tok.wf_in(old(tokenizer).path(), old(tokenizer).src_ref())
        }),
        r is Some ==> final(tokenizer).measure() < old(tokenizer).measure(),
        r matches Some(x) ==> x.span.start() >= old(tokenizer).pos() && x.span.end() <= final(tokenizer).pos(),
{
    proof {
        lemma_peek_outcome(*tokenizer);
    }
    let token = peek_token(tokenizer, diagnostics);
    let pseudo = match token.kind {
        TokenKind::Identifier(pseudo) => pseudo,
        _ => return None,
    };
    let _ = tokenizer.next();
    Some(token.span.into_spanned(pseudo))
}

/// Takes the next token if it is a number literal; returns it.
pub fn try_number<'a>(tokenizer: &mut Tokenizer<'a>, diagnostics: &mut Diagnostics<'a>) -> (r: Option<
    Spanned<'a, NumberLiteral>,
>)
    requires
        old(tokenizer).wf(),
        old(diagnostics).wf(),
    ensures
        (r, state_of(*final(tokenizer), *final(diagnostics))) == g_try_number(input_of(*old(tokenizer)), state_of(*old(tokenizer), *old(diagnostics))),
        parse_step(*old(tokenizer), *final(tokenizer), *old(diagnostics), *final(diagnostics)),
        ({
            let (tok, m, ds) = peek_outcome(*old(tokenizer));
            &&& final(diagnostics)@ == old(diagnostics)@ + ds
            &&& final(tokenizer).idx() == m
            &&& match tok.kind {
                TokenKind::NumberLiteral(number) => r == Some(Spanned { span: tok.span, value: number })
                    && final(tokenizer).peeked() == None::<Token<'a>>,
                _ => r == None::<Spanned<'a, NumberLiteral>> && final(tokenizer).peeked() == Some(tok),
            }
            &&& tok.wf_in(old(tokenizer).path(), old(tokenizer).src_ref())
        }),
        r is Some ==> final(tokenizer).measure() < old(tokenizer).measure(),
        r matches Some(x) ==> x.span.start() >= old(tokenizer).pos() && x.span.end() <= final(tokenizer).pos(),
{
    proof {
        lemma_peek_outcome(*tokenizer);
    }
    let token = peek_token(tokenizer, diagnostics);
    let number = match token.kind {
        TokenKind::NumberLiteral(number) => number,
        _ => return None,
    };
    let _ = tokenizer.next();
    Some(token.span.into_spanned(number))
}

/// Takes the next token if it is an identifier; else reports an expected identifier,
/// recovers as `mismatch_handling` says, and returns the span of the token found, without a
/// pseudo-keyword.
pub fn expect_ident<'a>(
    tokenizer: &mut Tokenizer<'a>,
    diagnostics: &mut Diagnostics<'a>,
    mismatch_handling: MismatchHandling,
) -> (r: Result<Spanned<'a, Option<PseudoKeyword>>, FatalParsingError>)
    requires
        old(tokenizer).wf(),
        old(diagnostics).wf(),
    ensures
        (r, state_of(*final(tokenizer), *final(diagnostics))) == g_expect_ident(input_of(*old(tokenizer)), state_of(*old(tokenizer), *old(diagnostics)), mismatch_handling),
        parse_step(*old(tokenizer), *final(tokenizer), *old(diagnostics), *final(diagnostics)),
        ({
            let (tok, m, ds) = peek_outcome(*old(tokenizer));
            match tok.kind {
                TokenKind::Identifier(pseudo) => {
                    &&& r == Ok::<Spanned<'a, Option<PseudoKeyword>>, FatalParsingError>(
                        Spanned { span: tok.span, value: pseudo },
                    )
                    &&& final(tokenizer).idx() == m
                    &&& final(tokenizer).peeked() == None::<Token<'a>>
                    &&& final(diagnostics)@ == old(diagnostics)@ + ds
                },
                _ => {
                    let e = mismatch_effect(
                        mismatch_handling,
                        old(tokenizer).path(),
                        old(tokenizer).src_ref(),
                        m,
                        tok,
                        Expectation::Ident.spec_wrap(spec_kind_from_token(tok)),
                    );
                    &&& r == if e.0 is Ok {
                        Ok::<Spanned<'a, Option<PseudoKeyword>>, FatalParsingError>(
                            Spanned { span: tok.span, value: None },
                        )
                    } else {
                        Err::<Spanned<'a, Option<PseudoKeyword>>, FatalParsingError>(FatalParsingError)
                    }
                    &&& final(tokenizer).idx() == e.1
                    &&& final(tokenizer).peeked() == e.2
                    &&& final(diagnostics)@ == old(diagnostics)@ + ds + e.3
                },
            }
        }),
        r matches Ok(x) ==> span_in(*old(tokenizer), x.span),
        mismatch_handling == MismatchHandling::Skip || mismatch_handling == MismatchHandling::Consume ==> r is Ok,
        r is Err ==> final(diagnostics)@.len() > 0 && final(diagnostics)@.last().level
            == DiagnosticLevel::Fatal,
{
    proof {
        lemma_peek_outcome(*tokenizer);
    }
    let token = peek_token(tokenizer, diagnostics);
    let pseudo = match token.kind {
        TokenKind::Identifier(pseudo) => pseudo,
        _ => {
            proof {
                lemma_peek_token_spec_full(*tokenizer);
            }
            let ghost d1 = diagnostics@;
            let token = report_mismatch(tokenizer, diagnostics, mismatch_handling, Expectation::Ident)?;
            proof {
                assert(old(diagnostics)@.is_prefix_of(diagnostics@)) by {
                    assert(forall|x: int| 0 <= x < old(diagnostics)@.len() ==> diagnostics@[x] == d1[x]);
                }
                assert(diagnostics@ =~= old(diagnostics)@ + peek_outcome(*old(tokenizer)).2 + (
                diagnostics@.subrange(d1.len() as int, diagnostics@.len() as int)));
            }
            return Ok(token.span.into_spanned(None));
        },
    };
    let _ = tokenizer.next();
    Ok(token.span.into_spanned(pseudo))
}

/// Takes the next token if it is `expected_token`, and returns its span.
pub fn try_token<'a>(
    tokenizer: &mut Tokenizer<'a>,
    diagnostics: &mut Diagnostics<'a>,
    expected_token: TokenKind,
) -> (r: Option<SourceSpan<'a>>)
    requires
        old(tokenizer).wf(),
        old(diagnostics).wf(),
    ensures
        (r, state_of(*final(tokenizer), *final(diagnostics))) == g_try_token(input_of(*old(tokenizer)), state_of(*old(tokenizer), *old(diagnostics)), expected_token),
        parse_step(*old(tokenizer), *final(tokenizer), *old(diagnostics), *final(diagnostics)),
        ({
            let (tok, m, ds) = peek_outcome(*old(tokenizer));
            &&& final(diagnostics)@ == old(diagnostics)@ + ds
            &&& final(tokenizer).idx() == m
            &&& if tok.kind == expected_token {
                r == Some(tok.span) && final(tokenizer).peeked() == None::<Token<'a>>
            } else {
                r == None::<SourceSpan<'a>> && final(tokenizer).peeked() == Some(tok)
            }
            &&& tok.wf_in(old(tokenizer).path(), old(tokenizer).src_ref())
        }),
        r is Some && expected_token != TokenKind::Eof ==> final(tokenizer).measure() < old(
            tokenizer,
        ).measure(),
        r matches Some(span) ==> span.start() >= old(tokenizer).pos() && span.end() <= final(tokenizer).pos(),
{
    proof {
        lemma_peek_outcome(*tokenizer);
    }
    let token = peek_token(tokenizer, diagnostics);
    if token.kind == expected_token {
        let _ = tokenizer.next();
        return Some(token.span);
    }
    None
}

/// Takes the next token if it is the symbol `symbol`, and returns its span.
pub fn try_symbol<'a>(
    tokenizer: &mut Tokenizer<'a>,
    diagnostics: &mut Diagnostics<'a>,
    symbol: Symbol,
) -> (r: Option<SourceSpan<'a>>)
    requires
        old(tokenizer).wf(),
        old(diagnostics).wf(),
    ensures
        (r, state_of(*final(tokenizer), *final(diagnostics))) == g_try_token(input_of(*old(tokenizer)), state_of(*old(tokenizer), *old(diagnostics)), TokenKind::Symbol(symbol)),
        parse_step(*old(tokenizer), *final(tokenizer), *old(diagnostics), *final(diagnostics)),
        ({
            let (tok, m, ds) = peek_outcome(*old(tokenizer));
            &&& final(diagnostics)@ == old(diagnostics)@ + ds
            &&& final(tokenizer).idx() == m
            &&& if tok.kind == TokenKind::Symbol(symbol) {
                r == Some(tok.span) && final(tokenizer).peeked() == None::<Token<'a>>
            } else {
                r == None::<SourceSpan<'a>> && final(tokenizer).peeked() == Some(tok)
            }
            &&& tok.wf_in(old(tokenizer).path(), old(tokenizer).src_ref())
        }),
        r is Some ==> final(tokenizer).measure() < old(tokenizer).measure(),
        r matches Some(span) ==> span.start() >= old(tokenizer).pos() && span.end() <= final(tokenizer).pos(),
{
    try_token(tokenizer, diagnostics, TokenKind::Symbol(symbol))
}

/// Takes the next token if it is the keyword `keyword`, and returns its span.
pub fn try_keyword<'a>(
    tokenizer: &mut Tokenizer<'a>,
    diagnostics: &mut Diagnostics<'a>,
    keyword: Keyword,
) -> (r: Option<SourceSpan<'a>>)
    requires
        old(tokenizer).wf(),
        old(diagnostics).wf(),
    ensures
        (r, state_of(*final(tokenizer), *final(diagnostics))) == g_try_token(input_of(*old(tokenizer)), state_of(*old(tokenizer), *old(diagnostics)), TokenKind::Keyword(keyword)),
        parse_step(*old(tokenizer), *final(tokenizer), *old(diagnostics), *final(diagnostics)),
        ({
            let (tok, m, ds) = peek_outcome(*old(tokenizer));
            &&& final(diagnostics)@ == old(diagnostics)@ + ds
            &&& final(tokenizer).idx() == m
            &&& if tok.kind == TokenKind::Keyword(keyword) {
                r == Some(tok.span) && final(tokenizer).peeked() == None::<Token<'a>>
            } else {
                r == None::<SourceSpan<'a>> && final(tokenizer).peeked() == Some(tok)
            }
            &&& tok.wf_in(old(tokenizer).path(), old(tokenizer).src_ref())
        }),
        r is Some ==> final(tokenizer).measure() < old(tokenizer).measure(),
        r matches Some(span) ==> span.start() >= old(tokenizer).pos() && span.end() <= final(tokenizer).pos(),
{
    try_token(tokenizer, diagnostics, TokenKind::Keyword(keyword))
}

/// Takes the next token if it is the pseudo-keyword `keyword`, and returns its span.
pub fn try_pseudo_keyword<'a>(
    tokenizer: &mut Tokenizer<'a>,
    diagnostics: &mut Diagnostics<'a>,
    keyword: PseudoKeyword,
) -> (r: Option<SourceSpan<'a>>)
    requires
        old(tokenizer).wf(),
        old(diagnostics).wf(),
    ensures
        (r, state_of(*final(tokenizer), *final(diagnostics))) == g_try_token(input_of(*old(tokenizer)), state_of(*old(tokenizer), *old(diagnostics)), TokenKind::Identifier(Some(keyword))),
        parse_step(*old(tokenizer), *final(tokenizer), *old(diagnostics), *final(diagnostics)),
        ({
            let (tok, m, ds) = peek_outcome(*old(tokenizer));
            &&& final(diagnostics)@ == old(diagnostics)@ + ds
            &&& final(tokenizer).idx() == m
            &&& if tok.kind == TokenKind::Identifier(Some(keyword)) {
                r == Some(tok.span) && final(tokenizer).peeked() == None::<Token<'a>>
            } else {
                r == None::<SourceSpan<'a>> && final(tokenizer).peeked() == Some(tok)
            }
            &&& tok.wf_in(old(tokenizer).path(), old(tokenizer).src_ref())
        }),
        r is Some ==> final(tokenizer).measure() < old(tokenizer).measure(),
        r matches Some(span) ==> span.start() >= old(tokenizer).pos() && span.end() <= final(tokenizer).pos(),
{
    try_token(tokenizer, diagnostics, TokenKind::Identifier(Some(keyword)))
}

/// `expect_token` goes from `t0` (and the diagnostics `d0`) to `t1` (and `d1`) and returns
/// `r`: it takes the next token if it is `expected_token`, else reports `expectation` and
/// recovers as `mismatch_handling` says; either way it returns the span of that token.
pub open spec fn expect_token_outcome<'a>(
    t0: Tokenizer<'a>,
    t1: Tokenizer<'a>,
    d0: Seq<Diagnostic<'a>>,
    d1: Seq<Diagnostic<'a>>,
    expected_token: TokenKind,
    mismatch_handling: MismatchHandling,
    expectation: Expectation,
    r: Result<SourceSpan<'a>, FatalParsingError>,
) -> bool {
    let (tok, m, ds) = peek_outcome(t0);
    if tok.kind == expected_token {
        &&& r == Ok::<SourceSpan<'a>, FatalParsingError>(tok.span)
        &&& t1.idx() == m
        &&& t1.peeked() == None::<Token<'a>>
        &&& d1 == d0 + ds
    } else {
        let e = mismatch_effect(
            mismatch_handling,
            t0.path(),
            t0.src_ref(),
            m,
            tok,
            expectation.spec_wrap(spec_kind_from_token(tok)),
        );
        &&& r == if e.0 is Ok {
            Ok::<SourceSpan<'a>, FatalParsingError>(tok.span)
        } else {
            Err::<SourceSpan<'a>, FatalParsingError>(FatalParsingError)
        }
        &&& t1.idx() == e.1
        &&& t1.peeked() == e.2
        &&& d1 == d0 + ds + e.3
    }
}

/// Takes the next token if it is `expected_token`; else reports `expectation` at it and
/// recovers as `mismatch_handling` says. Returns the span of the token found.
pub fn expect_token<'a>(
    tokenizer: &mut Tokenizer<'a>,
    diagnostics: &mut Diagnostics<'a>,
    expected_token: TokenKind,
    mismatch_handling: MismatchHandling,
    expectation: Expectation,
) -> (r: Result<SourceSpan<'a>, FatalParsingError>)
    requires
        old(tokenizer).wf(),
        old(diagnostics).wf(),
    ensures
        (r, state_of(*final(tokenizer), *final(diagnostics))) == g_expect_token(input_of(*old(tokenizer)), state_of(*old(tokenizer), *old(diagnostics)), expected_token, mismatch_handling, expectation),
        parse_step(*old(tokenizer), *final(tokenizer), *old(diagnostics), *final(diagnostics)),
        expect_token_outcome(
            *old(tokenizer),
            *final(tokenizer),
            old(diagnostics)@,
            final(diagnostics)@,
            expected_token,
            mismatch_handling,
            expectation,
            r,
        ),
        r matches Ok(span) ==> span_in(*old(tokenizer), span) && span.start() >= old(tokenizer).pos(),
        mismatch_handling == MismatchHandling::Skip || mismatch_handling == MismatchHandling::Consume ==> r is Ok,
        r is Err ==> final(diagnostics)@.len() > 0 && final(diagnostics)@.last().level
            == DiagnosticLevel::Fatal,
{
    proof {
        lemma_peek_outcome(*tokenizer);
    }
    let token = peek_token(tokenizer, diagnostics);
    if token.kind == expected_token {
        let _ = tokenizer.next();
        return Ok(token.span);
    }
    proof {
        lemma_peek_token_spec_full(*tokenizer);
    }
    let ghost d1 = diagnostics@;
    let found = report_mismatch(tokenizer, diagnostics, mismatch_handling, expectation)?;
    proof {
        assert(old(diagnostics)@.is_prefix_of(diagnostics@)) by {
            assert(forall|x: int| 0 <= x < old(diagnostics)@.len() ==> diagnostics@[x] == d1[x]);
        }
        assert(diagnostics@ =~= old(diagnostics)@ + peek_outcome(*old(tokenizer)).2 + (
        diagnostics@.subrange(d1.len() as int, diagnostics@.len() as int)));
    }
    Ok(found.span)
}

/// Takes the next token if it is the symbol `symbol`; else reports an expected symbol and
/// recovers as `mismatch_handling` says.
pub fn expect_symbol<'a>(
    tokenizer: &mut Tokenizer<'a>,
    diagnostics: &mut Diagnostics<'a>,
    symbol: Symbol,
    mismatch_handling: MismatchHandling,
) -> (r: Result<SourceSpan<'a>, FatalParsingError>)
    requires
        old(tokenizer).wf(),
        old(diagnostics).wf(),
    ensures
        (r, state_of(*final(tokenizer), *final(diagnostics))) == g_expect_token(input_of(*old(tokenizer)), state_of(*old(tokenizer), *old(diagnostics)), TokenKind::Symbol(symbol), mismatch_handling, Expectation::Symbol(symbol)),
        parse_step(*old(tokenizer), *final(tokenizer), *old(diagnostics), *final(diagnostics)),
        expect_token_outcome(
            *old(tokenizer),
            *final(tokenizer),
            old(diagnostics)@,
            final(diagnostics)@,
            TokenKind::Symbol(symbol),
            mismatch_handling,
            Expectation::Symbol(symbol),
            r,
        ),
        r matches Ok(span) ==> span_in(*old(tokenizer), span) && span.start() >= old(tokenizer).pos(),
        mismatch_handling == MismatchHandling::Skip || mismatch_handling == MismatchHandling::Consume ==> r is Ok,
        r is Err ==> final(diagnostics)@.len() > 0 && final(diagnostics)@.last().level
            == DiagnosticLevel::Fatal,
{
    expect_token(tokenizer, diagnostics, TokenKind::Symbol(symbol), mismatch_handling, Expectation::Symbol(symbol))
}

/// Takes the next token if it is the keyword `keyword`; else reports an expected keyword
/// and recovers as `mismatch_handling` says.
pub fn expect_keyword<'a>(
    tokenizer: &mut Tokenizer<'a>,
    diagnostics: &mut Diagnostics<'a>,
    keyword: Keyword,
    mismatch_handling: MismatchHandling,
) -> (r: Result<SourceSpan<'a>, FatalParsingError>)
    requires
        old(tokenizer).wf(),
        old(diagnostics).wf(),
    ensures
        (r, state_of(*final(tokenizer), *final(diagnostics))) == g_expect_token(input_of(*old(tokenizer)), state_of(*old(tokenizer), *old(diagnostics)), TokenKind::Keyword(keyword), mismatch_handling, Expectation::Keyword(keyword)),
        parse_step(*old(tokenizer), *final(tokenizer), *old(diagnostics), *final(diagnostics)),
        expect_token_outcome(
            *old(tokenizer),
            *final(tokenizer),
            old(diagnostics)@,
            final(diagnostics)@,
            TokenKind::Keyword(keyword),
            mismatch_handling,
            Expectation::Keyword(keyword),
            r,
        ),
        r matches Ok(span) ==> span_in(*old(tokenizer), span) && span.start() >= old(tokenizer).pos(),
        mismatch_handling == MismatchHandling::Skip || mismatch_handling == MismatchHandling::Consume ==> r is Ok,
        r is Err ==> final(diagnostics)@.len() > 0 && final(diagnostics)@.last().level
            == DiagnosticLevel::Fatal,
{
    expect_token(tokenizer, diagnostics, TokenKind::Keyword(keyword), mismatch_handling, Expectation::Keyword(keyword))
}

/// Takes the next token if it is the pseudo-keyword `keyword`; else reports an expected
/// pseudo-keyword and recovers as `mismatch_handling` says.
pub fn expect_pseudo_keyword<'a>(
    tokenizer: &mut Tokenizer<'a>,
    diagnostics: &mut Diagnostics<'a>,
    keyword: PseudoKeyword,
    mismatch_handling: MismatchHandling,
) -> (r: Result<SourceSpan<'a>, FatalParsingError>)
    requires
        old(tokenizer).wf(),
        old(diagnostics).wf(),
    ensures
        (r, state_of(*final(tokenizer), *final(diagnostics))) == g_expect_token(input_of(*old(tokenizer)), state_of(*old(tokenizer), *old(diagnostics)), TokenKind::Identifier(Some(keyword)), mismatch_handling, Expectation::PseudoKeyword(keyword)),
        parse_step(*old(tokenizer), *final(tokenizer), *old(diagnostics), *final(diagnostics)),
        expect_token_outcome(
            *old(tokenizer),
            *final(tokenizer),
            old(diagnostics)@,
            final(diagnostics)@,
            TokenKind::Identifier(Some(keyword)),
            mismatch_handling,
            Expectation::PseudoKeyword(keyword),
            r,
        ),
        r matches Ok(span) ==> span_in(*old(tokenizer), span) && span.start() >= old(tokenizer).pos(),
        mismatch_handling == MismatchHandling::Skip || mismatch_handling == MismatchHandling::Consume ==> r is Ok,
        r is Err ==> final(diagnostics)@.len() > 0 && final(diagnostics)@.last().level
            == DiagnosticLevel::Fatal,
{
    expect_token(tokenizer, diagnostics, TokenKind::Identifier(Some(keyword)), mismatch_handling, Expectation::PseudoKeyword(keyword))
}

/// Hands back what a `try_parse` found; when it found nothing, reports `expectation` at the
/// next token, recovers as `mismatch_handling` says, and returns `fallback` with that
/// token's span.
pub fn expect_parse<'a, T>(
    tokenizer: &mut Tokenizer<'a>,
    diagnostics: &mut Diagnostics<'a>,
    mismatch_handling: MismatchHandling,
    parsed: Option<Spanned<'a, T>>,
    expectation: Expectation,
    fallback: T,
) -> (r: Result<Spanned<'a, T>, FatalParsingError>)
    requires
        old(tokenizer).wf(),
        old(diagnostics).wf(),
    ensures
        (r, state_of(*final(tokenizer), *final(diagnostics))) == g_expect_parse(input_of(*old(tokenizer)), state_of(*old(tokenizer), *old(diagnostics)), mismatch_handling, parsed, expectation, fallback),
        parse_step(*old(tokenizer), *final(tokenizer), *old(diagnostics), *final(diagnostics)),
        match parsed {
            Some(x) => r == Ok::<Spanned<'a, T>, FatalParsingError>(x) && *final(tokenizer)
                == *old(tokenizer) && final(diagnostics)@ == old(diagnostics)@,
            None => {
                let (tok, m, ds) = peek_outcome(*old(tokenizer));
                let e = mismatch_effect(
                    mismatch_handling,
                    old(tokenizer).path(),
                    old(tokenizer).src_ref(),
                    m,
                    tok,
                    expectation.spec_wrap(spec_kind_from_token(tok)),
                );
                &&& r == if e.0 is Ok {
                    Ok::<Spanned<'a, T>, FatalParsingError>(Spanned { span: tok.span, value: fallback })
                } else {
                    Err::<Spanned<'a, T>, FatalParsingError>(FatalParsingError)
                }
                &&& final(tokenizer).idx() == e.1
                &&& final(tokenizer).peeked() == e.2
                &&& final(diagnostics)@ == old(diagnostics)@ + ds + e.3
                &&& span_in(*old(tokenizer), tok.span)
            },
        },
        mismatch_handling == MismatchHandling::Skip || mismatch_handling == MismatchHandling::Consume ==> r is Ok,
        r is Err ==> final(diagnostics)@.len() > 0 && final(diagnostics)@.last().level
            == DiagnosticLevel::Fatal,
{
    match parsed {
        Some(result) => {
            assert(old(diagnostics)@.is_prefix_of(diagnostics@));
            Ok(result)
        },
        None => {
            let token = report_mismatch(tokenizer, diagnostics, mismatch_handling, expectation)?;
            Ok(token.span.into_spanned(fallback))
        },
    }
}


/// The last diagnostic is fatal.
pub open spec fn fatal_last<'a>(d: Seq<Diagnostic<'a>>) -> bool {
    d.len() > 0 && d.last().level == DiagnosticLevel::Fatal
}

/// Parsing steps compose.
pub broadcast proof fn lemma_parse_step_trans<'a>(
    t0: Tokenizer<'a>,
    t1: Tokenizer<'a>,
    t2: Tokenizer<'a>,
    d0: Diagnostics<'a>,
    d1: Diagnostics<'a>,
    d2: Diagnostics<'a>,
)
    requires
        #[trigger] parse_step(t0, t1, d0, d1),
        #[trigger] parse_step(t1, t2, d1, d2),
    ensures
        parse_step(t0, t2, d0, d2),
{
    assert(d0@ =~= d2@.subrange(0, d0@.len() as int)) by {
        assert forall|x: int| 0 <= x < d0@.len() implies d0@[x] == d2@[x] by {
            assert(d0@[x] == d1@[x]);
            assert(d1@[x] == d2@[x]);
        }
    }
}

/// The next token that `peek_token` finds.
pub open spec fn next_token<'a>(t: Tokenizer<'a>) -> Token<'a> {
    peek_outcome(t).0
}

/// The token after the next one: what `peek_token` finds once the next token is taken.
pub open spec fn token_after<'a>(t: Tokenizer<'a>) -> Token<'a> {
    peek_token_spec(t.path(), t.src_ref(), peek_outcome(t).1, None).0
}

/// The pseudo-keyword of an identifier token; `None` for any other token.
pub open spec fn ident_pseudo(k: TokenKind) -> Option<PseudoKeyword> {
    match k {
        TokenKind::Identifier(pseudo) => pseudo,
        _ => None,
    }
}

/// The tokenizer took nothing: the next token was only peeked at.
pub open spec fn took_nothing<'a>(
    t0: Tokenizer<'a>,
    t1: Tokenizer<'a>,
    d0: Seq<Diagnostic<'a>>,
    d1: Seq<Diagnostic<'a>>,
) -> bool {
    let (tok, m, ds) = peek_outcome(t0);
    &&& t1.idx() == m
    &&& t1.peeked() == Some(tok)
    &&& d1 == d0 + ds
}

/// What every `try_parse` promises, where `starts` tells whether the next token can start
/// what it parses: nothing is taken when it cannot, and something is found (or a fatal
/// error reported) when it can; a result spans from the next token on, and was read from
/// the text.
pub open spec fn try_parse_post<'a, T>(
    t0: Tokenizer<'a>,
    t1: Tokenizer<'a>,
    d0: Diagnostics<'a>,
    d1: Diagnostics<'a>,
    r: Result<Option<Spanned<'a, T>>, FatalParsingError>,
    starts: bool,
) -> bool {
    &&& parse_step(t0, t1, d0, d1)
    &&& !starts ==> (r matches Ok(None)) && took_nothing(t0, t1, d0@, d1@)
    &&& starts ==> !(r matches Ok(None))
    &&& r matches Ok(Some(x)) ==> span_in(t0, x.span) && x.span.start() == next_token(t0).span.start()
        && t1.measure() < t0.measure() && t1.pos() >= x.span.start()
    &&& r is Err ==> fatal_last(d1@)
}

/// What a loop that parses one item after another keeps of the items found so far, from
/// the tokenizer `t0` it started with to the tokenizer `t1` it stands at: the first item
/// starts at the next token of `t0`, the last one starts no earlier, and something was
/// taken.
pub open spec fn items_post<'a, T>(t0: Tokenizer<'a>, t1: Tokenizer<'a>, items: Seq<Spanned<'a, T>>) -> bool {
    &&& items.len() > 0
    &&& span_in(t0, items[0].span)
    &&& span_in(t0, items.last().span)
    &&& items[0].span.start() == next_token(t0).span.start()
    &&& items.last().span.start() >= items[0].span.start()
    &&& t1.pos() >= items.last().span.start()
    &&& t1.measure() < t0.measure()
}

/// Like `items_post`, but the first item may start after the next token of `t0`.
pub open spec fn items_post_within<'a, T>(t0: Tokenizer<'a>, t1: Tokenizer<'a>, items: Seq<Spanned<'a, T>>) -> bool {
    &&& items.len() > 0
    &&& span_in(t0, items[0].span)
    &&& span_in(t0, items.last().span)
    &&& items[0].span.start() >= next_token(t0).span.start()
    &&& items.last().span.start() >= items[0].span.start()
    &&& t1.pos() >= items.last().span.start()
    &&& t1.measure() < t0.measure()
}

/// What every `expect_parse` promises: a result spans from the next token on.
pub open spec fn expect_parse_post<'a, T>(
    t0: Tokenizer<'a>,
    t1: Tokenizer<'a>,
    d0: Diagnostics<'a>,
    d1: Diagnostics<'a>,
    r: Result<Spanned<'a, T>, FatalParsingError>,
) -> bool {
    &&& parse_step(t0, t1, d0, d1)
    &&& r matches Ok(x) ==> span_in(t0, x.span) && x.span.start() == next_token(t0).span.start()
    &&& r is Err ==> fatal_last(d1@)
}

/// A symbol path starts with an identifier or `type`.
pub open spec fn starts_symbol_path(k: TokenKind) -> bool {
    k is Identifier || k == TokenKind::Keyword(Keyword::Type)
}

/// A vector type starts with `vec`, a matrix type with `mat`.
pub open spec fn starts_vector(k: TokenKind) -> bool {
    k == TokenKind::Identifier(Some(PseudoKeyword::Vec)) || k == TokenKind::Identifier(Some(PseudoKeyword::Mat))
}

/// A resource type starts with the name of a resource.
pub open spec fn starts_resource(k: TokenKind) -> bool {
    crate::parser::parse_tree::ty::resource::ResourceKind::spec_from_token(k) is Some
}

/// A type starts as a symbol path does (which covers `vec`, `mat` and the resource names),
/// or with `[`, `&` or `*`.
pub open spec fn starts_ty(k: TokenKind) -> bool {
    ||| starts_symbol_path(k)
    ||| k == TokenKind::Symbol(Symbol::BracketOpen)
    ||| k == TokenKind::Symbol(Symbol::BitwiseAnd)
    ||| k == TokenKind::Symbol(Symbol::Multiply)
}

/// An array literal starts with `[`, a vector literal with `vec`, a matrix literal with
/// `mat`.
pub open spec fn starts_array(k: TokenKind) -> bool {
    k == TokenKind::Symbol(Symbol::BracketOpen) || starts_vector(k)
}

/// An atom starts as an array literal or a symbol path does, or with a number, `true`,
/// `false` or `(`.
pub open spec fn starts_atom(k: TokenKind) -> bool {
    ||| starts_array(k)
    ||| starts_symbol_path(k)
    ||| k is NumberLiteral
    ||| k == TokenKind::Keyword(Keyword::True)
    ||| k == TokenKind::Keyword(Keyword::False)
    ||| k == TokenKind::Symbol(Symbol::ParenOpen)
}

/// `+`, `-`, `!` and `~`.
pub open spec fn is_prefix_operator_token(k: TokenKind) -> bool {
    ||| k == TokenKind::Symbol(Symbol::Add)
    ||| k == TokenKind::Symbol(Symbol::Subtract)
    ||| k == TokenKind::Symbol(Symbol::Not)
    ||| k == TokenKind::Symbol(Symbol::BitwiseNot)
}

/// An expression starts as an atom does, or with a prefix operator.
pub open spec fn starts_expr(k: TokenKind) -> bool {
    starts_atom(k) || is_prefix_operator_token(k)
}

/// A generic argument starts with `const` or as a type does.
pub open spec fn starts_generic_argument(k: TokenKind) -> bool {
    k == TokenKind::Keyword(Keyword::Const) || starts_ty(k)
}

/// The token at hand after a step that took nothing is the one peeked before it.
pub proof fn lemma_took_nothing<'a>(
    t0: Tokenizer<'a>,
    t1: Tokenizer<'a>,
    d0: Diagnostics<'a>,
    d1: Diagnostics<'a>,
)
    requires
        t0.wf(),
        took_nothing(t0, t1, d0@, d1@),
    ensures
        peek_outcome(t1) == (next_token(t0), t1.idx(), Seq::<Diagnostic<'a>>::empty()),
{
    lemma_peek_token_spec_full(t1);
}

/// Steps that take nothing compose.
pub proof fn lemma_took_nothing_trans<'a>(
    t0: Tokenizer<'a>,
    t1: Tokenizer<'a>,
    t2: Tokenizer<'a>,
    d0: Diagnostics<'a>,
    d1: Diagnostics<'a>,
    d2: Diagnostics<'a>,
)
    requires
        t0.wf(),
        took_nothing(t0, t1, d0@, d1@),
        took_nothing(t1, t2, d1@, d2@),
    ensures
        took_nothing(t0, t2, d0@, d2@),
        next_token(t2) == next_token(t0),
{
    lemma_peek_token_spec_full(t1);
    lemma_peek_token_spec_full(t2);
    assert(d2@ =~= d0@ + peek_outcome(t0).2);
}

/// The next token is a well-formed token of the text, read no earlier than the lookahead
/// position.
pub broadcast proof fn lemma_next_token<'a>(t: Tokenizer<'a>)
    requires
        t.wf(),
    ensures
        (#[trigger] next_token(t)).wf_in(t.path(), t.src_ref()),
        next_token(t).span.start() >= t.pos(),
        next_token(t).span.end() <= peek_outcome(t).1,
{
    lemma_peek_outcome(t);
}

/// Like `try_parse_post`, but a result may start after the next token (when the next token
/// is a prefix that the result leaves out).
pub open spec fn try_parse_post_within<'a, T>(
    t0: Tokenizer<'a>,
    t1: Tokenizer<'a>,
    d0: Diagnostics<'a>,
    d1: Diagnostics<'a>,
    r: Result<Option<Spanned<'a, T>>, FatalParsingError>,
    starts: bool,
) -> bool {
    &&& parse_step(t0, t1, d0, d1)
    &&& !starts ==> (r matches Ok(None)) && took_nothing(t0, t1, d0@, d1@)
    &&& starts ==> !(r matches Ok(None))
    &&& r matches Ok(Some(x)) ==> span_in(t0, x.span) && x.span.start() >= next_token(t0).span.start()
        && t1.measure() < t0.measure() && t1.pos() >= x.span.start()
    &&& r is Err ==> fatal_last(d1@)
}

/// Parses a list: `starting_symbol`, items parsed by `expect_parse` (which recovers with
/// `ConsumeUntilSafe`) separated by `delimiter`, and `closing_symbol`; with
/// `allow_trailing`, a delimiter may come last. Where the list does not go on with
/// `delimiter` or `closing_symbol`, that is reported and the token taken. `None` when the
/// next token is not `starting_symbol`. `step` is what `expect_parse` does, as a function of
/// where parsing stands.
pub fn try_list<'a, T, F>(
    tokenizer: &mut Tokenizer<'a>,
    diagnostics: &mut Diagnostics<'a>,
    expect_parse: F,
    starting_symbol: Symbol,
    closing_symbol: Symbol,
    delimiter: Symbol,
    allow_trailing: bool,
    Ghost(step): Ghost<spec_fn(ParseInput<'a>, ParseState<'a>, MismatchHandling) -> Expected<'a, T>>,
) -> (r: Result<Option<Spanned<'a, Vec<Spanned<'a, T>>>>, FatalParsingError>) where
    F: Fn(&mut Tokenizer<'a>, &mut Diagnostics<'a>, MismatchHandling) -> Result<
        Spanned<'a, T>,
        FatalParsingError,
    >,

    requires
        old(tokenizer).wf(),
        old(diagnostics).wf(),
        forall|t: &mut Tokenizer<'a>, d: &mut Diagnostics<'a>, m: MismatchHandling|
            t.wf() && d.wf() ==> #[trigger] call_requires(expect_parse, (t, d, m)),
        forall|t: &mut Tokenizer<'a>, d: &mut Diagnostics<'a>, m: MismatchHandling, r: Result<
            Spanned<'a, T>,
            FatalParsingError,
        >|
            #[trigger] call_ensures(expect_parse, (t, d, m), r) ==> expect_parse_post(
                *t,
                *final(t),
                *d,
                *final(d),
                r,
            ),
        forall|t: &mut Tokenizer<'a>, d: &mut Diagnostics<'a>, m: MismatchHandling, r: Result<
            Spanned<'a, T>,
            FatalParsingError,
        >|
            #[trigger] call_ensures(expect_parse, (t, d, m), r) ==> (r, state_of(*final(t), *final(d)))
                == step(input_of(*t), state_of(*t, *d), m),
    ensures
        (
            match r {
                Ok(Some(x)) => Ok(Some(Spanned { span: x.span, value: x.value@ })),
                Ok(None) => Ok(None),
                Err(e) => Err(e),
            },
            state_of(*final(tokenizer), *final(diagnostics)),
        ) == g_list(
            step,
            input_of(*old(tokenizer)),
            state_of(*old(tokenizer), *old(diagnostics)),
            starting_symbol,
            closing_symbol,
            delimiter,
            allow_trailing,
        ),
        try_parse_post(
            *old(tokenizer),
            *final(tokenizer),
            *old(diagnostics),
            *final(diagnostics),
            r,
            next_token(*old(tokenizer)).kind == TokenKind::Symbol(starting_symbol),
        ),
{
    let ghost t0 = *tokenizer;
    let ghost d0 = *diagnostics;
    proof {
        lemma_peek_outcome(t0);
    }
    let start = match try_symbol(tokenizer, diagnostics, starting_symbol) {
        Some(start) => start,
        None => return Ok(None),
    };
    let ghost c = input_of(t0);
    let ghost target = g_list_from(
        step,
        c,
        state_of(*tokenizer, *diagnostics),
        start,
        closing_symbol,
        delimiter,
        allow_trailing,
        Seq::empty(),
    );
    proof {
        tokenizer.lemma_wf();
        assert(g_list_outcome_matches(
            g_list(step, c, state_of(t0, d0), starting_symbol, closing_symbol, delimiter, allow_trailing),
            target,
        ));
    }
    let mut values: Vec<Spanned<'a, T>> = Vec::new();
    loop
        invariant
            c == input_of(t0),
            g_list_from(
                step,
                c,
                state_of(*tokenizer, *diagnostics),
                start,
                closing_symbol,
                delimiter,
                allow_trailing,
                values@,
            ) == target,
            g_list_outcome_matches(
                g_list(step, c, state_of(t0, d0), starting_symbol, closing_symbol, delimiter, allow_trailing),
                target,
            ),
            t0 == *old(tokenizer),
            d0 == *old(diagnostics),
            next_token(t0).kind == TokenKind::Symbol(starting_symbol),
            t0.wf(),
            parse_step(t0, *tokenizer, d0, *diagnostics),
            tokenizer.measure() < t0.measure(),
            tokenizer.pos() >= start.end(),
            span_in(t0, start),
            start.start() == next_token(t0).span.start(),
            forall|t: &mut Tokenizer<'a>, d: &mut Diagnostics<'a>, m: MismatchHandling|
                t.wf() && d.wf() ==> #[trigger] call_requires(expect_parse, (t, d, m)),
            forall|t: &mut Tokenizer<'a>, d: &mut Diagnostics<'a>, m: MismatchHandling, r: Result<
                Spanned<'a, T>,
                FatalParsingError,
            >|
                #[trigger] call_ensures(expect_parse, (t, d, m), r) ==> expect_parse_post(
                    *t,
                    *final(t),
                    *d,
                    *final(d),
                    r,
                ),
            forall|t: &mut Tokenizer<'a>, d: &mut Diagnostics<'a>, m: MismatchHandling, r: Result<
                Spanned<'a, T>,
                FatalParsingError,
            >|
                #[trigger] call_ensures(expect_parse, (t, d, m), r) ==> (r, state_of(*final(t), *final(d)))
                    == step(input_of(*t), state_of(*t, *d), m),
        decreases tokenizer.measure(),
    {
        proof {
            reveal_with_fuel(g_list_from, 1);
            tokenizer.lemma_wf();
        }
        if values.len() == 0 || allow_trailing {
            if let Some(end) = try_symbol(tokenizer, diagnostics, closing_symbol) {
                return Ok(Some(start.join(end).into_spanned(values)));
            }
        }
        let value = expect_parse(tokenizer, diagnostics, MismatchHandling::ConsumeUntilSafe)?;
        values.push(value);
        proof {
            tokenizer.lemma_wf();
        }
        if try_symbol(tokenizer, diagnostics, delimiter).is_some() {
            proof {
                tokenizer.lemma_wf();
            }
            continue;
        }
        let end = expect_symbol(tokenizer, diagnostics, closing_symbol, MismatchHandling::Consume)?;
        return Ok(Some(start.join(end).into_spanned(values)));
    }
}

/// Parses items with `try_parse` for as long as it finds one; `None` when it finds none.
/// `starts` tells which tokens an item begins with.
pub fn try_many<'a, T, F>(
    tokenizer: &mut Tokenizer<'a>,
    diagnostics: &mut Diagnostics<'a>,
    try_parse: F,
    Ghost(starts): Ghost<spec_fn(TokenKind) -> bool>,
    Ghost(step): Ghost<spec_fn(ParseInput<'a>, ParseState<'a>) -> Parsed<'a, T>>,
) -> (r: Result<Option<Spanned<'a, Vec<Spanned<'a, T>>>>, FatalParsingError>) where
    F: Fn(&mut Tokenizer<'a>, &mut Diagnostics<'a>) -> Result<Option<Spanned<'a, T>>, FatalParsingError>,

    requires
        old(tokenizer).wf(),
        old(diagnostics).wf(),
        forall|t: &mut Tokenizer<'a>, d: &mut Diagnostics<'a>|
            t.wf() && d.wf() ==> #[trigger] call_requires(try_parse, (t, d)),
        forall|t: &mut Tokenizer<'a>, d: &mut Diagnostics<'a>, r: Result<Option<Spanned<'a, T>>, FatalParsingError>|
            #[trigger] call_ensures(try_parse, (t, d), r) ==> try_parse_post(
                *t,
                *final(t),
                *d,
                *final(d),
                r,
                starts(next_token(*t).kind),
            ),
        forall|t: &mut Tokenizer<'a>, d: &mut Diagnostics<'a>, r: Result<Option<Spanned<'a, T>>, FatalParsingError>|
            #[trigger] call_ensures(try_parse, (t, d), r) ==> (r, state_of(*final(t), *final(d)))
                == step(input_of(*t), state_of(*t, *d)),
    ensures
        (
            match r {
                Ok(Some(x)) => Ok(Some(Spanned { span: x.span, value: x.value@ })),
                Ok(None) => Ok(None),
                Err(e) => Err(e),
            },
            state_of(*final(tokenizer), *final(diagnostics)),
        ) == g_many_parsed(step, input_of(*old(tokenizer)), state_of(*old(tokenizer), *old(diagnostics))),
        try_parse_post(
            *old(tokenizer),
            *final(tokenizer),
            *old(diagnostics),
            *final(diagnostics),
            r,
            starts(next_token(*old(tokenizer)).kind),
        ),
        r matches Ok(Some(x)) ==> x.value.len() >= 1,
{
    let ghost t0 = *tokenizer;
    let ghost d0 = *diagnostics;
    let ghost c = input_of(t0);
    let mut values: Vec<Spanned<'a, T>> = Vec::new();
    loop
        invariant_except_break
            values.len() == 0 ==> *tokenizer == t0 && *diagnostics == d0,
            g_many_parsed_from(step, c, state_of(t0, d0), Seq::empty()) == g_many_parsed_from(
                step,
                c,
                state_of(*tokenizer, *diagnostics),
                values@,
            ),
        invariant
            c == input_of(t0),
            forall|t: &mut Tokenizer<'a>, d: &mut Diagnostics<'a>, r: Result<Option<Spanned<'a, T>>, FatalParsingError>|
                #[trigger] call_ensures(try_parse, (t, d), r) ==> (r, state_of(*final(t), *final(d)))
                    == step(input_of(*t), state_of(*t, *d)),
            t0 == *old(tokenizer),
            d0 == *old(diagnostics),
            t0.wf(),
            d0.wf(),
            parse_step(t0, *tokenizer, d0, *diagnostics),
            values.len() > 0 ==> items_post(t0, *tokenizer, values@) && starts(next_token(t0).kind),
            forall|t: &mut Tokenizer<'a>, d: &mut Diagnostics<'a>|
                t.wf() && d.wf() ==> #[trigger] call_requires(try_parse, (t, d)),
            forall|t: &mut Tokenizer<'a>, d: &mut Diagnostics<'a>, r: Result<Option<Spanned<'a, T>>, FatalParsingError>|
                #[trigger] call_ensures(try_parse, (t, d), r) ==> try_parse_post(
                    *t,
                    *final(t),
                    *d,
                    *final(d),
                    r,
                    starts(next_token(*t).kind),
                ),
        ensures
            g_many_parsed_from(step, c, state_of(t0, d0), Seq::empty()) == (
                Ok::<Seq<Spanned<'a, T>>, FatalParsingError>(values@),
                state_of(*tokenizer, *diagnostics),
            ),
            parse_step(t0, *tokenizer, d0, *diagnostics),
            values.len() == 0 ==> took_nothing(t0, *tokenizer, d0@, diagnostics@) && !starts(
                next_token(t0).kind,
            ),
            values.len() > 0 ==> items_post(t0, *tokenizer, values@) && starts(next_token(t0).kind),
        decreases tokenizer.measure(),
    {
        proof {
            lemma_next_token(*tokenizer);
            reveal_with_fuel(g_many_parsed_from, 1);
            tokenizer.lemma_wf();
        }
        let value = match try_parse(tokenizer, diagnostics)? {
            Some(value) => value,
            None => break,
        };
        values.push(value);
        proof {
            tokenizer.lemma_wf();
        }
    }
    if values.len() == 0 {
        return Ok(None);
    }
    let span = values[0].span.join(values[values.len() - 1].span);
    Ok(Some(span.into_spanned(values)))
}

/// Parses items with `try_parse`, which cannot fail, for as long as it finds one; `None`
/// when it finds none. `starts` tells which tokens an item begins with.
pub fn try_many_infallible<'a, T, F>(
    tokenizer: &mut Tokenizer<'a>,
    diagnostics: &mut Diagnostics<'a>,
    try_parse: F,
    Ghost(starts): Ghost<spec_fn(TokenKind) -> bool>,
    Ghost(step): Ghost<spec_fn(ParseInput<'a>, ParseState<'a>) -> (Option<Spanned<'a, T>>, ParseState<'a>)>,
) -> (r: Option<Spanned<'a, Vec<Spanned<'a, T>>>>) where
    F: Fn(&mut Tokenizer<'a>, &mut Diagnostics<'a>) -> Option<Spanned<'a, T>>,

    requires
        old(tokenizer).wf(),
        old(diagnostics).wf(),
        forall|t: &mut Tokenizer<'a>, d: &mut Diagnostics<'a>|
            t.wf() && d.wf() ==> #[trigger] call_requires(try_parse, (t, d)),
        forall|t: &mut Tokenizer<'a>, d: &mut Diagnostics<'a>, r: Option<Spanned<'a, T>>|
            #[trigger] call_ensures(try_parse, (t, d), r) ==> try_parse_post(
                *t,
                *final(t),
                *d,
                *final(d),
                Ok::<Option<Spanned<'a, T>>, FatalParsingError>(r),
                starts(next_token(*t).kind),
            ),
        forall|t: &mut Tokenizer<'a>, d: &mut Diagnostics<'a>, r: Option<Spanned<'a, T>>|
            #[trigger] call_ensures(try_parse, (t, d), r) ==> (r, state_of(*final(t), *final(d)))
                == step(input_of(*t), state_of(*t, *d)),
    ensures
        (
            match r {
                Some(x) => Some(Spanned { span: x.span, value: x.value@ }),
                None => None,
            },
            state_of(*final(tokenizer), *final(diagnostics)),
        ) == g_many(step, input_of(*old(tokenizer)), state_of(*old(tokenizer), *old(diagnostics))),
        try_parse_post(
            *old(tokenizer),
            *final(tokenizer),
            *old(diagnostics),
            *final(diagnostics),
            Ok::<Option<Spanned<'a, Vec<Spanned<'a, T>>>>, FatalParsingError>(r),
            starts(next_token(*old(tokenizer)).kind),
        ),
        Ok::<Option<Spanned<'a, Vec<Spanned<'a, T>>>>, FatalParsingError>(r) matches Ok(Some(x)) ==> x.value.len() >= 1,
{
    let ghost t0 = *tokenizer;
    let ghost d0 = *diagnostics;
    let ghost c = input_of(t0);
    let mut values: Vec<Spanned<'a, T>> = Vec::new();
    loop
        invariant_except_break
            values.len() == 0 ==> *tokenizer == t0 && *diagnostics == d0,
            g_many_from(step, c, state_of(t0, d0), Seq::empty()) == g_many_from(
                step,
                c,
                state_of(*tokenizer, *diagnostics),
                values@,
            ),
        invariant
            c == input_of(t0),
            forall|t: &mut Tokenizer<'a>, d: &mut Diagnostics<'a>, r: Option<Spanned<'a, T>>|
                #[trigger] call_ensures(try_parse, (t, d), r) ==> (r, state_of(*final(t), *final(d)))
                    == step(input_of(*t), state_of(*t, *d)),
            t0 == *old(tokenizer),
            d0 == *old(diagnostics),
            t0.wf(),
            d0.wf(),
            parse_step(t0, *tokenizer, d0, *diagnostics),
            values.len() > 0 ==> items_post(t0, *tokenizer, values@) && starts(next_token(t0).kind),
            forall|t: &mut Tokenizer<'a>, d: &mut Diagnostics<'a>|
                t.wf() && d.wf() ==> #[trigger] call_requires(try_parse, (t, d)),
            forall|t: &mut Tokenizer<'a>, d: &mut Diagnostics<'a>, r: Option<Spanned<'a, T>>|
                #[trigger] call_ensures(try_parse, (t, d), r) ==> try_parse_post(
                    *t,
                    *final(t),
                    *d,
                    *final(d),
                    Ok::<Option<Spanned<'a, T>>, FatalParsingError>(r),
                    starts(next_token(*t).kind),
                ),
        ensures
            g_many_from(step, c, state_of(t0, d0), Seq::empty()) == (values@, state_of(*tokenizer, *diagnostics)),
            parse_step(t0, *tokenizer, d0, *diagnostics),
            values.len() == 0 ==> took_nothing(t0, *tokenizer, d0@, diagnostics@) && !starts(
                next_token(t0).kind,
            ),
            values.len() > 0 ==> items_post(t0, *tokenizer, values@) && starts(next_token(t0).kind),
        decreases tokenizer.measure(),
    {
        proof {
            lemma_next_token(*tokenizer);
            reveal_with_fuel(g_many_from, 1);
            tokenizer.lemma_wf();
        }
        let value = match try_parse(tokenizer, diagnostics) {
            Some(value) => value,
            None => break,
        };
        values.push(value);
        proof {
            tokenizer.lemma_wf();
        }
    }
    if values.len() == 0 {
        return None;
    }
    let span = values[0].span.join(values[values.len() - 1].span);
    Some(span.into_spanned(values))
}

} // verus!
