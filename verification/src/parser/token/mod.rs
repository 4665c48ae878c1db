use vstd::prelude::*;

pub mod ident;
pub mod keyword;
pub mod lexical;
pub mod number;
pub mod symbol;

use crate::parser::source::{
    group_index_nonneg, lemma_starts_with_pair, starts_with_at,
    SourceCursor, SourceSpan,
};
use crate::parser::token::{
    ident::PseudoKeyword,
    keyword::Keyword,
    lexical::{
        block_comment_end, is_not_newline, is_not_quote, is_whitespace, lemma_block_comment_end_bounds,
        lemma_run_end_bounds, lemma_run_end_unique, lemma_skip_trivia_bounds, run_end, skip_trivia,
        spec_is_ident_cont, spec_is_ident_start, spec_is_whitespace,
    },
    number::{lemma_lex_number_bounds, lex_number, NumberLiteral, NumberScan},
    symbol::Symbol,
};

verus! {

broadcast use group_index_nonneg;

/// `text` spells `s`.
pub fn chars_eq_str(text: &[char], s: &str) -> (r: bool)
    ensures
        r == (text@ == s@),
{
    let n = s.unicode_len();
    if n != text.len() {
        return false;
    }
    let mut k: usize = 0;
    while k < n
        invariant
            n == s@.len(),
            n == text@.len(),
            0 <= k <= n,
            forall|j: int| 0 <= j < k ==> text@[j] == s@[j],
        decreases n - k,
    {
        if text[k] != s.get_char(k) {
            return false;
        }
        k = k + 1;
    }
    assert(text@ =~= s@);
    true
}

/// What a token is.
#[derive(Clone, Copy, Debug, PartialEq, Eq, Structural)]
pub enum TokenKind {
    Identifier(Option<PseudoKeyword>),
    Keyword(Keyword),
    Symbol(Symbol),
    NumberLiteral(NumberLiteral),
    StringLiteral,
    Eof,
}

/// A token and the text it was read from.
#[derive(Clone, Copy)]
pub struct Token<'a> {
    pub span: SourceSpan<'a>,
    pub kind: TokenKind,
}

/// Why the tokenizer could not read a token.
#[derive(Clone, Copy, Debug, PartialEq, Eq, Structural)]
pub enum TokenErrorKind {
    UnexpectedCharacter(char),
    UnclosedMultilineComment,
    NumberTrailingUnderscore,
    ExpectedDigits,
    ExpectedExponentDigits,
    UnclosedStringLiteral,
}

/// A tokenizer error and the text where it was found.
#[derive(Clone, Copy)]
pub struct TokenError<'a> {
    pub span: SourceSpan<'a>,
    pub kind: TokenErrorKind,
}

/// Reads the tokens of a source text one by one, with one token of lookahead.
pub struct Tokenizer<'a> {
    cursor: SourceCursor<'a>,
    peek: Option<Token<'a>>,
}

/// The kind of a word token: a keyword, or else an identifier (maybe a pseudo-keyword).
pub open spec fn ident_kind(text: Seq<char>) -> TokenKind {
    match Keyword::spec_from(text) {
        Some(k) => TokenKind::Keyword(k),
        None => TokenKind::Identifier(PseudoKeyword::spec_from(text)),
    }
}

/// What the tokenizer reads from index `i` of `s` on: the token kind or the error, and the
/// start and end of its span; the tokenizer goes on from the end.
/// Comments and whitespace come first; then, at the end of the text, `Eof`; then the first
/// of: an identifier or keyword, a number, a symbol, a string literal; any other character
/// is an error of its own.
#[verifier::opaque]
pub open spec fn lex_step(s: Seq<char>, i: int) -> (Result<TokenKind, TokenErrorKind>, int, int) {
    match skip_trivia(s, i) {
        Err(c) => (Err(TokenErrorKind::UnclosedMultilineComment), c, s.len() as int),
        Ok(t) => if t < 0 || t >= s.len() {
            (Ok(TokenKind::Eof), t, t)
        } else if spec_is_ident_start(s[t]) {
            let e = run_end(s, t, |c: char| spec_is_ident_cont(c));
            (Ok(ident_kind(s.subrange(t, e))), t, e)
        } else {
            match lex_number(s, t) {
                NumberScan::Error(k, e) => (Err(k), t, e),
                NumberScan::Number(n, e) => (Ok(TokenKind::NumberLiteral(n)), t, e),
                NumberScan::NoNumber => match Symbol::spec_at(s, t) {
                    Some(sym) => (Ok(TokenKind::Symbol(sym)), t, t + sym.spec_repr().len()),
                    None => if s[t] == '"' {
                        let e = run_end(s, t + 1, |c: char| is_not_quote(c));
                        if e < s.len() {
                            (Ok(TokenKind::StringLiteral), t, e + 1)
                        } else {
                            (Err(TokenErrorKind::UnclosedStringLiteral), t, s.len() as int)
                        }
                    } else {
                        (Err(TokenErrorKind::UnexpectedCharacter(s[t])), t, t + 1)
                    },
                },
            }
        },
    }
}

/// The token or error that the tokenizer reads from index `i` of `source` on.
pub open spec fn lex_result<'a>(file_path: Option<&'a str>, source: &'a [char], i: int) -> Result<
    Token<'a>,
    TokenError<'a>,
> {
    let (r, a, b) = lex_step(source@, i);
    match r {
        Ok(kind) => Ok(Token { span: SourceSpan::spec_new(file_path, source, a, b), kind }),
        Err(kind) => Err(TokenError { span: SourceSpan::spec_new(file_path, source, a, b), kind }),
    }
}

/// Reading never goes back; only `Eof` reads nothing, and it stands at the end of the text.
pub proof fn lemma_lex_step_bounds(s: Seq<char>, i: int)
    requires
        0 <= i <= s.len(),
    ensures
        ({
            let (r, a, b) = lex_step(s, i);
            &&& i <= a <= b <= s.len()
            &&& r == Ok::<TokenKind, TokenErrorKind>(TokenKind::Eof) ==> a == b == s.len()
            &&& r != Ok::<TokenKind, TokenErrorKind>(TokenKind::Eof) ==> a < b
        }),
{
    reveal(lex_step);
    lemma_skip_trivia_bounds(s, i);
    match skip_trivia(s, i) {
        Err(c) => {},
        Ok(t) => {
            if t < s.len() {
                if spec_is_ident_start(s[t]) {
                    lemma_run_end_bounds(s, t, |c: char| spec_is_ident_cont(c));
                } else {
                    lemma_lex_number_bounds(s, t);
                    if lex_number(s, t) is NoNumber {
                        Symbol::lemma_spec_at(s, t);
                        lemma_run_end_bounds(s, t + 1, |c: char| is_not_quote(c));
                    }
                }
            }
        },
    }
}

/// Twice the number of characters left after index `i` of a text of length `len`, plus one
/// while a token other than `Eof` waits in the lookahead `peek`.
pub open spec fn tokenizer_measure<'a>(len: int, i: int, peek: Option<Token<'a>>) -> int {
    2 * (len - i) + match peek {
        Some(t) => if t.kind == TokenKind::Eof {
            0int
        } else {
            1int
        },
        None => 0int,
    }
}

/// An `Eof` token read from a text of length `len`, with the tokenizer at `i`, has an empty
/// span at the end of the text, and the tokenizer stands there.
pub open spec fn eof_at_end<'a>(len: int, i: int, t: Token<'a>) -> bool {
    t.kind == TokenKind::Eof ==> t.span.start() == len && t.span.end() == len && i == len
}

/// Where the next token starts at the earliest: the start of the token in the lookahead,
/// or else index `i`.
pub open spec fn lookahead_pos<'a>(i: int, peek: Option<Token<'a>>) -> int {
    match peek {
        Some(t) => t.span.start(),
        None => i,
    }
}

/// A well-formed tokenizer's measure is never negative.
pub broadcast proof fn lemma_tokenizer_measure_nonneg<'a>(t: Tokenizer<'a>)
    requires
        t.wf(),
    ensures
        #[trigger] t.measure() >= 0,
{
    t.lemma_wf();
}

impl<'a> Token<'a> {
    /// The token's span is a well-formed span of the given text.
    pub open spec fn wf_in(&self, file_path: Option<&'a str>, source: &'a [char]) -> bool {
        self.span.wf_in(file_path, source)
    }
}

impl<'a> Tokenizer<'a> {
    pub closed spec fn cursor(&self) -> SourceCursor<'a> {
        self.cursor
    }

    /// The token that was peeked and not yet taken.
    pub closed spec fn peeked(&self) -> Option<Token<'a>> {
        self.peek
    }

    pub open spec fn src(&self) -> Seq<char> {
        self.cursor().src()
    }

    pub open spec fn src_ref(&self) -> &'a [char] {
        self.cursor().src_ref()
    }

    pub open spec fn path(&self) -> Option<&'a str> {
        self.cursor().path()
    }

    /// Where the tokenizer reads the next token (after the peeked one, if any).
    pub open spec fn idx(&self) -> int {
        self.cursor().idx()
    }

    pub open spec fn wf(&self) -> bool {
        &&& self.cursor().wf()
        &&& self.cursor().rb() == self.cursor().idx()
        &&& self.peeked() matches Some(t) ==> t.wf_in(self.path(), self.src_ref()) && t.span.end()
            <= self.idx()
        &&& self.peeked() matches Some(t) ==> eof_at_end(self.src().len() as int, self.idx(), t)
    }

    /// The same text and file.
    pub open spec fn same_text(&self, other: &Self) -> bool {
        self.cursor().same_text(&other.cursor())
    }

    /// Twice the number of characters left, plus one while a token other than `Eof` waits
    /// in the lookahead: every token taken makes it smaller.
    pub open spec fn measure(&self) -> int {
        tokenizer_measure(self.src().len() as int, self.idx(), self.peeked())
    }

    /// Where the next token starts at the earliest.
    pub open spec fn pos(&self) -> int {
        lookahead_pos(self.idx(), self.peeked())
    }

    pub proof fn lemma_wf(&self)
        requires
            self.wf(),
        ensures
            0 <= self.idx() <= self.src().len(),
            self.src().len() < u32::MAX,
            self.src() == self.src_ref()@,
            self.measure() >= 0,
            0 <= self.pos() <= self.idx(),
    {
        self.cursor().lemma_wf();
    }



    /// `Eof` is absorbing: at the end of its text, with nothing in the lookahead, the
    /// tokenizer reads `Eof` with an empty span at the end and stays where it is. As `next`
    /// and `peek` hand out an `Eof` only with the tokenizer left at the end, every later
    /// token is that `Eof` again, and never an error.
    pub proof fn lemma_eof_absorbing(&self)
        requires
            self.wf(),
            self.idx() == self.src().len(),
        ensures
            lex_step(self.src(), self.idx()) == (
                Ok::<TokenKind, TokenErrorKind>(TokenKind::Eof),
                self.idx(),
                self.idx(),
            ),
            lex_result(self.path(), self.src_ref(), self.idx()) == Ok::<Token<'a>, TokenError<'a>>(
                Token {
                    span: SourceSpan::spec_new(self.path(), self.src_ref(), self.idx(), self.idx()),
                    kind: TokenKind::Eof,
                },
            ),
            self.peeked() matches Some(t) ==> (t.kind == TokenKind::Eof ==> t.span.start() == self.idx()
                && t.span.end() == self.idx()),
    {
        self.lemma_wf();
        let s = self.src();
        lemma_skip_trivia_bounds(s, s.len() as int);
        reveal(lex_step);
    }

    /// A tokenizer at the start of `source`.
    pub fn new(source: &'a [char], file_path: Option<&'a str>) -> (r: Self)
        requires
            source@.len() < u32::MAX,
        ensures
            r.wf(),
            r.src_ref() == source,
            r.src() == source@,
            r.path() == file_path,
            r.idx() == 0,
            r.peeked() == None::<Token<'a>>,
    {
        Tokenizer { cursor: SourceCursor::new(source, file_path), peek: None }
    }

    /// The empty span at the start of the source.
    pub fn empty_span(&self) -> (r: SourceSpan<'a>)
        requires
            self.wf(),
        ensures
            r == SourceSpan::spec_new(self.path(), self.src_ref(), 0, 0),
            r.wf_in(self.path(), self.src_ref()),
    {
        self.cursor.empty_span()
    }

    fn is_newline_free(c: char) -> (r: bool)
        ensures
            r == is_not_newline(c),
    {
        c != '\n'
    }

    fn is_not_quote(c: char) -> (r: bool)
        ensures
            r == is_not_quote(c),
    {
        c != '"'
    }

    fn skip_whitespace(&mut self) -> (r: bool)
        requires
            old(self).wf(),
            old(self).peeked() is None,
        ensures
            final(self).wf(),
            final(self).same_text(old(self)),
            final(self).peeked() == old(self).peeked(),
            final(self).idx() == run_end(old(self).src(), old(self).idx(), |c: char| spec_is_whitespace(c)),
            r == (final(self).idx() > old(self).idx()),
    {
        let ghost s = self.src();
        let ghost i = self.idx();
        let consumed = self.cursor.while_fn(is_whitespace);
        proof {
            let e = self.idx();
            assert forall|j: int| i <= j < e implies spec_is_whitespace(#[trigger] s[j]) by {}
            lemma_run_end_unique(s, i, self.idx(), |c: char| spec_is_whitespace(c));
        }
        let _ = self.cursor.commit();
        consumed
    }

    fn skip_comments(&mut self) -> (r: Result<bool, TokenError<'a>>)
        requires
            old(self).wf(),
            old(self).peeked() is None,
        ensures
            final(self).wf(),
            final(self).same_text(old(self)),
            final(self).peeked() == old(self).peeked(),
            ({
                let s = old(self).src();
                let i = old(self).idx();
                if starts_with_at(s, i, seq!['/', '/']) {
                    r == Ok::<bool, TokenError<'a>>(true) && final(self).idx() == run_end(
                        s,
                        i + 2,
                        |c: char| is_not_newline(c),
                    )
                } else if starts_with_at(s, i, seq!['/', '*']) {
                    match block_comment_end(s, i + 2) {
                        Some(e) => r == Ok::<bool, TokenError<'a>>(true) && final(self).idx() == e,
                        None => r == Err::<bool, TokenError<'a>>(
                            TokenError {
                                span: SourceSpan::spec_new(old(self).path(), old(self).src_ref(), i, s.len() as int),
                                kind: TokenErrorKind::UnclosedMultilineComment,
                            },
                        ) && final(self).idx() == s.len(),
                    }
                } else {
                    r == Ok::<bool, TokenError<'a>>(false) && final(self).idx() == i
                }
            }),
    {
        let ghost s = self.src();
        let ghost i = self.idx();
        proof {
            self.lemma_wf();
            reveal_strlit("//");
            reveal_strlit("/*");
            reveal_strlit("*/");
            assert("//"@ =~= seq!['/', '/']);
            assert("/*"@ =~= seq!['/', '*']);
            assert("*/"@ =~= seq!['*', '/']);
        }
        if self.cursor.consume_str("//") {
            self.cursor.while_fn(Self::is_newline_free);
            proof {
                let e = self.idx();
                assert forall|j: int| i + 2 <= j < e implies is_not_newline(#[trigger] s[j]) by {}
                lemma_run_end_unique(s, i + 2, self.idx(), |c: char| is_not_newline(c));
            }
            let _ = self.cursor.commit();
            return Ok(true);
        }
        if self.cursor.consume_str("/*") {
            loop
                invariant_except_break
                    block_comment_end(s, self.idx()) == block_comment_end(s, i + 2),
                invariant
                    old(self).wf(),
                    !starts_with_at(s, i, seq!['/', '/']),
                    starts_with_at(s, i, seq!['/', '*']),
                    self.cursor.wf(),
                    self.cursor.same_text(&old(self).cursor),
                    self.peek == old(self).peek,
                    self.cursor.rb() == i,
                    i == old(self).idx(),
                    s == self.src(),
                    i + 2 <= self.idx() <= s.len(),
                ensures
                    block_comment_end(s, i + 2) == Some(self.idx()),
                decreases s.len() - self.idx(),
            {
                let ghost j = self.idx();
                proof {
                    reveal_strlit("*/");
                    assert("*/"@ =~= seq!['*', '/']);
                    lemma_starts_with_pair(s, j, '*', '/');
                }
                if self.cursor.consume_str("*/") {
                    break;
                }
                if self.cursor.is_eof() {
                    return Err(TokenError { span: self.cursor.commit(), kind: TokenErrorKind::UnclosedMultilineComment });
                }
                self.cursor.advance();
            }
            let _ = self.cursor.commit();
            return Ok(true);
        }
        Ok(false)
    }

    fn skip_comments_and_whitespace(&mut self) -> (r: Result<(), TokenError<'a>>)
        requires
            old(self).wf(),
            old(self).peeked() is None,
        ensures
            final(self).wf(),
            final(self).same_text(old(self)),
            final(self).peeked() == old(self).peeked(),
            match skip_trivia(old(self).src(), old(self).idx()) {
                Ok(t) => r == Ok::<(), TokenError<'a>>(()) && final(self).idx() == t,
                Err(c) => r == Err::<(), TokenError<'a>>(
                    TokenError {
                        span: SourceSpan::spec_new(old(self).path(), old(self).src_ref(), c, old(self).src().len() as int),
                        kind: TokenErrorKind::UnclosedMultilineComment,
                    },
                ) && final(self).idx() == old(self).src().len(),
            },
    {
        let ghost s = self.src();
        let ghost i0 = self.idx();
        proof {
            self.lemma_wf();
        }
        loop
            invariant
                self.wf(),
                self.same_text(old(self)),
                self.peeked() == old(self).peeked(),
                old(self).peeked() is None,
                s == self.src(),
                s == old(self).src(),
                i0 == old(self).idx(),
                i0 <= self.idx() <= s.len(),
                skip_trivia(s, self.idx()) == skip_trivia(s, i0),
            ensures
                skip_trivia(s, i0) == Ok::<int, int>(self.idx()),
            decreases s.len() - self.idx(),
        {
            let ghost j = self.idx();
            proof {
                lemma_starts_with_pair(s, j, '/', '/');
                lemma_starts_with_pair(s, j, '/', '*');
                if j + 2 <= s.len() {
                    lemma_run_end_bounds(s, j + 2, |c: char| is_not_newline(c));
                }
                lemma_block_comment_end_bounds(s, j + 2);
                lemma_run_end_bounds(s, j, |c: char| spec_is_whitespace(c));
            }
            let comment = match self.skip_comments() {
                Ok(comment) => comment,
                Err(e) => {
                    assert(skip_trivia(s, j) == Err::<int, int>(j));
                    return Err(e);
                },
            };
            if comment {
                continue;
            }
            if !self.skip_whitespace() {
                break;
            }
        }
        Ok(())
    }

    fn parse_ident(&mut self) -> (r: Option<Token<'a>>)
        requires
            old(self).wf(),
            old(self).peeked() is None,
        ensures
            final(self).wf(),
            final(self).same_text(old(self)),
            final(self).peeked() == old(self).peeked(),
            ({
                let s = old(self).src();
                let i = old(self).idx();
                if 0 <= i < s.len() && spec_is_ident_start(s[i]) {
                    let e = run_end(s, i, |c: char| spec_is_ident_cont(c));
                    &&& r == Some(
                        Token {
                            span: SourceSpan::spec_new(old(self).path(), old(self).src_ref(), i, e),
                            kind: ident_kind(s.subrange(i, e)),
                        },
                    )
                    &&& final(self).idx() == e
                } else {
                    r == None::<Token<'a>> && final(self).idx() == i
                }
            }),
    {
        let ghost s = self.src();
        let ghost i = self.idx();
        proof {
            self.lemma_wf();
        }
        if !self.cursor.is_fn(Self::is_ident_start) {
            return None;
        }
        self.cursor.while_fn(Self::is_ident_cont);
        proof {
            let e = self.idx();
            assert forall|j: int| i <= j < e implies spec_is_ident_cont(#[trigger] s[j]) by {}
            lemma_run_end_unique(s, i, e, |c: char| spec_is_ident_cont(c));
        }
        let span = self.cursor.commit();
        proof {
            SourceSpan::lemma_spec_new(self.path(), self.src_ref(), i, self.idx());
        }
        if let Some(keyword) = Keyword::from(span.slice()) {
            return Some(Token { span, kind: TokenKind::Keyword(keyword) });
        }
        Some(Token { kind: TokenKind::Identifier(PseudoKeyword::from(span.slice())), span })
    }

    fn parse_symbol(&mut self) -> (r: Option<Token<'a>>)
        requires
            old(self).wf(),
            old(self).peeked() is None,
        ensures
            final(self).wf(),
            final(self).same_text(old(self)),
            final(self).peeked() == old(self).peeked(),
            match Symbol::spec_at(old(self).src(), old(self).idx()) {
                Some(sym) => r == Some(
                    Token {
                        span: SourceSpan::spec_new(
                            old(self).path(),
                            old(self).src_ref(),
                            old(self).idx(),
                            old(self).idx() + sym.spec_repr().len(),
                        ),
                        kind: TokenKind::Symbol(sym),
                    },
                ) && final(self).idx() == old(self).idx() + sym.spec_repr().len(),
                None => r == None::<Token<'a>> && final(self).idx() == old(self).idx(),
            },
    {
        let symbol = match Symbol::parse(&mut self.cursor) {
            Some(symbol) => symbol,
            None => return None,
        };
        Some(Token { span: self.cursor.commit(), kind: TokenKind::Symbol(symbol) })
    }

    fn parse_number(&mut self) -> (r: Result<Option<Token<'a>>, TokenError<'a>>)
        requires
            old(self).wf(),
            old(self).peeked() is None,
        ensures
            final(self).wf(),
            final(self).same_text(old(self)),
            final(self).peeked() == old(self).peeked(),
            match lex_number(old(self).src(), old(self).idx()) {
                NumberScan::NoNumber => r == Ok::<Option<Token<'a>>, TokenError<'a>>(None)
                    && final(self).idx() == old(self).idx(),
                NumberScan::Number(n, e) => r == Ok::<Option<Token<'a>>, TokenError<'a>>(
                    Some(
                        Token {
                            span: SourceSpan::spec_new(old(self).path(), old(self).src_ref(), old(self).idx(), e),
                            kind: TokenKind::NumberLiteral(n),
                        },
                    ),
                ) && final(self).idx() == e,
                NumberScan::Error(kind, e) => r == Err::<Option<Token<'a>>, TokenError<'a>>(
                    TokenError {
                        span: SourceSpan::spec_new(old(self).path(), old(self).src_ref(), old(self).idx(), e),
                        kind,
                    },
                ) && final(self).idx() == e,
            },
    {
        proof {
            self.lemma_wf();
            if self.idx() < self.src().len() {
                lemma_lex_number_bounds(self.src(), self.idx());
            }
        }
        let number = match NumberLiteral::parse(&mut self.cursor)? {
            Some(number) => number,
            None => {
                self.cursor.rollback();
                return Ok(None);
            },
        };
        Ok(Some(Token { span: self.cursor.commit(), kind: TokenKind::NumberLiteral(number) }))
    }

    fn parse_string(&mut self) -> (r: Result<Option<Token<'a>>, TokenError<'a>>)
        requires
            old(self).wf(),
            old(self).peeked() is None,
        ensures
            final(self).wf(),
            final(self).same_text(old(self)),
            final(self).peeked() == old(self).peeked(),
            ({
                let s = old(self).src();
                let i = old(self).idx();
                if 0 <= i < s.len() && s[i] == '"' {
                    let e = run_end(s, i + 1, |c: char| is_not_quote(c));
                    if e < s.len() {
                        r == Ok::<Option<Token<'a>>, TokenError<'a>>(
                            Some(
                                Token {
                                    span: SourceSpan::spec_new(old(self).path(), old(self).src_ref(), i, e + 1),
                                    kind: TokenKind::StringLiteral,
                                },
                            ),
                        ) && final(self).idx() == e + 1
                    } else {
                        r == Err::<Option<Token<'a>>, TokenError<'a>>(
                            TokenError {
                                span: SourceSpan::spec_new(old(self).path(), old(self).src_ref(), i, s.len() as int),
                                kind: TokenErrorKind::UnclosedStringLiteral,
                            },
                        ) && final(self).idx() == s.len()
                    }
                } else {
                    r == Ok::<Option<Token<'a>>, TokenError<'a>>(None) && final(self).idx() == i
                }
            }),
    {
        let ghost s = self.src();
        let ghost i = self.idx();
        proof {
            self.lemma_wf();
        }
        if !self.cursor.consume_char('"') {
            return Ok(None);
        }
        self.cursor.while_fn(Self::is_not_quote);
        proof {
            let e = self.idx();
            assert forall|j: int| i + 1 <= j < e implies is_not_quote(#[trigger] s[j]) by {}
            lemma_run_end_unique(s, i + 1, self.idx(), |c: char| is_not_quote(c));
        }
        if !self.cursor.consume_char('"') {
            return Err(TokenError { span: self.cursor.commit(), kind: TokenErrorKind::UnclosedStringLiteral });
        }
        Ok(Some(Token { span: self.cursor.commit(), kind: TokenKind::StringLiteral }))
    }

    fn next_raw(&mut self) -> (r: Result<Token<'a>, TokenError<'a>>)
        requires
            old(self).wf(),
            old(self).peeked() is None,
        ensures
            final(self).wf(),
            final(self).same_text(old(self)),
            final(self).peeked() == old(self).peeked(),
            r == lex_result(old(self).path(), old(self).src_ref(), old(self).idx()),
            final(self).idx() == lex_step(old(self).src(), old(self).idx()).2,
            old(self).idx() <= final(self).idx(),
            r matches Ok(t) ==> t.wf_in(old(self).path(), old(self).src_ref()) && t.span.end()
                == final(self).idx(),
            r matches Err(e) ==> e.span.wf_in(old(self).path(), old(self).src_ref())
                && e.span.end() == final(self).idx(),
            r matches Ok(t) ==> eof_at_end(final(self).src().len() as int, final(self).idx(), t),
    {
        let ghost s = self.src();
        let ghost i = self.idx();
        proof {
            reveal(lex_step);
            self.lemma_wf();
            lemma_skip_trivia_bounds(s, i);
            lemma_lex_step_bounds(s, i);
            let (_, a, b) = lex_step(s, i);
            SourceSpan::lemma_spec_new(self.path(), self.src_ref(), a, b);
        }
        self.skip_comments_and_whitespace()?;
        let ghost t = self.idx();
        if self.cursor.is_eof() {
            return Ok(Token { span: self.cursor.commit(), kind: TokenKind::Eof });
        }
        if let Some(token) = self.parse_ident() {
            return Ok(token);
        }
        if let Some(token) = self.parse_number()? {
            return Ok(token);
        }
        if let Some(token) = self.parse_symbol() {
            return Ok(token);
        }
        if let Some(token) = self.parse_string()? {
            return Ok(token);
        }
        let c = match self.cursor.current() {
            Some(c) => c,
            None => '\0',
        };
        self.cursor.advance();
        Err(TokenError { span: self.cursor.commit(), kind: TokenErrorKind::UnexpectedCharacter(c) })
    }

    /// Takes the next token: the peeked one if there is one, else the one read from the text.
    pub fn next(&mut self) -> (r: Result<Token<'a>, TokenError<'a>>)
        requires
            old(self).wf(),
        ensures
            final(self).wf(),
            final(self).same_text(old(self)),
            final(self).peeked() == None::<Token<'a>>,
            match old(self).peeked() {
                Some(t) => r == Ok::<Token<'a>, TokenError<'a>>(t) && final(self).idx() == old(self).idx(),
                None => r == lex_result(old(self).path(), old(self).src_ref(), old(self).idx())
                    && final(self).idx() == lex_step(old(self).src(), old(self).idx()).2,
            },
            r matches Ok(t) ==> eof_at_end(final(self).src().len() as int, final(self).idx(), t),
    {
        if let Some(peek) = self.peek {
            self.peek = None;
            return Ok(peek);
        }
        self.next_raw()
    }

    /// Returns the next token without taking it. An error is handed out, and the text it
    /// covers is left behind.
    pub fn peek(&mut self) -> (r: Result<Token<'a>, TokenError<'a>>)
        requires
            old(self).wf(),
        ensures
            final(self).wf(),
            final(self).same_text(old(self)),
            match old(self).peeked() {
                Some(t) => r == Ok::<Token<'a>, TokenError<'a>>(t) && final(self).idx() == old(self).idx()
                    && final(self).peeked() == old(self).peeked(),
                None => r == lex_result(old(self).path(), old(self).src_ref(), old(self).idx())
                    && final(self).idx() == lex_step(old(self).src(), old(self).idx()).2
                    && final(self).peeked() == match r {
                    Ok(t) => Some(t),
                    Err(_) => None::<Token<'a>>,
                },
            },
            r matches Ok(t) ==> eof_at_end(final(self).src().len() as int, final(self).idx(), t),
    {
        if let Some(peek) = self.peek {
            return Ok(peek);
        }
        let peek = self.next_raw()?;
        self.peek = Some(peek);
        Ok(peek)
    }
}

impl<'a> Tokenizer<'a> {
    /// An identifier starts with an ASCII letter, `_` or `$`.
    pub fn is_ident_start(c: char) -> (r: bool)
        ensures
            r == spec_is_ident_start(c),
    {
        ('a' <= c && c <= 'z') || ('A' <= c && c <= 'Z') || c == '_' || c == '$'
    }

    /// An identifier continues with the characters it may start with, or an ASCII digit.
    pub fn is_ident_cont(c: char) -> (r: bool)
        ensures
            r == spec_is_ident_cont(c),
    {
        Self::is_ident_start(c) || ('0' <= c && c <= '9')
    }
}

} // verus!
