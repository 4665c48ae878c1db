// The texts that positions, spans, tokenizer errors and diagnostics are shown with, stated
// as sequences of characters, and the methods that write them.

use vstd::prelude::*;

use crate::parser::{
    diagnostic::{Diagnostic, DiagnosticKind, DiagnosticLevel},
    source::{SourcePos, SourceSpan},
    token::{TokenError, TokenErrorKind},
};

verus! {

/// Appends `c` to `s`.
///
/// Trusted: this calls `String::push`, which the standard library documents as appending
/// the given character to the end of the string; the contract says that of the string's
/// characters. Nothing else is claimed.
#[verifier::external_body]
pub(crate) fn push_char(s: &mut String, c: char)
    ensures
        final(s)@ == old(s)@.push(c),
{
    s.push(c);
}

/// The decimal digit that stands for `d` (below ten).
pub open spec fn digit_char(d: nat) -> char {
    if d == 0 {
        '0'
    } else if d == 1 {
        '1'
    } else if d == 2 {
        '2'
    } else if d == 3 {
        '3'
    } else if d == 4 {
        '4'
    } else if d == 5 {
        '5'
    } else if d == 6 {
        '6'
    } else if d == 7 {
        '7'
    } else if d == 8 {
        '8'
    } else {
        '9'
    }
}

/// The decimal spelling of `n`, without leading zeros.
pub open spec fn decimal(n: nat) -> Seq<char>
    decreases n,
{
    if n < 10 {
        seq![digit_char(n)]
    } else {
        decimal(n / 10).push(digit_char(n % 10))
    }
}

fn digit(d: u32) -> (c: char)
    requires
        d < 10,
    ensures
        c == digit_char(d as nat),
{
    match d {
        0 => '0',
        1 => '1',
        2 => '2',
        3 => '3',
        4 => '4',
        5 => '5',
        6 => '6',
        7 => '7',
        8 => '8',
        _ => '9',
    }
}

/// Appends the decimal spelling of `n`.
pub fn push_decimal(s: &mut String, n: u32)
    ensures
        final(s)@ == old(s)@ + decimal(n as nat),
    decreases n,
{
    if n >= 10 {
        push_decimal(s, n / 10);
    }
    let ghost before = s@;
    push_char(s, digit(n % 10));
    proof {
        if n >= 10 {
            assert(s@ =~= old(s)@ + decimal((n / 10) as nat).push(digit_char((n % 10) as nat)));
        } else {
            assert(s@ =~= old(s)@ + seq![digit_char(n as nat)]);
        }
    }
}

/// A position as `line:column`.
pub open spec fn pos_text(p: (u32, u32)) -> Seq<char> {
    decimal(p.0 as nat) + seq![':'] + decimal(p.1 as nat)
}

/// A file path, or `<dev console>` for text that comes from no file.
pub open spec fn path_text(path: Option<&str>) -> Seq<char> {
    match path {
        Some(p) => p@,
        None => "<dev console>"@,
    }
}

/// A span as its file and the position where it starts: `file:line:column`.
pub open spec fn span_text(span: SourceSpan) -> Seq<char> {
    path_text(span.path()) + seq![':'] + pos_text(span.spec_start_pos().view_pair())
}

/// `s` with each newline written as a backslash and `n`.
pub open spec fn escaped(s: Seq<char>) -> Seq<char>
    decreases s.len(),
{
    if s.len() == 0 {
        Seq::empty()
    } else {
        escaped(s.drop_last()) + if s.last() == '\n' {
            seq!['\\', 'n']
        } else {
            seq![s.last()]
        }
    }
}

/// The text a span covers, newlines escaped, in single quotes.
pub open spec fn span_quoted_text(span: SourceSpan) -> Seq<char> {
    seq!['\''] + escaped(span.covered()) + seq!['\'']
}

/// The name of a level.
pub open spec fn level_text(level: DiagnosticLevel) -> Seq<char> {
    match level {
        DiagnosticLevel::Warning => "Warning"@,
        DiagnosticLevel::Error => "Error"@,
        DiagnosticLevel::Fatal => "Fatal"@,
    }
}

/// The message of a tokenizer error.
pub open spec fn token_error_kind_text(kind: TokenErrorKind) -> Seq<char> {
    match kind {
        TokenErrorKind::UnexpectedCharacter(c) => "Unexpected character in input: '"@ + seq![c] + "'."@,
        TokenErrorKind::UnclosedMultilineComment => "Unclosed multiline comment in input."@,
        TokenErrorKind::NumberTrailingUnderscore => "Number with trailing underscore in input."@,
        TokenErrorKind::ExpectedDigits => "Expected digits in input."@,
        TokenErrorKind::ExpectedExponentDigits => "Expected exponent in input."@,
        TokenErrorKind::UnclosedStringLiteral => "Unclosed string literal in input."@,
    }
}

/// A tokenizer error with where it was found: `error (file:line:column): message`.
pub open spec fn token_error_text(e: TokenError) -> Seq<char> {
    "error ("@ + span_text(e.span) + "): "@ + token_error_kind_text(e.kind)
}

/// The message of a diagnostic kind: what was found, after what was expected.
pub open spec fn kind_text(kind: DiagnosticKind) -> Seq<char>
    decreases kind,
{
    match kind {
        DiagnosticKind::Token(k) => "failed to parse token: "@ + token_error_kind_text(k),
        DiagnosticKind::UnexpectedToken(span) => "found unexpected token "@ + span_quoted_text(span) + "."@,
        DiagnosticKind::UnexpectedEof => "reached EOF."@,
        DiagnosticKind::ExpectedSymbol { symbol, got } => "expected symbol '"@ + symbol.spec_repr() + "', "@
            + kind_text(*got),
        DiagnosticKind::ExpectedKeyword { keyword, got } => "expected keyword '"@ + keyword.spec_repr()
            + "', "@ + kind_text(*got),
        DiagnosticKind::ExpectedPseudoKeyword { keyword, got } => "expected keyword '"@ + keyword.spec_repr()
            + "', "@ + kind_text(*got),
        DiagnosticKind::ExpectedIdent { got } => "expected identifier, "@ + kind_text(*got),
        DiagnosticKind::ExpectedTy { got } => "expected type, "@ + kind_text(*got),
        DiagnosticKind::ExpectedExpr { got } => "expected expression, "@ + kind_text(*got),
        DiagnosticKind::ExpectedGenericArgument { got } => "expected generic argument, "@ + kind_text(*got),
        DiagnosticKind::ExpectedSymbolPathPart { got } => "expected symbol path part, "@ + kind_text(*got),
    }
}

/// A diagnostic: `Level (file:line:column): message`.
pub open spec fn diagnostic_text(d: Diagnostic) -> Seq<char> {
    level_text(d.level) + " ("@ + span_text(d.span) + "): "@ + kind_text(d.kind)
}

impl SourcePos {
    /// The position as `line:column`.
    pub fn to_string(&self) -> (r: String)
        ensures
            r@ == pos_text(self.view_pair()),
    {
        let mut s = String::new();
        push_decimal(&mut s, self.line());
        push_char(&mut s, ':');
        push_decimal(&mut s, self.column());
        proof {
            assert(s@ =~= pos_text(self.view_pair()));
        }
        s
    }
}

impl<'a> SourceSpan<'a> {
    /// The span as `file:line:column` of its start, with `<dev console>` for text from no
    /// file.
    pub fn to_string(&self) -> (r: String)
        ensures
            r@ == span_text(*self),
    {
        let mut s = match self.file_path() {
            Some(p) => String::from_str(p),
            None => String::from_str("<dev console>"),
        };
        push_char(&mut s, ':');
        let pos = self.start_pos().to_string();
        s.append(pos.as_str());
        proof {
            assert(s@ =~= span_text(*self));
        }
        s
    }

    /// The text that the span covers, newlines escaped as `\n`, in single quotes.
    pub fn debug_string(&self) -> (r: String)
        ensures
            r@ == span_quoted_text(*self),
    {
        let text = self.slice();
        let mut s = String::new();
        push_char(&mut s, '\'');
        let mut k: usize = 0;
        while k < text.len()
            invariant
                k <= text@.len(),
                s@ == seq!['\''] + escaped(text@.subrange(0, k as int)),
            decreases text@.len() - k,
        {
            let c = text[k];
            if c == '\n' {
                push_char(&mut s, '\\');
                push_char(&mut s, 'n');
            } else {
                push_char(&mut s, c);
            }
            proof {
                let t = text@.subrange(0, k + 1);
                assert(t.drop_last() =~= text@.subrange(0, k as int));
                assert(t.last() == c);
                assert(s@ =~= seq!['\''] + escaped(t));
            }
            k = k + 1;
        }
        push_char(&mut s, '\'');
        proof {
            assert(text@.subrange(0, text@.len() as int) =~= text@);
            assert(s@ =~= span_quoted_text(*self));
        }
        s
    }
}

impl DiagnosticLevel {
    /// The name of the level.
    pub fn to_string(&self) -> (r: String)
        ensures
            r@ == level_text(*self),
    {
        match self {
            DiagnosticLevel::Warning => String::from_str("Warning"),
            DiagnosticLevel::Error => String::from_str("Error"),
            DiagnosticLevel::Fatal => String::from_str("Fatal"),
        }
    }
}

impl TokenErrorKind {
    /// The message of the error.
    pub fn to_string(&self) -> (r: String)
        ensures
            r@ == token_error_kind_text(*self),
    {
        match self {
            TokenErrorKind::UnexpectedCharacter(c) => {
                let mut s = String::from_str("Unexpected character in input: '");
                push_char(&mut s, *c);
                s.append("'.");
                s
            },
            TokenErrorKind::UnclosedMultilineComment => String::from_str("Unclosed multiline comment in input."),
            TokenErrorKind::NumberTrailingUnderscore => String::from_str("Number with trailing underscore in input."),
            TokenErrorKind::ExpectedDigits => String::from_str("Expected digits in input."),
            TokenErrorKind::ExpectedExponentDigits => String::from_str("Expected exponent in input."),
            TokenErrorKind::UnclosedStringLiteral => String::from_str("Unclosed string literal in input."),
        }
    }
}

impl<'a> TokenError<'a> {
    /// The error with where it was found: `error (file:line:column): message`.
    pub fn to_string(&self) -> (r: String)
        ensures
            r@ == token_error_text(*self),
    {
        let mut s = String::from_str("error (");
        let span = self.span.to_string();
        s.append(span.as_str());
        s.append("): ");
        let kind = self.kind.to_string();
        s.append(kind.as_str());
        s
    }
}

impl<'a> DiagnosticKind<'a> {
    /// The message: what was found, after what was expected.
    pub fn to_string(&self) -> (r: String)
        ensures
            r@ == kind_text(*self),
        decreases self,
    {
        match self {
            DiagnosticKind::Token(k) => {
                let mut s = String::from_str("failed to parse token: ");
                let t = k.to_string();
                s.append(t.as_str());
                s
            },
            DiagnosticKind::UnexpectedToken(span) => {
                let mut s = String::from_str("found unexpected token ");
                let t = span.debug_string();
                s.append(t.as_str());
                s.append(".");
                s
            },
            DiagnosticKind::UnexpectedEof => String::from_str("reached EOF."),
            DiagnosticKind::ExpectedSymbol { symbol, got } => {
                let mut s = String::from_str("expected symbol '");
                s.append(symbol.repr());
                s.append("', ");
                let t = got.to_string();
                s.append(t.as_str());
                s
            },
            DiagnosticKind::ExpectedKeyword { keyword, got } => {
                let mut s = String::from_str("expected keyword '");
                s.append(keyword.repr());
                s.append("', ");
                let t = got.to_string();
                s.append(t.as_str());
                s
            },
            DiagnosticKind::ExpectedPseudoKeyword { keyword, got } => {
                let mut s = String::from_str("expected keyword '");
                s.append(keyword.repr());
                s.append("', ");
                let t = got.to_string();
                s.append(t.as_str());
                s
            },
            DiagnosticKind::ExpectedIdent { got } => {
                let mut s = String::from_str("expected identifier, ");
                let t = got.to_string();
                s.append(t.as_str());
                s
            },
            DiagnosticKind::ExpectedTy { got } => {
                let mut s = String::from_str("expected type, ");
                let t = got.to_string();
                s.append(t.as_str());
                s
            },
            DiagnosticKind::ExpectedExpr { got } => {
                let mut s = String::from_str("expected expression, ");
                let t = got.to_string();
                s.append(t.as_str());
                s
            },
            DiagnosticKind::ExpectedGenericArgument { got } => {
                let mut s = String::from_str("expected generic argument, ");
                let t = got.to_string();
                s.append(t.as_str());
                s
            },
            DiagnosticKind::ExpectedSymbolPathPart { got } => {
                let mut s = String::from_str("expected symbol path part, ");
                let t = got.to_string();
                s.append(t.as_str());
                s
            },
        }
    }
}

impl<'a> Diagnostic<'a> {
    /// The diagnostic as `Level (file:line:column): message`.
    pub fn to_string(&self) -> (r: String)
        ensures
            r@ == diagnostic_text(*self),
    {
        let mut s = self.level.to_string();
        s.append(" (");
        let span = self.span.to_string();
        s.append(span.as_str());
        s.append("): ");
        let kind = self.kind.to_string();
        s.append(kind.as_str());
        s
    }
}

} // verus!
