use vstd::prelude::*;

use crate::parser::{
    source::{group_index_nonneg, lemma_starts_with_pair, lemma_starts_with_single, starts_with_at, SourceCursor, SourceSpan},
    token::{
        lexical::{
            is_underscore, lemma_run_end_bounds, lemma_run_end_unique, run_end,
            spec_is_decimal_digit, spec_is_ident_cont, spec_is_ident_start,
        },
        TokenError, TokenErrorKind, Tokenizer,
    },
};

verus! {

broadcast use group_index_nonneg;

/// The base in which an integer literal is written.
#[derive(Clone, Copy, Debug, PartialEq, Eq, Structural, PartialOrd, Ord)]
pub enum IntegerBase {
    Binary,
    Octal,
    Decimal,
    Hexadecimal,
}

/// Whether a number literal is an integer (and in which base) or a float.
#[derive(Clone, Copy, Debug, PartialEq, Eq, Structural, PartialOrd, Ord)]
pub enum NumberLiteralKind {
    Integer(IntegerBase),
    Float,
}

/// A number literal: its kind, and the offset in its text where a type suffix starts, if it
/// has one (the offset is never 0).
#[derive(Clone, Copy, Debug, PartialEq, Eq, Structural, PartialOrd, Ord)]
pub struct NumberLiteral {
    pub kind: NumberLiteralKind,
    pub suffix_start: Option<u32>,
}

/// What `NumberLiteral::parse` makes of the text at an index: no number, a number and the
/// index after it, or an error and the index where it was found.
pub enum NumberScan {
    NoNumber,
    Number(NumberLiteral, int),
    Error(TokenErrorKind, int),
}

impl IntegerBase {
    pub open spec fn spec_base(&self) -> u32 {
        match self {
            IntegerBase::Binary => 2,
            IntegerBase::Octal => 8,
            IntegerBase::Decimal => 10,
            IntegerBase::Hexadecimal => 16,
        }
    }

    /// `c` is a digit of this base.
    pub open spec fn spec_is_digit(&self, c: char) -> bool {
        match self {
            IntegerBase::Binary => c == '0' || c == '1',
            IntegerBase::Octal => '0' <= c && c <= '7',
            IntegerBase::Decimal => '0' <= c && c <= '9',
            IntegerBase::Hexadecimal => ('0' <= c && c <= '9') || ('a' <= c && c <= 'f') || (
            'A' <= c && c <= 'F'),
        }
    }

    /// The length of the prefix (`0b`, `0o`, `0x`) that marks the base.
    pub fn prefix_size(&self) -> (r: usize)
        ensures
            r == if *self == IntegerBase::Decimal {
                0usize
            } else {
                2usize
            },
    {
        match self {
            IntegerBase::Decimal => 0,
            _ => 2,
        }
    }

    /// The base as a number.
    pub fn base(&self) -> (r: u32)
        ensures
            r == self.spec_base(),
    {
        match self {
            IntegerBase::Binary => 2,
            IntegerBase::Octal => 8,
            IntegerBase::Decimal => 10,
            IntegerBase::Hexadecimal => 16,
        }
    }

    /// The value of the integer written in `text` in this base, `_` separators left out.
    /// With the underscores taken out, `text` is an optional `+` and at least one digit of the
    /// base, and its value fits in a `u32`.
    pub fn parse(&self, text: &[char]) -> (r: u32)
        requires
            valid_integer_text(text@, self.spec_base()),
            integer_text_value(text@, self.spec_base()) <= u32::MAX,
        ensures
            r == integer_text_value(text@, self.spec_base()),
    {
        let base = self.base();
        let mut p: usize = 0;
        while p < text.len() && text[p] == '_'
            invariant
                p <= text@.len(),
                first_non_underscore(text@, 0) == first_non_underscore(text@, p as int),
            decreases text@.len() - p,
        {
            p = p + 1;
        }
        let start: usize = if p < text.len() && text[p] == '+' {
            p + 1
        } else {
            0
        };
        let mut value: u32 = 0;
        let mut k: usize = start;
        proof {
            lemma_digits_value_prefix_bound(text@, start as int, text@.len() as int, base);
        }
        while k < text.len()
            invariant
                start <= k <= text@.len(),
                base == self.spec_base(),
                2 <= base <= 16,
                start == integer_digits_start(text@),
                valid_integer_text(text@, base),
                integer_text_value(text@, base) <= u32::MAX,
                value == digits_value(text@, start as int, k as int, base),
            decreases text@.len() - k,
        {
            let c = text[k];
            if c != '_' {
                let d = digit_value(c);
                proof {
                    lemma_digits_value_monotone(text@, start as int, k + 1, text@.len() as int, base);
                    lemma_digits_value_prefix_bound(text@, start as int, k + 1, base);
                }
                value = value * base + d;
            }
            k = k + 1;
        }
        value
    }
}

/// The value of the digit `c` (0-9, then letters from 10 on).
pub open spec fn spec_digit_value(c: char) -> u32 {
    if '0' <= c && c <= '9' {
        (c as u32 - '0' as u32) as u32
    } else if 'a' <= c && c <= 'z' {
        (c as u32 - 'a' as u32 + 10) as u32
    } else if 'A' <= c && c <= 'Z' {
        (c as u32 - 'A' as u32 + 10) as u32
    } else {
        99
    }
}

fn digit_value(c: char) -> (r: u32)
    ensures
        r == spec_digit_value(c),
{
    if '0' <= c && c <= '9' {
        (c as u32) - ('0' as u32)
    } else if 'a' <= c && c <= 'z' {
        (c as u32) - ('a' as u32) + 10
    } else if 'A' <= c && c <= 'Z' {
        (c as u32) - ('A' as u32) + 10
    } else {
        99
    }
}

/// The value of the digits of `s` from `start` to `end`, read in `base`, skipping `_`.
pub open spec fn digits_value(s: Seq<char>, start: int, end: int, base: u32) -> nat
    decreases end - start,
{
    if end <= start {
        0
    } else if s[end - 1] == '_' {
        digits_value(s, start, end - 1, base)
    } else {
        digits_value(s, start, end - 1, base) * base as nat + spec_digit_value(s[end - 1]) as nat
    }
}

/// The index of the first character from `j` on that is not `_`, or the length of `s`.
pub open spec fn first_non_underscore(s: Seq<char>, j: int) -> int
    decreases s.len() - j,
{
    if j < 0 || j >= s.len() {
        s.len() as int
    } else if s[j] == '_' {
        first_non_underscore(s, j + 1)
    } else {
        j
    }
}

/// The index where the digits of an integer text start: after the `+`, if the first
/// character other than `_` is one, else at the start.
pub open spec fn integer_digits_start(s: Seq<char>) -> int {
    let p = first_non_underscore(s, 0);
    if p < s.len() && s[p] == '+' {
        p + 1
    } else {
        0
    }
}

/// With the underscores taken out, an optional `+` and then digits of `base`, at least one.
pub open spec fn valid_integer_text(s: Seq<char>, base: u32) -> bool {
    &&& 2 <= base <= 16
    &&& forall|j: int|
        integer_digits_start(s) <= j < s.len() ==> (#[trigger] s[j] == '_' || spec_digit_value(
            s[j],
        ) < base)
    &&& exists|j: int| integer_digits_start(s) <= j < s.len() && #[trigger] s[j] != '_'
}

pub open spec fn integer_text_value(s: Seq<char>, base: u32) -> nat {
    digits_value(s, integer_digits_start(s), s.len() as int, base)
}

proof fn lemma_digits_value_monotone(s: Seq<char>, start: int, mid: int, end: int, base: u32)
    requires
        start <= mid <= end,
        2 <= base,
    ensures
        digits_value(s, start, mid, base) <= digits_value(s, start, end, base),
    decreases end - mid,
{
    if mid < end {
        lemma_digits_value_monotone(s, start, mid, end - 1, base);
        let v = digits_value(s, start, end - 1, base);
        assert(v <= v * base as nat) by (nonlinear_arith)
            requires
                base >= 2,
        ;
    }
}

proof fn lemma_digits_value_prefix_bound(s: Seq<char>, start: int, k: int, base: u32)
    requires
        start <= k,
        2 <= base <= 16,
        digits_value(s, start, k, base) <= u32::MAX,
    ensures
        k > start && s[k - 1] != '_' ==> digits_value(s, start, k - 1, base) * base as nat
            <= u32::MAX,
{
    if k > start && s[k - 1] != '_' {
        let v = digits_value(s, start, k - 1, base);
        assert(v * base as nat <= v * base as nat + spec_digit_value(s[k - 1]) as nat);
    }
}

impl NumberLiteral {
    /// Splits the text of the literal, which `span` covers, into the number and its suffix.
    pub fn decompose<'a>(&self, span: &SourceSpan<'a>) -> (r: (&'a [char], &'a [char]))
        requires
            span.wf(),
            self.suffix_start matches Some(k) ==> k <= span.end() - span.start(),
        ensures
            r.0@ + r.1@ == span.src().subrange(span.start(), span.end()),
            r.1@.len() == match self.suffix_start {
                Some(k) => span.end() - span.start() - k,
                None => 0,
            },
    {
        let text = span.slice();
        match self.suffix_start {
            None => {
                let (a, b) = text.split_at(text.len());
                assert(a@ =~= text@);
                (a, b)
            },
            Some(k) => {
                let (a, b) = text.split_at(k as usize);
                assert(a@ + b@ =~= text@);
                (a, b)
            },
        }
    }

    /// Moves past a base prefix (`0b`, `0o`, `0x`, either case) and returns the base.
    fn parse_base(cursor: &mut SourceCursor) -> (r: IntegerBase)
        requires
            old(cursor).wf(),
        ensures
            final(cursor).wf(),
            final(cursor).same_text(old(cursor)),
            final(cursor).rb() == old(cursor).rb(),
            (r, final(cursor).idx()) == spec_parse_base(old(cursor).src(), old(cursor).idx()),
    {
        proof {
            reveal_strlit("0b");
            reveal_strlit("0B");
            reveal_strlit("0o");
            reveal_strlit("0O");
            reveal_strlit("0x");
            reveal_strlit("0X");
            assert("0b"@ =~= seq!['0', 'b']);
            assert("0B"@ =~= seq!['0', 'B']);
            assert("0o"@ =~= seq!['0', 'o']);
            assert("0O"@ =~= seq!['0', 'O']);
            assert("0x"@ =~= seq!['0', 'x']);
            assert("0X"@ =~= seq!['0', 'X']);
        }
        if cursor.consume_str("0b") || cursor.consume_str("0B") {
            return IntegerBase::Binary;
        }
        if cursor.consume_str("0o") || cursor.consume_str("0O") {
            return IntegerBase::Octal;
        }
        if cursor.consume_str("0x") || cursor.consume_str("0X") {
            return IntegerBase::Hexadecimal;
        }
        IntegerBase::Decimal
    }

    fn is_binary_digit(c: char) -> (r: bool)
        ensures
            r == IntegerBase::Binary.spec_is_digit(c),
    {
        c == '0' || c == '1'
    }

    fn is_octal_digit(c: char) -> (r: bool)
        ensures
            r == IntegerBase::Octal.spec_is_digit(c),
    {
        '0' <= c && c <= '7'
    }

    fn is_hex_digit(c: char) -> (r: bool)
        ensures
            r == IntegerBase::Hexadecimal.spec_is_digit(c),
    {
        ('0' <= c && c <= '9') || ('a' <= c && c <= 'f') || ('A' <= c && c <= 'F')
    }

    fn is_decimal_digit(c: char) -> (r: bool)
        ensures
            r == IntegerBase::Decimal.spec_is_digit(c),
            r == spec_is_decimal_digit(c),
    {
        '0' <= c && c <= '9'
    }

    fn is_exponent_marker(c: char) -> (r: bool)
        ensures
            r == (c == 'e' || c == 'E'),
    {
        c == 'e' || c == 'E'
    }

    fn is_sign(c: char) -> (r: bool)
        ensures
            r == (c == '+' || c == '-'),
    {
        c == '+' || c == '-'
    }

    fn current_is_digit(cursor: &SourceCursor, base: IntegerBase) -> (r: bool)
        requires
            cursor.wf(),
        ensures
            r == (0 <= cursor.idx() < cursor.src().len() && base.spec_is_digit(
                cursor.src()[cursor.idx()],
            )),
    {
        match cursor.current() {
            Some(c) => Self::is_digit(base, c),
            None => false,
        }
    }

    fn is_digit(base: IntegerBase, c: char) -> (r: bool)
        ensures
            r == base.spec_is_digit(c),
    {
        match base {
            IntegerBase::Binary => Self::is_binary_digit(c),
            IntegerBase::Octal => Self::is_octal_digit(c),
            IntegerBase::Hexadecimal => Self::is_hex_digit(c),
            IntegerBase::Decimal => Self::is_decimal_digit(c),
        }
    }

    /// Moves past a run of digits of `base`, with `_` allowed between and after digits but
    /// not at the end; tells whether there was a digit.
    fn parse_digits<'a>(cursor: &mut SourceCursor<'a>, base: IntegerBase) -> (r: Result<
        bool,
        TokenError<'a>,
    >)
        requires
            old(cursor).wf(),
        ensures
            final(cursor).wf(),
            final(cursor).same_text(old(cursor)),
            match scan_digits(old(cursor).src(), old(cursor).idx(), base) {
                Ok(None) => r == Ok::<bool, TokenError<'a>>(false) && final(cursor).idx()
                    == old(cursor).idx() && final(cursor).rb() == old(cursor).rb(),
                Ok(Some(e)) => r == Ok::<bool, TokenError<'a>>(true) && final(cursor).idx() == e
                    && final(cursor).rb() == old(cursor).rb(),
                Err(e) => r == Err::<bool, TokenError<'a>>(
                    TokenError {
                        span: SourceSpan::spec_new(
                            old(cursor).path(),
                            old(cursor).src_ref(),
                            old(cursor).rb(),
                            e,
                        ),
                        kind: TokenErrorKind::NumberTrailingUnderscore,
                    },
                ) && final(cursor).idx() == e && final(cursor).rb() == e,
            },
    {
        let ghost s = cursor.src();
        proof {
            cursor.lemma_wf();
        }
        if !Self::current_is_digit(cursor, base) {
            return Ok(false);
        }
        let ghost i0 = cursor.idx();
        proof {
            lemma_digits_from_unfold(s, i0, base);
        }
        loop
            invariant
                cursor.wf(),
                cursor.same_text(old(cursor)),
                cursor.rb() == old(cursor).rb(),
                s == old(cursor).src(),
                i0 == old(cursor).idx(),
                i0 < s.len() && base.spec_is_digit(s[i0]),
                i0 <= cursor.idx() <= s.len(),
                cursor.idx() < s.len() && base.spec_is_digit(s[cursor.idx()]) ==> digits_from(
                    s,
                    cursor.idx(),
                    base,
                ) == digits_from(s, i0, base),
                !(cursor.idx() < s.len() && base.spec_is_digit(s[cursor.idx()])) ==> digits_from(
                    s,
                    i0,
                    base,
                ) == Ok::<int, int>(cursor.idx()),
            ensures
                !(cursor.idx() < s.len() && base.spec_is_digit(s[cursor.idx()])),
            decreases s.len() - cursor.idx(),
        {
            let digit = Self::current_is_digit(cursor, base);
            if !digit {
                break;
            }
            let ghost j = cursor.idx();
            proof {
                cursor.lemma_wf();
                lemma_digits_from_unfold(s, j, base);
            }
            let _ = cursor.advance();
            assert(cursor.idx() == j + 1);
            let underscores = cursor.while_char('_');
            let ghost k = cursor.idx();
            assert(underscores == (k > j + 1));
            proof {
                cursor.lemma_wf();
                lemma_run_end_unique(s, j + 1, k, |c: char| is_underscore(c));
                assert(run_end(s, j + 1, |c: char| is_underscore(c)) == k);
            }
            if underscores && !Self::current_is_digit(cursor, base) {
                assert(digits_from(s, j, base) == Err::<int, int>(k));
                return Err(TokenError { span: cursor.commit(), kind: TokenErrorKind::NumberTrailingUnderscore });
            }
            proof {
                if k < s.len() && base.spec_is_digit(s[k]) {
                    assert(digits_from(s, j, base) == digits_from(s, k, base));
                } else {
                    assert(k == j + 1);
                    assert(digits_from(s, j, base) == Ok::<int, int>(k));
                }
            }
        }
        Ok(true)
    }

    /// Moves past a type suffix (an identifier right after the number) and returns where it
    /// starts, counted from the rollback point.
    fn parse_suffix(cursor: &mut SourceCursor) -> (r: Option<u32>)
        requires
            old(cursor).wf(),
        ensures
            final(cursor).wf(),
            final(cursor).same_text(old(cursor)),
            final(cursor).rb() == old(cursor).rb(),
            (r, final(cursor).idx()) == spec_parse_suffix(
                old(cursor).src(),
                old(cursor).rb(),
                old(cursor).idx(),
            ),
    {
        proof {
            cursor.lemma_wf();
        }
        if !cursor.is_fn(Tokenizer::is_ident_start) {
            return None;
        }
        let pos = cursor.relative_char_offset();
        let ghost i = cursor.idx();
        cursor.while_fn(Tokenizer::is_ident_cont);
        proof {
            lemma_run_end_unique(cursor.src(), i, cursor.idx(), |c: char| spec_is_ident_cont(c));
        }
        if pos == 0 {
            None
        } else {
            Some(pos)
        }
    }

    /// Reads a number literal at the cursor: `Ok(None)` (nothing consumed) when there is none,
    /// and an error for a malformed one. Numbers are decimal (with an optional fraction and
    /// exponent) or binary, octal or hexadecimal integers, with an optional type suffix.
    pub fn parse<'a>(cursor: &mut SourceCursor<'a>) -> (r: Result<Option<Self>, TokenError<'a>>)
        requires
            old(cursor).wf(),
        ensures
            final(cursor).wf(),
            final(cursor).same_text(old(cursor)),
            match lex_number_from(old(cursor).src(), old(cursor).rb(), old(cursor).idx()) {
                NumberScan::NoNumber => r == Ok::<Option<Self>, TokenError<'a>>(None)
                    && final(cursor).idx() == old(cursor).idx() && final(cursor).rb()
                    == old(cursor).rb(),
                NumberScan::Number(n, e) => r == Ok::<Option<Self>, TokenError<'a>>(Some(n))
                    && final(cursor).idx() == e && final(cursor).rb() == old(cursor).rb(),
                NumberScan::Error(kind, e) => r == Err::<Option<Self>, TokenError<'a>>(
                    TokenError {
                        span: SourceSpan::spec_new(
                            old(cursor).path(),
                            old(cursor).src_ref(),
                            old(cursor).rb(),
                            e,
                        ),
                        kind,
                    },
                ) && final(cursor).idx() == e && final(cursor).rb() == e,
            },
    {
        let ghost s = cursor.src();
        let ghost i = cursor.idx();
        proof {
            cursor.lemma_wf();
            lemma_starts_with_single(s, spec_parse_base(s, i).1, '.');
        }
        let base = Self::parse_base(cursor);
        let ghost j = cursor.idx();
        let has_digits = Self::parse_digits(cursor, base)?;
        if !has_digits {
            if base != IntegerBase::Decimal {
                return Err(TokenError { span: cursor.commit(), kind: TokenErrorKind::ExpectedDigits });
            }
            if !cursor.is_char_and_then_fn('.', Self::is_decimal_digit) {
                return Ok(None);
            }
        }
        if base != IntegerBase::Decimal {
            return Ok(Some(Self { kind: NumberLiteralKind::Integer(base), suffix_start: Self::parse_suffix(cursor) }));
        }
        let fraction_or_exponent = cursor.is_char_and_then_fn('.', Self::is_decimal_digit) || cursor.is_fn(
            Self::is_exponent_marker,
        );
        if !fraction_or_exponent {
            return Ok(Some(Self { kind: NumberLiteralKind::Integer(base), suffix_start: Self::parse_suffix(cursor) }));
        }
        let ghost k = cursor.idx();
        if cursor.is_char_and_then_fn('.', Self::is_decimal_digit) {
            cursor.advance();
            Self::parse_digits(cursor, IntegerBase::Decimal)?;
        }
        let ghost m = cursor.idx();
        let exponent = cursor.is_fn(Self::is_exponent_marker);
        if exponent {
            cursor.advance();
            cursor.consume_fn(Self::is_sign);
            if !Self::parse_digits(cursor, IntegerBase::Decimal)? {
                return Err(TokenError { span: cursor.commit(), kind: TokenErrorKind::ExpectedExponentDigits });
            }
        }
        Ok(Some(Self { kind: NumberLiteralKind::Float, suffix_start: Self::parse_suffix(cursor) }))
    }
}

/// The base marked by a prefix at `i`, and the index after the prefix.
pub open spec fn spec_parse_base(s: Seq<char>, i: int) -> (IntegerBase, int) {
    if starts_with_at(s, i, seq!['0', 'b']) || starts_with_at(s, i, seq!['0', 'B']) {
        (IntegerBase::Binary, i + 2)
    } else if starts_with_at(s, i, seq!['0', 'o']) || starts_with_at(s, i, seq!['0', 'O']) {
        (IntegerBase::Octal, i + 2)
    } else if starts_with_at(s, i, seq!['0', 'x']) || starts_with_at(s, i, seq!['0', 'X']) {
        (IntegerBase::Hexadecimal, i + 2)
    } else {
        (IntegerBase::Decimal, i)
    }
}

/// The digits of `base` from the digit at `i` on, with underscores between them: `Ok` of
/// the index after them, or `Err` of the index after underscores that no digit follows.
pub open spec fn digits_from(s: Seq<char>, i: int, base: IntegerBase) -> Result<int, int>
    decreases s.len() - i,
{
    if i < 0 || i >= s.len() {
        Ok(i)
    } else {
        let k = run_end(s, i + 1, |c: char| is_underscore(c));
        let digit_next = k < s.len() && base.spec_is_digit(s[k]);
        if k > i + 1 && !digit_next {
            Err(k)
        } else if digit_next && i < k <= s.len() {
            digits_from(s, k, base)
        } else {
            Ok(k)
        }
    }
}

proof fn lemma_digits_from_unfold(s: Seq<char>, i: int, base: IntegerBase)
    requires
        0 <= i < s.len(),
    ensures
        i + 1 <= run_end(s, i + 1, |c: char| is_underscore(c)) <= s.len(),
        digits_from(s, i, base) matches Ok(e) ==> i < e <= s.len(),
        digits_from(s, i, base) matches Err(e) ==> i < e <= s.len(),
    decreases s.len() - i,
{
    lemma_run_end_bounds(s, i + 1, |c: char| is_underscore(c));
    let k = run_end(s, i + 1, |c: char| is_underscore(c));
    if k < s.len() && base.spec_is_digit(s[k]) {
        lemma_digits_from_unfold(s, k, base);
    }
}

/// `Ok(None)` when there is no digit of `base` at `i`; else what `digits_from` finds.
pub open spec fn scan_digits(s: Seq<char>, i: int, base: IntegerBase) -> Result<Option<int>, int> {
    if 0 <= i < s.len() && base.spec_is_digit(s[i]) {
        match digits_from(s, i, base) {
            Ok(e) => Ok(Some(e)),
            Err(e) => Err(e),
        }
    } else {
        Ok(None)
    }
}

/// A type suffix at `i`: where it starts counted from `start`, and the index after it.
pub open spec fn spec_parse_suffix(s: Seq<char>, start: int, i: int) -> (Option<u32>, int) {
    if 0 <= i < s.len() && spec_is_ident_start(s[i]) {
        (
            if i - start == 0 {
                None
            } else {
                Some((i - start) as u32)
            },
            run_end(s, i, |c: char| spec_is_ident_cont(c)),
        )
    } else {
        (None, i)
    }
}

/// The number literal that starts at `i`, if any.
pub open spec fn lex_number(s: Seq<char>, i: int) -> NumberScan {
    lex_number_from(s, i, i)
}

/// The number literal that starts at `i`, if any, with a suffix's start counted from
/// `start`. A `.` continues the number only when a digit follows it (so `1..5` is the
/// integer `1` and a range); `e` or `E` starts an exponent.
pub open spec fn lex_number_from(s: Seq<char>, start: int, i: int) -> NumberScan {
    let (base, j) = spec_parse_base(s, i);
    match scan_digits(s, j, base) {
        Err(e) => NumberScan::Error(TokenErrorKind::NumberTrailingUnderscore, e),
        Ok(None) => if base != IntegerBase::Decimal {
            NumberScan::Error(TokenErrorKind::ExpectedDigits, j)
        } else if !(starts_with_at(s, j, seq!['.']) && j + 1 < s.len() && spec_is_decimal_digit(
            s[j + 1],
        )) {
            NumberScan::NoNumber
        } else {
            lex_float_rest(s, start, j)
        },
        Ok(Some(k)) => if base != IntegerBase::Decimal {
            let (suffix, e) = spec_parse_suffix(s, start, k);
            NumberScan::Number(NumberLiteral { kind: NumberLiteralKind::Integer(base), suffix_start: suffix }, e)
        } else if !(0 <= k < s.len() && ((s[k] == '.' && k + 1 < s.len() && spec_is_decimal_digit(s[k + 1]))
            || s[k] == 'e' || s[k] == 'E')) {
            let (suffix, e) = spec_parse_suffix(s, start, k);
            NumberScan::Number(NumberLiteral { kind: NumberLiteralKind::Integer(base), suffix_start: suffix }, e)
        } else {
            lex_float_rest(s, start, k)
        },
    }
}

/// Where the fraction of a float literal that may start at `k` ends: `Ok` of the index after
/// it (`k` when there is none), or `Err` of the index of a trailing-underscore error.
pub open spec fn fraction_end(s: Seq<char>, k: int) -> Result<int, int> {
    if 0 <= k && k + 1 < s.len() && s[k] == '.' && spec_is_decimal_digit(s[k + 1]) {
        match scan_digits(s, k + 1, IntegerBase::Decimal) {
            Ok(Some(e)) => Ok(e),
            Ok(None) => Ok(k + 1),
            Err(e) => Err(e),
        }
    } else {
        Ok(k)
    }
}

/// The fraction, exponent and suffix of a float literal, from `k` on; a suffix's start is
/// counted from `i`.
pub open spec fn lex_float_rest(s: Seq<char>, i: int, k: int) -> NumberScan {
    match fraction_end(s, k) {
        Err(e) => NumberScan::Error(TokenErrorKind::NumberTrailingUnderscore, e),
        Ok(m) => if 0 <= m < s.len() && (s[m] == 'e' || s[m] == 'E') {
            let m1 = m + 1;
            let m2 = if m1 < s.len() && (s[m1] == '+' || s[m1] == '-') {
                m1 + 1
            } else {
                m1
            };
            match scan_digits(s, m2, IntegerBase::Decimal) {
                Err(e) => NumberScan::Error(TokenErrorKind::NumberTrailingUnderscore, e),
                Ok(None) => NumberScan::Error(TokenErrorKind::ExpectedExponentDigits, m2),
                Ok(Some(m3)) => {
                    let (suffix, e) = spec_parse_suffix(s, i, m3);
                    NumberScan::Number(NumberLiteral { kind: NumberLiteralKind::Float, suffix_start: suffix }, e)
                },
            }
        } else {
            let (suffix, e) = spec_parse_suffix(s, i, m);
            NumberScan::Number(NumberLiteral { kind: NumberLiteralKind::Float, suffix_start: suffix }, e)
        },
    }
}

/// A number, and an error in one, always covers at least one character.
pub proof fn lemma_lex_number_bounds(s: Seq<char>, i: int)
    requires
        0 <= i < s.len(),
    ensures
        lex_number(s, i) matches NumberScan::Number(_, e) ==> i < e <= s.len(),
        lex_number(s, i) matches NumberScan::Error(_, e) ==> i < e <= s.len(),
{
    lemma_lex_number_from_bounds(s, i, i);
}

/// A number read from `i`, and an error in one, always covers at least one character,
/// wherever suffixes are counted from.
pub proof fn lemma_lex_number_from_bounds(s: Seq<char>, start: int, i: int)
    requires
        0 <= i < s.len(),
    ensures
        lex_number_from(s, start, i) matches NumberScan::Number(_, e) ==> i < e <= s.len(),
        lex_number_from(s, start, i) matches NumberScan::Error(_, e) ==> i < e <= s.len(),
{
    let (base, j) = spec_parse_base(s, i);
    lemma_starts_with_pair(s, i, '0', 'b');
    lemma_starts_with_pair(s, i, '0', 'B');
    lemma_starts_with_pair(s, i, '0', 'o');
    lemma_starts_with_pair(s, i, '0', 'O');
    lemma_starts_with_pair(s, i, '0', 'x');
    lemma_starts_with_pair(s, i, '0', 'X');
    lemma_starts_with_single(s, j, '.');
    if 0 <= j < s.len() && base.spec_is_digit(s[j]) {
        lemma_digits_from_unfold(s, j, base);
    }
    match scan_digits(s, j, base) {
        Err(e) => {},
        Ok(None) => {
            if base == IntegerBase::Decimal && starts_with_at(s, j, seq!['.']) && j + 1 < s.len()
                && spec_is_decimal_digit(s[j + 1]) {
                lemma_float_rest_bounds(s, start, i, j);
            }
        },
        Ok(Some(k)) => {
            lemma_run_end_bounds(s, k, |c: char| spec_is_ident_cont(c));
            if base == IntegerBase::Decimal && 0 <= k < s.len() && (s[k] == '.' || s[k] == 'e'
                || s[k] == 'E') {
                lemma_float_rest_bounds(s, start, i, k);
            }
        },
    }
}

proof fn lemma_float_rest_bounds(s: Seq<char>, start: int, i: int, k: int)
    requires
        0 <= i <= k < s.len(),
        k > i || (k + 1 < s.len() && s[k] == '.' && spec_is_decimal_digit(s[k + 1])),
    ensures
        lex_float_rest(s, start, k) matches NumberScan::Number(_, e) ==> i < e <= s.len(),
        lex_float_rest(s, start, k) matches NumberScan::Error(_, e) ==> i < e <= s.len(),
{
    if k + 1 < s.len() && s[k] == '.' && spec_is_decimal_digit(s[k + 1]) {
        lemma_digits_from_unfold(s, k + 1, IntegerBase::Decimal);
    }
    match fraction_end(s, k) {
        Err(e) => {},
        Ok(m) => {
            lemma_run_end_bounds(s, m, |c: char| spec_is_ident_cont(c));
            if 0 <= m < s.len() && (s[m] == 'e' || s[m] == 'E') {
                let m1 = m + 1;
                let m2 = if m1 < s.len() && (s[m1] == '+' || s[m1] == '-') {
                    m1 + 1
                } else {
                    m1
                };
                if 0 <= m2 < s.len() && spec_is_decimal_digit(s[m2]) {
                    lemma_digits_from_unfold(s, m2, IntegerBase::Decimal);
                    match digits_from(s, m2, IntegerBase::Decimal) {
                        Ok(m3) => lemma_run_end_bounds(s, m3, |c: char| spec_is_ident_cont(c)),
                        Err(_) => {},
                    }
                }
            }
        },
    }
}

proof fn lemma_digits_run(s: Seq<char>, j: int, base: IntegerBase)
    requires
        0 <= j < s.len(),
        base.spec_is_digit(s[j]),
    ensures
        digits_from(s, j, base) matches Ok(k) ==> {
            &&& j < k <= s.len()
            &&& forall|m: int| j <= m < k ==> base.spec_is_digit(#[trigger] s[m]) || s[m] == '_'
            &&& k == s.len() || !base.spec_is_digit(s[k])
        },
    decreases s.len() - j,
{
    lemma_run_end_bounds(s, j + 1, |c: char| is_underscore(c));
    let k = run_end(s, j + 1, |c: char| is_underscore(c));
    if k < s.len() && base.spec_is_digit(s[k]) {
        lemma_digits_run(s, k, base);
    }
}

/// A type suffix starts with an identifier character and runs over all the identifier
/// characters that follow; where none starts, nothing is taken.
proof fn lemma_suffix_end(s: Seq<char>, start: int, k: int)
    requires
        start <= k,
    ensures
        ({
            let (suffix, e) = spec_parse_suffix(s, start, k);
            if 0 <= k < s.len() && spec_is_ident_start(s[k]) {
                &&& k < e <= s.len()
                &&& (e == s.len() || !spec_is_ident_cont(s[e]))
                &&& forall|m: int| k <= m < e ==> spec_is_ident_cont(#[trigger] s[m])
                &&& suffix == if k == start { None::<u32> } else { Some((k - start) as u32) }
            } else {
                e == k && suffix is None
            }
        }),
{
    if 0 <= k < s.len() && spec_is_ident_start(s[k]) {
        lemma_run_end_bounds(s, k, |c: char| spec_is_ident_cont(c));
    }
}

/// A number literal takes the identifier characters that follow it, in every base: a number
/// is never followed by the start of an identifier, so a type suffix right after the
/// digits (as `u32` in `0xFFu32`) belongs to the literal. Where the literal has a suffix,
/// its start (counted from `start`) is where the identifier characters begin and they run
/// to the literal's end. An integer's digits, after its base prefix and up to the suffix
/// (or the end), are digits of its base and underscores, and the suffix does not start with
/// such a digit.
pub proof fn lemma_number_takes_its_suffix(s: Seq<char>, start: int, i: int)
    requires
        0 <= start <= i < s.len(),
        s.len() < u32::MAX,
    ensures
        lex_number_from(s, start, i) matches NumberScan::Number(n, e) ==> {
            &&& i < e <= s.len()
            &&& (e == s.len() || !spec_is_ident_start(s[e]))
            &&& (n.suffix_start matches Some(off) ==> {
                &&& i < start + off < e
                &&& spec_is_ident_start(s[start + off])
                &&& forall|m: int| start + off <= m < e ==> spec_is_ident_cont(#[trigger] s[m])
            })
            &&& (n.kind matches NumberLiteralKind::Integer(base) ==> {
                let p = if base == IntegerBase::Decimal { i } else { i + 2 };
                let d = match n.suffix_start {
                    Some(off) => start + off,
                    None => e,
                };
                &&& p < d
                &&& forall|m: int| p <= m < d ==> base.spec_is_digit(#[trigger] s[m]) || s[m] == '_'
                &&& (d < e ==> !base.spec_is_digit(s[d]))
            })
        },
{
    lemma_lex_number_from_bounds(s, start, i);
    let (base, j) = spec_parse_base(s, i);
    lemma_starts_with_pair(s, i, '0', 'b');
    lemma_starts_with_pair(s, i, '0', 'B');
    lemma_starts_with_pair(s, i, '0', 'o');
    lemma_starts_with_pair(s, i, '0', 'O');
    lemma_starts_with_pair(s, i, '0', 'x');
    lemma_starts_with_pair(s, i, '0', 'X');
    lemma_starts_with_single(s, j, '.');
    if 0 <= j < s.len() && base.spec_is_digit(s[j]) {
        lemma_digits_from_unfold(s, j, base);
        lemma_digits_run(s, j, base);
    }
    match scan_digits(s, j, base) {
        Err(_) => {},
        Ok(None) => {
            if base == IntegerBase::Decimal && starts_with_at(s, j, seq!['.']) && j + 1 < s.len()
                && spec_is_decimal_digit(s[j + 1]) {
                lemma_float_rest_suffix(s, start, i, j);
            }
        },
        Ok(Some(k)) => {
            if base == IntegerBase::Decimal && 0 <= k < s.len() && ((s[k] == '.' && k + 1 < s.len()
                && spec_is_decimal_digit(s[k + 1])) || s[k] == 'e' || s[k] == 'E') {
                lemma_float_rest_suffix(s, start, i, k);
            } else {
                lemma_suffix_end(s, start, k);
            }
        },
    }
}

proof fn lemma_float_rest_suffix(s: Seq<char>, start: int, i: int, k: int)
    requires
        0 <= start <= i <= k < s.len(),
        s.len() < u32::MAX,
    ensures
        lex_float_rest(s, start, k) matches NumberScan::Number(n, e) ==> {
            &&& (e == s.len() || !spec_is_ident_start(s[e]))
            &&& n.kind == NumberLiteralKind::Float
            &&& (n.suffix_start matches Some(off) ==> {
                &&& k <= start + off < e
                &&& spec_is_ident_start(s[start + off])
                &&& forall|m: int| start + off <= m < e ==> spec_is_ident_cont(#[trigger] s[m])
            })
        },
{
    if k + 1 < s.len() && s[k] == '.' && spec_is_decimal_digit(s[k + 1]) {
        lemma_digits_from_unfold(s, k + 1, IntegerBase::Decimal);
    }
    match fraction_end(s, k) {
        Err(_) => {},
        Ok(m) => {
            if 0 <= m < s.len() && (s[m] == 'e' || s[m] == 'E') {
                let m1 = m + 1;
                let m2 = if m1 < s.len() && (s[m1] == '+' || s[m1] == '-') {
                    m1 + 1
                } else {
                    m1
                };
                if 0 <= m2 < s.len() && spec_is_decimal_digit(s[m2]) {
                    lemma_digits_from_unfold(s, m2, IntegerBase::Decimal);
                    match digits_from(s, m2, IntegerBase::Decimal) {
                        Ok(m3) => lemma_suffix_end(s, start, m3),
                        Err(_) => {},
                    }
                }
            } else {
                lemma_suffix_end(s, start, m);
            }
        },
    }
}

} // verus!
