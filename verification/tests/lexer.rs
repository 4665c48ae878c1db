use pressure_shader_language::parser::source::{SourceCursor, SourceSpan};
use pressure_shader_language::parser::token::ident::PseudoKeyword;
use pressure_shader_language::parser::token::keyword::Keyword;
use pressure_shader_language::parser::token::lexical::is_whitespace;
use pressure_shader_language::parser::token::number::{IntegerBase, NumberLiteral, NumberLiteralKind};
use pressure_shader_language::parser::token::symbol::Symbol;
use pressure_shader_language::parser::token::{TokenErrorKind, TokenKind, Tokenizer};

fn chars(text: &str) -> Vec<char> {
    text.chars().collect()
}

fn text_of(span: &SourceSpan) -> String {
    span.slice().iter().collect()
}

/// Every token up to and including `Eof`, or the first error.
fn kinds(source: &[char]) -> Result<Vec<TokenKind>, TokenErrorKind> {
    let mut tokenizer = Tokenizer::new(source, None);
    let mut out = Vec::new();
    loop {
        match tokenizer.next() {
            Ok(token) => {
                out.push(token.kind);
                if token.kind == TokenKind::Eof {
                    return Ok(out);
                }
            }
            Err(err) => return Err(err.kind),
        }
    }
}

#[test]
fn whitespace_agrees_with_std_on_every_char() {
    for c in (0u32..=0x10FFFF).filter_map(char::from_u32) {
        assert_eq!(is_whitespace(c), c.is_whitespace(), "{:?}", c);
    }
}

#[test]
fn keywords_are_recognized() {
    let source = chars("mod use fn type struct enum let static const trait impl mut as true false self");
    let expected = vec![
        Keyword::Mod,
        Keyword::Use,
        Keyword::Fn,
        Keyword::Type,
        Keyword::Struct,
        Keyword::Enum,
        Keyword::Let,
        Keyword::Static,
        Keyword::Const,
        Keyword::Trait,
        Keyword::Impl,
        Keyword::Mut,
        Keyword::As,
        Keyword::True,
        Keyword::False,
        Keyword::SelfValue,
    ];
    let mut want: Vec<TokenKind> = expected.into_iter().map(TokenKind::Keyword).collect();
    want.push(TokenKind::Eof);
    assert_eq!(kinds(&source), Ok(want));
}

#[test]
fn keyword_spelling_round_trips() {
    for k in [Keyword::Mod, Keyword::Type, Keyword::As, Keyword::SelfValue, Keyword::False] {
        let spelled = chars(k.repr());
        assert_eq!(Keyword::from(&spelled), Some(k));
    }
    assert_eq!(Keyword::from(&chars("modx")), None);
    assert_eq!(Keyword::from(&chars("")), None);
}

#[test]
fn pseudo_keywords_are_identifiers() {
    let source = chars("_ where from Self bool u8 u16 u32 u64 i8 i16 i32 i64 f16 f32 f64");
    let expected = vec![
        PseudoKeyword::Discard,
        PseudoKeyword::Where,
        PseudoKeyword::From,
        PseudoKeyword::SelfType,
        PseudoKeyword::Bool,
        PseudoKeyword::U8,
        PseudoKeyword::U16,
        PseudoKeyword::U32,
        PseudoKeyword::U64,
        PseudoKeyword::I8,
        PseudoKeyword::I16,
        PseudoKeyword::I32,
        PseudoKeyword::I64,
        PseudoKeyword::F16,
        PseudoKeyword::F32,
        PseudoKeyword::F64,
    ];
    let mut want: Vec<TokenKind> =
        expected.into_iter().map(|k| TokenKind::Identifier(Some(k))).collect();
    want.push(TokenKind::Eof);
    assert_eq!(kinds(&source), Ok(want));
    for k in [PseudoKeyword::Discard, PseudoKeyword::SelfType, PseudoKeyword::F64] {
        assert_eq!(PseudoKeyword::from(&chars(k.repr())), Some(k));
    }
}

#[test]
fn identifiers_follow_the_documented_pattern() {
    let source = chars("my_value AnotherValue _numberOne_Rated_sales_MAN $1997 a1");
    let want = vec![
        TokenKind::Identifier(None),
        TokenKind::Identifier(None),
        TokenKind::Identifier(None),
        TokenKind::Identifier(None),
        TokenKind::Identifier(None),
        TokenKind::Eof,
    ];
    assert_eq!(kinds(&source), Ok(want));
    assert!(Tokenizer::is_ident_start('$'));
    assert!(Tokenizer::is_ident_start('_'));
    assert!(!Tokenizer::is_ident_start('1'));
    assert!(Tokenizer::is_ident_cont('1'));
    assert!(!Tokenizer::is_ident_cont('-'));
}

#[test]
fn identifier_spans_cover_the_name() {
    let source = chars("  alpha $beta");
    let mut tokenizer = Tokenizer::new(&source, None);
    let first = tokenizer.next().ok().unwrap();
    assert_eq!(text_of(&first.span), "alpha");
    let second = tokenizer.next().ok().unwrap();
    assert_eq!(text_of(&second.span), "$beta");
}

#[test]
fn symbols_take_the_longest_spelling() {
    let source = chars("..= .. . <<= << <= < :: : == = != ! && & || | ^^ ^= ^ ~");
    let want = vec![
        TokenKind::Symbol(Symbol::RangeTo),
        TokenKind::Symbol(Symbol::Range),
        TokenKind::Symbol(Symbol::Dot),
        TokenKind::Symbol(Symbol::ShiftLeftAssign),
        TokenKind::Symbol(Symbol::ShiftLeft),
        TokenKind::Symbol(Symbol::LessThanOrEqual),
        TokenKind::Symbol(Symbol::LessThan),
        TokenKind::Symbol(Symbol::DoubleColon),
        TokenKind::Symbol(Symbol::Colon),
        TokenKind::Symbol(Symbol::Equal),
        TokenKind::Symbol(Symbol::Assign),
        TokenKind::Symbol(Symbol::NotEqual),
        TokenKind::Symbol(Symbol::Not),
        TokenKind::Symbol(Symbol::BooleanAnd),
        TokenKind::Symbol(Symbol::BitwiseAnd),
        TokenKind::Symbol(Symbol::BooleanOr),
        TokenKind::Symbol(Symbol::BitwiseOr),
        TokenKind::Symbol(Symbol::BooleanXor),
        TokenKind::Symbol(Symbol::BitwiseXorAssign),
        TokenKind::Symbol(Symbol::BitwiseXor),
        TokenKind::Symbol(Symbol::BitwiseNot),
        TokenKind::Eof,
    ];
    assert_eq!(kinds(&source), Ok(want));
}

#[test]
fn adjacent_symbols_split_greedily() {
    let source = chars("a<<=b..=c");
    let want = vec![
        TokenKind::Identifier(None),
        TokenKind::Symbol(Symbol::ShiftLeftAssign),
        TokenKind::Identifier(None),
        TokenKind::Symbol(Symbol::RangeTo),
        TokenKind::Identifier(None),
        TokenKind::Eof,
    ];
    assert_eq!(kinds(&source), Ok(want));
}

#[test]
fn symbol_spelling_round_trips() {
    for sym in [Symbol::RangeTo, Symbol::Range, Symbol::Dot, Symbol::DoubleColon, Symbol::Assign, Symbol::BooleanXor] {
        let source = chars(sym.repr());
        assert_eq!(kinds(&source), Ok(vec![TokenKind::Symbol(sym), TokenKind::Eof]));
    }
}

fn number(text: &str) -> NumberLiteral {
    let source = chars(text);
    match kinds(&source) {
        Ok(tokens) => match tokens[0] {
            TokenKind::NumberLiteral(n) => {
                assert_eq!(tokens.len(), 2, "{}", text);
                n
            }
            other => panic!("{}: {:?}", text, other),
        },
        Err(e) => panic!("{}: {:?}", text, e),
    }
}

#[test]
fn decimal_integers() {
    for text in ["0", "10", "1_000_000"] {
        let n = number(text);
        assert_eq!(n.kind, NumberLiteralKind::Integer(IntegerBase::Decimal));
        assert_eq!(n.suffix_start, None);
    }
}

#[test]
fn decimal_floats() {
    for text in ["0.5", "123.45", "0.00000001", "6e7", "1.5E-3", "2e+4"] {
        let n = number(text);
        assert_eq!(n.kind, NumberLiteralKind::Float, "{}", text);
        assert_eq!(n.suffix_start, None);
    }
}

#[test]
fn radix_integers_in_either_case() {
    let cases = [
        ("0x01_23_45_67_89_AB_CD_EF", IntegerBase::Hexadecimal),
        ("0X1f", IntegerBase::Hexadecimal),
        ("0o01_234_567", IntegerBase::Octal),
        ("0O7", IntegerBase::Octal),
        ("0b01000101", IntegerBase::Binary),
        ("0B1", IntegerBase::Binary),
    ];
    for (text, base) in cases {
        let n = number(text);
        assert_eq!(n.kind, NumberLiteralKind::Integer(base), "{}", text);
    }
}

#[test]
fn suffixes_are_split_off() {
    let cases = [("1u8", "1", "u8"), ("2.5f32", "2.5", "f32"), ("64i64", "64", "i64")];
    for (text, digits, suffix) in cases {
        let source = chars(text);
        let mut tokenizer = Tokenizer::new(&source, None);
        let token = tokenizer.next().ok().unwrap();
        let n = match token.kind {
            TokenKind::NumberLiteral(n) => n,
            other => panic!("{:?}", other),
        };
        assert_eq!(n.suffix_start, Some(digits.chars().count() as u32));
        let (a, b) = n.decompose(&token.span);
        assert_eq!(a.iter().collect::<String>(), digits);
        assert_eq!(b.iter().collect::<String>(), suffix);
    }
}

#[test]
fn number_errors() {
    assert_eq!(kinds(&chars("1_")), Err(TokenErrorKind::NumberTrailingUnderscore));
    assert_eq!(kinds(&chars("0x")), Err(TokenErrorKind::ExpectedDigits));
    assert_eq!(kinds(&chars("1e")), Err(TokenErrorKind::ExpectedExponentDigits));
}

#[test]
fn a_dot_without_digits_is_left_for_the_next_token() {
    // A fraction needs a digit after the dot, so `1..2` is a range of two integers.
    let want = vec![
        TokenKind::NumberLiteral(NumberLiteral {
            kind: NumberLiteralKind::Integer(IntegerBase::Decimal),
            suffix_start: None,
        }),
        TokenKind::Symbol(Symbol::Range),
        TokenKind::NumberLiteral(NumberLiteral {
            kind: NumberLiteralKind::Integer(IntegerBase::Decimal),
            suffix_start: None,
        }),
        TokenKind::Eof,
    ];
    assert_eq!(kinds(&chars("1..2")), Ok(want));
    let source = chars("1..5");
    let mut tokenizer = Tokenizer::new(&source, None);
    let first = tokenizer.next().ok().unwrap();
    assert_eq!(text_of(&first.span), "1");
    let second = tokenizer.next().ok().unwrap();
    assert_eq!(second.kind, TokenKind::Symbol(Symbol::Range));
    let field = chars("1.x");
    assert_eq!(
        kinds(&field),
        Ok(vec![
            TokenKind::NumberLiteral(NumberLiteral {
                kind: NumberLiteralKind::Integer(IntegerBase::Decimal),
                suffix_start: None,
            }),
            TokenKind::Symbol(Symbol::Dot),
            TokenKind::Identifier(None),
            TokenKind::Eof,
        ])
    );
}

#[test]
fn integer_base_values() {
    assert_eq!(IntegerBase::Hexadecimal.parse(&chars("1F")), 31);
    assert_eq!(IntegerBase::Hexadecimal.parse(&chars("ff_ff")), 0xffff);
    assert_eq!(IntegerBase::Binary.parse(&chars("1010")), 10);
    assert_eq!(IntegerBase::Octal.parse(&chars("17")), 15);
    assert_eq!(IntegerBase::Decimal.parse(&chars("1_000_000")), 1_000_000);
    assert_eq!(IntegerBase::Decimal.parse(&chars("+42")), 42);
    assert_eq!(IntegerBase::Decimal.parse(&chars("_+1")), 1);
    assert_eq!(IntegerBase::Decimal.parse(&chars("+_1_0")), 10);
    assert_eq!(IntegerBase::Hexadecimal.parse(&chars("__f__")), 15);
    assert_eq!(IntegerBase::Decimal.parse(&chars("4294967295")), u32::MAX);
    assert_eq!(IntegerBase::Hexadecimal.base(), 16);
    assert_eq!(IntegerBase::Octal.base(), 8);
    assert_eq!(IntegerBase::Binary.base(), 2);
    assert_eq!(IntegerBase::Decimal.base(), 10);
    assert_eq!(IntegerBase::Decimal.prefix_size(), 0);
    assert_eq!(IntegerBase::Binary.prefix_size(), 2);
}

#[test]
fn comments_and_whitespace_are_skipped() {
    let source = chars("// line comment\n  a /* block\n comment */ b\t\r\n");
    let want = vec![TokenKind::Identifier(None), TokenKind::Identifier(None), TokenKind::Eof];
    assert_eq!(kinds(&source), Ok(want));
}

#[test]
fn unclosed_block_comment_is_an_error() {
    assert_eq!(kinds(&chars("a /* never closed")), Err(TokenErrorKind::UnclosedMultilineComment));
}

#[test]
fn string_literals() {
    assert_eq!(kinds(&chars("\"abc\"")), Ok(vec![TokenKind::StringLiteral, TokenKind::Eof]));
    assert_eq!(kinds(&chars("\"abc")), Err(TokenErrorKind::UnclosedStringLiteral));
}

#[test]
fn unexpected_character() {
    assert_eq!(kinds(&chars("@")), Err(TokenErrorKind::UnexpectedCharacter('@')));
}

#[test]
fn empty_source_gives_eof_forever() {
    let source: Vec<char> = Vec::new();
    let mut tokenizer = Tokenizer::new(&source, Some("empty.psi"));
    for _ in 0..3 {
        let token = tokenizer.next().ok().unwrap();
        assert_eq!(token.kind, TokenKind::Eof);
        assert_eq!(token.span.file_path(), Some("empty.psi"));
    }
}

#[test]
fn peek_then_next_gives_the_same_token() {
    let source = chars("alpha + 1");
    let mut tokenizer = Tokenizer::new(&source, None);
    let peeked = tokenizer.peek().ok().unwrap();
    let again = tokenizer.peek().ok().unwrap();
    let taken = tokenizer.next().ok().unwrap();
    assert_eq!(peeked.kind, taken.kind);
    assert_eq!(again.kind, taken.kind);
    assert_eq!(text_of(&peeked.span), text_of(&taken.span));
    assert_eq!(tokenizer.next().ok().unwrap().kind, TokenKind::Symbol(Symbol::Add));
}

#[test]
fn token_positions_count_lines_and_columns() {
    let source = chars("a\n  bc\n\nd");
    let mut tokenizer = Tokenizer::new(&source, None);
    let a = tokenizer.next().ok().unwrap();
    let bc = tokenizer.next().ok().unwrap();
    let d = tokenizer.next().ok().unwrap();
    assert_eq!((a.span.start_pos().line(), a.span.start_pos().column()), (1, 1));
    assert_eq!((a.span.end_pos().line(), a.span.end_pos().column()), (1, 2));
    assert_eq!((bc.span.start_pos().line(), bc.span.start_pos().column()), (2, 3));
    assert_eq!((bc.span.end_pos().line(), bc.span.end_pos().column()), (2, 5));
    assert_eq!((d.span.start_pos().line(), d.span.start_pos().column()), (4, 1));
}

#[test]
fn joined_spans_cover_both() {
    let source = chars("ab cd ef");
    let mut tokenizer = Tokenizer::new(&source, None);
    let ab = tokenizer.next().ok().unwrap().span;
    let _cd = tokenizer.next().ok().unwrap().span;
    let ef = tokenizer.next().ok().unwrap().span;
    assert_eq!(text_of(&ab.join(ef)), "ab cd ef");
    assert_eq!(text_of(&ef.join(ab)), "ab cd ef");
    assert_eq!(ab.join(ef).start_pos(), ab.start_pos());
    assert_eq!(ab.join(ef).end_pos(), ef.end_pos());
}

#[test]
fn cursor_moves_commits_and_rolls_back() {
    let source = chars("abc\ndef");
    let mut cursor = SourceCursor::new(&source, None);
    assert_eq!(cursor.current(), Some('a'));
    assert!(cursor.is_char('a'));
    assert!(cursor.is_str("abc"));
    assert!(!cursor.is_str("abd"));
    assert!(cursor.is_char_and_then_fn('a', |c| c == 'b'));
    assert!(cursor.is_fn(|c| c.is_ascii_lowercase()));
    assert!(cursor.consume_char('a'));
    assert!(!cursor.consume_char('x'));
    assert_eq!(cursor.relative_offset(), 1);
    assert!(cursor.consume_str("bc"));
    let span = cursor.commit();
    assert_eq!(text_of(&span), "abc");
    assert_eq!(cursor.relative_offset(), 0);
    assert!(cursor.consume_fn(|c| c == '\n'));
    assert!(cursor.while_fn(|c| c.is_ascii_lowercase()));
    assert_eq!(cursor.relative_offset(), 4);
    cursor.rollback();
    assert_eq!(cursor.current(), Some('\n'));
    assert_eq!(cursor.advance(), Some('\n'));
    assert!(cursor.while_char('d'));
    assert!(!cursor.while_char('d'));
    let span = cursor.commit();
    assert_eq!(text_of(&span), "\nd");
    assert_eq!(span.end_pos().line(), 2);
    assert_eq!(span.end_pos().column(), 2);
    assert!(cursor.consume_str("ef"));
    assert!(cursor.is_eof());
    assert_eq!(cursor.current(), None);
    assert_eq!(cursor.advance(), None);
    assert_eq!(text_of(&cursor.empty_span()), "");
}

#[test]
fn eof_stays_eof_with_an_empty_span_at_the_end() {
    let source = chars("a  ");
    let mut tokenizer = Tokenizer::new(&source, None);
    assert_eq!(tokenizer.next().ok().unwrap().kind, TokenKind::Identifier(None));
    for _ in 0..3 {
        let peeked = tokenizer.peek().ok().unwrap();
        assert_eq!(peeked.kind, TokenKind::Eof);
        let token = tokenizer.next().ok().unwrap();
        assert_eq!(token.kind, TokenKind::Eof);
        assert_eq!(text_of(&token.span), "");
        assert_eq!(token.span.start_pos().column(), 4);
        assert_eq!(token.span.end_pos().column(), 4);
    }
}

#[test]
fn a_fresh_cursor_commits_an_empty_span_at_line_one_column_one() {
    let source = chars("xy");
    let mut cursor = SourceCursor::new(&source, None);
    assert_eq!(cursor.current(), Some('x'));
    assert!(!cursor.is_eof());
    assert_eq!(cursor.relative_offset(), 0);
    let span = cursor.commit();
    assert_eq!(text_of(&span), "");
    assert_eq!((span.start_pos().line(), span.start_pos().column()), (1, 1));
    assert_eq!((span.end_pos().line(), span.end_pos().column()), (1, 1));
    let empty: Vec<char> = Vec::new();
    let cursor = SourceCursor::new(&empty, None);
    assert_eq!(cursor.current(), None);
    assert!(cursor.is_eof());
}

#[test]
fn rollback_returns_to_the_last_commit() {
    let source = chars("ab\ncd");
    let mut cursor = SourceCursor::new(&source, None);
    cursor.advance();
    let first = cursor.commit();
    assert_eq!(text_of(&first), "a");
    assert!(cursor.consume_char('b'));
    assert!(cursor.while_fn(|c| c == '\n' || c == 'c'));
    assert_eq!(cursor.relative_offset(), 3);
    cursor.rollback();
    assert_eq!(cursor.relative_offset(), 0);
    assert_eq!(cursor.current(), Some('b'));
    let again = cursor.commit();
    assert_eq!(text_of(&again), "");
    assert_eq!(again.start_pos(), first.end_pos());
}

#[test]
fn number_reading_counts_from_the_rollback_point() {
    let source = chars("ab12u8");
    let mut cursor = SourceCursor::new(&source, None);
    cursor.advance();
    cursor.advance();
    let n = NumberLiteral::parse(&mut cursor).ok().unwrap().unwrap();
    assert_eq!(n.kind, NumberLiteralKind::Integer(IntegerBase::Decimal));
    assert_eq!(n.suffix_start, Some(4));
    assert_eq!(cursor.relative_offset(), 6);

    let source = chars("x0b");
    let mut cursor = SourceCursor::new(&source, None);
    cursor.advance();
    match NumberLiteral::parse(&mut cursor) {
        Err(e) => {
            assert_eq!(e.kind, TokenErrorKind::ExpectedDigits);
            assert_eq!(text_of(&e.span), "x0b");
        }
        Ok(_) => panic!("no error"),
    }

    let source = chars("..");
    let mut cursor = SourceCursor::new(&source, None);
    assert!(NumberLiteral::parse(&mut cursor).ok().unwrap().is_none());
    assert_eq!(cursor.relative_offset(), 0);
}
