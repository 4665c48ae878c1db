use pressure_shader_language::parser::diagnostic::{DiagnosticKind, DiagnosticLevel, Diagnostics};
use pressure_shader_language::parser::parse_tree::expr::Expr;
use pressure_shader_language::parser::source::SourceCursor;
use pressure_shader_language::parser::token::{TokenErrorKind, Tokenizer};

fn chars(text: &str) -> Vec<char> {
    text.chars().collect()
}

#[test]
fn positions_and_spans_are_shown_as_file_line_column() {
    let source = chars("x\n ab");
    let mut tokenizer = Tokenizer::new(&source, Some("main.psi"));
    let _ = tokenizer.next();
    let ab = tokenizer.next().ok().unwrap();
    assert_eq!(ab.span.start_pos().to_string(), "2:2");
    assert_eq!(ab.span.end_pos().to_string(), "2:4");
    assert_eq!(ab.span.to_string(), "main.psi:2:2");
    let mut anonymous = Tokenizer::new(&source, None);
    let x = anonymous.next().ok().unwrap();
    assert_eq!(x.span.to_string(), "<dev console>:1:1");
    assert_eq!(ab.span.debug_string(), "'ab'");
}

#[test]
fn quoted_span_text_escapes_newlines() {
    let source = chars("\"a\nb\" c");
    let mut tokenizer = Tokenizer::new(&source, None);
    let string = tokenizer.next().ok().unwrap();
    assert_eq!(string.span.debug_string(), "'\"a\\nb\"'");
}

#[test]
fn positions_count_up_to_many_digits() {
    let mut text = String::new();
    for _ in 0..120 {
        text.push('\n');
    }
    text.push_str("      z");
    let source = chars(&text);
    let mut tokenizer = Tokenizer::new(&source, None);
    let z = tokenizer.next().ok().unwrap();
    assert_eq!(z.span.start_pos().to_string(), "121:7");
}

#[test]
fn tokenizer_error_messages() {
    assert_eq!(TokenErrorKind::UnexpectedCharacter('@').to_string(), "Unexpected character in input: '@'.");
    assert_eq!(TokenErrorKind::UnclosedMultilineComment.to_string(), "Unclosed multiline comment in input.");
    assert_eq!(TokenErrorKind::NumberTrailingUnderscore.to_string(), "Number with trailing underscore in input.");
    assert_eq!(TokenErrorKind::ExpectedDigits.to_string(), "Expected digits in input.");
    assert_eq!(TokenErrorKind::ExpectedExponentDigits.to_string(), "Expected exponent in input.");
    assert_eq!(TokenErrorKind::UnclosedStringLiteral.to_string(), "Unclosed string literal in input.");
    let source = chars(" @");
    let mut tokenizer = Tokenizer::new(&source, Some("a.psi"));
    match tokenizer.next() {
        Err(e) => assert_eq!(e.to_string(), "error (a.psi:1:2): Unexpected character in input: '@'."),
        Ok(_) => panic!("no error"),
    }
}

#[test]
fn diagnostic_messages() {
    assert_eq!(DiagnosticLevel::Warning.to_string(), "Warning");
    assert_eq!(DiagnosticLevel::Error.to_string(), "Error");
    assert_eq!(DiagnosticLevel::Fatal.to_string(), "Fatal");
    assert_eq!(DiagnosticKind::UnexpectedEof.to_string(), "reached EOF.");
    assert_eq!(
        DiagnosticKind::Token(TokenErrorKind::ExpectedDigits).to_string(),
        "failed to parse token: Expected digits in input."
    );

    let source = chars("f(1 2");
    let mut tokenizer = Tokenizer::new(&source, None);
    let mut diagnostics = Diagnostics::new();
    let _ = Expr::try_parse(&mut tokenizer, &mut diagnostics);
    let all: Vec<String> = diagnostics.into_iter().iter().map(|d| d.to_string()).collect();
    assert_eq!(
        all,
        vec![
            "Error (<dev console>:1:5): expected symbol ')', found unexpected token '2'.".to_string(),
        ]
    );

    let source = chars("(1");
    let mut tokenizer = Tokenizer::new(&source, None);
    let mut diagnostics = Diagnostics::new();
    let _ = Expr::try_parse(&mut tokenizer, &mut diagnostics);
    let all = diagnostics.into_iter();
    assert_eq!(all[0].to_string(), "Error (<dev console>:1:3): expected symbol ')', reached EOF.");

    let source = chars("a as 1");
    let mut tokenizer = Tokenizer::new(&source, None);
    let mut diagnostics = Diagnostics::new();
    let _ = Expr::try_parse(&mut tokenizer, &mut diagnostics);
    let all = diagnostics.into_iter();
    assert_eq!(all[0].kind.to_string(), "expected type, found unexpected token '1'.");
}

#[test]
fn relative_offset_counts_utf8_bytes() {
    let source = chars("é€𝄞a");
    let mut cursor = SourceCursor::new(&source, None);
    cursor.advance();
    cursor.advance();
    cursor.advance();
    assert_eq!(cursor.relative_offset(), 9);
    assert_eq!(cursor.relative_char_offset(), 3);
    cursor.advance();
    assert_eq!(cursor.relative_offset(), 10);
    let span = cursor.commit();
    assert_eq!(cursor.relative_offset(), 0);
    assert_eq!(span.slice().len(), 4);
}
