use pressure_shader_language::parser::diagnostic::{
    Diagnostic, DiagnosticKind, DiagnosticLevel, Diagnostics, FatalParsingError,
};
use pressure_shader_language::parser::parse_tree::expr::atom::{ArrayKind, AtomExpr};
use pressure_shader_language::parser::parse_tree::expr::operator::infix::InfixOperator;
use pressure_shader_language::parser::parse_tree::expr::operator::postfix::PostfixOperator;
use pressure_shader_language::parser::parse_tree::expr::operator::prefix::PrefixOperator;
use pressure_shader_language::parser::parse_tree::expr::Expr;
use pressure_shader_language::parser::parse_tree::path::Path;
use pressure_shader_language::parser::parse_tree::symbol::generic::GenericArgument;
use pressure_shader_language::parser::parse_tree::symbol::part::SymbolPathPart;
use pressure_shader_language::parser::parse_tree::symbol::start::SymbolPathStart;
use pressure_shader_language::parser::parse_tree::ty::resource::ResourceKind;
use pressure_shader_language::parser::parse_tree::ty::vector::VectorKind;
use pressure_shader_language::parser::parse_tree::ty::Ty;
use pressure_shader_language::parser::parse_tree::{
    expect_ident, expect_parse, expect_symbol, peek_symbol, peek_token, try_ident, try_keyword,
    try_number, try_symbol, Expectation, MismatchHandling,
};
use pressure_shader_language::parser::source::{SourceSpan, Spanned};
use pressure_shader_language::parser::token::ident::PseudoKeyword;
use pressure_shader_language::parser::token::keyword::Keyword;
use pressure_shader_language::parser::token::symbol::Symbol;
use pressure_shader_language::parser::token::{TokenErrorKind, TokenKind, Tokenizer};

fn chars(text: &str) -> Vec<char> {
    text.chars().collect()
}

fn text_of(span: &SourceSpan) -> String {
    span.slice().iter().collect()
}

fn infix_name(op: InfixOperator) -> &'static str {
    match op {
        InfixOperator::Add => "+",
        InfixOperator::Sub => "-",
        InfixOperator::Mul => "*",
        InfixOperator::Div => "/",
        InfixOperator::Mod => "%",
        InfixOperator::Eq => "==",
        InfixOperator::Ne => "!=",
        InfixOperator::Gt => ">",
        InfixOperator::Lt => "<",
        InfixOperator::Ge => ">=",
        InfixOperator::Le => "<=",
        InfixOperator::BoolAnd => "&&",
        InfixOperator::BoolOr => "||",
        InfixOperator::BoolXor => "^^",
        InfixOperator::BitAnd => "&",
        InfixOperator::BitOr => "|",
        InfixOperator::BitXor => "^",
        InfixOperator::Shl => "<<",
        InfixOperator::Shr => ">>",
        InfixOperator::Range => "..",
        InfixOperator::RangeTo => "..=",
    }
}

fn prefix_name(op: PrefixOperator) -> &'static str {
    match op {
        PrefixOperator::Positive => "+",
        PrefixOperator::Negative => "-",
        PrefixOperator::Not => "!",
        PrefixOperator::BitwiseNot => "~",
    }
}

/// A parenthesized rendering of an expression tree; leaves are shown by their text.
fn show(e: &Spanned<Expr>) -> String {
    match &e.value {
        Expr::Atom(AtomExpr::Array(kind, items)) => {
            let a: Vec<String> = items.iter().map(show).collect();
            let head = match kind {
                ArrayKind::Array => "",
                ArrayKind::Vector => "vec",
                ArrayKind::Matrix => "mat",
            };
            format!("{}[{}]", head, a.join(", "))
        }
        Expr::Atom(AtomExpr::Struct(construction)) => {
            let names: Vec<String> = construction.path.value.iter().map(|n| text_of(&n.span)).collect();
            let fields: Vec<String> = construction
                .fields
                .iter()
                .map(|f| match &f.value.value {
                    Some(v) => format!("{}: {}", text_of(&f.value.name.span), show(v)),
                    None => text_of(&f.value.name.span),
                })
                .collect();
            format!("(new {} {{{}}})", names.join("."), fields.join(", "))
        }
        Expr::Atom(_) => text_of(&e.span),
        Expr::Error => "<error>".to_string(),
        Expr::PrefixOperation(p) => {
            let ops: Vec<&str> = p.operators.value.iter().map(|o| prefix_name(o.value)).collect();
            format!("({} {})", ops.join(" "), show(&p.operand))
        }
        Expr::InfixOperation(i) => format!(
            "({} {} {})",
            infix_name(i.operator.value),
            show(&i.operands.0),
            show(&i.operands.1)
        ),
        Expr::CastOperation(c) => {
            let tys: Vec<String> = c.casts.value.iter().map(|t| text_of(&t.value.ty.span)).collect();
            format!("(as {} {})", show(&c.expr), tys.join(" "))
        }
        Expr::PostfixOperation(p) => {
            let ops: Vec<String> = p
                .operators
                .value
                .iter()
                .map(|o| match &o.value {
                    PostfixOperator::Field(_) => format!("field {}", text_of(&o.span)),
                    PostfixOperator::Invoke(args) => {
                        let a: Vec<String> = args.iter().map(show).collect();
                        format!("call [{}]", a.join(", "))
                    }
                    PostfixOperator::Access(_) => format!("index {}", text_of(&o.span)),
                    PostfixOperator::Generics(g) => format!("generics {}", g.len()),
                })
                .collect();
            format!("(post {} {})", show(&p.operand), ops.join("; "))
        }
    }
}

struct Parsed {
    tree: Option<String>,
    diagnostics: Vec<String>,
    next: TokenKind,
}

fn kind_name(kind: &DiagnosticKind) -> String {
    match kind {
        DiagnosticKind::Token(k) => format!("token {:?}", k),
        DiagnosticKind::UnexpectedToken(span) => format!("unexpected {}", text_of(span)),
        DiagnosticKind::UnexpectedEof => "eof".to_string(),
        DiagnosticKind::ExpectedSymbol { symbol, got } => {
            format!("expected '{}', {}", symbol.repr(), kind_name(got))
        }
        DiagnosticKind::ExpectedKeyword { keyword, got } => {
            format!("expected '{}', {}", keyword.repr(), kind_name(got))
        }
        DiagnosticKind::ExpectedPseudoKeyword { keyword, got } => {
            format!("expected '{}', {}", keyword.repr(), kind_name(got))
        }
        DiagnosticKind::ExpectedIdent { got } => format!("expected ident, {}", kind_name(got)),
        DiagnosticKind::ExpectedTy { got } => format!("expected type, {}", kind_name(got)),
        DiagnosticKind::ExpectedExpr { got } => format!("expected expr, {}", kind_name(got)),
        DiagnosticKind::ExpectedGenericArgument { got } => {
            format!("expected generic, {}", kind_name(got))
        }
        DiagnosticKind::ExpectedSymbolPathPart { got } => {
            format!("expected path part, {}", kind_name(got))
        }
    }
}

fn describe(d: &Diagnostic) -> String {
    format!("{:?}: {}", d.level, kind_name(&d.kind))
}

fn parse_expr(text: &str) -> Parsed {
    let source = chars(text);
    let mut tokenizer = Tokenizer::new(&source, None);
    let mut diagnostics = Diagnostics::new();
    let tree = Expr::try_parse(&mut tokenizer, &mut diagnostics).ok().unwrap().map(|e| show(&e));
    let next = peek_token(&mut tokenizer, &mut diagnostics).kind;
    let diagnostics = diagnostics.into_iter().iter().map(describe).collect();
    Parsed { tree, diagnostics, next }
}

fn tree(text: &str) -> String {
    let parsed = parse_expr(text);
    assert_eq!(parsed.diagnostics, Vec::<String>::new(), "{}", text);
    assert_eq!(parsed.next, TokenKind::Eof, "{}", text);
    parsed.tree.unwrap()
}

#[test]
fn multiplication_binds_tighter_than_addition() {
    assert_eq!(tree("1 + 2 * 3"), "(+ 1 (* 2 3))");
    assert_eq!(tree("1 * 2 + 3"), "(+ (* 1 2) 3)");
}

#[test]
fn operators_of_one_group_associate_to_the_left() {
    assert_eq!(tree("1 - 2 - 3"), "(- (- 1 2) 3)");
    assert_eq!(tree("a / b % c"), "(% (/ a b) c)");
}

#[test]
fn parentheses_override_precedence() {
    assert_eq!(tree("(1 + 2) * 3"), "(* (+ 1 2) 3)");
}

#[test]
fn casts_bind_tighter_than_binary_operations() {
    assert_eq!(tree("1 + 2 as i32"), "(+ 1 (as 2 i32))");
}

#[test]
fn unary_operators_bind_tighter_than_casts() {
    assert_eq!(tree("-4 as i32"), "(as (- 4) i32)");
    assert_eq!(tree("x as u8 as f32"), "(as x u8 f32)");
}

#[test]
fn prefix_operators_stack() {
    assert_eq!(tree("- ! ~x"), "(- ! ~ x)");
    assert_eq!(tree("+1"), "(+ 1)");
}

#[test]
fn the_precedence_ladder() {
    assert_eq!(tree("a || b && c"), "(|| a (&& b c))");
    assert_eq!(tree("a && b == c"), "(&& a (== b c))");
    assert_eq!(tree("a == b | c"), "(== a (| b c))");
    assert_eq!(tree("a | b ^ c"), "(| a (^ b c))");
    assert_eq!(tree("a ^ b & c"), "(^ a (& b c))");
    assert_eq!(tree("a & b << c"), "(& a (<< b c))");
    assert_eq!(tree("a >> b + c"), "(>> a (+ b c))");
    assert_eq!(tree("a .. b || c"), "(.. a (|| b c))");
    assert_eq!(tree("a ..= b"), "(..= a b)");
    assert_eq!(tree("a ^^ b && c"), "(^^ a (&& b c))");
    assert_eq!(tree("a || b ^^ c"), "(|| a (^^ b c))");
    assert_eq!(tree("a ^^ b ^^ c"), "(^^ (^^ a b) c)");
    assert_eq!(tree("a ^ b ^^ c"), "(^^ (^ a b) c)");
    assert_eq!(tree("a < b != c >= d"), "(>= (!= (< a b) c) d)");
}

#[test]
fn infix_binding_powers() {
    assert_eq!(InfixOperator::Mul.binding_power(), (70, 71));
    assert_eq!(InfixOperator::Add.binding_power(), (60, 61));
    assert_eq!(InfixOperator::Shl.binding_power(), (50, 51));
    assert_eq!(InfixOperator::BitAnd.binding_power(), (45, 46));
    assert_eq!(InfixOperator::BitXor.binding_power(), (44, 45));
    assert_eq!(InfixOperator::BitOr.binding_power(), (43, 44));
    assert_eq!(InfixOperator::Le.binding_power(), (40, 41));
    assert_eq!(InfixOperator::BoolAnd.binding_power(), (30, 31));
    assert_eq!(InfixOperator::BoolXor.binding_power(), (25, 26));
    assert_eq!(InfixOperator::BoolOr.binding_power(), (20, 21));
    assert_eq!(InfixOperator::RangeTo.binding_power(), (10, 11));
}

#[test]
fn postfix_operations() {
    assert_eq!(tree("a.b"), "(post a field .b)");
    assert_eq!(tree("f(1, x + 2)"), "(post f call [1, (+ x 2)])");
    assert_eq!(tree("f(1,)"), "(post f call [1])");
    assert_eq!(tree("f()"), "(post f call [])");
    assert_eq!(tree("v[0]"), "(post v index [0])");
    assert_eq!(tree("a.b(c)[1]"), "(post a field .b; call [c]; index [1])");
    assert_eq!(tree("-a.b"), "(- (post a field .b))");
}

#[test]
fn atoms() {
    assert_eq!(tree("true"), "true");
    assert_eq!(tree("false"), "false");
    assert_eq!(tree("0x1F"), "0x1F");
    assert_eq!(tree("foo::bar"), "foo::bar");
    assert_eq!(tree("(x)"), "(x)");
}

#[test]
fn boolean_and_number_atoms_keep_their_value() {
    let source = chars("true");
    let mut tokenizer = Tokenizer::new(&source, None);
    let mut diagnostics = Diagnostics::new();
    let e = Expr::try_parse(&mut tokenizer, &mut diagnostics).ok().unwrap().unwrap();
    assert!(matches!(e.value, Expr::Atom(AtomExpr::Boolean(true))));
    let source = chars("7u8");
    let mut tokenizer = Tokenizer::new(&source, None);
    let e = Expr::try_parse(&mut tokenizer, &mut diagnostics).ok().unwrap().unwrap();
    match e.value {
        Expr::Atom(AtomExpr::Number(n)) => assert_eq!(n.suffix_start, Some(1)),
        _ => panic!("not a number"),
    }
}

#[test]
fn nothing_is_taken_when_no_expression_starts() {
    let parsed = parse_expr(") 1");
    assert!(parsed.tree.is_none());
    assert!(parsed.diagnostics.is_empty());
    assert_eq!(parsed.next, TokenKind::Symbol(Symbol::ParenClose));
}

#[test]
fn a_missing_operand_is_reported_and_replaced() {
    let parsed = parse_expr("1 +");
    assert_eq!(parsed.tree.unwrap(), "(+ 1 <error>)");
    assert_eq!(parsed.diagnostics, vec!["Error: expected expr, eof".to_string()]);
}

#[test]
fn a_missing_closing_parenthesis_is_reported() {
    let parsed = parse_expr("(1 + 2");
    assert_eq!(parsed.tree.unwrap(), "(+ 1 2)");
    assert_eq!(parsed.diagnostics, vec!["Error: expected ')', eof".to_string()]);
}

#[test]
fn a_token_error_is_reported_and_parsing_goes_on() {
    let parsed = parse_expr("@ x * 1");
    assert_eq!(parsed.diagnostics, vec!["Error: token UnexpectedCharacter('@')".to_string()]);
    assert!(parsed.tree.is_none());
    assert_eq!(parsed.next, TokenKind::Symbol(Symbol::Multiply));
    let parsed = parse_expr("@ x + 1");
    assert_eq!(parsed.tree.unwrap(), "(+ 1)");
    assert_eq!(parsed.next, TokenKind::Eof);
}

#[test]
fn recovery_stops_at_a_separator() {
    let parsed = parse_expr("f(1, , 2)");
    assert_eq!(parsed.tree.unwrap(), "(post f call [1, <error>, 2])");
    assert_eq!(parsed.diagnostics, vec!["Error: expected expr, unexpected ,".to_string()]);
    assert_eq!(parsed.next, TokenKind::Eof);
}

#[test]
fn recovery_takes_bracketed_groups_whole() {
    let parsed = parse_expr("f(1, { a, (b) }, 2)");
    assert_eq!(parsed.tree.unwrap(), "(post f call [1, <error>, 2])");
    assert_eq!(parsed.diagnostics, vec!["Error: expected expr, unexpected {".to_string()]);
    assert_eq!(parsed.next, TokenKind::Eof);
}

#[test]
fn a_missing_separator_is_reported_and_the_token_taken() {
    let parsed = parse_expr("f(1 2) + 3");
    assert_eq!(parsed.tree.unwrap(), "(post f call [1])");
    assert_eq!(parsed.diagnostics, vec!["Error: expected ')', unexpected 2".to_string()]);
    assert_eq!(parsed.next, TokenKind::Symbol(Symbol::ParenClose));
}

#[test]
fn a_mismatched_closing_bracket_is_fatal() {
    let source = chars("[i32; ]");
    let mut tokenizer = Tokenizer::new(&source, None);
    let mut diagnostics = Diagnostics::new();
    let ty = Ty::try_parse(&mut tokenizer, &mut diagnostics).ok().unwrap().unwrap();
    match ty.value {
        Ty::Slice(s) => assert!(matches!(s.len.unwrap().value, Expr::Error)),
        _ => panic!("not a slice"),
    }
    let source = chars("f({ ] )");
    let mut tokenizer = Tokenizer::new(&source, None);
    let mut diagnostics = Diagnostics::new();
    let r = Expr::try_parse(&mut tokenizer, &mut diagnostics);
    assert!(matches!(r, Err(FatalParsingError)));
    let all = diagnostics.into_iter();
    assert_eq!(all.last().unwrap().level, DiagnosticLevel::Fatal);
    assert_eq!(describe(&all[0]), "Error: expected expr, unexpected {");
}

fn parse_ty(text: &str) -> (Spanned<Ty>, usize) {
    let source: &'static [char] = Box::leak(chars(text).into_boxed_slice());
    let mut tokenizer = Tokenizer::new(source, None);
    let mut diagnostics = Diagnostics::new();
    let ty = Ty::try_parse(&mut tokenizer, &mut diagnostics).ok().unwrap().unwrap();
    (ty, diagnostics.into_iter().len())
}

#[test]
fn reference_and_array_types() {
    let (ty, errors) = parse_ty("&mut [i32; 4]");
    assert_eq!(errors, 0);
    assert_eq!(text_of(&ty.span), "&mut [i32; 4]");
    match ty.value {
        Ty::Reference(r) => {
            assert!(r.mutable.is_some());
            match r.base.value {
                Ty::Slice(s) => {
                    assert!(matches!(s.base.value, Ty::Symbol(_)));
                    assert_eq!(text_of(&s.len.unwrap().span), "4");
                }
                _ => panic!("not a slice"),
            }
        }
        _ => panic!("not a reference"),
    }
    let (ty, errors) = parse_ty("&[f32]");
    assert_eq!(errors, 0);
    match ty.value {
        Ty::Reference(r) => {
            assert!(r.mutable.is_none());
            match r.base.value {
                Ty::Slice(s) => assert!(s.len.is_none()),
                _ => panic!("not a slice"),
            }
        }
        _ => panic!("not a reference"),
    }
}

#[test]
fn generic_types() {
    let (ty, errors) = parse_ty("Map[K, const N + 1,]");
    assert_eq!(errors, 0);
    match ty.value {
        Ty::Symbol(path) => {
            assert!(matches!(path.first.value, SymbolPathStart::Ident(None)));
            assert_eq!(path.parts.len(), 1);
            match &path.parts[0].value {
                SymbolPathPart::Generics(args) => {
                    assert_eq!(args.len(), 2);
                    assert!(matches!(args[0].value, GenericArgument::Ty(_)));
                    assert!(matches!(args[1].value, GenericArgument::Const(_)));
                }
                _ => panic!("not generics"),
            }
        }
        _ => panic!("not a path"),
    }
}

#[test]
fn type_parts_start_a_path() {
    let (ty, errors) = parse_ty("type[T as Trait]::Item");
    assert_eq!(errors, 0);
    match ty.value {
        Ty::Symbol(path) => {
            match &path.first.value {
                SymbolPathStart::Type(part) => assert!(part.as_ty.is_some()),
                _ => panic!("not a type part"),
            }
            assert_eq!(path.parts.len(), 1);
            assert!(matches!(path.parts[0].value, SymbolPathPart::Ident(None)));
            assert_eq!(text_of(&path.parts[0].span), "Item");
        }
        _ => panic!("not a path"),
    }
}

#[test]
fn a_path_part_needs_a_name_or_generics() {
    let (ty, errors) = parse_ty("a:: 1");
    assert_eq!(errors, 1);
    match ty.value {
        Ty::Symbol(path) => assert!(matches!(path.parts[0].value, SymbolPathPart::Error)),
        _ => panic!("not a path"),
    }
}

#[test]
fn a_missing_type_is_reported() {
    let source = chars("1");
    let mut tokenizer = Tokenizer::new(&source, None);
    let mut diagnostics = Diagnostics::new();
    let ty = Ty::expect_parse(&mut tokenizer, &mut diagnostics, MismatchHandling::Skip).ok().unwrap();
    assert!(matches!(ty.value, Ty::Error));
    let all = diagnostics.into_iter();
    assert_eq!(all.len(), 1);
    assert_eq!(describe(&all[0]), "Error: expected type, unexpected 1");
}

#[test]
fn paths() {
    let source = chars("a::b::c d");
    let mut tokenizer = Tokenizer::new(&source, None);
    let mut diagnostics = Diagnostics::new();
    let path = Path::try_parse(&mut tokenizer, &mut diagnostics).ok().unwrap().unwrap();
    assert_eq!(path.value.len(), 3);
    assert_eq!(text_of(&path.span), "a::b::c");
    assert!(!diagnostics.has_error_or_fatal());

    let source = chars("a:: ;");
    let mut tokenizer = Tokenizer::new(&source, None);
    let mut diagnostics = Diagnostics::new();
    let path = Path::try_parse(&mut tokenizer, &mut diagnostics).ok().unwrap().unwrap();
    assert_eq!(path.value.len(), 1);
    assert!(diagnostics.has_error_or_fatal());

    let source = chars("1");
    let mut tokenizer = Tokenizer::new(&source, None);
    let mut diagnostics = Diagnostics::new();
    assert!(Path::try_parse(&mut tokenizer, &mut diagnostics).ok().unwrap().is_none());
}

#[test]
fn token_helpers() {
    let source = chars("where x 5 as ; y");
    let mut tokenizer = Tokenizer::new(&source, None);
    let mut d = Diagnostics::new();
    let w = try_ident(&mut tokenizer, &mut d).unwrap();
    assert_eq!(w.value, Some(PseudoKeyword::Where));
    assert!(try_number(&mut tokenizer, &mut d).is_none());
    assert_eq!(try_ident(&mut tokenizer, &mut d).unwrap().value, None);
    assert!(try_number(&mut tokenizer, &mut d).is_some());
    assert!(try_symbol(&mut tokenizer, &mut d, Symbol::Semicolon).is_none());
    assert!(try_keyword(&mut tokenizer, &mut d, Keyword::As).is_some());
    assert!(peek_symbol(&mut tokenizer, &mut d, Symbol::Semicolon).is_some());
    let semi = expect_symbol(&mut tokenizer, &mut d, Symbol::Semicolon, MismatchHandling::Skip);
    assert_eq!(text_of(&semi.ok().unwrap()), ";");
    let y = expect_ident(&mut tokenizer, &mut d, MismatchHandling::Skip).ok().unwrap();
    assert_eq!(text_of(&y.span), "y");
    assert!(!d.has_error_or_fatal());
    let missing = expect_ident(&mut tokenizer, &mut d, MismatchHandling::Fatal);
    assert!(missing.is_err());
    let all = d.into_iter();
    assert_eq!(describe(&all[0]), "Fatal: expected ident, eof");
}

#[test]
fn expect_parse_hands_back_a_found_value() {
    let source = chars("x");
    let mut tokenizer = Tokenizer::new(&source, None);
    let mut d = Diagnostics::new();
    let found = Spanned { span: tokenizer.empty_span(), value: 5u8 };
    let r = expect_parse(&mut tokenizer, &mut d, MismatchHandling::Skip, Some(found), Expectation::Expr, 0u8);
    assert_eq!(r.ok().unwrap().value, 5);
    let r = expect_parse(&mut tokenizer, &mut d, MismatchHandling::Consume, None, Expectation::Ty, 0u8);
    let got = r.ok().unwrap();
    assert_eq!(got.value, 0);
    assert_eq!(text_of(&got.span), "x");
    assert_eq!(describe(&d.into_iter()[0]), "Error: expected type, unexpected x");
}

#[test]
fn diagnostics_track_errors() {
    let source = chars("abc");
    let tokenizer = Tokenizer::new(&source, Some("f.psi"));
    let span = tokenizer.empty_span();
    let mut d = Diagnostics::new();
    assert!(!d.has_error_or_fatal());
    d.push(Diagnostic { kind: DiagnosticKind::UnexpectedEof, level: DiagnosticLevel::Warning, span });
    assert!(!d.has_error_or_fatal());
    d.push_error(DiagnosticKind::Token(TokenErrorKind::ExpectedDigits), span);
    assert!(d.has_error_or_fatal());
    let r = d.push_fatal(DiagnosticKind::UnexpectedEof, span);
    assert_eq!(r, Err(FatalParsingError));
    assert!(d.has_error_or_fatal());
    let all = d.into_iter();
    assert_eq!(all.len(), 3);
    assert_eq!(all[0].level, DiagnosticLevel::Warning);
    assert_eq!(all[1].level, DiagnosticLevel::Error);
    assert_eq!(all[2].level, DiagnosticLevel::Fatal);
    assert_eq!(all[2].span.file_path(), Some("f.psi"));
}

#[test]
fn a_fatal_diagnostic_alone_sets_the_flag() {
    let source = chars("");
    let tokenizer = Tokenizer::new(&source, None);
    let mut d = Diagnostics::new();
    let _ = d.push_fatal(DiagnosticKind::UnexpectedEof, tokenizer.empty_span());
    assert!(d.has_error_or_fatal());
}

#[test]
fn diagnostic_kind_from_token() {
    let source = chars("x");
    let mut tokenizer = Tokenizer::new(&source, None);
    let x = tokenizer.next().ok().unwrap();
    let eof = tokenizer.next().ok().unwrap();
    assert!(matches!(DiagnosticKind::from_token(x), DiagnosticKind::UnexpectedToken(_)));
    assert!(matches!(DiagnosticKind::from_token(eof), DiagnosticKind::UnexpectedEof));
}

#[test]
fn token_errors_become_error_diagnostics() {
    let source = chars("@");
    let mut tokenizer = Tokenizer::new(&source, None);
    let err = match tokenizer.next() {
        Err(err) => err,
        Ok(_) => panic!("no error"),
    };
    let d = Diagnostic::from(err);
    assert_eq!(d.level, DiagnosticLevel::Error);
    assert!(matches!(d.kind, DiagnosticKind::Token(TokenErrorKind::UnexpectedCharacter('@'))));
    assert_eq!(text_of(&d.span), "@");
}

#[test]
fn vector_types() {
    let (ty, errors) = parse_ty("vec[f32; 4]");
    assert_eq!(errors, 0);
    assert_eq!(text_of(&ty.span), "vec[f32; 4]");
    match ty.value {
        Ty::Vector(v) => {
            assert_eq!(v.kind, VectorKind::Vector);
            assert!(matches!(v.elem.value, Ty::Symbol(_)));
            assert_eq!(text_of(&v.elem.span), "f32");
            assert_eq!(text_of(&v.len.span), "4");
            assert!(v.rows.is_none());
        }
        _ => panic!("not a vector"),
    }
    let source = chars("vec[f32; 4]");
    let mut tokenizer = Tokenizer::new(&source, None);
    let mut diagnostics = Diagnostics::new();
    let _ = Ty::try_parse(&mut tokenizer, &mut diagnostics).ok().unwrap().unwrap();
    assert_eq!(tokenizer.next().ok().unwrap().kind, TokenKind::Eof);
}

#[test]
fn matrix_types() {
    let (ty, errors) = parse_ty("mat[f32; 3, 2]");
    assert_eq!(errors, 0);
    assert_eq!(text_of(&ty.span), "mat[f32; 3, 2]");
    match ty.value {
        Ty::Vector(m) => {
            assert_eq!(m.kind, VectorKind::Matrix);
            assert_eq!(text_of(&m.len.span), "3");
            assert_eq!(text_of(&m.rows.unwrap().span), "2");
        }
        _ => panic!("not a matrix"),
    }
    let (ty, errors) = parse_ty("mat[f64; N]");
    assert_eq!(errors, 0);
    match ty.value {
        Ty::Vector(m) => {
            assert_eq!(m.kind, VectorKind::Matrix);
            assert_eq!(text_of(&m.len.span), "N");
            assert!(m.rows.is_none());
        }
        _ => panic!("not a matrix"),
    }
    let (ty, errors) = parse_ty("[vec[i32; 2]; 3]");
    assert_eq!(errors, 0);
    match ty.value {
        Ty::Slice(s) => assert!(matches!(s.base.value, Ty::Vector(_))),
        _ => panic!("not an array"),
    }
}

#[test]
fn a_vector_needs_its_length() {
    let source = chars("vec[f32]");
    let mut tokenizer = Tokenizer::new(&source, None);
    let mut diagnostics = Diagnostics::new();
    let ty = Ty::try_parse(&mut tokenizer, &mut diagnostics).ok().unwrap().unwrap();
    match ty.value {
        Ty::Vector(v) => assert!(matches!(v.len.value, Expr::Error)),
        _ => panic!("not a vector"),
    }
    let all = diagnostics.into_iter();
    assert_eq!(all.len(), 2);
    assert_eq!(describe(&all[0]), "Error: expected ';', unexpected ]");
    assert_eq!(tokenizer.next().ok().unwrap().kind, TokenKind::Eof);
    let (ty, errors) = parse_ty("vec[f32; 2, 3]");
    assert_eq!(errors, 1);
    assert!(matches!(ty.value, Ty::Vector(_)));
}

#[test]
fn a_path_without_a_name_after_colons_skips_to_a_semicolon_or_bracket() {
    let source = chars("a:: 1 ( , ) 2 ; b");
    let mut tokenizer = Tokenizer::new(&source, None);
    let mut diagnostics = Diagnostics::new();
    let path = Path::try_parse(&mut tokenizer, &mut diagnostics).ok().unwrap().unwrap();
    assert_eq!(path.value.len(), 1);
    assert_eq!(text_of(&path.span), "a");
    let all = diagnostics.into_iter();
    assert_eq!(all.len(), 1);
    assert_eq!(describe(&all[0]), "Error: expected ident, unexpected 1");
    let mut d = Diagnostics::new();
    assert_eq!(peek_token(&mut tokenizer, &mut d).kind, TokenKind::Symbol(Symbol::Semicolon));

    let source = chars("a::b:: + ] c");
    let mut tokenizer = Tokenizer::new(&source, None);
    let mut diagnostics = Diagnostics::new();
    let path = Path::try_parse(&mut tokenizer, &mut diagnostics).ok().unwrap().unwrap();
    assert_eq!(path.value.len(), 2);
    assert_eq!(peek_token(&mut tokenizer, &mut diagnostics).kind, TokenKind::Symbol(Symbol::BracketClose));

    let source = chars("a:: x");
    let mut tokenizer = Tokenizer::new(&source, None);
    let mut diagnostics = Diagnostics::new();
    let path = Path::try_parse(&mut tokenizer, &mut diagnostics).ok().unwrap().unwrap();
    assert_eq!(path.value.len(), 2);
    let source = chars("a:: 1 2");
    let mut tokenizer = Tokenizer::new(&source, None);
    let mut diagnostics = Diagnostics::new();
    let path = Path::try_parse(&mut tokenizer, &mut diagnostics).ok().unwrap().unwrap();
    assert_eq!(path.value.len(), 1);
    assert_eq!(peek_token(&mut tokenizer, &mut diagnostics).kind, TokenKind::Eof);
}

#[test]
fn skip_to_leaves_the_token_it_stops_at() {
    let source = chars("x y ] z");
    let mut tokenizer = Tokenizer::new(&source, None);
    let mut d = Diagnostics::new();
    let r = expect_symbol(
        &mut tokenizer,
        &mut d,
        Symbol::Comma,
        MismatchHandling::SkipTo(TokenKind::Symbol(Symbol::BracketClose), TokenKind::Symbol(Symbol::Semicolon)),
    );
    assert_eq!(text_of(&r.ok().unwrap()), "x");
    assert_eq!(peek_token(&mut tokenizer, &mut d).kind, TokenKind::Symbol(Symbol::BracketClose));
    assert_eq!(d.into_iter().len(), 1);
}

#[test]
fn diagnostics_come_out_in_push_order() {
    let source = chars("abc");
    let tokenizer = Tokenizer::new(&source, None);
    let span = tokenizer.empty_span();
    let mut d = Diagnostics::new();
    d.push_error(DiagnosticKind::UnexpectedEof, span);
    d.push(Diagnostic { kind: DiagnosticKind::Token(TokenErrorKind::ExpectedDigits), level: DiagnosticLevel::Error, span });
    let _ = d.push_fatal(DiagnosticKind::UnexpectedEof, span);
    let all = d.into_iter();
    assert_eq!(all.len(), 3);
    assert!(matches!(all[0].kind, DiagnosticKind::UnexpectedEof));
    assert!(matches!(all[1].kind, DiagnosticKind::Token(TokenErrorKind::ExpectedDigits)));
    assert_eq!(all[2].level, DiagnosticLevel::Fatal);
}

#[test]
fn resource_types() {
    let cases = [
        ("uniform<Light>", ResourceKind::Uniform, false),
        ("storage<[f32]>", ResourceKind::Storage, false),
        ("storage<mut [f32]>", ResourceKind::Storage, true),
        ("texture_1d<f32>", ResourceKind::Texture1d, false),
        ("texture_2d<mut f32>", ResourceKind::Texture2d, true),
        ("texture_2d_array<u32>", ResourceKind::Texture2dArray, false),
        ("texture_3d<f32>", ResourceKind::Texture3d, false),
    ];
    for (text, kind, mutable) in cases {
        let (ty, errors) = parse_ty(text);
        assert_eq!(errors, 0, "{}", text);
        assert_eq!(text_of(&ty.span), text);
        match ty.value {
            Ty::Resource(r) => {
                assert_eq!(r.kind, kind, "{}", text);
                assert_eq!(r.mutable.is_some(), mutable, "{}", text);
                assert!(r.argument.is_some());
            }
            _ => panic!("not a resource: {}", text),
        }
    }
    let (ty, errors) = parse_ty("sampler");
    assert_eq!(errors, 0);
    match ty.value {
        Ty::Resource(r) => {
            assert_eq!(r.kind, ResourceKind::Sampler);
            assert!(r.argument.is_none());
        }
        _ => panic!("not a resource"),
    }
    let (ty, errors) = parse_ty("uniform<mut T>");
    assert!(errors > 0);
    assert!(matches!(ty.value, Ty::Resource(_)));
}

#[test]
fn resource_references() {
    let (ty, errors) = parse_ty("*storage<mut [u32]>");
    assert_eq!(errors, 0);
    assert_eq!(text_of(&ty.span), "*storage<mut [u32]>");
    match ty.value {
        Ty::ResourceRef(r) => match r.base.value {
            Ty::Resource(inner) => assert_eq!(inner.kind, ResourceKind::Storage),
            _ => panic!("not a resource"),
        },
        _ => panic!("not a resource reference"),
    }
    let (ty, errors) = parse_ty("*sampler");
    assert_eq!(errors, 0);
    assert!(matches!(ty.value, Ty::ResourceRef(_)));
}

#[test]
fn array_vector_and_matrix_literals() {
    assert_eq!(tree("[1, 2, 3, 4, 5]"), "[1, 2, 3, 4, 5]");
    assert_eq!(tree("[]"), "[]");
    assert_eq!(tree("[a + 1, b,]"), "[(+ a 1), b]");
    assert_eq!(tree("vec[1, 0, 0]"), "vec[1, 0, 0]");
    assert_eq!(
        tree("mat[vec[1, 0, 0], vec[0, 1, 0], vec[0, 0, 1]]"),
        "mat[vec[1, 0, 0], vec[0, 1, 0], vec[0, 0, 1]]"
    );
    assert_eq!(tree("vec[1, 2, 3] as vec[f64; 4]"), "(as vec[1, 2, 3] vec[f64; 4])");
    assert_eq!(tree("[1, 2][0]"), "(post [1, 2] index [0])");
    let parsed = parse_expr("[1 2]");
    assert_eq!(parsed.tree.unwrap(), "[1]");
    assert_eq!(parsed.diagnostics, vec!["Error: expected ']', unexpected 2".to_string()]);
    let source = chars("vec[1, 2]");
    let mut tokenizer = Tokenizer::new(&source, None);
    let mut diagnostics = Diagnostics::new();
    let e = Expr::try_parse(&mut tokenizer, &mut diagnostics).ok().unwrap().unwrap();
    assert_eq!(text_of(&e.span), "vec[1, 2]");
    match e.value {
        Expr::Atom(AtomExpr::Array(kind, items)) => {
            assert_eq!(kind, ArrayKind::Vector);
            assert_eq!(items.len(), 2);
        }
        _ => panic!("not a vector literal"),
    }
}

#[test]
fn struct_construction() {
    assert_eq!(tree("new MyStruct { x: 32, y, z: vec[64, 128, 256], }"), "(new MyStruct {x: 32, y, z: vec[64, 128, 256]})");
    assert_eq!(tree("new a.b.C {}"), "(new a.b.C {})");
    assert_eq!(tree("new P { x: 1 + 2 }.x"), "(post (new P {x: (+ 1 2)}) field .x)");
    let source = chars("new P { x: 1, y }");
    let mut tokenizer = Tokenizer::new(&source, None);
    let mut diagnostics = Diagnostics::new();
    let e = Expr::try_parse(&mut tokenizer, &mut diagnostics).ok().unwrap().unwrap();
    assert_eq!(text_of(&e.span), "new P { x: 1, y }");
    match e.value {
        Expr::Atom(AtomExpr::Struct(construction)) => {
            assert_eq!(construction.fields.len(), 2);
            assert_eq!(text_of(&construction.fields[0].span), "x: 1");
            assert!(construction.fields[1].value.value.is_none());
        }
        _ => panic!("not a struct construction"),
    }
    let parsed = parse_expr("new P { x: 1 y }");
    assert_eq!(parsed.tree.unwrap(), "(new P {x: 1})");
    assert_eq!(parsed.diagnostics, vec!["Error: expected '}', unexpected y".to_string()]);
    let parsed = parse_expr("new P. { }");
    assert_eq!(parsed.diagnostics, vec!["Error: expected ident, unexpected {".to_string()]);
    assert_eq!(parsed.tree.unwrap(), "(new P {})");
}
