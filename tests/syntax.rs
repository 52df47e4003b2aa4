use tinyjs::ast::{AssignOp, BinOp, Expr, ForInit, Literal, Program, PropertyKey, Stmt, UnaryOp, UpdateOp};
use tinyjs::lexer::{LexError, Lexer, Token, TokenKind};
use tinyjs::lexical::LexFault;
use tinyjs::parser::{ParseError, Parser};

fn lex(source: &str) -> Result<Vec<Token>, LexError> {
    let mut lexer = Lexer::new(source.to_string());
    lexer.walk()
}

fn kinds(source: &str) -> Vec<TokenKind> {
    lex(source).expect("lexing failed").iter().map(|t| t.kind).collect()
}

fn parse(source: &str) -> Result<Program, ParseError> {
    let tokens = lex(source).expect("lexing failed");
    let mut parser = Parser { tokens: Vec::new(), pos: 0, allow_in: true, source: source.to_string() };
    parser.parse(tokens)
}

fn first(source: &str) -> Stmt {
    parse(source).expect("parsing failed").body.into_iter().next().expect("missing stmt")
}

fn expr_of(source: &str) -> Expr {
    match first(source) {
        Stmt::Expr(e) => e,
        other => panic!("expected an expression statement, got {:?}", other),
    }
}

fn ident(name: &str) -> Expr {
    Expr::Identifier(name.to_string())
}

fn num(text: &str) -> Expr {
    Expr::Literal(Literal::Number(text.to_string()))
}

fn bin(op: BinOp, left: Expr, right: Expr) -> Expr {
    Expr::Binary { op, left: Box::new(left), right: Box::new(right) }
}

#[test]
fn lexes_longest_punctuators() {
    assert_eq!(
        kinds(">>>= >>> >> >= > <<= << <= ="),
        vec![
            TokenKind::TripleGreaterThanEqual,
            TokenKind::TripleGreaterThan,
            TokenKind::RightShift,
            TokenKind::GreaterThanEqual,
            TokenKind::GreaterThan,
            TokenKind::LeftShiftEqual,
            TokenKind::LeftShift,
            TokenKind::LessThanEqual,
            TokenKind::Equal,
            TokenKind::EOF,
        ]
    );
    assert_eq!(
        kinds("a&&=b"),
        vec![TokenKind::Identifier, TokenKind::And, TokenKind::Equal, TokenKind::Identifier, TokenKind::EOF]
    );
}

#[test]
fn lexes_keywords_and_identifiers() {
    assert_eq!(
        kinds("var $x = _y in instanceof undefined try"),
        vec![
            TokenKind::Var,
            TokenKind::Identifier,
            TokenKind::Equal,
            TokenKind::Identifier,
            TokenKind::In,
            TokenKind::Identifier,
            TokenKind::Undefined,
            TokenKind::Try,
            TokenKind::EOF,
        ]
    );
}

#[test]
fn token_text_is_the_source_text() {
    let tokens = lex("x = 'a\\'b' + 1.5e+3;").unwrap();
    let texts: Vec<&str> = tokens.iter().map(|t| t.content.as_str()).collect();
    assert_eq!(texts, vec!["x", "=", "'a\\'b'", "+", "1.5e+3", ";", "EOF"]);
    assert_eq!(tokens[2].kind, TokenKind::String);
    assert_eq!(tokens[4].kind, TokenKind::Number);
}

#[test]
fn reading_eof_moves_past_the_end() {
    let mut lexer = Lexer::new("ab".to_string());
    let tokens = lexer.walk().unwrap();
    assert_eq!(tokens.len(), 2);
    assert_eq!(lexer.row, 3);
    let again = lexer.next().unwrap();
    assert_eq!(again.kind, TokenKind::EOF);
    assert_eq!(lexer.row, 4);
}

#[test]
fn empty_source_is_one_eof_token() {
    let tokens = lex("").unwrap();
    assert_eq!(tokens.len(), 1);
    assert_eq!(tokens[0].kind, TokenKind::EOF);
    assert_eq!(tokens[0].content, "EOF");
    assert!(!tokens[0].line_terminator_before);
}

#[test]
fn positions_count_crlf_once() {
    let tokens = lex("a\r\nb\rc\nd  e").unwrap();
    let at: Vec<(usize, usize)> = tokens.iter().map(|t| (t.line, t.col)).collect();
    assert_eq!(at, vec![(0, 0), (1, 0), (2, 0), (3, 0), (3, 3), (3, 4)]);
    let breaks: Vec<bool> = tokens.iter().map(|t| t.line_terminator_before).collect();
    assert_eq!(breaks, vec![false, true, true, true, false, false]);
}

#[test]
fn comments_are_skipped() {
    let tokens = lex("a // note\n/* block\n */ b").unwrap();
    assert_eq!(tokens.len(), 3);
    assert_eq!(tokens[1].content, "b");
    assert!(tokens[1].line_terminator_before);
    assert_eq!((tokens[1].line, tokens[1].col), (2, 4));
    let inline = lex("a /* x */ b").unwrap();
    assert!(!inline[1].line_terminator_before);
}

#[test]
fn line_break_inside_block_comment_counts() {
    let tokens = lex("a /*\n*/ ;").unwrap();
    assert_eq!(tokens[1].kind, TokenKind::SemiColon);
    assert!(tokens[1].line_terminator_before);
    let program = parse("return /*\n*/ 1;").unwrap();
    assert_eq!(program.body, vec![Stmt::Return(None), Stmt::Expr(num("1"))]);
}

#[test]
fn nul_character_is_not_the_end() {
    let e = lex("a\u{0}b").unwrap_err();
    assert_eq!(e.fault, LexFault::UnknownTokenStart);
    assert_eq!((e.line, e.col), (0, 1));
    let tokens = lex("'a\u{0}b' /* \u{0} */").unwrap();
    assert_eq!(tokens.len(), 2);
    assert_eq!(tokens[0].content, "'a\u{0}b'");
}

#[test]
fn unterminated_string_is_an_error() {
    let e = lex("'abc").unwrap_err();
    assert_eq!(e.fault, LexFault::UnterminatedString);
    assert_eq!((e.line, e.col), (0, 4));
    assert_eq!(e.message(), "EOF in string");
    let e = lex("\"ab\\").unwrap_err();
    assert_eq!(e.fault, LexFault::UnterminatedEscape);
}

#[test]
fn unterminated_comment_is_an_error() {
    let e = lex("a /* b").unwrap_err();
    assert_eq!(e.fault, LexFault::UnterminatedComment);
    assert_eq!((e.line, e.col), (0, 6));
}

#[test]
fn number_needs_a_separator() {
    let e = lex("3abc").unwrap_err();
    assert_eq!(e.fault, LexFault::MissingSeparator);
    assert_eq!((e.line, e.col), (0, 1));
}

#[test]
fn unknown_token_start_is_an_error() {
    let e = lex("a @").unwrap_err();
    assert_eq!(e.fault, LexFault::UnknownTokenStart);
    assert_eq!((e.line, e.col), (0, 3));
    assert_eq!(e.found, "@");
    assert_eq!(e.message(), "unknown token start '@'");
}

#[test]
fn parsing_twice_gives_the_same_tree() {
    let source = "var i=0; while(i++<5){if (i==4) {break;} f('hi')} var b = {a: 16.2};";
    assert_eq!(parse(source).unwrap(), parse(source).unwrap());
}

#[test]
fn multiplication_binds_tighter_than_addition() {
    assert_eq!(expr_of("1 + 2 * 3;"), bin(BinOp::Add, num("1"), bin(BinOp::Mul, num("2"), num("3"))));
}

#[test]
fn subtraction_is_left_associative() {
    assert_eq!(expr_of("1 - 2 - 3;"), bin(BinOp::Sub, bin(BinOp::Sub, num("1"), num("2")), num("3")));
}

#[test]
fn precedence_levels_nest() {
    let e = expr_of("a || b && c | d ^ e & f == g < h << i;");
    let inner = bin(
        BinOp::Eq,
        ident("f"),
        bin(BinOp::Lt, ident("g"), bin(BinOp::Shl, ident("h"), ident("i"))),
    );
    let expected = bin(
        BinOp::Or,
        ident("a"),
        bin(
            BinOp::And,
            ident("b"),
            bin(BinOp::BitOr, ident("c"), bin(BinOp::BitXor, ident("d"), bin(BinOp::BitAnd, ident("e"), inner))),
        ),
    );
    assert_eq!(e, expected);
}

#[test]
fn assignment_is_right_associative() {
    let e = expr_of("a = b += 1;");
    let expected = Expr::Assign {
        target: Box::new(ident("a")),
        op: AssignOp::Assign,
        value: Box::new(Expr::Assign {
            target: Box::new(ident("b")),
            op: AssignOp::AddAssign,
            value: Box::new(num("1")),
        }),
    };
    assert_eq!(e, expected);
}

#[test]
fn return_then_line_break_returns_nothing() {
    let program = parse("return\n1;").unwrap();
    assert_eq!(program.body, vec![Stmt::Return(None), Stmt::Expr(num("1"))]);
    assert_eq!(first("break\n;"), Stmt::Break);
}

#[test]
fn postfix_operator_after_line_break_starts_a_statement() {
    let program = parse("a\n++b").unwrap();
    let expected = vec![
        Stmt::Expr(ident("a")),
        Stmt::Expr(Expr::Update { op: UpdateOp::Inc, prefix: true, argument: Box::new(ident("b")) }),
    ];
    assert_eq!(program.body, expected);
}

#[test]
fn missing_semicolon_on_one_line_is_an_error() {
    let e = parse("a b").unwrap_err();
    assert_eq!(e.message, "expected ';'");
    assert_eq!((e.token, e.line, e.col), (1, 0, 2));
}

#[test]
fn for_in_over_a_name() {
    let s = first("for (i in obj) ;");
    let expected = Stmt::ForIn { var: "i".to_string(), expr: ident("obj"), body: Box::new(Stmt::Empty) };
    assert_eq!(s, expected);
}

#[test]
fn c_style_for_has_all_three_parts() {
    match first("for (i = 0; i < 1; i++) ;") {
        Stmt::For { init: Some(ForInit::Expr(_)), cond: Some(_), update: Some(_), body } => {
            assert_eq!(*body, Stmt::Empty)
        },
        other => panic!("unexpected {:?}", other),
    }
}

#[test]
fn for_in_with_var_initializer() {
    match first("for (var i = 0 in obj) ;") {
        Stmt::ForIn { var, expr, .. } => {
            assert_eq!(var, "i");
            assert_eq!(expr, ident("obj"));
        },
        other => panic!("unexpected {:?}", other),
    }
}

#[test]
fn for_in_over_a_parenthesised_name() {
    let expected = Stmt::ForIn { var: "x".to_string(), expr: ident("o"), body: Box::new(Stmt::Empty) };
    assert_eq!(first("for ((x) in o) ;"), expected);
}

#[test]
fn for_in_needs_one_name() {
    assert!(parse("for (var a, b in obj) ;").is_err());
    assert!(parse("for (a.b in obj) ;").is_err());
}

#[test]
fn string_literal_loses_its_quotes_only() {
    assert_eq!(expr_of("'Hi';"), Expr::Literal(Literal::String("Hi".to_string())));
    assert_eq!(expr_of("\"a\\nb\";"), Expr::Literal(Literal::String("a\\nb".to_string())));
}

#[test]
fn array_without_holes() {
    match expr_of("[1, 2, 3];") {
        Expr::Literal(Literal::Array(v)) => {
            assert_eq!(v, vec![num("1"), num("2"), num("3")]);
        },
        other => panic!("unexpected {:?}", other),
    }
}

fn undefined() -> Expr {
    Expr::Literal(Literal::Undefined)
}

#[test]
fn array_holes_are_undefined() {
    match expr_of("[, 1, , 2, ];") {
        Expr::Literal(Literal::Array(v)) => {
            assert_eq!(v, vec![undefined(), num("1"), undefined(), num("2"), undefined()]);
        },
        other => panic!("unexpected {:?}", other),
    }
    assert_eq!(expr_of("[];"), Expr::Literal(Literal::Array(vec![])));
}

#[test]
fn object_keys_keep_their_kind() {
    match expr_of("{a: 1, \"b\": 2, 3: 4};") {
        Expr::Literal(Literal::Object(v)) => {
            let keys: Vec<&PropertyKey> = v.iter().map(|(k, _)| k).collect();
            assert_eq!(
                keys,
                vec![
                    &PropertyKey::Identifier("a".to_string()),
                    &PropertyKey::String("b".to_string()),
                    &PropertyKey::Number("3".to_string()),
                ]
            );
            assert_eq!(v[2].1, num("4"));
        },
        other => panic!("unexpected {:?}", other),
    }
}

#[test]
fn member_then_index() {
    let expected = Expr::Index {
        object: Box::new(Expr::Member { object: Box::new(ident("obj")), property: "a".to_string() }),
        index: Box::new(ident("b")),
    };
    assert_eq!(expr_of("obj.a[b];"), expected);
}

#[test]
fn new_takes_the_first_arguments() {
    let expected = Expr::New { callee: Box::new(ident("F")), args: Box::new(Expr::Sequence(vec![ident("a")])) };
    assert_eq!(expr_of("new F(a);"), expected);
    match expr_of("new a.B;") {
        Expr::New { callee, args } => {
            assert!(matches!(*callee, Expr::Member { .. }));
            assert_eq!(*args, Expr::Sequence(vec![]));
        },
        other => panic!("unexpected {:?}", other),
    }
}

#[test]
fn prefix_operators() {
    assert_eq!(expr_of("-x;"), Expr::Unary { op: UnaryOp::Neg, expr: Box::new(ident("x")) });
    assert_eq!(expr_of("typeof x;"), Expr::Unary { op: UnaryOp::Typeof, expr: Box::new(ident("x")) });
    assert_eq!(
        expr_of("--x;"),
        Expr::Update { op: UpdateOp::Dec, prefix: true, argument: Box::new(ident("x")) }
    );
}

#[test]
fn number_text_must_be_decimal() {
    assert_eq!(expr_of("1.5e3;"), num("1.5e3"));
    assert_eq!(expr_of("7.;"), num("7."));
    assert!(parse("0x10;").is_err());
    assert!(parse("1.2.3;").is_err());
    assert!(parse("1e;").is_err());
}

#[test]
fn malformed_input_is_an_error() {
    assert!(lex("var s = 'open").is_err());
    let e = parse("(a").unwrap_err();
    assert_eq!(e.message, "Unexpected token 'EOF', expected ')'");
    assert!(parse("a ? b").is_err());
    assert!(parse("{ a; ").is_err());
    assert!(parse("f(a b)").is_err());
    assert!(parse("x = ;").is_err());
}

#[test]
fn var_without_initializer() {
    let expected = Stmt::Var(vec![("a".to_string(), None), ("b".to_string(), Some(num("2")))]);
    assert_eq!(first("var a, b = 2;"), expected);
}

#[test]
fn function_declaration_and_body() {
    match first("function f(a, b) { return a; }") {
        Stmt::Function(f) => {
            assert_eq!(f.name, Some("f".to_string()));
            assert_eq!(f.params, vec!["a".to_string(), "b".to_string()]);
            assert_eq!(f.body, vec![Stmt::Return(Some(ident("a")))]);
        },
        other => panic!("unexpected {:?}", other),
    }
}
