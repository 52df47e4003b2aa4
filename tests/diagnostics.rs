use tinyjs::lexer::{Lexer, TokenKind};
use tinyjs::parser::Parser;

fn parser_for(source: &str) -> Parser {
    let tokens = Lexer::new(source.to_string()).walk().expect("lexing failed");
    Parser { tokens, pos: 0, allow_in: true, source: source.to_string() }
}

#[test]
fn unicode_letters_make_one_identifier() {
    let tokens = Lexer::new("héllo wörld".to_string()).walk().unwrap();
    assert_eq!(tokens.len(), 3);
    assert_eq!(tokens[0].kind, TokenKind::Identifier);
    assert_eq!(tokens[0].content, "héllo");
    assert_eq!(tokens[1].content, "wörld");
}

#[test]
fn non_ascii_digits_lex_as_a_number_that_does_not_parse() {
    let source = "\u{0663}\u{0664};";
    let tokens = Lexer::new(source.to_string()).walk().unwrap();
    assert_eq!(tokens[0].kind, TokenKind::Number);
    assert_eq!(tokens[0].content, "\u{0663}\u{0664}");
    let mut parser = Parser { tokens: Vec::new(), pos: 0, allow_in: true, source: source.to_string() };
    assert!(parser.parse(tokens).is_err());
}

#[test]
fn error_context_shows_the_line_with_a_caret() {
    let source = "var ok = 1;\nvar x = ;";
    let mut parser = Parser { tokens: Vec::new(), pos: 0, allow_in: true, source: source.to_string() };
    let tokens = Lexer::new(source.to_string()).walk().unwrap();
    let e = parser.parse(tokens).unwrap_err();
    assert_eq!((e.line, e.col), (1, 8));
    assert_eq!(parser.context_line(e.line, e.col), Some(("var x = ;".to_string(), 8)));
    assert_eq!(parser.context_around(2), "x = [;] EOF");
}

#[test]
fn long_lines_are_cut_around_the_column() {
    let line: String = "abcdefghij".repeat(5);
    let parser = Parser { tokens: Vec::new(), pos: 0, allow_in: true, source: line.clone() };
    let (snippet, caret) = parser.context_line(0, 25).unwrap();
    assert_eq!(snippet, format!("... {} ...", &line[5..45]));
    assert_eq!(caret, 24);
    assert_eq!(parser.context_line(1, 0), None);
}

#[test]
fn crlf_line_ends_are_not_shown() {
    let parser = Parser { tokens: Vec::new(), pos: 0, allow_in: true, source: "ab\r\ncd".to_string() };
    assert_eq!(parser.context_line(0, 1), Some(("ab".to_string(), 1)));
    assert_eq!(parser.context_line(1, 9), Some(("cd".to_string(), 2)));
}

#[test]
fn token_window_brackets_the_current_token() {
    let mut parser = parser_for("a b c d e");
    parser.pos = 2;
    assert_eq!(parser.context_around(2), "a b [c] d e");
    parser.pos = 0;
    assert_eq!(parser.context_around(1), "[a] b");
    let empty = Parser { tokens: Vec::new(), pos: 0, allow_in: true, source: String::new() };
    assert_eq!(empty.context_around(2), "(no tokens)");
}
