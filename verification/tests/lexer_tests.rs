use sekirei::lexer::Lexer;
use sekirei::token::Token;

fn lex(src: &str) -> Vec<Token> {
    Lexer::new(src).tokenize().unwrap().into_iter().map(|s| s.token).collect()
}

#[test]
fn test_basic_tokens() {
    let tokens = lex("let x = 42");
    assert!(tokens.contains(&Token::Let));
    assert!(tokens.contains(&Token::Ident("x".into())));
    assert!(tokens.contains(&Token::Eq));
    assert!(tokens.contains(&Token::Int(42)));
}

#[test]
fn test_float() {
    let tokens = lex("3.14");
    assert!(tokens.iter().any(|t| matches!(t, Token::Float(s) if s.parse::<f64>().unwrap() == 3.14)));
}

#[test]
fn test_string() {
    let tokens = lex("\"hello\"");
    assert!(tokens.contains(&Token::Str("hello".into())));
}

#[test]
fn test_indent_dedent() {
    let src = "if x:\n    let y = 1\n";
    let tokens = lex(src);
    assert!(tokens.contains(&Token::Indent));
    assert!(tokens.contains(&Token::Dedent));
}

#[test]
fn test_range() {
    let tokens = lex("0..10");
    assert!(tokens.contains(&Token::Int(0)));
    assert!(tokens.contains(&Token::DotDot));
    assert!(tokens.contains(&Token::Int(10)));
}

#[test]
fn test_arrow() {
    let tokens = lex("-> =>");
    assert!(tokens.contains(&Token::Arrow));
    assert!(tokens.contains(&Token::FatArrow));
}

#[test]
fn test_keywords() {
    let tokens = lex("fn struct impl match");
    assert!(tokens.contains(&Token::Fn));
    assert!(tokens.contains(&Token::Struct));
    assert!(tokens.contains(&Token::Impl));
    assert!(tokens.contains(&Token::Match));
}

#[test]
fn test_bool_and_null() {
    let tokens = lex("true false null");
    assert!(tokens.contains(&Token::Bool(true)));
    assert!(tokens.contains(&Token::Bool(false)));
    assert!(tokens.contains(&Token::Null));
}

#[test]
fn test_comment_ignored() {
    let tokens = lex("let x = 1 # this is a comment\nlet y = 2");
    assert!(!tokens.iter().any(|t| matches!(t, Token::Ident(s) if s == "this")));
}

#[test]
fn lexing_ends_with_one_eof() {
    let tokens = lex("fn main():\n    let x = 1\n");
    assert_eq!(tokens.last(), Some(&Token::Eof));
    assert_eq!(tokens.iter().filter(|t| **t == Token::Eof).count(), 1);
}

#[test]
fn indents_and_dedents_balance() {
    let tokens = lex("fn f():\n    if x:\n        return 1\n    return 2\n");
    let ind = tokens.iter().filter(|t| **t == Token::Indent).count();
    let ded = tokens.iter().filter(|t| **t == Token::Dedent).count();
    assert_eq!(ind, 2);
    assert_eq!(ind, ded);
}

#[test]
fn unterminated_string_is_an_error_with_position() {
    let err = Lexer::new("let s = \"abc").tokenize().unwrap_err();
    assert!(err.message.contains("unterminated"));
    assert_eq!(err.line, 1);
}

#[test]
fn lex_error_display_text() {
    let err = Lexer::new("let s = \"abc").tokenize().unwrap_err();
    let shown = err.to_display_string();
    assert!(shown.starts_with("[Lex Error] "));
}

#[test]
fn no_prefix_closes_more_levels_than_it_opens() {
    let toks = lex("if a:\n    if b:\n        x\n    y\nz\n");
    let mut depth: i64 = 0;
    for t in &toks {
        match t {
            Token::Indent => depth += 1,
            Token::Dedent => depth -= 1,
            _ => {},
        }
        assert!(depth >= 0);
    }
    assert_eq!(depth, 0);
}
