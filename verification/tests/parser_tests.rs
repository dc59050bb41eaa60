use sekirei::parser::{BinOp, Expr, ImportSource, ParseFail, Stmt, TopLevel, Type};
use sekirei::lexer::Lexer;
use sekirei::parser::Parser;

fn parse(src: &str) -> Vec<TopLevel> {
    let tokens = Lexer::new(src).tokenize().expect("lex failed");
    Parser::new(tokens).parse().expect("parse failed")
}

#[test]
fn test_fn_simple() {
    let ast = parse("fn add(x: int, y: int) -> int:\n    return x + y\n");
    assert!(matches!(&ast[0], TopLevel::Fn { name, .. } if name == "add"));
}

#[test]
fn test_let_stmt() {
    let ast = parse("fn main():\n    let x = 42\n");
    if let TopLevel::Fn { body, .. } = &ast[0] {
        assert!(matches!(&body[0], Stmt::Let { name, .. } if name == "x"));
    }
}

#[test]
fn test_mut_stmt() {
    let ast = parse("fn main():\n    mut y = 10\n");
    if let TopLevel::Fn { body, .. } = &ast[0] {
        assert!(matches!(&body[0], Stmt::Mut { name, .. } if name == "y"));
    }
}

#[test]
fn test_if_inline() {
    let ast = parse("fn main():\n    let s = if x > 0: \"pos\" else: \"neg\"\n");
    if let TopLevel::Fn { body, .. } = &ast[0] {
        if let Stmt::Let { value: Expr::If { .. }, .. } = &body[0] {
        } else {
            panic!("expected if expression");
        }
    }
}

#[test]
fn test_struct() {
    let ast = parse("struct Point:\n    x: float\n    y: float\n");
    assert!(matches!(&ast[0], TopLevel::Struct { name, .. } if name == "Point"));
}

#[test]
fn test_impl() {
    let src = "impl Point:\n    fn new(x: float, y: float) -> Point:\n        return Point { x: x, y: y }\n";
    let ast = parse(src);
    assert!(matches!(&ast[0], TopLevel::Impl { name, .. } if name == "Point"));
}

#[test]
fn test_import() {
    let ast = parse("import std.io\n");
    assert!(matches!(&ast[0], TopLevel::Import { path, .. } if path == &["std", "io"]));
}

#[test]
fn test_from_import_std() {
    let ast = parse("from std import io\n");
    if let TopLevel::FromImport { source, path, names } = &ast[0] {
        assert_eq!(*source, ImportSource::Std);
        assert!(path.is_empty());
        assert_eq!(names[0].0, "io");
    } else {
        panic!("expected FromImport");
    }
}

#[test]
fn test_from_import_std_subpath() {
    let ast = parse("from std.io import print, read_line\n");
    if let TopLevel::FromImport { source, path, names } = &ast[0] {
        assert_eq!(*source, ImportSource::Std);
        assert_eq!(path, &["io"]);
        assert_eq!(names.len(), 2);
    } else {
        panic!("expected FromImport");
    }
}

#[test]
fn test_from_import_skp() {
    let ast = parse("from skp import http\n");
    if let TopLevel::FromImport { source, .. } = &ast[0] {
        assert_eq!(*source, ImportSource::Skp);
    } else {
        panic!("expected FromImport");
    }
}

#[test]
fn test_for_loop() {
    let ast = parse("fn main():\n    for i in items:\n        print(i)\n");
    if let TopLevel::Fn { body, .. } = &ast[0] {
        assert!(matches!(&body[0], Stmt::For { var, .. } if var == "i"));
    }
}

#[test]
fn test_match() {
    let src = "fn main():\n    match x:\n        1 => print(\"one\")\n        _ => print(\"other\")\n";
    let ast = parse(src);
    if let TopLevel::Fn { body, .. } = &ast[0] {
        assert!(matches!(&body[0], Stmt::Expr(Expr::Match { .. })));
    }
}

#[test]
fn test_lambda() {
    let ast = parse("fn main():\n    let f = (x: int) -> int => x + 1\n");
    if let TopLevel::Fn { body, .. } = &ast[0] {
        assert!(matches!(&body[0], Stmt::Let { value: Expr::Lambda { .. }, .. }));
    }
}

#[test]
fn test_try_op() {
    let ast = parse("fn main():\n    let v = read_file(\"x\")?\n");
    if let TopLevel::Fn { body, .. } = &ast[0] {
        assert!(matches!(&body[0], Stmt::Let { value: Expr::Try(_), .. }));
    }
}

fn parse_err(src: &str) -> sekirei::parser::ParseError {
    let tokens = Lexer::new(src).tokenize().expect("lex failed");
    match Parser::new(tokens).parse() {
        Ok(_) => panic!("expected a parse error"),
        Err(e) => e,
    }
}

#[test]
fn unexpected_top_level_token_is_reported_at_its_position() {
    let e = parse_err("let x = 1\n");
    assert_eq!(e.message, "unexpected token at top level: Let");
    assert_eq!((e.line, e.col), (1, 0));
}

#[test]
fn unknown_import_source_is_an_error() {
    let e = parse_err("from lib import x\n");
    assert_eq!(e.message, "unknown import source 'lib'. use 'std' or 'skp'");
}

#[test]
fn missing_colon_is_an_expected_token_error() {
    let e = parse_err("fn main()\n    return\n");
    assert!(e.message.starts_with("expected Colon, got "));
    assert_eq!(e.to_display_string(), format!("[Parse Error] {} (line {}, col {})", e.message, e.line, e.col));
}

#[test]
fn binary_operators_bind_by_precedence() {
    let ast = parse("fn f() -> int:\n    return 1 + 2 * 3\n");
    if let TopLevel::Fn { body, .. } = &ast[0] {
        match &body[0] {
            Stmt::Return(Some(Expr::BinOp { rhs, .. })) => assert!(matches!(**rhs, Expr::BinOp { .. })),
            _ => panic!("expected a return of a sum"),
        }
    }
}

#[test]
fn generic_and_nullable_types() {
    let ast = parse("fn f(a: list<int>, b: str?) -> dict<str, int>:\n    return a\n");
    if let TopLevel::Fn { params, ret, .. } = &ast[0] {
        assert!(matches!(params[0].ty, Type::List(_)));
        assert!(matches!(params[1].ty, Type::Nullable(_)));
        assert!(matches!(ret, Some(Type::Dict(_, _))));
    } else {
        panic!("expected a function");
    }
}

#[test]
fn empty_program_parses_to_no_items() {
    assert!(parse("\n\n").is_empty());
}

#[test]
fn parse_expr_reads_one_expression() {
    let tokens = Lexer::new("a.b(1)[2]").tokenize().unwrap();
    let e = Parser::new(tokens).parse_expr().unwrap();
    assert!(matches!(e, Expr::Index { .. }));
}

#[test]
fn items_come_in_source_order_up_to_the_end() {
    let ast = parse("struct A:\n    x: int\n\n\nfn f():\n    return\nimport std.io\n\n");
    assert_eq!(ast.len(), 3);
    assert!(matches!(&ast[0], TopLevel::Struct { name, .. } if name == "A"));
    assert!(matches!(&ast[1], TopLevel::Fn { name, .. } if name == "f"));
    assert!(matches!(&ast[2], TopLevel::Import { .. }));
}

fn parse_expr_of(src: &str) -> Expr {
    let tokens = Lexer::new(src).tokenize().expect("lex failed");
    Parser::new(tokens).parse_expr().expect("parse failed")
}

#[test]
fn lambda_between_bars() {
    let e = parse_expr_of("|x: int| -> int: x * 2");
    match e {
        Expr::Lambda { params, ret, body } => {
            assert_eq!(params.len(), 1);
            assert_eq!(params[0].name, "x");
            assert!(matches!(params[0].ty, Type::Int));
            assert!(!params[0].is_self);
            assert!(matches!(ret, Some(Type::Int)));
            match *body {
                Expr::BinOp { op: BinOp::Mul, lhs, rhs } => {
                    assert!(matches!(*lhs, Expr::Ident(ref n) if n == "x"));
                    assert!(matches!(*rhs, Expr::Int(2)));
                },
                _ => panic!("expected x * 2"),
            }
        },
        _ => panic!("expected a lambda"),
    }
}

#[test]
fn lambda_between_bars_without_result_type() {
    let e = parse_expr_of("|a: int, b: float|: a");
    match e {
        Expr::Lambda { params, ret, .. } => {
            assert_eq!(params.len(), 2);
            assert!(matches!(params[1].ty, Type::Float));
            assert!(ret.is_none());
        },
        _ => panic!("expected a lambda"),
    }
    let ast = parse("fn main():\n    let double = |x: int| -> int: x * 2\n    let result = double(21)\n");
    assert!(matches!(&ast[0], TopLevel::Fn { body, .. } if matches!(&body[0], Stmt::Let { value: Expr::Lambda { .. }, .. })));
}

#[test]
fn local_file_import() {
    let ast = parse("from ./utils import helpers\n");
    match &ast[0] {
        TopLevel::FromImport { source, path, names } => {
            assert_eq!(*source, ImportSource::Local);
            assert_eq!(path, &vec!["utils".to_string()]);
            assert_eq!(names, &vec![("helpers".to_string(), None)]);
        },
        _ => panic!("expected a from-import"),
    }
    let ast = parse("from ../lib/text import split as cut\n");
    match &ast[0] {
        TopLevel::FromImport { source, path, names } => {
            assert_eq!(*source, ImportSource::Local);
            assert_eq!(path, &vec!["..".to_string(), "lib".to_string(), "text".to_string()]);
            assert_eq!(names, &vec![("split".to_string(), Some("cut".to_string()))]);
        },
        _ => panic!("expected a from-import"),
    }
}

#[test]
fn a_type_missing_its_second_argument_is_reported_by_the_checked_parse() {
    let tokens = Lexer::new("fn f(d: dict<int>):\n    return\n").tokenize().expect("lex failed");
    assert!(matches!(Parser::new(tokens).parse_checked(), Err(ParseFail::MissingTypeArgs)));
    let tokens = Lexer::new("fn f(d: dict<int, str>):\n    return\n").tokenize().expect("lex failed");
    assert!(Parser::new(tokens).parse_checked().is_ok());
    let tokens = Lexer::new("fn f() -> Result<int>:\n    return\n").tokenize().expect("lex failed");
    assert!(matches!(Parser::new(tokens).parse_checked(), Err(ParseFail::MissingTypeArgs)));
}

#[test]
fn list_and_dict_type_syntax() {
    let ast = parse("fn f(xs: [int], d: {str: [float]}) -> int?:\n    return 0\n");
    match &ast[0] {
        TopLevel::Fn { params, ret, .. } => {
            assert!(matches!(&params[0].ty, Type::List(el) if matches!(**el, Type::Int)));
            assert!(matches!(&params[1].ty, Type::Dict(k, v) if matches!(**k, Type::Str) && matches!(**v, Type::List(_))));
            assert!(matches!(ret, Some(Type::Nullable(_))));
        },
        _ => panic!("expected a function"),
    }
}
