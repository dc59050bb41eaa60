use sekirei::lexer::Lexer;
use sekirei::parser::Parser;
use sekirei::sema::{SemaError, SemanticAnalyzer};

fn analyze(src: &str) -> Result<(), SemaError> {
    let tokens = Lexer::new(src).tokenize().expect("lex failed");
    let ast = Parser::new(tokens).parse().expect("parse failed");
    SemanticAnalyzer::new().analyze(&ast)
}

#[test]
fn test_simple_fn() {
    assert!(analyze("fn add(x: int, y: int) -> int:\n    return x + y\n").is_ok());
}

#[test]
fn test_type_inference() {
    assert!(analyze("fn main():\n    let x = 42\n    let y = x + 1\n").is_ok());
}

#[test]
fn test_undefined_var() {
    assert!(analyze("fn main():\n    let x = y + 1\n").is_err());
}

#[test]
fn test_type_mismatch_return() {
    let src = "fn get() -> int:\n    return \"hello\"\n";
    assert!(analyze(src).is_err());
}

#[test]
fn test_bool_condition() {
    let src = "fn main():\n    let x = 1\n    if x > 0:\n        let y = 1\n";
    assert!(analyze(src).is_ok());
}

#[test]
fn test_struct_field_access() {
    let src = "struct Point:\n    x: float\n    y: float\nfn main():\n    let p = Point { x: 1.0, y: 2.0 }\n    let v = p.x\n";
    assert!(analyze(src).is_ok());
}

#[test]
fn test_struct_unknown_field() {
    let src = "struct Point:\n    x: float\n    y: float\nfn main():\n    let p = Point { x: 1.0, y: 2.0 }\n    let v = p.z\n";
    assert!(analyze(src).is_err());
}

#[test]
fn test_lambda_type() {
    let src = "fn main():\n    let f = (x: int) -> int => x + 1\n";
    assert!(analyze(src).is_ok());
}

#[test]
fn test_option_some() {
    let src = "fn main():\n    let v = Some(42)\n";
    assert!(analyze(src).is_ok());
}

#[test]
fn test_arithmetic_type_mismatch() {
    let src = "fn main():\n    let x = 1 + \"hello\"\n";
    assert!(analyze(src).is_err());
}

#[test]
fn undefined_variable_message() {
    let e = analyze("fn main():\n    let x = y + 1\n").unwrap_err();
    assert_eq!(e.message, "undefined variable 'y'");
    assert_eq!((e.line, e.col), (0, 0));
    assert_eq!(e.to_display_string(), "[Sema Error] undefined variable 'y'");
}

#[test]
fn return_mismatch_message_names_the_types() {
    let e = analyze("fn get() -> int:\n    return \"hello\"\n").unwrap_err();
    assert_eq!(e.message, "type mismatch in return: expected Int, got String");
}

#[test]
fn arithmetic_mismatch_message() {
    let e = analyze("fn main():\n    let x = 1 + \"hello\"\n").unwrap_err();
    assert_eq!(e.message, "type mismatch in arithmetic: Int op String");
}

#[test]
fn unknown_field_message() {
    let src = "struct Point:\n    x: float\nfn main():\n    let p = Point { x: 1.0 }\n    let v = p.z\n";
    let e = analyze(src).unwrap_err();
    assert_eq!(e.message, "struct 'Point' has no field 'z'");
}

#[test]
fn call_arity_is_checked() {
    let e = analyze("fn f(a: int) -> int:\n    return a\nfn main():\n    let x = f(1, 2)\n").unwrap_err();
    assert_eq!(e.message, "expected 1 args, got 2");
}

#[test]
fn functions_declared_later_are_known() {
    assert!(analyze("fn main():\n    let x = g()\nfn g() -> int:\n    return 1\n").is_ok());
}

#[test]
fn methods_are_checked() {
    let src = "struct P:\n    x: int\nimpl P:\n    fn get(self) -> int:\n        return \"no\"\n";
    assert!(analyze(src).is_err());
}

#[test]
fn unknown_type_fits_anything() {
    assert!(analyze("fn main():\n    let n: int = len(\"abc\")\n    let s: str = read_line()\n").is_err());
    assert!(analyze("fn main():\n    let n: int = len(\"abc\")\n").is_ok());
}

#[test]
fn while_condition_must_be_bool() {
    let e = analyze("fn main():\n    while 1:\n        break\n").unwrap_err();
    assert_eq!(e.message, "type mismatch in while condition: expected Bool, got Int");
}

#[test]
fn for_over_a_range_gives_ints() {
    assert!(analyze("fn main():\n    for i in 0..10:\n        let j: int = i\n").is_ok());
}

#[test]
fn a_fresh_analyzer_checks_again() {
    let tokens = Lexer::new("fn main():\n    let x = 1\n").tokenize().unwrap();
    let ast = Parser::new(tokens).parse().unwrap();
    let mut a = SemanticAnalyzer::new();
    assert!(a.analyze(&ast).is_ok());
    assert!(a.analyze(&ast).is_ok());
}

#[test]
fn a_block_scope_ends_with_its_block() {
    let src = "fn main():\n    mut x = 1\n    while x > 0:\n        let y = 2\n        x = x - 1\n    let z = y\n";
    assert_eq!(analyze(src).unwrap_err().message, "undefined variable 'y'");
    let inner = "fn main():\n    mut x = 1\n    while x > 0:\n        let y = x\n        x = y - 1\n";
    assert!(analyze(inner).is_ok());
}

#[test]
fn the_latest_definition_of_a_name_wins() {
    assert!(analyze("fn main():\n    let x = 1\n    let x = \"s\"\n    let n: string = x\n").is_ok());
    assert_eq!(
        analyze("fn main():\n    let x = 1\n    let x = \"s\"\n    let n: int = x\n").unwrap_err().message,
        "type mismatch in let 'n': expected Int, got String"
    );
}

#[test]
fn a_functions_variables_end_with_it() {
    let src = "fn a():\n    let x = 1\nfn b():\n    let y = x\n";
    assert_eq!(analyze(src).unwrap_err().message, "undefined variable 'x'");
}

#[test]
fn a_new_projects_main_passes_analysis() {
    assert!(analyze(&sekirei::manifest::default_main_sk("myproject")).is_ok());
}

#[test]
fn imports_bind_their_modules() {
    assert!(analyze("import std.io\nfn main():\n    io.println(\"a\")\n").is_ok());
    assert!(analyze("from std import math as m\nfn main():\n    let r: float = m.sqrt(2.0)\n").is_ok());
    assert_eq!(analyze("fn main():\n    io.println(\"a\")\n").unwrap_err().message, "undefined variable 'io'");
}

#[test]
fn self_in_a_method_has_the_impl_type() {
    let src = "from std import math\n\nstruct Point:\n    x: float\n    y: float\n\nimpl Point:\n    fn distance(self) -> float:\n        return math.sqrt(self.x * self.x + self.y * self.y)\n";
    assert!(analyze(src).is_ok());
    let bad = "struct Point:\n    x: float\n\nimpl Point:\n    fn z(self) -> float:\n        return self.z\n";
    assert_eq!(analyze(bad).unwrap_err().message, "struct 'Point' has no field 'z'");
    let no_self = "struct Point:\n    x: float\n\nimpl Point:\n    fn make() -> float:\n        return self.x\n";
    assert_eq!(analyze(no_self).unwrap_err().message, "undefined variable 'self'");
}
