use sekirei::codegen::{
    choose_libs, lib_candidates, link_args, llc_args, next_build_action, BuildAction, Codegen, CodegenError, Tool, ToolOutcome,
};
use sekirei::irgen::{sk_ty, IrGen};
use sekirei::irgen_spec::LlvmTy;
use sekirei::ast::Type;
use sekirei::lexer::Lexer;
use sekirei::parser::Parser;

fn ir(src: &str) -> String {
    let tokens = Lexer::new(src).tokenize().expect("lex");
    let ast = Parser::new(tokens).parse().expect("parse");
    Codegen::new().emit_ir(&ast)
}

#[test]
fn test_emit_hello() {
    let src = "fn main():\n    println(\"Hello, sekirei!\")\n";
    let out = ir(src);
    assert!(out.contains("sk_user_main"), "main should become sk_user_main");
    assert!(out.contains("sk_println"), "println should map to sk_println");
    assert!(out.contains("Hello, sekirei!"), "string literal should be in IR");
}

#[test]
fn test_emit_arithmetic() {
    let src = "fn add(x: int, y: int) -> int:\n    return x + y\n";
    let out = ir(src);
    assert!(out.contains("define i64 @add"), "fn add should be defined");
    assert!(out.contains("add i64"), "addition instruction");
}

#[test]
fn test_emit_if() {
    let src = "fn abs(x: int) -> int:\n    if x < 0:\n        return -x\n    else:\n        return x\n";
    let out = ir(src);
    assert!(out.contains("icmp slt"), "less-than comparison");
    assert!(out.contains("br i1"), "conditional branch");
}

#[test]
fn test_emit_for_range() {
    let src = "fn sum() -> int:\n    mut s = 0\n    for i in 0..10:\n        s = s + i\n    return s\n";
    let out = ir(src);
    assert!(out.contains("icmp slt"), "range bound check");
    assert!(out.contains("add i64"), "accumulation");
}

#[test]
fn test_emit_while() {
    let src = "fn countdown(n: int):\n    mut x = n\n    while x > 0:\n        x = x - 1\n";
    let out = ir(src);
    assert!(out.contains("icmp sgt"), "while condition");
    assert!(out.contains("br i1"), "loop branch");
}

#[test]
fn test_string_literal_in_global() {
    let src = "fn main():\n    let s = \"hello\"\n";
    let out = ir(src);
    assert!(out.contains("private unnamed_addr constant"), "string global");
    assert!(out.contains("hello"), "string value");
}

#[test]
fn module_header_and_declarations() {
    let out = ir("fn main():\n    return\n");
    assert!(out.starts_with("; sekirei generated LLVM IR\ntarget triple = \"aarch64-unknown-linux-musl\"\n\n"));
    assert!(out.contains("declare void   @sk_println(i8*)\n"));
    assert!(out.contains("define void @sk_user_main() {\nentry:\n  ret void\n}\n\n"));
}

#[test]
fn string_constant_is_escaped_with_its_byte_length() {
    let out = ir("fn main():\n    let s = \"a\\né\"\n");
    assert!(out.contains("@.str0 = private unnamed_addr constant [5 x i8] c\"a\\0Aé\\00\"\n"));
    assert!(out.contains("%t1 = getelementptr inbounds [5 x i8], [5 x i8]* @.str0, i64 0, i64 0"));
}

#[test]
fn missing_return_gives_the_zero_value() {
    let out = ir("fn f() -> float:\n    let x = 1\n");
    assert!(out.contains("  ret double 0.0\n}\n"));
}

#[test]
fn float_literal_in_exponent_form() {
    let out = ir("fn f() -> float:\n    return 2.5\n");
    assert!(out.contains("ret double 2.5e0"));
}

#[test]
fn stdlib_method_maps_to_runtime() {
    let out = ir("fn f() -> float:\n    return math.sqrt(2.0)\n");
    assert!(out.contains("= call double @sk_sqrt(double 2e0)"));
}

#[test]
fn labels_are_numbered_in_order() {
    let out = ir("fn f(x: int):\n    while x > 0:\n        break\n");
    assert!(out.contains("br label %wh_chk_1\nwh_chk_1:\n"));
    assert!(out.contains("br i1 %t2, label %wh_body_2, label %wh_end_3"));
    assert!(out.contains("br label %wh_end_3\ndead_4:\n"));
}

#[test]
fn llvm_type_names() {
    assert_eq!(LlvmTy::I1.ir(), "i1");
    assert_eq!(LlvmTy::Ptr.ir(), "i8*");
    assert_eq!(sk_ty(&Type::Bool), LlvmTy::I1);
    assert_eq!(sk_ty(&Type::F32), LlvmTy::Double);
    assert_eq!(sk_ty(&Type::Named("P".into())), LlvmTy::I64);
}

#[test]
fn generator_used_directly() {
    let tokens = Lexer::new("fn g():\n    print(\"x\")\n").tokenize().unwrap();
    let ast = Parser::new(tokens).parse().unwrap();
    let mut g = IrGen::new();
    let out = g.emit_program(&ast);
    assert!(out.contains("call void @sk_print(i8* %t1)"));
}

#[test]
fn codegen_error_display() {
    let e = CodegenError { message: "clang not found".into() };
    assert_eq!(e.to_display_string(), "[Codegen Error] clang not found");
}

fn finish_message(a: BuildAction) -> Option<String> {
    match a {
        BuildAction::Finish(Err(e)) => Some(e.message),
        _ => None,
    }
}

#[test]
fn clang_success_ends_the_build() {
    assert!(matches!(next_build_action(Tool::Clang, ToolOutcome::Succeeded), BuildAction::Finish(Ok(()))));
    assert!(matches!(next_build_action(Tool::Gcc, ToolOutcome::Succeeded), BuildAction::Finish(Ok(()))));
}

#[test]
fn any_clang_failure_falls_back_to_llc() {
    assert!(matches!(next_build_action(Tool::Clang, ToolOutcome::Failed), BuildAction::Run(Tool::Llc)));
    assert!(matches!(
        next_build_action(Tool::Clang, ToolOutcome::NotStarted("no such file".into())),
        BuildAction::Run(Tool::Llc)
    ));
    let no_libs = CodegenError { message: "no sekirei libraries found".into() };
    assert!(matches!(next_build_action(Tool::Clang, ToolOutcome::NoLibs(no_libs)), BuildAction::Run(Tool::Llc)));
    assert!(matches!(next_build_action(Tool::Llc, ToolOutcome::Succeeded), BuildAction::Run(Tool::Gcc)));
}

#[test]
fn llc_and_gcc_failures_end_the_build_with_their_messages() {
    assert_eq!(finish_message(next_build_action(Tool::Llc, ToolOutcome::Failed)).unwrap(), "llc failed");
    assert_eq!(
        finish_message(next_build_action(Tool::Llc, ToolOutcome::NotStarted("x".into()))).unwrap(),
        "llc not found. install LLVM to compile .sk files"
    );
    assert_eq!(finish_message(next_build_action(Tool::Gcc, ToolOutcome::Failed)).unwrap(), "gcc linking failed");
    assert_eq!(
        finish_message(next_build_action(Tool::Gcc, ToolOutcome::NotStarted("No such file".into()))).unwrap(),
        "gcc failed: No such file"
    );
    let e = CodegenError { message: "runtime library not found. run 'cargo build' first".into() };
    assert_eq!(
        finish_message(next_build_action(Tool::Gcc, ToolOutcome::NoLibs(e))).unwrap(),
        "runtime library not found. run 'cargo build' first"
    );
}

#[test]
fn tool_arguments() {
    let libs = vec!["a.a".to_string(), "b.a".to_string()];
    assert_eq!(link_args("x.ll", &libs, "out"), vec!["x.ll", "a.a", "b.a", "-o", "out", "-lm"]);
    assert_eq!(link_args("x.s", &Vec::new(), "out"), vec!["x.s", "-o", "out", "-lm"]);
    assert_eq!(llc_args("x.ll", "x.s"), vec!["x.ll", "-o", "x.s"]);
}

#[test]
fn library_candidates_and_choice() {
    assert_eq!(
        lib_candidates("target/out"),
        vec!["target/out/libsekirei_runtime.a", "target/out/libsekirei_stdlib.a", "target/out/libsekirei_asm.a"]
    );
    let found = vec![("r.a".to_string(), true), ("s.a".to_string(), false), ("m.a".to_string(), true)];
    assert_eq!(choose_libs(Some(found)).unwrap(), vec!["r.a", "m.a"]);
    assert_eq!(
        choose_libs(Some(vec![("r.a".to_string(), false)])).unwrap_err().message,
        "no sekirei libraries found"
    );
    assert_eq!(choose_libs(None).unwrap_err().message, "runtime library not found. run 'cargo build' first");
}

#[test]
fn math_log_calls_the_runtime() {
    let out = ir("from std import math\nfn main():\n    let y = math.log(2.0)\n");
    assert!(out.contains("declare double @sk_log(double)\n"));
    assert!(out.contains("call double @sk_log(double 2e0)"));
}
