//! The meaning of the IR generator: the state it keeps and the LLVM IR text each step writes.
//!
//! Every step takes the generator's state and gives the state after it, with the value an
//! expression stands for (a register or constant and its LLVM type).
use vstd::prelude::*;
use crate::ast::{ArmV, BinOp, ExprV, HandlerV, ParamV, PatternV, StmtV, TopV, TypeV, UnOp};
use crate::numtext::float_exp_text;
use crate::text::{decimal, int_decimal, lemma_decimal_injective};

verus! {

/// The LLVM types the generator uses.
#[derive(Debug, Clone, Copy, PartialEq, Eq, Structural)]
pub enum LlvmTy {
    I1,
    I64,
    Double,
    Ptr,
    Void,
}

/// The IR name of a type.
pub open spec fn ty_ir(t: LlvmTy) -> Seq<char> {
    match t {
        LlvmTy::I1 => "i1"@,
        LlvmTy::I64 => "i64"@,
        LlvmTy::Double => "double"@,
        LlvmTy::Ptr => "i8*"@,
        LlvmTy::Void => "void"@,
    }
}

/// The zero value of a type, as IR.
pub open spec fn ty_zero(t: LlvmTy) -> Seq<char> {
    match t {
        LlvmTy::I1 => "false"@,
        LlvmTy::I64 => "0"@,
        LlvmTy::Double => "0.0"@,
        LlvmTy::Ptr => "null"@,
        LlvmTy::Void => "undef"@,
    }
}

/// The LLVM type a sekirei type is held in.
pub open spec fn llvm_of(t: TypeV) -> LlvmTy {
    match t {
        TypeV::Bool => LlvmTy::I1,
        TypeV::Float | TypeV::F32 | TypeV::F64 => LlvmTy::Double,
        TypeV::String | TypeV::Str | TypeV::Char | TypeV::Byte | TypeV::Nullable(_) => LlvmTy::Ptr,
        TypeV::Void => LlvmTy::Void,
        _ => LlvmTy::I64,
    }
}

/// A value: a register or constant, with its type.
pub struct ValV {
    pub reg: Seq<char>,
    pub ty: LlvmTy,
}

/// The value of expressions that give none.
pub open spec fn void_val() -> ValV {
    ValV { reg: "undef"@, ty: LlvmTy::Void }
}

/// The null pointer.
pub open spec fn null_val() -> ValV {
    ValV { reg: "null"@, ty: LlvmTy::Ptr }
}

/// The generator's state.
pub struct GenSt {
    /// String constants.
    pub globals: Seq<char>,
    /// The functions written so far.
    pub fn_defs: Seq<char>,
    /// The function being written.
    pub fn_buf: Seq<char>,
    /// The last register number used in the current function.
    pub tmp: usize,
    /// The number of string constants.
    pub str_cnt: usize,
    /// The last label number used.
    pub lbl: usize,
    /// Local variables: name, stack slot and type; a later entry shadows an earlier one.
    pub vars: Seq<(Seq<char>, (Seq<char>, LlvmTy))>,
    /// The current function's result type.
    pub ret_ty: LlvmTy,
    /// The current block ends in a terminator.
    pub terminated: bool,
    /// The enclosing loops: the label a `continue` goes to and the label a `break` goes to.
    pub loop_stack: Seq<(Seq<char>, Seq<char>)>,
}

/// A step's outcome: the state after it and the value it gives.
pub type GenV = (GenSt, ValV);

// ------------------------------------------------------------
// Text
// ------------------------------------------------------------

/// `n + 1`, wrapping to 0 past the largest `usize`.
pub open spec fn wrap_inc(n: usize) -> usize {
    if n == usize::MAX { 0 } else { (n + 1) as usize }
}

/// A whitespace character (Unicode `White_Space`).
pub open spec fn is_ws(c: char) -> bool {
    ('\u{9}' <= c <= '\u{d}') || c == ' ' || c == '\u{85}' || c == '\u{a0}' || c == '\u{1680}' || ('\u{2000}' <= c
        <= '\u{200a}') || c == '\u{2028}' || c == '\u{2029}' || c == '\u{202f}' || c == '\u{205f}' || c == '\u{3000}'
}

/// `s` without its leading whitespace.
pub open spec fn trim_ws(s: Seq<char>) -> Seq<char>
    decreases s.len(),
{
    if s.len() > 0 && is_ws(s[0]) {
        trim_ws(s.drop_first())
    } else {
        s
    }
}

/// `s` begins with `p`.
pub open spec fn starts_with(s: Seq<char>, p: Seq<char>) -> bool {
    p.len() <= s.len() && s.subrange(0, p.len() as int) == p
}

/// An instruction that ends a block.
#[verifier::opaque]
pub open spec fn is_term(ir: Seq<char>) -> bool {
    let t = trim_ws(ir);
    starts_with(t, "ret "@) || starts_with(t, "br "@) || starts_with(t, "unreachable"@)
}

/// The number of bytes of a character in UTF-8.
pub open spec fn utf8_len(c: char) -> nat {
    if (c as u32) < 0x80 {
        1
    } else if (c as u32) < 0x800 {
        2
    } else if (c as u32) < 0x10000 {
        3
    } else {
        4
    }
}

/// The number of bytes of a text in UTF-8.
pub open spec fn utf8_bytes(s: Seq<char>) -> nat
    decreases s.len(),
{
    if s.len() == 0 {
        0
    } else {
        utf8_bytes(s.drop_last()) + utf8_len(s.last())
    }
}

/// A character as it stands in an IR string constant.
pub open spec fn escape_char(c: char) -> Seq<char> {
    if c == '\n' {
        "\\0A"@
    } else if c == '\t' {
        "\\09"@
    } else if c == '"' {
        "\\22"@
    } else if c == '\\' {
        "\\5C"@
    } else {
        seq![c]
    }
}

/// A text as it stands in an IR string constant.
pub open spec fn escape_ir(s: Seq<char>) -> Seq<char>
    decreases s.len(),
{
    if s.len() == 0 {
        Seq::empty()
    } else {
        escape_ir(s.drop_last()) + escape_char(s.last())
    }
}

/// The arguments of a call as IR: `type reg` separated by `, `.
pub open spec fn args_ir(vals: Seq<ValV>) -> Seq<char>
    decreases vals.len(),
{
    if vals.len() == 0 {
        Seq::empty()
    } else if vals.len() == 1 {
        ty_ir(vals[0].ty) + " "@ + vals[0].reg
    } else {
        args_ir(vals.drop_last()) + ", "@ + ty_ir(vals.last().ty) + " "@ + vals.last().reg
    }
}

// ------------------------------------------------------------
// Basic steps
// ------------------------------------------------------------

/// An instruction line.
pub open spec fn g_i(s: GenSt, ir: Seq<char>) -> GenSt {
    GenSt { fn_buf: s.fn_buf + "  "@ + ir + "\n"@, terminated: is_term(ir), ..s }
}

/// A block label line.
pub open spec fn g_block(s: GenSt, name: Seq<char>) -> GenSt {
    GenSt { fn_buf: s.fn_buf + name + ":\n"@, terminated: false, ..s }
}

/// A fresh register `%t<n>`.
pub open spec fn g_tmp(s: GenSt) -> (GenSt, Seq<char>) {
    let n = wrap_inc(s.tmp);
    (GenSt { tmp: n, ..s }, "%t"@ + decimal(n as nat))
}

/// A fresh label `<prefix>_<n>`.
pub open spec fn g_label(s: GenSt, prefix: Seq<char>) -> (GenSt, Seq<char>) {
    let n = wrap_inc(s.lbl);
    (GenSt { lbl: n, ..s }, prefix + "_"@ + decimal(n as nat))
}

/// The latest entry for `k`.
pub open spec fn var_get(vars: Seq<(Seq<char>, (Seq<char>, LlvmTy))>, k: Seq<char>) -> Option<(Seq<char>, LlvmTy)>
    decreases vars.len(),
{
    if vars.len() == 0 {
        None
    } else if vars.last().0 == k {
        Some(vars.last().1)
    } else {
        var_get(vars.drop_last(), k)
    }
}

/// A variable's stack slot and type recorded.
pub open spec fn g_var(s: GenSt, name: Seq<char>, ptr: Seq<char>, ty: LlvmTy) -> GenSt {
    GenSt { vars: s.vars.push((name, (ptr, ty))), ..s }
}

/// A value converted to `target`: the register holding it.
#[verifier::opaque]
pub open spec fn g_coerce(s: GenSt, v: ValV, target: LlvmTy) -> (GenSt, Seq<char>) {
    if v.ty == target {
        (s, v.reg)
    } else {
        let (s1, r) = g_tmp(s);
        if v.ty == LlvmTy::I64 && target == LlvmTy::Double {
            (g_i(s1, r + " = sitofp i64 "@ + v.reg + " to double"@), r)
        } else if v.ty == LlvmTy::Double && target == LlvmTy::I64 {
            (g_i(s1, r + " = fptosi double "@ + v.reg + " to i64"@), r)
        } else if v.ty == LlvmTy::I64 && target == LlvmTy::I1 {
            (g_i(s1, r + " = icmp ne i64 "@ + v.reg + ", 0"@), r)
        } else if v.ty == LlvmTy::I1 && target == LlvmTy::I64 {
            (g_i(s1, r + " = zext i1 "@ + v.reg + " to i64"@), r)
        } else {
            (s1, v.reg)
        }
    }
}

/// A string literal: a global constant, and a pointer to its first byte.
#[verifier::opaque]
pub open spec fn g_str(s: GenSt, text: Seq<char>) -> GenV {
    let len = decimal(utf8_bytes(text) + 1);
    let name = "@.str"@ + decimal(s.str_cnt as nat);
    let s1 = GenSt {
        str_cnt: wrap_inc(s.str_cnt),
        globals: s.globals + name + " = private unnamed_addr constant ["@ + len + " x i8] c\""@ + escape_ir(text)
            + "\\00\"\n"@,
        ..s
    };
    let (s2, r) = g_tmp(s1);
    (
        g_i(s2, r + " = getelementptr inbounds ["@ + len + " x i8], ["@ + len + " x i8]* "@ + name + ", i64 0, i64 0"@),
        ValV { reg: r, ty: LlvmTy::Ptr },
    )
}

/// The runtime function and result type of a standard library method `module.method`.
pub open spec fn method_target(module: Seq<char>, method: Seq<char>) -> Option<(Seq<char>, LlvmTy)> {
    if module == "io"@ && method == "print"@ {
        Some(("sk_print"@, LlvmTy::Void))
    } else if module == "io"@ && method == "println"@ {
        Some(("sk_println"@, LlvmTy::Void))
    } else if module == "io"@ && method == "read_line"@ {
        Some(("sk_read_line"@, LlvmTy::Ptr))
    } else if module == "math"@ && method == "sqrt"@ {
        Some(("sk_sqrt"@, LlvmTy::Double))
    } else if module == "math"@ && method == "pow"@ {
        Some(("sk_pow"@, LlvmTy::Double))
    } else if module == "math"@ && method == "abs"@ {
        Some(("sk_abs"@, LlvmTy::Double))
    } else if module == "math"@ && method == "floor"@ {
        Some(("sk_floor"@, LlvmTy::Double))
    } else if module == "math"@ && method == "ceil"@ {
        Some(("sk_ceil"@, LlvmTy::Double))
    } else if module == "math"@ && method == "sin"@ {
        Some(("sk_sin"@, LlvmTy::Double))
    } else if module == "math"@ && method == "cos"@ {
        Some(("sk_cos"@, LlvmTy::Double))
    } else if module == "math"@ && method == "log"@ {
        Some(("sk_log"@, LlvmTy::Double))
    } else if module == "string"@ && method == "len"@ {
        Some(("sk_str_len"@, LlvmTy::I64))
    } else if module == "string"@ && method == "concat"@ {
        Some(("sk_str_concat"@, LlvmTy::Ptr))
    } else {
        None
    }
}

/// A call of a runtime function.
#[verifier::opaque]
pub open spec fn g_runtime_call(s: GenSt, f: Seq<char>, vals: Seq<ValV>, ret: LlvmTy) -> GenV {
    if ret == LlvmTy::Void {
        (g_i(s, "call void @"@ + f + "("@ + args_ir(vals) + ")"@), void_val())
    } else {
        let (s1, r) = g_tmp(s);
        (g_i(s1, r + " = call "@ + ty_ir(ret) + " @"@ + f + "("@ + args_ir(vals) + ")"@), ValV { reg: r, ty: ret })
    }
}

/// A call of a function by name: `print` and `println` go to the runtime, any other name
/// is called with an `i64` result.
#[verifier::opaque]
pub open spec fn g_named_call(s: GenSt, name: Seq<char>, vals: Seq<ValV>) -> GenV {
    if name == "print"@ {
        g_runtime_call(s, "sk_print"@, vals, LlvmTy::Void)
    } else if name == "println"@ {
        g_runtime_call(s, "sk_println"@, vals, LlvmTy::Void)
    } else {
        let (s1, r) = g_tmp(s);
        (g_i(s1, r + " = call i64 @"@ + name + "("@ + args_ir(vals) + ")"@), ValV { reg: r, ty: LlvmTy::I64 })
    }
}

/// The instruction of a binary operator on `l` and `r` into `reg`, and the result type.
#[verifier::opaque]
pub open spec fn binop_ir(op: BinOp, l: ValV, r: ValV, reg: Seq<char>) -> (Seq<char>, LlvmTy) {
    let is_f = l.ty == LlvmTy::Double;
    let is_p = l.ty == LlvmTy::Ptr;
    let operands = l.reg + ", "@ + r.reg;
    match op {
        BinOp::Add => if is_p {
            (reg + " = call i8* @sk_str_concat(i8* "@ + l.reg + ", i8* "@ + r.reg + ")"@, LlvmTy::Ptr)
        } else if is_f {
            (reg + " = fadd double "@ + operands, LlvmTy::Double)
        } else {
            (reg + " = add i64 "@ + operands, LlvmTy::I64)
        },
        BinOp::Sub => if is_f {
            (reg + " = fsub double "@ + operands, LlvmTy::Double)
        } else {
            (reg + " = sub i64 "@ + operands, LlvmTy::I64)
        },
        BinOp::Mul => if is_f {
            (reg + " = fmul double "@ + operands, LlvmTy::Double)
        } else {
            (reg + " = mul i64 "@ + operands, LlvmTy::I64)
        },
        BinOp::Div => if is_f {
            (reg + " = fdiv double "@ + operands, LlvmTy::Double)
        } else {
            (reg + " = sdiv i64 "@ + operands, LlvmTy::I64)
        },
        BinOp::Mod => (reg + " = srem i64 "@ + operands, LlvmTy::I64),
        BinOp::Eq => if is_p {
            (reg + " = call i1 @sk_str_eq(i8* "@ + l.reg + ", i8* "@ + r.reg + ")"@, LlvmTy::I1)
        } else if is_f {
            (reg + " = fcmp oeq double "@ + operands, LlvmTy::I1)
        } else {
            (reg + " = icmp eq i64 "@ + operands, LlvmTy::I1)
        },
        BinOp::NotEq => if is_f {
            (reg + " = fcmp one double "@ + operands, LlvmTy::I1)
        } else {
            (reg + " = icmp ne i64 "@ + operands, LlvmTy::I1)
        },
        BinOp::Lt => if is_f {
            (reg + " = fcmp olt double "@ + operands, LlvmTy::I1)
        } else {
            (reg + " = icmp slt i64 "@ + operands, LlvmTy::I1)
        },
        BinOp::LtEq => if is_f {
            (reg + " = fcmp ole double "@ + operands, LlvmTy::I1)
        } else {
            (reg + " = icmp sle i64 "@ + operands, LlvmTy::I1)
        },
        BinOp::Gt => if is_f {
            (reg + " = fcmp ogt double "@ + operands, LlvmTy::I1)
        } else {
            (reg + " = icmp sgt i64 "@ + operands, LlvmTy::I1)
        },
        BinOp::GtEq => if is_f {
            (reg + " = fcmp oge double "@ + operands, LlvmTy::I1)
        } else {
            (reg + " = icmp sge i64 "@ + operands, LlvmTy::I1)
        },
        BinOp::And => (reg + " = and i1 "@ + operands, LlvmTy::I1),
        BinOp::Or => (reg + " = or i1 "@ + operands, LlvmTy::I1),
    }
}

/// `br label %<l>`
pub open spec fn br(l: Seq<char>) -> Seq<char> {
    "br label %"@ + l
}

/// `br i1 <c>, label %<a>, label %<b>`
pub open spec fn br_if(c: Seq<char>, a: Seq<char>, b: Seq<char>) -> Seq<char> {
    "br i1 "@ + c + ", label %"@ + a + ", label %"@ + b
}

/// The enclosing loop closed.
pub open spec fn pop_loop(s: GenSt) -> GenSt {
    if s.loop_stack.len() > 0 {
        GenSt { loop_stack: s.loop_stack.drop_last(), ..s }
    } else {
        s
    }
}

// ------------------------------------------------------------
// Expressions and statements
// ------------------------------------------------------------

/// The IR of an expression.
#[verifier::opaque]
pub open spec fn g_expr(s: GenSt, e: ExprV) -> GenV
    decreases e, 2int,
{
    match e {
        ExprV::Int(n) => (s, ValV { reg: int_decimal(n as int), ty: LlvmTy::I64 }),
        ExprV::Float(t) => (s, ValV { reg: float_exp_text(t), ty: LlvmTy::Double }),
        ExprV::Bool(b) => (s, ValV { reg: if b { "true"@ } else { "false"@ }, ty: LlvmTy::I1 }),
        ExprV::Str(t) => g_str(s, t),
        ExprV::Null => (s, null_val()),
        ExprV::NoneVal => (s, null_val()),
        ExprV::Ident(name) => match var_get(s.vars, name) {
            Some((ptr, ty)) => {
                let (s1, r) = g_tmp(s);
                (g_i(s1, r + " = load "@ + ty_ir(ty) + ", "@ + ty_ir(ty) + "* "@ + ptr), ValV { reg: r, ty })
            },
            None => (s, ValV { reg: "@"@ + name, ty: LlvmTy::Ptr }),
        },
        ExprV::BinOp { op, lhs, rhs } => {
            let (s1, l) = g_expr(s, *lhs);
            let (s2, r) = g_expr(s1, *rhs);
            let (s3, reg) = g_tmp(s2);
            let (ir, ty) = binop_ir(op, l, r, reg);
            (g_i(s3, ir), ValV { reg, ty })
        },
        ExprV::UnOp { op, expr } => {
            let (s1, v) = g_expr(s, *expr);
            let (s2, r) = g_tmp(s1);
            if op == UnOp::Neg {
                if v.ty == LlvmTy::Double {
                    (g_i(s2, r + " = fneg double "@ + v.reg), ValV { reg: r, ty: v.ty })
                } else {
                    (g_i(s2, r + " = sub i64 0, "@ + v.reg), ValV { reg: r, ty: v.ty })
                }
            } else {
                (g_i(s2, r + " = xor i1 "@ + v.reg + ", true"@), ValV { reg: r, ty: LlvmTy::I1 })
            }
        },
        ExprV::Call { .. } => g_call(s, e),
        ExprV::If { .. } => g_if(s, e),
        ExprV::Block(ss) => (g_block_stmts(s, ss, 0), void_val()),
        ExprV::Field { expr, .. } => (g_expr(s, *expr).0, null_val()),
        ExprV::Index { expr, idx } => (g_expr(g_expr(s, *expr).0, *idx).0, null_val()),
        ExprV::StructLit { fields, .. } => (g_field_values(s, fields, 0), null_val()),
        ExprV::Match { .. } => g_match(s, e),
        ExprV::Try(inner) => g_expr(s, *inner),
        ExprV::Catch { .. } => g_catch(s, e),
        ExprV::TryBlock(ss) => (g_stmts(s, ss, 0), void_val()),
        ExprV::Lambda { .. } => (s, null_val()),
        ExprV::SomeVal(inner) => g_expr(s, *inner),
        ExprV::OkVal(inner) => g_expr(s, *inner),
        ExprV::ErrVal(inner) => (g_expr(s, *inner).0, null_val()),
        ExprV::Range { start, end, .. } => (g_expr(g_expr(s, *start).0, *end).0, void_val()),
    }
}

/// The values of struct literal fields from `i` on, each computed and dropped.
#[verifier::opaque]
pub open spec fn g_field_values(s: GenSt, fields: Seq<(Seq<char>, ExprV)>, i: int) -> GenSt
    decreases fields, fields.len() - i,
{
    if i < 0 || i >= fields.len() {
        s
    } else {
        g_field_values(g_expr(s, fields[i].1).0, fields, i + 1)
    }
}

/// The values of call arguments from `i` on, in order, after those in `acc`.
#[verifier::opaque]
pub open spec fn g_args(s: GenSt, args: Seq<ExprV>, i: int, acc: Seq<ValV>) -> (GenSt, Seq<ValV>)
    decreases args, args.len() - i,
{
    if i < 0 || i >= args.len() {
        (s, acc)
    } else {
        let (s1, v) = g_expr(s, args[i]);
        g_args(s1, args, i + 1, acc.push(v))
    }
}

/// A call: the arguments are computed first, then the call is made by name, to a standard
/// library method, or not at all.
#[verifier::opaque]
pub open spec fn g_call(s: GenSt, e: ExprV) -> GenV
    decreases e, 1int,
{
    match e {
        ExprV::Call { func, args } => {
            let (s1, vals) = g_args(s, args, 0, Seq::empty());
            match *func {
                ExprV::Ident(name) => g_named_call(s1, name, vals),
                ExprV::Field { expr, name: method } => {
                    let target = match *expr {
                        ExprV::Ident(module) => method_target(module, method),
                        _ => None,
                    };
                    match target {
                        Some((f, ret)) => g_runtime_call(s1, f, vals, ret),
                        None => (g_expr(s1, *expr).0, void_val()),
                    }
                },
                _ => (s1, void_val()),
            }
        },
        _ => (s, void_val()),
    }
}

/// An `if`: the condition branches to the then-block or to the `elif`/`else` chain, and
/// every branch that does not end its block jumps to the common end.
#[verifier::opaque]
pub open spec fn g_if(s: GenSt, e: ExprV) -> GenV
    decreases e, 1int,
{
    match e {
        ExprV::If { cond, then, elifs, else_ } => {
            let (s1, cv) = g_expr(s, *cond);
            let (s2, lthen) = g_label(s1, "if_then"@);
            let (s3, lend) = g_label(s2, "if_end"@);
            let (s4, lnext) = if elifs.len() == 0 && else_ is None {
                (s3, lend)
            } else {
                g_label(s3, "if_else"@)
            };
            let s5 = g_block(g_i(s4, br_if(cv.reg, lthen, lnext)), lthen);
            let s6 = g_expr(s5, *then).0;
            let s7 = if !s6.terminated { g_i(s6, br(lend)) } else { s6 };
            let s8 = if elifs.len() > 0 || else_ is Some {
                let (s9, cur_else) = g_elifs(s7, elifs, 0, lnext, lend, else_ is Some);
                match else_ {
                    Some(eb) => {
                        let s10 = g_expr(g_block(s9, cur_else), *eb).0;
                        if !s10.terminated { g_i(s10, br(lend)) } else { s10 }
                    },
                    None => s9,
                }
            } else {
                s7
            };
            (g_block(s8, lend), void_val())
        },
        _ => (s, void_val()),
    }
}

/// The `elif` parts from `i` on; `cur_else` is the block of the next test. Gives the block
/// that follows the last part.
#[verifier::opaque]
pub open spec fn g_elifs(
    s: GenSt,
    elifs: Seq<(ExprV, ExprV)>,
    i: int,
    cur_else: Seq<char>,
    lend: Seq<char>,
    has_else: bool,
) -> (GenSt, Seq<char>)
    decreases elifs, elifs.len() - i,
{
    if i < 0 || i >= elifs.len() {
        (s, cur_else)
    } else {
        let (s1, ecv) = g_expr(g_block(s, cur_else), elifs[i].0);
        let (s2, ethen) = g_label(s1, "elif_then"@);
        let (s3, enext) = if i + 1 < elifs.len() || has_else {
            g_label(s2, "elif_else"@)
        } else {
            (s2, lend)
        };
        let s4 = g_expr(g_block(g_i(s3, br_if(ecv.reg, ethen, enext)), ethen), elifs[i].1).0;
        let s5 = if !s4.terminated { g_i(s4, br(lend)) } else { s4 };
        g_elifs(s5, elifs, i + 1, enext, lend, has_else)
    }
}

/// A `match`: each arm tests the value and branches to its body or to the next test.
#[verifier::opaque]
pub open spec fn g_match(s: GenSt, e: ExprV) -> GenV
    decreases e, 1int,
{
    match e {
        ExprV::Match { expr, arms } => {
            let (s1, v) = g_expr(s, *expr);
            let (s2, lend) = g_label(s1, "match_end"@);
            let s3 = g_arms(s2, arms, 0, v, lend);
            (g_block(g_i(s3, br(lend)), lend), void_val())
        },
        _ => (s, void_val()),
    }
}

/// The test of one arm's pattern against `v`: a branch to `lbody`, or on to `lnext`.
#[verifier::opaque]
pub open spec fn g_arm_test(s: GenSt, p: PatternV, v: ValV, lbody: Seq<char>, lnext: Seq<char>) -> GenSt {
    match p {
        PatternV::Int(n) => {
            let (s1, c) = g_tmp(s);
            let (s2, cv) = g_coerce(s1, v, LlvmTy::I64);
            g_i(g_i(s2, c + " = icmp eq i64 "@ + cv + ", "@ + int_decimal(n as int)), br_if(c, lbody, lnext))
        },
        PatternV::Bool(b) => {
            let (s1, c) = g_tmp(s);
            let (s2, cv) = g_coerce(s1, v, LlvmTy::I1);
            g_i(
                g_i(s2, c + " = icmp eq i1 "@ + cv + ", "@ + if b { "true"@ } else { "false"@ }),
                br_if(c, lbody, lnext),
            )
        },
        _ => g_i(s, br(lbody)),
    }
}

/// The arms from `i` on.
#[verifier::opaque]
pub open spec fn g_arms(s: GenSt, arms: Seq<ArmV>, i: int, v: ValV, lend: Seq<char>) -> GenSt
    decreases arms, arms.len() - i,
{
    if i < 0 || i >= arms.len() {
        s
    } else {
        let (s1, lbody) = g_label(s, "match_arm"@);
        let (s2, lnext) = g_label(s1, "match_next"@);
        let s3 = g_block(g_arm_test(s2, arms[i].pattern, v, lbody, lnext), lbody);
        let s4 = g_expr(s3, arms[i].body).0;
        g_arms(g_block(g_i(s4, br(lend)), lnext), arms, i + 1, v, lend)
    }
}

/// A `catch`: the value of the expression, after the handler's code.
#[verifier::opaque]
pub open spec fn g_catch(s: GenSt, e: ExprV) -> GenV
    decreases e, 1int,
{
    match e {
        ExprV::Catch { expr, handler } => {
            let (s1, v) = g_expr(s, *expr);
            match handler {
                HandlerV::Default(d) => (g_expr(s1, *d).0, v),
                HandlerV::WithErr(_, body) => g_expr(s1, *body),
                HandlerV::WithErrBlock(_, ss) => (g_stmts(s1, ss, 0), void_val()),
            }
        },
        _ => (s, void_val()),
    }
}

/// The statements of a block expression from `i` on, up to the first that ends its block.
#[verifier::opaque]
pub open spec fn g_block_stmts(s: GenSt, ss: Seq<StmtV>, i: int) -> GenSt
    decreases ss, ss.len() - i,
{
    if i < 0 || i >= ss.len() {
        s
    } else {
        let s1 = g_stmt(s, ss[i]);
        if s1.terminated {
            s1
        } else {
            g_block_stmts(s1, ss, i + 1)
        }
    }
}

/// The statements from `i` on.
#[verifier::opaque]
pub open spec fn g_stmts(s: GenSt, ss: Seq<StmtV>, i: int) -> GenSt
    decreases ss, ss.len() - i,
{
    if i < 0 || i >= ss.len() {
        s
    } else {
        g_stmts(g_stmt(s, ss[i]), ss, i + 1)
    }
}

/// A loop body between its labels: `cont` is where `continue` goes, `brk` where `break` goes.
#[verifier::opaque]
pub open spec fn g_loop_body(s: GenSt, body: Seq<StmtV>, cont: Seq<char>, brk: Seq<char>) -> GenSt
    decreases body, body.len() + 1,
{
    pop_loop(g_stmts(GenSt { loop_stack: s.loop_stack.push((cont, brk)), ..s }, body, 0))
}

/// A `let` or `mut` declaration: a stack slot holding the value.
#[verifier::opaque]
pub open spec fn g_decl(s: GenSt, name: Seq<char>, value: ExprV) -> GenSt
    decreases value, 3int,
{
    let (s1, v) = g_expr(s, value);
    let ptr = "%"@ + name + ".p"@;
    let s2 = g_i(s1, ptr + " = alloca "@ + ty_ir(v.ty));
    let s3 = g_i(s2, "store "@ + ty_ir(v.ty) + " "@ + v.reg + ", "@ + ty_ir(v.ty) + "* "@ + ptr);
    g_var(s3, name, ptr, v.ty)
}

/// A statement.
#[verifier::opaque]
pub open spec fn g_stmt(s: GenSt, st: StmtV) -> GenSt
    decreases st, 4int,
{
    match st {
        StmtV::Let { name, value, .. } => g_decl(s, name, value),
        StmtV::Mut { name, value, .. } => g_decl(s, name, value),
        StmtV::Assign { target, value } => {
            let (s1, v) = g_expr(s, value);
            match target {
                ExprV::Ident(name) => match var_get(s1.vars, name) {
                    Some((ptr, ty)) => {
                        let (s2, cv) = g_coerce(s1, v, ty);
                        g_i(s2, "store "@ + ty_ir(ty) + " "@ + cv + ", "@ + ty_ir(ty) + "* "@ + ptr)
                    },
                    None => s1,
                },
                _ => s1,
            }
        },
        StmtV::Return(x) => match x {
            Some(v) => {
                let (s1, val) = g_expr(s, v);
                let (s2, cv) = g_coerce(s1, val, s.ret_ty);
                g_i(s2, "ret "@ + ty_ir(s.ret_ty) + " "@ + cv)
            },
            None => g_i(s, "ret void"@),
        },
        StmtV::Expr(x) => g_expr(s, x).0,
        StmtV::For { .. } => g_for(s, st),
        StmtV::While { cond, body } => {
            let (s1, lcheck) = g_label(s, "wh_chk"@);
            let (s2, lbody) = g_label(s1, "wh_body"@);
            let (s3, lend) = g_label(s2, "wh_end"@);
            let (s4, cv) = g_expr(g_block(g_i(s3, br(lcheck)), lcheck), cond);
            let s5 = g_block(g_i(s4, br_if(cv.reg, lbody, lend)), lbody);
            let s6 = g_loop_body(s5, body, lcheck, lend);
            g_block(g_i(s6, br(lcheck)), lend)
        },
        StmtV::Loop(body) => {
            let (s1, lstart) = g_label(s, "loop"@);
            let (s2, lend) = g_label(s1, "loop_end"@);
            let s3 = g_block(g_i(s2, br(lstart)), lstart);
            let s4 = g_loop_body(s3, body, lstart, lend);
            g_block(g_i(s4, br(lstart)), lend)
        },
        StmtV::Break => if s.loop_stack.len() > 0 {
            let (s1, dead) = g_label(g_i(s, br(s.loop_stack.last().1)), "dead"@);
            g_block(s1, dead)
        } else {
            s
        },
        StmtV::Continue => if s.loop_stack.len() > 0 {
            let (s1, dead) = g_label(g_i(s, br(s.loop_stack.last().0)), "dead"@);
            g_block(s1, dead)
        } else {
            s
        },
    }
}

/// A `for` over a range: a counter in a stack slot, tested against the end before each
/// round and increased after it. Over anything else, the body once.
#[verifier::opaque]
pub open spec fn g_for(s: GenSt, st: StmtV) -> GenSt
    decreases st, 3int,
{
    match st {
        StmtV::For { var, iter, body } => match iter {
            ExprV::Range { start, end, inclusive } => {
                let (s1, sv) = g_expr(s, *start);
                let (s2, ev) = g_expr(s1, *end);
                let ptr = "%"@ + var + ".p"@;
                let s3 = g_i(s2, ptr + " = alloca i64"@);
                let (s4, sv_c) = g_coerce(s3, sv, LlvmTy::I64);
                let s5 = g_var(g_i(s4, "store i64 "@ + sv_c + ", i64* "@ + ptr), var, ptr, LlvmTy::I64);
                let (s6, lcheck) = g_label(s5, "for_chk"@);
                let (s7, lbody) = g_label(s6, "for_body"@);
                let (s8, lend) = g_label(s7, "for_end"@);
                let (s9, ev_c) = g_coerce(s8, ev, LlvmTy::I64);
                let ev_ptr = "%for_ev_"@ + decimal(s9.lbl as nat);
                let s10 = g_i(g_i(s9, ev_ptr + " = alloca i64"@), "store i64 "@ + ev_c + ", i64* "@ + ev_ptr);
                let s11 = g_block(g_i(s10, br(lcheck)), lcheck);
                let (s12, cur) = g_tmp(s11);
                let s13 = g_i(s12, cur + " = load i64, i64* "@ + ptr);
                let (s14, ev_cur) = g_tmp(s13);
                let s15 = g_i(s14, ev_cur + " = load i64, i64* "@ + ev_ptr);
                let (s16, cond) = g_tmp(s15);
                let test_op = if inclusive { "icmp sle"@ } else { "icmp slt"@ };
                let s17 = g_i(g_i(s16, cond + " = "@ + test_op + " i64 "@ + cur + ", "@ + ev_cur), br_if(cond, lbody, lend));
                let s18 = g_loop_body(g_block(s17, lbody), body, lcheck, lend);
                let (s19, c2) = g_tmp(s18);
                let (s20, inc) = g_tmp(s19);
                let s21 = g_i(g_i(s20, c2 + " = load i64, i64* "@ + ptr), inc + " = add i64 "@ + c2 + ", 1"@);
                let s22 = g_i(g_i(s21, "store i64 "@ + inc + ", i64* "@ + ptr), br(lcheck));
                g_block(s22, lend)
            },
            _ => g_stmts(s, body, 0),
        },
        _ => s,
    }
}

// ------------------------------------------------------------
// Functions and programs
// ------------------------------------------------------------

/// The parameters other than `self` as IR: `type %name` separated by `, `.
pub open spec fn params_ir(ps: Seq<ParamV>) -> Seq<char>
    decreases ps.len(),
{
    if ps.len() == 0 {
        Seq::empty()
    } else {
        let rest = params_ir(ps.drop_last());
        let p = ps.last();
        if p.is_self {
            rest
        } else if rest.len() == 0 {
            ty_ir(llvm_of(p.ty)) + " %"@ + p.name
        } else {
            rest + ", "@ + ty_ir(llvm_of(p.ty)) + " %"@ + p.name
        }
    }
}

/// Each parameter other than `self` copied into a stack slot, from `i` on.
#[verifier::opaque]
pub open spec fn g_param_slots(s: GenSt, ps: Seq<ParamV>, i: int) -> GenSt
    decreases ps.len() - i,
{
    if i < 0 || i >= ps.len() {
        s
    } else if ps[i].is_self {
        g_param_slots(s, ps, i + 1)
    } else {
        let ty = llvm_of(ps[i].ty);
        let ptr = "%"@ + ps[i].name + ".p"@;
        let s1 = g_i(s, ptr + " = alloca "@ + ty_ir(ty));
        let s2 = g_i(s1, "store "@ + ty_ir(ty) + " %"@ + ps[i].name + ", "@ + ty_ir(ty) + "* "@ + ptr);
        g_param_slots(g_var(s2, ps[i].name, ptr, ty), ps, i + 1)
    }
}

/// A function definition; `main` is named `sk_user_main`.
#[verifier::opaque]
pub open spec fn g_fn(s: GenSt, name: Seq<char>, params: Seq<ParamV>, ret: Option<TypeV>, body: Seq<StmtV>) -> GenSt {
    let ll_name = if name == "main"@ { "sk_user_main"@ } else { name };
    let ret_ty = match ret {
        Some(t) => llvm_of(t),
        None => LlvmTy::Void,
    };
    let s1 = GenSt {
        vars: Seq::empty(),
        fn_buf: "define "@ + ty_ir(ret_ty) + " @"@ + ll_name + "("@ + params_ir(params) + ") {\nentry:\n"@,
        tmp: 0,
        ret_ty,
        ..s
    };
    let s2 = g_stmts(GenSt { terminated: false, ..g_param_slots(s1, params, 0) }, body, 0);
    let s3 = if !s2.terminated {
        if ret_ty == LlvmTy::Void {
            g_i(s2, "ret void"@)
        } else {
            g_i(s2, "ret "@ + ty_ir(ret_ty) + " "@ + ty_zero(ret_ty))
        }
    } else {
        s2
    };
    let buf = s3.fn_buf + "}\n\n"@;
    GenSt { fn_buf: buf, fn_defs: s3.fn_defs + buf, ..s3 }
}

/// An item: a function, or the methods of an impl.
#[verifier::opaque]
pub open spec fn g_top(s: GenSt, item: TopV) -> GenSt
    decreases item, 1int,
{
    match item {
        TopV::Fn { name, params, ret, body } => g_fn(s, name, params, ret, body),
        TopV::Impl { methods, .. } => g_tops(s, methods, 0),
        _ => s,
    }
}

/// The items from `i` on.
#[verifier::opaque]
pub open spec fn g_tops(s: GenSt, items: Seq<TopV>, i: int) -> GenSt
    decreases items, items.len() - i,
{
    if i < 0 || i >= items.len() {
        s
    } else {
        g_tops(g_top(s, items[i]), items, i + 1)
    }
}

/// The declarations of the runtime functions.
pub open spec fn extern_decls() -> Seq<char> {
    "declare void   @sk_runtime_init()\ndeclare void   @sk_runtime_shutdown()\ndeclare void   @sk_print(i8*)\ndeclare void   @sk_println(i8*)\ndeclare i8*    @sk_read_line()\ndeclare i64    @sk_str_len(i8*)\ndeclare i8*    @sk_str_concat(i8*, i8*)\ndeclare i1     @sk_str_eq(i8*, i8*)\ndeclare i8*    @sk_gc_alloc(i64)\ndeclare double @sk_sqrt(double)\ndeclare double @sk_pow(double, double)\ndeclare double @sk_abs(double)\ndeclare double @sk_floor(double)\ndeclare double @sk_ceil(double)\ndeclare double @sk_sin(double)\ndeclare double @sk_cos(double)\ndeclare double @sk_log(double)\n"@
}

/// The first lines of every module: a comment and the target triple.
pub open spec fn module_header() -> Seq<char> {
    "; sekirei generated LLVM IR\ntarget triple = \"aarch64-unknown-linux-musl\"\n\n"@
}

/// The module text: a header, the string constants, the runtime declarations and the
/// function definitions.
pub open spec fn module_text(s: GenSt) -> Seq<char> {
    module_header() + s.globals + "\n"@
        + extern_decls() + "\n"@ + s.fn_defs
}

/// A fresh generator.
pub open spec fn gen_init() -> GenSt {
    GenSt {
        globals: Seq::empty(),
        fn_defs: Seq::empty(),
        fn_buf: Seq::empty(),
        tmp: 0,
        str_cnt: 0,
        lbl: 0,
        vars: Seq::empty(),
        ret_ty: LlvmTy::Void,
        terminated: false,
        loop_stack: Seq::empty(),
    }
}

/// The IR of a program, from a given generator state.
pub open spec fn g_program(s: GenSt, items: Seq<TopV>) -> (GenSt, Seq<char>) {
    let s1 = g_tops(s, items, 0);
    (s1, module_text(s1))
}

// ------------------------------------------------------------
// Laws
// ------------------------------------------------------------

/// Two labels taken one after the other are distinct, whatever their prefix and whatever
/// the state; taking a label changes nothing but the label counter.
pub proof fn law_successive_labels_differ(s: GenSt, p: Seq<char>)
    ensures
        g_label(g_label(s, p).0, p).1 != g_label(s, p).1,
        g_label(s, p).0 == (GenSt { lbl: wrap_inc(s.lbl), ..s }),
{
    let n1 = wrap_inc(s.lbl);
    let n2 = wrap_inc(n1);
    lemma_decimal_injective(n1 as nat, n2 as nat);
    let a = g_label(s, p).1;
    let b = g_label(g_label(s, p).0, p).1;
    reveal_strlit("_");
    if a == b {
        assert(a.subrange(p.len() + 1int, a.len() as int) =~= decimal(n1 as nat));
        assert(b.subrange(p.len() + 1int, b.len() as int) =~= decimal(n2 as nat));
    }
}

/// Two temporaries taken one after the other are distinct registers; taking one changes
/// nothing but the temporary counter.
pub proof fn law_successive_temporaries_differ(s: GenSt)
    ensures
        g_tmp(g_tmp(s).0).1 != g_tmp(s).1,
        g_tmp(s).0 == (GenSt { tmp: wrap_inc(s.tmp), ..s }),
{
    let n1 = wrap_inc(s.tmp);
    let n2 = wrap_inc(n1);
    lemma_decimal_injective(n1 as nat, n2 as nat);
    let a = g_tmp(s).1;
    let b = g_tmp(g_tmp(s).0).1;
    reveal_strlit("%t");
    if a == b {
        assert(a.subrange(2, a.len() as int) =~= decimal(n1 as nat));
        assert(b.subrange(2, b.len() as int) =~= decimal(n2 as nat));
    }
}

/// Every module the generator writes begins with its header line and the target triple,
/// whatever program it was given.
pub proof fn law_module_starts_with_target(s: GenSt, items: Seq<TopV>)
    ensures
        g_program(s, items).1.subrange(0, module_header().len() as int) == module_header(),
{
    let m = g_program(s, items).1;
    assert(m.subrange(0, module_header().len() as int) =~= module_header());
}

/// Each comparison of two integers is the LLVM `icmp` with its own predicate, and of two
/// doubles the ordered `fcmp` with its own predicate: `==` is `eq`/`oeq`, `!=` is `ne`/`one`,
/// `<` is `slt`/`olt`, `<=` is `sle`/`ole`, `>` is `sgt`/`ogt`, `>=` is `sge`/`oge`; the
/// result is an `i1`.
pub proof fn law_comparison_predicates(l: ValV, r: ValV, reg: Seq<char>)
    ensures
        l.ty == LlvmTy::I64 ==> {
            let ops = l.reg + ", "@ + r.reg;
            &&& binop_ir(BinOp::Eq, l, r, reg) == (reg + " = icmp eq i64 "@ + ops, LlvmTy::I1)
            &&& binop_ir(BinOp::NotEq, l, r, reg) == (reg + " = icmp ne i64 "@ + ops, LlvmTy::I1)
            &&& binop_ir(BinOp::Lt, l, r, reg) == (reg + " = icmp slt i64 "@ + ops, LlvmTy::I1)
            &&& binop_ir(BinOp::LtEq, l, r, reg) == (reg + " = icmp sle i64 "@ + ops, LlvmTy::I1)
            &&& binop_ir(BinOp::Gt, l, r, reg) == (reg + " = icmp sgt i64 "@ + ops, LlvmTy::I1)
            &&& binop_ir(BinOp::GtEq, l, r, reg) == (reg + " = icmp sge i64 "@ + ops, LlvmTy::I1)
        },
        l.ty == LlvmTy::Double ==> {
            let ops = l.reg + ", "@ + r.reg;
            &&& binop_ir(BinOp::Eq, l, r, reg) == (reg + " = fcmp oeq double "@ + ops, LlvmTy::I1)
            &&& binop_ir(BinOp::NotEq, l, r, reg) == (reg + " = fcmp one double "@ + ops, LlvmTy::I1)
            &&& binop_ir(BinOp::Lt, l, r, reg) == (reg + " = fcmp olt double "@ + ops, LlvmTy::I1)
            &&& binop_ir(BinOp::LtEq, l, r, reg) == (reg + " = fcmp ole double "@ + ops, LlvmTy::I1)
            &&& binop_ir(BinOp::Gt, l, r, reg) == (reg + " = fcmp ogt double "@ + ops, LlvmTy::I1)
            &&& binop_ir(BinOp::GtEq, l, r, reg) == (reg + " = fcmp oge double "@ + ops, LlvmTy::I1)
        },
{
    reveal(binop_ir);
}

/// `==` and `!=` on integers are told apart: their instructions differ, whatever the
/// operands and the register.
pub proof fn law_equal_and_not_equal_differ(l: ValV, r: ValV, reg: Seq<char>)
    requires
        l.ty == LlvmTy::I64 || l.ty == LlvmTy::Double,
    ensures
        binop_ir(BinOp::Eq, l, r, reg).0 != binop_ir(BinOp::NotEq, l, r, reg).0,
{
    law_comparison_predicates(l, r, reg);
    reveal_strlit(" = icmp eq i64 ");
    reveal_strlit(" = icmp ne i64 ");
    reveal_strlit(" = fcmp oeq double ");
    reveal_strlit(" = fcmp one double ");
    let a = binop_ir(BinOp::Eq, l, r, reg).0;
    let b = binop_ir(BinOp::NotEq, l, r, reg).0;
    if l.ty == LlvmTy::I64 {
        assert(a[reg.len() + 8int] == 'e' && b[reg.len() + 8int] == 'n');
    } else {
        assert(a[reg.len() + 9int] == 'e' && b[reg.len() + 9int] == 'n');
    }
}

/// `s` ends with `tail`.
pub open spec fn ends_with(s: Seq<char>, tail: Seq<char>) -> bool {
    s.len() >= tail.len() && s.subrange(s.len() - tail.len(), s.len() as int) == tail
}

/// The IR of an integer comparison `a OP b` ends with the `icmp` of the operator's own
/// predicate on the two operands' values, and the expression's value is an `i1`.
pub proof fn law_comparison_expression_ir(s: GenSt, op: BinOp, lhs: ExprV, rhs: ExprV)
    requires
        op == BinOp::Eq || op == BinOp::NotEq || op == BinOp::Lt || op == BinOp::LtEq || op == BinOp::Gt
            || op == BinOp::GtEq,
    ensures
        ({
            let (s1, lv) = g_expr(s, lhs);
            let (s2, rv) = g_expr(s1, rhs);
            let (out, v) = g_expr(s, ExprV::BinOp { op, lhs: Box::new(lhs), rhs: Box::new(rhs) });
            let pred: Seq<char> = if op == BinOp::Eq {
                "eq"@
            } else if op == BinOp::NotEq {
                "ne"@
            } else if op == BinOp::Lt {
                "slt"@
            } else if op == BinOp::LtEq {
                "sle"@
            } else if op == BinOp::Gt {
                "sgt"@
            } else {
                "sge"@
            };
            lv.ty == LlvmTy::I64 ==> ends_with(
                out.fn_buf,
                " = icmp "@ + pred + " i64 "@ + lv.reg + ", "@ + rv.reg + "\n"@,
            ) && v.ty == LlvmTy::I1
        }),
{
    reveal_with_fuel(g_expr, 1);
    reveal(binop_ir);
    let (s1, lv) = g_expr(s, lhs);
    let (s2, rv) = g_expr(s1, rhs);
    let (s3, reg) = g_tmp(s2);
    let ops = lv.reg + ", "@ + rv.reg;
    reveal_strlit(" = icmp eq i64 ");
    reveal_strlit(" = icmp ne i64 ");
    reveal_strlit(" = icmp slt i64 ");
    reveal_strlit(" = icmp sle i64 ");
    reveal_strlit(" = icmp sgt i64 ");
    reveal_strlit(" = icmp sge i64 ");
    reveal_strlit(" = icmp ");
    reveal_strlit(" i64 ");
    reveal_strlit("eq");
    reveal_strlit("ne");
    reveal_strlit("slt");
    reveal_strlit("sle");
    reveal_strlit("sgt");
    reveal_strlit("sge");
    reveal_strlit("  ");
    reveal_strlit("\n");
    if lv.ty == LlvmTy::I64 {
        let pred: Seq<char> = if op == BinOp::Eq {
            "eq"@
        } else if op == BinOp::NotEq {
            "ne"@
        } else if op == BinOp::Lt {
            "slt"@
        } else if op == BinOp::LtEq {
            "sle"@
        } else if op == BinOp::Gt {
            "sgt"@
        } else {
            "sge"@
        };
        let mid = " = icmp "@ + pred + " i64 "@;
        let tail = mid + ops + "\n"@;
        let line = reg + mid + ops;
        assert(binop_ir(op, lv, rv, reg).0 =~= line);
        let out = s3.fn_buf + "  "@ + line + "\n"@;
        assert(out.subrange(out.len() - tail.len(), out.len() as int) =~= tail);
        assert(tail =~= " = icmp "@ + pred + " i64 "@ + lv.reg + ", "@ + rv.reg + "\n"@);
    }
}


} // verus!
