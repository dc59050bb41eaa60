//! The LLVM IR text generator.
//!
//! Each routine is proved to write what its counterpart in `irgen_spec` describes.
use vstd::prelude::*;
use crate::ast::{Type, TypeV};
use crate::irgen_spec::{
    escape_char, escape_ir, extern_decls, g_block, g_coerce, g_i, g_label, g_str, g_tmp, g_var, gen_init, is_term,
    is_ws, llvm_of, method_target, module_text, pop_loop, starts_with, trim_ws, ty_ir, ty_zero, utf8_bytes,
    utf8_len, var_get, wrap_inc, GenSt, ValV,
};
pub use crate::irgen_spec::LlvmTy;
use crate::parser::text_is;
use crate::text::{decimal, push_decimal, push_decimal_u128, push_str, str_chars};

mod exprs;
mod stmts;


verus! {

impl LlvmTy {
    /// The IR name of the type.
    pub fn ir(&self) -> (r: &'static str)
        ensures
            r@ == ty_ir(*self),
    {
        match self {
            LlvmTy::I1 => "i1",
            LlvmTy::I64 => "i64",
            LlvmTy::Double => "double",
            LlvmTy::Ptr => "i8*",
            LlvmTy::Void => "void",
        }
    }

    /// The zero value of the type, as IR.
    fn zero(&self) -> (r: &'static str)
        ensures
            r@ == ty_zero(*self),
    {
        match self {
            LlvmTy::I1 => "false",
            LlvmTy::I64 => "0",
            LlvmTy::Double => "0.0",
            LlvmTy::Ptr => "null",
            LlvmTy::Void => "undef",
        }
    }
}

/// The LLVM type a sekirei type is held in: `bool` in `i1`, floats in `double`, strings,
/// characters, bytes and nullable types behind `i8*`, `void` as `void`, and everything else
/// in `i64`.
pub fn sk_ty(ty: &Type) -> (r: LlvmTy)
    ensures
        r == llvm_of(ty@),
{
    match ty {
        Type::Bool => LlvmTy::I1,
        Type::Float | Type::F32 | Type::F64 => LlvmTy::Double,
        Type::String | Type::Str | Type::Char | Type::Byte | Type::Nullable(_) => LlvmTy::Ptr,
        Type::Void => LlvmTy::Void,
        _ => LlvmTy::I64,
    }
}

/// A value: a register or constant, with its type.
pub struct Val {
    pub reg: String,
    pub ty: LlvmTy,
}

impl View for Val {
    type V = ValV;

    open spec fn view(&self) -> ValV {
        ValV { reg: self.reg@, ty: self.ty }
    }
}

impl Val {
    /// A value in `reg` of type `ty`.
    fn new(reg: String, ty: LlvmTy) -> (r: Val)
        ensures
            r@ == (ValV { reg: reg@, ty }),
    {
        Val { reg, ty }
    }

    /// An integer constant.
    fn i64(n: i64) -> (r: Val)
        ensures
            r@ == (ValV { reg: crate::text::int_decimal(n as int), ty: LlvmTy::I64 }),
    {
        Val::new(crate::text::i64_to_decimal(n), LlvmTy::I64)
    }

    /// The value of expressions that give none.
    fn void() -> (r: Val)
        ensures
            r@ == crate::irgen_spec::void_val(),
    {
        Val::new(String::from_str("undef"), LlvmTy::Void)
    }

    /// The null pointer.
    fn null() -> (r: Val)
        ensures
            r@ == crate::irgen_spec::null_val(),
    {
        Val::new(String::from_str("null"), LlvmTy::Ptr)
    }

    /// A copy of the value.
    fn copy(&self) -> (r: Val)
        ensures
            r@ == self@,
    {
        Val { reg: self.reg.clone(), ty: self.ty }
    }
}

/// The runtime function and result type of a standard library method `module.method`.
fn resolve_method(module: &String, method: &String) -> (r: Option<(&'static str, LlvmTy)>)
    ensures
        match r {
            Some((f, t)) => method_target(module@, method@) == Some((f@, t)),
            None => method_target(module@, method@) is None,
        },
{
    if text_is(module, "io") {
        if text_is(method, "print") {
            return Some(("sk_print", LlvmTy::Void));
        }
        if text_is(method, "println") {
            return Some(("sk_println", LlvmTy::Void));
        }
        if text_is(method, "read_line") {
            return Some(("sk_read_line", LlvmTy::Ptr));
        }
    }
    if text_is(module, "math") {
        if text_is(method, "sqrt") {
            return Some(("sk_sqrt", LlvmTy::Double));
        }
        if text_is(method, "pow") {
            return Some(("sk_pow", LlvmTy::Double));
        }
        if text_is(method, "abs") {
            return Some(("sk_abs", LlvmTy::Double));
        }
        if text_is(method, "floor") {
            return Some(("sk_floor", LlvmTy::Double));
        }
        if text_is(method, "ceil") {
            return Some(("sk_ceil", LlvmTy::Double));
        }
        if text_is(method, "sin") {
            return Some(("sk_sin", LlvmTy::Double));
        }
        if text_is(method, "cos") {
            return Some(("sk_cos", LlvmTy::Double));
        }
        if text_is(method, "log") {
            return Some(("sk_log", LlvmTy::Double));
        }
    }
    if text_is(module, "string") {
        if text_is(method, "len") {
            return Some(("sk_str_len", LlvmTy::I64));
        }
        if text_is(method, "concat") {
            return Some(("sk_str_concat", LlvmTy::Ptr));
        }
    }
    None
}

/// Whether `c` is whitespace (Unicode `White_Space`).
fn is_ws_char(c: char) -> (r: bool)
    ensures
        r == is_ws(c),
{
    ('\u{9}' <= c && c <= '\u{d}') || c == ' ' || c == '\u{85}' || c == '\u{a0}' || c == '\u{1680}' || ('\u{2000}'
        <= c && c <= '\u{200a}') || c == '\u{2028}' || c == '\u{2029}' || c == '\u{202f}' || c == '\u{205f}' || c
        == '\u{3000}'
}

/// Whether `v[from..]` begins with `p`.
fn has_prefix_at(v: &Vec<char>, from: usize, p: &str) -> (r: bool)
    requires
        from <= v@.len(),
    ensures
        r == starts_with(v@.skip(from as int), p@),
{
    let pc = str_chars(p);
    let vlen = v.len();
    if pc.len() > vlen - from {
        return false;
    }
    let mut k: usize = 0;
    while k < pc.len()
        invariant
            k <= pc@.len(),
            pc@ == p@,
            pc@.len() + from <= v@.len(),
            v@.len() <= usize::MAX,
            forall|j: int| 0 <= j < k ==> v@[from + j] == pc@[j],
        decreases pc.len() - k,
    {
        if v[from + k] != pc[k] {
            assert(v@.skip(from as int).subrange(0, p@.len() as int)[k as int] != p@[k as int]);
            return false;
        }
        k += 1;
    }
    assert(v@.skip(from as int).subrange(0, p@.len() as int) =~= p@);
    true
}

/// Whether an instruction ends a block: it starts with `ret `, `br ` or `unreachable`, after
/// any leading whitespace.
fn ends_block(ir: &String) -> (r: bool)
    ensures
        r == is_term(ir@),
{
    reveal(is_term);
    let v = str_chars(ir.as_str());
    let mut k: usize = 0;
    assert(v@.skip(0) =~= v@);
    while k < v.len() && is_ws_char(v[k])
        invariant
            k <= v@.len(),
            trim_ws(v@) == trim_ws(v@.skip(k as int)),
        decreases v.len() - k,
    {
        assert(v@.skip(k as int).drop_first() =~= v@.skip(k + 1));
        k += 1;
    }
    assert(trim_ws(v@.skip(k as int)) == v@.skip(k as int));
    has_prefix_at(&v, k, "ret ") || has_prefix_at(&v, k, "br ") || has_prefix_at(&v, k, "unreachable")
}

/// Appends a text as it stands in an IR string constant.
fn push_escaped(out: &mut String, s: &String)
    ensures
        final(out)@ == old(out)@ + escape_ir(s@),
{
    let v = str_chars(s.as_str());
    let ghost start = out@;
    let mut k: usize = 0;
    while k < v.len()
        invariant
            k <= v@.len(),
            v@ == s@,
            out@ == start + escape_ir(v@.take(k as int)),
        decreases v.len() - k,
    {
        assert(v@.take(k + 1).drop_last() =~= v@.take(k as int));
        let c = v[k];
        if c == '\n' {
            push_str(out, "\\0A");
        } else if c == '\t' {
            push_str(out, "\\09");
        } else if c == '"' {
            push_str(out, "\\22");
        } else if c == '\\' {
            push_str(out, "\\5C");
        } else {
            crate::text::push_char(out, c);
        }
        assert(out@ =~= start + escape_ir(v@.take(k + 1)));
        k += 1;
    }
    assert(v@.take(k as int) =~= v@);
}

/// The number of bytes of a text in UTF-8.
fn utf8_count(s: &String) -> (r: u128)
    ensures
        r as nat == utf8_bytes(s@),
        r <= 4 * (usize::MAX as nat),
{
    let v = str_chars(s.as_str());
    let total = v.len();
    let mut n: u128 = 0;
    let mut k: usize = 0;
    while k < total
        invariant
            k <= v@.len(),
            v@ == s@,
            n as nat == utf8_bytes(v@.take(k as int)),
            n <= 4 * k,
            total == v@.len(),
        decreases total - k,
    {
        assert(v@.take(k + 1).drop_last() =~= v@.take(k as int));
        let u = v[k] as u32;
        if u < 0x80 {
            n = n + 1;
        } else if u < 0x800 {
            n = n + 2;
        } else if u < 0x10000 {
            n = n + 3;
        } else {
            n = n + 4;
        }
        k += 1;
    }
    assert(v@.take(k as int) =~= v@);
    n
}

/// Writes the LLVM IR text of a program.
pub struct IrGen {
    globals: String,
    fn_defs: String,
    fn_buf: String,
    tmp: usize,
    str_cnt: usize,
    lbl: usize,
    vars: Vec<(String, (String, LlvmTy))>,
    ret_ty: LlvmTy,
    terminated: bool,
    loop_stack: Vec<(String, String)>,
}

impl View for IrGen {
    type V = GenSt;

    closed spec fn view(&self) -> GenSt {
        GenSt {
            globals: self.globals@,
            fn_defs: self.fn_defs@,
            fn_buf: self.fn_buf@,
            tmp: self.tmp,
            str_cnt: self.str_cnt,
            lbl: self.lbl,
            vars: self.vars@.map_values(|e: (String, (String, LlvmTy))| (e.0@, (e.1.0@, e.1.1))),
            ret_ty: self.ret_ty,
            terminated: self.terminated,
            loop_stack: self.loop_stack@.map_values(|e: (String, String)| (e.0@, e.1@)),
        }
    }
}

impl IrGen {
    /// A fresh generator.
    pub fn new() -> (r: Self)
        ensures
            r@ == gen_init(),
    {
        let r = Self {
            globals: String::new(),
            fn_defs: String::new(),
            fn_buf: String::new(),
            tmp: 0,
            str_cnt: 0,
            lbl: 0,
            vars: Vec::new(),
            ret_ty: LlvmTy::Void,
            terminated: false,
            loop_stack: Vec::new(),
        };
        assert(r@.vars =~= Seq::<(Seq<char>, (Seq<char>, LlvmTy))>::empty());
        assert(r@.loop_stack =~= Seq::<(Seq<char>, Seq<char>)>::empty());
        r
    }

    /// Appends an instruction line; it ends the block when it is a terminator.
    fn i(&mut self, ir: &String)
        ensures
            final(self)@ == g_i(old(self)@, ir@),
    {
        push_str(&mut self.fn_buf, "  ");
        push_str(&mut self.fn_buf, ir.as_str());
        push_str(&mut self.fn_buf, "\n");
        self.terminated = ends_block(ir);
    }

    /// Appends an instruction line given as a literal.
    fn i_str(&mut self, ir: &str)
        ensures
            final(self)@ == g_i(old(self)@, ir@),
    {
        let s = String::from_str(ir);
        self.i(&s);
    }

    /// Starts a block.
    fn block(&mut self, name: &String)
        ensures
            final(self)@ == g_block(old(self)@, name@),
    {
        push_str(&mut self.fn_buf, name.as_str());
        push_str(&mut self.fn_buf, ":\n");
        self.terminated = false;
    }

    /// A fresh register.
    fn tmp(&mut self) -> (r: String)
        ensures
            (final(self)@, r@) == g_tmp(old(self)@),
    {
        self.tmp = self.tmp.wrapping_add(1);
        assert(self.tmp == wrap_inc(old(self).tmp));
        let mut r = String::from_str("%t");
        push_decimal(&mut r, self.tmp as u64);
        r
    }

    /// A fresh label with the given prefix.
    fn label(&mut self, prefix: &str) -> (r: String)
        ensures
            (final(self)@, r@) == g_label(old(self)@, prefix@),
    {
        self.lbl = self.lbl.wrapping_add(1);
        assert(self.lbl == wrap_inc(old(self).lbl));
        let mut r = String::from_str(prefix);
        push_str(&mut r, "_");
        push_decimal(&mut r, self.lbl as u64);
        r
    }

    /// The last label number used.
    fn label_count(&self) -> (r: usize)
        ensures
            r == self@.lbl,
    {
        self.lbl
    }

    /// The current block ends in a terminator.
    fn is_terminated(&self) -> (r: bool)
        ensures
            r == self@.terminated,
    {
        self.terminated
    }

    /// The current function's result type.
    fn ret_type(&self) -> (r: LlvmTy)
        ensures
            r == self@.ret_ty,
    {
        self.ret_ty
    }

    /// Converts a value to `target`: the register holding it.
    fn coerce(&mut self, val: Val, target: LlvmTy) -> (r: String)
        ensures
            (final(self)@, r@) == g_coerce(old(self)@, val@, target),
    {
        proof {
            reveal(g_coerce);
        }
        if val.ty == target {
            return val.reg;
        }
        let r = self.tmp();
        let line = match (val.ty, target) {
            (LlvmTy::I64, LlvmTy::Double) => {
                let mut l = r.clone();
                push_str(&mut l, " = sitofp i64 ");
                push_str(&mut l, val.reg.as_str());
                push_str(&mut l, " to double");
                l
            },
            (LlvmTy::Double, LlvmTy::I64) => {
                let mut l = r.clone();
                push_str(&mut l, " = fptosi double ");
                push_str(&mut l, val.reg.as_str());
                push_str(&mut l, " to i64");
                l
            },
            (LlvmTy::I64, LlvmTy::I1) => {
                let mut l = r.clone();
                push_str(&mut l, " = icmp ne i64 ");
                push_str(&mut l, val.reg.as_str());
                push_str(&mut l, ", 0");
                l
            },
            (LlvmTy::I1, LlvmTy::I64) => {
                let mut l = r.clone();
                push_str(&mut l, " = zext i1 ");
                push_str(&mut l, val.reg.as_str());
                push_str(&mut l, " to i64");
                l
            },
            _ => {
                return val.reg;
            },
        };
        self.i(&line);
        r
    }

    /// The stack slot and type of local variable `name`.
    fn var_slot(&self, name: &String) -> (r: Option<(String, LlvmTy)>)
        ensures
            match r {
                Some((p, t)) => var_get(self@.vars, name@) == Some((p@, t)),
                None => var_get(self@.vars, name@) is None,
            },
    {
        let ghost vv = self@.vars;
        let mut k: usize = self.vars.len();
        assert(vv.take(k as int) =~= vv);
        while k > 0
            invariant
                k <= self.vars@.len(),
                vv == self@.vars,
                var_get(vv, name@) == var_get(vv.take(k as int), name@),
            decreases k,
        {
            k -= 1;
            assert(vv.take(k + 1).drop_last() =~= vv.take(k as int));
            assert(vv.take(k + 1).last() == (self.vars@[k as int].0@, (self.vars@[k as int].1.0@, self.vars@[k as int].1.1)));
            if self.vars[k].0 == *name {
                return Some((self.vars[k].1.0.clone(), self.vars[k].1.1));
            }
        }
        None
    }

    /// Records a local variable's stack slot and type.
    fn set_var(&mut self, name: String, ptr: String, ty: LlvmTy)
        ensures
            final(self)@ == g_var(old(self)@, name@, ptr@, ty),
    {
        self.vars.push((name, (ptr, ty)));
        assert(self@.vars =~= old(self)@.vars.push((name@, (ptr@, ty))));
    }

    /// Enters a loop: `continue` goes to `cont`, `break` to `brk`.
    fn push_loop(&mut self, cont: String, brk: String)
        ensures
            final(self)@ == (GenSt { loop_stack: old(self)@.loop_stack.push((cont@, brk@)), ..old(self)@ }),
    {
        self.loop_stack.push((cont, brk));
        assert(self@.loop_stack =~= old(self)@.loop_stack.push((cont@, brk@)));
    }

    /// Leaves the innermost loop.
    fn pop_loop(&mut self)
        ensures
            final(self)@ == pop_loop(old(self)@),
    {
        if self.loop_stack.len() > 0 {
            self.loop_stack.pop();
            assert(self@.loop_stack =~= old(self)@.loop_stack.drop_last());
        }
    }

    /// The labels of the innermost loop.
    fn loop_top(&self) -> (r: Option<(String, String)>)
        ensures
            match r {
                Some((c, b)) => self@.loop_stack.len() > 0 && self@.loop_stack.last() == (c@, b@),
                None => self@.loop_stack.len() == 0,
            },
    {
        if self.loop_stack.len() > 0 {
            let k = self.loop_stack.len() - 1;
            Some((self.loop_stack[k].0.clone(), self.loop_stack[k].1.clone()))
        } else {
            None
        }
    }

    /// Starts a function: no locals, no registers used, the given first line and result type.
    fn begin_fn(&mut self, header: String, ret_ty: LlvmTy)
        ensures
            final(self)@ == (GenSt { vars: Seq::empty(), fn_buf: header@, tmp: 0, ret_ty, ..old(self)@ }),
    {
        self.vars = Vec::new();
        self.fn_buf = header;
        self.tmp = 0;
        self.ret_ty = ret_ty;
        assert(self@.vars =~= Seq::<(Seq<char>, (Seq<char>, LlvmTy))>::empty());
    }

    /// Marks the current block as open.
    fn open_block(&mut self)
        ensures
            final(self)@ == (GenSt { terminated: false, ..old(self)@ }),
    {
        self.terminated = false;
    }

    /// Ends the current function and adds it to the definitions.
    fn end_fn(&mut self)
        ensures
            final(self)@ == (GenSt {
                fn_buf: old(self)@.fn_buf + "}\n\n"@,
                fn_defs: old(self)@.fn_defs + (old(self)@.fn_buf + "}\n\n"@),
                ..old(self)@
            }),
    {
        push_str(&mut self.fn_buf, "}\n\n");
        let buf = self.fn_buf.clone();
        push_str(&mut self.fn_defs, buf.as_str());
        assert(self.fn_defs@ =~= old(self)@.fn_defs + (old(self)@.fn_buf + "}\n\n"@));
    }

    /// A string literal: a global constant, and a pointer to its first byte.
    fn emit_str(&mut self, s: &String) -> (r: Val)
        ensures
            (final(self)@, r@) == g_str(old(self)@, s@),
    {
        proof {
            reveal(g_str);
        }
        let n = utf8_count(s);
        let mut len = String::new();
        push_decimal_u128(&mut len, n + 1);
        let mut name = String::from_str("@.str");
        push_decimal(&mut name, self.str_cnt as u64);
        self.str_cnt = self.str_cnt.wrapping_add(1);
        push_str(&mut self.globals, name.as_str());
        push_str(&mut self.globals, " = private unnamed_addr constant [");
        push_str(&mut self.globals, len.as_str());
        push_str(&mut self.globals, " x i8] c\"");
        push_escaped(&mut self.globals, s);
        push_str(&mut self.globals, "\\00\"\n");
        let r = self.tmp();
        let mut line = r.clone();
        push_str(&mut line, " = getelementptr inbounds [");
        push_str(&mut line, len.as_str());
        push_str(&mut line, " x i8], [");
        push_str(&mut line, len.as_str());
        push_str(&mut line, " x i8]* ");
        push_str(&mut line, name.as_str());
        push_str(&mut line, ", i64 0, i64 0");
        self.i(&line);
        Val { reg: r, ty: LlvmTy::Ptr }
    }

    /// The module text.
    fn module_text(&self) -> (r: String)
        ensures
            r@ == module_text(self@),
    {
        let mut out = String::from_str("; sekirei generated LLVM IR\ntarget triple = \"aarch64-unknown-linux-musl\"\n\n");
        push_str(&mut out, self.globals.as_str());
        push_str(&mut out, "\n");
        push_str(&mut out, EXTERN_DECLS);
        push_str(&mut out, "\n");
        push_str(&mut out, self.fn_defs.as_str());
        out
    }
}

/// The declarations of the runtime functions.
const EXTERN_DECLS: &'static str = "declare void   @sk_runtime_init()\ndeclare void   @sk_runtime_shutdown()\ndeclare void   @sk_print(i8*)\ndeclare void   @sk_println(i8*)\ndeclare i8*    @sk_read_line()\ndeclare i64    @sk_str_len(i8*)\ndeclare i8*    @sk_str_concat(i8*, i8*)\ndeclare i1     @sk_str_eq(i8*, i8*)\ndeclare i8*    @sk_gc_alloc(i64)\ndeclare double @sk_sqrt(double)\ndeclare double @sk_pow(double, double)\ndeclare double @sk_abs(double)\ndeclare double @sk_floor(double)\ndeclare double @sk_ceil(double)\ndeclare double @sk_sin(double)\ndeclare double @sk_cos(double)\ndeclare double @sk_log(double)\n";

} // verus!
