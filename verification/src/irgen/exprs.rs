//! The IR of expressions.
use vstd::prelude::*;
use crate::ast::{
    lemma_arms_view_index, lemma_elifs_view_index, lemma_exprs_view_index, lemma_fields_view_index, arms_view,
    elifs_view, expr_view, exprs_view, fields_view, pattern_view, ArmV, BinOp, CatchHandler, Expr, ExprV, MatchArm, Pattern,
    UnOp,
};
use crate::irgen_spec::{
    args_ir, binop_ir, br, br_if, g_args, g_arm_test, g_arms, g_call, g_catch, g_elifs, g_expr, g_field_values,
    g_if, g_match, g_named_call, g_runtime_call, LlvmTy, ValV,
};
use crate::numtext::float_exp_string;
use crate::text::{i64_to_decimal, push_str};
use super::{resolve_method, IrGen, Val};

verus! {

/// The views of values.
pub open spec fn vals_view(s: Seq<Val>) -> Seq<ValV> {
    s.map_values(|v: Val| v@)
}

/// The arguments of a call as IR: `type reg` separated by `, `.
fn arg_text(vals: &Vec<Val>) -> (r: String)
    ensures
        r@ == args_ir(vals_view(vals@)),
{
    let ghost vv = vals_view(vals@);
    let mut out = String::new();
    let mut k: usize = 0;
    while k < vals.len()
        invariant
            k <= vals@.len(),
            vv == vals_view(vals@),
            out@ == args_ir(vv.take(k as int)),
        decreases vals.len() - k,
    {
        assert(vv.take(k + 1).drop_last() =~= vv.take(k as int));
        if k > 0 {
            push_str(&mut out, ", ");
        }
        push_str(&mut out, vals[k].ty.ir());
        push_str(&mut out, " ");
        push_str(&mut out, vals[k].reg.as_str());
        proof {
            if k == 0 {
                assert(args_ir(vv.take(0)) =~= Seq::<char>::empty());
                assert(vv.take(1) =~= seq![vv[0]]);
            }
        }
        assert(out@ =~= args_ir(vv.take(k + 1)));
        k += 1;
    }
    assert(vv.take(k as int) =~= vv);
    out
}

/// `br label %<l>`
pub(crate) fn branch(l: &String) -> (r: String)
    ensures
        r@ == br(l@),
{
    let mut s = String::from_str("br label %");
    push_str(&mut s, l.as_str());
    s
}

/// `br i1 <c>, label %<a>, label %<b>`
pub(crate) fn branch_if(c: &String, a: &String, b: &String) -> (r: String)
    ensures
        r@ == br_if(c@, a@, b@),
{
    let mut s = String::from_str("br i1 ");
    push_str(&mut s, c.as_str());
    push_str(&mut s, ", label %");
    push_str(&mut s, a.as_str());
    push_str(&mut s, ", label %");
    push_str(&mut s, b.as_str());
    s
}

/// The instruction of a binary operator on `l` and `r` into `reg`, and its result type.
#[verifier::spinoff_prover]
fn binop_line(op: &BinOp, l: &Val, r: &Val, reg: &String) -> (res: (String, LlvmTy))
    ensures
        (res.0@, res.1) == binop_ir(*op, l@, r@, reg@),
{
    proof {
        reveal(binop_ir);
    }
    let is_f = l.ty == LlvmTy::Double;
    let is_p = l.ty == LlvmTy::Ptr;
    let mut s = reg.clone();
    if is_p && (matches!(op, BinOp::Add) || matches!(op, BinOp::Eq)) {
        if matches!(op, BinOp::Add) {
            push_str(&mut s, " = call i8* @sk_str_concat(i8* ");
        } else {
            push_str(&mut s, " = call i1 @sk_str_eq(i8* ");
        }
        push_str(&mut s, l.reg.as_str());
        push_str(&mut s, ", i8* ");
        push_str(&mut s, r.reg.as_str());
        push_str(&mut s, ")");
        return (s, if matches!(op, BinOp::Add) { LlvmTy::Ptr } else { LlvmTy::I1 });
    }
    let (mid, ty): (&str, LlvmTy) = match op {
        BinOp::Add => if is_f { (" = fadd double ", LlvmTy::Double) } else { (" = add i64 ", LlvmTy::I64) },
        BinOp::Sub => if is_f { (" = fsub double ", LlvmTy::Double) } else { (" = sub i64 ", LlvmTy::I64) },
        BinOp::Mul => if is_f { (" = fmul double ", LlvmTy::Double) } else { (" = mul i64 ", LlvmTy::I64) },
        BinOp::Div => if is_f { (" = fdiv double ", LlvmTy::Double) } else { (" = sdiv i64 ", LlvmTy::I64) },
        BinOp::Mod => (" = srem i64 ", LlvmTy::I64),
        BinOp::Eq => if is_f { (" = fcmp oeq double ", LlvmTy::I1) } else { (" = icmp eq i64 ", LlvmTy::I1) },
        BinOp::NotEq => if is_f { (" = fcmp one double ", LlvmTy::I1) } else { (" = icmp ne i64 ", LlvmTy::I1) },
        BinOp::Lt => if is_f { (" = fcmp olt double ", LlvmTy::I1) } else { (" = icmp slt i64 ", LlvmTy::I1) },
        BinOp::LtEq => if is_f { (" = fcmp ole double ", LlvmTy::I1) } else { (" = icmp sle i64 ", LlvmTy::I1) },
        BinOp::Gt => if is_f { (" = fcmp ogt double ", LlvmTy::I1) } else { (" = icmp sgt i64 ", LlvmTy::I1) },
        BinOp::GtEq => if is_f { (" = fcmp oge double ", LlvmTy::I1) } else { (" = icmp sge i64 ", LlvmTy::I1) },
        BinOp::And => (" = and i1 ", LlvmTy::I1),
        BinOp::Or => (" = or i1 ", LlvmTy::I1),
    };
    push_str(&mut s, mid);
    push_str(&mut s, l.reg.as_str());
    push_str(&mut s, ", ");
    push_str(&mut s, r.reg.as_str());
    (s, ty)
}

impl IrGen {
    /// The IR of an expression, and the value it stands for.
    #[verifier::spinoff_prover]
    #[verifier::rlimit(50)]
    pub(crate) fn emit_expr(&mut self, e: &Expr) -> (r: Val)
        ensures
            (final(self)@, r@) == g_expr(old(self)@, expr_view(*e)),
        decreases e, 2int,
    {
        proof {
            reveal_with_fuel(g_expr, 1);
        }
        match e {
            Expr::Int(n) => Val::i64(*n),
            Expr::Float(t) => Val { reg: float_exp_string(t.as_str()), ty: LlvmTy::Double },
            Expr::Bool(b) => Val { reg: String::from_str(if *b { "true" } else { "false" }), ty: LlvmTy::I1 },
            Expr::Str(t) => self.emit_str(t),
            Expr::Null => Val::null(),
            Expr::NoneVal => Val::null(),
            Expr::Ident(name) => {
                match self.var_slot(name) {
                    Some((ptr, ty)) => {
                        let r = self.tmp();
                        let mut line = r.clone();
                        push_str(&mut line, " = load ");
                        push_str(&mut line, ty.ir());
                        push_str(&mut line, ", ");
                        push_str(&mut line, ty.ir());
                        push_str(&mut line, "* ");
                        push_str(&mut line, ptr.as_str());
                        self.i(&line);
                        Val { reg: r, ty }
                    },
                    None => {
                        let mut g = String::from_str("@");
                        push_str(&mut g, name.as_str());
                        Val { reg: g, ty: LlvmTy::Ptr }
                    },
                }
            },
            Expr::BinOp { op, lhs, rhs } => {
                let l = self.emit_expr(lhs);
                let r = self.emit_expr(rhs);
                let reg = self.tmp();
                let (line, ty) = binop_line(op, &l, &r, &reg);
                self.i(&line);
                Val { reg, ty }
            },
            Expr::UnOp { op, expr } => {
                let v = self.emit_expr(expr);
                let r = self.tmp();
                let mut line = r.clone();
                match op {
                    UnOp::Neg => {
                        if v.ty == LlvmTy::Double {
                            push_str(&mut line, " = fneg double ");
                        } else {
                            push_str(&mut line, " = sub i64 0, ");
                        }
                        push_str(&mut line, v.reg.as_str());
                        self.i(&line);
                        Val { reg: r, ty: v.ty }
                    },
                    UnOp::Not => {
                        push_str(&mut line, " = xor i1 ");
                        push_str(&mut line, v.reg.as_str());
                        push_str(&mut line, ", true");
                        self.i(&line);
                        Val { reg: r, ty: LlvmTy::I1 }
                    },
                }
            },
            Expr::Call { .. } => self.emit_call(e),
            Expr::If { .. } => self.emit_if(e),
            Expr::Block(stmts) => {
                self.emit_body(stmts, true);
                Val::void()
            },
            Expr::Field { expr, .. } => {
                self.emit_expr(expr);
                Val::null()
            },
            Expr::Index { expr, idx } => {
                self.emit_expr(expr);
                self.emit_expr(idx);
                Val::null()
            },
            Expr::StructLit { fields, .. } => {
                self.emit_field_values(fields);
                Val::null()
            },
            Expr::Match { .. } => self.emit_match(e),
            Expr::Try(inner) => self.emit_expr(inner),
            Expr::Catch { .. } => self.emit_catch(e),
            Expr::TryBlock(stmts) => {
                self.emit_body(stmts, false);
                Val::void()
            },
            Expr::Lambda { .. } => Val::null(),
            Expr::SomeVal(inner) => self.emit_expr(inner),
            Expr::OkVal(inner) => self.emit_expr(inner),
            Expr::ErrVal(inner) => {
                self.emit_expr(inner);
                Val::null()
            },
            Expr::Range { start, end, .. } => {
                self.emit_expr(start);
                self.emit_expr(end);
                Val::void()
            },
        }
    }

    /// The values of struct literal fields, each computed and dropped.
    pub(crate) fn emit_field_values(&mut self, fields: &Vec<(String, Expr)>)
        ensures
            final(self)@ == g_field_values(old(self)@, fields_view(fields@), 0),
        decreases fields, 3int,
    {
        proof {
            reveal_with_fuel(g_field_values, 1);
        }
        let ghost fv = fields_view(fields@);
        proof {
            lemma_fields_view_index(fields@);
        }
        let ghost s0 = self@;
        let mut i: usize = 0;
        while i < fields.len()
            invariant
                i <= fields@.len(),
                fv == fields_view(fields@),
                fv.len() == fields@.len(),
                forall|j: int| 0 <= j < fields@.len() ==> #[trigger] fv[j] == (fields@[j].0@, expr_view(fields@[j].1)),
                s0 == old(self)@,
                g_field_values(s0, fv, 0) == g_field_values(self@, fv, i as int),
            decreases fields.len() - i,
        {
            proof {
                reveal_with_fuel(g_field_values, 1);
                reveal_with_fuel(g_expr, 1);
            }
            proof {
                assert(decreases_to!(*fields => fields[i as int]));
            }
            self.emit_expr(&fields[i].1);
            i += 1;
        }
    }

    /// The values of call arguments, in order.
    pub(crate) fn emit_args(&mut self, args: &Vec<Expr>) -> (r: Vec<Val>)
        ensures
            (final(self)@, vals_view(r@)) == g_args(old(self)@, exprs_view(args@), 0, Seq::empty()),
        decreases args, 3int,
    {
        proof {
            reveal_with_fuel(g_args, 1);
        }
        let ghost av = exprs_view(args@);
        proof {
            lemma_exprs_view_index(args@);
        }
        let ghost s0 = self@;
        let mut out: Vec<Val> = Vec::new();
        assert(vals_view(out@) =~= Seq::<ValV>::empty());
        let mut i: usize = 0;
        while i < args.len()
            invariant
                i <= args@.len(),
                av == exprs_view(args@),
                av.len() == args@.len(),
                forall|j: int| 0 <= j < args@.len() ==> #[trigger] av[j] == expr_view(args@[j]),
                s0 == old(self)@,
                g_args(s0, av, 0, Seq::empty()) == g_args(self@, av, i as int, vals_view(out@)),
            decreases args.len() - i,
        {
            proof {
                reveal_with_fuel(g_args, 1);
                reveal_with_fuel(g_expr, 1);
            }
            proof {
                assert(decreases_to!(*args => args[i as int]));
            }
            let v = self.emit_expr(&args[i]);
            let ghost prev = out@;
            out.push(v);
            assert(vals_view(out@) =~= vals_view(prev).push(v@));
            i += 1;
        }
        out
    }

    /// A call of a runtime function.
    fn emit_runtime_call(&mut self, f: &str, args: &Vec<Val>, ret: LlvmTy) -> (r: Val)
        ensures
            (final(self)@, r@) == g_runtime_call(old(self)@, f@, vals_view(args@), ret),
    {
        proof {
            reveal(g_runtime_call);
        }
        let text = arg_text(args);
        if ret == LlvmTy::Void {
            let mut line = String::from_str("call void @");
            push_str(&mut line, f);
            push_str(&mut line, "(");
            push_str(&mut line, text.as_str());
            push_str(&mut line, ")");
            self.i(&line);
            Val::void()
        } else {
            let r = self.tmp();
            let mut line = r.clone();
            push_str(&mut line, " = call ");
            push_str(&mut line, ret.ir());
            push_str(&mut line, " @");
            push_str(&mut line, f);
            push_str(&mut line, "(");
            push_str(&mut line, text.as_str());
            push_str(&mut line, ")");
            self.i(&line);
            Val { reg: r, ty: ret }
        }
    }

    /// A call of a function by name.
    fn emit_named_call(&mut self, name: &String, args: &Vec<Val>) -> (r: Val)
        ensures
            (final(self)@, r@) == g_named_call(old(self)@, name@, vals_view(args@)),
    {
        proof {
            reveal(g_named_call);
        }
        if crate::parser::text_is(name, "print") {
            self.emit_runtime_call("sk_print", args, LlvmTy::Void)
        } else if crate::parser::text_is(name, "println") {
            self.emit_runtime_call("sk_println", args, LlvmTy::Void)
        } else {
            let text = arg_text(args);
            let r = self.tmp();
            let mut line = r.clone();
            push_str(&mut line, " = call i64 @");
            push_str(&mut line, name.as_str());
            push_str(&mut line, "(");
            push_str(&mut line, text.as_str());
            push_str(&mut line, ")");
            self.i(&line);
            Val { reg: r, ty: LlvmTy::I64 }
        }
    }

    /// A call: the arguments first, then the call by name or to a standard library method.
    #[verifier::spinoff_prover]
    pub(crate) fn emit_call(&mut self, e: &Expr) -> (r: Val)
        ensures
            (final(self)@, r@) == g_call(old(self)@, expr_view(*e)),
        decreases e, 1int,
    {
        proof {
            reveal_with_fuel(g_call, 1);
        }
        match e {
            Expr::Call { func, args } => {
                let vals = self.emit_args(args);
                match &**func {
                    Expr::Ident(name) => {
                        assert(expr_view(**func) == ExprV::Ident(name@));
                        self.emit_named_call(name, &vals)
                    },
                    Expr::Field { expr, name: method } => {
                        assert(expr_view(**func) == ExprV::Field { expr: Box::new(expr_view(**expr)), name: method@ });
                        let target = match &**expr {
                            Expr::Ident(module) => {
                                assert(expr_view(**expr) == ExprV::Ident(module@));
                                resolve_method(module, method)
                            },
                            _ => None,
                        };
                        match target {
                            Some((f, ret)) => self.emit_runtime_call(f, &vals, ret),
                            None => {
                                self.emit_expr(expr);
                                Val::void()
                            },
                        }
                    },
                    _ => Val::void(),
                }
            },
            _ => Val::void(),
        }
    }

    /// An `if` expression.
    #[verifier::spinoff_prover]
    #[verifier::rlimit(50)]
    pub(crate) fn emit_if(&mut self, e: &Expr) -> (r: Val)
        ensures
            (final(self)@, r@) == g_if(old(self)@, expr_view(*e)),
        decreases e, 1int,
    {
        proof {
            reveal_with_fuel(g_if, 1);
        }
        match e {
            Expr::If { cond, then: then_e, elifs, else_ } => {
                let cv = self.emit_expr(cond);
                let lthen = self.label("if_then");
                let lend = self.label("if_end");
                let has_else = match else_ {
                    Some(_) => true,
                    None => false,
                };
                proof {
                    lemma_elifs_view_index(elifs@);
                }
                let lnext = if elifs.len() == 0 && !has_else {
                    lend.clone()
                } else {
                    self.label("if_else")
                };
                let line = branch_if(&cv.reg, &lthen, &lnext);
                self.i(&line);
                self.block(&lthen);
                self.emit_expr(then_e);
                if !self.is_terminated() {
                    let j = branch(&lend);
                    self.i(&j);
                }
                if elifs.len() > 0 || has_else {
                    let cur_else = self.emit_elifs(elifs, lnext, &lend, has_else);
                    match else_ {
                        Some(eb) => {
                            self.block(&cur_else);
                            self.emit_expr(eb);
                            if !self.is_terminated() {
                                let j = branch(&lend);
                                self.i(&j);
                            }
                        },
                        None => {},
                    }
                }
                self.block(&lend);
                Val::void()
            },
            _ => Val::void(),
        }
    }

    /// The `elif` parts; `cur_else` is the block of the first test. Gives the block that
    /// follows the last part.
    #[verifier::spinoff_prover]
    pub(crate) fn emit_elifs(&mut self, elifs: &Vec<(Expr, Expr)>, cur_else: String, lend: &String, has_else: bool) -> (r: String)
        ensures
            (final(self)@, r@) == g_elifs(old(self)@, elifs_view(elifs@), 0, cur_else@, lend@, has_else),
        decreases elifs, 3int,
    {
        proof {
            reveal_with_fuel(g_elifs, 1);
        }
        let ghost ev = elifs_view(elifs@);
        proof {
            lemma_elifs_view_index(elifs@);
        }
        let ghost s0 = self@;
        let ghost c0 = cur_else@;
        let mut cur = cur_else;
        let mut i: usize = 0;
        while i < elifs.len()
            invariant
                i <= elifs@.len(),
                ev == elifs_view(elifs@),
                ev.len() == elifs@.len(),
                forall|j: int| 0 <= j < elifs@.len() ==> #[trigger] ev[j] == (expr_view(elifs@[j].0), expr_view(elifs@[j].1)),
                s0 == old(self)@,
                c0 == cur_else@,
                g_elifs(s0, ev, 0, c0, lend@, has_else) == g_elifs(self@, ev, i as int, cur@, lend@, has_else),
            decreases elifs.len() - i,
        {
            proof {
                reveal_with_fuel(g_elifs, 1);
            }
            proof {
                assert(decreases_to!(*elifs => elifs[i as int]));
            }
            self.block(&cur);
            let ecv = self.emit_expr(&elifs[i].0);
            let ethen = self.label("elif_then");
            let enext = if i + 1 < elifs.len() || has_else {
                self.label("elif_else")
            } else {
                lend.clone()
            };
            let line = branch_if(&ecv.reg, &ethen, &enext);
            self.i(&line);
            self.block(&ethen);
            self.emit_expr(&elifs[i].1);
            if !self.is_terminated() {
                let j = branch(lend);
                self.i(&j);
            }
            cur = enext;
            i += 1;
        }
        cur
    }

    /// A `match` expression.
    #[verifier::spinoff_prover]
    pub(crate) fn emit_match(&mut self, e: &Expr) -> (r: Val)
        ensures
            (final(self)@, r@) == g_match(old(self)@, expr_view(*e)),
        decreases e, 1int,
    {
        proof {
            reveal_with_fuel(g_match, 1);
        }
        match e {
            Expr::Match { expr, arms } => {
                let v = self.emit_expr(expr);
                let lend = self.label("match_end");
                self.emit_arms(arms, &v, &lend);
                let j = branch(&lend);
                self.i(&j);
                self.block(&lend);
                Val::void()
            },
            _ => Val::void(),
        }
    }

    /// The test of one arm's pattern against `v`.
    fn emit_arm_test(&mut self, p: &Pattern, v: &Val, lbody: &String, lnext: &String)
        ensures
            final(self)@ == g_arm_test(old(self)@, pattern_view(*p), v@, lbody@, lnext@),
    {
        proof {
            reveal(g_arm_test);
        }
        match p {
            Pattern::Int(n) => {
                let c = self.tmp();
                let cv = self.coerce(v.copy(), LlvmTy::I64);
                let mut line = c.clone();
                push_str(&mut line, " = icmp eq i64 ");
                push_str(&mut line, cv.as_str());
                push_str(&mut line, ", ");
                let d = i64_to_decimal(*n);
                push_str(&mut line, d.as_str());
                self.i(&line);
                let b = branch_if(&c, lbody, lnext);
                self.i(&b);
            },
            Pattern::Bool(bv) => {
                let c = self.tmp();
                let cv = self.coerce(v.copy(), LlvmTy::I1);
                let mut line = c.clone();
                push_str(&mut line, " = icmp eq i1 ");
                push_str(&mut line, cv.as_str());
                push_str(&mut line, ", ");
                push_str(&mut line, if *bv { "true" } else { "false" });
                self.i(&line);
                let b = branch_if(&c, lbody, lnext);
                self.i(&b);
            },
            _ => {
                let b = branch(lbody);
                self.i(&b);
            },
        }
    }

    /// The arms of a `match`, in order.
    #[verifier::spinoff_prover]
    pub(crate) fn emit_arms(&mut self, arms: &Vec<MatchArm>, v: &Val, lend: &String)
        ensures
            final(self)@ == g_arms(old(self)@, arms_view(arms@), 0, v@, lend@),
        decreases arms, 3int,
    {
        proof {
            reveal_with_fuel(g_arms, 1);
        }
        let ghost av = arms_view(arms@);
        proof {
            lemma_arms_view_index(arms@);
        }
        let ghost s0 = self@;
        let mut i: usize = 0;
        while i < arms.len()
            invariant
                i <= arms@.len(),
                av == arms_view(arms@),
                av.len() == arms@.len(),
                forall|j: int| 0 <= j < arms@.len() ==> #[trigger] av[j] == (ArmV { pattern: pattern_view(arms@[j].pattern), body: expr_view(arms@[j].body) }),
                s0 == old(self)@,
                g_arms(s0, av, 0, v@, lend@) == g_arms(self@, av, i as int, v@, lend@),
            decreases arms.len() - i,
        {
            proof {
                reveal_with_fuel(g_arms, 1);
            }
            proof {
                assert(decreases_to!(*arms => arms[i as int]));
            }
            let lbody = self.label("match_arm");
            let lnext = self.label("match_next");
            self.emit_arm_test(&arms[i].pattern, v, &lbody, &lnext);
            self.block(&lbody);
            self.emit_expr(&arms[i].body);
            let j = branch(lend);
            self.i(&j);
            self.block(&lnext);
            i += 1;
        }
    }

    /// A `catch` expression.
    #[verifier::spinoff_prover]
    pub(crate) fn emit_catch(&mut self, e: &Expr) -> (r: Val)
        ensures
            (final(self)@, r@) == g_catch(old(self)@, expr_view(*e)),
        decreases e, 1int,
    {
        proof {
            reveal_with_fuel(g_catch, 1);
        }
        match e {
            Expr::Catch { expr, handler } => {
                let v = self.emit_expr(expr);
                match handler {
                    CatchHandler::Default(d) => {
                        self.emit_expr(d);
                        v
                    },
                    CatchHandler::WithErr(_, body) => self.emit_expr(body),
                    CatchHandler::WithErrBlock(_, ss) => {
                        self.emit_body(ss, false);
                        Val::void()
                    },
                }
            },
            _ => Val::void(),
        }
    }
}


} // verus!
