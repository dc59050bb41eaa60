//! The IR of statements, functions and programs.
use vstd::prelude::*;
use crate::ast::{
    lemma_stmts_view_index, lemma_tops_view_index, expr_view, opt_type_view, params_view, stmt_view, stmts_view,
    top_view, tops_view, Expr, Param, ParamV, Stmt, TopLevel, Type,
};
use crate::irgen_spec::{
    br, br_if, g_block_stmts, g_decl, g_fn, g_for, g_loop_body, g_param_slots, g_program, g_stmt, g_stmts, g_top,
    g_tops, llvm_of, params_ir, ty_ir, GenSt, LlvmTy,
};
use crate::text::{push_decimal, push_str};
use super::exprs::{branch, branch_if};
use super::{sk_ty, IrGen, Val};

verus! {

/// The parameters other than `self` as IR: `type %name` separated by `, `.
fn params_text(params: &Vec<Param>) -> (r: String)
    ensures
        r@ == params_ir(params_view(params@)),
{
    let ghost pv = params_view(params@);
    let mut out = String::new();
    let mut any = false;
    let mut k: usize = 0;
    assert(pv.take(0) =~= Seq::<ParamV>::empty());
    while k < params.len()
        invariant
            k <= params@.len(),
            pv == params_view(params@),
            out@ == params_ir(pv.take(k as int)),
            any == (out@.len() > 0),
        decreases params.len() - k,
    {
        assert(pv.take(k + 1).drop_last() =~= pv.take(k as int));
        if !params[k].is_self {
            if any {
                push_str(&mut out, ", ");
            }
            any = true;
            proof {
                reveal_strlit(" %");
            }
            let t = sk_ty(&params[k].ty);
            push_str(&mut out, t.ir());
            push_str(&mut out, " %");
            push_str(&mut out, params[k].name.as_str());
        }
        assert(out@ =~= params_ir(pv.take(k + 1)));
        k += 1;
    }
    assert(pv.take(k as int) =~= pv);
    out
}

impl IrGen {
    /// Statements in order; with `stop`, up to the first that ends its block.
    #[verifier::spinoff_prover]
    pub(crate) fn emit_body(&mut self, body: &Vec<Stmt>, stop: bool)
        ensures
            final(self)@ == if stop {
                g_block_stmts(old(self)@, stmts_view(body@), 0)
            } else {
                g_stmts(old(self)@, stmts_view(body@), 0)
            },
        decreases body, 5int,
    {
        proof {
            reveal_with_fuel(g_block_stmts, 1);
            reveal_with_fuel(g_stmts, 1);
        }
        let ghost sv = stmts_view(body@);
        proof {
            lemma_stmts_view_index(body@);
        }
        let ghost s0 = self@;
        let mut i: usize = 0;
        while i < body.len()
            invariant
                i <= body@.len(),
                sv == stmts_view(body@),
                sv.len() == body@.len(),
                forall|j: int| 0 <= j < body@.len() ==> #[trigger] sv[j] == stmt_view(body@[j]),
                s0 == old(self)@,
                stop ==> g_block_stmts(s0, sv, 0) == g_block_stmts(self@, sv, i as int),
                !stop ==> g_stmts(s0, sv, 0) == g_stmts(self@, sv, i as int),
            decreases body.len() - i,
        {
            proof {
                reveal_with_fuel(g_block_stmts, 1);
                reveal_with_fuel(g_stmts, 1);
            }
            proof {
                assert(decreases_to!(*body => body[i as int]));
            }
            self.emit_stmt(&body[i]);
            if stop && self.is_terminated() {
                return;
            }
            i += 1;
        }
    }

    /// A loop body between its labels: `cont` is where `continue` goes, `brk` where `break` goes.
    #[verifier::spinoff_prover]
    pub(crate) fn emit_loop_body(&mut self, body: &Vec<Stmt>, cont: &String, brk: &String)
        ensures
            final(self)@ == g_loop_body(old(self)@, stmts_view(body@), cont@, brk@),
        decreases body, 6int,
    {
        proof {
            reveal_with_fuel(g_loop_body, 1);
        }
        self.push_loop(cont.clone(), brk.clone());
        self.emit_body(body, false);
        self.pop_loop();
    }

    /// A `let` or `mut` declaration: a stack slot holding the value.
    #[verifier::spinoff_prover]
    pub(crate) fn emit_decl(&mut self, name: &String, value: &Expr)
        ensures
            final(self)@ == g_decl(old(self)@, name@, expr_view(*value)),
        decreases value, 3int,
    {
        proof {
            reveal_with_fuel(g_decl, 1);
        }
        let v = self.emit_expr(value);
        let mut ptr = String::from_str("%");
        push_str(&mut ptr, name.as_str());
        push_str(&mut ptr, ".p");
        let mut a = ptr.clone();
        push_str(&mut a, " = alloca ");
        push_str(&mut a, v.ty.ir());
        self.i(&a);
        let mut s = String::from_str("store ");
        push_str(&mut s, v.ty.ir());
        push_str(&mut s, " ");
        push_str(&mut s, v.reg.as_str());
        push_str(&mut s, ", ");
        push_str(&mut s, v.ty.ir());
        push_str(&mut s, "* ");
        push_str(&mut s, ptr.as_str());
        self.i(&s);
        self.set_var(name.clone(), ptr, v.ty);
    }

    /// A statement.
    #[verifier::spinoff_prover]
    #[verifier::rlimit(50)]
    pub(crate) fn emit_stmt(&mut self, st: &Stmt)
        ensures
            final(self)@ == g_stmt(old(self)@, stmt_view(*st)),
        decreases st, 4int,
    {
        proof {
            reveal_with_fuel(g_stmt, 1);
        }
        match st {
            Stmt::Let { name, value, .. } => self.emit_decl(name, value),
            Stmt::Mut { name, value, .. } => self.emit_decl(name, value),
            Stmt::Assign { .. } => self.emit_assign(st),
            Stmt::Return(_) => self.emit_return(st),
            Stmt::Expr(e) => {
                self.emit_expr(e);
            },
            Stmt::For { .. } => self.emit_for(st),
            Stmt::While { .. } => self.emit_while(st),
            Stmt::Loop(_) => self.emit_loop(st),
            Stmt::Break => {
                match self.loop_top() {
                    Some((_, lend)) => {
                        let j = branch(&lend);
                        self.i(&j);
                        let dead = self.label("dead");
                        self.block(&dead);
                    },
                    None => {},
                }
            },
            Stmt::Continue => {
                match self.loop_top() {
                    Some((lcheck, _)) => {
                        let j = branch(&lcheck);
                        self.i(&j);
                        let dead = self.label("dead");
                        self.block(&dead);
                    },
                    None => {},
                }
            },
        }
    }

    /// An assignment: stored into the variable's slot, converted to its type.
    #[verifier::spinoff_prover]
    fn emit_assign(&mut self, st: &Stmt)
        requires
            *st is Assign,
        ensures
            final(self)@ == g_stmt(old(self)@, stmt_view(*st)),
        decreases st, 3int,
    {
        proof {
            reveal_with_fuel(g_stmt, 1);
        }
        match st {
            Stmt::Assign { target, value } => {
                let v = self.emit_expr(value);
                match target {
                    Expr::Ident(name) => {
                        assert(expr_view(*target) == crate::ast::ExprV::Ident(name@));
                        match self.var_slot(name) {
                            Some((ptr, ty)) => {
                                let cv = self.coerce(v, ty);
                                let mut s = String::from_str("store ");
                                push_str(&mut s, ty.ir());
                                push_str(&mut s, " ");
                                push_str(&mut s, cv.as_str());
                                push_str(&mut s, ", ");
                                push_str(&mut s, ty.ir());
                                push_str(&mut s, "* ");
                                push_str(&mut s, ptr.as_str());
                                self.i(&s);
                            },
                            None => {},
                        }
                    },
                    _ => {},
                }
            },
            _ => {},
        }
    }

    /// A `return`, converted to the function's result type.
    #[verifier::spinoff_prover]
    fn emit_return(&mut self, st: &Stmt)
        requires
            *st is Return,
        ensures
            final(self)@ == g_stmt(old(self)@, stmt_view(*st)),
        decreases st, 3int,
    {
        proof {
            reveal_with_fuel(g_stmt, 1);
        }
        match st {
            Stmt::Return(x) => {
                let ret_ty = self.ret_type();
                match x {
                    Some(e) => {
                        let v = self.emit_expr(e);
                        let cv = self.coerce(v, ret_ty);
                        let mut s = String::from_str("ret ");
                        push_str(&mut s, ret_ty.ir());
                        push_str(&mut s, " ");
                        push_str(&mut s, cv.as_str());
                        self.i(&s);
                    },
                    None => self.i_str("ret void"),
                }
            },
            _ => {},
        }
    }

    /// A `while` loop: the test block, the body, and the end block.
    #[verifier::spinoff_prover]
    fn emit_while(&mut self, st: &Stmt)
        requires
            *st is While,
        ensures
            final(self)@ == g_stmt(old(self)@, stmt_view(*st)),
        decreases st, 3int,
    {
        proof {
            reveal_with_fuel(g_stmt, 1);
        }
        match st {
            Stmt::While { cond, body } => {
                let lcheck = self.label("wh_chk");
                let lbody = self.label("wh_body");
                let lend = self.label("wh_end");
                let j = branch(&lcheck);
                self.i(&j);
                self.block(&lcheck);
                let cv = self.emit_expr(cond);
                let b = branch_if(&cv.reg, &lbody, &lend);
                self.i(&b);
                self.block(&lbody);
                self.emit_loop_body(body, &lcheck, &lend);
                let j2 = branch(&lcheck);
                self.i(&j2);
                self.block(&lend);
            },
            _ => {},
        }
    }

    /// A `loop`: the body block, jumped back to at its end, and the end block.
    #[verifier::spinoff_prover]
    fn emit_loop(&mut self, st: &Stmt)
        requires
            *st is Loop,
        ensures
            final(self)@ == g_stmt(old(self)@, stmt_view(*st)),
        decreases st, 3int,
    {
        proof {
            reveal_with_fuel(g_stmt, 1);
        }
        match st {
            Stmt::Loop(body) => {
                let lstart = self.label("loop");
                let lend = self.label("loop_end");
                let j = branch(&lstart);
                self.i(&j);
                self.block(&lstart);
                self.emit_loop_body(body, &lstart, &lend);
                let j2 = branch(&lstart);
                self.i(&j2);
                self.block(&lend);
            },
            _ => {},
        }
    }

    /// A `for` statement.
    #[verifier::spinoff_prover]
    #[verifier::rlimit(50)]
    pub(crate) fn emit_for(&mut self, st: &Stmt)
        ensures
            final(self)@ == g_for(old(self)@, stmt_view(*st)),
        decreases st, 3int,
    {
        proof {
            reveal_with_fuel(g_for, 1);
        }
        match st {
            Stmt::For { var, iter, body } => {
                match iter {
                    Expr::Range { start, end, inclusive } => {
                        assert(expr_view(*iter) == crate::ast::ExprV::Range {
                            start: Box::new(expr_view(**start)),
                            end: Box::new(expr_view(**end)),
                            inclusive: *inclusive,
                        });
                        let sv = self.emit_expr(start);
                        let ev = self.emit_expr(end);
                        let mut ptr = String::from_str("%");
                        push_str(&mut ptr, var.as_str());
                        push_str(&mut ptr, ".p");
                        let mut a = ptr.clone();
                        push_str(&mut a, " = alloca i64");
                        self.i(&a);
                        let sv_c = self.coerce(sv, LlvmTy::I64);
                        let mut s = String::from_str("store i64 ");
                        push_str(&mut s, sv_c.as_str());
                        push_str(&mut s, ", i64* ");
                        push_str(&mut s, ptr.as_str());
                        self.i(&s);
                        self.set_var(var.clone(), ptr.clone(), LlvmTy::I64);
                        let lcheck = self.label("for_chk");
                        let lbody = self.label("for_body");
                        let lend = self.label("for_end");
                        let ev_c = self.coerce(ev, LlvmTy::I64);
                        let mut ev_ptr = String::from_str("%for_ev_");
                        push_decimal(&mut ev_ptr, self.label_count() as u64);
                        let mut a2 = ev_ptr.clone();
                        push_str(&mut a2, " = alloca i64");
                        self.i(&a2);
                        let mut s2 = String::from_str("store i64 ");
                        push_str(&mut s2, ev_c.as_str());
                        push_str(&mut s2, ", i64* ");
                        push_str(&mut s2, ev_ptr.as_str());
                        self.i(&s2);
                        let j = branch(&lcheck);
                        self.i(&j);
                        self.block(&lcheck);
                        let cur = self.tmp();
                        let mut l1 = cur.clone();
                        push_str(&mut l1, " = load i64, i64* ");
                        push_str(&mut l1, ptr.as_str());
                        self.i(&l1);
                        let ev_cur = self.tmp();
                        let mut l2 = ev_cur.clone();
                        push_str(&mut l2, " = load i64, i64* ");
                        push_str(&mut l2, ev_ptr.as_str());
                        self.i(&l2);
                        let cond = self.tmp();
                        let mut l3 = cond.clone();
                        push_str(&mut l3, " = ");
                        push_str(&mut l3, if *inclusive { "icmp sle" } else { "icmp slt" });
                        push_str(&mut l3, " i64 ");
                        push_str(&mut l3, cur.as_str());
                        push_str(&mut l3, ", ");
                        push_str(&mut l3, ev_cur.as_str());
                        self.i(&l3);
                        let b = branch_if(&cond, &lbody, &lend);
                        self.i(&b);
                        self.block(&lbody);
                        self.emit_loop_body(body, &lcheck, &lend);
                        let c2 = self.tmp();
                        let inc = self.tmp();
                        let mut l4 = c2.clone();
                        push_str(&mut l4, " = load i64, i64* ");
                        push_str(&mut l4, ptr.as_str());
                        self.i(&l4);
                        let mut l5 = inc.clone();
                        push_str(&mut l5, " = add i64 ");
                        push_str(&mut l5, c2.as_str());
                        push_str(&mut l5, ", 1");
                        self.i(&l5);
                        let mut l6 = String::from_str("store i64 ");
                        push_str(&mut l6, inc.as_str());
                        push_str(&mut l6, ", i64* ");
                        push_str(&mut l6, ptr.as_str());
                        self.i(&l6);
                        let j2 = branch(&lcheck);
                        self.i(&j2);
                        self.block(&lend);
                    },
                    _ => self.emit_body(body, false),
                }
            },
            _ => {},
        }
    }

    /// A function definition; `main` is named `sk_user_main`.
    #[verifier::spinoff_prover]
    pub(crate) fn emit_fn(&mut self, name: &String, params: &Vec<Param>, ret: &Option<Type>, body: &Vec<Stmt>)
        ensures
            final(self)@ == g_fn(old(self)@, name@, params_view(params@), opt_type_view(*ret), stmts_view(body@)),
    {
        proof {
            reveal(g_fn);
            reveal_with_fuel(g_param_slots, 1);
        }
        let ll_name: &str = if crate::parser::text_is(name, "main") {
            "sk_user_main"
        } else {
            name.as_str()
        };
        let ret_ty = match ret {
            Some(t) => sk_ty(t),
            None => LlvmTy::Void,
        };
        let mut header = String::from_str("define ");
        push_str(&mut header, ret_ty.ir());
        push_str(&mut header, " @");
        push_str(&mut header, ll_name);
        push_str(&mut header, "(");
        let pt = params_text(params);
        push_str(&mut header, pt.as_str());
        push_str(&mut header, ") {\nentry:\n");
        let ghost hv = header@;
        let ghost pv = params_view(params@);
        assert(hv == "define "@ + ty_ir(ret_ty) + " @"@ + (if name@ == "main"@ { "sk_user_main"@ } else { name@ }) + "("@
            + params_ir(pv) + ") {\nentry:\n"@);
        self.begin_fn(header, ret_ty);
        let ghost s1 = self@;
        let mut k: usize = 0;
        while k < params.len()
            invariant
                k <= params@.len(),
                pv == params_view(params@),
                s1 == (GenSt { vars: Seq::empty(), fn_buf: hv, tmp: 0, ret_ty, ..old(self)@ }),
                hv == "define "@ + ty_ir(ret_ty) + " @"@ + (if name@ == "main"@ { "sk_user_main"@ } else { name@ }) + "("@
                    + params_ir(pv) + ") {\nentry:\n"@,
                ret_ty == match opt_type_view(*ret) {
                    Some(t) => llvm_of(t),
                    None => LlvmTy::Void,
                },
                g_param_slots(s1, pv, 0) == g_param_slots(self@, pv, k as int),
            decreases params.len() - k,
        {
            proof {
                reveal_with_fuel(g_param_slots, 1);
            }
            if !params[k].is_self {
                let ty = sk_ty(&params[k].ty);
                let mut ptr = String::from_str("%");
                push_str(&mut ptr, params[k].name.as_str());
                push_str(&mut ptr, ".p");
                let mut a = ptr.clone();
                push_str(&mut a, " = alloca ");
                push_str(&mut a, ty.ir());
                self.i(&a);
                let mut s = String::from_str("store ");
                push_str(&mut s, ty.ir());
                push_str(&mut s, " %");
                push_str(&mut s, params[k].name.as_str());
                push_str(&mut s, ", ");
                push_str(&mut s, ty.ir());
                push_str(&mut s, "* ");
                push_str(&mut s, ptr.as_str());
                self.i(&s);
                self.set_var(params[k].name.clone(), ptr, ty);
            }
            k += 1;
        }
        self.open_block();
        self.emit_body(body, false);
        if !self.is_terminated() {
            if ret_ty == LlvmTy::Void {
                self.i_str("ret void");
            } else {
                let mut s = String::from_str("ret ");
                push_str(&mut s, ret_ty.ir());
                push_str(&mut s, " ");
                push_str(&mut s, ret_ty.zero());
                self.i(&s);
            }
        }
        self.end_fn();
    }

    /// An item: a function, or the methods of an impl.
    pub(crate) fn emit_top(&mut self, item: &TopLevel)
        ensures
            final(self)@ == g_top(old(self)@, top_view(*item)),
        decreases item, 1int,
    {
        proof {
            reveal_with_fuel(g_top, 1);
            reveal_with_fuel(g_tops, 1);
        }
        match item {
            TopLevel::Fn { name, params, ret, body } => self.emit_fn(name, params, ret, body),
            TopLevel::Impl { methods, .. } => self.emit_tops(methods),
            _ => {},
        }
    }

    /// Items in order.
    pub(crate) fn emit_tops(&mut self, items: &Vec<TopLevel>)
        ensures
            final(self)@ == g_tops(old(self)@, tops_view(items@), 0),
        decreases items, 2int,
    {
        proof {
            reveal_with_fuel(g_tops, 1);
        }
        let ghost iv = tops_view(items@);
        proof {
            lemma_tops_view_index(items@);
        }
        let ghost s0 = self@;
        let mut i: usize = 0;
        while i < items.len()
            invariant
                i <= items@.len(),
                iv == tops_view(items@),
                iv.len() == items@.len(),
                forall|j: int| 0 <= j < items@.len() ==> #[trigger] iv[j] == top_view(items@[j]),
                s0 == old(self)@,
                g_tops(s0, iv, 0) == g_tops(self@, iv, i as int),
            decreases items.len() - i,
        {
            proof {
                reveal_with_fuel(g_tops, 1);
                reveal_with_fuel(g_top, 1);
            }
            proof {
                assert(decreases_to!(*items => items[i as int]));
            }
            self.emit_top(&items[i]);
            i += 1;
        }
    }

    /// The LLVM IR module of a program: each function (and each impl method) defined in
    /// order, `main` under the name `sk_user_main`, after the string constants and the
    /// runtime declarations.
    pub fn emit_program(&mut self, ast: &[TopLevel]) -> (r: String)
        ensures
            (final(self)@, r@) == g_program(old(self)@, tops_view(ast@)),
    {
        proof {
            reveal_with_fuel(g_tops, 1);
        }
        let ghost iv = tops_view(ast@);
        proof {
            lemma_tops_view_index(ast@);
        }
        let ghost s0 = self@;
        let mut i: usize = 0;
        while i < ast.len()
            invariant
                i <= ast@.len(),
                iv == tops_view(ast@),
                iv.len() == ast@.len(),
                forall|j: int| 0 <= j < ast@.len() ==> #[trigger] iv[j] == top_view(ast@[j]),
                s0 == old(self)@,
                g_tops(s0, iv, 0) == g_tops(self@, iv, i as int),
            decreases ast.len() - i,
        {
            proof {
                reveal_with_fuel(g_tops, 1);
                reveal_with_fuel(g_top, 1);
            }
            self.emit_top(&ast[i]);
            i += 1;
        }
        self.module_text()
    }
}

} // verus!
