//! What the IR of statements keeps: within a function, code is only ever appended, so an
//! instruction once written stays in the function's text; and what a `for` over a range
//! tests before each round.
use vstd::prelude::*;
use crate::ast::{ArmV, ExprV, PatternV, StmtV};
use crate::irgen_spec::{
    g_args, g_arm_test, g_arms, g_block, g_block_stmts, g_call, g_catch, g_coerce, g_decl, g_elifs, g_expr,
    g_field_values, g_for, g_i, g_if, g_label, g_loop_body, g_match, g_named_call, g_runtime_call, g_stmt,
    g_stmts, g_str, g_tmp, GenSt, LlvmTy, ValV,
};

verus! {

/// `b` begins with `a`.
pub open spec fn grows(a: Seq<char>, b: Seq<char>) -> bool {
    a.len() <= b.len() && forall|i: int| 0 <= i < a.len() ==> #[trigger] b[i] == a[i]
}

/// `w` occurs in `s`.
pub open spec fn occurs(w: Seq<char>, s: Seq<char>) -> bool {
    exists|i: int| 0 <= i && i + w.len() <= s.len() && #[trigger] s.subrange(i, i + w.len()) == w
}

proof fn lemma_trans(a: Seq<char>, b: Seq<char>, c: Seq<char>)
    requires
        grows(a, b),
        grows(b, c),
    ensures
        grows(a, c),
{
    assert forall|i: int| 0 <= i < a.len() implies #[trigger] c[i] == a[i] by {
        assert(c[i] == b[i]);
        assert(b[i] == a[i]);
    }
}

proof fn lemma_gi(s: GenSt, ir: Seq<char>)
    ensures
        grows(s.fn_buf, g_i(s, ir).fn_buf),
        g_i(s, ir).fn_buf == s.fn_buf + "  "@ + ir + "\n"@,
{
}

proof fn lemma_gblock(s: GenSt, n: Seq<char>)
    ensures
        grows(s.fn_buf, g_block(s, n).fn_buf),
{
}

proof fn lemma_same(a: Seq<char>)
    ensures
        grows(a, a),
{
}

proof fn lemma_coerce_grows(s: GenSt, v: ValV, target: LlvmTy)
    ensures
        grows(s.fn_buf, g_coerce(s, v, target).0.fn_buf),
{
    reveal(g_coerce);
}

proof fn lemma_str_grows(s: GenSt, text: Seq<char>)
    ensures
        grows(s.fn_buf, g_str(s, text).0.fn_buf),
{
    reveal(g_str);
}

proof fn lemma_runtime_call_grows(s: GenSt, f: Seq<char>, vals: Seq<ValV>, ret: LlvmTy)
    ensures
        grows(s.fn_buf, g_runtime_call(s, f, vals, ret).0.fn_buf),
{
    reveal(g_runtime_call);
}

proof fn lemma_named_call_grows(s: GenSt, name: Seq<char>, vals: Seq<ValV>)
    ensures
        grows(s.fn_buf, g_named_call(s, name, vals).0.fn_buf),
{
    reveal(g_named_call);
    lemma_runtime_call_grows(s, "sk_print"@, vals, LlvmTy::Void);
    lemma_runtime_call_grows(s, "sk_println"@, vals, LlvmTy::Void);
}

proof fn lemma_arm_test_grows(s: GenSt, p: PatternV, v: ValV, lbody: Seq<char>, lnext: Seq<char>)
    ensures
        grows(s.fn_buf, g_arm_test(s, p, v, lbody, lnext).fn_buf),
{
    reveal(g_arm_test);
    let s1 = g_tmp(s).0;
    lemma_coerce_grows(s1, v, LlvmTy::I64);
    lemma_coerce_grows(s1, v, LlvmTy::I1);
}

/// The IR of an expression only adds to the function's text.
pub proof fn lemma_expr_grows(s: GenSt, e: ExprV)
    ensures
        grows(s.fn_buf, g_expr(s, e).0.fn_buf),
    decreases e, 2int,
{
    reveal_with_fuel(g_expr, 1);
    reveal_with_fuel(g_call, 1);
    reveal_with_fuel(g_if, 1);
    reveal_with_fuel(g_match, 1);
    reveal_with_fuel(g_catch, 1);
    reveal_with_fuel(g_block_stmts, 1);
    reveal_with_fuel(g_stmts, 1);
    reveal_with_fuel(g_field_values, 1);
    reveal_with_fuel(g_expr, 1);
    match e {
        ExprV::Str(t) => lemma_str_grows(s, t),
        ExprV::BinOp { lhs, rhs, .. } => {
            lemma_expr_grows(s, *lhs);
            lemma_expr_grows(g_expr(s, *lhs).0, *rhs);
        },
        ExprV::UnOp { expr, .. } => lemma_expr_grows(s, *expr),
        ExprV::Call { .. } => lemma_call_grows(s, e),
        ExprV::If { .. } => lemma_if_grows(s, e),
        ExprV::Block(ss) => lemma_block_stmts_grows(s, ss, 0),
        ExprV::Field { expr, .. } => lemma_expr_grows(s, *expr),
        ExprV::Index { expr, idx } => {
            lemma_expr_grows(s, *expr);
            lemma_expr_grows(g_expr(s, *expr).0, *idx);
        },
        ExprV::StructLit { fields, .. } => lemma_field_values_grows(s, fields, 0),
        ExprV::Match { .. } => lemma_match_grows(s, e),
        ExprV::Try(inner) => lemma_expr_grows(s, *inner),
        ExprV::Catch { .. } => lemma_catch_grows(s, e),
        ExprV::TryBlock(ss) => lemma_stmts_grows(s, ss, 0),
        ExprV::SomeVal(inner) => lemma_expr_grows(s, *inner),
        ExprV::OkVal(inner) => lemma_expr_grows(s, *inner),
        ExprV::ErrVal(inner) => lemma_expr_grows(s, *inner),
        ExprV::Range { start, end, .. } => {
            lemma_expr_grows(s, *start);
            lemma_expr_grows(g_expr(s, *start).0, *end);
        },
        _ => {},
    }
}

proof fn lemma_field_values_grows(s: GenSt, fields: Seq<(Seq<char>, ExprV)>, i: int)
    ensures
        grows(s.fn_buf, g_field_values(s, fields, i).fn_buf),
    decreases fields, fields.len() - i,
{
    reveal_with_fuel(g_field_values, 1);
    reveal_with_fuel(g_expr, 1);
    if 0 <= i < fields.len() {
        lemma_expr_grows(s, fields[i].1);
        lemma_field_values_grows(g_expr(s, fields[i].1).0, fields, i + 1);
    }
}

proof fn lemma_args_grows(s: GenSt, args: Seq<ExprV>, i: int, acc: Seq<ValV>)
    ensures
        grows(s.fn_buf, g_args(s, args, i, acc).0.fn_buf),
    decreases args, args.len() - i,
{
    reveal_with_fuel(g_args, 1);
    reveal_with_fuel(g_expr, 1);
    if 0 <= i < args.len() {
        let (s1, v) = g_expr(s, args[i]);
        lemma_expr_grows(s, args[i]);
        lemma_args_grows(s1, args, i + 1, acc.push(v));
    }
}

proof fn lemma_call_grows(s: GenSt, e: ExprV)
    ensures
        grows(s.fn_buf, g_call(s, e).0.fn_buf),
    decreases e, 1int,
{
    reveal_with_fuel(g_call, 1);
    reveal_with_fuel(g_args, 1);
    reveal_with_fuel(g_expr, 1);
    match e {
        ExprV::Call { func, args } => {
            lemma_args_grows(s, args, 0, Seq::empty());
            let (s1, vals) = g_args(s, args, 0, Seq::empty());
            match *func {
                ExprV::Ident(name) => lemma_named_call_grows(s1, name, vals),
                ExprV::Field { expr, name: method } => {
                    let target = match *expr {
                        ExprV::Ident(module) => crate::irgen_spec::method_target(module, method),
                        _ => None,
                    };
                    match target {
                        Some((f, ret)) => lemma_runtime_call_grows(s1, f, vals, ret),
                        None => lemma_expr_grows(s1, *expr),
                    }
                },
                _ => {},
            }
        },
        _ => {},
    }
}

#[verifier::spinoff_prover]
#[verifier::rlimit(100)]
proof fn lemma_if_grows(s: GenSt, e: ExprV)
    ensures
        grows(s.fn_buf, g_if(s, e).0.fn_buf),
    decreases e, 1int,
{
    reveal_with_fuel(g_if, 1);
    reveal_with_fuel(g_elifs, 1);
    reveal_with_fuel(g_expr, 1);
    match e {
        ExprV::If { cond, then, elifs, else_ } => {
            let (s1, cv) = g_expr(s, *cond);
            lemma_expr_grows(s, *cond);
            let (s2, lthen) = g_label(s1, "if_then"@);
            let (s3, lend) = g_label(s2, "if_end"@);
            let (s4, lnext) = if elifs.len() == 0 && else_ is None {
                (s3, lend)
            } else {
                g_label(s3, "if_else"@)
            };
            let s5 = g_block(g_i(s4, crate::irgen_spec::br_if(cv.reg, lthen, lnext)), lthen);
            lemma_expr_grows(s5, *then);
            let s6 = g_expr(s5, *then).0;
            let s7 = if !s6.terminated { g_i(s6, crate::irgen_spec::br(lend)) } else { s6 };
            if elifs.len() > 0 || else_ is Some {
                lemma_elifs_grows(s7, elifs, 0, lnext, lend, else_ is Some);
                let (s9, cur_else) = g_elifs(s7, elifs, 0, lnext, lend, else_ is Some);
                match else_ {
                    Some(eb) => lemma_expr_grows(g_block(s9, cur_else), *eb),
                    None => {},
                }
            }
        },
        _ => {},
    }
}

proof fn lemma_elifs_grows(
    s: GenSt,
    elifs: Seq<(ExprV, ExprV)>,
    i: int,
    cur_else: Seq<char>,
    lend: Seq<char>,
    has_else: bool,
)
    ensures
        grows(s.fn_buf, g_elifs(s, elifs, i, cur_else, lend, has_else).0.fn_buf),
    decreases elifs, elifs.len() - i,
{
    reveal_with_fuel(g_elifs, 1);
    reveal_with_fuel(g_expr, 1);
    if 0 <= i < elifs.len() {
        lemma_expr_grows(g_block(s, cur_else), elifs[i].0);
        let (s1, ecv) = g_expr(g_block(s, cur_else), elifs[i].0);
        let (s2, ethen) = g_label(s1, "elif_then"@);
        let (s3, enext) = if i + 1 < elifs.len() || has_else {
            g_label(s2, "elif_else"@)
        } else {
            (s2, lend)
        };
        let s35 = g_block(g_i(s3, crate::irgen_spec::br_if(ecv.reg, ethen, enext)), ethen);
        lemma_expr_grows(s35, elifs[i].1);
        let s4 = g_expr(s35, elifs[i].1).0;
        let s5 = if !s4.terminated { g_i(s4, crate::irgen_spec::br(lend)) } else { s4 };
        lemma_elifs_grows(s5, elifs, i + 1, enext, lend, has_else);
    }
}

proof fn lemma_match_grows(s: GenSt, e: ExprV)
    ensures
        grows(s.fn_buf, g_match(s, e).0.fn_buf),
    decreases e, 1int,
{
    reveal_with_fuel(g_match, 1);
    reveal_with_fuel(g_arms, 1);
    reveal_with_fuel(g_expr, 1);
    match e {
        ExprV::Match { expr, arms } => {
            lemma_expr_grows(s, *expr);
            let (s1, v) = g_expr(s, *expr);
            let (s2, lend) = g_label(s1, "match_end"@);
            lemma_arms_grows(s2, arms, 0, v, lend);
        },
        _ => {},
    }
}

proof fn lemma_arms_grows(s: GenSt, arms: Seq<ArmV>, i: int, v: ValV, lend: Seq<char>)
    ensures
        grows(s.fn_buf, g_arms(s, arms, i, v, lend).fn_buf),
    decreases arms, arms.len() - i,
{
    reveal_with_fuel(g_arms, 1);
    reveal_with_fuel(g_expr, 1);
    if 0 <= i < arms.len() {
        let (s1, lbody) = g_label(s, "match_arm"@);
        let (s2, lnext) = g_label(s1, "match_next"@);
        lemma_arm_test_grows(s2, arms[i].pattern, v, lbody, lnext);
        let s3 = g_block(g_arm_test(s2, arms[i].pattern, v, lbody, lnext), lbody);
        lemma_expr_grows(s3, arms[i].body);
        let s4 = g_expr(s3, arms[i].body).0;
        lemma_arms_grows(g_block(g_i(s4, crate::irgen_spec::br(lend)), lnext), arms, i + 1, v, lend);
    }
}

proof fn lemma_catch_grows(s: GenSt, e: ExprV)
    ensures
        grows(s.fn_buf, g_catch(s, e).0.fn_buf),
    decreases e, 1int,
{
    reveal_with_fuel(g_catch, 1);
    reveal_with_fuel(g_stmts, 1);
    reveal_with_fuel(g_expr, 1);
    match e {
        ExprV::Catch { expr, handler } => {
            lemma_expr_grows(s, *expr);
            let s1 = g_expr(s, *expr).0;
            match handler {
                crate::ast::HandlerV::Default(d) => lemma_expr_grows(s1, *d),
                crate::ast::HandlerV::WithErr(_, body) => lemma_expr_grows(s1, *body),
                crate::ast::HandlerV::WithErrBlock(_, ss) => lemma_stmts_grows(s1, ss, 0),
            }
        },
        _ => {},
    }
}

proof fn lemma_block_stmts_grows(s: GenSt, ss: Seq<StmtV>, i: int)
    ensures
        grows(s.fn_buf, g_block_stmts(s, ss, i).fn_buf),
    decreases ss, ss.len() - i,
{
    reveal_with_fuel(g_block_stmts, 1);
    reveal_with_fuel(g_stmt, 1);
    if 0 <= i < ss.len() {
        lemma_stmt_grows(s, ss[i]);
        lemma_block_stmts_grows(g_stmt(s, ss[i]), ss, i + 1);
    }
}

proof fn lemma_stmts_grows(s: GenSt, ss: Seq<StmtV>, i: int)
    ensures
        grows(s.fn_buf, g_stmts(s, ss, i).fn_buf),
    decreases ss, ss.len() - i,
{
    reveal_with_fuel(g_stmts, 1);
    reveal_with_fuel(g_stmt, 1);
    if 0 <= i < ss.len() {
        assert(g_stmts(s, ss, i) == g_stmts(g_stmt(s, ss[i]), ss, i + 1));
        lemma_stmt_grows(s, ss[i]);
        lemma_stmts_grows(g_stmt(s, ss[i]), ss, i + 1);
        lemma_trans(s.fn_buf, g_stmt(s, ss[i]).fn_buf, g_stmts(g_stmt(s, ss[i]), ss, i + 1).fn_buf);
    } else {
        assert(g_stmts(s, ss, i) == s);
    }
}

proof fn lemma_loop_body_grows(s: GenSt, body: Seq<StmtV>, cont: Seq<char>, brk: Seq<char>)
    ensures
        grows(s.fn_buf, g_loop_body(s, body, cont, brk).fn_buf),
    decreases body, body.len() + 1,
{
    reveal_with_fuel(g_loop_body, 1);
    reveal_with_fuel(g_stmts, 1);
    lemma_stmts_grows(GenSt { loop_stack: s.loop_stack.push((cont, brk)), ..s }, body, 0);
}

#[verifier::spinoff_prover]
#[verifier::rlimit(100)]
proof fn lemma_decl_grows(s: GenSt, name: Seq<char>, value: ExprV)
    ensures
        grows(s.fn_buf, g_decl(s, name, value).fn_buf),
    decreases value, 3int,
{
    reveal_with_fuel(g_decl, 1);
    lemma_expr_grows(s, value);
}

#[verifier::spinoff_prover]
#[verifier::rlimit(100)]
proof fn lemma_stmt_grows(s: GenSt, st: StmtV)
    ensures
        grows(s.fn_buf, g_stmt(s, st).fn_buf),
    decreases st, 4int,
{
    reveal_with_fuel(g_stmt, 1);
    match st {
        StmtV::Let { name, value, .. } => lemma_decl_grows(s, name, value),
        StmtV::Mut { name, value, .. } => lemma_decl_grows(s, name, value),
        StmtV::Assign { target, value } => {
            lemma_expr_grows(s, value);
            let (s1, v) = g_expr(s, value);
            match target {
                ExprV::Ident(name) => match crate::irgen_spec::var_get(s1.vars, name) {
                    Some((ptr, ty)) => lemma_coerce_grows(s1, v, ty),
                    None => {},
                },
                _ => {},
            }
        },
        StmtV::Return(x) => match x {
            Some(v) => {
                lemma_expr_grows(s, v);
                let (s1, val) = g_expr(s, v);
                lemma_coerce_grows(s1, val, s.ret_ty);
            },
            None => {},
        },
        StmtV::Expr(x) => lemma_expr_grows(s, x),
        StmtV::For { .. } => lemma_for_grows(s, st),
        StmtV::While { cond, body } => {
            let (s1, lcheck) = g_label(s, "wh_chk"@);
            let (s2, lbody) = g_label(s1, "wh_body"@);
            let (s3, lend) = g_label(s2, "wh_end"@);
            let sa = g_block(g_i(s3, crate::irgen_spec::br(lcheck)), lcheck);
            lemma_expr_grows(sa, cond);
            let (s4, cv) = g_expr(sa, cond);
            let s5 = g_block(g_i(s4, crate::irgen_spec::br_if(cv.reg, lbody, lend)), lbody);
            lemma_loop_body_grows(s5, body, lcheck, lend);
        },
        StmtV::Loop(body) => {
            let (s1, lstart) = g_label(s, "loop"@);
            let (s2, lend) = g_label(s1, "loop_end"@);
            let s3 = g_block(g_i(s2, crate::irgen_spec::br(lstart)), lstart);
            lemma_loop_body_grows(s3, body, lstart, lend);
        },
        _ => {},
    }
}

/// The test a `for` over a range makes before each round: `i <= end` for `a..=b`, `i < end`
/// for `a..b`.
pub open spec fn range_test(inclusive: bool) -> Seq<char> {
    if inclusive {
        " = icmp sle i64 "@
    } else {
        " = icmp slt i64 "@
    }
}

#[verifier::spinoff_prover]
#[verifier::rlimit(100)]
proof fn lemma_for_grows(s: GenSt, st: StmtV)
    ensures
        grows(s.fn_buf, g_for(s, st).fn_buf),
        st matches StmtV::For { iter: ExprV::Range { inclusive, .. }, .. } ==> occurs(
            range_test(inclusive),
            g_for(s, st).fn_buf,
        ),
    decreases st, 3int,
{
    reveal_with_fuel(g_for, 1);
    match st {
        StmtV::For { var, iter, body } => match iter {
            ExprV::Range { start, end, inclusive } => {
                let (s1, sv) = g_expr(s, *start);
                let (s2, ev) = g_expr(s1, *end);
                let ptr = "%"@ + var + ".p"@;
                let s3 = g_i(s2, ptr + " = alloca i64"@);
                let (s4, sv_c) = g_coerce(s3, sv, LlvmTy::I64);
                let s4b = g_i(s4, "store i64 "@ + sv_c + ", i64* "@ + ptr);
                let s5 = crate::irgen_spec::g_var(s4b, var, ptr, LlvmTy::I64);
                let (s6, lcheck) = g_label(s5, "for_chk"@);
                let (s7, lbody) = g_label(s6, "for_body"@);
                let (s8, lend) = g_label(s7, "for_end"@);
                let (s9, ev_c) = g_coerce(s8, ev, LlvmTy::I64);
                let ev_ptr = "%for_ev_"@ + crate::text::decimal(s9.lbl as nat);
                let s10a = g_i(s9, ev_ptr + " = alloca i64"@);
                let s10 = g_i(s10a, "store i64 "@ + ev_c + ", i64* "@ + ev_ptr);
                let s11a = g_i(s10, crate::irgen_spec::br(lcheck));
                let s11 = g_block(s11a, lcheck);
                let (s12, cur) = g_tmp(s11);
                let s13 = g_i(s12, cur + " = load i64, i64* "@ + ptr);
                let (s14, ev_cur) = g_tmp(s13);
                let s15 = g_i(s14, ev_cur + " = load i64, i64* "@ + ev_ptr);
                let (s16, cond) = g_tmp(s15);
                let test_op = if inclusive { "icmp sle"@ } else { "icmp slt"@ };
                let line = cond + " = "@ + test_op + " i64 "@ + cur + ", "@ + ev_cur;
                let s17a = g_i(s16, line);
                let s17 = g_i(s17a, crate::irgen_spec::br_if(cond, lbody, lend));
                let sb = g_block(s17, lbody);
                let s18 = g_loop_body(sb, body, lcheck, lend);
                let (s19, c2) = g_tmp(s18);
                let (s20, inc) = g_tmp(s19);
                let s21a = g_i(s20, c2 + " = load i64, i64* "@ + ptr);
                let s21 = g_i(s21a, inc + " = add i64 "@ + c2 + ", 1"@);
                let s22a = g_i(s21, "store i64 "@ + inc + ", i64* "@ + ptr);
                let s22 = g_i(s22a, crate::irgen_spec::br(lcheck));
                let fin = g_block(s22, lend);
                assert(g_for(s, st) == fin);
                // from s to s16
                lemma_expr_grows(s, *start);
                lemma_expr_grows(s1, *end);
                lemma_trans(s.fn_buf, s1.fn_buf, s2.fn_buf);
                lemma_gi(s2, ptr + " = alloca i64"@);
                lemma_trans(s.fn_buf, s2.fn_buf, s3.fn_buf);
                lemma_coerce_grows(s3, sv, LlvmTy::I64);
                lemma_trans(s.fn_buf, s3.fn_buf, s4.fn_buf);
                lemma_gi(s4, "store i64 "@ + sv_c + ", i64* "@ + ptr);
                lemma_trans(s.fn_buf, s4.fn_buf, s4b.fn_buf);
                assert(s8.fn_buf == s4b.fn_buf);
                lemma_coerce_grows(s8, ev, LlvmTy::I64);
                lemma_trans(s.fn_buf, s8.fn_buf, s9.fn_buf);
                lemma_gi(s9, ev_ptr + " = alloca i64"@);
                lemma_trans(s.fn_buf, s9.fn_buf, s10a.fn_buf);
                lemma_gi(s10a, "store i64 "@ + ev_c + ", i64* "@ + ev_ptr);
                lemma_trans(s.fn_buf, s10a.fn_buf, s10.fn_buf);
                lemma_gi(s10, crate::irgen_spec::br(lcheck));
                lemma_trans(s.fn_buf, s10.fn_buf, s11a.fn_buf);
                lemma_gblock(s11a, lcheck);
                lemma_trans(s.fn_buf, s11a.fn_buf, s11.fn_buf);
                lemma_gi(s12, cur + " = load i64, i64* "@ + ptr);
                lemma_trans(s.fn_buf, s12.fn_buf, s13.fn_buf);
                lemma_gi(s14, ev_cur + " = load i64, i64* "@ + ev_ptr);
                lemma_trans(s.fn_buf, s14.fn_buf, s15.fn_buf);
                lemma_gi(s16, line);
                lemma_trans(s.fn_buf, s16.fn_buf, s17a.fn_buf);
                // from s17a to the end
                lemma_gi(s17a, crate::irgen_spec::br_if(cond, lbody, lend));
                lemma_gblock(s17, lbody);
                lemma_trans(s17a.fn_buf, s17.fn_buf, sb.fn_buf);
                lemma_loop_body_grows(sb, body, lcheck, lend);
                lemma_trans(s17a.fn_buf, sb.fn_buf, s18.fn_buf);
                lemma_gi(s20, c2 + " = load i64, i64* "@ + ptr);
                lemma_trans(s17a.fn_buf, s20.fn_buf, s21a.fn_buf);
                lemma_gi(s21a, inc + " = add i64 "@ + c2 + ", 1"@);
                lemma_trans(s17a.fn_buf, s21a.fn_buf, s21.fn_buf);
                lemma_gi(s21, "store i64 "@ + inc + ", i64* "@ + ptr);
                lemma_trans(s17a.fn_buf, s21.fn_buf, s22a.fn_buf);
                lemma_gi(s22a, crate::irgen_spec::br(lcheck));
                lemma_trans(s17a.fn_buf, s22a.fn_buf, s22.fn_buf);
                lemma_gblock(s22, lend);
                lemma_trans(s17a.fn_buf, s22.fn_buf, fin.fn_buf);
                lemma_trans(s.fn_buf, s17a.fn_buf, fin.fn_buf);
                // the test line
                reveal_strlit(" = ");
                reveal_strlit("icmp sle");
                reveal_strlit("icmp slt");
                reveal_strlit(" i64 ");
                reveal_strlit(" = icmp sle i64 ");
                reveal_strlit(" = icmp slt i64 ");
                reveal_strlit("  ");
                let w = range_test(inclusive);
                let i0: int = (s16.fn_buf.len() + 2 + cond.len()) as int;
                assert(w =~= " = "@ + test_op + " i64 "@);
                assert(s17a.fn_buf =~= s16.fn_buf + "  "@ + cond + w + (cur + ", "@ + ev_cur) + "\n"@);
                assert(s17a.fn_buf.subrange(i0, i0 + w.len()) =~= w);
                assert(fin.fn_buf.subrange(i0, i0 + w.len()) =~= w);
                assert(0 <= i0 && i0 + w.len() <= fin.fn_buf.len());
            },
            _ => lemma_stmts_grows(s, body, 0),
        },
        _ => {},
    }
}

/// A `for` over a range tests its counter against the end before each round with the
/// range's own comparison: `sle` (the end included) for `a..=b`, `slt` (the end left out)
/// for `a..b`; the test appears in the function's text whatever the body.
#[verifier::spinoff_prover]
#[verifier::rlimit(100)]
pub proof fn law_range_loop_test(
    s: GenSt,
    var: Seq<char>,
    start: ExprV,
    end: ExprV,
    inclusive: bool,
    body: Seq<StmtV>,
)
    ensures
        ({
            let out = g_stmt(
                s,
                StmtV::For { var, iter: ExprV::Range { start: Box::new(start), end: Box::new(end), inclusive }, body },
            ).fn_buf;
            &&& inclusive ==> occurs(" = icmp sle i64 "@, out)
            &&& !inclusive ==> occurs(" = icmp slt i64 "@, out)
        }),
{
    let st = StmtV::For { var, iter: ExprV::Range { start: Box::new(start), end: Box::new(end), inclusive }, body };
    reveal(g_stmt);
    lemma_for_grows(s, st);
}

} // verus!
