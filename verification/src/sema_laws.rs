//! What checking does to the analyzer's state when it succeeds: an expression leaves the
//! state as it was, a statement changes at most the innermost scope, and a whole program
//! closes every scope it opens.
use vstd::prelude::*;
use crate::ast::{ArmV, ExprV, HandlerV, ParamV, StmtV, TopV, TypeV};
use crate::sema_spec::{
    collect_all, define, define_params, error_type, law_scope_close_undoes_open,
    pattern_binding, pop_scope, push_scope, sem_arm, sem_arms, sem_args, sem_block, sem_block_items, sem_call,
    sem_catch, sem_decl, sem_elifs, sem_expr, sem_fn, sem_if, sem_lambda, sem_lit_fields, sem_match, sem_methods, sem_program,
    sem_scoped, sem_stmt, sem_stmts, sem_struct_lit, sem_top, sem_tops, sem_try_block, sem_try_items,
    sem_typed_args, SemSt,
};

verus! {

/// The scopes without the innermost one, when there is one.
pub open spec fn outer_scopes(sc: Seq<Seq<(Seq<char>, TypeV)>>) -> Seq<Seq<(Seq<char>, TypeV)>> {
    if sc.len() > 0 {
        sc.drop_last()
    } else {
        sc
    }
}

/// `b` is `a` but for the entries of the innermost scope.
pub open spec fn same_but_innermost(a: SemSt, b: SemSt) -> bool {
    &&& b.scopes.len() == a.scopes.len()
    &&& outer_scopes(b.scopes) == outer_scopes(a.scopes)
    &&& b.fns == a.fns
    &&& b.structs == a.structs
    &&& b.cur_ret == a.cur_ret
}

proof fn lemma_define_innermost(s: SemSt, k: Seq<char>, t: TypeV)
    ensures
        same_but_innermost(s, define(s, k, t)),
{
    if s.scopes.len() > 0 {
        assert(define(s, k, t).scopes.drop_last() =~= s.scopes.drop_last());
    }
}

proof fn lemma_define_params_innermost(s: SemSt, ps: Seq<ParamV>, skip_self: bool)
    ensures
        same_but_innermost(s, define_params(s, ps, skip_self)),
    decreases ps.len(),
{
    if ps.len() > 0 {
        lemma_define_params_innermost(s, ps.drop_last(), skip_self);
        lemma_define_innermost(define_params(s, ps.drop_last(), skip_self), ps.last().name, ps.last().ty);
    }
}

/// A scope opened on `s` and changed only inside is closed back to `s`.
proof fn lemma_close_opened(s: SemSt, b: SemSt)
    requires
        same_but_innermost(push_scope(s), b),
    ensures
        pop_scope(b) == s,
{
    assert(push_scope(s).scopes.drop_last() =~= s.scopes);
    assert(pop_scope(b).scopes =~= s.scopes);
}

/// A scope opened on `s` with `k` defined in it.
proof fn lemma_open_with(s: SemSt, k: Seq<char>, t: TypeV)
    ensures
        same_but_innermost(push_scope(s), define(push_scope(s), k, t)),
{
    lemma_define_innermost(push_scope(s), k, t);
}

/// Checking an expression that passes leaves the analyzer's state as it was: whatever
/// scopes it opens, it closes, and it defines nothing in the scopes around it.
pub proof fn law_expression_check_keeps_state(s: SemSt, e: ExprV)
    ensures
        sem_expr(s, e).1 is Ok ==> sem_expr(s, e).0 == s,
    decreases e, 2int,
{
    match e {
        ExprV::BinOp { lhs, rhs, .. } => {
            law_expression_check_keeps_state(s, *lhs);
            law_expression_check_keeps_state(s, *rhs);
        },
        ExprV::UnOp { expr, .. } => law_expression_check_keeps_state(s, *expr),
        ExprV::Call { .. } => lemma_call_keeps(s, e),
        ExprV::Lambda { .. } => lemma_lambda_keeps(s, e),
        ExprV::If { .. } => lemma_if_keeps(s, e),
        ExprV::Match { .. } => lemma_match_keeps(s, e),
        ExprV::Try(inner) => law_expression_check_keeps_state(s, *inner),
        ExprV::Catch { .. } => lemma_catch_keeps(s, e),
        ExprV::TryBlock(_) => lemma_try_block_keeps(s, e),
        ExprV::Block(_) => lemma_block_keeps(s, e),
        ExprV::Field { expr, .. } => law_expression_check_keeps_state(s, *expr),
        ExprV::Index { expr, idx } => {
            law_expression_check_keeps_state(s, *expr);
            law_expression_check_keeps_state(s, *idx);
        },
        ExprV::StructLit { .. } => lemma_struct_lit_keeps(s, e),
        ExprV::Range { start, end, .. } => {
            law_expression_check_keeps_state(s, *start);
            law_expression_check_keeps_state(s, *end);
        },
        ExprV::SomeVal(inner) => law_expression_check_keeps_state(s, *inner),
        ExprV::OkVal(inner) => law_expression_check_keeps_state(s, *inner),
        ExprV::ErrVal(inner) => law_expression_check_keeps_state(s, *inner),
        _ => {},
    }
}

proof fn lemma_lambda_keeps(s: SemSt, e: ExprV)
    ensures
        sem_lambda(s, e).1 is Ok ==> sem_lambda(s, e).0 == s,
    decreases e, 1int,
{
    match e {
        ExprV::Lambda { params, ret, body } => {
            let s1 = push_scope(s);
            let s2 = SemSt { cur_ret: Some(if ret is Some { ret->0 } else { crate::sema_spec::unknown() }), ..s1 };
            let s3 = define_params(s2, params, false);
            lemma_define_params_innermost(s2, params, false);
            law_expression_check_keeps_state(s3, *body);
            assert(s1.scopes.drop_last() =~= s.scopes);
            assert(pop_scope(s3).scopes =~= s.scopes);
        },
        _ => {},
    }
}

proof fn lemma_try_block_keeps(s: SemSt, e: ExprV)
    ensures
        sem_try_block(s, e).1 is Ok ==> sem_try_block(s, e).0 == s,
    decreases e, 1int,
{
    match e {
        ExprV::TryBlock(ss) => {
            lemma_try_items_innermost(push_scope(s), ss, 0, TypeV::Void);
            let s1 = sem_try_items(push_scope(s), ss, 0, TypeV::Void).0;
            if sem_try_items(push_scope(s), ss, 0, TypeV::Void).1 is Ok {
                lemma_close_opened(s, s1);
            }
        },
        _ => {},
    }
}

proof fn lemma_block_keeps(s: SemSt, e: ExprV)
    ensures
        sem_block(s, e).1 is Ok ==> sem_block(s, e).0 == s,
    decreases e, 1int,
{
    match e {
        ExprV::Block(ss) => {
            lemma_block_items_innermost(push_scope(s), ss, 0, TypeV::Void);
            let s1 = sem_block_items(push_scope(s), ss, 0, TypeV::Void).0;
            if sem_block_items(push_scope(s), ss, 0, TypeV::Void).1 is Ok {
                lemma_close_opened(s, s1);
            }
        },
        _ => {},
    }
}

proof fn lemma_struct_lit_keeps(s: SemSt, e: ExprV)
    ensures
        sem_struct_lit(s, e).1 is Ok ==> sem_struct_lit(s, e).0 == s,
    decreases e, 1int,
{
    match e {
        ExprV::StructLit { name, fields } => match crate::sema_spec::assoc(s.structs, name) {
            Some(def) => lemma_lit_fields_keeps(s, name, def, fields, 0),
            None => {},
        },
        _ => {},
    }
}

proof fn lemma_call_keeps(s: SemSt, e: ExprV)
    ensures
        sem_call(s, e).1 is Ok ==> sem_call(s, e).0 == s,
    decreases e, 1int,
{
    match e {
        ExprV::Call { func, args } => {
            law_expression_check_keeps_state(s, *func);
            match sem_expr(s, *func).1 {
                Ok(TypeV::Fn(ptys, _)) => lemma_typed_args_keeps(s, args, ptys, 0),
                _ => lemma_args_keeps(s, args, 0),
            }
        },
        _ => {},
    }
}

proof fn lemma_typed_args_keeps(s: SemSt, args: Seq<ExprV>, ptys: Seq<TypeV>, i: int)
    ensures
        sem_typed_args(s, args, ptys, i).1 is Ok ==> sem_typed_args(s, args, ptys, i).0 == s,
    decreases args, args.len() - i,
{
    if 0 <= i < args.len() {
        law_expression_check_keeps_state(s, args[i]);
        lemma_typed_args_keeps(s, args, ptys, i + 1);
    }
}

proof fn lemma_args_keeps(s: SemSt, args: Seq<ExprV>, i: int)
    ensures
        sem_args(s, args, i).1 is Ok ==> sem_args(s, args, i).0 == s,
    decreases args, args.len() - i,
{
    if 0 <= i < args.len() {
        law_expression_check_keeps_state(s, args[i]);
        lemma_args_keeps(s, args, i + 1);
    }
}

proof fn lemma_if_keeps(s: SemSt, e: ExprV)
    ensures
        sem_if(s, e).1 is Ok ==> sem_if(s, e).0 == s,
    decreases e, 1int,
{
    match e {
        ExprV::If { cond, then, elifs, else_ } => {
            law_expression_check_keeps_state(s, *cond);
            law_expression_check_keeps_state(s, *then);
            match sem_expr(s, *then).1 {
                Ok(tt) => lemma_elifs_keeps(s, elifs, 0, tt),
                Err(_) => {},
            }
            match else_ {
                Some(eb) => law_expression_check_keeps_state(s, *eb),
                None => {},
            }
        },
        _ => {},
    }
}

proof fn lemma_elifs_keeps(s: SemSt, elifs: Seq<(ExprV, ExprV)>, i: int, tt: TypeV)
    ensures
        sem_elifs(s, elifs, i, tt).1 is Ok ==> sem_elifs(s, elifs, i, tt).0 == s,
    decreases elifs, elifs.len() - i,
{
    if 0 <= i < elifs.len() {
        law_expression_check_keeps_state(s, elifs[i].0);
        law_expression_check_keeps_state(s, elifs[i].1);
        lemma_elifs_keeps(s, elifs, i + 1, tt);
    }
}

proof fn lemma_match_keeps(s: SemSt, e: ExprV)
    ensures
        sem_match(s, e).1 is Ok ==> sem_match(s, e).0 == s,
    decreases e, 1int,
{
    match e {
        ExprV::Match { expr, arms } => {
            law_expression_check_keeps_state(s, *expr);
            if arms.len() > 0 {
                lemma_arm_keeps(s, arms[0]);
                match sem_arm(s, arms[0]).1 {
                    Ok(first) => lemma_arms_keeps(s, arms, 1, first),
                    Err(_) => {},
                }
            }
        },
        _ => {},
    }
}

proof fn lemma_arms_keeps(s: SemSt, arms: Seq<ArmV>, i: int, first: TypeV)
    ensures
        sem_arms(s, arms, i, first).1 is Ok ==> sem_arms(s, arms, i, first).0 == s,
    decreases arms, arms.len() - i,
{
    if 0 <= i < arms.len() {
        lemma_arm_keeps(s, arms[i]);
        lemma_arms_keeps(s, arms, i + 1, first);
    }
}

proof fn lemma_arm_keeps(s: SemSt, arm: ArmV)
    ensures
        sem_arm(s, arm).1 is Ok ==> sem_arm(s, arm).0 == s,
    decreases arm, 2int,
{
    let s1 = push_scope(s);
    match pattern_binding(arm.pattern) {
        Some((n, t)) => {
            law_expression_check_keeps_state(define(s1, n, t), arm.body);
            law_scope_close_undoes_open(s, n, t);
        },
        None => {
            law_expression_check_keeps_state(s1, arm.body);
            law_scope_close_undoes_open(s, Seq::empty(), TypeV::Void);
        },
    }
}

proof fn lemma_catch_keeps(s: SemSt, e: ExprV)
    ensures
        sem_catch(s, e).1 is Ok ==> sem_catch(s, e).0 == s,
    decreases e, 1int,
{
    match e {
        ExprV::Catch { expr, handler } => {
            law_expression_check_keeps_state(s, *expr);
            match handler {
                HandlerV::Default(d) => law_expression_check_keeps_state(s, *d),
                HandlerV::WithErr(name, body) => {
                    law_expression_check_keeps_state(define(push_scope(s), name, error_type()), *body);
                    law_scope_close_undoes_open(s, name, error_type());
                },
                HandlerV::WithErrBlock(name, ss) => {
                    let st = define(push_scope(s), name, error_type());
                    lemma_open_with(s, name, error_type());
                    law_statements_check_touch_only_innermost(st, ss, 0);
                    if sem_stmts(st, ss, 0).1 is Ok {
                        lemma_close_opened(s, sem_stmts(st, ss, 0).0);
                    }
                },
            }
        },
        _ => {},
    }
}

proof fn lemma_lit_fields_keeps(
    s: SemSt,
    sname: Seq<char>,
    def: Seq<(Seq<char>, TypeV)>,
    fields: Seq<(Seq<char>, ExprV)>,
    i: int,
)
    ensures
        sem_lit_fields(s, sname, def, fields, i).1 is Ok ==> sem_lit_fields(s, sname, def, fields, i).0 == s,
    decreases fields, fields.len() - i,
{
    if 0 <= i < fields.len() {
        law_expression_check_keeps_state(s, fields[i].1);
        lemma_lit_fields_keeps(s, sname, def, fields, i + 1);
    }
}

proof fn lemma_block_items_innermost(s: SemSt, ss: Seq<StmtV>, i: int, last: TypeV)
    ensures
        sem_block_items(s, ss, i, last).1 is Ok ==> same_but_innermost(s, sem_block_items(s, ss, i, last).0),
    decreases ss, ss.len() - i,
{
    if 0 <= i < ss.len() {
        let p = match ss[i] {
            StmtV::Expr(x) => {
                law_expression_check_keeps_state(s, x);
                sem_expr(s, x)
            },
            StmtV::Return(Some(x)) => {
                law_expression_check_keeps_state(s, x);
                sem_expr(s, x)
            },
            _ => {
                law_statement_check_touches_only_innermost(s, ss[i]);
                let (s0, r0) = sem_stmt(s, ss[i]);
                match r0 {
                    Err(m) => (s0, Err(m)),
                    Ok(_) => (s0, Ok(TypeV::Void)),
                }
            },
        };
        match p.1 {
            Ok(t) => lemma_block_items_innermost(p.0, ss, i + 1, t),
            Err(_) => {},
        }
    }
}

proof fn lemma_try_items_innermost(s: SemSt, ss: Seq<StmtV>, i: int, last: TypeV)
    ensures
        sem_try_items(s, ss, i, last).1 is Ok ==> same_but_innermost(s, sem_try_items(s, ss, i, last).0),
    decreases ss, ss.len() - i,
{
    if 0 <= i < ss.len() {
        let p = match ss[i] {
            StmtV::Expr(x) => {
                law_expression_check_keeps_state(s, x);
                sem_expr(s, x)
            },
            _ => {
                law_statement_check_touches_only_innermost(s, ss[i]);
                let (s0, r0) = sem_stmt(s, ss[i]);
                match r0 {
                    Err(m) => (s0, Err(m)),
                    Ok(_) => (s0, Ok(TypeV::Void)),
                }
            },
        };
        match p.1 {
            Ok(t) => lemma_try_items_innermost(p.0, ss, i + 1, t),
            Err(_) => {},
        }
    }
}

/// Checking statements that pass changes nothing but the innermost scope, where their
/// declarations go: every scope they open, they close.
pub proof fn law_statements_check_touch_only_innermost(s: SemSt, ss: Seq<StmtV>, i: int)
    ensures
        sem_stmts(s, ss, i).1 is Ok ==> same_but_innermost(s, sem_stmts(s, ss, i).0),
    decreases ss, ss.len() - i,
{
    if 0 <= i < ss.len() {
        law_statement_check_touches_only_innermost(s, ss[i]);
        law_statements_check_touch_only_innermost(sem_stmt(s, ss[i]).0, ss, i + 1);
    }
}

proof fn lemma_decl_innermost(s: SemSt, name: Seq<char>, ty: Option<TypeV>, value: ExprV, kw: Seq<char>)
    ensures
        sem_decl(s, name, ty, value, kw).1 is Ok ==> same_but_innermost(s, sem_decl(s, name, ty, value, kw).0),
    decreases value, 3int,
{
    law_expression_check_keeps_state(s, value);
    match sem_expr(s, value).1 {
        Ok(inferred) => match ty {
            Some(declared) => lemma_define_innermost(s, name, declared),
            None => lemma_define_innermost(s, name, inferred),
        },
        Err(_) => {},
    }
}

proof fn lemma_scoped_keeps(s: SemSt, body: Seq<StmtV>)
    ensures
        sem_scoped(s, body).1 is Ok ==> sem_scoped(s, body).0 == s,
    decreases body, body.len() + 1,
{
    law_statements_check_touch_only_innermost(push_scope(s), body, 0);
    if sem_stmts(push_scope(s), body, 0).1 is Ok {
        lemma_close_opened(s, sem_stmts(push_scope(s), body, 0).0);
    }
}

/// Checking a statement that passes changes nothing but the innermost scope: a `let` or
/// `mut` adds its variable there, and every scope the statement opens it closes.
pub proof fn law_statement_check_touches_only_innermost(s: SemSt, st: StmtV)
    ensures
        sem_stmt(s, st).1 is Ok ==> same_but_innermost(s, sem_stmt(s, st).0),
    decreases st, 4int,
{
    match st {
        StmtV::Let { name, ty, value } => lemma_decl_innermost(s, name, ty, value, "let"@),
        StmtV::Mut { name, ty, value } => lemma_decl_innermost(s, name, ty, value, "mut"@),
        StmtV::Assign { target, value } => {
            law_expression_check_keeps_state(s, target);
            law_expression_check_keeps_state(s, value);
        },
        StmtV::Return(x) => match x {
            Some(v) => law_expression_check_keeps_state(s, v),
            None => {},
        },
        StmtV::Expr(x) => law_expression_check_keeps_state(s, x),
        StmtV::For { var, iter, body } => {
            law_expression_check_keeps_state(s, iter);
            match sem_expr(s, iter).1 {
                Ok(it) => match crate::sema_spec::element_type(it) {
                    Ok(et) => {
                        let st0 = define(push_scope(s), var, et);
                        lemma_open_with(s, var, et);
                        law_statements_check_touch_only_innermost(st0, body, 0);
                        if sem_stmts(st0, body, 0).1 is Ok {
                            lemma_close_opened(s, sem_stmts(st0, body, 0).0);
                        }
                    },
                    Err(_) => {},
                },
                Err(_) => {},
            }
        },
        StmtV::While { cond, body } => {
            law_expression_check_keeps_state(s, cond);
            lemma_scoped_keeps(s, body);
        },
        StmtV::Loop(body) => lemma_scoped_keeps(s, body),
        _ => {},
    }
}

// ------------------------------------------------------------
// Programs
// ------------------------------------------------------------

/// `b` has the scopes, functions and structs of `a`.
pub open spec fn same_scopes_and_decls(a: SemSt, b: SemSt) -> bool {
    &&& b.scopes == a.scopes
    &&& b.fns == a.fns
    &&& b.structs == a.structs
}

proof fn lemma_fn_closes(s: SemSt, params: Seq<ParamV>, ret: Option<TypeV>, body: Seq<StmtV>, self_ty: Option<TypeV>)
    ensures
        sem_fn(s, params, ret, body, self_ty).1 is Ok ==> same_scopes_and_decls(
            s,
            sem_fn(s, params, ret, body, self_ty).0,
        ),
{
    let s1 = SemSt {
        cur_ret: Some(match ret {
            Some(t) => t,
            None => TypeV::Void,
        }),
        ..push_scope(s)
    };
    let s2 = if self_ty is Some && params.len() > 0 && params[0].is_self {
        define(s1, "self"@, self_ty->0)
    } else {
        s1
    };
    lemma_define_innermost(s1, "self"@, self_ty->0);
    let dp = define_params(s2, params, true);
    lemma_define_params_innermost(s2, params, true);
    law_statements_check_touch_only_innermost(dp, body, 0);
    if sem_stmts(dp, body, 0).1 is Ok {
        let s3 = sem_stmts(dp, body, 0).0;
        assert(s1.scopes.drop_last() =~= s.scopes);
        assert(pop_scope(s3).scopes =~= s.scopes);
    }
}

proof fn lemma_top_closes(s: SemSt, item: TopV)
    ensures
        sem_top(s, item).1 is Ok ==> same_scopes_and_decls(s, sem_top(s, item).0),
    decreases item, 1int,
{
    match item {
        TopV::Fn { params, ret, body, .. } => lemma_fn_closes(s, params, ret, body, None),
        TopV::Impl { name, methods } => lemma_methods_close(s, name, methods, 0),
        _ => {},
    }
}

proof fn lemma_methods_close(s: SemSt, tname: Seq<char>, ms: Seq<TopV>, i: int)
    ensures
        sem_methods(s, tname, ms, i).1 is Ok ==> same_scopes_and_decls(s, sem_methods(s, tname, ms, i).0),
    decreases ms, ms.len() - i,
{
    if 0 <= i < ms.len() {
        let p = match ms[i] {
            TopV::Fn { params, ret, body, .. } => {
                lemma_fn_closes(s, params, ret, body, Some(TypeV::Named(tname)));
                sem_fn(s, params, ret, body, Some(TypeV::Named(tname)))
            },
            _ => {
                lemma_top_closes(s, ms[i]);
                sem_top(s, ms[i])
            },
        };
        lemma_methods_close(p.0, tname, ms, i + 1);
    }
}

proof fn lemma_tops_close(s: SemSt, items: Seq<TopV>, i: int)
    ensures
        sem_tops(s, items, i).1 is Ok ==> same_scopes_and_decls(s, sem_tops(s, items, i).0),
    decreases items, items.len() - i,
{
    if 0 <= i < items.len() {
        lemma_top_closes(s, items[i]);
        lemma_tops_close(sem_top(s, items[i]).0, items, i + 1);
    }
}

/// Every scope the analyzer opens, it closes: a program that passes analysis leaves the
/// variable scopes as they were once its imports were bound.
pub proof fn law_analysis_restores_scopes(s: SemSt, items: Seq<TopV>)
    ensures
        sem_program(s, items).1 is Ok ==> sem_program(s, items).0.scopes == collect_all(s, items, 0).scopes,
{
    lemma_tops_close(collect_all(s, items, 0), items, 0);
}

} // verus!
