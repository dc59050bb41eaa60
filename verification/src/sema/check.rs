//! Checking statements, functions and whole programs.
use vstd::prelude::*;
use crate::ast::{
    lemma_stmts_view_index, lemma_tops_view_index, expr_view, inames_view, opt_type_view, params_view, stmt_view, stmts_view,
    top_view, tops_view, Expr, Param, ParamV, Stmt, TopLevel, TopV, Type, TypeV,
};
use crate::sema_spec::{
    collect_all, collect_decl, collect_methods, define_imports, define_params, sem_methods, fn_sig, sem_decl, sem_fn, sem_program, sem_stmt,
    sem_stmts, sem_top, sem_tops, sig_params, SemSt, SigV,
};
use crate::text::push_str;
use super::{clone_type, entries_view, ty_out, unit_out, unplaced, SemaError, SemanticAnalyzer};

verus! {

/// The parameters other than `self`, with their types.
fn sig_params_of(params: &Vec<Param>) -> (r: Vec<(String, Type)>)
    ensures
        entries_view(r@) == sig_params(params_view(params@)),
{
    let ghost pv = params_view(params@);
    let mut out: Vec<(String, Type)> = Vec::new();
    let mut i: usize = 0;
    assert(pv.take(0) =~= Seq::<ParamV>::empty());
    assert(entries_view(out@) =~= Seq::<(Seq<char>, TypeV)>::empty());
    while i < params.len()
        invariant
            i <= params@.len(),
            pv == params_view(params@),
            entries_view(out@) == sig_params(pv.take(i as int)),
        decreases params.len() - i,
    {
        assert(pv.take(i + 1).drop_last() =~= pv.take(i as int));
        if !params[i].is_self {
            let n = params[i].name.clone();
            let t = clone_type(&params[i].ty);
            let ghost prev = out@;
            out.push((n, t));
            assert(entries_view(out@) =~= entries_view(prev).push((pv[i as int].name, pv[i as int].ty)));
        }
        i += 1;
    }
    assert(pv.take(i as int) =~= pv);
    out
}

/// The result type written for a function, `Void` when none is.
fn ret_or_void(ret: &Option<Type>) -> (r: Type)
    ensures
        r@ == fn_sig(Seq::empty(), opt_type_view(*ret)).ret,
{
    match ret {
        Some(t) => clone_type(t),
        None => Type::Void,
    }
}

impl SemanticAnalyzer {
    /// The analyzer's invariant: there is an innermost scope to define variables in.
    pub open spec fn wf(&self) -> bool {
        self@.scopes.len() > 0
    }

    /// Checks a program in two passes: first every function, method and struct declaration
    /// is recorded, then every function body is checked.
    pub fn analyze(&mut self, ast: &[TopLevel]) -> (r: Result<(), SemaError>)
        requires
            old(self).wf(),
        ensures
            final(self).wf(),
            (final(self)@, unit_out(r)) == sem_program(old(self)@, tops_view(ast@)),
            unplaced(r),
    {
        let ghost items = tops_view(ast@);
        proof {
            lemma_tops_view_index(ast@);
        }
        let ghost s0 = self@;
        let mut i: usize = 0;
        while i < ast.len()
            invariant
                i <= ast@.len(),
                items == tops_view(ast@),
                items.len() == ast@.len(),
                forall|j: int| 0 <= j < ast@.len() ==> #[trigger] items[j] == top_view(ast@[j]),
                self@.scopes.len() == s0.scopes.len(),
                s0 == old(self)@,
                s0.scopes.len() > 0,
                collect_all(s0, items, 0) == collect_all(self@, items, i as int),
            decreases ast.len() - i,
        {
            match self.collect_decl(&ast[i]) {
                Ok(()) => {},
                Err(e) => {
                    return Err(e);
                },
            }
            i += 1;
        }
        let ghost s1 = self@;
        let mut k: usize = 0;
        while k < ast.len()
            invariant
                k <= ast@.len(),
                items == tops_view(ast@),
                items.len() == ast@.len(),
                forall|j: int| 0 <= j < ast@.len() ==> #[trigger] items[j] == top_view(ast@[j]),
                self@.scopes.len() >= s1.scopes.len(),
                s1.scopes.len() > 0,
                s0 == old(self)@,
                s1 == collect_all(s0, items, 0),
                sem_tops(s1, items, 0) == sem_tops(self@, items, k as int),
            decreases ast.len() - k,
        {
            match self.check_top_level(&ast[k]) {
                Ok(()) => {},
                Err(e) => {
                    return Err(e);
                },
            }
            k += 1;
        }
        Ok(())
    }

    /// Records the declarations of one item: a function's signature, a struct's fields, or
    /// the signatures of an impl's methods under `Type::method`.
    fn collect_decl(&mut self, item: &TopLevel) -> (r: Result<(), SemaError>)
        requires
            old(self)@.scopes.len() > 0,
        ensures
            r is Ok,
            final(self)@ == collect_decl(old(self)@, top_view(*item)),
            final(self)@.scopes.len() == old(self)@.scopes.len(),
    {
        match item {
            TopLevel::Fn { name, params, ret, .. } => {
                let ps = sig_params_of(params);
                let rt = ret_or_void(ret);
                self.add_fn(name.clone(), ps, rt);
            },
            TopLevel::Struct { name, fields } => {
                let fs = super::clone_entries(fields);
                self.add_struct(name.clone(), fs);
                assert(entries_view(fields@) =~= crate::ast::sfields_view(fields@));
            },
            TopLevel::Impl { name, methods } => {
                let ghost ms = tops_view(methods@);
                proof {
                    lemma_tops_view_index(methods@);
                }
                let ghost s0 = self@;
                let mut i: usize = 0;
                while i < methods.len()
                    invariant
                        i <= methods@.len(),
                        ms == tops_view(methods@),
                        ms.len() == methods@.len(),
                        forall|j: int| 0 <= j < methods@.len() ==> #[trigger] ms[j] == top_view(methods@[j]),
                        collect_methods(s0, name@, ms, 0) == collect_methods(self@, name@, ms, i as int),
                        s0 == old(self)@,
                        self@.scopes == s0.scopes,
                    decreases methods.len() - i,
                {
                    match &methods[i] {
                        TopLevel::Fn { name: mname, params, ret, .. } => {
                            let mut full = name.clone();
                            push_str(&mut full, "::");
                            push_str(&mut full, mname.as_str());
                            let ps = sig_params_of(params);
                            let rt = ret_or_void(ret);
                            self.add_fn(full, ps, rt);
                        },
                        _ => {},
                    }
                    i += 1;
                }
            },
            TopLevel::Import { path, alias } => {
                let bound: Option<String> = match alias {
                    Some(a) => Some(a.clone()),
                    None => if path.len() > 0 {
                        Some(path[path.len() - 1].clone())
                    } else {
                        None
                    },
                };
                if let Some(n) = bound {
                    self.define(&n, super::unknown_type());
                }
            },
            TopLevel::FromImport { names, .. } => {
                let ghost nv = inames_view(names@);
                let ghost s0 = self@;
                let mut i: usize = 0;
                assert(nv.take(0) =~= Seq::<(Seq<char>, Option<Seq<char>>)>::empty());
                while i < names.len()
                    invariant
                        i <= names@.len(),
                        nv == inames_view(names@),
                        s0 == old(self)@,
                        s0.scopes.len() > 0,
                        self@ == define_imports(s0, nv.take(i as int)),
                        self@.scopes.len() == s0.scopes.len(),
                    decreases names.len() - i,
                {
                    assert(nv.take(i + 1).drop_last() =~= nv.take(i as int));
                    let n = match &names[i].1 {
                        Some(a) => a.clone(),
                        None => names[i].0.clone(),
                    };
                    self.define(&n, super::unknown_type());
                    i += 1;
                }
                assert(nv.take(i as int) =~= nv);
            },
            _ => {},
        }
        Ok(())
    }

    /// Checks an item: a function's body, or the bodies of an impl's methods.
    fn check_top_level(&mut self, item: &TopLevel) -> (r: Result<(), SemaError>)
        requires
            old(self)@.scopes.len() > 0,
        ensures
            final(self)@.scopes.len() >= old(self)@.scopes.len(),
            (final(self)@, unit_out(r)) == sem_top(old(self)@, top_view(*item)),
            unplaced(r),
        decreases item, 1int,
    {
        match item {
            TopLevel::Fn { name, params, ret, body } => self.check_fn(name, params, ret, body, None),
            TopLevel::Impl { name, methods } => {
                proof {
                    assert(decreases_to!(*item => *methods));
                }
                self.check_items(item, name, methods)
            },
            _ => Ok(()),
        }
    }

    /// Checks the methods of the impl of type `tname`, in order.
    fn check_items(&mut self, item: &TopLevel, tname: &String, methods: &Vec<TopLevel>) -> (r: Result<(), SemaError>)
        requires
            old(self)@.scopes.len() > 0,
            decreases_to!(*item => *methods),
        ensures
            final(self)@.scopes.len() >= old(self)@.scopes.len(),
            (final(self)@, unit_out(r)) == sem_methods(old(self)@, tname@, tops_view(methods@), 0),
            unplaced(r),
        decreases item, 0int,
    {
        let ghost ms = tops_view(methods@);
        proof {
            lemma_tops_view_index(methods@);
        }
        let ghost s0 = self@;
        let mut i: usize = 0;
        while i < methods.len()
            invariant
                i <= methods@.len(),
                ms == tops_view(methods@),
                ms.len() == methods@.len(),
                forall|j: int| 0 <= j < methods@.len() ==> #[trigger] ms[j] == top_view(methods@[j]),
                decreases_to!(*item => *methods),
                s0 == old(self)@,
                self@.scopes.len() >= s0.scopes.len(),
                s0.scopes.len() > 0,
                sem_methods(s0, tname@, ms, 0) == sem_methods(self@, tname@, ms, i as int),
            decreases methods.len() - i,
        {
            proof {
                assert(decreases_to!(*methods => methods[i as int]));
            }
            let res = match &methods[i] {
                TopLevel::Fn { name, params, ret, body } => {
                    let st = Type::Named(tname.clone());
                    self.check_fn(name, params, ret, body, Some(st))
                },
                _ => self.check_top_level(&methods[i]),
            };
            match res {
                Ok(()) => {},
                Err(e) => {
                    return Err(e);
                },
            }
            i += 1;
        }
        Ok(())
    }

    /// Checks a function body in a scope holding its parameters, with its result type current;
    /// in a method of type `T` (`self_ty`), `self` is a variable of type `T`.
    fn check_fn(
        &mut self,
        _name: &String,
        params: &Vec<Param>,
        ret: &Option<Type>,
        body: &Vec<Stmt>,
        self_ty: Option<Type>,
    ) -> (r: Result<(), SemaError>)
        requires
            old(self)@.scopes.len() > 0,
        ensures
            final(self)@.scopes.len() >= old(self)@.scopes.len(),
            (final(self)@, unit_out(r)) == sem_fn(
                old(self)@,
                params_view(params@),
                opt_type_view(*ret),
                stmts_view(body@),
                opt_type_view(self_ty),
            ),
            unplaced(r),
    {
        self.push_scope();
        let rt = ret_or_void(ret);
        self.set_cur_ret(Some(rt));
        let ghost pv0 = params_view(params@);
        if let Some(st) = self_ty {
            if params.len() > 0 && params[0].is_self {
                assert(pv0[0].is_self);
                self.define(&String::from_str("self"), st);
            }
        }
        let ghost pv = params_view(params@);
        let ghost s1 = self@;
        let mut i: usize = 0;
        assert(pv.take(0) =~= Seq::<ParamV>::empty());
        while i < params.len()
            invariant
                i <= params@.len(),
                pv == params_view(params@),
                self@ == define_params(s1, pv.take(i as int), true),
                self@.scopes.len() == s1.scopes.len(),
                s1.scopes.len() > 1,
            decreases params.len() - i,
        {
            assert(pv.take(i + 1).drop_last() =~= pv.take(i as int));
            if !params[i].is_self {
                let t = clone_type(&params[i].ty);
                self.define(&params[i].name, t);
            }
            i += 1;
        }
        assert(pv.take(i as int) =~= pv);
        match self.check_body(body) {
            Ok(()) => {},
            Err(e) => {
                return Err(e);
            },
        }
        self.pop_scope();
        self.set_cur_ret(None);
        Ok(())
    }

    /// Checks statements in order.
    #[verifier::spinoff_prover]
    pub(crate) fn check_body(&mut self, body: &Vec<Stmt>) -> (r: Result<(), SemaError>)
        requires
            old(self)@.scopes.len() > 0,
        ensures
            final(self)@.scopes.len() >= old(self)@.scopes.len(),
            (final(self)@, unit_out(r)) == sem_stmts(old(self)@, stmts_view(body@), 0),
            unplaced(r),
        decreases body, 1int,
    {
        let ghost sv = stmts_view(body@);
        proof {
            lemma_stmts_view_index(body@);
        }
        let ghost s0 = self@;
        let mut i: usize = 0;
        while i < body.len()
            invariant
                i <= body@.len(),
                sv == stmts_view(body@),
                sv.len() == body@.len(),
                forall|j: int| 0 <= j < body@.len() ==> #[trigger] sv[j] == stmt_view(body@[j]),
                self@.scopes.len() >= s0.scopes.len(),
                s0 == old(self)@,
                s0.scopes.len() > 0,
                sem_stmts(s0, sv, 0) == sem_stmts(self@, sv, i as int),
            decreases body.len() - i,
        {
            proof {
                assert(decreases_to!(*body => body[i as int]));
            }
            match self.check_stmt(&body[i]) {
                Ok(()) => {},
                Err(e) => {
                    return Err(e);
                },
            }
            i += 1;
        }
        Ok(())
    }

    /// A `let` or `mut` declaration; `kw` names it in the message.
    #[verifier::spinoff_prover]
    fn check_decl(&mut self, name: &String, ty: &Option<Type>, value: &Expr, kw: &str) -> (r: Result<(), SemaError>)
        requires
            old(self)@.scopes.len() > 0,
        ensures
            final(self)@.scopes.len() >= old(self)@.scopes.len(),
            (final(self)@, unit_out(r)) == sem_decl(old(self)@, name@, opt_type_view(*ty), expr_view(*value), kw@),
            unplaced(r),
        decreases value, 3int,
    {
        let inferred = match self.infer_expr(value) {
            Ok(t) => t,
            Err(e) => {
                return Err(e);
            },
        };
        let actual = match ty {
            Some(declared) => {
                let mut ctx = String::from_str(kw);
                push_str(&mut ctx, " '");
                push_str(&mut ctx, name.as_str());
                push_str(&mut ctx, "'");
                match self.unify(declared, &inferred, ctx.as_str()) {
                    Ok(()) => {},
                    Err(e) => {
                        return Err(e);
                    },
                }
                clone_type(declared)
            },
            None => inferred,
        };
        self.define(name, actual);
        Ok(())
    }

    /// Checks a statement.
    #[verifier::spinoff_prover]
    #[verifier::rlimit(50)]
    pub(crate) fn check_stmt(&mut self, st: &Stmt) -> (r: Result<(), SemaError>)
        requires
            old(self)@.scopes.len() > 0,
        ensures
            final(self)@.scopes.len() >= old(self)@.scopes.len(),
            (final(self)@, unit_out(r)) == sem_stmt(old(self)@, stmt_view(*st)),
            unplaced(r),
        decreases st, 4int,
    {
        match st {
            Stmt::Let { name, ty, value } => self.check_decl(name, ty, value, "let"),
            Stmt::Mut { name, ty, value } => self.check_decl(name, ty, value, "mut"),
            Stmt::Assign { target, value } => {
                let tt = match self.infer_expr(target) {
                    Ok(t) => t,
                    Err(e) => {
                        return Err(e);
                    },
                };
                let vt = match self.infer_expr(value) {
                    Ok(t) => t,
                    Err(e) => {
                        return Err(e);
                    },
                };
                self.unify(&tt, &vt, "assignment")
            },
            Stmt::Return(x) => {
                let expected = match self.cur_ret() {
                    Some(t) => t,
                    None => Type::Void,
                };
                let actual = match x {
                    Some(v) => match self.infer_expr(v) {
                        Ok(t) => t,
                        Err(e) => {
                            return Err(e);
                        },
                    },
                    None => Type::Void,
                };
                self.unify(&expected, &actual, "return")
            },
            Stmt::Expr(x) => {
                match self.infer_expr(x) {
                    Ok(_) => Ok(()),
                    Err(e) => Err(e),
                }
            },
            Stmt::For { var, iter, body } => {
                let it = match self.infer_expr(iter) {
                    Ok(t) => t,
                    Err(e) => {
                        return Err(e);
                    },
                };
                let et = match self.element_type_of(&it) {
                    Ok(t) => t,
                    Err(e) => {
                        return Err(e);
                    },
                };
                self.push_scope();
                self.define(var, et);
                match self.check_body(body) {
                    Ok(()) => {},
                    Err(e) => {
                        return Err(e);
                    },
                }
                self.pop_scope();
                Ok(())
            },
            Stmt::While { cond, body } => {
                let c = match self.infer_expr(cond) {
                    Ok(t) => t,
                    Err(e) => {
                        return Err(e);
                    },
                };
                match self.unify(&Type::Bool, &c, "while condition") {
                    Ok(()) => {},
                    Err(e) => {
                        return Err(e);
                    },
                }
                self.push_scope();
                match self.check_body(body) {
                    Ok(()) => {},
                    Err(e) => {
                        return Err(e);
                    },
                }
                self.pop_scope();
                Ok(())
            },
            Stmt::Loop(body) => {
                self.push_scope();
                match self.check_body(body) {
                    Ok(()) => {},
                    Err(e) => {
                        return Err(e);
                    },
                }
                self.pop_scope();
                Ok(())
            },
            Stmt::Break => Ok(()),
            Stmt::Continue => Ok(()),
        }
    }
}

} // verus!
