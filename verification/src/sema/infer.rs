//! Inferring the types of expressions.
use vstd::prelude::*;
use crate::ast::{
    lemma_arms_view_index, lemma_elifs_view_index, lemma_exprs_view_index, lemma_fields_view_index,
    lemma_stmts_view_index, lemma_types_view_index, lemma_types_view_push, expr_view, exprs_view, opt_type_view,
    params_view, pattern_view, stmt_view, stmts_view, type_view, types_view, ArmV, CatchHandler, Expr, ExprV,
    MatchArm, Pattern, Stmt, StmtV, Type, TypeV, UnOp,
};
use crate::sema_spec::{
    define_params, param_types, sem_arm, sem_arms, sem_args, sem_block_items, sem_call, sem_catch, sem_elifs,
    sem_expr, sem_if, sem_lit_fields, sem_match, sem_stmts, sem_try_items, sem_typed_args, unknown, error_type,
    first_assoc, SemSt,
};
use crate::text::{push_decimal, push_str};
use super::{
    clone_type, entries_view, find_field, named, push_type_debug, sema_err, ty_out, unit_out, unknown_type, unplaced,
    SemaError, SemanticAnalyzer,
};

verus! {

impl SemanticAnalyzer {
    /// The type of an expression.
    #[verifier::spinoff_prover]
    #[verifier::rlimit(50)]
    pub(crate) fn infer_expr(&mut self, e: &Expr) -> (r: Result<Type, SemaError>)
        requires
            old(self)@.scopes.len() > 0,
        ensures
            final(self)@.scopes.len() >= old(self)@.scopes.len(),
            (final(self)@, ty_out(r)) == sem_expr(old(self)@, expr_view(*e)),
            unplaced(r),
        decreases e, 2int,
    {
        match e {
            Expr::Int(_) => Ok(Type::Int),
            Expr::Float(_) => Ok(Type::Float),
            Expr::Str(_) => Ok(Type::String),
            Expr::Bool(_) => Ok(Type::Bool),
            Expr::Null => Ok(Type::Nullable(Box::new(unknown_type()))),
            Expr::NoneVal => Ok(Type::Option(Box::new(unknown_type()))),
            Expr::Ident(name) => {
                if let Some(t) = self.lookup_var(name) {
                    return Ok(t);
                }
                if let Some(ft) = self.fn_type(name) {
                    return Ok(ft);
                }
                let mut m = String::from_str("undefined variable '");
                push_str(&mut m, name.as_str());
                push_str(&mut m, "'");
                Err(sema_err(m))
            },
            Expr::BinOp { op, lhs, rhs } => {
                let l = match self.infer_expr(lhs) {
                    Ok(t) => t,
                    Err(er) => {
                        return Err(er);
                    },
                };
                let r = match self.infer_expr(rhs) {
                    Ok(t) => t,
                    Err(er) => {
                        return Err(er);
                    },
                };
                self.infer_binop(op, &l, &r)
            },
            Expr::UnOp { op, expr } => {
                let ty = match self.infer_expr(expr) {
                    Ok(t) => t,
                    Err(er) => {
                        return Err(er);
                    },
                };
                match op {
                    UnOp::Neg => {
                        if self.is_numeric(&ty) {
                            Ok(ty)
                        } else {
                            Err(sema_err(String::from_str("'-' requires numeric type")))
                        }
                    },
                    UnOp::Not => {
                        match self.unify(&Type::Bool, &ty, "'!'") {
                            Ok(()) => {},
                            Err(er) => {
                                return Err(er);
                            },
                        }
                        Ok(Type::Bool)
                    },
                }
            },
            Expr::Call { .. } => self.infer_call(e),
            Expr::Lambda { .. } => self.infer_lambda(e),
            Expr::If { .. } => self.infer_if(e),
            Expr::Match { .. } => self.infer_match(e),
            Expr::Try(inner) => {
                let ty = match self.infer_expr(inner) {
                    Ok(t) => t,
                    Err(er) => {
                        return Err(er);
                    },
                };
                match ty {
                    Type::Result(ok, _) => Ok(*ok),
                    Type::Option(i) => Ok(*i),
                    t => {
                        let mut m = String::from_str("'?' requires Result<T,E> or Option<T>, got ");
                        push_type_debug(&mut m, &t);
                        Err(sema_err(m))
                    },
                }
            },
            Expr::Catch { .. } => self.infer_catch(e),
            Expr::TryBlock(_) => self.infer_try_block(e),
            Expr::Block(_) => self.infer_block(e),
            Expr::Field { expr, name } => {
                let ty = match self.infer_expr(expr) {
                    Ok(t) => t,
                    Err(er) => {
                        return Err(er);
                    },
                };
                self.infer_field(&ty, name)
            },
            Expr::Index { expr, idx } => {
                let ty = match self.infer_expr(expr) {
                    Ok(t) => t,
                    Err(er) => {
                        return Err(er);
                    },
                };
                match self.infer_expr(idx) {
                    Ok(_) => {},
                    Err(er) => {
                        return Err(er);
                    },
                }
                self.infer_index(&ty)
            },
            Expr::StructLit { .. } => self.infer_struct_lit(e),
            Expr::Range { start, end, .. } => {
                match self.infer_expr(start) {
                    Ok(_) => {},
                    Err(er) => {
                        return Err(er);
                    },
                }
                match self.infer_expr(end) {
                    Ok(_) => {},
                    Err(er) => {
                        return Err(er);
                    },
                }
                Ok(named("Range"))
            },
            Expr::SomeVal(inner) => {
                let t = match self.infer_expr(inner) {
                    Ok(t) => t,
                    Err(er) => {
                        return Err(er);
                    },
                };
                Ok(Type::Option(Box::new(t)))
            },
            Expr::OkVal(inner) => {
                let t = match self.infer_expr(inner) {
                    Ok(t) => t,
                    Err(er) => {
                        return Err(er);
                    },
                };
                Ok(Type::Result(Box::new(t), Box::new(named("Error"))))
            },
            Expr::ErrVal(inner) => {
                let t = match self.infer_expr(inner) {
                    Ok(t) => t,
                    Err(er) => {
                        return Err(er);
                    },
                };
                Ok(Type::Result(Box::new(unknown_type()), Box::new(t)))
            },
        }
    }

    /// The type of a call.
    #[verifier::spinoff_prover]
    pub(crate) fn infer_call(&mut self, e: &Expr) -> (r: Result<Type, SemaError>)
        requires
            old(self)@.scopes.len() > 0,
        ensures
            final(self)@.scopes.len() >= old(self)@.scopes.len(),
            (final(self)@, ty_out(r)) == sem_call(old(self)@, expr_view(*e)),
            unplaced(r),
        decreases e, 1int,
    {
        match e {
            Expr::Call { func, args } => {
                let ft = match self.infer_expr(func) {
                    Ok(t) => t,
                    Err(er) => {
                        return Err(er);
                    },
                };
                proof {
                    lemma_exprs_view_index(args@);
                    assert(decreases_to!(*e => *args));
                }
                match ft {
                    Type::Fn(ptys, ret) => {
                        proof {
                            lemma_types_view_index(ptys@);
                        }
                        if args.len() != ptys.len() {
                            let mut m = String::from_str("expected ");
                            push_decimal(&mut m, ptys.len() as u64);
                            push_str(&mut m, " args, got ");
                            push_decimal(&mut m, args.len() as u64);
                            return Err(sema_err(m));
                        }
                        match self.infer_typed_args(e, args, &ptys) {
                            Ok(()) => Ok(*ret),
                            Err(er) => Err(er),
                        }
                    },
                    _ => {
                        let known: Option<Type> = match &**func {
                            Expr::Ident(name) => self.fn_ret(name),
                            _ => None,
                        };
                        match self.infer_args(e, args) {
                            Ok(()) => {},
                            Err(er) => {
                                return Err(er);
                            },
                        }
                        match known {
                            Some(t) => Ok(t),
                            None => Ok(unknown_type()),
                        }
                    },
                }
            },
            _ => Ok(unknown_type()),
        }
    }

    /// The arguments of a call, each checked against its parameter type, in order.
    #[verifier::spinoff_prover]
    pub(crate) fn infer_typed_args(&mut self, e: &Expr, args: &Vec<Expr>, ptys: &Vec<Type>) -> (r: Result<(), SemaError>)
        requires
            old(self)@.scopes.len() > 0,
            decreases_to!(*e => *args),
            args@.len() == ptys@.len(),
        ensures
            final(self)@.scopes.len() >= old(self)@.scopes.len(),
            (final(self)@, unit_out(r)) == sem_typed_args(old(self)@, exprs_view(args@), types_view(ptys@), 0),
            unplaced(r),
        decreases e, 0int,
    {
        let ghost av = exprs_view(args@);
        let ghost pv = types_view(ptys@);
        proof {
            lemma_exprs_view_index(args@);
            lemma_types_view_index(ptys@);
        }
        let ghost s0 = self@;
        let mut i: usize = 0;
        while i < args.len()
            invariant
                i <= args@.len(),
                args@.len() == ptys@.len(),
                av == exprs_view(args@),
                pv == types_view(ptys@),
                av.len() == args@.len(),
                pv.len() == ptys@.len(),
                forall|j: int| 0 <= j < args@.len() ==> #[trigger] av[j] == expr_view(args@[j]),
                forall|j: int| 0 <= j < ptys@.len() ==> #[trigger] pv[j] == type_view(ptys@[j]),
                decreases_to!(*e => *args),
                s0 == old(self)@,
                self@.scopes.len() >= s0.scopes.len(),
                s0.scopes.len() > 0,
                sem_typed_args(s0, av, pv, 0) == sem_typed_args(self@, av, pv, i as int),
            decreases args.len() - i,
        {
            proof {
                assert(decreases_to!(*args => args[i as int]));
            }
            let at = match self.infer_expr(&args[i]) {
                Ok(t) => t,
                Err(er) => {
                    return Err(er);
                },
            };
            match self.unify(&ptys[i], &at, "argument") {
                Ok(()) => {},
                Err(er) => {
                    return Err(er);
                },
            }
            i += 1;
        }
        Ok(())
    }

    /// The arguments of a call, each inferred, in order.
    #[verifier::spinoff_prover]
    pub(crate) fn infer_args(&mut self, e: &Expr, args: &Vec<Expr>) -> (r: Result<(), SemaError>)
        requires
            old(self)@.scopes.len() > 0,
            decreases_to!(*e => *args),
        ensures
            final(self)@.scopes.len() >= old(self)@.scopes.len(),
            (final(self)@, unit_out(r)) == sem_args(old(self)@, exprs_view(args@), 0),
            unplaced(r),
        decreases e, 0int,
    {
        let ghost av = exprs_view(args@);
        proof {
            lemma_exprs_view_index(args@);
        }
        let ghost s0 = self@;
        let mut i: usize = 0;
        while i < args.len()
            invariant
                i <= args@.len(),
                av == exprs_view(args@),
                av.len() == args@.len(),
                forall|j: int| 0 <= j < args@.len() ==> #[trigger] av[j] == expr_view(args@[j]),
                decreases_to!(*e => *args),
                s0 == old(self)@,
                self@.scopes.len() >= s0.scopes.len(),
                s0.scopes.len() > 0,
                sem_args(s0, av, 0) == sem_args(self@, av, i as int),
            decreases args.len() - i,
        {
            proof {
                assert(decreases_to!(*args => args[i as int]));
            }
            match self.infer_expr(&args[i]) {
                Ok(_) => {},
                Err(er) => {
                    return Err(er);
                },
            }
            i += 1;
        }
        Ok(())
    }

    /// The type of a lambda.
    #[verifier::spinoff_prover]
    pub(crate) fn infer_lambda(&mut self, e: &Expr) -> (r: Result<Type, SemaError>)
        requires
            old(self)@.scopes.len() > 0,
        ensures
            final(self)@.scopes.len() >= old(self)@.scopes.len(),
            (final(self)@, ty_out(r)) == crate::sema_spec::sem_lambda(old(self)@, expr_view(*e)),
            unplaced(r),
        decreases e, 1int,
    {
        match e {
            Expr::Lambda { params, ret, body } => {
                self.push_scope();
                let saved = self.cur_ret();
                let rt = match ret {
                    Some(t) => clone_type(t),
                    None => unknown_type(),
                };
                self.set_cur_ret(Some(rt));
                let ghost pv = params_view(params@);
                let ghost s2 = self@;
                let mut i: usize = 0;
                assert(pv.take(0) =~= Seq::<crate::ast::ParamV>::empty());
                while i < params.len()
                    invariant
                        i <= params@.len(),
                        pv == params_view(params@),
                        self@ == define_params(s2, pv.take(i as int), false),
                        self@.scopes.len() == s2.scopes.len(),
                        s2.scopes.len() > 0,
                    decreases params.len() - i,
                {
                    assert(pv.take(i + 1).drop_last() =~= pv.take(i as int));
                    let t = clone_type(&params[i].ty);
                    self.define(&params[i].name, t);
                    i += 1;
                }
                assert(pv.take(i as int) =~= pv);
                let bt = match self.infer_expr(body) {
                    Ok(t) => t,
                    Err(er) => {
                        return Err(er);
                    },
                };
                self.pop_scope();
                self.set_cur_ret(saved);
                let mut ptys: Vec<Type> = Vec::new();
                let mut k: usize = 0;
                while k < params.len()
                    invariant
                        k <= params@.len(),
                        pv == params_view(params@),
                        types_view(ptys@) == param_types(pv).take(k as int),
                    decreases params.len() - k,
                {
                    let t = clone_type(&params[k].ty);
                    proof {
                        lemma_types_view_push(ptys@, t);
                    }
                    ptys.push(t);
                    assert(types_view(ptys@) =~= param_types(pv).take(k + 1));
                    k += 1;
                }
                assert(param_types(pv).take(k as int) =~= param_types(pv));
                Ok(Type::Fn(ptys, Box::new(bt)))
            },
            _ => Ok(unknown_type()),
        }
    }

    /// The type of an `if` expression.
    #[verifier::spinoff_prover]
    #[verifier::rlimit(50)]
    pub(crate) fn infer_if(&mut self, e: &Expr) -> (r: Result<Type, SemaError>)
        requires
            old(self)@.scopes.len() > 0,
        ensures
            final(self)@.scopes.len() >= old(self)@.scopes.len(),
            (final(self)@, ty_out(r)) == sem_if(old(self)@, expr_view(*e)),
            unplaced(r),
        decreases e, 1int,
    {
        match e {
            Expr::If { cond, then: then_e, elifs, else_ } => {
                let c = match self.infer_expr(cond) {
                    Ok(t) => t,
                    Err(er) => {
                        return Err(er);
                    },
                };
                match self.unify(&Type::Bool, &c, "if condition") {
                    Ok(()) => {},
                    Err(er) => {
                        return Err(er);
                    },
                }
                let tt = match self.infer_expr(then_e) {
                    Ok(t) => t,
                    Err(er) => {
                        return Err(er);
                    },
                };
                proof {
                    assert(decreases_to!(*e => *elifs));
                }
                match self.infer_elifs(e, elifs, &tt) {
                    Ok(()) => {},
                    Err(er) => {
                        return Err(er);
                    },
                }
                match else_ {
                    Some(eb) => {
                        let et = match self.infer_expr(eb) {
                            Ok(t) => t,
                            Err(er) => {
                                return Err(er);
                            },
                        };
                        match self.unify(&tt, &et, "else branch") {
                            Ok(()) => {},
                            Err(er) => {
                                return Err(er);
                            },
                        }
                        Ok(tt)
                    },
                    None => Ok(Type::Void),
                }
            },
            _ => Ok(unknown_type()),
        }
    }

    /// The `elif` parts of an `if`, each branch fitting `tt`, in order.
    #[verifier::spinoff_prover]
    pub(crate) fn infer_elifs(&mut self, e: &Expr, elifs: &Vec<(Expr, Expr)>, tt: &Type) -> (r: Result<(), SemaError>)
        requires
            old(self)@.scopes.len() > 0,
            decreases_to!(*e => *elifs),
        ensures
            final(self)@.scopes.len() >= old(self)@.scopes.len(),
            (final(self)@, unit_out(r)) == sem_elifs(old(self)@, crate::ast::elifs_view(elifs@), 0, tt@),
            unplaced(r),
        decreases e, 0int,
    {
        let ghost ev = crate::ast::elifs_view(elifs@);
        proof {
            lemma_elifs_view_index(elifs@);
        }
        let ghost s0 = self@;
        let mut i: usize = 0;
        while i < elifs.len()
            invariant
                i <= elifs@.len(),
                ev == crate::ast::elifs_view(elifs@),
                ev.len() == elifs@.len(),
                forall|j: int| 0 <= j < elifs@.len() ==> #[trigger] ev[j] == (expr_view(elifs@[j].0), expr_view(elifs@[j].1)),
                decreases_to!(*e => *elifs),
                s0 == old(self)@,
                self@.scopes.len() >= s0.scopes.len(),
                s0.scopes.len() > 0,
                sem_elifs(s0, ev, 0, tt@) == sem_elifs(self@, ev, i as int, tt@),
            decreases elifs.len() - i,
        {
            proof {
                assert(decreases_to!(*elifs => elifs[i as int]));
            }
            let ect = match self.infer_expr(&elifs[i].0) {
                Ok(t) => t,
                Err(er) => {
                    return Err(er);
                },
            };
            match self.unify(&Type::Bool, &ect, "elif condition") {
                Ok(()) => {},
                Err(er) => {
                    return Err(er);
                },
            }
            let ebt = match self.infer_expr(&elifs[i].1) {
                Ok(t) => t,
                Err(er) => {
                    return Err(er);
                },
            };
            match self.unify(tt, &ebt, "elif branch") {
                Ok(()) => {},
                Err(er) => {
                    return Err(er);
                },
            }
            i += 1;
        }
        Ok(())
    }

    /// The type of a `match` expression.
    #[verifier::spinoff_prover]
    pub(crate) fn infer_match(&mut self, e: &Expr) -> (r: Result<Type, SemaError>)
        requires
            old(self)@.scopes.len() > 0,
        ensures
            final(self)@.scopes.len() >= old(self)@.scopes.len(),
            (final(self)@, ty_out(r)) == sem_match(old(self)@, expr_view(*e)),
            unplaced(r),
        decreases e, 1int,
    {
        match e {
            Expr::Match { expr, arms } => {
                match self.infer_expr(expr) {
                    Ok(_) => {},
                    Err(er) => {
                        return Err(er);
                    },
                }
                proof {
                    lemma_arms_view_index(arms@);
                }
                if arms.len() == 0 {
                    return Ok(Type::Void);
                }
                proof {
                    assert(decreases_to!(*e => *arms));
                    assert(decreases_to!(*arms => arms[0]));
                }
                let first = match self.infer_arm(&arms[0]) {
                    Ok(t) => t,
                    Err(er) => {
                        return Err(er);
                    },
                };
                match self.infer_arms_rest(e, arms, &first) {
                    Ok(()) => Ok(first),
                    Err(er) => Err(er),
                }
            },
            _ => Ok(unknown_type()),
        }
    }

    /// The arms of a `match` after the first, each fitting `first`, in order.
    #[verifier::spinoff_prover]
    pub(crate) fn infer_arms_rest(&mut self, e: &Expr, arms: &Vec<MatchArm>, first: &Type) -> (r: Result<(), SemaError>)
        requires
            old(self)@.scopes.len() > 0,
            decreases_to!(*e => *arms),
        ensures
            final(self)@.scopes.len() >= old(self)@.scopes.len(),
            (final(self)@, unit_out(r)) == sem_arms(old(self)@, crate::ast::arms_view(arms@), 1, first@),
            unplaced(r),
        decreases e, 0int,
    {
        let ghost av = crate::ast::arms_view(arms@);
        proof {
            lemma_arms_view_index(arms@);
        }
        let ghost s0 = self@;
        if arms.len() == 0 {
            return Ok(());
        }
        let mut i: usize = 1;
        while i < arms.len()
            invariant
                1 <= i <= arms@.len(),
                av == crate::ast::arms_view(arms@),
                av.len() == arms@.len(),
                forall|j: int| 0 <= j < arms@.len() ==> #[trigger] av[j] == (ArmV { pattern: pattern_view(arms@[j].pattern), body: expr_view(arms@[j].body) }),
                decreases_to!(*e => *arms),
                s0 == old(self)@,
                self@.scopes.len() >= s0.scopes.len(),
                s0.scopes.len() > 0,
                sem_arms(s0, av, 1, first@) == sem_arms(self@, av, i as int, first@),
            decreases arms.len() - i,
        {
            proof {
                assert(decreases_to!(*arms => arms[i as int]));
            }
            let t = match self.infer_arm(&arms[i]) {
                Ok(t) => t,
                Err(er) => {
                    return Err(er);
                },
            };
            match self.unify(first, &t, "match arm") {
                Ok(()) => {},
                Err(er) => {
                    return Err(er);
                },
            }
            i += 1;
        }
        Ok(())
    }

    /// The type of one match arm.
    #[verifier::spinoff_prover]
    pub(crate) fn infer_arm(&mut self, arm: &MatchArm) -> (r: Result<Type, SemaError>)
        requires
            old(self)@.scopes.len() > 0,
        ensures
            final(self)@.scopes.len() >= old(self)@.scopes.len(),
            (final(self)@, ty_out(r)) == sem_arm(old(self)@, ArmV { pattern: pattern_view(arm.pattern), body: expr_view(arm.body) }),
            unplaced(r),
        decreases arm, 2int,
    {
        self.push_scope();
        match &arm.pattern {
            Pattern::SomeVal(n) => self.define(n, unknown_type()),
            Pattern::OkVal(n) => self.define(n, unknown_type()),
            Pattern::ErrVal(n) => self.define(n, named("Error")),
            Pattern::Ident(n) => self.define(n, unknown_type()),
            _ => {},
        }
        let ty = match self.infer_expr(&arm.body) {
            Ok(t) => t,
            Err(er) => {
                return Err(er);
            },
        };
        self.pop_scope();
        Ok(ty)
    }

    /// The type of a `catch` expression.
    #[verifier::spinoff_prover]
    pub(crate) fn infer_catch(&mut self, e: &Expr) -> (r: Result<Type, SemaError>)
        requires
            old(self)@.scopes.len() > 0,
        ensures
            final(self)@.scopes.len() >= old(self)@.scopes.len(),
            (final(self)@, ty_out(r)) == sem_catch(old(self)@, expr_view(*e)),
            unplaced(r),
        decreases e, 1int,
    {
        match e {
            Expr::Catch { expr, handler } => {
                let ty = match self.infer_expr(expr) {
                    Ok(t) => t,
                    Err(er) => {
                        return Err(er);
                    },
                };
                match handler {
                    CatchHandler::Default(d) => {
                        let dt = match self.infer_expr(d) {
                            Ok(t) => t,
                            Err(er) => {
                                return Err(er);
                            },
                        };
                        match ty {
                            Type::Result(ok, _) => {
                                match self.unify(&ok, &dt, "catch") {
                                    Ok(()) => {},
                                    Err(er) => {
                                        return Err(er);
                                    },
                                }
                                Ok(*ok)
                            },
                            Type::Option(i) => {
                                match self.unify(&i, &dt, "catch") {
                                    Ok(()) => {},
                                    Err(er) => {
                                        return Err(er);
                                    },
                                }
                                Ok(*i)
                            },
                            _ => Ok(dt),
                        }
                    },
                    CatchHandler::WithErr(name, body) => {
                        self.push_scope();
                        self.define(name, named("Error"));
                        let bt = match self.infer_expr(body) {
                            Ok(t) => t,
                            Err(er) => {
                                return Err(er);
                            },
                        };
                        self.pop_scope();
                        Ok(bt)
                    },
                    CatchHandler::WithErrBlock(name, stmts) => {
                        self.push_scope();
                        self.define(name, named("Error"));
                        match self.check_body(stmts) {
                            Ok(()) => {},
                            Err(er) => {
                                return Err(er);
                            },
                        }
                        self.pop_scope();
                        Ok(Type::Void)
                    },
                }
            },
            _ => Ok(unknown_type()),
        }
    }

    /// The type of a `try:` block.
    #[verifier::spinoff_prover]
    pub(crate) fn infer_try_block(&mut self, e: &Expr) -> (r: Result<Type, SemaError>)
        requires
            old(self)@.scopes.len() > 0,
        ensures
            final(self)@.scopes.len() >= old(self)@.scopes.len(),
            (final(self)@, ty_out(r)) == crate::sema_spec::sem_try_block(old(self)@, expr_view(*e)),
            unplaced(r),
        decreases e, 1int,
    {
        match e {
            Expr::TryBlock(stmts) => {
                self.push_scope();
                proof {
                    assert(decreases_to!(*e => *stmts));
                }
                let last = match self.infer_items(e, stmts, false) {
                    Ok(t) => t,
                    Err(er) => {
                        return Err(er);
                    },
                };
                self.pop_scope();
                Ok(Type::Result(Box::new(last), Box::new(named("Error"))))
            },
            _ => Ok(unknown_type()),
        }
    }

    /// The type of a block used as an expression.
    #[verifier::spinoff_prover]
    pub(crate) fn infer_block(&mut self, e: &Expr) -> (r: Result<Type, SemaError>)
        requires
            old(self)@.scopes.len() > 0,
        ensures
            final(self)@.scopes.len() >= old(self)@.scopes.len(),
            (final(self)@, ty_out(r)) == crate::sema_spec::sem_block(old(self)@, expr_view(*e)),
            unplaced(r),
        decreases e, 1int,
    {
        match e {
            Expr::Block(stmts) => {
                self.push_scope();
                proof {
                    assert(decreases_to!(*e => *stmts));
                }
                let last = match self.infer_items(e, stmts, true) {
                    Ok(t) => t,
                    Err(er) => {
                        return Err(er);
                    },
                };
                self.pop_scope();
                Ok(last)
            },
            _ => Ok(unknown_type()),
        }
    }

    /// The statements of a block (`returns_value`) or of a `try:` block, in order: the type
    /// of the last expression statement, or with `returns_value` the last `return` value,
    /// and `Void` after any other statement.
    #[verifier::spinoff_prover]
    pub(crate) fn infer_items(&mut self, e: &Expr, stmts: &Vec<Stmt>, returns_value: bool) -> (r: Result<Type, SemaError>)
        requires
            old(self)@.scopes.len() > 0,
            decreases_to!(*e => *stmts),
        ensures
            final(self)@.scopes.len() >= old(self)@.scopes.len(),
            (final(self)@, ty_out(r)) == if returns_value {
                sem_block_items(old(self)@, stmts_view(stmts@), 0, TypeV::Void)
            } else {
                sem_try_items(old(self)@, stmts_view(stmts@), 0, TypeV::Void)
            },
            unplaced(r),
        decreases e, 0int,
    {
        let ghost sv = stmts_view(stmts@);
        proof {
            lemma_stmts_view_index(stmts@);
        }
        let ghost s0 = self@;
        let mut last = Type::Void;
        let mut i: usize = 0;
        while i < stmts.len()
            invariant
                i <= stmts@.len(),
                sv == stmts_view(stmts@),
                sv.len() == stmts@.len(),
                forall|j: int| 0 <= j < stmts@.len() ==> #[trigger] sv[j] == stmt_view(stmts@[j]),
                decreases_to!(*e => *stmts),
                s0 == old(self)@,
                self@.scopes.len() >= s0.scopes.len(),
                s0.scopes.len() > 0,
                returns_value ==> sem_block_items(s0, sv, 0, TypeV::Void) == sem_block_items(self@, sv, i as int, last@),
                !returns_value ==> sem_try_items(s0, sv, 0, TypeV::Void) == sem_try_items(self@, sv, i as int, last@),
            decreases stmts.len() - i,
        {
            proof {
                assert(decreases_to!(*stmts => stmts[i as int]));
            }
            match &stmts[i] {
                Stmt::Expr(x) => {
                    last = match self.infer_expr(x) {
                        Ok(t) => t,
                        Err(er) => {
                            return Err(er);
                        },
                    };
                },
                Stmt::Return(Some(x)) if returns_value => {
                    last = match self.infer_expr(x) {
                        Ok(t) => t,
                        Err(er) => {
                            return Err(er);
                        },
                    };
                },
                _ => {
                    match self.check_stmt(&stmts[i]) {
                        Ok(()) => {},
                        Err(er) => {
                            return Err(er);
                        },
                    }
                    last = Type::Void;
                },
            }
            i += 1;
        }
        Ok(last)
    }

    /// The type of a struct literal.
    #[verifier::spinoff_prover]
    pub(crate) fn infer_struct_lit(&mut self, e: &Expr) -> (r: Result<Type, SemaError>)
        requires
            old(self)@.scopes.len() > 0,
        ensures
            final(self)@.scopes.len() >= old(self)@.scopes.len(),
            (final(self)@, ty_out(r)) == crate::sema_spec::sem_struct_lit(old(self)@, expr_view(*e)),
            unplaced(r),
        decreases e, 1int,
    {
        match e {
            Expr::StructLit { name, fields } => {
                let def = match self.struct_fields(name) {
                    Some(d) => d,
                    None => {
                        let mut m = String::from_str("undefined struct '");
                        push_str(&mut m, name.as_str());
                        push_str(&mut m, "'");
                        return Err(sema_err(m));
                    },
                };
                proof {
                    assert(decreases_to!(*e => *fields));
                }
                match self.infer_lit_fields(e, name, &def, fields) {
                    Ok(()) => Ok(Type::Named(name.clone())),
                    Err(er) => Err(er),
                }
            },
            _ => Ok(unknown_type()),
        }
    }

    /// The fields of a struct literal, each declared in `def` and fitting its type, in order.
    #[verifier::spinoff_prover]
    pub(crate) fn infer_lit_fields(
        &mut self,
        e: &Expr,
        name: &String,
        def: &Vec<(String, Type)>,
        fields: &Vec<(String, Expr)>,
    ) -> (r: Result<(), SemaError>)
        requires
            old(self)@.scopes.len() > 0,
            decreases_to!(*e => *fields),
        ensures
            final(self)@.scopes.len() >= old(self)@.scopes.len(),
            (final(self)@, unit_out(r)) == crate::sema_spec::sem_lit_fields(
                old(self)@,
                name@,
                entries_view(def@),
                crate::ast::fields_view(fields@),
                0,
            ),
            unplaced(r),
        decreases e, 0int,
    {
        let ghost fv = crate::ast::fields_view(fields@);
        proof {
            lemma_fields_view_index(fields@);
        }
        let ghost s0 = self@;
        let ghost dv = entries_view(def@);
        let mut i: usize = 0;
        while i < fields.len()
            invariant
                i <= fields@.len(),
                fv == crate::ast::fields_view(fields@),
                fv.len() == fields@.len(),
                forall|j: int| 0 <= j < fields@.len() ==> #[trigger] fv[j] == (fields@[j].0@, expr_view(fields@[j].1)),
                dv == entries_view(def@),
                decreases_to!(*e => *fields),
                s0 == old(self)@,
                self@.scopes.len() >= s0.scopes.len(),
                s0.scopes.len() > 0,
                crate::sema_spec::sem_lit_fields(s0, name@, dv, fv, 0) == crate::sema_spec::sem_lit_fields(self@, name@, dv, fv, i as int),
            decreases fields.len() - i,
        {
            proof {
                assert(decreases_to!(*fields => fields[i as int]));
            }
            let fname = &fields[i].0;
            let j = match find_field(def, fname) {
                Some(j) => j,
                None => {
                    let mut m = String::from_str("struct '");
                    push_str(&mut m, name.as_str());
                    push_str(&mut m, "' has no field '");
                    push_str(&mut m, fname.as_str());
                    push_str(&mut m, "'");
                    return Err(sema_err(m));
                },
            };
            let at = match self.infer_expr(&fields[i].1) {
                Ok(t) => t,
                Err(er) => {
                    return Err(er);
                },
            };
            match self.unify(&def[j].1, &at, fname.as_str()) {
                Ok(()) => {},
                Err(er) => {
                    return Err(er);
                },
            }
            i += 1;
        }
        Ok(())
    }
}

} // verus!
