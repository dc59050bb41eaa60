//! The meaning of the semantic analyzer: the state it keeps and what each check does to it.
//!
//! Every check takes the analyzer's state and gives the state after it with its outcome: a
//! type or `()`, or the error message. A failing check stops where it failed, so the state
//! it leaves may hold scopes that were opened and not closed.
use vstd::prelude::*;
use crate::ast::{ArmV, BinOp, ExprV, HandlerV, ParamV, PatternV, StmtV, TopV, TypeV, UnOp};
use crate::text::decimal;
use crate::token::str_debug;

verus! {

/// A function's signature: its parameters with their types, and its result type.
pub struct SigV {
    pub params: Seq<(Seq<char>, TypeV)>,
    pub ret: TypeV,
}

/// The analyzer's state.
pub struct SemSt {
    /// Scopes of variables, innermost last; in each, a later entry shadows an earlier one.
    pub scopes: Seq<Seq<(Seq<char>, TypeV)>>,
    /// Function signatures by name; a later entry replaces an earlier one.
    pub fns: Seq<(Seq<char>, SigV)>,
    /// Struct fields by struct name; a later entry replaces an earlier one.
    pub structs: Seq<(Seq<char>, Seq<(Seq<char>, TypeV)>)>,
    /// The result type of the function being checked.
    pub cur_ret: Option<TypeV>,
}

/// An outcome: the state after a check, with a value or an error message.
pub type SemR<V> = (SemSt, Result<V, Seq<char>>);

// ------------------------------------------------------------
// Names and lookups
// ------------------------------------------------------------

/// The value of the latest entry for `k`.
pub open spec fn assoc<V>(s: Seq<(Seq<char>, V)>, k: Seq<char>) -> Option<V>
    decreases s.len(),
{
    if s.len() == 0 {
        None
    } else if s.last().0 == k {
        Some(s.last().1)
    } else {
        assoc(s.drop_last(), k)
    }
}

/// The value of the first entry for `k`.
pub open spec fn first_assoc<V>(s: Seq<(Seq<char>, V)>, k: Seq<char>) -> Option<V>
    decreases s.len(),
{
    if s.len() == 0 {
        None
    } else if s[0].0 == k {
        Some(s[0].1)
    } else {
        first_assoc(s.drop_first(), k)
    }
}

/// The type of a variable: its entry in the innermost scope that has one.
pub open spec fn env_lookup(scopes: Seq<Seq<(Seq<char>, TypeV)>>, k: Seq<char>) -> Option<TypeV>
    decreases scopes.len(),
{
    if scopes.len() == 0 {
        None
    } else {
        match assoc(scopes.last(), k) {
            Some(t) => Some(t),
            None => env_lookup(scopes.drop_last(), k),
        }
    }
}

/// A new innermost scope.
pub open spec fn push_scope(s: SemSt) -> SemSt {
    SemSt { scopes: s.scopes.push(Seq::empty()), ..s }
}

/// The innermost scope closed.
pub open spec fn pop_scope(s: SemSt) -> SemSt {
    if s.scopes.len() > 0 {
        SemSt { scopes: s.scopes.drop_last(), ..s }
    } else {
        s
    }
}

/// A variable defined in the innermost scope.
pub open spec fn define(s: SemSt, k: Seq<char>, t: TypeV) -> SemSt {
    if s.scopes.len() > 0 {
        SemSt { scopes: s.scopes.update(s.scopes.len() - 1, s.scopes.last().push((k, t))), ..s }
    } else {
        s
    }
}

/// The wildcard type `?`.
pub open spec fn unknown() -> TypeV {
    TypeV::Named("?"@)
}

/// The type given to caught errors.
pub open spec fn error_type() -> TypeV {
    TypeV::Named("Error"@)
}

// ------------------------------------------------------------
// Types as the analyzer's messages print them
// ------------------------------------------------------------

/// A type as its derived `Debug` writes it, for example `List(Int)` or `Named("Point")`.
pub open spec fn type_debug(t: TypeV) -> Seq<char>
    decreases t,
{
    match t {
        TypeV::Int => "Int"@,
        TypeV::Float => "Float"@,
        TypeV::String => "String"@,
        TypeV::Str => "Str"@,
        TypeV::Bool => "Bool"@,
        TypeV::Char => "Char"@,
        TypeV::Byte => "Byte"@,
        TypeV::Void => "Void"@,
        TypeV::I8 => "I8"@,
        TypeV::I16 => "I16"@,
        TypeV::I32 => "I32"@,
        TypeV::I64 => "I64"@,
        TypeV::Uint => "Uint"@,
        TypeV::U8 => "U8"@,
        TypeV::U16 => "U16"@,
        TypeV::U32 => "U32"@,
        TypeV::U64 => "U64"@,
        TypeV::F32 => "F32"@,
        TypeV::F64 => "F64"@,
        TypeV::List(a) => "List("@ + type_debug(*a) + ")"@,
        TypeV::Dict(a, b) => "Dict("@ + type_debug(*a) + ", "@ + type_debug(*b) + ")"@,
        TypeV::Tuple(v) => "Tuple(["@ + types_debug(v) + "])"@,
        TypeV::SetOf(a) => "Set("@ + type_debug(*a) + ")"@,
        TypeV::Option(a) => "Option("@ + type_debug(*a) + ")"@,
        TypeV::Result(a, b) => "Result("@ + type_debug(*a) + ", "@ + type_debug(*b) + ")"@,
        TypeV::Nullable(a) => "Nullable("@ + type_debug(*a) + ")"@,
        TypeV::Union(v) => "Union(["@ + types_debug(v) + "])"@,
        TypeV::Fn(v, r) => "Fn(["@ + types_debug(v) + "], "@ + type_debug(*r) + ")"@,
        TypeV::Named(n) => "Named("@ + str_debug(n) + ")"@,
        TypeV::Generic(n, v) => "Generic("@ + str_debug(n) + ", ["@ + types_debug(v) + "])"@,
    }
}

/// Types separated by `, `.
pub open spec fn types_debug(v: Seq<TypeV>) -> Seq<char>
    decreases v,
{
    if v.len() == 0 {
        Seq::empty()
    } else if v.len() == 1 {
        type_debug(v[0])
    } else {
        types_debug(v.drop_last()) + ", "@ + type_debug(v.last())
    }
}

// ------------------------------------------------------------
// Type rules
// ------------------------------------------------------------

/// Which kind of type it is, whatever its parts.
pub open spec fn type_kind(t: TypeV) -> nat {
    match t {
        TypeV::Int => 0,
        TypeV::Float => 1,
        TypeV::String => 2,
        TypeV::Str => 3,
        TypeV::Bool => 4,
        TypeV::Char => 5,
        TypeV::Byte => 6,
        TypeV::Void => 7,
        TypeV::I8 => 8,
        TypeV::I16 => 9,
        TypeV::I32 => 10,
        TypeV::I64 => 11,
        TypeV::Uint => 12,
        TypeV::U8 => 13,
        TypeV::U16 => 14,
        TypeV::U32 => 15,
        TypeV::U64 => 16,
        TypeV::F32 => 17,
        TypeV::F64 => 18,
        TypeV::List(_) => 19,
        TypeV::Dict(_, _) => 20,
        TypeV::Tuple(_) => 21,
        TypeV::SetOf(_) => 22,
        TypeV::Option(_) => 23,
        TypeV::Result(_, _) => 24,
        TypeV::Nullable(_) => 25,
        TypeV::Union(_) => 26,
        TypeV::Fn(_, _) => 27,
        TypeV::Named(_) => 28,
        TypeV::Generic(_, _) => 29,
    }
}

/// Two types fit together: either is `?`, or they are of one kind.
pub open spec fn types_compat(a: TypeV, b: TypeV) -> bool {
    a == unknown() || b == unknown() || type_kind(a) == type_kind(b)
}

/// A numeric type.
pub open spec fn is_numeric(t: TypeV) -> bool {
    match t {
        TypeV::Int | TypeV::Float | TypeV::I8 | TypeV::I16 | TypeV::I32 | TypeV::I64 | TypeV::Uint | TypeV::U8
        | TypeV::U16 | TypeV::U32 | TypeV::U64 | TypeV::F32 | TypeV::F64 => true,
        _ => false,
    }
}

/// `actual` must fit `expected`; `ctx` names the place in the message.
pub open spec fn unify(expected: TypeV, actual: TypeV, ctx: Seq<char>) -> Result<(), Seq<char>> {
    if types_compat(expected, actual) {
        Ok(())
    } else {
        Err("type mismatch in "@ + ctx + ": expected "@ + type_debug(expected) + ", got "@ + type_debug(actual))
    }
}

/// An arithmetic operator.
pub open spec fn is_arith(op: BinOp) -> bool {
    op == BinOp::Add || op == BinOp::Sub || op == BinOp::Mul || op == BinOp::Div || op == BinOp::Mod
}

/// An ordering comparison.
pub open spec fn is_order(op: BinOp) -> bool {
    op == BinOp::Lt || op == BinOp::LtEq || op == BinOp::Gt || op == BinOp::GtEq
}

/// The type of `l op r`.
pub open spec fn binop_type(op: BinOp, l: TypeV, r: TypeV) -> Result<TypeV, Seq<char>> {
    if is_arith(op) {
        if op == BinOp::Add && l == TypeV::String {
            Ok(TypeV::String)
        } else if types_compat(l, r) && is_numeric(l) {
            Ok(l)
        } else {
            Err("type mismatch in arithmetic: "@ + type_debug(l) + " op "@ + type_debug(r))
        }
    } else if op == BinOp::Eq || op == BinOp::NotEq {
        if types_compat(l, r) {
            Ok(TypeV::Bool)
        } else {
            Err("cannot compare "@ + type_debug(l) + " and "@ + type_debug(r))
        }
    } else if is_order(op) {
        if types_compat(l, r) && (is_numeric(l) || l == TypeV::String) {
            Ok(TypeV::Bool)
        } else {
            Err("cannot order-compare "@ + type_debug(l) + " and "@ + type_debug(r))
        }
    } else {
        if l == TypeV::Bool && r == TypeV::Bool {
            Ok(TypeV::Bool)
        } else {
            Err("'&&'/'||' require bool"@)
        }
    }
}

/// The type of an element of a value of type `t` got by indexing.
pub open spec fn index_type(t: TypeV) -> Result<TypeV, Seq<char>> {
    match t {
        TypeV::List(e) => Ok(*e),
        TypeV::SetOf(e) => Ok(*e),
        TypeV::Dict(_, v) => Ok(*v),
        TypeV::Named(_) => Ok(unknown()),
        _ => Err("type "@ + type_debug(t) + " is not indexable"@),
    }
}

/// The type of the loop variable of a `for` over a value of type `t`.
pub open spec fn element_type(t: TypeV) -> Result<TypeV, Seq<char>> {
    match t {
        TypeV::List(e) => Ok(*e),
        TypeV::SetOf(e) => Ok(*e),
        TypeV::Named(n) => if n == "Range"@ { Ok(TypeV::Int) } else { Ok(unknown()) },
        _ => Err("type "@ + type_debug(t) + " is not iterable"@),
    }
}

/// The type of field `name` of a value of type `t`.
pub open spec fn field_type(s: SemSt, t: TypeV, name: Seq<char>) -> Result<TypeV, Seq<char>> {
    match t {
        TypeV::Named(sname) => match assoc(s.structs, sname) {
            Some(fields) => match first_assoc(fields, name) {
                Some(ft) => Ok(ft),
                None => Err("struct '"@ + sname + "' has no field '"@ + name + "'"@),
            },
            None => Ok(unknown()),
        },
        _ => Ok(unknown()),
    }
}

/// The type of a `?` applied to a value of type `t`.
pub open spec fn try_type(t: TypeV) -> Result<TypeV, Seq<char>> {
    match t {
        TypeV::Result(ok, _) => Ok(*ok),
        TypeV::Option(i) => Ok(*i),
        _ => Err("'?' requires Result<T,E> or Option<T>, got "@ + type_debug(t)),
    }
}

/// The types of a signature's parameters.
pub open spec fn sig_param_types(p: Seq<(Seq<char>, TypeV)>) -> Seq<TypeV> {
    p.map_values(|x: (Seq<char>, TypeV)| x.1)
}

/// The types of a lambda's parameters.
pub open spec fn param_types(p: Seq<ParamV>) -> Seq<TypeV> {
    p.map_values(|x: ParamV| x.ty)
}

/// Every parameter defined in the innermost scope, in order.
pub open spec fn define_params(s: SemSt, ps: Seq<ParamV>, skip_self: bool) -> SemSt
    decreases ps.len(),
{
    if ps.len() == 0 {
        s
    } else {
        let s1 = define_params(s, ps.drop_last(), skip_self);
        if skip_self && ps.last().is_self {
            s1
        } else {
            define(s1, ps.last().name, ps.last().ty)
        }
    }
}

/// The variable a match pattern binds, with its type.
pub open spec fn pattern_binding(p: PatternV) -> Option<(Seq<char>, TypeV)> {
    match p {
        PatternV::SomeVal(n) => Some((n, unknown())),
        PatternV::OkVal(n) => Some((n, unknown())),
        PatternV::ErrVal(n) => Some((n, error_type())),
        PatternV::Ident(n) => Some((n, unknown())),
        _ => None,
    }
}

// ------------------------------------------------------------
// Checking expressions and statements
// ------------------------------------------------------------

/// The type of an expression.
pub open spec fn sem_expr(s: SemSt, e: ExprV) -> SemR<TypeV>
    decreases e, 2int,
{
    match e {
        ExprV::Int(_) => (s, Ok(TypeV::Int)),
        ExprV::Float(_) => (s, Ok(TypeV::Float)),
        ExprV::Str(_) => (s, Ok(TypeV::String)),
        ExprV::Bool(_) => (s, Ok(TypeV::Bool)),
        ExprV::Null => (s, Ok(TypeV::Nullable(Box::new(unknown())))),
        ExprV::NoneVal => (s, Ok(TypeV::Option(Box::new(unknown())))),
        ExprV::Ident(name) => match env_lookup(s.scopes, name) {
            Some(t) => (s, Ok(t)),
            None => match assoc(s.fns, name) {
                Some(sig) => (s, Ok(TypeV::Fn(sig_param_types(sig.params), Box::new(sig.ret)))),
                None => (s, Err("undefined variable '"@ + name + "'"@)),
            },
        },
        ExprV::BinOp { op, lhs, rhs } => {
            let (s1, r1) = sem_expr(s, *lhs);
            match r1 {
                Err(m) => (s1, Err(m)),
                Ok(l) => {
                    let (s2, r2) = sem_expr(s1, *rhs);
                    match r2 {
                        Err(m) => (s2, Err(m)),
                        Ok(r) => (s2, binop_type(op, l, r)),
                    }
                },
            }
        },
        ExprV::UnOp { op, expr } => {
            let (s1, r1) = sem_expr(s, *expr);
            match r1 {
                Err(m) => (s1, Err(m)),
                Ok(t) => if op == UnOp::Neg {
                    if is_numeric(t) {
                        (s1, Ok(t))
                    } else {
                        (s1, Err("'-' requires numeric type"@))
                    }
                } else {
                    match unify(TypeV::Bool, t, "'!'"@) {
                        Err(m) => (s1, Err(m)),
                        Ok(_) => (s1, Ok(TypeV::Bool)),
                    }
                },
            }
        },
        ExprV::Call { .. } => sem_call(s, e),
        ExprV::Lambda { .. } => sem_lambda(s, e),
        ExprV::If { .. } => sem_if(s, e),
        ExprV::Match { .. } => sem_match(s, e),
        ExprV::Try(inner) => {
            let (s1, r1) = sem_expr(s, *inner);
            match r1 {
                Err(m) => (s1, Err(m)),
                Ok(t) => (s1, try_type(t)),
            }
        },
        ExprV::Catch { .. } => sem_catch(s, e),
        ExprV::TryBlock(_) => sem_try_block(s, e),
        ExprV::Block(_) => sem_block(s, e),
        ExprV::Field { expr, name } => {
            let (s1, r1) = sem_expr(s, *expr);
            match r1 {
                Err(m) => (s1, Err(m)),
                Ok(t) => (s1, field_type(s1, t, name)),
            }
        },
        ExprV::Index { expr, idx } => {
            let (s1, r1) = sem_expr(s, *expr);
            match r1 {
                Err(m) => (s1, Err(m)),
                Ok(t) => {
                    let (s2, r2) = sem_expr(s1, *idx);
                    match r2 {
                        Err(m) => (s2, Err(m)),
                        Ok(_) => (s2, index_type(t)),
                    }
                },
            }
        },
        ExprV::StructLit { .. } => sem_struct_lit(s, e),
        ExprV::Range { start, end, .. } => {
            let (s1, r1) = sem_expr(s, *start);
            match r1 {
                Err(m) => (s1, Err(m)),
                Ok(_) => {
                    let (s2, r2) = sem_expr(s1, *end);
                    match r2 {
                        Err(m) => (s2, Err(m)),
                        Ok(_) => (s2, Ok(TypeV::Named("Range"@))),
                    }
                },
            }
        },
        ExprV::SomeVal(inner) => {
            let (s1, r1) = sem_expr(s, *inner);
            match r1 {
                Err(m) => (s1, Err(m)),
                Ok(t) => (s1, Ok(TypeV::Option(Box::new(t)))),
            }
        },
        ExprV::OkVal(inner) => {
            let (s1, r1) = sem_expr(s, *inner);
            match r1 {
                Err(m) => (s1, Err(m)),
                Ok(t) => (s1, Ok(TypeV::Result(Box::new(t), Box::new(error_type())))),
            }
        },
        ExprV::ErrVal(inner) => {
            let (s1, r1) = sem_expr(s, *inner);
            match r1 {
                Err(m) => (s1, Err(m)),
                Ok(t) => (s1, Ok(TypeV::Result(Box::new(unknown()), Box::new(t)))),
            }
        },
    }
}

/// The type of a lambda: its body is checked in a scope holding its parameters, with its
/// declared result type (`?` when none is written) current.
pub open spec fn sem_lambda(s: SemSt, e: ExprV) -> SemR<TypeV>
    decreases e, 1int,
{
    match e {
        ExprV::Lambda { params, ret, body } => {
            let s1 = push_scope(s);
            let saved = s1.cur_ret;
            let s2 = SemSt { cur_ret: Some(if ret is Some { ret->0 } else { unknown() }), ..s1 };
            let s3 = define_params(s2, params, false);
            let (s4, r) = sem_expr(s3, *body);
            match r {
                Err(m) => (s4, Err(m)),
                Ok(bt) => (
                    SemSt { cur_ret: saved, ..pop_scope(s4) },
                    Ok(TypeV::Fn(param_types(params), Box::new(bt))),
                ),
            }
        },
        _ => (s, Ok(unknown())),
    }
}

/// The type of a `try:` block: `Result` of its value type and `Error`.
pub open spec fn sem_try_block(s: SemSt, e: ExprV) -> SemR<TypeV>
    decreases e, 1int,
{
    match e {
        ExprV::TryBlock(ss) => {
            let (s1, r) = sem_try_items(push_scope(s), ss, 0, TypeV::Void);
            match r {
                Err(m) => (s1, Err(m)),
                Ok(last) => (pop_scope(s1), Ok(TypeV::Result(Box::new(last), Box::new(error_type())))),
            }
        },
        _ => (s, Ok(unknown())),
    }
}

/// The type of a block used as an expression.
pub open spec fn sem_block(s: SemSt, e: ExprV) -> SemR<TypeV>
    decreases e, 1int,
{
    match e {
        ExprV::Block(ss) => {
            let (s1, r) = sem_block_items(push_scope(s), ss, 0, TypeV::Void);
            match r {
                Err(m) => (s1, Err(m)),
                Ok(last) => (pop_scope(s1), Ok(last)),
            }
        },
        _ => (s, Ok(unknown())),
    }
}

/// The type of a struct literal: each field must be declared and fit its declared type.
pub open spec fn sem_struct_lit(s: SemSt, e: ExprV) -> SemR<TypeV>
    decreases e, 1int,
{
    match e {
        ExprV::StructLit { name, fields } => match assoc(s.structs, name) {
            None => (s, Err("undefined struct '"@ + name + "'"@)),
            Some(def) => {
                let (s1, r) = sem_lit_fields(s, name, def, fields, 0);
                match r {
                    Err(m) => (s1, Err(m)),
                    Ok(_) => (s1, Ok(TypeV::Named(name))),
                }
            },
        },
        _ => (s, Ok(unknown())),
    }
}

/// The type of a call `func(args)`.
pub open spec fn sem_call(s: SemSt, e: ExprV) -> SemR<TypeV>
    decreases e, 1int,
{
    match e {
        ExprV::Call { func, args } => {
            let (s1, r1) = sem_expr(s, *func);
            match r1 {
                Err(m) => (s1, Err(m)),
                Ok(ft) => match ft {
                    TypeV::Fn(ptys, ret) => if args.len() != ptys.len() {
                        (s1, Err("expected "@ + decimal(ptys.len()) + " args, got "@ + decimal(args.len())))
                    } else {
                        let (s2, r2) = sem_typed_args(s1, args, ptys, 0);
                        match r2 {
                            Err(m) => (s2, Err(m)),
                            Ok(_) => (s2, Ok(*ret)),
                        }
                    },
                    _ => {
                        let known: Option<SigV> = match *func {
                            ExprV::Ident(name) => assoc(s1.fns, name),
                            _ => None,
                        };
                        let (s2, r2) = sem_args(s1, args, 0);
                        match r2 {
                            Err(m) => (s2, Err(m)),
                            Ok(_) => match known {
                                Some(sig) => (s2, Ok(sig.ret)),
                                None => (s2, Ok(unknown())),
                            },
                        }
                    },
                },
            }
        },
        _ => (s, Ok(unknown())),
    }
}

/// Arguments from `i` on, each checked against its parameter type.
pub open spec fn sem_typed_args(s: SemSt, args: Seq<ExprV>, ptys: Seq<TypeV>, i: int) -> SemR<()>
    decreases args, args.len() - i,
{
    if i < 0 || i >= args.len() {
        (s, Ok(()))
    } else {
        let (s1, r1) = sem_expr(s, args[i]);
        match r1 {
            Err(m) => (s1, Err(m)),
            Ok(at) => match unify(ptys[i], at, "argument"@) {
                Err(m) => (s1, Err(m)),
                Ok(_) => sem_typed_args(s1, args, ptys, i + 1),
            },
        }
    }
}

/// Arguments from `i` on, each inferred.
pub open spec fn sem_args(s: SemSt, args: Seq<ExprV>, i: int) -> SemR<()>
    decreases args, args.len() - i,
{
    if i < 0 || i >= args.len() {
        (s, Ok(()))
    } else {
        let (s1, r1) = sem_expr(s, args[i]);
        match r1 {
            Err(m) => (s1, Err(m)),
            Ok(_) => sem_args(s1, args, i + 1),
        }
    }
}

/// The type of an `if` expression.
pub open spec fn sem_if(s: SemSt, e: ExprV) -> SemR<TypeV>
    decreases e, 1int,
{
    match e {
        ExprV::If { cond, then, elifs, else_ } => {
            let (s1, r1) = sem_expr(s, *cond);
            match r1 {
                Err(m) => (s1, Err(m)),
                Ok(c) => match unify(TypeV::Bool, c, "if condition"@) {
                    Err(m) => (s1, Err(m)),
                    Ok(_) => {
                        let (s2, r2) = sem_expr(s1, *then);
                        match r2 {
                            Err(m) => (s2, Err(m)),
                            Ok(tt) => {
                                let (s3, r3) = sem_elifs(s2, elifs, 0, tt);
                                match r3 {
                                    Err(m) => (s3, Err(m)),
                                    Ok(_) => match else_ {
                                        None => (s3, Ok(TypeV::Void)),
                                        Some(eb) => {
                                            let (s4, r4) = sem_expr(s3, *eb);
                                            match r4 {
                                                Err(m) => (s4, Err(m)),
                                                Ok(et) => match unify(tt, et, "else branch"@) {
                                                    Err(m) => (s4, Err(m)),
                                                    Ok(_) => (s4, Ok(tt)),
                                                },
                                            }
                                        },
                                    },
                                }
                            },
                        }
                    },
                },
            }
        },
        _ => (s, Ok(unknown())),
    }
}

/// The `elif` parts from `i` on, each branch fitting `tt`.
pub open spec fn sem_elifs(s: SemSt, elifs: Seq<(ExprV, ExprV)>, i: int, tt: TypeV) -> SemR<()>
    decreases elifs, elifs.len() - i,
{
    if i < 0 || i >= elifs.len() {
        (s, Ok(()))
    } else {
        let (s1, r1) = sem_expr(s, elifs[i].0);
        match r1 {
            Err(m) => (s1, Err(m)),
            Ok(c) => match unify(TypeV::Bool, c, "elif condition"@) {
                Err(m) => (s1, Err(m)),
                Ok(_) => {
                    let (s2, r2) = sem_expr(s1, elifs[i].1);
                    match r2 {
                        Err(m) => (s2, Err(m)),
                        Ok(bt) => match unify(tt, bt, "elif branch"@) {
                            Err(m) => (s2, Err(m)),
                            Ok(_) => sem_elifs(s2, elifs, i + 1, tt),
                        },
                    }
                },
            },
        }
    }
}

/// The type of a `match` expression: that of its first arm.
pub open spec fn sem_match(s: SemSt, e: ExprV) -> SemR<TypeV>
    decreases e, 1int,
{
    match e {
        ExprV::Match { expr, arms } => {
            let (s1, r1) = sem_expr(s, *expr);
            match r1 {
                Err(m) => (s1, Err(m)),
                Ok(_) => if arms.len() == 0 {
                    (s1, Ok(TypeV::Void))
                } else {
                    let (s2, r2) = sem_arm(s1, arms[0]);
                    match r2 {
                        Err(m) => (s2, Err(m)),
                        Ok(first) => {
                            let (s3, r3) = sem_arms(s2, arms, 1, first);
                            match r3 {
                                Err(m) => (s3, Err(m)),
                                Ok(_) => (s3, Ok(first)),
                            }
                        },
                    }
                },
            }
        },
        _ => (s, Ok(unknown())),
    }
}

/// The arms from `i` on, each fitting `first`.
pub open spec fn sem_arms(s: SemSt, arms: Seq<ArmV>, i: int, first: TypeV) -> SemR<()>
    decreases arms, arms.len() - i,
{
    if i < 0 || i >= arms.len() {
        (s, Ok(()))
    } else {
        let (s1, r1) = sem_arm(s, arms[i]);
        match r1 {
            Err(m) => (s1, Err(m)),
            Ok(t) => match unify(first, t, "match arm"@) {
                Err(m) => (s1, Err(m)),
                Ok(_) => sem_arms(s1, arms, i + 1, first),
            },
        }
    }
}

/// The type of one arm, with the variable its pattern binds in a scope of its own.
pub open spec fn sem_arm(s: SemSt, arm: ArmV) -> SemR<TypeV>
    decreases arm, 2int,
{
    let s1 = push_scope(s);
    let s2 = match pattern_binding(arm.pattern) {
        Some((n, t)) => define(s1, n, t),
        None => s1,
    };
    let (s3, r) = sem_expr(s2, arm.body);
    match r {
        Err(m) => (s3, Err(m)),
        Ok(t) => (pop_scope(s3), Ok(t)),
    }
}

/// The type of a `catch` expression.
pub open spec fn sem_catch(s: SemSt, e: ExprV) -> SemR<TypeV>
    decreases e, 1int,
{
    match e {
        ExprV::Catch { expr, handler } => {
            let (s1, r1) = sem_expr(s, *expr);
            match r1 {
                Err(m) => (s1, Err(m)),
                Ok(t) => match handler {
                    HandlerV::Default(d) => {
                        let (s2, r2) = sem_expr(s1, *d);
                        match r2 {
                            Err(m) => (s2, Err(m)),
                            Ok(dt) => match t {
                                TypeV::Result(ok, _) => match unify(*ok, dt, "catch"@) {
                                    Err(m) => (s2, Err(m)),
                                    Ok(_) => (s2, Ok(*ok)),
                                },
                                TypeV::Option(i) => match unify(*i, dt, "catch"@) {
                                    Err(m) => (s2, Err(m)),
                                    Ok(_) => (s2, Ok(*i)),
                                },
                                _ => (s2, Ok(dt)),
                            },
                        }
                    },
                    HandlerV::WithErr(name, body) => {
                        let (s2, r2) = sem_expr(define(push_scope(s1), name, error_type()), *body);
                        match r2 {
                            Err(m) => (s2, Err(m)),
                            Ok(bt) => (pop_scope(s2), Ok(bt)),
                        }
                    },
                    HandlerV::WithErrBlock(name, ss) => {
                        let (s2, r2) = sem_stmts(define(push_scope(s1), name, error_type()), ss, 0);
                        match r2 {
                            Err(m) => (s2, Err(m)),
                            Ok(_) => (pop_scope(s2), Ok(TypeV::Void)),
                        }
                    },
                },
            }
        },
        _ => (s, Ok(unknown())),
    }
}

/// The fields of a struct literal from `i` on, each fitting its declared type.
pub open spec fn sem_lit_fields(
    s: SemSt,
    sname: Seq<char>,
    def: Seq<(Seq<char>, TypeV)>,
    fields: Seq<(Seq<char>, ExprV)>,
    i: int,
) -> SemR<()>
    decreases fields, fields.len() - i,
{
    if i < 0 || i >= fields.len() {
        (s, Ok(()))
    } else {
        match first_assoc(def, fields[i].0) {
            None => (s, Err("struct '"@ + sname + "' has no field '"@ + fields[i].0 + "'"@)),
            Some(expected) => {
                let (s1, r1) = sem_expr(s, fields[i].1);
                match r1 {
                    Err(m) => (s1, Err(m)),
                    Ok(at) => match unify(expected, at, fields[i].0) {
                        Err(m) => (s1, Err(m)),
                        Ok(_) => sem_lit_fields(s1, sname, def, fields, i + 1),
                    },
                }
            },
        }
    }
}

/// The statements of a block expression from `i` on; its type is that of the last
/// expression or `return` value, `Void` after any other statement.
pub open spec fn sem_block_items(s: SemSt, ss: Seq<StmtV>, i: int, last: TypeV) -> SemR<TypeV>
    decreases ss, ss.len() - i,
{
    if i < 0 || i >= ss.len() {
        (s, Ok(last))
    } else {
        let (s1, r1): SemR<TypeV> = match ss[i] {
            StmtV::Expr(x) => sem_expr(s, x),
            StmtV::Return(Some(x)) => sem_expr(s, x),
            _ => {
                let (s0, r0) = sem_stmt(s, ss[i]);
                match r0 {
                    Err(m) => (s0, Err(m)),
                    Ok(_) => (s0, Ok(TypeV::Void)),
                }
            },
        };
        match r1 {
            Err(m) => (s1, Err(m)),
            Ok(t) => sem_block_items(s1, ss, i + 1, t),
        }
    }
}

/// The statements of a `try:` block from `i` on; its value type is that of the last
/// expression statement, `Void` after any other statement.
pub open spec fn sem_try_items(s: SemSt, ss: Seq<StmtV>, i: int, last: TypeV) -> SemR<TypeV>
    decreases ss, ss.len() - i,
{
    if i < 0 || i >= ss.len() {
        (s, Ok(last))
    } else {
        let (s1, r1): SemR<TypeV> = match ss[i] {
            StmtV::Expr(x) => sem_expr(s, x),
            _ => {
                let (s0, r0) = sem_stmt(s, ss[i]);
                match r0 {
                    Err(m) => (s0, Err(m)),
                    Ok(_) => (s0, Ok(TypeV::Void)),
                }
            },
        };
        match r1 {
            Err(m) => (s1, Err(m)),
            Ok(t) => sem_try_items(s1, ss, i + 1, t),
        }
    }
}

/// The statements from `i` on, checked in order.
pub open spec fn sem_stmts(s: SemSt, ss: Seq<StmtV>, i: int) -> SemR<()>
    decreases ss, ss.len() - i,
{
    if i < 0 || i >= ss.len() {
        (s, Ok(()))
    } else {
        let (s1, r1) = sem_stmt(s, ss[i]);
        match r1 {
            Err(m) => (s1, Err(m)),
            Ok(_) => sem_stmts(s1, ss, i + 1),
        }
    }
}

/// A `let` or `mut` declaration: the value's type must fit the declared one, which wins.
pub open spec fn sem_decl(s: SemSt, name: Seq<char>, ty: Option<TypeV>, value: ExprV, kw: Seq<char>) -> SemR<()>
    decreases value, 3int,
{
    let (s1, r1) = sem_expr(s, value);
    match r1 {
        Err(m) => (s1, Err(m)),
        Ok(inferred) => match ty {
            Some(declared) => match unify(declared, inferred, kw + " '"@ + name + "'"@) {
                Err(m) => (s1, Err(m)),
                Ok(_) => (define(s1, name, declared), Ok(())),
            },
            None => (define(s1, name, inferred), Ok(())),
        },
    }
}

/// A loop body in a scope of its own.
pub open spec fn sem_scoped(s: SemSt, body: Seq<StmtV>) -> SemR<()>
    decreases body, body.len() + 1,
{
    let (s1, r) = sem_stmts(push_scope(s), body, 0);
    match r {
        Err(m) => (s1, Err(m)),
        Ok(_) => (pop_scope(s1), Ok(())),
    }
}

/// A statement.
pub open spec fn sem_stmt(s: SemSt, st: StmtV) -> SemR<()>
    decreases st, 4int,
{
    match st {
        StmtV::Let { name, ty, value } => sem_decl(s, name, ty, value, "let"@),
        StmtV::Mut { name, ty, value } => sem_decl(s, name, ty, value, "mut"@),
        StmtV::Assign { target, value } => {
            let (s1, r1) = sem_expr(s, target);
            match r1 {
                Err(m) => (s1, Err(m)),
                Ok(tt) => {
                    let (s2, r2) = sem_expr(s1, value);
                    match r2 {
                        Err(m) => (s2, Err(m)),
                        Ok(vt) => (s2, unify(tt, vt, "assignment"@)),
                    }
                },
            }
        },
        StmtV::Return(x) => {
            let expected = match s.cur_ret {
                Some(t) => t,
                None => TypeV::Void,
            };
            match x {
                None => (s, unify(expected, TypeV::Void, "return"@)),
                Some(v) => {
                    let (s1, r1) = sem_expr(s, v);
                    match r1 {
                        Err(m) => (s1, Err(m)),
                        Ok(at) => (s1, unify(expected, at, "return"@)),
                    }
                },
            }
        },
        StmtV::Expr(x) => {
            let (s1, r1) = sem_expr(s, x);
            match r1 {
                Err(m) => (s1, Err(m)),
                Ok(_) => (s1, Ok(())),
            }
        },
        StmtV::For { var, iter, body } => {
            let (s1, r1) = sem_expr(s, iter);
            match r1 {
                Err(m) => (s1, Err(m)),
                Ok(it) => match element_type(it) {
                    Err(m) => (s1, Err(m)),
                    Ok(et) => {
                        let (s2, r2) = sem_stmts(define(push_scope(s1), var, et), body, 0);
                        match r2 {
                            Err(m) => (s2, Err(m)),
                            Ok(_) => (pop_scope(s2), Ok(())),
                        }
                    },
                },
            }
        },
        StmtV::While { cond, body } => {
            let (s1, r1) = sem_expr(s, cond);
            match r1 {
                Err(m) => (s1, Err(m)),
                Ok(c) => match unify(TypeV::Bool, c, "while condition"@) {
                    Err(m) => (s1, Err(m)),
                    Ok(_) => sem_scoped(s1, body),
                },
            }
        },
        StmtV::Loop(body) => sem_scoped(s, body),
        StmtV::Break => (s, Ok(())),
        StmtV::Continue => (s, Ok(())),
    }
}

// ------------------------------------------------------------
// Programs
// ------------------------------------------------------------

/// A function's signature as declared: the parameters other than `self`, and the result
/// type (`Void` when none is written).
pub open spec fn fn_sig(params: Seq<ParamV>, ret: Option<TypeV>) -> SigV {
    SigV {
        params: sig_params(params),
        ret: match ret {
            Some(t) => t,
            None => TypeV::Void,
        },
    }
}

/// The parameters other than `self`, with their types.
pub open spec fn sig_params(ps: Seq<ParamV>) -> Seq<(Seq<char>, TypeV)>
    decreases ps.len(),
{
    if ps.len() == 0 {
        Seq::empty()
    } else {
        let rest = sig_params(ps.drop_last());
        if ps.last().is_self {
            rest
        } else {
            rest.push((ps.last().name, ps.last().ty))
        }
    }
}

/// The signatures of an impl's methods, each under `Type::method`, from `i` on.
pub open spec fn collect_methods(s: SemSt, tname: Seq<char>, ms: Seq<TopV>, i: int) -> SemSt
    decreases ms.len() - i,
{
    if i < 0 || i >= ms.len() {
        s
    } else {
        let s1 = match ms[i] {
            TopV::Fn { name, params, ret, .. } => SemSt {
                fns: s.fns.push((tname + "::"@ + name, fn_sig(params, ret))),
                ..s
            },
            _ => s,
        };
        collect_methods(s1, tname, ms, i + 1)
    }
}

/// The name an imported module is known by: its alias, or else its own name.
pub open spec fn bound_name(name: Seq<char>, alias: Option<Seq<char>>) -> Seq<char> {
    match alias {
        Some(a) => a,
        None => name,
    }
}

/// The names of a `from` import defined, each with the wildcard type `?`.
pub open spec fn define_imports(s: SemSt, names: Seq<(Seq<char>, Option<Seq<char>>)>) -> SemSt
    decreases names.len(),
{
    if names.len() == 0 {
        s
    } else {
        define(define_imports(s, names.drop_last()), bound_name(names.last().0, names.last().1), unknown())
    }
}

/// The declarations of one item recorded: a function's signature, a struct's fields, the
/// signatures of an impl's methods, or the modules an import binds (as variables of the
/// wildcard type `?`, in the scope the program is checked in).
pub open spec fn collect_decl(s: SemSt, item: TopV) -> SemSt {
    match item {
        TopV::Fn { name, params, ret, .. } => SemSt { fns: s.fns.push((name, fn_sig(params, ret))), ..s },
        TopV::Struct { name, fields } => SemSt { structs: s.structs.push((name, fields)), ..s },
        TopV::Impl { name, methods } => collect_methods(s, name, methods, 0),
        TopV::Import { path, alias } => if alias is Some || path.len() > 0 {
            define(s, bound_name(path.last(), alias), unknown())
        } else {
            s
        },
        TopV::FromImport { names, .. } => define_imports(s, names),
    }
}

/// The declarations of the items from `i` on recorded.
pub open spec fn collect_all(s: SemSt, items: Seq<TopV>, i: int) -> SemSt
    decreases items.len() - i,
{
    if i < 0 || i >= items.len() {
        s
    } else {
        collect_all(collect_decl(s, items[i]), items, i + 1)
    }
}

/// A function body checked in a scope holding its parameters, with its result type current.
/// In a method of type `T` (`self_ty` is `Some(T)`) whose first parameter is `self`, `self`
/// is a variable of type `T`.
pub open spec fn sem_fn(
    s: SemSt,
    params: Seq<ParamV>,
    ret: Option<TypeV>,
    body: Seq<StmtV>,
    self_ty: Option<TypeV>,
) -> SemR<()> {
    let s1 = SemSt {
        cur_ret: Some(match ret {
            Some(t) => t,
            None => TypeV::Void,
        }),
        ..push_scope(s)
    };
    let s2 = if self_ty is Some && params.len() > 0 && params[0].is_self {
        define(s1, "self"@, self_ty->0)
    } else {
        s1
    };
    let (s3, r) = sem_stmts(define_params(s2, params, true), body, 0);
    match r {
        Err(m) => (s3, Err(m)),
        Ok(_) => (SemSt { cur_ret: None, ..pop_scope(s3) }, Ok(())),
    }
}

/// An item checked: functions, and the methods of impls.
pub open spec fn sem_top(s: SemSt, item: TopV) -> SemR<()>
    decreases item, 1int,
{
    match item {
        TopV::Fn { params, ret, body, .. } => sem_fn(s, params, ret, body, None),
        TopV::Impl { name, methods } => sem_methods(s, name, methods, 0),
        _ => (s, Ok(())),
    }
}

/// The methods of type `tname` from `i` on, checked in order.
pub open spec fn sem_methods(s: SemSt, tname: Seq<char>, ms: Seq<TopV>, i: int) -> SemR<()>
    decreases ms, ms.len() - i,
{
    if i < 0 || i >= ms.len() {
        (s, Ok(()))
    } else {
        let (s1, r1) = match ms[i] {
            TopV::Fn { params, ret, body, .. } => sem_fn(s, params, ret, body, Some(TypeV::Named(tname))),
            _ => sem_top(s, ms[i]),
        };
        match r1 {
            Err(m) => (s1, Err(m)),
            Ok(_) => sem_methods(s1, tname, ms, i + 1),
        }
    }
}

/// The items from `i` on, checked in order.
pub open spec fn sem_tops(s: SemSt, items: Seq<TopV>, i: int) -> SemR<()>
    decreases items, items.len() - i,
{
    if i < 0 || i >= items.len() {
        (s, Ok(()))
    } else {
        let (s1, r1) = sem_top(s, items[i]);
        match r1 {
            Err(m) => (s1, Err(m)),
            Ok(_) => sem_tops(s1, items, i + 1),
        }
    }
}

/// A whole program: every declaration recorded first, then every item checked.
pub open spec fn sem_program(s: SemSt, items: Seq<TopV>) -> SemR<()> {
    sem_tops(collect_all(s, items, 0), items, 0)
}

/// The builtin functions.
pub open spec fn builtin_fns() -> Seq<(Seq<char>, SigV)> {
    seq![
        ("print"@, SigV { params: seq![("_0"@, TypeV::String)], ret: TypeV::Void }),
        ("println"@, SigV { params: seq![("_0"@, TypeV::String)], ret: TypeV::Void }),
        ("read_line"@, SigV { params: Seq::empty(), ret: TypeV::String }),
        ("len"@, SigV { params: seq![("_0"@, unknown())], ret: TypeV::Int }),
        ("str"@, SigV { params: seq![("_0"@, unknown())], ret: TypeV::String }),
        ("int"@, SigV { params: seq![("_0"@, unknown())], ret: TypeV::Int }),
        ("float"@, SigV { params: seq![("_0"@, unknown())], ret: TypeV::Float }),
    ]
}

/// A fresh analyzer: one empty scope and the builtin functions.
pub open spec fn initial_state() -> SemSt {
    SemSt { scopes: seq![Seq::empty()], fns: builtin_fns(), structs: Seq::empty(), cur_ret: None }
}

// ------------------------------------------------------------
// Laws
// ------------------------------------------------------------

/// Type compatibility is reflexive and symmetric: every type fits itself, and `a` fits `b`
/// exactly when `b` fits `a`.
pub proof fn law_types_compat_reflexive_symmetric(a: TypeV, b: TypeV)
    ensures
        types_compat(a, a),
        types_compat(a, b) == types_compat(b, a),
{
}

/// A type always unifies with itself, and the wildcard `?` unifies with every type on
/// either side.
pub proof fn law_unify_accepts_self_and_wildcard(t: TypeV, ctx: Seq<char>)
    ensures
        unify(t, t, ctx) == Ok::<(), Seq<char>>(()),
        unify(unknown(), t, ctx) == Ok::<(), Seq<char>>(()),
        unify(t, unknown(), ctx) == Ok::<(), Seq<char>>(()),
{
}

/// The entries of one scope: the latest entry for a name is the one just added, and
/// adding an entry leaves every other name as it was.
pub proof fn lemma_assoc_push<V>(sc: Seq<(Seq<char>, V)>, k: Seq<char>, v: V, x: Seq<char>)
    ensures
        assoc(sc.push((k, v)), x) == (if x == k { Some(v) } else { assoc(sc, x) }),
{
    assert(sc.push((k, v)).drop_last() =~= sc);
}

/// Reading a variable back: once `k` is defined with type `t`, looking `k` up gives `t`
/// (it shadows any outer definition), and every other name looks up as before.
pub proof fn law_lookup_after_define(s: SemSt, k: Seq<char>, t: TypeV, x: Seq<char>)
    requires
        s.scopes.len() > 0,
    ensures
        env_lookup(define(s, k, t).scopes, k) == Some(t),
        x != k ==> env_lookup(define(s, k, t).scopes, x) == env_lookup(s.scopes, x),
{
    let d = define(s, k, t).scopes;
    assert(d.last() == s.scopes.last().push((k, t)));
    assert(d.drop_last() =~= s.scopes.drop_last());
    lemma_assoc_push(s.scopes.last(), k, t, k);
    lemma_assoc_push(s.scopes.last(), k, t, x);
}

/// Opening a scope hides nothing: every name looks up as it did before.
pub proof fn law_lookup_in_new_scope(s: SemSt, x: Seq<char>)
    ensures
        env_lookup(push_scope(s).scopes, x) == env_lookup(s.scopes, x),
{
    let p = push_scope(s).scopes;
    assert(p.drop_last() =~= s.scopes);
    assert(assoc(p.last(), x) == None::<TypeV>);
}

/// Closing a scope undoes opening it, together with whatever was defined inside: the
/// state is the one before the scope was opened.
pub proof fn law_scope_close_undoes_open(s: SemSt, k: Seq<char>, t: TypeV)
    ensures
        pop_scope(push_scope(s)) == s,
        pop_scope(define(push_scope(s), k, t)) == s,
{
    assert(push_scope(s).scopes.drop_last() =~= s.scopes);
    assert(define(push_scope(s), k, t).scopes.drop_last() =~= s.scopes);
}

/// A comparison is a truth value: `==`, `!=`, `<`, `<=`, `>`, `>=` on operands of any
/// types give `Bool` when they check, and `==`, `!=` check exactly on compatible operands.
pub proof fn law_comparisons_are_bool(op: BinOp, l: TypeV, r: TypeV)
    requires
        op == BinOp::Eq || op == BinOp::NotEq || op == BinOp::Lt || op == BinOp::LtEq || op == BinOp::Gt
            || op == BinOp::GtEq,
    ensures
        binop_type(op, l, r) is Ok ==> binop_type(op, l, r) == Ok::<TypeV, Seq<char>>(TypeV::Bool),
        (op == BinOp::Eq || op == BinOp::NotEq) ==> (binop_type(op, l, r) is Ok <==> types_compat(l, r)),
{
}

/// Checking a comparison expression that passes gives `Bool`, whatever its operands are.
pub proof fn law_comparison_expressions_are_bool(s: SemSt, op: BinOp, lhs: ExprV, rhs: ExprV)
    requires
        op == BinOp::Eq || op == BinOp::NotEq || op == BinOp::Lt || op == BinOp::LtEq || op == BinOp::Gt
            || op == BinOp::GtEq,
    ensures
        sem_expr(s, ExprV::BinOp { op, lhs: Box::new(lhs), rhs: Box::new(rhs) }).1 matches Ok(t) ==> t
            == TypeV::Bool,
{
    let (s1, r1) = sem_expr(s, lhs);
    match r1 {
        Ok(lt) => {
            let (s2, r2) = sem_expr(s1, rhs);
            match r2 {
                Ok(rt) => law_comparisons_are_bool(op, lt, rt),
                Err(_) => {},
            }
        },
        Err(_) => {},
    }
}

} // verus!
