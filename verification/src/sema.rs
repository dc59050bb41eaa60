//! The semantic analyzer: type checking and inference in two passes.
//!
//! Each routine is proved to give what its counterpart in `sema_spec` describes.
use vstd::prelude::*;
use crate::ast::{
    lemma_types_view_index, lemma_types_view_push, opt_type_view, type_view, types_view, BinOp, Type, TypeV,
};
use crate::sema_spec::{
    assoc, binop_type, element_type, env_lookup, first_assoc, index_type, is_arith, is_numeric, is_order, type_debug,
    type_kind, types_compat, types_debug, unify, unknown, SemSt, SigV,
};
use crate::text::{decimal, push_decimal, push_str};
use crate::token::{debug_str, str_debug};

mod infer;
mod check;

verus! {

/// A semantic error. The analyzer reports no position: `line` and `col` are 0.
#[derive(Debug)]
pub struct SemaError {
    pub message: String,
    pub line: usize,
    pub col: usize,
}

impl SemaError {
    /// The text shown for this error: `[Sema Error] <message>`, followed by
    /// ` (line <l>, col <c>)` when the line is known (not 0).
    pub fn to_display_string(&self) -> (r: String)
        ensures
            r@ == "[Sema Error] "@ + self.message@ + if self.line > 0 {
                " (line "@ + decimal(self.line as nat) + ", col "@ + decimal(self.col as nat) + ")"@
            } else {
                Seq::empty()
            },
    {
        let mut s = String::from_str("[Sema Error] ");
        push_str(&mut s, self.message.as_str());
        if self.line > 0 {
            push_str(&mut s, " (line ");
            push_decimal(&mut s, self.line as u64);
            push_str(&mut s, ", col ");
            push_decimal(&mut s, self.col as u64);
            push_str(&mut s, ")");
        } else {
            assert(s@ + Seq::<char>::empty() =~= s@);
        }
        s
    }
}

/// An error with the given message.
fn sema_err(message: String) -> (e: SemaError)
    ensures
        e.message@ == message@,
        e.line == 0,
        e.col == 0,
{
    SemaError { message, line: 0, col: 0 }
}

/// A copy of a type.
pub fn clone_type(t: &Type) -> (r: Type)
    ensures
        r@ == t@,
    decreases t,
{
    match t {
        Type::Int => Type::Int,
        Type::Float => Type::Float,
        Type::String => Type::String,
        Type::Str => Type::Str,
        Type::Bool => Type::Bool,
        Type::Char => Type::Char,
        Type::Byte => Type::Byte,
        Type::Void => Type::Void,
        Type::I8 => Type::I8,
        Type::I16 => Type::I16,
        Type::I32 => Type::I32,
        Type::I64 => Type::I64,
        Type::Uint => Type::Uint,
        Type::U8 => Type::U8,
        Type::U16 => Type::U16,
        Type::U32 => Type::U32,
        Type::U64 => Type::U64,
        Type::F32 => Type::F32,
        Type::F64 => Type::F64,
        Type::List(a) => Type::List(Box::new(clone_type(a))),
        Type::Dict(a, b) => Type::Dict(Box::new(clone_type(a)), Box::new(clone_type(b))),
        Type::Tuple(v) => Type::Tuple(clone_types(v)),
        Type::SetOf(a) => Type::SetOf(Box::new(clone_type(a))),
        Type::Option(a) => Type::Option(Box::new(clone_type(a))),
        Type::Result(a, b) => Type::Result(Box::new(clone_type(a)), Box::new(clone_type(b))),
        Type::Nullable(a) => Type::Nullable(Box::new(clone_type(a))),
        Type::Union(v) => Type::Union(clone_types(v)),
        Type::Fn(v, r) => Type::Fn(clone_types(v), Box::new(clone_type(r))),
        Type::Named(n) => Type::Named(n.clone()),
        Type::Generic(n, v) => Type::Generic(n.clone(), clone_types(v)),
    }
}

/// A copy of a list of types.
pub fn clone_types(v: &Vec<Type>) -> (r: Vec<Type>)
    ensures
        types_view(r@) == types_view(v@),
    decreases v,
{
    let mut out: Vec<Type> = Vec::new();
    let mut i: usize = 0;
    proof {
        lemma_types_view_index(v@);
    }
    while i < v.len()
        invariant
            i <= v.len(),
            types_view(out@) == types_view(v@).take(i as int),
            types_view(v@).len() == v@.len(),
            forall|j: int| 0 <= j < v@.len() ==> #[trigger] types_view(v@)[j] == type_view(v@[j]),
        decreases v.len() - i,
    {
        proof {
            assert(decreases_to!(v => v@[i as int]));
        }
        let c = clone_type(&v[i]);
        proof {
            lemma_types_view_push(out@, c);
            assert(types_view(v@).take(i + 1) =~= types_view(v@).take(i as int).push(type_view(v@[i as int])));
        }
        out.push(c);
        i += 1;
    }
    assert(types_view(v@).take(i as int) =~= types_view(v@));
    out
}

/// Appends a type as its derived `Debug` writes it.
pub fn push_type_debug(out: &mut String, t: &Type)
    ensures
        final(out)@ == old(out)@ + type_debug(t@),
    decreases t,
{
    match t {
        Type::Int => push_str(out, "Int"),
        Type::Float => push_str(out, "Float"),
        Type::String => push_str(out, "String"),
        Type::Str => push_str(out, "Str"),
        Type::Bool => push_str(out, "Bool"),
        Type::Char => push_str(out, "Char"),
        Type::Byte => push_str(out, "Byte"),
        Type::Void => push_str(out, "Void"),
        Type::I8 => push_str(out, "I8"),
        Type::I16 => push_str(out, "I16"),
        Type::I32 => push_str(out, "I32"),
        Type::I64 => push_str(out, "I64"),
        Type::Uint => push_str(out, "Uint"),
        Type::U8 => push_str(out, "U8"),
        Type::U16 => push_str(out, "U16"),
        Type::U32 => push_str(out, "U32"),
        Type::U64 => push_str(out, "U64"),
        Type::F32 => push_str(out, "F32"),
        Type::F64 => push_str(out, "F64"),
        Type::List(a) => {
            push_str(out, "List(");
            push_type_debug(out, a);
            push_str(out, ")");
        },
        Type::Dict(a, b) => {
            push_str(out, "Dict(");
            push_type_debug(out, a);
            push_str(out, ", ");
            push_type_debug(out, b);
            push_str(out, ")");
        },
        Type::Tuple(v) => {
            push_str(out, "Tuple([");
            push_types_debug(out, v);
            push_str(out, "])");
        },
        Type::SetOf(a) => {
            push_str(out, "Set(");
            push_type_debug(out, a);
            push_str(out, ")");
        },
        Type::Option(a) => {
            push_str(out, "Option(");
            push_type_debug(out, a);
            push_str(out, ")");
        },
        Type::Result(a, b) => {
            push_str(out, "Result(");
            push_type_debug(out, a);
            push_str(out, ", ");
            push_type_debug(out, b);
            push_str(out, ")");
        },
        Type::Nullable(a) => {
            push_str(out, "Nullable(");
            push_type_debug(out, a);
            push_str(out, ")");
        },
        Type::Union(v) => {
            push_str(out, "Union([");
            push_types_debug(out, v);
            push_str(out, "])");
        },
        Type::Fn(v, r) => {
            push_str(out, "Fn([");
            push_types_debug(out, v);
            push_str(out, "], ");
            push_type_debug(out, r);
            push_str(out, ")");
        },
        Type::Named(n) => {
            push_str(out, "Named(");
            let d = debug_str(n.as_str());
            push_str(out, d.as_str());
            push_str(out, ")");
        },
        Type::Generic(n, v) => {
            push_str(out, "Generic(");
            let d = debug_str(n.as_str());
            push_str(out, d.as_str());
            push_str(out, ", [");
            push_types_debug(out, v);
            push_str(out, "])");
        },
    }
}

/// Appends a list of types separated by `, `.
pub fn push_types_debug(out: &mut String, v: &Vec<Type>)
    ensures
        final(out)@ == old(out)@ + types_debug(types_view(v@)),
    decreases v,
{
    let ghost start = out@;
    let ghost tv = types_view(v@);
    proof {
        lemma_types_view_index(v@);
    }
    let mut i: usize = 0;
    while i < v.len()
        invariant
            i <= v.len(),
            tv == types_view(v@),
            tv.len() == v@.len(),
            forall|j: int| 0 <= j < v@.len() ==> #[trigger] tv[j] == type_view(v@[j]),
            out@ == start + types_debug(tv.take(i as int)),
        decreases v.len() - i,
    {
        proof {
            assert(decreases_to!(v => v@[i as int]));
            assert(tv.take(i + 1).drop_last() =~= tv.take(i as int));
        }
        if i > 0 {
            push_str(out, ", ");
        }
        push_type_debug(out, &v[i]);
        proof {
            if i == 0 {
                assert(tv.take(1) =~= seq![tv[0]]);
                assert(types_debug(tv.take(0)) =~= Seq::<char>::empty());
            }
            assert(out@ =~= start + types_debug(tv.take(i + 1)));
        }
        i += 1;
    }
    assert(tv.take(i as int) =~= tv);
}


/// The views of named types.
pub open spec fn entries_view(s: Seq<(String, Type)>) -> Seq<(Seq<char>, TypeV)> {
    s.map_values(|e: (String, Type)| (e.0@, e.1@))
}

/// The scopes after a new innermost scope is opened on `scopes` and `k` defined in it with
/// type `t`, as `TypeEnv::push` then `TypeEnv::define` leave them.
pub open spec fn open_and_define(
    scopes: Seq<Seq<(Seq<char>, TypeV)>>,
    k: Seq<char>,
    t: TypeV,
) -> Seq<Seq<(Seq<char>, TypeV)>> {
    let opened = scopes.push(Seq::empty());
    opened.update(opened.len() - 1, opened.last().push((k, t)))
}

/// Shadowing in nested scopes: once a scope is opened and `k` defined in it, looking `k` up
/// gives the new type, whatever outer scopes say of `k`; closing that scope again (as
/// `TypeEnv::pop` does) gives back the scopes before, so every lookup is as it was, an outer
/// binding of `k` or its absence.
pub proof fn law_scope_shadowing(scopes: Seq<Seq<(Seq<char>, TypeV)>>, k: Seq<char>, t: TypeV, x: Seq<char>)
    ensures
        env_lookup(open_and_define(scopes, k, t), k) == Some(t),
        open_and_define(scopes, k, t).drop_last() == scopes,
        env_lookup(open_and_define(scopes, k, t).drop_last(), x) == env_lookup(scopes, x),
{
    let d = open_and_define(scopes, k, t);
    assert(d.last() =~= seq![(k, t)]);
    assert(seq![(k, t)].drop_last() =~= Seq::<(Seq<char>, TypeV)>::empty());
    assert(d.drop_last() =~= scopes);
}

/// Variable scopes, innermost last.
struct TypeEnv {
    scopes: Vec<Vec<(String, Type)>>,
}

impl TypeEnv {
    /// The scopes as values.
    closed spec fn view_scopes(&self) -> Seq<Seq<(Seq<char>, TypeV)>> {
        self.scopes@.map_values(|sc: Vec<(String, Type)>| entries_view(sc@))
    }

    fn new() -> (r: Self)
        ensures
            r.view_scopes() == seq![Seq::<(Seq<char>, TypeV)>::empty()],
    {
        let first: Vec<(String, Type)> = Vec::new();
        assert(entries_view(first@) =~= Seq::<(Seq<char>, TypeV)>::empty());
        let r = Self { scopes: vec![first] };
        assert(r.view_scopes() =~= seq![Seq::<(Seq<char>, TypeV)>::empty()]);
        r
    }

    fn push(&mut self)
        ensures
            final(self).view_scopes() == old(self).view_scopes().push(Seq::empty()),
    {
        let sc: Vec<(String, Type)> = Vec::new();
        assert(entries_view(sc@) =~= Seq::<(Seq<char>, TypeV)>::empty());
        self.scopes.push(sc);
        assert(self.view_scopes() =~= old(self).view_scopes().push(Seq::empty()));
    }

    fn pop(&mut self)
        ensures
            final(self).view_scopes() == if old(self).view_scopes().len() > 0 {
                old(self).view_scopes().drop_last()
            } else {
                old(self).view_scopes()
            },
    {
        if self.scopes.len() > 0 {
            self.scopes.pop();
            assert(self.view_scopes() =~= old(self).view_scopes().drop_last());
        }
    }

    fn define(&mut self, name: &String, ty: Type)
        requires
            old(self).view_scopes().len() > 0,
        ensures
            final(self).view_scopes() == old(self).view_scopes().update(
                old(self).view_scopes().len() - 1,
                old(self).view_scopes().last().push((name@, ty@)),
            ),
    {
        let mut last = self.scopes.pop().unwrap();
        let ghost lv = last@;
        last.push((name.clone(), ty));
        assert(entries_view(last@) =~= entries_view(lv).push((name@, ty@)));
        self.scopes.push(last);
        assert(self.view_scopes() =~= old(self).view_scopes().update(
            old(self).view_scopes().len() - 1,
            old(self).view_scopes().last().push((name@, ty@)),
        ));
    }

    fn lookup(&self, name: &String) -> (r: Option<Type>)
        ensures
            opt_type_view(r) == env_lookup(self.view_scopes(), name@),
    {
        let ghost vs = self.view_scopes();
        let mut i: usize = self.scopes.len();
        assert(vs.take(i as int) =~= vs);
        while i > 0
            invariant
                i <= self.scopes@.len(),
                vs == self.view_scopes(),
                env_lookup(vs, name@) == env_lookup(vs.take(i as int), name@),
            decreases i,
        {
            i -= 1;
            let sc = &self.scopes[i];
            let ghost sv = entries_view(sc@);
            assert(vs.take(i + 1).last() == sv);
            assert(vs.take(i + 1).drop_last() =~= vs.take(i as int));
            let mut j: usize = sc.len();
            assert(sv.take(j as int) =~= sv);
            while j > 0
                invariant
                    j <= sc@.len(),
                    sv == entries_view(sc@),
                    i < vs.len(),
                    vs == self.view_scopes(),
                    vs.take(i + 1).last() == sv,
                    env_lookup(vs, name@) == env_lookup(vs.take(i + 1), name@),
                    assoc(sv, name@) == assoc(sv.take(j as int), name@),
                decreases j,
            {
                j -= 1;
                assert(sv.take(j + 1).drop_last() =~= sv.take(j as int));
                assert(sv.take(j + 1).last() == (sc@[j as int].0@, sc@[j as int].1@));
                if sc[j].0 == *name {
                    let t = clone_type(&sc[j].1);
                    assert(assoc(sv.take(j + 1), name@) == Some(sc@[j as int].1@));
                    assert(assoc(sv, name@) == Some(t@));
                    assert(vs.take(i + 1).len() > 0);
                    assert(env_lookup(vs.take(i + 1), name@) == Some(t@));
                    return Some(t);
                }
            }
            assert(sv.take(0) =~= Seq::<(Seq<char>, TypeV)>::empty());
        }
        assert(vs.take(0) =~= Seq::<Seq<(Seq<char>, TypeV)>>::empty());
        None
    }
}

impl TypeEnv {
    /// The shadowing law, stated of the scope methods themselves: after `push` and
    /// `define(name, t)`, `lookup(name)` gives `t`, whatever outer scopes hold; after `pop`,
    /// `lookup(name)` gives what it gave before, an outer binding or none, and the scopes are
    /// as they were. The result is the three lookups: before, inside, after.
    #[allow(dead_code)]
    fn shadow_and_restore(&mut self, name: &String, t: Type) -> (r: (Option<Type>, Option<Type>, Option<Type>))
        requires
            old(self).view_scopes().len() > 0,
        ensures
            opt_type_view(r.1) == Some(t@),
            opt_type_view(r.2) == opt_type_view(r.0),
            final(self).view_scopes() == old(self).view_scopes(),
    {
        let ghost s0 = self.view_scopes();
        let ghost tv = t@;
        proof {
            law_scope_shadowing(s0, name@, tv, name@);
        }
        let before = self.lookup(name);
        self.push();
        self.define(name, t);
        assert(self.view_scopes() == open_and_define(s0, name@, tv));
        let inner = self.lookup(name);
        self.pop();
        let after = self.lookup(name);
        (before, inner, after)
    }
}

/// A function signature.
struct FnSig {
    params: Vec<(String, Type)>,
    ret: Type,
}

/// The view of a signature.
spec fn sig_view(s: FnSig) -> SigV {
    SigV { params: entries_view(s.params@), ret: s.ret@ }
}

/// Checks the types of a program.
pub struct SemanticAnalyzer {
    env: TypeEnv,
    fns: Vec<(String, FnSig)>,
    structs: Vec<(String, Vec<(String, Type)>)>,
    current_ret: Option<Type>,
}

impl View for SemanticAnalyzer {
    type V = SemSt;

    closed spec fn view(&self) -> SemSt {
        SemSt {
            scopes: self.env.view_scopes(),
            fns: self.fns@.map_values(|e: (String, FnSig)| (e.0@, sig_view(e.1))),
            structs: self.structs@.map_values(|e: (String, Vec<(String, Type)>)| (e.0@, entries_view(e.1@))),
            cur_ret: opt_type_view(self.current_ret),
        }
    }
}

/// Which kind of type `t` is, whatever its parts.
fn type_kind_of(t: &Type) -> (r: u8)
    ensures
        r as nat == type_kind(t@),
{
    match t {
        Type::Int => 0,
        Type::Float => 1,
        Type::String => 2,
        Type::Str => 3,
        Type::Bool => 4,
        Type::Char => 5,
        Type::Byte => 6,
        Type::Void => 7,
        Type::I8 => 8,
        Type::I16 => 9,
        Type::I32 => 10,
        Type::I64 => 11,
        Type::Uint => 12,
        Type::U8 => 13,
        Type::U16 => 14,
        Type::U32 => 15,
        Type::U64 => 16,
        Type::F32 => 17,
        Type::F64 => 18,
        Type::List(_) => 19,
        Type::Dict(_, _) => 20,
        Type::Tuple(_) => 21,
        Type::SetOf(_) => 22,
        Type::Option(_) => 23,
        Type::Result(_, _) => 24,
        Type::Nullable(_) => 25,
        Type::Union(_) => 26,
        Type::Fn(_, _) => 27,
        Type::Named(_) => 28,
        Type::Generic(_, _) => 29,
    }
}

/// Whether `t` is the wildcard type `?`.
fn is_unknown(t: &Type) -> (r: bool)
    ensures
        r == (t@ == unknown()),
{
    match t {
        Type::Named(n) => crate::parser::text_is(n, "?"),
        _ => false,
    }
}

/// The wildcard type `?`.
fn unknown_type() -> (r: Type)
    ensures
        r@ == unknown(),
{
    Type::Named(String::from_str("?"))
}

/// The type `Named(name)`.
fn named(name: &str) -> (r: Type)
    ensures
        r@ == TypeV::Named(name@),
{
    Type::Named(String::from_str(name))
}

impl SemanticAnalyzer {
    /// The types fit together: either is `?`, or they are of one kind.
    fn types_compat(&self, a: &Type, b: &Type) -> (r: bool)
        ensures
            r == types_compat(a@, b@),
    {
        if is_unknown(a) || is_unknown(b) {
            return true;
        }
        type_kind_of(a) == type_kind_of(b)
    }

    /// A numeric type.
    fn is_numeric(&self, ty: &Type) -> (r: bool)
        ensures
            r == is_numeric(ty@),
    {
        match ty {
            Type::Int | Type::Float | Type::I8 | Type::I16 | Type::I32 | Type::I64 | Type::Uint | Type::U8
            | Type::U16 | Type::U32 | Type::U64 | Type::F32 | Type::F64 => true,
            _ => false,
        }
    }

    /// `actual` must fit `expected`.
    fn unify(&self, expected: &Type, actual: &Type, ctx: &str) -> (r: Result<(), SemaError>)
        ensures
            match r {
                Ok(_) => unify(expected@, actual@, ctx@) is Ok,
                Err(e) => unify(expected@, actual@, ctx@) == Err::<(), Seq<char>>(e.message@) && e.line == 0 && e.col == 0,
            },
    {
        if self.types_compat(expected, actual) {
            Ok(())
        } else {
            let mut m = String::from_str("type mismatch in ");
            push_str(&mut m, ctx);
            push_str(&mut m, ": expected ");
            push_type_debug(&mut m, expected);
            push_str(&mut m, ", got ");
            push_type_debug(&mut m, actual);
            Err(sema_err(m))
        }
    }

    /// The type of `l op r`.
    fn infer_binop(&self, op: &BinOp, l: &Type, r: &Type) -> (res: Result<Type, SemaError>)
        ensures
            match res {
                Ok(t) => binop_type(*op, l@, r@) == Ok::<TypeV, Seq<char>>(t@),
                Err(e) => binop_type(*op, l@, r@) == Err::<TypeV, Seq<char>>(e.message@) && e.line == 0 && e.col == 0,
            },
    {
        match op {
            BinOp::Add | BinOp::Sub | BinOp::Mul | BinOp::Div | BinOp::Mod => {
                if matches!(op, BinOp::Add) && matches!(l, Type::String) {
                    return Ok(Type::String);
                }
                if self.types_compat(l, r) && self.is_numeric(l) {
                    Ok(clone_type(l))
                } else {
                    let mut m = String::from_str("type mismatch in arithmetic: ");
                    push_type_debug(&mut m, l);
                    push_str(&mut m, " op ");
                    push_type_debug(&mut m, r);
                    Err(sema_err(m))
                }
            },
            BinOp::Eq | BinOp::NotEq => {
                if self.types_compat(l, r) {
                    Ok(Type::Bool)
                } else {
                    let mut m = String::from_str("cannot compare ");
                    push_type_debug(&mut m, l);
                    push_str(&mut m, " and ");
                    push_type_debug(&mut m, r);
                    Err(sema_err(m))
                }
            },
            BinOp::Lt | BinOp::LtEq | BinOp::Gt | BinOp::GtEq => {
                if self.types_compat(l, r) && (self.is_numeric(l) || matches!(l, Type::String)) {
                    Ok(Type::Bool)
                } else {
                    let mut m = String::from_str("cannot order-compare ");
                    push_type_debug(&mut m, l);
                    push_str(&mut m, " and ");
                    push_type_debug(&mut m, r);
                    Err(sema_err(m))
                }
            },
            BinOp::And | BinOp::Or => {
                if matches!(l, Type::Bool) && matches!(r, Type::Bool) {
                    Ok(Type::Bool)
                } else {
                    Err(sema_err(String::from_str("'&&'/'||' require bool")))
                }
            },
        }
    }

    /// The type of an element got by indexing a value of type `ty`.
    fn infer_index(&self, ty: &Type) -> (r: Result<Type, SemaError>)
        ensures
            match r {
                Ok(t) => index_type(ty@) == Ok::<TypeV, Seq<char>>(t@),
                Err(e) => index_type(ty@) == Err::<TypeV, Seq<char>>(e.message@) && e.line == 0 && e.col == 0,
            },
    {
        match ty {
            Type::List(e) => Ok(clone_type(e)),
            Type::SetOf(e) => Ok(clone_type(e)),
            Type::Dict(_, v) => Ok(clone_type(v)),
            Type::Named(_) => Ok(unknown_type()),
            _ => {
                let mut m = String::from_str("type ");
                push_type_debug(&mut m, ty);
                push_str(&mut m, " is not indexable");
                Err(sema_err(m))
            },
        }
    }

    /// The type of the loop variable of a `for` over a value of type `ty`.
    fn element_type_of(&self, ty: &Type) -> (r: Result<Type, SemaError>)
        ensures
            match r {
                Ok(t) => element_type(ty@) == Ok::<TypeV, Seq<char>>(t@),
                Err(e) => element_type(ty@) == Err::<TypeV, Seq<char>>(e.message@) && e.line == 0 && e.col == 0,
            },
    {
        match ty {
            Type::List(e) => Ok(clone_type(e)),
            Type::SetOf(e) => Ok(clone_type(e)),
            Type::Named(n) => {
                if crate::parser::text_is(n, "Range") {
                    Ok(Type::Int)
                } else {
                    Ok(unknown_type())
                }
            },
            _ => {
                let mut m = String::from_str("type ");
                push_type_debug(&mut m, ty);
                push_str(&mut m, " is not iterable");
                Err(sema_err(m))
            },
        }
    }
}


/// The type a check gives, as a value.
pub open spec fn ty_out(r: Result<Type, SemaError>) -> Result<TypeV, Seq<char>> {
    match r {
        Ok(t) => Ok(t@),
        Err(e) => Err(e.message@),
    }
}

/// The outcome of a check, as a value.
pub open spec fn unit_out(r: Result<(), SemaError>) -> Result<(), Seq<char>> {
    match r {
        Ok(_) => Ok(()),
        Err(e) => Err(e.message@),
    }
}

/// An error from the analyzer carries no position.
pub open spec fn unplaced<T>(r: Result<T, SemaError>) -> bool {
    r matches Err(e) ==> e.line == 0 && e.col == 0
}

/// A copy of named types.
fn clone_entries(v: &Vec<(String, Type)>) -> (r: Vec<(String, Type)>)
    ensures
        entries_view(r@) == entries_view(v@),
{
    let mut out: Vec<(String, Type)> = Vec::new();
    let mut i: usize = 0;
    while i < v.len()
        invariant
            i <= v.len(),
            entries_view(out@) == entries_view(v@).take(i as int),
        decreases v.len() - i,
    {
        let n = v[i].0.clone();
        let t = clone_type(&v[i].1);
        assert(n@ == v@[i as int].0@);
        let ghost prev = out@;
        out.push((n, t));
        assert(entries_view(out@) =~= entries_view(prev).push((v@[i as int].0@, v@[i as int].1@)));
        assert(entries_view(out@) =~= entries_view(v@).take(i + 1));
        i += 1;
    }
    assert(entries_view(v@).take(i as int) =~= entries_view(v@));
    out
}

/// The position of the first entry named `name`.
fn find_field(fields: &Vec<(String, Type)>, name: &String) -> (r: Option<usize>)
    ensures
        match r {
            Some(i) => i < fields@.len() && first_assoc(entries_view(fields@), name@) == Some(fields@[i as int].1@),
            None => first_assoc(entries_view(fields@), name@) is None,
        },
{
    let ghost fv = entries_view(fields@);
    let mut i: usize = 0;
    assert(fv.skip(0) =~= fv);
    while i < fields.len()
        invariant
            i <= fields@.len(),
            fv == entries_view(fields@),
            first_assoc(fv, name@) == first_assoc(fv.skip(i as int), name@),
        decreases fields.len() - i,
    {
        assert(fv.skip(i as int)[0] == (fields@[i as int].0@, fields@[i as int].1@));
        if fields[i].0 == *name {
            return Some(i);
        }
        assert(fv.skip(i as int).drop_first() =~= fv.skip(i + 1));
        i += 1;
    }
    assert(fv.skip(i as int) =~= Seq::<(Seq<char>, TypeV)>::empty());
    None
}

/// The types of a signature's parameters, as a function type with its result.
fn sig_fn_type(sig: &FnSig) -> (r: Type)
    ensures
        r@ == TypeV::Fn(crate::sema_spec::sig_param_types(sig_view(*sig).params), Box::new(sig.ret@)),
{
    let ghost target = crate::sema_spec::sig_param_types(sig_view(*sig).params);
    let mut out: Vec<Type> = Vec::new();
    let mut i: usize = 0;
    while i < sig.params.len()
        invariant
            i <= sig.params@.len(),
            target == crate::sema_spec::sig_param_types(sig_view(*sig).params),
            target.len() == sig.params@.len(),
            types_view(out@) == target.take(i as int),
        decreases sig.params.len() - i,
    {
        let t = clone_type(&sig.params[i].1);
        proof {
            lemma_types_view_push(out@, t);
        }
        out.push(t);
        assert(types_view(out@) =~= target.take(i + 1));
        i += 1;
    }
    assert(target.take(i as int) =~= target);
    Type::Fn(out, Box::new(clone_type(&sig.ret)))
}

impl SemanticAnalyzer {
    /// A fresh analyzer: one empty scope and the builtin functions.
    pub fn new() -> (r: Self)
        ensures
            r@ == crate::sema_spec::initial_state(),
    {
        let mut a = Self { env: TypeEnv::new(), fns: Vec::new(), structs: Vec::new(), current_ret: None };
        a.register_builtins();
        assert(a@.structs =~= Seq::<(Seq<char>, Seq<(Seq<char>, TypeV)>)>::empty());
        a
    }

    /// Records the builtin functions: `print`, `println`, `read_line`, `len`, `str`, `int` and `float`.
    fn register_builtins(&mut self)
        requires
            old(self).fns@.len() == 0,
        ensures
            final(self)@ == (SemSt { fns: crate::sema_spec::builtin_fns(), ..old(self)@ }),
    {
        self.add_builtin("print", Some(Type::String), Type::Void);
        self.add_builtin("println", Some(Type::String), Type::Void);
        self.add_builtin("read_line", None, Type::String);
        self.add_builtin("len", Some(unknown_type()), Type::Int);
        self.add_builtin("str", Some(unknown_type()), Type::String);
        self.add_builtin("int", Some(unknown_type()), Type::Int);
        self.add_builtin("float", Some(unknown_type()), Type::Float);
        assert(self@.fns =~= crate::sema_spec::builtin_fns());
    }

    /// Records a builtin function with at most one parameter, named `_0`.
    fn add_builtin(&mut self, name: &str, param: Option<Type>, ret: Type)
        ensures
            final(self)@ == (SemSt {
                fns: old(self)@.fns.push((
                    name@,
                    SigV {
                        params: match param {
                            Some(p) => seq![("_0"@, p@)],
                            None => Seq::empty(),
                        },
                        ret: ret@,
                    },
                )),
                ..old(self)@
            }),
    {
        let mut params: Vec<(String, Type)> = Vec::new();
        match param {
            Some(p) => {
                params.push((String::from_str("_0"), p));
            },
            None => {},
        }
        let ghost pv = entries_view(params@);
        assert(pv =~= match param {
            Some(p) => seq![("_0"@, p@)],
            None => Seq::<(Seq<char>, TypeV)>::empty(),
        });
        self.fns.push((String::from_str(name), FnSig { params, ret }));
        assert(self@.fns =~= old(self)@.fns.push((
            name@,
            SigV {
                params: match param {
                    Some(p) => seq![("_0"@, p@)],
                    None => Seq::empty(),
                },
                ret: ret@,
            },
        )));
    }

    /// The position of the latest signature of `name`.
    fn find_fn(&self, name: &String) -> (r: Option<usize>)
        ensures
            match r {
                Some(i) => i < self.fns@.len() && assoc(self@.fns, name@) == Some(sig_view(self.fns@[i as int].1)),
                None => assoc(self@.fns, name@) is None,
            },
    {
        let ghost fv = self@.fns;
        let mut i: usize = self.fns.len();
        assert(fv.take(i as int) =~= fv);
        while i > 0
            invariant
                i <= self.fns@.len(),
                fv == self@.fns,
                assoc(fv, name@) == assoc(fv.take(i as int), name@),
            decreases i,
        {
            i -= 1;
            assert(fv.take(i + 1).drop_last() =~= fv.take(i as int));
            assert(fv.take(i + 1).last() == (self.fns@[i as int].0@, sig_view(self.fns@[i as int].1)));
            if self.fns[i].0 == *name {
                return Some(i);
            }
        }
        None
    }

    /// The position of the latest field list of struct `name`.
    fn find_struct(&self, name: &String) -> (r: Option<usize>)
        ensures
            match r {
                Some(i) => i < self.structs@.len() && assoc(self@.structs, name@) == Some(entries_view(self.structs@[i as int].1@)),
                None => assoc(self@.structs, name@) is None,
            },
    {
        let ghost sv = self@.structs;
        let mut i: usize = self.structs.len();
        assert(sv.take(i as int) =~= sv);
        while i > 0
            invariant
                i <= self.structs@.len(),
                sv == self@.structs,
                assoc(sv, name@) == assoc(sv.take(i as int), name@),
            decreases i,
        {
            i -= 1;
            assert(sv.take(i + 1).drop_last() =~= sv.take(i as int));
            assert(sv.take(i + 1).last() == (self.structs@[i as int].0@, entries_view(self.structs@[i as int].1@)));
            if self.structs[i].0 == *name {
                return Some(i);
            }
        }
        None
    }

    /// The type of field `name` of a value of type `ty`.
    fn infer_field(&self, ty: &Type, name: &String) -> (r: Result<Type, SemaError>)
        ensures
            ty_out(r) == crate::sema_spec::field_type(self@, ty@, name@),
            unplaced(r),
    {
        if let Type::Named(sname) = ty {
            if let Some(k) = self.find_struct(sname) {
                let fields = &self.structs[k].1;
                return match find_field(fields, name) {
                    Some(j) => Ok(clone_type(&fields[j].1)),
                    None => {
                        let mut m = String::from_str("struct '");
                        push_str(&mut m, sname.as_str());
                        push_str(&mut m, "' has no field '");
                        push_str(&mut m, name.as_str());
                        push_str(&mut m, "'");
                        Err(sema_err(m))
                    },
                };
            }
        }
        Ok(unknown_type())
    }

    /// Opens a scope.
    fn push_scope(&mut self)
        ensures
            final(self)@ == crate::sema_spec::push_scope(old(self)@),
    {
        self.env.push();
    }

    /// Closes the innermost scope.
    fn pop_scope(&mut self)
        ensures
            final(self)@ == crate::sema_spec::pop_scope(old(self)@),
    {
        self.env.pop();
    }

    /// Defines a variable in the innermost scope.
    fn define(&mut self, name: &String, ty: Type)
        requires
            old(self)@.scopes.len() > 0,
        ensures
            final(self)@ == crate::sema_spec::define(old(self)@, name@, ty@),
    {
        self.env.define(name, ty);
    }
}


impl SemanticAnalyzer {
    /// The type of variable `name`, from the innermost scope that defines it.
    fn lookup_var(&self, name: &String) -> (r: Option<Type>)
        ensures
            opt_type_view(r) == env_lookup(self@.scopes, name@),
    {
        self.env.lookup(name)
    }

    /// The type of function `name`, as a function type.
    fn fn_type(&self, name: &String) -> (r: Option<Type>)
        ensures
            match assoc(self@.fns, name@) {
                Some(sig) => r is Some && r->0@ == TypeV::Fn(crate::sema_spec::sig_param_types(sig.params), Box::new(sig.ret)),
                None => r is None,
            },
    {
        match self.find_fn(name) {
            Some(k) => Some(sig_fn_type(&self.fns[k].1)),
            None => None,
        }
    }

    /// The result type of function `name`.
    fn fn_ret(&self, name: &String) -> (r: Option<Type>)
        ensures
            match assoc(self@.fns, name@) {
                Some(sig) => r is Some && r->0@ == sig.ret,
                None => r is None,
            },
    {
        match self.find_fn(name) {
            Some(k) => Some(clone_type(&self.fns[k].1.ret)),
            None => None,
        }
    }

    /// The fields of struct `name`.
    fn struct_fields(&self, name: &String) -> (r: Option<Vec<(String, Type)>>)
        ensures
            match assoc(self@.structs, name@) {
                Some(d) => r is Some && entries_view(r->0@) == d,
                None => r is None,
            },
    {
        match self.find_struct(name) {
            Some(k) => Some(clone_entries(&self.structs[k].1)),
            None => None,
        }
    }

    /// The result type of the function being checked.
    fn cur_ret(&self) -> (r: Option<Type>)
        ensures
            opt_type_view(r) == self@.cur_ret,
    {
        match &self.current_ret {
            Some(t) => Some(clone_type(t)),
            None => None,
        }
    }

    /// Sets the result type of the function being checked.
    fn set_cur_ret(&mut self, t: Option<Type>)
        ensures
            final(self)@ == (SemSt { cur_ret: opt_type_view(t), ..old(self)@ }),
    {
        self.current_ret = t;
    }

    /// Records a function signature.
    fn add_fn(&mut self, name: String, params: Vec<(String, Type)>, ret: Type)
        ensures
            final(self)@ == (SemSt {
                fns: old(self)@.fns.push((name@, SigV { params: entries_view(params@), ret: ret@ })),
                ..old(self)@
            }),
    {
        self.fns.push((name, FnSig { params, ret }));
        assert(self@.fns =~= old(self)@.fns.push((name@, SigV { params: entries_view(params@), ret: ret@ })));
    }

    /// Records the fields of a struct.
    fn add_struct(&mut self, name: String, fields: Vec<(String, Type)>)
        ensures
            final(self)@ == (SemSt { structs: old(self)@.structs.push((name@, entries_view(fields@))), ..old(self)@ }),
    {
        self.structs.push((name, fields));
        assert(self@.structs =~= old(self)@.structs.push((name@, entries_view(fields@))));
    }
}

} // verus!
