//! The meaning of the parser: for each parsing routine, what it gives at a token position.
//!
//! Each function takes the token list and a position and gives the parsed value with the
//! position after it, or the error. `PErr::Panic` marks the inputs on which parsing stops
//! with a panic (a `dict` or `Result` type written with a single argument).
use vstd::prelude::*;
use crate::ast::{ArmV, BinOp, ExprV, HandlerV, ImportSource, ParamV, PatternV, StmtV, TopV, TypeV, UnOp};
use crate::token::{tok_debug, Spanned, Token};

verus! {

/// A parse failure: a message with the token position it is reported at, or a panic.
pub enum PErr {
    Msg(Seq<char>, nat),
    Panic,
}

/// The outcome of a parsing routine: a value and the position after it, or a failure.
pub type PR<V> = Result<(V, nat), PErr>;

/// The token at `p`; Eof past the end.
pub open spec fn tok(t: Seq<Spanned>, p: nat) -> Token {
    if p < t.len() { t[p as int].token } else { Token::Eof }
}

/// The position after consuming one token (the end stays the end).
pub open spec fn adv(t: Seq<Spanned>, p: nat) -> nat {
    if p < t.len() { p + 1 } else { p }
}

/// `q` lies after `p` and within the tokens.
pub open spec fn fwd(t: Seq<Spanned>, p: nat, q: nat) -> bool {
    p < q <= t.len()
}

/// `q` lies at or after `p` and within the tokens.
pub open spec fn fwd_eq(t: Seq<Spanned>, p: nat, q: nat) -> bool {
    p <= q <= t.len()
}

/// The failure for a position reached in a way that never happens (a routine that did not move).
pub open spec fn stuck<V>(p: nat) -> PR<V> {
    Err(PErr::Msg(Seq::empty(), p))
}

/// Consumes the token `k` or fails with `expected <k>, got <token>`.
pub open spec fn sp_expect(t: Seq<Spanned>, p: nat, k: Token) -> Result<nat, PErr> {
    if tok(t, p) == k {
        Ok(adv(t, p))
    } else {
        Err(PErr::Msg("expected "@ + tok_debug(k) + ", got "@ + tok_debug(tok(t, p)), p))
    }
}

/// Consumes the token `k` when it is next.
pub open spec fn eat(t: Seq<Spanned>, p: nat, k: Token) -> nat {
    if tok(t, p) == k { adv(t, p) } else { p }
}

/// Skips Newline tokens.
pub open spec fn skip_nl(t: Seq<Spanned>, p: nat) -> nat
    decreases t.len() - p,
{
    if p < t.len() && t[p as int].token == Token::Newline {
        skip_nl(t, p + 1)
    } else {
        p
    }
}

/// Reads an identifier; on failure the error is reported after the offending token.
pub open spec fn sp_ident(t: Seq<Spanned>, p: nat) -> PR<Seq<char>> {
    match tok(t, p) {
        Token::Ident(s) => Ok((s@, adv(t, p))),
        x => Err(PErr::Msg("expected identifier, got "@ + tok_debug(x), adv(t, p))),
    }
}

// ------------------------------------------------------------
// Types
// ------------------------------------------------------------

/// A type from a type name with its arguments, as written `name<args>`.
pub open spec fn generic_type(name: Seq<char>, args: Seq<TypeV>) -> Result<TypeV, PErr> {
    if name == "list"@ {
        Ok(TypeV::List(Box::new(args[0])))
    } else if name == "set"@ {
        Ok(TypeV::SetOf(Box::new(args[0])))
    } else if name == "dict"@ {
        if args.len() >= 2 { Ok(TypeV::Dict(Box::new(args[0]), Box::new(args[1]))) } else { Err(PErr::Panic) }
    } else if name == "tuple"@ {
        Ok(TypeV::Tuple(args))
    } else if name == "Option"@ {
        Ok(TypeV::Option(Box::new(args[0])))
    } else if name == "Result"@ {
        if args.len() >= 2 { Ok(TypeV::Result(Box::new(args[0]), Box::new(args[1]))) } else { Err(PErr::Panic) }
    } else {
        Ok(TypeV::Generic(name, args))
    }
}

/// The type of a type keyword.
pub open spec fn keyword_type(k: Token) -> Option<TypeV> {
    match k {
        Token::TInt => Some(TypeV::Int),
        Token::TI8 => Some(TypeV::I8),
        Token::TI16 => Some(TypeV::I16),
        Token::TI32 => Some(TypeV::I32),
        Token::TI64 => Some(TypeV::I64),
        Token::TUint => Some(TypeV::Uint),
        Token::TU8 => Some(TypeV::U8),
        Token::TU16 => Some(TypeV::U16),
        Token::TU32 => Some(TypeV::U32),
        Token::TU64 => Some(TypeV::U64),
        Token::TFloat => Some(TypeV::Float),
        Token::TF32 => Some(TypeV::F32),
        Token::TF64 => Some(TypeV::F64),
        Token::TString => Some(TypeV::String),
        Token::TStr => Some(TypeV::Str),
        Token::TBool => Some(TypeV::Bool),
        Token::TChar => Some(TypeV::Char),
        Token::TByte => Some(TypeV::Byte),
        Token::TVoid => Some(TypeV::Void),
        _ => None,
    }
}

/// A type: a base type, then `?` for nullable or `| T ...` for a union.
pub open spec fn sp_type(t: Seq<Spanned>, p: nat) -> PR<TypeV>
    decreases t.len() - p, 3nat,
{
    if p > t.len() {
        stuck(p)
    } else {
        match sp_base_type(t, p) {
            Err(e) => Err(e),
            Ok((base, p1)) => {
                if tok(t, p1) == Token::Question {
                    Ok((TypeV::Nullable(Box::new(base)), adv(t, p1)))
                } else if tok(t, p1) == Token::Pipe {
                    if fwd(t, p, adv(t, p1)) {
                        match sp_union(t, adv(t, p1), seq![base]) {
                            Err(e) => Err(e),
                            Ok((ts, q)) => Ok((TypeV::Union(ts), q)),
                        }
                    } else {
                        stuck(p)
                    }
                } else {
                    Ok((base, p1))
                }
            },
        }
    }
}

/// The members of a union after the first `|`.
pub open spec fn sp_union(t: Seq<Spanned>, q: nat, acc: Seq<TypeV>) -> PR<Seq<TypeV>>
    decreases t.len() - q, 2nat,
{
    if q > t.len() {
        stuck(q)
    } else {
        match sp_base_type(t, q) {
            Err(e) => Err(e),
            Ok((ty, q1)) => {
                if tok(t, q1) == Token::Pipe {
                    if fwd(t, q, adv(t, q1)) { sp_union(t, adv(t, q1), acc.push(ty)) } else { stuck(q) }
                } else {
                    Ok((acc.push(ty), q1))
                }
            },
        }
    }
}

/// The arguments of a generic type, after `<`: types separated by commas.
pub open spec fn sp_type_args(t: Seq<Spanned>, q: nat, acc: Seq<TypeV>) -> PR<Seq<TypeV>>
    decreases t.len() - q, 4nat,
{
    if q > t.len() {
        stuck(q)
    } else {
        match sp_type(t, q) {
            Err(e) => Err(e),
            Ok((ty, q1)) => {
                if tok(t, q1) == Token::Comma {
                    if fwd(t, q, adv(t, q1)) { sp_type_args(t, adv(t, q1), acc.push(ty)) } else { stuck(q) }
                } else {
                    Ok((acc.push(ty), q1))
                }
            },
        }
    }
}

/// The parameter types of a function type, after `(`, up to `)`.
pub open spec fn sp_fn_type_args(t: Seq<Spanned>, q: nat, acc: Seq<TypeV>) -> PR<Seq<TypeV>>
    decreases t.len() - q, 4nat,
{
    if q > t.len() {
        stuck(q)
    } else if tok(t, q) == Token::RParen {
        Ok((acc, q))
    } else {
        let q1r = if acc.len() > 0 { sp_expect(t, q, Token::Comma) } else { Ok(q) };
        match q1r {
            Err(e) => Err(e),
            Ok(q1) => {
                if fwd_eq(t, q, q1) {
                    match sp_type(t, q1) {
                        Err(e) => Err(e),
                        Ok((ty, q2)) => if fwd(t, q, q2) { sp_fn_type_args(t, q2, acc.push(ty)) } else { stuck(q) },
                    }
                } else {
                    stuck(q)
                }
            },
        }
    }
}

/// A base type: a type keyword, a name (possibly with `<args>`), `fn(args) -> ret`, a list
/// `[T]`, or a dictionary `{K: V}`.
pub open spec fn sp_base_type(t: Seq<Spanned>, p: nat) -> PR<TypeV>
    decreases t.len() - p, 1nat,
{
    let tk = tok(t, p);
    let p1 = adv(t, p);
    if p > t.len() {
        stuck(p)
    } else if keyword_type(tk) is Some {
        Ok((keyword_type(tk)->0, p1))
    } else {
        match tk {
            Token::Ident(name) => {
                if tok(t, p1) == Token::Lt {
                    if fwd(t, p, adv(t, p1)) {
                        match sp_type_args(t, adv(t, p1), Seq::empty()) {
                            Err(e) => Err(e),
                            Ok((args, q)) => match sp_expect(t, q, Token::Gt) {
                                Err(e) => Err(e),
                                Ok(q2) => match generic_type(name@, args) {
                                    Err(e) => Err(e),
                                    Ok(ty) => Ok((ty, q2)),
                                },
                            },
                        }
                    } else {
                        stuck(p)
                    }
                } else {
                    Ok((TypeV::Named(name@), p1))
                }
            },
            Token::Fn => match sp_expect(t, p1, Token::LParen) {
                Err(e) => Err(e),
                Ok(q) => {
                    if fwd(t, p, q) {
                        match sp_fn_type_args(t, q, Seq::empty()) {
                            Err(e) => Err(e),
                            Ok((args, q1)) => match sp_expect(t, q1, Token::RParen) {
                                Err(e) => Err(e),
                                Ok(q2) => match sp_expect(t, q2, Token::Arrow) {
                                    Err(e) => Err(e),
                                    Ok(q3) => {
                                        if fwd(t, p, q3) {
                                            match sp_type(t, q3) {
                                                Err(e) => Err(e),
                                                Ok((r, q4)) => Ok((TypeV::Fn(args, Box::new(r)), q4)),
                                            }
                                        } else {
                                            stuck(p)
                                        }
                                    },
                                },
                            },
                        }
                    } else {
                        stuck(p)
                    }
                },
            },
            Token::LBracket => {
                if fwd(t, p, p1) {
                    match sp_type(t, p1) {
                        Err(e) => Err(e),
                        Ok((el, q)) => match sp_expect(t, q, Token::RBracket) {
                            Err(e) => Err(e),
                            Ok(q2) => Ok((TypeV::List(Box::new(el)), q2)),
                        },
                    }
                } else {
                    stuck(p)
                }
            },
            Token::LBrace => {
                if fwd(t, p, p1) {
                    match sp_type(t, p1) {
                        Err(e) => Err(e),
                        Ok((k, q)) => match sp_expect(t, q, Token::Colon) {
                            Err(e) => Err(e),
                            Ok(q2) => {
                                if fwd(t, p, q2) {
                                    match sp_type(t, q2) {
                                        Err(e) => Err(e),
                                        Ok((v, q3)) => match sp_expect(t, q3, Token::RBrace) {
                                            Err(e) => Err(e),
                                            Ok(q4) => Ok((TypeV::Dict(Box::new(k), Box::new(v)), q4)),
                                        },
                                    }
                                } else {
                                    stuck(p)
                                }
                            },
                        },
                    }
                } else {
                    stuck(p)
                }
            },
            _ => Err(PErr::Msg("expected type, got "@ + tok_debug(tk), p1)),
        }
    }
}

// ------------------------------------------------------------
// Patterns
// ------------------------------------------------------------

/// `Some(x)`, `Ok(x)` or `Err(x)` after the keyword at `p`: the bound name and the end.
pub open spec fn sp_bound_name(t: Seq<Spanned>, p: nat) -> PR<Seq<char>> {
    match sp_expect(t, adv(t, p), Token::LParen) {
        Err(e) => Err(e),
        Ok(q) => match sp_ident(t, q) {
            Err(e) => Err(e),
            Ok((n, q1)) => match sp_expect(t, q1, Token::RParen) {
                Err(e) => Err(e),
                Ok(q2) => Ok((n, q2)),
            },
        },
    }
}

/// A single pattern.
pub open spec fn sp_single_pattern(t: Seq<Spanned>, p: nat) -> PR<PatternV> {
    let p1 = adv(t, p);
    match tok(t, p) {
        Token::Ident(s) => if s@ == "_"@ { Ok((PatternV::Wildcard, p1)) } else { Ok((PatternV::Ident(s@), p1)) },
        Token::Int(n) => Ok((PatternV::Int(n), p1)),
        Token::Str(s) => Ok((PatternV::Str(s@), p1)),
        Token::Bool(b) => Ok((PatternV::Bool(b), p1)),
        Token::NoneKw => Ok((PatternV::NoneVal, p1)),
        Token::SomeKw => match sp_bound_name(t, p) {
            Err(e) => Err(e),
            Ok((n, q)) => Ok((PatternV::SomeVal(n), q)),
        },
        Token::OkKw => match sp_bound_name(t, p) {
            Err(e) => Err(e),
            Ok((n, q)) => Ok((PatternV::OkVal(n), q)),
        },
        Token::ErrKw => match sp_bound_name(t, p) {
            Err(e) => Err(e),
            Ok((n, q)) => Ok((PatternV::ErrVal(n), q)),
        },
        x => Err(PErr::Msg("expected pattern, got "@ + tok_debug(x), p)),
    }
}

/// The alternatives of an or-pattern after the first `|`.
pub open spec fn sp_pattern_alts(t: Seq<Spanned>, q: nat, acc: Seq<PatternV>) -> PR<Seq<PatternV>>
    decreases t.len() - q,
{
    if q > t.len() {
        stuck(q)
    } else {
        match sp_single_pattern(t, q) {
            Err(e) => Err(e),
            Ok((pat, q1)) => {
                if tok(t, q1) == Token::Pipe {
                    if fwd(t, q, adv(t, q1)) { sp_pattern_alts(t, adv(t, q1), acc.push(pat)) } else { stuck(q) }
                } else {
                    Ok((acc.push(pat), q1))
                }
            },
        }
    }
}

/// A pattern: a single pattern, or alternatives separated by `|`.
pub open spec fn sp_pattern(t: Seq<Spanned>, p: nat) -> PR<PatternV> {
    match sp_single_pattern(t, p) {
        Err(e) => Err(e),
        Ok((pat, p1)) => {
            if tok(t, p1) == Token::Pipe {
                match sp_pattern_alts(t, adv(t, p1), seq![pat]) {
                    Err(e) => Err(e),
                    Ok((ps, q)) => Ok((PatternV::Or(ps), q)),
                }
            } else {
                Ok((pat, p1))
            }
        },
    }
}

// ------------------------------------------------------------
// Parameters
// ------------------------------------------------------------

/// The parameter `self`.
pub open spec fn self_param() -> ParamV {
    ParamV { name: "self"@, ty: TypeV::Named("Self"@), is_self: true }
}

/// Parameters `name: type` separated by commas, up to `)`.
pub open spec fn sp_params_list(t: Seq<Spanned>, q: nat, acc: Seq<ParamV>) -> PR<Seq<ParamV>>
    decreases t.len() - q,
{
    if q > t.len() {
        stuck(q)
    } else if tok(t, q) == Token::RParen {
        Ok((acc, q))
    } else {
        let q1r = if acc.len() > 0 { sp_expect(t, q, Token::Comma) } else { Ok(q) };
        match q1r {
            Err(e) => Err(e),
            Ok(q1) => {
                if tok(t, q1) == Token::RParen {
                    Ok((acc, q1))
                } else {
                    match sp_ident(t, q1) {
                        Err(e) => Err(e),
                        Ok((n, q2)) => match sp_expect(t, q2, Token::Colon) {
                            Err(e) => Err(e),
                            Ok(q3) => match sp_type(t, q3) {
                                Err(e) => Err(e),
                                Ok((ty, q4)) => {
                                    if fwd(t, q, q4) {
                                        sp_params_list(t, q4, acc.push(ParamV { name: n, ty, is_self: false }))
                                    } else {
                                        stuck(q)
                                    }
                                },
                            },
                        },
                    }
                }
            },
        }
    }
}

/// The parameters of a function; a method may start with `self`.
pub open spec fn sp_params(t: Seq<Spanned>, p: nat, is_method: bool) -> PR<Seq<ParamV>> {
    if is_method && tok(t, p) is Ident && tok(t, p)->Ident_0@ == "self"@ {
        let q = adv(t, p);
        if tok(t, q) == Token::RParen {
            Ok((seq![self_param()], q))
        } else {
            match sp_expect(t, q, Token::Comma) {
                Err(e) => Err(e),
                Ok(q2) => sp_params_list(t, q2, seq![self_param()]),
            }
        }
    } else {
        sp_params_list(t, p, Seq::empty())
    }
}

// ------------------------------------------------------------
// Expressions and statements
// ------------------------------------------------------------

/// Consumes one Newline when it is next.
pub open spec fn eat_nl(t: Seq<Spanned>, p: nat) -> nat {
    eat(t, p, Token::Newline)
}

/// Postfix `?` operators.
pub open spec fn sp_try_tail(t: Seq<Spanned>, q: nat, e: ExprV) -> (ExprV, nat)
    decreases t.len() - q,
{
    if q < t.len() && t[q as int].token == Token::Question {
        sp_try_tail(t, q + 1, ExprV::Try(Box::new(e)))
    } else {
        (e, q)
    }
}

/// The comparison operator of a token.
pub open spec fn compare_op(k: Token) -> Option<BinOp> {
    match k {
        Token::EqEq => Some(BinOp::Eq),
        Token::NotEq => Some(BinOp::NotEq),
        Token::Lt => Some(BinOp::Lt),
        Token::LtEq => Some(BinOp::LtEq),
        Token::Gt => Some(BinOp::Gt),
        Token::GtEq => Some(BinOp::GtEq),
        _ => None,
    }
}

/// The additive operator of a token.
pub open spec fn add_op(k: Token) -> Option<BinOp> {
    match k {
        Token::Plus => Some(BinOp::Add),
        Token::Minus => Some(BinOp::Sub),
        _ => None,
    }
}

/// The multiplicative operator of a token.
pub open spec fn mul_op(k: Token) -> Option<BinOp> {
    match k {
        Token::Star => Some(BinOp::Mul),
        Token::Slash => Some(BinOp::Div),
        Token::Percent => Some(BinOp::Mod),
        _ => None,
    }
}

/// A binary operator node.
pub open spec fn bin(op: BinOp, l: ExprV, r: ExprV) -> ExprV {
    ExprV::BinOp { op, lhs: Box::new(l), rhs: Box::new(r) }
}

/// Whether the `(` at `p` starts a lambda: `( ) ->` or `( ident :`.
pub open spec fn lambda_start(t: Seq<Spanned>, p: nat) -> bool {
    match tok(t, p + 1) {
        Token::RParen => tok(t, p + 2) == Token::Arrow,
        Token::Ident(_) => tok(t, p + 2) == Token::Colon,
        _ => false,
    }
}

/// Whether the `{` at `p` starts a struct literal: `{ ident :`.
pub open spec fn struct_lit_start(t: Seq<Spanned>, p: nat) -> bool {
    tok(t, p + 1) is Ident && tok(t, p + 2) == Token::Colon
}

/// The statements of a block: up to Dedent (or Eof), skipping blank lines.
pub open spec fn sp_stmts(t: Seq<Spanned>, q: nat, acc: Seq<StmtV>) -> PR<Seq<StmtV>>
    decreases t.len() - q, 20nat,
{
    if q > t.len() {
        stuck(q)
    } else if tok(t, q) == Token::Dedent || tok(t, q) == Token::Eof {
        Ok((acc, q))
    } else {
        let q1 = skip_nl(t, q);
        if tok(t, q1) == Token::Dedent {
            Ok((acc, q1))
        } else if fwd_eq(t, q, q1) {
            match sp_stmt(t, q1) {
                Err(e) => Err(e),
                Ok((s, q2)) => if fwd(t, q, q2) { sp_stmts(t, q2, acc.push(s)) } else { stuck(q) },
            }
        } else {
            stuck(q)
        }
    }
}

/// A statement, and the Newline after it.
pub open spec fn sp_stmt(t: Seq<Spanned>, p: nat) -> PR<StmtV>
    decreases t.len() - p, 19nat,
{
    if p > t.len() {
        stuck(p)
    } else {
        let r: PR<StmtV> = match tok(t, p) {
            Token::Let => sp_let(t, p),
            Token::Mut => sp_mut(t, p),
            Token::Return => {
                let p1 = adv(t, p);
                let k = tok(t, p1);
                if k == Token::Newline || k == Token::Eof || k == Token::Dedent {
                    Ok((StmtV::Return(None), p1))
                } else if fwd(t, p, p1) {
                    match sp_expr(t, p1) {
                        Err(e) => Err(e),
                        Ok((e, q)) => Ok((StmtV::Return(Some(e)), q)),
                    }
                } else {
                    stuck(p)
                }
            },
            Token::Break => Ok((StmtV::Break, adv(t, p))),
            Token::Continue => Ok((StmtV::Continue, adv(t, p))),
            Token::For => sp_for(t, p),
            Token::While => sp_while(t, p),
            Token::Loop => sp_loop(t, p),
            _ => match sp_expr(t, p) {
                Err(e) => Err(e),
                Ok((e, p1)) => {
                    if tok(t, p1) == Token::Eq {
                        if fwd(t, p, adv(t, p1)) {
                            match sp_expr(t, adv(t, p1)) {
                                Err(er) => Err(er),
                                Ok((v, p2)) => Ok((StmtV::Assign { target: e, value: v }, p2)),
                            }
                        } else {
                            stuck(p)
                        }
                    } else {
                        Ok((StmtV::Expr(e), p1))
                    }
                },
            },
        };
        match r {
            Err(e) => Err(e),
            Ok((s, q)) => Ok((s, eat_nl(t, q))),
        }
    }
}

/// `let name (: type)? = expr` (or `mut ...` with `is_mut`).
pub open spec fn sp_decl(t: Seq<Spanned>, p: nat, is_mut: bool) -> PR<StmtV>
    decreases t.len() - p, 1nat,
{
    match sp_expect(t, p, if is_mut { Token::Mut } else { Token::Let }) {
        Err(e) => Err(e),
        Ok(p1) => match sp_ident(t, p1) {
            Err(e) => Err(e),
            Ok((name, p2)) => {
                let tyr: PR<Option<TypeV>> = if tok(t, p2) == Token::Colon {
                    match sp_type(t, adv(t, p2)) {
                        Err(e) => Err(e),
                        Ok((ty, p3)) => Ok((Some(ty), p3)),
                    }
                } else {
                    Ok((None, p2))
                };
                match tyr {
                    Err(e) => Err(e),
                    Ok((ty, p3)) => match sp_expect(t, p3, Token::Eq) {
                        Err(e) => Err(e),
                        Ok(p4) => {
                            if fwd(t, p, p4) {
                                match sp_expr(t, p4) {
                                    Err(e) => Err(e),
                                    Ok((v, p5)) => Ok((
                                        if is_mut {
                                            StmtV::Mut { name, ty, value: v }
                                        } else {
                                            StmtV::Let { name, ty, value: v }
                                        },
                                        p5,
                                    )),
                                }
                            } else {
                                stuck(p)
                            }
                        },
                    },
                }
            },
        },
    }
}

/// `let` declaration.
pub open spec fn sp_let(t: Seq<Spanned>, p: nat) -> PR<StmtV>
    decreases t.len() - p, 2nat,
{
    sp_decl(t, p, false)
}

/// `mut` declaration.
pub open spec fn sp_mut(t: Seq<Spanned>, p: nat) -> PR<StmtV>
    decreases t.len() - p, 2nat,
{
    sp_decl(t, p, true)
}

/// `for var in expr:` block.
pub open spec fn sp_for(t: Seq<Spanned>, p: nat) -> PR<StmtV>
    decreases t.len() - p, 1nat,
{
    match sp_expect(t, p, Token::For) {
        Err(e) => Err(e),
        Ok(p1) => match sp_ident(t, p1) {
            Err(e) => Err(e),
            Ok((var, p2)) => match sp_expect(t, p2, Token::In) {
                Err(e) => Err(e),
                Ok(p3) => {
                    if fwd(t, p, p3) {
                        match sp_expr(t, p3) {
                            Err(e) => Err(e),
                            Ok((it, p4)) => match sp_expect(t, p4, Token::Colon) {
                                Err(e) => Err(e),
                                Ok(p5) => {
                                    if fwd(t, p, p5) {
                                        match sp_block(t, p5) {
                                            Err(e) => Err(e),
                                            Ok((body, q)) => Ok((StmtV::For { var, iter: it, body }, q)),
                                        }
                                    } else {
                                        stuck(p)
                                    }
                                },
                            },
                        }
                    } else {
                        stuck(p)
                    }
                },
            },
        },
    }
}

/// `while cond:` block.
pub open spec fn sp_while(t: Seq<Spanned>, p: nat) -> PR<StmtV>
    decreases t.len() - p, 1nat,
{
    match sp_expect(t, p, Token::While) {
        Err(e) => Err(e),
        Ok(p1) => {
            if fwd(t, p, p1) {
                match sp_expr(t, p1) {
                    Err(e) => Err(e),
                    Ok((c, p2)) => match sp_expect(t, p2, Token::Colon) {
                        Err(e) => Err(e),
                        Ok(p3) => {
                            if fwd(t, p, p3) {
                                match sp_block(t, p3) {
                                    Err(e) => Err(e),
                                    Ok((body, q)) => Ok((StmtV::While { cond: c, body }, q)),
                                }
                            } else {
                                stuck(p)
                            }
                        },
                    },
                }
            } else {
                stuck(p)
            }
        },
    }
}

/// `loop:` block.
pub open spec fn sp_loop(t: Seq<Spanned>, p: nat) -> PR<StmtV>
    decreases t.len() - p, 1nat,
{
    match sp_expect(t, p, Token::Loop) {
        Err(e) => Err(e),
        Ok(p1) => match sp_expect(t, p1, Token::Colon) {
            Err(e) => Err(e),
            Ok(p2) => {
                if fwd(t, p, p2) {
                    match sp_block(t, p2) {
                        Err(e) => Err(e),
                        Ok((body, q)) => Ok((StmtV::Loop(body), q)),
                    }
                } else {
                    stuck(p)
                }
            },
        },
    }
}

/// A block after `:`: Newline, Indent, statements, Dedent.
pub open spec fn sp_block(t: Seq<Spanned>, p: nat) -> PR<Seq<StmtV>>
    decreases t.len() - p, 1nat,
{
    match sp_expect(t, p, Token::Newline) {
        Err(e) => Err(e),
        Ok(p1) => match sp_expect(t, p1, Token::Indent) {
            Err(e) => Err(e),
            Ok(p2) => {
                if fwd(t, p, p2) {
                    match sp_stmts(t, p2, Seq::empty()) {
                        Err(e) => Err(e),
                        Ok((ss, q)) => match sp_expect(t, q, Token::Dedent) {
                            Err(e) => Err(e),
                            Ok(q2) => Ok((ss, q2)),
                        },
                    }
                } else {
                    stuck(p)
                }
            },
        },
    }
}

/// An expression.
pub open spec fn sp_expr(t: Seq<Spanned>, p: nat) -> PR<ExprV>
    decreases t.len() - p, 17nat,
{
    sp_range(t, p)
}

/// `a .. b`, `a ..= b`, or a catch-level expression.
pub open spec fn sp_range(t: Seq<Spanned>, p: nat) -> PR<ExprV>
    decreases t.len() - p, 16nat,
{
    match sp_catch(t, p) {
        Err(e) => Err(e),
        Ok((e, p1)) => {
            let k = tok(t, p1);
            if k == Token::DotDot || k == Token::DotDotEq {
                if fwd(t, p, adv(t, p1)) {
                    match sp_catch(t, adv(t, p1)) {
                        Err(er) => Err(er),
                        Ok((end, q)) => Ok((
                            ExprV::Range { start: Box::new(e), end: Box::new(end), inclusive: k == Token::DotDotEq },
                            q,
                        )),
                    }
                } else {
                    stuck(p)
                }
            } else {
                Ok((e, p1))
            }
        },
    }
}

/// `expr catch default`, `expr catch |e| expr`, `expr catch |e|:` block, or a `?` expression.
pub open spec fn sp_catch(t: Seq<Spanned>, p: nat) -> PR<ExprV>
    decreases t.len() - p, 15nat,
{
    match sp_try_op(t, p) {
        Err(e) => Err(e),
        Ok((e, p1)) => {
            if tok(t, p1) == Token::Catch {
                let p2 = adv(t, p1);
                let hr: PR<HandlerV> = if tok(t, p2) == Token::Pipe {
                    match sp_ident(t, adv(t, p2)) {
                        Err(er) => Err(er),
                        Ok((name, p3)) => match sp_expect(t, p3, Token::Pipe) {
                            Err(er) => Err(er),
                            Ok(p4) => {
                                if tok(t, p4) == Token::Colon {
                                    if fwd(t, p, adv(t, p4)) {
                                        match sp_block(t, adv(t, p4)) {
                                            Err(er) => Err(er),
                                            Ok((ss, q)) => Ok((HandlerV::WithErrBlock(name, ss), q)),
                                        }
                                    } else {
                                        stuck(p)
                                    }
                                } else if fwd(t, p, p4) {
                                    match sp_expr(t, p4) {
                                        Err(er) => Err(er),
                                        Ok((b, q)) => Ok((HandlerV::WithErr(name, Box::new(b)), q)),
                                    }
                                } else {
                                    stuck(p)
                                }
                            },
                        },
                    }
                } else if fwd(t, p, p2) {
                    match sp_expr(t, p2) {
                        Err(er) => Err(er),
                        Ok((d, q)) => Ok((HandlerV::Default(Box::new(d)), q)),
                    }
                } else {
                    stuck(p)
                };
                match hr {
                    Err(er) => Err(er),
                    Ok((h, q)) => Ok((ExprV::Catch { expr: Box::new(e), handler: h }, q)),
                }
            } else {
                Ok((e, p1))
            }
        },
    }
}

/// An or-expression followed by postfix `?`s.
pub open spec fn sp_try_op(t: Seq<Spanned>, p: nat) -> PR<ExprV>
    decreases t.len() - p, 14nat,
{
    match sp_or(t, p) {
        Err(e) => Err(e),
        Ok((e, p1)) => Ok(sp_try_tail(t, p1, e)),
    }
}

/// `a || b || ...`
pub open spec fn sp_or(t: Seq<Spanned>, p: nat) -> PR<ExprV>
    decreases t.len() - p, 13nat,
{
    match sp_and(t, p) {
        Err(e) => Err(e),
        Ok((l, p1)) => if fwd_eq(t, p, p1) { sp_or_tail(t, p1, l) } else { stuck(p) },
    }
}

/// The `|| b` parts of an or-expression.
pub open spec fn sp_or_tail(t: Seq<Spanned>, q: nat, l: ExprV) -> PR<ExprV>
    decreases t.len() - q, 1nat,
{
    if q < t.len() && tok(t, q) == Token::Or {
        match sp_and(t, q + 1) {
            Err(e) => Err(e),
            Ok((r, q2)) => if fwd(t, q, q2) { sp_or_tail(t, q2, bin(BinOp::Or, l, r)) } else { stuck(q) },
        }
    } else {
        Ok((l, q))
    }
}

/// `a && b && ...`
pub open spec fn sp_and(t: Seq<Spanned>, p: nat) -> PR<ExprV>
    decreases t.len() - p, 12nat,
{
    match sp_compare(t, p) {
        Err(e) => Err(e),
        Ok((l, p1)) => if fwd_eq(t, p, p1) { sp_and_tail(t, p1, l) } else { stuck(p) },
    }
}

/// The `&& b` parts of an and-expression.
pub open spec fn sp_and_tail(t: Seq<Spanned>, q: nat, l: ExprV) -> PR<ExprV>
    decreases t.len() - q, 1nat,
{
    if q < t.len() && tok(t, q) == Token::And {
        match sp_compare(t, q + 1) {
            Err(e) => Err(e),
            Ok((r, q2)) => if fwd(t, q, q2) { sp_and_tail(t, q2, bin(BinOp::And, l, r)) } else { stuck(q) },
        }
    } else {
        Ok((l, q))
    }
}

/// `a < b` and the other comparisons; at most one comparison.
pub open spec fn sp_compare(t: Seq<Spanned>, p: nat) -> PR<ExprV>
    decreases t.len() - p, 11nat,
{
    match sp_add(t, p) {
        Err(e) => Err(e),
        Ok((l, p1)) => match compare_op(tok(t, p1)) {
            None => Ok((l, p1)),
            Some(op) => {
                if fwd(t, p, adv(t, p1)) {
                    match sp_add(t, adv(t, p1)) {
                        Err(e) => Err(e),
                        Ok((r, q)) => Ok((bin(op, l, r), q)),
                    }
                } else {
                    stuck(p)
                }
            },
        },
    }
}

/// `a + b - c ...`
pub open spec fn sp_add(t: Seq<Spanned>, p: nat) -> PR<ExprV>
    decreases t.len() - p, 10nat,
{
    match sp_mul(t, p) {
        Err(e) => Err(e),
        Ok((l, p1)) => if fwd_eq(t, p, p1) { sp_add_tail(t, p1, l) } else { stuck(p) },
    }
}

/// The `+ b` parts of an additive expression.
pub open spec fn sp_add_tail(t: Seq<Spanned>, q: nat, l: ExprV) -> PR<ExprV>
    decreases t.len() - q, 1nat,
{
    match add_op(tok(t, q)) {
        None => Ok((l, q)),
        Some(op) => {
            if fwd(t, q, adv(t, q)) {
                match sp_mul(t, adv(t, q)) {
                    Err(e) => Err(e),
                    Ok((r, q2)) => if fwd(t, q, q2) { sp_add_tail(t, q2, bin(op, l, r)) } else { stuck(q) },
                }
            } else {
                stuck(q)
            }
        },
    }
}

/// `a * b / c ...`
pub open spec fn sp_mul(t: Seq<Spanned>, p: nat) -> PR<ExprV>
    decreases t.len() - p, 9nat,
{
    match sp_unary(t, p) {
        Err(e) => Err(e),
        Ok((l, p1)) => if fwd_eq(t, p, p1) { sp_mul_tail(t, p1, l) } else { stuck(p) },
    }
}

/// The `* b` parts of a multiplicative expression.
pub open spec fn sp_mul_tail(t: Seq<Spanned>, q: nat, l: ExprV) -> PR<ExprV>
    decreases t.len() - q, 1nat,
{
    match mul_op(tok(t, q)) {
        None => Ok((l, q)),
        Some(op) => {
            if fwd(t, q, adv(t, q)) {
                match sp_unary(t, adv(t, q)) {
                    Err(e) => Err(e),
                    Ok((r, q2)) => if fwd(t, q, q2) { sp_mul_tail(t, q2, bin(op, l, r)) } else { stuck(q) },
                }
            } else {
                stuck(q)
            }
        },
    }
}

/// `-a`, `!a`, or a postfix expression.
pub open spec fn sp_unary(t: Seq<Spanned>, p: nat) -> PR<ExprV>
    decreases t.len() - p, 8nat,
{
    let k = tok(t, p);
    if k == Token::Minus || k == Token::Not {
        if fwd(t, p, adv(t, p)) {
            match sp_unary(t, adv(t, p)) {
                Err(e) => Err(e),
                Ok((e, q)) => Ok((
                    ExprV::UnOp { op: if k == Token::Minus { UnOp::Neg } else { UnOp::Not }, expr: Box::new(e) },
                    q,
                )),
            }
        } else {
            stuck(p)
        }
    } else {
        sp_postfix(t, p)
    }
}

/// A primary expression followed by `.field`, `.method(args)`, `(args)` and `[idx]`.
pub open spec fn sp_postfix(t: Seq<Spanned>, p: nat) -> PR<ExprV>
    decreases t.len() - p, 7nat,
{
    match sp_primary(t, p) {
        Err(e) => Err(e),
        Ok((e, p1)) => if fwd_eq(t, p, p1) { sp_post_tail(t, p1, e) } else { stuck(p) },
    }
}

/// Arguments in parentheses, and the `)`.
pub open spec fn sp_call_args(t: Seq<Spanned>, q: nat) -> PR<Seq<ExprV>>
    decreases t.len() - q, 19nat,
{
    match sp_args(t, q, Seq::empty()) {
        Err(e) => Err(e),
        Ok((args, q1)) => match sp_expect(t, q1, Token::RParen) {
            Err(e) => Err(e),
            Ok(q2) => Ok((args, q2)),
        },
    }
}

/// The postfix operators after an expression.
pub open spec fn sp_post_tail(t: Seq<Spanned>, q: nat, e: ExprV) -> PR<ExprV>
    decreases t.len() - q, 1nat,
{
    let k = tok(t, q);
    if q >= t.len() {
        Ok((e, q))
    } else if k == Token::Dot {
        match sp_ident(t, q + 1) {
            Err(er) => Err(er),
            Ok((name, q2)) => {
                let fld = ExprV::Field { expr: Box::new(e), name };
                if tok(t, q2) == Token::LParen {
                    if fwd(t, q, adv(t, q2)) {
                        match sp_call_args(t, adv(t, q2)) {
                            Err(er) => Err(er),
                            Ok((args, q3)) => if fwd(t, q, q3) {
                                sp_post_tail(t, q3, ExprV::Call { func: Box::new(fld), args })
                            } else {
                                stuck(q)
                            },
                        }
                    } else {
                        stuck(q)
                    }
                } else if fwd(t, q, q2) {
                    sp_post_tail(t, q2, fld)
                } else {
                    stuck(q)
                }
            },
        }
    } else if k == Token::LParen {
        match sp_call_args(t, q + 1) {
            Err(er) => Err(er),
            Ok((args, q3)) => if fwd(t, q, q3) {
                sp_post_tail(t, q3, ExprV::Call { func: Box::new(e), args })
            } else {
                stuck(q)
            },
        }
    } else if k == Token::LBracket {
        match sp_expr(t, q + 1) {
            Err(er) => Err(er),
            Ok((idx, q2)) => match sp_expect(t, q2, Token::RBracket) {
                Err(er) => Err(er),
                Ok(q3) => if fwd(t, q, q3) {
                    sp_post_tail(t, q3, ExprV::Index { expr: Box::new(e), idx: Box::new(idx) })
                } else {
                    stuck(q)
                },
            },
        }
    } else {
        Ok((e, q))
    }
}

/// Call arguments: expressions separated by commas, up to (not including) `)`.
pub open spec fn sp_args(t: Seq<Spanned>, q: nat, acc: Seq<ExprV>) -> PR<Seq<ExprV>>
    decreases t.len() - q, 18nat,
{
    if q > t.len() {
        stuck(q)
    } else if tok(t, q) == Token::RParen {
        Ok((acc, q))
    } else {
        let q1r = if acc.len() > 0 { sp_expect(t, q, Token::Comma) } else { Ok(q) };
        match q1r {
            Err(e) => Err(e),
            Ok(q1) => {
                if tok(t, q1) == Token::RParen {
                    Ok((acc, q1))
                } else if fwd_eq(t, q, q1) {
                    match sp_expr(t, q1) {
                        Err(e) => Err(e),
                        Ok((e, q2)) => if fwd(t, q, q2) { sp_args(t, q2, acc.push(e)) } else { stuck(q) },
                    }
                } else {
                    stuck(q)
                }
            },
        }
    }
}

/// `KW ( expr )` for `Some`, `Ok` and `Err` at `p`: the inner expression and the end.
pub open spec fn sp_wrapped(t: Seq<Spanned>, p: nat) -> PR<ExprV>
    decreases t.len() - p, 5nat,
{
    match sp_expect(t, adv(t, p), Token::LParen) {
        Err(e) => Err(e),
        Ok(q) => {
            if fwd(t, p, q) {
                match sp_expr(t, q) {
                    Err(e) => Err(e),
                    Ok((e, q2)) => match sp_expect(t, q2, Token::RParen) {
                        Err(er) => Err(er),
                        Ok(q3) => Ok((e, q3)),
                    },
                }
            } else {
                stuck(p)
            }
        },
    }
}

/// The fields of a struct literal after `{`, up to (not including) `}`.
pub open spec fn sp_fields(t: Seq<Spanned>, q: nat, acc: Seq<(Seq<char>, ExprV)>) -> PR<Seq<(Seq<char>, ExprV)>>
    decreases t.len() - q, 1nat,
{
    if q > t.len() {
        stuck(q)
    } else if tok(t, q) == Token::RBrace {
        Ok((acc, q))
    } else {
        let q1r = if acc.len() > 0 { sp_expect(t, q, Token::Comma) } else { Ok(q) };
        match q1r {
            Err(e) => Err(e),
            Ok(q1) => {
                if tok(t, q1) == Token::RBrace {
                    Ok((acc, q1))
                } else {
                    match sp_ident(t, q1) {
                        Err(e) => Err(e),
                        Ok((n, q2)) => match sp_expect(t, q2, Token::Colon) {
                            Err(e) => Err(e),
                            Ok(q3) => {
                                if fwd(t, q, q3) {
                                    match sp_expr(t, q3) {
                                        Err(e) => Err(e),
                                        Ok((v, q4)) => if fwd(t, q, q4) { sp_fields(t, q4, acc.push((n, v))) } else { stuck(q) },
                                    }
                                } else {
                                    stuck(q)
                                }
                            },
                        },
                    }
                }
            },
        }
    }
}

/// A primary expression: a literal, a name, a struct literal, `Some(..)`/`Ok(..)`/`Err(..)`,
/// `if`, `match`, `try:`, a lambda, or an expression in parentheses.
pub open spec fn sp_primary(t: Seq<Spanned>, p: nat) -> PR<ExprV>
    decreases t.len() - p, 6nat,
{
    let k = tok(t, p);
    let p1 = adv(t, p);
    if p > t.len() {
        stuck(p)
    } else {
        match k {
            Token::Int(n) => Ok((ExprV::Int(n), p1)),
            Token::Float(s) => Ok((ExprV::Float(s@), p1)),
            Token::Str(s) => Ok((ExprV::Str(s@), p1)),
            Token::Bool(b) => Ok((ExprV::Bool(b), p1)),
            Token::Null => Ok((ExprV::Null, p1)),
            Token::NoneKw => Ok((ExprV::NoneVal, p1)),
            Token::SomeKw => match sp_wrapped(t, p) {
                Err(e) => Err(e),
                Ok((e, q)) => Ok((ExprV::SomeVal(Box::new(e)), q)),
            },
            Token::OkKw => match sp_wrapped(t, p) {
                Err(e) => Err(e),
                Ok((e, q)) => Ok((ExprV::OkVal(Box::new(e)), q)),
            },
            Token::ErrKw => match sp_wrapped(t, p) {
                Err(e) => Err(e),
                Ok((e, q)) => Ok((ExprV::ErrVal(Box::new(e)), q)),
            },
            Token::If => sp_if(t, p),
            Token::Match => sp_match(t, p),
            Token::Try => sp_try_block(t, p),
            Token::Pipe => sp_bar_lambda(t, p),
            Token::LParen => {
                if lambda_start(t, p) {
                    sp_lambda(t, p)
                } else if fwd(t, p, p1) {
                    match sp_expr(t, p1) {
                        Err(e) => Err(e),
                        Ok((e, q)) => match sp_expect(t, q, Token::RParen) {
                            Err(er) => Err(er),
                            Ok(q2) => Ok((e, q2)),
                        },
                    }
                } else {
                    stuck(p)
                }
            },
            Token::Ident(name) => {
                if tok(t, p1) == Token::LBrace && struct_lit_start(t, p1) {
                    let q = adv(t, p1);
                    if fwd(t, p, q) {
                        match sp_fields(t, q, Seq::empty()) {
                            Err(e) => Err(e),
                            Ok((fs, q2)) => match sp_expect(t, q2, Token::RBrace) {
                                Err(e) => Err(e),
                                Ok(q3) => Ok((ExprV::StructLit { name: name@, fields: fs }, q3)),
                            },
                        }
                    } else {
                        stuck(p)
                    }
                } else {
                    Ok((ExprV::Ident(name@), p1))
                }
            },
            x => Err(PErr::Msg("unexpected token in expression: "@ + tok_debug(x), p)),
        }
    }
}

/// Parameters `name: type` separated by commas, up to the `|` that closes a lambda's
/// parameters. Each type is a base type: a `|` after it closes the list.
pub open spec fn sp_bar_params(t: Seq<Spanned>, q: nat, acc: Seq<ParamV>) -> PR<Seq<ParamV>>
    decreases t.len() - q,
{
    if q > t.len() {
        stuck(q)
    } else if tok(t, q) == Token::Pipe {
        Ok((acc, q))
    } else {
        let q1r = if acc.len() > 0 { sp_expect(t, q, Token::Comma) } else { Ok(q) };
        match q1r {
            Err(e) => Err(e),
            Ok(q1) => match sp_ident(t, q1) {
                Err(e) => Err(e),
                Ok((n, q2)) => match sp_expect(t, q2, Token::Colon) {
                    Err(e) => Err(e),
                    Ok(q3) => match sp_base_type(t, q3) {
                        Err(e) => Err(e),
                        Ok((ty, q4)) => {
                            if fwd(t, q, q4) {
                                sp_bar_params(t, q4, acc.push(ParamV { name: n, ty, is_self: false }))
                            } else {
                                stuck(q)
                            }
                        },
                    },
                },
            },
        }
    }
}

/// The result type of a `|params|` lambda: `-> type` when an arrow follows.
pub open spec fn sp_bar_ret(t: Seq<Spanned>, p: nat) -> PR<Option<TypeV>> {
    if tok(t, p) == Token::Arrow {
        match sp_type(t, adv(t, p)) {
            Err(e) => Err(e),
            Ok((ty, q)) => Ok((Some(ty), q)),
        }
    } else {
        Ok((None, p))
    }
}

/// `|params| (-> type)? : body`
pub open spec fn sp_bar_lambda(t: Seq<Spanned>, p: nat) -> PR<ExprV>
    decreases t.len() - p, 1nat,
{
    match sp_expect(t, p, Token::Pipe) {
        Err(e) => Err(e),
        Ok(p1) => match sp_bar_params(t, p1, Seq::empty()) {
            Err(e) => Err(e),
            Ok((ps, p2)) => match sp_expect(t, p2, Token::Pipe) {
                Err(e) => Err(e),
                Ok(p3) => match sp_bar_ret(t, p3) {
                    Err(e) => Err(e),
                    Ok((ret, p4)) => match sp_expect(t, p4, Token::Colon) {
                        Err(e) => Err(e),
                        Ok(p5) => {
                            if fwd(t, p, p5) {
                                match sp_expr(t, p5) {
                                    Err(e) => Err(e),
                                    Ok((b, q)) => Ok((ExprV::Lambda { params: ps, ret, body: Box::new(b) }, q)),
                                }
                            } else {
                                stuck(p)
                            }
                        },
                    },
                },
            },
        },
    }
}

/// `(params) -> type => body`
pub open spec fn sp_lambda(t: Seq<Spanned>, p: nat) -> PR<ExprV>
    decreases t.len() - p, 1nat,
{
    match sp_expect(t, p, Token::LParen) {
        Err(e) => Err(e),
        Ok(p1) => match sp_params(t, p1, false) {
            Err(e) => Err(e),
            Ok((ps, p2)) => match sp_expect(t, p2, Token::RParen) {
                Err(e) => Err(e),
                Ok(p3) => match sp_expect(t, p3, Token::Arrow) {
                    Err(e) => Err(e),
                    Ok(p4) => match sp_type(t, p4) {
                        Err(e) => Err(e),
                        Ok((r, p5)) => match sp_expect(t, p5, Token::FatArrow) {
                            Err(e) => Err(e),
                            Ok(p6) => {
                                if fwd(t, p, p6) {
                                    match sp_expr(t, p6) {
                                        Err(e) => Err(e),
                                        Ok((b, q)) => Ok((ExprV::Lambda { params: ps, ret: Some(r), body: Box::new(b) }, q)),
                                    }
                                } else {
                                    stuck(p)
                                }
                            },
                        },
                    },
                },
            },
        },
    }
}

/// After `:`: an indented block (when a Newline follows) or an inline expression.
pub open spec fn sp_expr_or_block(t: Seq<Spanned>, p: nat) -> PR<ExprV>
    decreases t.len() - p, 18nat,
{
    if tok(t, p) == Token::Newline {
        match sp_block(t, p) {
            Err(e) => Err(e),
            Ok((ss, q)) => Ok((ExprV::Block(ss), q)),
        }
    } else {
        sp_expr(t, p)
    }
}

/// `elif cond: body` branches.
pub open spec fn sp_elifs(t: Seq<Spanned>, q: nat, acc: Seq<(ExprV, ExprV)>) -> PR<Seq<(ExprV, ExprV)>>
    decreases t.len() - q, 1nat,
{
    if q < t.len() && tok(t, q) == Token::Elif {
        match sp_expr(t, q + 1) {
            Err(e) => Err(e),
            Ok((c, q2)) => match sp_expect(t, q2, Token::Colon) {
                Err(e) => Err(e),
                Ok(q3) => {
                    if fwd(t, q, q3) {
                        match sp_expr_or_block(t, q3) {
                            Err(e) => Err(e),
                            Ok((b, q4)) => if fwd(t, q, q4) { sp_elifs(t, q4, acc.push((c, b))) } else { stuck(q) },
                        }
                    } else {
                        stuck(q)
                    }
                },
            },
        }
    } else {
        Ok((acc, q))
    }
}

/// `if cond: body (elif cond: body)* (else: body)?`
pub open spec fn sp_if(t: Seq<Spanned>, p: nat) -> PR<ExprV>
    decreases t.len() - p, 1nat,
{
    match sp_expect(t, p, Token::If) {
        Err(e) => Err(e),
        Ok(p1) => {
            if fwd(t, p, p1) {
                match sp_expr(t, p1) {
                    Err(e) => Err(e),
                    Ok((c, p2)) => match sp_expect(t, p2, Token::Colon) {
                        Err(e) => Err(e),
                        Ok(p3) => {
                            if fwd(t, p, p3) {
                                match sp_expr_or_block(t, p3) {
                                    Err(e) => Err(e),
                                    Ok((th, p4)) => {
                                        if fwd(t, p, p4) {
                                            match sp_elifs(t, p4, Seq::empty()) {
                                                Err(e) => Err(e),
                                                Ok((els, p5)) => {
                                                    if tok(t, p5) == Token::Else {
                                                        match sp_expect(t, adv(t, p5), Token::Colon) {
                                                            Err(e) => Err(e),
                                                            Ok(p6) => {
                                                                if fwd(t, p, p6) {
                                                                    match sp_expr_or_block(t, p6) {
                                                                        Err(e) => Err(e),
                                                                        Ok((eb, q)) => Ok((
                                                                            ExprV::If {
                                                                                cond: Box::new(c),
                                                                                then: Box::new(th),
                                                                                elifs: els,
                                                                                else_: Some(Box::new(eb)),
                                                                            },
                                                                            q,
                                                                        )),
                                                                    }
                                                                } else {
                                                                    stuck(p)
                                                                }
                                                            },
                                                        }
                                                    } else {
                                                        Ok((
                                                            ExprV::If {
                                                                cond: Box::new(c),
                                                                then: Box::new(th),
                                                                elifs: els,
                                                                else_: None,
                                                            },
                                                            p5,
                                                        ))
                                                    }
                                                },
                                            }
                                        } else {
                                            stuck(p)
                                        }
                                    },
                                }
                            } else {
                                stuck(p)
                            }
                        },
                    },
                }
            } else {
                stuck(p)
            }
        },
    }
}

/// The arms of a `match`: up to Dedent (or Eof), skipping blank lines.
pub open spec fn sp_arms(t: Seq<Spanned>, q: nat, acc: Seq<ArmV>) -> PR<Seq<ArmV>>
    decreases t.len() - q, 1nat,
{
    if q > t.len() {
        stuck(q)
    } else if tok(t, q) == Token::Dedent || tok(t, q) == Token::Eof {
        Ok((acc, q))
    } else {
        let q1 = skip_nl(t, q);
        if tok(t, q1) == Token::Dedent {
            Ok((acc, q1))
        } else {
            match sp_pattern(t, q1) {
                Err(e) => Err(e),
                Ok((pat, q2)) => match sp_expect(t, q2, Token::FatArrow) {
                    Err(e) => Err(e),
                    Ok(q3) => {
                        if fwd(t, q, q3) {
                            match sp_expr_or_block(t, q3) {
                                Err(e) => Err(e),
                                Ok((b, q4)) => {
                                    let q5 = eat_nl(t, q4);
                                    if fwd(t, q, q5) {
                                        sp_arms(t, q5, acc.push(ArmV { pattern: pat, body: b }))
                                    } else {
                                        stuck(q)
                                    }
                                },
                            }
                        } else {
                            stuck(q)
                        }
                    },
                },
            }
        }
    }
}

/// `match expr:` Newline Indent arms Dedent.
pub open spec fn sp_match(t: Seq<Spanned>, p: nat) -> PR<ExprV>
    decreases t.len() - p, 1nat,
{
    match sp_expect(t, p, Token::Match) {
        Err(e) => Err(e),
        Ok(p1) => {
            if fwd(t, p, p1) {
                match sp_expr(t, p1) {
                    Err(e) => Err(e),
                    Ok((e, p2)) => match sp_expect(t, p2, Token::Colon) {
                        Err(er) => Err(er),
                        Ok(p3) => match sp_expect(t, p3, Token::Newline) {
                            Err(er) => Err(er),
                            Ok(p4) => match sp_expect(t, p4, Token::Indent) {
                                Err(er) => Err(er),
                                Ok(p5) => {
                                    if fwd(t, p, p5) {
                                        match sp_arms(t, p5, Seq::empty()) {
                                            Err(er) => Err(er),
                                            Ok((arms, p6)) => match sp_expect(t, p6, Token::Dedent) {
                                                Err(er) => Err(er),
                                                Ok(q) => Ok((ExprV::Match { expr: Box::new(e), arms }, q)),
                                            },
                                        }
                                    } else {
                                        stuck(p)
                                    }
                                },
                            },
                        },
                    },
                }
            } else {
                stuck(p)
            }
        },
    }
}

/// `try:` block.
pub open spec fn sp_try_block(t: Seq<Spanned>, p: nat) -> PR<ExprV>
    decreases t.len() - p, 1nat,
{
    match sp_expect(t, p, Token::Try) {
        Err(e) => Err(e),
        Ok(p1) => match sp_expect(t, p1, Token::Colon) {
            Err(e) => Err(e),
            Ok(p2) => {
                if fwd(t, p, p2) {
                    match sp_block(t, p2) {
                        Err(e) => Err(e),
                        Ok((ss, q)) => Ok((ExprV::TryBlock(ss), q)),
                    }
                } else {
                    stuck(p)
                }
            },
        },
    }
}

// ------------------------------------------------------------
// Top level
// ------------------------------------------------------------

/// `fn name(params) (-> type)?:` block.
#[verifier::opaque]
pub open spec fn sp_fn(t: Seq<Spanned>, p: nat, is_method: bool) -> PR<TopV> {
    match sp_expect(t, p, Token::Fn) {
        Err(e) => Err(e),
        Ok(p1) => match sp_ident(t, p1) {
            Err(e) => Err(e),
            Ok((name, p2)) => match sp_expect(t, p2, Token::LParen) {
                Err(e) => Err(e),
                Ok(p3) => match sp_params(t, p3, is_method) {
                    Err(e) => Err(e),
                    Ok((ps, p4)) => match sp_expect(t, p4, Token::RParen) {
                        Err(e) => Err(e),
                        Ok(p5) => {
                            let rr: PR<Option<TypeV>> = if tok(t, p5) == Token::Arrow {
                                match sp_type(t, adv(t, p5)) {
                                    Err(e) => Err(e),
                                    Ok((r, p6)) => Ok((Some(r), p6)),
                                }
                            } else {
                                Ok((None, p5))
                            };
                            match rr {
                                Err(e) => Err(e),
                                Ok((ret, p6)) => match sp_expect(t, p6, Token::Colon) {
                                    Err(e) => Err(e),
                                    Ok(p7) => match sp_block(t, p7) {
                                        Err(e) => Err(e),
                                        Ok((body, q)) => Ok((TopV::Fn { name, params: ps, ret, body }, q)),
                                    },
                                },
                            }
                        },
                    },
                },
            },
        },
    }
}

/// The fields of a struct declaration: `name: type` lines up to Dedent (or Eof).
pub open spec fn sp_struct_fields(t: Seq<Spanned>, q: nat, acc: Seq<(Seq<char>, TypeV)>) -> PR<
    Seq<(Seq<char>, TypeV)>,
>
    decreases t.len() - q,
{
    if q > t.len() {
        stuck(q)
    } else if tok(t, q) == Token::Dedent || tok(t, q) == Token::Eof {
        Ok((acc, q))
    } else {
        let q1 = skip_nl(t, q);
        if tok(t, q1) == Token::Dedent {
            Ok((acc, q1))
        } else {
            match sp_ident(t, q1) {
                Err(e) => Err(e),
                Ok((n, q2)) => match sp_expect(t, q2, Token::Colon) {
                    Err(e) => Err(e),
                    Ok(q3) => match sp_type(t, q3) {
                        Err(e) => Err(e),
                        Ok((ty, q4)) => {
                            let q5 = eat_nl(t, q4);
                            if fwd(t, q, q5) { sp_struct_fields(t, q5, acc.push((n, ty))) } else { stuck(q) }
                        },
                    },
                },
            }
        }
    }
}

/// `struct Name:` Newline Indent fields Dedent.
#[verifier::opaque]
pub open spec fn sp_struct(t: Seq<Spanned>, p: nat) -> PR<TopV> {
    match sp_expect(t, p, Token::Struct) {
        Err(e) => Err(e),
        Ok(p1) => match sp_ident(t, p1) {
            Err(e) => Err(e),
            Ok((name, p2)) => match sp_expect(t, p2, Token::Colon) {
                Err(e) => Err(e),
                Ok(p3) => match sp_expect(t, p3, Token::Newline) {
                    Err(e) => Err(e),
                    Ok(p4) => match sp_expect(t, p4, Token::Indent) {
                        Err(e) => Err(e),
                        Ok(p5) => match sp_struct_fields(t, p5, Seq::empty()) {
                            Err(e) => Err(e),
                            Ok((fs, p6)) => match sp_expect(t, p6, Token::Dedent) {
                                Err(e) => Err(e),
                                Ok(q) => Ok((TopV::Struct { name, fields: fs }, q)),
                            },
                        },
                    },
                },
            },
        },
    }
}

/// The methods of an `impl`: functions up to Dedent (or Eof).
pub open spec fn sp_methods(t: Seq<Spanned>, q: nat, acc: Seq<TopV>) -> PR<Seq<TopV>>
    decreases t.len() - q,
{
    if q > t.len() {
        stuck(q)
    } else if tok(t, q) == Token::Dedent || tok(t, q) == Token::Eof {
        Ok((acc, q))
    } else {
        let q1 = skip_nl(t, q);
        if tok(t, q1) == Token::Dedent {
            Ok((acc, q1))
        } else {
            match sp_fn(t, q1, true) {
                Err(e) => Err(e),
                Ok((m, q2)) => if fwd(t, q, q2) { sp_methods(t, q2, acc.push(m)) } else { stuck(q) },
            }
        }
    }
}

/// `impl Name:` Newline Indent methods Dedent.
#[verifier::opaque]
pub open spec fn sp_impl(t: Seq<Spanned>, p: nat) -> PR<TopV> {
    match sp_expect(t, p, Token::Impl) {
        Err(e) => Err(e),
        Ok(p1) => match sp_ident(t, p1) {
            Err(e) => Err(e),
            Ok((name, p2)) => match sp_expect(t, p2, Token::Colon) {
                Err(e) => Err(e),
                Ok(p3) => match sp_expect(t, p3, Token::Newline) {
                    Err(e) => Err(e),
                    Ok(p4) => match sp_expect(t, p4, Token::Indent) {
                        Err(e) => Err(e),
                        Ok(p5) => match sp_methods(t, p5, Seq::empty()) {
                            Err(e) => Err(e),
                            Ok((ms, p6)) => match sp_expect(t, p6, Token::Dedent) {
                                Err(e) => Err(e),
                                Ok(q) => Ok((TopV::Impl { name, methods: ms }, q)),
                            },
                        },
                    },
                },
            },
        },
    }
}

/// `.name` parts of a dotted path.
pub open spec fn sp_dotted_tail(t: Seq<Spanned>, q: nat, acc: Seq<Seq<char>>) -> PR<Seq<Seq<char>>>
    decreases t.len() - q,
{
    if q < t.len() && tok(t, q) == Token::Dot {
        match sp_ident(t, q + 1) {
            Err(e) => Err(e),
            Ok((n, q2)) => if fwd(t, q, q2) { sp_dotted_tail(t, q2, acc.push(n)) } else { stuck(q) },
        }
    } else {
        Ok((acc, q))
    }
}

/// `import a.b.c (as alias)?`
#[verifier::opaque]
pub open spec fn sp_import(t: Seq<Spanned>, p: nat) -> PR<TopV> {
    match sp_expect(t, p, Token::Import) {
        Err(e) => Err(e),
        Ok(p1) => match sp_ident(t, p1) {
            Err(e) => Err(e),
            Ok((first, p2)) => match sp_dotted_tail(t, p2, seq![first]) {
                Err(e) => Err(e),
                Ok((path, p3)) => {
                    let ar: PR<Option<Seq<char>>> = if tok(t, p3) == Token::As {
                        match sp_ident(t, adv(t, p3)) {
                            Err(e) => Err(e),
                            Ok((a, p4)) => Ok((Some(a), p4)),
                        }
                    } else {
                        Ok((None, p3))
                    };
                    match ar {
                        Err(e) => Err(e),
                        Ok((alias, p4)) => Ok((TopV::Import { path, alias }, eat_nl(t, p4))),
                    }
                },
            },
        },
    }
}

/// The imported names of a `from` import: `name (as alias)?` separated by commas.
pub open spec fn sp_import_names(t: Seq<Spanned>, q: nat, acc: Seq<(Seq<char>, Option<Seq<char>>)>) -> PR<
    Seq<(Seq<char>, Option<Seq<char>>)>,
>
    decreases t.len() - q,
{
    if q > t.len() {
        stuck(q)
    } else {
        match sp_ident(t, q) {
            Err(e) => Err(e),
            Ok((n, q1)) => {
                let ar: PR<Option<Seq<char>>> = if tok(t, q1) == Token::As {
                    match sp_ident(t, adv(t, q1)) {
                        Err(e) => Err(e),
                        Ok((a, q2)) => Ok((Some(a), q2)),
                    }
                } else {
                    Ok((None, q1))
                };
                match ar {
                    Err(e) => Err(e),
                    Ok((alias, q2)) => {
                        if tok(t, q2) == Token::Comma {
                            if fwd(t, q, adv(t, q2)) {
                                sp_import_names(t, adv(t, q2), acc.push((n, alias)))
                            } else {
                                stuck(q)
                            }
                        } else {
                            Ok((acc.push((n, alias)), q2))
                        }
                    },
                }
            },
        }
    }
}

/// The segments `/name` of a local import path, from `q` on.
pub open spec fn sp_slash_tail(t: Seq<Spanned>, q: nat, acc: Seq<Seq<char>>) -> PR<Seq<Seq<char>>>
    decreases t.len() - q,
{
    if q < t.len() && tok(t, q) == Token::Slash {
        match sp_ident(t, q + 1) {
            Err(e) => Err(e),
            Ok((n, q2)) => if fwd(t, q, q2) { sp_slash_tail(t, q2, acc.push(n)) } else { stuck(q) },
        }
    } else {
        Ok((acc, q))
    }
}

/// The rest of a `from` import after its source: `import names`.
pub open spec fn sp_from_rest(t: Seq<Spanned>, p: nat, source: ImportSource, path: Seq<Seq<char>>) -> PR<TopV> {
    match sp_expect(t, p, Token::Import) {
        Err(e) => Err(e),
        Ok(p1) => match sp_import_names(t, p1, Seq::empty()) {
            Err(e) => Err(e),
            Ok((names, p2)) => Ok((TopV::FromImport { source, path, names }, eat_nl(t, p2))),
        },
    }
}

/// `from std(.path)* import names`, `from skp(.path)* import names`, or a local file
/// `from ./a/b import names` (`../a/b` one directory up, its path starting with `..`).
#[verifier::opaque]
pub open spec fn sp_from_import(t: Seq<Spanned>, p: nat) -> PR<TopV> {
    match sp_expect(t, p, Token::From) {
        Err(e) => Err(e),
        Ok(p1) => if tok(t, p1) == Token::Dot || tok(t, p1) == Token::DotDot {
            let prefix: Seq<Seq<char>> = if tok(t, p1) == Token::Dot { Seq::empty() } else { seq![".."@] };
            match sp_expect(t, adv(t, p1), Token::Slash) {
                Err(e) => Err(e),
                Ok(p2) => match sp_ident(t, p2) {
                    Err(e) => Err(e),
                    Ok((n, p3)) => match sp_slash_tail(t, p3, prefix.push(n)) {
                        Err(e) => Err(e),
                        Ok((path, p4)) => sp_from_rest(t, p4, ImportSource::Local, path),
                    },
                },
            }
        } else {
            match sp_ident(t, p1) {
                Err(e) => Err(e),
                Ok((first, p2)) => {
                    if first != "std"@ && first != "skp"@ {
                        Err(PErr::Msg("unknown import source '"@ + first + "'. use 'std' or 'skp'"@, p2))
                    } else {
                        let source = if first == "std"@ { ImportSource::Std } else { ImportSource::Skp };
                        match sp_dotted_tail(t, p2, Seq::empty()) {
                            Err(e) => Err(e),
                            Ok((path, p3)) => sp_from_rest(t, p3, source, path),
                        }
                    }
                },
            }
        },
    }
}

/// A top-level item.
#[verifier::opaque]
pub open spec fn sp_top(t: Seq<Spanned>, p: nat) -> PR<TopV> {
    match tok(t, p) {
        Token::Fn => sp_fn(t, p, false),
        Token::Struct => sp_struct(t, p),
        Token::Impl => sp_impl(t, p),
        Token::Import => sp_import(t, p),
        Token::From => sp_from_import(t, p),
        x => Err(PErr::Msg("unexpected token at top level: "@ + tok_debug(x), p)),
    }
}

/// Top-level items up to Eof, with blank lines between them.
pub open spec fn sp_items(t: Seq<Spanned>, q: nat, acc: Seq<TopV>) -> PR<Seq<TopV>>
    decreases t.len() - q,
{
    if q > t.len() {
        stuck(q)
    } else if tok(t, q) == Token::Eof {
        Ok((acc, q))
    } else {
        match sp_top(t, q) {
            Err(e) => Err(e),
            Ok((it, q1)) => {
                let q2 = skip_nl(t, q1);
                if fwd(t, q, q2) { sp_items(t, q2, acc.push(it)) } else { stuck(q) }
            },
        }
    }
}

/// A whole program.
pub open spec fn sp_program(t: Seq<Spanned>) -> PR<Seq<TopV>> {
    sp_items(t, skip_nl(t, 0), Seq::empty())
}

/// A program that parses is read to its end: the parse stops at the end-of-file token, and
/// the items read before are kept, in order, at the front of the result.
pub proof fn law_parse_reads_to_eof(t: Seq<Spanned>, q: nat, acc: Seq<TopV>)
    ensures
        sp_items(t, q, acc) matches Ok((items, p)) ==> tok(t, p) == Token::Eof && items.len() >= acc.len()
            && items.subrange(0, acc.len() as int) == acc,
    decreases t.len() - q,
{
    if q <= t.len() && tok(t, q) != Token::Eof {
        match sp_top(t, q) {
            Ok((it, q1)) => {
                let q2 = skip_nl(t, q1);
                if fwd(t, q, q2) {
                    law_parse_reads_to_eof(t, q2, acc.push(it));
                    if let Ok((items, _)) = sp_items(t, q, acc) {
                        assert(items.subrange(0, acc.len() as int) =~= items.subrange(0, acc.len() + 1int).subrange(
                            0,
                            acc.len() as int,
                        ));
                        assert(acc.push(it).subrange(0, acc.len() as int) =~= acc);
                    }
                }
            },
            Err(_) => {},
        }
    } else if q <= t.len() {
        if let Ok((items, _)) = sp_items(t, q, acc) {
            assert(items.subrange(0, acc.len() as int) =~= acc);
        }
    }
}

/// Each comparison token stands for its own operator, and no two stand for the same one.
pub proof fn law_comparison_tokens(k1: Token, k2: Token)
    ensures
        compare_op(Token::EqEq) == Some(BinOp::Eq),
        compare_op(Token::NotEq) == Some(BinOp::NotEq),
        compare_op(Token::Lt) == Some(BinOp::Lt),
        compare_op(Token::LtEq) == Some(BinOp::LtEq),
        compare_op(Token::Gt) == Some(BinOp::Gt),
        compare_op(Token::GtEq) == Some(BinOp::GtEq),
        compare_op(k1) is Some && compare_op(k1) == compare_op(k2) ==> k1 == k2,
{
}

/// A comparison `a OP b` parses to the operator that `OP` names, between the two operands:
/// `<=` to `LtEq`, `<` to `Lt`, and so on.
pub proof fn law_comparison_parses_to_its_operator(t: Seq<Spanned>, p: nat)
    ensures
        sp_add(t, p) matches Ok((l, p1)) ==> (p <= p1 < t.len() ==> (sp_add(t, p1 + 1) matches Ok((r, q)) ==> {
            let k = t[p1 as int].token;
            &&& k == Token::EqEq ==> sp_compare(t, p) == Ok::<(ExprV, nat), PErr>((bin(BinOp::Eq, l, r), q))
            &&& k == Token::NotEq ==> sp_compare(t, p) == Ok::<(ExprV, nat), PErr>((bin(BinOp::NotEq, l, r), q))
            &&& k == Token::Lt ==> sp_compare(t, p) == Ok::<(ExprV, nat), PErr>((bin(BinOp::Lt, l, r), q))
            &&& k == Token::LtEq ==> sp_compare(t, p) == Ok::<(ExprV, nat), PErr>((bin(BinOp::LtEq, l, r), q))
            &&& k == Token::Gt ==> sp_compare(t, p) == Ok::<(ExprV, nat), PErr>((bin(BinOp::Gt, l, r), q))
            &&& k == Token::GtEq ==> sp_compare(t, p) == Ok::<(ExprV, nat), PErr>((bin(BinOp::GtEq, l, r), q))
        })),
{
}

} // verus!
