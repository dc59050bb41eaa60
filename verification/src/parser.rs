//! The parser: tokens to a syntax tree, by recursive descent.
//!
//! Each routine is proved to give what its counterpart in `parse_spec` describes.
use vstd::prelude::*;
use crate::ast::{
    lemma_arms_view_push, lemma_elifs_view_push, lemma_exprs_view_push, lemma_fields_view_push, lemma_names_view_push, lemma_params_view_push, lemma_patterns_view_push, lemma_stmts_view_push, lemma_tops_view_push, lemma_types_view_index, lemma_types_view_push,
    ArmV, ExprV, HandlerV, ParamV, PatternV, StmtV, TopV, TypeV, arms_view, elifs_view, expr_view, exprs_view, fields_view, names_view, opt_type_view, param_view, params_view, pattern_view, patterns_view, stmt_view, stmts_view, top_view, tops_view, type_view, types_view,
};
use crate::parse_spec::{
    PErr, PR, add_op, adv, bin, compare_op, eat, eat_nl, fwd, fwd_eq, generic_type, keyword_type, lambda_start, mul_op, self_param, skip_nl, sp_add, sp_add_tail, sp_and, sp_and_tail, sp_args, sp_arms, sp_bar_params, sp_base_type, sp_block, sp_bound_name, sp_call_args, sp_catch, sp_compare, sp_decl, sp_dotted_tail, sp_elifs, sp_expect, sp_expr, sp_expr_or_block, sp_fields, sp_fn, sp_fn_type_args, sp_for, sp_from_import, sp_ident, sp_if, sp_impl, sp_import, sp_import_names, sp_items, sp_lambda, sp_let, sp_loop, sp_match, sp_methods, sp_mul, sp_mul_tail, sp_mut, sp_or, sp_or_tail, sp_params, sp_params_list, sp_pattern, sp_pattern_alts, sp_post_tail, sp_postfix, sp_primary, sp_program, sp_range, sp_single_pattern, sp_stmt, sp_stmts, sp_struct, sp_struct_fields, sp_top, sp_try_block, sp_try_op, sp_try_tail, sp_type, sp_type_args, sp_unary, sp_union, sp_while, sp_wrapped, struct_lit_start, stuck, tok,
};
pub use crate::ast::{BinOp, CatchHandler, Expr, ImportSource, MatchArm, Param, Pattern, Stmt, TopLevel, Type, UnOp};
use crate::text::{push_str};
use crate::token::{is_plain, kind_of, same_token, push_token_debug, tok_debug, token_is, Span, Spanned, Token};

mod stmts;
mod exprs;
mod primary;
mod items;

verus! {

/// A parse error with the position of the token where it was found ((0, 0) past the end).
#[derive(Debug)]
pub struct ParseError {
    pub message: String,
    pub line: usize,
    pub col: usize,
}

impl ParseError {
    /// The text shown for this error: `[Parse Error] <message> (line <l>, col <c>)`.
    pub fn to_display_string(&self) -> (r: String)
        ensures
            r@ == "[Parse Error] "@ + self.message@ + " (line "@ + crate::text::decimal(self.line as nat)
                + ", col "@ + crate::text::decimal(self.col as nat) + ")"@,
    {
        let mut s = String::from_str("[Parse Error] ");
        push_str(&mut s, self.message.as_str());
        push_str(&mut s, " (line ");
        crate::text::push_decimal(&mut s, self.line as u64);
        push_str(&mut s, ", col ");
        crate::text::push_decimal(&mut s, self.col as u64);
        push_str(&mut s, ")");
        s
    }
}

/// The (line, column) reported for an error at token position `p`.
pub open spec fn err_span(t: Seq<Spanned>, p: nat) -> (usize, usize) {
    if p < t.len() { (t[p as int].span.line, t[p as int].span.col) } else { (0, 0) }
}

/// The routine did not stop with a panic.
pub open spec fn no_panic<V>(s: PR<V>) -> bool {
    !(s matches Err(PErr::Panic))
}

/// Why a parse stopped: an error to report, or a `dict<..>` or `Result<..>` type written
/// with fewer than the two arguments it takes, where the compiler stops with a panic.
#[derive(Debug)]
pub enum ParseFail {
    Error(ParseError),
    MissingTypeArgs,
}

/// The result `r` and end position `end` agree with the described outcome `s`,
/// taking results by `view`.
pub open spec fn agrees<T, V>(r: Result<T, ParseFail>, s: PR<V>, view: spec_fn(T) -> V, t: Seq<Spanned>, end: nat) -> bool {
    match s {
        Ok((v, q)) => r matches Ok(x) && view(x) == v && end == q,
        Err(PErr::Msg(m, ep)) => r matches Err(ParseFail::Error(e)) && e.message@ == m && (e.line, e.col) == err_span(t, ep),
        Err(PErr::Panic) => r matches Err(ParseFail::MissingTypeArgs),
    }
}

/// The result `r` of a whole parse and its end position agree with the described outcome
/// `s`, on inputs where no panic is described.
pub open spec fn agrees_reported<T, V>(
    r: Result<T, ParseError>,
    s: PR<V>,
    view: spec_fn(T) -> V,
    t: Seq<Spanned>,
    end: nat,
) -> bool {
    match s {
        Ok((v, q)) => r matches Ok(x) && view(x) == v && end == q,
        Err(PErr::Msg(m, ep)) => r matches Err(e) && e.message@ == m && (e.line, e.col) == err_span(t, ep),
        Err(PErr::Panic) => false,
    }
}

/// Whether a string is `lit`.
pub(crate) fn text_is(s: &String, lit: &str) -> (r: bool)
    ensures
        r == (s@ == lit@),
{
    let l = String::from_str(lit);
    *s == l
}

/// Reads a token list into a syntax tree.
pub struct Parser {
    tokens: Vec<Spanned>,
    pos: usize,
    eof: Token,
}

impl Parser {
    /// The tokens.
    pub closed spec fn toks(&self) -> Seq<Spanned> {
        self.tokens@
    }

    /// The current position.
    pub closed spec fn at(&self) -> nat {
        self.pos as nat
    }

    /// The stand-in token for positions past the end is `Eof`.
    pub closed spec fn ready(&self) -> bool {
        self.eof == Token::Eof
    }

    /// The parser's invariant: the position is within the tokens.
    pub open spec fn wf(&self) -> bool {
        &&& self.at() <= self.toks().len()
        &&& self.ready()
    }

    /// Whether every token has been read.
    fn at_end(&self) -> (r: bool)
        requires
            self.wf(),
        ensures
            r == (self.at() >= self.toks().len()),
    {
        self.pos >= self.tokens.len()
    }

    /// A parser at the first of `tokens`.
    pub fn new(tokens: Vec<Spanned>) -> (r: Self)
        ensures
            r.wf(),
            r.toks() == tokens@,
            r.at() == 0,
    {
        Self { tokens, pos: 0, eof: Token::Eof }
    }

    fn peek(&self) -> (r: &Token)
        requires
            self.wf(),
        ensures
            *r == tok(self.toks(), self.at()),
    {
        if self.pos < self.tokens.len() {
            &self.tokens[self.pos].token
        } else {
            &self.eof
        }
    }

    fn peek_is(&self, k: &Token) -> (r: bool)
        requires
            self.wf(),
            is_plain(*k),
        ensures
            r == (tok(self.toks(), self.at()) == *k),
    {
        token_is(self.peek(), k)
    }

    /// Whether the token `off` places ahead is `k`.
    fn peek_at_is(&self, off: usize, k: &Token) -> (r: bool)
        requires
            self.wf(),
            is_plain(*k),
        ensures
            r == (tok(self.toks(), (self.at() + off) as nat) == *k),
    {
        if off < self.tokens.len() - self.pos {
            token_is(&self.tokens[self.pos + off].token, k)
        } else {
            token_is(&self.eof, k)
        }
    }

    /// Whether the token `off` places ahead is an identifier.
    fn peek_at_ident(&self, off: usize) -> (r: bool)
        requires
            self.wf(),
        ensures
            r == (tok(self.toks(), (self.at() + off) as nat) is Ident),
    {
        if off < self.tokens.len() - self.pos {
            match &self.tokens[self.pos + off].token {
                Token::Ident(_) => true,
                _ => false,
            }
        } else {
            false
        }
    }

    fn advance(&mut self)
        requires
            old(self).wf(),
        ensures
            final(self).wf(),
            final(self).toks() == old(self).toks(),
            final(self).at() == adv(old(self).toks(), old(self).at()),
    {
        if self.pos < self.tokens.len() {
            self.pos += 1;
        }
    }

    /// Consumes the next token when it is `k` (text payloads compared by their characters);
    /// past the end the next token is Eof.
    fn eat(&mut self, k: &Token) -> (r: bool)
        requires
            old(self).wf(),
        ensures
            final(self).wf(),
            final(self).toks() == old(self).toks(),
            r == (tok(old(self).toks(), old(self).at())@ == k@),
            final(self).at() == if r { adv(old(self).toks(), old(self).at()) } else { old(self).at() },
            is_plain(*k) ==> r == (tok(old(self).toks(), old(self).at()) == *k),
            is_plain(*k) ==> final(self).at() == eat(old(self).toks(), old(self).at(), *k),
    {
        if same_token(self.peek(), k) {
            self.advance();
            true
        } else {
            false
        }
    }

    fn error(&self, message: String) -> (e: ParseFail)
        requires
            self.wf(),
        ensures
            e matches ParseFail::Error(pe) && pe.message == message && (pe.line, pe.col) == err_span(
                self.toks(),
                self.at(),
            ),
    {
        if self.pos < self.tokens.len() {
            let s = self.tokens[self.pos].span;
            ParseFail::Error(ParseError { message, line: s.line, col: s.col })
        } else {
            ParseFail::Error(ParseError { message, line: 0, col: 0 })
        }
    }

    fn expect(&mut self, k: &Token) -> (r: Result<(), ParseFail>)
        requires
            old(self).wf(),
            is_plain(*k),
        ensures
            final(self).wf(),
            final(self).toks() == old(self).toks(),
            match sp_expect(old(self).toks(), old(self).at(), *k) {
                Ok(q) => r is Ok && final(self).at() == q,
                Err(PErr::Msg(m, ep)) => r matches Err(ParseFail::Error(e)) && e.message@ == m && (e.line, e.col) == err_span(
                    old(self).toks(),
                    ep,
                ),
                Err(PErr::Panic) => false,
            },
    {
        if self.peek_is(k) {
            self.advance();
            Ok(())
        } else {
            let mut m = String::from_str("expected ");
            push_token_debug(&mut m, k);
            push_str(&mut m, ", got ");
            push_token_debug(&mut m, self.peek());
            Err(self.error(m))
        }
    }

    fn skip_newlines(&mut self)
        requires
            old(self).wf(),
        ensures
            final(self).wf(),
            final(self).toks() == old(self).toks(),
            final(self).at() == skip_nl(old(self).toks(), old(self).at()),
    {
        let nl = Token::Newline;
        while self.pos < self.tokens.len() && token_is(&self.tokens[self.pos].token, &nl)
            invariant
                self.wf(),
                self.toks() == old(self).toks(),
                nl == Token::Newline,
                skip_nl(self.toks(), old(self).at()) == skip_nl(self.toks(), self.at()),
            decreases self.toks().len() - self.pos,
        {
            self.pos += 1;
        }
    }

    fn parse_ident(&mut self) -> (r: Result<String, ParseFail>)
        requires
            old(self).wf(),
        ensures
            final(self).wf(),
            final(self).toks() == old(self).toks(),
            agrees(r, sp_ident(old(self).toks(), old(self).at()), |s: String| s@, old(self).toks(), final(self).at()),
            r is Ok ==> old(self).at() < final(self).at(),
    {
        match self.peek() {
            Token::Ident(s) => {
                let name = s.clone();
                self.advance();
                Ok(name)
            },
            t => {
                let mut m = String::from_str("expected identifier, got ");
                push_token_debug(&mut m, t);
                self.advance();
                Err(self.error(m))
            },
        }
    }
}

/// The type named by a type keyword.
fn keyword_type_of(k: &Token) -> (r: Option<Type>)
    ensures
        match r {
            Some(ty) => keyword_type(*k) == Some(type_view(ty)),
            None => keyword_type(*k) is None,
        },
{
    match k {
        Token::TInt => Some(Type::Int),
        Token::TI8 => Some(Type::I8),
        Token::TI16 => Some(Type::I16),
        Token::TI32 => Some(Type::I32),
        Token::TI64 => Some(Type::I64),
        Token::TUint => Some(Type::Uint),
        Token::TU8 => Some(Type::U8),
        Token::TU16 => Some(Type::U16),
        Token::TU32 => Some(Type::U32),
        Token::TU64 => Some(Type::U64),
        Token::TFloat => Some(Type::Float),
        Token::TF32 => Some(Type::F32),
        Token::TF64 => Some(Type::F64),
        Token::TString => Some(Type::String),
        Token::TStr => Some(Type::Str),
        Token::TBool => Some(Type::Bool),
        Token::TChar => Some(Type::Char),
        Token::TByte => Some(Type::Byte),
        Token::TVoid => Some(Type::Void),
        _ => None,
    }
}

/// A union type from its members.
pub open spec fn union_of(s: PR<Seq<TypeV>>) -> PR<TypeV> {
    match s {
        Ok((ts, q)) => Ok((TypeV::Union(ts), q)),
        Err(e) => Err(e),
    }
}

impl Parser {
    fn parse_type(&mut self) -> (r: Result<Type, ParseFail>)
        requires
            old(self).wf(),
        ensures
            final(self).wf(),
            final(self).toks() == old(self).toks(),
            agrees(r, sp_type(old(self).toks(), old(self).at()), |x: Type| type_view(x), old(self).toks(), final(self).at()),
            r is Ok ==> old(self).at() < final(self).at(),
        decreases old(self).toks().len() - old(self).at(), 3nat,
    {
        let ghost t = self.toks();
        let ghost p0 = self.at();
        let base = match self.parse_base_type() {
            Ok(b) => b,
            Err(e) => {
                return Err(e);
            },
        };
        if self.eat(&Token::Question) {
            return Ok(Type::Nullable(Box::new(base)));
        }
        if !self.eat(&Token::Pipe) {
            return Ok(base);
        }
        let mut types: Vec<Type> = Vec::new();
        types.push(base);
        proof {
            lemma_types_view_push(Seq::empty(), base);
            assert(types_view(Seq::<Type>::empty()) =~= Seq::<TypeV>::empty());
            assert(types_view(types@) == seq![type_view(base)]);
        }
        loop
            invariant
                self.wf(),
                self.toks() == t,
                self.toks() == old(self).toks(),
                p0 == old(self).at(),
                p0 < self.pos,
                sp_type(t, p0) == union_of(sp_union(t, self.at(), types_view(types@))),
            decreases t.len() - self.pos,
        {
            let ghost q = self.at();
            let ty = match self.parse_base_type() {
                Ok(x) => x,
                Err(e) => {
                    return Err(e);
                },
            };
            proof {
                lemma_types_view_push(types@, ty);
            }
            types.push(ty);
            if !self.eat(&Token::Pipe) {
                return Ok(Type::Union(types));
            }
        }
    }

    fn parse_base_type(&mut self) -> (r: Result<Type, ParseFail>)
        requires
            old(self).wf(),
        ensures
            final(self).wf(),
            final(self).toks() == old(self).toks(),
            agrees(r, sp_base_type(old(self).toks(), old(self).at()), |x: Type| type_view(x), old(self).toks(), final(self).at()),
            r is Ok ==> old(self).at() < final(self).at(),
        decreases old(self).toks().len() - old(self).at(), 1nat,
    {
        let ghost t = self.toks();
        let ghost p0 = self.at();
        match keyword_type_of(self.peek()) {
            Some(ty) => {
                self.advance();
                return Ok(ty);
            },
            None => {},
        }
        let is_fn = self.peek_is(&Token::Fn);
        let name_opt: Option<String> = match self.peek() {
            Token::Ident(n) => Some(n.clone()),
            _ => None,
        };
        if let Some(name) = name_opt {
            self.advance();
            if !self.eat(&Token::Lt) {
                return Ok(Type::Named(name));
            }
            let mut args: Vec<Type> = Vec::new();
            assert(types_view(args@) =~= Seq::<TypeV>::empty());
            loop
                invariant
                    self.wf(),
                    self.toks() == t,
                    self.toks() == old(self).toks(),
                    p0 == old(self).at(),
                    p0 < self.pos,
                    tok(t, p0) == Token::Ident(name),
                    tok(t, adv(t, p0)) == Token::Lt,
                    sp_type_args(t, adv(t, adv(t, p0)), Seq::empty()) == sp_type_args(t, self.at(), types_view(args@)),
                decreases t.len() - self.pos,
            {
                let ty = match self.parse_type() {
                    Ok(x) => x,
                    Err(e) => {
                        return Err(e);
                    },
                };
                proof {
                    lemma_types_view_push(args@, ty);
                }
                args.push(ty);
                if !self.eat(&Token::Comma) {
                    match self.expect(&Token::Gt) {
                        Ok(()) => {},
                        Err(e) => {
                            return Err(e);
                        },
                    }
                    if (text_is(&name, "dict") || text_is(&name, "Result")) && args.len() < 2 {
                        proof {
                            lemma_types_view_index(args@);
                            reveal_strlit("list");
                            reveal_strlit("set");
                            reveal_strlit("dict");
                            reveal_strlit("tuple");
                            reveal_strlit("Option");
                            reveal_strlit("Result");
                            assert(name@ == "dict"@ || name@ == "Result"@);
                            assert(types_view(args@).len() < 2);
                            assert("dict"@[0] == 'd' && "list"@[0] == 'l' && "set"@[0] == 's');
                            assert("Result"@[0] == 'R' && "tuple"@[0] == 't' && "Option"@[0] == 'O');
                            assert(generic_type(name@, types_view(args@)) == Err::<TypeV, PErr>(PErr::Panic));
                        }
                        return Err(ParseFail::MissingTypeArgs);
                    }
                    return Ok(generic_of(name, args));
                }
            }
        }
        if self.peek_is(&Token::LBracket) {
            self.advance();
            let el = match self.parse_type() {
                Ok(x) => x,
                Err(e) => {
                    return Err(e);
                },
            };
            match self.expect(&Token::RBracket) {
                Ok(()) => {},
                Err(e) => {
                    return Err(e);
                },
            }
            return Ok(Type::List(Box::new(el)));
        }
        if self.peek_is(&Token::LBrace) {
            self.advance();
            let k = match self.parse_type() {
                Ok(x) => x,
                Err(e) => {
                    return Err(e);
                },
            };
            match self.expect(&Token::Colon) {
                Ok(()) => {},
                Err(e) => {
                    return Err(e);
                },
            }
            let v = match self.parse_type() {
                Ok(x) => x,
                Err(e) => {
                    return Err(e);
                },
            };
            match self.expect(&Token::RBrace) {
                Ok(()) => {},
                Err(e) => {
                    return Err(e);
                },
            }
            return Ok(Type::Dict(Box::new(k), Box::new(v)));
        }
        if is_fn {
            self.advance();
            match self.expect(&Token::LParen) {
                Ok(()) => {},
                Err(e) => {
                    return Err(e);
                },
            }
            let ghost q0 = self.at();
            let mut args: Vec<Type> = Vec::new();
            assert(types_view(args@) =~= Seq::<TypeV>::empty());
            loop
                invariant
                    self.wf(),
                    self.toks() == t,
                    self.toks() == old(self).toks(),
                    p0 == old(self).at(),
                    p0 < q0 <= self.pos,
                    tok(t, p0) == Token::Fn,
                    sp_expect(t, adv(t, p0), Token::LParen) == Ok::<nat, PErr>(q0),
                    sp_fn_type_args(t, q0, Seq::empty()) == sp_fn_type_args(t, self.at(), types_view(args@)),
                decreases t.len() - self.pos,
            {
                if self.peek_is(&Token::RParen) {
                    self.advance();
                    match self.expect(&Token::Arrow) {
                        Ok(()) => {},
                        Err(e) => {
                            return Err(e);
                        },
                    }
                    let ret = match self.parse_type() {
                        Ok(x) => x,
                        Err(e) => {
                            return Err(e);
                        },
                    };
                    return Ok(Type::Fn(args, Box::new(ret)));
                }
                if args.len() > 0 {
                    match self.expect(&Token::Comma) {
                        Ok(()) => {},
                        Err(e) => {
                            return Err(e);
                        },
                    }
                }
                let ty = match self.parse_type() {
                    Ok(x) => x,
                    Err(e) => {
                        return Err(e);
                    },
                };
                proof {
                    lemma_types_view_push(args@, ty);
                }
                args.push(ty);
            }
        }
        let mut m = String::from_str("expected type, got ");
        push_token_debug(&mut m, self.peek());
        self.advance();
        Err(self.error(m))
    }
}

/// The type `name<args>`.
fn generic_of(name: String, args: Vec<Type>) -> (r: Type)
    requires
        args@.len() >= 1,
        generic_type(name@, types_view(args@)) is Ok,
    ensures
        generic_type(name@, types_view(args@)) == Ok::<TypeV, PErr>(type_view(r)),
{
    let mut args = args;
    let ghost a = args@;
    proof {
        lemma_types_view_index(a);
    }
    if text_is(&name, "list") {
        Type::List(Box::new(args.remove(0)))
    } else if text_is(&name, "set") {
        Type::SetOf(Box::new(args.remove(0)))
    } else if text_is(&name, "dict") {
        let k = args.remove(0);
        let v = args.remove(0);
        Type::Dict(Box::new(k), Box::new(v))
    } else if text_is(&name, "tuple") {
        Type::Tuple(args)
    } else if text_is(&name, "Option") {
        Type::Option(Box::new(args.remove(0)))
    } else if text_is(&name, "Result") {
        let ok = args.remove(0);
        let err = args.remove(0);
        Type::Result(Box::new(ok), Box::new(err))
    } else {
        Type::Generic(name, args)
    }
}


impl Parser {
    /// `( name )` after `Some`, `Ok` or `Err`.
    fn parse_bound_name(&mut self) -> (r: Result<String, ParseFail>)
        requires
            old(self).wf(),
            old(self).at() < old(self).toks().len(),
        ensures
            final(self).wf(),
            final(self).toks() == old(self).toks(),
            agrees(r, sp_bound_name(old(self).toks(), old(self).at()), |s: String| s@, old(self).toks(), final(self).at()),
            r is Ok ==> old(self).at() < final(self).at(),
    {
        self.advance();
        match self.expect(&Token::LParen) {
            Ok(()) => {},
            Err(e) => {
                return Err(e);
            },
        }
        let n = match self.parse_ident() {
            Ok(n) => n,
            Err(e) => {
                return Err(e);
            },
        };
        match self.expect(&Token::RParen) {
            Ok(()) => {},
            Err(e) => {
                return Err(e);
            },
        }
        Ok(n)
    }

    fn parse_single_pattern(&mut self) -> (r: Result<Pattern, ParseFail>)
        requires
            old(self).wf(),
        ensures
            final(self).wf(),
            final(self).toks() == old(self).toks(),
            agrees(r, sp_single_pattern(old(self).toks(), old(self).at()), |x: Pattern| pattern_view(x), old(self).toks(), final(self).at()),
            r is Ok ==> old(self).at() < final(self).at(),
    {
        match self.peek() {
            Token::Ident(s) => {
                let wild = text_is(s, "_");
                let name = s.clone();
                self.advance();
                if wild {
                    Ok(Pattern::Wildcard)
                } else {
                    Ok(Pattern::Ident(name))
                }
            },
            Token::Int(n) => {
                let n = *n;
                self.advance();
                Ok(Pattern::Int(n))
            },
            Token::Str(s) => {
                let s = s.clone();
                self.advance();
                Ok(Pattern::Str(s))
            },
            Token::Bool(b) => {
                let b = *b;
                self.advance();
                Ok(Pattern::Bool(b))
            },
            Token::NoneKw => {
                self.advance();
                Ok(Pattern::NoneVal)
            },
            Token::SomeKw => match self.parse_bound_name() {
                Ok(n) => Ok(Pattern::SomeVal(n)),
                Err(e) => Err(e),
            },
            Token::OkKw => match self.parse_bound_name() {
                Ok(n) => Ok(Pattern::OkVal(n)),
                Err(e) => Err(e),
            },
            Token::ErrKw => match self.parse_bound_name() {
                Ok(n) => Ok(Pattern::ErrVal(n)),
                Err(e) => Err(e),
            },
            t => {
                let mut m = String::from_str("expected pattern, got ");
                push_token_debug(&mut m, t);
                Err(self.error(m))
            },
        }
    }

    fn parse_pattern(&mut self) -> (r: Result<Pattern, ParseFail>)
        requires
            old(self).wf(),
        ensures
            final(self).wf(),
            final(self).toks() == old(self).toks(),
            agrees(r, sp_pattern(old(self).toks(), old(self).at()), |x: Pattern| pattern_view(x), old(self).toks(), final(self).at()),
            r is Ok ==> old(self).at() < final(self).at(),
    {
        let ghost t = self.toks();
        let ghost p0 = self.at();
        let pat = match self.parse_single_pattern() {
            Ok(x) => x,
            Err(e) => {
                return Err(e);
            },
        };
        if !self.eat(&Token::Pipe) {
            return Ok(pat);
        }
        let mut pats: Vec<Pattern> = Vec::new();
        pats.push(pat);
        proof {
            lemma_patterns_view_push(Seq::empty(), pat);
            assert(patterns_view(Seq::<Pattern>::empty()) =~= Seq::<PatternV>::empty());
        }
        loop
            invariant
                self.wf(),
                self.toks() == t,
                self.toks() == old(self).toks(),
                p0 == old(self).at(),
                p0 < self.pos,
                sp_pattern(t, p0) == match sp_pattern_alts(t, self.at(), patterns_view(pats@)) {
                    Ok((ps, q)) => Ok((PatternV::Or(ps), q)),
                    Err(e) => Err(e),
                },
            decreases t.len() - self.pos,
        {
            let x = match self.parse_single_pattern() {
                Ok(x) => x,
                Err(e) => {
                    return Err(e);
                },
            };
            proof {
                lemma_patterns_view_push(pats@, x);
            }
            pats.push(x);
            if !self.eat(&Token::Pipe) {
                return Ok(Pattern::Or(pats));
            }
        }
    }

    /// Parameters `name: type` up to the `|` that closes a lambda's parameters.
    fn parse_bar_params(&mut self) -> (r: Result<Vec<Param>, ParseFail>)
        requires
            old(self).wf(),
        ensures
            final(self).wf(),
            final(self).toks() == old(self).toks(),
            agrees(r, sp_bar_params(old(self).toks(), old(self).at(), Seq::empty()), |x: Vec<Param>| params_view(x@), old(self).toks(), final(self).at()),
            r is Ok ==> old(self).at() <= final(self).at(),
    {
        let ghost t = self.toks();
        let ghost p0 = self.at();
        let mut params: Vec<Param> = Vec::new();
        assert(params_view(params@) =~= Seq::<ParamV>::empty());
        loop
            invariant
                self.wf(),
                self.toks() == t,
                self.toks() == old(self).toks(),
                p0 == old(self).at(),
                p0 <= self.pos,
                sp_bar_params(t, p0, Seq::empty()) == sp_bar_params(t, self.at(), params_view(params@)),
            decreases t.len() - self.pos,
        {
            if self.peek_is(&Token::Pipe) {
                return Ok(params);
            }
            if params.len() > 0 {
                match self.expect(&Token::Comma) {
                    Ok(()) => {},
                    Err(e) => {
                        return Err(e);
                    },
                }
            }
            let name = match self.parse_ident() {
                Ok(n) => n,
                Err(e) => {
                    return Err(e);
                },
            };
            match self.expect(&Token::Colon) {
                Ok(()) => {},
                Err(e) => {
                    return Err(e);
                },
            }
            let ty = match self.parse_base_type() {
                Ok(x) => x,
                Err(e) => {
                    return Err(e);
                },
            };
            let prm = Param { name, ty, is_self: false };
            proof {
                lemma_params_view_push(params@, prm);
            }
            params.push(prm);
        }
    }

    fn parse_params(&mut self, is_method: bool) -> (r: Result<Vec<Param>, ParseFail>)
        requires
            old(self).wf(),
        ensures
            final(self).wf(),
            final(self).toks() == old(self).toks(),
            agrees(r, sp_params(old(self).toks(), old(self).at(), is_method), |x: Vec<Param>| params_view(x@), old(self).toks(), final(self).at()),
            r is Ok ==> old(self).at() <= final(self).at(),
    {
        let ghost t = self.toks();
        let ghost p0 = self.at();
        let mut params: Vec<Param> = Vec::new();
        assert(params_view(params@) =~= Seq::<ParamV>::empty());
        if is_method {
            let self_name: Option<String> = match self.peek() {
                Token::Ident(s) => if text_is(s, "self") { Some(s.clone()) } else { None },
                _ => None,
            };
            if let Some(sname) = self_name {
                self.advance();
                let ty_name = String::from_str("Self");
                let sp = Param { name: sname, ty: Type::Named(ty_name), is_self: true };
                proof {
                    lemma_params_view_push(params@, sp);
                }
                params.push(sp);
                assert(params_view(params@) =~= seq![self_param()]);
                if self.peek_is(&Token::RParen) {
                    return Ok(params);
                }
                match self.expect(&Token::Comma) {
                    Ok(()) => {},
                    Err(e) => {
                        return Err(e);
                    },
                }
            }
        }
        let ghost q0 = self.at();
        loop
            invariant
                self.wf(),
                self.toks() == t,
                self.toks() == old(self).toks(),
                p0 == old(self).at(),
                p0 <= self.pos,
                sp_params(t, p0, is_method) == sp_params_list(t, self.at(), params_view(params@)),
            decreases t.len() - self.pos,
        {
            if self.peek_is(&Token::RParen) {
                return Ok(params);
            }
            if params.len() > 0 {
                match self.expect(&Token::Comma) {
                    Ok(()) => {},
                    Err(e) => {
                        return Err(e);
                    },
                }
            }
            if self.peek_is(&Token::RParen) {
                return Ok(params);
            }
            let name = match self.parse_ident() {
                Ok(n) => n,
                Err(e) => {
                    return Err(e);
                },
            };
            match self.expect(&Token::Colon) {
                Ok(()) => {},
                Err(e) => {
                    return Err(e);
                },
            }
            let ty = match self.parse_type() {
                Ok(x) => x,
                Err(e) => {
                    return Err(e);
                },
            };
            let prm = Param { name, ty, is_self: false };
            proof {
                lemma_params_view_push(params@, prm);
            }
            params.push(prm);
        }
    }
}

/// An expression's view.
pub open spec fn ev(e: Expr) -> ExprV {
    expr_view(e)
}

proof fn lemma_skip_nl_bounds(t: Seq<Spanned>, p: nat)
    requires
        p <= t.len(),
    ensures
        p <= skip_nl(t, p) <= t.len(),
    decreases t.len() - p,
{
    if p < t.len() && t[p as int].token == Token::Newline {
        lemma_skip_nl_bounds(t, p + 1);
    }
}

} // verus!
