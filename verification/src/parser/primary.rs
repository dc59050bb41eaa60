//! Primary expressions: literals, names, lambdas, `if`, `match` and `try`.
use vstd::prelude::*;
use crate::ast::{
    lemma_arms_view_push, lemma_elifs_view_push, lemma_exprs_view_push, lemma_fields_view_push, lemma_names_view_push, lemma_params_view_push, lemma_patterns_view_push, lemma_stmts_view_push, lemma_tops_view_push, lemma_types_view_index, lemma_types_view_push,
    ArmV, BinOp, CatchHandler, Expr, ExprV, HandlerV, ImportSource, MatchArm, Param, ParamV, Pattern, PatternV, Stmt, StmtV, TopLevel, TopV, Type, TypeV, UnOp, arms_view, elifs_view, expr_view, exprs_view, fields_view, names_view, opt_type_view, param_view, params_view, pattern_view, patterns_view, stmt_view, stmts_view, top_view, tops_view, type_view, types_view,
};
use crate::parse_spec::{
    PErr, PR, add_op, adv, bin, compare_op, eat, eat_nl, fwd, fwd_eq, generic_type, keyword_type, lambda_start, mul_op, self_param, skip_nl, sp_add, sp_add_tail, sp_and, sp_and_tail, sp_args, sp_arms, sp_bar_lambda, sp_base_type, sp_block, sp_bound_name, sp_call_args, sp_catch, sp_compare, sp_decl, sp_dotted_tail, sp_elifs, sp_expect, sp_expr, sp_expr_or_block, sp_fields, sp_fn, sp_fn_type_args, sp_for, sp_from_import, sp_ident, sp_if, sp_impl, sp_import, sp_import_names, sp_items, sp_lambda, sp_let, sp_loop, sp_match, sp_methods, sp_mul, sp_mul_tail, sp_mut, sp_or, sp_or_tail, sp_params, sp_params_list, sp_pattern, sp_pattern_alts, sp_post_tail, sp_postfix, sp_primary, sp_program, sp_range, sp_single_pattern, sp_stmt, sp_stmts, sp_struct, sp_struct_fields, sp_top, sp_try_block, sp_try_op, sp_try_tail, sp_type, sp_type_args, sp_unary, sp_union, sp_while, sp_wrapped, struct_lit_start, stuck, tok,
};
use crate::text::{push_str};
use crate::token::{is_plain, kind_of, push_token_debug, tok_debug, token_is, Span, Spanned, Token};

use super::{
    ParseError, ParseFail, Parser, agrees, ev, lemma_skip_nl_bounds, text_is,
};

verus! {

impl Parser {
    /// `( expr )` after `Some`, `Ok` or `Err`.
    pub(crate) fn parse_wrapped(&mut self) -> (r: Result<Expr, ParseFail>)
        requires
            old(self).wf(),
            old(self).at() < old(self).toks().len(),
        ensures
            final(self).wf(),
            final(self).toks() == old(self).toks(),
            agrees(r, sp_wrapped(old(self).toks(), old(self).at()), |x: Expr| ev(x), old(self).toks(), final(self).at()),
            r is Ok ==> old(self).at() < final(self).at(),
        decreases old(self).toks().len() - old(self).at(), 5nat,
    {
        self.advance();
        match self.expect(&Token::LParen) {
            Ok(()) => {},
            Err(er) => {
                return Err(er);
            },
        }
        let e = match self.parse_expression() {
            Ok(e) => e,
            Err(er) => {
                return Err(er);
            },
        };
        match self.expect(&Token::RParen) {
            Ok(()) => {},
            Err(er) => {
                return Err(er);
            },
        }
        Ok(e)
    }

    #[verifier::spinoff_prover]
    #[verifier::rlimit(50)]
    pub(crate) fn parse_primary(&mut self) -> (r: Result<Expr, ParseFail>)
        requires
            old(self).wf(),
        ensures
            final(self).wf(),
            final(self).toks() == old(self).toks(),
            agrees(r, sp_primary(old(self).toks(), old(self).at()), |x: Expr| ev(x), old(self).toks(), final(self).at()),
            r is Ok ==> old(self).at() < final(self).at(),
        decreases old(self).toks().len() - old(self).at(), 6nat,
    {
        let ghost t = self.toks();
        let ghost p0 = self.at();
        let lit: Option<Expr> = match self.peek() {
            Token::Int(n) => Some(Expr::Int(*n)),
            Token::Float(s) => Some(Expr::Float(s.clone())),
            Token::Str(s) => Some(Expr::Str(s.clone())),
            Token::Bool(b) => Some(Expr::Bool(*b)),
            Token::Null => Some(Expr::Null),
            Token::NoneKw => Some(Expr::NoneVal),
            _ => None,
        };
        if let Some(e) = lit {
            self.advance();
            return Ok(e);
        }
        if self.peek_is(&Token::SomeKw) {
            return match self.parse_wrapped() {
                Ok(e) => Ok(Expr::SomeVal(Box::new(e))),
                Err(er) => Err(er),
            };
        }
        if self.peek_is(&Token::OkKw) {
            return match self.parse_wrapped() {
                Ok(e) => Ok(Expr::OkVal(Box::new(e))),
                Err(er) => Err(er),
            };
        }
        if self.peek_is(&Token::ErrKw) {
            return match self.parse_wrapped() {
                Ok(e) => Ok(Expr::ErrVal(Box::new(e))),
                Err(er) => Err(er),
            };
        }
        if self.peek_is(&Token::If) {
            return self.parse_if_expr();
        }
        if self.peek_is(&Token::Match) {
            return self.parse_match_expr();
        }
        if self.peek_is(&Token::Try) {
            return self.parse_try_block_expr();
        }
        if self.peek_is(&Token::Pipe) {
            return self.parse_bar_lambda();
        }
        if self.peek_is(&Token::LParen) {
            if self.is_lambda_start() {
                return self.parse_lambda();
            }
            self.advance();
            let e = match self.parse_expression() {
                Ok(e) => e,
                Err(er) => {
                    return Err(er);
                },
            };
            match self.expect(&Token::RParen) {
                Ok(()) => {},
                Err(er) => {
                    return Err(er);
                },
            }
            return Ok(e);
        }
        let name_opt: Option<String> = match self.peek() {
            Token::Ident(n) => Some(n.clone()),
            _ => None,
        };
        if let Some(name) = name_opt {
            self.advance();
            if self.peek_is(&Token::LBrace) && self.is_struct_lit_start() {
                self.advance();
                let fields = match self.parse_struct_lit_fields() {
                    Ok(f) => f,
                    Err(er) => {
                        return Err(er);
                    },
                };
                match self.expect(&Token::RBrace) {
                    Ok(()) => {},
                    Err(er) => {
                        return Err(er);
                    },
                }
                return Ok(Expr::StructLit { name, fields });
            }
            return Ok(Expr::Ident(name));
        }
        let mut m = String::from_str("unexpected token in expression: ");
        push_token_debug(&mut m, self.peek());
        Err(self.error(m))
    }

    /// Whether the `(` here starts a lambda: `( ) ->` or `( ident :`.
    pub(crate) fn is_lambda_start(&self) -> (r: bool)
        requires
            self.wf(),
        ensures
            r == lambda_start(self.toks(), self.at()),
    {
        (self.peek_at_is(1, &Token::RParen) && self.peek_at_is(2, &Token::Arrow)) || (self.peek_at_ident(1)
            && self.peek_at_is(2, &Token::Colon))
    }

    /// Whether the `{` here starts a struct literal: `{ ident :`.
    pub(crate) fn is_struct_lit_start(&self) -> (r: bool)
        requires
            self.wf(),
        ensures
            r == struct_lit_start(self.toks(), self.at()),
    {
        self.peek_at_ident(1) && self.peek_at_is(2, &Token::Colon)
    }

    /// The fields of a struct literal after `{`, up to (not including) `}`.
    pub(crate) fn parse_struct_lit_fields(&mut self) -> (r: Result<Vec<(String, Expr)>, ParseFail>)
        requires
            old(self).wf(),
        ensures
            final(self).wf(),
            final(self).toks() == old(self).toks(),
            agrees(r, sp_fields(old(self).toks(), old(self).at(), Seq::empty()), |x: Vec<(String, Expr)>| fields_view(x@), old(self).toks(), final(self).at()),
            r is Ok ==> old(self).at() <= final(self).at(),
        decreases old(self).toks().len() - old(self).at(), 1nat,
    {
        let ghost t = self.toks();
        let ghost p0 = self.at();
        let mut fields: Vec<(String, Expr)> = Vec::new();
        assert(fields_view(fields@) =~= Seq::<(Seq<char>, ExprV)>::empty());
        loop
            invariant
                self.wf(),
                self.toks() == old(self).toks(),
                self.toks() == t,
                p0 == old(self).at(),
                p0 <= self.at(),
                sp_fields(t, p0, Seq::empty()) == sp_fields(t, self.at(), fields_view(fields@)),
            decreases t.len() - self.at(),
        {
            if self.peek_is(&Token::RBrace) {
                return Ok(fields);
            }
            if fields.len() > 0 {
                match self.expect(&Token::Comma) {
                    Ok(()) => {},
                    Err(er) => {
                        return Err(er);
                    },
                }
            }
            if self.peek_is(&Token::RBrace) {
                return Ok(fields);
            }
            let fname = match self.parse_ident() {
                Ok(n) => n,
                Err(er) => {
                    return Err(er);
                },
            };
            match self.expect(&Token::Colon) {
                Ok(()) => {},
                Err(er) => {
                    return Err(er);
                },
            }
            let fval = match self.parse_expression() {
                Ok(v) => v,
                Err(er) => {
                    return Err(er);
                },
            };
            proof {
                lemma_fields_view_push(fields@, (fname, fval));
            }
            fields.push((fname, fval));
        }
    }

    /// `|params| (-> type)? : body`
    pub(crate) fn parse_bar_lambda(&mut self) -> (r: Result<Expr, ParseFail>)
        requires
            old(self).wf(),
        ensures
            final(self).wf(),
            final(self).toks() == old(self).toks(),
            agrees(r, sp_bar_lambda(old(self).toks(), old(self).at()), |x: Expr| ev(x), old(self).toks(), final(self).at()),
            r is Ok ==> old(self).at() < final(self).at(),
        decreases old(self).toks().len() - old(self).at(), 1nat,
    {
        match self.expect(&Token::Pipe) {
            Ok(()) => {},
            Err(er) => {
                return Err(er);
            },
        }
        let params = match self.parse_bar_params() {
            Ok(p) => p,
            Err(er) => {
                return Err(er);
            },
        };
        match self.expect(&Token::Pipe) {
            Ok(()) => {},
            Err(er) => {
                return Err(er);
            },
        }
        let ret = if self.peek_is(&Token::Arrow) {
            self.advance();
            match self.parse_type() {
                Ok(t) => Some(t),
                Err(er) => {
                    return Err(er);
                },
            }
        } else {
            None
        };
        match self.expect(&Token::Colon) {
            Ok(()) => {},
            Err(er) => {
                return Err(er);
            },
        }
        let body = match self.parse_expression() {
            Ok(b) => b,
            Err(er) => {
                return Err(er);
            },
        };
        Ok(Expr::Lambda { params, ret, body: Box::new(body) })
    }


    /// `(params) -> type => body`
    pub(crate) fn parse_lambda(&mut self) -> (r: Result<Expr, ParseFail>)
        requires
            old(self).wf(),
        ensures
            final(self).wf(),
            final(self).toks() == old(self).toks(),
            agrees(r, sp_lambda(old(self).toks(), old(self).at()), |x: Expr| ev(x), old(self).toks(), final(self).at()),
            r is Ok ==> old(self).at() < final(self).at(),
        decreases old(self).toks().len() - old(self).at(), 1nat,
    {
        match self.expect(&Token::LParen) {
            Ok(()) => {},
            Err(er) => {
                return Err(er);
            },
        }
        let params = match self.parse_params(false) {
            Ok(p) => p,
            Err(er) => {
                return Err(er);
            },
        };
        match self.expect(&Token::RParen) {
            Ok(()) => {},
            Err(er) => {
                return Err(er);
            },
        }
        match self.expect(&Token::Arrow) {
            Ok(()) => {},
            Err(er) => {
                return Err(er);
            },
        }
        let ret = match self.parse_type() {
            Ok(t) => t,
            Err(er) => {
                return Err(er);
            },
        };
        match self.expect(&Token::FatArrow) {
            Ok(()) => {},
            Err(er) => {
                return Err(er);
            },
        }
        let body = match self.parse_expression() {
            Ok(b) => b,
            Err(er) => {
                return Err(er);
            },
        };
        Ok(Expr::Lambda { params, ret: Some(ret), body: Box::new(body) })
    }

    /// After `:`: a block when a Newline follows, else an inline expression.
    pub(crate) fn parse_expr_or_block(&mut self) -> (r: Result<Expr, ParseFail>)
        requires
            old(self).wf(),
        ensures
            final(self).wf(),
            final(self).toks() == old(self).toks(),
            agrees(r, sp_expr_or_block(old(self).toks(), old(self).at()), |x: Expr| ev(x), old(self).toks(), final(self).at()),
            r is Ok ==> old(self).at() < final(self).at(),
        decreases old(self).toks().len() - old(self).at(), 18nat,
    {
        if self.peek_is(&Token::Newline) {
            match self.parse_block() {
                Ok(b) => Ok(Expr::Block(b)),
                Err(er) => Err(er),
            }
        } else {
            self.parse_expression()
        }
    }

    /// `if cond: body (elif cond: body)* (else: body)?`
    #[verifier::spinoff_prover]
    #[verifier::rlimit(50)]
    pub(crate) fn parse_if_expr(&mut self) -> (r: Result<Expr, ParseFail>)
        requires
            old(self).wf(),
        ensures
            final(self).wf(),
            final(self).toks() == old(self).toks(),
            agrees(r, sp_if(old(self).toks(), old(self).at()), |x: Expr| ev(x), old(self).toks(), final(self).at()),
            r is Ok ==> old(self).at() < final(self).at(),
        decreases old(self).toks().len() - old(self).at(), 1nat,
    {
        let ghost t = self.toks();
        let ghost p0 = self.at();
        match self.expect(&Token::If) {
            Ok(()) => {},
            Err(er) => {
                return Err(er);
            },
        }
        let cond = match self.parse_expression() {
            Ok(c) => c,
            Err(er) => {
                return Err(er);
            },
        };
        match self.expect(&Token::Colon) {
            Ok(()) => {},
            Err(er) => {
                return Err(er);
            },
        }
        let then_e = match self.parse_expr_or_block() {
            Ok(b) => b,
            Err(er) => {
                return Err(er);
            },
        };
        let elifs = match self.parse_elifs(Vec::new()) {
            Ok(v) => v,
            Err(er) => {
                return Err(er);
            },
        };
        let else_ = if self.eat(&Token::Else) {
            match self.expect(&Token::Colon) {
                Ok(()) => {},
                Err(er) => {
                    return Err(er);
                },
            }
            match self.parse_expr_or_block() {
                Ok(b) => Some(Box::new(b)),
                Err(er) => {
                    return Err(er);
                },
            }
        } else {
            None
        };
        Ok(Expr::If { cond: Box::new(cond), then: Box::new(then_e), elifs, else_ })
    }

    /// The `elif cond: body` parts, after those in `acc`.
    pub(crate) fn parse_elifs(&mut self, acc: Vec<(Expr, Expr)>) -> (r: Result<Vec<(Expr, Expr)>, ParseFail>)
        requires
            old(self).wf(),
        ensures
            final(self).wf(),
            final(self).toks() == old(self).toks(),
            agrees(r, sp_elifs(old(self).toks(), old(self).at(), elifs_view(acc@)), |x: Vec<(Expr, Expr)>| elifs_view(x@), old(self).toks(), final(self).at()),
            r is Ok ==> old(self).at() <= final(self).at(),
        decreases old(self).toks().len() - old(self).at(), 1nat,
    {
        if !self.peek_is(&Token::Elif) {
            return Ok(acc);
        }
        self.advance();
        let c = match self.parse_expression() {
            Ok(c) => c,
            Err(er) => {
                return Err(er);
            },
        };
        match self.expect(&Token::Colon) {
            Ok(()) => {},
            Err(er) => {
                return Err(er);
            },
        }
        let b = match self.parse_expr_or_block() {
            Ok(b) => b,
            Err(er) => {
                return Err(er);
            },
        };
        let mut acc = acc;
        proof {
            lemma_elifs_view_push(acc@, (c, b));
        }
        acc.push((c, b));
        self.parse_elifs(acc)
    }

    /// `match expr:` Newline Indent arms Dedent
    pub(crate) fn parse_match_expr(&mut self) -> (r: Result<Expr, ParseFail>)
        requires
            old(self).wf(),
        ensures
            final(self).wf(),
            final(self).toks() == old(self).toks(),
            agrees(r, sp_match(old(self).toks(), old(self).at()), |x: Expr| ev(x), old(self).toks(), final(self).at()),
            r is Ok ==> old(self).at() < final(self).at(),
        decreases old(self).toks().len() - old(self).at(), 1nat,
    {
        let ghost t = self.toks();
        let ghost p0 = self.at();
        match self.expect(&Token::Match) {
            Ok(()) => {},
            Err(er) => {
                return Err(er);
            },
        }
        let e = match self.parse_expression() {
            Ok(e) => e,
            Err(er) => {
                return Err(er);
            },
        };
        match self.expect(&Token::Colon) {
            Ok(()) => {},
            Err(er) => {
                return Err(er);
            },
        }
        match self.expect(&Token::Newline) {
            Ok(()) => {},
            Err(er) => {
                return Err(er);
            },
        }
        match self.expect(&Token::Indent) {
            Ok(()) => {},
            Err(er) => {
                return Err(er);
            },
        }
        let arms = match self.parse_arms(Vec::new()) {
            Ok(a) => a,
            Err(er) => {
                return Err(er);
            },
        };
        match self.expect(&Token::Dedent) {
            Ok(()) => {},
            Err(er) => {
                return Err(er);
            },
        }
        Ok(Expr::Match { expr: Box::new(e), arms })
    }

    /// The arms of a `match`, after those in `acc`, up to the closing Dedent.
    pub(crate) fn parse_arms(&mut self, acc: Vec<MatchArm>) -> (r: Result<Vec<MatchArm>, ParseFail>)
        requires
            old(self).wf(),
        ensures
            final(self).wf(),
            final(self).toks() == old(self).toks(),
            agrees(r, sp_arms(old(self).toks(), old(self).at(), arms_view(acc@)), |x: Vec<MatchArm>| arms_view(x@), old(self).toks(), final(self).at()),
            r is Ok ==> old(self).at() <= final(self).at(),
        decreases old(self).toks().len() - old(self).at(), 1nat,
    {
        let ghost t = self.toks();
        if self.peek_is(&Token::Dedent) || self.peek_is(&Token::Eof) {
            return Ok(acc);
        }
        proof {
            lemma_skip_nl_bounds(t, self.at());
        }
        self.skip_newlines();
        if self.peek_is(&Token::Dedent) {
            return Ok(acc);
        }
        let pattern = match self.parse_pattern() {
            Ok(p) => p,
            Err(er) => {
                return Err(er);
            },
        };
        match self.expect(&Token::FatArrow) {
            Ok(()) => {},
            Err(er) => {
                return Err(er);
            },
        }
        let body = match self.parse_expr_or_block() {
            Ok(b) => b,
            Err(er) => {
                return Err(er);
            },
        };
        self.eat(&Token::Newline);
        let arm = MatchArm { pattern, body };
        let mut acc = acc;
        proof {
            lemma_arms_view_push(acc@, arm);
        }
        acc.push(arm);
        self.parse_arms(acc)
    }

    /// `try:` block
    pub(crate) fn parse_try_block_expr(&mut self) -> (r: Result<Expr, ParseFail>)
        requires
            old(self).wf(),
        ensures
            final(self).wf(),
            final(self).toks() == old(self).toks(),
            agrees(r, sp_try_block(old(self).toks(), old(self).at()), |x: Expr| ev(x), old(self).toks(), final(self).at()),
            r is Ok ==> old(self).at() < final(self).at(),
        decreases old(self).toks().len() - old(self).at(), 1nat,
    {
        match self.expect(&Token::Try) {
            Ok(()) => {},
            Err(er) => {
                return Err(er);
            },
        }
        match self.expect(&Token::Colon) {
            Ok(()) => {},
            Err(er) => {
                return Err(er);
            },
        }
        match self.parse_block() {
            Ok(b) => Ok(Expr::TryBlock(b)),
            Err(er) => Err(er),
        }
    }
}

} // verus!
