//! Binary operators, unary operators and postfix forms.
use vstd::prelude::*;
use crate::ast::{
    lemma_arms_view_push, lemma_elifs_view_push, lemma_exprs_view_push, lemma_fields_view_push, lemma_names_view_push, lemma_params_view_push, lemma_patterns_view_push, lemma_stmts_view_push, lemma_tops_view_push, lemma_types_view_index, lemma_types_view_push,
    ArmV, BinOp, CatchHandler, Expr, ExprV, HandlerV, ImportSource, MatchArm, Param, ParamV, Pattern, PatternV, Stmt, StmtV, TopLevel, TopV, Type, TypeV, UnOp, arms_view, elifs_view, expr_view, exprs_view, fields_view, names_view, opt_type_view, param_view, params_view, pattern_view, patterns_view, stmt_view, stmts_view, top_view, tops_view, type_view, types_view,
};
use crate::parse_spec::{
    PErr, PR, add_op, adv, bin, compare_op, eat, eat_nl, fwd, fwd_eq, generic_type, keyword_type, lambda_start, mul_op, self_param, skip_nl, sp_add, sp_add_tail, sp_and, sp_and_tail, sp_args, sp_arms, sp_base_type, sp_block, sp_bound_name, sp_call_args, sp_catch, sp_compare, sp_decl, sp_dotted_tail, sp_elifs, sp_expect, sp_expr, sp_expr_or_block, sp_fields, sp_fn, sp_fn_type_args, sp_for, sp_from_import, sp_ident, sp_if, sp_impl, sp_import, sp_import_names, sp_items, sp_lambda, sp_let, sp_loop, sp_match, sp_methods, sp_mul, sp_mul_tail, sp_mut, sp_or, sp_or_tail, sp_params, sp_params_list, sp_pattern, sp_pattern_alts, sp_post_tail, sp_postfix, sp_primary, sp_program, sp_range, sp_single_pattern, sp_stmt, sp_stmts, sp_struct, sp_struct_fields, sp_top, sp_try_block, sp_try_op, sp_try_tail, sp_type, sp_type_args, sp_unary, sp_union, sp_while, sp_wrapped, struct_lit_start, stuck, tok,
};
use crate::text::{push_str};
use crate::token::{is_plain, kind_of, push_token_debug, tok_debug, token_is, Span, Spanned, Token};

use super::{
    ParseError, ParseFail, Parser, agrees, ev, lemma_skip_nl_bounds, text_is,
};

verus! {

impl Parser {
    pub(crate) fn parse_range(&mut self) -> (r: Result<Expr, ParseFail>)
        requires
            old(self).wf(),
        ensures
            final(self).wf(),
            final(self).toks() == old(self).toks(),
            agrees(r, sp_range(old(self).toks(), old(self).at()), |x: Expr| ev(x), old(self).toks(), final(self).at()),
            r is Ok ==> old(self).at() < final(self).at(),
        decreases old(self).toks().len() - old(self).at(), 16nat,
    {
        let e = match self.parse_catch() {
            Ok(e) => e,
            Err(er) => {
                return Err(er);
            },
        };
        let dd = self.peek_is(&Token::DotDot);
        let dde = self.peek_is(&Token::DotDotEq);
        if dd || dde {
            self.advance();
            match self.parse_catch() {
                Ok(end) => Ok(Expr::Range { start: Box::new(e), end: Box::new(end), inclusive: dde }),
                Err(er) => Err(er),
            }
        } else {
            Ok(e)
        }
    }

    pub(crate) fn parse_catch(&mut self) -> (r: Result<Expr, ParseFail>)
        requires
            old(self).wf(),
        ensures
            final(self).wf(),
            final(self).toks() == old(self).toks(),
            agrees(r, sp_catch(old(self).toks(), old(self).at()), |x: Expr| ev(x), old(self).toks(), final(self).at()),
            r is Ok ==> old(self).at() < final(self).at(),
        decreases old(self).toks().len() - old(self).at(), 15nat,
    {
        let e = match self.parse_try_op() {
            Ok(e) => e,
            Err(er) => {
                return Err(er);
            },
        };
        if !self.eat(&Token::Catch) {
            return Ok(e);
        }
        let handler = if self.eat(&Token::Pipe) {
            let name = match self.parse_ident() {
                Ok(n) => n,
                Err(er) => {
                    return Err(er);
                },
            };
            match self.expect(&Token::Pipe) {
                Ok(()) => {},
                Err(er) => {
                    return Err(er);
                },
            }
            if self.eat(&Token::Colon) {
                match self.parse_block() {
                    Ok(b) => CatchHandler::WithErrBlock(name, b),
                    Err(er) => {
                        return Err(er);
                    },
                }
            } else {
                match self.parse_expression() {
                    Ok(b) => CatchHandler::WithErr(name, Box::new(b)),
                    Err(er) => {
                        return Err(er);
                    },
                }
            }
        } else {
            match self.parse_expression() {
                Ok(d) => CatchHandler::Default(Box::new(d)),
                Err(er) => {
                    return Err(er);
                },
            }
        };
        Ok(Expr::Catch { expr: Box::new(e), handler })
    }

    pub(crate) fn parse_try_op(&mut self) -> (r: Result<Expr, ParseFail>)
        requires
            old(self).wf(),
        ensures
            final(self).wf(),
            final(self).toks() == old(self).toks(),
            agrees(r, sp_try_op(old(self).toks(), old(self).at()), |x: Expr| ev(x), old(self).toks(), final(self).at()),
            r is Ok ==> old(self).at() < final(self).at(),
        decreases old(self).toks().len() - old(self).at(), 14nat,
    {
        let ghost t = self.toks();
        let mut e = match self.parse_or() {
            Ok(e) => e,
            Err(er) => {
                return Err(er);
            },
        };
        let ghost p1 = self.at();
        let ghost e0 = ev(e);
        let q = Token::Question;
        while self.peek_is(&q)
            invariant
                self.wf(),
                self.toks() == old(self).toks(),
                self.toks() == t,
                q == Token::Question,
                old(self).at() < p1 <= self.at(),
                sp_try_tail(t, p1, e0) == sp_try_tail(t, self.at(), ev(e)),
            decreases t.len() - self.at(),
        {
            self.advance();
            e = Expr::Try(Box::new(e));
        }
        Ok(e)
    }

    pub(crate) fn parse_or(&mut self) -> (r: Result<Expr, ParseFail>)
        requires
            old(self).wf(),
        ensures
            final(self).wf(),
            final(self).toks() == old(self).toks(),
            agrees(r, sp_or(old(self).toks(), old(self).at()), |x: Expr| ev(x), old(self).toks(), final(self).at()),
            r is Ok ==> old(self).at() < final(self).at(),
        decreases old(self).toks().len() - old(self).at(), 13nat,
    {
        let ghost t = self.toks();
        let ghost p0 = self.at();
        let mut lhs = match self.parse_and() {
            Ok(e) => e,
            Err(er) => {
                return Err(er);
            },
        };
        while self.peek_is(&Token::Or)
            invariant
                self.wf(),
                self.toks() == old(self).toks(),
                self.toks() == t,
                p0 == old(self).at(),
                p0 < self.at(),
                sp_or(t, p0) == sp_or_tail(t, self.at(), ev(lhs)),
            decreases t.len() - self.at(),
        {
            self.advance();
            let rhs = match self.parse_and() {
                Ok(e) => e,
                Err(er) => {
                    return Err(er);
                },
            };
            lhs = Expr::BinOp { op: BinOp::Or, lhs: Box::new(lhs), rhs: Box::new(rhs) };
        }
        Ok(lhs)
    }

    pub(crate) fn parse_and(&mut self) -> (r: Result<Expr, ParseFail>)
        requires
            old(self).wf(),
        ensures
            final(self).wf(),
            final(self).toks() == old(self).toks(),
            agrees(r, sp_and(old(self).toks(), old(self).at()), |x: Expr| ev(x), old(self).toks(), final(self).at()),
            r is Ok ==> old(self).at() < final(self).at(),
        decreases old(self).toks().len() - old(self).at(), 12nat,
    {
        let ghost t = self.toks();
        let ghost p0 = self.at();
        let mut lhs = match self.parse_compare() {
            Ok(e) => e,
            Err(er) => {
                return Err(er);
            },
        };
        while self.peek_is(&Token::And)
            invariant
                self.wf(),
                self.toks() == old(self).toks(),
                self.toks() == t,
                p0 == old(self).at(),
                p0 < self.at(),
                sp_and(t, p0) == sp_and_tail(t, self.at(), ev(lhs)),
            decreases t.len() - self.at(),
        {
            self.advance();
            let rhs = match self.parse_compare() {
                Ok(e) => e,
                Err(er) => {
                    return Err(er);
                },
            };
            lhs = Expr::BinOp { op: BinOp::And, lhs: Box::new(lhs), rhs: Box::new(rhs) };
        }
        Ok(lhs)
    }

    pub(crate) fn parse_compare(&mut self) -> (r: Result<Expr, ParseFail>)
        requires
            old(self).wf(),
        ensures
            final(self).wf(),
            final(self).toks() == old(self).toks(),
            agrees(r, sp_compare(old(self).toks(), old(self).at()), |x: Expr| ev(x), old(self).toks(), final(self).at()),
            r is Ok ==> old(self).at() < final(self).at(),
        decreases old(self).toks().len() - old(self).at(), 11nat,
    {
        let lhs = match self.parse_add() {
            Ok(e) => e,
            Err(er) => {
                return Err(er);
            },
        };
        let op = if self.peek_is(&Token::EqEq) {
            BinOp::Eq
        } else if self.peek_is(&Token::NotEq) {
            BinOp::NotEq
        } else if self.peek_is(&Token::Lt) {
            BinOp::Lt
        } else if self.peek_is(&Token::LtEq) {
            BinOp::LtEq
        } else if self.peek_is(&Token::Gt) {
            BinOp::Gt
        } else if self.peek_is(&Token::GtEq) {
            BinOp::GtEq
        } else {
            return Ok(lhs);
        };
        self.advance();
        match self.parse_add() {
            Ok(rhs) => Ok(Expr::BinOp { op, lhs: Box::new(lhs), rhs: Box::new(rhs) }),
            Err(er) => Err(er),
        }
    }

    pub(crate) fn parse_add(&mut self) -> (r: Result<Expr, ParseFail>)
        requires
            old(self).wf(),
        ensures
            final(self).wf(),
            final(self).toks() == old(self).toks(),
            agrees(r, sp_add(old(self).toks(), old(self).at()), |x: Expr| ev(x), old(self).toks(), final(self).at()),
            r is Ok ==> old(self).at() < final(self).at(),
        decreases old(self).toks().len() - old(self).at(), 10nat,
    {
        let ghost t = self.toks();
        let ghost p0 = self.at();
        let mut lhs = match self.parse_mul() {
            Ok(e) => e,
            Err(er) => {
                return Err(er);
            },
        };
        loop
            invariant
                self.wf(),
                self.toks() == old(self).toks(),
                self.toks() == t,
                p0 == old(self).at(),
                p0 < self.at(),
                sp_add(t, p0) == sp_add_tail(t, self.at(), ev(lhs)),
            decreases t.len() - self.at(),
        {
            let op = if self.peek_is(&Token::Plus) {
                BinOp::Add
            } else if self.peek_is(&Token::Minus) {
                BinOp::Sub
            } else {
                return Ok(lhs);
            };
            self.advance();
            let rhs = match self.parse_mul() {
                Ok(e) => e,
                Err(er) => {
                    return Err(er);
                },
            };
            lhs = Expr::BinOp { op, lhs: Box::new(lhs), rhs: Box::new(rhs) };
        }
    }

    pub(crate) fn parse_mul(&mut self) -> (r: Result<Expr, ParseFail>)
        requires
            old(self).wf(),
        ensures
            final(self).wf(),
            final(self).toks() == old(self).toks(),
            agrees(r, sp_mul(old(self).toks(), old(self).at()), |x: Expr| ev(x), old(self).toks(), final(self).at()),
            r is Ok ==> old(self).at() < final(self).at(),
        decreases old(self).toks().len() - old(self).at(), 9nat,
    {
        let ghost t = self.toks();
        let ghost p0 = self.at();
        let mut lhs = match self.parse_unary() {
            Ok(e) => e,
            Err(er) => {
                return Err(er);
            },
        };
        loop
            invariant
                self.wf(),
                self.toks() == old(self).toks(),
                self.toks() == t,
                p0 == old(self).at(),
                p0 < self.at(),
                sp_mul(t, p0) == sp_mul_tail(t, self.at(), ev(lhs)),
            decreases t.len() - self.at(),
        {
            let op = if self.peek_is(&Token::Star) {
                BinOp::Mul
            } else if self.peek_is(&Token::Slash) {
                BinOp::Div
            } else if self.peek_is(&Token::Percent) {
                BinOp::Mod
            } else {
                return Ok(lhs);
            };
            self.advance();
            let rhs = match self.parse_unary() {
                Ok(e) => e,
                Err(er) => {
                    return Err(er);
                },
            };
            lhs = Expr::BinOp { op, lhs: Box::new(lhs), rhs: Box::new(rhs) };
        }
    }

    pub(crate) fn parse_unary(&mut self) -> (r: Result<Expr, ParseFail>)
        requires
            old(self).wf(),
        ensures
            final(self).wf(),
            final(self).toks() == old(self).toks(),
            agrees(r, sp_unary(old(self).toks(), old(self).at()), |x: Expr| ev(x), old(self).toks(), final(self).at()),
            r is Ok ==> old(self).at() < final(self).at(),
        decreases old(self).toks().len() - old(self).at(), 8nat,
    {
        let neg = self.peek_is(&Token::Minus);
        if neg || self.peek_is(&Token::Not) {
            self.advance();
            match self.parse_unary() {
                Ok(e) => Ok(Expr::UnOp { op: if neg { UnOp::Neg } else { UnOp::Not }, expr: Box::new(e) }),
                Err(er) => Err(er),
            }
        } else {
            self.parse_postfix()
        }
    }

    pub(crate) fn parse_postfix(&mut self) -> (r: Result<Expr, ParseFail>)
        requires
            old(self).wf(),
        ensures
            final(self).wf(),
            final(self).toks() == old(self).toks(),
            agrees(r, sp_postfix(old(self).toks(), old(self).at()), |x: Expr| ev(x), old(self).toks(), final(self).at()),
            r is Ok ==> old(self).at() < final(self).at(),
        decreases old(self).toks().len() - old(self).at(), 7nat,
    {
        let e = match self.parse_primary() {
            Ok(e) => e,
            Err(er) => {
                return Err(er);
            },
        };
        self.parse_post_tail(e)
    }

    /// The postfix operators (`.name`, calls, indexing) after `e`.
    pub(crate) fn parse_post_tail(&mut self, e: Expr) -> (r: Result<Expr, ParseFail>)
        requires
            old(self).wf(),
        ensures
            final(self).wf(),
            final(self).toks() == old(self).toks(),
            agrees(r, sp_post_tail(old(self).toks(), old(self).at(), ev(e)), |x: Expr| ev(x), old(self).toks(), final(self).at()),
            r is Ok ==> old(self).at() <= final(self).at(),
        decreases old(self).toks().len() - old(self).at(), 1nat,
    {
        if self.at_end() {
            return Ok(e);
        }
        if self.peek_is(&Token::Dot) {
            self.advance();
            let name = match self.parse_ident() {
                Ok(n) => n,
                Err(er) => {
                    return Err(er);
                },
            };
            let ghost ee = ev(e);
            let ghost nm = name@;
            let fld = Expr::Field { expr: Box::new(e), name };
            assert(ev(fld) == ExprV::Field { expr: Box::new(ee), name: nm });
            if self.eat(&Token::LParen) {
                let args = match self.parse_call_args() {
                    Ok(a) => a,
                    Err(er) => {
                        return Err(er);
                    },
                };
                self.parse_post_tail(Expr::Call { func: Box::new(fld), args })
            } else {
                self.parse_post_tail(fld)
            }
        } else if self.peek_is(&Token::LParen) {
            self.advance();
            let args = match self.parse_call_args() {
                Ok(a) => a,
                Err(er) => {
                    return Err(er);
                },
            };
            self.parse_post_tail(Expr::Call { func: Box::new(e), args })
        } else if self.peek_is(&Token::LBracket) {
            self.advance();
            let idx = match self.parse_expression() {
                Ok(i) => i,
                Err(er) => {
                    return Err(er);
                },
            };
            match self.expect(&Token::RBracket) {
                Ok(()) => {},
                Err(er) => {
                    return Err(er);
                },
            }
            self.parse_post_tail(Expr::Index { expr: Box::new(e), idx: Box::new(idx) })
        } else {
            Ok(e)
        }
    }

    /// Call arguments after `(`, and the `)`.
    #[verifier::spinoff_prover]
    pub(crate) fn parse_call_args(&mut self) -> (r: Result<Vec<Expr>, ParseFail>)
        requires
            old(self).wf(),
        ensures
            final(self).wf(),
            final(self).toks() == old(self).toks(),
            agrees(r, sp_call_args(old(self).toks(), old(self).at()), |x: Vec<Expr>| exprs_view(x@), old(self).toks(), final(self).at()),
            r is Ok ==> old(self).at() < final(self).at(),
        decreases old(self).toks().len() - old(self).at(), 19nat,
    {
        let ghost t = self.toks();
        let ghost p0 = self.at();
        let mut args: Vec<Expr> = Vec::new();
        assert(exprs_view(args@) =~= Seq::<ExprV>::empty());
        loop
            invariant
                self.wf(),
                self.toks() == old(self).toks(),
                self.toks() == t,
                p0 == old(self).at(),
                p0 <= self.at(),
                sp_args(t, p0, Seq::empty()) == sp_args(t, self.at(), exprs_view(args@)),
            decreases t.len() - self.at(),
        {
            if self.peek_is(&Token::RParen) {
                self.advance();
                return Ok(args);
            }
            if args.len() > 0 {
                match self.expect(&Token::Comma) {
                    Ok(()) => {},
                    Err(er) => {
                        return Err(er);
                    },
                }
            }
            if self.peek_is(&Token::RParen) {
                self.advance();
                return Ok(args);
            }
            let a = match self.parse_expression() {
                Ok(a) => a,
                Err(er) => {
                    return Err(er);
                },
            };
            proof {
                lemma_exprs_view_push(args@, a);
            }
            args.push(a);
        }
    }
}

} // verus!
