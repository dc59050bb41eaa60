//! Statements and blocks.
use vstd::prelude::*;
use crate::ast::{
    lemma_arms_view_push, lemma_elifs_view_push, lemma_exprs_view_push, lemma_fields_view_push, lemma_names_view_push, lemma_params_view_push, lemma_patterns_view_push, lemma_stmts_view_push, lemma_tops_view_push, lemma_types_view_index, lemma_types_view_push,
    ArmV, BinOp, CatchHandler, Expr, ExprV, HandlerV, ImportSource, MatchArm, Param, ParamV, Pattern, PatternV, Stmt, StmtV, TopLevel, TopV, Type, TypeV, UnOp, arms_view, elifs_view, expr_view, exprs_view, fields_view, names_view, opt_type_view, param_view, params_view, pattern_view, patterns_view, stmt_view, stmts_view, top_view, tops_view, type_view, types_view,
};
use crate::parse_spec::{
    PErr, PR, add_op, adv, bin, compare_op, eat, eat_nl, fwd, fwd_eq, generic_type, keyword_type, lambda_start, mul_op, self_param, skip_nl, sp_add, sp_add_tail, sp_and, sp_and_tail, sp_args, sp_arms, sp_base_type, sp_block, sp_bound_name, sp_call_args, sp_catch, sp_compare, sp_decl, sp_dotted_tail, sp_elifs, sp_expect, sp_expr, sp_expr_or_block, sp_fields, sp_fn, sp_fn_type_args, sp_for, sp_from_import, sp_ident, sp_if, sp_impl, sp_import, sp_import_names, sp_items, sp_lambda, sp_let, sp_loop, sp_match, sp_methods, sp_mul, sp_mul_tail, sp_mut, sp_or, sp_or_tail, sp_params, sp_params_list, sp_pattern, sp_pattern_alts, sp_post_tail, sp_postfix, sp_primary, sp_program, sp_range, sp_single_pattern, sp_stmt, sp_stmts, sp_struct, sp_struct_fields, sp_top, sp_try_block, sp_try_op, sp_try_tail, sp_type, sp_type_args, sp_unary, sp_union, sp_while, sp_wrapped, struct_lit_start, stuck, tok,
};
use crate::text::{push_str};
use crate::token::{is_plain, kind_of, push_token_debug, tok_debug, token_is, Span, Spanned, Token};

use super::{
    ParseError, ParseFail, Parser, agrees, agrees_reported, ev, lemma_skip_nl_bounds, no_panic, text_is,
};

verus! {

impl Parser {
    /// `Newline Indent stmt* Dedent`
    pub(crate) fn parse_block(&mut self) -> (r: Result<Vec<Stmt>, ParseFail>)
        requires
            old(self).wf(),
        ensures
            final(self).wf(),
            final(self).toks() == old(self).toks(),
            agrees(r, sp_block(old(self).toks(), old(self).at()), |x: Vec<Stmt>| stmts_view(x@), old(self).toks(), final(self).at()),
            r is Ok ==> old(self).at() < final(self).at(),
        decreases old(self).toks().len() - old(self).at(), 1nat,
    {
        let ghost t = self.toks();
        let ghost p0 = self.at();
        match self.expect(&Token::Newline) {
            Ok(()) => {},
            Err(e) => {
                return Err(e);
            },
        }
        match self.expect(&Token::Indent) {
            Ok(()) => {},
            Err(e) => {
                return Err(e);
            },
        }
        let ghost p2 = self.at();
        let mut stmts: Vec<Stmt> = Vec::new();
        assert(stmts_view(stmts@) =~= Seq::<StmtV>::empty());
        loop
            invariant
                self.wf(),
                self.toks() == t,
                self.toks() == old(self).toks(),
                p0 == old(self).at(),
                p0 < p2 <= self.at(),
                sp_expect(t, p0, Token::Newline) == Ok::<nat, PErr>(p0 + 1),
                sp_expect(t, p0 + 1, Token::Indent) == Ok::<nat, PErr>(p2),
                sp_stmts(t, p2, Seq::empty()) == sp_stmts(t, self.at(), stmts_view(stmts@)),
            decreases t.len() - self.at(),
        {
            if self.peek_is(&Token::Dedent) || self.peek_is(&Token::Eof) {
                match self.expect(&Token::Dedent) {
                    Ok(()) => {},
                    Err(e) => {
                        return Err(e);
                    },
                }
                return Ok(stmts);
            }
            proof {
                lemma_skip_nl_bounds(t, self.at());
            }
            self.skip_newlines();
            if self.peek_is(&Token::Dedent) {
                self.advance();
                return Ok(stmts);
            }
            let s = match self.parse_stmt() {
                Ok(s) => s,
                Err(e) => {
                    return Err(e);
                },
            };
            proof {
                lemma_stmts_view_push(stmts@, s);
            }
            stmts.push(s);
        }
    }

    /// A statement, and the Newline after it.
    pub(crate) fn parse_stmt(&mut self) -> (r: Result<Stmt, ParseFail>)
        requires
            old(self).wf(),
        ensures
            final(self).wf(),
            final(self).toks() == old(self).toks(),
            agrees(r, sp_stmt(old(self).toks(), old(self).at()), |x: Stmt| stmt_view(x), old(self).toks(), final(self).at()),
            r is Ok ==> old(self).at() < final(self).at(),
        decreases old(self).toks().len() - old(self).at(), 19nat,
    {
        let r: Result<Stmt, ParseFail> = if self.peek_is(&Token::Let) {
            self.parse_decl(false)
        } else if self.peek_is(&Token::Mut) {
            self.parse_decl(true)
        } else if self.peek_is(&Token::Return) {
            self.advance();
            if self.peek_is(&Token::Newline) || self.peek_is(&Token::Eof) || self.peek_is(&Token::Dedent) {
                Ok(Stmt::Return(None))
            } else {
                match self.parse_expression() {
                    Ok(e) => Ok(Stmt::Return(Some(e))),
                    Err(e) => Err(e),
                }
            }
        } else if self.peek_is(&Token::Break) {
            self.advance();
            Ok(Stmt::Break)
        } else if self.peek_is(&Token::Continue) {
            self.advance();
            Ok(Stmt::Continue)
        } else if self.peek_is(&Token::For) {
            self.parse_for()
        } else if self.peek_is(&Token::While) {
            self.parse_while()
        } else if self.peek_is(&Token::Loop) {
            self.parse_loop_stmt()
        } else {
            match self.parse_expression() {
                Ok(e) => {
                    if self.eat(&Token::Eq) {
                        match self.parse_expression() {
                            Ok(v) => Ok(Stmt::Assign { target: e, value: v }),
                            Err(er) => Err(er),
                        }
                    } else {
                        Ok(Stmt::Expr(e))
                    }
                },
                Err(e) => Err(e),
            }
        };
        match r {
            Ok(s) => {
                self.eat(&Token::Newline);
                Ok(s)
            },
            Err(e) => Err(e),
        }
    }

    /// `let` or `mut` declaration.
    pub(crate) fn parse_decl(&mut self, is_mut: bool) -> (r: Result<Stmt, ParseFail>)
        requires
            old(self).wf(),
        ensures
            final(self).wf(),
            final(self).toks() == old(self).toks(),
            agrees(r, sp_decl(old(self).toks(), old(self).at(), is_mut), |x: Stmt| stmt_view(x), old(self).toks(), final(self).at()),
            r is Ok ==> old(self).at() < final(self).at(),
        decreases old(self).toks().len() - old(self).at(), 1nat,
    {
        let kw = if is_mut { Token::Mut } else { Token::Let };
        match self.expect(&kw) {
            Ok(()) => {},
            Err(e) => {
                return Err(e);
            },
        }
        let name = match self.parse_ident() {
            Ok(n) => n,
            Err(e) => {
                return Err(e);
            },
        };
        let ty = if self.eat(&Token::Colon) {
            match self.parse_type() {
                Ok(t) => Some(t),
                Err(e) => {
                    return Err(e);
                },
            }
        } else {
            None
        };
        match self.expect(&Token::Eq) {
            Ok(()) => {},
            Err(e) => {
                return Err(e);
            },
        }
        let value = match self.parse_expression() {
            Ok(v) => v,
            Err(e) => {
                return Err(e);
            },
        };
        if is_mut {
            Ok(Stmt::Mut { name, ty, value })
        } else {
            Ok(Stmt::Let { name, ty, value })
        }
    }

    pub(crate) fn parse_for(&mut self) -> (r: Result<Stmt, ParseFail>)
        requires
            old(self).wf(),
        ensures
            final(self).wf(),
            final(self).toks() == old(self).toks(),
            agrees(r, sp_for(old(self).toks(), old(self).at()), |x: Stmt| stmt_view(x), old(self).toks(), final(self).at()),
            r is Ok ==> old(self).at() < final(self).at(),
        decreases old(self).toks().len() - old(self).at(), 1nat,
    {
        match self.expect(&Token::For) {
            Ok(()) => {},
            Err(e) => {
                return Err(e);
            },
        }
        let var = match self.parse_ident() {
            Ok(n) => n,
            Err(e) => {
                return Err(e);
            },
        };
        match self.expect(&Token::In) {
            Ok(()) => {},
            Err(e) => {
                return Err(e);
            },
        }
        let iter = match self.parse_expression() {
            Ok(v) => v,
            Err(e) => {
                return Err(e);
            },
        };
        match self.expect(&Token::Colon) {
            Ok(()) => {},
            Err(e) => {
                return Err(e);
            },
        }
        let body = match self.parse_block() {
            Ok(b) => b,
            Err(e) => {
                return Err(e);
            },
        };
        Ok(Stmt::For { var, iter, body })
    }

    pub(crate) fn parse_while(&mut self) -> (r: Result<Stmt, ParseFail>)
        requires
            old(self).wf(),
        ensures
            final(self).wf(),
            final(self).toks() == old(self).toks(),
            agrees(r, sp_while(old(self).toks(), old(self).at()), |x: Stmt| stmt_view(x), old(self).toks(), final(self).at()),
            r is Ok ==> old(self).at() < final(self).at(),
        decreases old(self).toks().len() - old(self).at(), 1nat,
    {
        match self.expect(&Token::While) {
            Ok(()) => {},
            Err(e) => {
                return Err(e);
            },
        }
        let cond = match self.parse_expression() {
            Ok(v) => v,
            Err(e) => {
                return Err(e);
            },
        };
        match self.expect(&Token::Colon) {
            Ok(()) => {},
            Err(e) => {
                return Err(e);
            },
        }
        let body = match self.parse_block() {
            Ok(b) => b,
            Err(e) => {
                return Err(e);
            },
        };
        Ok(Stmt::While { cond, body })
    }

    pub(crate) fn parse_loop_stmt(&mut self) -> (r: Result<Stmt, ParseFail>)
        requires
            old(self).wf(),
        ensures
            final(self).wf(),
            final(self).toks() == old(self).toks(),
            agrees(r, sp_loop(old(self).toks(), old(self).at()), |x: Stmt| stmt_view(x), old(self).toks(), final(self).at()),
            r is Ok ==> old(self).at() < final(self).at(),
        decreases old(self).toks().len() - old(self).at(), 1nat,
    {
        match self.expect(&Token::Loop) {
            Ok(()) => {},
            Err(e) => {
                return Err(e);
            },
        }
        match self.expect(&Token::Colon) {
            Ok(()) => {},
            Err(e) => {
                return Err(e);
            },
        }
        let body = match self.parse_block() {
            Ok(b) => b,
            Err(e) => {
                return Err(e);
            },
        };
        Ok(Stmt::Loop(body))
    }

    /// Parses an expression at the current position. A type written with fewer arguments than
    /// it takes stops the parse with a panic, as the compiler always has: `requires` leaves
    /// those inputs out.
    pub fn parse_expr(&mut self) -> (r: Result<Expr, ParseError>)
        requires
            old(self).wf(),
            no_panic(sp_expr(old(self).toks(), old(self).at())),
        ensures
            final(self).wf(),
            final(self).toks() == old(self).toks(),
            agrees_reported(r, sp_expr(old(self).toks(), old(self).at()), |x: Expr| ev(x), old(self).toks(), final(self).at()),
    {
        match self.parse_expression() {
            Ok(v) => Ok(v),
            Err(ParseFail::Error(e)) => Err(e),
            Err(ParseFail::MissingTypeArgs) => Err(ParseError { message: String::new(), line: 0, col: 0 }),
        }
    }

    /// An expression at the current position.
    pub(crate) fn parse_expression(&mut self) -> (r: Result<Expr, ParseFail>)
        requires
            old(self).wf(),
        ensures
            final(self).wf(),
            final(self).toks() == old(self).toks(),
            agrees(r, sp_expr(old(self).toks(), old(self).at()), |x: Expr| ev(x), old(self).toks(), final(self).at()),
            r is Ok ==> old(self).at() < final(self).at(),
        decreases old(self).toks().len() - old(self).at(), 17nat,
    {
        self.parse_range()
    }
}

} // verus!
