//! Top-level items: functions, structs, impls and imports, and whole programs.
use vstd::prelude::*;
use crate::ast::{
    lemma_arms_view_push, lemma_elifs_view_push, lemma_exprs_view_push, lemma_fields_view_push, lemma_names_view_push, lemma_params_view_push, lemma_patterns_view_push, lemma_stmts_view_push, lemma_tops_view_push, lemma_types_view_index, lemma_types_view_push,
    inames_view, opt_name_view, sfields_view,
    ArmV, BinOp, CatchHandler, Expr, ExprV, HandlerV, ImportSource, MatchArm, Param, ParamV, Pattern, PatternV, Stmt, StmtV, TopLevel, TopV, Type, TypeV, UnOp, arms_view, elifs_view, expr_view, exprs_view, fields_view, names_view, opt_type_view, param_view, params_view, pattern_view, patterns_view, stmt_view, stmts_view, top_view, tops_view, type_view, types_view,
};
use crate::parse_spec::{
    PErr, PR, add_op, adv, bin, compare_op, eat, eat_nl, fwd, fwd_eq, generic_type, keyword_type, lambda_start, mul_op, self_param, skip_nl, sp_add, sp_add_tail, sp_and, sp_and_tail, sp_args, sp_arms, sp_base_type, sp_block, sp_bound_name, sp_call_args, sp_catch, sp_compare, sp_decl, sp_dotted_tail, sp_slash_tail, sp_elifs, sp_expect, sp_expr, sp_expr_or_block, sp_fields, sp_fn, sp_fn_type_args, sp_for, sp_from_import, sp_ident, sp_if, sp_impl, sp_import, sp_import_names, sp_items, sp_lambda, sp_let, sp_loop, sp_match, sp_methods, sp_mul, sp_mul_tail, sp_mut, sp_or, sp_or_tail, sp_params, sp_params_list, sp_pattern, sp_pattern_alts, sp_post_tail, sp_postfix, sp_primary, sp_program, sp_range, sp_single_pattern, sp_stmt, sp_stmts, sp_struct, sp_struct_fields, sp_top, sp_try_block, sp_try_op, sp_try_tail, sp_type, sp_type_args, sp_unary, sp_union, sp_while, sp_wrapped, struct_lit_start, stuck, tok,
};
use crate::text::{push_str};
use crate::token::{is_plain, kind_of, push_token_debug, tok_debug, token_is, Span, Spanned, Token};

use super::{
    ParseError, ParseFail, Parser, agrees, agrees_reported, err_span, ev, lemma_skip_nl_bounds, no_panic, text_is,
};

verus! {

proof fn lemma_sfields_push(s: Seq<(String, Type)>, x: (String, Type))
    ensures
        sfields_view(s.push(x)) == sfields_view(s).push((x.0@, type_view(x.1))),
{
    assert(sfields_view(s.push(x)) =~= sfields_view(s).push((x.0@, type_view(x.1))));
}

proof fn lemma_inames_push(s: Seq<(String, Option<String>)>, x: (String, Option<String>))
    ensures
        inames_view(s.push(x)) == inames_view(s).push((x.0@, opt_name_view(x.1))),
{
    assert(inames_view(s.push(x)) =~= inames_view(s).push((x.0@, opt_name_view(x.1))));
}

impl Parser {
    /// Reads the whole program from the current position: top-level items up to Eof, with
    /// blank lines between them. A type written with fewer arguments than it takes stops the
    /// parse with a panic, as the compiler always has: `requires` leaves those inputs out.
    pub fn parse(&mut self) -> (r: Result<Vec<TopLevel>, ParseError>)
        requires
            old(self).wf(),
            no_panic(sp_items(old(self).toks(), skip_nl(old(self).toks(), old(self).at()), Seq::empty())),
        ensures
            final(self).wf(),
            final(self).toks() == old(self).toks(),
            agrees_reported(
                r,
                sp_items(old(self).toks(), skip_nl(old(self).toks(), old(self).at()), Seq::empty()),
                |x: Vec<TopLevel>| tops_view(x@),
                old(self).toks(),
                final(self).at(),
            ),
    {
        match self.parse_items() {
            Ok(v) => Ok(v),
            Err(ParseFail::Error(e)) => Err(e),
            Err(ParseFail::MissingTypeArgs) => Err(ParseError { message: String::new(), line: 0, col: 0 }),
        }
    }

    /// Reads the whole program as `parse` does, on every input: `Err(MissingTypeArgs)` where a
    /// type is written with fewer arguments than it takes.
    pub fn parse_checked(&mut self) -> (r: Result<Vec<TopLevel>, ParseFail>)
        requires
            old(self).wf(),
        ensures
            final(self).wf(),
            final(self).toks() == old(self).toks(),
            agrees(
                r,
                sp_items(old(self).toks(), skip_nl(old(self).toks(), old(self).at()), Seq::empty()),
                |x: Vec<TopLevel>| tops_view(x@),
                old(self).toks(),
                final(self).at(),
            ),
    {
        self.parse_items()
    }

    /// Top-level items up to Eof, with blank lines between them.
    fn parse_items(&mut self) -> (r: Result<Vec<TopLevel>, ParseFail>)
        requires
            old(self).wf(),
        ensures
            final(self).wf(),
            final(self).toks() == old(self).toks(),
            agrees(
                r,
                sp_items(old(self).toks(), skip_nl(old(self).toks(), old(self).at()), Seq::empty()),
                |x: Vec<TopLevel>| tops_view(x@),
                old(self).toks(),
                final(self).at(),
            ),
    {
        let ghost t = self.toks();
        proof {
            lemma_skip_nl_bounds(t, self.at());
        }
        self.skip_newlines();
        let ghost q0 = self.at();
        let mut items: Vec<TopLevel> = Vec::new();
        assert(tops_view(items@) =~= Seq::<TopV>::empty());
        loop
            invariant
                self.wf(),
                self.toks() == t,
                t == old(self).toks(),
                q0 <= self.at(),
                q0 == skip_nl(t, old(self).at()),
                sp_items(t, q0, Seq::empty()) == sp_items(t, self.at(), tops_view(items@)),
            decreases t.len() - self.at(),
        {
            if self.peek_is(&Token::Eof) {
                return Ok(items);
            }
            let it = match self.parse_top_level() {
                Ok(it) => it,
                Err(e) => {
                    return Err(e);
                },
            };
            proof {
                lemma_skip_nl_bounds(t, self.at());
                lemma_tops_view_push(items@, it);
            }
            self.skip_newlines();
            items.push(it);
        }
    }

    /// One top-level item.
    pub(crate) fn parse_top_level(&mut self) -> (r: Result<TopLevel, ParseFail>)
        requires
            old(self).wf(),
        ensures
            final(self).wf(),
            final(self).toks() == old(self).toks(),
            agrees(r, sp_top(old(self).toks(), old(self).at()), |x: TopLevel| top_view(x), old(self).toks(), final(self).at()),
            r is Ok ==> old(self).at() < final(self).at(),
    {
        proof {
            reveal(sp_top);
        }
        if self.peek_is(&Token::Fn) {
            self.parse_fn(false)
        } else if self.peek_is(&Token::Struct) {
            self.parse_struct()
        } else if self.peek_is(&Token::Impl) {
            self.parse_impl()
        } else if self.peek_is(&Token::Import) {
            self.parse_import()
        } else if self.peek_is(&Token::From) {
            self.parse_from_import()
        } else {
            let mut m = String::from_str("unexpected token at top level: ");
            push_token_debug(&mut m, self.peek());
            Err(self.error(m))
        }
    }

    /// `fn name(params) (-> type)?:` block; with `is_method`, the parameters may start with `self`.
    pub(crate) fn parse_fn(&mut self, is_method: bool) -> (r: Result<TopLevel, ParseFail>)
        requires
            old(self).wf(),
        ensures
            final(self).wf(),
            final(self).toks() == old(self).toks(),
            agrees(r, sp_fn(old(self).toks(), old(self).at(), is_method), |x: TopLevel| top_view(x), old(self).toks(), final(self).at()),
            r is Ok ==> old(self).at() < final(self).at(),
    {
        proof {
            reveal(sp_fn);
        }
        match self.expect(&Token::Fn) {
            Ok(()) => {},
            Err(e) => {
                return Err(e);
            },
        }
        let name = match self.parse_ident() {
            Ok(n) => n,
            Err(e) => {
                return Err(e);
            },
        };
        match self.expect(&Token::LParen) {
            Ok(()) => {},
            Err(e) => {
                return Err(e);
            },
        }
        let params = match self.parse_params(is_method) {
            Ok(ps) => ps,
            Err(e) => {
                return Err(e);
            },
        };
        match self.expect(&Token::RParen) {
            Ok(()) => {},
            Err(e) => {
                return Err(e);
            },
        }
        let ret = if self.eat(&Token::Arrow) {
            match self.parse_type() {
                Ok(ty) => Some(ty),
                Err(e) => {
                    return Err(e);
                },
            }
        } else {
            None
        };
        match self.expect(&Token::Colon) {
            Ok(()) => {},
            Err(e) => {
                return Err(e);
            },
        }
        let body = match self.parse_block() {
            Ok(b) => b,
            Err(e) => {
                return Err(e);
            },
        };
        Ok(TopLevel::Fn { name, params, ret, body })
    }

    /// `struct Name:` Newline Indent (`name: type` lines) Dedent
    pub(crate) fn parse_struct(&mut self) -> (r: Result<TopLevel, ParseFail>)
        requires
            old(self).wf(),
        ensures
            final(self).wf(),
            final(self).toks() == old(self).toks(),
            agrees(r, sp_struct(old(self).toks(), old(self).at()), |x: TopLevel| top_view(x), old(self).toks(), final(self).at()),
            r is Ok ==> old(self).at() < final(self).at(),
    {
        proof {
            reveal(sp_struct);
        }
        match self.expect(&Token::Struct) {
            Ok(()) => {},
            Err(e) => {
                return Err(e);
            },
        }
        let name = match self.parse_ident() {
            Ok(n) => n,
            Err(e) => {
                return Err(e);
            },
        };
        match self.expect(&Token::Colon) {
            Ok(()) => {},
            Err(e) => {
                return Err(e);
            },
        }
        match self.expect(&Token::Newline) {
            Ok(()) => {},
            Err(e) => {
                return Err(e);
            },
        }
        match self.expect(&Token::Indent) {
            Ok(()) => {},
            Err(e) => {
                return Err(e);
            },
        }
        let fields = match self.parse_struct_fields() {
            Ok(f) => f,
            Err(e) => {
                return Err(e);
            },
        };
        match self.expect(&Token::Dedent) {
            Ok(()) => {},
            Err(e) => {
                return Err(e);
            },
        }
        Ok(TopLevel::Struct { name, fields })
    }

    /// The `name: type` lines of a struct, up to Dedent or Eof.
    pub(crate) fn parse_struct_fields(&mut self) -> (r: Result<Vec<(String, Type)>, ParseFail>)
        requires
            old(self).wf(),
        ensures
            final(self).wf(),
            final(self).toks() == old(self).toks(),
            agrees(
                r,
                sp_struct_fields(old(self).toks(), old(self).at(), Seq::empty()),
                |x: Vec<(String, Type)>| sfields_view(x@),
                old(self).toks(),
                final(self).at(),
            ),
            r is Ok ==> old(self).at() <= final(self).at(),
    {
        let ghost t = self.toks();
        let ghost q0 = self.at();
        let mut fields: Vec<(String, Type)> = Vec::new();
        assert(sfields_view(fields@) =~= Seq::<(Seq<char>, TypeV)>::empty());
        loop
            invariant
                self.wf(),
                self.toks() == t,
                t == old(self).toks(),
                q0 <= self.at(),
                q0 == old(self).at(),
                sp_struct_fields(t, q0, Seq::empty()) == sp_struct_fields(t, self.at(), sfields_view(fields@)),
            decreases t.len() - self.at(),
        {
            if self.peek_is(&Token::Dedent) || self.peek_is(&Token::Eof) {
                return Ok(fields);
            }
            proof {
                lemma_skip_nl_bounds(t, self.at());
            }
            self.skip_newlines();
            if self.peek_is(&Token::Dedent) {
                return Ok(fields);
            }
            let fname = match self.parse_ident() {
                Ok(n) => n,
                Err(e) => {
                    return Err(e);
                },
            };
            match self.expect(&Token::Colon) {
                Ok(()) => {},
                Err(e) => {
                    return Err(e);
                },
            }
            let ftype = match self.parse_type() {
                Ok(ty) => ty,
                Err(e) => {
                    return Err(e);
                },
            };
            proof {
                lemma_sfields_push(fields@, (fname, ftype));
            }
            fields.push((fname, ftype));
            self.eat(&Token::Newline);
        }
    }

    /// `impl Name:` Newline Indent functions Dedent
    pub(crate) fn parse_impl(&mut self) -> (r: Result<TopLevel, ParseFail>)
        requires
            old(self).wf(),
        ensures
            final(self).wf(),
            final(self).toks() == old(self).toks(),
            agrees(r, sp_impl(old(self).toks(), old(self).at()), |x: TopLevel| top_view(x), old(self).toks(), final(self).at()),
            r is Ok ==> old(self).at() < final(self).at(),
    {
        proof {
            reveal(sp_impl);
        }
        match self.expect(&Token::Impl) {
            Ok(()) => {},
            Err(e) => {
                return Err(e);
            },
        }
        let name = match self.parse_ident() {
            Ok(n) => n,
            Err(e) => {
                return Err(e);
            },
        };
        match self.expect(&Token::Colon) {
            Ok(()) => {},
            Err(e) => {
                return Err(e);
            },
        }
        match self.expect(&Token::Newline) {
            Ok(()) => {},
            Err(e) => {
                return Err(e);
            },
        }
        match self.expect(&Token::Indent) {
            Ok(()) => {},
            Err(e) => {
                return Err(e);
            },
        }
        let methods = match self.parse_methods() {
            Ok(m) => m,
            Err(e) => {
                return Err(e);
            },
        };
        match self.expect(&Token::Dedent) {
            Ok(()) => {},
            Err(e) => {
                return Err(e);
            },
        }
        Ok(TopLevel::Impl { name, methods })
    }

    /// The functions of an `impl`, up to Dedent or Eof.
    pub(crate) fn parse_methods(&mut self) -> (r: Result<Vec<TopLevel>, ParseFail>)
        requires
            old(self).wf(),
        ensures
            final(self).wf(),
            final(self).toks() == old(self).toks(),
            agrees(r, sp_methods(old(self).toks(), old(self).at(), Seq::empty()), |x: Vec<TopLevel>| tops_view(x@), old(self).toks(), final(self).at()),
            r is Ok ==> old(self).at() <= final(self).at(),
    {
        let ghost t = self.toks();
        let ghost q0 = self.at();
        let mut methods: Vec<TopLevel> = Vec::new();
        assert(tops_view(methods@) =~= Seq::<TopV>::empty());
        loop
            invariant
                self.wf(),
                self.toks() == t,
                t == old(self).toks(),
                q0 <= self.at(),
                q0 == old(self).at(),
                sp_methods(t, q0, Seq::empty()) == sp_methods(t, self.at(), tops_view(methods@)),
            decreases t.len() - self.at(),
        {
            if self.peek_is(&Token::Dedent) || self.peek_is(&Token::Eof) {
                return Ok(methods);
            }
            proof {
                lemma_skip_nl_bounds(t, self.at());
            }
            self.skip_newlines();
            if self.peek_is(&Token::Dedent) {
                return Ok(methods);
            }
            let m = match self.parse_fn(true) {
                Ok(m) => m,
                Err(e) => {
                    return Err(e);
                },
            };
            proof {
                lemma_tops_view_push(methods@, m);
            }
            methods.push(m);
        }
    }

    /// `.name` parts after the first name of a dotted path, appended to `parts`.
    pub(crate) fn parse_dotted_tail(&mut self, init: Vec<String>) -> (r: Result<Vec<String>, ParseFail>)
        requires
            old(self).wf(),
        ensures
            final(self).wf(),
            final(self).toks() == old(self).toks(),
            agrees(r, sp_dotted_tail(old(self).toks(), old(self).at(), names_view(init@)), |x: Vec<String>| names_view(x@), old(self).toks(), final(self).at()),
            r is Ok ==> old(self).at() <= final(self).at(),
    {
        let ghost t = self.toks();
        let ghost q0 = self.at();
        let ghost acc0 = names_view(init@);
        let mut parts = init;
        while self.peek_is(&Token::Dot)
            invariant
                self.wf(),
                self.toks() == t,
                t == old(self).toks(),
                q0 <= self.at(),
                q0 == old(self).at(),
                acc0 == names_view(init@),
                sp_dotted_tail(t, q0, acc0) == sp_dotted_tail(t, self.at(), names_view(parts@)),
            decreases t.len() - self.at(),
        {
            self.advance();
            let n = match self.parse_ident() {
                Ok(n) => n,
                Err(e) => {
                    return Err(e);
                },
            };
            proof {
                lemma_names_view_push(parts@, n);
            }
            parts.push(n);
        }
        Ok(parts)
    }

    /// The segments `/name` of a local import path, after those in `init`.
    pub(crate) fn parse_slash_tail(&mut self, init: Vec<String>) -> (r: Result<Vec<String>, ParseFail>)
        requires
            old(self).wf(),
        ensures
            final(self).wf(),
            final(self).toks() == old(self).toks(),
            agrees(r, sp_slash_tail(old(self).toks(), old(self).at(), names_view(init@)), |x: Vec<String>| names_view(x@), old(self).toks(), final(self).at()),
            r is Ok ==> old(self).at() <= final(self).at(),
    {
        let ghost t = self.toks();
        let ghost q0 = self.at();
        let ghost acc0 = names_view(init@);
        let mut parts = init;
        while self.peek_is(&Token::Slash)
            invariant
                self.wf(),
                self.toks() == t,
                t == old(self).toks(),
                q0 <= self.at(),
                q0 == old(self).at(),
                acc0 == names_view(init@),
                sp_slash_tail(t, q0, acc0) == sp_slash_tail(t, self.at(), names_view(parts@)),
            decreases t.len() - self.at(),
        {
            self.advance();
            let n = match self.parse_ident() {
                Ok(n) => n,
                Err(e) => {
                    return Err(e);
                },
            };
            proof {
                lemma_names_view_push(parts@, n);
            }
            parts.push(n);
        }
        Ok(parts)
    }


    /// `import a.b.c (as alias)?`
    pub(crate) fn parse_import(&mut self) -> (r: Result<TopLevel, ParseFail>)
        requires
            old(self).wf(),
        ensures
            final(self).wf(),
            final(self).toks() == old(self).toks(),
            agrees(r, sp_import(old(self).toks(), old(self).at()), |x: TopLevel| top_view(x), old(self).toks(), final(self).at()),
            r is Ok ==> old(self).at() < final(self).at(),
    {
        proof {
            reveal(sp_import);
        }
        match self.expect(&Token::Import) {
            Ok(()) => {},
            Err(e) => {
                return Err(e);
            },
        }
        let first = match self.parse_ident() {
            Ok(n) => n,
            Err(e) => {
                return Err(e);
            },
        };
        let mut parts: Vec<String> = Vec::new();
        proof {
            lemma_names_view_push(parts@, first);
            assert(names_view(parts@) =~= Seq::<Seq<char>>::empty());
        }
        parts.push(first);
        let path = match self.parse_dotted_tail(parts) {
            Ok(p) => p,
            Err(e) => {
                return Err(e);
            },
        };
        let alias = if self.eat(&Token::As) {
            match self.parse_ident() {
                Ok(a) => Some(a),
                Err(e) => {
                    return Err(e);
                },
            }
        } else {
            None
        };
        self.eat(&Token::Newline);
        Ok(TopLevel::Import { path, alias })
    }

    /// `from std(.path)* import names` or `from skp(.path)* import names`.
    pub(crate) fn parse_from_import(&mut self) -> (r: Result<TopLevel, ParseFail>)
        requires
            old(self).wf(),
        ensures
            final(self).wf(),
            final(self).toks() == old(self).toks(),
            agrees(r, sp_from_import(old(self).toks(), old(self).at()), |x: TopLevel| top_view(x), old(self).toks(), final(self).at()),
            r is Ok ==> old(self).at() < final(self).at(),
    {
        proof {
            reveal(sp_from_import);
        }
        match self.expect(&Token::From) {
            Ok(()) => {},
            Err(e) => {
                return Err(e);
            },
        }
        let (source, path) = if self.peek_is(&Token::Dot) || self.peek_is(&Token::DotDot) {
            let mut prefix: Vec<String> = Vec::new();
            if self.peek_is(&Token::DotDot) {
                prefix.push(String::from_str(".."));
            }
            assert(names_view(prefix@) =~= (if tok(self.toks(), self.at()) == Token::Dot {
                Seq::<Seq<char>>::empty()
            } else {
                seq![".."@]
            }));
            self.advance();
            match self.expect(&Token::Slash) {
                Ok(()) => {},
                Err(e) => {
                    return Err(e);
                },
            }
            let n = match self.parse_ident() {
                Ok(n) => n,
                Err(e) => {
                    return Err(e);
                },
            };
            proof {
                lemma_names_view_push(prefix@, n);
            }
            prefix.push(n);
            let path = match self.parse_slash_tail(prefix) {
                Ok(p) => p,
                Err(e) => {
                    return Err(e);
                },
            };
            (ImportSource::Local, path)
        } else {
            let first = match self.parse_ident() {
                Ok(n) => n,
                Err(e) => {
                    return Err(e);
                },
            };
            let source = if text_is(&first, "std") {
                ImportSource::Std
            } else if text_is(&first, "skp") {
                ImportSource::Skp
            } else {
                let mut m = String::from_str("unknown import source '");
                push_str(&mut m, first.as_str());
                push_str(&mut m, "'. use 'std' or 'skp'");
                return Err(self.error(m));
            };
            let none: Vec<String> = Vec::new();
            assert(names_view(none@) =~= Seq::<Seq<char>>::empty());
            let path = match self.parse_dotted_tail(none) {
                Ok(p) => p,
                Err(e) => {
                    return Err(e);
                },
            };
            (source, path)
        };
        match self.expect(&Token::Import) {
            Ok(()) => {},
            Err(e) => {
                return Err(e);
            },
        }
        let names = match self.parse_import_names() {
            Ok(n) => n,
            Err(e) => {
                return Err(e);
            },
        };
        self.eat(&Token::Newline);
        Ok(TopLevel::FromImport { source, path, names })
    }

    /// `name (as alias)?` separated by commas.
    pub(crate) fn parse_import_names(&mut self) -> (r: Result<Vec<(String, Option<String>)>, ParseFail>)
        requires
            old(self).wf(),
        ensures
            final(self).wf(),
            final(self).toks() == old(self).toks(),
            agrees(
                r,
                sp_import_names(old(self).toks(), old(self).at(), Seq::empty()),
                |x: Vec<(String, Option<String>)>| inames_view(x@),
                old(self).toks(),
                final(self).at(),
            ),
            r is Ok ==> old(self).at() < final(self).at(),
    {
        let ghost t = self.toks();
        let ghost q0 = self.at();
        let mut names: Vec<(String, Option<String>)> = Vec::new();
        assert(inames_view(names@) =~= Seq::<(Seq<char>, Option<Seq<char>>)>::empty());
        loop
            invariant
                self.wf(),
                self.toks() == t,
                t == old(self).toks(),
                q0 <= self.at(),
                q0 == old(self).at(),
                names@.len() > 0 ==> q0 < self.at(),
                sp_import_names(t, q0, Seq::empty()) == sp_import_names(t, self.at(), inames_view(names@)),
            decreases t.len() - self.at(),
        {
            let name = match self.parse_ident() {
                Ok(n) => n,
                Err(e) => {
                    return Err(e);
                },
            };
            let alias = if self.eat(&Token::As) {
                match self.parse_ident() {
                    Ok(a) => Some(a),
                    Err(e) => {
                        return Err(e);
                    },
                }
            } else {
                None
            };
            proof {
                lemma_inames_push(names@, (name, alias));
            }
            names.push((name, alias));
            if !self.eat(&Token::Comma) {
                return Ok(names);
            }
        }
    }
}

} // verus!
