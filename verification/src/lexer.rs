//! The lexer: source text to tokens, with indentation turned into Indent/Dedent tokens.
//!
//! The specification is a step function over a small state (position, indentation stack,
//! whether a line is starting); `lex_run` iterates it to the end of the text.
use vstd::prelude::*;
use crate::text::{
    char_alphabetic, char_alphanumeric, chars_to_string, is_alphabetic, is_alphanumeric, is_digit,
    push_char, str_chars,
};
use crate::token::{kind, word_token, word_token_of, TokView};
pub use crate::token::{LexError, Span, Spanned, Token};

verus! {

// ============================================================
// Specification
// ============================================================

/// The (line, column) reached after reading `src[0..pos]`: lines count from 1, columns from 0,
/// and a newline starts the next line at column 0.
pub open spec fn line_col(src: Seq<char>, pos: nat) -> (nat, nat)
    decreases pos,
{
    if pos == 0 {
        (1, 0)
    } else {
        let lc = line_col(src, (pos - 1) as nat);
        if src[pos - 1] == '\n' {
            (lc.0 + 1, 0)
        } else {
            (lc.0, lc.1 + 1)
        }
    }
}

/// The span of the position `pos`.
pub open spec fn span_at(src: Seq<char>, pos: nat) -> Span {
    Span { line: line_col(src, pos).0 as usize, col: line_col(src, pos).1 as usize }
}

/// The indentation width of the blanks that start at `pos` (a space counts 1, a tab 4)
/// and the position just after them.
pub open spec fn indent_scan(src: Seq<char>, pos: nat) -> (nat, nat)
    decreases src.len() - pos,
{
    if pos < src.len() && src[pos as int] == ' ' {
        let r = indent_scan(src, pos + 1);
        (r.0 + 1, r.1)
    } else if pos < src.len() && src[pos as int] == '\t' {
        let r = indent_scan(src, pos + 1);
        (r.0 + 4, r.1)
    } else {
        (0, pos)
    }
}

/// The first position at or after `pos` that holds a newline, or the end of the text.
pub open spec fn line_end(src: Seq<char>, pos: nat) -> nat
    decreases src.len() - pos,
{
    if pos < src.len() && src[pos as int] != '\n' {
        line_end(src, pos + 1)
    } else {
        pos
    }
}

/// What an escape `\c` inside a string literal stands for.
pub open spec fn escape_text(c: char) -> Seq<char> {
    if c == 'n' {
        seq!['\n']
    } else if c == 't' {
        seq!['\t']
    } else if c == 'r' {
        seq!['\r']
    } else if c == '\\' {
        seq!['\\']
    } else if c == '"' {
        seq!['"']
    } else if c == '\'' {
        seq!['\'']
    } else if c == '0' {
        seq!['\0']
    } else {
        seq!['\\', c]
    }
}

/// The outcome of reading the body of a string literal.
pub enum StrScan {
    /// The text of the literal and the position just after its closing quote.
    Text(Seq<char>, nat),
    /// The text ended before the closing quote.
    Unterminated,
    /// The text ended right after a backslash.
    BadEscape,
}

/// Reads a string literal body from `pos` up to the closing `quote`.
pub open spec fn scan_string(src: Seq<char>, pos: nat, quote: char) -> StrScan
    decreases src.len() - pos,
{
    if pos >= src.len() {
        StrScan::Unterminated
    } else if src[pos as int] == quote {
        StrScan::Text(Seq::empty(), pos + 1)
    } else if src[pos as int] == '\\' {
        if pos + 1 >= src.len() {
            StrScan::BadEscape
        } else {
            match scan_string(src, pos + 2, quote) {
                StrScan::Text(s, e) => StrScan::Text(escape_text(src[pos as int + 1]) + s, e),
                other => other,
            }
        }
    } else {
        match scan_string(src, pos + 1, quote) {
            StrScan::Text(s, e) => StrScan::Text(seq![src[pos as int]] + s, e),
            other => other,
        }
    }
}

/// Reads the rest of a number from `pos`: digits, and at most one '.' that is followed by a digit.
/// Gives the end position and whether a '.' was taken.
pub open spec fn scan_number(src: Seq<char>, pos: nat, is_float: bool) -> (nat, bool)
    decreases src.len() - pos,
{
    if pos < src.len() && is_digit(src[pos as int]) {
        scan_number(src, pos + 1, is_float)
    } else if pos < src.len() && src[pos as int] == '.' && !is_float && pos + 1 < src.len()
        && is_digit(src[pos as int + 1]) {
        scan_number(src, pos + 1, true)
    } else {
        (pos, is_float)
    }
}

/// The value of a digit character.
pub open spec fn digit_value(c: char) -> nat {
    (c as int - '0' as int) as nat
}

/// The value of a string of decimal digits.
pub open spec fn digits_value(s: Seq<char>) -> nat
    decreases s.len(),
{
    if s.len() == 0 {
        0
    } else {
        digits_value(s.drop_last()) * 10 + digit_value(s.last())
    }
}

/// The token of a number literal: a float keeps its text; an integer too large for `i64`
/// becomes 0.
pub open spec fn number_token(text: Seq<char>, is_float: bool) -> TokView {
    if is_float {
        TokView::Float(text)
    } else if digits_value(text) <= i64::MAX {
        TokView::Other(Token::Int(digits_value(text) as i64))
    } else {
        TokView::Other(Token::Int(0))
    }
}

/// Whether a character can start an identifier.
pub open spec fn ident_start(c: char) -> bool {
    char_alphabetic(c) || c == '_'
}

/// Whether a character can continue an identifier.
pub open spec fn ident_char(c: char) -> bool {
    char_alphanumeric(c) || c == '_'
}

/// The end of the identifier characters that start at `pos`.
pub open spec fn scan_ident(src: Seq<char>, pos: nat) -> nat
    decreases src.len() - pos,
{
    if pos < src.len() && ident_char(src[pos as int]) {
        scan_ident(src, pos + 1)
    } else {
        pos
    }
}

/// The outcome of reading an operator or punctuation character.
pub enum SymScan {
    Tok(Token, nat),
    Skip(nat),
    Fail(Seq<char>),
}

/// Reads the symbol at `pos`; the position given is the one after the symbol.
pub open spec fn scan_symbol(src: Seq<char>, pos: nat) -> SymScan {
    let c = src[pos as int];
    let q = pos + 1;
    let nx = if q < src.len() { Some(src[q as int]) } else { None };
    if c == '+' {
        SymScan::Tok(Token::Plus, q)
    } else if c == '-' {
        if nx == Some('>') { SymScan::Tok(Token::Arrow, q + 1) } else { SymScan::Tok(Token::Minus, q) }
    } else if c == '*' {
        SymScan::Tok(Token::Star, q)
    } else if c == '/' {
        SymScan::Tok(Token::Slash, q)
    } else if c == '%' {
        SymScan::Tok(Token::Percent, q)
    } else if c == '=' {
        if nx == Some('=') {
            SymScan::Tok(Token::EqEq, q + 1)
        } else if nx == Some('>') {
            SymScan::Tok(Token::FatArrow, q + 1)
        } else {
            SymScan::Tok(Token::Eq, q)
        }
    } else if c == '!' {
        if nx == Some('=') { SymScan::Tok(Token::NotEq, q + 1) } else { SymScan::Tok(Token::Not, q) }
    } else if c == '<' {
        if nx == Some('=') { SymScan::Tok(Token::LtEq, q + 1) } else { SymScan::Tok(Token::Lt, q) }
    } else if c == '>' {
        if nx == Some('=') { SymScan::Tok(Token::GtEq, q + 1) } else { SymScan::Tok(Token::Gt, q) }
    } else if c == '&' {
        if nx == Some('&') {
            SymScan::Tok(Token::And, q + 1)
        } else {
            SymScan::Fail("single '&' is not supported, use '&&'"@)
        }
    } else if c == '|' {
        if nx == Some('|') { SymScan::Tok(Token::Or, q + 1) } else { SymScan::Tok(Token::Pipe, q) }
    } else if c == '?' {
        SymScan::Tok(Token::Question, q)
    } else if c == ':' {
        SymScan::Tok(Token::Colon, q)
    } else if c == '.' {
        if nx == Some('.') {
            if q + 1 < src.len() && src[q as int + 1] == '=' {
                SymScan::Tok(Token::DotDotEq, q + 2)
            } else {
                SymScan::Tok(Token::DotDot, q + 1)
            }
        } else {
            SymScan::Tok(Token::Dot, q)
        }
    } else if c == ',' {
        SymScan::Tok(Token::Comma, q)
    } else if c == ';' {
        SymScan::Tok(Token::Semicolon, q)
    } else if c == '(' {
        SymScan::Tok(Token::LParen, q)
    } else if c == ')' {
        SymScan::Tok(Token::RParen, q)
    } else if c == '{' {
        SymScan::Tok(Token::LBrace, q)
    } else if c == '}' {
        SymScan::Tok(Token::RBrace, q)
    } else if c == '[' {
        SymScan::Tok(Token::LBracket, q)
    } else if c == ']' {
        SymScan::Tok(Token::RBracket, q)
    } else if c == '\r' {
        SymScan::Skip(q)
    } else {
        SymScan::Fail("unexpected character: '"@ + seq![c] + "'"@)
    }
}

/// A token with its span, as a value.
pub type TokAt = (TokView, Span);

/// The views of a sequence of spanned tokens.
pub open spec fn views(v: Seq<Spanned>) -> Seq<TokAt> {
    v.map_values(|s: Spanned| s@)
}

/// `n` Dedent tokens at one span.
pub open spec fn dedents(n: nat, span: Span) -> Seq<TokAt> {
    Seq::new(n, |i: int| (TokView::Other(Token::Dedent), span))
}

/// What the end of the text emits: a Dedent for each open indentation level, then Eof.
pub open spec fn eof_tokens(indents: Seq<usize>, span: Span) -> Seq<TokAt> {
    dedents((indents.len() - 1) as nat, span).push((TokView::Other(Token::Eof), span))
}

/// Pops the indentation levels above `level`; gives the remaining stack and how many were popped.
pub open spec fn pop_levels(indents: Seq<usize>, level: nat) -> (Seq<usize>, nat)
    decreases indents.len(),
{
    if indents.len() > 0 && indents.last() > level {
        let r = pop_levels(indents.drop_last(), level);
        (r.0, r.1 + 1)
    } else {
        (indents, 0)
    }
}

/// The state of the lexer between steps.
pub struct LexSt {
    pub pos: nat,
    pub indents: Seq<usize>,
    pub at_line_start: bool,
}

/// The state at the start of a text.
pub open spec fn init_state() -> LexSt {
    LexSt { pos: 0, indents: seq![0usize], at_line_start: true }
}

/// The outcome of one step.
pub enum Step {
    /// Continue from the state, after emitting the tokens.
    More(LexSt, Seq<TokAt>),
    /// The text is done; these are the last tokens.
    Done(Seq<TokAt>),
    /// An error with its message and the position where it is reported.
    Fail(Seq<char>, nat),
}

/// What the start of a line does.
pub enum LineStart {
    /// A blank or comment line: one character is consumed, and a line starts again at the position.
    Blank(nat),
    /// The end of the text.
    End(Seq<TokAt>),
    /// Indentation handled; go on from the state with these tokens emitted.
    Go(LexSt, Seq<TokAt>),
}

/// The start of a line at state `st`: measure the indentation, skip blank and comment lines,
/// and compare the level with the innermost open level.
pub open spec fn line_start(src: Seq<char>, st: LexSt) -> LineStart {
    let (level, p1) = indent_scan(src, st.pos);
    if p1 < src.len() && (src[p1 as int] == '\n' || src[p1 as int] == '#') {
        if src[st.pos as int] == '#' {
            LineStart::Blank(line_end(src, st.pos + 1))
        } else {
            LineStart::Blank(st.pos + 1)
        }
    } else if p1 >= src.len() {
        LineStart::End(eof_tokens(st.indents, span_at(src, p1)))
    } else {
        let span = span_at(src, p1);
        let cur = st.indents.last();
        if level > cur {
            LineStart::Go(
                LexSt { pos: p1, indents: st.indents.push(level as usize), at_line_start: false },
                seq![(TokView::Other(Token::Indent), span)],
            )
        } else if level < cur {
            let (rest, k) = pop_levels(st.indents, level);
            LineStart::Go(LexSt { pos: p1, indents: rest, at_line_start: false }, dedents(k, span))
        } else {
            LineStart::Go(LexSt { pos: p1, indents: st.indents, at_line_start: false }, Seq::empty())
        }
    }
}

/// Moves to position `p` (not at a line start) after emitting `toks`.
pub open spec fn more(st: LexSt, p: nat, toks: Seq<TokAt>) -> Step {
    Step::More(LexSt { pos: p, indents: st.indents, at_line_start: false }, toks)
}

/// Reads one item at `st.pos` within a line.
pub open spec fn main_step(src: Seq<char>, st: LexSt) -> Step {
    let p = st.pos;
    let span = span_at(src, p);
    if p >= src.len() {
        Step::Done(eof_tokens(st.indents, span))
    } else {
        let c = src[p as int];
        if c == '\n' {
            Step::More(
                LexSt { pos: p + 1, indents: st.indents, at_line_start: true },
                seq![(TokView::Other(Token::Newline), span)],
            )
        } else if c == ' ' || c == '\t' {
            more(st, p + 1, Seq::empty())
        } else if c == '#' {
            more(st, line_end(src, p), Seq::empty())
        } else if c == '"' || c == '\'' {
            match scan_string(src, p + 1, c) {
                StrScan::Text(s, e) => more(st, e, seq![(TokView::Str(s), span)]),
                StrScan::Unterminated => Step::Fail("unterminated string literal"@, src.len()),
                StrScan::BadEscape => Step::Fail("unterminated escape sequence"@, src.len()),
            }
        } else if is_digit(c) {
            let (e, f) = scan_number(src, p + 1, false);
            more(st, e, seq![(number_token(src.subrange(p as int, e as int), f), span)])
        } else if ident_start(c) {
            let e = scan_ident(src, p + 1);
            more(st, e, seq![(word_token(src.subrange(p as int, e as int)), span)])
        } else {
            match scan_symbol(src, p) {
                SymScan::Tok(t, e) => more(st, e, seq![(t@, span)]),
                SymScan::Skip(e) => more(st, e, Seq::empty()),
                SymScan::Fail(m) => Step::Fail(m, p + 1),
            }
        }
    }
}

/// Puts `pre` in front of the tokens of a step.
pub open spec fn after(pre: Seq<TokAt>, s: Step) -> Step {
    match s {
        Step::More(st, t) => Step::More(st, pre + t),
        Step::Done(t) => Step::Done(pre + t),
        Step::Fail(m, p) => Step::Fail(m, p),
    }
}

/// One step of the lexer.
pub open spec fn step(src: Seq<char>, st: LexSt) -> Step {
    if st.at_line_start {
        match line_start(src, st) {
            LineStart::Blank(p) => Step::More(LexSt { pos: p, indents: st.indents, at_line_start: true }, Seq::empty()),
            LineStart::End(t) => Step::Done(t),
            LineStart::Go(st1, pre) => after(pre, main_step(src, st1)),
        }
    } else {
        main_step(src, st)
    }
}

/// The tokens of the text from state `st` on, or the error with the position where it is reported.
pub open spec fn lex_run(src: Seq<char>, st: LexSt) -> Result<Seq<TokAt>, (Seq<char>, nat)>
    decreases src.len() - st.pos,
{
    match step(src, st) {
        Step::More(st2, toks) => {
            if st.pos < st2.pos <= src.len() {
                match lex_run(src, st2) {
                    Ok(rest) => Ok(toks + rest),
                    Err(e) => Err(e),
                }
            } else {
                Err((Seq::empty(), st.pos))
            }
        },
        Step::Done(toks) => Ok(toks),
        Step::Fail(m, p) => Err((m, p)),
    }
}

/// The tokens of a whole text.
pub open spec fn lex(src: Seq<char>) -> Result<Seq<TokAt>, (Seq<char>, nat)> {
    lex_run(src, init_state())
}

/// The greatest text length the lexer takes: its counters then stay far below `usize::MAX`.
pub open spec fn max_source_len() -> nat {
    (usize::MAX / 8) as nat
}

/// A valid indentation stack: it starts at level 0.
pub open spec fn indents_ok(s: Seq<usize>) -> bool {
    s.len() >= 1 && s[0] == 0
}

// ============================================================
// Lemmas
// ============================================================

proof fn lemma_line_col_bounds(src: Seq<char>, pos: nat)
    ensures
        line_col(src, pos).0 <= pos + 1,
        line_col(src, pos).1 <= pos,
    decreases pos,
{
    if pos > 0 {
        lemma_line_col_bounds(src, (pos - 1) as nat);
    }
}

proof fn lemma_views_push(v: Seq<Spanned>, x: Spanned)
    ensures
        views(v.push(x)) == views(v).push(x@),
{
    assert(views(v.push(x)) =~= views(v).push(x@));
}

proof fn lemma_dedents_push(n: nat, span: Span)
    ensures
        dedents(n + 1, span) == dedents(n, span).push((TokView::Other(Token::Dedent), span)),
{
    assert(dedents(n + 1, span) =~= dedents(n, span).push((TokView::Other(Token::Dedent), span)));
}

proof fn lemma_indent_scan_bounds(src: Seq<char>, pos: nat)
    requires
        pos <= src.len(),
    ensures
        pos <= indent_scan(src, pos).1 <= src.len(),
        indent_scan(src, pos).0 <= 4 * (indent_scan(src, pos).1 - pos),
    decreases src.len() - pos,
{
    if pos < src.len() && (src[pos as int] == ' ' || src[pos as int] == '\t') {
        lemma_indent_scan_bounds(src, pos + 1);
    }
}

proof fn lemma_line_end_bounds(src: Seq<char>, pos: nat)
    requires
        pos <= src.len(),
    ensures
        pos <= line_end(src, pos) <= src.len(),
    decreases src.len() - pos,
{
    if pos < src.len() && src[pos as int] != '\n' {
        lemma_line_end_bounds(src, pos + 1);
    }
}

proof fn lemma_scan_string_bounds(src: Seq<char>, pos: nat, quote: char)
    requires
        pos <= src.len(),
    ensures
        scan_string(src, pos, quote) matches StrScan::Text(_, e) ==> pos < e <= src.len(),
    decreases src.len() - pos,
{
    if pos < src.len() && src[pos as int] != quote {
        if src[pos as int] == '\\' {
            if pos + 1 < src.len() {
                lemma_scan_string_bounds(src, pos + 2, quote);
            }
        } else {
            lemma_scan_string_bounds(src, pos + 1, quote);
        }
    }
}

proof fn lemma_scan_number_bounds(src: Seq<char>, pos: nat, f: bool)
    requires
        pos <= src.len(),
    ensures
        pos <= scan_number(src, pos, f).0 <= src.len(),
    decreases src.len() - pos,
{
    if pos < src.len() && is_digit(src[pos as int]) {
        lemma_scan_number_bounds(src, pos + 1, f);
    } else if pos < src.len() && src[pos as int] == '.' && !f && pos + 1 < src.len() && is_digit(src[pos as int + 1]) {
        lemma_scan_number_bounds(src, pos + 1, true);
    }
}

proof fn lemma_scan_ident_bounds(src: Seq<char>, pos: nat)
    requires
        pos <= src.len(),
    ensures
        pos <= scan_ident(src, pos) <= src.len(),
    decreases src.len() - pos,
{
    if pos < src.len() && ident_char(src[pos as int]) {
        lemma_scan_ident_bounds(src, pos + 1);
    }
}

/// Every step that continues moves forward and stays within the text.
proof fn lemma_step_progress(src: Seq<char>, st: LexSt)
    requires
        st.pos <= src.len(),
    ensures
        step(src, st) matches Step::More(st2, _) ==> st.pos < st2.pos <= src.len(),
{
    lemma_indent_scan_bounds(src, st.pos);
    let p1 = indent_scan(src, st.pos).1;
    if st.at_line_start && p1 < src.len() && (src[p1 as int] == '\n' || src[p1 as int] == '#') {
        if src[st.pos as int] == '#' {
            lemma_line_end_bounds(src, st.pos + 1);
        }
    } else {
        let p = if st.at_line_start { p1 } else { st.pos };
        if p < src.len() {
            lemma_line_end_bounds(src, p);
            lemma_line_end_bounds(src, p + 1);
            lemma_scan_string_bounds(src, p + 1, src[p as int]);
            lemma_scan_number_bounds(src, p + 1, false);
            lemma_scan_ident_bounds(src, p + 1);
        }
    }
}

/// The value of the digits `src[a..b]`, or 0 when it does not fit in `i64`.
fn digits_to_i64(src: &Vec<char>, a: usize, b: usize) -> (r: i64)
    requires
        a <= b <= src@.len(),
        forall|i: int| a <= i < b ==> is_digit(#[trigger] src@[i]),
    ensures
        r as int == (if digits_value(src@.subrange(a as int, b as int)) <= i64::MAX {
            digits_value(src@.subrange(a as int, b as int)) as int
        } else {
            0
        }),
{
    let mut v: u64 = 0;
    let mut big = false;
    let mut i = a;
    assert(src@.subrange(a as int, a as int) =~= Seq::<char>::empty());
    while i < b
        invariant
            a <= i <= b <= src@.len(),
            forall|k: int| a <= k < b ==> is_digit(#[trigger] src@[k]),
            big == (digits_value(src@.subrange(a as int, i as int)) > i64::MAX),
            !big ==> v as int == digits_value(src@.subrange(a as int, i as int)),
        decreases b - i,
    {
        let c = src[i];
        assert(is_digit(src@[i as int]));
        let d: u64 = (c as u32 - '0' as u32) as u64;
        let ghost old_val = digits_value(src@.subrange(a as int, i as int));
        assert(src@.subrange(a as int, i + 1).drop_last() =~= src@.subrange(a as int, i as int));
        assert(digits_value(src@.subrange(a as int, i + 1)) == old_val * 10 + d);
        if !big {
            if v <= (9223372036854775807u64 - d) / 10 {
                assert(v * 10 + d <= 9223372036854775807u64) by (nonlinear_arith)
                    requires
                        v <= (9223372036854775807u64 - d) / 10,
                        d < 10,
                ;
                v = v * 10 + d;
            } else {
                assert(v * 10 + d > 9223372036854775807u64) by (nonlinear_arith)
                    requires
                        v > (9223372036854775807u64 - d) / 10,
                        d < 10,
                ;
                big = true;
            }
        } else {
            assert(old_val * 10 + d > i64::MAX) by (nonlinear_arith)
                requires
                    old_val > i64::MAX,
            ;
        }
        i += 1;
    }
    if big {
        0
    } else {
        v as i64
    }
}

// ============================================================
// Laws
// ============================================================

/// How many of the tokens are `k`.
pub open spec fn count_tok(t: Seq<TokAt>, k: TokView) -> nat
    decreases t.len(),
{
    if t.len() == 0 {
        0
    } else {
        count_tok(t.drop_last(), k) + (if t.last().0 == k { 1nat } else { 0nat })
    }
}

proof fn lemma_count_add(a: Seq<TokAt>, b: Seq<TokAt>, k: TokView)
    ensures
        count_tok(a + b, k) == count_tok(a, k) + count_tok(b, k),
    decreases b.len(),
{
    if b.len() > 0 {
        lemma_count_add(a, b.drop_last(), k);
        assert((a + b).drop_last() =~= a + b.drop_last());
    } else {
        assert(a + b =~= a);
    }
}

proof fn lemma_count_dedents(n: nat, span: Span, k: TokView)
    ensures
        count_tok(dedents(n, span), k) == (if k == TokView::Other(Token::Dedent) { n } else { 0 }),
    decreases n,
{
    if n > 0 {
        lemma_count_dedents((n - 1) as nat, span, k);
        assert(dedents(n, span).drop_last() =~= dedents((n - 1) as nat, span));
    }
}

proof fn lemma_count_one(x: TokAt, k: TokView)
    ensures
        count_tok(seq![x], k) == (if x.0 == k { 1nat } else { 0nat }),
{
    assert(seq![x].drop_last() =~= Seq::<TokAt>::empty());
    assert(count_tok(Seq::<TokAt>::empty(), k) == 0);
}

proof fn lemma_pop_levels(s: Seq<usize>, level: nat)
    requires
        indents_ok(s),
    ensures
        indents_ok(pop_levels(s, level).0),
        pop_levels(s, level).0.len() + pop_levels(s, level).1 == s.len(),
    decreases s.len(),
{
    if s.len() > 0 && s.last() > level {
        if s.len() == 1 {
            assert(s.last() == 0);
        } else {
            assert(indents_ok(s.drop_last()));
            lemma_pop_levels(s.drop_last(), level);
        }
    }
}

/// Within a line no step emits Indent, Dedent or Eof, except at the end of the text.
proof fn lemma_main_step_layout(src: Seq<char>, st: LexSt, k: TokView)
    requires
        k == TokView::Other(Token::Indent) || k == TokView::Other(Token::Dedent) || k == TokView::Other(Token::Eof),
    ensures
        main_step(src, st) matches Step::More(st2, t) ==> count_tok(t, k) == 0 && st2.indents == st.indents,
{
    let p = st.pos;
    let span = span_at(src, p);
    if p < src.len() {
        let c = src[p as int];
        if c == '\n' {
            lemma_count_one((TokView::Other(Token::Newline), span), k);
        } else if c == ' ' || c == '\t' || c == '#' {
        } else if c == '"' || c == '\'' {
            if let StrScan::Text(s, e) = scan_string(src, p + 1, c) {
                lemma_count_one((TokView::Str(s), span), k);
            }
        } else if is_digit(c) {
            let (e, f) = scan_number(src, p + 1, false);
            lemma_count_one((number_token(src.subrange(p as int, e as int), f), span), k);
        } else if ident_start(c) {
            let e = scan_ident(src, p + 1);
            lemma_count_one((word_token(src.subrange(p as int, e as int)), span), k);
        } else {
            if let SymScan::Tok(t, e) = scan_symbol(src, p) {
                lemma_count_one((t@, span), k);
            }
        }
    }
}

/// One step keeps the indentation stack valid, and Dedents minus Indents emitted equal the
/// levels closed; at the end every open level is closed.
proof fn lemma_step_balance(src: Seq<char>, st: LexSt)
    requires
        indents_ok(st.indents),
    ensures
        step(src, st) matches Step::More(st2, t) ==> indents_ok(st2.indents) && count_tok(
            t,
            TokView::Other(Token::Dedent),
        ) + st2.indents.len() == count_tok(t, TokView::Other(Token::Indent)) + st.indents.len()
            && count_tok(t, TokView::Other(Token::Eof)) == 0,
        step(src, st) matches Step::Done(t) ==> count_tok(t, TokView::Other(Token::Dedent)) + 1 == count_tok(
            t,
            TokView::Other(Token::Indent),
        ) + st.indents.len() && t.len() > 0 && t.last().0 == TokView::Other(Token::Eof)
            && count_tok(t, TokView::Other(Token::Eof)) == 1,
{
    let ind = TokView::Other(Token::Indent);
    let ded = TokView::Other(Token::Dedent);
    let eof = TokView::Other(Token::Eof);
    assert forall|span: Span, k: TokView|
        #[trigger] count_tok(eof_tokens(st.indents, span), k) == count_tok(dedents((st.indents.len() - 1) as nat, span), k)
            + (if k == eof { 1nat } else { 0nat }) by {
        lemma_count_add(dedents((st.indents.len() - 1) as nat, span), seq![(eof, span)], k);
        lemma_count_one((eof, span), k);
        assert(eof_tokens(st.indents, span) =~= dedents((st.indents.len() - 1) as nat, span) + seq![(eof, span)]);
    }
    assert forall|n: nat, span: Span, k: TokView| #![auto]
        count_tok(dedents(n, span), k) == (if k == ded { n } else { 0 }) by {
        lemma_count_dedents(n, span, k);
    }
    lemma_main_step_layout(src, st, ind);
    lemma_main_step_layout(src, st, ded);
    lemma_main_step_layout(src, st, eof);
    if st.at_line_start {
        match line_start(src, st) {
            LineStart::Blank(p) => {},
            LineStart::End(t) => {},
            LineStart::Go(st1, pre) => {
                let (level, p1) = indent_scan(src, st.pos);
                let span = span_at(src, p1);
                lemma_main_step_layout(src, st1, ind);
                lemma_main_step_layout(src, st1, ded);
                lemma_main_step_layout(src, st1, eof);
                lemma_count_one((ind, span), ind);
                lemma_count_one((ind, span), ded);
                lemma_count_one((ind, span), eof);
                lemma_pop_levels(st.indents, level);
                assert(count_tok(Seq::<TokAt>::empty(), ind) == 0);
                assert(count_tok(Seq::<TokAt>::empty(), ded) == 0);
                assert(count_tok(Seq::<TokAt>::empty(), eof) == 0);
                if level > st.indents.last() {
                    assert(indents_ok(st.indents.push(level as usize)));
                }
                match main_step(src, st1) {
                    Step::More(st2, t) => {
                        lemma_count_add(pre, t, ind);
                        lemma_count_add(pre, t, ded);
                        lemma_count_add(pre, t, eof);
                    },
                    Step::Done(t) => {
                        lemma_count_add(pre, t, ind);
                        lemma_count_add(pre, t, ded);
                        lemma_count_add(pre, t, eof);
                        assert((pre + t).last() == t.last());
                    },
                    _ => {},
                }
            },
        }
    }
}

/// Law: a text that lexes gives a token list that ends with Eof and holds no other Eof.
pub proof fn lex_ends_with_single_eof(src: Seq<char>)
    ensures
        lex(src) matches Ok(t) ==> t.len() > 0 && t.last().0 == TokView::Other(Token::Eof)
            && forall|i: int| 0 <= i < t.len() - 1 ==> t[i].0 != TokView::Other(Token::Eof),
{
    lemma_run_layout(src, init_state());
    if let Ok(t) = lex(src) {
        assert forall|i: int| 0 <= i < t.len() - 1 implies t[i].0 != TokView::Other(Token::Eof) by {
            if t[i].0 == TokView::Other(Token::Eof) {
                assert(t.drop_last()[i] == t[i]);
                lemma_count_positive(t.drop_last(), i, TokView::Other(Token::Eof));
                lemma_count_add(t.drop_last(), seq![t.last()], TokView::Other(Token::Eof));
                lemma_count_one(t.last(), TokView::Other(Token::Eof));
                assert(t.drop_last() + seq![t.last()] =~= t);
            }
        }
    }
}

/// Law: in a text that lexes, every Indent is closed by a Dedent: there are as many of each.
pub proof fn lex_balances_indentation(src: Seq<char>)
    ensures
        lex(src) matches Ok(t) ==> count_tok(t, TokView::Other(Token::Indent)) == count_tok(
            t,
            TokView::Other(Token::Dedent),
        ),
{
    lemma_run_layout(src, init_state());
}

proof fn lemma_count_positive(t: Seq<TokAt>, i: int, k: TokView)
    requires
        0 <= i < t.len(),
        t[i].0 == k,
    ensures
        count_tok(t, k) > 0,
    decreases t.len(),
{
    if i < t.len() - 1 {
        lemma_count_positive(t.drop_last(), i, k);
    }
}

proof fn lemma_run_layout(src: Seq<char>, st: LexSt)
    requires
        indents_ok(st.indents),
    ensures
        lex_run(src, st) matches Ok(t) ==> count_tok(t, TokView::Other(Token::Dedent)) + 1 == count_tok(
            t,
            TokView::Other(Token::Indent),
        ) + st.indents.len() && t.len() > 0 && t.last().0 == TokView::Other(Token::Eof)
            && count_tok(t, TokView::Other(Token::Eof)) == 1,
    decreases src.len() - st.pos,
{
    lemma_step_balance(src, st);
    match step(src, st) {
        Step::More(st2, toks) => {
            if st.pos < st2.pos <= src.len() {
                lemma_run_layout(src, st2);
                if let Ok(rest) = lex_run(src, st2) {
                    lemma_count_add(toks, rest, TokView::Other(Token::Indent));
                    lemma_count_add(toks, rest, TokView::Other(Token::Dedent));
                    lemma_count_add(toks, rest, TokView::Other(Token::Eof));
                    assert((toks + rest).last() == rest.last());
                }
            }
        },
        _ => {},
    }
}

/// Every prefix of `t` has at most `d` more Dedents than Indents.
pub open spec fn nested_within(t: Seq<TokAt>, d: int) -> bool {
    forall|k: int|
        0 <= k <= t.len() ==> #[trigger] count_tok(t.take(k), TokView::Other(Token::Dedent)) <= count_tok(
            t.take(k),
            TokView::Other(Token::Indent),
        ) + d
}

proof fn lemma_count_prefix(t: Seq<TokAt>, k: int, x: TokView)
    requires
        0 <= k <= t.len(),
    ensures
        count_tok(t.take(k), x) <= count_tok(t, x),
{
    lemma_count_add(t.take(k), t.skip(k), x);
    assert(t.take(k) + t.skip(k) =~= t);
}

proof fn lemma_nest_concat(a: Seq<TokAt>, b: Seq<TokAt>, d: int)
    requires
        nested_within(a, d),
        nested_within(
            b,
            d + count_tok(a, TokView::Other(Token::Indent)) - count_tok(a, TokView::Other(Token::Dedent)),
        ),
    ensures
        nested_within(a + b, d),
{
    let ind = TokView::Other(Token::Indent);
    let ded = TokView::Other(Token::Dedent);
    assert forall|k: int| 0 <= k <= (a + b).len() implies #[trigger] count_tok((a + b).take(k), ded) <= count_tok(
        (a + b).take(k),
        ind,
    ) + d by {
        if k <= a.len() {
            assert((a + b).take(k) =~= a.take(k));
        } else {
            let j = k - a.len();
            assert((a + b).take(k) =~= a + b.take(j));
            lemma_count_add(a, b.take(j), ind);
            lemma_count_add(a, b.take(j), ded);
            assert(count_tok(b.take(j), ded) <= count_tok(b.take(j), ind) + d + count_tok(a, ind) - count_tok(a, ded));
        }
    }
}

proof fn lemma_nest_dedents(n: nat, span: Span, d: int)
    requires
        n <= d,
    ensures
        nested_within(dedents(n, span), d),
{
    assert forall|k: int| 0 <= k <= dedents(n, span).len() implies #[trigger] count_tok(
        dedents(n, span).take(k),
        TokView::Other(Token::Dedent),
    ) <= count_tok(dedents(n, span).take(k), TokView::Other(Token::Indent)) + d by {
        assert(dedents(n, span).take(k) =~= dedents(k as nat, span));
        lemma_count_dedents(k as nat, span, TokView::Other(Token::Dedent));
        lemma_count_dedents(k as nat, span, TokView::Other(Token::Indent));
    }
}

proof fn lemma_nest_plain(t: Seq<TokAt>, d: int)
    requires
        d >= 0,
        count_tok(t, TokView::Other(Token::Dedent)) == 0,
    ensures
        nested_within(t, d),
{
    assert forall|k: int| 0 <= k <= t.len() implies #[trigger] count_tok(t.take(k), TokView::Other(Token::Dedent))
        <= count_tok(t.take(k), TokView::Other(Token::Indent)) + d by {
        lemma_count_prefix(t, k, TokView::Other(Token::Dedent));
    }
}

proof fn lemma_nest_eof(indents: Seq<usize>, span: Span, d: int)
    requires
        indents.len() >= 1,
        indents.len() - 1 <= d,
    ensures
        nested_within(eof_tokens(indents, span), d),
{
    let n = (indents.len() - 1) as nat;
    let e = seq![(TokView::Other(Token::Eof), span)];
    lemma_nest_dedents(n, span, d);
    lemma_count_dedents(n, span, TokView::Other(Token::Indent));
    lemma_count_dedents(n, span, TokView::Other(Token::Dedent));
    lemma_count_one((TokView::Other(Token::Eof), span), TokView::Other(Token::Dedent));
    lemma_nest_plain(e, d - n);
    lemma_nest_concat(dedents(n, span), e, d);
    assert(dedents(n, span) + e =~= eof_tokens(indents, span));
}

proof fn lemma_main_step_nest(src: Seq<char>, st: LexSt, d: int)
    requires
        indents_ok(st.indents),
        st.indents.len() - 1 <= d,
    ensures
        main_step(src, st) matches Step::More(_, t) ==> nested_within(t, d),
        main_step(src, st) matches Step::Done(t) ==> nested_within(t, d),
{
    lemma_main_step_layout(src, st, TokView::Other(Token::Dedent));
    match main_step(src, st) {
        Step::More(_, t) => lemma_nest_plain(t, d),
        Step::Done(_) => lemma_nest_eof(st.indents, span_at(src, st.pos), d),
        _ => {},
    }
}

proof fn lemma_step_nest(src: Seq<char>, st: LexSt)
    requires
        indents_ok(st.indents),
    ensures
        step(src, st) matches Step::More(_, t) ==> nested_within(t, st.indents.len() - 1),
        step(src, st) matches Step::Done(t) ==> nested_within(t, st.indents.len() - 1),
{
    let d = st.indents.len() - 1;
    let ind = TokView::Other(Token::Indent);
    let ded = TokView::Other(Token::Dedent);
    assert(count_tok(Seq::<TokAt>::empty(), ded) == 0);
    lemma_nest_plain(Seq::<TokAt>::empty(), d);
    if !st.at_line_start {
        lemma_main_step_nest(src, st, d);
    } else {
        match line_start(src, st) {
            LineStart::Blank(_) => {},
            LineStart::End(_) => lemma_nest_eof(st.indents, span_at(src, indent_scan(src, st.pos).1), d),
            LineStart::Go(st1, pre) => {
                let (level, p1) = indent_scan(src, st.pos);
                let span = span_at(src, p1);
                let d1 = d + count_tok(pre, ind) - count_tok(pre, ded);
                if level > st.indents.last() {
                    lemma_count_one((ind, span), ind);
                    lemma_count_one((ind, span), ded);
                    lemma_nest_plain(pre, d);
                    assert(indents_ok(st.indents.push(level as usize)));
                    lemma_main_step_nest(src, st1, d1);
                } else if level < st.indents.last() {
                    lemma_pop_levels(st.indents, level);
                    let k = pop_levels(st.indents, level).1;
                    lemma_nest_dedents(k, span, d);
                    lemma_count_dedents(k, span, ind);
                    lemma_count_dedents(k, span, ded);
                    lemma_main_step_nest(src, st1, d1);
                } else {
                    assert(count_tok(Seq::<TokAt>::empty(), ind) == 0);
                    lemma_main_step_nest(src, st1, d1);
                }
                match main_step(src, st1) {
                    Step::More(_, t) => lemma_nest_concat(pre, t, d),
                    Step::Done(t) => lemma_nest_concat(pre, t, d),
                    _ => {},
                }
            },
        }
    }
}

proof fn lemma_run_nest(src: Seq<char>, st: LexSt)
    requires
        indents_ok(st.indents),
    ensures
        lex_run(src, st) matches Ok(t) ==> nested_within(t, st.indents.len() - 1),
    decreases src.len() - st.pos,
{
    lemma_step_balance(src, st);
    lemma_step_nest(src, st);
    match step(src, st) {
        Step::More(st2, toks) => {
            if st.pos < st2.pos <= src.len() {
                lemma_run_nest(src, st2);
                if let Ok(rest) = lex_run(src, st2) {
                    lemma_nest_concat(toks, rest, st.indents.len() - 1);
                }
            }
        },
        _ => {},
    }
}

/// Law: in a text that lexes, no Dedent closes a level that was not opened: every prefix of
/// the tokens holds at most as many Dedents as Indents.
pub proof fn lex_dedents_never_outrun_indents(src: Seq<char>)
    ensures
        lex(src) matches Ok(t) ==> forall|k: int|
            0 <= k <= t.len() ==> #[trigger] count_tok(t.take(k), TokView::Other(Token::Dedent)) <= count_tok(
                t.take(k),
                TokView::Other(Token::Indent),
            ),
{
    lemma_run_nest(src, init_state());
}

// ============================================================
// The lexer
// ============================================================

/// Turns source text into tokens.
pub struct Lexer {
    source: Vec<char>,
    pos: usize,
    line: usize,
    col: usize,
    indents: Vec<usize>,
    at_line_start: bool,
}

impl Lexer {
    /// The source text.
    pub closed spec fn text(&self) -> Seq<char> {
        self.source@
    }

    /// The current state.
    pub closed spec fn state(&self) -> LexSt {
        LexSt { pos: self.pos as nat, indents: self.indents@, at_line_start: self.at_line_start }
    }

    /// The lexer's invariant: the position is within the text, line and column belong to
    /// the position, and the indentation stack starts at level 0.
    pub closed spec fn wf(&self) -> bool {
        &&& self.source@.len() <= max_source_len()
        &&& self.pos <= self.source@.len()
        &&& line_col(self.source@, self.pos as nat) == (self.line as nat, self.col as nat)
        &&& indents_ok(self.indents@)
    }

    /// A lexer at the start of `source`.
    pub fn new(source: &str) -> (r: Self)
        requires
            source@.len() <= max_source_len(),
        ensures
            r.wf(),
            r.text() == source@,
            r.state() == init_state(),
    {
        let mut indents: Vec<usize> = Vec::new();
        indents.push(0);
        let r = Self { source: str_chars(source), pos: 0, line: 1, col: 0, indents, at_line_start: true };
        assert(r.indents@ =~= seq![0usize]);
        r
    }

    fn peek(&self) -> (r: Option<char>)
        ensures
            r == (if self.pos < self.source@.len() { Some(self.source@[self.pos as int]) } else { None::<char> }),
    {
        if self.pos < self.source.len() {
            Some(self.source[self.pos])
        } else {
            None
        }
    }

    fn peek_next(&self) -> (r: Option<char>)
        requires
            self.wf(),
        ensures
            r == (if self.pos + 1 < self.source@.len() { Some(self.source@[self.pos + 1]) } else { None::<char> }),
    {
        if self.pos + 1 < self.source.len() {
            Some(self.source[self.pos + 1])
        } else {
            None
        }
    }

    fn advance(&mut self) -> (r: Option<char>)
        requires
            old(self).wf(),
        ensures
            final(self).wf(),
            final(self).source == old(self).source,
            final(self).indents == old(self).indents,
            final(self).at_line_start == old(self).at_line_start,
            old(self).pos < old(self).source@.len() ==> final(self).pos == old(self).pos + 1
                && r == Some(old(self).source@[old(self).pos as int]),
            old(self).pos >= old(self).source@.len() ==> final(self).pos == old(self).pos && r == None::<char>,
    {
        if self.pos < self.source.len() {
            let ch = self.source[self.pos];
            proof {
                lemma_line_col_bounds(self.source@, self.pos as nat);
            }
            self.pos += 1;
            if ch == '\n' {
                self.line += 1;
                self.col = 0;
            } else {
                self.col += 1;
            }
            Some(ch)
        } else {
            None
        }
    }

    fn span(&self) -> (r: Span)
        requires
            self.wf(),
        ensures
            r == span_at(self.source@, self.pos as nat),
    {
        Span { line: self.line, col: self.col }
    }

    fn err(&self, message: String) -> (e: LexError)
        requires
            self.wf(),
        ensures
            e.message == message,
            (e.line as nat, e.col as nat) == line_col(self.source@, self.pos as nat),
    {
        LexError { message, line: self.line, col: self.col }
    }

    /// Consumes the blanks at the start of a line and gives their width.
    fn measure_indent(&mut self) -> (level: usize)
        requires
            old(self).wf(),
        ensures
            final(self).wf(),
            final(self).source == old(self).source,
            final(self).indents == old(self).indents,
            final(self).at_line_start == old(self).at_line_start,
            (level as nat, final(self).pos as nat) == indent_scan(old(self).source@, old(self).pos as nat),
    {
        let ghost start = self.pos as nat;
        let ghost src = self.source@;
        let mut level: usize = 0;
        proof {
            lemma_indent_scan_bounds(src, start);
        }
        while self.pos < self.source.len() && (self.source[self.pos] == ' ' || self.source[self.pos] == '\t')
            invariant
                self.wf(),
                self.source@ == src,
                self.source == old(self).source,
                self.indents == old(self).indents,
                self.at_line_start == old(self).at_line_start,
                start <= self.pos,
                level <= 4 * (self.pos - start),
                indent_scan(src, start) == ((level + indent_scan(src, self.pos as nat).0) as nat, indent_scan(src, self.pos as nat).1),
            decreases src.len() - self.pos,
        {
            if self.source[self.pos] == ' ' {
                level += 1;
            } else {
                level += 4;
            }
            self.advance();
        }
        level
    }

    /// Consumes the rest of the line, up to (not including) the newline.
    fn skip_comment(&mut self)
        requires
            old(self).wf(),
        ensures
            final(self).wf(),
            final(self).source == old(self).source,
            final(self).indents == old(self).indents,
            final(self).at_line_start == old(self).at_line_start,
            final(self).pos == line_end(old(self).source@, old(self).pos as nat),
    {
        let ghost src = self.source@;
        let ghost start = self.pos as nat;
        while self.pos < self.source.len() && self.source[self.pos] != '\n'
            invariant
                self.wf(),
                self.source@ == src,
                self.source == old(self).source,
                self.indents == old(self).indents,
                self.at_line_start == old(self).at_line_start,
                line_end(src, start) == line_end(src, self.pos as nat),
            decreases src.len() - self.pos,
        {
            self.advance();
        }
    }

    /// Reads a string literal body; the opening quote has been consumed.
    fn read_string(&mut self, quote: char) -> (r: Result<Token, LexError>)
        requires
            old(self).wf(),
        ensures
            final(self).wf(),
            final(self).source == old(self).source,
            final(self).indents == old(self).indents,
            final(self).at_line_start == old(self).at_line_start,
            match scan_string(old(self).source@, old(self).pos as nat, quote) {
                StrScan::Text(text, e) => r matches Ok(t) && t@ == TokView::Str(text) && final(self).pos == e,
                StrScan::Unterminated => r matches Err(er) && er.message@ == "unterminated string literal"@
                    && (er.line as nat, er.col as nat) == line_col(old(self).source@, old(self).source@.len()),
                StrScan::BadEscape => r matches Err(er) && er.message@ == "unterminated escape sequence"@
                    && (er.line as nat, er.col as nat) == line_col(old(self).source@, old(self).source@.len()),
            },
    {
        let ghost src = self.source@;
        let ghost start = self.pos as nat;
        let mut s = String::new();
        loop
            invariant
                self.wf(),
                self.source == old(self).source,
                self.source@ == src,
                self.indents == old(self).indents,
                self.at_line_start == old(self).at_line_start,
                start == old(self).pos,
                scan_string(src, start, quote) == match scan_string(src, self.pos as nat, quote) {
                    StrScan::Text(t, e) => StrScan::Text(s@ + t, e),
                    other => other,
                },
            decreases src.len() - self.pos,
        {
            let ghost p = self.pos as nat;
            match self.advance() {
                None => {
                    return Err(self.err(String::from_str("unterminated string literal")));
                },
                Some(c) => {
                    if c == quote {
                        assert(s@ + Seq::<char>::empty() =~= s@);
                        return Ok(Token::Str(s));
                    } else if c == '\\' {
                        match self.advance() {
                            None => {
                                return Err(self.err(String::from_str("unterminated escape sequence")));
                            },
                            Some(esc) => {
                                let ghost before = s@;
                                if esc == 'n' {
                                    push_char(&mut s, '\n');
                                } else if esc == 't' {
                                    push_char(&mut s, '\t');
                                } else if esc == 'r' {
                                    push_char(&mut s, '\r');
                                } else if esc == '\\' {
                                    push_char(&mut s, '\\');
                                } else if esc == '"' {
                                    push_char(&mut s, '"');
                                } else if esc == '\'' {
                                    push_char(&mut s, '\'');
                                } else if esc == '0' {
                                    push_char(&mut s, '\0');
                                } else {
                                    push_char(&mut s, '\\');
                                    push_char(&mut s, esc);
                                }
                                assert(s@ =~= before + escape_text(esc));
                                assert forall|t: Seq<char>| #![auto] s@ + t =~= before + (escape_text(esc) + t) by {}
                            },
                        }
                    } else {
                        let ghost before = s@;
                        push_char(&mut s, c);
                        assert forall|t: Seq<char>| #![auto] s@ + t =~= before + (seq![c] + t) by {}
                    }
                },
            }
        }
    }

    /// Reads the rest of a number literal; its first digit has been consumed.
    fn read_number(&mut self) -> (t: Token)
        requires
            old(self).wf(),
            old(self).pos >= 1,
            is_digit(old(self).source@[old(self).pos - 1]),
        ensures
            final(self).wf(),
            final(self).source == old(self).source,
            final(self).indents == old(self).indents,
            final(self).at_line_start == old(self).at_line_start,
            final(self).pos == scan_number(old(self).source@, old(self).pos as nat, false).0,
            t@ == number_token(
                old(self).source@.subrange(old(self).pos - 1, final(self).pos as int),
                scan_number(old(self).source@, old(self).pos as nat, false).1,
            ),
    {
        let ghost src = self.source@;
        let start = self.pos - 1;
        let mut is_float = false;
        let mut done = false;
        proof {
            lemma_scan_number_bounds(src, self.pos as nat, false);
        }
        while !done
            invariant
                self.wf(),
                self.source == old(self).source,
                self.source@ == src,
                self.indents == old(self).indents,
                self.at_line_start == old(self).at_line_start,
                start + 1 <= self.pos,
                start + 1 == old(self).pos,
                !is_float ==> forall|k: int| start <= k < self.pos ==> is_digit(#[trigger] src[k]),
                scan_number(src, (start + 1) as nat, false) == scan_number(src, self.pos as nat, is_float),
                done ==> scan_number(src, self.pos as nat, is_float) == (self.pos as nat, is_float),
            decreases src.len() - self.pos, (if done { 0int } else { 1int }),
        {
            match self.peek() {
                Some(c) => {
                    if '0' <= c && c <= '9' {
                        self.advance();
                    } else if c == '.' && !is_float {
                        match self.peek_next() {
                            Some(n) => {
                                if '0' <= n && n <= '9' {
                                    is_float = true;
                                    self.advance();
                                } else {
                                    done = true;
                                }
                            },
                            None => {
                                done = true;
                            },
                        }
                    } else {
                        done = true;
                    }
                },
                None => {
                    done = true;
                },
            }
        }
        if is_float {
            Token::Float(chars_to_string(&self.source, start, self.pos))
        } else {
            Token::Int(digits_to_i64(&self.source, start, self.pos))
        }
    }

    /// Reads the rest of an identifier or keyword; its first character has been consumed.
    fn read_ident(&mut self) -> (t: Token)
        requires
            old(self).wf(),
            old(self).pos >= 1,
        ensures
            final(self).wf(),
            final(self).source == old(self).source,
            final(self).indents == old(self).indents,
            final(self).at_line_start == old(self).at_line_start,
            final(self).pos == scan_ident(old(self).source@, old(self).pos as nat),
            t@ == word_token(old(self).source@.subrange(old(self).pos - 1, final(self).pos as int)),
    {
        let ghost src = self.source@;
        let start = self.pos - 1;
        proof {
            lemma_scan_ident_bounds(src, self.pos as nat);
        }
        while self.pos < self.source.len() && (is_alphanumeric(self.source[self.pos]) || self.source[self.pos] == '_')
            invariant
                self.wf(),
                self.source == old(self).source,
                self.source@ == src,
                self.indents == old(self).indents,
                self.at_line_start == old(self).at_line_start,
                start + 1 <= self.pos,
                start + 1 == old(self).pos,
                scan_ident(src, (start + 1) as nat) == scan_ident(src, self.pos as nat),
            decreases src.len() - self.pos,
        {
            self.advance();
        }
        word_token_of(&self.source, start, self.pos)
    }

    /// Reads an operator or punctuation; its first character `c` has been consumed.
    fn read_symbol(&mut self, c: char) -> (r: Result<Option<Token>, LexError>)
        requires
            old(self).wf(),
            old(self).pos >= 1,
            old(self).source@[old(self).pos - 1] == c,
        ensures
            final(self).wf(),
            final(self).source == old(self).source,
            final(self).indents == old(self).indents,
            final(self).at_line_start == old(self).at_line_start,
            match scan_symbol(old(self).source@, (old(self).pos - 1) as nat) {
                SymScan::Tok(t, e) => r == Ok::<Option<Token>, LexError>(Some(t)) && final(self).pos == e,
                SymScan::Skip(e) => r == Ok::<Option<Token>, LexError>(None) && final(self).pos == e,
                SymScan::Fail(m) => r matches Err(er) && er.message@ == m
                    && (er.line as nat, er.col as nat) == line_col(old(self).source@, old(self).pos as nat),
            },
    {
        let nx = self.peek();
        let tok = if c == '+' {
            Token::Plus
        } else if c == '-' {
            if nx == Some('>') { self.advance(); Token::Arrow } else { Token::Minus }
        } else if c == '*' {
            Token::Star
        } else if c == '/' {
            Token::Slash
        } else if c == '%' {
            Token::Percent
        } else if c == '=' {
            if nx == Some('=') {
                self.advance();
                Token::EqEq
            } else if nx == Some('>') {
                self.advance();
                Token::FatArrow
            } else {
                Token::Eq
            }
        } else if c == '!' {
            if nx == Some('=') { self.advance(); Token::NotEq } else { Token::Not }
        } else if c == '<' {
            if nx == Some('=') { self.advance(); Token::LtEq } else { Token::Lt }
        } else if c == '>' {
            if nx == Some('=') { self.advance(); Token::GtEq } else { Token::Gt }
        } else if c == '&' {
            if nx == Some('&') {
                self.advance();
                Token::And
            } else {
                return Err(self.err(String::from_str("single '&' is not supported, use '&&'")));
            }
        } else if c == '|' {
            if nx == Some('|') { self.advance(); Token::Or } else { Token::Pipe }
        } else if c == '?' {
            Token::Question
        } else if c == ':' {
            Token::Colon
        } else if c == '.' {
            if nx == Some('.') {
                self.advance();
                if self.peek() == Some('=') {
                    self.advance();
                    Token::DotDotEq
                } else {
                    Token::DotDot
                }
            } else {
                Token::Dot
            }
        } else if c == ',' {
            Token::Comma
        } else if c == ';' {
            Token::Semicolon
        } else if c == '(' {
            Token::LParen
        } else if c == ')' {
            Token::RParen
        } else if c == '{' {
            Token::LBrace
        } else if c == '}' {
            Token::RBrace
        } else if c == '[' {
            Token::LBracket
        } else if c == ']' {
            Token::RBracket
        } else if c == '\r' {
            return Ok(None);
        } else {
            let mut m = String::from_str("unexpected character: '");
            push_char(&mut m, c);
            crate::text::push_str(&mut m, "'");
            return Err(self.err(m));
        };
        Ok(Some(tok))
    }

    /// Emits a Dedent for each open level above the outermost, then Eof.
    fn finish(&mut self, tokens: &mut Vec<Spanned>)
        requires
            old(self).wf(),
            old(self).pos == old(self).source@.len(),
        ensures
            final(self).wf(),
            final(self).source == old(self).source,
            final(self).pos == old(self).pos,
            views(final(tokens)@) == views(old(tokens)@) + eof_tokens(
                old(self).indents@,
                span_at(old(self).source@, old(self).pos as nat),
            ),
    {
        let span = self.span();
        let ghost n0 = self.indents@.len();
        let ghost t0 = views(tokens@);
        while self.indents.len() > 1
            invariant
                self.wf(),
                self.source == old(self).source,
                self.pos == old(self).pos,
                span == span_at(self.source@, self.pos as nat),
                1 <= self.indents@.len() <= n0,
                views(tokens@) == t0 + dedents((n0 - self.indents@.len()) as nat, span),
            decreases self.indents@.len(),
        {
            let ghost k = (n0 - self.indents@.len()) as nat;
            self.indents.pop();
            proof {
                lemma_views_push(tokens@, Spanned { token: Token::Dedent, span });
                lemma_dedents_push(k, span);
            }
            tokens.push(Spanned { token: Token::Dedent, span });
        }
        proof {
            lemma_views_push(tokens@, Spanned { token: Token::Eof, span });
        }
        tokens.push(Spanned { token: Token::Eof, span });
        assert(views(tokens@) =~= t0 + eof_tokens(old(self).indents@, span));
    }

    /// Reads one item within a line.
    fn main_item(&mut self, tokens: &mut Vec<Spanned>) -> (r: Result<bool, LexError>)
        requires
            old(self).wf(),
            !old(self).at_line_start,
        ensures
            final(self).wf(),
            final(self).source == old(self).source,
            match main_step(old(self).source@, old(self).state()) {
                Step::More(st, t) => r == Ok::<bool, LexError>(false) && final(self).state() == st
                    && views(final(tokens)@) == views(old(tokens)@) + t,
                Step::Done(t) => r == Ok::<bool, LexError>(true) && views(final(tokens)@) == views(old(tokens)@) + t
                    && final(self).pos == old(self).source@.len(),
                Step::Fail(m, p) => r matches Err(e) && e.message@ == m
                    && (e.line as nat, e.col as nat) == line_col(old(self).source@, p),
            },
    {
        let ghost src = self.source@;
        let span = self.span();
        match self.peek() {
            None => {
                self.finish(tokens);
                Ok(true)
            },
            Some(c) => {
                if c == '\n' {
                    self.advance();
                    proof {
                        lemma_views_push(tokens@, Spanned { token: Token::Newline, span });
                    }
                    tokens.push(Spanned { token: Token::Newline, span });
                    self.at_line_start = true;
                    Ok(false)
                } else if c == ' ' || c == '\t' {
                    self.advance();
                    assert(views(tokens@) + Seq::<TokAt>::empty() =~= views(tokens@));
                    Ok(false)
                } else if c == '#' {
                    self.skip_comment();
                    assert(views(tokens@) + Seq::<TokAt>::empty() =~= views(tokens@));
                    Ok(false)
                } else if c == '"' || c == '\'' {
                    self.advance();
                    match self.read_string(c) {
                        Ok(tok) => {
                            proof {
                                lemma_views_push(tokens@, Spanned { token: tok, span });
                            }
                            tokens.push(Spanned { token: tok, span });
                            Ok(false)
                        },
                        Err(e) => Err(e),
                    }
                } else if '0' <= c && c <= '9' {
                    self.advance();
                    let tok = self.read_number();
                    proof {
                        lemma_views_push(tokens@, Spanned { token: tok, span });
                    }
                    tokens.push(Spanned { token: tok, span });
                    Ok(false)
                } else if is_alphabetic(c) || c == '_' {
                    self.advance();
                    let tok = self.read_ident();
                    proof {
                        lemma_views_push(tokens@, Spanned { token: tok, span });
                    }
                    tokens.push(Spanned { token: tok, span });
                    Ok(false)
                } else {
                    self.advance();
                    match self.read_symbol(c) {
                        Ok(Some(tok)) => {
                            proof {
                                lemma_views_push(tokens@, Spanned { token: tok, span });
                            }
                            tokens.push(Spanned { token: tok, span });
                            Ok(false)
                        },
                        Ok(None) => {
                            assert(views(tokens@) + Seq::<TokAt>::empty() =~= views(tokens@));
                            Ok(false)
                        },
                        Err(e) => Err(e),
                    }
                }
            },
        }
    }

    /// Handles the start of a line: 0 for a skipped blank or comment line, 1 at the end of the
    /// text, 2 when indentation was handled and the line goes on.
    fn line_begin(&mut self, tokens: &mut Vec<Spanned>) -> (r: u8)
        requires
            old(self).wf(),
            old(self).at_line_start,
        ensures
            final(self).wf(),
            final(self).source == old(self).source,
            match line_start(old(self).source@, old(self).state()) {
                LineStart::Blank(p) => r == 0 && final(self).state() == (LexSt {
                    pos: p,
                    indents: old(self).indents@,
                    at_line_start: true,
                }) && views(final(tokens)@) == views(old(tokens)@),
                LineStart::End(t) => r == 1 && views(final(tokens)@) == views(old(tokens)@) + t
                    && final(self).pos == old(self).source@.len(),
                LineStart::Go(st, t) => r == 2 && final(self).state() == st
                    && views(final(tokens)@) == views(old(tokens)@) + t,
            },
    {
        let ghost src = self.source@;
        self.at_line_start = false;
        let save_pos = self.pos;
        let save_line = self.line;
        let save_col = self.col;
        proof {
            lemma_indent_scan_bounds(src, save_pos as nat);
        }
        let level = self.measure_indent();
        let nx = self.peek();
        if nx == Some('\n') || nx == Some('#') {
            self.pos = save_pos;
            self.line = save_line;
            self.col = save_col;
            self.advance();
            if self.source[save_pos] == '#' {
                self.skip_comment();
            }
            self.at_line_start = true;
            return 0;
        }
        if nx.is_none() {
            self.finish(tokens);
            return 1;
        }
        let span = self.span();
        let cur = self.indents[self.indents.len() - 1];
        if level > cur {
            self.indents.push(level);
            proof {
                lemma_views_push(tokens@, Spanned { token: Token::Indent, span });
            }
            tokens.push(Spanned { token: Token::Indent, span });
            assert(views(tokens@) =~= views(old(tokens)@) + seq![(TokView::Other(Token::Indent), span)]);
        } else if level < cur {
            let ghost orig = self.indents@;
            let ghost t0 = views(tokens@);
            let ghost mut k: nat = 0;
            let ghost p1 = self.pos;
            assert(t0 + dedents(0, span) =~= t0);
            while self.indents[self.indents.len() - 1] > level
                invariant
                    self.wf(),
                    self.source == old(self).source,
                    self.source@ == src,
                    self.pos == p1,
                    !self.at_line_start,
                    span == span_at(src, self.pos as nat),
                    pop_levels(orig, level as nat) == (pop_levels(self.indents@, level as nat).0,
                        pop_levels(self.indents@, level as nat).1 + k),
                    views(tokens@) == t0 + dedents(k, span),
                    level >= 0,
                decreases self.indents@.len(),
            {
                proof {
                    assert(self.indents@.len() > 1) by {
                        if self.indents@.len() == 1 {
                            assert(self.indents@.last() == 0);
                        }
                    }
                    assert(self.indents@.drop_last() =~= self.indents@.subrange(0, self.indents@.len() - 1));
                }
                self.indents.pop();
                proof {
                    lemma_views_push(tokens@, Spanned { token: Token::Dedent, span });
                    lemma_dedents_push(k, span);
                    k = k + 1;
                }
                tokens.push(Spanned { token: Token::Dedent, span });
            }
            assert(pop_levels(self.indents@, level as nat) == (self.indents@, 0nat));
        } else {
            assert(views(tokens@) =~= views(old(tokens)@) + Seq::<TokAt>::empty());
        }
        2
    }

    /// One step of the lexer; `Ok(true)` once the text is done.
    fn step(&mut self, tokens: &mut Vec<Spanned>) -> (r: Result<bool, LexError>)
        requires
            old(self).wf(),
        ensures
            final(self).wf(),
            final(self).source == old(self).source,
            match step(old(self).source@, old(self).state()) {
                Step::More(st, t) => r == Ok::<bool, LexError>(false) && final(self).state() == st
                    && views(final(tokens)@) == views(old(tokens)@) + t,
                Step::Done(t) => r == Ok::<bool, LexError>(true) && views(final(tokens)@) == views(old(tokens)@) + t
                    && final(self).pos == old(self).source@.len(),
                Step::Fail(m, p) => r matches Err(e) && e.message@ == m
                    && (e.line as nat, e.col as nat) == line_col(old(self).source@, p),
            },
    {
        if self.at_line_start {
            let ghost t0 = views(tokens@);
            let k = self.line_begin(tokens);
            if k == 0 {
                assert(views(tokens@) =~= t0 + Seq::<TokAt>::empty());
                return Ok(false);
            } else if k == 1 {
                return Ok(true);
            }
            let ghost t1 = views(tokens@);
            let r = self.main_item(tokens);
            proof {
                assert forall|a: Seq<TokAt>, b: Seq<TokAt>, c: Seq<TokAt>| #![auto] (a + b) + c =~= a + (b + c) by {}
            }
            r
        } else {
            self.main_item(tokens)
        }
    }

    /// Reads the whole text into tokens.
    pub fn tokenize(&mut self) -> (r: Result<Vec<Spanned>, LexError>)
        requires
            old(self).wf(),
        ensures
            final(self).wf(),
            final(self).text() == old(self).text(),
            match lex_run(old(self).text(), old(self).state()) {
                Ok(t) => r matches Ok(v) && views(v@) == t && final(self).state().pos == old(self).text().len(),
                Err((m, p)) => r matches Err(e) && e.message@ == m
                    && (e.line as nat, e.col as nat) == line_col(old(self).text(), p),
            },
    {
        let ghost src = self.source@;
        let ghost st0 = self.state();
        let mut tokens: Vec<Spanned> = Vec::new();
        assert(views(tokens@) =~= Seq::<TokAt>::empty());
        loop
            invariant
                self.wf(),
                self.source == old(self).source,
                self.source@ == src,
                st0 == old(self).state(),
                lex_run(src, st0) == match lex_run(src, self.state()) {
                    Ok(t) => Ok(views(tokens@) + t),
                    Err(e) => Err(e),
                },
            decreases src.len() - self.pos,
        {
            let ghost st = self.state();
            let ghost t0 = views(tokens@);
            proof {
                lemma_step_progress(src, st);
                assert forall|a: Seq<TokAt>, b: Seq<TokAt>, c: Seq<TokAt>| #![auto] (a + b) + c =~= a + (b + c) by {}
            }
            match self.step(&mut tokens) {
                Ok(done) => {
                    if done {
                        return Ok(tokens);
                    }
                },
                Err(e) => {
                    return Err(e);
                },
            }
        }
    }
}

/// In a string literal a backslash escape stands for its character: `\n` a newline, `\t` a
/// tab, `\r` a carriage return, `\\` a backslash, `\"` and `\'` the quotes, `\0` the null
/// character; any other escape is kept as written, backslash and all.
pub proof fn law_string_escapes(src: Seq<char>, pos: nat, quote: char)
    ensures
        pos + 1 < src.len() && src[pos as int] == '\\' && src[pos as int] != quote ==> (scan_string(
            src,
            pos + 2,
            quote,
        ) matches StrScan::Text(s, e) ==> {
            let c = src[pos as int + 1];
            let got = scan_string(src, pos, quote);
            &&& c == 'n' ==> got == StrScan::Text(seq!['\n'] + s, e)
            &&& c == 't' ==> got == StrScan::Text(seq!['\t'] + s, e)
            &&& c == 'r' ==> got == StrScan::Text(seq!['\r'] + s, e)
            &&& c == '\\' ==> got == StrScan::Text(seq!['\\'] + s, e)
            &&& c == '"' ==> got == StrScan::Text(seq!['"'] + s, e)
            &&& c == '\'' ==> got == StrScan::Text(seq!['\''] + s, e)
            &&& c == '0' ==> got == StrScan::Text(seq!['\0'] + s, e)
            &&& !(c == 'n' || c == 't' || c == 'r' || c == '\\' || c == '"' || c == '\'' || c == '0') ==> got
                == StrScan::Text(seq!['\\', c] + s, e)
        }),
{
}

} // verus!
