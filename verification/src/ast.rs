//! The syntax tree of sekirei programs.
use vstd::prelude::*;

verus! {

/// An expression.
#[derive(Debug)]
pub enum Expr {
    // literals
    Int(i64),
    /// A decimal literal, kept as its source text.
    Float(String),
    Str(String),
    Bool(bool),
    Null,
    /// `None`
    NoneVal,
    // identifier
    Ident(String),
    // a block used as an expression (an indented body of `if` or `match`)
    Block(Vec<Stmt>),
    BinOp { op: BinOp, lhs: Box<Expr>, rhs: Box<Expr> },
    UnOp { op: UnOp, expr: Box<Expr> },
    Call { func: Box<Expr>, args: Vec<Expr> },
    /// `(x: int, y: int) -> int => body`
    Lambda { params: Vec<Param>, ret: Option<Type>, body: Box<Expr> },
    If { cond: Box<Expr>, then: Box<Expr>, elifs: Vec<(Expr, Expr)>, else_: Option<Box<Expr>> },
    Match { expr: Box<Expr>, arms: Vec<MatchArm> },
    /// postfix `?`
    Try(Box<Expr>),
    Catch { expr: Box<Expr>, handler: CatchHandler },
    /// `try:` block
    TryBlock(Vec<Stmt>),
    Field { expr: Box<Expr>, name: String },
    Index { expr: Box<Expr>, idx: Box<Expr> },
    StructLit { name: String, fields: Vec<(String, Expr)> },
    /// `Some(e)`
    SomeVal(Box<Expr>),
    /// `Ok(e)`
    OkVal(Box<Expr>),
    /// `Err(e)`
    ErrVal(Box<Expr>),
    /// `start..end` or `start..=end`
    Range { start: Box<Expr>, end: Box<Expr>, inclusive: bool },
}

/// What a `catch` does with an error.
#[derive(Debug)]
pub enum CatchHandler {
    /// `catch default`
    Default(Box<Expr>),
    /// `catch |e| expr`
    WithErr(String, Box<Expr>),
    /// `catch |e|:` block
    WithErrBlock(String, Vec<Stmt>),
}

/// One arm of a `match`.
#[derive(Debug)]
pub struct MatchArm {
    pub pattern: Pattern,
    pub body: Expr,
}

/// A `match` pattern.
#[derive(Debug)]
pub enum Pattern {
    Wildcard,
    Int(i64),
    Str(String),
    Bool(bool),
    /// `None`
    NoneVal,
    /// `Some(x)`
    SomeVal(String),
    /// `Ok(x)`
    OkVal(String),
    /// `Err(e)`
    ErrVal(String),
    Ident(String),
    Or(Vec<Pattern>),
}

/// A statement.
#[derive(Debug)]
pub enum Stmt {
    Let { name: String, ty: Option<Type>, value: Expr },
    Mut { name: String, ty: Option<Type>, value: Expr },
    Assign { target: Expr, value: Expr },
    Expr(Expr),
    Return(Option<Expr>),
    Break,
    Continue,
    For { var: String, iter: Expr, body: Vec<Stmt> },
    While { cond: Expr, body: Vec<Stmt> },
    Loop(Vec<Stmt>),
}

/// A top-level item.
#[derive(Debug)]
pub enum TopLevel {
    Fn { name: String, params: Vec<Param>, ret: Option<Type>, body: Vec<Stmt> },
    Struct { name: String, fields: Vec<(String, Type)> },
    Impl { name: String, methods: Vec<TopLevel> },
    /// `import a.b (as c)?`
    Import { path: Vec<String>, alias: Option<String> },
    /// `from std import io`, `from skp.http import get, post`
    FromImport { source: ImportSource, path: Vec<String>, names: Vec<(String, Option<String>)> },
}

/// Where a `from` import comes from.
#[derive(Debug, Clone, Copy, PartialEq, Eq, Structural)]
pub enum ImportSource {
    Std,
    Skp,
    Local,
}

/// A function parameter.
#[derive(Debug)]
pub struct Param {
    pub name: String,
    pub ty: Type,
    pub is_self: bool,
}

/// A type annotation.
#[derive(Debug)]
pub enum Type {
    Int,
    Float,
    String,
    Str,
    Bool,
    Char,
    Byte,
    Void,
    I8,
    I16,
    I32,
    I64,
    Uint,
    U8,
    U16,
    U32,
    U64,
    F32,
    F64,
    List(Box<Type>),
    Dict(Box<Type>, Box<Type>),
    Tuple(Vec<Type>),
    /// `set<T>`
    SetOf(Box<Type>),
    Option(Box<Type>),
    Result(Box<Type>, Box<Type>),
    /// `T?`
    Nullable(Box<Type>),
    /// `T | U`
    Union(Vec<Type>),
    Fn(Vec<Type>, Box<Type>),
    Named(String),
    Generic(String, Vec<Type>),
}

/// A binary operator.
#[derive(Debug, Clone, Copy, PartialEq, Eq, Structural)]
pub enum BinOp {
    Add,
    Sub,
    Mul,
    Div,
    Mod,
    Eq,
    NotEq,
    Lt,
    LtEq,
    Gt,
    GtEq,
    And,
    Or,
}

/// A unary operator.
#[derive(Debug, Clone, Copy, PartialEq, Eq, Structural)]
pub enum UnOp {
    Neg,
    Not,
}


// ============================================================
// Views: the tree as a mathematical value
// ============================================================

/// The view of an expression: text as character sequences, lists as sequences.
pub enum ExprV {
    Int(i64),
    Float(Seq<char>),
    Str(Seq<char>),
    Bool(bool),
    Null,
    NoneVal,
    Ident(Seq<char>),
    Block(Seq<StmtV>),
    BinOp { op: BinOp, lhs: Box<ExprV>, rhs: Box<ExprV> },
    UnOp { op: UnOp, expr: Box<ExprV> },
    Call { func: Box<ExprV>, args: Seq<ExprV> },
    Lambda { params: Seq<ParamV>, ret: Option<TypeV>, body: Box<ExprV> },
    If { cond: Box<ExprV>, then: Box<ExprV>, elifs: Seq<(ExprV, ExprV)>, else_: Option<Box<ExprV>> },
    Match { expr: Box<ExprV>, arms: Seq<ArmV> },
    Try(Box<ExprV>),
    Catch { expr: Box<ExprV>, handler: HandlerV },
    TryBlock(Seq<StmtV>),
    Field { expr: Box<ExprV>, name: Seq<char> },
    Index { expr: Box<ExprV>, idx: Box<ExprV> },
    StructLit { name: Seq<char>, fields: Seq<(Seq<char>, ExprV)> },
    SomeVal(Box<ExprV>),
    OkVal(Box<ExprV>),
    ErrVal(Box<ExprV>),
    Range { start: Box<ExprV>, end: Box<ExprV>, inclusive: bool },
}

/// The view of a catch handler.
pub enum HandlerV {
    Default(Box<ExprV>),
    WithErr(Seq<char>, Box<ExprV>),
    WithErrBlock(Seq<char>, Seq<StmtV>),
}

/// The view of a match arm.
pub struct ArmV {
    pub pattern: PatternV,
    pub body: ExprV,
}

/// The view of a pattern.
pub enum PatternV {
    Wildcard,
    Int(i64),
    Str(Seq<char>),
    Bool(bool),
    NoneVal,
    SomeVal(Seq<char>),
    OkVal(Seq<char>),
    ErrVal(Seq<char>),
    Ident(Seq<char>),
    Or(Seq<PatternV>),
}

/// The view of a statement.
pub enum StmtV {
    Let { name: Seq<char>, ty: Option<TypeV>, value: ExprV },
    Mut { name: Seq<char>, ty: Option<TypeV>, value: ExprV },
    Assign { target: ExprV, value: ExprV },
    Expr(ExprV),
    Return(Option<ExprV>),
    Break,
    Continue,
    For { var: Seq<char>, iter: ExprV, body: Seq<StmtV> },
    While { cond: ExprV, body: Seq<StmtV> },
    Loop(Seq<StmtV>),
}

/// The view of a top-level item.
pub enum TopV {
    Fn { name: Seq<char>, params: Seq<ParamV>, ret: Option<TypeV>, body: Seq<StmtV> },
    Struct { name: Seq<char>, fields: Seq<(Seq<char>, TypeV)> },
    Impl { name: Seq<char>, methods: Seq<TopV> },
    Import { path: Seq<Seq<char>>, alias: Option<Seq<char>> },
    FromImport { source: ImportSource, path: Seq<Seq<char>>, names: Seq<(Seq<char>, Option<Seq<char>>)> },
}

/// The view of a parameter.
pub struct ParamV {
    pub name: Seq<char>,
    pub ty: TypeV,
    pub is_self: bool,
}

/// The view of a type.
pub enum TypeV {
    Int,
    Float,
    String,
    Str,
    Bool,
    Char,
    Byte,
    Void,
    I8,
    I16,
    I32,
    I64,
    Uint,
    U8,
    U16,
    U32,
    U64,
    F32,
    F64,
    List(Box<TypeV>),
    Dict(Box<TypeV>, Box<TypeV>),
    Tuple(Seq<TypeV>),
    SetOf(Box<TypeV>),
    Option(Box<TypeV>),
    Result(Box<TypeV>, Box<TypeV>),
    Nullable(Box<TypeV>),
    Union(Seq<TypeV>),
    Fn(Seq<TypeV>, Box<TypeV>),
    Named(Seq<char>),
    Generic(Seq<char>, Seq<TypeV>),
}

/// The view of a type.
pub open spec fn type_view(t: Type) -> TypeV
    decreases t,
{
    match t {
        Type::Int => TypeV::Int,
        Type::Float => TypeV::Float,
        Type::String => TypeV::String,
        Type::Str => TypeV::Str,
        Type::Bool => TypeV::Bool,
        Type::Char => TypeV::Char,
        Type::Byte => TypeV::Byte,
        Type::Void => TypeV::Void,
        Type::I8 => TypeV::I8,
        Type::I16 => TypeV::I16,
        Type::I32 => TypeV::I32,
        Type::I64 => TypeV::I64,
        Type::Uint => TypeV::Uint,
        Type::U8 => TypeV::U8,
        Type::U16 => TypeV::U16,
        Type::U32 => TypeV::U32,
        Type::U64 => TypeV::U64,
        Type::F32 => TypeV::F32,
        Type::F64 => TypeV::F64,
        Type::List(a) => TypeV::List(Box::new(type_view(*a))),
        Type::Dict(a, b) => TypeV::Dict(Box::new(type_view(*a)), Box::new(type_view(*b))),
        Type::Tuple(v) => TypeV::Tuple(types_view(v@)),
        Type::SetOf(a) => TypeV::SetOf(Box::new(type_view(*a))),
        Type::Option(a) => TypeV::Option(Box::new(type_view(*a))),
        Type::Result(a, b) => TypeV::Result(Box::new(type_view(*a)), Box::new(type_view(*b))),
        Type::Nullable(a) => TypeV::Nullable(Box::new(type_view(*a))),
        Type::Union(v) => TypeV::Union(types_view(v@)),
        Type::Fn(v, r) => TypeV::Fn(types_view(v@), Box::new(type_view(*r))),
        Type::Named(n) => TypeV::Named(n@),
        Type::Generic(n, v) => TypeV::Generic(n@, types_view(v@)),
    }
}

/// The views of a list of types.
pub open spec fn types_view(s: Seq<Type>) -> Seq<TypeV>
    decreases s,
{
    if s.len() == 0 {
        Seq::empty()
    } else {
        types_view(s.drop_last()).push(type_view(s.last()))
    }
}

impl View for Type {
    type V = TypeV;

    open spec fn view(&self) -> TypeV {
        type_view(*self)
    }
}

/// The view of an optional type.
pub open spec fn opt_type_view(t: Option<Type>) -> Option<TypeV> {
    match t {
        Some(x) => Some(type_view(x)),
        None => None,
    }
}

/// The view of a parameter.
pub open spec fn param_view(p: Param) -> ParamV {
    ParamV { name: p.name@, ty: type_view(p.ty), is_self: p.is_self }
}

/// The views of a list of parameters.
pub open spec fn params_view(s: Seq<Param>) -> Seq<ParamV> {
    s.map_values(|p: Param| param_view(p))
}

/// The view of a pattern.
pub open spec fn pattern_view(p: Pattern) -> PatternV
    decreases p,
{
    match p {
        Pattern::Wildcard => PatternV::Wildcard,
        Pattern::Int(n) => PatternV::Int(n),
        Pattern::Str(s) => PatternV::Str(s@),
        Pattern::Bool(b) => PatternV::Bool(b),
        Pattern::NoneVal => PatternV::NoneVal,
        Pattern::SomeVal(s) => PatternV::SomeVal(s@),
        Pattern::OkVal(s) => PatternV::OkVal(s@),
        Pattern::ErrVal(s) => PatternV::ErrVal(s@),
        Pattern::Ident(s) => PatternV::Ident(s@),
        Pattern::Or(v) => PatternV::Or(patterns_view(v@)),
    }
}

/// The views of a list of patterns.
pub open spec fn patterns_view(s: Seq<Pattern>) -> Seq<PatternV>
    decreases s,
{
    if s.len() == 0 {
        Seq::empty()
    } else {
        patterns_view(s.drop_last()).push(pattern_view(s.last()))
    }
}

/// The view of an expression.
pub open spec fn expr_view(e: Expr) -> ExprV
    decreases e,
{
    match e {
        Expr::Int(n) => ExprV::Int(n),
        Expr::Float(s) => ExprV::Float(s@),
        Expr::Str(s) => ExprV::Str(s@),
        Expr::Bool(b) => ExprV::Bool(b),
        Expr::Null => ExprV::Null,
        Expr::NoneVal => ExprV::NoneVal,
        Expr::Ident(s) => ExprV::Ident(s@),
        Expr::Block(v) => ExprV::Block(stmts_view(v@)),
        Expr::BinOp { op, lhs, rhs } => ExprV::BinOp { op, lhs: Box::new(expr_view(*lhs)), rhs: Box::new(expr_view(*rhs)) },
        Expr::UnOp { op, expr } => ExprV::UnOp { op, expr: Box::new(expr_view(*expr)) },
        Expr::Call { func, args } => ExprV::Call { func: Box::new(expr_view(*func)), args: exprs_view(args@) },
        Expr::Lambda { params, ret, body } => ExprV::Lambda {
            params: params_view(params@),
            ret: opt_type_view(ret),
            body: Box::new(expr_view(*body)),
        },
        Expr::If { cond, then, elifs, else_ } => ExprV::If {
            cond: Box::new(expr_view(*cond)),
            then: Box::new(expr_view(*then)),
            elifs: elifs_view(elifs@),
            else_: match else_ {
                Some(x) => Some(Box::new(expr_view(*x))),
                None => None,
            },
        },
        Expr::Match { expr, arms } => ExprV::Match { expr: Box::new(expr_view(*expr)), arms: arms_view(arms@) },
        Expr::Try(x) => ExprV::Try(Box::new(expr_view(*x))),
        Expr::Catch { expr, handler } => ExprV::Catch {
            expr: Box::new(expr_view(*expr)),
            handler: match handler {
                CatchHandler::Default(d) => HandlerV::Default(Box::new(expr_view(*d))),
                CatchHandler::WithErr(n, b) => HandlerV::WithErr(n@, Box::new(expr_view(*b))),
                CatchHandler::WithErrBlock(n, b) => HandlerV::WithErrBlock(n@, stmts_view(b@)),
            },
        },
        Expr::TryBlock(v) => ExprV::TryBlock(stmts_view(v@)),
        Expr::Field { expr, name } => ExprV::Field { expr: Box::new(expr_view(*expr)), name: name@ },
        Expr::Index { expr, idx } => ExprV::Index { expr: Box::new(expr_view(*expr)), idx: Box::new(expr_view(*idx)) },
        Expr::StructLit { name, fields } => ExprV::StructLit { name: name@, fields: fields_view(fields@) },
        Expr::SomeVal(x) => ExprV::SomeVal(Box::new(expr_view(*x))),
        Expr::OkVal(x) => ExprV::OkVal(Box::new(expr_view(*x))),
        Expr::ErrVal(x) => ExprV::ErrVal(Box::new(expr_view(*x))),
        Expr::Range { start, end, inclusive } => ExprV::Range {
            start: Box::new(expr_view(*start)),
            end: Box::new(expr_view(*end)),
            inclusive,
        },
    }
}

/// The views of a list of expressions.
pub open spec fn exprs_view(s: Seq<Expr>) -> Seq<ExprV>
    decreases s,
{
    if s.len() == 0 {
        Seq::empty()
    } else {
        exprs_view(s.drop_last()).push(expr_view(s.last()))
    }
}

/// The views of the `elif` branches.
pub open spec fn elifs_view(s: Seq<(Expr, Expr)>) -> Seq<(ExprV, ExprV)>
    decreases s,
{
    if s.len() == 0 {
        Seq::empty()
    } else {
        elifs_view(s.drop_last()).push((expr_view(s.last().0), expr_view(s.last().1)))
    }
}

/// The views of struct literal fields.
pub open spec fn fields_view(s: Seq<(String, Expr)>) -> Seq<(Seq<char>, ExprV)>
    decreases s,
{
    if s.len() == 0 {
        Seq::empty()
    } else {
        fields_view(s.drop_last()).push((s.last().0@, expr_view(s.last().1)))
    }
}

/// The views of match arms.
pub open spec fn arms_view(s: Seq<MatchArm>) -> Seq<ArmV>
    decreases s,
{
    if s.len() == 0 {
        Seq::empty()
    } else {
        arms_view(s.drop_last()).push(ArmV { pattern: pattern_view(s.last().pattern), body: expr_view(s.last().body) })
    }
}

/// The view of a statement.
pub open spec fn stmt_view(s: Stmt) -> StmtV
    decreases s,
{
    match s {
        Stmt::Let { name, ty, value } => StmtV::Let { name: name@, ty: opt_type_view(ty), value: expr_view(value) },
        Stmt::Mut { name, ty, value } => StmtV::Mut { name: name@, ty: opt_type_view(ty), value: expr_view(value) },
        Stmt::Assign { target, value } => StmtV::Assign { target: expr_view(target), value: expr_view(value) },
        Stmt::Expr(e) => StmtV::Expr(expr_view(e)),
        Stmt::Return(e) => StmtV::Return(
            match e {
                Some(x) => Some(expr_view(x)),
                None => None,
            },
        ),
        Stmt::Break => StmtV::Break,
        Stmt::Continue => StmtV::Continue,
        Stmt::For { var, iter, body } => StmtV::For { var: var@, iter: expr_view(iter), body: stmts_view(body@) },
        Stmt::While { cond, body } => StmtV::While { cond: expr_view(cond), body: stmts_view(body@) },
        Stmt::Loop(b) => StmtV::Loop(stmts_view(b@)),
    }
}

/// The views of a list of statements.
pub open spec fn stmts_view(s: Seq<Stmt>) -> Seq<StmtV>
    decreases s,
{
    if s.len() == 0 {
        Seq::empty()
    } else {
        stmts_view(s.drop_last()).push(stmt_view(s.last()))
    }
}

/// The views of a list of names.
pub open spec fn names_view(s: Seq<String>) -> Seq<Seq<char>> {
    s.map_values(|n: String| n@)
}

/// The view of a top-level item.
pub open spec fn top_view(t: TopLevel) -> TopV
    decreases t,
{
    match t {
        TopLevel::Fn { name, params, ret, body } => TopV::Fn {
            name: name@,
            params: params_view(params@),
            ret: opt_type_view(ret),
            body: stmts_view(body@),
        },
        TopLevel::Struct { name, fields } => TopV::Struct { name: name@, fields: sfields_view(fields@) },
        TopLevel::Impl { name, methods } => TopV::Impl { name: name@, methods: tops_view(methods@) },
        TopLevel::Import { path, alias } => TopV::Import { path: names_view(path@), alias: opt_name_view(alias) },
        TopLevel::FromImport { source, path, names } => TopV::FromImport {
            source,
            path: names_view(path@),
            names: inames_view(names@),
        },
    }
}

/// The views of struct fields.
pub open spec fn sfields_view(s: Seq<(String, Type)>) -> Seq<(Seq<char>, TypeV)> {
    s.map_values(|f: (String, Type)| (f.0@, type_view(f.1)))
}

/// The view of an optional name.
pub open spec fn opt_name_view(a: Option<String>) -> Option<Seq<char>> {
    match a {
        Some(s) => Some(s@),
        None => None,
    }
}

/// The views of imported names with their aliases.
pub open spec fn inames_view(s: Seq<(String, Option<String>)>) -> Seq<(Seq<char>, Option<Seq<char>>)> {
    s.map_values(|n: (String, Option<String>)| (n.0@, opt_name_view(n.1)))
}

/// The views of a list of top-level items.
pub open spec fn tops_view(s: Seq<TopLevel>) -> Seq<TopV>
    decreases s,
{
    if s.len() == 0 {
        Seq::empty()
    } else {
        tops_view(s.drop_last()).push(top_view(s.last()))
    }
}

// ------------------------------------------------------------
// Lemmas on the views of lists
// ------------------------------------------------------------

/// The views of a list with one more type.
pub proof fn lemma_types_view_push(s: Seq<Type>, x: Type)
    ensures
        types_view(s.push(x)) == types_view(s).push(type_view(x)),
{
    assert(s.push(x).drop_last() =~= s);
}

/// The views of a list with one more pattern.
pub proof fn lemma_patterns_view_push(s: Seq<Pattern>, x: Pattern)
    ensures
        patterns_view(s.push(x)) == patterns_view(s).push(pattern_view(x)),
{
    assert(s.push(x).drop_last() =~= s);
}

/// The views of a list with one more parameter.
pub proof fn lemma_params_view_push(s: Seq<Param>, x: Param)
    ensures
        params_view(s.push(x)) == params_view(s).push(param_view(x)),
{
    assert(params_view(s.push(x)) =~= params_view(s).push(param_view(x)));
}

/// The views of a list with one more expression.
pub proof fn lemma_exprs_view_push(s: Seq<Expr>, x: Expr)
    ensures
        exprs_view(s.push(x)) == exprs_view(s).push(expr_view(x)),
{
    assert(s.push(x).drop_last() =~= s);
}

/// The views of a list with one more statement.
pub proof fn lemma_stmts_view_push(s: Seq<Stmt>, x: Stmt)
    ensures
        stmts_view(s.push(x)) == stmts_view(s).push(stmt_view(x)),
{
    assert(s.push(x).drop_last() =~= s);
}

/// The views of a list with one more `elif` part.
pub proof fn lemma_elifs_view_push(s: Seq<(Expr, Expr)>, x: (Expr, Expr))
    ensures
        elifs_view(s.push(x)) == elifs_view(s).push((expr_view(x.0), expr_view(x.1))),
{
    assert(s.push(x).drop_last() =~= s);
}

/// The views of a list with one more struct literal field.
pub proof fn lemma_fields_view_push(s: Seq<(String, Expr)>, x: (String, Expr))
    ensures
        fields_view(s.push(x)) == fields_view(s).push((x.0@, expr_view(x.1))),
{
    assert(s.push(x).drop_last() =~= s);
}

/// The views of a list with one more match arm.
pub proof fn lemma_arms_view_push(s: Seq<MatchArm>, x: MatchArm)
    ensures
        arms_view(s.push(x)) == arms_view(s).push(ArmV { pattern: pattern_view(x.pattern), body: expr_view(x.body) }),
{
    assert(s.push(x).drop_last() =~= s);
}

/// The views of a list with one more item.
pub proof fn lemma_tops_view_push(s: Seq<TopLevel>, x: TopLevel)
    ensures
        tops_view(s.push(x)) == tops_view(s).push(top_view(x)),
{
    assert(s.push(x).drop_last() =~= s);
}

/// The views of a list with one more name.
pub proof fn lemma_names_view_push(s: Seq<String>, x: String)
    ensures
        names_view(s.push(x)) == names_view(s).push(x@),
{
    assert(names_view(s.push(x)) =~= names_view(s).push(x@));
}

/// The views of a list of types, element by element.
pub proof fn lemma_types_view_index(s: Seq<Type>)
    ensures
        types_view(s).len() == s.len(),
        forall|i: int| 0 <= i < s.len() ==> #[trigger] types_view(s)[i] == type_view(s[i]),
    decreases s.len(),
{
    if s.len() > 0 {
        lemma_types_view_index(s.drop_last());
    }
}


/// The views of a list of expressions, element by element.
pub proof fn lemma_exprs_view_index(s: Seq<Expr>)
    ensures
        exprs_view(s).len() == s.len(),
        forall|i: int| 0 <= i < s.len() ==> #[trigger] exprs_view(s)[i] == expr_view(s[i]),
    decreases s.len(),
{
    if s.len() > 0 {
        lemma_exprs_view_index(s.drop_last());
    }
}

/// The views of a list of statements, element by element.
pub proof fn lemma_stmts_view_index(s: Seq<Stmt>)
    ensures
        stmts_view(s).len() == s.len(),
        forall|i: int| 0 <= i < s.len() ==> #[trigger] stmts_view(s)[i] == stmt_view(s[i]),
    decreases s.len(),
{
    if s.len() > 0 {
        lemma_stmts_view_index(s.drop_last());
    }
}

/// The views of a list of `elif` parts, element by element.
pub proof fn lemma_elifs_view_index(s: Seq<(Expr, Expr)>)
    ensures
        elifs_view(s).len() == s.len(),
        forall|i: int| 0 <= i < s.len() ==> #[trigger] elifs_view(s)[i] == (expr_view(s[i].0), expr_view(s[i].1)),
    decreases s.len(),
{
    if s.len() > 0 {
        lemma_elifs_view_index(s.drop_last());
    }
}

/// The views of a list of match arms, element by element.
pub proof fn lemma_arms_view_index(s: Seq<MatchArm>)
    ensures
        arms_view(s).len() == s.len(),
        forall|i: int| 0 <= i < s.len() ==> #[trigger] arms_view(s)[i] == (ArmV { pattern: pattern_view(s[i].pattern), body: expr_view(s[i].body) }),
    decreases s.len(),
{
    if s.len() > 0 {
        lemma_arms_view_index(s.drop_last());
    }
}

/// The views of a list of items, element by element.
pub proof fn lemma_tops_view_index(s: Seq<TopLevel>)
    ensures
        tops_view(s).len() == s.len(),
        forall|i: int| 0 <= i < s.len() ==> #[trigger] tops_view(s)[i] == top_view(s[i]),
    decreases s.len(),
{
    if s.len() > 0 {
        lemma_tops_view_index(s.drop_last());
    }
}


/// The views of struct literal fields, element by element.
pub proof fn lemma_fields_view_index(s: Seq<(String, Expr)>)
    ensures
        fields_view(s).len() == s.len(),
        forall|i: int| 0 <= i < s.len() ==> #[trigger] fields_view(s)[i] == (s[i].0@, expr_view(s[i].1)),
    decreases s.len(),
{
    if s.len() > 0 {
        lemma_fields_view_index(s.drop_last());
    }
}

} // verus!
