//! The syntax tree of RustScript, its mathematical view, and its printed form.
use crate::text::{
    bool_text, copy_string, int_text, lit, push_bool, push_char, push_int, push_str, push_string,
};
use crate::token::{token_text, FloatLit, SToken, Token};
use std::rc::Rc;
use vstd::prelude::*;

verus! {

#[derive(Debug, Clone, Copy, PartialEq, Eq, Structural)]
pub enum BinOpType {
    Add,
    Sub,
    Mul,
    Div,
    Gt,
    Lt,
    LogicalEq,
    LogicalAnd,
    LogicalOr,
}

#[derive(Debug, Clone, Copy, PartialEq, Eq, Structural)]
pub enum UnOpType {
    Negate,
    Not,
}

/// A type, as written in annotations and as computed by the type checker.
#[derive(Debug, PartialEq)]
pub enum Type {
    Int,
    Float,
    Bool,
    String,
    UserFn(Box<FnTypeData>),
    /// Type checking of built-in functions is done separately since they can
    /// be polymorphic.
    BuiltInFn,
    /// The unit type, like Rust's `()`.
    Unit,
    /// The type of a variable that exists in a block but is not declared yet.
    Unitialised,
    /// The type of a spawned thread's handle.
    ThreadId,
    /// The type of a semaphore, made by `sem_create()`.
    Semaphore,
}

/// The type of a user function.
#[derive(Debug, PartialEq)]
pub struct FnTypeData {
    pub params: Vec<Type>,
    pub ret_type: Type,
}

#[derive(Debug, PartialEq)]
pub struct FnCallData {
    pub name: String,
    pub args: Vec<Expr>,
}

#[derive(Debug, PartialEq)]
pub enum Expr {
    Symbol(String),
    Integer(i64),
    Float(FloatLit),
    Bool(bool),
    StringLiteral(String),
    UnOpExpr(UnOpType, Box<Expr>),
    BinOpExpr(BinOpType, Box<Expr>, Box<Expr>),
    BlockExpr(BlockSeq),
    IfElseExpr(Box<IfElseData>),
    FnCallExpr(FnCallData),
    SpawnExpr(FnCallData),
    JoinExpr(String),
}

#[derive(Debug, PartialEq)]
pub struct LetStmtData {
    pub ident: String,
    pub expr: Expr,
    pub type_ann: Option<Type>,
}

#[derive(Debug, PartialEq)]
pub struct AssignStmtData {
    pub ident: String,
    pub expr: Expr,
}

#[derive(Debug, PartialEq)]
pub struct IfElseData {
    pub cond: Expr,
    pub if_blk: BlockSeq,
    pub else_blk: Option<BlockSeq>,
}

#[derive(Debug, PartialEq)]
pub struct LoopData {
    pub cond: Option<Expr>,
    pub body: BlockSeq,
}

/// A function parameter.
#[derive(Debug, PartialEq)]
pub struct FnParam {
    pub name: String,
    pub type_ann: Option<Type>,
}

#[derive(Debug, PartialEq)]
pub struct FnDeclData {
    pub name: String,
    pub params: Vec<FnParam>,
    pub ret_type: Type,
    pub body: BlockSeq,
}

#[derive(Debug, PartialEq)]
pub enum Decl {
    LetStmt(LetStmtData),
    AssignStmt(AssignStmtData),
    ExprStmt(Expr),
    /// An if without else is only a statement.
    IfOnlyStmt(IfElseData),
    /// A loop is always a statement.
    LoopStmt(LoopData),
    FnDeclStmt(FnDeclData),
    /// Only inside a loop.
    BreakStmt,
    /// Only inside a function.
    ReturnStmt(Option<Expr>),
    WaitStmt(String),
    PostStmt(String),
    YieldStmt,
}

/// A sequence of declarations with an optional last expression, whose value
/// is the value of the block (else the block has the unit value).
#[derive(Debug, PartialEq)]
pub struct BlockSeq {
    pub decls: Vec<Decl>,
    pub last_expr: Option<Rc<Expr>>,
    /// The names that the block declares at its top level (let bindings and
    /// function declarations), in order.
    pub symbols: Vec<String>,
}

#[derive(Debug, PartialEq)]
pub struct ParseError {
    msg: String,
}

// ---------------------------------------------------------------------
// Mathematical views
// ---------------------------------------------------------------------

pub enum SType {
    Int,
    Float,
    Bool,
    Str,
    UserFn(Seq<SType>, Box<SType>),
    BuiltInFn,
    Unit,
    Unitialised,
    ThreadId,
    Semaphore,
}

pub struct SFnCall {
    pub name: Seq<char>,
    pub args: Seq<SExpr>,
}

pub enum SExpr {
    Symbol(Seq<char>),
    Integer(i64),
    Float(Seq<char>),
    Bool(bool),
    Str(Seq<char>),
    UnOp(UnOpType, Box<SExpr>),
    BinOp(BinOpType, Box<SExpr>, Box<SExpr>),
    Block(SBlock),
    IfElse(Box<SIfElse>),
    FnCall(SFnCall),
    Spawn(SFnCall),
    Join(Seq<char>),
}

pub struct SIfElse {
    pub cond: SExpr,
    pub if_blk: SBlock,
    pub else_blk: Option<SBlock>,
}

pub struct SLoop {
    pub cond: Option<SExpr>,
    pub body: SBlock,
}

pub struct SParam {
    pub name: Seq<char>,
    pub type_ann: Option<SType>,
}

pub struct SFnDecl {
    pub name: Seq<char>,
    pub params: Seq<SParam>,
    pub ret_type: SType,
    pub body: SBlock,
}

pub enum SDecl {
    Let(Seq<char>, SExpr, Option<SType>),
    Assign(Seq<char>, SExpr),
    ExprStmt(SExpr),
    IfOnly(SIfElse),
    Loop(SLoop),
    FnDecl(SFnDecl),
    Break,
    Return(Option<SExpr>),
    Wait(Seq<char>),
    Post(Seq<char>),
    Yield,
}

pub struct SBlock {
    pub decls: Seq<SDecl>,
    pub last: Option<Box<SExpr>>,
    pub symbols: Seq<Seq<char>>,
}

pub open spec fn types_view(s: Seq<Type>) -> Seq<SType>
    decreases s,
{
    if s.len() == 0 {
        seq![]
    } else {
        proof {
            assert(decreases_to!(s => s.last()));
        }
        types_view(s.drop_last()).push(s.last().view_type())
    }
}

impl Type {
    pub open spec fn view_type(&self) -> SType
        decreases self,
    {
        match self {
            Type::Int => SType::Int,
            Type::Float => SType::Float,
            Type::Bool => SType::Bool,
            Type::String => SType::Str,
            Type::UserFn(f) => SType::UserFn(types_view(f.params@), Box::new(f.ret_type.view_type())),
            Type::BuiltInFn => SType::BuiltInFn,
            Type::Unit => SType::Unit,
            Type::Unitialised => SType::Unitialised,
            Type::ThreadId => SType::ThreadId,
            Type::Semaphore => SType::Semaphore,
        }
    }
}

impl View for Type {
    type V = SType;

    open spec fn view(&self) -> SType {
        self.view_type()
    }
}

pub open spec fn opt_type_view(t: Option<Type>) -> Option<SType> {
    match t {
        Some(ty) => Some(ty@),
        None => None,
    }
}

pub open spec fn strings_view(s: Seq<String>) -> Seq<Seq<char>> {
    s.map_values(|x: String| x@)
}

pub open spec fn params_view(s: Seq<FnParam>) -> Seq<SParam> {
    s.map_values(|p: FnParam| SParam { name: p.name@, type_ann: opt_type_view(p.type_ann) })
}

pub open spec fn exprs_view(s: Seq<Expr>) -> Seq<SExpr>
    decreases s,
{
    if s.len() == 0 {
        seq![]
    } else {
        proof {
            assert(decreases_to!(s => s.last()));
        }
        exprs_view(s.drop_last()).push(s.last().view_expr())
    }
}

pub open spec fn decls_view(s: Seq<Decl>) -> Seq<SDecl>
    decreases s,
{
    if s.len() == 0 {
        seq![]
    } else {
        proof {
            assert(decreases_to!(s => s.last()));
        }
        decls_view(s.drop_last()).push(s.last().view_decl())
    }
}

impl Expr {
    pub open spec fn view_expr(&self) -> SExpr
        decreases self,
    {
        match self {
            Expr::Symbol(s) => SExpr::Symbol(s@),
            Expr::Integer(i) => SExpr::Integer(*i),
            Expr::Float(f) => SExpr::Float(f@),
            Expr::Bool(b) => SExpr::Bool(*b),
            Expr::StringLiteral(s) => SExpr::Str(s@),
            Expr::UnOpExpr(op, e) => SExpr::UnOp(*op, Box::new(e.view_expr())),
            Expr::BinOpExpr(op, l, r) => SExpr::BinOp(*op, Box::new(l.view_expr()), Box::new(r.view_expr())),
            Expr::BlockExpr(b) => SExpr::Block(b.view_block()),
            Expr::IfElseExpr(d) => SExpr::IfElse(Box::new(d.view_if_else())),
            Expr::FnCallExpr(c) => SExpr::FnCall(SFnCall { name: c.name@, args: exprs_view(c.args@) }),
            Expr::SpawnExpr(c) => SExpr::Spawn(SFnCall { name: c.name@, args: exprs_view(c.args@) }),
            Expr::JoinExpr(s) => SExpr::Join(s@),
        }
    }
}

impl IfElseData {
    pub open spec fn view_if_else(&self) -> SIfElse
        decreases self,
    {
        SIfElse {
            cond: self.cond.view_expr(),
            if_blk: self.if_blk.view_block(),
            else_blk: match &self.else_blk {
                Some(b) => Some(b.view_block()),
                None => None,
            },
        }
    }
}

impl LoopData {
    pub open spec fn view_loop(&self) -> SLoop
        decreases self,
    {
        SLoop {
            cond: match &self.cond {
                Some(e) => Some(e.view_expr()),
                None => None,
            },
            body: self.body.view_block(),
        }
    }
}

impl FnDeclData {
    pub open spec fn view_fn_decl(&self) -> SFnDecl
        decreases self,
    {
        SFnDecl {
            name: self.name@,
            params: params_view(self.params@),
            ret_type: self.ret_type@,
            body: self.body.view_block(),
        }
    }
}

impl Decl {
    pub open spec fn view_decl(&self) -> SDecl
        decreases self,
    {
        match self {
            Decl::LetStmt(d) => SDecl::Let(d.ident@, d.expr.view_expr(), opt_type_view(d.type_ann)),
            Decl::AssignStmt(d) => SDecl::Assign(d.ident@, d.expr.view_expr()),
            Decl::ExprStmt(e) => SDecl::ExprStmt(e.view_expr()),
            Decl::IfOnlyStmt(d) => SDecl::IfOnly(d.view_if_else()),
            Decl::LoopStmt(d) => SDecl::Loop(d.view_loop()),
            Decl::FnDeclStmt(d) => SDecl::FnDecl(d.view_fn_decl()),
            Decl::BreakStmt => SDecl::Break,
            Decl::ReturnStmt(e) => SDecl::Return(
                match e {
                    Some(x) => Some(x.view_expr()),
                    None => None,
                },
            ),
            Decl::WaitStmt(s) => SDecl::Wait(s@),
            Decl::PostStmt(s) => SDecl::Post(s@),
            Decl::YieldStmt => SDecl::Yield,
        }
    }
}

impl BlockSeq {
    pub open spec fn view_block(&self) -> SBlock
        decreases self,
    {
        SBlock {
            decls: decls_view(self.decls@),
            last: match &self.last_expr {
                Some(e) => Some(Box::new((**e).view_expr())),
                None => None,
            },
            symbols: strings_view(self.symbols@),
        }
    }
}

impl View for Expr {
    type V = SExpr;

    open spec fn view(&self) -> SExpr {
        self.view_expr()
    }
}

impl View for Decl {
    type V = SDecl;

    open spec fn view(&self) -> SDecl {
        self.view_decl()
    }
}

impl View for BlockSeq {
    type V = SBlock;

    open spec fn view(&self) -> SBlock {
        self.view_block()
    }
}

impl View for IfElseData {
    type V = SIfElse;

    open spec fn view(&self) -> SIfElse {
        self.view_if_else()
    }
}

impl View for LoopData {
    type V = SLoop;

    open spec fn view(&self) -> SLoop {
        self.view_loop()
    }
}

impl View for FnDeclData {
    type V = SFnDecl;

    open spec fn view(&self) -> SFnDecl {
        self.view_fn_decl()
    }
}

impl View for ParseError {
    type V = Seq<char>;

    /// The message of the error.
    closed spec fn view(&self) -> Seq<char> {
        self.msg@
    }
}

pub proof fn lemma_exprs_view(s: Seq<Expr>)
    ensures
        exprs_view(s).len() == s.len(),
        forall|i: int| 0 <= i < s.len() ==> exprs_view(s)[i] == (#[trigger] s[i]).view_expr(),
    decreases s.len(),
{
    if s.len() > 0 {
        lemma_exprs_view(s.drop_last());
        assert forall|i: int| 0 <= i < s.len() implies exprs_view(s)[i] == (#[trigger] s[i]).view_expr() by {
            if i < s.len() - 1 {
                assert(s.drop_last()[i] == s[i]);
            }
        }
    }
}

pub proof fn lemma_decls_view(s: Seq<Decl>)
    ensures
        decls_view(s).len() == s.len(),
        forall|i: int| 0 <= i < s.len() ==> decls_view(s)[i] == (#[trigger] s[i]).view_decl(),
    decreases s.len(),
{
    if s.len() > 0 {
        lemma_decls_view(s.drop_last());
        assert forall|i: int| 0 <= i < s.len() implies decls_view(s)[i] == (#[trigger] s[i]).view_decl() by {
            if i < s.len() - 1 {
                assert(s.drop_last()[i] == s[i]);
            }
        }
    }
}

pub proof fn lemma_types_view(s: Seq<Type>)
    ensures
        types_view(s).len() == s.len(),
        forall|i: int| 0 <= i < s.len() ==> types_view(s)[i] == (#[trigger] s[i]).view_type(),
    decreases s.len(),
{
    if s.len() > 0 {
        lemma_types_view(s.drop_last());
        assert forall|i: int| 0 <= i < s.len() implies types_view(s)[i] == (#[trigger] s[i]).view_type() by {
            if i < s.len() - 1 {
                assert(s.drop_last()[i] == s[i]);
            }
        }
    }
}

// ---------------------------------------------------------------------
// Printed form
// ---------------------------------------------------------------------

pub open spec fn binop_text(op: BinOpType) -> Seq<char> {
    match op {
        BinOpType::Add => seq!['+'],
        BinOpType::Sub => seq!['-'],
        BinOpType::Mul => seq!['*'],
        BinOpType::Div => seq!['/'],
        BinOpType::Lt => seq!['<'],
        BinOpType::Gt => seq!['>'],
        BinOpType::LogicalEq => seq!['=', '='],
        BinOpType::LogicalAnd => seq!['&', '&'],
        BinOpType::LogicalOr => seq!['|', '|'],
    }
}

pub open spec fn unop_text(op: UnOpType) -> Seq<char> {
    match op {
        UnOpType::Negate => seq!['-'],
        UnOpType::Not => seq!['!'],
    }
}

pub open spec fn types_text(s: Seq<SType>) -> Seq<char>
    decreases s,
{
    if s.len() == 0 {
        seq![]
    } else if s.len() == 1 {
        type_text(s[0])
    } else {
        proof {
            assert(decreases_to!(s => s.last()));
        }
        types_text(s.drop_last()) + seq![',', ' '] + type_text(s.last())
    }
}

pub open spec fn type_text(t: SType) -> Seq<char>
    decreases t,
{
    match t {
        SType::Int => "int"@,
        SType::Float => "float"@,
        SType::Bool => "bool"@,
        SType::Str => "string"@,
        SType::UserFn(ps, r) => {
            let head = "fn("@ + types_text(ps) + seq![')'];
            if *r == SType::Unit {
                head
            } else {
                head + " -> "@ + type_text(*r)
            }
        },
        SType::BuiltInFn => "builtin_fn"@,
        SType::Unit => "()"@,
        SType::Unitialised => "uninit"@,
        SType::ThreadId => "thread_id"@,
        SType::Semaphore => "semaphore"@,
    }
}

pub open spec fn args_text(s: Seq<SExpr>) -> Seq<char>
    decreases s,
{
    if s.len() == 0 {
        seq![]
    } else if s.len() == 1 {
        expr_text(s[0])
    } else {
        proof {
            assert(decreases_to!(s => s.last()));
        }
        args_text(s.drop_last()) + seq![','] + expr_text(s.last())
    }
}

pub open spec fn call_text(c: SFnCall) -> Seq<char>
    decreases c,
{
    c.name + seq!['('] + args_text(c.args) + seq![')']
}

pub open spec fn expr_text(e: SExpr) -> Seq<char>
    decreases e,
{
    match e {
        SExpr::Integer(v) => int_text(v as int),
        SExpr::Float(f) => f,
        SExpr::Bool(b) => bool_text(b),
        SExpr::Symbol(s) => s,
        SExpr::Str(s) => s,
        SExpr::UnOp(op, x) => seq!['('] + unop_text(op) + expr_text(*x) + seq![')'],
        SExpr::BinOp(op, l, r) => seq!['('] + expr_text(*l) + binop_text(op) + expr_text(*r) + seq![')'],
        SExpr::Block(b) => seq!['{', ' '] + block_text(b) + seq![' ', '}'],
        SExpr::IfElse(d) => if_else_text(*d),
        SExpr::FnCall(c) => call_text(c),
        SExpr::Spawn(c) => "spawn "@ + call_text(c),
        SExpr::Join(s) => "join "@ + s,
    }
}

pub open spec fn if_else_text(d: SIfElse) -> Seq<char>
    decreases d,
{
    let head = "if "@ + expr_text(d.cond) + seq![' ', '{', ' '] + block_text(d.if_blk) + seq![' ', '}'];
    match d.else_blk {
        Some(b) => head + " else { "@ + block_text(b) + seq![' ', '}'],
        None => head,
    }
}

pub open spec fn param_text(p: SParam) -> Seq<char> {
    match p.type_ann {
        Some(t) => p.name + seq![':'] + type_text(t),
        None => p.name,
    }
}

pub open spec fn params_text(s: Seq<SParam>) -> Seq<char>
    decreases s.len(),
{
    if s.len() == 0 {
        seq![]
    } else if s.len() == 1 {
        param_text(s[0])
    } else {
        params_text(s.drop_last()) + seq![',', ' '] + param_text(s.last())
    }
}

pub open spec fn decl_text(d: SDecl) -> Seq<char>
    decreases d,
{
    match d {
        SDecl::Let(x, e, t) => match t {
            Some(ty) => "let "@ + x + " : "@ + type_text(ty) + " = "@ + expr_text(e),
            None => "let "@ + x + " = "@ + expr_text(e),
        },
        SDecl::Assign(x, e) => x + " = "@ + expr_text(e),
        SDecl::ExprStmt(e) => expr_text(e),
        SDecl::IfOnly(d) => if_else_text(d),
        SDecl::Loop(l) => "loop "@ + (match l.cond {
            Some(c) => expr_text(c),
            None => seq![],
        }) + seq![' ', '{', ' '] + block_text(l.body) + seq![' ', '}'],
        SDecl::FnDecl(f) => "fn "@ + f.name + seq![' ', '('] + params_text(f.params) + seq![')', ' ', '{', ' ']
            + block_text(f.body) + seq![' ', '}'],
        SDecl::Break => "break"@,
        SDecl::Return(e) => match e {
            Some(x) => "return "@ + expr_text(x),
            None => "return"@,
        },
        SDecl::Wait(s) => "wait "@ + s,
        SDecl::Post(s) => "post "@ + s,
        SDecl::Yield => "yield"@,
    }
}

pub open spec fn decls_text(s: Seq<SDecl>) -> Seq<char>
    decreases s,
{
    if s.len() == 0 {
        seq![]
    } else {
        proof {
            assert(decreases_to!(s => s.last()));
        }
        decls_text(s.drop_last()) + decl_text(s.last()) + seq![';']
    }
}

pub open spec fn block_text(b: SBlock) -> Seq<char>
    decreases b,
{
    decls_text(b.decls) + match b.last {
        Some(e) => expr_text(*e),
        None => seq![],
    }
}

pub open spec fn parse_error_text(msg: Seq<char>) -> Seq<char> {
    "[ParseError]: "@ + msg
}

pub proof fn lemma_exprs_view_push(s: Seq<Expr>, e: Expr)
    ensures
        exprs_view(s.push(e)) == exprs_view(s).push(e.view_expr()),
{
    assert(s.push(e).drop_last() =~= s);
}

pub proof fn lemma_decls_view_push(s: Seq<Decl>, d: Decl)
    ensures
        decls_view(s.push(d)) == decls_view(s).push(d.view_decl()),
{
    assert(s.push(d).drop_last() =~= s);
}

pub proof fn lemma_types_view_push(s: Seq<Type>, t: Type)
    ensures
        types_view(s.push(t)) == types_view(s).push(t.view_type()),
{
    assert(s.push(t).drop_last() =~= s);
}

// ---------------------------------------------------------------------
// Executable operations
// ---------------------------------------------------------------------

impl ParseError {
    pub fn new(err: &str) -> (r: ParseError)
        ensures
            r@ == err@,
    {
        ParseError { msg: lit(err) }
    }

    /// An error with the given message.
    pub fn from_msg(msg: String) -> (r: ParseError)
        ensures
            r@ == msg@,
    {
        ParseError { msg }
    }

    /// The printed form of the error: `[ParseError]: ` and the message.
    pub fn to_string(&self) -> (r: String)
        ensures
            r@ == parse_error_text(self@),
    {
        let mut s = lit("[ParseError]: ");
        push_string(&mut s, &self.msg);
        s
    }

    /// A copy of this error.
    pub fn copy(&self) -> (r: ParseError)
        ensures
            r@ == self@,
    {
        ParseError { msg: copy_string(&self.msg) }
    }
}

impl BinOpType {
    /// The binary operator that an infix token stands for.
    pub fn from_token(token: &Token) -> (r: Result<BinOpType, ParseError>)
        ensures
            match token@ {
                SToken::Plus => r == Ok::<BinOpType, ParseError>(BinOpType::Add),
                SToken::Minus => r == Ok::<BinOpType, ParseError>(BinOpType::Sub),
                SToken::Star => r == Ok::<BinOpType, ParseError>(BinOpType::Mul),
                SToken::Slash => r == Ok::<BinOpType, ParseError>(BinOpType::Div),
                SToken::Gt => r == Ok::<BinOpType, ParseError>(BinOpType::Gt),
                SToken::Lt => r == Ok::<BinOpType, ParseError>(BinOpType::Lt),
                SToken::LogEq => r == Ok::<BinOpType, ParseError>(BinOpType::LogicalEq),
                SToken::LogAnd => r == Ok::<BinOpType, ParseError>(BinOpType::LogicalAnd),
                SToken::LogOr => r == Ok::<BinOpType, ParseError>(BinOpType::LogicalOr),
                _ => r matches Err(e) && e@ == "Expected infix operator but got: "@ + token_text(token@),
            },
    {
        match token {
            Token::Plus => Ok(BinOpType::Add),
            Token::Minus => Ok(BinOpType::Sub),
            Token::Star => Ok(BinOpType::Mul),
            Token::Slash => Ok(BinOpType::Div),
            Token::Gt => Ok(BinOpType::Gt),
            Token::Lt => Ok(BinOpType::Lt),
            Token::LogEq => Ok(BinOpType::LogicalEq),
            Token::LogAnd => Ok(BinOpType::LogicalAnd),
            Token::LogOr => Ok(BinOpType::LogicalOr),
            _ => {
                let mut m = lit("Expected infix operator but got: ");
                token.push_text(&mut m);
                Err(ParseError::from_msg(m))
            },
        }
    }

    /// Appends the printed form of the operator.
    pub fn push_text(&self, s: &mut String)
        ensures
            final(s)@ == old(s)@ + binop_text(*self),
    {
        match self {
            BinOpType::Add => push_str(s, "+"),
            BinOpType::Sub => push_str(s, "-"),
            BinOpType::Mul => push_str(s, "*"),
            BinOpType::Div => push_str(s, "/"),
            BinOpType::Lt => push_str(s, "<"),
            BinOpType::Gt => push_str(s, ">"),
            BinOpType::LogicalEq => push_str(s, "=="),
            BinOpType::LogicalAnd => push_str(s, "&&"),
            BinOpType::LogicalOr => push_str(s, "||"),
        }
        proof {
            reveal_strlit("+");
            reveal_strlit("-");
            reveal_strlit("*");
            reveal_strlit("/");
            reveal_strlit("<");
            reveal_strlit(">");
            reveal_strlit("==");
            reveal_strlit("&&");
            reveal_strlit("||");
        }
    }
}

impl UnOpType {
    /// Appends the printed form of the operator.
    pub fn push_text(&self, s: &mut String)
        ensures
            final(s)@ == old(s)@ + unop_text(*self),
    {
        match self {
            UnOpType::Negate => push_str(s, "-"),
            UnOpType::Not => push_str(s, "!"),
        }
        proof {
            reveal_strlit("-");
            reveal_strlit("!");
        }
    }
}

pub open spec fn from_string_spec(input: Seq<char>) -> Option<SType> {
    if input == "int"@ {
        Some(SType::Int)
    } else if input == "bool"@ {
        Some(SType::Bool)
    } else if input == "float"@ {
        Some(SType::Float)
    } else {
        None
    }
}

impl Type {
    /// Converts a string to a primitive type: `int`, `bool` or `float`.
    pub fn from_string(input: &str) -> (r: Result<Type, ParseError>)
        ensures
            match from_string_spec(input@) {
                Some(t) => r matches Ok(ty) && ty@ == t,
                None => r matches Err(e) && e@ == "Unknown primitive type: "@ + input@,
            },
    {
        let v = crate::text::chars_of(input);
        if crate::lexer::range_is(&v, 0, v.len(), "int") {
            proof { assert(v@.subrange(0, v@.len() as int) =~= input@); }
            Ok(Type::Int)
        } else if crate::lexer::range_is(&v, 0, v.len(), "bool") {
            proof { assert(v@.subrange(0, v@.len() as int) =~= input@); }
            Ok(Type::Bool)
        } else if crate::lexer::range_is(&v, 0, v.len(), "float") {
            proof { assert(v@.subrange(0, v@.len() as int) =~= input@); }
            Ok(Type::Float)
        } else {
            proof { assert(v@.subrange(0, v@.len() as int) =~= input@); }
            let mut m = lit("Unknown primitive type: ");
            push_str(&mut m, input);
            Err(ParseError::from_msg(m))
        }
    }

    /// A copy of this type.
    pub fn copy(&self) -> (r: Type)
        ensures
            r@ == self@,
        decreases self,
    {
        match self {
            Type::Int => Type::Int,
            Type::Float => Type::Float,
            Type::Bool => Type::Bool,
            Type::String => Type::String,
            Type::UserFn(f) => {
                let ps = copy_types(&f.params);
                let rt = f.ret_type.copy();
                Type::UserFn(Box::new(FnTypeData { params: ps, ret_type: rt }))
            },
            Type::BuiltInFn => Type::BuiltInFn,
            Type::Unit => Type::Unit,
            Type::Unitialised => Type::Unitialised,
            Type::ThreadId => Type::ThreadId,
            Type::Semaphore => Type::Semaphore,
        }
    }

    /// Whether two types are the same.
    pub fn same(&self, other: &Type) -> (r: bool)
        ensures
            r == (self@ == other@),
        decreases self,
    {
        match (self, other) {
            (Type::Int, Type::Int) => true,
            (Type::Float, Type::Float) => true,
            (Type::Bool, Type::Bool) => true,
            (Type::String, Type::String) => true,
            (Type::BuiltInFn, Type::BuiltInFn) => true,
            (Type::Unit, Type::Unit) => true,
            (Type::Unitialised, Type::Unitialised) => true,
            (Type::ThreadId, Type::ThreadId) => true,
            (Type::Semaphore, Type::Semaphore) => true,
            (Type::UserFn(f), Type::UserFn(g)) => {
                if !same_types(&f.params, &g.params) {
                    return false;
                }
                f.ret_type.same(&g.ret_type)
            },
            _ => false,
        }
    }

    /// Appends the printed form of this type.
    pub fn push_text(&self, s: &mut String)
        ensures
            final(s)@ == old(s)@ + type_text(self@),
        decreases self,
    {
        match self {
            Type::Int => push_str(s, "int"),
            Type::Float => push_str(s, "float"),
            Type::Bool => push_str(s, "bool"),
            Type::String => push_str(s, "string"),
            Type::UserFn(f) => {
                push_str(s, "fn(");
                push_types_text(&f.params, s);
                push_str(s, ")");
                proof { reveal_strlit(")"); }
                let ghost head = s@;
                if !f.ret_type.same(&Type::Unit) {
                    push_str(s, " -> ");
                    f.ret_type.push_text(s);
                }
            },
            Type::BuiltInFn => push_str(s, "builtin_fn"),
            Type::Unit => push_str(s, "()"),
            Type::Unitialised => push_str(s, "uninit"),
            Type::ThreadId => push_str(s, "thread_id"),
            Type::Semaphore => push_str(s, "semaphore"),
        }
    }

    /// The printed form of this type.
    pub fn to_string(&self) -> (r: String)
        ensures
            r@ == type_text(self@),
    {
        let mut s = String::new();
        self.push_text(&mut s);
        assert(Seq::<char>::empty() + type_text(self@) =~= type_text(self@));
        s
    }
}

/// Whether two lists hold the same types.
pub fn same_types(a: &Vec<Type>, b: &Vec<Type>) -> (r: bool)
    ensures
        r == (types_view(a@) == types_view(b@)),
    decreases a,
{
    proof {
        lemma_types_view(a@);
        lemma_types_view(b@);
    }
    if a.len() != b.len() {
        return false;
    }
    let mut i: usize = 0;
    while i < a.len()
        invariant
            i <= a.len(),
            a.len() == b.len(),
            forall|j: int| 0 <= j < i ==> (#[trigger] a@[j])@ == b@[j]@,
        decreases a.len() - i,
    {
        proof {
            assert(decreases_to!(a => a@[i as int]));
        }
        if !a[i].same(&b[i]) {
            proof {
                lemma_types_view(a@);
                lemma_types_view(b@);
                assert(types_view(a@)[i as int] != types_view(b@)[i as int]);
            }
            return false;
        }
        i = i + 1;
    }
    proof {
        lemma_types_view(a@);
        lemma_types_view(b@);
        assert forall|j: int| 0 <= j < a@.len() implies types_view(a@)[j] == types_view(b@)[j] by {
            assert(a@[j]@ == b@[j]@);
        }
        assert(types_view(a@) =~= types_view(b@));
    }
    true
}

/// Copies of the types of a list.
pub fn copy_types(v: &Vec<Type>) -> (r: Vec<Type>)
    ensures
        types_view(r@) == types_view(v@),
    decreases v,
{
    let mut out: Vec<Type> = Vec::new();
    let mut i: usize = 0;
    while i < v.len()
        invariant
            i <= v.len(),
            types_view(out@) == types_view(v@.take(i as int)),
        decreases v.len() - i,
    {
        proof {
            assert(decreases_to!(v => v@[i as int]));
        }
        let t = v[i].copy();
        proof {
            lemma_types_view_push(out@, t);
            lemma_types_view_push(v@.take(i as int), v@[i as int]);
            assert(v@.take(i as int + 1) =~= v@.take(i as int).push(v@[i as int]));
        }
        out.push(t);
        i = i + 1;
    }
    assert(v@.take(v.len() as int) =~= v@);
    out
}

/// Appends the printed form of a list of types, separated by ", ".
pub fn push_types_text(v: &Vec<Type>, s: &mut String)
    ensures
        final(s)@ == old(s)@ + types_text(types_view(v@)),
    decreases v,
{
    let mut i: usize = 0;
    proof { lemma_types_view(v@); }
    while i < v.len()
        invariant
            i <= v.len(),
            types_view(v@).len() == v@.len(),
            forall|j: int| 0 <= j < v@.len() ==> types_view(v@)[j] == (#[trigger] v@[j]).view_type(),
            s@ == old(s)@ + types_text(types_view(v@).take(i as int)),
        decreases v.len() - i,
    {
        let ghost before = s@;
        let ghost tv = types_view(v@);
        if i > 0 {
            push_str(s, ", ");
            proof { reveal_strlit(", "); }
        }
        proof {
            assert(decreases_to!(v => v@[i as int]));
        }
        v[i].push_text(s);
        proof {
            let t1 = tv.take(i as int + 1);
            assert(t1.drop_last() =~= tv.take(i as int));
            assert(t1.last() == tv[i as int]);
            if i == 0 {
                assert(t1.len() == 1);
                assert(types_text(t1) == type_text(t1[0]));
            }
        }
        i = i + 1;
    }
    assert(types_view(v@).take(v.len() as int) =~= types_view(v@));
}



/// Appends the printed form of call arguments, separated by ",".
pub fn push_args_text(v: &Vec<Expr>, s: &mut String)
    ensures
        final(s)@ == old(s)@ + args_text(exprs_view(v@)),
    decreases v,
{
    let mut i: usize = 0;
    proof { lemma_exprs_view(v@); }
    while i < v.len()
        invariant
            i <= v.len(),
            exprs_view(v@).len() == v@.len(),
            forall|j: int| 0 <= j < v@.len() ==> exprs_view(v@)[j] == (#[trigger] v@[j]).view_expr(),
            s@ == old(s)@ + args_text(exprs_view(v@).take(i as int)),
        decreases v.len() - i,
    {
        let ghost ev = exprs_view(v@);
        if i > 0 {
            push_char(s, ',');
        }
        proof {
            assert(decreases_to!(v => v@[i as int]));
        }
        v[i].push_text(s);
        proof {
            let t1 = ev.take(i as int + 1);
            assert(t1.drop_last() =~= ev.take(i as int));
            assert(t1.last() == ev[i as int]);
            if i == 0 {
                assert(t1.len() == 1);
                assert(args_text(t1) == expr_text(t1[0]));
                assert(s@ =~= old(s)@ + args_text(t1));
            } else {
                assert(s@ =~= old(s)@ + args_text(t1));
            }
        }
        i = i + 1;
    }
    assert(exprs_view(v@).take(v.len() as int) =~= exprs_view(v@));
}

impl FnCallData {
    pub open spec fn view_call(&self) -> SFnCall {
        SFnCall { name: self.name@, args: exprs_view(self.args@) }
    }

    /// Appends `name(args)`.
    pub fn push_text(&self, s: &mut String)
        ensures
            final(s)@ == old(s)@ + call_text(self.view_call()),
        decreases self,
    {
        let ghost g = s@;
        push_string(s, &self.name);
        push_char(s, '(');
        push_args_text(&self.args, s);
        push_char(s, ')');
        assert(s@ =~= g + call_text(self.view_call()));
    }

    /// A copy of this call.
    pub fn copy(&self) -> (r: FnCallData)
        ensures
            r.view_call() == self.view_call(),
        decreases self,
    {
        FnCallData { name: copy_string(&self.name), args: copy_exprs(&self.args) }
    }
}

/// Copies of the expressions of a list.
pub fn copy_exprs(v: &Vec<Expr>) -> (r: Vec<Expr>)
    ensures
        exprs_view(r@) == exprs_view(v@),
    decreases v,
{
    let mut out: Vec<Expr> = Vec::new();
    let mut i: usize = 0;
    while i < v.len()
        invariant
            i <= v.len(),
            exprs_view(out@) == exprs_view(v@.take(i as int)),
        decreases v.len() - i,
    {
        proof {
            assert(decreases_to!(v => v@[i as int]));
        }
        let e = v[i].copy();
        proof {
            lemma_exprs_view_push(out@, e);
            lemma_exprs_view_push(v@.take(i as int), v@[i as int]);
            assert(v@.take(i as int + 1) =~= v@.take(i as int).push(v@[i as int]));
        }
        out.push(e);
        i = i + 1;
    }
    assert(v@.take(v.len() as int) =~= v@);
    out
}

/// Copies of the declarations of a list.
pub fn copy_decls(v: &Vec<Decl>) -> (r: Vec<Decl>)
    ensures
        decls_view(r@) == decls_view(v@),
    decreases v,
{
    let mut out: Vec<Decl> = Vec::new();
    let mut i: usize = 0;
    while i < v.len()
        invariant
            i <= v.len(),
            decls_view(out@) == decls_view(v@.take(i as int)),
        decreases v.len() - i,
    {
        proof {
            assert(decreases_to!(v => v@[i as int]));
        }
        let d = v[i].copy();
        proof {
            lemma_decls_view_push(out@, d);
            lemma_decls_view_push(v@.take(i as int), v@[i as int]);
            assert(v@.take(i as int + 1) =~= v@.take(i as int).push(v@[i as int]));
        }
        out.push(d);
        i = i + 1;
    }
    assert(v@.take(v.len() as int) =~= v@);
    out
}

/// Copies of the strings of a list.
pub fn copy_strings(v: &Vec<String>) -> (r: Vec<String>)
    ensures
        strings_view(r@) == strings_view(v@),
{
    let mut out: Vec<String> = Vec::new();
    let mut i: usize = 0;
    while i < v.len()
        invariant
            i <= v.len(),
            strings_view(out@) =~= strings_view(v@.take(i as int)),
        decreases v.len() - i,
    {
        let x = copy_string(&v[i]);
        let ghost o = out@;
        out.push(x);
        proof {
            assert(v@.take(i as int + 1) =~= v@.take(i as int).push(v@[i as int]));
            assert(strings_view(out@) =~= strings_view(o).push(x@));
            assert(strings_view(v@.take(i as int + 1)) =~= strings_view(v@.take(i as int)).push(v@[i as int]@));
        }
        i = i + 1;
    }
    assert(v@.take(v.len() as int) =~= v@);
    out
}

/// Copies of the parameters of a list.
pub fn copy_params(v: &Vec<FnParam>) -> (r: Vec<FnParam>)
    ensures
        params_view(r@) == params_view(v@),
{
    let mut out: Vec<FnParam> = Vec::new();
    let mut i: usize = 0;
    while i < v.len()
        invariant
            i <= v.len(),
            params_view(out@) =~= params_view(v@.take(i as int)),
        decreases v.len() - i,
    {
        let p = &v[i];
        let t = match &p.type_ann {
            Some(ty) => Some(ty.copy()),
            None => None,
        };
        let np = FnParam { name: copy_string(&p.name), type_ann: t };
        let ghost o = out@;
        out.push(np);
        proof {
            assert(v@.take(i as int + 1) =~= v@.take(i as int).push(v@[i as int]));
            assert(params_view(out@) =~= params_view(o).push(SParam { name: np.name@, type_ann: opt_type_view(np.type_ann) }));
            assert(params_view(v@.take(i as int + 1)) =~= params_view(v@.take(i as int)).push(
                SParam { name: v@[i as int].name@, type_ann: opt_type_view(v@[i as int].type_ann) }));
        }
        i = i + 1;
    }
    assert(v@.take(v.len() as int) =~= v@);
    out
}

/// A copy of an optional type.
pub fn copy_opt_type(t: &Option<Type>) -> (r: Option<Type>)
    ensures
        opt_type_view(r) == opt_type_view(*t),
{
    match t {
        Some(ty) => Some(ty.copy()),
        None => None,
    }
}

impl Expr {
    /// A copy of this expression.
    pub fn copy(&self) -> (r: Expr)
        ensures
            r@ == self@,
        decreases self,
    {
        match self {
            Expr::Symbol(x) => Expr::Symbol(copy_string(x)),
            Expr::Integer(i) => Expr::Integer(*i),
            Expr::Float(f) => Expr::Float(f.copy()),
            Expr::Bool(b) => Expr::Bool(*b),
            Expr::StringLiteral(x) => Expr::StringLiteral(copy_string(x)),
            Expr::UnOpExpr(op, e) => Expr::UnOpExpr(*op, Box::new((**e).copy())),
            Expr::BinOpExpr(op, l, r) => Expr::BinOpExpr(*op, Box::new((**l).copy()), Box::new((**r).copy())),
            Expr::BlockExpr(b) => Expr::BlockExpr(b.copy()),
            Expr::IfElseExpr(d) => Expr::IfElseExpr(Box::new((**d).copy())),
            Expr::FnCallExpr(c) => Expr::FnCallExpr(c.copy()),
            Expr::SpawnExpr(c) => Expr::SpawnExpr(c.copy()),
            Expr::JoinExpr(x) => Expr::JoinExpr(copy_string(x)),
        }
    }

    /// Appends the printed form of this expression.
    pub fn push_text(&self, s: &mut String)
        ensures
            final(s)@ == old(s)@ + expr_text(self@),
        decreases self,
    {
        let ghost g = s@;
        match self {
            Expr::Symbol(x) => push_string(s, x),
            Expr::Integer(i) => push_int(s, *i),
            Expr::Float(f) => push_string(s, &f.text),
            Expr::Bool(b) => push_bool(s, *b),
            Expr::StringLiteral(x) => push_string(s, x),
            Expr::UnOpExpr(op, e) => {
                push_char(s, '(');
                op.push_text(s);
                (**e).push_text(s);
                push_char(s, ')');
                assert(s@ =~= g + expr_text(self@));
            },
            Expr::BinOpExpr(op, l, r) => {
                push_char(s, '(');
                (**l).push_text(s);
                op.push_text(s);
                (**r).push_text(s);
                push_char(s, ')');
                assert(s@ =~= g + expr_text(self@));
            },
            Expr::BlockExpr(b) => {
                push_char(s, '{');
                push_char(s, ' ');
                b.push_text(s);
                push_char(s, ' ');
                push_char(s, '}');
                assert(s@ =~= g + expr_text(self@));
            },
            Expr::IfElseExpr(d) => (**d).push_text(s),
            Expr::FnCallExpr(c) => c.push_text(s),
            Expr::SpawnExpr(c) => {
                push_str(s, "spawn ");
                c.push_text(s);
                assert(s@ =~= g + expr_text(self@));
            },
            Expr::JoinExpr(x) => {
                push_str(s, "join ");
                push_string(s, x);
                assert(s@ =~= g + expr_text(self@));
            },
        }
    }

    /// The printed form of this expression.
    pub fn to_string(&self) -> (r: String)
        ensures
            r@ == expr_text(self@),
    {
        let mut s = String::new();
        self.push_text(&mut s);
        assert(Seq::<char>::empty() + expr_text(self@) =~= expr_text(self@));
        s
    }
}

impl IfElseData {
    /// A copy of this if-else.
    pub fn copy(&self) -> (r: IfElseData)
        ensures
            r@ == self@,
        decreases self,
    {
        let e = match &self.else_blk {
            Some(b) => Some(b.copy()),
            None => None,
        };
        IfElseData { cond: self.cond.copy(), if_blk: self.if_blk.copy(), else_blk: e }
    }

    /// Appends `if cond { .. }` and the else part, if any.
    pub fn push_text(&self, s: &mut String)
        ensures
            final(s)@ == old(s)@ + if_else_text(self@),
        decreases self,
    {
        let ghost g = s@;
        push_str(s, "if ");
        self.cond.push_text(s);
        push_char(s, ' ');
        push_char(s, '{');
        push_char(s, ' ');
        self.if_blk.push_text(s);
        push_char(s, ' ');
        push_char(s, '}');
        let ghost head = s@;
        assert(head =~= g + ("if "@ + expr_text(self.cond@) + seq![' ', '{', ' '] + block_text(self.if_blk@) + seq![' ', '}']));
        match &self.else_blk {
            Some(b) => {
                push_str(s, " else { ");
                b.push_text(s);
                push_char(s, ' ');
                push_char(s, '}');
                assert(s@ =~= g + if_else_text(self@));
            },
            None => {},
        }
    }
}

impl LoopData {
    /// A copy of this loop.
    pub fn copy(&self) -> (r: LoopData)
        ensures
            r@ == self@,
        decreases self,
    {
        let c = match &self.cond {
            Some(e) => Some(e.copy()),
            None => None,
        };
        LoopData { cond: c, body: self.body.copy() }
    }
}

impl FnDeclData {
    /// A copy of this declaration.
    pub fn copy(&self) -> (r: FnDeclData)
        ensures
            r@ == self@,
        decreases self,
    {
        FnDeclData {
            name: copy_string(&self.name),
            params: copy_params(&self.params),
            ret_type: self.ret_type.copy(),
            body: self.body.copy(),
        }
    }
}

/// Appends the printed form of parameters, separated by ", ".
pub fn push_params_text(v: &Vec<FnParam>, s: &mut String)
    ensures
        final(s)@ == old(s)@ + params_text(params_view(v@)),
{
    let mut i: usize = 0;
    while i < v.len()
        invariant
            i <= v.len(),
            s@ == old(s)@ + params_text(params_view(v@).take(i as int)),
        decreases v.len() - i,
    {
        let ghost pv = params_view(v@);
        if i > 0 {
            push_char(s, ',');
            push_char(s, ' ');
        }
        let ghost mid = s@;
        let p = &v[i];
        push_string(s, &p.name);
        match &p.type_ann {
            Some(t) => {
                push_char(s, ':');
                t.push_text(s);
            },
            None => {},
        }
        proof {
            assert(s@ =~= mid + param_text(pv[i as int]));
            let t1 = pv.take(i as int + 1);
            assert(t1.drop_last() =~= pv.take(i as int));
            assert(t1.last() == pv[i as int]);
            if i == 0 {
                assert(t1.len() == 1);
                assert(params_text(t1) == param_text(t1[0]));
            }
            assert(s@ =~= old(s)@ + params_text(t1));
        }
        i = i + 1;
    }
    assert(params_view(v@).take(v.len() as int) =~= params_view(v@));
}

impl Decl {
    /// A copy of this declaration.
    pub fn copy(&self) -> (r: Decl)
        ensures
            r@ == self@,
        decreases self,
    {
        match self {
            Decl::LetStmt(d) => Decl::LetStmt(LetStmtData {
                ident: copy_string(&d.ident),
                expr: d.expr.copy(),
                type_ann: copy_opt_type(&d.type_ann),
            }),
            Decl::AssignStmt(d) => Decl::AssignStmt(AssignStmtData { ident: copy_string(&d.ident), expr: d.expr.copy() }),
            Decl::ExprStmt(e) => Decl::ExprStmt(e.copy()),
            Decl::IfOnlyStmt(d) => Decl::IfOnlyStmt(d.copy()),
            Decl::LoopStmt(d) => Decl::LoopStmt(d.copy()),
            Decl::FnDeclStmt(d) => Decl::FnDeclStmt(d.copy()),
            Decl::BreakStmt => Decl::BreakStmt,
            Decl::ReturnStmt(e) => Decl::ReturnStmt(
                match e {
                    Some(x) => Some(x.copy()),
                    None => None,
                },
            ),
            Decl::WaitStmt(x) => Decl::WaitStmt(copy_string(x)),
            Decl::PostStmt(x) => Decl::PostStmt(copy_string(x)),
            Decl::YieldStmt => Decl::YieldStmt,
        }
    }

    /// Appends the printed form of this declaration.
    pub fn push_text(&self, s: &mut String)
        ensures
            final(s)@ == old(s)@ + decl_text(self@),
        decreases self,
    {
        let ghost g = s@;
        match self {
            Decl::LetStmt(d) => {
                push_str(s, "let ");
                push_string(s, &d.ident);
                match &d.type_ann {
                    Some(t) => {
                        push_str(s, " : ");
                        t.push_text(s);
                    },
                    None => {},
                }
                push_str(s, " = ");
                d.expr.push_text(s);
                assert(s@ =~= g + decl_text(self@));
            },
            Decl::AssignStmt(d) => {
                push_string(s, &d.ident);
                push_str(s, " = ");
                d.expr.push_text(s);
                assert(s@ =~= g + decl_text(self@));
            },
            Decl::ExprStmt(e) => e.push_text(s),
            Decl::IfOnlyStmt(d) => d.push_text(s),
            Decl::LoopStmt(l) => {
                push_str(s, "loop ");
                match &l.cond {
                    Some(c) => c.push_text(s),
                    None => {},
                }
                push_char(s, ' ');
                push_char(s, '{');
                push_char(s, ' ');
                l.body.push_text(s);
                push_char(s, ' ');
                push_char(s, '}');
                assert(s@ =~= g + decl_text(self@));
            },
            Decl::FnDeclStmt(f) => {
                push_str(s, "fn ");
                push_string(s, &f.name);
                push_char(s, ' ');
                push_char(s, '(');
                push_params_text(&f.params, s);
                push_char(s, ')');
                push_char(s, ' ');
                push_char(s, '{');
                push_char(s, ' ');
                f.body.push_text(s);
                push_char(s, ' ');
                push_char(s, '}');
                assert(s@ =~= g + decl_text(self@));
            },
            Decl::BreakStmt => push_str(s, "break"),
            Decl::ReturnStmt(e) => match e {
                Some(x) => {
                    push_str(s, "return ");
                    x.push_text(s);
                    assert(s@ =~= g + decl_text(self@));
                },
                None => push_str(s, "return"),
            },
            Decl::WaitStmt(x) => {
                push_str(s, "wait ");
                push_string(s, x);
                assert(s@ =~= g + decl_text(self@));
            },
            Decl::PostStmt(x) => {
                push_str(s, "post ");
                push_string(s, x);
                assert(s@ =~= g + decl_text(self@));
            },
            Decl::YieldStmt => push_str(s, "yield"),
        }
    }

    /// The printed form of this declaration.
    pub fn to_string(&self) -> (r: String)
        ensures
            r@ == decl_text(self@),
    {
        let mut s = String::new();
        self.push_text(&mut s);
        assert(Seq::<char>::empty() + decl_text(self@) =~= decl_text(self@));
        s
    }
}

impl BlockSeq {
    /// A copy of this block.
    pub fn copy(&self) -> (r: BlockSeq)
        ensures
            r@ == self@,
        decreases self,
    {
        let last = match &self.last_expr {
            Some(e) => Some(Rc::new((**e).copy())),
            None => None,
        };
        BlockSeq { decls: copy_decls(&self.decls), last_expr: last, symbols: copy_strings(&self.symbols) }
    }

    /// Appends the printed form of this block: each declaration followed by
    /// ";", then the last expression, if any.
    pub fn push_text(&self, s: &mut String)
        ensures
            final(s)@ == old(s)@ + block_text(self@),
        decreases self,
    {
        let ghost g = s@;
        let mut i: usize = 0;
        proof { lemma_decls_view(self.decls@); }
        while i < self.decls.len()
            invariant
                i <= self.decls.len(),
                decls_view(self.decls@).len() == self.decls@.len(),
                forall|j: int| 0 <= j < self.decls@.len() ==> decls_view(self.decls@)[j] == (#[trigger] self.decls@[j]).view_decl(),
                s@ == g + decls_text(decls_view(self.decls@).take(i as int)),
            decreases self.decls.len() - i,
        {
            proof {
                assert(decreases_to!(self => self.decls@[i as int]));
            }
            self.decls[i].push_text(s);
            push_char(s, ';');
            proof {
                let dv = decls_view(self.decls@);
                let t1 = dv.take(i as int + 1);
                assert(t1.drop_last() =~= dv.take(i as int));
                assert(t1.last() == dv[i as int]);
                assert(s@ =~= g + decls_text(t1));
            }
            i = i + 1;
        }
        assert(decls_view(self.decls@).take(self.decls.len() as int) =~= decls_view(self.decls@));
        match &self.last_expr {
            Some(e) => {
                (**e).push_text(s);
            },
            None => {},
        }
        assert(s@ =~= g + block_text(self@));
    }

    /// The printed form of this block.
    pub fn to_string(&self) -> (r: String)
        ensures
            r@ == block_text(self@),
    {
        let mut s = String::new();
        self.push_text(&mut s);
        assert(Seq::<char>::empty() + block_text(self@) =~= block_text(self@));
        s
    }
}


/// What converting a declaration to an expression gives: the expression of
/// an expression statement, or the message of the error for any other
/// declaration.
pub open spec fn to_expr_spec(d: SDecl) -> Result<SExpr, Seq<char>> {
    match d {
        SDecl::ExprStmt(e) => Ok(e),
        SDecl::Let(..) => Err(seq!['\''] + decl_text(d) + "' is not an expression"@),
        SDecl::Assign(..) => Err(seq!['\''] + decl_text(d) + "' is not an expression"@),
        SDecl::IfOnly(_) => Err("if without else branch is not an expression"@),
        SDecl::FnDecl(_) => Err("Function declaration is not an expression"@),
        SDecl::Loop(_) => Err("loop is not an expression"@),
        SDecl::Break => Err("break is not an expression"@),
        SDecl::Return(_) => Err("return is not an expression"@),
        SDecl::Wait(_) => Err("wait is not an expression"@),
        SDecl::Post(_) => Err("post is not an expression"@),
        SDecl::Yield => Err("yield is not an expression"@),
    }
}

/// What converting a declaration to a block gives.
pub open spec fn to_block_spec(d: SDecl) -> Result<SBlock, Seq<char>> {
    match d {
        SDecl::ExprStmt(SExpr::Block(b)) => Ok(b),
        _ => Err("Expected block but got '"@ + decl_text(d) + seq!['\'']),
    }
}

pub open spec fn expr_result_is(r: Result<Expr, ParseError>, s: Result<SExpr, Seq<char>>) -> bool {
    match (r, s) {
        (Ok(e), Ok(x)) => e@ == x,
        (Err(e), Err(m)) => e@ == m,
        _ => false,
    }
}

pub open spec fn block_result_is(r: Result<BlockSeq, ParseError>, s: Result<SBlock, Seq<char>>) -> bool {
    match (r, s) {
        (Ok(e), Ok(x)) => e@ == x,
        (Err(e), Err(m)) => e@ == m,
        _ => false,
    }
}

impl Decl {
    /// The error for a declaration that is not an expression statement.
    fn not_expr_error(&self) -> (r: ParseError)
        requires
            !(self@ is ExprStmt),
        ensures
            to_expr_spec(self@) == Err::<SExpr, Seq<char>>(r@),
    {
        match self {
            Decl::LetStmt(_) | Decl::AssignStmt(_) => {
                let mut m = String::new();
                push_char(&mut m, '\'');
                self.push_text(&mut m);
                push_str(&mut m, "' is not an expression");
                assert(m@ =~= seq!['\''] + decl_text(self@) + "' is not an expression"@);
                ParseError::from_msg(m)
            },
            Decl::IfOnlyStmt(_) => ParseError::new("if without else branch is not an expression"),
            Decl::FnDeclStmt(_) => ParseError::new("Function declaration is not an expression"),
            Decl::LoopStmt(_) => ParseError::new("loop is not an expression"),
            Decl::BreakStmt => ParseError::new("break is not an expression"),
            Decl::ReturnStmt(_) => ParseError::new("return is not an expression"),
            Decl::WaitStmt(_) => ParseError::new("wait is not an expression"),
            Decl::PostStmt(_) => ParseError::new("post is not an expression"),
            Decl::YieldStmt => ParseError::new("yield is not an expression"),
            Decl::ExprStmt(_) => ParseError::new(""),
        }
    }

    /// The expression of an expression statement; any other declaration is
    /// an error saying that it is not an expression.
    pub fn to_expr(&self) -> (r: Result<Expr, ParseError>)
        ensures
            expr_result_is(r, to_expr_spec(self@)),
    {
        match self {
            Decl::ExprStmt(e) => Ok(e.copy()),
            _ => Err(self.not_expr_error()),
        }
    }

    /// `to_expr` that consumes the declaration.
    pub fn into_expr(self) -> (r: Result<Expr, ParseError>)
        ensures
            expr_result_is(r, to_expr_spec(self@)),
    {
        match self {
            Decl::ExprStmt(e) => Ok(e),
            _ => Err(self.not_expr_error()),
        }
    }

    /// The block of a block expression statement; anything else is an error.
    pub fn to_block(&self) -> (r: Result<BlockSeq, ParseError>)
        ensures
            block_result_is(r, to_block_spec(self@)),
    {
        if let Decl::ExprStmt(Expr::BlockExpr(seq)) = self {
            return Ok(seq.copy());
        }
        Err(self.not_block_error())
    }

    /// `to_block` that consumes the declaration.
    pub fn into_block(self) -> (r: Result<BlockSeq, ParseError>)
        ensures
            block_result_is(r, to_block_spec(self@)),
    {
        if let Decl::ExprStmt(Expr::BlockExpr(seq)) = self {
            return Ok(seq);
        }
        Err(self.not_block_error())
    }

    fn not_block_error(&self) -> (r: ParseError)
        ensures
            !(self@ matches SDecl::ExprStmt(SExpr::Block(_))) ==> to_block_spec(self@) == Err::<SBlock, Seq<char>>(r@),
    {
        let mut m = lit("Expected block but got '");
        self.push_text(&mut m);
        push_char(&mut m, '\'');
        assert(m@ =~= "Expected block but got '"@ + decl_text(self@) + seq!['\'']);
        ParseError::from_msg(m)
    }

    /// Whether this declaration must be treated as a statement though no
    /// semicolon ends it: an if without else.
    pub fn is_stmt_with_no_semi(&self) -> (r: bool)
        ensures
            r == (self@ is IfOnly),
    {
        matches!(self, Decl::IfOnlyStmt(_))
    }
}

} // verus!
