//! The compiler from the syntax tree to bytecode. Each function appends the
//! code that `codegen` states for its piece of the tree.
use crate::bytecode::{code_view, BinOp, ByteCode, FrameType, SByteCode, UnOp, Value};
use crate::codegen::{
    bc_binop, bc_unop, law_program_shape, c_args, c_block, c_body, c_call, c_decl, c_decls, c_expr, c_if_else, c_loop,
    c_program, len_args, len_block, len_body, len_call, len_decl, len_decls, len_expr, len_if_else,
    len_loop, lemma_len_args, lemma_len_block, lemma_len_call, lemma_len_decl, lemma_len_decls,
    lemma_len_expr, lemma_len_if_else, lemma_len_loop, no_value_builtin, param_names,
};
use crate::parser::Parser;
use crate::structs::{
    exprs_view, decls_view, lemma_decls_view, lemma_exprs_view, BinOpType, BlockSeq, Decl, Expr,
    FnCallData, FnDeclData, IfElseData, LoopData, ParseError, SBlock, SDecl, SExpr, UnOpType,
};
use crate::text::{copy_string, lit, push_string};
use crate::structs::parse_error_text;
use crate::type_checker::{TypeChecker, TypeErrors};
use crate::typing::{errs_text, type_of_program, SErrs};
use crate::grammar::parse_source;
use crate::structs::SType;
use vstd::prelude::*;

verus! {

pub struct Compiler {
    program: BlockSeq,
}

#[derive(Debug, PartialEq)]
pub struct CompileError {
    msg: String,
}

impl View for CompileError {
    type V = Seq<char>;

    /// The message of the error.
    closed spec fn view(&self) -> Seq<char> {
        self.msg@
    }
}

impl CompileError {
    pub fn new(err: &str) -> (r: CompileError)
        ensures
            r@ == err@,
    {
        CompileError { msg: lit(err) }
    }

    /// The printed form of the error: `[CompileError] -  ` and the message.
    pub fn to_string(&self) -> (r: String)
        ensures
            r@ == "[CompileError] -  "@ + self@,
    {
        let mut s = lit("[CompileError] -  ");
        push_string(&mut s, &self.msg);
        s
    }
}

/// Whether a length is known: the exact length where it fits in a `usize`,
/// `None` where it does not.
pub open spec fn fits(o: Option<usize>, n: nat) -> bool {
    match o {
        Some(x) => x as nat == n,
        None => n > usize::MAX,
    }
}

pub open spec fn brk_view(brk: Option<usize>) -> Option<int> {
    match brk {
        Some(t) => Some(t as int),
        None => None,
    }
}

fn plus(a: Option<usize>, b: Option<usize>, Ghost(na): Ghost<nat>, Ghost(nb): Ghost<nat>) -> (r: Option<usize>)
    requires
        fits(a, na),
        fits(b, nb),
    ensures
        fits(r, na + nb),
{
    match (a, b) {
        (Some(x), Some(y)) => x.checked_add(y),
        _ => None,
    }
}

fn plus_k(a: Option<usize>, k: usize, Ghost(na): Ghost<nat>) -> (r: Option<usize>)
    requires
        fits(a, na),
    ensures
        fits(r, na + k as nat),
{
    match a {
        Some(x) => x.checked_add(k),
        None => None,
    }
}

/// Appends one instruction.
fn emit(arr: &mut Vec<ByteCode>, b: ByteCode)
    ensures
        code_view(final(arr)@) == code_view(old(arr)@).push(b@),
        final(arr)@.len() == old(arr)@.len() + 1,
{
    arr.push(b);
    assert(code_view(arr@) =~= code_view(old(arr)@).push(b@));
}

/// Whether `name` is one of the built-ins that push no value.
fn is_no_value_builtin(name: &String) -> (r: bool)
    ensures
        r == no_value_builtin(name@),
{
    let v = crate::text::chars_of(name.as_str());
    proof {
        assert(v@.subrange(0, v@.len() as int) =~= name@);
    }
    let n = v.len();
    crate::lexer::range_is(&v, 0, n, "println") || crate::lexer::range_is(&v, 0, n, "print")
        || crate::lexer::range_is(&v, 0, n, "sem_set")
}

fn bc_binop_exec(op: BinOpType) -> (r: BinOp)
    ensures
        r == bc_binop(op),
{
    match op {
        BinOpType::Add => BinOp::Add,
        BinOpType::Sub => BinOp::Sub,
        BinOpType::Mul => BinOp::Mul,
        BinOpType::Div => BinOp::Div,
        BinOpType::Gt => BinOp::Gt,
        BinOpType::Lt => BinOp::Lt,
        BinOpType::LogicalEq => BinOp::Eq,
        BinOpType::LogicalAnd => BinOp::And,
        BinOpType::LogicalOr => BinOp::Or,
    }
}

fn bc_unop_exec(op: UnOpType) -> (r: UnOp)
    ensures
        r == bc_unop(op),
{
    match op {
        UnOpType::Negate => UnOp::Neg,
        UnOpType::Not => UnOp::Not,
    }
}

// ---------------------------------------------------------------------
// Lengths, computed
// ---------------------------------------------------------------------

fn len_of_expr(e: &Expr) -> (r: Option<usize>)
    ensures
        fits(r, len_expr(e@)),
    decreases e,
{
    match e {
        Expr::UnOpExpr(_, x) => plus_k(len_of_expr(x), 1, Ghost(len_expr((**x)@))),
        Expr::BinOpExpr(op, l, r) => {
            let k: usize = if matches!(op, BinOpType::LogicalAnd) || matches!(op, BinOpType::LogicalOr) { 3 } else { 1 };
            let s = plus(len_of_expr(l), len_of_expr(r), Ghost(len_expr((**l)@)), Ghost(len_expr((**r)@)));
            plus_k(s, k, Ghost(len_expr((**l)@) + len_expr((**r)@)))
        },
        Expr::BlockExpr(b) => len_of_block(b),
        Expr::IfElseExpr(d) => len_of_if_else(d),
        Expr::FnCallExpr(c) => len_of_call(c),
        Expr::SpawnExpr(c) => plus_k(len_of_call(c), 4, Ghost(len_call(c.view_call()))),
        Expr::JoinExpr(_) => Some(2),
        _ => Some(1),
    }
}

fn len_of_args(v: &Vec<Expr>) -> (r: Option<usize>)
    ensures
        fits(r, len_args(exprs_view(v@))),
    decreases v,
{
    let mut acc: Option<usize> = Some(0);
    let mut i: usize = 0;
    proof {
        lemma_exprs_view(v@);
    }
    while i < v.len()
        invariant
            i <= v.len(),
            exprs_view(v@).len() == v@.len(),
            forall|j: int| 0 <= j < v@.len() ==> exprs_view(v@)[j] == (#[trigger] v@[j]).view_expr(),
            fits(acc, len_args(exprs_view(v@).take(i as int))),
        decreases v.len() - i,
    {
        proof {
            assert(decreases_to!(v => v@[i as int]));
            let ev = exprs_view(v@);
            assert(ev.take(i as int + 1).drop_last() =~= ev.take(i as int));
        }
        acc = plus(acc, len_of_expr(&v[i]), Ghost(len_args(exprs_view(v@).take(i as int))), Ghost(len_expr(v@[i as int]@)));
        i = i + 1;
    }
    assert(exprs_view(v@).take(v.len() as int) =~= exprs_view(v@));
    acc
}

fn len_of_call(c: &FnCallData) -> (r: Option<usize>)
    ensures
        fits(r, len_call(c.view_call())),
    decreases c,
{
    let k: usize = if is_no_value_builtin(&c.name) { 3 } else { 2 };
    plus_k(len_of_args(&c.args), k, Ghost(len_args(exprs_view(c.args@))))
}

fn len_of_if_else(d: &IfElseData) -> (r: Option<usize>)
    ensures
        fits(r, len_if_else(d@)),
    decreases d,
{
    let a = plus(len_of_expr(&d.cond), len_of_block(&d.if_blk), Ghost(len_expr(d.cond@)), Ghost(len_block(d.if_blk@)));
    let ghost na = len_expr(d.cond@) + len_block(d.if_blk@);
    let a = plus_k(a, 2, Ghost(na));
    match &d.else_blk {
        Some(b) => plus(a, len_of_block(b), Ghost(na + 2), Ghost(len_block(b@))),
        None => plus_k(a, 1, Ghost(na + 2)),
    }
}

fn len_of_block(b: &BlockSeq) -> (r: Option<usize>)
    ensures
        fits(r, len_block(b@)),
    decreases b,
{
    let k: usize = if b.symbols.len() > 0 { 2 } else { 0 };
    let d = plus_k(len_of_decls(&b.decls), k, Ghost(len_decls(decls_view(b.decls@))));
    let ghost nd: nat = len_decls(decls_view(b.decls@)) + k as nat;
    match &b.last_expr {
        Some(e) => plus(d, len_of_expr(e), Ghost(nd), Ghost(len_expr((**e)@))),
        None => plus_k(d, 1, Ghost(nd)),
    }
}

fn len_of_decls(v: &Vec<Decl>) -> (r: Option<usize>)
    ensures
        fits(r, len_decls(decls_view(v@))),
    decreases v,
{
    let mut acc: Option<usize> = Some(0);
    let mut i: usize = 0;
    proof {
        lemma_decls_view(v@);
    }
    while i < v.len()
        invariant
            i <= v.len(),
            decls_view(v@).len() == v@.len(),
            forall|j: int| 0 <= j < v@.len() ==> decls_view(v@)[j] == (#[trigger] v@[j]).view_decl(),
            fits(acc, len_decls(decls_view(v@).take(i as int))),
        decreases v.len() - i,
    {
        proof {
            assert(decreases_to!(v => v@[i as int]));
            let dv = decls_view(v@);
            assert(dv.take(i as int + 1).drop_last() =~= dv.take(i as int));
        }
        let one = plus_k(len_of_decl(&v[i]), 1, Ghost(len_decl(v@[i as int]@)));
        acc = plus(acc, one, Ghost(len_decls(decls_view(v@).take(i as int))), Ghost(len_decl(v@[i as int]@) + 1));
        i = i + 1;
    }
    assert(decls_view(v@).take(v.len() as int) =~= decls_view(v@));
    acc
}

fn len_of_loop(l: &LoopData) -> (r: Option<usize>)
    ensures
        fits(r, len_loop(l@)),
    decreases l,
{
    let c = match &l.cond {
        Some(e) => plus_k(len_of_expr(e), 1, Ghost(len_expr(e@))),
        None => Some(0),
    };
    let ghost nc: nat = match &l.cond {
        Some(e) => len_expr(e@) + 1,
        None => 0,
    };
    let s = plus(c, len_of_block(&l.body), Ghost(nc), Ghost(len_block(l.body@)));
    plus_k(s, 3, Ghost(nc + len_block(l.body@)))
}

fn len_of_decl(d: &Decl) -> (r: Option<usize>)
    ensures
        fits(r, len_decl(d@)),
    decreases d,
{
    match d {
        Decl::ExprStmt(e) => len_of_expr(e),
        Decl::LetStmt(x) => plus_k(len_of_expr(&x.expr), 2, Ghost(len_expr(x.expr@))),
        Decl::AssignStmt(x) => plus_k(len_of_expr(&x.expr), 2, Ghost(len_expr(x.expr@))),
        Decl::IfOnlyStmt(x) => len_of_if_else(x),
        Decl::LoopStmt(l) => len_of_loop(l),
        Decl::BreakStmt => Some(1),
        Decl::FnDeclStmt(f) => plus_k(len_of_block(&f.body), 5, Ghost(len_block(f.body@))),
        Decl::ReturnStmt(e) => match e {
            Some(x) => plus_k(len_of_expr(x), 1, Ghost(len_expr(x@))),
            None => Some(2),
        },
        Decl::WaitStmt(_) => Some(3),
        Decl::PostStmt(_) => Some(3),
        Decl::YieldStmt => Some(2),
    }
}

/// The value of a length known to fit.
fn known(o: Option<usize>, Ghost(n): Ghost<nat>) -> (r: usize)
    requires
        fits(o, n),
        n <= usize::MAX,
    ensures
        r == n,
{
    match o {
        Some(x) => x,
        None => 0,
    }
}

// ---------------------------------------------------------------------
// Code generation
// ---------------------------------------------------------------------

impl Compiler {
    pub fn new(program: BlockSeq) -> (r: Compiler)
        ensures
            r.program_view() == program@,
    {
        Compiler { program }
    }

    pub closed spec fn program_view(&self) -> SBlock {
        self.program@
    }

    /// Compiles an expression, appending its code to `arr`.
    pub fn compile_expr(e: &Expr, arr: &mut Vec<ByteCode>, brk: Option<usize>)
        requires
            old(arr)@.len() + len_expr(e@) < usize::MAX,
        ensures
            code_view(final(arr)@) == code_view(old(arr)@) + c_expr(e@, old(arr)@.len() as int, brk_view(brk)),
            final(arr)@.len() == old(arr)@.len() + len_expr(e@),
            code_view(final(arr)@).subrange(0, old(arr)@.len() as int) == code_view(old(arr)@),
        decreases e, 1nat,
    {
        proof {
            lemma_len_expr(e@, old(arr)@.len() as int, brk_view(brk));
        }
        let ghost g = code_view(arr@);
        let base = arr.len();
        proof {
            lemma_len_expr(e@, base as int, brk_view(brk));
        }
        match e {
            Expr::Integer(v) => emit(arr, ByteCode::LDC(Value::Int(*v))),
            Expr::Float(f) => emit(arr, ByteCode::LDC(Value::Float(f.copy()))),
            Expr::Bool(b) => emit(arr, ByteCode::LDC(Value::Bool(*b))),
            Expr::StringLiteral(s) => emit(arr, ByteCode::LDC(Value::String(copy_string(s)))),
            Expr::Symbol(s) => emit(arr, ByteCode::LD(copy_string(s))),
            Expr::UnOpExpr(op, x) => {
                Self::compile_expr(x, arr, brk);
                emit(arr, ByteCode::UNOP(bc_unop_exec(*op)));
                assert(code_view(arr@) =~= g + c_expr(e@, base as int, brk_view(brk)));
            },
            Expr::BinOpExpr(..) => Self::compile_binop(e, arr, brk),
            Expr::BlockExpr(b) => Self::compile_block(b, arr, brk),
            Expr::IfElseExpr(d) => Self::compile_if_else(d, arr, brk),
            Expr::FnCallExpr(c) => Self::compile_fn_call(c, arr, brk),
            Expr::SpawnExpr(..) => Self::compile_spawn(e, arr, brk),
            Expr::JoinExpr(s) => {
                emit(arr, ByteCode::LD(copy_string(s)));
                emit(arr, ByteCode::JOIN);
                assert(code_view(arr@) =~= g + c_expr(e@, base as int, brk_view(brk)));
            },
        }
        assert(code_view(arr@).subrange(0, base as int) =~= g);
    }

    /// Compiles a binary operation: both operands, then the operator; `&&`
    /// and `||` short-circuit as `if l { r } else { false }` and
    /// `if l { true } else { r }`.
    fn compile_binop(e: &Expr, arr: &mut Vec<ByteCode>, brk: Option<usize>)
        requires
            old(arr)@.len() + len_expr(e@) < usize::MAX,
            e@ is BinOp,
        ensures
            code_view(final(arr)@) == code_view(old(arr)@) + c_expr(e@, old(arr)@.len() as int, brk_view(brk)),
            final(arr)@.len() == old(arr)@.len() + len_expr(e@),
        decreases e, 0nat,
    {
        proof {
            lemma_len_expr(e@, old(arr)@.len() as int, brk_view(brk));
        }
        let ghost g = code_view(arr@);
        let base = arr.len();
        match e {
            Expr::BinOpExpr(op, l, r) => {
                proof {
                    lemma_len_expr((**l)@, base as int, brk_view(brk));
                }
                if matches!(op, BinOpType::LogicalAnd) {
                    let ll = known(len_of_expr(l), Ghost(len_expr((**l)@)));
                    let lr = known(len_of_expr(r), Ghost(len_expr((**r)@)));
                    let j = base + ll + lr + 2;
                    Self::compile_expr(l, arr, brk);
                    emit(arr, ByteCode::JOF(j));
                    Self::compile_expr(r, arr, brk);
                    emit(arr, ByteCode::GOTO(j + 1));
                    emit(arr, ByteCode::LDC(Value::Bool(false)));
                    assert(code_view(arr@) =~= g + c_expr(e@, base as int, brk_view(brk)));
                } else if matches!(op, BinOpType::LogicalOr) {
                    let ll = known(len_of_expr(l), Ghost(len_expr((**l)@)));
                    let lr = known(len_of_expr(r), Ghost(len_expr((**r)@)));
                    let j = base + ll + 3;
                    Self::compile_expr(l, arr, brk);
                    emit(arr, ByteCode::JOF(j));
                    emit(arr, ByteCode::LDC(Value::Bool(true)));
                    emit(arr, ByteCode::GOTO(j + lr));
                    Self::compile_expr(r, arr, brk);
                    assert(code_view(arr@) =~= g + c_expr(e@, base as int, brk_view(brk)));
                } else {
                    Self::compile_expr(l, arr, brk);
                    Self::compile_expr(r, arr, brk);
                    emit(arr, ByteCode::BINOP(bc_binop_exec(*op)));
                    assert(code_view(arr@) =~= g + c_expr(e@, base as int, brk_view(brk)));
                }
            },
            _ => {},
        }
    }

    /// Compiles a spawn: SPAWN to the thread's code, a jump over it, and the
    /// thread's code, which pops, makes the call and stops.
    fn compile_spawn(e: &Expr, arr: &mut Vec<ByteCode>, brk: Option<usize>)
        requires
            old(arr)@.len() + len_expr(e@) < usize::MAX,
            e@ is Spawn,
        ensures
            code_view(final(arr)@) == code_view(old(arr)@) + c_expr(e@, old(arr)@.len() as int, brk_view(brk)),
            final(arr)@.len() == old(arr)@.len() + len_expr(e@),
        decreases e, 0nat,
    {
        proof {
            lemma_len_expr(e@, old(arr)@.len() as int, brk_view(brk));
        }
        let ghost g = code_view(arr@);
        let base = arr.len();
        match e {
            Expr::SpawnExpr(c) => {
                let lc = known(len_of_call(c), Ghost(len_call(c.view_call())));
                emit(arr, ByteCode::SPAWN(base + 2));
                emit(arr, ByteCode::GOTO(base + 3 + lc + 1));
                emit(arr, ByteCode::POP);
                Self::compile_fn_call(c, arr, brk);
                emit(arr, ByteCode::DONE);
                assert(code_view(arr@) =~= g + c_expr(e@, base as int, brk_view(brk)));
            },
            _ => {},
        }
    }

    /// Compiles a call: the function, the arguments, CALL, and a unit
    /// constant after a built-in that pushes no value.
    fn compile_fn_call(c: &FnCallData, arr: &mut Vec<ByteCode>, brk: Option<usize>)
        requires
            old(arr)@.len() + len_call(c.view_call()) < usize::MAX,
        ensures
            code_view(final(arr)@) == code_view(old(arr)@) + c_call(c.view_call(), old(arr)@.len() as int, brk_view(brk)),
            final(arr)@.len() == old(arr)@.len() + len_call(c.view_call()),
        decreases c, 0nat,
    {
        proof {
            lemma_len_call(c.view_call(), old(arr)@.len() as int, brk_view(brk));
        }
        let ghost g = code_view(arr@);
        let base = arr.len();
        emit(arr, ByteCode::LD(copy_string(&c.name)));
        let mut i: usize = 0;
        proof {
            lemma_exprs_view(c.args@);
        }
        while i < c.args.len()
            invariant
                i <= c.args.len(),
                arr@.len() == base + 1 + len_args(exprs_view(c.args@).take(i as int)),
                base + len_call(c.view_call()) < usize::MAX,
                exprs_view(c.args@).len() == c.args@.len(),
                forall|j: int| 0 <= j < c.args@.len() ==> exprs_view(c.args@)[j] == (#[trigger] c.args@[j]).view_expr(),
                code_view(arr@) == g.push(SByteCode::LD(c.name@)) + c_args(exprs_view(c.args@).take(i as int), base + 1, brk_view(brk)),
            decreases c.args.len() - i,
        {
            let ghost ev = exprs_view(c.args@);
            proof {
                assert(decreases_to!(c => c.args));
                assert(decreases_to!(c.args => c.args@[i as int]));
                let t1 = ev.take(i as int + 1);
                assert(t1.drop_last() =~= ev.take(i as int));
                lemma_args_prefix(ev, i as int + 1);
                lemma_len_args(t1, base + 1, brk_view(brk));
            }
            Self::compile_expr(&c.args[i], arr, brk);
            proof {
                let t1 = ev.take(i as int + 1);
                assert(t1.drop_last() =~= ev.take(i as int));
                assert(t1.last() == ev[i as int]);
            }
            i = i + 1;
        }
        assert(exprs_view(c.args@).take(c.args.len() as int) =~= exprs_view(c.args@));
        proof {
            lemma_exprs_view(c.args@);
        }
        emit(arr, ByteCode::CALL(c.args.len()));
        if is_no_value_builtin(&c.name) {
            emit(arr, ByteCode::LDC(Value::Unit));
        }
        assert(code_view(arr@) =~= g + c_call(c.view_call(), base as int, brk_view(brk)));
    }

    /// Compiles an if-else (or an if without else, whose missing branch
    /// pushes unit): condition, JOF past the if block, the if block, GOTO
    /// past the else part, the else part.
    fn compile_if_else(d: &IfElseData, arr: &mut Vec<ByteCode>, brk: Option<usize>)
        requires
            old(arr)@.len() + len_if_else(d@) < usize::MAX,
        ensures
            code_view(final(arr)@) == code_view(old(arr)@) + c_if_else(d@, old(arr)@.len() as int, brk_view(brk)),
            final(arr)@.len() == old(arr)@.len() + len_if_else(d@),
        decreases d, 0nat,
    {
        proof {
            lemma_len_if_else(d@, old(arr)@.len() as int, brk_view(brk));
        }
        let ghost g = code_view(arr@);
        let base = arr.len();
        let lc = known(len_of_expr(&d.cond), Ghost(len_expr(d.cond@)));
        let li = known(len_of_block(&d.if_blk), Ghost(len_block(d.if_blk@)));
        let ib = base + lc + 1;
        let j = ib + li + 1;
        proof {
            lemma_len_expr(d.cond@, base as int, brk_view(brk));
            lemma_len_block(d.if_blk@, ib as int, brk_view(brk));
        }
        Self::compile_expr(&d.cond, arr, brk);
        emit(arr, ByteCode::JOF(j));
        Self::compile_block(&d.if_blk, arr, brk);
        match &d.else_blk {
            Some(b) => {
                let le = known(len_of_block(b), Ghost(len_block(b@)));
                emit(arr, ByteCode::GOTO(j + le));
                Self::compile_block(b, arr, brk);
            },
            None => {
                emit(arr, ByteCode::GOTO(j + 1));
                emit(arr, ByteCode::LDC(Value::Unit));
            },
        }
        assert(code_view(arr@) =~= g + c_if_else(d@, base as int, brk_view(brk)));
    }

    /// Compiles a block as a value.
    fn compile_block(b: &BlockSeq, arr: &mut Vec<ByteCode>, brk: Option<usize>)
        requires
            old(arr)@.len() + len_block(b@) < usize::MAX,
        ensures
            code_view(final(arr)@) == code_view(old(arr)@) + c_block(b@, old(arr)@.len() as int, brk_view(brk)),
            final(arr)@.len() == old(arr)@.len() + len_block(b@),
        decreases b, 1nat,
    {
        proof {
            lemma_len_block(b@, old(arr)@.len() as int, brk_view(brk));
        }
        let ghost g = code_view(arr@);
        let base = arr.len();
        Self::compile_block_body(b, arr, brk);
        if b.last_expr.is_none() {
            emit(arr, ByteCode::LDC(Value::Unit));
        }
        proof {
            lemma_len_block(b@, base as int, brk_view(brk));
            if b@.last is None {
                assert(c_block(b@, base as int, brk_view(brk)) =~= c_body(b@, base as int, brk_view(brk)).push(
                    SByteCode::LDC(crate::bytecode::SValue::Unit)));
            }
        }
        assert(code_view(arr@) =~= g + c_block(b@, base as int, brk_view(brk)));
    }

    /// Compiles a block without the unit constant that a block with no last
    /// expression ends with.
    fn compile_block_body(b: &BlockSeq, arr: &mut Vec<ByteCode>, brk: Option<usize>)
        requires
            old(arr)@.len() + len_block(b@) < usize::MAX,
        ensures
            code_view(final(arr)@) == code_view(old(arr)@) + c_body(b@, old(arr)@.len() as int, brk_view(brk)),
            final(arr)@.len() == old(arr)@.len() + len_body(b@),
        decreases b, 0nat,
    {
        proof {
            lemma_len_block(b@, old(arr)@.len() as int, brk_view(brk));
        }
        let ghost g = code_view(arr@);
        let base = arr.len();
        let has = b.symbols.len() > 0;
        if has {
            emit(arr, ByteCode::ENTERSCOPE(crate::structs::copy_strings(&b.symbols)));
        }
        let ghost g1 = code_view(arr@);
        let db = arr.len();
        proof {
            lemma_len_decls(decls_view(b.decls@), db as int, brk_view(brk));
        }
        Self::compile_decls(&b.decls, arr, brk);
        match &b.last_expr {
            Some(e) => {
                Self::compile_expr(e, arr, brk);
            },
            None => {},
        }
        if has {
            emit(arr, ByteCode::EXITSCOPE);
        }
        proof {
            let full = c_block(b@, base as int, brk_view(brk));
            if b@.last is None {
                assert(full.drop_last() =~= c_body(b@, base as int, brk_view(brk)));
            }
        }
        assert(code_view(arr@) =~= g + c_body(b@, base as int, brk_view(brk)));
    }

    fn compile_decls(v: &Vec<Decl>, arr: &mut Vec<ByteCode>, brk: Option<usize>)
        requires
            old(arr)@.len() + len_decls(decls_view(v@)) < usize::MAX,
        ensures
            code_view(final(arr)@) == code_view(old(arr)@) + c_decls(decls_view(v@), old(arr)@.len() as int, brk_view(brk)),
            final(arr)@.len() == old(arr)@.len() + len_decls(decls_view(v@)),
        decreases v, 0nat,
    {
        proof {
            lemma_len_decls(decls_view(v@), old(arr)@.len() as int, brk_view(brk));
        }
        let ghost g = code_view(arr@);
        let base = arr.len();
        let mut i: usize = 0;
        proof {
            lemma_decls_view(v@);
        }
        while i < v.len()
            invariant
                i <= v.len(),
                arr@.len() == base + len_decls(decls_view(v@).take(i as int)),
                base + len_decls(decls_view(v@)) < usize::MAX,
                decls_view(v@).len() == v@.len(),
                forall|j: int| 0 <= j < v@.len() ==> decls_view(v@)[j] == (#[trigger] v@[j]).view_decl(),
                code_view(arr@) == g + c_decls(decls_view(v@).take(i as int), base as int, brk_view(brk)),
            decreases v.len() - i,
        {
            let ghost dv = decls_view(v@);
            proof {
                assert(decreases_to!(v => v@[i as int]));
                let t1 = dv.take(i as int + 1);
                assert(t1.drop_last() =~= dv.take(i as int));
                lemma_decls_prefix(dv, i as int + 1);
                lemma_len_decl(dv[i as int], base + len_decls(dv.take(i as int)), brk_view(brk));
            }
            Self::compile_decl(&v[i], arr, brk);
            emit(arr, ByteCode::POP);
            proof {
                let t1 = dv.take(i as int + 1);
                assert(t1.drop_last() =~= dv.take(i as int));
                assert(t1.last() == dv[i as int]);
                assert(code_view(arr@) =~= g + c_decls(t1, base as int, brk_view(brk)));
            }
            i = i + 1;
        }
        assert(decls_view(v@).take(v.len() as int) =~= decls_view(v@));
    }

    /// Compiles a loop. Breaks inside it jump to its end, which the length
    /// of its parts determines.
    fn compile_loop(l: &LoopData, arr: &mut Vec<ByteCode>)
        requires
            old(arr)@.len() + len_loop(l@) < usize::MAX,
        ensures
            code_view(final(arr)@) == code_view(old(arr)@) + c_loop(l@, old(arr)@.len() as int),
            final(arr)@.len() == old(arr)@.len() + len_loop(l@),
        decreases l, 0nat,
    {
        proof {
            lemma_len_loop(l@, old(arr)@.len() as int);
        }
        let ghost g = code_view(arr@);
        let base = arr.len();
        let cl: usize = match &l.cond {
            Some(c) => known(len_of_expr(c), Ghost(len_expr(c@))) + 1,
            None => 0,
        };
        let lb = known(len_of_block(&l.body), Ghost(len_block(l.body@)));
        let bb = base + cl;
        let end = bb + lb + 2;
        match &l.cond {
            Some(c) => {
                proof {
                    lemma_len_expr(c@, base as int, Some(end as int));
                }
                Self::compile_expr(c, arr, Some(end));
                emit(arr, ByteCode::JOF(end));
            },
            None => {},
        }
        proof {
            lemma_len_block(l.body@, bb as int, Some(end as int));
        }
        Self::compile_block(&l.body, arr, Some(end));
        emit(arr, ByteCode::POP);
        emit(arr, ByteCode::GOTO(base));
        emit(arr, ByteCode::LDC(Value::Unit));
        assert(code_view(arr@) =~= g + c_loop(l@, base as int));
    }

    /// Compiles a function declaration: a closure whose code follows a jump
    /// over it, bound to the function's name.
    fn compile_fn_decl(f: &FnDeclData, arr: &mut Vec<ByteCode>, brk: Option<usize>)
        requires
            old(arr)@.len() + len_block(f.body@) + 5 < usize::MAX,
        ensures
            code_view(final(arr)@) == code_view(old(arr)@) + c_decl(SDecl::FnDecl(f@), old(arr)@.len() as int, brk_view(brk)),
            final(arr)@.len() == old(arr)@.len() + len_block(f.body@) + 5,
        decreases f, 0nat,
    {
        proof {
            lemma_len_decl(SDecl::FnDecl(f@), old(arr)@.len() as int, brk_view(brk));
        }
        let ghost g = code_view(arr@);
        let base = arr.len();
        let lb = known(len_of_block(&f.body), Ghost(len_block(f.body@)));
        let mut names: Vec<String> = Vec::new();
        let mut i: usize = 0;
        while i < f.params.len()
            invariant
                i <= f.params.len(),
                crate::bytecode::names_view(names@) =~= param_names(crate::structs::params_view(f.params@)).take(i as int),
            decreases f.params.len() - i,
        {
            let ghost old_names = names@;
            names.push(copy_string(&f.params[i].name));
            proof {
                assert(crate::bytecode::names_view(names@) =~= crate::bytecode::names_view(old_names).push(f.params@[i as int].name@));
            }
            i = i + 1;
        }
        assert(param_names(crate::structs::params_view(f.params@)).take(f.params.len() as int) =~= param_names(
            crate::structs::params_view(f.params@)));
        emit(arr, ByteCode::LDF(base + 2, names));
        emit(arr, ByteCode::GOTO(base + 2 + lb + 1));
        proof {
            lemma_len_block(f.body@, base as int + 2, brk_view(brk));
        }
        Self::compile_block(&f.body, arr, brk);
        emit(arr, ByteCode::RESET(FrameType::CallFrame));
        emit(arr, ByteCode::ASSIGN(copy_string(&f.name)));
        emit(arr, ByteCode::LDC(Value::Unit));
        assert(code_view(arr@) =~= g + c_decl(SDecl::FnDecl(f@), base as int, brk_view(brk)));
    }

    /// Compiles a declaration. Every declaration leaves one value, which the
    /// enclosing block pops.
    fn compile_decl(d: &Decl, arr: &mut Vec<ByteCode>, brk: Option<usize>)
        requires
            old(arr)@.len() + len_decl(d@) < usize::MAX,
        ensures
            code_view(final(arr)@) == code_view(old(arr)@) + c_decl(d@, old(arr)@.len() as int, brk_view(brk)),
            final(arr)@.len() == old(arr)@.len() + len_decl(d@),
        decreases d, 0nat,
    {
        proof {
            lemma_len_decl(d@, old(arr)@.len() as int, brk_view(brk));
        }
        let ghost g = code_view(arr@);
        let base = arr.len();
        match d {
            Decl::ExprStmt(e) => Self::compile_expr(e, arr, brk),
            Decl::LetStmt(stmt) => {
                Self::compile_expr(&stmt.expr, arr, brk);
                emit(arr, ByteCode::ASSIGN(copy_string(&stmt.ident)));
                emit(arr, ByteCode::LDC(Value::Unit));
                assert(code_view(arr@) =~= g + c_decl(d@, base as int, brk_view(brk)));
            },
            Decl::AssignStmt(stmt) => {
                Self::compile_expr(&stmt.expr, arr, brk);
                emit(arr, ByteCode::ASSIGN(copy_string(&stmt.ident)));
                emit(arr, ByteCode::LDC(Value::Unit));
                assert(code_view(arr@) =~= g + c_decl(d@, base as int, brk_view(brk)));
            },
            Decl::IfOnlyStmt(x) => Self::compile_if_else(x, arr, brk),
            Decl::LoopStmt(l) => Self::compile_loop(l, arr),
            Decl::BreakStmt => {
                let t = match brk {
                    Some(t) => t,
                    None => 0,
                };
                emit(arr, ByteCode::GOTO(t));
                assert(code_view(arr@) =~= g + c_decl(d@, base as int, brk_view(brk)));
            },
            Decl::FnDeclStmt(f) => Self::compile_fn_decl(f, arr, brk),
            Decl::ReturnStmt(e) => {
                match e {
                    Some(x) => Self::compile_expr(x, arr, brk),
                    None => emit(arr, ByteCode::LDC(Value::Unit)),
                }
                emit(arr, ByteCode::RESET(FrameType::CallFrame));
                assert(code_view(arr@) =~= g + c_decl(d@, base as int, brk_view(brk)));
            },
            Decl::WaitStmt(s) => {
                emit(arr, ByteCode::LD(copy_string(s)));
                emit(arr, ByteCode::WAIT);
                emit(arr, ByteCode::LDC(Value::Unit));
                assert(code_view(arr@) =~= g + c_decl(d@, base as int, brk_view(brk)));
            },
            Decl::PostStmt(s) => {
                emit(arr, ByteCode::LD(copy_string(s)));
                emit(arr, ByteCode::POST);
                emit(arr, ByteCode::LDC(Value::Unit));
                assert(code_view(arr@) =~= g + c_decl(d@, base as int, brk_view(brk)));
            },
            Decl::YieldStmt => {
                emit(arr, ByteCode::YIELD);
                emit(arr, ByteCode::LDC(Value::Unit));
                assert(code_view(arr@) =~= g + c_decl(d@, base as int, brk_view(brk)));
            },
        }
    }

    /// Compiles the program: the body of its top-level block, then DONE.
    /// The only error is a program whose code would not fit in memory.
    pub fn compile(self) -> (r: Result<Vec<ByteCode>, CompileError>)
        ensures
            match r {
                Ok(code) => code_view(code@) == c_program(self.program_view()) && len_block(self.program_view()) + 2
                    < usize::MAX,
                Err(e) => len_block(self.program_view()) + 2 >= usize::MAX && e@ == "Program too large to compile"@,
            },
            r matches Ok(code) ==> code@.len() > 0 && code@.last() == ByteCode::DONE,
            r matches Ok(code) ==> (self.program_view().symbols.len() > 0 ==> code@.len() >= 3 && code_view(code@)[0]
                == SByteCode::ENTERSCOPE(self.program_view().symbols) && code_view(code@)[code@.len() - 2]
                == SByteCode::EXITSCOPE),
    {
        let n = len_of_block(&self.program);
        match n {
            Some(k) => {
                if k > usize::MAX - 3 {
                    return Err(CompileError::new("Program too large to compile"));
                }
            },
            None => {
                return Err(CompileError::new("Program too large to compile"));
            },
        }
        let mut bytecode: Vec<ByteCode> = Vec::new();
        Self::compile_block_body(&self.program, &mut bytecode, None);
        emit(&mut bytecode, ByteCode::DONE);
        assert(code_view(bytecode@) =~= c_program(self.program_view()));
        proof {
            law_program_shape(self.program_view());
        }
        Ok(bytecode)
    }
}

/// A prefix of the arguments has no more code than all of them.
proof fn lemma_args_prefix(s: Seq<SExpr>, k: int)
    requires
        0 <= k <= s.len(),
    ensures
        len_args(s.take(k)) <= len_args(s),
    decreases s.len() - k,
{
    if k < s.len() {
        lemma_args_prefix(s, k + 1);
        assert(s.take(k + 1).drop_last() =~= s.take(k));
    } else {
        assert(s.take(k) =~= s);
    }
}

/// A prefix of the declarations has no more code than all of them.
proof fn lemma_decls_prefix(s: Seq<SDecl>, k: int)
    requires
        0 <= k <= s.len(),
    ensures
        len_decls(s.take(k)) <= len_decls(s),
    decreases s.len() - k,
{
    if k < s.len() {
        lemma_decls_prefix(s, k + 1);
        assert(s.take(k + 1).drop_last() =~= s.take(k));
    } else {
        assert(s.take(k) =~= s);
    }
}

/// Why turning source text into bytecode failed.
#[derive(Debug)]
pub enum BuildError {
    Parse(ParseError),
    Type(TypeErrors),
    Compile(CompileError),
}

impl BuildError {
    /// The printed form of the error that stopped the build.
    pub fn to_string(&self) -> (r: String)
        ensures
            r@ == match self {
                BuildError::Parse(e) => parse_error_text(e@),
                BuildError::Type(e) => errs_text(e@.errs),
                BuildError::Compile(e) => "[CompileError] -  "@ + e@,
            },
    {
        match self {
            BuildError::Parse(e) => e.to_string(),
            BuildError::Type(e) => e.to_string(),
            BuildError::Compile(e) => e.to_string(),
        }
    }
}

/// Parses the source text, type checks the program if `type_check` holds,
/// and compiles it.
pub fn compile_from_string(inp: &str, type_check: bool) -> (r: Result<Vec<ByteCode>, BuildError>)
    ensures
        match parse_source(inp@) {
            Err(m) => r matches Err(BuildError::Parse(e)) && e@ == m,
            Ok(p) => if type_check && type_of_program(p) is Err {
                r matches Err(BuildError::Type(e)) && type_of_program(p) == Err::<SType, SErrs>(e@)
            } else if len_block(p) + 2 >= usize::MAX {
                r matches Err(BuildError::Compile(e)) && e@ == "Program too large to compile"@
            } else {
                r matches Ok(code) && code_view(code@) == c_program(p)
            },
        },
{
    let parser = Parser::new_from_string(inp);
    let program = match parser.parse() {
        Ok(p) => p,
        Err(e) => {
            return Err(BuildError::Parse(e));
        },
    };
    if type_check {
        let checker = TypeChecker::new(&program);
        match checker.type_check() {
            Ok(_) => {},
            Err(e) => {
                return Err(BuildError::Type(e));
            },
        }
    }
    let compiler = Compiler::new(program);
    match compiler.compile() {
        Ok(code) => Ok(code),
        Err(e) => Err(BuildError::Compile(e)),
    }
}

/// Parses and compiles the source text, without type checking it.
pub fn compile_string(inp: &str) -> (r: Result<Vec<ByteCode>, BuildError>)
    ensures
        match parse_source(inp@) {
            Err(m) => r matches Err(BuildError::Parse(e)) && e@ == m,
            Ok(p) => if len_block(p) + 2 >= usize::MAX {
                r matches Err(BuildError::Compile(e)) && e@ == "Program too large to compile"@
            } else {
                r matches Ok(code) && code_view(code@) == c_program(p)
            },
        },
{
    compile_from_string(inp, false)
}

} // verus!
