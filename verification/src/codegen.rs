//! What the compiler emits, stated as functions of the syntax tree.
//!
//! `c_x(x, base, brk)` is the code for `x` when it starts at address `base`
//! and a `break` inside it jumps to `brk` (`None`: there is no enclosing
//! loop, and the jump goes to address 0). `len_x(x)` is its length, which
//! depends on neither `base` nor `brk`.
use crate::bytecode::{BinOp, FrameType, SByteCode, SValue, UnOp};
use crate::structs::{BinOpType, SBlock, SDecl, SExpr, SFnCall, SFnDecl, SIfElse, SLoop, SParam, UnOpType};
use vstd::prelude::*;

verus! {

/// Built-in functions that push no value: a call to one is followed by a
/// unit constant, so that every call produces a value.
pub open spec fn no_value_builtin(name: Seq<char>) -> bool {
    name == "println"@ || name == "print"@ || name == "sem_set"@
}

pub open spec fn bc_binop(op: BinOpType) -> BinOp {
    match op {
        BinOpType::Add => BinOp::Add,
        BinOpType::Sub => BinOp::Sub,
        BinOpType::Mul => BinOp::Mul,
        BinOpType::Div => BinOp::Div,
        BinOpType::Gt => BinOp::Gt,
        BinOpType::Lt => BinOp::Lt,
        BinOpType::LogicalEq => BinOp::Eq,
        BinOpType::LogicalAnd => BinOp::And,
        BinOpType::LogicalOr => BinOp::Or,
    }
}

pub open spec fn bc_unop(op: UnOpType) -> UnOp {
    match op {
        UnOpType::Negate => UnOp::Neg,
        UnOpType::Not => UnOp::Not,
    }
}

pub open spec fn param_names(ps: Seq<SParam>) -> Seq<Seq<char>> {
    ps.map_values(|p: SParam| p.name)
}

pub open spec fn break_target(brk: Option<int>) -> int {
    match brk {
        Some(t) => t,
        None => 0,
    }
}

// ---------------------------------------------------------------------
// Lengths
// ---------------------------------------------------------------------

pub open spec fn len_expr(e: SExpr) -> nat
    decreases e,
{
    match e {
        SExpr::UnOp(_, x) => len_expr(*x) + 1,
        SExpr::BinOp(op, l, r) => if op == BinOpType::LogicalAnd || op == BinOpType::LogicalOr {
            len_expr(*l) + len_expr(*r) + 3
        } else {
            len_expr(*l) + len_expr(*r) + 1
        },
        SExpr::Block(b) => len_block(b),
        SExpr::IfElse(d) => len_if_else(*d),
        SExpr::FnCall(c) => len_call(c),
        SExpr::Spawn(c) => len_call(c) + 4,
        SExpr::Join(_) => 2,
        _ => 1,
    }
}

pub open spec fn len_args(s: Seq<SExpr>) -> nat
    decreases s,
{
    if s.len() == 0 {
        0
    } else {
        proof {
            assert(decreases_to!(s => s.last()));
        }
        len_args(s.drop_last()) + len_expr(s.last())
    }
}

pub open spec fn len_call(c: SFnCall) -> nat
    decreases c,
{
    len_args(c.args) + 2 + if no_value_builtin(c.name) { 1nat } else { 0nat }
}

pub open spec fn len_if_else(d: SIfElse) -> nat
    decreases d,
{
    len_expr(d.cond) + len_block(d.if_blk) + 2 + match d.else_blk {
        Some(b) => len_block(b),
        None => 1,
    }
}

pub open spec fn len_block(b: SBlock) -> nat
    decreases b,
{
    (if b.symbols.len() > 0 { 2nat } else { 0nat }) + len_decls(b.decls) + match b.last {
        Some(e) => len_expr(*e),
        None => 1,
    }
}

pub open spec fn len_body(b: SBlock) -> nat {
    if b.last is None { (len_block(b) - 1) as nat } else { len_block(b) }
}

pub open spec fn len_decls(s: Seq<SDecl>) -> nat
    decreases s,
{
    if s.len() == 0 {
        0
    } else {
        proof {
            assert(decreases_to!(s => s.last()));
        }
        len_decls(s.drop_last()) + len_decl(s.last()) + 1
    }
}

pub open spec fn len_loop(l: SLoop) -> nat
    decreases l,
{
    (match l.cond {
        Some(c) => len_expr(c) + 1,
        None => 0,
    }) + len_block(l.body) + 3
}

pub open spec fn len_decl(d: SDecl) -> nat
    decreases d,
{
    match d {
        SDecl::ExprStmt(e) => len_expr(e),
        SDecl::Let(_, e, _) => len_expr(e) + 2,
        SDecl::Assign(_, e) => len_expr(e) + 2,
        SDecl::IfOnly(x) => len_if_else(x),
        SDecl::Loop(l) => len_loop(l),
        SDecl::Break => 1,
        SDecl::FnDecl(f) => len_block(f.body) + 5,
        SDecl::Return(e) => match e {
            Some(x) => len_expr(x) + 1,
            None => 2,
        },
        SDecl::Wait(_) => 3,
        SDecl::Post(_) => 3,
        SDecl::Yield => 2,
    }
}

// ---------------------------------------------------------------------
// Code
// ---------------------------------------------------------------------

pub open spec fn c_expr(e: SExpr, base: int, brk: Option<int>) -> Seq<SByteCode>
    decreases e,
{
    match e {
        SExpr::Integer(v) => seq![SByteCode::LDC(SValue::Int(v))],
        SExpr::Float(f) => seq![SByteCode::LDC(SValue::Float(f))],
        SExpr::Bool(b) => seq![SByteCode::LDC(SValue::Bool(b))],
        SExpr::Str(s) => seq![SByteCode::LDC(SValue::Str(s))],
        SExpr::Symbol(s) => seq![SByteCode::LD(s)],
        SExpr::UnOp(op, x) => c_expr(*x, base, brk).push(SByteCode::UNOP(bc_unop(op))),
        SExpr::BinOp(op, l, r) => if op == BinOpType::LogicalAnd {
            // l && r: if l { r } else { false }
            let rb = base + len_expr(*l) + 1;
            let j = rb + len_expr(*r) + 1;
            c_expr(*l, base, brk).push(SByteCode::JOF(j)) + c_expr(*r, rb, brk)
                + seq![SByteCode::GOTO(j + 1), SByteCode::LDC(SValue::Bool(false))]
        } else if op == BinOpType::LogicalOr {
            // l || r: if l { true } else { r }
            let j = base + len_expr(*l) + 3;
            c_expr(*l, base, brk) + seq![
                SByteCode::JOF(j),
                SByteCode::LDC(SValue::Bool(true)),
                SByteCode::GOTO(j + len_expr(*r)),
            ] + c_expr(*r, j, brk)
        } else {
            (c_expr(*l, base, brk) + c_expr(*r, base + len_expr(*l), brk)).push(SByteCode::BINOP(bc_binop(op)))
        },
        SExpr::Block(b) => c_block(b, base, brk),
        SExpr::IfElse(d) => c_if_else(*d, base, brk),
        SExpr::FnCall(c) => c_call(c, base, brk),
        SExpr::Spawn(c) => seq![SByteCode::SPAWN(base + 2), SByteCode::GOTO(base + 3 + len_call(c) + 1), SByteCode::POP]
            + c_call(c, base + 3, brk).push(SByteCode::DONE),
        SExpr::Join(s) => seq![SByteCode::LD(s), SByteCode::JOIN],
    }
}

pub open spec fn c_args(s: Seq<SExpr>, base: int, brk: Option<int>) -> Seq<SByteCode>
    decreases s,
{
    if s.len() == 0 {
        seq![]
    } else {
        proof {
            assert(decreases_to!(s => s.last()));
        }
        c_args(s.drop_last(), base, brk) + c_expr(s.last(), base + len_args(s.drop_last()), brk)
    }
}

pub open spec fn c_call(c: SFnCall, base: int, brk: Option<int>) -> Seq<SByteCode>
    decreases c,
{
    let code = seq![SByteCode::LD(c.name)] + c_args(c.args, base + 1, brk) + seq![SByteCode::CALL(c.args.len() as int)];
    if no_value_builtin(c.name) {
        code.push(SByteCode::LDC(SValue::Unit))
    } else {
        code
    }
}

pub open spec fn c_if_else(d: SIfElse, base: int, brk: Option<int>) -> Seq<SByteCode>
    decreases d,
{
    let ib = base + len_expr(d.cond) + 1;
    let j = ib + len_block(d.if_blk) + 1;
    let else_code = match d.else_blk {
        Some(b) => c_block(b, j, brk),
        None => seq![SByteCode::LDC(SValue::Unit)],
    };
    let g = j + match d.else_blk {
        Some(b) => len_block(b),
        None => 1,
    };
    c_expr(d.cond, base, brk).push(SByteCode::JOF(j)) + c_block(d.if_blk, ib, brk).push(SByteCode::GOTO(g)) + else_code
}

/// A block as a value: scope entry, the declarations (each followed by a
/// pop), the last expression, scope exit, and a unit constant when the
/// block has no last expression.
pub open spec fn c_block(b: SBlock, base: int, brk: Option<int>) -> Seq<SByteCode>
    decreases b,
{
    let has = b.symbols.len() > 0;
    let start: Seq<SByteCode> = if has { seq![SByteCode::ENTERSCOPE(b.symbols)] } else { seq![] };
    let db = base + if has { 1int } else { 0int };
    let last_code = match b.last {
        Some(e) => c_expr(*e, db + len_decls(b.decls), brk),
        None => seq![],
    };
    let end: Seq<SByteCode> = if has { seq![SByteCode::EXITSCOPE] } else { seq![] };
    let body = start + c_decls(b.decls, db, brk) + last_code + end;
    if b.last is None {
        body.push(SByteCode::LDC(SValue::Unit))
    } else {
        body
    }
}

/// A block without the unit constant that a block with no last expression
/// ends with.
pub open spec fn c_body(b: SBlock, base: int, brk: Option<int>) -> Seq<SByteCode> {
    if b.last is None {
        c_block(b, base, brk).drop_last()
    } else {
        c_block(b, base, brk)
    }
}

pub open spec fn c_decls(s: Seq<SDecl>, base: int, brk: Option<int>) -> Seq<SByteCode>
    decreases s,
{
    if s.len() == 0 {
        seq![]
    } else {
        proof {
            assert(decreases_to!(s => s.last()));
        }
        c_decls(s.drop_last(), base, brk) + c_decl(s.last(), base + len_decls(s.drop_last()), brk).push(SByteCode::POP)
    }
}

/// A loop: the condition and a jump out when it is false, the body (whose
/// value is popped), a jump back, and the unit value of the loop, where
/// the jump out and every break inside the loop land.
pub open spec fn c_loop(l: SLoop, base: int) -> Seq<SByteCode>
    decreases l,
{
    let cl: int = match l.cond {
        Some(c) => len_expr(c) + 1int,
        None => 0int,
    };
    let bb = base + cl;
    let end = bb + len_block(l.body) + 2;
    let cond_code = match l.cond {
        Some(c) => c_expr(c, base, Some(end)).push(SByteCode::JOF(end)),
        None => seq![],
    };
    cond_code + c_block(l.body, bb, Some(end)) + seq![SByteCode::POP, SByteCode::GOTO(base), SByteCode::LDC(SValue::Unit)]
}

pub open spec fn c_decl(d: SDecl, base: int, brk: Option<int>) -> Seq<SByteCode>
    decreases d,
{
    match d {
        SDecl::ExprStmt(e) => c_expr(e, base, brk),
        SDecl::Let(x, e, _) => c_expr(e, base, brk) + seq![SByteCode::ASSIGN(x), SByteCode::LDC(SValue::Unit)],
        SDecl::Assign(x, e) => c_expr(e, base, brk) + seq![SByteCode::ASSIGN(x), SByteCode::LDC(SValue::Unit)],
        SDecl::IfOnly(x) => c_if_else(x, base, brk),
        SDecl::Loop(l) => c_loop(l, base),
        SDecl::Break => seq![SByteCode::GOTO(break_target(brk))],
        SDecl::FnDecl(f) => {
            let g = base + 2 + len_block(f.body) + 1;
            seq![SByteCode::LDF(base + 2, param_names(f.params)), SByteCode::GOTO(g)]
                + c_block(f.body, base + 2, brk)
                + seq![SByteCode::RESET(FrameType::CallFrame), SByteCode::ASSIGN(f.name), SByteCode::LDC(SValue::Unit)]
        },
        SDecl::Return(e) => match e {
            Some(x) => c_expr(x, base, brk).push(SByteCode::RESET(FrameType::CallFrame)),
            None => seq![SByteCode::LDC(SValue::Unit), SByteCode::RESET(FrameType::CallFrame)],
        },
        SDecl::Wait(s) => seq![SByteCode::LD(s), SByteCode::WAIT, SByteCode::LDC(SValue::Unit)],
        SDecl::Post(s) => seq![SByteCode::LD(s), SByteCode::POST, SByteCode::LDC(SValue::Unit)],
        SDecl::Yield => seq![SByteCode::YIELD, SByteCode::LDC(SValue::Unit)],
    }
}

/// The code of a whole program: its top-level block body, then DONE.
pub open spec fn c_program(p: SBlock) -> Seq<SByteCode> {
    c_body(p, 0, None).push(SByteCode::DONE)
}

// ---------------------------------------------------------------------
// Lengths agree with the code
// ---------------------------------------------------------------------

pub proof fn lemma_len_expr(e: SExpr, base: int, brk: Option<int>)
    ensures
        c_expr(e, base, brk).len() == len_expr(e),
    decreases e,
{
    match e {
        SExpr::UnOp(_, x) => lemma_len_expr(*x, base, brk),
        SExpr::BinOp(op, l, r) => {
            if op == BinOpType::LogicalAnd {
                lemma_len_expr(*l, base, brk);
                lemma_len_expr(*r, base + len_expr(*l) + 1, brk);
            } else if op == BinOpType::LogicalOr {
                lemma_len_expr(*l, base, brk);
                lemma_len_expr(*r, base + len_expr(*l) + 3, brk);
            } else {
                lemma_len_expr(*l, base, brk);
                lemma_len_expr(*r, base + len_expr(*l), brk);
            }
        },
        SExpr::Block(b) => lemma_len_block(b, base, brk),
        SExpr::IfElse(d) => lemma_len_if_else(*d, base, brk),
        SExpr::FnCall(c) => lemma_len_call(c, base, brk),
        SExpr::Spawn(c) => lemma_len_call(c, base + 3, brk),
        _ => {},
    }
}

pub proof fn lemma_len_args(s: Seq<SExpr>, base: int, brk: Option<int>)
    ensures
        c_args(s, base, brk).len() == len_args(s),
    decreases s,
{
    if s.len() > 0 {
        assert(decreases_to!(s => s.last()));
        lemma_len_args(s.drop_last(), base, brk);
        lemma_len_expr(s.last(), base + len_args(s.drop_last()), brk);
    }
}

pub proof fn lemma_len_call(c: SFnCall, base: int, brk: Option<int>)
    ensures
        c_call(c, base, brk).len() == len_call(c),
    decreases c,
{
    lemma_len_args(c.args, base + 1, brk);
}

pub proof fn lemma_len_if_else(d: SIfElse, base: int, brk: Option<int>)
    ensures
        c_if_else(d, base, brk).len() == len_if_else(d),
    decreases d,
{
    let ib = base + len_expr(d.cond) + 1;
    let j = ib + len_block(d.if_blk) + 1;
    lemma_len_expr(d.cond, base, brk);
    lemma_len_block(d.if_blk, ib, brk);
    match d.else_blk {
        Some(b) => lemma_len_block(b, j, brk),
        None => {},
    }
}

pub proof fn lemma_len_block(b: SBlock, base: int, brk: Option<int>)
    ensures
        c_block(b, base, brk).len() == len_block(b),
        c_body(b, base, brk).len() == len_body(b),
    decreases b,
{
    let db = base + if b.symbols.len() > 0 { 1int } else { 0int };
    lemma_len_decls(b.decls, db, brk);
    match b.last {
        Some(e) => lemma_len_expr(*e, db + len_decls(b.decls), brk),
        None => {},
    }
}

pub proof fn lemma_len_decls(s: Seq<SDecl>, base: int, brk: Option<int>)
    ensures
        c_decls(s, base, brk).len() == len_decls(s),
    decreases s,
{
    if s.len() > 0 {
        assert(decreases_to!(s => s.last()));
        lemma_len_decls(s.drop_last(), base, brk);
        lemma_len_decl(s.last(), base + len_decls(s.drop_last()), brk);
    }
}

pub proof fn lemma_len_loop(l: SLoop, base: int)
    ensures
        c_loop(l, base).len() == len_loop(l),
    decreases l,
{
    let cl: int = match l.cond {
        Some(c) => len_expr(c) + 1int,
        None => 0int,
    };
    let bb = base + cl;
    let end = bb + len_block(l.body) + 2;
    match l.cond {
        Some(c) => lemma_len_expr(c, base, Some(end)),
        None => {},
    }
    lemma_len_block(l.body, bb, Some(end));
}

pub proof fn lemma_len_decl(d: SDecl, base: int, brk: Option<int>)
    ensures
        c_decl(d, base, brk).len() == len_decl(d),
    decreases d,
{
    match d {
        SDecl::ExprStmt(e) => lemma_len_expr(e, base, brk),
        SDecl::Let(_, e, _) => lemma_len_expr(e, base, brk),
        SDecl::Assign(_, e) => lemma_len_expr(e, base, brk),
        SDecl::IfOnly(x) => lemma_len_if_else(x, base, brk),
        SDecl::Loop(l) => lemma_len_loop(l, base),
        SDecl::FnDecl(f) => lemma_len_block(f.body, base + 2, brk),
        SDecl::Return(e) => match e {
            Some(x) => lemma_len_expr(x, base, brk),
            None => {},
        },
        _ => {},
    }
}

// ---------------------------------------------------------------------
// Jumps land inside the code
// ---------------------------------------------------------------------

/// The address that an instruction jumps to (or, for a closure or a
/// thread, where their code starts).
pub open spec fn jump_target(b: SByteCode) -> Option<int> {
    match b {
        SByteCode::JOF(t) => Some(t),
        SByteCode::GOTO(t) => Some(t),
        SByteCode::LDF(t, _) => Some(t),
        SByteCode::SPAWN(t) => Some(t),
        _ => None,
    }
}

/// Whether an instruction's target, if any, lies in `[lo, hi]` or is the
/// target of a `break`.
pub open spec fn jump_ok(b: SByteCode, lo: int, hi: int, brk: Option<int>) -> bool {
    match jump_target(b) {
        Some(t) => (lo <= t && t <= hi) || t == break_target(brk),
        None => true,
    }
}

pub open spec fn jumps_within(code: Seq<SByteCode>, lo: int, hi: int, brk: Option<int>) -> bool {
    forall|i: int| 0 <= i < code.len() ==> jump_ok(#[trigger] code[i], lo, hi, brk)
}

proof fn lemma_jw_concat(a: Seq<SByteCode>, b: Seq<SByteCode>, lo: int, hi: int, brk: Option<int>)
    requires
        jumps_within(a, lo, hi, brk),
        jumps_within(b, lo, hi, brk),
    ensures
        jumps_within(a + b, lo, hi, brk),
{
    assert forall|i: int| 0 <= i < (a + b).len() implies jump_ok(#[trigger] (a + b)[i], lo, hi, brk) by {
        if i < a.len() {
            assert((a + b)[i] == a[i]);
        } else {
            assert((a + b)[i] == b[i - a.len()]);
        }
    }
}

/// Widening the range; a break target inside the new range may change.
proof fn lemma_jw_widen(
    a: Seq<SByteCode>,
    lo: int,
    hi: int,
    brk: Option<int>,
    lo2: int,
    hi2: int,
    brk2: Option<int>,
)
    requires
        jumps_within(a, lo, hi, brk),
        lo2 <= lo,
        hi <= hi2,
        break_target(brk) == break_target(brk2) || (lo2 <= break_target(brk) && break_target(brk) <= hi2),
    ensures
        jumps_within(a, lo2, hi2, brk2),
{
    assert forall|i: int| 0 <= i < a.len() implies jump_ok(#[trigger] a[i], lo2, hi2, brk2) by {
        assert(jump_ok(a[i], lo, hi, brk));
    }
}

proof fn lemma_jw_seq(a: Seq<SByteCode>, lo: int, hi: int, brk: Option<int>)
    requires
        forall|i: int| 0 <= i < a.len() ==> jump_ok(#[trigger] a[i], lo, hi, brk),
    ensures
        jumps_within(a, lo, hi, brk),
{
}

proof fn lemma_jw_push(a: Seq<SByteCode>, x: SByteCode, lo: int, hi: int, brk: Option<int>)
    requires
        jumps_within(a, lo, hi, brk),
        jump_ok(x, lo, hi, brk),
    ensures
        jumps_within(a.push(x), lo, hi, brk),
{
    assert forall|i: int| 0 <= i < a.push(x).len() implies jump_ok(#[trigger] a.push(x)[i], lo, hi, brk) by {
        if i < a.len() {
            assert(a.push(x)[i] == a[i]);
        }
    }
}

pub proof fn lemma_jw_expr(e: SExpr, base: int, brk: Option<int>)
    ensures
        jumps_within(c_expr(e, base, brk), base, base + len_expr(e), brk),
    decreases e,
{
    lemma_len_expr(e, base, brk);
    let hi = base + len_expr(e);
    match e {
        SExpr::UnOp(op, x) => {
            lemma_jw_expr(*x, base, brk);
            lemma_jw_widen(c_expr(*x, base, brk), base, base + len_expr(*x), brk, base, hi, brk);
            lemma_jw_push(c_expr(*x, base, brk), SByteCode::UNOP(bc_unop(op)), base, hi, brk);
        },
        SExpr::BinOp(op, l, r) => {
            let ll = len_expr(*l);
            let lr = len_expr(*r);
            lemma_jw_expr(*l, base, brk);
            lemma_len_expr(*l, base, brk);
            lemma_jw_widen(c_expr(*l, base, brk), base, base + ll, brk, base, hi, brk);
            if op == BinOpType::LogicalAnd {
                let rb = base + ll + 1;
                let j = rb + lr + 1;
                lemma_jw_expr(*r, rb, brk);
                lemma_jw_widen(c_expr(*r, rb, brk), rb, rb + lr, brk, base, hi, brk);
                lemma_jw_push(c_expr(*l, base, brk), SByteCode::JOF(j), base, hi, brk);
                lemma_jw_concat(c_expr(*l, base, brk).push(SByteCode::JOF(j)), c_expr(*r, rb, brk), base, hi, brk);
                let tail = seq![SByteCode::GOTO(j + 1), SByteCode::LDC(SValue::Bool(false))];
                lemma_jw_seq(tail, base, hi, brk);
                lemma_jw_concat(
                    c_expr(*l, base, brk).push(SByteCode::JOF(j)) + c_expr(*r, rb, brk),
                    tail,
                    base,
                    hi,
                    brk,
                );
            } else if op == BinOpType::LogicalOr {
                let j = base + ll + 3;
                lemma_jw_expr(*r, j, brk);
                lemma_jw_widen(c_expr(*r, j, brk), j, j + lr, brk, base, hi, brk);
                let mid = seq![
                    SByteCode::JOF(j),
                    SByteCode::LDC(SValue::Bool(true)),
                    SByteCode::GOTO(j + lr),
                ];
                lemma_jw_seq(mid, base, hi, brk);
                lemma_jw_concat(c_expr(*l, base, brk), mid, base, hi, brk);
                lemma_jw_concat(c_expr(*l, base, brk) + mid, c_expr(*r, j, brk), base, hi, brk);
            } else {
                lemma_jw_expr(*r, base + ll, brk);
                lemma_jw_widen(c_expr(*r, base + ll, brk), base + ll, base + ll + lr, brk, base, hi, brk);
                lemma_jw_concat(c_expr(*l, base, brk), c_expr(*r, base + ll, brk), base, hi, brk);
                lemma_jw_push(
                    c_expr(*l, base, brk) + c_expr(*r, base + ll, brk),
                    SByteCode::BINOP(bc_binop(op)),
                    base,
                    hi,
                    brk,
                );
            }
        },
        SExpr::Block(b) => lemma_jw_block(b, base, brk),
        SExpr::IfElse(d) => lemma_jw_if_else(*d, base, brk),
        SExpr::FnCall(c) => lemma_jw_call(c, base, brk),
        SExpr::Spawn(c) => {
            let lc = len_call(c);
            lemma_len_call(c, base + 3, brk);
            lemma_jw_call(c, base + 3, brk);
            lemma_jw_widen(c_call(c, base + 3, brk), base + 3, base + 3 + lc, brk, base, hi, brk);
            lemma_jw_push(c_call(c, base + 3, brk), SByteCode::DONE, base, hi, brk);
            let head = seq![SByteCode::SPAWN(base + 2), SByteCode::GOTO(base + 3 + lc + 1), SByteCode::POP];
            lemma_jw_seq(head, base, hi, brk);
            lemma_jw_concat(head, c_call(c, base + 3, brk).push(SByteCode::DONE), base, hi, brk);
        },
        _ => {},
    }
}

pub proof fn lemma_jw_args(s: Seq<SExpr>, base: int, brk: Option<int>)
    ensures
        jumps_within(c_args(s, base, brk), base, base + len_args(s), brk),
    decreases s,
{
    if s.len() > 0 {
        assert(decreases_to!(s => s.last()));
        let d = s.drop_last();
        let hi = base + len_args(s);
        lemma_jw_args(d, base, brk);
        lemma_jw_widen(c_args(d, base, brk), base, base + len_args(d), brk, base, hi, brk);
        let b2 = base + len_args(d);
        lemma_jw_expr(s.last(), b2, brk);
        lemma_jw_widen(c_expr(s.last(), b2, brk), b2, b2 + len_expr(s.last()), brk, base, hi, brk);
        lemma_jw_concat(c_args(d, base, brk), c_expr(s.last(), b2, brk), base, hi, brk);
    }
}

pub proof fn lemma_jw_call(c: SFnCall, base: int, brk: Option<int>)
    ensures
        jumps_within(c_call(c, base, brk), base, base + len_call(c), brk),
    decreases c,
{
    let hi = base + len_call(c);
    lemma_len_args(c.args, base + 1, brk);
    lemma_jw_args(c.args, base + 1, brk);
    lemma_jw_widen(c_args(c.args, base + 1, brk), base + 1, base + 1 + len_args(c.args), brk, base, hi, brk);
    let h = seq![SByteCode::LD(c.name)];
    let t = seq![SByteCode::CALL(c.args.len() as int)];
    lemma_jw_seq(h, base, hi, brk);
    lemma_jw_seq(t, base, hi, brk);
    lemma_jw_concat(h, c_args(c.args, base + 1, brk), base, hi, brk);
    lemma_jw_concat(h + c_args(c.args, base + 1, brk), t, base, hi, brk);
    lemma_jw_push(h + c_args(c.args, base + 1, brk) + t, SByteCode::LDC(SValue::Unit), base, hi, brk);
}

pub proof fn lemma_jw_if_else(d: SIfElse, base: int, brk: Option<int>)
    ensures
        jumps_within(c_if_else(d, base, brk), base, base + len_if_else(d), brk),
    decreases d,
{
    let hi = base + len_if_else(d);
    let ib = base + len_expr(d.cond) + 1;
    let j = ib + len_block(d.if_blk) + 1;
    let g = j + match d.else_blk {
        Some(b) => len_block(b),
        None => 1,
    };
    lemma_jw_expr(d.cond, base, brk);
    lemma_jw_widen(c_expr(d.cond, base, brk), base, base + len_expr(d.cond), brk, base, hi, brk);
    lemma_jw_push(c_expr(d.cond, base, brk), SByteCode::JOF(j), base, hi, brk);
    lemma_jw_block(d.if_blk, ib, brk);
    lemma_jw_widen(c_block(d.if_blk, ib, brk), ib, ib + len_block(d.if_blk), brk, base, hi, brk);
    lemma_jw_push(c_block(d.if_blk, ib, brk), SByteCode::GOTO(g), base, hi, brk);
    let else_code = match d.else_blk {
        Some(b) => c_block(b, j, brk),
        None => seq![SByteCode::LDC(SValue::Unit)],
    };
    match d.else_blk {
        Some(b) => {
            lemma_jw_block(b, j, brk);
            lemma_jw_widen(c_block(b, j, brk), j, j + len_block(b), brk, base, hi, brk);
        },
        None => {
            lemma_jw_seq(else_code, base, hi, brk);
        },
    }
    lemma_jw_concat(
        c_expr(d.cond, base, brk).push(SByteCode::JOF(j)),
        c_block(d.if_blk, ib, brk).push(SByteCode::GOTO(g)),
        base,
        hi,
        brk,
    );
    lemma_jw_concat(
        c_expr(d.cond, base, brk).push(SByteCode::JOF(j)) + c_block(d.if_blk, ib, brk).push(SByteCode::GOTO(g)),
        else_code,
        base,
        hi,
        brk,
    );
}

/// The code of a block without its trailing unit constant.
pub open spec fn block_core(b: SBlock, base: int, brk: Option<int>) -> Seq<SByteCode> {
    let has = b.symbols.len() > 0;
    let start: Seq<SByteCode> = if has { seq![SByteCode::ENTERSCOPE(b.symbols)] } else { seq![] };
    let db = base + if has { 1int } else { 0int };
    let last_code = match b.last {
        Some(e) => c_expr(*e, db + len_decls(b.decls), brk),
        None => seq![],
    };
    let end: Seq<SByteCode> = if has { seq![SByteCode::EXITSCOPE] } else { seq![] };
    start + c_decls(b.decls, db, brk) + last_code + end
}

pub proof fn lemma_jw_block(b: SBlock, base: int, brk: Option<int>)
    ensures
        jumps_within(c_block(b, base, brk), base, base + len_block(b), brk),
        jumps_within(c_body(b, base, brk), base, base + len_body(b), brk),
    decreases b,
{
    lemma_len_block(b, base, brk);
    let has = b.symbols.len() > 0;
    let start: Seq<SByteCode> = if has { seq![SByteCode::ENTERSCOPE(b.symbols)] } else { seq![] };
    let db = base + if has { 1int } else { 0int };
    let end: Seq<SByteCode> = if has { seq![SByteCode::EXITSCOPE] } else { seq![] };
    let hb = base + len_body(b);
    lemma_len_decls(b.decls, db, brk);
    lemma_jw_decls(b.decls, db, brk);
    lemma_jw_widen(c_decls(b.decls, db, brk), db, db + len_decls(b.decls), brk, base, hb, brk);
    lemma_jw_seq(start, base, hb, brk);
    lemma_jw_seq(end, base, hb, brk);
    lemma_jw_concat(start, c_decls(b.decls, db, brk), base, hb, brk);
    let last_code = match b.last {
        Some(e) => c_expr(*e, db + len_decls(b.decls), brk),
        None => seq![],
    };
    match b.last {
        Some(e) => {
            let lb = db + len_decls(b.decls);
            lemma_jw_expr(*e, lb, brk);
            lemma_jw_widen(c_expr(*e, lb, brk), lb, lb + len_expr(*e), brk, base, hb, brk);
        },
        None => {
            lemma_jw_seq(last_code, base, hb, brk);
        },
    }
    lemma_jw_concat(start + c_decls(b.decls, db, brk), last_code, base, hb, brk);
    lemma_jw_concat(start + c_decls(b.decls, db, brk) + last_code, end, base, hb, brk);
    let core = start + c_decls(b.decls, db, brk) + last_code + end;
    assert(core == block_core(b, base, brk));
    if b.last is None {
        lemma_jw_widen(core, base, hb, brk, base, base + len_block(b), brk);
        lemma_jw_push(core, SByteCode::LDC(SValue::Unit), base, base + len_block(b), brk);
        assert(c_block(b, base, brk).drop_last() =~= core);
    }
}

pub proof fn lemma_jw_decls(s: Seq<SDecl>, base: int, brk: Option<int>)
    ensures
        jumps_within(c_decls(s, base, brk), base, base + len_decls(s), brk),
    decreases s,
{
    if s.len() > 0 {
        assert(decreases_to!(s => s.last()));
        let d = s.drop_last();
        let hi = base + len_decls(s);
        lemma_jw_decls(d, base, brk);
        lemma_jw_widen(c_decls(d, base, brk), base, base + len_decls(d), brk, base, hi, brk);
        let b2 = base + len_decls(d);
        lemma_jw_decl(s.last(), b2, brk);
        lemma_jw_widen(c_decl(s.last(), b2, brk), b2, b2 + len_decl(s.last()), brk, base, hi, brk);
        lemma_jw_push(c_decl(s.last(), b2, brk), SByteCode::POP, base, hi, brk);
        lemma_jw_concat(c_decls(d, base, brk), c_decl(s.last(), b2, brk).push(SByteCode::POP), base, hi, brk);
    }
}

/// A loop's jumps stay inside the loop, whatever break target is around it.
pub proof fn lemma_jw_loop(l: SLoop, base: int, brk: Option<int>)
    ensures
        jumps_within(c_loop(l, base), base, base + len_loop(l), brk),
    decreases l,
{
    lemma_len_loop(l, base);
    let hi = base + len_loop(l);
    let cl: int = match l.cond {
        Some(c) => len_expr(c) + 1int,
        None => 0int,
    };
    let bb = base + cl;
    let end = bb + len_block(l.body) + 2;
    let cond_code = match l.cond {
        Some(c) => c_expr(c, base, Some(end)).push(SByteCode::JOF(end)),
        None => seq![],
    };
    match l.cond {
        Some(c) => {
            lemma_jw_expr(c, base, Some(end));
            lemma_jw_widen(c_expr(c, base, Some(end)), base, base + len_expr(c), Some(end), base, hi, brk);
            lemma_jw_push(c_expr(c, base, Some(end)), SByteCode::JOF(end), base, hi, brk);
        },
        None => {
            lemma_jw_seq(cond_code, base, hi, brk);
        },
    }
    lemma_jw_block(l.body, bb, Some(end));
    lemma_jw_widen(c_block(l.body, bb, Some(end)), bb, bb + len_block(l.body), Some(end), base, hi, brk);
    let tail = seq![SByteCode::POP, SByteCode::GOTO(base), SByteCode::LDC(SValue::Unit)];
    lemma_jw_seq(tail, base, hi, brk);
    lemma_jw_concat(cond_code, c_block(l.body, bb, Some(end)), base, hi, brk);
    lemma_jw_concat(cond_code + c_block(l.body, bb, Some(end)), tail, base, hi, brk);
}

pub proof fn lemma_jw_decl(d: SDecl, base: int, brk: Option<int>)
    ensures
        jumps_within(c_decl(d, base, brk), base, base + len_decl(d), brk),
    decreases d,
{
    lemma_len_decl(d, base, brk);
    let hi = base + len_decl(d);
    match d {
        SDecl::ExprStmt(e) => lemma_jw_expr(e, base, brk),
        SDecl::Let(x, e, _) => {
            lemma_jw_expr(e, base, brk);
            lemma_jw_widen(c_expr(e, base, brk), base, base + len_expr(e), brk, base, hi, brk);
            let t = seq![SByteCode::ASSIGN(x), SByteCode::LDC(SValue::Unit)];
            lemma_jw_seq(t, base, hi, brk);
            lemma_jw_concat(c_expr(e, base, brk), t, base, hi, brk);
        },
        SDecl::Assign(x, e) => {
            lemma_jw_expr(e, base, brk);
            lemma_jw_widen(c_expr(e, base, brk), base, base + len_expr(e), brk, base, hi, brk);
            let t = seq![SByteCode::ASSIGN(x), SByteCode::LDC(SValue::Unit)];
            lemma_jw_seq(t, base, hi, brk);
            lemma_jw_concat(c_expr(e, base, brk), t, base, hi, brk);
        },
        SDecl::IfOnly(x) => lemma_jw_if_else(x, base, brk),
        SDecl::Loop(l) => lemma_jw_loop(l, base, brk),
        SDecl::FnDecl(f) => {
            let g = base + 2 + len_block(f.body) + 1;
            let h = seq![SByteCode::LDF(base + 2, param_names(f.params)), SByteCode::GOTO(g)];
            let t = seq![SByteCode::RESET(FrameType::CallFrame), SByteCode::ASSIGN(f.name), SByteCode::LDC(SValue::Unit)];
            lemma_jw_seq(h, base, hi, brk);
            lemma_jw_seq(t, base, hi, brk);
            lemma_len_block(f.body, base + 2, brk);
            lemma_jw_block(f.body, base + 2, brk);
            lemma_jw_widen(c_block(f.body, base + 2, brk), base + 2, base + 2 + len_block(f.body), brk, base, hi, brk);
            lemma_jw_concat(h, c_block(f.body, base + 2, brk), base, hi, brk);
            lemma_jw_concat(h + c_block(f.body, base + 2, brk), t, base, hi, brk);
        },
        SDecl::Return(e) => match e {
            Some(x) => {
                lemma_jw_expr(x, base, brk);
                lemma_jw_widen(c_expr(x, base, brk), base, base + len_expr(x), brk, base, hi, brk);
                lemma_jw_push(c_expr(x, base, brk), SByteCode::RESET(FrameType::CallFrame), base, hi, brk);
            },
            None => {},
        },
        _ => {},
    }
}

/// Law: every jump in a compiled program, and every start of a function's
/// or a thread's code, is the address of an instruction of the program.
pub proof fn law_jumps_stay_in_program(p: SBlock)
    ensures
        forall|i: int|
            0 <= i < c_program(p).len() ==> match jump_target(#[trigger] c_program(p)[i]) {
                Some(t) => 0 <= t < c_program(p).len(),
                None => true,
            },
{
    lemma_len_block(p, 0, None);
    lemma_jw_block(p, 0, None);
    let body = c_body(p, 0, None);
    assert forall|i: int| 0 <= i < c_program(p).len() implies match jump_target(#[trigger] c_program(p)[i]) {
        Some(t) => 0 <= t < c_program(p).len(),
        None => true,
    } by {
        if i < body.len() {
            assert(c_program(p)[i] == body[i]);
            assert(jump_ok(body[i], 0, len_body(p) as int, None));
        }
    }
}

// ---------------------------------------------------------------------
// Layout of the code
// ---------------------------------------------------------------------

/// A block that holds only the expression `e`.
pub open spec fn expr_block(e: SExpr) -> SBlock {
    SBlock { decls: seq![], last: Some(Box::new(e)), symbols: seq![] }
}

proof fn lemma_expr_block(e: SExpr, base: int, brk: Option<int>)
    ensures
        c_block(expr_block(e), base, brk) == c_expr(e, base, brk),
        len_block(expr_block(e)) == len_expr(e),
{
    let b = expr_block(e);
    assert(c_decls(b.decls, base, brk) =~= seq![]);
    assert(len_decls(b.decls) == 0);
    assert(c_block(b, base, brk) =~= c_expr(e, base, brk));
}

/// Law: `l && r` compiles as `if l { r } else { false }`, and `l || r` as
/// `if l { true } else { r }`.
pub proof fn law_and_or_are_if_else(l: SExpr, r: SExpr, base: int, brk: Option<int>)
    ensures
        c_expr(SExpr::BinOp(BinOpType::LogicalAnd, Box::new(l), Box::new(r)), base, brk) == c_if_else(
            SIfElse { cond: l, if_blk: expr_block(r), else_blk: Some(expr_block(SExpr::Bool(false))) },
            base,
            brk,
        ),
        c_expr(SExpr::BinOp(BinOpType::LogicalOr, Box::new(l), Box::new(r)), base, brk) == c_if_else(
            SIfElse { cond: l, if_blk: expr_block(SExpr::Bool(true)), else_blk: Some(expr_block(r)) },
            base,
            brk,
        ),
{
    let ib = base + len_expr(l) + 1;
    lemma_expr_block(r, ib, brk);
    lemma_expr_block(SExpr::Bool(false), ib + len_expr(r) + 1, brk);
    lemma_expr_block(SExpr::Bool(true), ib, brk);
    lemma_expr_block(r, ib + 2, brk);
    let and_ie = SIfElse { cond: l, if_blk: expr_block(r), else_blk: Some(expr_block(SExpr::Bool(false))) };
    let or_ie = SIfElse { cond: l, if_blk: expr_block(SExpr::Bool(true)), else_blk: Some(expr_block(r)) };
    assert(c_expr(SExpr::BinOp(BinOpType::LogicalAnd, Box::new(l), Box::new(r)), base, brk) =~= c_if_else(
        and_ie,
        base,
        brk,
    ));
    assert(c_expr(SExpr::BinOp(BinOpType::LogicalOr, Box::new(l), Box::new(r)), base, brk) =~= c_if_else(
        or_ie,
        base,
        brk,
    ));
}

/// Law: an if-else is its condition's code, a jump to the start of the else
/// part when the condition is false, the code of the then-block, a jump to
/// just past the whole if-else, and the else part: the else-block, or a
/// unit value where there is none.
pub proof fn law_if_else_layout(d: SIfElse, base: int, brk: Option<int>)
    ensures
        ({
            let code = c_if_else(d, base, brk);
            let lc = len_expr(d.cond) as int;
            let li = len_block(d.if_blk) as int;
            &&& code.subrange(0, lc) == c_expr(d.cond, base, brk)
            &&& code[lc] == SByteCode::JOF(base + lc + li + 2)
            &&& code.subrange(lc + 1, lc + 1 + li) == c_block(d.if_blk, base + lc + 1, brk)
            &&& code[lc + 1 + li] == SByteCode::GOTO(base + code.len())
            &&& code.subrange(lc + 2 + li, code.len() as int) == match d.else_blk {
                Some(b) => c_block(b, base + lc + li + 2, brk),
                None => seq![SByteCode::LDC(SValue::Unit)],
            }
        }),
{
    let lc = len_expr(d.cond) as int;
    let li = len_block(d.if_blk) as int;
    lemma_len_expr(d.cond, base, brk);
    lemma_len_block(d.if_blk, base + lc + 1, brk);
    lemma_len_if_else(d, base, brk);
    let code = c_if_else(d, base, brk);
    let a = c_expr(d.cond, base, brk).push(SByteCode::JOF(base + lc + li + 2));
    let bb = c_block(d.if_blk, base + lc + 1, brk).push(SByteCode::GOTO(base + len_if_else(d)));
    let e = match d.else_blk {
        Some(b) => c_block(b, base + lc + li + 2, brk),
        None => seq![SByteCode::LDC(SValue::Unit)],
    };
    match d.else_blk {
        Some(b) => lemma_len_block(b, base + lc + li + 2, brk),
        None => {},
    }
    assert(code == a + bb + e);
    assert(code.subrange(0, lc) =~= c_expr(d.cond, base, brk));
    assert(code[lc] == a[lc]);
    assert(code.subrange(lc + 1, lc + 1 + li) =~= c_block(d.if_blk, base + lc + 1, brk));
    assert(code[lc + 1 + li] == bb[li]);
    assert(code.subrange(lc + 2 + li, code.len() as int) =~= e);
}

/// Law: a loop is its condition's code with a jump out when it is false,
/// its body, a pop of the body's value, a jump back to the loop's first
/// instruction, and the loop's unit value. The jump out and every `break`
/// in the condition or the body land on that unit value, the loop's last
/// instruction.
pub proof fn law_loop_layout(l: SLoop, base: int, t: int)
    ensures
        c_decl(SDecl::Break, base, Some(t)) == seq![SByteCode::GOTO(t)],
        ({
            let code = c_loop(l, base);
            let n = code.len() as int;
            let end = base + n - 1;
            let cl: int = match l.cond {
                Some(c) => len_expr(c) + 1int,
                None => 0int,
            };
            let lb = len_block(l.body) as int;
            &&& n == cl + lb + 3
            &&& code[n - 3] == SByteCode::POP
            &&& code[n - 2] == SByteCode::GOTO(base)
            &&& code[n - 1] == SByteCode::LDC(SValue::Unit)
            &&& code.subrange(cl, cl + lb) == c_block(l.body, base + cl, Some(end))
            &&& l.cond matches Some(c) ==> code.subrange(0, cl - 1) == c_expr(c, base, Some(end)) && code[cl - 1]
                == SByteCode::JOF(end)
        }),
{
    lemma_len_loop(l, base);
    let cl: int = match l.cond {
        Some(c) => len_expr(c) + 1int,
        None => 0int,
    };
    let lb = len_block(l.body) as int;
    let end = base + cl + lb + 2;
    lemma_len_block(l.body, base + cl, Some(end));
    let cond_code = match l.cond {
        Some(c) => c_expr(c, base, Some(end)).push(SByteCode::JOF(end)),
        None => seq![],
    };
    match l.cond {
        Some(c) => lemma_len_expr(c, base, Some(end)),
        None => {},
    }
    let code = c_loop(l, base);
    let tail = seq![SByteCode::POP, SByteCode::GOTO(base), SByteCode::LDC(SValue::Unit)];
    assert(code == cond_code + c_block(l.body, base + cl, Some(end)) + tail);
    assert(code.subrange(cl, cl + lb) =~= c_block(l.body, base + cl, Some(end)));
    assert(code[cl + lb] == tail[0]);
    assert(code[cl + lb + 1] == tail[1]);
    assert(code[cl + lb + 2] == tail[2]);
    if let Some(c) = l.cond {
        assert(code.subrange(0, cl - 1) =~= c_expr(c, base, Some(end)));
        assert(code[cl - 1] == cond_code[cl - 1]);
    }
}

/// Law: a function declaration makes a closure whose code starts right
/// after the next instruction, which jumps over the function's code; that
/// code is the body followed by the return from the call; then the closure
/// is bound to the function's name, and the declaration's value is a unit.
pub proof fn law_fn_decl_layout(f: SFnDecl, base: int, brk: Option<int>)
    ensures
        ({
            let code = c_decl(SDecl::FnDecl(f), base, brk);
            let n = code.len() as int;
            &&& n == len_block(f.body) + 5
            &&& code[0] == SByteCode::LDF(base + 2, param_names(f.params))
            &&& code[1] == SByteCode::GOTO(base + n - 2)
            &&& code.subrange(2, n - 3) == c_block(f.body, base + 2, brk)
            &&& code[n - 3] == SByteCode::RESET(FrameType::CallFrame)
            &&& code[n - 2] == SByteCode::ASSIGN(f.name)
            &&& code[n - 1] == SByteCode::LDC(SValue::Unit)
        }),
{
    lemma_len_block(f.body, base + 2, brk);
    let code = c_decl(SDecl::FnDecl(f), base, brk);
    let lb = len_block(f.body) as int;
    let head = seq![SByteCode::LDF(base + 2, param_names(f.params)), SByteCode::GOTO(base + 2 + lb + 1)];
    let tail = seq![SByteCode::RESET(FrameType::CallFrame), SByteCode::ASSIGN(f.name), SByteCode::LDC(SValue::Unit)];
    assert(code == head + c_block(f.body, base + 2, brk) + tail);
    assert(code[0] == head[0]);
    assert(code[1] == head[1]);
    assert(code.subrange(2, lb + 2) =~= c_block(f.body, base + 2, brk));
    assert(code[lb + 2] == tail[0]);
    assert(code[lb + 3] == tail[1]);
    assert(code[lb + 4] == tail[2]);
}

/// Law: a compiled program ends with DONE; a program that declares names
/// starts by entering their scope and leaves it just before DONE.
pub proof fn law_program_shape(p: SBlock)
    ensures
        c_program(p).len() > 0,
        c_program(p).last() == SByteCode::DONE,
        p.symbols.len() > 0 ==> c_program(p).len() >= 3 && c_program(p)[0] == SByteCode::ENTERSCOPE(p.symbols)
            && c_program(p)[c_program(p).len() - 2] == SByteCode::EXITSCOPE,
{
    if p.symbols.len() > 0 {
        let db = 1int;
        let last_code = match p.last {
            Some(e) => c_expr(*e, db + len_decls(p.decls), None),
            None => seq![],
        };
        let body = seq![SByteCode::ENTERSCOPE(p.symbols)] + c_decls(p.decls, db, None) + last_code + seq![
            SByteCode::EXITSCOPE,
        ];
        if p.last is None {
            assert(c_block(p, 0, None) == body.push(SByteCode::LDC(SValue::Unit)));
            assert(c_body(p, 0, None) =~= body);
        } else {
            assert(c_body(p, 0, None) == body);
        }
        assert(body[0] == SByteCode::ENTERSCOPE(p.symbols));
        assert(body.last() == SByteCode::EXITSCOPE);
    }
}

/// Law: a `return` leaves the function with its value on top of the
/// stack: its code is the code of the returned expression (a unit constant
/// when there is none), and its last instruction resets the call frame.
pub proof fn law_return_layout(x: SExpr, base: int, brk: Option<int>)
    ensures
        c_decl(SDecl::Return(None), base, brk) == seq![
            SByteCode::LDC(SValue::Unit),
            SByteCode::RESET(FrameType::CallFrame),
        ],
        ({
            let code = c_decl(SDecl::Return(Some(x)), base, brk);
            &&& code.len() == len_expr(x) + 1
            &&& code.last() == SByteCode::RESET(FrameType::CallFrame)
            &&& code.subrange(0, code.len() - 1) == c_expr(x, base, brk)
        }),
{
    lemma_len_expr(x, base, brk);
    let code = c_decl(SDecl::Return(Some(x)), base, brk);
    assert(code.subrange(0, code.len() - 1) =~= c_expr(x, base, brk));
}

} // verus!
