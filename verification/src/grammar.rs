//! The grammar of RustScript, stated as functions on the token sequence.
//!
//! Each `ps_x(ts, pos, ..)` parses an `x` whose first token is `ts[pos - 1]`
//! (the parser has just read it) and gives what it parsed with the position
//! of the next unread token, or the message of the error. `lp` and `fnc` say
//! whether the code is inside a loop (where `break` is allowed) and inside a
//! function (where `return` is allowed).
//!
//! Positions only move forward. Where a definition goes on from a position
//! that an inner parse gave, it checks that the position moved, which keeps
//! the definition total; the parser's positions always do move, so these
//! checks never fail on what the parser computes.
use crate::lexer::lex_spec;
use crate::parser::{infix_bp, prefix_bp};
use crate::structs::{
    from_string_spec, to_block_spec, to_expr_spec, BinOpType, SBlock, SDecl, SExpr, SFnCall,
    SFnDecl, SIfElse, SLoop, SParam, SType, UnOpType,
};
use crate::token::{token_text, SToken};
use vstd::prelude::*;

verus! {

/// Whether the token at `p` is `k`.
pub open spec fn at(ts: Seq<SToken>, p: int, k: SToken) -> bool {
    0 <= p < ts.len() && ts[p] == k
}

/// The position after the token at `p`, if there is one.
pub open spec fn adv(ts: Seq<SToken>, p: int) -> int {
    if p < ts.len() {
        p + 1
    } else {
        p
    }
}

/// The binary operator that an infix token stands for.
pub open spec fn binop_of(t: SToken) -> Result<BinOpType, Seq<char>> {
    match t {
        SToken::Plus => Ok(BinOpType::Add),
        SToken::Minus => Ok(BinOpType::Sub),
        SToken::Star => Ok(BinOpType::Mul),
        SToken::Slash => Ok(BinOpType::Div),
        SToken::Gt => Ok(BinOpType::Gt),
        SToken::Lt => Ok(BinOpType::Lt),
        SToken::LogEq => Ok(BinOpType::LogicalEq),
        SToken::LogAnd => Ok(BinOpType::LogicalAnd),
        SToken::LogOr => Ok(BinOpType::LogicalOr),
        _ => Err("Expected infix operator but got: "@ + token_text(t)),
    }
}

pub open spec fn token_err(before: Seq<char>, t: SToken) -> Seq<char> {
    before + token_text(t) + seq!['\'']
}

/// The expression of a parsed declaration.
pub open spec fn as_expr(r: Result<(SDecl, int), Seq<char>>) -> Result<(SExpr, int), Seq<char>> {
    match r {
        Err(m) => Err(m),
        Ok((d, p)) => match to_expr_spec(d) {
            Ok(e) => Ok((e, p)),
            Err(m) => Err(m),
        },
    }
}

/// The block of a parsed declaration.
pub open spec fn as_block(r: Result<(SDecl, int), Seq<char>>) -> Result<(SBlock, int), Seq<char>> {
    match r {
        Err(m) => Err(m),
        Ok((d, p)) => match to_block_spec(d) {
            Ok(b) => Ok((b, p)),
            Err(m) => Err(m),
        },
    }
}

/// The message for a position that did not move; never produced.
pub open spec fn stuck() -> Seq<char> {
    seq![]
}

/// A type annotation that starts at `pos`.
pub open spec fn ps_type_ann(ts: Seq<SToken>, pos: int) -> Result<(SType, int), Seq<char>> {
    if pos < 0 || pos >= ts.len() {
        Err("Expected identifier or '(' for type annotation, got end of input"@)
    } else {
        match ts[pos] {
            SToken::Ident(id) => match from_string_spec(id) {
                Some(t) => Ok((t, pos + 1)),
                None => Err("Unknown primitive type: "@ + id),
            },
            SToken::OpenParen => if at(ts, pos + 1, SToken::CloseParen) {
                Ok((SType::Unit, pos + 2))
            } else {
                Err("Expected '()' for unit type annotation"@)
            },
            other => Err(token_err("Expected identifier or '(' for type annotation, got '"@, other)),
        }
    }
}

/// An optional `: type` at `p`.
pub open spec fn ps_opt_ann(ts: Seq<SToken>, p: int) -> Result<(Option<SType>, int), Seq<char>> {
    if at(ts, p, SToken::Colon) {
        match ps_type_ann(ts, p + 1) {
            Ok((t, q)) => Ok((Some(t), q)),
            Err(m) => Err(m),
        }
    } else {
        Ok((None, p))
    }
}

/// Function parameters from `p` up to the closing parenthesis (or the end
/// of the tokens), after those in `acc`.
pub open spec fn ps_params(ts: Seq<SToken>, p: int, acc: Seq<SParam>) -> Result<(Seq<SParam>, int), Seq<char>>
    decreases ts.len() - p,
{
    if p < 0 || p >= ts.len() || at(ts, p, SToken::CloseParen) {
        Ok((acc, p))
    } else {
        match ts[p] {
            SToken::Ident(x) => match ps_opt_ann(ts, p + 1) {
                Err(m) => Err(m),
                Ok((ann, q)) => {
                    let acc2 = acc.push(SParam { name: x, type_ann: ann });
                    let next = if at(ts, q, SToken::CloseParen) {
                        Ok(q)
                    } else if at(ts, q, SToken::Comma) {
                        Ok(q + 1)
                    } else {
                        Err("Expected ',' to separate function parameters"@)
                    };
                    match next {
                        Err(m) => Err(m),
                        Ok(q2) => if q2 <= p || q2 > ts.len() {
                            Err(stuck())
                        } else {
                            ps_params(ts, q2, acc2)
                        },
                    }
                },
            },
            _ => Err("Expected identifier"@),
        }
    }
}

/// A declaration: an expression, or a statement that starts with a keyword.
pub open spec fn ps_decl(ts: Seq<SToken>, pos: int, lp: bool, fnc: bool) -> Result<(SDecl, int), Seq<char>>
    decreases ts.len() - pos, 8nat,
{
    if pos <= 0 || pos > ts.len() {
        Err("Expected previous token"@)
    } else {
        let prev = ts[pos - 1];
        match prev {
            SToken::Integer(_) | SToken::Float(_) | SToken::Bool(_) | SToken::Minus | SToken::Ident(_)
            | SToken::OpenParen | SToken::Bang | SToken::OpenBrace | SToken::If | SToken::Str(_) => ps_expr(
                ts,
                pos,
                0,
                lp,
                fnc,
            ),
            SToken::Spawn => match as_expr(ps_expr(ts, adv(ts, pos), 0, lp, fnc)) {
                Err(m) => Err(m),
                Ok((e, p)) => match e {
                    SExpr::FnCall(c) => Ok((SDecl::ExprStmt(SExpr::Spawn(c)), p)),
                    _ => Err("spawn expected function call"@),
                },
            },
            SToken::Join => match as_expr(ps_expr(ts, adv(ts, pos), 0, lp, fnc)) {
                Err(m) => Err(m),
                Ok((e, p)) => match e {
                    SExpr::Symbol(t) => Ok((SDecl::ExprStmt(SExpr::Join(t)), p)),
                    _ => Err("join expected variable for thread to join"@),
                },
            },
            SToken::Wait => match as_expr(ps_expr(ts, adv(ts, pos), 0, lp, fnc)) {
                Err(m) => Err(m),
                Ok((e, p)) => match e {
                    SExpr::Symbol(s) => Ok((SDecl::Wait(s), p)),
                    _ => Err("wait expected semaphore variable"@),
                },
            },
            SToken::Post => match as_expr(ps_expr(ts, adv(ts, pos), 0, lp, fnc)) {
                Err(m) => Err(m),
                Ok((e, p)) => match e {
                    SExpr::Symbol(s) => Ok((SDecl::Post(s), p)),
                    _ => Err("post expected semaphore variable"@),
                },
            },
            SToken::Break => if !lp {
                Err("break outside of loop"@)
            } else {
                Ok((SDecl::Break, pos))
            },
            SToken::Yield => Ok((SDecl::Yield, pos)),
            SToken::Return => if !fnc {
                Err("return outside of fn"@)
            } else if at(ts, pos, SToken::Semi) {
                Ok((SDecl::Return(None), pos))
            } else {
                match as_expr(ps_expr(ts, adv(ts, pos), 0, lp, fnc)) {
                    Err(m) => Err(m),
                    Ok((e, p)) => Ok((SDecl::Return(Some(e)), p)),
                }
            },
            SToken::Let => ps_let(ts, pos, lp, fnc),
            SToken::Loop => ps_loop(ts, pos, fnc),
            SToken::Fn => ps_fn_decl(ts, pos, lp),
            _ => Err(token_err("Unexpected token: '"@, prev)),
        }
    }
}

/// An expression, taking infix operators that bind at least as strongly as
/// `min_bp`.
pub open spec fn ps_expr(ts: Seq<SToken>, pos: int, min_bp: int, lp: bool, fnc: bool) -> Result<(SDecl, int), Seq<char>>
    decreases ts.len() - pos, 6nat,
{
    if pos <= 0 || pos > ts.len() {
        Err("Expected previous token"@)
    } else {
        let prev = ts[pos - 1];
        let first = match prev {
            SToken::OpenParen => if pos == ts.len() {
                Err("Unexpected end of input"@)
            } else {
                match ps_expr(ts, pos + 1, 0, lp, fnc) {
                    Err(m) => Err(m),
                    Ok((l, p)) => if at(ts, p, SToken::CloseParen) {
                        Ok((l, p + 1))
                    } else {
                        Err("Expected closing parenthesis"@)
                    },
                }
            },
            SToken::Integer(v) => Ok((SDecl::ExprStmt(SExpr::Integer(v)), pos)),
            SToken::Float(f) => Ok((SDecl::ExprStmt(SExpr::Float(f)), pos)),
            SToken::Bool(b) => Ok((SDecl::ExprStmt(SExpr::Bool(b)), pos)),
            SToken::Str(x) => Ok((SDecl::ExprStmt(SExpr::Str(x)), pos)),
            SToken::Minus => if pos == ts.len() {
                Err("Unexpected end of input"@)
            } else {
                match as_expr(ps_expr(ts, pos + 1, prefix_bp(UnOpType::Negate) as int, lp, fnc)) {
                    Err(m) => Err(m),
                    Ok((e, p)) => Ok((SDecl::ExprStmt(SExpr::UnOp(UnOpType::Negate, Box::new(e))), p)),
                }
            },
            SToken::Bang => if pos == ts.len() {
                Err("Unexpected end of input"@)
            } else {
                match as_expr(ps_expr(ts, pos + 1, prefix_bp(UnOpType::Not) as int, lp, fnc)) {
                    Err(m) => Err(m),
                    Ok((e, p)) => Ok((SDecl::ExprStmt(SExpr::UnOp(UnOpType::Not, Box::new(e))), p)),
                }
            },
            SToken::Ident(id) => ps_ident(ts, pos, id, min_bp, lp, fnc),
            SToken::OpenBrace => ps_blk(ts, pos, lp, fnc),
            SToken::If => ps_if_else(ts, pos, min_bp, lp, fnc),
            _ => Err(token_err("Unexpected token - not an expression: '"@, prev)),
        };
        match first {
            Err(m) => Err(m),
            Ok((lhs, cur)) => if cur < pos || cur > ts.len() {
                Err(stuck())
            } else {
                ps_infix(ts, lhs, cur, min_bp, lp, fnc)
            },
        }
    }
}

/// The infix operators that follow `lhs`, from `cur` on.
pub open spec fn ps_infix(ts: Seq<SToken>, lhs: SDecl, cur: int, min_bp: int, lp: bool, fnc: bool) -> Result<
    (SDecl, int),
    Seq<char>,
>
    decreases ts.len() - cur, 5nat,
{
    if cur < 1 || cur >= ts.len() || at(ts, cur, SToken::Semi) || at(ts, cur, SToken::CloseBrace) || at(
        ts,
        cur,
        SToken::CloseParen,
    ) || at(ts, cur, SToken::OpenBrace) || at(ts, cur, SToken::Comma) {
        Ok((lhs, cur))
    } else if binop_of(ts[cur]) is Err && ts[cur - 1] == SToken::CloseBrace {
        Ok((lhs, cur))
    } else {
        match binop_of(ts[cur]) {
            Err(m) => Err(m),
            Ok(op) => {
                let (l_bp, r_bp) = infix_bp(op);
                if l_bp == min_bp {
                    Err("Comparison operators can't be chained. Use parentheses to disambiguate."@)
                } else if l_bp < min_bp {
                    Ok((lhs, cur))
                } else {
                    match ps_expr(ts, adv(ts, adv(ts, cur)), r_bp as int, lp, fnc) {
                        Err(m) => Err(m),
                        Ok((rhs, p)) => match (to_expr_spec(lhs), to_expr_spec(rhs)) {
                            (Err(m), _) => Err(m),
                            (Ok(_), Err(m)) => Err(m),
                            (Ok(l), Ok(r)) => if p <= cur || p > ts.len() {
                                Err(stuck())
                            } else {
                                ps_infix(
                                    ts,
                                    SDecl::ExprStmt(SExpr::BinOp(op, Box::new(l), Box::new(r))),
                                    p,
                                    min_bp,
                                    lp,
                                    fnc,
                                )
                            },
                        },
                    }
                }
            },
        }
    }
}

/// What follows an identifier `name` (the previous token): an assignment,
/// a call, or nothing.
pub open spec fn ps_ident(ts: Seq<SToken>, pos: int, name: Seq<char>, min_bp: int, lp: bool, fnc: bool) -> Result<
    (SDecl, int),
    Seq<char>,
>
    decreases ts.len() - pos, 5nat,
{
    if at(ts, pos, SToken::Eq) {
        match as_expr(ps_expr(ts, adv(ts, pos + 1), min_bp, lp, fnc)) {
            Err(m) => Err(m),
            Ok((e, p)) => Ok((SDecl::Assign(name, e), p)),
        }
    } else if at(ts, pos, SToken::OpenParen) {
        match ps_args(ts, pos + 1, seq![], lp, fnc) {
            Err(m) => Err(m),
            Ok((args, p)) => if at(ts, p, SToken::CloseParen) {
                Ok((SDecl::ExprStmt(SExpr::FnCall(SFnCall { name, args })), p + 1))
            } else {
                Err("Expected ')'"@)
            },
        }
    } else {
        Ok((SDecl::ExprStmt(SExpr::Symbol(name)), pos))
    }
}

/// The arguments of a call from `p` up to the closing parenthesis (or the
/// end of the tokens), after those in `acc`.
pub open spec fn ps_args(ts: Seq<SToken>, p: int, acc: Seq<SExpr>, lp: bool, fnc: bool) -> Result<
    (Seq<SExpr>, int),
    Seq<char>,
>
    decreases ts.len() - p, 4nat,
{
    if p < 0 || p >= ts.len() || at(ts, p, SToken::CloseParen) {
        Ok((acc, p))
    } else {
        match as_expr(ps_expr(ts, p + 1, 0, lp, fnc)) {
            Err(m) => Err(m),
            Ok((e, q)) => {
                let next = if at(ts, q, SToken::CloseParen) {
                    Ok(q)
                } else if at(ts, q, SToken::Comma) {
                    Ok(q + 1)
                } else {
                    Err("Expected ',' to separate function arguments"@)
                };
                match next {
                    Err(m) => Err(m),
                    Ok(q2) => if q2 <= p || q2 > ts.len() {
                        Err(stuck())
                    } else {
                        ps_args(ts, q2, acc.push(e), lp, fnc)
                    },
                }
            },
        }
    }
}

/// A block whose opening brace is the previous token, with its closing
/// brace.
pub open spec fn ps_blk(ts: Seq<SToken>, pos: int, lp: bool, fnc: bool) -> Result<(SDecl, int), Seq<char>>
    decreases ts.len() - pos, 5nat,
{
    match ps_seq(ts, pos, lp, fnc) {
        Err(m) => Err(m),
        Ok((b, p)) => if at(ts, p, SToken::CloseBrace) {
            Ok((SDecl::ExprStmt(SExpr::Block(b)), p + 1))
        } else {
            Err("Expected '}' to close block"@)
        },
    }
}

/// A sequence of declarations up to a closing brace or the end of the
/// tokens.
pub open spec fn ps_seq(ts: Seq<SToken>, pos: int, lp: bool, fnc: bool) -> Result<(SBlock, int), Seq<char>>
    decreases ts.len() - pos, 4nat,
{
    ps_seq_from(ts, pos, SBlock { decls: seq![], last: None, symbols: seq![] }, lp, fnc)
}

/// The rest of a sequence from `cur`, after the declarations in `acc`. A
/// declaration followed by a semicolon is a statement; an expression at the
/// end is the last expression; a declaration that ends with '}' needs no
/// semicolon. `let` bindings and functions declare their names.
pub open spec fn ps_seq_from(ts: Seq<SToken>, cur: int, acc: SBlock, lp: bool, fnc: bool) -> Result<
    (SBlock, int),
    Seq<char>,
>
    decreases ts.len() - cur, 3nat,
{
    if cur < 0 || cur >= ts.len() || at(ts, cur, SToken::CloseBrace) {
        Ok((acc, cur))
    } else {
        match ps_decl(ts, cur + 1, lp, fnc) {
            Err(m) => Err(m),
            Ok((d, p)) => {
                let syms = match d {
                    SDecl::FnDecl(f) => acc.symbols.push(f.name),
                    _ => acc.symbols,
                };
                if p <= cur || p > ts.len() {
                    Err(stuck())
                } else if at(ts, p, SToken::Semi) {
                    let syms2 = match d {
                        SDecl::Let(x, _, _) => syms.push(x),
                        _ => syms,
                    };
                    ps_seq_from(ts, p + 1, SBlock { decls: acc.decls.push(d), last: None, symbols: syms2 }, lp, fnc)
                } else if (p >= ts.len() || at(ts, p, SToken::CloseBrace)) && d is ExprStmt {
                    Ok((SBlock { decls: acc.decls, last: Some(Box::new(d->ExprStmt_0)), symbols: syms }, p))
                } else if ts[p - 1] == SToken::CloseBrace {
                    ps_seq_from(ts, p, SBlock { decls: acc.decls.push(d), last: None, symbols: syms }, lp, fnc)
                } else {
                    Err("Expected semicolon"@)
                }
            },
        }
    }
}

/// A `let` after the keyword: identifier, optional annotation, '=', the
/// expression, which a semicolon must follow.
#[verifier::opaque]
pub open spec fn ps_let(ts: Seq<SToken>, pos: int, lp: bool, fnc: bool) -> Result<(SDecl, int), Seq<char>>
    decreases ts.len() - pos, 7nat,
{
    if pos < 0 || pos >= ts.len() {
        Err("Expected identifier"@)
    } else {
        match ts[pos] {
            SToken::Ident(x) => match ps_opt_ann(ts, pos + 1) {
                Err(m) => Err(m),
                Ok((ann, p1)) => if !at(ts, p1, SToken::Eq) {
                    Err("Expected '='"@)
                } else if p1 <= pos {
                    Err(stuck())
                } else {
                    match as_expr(ps_decl(ts, adv(ts, p1 + 1), lp, fnc)) {
                        Err(m) => Err(m),
                        Ok((e, p3)) => if at(ts, p3, SToken::Semi) {
                            Ok((SDecl::Let(x, e, ann), p3))
                        } else {
                            Err("Expected semicolon after let"@)
                        },
                    }
                },
            },
            _ => Err("Expected identifier"@),
        }
    }
}

/// A loop after the keyword: an optional condition, then the body; a
/// block right after `loop` is the body of a loop with no condition.
#[verifier::opaque]
pub open spec fn ps_loop(ts: Seq<SToken>, pos: int, fnc: bool) -> Result<(SDecl, int), Seq<char>>
    decreases ts.len() - pos, 7nat,
{
    match as_expr(ps_expr(ts, adv(ts, pos), 0, true, fnc)) {
        Err(m) => Err(m),
        Ok((cond, p2)) => match cond {
            SExpr::Block(b) => Ok((SDecl::Loop(SLoop { cond: None, body: b }), p2)),
            _ => if !at(ts, p2, SToken::OpenBrace) {
                Err("Expected { for loop block"@)
            } else if p2 < pos {
                Err(stuck())
            } else {
                match as_block(ps_blk(ts, p2 + 1, true, fnc)) {
                    Err(m) => Err(m),
                    Ok((body, p4)) => Ok((SDecl::Loop(SLoop { cond: Some(cond), body }), p4)),
                }
            },
        },
    }
}

/// An if after the keyword: the condition, the block, and an optional
/// else block. With an else it is an expression; without, a statement.
pub open spec fn ps_if_else(ts: Seq<SToken>, pos: int, min_bp: int, lp: bool, fnc: bool) -> Result<
    (SDecl, int),
    Seq<char>,
>
    decreases ts.len() - pos, 5nat,
{
    if pos < 0 || pos >= ts.len() {
        Err("Unexpected end of input"@)
    } else {
        match as_expr(ps_expr(ts, pos + 1, min_bp, lp, fnc)) {
            Err(m) => Err(m),
            Ok((cond, p2)) => if !at(ts, p2, SToken::OpenBrace) {
                Err("Expected { for if block"@)
            } else if p2 < pos {
                Err(stuck())
            } else {
                match as_block(ps_blk(ts, p2 + 1, lp, fnc)) {
                    Err(m) => Err(m),
                    Ok((if_blk, p4)) => if !at(ts, p4, SToken::Else) {
                        Ok((SDecl::IfOnly(SIfElse { cond, if_blk, else_blk: None }), p4))
                    } else if !at(ts, p4 + 1, SToken::OpenBrace) {
                        Err("Expected { for else block"@)
                    } else if p4 < pos {
                        Err(stuck())
                    } else {
                        match as_block(ps_blk(ts, p4 + 2, lp, fnc)) {
                            Err(m) => Err(m),
                            Ok((eb, p7)) => Ok(
                                (
                                    SDecl::ExprStmt(
                                        SExpr::IfElse(Box::new(SIfElse { cond, if_blk, else_blk: Some(eb) })),
                                    ),
                                    p7,
                                ),
                            ),
                        }
                    },
                }
            },
        }
    }
}

/// A function declaration after `fn`: name, parameters, an optional return
/// type after `->`, and the body, inside which `return` is allowed.
#[verifier::opaque]
pub open spec fn ps_fn_decl(ts: Seq<SToken>, pos: int, lp: bool) -> Result<(SDecl, int), Seq<char>>
    decreases ts.len() - pos, 7nat,
{
    if pos < 0 || pos >= ts.len() {
        Err("Expected identifier"@)
    } else {
        match ts[pos] {
            SToken::Ident(name) => if !at(ts, pos + 1, SToken::OpenParen) {
                Err("Expected { for function parameters"@)
            } else {
                match ps_params(ts, pos + 2, seq![]) {
                    Err(m) => Err(m),
                    Ok((params, p)) => if !at(ts, p, SToken::CloseParen) {
                        Err("Expected ')' for function parameters"@)
                    } else {
                        let rt = if at(ts, p + 1, SToken::FnDeclReturn) {
                            ps_type_ann(ts, p + 2)
                        } else {
                            Ok((SType::Unit, p + 1))
                        };
                        match rt {
                            Err(m) => Err(m),
                            Ok((ret_type, p2)) => if !at(ts, p2, SToken::OpenBrace) {
                                Err("Expected { for function body"@)
                            } else if p2 < pos {
                                Err(stuck())
                            } else {
                                match as_block(ps_blk(ts, p2 + 1, lp, true)) {
                                    Err(m) => Err(m),
                                    Ok((body, p3)) => Ok(
                                        (SDecl::FnDecl(SFnDecl { name, params, ret_type, body }), p3),
                                    ),
                                }
                            },
                        }
                    },
                }
            },
            _ => Err("Expected identifier"@),
        }
    }
}

/// The program that a source text holds: its tokens' program, if it lexes.
pub open spec fn parse_source(inp: Seq<char>) -> Result<SBlock, Seq<char>> {
    match lex_spec(inp) {
        Some(ts) => parse_tokens(ts),
        None => Err("Expect lexer to succeed"@),
    }
}

/// The program that a token sequence holds: the top-level block.
pub open spec fn parse_tokens(ts: Seq<SToken>) -> Result<SBlock, Seq<char>> {
    match ps_seq(ts, 0, false, false) {
        Ok((b, _)) => Ok(b),
        Err(m) => Err(m),
    }
}

} // verus!
