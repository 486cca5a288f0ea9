//! What every parsed program satisfies: `break` stands only inside loops,
//! `return` only inside functions, and each block lists exactly the names
//! that its `let` statements and function declarations bind, in order.
use crate::grammar::{
    adv, as_block, as_expr, at, binop_of, parse_source, ps_args, ps_blk, ps_decl, ps_expr,
    ps_fn_decl, ps_ident, ps_if_else, ps_infix, ps_let, ps_loop, ps_opt_ann, ps_params, ps_seq,
    ps_seq_from, ps_type_ann, stuck,
};
use crate::parser::{infix_bp, prefix_bp};
use crate::structs::{to_expr_spec, BinOpType, SBlock, SDecl, SExpr, SIfElse, UnOpType};
use crate::token::SToken;
use vstd::prelude::*;

verus! {

/// The names that a sequence of declarations binds, in order.
pub open spec fn declared_names(ds: Seq<SDecl>) -> Seq<Seq<char>>
    decreases ds.len(),
{
    if ds.len() == 0 {
        seq![]
    } else {
        let p = declared_names(ds.drop_last());
        match ds.last() {
            SDecl::Let(x, _, _) => p.push(x),
            SDecl::FnDecl(f) => p.push(f.name),
            _ => p,
        }
    }
}

pub open spec fn wf_expr(e: SExpr, lp: bool, fnc: bool) -> bool
    decreases e,
{
    match e {
        SExpr::UnOp(_, x) => wf_expr(*x, lp, fnc),
        SExpr::BinOp(_, l, r) => wf_expr(*l, lp, fnc) && wf_expr(*r, lp, fnc),
        SExpr::Block(b) => wf_block(b, lp, fnc),
        SExpr::IfElse(d) => wf_if_else(*d, lp, fnc),
        SExpr::FnCall(c) => wf_args(c.args, lp, fnc),
        SExpr::Spawn(c) => wf_args(c.args, lp, fnc),
        _ => true,
    }
}

pub open spec fn wf_args(s: Seq<SExpr>, lp: bool, fnc: bool) -> bool
    decreases s,
{
    if s.len() == 0 {
        true
    } else {
        proof {
            assert(decreases_to!(s => s.last()));
        }
        wf_args(s.drop_last(), lp, fnc) && wf_expr(s.last(), lp, fnc)
    }
}

pub open spec fn wf_if_else(d: SIfElse, lp: bool, fnc: bool) -> bool
    decreases d,
{
    wf_expr(d.cond, lp, fnc) && wf_block(d.if_blk, lp, fnc) && match d.else_blk {
        Some(b) => wf_block(b, lp, fnc),
        None => true,
    }
}

/// A well-formed block: its declarations and last expression are, and its
/// names are the names that its declarations bind.
pub open spec fn wf_block(b: SBlock, lp: bool, fnc: bool) -> bool
    decreases b,
{
    &&& wf_decls(b.decls, lp, fnc)
    &&& match b.last {
        Some(e) => wf_expr(*e, lp, fnc),
        None => true,
    }
    &&& b.symbols == declared_names(b.decls)
}

pub open spec fn wf_decls(s: Seq<SDecl>, lp: bool, fnc: bool) -> bool
    decreases s,
{
    if s.len() == 0 {
        true
    } else {
        proof {
            assert(decreases_to!(s => s.last()));
        }
        wf_decls(s.drop_last(), lp, fnc) && wf_decl(s.last(), lp, fnc)
    }
}

/// A well-formed declaration, where `lp` says whether `break` is allowed
/// and `fnc` whether `return` is. Loops allow `break` in their condition
/// and body; function bodies allow `return`.
pub open spec fn wf_decl(d: SDecl, lp: bool, fnc: bool) -> bool
    decreases d,
{
    match d {
        SDecl::Let(_, e, _) => wf_expr(e, lp, fnc),
        SDecl::Assign(_, e) => wf_expr(e, lp, fnc),
        SDecl::ExprStmt(e) => wf_expr(e, lp, fnc),
        SDecl::IfOnly(x) => wf_if_else(x, lp, fnc),
        SDecl::Loop(l) => (match l.cond {
            Some(c) => wf_expr(c, true, fnc),
            None => true,
        }) && wf_block(l.body, true, fnc),
        SDecl::FnDecl(f) => wf_block(f.body, lp, true),
        SDecl::Break => lp,
        SDecl::Return(e) => fnc && match e {
            Some(x) => wf_expr(x, lp, fnc),
            None => true,
        },
        _ => true,
    }
}

pub open spec fn parsed_wf(r: Result<(SDecl, int), Seq<char>>, lp: bool, fnc: bool) -> bool {
    r matches Ok((d, _)) ==> wf_decl(d, lp, fnc)
}

pub open spec fn not_let(r: Result<(SDecl, int), Seq<char>>) -> bool {
    !(r matches Ok((SDecl::Let(_, _, _), _)))
}

// ---------------------------------------------------------------------
// Each parsing function gives well-formed results
// ---------------------------------------------------------------------

proof fn lemma_as_expr_wf(r: Result<(SDecl, int), Seq<char>>, lp: bool, fnc: bool)
    requires
        parsed_wf(r, lp, fnc),
    ensures
        as_expr(r) matches Ok((e, _)) ==> wf_expr(e, lp, fnc),
{
}

proof fn lemma_as_block_wf(r: Result<(SDecl, int), Seq<char>>, lp: bool, fnc: bool)
    requires
        parsed_wf(r, lp, fnc),
    ensures
        as_block(r) matches Ok((b, _)) ==> wf_block(b, lp, fnc),
{
    if let Ok((d, _)) = r {
        if let SDecl::ExprStmt(SExpr::Block(b)) = d {
            assert(wf_expr(SExpr::Block(b), lp, fnc));
        }
    }
}

proof fn lemma_wf_decl(ts: Seq<SToken>, pos: int, lp: bool, fnc: bool)
    ensures
        parsed_wf(ps_decl(ts, pos, lp, fnc), lp, fnc),
        ps_decl(ts, pos, lp, fnc) matches Ok((SDecl::Let(_, _, _), p)) ==> at(ts, p, SToken::Semi),
    decreases ts.len() - pos, 8nat,
{
    reveal(ps_let);
    reveal(ps_loop);
    reveal(ps_fn_decl);
    if 0 < pos <= ts.len() {
        match ts[pos - 1] {
            SToken::Integer(_) | SToken::Float(_) | SToken::Bool(_) | SToken::Minus | SToken::Ident(_)
            | SToken::OpenParen | SToken::Bang | SToken::OpenBrace | SToken::If | SToken::Str(_) => {
                lemma_wf_expr(ts, pos, 0, lp, fnc);
            },
            SToken::Spawn | SToken::Join | SToken::Wait | SToken::Post => {
                lemma_wf_expr(ts, adv(ts, pos), 0, lp, fnc);
                lemma_as_expr_wf(ps_expr(ts, adv(ts, pos), 0, lp, fnc), lp, fnc);
            },
            SToken::Return => {
                lemma_wf_expr(ts, adv(ts, pos), 0, lp, fnc);
                lemma_as_expr_wf(ps_expr(ts, adv(ts, pos), 0, lp, fnc), lp, fnc);
            },
            SToken::Let => {
                lemma_wf_let(ts, pos, lp, fnc);
            },
            SToken::Loop => {
                lemma_wf_loop(ts, pos, lp, fnc);
            },
            SToken::Fn => {
                lemma_wf_fn_decl(ts, pos, lp, fnc);
            },
            _ => {},
        }
    }
}

proof fn lemma_wf_expr(ts: Seq<SToken>, pos: int, min_bp: int, lp: bool, fnc: bool)
    ensures
        parsed_wf(ps_expr(ts, pos, min_bp, lp, fnc), lp, fnc),
        not_let(ps_expr(ts, pos, min_bp, lp, fnc)),
    decreases ts.len() - pos, 6nat,
{
    if 0 < pos <= ts.len() {
        let prev = ts[pos - 1];
        let first = match prev {
            SToken::OpenParen => if pos == ts.len() {
                Err("Unexpected end of input"@)
            } else {
                match ps_expr(ts, pos + 1, 0, lp, fnc) {
                    Err(m) => Err(m),
                    Ok((l, p)) => if at(ts, p, SToken::CloseParen) {
                        Ok((l, p + 1))
                    } else {
                        Err("Expected closing parenthesis"@)
                    },
                }
            },
            SToken::Integer(v) => Ok((SDecl::ExprStmt(SExpr::Integer(v)), pos)),
            SToken::Float(f) => Ok((SDecl::ExprStmt(SExpr::Float(f)), pos)),
            SToken::Bool(b) => Ok((SDecl::ExprStmt(SExpr::Bool(b)), pos)),
            SToken::Str(x) => Ok((SDecl::ExprStmt(SExpr::Str(x)), pos)),
            SToken::Minus => if pos == ts.len() {
                Err("Unexpected end of input"@)
            } else {
                match as_expr(ps_expr(ts, pos + 1, prefix_bp(UnOpType::Negate) as int, lp, fnc)) {
                    Err(m) => Err(m),
                    Ok((e, p)) => Ok((SDecl::ExprStmt(SExpr::UnOp(UnOpType::Negate, Box::new(e))), p)),
                }
            },
            SToken::Bang => if pos == ts.len() {
                Err("Unexpected end of input"@)
            } else {
                match as_expr(ps_expr(ts, pos + 1, prefix_bp(UnOpType::Not) as int, lp, fnc)) {
                    Err(m) => Err(m),
                    Ok((e, p)) => Ok((SDecl::ExprStmt(SExpr::UnOp(UnOpType::Not, Box::new(e))), p)),
                }
            },
            SToken::Ident(id) => ps_ident(ts, pos, id, min_bp, lp, fnc),
            SToken::OpenBrace => ps_blk(ts, pos, lp, fnc),
            SToken::If => ps_if_else(ts, pos, min_bp, lp, fnc),
            _ => Err(crate::grammar::token_err("Unexpected token - not an expression: '"@, prev)),
        };
        match prev {
            SToken::OpenParen => if pos < ts.len() {
                lemma_wf_expr(ts, pos + 1, 0, lp, fnc);
            },
            SToken::Minus => if pos < ts.len() {
                lemma_wf_expr(ts, pos + 1, prefix_bp(UnOpType::Negate) as int, lp, fnc);
                lemma_as_expr_wf(ps_expr(ts, pos + 1, prefix_bp(UnOpType::Negate) as int, lp, fnc), lp, fnc);
            },
            SToken::Bang => if pos < ts.len() {
                lemma_wf_expr(ts, pos + 1, prefix_bp(UnOpType::Not) as int, lp, fnc);
                lemma_as_expr_wf(ps_expr(ts, pos + 1, prefix_bp(UnOpType::Not) as int, lp, fnc), lp, fnc);
            },
            SToken::Ident(id) => lemma_wf_ident(ts, pos, id, min_bp, lp, fnc),
            SToken::OpenBrace => lemma_wf_blk(ts, pos, lp, fnc),
            SToken::If => lemma_wf_if_else(ts, pos, min_bp, lp, fnc),
            _ => {},
        }
        assert(ps_expr(ts, pos, min_bp, lp, fnc) == match first {
            Err(m) => Err(m),
            Ok((lhs, cur)) => if cur < pos || cur > ts.len() {
                Err(stuck())
            } else {
                ps_infix(ts, lhs, cur, min_bp, lp, fnc)
            },
        });
        if let Ok((lhs, cur)) = first {
            if pos <= cur <= ts.len() {
                assert(!(lhs is Let));
                lemma_wf_infix(ts, lhs, cur, min_bp, lp, fnc);
            }
        }
    }
}

proof fn lemma_wf_infix(ts: Seq<SToken>, lhs: SDecl, cur: int, min_bp: int, lp: bool, fnc: bool)
    requires
        wf_decl(lhs, lp, fnc),
        !(lhs is Let),
    ensures
        parsed_wf(ps_infix(ts, lhs, cur, min_bp, lp, fnc), lp, fnc),
        not_let(ps_infix(ts, lhs, cur, min_bp, lp, fnc)),
    decreases ts.len() - cur, 5nat,
{
    if 1 <= cur < ts.len() && !at(ts, cur, SToken::Semi) && !at(ts, cur, SToken::CloseBrace) && !at(
        ts,
        cur,
        SToken::CloseParen,
    ) && !at(ts, cur, SToken::OpenBrace) && !at(ts, cur, SToken::Comma) {
        if let Ok(op) = binop_of(ts[cur]) {
            let (l_bp, r_bp) = infix_bp(op);
            if l_bp > min_bp {
                let q = adv(ts, adv(ts, cur));
                lemma_wf_expr(ts, q, r_bp as int, lp, fnc);
                if let Ok((rhs, p)) = ps_expr(ts, q, r_bp as int, lp, fnc) {
                    if let (Ok(l), Ok(r)) = (to_expr_spec(lhs), to_expr_spec(rhs)) {
                        if cur < p <= ts.len() {
                            let nl = SDecl::ExprStmt(SExpr::BinOp(op, Box::new(l), Box::new(r)));
                            assert(wf_expr(SExpr::BinOp(op, Box::new(l), Box::new(r)), lp, fnc));
                            lemma_wf_infix(ts, nl, p, min_bp, lp, fnc);
                        }
                    }
                }
            }
        }
    }
}

proof fn lemma_wf_ident(ts: Seq<SToken>, pos: int, name: Seq<char>, min_bp: int, lp: bool, fnc: bool)
    ensures
        parsed_wf(ps_ident(ts, pos, name, min_bp, lp, fnc), lp, fnc),
    decreases ts.len() - pos, 5nat,
{
    if at(ts, pos, SToken::Eq) {
        lemma_wf_expr(ts, adv(ts, pos + 1), min_bp, lp, fnc);
        lemma_as_expr_wf(ps_expr(ts, adv(ts, pos + 1), min_bp, lp, fnc), lp, fnc);
    } else if at(ts, pos, SToken::OpenParen) {
        lemma_wf_args(ts, pos + 1, seq![], lp, fnc);
        if let Ok((args, p)) = ps_args(ts, pos + 1, seq![], lp, fnc) {
            assert(wf_expr(SExpr::FnCall(crate::structs::SFnCall { name, args }), lp, fnc));
        }
    }
}

proof fn lemma_wf_args(ts: Seq<SToken>, p: int, acc: Seq<SExpr>, lp: bool, fnc: bool)
    requires
        wf_args(acc, lp, fnc),
    ensures
        ps_args(ts, p, acc, lp, fnc) matches Ok((args, _)) ==> wf_args(args, lp, fnc),
    decreases ts.len() - p, 4nat,
{
    if 0 <= p < ts.len() && !at(ts, p, SToken::CloseParen) {
        lemma_wf_expr(ts, p + 1, 0, lp, fnc);
        lemma_as_expr_wf(ps_expr(ts, p + 1, 0, lp, fnc), lp, fnc);
        if let Ok((e, q)) = as_expr(ps_expr(ts, p + 1, 0, lp, fnc)) {
            assert(acc.push(e).drop_last() =~= acc);
            let next = if at(ts, q, SToken::CloseParen) {
                Ok(q)
            } else if at(ts, q, SToken::Comma) {
                Ok(q + 1)
            } else {
                Err("Expected ',' to separate function arguments"@)
            };
            if let Ok(q2) = next {
                if p < q2 <= ts.len() {
                    lemma_wf_args(ts, q2, acc.push(e), lp, fnc);
                }
            }
        }
    }
}

proof fn lemma_wf_blk(ts: Seq<SToken>, pos: int, lp: bool, fnc: bool)
    ensures
        parsed_wf(ps_blk(ts, pos, lp, fnc), lp, fnc),
    decreases ts.len() - pos, 5nat,
{
    lemma_wf_seq(ts, pos, lp, fnc);
    if let Ok((b, p)) = ps_seq(ts, pos, lp, fnc) {
        assert(wf_expr(SExpr::Block(b), lp, fnc));
    }
}

proof fn lemma_wf_seq(ts: Seq<SToken>, pos: int, lp: bool, fnc: bool)
    ensures
        ps_seq(ts, pos, lp, fnc) matches Ok((b, _)) ==> wf_block(b, lp, fnc),
    decreases ts.len() - pos, 4nat,
{
    lemma_wf_seq_from(ts, pos, SBlock { decls: seq![], last: None, symbols: seq![] }, lp, fnc);
}

proof fn lemma_wf_seq_from(ts: Seq<SToken>, cur: int, acc: SBlock, lp: bool, fnc: bool)
    requires
        wf_decls(acc.decls, lp, fnc),
        acc.last is None,
        acc.symbols == declared_names(acc.decls),
    ensures
        ps_seq_from(ts, cur, acc, lp, fnc) matches Ok((b, _)) ==> wf_block(b, lp, fnc),
    decreases ts.len() - cur, 3nat,
{
    if 0 <= cur < ts.len() && !at(ts, cur, SToken::CloseBrace) {
        lemma_wf_decl(ts, cur + 1, lp, fnc);
        if let Ok((d, p)) = ps_decl(ts, cur + 1, lp, fnc) {
            let ds = acc.decls.push(d);
            assert(ds.drop_last() =~= acc.decls);
            let syms = match d {
                SDecl::FnDecl(f) => acc.symbols.push(f.name),
                _ => acc.symbols,
            };
            if cur < p <= ts.len() {
                if at(ts, p, SToken::Semi) {
                    let syms2 = match d {
                        SDecl::Let(x, _, _) => syms.push(x),
                        _ => syms,
                    };
                    lemma_wf_seq_from(ts, p + 1, SBlock { decls: ds, last: None, symbols: syms2 }, lp, fnc);
                } else if (p >= ts.len() || at(ts, p, SToken::CloseBrace)) && d is ExprStmt {
                } else if ts[p - 1] == SToken::CloseBrace {
                    lemma_wf_seq_from(ts, p, SBlock { decls: ds, last: None, symbols: syms }, lp, fnc);
                }
            }
        }
    }
}

proof fn lemma_wf_let(ts: Seq<SToken>, pos: int, lp: bool, fnc: bool)
    ensures
        parsed_wf(ps_let(ts, pos, lp, fnc), lp, fnc),
        ps_let(ts, pos, lp, fnc) matches Ok((SDecl::Let(_, _, _), p)) ==> at(ts, p, SToken::Semi),
    decreases ts.len() - pos, 7nat,
{
    reveal(ps_let);
    if 0 <= pos < ts.len() {
        if let SToken::Ident(x) = ts[pos] {
            if let Ok((ann, p1)) = ps_opt_ann(ts, pos + 1) {
                if at(ts, p1, SToken::Eq) && p1 > pos {
                    lemma_wf_decl(ts, adv(ts, p1 + 1), lp, fnc);
                    lemma_as_expr_wf(ps_decl(ts, adv(ts, p1 + 1), lp, fnc), lp, fnc);
                }
            }
        }
    }
}

proof fn lemma_wf_loop(ts: Seq<SToken>, pos: int, lp: bool, fnc: bool)
    ensures
        parsed_wf(ps_loop(ts, pos, fnc), lp, fnc),
        not_let(ps_loop(ts, pos, fnc)),
    decreases ts.len() - pos, 7nat,
{
    reveal(ps_loop);
    lemma_wf_expr(ts, adv(ts, pos), 0, true, fnc);
    lemma_as_expr_wf(ps_expr(ts, adv(ts, pos), 0, true, fnc), true, fnc);
    if let Ok((cond, p2)) = as_expr(ps_expr(ts, adv(ts, pos), 0, true, fnc)) {
        if !(cond is Block) && at(ts, p2, SToken::OpenBrace) && p2 >= pos {
            lemma_wf_blk(ts, p2 + 1, true, fnc);
            lemma_as_block_wf(ps_blk(ts, p2 + 1, true, fnc), true, fnc);
        }
    }
}

proof fn lemma_wf_if_else(ts: Seq<SToken>, pos: int, min_bp: int, lp: bool, fnc: bool)
    ensures
        parsed_wf(ps_if_else(ts, pos, min_bp, lp, fnc), lp, fnc),
    decreases ts.len() - pos, 5nat,
{
    if 0 <= pos < ts.len() {
        lemma_wf_expr(ts, pos + 1, min_bp, lp, fnc);
        lemma_as_expr_wf(ps_expr(ts, pos + 1, min_bp, lp, fnc), lp, fnc);
        if let Ok((cond, p2)) = as_expr(ps_expr(ts, pos + 1, min_bp, lp, fnc)) {
            if at(ts, p2, SToken::OpenBrace) && p2 >= pos {
                lemma_wf_blk(ts, p2 + 1, lp, fnc);
                lemma_as_block_wf(ps_blk(ts, p2 + 1, lp, fnc), lp, fnc);
                if let Ok((if_blk, p4)) = as_block(ps_blk(ts, p2 + 1, lp, fnc)) {
                    if at(ts, p4, SToken::Else) && at(ts, p4 + 1, SToken::OpenBrace) && p4 >= pos {
                        lemma_wf_blk(ts, p4 + 2, lp, fnc);
                        lemma_as_block_wf(ps_blk(ts, p4 + 2, lp, fnc), lp, fnc);
                        if let Ok((eb, p7)) = as_block(ps_blk(ts, p4 + 2, lp, fnc)) {
                            assert(wf_if_else(SIfElse { cond, if_blk, else_blk: Some(eb) }, lp, fnc));
                            assert(wf_expr(
                                SExpr::IfElse(Box::new(SIfElse { cond, if_blk, else_blk: Some(eb) })),
                                lp,
                                fnc,
                            ));
                        }
                    }
                }
            }
        }
    }
}

proof fn lemma_wf_fn_decl(ts: Seq<SToken>, pos: int, lp: bool, fnc: bool)
    ensures
        parsed_wf(ps_fn_decl(ts, pos, lp), lp, fnc),
        not_let(ps_fn_decl(ts, pos, lp)),
    decreases ts.len() - pos, 7nat,
{
    reveal(ps_fn_decl);
    if 0 <= pos < ts.len() {
        if let SToken::Ident(name) = ts[pos] {
            if at(ts, pos + 1, SToken::OpenParen) {
                if let Ok((params, p)) = ps_params(ts, pos + 2, seq![]) {
                    if at(ts, p, SToken::CloseParen) {
                        let rt = if at(ts, p + 1, SToken::FnDeclReturn) {
                            ps_type_ann(ts, p + 2)
                        } else {
                            Ok((crate::structs::SType::Unit, p + 1))
                        };
                        if let Ok((ret_type, p2)) = rt {
                            if at(ts, p2, SToken::OpenBrace) && p2 >= pos {
                                lemma_wf_blk(ts, p2 + 1, lp, true);
                                lemma_as_block_wf(ps_blk(ts, p2 + 1, lp, true), lp, true);
                            }
                        }
                    }
                }
            }
        }
    }
}

// ---------------------------------------------------------------------
// Laws
// ---------------------------------------------------------------------

/// Law: a token sequence that parses (as the parser does, from the start,
/// with `break` allowed where `lp` and `return` where `fnc`) gives a
/// well-formed block: `break` stands only where allowed or inside loops,
/// `return` only where allowed or inside functions, and every block lists
/// exactly the names that its `let` statements and functions bind, in order.
pub proof fn law_parsed_tokens_well_formed(ts: Seq<SToken>, lp: bool, fnc: bool)
    ensures
        ps_seq(ts, 0, lp, fnc) matches Ok((b, _)) ==> wf_block(b, lp, fnc),
{
    lemma_wf_seq(ts, 0, lp, fnc);
}

/// Law: every program that a source text holds is well formed: outside of
/// loops there is no `break`, outside of functions no `return`, and every
/// block lists exactly the names that its `let` statements and functions
/// bind, in order.
pub proof fn law_parsed_program_well_formed(inp: Seq<char>)
    ensures
        parse_source(inp) matches Ok(p) ==> wf_block(p, false, false),
{
    if let Some(ts) = crate::lexer::lex_spec(inp) {
        lemma_wf_seq(ts, 0, false, false);
    }
}

/// Where a sequence of declarations stops: at a closing brace or at the end
/// of the tokens.
proof fn lemma_seq_stop(ts: Seq<SToken>, cur: int, acc: SBlock, lp: bool, fnc: bool)
    requires
        cur >= 0,
    ensures
        ps_seq_from(ts, cur, acc, lp, fnc) matches Ok((b, p)) ==> p >= ts.len() || at(ts, p, SToken::CloseBrace),
    decreases ts.len() - cur,
{
    if 0 <= cur < ts.len() && !at(ts, cur, SToken::CloseBrace) {
        if let Ok((d, p)) = ps_decl(ts, cur + 1, lp, fnc) {
            let syms = match d {
                SDecl::FnDecl(f) => acc.symbols.push(f.name),
                _ => acc.symbols,
            };
            if cur < p <= ts.len() {
                if at(ts, p, SToken::Semi) {
                    let syms2 = match d {
                        SDecl::Let(x, _, _) => syms.push(x),
                        _ => syms,
                    };
                    lemma_seq_stop(ts, p + 1, SBlock { decls: acc.decls.push(d), last: None, symbols: syms2 }, lp, fnc);
                } else if (p >= ts.len() || at(ts, p, SToken::CloseBrace)) && d is ExprStmt {
                } else if ts[p - 1] == SToken::CloseBrace {
                    lemma_seq_stop(ts, p, SBlock { decls: acc.decls.push(d), last: None, symbols: syms }, lp, fnc);
                }
            }
        }
    }
}

/// Law: a sequence of declarations, parsed from any position, lists as its
/// names exactly the names that its `let` statements and functions bind, in
/// order; it runs up to a closing brace or the end of the tokens, so its
/// last expression, where it has one, is followed by no semicolon.
pub proof fn law_block_names(ts: Seq<SToken>, pos: int, lp: bool, fnc: bool)
    requires
        pos >= 0,
    ensures
        ps_seq(ts, pos, lp, fnc) matches Ok((b, p)) ==> {
            &&& b.symbols == declared_names(b.decls)
            &&& p >= ts.len() || at(ts, p, SToken::CloseBrace)
            &&& b.last is Some ==> !at(ts, p, SToken::Semi)
        },
{
    lemma_wf_seq(ts, pos, lp, fnc);
    lemma_seq_stop(ts, pos, SBlock { decls: seq![], last: None, symbols: seq![] }, lp, fnc);
}

/// Law: in a sequence, a declaration followed by a semicolon is a statement
/// of the block and never its last expression (a `let` adds its name); an
/// expression followed by no semicolon but by a closing brace or the end of
/// the tokens is the block's last expression, and the sequence ends there.
pub proof fn law_last_expression(ts: Seq<SToken>, cur: int, acc: SBlock, lp: bool, fnc: bool)
    requires
        0 <= cur < ts.len(),
        !at(ts, cur, SToken::CloseBrace),
    ensures
        ps_decl(ts, cur + 1, lp, fnc) matches Ok((d, p)) ==> (cur < p <= ts.len() && at(ts, p, SToken::Semi)
            ==> ps_seq_from(ts, cur, acc, lp, fnc) == ps_seq_from(
            ts,
            p + 1,
            SBlock {
                decls: acc.decls.push(d),
                last: None,
                symbols: match d {
                    SDecl::Let(x, _, _) => acc.symbols.push(x),
                    SDecl::FnDecl(f) => acc.symbols.push(f.name),
                    _ => acc.symbols,
                },
            },
            lp,
            fnc,
        )),
        ps_decl(ts, cur + 1, lp, fnc) matches Ok((d, p)) ==> (cur < p <= ts.len() && !at(ts, p, SToken::Semi) && (p
            >= ts.len() || at(ts, p, SToken::CloseBrace)) && d is ExprStmt ==> ps_seq_from(ts, cur, acc, lp, fnc)
            == Ok::<(SBlock, int), Seq<char>>(
            (SBlock { decls: acc.decls, last: Some(Box::new(d->ExprStmt_0)), symbols: acc.symbols }, p),
        )),
{
}

/// Law: `break` is refused where no loop encloses it and accepted inside
/// one; a loop parses alike inside and outside loops, so it grants no
/// permission to what follows it: a `break` right after a loop (or after the
/// loop and a semicolon) in a sequence where no loop encloses it is refused.
pub proof fn law_break_after_loop(ts: Seq<SToken>, cur: int, acc: SBlock, fnc: bool)
    requires
        0 <= cur < ts.len(),
        ts[cur] == SToken::Loop,
    ensures
        ps_decl(ts, cur + 1, true, fnc) == ps_decl(ts, cur + 1, false, fnc),
        forall|q: int| 0 <= q < ts.len() && ts[q] == SToken::Break ==> (#[trigger] ps_decl(ts, q + 1, false, fnc))
            == Err::<(SDecl, int), Seq<char>>("break outside of loop"@) && ps_decl(ts, q + 1, true, fnc) == Ok::<
            (SDecl, int),
            Seq<char>,
        >((SDecl::Break, q + 1)),
        ps_decl(ts, cur + 1, false, fnc) matches Ok((d, p)) ==> (d is Loop && cur < p < ts.len() && ts[p - 1]
            == SToken::CloseBrace && (ts[p] == SToken::Break || (ts[p] == SToken::Semi && p + 1 < ts.len()
            && ts[p + 1] == SToken::Break)) ==> ps_seq_from(ts, cur, acc, false, fnc) == Err::<
            (SBlock, int),
            Seq<char>,
        >("break outside of loop"@)),
{
    if let Ok((d, p)) = ps_decl(ts, cur + 1, false, fnc) {
        if d is Loop && cur < p < ts.len() && ts[p - 1] == SToken::CloseBrace {
            let syms = acc.symbols;
            if ts[p] == SToken::Break {
                assert(ps_decl(ts, p + 1, false, fnc) == Err::<(SDecl, int), Seq<char>>("break outside of loop"@));
                assert(!at(ts, p, SToken::Semi));
                assert(ps_seq_from(ts, p, SBlock { decls: acc.decls.push(d), last: None, symbols: syms }, false, fnc)
                    == Err::<(SBlock, int), Seq<char>>("break outside of loop"@));
            } else if ts[p] == SToken::Semi && p + 1 < ts.len() && ts[p + 1] == SToken::Break {
                assert(ps_decl(ts, p + 2, false, fnc) == Err::<(SDecl, int), Seq<char>>("break outside of loop"@));
                assert(ps_seq_from(
                    ts,
                    p + 1,
                    SBlock { decls: acc.decls.push(d), last: None, symbols: syms },
                    false,
                    fnc,
                ) == Err::<(SBlock, int), Seq<char>>("break outside of loop"@));
            }
        }
    }
}

/// The token of a binary operator.
pub open spec fn op_token(op: BinOpType) -> SToken {
    match op {
        BinOpType::Add => SToken::Plus,
        BinOpType::Sub => SToken::Minus,
        BinOpType::Mul => SToken::Star,
        BinOpType::Div => SToken::Slash,
        BinOpType::Gt => SToken::Gt,
        BinOpType::Lt => SToken::Lt,
        BinOpType::LogicalEq => SToken::LogEq,
        BinOpType::LogicalAnd => SToken::LogAnd,
        BinOpType::LogicalOr => SToken::LogOr,
    }
}

/// How strongly a binary operator binds: `*` and `/` most, then `+` and
/// `-`, then the comparisons, then `&&`, and `||` least.
pub open spec fn precedence(op: BinOpType) -> int {
    match op {
        BinOpType::Mul | BinOpType::Div => 4,
        BinOpType::Add | BinOpType::Sub => 3,
        BinOpType::LogicalEq | BinOpType::Gt | BinOpType::Lt => 2,
        BinOpType::LogicalAnd => 1,
        BinOpType::LogicalOr => 0,
    }
}

pub open spec fn int_expr(v: i64) -> SExpr {
    SExpr::Integer(v)
}

pub open spec fn bin(op: BinOpType, l: SExpr, r: SExpr) -> SExpr {
    SExpr::BinOp(op, Box::new(l), Box::new(r))
}

/// Law: in `a o1 b o2 c`, the operator that binds more strongly takes the
/// middle operand, and of two operators that bind alike the left one does
/// (every binary operator associates to the left), except that two
/// comparisons cannot be chained without parentheses.
pub proof fn law_operator_precedence(a: i64, b: i64, c: i64, o1: BinOpType, o2: BinOpType, lp: bool, fnc: bool)
    ensures
        ps_expr(seq![SToken::Integer(a), op_token(o1), SToken::Integer(b), op_token(o2), SToken::Integer(c)], 1, 0, lp, fnc)
            == if precedence(o1) == 2 && precedence(o2) == 2 {
            Err::<(SDecl, int), Seq<char>>("Comparison operators can't be chained. Use parentheses to disambiguate."@)
        } else if precedence(o2) > precedence(o1) {
            Ok((SDecl::ExprStmt(bin(o1, int_expr(a), bin(o2, int_expr(b), int_expr(c)))), 5))
        } else {
            Ok((SDecl::ExprStmt(bin(o2, bin(o1, int_expr(a), int_expr(b)), int_expr(c))), 5))
        },
{
    let ts = seq![SToken::Integer(a), op_token(o1), SToken::Integer(b), op_token(o2), SToken::Integer(c)];
    let (l1, r1) = infix_bp(o1);
    let (l2, r2) = infix_bp(o2);
    let ea = SDecl::ExprStmt(int_expr(a));
    let eb = SDecl::ExprStmt(int_expr(b));
    let ec = SDecl::ExprStmt(int_expr(c));
    assert(binop_of(ts[1]) == Ok::<BinOpType, Seq<char>>(o1));
    assert(binop_of(ts[3]) == Ok::<BinOpType, Seq<char>>(o2));
    assert(ps_infix(ts, ec, 5, r2 as int, lp, fnc) == Ok::<(SDecl, int), Seq<char>>((ec, 5)));
    assert(ps_expr(ts, 5, r2 as int, lp, fnc) == Ok::<(SDecl, int), Seq<char>>((ec, 5)));
    if l2 > r1 {
        let bc = SDecl::ExprStmt(bin(o2, int_expr(b), int_expr(c)));
        assert(ps_infix(ts, bc, 5, r1 as int, lp, fnc) == Ok::<(SDecl, int), Seq<char>>((bc, 5)));
        assert(ps_infix(ts, eb, 3, r1 as int, lp, fnc) == Ok::<(SDecl, int), Seq<char>>((bc, 5)));
        assert(ps_expr(ts, 3, r1 as int, lp, fnc) == Ok::<(SDecl, int), Seq<char>>((bc, 5)));
        let abc = SDecl::ExprStmt(bin(o1, int_expr(a), bin(o2, int_expr(b), int_expr(c))));
        assert(ps_infix(ts, abc, 5, 0, lp, fnc) == Ok::<(SDecl, int), Seq<char>>((abc, 5)));
        assert(ps_infix(ts, ea, 1, 0, lp, fnc) == Ok::<(SDecl, int), Seq<char>>((abc, 5)));
    } else if l2 < r1 {
        assert(ps_infix(ts, eb, 3, r1 as int, lp, fnc) == Ok::<(SDecl, int), Seq<char>>((eb, 3)));
        assert(ps_expr(ts, 3, r1 as int, lp, fnc) == Ok::<(SDecl, int), Seq<char>>((eb, 3)));
        let ab = SDecl::ExprStmt(bin(o1, int_expr(a), int_expr(b)));
        let abc = SDecl::ExprStmt(bin(o2, bin(o1, int_expr(a), int_expr(b)), int_expr(c)));
        assert(ps_infix(ts, abc, 5, 0, lp, fnc) == Ok::<(SDecl, int), Seq<char>>((abc, 5)));
        assert(ps_infix(ts, ab, 3, 0, lp, fnc) == Ok::<(SDecl, int), Seq<char>>((abc, 5)));
        assert(ps_infix(ts, ea, 1, 0, lp, fnc) == Ok::<(SDecl, int), Seq<char>>((abc, 5)));
    } else {
        assert(ps_infix(ts, eb, 3, r1 as int, lp, fnc) is Err);
        assert(ps_expr(ts, 3, r1 as int, lp, fnc) is Err);
        assert(ps_infix(ts, ea, 1, 0, lp, fnc) is Err);
    }
}

} // verus!
