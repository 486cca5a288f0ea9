//! A Pratt parser from tokens to the syntax tree.
//!
//! The parser reads a token sequence. A position `pos` is the index of the
//! next token (the "peek"); the token before it (`pos - 1`) is the previous
//! token, which each parsing function expects to hold the first token of
//! what it parses.
use crate::grammar::{adv, as_expr, 
    at, ps_args, ps_blk, ps_decl, ps_expr, ps_fn_decl, ps_ident, ps_if_else, ps_infix, ps_let,
    ps_loop, ps_params, ps_seq, ps_seq_from, ps_type_ann,
};
use crate::lexer::{lex, lex_spec, tokens_view};
use crate::structs::{
    SBlock, SDecl, SExpr, SParam, SType, exprs_view, decls_view, strings_view, params_view,
    AssignStmtData, BinOpType, BlockSeq, Decl, Expr, FnCallData, FnDeclData, FnParam, IfElseData,
    LetStmtData, LoopData, ParseError, Type, UnOpType,
};
use crate::text::{lit, push_char};
use crate::token::{SToken, Token};
use std::rc::Rc;
use vstd::prelude::*;

verus! {

pub struct Parser {
    toks: Vec<Token>,
    lex_failed: bool,
    pub is_loop: bool,
    pub is_fn: bool,
}

/// The binding powers (left, right) of an infix operator. Left below right
/// means left associative; equal powers mean no associativity.
pub open spec fn infix_bp(op: BinOpType) -> (u8, u8) {
    match op {
        BinOpType::Mul | BinOpType::Div => (8, 9),
        BinOpType::Add | BinOpType::Sub => (6, 7),
        BinOpType::LogicalEq | BinOpType::Gt | BinOpType::Lt => (5, 5),
        BinOpType::LogicalAnd => (3, 4),
        BinOpType::LogicalOr => (1, 2),
    }
}

/// The binding power of a prefix operator: above every infix operator.
pub open spec fn prefix_bp(op: UnOpType) -> u8 {
    10
}

/// What a parsing function gave, against what the grammar says.
pub open spec fn decl_parse_is(r: Result<(Decl, usize), ParseError>, s: Result<(SDecl, int), Seq<char>>) -> bool {
    match (r, s) {
        (Ok((d, p)), Ok((x, q))) => d@ == x && p as int == q,
        (Err(e), Err(m)) => e@ == m,
        _ => false,
    }
}

pub open spec fn seq_parse_is(r: Result<(BlockSeq, usize), ParseError>, s: Result<(SBlock, int), Seq<char>>) -> bool {
    match (r, s) {
        (Ok((b, p)), Ok((x, q))) => b@ == x && p as int == q,
        (Err(e), Err(m)) => e@ == m,
        _ => false,
    }
}

pub open spec fn type_parse_is(r: Result<(Type, usize), ParseError>, s: Result<(SType, int), Seq<char>>) -> bool {
    match (r, s) {
        (Ok((t, p)), Ok((x, q))) => t@ == x && p as int == q,
        (Err(e), Err(m)) => e@ == m,
        _ => false,
    }
}

impl Parser {
    pub closed spec fn tokens(&self) -> Seq<SToken> {
        tokens_view(self.toks@)
    }

    pub closed spec fn lex_failed_spec(&self) -> bool {
        self.lex_failed
    }

    pub closed spec fn in_loop(&self) -> bool {
        self.is_loop
    }

    pub closed spec fn in_fn(&self) -> bool {
        self.is_fn
    }

    /// A parser over the given tokens.
    pub fn new(toks: Vec<Token>) -> (r: Parser)
        ensures
            r.tokens() == tokens_view(toks@),
            !r.lex_failed_spec(),
            !r.in_loop(),
            !r.in_fn(),
    {
        Parser { toks, lex_failed: false, is_loop: false, is_fn: false }
    }

    /// A parser over the tokens of a text. Where the text does not lex, the
    /// parser holds no tokens and `parse` reports the lexing failure.
    pub fn new_from_string(inp: &str) -> (r: Parser)
        ensures
            match lex_spec(inp@) {
                Some(ts) => r.tokens() == ts && !r.lex_failed_spec(),
                None => r.lex_failed_spec(),
            },
            !r.in_loop(),
            !r.in_fn(),
    {
        match lex(inp) {
            Some(toks) => Parser { toks, lex_failed: false, is_loop: false, is_fn: false },
            None => Parser { toks: Vec::new(), lex_failed: true, is_loop: false, is_fn: false },
        }
    }

    pub fn get_infix_bp(binop: &BinOpType) -> (r: (u8, u8))
        ensures
            r == infix_bp(*binop),
    {
        match binop {
            BinOpType::Mul | BinOpType::Div => (8, 9),
            BinOpType::Add | BinOpType::Sub => (6, 7),
            BinOpType::LogicalEq | BinOpType::Gt | BinOpType::Lt => (5, 5),
            BinOpType::LogicalAnd => (3, 4),
            BinOpType::LogicalOr => (1, 2),
        }
    }

    pub fn get_prefix_bp(unop: &UnOpType) -> (r: u8)
        ensures
            r == prefix_bp(*unop),
    {
        10
    }

    /// Whether the token at `pos` is `k`.
    fn peek_is(&self, pos: usize, k: &Token) -> (r: bool)
        ensures
            r == (pos < self.tokens().len() && self.tokens()[pos as int] == k@),
            self.tokens().len() == self.toks@.len(),
    {
        pos < self.toks.len() && self.toks[pos].equals(k)
    }

    /// The position after the next token, if there is one.
    fn advance(&self, pos: usize) -> (r: usize)
        requires
            pos <= self.tokens().len(),
        ensures
            r == if pos < self.tokens().len() { pos + 1 } else { pos as int },
    {
        if pos < self.toks.len() {
            pos + 1
        } else {
            pos
        }
    }

    /// Expects `k` next and moves past it.
    fn consume(&self, pos: usize, k: &Token, msg: &str) -> (r: Result<usize, ParseError>)
        requires
            pos <= self.tokens().len(),
        ensures
            match r {
                Ok(p) => p == pos + 1 && pos < self.tokens().len() && self.tokens()[pos as int] == k@,
                Err(e) => e@ == msg@ && !(pos < self.tokens().len() && self.tokens()[pos as int] == k@),
            },
    {
        if pos < self.toks.len() && self.peek_is(pos, k) {
            Ok(pos + 1)
        } else {
            Err(ParseError::new(msg))
        }
    }

    /// Expects `k` next without moving.
    fn expect(&self, pos: usize, k: &Token, msg: &str) -> (r: Result<(), ParseError>)
        ensures
            match r {
                Ok(_) => pos < self.tokens().len() && self.tokens()[pos as int] == k@,
                Err(e) => e@ == msg@ && !(pos < self.tokens().len() && self.tokens()[pos as int] == k@),
            },
    {
        if self.peek_is(pos, k) {
            Ok(())
        } else {
            Err(ParseError::new(msg))
        }
    }

    /// An error whose message is `before`, the printed token, and `'`.
    fn token_error(before: &str, tok: &Token) -> (r: ParseError)
        ensures
            r@ == before@ + crate::token::token_text(tok@) + seq!['\''],
    {
        let mut m = lit(before);
        tok.push_text(&mut m);
        push_char(&mut m, '\'');
        ParseError::from_msg(m)
    }

    /// Parses a declaration whose first token is the previous token. At this
    /// stage a declaration is any of: an expression, a let or assignment, a
    /// loop, a function declaration, break, return, yield, spawn, join, wait
    /// and post.
    #[verifier::spinoff_prover]
    #[verifier::rlimit(50)]
    pub fn parse_decl(&self, pos: usize, is_loop: bool, is_fn: bool) -> (r: Result<(Decl, usize), ParseError>)
        requires
            pos <= self.tokens().len(),
        ensures
            r matches Ok((_, p)) ==> pos <= p <= self.tokens().len(),
            decl_parse_is(r, ps_decl(self.tokens(), pos as int, is_loop, is_fn)),
        decreases self.tokens().len() - pos, 8nat,
    {
        let ghost ts = self.tokens();
        if pos == 0 {
            return Err(ParseError::new("Expected previous token"));
        }
        let prev = &self.toks[pos - 1];
        assert(ts[pos - 1] == prev@);
        match prev {
            Token::Integer(_) | Token::Float(_) | Token::Bool(_) | Token::Minus | Token::Ident(_)
            | Token::OpenParen | Token::Bang | Token::OpenBrace | Token::If | Token::String(_) => {
                self.parse_expr(pos, 0, is_loop, is_fn)
            },
            Token::Spawn => {
                let (e, p2) = self.parse_expr_after(pos, is_loop, is_fn)?;
                if let Expr::FnCallExpr(data) = e {
                    Ok((Decl::ExprStmt(Expr::SpawnExpr(data)), p2))
                } else {
                    Err(ParseError::new("spawn expected function call"))
                }
            },
            Token::Join => {
                let (e, p2) = self.parse_expr_after(pos, is_loop, is_fn)?;
                if let Expr::Symbol(tid) = e {
                    Ok((Decl::ExprStmt(Expr::JoinExpr(tid)), p2))
                } else {
                    Err(ParseError::new("join expected variable for thread to join"))
                }
            },
            Token::Wait => {
                let (e, p2) = self.parse_expr_after(pos, is_loop, is_fn)?;
                if let Expr::Symbol(sem) = e {
                    Ok((Decl::WaitStmt(sem), p2))
                } else {
                    Err(ParseError::new("wait expected semaphore variable"))
                }
            },
            Token::Post => {
                let (e, p2) = self.parse_expr_after(pos, is_loop, is_fn)?;
                if let Expr::Symbol(sem) = e {
                    Ok((Decl::PostStmt(sem), p2))
                } else {
                    Err(ParseError::new("post expected semaphore variable"))
                }
            },
            Token::Break => {
                if !is_loop {
                    return Err(ParseError::new("break outside of loop"));
                }
                Ok((Decl::BreakStmt, pos))
            },
            Token::Yield => Ok((Decl::YieldStmt, pos)),
            Token::Return => {
                if !is_fn {
                    return Err(ParseError::new("return outside of fn"));
                }
                if !self.peek_is(pos, &Token::Semi) {
                    let (e, p2) = self.parse_expr_after(pos, is_loop, is_fn)?;
                    Ok((Decl::ReturnStmt(Some(e)), p2))
                } else {
                    Ok((Decl::ReturnStmt(None), pos))
                }
            },
            Token::Let => self.parse_let(pos, is_loop, is_fn),
            Token::Loop => self.parse_loop(pos, is_fn),
            Token::Fn => self.parse_fn_decl(pos, is_loop),
            _ => Err(Self::token_error("Unexpected token: '", prev)),
        }
    }

    /// Parses the expression that follows a keyword (the previous token).
    fn parse_expr_after(&self, pos: usize, is_loop: bool, is_fn: bool) -> (r: Result<(Expr, usize), ParseError>)
        requires
            pos <= self.tokens().len(),
        ensures
            r matches Ok((_, p)) ==> pos <= p <= self.tokens().len(),
            match (r, as_expr(ps_expr(self.tokens(), adv(self.tokens(), pos as int), 0, is_loop, is_fn))) {
                (Ok((e, p)), Ok((x, q))) => e@ == x && p as int == q,
                (Err(e), Err(m)) => e@ == m,
                _ => false,
            },
        decreases self.tokens().len() - pos, 7nat,
    {
        let p = self.advance(pos);
        let (d, p2) = self.parse_expr(p, 0, is_loop, is_fn)?;
        let e = d.into_expr()?;
        Ok((e, p2))
    }

    /// Parses an expression whose first token is the previous token, taking
    /// infix operators that bind at least as strongly as `min_bp`.
    pub fn parse_expr(&self, pos: usize, min_bp: u8, is_loop: bool, is_fn: bool) -> (r: Result<(Decl, usize), ParseError>)
        requires
            pos <= self.tokens().len(),
        ensures
            r matches Ok((_, p)) ==> pos <= p <= self.tokens().len(),
            decl_parse_is(r, ps_expr(self.tokens(), pos as int, min_bp as int, is_loop, is_fn)),
        decreases self.tokens().len() - pos, 6nat,
    {
        let ghost ts = self.tokens();
        if pos == 0 {
            return Err(ParseError::new("Expected previous token"));
        }
        let len = self.toks.len();
        let prev = &self.toks[pos - 1];
        assert(ts[pos - 1] == prev@);
        let (mut lhs, mut cur) = match prev {
            Token::OpenParen => {
                if pos == len {
                    return Err(ParseError::new("Unexpected end of input"));
                }
                let (l, p) = self.parse_expr(pos + 1, 0, is_loop, is_fn)?;
                let p2 = self.consume(p, &Token::CloseParen, "Expected closing parenthesis")?;
                (l, p2)
            },
            Token::Integer(v) => (Decl::ExprStmt(Expr::Integer(*v)), pos),
            Token::Float(f) => (Decl::ExprStmt(Expr::Float(f.copy())), pos),
            Token::Bool(b) => (Decl::ExprStmt(Expr::Bool(*b)), pos),
            Token::String(x) => (Decl::ExprStmt(Expr::StringLiteral(crate::text::copy_string(x))), pos),
            Token::Minus => {
                if pos == len {
                    return Err(ParseError::new("Unexpected end of input"));
                }
                let r_bp = Parser::get_prefix_bp(&UnOpType::Negate);
                let (rhs, p) = self.parse_expr(pos + 1, r_bp, is_loop, is_fn)?;
                let e = rhs.into_expr()?;
                (Decl::ExprStmt(Expr::UnOpExpr(UnOpType::Negate, Box::new(e))), p)
            },
            Token::Bang => {
                if pos == len {
                    return Err(ParseError::new("Unexpected end of input"));
                }
                let r_bp = Parser::get_prefix_bp(&UnOpType::Not);
                let (rhs, p) = self.parse_expr(pos + 1, r_bp, is_loop, is_fn)?;
                let e = rhs.into_expr()?;
                (Decl::ExprStmt(Expr::UnOpExpr(UnOpType::Not, Box::new(e))), p)
            },
            Token::Ident(id) => {
                let name = crate::text::copy_string(id);
                self.parse_ident(pos, name, min_bp, is_loop, is_fn)?
            },
            Token::OpenBrace => self.parse_blk(pos, is_loop, is_fn)?,
            Token::If => self.parse_if_else(pos, min_bp, is_loop, is_fn)?,
            _ => {
                return Err(Self::token_error("Unexpected token - not an expression: '", prev));
            },
        };
        assert(ps_expr(ts, pos as int, min_bp as int, is_loop, is_fn) == ps_infix(
            ts,
            lhs@,
            cur as int,
            min_bp as int,
            is_loop,
            is_fn,
        ));
        loop
            invariant
                1 <= pos <= cur <= len,
                len == self.tokens().len(),
                ts == self.tokens(),
                ps_infix(ts, lhs@, cur as int, min_bp as int, is_loop, is_fn) == ps_expr(
                    ts,
                    pos as int,
                    min_bp as int,
                    is_loop,
                    is_fn,
                ),
            ensures
                ps_infix(ts, lhs@, cur as int, min_bp as int, is_loop, is_fn) == Ok::<(SDecl, int), Seq<char>>(
                    (lhs@, cur as int),
                ),
            decreases len - cur,
        {
            if cur >= len || self.peek_is(cur, &Token::Semi) || self.peek_is(cur, &Token::CloseBrace)
                || self.peek_is(cur, &Token::CloseParen) || self.peek_is(cur, &Token::OpenBrace)
                || self.peek_is(cur, &Token::Comma) {
                break;
            }
            let tok = &self.toks[cur];
            assert(ts[cur as int] == tok@);
            let binop = BinOpType::from_token(tok);
            assert(ts[cur - 1] == self.toks@[cur - 1]@);
            if binop.is_err() && self.toks[cur - 1].equals(&Token::CloseBrace) {
                break;
            }
            let op = binop?;
            let (l_bp, r_bp) = Parser::get_infix_bp(&op);
            if l_bp == min_bp {
                return Err(ParseError::new(
                    "Comparison operators can't be chained. Use parentheses to disambiguate.",
                ));
            }
            if l_bp < min_bp {
                break;
            }
            let p1 = self.advance(cur);
            let p2 = self.advance(p1);
            let (rhs, p3) = self.parse_expr(p2, r_bp, is_loop, is_fn)?;
            let l = lhs.into_expr()?;
            let r = rhs.into_expr()?;
            lhs = Decl::ExprStmt(Expr::BinOpExpr(op, Box::new(l), Box::new(r)));
            cur = p3;
        }
        Ok((lhs, cur))
    }

    /// Parses what follows an identifier (the previous token): an
    /// assignment `x = e`, a call `f(args)`, or the identifier alone.
    pub fn parse_ident(&self, pos: usize, ident: String, min_bp: u8, is_loop: bool, is_fn: bool) -> (r: Result<(Decl, usize), ParseError>)
        requires
            1 <= pos <= self.tokens().len(),
        ensures
            r matches Ok((_, p)) ==> pos <= p <= self.tokens().len(),
            decl_parse_is(r, ps_ident(self.tokens(), pos as int, ident@, min_bp as int, is_loop, is_fn)),
        decreases self.tokens().len() - pos, 5nat,
    {
        let ghost ts = self.tokens();
        let len = self.toks.len();
        if self.peek_is(pos, &Token::Eq) {
            let p = self.consume(pos, &Token::Eq, "Expected '='")?;
            let p = self.advance(p);
            let (d, p2) = self.parse_expr(p, min_bp, is_loop, is_fn)?;
            let expr = d.into_expr()?;
            return Ok((Decl::AssignStmt(AssignStmtData { ident, expr }), p2));
        } else if self.peek_is(pos, &Token::OpenParen) {
            let mut p = self.consume(pos, &Token::OpenParen, "Expected '('")?;
            let mut args: Vec<Expr> = Vec::new();
            assert(exprs_view(args@) =~= Seq::<SExpr>::empty());
            while p < len
                invariant
                    pos < p <= len,
                    len == self.tokens().len(),
                    ts == self.tokens(),
                    !at(ts, pos as int, SToken::Eq),
                    at(ts, pos as int, SToken::OpenParen),
                    ps_args(ts, p as int, exprs_view(args@), is_loop, is_fn) == ps_args(
                        ts,
                        pos + 1,
                        seq![],
                        is_loop,
                        is_fn,
                    ),
                ensures
                    p >= len || at(ts, p as int, SToken::CloseParen),
                decreases len - p,
            {
                if self.peek_is(p, &Token::CloseParen) {
                    break;
                }
                let q = self.advance(p);
                let (d, q2) = self.parse_expr(q, 0, is_loop, is_fn)?;
                let e = d.into_expr()?;
                proof {
                    crate::structs::lemma_exprs_view_push(args@, e);
                }
                args.push(e);
                p = q2;
                if !self.peek_is(p, &Token::CloseParen) {
                    p = self.consume(p, &Token::Comma, "Expected ',' to separate function arguments")?;
                }
            }
            let p = self.consume(p, &Token::CloseParen, "Expected ')'")?;
            return Ok((Decl::ExprStmt(Expr::FnCallExpr(FnCallData { name: ident, args })), p));
        }
        Ok((Decl::ExprStmt(Expr::Symbol(ident)), pos))
    }

    /// Parses a block whose opening brace is the previous token, and its
    /// closing brace.
    pub fn parse_blk(&self, pos: usize, is_loop: bool, is_fn: bool) -> (r: Result<(Decl, usize), ParseError>)
        requires
            pos <= self.tokens().len(),
        ensures
            r matches Ok((_, p)) ==> pos <= p <= self.tokens().len(),
            decl_parse_is(r, ps_blk(self.tokens(), pos as int, is_loop, is_fn)),
        decreases self.tokens().len() - pos, 5nat,
    {
        let (blk, p) = self.parse_seq(pos, is_loop, is_fn)?;
        let p2 = self.consume(p, &Token::CloseBrace, "Expected '}' to close block")?;
        Ok((Decl::ExprStmt(Expr::BlockExpr(blk)), p2))
    }

    /// Parses a sequence of declarations up to a closing brace or the end of
    /// the tokens. A declaration followed by a semicolon is a statement; one
    /// at the end that is an expression becomes the last expression; a
    /// block-like declaration (ending in '}') needs no semicolon.
    pub fn parse_seq(&self, pos: usize, is_loop: bool, is_fn: bool) -> (r: Result<(BlockSeq, usize), ParseError>)
        requires
            pos <= self.tokens().len(),
        ensures
            r matches Ok((_, p)) ==> pos <= p <= self.tokens().len(),
            seq_parse_is(r, ps_seq(self.tokens(), pos as int, is_loop, is_fn)),
        decreases self.tokens().len() - pos, 4nat,
    {
        let ghost ts = self.tokens();
        let len = self.toks.len();
        let mut decls: Vec<Decl> = Vec::new();
        let mut symbols: Vec<String> = Vec::new();
        let mut cur = pos;
        assert(decls_view(decls@) =~= Seq::<SDecl>::empty());
        assert(strings_view(symbols@) =~= Seq::<Seq<char>>::empty());
        while cur < len
            invariant
                pos <= cur <= len,
                len == self.tokens().len(),
                ts == self.tokens(),
                ps_seq_from(
                    ts,
                    cur as int,
                    SBlock { decls: decls_view(decls@), last: None, symbols: strings_view(symbols@) },
                    is_loop,
                    is_fn,
                ) == ps_seq(ts, pos as int, is_loop, is_fn),
            ensures
                cur >= len || at(ts, cur as int, SToken::CloseBrace),
            decreases len - cur,
        {
            if self.peek_is(cur, &Token::CloseBrace) {
                break;
            }
            cur = cur + 1;
            let (d, p) = self.parse_decl(cur, is_loop, is_fn)?;
            cur = p;
            if let Decl::FnDeclStmt(data) = &d {
                let n = crate::text::copy_string(&data.name);
                assert(strings_view(symbols@.push(n)) =~= strings_view(symbols@).push(n@));
                symbols.push(n);
            }
            if self.peek_is(cur, &Token::Semi) {
                if let Decl::LetStmt(stmt) = &d {
                    let n = crate::text::copy_string(&stmt.ident);
                    assert(strings_view(symbols@.push(n)) =~= strings_view(symbols@).push(n@));
                    symbols.push(n);
                }
                proof {
                    crate::structs::lemma_decls_view_push(decls@, d);
                }
                decls.push(d);
                cur = cur + 1;
                continue;
            }
            let at_end = cur >= len || self.peek_is(cur, &Token::CloseBrace);
            if at_end && matches!(d, Decl::ExprStmt(_)) {
                if let Decl::ExprStmt(e) = d {
                    let blk = BlockSeq { decls, last_expr: Some(Rc::new(e)), symbols };
                    return Ok((blk, cur));
                }
            }
            assert(ts[cur - 1] == self.toks@[cur - 1]@);
            if self.toks[cur - 1].equals(&Token::CloseBrace) {
                proof {
                    crate::structs::lemma_decls_view_push(decls@, d);
                }
                decls.push(d);
            } else {
                return Err(ParseError::new("Expected semicolon"));
            }
        }
        Ok((BlockSeq { decls, last_expr: None, symbols }, cur))
    }

    /// Parses a let statement after `let`: identifier, optional type
    /// annotation, '=', an expression, and a semicolon (which is left for
    /// the sequence to consume).
    pub fn parse_let(&self, pos: usize, is_loop: bool, is_fn: bool) -> (r: Result<(Decl, usize), ParseError>)
        requires
            pos <= self.tokens().len(),
        ensures
            r matches Ok((_, p)) ==> pos <= p <= self.tokens().len(),
            decl_parse_is(r, ps_let(self.tokens(), pos as int, is_loop, is_fn)),
        decreases self.tokens().len() - pos, 7nat,
    {
        reveal(ps_let);
        let ghost ts = self.tokens();
        if pos >= self.toks.len() {
            return Err(ParseError::new("Expected identifier"));
        }
        assert(ts[pos as int] == self.toks@[pos as int]@);
        let ident = match &self.toks[pos] {
            Token::Ident(x) => crate::text::copy_string(x),
            _ => {
                return Err(ParseError::new("Expected identifier"));
            },
        };
        let mut p = pos + 1;
        let mut type_ann: Option<Type> = None;
        if self.peek_is(p, &Token::Colon) {
            p = p + 1;
            let (ty, p2) = self.parse_type_annotation(p)?;
            type_ann = Some(ty);
            p = p2;
        }
        let p = self.consume(p, &Token::Eq, "Expected '='")?;
        let p = self.advance(p);
        let (d, p2) = self.parse_decl(p, is_loop, is_fn)?;
        let expr = d.into_expr()?;
        self.expect(p2, &Token::Semi, "Expected semicolon after let")?;
        Ok((Decl::LetStmt(LetStmtData { ident, expr, type_ann }), p2))
    }

    /// Parses a type annotation that starts at `pos`: `int`, `bool`,
    /// `float` or `()`.
    pub fn parse_type_annotation(&self, pos: usize) -> (r: Result<(Type, usize), ParseError>)
        requires
            pos <= self.tokens().len(),
        ensures
            r matches Ok((_, p)) ==> pos < p <= self.tokens().len(),
            type_parse_is(r, ps_type_ann(self.tokens(), pos as int)),
    {
        if pos >= self.toks.len() {
            return Err(ParseError::new("Expected identifier or '(' for type annotation, got end of input"));
        }
        match &self.toks[pos] {
            Token::Ident(id) => {
                let ty = Type::from_string(id.as_str())?;
                Ok((ty, pos + 1))
            },
            Token::OpenParen => {
                if self.peek_is(pos + 1, &Token::CloseParen) {
                    Ok((Type::Unit, pos + 2))
                } else {
                    Err(ParseError::new("Expected '()' for unit type annotation"))
                }
            },
            other => Err(Self::token_error("Expected identifier or '(' for type annotation, got '", other)),
        }
    }

    /// Parses a loop after `loop`: an optional condition, then the body. A
    /// block right after `loop` is the body of a loop with no condition.
    pub fn parse_loop(&self, pos: usize, is_fn: bool) -> (r: Result<(Decl, usize), ParseError>)
        requires
            pos <= self.tokens().len(),
        ensures
            r matches Ok((_, p)) ==> pos <= p <= self.tokens().len(),
            decl_parse_is(r, ps_loop(self.tokens(), pos as int, is_fn)),
        decreases self.tokens().len() - pos, 7nat,
    {
        reveal(ps_loop);
        let p = self.advance(pos);
        let (c, p2) = self.parse_expr(p, 0, true, is_fn)?;
        let cond = c.into_expr()?;
        if let Expr::BlockExpr(blk) = cond {
            return Ok((Decl::LoopStmt(LoopData { cond: None, body: blk }), p2));
        }
        let p3 = self.consume(p2, &Token::OpenBrace, "Expected { for loop block")?;
        let (b, p4) = self.parse_blk(p3, true, is_fn)?;
        let body = b.into_block()?;
        Ok((Decl::LoopStmt(LoopData { cond: Some(cond), body }), p4))
    }

    /// Parses an if after `if`: the condition, the block, and an optional
    /// else block. With an else it is an expression; without, a statement.
    #[verifier::spinoff_prover]
    #[verifier::rlimit(50)]
    pub fn parse_if_else(&self, pos: usize, min_bp: u8, is_loop: bool, is_fn: bool) -> (r: Result<(Decl, usize), ParseError>)
        requires
            pos <= self.tokens().len(),
        ensures
            r matches Ok((_, p)) ==> pos <= p <= self.tokens().len(),
            decl_parse_is(r, ps_if_else(self.tokens(), pos as int, min_bp as int, is_loop, is_fn)),
        decreases self.tokens().len() - pos, 5nat,
    {
        if pos >= self.toks.len() {
            return Err(ParseError::new("Unexpected end of input"));
        }
        let (c, p2) = self.parse_expr(pos + 1, min_bp, is_loop, is_fn)?;
        let cond = c.into_expr()?;
        let p3 = self.consume(p2, &Token::OpenBrace, "Expected { for if block")?;
        let (b, p4) = self.parse_blk(p3, is_loop, is_fn)?;
        let if_blk = b.into_block()?;
        let mut p = p4;
        let mut else_blk: Option<BlockSeq> = None;
        if self.peek_is(p, &Token::Else) {
            let p5 = self.consume(p, &Token::Else, "Expected 'else' for if")?;
            let p6 = self.consume(p5, &Token::OpenBrace, "Expected { for else block")?;
            let (b2, p7) = self.parse_blk(p6, is_loop, is_fn)?;
            else_blk = Some(b2.into_block()?);
            p = p7;
        }
        let has_else = else_blk.is_some();
        let stmt = IfElseData { cond, if_blk, else_blk };
        if has_else {
            Ok((Decl::ExprStmt(Expr::IfElseExpr(Box::new(stmt))), p))
        } else {
            Ok((Decl::IfOnlyStmt(stmt), p))
        }
    }

    /// Parses a function declaration after `fn`: name, parameters with
    /// optional type annotations, an optional return type after `->`, and
    /// the body, inside which `return` is allowed.
    pub fn parse_fn_decl(&self, pos: usize, is_loop: bool) -> (r: Result<(Decl, usize), ParseError>)
        requires
            pos <= self.tokens().len(),
        ensures
            r matches Ok((_, p)) ==> pos <= p <= self.tokens().len(),
            decl_parse_is(r, ps_fn_decl(self.tokens(), pos as int, is_loop)),
        decreases self.tokens().len() - pos, 7nat,
    {
        reveal(ps_fn_decl);
        let ghost ts = self.tokens();
        let len = self.toks.len();
        if pos >= len {
            return Err(ParseError::new("Expected identifier"));
        }
        assert(ts[pos as int] == self.toks@[pos as int]@);
        let name = match &self.toks[pos] {
            Token::Ident(x) => crate::text::copy_string(x),
            _ => {
                return Err(ParseError::new("Expected identifier"));
            },
        };
        let mut p = self.consume(pos + 1, &Token::OpenParen, "Expected { for function parameters")?;
        let mut params: Vec<FnParam> = Vec::new();
        assert(params_view(params@) =~= Seq::<SParam>::empty());
        while p < len
            invariant
                pos < p <= len,
                len == self.tokens().len(),
                ts == self.tokens(),
                ts[pos as int] == SToken::Ident(name@),
                at(ts, pos + 1, SToken::OpenParen),
                ps_params(ts, p as int, params_view(params@)) == ps_params(ts, pos + 2, seq![]),
            ensures
                p >= len || at(ts, p as int, SToken::CloseParen),
            decreases len - p,
        {
            reveal(ps_fn_decl);
            if self.peek_is(p, &Token::CloseParen) {
                break;
            }
            assert(ts[p as int] == self.toks@[p as int]@);
            let pname = match &self.toks[p] {
                Token::Ident(x) => crate::text::copy_string(x),
                _ => {
                    return Err(ParseError::new("Expected identifier"));
                },
            };
            p = p + 1;
            let mut type_ann: Option<Type> = None;
            if self.peek_is(p, &Token::Colon) {
                let (t, p2) = self.parse_type_annotation(p + 1)?;
                type_ann = Some(t);
                p = p2;
            }
            let prm = FnParam { name: pname, type_ann };
            assert(params_view(params@.push(prm)) =~= params_view(params@).push(
                SParam { name: prm.name@, type_ann: crate::structs::opt_type_view(prm.type_ann) },
            ));
            params.push(prm);
            if !self.peek_is(p, &Token::CloseParen) {
                p = self.consume(p, &Token::Comma, "Expected ',' to separate function parameters")?;
            }
        }
        let mut p = self.consume(p, &Token::CloseParen, "Expected ')' for function parameters")?;
        let mut ret_type = Type::Unit;
        if self.peek_is(p, &Token::FnDeclReturn) {
            let (t, p2) = self.parse_type_annotation(p + 1)?;
            ret_type = t;
            p = p2;
        }
        let p = self.consume(p, &Token::OpenBrace, "Expected { for function body")?;
        let (b, p2) = self.parse_blk(p, is_loop, true)?;
        let body = b.into_block()?;
        Ok((Decl::FnDeclStmt(FnDeclData { name, params, ret_type, body }), p2))
    }

    /// Parses the whole token sequence as the implicit top-level block.
    pub fn parse(self) -> (r: Result<BlockSeq, ParseError>)
        ensures
            if self.lex_failed_spec() {
                r matches Err(e) && e@ == "Expect lexer to succeed"@
            } else {
                match ps_seq(self.tokens(), 0, self.in_loop(), self.in_fn()) {
                    Ok((b, _)) => r matches Ok(x) && x@ == b,
                    Err(m) => r matches Err(e) && e@ == m,
                }
            },
    {
        if self.lex_failed {
            return Err(ParseError::new("Expect lexer to succeed"));
        }
        let (blk, _) = self.parse_seq(0, self.is_loop, self.is_fn)?;
        Ok(blk)
    }
}

} // verus!
