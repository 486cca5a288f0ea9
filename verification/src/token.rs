//! Tokens of RustScript source text and their printed form.
use crate::text::{bool_text, copy_string, int_text, push_bool, push_int, push_str, push_string};
use vstd::prelude::*;

verus! {

/// A decimal floating-point literal, kept as its shortest decimal text:
/// no leading zeros in the integer part (but at least one digit), no
/// trailing zeros in the fraction, and no '.' when the fraction is zero.
/// This is the text that `f64`'s `Display` gives for such a literal.
#[derive(Debug, PartialEq)]
pub struct FloatLit {
    pub text: String,
}

impl View for FloatLit {
    type V = Seq<char>;

    open spec fn view(&self) -> Seq<char> {
        self.text@
    }
}

impl FloatLit {
    /// A copy of this literal.
    pub fn copy(&self) -> (r: FloatLit)
        ensures
            r@ == self@,
    {
        FloatLit { text: copy_string(&self.text) }
    }
}

#[derive(Debug, PartialEq)]
pub enum Token {
    Semi,
    Colon,
    Dot,
    Comma,
    OpenParen,
    CloseParen,
    OpenBrace,
    CloseBrace,
    OpenBracket,
    CloseBracket,
    At,
    Pound,
    Tilde,
    Question,
    Dollar,
    Eq,
    Bang,
    Lt,
    Gt,
    Minus,
    And,
    Or,
    Plus,
    Star,
    Slash,
    Caret,
    Percent,
    LogEq,
    LogAnd,
    LogOr,
    FnDeclReturn,
    Let,
    If,
    Else,
    Loop,
    Break,
    Fn,
    Return,
    Yield,
    Spawn,
    Join,
    Wait,
    Post,
    Ident(String),
    Bool(bool),
    Integer(i64),
    Float(FloatLit),
    String(String),
}

/// The mathematical value of a token: text payloads become character
/// sequences.
pub enum SToken {
    Semi,
    Colon,
    Dot,
    Comma,
    OpenParen,
    CloseParen,
    OpenBrace,
    CloseBrace,
    OpenBracket,
    CloseBracket,
    At,
    Pound,
    Tilde,
    Question,
    Dollar,
    Eq,
    Bang,
    Lt,
    Gt,
    Minus,
    And,
    Or,
    Plus,
    Star,
    Slash,
    Caret,
    Percent,
    LogEq,
    LogAnd,
    LogOr,
    FnDeclReturn,
    Let,
    If,
    Else,
    Loop,
    Break,
    Fn,
    Return,
    Yield,
    Spawn,
    Join,
    Wait,
    Post,
    Ident(Seq<char>),
    Bool(bool),
    Integer(i64),
    Float(Seq<char>),
    Str(Seq<char>),
}

impl View for Token {
    type V = SToken;

    open spec fn view(&self) -> SToken {
        match self {
            Token::Semi => SToken::Semi,
            Token::Colon => SToken::Colon,
            Token::Dot => SToken::Dot,
            Token::Comma => SToken::Comma,
            Token::OpenParen => SToken::OpenParen,
            Token::CloseParen => SToken::CloseParen,
            Token::OpenBrace => SToken::OpenBrace,
            Token::CloseBrace => SToken::CloseBrace,
            Token::OpenBracket => SToken::OpenBracket,
            Token::CloseBracket => SToken::CloseBracket,
            Token::At => SToken::At,
            Token::Pound => SToken::Pound,
            Token::Tilde => SToken::Tilde,
            Token::Question => SToken::Question,
            Token::Dollar => SToken::Dollar,
            Token::Eq => SToken::Eq,
            Token::Bang => SToken::Bang,
            Token::Lt => SToken::Lt,
            Token::Gt => SToken::Gt,
            Token::Minus => SToken::Minus,
            Token::And => SToken::And,
            Token::Or => SToken::Or,
            Token::Plus => SToken::Plus,
            Token::Star => SToken::Star,
            Token::Slash => SToken::Slash,
            Token::Caret => SToken::Caret,
            Token::Percent => SToken::Percent,
            Token::LogEq => SToken::LogEq,
            Token::LogAnd => SToken::LogAnd,
            Token::LogOr => SToken::LogOr,
            Token::FnDeclReturn => SToken::FnDeclReturn,
            Token::Let => SToken::Let,
            Token::If => SToken::If,
            Token::Else => SToken::Else,
            Token::Loop => SToken::Loop,
            Token::Break => SToken::Break,
            Token::Fn => SToken::Fn,
            Token::Return => SToken::Return,
            Token::Yield => SToken::Yield,
            Token::Spawn => SToken::Spawn,
            Token::Join => SToken::Join,
            Token::Wait => SToken::Wait,
            Token::Post => SToken::Post,
            Token::Ident(s) => SToken::Ident(s@),
            Token::Bool(b) => SToken::Bool(*b),
            Token::Integer(i) => SToken::Integer(*i),
            Token::Float(f) => SToken::Float(f@),
            Token::String(s) => SToken::Str(s@),
        }
    }
}

/// The printed form of a token.
pub open spec fn token_text(t: SToken) -> Seq<char> {
    match t {
        SToken::Semi => seq![';'],
        SToken::Colon => seq![':'],
        SToken::Dot => seq!['.'],
        SToken::Comma => seq![','],
        SToken::OpenParen => seq!['('],
        SToken::CloseParen => seq![')'],
        SToken::OpenBrace => seq!['{'],
        SToken::CloseBrace => seq!['}'],
        SToken::OpenBracket => seq!['['],
        SToken::CloseBracket => seq![']'],
        SToken::At => seq!['@'],
        SToken::Pound => seq!['#'],
        SToken::Tilde => seq!['~'],
        SToken::Question => seq!['?'],
        SToken::Dollar => seq!['$'],
        SToken::Eq => seq!['='],
        SToken::Bang => seq!['!'],
        SToken::Lt => seq!['<'],
        SToken::Gt => seq!['>'],
        SToken::Minus => seq!['-'],
        SToken::And => seq!['&'],
        SToken::Or => seq!['|'],
        SToken::Plus => seq!['+'],
        SToken::Star => seq!['*'],
        SToken::Slash => seq!['/'],
        SToken::Caret => seq!['^'],
        SToken::Percent => seq!['%'],
        SToken::LogEq => seq!['=', '='],
        SToken::LogAnd => seq!['&', '&'],
        SToken::LogOr => seq!['|', '|'],
        SToken::FnDeclReturn => seq!['-', '>'],
        SToken::Let => "let"@,
        SToken::If => "if"@,
        SToken::Else => "else"@,
        SToken::Loop => "loop"@,
        SToken::Break => "break"@,
        SToken::Fn => "fn"@,
        SToken::Return => "return"@,
        SToken::Yield => "yield"@,
        SToken::Spawn => "spawn"@,
        SToken::Join => "join"@,
        SToken::Wait => "wait"@,
        SToken::Post => "post"@,
        SToken::Ident(s) => s,
        SToken::Bool(b) => bool_text(b),
        SToken::Integer(i) => int_text(i as int),
        SToken::Float(f) => f,
        SToken::Str(s) => s,
    }
}

/// The printed form of a single-character token, if `t` is one.
pub open spec fn single_char_of(t: SToken) -> Option<char> {
    match t {
        SToken::Semi => Some(';'),
        SToken::Colon => Some(':'),
        SToken::Dot => Some('.'),
        SToken::Comma => Some(','),
        SToken::OpenParen => Some('('),
        SToken::CloseParen => Some(')'),
        SToken::OpenBrace => Some('{'),
        SToken::CloseBrace => Some('}'),
        SToken::OpenBracket => Some('['),
        SToken::CloseBracket => Some(']'),
        SToken::At => Some('@'),
        SToken::Pound => Some('#'),
        SToken::Tilde => Some('~'),
        SToken::Question => Some('?'),
        SToken::Dollar => Some('$'),
        SToken::Eq => Some('='),
        SToken::Bang => Some('!'),
        SToken::Lt => Some('<'),
        SToken::Gt => Some('>'),
        SToken::Minus => Some('-'),
        SToken::And => Some('&'),
        SToken::Or => Some('|'),
        SToken::Plus => Some('+'),
        SToken::Star => Some('*'),
        SToken::Slash => Some('/'),
        SToken::Caret => Some('^'),
        SToken::Percent => Some('%'),
        _ => None,
    }
}

impl Token {
    /// The printed form of this token.
    pub fn to_string(&self) -> (r: String)
        ensures
            r@ == token_text(self@),
    {
        let mut s = String::new();
        self.push_text(&mut s);
        assert(Seq::<char>::empty() + token_text(self@) =~= token_text(self@));
        s
    }

    /// Appends the printed form of this token.
    pub fn push_text(&self, s: &mut String)
        ensures
            final(s)@ == old(s)@ + token_text(self@),
    {
        match self {
            Token::Semi => push_str(s, ";"),
            Token::Colon => push_str(s, ":"),
            Token::Dot => push_str(s, "."),
            Token::Comma => push_str(s, ","),
            Token::OpenParen => push_str(s, "("),
            Token::CloseParen => push_str(s, ")"),
            Token::OpenBrace => push_str(s, "{"),
            Token::CloseBrace => push_str(s, "}"),
            Token::OpenBracket => push_str(s, "["),
            Token::CloseBracket => push_str(s, "]"),
            Token::At => push_str(s, "@"),
            Token::Pound => push_str(s, "#"),
            Token::Tilde => push_str(s, "~"),
            Token::Question => push_str(s, "?"),
            Token::Dollar => push_str(s, "$"),
            Token::Eq => push_str(s, "="),
            Token::Bang => push_str(s, "!"),
            Token::Lt => push_str(s, "<"),
            Token::Gt => push_str(s, ">"),
            Token::Minus => push_str(s, "-"),
            Token::And => push_str(s, "&"),
            Token::Or => push_str(s, "|"),
            Token::Plus => push_str(s, "+"),
            Token::Star => push_str(s, "*"),
            Token::Slash => push_str(s, "/"),
            Token::Caret => push_str(s, "^"),
            Token::Percent => push_str(s, "%"),
            Token::LogEq => push_str(s, "=="),
            Token::LogAnd => push_str(s, "&&"),
            Token::LogOr => push_str(s, "||"),
            Token::FnDeclReturn => push_str(s, "->"),
            Token::Let => push_str(s, "let"),
            Token::If => push_str(s, "if"),
            Token::Else => push_str(s, "else"),
            Token::Loop => push_str(s, "loop"),
            Token::Break => push_str(s, "break"),
            Token::Fn => push_str(s, "fn"),
            Token::Return => push_str(s, "return"),
            Token::Yield => push_str(s, "yield"),
            Token::Spawn => push_str(s, "spawn"),
            Token::Join => push_str(s, "join"),
            Token::Wait => push_str(s, "wait"),
            Token::Post => push_str(s, "post"),
            Token::Ident(x) => push_string(s, x),
            Token::Bool(b) => push_bool(s, *b),
            Token::Integer(i) => push_int(s, *i),
            Token::Float(f) => push_string(s, &f.text),
            Token::String(x) => push_string(s, x),
        }
        proof {
            reveal_strlit(";");
            reveal_strlit(":");
            reveal_strlit(".");
            reveal_strlit(",");
            reveal_strlit("(");
            reveal_strlit(")");
            reveal_strlit("{");
            reveal_strlit("}");
            reveal_strlit("[");
            reveal_strlit("]");
            reveal_strlit("@");
            reveal_strlit("#");
            reveal_strlit("~");
            reveal_strlit("?");
            reveal_strlit("$");
            reveal_strlit("=");
            reveal_strlit("!");
            reveal_strlit("<");
            reveal_strlit(">");
            reveal_strlit("-");
            reveal_strlit("&");
            reveal_strlit("|");
            reveal_strlit("+");
            reveal_strlit("*");
            reveal_strlit("/");
            reveal_strlit("^");
            reveal_strlit("%");
            reveal_strlit("==");
            reveal_strlit("&&");
            reveal_strlit("||");
            reveal_strlit("->");
        }
        assert(single_char_of(self@) is Some ==> token_text(self@) =~= seq![single_char_of(self@)->0]);
    }

    /// A copy of this token.
    pub fn copy(&self) -> (r: Token)
        ensures
            r@ == self@,
    {
        match self {
            Token::Ident(x) => Token::Ident(copy_string(x)),
            Token::Float(f) => Token::Float(f.copy()),
            Token::String(x) => Token::String(copy_string(x)),
            Token::Bool(b) => Token::Bool(*b),
            Token::Integer(i) => Token::Integer(*i),
            Token::Semi => Token::Semi,
            Token::Colon => Token::Colon,
            Token::Dot => Token::Dot,
            Token::Comma => Token::Comma,
            Token::OpenParen => Token::OpenParen,
            Token::CloseParen => Token::CloseParen,
            Token::OpenBrace => Token::OpenBrace,
            Token::CloseBrace => Token::CloseBrace,
            Token::OpenBracket => Token::OpenBracket,
            Token::CloseBracket => Token::CloseBracket,
            Token::At => Token::At,
            Token::Pound => Token::Pound,
            Token::Tilde => Token::Tilde,
            Token::Question => Token::Question,
            Token::Dollar => Token::Dollar,
            Token::Eq => Token::Eq,
            Token::Bang => Token::Bang,
            Token::Lt => Token::Lt,
            Token::Gt => Token::Gt,
            Token::Minus => Token::Minus,
            Token::And => Token::And,
            Token::Or => Token::Or,
            Token::Plus => Token::Plus,
            Token::Star => Token::Star,
            Token::Slash => Token::Slash,
            Token::Caret => Token::Caret,
            Token::Percent => Token::Percent,
            Token::LogEq => Token::LogEq,
            Token::LogAnd => Token::LogAnd,
            Token::LogOr => Token::LogOr,
            Token::FnDeclReturn => Token::FnDeclReturn,
            Token::Let => Token::Let,
            Token::If => Token::If,
            Token::Else => Token::Else,
            Token::Loop => Token::Loop,
            Token::Break => Token::Break,
            Token::Fn => Token::Fn,
            Token::Return => Token::Return,
            Token::Yield => Token::Yield,
            Token::Spawn => Token::Spawn,
            Token::Join => Token::Join,
            Token::Wait => Token::Wait,
            Token::Post => Token::Post,
        }
    }
}


/// A number for each kind of token that carries no value; the kinds that
/// carry a value share one number.
pub open spec fn kind_num(t: SToken) -> int {
    match t {
            SToken::Semi => 0,
            SToken::Colon => 1,
            SToken::Dot => 2,
            SToken::Comma => 3,
            SToken::OpenParen => 4,
            SToken::CloseParen => 5,
            SToken::OpenBrace => 6,
            SToken::CloseBrace => 7,
            SToken::OpenBracket => 8,
            SToken::CloseBracket => 9,
            SToken::At => 10,
            SToken::Pound => 11,
            SToken::Tilde => 12,
            SToken::Question => 13,
            SToken::Dollar => 14,
            SToken::Eq => 15,
            SToken::Bang => 16,
            SToken::Lt => 17,
            SToken::Gt => 18,
            SToken::Minus => 19,
            SToken::And => 20,
            SToken::Or => 21,
            SToken::Plus => 22,
            SToken::Star => 23,
            SToken::Slash => 24,
            SToken::Caret => 25,
            SToken::Percent => 26,
            SToken::LogEq => 27,
            SToken::LogAnd => 28,
            SToken::LogOr => 29,
            SToken::FnDeclReturn => 30,
            SToken::Let => 31,
            SToken::If => 32,
            SToken::Else => 33,
            SToken::Loop => 34,
            SToken::Break => 35,
            SToken::Fn => 36,
            SToken::Return => 37,
            SToken::Yield => 38,
            SToken::Spawn => 39,
            SToken::Join => 40,
            SToken::Wait => 41,
            SToken::Post => 42,
            _ => 100,
    }
}

impl Token {
    fn kind(&self) -> (r: u8)
        ensures
            r as int == kind_num(self@),
    {
        match self {
            Token::Semi => 0,
            Token::Colon => 1,
            Token::Dot => 2,
            Token::Comma => 3,
            Token::OpenParen => 4,
            Token::CloseParen => 5,
            Token::OpenBrace => 6,
            Token::CloseBrace => 7,
            Token::OpenBracket => 8,
            Token::CloseBracket => 9,
            Token::At => 10,
            Token::Pound => 11,
            Token::Tilde => 12,
            Token::Question => 13,
            Token::Dollar => 14,
            Token::Eq => 15,
            Token::Bang => 16,
            Token::Lt => 17,
            Token::Gt => 18,
            Token::Minus => 19,
            Token::And => 20,
            Token::Or => 21,
            Token::Plus => 22,
            Token::Star => 23,
            Token::Slash => 24,
            Token::Caret => 25,
            Token::Percent => 26,
            Token::LogEq => 27,
            Token::LogAnd => 28,
            Token::LogOr => 29,
            Token::FnDeclReturn => 30,
            Token::Let => 31,
            Token::If => 32,
            Token::Else => 33,
            Token::Loop => 34,
            Token::Break => 35,
            Token::Fn => 36,
            Token::Return => 37,
            Token::Yield => 38,
            Token::Spawn => 39,
            Token::Join => 40,
            Token::Wait => 41,
            Token::Post => 42,
            _ => 100,
        }
    }

    /// Whether two tokens are the same, values included.
    pub fn equals(&self, other: &Token) -> (r: bool)
        ensures
            r == (self@ == other@),
    {
        match (self, other) {
            (Token::Ident(a), Token::Ident(b)) => crate::text::str_eq(a, b),
            (Token::String(a), Token::String(b)) => crate::text::str_eq(a, b),
            (Token::Float(a), Token::Float(b)) => crate::text::str_eq(&a.text, &b.text),
            (Token::Integer(a), Token::Integer(b)) => *a == *b,
            (Token::Bool(a), Token::Bool(b)) => *a == *b,
            _ => {
                let k = self.kind();
                k != 100 && k == other.kind()
            },
        }
    }
}

} // verus!
