//! The bytecode that the compiler emits for the virtual machine.
use crate::text::{copy_string, lit};
use crate::token::FloatLit;
use vstd::prelude::*;
use vstd::std_specs::convert::FromSpecImpl;

verus! {

#[derive(Debug, Clone, Copy, PartialEq, Eq, Structural)]
pub enum BinOp {
    /// Addition of two values of the same type (int or float or string)
    Add,
    /// Subtraction of two values of the same type (int or float)
    Sub,
    /// Multiplication of two values of the same type (int or float)
    Mul,
    /// Division of two values of the same type (int or float)
    Div,
    /// Modulo of two values of the same type (int)
    Mod,
    /// Greater than comparison of two values of the same type (int or float)
    Gt,
    /// Less than comparison of two values of the same type (int or float)
    Lt,
    /// Equality comparison of two values of the same type (bool or int or float or string)
    Eq,
    /// Logical AND of two values of the same type (bool)
    And,
    /// Logical OR of two values of the same type (bool)
    Or,
}

#[derive(Debug, Clone, Copy, PartialEq, Eq, Structural)]
pub enum UnOp {
    /// Negation of a value of the same type (int or float)
    Neg,
    /// Logical negation of a value of the same type (bool)
    Not,
}

#[derive(Debug, Clone, Copy, PartialEq, Eq, Structural)]
pub enum FrameType {
    BlockFrame,
    CallFrame,
}

/// The primitive values that can be stored in the stack.
#[derive(Debug, PartialEq)]
pub enum Value {
    Unitialized,
    Unit,
    Int(i64),
    Float(FloatLit),
    Bool(bool),
    String(String),
}

#[derive(Debug, PartialEq)]
pub enum ByteCode {
    /// Stop the machine (or the thread).
    DONE,
    /// Pop the top value and bind it to the symbol.
    ASSIGN(String),
    /// Push the value of the symbol.
    LD(String),
    /// Push a constant.
    LDC(Value),
    /// Pop the top value.
    POP,
    BINOP(BinOp),
    UNOP(UnOp),
    /// Pop a boolean and jump to the address when it is false.
    JOF(usize),
    GOTO(usize),
    /// Open a scope with the given (not yet initialised) symbols.
    ENTERSCOPE(Vec<String>),
    EXITSCOPE,
    /// Push a closure whose code starts at the address, with the parameters.
    LDF(usize, Vec<String>),
    /// Call the closure below the given number of arguments.
    CALL(usize),
    /// Return from the innermost frame of the given type.
    RESET(FrameType),
    /// Start a thread at the address.
    SPAWN(usize),
    JOIN,
    YIELD,
    WAIT,
    POST,
}

/// Runtime errors of the virtual machine.
#[derive(Debug, PartialEq)]
pub enum ByteCodeError {
    TypeMismatch { expected: String, found: String },
    BadType { expected: String, found: String },
    UnboundedName { name: String },
    EnvironmentDroppedError,
}

pub enum SValue {
    Unitialized,
    Unit,
    Int(i64),
    Float(Seq<char>),
    Bool(bool),
    Str(Seq<char>),
}

pub enum SByteCode {
    DONE,
    ASSIGN(Seq<char>),
    LD(Seq<char>),
    LDC(SValue),
    POP,
    BINOP(BinOp),
    UNOP(UnOp),
    JOF(int),
    GOTO(int),
    ENTERSCOPE(Seq<Seq<char>>),
    EXITSCOPE,
    LDF(int, Seq<Seq<char>>),
    CALL(int),
    RESET(FrameType),
    SPAWN(int),
    JOIN,
    YIELD,
    WAIT,
    POST,
}

impl View for Value {
    type V = SValue;

    open spec fn view(&self) -> SValue {
        match self {
            Value::Unitialized => SValue::Unitialized,
            Value::Unit => SValue::Unit,
            Value::Int(i) => SValue::Int(*i),
            Value::Float(f) => SValue::Float(f@),
            Value::Bool(b) => SValue::Bool(*b),
            Value::String(s) => SValue::Str(s@),
        }
    }
}

pub open spec fn names_view(s: Seq<String>) -> Seq<Seq<char>> {
    s.map_values(|x: String| x@)
}

impl View for ByteCode {
    type V = SByteCode;

    open spec fn view(&self) -> SByteCode {
        match self {
            ByteCode::DONE => SByteCode::DONE,
            ByteCode::ASSIGN(s) => SByteCode::ASSIGN(s@),
            ByteCode::LD(s) => SByteCode::LD(s@),
            ByteCode::LDC(v) => SByteCode::LDC(v@),
            ByteCode::POP => SByteCode::POP,
            ByteCode::BINOP(op) => SByteCode::BINOP(*op),
            ByteCode::UNOP(op) => SByteCode::UNOP(*op),
            ByteCode::JOF(a) => SByteCode::JOF(*a as int),
            ByteCode::GOTO(a) => SByteCode::GOTO(*a as int),
            ByteCode::ENTERSCOPE(v) => SByteCode::ENTERSCOPE(names_view(v@)),
            ByteCode::EXITSCOPE => SByteCode::EXITSCOPE,
            ByteCode::LDF(a, v) => SByteCode::LDF(*a as int, names_view(v@)),
            ByteCode::CALL(n) => SByteCode::CALL(*n as int),
            ByteCode::RESET(t) => SByteCode::RESET(*t),
            ByteCode::SPAWN(a) => SByteCode::SPAWN(*a as int),
            ByteCode::JOIN => SByteCode::JOIN,
            ByteCode::YIELD => SByteCode::YIELD,
            ByteCode::WAIT => SByteCode::WAIT,
            ByteCode::POST => SByteCode::POST,
        }
    }
}

pub open spec fn code_view(s: Seq<ByteCode>) -> Seq<SByteCode> {
    s.map_values(|b: ByteCode| b@)
}

/// The operator that a symbol names, if it names one.
pub open spec fn binop_of(s: Seq<char>) -> Option<BinOp> {
    if s == "+"@ {
        Some(BinOp::Add)
    } else if s == "-"@ {
        Some(BinOp::Sub)
    } else if s == "*"@ {
        Some(BinOp::Mul)
    } else if s == "/"@ {
        Some(BinOp::Div)
    } else if s == "%"@ {
        Some(BinOp::Mod)
    } else if s == ">"@ {
        Some(BinOp::Gt)
    } else if s == "<"@ {
        Some(BinOp::Lt)
    } else if s == "=="@ {
        Some(BinOp::Eq)
    } else if s == "&&"@ {
        Some(BinOp::And)
    } else if s == "||"@ {
        Some(BinOp::Or)
    } else {
        None
    }
}

pub open spec fn binop_symbol(op: BinOp) -> Seq<char> {
    match op {
        BinOp::Add => "+"@,
        BinOp::Sub => "-"@,
        BinOp::Mul => "*"@,
        BinOp::Div => "/"@,
        BinOp::Mod => "%"@,
        BinOp::Gt => ">"@,
        BinOp::Lt => "<"@,
        BinOp::Eq => "=="@,
        BinOp::And => "&&"@,
        BinOp::Or => "||"@,
    }
}

pub open spec fn unop_of(s: Seq<char>) -> Option<UnOp> {
    if s == "-"@ {
        Some(UnOp::Neg)
    } else if s == "!"@ {
        Some(UnOp::Not)
    } else {
        None
    }
}

pub open spec fn unop_symbol(op: UnOp) -> Seq<char> {
    match op {
        UnOp::Neg => "-"@,
        UnOp::Not => "!"@,
    }
}

impl BinOp {
    /// The operator that a symbol names; the symbol must name one.
    pub fn from_symbol(s: &str) -> (r: BinOp)
        requires
            binop_of(s@) is Some,
        ensures
            binop_of(s@) == Some(r),
    {
        let v = crate::text::chars_of(s);
        proof {
            assert(v@.subrange(0, v@.len() as int) =~= s@);
        }
        let n = v.len();
        if crate::lexer::range_is(&v, 0, n, "+") {
            BinOp::Add
        } else if crate::lexer::range_is(&v, 0, n, "-") {
            BinOp::Sub
        } else if crate::lexer::range_is(&v, 0, n, "*") {
            BinOp::Mul
        } else if crate::lexer::range_is(&v, 0, n, "/") {
            BinOp::Div
        } else if crate::lexer::range_is(&v, 0, n, "%") {
            BinOp::Mod
        } else if crate::lexer::range_is(&v, 0, n, ">") {
            BinOp::Gt
        } else if crate::lexer::range_is(&v, 0, n, "<") {
            BinOp::Lt
        } else if crate::lexer::range_is(&v, 0, n, "==") {
            BinOp::Eq
        } else if crate::lexer::range_is(&v, 0, n, "&&") {
            BinOp::And
        } else {
            BinOp::Or
        }
    }

    /// The symbol of the operator.
    pub fn to_symbol(&self) -> (r: String)
        ensures
            r@ == binop_symbol(*self),
    {
        match self {
            BinOp::Add => lit("+"),
            BinOp::Sub => lit("-"),
            BinOp::Mul => lit("*"),
            BinOp::Div => lit("/"),
            BinOp::Mod => lit("%"),
            BinOp::Gt => lit(">"),
            BinOp::Lt => lit("<"),
            BinOp::Eq => lit("=="),
            BinOp::And => lit("&&"),
            BinOp::Or => lit("||"),
        }
    }
}

impl UnOp {
    /// The operator that a symbol names; the symbol must name one.
    pub fn from_symbol(s: &str) -> (r: UnOp)
        requires
            unop_of(s@) is Some,
        ensures
            unop_of(s@) == Some(r),
    {
        let v = crate::text::chars_of(s);
        proof {
            assert(v@.subrange(0, v@.len() as int) =~= s@);
        }
        if crate::lexer::range_is(&v, 0, v.len(), "-") {
            UnOp::Neg
        } else {
            UnOp::Not
        }
    }

    /// The symbol of the operator.
    pub fn to_symbol(&self) -> (r: String)
        ensures
            r@ == unop_symbol(*self),
    {
        match self {
            UnOp::Neg => lit("-"),
            UnOp::Not => lit("!"),
        }
    }
}

impl ByteCode {
    pub fn ldc(v: Value) -> (r: ByteCode)
        ensures
            r@ == SByteCode::LDC(v@),
    {
        ByteCode::LDC(v)
    }

    pub fn ld(sym: &str) -> (r: ByteCode)
        ensures
            r@ == SByteCode::LD(sym@),
    {
        ByteCode::LD(lit(sym))
    }

    pub fn assign(sym: &str) -> (r: ByteCode)
        ensures
            r@ == SByteCode::ASSIGN(sym@),
    {
        ByteCode::ASSIGN(lit(sym))
    }

    pub fn binop(op: &str) -> (r: ByteCode)
        requires
            binop_of(op@) is Some,
        ensures
            r@ == SByteCode::BINOP(binop_of(op@)->0),
    {
        ByteCode::BINOP(BinOp::from_symbol(op))
    }

    pub fn unop(op: &str) -> (r: ByteCode)
        requires
            unop_of(op@) is Some,
        ensures
            r@ == SByteCode::UNOP(unop_of(op@)->0),
    {
        ByteCode::UNOP(UnOp::from_symbol(op))
    }

    pub fn ldf(addr: usize, prms: Vec<String>) -> (r: ByteCode)
        ensures
            r@ == SByteCode::LDF(addr as int, names_view(prms@)),
    {
        ByteCode::LDF(addr, prms)
    }
}

impl Value {
    /// A copy of this value.
    pub fn copy(&self) -> (r: Value)
        ensures
            r@ == self@,
    {
        match self {
            Value::Unitialized => Value::Unitialized,
            Value::Unit => Value::Unit,
            Value::Int(i) => Value::Int(*i),
            Value::Float(f) => Value::Float(f.copy()),
            Value::Bool(b) => Value::Bool(*b),
            Value::String(s) => Value::String(copy_string(s)),
        }
    }
}

impl From<i64> for Value {
    fn from(v: i64) -> (r: Value) {
        Value::Int(v)
    }
}

impl FromSpecImpl<i64> for Value {
    open spec fn obeys_from_spec() -> bool {
        true
    }

    open spec fn from_spec(v: i64) -> Value {
        Value::Int(v)
    }
}

impl From<bool> for Value {
    fn from(v: bool) -> (r: Value) {
        Value::Bool(v)
    }
}

impl FromSpecImpl<bool> for Value {
    open spec fn obeys_from_spec() -> bool {
        true
    }

    open spec fn from_spec(v: bool) -> Value {
        Value::Bool(v)
    }
}

impl From<()> for Value {
    fn from(v: ()) -> (r: Value) {
        Value::Unit
    }
}

impl FromSpecImpl<()> for Value {
    open spec fn obeys_from_spec() -> bool {
        true
    }

    open spec fn from_spec(v: ()) -> Value {
        Value::Unit
    }
}

impl From<String> for Value {
    fn from(v: String) -> (r: Value) {
        Value::String(v)
    }
}

impl FromSpecImpl<String> for Value {
    open spec fn obeys_from_spec() -> bool {
        true
    }

    open spec fn from_spec(v: String) -> Value {
        Value::String(v)
    }
}

/// Law: the symbol of every operator names that operator, and every symbol
/// that names an operator is that operator's symbol, for the binary and the
/// unary operators alike.
pub proof fn law_operator_symbols_round_trip(b: BinOp, u: UnOp, s: Seq<char>)
    ensures
        binop_of(binop_symbol(b)) == Some(b),
        binop_of(s) matches Some(op) ==> binop_symbol(op) == s,
        unop_of(unop_symbol(u)) == Some(u),
        unop_of(s) matches Some(op) ==> unop_symbol(op) == s,
{
    reveal_strlit("+");
    reveal_strlit("-");
    reveal_strlit("*");
    reveal_strlit("/");
    reveal_strlit("%");
    reveal_strlit(">");
    reveal_strlit("<");
    reveal_strlit("==");
    reveal_strlit("&&");
    reveal_strlit("||");
    reveal_strlit("!");
    assert("+"@ =~= seq!['+']);
    assert("-"@ =~= seq!['-']);
    assert("*"@ =~= seq!['*']);
    assert("/"@ =~= seq!['/']);
    assert("%"@ =~= seq!['%']);
    assert(">"@ =~= seq!['>']);
    assert("<"@ =~= seq!['<']);
    assert("=="@ =~= seq!['=', '=']);
    assert("&&"@ =~= seq!['&', '&']);
    assert("||"@ =~= seq!['|', '|']);
    assert("!"@ =~= seq!['!']);
    let bs = seq![
        "+"@, "-"@, "*"@, "/"@, "%"@, ">"@, "<"@, "=="@, "&&"@, "||"@,
    ];
    assert forall|k: int, l: int| 0 <= k < l < 10 implies #[trigger] bs[k] != #[trigger] bs[l] by {
        if bs[k].len() == bs[l].len() {
            if bs[k].len() == 1 {
                assert(bs[k][0] != bs[l][0]);
            } else {
                assert(bs[k][0] != bs[l][0] || bs[k][1] != bs[l][1]);
            }
        }
    }
    assert("-"@[0] != "!"@[0]);
    match b {
        BinOp::Add => assert(bs[0] == binop_symbol(b)),
        BinOp::Sub => assert(bs[1] != bs[0]),
        BinOp::Mul => assert(bs[2] != bs[0] && bs[2] != bs[1]),
        BinOp::Div => assert(bs[3] != bs[0] && bs[3] != bs[1] && bs[3] != bs[2]),
        BinOp::Mod => assert(bs[4] != bs[0] && bs[4] != bs[1] && bs[4] != bs[2] && bs[4] != bs[3]),
        BinOp::Gt => assert(bs[5] != bs[0] && bs[5] != bs[1] && bs[5] != bs[2] && bs[5] != bs[3] && bs[5] != bs[4]),
        BinOp::Lt => assert(bs[6] != bs[0] && bs[6] != bs[1] && bs[6] != bs[2] && bs[6] != bs[3] && bs[6] != bs[4]
            && bs[6] != bs[5]),
        BinOp::Eq => assert(bs[7] != bs[0] && bs[7] != bs[1] && bs[7] != bs[2] && bs[7] != bs[3] && bs[7] != bs[4]
            && bs[7] != bs[5] && bs[7] != bs[6]),
        BinOp::And => assert(bs[8] != bs[0] && bs[8] != bs[1] && bs[8] != bs[2] && bs[8] != bs[3] && bs[8] != bs[4]
            && bs[8] != bs[5] && bs[8] != bs[6] && bs[8] != bs[7]),
        BinOp::Or => assert(bs[9] != bs[0] && bs[9] != bs[1] && bs[9] != bs[2] && bs[9] != bs[3] && bs[9] != bs[4]
            && bs[9] != bs[5] && bs[9] != bs[6] && bs[9] != bs[7] && bs[9] != bs[8]),
    }
}

} // verus!
