//! The type system, stated as functions of the syntax tree.
//!
//! A checker's state is a stack of scopes, innermost last, each a map from
//! names to types, and the return types of the functions that enclose the
//! code being checked, innermost last. Checking an expression leaves the
//! scopes as they were; a declaration may bind a name in the innermost scope,
//! so `tc_decl` also gives the scopes after it.
//!
//! A check gives the type of the code and whether running it surely breaks
//! out of (`must_break`) or returns from (`must_return`) the code around it,
//! or the messages of the errors found and whether checking may go on with
//! the declarations that follow (`cont`).
use crate::structs::{
    binop_text, type_text, types_text, BinOpType, SBlock, SDecl, SExpr, SFnCall, SFnDecl, SIfElse,
    SLoop, SParam, SType, UnOpType,
};
use crate::text::nat_digits;
use vstd::prelude::*;

verus! {

pub type Scopes = Seq<Map<Seq<char>, SType>>;

/// The outcome of checking a piece of code that is well typed.
pub struct SCheck {
    pub ty: SType,
    pub must_break: bool,
    pub must_return: bool,
}

/// The errors found while checking a piece of code.
pub struct SErrs {
    pub errs: Seq<Seq<char>>,
    pub cont: bool,
}

/// The state of checking a sequence of declarations.
pub struct SFold {
    pub errs: Seq<Seq<char>>,
    pub stop: bool,
    pub must_break: bool,
    pub must_return: bool,
    pub scopes: Scopes,
}

/// The names of the built-in functions.
pub open spec fn is_builtin(name: Seq<char>) -> bool {
    ||| name == "read_line"@
    ||| name == "print"@
    ||| name == "println"@
    ||| name == "string_len"@
    ||| name == "min"@
    ||| name == "max"@
    ||| name == "abs"@
    ||| name == "cos"@
    ||| name == "sin"@
    ||| name == "tan"@
    ||| name == "sqrt"@
    ||| name == "log"@
    ||| name == "pow"@
    ||| name == "itoa"@
    ||| name == "atoi"@
    ||| name == "float_to_int"@
    ||| name == "int_to_float"@
    ||| name == "sem_create"@
    ||| name == "sem_set"@
}

pub open spec fn check(ty: SType, must_break: bool, must_return: bool) -> SCheck {
    SCheck { ty, must_break, must_return }
}

pub open spec fn plain(ty: SType) -> Result<SCheck, SErrs> {
    Ok(check(ty, false, false))
}

/// A single error, after which checking goes on.
pub open spec fn fail(msg: Seq<char>) -> SErrs {
    SErrs { errs: seq![msg], cont: true }
}

pub open spec fn errs_of(r: Result<SCheck, SErrs>) -> Seq<Seq<char>> {
    match r {
        Ok(_) => seq![],
        Err(e) => e.errs,
    }
}

/// The printed form of a list of errors.
pub open spec fn errs_text(errs: Seq<Seq<char>>) -> Seq<char>
    decreases errs.len(),
{
    if errs.len() == 0 {
        seq![]
    } else if errs.len() == 1 {
        "[TypeError]: "@ + errs[0]
    } else {
        errs_text(errs.drop_last()) + seq!['\n'] + "[TypeError]: "@ + errs.last()
    }
}

// ---------------------------------------------------------------------
// Messages
// ---------------------------------------------------------------------

pub open spec fn quoted(t: Seq<char>) -> Seq<char> {
    seq!['\''] + t + seq!['\'']
}

pub open spec fn paren_types(ts: Seq<SType>) -> Seq<char> {
    seq!['('] + types_text(ts) + seq![')']
}

pub open spec fn not_declared_msg(name: Seq<char>) -> Seq<char> {
    "Identifier "@ + quoted(name) + " not declared"@
}

pub open spec fn before_decl_msg(name: Seq<char>) -> Seq<char> {
    "Identifier "@ + quoted(name) + " assigned before declaration"@
}

pub open spec fn negate_msg(t: SType) -> Seq<char> {
    "Can't negate type "@ + type_text(t)
}

pub open spec fn not_msg(t: SType) -> Seq<char> {
    "Can't apply logical NOT to type "@ + type_text(t)
}

pub open spec fn binop_msg(op: BinOpType, l: SType, r: SType) -> Seq<char> {
    "Can't apply "@ + quoted(binop_text(op)) + " to types "@ + quoted(type_text(l)) + " and "@ + quoted(
        type_text(r),
    )
}

pub open spec fn arity_msg(name: Seq<char>, expected: nat, got: nat) -> Seq<char> {
    "Function "@ + quoted(name) + " takes "@ + nat_digits(expected) + " arguments but "@ + nat_digits(got)
        + " were supplied"@
}

pub open spec fn call_mismatch_msg(got: Seq<SType>, expected: Seq<SType>) -> Seq<char> {
    "Mismatched types in function call: got ("@ + paren_types(got) + ") but expected ("@ + paren_types(
        expected,
    ) + seq![')']
}

pub open spec fn expected_msg(what: Seq<char>, got: Seq<SType>) -> Seq<char> {
    "Expected "@ + what + " but got "@ + paren_types(got)
}

pub open spec fn if_cond_msg(t: SType) -> Seq<char> {
    "Expected type 'bool' for if condition, got "@ + quoted(type_text(t))
}

pub open spec fn if_mismatch_msg(a: SType, b: SType) -> Seq<char> {
    "if-else has type mismatch - consequent:"@ + type_text(a) + ", alt :"@ + type_text(b)
}

pub open spec fn loop_cond_msg(t: SType) -> Seq<char> {
    "Expected type 'bool' for loop predicate but got "@ + quoted(type_text(t))
}

pub open spec fn let_mismatch_msg(name: Seq<char>, declared: SType, assigned: SType) -> Seq<char> {
    quoted(name) + " has declared type "@ + type_text(declared) + " but assigned type "@ + type_text(assigned)
}

pub open spec fn assign_mismatch_msg(name: Seq<char>, declared: SType, assigned: SType) -> Seq<char> {
    quoted(name) + " declared with type "@ + type_text(declared) + " but assigned type "@ + type_text(assigned)
}

pub open spec fn return_msg(expected: SType, got: SType) -> Seq<char> {
    "Expected function return type "@ + quoted(type_text(expected)) + " but return statement has type "@
        + quoted(type_text(got))
}

pub open spec fn no_annotation_msg(name: Seq<char>) -> Seq<char> {
    "Parameter "@ + quoted(name) + " has no type annotation"@
}

pub open spec fn block_type_msg(name: Seq<char>, ret: SType, found: SType) -> Seq<char> {
    "Function "@ + quoted(name) + " has return type "@ + quoted(type_text(ret)) + " but found block type "@
        + quoted(type_text(found))
}

pub open spec fn might_not_return_msg(name: Seq<char>, ret: SType) -> Seq<char> {
    "Function "@ + quoted(name) + " might not return "@ + quoted(type_text(ret))
}

// ---------------------------------------------------------------------
// Scopes
// ---------------------------------------------------------------------

/// The type of a name in the innermost scope that binds it.
pub open spec fn lookup(scopes: Scopes, name: Seq<char>) -> Option<SType>
    decreases scopes.len(),
{
    if scopes.len() == 0 {
        None
    } else if scopes.last().contains_key(name) {
        Some(scopes.last()[name])
    } else {
        lookup(scopes.drop_last(), name)
    }
}

/// The type of a name: built-in functions first, then the scopes.
pub open spec fn get_type(scopes: Scopes, name: Seq<char>) -> Result<SType, SErrs> {
    if is_builtin(name) {
        Ok(SType::BuiltInFn)
    } else {
        match lookup(scopes, name) {
            Some(t) => Ok(t),
            None => Err(fail(not_declared_msg(name))),
        }
    }
}

/// The type of a name that an assignment may change.
pub open spec fn get_type_if_init(scopes: Scopes, name: Seq<char>) -> Result<SType, SErrs> {
    match get_type(scopes, name) {
        Ok(t) => if t == SType::Unitialised {
            Err(fail(before_decl_msg(name)))
        } else {
            Ok(t)
        },
        Err(e) => Err(e),
    }
}

/// Binds a name that is known to a type in the innermost scope.
pub open spec fn assign(scopes: Scopes, name: Seq<char>, t: SType) -> Result<Scopes, SErrs> {
    match get_type(scopes, name) {
        Ok(_) => if scopes.len() > 0 {
            Ok(scopes.update(scopes.len() - 1, scopes.last().insert(name, t)))
        } else {
            Ok(scopes)
        },
        Err(e) => Err(e),
    }
}

/// The scope of a block before its declarations run: each name that the
/// block declares is bound, not initialised yet.
pub open spec fn scope_of(symbols: Seq<Seq<char>>) -> Map<Seq<char>, SType> {
    Map::new(|k: Seq<char>| symbols.contains(k), |k: Seq<char>| SType::Unitialised)
}

/// A scope with the annotated parameters of a function bound.
pub open spec fn with_params(m: Map<Seq<char>, SType>, ps: Seq<SParam>) -> Map<Seq<char>, SType>
    decreases ps.len(),
{
    if ps.len() == 0 {
        m
    } else {
        let inner = with_params(m, ps.drop_last());
        match ps.last().type_ann {
            Some(t) => inner.insert(ps.last().name, t),
            None => inner,
        }
    }
}

// ---------------------------------------------------------------------
// Operators and calls
// ---------------------------------------------------------------------

pub open spec fn tc_unop(op: UnOpType, r: Result<SCheck, SErrs>) -> Result<SCheck, SErrs> {
    match r {
        Err(e) => Err(e),
        Ok(c) => match op {
            UnOpType::Negate => if c.ty == SType::Int || c.ty == SType::Float {
                Ok(c)
            } else {
                Err(fail(negate_msg(c.ty)))
            },
            UnOpType::Not => if c.ty == SType::Bool {
                Ok(c)
            } else {
                Err(fail(not_msg(c.ty)))
            },
        },
    }
}

pub open spec fn numeric_pair(l: SType, r: SType) -> bool {
    (l == SType::Int && r == SType::Int) || (l == SType::Float && r == SType::Float)
}

pub open spec fn binop_ok(op: BinOpType, l: SType, r: SType) -> bool {
    match op {
        BinOpType::LogicalAnd | BinOpType::LogicalOr => l == SType::Bool && r == SType::Bool,
        BinOpType::LogicalEq => l == r,
        _ => numeric_pair(l, r),
    }
}

pub open spec fn binop_type(op: BinOpType, l: SType) -> SType {
    match op {
        BinOpType::Add | BinOpType::Sub | BinOpType::Mul | BinOpType::Div => l,
        _ => SType::Bool,
    }
}

/// A binary operation: the errors of both operands, or the operator's rule.
pub open spec fn tc_binop(op: BinOpType, lr: Result<SCheck, SErrs>, rr: Result<SCheck, SErrs>) -> Result<
    SCheck,
    SErrs,
> {
    match (lr, rr) {
        (Ok(l), Ok(r)) => if binop_ok(op, l.ty, r.ty) {
            Ok(check(binop_type(op, l.ty), l.must_break || r.must_break, l.must_return || r.must_return))
        } else {
            Err(fail(binop_msg(op, l.ty, r.ty)))
        },
        _ => Err(SErrs { errs: errs_of(lr) + errs_of(rr), cont: true }),
    }
}

/// The error of a call whose arguments do not have the expected types.
pub open spec fn args_mismatch(name: Seq<char>, got: Seq<SType>, expected: Seq<SType>) -> Option<Seq<char>> {
    if got.len() != expected.len() {
        Some(arity_msg(name, expected.len(), got.len()))
    } else if got != expected {
        Some(call_mismatch_msg(got, expected))
    } else {
        None
    }
}

/// The result type of a call of a built-in function whose arguments have
/// the given types, or the error.
pub open spec fn builtin_type(name: Seq<char>, ts: Seq<SType>) -> Result<SType, Seq<char>> {
    let one_of = |t: SType, ok: bool, what: Seq<char>|
        if ts.len() != 1 {
            Err(arity_msg(name, 1, ts.len()))
        } else if ok {
            Ok(t)
        } else {
            Err(expected_msg(what, ts))
        };
    let exact = |expected: Seq<SType>, t: SType|
        match args_mismatch(name, ts, expected) {
            Some(m) => Err(m),
            None => Ok(t),
        };
    if name == "read_line"@ {
        exact(seq![], SType::Str)
    } else if name == "print"@ || name == "println"@ {
        if ts.len() != 1 {
            Err(arity_msg(name, 1, ts.len()))
        } else {
            Ok(SType::Unit)
        }
    } else if name == "string_len"@ {
        exact(seq![SType::Str], SType::Int)
    } else if name == "min"@ || name == "max"@ {
        if ts.len() != 2 {
            Err(arity_msg(name, 2, ts.len()))
        } else if numeric_pair(ts[0], ts[1]) {
            Ok(ts[0])
        } else {
            Err(expected_msg("(int, int) or (float, float)"@, ts))
        }
    } else if name == "abs"@ {
        one_of(ts[0], ts[0] == SType::Int || ts[0] == SType::Float, "int or float"@)
    } else if name == "cos"@ || name == "sin"@ || name == "tan"@ || name == "sqrt"@ || name == "log"@ {
        one_of(SType::Float, ts[0] == SType::Float, "float"@)
    } else if name == "pow"@ {
        if ts.len() != 2 {
            Err(arity_msg(name, 2, ts.len()))
        } else if ts[0] == SType::Float && ts[1] == SType::Float {
            Ok(SType::Float)
        } else {
            Err(expected_msg("(float, float)"@, ts))
        }
    } else if name == "itoa"@ {
        one_of(SType::Str, ts[0] == SType::Int, "int"@)
    } else if name == "atoi"@ {
        one_of(SType::Int, ts[0] == SType::Str, "string"@)
    } else if name == "float_to_int"@ {
        one_of(SType::Int, ts[0] == SType::Float, "float"@)
    } else if name == "int_to_float"@ {
        one_of(SType::Float, ts[0] == SType::Int, "int"@)
    } else if name == "sem_create"@ {
        exact(seq![], SType::Semaphore)
    } else {
        exact(seq![SType::Semaphore, SType::Int], SType::Unit)
    }
}

/// A call of a function that is not built in: the arguments are not held
/// to the parameters; the call has the return type of a user function of
/// that name, and is a unit where the name has another type or none.
pub open spec fn user_call(scopes: Scopes, name: Seq<char>, mb: bool, mr: bool) -> Result<SCheck, SErrs> {
    match lookup(scopes, name) {
        Some(SType::UserFn(_ps, r)) => Ok(check(*r, mb, mr)),
        _ => Ok(check(SType::Unit, mb, mr)),
    }
}

/// What checking the arguments of a call gathers: the errors, the types of
/// the arguments that are well typed, and whether one of them surely
/// breaks or returns.
pub struct SArgs {
    pub errs: Seq<Seq<char>>,
    pub types: Seq<SType>,
    pub must_break: bool,
    pub must_return: bool,
}

pub open spec fn call_result(scopes: Scopes, name: Seq<char>, a: SArgs) -> Result<SCheck, SErrs> {
    if a.errs.len() > 0 {
        Err(SErrs { errs: a.errs, cont: true })
    } else if is_builtin(name) {
        match builtin_type(name, a.types) {
            Ok(t) => Ok(check(t, a.must_break, a.must_return)),
            Err(m) => Err(fail(m)),
        }
    } else {
        user_call(scopes, name, a.must_break, a.must_return)
    }
}

// ---------------------------------------------------------------------
// Branches, loops, blocks
// ---------------------------------------------------------------------

pub open spec fn cond_errs(r: Result<SCheck, SErrs>, msg: spec_fn(SType) -> Seq<char>) -> Seq<Seq<char>> {
    match r {
        Ok(c) => if c.ty == SType::Bool {
            seq![]
        } else {
            seq![msg(c.ty)]
        },
        Err(e) => e.errs,
    }
}

/// An if, from the results of its condition and branches. A branch that
/// surely breaks takes the other branch's type.
pub open spec fn if_else_result(
    cr: Result<SCheck, SErrs>,
    ir: Result<SCheck, SErrs>,
    er: Option<Result<SCheck, SErrs>>,
) -> Result<SCheck, SErrs> {
    let e1 = cond_errs(cr, |t: SType| if_cond_msg(t)) + errs_of(ir);
    let (cmb, cmr) = match cr {
        Ok(c) => (c.must_break, c.must_return),
        Err(_) => (false, false),
    };
    match er {
        None => if e1.len() == 0 {
            Ok(check(SType::Unit, cmb, cmr))
        } else {
            Err(SErrs { errs: e1, cont: true })
        },
        Some(er) => {
            let e2 = e1 + errs_of(er);
            match (ir, er) {
                (Ok(a), Ok(b)) => {
                    let ty = if a.must_break {
                        Some(b.ty)
                    } else if b.must_break {
                        Some(a.ty)
                    } else if a.ty == b.ty {
                        Some(a.ty)
                    } else {
                        None
                    };
                    match ty {
                        Some(t) => if e2.len() == 0 {
                            Ok(
                                check(
                                    t,
                                    cmb || (a.must_break && b.must_break),
                                    cmr || (a.must_return && b.must_return),
                                ),
                            )
                        } else {
                            Err(SErrs { errs: e2, cont: true })
                        },
                        None => Err(SErrs { errs: e2.push(if_mismatch_msg(a.ty, b.ty)), cont: true }),
                    }
                },
                _ => Err(SErrs { errs: e2, cont: true }),
            }
        },
    }
}

/// A loop, from the results of its condition and body. A loop never
/// surely breaks or returns.
pub open spec fn loop_result(cr: Option<Result<SCheck, SErrs>>, br: Result<SCheck, SErrs>) -> Result<SCheck, SErrs> {
    let e1 = match cr {
        Some(r) => cond_errs(r, |t: SType| loop_cond_msg(t)),
        None => seq![],
    };
    let e2 = e1 + errs_of(br);
    if e2.len() == 0 {
        plain(SType::Unit)
    } else {
        Err(SErrs { errs: e2, cont: true })
    }
}

/// A `let`, from the result of its expression.
pub open spec fn let_result(
    scopes: Scopes,
    name: Seq<char>,
    r: Result<SCheck, SErrs>,
    ann: Option<SType>,
) -> (Result<SCheck, SErrs>, Scopes) {
    match (r, ann) {
        (Err(e), None) => (Err(SErrs { errs: e.errs, cont: false }), scopes),
        (Err(e), Some(t)) => match assign(scopes, name, t) {
            Ok(s2) => (Err(SErrs { errs: e.errs, cont: true }), s2),
            Err(ae) => (Err(ae), scopes),
        },
        (Ok(c), None) => match assign(scopes, name, c.ty) {
            Ok(s2) => (Ok(c), s2),
            Err(ae) => (Err(ae), scopes),
        },
        (Ok(c), Some(t)) => match assign(scopes, name, t) {
            Ok(s2) => if t != c.ty {
                (Err(fail(let_mismatch_msg(name, t, c.ty))), s2)
            } else {
                (Ok(c), s2)
            },
            Err(ae) => (Err(ae), scopes),
        },
    }
}

/// An assignment, from the type of the name and the expression's result.
pub open spec fn assign_result(name: Seq<char>, tr: Result<SType, SErrs>, r: Result<SCheck, SErrs>) -> Result<
    SCheck,
    SErrs,
> {
    match tr {
        Err(e) => Err(e),
        Ok(t) => match r {
            Err(e) => Err(e),
            Ok(c) => if t != c.ty {
                Err(fail(assign_mismatch_msg(name, t, c.ty)))
            } else {
                Ok(check(SType::Unit, c.must_break, c.must_return))
            },
        },
    }
}

/// A `return`, from the result of its expression, inside functions with the
/// given return types.
pub open spec fn return_result(fns: Seq<SType>, r: Result<SCheck, SErrs>) -> Result<SCheck, SErrs> {
    match r {
        Err(e) => Err(e),
        Ok(c) => if fns.len() > 0 && c.ty != fns.last() {
            Err(fail(return_msg(fns.last(), c.ty)))
        } else {
            Ok(check(SType::Unit, true, true))
        },
    }
}

/// The first parameter with no type annotation.
pub open spec fn first_unannotated(ps: Seq<SParam>) -> Option<Seq<char>>
    decreases ps.len(),
{
    if ps.len() == 0 {
        None
    } else {
        match first_unannotated(ps.drop_last()) {
            Some(n) => Some(n),
            None => if ps.last().type_ann is None {
                Some(ps.last().name)
            } else {
                None
            },
        }
    }
}

pub open spec fn param_types(ps: Seq<SParam>) -> Seq<SType> {
    ps.map_values(|p: SParam| p.type_ann.unwrap())
}

pub open spec fn fn_type(f: SFnDecl) -> SType {
    SType::UserFn(param_types(f.params), Box::new(f.ret_type))
}

/// A function declaration, from the result of its body.
pub open spec fn fn_body_result(f: SFnDecl, br: Result<SCheck, SErrs>) -> Result<SCheck, SErrs> {
    match br {
        Err(e) => Err(e),
        Ok(b) => if b.must_return {
            plain(fn_type(f))
        } else if f.body.last is Some {
            if b.ty == f.ret_type {
                plain(fn_type(f))
            } else {
                Err(fail(block_type_msg(f.name, f.ret_type, b.ty)))
            }
        } else if f.ret_type != SType::Unit {
            Err(fail(might_not_return_msg(f.name, f.ret_type)))
        } else {
            plain(fn_type(f))
        },
    }
}

/// One more declaration in a sequence.
pub open spec fn fold_step(p: SFold, r: Result<SCheck, SErrs>, scopes: Scopes) -> SFold {
    match r {
        Ok(c) => SFold {
            errs: p.errs,
            stop: false,
            must_break: p.must_break || c.must_break,
            must_return: p.must_return || c.must_return,
            scopes,
        },
        Err(e) => SFold {
            errs: p.errs + e.errs,
            stop: !e.cont,
            must_break: p.must_break,
            must_return: p.must_return,
            scopes,
        },
    }
}

pub open spec fn fold_start(scopes: Scopes) -> SFold {
    SFold { errs: seq![], stop: false, must_break: false, must_return: false, scopes }
}

// ---------------------------------------------------------------------
// The checker
// ---------------------------------------------------------------------

pub open spec fn tc_expr(scopes: Scopes, fns: Seq<SType>, e: SExpr) -> Result<SCheck, SErrs>
    decreases e,
{
    match e {
        SExpr::Integer(_) => plain(SType::Int),
        SExpr::Float(_) => plain(SType::Float),
        SExpr::Bool(_) => plain(SType::Bool),
        SExpr::Str(_) => plain(SType::Str),
        SExpr::Symbol(s) => match get_type(scopes, s) {
            Ok(t) => plain(t),
            Err(x) => Err(x),
        },
        SExpr::UnOp(op, x) => tc_unop(op, tc_expr(scopes, fns, *x)),
        SExpr::BinOp(op, l, r) => tc_binop(op, tc_expr(scopes, fns, *l), tc_expr(scopes, fns, *r)),
        SExpr::Block(b) => tc_block(scopes, fns, b, seq![]),
        SExpr::IfElse(d) => tc_if_else(scopes, fns, *d),
        SExpr::FnCall(c) => tc_call(scopes, fns, c),
        SExpr::Spawn(c) => match tc_call(scopes, fns, c) {
            Ok(_) => plain(SType::ThreadId),
            Err(x) => Err(x),
        },
        SExpr::Join(_) => plain(SType::Unit),
    }
}

pub open spec fn tc_args(scopes: Scopes, fns: Seq<SType>, s: Seq<SExpr>) -> SArgs
    decreases s,
{
    if s.len() == 0 {
        SArgs { errs: seq![], types: seq![], must_break: false, must_return: false }
    } else {
        proof {
            assert(decreases_to!(s => s.last()));
        }
        let p = tc_args(scopes, fns, s.drop_last());
        match tc_expr(scopes, fns, s.last()) {
            Ok(c) => SArgs {
                errs: p.errs,
                types: p.types.push(c.ty),
                must_break: p.must_break || c.must_break,
                must_return: p.must_return || c.must_return,
            },
            Err(x) => SArgs {
                errs: p.errs + x.errs,
                types: p.types,
                must_break: p.must_break,
                must_return: p.must_return,
            },
        }
    }
}

pub open spec fn tc_call(scopes: Scopes, fns: Seq<SType>, c: SFnCall) -> Result<SCheck, SErrs>
    decreases c,
{
    call_result(scopes, c.name, tc_args(scopes, fns, c.args))
}

pub open spec fn tc_if_else(scopes: Scopes, fns: Seq<SType>, d: SIfElse) -> Result<SCheck, SErrs>
    decreases d,
{
    if_else_result(
        tc_expr(scopes, fns, d.cond),
        tc_block(scopes, fns, d.if_blk, seq![]),
        match d.else_blk {
            Some(b) => Some(tc_block(scopes, fns, b, seq![])),
            None => None,
        },
    )
}

pub open spec fn tc_loop(scopes: Scopes, fns: Seq<SType>, l: SLoop) -> Result<SCheck, SErrs>
    decreases l,
{
    loop_result(
        match l.cond {
            Some(c) => Some(tc_expr(scopes, fns, c)),
            None => None,
        },
        tc_block(scopes, fns, l.body, seq![]),
    )
}

/// A block in its own scope, which binds the block's names and the given
/// parameters.
pub open spec fn tc_block(scopes: Scopes, fns: Seq<SType>, b: SBlock, params: Seq<SParam>) -> Result<
    SCheck,
    SErrs,
>
    decreases b,
{
    let f = tc_decls(scopes.push(with_params(scope_of(b.symbols), params)), fns, b.decls);
    if f.errs.len() > 0 {
        Err(SErrs { errs: f.errs, cont: true })
    } else {
        match b.last {
            Some(e) => match tc_expr(f.scopes, fns, *e) {
                Ok(c) => Ok(check(c.ty, c.must_break || f.must_break, c.must_return || f.must_return)),
                Err(x) => Err(SErrs { errs: x.errs, cont: true }),
            },
            None => Ok(check(SType::Unit, f.must_break, f.must_return)),
        }
    }
}

pub open spec fn tc_decls(scopes: Scopes, fns: Seq<SType>, s: Seq<SDecl>) -> SFold
    decreases s,
{
    if s.len() == 0 {
        fold_start(scopes)
    } else {
        proof {
            assert(decreases_to!(s => s.last()));
        }
        let p = tc_decls(scopes, fns, s.drop_last());
        if p.stop {
            p
        } else {
            let (r, s2) = tc_decl(p.scopes, fns, s.last());
            fold_step(p, r, s2)
        }
    }
}

pub open spec fn tc_fn_decl(scopes: Scopes, fns: Seq<SType>, f: SFnDecl) -> (Result<SCheck, SErrs>, Scopes)
    decreases f,
{
    match first_unannotated(f.params) {
        Some(n) => (Err(fail(no_annotation_msg(n))), scopes),
        None => match assign(scopes, f.name, fn_type(f)) {
            Err(e) => (Err(e), scopes),
            Ok(s2) => (fn_body_result(f, tc_block(s2, fns.push(f.ret_type), f.body, f.params)), s2),
        },
    }
}

pub open spec fn tc_decl(scopes: Scopes, fns: Seq<SType>, d: SDecl) -> (Result<SCheck, SErrs>, Scopes)
    decreases d,
{
    match d {
        SDecl::Let(x, e, ann) => let_result(scopes, x, tc_expr(scopes, fns, e), ann),
        SDecl::Assign(x, e) => (assign_result(x, get_type_if_init(scopes, x), tc_expr(scopes, fns, e)), scopes),
        SDecl::ExprStmt(e) => (tc_expr(scopes, fns, e), scopes),
        SDecl::IfOnly(x) => (tc_if_else(scopes, fns, x), scopes),
        SDecl::Loop(l) => (tc_loop(scopes, fns, l), scopes),
        SDecl::FnDecl(f) => tc_fn_decl(scopes, fns, f),
        SDecl::Break => (Ok(check(SType::Unit, true, false)), scopes),
        SDecl::Return(e) => (
            return_result(
                fns,
                match e {
                    Some(x) => tc_expr(scopes, fns, x),
                    None => plain(SType::Unit),
                },
            ),
            scopes,
        ),
        _ => (plain(SType::Unit), scopes),
    }
}

/// The type of a program, which is checked as a block with no scope around
/// it, outside any function.
pub open spec fn type_of_program(p: SBlock) -> Result<SType, SErrs> {
    match tc_block(seq![], seq![], p, seq![]) {
        Ok(c) => Ok(c.ty),
        Err(e) => Err(e),
    }
}

// ---------------------------------------------------------------------
// Facts about the checker
// ---------------------------------------------------------------------

/// Binding a name changes the innermost scope only.
pub proof fn lemma_assign_frame(scopes: Scopes, name: Seq<char>, t: SType)
    requires
        scopes.len() > 0,
    ensures
        assign(scopes, name, t) matches Ok(s2) ==> s2.len() == scopes.len() && s2.drop_last() == scopes.drop_last(),
{
    if let Ok(s2) = assign(scopes, name, t) {
        assert(s2.drop_last() =~= scopes.drop_last());
    }
}

/// A declaration changes the innermost scope only.
pub proof fn lemma_decl_frame(scopes: Scopes, fns: Seq<SType>, d: SDecl)
    requires
        scopes.len() > 0,
    ensures
        tc_decl(scopes, fns, d).1.len() == scopes.len(),
        tc_decl(scopes, fns, d).1.drop_last() == scopes.drop_last(),
{
    match d {
        SDecl::Let(x, e, ann) => {
            lemma_assign_frame(scopes, x, SType::Unit);
            let r = tc_expr(scopes, fns, e);
            match ann {
                Some(t) => lemma_assign_frame(scopes, x, t),
                None => if let Ok(c) = r {
                    lemma_assign_frame(scopes, x, c.ty);
                },
            }
        },
        SDecl::FnDecl(f) => lemma_assign_frame(scopes, f.name, fn_type(f)),
        _ => {},
    }
}

/// A sequence of declarations changes the innermost scope only.
pub proof fn lemma_decls_frame(scopes: Scopes, fns: Seq<SType>, s: Seq<SDecl>)
    requires
        scopes.len() > 0,
    ensures
        tc_decls(scopes, fns, s).scopes.len() == scopes.len(),
        tc_decls(scopes, fns, s).scopes.drop_last() == scopes.drop_last(),
    decreases s.len(),
{
    if s.len() > 0 {
        lemma_decls_frame(scopes, fns, s.drop_last());
        let p = tc_decls(scopes, fns, s.drop_last());
        if !p.stop {
            lemma_decl_frame(p.scopes, fns, s.last());
        }
    }
}

/// Once checking a sequence of declarations stops, the rest is not checked.
pub proof fn lemma_decls_stop(scopes: Scopes, fns: Seq<SType>, s: Seq<SDecl>, i: int)
    requires
        0 <= i <= s.len(),
        tc_decls(scopes, fns, s.take(i)).stop,
    ensures
        tc_decls(scopes, fns, s) == tc_decls(scopes, fns, s.take(i)),
    decreases s.len(),
{
    if s.len() == i {
        assert(s.take(i) =~= s);
    } else {
        assert(s.drop_last().take(i) =~= s.take(i));
        lemma_decls_stop(scopes, fns, s.drop_last(), i);
    }
}

/// The first unannotated parameter of a prefix is the first of the whole.
pub proof fn lemma_first_unannotated_prefix(ps: Seq<SParam>, i: int)
    requires
        0 <= i <= ps.len(),
        first_unannotated(ps.take(i)) is Some,
    ensures
        first_unannotated(ps) == first_unannotated(ps.take(i)),
    decreases ps.len(),
{
    if ps.len() == i {
        assert(ps.take(i) =~= ps);
    } else {
        assert(ps.drop_last().take(i) =~= ps.take(i));
        lemma_first_unannotated_prefix(ps.drop_last(), i);
    }
}

// ---------------------------------------------------------------------
// Rules of the type system
// ---------------------------------------------------------------------

/// Law: negation takes an int or a float and logical not a bool; the
/// operand's type and flags are kept; any other operand is the one error
/// that names its type.
pub proof fn law_unop_rule(op: UnOpType, c: SCheck)
    ensures
        tc_unop(op, Ok(c)) is Ok <==> match op {
            UnOpType::Negate => c.ty == SType::Int || c.ty == SType::Float,
            UnOpType::Not => c.ty == SType::Bool,
        },
        tc_unop(op, Ok(c)) is Ok ==> tc_unop(op, Ok(c)) == Ok::<SCheck, SErrs>(c),
        tc_unop(op, Ok(c)) is Err ==> tc_unop(op, Ok(c)) == Err::<SCheck, SErrs>(fail(match op {
            UnOpType::Negate => negate_msg(c.ty),
            UnOpType::Not => not_msg(c.ty),
        })),
{
}

/// Law: a binary operation on well-typed operands succeeds exactly when both
/// have the same type and that type suits the operator: int or float for
/// arithmetic and comparison, bool for `&&` and `||`, any for `==`.
/// Arithmetic keeps the operands' type, the others give bool; the result
/// surely breaks or returns where an operand does. Otherwise the one error
/// names the operator and both types.
pub proof fn law_binop_rule(op: BinOpType, l: SCheck, r: SCheck)
    ensures
        tc_binop(op, Ok(l), Ok(r)) is Ok <==> (l.ty == r.ty && match op {
            BinOpType::LogicalAnd | BinOpType::LogicalOr => l.ty == SType::Bool,
            BinOpType::LogicalEq => true,
            _ => l.ty == SType::Int || l.ty == SType::Float,
        }),
        tc_binop(op, Ok(l), Ok(r)) matches Ok(c) ==> c == check(
            match op {
                BinOpType::Add | BinOpType::Sub | BinOpType::Mul | BinOpType::Div => l.ty,
                _ => SType::Bool,
            },
            l.must_break || r.must_break,
            l.must_return || r.must_return,
        ),
        tc_binop(op, Ok(l), Ok(r)) is Err ==> tc_binop(op, Ok(l), Ok(r)) == Err::<SCheck, SErrs>(
            fail(binop_msg(op, l.ty, r.ty)),
        ),
{
}

/// Law: `cos`, `sin`, `tan`, `sqrt` and `log` take one float and give a
/// float; another number of arguments is the arity error, another argument
/// type the error that expects a float.
pub proof fn law_float_builtins(name: Seq<char>, ts: Seq<SType>)
    requires
        name == "cos"@ || name == "sin"@ || name == "tan"@ || name == "sqrt"@ || name == "log"@,
    ensures
        builtin_type(name, ts) == if ts.len() != 1 {
            Err::<SType, Seq<char>>(arity_msg(name, 1, ts.len()))
        } else if ts[0] == SType::Float {
            Ok(SType::Float)
        } else {
            Err(expected_msg("float"@, ts))
        },
{
    lemma_builtin_names_distinct();
}

/// The literal names of the built-in functions, as far as their spellings
/// tell them apart.
proof fn lemma_builtin_names_distinct()
    ensures
        "read_line"@.len() == 9,
        "print"@.len() == 5,
        "println"@.len() == 7,
        "string_len"@.len() == 10,
        "min"@ == seq!['m', 'i', 'n'],
        "max"@ == seq!['m', 'a', 'x'],
        "abs"@ == seq!['a', 'b', 's'],
        "cos"@ == seq!['c', 'o', 's'],
        "sin"@ == seq!['s', 'i', 'n'],
        "tan"@ == seq!['t', 'a', 'n'],
        "sqrt"@ == seq!['s', 'q', 'r', 't'],
        "log"@ == seq!['l', 'o', 'g'],
        "pow"@ == seq!['p', 'o', 'w'],
        "itoa"@ == seq!['i', 't', 'o', 'a'],
        "atoi"@ == seq!['a', 't', 'o', 'i'],
        "float_to_int"@.len() == 12,
        "int_to_float"@.len() == 12,
        "float_to_int"@[0] == 'f',
        "int_to_float"@[0] == 'i',
        "sem_create"@.len() == 10,
        "sem_set"@.len() == 7,
        "print"@ == "println"@.take(5),
        "println"@[5] == 'l',
        "string_len"@[0] == 's',
        "sem_create"@[1] == 'e',
        "string_len"@[1] == 't',
{
    reveal_strlit("read_line");
    reveal_strlit("print");
    reveal_strlit("println");
    reveal_strlit("string_len");
    reveal_strlit("min");
    reveal_strlit("max");
    reveal_strlit("abs");
    reveal_strlit("cos");
    reveal_strlit("sin");
    reveal_strlit("tan");
    reveal_strlit("sqrt");
    reveal_strlit("log");
    reveal_strlit("pow");
    reveal_strlit("itoa");
    reveal_strlit("atoi");
    reveal_strlit("float_to_int");
    reveal_strlit("int_to_float");
    reveal_strlit("sem_create");
    reveal_strlit("sem_set");
    assert("min"@ =~= seq!['m', 'i', 'n']);
    assert("max"@ =~= seq!['m', 'a', 'x']);
    assert("abs"@ =~= seq!['a', 'b', 's']);
    assert("cos"@ =~= seq!['c', 'o', 's']);
    assert("sin"@ =~= seq!['s', 'i', 'n']);
    assert("tan"@ =~= seq!['t', 'a', 'n']);
    assert("sqrt"@ =~= seq!['s', 'q', 'r', 't']);
    assert("log"@ =~= seq!['l', 'o', 'g']);
    assert("pow"@ =~= seq!['p', 'o', 'w']);
    assert("itoa"@ =~= seq!['i', 't', 'o', 'a']);
    assert("atoi"@ =~= seq!['a', 't', 'o', 'i']);
    assert("print"@ =~= "println"@.take(5));
}

/// The argument types a built-in function accepts and the type its call
/// has, for the built-ins with one signature or a fixed choice of them.
pub open spec fn builtin_signature(name: Seq<char>, ts: Seq<SType>) -> Option<SType> {
    if name == "read_line"@ {
        if ts.len() == 0 { Some(SType::Str) } else { None }
    } else if name == "print"@ || name == "println"@ {
        if ts.len() == 1 { Some(SType::Unit) } else { None }
    } else if name == "string_len"@ {
        if ts.len() == 1 && ts[0] == SType::Str { Some(SType::Int) } else { None }
    } else if name == "abs"@ {
        if ts.len() == 1 && (ts[0] == SType::Int || ts[0] == SType::Float) { Some(ts[0]) } else { None }
    } else if name == "pow"@ {
        if ts.len() == 2 && ts[0] == SType::Float && ts[1] == SType::Float { Some(SType::Float) } else { None }
    } else if name == "itoa"@ {
        if ts.len() == 1 && ts[0] == SType::Int { Some(SType::Str) } else { None }
    } else if name == "atoi"@ {
        if ts.len() == 1 && ts[0] == SType::Str { Some(SType::Int) } else { None }
    } else if name == "float_to_int"@ {
        if ts.len() == 1 && ts[0] == SType::Float { Some(SType::Int) } else { None }
    } else {
        if ts.len() == 1 && ts[0] == SType::Int { Some(SType::Float) } else { None }
    }
}

/// Law: `read_line`, `print`, `println`, `string_len`, `abs`, `pow`, `itoa`,
/// `atoi`, `float_to_int` and `int_to_float` accept exactly the argument
/// types of their signature, and a call of one has the signature's type and
/// surely breaks or returns where its arguments do.
pub proof fn law_builtin_signatures(scopes: Scopes, name: Seq<char>, a: SArgs)
    requires
        name == "read_line"@ || name == "print"@ || name == "println"@ || name == "string_len"@
            || name == "abs"@ || name == "pow"@ || name == "itoa"@ || name == "atoi"@
            || name == "float_to_int"@ || name == "int_to_float"@,
        a.errs.len() == 0,
    ensures
        builtin_type(name, a.types) is Ok <==> builtin_signature(name, a.types) is Some,
        builtin_signature(name, a.types) matches Some(t) ==> call_result(scopes, name, a) == Ok::<SCheck, SErrs>(
            check(t, a.must_break, a.must_return),
        ),
{
    lemma_builtin_names_distinct();
    let ts = a.types;
    if ts.len() == 0 {
        assert(ts =~= seq![]);
    }
    if ts.len() == 1 {
        assert(ts =~= seq![ts[0]]);
    }
    assert(is_builtin(name));
}

/// Law: a `let` without annotation whose expression has errors gives those
/// errors, stops the checking of the declarations after it, and binds
/// nothing.
pub proof fn law_let_unannotated_error_stops(scopes: Scopes, name: Seq<char>, e: SErrs)
    ensures
        let_result(scopes, name, Err(e), None) == (Err::<SCheck, SErrs>(SErrs { errs: e.errs, cont: false }), scopes),
{
}

/// Law: an annotated `let` of a known name binds the annotation in the
/// innermost scope, whatever its expression gives; it succeeds exactly when
/// the expression checks with the annotated type, and its errors never stop
/// the checking of the declarations after it.
pub proof fn law_let_annotated_binds(scopes: Scopes, name: Seq<char>, r: Result<SCheck, SErrs>, t: SType)
    requires
        scopes.len() > 0,
        get_type(scopes, name) is Ok,
    ensures
        lookup(let_result(scopes, name, r, Some(t)).1, name) == Some(t),
        let_result(scopes, name, r, Some(t)).0 is Ok <==> (r matches Ok(c) && c.ty == t),
        let_result(scopes, name, r, Some(t)).0 matches Err(x) ==> x.cont,
        (r is Ok && r->Ok_0.ty != t) ==> let_result(scopes, name, r, Some(t)).0 == Err::<SCheck, SErrs>(
            fail(let_mismatch_msg(name, t, r->Ok_0.ty)),
        ),
{
    let s2 = scopes.update(scopes.len() - 1, scopes.last().insert(name, t));
    assert(s2.last() == scopes.last().insert(name, t));
}

/// Law: a loop is a unit that never surely breaks or returns; its errors are
/// those of its condition (or that the condition is not a boolean), then
/// those of its body.
pub proof fn law_loop_rule(cr: Option<Result<SCheck, SErrs>>, br: Result<SCheck, SErrs>)
    ensures
        loop_result(cr, br) is Ok ==> loop_result(cr, br) == plain(SType::Unit),
        loop_result(cr, br) matches Err(e) ==> e.cont && e.errs == (match cr {
            Some(r) => cond_errs(r, |t: SType| loop_cond_msg(t)),
            None => seq![],
        }) + errs_of(br),
        (cr matches Some(Ok(c)) && c.ty != SType::Bool) ==> loop_result(cr, br) is Err,
{
}

/// Law: literals have their own types; a name has the built-in function
/// type if it names a built-in, else the type of its innermost binding, and
/// is the one error "not declared" where nothing binds it.
pub proof fn law_literal_and_name_rules(scopes: Scopes, fns: Seq<SType>, v: i64, f: Seq<char>, b: bool, x: Seq<char>)
    ensures
        tc_expr(scopes, fns, SExpr::Integer(v)) == plain(SType::Int),
        tc_expr(scopes, fns, SExpr::Float(f)) == plain(SType::Float),
        tc_expr(scopes, fns, SExpr::Bool(b)) == plain(SType::Bool),
        tc_expr(scopes, fns, SExpr::Str(f)) == plain(SType::Str),
        is_builtin(x) ==> tc_expr(scopes, fns, SExpr::Symbol(x)) == plain(SType::BuiltInFn),
        !is_builtin(x) ==> tc_expr(scopes, fns, SExpr::Symbol(x)) == match lookup(scopes, x) {
            Some(t) => plain(t),
            None => Err(fail(not_declared_msg(x))),
        },
{
}

/// Law: an assignment binds nothing new. It succeeds exactly when the name
/// has an initialised type and the expression checks with that type, and
/// then it is a unit that surely breaks or returns where the expression
/// does. A name bound nowhere, a name declared but not yet initialised, and
/// a type mismatch each give their one error.
pub proof fn law_assign_rule(scopes: Scopes, fns: Seq<SType>, x: Seq<char>, e: SExpr)
    ensures
        tc_decl(scopes, fns, SDecl::Assign(x, e)).1 == scopes,
        tc_decl(scopes, fns, SDecl::Assign(x, e)).0 is Ok <==> (get_type_if_init(scopes, x) is Ok && tc_expr(
            scopes,
            fns,
            e,
        ) is Ok && tc_expr(scopes, fns, e)->Ok_0.ty == get_type_if_init(scopes, x)->Ok_0),
        tc_expr(scopes, fns, e) matches Ok(c) ==> (tc_decl(scopes, fns, SDecl::Assign(x, e)).0 is Ok
            ==> tc_decl(scopes, fns, SDecl::Assign(x, e)).0 == Ok::<SCheck, SErrs>(
            check(SType::Unit, c.must_break, c.must_return),
        )),
        (!is_builtin(x) && lookup(scopes, x) is None) ==> tc_decl(scopes, fns, SDecl::Assign(x, e)).0 == Err::<
            SCheck,
            SErrs,
        >(fail(not_declared_msg(x))),
        (!is_builtin(x) && lookup(scopes, x) == Some(SType::Unitialised)) ==> tc_decl(
            scopes,
            fns,
            SDecl::Assign(x, e),
        ).0 == Err::<SCheck, SErrs>(fail(before_decl_msg(x))),
        (!is_builtin(x) && lookup(scopes, x) is Some && lookup(scopes, x) != Some(SType::Unitialised)
            && tc_expr(scopes, fns, e) is Ok && tc_expr(scopes, fns, e)->Ok_0.ty != lookup(scopes, x)->0)
            ==> tc_decl(scopes, fns, SDecl::Assign(x, e)).0 == Err::<SCheck, SErrs>(
            fail(assign_mismatch_msg(x, lookup(scopes, x)->0, tc_expr(scopes, fns, e)->Ok_0.ty)),
        ),
{
}

/// `first_unannotated` names a parameter without annotation exactly when
/// there is one.
pub proof fn lemma_first_unannotated(ps: Seq<SParam>)
    ensures
        first_unannotated(ps) is None <==> forall|i: int| 0 <= i < ps.len() ==> (#[trigger] ps[i]).type_ann is Some,
        first_unannotated(ps) matches Some(n) ==> exists|i: int|
            0 <= i < ps.len() && (#[trigger] ps[i]).name == n && ps[i].type_ann is None,
    decreases ps.len(),
{
    if ps.len() > 0 {
        lemma_first_unannotated(ps.drop_last());
        if first_unannotated(ps.drop_last()) is Some {
            let n = first_unannotated(ps.drop_last())->0;
            let i = choose|i: int| 0 <= i < ps.drop_last().len() && (#[trigger] ps.drop_last()[i]).name == n
                && ps.drop_last()[i].type_ann is None;
            assert(ps[i] == ps.drop_last()[i]);
        } else {
            assert forall|i: int| 0 <= i < ps.len() - 1 implies (#[trigger] ps[i]).type_ann is Some by {
                assert(ps[i] == ps.drop_last()[i]);
            }
            if ps.last().type_ann is None {
                assert(ps[ps.len() - 1] == ps.last());
            }
        }
    }
}

/// Law: a function declaration with a parameter that has no annotation is
/// the one error that names the first such parameter, and binds nothing.
/// Otherwise the function's type is bound in the innermost scope before its
/// body is checked, so that the body can call it. The declaration has the
/// function's type and never surely breaks or returns. Unless its body
/// surely returns, a last expression of another type than the return type
/// is an error, and with no last expression a return type other than unit
/// is the error that the function might not return.
pub proof fn law_fn_decl_rule(scopes: Scopes, fns: Seq<SType>, f: SFnDecl)
    requires
        scopes.len() > 0,
        get_type(scopes, f.name) is Ok,
    ensures
        first_unannotated(f.params) matches Some(n) ==> tc_decl(scopes, fns, SDecl::FnDecl(f)) == (Err::<
            SCheck,
            SErrs,
        >(fail(no_annotation_msg(n))), scopes),
        (exists|i: int| 0 <= i < f.params.len() && (#[trigger] f.params[i]).type_ann is None) ==> tc_decl(
            scopes,
            fns,
            SDecl::FnDecl(f),
        ).0 is Err,
        (forall|i: int| 0 <= i < f.params.len() ==> (#[trigger] f.params[i]).type_ann is Some) ==> {
            let s2 = tc_decl(scopes, fns, SDecl::FnDecl(f)).1;
            let r = tc_decl(scopes, fns, SDecl::FnDecl(f)).0;
            let br = tc_block(s2, fns.push(f.ret_type), f.body, f.params);
            &&& lookup(s2, f.name) == Some(fn_type(f))
            &&& r matches Ok(c) ==> c == check(fn_type(f), false, false)
            &&& br is Err ==> r == br
            &&& (br is Ok && !br->Ok_0.must_return && f.body.last is Some && br->Ok_0.ty != f.ret_type) ==> r
                == Err::<SCheck, SErrs>(fail(block_type_msg(f.name, f.ret_type, br->Ok_0.ty)))
            &&& (br is Ok && !br->Ok_0.must_return && f.body.last is None && f.ret_type != SType::Unit) ==> r
                == Err::<SCheck, SErrs>(fail(might_not_return_msg(f.name, f.ret_type)))
            &&& (br is Ok && (br->Ok_0.must_return || (f.body.last is Some && br->Ok_0.ty == f.ret_type) || (
            f.body.last is None && f.ret_type == SType::Unit))) ==> r == plain(fn_type(f))
        },
{
    lemma_first_unannotated(f.params);
    let s2 = scopes.update(scopes.len() - 1, scopes.last().insert(f.name, fn_type(f)));
    assert(s2.last() == scopes.last().insert(f.name, fn_type(f)));
}

/// Law: `spawn` of a call is well typed exactly when the call is; it is
/// then a thread id that never surely breaks or returns, whatever type the
/// call has, and otherwise it has the call's errors.
pub proof fn law_spawn_is_thread_id(scopes: Scopes, fns: Seq<SType>, c: SFnCall)
    ensures
        tc_expr(scopes, fns, SExpr::Spawn(c)) is Ok <==> tc_call(scopes, fns, c) is Ok,
        tc_expr(scopes, fns, SExpr::Spawn(c)) is Ok ==> tc_expr(scopes, fns, SExpr::Spawn(c)) == Ok::<
            SCheck,
            SErrs,
        >((SCheck { ty: SType::ThreadId, must_break: false, must_return: false })),
        tc_call(scopes, fns, c) matches Err(e) ==> tc_expr(scopes, fns, SExpr::Spawn(c)) == Err::<SCheck, SErrs>(e),
{
}

} // verus!
