//! The type checker, verified against the type system in `typing`.
use crate::structs::{
    params_view, strings_view, SBlock, type_text, types_view, BinOpType, BlockSeq, Decl, Expr,
    FnCallData, FnDeclData, FnParam, FnTypeData, IfElseData, LoopData, SParam, SType, Type,
    UnOpType, decls_view, exprs_view, lemma_decls_view, lemma_exprs_view, lemma_types_view,
    lemma_types_view_push,
};
use crate::text::{chars_of, push_char, push_nat, push_str, push_string, copy_string};
use crate::lexer::range_is;
use crate::typing::{
    lemma_decls_frame, lemma_decls_stop, lemma_first_unannotated_prefix, quoted, args_mismatch,
    arity_msg, assign, assign_mismatch_msg, before_decl_msg, binop_msg, binop_ok, block_type_msg,
    builtin_type, call_mismatch_msg, check, cond_errs, errs_of, errs_text, expected_msg, fail,
    first_unannotated, fn_body_result, fn_type, get_type, get_type_if_init, if_cond_msg,
    if_else_result, if_mismatch_msg, is_builtin, let_mismatch_msg, let_result, lookup,
    loop_cond_msg, loop_result, might_not_return_msg, negate_msg, no_annotation_msg,
    not_declared_msg, not_msg, param_types, paren_types, plain, return_msg, return_result, scope_of,
    tc_args, tc_binop, tc_block, tc_call, tc_decl, tc_decls, tc_expr, tc_fn_decl, tc_if_else,
    tc_loop, tc_unop, with_params, SArgs, SCheck, SErrs, SFold, Scopes, assign_result,
};
use vstd::prelude::*;

verus! {

/// The errors found by the type checker, and whether checking may go on
/// after them.
#[derive(Debug, PartialEq)]
pub struct TypeErrors {
    errs: Vec<String>,
    cont: bool,
}

impl View for TypeErrors {
    type V = SErrs;

    closed spec fn view(&self) -> SErrs {
        SErrs { errs: strings_view(self.errs@), cont: self.cont }
    }
}

impl TypeErrors {
    /// No errors.
    pub fn new() -> (r: TypeErrors)
        ensures
            r@ == (SErrs { errs: seq![], cont: true }),
    {
        let r = TypeErrors { errs: Vec::new(), cont: true };
        assert(strings_view(r.errs@) =~= seq![]);
        r
    }

    /// One error.
    pub fn new_err(err: &str) -> (r: TypeErrors)
        ensures
            r@ == fail(err@),
    {
        Self::from_msg(String::from_str(err))
    }

    fn from_msg(msg: String) -> (r: TypeErrors)
        ensures
            r@ == fail(msg@),
    {
        let mut errs: Vec<String> = Vec::new();
        errs.push(msg);
        let r = TypeErrors { errs, cont: true };
        assert(strings_view(r.errs@) =~= seq![msg@]);
        r
    }

    fn from_errs(errs: TypeErrors, cont: bool) -> (r: TypeErrors)
        ensures
            r@ == (SErrs { errs: errs@.errs, cont }),
    {
        TypeErrors { errs: errs.errs, cont }
    }

    /// Sets whether checking may go on after these errors.
    pub fn set_cont(&mut self, cont: bool)
        ensures
            final(self)@ == (SErrs { errs: old(self)@.errs, cont }),
    {
        self.cont = cont
    }

    /// Adds an error at the end.
    pub fn add(&mut self, err: &str)
        ensures
            final(self)@ == (SErrs { errs: old(self)@.errs.push(err@), cont: old(self)@.cont }),
    {
        self.add_msg(String::from_str(err));
    }

    fn add_msg(&mut self, msg: String)
        ensures
            final(self)@ == (SErrs { errs: old(self)@.errs.push(msg@), cont: old(self)@.cont }),
    {
        self.errs.push(msg);
        assert(strings_view(self.errs@) =~= strings_view(old(self).errs@).push(msg@));
    }

    /// Moves the errors of `errs` to the end of this list, which leaves
    /// `errs` with none.
    pub fn append(&mut self, errs: &mut TypeErrors)
        ensures
            final(self)@ == (SErrs { errs: old(self)@.errs + old(errs)@.errs, cont: old(self)@.cont }),
            final(errs)@ == (SErrs { errs: seq![], cont: old(errs)@.cont }),
    {
        self.errs.append(&mut errs.errs);
        assert(strings_view(self.errs@) =~= strings_view(old(self).errs@) + strings_view(old(errs).errs@));
        assert(strings_view(errs.errs@) =~= seq![]);
    }

    /// Whether there are no errors.
    pub fn is_ok(&self) -> (r: bool)
        ensures
            r == (self@.errs.len() == 0),
    {
        self.errs.len() == 0
    }

    /// Whether checking may go on after these errors.
    pub fn can_continue(&self) -> (r: bool)
        ensures
            r == self@.cont,
    {
        self.cont
    }

    /// The errors, one per line, each after `[TypeError]: `.
    pub fn to_string(&self) -> (r: String)
        ensures
            r@ == errs_text(self@.errs),
    {
        let ghost ev = self@.errs;
        let mut s = String::new();
        let mut i: usize = 0;
        while i < self.errs.len()
            invariant
                i <= self.errs.len(),
                ev == strings_view(self.errs@),
                s@ == errs_text(ev.take(i as int)),
            decreases self.errs.len() - i,
        {
            if i > 0 {
                push_char(&mut s, '\n');
            }
            push_str(&mut s, "[TypeError]: ");
            push_string(&mut s, &self.errs[i]);
            proof {
                let t = ev.take(i as int + 1);
                assert(t.drop_last() =~= ev.take(i as int));
                assert(t.last() == self.errs@[i as int]@);
                if i == 0 {
                    assert(ev.take(0) =~= Seq::<Seq<char>>::empty());
                    assert(s@ =~= errs_text(t));
                } else {
                    assert(s@ =~= errs_text(t));
                }
            }
            i = i + 1;
        }
        assert(ev.take(self.errs.len() as int) =~= ev);
        s
    }
}

impl Default for TypeErrors {
    /// No errors, as `new` gives.
    fn default() -> (r: TypeErrors)
        ensures
            r@ == (SErrs { errs: seq![], cont: true }),
    {
        TypeErrors::new()
    }
}

/// The outcome of checking a piece of code that is well typed: its type,
/// and whether it surely breaks out of or returns from the code around it.
#[derive(Debug)]
pub struct CheckResult {
    pub ty: Type,
    pub must_break: bool,
    pub must_return: bool,
}

impl View for CheckResult {
    type V = SCheck;

    open spec fn view(&self) -> SCheck {
        SCheck { ty: self.ty@, must_break: self.must_break, must_return: self.must_return }
    }
}

impl CheckResult {
    /// A unit result that surely breaks or returns where either does.
    pub fn combine(res1: &CheckResult, res2: &CheckResult) -> (r: CheckResult)
        ensures
            r@ == check(SType::Unit, res1.must_break || res2.must_break, res1.must_return || res2.must_return),
    {
        CheckResult {
            ty: Type::Unit,
            must_break: res1.must_break || res2.must_break,
            must_return: res1.must_return || res2.must_return,
        }
    }

    fn plain(ty: Type) -> (r: CheckResult)
        ensures
            r@ == check(ty@, false, false),
    {
        CheckResult { ty, must_break: false, must_return: false }
    }
}

/// The view of a checker's result.
pub open spec fn result_view(r: Result<CheckResult, TypeErrors>) -> Result<SCheck, SErrs> {
    match r {
        Ok(c) => Ok(c@),
        Err(e) => Err(e@),
    }
}

/// One scope of the checker: the types of the names bound in a block.
pub struct TypeEnv {
    entries: Vec<(String, Type)>,
}

/// The scope of a list of bindings, later ones overriding earlier ones.
pub open spec fn entries_map(s: Seq<(String, Type)>) -> Map<Seq<char>, SType>
    decreases s.len(),
{
    if s.len() == 0 {
        Map::empty()
    } else {
        entries_map(s.drop_last()).insert(s.last().0@, s.last().1@)
    }
}

proof fn lemma_entries_suffix(s: Seq<(String, Type)>, i: int, k: Seq<char>)
    requires
        0 <= i <= s.len(),
        forall|j: int| i <= j < s.len() ==> (#[trigger] s[j]).0@ != k,
    ensures
        entries_map(s).contains_key(k) == entries_map(s.take(i)).contains_key(k),
        entries_map(s).contains_key(k) ==> entries_map(s)[k] == entries_map(s.take(i))[k],
    decreases s.len(),
{
    if s.len() == i {
        assert(s.take(i) =~= s);
    } else {
        let d = s.drop_last();
        assert forall|j: int| i <= j < d.len() implies (#[trigger] d[j]).0@ != k by {
            assert(d[j] == s[j]);
        }
        lemma_entries_suffix(d, i, k);
        assert(d.take(i) =~= s.take(i));
        assert(s.last() == s[s.len() - 1]);
    }
}

impl View for TypeEnv {
    type V = Map<Seq<char>, SType>;

    closed spec fn view(&self) -> Map<Seq<char>, SType> {
        entries_map(self.entries@)
    }
}

impl TypeEnv {
    fn new() -> (r: TypeEnv)
        ensures
            r@ == Map::<Seq<char>, SType>::empty(),
    {
        TypeEnv { entries: Vec::new() }
    }

    fn insert(&mut self, name: String, ty: Type)
        ensures
            final(self)@ == old(self)@.insert(name@, ty@),
    {
        self.entries.push((name, ty));
        assert(self.entries@.drop_last() =~= old(self).entries@);
    }

    /// A copy of the type bound to `name`, if any.
    pub fn get(&self, name: &String) -> (r: Option<Type>)
        ensures
            match r {
                Some(t) => self@.contains_key(name@) && t@ == self@[name@],
                None => !self@.contains_key(name@),
            },
    {
        let ghost s = self.entries@;
        let mut i: usize = self.entries.len();
        while i > 0
            invariant
                i <= s.len(),
                s == self.entries@,
                forall|j: int| i <= j < s.len() ==> (#[trigger] s[j]).0@ != name@,
            decreases i,
        {
            if crate::text::str_eq(&self.entries[i - 1].0, name) {
                proof {
                    lemma_entries_suffix(s, i as int, name@);
                    let t = s.take(i as int);
                    assert(t.drop_last() =~= s.take(i as int - 1));
                    assert(t.last() == s[i as int - 1]);
                }
                return Some(self.entries[i - 1].1.copy());
            }
            i = i - 1;
        }
        proof {
            lemma_entries_suffix(s, 0, name@);
            assert(s.take(0) =~= Seq::<(String, Type)>::empty());
        }
        None
    }
}

/// A scope that binds each of `syms`, none of them initialised yet.
pub fn new_env_with_syms(syms: Vec<String>) -> (r: TypeEnv)
    ensures
        r@ == scope_of(strings_view(syms@)),
{
    let mut env = TypeEnv::new();
    let mut i: usize = 0;
    while i < syms.len()
        invariant
            i <= syms.len(),
            env@ == scope_of(strings_view(syms@.take(i as int))),
        decreases syms.len() - i,
    {
        let ghost before = strings_view(syms@.take(i as int));
        let ghost x = syms@[i as int]@;
        env.insert(copy_string(&syms[i]), Type::Unitialised);
        proof {
            let after = strings_view(syms@.take(i as int + 1));
            assert(after =~= before.push(x));
            assert forall|k: Seq<char>| #[trigger] after.contains(k) == (before.contains(k) || k == x) by {
                if before.contains(k) {
                    let j = choose|j: int| 0 <= j < before.len() && before[j] == k;
                    assert(after[j] == k);
                }
                if k == x {
                    assert(after[before.len() as int] == k);
                }
                if after.contains(k) {
                    let j = choose|j: int| 0 <= j < after.len() && after[j] == k;
                    if j < before.len() {
                        assert(before[j] == k);
                    }
                }
            }
            assert(env@ =~= scope_of(after));
        }
        i = i + 1;
    }
    assert(syms@.take(syms.len() as int) =~= syms@);
    env
}

// ---------------------------------------------------------------------
// Messages
// ---------------------------------------------------------------------

fn push_quoted(s: &mut String, t: &String)
    ensures
        final(s)@ == old(s)@ + quoted(t@),
{
    push_char(s, '\'');
    push_string(s, t);
    push_char(s, '\'');
    assert(final(s)@ =~= old(s)@ + quoted(t@));
}

fn push_quoted_type(s: &mut String, t: &Type)
    ensures
        final(s)@ == old(s)@ + quoted(type_text(t@)),
{
    push_char(s, '\'');
    t.push_text(s);
    push_char(s, '\'');
    assert(final(s)@ =~= old(s)@ + quoted(type_text(t@)));
}

fn push_paren_types(s: &mut String, v: &Vec<Type>)
    ensures
        final(s)@ == old(s)@ + paren_types(types_view(v@)),
{
    push_char(s, '(');
    crate::structs::push_types_text(v, s);
    push_char(s, ')');
    assert(final(s)@ =~= old(s)@ + paren_types(types_view(v@)));
}

fn not_declared(name: &String) -> (r: String)
    ensures
        r@ == not_declared_msg(name@),
{
    let mut s = String::new();
    push_str(&mut s, "Identifier ");
    push_quoted(&mut s, name);
    push_str(&mut s, " not declared");
    assert(s@ =~= not_declared_msg(name@));
    s
}

fn before_decl(name: &String) -> (r: String)
    ensures
        r@ == before_decl_msg(name@),
{
    let mut s = String::new();
    push_str(&mut s, "Identifier ");
    push_quoted(&mut s, name);
    push_str(&mut s, " assigned before declaration");
    assert(s@ =~= before_decl_msg(name@));
    s
}

fn negate_message(t: &Type) -> (r: String)
    ensures
        r@ == negate_msg(t@),
{
    let mut s = String::new();
    push_str(&mut s, "Can't negate type ");
    t.push_text(&mut s);
    assert(s@ =~= negate_msg(t@));
    s
}

fn not_message(t: &Type) -> (r: String)
    ensures
        r@ == not_msg(t@),
{
    let mut s = String::new();
    push_str(&mut s, "Can't apply logical NOT to type ");
    t.push_text(&mut s);
    assert(s@ =~= not_msg(t@));
    s
}

fn binop_message(op: BinOpType, l: &Type, r: &Type) -> (m: String)
    ensures
        m@ == binop_msg(op, l@, r@),
{
    let mut s = String::new();
    push_str(&mut s, "Can't apply ");
    push_char(&mut s, '\'');
    op.push_text(&mut s);
    push_char(&mut s, '\'');
    push_str(&mut s, " to types ");
    push_quoted_type(&mut s, l);
    push_str(&mut s, " and ");
    push_quoted_type(&mut s, r);
    assert(s@ =~= binop_msg(op, l@, r@));
    s
}

fn arity_message(name: &String, expected: usize, got: usize) -> (r: String)
    ensures
        r@ == arity_msg(name@, expected as nat, got as nat),
{
    let mut s = String::new();
    push_str(&mut s, "Function ");
    push_quoted(&mut s, name);
    push_str(&mut s, " takes ");
    push_nat(&mut s, expected as u64);
    push_str(&mut s, " arguments but ");
    push_nat(&mut s, got as u64);
    push_str(&mut s, " were supplied");
    assert(s@ =~= arity_msg(name@, expected as nat, got as nat));
    s
}

fn call_mismatch_message(got: &Vec<Type>, expected: &Vec<Type>) -> (r: String)
    ensures
        r@ == call_mismatch_msg(types_view(got@), types_view(expected@)),
{
    let mut s = String::new();
    push_str(&mut s, "Mismatched types in function call: got (");
    push_paren_types(&mut s, got);
    push_str(&mut s, ") but expected (");
    push_paren_types(&mut s, expected);
    push_char(&mut s, ')');
    assert(s@ =~= call_mismatch_msg(types_view(got@), types_view(expected@)));
    s
}

fn expected_message(what: &str, got: &Vec<Type>) -> (r: String)
    ensures
        r@ == expected_msg(what@, types_view(got@)),
{
    let mut s = String::new();
    push_str(&mut s, "Expected ");
    push_str(&mut s, what);
    push_str(&mut s, " but got ");
    push_paren_types(&mut s, got);
    assert(s@ =~= expected_msg(what@, types_view(got@)));
    s
}

fn if_cond_message(t: &Type) -> (r: String)
    ensures
        r@ == if_cond_msg(t@),
{
    let mut s = String::new();
    push_str(&mut s, "Expected type 'bool' for if condition, got ");
    push_quoted_type(&mut s, t);
    assert(s@ =~= if_cond_msg(t@));
    s
}

fn if_mismatch_message(a: &Type, b: &Type) -> (r: String)
    ensures
        r@ == if_mismatch_msg(a@, b@),
{
    let mut s = String::new();
    push_str(&mut s, "if-else has type mismatch - consequent:");
    a.push_text(&mut s);
    push_str(&mut s, ", alt :");
    b.push_text(&mut s);
    assert(s@ =~= if_mismatch_msg(a@, b@));
    s
}

fn loop_cond_message(t: &Type) -> (r: String)
    ensures
        r@ == loop_cond_msg(t@),
{
    let mut s = String::new();
    push_str(&mut s, "Expected type 'bool' for loop predicate but got ");
    push_quoted_type(&mut s, t);
    assert(s@ =~= loop_cond_msg(t@));
    s
}

fn let_mismatch_message(name: &String, declared: &Type, assigned: &Type) -> (r: String)
    ensures
        r@ == let_mismatch_msg(name@, declared@, assigned@),
{
    let mut s = String::new();
    push_quoted(&mut s, name);
    push_str(&mut s, " has declared type ");
    declared.push_text(&mut s);
    push_str(&mut s, " but assigned type ");
    assigned.push_text(&mut s);
    assert(s@ =~= let_mismatch_msg(name@, declared@, assigned@));
    s
}

fn assign_mismatch_message(name: &String, declared: &Type, assigned: &Type) -> (r: String)
    ensures
        r@ == assign_mismatch_msg(name@, declared@, assigned@),
{
    let mut s = String::new();
    push_quoted(&mut s, name);
    push_str(&mut s, " declared with type ");
    declared.push_text(&mut s);
    push_str(&mut s, " but assigned type ");
    assigned.push_text(&mut s);
    assert(s@ =~= assign_mismatch_msg(name@, declared@, assigned@));
    s
}

fn return_message(expected: &Type, got: &Type) -> (r: String)
    ensures
        r@ == return_msg(expected@, got@),
{
    let mut s = String::new();
    push_str(&mut s, "Expected function return type ");
    push_quoted_type(&mut s, expected);
    push_str(&mut s, " but return statement has type ");
    push_quoted_type(&mut s, got);
    assert(s@ =~= return_msg(expected@, got@));
    s
}

fn no_annotation_message(name: &String) -> (r: String)
    ensures
        r@ == no_annotation_msg(name@),
{
    let mut s = String::new();
    push_str(&mut s, "Parameter ");
    push_quoted(&mut s, name);
    push_str(&mut s, " has no type annotation");
    assert(s@ =~= no_annotation_msg(name@));
    s
}

fn block_type_message(name: &String, ret: &Type, found: &Type) -> (r: String)
    ensures
        r@ == block_type_msg(name@, ret@, found@),
{
    let mut s = String::new();
    push_str(&mut s, "Function ");
    push_quoted(&mut s, name);
    push_str(&mut s, " has return type ");
    push_quoted_type(&mut s, ret);
    push_str(&mut s, " but found block type ");
    push_quoted_type(&mut s, found);
    assert(s@ =~= block_type_msg(name@, ret@, found@));
    s
}

fn might_not_return_message(name: &String, ret: &Type) -> (r: String)
    ensures
        r@ == might_not_return_msg(name@, ret@),
{
    let mut s = String::new();
    push_str(&mut s, "Function ");
    push_quoted(&mut s, name);
    push_str(&mut s, " might not return ");
    push_quoted_type(&mut s, ret);
    assert(s@ =~= might_not_return_msg(name@, ret@));
    s
}

// ---------------------------------------------------------------------
// Built-in functions
// ---------------------------------------------------------------------

fn name_is(v: &Vec<char>, k: &str) -> (r: bool)
    ensures
        r == (v@ == k@),
{
    let r = range_is(v, 0, v.len(), k);
    assert(v@.subrange(0, v@.len() as int) =~= v@);
    r
}

/// Whether `name` is the name of a built-in function.
fn is_builtin_fn(name: &String) -> (r: bool)
    ensures
        r == is_builtin(name@),
{
    let v = chars_of(name.as_str());
    name_is(&v, "read_line") || name_is(&v, "print") || name_is(&v, "println") || name_is(&v, "string_len")
        || name_is(&v, "min") || name_is(&v, "max") || name_is(&v, "abs") || name_is(&v, "cos")
        || name_is(&v, "sin") || name_is(&v, "tan") || name_is(&v, "sqrt") || name_is(&v, "log")
        || name_is(&v, "pow") || name_is(&v, "itoa") || name_is(&v, "atoi") || name_is(&v, "float_to_int")
        || name_is(&v, "int_to_float") || name_is(&v, "sem_create") || name_is(&v, "sem_set")
}

pub open spec fn type_msg_view(r: Result<Type, String>) -> Result<SType, Seq<char>> {
    match r {
        Ok(t) => Ok(t@),
        Err(m) => Err(m@),
    }
}

pub open spec fn opt_msg_view(r: Option<String>) -> Option<Seq<char>> {
    match r {
        Some(m) => Some(m@),
        None => None,
    }
}

fn types0() -> (r: Vec<Type>)
    ensures
        types_view(r@) == Seq::<SType>::empty(),
{
    Vec::new()
}

fn types1(a: Type) -> (r: Vec<Type>)
    ensures
        types_view(r@) == seq![a@],
{
    let mut v: Vec<Type> = Vec::new();
    v.push(a);
    proof {
        lemma_types_view(v@);
        assert(types_view(v@) =~= seq![a@]);
    }
    v
}

fn types2(a: Type, b: Type) -> (r: Vec<Type>)
    ensures
        types_view(r@) == seq![a@, b@],
{
    let ghost (ga, gb) = (a@, b@);
    let mut v: Vec<Type> = Vec::new();
    v.push(a);
    v.push(b);
    proof {
        lemma_types_view(v@);
        assert(v@[0]@ == ga && v@[1]@ == gb);
        assert(types_view(v@) =~= seq![a@, b@]);
    }
    v
}

/// The error of a call whose argument types are `got`, of a function whose
/// parameter types are `expected`.
fn args_mismatch_exec(name: &String, got: &Vec<Type>, expected: &Vec<Type>) -> (r: Option<String>)
    ensures
        opt_msg_view(r) == args_mismatch(name@, types_view(got@), types_view(expected@)),
{
    proof {
        lemma_types_view(got@);
        lemma_types_view(expected@);
    }
    if got.len() != expected.len() {
        Some(arity_message(name, expected.len(), got.len()))
    } else if !crate::structs::same_types(got, expected) {
        Some(call_mismatch_message(got, expected))
    } else {
        None
    }
}

fn exact_call(name: &String, ts: &Vec<Type>, expected: Vec<Type>, t: Type) -> (r: Result<Type, String>)
    ensures
        type_msg_view(r) == match args_mismatch(name@, types_view(ts@), types_view(expected@)) {
            Some(m) => Err(m),
            None => Ok(t@),
        },
{
    match args_mismatch_exec(name, ts, &expected) {
        Some(m) => Err(m),
        None => Ok(t),
    }
}

/// The result type of a call of the built-in function `name` with
/// arguments of types `ts`, or the error.
fn builtin_type_exec(name: &String, ts: &Vec<Type>) -> (r: Result<Type, String>)
    ensures
        type_msg_view(r) == builtin_type(name@, types_view(ts@)),
{
    proof {
        lemma_types_view(ts@);
    }
    let v = chars_of(name.as_str());
    let n = ts.len();
    if name_is(&v, "read_line") {
        exact_call(name, ts, types0(), Type::String)
    } else if name_is(&v, "print") || name_is(&v, "println") {
        if n != 1 {
            Err(arity_message(name, 1, n))
        } else {
            Ok(Type::Unit)
        }
    } else if name_is(&v, "string_len") {
        exact_call(name, ts, types1(Type::String), Type::Int)
    } else if name_is(&v, "min") || name_is(&v, "max") {
        if n != 2 {
            Err(arity_message(name, 2, n))
        } else if (ts[0].same(&Type::Int) && ts[1].same(&Type::Int)) || (ts[0].same(&Type::Float) && ts[1].same(
            &Type::Float,
        )) {
            Ok(ts[0].copy())
        } else {
            Err(expected_message("(int, int) or (float, float)", ts))
        }
    } else if name_is(&v, "abs") {
        if n != 1 {
            Err(arity_message(name, 1, n))
        } else if ts[0].same(&Type::Int) || ts[0].same(&Type::Float) {
            Ok(ts[0].copy())
        } else {
            Err(expected_message("int or float", ts))
        }
    } else if name_is(&v, "cos") || name_is(&v, "sin") || name_is(&v, "tan") || name_is(&v, "sqrt") || name_is(
        &v,
        "log",
    ) {
        if n != 1 {
            Err(arity_message(name, 1, n))
        } else if ts[0].same(&Type::Float) {
            Ok(Type::Float)
        } else {
            Err(expected_message("float", ts))
        }
    } else if name_is(&v, "pow") {
        if n != 2 {
            Err(arity_message(name, 2, n))
        } else if ts[0].same(&Type::Float) && ts[1].same(&Type::Float) {
            Ok(Type::Float)
        } else {
            Err(expected_message("(float, float)", ts))
        }
    } else if name_is(&v, "itoa") {
        if n != 1 {
            Err(arity_message(name, 1, n))
        } else if ts[0].same(&Type::Int) {
            Ok(Type::String)
        } else {
            Err(expected_message("int", ts))
        }
    } else if name_is(&v, "atoi") {
        if n != 1 {
            Err(arity_message(name, 1, n))
        } else if ts[0].same(&Type::String) {
            Ok(Type::Int)
        } else {
            Err(expected_message("string", ts))
        }
    } else if name_is(&v, "float_to_int") {
        if n != 1 {
            Err(arity_message(name, 1, n))
        } else if ts[0].same(&Type::Float) {
            Ok(Type::Int)
        } else {
            Err(expected_message("float", ts))
        }
    } else if name_is(&v, "int_to_float") {
        if n != 1 {
            Err(arity_message(name, 1, n))
        } else if ts[0].same(&Type::Int) {
            Ok(Type::Float)
        } else {
            Err(expected_message("int", ts))
        }
    } else if name_is(&v, "sem_create") {
        exact_call(name, ts, types0(), Type::Semaphore)
    } else {
        exact_call(name, ts, types2(Type::Semaphore, Type::Int), Type::Unit)
    }
}

// ---------------------------------------------------------------------
// Results
// ---------------------------------------------------------------------

pub open spec fn type_result_view(r: Result<Type, TypeErrors>) -> Result<SType, SErrs> {
    match r {
        Ok(t) => Ok(t@),
        Err(e) => Err(e@),
    }
}

pub open spec fn opt_result_view(r: Option<Result<CheckResult, TypeErrors>>) -> Option<Result<SCheck, SErrs>> {
    match r {
        Some(x) => Some(result_view(x)),
        None => None,
    }
}

fn unop_result(op: UnOpType, r: Result<CheckResult, TypeErrors>) -> (out: Result<CheckResult, TypeErrors>)
    ensures
        result_view(out) == tc_unop(op, result_view(r)),
{
    match r {
        Err(e) => Err(e),
        Ok(c) => match op {
            UnOpType::Negate => if c.ty.same(&Type::Int) || c.ty.same(&Type::Float) {
                Ok(c)
            } else {
                Err(TypeErrors::from_msg(negate_message(&c.ty)))
            },
            UnOpType::Not => if c.ty.same(&Type::Bool) {
                Ok(c)
            } else {
                Err(TypeErrors::from_msg(not_message(&c.ty)))
            },
        },
    }
}

fn binop_ok_exec(op: BinOpType, l: &Type, r: &Type) -> (b: bool)
    ensures
        b == binop_ok(op, l@, r@),
{
    match op {
        BinOpType::LogicalAnd | BinOpType::LogicalOr => l.same(&Type::Bool) && r.same(&Type::Bool),
        BinOpType::LogicalEq => l.same(r),
        _ => (l.same(&Type::Int) && r.same(&Type::Int)) || (l.same(&Type::Float) && r.same(&Type::Float)),
    }
}

fn binop_result(op: BinOpType, lr: Result<CheckResult, TypeErrors>, rr: Result<CheckResult, TypeErrors>) -> (out:
    Result<CheckResult, TypeErrors>)
    ensures
        result_view(out) == tc_binop(op, result_view(lr), result_view(rr)),
{
    let ghost lv = result_view(lr);
    let ghost rv = result_view(rr);
    match (lr, rr) {
        (Ok(l), Ok(r)) => {
            if binop_ok_exec(op, &l.ty, &r.ty) {
                let ty = match op {
                    BinOpType::Add | BinOpType::Sub | BinOpType::Mul | BinOpType::Div => l.ty,
                    _ => Type::Bool,
                };
                Ok(CheckResult {
                    ty,
                    must_break: l.must_break || r.must_break,
                    must_return: l.must_return || r.must_return,
                })
            } else {
                Err(TypeErrors::from_msg(binop_message(op, &l.ty, &r.ty)))
            }
        },
        (a, b) => {
            let mut errs = TypeErrors::new();
            if let Err(mut e) = a {
                errs.append(&mut e);
            }
            if let Err(mut e) = b {
                errs.append(&mut e);
            }
            assert(errs@.errs =~= errs_of(lv) + errs_of(rv));
            Err(errs)
        },
    }
}

/// The errors about a condition: its own, or that it is not a boolean.
fn cond_check(r: Result<CheckResult, TypeErrors>, errs: &mut TypeErrors, in_loop: bool) -> (flags: (bool, bool))
    ensures
        final(errs)@ == (SErrs {
            errs: old(errs)@.errs + if in_loop {
                cond_errs(result_view(r), |t: SType| loop_cond_msg(t))
            } else {
                cond_errs(result_view(r), |t: SType| if_cond_msg(t))
            },
            cont: old(errs)@.cont,
        }),
        flags == match r {
            Ok(c) => (c.must_break, c.must_return),
            Err(_) => (false, false),
        },
{
    match r {
        Ok(c) => {
            if !c.ty.same(&Type::Bool) {
                let m = if in_loop { loop_cond_message(&c.ty) } else { if_cond_message(&c.ty) };
                errs.add_msg(m);
            } else {
                assert(old(errs)@.errs + seq![] =~= old(errs)@.errs);
            }
            (c.must_break, c.must_return)
        },
        Err(mut e) => {
            errs.append(&mut e);
            (false, false)
        },
    }
}

/// Moves the errors of a result to `errs`, and gives what was checked, if
/// the result is one.
fn take_errs(r: Result<CheckResult, TypeErrors>, errs: &mut TypeErrors) -> (c: Option<CheckResult>)
    ensures
        final(errs)@ == (SErrs { errs: old(errs)@.errs + errs_of(result_view(r)), cont: old(errs)@.cont }),
        match r {
            Ok(x) => c == Some(x),
            Err(_) => c is None,
        },
{
    match r {
        Ok(x) => {
            assert(old(errs)@.errs + seq![] =~= old(errs)@.errs);
            Some(x)
        },
        Err(mut e) => {
            errs.append(&mut e);
            None
        },
    }
}

fn if_else_result_exec(
    cr: Result<CheckResult, TypeErrors>,
    ir: Result<CheckResult, TypeErrors>,
    er: Option<Result<CheckResult, TypeErrors>>,
) -> (out: Result<CheckResult, TypeErrors>)
    ensures
        result_view(out) == if_else_result(result_view(cr), result_view(ir), opt_result_view(er)),
{
    let ghost cv = result_view(cr);
    let ghost iv = result_view(ir);
    let ghost ev = opt_result_view(er);
    let mut errs = TypeErrors::new();
    let (cmb, cmr) = cond_check(cr, &mut errs, false);
    let a = take_errs(ir, &mut errs);
    assert(errs@.errs =~= cond_errs(cv, |t: SType| if_cond_msg(t)) + errs_of(iv));
    match er {
        None => {
            if errs.is_ok() {
                Ok(CheckResult { ty: Type::Unit, must_break: cmb, must_return: cmr })
            } else {
                Err(errs)
            }
        },
        Some(er) => {
            let b = take_errs(er, &mut errs);
            match (a, b) {
                (Some(a), Some(b)) => {
                    if !a.must_break && !b.must_break && !a.ty.same(&b.ty) {
                        errs.add_msg(if_mismatch_message(&a.ty, &b.ty));
                        return Err(errs);
                    }
                    let mb = cmb || (a.must_break && b.must_break);
                    let mr = cmr || (a.must_return && b.must_return);
                    let ty = if a.must_break { b.ty } else { a.ty };
                    if errs.is_ok() {
                        Ok(CheckResult { ty, must_break: mb, must_return: mr })
                    } else {
                        Err(errs)
                    }
                },
                _ => Err(errs),
            }
        },
    }
}

fn loop_result_exec(cr: Option<Result<CheckResult, TypeErrors>>, br: Result<CheckResult, TypeErrors>) -> (out:
    Result<CheckResult, TypeErrors>)
    ensures
        result_view(out) == loop_result(opt_result_view(cr), result_view(br)),
{
    let ghost cv = opt_result_view(cr);
    let ghost bv = result_view(br);
    let mut errs = TypeErrors::new();
    match cr {
        Some(c) => {
            cond_check(c, &mut errs, true);
        },
        None => {},
    }
    let _ = take_errs(br, &mut errs);
    proof {
        match cv {
            Some(r) => assert(errs@.errs =~= cond_errs(r, |t: SType| loop_cond_msg(t)) + errs_of(bv)),
            None => assert(errs@.errs =~= Seq::<Seq<char>>::empty() + errs_of(bv)),
        }
    }
    if errs.is_ok() {
        Ok(CheckResult::plain(Type::Unit))
    } else {
        Err(errs)
    }
}

fn assign_result_exec(name: &String, tr: Result<Type, TypeErrors>, r: Result<CheckResult, TypeErrors>) -> (out:
    Result<CheckResult, TypeErrors>)
    ensures
        result_view(out) == assign_result(name@, type_result_view(tr), result_view(r)),
{
    match tr {
        Err(e) => Err(e),
        Ok(t) => match r {
            Err(e) => Err(e),
            Ok(c) => if !t.same(&c.ty) {
                Err(TypeErrors::from_msg(assign_mismatch_message(name, &t, &c.ty)))
            } else {
                Ok(CheckResult { ty: Type::Unit, must_break: c.must_break, must_return: c.must_return })
            },
        },
    }
}

fn return_result_exec(fns: &Vec<Type>, r: Result<CheckResult, TypeErrors>) -> (out: Result<CheckResult, TypeErrors>)
    ensures
        result_view(out) == return_result(fns@.map_values(|t: Type| t@), result_view(r)),
{
    match r {
        Err(e) => Err(e),
        Ok(c) => {
            let n = fns.len();
            if n > 0 && !c.ty.same(&fns[n - 1]) {
                Err(TypeErrors::from_msg(return_message(&fns[n - 1], &c.ty)))
            } else {
                Ok(CheckResult { ty: Type::Unit, must_break: true, must_return: true })
            }
        },
    }
}

fn fn_body_result_exec(f: &FnDeclData, fn_ty: Type, br: Result<CheckResult, TypeErrors>) -> (out: Result<
    CheckResult,
    TypeErrors,
>)
    requires
        fn_ty@ == fn_type(f@),
    ensures
        result_view(out) == fn_body_result(f@, result_view(br)),
{
    match br {
        Err(e) => Err(e),
        Ok(b) => {
            if b.must_return {
                Ok(CheckResult::plain(fn_ty))
            } else if f.body.last_expr.is_some() {
                if b.ty.same(&f.ret_type) {
                    Ok(CheckResult::plain(fn_ty))
                } else {
                    Err(TypeErrors::from_msg(block_type_message(&f.name, &f.ret_type, &b.ty)))
                }
            } else if !f.ret_type.same(&Type::Unit) {
                Err(TypeErrors::from_msg(might_not_return_message(&f.name, &f.ret_type)))
            } else {
                Ok(CheckResult::plain(fn_ty))
            }
        },
    }
}

// ---------------------------------------------------------------------
// The checker
// ---------------------------------------------------------------------

/// Type checks a program, keeping the scopes of the blocks being checked
/// and the return types of the functions being checked.
pub struct TypeChecker<'prog> {
    program: &'prog BlockSeq,
    envs: Vec<TypeEnv>,
    fn_type_stack: Vec<Type>,
}

impl<'prog> TypeChecker<'prog> {
    /// The scopes, innermost last.
    pub closed spec fn scopes(&self) -> Scopes {
        self.envs@.map_values(|e: TypeEnv| e@)
    }

    /// The return types of the enclosing functions, innermost last.
    pub closed spec fn fns(&self) -> Seq<SType> {
        self.fn_type_stack@.map_values(|t: Type| t@)
    }

    /// The program to check.
    pub closed spec fn program(&self) -> SBlock {
        self.program.view_block()
    }

    /// A checker of `program`, with no scope and outside any function.
    pub fn new(program: &'prog BlockSeq) -> (r: TypeChecker<'prog>)
        ensures
            r.scopes() == Seq::<Map<Seq<char>, SType>>::empty(),
            r.fns() == Seq::<SType>::empty(),
            r.program() == program@,
    {
        let r = TypeChecker { program, envs: Vec::new(), fn_type_stack: Vec::new() };
        assert(r.scopes() =~= Seq::<Map<Seq<char>, SType>>::empty());
        assert(r.fns() =~= Seq::<SType>::empty());
        r
    }

    /// Type checks the program: its type, or the errors found.
    pub fn type_check(self) -> (r: Result<Type, TypeErrors>)
        ensures
            type_result_view(r) == match tc_block(self.scopes(), self.fns(), self.program(), seq![]) {
                Ok(c) => Ok(c.ty),
                Err(e) => Err(e),
            },
    {
        let mut checker = self;
        let p = checker.program;
        let ps = no_params();
        match checker.check_block(p, &ps) {
            Ok(c) => Ok(c.ty),
            Err(e) => Err(e),
        }
    }

    fn push_scope(&mut self, env: TypeEnv)
        ensures
            final(self).scopes() == old(self).scopes().push(env@),
            final(self).fns() == old(self).fns(),
            final(self).program == old(self).program,
    {
        let ghost e = env@;
        self.envs.push(env);
        assert(self.scopes() =~= old(self).scopes().push(e));
    }

    fn push_fn(&mut self, t: Type)
        ensures
            final(self).fns() == old(self).fns().push(t@),
            final(self).scopes() == old(self).scopes(),
            final(self).program == old(self).program,
    {
        let ghost v = t@;
        self.fn_type_stack.push(t);
        assert(self.fns() =~= old(self).fns().push(v));
        assert(self.scopes() =~= old(self).scopes());
    }

    fn pop_fn(&mut self)
        requires
            old(self).fns().len() > 0,
        ensures
            final(self).fns() == old(self).fns().drop_last(),
            final(self).scopes() == old(self).scopes(),
            final(self).program == old(self).program,
    {
        let _ = self.fn_type_stack.pop();
        assert(self.fns() =~= old(self).fns().drop_last());
        assert(self.scopes() =~= old(self).scopes());
    }

    fn pop_scope(&mut self)
        requires
            old(self).scopes().len() > 0,
        ensures
            final(self).scopes() == old(self).scopes().drop_last(),
            final(self).fns() == old(self).fns(),
            final(self).program == old(self).program,
    {
        let _ = self.envs.pop();
        assert(self.scopes() =~= old(self).scopes().drop_last());
    }

    /// The type of `name` in the innermost scope that binds it.
    fn lookup_type(&self, name: &String) -> (r: Option<Type>)
        ensures
            match r {
                Some(t) => lookup(self.scopes(), name@) == Some(t@),
                None => lookup(self.scopes(), name@) is None,
            },
    {
        let ghost sc = self.scopes();
        let mut j: usize = self.envs.len();
        assert(sc.take(j as int) =~= sc);
        while j > 0
            invariant
                j <= self.envs.len(),
                sc == self.scopes(),
                lookup(sc, name@) == lookup(sc.take(j as int), name@),
            decreases j,
        {
            let ghost tk = sc.take(j as int);
            assert(tk.last() == self.envs@[j - 1]@);
            assert(tk.drop_last() =~= sc.take(j - 1));
            match self.envs[j - 1].get(name) {
                Some(t) => {
                    return Some(t);
                },
                None => {},
            }
            j = j - 1;
        }
        None
    }

    /// The type of `name`: built-in functions first, then the scopes.
    fn get_type(&self, name: &String) -> (r: Result<Type, TypeErrors>)
        ensures
            type_result_view(r) == get_type(self.scopes(), name@),
    {
        if is_builtin_fn(name) {
            return Ok(Type::BuiltInFn);
        }
        match self.lookup_type(name) {
            Some(t) => Ok(t),
            None => Err(TypeErrors::from_msg(not_declared(name))),
        }
    }

    /// The type of `name` if it is initialised.
    fn get_type_if_init(&self, name: &String) -> (r: Result<Type, TypeErrors>)
        ensures
            type_result_view(r) == get_type_if_init(self.scopes(), name@),
    {
        let t = self.get_type(name)?;
        if t.same(&Type::Unitialised) {
            Err(TypeErrors::from_msg(before_decl(name)))
        } else {
            Ok(t)
        }
    }

    /// Binds `name`, which must be known, to `ty` in the innermost scope.
    fn assign_ident(&mut self, name: &String, ty: Type) -> (r: Result<(), TypeErrors>)
        ensures
            match assign(old(self).scopes(), name@, ty@) {
                Ok(s2) => r is Ok && final(self).scopes() == s2,
                Err(e) => r matches Err(x) && x@ == e && final(self).scopes() == old(self).scopes(),
            },
            final(self).fns() == old(self).fns(),
            final(self).program == old(self).program,
    {
        let ghost t = ty@;
        self.get_type(name)?;
        if self.envs.len() > 0 {
            let ghost sc = self.scopes();
            let mut env = self.envs.pop().unwrap();
            env.insert(copy_string(name), ty);
            self.envs.push(env);
            assert(self.scopes() =~= sc.update(sc.len() - 1, sc.last().insert(name@, t)));
        }
        Ok(())
    }

    /// Checks an expression; the scopes stay as they were.
    fn check_expr(&mut self, e: &Expr) -> (r: Result<CheckResult, TypeErrors>)
        ensures
            result_view(r) == tc_expr(old(self).scopes(), old(self).fns(), e@),
            final(self).scopes() == old(self).scopes(),
            final(self).fns() == old(self).fns(),
            final(self).program == old(self).program,
        decreases e,
    {
        match e {
            Expr::Integer(_) => Ok(CheckResult::plain(Type::Int)),
            Expr::Float(_) => Ok(CheckResult::plain(Type::Float)),
            Expr::Bool(_) => Ok(CheckResult::plain(Type::Bool)),
            Expr::StringLiteral(_) => Ok(CheckResult::plain(Type::String)),
            Expr::Symbol(s) => {
                let t = self.get_type(s)?;
                Ok(CheckResult::plain(t))
            },
            Expr::UnOpExpr(op, x) => {
                let r = self.check_expr(x);
                unop_result(*op, r)
            },
            Expr::BinOpExpr(op, l, r) => {
                let lr = self.check_expr(l);
                let rr = self.check_expr(r);
                binop_result(*op, lr, rr)
            },
            Expr::BlockExpr(b) => {
                let ps = no_params();
                self.check_block(b, &ps)
            },
            Expr::IfElseExpr(d) => self.check_if_else(d),
            Expr::FnCallExpr(c) => self.check_fn_call(c),
            Expr::SpawnExpr(c) => {
                self.check_fn_call(c)?;
                Ok(CheckResult::plain(Type::ThreadId))
            },
            Expr::JoinExpr(_) => Ok(CheckResult::plain(Type::Unit)),
        }
    }

    /// Checks the arguments of a call: the errors, the types of the
    /// arguments that are well typed, and whether one surely breaks or
    /// returns.
    fn check_args(&mut self, v: &Vec<Expr>) -> (r: (TypeErrors, Vec<Type>, bool, bool))
        ensures
            tc_args(old(self).scopes(), old(self).fns(), exprs_view(v@)) == (SArgs {
                errs: r.0@.errs,
                types: types_view(r.1@),
                must_break: r.2,
                must_return: r.3,
            }),
            r.0@.cont,
            final(self).scopes() == old(self).scopes(),
            final(self).fns() == old(self).fns(),
            final(self).program == old(self).program,
        decreases v,
    {
        let ghost sc = self.scopes();
        let ghost fs = self.fns();
        let ghost av = exprs_view(v@);
        proof {
            lemma_exprs_view(v@);
        }
        let mut errs = TypeErrors::new();
        let mut types: Vec<Type> = Vec::new();
        let mut mb = false;
        let mut mr = false;
        let mut i: usize = 0;
        assert(av.take(0) =~= Seq::<crate::structs::SExpr>::empty());
        while i < v.len()
            invariant
                i <= v.len(),
                av.len() == v@.len(),
                forall|j: int| 0 <= j < v@.len() ==> av[j] == (#[trigger] v@[j]).view_expr(),
                self.scopes() == sc,
                self.fns() == fs,
                self.program == old(self).program,
                errs@.cont,
                tc_args(sc, fs, av.take(i as int)) == (SArgs {
                    errs: errs@.errs,
                    types: types_view(types@),
                    must_break: mb,
                    must_return: mr,
                }),
            decreases v.len() - i,
        {
            proof {
                assert(decreases_to!(v => v@[i as int]));
                let t = av.take(i as int + 1);
                assert(t.drop_last() =~= av.take(i as int));
                assert(t.last() == av[i as int]);
            }
            let r = self.check_expr(&v[i]);
            match r {
                Ok(c) => {
                    mb = mb || c.must_break;
                    mr = mr || c.must_return;
                    proof {
                        lemma_types_view_push(types@, c.ty);
                    }
                    types.push(c.ty);
                },
                Err(mut x) => {
                    errs.append(&mut x);
                },
            }
            i = i + 1;
        }
        assert(av.take(v.len() as int) =~= av);
        (errs, types, mb, mr)
    }

    /// Checks a call.
    fn check_fn_call(&mut self, c: &FnCallData) -> (r: Result<CheckResult, TypeErrors>)
        ensures
            result_view(r) == tc_call(old(self).scopes(), old(self).fns(), c.view_call()),
            final(self).scopes() == old(self).scopes(),
            final(self).fns() == old(self).fns(),
            final(self).program == old(self).program,
        decreases c,
    {
        let (errs, types, mb, mr) = self.check_args(&c.args);
        if !errs.is_ok() {
            return Err(errs);
        }
        if is_builtin_fn(&c.name) {
            return match builtin_type_exec(&c.name, &types) {
                Ok(t) => Ok(CheckResult { ty: t, must_break: mb, must_return: mr }),
                Err(m) => Err(TypeErrors::from_msg(m)),
            };
        }
        match self.lookup_type(&c.name) {
            Some(Type::UserFn(f)) => Ok(CheckResult { ty: f.ret_type, must_break: mb, must_return: mr }),
            _ => Ok(CheckResult { ty: Type::Unit, must_break: mb, must_return: mr }),
        }
    }

    /// Checks an if, with or without else.
    fn check_if_else(&mut self, d: &IfElseData) -> (r: Result<CheckResult, TypeErrors>)
        ensures
            result_view(r) == tc_if_else(old(self).scopes(), old(self).fns(), d@),
            final(self).scopes() == old(self).scopes(),
            final(self).fns() == old(self).fns(),
            final(self).program == old(self).program,
        decreases d,
    {
        let cr = self.check_expr(&d.cond);
        let ps = no_params();
        let ir = self.check_block(&d.if_blk, &ps);
        let er = match &d.else_blk {
            Some(b) => Some(self.check_block(b, &ps)),
            None => None,
        };
        if_else_result_exec(cr, ir, er)
    }

    /// Checks a loop.
    fn check_loop(&mut self, l: &LoopData) -> (r: Result<CheckResult, TypeErrors>)
        ensures
            result_view(r) == tc_loop(old(self).scopes(), old(self).fns(), l@),
            final(self).scopes() == old(self).scopes(),
            final(self).fns() == old(self).fns(),
            final(self).program == old(self).program,
        decreases l,
    {
        let cr = match &l.cond {
            Some(c) => Some(self.check_expr(c)),
            None => None,
        };
        let ps = no_params();
        let br = self.check_block(&l.body, &ps);
        loop_result_exec(cr, br)
    }

    /// Checks a block in a scope of its own, which binds the block's names
    /// and the annotated parameters `params`.
    fn check_block(&mut self, b: &BlockSeq, params: &Vec<FnParam>) -> (r: Result<CheckResult, TypeErrors>)
        ensures
            result_view(r) == tc_block(old(self).scopes(), old(self).fns(), b@, params_view(params@)),
            final(self).scopes() == old(self).scopes(),
            final(self).fns() == old(self).fns(),
            final(self).program == old(self).program,
        decreases b,
    {
        let ghost sc = self.scopes();
        let ghost fs = self.fns();
        let mut env = new_env_with_syms(crate::structs::copy_strings(&b.symbols));
        add_params(&mut env, params);
        self.push_scope(env);
        proof {
            lemma_decls_frame(self.scopes(), fs, b@.decls);
        }
        let (errs, mb, mr) = self.check_decls(&b.decls);
        assert(self.scopes().drop_last() == sc);
        if !errs.is_ok() {
            self.pop_scope();
            return Err(TypeErrors::from_errs(errs, true));
        }
        match &b.last_expr {
            Some(e) => {
                let r = self.check_expr(e);
                self.pop_scope();
                match r {
                    Ok(c) => Ok(CheckResult {
                        ty: c.ty,
                        must_break: c.must_break || mb,
                        must_return: c.must_return || mr,
                    }),
                    Err(x) => Err(TypeErrors::from_errs(x, true)),
                }
            },
            None => {
                self.pop_scope();
                Ok(CheckResult { ty: Type::Unit, must_break: mb, must_return: mr })
            },
        }
    }

    /// Checks a sequence of declarations, stopping after an error that
    /// checking cannot go on from.
    fn check_decls(&mut self, v: &Vec<Decl>) -> (r: (TypeErrors, bool, bool))
        ensures
            tc_decls(old(self).scopes(), old(self).fns(), decls_view(v@)).errs == r.0@.errs,
            tc_decls(old(self).scopes(), old(self).fns(), decls_view(v@)).must_break == r.1,
            tc_decls(old(self).scopes(), old(self).fns(), decls_view(v@)).must_return == r.2,
            tc_decls(old(self).scopes(), old(self).fns(), decls_view(v@)).scopes == final(self).scopes(),
            final(self).fns() == old(self).fns(),
            final(self).program == old(self).program,
        decreases v,
    {
        let ghost sc = self.scopes();
        let ghost fs = self.fns();
        let ghost dv = decls_view(v@);
        proof {
            lemma_decls_view(v@);
        }
        let mut errs = TypeErrors::new();
        let mut mb = false;
        let mut mr = false;
        let mut stopped = false;
        let mut i: usize = 0;
        assert(dv.take(0) =~= Seq::<crate::structs::SDecl>::empty());
        while i < v.len() && !stopped
            invariant
                i <= v.len(),
                dv.len() == v@.len(),
                forall|j: int| 0 <= j < v@.len() ==> dv[j] == (#[trigger] v@[j]).view_decl(),
                self.fns() == fs,
                self.program == old(self).program,
                tc_decls(sc, fs, dv.take(i as int)) == (SFold {
                    errs: errs@.errs,
                    stop: stopped,
                    must_break: mb,
                    must_return: mr,
                    scopes: self.scopes(),
                }),
            decreases v.len() - i,
        {
            proof {
                assert(decreases_to!(v => v@[i as int]));
                let t = dv.take(i as int + 1);
                assert(t.drop_last() =~= dv.take(i as int));
                assert(t.last() == dv[i as int]);
            }
            let r = self.check_decl(&v[i]);
            match r {
                Ok(c) => {
                    mb = mb || c.must_break;
                    mr = mr || c.must_return;
                },
                Err(mut x) => {
                    stopped = !x.can_continue();
                    errs.append(&mut x);
                },
            }
            i = i + 1;
        }
        proof {
            if stopped {
                lemma_decls_stop(sc, fs, dv, i as int);
            } else {
                assert(dv.take(i as int) =~= dv);
            }
        }
        (errs, mb, mr)
    }

    /// Checks a declaration, which may bind a name in the innermost scope.
    fn check_decl(&mut self, d: &Decl) -> (r: Result<CheckResult, TypeErrors>)
        ensures
            (result_view(r), final(self).scopes()) == tc_decl(old(self).scopes(), old(self).fns(), d@),
            final(self).fns() == old(self).fns(),
            final(self).program == old(self).program,
        decreases d,
    {
        match d {
            Decl::LetStmt(stmt) => {
                let r = self.check_expr(&stmt.expr);
                self.let_result_exec(&stmt.ident, r, &stmt.type_ann)
            },
            Decl::AssignStmt(stmt) => {
                let tr = self.get_type_if_init(&stmt.ident);
                let r = self.check_expr(&stmt.expr);
                assign_result_exec(&stmt.ident, tr, r)
            },
            Decl::ExprStmt(e) => self.check_expr(e),
            Decl::IfOnlyStmt(x) => self.check_if_else(x),
            Decl::LoopStmt(l) => self.check_loop(l),
            Decl::FnDeclStmt(f) => self.check_fn_decl(f),
            Decl::BreakStmt => Ok(CheckResult { ty: Type::Unit, must_break: true, must_return: false }),
            Decl::ReturnStmt(e) => {
                let r = match e {
                    Some(x) => self.check_expr(x),
                    None => Ok(CheckResult::plain(Type::Unit)),
                };
                return_result_exec(&self.fn_type_stack, r)
            },
            Decl::WaitStmt(_) => Ok(CheckResult::plain(Type::Unit)),
            Decl::PostStmt(_) => Ok(CheckResult::plain(Type::Unit)),
            Decl::YieldStmt => Ok(CheckResult::plain(Type::Unit)),
        }
    }

    /// A `let`, from the result of its expression.
    fn let_result_exec(&mut self, name: &String, r: Result<CheckResult, TypeErrors>, ann: &Option<Type>) -> (out:
        Result<CheckResult, TypeErrors>)
        ensures
            (result_view(out), final(self).scopes()) == let_result(
                old(self).scopes(),
                name@,
                result_view(r),
                crate::structs::opt_type_view(*ann),
            ),
            final(self).fns() == old(self).fns(),
            final(self).program == old(self).program,
    {
        match (r, ann) {
            (Err(e), None) => Err(TypeErrors::from_errs(e, false)),
            (Err(e), Some(t)) => {
                self.assign_ident(name, t.copy())?;
                Err(TypeErrors::from_errs(e, true))
            },
            (Ok(c), None) => {
                self.assign_ident(name, c.ty.copy())?;
                Ok(c)
            },
            (Ok(c), Some(t)) => {
                self.assign_ident(name, t.copy())?;
                if !t.same(&c.ty) {
                    Err(TypeErrors::from_msg(let_mismatch_message(name, t, &c.ty)))
                } else {
                    Ok(c)
                }
            },
        }
    }

    /// Checks a function declaration: its parameters must be annotated; its
    /// name is bound before its body is checked, so that it may call
    /// itself.
    fn check_fn_decl(&mut self, f: &FnDeclData) -> (r: Result<CheckResult, TypeErrors>)
        ensures
            (result_view(r), final(self).scopes()) == tc_fn_decl(old(self).scopes(), old(self).fns(), f@),
            final(self).fns() == old(self).fns(),
            final(self).program == old(self).program,
        decreases f,
    {
        let ghost sc = self.scopes();
        let ghost fs = self.fns();
        let ghost ps = params_view(f.params@);
        // The parameters' types, or the first parameter with none.
        let mut ptypes: Vec<Type> = Vec::new();
        let mut i: usize = 0;
        assert(ps.take(0) =~= Seq::<SParam>::empty());
        while i < f.params.len()
            invariant
                i <= f.params.len(),
                ps == params_view(f.params@),
                first_unannotated(ps.take(i as int)) is None,
                types_view(ptypes@) == param_types(ps.take(i as int)),
            decreases f.params.len() - i,
        {
            let ghost t1 = ps.take(i as int + 1);
            proof {
                assert(t1.drop_last() =~= ps.take(i as int));
                assert(t1.last() == ps[i as int]);
            }
            match &f.params[i].type_ann {
                Some(t) => {
                    let tc = t.copy();
                    proof {
                        lemma_types_view_push(ptypes@, tc);
                    }
                    ptypes.push(tc);
                    assert(param_types(t1) =~= param_types(ps.take(i as int)).push(t@));
                },
                None => {
                    proof {
                        lemma_first_unannotated_prefix(ps, i as int + 1);
                    }
                    return Err(TypeErrors::from_msg(no_annotation_message(&f.params[i].name)));
                },
            }
            i = i + 1;
        }
        assert(ps.take(f.params.len() as int) =~= ps);
        let fn_ty = Type::UserFn(Box::new(FnTypeData { params: ptypes, ret_type: f.ret_type.copy() }));
        self.assign_ident(&f.name, fn_ty.copy())?;
        self.push_fn(f.ret_type.copy());
        let br = self.check_block(&f.body, &f.params);
        self.pop_fn();
        assert(fs.push(f.ret_type@).drop_last() =~= fs);
        fn_body_result_exec(f, fn_ty, br)
    }
}

/// No parameters.
fn no_params() -> (r: Vec<FnParam>)
    ensures
        params_view(r@) == Seq::<SParam>::empty(),
{
    let r: Vec<FnParam> = Vec::new();
    assert(params_view(r@) =~= Seq::<SParam>::empty());
    r
}

/// Binds the annotated parameters in a scope.
fn add_params(env: &mut TypeEnv, params: &Vec<FnParam>)
    ensures
        final(env)@ == with_params(old(env)@, params_view(params@)),
{
    let ghost m0 = env@;
    let ghost ps = params_view(params@);
    let mut i: usize = 0;
    assert(ps.take(0) =~= Seq::<SParam>::empty());
    while i < params.len()
        invariant
            i <= params.len(),
            ps == params_view(params@),
            env@ == with_params(m0, ps.take(i as int)),
        decreases params.len() - i,
    {
        proof {
            let t1 = ps.take(i as int + 1);
            assert(t1.drop_last() =~= ps.take(i as int));
            assert(t1.last() == ps[i as int]);
        }
        match &params[i].type_ann {
            Some(t) => env.insert(copy_string(&params[i].name), t.copy()),
            None => {},
        }
        i = i + 1;
    }
    assert(ps.take(params.len() as int) =~= ps);
}

} // verus!
