//! The whole pipeline, the type checker's error lists, and what every parsed
//! program satisfies.
use rustscript::bytecode::ByteCode::{BINOP, DONE, GOTO, JOIN, LD, LDC, POP, POST, WAIT, YIELD};
use rustscript::bytecode::Value::{Int, Unit};
use rustscript::bytecode::{BinOp, ByteCode};
use rustscript::compiler::{compile_from_string, compile_string, BuildError, CompileError};
use rustscript::parser::Parser;
use rustscript::structs::{Decl, Type};
use rustscript::type_checker::{new_env_with_syms, CheckResult, TypeErrors};

#[test]
fn compile_from_string_compiles_well_typed_programs() {
    let code = compile_from_string("1 + 2", true).expect("should compile");
    assert_eq!(code, vec![LDC(Int(1)), LDC(Int(2)), BINOP(BinOp::Add), DONE]);
}

#[test]
fn compile_from_string_reports_parse_errors() {
    let e = compile_from_string("(1 + 2", true).expect_err("should fail");
    assert!(matches!(e, BuildError::Parse(_)));
    assert_eq!(e.to_string(), "[ParseError]: Expected closing parenthesis");

    let e = compile_from_string("let x = `;", false).expect_err("should fail");
    assert_eq!(e.to_string(), "[ParseError]: Expect lexer to succeed");
}

#[test]
fn compile_from_string_reports_type_errors_only_when_asked() {
    let t = "let x : int = true; x";
    let e = compile_from_string(t, true).expect_err("should fail");
    assert!(matches!(e, BuildError::Type(_)));
    assert_eq!(e.to_string(), "[TypeError]: 'x' has declared type int but assigned type bool");
    assert!(compile_from_string(t, false).is_ok());
    assert_eq!(compile_string(t).unwrap(), compile_from_string(t, false).unwrap());
}

#[test]
fn compile_error_text() {
    let e = CompileError::new("too big");
    assert_eq!(e.to_string(), "[CompileError] -  too big");
    assert_eq!(BuildError::Compile(CompileError::new("x")).to_string(), "[CompileError] -  x");
}

#[test]
fn compiled_if_else_jumps_stay_inside_the_code() {
    let code = compile_string("if true { 1 } else { 2 }").unwrap();
    assert_eq!(code.len(), 6);
    for bc in code.iter() {
        match bc {
            ByteCode::JOF(t) | ByteCode::GOTO(t) => assert!(*t < code.len()),
            _ => {}
        }
    }
    assert_eq!(code[3], GOTO(5));
}

#[test]
fn break_inside_a_loop_jumps_past_the_loop() {
    let code = compile_string("loop { break; }").unwrap();
    assert_eq!(code[0], GOTO(5));
    assert_eq!(code[1], POP);
    assert_eq!(code[4], GOTO(0));
    assert_eq!(code[5], LDC(Unit));
}

#[test]
fn type_errors_list_operations() {
    let mut errs = TypeErrors::new();
    assert!(errs.is_ok());
    assert_eq!(errs.to_string(), "");
    errs.add("first");
    let mut other = TypeErrors::new_err("second");
    other.add("third");
    errs.append(&mut other);
    assert!(other.is_ok());
    assert!(!errs.is_ok());
    assert_eq!(errs.to_string(), "[TypeError]: first\n[TypeError]: second\n[TypeError]: third");
    assert!(errs.can_continue());
    errs.set_cont(false);
    assert!(!errs.can_continue());
}

#[test]
fn check_results_combine() {
    let a = CheckResult { ty: Type::Int, must_break: true, must_return: false };
    let b = CheckResult { ty: Type::Bool, must_break: false, must_return: true };
    let c = CheckResult::combine(&a, &b);
    assert_eq!(c.ty, Type::Unit);
    assert!(c.must_break && c.must_return);
}

#[test]
fn new_env_binds_each_symbol_uninitialised() {
    let env = new_env_with_syms(vec!["x".to_string(), "f".to_string()]);
    assert_eq!(env.get(&"x".to_string()), Some(Type::Unitialised));
    assert_eq!(env.get(&"f".to_string()), Some(Type::Unitialised));
    assert_eq!(env.get(&"y".to_string()), None);
}

#[test]
fn parsed_blocks_list_the_names_they_declare() {
    let prog = Parser::new_from_string("let x = 1; fn f() { let z = 3; } let y = 2; y")
        .parse()
        .unwrap();
    assert_eq!(prog.symbols, vec!["x".to_string(), "f".to_string(), "y".to_string()]);
    match &prog.decls[1] {
        Decl::FnDeclStmt(f) => assert_eq!(f.body.symbols, vec!["z".to_string()]),
        _ => panic!("expected a function declaration"),
    }
}

#[test]
fn break_and_return_only_where_allowed() {
    assert!(Parser::new_from_string("loop { break; }").parse().is_ok());
    assert!(Parser::new_from_string("break;").parse().is_err());
    assert!(Parser::new_from_string("fn f() { return 1; }").parse().is_ok());
    let e = Parser::new_from_string("return 1;").parse().unwrap_err();
    assert_eq!(e.to_string(), "[ParseError]: return outside of fn");
}

#[test]
fn semaphores_type_check() {
    let prog = Parser::new_from_string("let s = sem_create(); sem_set(s, 1); wait s; post s; s")
        .parse()
        .unwrap();
    let ty = rustscript::type_checker::TypeChecker::new(&prog).type_check();
    assert_eq!(ty, Ok(Type::Semaphore));
    let prog = Parser::new_from_string("sem_set(1, 1)").parse().unwrap();
    let e = rustscript::type_checker::TypeChecker::new(&prog).type_check().unwrap_err();
    assert_eq!(
        e.to_string(),
        "[TypeError]: Mismatched types in function call: got ((int, int)) but expected ((semaphore, int))"
    );
}

#[test]
fn user_function_calls_have_the_return_type() {
    let check = |t: &str| {
        let prog = Parser::new_from_string(t).parse().unwrap();
        rustscript::type_checker::TypeChecker::new(&prog).type_check()
    };
    // the arguments of a user function are not held to its parameters
    assert_eq!(check("fn f(x: int) -> int { x } f(true)"), Ok(Type::Int));
    assert_eq!(check("fn f(x: int) -> int { x } f(1, 2)"), Ok(Type::Int));
    assert_eq!(check("fn f(x: int) -> int { x } let y : int = f(2); y"), Ok(Type::Int));
    assert_eq!(check("fn f(x: int) { } f(true)"), Ok(Type::Unit));
    // a name that is not a function, or no name at all, gives a unit
    assert_eq!(check("let g = 2; g(1)"), Ok(Type::Unit));
    assert_eq!(check("h(1)"), Ok(Type::Unit));
}

#[test]
fn builtin_errors() {
    let check = |t: &str| {
        let prog = Parser::new_from_string(t).parse().unwrap();
        rustscript::type_checker::TypeChecker::new(&prog).type_check()
    };
    assert_eq!(
        check("min(1, 2.0)").unwrap_err().to_string(),
        "[TypeError]: Expected (int, int) or (float, float) but got (int, float)"
    );
    assert_eq!(check("sqrt(1)").unwrap_err().to_string(), "[TypeError]: Expected float but got (int)");
    assert_eq!(
        check("print(1, 2)").unwrap_err().to_string(),
        "[TypeError]: Function 'print' takes 1 arguments but 2 were supplied"
    );
    assert_eq!(check("read_line()"), Ok(Type::String));
    assert_eq!(check("string_len(read_line())"), Ok(Type::Int));
    assert_eq!(check("itoa(1)"), Ok(Type::String));
    assert_eq!(check("atoi(\"12\")"), Ok(Type::Int));
}

#[test]
fn wait_post_yield_and_join_compile() {
    let code = compile_string("wait sem; 2; post sem; yield; join t;").unwrap();
    assert_eq!(
        code,
        vec![
            LD("sem".to_string()),
            WAIT,
            LDC(Unit),
            POP,
            LDC(Int(2)),
            POP,
            LD("sem".to_string()),
            POST,
            LDC(Unit),
            POP,
            YIELD,
            LDC(Unit),
            POP,
            LD("t".to_string()),
            JOIN,
            POP,
            DONE,
        ]
    );
}

#[test]
fn type_errors_default_is_empty_and_continues() {
    let errs = TypeErrors::default();
    assert!(errs.is_ok());
    assert!(errs.can_continue());
    assert_eq!(errs.to_string(), "");
}

#[test]
fn and_or_compile_as_if_else() {
    assert_eq!(
        compile_string("true && false").unwrap(),
        compile_string("if true { false } else { false }").unwrap()
    );
    assert_eq!(
        compile_string("false || true").unwrap(),
        compile_string("if false { true } else { true }").unwrap()
    );
}

#[test]
fn loop_code_layout() {
    let code = compile_string("loop { break; }").unwrap();
    // the break jumps to the loop's final unit value, after the jump back
    assert_eq!(code, vec![GOTO(5), POP, LDC(Unit), POP, GOTO(0), LDC(Unit), POP, DONE]);
}
