//! Type checker scenarios: source text in, type or errors out.
use rustscript::parser::Parser;
use rustscript::structs::Type;
use rustscript::type_checker::TypeChecker;

fn expect_pass(inp: &str, exp_type: Type) {
    let prog = Parser::new_from_string(inp).parse().expect("Should parse");
    let ty = TypeChecker::new(&prog).type_check();
    assert_eq!(Ok(exp_type), ty)
}

/// To expect type str
fn expect_pass_str(inp: &str, exp_type_str: &str) {
    let prog = Parser::new_from_string(inp).parse().expect("Should parse");
    let ty = TypeChecker::new(&prog).type_check().expect("Type check should pass");
    assert_eq!(ty.to_string(), exp_type_str)
}

// contains true means check if input contains exp_err. else check full equals
fn expect_err(inp: &str, exp_err: &str, contains: bool) {
    let prog = Parser::new_from_string(inp).parse().expect("Should parse");
    let ty_err = TypeChecker::new(&prog).type_check().expect_err("Should err");
    if contains {
        assert!(ty_err.to_string().contains(exp_err), "{} does not contain {}", ty_err.to_string(), exp_err)
    } else {
        assert_eq!(ty_err.to_string(), exp_err)
    }
}

// Literals, symbols and operators

#[test]
fn test_type_check_basic() {
    // Primitives
    expect_pass("2", Type::Int);
    expect_pass("2.33", Type::Float);
    expect_pass("true", Type::Bool);

    // // Let
    expect_pass("let x : int = 2;", Type::Unit);
    expect_pass("let x : bool = false;", Type::Unit);
    expect_pass("let x : float = 3.4;", Type::Unit);

    expect_err(
        "let x : int = true;",
        "declared type int but assigned type bool",
        true,
    );
    expect_err(
        "let x : bool = 2.33;",
        "declared type bool but assigned type float",
        true,
    );
    expect_err(
        "let x : float = 20;",
        "declared type float but assigned type int",
        true,
    );

    // Multiple errors: collects them
    expect_err("let x : float = 20; let x : int = true; let x : float = 20;",
     "[TypeError]: 'x' has declared type float but assigned type int\n[TypeError]: 'x' has declared type int but assigned type bool\n[TypeError]: 'x' has declared type float but assigned type int", false);
}

#[test]
fn test_type_check_sym() {
    expect_pass("let x : int = 2; x", Type::Int);
    // // variable shadowing
    expect_pass("let x : int = 2; let x : bool = true; x", Type::Bool);
    expect_pass("let x : int = 2; let y : bool = true; x;", Type::Unit);
}

#[test]
fn test_type_check_unops() {
    // Negation
    expect_err("-true;", "Can't negate type bool", true);
    expect_err("let x : bool = true; -x", "Can't negate type bool", true);
    expect_pass("let x : int = 20; -x", Type::Int);
    expect_pass("let x : int = 20; -x;", Type::Unit);
    expect_pass("let x : float = 2.33; -x", Type::Float);
    expect_pass("let x : float = 2.33; -x;", Type::Unit);

    // Not
    expect_pass("let x : bool = true; !x", Type::Bool);
    expect_err("let x : int = 20; !x", "NOT to type int", true);
    expect_err("let x : float = 20.36; !x", "NOT to type float", true);
}

#[test]
fn test_type_check_binops_math() {
    expect_pass("2+2", Type::Int);
    expect_pass("let x : int = 2; let y : int = 3; x + y", Type::Int);
    expect_pass("let x : int = 2; let y : int = 3; x + y;", Type::Unit);

    expect_pass(
        "let x : float = 2.36; let y : float = 3.2; x + y",
        Type::Float,
    );
    expect_pass(
        "let x : float = 2.36; let y : float = 3.2; x + y;",
        Type::Unit,
    );

    expect_err("let x : float = 2.36; 2 + 3*x", "apply", true);
    expect_err(
        "let x : int = 20 * 3 + 6 / 2; let y : float = 3.2; x + y",
        "apply",
        true,
    );
    expect_err("let x : bool = true +2;", "apply", true);
}

#[test]
fn test_type_check_binops_collect() {
    // Collect errors from lhs/rhs
    let t = "x+y";
    expect_err(
        t,
        "[TypeError]: Identifier 'x' not declared\n[TypeError]: Identifier 'y' not declared",
        true,
    );

    // blks - can't get types from the blks since they have errs but those are collected
    let t = "{ 2+false; 3} - {3+3.5; true}";
    expect_err(t,  "[TypeError]: Can't apply '+' to types 'int' and 'bool'\n[TypeError]: Can't apply '+' to types 'int' and 'float'", true);

    let t = "x+y+z";
    expect_err(t, "[TypeError]: Identifier 'x' not declared\n[TypeError]: Identifier 'y' not declared\n[TypeError]: Identifier 'z' not declared", false);
}

#[test]
fn test_type_check_binops_logical() {
    // &&, ||
    expect_pass("true && false", Type::Bool);
    expect_err(
        "2 && false",
        "Can't apply '&&' to types 'int' and 'bool'",
        true,
    );
    expect_err(
        "false && 2",
        "Can't apply '&&' to types 'bool' and 'int'",
        true,
    );

    expect_pass("true || false", Type::Bool);
    expect_err(
        "2 || false",
        "Can't apply '||' to types 'int' and 'bool'",
        true,
    );

    // chaining ok
    expect_pass("let x = true; true && false && x", Type::Bool);
    expect_pass("let x = true; true && false || x", Type::Bool);
}

#[test]
fn test_type_check_binops_cmp() {
    // ==, >, <

    // eq
    expect_pass("true == false", Type::Bool);
    expect_pass("23 == 56", Type::Bool);
    expect_pass("23.5 == 56.2", Type::Bool);
    expect_err(
        "true == {2;3 }",
        "Can't apply '==' to types 'bool' and 'int'",
        true,
    );

    // >
    expect_pass("2 > 3", Type::Bool);
    expect_pass("2.5 > 3.2", Type::Bool);
    expect_err(
        "true > false",
        "Can't apply '>' to types 'bool' and 'bool'",
        true,
    );

    // <
    expect_pass("2 < 3", Type::Bool);
    expect_pass("2.5 < 3.2", Type::Bool);
    expect_err(
        "true < false",
        "Can't apply '<' to types 'bool' and 'bool'",
        true,
    );

    // mix
    expect_pass("false == (3 > 5)", Type::Bool);
    expect_err(
        "(5 == 3) < 5",
        "[TypeError]: Can't apply '<' to types 'bool' and 'int'",
        false,
    );
}

#[test]
fn test_type_check_binops_log_cmp() {
    // mix ==, >, <, &&, ||
    expect_pass(r"2 == 2 && !true == false || 1 > 3 && 2 < 5 ", Type::Bool);

    expect_pass(
        r"
    let x : int = 2;
    let y : int = 3;
    let z : bool = 2 == 3;
    x == y && !z || y > x && x+2 < 5
    ",
        Type::Bool,
    );

    expect_err(
        r"
    let x : int = 2;
    let y : int = 3;
    let z : bool = 2 == 3;
    x == y && !z || y > x && z < 5
    ",
        "Can't apply '<' to types 'bool' and 'int'",
        true,
    );
}

// Blocks

#[test]
fn test_type_check_blk_simple() {
    let t = "{ 2 }";
    expect_pass(t, Type::Int);

    let t = "{ 2; true }";
    expect_pass(t, Type::Bool);

    let t = "{ let x : float = 2.4; x }";
    expect_pass(t, Type::Float);

    let t = "{ let x = 2.4; x; }";
    expect_pass(t, Type::Unit);

    let t = "let y = { let x = true; x }; y";
    expect_pass(t, Type::Bool);

    let t = "let y : int = { let x = true; x }; y";
    expect_err(t, "has declared type int but assigned type bool", true);
}

#[test]
fn test_type_check_blk_scope() {
    let t = r"
    let x : int = 2;
    {
        let y : int = 3;
    }
    y
    ";
    expect_err(t, "'y' not declared", true);

    let t = r"
    let x : int = 2;
    {
        let x : bool = true;
        let y : bool = x;
    }
    x
    ";
    expect_pass(t, Type::Int);

    let t = r"
    let x : int = 2;
    {
        let x : bool = true;
        let y : int = x;
    }
    x
    ";
    expect_err(t, "has declared type int but assigned type bool", true);

    let t = r"
    let x : int = 2;
    let z = {
        let x : bool = true;
        let y : bool = x;
        y
    };
    x;
    z
    ";
    expect_pass(t, Type::Bool);
}

#[test]
fn test_type_check_blk_more() {
    let t = r"
    let x = 2; 
    let y = 0; 
    { 
        let x = 3; 
        y = 4; 
    } 
    x+y
    ";

    expect_pass(t, Type::Int);

    // gets type from parent scope correctly during assign
    let t = r"
    let x = 2; 
    let y : bool = true;
    { 
        let x = 3; 
        y = 4; 
    } 
    x+y
    ";

    expect_err(t, "'y' declared with type bool but assigned type int", true);

    // doesn't matter that shadowed var has diff type
    let t = r"
    let x : int = 20; 
    let y = 0; 
    let z : bool = { 
        let x : bool = true; 
        y = 4; 
        x
    };
    x+y
    ";
    expect_pass(t, Type::Int);

    // blk with no last expr has unit type
    let t = r"
    let x : int = 20; 
    let y = 0; 
    let z : bool = { 
        let x : bool = true; 
        y = 4; 
        x;
    };
    x+y
    ";
    expect_err(t, "'z' has declared type bool but assigned type ()", true);

    // x declared again in block, so the assign looks for closest decl of x which is Uninit at time of x = true;
    let t = r"
    let x = 10;
    {
        x = true;
        let x = false;
    };
    ";

    expect_err(
        t,
        "[TypeError]: Identifier 'x' assigned before declaration",
        false,
    );
}

#[test]
fn test_type_check_blk_errs() {
    let t = r"
    let x : int = true;
    let y = 20;
    {
        let y : bool = 20;
    }
    x + false
    ";

    expect_err(t, "[TypeError]: 'x' has declared type int but assigned type bool\n[TypeError]: 'y' has declared type bool but assigned type int", true);
}

// Let and assignment

#[test]
fn test_type_check_sym_advanced() {
    // first has err but no type ann: we don't proceed
    expect_err(
        "let x = -true; let y : int = x + 2; let z : bool = !x;",
        "[TypeError]: Can't negate type bool",
        false,
    );

    // expr has err but we have ann: can proceed
    expect_err("let x : int = -true; let y : int = x + false;", 
    "[TypeError]: Can't negate type bool\n[TypeError]: Can't apply '+' to types 'int' and 'bool'", false);

    // expr is fine but no annotation: use inferred type
    expect_err(
        "let x = 2+2; let y : int = !x;",
        "Can't apply logical NOT to type int",
        true,
    );
    expect_pass("let x = 2+2; let y : int = -x*3; y", Type::Int);

    // expr is fine and we have annotation: check for mismatch, can proceed with binding type = annotation
    // here !y is fine so no error, since y is annotated bool
    expect_err("let x : int = !true; let y: bool = x + false; let z : bool = !y;", 
    "[TypeError]: 'x' has declared type int but assigned type bool\n[TypeError]: Can't apply '+' to types 'int' and 'bool'", false);

    expect_err("let x : int = !true; let y: bool = x + false; let z : bool = y + x;", 
    "[TypeError]: 'x' has declared type int but assigned type bool\n[TypeError]: Can't apply '+' to types 'int' and 'bool'\n[TypeError]: Can't apply '+' to types 'bool' and 'int'",
    false);
}

#[test]
fn test_type_check_ident_decl() {
    // stops immediately because y has no annotation
    let t = "let y = x + 2; let z = y - false;";
    expect_err(t, "[TypeError]: Identifier 'x' not declared", false);

    // continues because y has type annotation
    let t = "let y : int = x + 2; let z = y - false;";
    expect_err(t, "[TypeError]: Identifier 'x' not declared\n[TypeError]: Can't apply '-' to types 'int' and 'bool'", false);

    // unit
    let t = "let x : () = {}; let y : () = { 2; 3; }; x";
    expect_pass(t, Type::Unit);

    let t = "let x : () = if true { 2; } else { 3; }; x";
    expect_pass(t, Type::Unit);

    let t = "let x : () = if true { 2 } else { 3 }; x";
    expect_err(t, "'x' has declared type () but assigned type int", true);
}

#[test]
fn test_type_check_bigger() {
    let t = "let y : bool = 20; let x : int = y; let z : int = x*y + 3; z";
    expect_err(t, "[TypeError]: 'y' has declared type bool but assigned type int\n[TypeError]: 'x' has declared type int but assigned type bool\n[TypeError]: Can't apply '*' to types 'int' and 'bool'", false);
}

#[test]
fn test_type_check_assign() {
    // don't continue since first one has err
    let t = "let x = !20; x = true; x";
    expect_err(t, "[TypeError]: Can't apply logical NOT to type int", false);

    let t = "let x = 20; x = true; x";
    expect_err(t, "'x' declared with type int but assigned type bool", true);

    let t = "let x : int = 20; x = !true; x";
    expect_err(t, "'x' declared with type int but assigned type bool", true);

    let t = "let x : int = !20; x = !true; x";
    expect_err(t,"[TypeError]: Can't apply logical NOT to type int\n[TypeError]: 'x' declared with type int but assigned type bool", false);

    let t = "let y = 2; x = 10;";
    expect_err(t, "Identifier 'x' not declared", true);

    // Assign before declaration (error)
    let t = "x = 10; let x = 5;";
    expect_err(
        t,
        "[TypeError]: Identifier 'x' assigned before declaration",
        false,
    );
}

// Loops

#[test]
fn test_type_check_loop() {
    let t = r"
    loop {

    }
    ";
    expect_pass(t, Type::Unit);

    let t = r"
    loop {
        let x = 0;
        loop x < 5 {
            x = x + 1;
        }
    }
    ";
    expect_pass(t, Type::Unit);

    let t = r"
    let y = 3;
    let z = true;

    loop y < 3 && z == true {
        let x = 0;
        loop x < 5 {
            x = x + 1;
            break;
        }
        y = y + 1;
    }
    ";
    expect_pass(t, Type::Unit);

    // if we break in the branch its ok because it will just jump past loop + ident was not loaded anyway
    let t = r"
    loop {
        let y = if true {
            break;
            3
        } else { 4 };
    }
    ";
    expect_pass(t, Type::Unit);
}

#[test]
fn test_type_check_errs() {
    // cond has errs
    let t = r"
    loop !2 {

    }
    ";
    expect_err(t, "Can't apply logical NOT to type int", true);

    // cond ok but not type bool
    let t = r"
    loop 2+2 - 3 {

    }
    ";
    expect_err(
        t,
        "Expected type 'bool' for loop predicate but got 'int'",
        true,
    );

    // cond and blk have errs
    let t = r"
    loop x < 5 {
        2+false;
    }
    ";
    expect_err(t,  "[TypeError]: Identifier 'x' not declared\n[TypeError]: Can't apply '+' to types 'int' and 'bool'", false);

    // cond ok but not type bool, body has errs
    let t = r"
    loop 2.2 - 3.6 {
        2+false;
    }
    ";
    expect_err(t,  "[TypeError]: Expected type 'bool' for loop predicate but got 'float'\n[TypeError]: Can't apply '+' to types 'int' and 'bool'", false);
}

#[test]
fn branches_that_break_take_the_other_type() {
    // when in loop, break in if else is accepted and the type of the other branch is taken as overall type
    let t = "
    loop {
        let x : int = if true {
            break;
        } else {
            3
        };
    }
   ";
    expect_pass(t, Type::Unit);

    // else break
    let t = "
    loop {
        let x : int = if true {
            3
        } else {
            break;
        };
    }
   ";
    expect_pass(t, Type::Unit);

    // both break
    let t = "
    loop {
        let x : () = if true {
            break;
        } else {
            break;
        };
    }
   ";
    expect_pass(t, Type::Unit);

    // loop stmt doesn't contribute to must_break, so this is checked for mismatch across branches
    let t = r"
    loop {
        let x : int = if true {
           loop { break; }
           
        } else {
           3
        };
   }
    ";
    expect_err(
        t,
        "if-else has type mismatch - consequent:(), alt :int",
        true,
    );
}

// If and else

#[test]
fn test_type_check_if_basic() {
    let t = r"
    if true {
        20
    }
    ";
    expect_pass(t, Type::Unit);

    // if-else as expr gives type of blks if matching
    let t = r"
    if true {
        20
    } else {
        30
    }
    ";
    expect_pass(t, Type::Int);

    // if-else as expr gives type of blks if matching
    let t = r"
    let x : int = if true {
        20
    } else {
        30
    };
    x
    ";
    expect_pass(t, Type::Int);

    // both unit ok
    let t = r"
    if true {
        20;
    } else {
        30;
    }
    ";
    expect_pass(t, Type::Unit);
}

#[test]
fn test_type_check_if_conderr() {
    let t = r"
    if !2 {
        20;
    }
    ";
    expect_err(t, "Can't apply logical NOT to type int", true);

    // cond ok but wrong type
    let t = r"
    if 2+2 {
        20;
    }
    ";
    expect_err(t, "Expected type 'bool' for if condition, got 'int'", true);

    // cond has err when if-else types match
    let t = r"let x = 2; let y = 3; if !x == y { 20 } else { 30 }";
    expect_err(t, "Can't apply logical NOT to type int", true);
}

#[test]
fn test_type_check_if_multiple() {
    // all three error (cond, two blks)
    let t = r"
    if 2+2 {
        let x : bool = 2.46;
    } else {
        30+false;
    }
    ";
    expect_err(t,  "[TypeError]: Expected type 'bool' for if condition, got 'int'\n[TypeError]: 'x' has declared type bool but assigned type float\n[TypeError]: Can't apply '+' to types 'int' and 'bool'", false);

    // multiple errs in blks
    let t = r"
    if 2+2 {
        let x : bool = 2.46;
        2+true;
    } else {
        30+false;
        2.56+2;
    }
    ";
    expect_err(t,  "[TypeError]: Expected type 'bool' for if condition, got 'int'\n[TypeError]: 'x' has declared type bool but assigned type float\n[TypeError]: Can't apply '+' to types 'int' and 'bool'\n[TypeError]: Can't apply '+' to types 'int' and 'bool'\n[TypeError]: Can't apply '+' to types 'float' and 'int'", false);

    // cond + else err
    let t = r"
    if 2+2 {
        let x : int = 2;
    } else {
        30+false;
    }
    ";
    expect_err(t, "[TypeError]: Expected type 'bool' for if condition, got 'int'\n[TypeError]: Can't apply '+' to types 'int' and 'bool'", false);

    // cond + if err
    let t = r"
     if 2+2 {
         30+2.56;
     } else {
         300;
     }
     ";
    expect_err(t, "[TypeError]: Expected type 'bool' for if condition, got 'int'\n[TypeError]: Can't apply '+' to types 'int' and 'float'", false);
}

#[test]
fn test_type_check_if_else_blksonly() {
    // if + else err
    let t = r"
     if true {
        30+2.56;
     } else {
        300+false;
     }
     ";
    expect_err(t,  "[TypeError]: Can't apply '+' to types 'int' and 'float'\n[TypeError]: Can't apply '+' to types 'int' and 'bool'", false);

    // if only
    let t = r"
     if true {
        30+2.56;
     } else {
        300;
     }
     ";
    expect_err(t, "Can't apply '+' to types 'int' and 'float'", true);

    // else only
    let t = r"
     if true {
        300;
     } else {
        30+true;
     }
     ";
    expect_err(t, "Can't apply '+' to types 'int' and 'bool'", true);

    // no errs but type mismatch
    let t = r"
     if true {
        300
     } else {
        true
     }
     ";
    expect_err(
        t,
        "if-else has type mismatch - consequent:int, alt :bool",
        true,
    );

    // no errs but type mismatch - when if else is stmt
    let t = r"
     if true {
        300
     } else {
        true
     };
     ";
    expect_err(
        t,
        "if-else has type mismatch - consequent:int, alt :bool",
        true,
    );

    // works when if-else is stmt as long as types are same - just like Rust
    let t = r"
     if true {
        300
     } else {
        500
     }

     if true {
        true
     } else {
        false
     }

     300;
     if false {
        200
     }
     ";
    expect_pass(t, Type::Unit);
}

// Function declarations

#[test]
fn test_type_check_fn_decl_simple() {
    let t = r"
    fn f() {

    }
    ";
    expect_pass(t, Type::Unit);

    let t = r"
    fn f() {

    }
    f
    ";
    expect_pass_str(t, "fn()");

    // with annotation
    let t = r"
    fn f(x: int) -> bool {
        true
    }
    f
    ";
    expect_pass_str(t, "fn(int) -> bool");

    let t = r"
    fn f(x: int) {
        
    }
    f
    ";
    expect_pass_str(t, "fn(int)");
}

#[test]
fn test_type_check_fn_decl_fails() {
    // param has no ty ann
    let t = r"
    fn f(x : int, y) {

    }
    ";
    expect_err(t, "[TypeError]: Parameter 'y' has no type annotation", true);

    let t = r"
    fn fac(n) {

    }
    ";
    expect_err(t, "Parameter 'n' has no type annotation", true);
}

#[test]
fn test_type_check_fn_rettype() {
    // should fail because blk has type bool
    let t = r"
    fn f(x: int) -> int {
        true
    }
    f
    ";
    expect_err(t, "has return type 'int' but found block type 'bool'", true);

    // last expr ret
    let t = r"
    fn f() -> int {
        20+30
    }
    ";
    expect_pass(t, Type::Unit);

    let t = r"
    fn f() -> int {
        return 20;
    }
    ";
    expect_pass(t, Type::Unit);

    let t = r"
    fn f() -> int {
        {
            return 30;
        }
        true
    }
    ";
    expect_pass(t, Type::Unit);

    let t = r"
    fn f() -> int {
        if true {
            return 20;
        } else {
            return 30;
        }
    }
    ";
    expect_pass(t, Type::Unit);

    // // if only, loop are not must_ret
    //     // although inf loop that would definitely return here, we are conservative
    let t = r"
    fn f() -> int {
        if true {
            return 20;
        } 

        loop {
            return 30;
        }
    }
    ";
    expect_err(t, "might not return", true);

    // unit - don't have to must_return
    let t = r"
    fn f() {
        if true {
            return;
        } 

        loop {
            return;
        }

        fn g() -> int {
            200
        }
    }
    ";
    expect_pass(t, Type::Unit);

    // if else
    let t = r"
    fn f() -> int {
        if true {
            return 20;
        } else {
            30
        }
    }
    ";
    expect_pass(t, Type::Unit);

    let t = r"
    fn f(x: int) -> int {
        2;
    }
    f
    ";
    expect_err(t, "might not return", true);
}

#[test]
fn test_type_check_fn_ret_stmt() {
    let t = r"
    fn f() -> int {
        if true {
            return true;
        } else {
            return 2.56;
        }

        return 5;
    }
    ";
    expect_err(t, "[TypeError]: Expected function return type 'int' but return statement has type 'bool'\n[TypeError]: Expected function return type 'int' but return statement has type 'float'", false);

    // check that it ignores inner return for hof
    let t = r"
    fn f() -> int {
        fn g() -> bool {
            return true;
        }

        return 20;
    }
    f
    ";
    expect_pass_str(t, "fn() -> int");

    // when return expr has error - keeps checking rest
    let t = r"
    fn f() -> int {
        if true {
            return 2+ !2;
        }
        return !true;
    }
    ";
    expect_err(t, "[TypeError]: Can't apply logical NOT to type int\n[TypeError]: Expected function return type 'int' but return statement has type 'bool'", false);
}

#[test]
fn test_type_check_fn_decl_edges() {
    // Recursive
    let t = r"
    fn f(x: int) -> int {
        f(x-1)
    }
    f
    ";
    expect_pass_str(t, "fn(int) -> int");

    // should fail bc n has type int but x has type bool
    // need to add type assignments for params before going in
    let t = r"
    fn fac(n: int) {
        let x :bool = n;
        2 + n
    } 
    fac(1)
    ";
    expect_err(t, "'x' has declared type bool but assigned type int", true);

    let t = r"
    fn fac(n: int, b: bool) {
        n + b
    } 
    fac(1)
    ";
    expect_err(t, "Can't apply '+' to types 'int' and 'bool'", true);
}

// Built-in functions

#[test]
fn test_type_check_builtin_sym() {
    let builtins = [
        "read_line",
        "print",
        "println",
        "string_len",
        "min",
        "max",
        "abs",
        "cos",
        "sin",
        "tan",
        "sqrt",
        "log",
        "pow",
        "itoa",
        "atoi",
        "float_to_int",
        "int_to_float",
        "sem_create",
        "sem_set",
    ];
    for &builtin in builtins.iter() {
        expect_pass(builtin, Type::BuiltInFn);
    }
}

#[test]
fn test_type_check_builtin_functions() {
    expect_pass("let x : () = print(2); x", Type::Unit);

    // Test min
    expect_pass("let x : int = min(2, 3); x", Type::Int);
    expect_pass("let x : float = min(2.0, 3.0); x", Type::Float);

    // Test max
    expect_pass("let x : int = max(2, 3); x", Type::Int);
    expect_pass("let x : float = max(2.0, 3.0); x", Type::Float);

    // Test abs
    expect_pass("let x : int = abs(-5); x", Type::Int);
    expect_pass("let x : float = abs(-5.0); x", Type::Float);

    // Test cos
    expect_pass("let x : float = cos(0.0); x", Type::Float);

    // Test sin
    expect_pass("let x : float = sin(0.0); x", Type::Float);

    // Test tan
    expect_pass("let x : float = tan(0.0); x", Type::Float);

    // Test sqrt
    expect_pass("let x : float = sqrt(4.0); x", Type::Float);

    // Test log
    expect_pass("let x : float = log(1.0); x", Type::Float);

    // Test pow
    expect_pass("let x : float = pow(2.0, 3.0); x", Type::Float);

    // Test itoa
    // expect_pass("let x : string = itoa(123); x", Type::String);

    // Test atoi
    // expect_pass("let x : int = atoi(\"123\"); x", Type::Int);

    // Test float_to_int
    expect_pass("let x : int = float_to_int(3.5); x", Type::Int);

    // Test int_to_float
    expect_pass("let x : float = int_to_float(3); x", Type::Float);
}
