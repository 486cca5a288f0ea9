//! Parser scenarios: source text in, printed syntax tree or error out.
use rustscript::parser::Parser;

fn test_parse(inp: &str, expected: &str) {
    let parser = Parser::new_from_string(inp);
    let res = parser.parse().expect("Should parse");
    assert_eq!(res.to_string(), expected);
}

fn test_parse_err(inp: &str, exp_err: &str, contains: bool) {
    let parser = Parser::new_from_string(inp);
    let res = parser.parse().expect_err("Should err");
    if contains {
        assert!(res.to_string().contains(exp_err), "{} does not contain {}", res.to_string(), exp_err);
    } else {
        assert_eq!(res.to_string(), exp_err);
    }
}

// Blocks

#[test]
fn test_parse_blk_simple() {
    //     test_parse("{ 2 }", "{ 2 }");
    //     test_parse("{ 2+3 }", "{ (2+3) }");
    test_parse("{ 2; }", "{ 2; }");
    // test_parse("{ 2; 3; }", "{ 2;3; }");
    // test_parse("{ 2; 3 }", "{ 2;3 }");
    // test_parse("{ 2; 3; 4 }", "{ 2;3;4 }");
}

#[test]
fn test_parse_blk_more() {
    // blk expr at the end
    let t = r"
    let x = 2;
    {
        let x = 3;
        x
    }
    ";
    test_parse(t, "let x = 2;{ let x = 3;x }");

    // blk stmt at the end
    let t = r"
    let x = 2;
    {
        let x = 3;
        x
    };
    ";
    test_parse(t, "let x = 2;{ let x = 3;x };");

    // blk in middle with semi
    let t = r"
    let x = 2;
    {
        let x = 3;
        x
    };
    x
    ";
    test_parse(t, "let x = 2;{ let x = 3;x };x");

    // blk in the middle without semi - we allow this to parse but type checker will reject (blk stmt should have unit) (?)
    let t = r"
    {
        let x = 3;
        x
    }
    y+2
    ";
    test_parse(t, "{ let x = 3;x };(y+2)");

    let t = r"
    let y = 10;
    {
        let x = 3;
        x
    };
    y+2;
    ";
    test_parse(t, "let y = 10;{ let x = 3;x };(y+2);");
}

// Expressions


#[test]
fn test_parse_binop() {
    test_parse("2+3;", "(2+3);");
    test_parse("2*3;", "(2*3);");
    test_parse("2+2*3", "(2+(2*3))");
    test_parse("2*3+4", "((2*3)+4)");
    test_parse("2*3+4/2", "((2*3)+(4/2))");

    test_parse("2*3+4; 2+4*3; 20/200*2", "((2*3)+4);(2+(4*3));((20/200)*2)");

    test_parse("2-3", "(2-3)");
    test_parse("2-3+4/5*6", "((2-3)+((4/5)*6))");
    test_parse("2-3+4/5*6-8+9; 2+2;", "((((2-3)+((4/5)*6))-8)+9);(2+2);");

    test_parse("let x = 2+3*4-5; 300", "let x = ((2+(3*4))-5);300");
}

#[test]
fn test_parse_negation() {
    test_parse("-2;", "(-2);");
    test_parse("-2+3;", "((-2)+3);");
    test_parse("3+-2;", "(3+(-2));");
    test_parse("--2;", "(-(-2));");
    test_parse("---2;", "(-(-(-2)));");
    test_parse("-1*2+3-4", "((((-1)*2)+3)-4)");
    test_parse(
        "let x = -1.23; -1+2*3; 3*-2/5",
        "let x = (-1.23);((-1)+(2*3));((3*(-2))/5)",
    );

    // no type checking yet - leave type checking to one distinct phase
    test_parse("let x = -true+false;", "let x = ((-true)+false);");
}

#[test]
fn test_parse_ident() {
    test_parse("x", "x");
    test_parse("x;", "x;");
    test_parse("x; y;", "x;y;");
    test_parse("x; y; z", "x;y;z");

    test_parse("x; y; x+y*2", "x;y;(x+(y*2))");
    test_parse("x; y; -y+x/3", "x;y;((-y)+(x/3))");
    test_parse("x; y; -y+x/3", "x;y;((-y)+(x/3))");
}

#[test]
fn test_parse_parens() {
    test_parse("(2)", "2");
    test_parse("((((20))));", "20;");
    test_parse("(2+3)", "(2+3)");
    test_parse("(2+3)*4", "((2+3)*4)");
    test_parse("2+3*(4-5)", "(2+(3*(4-5)))");
    test_parse("2+3*(4-(5*6/(7-3)))", "(2+(3*(4-((5*6)/(7-3)))))");
    test_parse(
        "(2*3+(4-(6*5)))*(10-(20)*(3+2))",
        "(((2*3)+(4-(6*5)))*(10-(20*(3+2))))",
    );

    // Err cases
    test_parse_err("((2+3)*5", "closing paren", true);
    test_parse_err("(2*3+(4-(6*5)))*(10-(20)*(3+2)", "closing paren", true);
}

#[test]
fn test_parse_not() {
    test_parse("!true", "(!true)");
    test_parse("!false", "(!false)");
    test_parse("!!true;", "(!(!true));");
    test_parse("!!!true", "(!(!(!true)))");

    // No type check, but we will use same prec for mul as for logical and/or
    test_parse("!2*3", "((!2)*3)");
    test_parse("!(2*3)", "(!(2*3))");
}

#[test]
fn test_parse_comp_ops() {
    // ==, <, >
    test_parse("2 > 3", "(2>3)");
    test_parse_err("2 > 3 > 4", "Comparison operators can't be chained", true);
    test_parse_err(
        "false == 3 > 5",
        "Comparison operators can't be chained",
        true,
    );

    // can chain if brackets provided
    test_parse("(2 > 3) > true", "((2>3)>true)");
    test_parse("false == (3 > 5)", "(false==(3>5))");
    test_parse("(false == 3) > 5", "((false==3)>5)"); // can parse but not well-typed
}

#[test]
fn test_parse_logical_ops() {
    // &&, || - left assoc
    test_parse("x && y && z", "((x&&y)&&z)");
    test_parse("x || y || z", "((x||y)||z)");

    // override
    test_parse("x && (y && z)", "(x&&(y&&z))");
    test_parse("x || (y || z)", "(x||(y||z))");

    // both
    test_parse("x && y || z", "((x&&y)||z)");

    // and is stronger - e.g 2+2*3 => 2+(2*3)
    test_parse("true || false && false", "(true||(false&&false))");
    // but brackets can override precedence - (2+2)*3
    test_parse("(true || false) && false", "((true||false)&&false)");

    // with not
    // becomes (!x && y) || (!z == false)
    test_parse("!x && y || !z == false", "(((!x)&&y)||((!z)==false))");

    // can override
    test_parse("!(x && y) || !z == false", "((!(x&&y))||((!z)==false))");
}

// Function declarations


#[test]
fn test_parse_fn_decl() {
    let t = r"
    fn f() {
        
    }
    ";
    test_parse(t, "fn f () {  };");

    let t = r"
    fn f() {
        let x = 2;
    }
    ";
    test_parse(t, "fn f () { let x = 2; };");

    let t = r"
    fn f(x) {
        let y = 2;
    }
    ";
    // test_parse(t, "");

    // let t = r"
    // fn f() {
    //     return 3;
    // }
    // ";
}

// Identifiers and calls


#[test]
fn test_parse_fn_call() {
    let t = "print()";
    test_parse(t, "print()");

    let t = "print();";
    test_parse(t, "print();");

    let t = "print(2);";
    test_parse(t, "print(2);");

    let t = "print(2,3)";
    test_parse(t, "print(2,3)");

    let t = "print(2,3);";
    test_parse(t, "print(2,3);");

    let t = "print(2, 3, 4);";
    test_parse(t, "print(2,3,4);");

    let t = "print(2,3,); 2";
    test_parse(t, "print(2,3);2");
}

#[test]
fn test_parse_fn_call_mixed() {
    // in stmts
    let t = "let x = f(2,3);";
    test_parse(t, "let x = f(2,3);");

    let t = "x = f(2,3);";
    test_parse(t, "x = f(2,3);");

    let t = r"
    if true {
        f(2,3,);
    } else {
        g(5,6)
    }
    ";
    test_parse(t, "if true { f(2,3); } else { g(5,6) }");

    let t = r"
    loop {
        print(2);
        f(g,3);
        foo() + bar(6)
    }
    ";
    test_parse(t, "loop  { print(2);f(g,3);(foo()+bar(6)) };");

    let t = r"
    let x : int = {
        let y = 2;
        // 3 arguments
        foo(g(2) + f(6), (bar(7,3) * y) + func(7), func(8))
    };
    ";
    test_parse(
        t,
        "let x : int = { let y = 2;foo((g(2)+f(6)),((bar(7,3)*y)+func(7)),func(8)) };",
    );
}

#[test]
fn test_parse_fn_call_err() {
    test_parse_err("print(", "Expected ')'", true);
    test_parse_err("print(}", "Unexpected token - not an expression", true);
    test_parse_err("print(,)", "Unexpected token - not an expression", true);
}

// If and else


#[test]
fn test_parse_if_basic() {
    let t = r"
    if (true) {
        30;
        40;
    }
    ";
    test_parse(t, "if true { 30;40; };");

    // with semi is same
    let t = r"
    if (true) {
        30;
        40;
    };
    ";
    test_parse(t, "if true { 30;40; };");

    // if-else expr last
    let t = r"
    if (true) {
        30;
    } else {
        40;
        50
    }
    ";
    test_parse(t, "if true { 30; } else { 40;50 }");

    // above with semi becomes decl
    let t = r"
    if (true) {
        30;
    } else {
        40;
        50
    };
    ";
    test_parse(t, "if true { 30; } else { 40;50 };");

    // without brackets for cond
    let t = r"
    if true {
        30;
        40;
    }
    ";
    test_parse(t, "if true { 30;40; };");

    let t = r"
    if (!true) {
        30;
        40;
    }
    ";
    test_parse(t, "if (!true) { 30;40; };");
}

#[test]
fn test_parse_if_consec() {
    // if-only becomes stmt (2stmts, no last expr)
    let t = r"
    if true {
        30;
    }

    if !true {
        40;
    }
    ";

    test_parse(t, "if true { 30; };if (!true) { 40; };");

    // with semicolon - same as above
    let t = r"
    if true {
        30;
    }

    if !true {
        40;
    };
    ";

    test_parse(t, "if true { 30; };if (!true) { 40; };");

    // if, if-else
    let t = r"
    if true {
        30;
    }

    if some_cond {
        40; 60
    } else {
        50; 70;
    }
    ";

    test_parse(t, "if true { 30; };if some_cond { 40;60 } else { 50;70; }");

    // // if, if-else (stmt)
    let t = r"
    if true {
        30;
    }

    if some_cond {
        40; 60
    } else {
        50; 70;
    };
    ";

    test_parse(t, "if true { 30; };if some_cond { 40;60 } else { 50;70; };");

    // if-else, if
    let t = r"
    if true {
        30;
    } else {
        x
    }

    if some_cond {
        40; 60
    }
    ";

    test_parse(t, "if true { 30; } else { x };if some_cond { 40;60 };");

    // if-else, if-else
    let t = r"
    if true {
        30;
    } else {
        x
    }

    if some_cond {
        40; 60
    } else {
        y;
    }
    ";

    test_parse(
        t,
        "if true { 30; } else { x };if some_cond { 40;60 } else { y; }",
    );

    let t = r"
    if true {
        x;
    }

    if y {
        200;
    } else {
        300;
    }

    if false {
        400;
    }
    ";

    test_parse(
        t,
        "if true { x; };if y { 200; } else { 300; };if false { 400; };",
    );
}

#[test]
fn test_parse_if_expr() {
    // can parse but fails type check - if blk produces Unit, else blk produces 3
    let t = r"
    let x = if true { 2; } else { 3 };
    ";
    test_parse(t, "let x = if true { 2; } else { 3 };");

    // if-only can't be expr
    let t = r"
    let x = if true { 2; };
    ";
    test_parse_err(t, "if without else branch is not an expression", true);

    // nested in blk
    let t = r"
    let x = {
        if false {
            20;
        }

        if true {
            2
        } else {
            3
        }
    };
    ";
    test_parse(t, "let x = { if false { 20; };if true { 2 } else { 3 } };");
}

// Let statements

#[test]
fn test_parse_let() {
    test_parse("let x = 2;", "let x = 2;");
    test_parse("let x = 2; let y = 3;", "let x = 2;let y = 3;"); // both treated as decls
    test_parse("let x = 2; let y = 3; 30;", "let x = 2;let y = 3;30;"); // 30 is decl
    test_parse("let x = 2; let y = 3; 30", "let x = 2;let y = 3;30"); // 30 is expr

    test_parse(
        "let x = 2; let y = 3; 30; 40; 50",
        "let x = 2;let y = 3;30;40;50",
    );
    test_parse(
        "let x = 2; let y = 3; 30; 40; 50; let z = 60;",
        "let x = 2;let y = 3;30;40;50;let z = 60;",
    );

    test_parse(
        "let x = 2; let y = 3; 30; 40; 50; let z = 60; true",
        "let x = 2;let y = 3;30;40;50;let z = 60;true",
    );

    // // other types
    test_parse(
        "let x = true; let y = 200; let z = 2.2; 3.14159",
        "let x = true;let y = 200;let z = 2.2;3.14159",
    );

    // Identifiers
    test_parse("let x = 20; let y = x; y", "let x = 20;let y = x;y");
    test_parse(
        "let x = 20; let y = x; let z = x + y * 2;",
        "let x = 20;let y = x;let z = (x+(y*2));",
    );
}

#[test]
fn test_parse_let_err() {
    test_parse_err("let", "Expected identifier", true);
    test_parse_err("let 2 = 3", "Expected identifier", true);
    test_parse_err("let x 2", "Expected '='", true);
    test_parse_err("let x = 2", "Expected semicolon", true);
    test_parse_err("let x = let y = 3;", "not an expression", true);
    test_parse_err(";", "Unexpected token", true);
    test_parse_err("=", "Unexpected token", true);
}

#[test]
fn test_parse_let_type() {
    test_parse("let x : int = 2;", "let x : int = 2;");
    test_parse("let x : bool = true;", "let x : bool = true;");
    test_parse("let x : float = 3.25;", "let x : float = 3.25;");

    // Doesn't check types yet - just a parser
    test_parse("let x : int = true;", "let x : int = true;");
    test_parse("let x : bool = 2.3;", "let x : bool = 2.3;");
    test_parse("let x : float = 5;", "let x : float = 5;");

    // basic err cases
    test_parse_err("let x : u32 = true;", "Unknown primitive type", true);
    test_parse_err("let x : = true;", "Expected identifier", true);
}

#[test]
fn test_parse_let_type_many() {
    test_parse(
        "let x : int = 2; let y : bool = true; let z : float = 2.33;",
        "let x : int = 2;let y : bool = true;let z : float = 2.33;",
    );
    test_parse(
        "let x : int = 2; let y : bool = true; let z : float = 2.33; x",
        "let x : int = 2;let y : bool = true;let z : float = 2.33;x",
    );
    // Not affected by parens, ops etc
    test_parse(
        "let x : int = (2 * 3 + 4 - (5 + 6)); let y : bool = !!(true);",
        "let x : int = (((2*3)+4)-(5+6));let y : bool = (!(!true));",
    );
}

// Programs




#[test]
fn test_parse_ints() {
    test_parse("", "");
    test_parse(" 20\n ", "20"); // expr only
    test_parse(" 20;\n ", "20;"); // one exprstmt
    test_parse(" 20 ;30 \n ", "20;30"); // exprstmt, expr
    test_parse(" 20 ;30; \n ", "20;30;"); // exprstmt, exprsmt
    test_parse(" 20 ;30; \n40 \n ", "20;30;40"); // two exprstmt + expr
}

#[test]
fn test_parse_floats() {
    test_parse(" 2.2\n ", "2.2");
    test_parse(" 2.23\n ", "2.23");
    test_parse(" 2.23; 4.5\n ", "2.23;4.5");
    test_parse(" 2.23; 4.5; 4.6\n ", "2.23;4.5;4.6");
}

#[test]
fn test_parse_bools() {
    test_parse("true\n ", "true");
    test_parse("true; false\n ", "true;false");
    test_parse("true; false; true;\n ", "true;false;true;");
    test_parse("true; false; true; false\n ", "true;false;true;false");
}

#[test]
fn test_parse_mixed_primitives() {
    test_parse(
        "true; 2; 4.5; false; 200; 7.289; 90; true",
        "true;2;4.5;false;200;7.289;90;true",
    );
    test_parse(
        "true; 2; 4.5; false; 200; 7.289; 90; true; 2.1;",
        "true;2;4.5;false;200;7.289;90;true;2.1;",
    )
}

#[test]
fn test_errs_for_consecutive_exprs() {
    test_parse_err("20 30", "infix operator", true);
}

#[test]
fn test_parse_assignment() {
    test_parse_err("x = y = 2", "not an expression", true);
    test_parse_err("let x = y = 2;", "not an expression", true);

    test_parse("x = 3+2;", "x = (3+2);");
    // not type checked yet - allows for us to do dynamic typing if we want
    test_parse(
        "let x : int = 20; x = true; x",
        "let x : int = 20;x = true;x",
    );
}

#[test]
fn test_parse_concurrency() {
    let t = r"
    let t = spawn func();
    spawn f2();
    spawn f3()
    ";
    test_parse(t, "let t = spawn func();spawn f2();spawn f3()");

    let t = r"
    spawn 2+2;
    ";
    test_parse_err(t, "spawn expected function call", true);

    // join
    let t = r"
    let t = spawn func();
    let res = join t;
    ";
    test_parse(t, "let t = spawn func();let res = join t;");

    // wait and post
    let t = r"
    let sem = sem_create();
    wait sem;
    post sem;
    ";
    test_parse(t, "let sem = sem_create();wait sem;post sem;");

    let t = r"
    wait 2+2;
    ";
    test_parse_err(t, "expected semaphore variable", true);

    let t = r"
    post 2+2;
    ";
    test_parse_err(t, "expected semaphore variable", true);

    // can't assign wait/post
    let t = r"
    let x = wait sem;
    ";
    test_parse_err(t, "wait is not an expression", true);

    // can't assign wait/post
    let t = r"
    let x = post sem;
    ";
    test_parse_err(t, "post is not an expression", true);

    // must be stmt with semi
    let t = r"
     wait sem
     ";
    test_parse_err(t, "Expected semicolon", true);

    let t = r"
     post sem
     ";
    test_parse_err(t, "Expected semicolon", true);
}

#[test]
fn test_parse_string() {
    let t = r#""hello" + "world""#;
    test_parse(t, "(hello+world)");

    let t = r#"let t = "hello world"; println(t);"#;
    test_parse(t, "let t = hello world;println(t);");
}

#[test]
fn test_parse_type_annotations_more() {
    let t = r"
    let g : fn(int) -> int = f;
    ";
}

// Loops


#[test]
fn test_parse_loop_nocond() {
    // always stmt
    let t = r"
    loop { 
        2; 
    }
    ";
    test_parse(t, "loop  { 2; };");

    let t = r"
    loop { 
        2;
        if x == 3 {
            5;
        }
        100
    }
    3;
    ";
    test_parse(t, "loop  { 2;if (x==3) { 5; };100 };3;");

    // can't assign as expr
    let t = "
    let x = loop {

    };
    ";
    test_parse_err(t, "loop is not an expression", true);
}

#[test]
fn test_parse_loop_with_cond() {
    // cond not a blk
    let t = r"
    loop x < 5 { 
        3; 
        4
    }
    ";
    test_parse(t, "loop (x<5) { 3;4 };");

    // if a loop has blk after it, treated as loop body. blk as condition is not allowed
    let t = r"
    loop { 
        2; false
    } 
    
    { 
        3; 
        4
    }
    3;
    ";
    test_parse(t, "loop  { 2;false };{ 3;4 };3;");

    // can parse any expression as cond
    let t = r"
    loop if x && y { false } else { true } {
        2;
        3
    }
    ";
    test_parse(t, "loop if (x&&y) { false } else { true } { 2;3 };");
}

#[test]
fn test_parse_loop_cond_err() {
    // can't use just the loop as cond
    let t = r"
     loop loop {} {
 
     }
     ";
    test_parse_err(t, "not an expression: 'loop'", true);

    let t = "loop x < 5";
    test_parse_err(t, " Expected { for loop block", true);
}

#[test]
fn test_parse_loop_multiple() {
    let t = r"
    loop {
        200;
    }

    let x = 0;
    loop x < 5 {
        x = x + 1;
    }
    ";
    test_parse(t, "loop  { 200; };let x = 0;loop (x<5) { x = (x+1); };");
}

#[test]
fn test_parse_loop_nested() {
    let t = r"
    loop {
        loop {

        }
    }
    ";
    test_parse(t, "loop  { loop  {  }; };");

    let t = r"
    let i = 0;
    loop i < 5 {
        let j = 0;
        loop {
            j = j+ 1;
        }

        i = i + 1;
    }
    ";
    test_parse(
        t,
        "let i = 0;loop (i<5) { let j = 0;loop  { j = (j+1); };i = (i+1); };",
    );
}

#[test]
fn test_parse_loop_break_errs() {
    let t = r"
    loop {
        break
    }
    ";
    test_parse_err(t, "Expected semicolon", true);

    // break not allowed outside  loop
    let t = r"
    break;
    ";
    test_parse_err(t, "break outside of loop", true);

    let t = r"
    {
        break;
    }
    ";
    test_parse_err(t, "break outside of loop", true);

    let t = r"
    if true {
        break;
    }
    ";
    test_parse_err(t, "break outside of loop", true);

    let t = r"
    if true {
        2;
    } else {
        break;
    }
    ";
    test_parse_err(t, "break outside of loop", true);

    let t = r"
    loop {
        let x = 0;
        loop {
            break;
        }
        break;
    }
    {
        loop {
            break;
        }
        break;
    };
    ";
    test_parse_err(t, "break outside of loop", true);
}

#[test]
fn test_parse_break_inloop() {
    let t = r"
    loop {
        break;
    }
    ";
    test_parse(t, "loop  { break; };");

    let t = r"
    loop x < 5 {
        if x == 3 {
            break;
        } else {
            30;
        }
    }
    ";
    test_parse(t, "loop (x<5) { if (x==3) { break; } else { 30; } };");

    let t = r"
    loop {
        break;
    }
    break;
    ";
    test_parse_err(t, "break outside of loop", true);

    // nested
    let t = r"
    loop {
        let x = 0;
        loop {
            break;
        }
        break;
    }
    ";
    test_parse(t, "loop  { let x = 0;loop  { break; };break; };");
}

// Type annotations


#[test]
fn test_parse_type_annotations() {
    test_parse("let x : int = 2;", "let x : int = 2;");
    test_parse("let x : bool = true;", "let x : bool = true;");
    test_parse("let x : float = true;", "let x : float = true;");
    test_parse("let x : () = true;", "let x : () = true;");
}

#[test]
fn test_parse_type_annotations_errs() {
    // test_parse("let x : int = 2;", "");
    test_parse_err(
        "let x : let ",
        "Expected identifier or '(' for type annotation, got 'let'",
        true,
    );
    test_parse_err(
        "let x : 2 ",
        "Expected identifier or '(' for type annotation, got '2'",
        true,
    );
    test_parse_err(
        "let x : ",
        "Expected identifier or '(' for type annotation, got end of input",
        true,
    );
    test_parse_err(
        "let x : (2 ",
        "Expected '()' for unit type annotation",
        true,
    );
}
