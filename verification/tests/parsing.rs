use rlox::ast::{Expr, Stmt};
use rlox::ast_printer::print;
use rlox::parser::{parse, parse_from};
use rlox::scanner::Tokens;
use rlox::tokens::Literal;

fn program(source: &str) -> Vec<Stmt> {
    parse(Tokens::from_str(source).unwrap().into()).unwrap()
}

fn syntax_error(source: &str) -> String {
    match parse(Tokens::from_str(source).unwrap().into()) {
        Ok(_) => panic!("no error in: {}", source),
        Err(mut errors) => {
            assert_eq!(errors.len(), 1);
            errors.remove(0)
        }
    }
}

fn shown(source: &str) -> String {
    let statements = program(source);
    assert_eq!(statements.len(), 1);
    match &statements[0] {
        Stmt::Expression { expression, .. } => print(expression),
        other => panic!("not an expression statement: {:?}", other),
    }
}

fn expr_id(e: &Expr) -> usize {
    match e {
        Expr::Assign { id, .. }
        | Expr::Binary { id, .. }
        | Expr::Call { id, .. }
        | Expr::Get { id, .. }
        | Expr::Grouping { id, .. }
        | Expr::Literal { id, .. }
        | Expr::Logical { id, .. }
        | Expr::SetField { id, .. }
        | Expr::Super { id, .. }
        | Expr::This { id, .. }
        | Expr::Unary { id, .. } => *id,
        Expr::Variable(v) => v.id,
    }
}

#[test]
fn factor_binds_tighter_than_term() {
    assert_eq!(shown("1 + 2 * 3;"), "(+ 1 (* 2 3))");
    assert_eq!(shown("1 * 2 + 3;"), "(+ (* 1 2) 3)");
}

#[test]
fn operators_of_one_level_group_to_the_left() {
    assert_eq!(shown("1 - 2 - 3;"), "(- (- 1 2) 3)");
    assert_eq!(shown("8 / 4 / 2;"), "(/ (/ 8 4) 2)");
    assert_eq!(shown("a or b or c;"), "(or (or a b) c)");
}

#[test]
fn precedence_from_loosest_to_tightest() {
    assert_eq!(
        shown("a = b or c and d == e < f + g * -h.i;"),
        "(let a (or b (and c (== d (< e (+ f (* g (- h.i))))))))"
    );
}

#[test]
fn comparison_and_equality() {
    assert_eq!(shown("1 < 2 == 3 >= 4;"), "(== (< 1 2) (>= 3 4))");
    assert_eq!(shown("1 != 2;"), "(!= 1 2)");
    assert_eq!(shown("1 <= 2 > 3;"), "(> (<= 1 2) 3)");
}

#[test]
fn assignment_groups_to_the_right() {
    assert_eq!(shown("a = b = 1;"), "(let a (let b 1))");
}

#[test]
fn unary_operators_nest() {
    assert_eq!(shown("!!a;"), "(! (! a))");
    assert_eq!(shown("- -1;"), "(- (- 1))");
}

#[test]
fn grouping_is_kept() {
    assert_eq!(shown("(1 + 2) * 3;"), "(* (group (+ 1 2)) 3)");
}

#[test]
fn calls_and_properties_chain() {
    assert_eq!(shown("a.b.c(x)(y);"), "((a.b.c x) y)");
    assert_eq!(shown("f();"), "(f)");
    assert_eq!(shown("f(1, 2 + 3);"), "(f 1 (+ 2 3))");
    assert_eq!(shown("a.b = c.d;"), "a.b = c.d");
}

#[test]
fn literals_this_and_super() {
    assert_eq!(shown("nil;"), "nil");
    assert_eq!(shown("true;"), "true");
    assert_eq!(shown("false;"), "false");
    assert_eq!(shown("\"s\";"), "s");
    assert_eq!(shown("1.50;"), "1.50");
    assert_eq!(shown("this;"), "this");
    assert_eq!(shown("super.m;"), "super.m");
}

#[test]
fn every_node_has_its_own_id() {
    let statements = program("a + a;");
    match &statements[0] {
        Stmt::Expression { id, expression } => match expression {
            Expr::Binary { id: binary, left, right, .. } => {
                assert_eq!(expr_id(left), 0);
                assert_eq!(expr_id(right), 1);
                assert_eq!(*binary, 2);
                assert_eq!(*id, 3);
            }
            other => panic!("not a binary expression: {:?}", other),
        },
        other => panic!("not an expression statement: {:?}", other),
    }
}

#[test]
fn ids_go_on_where_the_last_program_ended() {
    let first = parse_from(Tokens::from_str("a;").unwrap().into(), 10);
    assert_eq!(first.next_id, 12);
    let second = parse_from(Tokens::from_str("b;").unwrap().into(), first.next_id);
    match &second.program.unwrap()[0] {
        Stmt::Expression { id, expression } => {
            assert_eq!(expr_id(expression), 12);
            assert_eq!(*id, 13);
        }
        other => panic!("not an expression statement: {:?}", other),
    }
    assert_eq!(second.next_id, 14);
}

#[test]
fn var_without_initializer_starts_as_nil() {
    let statements = program("var a;");
    match &statements[0] {
        Stmt::Var { id, name, initializer } => {
            assert_eq!(name.lexeme, "a");
            assert!(matches!(initializer, Expr::Literal { id: 0, value: Literal::Nil }));
            assert_eq!(*id, 1);
        }
        other => panic!("not a declaration: {:?}", other),
    }
}

#[test]
fn block_gets_its_id_before_its_statements() {
    let statements = program("{ a; }");
    match &statements[0] {
        Stmt::Block { id, statements } => {
            assert_eq!(*id, 0);
            assert_eq!(statements.len(), 1);
            assert!(matches!(&statements[0], Stmt::Expression { id: 2, .. }));
        }
        other => panic!("not a block: {:?}", other),
    }
}

#[test]
fn if_without_else_gets_an_empty_block() {
    let statements = program("if (a) b;");
    match &statements[0] {
        Stmt::If { else_branch, .. } => match &**else_branch {
            Stmt::Block { statements, .. } => assert!(statements.is_empty()),
            other => panic!("not a block: {:?}", other),
        },
        other => panic!("not an if: {:?}", other),
    }
}

#[test]
fn else_belongs_to_the_nearest_if() {
    let statements = program("if (a) if (b) c; else d;");
    match &statements[0] {
        Stmt::If { then_branch, else_branch, .. } => {
            assert!(matches!(&**then_branch, Stmt::If { .. }));
            match &**else_branch {
                Stmt::Block { statements, .. } => assert!(statements.is_empty()),
                other => panic!("not a block: {:?}", other),
            }
        }
        other => panic!("not an if: {:?}", other),
    }
}

#[test]
fn for_is_read_as_a_while_loop_in_a_block() {
    let statements = program("for (var i = 0; i < 3; i = i + 1) print i;");
    assert_eq!(statements.len(), 1);
    match &statements[0] {
        Stmt::Block { statements, .. } => {
            assert_eq!(statements.len(), 2);
            assert!(matches!(&statements[0], Stmt::Var { .. }));
            match &statements[1] {
                Stmt::While { condition, body, .. } => {
                    assert_eq!(print(condition), "(< i 3)");
                    match &**body {
                        Stmt::Block { statements, .. } => {
                            assert_eq!(statements.len(), 2);
                            assert!(matches!(&statements[0], Stmt::Print { .. }));
                            match &statements[1] {
                                Stmt::Expression { expression, .. } => {
                                    assert_eq!(print(expression), "(let i (+ i 1))")
                                }
                                other => panic!("not an expression: {:?}", other),
                            }
                        }
                        other => panic!("not a block: {:?}", other),
                    }
                }
                other => panic!("not a while: {:?}", other),
            }
        }
        other => panic!("not a block: {:?}", other),
    }
}

#[test]
fn for_without_clauses() {
    let statements = program("for (;;) a;");
    match &statements[0] {
        Stmt::Block { id, statements } => {
            assert!(matches!(&statements[0], Stmt::Block { id: 0, .. }));
            match &statements[1] {
                Stmt::While { id: turn, condition, .. } => {
                    assert!(matches!(condition, Expr::Literal { id: 1, value: Literal::Nil }));
                    assert_eq!(*id, 5);
                    assert_eq!(*turn, 6);
                }
                other => panic!("not a while: {:?}", other),
            }
        }
        other => panic!("not a block: {:?}", other),
    }
}

#[test]
fn function_declaration() {
    let statements = program("fun add(a, b) { return a + b; }");
    match &statements[0] {
        Stmt::Function(f) => {
            assert_eq!(f.name.lexeme, "add");
            let params: Vec<&str> = f.params.iter().map(|p| p.lexeme.as_str()).collect();
            assert_eq!(params, vec!["a", "b"]);
            assert_eq!(f.body.len(), 1);
            assert!(matches!(&f.body[0], Stmt::Return { .. }));
        }
        other => panic!("not a function: {:?}", other),
    }
}

#[test]
fn return_without_value_returns_nil() {
    let statements = program("fun f() { return; }");
    match &statements[0] {
        Stmt::Function(f) => match &f.body[0] {
            Stmt::Return { value, .. } => {
                assert!(matches!(value, Expr::Literal { value: Literal::Nil, .. }))
            }
            other => panic!("not a return: {:?}", other),
        },
        other => panic!("not a function: {:?}", other),
    }
}

#[test]
fn class_declaration() {
    let statements = program("class B < A { init(x) { } get() { } }");
    match &statements[0] {
        Stmt::Class { name, superclass, methods, .. } => {
            assert_eq!(name.lexeme, "B");
            assert_eq!(superclass.as_ref().unwrap().name.lexeme, "A");
            let names: Vec<&str> = methods.iter().map(|m| m.name.lexeme.as_str()).collect();
            assert_eq!(names, vec!["init", "get"]);
        }
        other => panic!("not a class: {:?}", other),
    }
    match &program("class A { }")[0] {
        Stmt::Class { superclass, methods, .. } => {
            assert!(superclass.is_none());
            assert!(methods.is_empty());
        }
        other => panic!("not a class: {:?}", other),
    }
}

#[test]
fn empty_program() {
    assert!(program("").is_empty());
}

#[test]
fn missing_tokens_are_errors() {
    assert_eq!(
        syntax_error("print 1"),
        "Could not consume: <nothing>. \"Expect ';' after value.\""
    );
    assert_eq!(
        syntax_error("a"),
        "Could not consume: <nothing>. \"Expect ';' after expression.\""
    );
    assert_eq!(
        syntax_error("(1;"),
        "Could not consume: ';' on line 1. \"Expect ')' after expression\""
    );
    assert_eq!(
        syntax_error("var 1;"),
        "Could not consume: '1' on line 1. \"Expect variable name.\""
    );
    assert_eq!(
        syntax_error("var a = 1"),
        "Could not consume: <nothing>. \"Expect ';' after variable declaration\""
    );
    assert_eq!(
        syntax_error("{ a;"),
        "Could not consume: <nothing>. \"Expect '}' after block.\""
    );
    assert_eq!(
        syntax_error("if a"),
        "Could not consume: 'a' on line 1. \"Expect '(' after 'if'.\""
    );
    assert_eq!(
        syntax_error("if (a b;"),
        "Could not consume: 'b' on line 1. \"Expect ')' after if condition.\""
    );
    assert_eq!(
        syntax_error("while a"),
        "Could not consume: 'a' on line 1. \"Expect '(' after 'while'.\""
    );
    assert_eq!(
        syntax_error("while (a b;"),
        "Could not consume: 'b' on line 1. \"Expect ')' after while condition.\""
    );
    assert_eq!(
        syntax_error("for a"),
        "Could not consume: 'a' on line 1. \"Expect '(' after 'for'.\""
    );
    assert_eq!(
        syntax_error("for (;a b"),
        "Could not consume: 'b' on line 1. \"Expect ';' after 'for' condition.\""
    );
    assert_eq!(
        syntax_error("for (;;a b"),
        "Could not consume: 'b' on line 1. \"Expect ')' after 'for' clauses.\""
    );
    assert_eq!(
        syntax_error("fun f() { return 1 }"),
        "Could not consume: '}' on line 1. \"Expect ';' return statement value.\""
    );
    assert_eq!(syntax_error("f(1;"), "Unrecognized primary token: ';' on line 1");
    assert_eq!(
        syntax_error("a.1;"),
        "Could not consume: '1' on line 1. \"Expect property name after '.'\""
    );
    assert_eq!(
        syntax_error("super;"),
        "Could not consume: ';' on line 1. \"Expect '.' after 'super'.\""
    );
    assert_eq!(
        syntax_error("super.1;"),
        "Could not consume: '1' on line 1. \"Expect superclass method name.\""
    );
}

#[test]
fn errors_in_declarations() {
    assert_eq!(
        syntax_error("fun 1() { }"),
        "Could not consume: '1' on line 1. \"Expect function name.\""
    );
    assert_eq!(
        syntax_error("fun f { }"),
        "Could not consume: '{' on line 1. \"Expect '(' after function name.\""
    );
    assert_eq!(
        syntax_error("fun f() 1"),
        "Could not consume: '1' on line 1. \"Expect '{' before function body\""
    );
    assert_eq!(syntax_error("fun f(1) { }"), "Expect parameter name, comma, or right paren.");
    assert_eq!(
        syntax_error("class 1 { }"),
        "Could not consume: '1' on line 1. \"Expect class name\""
    );
    assert_eq!(
        syntax_error("class A < 1 { }"),
        "Could not consume: '1' on line 1. \"Expect superclass name.\""
    );
    assert_eq!(
        syntax_error("class A 1"),
        "Could not consume: '1' on line 1. \"Expect '{' before class body\""
    );
    assert_eq!(
        syntax_error("class A { 1 }"),
        "Could not consume: '1' on line 1. \"Expect method name.\""
    );
    assert_eq!(
        syntax_error("class A { f() { }"),
        "Could not consume: <nothing>. \"Expect '}' after class body.\""
    );
    assert_eq!(
        syntax_error("class A { f { } }"),
        "Could not consume: '{' on line 1. \"Expect '(' after method name.\""
    );
    assert_eq!(
        syntax_error("class A { f() 1 }"),
        "Could not consume: '1' on line 1. \"Expect '{' before method body\""
    );
}

#[test]
fn errors_in_expressions() {
    assert_eq!(syntax_error("1 = 2;"), "Invalid assignment target.");
    assert_eq!(syntax_error("a + b = 2;"), "Invalid assignment target.");
    assert_eq!(syntax_error("+;"), "Unrecognized primary token: '+' on line 1");
    assert_eq!(syntax_error("1 +"), "Tried to pop_front with only EOF left");
    assert_eq!(
        syntax_error("\n\nprint )"),
        "Unrecognized primary token: ')' on line 3"
    );
}

#[test]
fn too_many_arguments_and_parameters() {
    let mut call = String::from("f(");
    for _ in 0..256 {
        call.push_str("1, ");
    }
    call.push_str(");");
    assert_eq!(syntax_error(&call), "Can't have more than 255 arguments");

    let mut few = String::from("f(");
    for _ in 0..255 {
        few.push_str("1, ");
    }
    few.push_str(");");
    assert_eq!(program(&few).len(), 1);

    let mut function = String::from("fun f(");
    for i in 0..256 {
        function.push_str(&format!("p{}, ", i));
    }
    function.push_str(") { }");
    assert_eq!(syntax_error(&function), "Can't have more than 255 parameters.");
}

#[test]
fn parsing_an_empty_token_list() {
    assert!(parse(Vec::new()).unwrap().is_empty());
}

#[test]
fn after_an_error_the_ids_given_out_are_counted() {
    let read = parse_from(Tokens::from_str("a; b").unwrap().into(), 10);
    assert!(read.program.is_err());
    assert_eq!(read.next_id, 13);
    let refused = parse_from(Tokens::from_str(")").unwrap().into(), 10);
    assert!(refused.program.is_err());
    assert_eq!(refused.next_id, 11);
    let ended = parse_from(Tokens::from_str("print").unwrap().into(), 10);
    assert!(ended.program.is_err());
    assert_eq!(ended.next_id, 10);
}
