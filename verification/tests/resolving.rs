use rlox::parser::parse;
use rlox::resolver::{
    is_literal_nil, prepend_resolver_error, resolve_locals, ClassType, FunctionType, Locals,
    ResolveError, Resolver, Scopes,
};
use rlox::table::Table;
use rlox::scanner::Tokens;
use rlox::ast::{Expr, Stmt};

fn resolved(source: &str) -> Locals {
    let statements = parse(Tokens::from_str(source).unwrap().into()).unwrap();
    resolve_locals(&statements).unwrap()
}

fn rejected(source: &str) -> Vec<String> {
    let statements = parse(Tokens::from_str(source).unwrap().into()).unwrap();
    match resolve_locals(&statements) {
        Ok(_) => panic!("no error in: {}", source),
        Err(errors) => errors,
    }
}

#[test]
fn globals_are_not_recorded() {
    let locals = resolved("var g = 1; print g; g = 2;");
    assert_eq!(locals.distances.len(), 0);
}

#[test]
fn local_in_the_same_scope_has_distance_zero() {
    let locals = resolved("{ var a = 1; print a; }");
    assert_eq!(locals.get(3), Some(0));
    assert_eq!(locals.distances.len(), 1);
}

#[test]
fn local_in_the_enclosing_block_has_distance_one() {
    let locals = resolved("{ var a = 1; { print a; } }");
    assert_eq!(locals.get(4), Some(1));
    assert_eq!(locals.get(1), None);
}

#[test]
fn assignment_is_recorded_under_its_own_node() {
    let locals = resolved("{ var a = 1; { { a = 2; } } }");
    assert_eq!(locals.get(7), Some(2));
    assert_eq!(locals.get(5), None);
    assert_eq!(locals.distances.len(), 1);
}

#[test]
fn parameters_live_in_the_scope_of_the_function() {
    let locals = resolved("fun f(a) { print a; }");
    assert_eq!(locals.get(0), Some(0));
}

#[test]
fn closures_reach_the_scope_of_the_enclosing_function() {
    let locals = resolved("fun outer() { var x = 1; fun inner() { print x; } }");
    assert_eq!(locals.get(2), Some(1));
}

#[test]
fn this_lives_one_scope_outside_the_method() {
    let locals = resolved("class A { m() { print this; } }");
    assert_eq!(locals.get(0), Some(1));
}

#[test]
fn super_lives_two_scopes_outside_the_method() {
    let locals = resolved("class A { } class B < A { m() { super.m(); } }");
    assert_eq!(locals.get(2), Some(2));
    assert_eq!(locals.get(1), None);
}

#[test]
fn two_uses_of_one_name_are_two_nodes() {
    let locals = resolved("{ var a = 1; { print a; var a = 2; print a; } }");
    assert_eq!(locals.get(4), Some(1));
    assert_eq!(locals.get(8), Some(0));
}

#[test]
fn function_body_is_resolved_without_a_call() {
    assert_eq!(
        rejected("fun f() { var a = 1; var a = 2; }"),
        vec!["Resolver Error: Already a variable with this name in this scope."]
    );
}

#[test]
fn parameter_cannot_be_declared_again() {
    assert_eq!(
        rejected("fun f(a) { var a = 2; }"),
        vec!["Resolver Error: Already a variable with this name in this scope."]
    );
    assert_eq!(
        rejected("fun f(a, a) { }"),
        vec!["Resolver Error: Already a variable with this name in this scope."]
    );
}

#[test]
fn every_error_has_its_text() {
    assert_eq!(
        ResolveError::AlreadyDeclared.message(),
        "Already a variable with this name in this scope."
    );
    assert_eq!(
        ResolveError::ReadInOwnInitializer.message(),
        "Can't read local variable in its own initializer."
    );
    assert_eq!(
        ResolveError::ReturnAtTopLevel.message(),
        "Cannot return from top-level code."
    );
    assert_eq!(
        ResolveError::ReturnFromInitializer.message(),
        "Cannot return a value from an initializer."
    );
    assert_eq!(
        ResolveError::SuperOutsideClass.message(),
        "Can't use 'super' outside of a class."
    );
    assert_eq!(
        ResolveError::SuperWithoutSuperclass.message(),
        "Can't use 'super' in a class with no superclass."
    );
    assert_eq!(
        ResolveError::ThisOutsideClass.message(),
        "Can't use 'this' outside of a class."
    );
    assert_eq!(
        ResolveError::InheritsFromItself.message(),
        "A class can't inherit from itself."
    );
    assert_eq!(
        prepend_resolver_error(ResolveError::ThisOutsideClass),
        vec!["Resolver Error: Can't use 'this' outside of a class."]
    );
}

#[test]
fn return_in_a_method_and_return_nil_in_an_initializer_are_accepted() {
    resolved("class A { m() { return 1; } init() { return; } }");
    resolved("class A { init() { return nil; } }");
    resolved("fun f() { return 1; }");
}

#[test]
fn this_in_a_function_inside_a_method_is_accepted() {
    let locals = resolved("class A { m() { fun g() { print this; } } }");
    assert_eq!(locals.get(0), Some(2));
}

#[test]
fn this_in_a_function_outside_a_class_is_rejected() {
    assert_eq!(
        rejected("fun f() { print this; }"),
        vec!["Resolver Error: Can't use 'this' outside of a class."]
    );
}

#[test]
fn global_read_in_its_own_initializer_is_accepted() {
    resolved("var a = a;");
}

#[test]
fn scopes_open_and_close() {
    let mut scopes = Scopes::new();
    assert!(!scopes.top_contains("a"));
    assert_eq!(scopes.get("a"), None);
    assert_eq!(scopes.depth("a"), None);
    scopes.declare("a".to_string());
    assert!(!scopes.top_contains("a"));
    scopes.begin_scope();
    scopes.declare("a".to_string());
    assert!(scopes.top_contains("a"));
    assert_eq!(scopes.get("a"), Some(false));
    scopes.define("a".to_string());
    assert_eq!(scopes.get("a"), Some(true));
    scopes.begin_scope();
    assert!(!scopes.top_contains("a"));
    assert_eq!(scopes.get("a"), None);
    assert_eq!(scopes.depth("a"), Some(1));
    scopes.force_define("this".to_string());
    assert_eq!(scopes.depth("this"), Some(0));
    scopes.end_scope();
    assert_eq!(scopes.depth("this"), None);
    assert_eq!(scopes.depth("a"), Some(0));
    scopes.end_scope();
    scopes.end_scope();
    assert_eq!(scopes.stack.len(), 0);
}

#[test]
fn locals_record_distances() {
    let mut locals = Locals::new();
    assert_eq!(locals.get(7), None);
    locals.resolve(7, 2);
    locals.resolve(8, 0);
    locals.resolve(7, 3);
    assert_eq!(locals.get(7), Some(3));
    assert_eq!(locals.get(8), Some(0));
    let copy = locals.copy();
    assert_eq!(copy.get(7), Some(3));
}

#[test]
fn resolver_step_by_step() {
    let mut resolver = Resolver::new();
    assert_eq!(resolver.current_function, FunctionType::Outside);
    assert_eq!(resolver.current_class, ClassType::Outside);
    assert_eq!(resolver.declare("a"), Ok(()));
    assert_eq!(resolver.declare("a"), Ok(()));
    resolver.begin_scope();
    assert_eq!(resolver.declare("a"), Ok(()));
    assert_eq!(resolver.declare("a"), Err(ResolveError::AlreadyDeclared));
    resolver.define("a");
    resolver.begin_scope();
    resolver.force_define("this");
    resolver.resolve_local(1, "a");
    resolver.resolve_local(2, "this");
    resolver.resolve_local(3, "global");
    resolver.end_scope();
    resolver.end_scope();
    assert_eq!(resolver.locals.get(1), Some(1));
    assert_eq!(resolver.locals.get(2), Some(0));
    assert_eq!(resolver.locals.get(3), None);
}

#[test]
fn resolver_adds_to_earlier_results() {
    let mut earlier = Locals::new();
    earlier.resolve(100, 4);
    let mut resolver = Resolver::resuming(earlier);
    let statements = parse(Tokens::from_str("{ var a; a; }").unwrap().into()).unwrap();
    assert_eq!(resolver.resolve(&statements), Ok(()));
    assert_eq!(resolver.locals.get(100), Some(4));
    assert_eq!(resolver.locals.get(3), Some(0));
}

#[test]
fn literal_nil_is_recognised() {
    let statements = parse(Tokens::from_str("nil; 1; a;").unwrap().into()).unwrap();
    let answers: Vec<bool> = statements
        .iter()
        .map(|s| match s {
            Stmt::Expression { expression, .. } => is_literal_nil(expression),
            _ => false,
        })
        .collect();
    assert_eq!(answers, vec![true, false, false]);
    assert!(matches!(statements[2], Stmt::Expression { expression: Expr::Variable(_), .. }));
}

fn statements(source: &str) -> Vec<Stmt> {
    parse(Tokens::from_str(source).unwrap().into()).unwrap()
}

fn names(scope: &Table<bool>) -> Vec<(String, bool)> {
    scope.entries.iter().map(|(n, d)| (n.clone(), *d)).collect()
}

#[test]
fn self_inheritance_records_nothing() {
    let program = statements("class A < A { m() { return this; } }");
    let mut resolver = Resolver::new();
    assert_eq!(
        resolver.resolve_statement(&program[0]),
        Err(ResolveError::InheritsFromItself)
    );
    assert_eq!(resolver.locals.distances.len(), 0);
    assert_eq!(resolver.scopes.stack.len(), 0);
    assert_eq!(resolver.current_class, ClassType::Class);
    assert_eq!(resolver.current_function, FunctionType::Outside);

    let mut inside = Resolver::new();
    inside.begin_scope();
    inside.resolve_local(50, "missing");
    assert_eq!(
        inside.resolve_statement(&program[0]),
        Err(ResolveError::InheritsFromItself)
    );
    assert_eq!(inside.locals.distances.len(), 0);
    assert_eq!(inside.scopes.stack.len(), 1);
    assert_eq!(names(&inside.scopes.stack[0]), vec![("A".to_string(), true)]);
}

#[test]
fn failed_declaration_changes_nothing() {
    let mut resolver = Resolver::new();
    resolver.begin_scope();
    assert_eq!(resolver.declare("a"), Ok(()));
    resolver.define("a");
    resolver.resolve_local(7, "a");
    assert_eq!(resolver.declare("a"), Err(ResolveError::AlreadyDeclared));
    assert_eq!(resolver.scopes.stack.len(), 1);
    assert_eq!(names(&resolver.scopes.stack[0]), vec![("a".to_string(), true)]);
    assert_eq!(resolver.locals.distances.len(), 1);
    assert_eq!(resolver.locals.get(7), Some(0));
    assert_eq!(resolver.declare("b"), Ok(()));
    assert_eq!(
        names(&resolver.scopes.stack[0]),
        vec![("a".to_string(), true), ("b".to_string(), false)]
    );
}

#[test]
fn reading_in_own_initializer_changes_nothing() {
    let program = statements("a;");
    let expression = match &program[0] {
        Stmt::Expression { expression, .. } => expression,
        other => panic!("not an expression: {:?}", other),
    };
    let mut resolver = Resolver::new();
    resolver.begin_scope();
    resolver.declare("x").unwrap();
    resolver.define("x");
    resolver.begin_scope();
    resolver.declare("a").unwrap();
    assert_eq!(
        resolver.resolve_expression(expression),
        Err(ResolveError::ReadInOwnInitializer)
    );
    assert_eq!(resolver.locals.distances.len(), 0);
    assert_eq!(resolver.scopes.stack.len(), 2);
    assert_eq!(names(&resolver.scopes.stack[0]), vec![("x".to_string(), true)]);
    assert_eq!(names(&resolver.scopes.stack[1]), vec![("a".to_string(), false)]);
    resolver.define("a");
    assert_eq!(resolver.resolve_expression(expression), Ok(()));
    assert_eq!(resolver.locals.get(0), Some(0));
    assert_eq!(resolver.scopes.stack.len(), 2);
}

#[test]
fn refused_return_changes_nothing() {
    let program = statements("{ var a; return a; }");
    let body = match &program[0] {
        Stmt::Block { statements, .. } => statements,
        other => panic!("not a block: {:?}", other),
    };
    let mut resolver = Resolver::new();
    resolver.begin_scope();
    resolver.declare("a").unwrap();
    resolver.define("a");
    assert_eq!(
        resolver.resolve_statement(&body[1]),
        Err(ResolveError::ReturnAtTopLevel)
    );
    assert_eq!(resolver.locals.distances.len(), 0);
    assert_eq!(resolver.scopes.stack.len(), 1);

    resolver.current_function = FunctionType::Initializer;
    assert_eq!(
        resolver.resolve_statement(&body[1]),
        Err(ResolveError::ReturnFromInitializer)
    );
    assert_eq!(resolver.locals.distances.len(), 0);
    assert_eq!(resolver.current_function, FunctionType::Initializer);

    resolver.current_function = FunctionType::Method;
    assert_eq!(resolver.resolve_statement(&body[1]), Ok(()));
    assert_eq!(resolver.locals.distances.len(), 1);
}

#[test]
fn refused_super_and_this_change_nothing() {
    let program = statements("super.m; this;");
    let expressions: Vec<&Expr> = program
        .iter()
        .map(|s| match s {
            Stmt::Expression { expression, .. } => expression,
            other => panic!("not an expression: {:?}", other),
        })
        .collect();
    let mut resolver = Resolver::new();
    resolver.begin_scope();
    resolver.define("super");
    resolver.begin_scope();
    resolver.define("this");
    resolver.begin_scope();
    assert_eq!(
        resolver.resolve_expression(expressions[0]),
        Err(ResolveError::SuperOutsideClass)
    );
    assert_eq!(
        resolver.resolve_expression(expressions[1]),
        Err(ResolveError::ThisOutsideClass)
    );
    resolver.current_class = ClassType::Class;
    assert_eq!(
        resolver.resolve_expression(expressions[0]),
        Err(ResolveError::SuperWithoutSuperclass)
    );
    assert_eq!(resolver.locals.distances.len(), 0);
    assert_eq!(resolver.scopes.stack.len(), 3);
    resolver.current_class = ClassType::Subclass;
    assert_eq!(resolver.resolve_expression(expressions[0]), Ok(()));
    assert_eq!(resolver.resolve_expression(expressions[1]), Ok(()));
    assert_eq!(resolver.locals.get(0), Some(2));
    assert_eq!(resolver.locals.get(2), Some(1));
    assert_eq!(resolver.locals.distances.len(), 2);
}

#[test]
fn error_inside_a_function_leaves_the_resolver_where_it_stopped() {
    let program = statements("fun f(a) { { var b = b; } }");
    let mut resolver = Resolver::new();
    assert_eq!(
        resolver.resolve(&program),
        Err(ResolveError::ReadInOwnInitializer)
    );
    assert_eq!(resolver.locals.distances.len(), 0);
    assert_eq!(resolver.scopes.stack.len(), 2);
    assert_eq!(names(&resolver.scopes.stack[0]), vec![("a".to_string(), true)]);
    assert_eq!(names(&resolver.scopes.stack[1]), vec![("b".to_string(), false)]);
    assert_eq!(resolver.current_function, FunctionType::Function);
}
