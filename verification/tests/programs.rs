use rlox::runner::{init_globals, run};

fn run_program(source: &str) -> (Vec<String>, Result<(), Vec<String>>) {
    let ran = run(init_globals(), source, 10_000);
    (ran.session.output, ran.result)
}

fn lines(source: &str) -> Vec<String> {
    let (output, result) = run_program(source);
    assert_eq!(result, Ok(()), "program failed: {}", source);
    output
}

fn failure(source: &str) -> (Vec<String>, Vec<String>) {
    let (output, result) = run_program(source);
    match result {
        Ok(()) => panic!("program did not fail: {}", source),
        Err(errors) => (output, errors),
    }
}

#[test]
fn assignment_in_nested_block_reaches_outer_variable() {
    assert_eq!(lines("{ var x = 1; { x = 2; } print x; }"), vec!["2"]);
}

#[test]
fn assignment_in_nested_block_reaches_global_variable() {
    assert_eq!(lines("var x = 1; { x = 2; } print x;"), vec!["2"]);
}

#[test]
fn inner_declaration_shadows_and_leaves_outer_untouched() {
    assert_eq!(
        lines("var x = 1; { var x = 2; print x; } print x;"),
        vec!["2", "1"]
    );
}

#[test]
fn closures_capture_by_reference() {
    let source = "
        fun makeCounter() {
            var count = 0;
            fun increment() {
                count = count + 1;
                return count;
            }
            return increment;
        }
        var counter = makeCounter();
        print counter();
        print counter();
        print counter();
        var other = makeCounter();
        print other();
    ";
    assert_eq!(lines(source), vec!["1", "2", "3", "1"]);
}

#[test]
fn closure_sees_the_binding_it_was_resolved_to() {
    let source = "
        var a = \"global\";
        {
            fun showA() { print a; }
            showA();
            var a = \"block\";
            showA();
        }
    ";
    assert_eq!(lines(source), vec!["global", "global"]);
}

#[test]
fn reading_a_local_in_its_own_initializer_is_rejected() {
    let (output, errors) = failure("print 1; var a = \"outer\"; { var a = a; }");
    assert_eq!(
        errors,
        vec!["Resolver Error: Can't read local variable in its own initializer."]
    );
    assert!(output.is_empty());
}

#[test]
fn redeclaration_in_a_block_is_rejected() {
    let (output, errors) = failure("{ var a = 1; var a = 2; }");
    assert_eq!(
        errors,
        vec!["Resolver Error: Already a variable with this name in this scope."]
    );
    assert!(output.is_empty());
}

#[test]
fn redeclaration_of_a_global_is_accepted() {
    assert_eq!(lines("var a = 1; var a = 2; print a;"), vec!["2"]);
}

#[test]
fn super_calls_the_method_of_the_superclass() {
    let source = "
        class A { greet() { return \"A\"; } }
        class B < A { greet() { return super.greet() + \"B\"; } }
        print B().greet();
    ";
    assert_eq!(lines(source), vec!["AB"]);
}

#[test]
fn methods_are_inherited() {
    let source = "
        class A { hello() { return \"hello\"; } }
        class B < A { }
        print B().hello();
    ";
    assert_eq!(lines(source), vec!["hello"]);
}

#[test]
fn initializer_gives_the_instance() {
    let source = "
        class Box { init(v) { this.v = v; } }
        var b = Box(10);
        print b;
        print b.v;
    ";
    assert_eq!(lines(source), vec!["<instance Box>", "10"]);
}

#[test]
fn calling_init_again_gives_the_instance() {
    let source = "
        class Box { init(v) { this.v = v; } }
        var b = Box(10);
        var c = b.init(11);
        print c.v;
        print b.v;
    ";
    assert_eq!(lines(source), vec!["11", "11"]);
}

#[test]
fn initializer_with_bare_return_gives_the_instance() {
    let source = "
        class Box { init(v) { this.v = v; return; this.v = 0; } }
        print Box(3).v;
    ";
    assert_eq!(lines(source), vec!["3"]);
}

#[test]
fn returning_a_value_from_an_initializer_is_rejected() {
    let (_, errors) = failure("class Box { init() { return 1; } }");
    assert_eq!(
        errors,
        vec!["Resolver Error: Cannot return a value from an initializer."]
    );
}

#[test]
fn wrong_number_of_arguments_to_a_function() {
    let (output, errors) = failure("fun f(a) { print \"inside\"; } f(1, 2);");
    assert_eq!(errors, vec!["Expected 1 arguments but got 2."]);
    assert!(output.is_empty());
}

#[test]
fn wrong_number_of_arguments_to_an_initializer() {
    let (output, errors) = failure("class P { init(a, b) { print \"inside\"; } } P(1);");
    assert_eq!(errors, vec!["Expected 2 arguments but got 1."]);
    assert!(output.is_empty());
}

#[test]
fn class_without_initializer_takes_no_arguments() {
    let (_, errors) = failure("class P { } P(1);");
    assert_eq!(errors, vec!["Expected 0 arguments but got 1."]);
}

#[test]
fn decimal_arithmetic_is_exact() {
    assert_eq!(lines("print 0.1 + 0.2 == 0.3;"), vec!["true"]);
    assert_eq!(lines("print 0.1 + 0.2;"), vec!["0.3"]);
}

#[test]
fn arithmetic_and_precedence() {
    assert_eq!(lines("print 1 + 2 * 3;"), vec!["7"]);
    assert_eq!(lines("print (1 + 2) * 3;"), vec!["9"]);
    assert_eq!(lines("print 10 - 4 - 3;"), vec!["3"]);
    assert_eq!(lines("print 7 / 2;"), vec!["3.50"]);
    assert_eq!(lines("print -3 + 1;"), vec!["-2"]);
    assert_eq!(lines("print 1.50 * 2;"), vec!["3.00"]);
}

#[test]
fn comparison_of_numbers() {
    assert_eq!(lines("print 1 < 2;"), vec!["true"]);
    assert_eq!(lines("print 2 <= 2;"), vec!["true"]);
    assert_eq!(lines("print 1 > 2;"), vec!["false"]);
    assert_eq!(lines("print 2 >= 3;"), vec!["false"]);
    assert_eq!(lines("print 1.0 == 1.00;"), vec!["true"]);
    assert_eq!(lines("print 1.5 < 1.25;"), vec!["false"]);
}

#[test]
fn equality_across_kinds_is_false() {
    assert_eq!(lines("print 1 == \"1\";"), vec!["false"]);
    assert_eq!(lines("print nil == false;"), vec!["false"]);
    assert_eq!(lines("print nil == nil;"), vec!["true"]);
    assert_eq!(lines("print \"a\" != \"b\";"), vec!["true"]);
    assert_eq!(lines("print \"a\" == \"a\";"), vec!["true"]);
}

#[test]
fn equality_of_instances_is_structural() {
    let source = "
        class A { }
        class Box { init(v) { this.v = v; } }
        var a = A();
        var b = a;
        print a == b;
        print a == A();
        print Box(1) == Box(1);
        print Box(1) == Box(2);
        print Box(1) != Box(2);
        print Box(Box(1)) == Box(Box(1.0));
        print Box(1) == A();
    ";
    assert_eq!(
        lines(source),
        vec!["true", "true", "true", "false", "true", "true", "false"]
    );
}

#[test]
fn equality_of_functions_and_classes() {
    let source = "
        class A { }
        class B { }
        fun f() { }
        fun g() { }
        print f == f;
        print f == g;
        print A == A;
        print A == B;
        print A == f;
        var o = A();
        o.m = f;
        print o.m == f;
    ";
    assert_eq!(
        lines(source),
        vec!["true", "false", "true", "false", "false", "true"]
    );
}

#[test]
fn comparing_without_end_uses_up_the_budget() {
    let source = "
        class Node { }
        var a = Node();
        var b = Node();
        a.next = a;
        b.next = b;
        print a == a;
        print a == b;
    ";
    let ran = run(init_globals(), source, 40);
    assert_eq!(ran.session.output, vec!["true"]);
    assert_eq!(
        ran.result,
        Err(vec!["Execution budget exhausted.".to_string()])
    );
}

#[test]
fn truthiness() {
    assert_eq!(lines("if (0) print \"yes\"; else print \"no\";"), vec!["yes"]);
    assert_eq!(lines("if (\"\") print \"yes\"; else print \"no\";"), vec!["yes"]);
    assert_eq!(lines("if (nil) print \"yes\"; else print \"no\";"), vec!["no"]);
    assert_eq!(lines("if (false) print \"yes\"; else print \"no\";"), vec!["no"]);
    assert_eq!(lines("print !nil;"), vec!["true"]);
    assert_eq!(lines("print !0;"), vec!["false"]);
}

#[test]
fn logical_operators_short_circuit() {
    let source = "
        fun loud() { print \"called\"; return true; }
        print false and loud();
        print true or loud();
        print nil or \"x\";
        print 1 and 2;
    ";
    assert_eq!(lines(source), vec!["false", "true", "x", "2"]);
}

#[test]
fn string_concatenation() {
    assert_eq!(lines("print \"a\" + \"b\";"), vec!["ab"]);
}

#[test]
fn mixed_operands_are_an_error() {
    let (_, errors) = failure("print 1 + \"a\";");
    assert_eq!(errors, vec!["Unsupported types for binary operation: 1 + a"]);
    let (_, errors) = failure("print \"a\" < \"b\";");
    assert_eq!(errors, vec!["Unsupported types for binary operation: a < b"]);
}

#[test]
fn negating_a_string_is_an_error() {
    let (_, errors) = failure("print -\"a\";");
    assert_eq!(
        errors,
        vec!["Invalid attempt to perform numerical negation on non-number: a"]
    );
}

#[test]
fn division_by_zero_is_an_error() {
    let (_, errors) = failure("print 1 / 0;");
    assert_eq!(errors, vec!["Result out of range for binary operation: 1 / 0"]);
}

#[test]
fn left_operand_is_evaluated_first() {
    let source = "
        fun a() { print \"a\"; return 1; }
        fun b() { print \"b\"; return 2; }
        print a() + b();
    ";
    assert_eq!(lines(source), vec!["a", "b", "3"]);
}

#[test]
fn undefined_variable_is_an_error() {
    let (_, errors) = failure("print missing;");
    assert_eq!(errors, vec!["variable with name 'missing' not defined"]);
}

#[test]
fn assigning_an_undefined_variable_is_an_error() {
    let (_, errors) = failure("missing = 1;");
    assert_eq!(errors, vec!["Undefined variable 'missing'"]);
}

#[test]
fn globals_can_be_used_before_they_are_declared() {
    let source = "
        fun show() { print later; }
        var later = \"now\";
        show();
    ";
    assert_eq!(lines(source), vec!["now"]);
}

#[test]
fn calling_a_non_callable_is_an_error() {
    let (_, errors) = failure("var a = 1; a();");
    assert_eq!(errors, vec!["visit_call called with non function literal callee"]);
}

#[test]
fn property_of_a_non_instance_is_an_error() {
    let (_, errors) = failure("var a = 1; print a.b;");
    assert_eq!(errors, vec!["Only instances have properties."]);
    let (_, errors) = failure("var a = 1; a.b = 2;");
    assert_eq!(errors, vec!["Only instances have fields."]);
}

#[test]
fn unknown_property_is_an_error() {
    let (_, errors) = failure("class A { } print A().b;");
    assert_eq!(errors, vec!["Undefined property: 'b'"]);
}

#[test]
fn fields_shadow_methods_and_are_shared_between_aliases() {
    let source = "
        class A { name() { return \"method\"; } }
        var a = A();
        var b = a;
        print a.name();
        b.name = \"field\";
        print a.name;
    ";
    assert_eq!(lines(source), vec!["method", "field"]);
}

#[test]
fn methods_are_bound_to_their_instance() {
    let source = "
        class A { init(n) { this.n = n; } get() { return this.n; } }
        var m = A(7).get;
        print m();
        print m;
    ";
    assert_eq!(lines(source), vec!["7", "<fn get>"]);
}

#[test]
fn values_are_printed_as_text() {
    let source = "
        class A { }
        fun f() { }
        print nil;
        print true;
        print 12.50;
        print \"text\";
        print f;
        print A;
        print A();
        print clock;
    ";
    assert_eq!(
        lines(source),
        vec![
            "nil",
            "true",
            "12.50",
            "text",
            "<fn f>",
            "<class A>",
            "<instance A>",
            "<fn clock>"
        ]
    );
}

#[test]
fn function_without_return_gives_nil() {
    assert_eq!(lines("fun f() { } print f();"), vec!["nil"]);
}

#[test]
fn return_leaves_loops_and_blocks() {
    let source = "
        fun first() {
            var i = 0;
            while (true) {
                { if (i == 3) return i; }
                i = i + 1;
            }
        }
        print first();
    ";
    assert_eq!(lines(source), vec!["3"]);
}

#[test]
fn recursion() {
    let source = "
        fun fib(n) { if (n < 2) return n; return fib(n - 1) + fib(n - 2); }
        print fib(10);
    ";
    assert_eq!(lines(source), vec!["55"]);
}

#[test]
fn deep_recursion() {
    let source = "
        fun count(n) { if (n == 0) return 0; return 1 + count(n - 1); }
        print count(500);
    ";
    assert_eq!(lines(source), vec!["500"]);
}

#[test]
fn nested_closures_share_the_outer_variable() {
    let source = "
        fun outer() {
            var n = 0;
            fun add() { n = n + 1; }
            fun get() { return n; }
            add();
            add();
            return get;
        }
        print outer()();
    ";
    assert_eq!(lines(source), vec!["2"]);
}

#[test]
fn closure_in_a_loop_captures_the_loop_environment() {
    let source = "
        var f;
        for (var i = 0; i < 3; i = i + 1) {
            var j = i;
            fun show() { print j; }
            if (i == 1) f = show;
        }
        f();
    ";
    assert_eq!(lines(source), vec!["1"]);
}

#[test]
fn three_levels_of_inheritance() {
    let source = "
        class A { name() { return \"A\"; } who() { return this.name(); } }
        class B < A { name() { return \"B\" + super.name(); } }
        class C < B { name() { return \"C\" + super.name(); } }
        print C().who();
        print B().who();
        print A().who();
    ";
    assert_eq!(lines(source), vec!["CBA", "BA", "A"]);
}

#[test]
fn inherited_initializer() {
    let source = "
        class A { init(x) { this.x = x; } }
        class B < A { }
        print B(4).x;
    ";
    assert_eq!(lines(source), vec!["4"]);
}

#[test]
fn super_initializer_can_be_called() {
    let source = "
        class A { init(x) { this.x = x; } }
        class B < A { init(x, y) { super.init(x); this.y = y; } }
        var b = B(1, 2);
        print b.x + b.y;
    ";
    assert_eq!(lines(source), vec!["3"]);
}

#[test]
fn methods_can_refer_to_their_class() {
    let source = "
        class Node { init(v) { this.v = v; } twin() { return Node(this.v); } }
        print Node(5).twin().v;
    ";
    assert_eq!(lines(source), vec!["5"]);
}

#[test]
fn local_class_and_function_in_a_block() {
    let source = "
        {
            class P { hi() { return \"hi\"; } }
            fun make() { return P(); }
            print make().hi();
        }
    ";
    assert_eq!(lines(source), vec!["hi"]);
}

#[test]
fn arguments_are_evaluated_left_to_right_before_the_call() {
    let source = "
        fun show(a, b) { print a + b; }
        fun one() { print \"one\"; return 1; }
        fun two() { print \"two\"; return 2; }
        show(one(), two());
    ";
    assert_eq!(lines(source), vec!["one", "two", "3"]);
}

#[test]
fn while_loop() {
    assert_eq!(
        lines("var i = 0; while (i < 3) { print i; i = i + 1; }"),
        vec!["0", "1", "2"]
    );
}

#[test]
fn for_loop() {
    assert_eq!(
        lines("for (var i = 0; i < 3; i = i + 1) print i;"),
        vec!["0", "1", "2"]
    );
}

#[test]
fn for_loop_variable_is_local_to_the_loop() {
    let (_, errors) = failure("for (var i = 0; i < 1; i = i + 1) { } print i;");
    assert_eq!(errors, vec!["variable with name 'i' not defined"]);
}

#[test]
fn return_at_top_level_is_rejected() {
    let (_, errors) = failure("return 1;");
    assert_eq!(errors, vec!["Resolver Error: Cannot return from top-level code."]);
}

#[test]
fn this_outside_a_class_is_rejected() {
    let (_, errors) = failure("print this;");
    assert_eq!(errors, vec!["Resolver Error: Can't use 'this' outside of a class."]);
}

#[test]
fn super_outside_a_class_is_rejected() {
    let (_, errors) = failure("super.x();");
    assert_eq!(errors, vec!["Resolver Error: Can't use 'super' outside of a class."]);
}

#[test]
fn super_without_superclass_is_rejected() {
    let (_, errors) = failure("class A { f() { super.f(); } }");
    assert_eq!(
        errors,
        vec!["Resolver Error: Can't use 'super' in a class with no superclass."]
    );
}

#[test]
fn class_inheriting_from_itself_is_rejected() {
    let (_, errors) = failure("class A < A { }");
    assert_eq!(errors, vec!["Resolver Error: A class can't inherit from itself."]);
}

#[test]
fn superclass_must_be_a_class() {
    let (_, errors) = failure("var N = 1; class A < N { }");
    assert_eq!(errors, vec!["Superclass must be a class."]);
}

#[test]
fn runtime_error_stops_the_program_and_keeps_the_output() {
    let (output, errors) = failure("print 1; print missing; print 2;");
    assert_eq!(output, vec!["1"]);
    assert_eq!(errors, vec!["variable with name 'missing' not defined"]);
}

#[test]
fn endless_loop_uses_up_the_budget() {
    let ran = run(init_globals(), "while (true) { }", 100);
    assert_eq!(
        ran.result,
        Err(vec!["Execution budget exhausted.".to_string()])
    );
}

#[test]
fn endless_recursion_uses_up_the_budget() {
    let ran = run(init_globals(), "fun f() { f(); } f();", 50);
    assert_eq!(
        ran.result,
        Err(vec!["Execution budget exhausted.".to_string()])
    );
}

#[test]
fn clock_gives_a_number() {
    assert_eq!(lines("print clock() > 0;"), vec!["true"]);
    assert_eq!(lines("var a = clock(); var b = clock(); print a <= b;"), vec!["true"]);
}

#[test]
fn what_the_host_gave_is_kept() {
    let ran = run(init_globals(), "var a = clock(); print 1; var b = clock();", 100);
    assert_eq!(ran.result, Ok(()));
    assert_eq!(ran.session.readings.len(), 2);
    let again = run(ran.session, "print a == b or a < b;", 100);
    assert_eq!(again.session.readings.len(), 2);
    assert_eq!(again.session.output, vec!["1", "true"]);
}

#[test]
fn lexical_errors_are_all_reported() {
    let (output, errors) = failure("print 1; @ # \"open");
    assert_eq!(
        errors,
        vec![
            "Unexpected charater: @",
            "Unexpected charater: #",
            "unterminated string"
        ]
    );
    assert!(output.is_empty());
}

#[test]
fn syntax_error_stops_everything() {
    let (output, errors) = failure("print 1; print (2;");
    assert_eq!(
        errors,
        vec!["Could not consume: ';' on line 1. \"Expect ')' after expression\""]
    );
    assert!(output.is_empty());
}

#[test]
fn invalid_assignment_target() {
    let (_, errors) = failure("1 = 2;");
    assert_eq!(errors, vec!["Invalid assignment target."]);
}

#[test]
fn session_keeps_globals_and_closures_between_runs() {
    let first = run(
        init_globals(),
        "fun make() { var n = 0; fun next() { n = n + 1; return n; } return next; } var c = make();",
        1000,
    );
    assert_eq!(first.result, Ok(()));
    let second = run(first.session, "{ var pad = 0; print c(); print c(); }", 1000);
    assert_eq!(second.result, Ok(()));
    assert_eq!(second.session.output, vec!["1", "2"]);
}

#[test]
fn session_survives_an_error() {
    let first = run(init_globals(), "var a = 1; { var b = b; }", 1000);
    assert!(first.result.is_err());
    let second = run(first.session, "var a = 2; print a;", 1000);
    assert_eq!(second.result, Ok(()));
    assert_eq!(second.session.output, vec!["2"]);
}
