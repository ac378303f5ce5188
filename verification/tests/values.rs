use std::rc::Rc;

use rlox::ast::FunctionStmt;
use rlox::ast_printer::AstPrinter;
use rlox::environment::Heap;
use rlox::equality::{both_answers, equal};
use rlox::interpreter::{
    binary_operation, evaluate_truthy, negation_result, number_result, unary_operation,
    value_text, Environments, Error, Interpreter,
};
use rlox::scanner::Scanner;
use rlox::native::{call_native, clock, define_native_functions, seconds};
use rlox::number::Number;
use rlox::resolver::Locals;
use rlox::table::Table;
use rlox::text::{concat2, count_to_string};
use rlox::tokens::{
    Callable, Class, EnvRef, Function, Literal, LoxCallable, LoxInstance, Native, Token, TokenType,
};

fn number(mantissa: i128, scale: u32) -> Literal {
    Literal::Number(Number::new(mantissa, scale).unwrap())
}

fn text(s: &str) -> Literal {
    Literal::String(s.to_string())
}

fn operator(kind: TokenType, lexeme: &str) -> Token {
    Token::new(kind, lexeme.to_string(), Literal::Nil, 1)
}

fn declaration(name: &str, params: &[&str], id: usize) -> Rc<FunctionStmt> {
    Rc::new(FunctionStmt {
        id,
        name: Token::new(TokenType::Identifier, name.to_string(), Literal::Nil, 1),
        params: params
            .iter()
            .map(|p| Token::new(TokenType::Identifier, p.to_string(), Literal::Nil, 1))
            .collect(),
        body: Vec::new(),
    })
}

fn shown(heap: &Heap, r: Result<Literal, Error>) -> String {
    match r {
        Ok(v) => value_text(heap, &v),
        Err(Error::SingleError(t)) => format!("error: {}", t),
        Err(other) => panic!("unexpected: {:?}", other),
    }
}

#[test]
fn counts_are_written_in_decimal() {
    assert_eq!(count_to_string(0), "0");
    assert_eq!(count_to_string(9), "9");
    assert_eq!(count_to_string(10), "10");
    assert_eq!(count_to_string(255), "255");
    assert_eq!(count_to_string(1234567890), "1234567890");
    assert_eq!(count_to_string(usize::MAX), usize::MAX.to_string());
}

#[test]
fn texts_are_joined() {
    assert_eq!(concat2("ab", "cd"), "abcd");
    assert_eq!(concat2("", ""), "");
}

fn written(mantissa: i128, scale: u32) -> String {
    let mut digits = mantissa.unsigned_abs().to_string();
    while digits.len() <= scale as usize {
        digits.insert(0, '0');
    }
    let point = digits.len() - scale as usize;
    let mut text = String::new();
    if mantissa < 0 {
        text.push('-');
    }
    text.push_str(&digits[..point]);
    if scale > 0 {
        text.push('.');
        text.push_str(&digits[point..]);
    }
    text
}

#[test]
fn numbers_are_written_with_all_their_digits() {
    let heap = Heap::new();
    assert_eq!(value_text(&heap, &number(3, 1)), "0.3");
    assert_eq!(value_text(&heap, &number(-1250, 2)), "-12.50");
    assert_eq!(value_text(&heap, &number(0, 0)), "0");
    assert_eq!(value_text(&heap, &number(0, 2)), "0.00");
    assert_eq!(value_text(&heap, &number(-5, 3)), "-0.005");
    assert_eq!(value_text(&heap, &number(7, 0)), "7");
    assert_eq!(value_text(&heap, &number(100, 2)), "1.00");
    assert_eq!(value_text(&heap, &number(1, 28)), "0.0000000000000000000000000001");
    let max: i128 = 0xFFFF_FFFF_FFFF_FFFF_FFFF_FFFF;
    assert_eq!(value_text(&heap, &number(max, 0)), "79228162514264337593543950335");
    assert_eq!(value_text(&heap, &number(-max, 28)), "-7.9228162514264337593543950335");
    let mantissas: [i128; 14] = [
        0, 1, -1, 9, 10, -10, 99, 100, 12345, -98765, 1_000_000_007, -4_294_967_296, max, -max,
    ];
    for mantissa in mantissas {
        for scale in 0..=28u32 {
            assert_eq!(
                value_text(&heap, &number(mantissa, scale)),
                written(mantissa, scale),
                "mantissa {} scale {}",
                mantissa,
                scale
            );
        }
    }
}

#[test]
fn numbers_stay_in_range() {
    let max: i128 = 0xFFFF_FFFF_FFFF_FFFF_FFFF_FFFF;
    assert!(Number::new(max, 28).is_some());
    assert!(Number::new(-max, 0).is_some());
    assert!(Number::new(max + 1, 0).is_none());
    assert!(Number::new(-max - 1, 0).is_none());
    assert!(Number::new(1, 29).is_none());
    let n = Number::new(-1250, 2).unwrap();
    assert_eq!(n.mantissa(), -1250);
    assert_eq!(n.scale(), 2);
    let w = Number::from_i64(-7);
    assert_eq!(w.mantissa(), -7);
    assert_eq!(w.scale(), 0);
}

#[test]
fn table_keeps_one_value_per_name() {
    let mut table: Table<bool> = Table::new();
    assert!(!table.contains("a"));
    assert_eq!(table.get("a"), None);
    table.insert("a".to_string(), false);
    table.insert("b".to_string(), true);
    table.insert("a".to_string(), true);
    assert_eq!(table.get("a"), Some(&true));
    assert_eq!(table.get("b"), Some(&true));
    assert_eq!(table.position("a"), Some(0));
    assert_eq!(table.position("b"), Some(1));
    assert_eq!(table.position("c"), None);
    assert_eq!(table.entries.len(), 2);
    assert!(table.contains("b"));
}

#[test]
fn truthiness_of_values() {
    assert!(!evaluate_truthy(&Literal::Nil));
    assert!(!evaluate_truthy(&Literal::Boolean(false)));
    assert!(evaluate_truthy(&Literal::Boolean(true)));
    assert!(evaluate_truthy(&number(0, 0)));
    assert!(evaluate_truthy(&text("")));
}

#[test]
fn equality_of_values() {
    let heap = Heap::new();
    assert_eq!(equal(&heap, &Literal::Nil, &Literal::Nil, 0), Some(true));
    assert_eq!(equal(&heap, &number(10, 1), &number(1, 0), 0), Some(true));
    assert_eq!(equal(&heap, &number(11, 1), &number(1, 0), 0), Some(false));
    assert_eq!(equal(&heap, &text("a"), &text("a"), 0), Some(true));
    assert_eq!(equal(&heap, &text("a"), &text("b"), 0), Some(false));
    assert_eq!(equal(&heap, &text("1"), &number(1, 0), 0), Some(false));
    assert_eq!(equal(&heap, &Literal::Nil, &Literal::Boolean(false), 0), Some(false));
    assert_eq!(
        equal(&heap, &Literal::Boolean(true), &Literal::Boolean(true), 0),
        Some(true)
    );
    let clock = Literal::Callable(LoxCallable::new(
        "clock".to_string(),
        Callable::Native(Native::Clock),
    ));
    assert_eq!(equal(&heap, &clock, &clock.clone(), 0), Some(true));
    assert_eq!(equal(&heap, &clock, &Literal::Nil, 0), Some(false));
}

#[test]
fn three_valued_and() {
    assert_eq!(both_answers(Some(true), Some(true)), Some(true));
    assert_eq!(both_answers(Some(true), None), None);
    assert_eq!(both_answers(None, Some(true)), None);
    assert_eq!(both_answers(None, None), None);
    assert_eq!(both_answers(Some(false), None), Some(false));
    assert_eq!(both_answers(None, Some(false)), Some(false));
    assert_eq!(both_answers(Some(false), Some(true)), Some(false));
}

#[test]
fn equality_of_instances() {
    let mut heap = Heap::new();
    let globals = EnvRef::new(&mut heap);
    let mut methods: Table<Function> = Table::new();
    methods.insert("get".to_string(), Function::new(declaration("get", &[], 1), globals));
    let class = Rc::new(Class::new("A".to_string(), None, methods));
    let other = Rc::new(Class::new("B".to_string(), None, Table::new()));
    let a = LoxInstance::new(class.clone(), &mut heap);
    let b = LoxInstance::new(class.clone(), &mut heap);
    let c = LoxInstance::new(other, &mut heap);
    let value = |i: LoxInstance| Literal::ClassInstance(i);
    let dangling = LoxInstance { index: 9 };

    assert_eq!(equal(&heap, &value(a), &value(a), 0), Some(true));
    assert_eq!(equal(&heap, &value(dangling), &value(dangling), 0), Some(true));
    assert_eq!(equal(&heap, &value(a), &value(dangling), 5), Some(false));
    assert_eq!(equal(&heap, &value(a), &value(b), 0), None);
    assert_eq!(equal(&heap, &value(a), &value(b), 1), Some(true));
    assert_eq!(equal(&heap, &value(a), &value(c), 1), Some(false));

    a.set(&mut heap, "x", number(1, 0));
    assert_eq!(equal(&heap, &value(a), &value(b), 1), Some(false));
    b.set(&mut heap, "y", number(1, 0));
    assert_eq!(equal(&heap, &value(a), &value(b), 1), Some(false));
    b.set(&mut heap, "x", number(10, 1));
    a.set(&mut heap, "y", number(1, 0));
    assert_eq!(equal(&heap, &value(a), &value(b), 1), Some(true));
    a.set(&mut heap, "y", number(2, 0));
    assert_eq!(equal(&heap, &value(a), &value(b), 1), Some(false));

    a.set(&mut heap, "y", number(1, 0));
    a.set(&mut heap, "next", value(a));
    b.set(&mut heap, "next", value(b));
    assert_eq!(equal(&heap, &value(a), &value(b), 20), None);
    a.set(&mut heap, "y", number(3, 0));
    assert_eq!(equal(&heap, &value(a), &value(b), 20), Some(false));
}

#[test]
fn equality_of_function_and_class_values() {
    let mut heap = Heap::new();
    let globals = EnvRef::new(&mut heap);
    let one = EnvRef::with_enclosing(globals, &mut heap);
    let two = EnvRef::with_enclosing(globals, &mut heap);
    let function = |id: usize, env: EnvRef| {
        Literal::Callable(LoxCallable::new(
            "f".to_string(),
            Callable::Function(Function::new(declaration("f", &[], id), env)),
        ))
    };
    assert_eq!(equal(&heap, &function(1, one), &function(1, one), 0), Some(true));
    assert_eq!(equal(&heap, &function(1, one), &function(2, one), 9), Some(false));
    assert_eq!(equal(&heap, &function(1, one), &function(1, two), 0), None);
    assert_eq!(equal(&heap, &function(1, one), &function(1, two), 2), Some(true));
    one.define(&mut heap, "n", number(1, 0));
    assert_eq!(equal(&heap, &function(1, one), &function(1, two), 2), Some(false));
    two.define(&mut heap, "n", number(1, 0));
    assert_eq!(equal(&heap, &function(1, one), &function(1, two), 2), Some(true));
    assert_eq!(equal(&heap, &function(1, one), &function(1, globals), 2), Some(false));
    assert_eq!(
        equal(&heap, &function(1, one), &function(1, EnvRef { index: 9 }), 2),
        Some(false)
    );
    let initializer = Literal::Callable(LoxCallable::new(
        "f".to_string(),
        Callable::Function(Function::new_initializer(declaration("f", &[], 1), one)),
    ));
    assert_eq!(equal(&heap, &function(1, one), &initializer, 2), Some(false));

    let class = |name: &str, parent: Option<Rc<Class>>, method: Option<usize>| {
        let mut methods: Table<Function> = Table::new();
        if let Some(id) = method {
            methods.insert("m".to_string(), Function::new(declaration("m", &[], id), globals));
        }
        Rc::new(Class::new(name.to_string(), parent, methods))
    };
    let value = |c: Rc<Class>| {
        let name = c.name.clone();
        Literal::Callable(LoxCallable::new(name, Callable::Class(c)))
    };
    let a = class("A", None, Some(1));
    assert_eq!(equal(&heap, &value(a.clone()), &value(class("A", None, Some(1))), 0), Some(true));
    assert_eq!(equal(&heap, &value(a.clone()), &value(class("A", None, Some(2))), 0), Some(false));
    assert_eq!(equal(&heap, &value(a.clone()), &value(class("A", None, None)), 0), Some(false));
    assert_eq!(equal(&heap, &value(a.clone()), &value(class("B", None, Some(1))), 0), Some(false));
    let child = class("C", Some(a.clone()), None);
    assert_eq!(
        equal(&heap, &value(child.clone()), &value(class("C", Some(a.clone()), None)), 0),
        Some(true)
    );
    assert_eq!(
        equal(&heap, &value(child.clone()), &value(class("C", None, None)), 0),
        Some(false)
    );
    assert_eq!(
        equal(&heap, &value(child), &value(class("C", Some(class("B", None, Some(1))), None)), 0),
        Some(false)
    );
    assert_eq!(equal(&heap, &value(a), &function(1, one), 0), Some(false));
}

#[test]
fn binary_operators_on_values() {
    let heap = Heap::new();
    let plus = operator(TokenType::Plus, "+");
    let minus = operator(TokenType::Minus, "-");
    let star = operator(TokenType::Star, "*");
    let slash = operator(TokenType::Slash, "/");
    let less = operator(TokenType::Less, "<");
    let same = operator(TokenType::EqualEqual, "==");
    let other = operator(TokenType::BangEqual, "!=");
    let apply = |l: &Literal, op: &Token, r: &Literal| shown(&heap, binary_operation(&heap, l, op, r, 3));
    assert_eq!(apply(&number(15, 1), &plus, &number(25, 2)), "1.75");
    assert_eq!(apply(&number(15, 1), &minus, &number(25, 2)), "1.25");
    assert_eq!(apply(&number(15, 1), &star, &number(2, 0)), "3.0");
    assert_eq!(apply(&number(3, 0), &slash, &number(4, 0)), "0.75");
    assert_eq!(apply(&number(3, 0), &less, &number(4, 0)), "true");
    assert_eq!(apply(&number(3, 0), &same, &number(30, 1)), "true");
    assert_eq!(apply(&number(3, 0), &other, &number(30, 1)), "false");
    assert_eq!(apply(&text("a"), &same, &number(30, 1)), "false");
    assert_eq!(apply(&text("a"), &plus, &text("b")), "ab");
    assert_eq!(
        apply(&text("a"), &minus, &text("b")),
        "error: Unsupported types for binary operation: a - b"
    );
    assert_eq!(
        apply(&Literal::Nil, &plus, &number(1, 0)),
        "error: Unsupported types for binary operation: nil + 1"
    );
    let max: i128 = 0xFFFF_FFFF_FFFF_FFFF_FFFF_FFFF;
    assert_eq!(
        apply(&number(max, 0), &plus, &number(max, 0)),
        "error: Result out of range for binary operation: 79228162514264337593543950335 + 79228162514264337593543950335"
    );
}

#[test]
fn unary_operators_on_values() {
    let heap = Heap::new();
    let bang = operator(TokenType::Bang, "!");
    let minus = operator(TokenType::Minus, "-");
    let plus = operator(TokenType::Plus, "+");
    assert_eq!(shown(&heap, unary_operation(&heap, &bang, &Literal::Nil)), "true");
    assert_eq!(shown(&heap, unary_operation(&heap, &bang, &text("x"))), "false");
    assert_eq!(shown(&heap, unary_operation(&heap, &minus, &number(15, 1))), "-1.5");
    assert_eq!(shown(&heap, unary_operation(&heap, &minus, &number(-2, 0))), "2");
    assert_eq!(
        shown(&heap, unary_operation(&heap, &minus, &Literal::Boolean(true))),
        "error: Invalid attempt to perform numerical negation on non-number: true"
    );
    assert_eq!(
        shown(&heap, unary_operation(&heap, &plus, &number(1, 0))),
        "error: The value '1' does not support the unary operation '+'"
    );
}

#[test]
fn arithmetic_results_become_values_or_errors() {
    let heap = Heap::new();
    let slash = operator(TokenType::Slash, "/");
    let l = number(1, 0);
    let r = number(0, 0);
    assert_eq!(
        shown(&heap, number_result(Number::new(25, 1), &heap, &l, &slash, &r)),
        "2.5"
    );
    assert_eq!(
        shown(&heap, number_result(None, &heap, &l, &slash, &r)),
        "error: Result out of range for binary operation: 1 / 0"
    );
    assert_eq!(shown(&heap, negation_result(&heap, &l, Number::new(-1, 0))), "-1");
    assert_eq!(
        shown(&heap, negation_result(&heap, &Literal::Nil, None)),
        "error: Invalid attempt to perform numerical negation on non-number: nil"
    );
}

#[test]
fn number_texts_become_tokens_or_errors() {
    let mut scanner = Scanner::new("12.5;");
    scanner.current = 4;
    match scanner.number_token("12.5", Number::new(125, 1)) {
        Ok(Some(t)) => {
            assert_eq!(t.token_type, TokenType::Number);
            assert_eq!(t.lexeme, "12.5");
            assert_eq!(t.line_number, 1);
            match t.literal {
                Literal::Number(n) => {
                    assert_eq!(n.mantissa(), 125);
                    assert_eq!(n.scale(), 1);
                }
                other => panic!("not a number: {:?}", other),
            }
        }
        other => panic!("unexpected: {:?}", other),
    }
    match scanner.number_token("12.5", None) {
        Err(e) => assert_eq!(e, "Failed to parse number: 12.5"),
        other => panic!("unexpected: {:?}", other),
    }
}

#[test]
fn arity_of_callables() {
    let function = LoxCallable::new(
        "f".to_string(),
        Callable::Function(Function::new(declaration("f", &["a", "b"], 0), EnvRef { index: 0 })),
    );
    assert_eq!(function.arity(), 2);
    assert_eq!(function.name, "f");
    let native = LoxCallable::new("clock".to_string(), Callable::Native(Native::Clock));
    assert_eq!(native.arity(), 0);

    let mut methods: Table<Function> = Table::new();
    methods.insert(
        "init".to_string(),
        Function::new_initializer(declaration("init", &["x", "y", "z"], 1), EnvRef { index: 0 }),
    );
    let parent = Rc::new(Class::new("A".to_string(), None, methods));
    let child = Rc::new(Class::new("B".to_string(), Some(parent.clone()), Table::new()));
    let plain = Rc::new(Class::new("C".to_string(), None, Table::new()));
    assert_eq!(LoxCallable::new("A".to_string(), Callable::Class(parent)).arity(), 3);
    assert_eq!(LoxCallable::new("B".to_string(), Callable::Class(child.clone())).arity(), 3);
    assert_eq!(LoxCallable::new("C".to_string(), Callable::Class(plain)).arity(), 0);
    assert!(child.find_method("init").unwrap().is_initializer);
    assert!(child.find_method("other").is_none());
}

#[test]
fn environments_form_a_chain() {
    let mut heap = Heap::new();
    let globals = EnvRef::new(&mut heap);
    let middle = EnvRef::with_enclosing(globals, &mut heap);
    let inner = EnvRef::with_enclosing(middle, &mut heap);
    let other = EnvRef::with_enclosing(globals, &mut heap);
    assert_eq!(globals.index, 0);
    assert_eq!(inner.index, 2);

    globals.define(&mut heap, "g", number(1, 0));
    middle.define(&mut heap, "m", number(2, 0));
    inner.define(&mut heap, "g", number(3, 0));

    let show = |heap: &Heap, v: Option<Literal>| v.map(|v| value_text(heap, &v));
    assert_eq!(show(&heap, inner.get_at_distance(&heap, 0, "g")), Some("3".to_string()));
    assert_eq!(show(&heap, inner.get_at_distance(&heap, 1, "m")), Some("2".to_string()));
    assert_eq!(show(&heap, inner.get_at_distance(&heap, 2, "g")), Some("1".to_string()));
    assert_eq!(show(&heap, inner.get_at_distance(&heap, 1, "g")), None);
    assert_eq!(show(&heap, inner.get_at_distance(&heap, 3, "g")), None);
    assert_eq!(show(&heap, inner.get_global(&heap, "g")), Some("1".to_string()));
    assert_eq!(show(&heap, inner.get_global(&heap, "m")), None);
    assert_eq!(show(&heap, other.get_global(&heap, "g")), Some("1".to_string()));
    assert_eq!(show(&heap, inner.get_current(&heap, "m")), None);
    assert_eq!(inner.ancestor(&heap, 2), Some(globals));
    assert_eq!(inner.root(&heap), Some(globals));
    assert_eq!(EnvRef { index: 9 }.root(&heap), None);

    assert_eq!(inner.assign_current(&mut heap, "g", number(4, 0)), Ok(()));
    assert_eq!(
        inner.assign_current(&mut heap, "m", number(4, 0)),
        Err("Undefined variable 'm'".to_string())
    );
    assert_eq!(inner.assign_at_distance(&mut heap, 1, "m", number(5, 0)), Ok(()));
    assert_eq!(
        inner.assign_at_distance(&mut heap, 1, "g", number(5, 0)),
        Err("Undefined variable 'g'".to_string())
    );
    assert_eq!(inner.assign_global(&mut heap, "g", number(6, 0)), Ok(()));
    assert_eq!(
        inner.assign_global(&mut heap, "m", number(6, 0)),
        Err("Undefined variable 'm'".to_string())
    );
    assert_eq!(show(&heap, inner.get_at_distance(&heap, 0, "g")), Some("4".to_string()));
    assert_eq!(show(&heap, middle.get_at_distance(&heap, 0, "m")), Some("5".to_string()));
    assert_eq!(show(&heap, other.get_at_distance(&heap, 1, "g")), Some("6".to_string()));

    globals.define(&mut heap, "g", text("again"));
    assert_eq!(show(&heap, globals.get_current(&heap, "g")), Some("again".to_string()));
}

#[test]
fn instances_have_fields_and_methods() {
    let mut heap = Heap::new();
    let globals = EnvRef::new(&mut heap);
    let mut methods: Table<Function> = Table::new();
    methods.insert("get".to_string(), Function::new(declaration("get", &[], 1), globals));
    let class = Rc::new(Class::new("A".to_string(), None, methods));
    let a = LoxInstance::new(class.clone(), &mut heap);
    let b = LoxInstance::new(class, &mut heap);
    assert_eq!(a.index, 0);
    assert_eq!(b.index, 1);
    assert_eq!(a.class_name(&heap), Some("A".to_string()));
    assert_eq!(LoxInstance { index: 5 }.class_name(&heap), None);

    a.set(&mut heap, "x", number(1, 0));
    a.set(&mut heap, "x", number(2, 0));
    match a.get(&mut heap, "x") {
        Ok(v) => assert_eq!(value_text(&heap, &v), "2"),
        Err(e) => panic!("{}", e),
    }
    assert_eq!(b.get(&mut heap, "x").err(), Some("Undefined property: 'x'".to_string()));
    assert!(a.find_method(&heap, "get").is_some());
    assert!(a.find_method(&heap, "x").is_none());

    let before = heap.environments.len();
    match a.get(&mut heap, "get") {
        Ok(Literal::Callable(c)) => {
            assert_eq!(c.name, "get");
            match c.callable {
                Callable::Function(f) => {
                    assert_eq!(f.env.index, before);
                    match f.env.get_current(&heap, "this") {
                        Some(Literal::ClassInstance(i)) => assert_eq!(i, a),
                        other => panic!("not an instance: {:?}", other),
                    }
                    assert_eq!(f.env.ancestor(&heap, 1), Some(globals));
                }
                other => panic!("not a function: {:?}", other),
            }
        }
        other => panic!("not a callable: {:?}", other),
    }
    assert_eq!(heap.environments.len(), before + 1);
    assert_eq!(value_text(&heap, &Literal::ClassInstance(a)), "<instance A>");
    assert_eq!(value_text(&heap, &Literal::ClassInstance(LoxInstance { index: 9 })), "<instance>");
}

#[test]
fn binding_keeps_the_initializer_flag() {
    let mut heap = Heap::new();
    let globals = EnvRef::new(&mut heap);
    let class = Rc::new(Class::new("A".to_string(), None, Table::new()));
    let a = LoxInstance::new(class, &mut heap);
    let init = Function::new_initializer(declaration("init", &[], 1), globals);
    let bound = init.bind(a, &mut heap);
    assert!(bound.is_initializer);
    assert_eq!(bound.env.index, 1);
    let plain = Function::new(declaration("m", &[], 3), globals).bind(a, &mut heap);
    assert!(!plain.is_initializer);
    assert_eq!(plain.env.index, 2);
}

#[test]
fn environments_are_a_stack() {
    let mut environments = Environments::new(EnvRef { index: 0 }, Locals::new());
    assert_eq!(environments.peek(), EnvRef { index: 0 });
    environments.push_scope(EnvRef { index: 4 });
    environments.push_scope(EnvRef { index: 2 });
    assert_eq!(environments.peek(), EnvRef { index: 2 });
    environments.pop_scope();
    assert_eq!(environments.peek(), EnvRef { index: 4 });
    environments.pop_scope();
    environments.pop_scope();
    environments.pop_scope();
    assert_eq!(environments.stack.len(), 0);
}

#[test]
fn environments_look_variables_up_where_the_resolver_found_them() {
    let mut heap = Heap::new();
    let globals = EnvRef::new(&mut heap);
    let inner = EnvRef::with_enclosing(globals, &mut heap);
    globals.define(&mut heap, "a", text("global"));
    inner.define(&mut heap, "a", text("local"));
    let mut locals = Locals::new();
    locals.resolve(1, 0);
    locals.resolve(2, 1);
    let mut environments = Environments::new(globals, locals);
    environments.push_scope(inner);
    let show = |heap: &Heap, r: Result<Literal, String>| r.map(|v| value_text(heap, &v));
    assert_eq!(show(&heap, environments.look_up_variable(&heap, "a", 1)), Ok("local".to_string()));
    assert_eq!(show(&heap, environments.look_up_variable(&heap, "a", 2)), Ok("global".to_string()));
    assert_eq!(show(&heap, environments.look_up_variable(&heap, "a", 3)), Ok("global".to_string()));
    assert_eq!(
        show(&heap, environments.look_up_variable(&heap, "b", 3)),
        Err("variable with name 'b' not defined".to_string())
    );
    assert_eq!(environments.assign_expression(&mut heap, 1, "a", text("one")), Ok(()));
    assert_eq!(environments.assign_expression(&mut heap, 3, "a", text("three")), Ok(()));
    assert_eq!(
        environments.assign_expression(&mut heap, 3, "b", text("none")),
        Err("Undefined variable 'b'".to_string())
    );
    assert_eq!(environments.assign(&mut heap, "a", text("top")), Ok(()));
    assert_eq!(show(&heap, environments.look_up_variable(&heap, "a", 1)), Ok("top".to_string()));
    assert_eq!(show(&heap, environments.look_up_variable(&heap, "a", 2)), Ok("three".to_string()));
}

#[test]
fn calls_check_the_number_of_arguments_first() {
    let mut heap = Heap::new();
    let globals = EnvRef::new(&mut heap);
    let mut interpreter = Interpreter::new(heap, globals, Locals::new());
    let f = LoxCallable::new(
        "f".to_string(),
        Callable::Function(Function::new(declaration("f", &["a"], 0), globals)),
    );
    match interpreter.call(f.clone(), vec![], 10) {
        Err(Error::SingleError(t)) => assert_eq!(t, "Expected 1 arguments but got 0."),
        other => panic!("unexpected: {:?}", other),
    }
    assert_eq!(interpreter.heap.environments.len(), 1);
    match interpreter.call(f.clone(), vec![number(1, 0)], 10) {
        Ok(Literal::Nil) => {}
        other => panic!("unexpected: {:?}", other),
    }
    assert_eq!(interpreter.heap.environments.len(), 2);
    match interpreter.call(f, vec![number(1, 0)], 0) {
        Err(Error::OutOfFuel) => {}
        other => panic!("unexpected: {:?}", other),
    }
    assert_eq!(interpreter.environments.stack.len(), 1);
}

#[test]
fn a_host_function_gives_a_number_and_is_recorded() {
    let mut heap = Heap::new();
    let globals = EnvRef::new(&mut heap);
    let mut interpreter = Interpreter::new(heap, globals, Locals::new());
    let clock = LoxCallable::new("clock".to_string(), Callable::Native(Native::Clock));
    let given = match interpreter.call(clock.clone(), vec![], 0) {
        Ok(Literal::Number(n)) => n,
        other => panic!("not a number: {:?}", other),
    };
    assert_eq!(given.scale(), 6);
    assert!(given.mantissa() > 1_600_000_000_000_000);
    assert_eq!(interpreter.readings.len(), 1);
    match &interpreter.readings[0] {
        Literal::Number(n) => {
            assert_eq!(n.mantissa(), given.mantissa());
            assert_eq!(n.scale(), given.scale());
        }
        other => panic!("not a number: {:?}", other),
    }
    match interpreter.call(clock, vec![number(1, 0)], 5) {
        Err(Error::SingleError(t)) => assert_eq!(t, "Expected 0 arguments but got 1."),
        other => panic!("unexpected: {:?}", other),
    }
    assert_eq!(interpreter.readings.len(), 1);
}

#[test]
fn a_call_runs_in_a_new_environment_inside_the_closure() {
    let mut heap = Heap::new();
    let globals = EnvRef::new(&mut heap);
    let closure = EnvRef::with_enclosing(globals, &mut heap);
    let caller = EnvRef::with_enclosing(globals, &mut heap);
    closure.define(&mut heap, "captured", number(1, 0));
    let mut interpreter = Interpreter::new(heap, globals, Locals::new());
    interpreter.environments.push_scope(caller);
    let f = LoxCallable::new(
        "f".to_string(),
        Callable::Function(Function::new(declaration("f", &["a", "b", "a"], 0), closure)),
    );
    match interpreter.call(f, vec![number(1, 0), number(2, 0), number(3, 0)], 1) {
        Ok(Literal::Nil) => {}
        other => panic!("unexpected: {:?}", other),
    }
    let heap = &interpreter.heap;
    assert_eq!(heap.environments.len(), 4);
    let made = &heap.environments[3];
    assert_eq!(made.enclosing, Some(closure));
    let bound: Vec<(String, String)> = made
        .values
        .entries
        .iter()
        .map(|(n, v)| (n.clone(), value_text(heap, v)))
        .collect();
    assert_eq!(
        bound,
        vec![("a".to_string(), "3".to_string()), ("b".to_string(), "2".to_string())]
    );
    assert_eq!(heap.environments[2].values.entries.len(), 0);
    assert_eq!(heap.environments[1].values.entries.len(), 1);
    assert_eq!(interpreter.environments.peek(), caller);
}

#[test]
fn a_bound_initializer_gives_its_instance() {
    let mut heap = Heap::new();
    let globals = EnvRef::new(&mut heap);
    let class = Rc::new(Class::new("A".to_string(), None, Table::new()));
    let a = LoxInstance::new(class, &mut heap);
    let init = Function::new_initializer(declaration("init", &["x"], 1), globals);
    let bound = init.bind(a, &mut heap);
    let mut interpreter = Interpreter::new(heap, globals, Locals::new());
    let callable = LoxCallable::new("init".to_string(), Callable::Function(bound));
    match interpreter.call(callable.clone(), vec![number(1, 0)], 3) {
        Ok(Literal::ClassInstance(i)) => assert_eq!(i, a),
        other => panic!("not the instance: {:?}", other),
    }
    match interpreter.call(callable, vec![number(1, 0)], 0) {
        Err(Error::OutOfFuel) => {}
        other => panic!("unexpected: {:?}", other),
    }
    let unbound = LoxCallable::new("init".to_string(), Callable::Function(init));
    let before = interpreter.heap.environments.len();
    match interpreter.call(unbound, vec![number(1, 0)], 3) {
        Err(Error::SingleError(t)) => assert_eq!(t, "variable with name 'this' not defined"),
        other => panic!("unexpected: {:?}", other),
    }
    assert_eq!(interpreter.heap.environments.len(), before);
}

#[test]
fn the_clock_counts_seconds() {
    let n = seconds(1_500_000);
    assert_eq!(n.mantissa(), 1_500_000);
    assert_eq!(n.scale(), 6);
    let zero = seconds(u128::MAX);
    assert_eq!(zero.mantissa(), 0);
    assert_eq!(zero.scale(), 0);
    match clock() {
        Literal::Number(n) => {
            assert_eq!(n.scale(), 6);
            assert!(n.mantissa() > 1_600_000_000_000_000);
        }
        other => panic!("not a number: {:?}", other),
    }
    assert!(matches!(call_native(Native::Clock), Literal::Number(_)));
}

#[test]
fn host_functions_are_globals() {
    let mut heap = Heap::new();
    let globals = EnvRef::new(&mut heap);
    define_native_functions(globals, &mut heap);
    match globals.get_current(&heap, "clock") {
        Some(Literal::Callable(c)) => {
            assert_eq!(c.name, "clock");
            assert!(matches!(c.callable, Callable::Native(Native::Clock)));
            assert_eq!(c.arity(), 0);
        }
        other => panic!("not a callable: {:?}", other),
    }
}

#[test]
fn printer_puts_names_and_operands_in_parentheses() {
    let printer = AstPrinter::new();
    assert_eq!(printer.parenthesize("+", " 1 2"), "(+ 1 2)");
    assert_eq!(printer.parenthesize("f", ""), "(f)");
}
