//! What a program means.
//!
//! The functions here are the definition of the language: they say, for a
//! state and a piece of syntax, which state and which result running the
//! syntax leads to. The interpreter is proved to compute what they say.
//!
//! A program can call functions of the host, such as the clock. What
//! they give is part of the state that a program starts in: the state
//! holds the readings that are to come.
//!
//! Running a program need not end, so every function takes a budget. A
//! call of a function uses one unit of it for the whole call, every turn
//! of a loop after the first uses one unit for the rest of the loop, and
//! a comparison uses one unit for every step from a value to what it
//! refers to. Where the budget is used up the result is
//! `Flow::OutOfFuel`.

use vstd::prelude::*;
use std::rc::Rc;
use crate::ast::{Expr, FunctionStmt, Stmt};
use crate::environment::{undefined_property_text, HeapView};
use crate::equality::values_equal;
use crate::number::{
    number_difference, number_less, number_product, number_quotient, number_sum, number_text,
    NumberView,
};
use crate::text::count_text;
use crate::tokens::{
    CallableView, ClassView, EnvRef, Function, LiteralView, LoxCallableView, Token, TokenType,
};

verus! {

/// How a step ended.
pub enum Flow {
    /// It ran to its end and gave a value; a statement gives `nil`.
    Normal(LiteralView),
    /// A `return` statement is on its way to the call that it ends.
    Return(LiteralView),
    /// A runtime error, with its text.
    Error(Seq<char>),
    /// The budget was used up.
    OutOfFuel,
    /// A host function was called and no reading was left for it.
    Starved,
}

/// The state of a running program: its heap, what it has printed, and
/// what it gets from the host.
///
/// What a host function gives is for the host to say, not for the
/// language. So the state holds the values that the calls of host
/// functions give, in the order of the calls, as `readings`, and how many
/// of them have been given as `taken`.
pub struct StateView {
    pub heap: HeapView,
    pub output: Seq<Seq<char>>,
    pub readings: Seq<LiteralView>,
    pub taken: nat,
}

/// The state after a step, and how the step ended.
pub struct Step {
    pub state: StateView,
    pub flow: Flow,
}

impl StateView {
    /// The same state with another heap.
    pub open spec fn with_heap(self, heap: HeapView) -> StateView {
        StateView { heap, ..self }
    }

    /// The same state, where the host gives `readings`.
    pub open spec fn with_readings(self, readings: Seq<LiteralView>) -> StateView {
        StateView { readings, ..self }
    }

    /// Calling a host function: it gives the next reading.
    pub open spec fn read(self) -> Step {
        if self.taken < self.readings.len() {
            StateView { taken: self.taken + 1, ..self }.give(self.readings[self.taken as int])
        } else {
            self.end(Flow::Starved)
        }
    }

    /// The step that ends in this state with `flow`.
    pub open spec fn end(self, flow: Flow) -> Step {
        Step { state: self, flow }
    }

    /// The step that ends in this state with the value `v`.
    pub open spec fn give(self, v: LiteralView) -> Step {
        Step { state: self, flow: Flow::Normal(v) }
    }

    /// The step that ends in this state with the error `text`.
    pub open spec fn fail(self, text: Seq<char>) -> Step {
        Step { state: self, flow: Flow::Error(text) }
    }
}

/// `nil` and `false` count as false; every other value counts as true.
pub open spec fn truthy(v: LiteralView) -> bool {
    match v {
        LiteralView::Nil => false,
        LiteralView::Boolean(b) => b,
        _ => true,
    }
}

/// The text that `print` writes for a value.
pub open spec fn literal_text(heap: HeapView, v: LiteralView) -> Seq<char> {
    match v {
        LiteralView::Nil => "nil"@,
        LiteralView::Boolean(b) => if b {
            "true"@
        } else {
            "false"@
        },
        LiteralView::Number(n) => number_text(n),
        LiteralView::String(s) => s,
        LiteralView::Callable(c) => match c.callable {
            CallableView::Class(_) => "<class "@ + c.name + ">"@,
            _ => "<fn "@ + c.name + ">"@,
        },
        LiteralView::ClassInstance(i) => if heap.has_instance(i) {
            "<instance "@ + heap.instances[i.index as int].class.name + ">"@
        } else {
            "<instance>"@
        },
    }
}

/// The text of the error for a variable that is read before it exists.
pub open spec fn undefined_text(name: Seq<char>) -> Seq<char> {
    "variable with name '"@ + name + "' not defined"@
}

/// The text of the error for a call with the wrong number of arguments.
pub open spec fn arity_text(expected: nat, got: nat) -> Seq<char> {
    "Expected "@ + count_text(expected) + " arguments but got "@ + count_text(got) + "."@
}

/// The text of the error for a binary operator that does not fit its
/// operands.
pub open spec fn binary_text(heap: HeapView, l: LiteralView, operator: Seq<char>, r: LiteralView) -> Seq<
    char,
> {
    "Unsupported types for binary operation: "@ + literal_text(heap, l) + " "@ + operator + " "@
        + literal_text(heap, r)
}

/// The text of the error for an arithmetic result that cannot be
/// represented, which a division by zero is too.
pub open spec fn overflow_text(heap: HeapView, l: LiteralView, operator: Seq<char>, r: LiteralView) -> Seq<
    char,
> {
    "Result out of range for binary operation: "@ + literal_text(heap, l) + " "@ + operator + " "@
        + literal_text(heap, r)
}

/// The text of the error for the negation of what is no number.
pub open spec fn negation_text(heap: HeapView, v: LiteralView) -> Seq<char> {
    "Invalid attempt to perform numerical negation on non-number: "@ + literal_text(heap, v)
}

/// The text of the error for an operator that is no unary operator.
pub open spec fn unary_text(heap: HeapView, v: LiteralView, operator: Seq<char>) -> Seq<char> {
    "The value '"@ + literal_text(heap, v) + "' does not support the unary operation '"@ + operator
        + "'"@
}

/// The text of the error for an operator that is no logical operator.
pub open spec fn logical_text(operator: Seq<char>) -> Seq<char> {
    "Logical operation with non and/or token: "@ + operator
}

/// The value of a number as a flow: an error where the number could not
/// be represented.
pub open spec fn number_flow(
    heap: HeapView,
    n: Option<NumberView>,
    l: LiteralView,
    operator: Seq<char>,
    r: LiteralView,
) -> Flow {
    match n {
        Some(x) => Flow::Normal(LiteralView::Number(x)),
        None => Flow::Error(overflow_text(heap, l, operator, r)),
    }
}

/// The meaning of a binary operator on two values. Arithmetic and
/// ordering take two numbers, `+` also two strings, `==` and `!=` any two
/// values; everything else is an error that names the operator and the
/// operands. The budget is for comparing.
pub open spec fn binary(heap: HeapView, l: LiteralView, operator: Token, r: LiteralView, fuel: nat) -> Flow {
    let op = operator.token_type;
    match (l, r) {
        (LiteralView::Number(x), LiteralView::Number(y)) => match op {
            TokenType::Plus => number_flow(heap, number_sum(x, y), l, operator.lexeme@, r),
            TokenType::Minus => number_flow(heap, number_difference(x, y), l, operator.lexeme@, r),
            TokenType::Slash => number_flow(heap, number_quotient(x, y), l, operator.lexeme@, r),
            TokenType::Star => number_flow(heap, number_product(x, y), l, operator.lexeme@, r),
            TokenType::Greater => Flow::Normal(LiteralView::Boolean(number_less(y, x))),
            TokenType::GreaterEqual => Flow::Normal(LiteralView::Boolean(!number_less(x, y))),
            TokenType::Less => Flow::Normal(LiteralView::Boolean(number_less(x, y))),
            TokenType::LessEqual => Flow::Normal(LiteralView::Boolean(!number_less(y, x))),
            _ => equality(heap, l, operator, r, fuel),
        },
        (LiteralView::String(x), LiteralView::String(y)) => match op {
            TokenType::Plus => Flow::Normal(LiteralView::String(x + y)),
            _ => equality(heap, l, operator, r, fuel),
        },
        _ => equality(heap, l, operator, r, fuel),
    }
}

/// The meaning of `==` and `!=`, and the error for every operator that
/// does not fit its operands. Where comparing uses up the budget, so
/// does the operator.
pub open spec fn equality(heap: HeapView, l: LiteralView, operator: Token, r: LiteralView, fuel: nat) -> Flow {
    match operator.token_type {
        TokenType::EqualEqual => match values_equal(heap, l, r, fuel) {
            Some(b) => Flow::Normal(LiteralView::Boolean(b)),
            None => Flow::OutOfFuel,
        },
        TokenType::BangEqual => match values_equal(heap, l, r, fuel) {
            Some(b) => Flow::Normal(LiteralView::Boolean(!b)),
            None => Flow::OutOfFuel,
        },
        _ => Flow::Error(binary_text(heap, l, operator.lexeme@, r)),
    }
}

/// The number minus one, by which negation multiplies.
pub open spec fn minus_one() -> NumberView {
    NumberView { mantissa: -1, scale: 0 }
}

/// The meaning of a unary operator on a value.
pub open spec fn unary(heap: HeapView, operator: Token, v: LiteralView) -> Flow {
    match operator.token_type {
        TokenType::Bang => Flow::Normal(LiteralView::Boolean(!truthy(v))),
        TokenType::Minus => match v {
            LiteralView::Number(n) => match number_product(n, minus_one()) {
                Some(x) => Flow::Normal(LiteralView::Number(x)),
                None => Flow::Error(negation_text(heap, v)),
            },
            _ => Flow::Error(negation_text(heap, v)),
        },
        _ => Flow::Error(unary_text(heap, v, operator.lexeme@)),
    }
}

/// The value of the variable `name`, used at the node `id`, seen from
/// `env`: a local is found as many environments out as the resolver
/// counted scopes; a name that the resolver did not bind is a global.
pub open spec fn look_up(heap: HeapView, locals: Map<usize, usize>, env: EnvRef, id: usize, name: Seq<
    char,
>) -> Option<LiteralView> {
    if locals.contains_key(id) {
        heap.get_at_distance(env, locals[id] as nat, name)
    } else {
        heap.get_global(env, name)
    }
}

/// Reading a variable: its value, or an error that names it.
pub open spec fn read_variable(
    st: StateView,
    locals: Map<usize, usize>,
    env: EnvRef,
    id: usize,
    name: Seq<char>,
) -> Step {
    match look_up(st.heap, locals, env, id, name) {
        Some(v) => st.give(v),
        None => st.fail(undefined_text(name)),
    }
}

/// Assigning to a variable, used at the node `id`.
pub open spec fn assign_variable(
    st: StateView,
    locals: Map<usize, usize>,
    env: EnvRef,
    id: usize,
    name: Seq<char>,
    value: LiteralView,
) -> Step {
    let assigned = if locals.contains_key(id) {
        st.heap.assign_at_distance(env, locals[id] as nat, name, value)
    } else {
        st.heap.assign_global(env, name, value)
    };
    match assigned {
        Ok(h) => st.with_heap(h).give(value),
        Err(t) => st.fail(t),
    }
}

/// Reading a property of a value: only instances have properties.
pub open spec fn get_property(st: StateView, object: LiteralView, name: Seq<char>) -> Step {
    match object {
        LiteralView::ClassInstance(i) => match st.heap.get_value(i, name) {
            Ok(v) => st.with_heap(st.heap.after_get(i, name)).give(v),
            Err(t) => st.fail(t),
        },
        _ => st.fail("Only instances have properties."@),
    }
}

/// `super.method`: the method of the superclass, bound to `this`.
pub open spec fn super_method(
    st: StateView,
    locals: Map<usize, usize>,
    env: EnvRef,
    id: usize,
    method: Seq<char>,
) -> Step {
    if !locals.contains_key(id) || locals[id] == 0 {
        st.fail("Could not resolve 'super' when looking up superclass"@)
    } else {
        let distance = locals[id] as nat;
        match st.heap.get_at_distance(env, distance, "super"@) {
            Some(LiteralView::Callable(LoxCallableView { callable: CallableView::Class(class), .. })) => {
                match st.heap.get_at_distance(env, (distance - 1) as nat, "this"@) {
                    Some(LiteralView::ClassInstance(object)) => match class.find_method(method) {
                        Some(m) => st.with_heap(st.heap.bind(m, object)).give(
                            LiteralView::Callable(
                                LoxCallableView {
                                    name: method,
                                    callable: CallableView::Function(st.heap.bound(m)),
                                },
                            ),
                        ),
                        None => st.fail(undefined_property_text(method)),
                    },
                    _ => st.fail("Could not resolve 'this' when looking up superclass"@),
                }
            },
            _ => st.fail("Could not resolve 'super' when looking up superclass"@),
        }
    }
}

/// The heap after the parameters from position `i` on are bound to their
/// arguments in `env`.
pub open spec fn bind_params(heap: HeapView, env: EnvRef, params: Seq<Token>, args: Seq<LiteralView>, i: nat) -> HeapView
    decreases params.len() - i,
{
    if i >= params.len() || i >= args.len() {
        heap
    } else {
        bind_params(heap.define(env, params[i as int].lexeme@, args[i as int]), env, params, args, i + 1)
    }
}

/// What a method is bound to: what the environment that it closes over
/// holds for `this`.
pub open spec fn bound_instance(heap: HeapView, f: Function) -> Option<LiteralView> {
    heap.get_current(f.env, "this"@)
}

/// What an initializer gives: the instance that it is bound to.
pub open spec fn this_of(st: StateView, f: Function) -> Step {
    match bound_instance(st.heap, f) {
        Some(v) => st.give(v),
        None => st.fail(undefined_text("this"@)),
    }
}

/// The methods of a class, from the first `n` declarations: each closes
/// over `env`, and a later declaration of a name replaces an earlier one.
pub open spec fn methods_map(methods: Seq<Rc<FunctionStmt>>, env: EnvRef, n: nat) -> Map<Seq<char>, Function>
    decreases n,
{
    if n == 0 || n > methods.len() {
        Map::empty()
    } else {
        let m = methods[n - 1];
        methods_map(methods, env, (n - 1) as nat).insert(
            m.name.lexeme@,
            Function { declaration: m, env, is_initializer: m.name.lexeme@ == "init"@ },
        )
    }
}

/// The arguments of a call, evaluated so far, or how evaluating them
/// ended.
pub struct Arguments {
    pub state: StateView,
    pub values: Result<Seq<LiteralView>, Flow>,
}

/// Evaluating an expression.
pub open spec fn evaluate(st: StateView, locals: Map<usize, usize>, env: EnvRef, e: Expr, fuel: nat) -> Step
    decreases fuel, 2nat, e, 0nat,
{
    match e {
        Expr::Assign { id, name, value } => {
            let r = evaluate(st, locals, env, *value, fuel);
            match r.flow {
                Flow::Normal(v) => assign_variable(r.state, locals, env, id, name.lexeme@, v),
                _ => r,
            }
        },
        Expr::Binary { left, operator, right, .. } => {
            let l = evaluate(st, locals, env, *left, fuel);
            match l.flow {
                Flow::Normal(x) => {
                    let r = evaluate(l.state, locals, env, *right, fuel);
                    match r.flow {
                        Flow::Normal(y) => r.state.end(binary(r.state.heap, x, operator, y, fuel)),
                        _ => r,
                    }
                },
                _ => l,
            }
        },
        Expr::Call { callee, arguments, .. } => {
            let c = evaluate(st, locals, env, *callee, fuel);
            match c.flow {
                Flow::Normal(target) => {
                    let a = evaluate_arguments(c.state, locals, env, arguments, 0, Seq::empty(), fuel);
                    match a.values {
                        Ok(values) => match target {
                            LiteralView::Callable(callable) => call(a.state, locals, callable, values, fuel),
                            _ => a.state.fail("visit_call called with non function literal callee"@),
                        },
                        Err(flow) => a.state.end(flow),
                    }
                },
                _ => c,
            }
        },
        Expr::Get { object, name, .. } => {
            let o = evaluate(st, locals, env, *object, fuel);
            match o.flow {
                Flow::Normal(v) => get_property(o.state, v, name.lexeme@),
                _ => o,
            }
        },
        Expr::Grouping { expression, .. } => evaluate(st, locals, env, *expression, fuel),
        Expr::Literal { value, .. } => st.give(value@),
        Expr::Logical { left, operator, right, .. } => {
            let l = evaluate(st, locals, env, *left, fuel);
            match l.flow {
                Flow::Normal(x) => match operator.token_type {
                    TokenType::And => if truthy(x) {
                        evaluate(l.state, locals, env, *right, fuel)
                    } else {
                        l
                    },
                    TokenType::Or => if truthy(x) {
                        l
                    } else {
                        evaluate(l.state, locals, env, *right, fuel)
                    },
                    _ => l.state.fail(logical_text(operator.lexeme@)),
                },
                _ => l,
            }
        },
        Expr::SetField { object, name, value, .. } => {
            let o = evaluate(st, locals, env, *object, fuel);
            match o.flow {
                Flow::Normal(LiteralView::ClassInstance(i)) => {
                    let r = evaluate(o.state, locals, env, *value, fuel);
                    match r.flow {
                        Flow::Normal(v) => r.state.with_heap(r.state.heap.set_field(i, name.lexeme@, v)).give(v),
                        _ => r,
                    }
                },
                Flow::Normal(_) => o.state.fail("Only instances have fields."@),
                _ => o,
            }
        },
        Expr::Super { id, method, .. } => super_method(st, locals, env, id, method.lexeme@),
        Expr::This { id, keyword } => read_variable(st, locals, env, id, keyword.lexeme@),
        Expr::Unary { operator, right, .. } => {
            let r = evaluate(st, locals, env, *right, fuel);
            match r.flow {
                Flow::Normal(v) => r.state.end(unary(r.state.heap, operator, v)),
                _ => r,
            }
        },
        Expr::Variable(v) => read_variable(st, locals, env, v.id, v.name.lexeme@),
    }
}

/// Evaluating the arguments of a call from position `i` on, left to
/// right, after `done`.
pub open spec fn evaluate_arguments(
    st: StateView,
    locals: Map<usize, usize>,
    env: EnvRef,
    arguments: Vec<Expr>,
    i: nat,
    done: Seq<LiteralView>,
    fuel: nat,
) -> Arguments
    decreases fuel, 2nat, arguments, arguments.len() - i,
{
    if i >= arguments.len() {
        Arguments { state: st, values: Ok(done) }
    } else {
        let r = evaluate(st, locals, env, arguments[i as int], fuel);
        match r.flow {
            Flow::Normal(v) => evaluate_arguments(r.state, locals, env, arguments, i + 1, done.push(v), fuel),
            _ => Arguments { state: r.state, values: Err(r.flow) },
        }
    }
}

/// Calling a callable with the values of its arguments. A call with the
/// wrong number of arguments is an error and changes nothing.
pub open spec fn call(
    st: StateView,
    locals: Map<usize, usize>,
    callable: LoxCallableView,
    args: Seq<LiteralView>,
    fuel: nat,
) -> Step
    decreases fuel, 1nat,
{
    if callable.arity() != args.len() {
        st.fail(arity_text(callable.arity(), args.len()))
    } else {
        match callable.callable {
            CallableView::Class(class) => {
                let instance = st.heap.next_instance();
                let made = st.with_heap(st.heap.with_instance(class));
                match class.find_method("init"@) {
                    Some(init) => {
                        let r = call_function(
                            made.with_heap(made.heap.bind(init, instance)),
                            locals,
                            made.heap.bound(init),
                            args,
                            fuel,
                        );
                        match r.flow {
                            Flow::Normal(_) => r.state.give(LiteralView::ClassInstance(instance)),
                            _ => r,
                        }
                    },
                    None => made.give(LiteralView::ClassInstance(instance)),
                }
            },
            CallableView::Function(f) => call_function(st, locals, f, args, fuel),
            CallableView::Native(_) => st.read(),
        }
    }
}

/// Calling a function: its body runs in a new environment inside the one
/// that the function closes over, with the parameters bound to the
/// arguments. A `return` ends the call with its value, the end of the
/// body with `nil`. An initializer gives the instance that it is bound
/// to either way: what `this` is when the call begins, whatever the body
/// does.
pub open spec fn call_function(
    st: StateView,
    locals: Map<usize, usize>,
    f: Function,
    args: Seq<LiteralView>,
    fuel: nat,
) -> Step
    decreases fuel, 0nat,
{
    if fuel == 0 {
        st.end(Flow::OutOfFuel)
    } else if f.is_initializer && bound_instance(st.heap, f) is None {
        this_of(st, f)
    } else {
        let env = st.heap.next_env();
        let heap = bind_params(st.heap.with_env(Some(f.env)), env, f.declaration.params@, args, 0);
        let r = execute_block(st.with_heap(heap), locals, env, f.declaration.body, 0, (fuel - 1) as nat);
        match r.flow {
            Flow::Normal(_) => if f.is_initializer {
                r.state.give(bound_instance(st.heap, f)->Some_0)
            } else {
                r.state.give(LiteralView::Nil)
            },
            Flow::Return(v) => if f.is_initializer {
                r.state.give(bound_instance(st.heap, f)->Some_0)
            } else {
                r.state.give(v)
            },
            _ => r,
        }
    }
}

/// Running the statements of a list from position `i` on, in order, until
/// one does not end normally.
pub open spec fn execute_block(
    st: StateView,
    locals: Map<usize, usize>,
    env: EnvRef,
    statements: Vec<Stmt>,
    i: nat,
    fuel: nat,
) -> Step
    decreases fuel, 2nat, statements, statements.len() - i,
{
    if i >= statements.len() {
        st.give(LiteralView::Nil)
    } else {
        let r = execute(st, locals, env, statements[i as int], fuel);
        match r.flow {
            Flow::Normal(_) => execute_block(r.state, locals, env, statements, i + 1, fuel),
            _ => r,
        }
    }
}

/// Declaring a class.
pub open spec fn declare_class(
    st: StateView,
    env: EnvRef,
    name: Seq<char>,
    superclass: Option<LiteralView>,
    methods: Seq<Rc<FunctionStmt>>,
) -> Step {
    let named = st.heap.define(env, name, LiteralView::Nil);
    let method_env = if superclass is Some {
        named.next_env()
    } else {
        env
    };
    let heap = match superclass {
        Some(s) => named.with_env(Some(env)).define(method_env, "super"@, s),
        None => named,
    };
    let class = ClassView {
        name,
        superclass: match superclass {
            Some(LiteralView::Callable(LoxCallableView { callable: CallableView::Class(c), .. })) => Some(
                Box::new(c),
            ),
            _ => None,
        },
        methods: methods_map(methods, method_env, methods.len()),
    };
    let value = LiteralView::Callable(LoxCallableView { name, callable: CallableView::Class(class) });
    match heap.assign_current(env, name, value) {
        Ok(h) => st.with_heap(h).give(LiteralView::Nil),
        Err(t) => st.with_heap(heap).fail(t),
    }
}

/// Whether a value is a class.
pub open spec fn is_class(v: LiteralView) -> bool {
    v matches LiteralView::Callable(c) && c.callable is Class
}

/// Running a statement.
pub open spec fn execute(st: StateView, locals: Map<usize, usize>, env: EnvRef, s: Stmt, fuel: nat) -> Step
    decreases fuel, 2nat, s, 1nat,
{
    match s {
        Stmt::Block { statements, .. } => execute_block(
            st.with_heap(st.heap.with_env(Some(env))),
            locals,
            st.heap.next_env(),
            statements,
            0,
            fuel,
        ),
        Stmt::Class { name, superclass, methods, .. } => match superclass {
            Some(sup) => {
                let r = read_variable(st, locals, env, sup.id, sup.name.lexeme@);
                match r.flow {
                    Flow::Normal(v) => if is_class(v) {
                        declare_class(st, env, name.lexeme@, Some(v), methods@)
                    } else {
                        st.fail("Superclass must be a class."@)
                    },
                    _ => r,
                }
            },
            None => declare_class(st, env, name.lexeme@, None, methods@),
        },
        Stmt::Expression { expression, .. } => {
            let r = evaluate(st, locals, env, expression, fuel);
            match r.flow {
                Flow::Normal(_) => r.state.give(LiteralView::Nil),
                _ => r,
            }
        },
        Stmt::Function(f) => st.with_heap(
            st.heap.define(
                env,
                f.name.lexeme@,
                LiteralView::Callable(
                    LoxCallableView {
                        name: f.name.lexeme@,
                        callable: CallableView::Function(
                            Function { declaration: f, env, is_initializer: false },
                        ),
                    },
                ),
            ),
        ).give(LiteralView::Nil),
        Stmt::If { condition, then_branch, else_branch, .. } => {
            let c = evaluate(st, locals, env, condition, fuel);
            match c.flow {
                Flow::Normal(v) => if truthy(v) {
                    execute(c.state, locals, env, *then_branch, fuel)
                } else {
                    execute(c.state, locals, env, *else_branch, fuel)
                },
                _ => c,
            }
        },
        Stmt::Print { expression, .. } => {
            let r = evaluate(st, locals, env, expression, fuel);
            match r.flow {
                Flow::Normal(v) => StateView {
                    output: r.state.output.push(literal_text(r.state.heap, v)),
                    ..r.state
                }.give(LiteralView::Nil),
                _ => r,
            }
        },
        Stmt::Return { value, .. } => {
            let r = evaluate(st, locals, env, value, fuel);
            match r.flow {
                Flow::Normal(v) => r.state.end(Flow::Return(v)),
                _ => r,
            }
        },
        Stmt::Var { name, initializer, .. } => {
            let r = evaluate(st, locals, env, initializer, fuel);
            match r.flow {
                Flow::Normal(v) => r.state.with_heap(r.state.heap.define(env, name.lexeme@, v)).give(
                    LiteralView::Nil,
                ),
                _ => r,
            }
        },
        Stmt::While { .. } => run_while(st, locals, env, s, fuel),
    }
}

/// Running a loop: the condition is evaluated before every turn, and the
/// loop ends when it is not true or when the body does not end normally.
pub open spec fn run_while(st: StateView, locals: Map<usize, usize>, env: EnvRef, s: Stmt, fuel: nat) -> Step
    decreases fuel, 2nat, s, 0nat,
{
    match s {
        Stmt::While { condition, body, .. } => {
            let c = evaluate(st, locals, env, condition, fuel);
            match c.flow {
                Flow::Normal(v) => if truthy(v) {
                    let b = execute(c.state, locals, env, *body, fuel);
                    match b.flow {
                        Flow::Normal(_) => if fuel == 0 {
                            b.state.end(Flow::OutOfFuel)
                        } else {
                            run_while(b.state, locals, env, s, (fuel - 1) as nat)
                        },
                        _ => b,
                    }
                } else {
                    c.state.give(LiteralView::Nil)
                },
                _ => c,
            }
        },
        _ => st.give(LiteralView::Nil),
    }
}

} // verus!
