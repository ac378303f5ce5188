//! A larger budget changes nothing.
//!
//! The budget only bounds a run. A run that ends within a budget, and a
//! comparison that finds its answer within a budget, end the same within
//! every larger one. So what a program does, where it does anything at
//! all, does not depend on the budget.

use vstd::prelude::*;
use crate::ast::{Expr, Stmt};
use crate::environment::HeapView;
use crate::equality::{
    all, binding_answers, bindings_equal, both, callables_equal, classes_equal, envs_equal,
    functions_equal, instances_equal, method_answers, methods_equal, values_equal,
};
use crate::semantics::{
    binary, call, call_function, evaluate, evaluate_arguments, execute, execute_block, run_while,
    truthy, Flow, StateView,
};
use crate::stability::body_of;
use crate::tokens::{
    CallableView, ClassView, EnvRef, Function, LiteralView, LoxCallableView, LoxInstance, Token,
    TokenType,
};

verus! {

/// An answer that a comparison of two values found stays with a larger
/// budget.
pub proof fn law_values_equal_with_more(heap: HeapView, a: LiteralView, b: LiteralView, fuel: nat, more: nat)
    requires
        fuel <= more,
        values_equal(heap, a, b, fuel) is Some,
    ensures
        values_equal(heap, a, b, more) == values_equal(heap, a, b, fuel),
    decreases fuel, 8nat,
{
    match (a, b) {
        (LiteralView::ClassInstance(x), LiteralView::ClassInstance(y)) => {
            law_instances_equal_with_more(heap, x, y, fuel, more);
        },
        (LiteralView::Callable(x), LiteralView::Callable(y)) => {
            if x.name == y.name {
                law_callables_equal_with_more(heap, x.callable, y.callable, fuel, more);
            }
        },
        _ => {},
    }
}

/// The same for two callables.
pub proof fn law_callables_equal_with_more(
    heap: HeapView,
    x: CallableView,
    y: CallableView,
    fuel: nat,
    more: nat,
)
    requires
        fuel <= more,
        callables_equal(heap, x, y, fuel) is Some,
    ensures
        callables_equal(heap, x, y, more) == callables_equal(heap, x, y, fuel),
    decreases fuel, 7nat,
{
    match (x, y) {
        (CallableView::Class(c), CallableView::Class(d)) => {
            law_classes_equal_with_more(heap, c, d, fuel, more);
        },
        (CallableView::Function(f), CallableView::Function(g)) => {
            law_functions_equal_with_more(heap, f, g, fuel, more);
        },
        _ => {},
    }
}

/// The same for two comparisons at once: where both have an answer, or
/// one says unequal, the answer of the two stays.
pub proof fn law_both_with_more(a: Option<bool>, b: Option<bool>, a2: Option<bool>, b2: Option<bool>)
    requires
        a is Some ==> a2 == a,
        b is Some ==> b2 == b,
        both(a, b) is Some,
    ensures
        both(a2, b2) == both(a, b),
{
}

/// The same for two instances.
pub proof fn law_instances_equal_with_more(
    heap: HeapView,
    x: LoxInstance,
    y: LoxInstance,
    fuel: nat,
    more: nat,
)
    requires
        fuel <= more,
        instances_equal(heap, x, y, fuel) is Some,
    ensures
        instances_equal(heap, x, y, more) == instances_equal(heap, x, y, fuel),
    decreases fuel, 7nat,
{
    if x != y && heap.has_instance(x) && heap.has_instance(y) && fuel > 0 {
        let a = heap.instances[x.index as int];
        let b = heap.instances[y.index as int];
        let f = (fuel - 1) as nat;
        let m = (more - 1) as nat;
        if classes_equal(heap, a.class, b.class, f) is Some {
            law_classes_equal_with_more(heap, a.class, b.class, f, m);
        }
        if bindings_equal(heap, a.fields, b.fields, f) is Some {
            law_bindings_equal_with_more(heap, a.fields, b.fields, f, m);
        }
        law_both_with_more(
            classes_equal(heap, a.class, b.class, f),
            bindings_equal(heap, a.fields, b.fields, f),
            classes_equal(heap, a.class, b.class, m),
            bindings_equal(heap, a.fields, b.fields, m),
        );
    }
}

/// The same for two classes.
pub proof fn law_classes_equal_with_more(heap: HeapView, c: ClassView, d: ClassView, fuel: nat, more: nat)
    requires
        fuel <= more,
        classes_equal(heap, c, d, fuel) is Some,
    ensures
        classes_equal(heap, c, d, more) == classes_equal(heap, c, d, fuel),
    decreases fuel, 6nat, c,
{
    if c.name == d.name {
        if methods_equal(heap, c.methods, d.methods, fuel) is Some {
            law_methods_equal_with_more(heap, c.methods, d.methods, fuel, more);
        }
        let parents = match (c.superclass, d.superclass) {
            (Some(x), Some(y)) => classes_equal(heap, *x, *y, fuel),
            (None, None) => Some(true),
            _ => Some(false),
        };
        let parents_more = match (c.superclass, d.superclass) {
            (Some(x), Some(y)) => classes_equal(heap, *x, *y, more),
            (None, None) => Some(true),
            _ => Some(false),
        };
        match (c.superclass, d.superclass) {
            (Some(x), Some(y)) => {
                if classes_equal(heap, *x, *y, fuel) is Some {
                    law_classes_equal_with_more(heap, *x, *y, fuel, more);
                }
            },
            _ => {},
        }
        law_both_with_more(
            methods_equal(heap, c.methods, d.methods, fuel),
            parents,
            methods_equal(heap, c.methods, d.methods, more),
            parents_more,
        );
    }
}

/// The same for many comparisons at once.
pub proof fn law_all_with_more(
    answers: Map<Seq<char>, Option<bool>>,
    later: Map<Seq<char>, Option<bool>>,
)
    requires
        answers.dom() == later.dom(),
        forall|k: Seq<char>|
            answers.contains_key(k) && (#[trigger] answers[k]) is Some ==> later[k] == answers[k],
        all(answers) is Some,
    ensures
        all(later) == all(answers),
{
    if all(answers) == Some(false) {
        let k = choose|k: Seq<char>| answers.contains_key(k) && #[trigger] answers[k] == Some(false);
        assert(later.contains_key(k) && later[k] == Some(false));
    } else {
        assert forall|k: Seq<char>| later.contains_key(k) implies #[trigger] later[k] == Some(
            true,
        ) by {
            assert(answers.contains_key(k));
            assert(answers[k] is Some);
            assert(answers[k] != Some(false));
        }
    }
}

/// The same for two method tables.
pub proof fn law_methods_equal_with_more(
    heap: HeapView,
    m1: Map<Seq<char>, Function>,
    m2: Map<Seq<char>, Function>,
    fuel: nat,
    more: nat,
)
    requires
        fuel <= more,
        methods_equal(heap, m1, m2, fuel) is Some,
    ensures
        methods_equal(heap, m1, m2, more) == methods_equal(heap, m1, m2, fuel),
    decreases fuel, 5nat,
{
    if m1.dom() == m2.dom() {
        let answers = method_answers(heap, m1, m2, fuel);
        let later = method_answers(heap, m1, m2, more);
        assert(answers.dom() =~= later.dom());
        assert forall|k: Seq<char>|
            answers.contains_key(k) && (#[trigger] answers[k]) is Some implies later[k]
            == answers[k] by {
            law_functions_equal_with_more(heap, m1[k], m2[k], fuel, more);
        }
        law_all_with_more(answers, later);
    }
}

/// The same for two functions.
pub proof fn law_functions_equal_with_more(heap: HeapView, f: Function, g: Function, fuel: nat, more: nat)
    requires
        fuel <= more,
        functions_equal(heap, f, g, fuel) is Some,
    ensures
        functions_equal(heap, f, g, more) == functions_equal(heap, f, g, fuel),
    decreases fuel, 3nat,
{
    if !(f.declaration.id != g.declaration.id || f.is_initializer != g.is_initializer) {
        law_envs_equal_with_more(heap, f.env, g.env, fuel, more);
    }
}

/// The same for two environments.
pub proof fn law_envs_equal_with_more(heap: HeapView, x: EnvRef, y: EnvRef, fuel: nat, more: nat)
    requires
        fuel <= more,
        envs_equal(heap, x, y, fuel) is Some,
    ensures
        envs_equal(heap, x, y, more) == envs_equal(heap, x, y, fuel),
    decreases fuel, 2nat,
{
    if x != y && heap.has_env(x) && heap.has_env(y) && fuel > 0 {
        let a = heap.environments[x.index as int];
        let b = heap.environments[y.index as int];
        let f = (fuel - 1) as nat;
        let m = (more - 1) as nat;
        if bindings_equal(heap, a.values, b.values, f) is Some {
            law_bindings_equal_with_more(heap, a.values, b.values, f, m);
        }
        let outer = match (a.enclosing, b.enclosing) {
            (Some(p), Some(q)) => envs_equal(heap, p, q, f),
            (None, None) => Some(true),
            _ => Some(false),
        };
        let outer_more = match (a.enclosing, b.enclosing) {
            (Some(p), Some(q)) => envs_equal(heap, p, q, m),
            (None, None) => Some(true),
            _ => Some(false),
        };
        match (a.enclosing, b.enclosing) {
            (Some(p), Some(q)) => {
                if envs_equal(heap, p, q, f) is Some {
                    law_envs_equal_with_more(heap, p, q, f, m);
                }
            },
            _ => {},
        }
        law_both_with_more(
            bindings_equal(heap, a.values, b.values, f),
            outer,
            bindings_equal(heap, a.values, b.values, m),
            outer_more,
        );
    }
}

/// The same for two sets of bindings.
pub proof fn law_bindings_equal_with_more(
    heap: HeapView,
    m1: Map<Seq<char>, LiteralView>,
    m2: Map<Seq<char>, LiteralView>,
    fuel: nat,
    more: nat,
)
    requires
        fuel <= more,
        bindings_equal(heap, m1, m2, fuel) is Some,
    ensures
        bindings_equal(heap, m1, m2, more) == bindings_equal(heap, m1, m2, fuel),
    decreases fuel, 10nat,
{
    if m1.dom() == m2.dom() {
        let answers = binding_answers(heap, m1, m2, fuel);
        let later = binding_answers(heap, m1, m2, more);
        assert(answers.dom() =~= later.dom());
        assert forall|k: Seq<char>|
            answers.contains_key(k) && (#[trigger] answers[k]) is Some implies later[k]
            == answers[k] by {
            law_values_equal_with_more(heap, m1[k], m2[k], fuel, more);
        }
        law_all_with_more(answers, later);
    }
}

/// A binary operator that found its result finds the same with a larger
/// budget.
pub proof fn law_binary_with_more(
    heap: HeapView,
    l: LiteralView,
    operator: Token,
    r: LiteralView,
    fuel: nat,
    more: nat,
)
    requires
        fuel <= more,
        !(binary(heap, l, operator, r, fuel) is OutOfFuel),
    ensures
        binary(heap, l, operator, r, more) == binary(heap, l, operator, r, fuel),
{
    if operator.token_type == TokenType::EqualEqual || operator.token_type == TokenType::BangEqual {
        if values_equal(heap, l, r, fuel) is Some {
            law_values_equal_with_more(heap, l, r, fuel, more);
        }
    }
}

/// An expression that is evaluated within a budget evaluates the same
/// within every larger one.
pub proof fn law_evaluate_with_more_fuel(
    st: StateView,
    locals: Map<usize, usize>,
    env: EnvRef,
    e: Expr,
    fuel: nat,
    more: nat,
)
    requires
        fuel <= more,
        !(evaluate(st, locals, env, e, fuel).flow is OutOfFuel),
    ensures
        evaluate(st, locals, env, e, more) == evaluate(st, locals, env, e, fuel),
    decreases fuel, 2nat, e, 0nat,
{
    match e {
        Expr::Assign { value, .. } => {
            law_evaluate_with_more_fuel(st, locals, env, *value, fuel, more);
        },
        Expr::Binary { left, operator, right, .. } => {
            law_evaluate_with_more_fuel(st, locals, env, *left, fuel, more);
            let l = evaluate(st, locals, env, *left, fuel);
            if let Flow::Normal(x) = l.flow {
                law_evaluate_with_more_fuel(l.state, locals, env, *right, fuel, more);
                let r = evaluate(l.state, locals, env, *right, fuel);
                if let Flow::Normal(y) = r.flow {
                    law_binary_with_more(r.state.heap, x, operator, y, fuel, more);
                }
            }
        },
        Expr::Call { callee, arguments, .. } => {
            law_evaluate_with_more_fuel(st, locals, env, *callee, fuel, more);
            let c = evaluate(st, locals, env, *callee, fuel);
            if let Flow::Normal(target) = c.flow {
                law_arguments_with_more_fuel(
                    c.state,
                    locals,
                    env,
                    arguments,
                    0,
                    Seq::empty(),
                    fuel,
                    more,
                );
                let a = evaluate_arguments(c.state, locals, env, arguments, 0, Seq::empty(), fuel);
                if let Ok(values) = a.values {
                    if let LiteralView::Callable(callable) = target {
                        law_call_with_more_fuel(a.state, locals, callable, values, fuel, more);
                    }
                }
            }
        },
        Expr::Get { object, .. } => {
            law_evaluate_with_more_fuel(st, locals, env, *object, fuel, more);
        },
        Expr::Grouping { expression, .. } => {
            law_evaluate_with_more_fuel(st, locals, env, *expression, fuel, more);
        },
        Expr::Literal { .. } => {},
        Expr::Logical { left, operator, right, .. } => {
            law_evaluate_with_more_fuel(st, locals, env, *left, fuel, more);
            let l = evaluate(st, locals, env, *left, fuel);
            if let Flow::Normal(x) = l.flow {
                let wanted = match operator.token_type {
                    TokenType::And => truthy(x),
                    TokenType::Or => !truthy(x),
                    _ => false,
                };
                if wanted {
                    law_evaluate_with_more_fuel(l.state, locals, env, *right, fuel, more);
                }
            }
        },
        Expr::SetField { object, value, .. } => {
            law_evaluate_with_more_fuel(st, locals, env, *object, fuel, more);
            let o = evaluate(st, locals, env, *object, fuel);
            if let Flow::Normal(LiteralView::ClassInstance(_)) = o.flow {
                law_evaluate_with_more_fuel(o.state, locals, env, *value, fuel, more);
            }
        },
        Expr::Super { .. } => {},
        Expr::This { .. } => {},
        Expr::Unary { right, .. } => {
            law_evaluate_with_more_fuel(st, locals, env, *right, fuel, more);
        },
        Expr::Variable(_) => {},
    }
}

/// The same for the arguments of a call.
pub proof fn law_arguments_with_more_fuel(
    st: StateView,
    locals: Map<usize, usize>,
    env: EnvRef,
    arguments: Vec<Expr>,
    i: nat,
    done: Seq<LiteralView>,
    fuel: nat,
    more: nat,
)
    requires
        fuel <= more,
        !(evaluate_arguments(st, locals, env, arguments, i, done, fuel).values matches Err(
            Flow::OutOfFuel,
        )),
    ensures
        evaluate_arguments(st, locals, env, arguments, i, done, more) == evaluate_arguments(
            st,
            locals,
            env,
            arguments,
            i,
            done,
            fuel,
        ),
    decreases fuel, 2nat, arguments, arguments.len() - i,
{
    if i < arguments.len() {
        law_evaluate_with_more_fuel(st, locals, env, arguments[i as int], fuel, more);
        let r = evaluate(st, locals, env, arguments[i as int], fuel);
        if let Flow::Normal(v) = r.flow {
            law_arguments_with_more_fuel(
                r.state,
                locals,
                env,
                arguments,
                i + 1,
                done.push(v),
                fuel,
                more,
            );
        }
    }
}

/// The same for a call.
pub proof fn law_call_with_more_fuel(
    st: StateView,
    locals: Map<usize, usize>,
    callable: LoxCallableView,
    args: Seq<LiteralView>,
    fuel: nat,
    more: nat,
)
    requires
        fuel <= more,
        !(call(st, locals, callable, args, fuel).flow is OutOfFuel),
    ensures
        call(st, locals, callable, args, more) == call(st, locals, callable, args, fuel),
    decreases fuel, 1nat,
{
    if callable.arity() == args.len() {
        match callable.callable {
            CallableView::Class(class) => {
                let instance = st.heap.next_instance();
                let made = st.with_heap(st.heap.with_instance(class));
                if let Some(init) = class.find_method("init"@) {
                    let bound = made.with_heap(made.heap.bind(init, instance));
                    law_call_function_with_more_fuel(
                        bound,
                        locals,
                        made.heap.bound(init),
                        args,
                        fuel,
                        more,
                    );
                }
            },
            CallableView::Function(f) => {
                law_call_function_with_more_fuel(st, locals, f, args, fuel, more);
            },
            CallableView::Native(_) => {},
        }
    }
}

/// The same for a call of a function.
pub proof fn law_call_function_with_more_fuel(
    st: StateView,
    locals: Map<usize, usize>,
    f: Function,
    args: Seq<LiteralView>,
    fuel: nat,
    more: nat,
)
    requires
        fuel <= more,
        !(call_function(st, locals, f, args, fuel).flow is OutOfFuel),
    ensures
        call_function(st, locals, f, args, more) == call_function(st, locals, f, args, fuel),
    decreases fuel, 0nat,
{
    if fuel > 0 && !(f.is_initializer && crate::semantics::bound_instance(st.heap, f) is None) {
        let env = st.heap.next_env();
        let heap = crate::semantics::bind_params(
            st.heap.with_env(Some(f.env)),
            env,
            f.declaration.params@,
            args,
            0,
        );
        law_block_with_more_fuel(
            st.with_heap(heap),
            locals,
            env,
            body_of(f),
            0,
            (fuel - 1) as nat,
            (more - 1) as nat,
        );
    }
}

/// The same for the statements of a list.
pub proof fn law_block_with_more_fuel(
    st: StateView,
    locals: Map<usize, usize>,
    env: EnvRef,
    statements: Vec<Stmt>,
    i: nat,
    fuel: nat,
    more: nat,
)
    requires
        fuel <= more,
        !(execute_block(st, locals, env, statements, i, fuel).flow is OutOfFuel),
    ensures
        execute_block(st, locals, env, statements, i, more) == execute_block(
            st,
            locals,
            env,
            statements,
            i,
            fuel,
        ),
    decreases fuel, 2nat, statements, statements.len() - i,
{
    if i < statements.len() {
        law_execute_with_more_fuel(st, locals, env, statements[i as int], fuel, more);
        let r = execute(st, locals, env, statements[i as int], fuel);
        if r.flow is Normal {
            law_block_with_more_fuel(r.state, locals, env, statements, i + 1, fuel, more);
        }
    }
}

/// A statement that runs to its end within a budget runs the same within
/// every larger one.
pub proof fn law_execute_with_more_fuel(
    st: StateView,
    locals: Map<usize, usize>,
    env: EnvRef,
    s: Stmt,
    fuel: nat,
    more: nat,
)
    requires
        fuel <= more,
        !(execute(st, locals, env, s, fuel).flow is OutOfFuel),
    ensures
        execute(st, locals, env, s, more) == execute(st, locals, env, s, fuel),
    decreases fuel, 2nat, s, 1nat,
{
    match s {
        Stmt::Block { statements, .. } => {
            law_block_with_more_fuel(
                st.with_heap(st.heap.with_env(Some(env))),
                locals,
                st.heap.next_env(),
                statements,
                0,
                fuel,
                more,
            );
        },
        Stmt::Class { .. } => {},
        Stmt::Expression { expression, .. } => {
            law_evaluate_with_more_fuel(st, locals, env, expression, fuel, more);
        },
        Stmt::Function(_) => {},
        Stmt::If { condition, then_branch, else_branch, .. } => {
            law_evaluate_with_more_fuel(st, locals, env, condition, fuel, more);
            let c = evaluate(st, locals, env, condition, fuel);
            if let Flow::Normal(v) = c.flow {
                if truthy(v) {
                    law_execute_with_more_fuel(c.state, locals, env, *then_branch, fuel, more);
                } else {
                    law_execute_with_more_fuel(c.state, locals, env, *else_branch, fuel, more);
                }
            }
        },
        Stmt::Print { expression, .. } => {
            law_evaluate_with_more_fuel(st, locals, env, expression, fuel, more);
        },
        Stmt::Return { value, .. } => {
            law_evaluate_with_more_fuel(st, locals, env, value, fuel, more);
        },
        Stmt::Var { initializer, .. } => {
            law_evaluate_with_more_fuel(st, locals, env, initializer, fuel, more);
        },
        Stmt::While { .. } => {
            law_while_with_more_fuel(st, locals, env, s, fuel, more);
        },
    }
}

/// The same for a loop.
pub proof fn law_while_with_more_fuel(
    st: StateView,
    locals: Map<usize, usize>,
    env: EnvRef,
    s: Stmt,
    fuel: nat,
    more: nat,
)
    requires
        fuel <= more,
        !(run_while(st, locals, env, s, fuel).flow is OutOfFuel),
    ensures
        run_while(st, locals, env, s, more) == run_while(st, locals, env, s, fuel),
    decreases fuel, 2nat, s, 0nat,
{
    if let Stmt::While { condition, body, .. } = s {
        law_evaluate_with_more_fuel(st, locals, env, condition, fuel, more);
        let c = evaluate(st, locals, env, condition, fuel);
        if let Flow::Normal(v) = c.flow {
            if truthy(v) {
                law_execute_with_more_fuel(c.state, locals, env, *body, fuel, more);
                let b = execute(c.state, locals, env, *body, fuel);
                if b.flow is Normal && fuel > 0 {
                    law_while_with_more_fuel(
                        b.state,
                        locals,
                        env,
                        s,
                        (fuel - 1) as nat,
                        (more - 1) as nat,
                    );
                }
            }
        }
    }
}

} // verus!
