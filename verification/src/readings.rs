//! More readings change nothing.
//!
//! A run takes the readings of the host in order. A run that found every
//! reading it asked for never looked behind the last one it took, so it
//! does the same where more readings follow.

use vstd::prelude::*;
use crate::ast::{Expr, Stmt};
use crate::semantics::{
    call, call_function, evaluate, evaluate_arguments, execute, execute_block, run_while, truthy,
    Arguments, Flow, StateView, Step,
};
use crate::stability::{body_of, law_arguments_grow, law_evaluate_grows, law_execute_grows};
use crate::tokens::{CallableView, EnvRef, Function, LiteralView, LoxCallableView};

verus! {

/// The same step, where the host gives `readings`.
pub open spec fn with_readings(step: Step, readings: Seq<LiteralView>) -> Step {
    Step { state: step.state.with_readings(readings), flow: step.flow }
}

/// A sequence that begins with one that begins with a third begins with
/// the third.
pub proof fn law_prefix_is_transitive<A>(a: Seq<A>, b: Seq<A>, c: Seq<A>)
    requires
        a.is_prefix_of(b),
        b.is_prefix_of(c),
    ensures
        a.is_prefix_of(c),
{
    assert(a =~= c.subrange(0, a.len() as int)) by {
        assert forall|i: int| 0 <= i < a.len() implies a[i] == c[i] by {
            assert(a[i] == b.subrange(0, a.len() as int)[i]);
            assert(b[i] == c.subrange(0, b.len() as int)[i]);
        }
    }
}

/// An expression that found its readings evaluates the same where more
/// readings follow.
pub proof fn law_evaluate_with_more(
    st: StateView,
    locals: Map<usize, usize>,
    env: EnvRef,
    e: Expr,
    fuel: nat,
    more: Seq<LiteralView>,
)
    requires
        st.readings.is_prefix_of(more),
        !(evaluate(st, locals, env, e, fuel).flow is Starved),
    ensures
        evaluate(st.with_readings(more), locals, env, e, fuel) == with_readings(
            evaluate(st, locals, env, e, fuel),
            more,
        ),
    decreases fuel, 2nat, e, 0nat,
{
    let wide = st.with_readings(more);
    match e {
        Expr::Assign { value, .. } => {
            law_evaluate_with_more(st, locals, env, *value, fuel, more);
        },
        Expr::Binary { left, right, .. } => {
            law_evaluate_with_more(st, locals, env, *left, fuel, more);
            let l = evaluate(st, locals, env, *left, fuel);
            if l.flow is Normal {
                law_evaluate_grows(st, locals, env, *left, fuel);
                law_evaluate_with_more(l.state, locals, env, *right, fuel, more);
            }
        },
        Expr::Call { callee, arguments, .. } => {
            law_evaluate_with_more(st, locals, env, *callee, fuel, more);
            let c = evaluate(st, locals, env, *callee, fuel);
            if let Flow::Normal(target) = c.flow {
                law_evaluate_grows(st, locals, env, *callee, fuel);
                law_arguments_with_more(c.state, locals, env, arguments, 0, Seq::empty(), fuel, more);
                let a = evaluate_arguments(c.state, locals, env, arguments, 0, Seq::empty(), fuel);
                if let Ok(values) = a.values {
                    if let LiteralView::Callable(callable) = target {
                        law_arguments_grow(c.state, locals, env, arguments, 0, Seq::empty(), fuel);
                        law_call_with_more(a.state, locals, callable, values, fuel, more);
                    }
                }
            }
        },
        Expr::Get { object, .. } => {
            law_evaluate_with_more(st, locals, env, *object, fuel, more);
        },
        Expr::Grouping { expression, .. } => {
            law_evaluate_with_more(st, locals, env, *expression, fuel, more);
        },
        Expr::Literal { .. } => {},
        Expr::Logical { left, operator, right, .. } => {
            law_evaluate_with_more(st, locals, env, *left, fuel, more);
            let l = evaluate(st, locals, env, *left, fuel);
            if let Flow::Normal(x) = l.flow {
                let wanted = match operator.token_type {
                    crate::tokens::TokenType::And => truthy(x),
                    crate::tokens::TokenType::Or => !truthy(x),
                    _ => false,
                };
                if wanted {
                    law_evaluate_grows(st, locals, env, *left, fuel);
                    law_evaluate_with_more(l.state, locals, env, *right, fuel, more);
                }
            }
        },
        Expr::SetField { object, value, .. } => {
            law_evaluate_with_more(st, locals, env, *object, fuel, more);
            let o = evaluate(st, locals, env, *object, fuel);
            if let Flow::Normal(LiteralView::ClassInstance(_)) = o.flow {
                law_evaluate_grows(st, locals, env, *object, fuel);
                law_evaluate_with_more(o.state, locals, env, *value, fuel, more);
            }
        },
        Expr::Super { .. } => {},
        Expr::This { .. } => {},
        Expr::Unary { right, .. } => {
            law_evaluate_with_more(st, locals, env, *right, fuel, more);
        },
        Expr::Variable(_) => {},
    }
}

/// The same step for the arguments of a call, where the host gives
/// `readings`.
pub open spec fn arguments_with_readings(a: Arguments, readings: Seq<LiteralView>) -> Arguments {
    Arguments { state: a.state.with_readings(readings), values: a.values }
}

/// Arguments that found their readings evaluate the same where more
/// readings follow.
pub proof fn law_arguments_with_more(
    st: StateView,
    locals: Map<usize, usize>,
    env: EnvRef,
    arguments: Vec<Expr>,
    i: nat,
    done: Seq<LiteralView>,
    fuel: nat,
    more: Seq<LiteralView>,
)
    requires
        st.readings.is_prefix_of(more),
        !(evaluate_arguments(st, locals, env, arguments, i, done, fuel).values matches Err(
            Flow::Starved,
        )),
    ensures
        evaluate_arguments(st.with_readings(more), locals, env, arguments, i, done, fuel)
            == arguments_with_readings(
            evaluate_arguments(st, locals, env, arguments, i, done, fuel),
            more,
        ),
    decreases fuel, 2nat, arguments, arguments.len() - i,
{
    if i < arguments.len() {
        law_evaluate_with_more(st, locals, env, arguments[i as int], fuel, more);
        let r = evaluate(st, locals, env, arguments[i as int], fuel);
        if let Flow::Normal(v) = r.flow {
            law_evaluate_grows(st, locals, env, arguments[i as int], fuel);
            law_arguments_with_more(r.state, locals, env, arguments, i + 1, done.push(v), fuel, more);
        }
    }
}

/// A call that found its readings does the same where more readings
/// follow.
pub proof fn law_call_with_more(
    st: StateView,
    locals: Map<usize, usize>,
    callable: LoxCallableView,
    args: Seq<LiteralView>,
    fuel: nat,
    more: Seq<LiteralView>,
)
    requires
        st.readings.is_prefix_of(more),
        !(call(st, locals, callable, args, fuel).flow is Starved),
    ensures
        call(st.with_readings(more), locals, callable, args, fuel) == with_readings(
            call(st, locals, callable, args, fuel),
            more,
        ),
    decreases fuel, 1nat,
{
    if callable.arity() == args.len() {
        match callable.callable {
            CallableView::Class(class) => {
                let instance = st.heap.next_instance();
                let made = st.with_heap(st.heap.with_instance(class));
                if let Some(init) = class.find_method("init"@) {
                    let bound = made.with_heap(made.heap.bind(init, instance));
                    law_call_function_with_more(bound, locals, made.heap.bound(init), args, fuel, more);
                }
            },
            CallableView::Function(f) => {
                law_call_function_with_more(st, locals, f, args, fuel, more);
            },
            CallableView::Native(_) => {
                assert(st.readings[st.taken as int] == more.subrange(0, st.readings.len() as int)[st.taken as int]);
            },
        }
    }
}

/// A call of a function that found its readings does the same where more
/// readings follow.
pub proof fn law_call_function_with_more(
    st: StateView,
    locals: Map<usize, usize>,
    f: Function,
    args: Seq<LiteralView>,
    fuel: nat,
    more: Seq<LiteralView>,
)
    requires
        st.readings.is_prefix_of(more),
        !(call_function(st, locals, f, args, fuel).flow is Starved),
    ensures
        call_function(st.with_readings(more), locals, f, args, fuel) == with_readings(
            call_function(st, locals, f, args, fuel),
            more,
        ),
    decreases fuel, 0nat,
{
    if fuel > 0 && !(f.is_initializer && crate::semantics::bound_instance(st.heap, f) is None) {
        let env = st.heap.next_env();
        let heap = crate::semantics::bind_params(
            st.heap.with_env(Some(f.env)),
            env,
            f.declaration.params@,
            args,
            0,
        );
        law_block_with_more(st.with_heap(heap), locals, env, body_of(f), 0, (fuel - 1) as nat, more);
    }
}

/// Statements that found their readings run the same where more
/// readings follow.
pub proof fn law_block_with_more(
    st: StateView,
    locals: Map<usize, usize>,
    env: EnvRef,
    statements: Vec<Stmt>,
    i: nat,
    fuel: nat,
    more: Seq<LiteralView>,
)
    requires
        st.readings.is_prefix_of(more),
        !(execute_block(st, locals, env, statements, i, fuel).flow is Starved),
    ensures
        execute_block(st.with_readings(more), locals, env, statements, i, fuel) == with_readings(
            execute_block(st, locals, env, statements, i, fuel),
            more,
        ),
    decreases fuel, 2nat, statements, statements.len() - i,
{
    if i < statements.len() {
        law_execute_with_more(st, locals, env, statements[i as int], fuel, more);
        let r = execute(st, locals, env, statements[i as int], fuel);
        if r.flow is Normal {
            law_execute_grows(st, locals, env, statements[i as int], fuel);
            law_block_with_more(r.state, locals, env, statements, i + 1, fuel, more);
        }
    }
}

/// A statement that found its readings runs the same where more
/// readings follow.
pub proof fn law_execute_with_more(
    st: StateView,
    locals: Map<usize, usize>,
    env: EnvRef,
    s: Stmt,
    fuel: nat,
    more: Seq<LiteralView>,
)
    requires
        st.readings.is_prefix_of(more),
        !(execute(st, locals, env, s, fuel).flow is Starved),
    ensures
        execute(st.with_readings(more), locals, env, s, fuel) == with_readings(
            execute(st, locals, env, s, fuel),
            more,
        ),
    decreases fuel, 2nat, s, 1nat,
{
    match s {
        Stmt::Block { statements, .. } => {
            law_block_with_more(
                st.with_heap(st.heap.with_env(Some(env))),
                locals,
                st.heap.next_env(),
                statements,
                0,
                fuel,
                more,
            );
        },
        Stmt::Class { .. } => {},
        Stmt::Expression { expression, .. } => {
            law_evaluate_with_more(st, locals, env, expression, fuel, more);
        },
        Stmt::Function(_) => {},
        Stmt::If { condition, then_branch, else_branch, .. } => {
            law_evaluate_with_more(st, locals, env, condition, fuel, more);
            let c = evaluate(st, locals, env, condition, fuel);
            if let Flow::Normal(v) = c.flow {
                law_evaluate_grows(st, locals, env, condition, fuel);
                if truthy(v) {
                    law_execute_with_more(c.state, locals, env, *then_branch, fuel, more);
                } else {
                    law_execute_with_more(c.state, locals, env, *else_branch, fuel, more);
                }
            }
        },
        Stmt::Print { expression, .. } => {
            law_evaluate_with_more(st, locals, env, expression, fuel, more);
        },
        Stmt::Return { value, .. } => {
            law_evaluate_with_more(st, locals, env, value, fuel, more);
        },
        Stmt::Var { initializer, .. } => {
            law_evaluate_with_more(st, locals, env, initializer, fuel, more);
        },
        Stmt::While { .. } => {
            law_while_with_more(st, locals, env, s, fuel, more);
        },
    }
}

/// A loop that found its readings runs the same where more readings
/// follow.
pub proof fn law_while_with_more(
    st: StateView,
    locals: Map<usize, usize>,
    env: EnvRef,
    s: Stmt,
    fuel: nat,
    more: Seq<LiteralView>,
)
    requires
        st.readings.is_prefix_of(more),
        !(run_while(st, locals, env, s, fuel).flow is Starved),
    ensures
        run_while(st.with_readings(more), locals, env, s, fuel) == with_readings(
            run_while(st, locals, env, s, fuel),
            more,
        ),
    decreases fuel, 2nat, s, 0nat,
{
    if let Stmt::While { condition, body, .. } = s {
        law_evaluate_with_more(st, locals, env, condition, fuel, more);
        let c = evaluate(st, locals, env, condition, fuel);
        if let Flow::Normal(v) = c.flow {
            if truthy(v) {
                law_evaluate_grows(st, locals, env, condition, fuel);
                law_execute_with_more(c.state, locals, env, *body, fuel, more);
                let b = execute(c.state, locals, env, *body, fuel);
                if b.flow is Normal && fuel > 0 {
                    law_execute_grows(c.state, locals, env, *body, fuel);
                    law_while_with_more(b.state, locals, env, s, (fuel - 1) as nat, more);
                }
            }
        }
    }
}

} // verus!
