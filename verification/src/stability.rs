//! Running a program only ever adds to the heap.
//!
//! An environment, once made, stays where it is in the chain of
//! environments and keeps the names that it binds, and an instance keeps
//! its class; what has been printed stays printed. Only the values of
//! variables and the fields of an instance change, and new names come.
//! This is what lets a closure and the block that made it share one
//! environment: neither ever sees a copy.
//!
//! The readings that the host gives are taken in order and never
//! changed.

use vstd::prelude::*;
use crate::ast::{Expr, Stmt};
use crate::environment::HeapView;
use crate::semantics::{
    assign_variable, bind_params, call, call_function, declare_class, evaluate,
    evaluate_arguments, execute, execute_block, get_property, read_variable, run_while,
    super_method, Flow, StateView,
};
use crate::tokens::{
    CallableView, EnvRef, Function, LiteralView, LoxCallableView, LoxInstance, Token,
};

verus! {

/// Every environment of `a` is an environment of `b` with the same
/// environment around it, which binds every name that it bound in `a`,
/// and every instance of `a` is an instance of `b` with the same class.
pub open spec fn extends(a: HeapView, b: HeapView) -> bool {
    &&& a.environments.len() <= b.environments.len()
    &&& forall|i: int|
        0 <= i < a.environments.len() ==> (#[trigger] b.environments[i]).enclosing
            == a.environments[i].enclosing
    &&& forall|i: int, name: Seq<char>|
        0 <= i < a.environments.len() && a.environments[i].values.contains_key(name)
            ==> #[trigger] b.environments[i].values.contains_key(name)
    &&& a.instances.len() <= b.instances.len()
    &&& forall|i: int|
        0 <= i < a.instances.len() ==> (#[trigger] b.instances[i]).class == a.instances[i].class
}

/// The heap of `b` extends that of `a`, the output of `b` begins with
/// that of `a`, and the host gives `b` the same readings, of which `b`
/// has taken as many or more.
pub open spec fn grows(a: StateView, b: StateView) -> bool {
    &&& extends(a.heap, b.heap)
    &&& a.output.is_prefix_of(b.output)
    &&& a.readings == b.readings
    &&& a.taken <= b.taken
}

/// A heap that extends a heap that extends a third extends the third.
pub proof fn law_extends_is_transitive(a: HeapView, b: HeapView, c: HeapView)
    requires
        extends(a, b),
        extends(b, c),
    ensures
        extends(a, c),
{
    assert forall|i: int| 0 <= i < a.environments.len() implies (#[trigger] c.environments[i]).enclosing
        == a.environments[i].enclosing by {
        assert(b.environments[i].enclosing == a.environments[i].enclosing);
    }
    assert forall|i: int, name: Seq<char>|
        0 <= i < a.environments.len() && a.environments[i].values.contains_key(
            name,
        ) implies #[trigger] c.environments[i].values.contains_key(name) by {
        assert(b.environments[i].values.contains_key(name));
    }
    assert forall|i: int| 0 <= i < a.instances.len() implies (#[trigger] c.instances[i]).class
        == a.instances[i].class by {
        assert(b.instances[i].class == a.instances[i].class);
    }
}

/// Growth goes on from state to state.
pub proof fn law_grows_is_transitive(a: StateView, b: StateView, c: StateView)
    requires
        grows(a, b),
        grows(b, c),
    ensures
        grows(a, c),
{
    law_extends_is_transitive(a.heap, b.heap, c.heap);
}

/// Binding a variable changes no chain and no class.
pub proof fn law_define_extends(h: HeapView, e: EnvRef, name: Seq<char>, value: LiteralView)
    ensures
        extends(h, h.define(e, name, value)),
{
}

/// A new environment changes none of the old ones.
pub proof fn law_with_env_extends(h: HeapView, enclosing: Option<EnvRef>)
    ensures
        extends(h, h.with_env(enclosing)),
{
}

/// A new instance changes none of the old ones.
pub proof fn law_with_instance_extends(h: HeapView, class: crate::tokens::ClassView)
    ensures
        extends(h, h.with_instance(class)),
{
}

/// Setting a field changes no chain and no class.
pub proof fn law_set_field_extends(h: HeapView, i: LoxInstance, name: Seq<char>, value: LiteralView)
    ensures
        extends(h, h.set_field(i, name, value)),
{
}

/// Binding a method adds one environment.
pub proof fn law_bind_extends(h: HeapView, method: Function, instance: LoxInstance)
    ensures
        extends(h, h.bind(method, instance)),
{
    let made = h.with_env(Some(method.env));
    law_define_extends(made, h.next_env(), "this"@, LiteralView::ClassInstance(instance));
    law_extends_is_transitive(h, made, h.bind(method, instance));
}

/// Binding the parameters of a call changes no chain and no class.
pub proof fn law_bind_params_extends(
    h: HeapView,
    env: EnvRef,
    params: Seq<Token>,
    args: Seq<LiteralView>,
    i: nat,
)
    ensures
        extends(h, bind_params(h, env, params, args, i)),
    decreases params.len() - i,
{
    if i < params.len() && i < args.len() {
        let next = h.define(env, params[i as int].lexeme@, args[i as int]);
        law_bind_params_extends(next, env, params, args, i + 1);
        law_extends_is_transitive(h, next, bind_params(next, env, params, args, i + 1));
    }
}

/// Assigning to a variable changes no chain and no class.
pub proof fn law_assign_variable_grows(
    st: StateView,
    locals: Map<usize, usize>,
    env: EnvRef,
    id: usize,
    name: Seq<char>,
    value: LiteralView,
)
    ensures
        grows(st, assign_variable(st, locals, env, id, name, value).state),
{
}

/// Reading a property adds at most the environment of a bound method.
pub proof fn law_get_property_grows(st: StateView, object: LiteralView, name: Seq<char>)
    ensures
        grows(st, get_property(st, object, name).state),
{
    if let LiteralView::ClassInstance(i) = object {
        if let crate::environment::Property::Method(m) = st.heap.property(i, name) {
            law_bind_extends(st.heap, m, i);
        }
    }
}

/// Reading a method of the superclass adds at most the environment of
/// the bound method.
pub proof fn law_super_method_grows(
    st: StateView,
    locals: Map<usize, usize>,
    env: EnvRef,
    id: usize,
    method: Seq<char>,
)
    ensures
        grows(st, super_method(st, locals, env, id, method).state),
{
    if locals.contains_key(id) && locals[id] != 0 {
        let distance = locals[id] as nat;
        if let Some(
            LiteralView::Callable(LoxCallableView { callable: CallableView::Class(class), .. }),
        ) = st.heap.get_at_distance(env, distance, "super"@) {
            if let Some(LiteralView::ClassInstance(object)) = st.heap.get_at_distance(
                env,
                (distance - 1) as nat,
                "this"@,
            ) {
                if let Some(m) = class.find_method(method) {
                    law_bind_extends(st.heap, m, object);
                }
            }
        }
    }
}

/// Declaring a class adds at most the environment that holds `super`.
pub proof fn law_declare_class_grows(
    st: StateView,
    env: EnvRef,
    name: Seq<char>,
    superclass: Option<LiteralView>,
    methods: Seq<std::rc::Rc<crate::ast::FunctionStmt>>,
)
    ensures
        grows(st, declare_class(st, env, name, superclass, methods).state),
{
    let named = st.heap.define(env, name, LiteralView::Nil);
    match superclass {
        Some(s) => {
            let made = named.with_env(Some(env));
            let held = made.define(named.next_env(), "super"@, s);
            law_extends_is_transitive(st.heap, named, made);
            law_extends_is_transitive(st.heap, made, held);
            let r = declare_class(st, env, name, superclass, methods).state.heap;
            assert(extends(held, r));
            law_extends_is_transitive(st.heap, held, r);
        },
        None => {
            let r = declare_class(st, env, name, superclass, methods).state.heap;
            assert(extends(named, r));
            law_extends_is_transitive(st.heap, named, r);
        },
    }
}

/// Evaluating an expression only adds to the state.
pub proof fn law_evaluate_grows(st: StateView, locals: Map<usize, usize>, env: EnvRef, e: Expr, fuel: nat)
    ensures
        grows(st, evaluate(st, locals, env, e, fuel).state),
    decreases fuel, 2nat, e, 0nat,
{
    match e {
        Expr::Assign { id, name, value } => {
            law_evaluate_grows(st, locals, env, *value, fuel);
            let r = evaluate(st, locals, env, *value, fuel);
            if let Flow::Normal(v) = r.flow {
                law_assign_variable_grows(r.state, locals, env, id, name.lexeme@, v);
                law_grows_is_transitive(
                    st,
                    r.state,
                    assign_variable(r.state, locals, env, id, name.lexeme@, v).state,
                );
            }
        },
        Expr::Binary { left, right, .. } => {
            law_evaluate_grows(st, locals, env, *left, fuel);
            let l = evaluate(st, locals, env, *left, fuel);
            if l.flow is Normal {
                law_evaluate_grows(l.state, locals, env, *right, fuel);
                law_grows_is_transitive(st, l.state, evaluate(l.state, locals, env, *right, fuel).state);
            }
        },
        Expr::Call { callee, arguments, .. } => {
            law_evaluate_grows(st, locals, env, *callee, fuel);
            let c = evaluate(st, locals, env, *callee, fuel);
            if let Flow::Normal(target) = c.flow {
                law_arguments_grow(c.state, locals, env, arguments, 0, Seq::empty(), fuel);
                let a = evaluate_arguments(c.state, locals, env, arguments, 0, Seq::empty(), fuel);
                law_grows_is_transitive(st, c.state, a.state);
                if let Ok(values) = a.values {
                    if let LiteralView::Callable(callable) = target {
                        law_call_grows(a.state, locals, callable, values, fuel);
                        law_grows_is_transitive(
                            st,
                            a.state,
                            call(a.state, locals, callable, values, fuel).state,
                        );
                    }
                }
            }
        },
        Expr::Get { object, name, .. } => {
            law_evaluate_grows(st, locals, env, *object, fuel);
            let o = evaluate(st, locals, env, *object, fuel);
            if let Flow::Normal(v) = o.flow {
                law_get_property_grows(o.state, v, name.lexeme@);
                law_grows_is_transitive(st, o.state, get_property(o.state, v, name.lexeme@).state);
            }
        },
        Expr::Grouping { expression, .. } => {
            law_evaluate_grows(st, locals, env, *expression, fuel);
        },
        Expr::Literal { .. } => {},
        Expr::Logical { left, right, .. } => {
            law_evaluate_grows(st, locals, env, *left, fuel);
            let l = evaluate(st, locals, env, *left, fuel);
            if l.flow is Normal {
                law_evaluate_grows(l.state, locals, env, *right, fuel);
                law_grows_is_transitive(st, l.state, evaluate(l.state, locals, env, *right, fuel).state);
            }
        },
        Expr::SetField { object, name, value, .. } => {
            law_evaluate_grows(st, locals, env, *object, fuel);
            let o = evaluate(st, locals, env, *object, fuel);
            if let Flow::Normal(LiteralView::ClassInstance(i)) = o.flow {
                law_evaluate_grows(o.state, locals, env, *value, fuel);
                let r = evaluate(o.state, locals, env, *value, fuel);
                law_grows_is_transitive(st, o.state, r.state);
                if let Flow::Normal(v) = r.flow {
                    law_set_field_extends(r.state.heap, i, name.lexeme@, v);
                    law_grows_is_transitive(
                        st,
                        r.state,
                        r.state.with_heap(r.state.heap.set_field(i, name.lexeme@, v)),
                    );
                }
            }
        },
        Expr::Super { id, method, .. } => {
            law_super_method_grows(st, locals, env, id, method.lexeme@);
        },
        Expr::This { .. } => {},
        Expr::Unary { right, .. } => {
            law_evaluate_grows(st, locals, env, *right, fuel);
        },
        Expr::Variable(_) => {},
    }
}

/// Evaluating the arguments of a call only adds to the state.
pub proof fn law_arguments_grow(
    st: StateView,
    locals: Map<usize, usize>,
    env: EnvRef,
    arguments: Vec<Expr>,
    i: nat,
    done: Seq<LiteralView>,
    fuel: nat,
)
    ensures
        grows(st, evaluate_arguments(st, locals, env, arguments, i, done, fuel).state),
    decreases fuel, 2nat, arguments, arguments.len() - i,
{
    if i < arguments.len() {
        law_evaluate_grows(st, locals, env, arguments[i as int], fuel);
        let r = evaluate(st, locals, env, arguments[i as int], fuel);
        if let Flow::Normal(v) = r.flow {
            law_arguments_grow(r.state, locals, env, arguments, i + 1, done.push(v), fuel);
            law_grows_is_transitive(
                st,
                r.state,
                evaluate_arguments(r.state, locals, env, arguments, i + 1, done.push(v), fuel).state,
            );
        }
    }
}

/// A call only adds to the state.
pub proof fn law_call_grows(
    st: StateView,
    locals: Map<usize, usize>,
    callable: LoxCallableView,
    args: Seq<LiteralView>,
    fuel: nat,
)
    ensures
        grows(st, call(st, locals, callable, args, fuel).state),
    decreases fuel, 1nat,
{
    if callable.arity() == args.len() {
        match callable.callable {
            CallableView::Class(class) => {
                let instance = st.heap.next_instance();
                let made = st.with_heap(st.heap.with_instance(class));
                if let Some(init) = class.find_method("init"@) {
                    let bound = made.with_heap(made.heap.bind(init, instance));
                    law_bind_extends(made.heap, init, instance);
                    law_grows_is_transitive(st, made, bound);
                    law_call_function_grows(bound, locals, made.heap.bound(init), args, fuel);
                    law_grows_is_transitive(
                        st,
                        bound,
                        call_function(bound, locals, made.heap.bound(init), args, fuel).state,
                    );
                }
            },
            CallableView::Function(f) => {
                law_call_function_grows(st, locals, f, args, fuel);
            },
            CallableView::Native(_) => {},
        }
    }
}

/// The statements of the body of a function.
pub open spec fn body_of(f: Function) -> Vec<Stmt> {
    f.declaration.body
}

/// A call of a function only adds to the state.
pub proof fn law_call_function_grows(
    st: StateView,
    locals: Map<usize, usize>,
    f: Function,
    args: Seq<LiteralView>,
    fuel: nat,
)
    ensures
        grows(st, call_function(st, locals, f, args, fuel).state),
    decreases fuel, 0nat,
{
    if fuel > 0 && !(f.is_initializer && crate::semantics::bound_instance(st.heap, f) is None) {
        let env = st.heap.next_env();
        let made = st.heap.with_env(Some(f.env));
        let heap = bind_params(made, env, f.declaration.params@, args, 0);
        law_bind_params_extends(made, env, f.declaration.params@, args, 0);
        law_extends_is_transitive(st.heap, made, heap);
        let start = st.with_heap(heap);
        law_block_grows(start, locals, env, body_of(f), 0, (fuel - 1) as nat);
        law_grows_is_transitive(
            st,
            start,
            execute_block(start, locals, env, body_of(f), 0, (fuel - 1) as nat).state,
        );
    }
}

/// Running the statements of a list only adds to the state.
pub proof fn law_block_grows(
    st: StateView,
    locals: Map<usize, usize>,
    env: EnvRef,
    statements: Vec<Stmt>,
    i: nat,
    fuel: nat,
)
    ensures
        grows(st, execute_block(st, locals, env, statements, i, fuel).state),
    decreases fuel, 2nat, statements, statements.len() - i,
{
    if i < statements.len() {
        law_execute_grows(st, locals, env, statements[i as int], fuel);
        let r = execute(st, locals, env, statements[i as int], fuel);
        if r.flow is Normal {
            law_block_grows(r.state, locals, env, statements, i + 1, fuel);
            law_grows_is_transitive(
                st,
                r.state,
                execute_block(r.state, locals, env, statements, i + 1, fuel).state,
            );
        }
    }
}

/// Running a statement only adds to the state.
pub proof fn law_execute_grows(st: StateView, locals: Map<usize, usize>, env: EnvRef, s: Stmt, fuel: nat)
    ensures
        grows(st, execute(st, locals, env, s, fuel).state),
    decreases fuel, 2nat, s, 1nat,
{
    match s {
        Stmt::Block { statements, .. } => {
            let start = st.with_heap(st.heap.with_env(Some(env)));
            law_block_grows(start, locals, st.heap.next_env(), statements, 0, fuel);
            law_grows_is_transitive(
                st,
                start,
                execute_block(start, locals, st.heap.next_env(), statements, 0, fuel).state,
            );
        },
        Stmt::Class { name, superclass, methods, .. } => {
            match superclass {
                Some(sup) => {
                    let r = read_variable(st, locals, env, sup.id, sup.name.lexeme@);
                    if let Flow::Normal(v) = r.flow {
                        law_declare_class_grows(st, env, name.lexeme@, Some(v), methods@);
                    }
                },
                None => {
                    law_declare_class_grows(st, env, name.lexeme@, None, methods@);
                },
            }
        },
        Stmt::Expression { expression, .. } => {
            law_evaluate_grows(st, locals, env, expression, fuel);
        },
        Stmt::Function(_) => {},
        Stmt::If { condition, then_branch, else_branch, .. } => {
            law_evaluate_grows(st, locals, env, condition, fuel);
            let c = evaluate(st, locals, env, condition, fuel);
            if let Flow::Normal(v) = c.flow {
                if crate::semantics::truthy(v) {
                    law_execute_grows(c.state, locals, env, *then_branch, fuel);
                    law_grows_is_transitive(
                        st,
                        c.state,
                        execute(c.state, locals, env, *then_branch, fuel).state,
                    );
                } else {
                    law_execute_grows(c.state, locals, env, *else_branch, fuel);
                    law_grows_is_transitive(
                        st,
                        c.state,
                        execute(c.state, locals, env, *else_branch, fuel).state,
                    );
                }
            }
        },
        Stmt::Print { expression, .. } => {
            law_evaluate_grows(st, locals, env, expression, fuel);
        },
        Stmt::Return { value, .. } => {
            law_evaluate_grows(st, locals, env, value, fuel);
        },
        Stmt::Var { name, initializer, .. } => {
            law_evaluate_grows(st, locals, env, initializer, fuel);
            let r = evaluate(st, locals, env, initializer, fuel);
            if let Flow::Normal(v) = r.flow {
                law_grows_is_transitive(
                    st,
                    r.state,
                    r.state.with_heap(r.state.heap.define(env, name.lexeme@, v)),
                );
            }
        },
        Stmt::While { .. } => {
            law_while_grows(st, locals, env, s, fuel);
        },
    }
}

/// Running a loop only adds to the state.
pub proof fn law_while_grows(st: StateView, locals: Map<usize, usize>, env: EnvRef, s: Stmt, fuel: nat)
    ensures
        grows(st, run_while(st, locals, env, s, fuel).state),
    decreases fuel, 2nat, s, 0nat,
{
    if let Stmt::While { condition, body, .. } = s {
        law_evaluate_grows(st, locals, env, condition, fuel);
        let c = evaluate(st, locals, env, condition, fuel);
        if let Flow::Normal(v) = c.flow {
            if crate::semantics::truthy(v) {
                law_execute_grows(c.state, locals, env, *body, fuel);
                let b = execute(c.state, locals, env, *body, fuel);
                law_grows_is_transitive(st, c.state, b.state);
                if b.flow is Normal && fuel > 0 {
                    law_while_grows(b.state, locals, env, s, (fuel - 1) as nat);
                    law_grows_is_transitive(
                        st,
                        b.state,
                        run_while(b.state, locals, env, s, (fuel - 1) as nat).state,
                    );
                }
            }
        }
    }
}

} // verus!
