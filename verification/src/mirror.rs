//! The two passes agree on where a variable lives.
//!
//! The resolver counts scopes, the interpreter walks environments. The
//! count is of use only if the environments, from the innermost
//! outwards, mirror the scopes: one environment for every scope, which
//! binds every name that the scope holds. The laws here say that a
//! distance found in the scopes leads to a binding in environments that
//! mirror them, and that what the two passes do at a block, at a
//! declaration and at a function keeps the mirror.

use vstd::prelude::*;
use crate::ast::Stmt;
use crate::environment::HeapView;
use crate::resolver::{depth_from, depth_of, ScopeView as Names};
use crate::semantics::{bind_params, execute, StateView};
use crate::stability::{
    extends, law_bind_params_extends, law_define_extends, law_execute_grows,
    law_extends_is_transitive, law_with_env_extends,
};
use crate::tokens::{EnvRef, Function, LiteralView, Token};

verus! {

/// The environments from `env` outwards mirror the scopes from the
/// innermost outwards: there is an environment for every scope, each
/// inside the next, and it binds every name that its scope holds.
pub open spec fn mirrors(heap: HeapView, env: EnvRef, scopes: Seq<Names>) -> bool
    decreases scopes.len(),
{
    if scopes.len() == 0 {
        true
    } else {
        &&& heap.has_env(env)
        &&& forall|name: Seq<char>| #[trigger]
            scopes.last().contains_key(name) ==> heap.environments[env.index as int].values.contains_key(
                name,
            )
        &&& scopes.len() > 1 ==> (heap.environments[env.index as int].enclosing matches Some(outer)
            && mirrors(heap, outer, scopes.drop_last()))
    }
}

/// The two passes agree on distances. Where the environments mirror the
/// scopes, the distance that the resolver finds for a name leads the
/// interpreter to an environment that binds the name.
pub proof fn law_resolved_distance_finds_the_variable(
    heap: HeapView,
    env: EnvRef,
    scopes: Seq<Names>,
    name: Seq<char>,
)
    requires
        mirrors(heap, env, scopes),
        depth_of(scopes, name) is Some,
    ensures
        heap.get_at_distance(env, depth_of(scopes, name)->Some_0, name) is Some,
    decreases scopes.len(),
{
    if scopes.len() > 0 {
        if scopes.last().contains_key(name) {
            assert(heap.ancestor(env, 0) == Some(env));
        } else {
            let rest = scopes.drop_last();
            law_depth_of_rest(scopes, name, 0);
            let d = depth_from(rest, name, 0)->Some_0;
            assert(rest.len() > 0);
            let outer = heap.environments[env.index as int].enclosing->Some_0;
            law_resolved_distance_finds_the_variable(heap, outer, rest, name);
            assert(heap.ancestor(env, d + 1) == heap.ancestor(outer, d));
        }
    }
}

/// Environments that mirror the scopes go on mirroring them while the
/// heap only grows.
pub proof fn law_mirrors_survive(heap: HeapView, later: HeapView, env: EnvRef, scopes: Seq<Names>)
    requires
        mirrors(heap, env, scopes),
        extends(heap, later),
    ensures
        mirrors(later, env, scopes),
    decreases scopes.len(),
{
    if scopes.len() > 0 {
        assert(later.environments[env.index as int].enclosing == heap.environments[env.index as int].enclosing);
        assert forall|name: Seq<char>| #[trigger]
            scopes.last().contains_key(
                name,
            ) implies later.environments[env.index as int].values.contains_key(name) by {
            assert(heap.environments[env.index as int].values.contains_key(name));
        }
        if scopes.len() > 1 {
            let outer = heap.environments[env.index as int].enclosing->Some_0;
            law_mirrors_survive(heap, later, outer, scopes.drop_last());
        }
    }
}

/// Running a statement keeps the mirror: environments that mirror the
/// scopes before the statement runs mirror them after it.
pub proof fn law_running_keeps_the_mirror(
    st: StateView,
    locals: Map<usize, usize>,
    env: EnvRef,
    s: Stmt,
    fuel: nat,
    at: EnvRef,
    scopes: Seq<Names>,
)
    requires
        mirrors(st.heap, at, scopes),
    ensures
        mirrors(execute(st, locals, env, s, fuel).state.heap, at, scopes),
{
    law_execute_grows(st, locals, env, s, fuel);
    law_mirrors_survive(st.heap, execute(st, locals, env, s, fuel).state.heap, at, scopes);
}

/// Entering a block keeps the mirror: the resolver opens a scope, the
/// interpreter a new environment inside the current one, and the new
/// environment mirrors the new scope.
pub proof fn law_entering_a_block_keeps_the_mirror(heap: HeapView, env: EnvRef, scopes: Seq<Names>)
    requires
        mirrors(heap, env, scopes),
        heap.has_env(env),
        heap.has_room(),
    ensures
        mirrors(heap.with_env(Some(env)), heap.next_env(), scopes.push(Map::empty())),
{
    let opened = heap.with_env(Some(env));
    law_with_env_extends(heap, Some(env));
    law_mirrors_survive(heap, opened, env, scopes);
    assert(scopes.push(Map::<Seq<char>, bool>::empty()).drop_last() =~= scopes);
}

/// Declaring a variable keeps the mirror: the resolver puts the name into
/// the innermost scope, the interpreter binds it in the current
/// environment.
pub proof fn law_declaring_keeps_the_mirror(
    heap: HeapView,
    env: EnvRef,
    scopes: Seq<Names>,
    name: Seq<char>,
    value: LiteralView,
    defined: bool,
)
    requires
        mirrors(heap, env, scopes),
        heap.has_env(env),
        scopes.len() > 0,
    ensures
        mirrors(
            heap.define(env, name, value),
            env,
            scopes.update(scopes.len() - 1, scopes.last().insert(name, defined)),
        ),
{
    let bound = heap.define(env, name, value);
    let marked = scopes.update(scopes.len() - 1, scopes.last().insert(name, defined));
    law_define_extends(heap, env, name, value);
    if scopes.len() > 1 {
        let outer = heap.environments[env.index as int].enclosing->Some_0;
        law_mirrors_survive(heap, bound, outer, scopes.drop_last());
        assert(marked.drop_last() =~= scopes.drop_last());
    }
    assert forall|n: Seq<char>| #[trigger]
        marked.last().contains_key(n) implies bound.environments[env.index as int].values.contains_key(
        n,
    ) by {
        if n != name {
            assert(scopes.last().contains_key(n));
        }
    }
}

/// Binding the parameters of a call binds every parameter that has an
/// argument.
pub proof fn law_parameters_are_bound(
    heap: HeapView,
    env: EnvRef,
    params: Seq<Token>,
    args: Seq<LiteralView>,
    i: nat,
    k: int,
)
    requires
        heap.has_env(env),
        i <= k < params.len(),
        k < args.len(),
    ensures
        bind_params(heap, env, params, args, i).environments[env.index as int].values.contains_key(
            params[k].lexeme@,
        ),
    decreases params.len() - i,
{
    let next = heap.define(env, params[i as int].lexeme@, args[i as int]);
    if i < k {
        law_parameters_are_bound(next, env, params, args, i + 1, k);
    } else {
        law_bind_params_extends(next, env, params, args, i + 1);
        assert(next.environments[env.index as int].values.contains_key(params[k].lexeme@));
    }
}

/// Entering a function keeps the mirror. The resolver resolves the body
/// in a new scope that holds the parameters, inside the scopes of the
/// declaration; the interpreter runs it in a new environment that binds
/// the parameters, inside the environment that the function closed over.
pub proof fn law_entering_a_function_keeps_the_mirror(
    heap: HeapView,
    f: Function,
    args: Seq<LiteralView>,
    scopes: Seq<Names>,
    names: Names,
)
    requires
        mirrors(heap, f.env, scopes),
        heap.has_env(f.env),
        heap.has_room(),
        args.len() == f.declaration.params@.len(),
        forall|n: Seq<char>| #[trigger]
            names.contains_key(n) ==> exists|k: int|
                0 <= k < f.declaration.params@.len() && #[trigger] f.declaration.params@[k].lexeme@
                    == n,
    ensures
        mirrors(
            bind_params(
                heap.with_env(Some(f.env)),
                heap.next_env(),
                f.declaration.params@,
                args,
                0,
            ),
            heap.next_env(),
            scopes.push(names),
        ),
{
    let inner = heap.next_env();
    let made = heap.with_env(Some(f.env));
    let params = f.declaration.params@;
    let started = bind_params(made, inner, params, args, 0);
    law_with_env_extends(heap, Some(f.env));
    law_bind_params_extends(made, inner, params, args, 0);
    law_extends_is_transitive(heap, made, started);
    law_mirrors_survive(heap, started, f.env, scopes);
    assert(scopes.push(names).drop_last() =~= scopes);
    assert(started.environments[inner.index as int].enclosing == made.environments[inner.index as int].enclosing);
    assert forall|n: Seq<char>| #[trigger]
        names.contains_key(n) implies started.environments[inner.index as int].values.contains_key(
        n,
    ) by {
        let k = choose|k: int| 0 <= k < params.len() && #[trigger] params[k].lexeme@ == n;
        law_parameters_are_bound(made, inner, params, args, 0, k);
    }
}

/// Searching the scopes from one step further out is searching the
/// scopes without the innermost.
pub proof fn law_depth_of_rest(scopes: Seq<Names>, name: Seq<char>, d: nat)
    requires
        scopes.len() > 0,
    ensures
        depth_from(scopes, name, d + 1) == match depth_from(scopes.drop_last(), name, d) {
            Some(k) => Some(k + 1),
            None => None,
        },
    decreases scopes.len() - d,
{
    let rest = scopes.drop_last();
    if d + 1 < scopes.len() {
        assert(rest[rest.len() - 1 - d] == scopes[scopes.len() - 1 - (d + 1)]);
        law_depth_of_rest(scopes, name, d + 1);
    }
}

} // verus!
