//! When two values are equal.
//!
//! Equality is structural. Values of different kinds are never equal.
//! Numbers are equal when they stand for the same number, strings when
//! they hold the same characters. Two instances are equal when they are
//! the same instance, and also when they have equal classes and equal
//! fields; two functions when they come from the same declaration and
//! close over equal environments; two environments when they are the
//! same, and also when they bind the same names to equal values inside
//! equal environments.
//!
//! Comparing what values refer to can go on without end, as where a
//! function is bound in the environment that it closes over. So a
//! comparison takes a budget, of which every step from a handle to what
//! it refers to uses one unit, and gives no answer where the budget is
//! used up. An answer that is found does not depend on where the budget
//! ran out elsewhere: two values are unequal as soon as one part of them
//! is.

use vstd::prelude::*;
use crate::environment::{Heap, HeapView};
use crate::number::number_same;
use crate::table::{lemma_key_has_entry, live, Table};
use crate::text::text_eq;
use crate::tokens::{
    Callable, CallableView, Class, ClassView, EnvRef, Function, Literal, LiteralView, LoxInstance,
};

verus! {

/// Both comparisons say equal. One that says unequal decides; one that
/// gives no answer leaves the whole without answer otherwise.
pub open spec fn both(a: Option<bool>, b: Option<bool>) -> Option<bool> {
    if a == Some(false) || b == Some(false) {
        Some(false)
    } else if a is None || b is None {
        None
    } else {
        Some(true)
    }
}

/// All of the comparisons say equal. One that says unequal decides; one
/// that gives no answer leaves the whole without answer otherwise.
pub open spec fn all(answers: Map<Seq<char>, Option<bool>>) -> Option<bool> {
    if exists|k: Seq<char>| answers.contains_key(k) && #[trigger] answers[k] == Some(false) {
        Some(false)
    } else if exists|k: Seq<char>| answers.contains_key(k) && #[trigger] answers[k] is None {
        None
    } else {
        Some(true)
    }
}

/// Whether two values are equal; `None` where the budget is used up.
pub open spec fn values_equal(heap: HeapView, a: LiteralView, b: LiteralView, fuel: nat) -> Option<bool>
    decreases fuel, 8nat,
{
    match (a, b) {
        (LiteralView::Nil, LiteralView::Nil) => Some(true),
        (LiteralView::Boolean(x), LiteralView::Boolean(y)) => Some(x == y),
        (LiteralView::Number(x), LiteralView::Number(y)) => Some(number_same(x, y)),
        (LiteralView::String(x), LiteralView::String(y)) => Some(x == y),
        (LiteralView::ClassInstance(x), LiteralView::ClassInstance(y)) => instances_equal(
            heap,
            x,
            y,
            fuel,
        ),
        (LiteralView::Callable(x), LiteralView::Callable(y)) => if x.name != y.name {
            Some(false)
        } else {
            callables_equal(heap, x.callable, y.callable, fuel)
        },
        _ => Some(false),
    }
}

/// Whether two callables call the same.
pub open spec fn callables_equal(heap: HeapView, x: CallableView, y: CallableView, fuel: nat) -> Option<
    bool,
>
    decreases fuel, 7nat,
{
    match (x, y) {
        (CallableView::Class(c), CallableView::Class(d)) => classes_equal(heap, c, d, fuel),
        (CallableView::Function(f), CallableView::Function(g)) => functions_equal(heap, f, g, fuel),
        (CallableView::Native(m), CallableView::Native(n)) => Some(m == n),
        _ => Some(false),
    }
}

/// Whether two instances are equal: the same instance, or instances of
/// equal classes with equal fields.
pub open spec fn instances_equal(heap: HeapView, x: LoxInstance, y: LoxInstance, fuel: nat) -> Option<
    bool,
>
    decreases fuel, 7nat,
{
    if x == y {
        Some(true)
    } else if !heap.has_instance(x) || !heap.has_instance(y) {
        Some(false)
    } else if fuel == 0 {
        None
    } else {
        let a = heap.instances[x.index as int];
        let b = heap.instances[y.index as int];
        both(
            classes_equal(heap, a.class, b.class, (fuel - 1) as nat),
            bindings_equal(heap, a.fields, b.fields, (fuel - 1) as nat),
        )
    }
}

/// Whether two classes are equal: the same name, equal methods and equal
/// superclasses.
pub open spec fn classes_equal(heap: HeapView, c: ClassView, d: ClassView, fuel: nat) -> Option<bool>
    decreases fuel, 6nat, c,
{
    if c.name != d.name {
        Some(false)
    } else {
        both(
            methods_equal(heap, c.methods, d.methods, fuel),
            match (c.superclass, d.superclass) {
                (Some(x), Some(y)) => classes_equal(heap, *x, *y, fuel),
                (None, None) => Some(true),
                _ => Some(false),
            },
        )
    }
}

/// Whether two method tables are equal: the same names, each for equal
/// functions.
pub open spec fn methods_equal(
    heap: HeapView,
    m1: Map<Seq<char>, Function>,
    m2: Map<Seq<char>, Function>,
    fuel: nat,
) -> Option<bool>
    decreases fuel, 5nat,
{
    if m1.dom() != m2.dom() {
        Some(false)
    } else {
        all(method_answers(heap, m1, m2, fuel))
    }
}

/// For every name of `m1`, whether the two tables hold equal functions
/// for it.
pub open spec fn method_answers(
    heap: HeapView,
    m1: Map<Seq<char>, Function>,
    m2: Map<Seq<char>, Function>,
    fuel: nat,
) -> Map<Seq<char>, Option<bool>>
    decreases fuel, 4nat,
{
    Map::new(
        |k: Seq<char>| m1.contains_key(k),
        |k: Seq<char>| functions_equal(heap, m1[k], m2[k], fuel),
    )
}

/// Whether two functions are equal: the same declaration and kind, and
/// equal environments.
pub open spec fn functions_equal(heap: HeapView, f: Function, g: Function, fuel: nat) -> Option<bool>
    decreases fuel, 3nat,
{
    if f.declaration.id != g.declaration.id || f.is_initializer != g.is_initializer {
        Some(false)
    } else {
        envs_equal(heap, f.env, g.env, fuel)
    }
}

/// Whether two environments are equal: the same environment, or
/// environments that bind the same names to equal values inside equal
/// environments.
pub open spec fn envs_equal(heap: HeapView, x: EnvRef, y: EnvRef, fuel: nat) -> Option<bool>
    decreases fuel, 2nat,
{
    if x == y {
        Some(true)
    } else if !heap.has_env(x) || !heap.has_env(y) {
        Some(false)
    } else if fuel == 0 {
        None
    } else {
        let a = heap.environments[x.index as int];
        let b = heap.environments[y.index as int];
        both(
            bindings_equal(heap, a.values, b.values, (fuel - 1) as nat),
            match (a.enclosing, b.enclosing) {
                (Some(p), Some(q)) => envs_equal(heap, p, q, (fuel - 1) as nat),
                (None, None) => Some(true),
                _ => Some(false),
            },
        )
    }
}

/// Whether two sets of bindings are equal: the same names, each bound to
/// equal values.
pub open spec fn bindings_equal(
    heap: HeapView,
    m1: Map<Seq<char>, LiteralView>,
    m2: Map<Seq<char>, LiteralView>,
    fuel: nat,
) -> Option<bool>
    decreases fuel, 10nat,
{
    if m1.dom() != m2.dom() {
        Some(false)
    } else {
        all(binding_answers(heap, m1, m2, fuel))
    }
}

/// For every name of `m1`, whether the two sets of bindings hold equal
/// values for it.
pub open spec fn binding_answers(
    heap: HeapView,
    m1: Map<Seq<char>, LiteralView>,
    m2: Map<Seq<char>, LiteralView>,
    fuel: nat,
) -> Map<Seq<char>, Option<bool>>
    decreases fuel, 9nat,
{
    Map::new(
        |k: Seq<char>| m1.contains_key(k),
        |k: Seq<char>| values_equal(heap, m1[k], m2[k], fuel),
    )
}

/// Both comparisons say equal, in the program.
pub fn both_answers(a: Option<bool>, b: Option<bool>) -> (r: Option<bool>)
    ensures
        r == both(a, b),
{
    match (a, b) {
        (Some(false), _) => Some(false),
        (_, Some(false)) => Some(false),
        (None, _) => None,
        (_, None) => None,
        _ => Some(true),
    }
}

/// Whether two values are equal; `None` where the budget is used up.
pub fn equal(heap: &Heap, a: &Literal, b: &Literal, fuel: usize) -> (r: Option<bool>)
    ensures
        r == values_equal(heap@, a@, b@, fuel as nat),
    decreases fuel, 8nat,
{
    match (a, b) {
        (Literal::Nil, Literal::Nil) => Some(true),
        (Literal::Boolean(x), Literal::Boolean(y)) => Some(*x == *y),
        (Literal::Number(x), Literal::Number(y)) => Some(x.same_as(*y)),
        (Literal::String(x), Literal::String(y)) => Some(text_eq(x.as_str(), y.as_str())),
        (Literal::ClassInstance(x), Literal::ClassInstance(y)) => same_instance(heap, *x, *y, fuel),
        (Literal::Callable(x), Literal::Callable(y)) => {
            if !text_eq(x.name.as_str(), y.name.as_str()) {
                Some(false)
            } else {
                same_callable(heap, &x.callable, &y.callable, fuel)
            }
        },
        _ => Some(false),
    }
}

/// Whether two callables call the same.
fn same_callable(heap: &Heap, x: &Callable, y: &Callable, fuel: usize) -> (r: Option<bool>)
    ensures
        r == callables_equal(heap@, x@, y@, fuel as nat),
    decreases fuel, 7nat,
{
    match (x, y) {
        (Callable::Class(c), Callable::Class(d)) => same_class(heap, c, d, fuel),
        (Callable::Function(f), Callable::Function(g)) => same_function(heap, f, g, fuel),
        (Callable::Native(m), Callable::Native(n)) => Some(*m == *n),
        _ => Some(false),
    }
}

/// Whether two instances are equal.
fn same_instance(heap: &Heap, x: LoxInstance, y: LoxInstance, fuel: usize) -> (r: Option<bool>)
    ensures
        r == instances_equal(heap@, x, y, fuel as nat),
    decreases fuel, 7nat,
{
    if x.index == y.index {
        Some(true)
    } else if x.index >= heap.instances.len() || y.index >= heap.instances.len() {
        Some(false)
    } else if fuel == 0 {
        None
    } else {
        let a = &heap.instances[x.index];
        let b = &heap.instances[y.index];
        let classes = same_class(heap, &a.class, &b.class, fuel - 1);
        let fields = same_bindings(heap, &a.fields, &b.fields, fuel - 1);
        both_answers(classes, fields)
    }
}

/// Whether two classes are equal.
fn same_class(heap: &Heap, c: &Class, d: &Class, fuel: usize) -> (r: Option<bool>)
    ensures
        r == classes_equal(heap@, c@, d@, fuel as nat),
    decreases fuel, 6nat, c,
{
    if !text_eq(c.name.as_str(), d.name.as_str()) {
        Some(false)
    } else {
        let methods = same_methods(heap, &c.methods, &d.methods, fuel);
        let parents = match (&c.superclass, &d.superclass) {
            (Some(x), Some(y)) => same_class(heap, x, y, fuel),
            (None, None) => Some(true),
            _ => Some(false),
        };
        both_answers(methods, parents)
    }
}

/// Whether two functions are equal.
fn same_function(heap: &Heap, f: &Function, g: &Function, fuel: usize) -> (r: Option<bool>)
    ensures
        r == functions_equal(heap@, *f, *g, fuel as nat),
    decreases fuel, 3nat,
{
    if f.declaration.id != g.declaration.id || f.is_initializer != g.is_initializer {
        Some(false)
    } else {
        same_env(heap, f.env, g.env, fuel)
    }
}

/// Whether two environments are equal.
fn same_env(heap: &Heap, x: EnvRef, y: EnvRef, fuel: usize) -> (r: Option<bool>)
    ensures
        r == envs_equal(heap@, x, y, fuel as nat),
    decreases fuel, 2nat,
{
    if x.index == y.index {
        Some(true)
    } else if x.index >= heap.environments.len() || y.index >= heap.environments.len() {
        Some(false)
    } else if fuel == 0 {
        None
    } else {
        let a = &heap.environments[x.index];
        let b = &heap.environments[y.index];
        let values = same_bindings(heap, &a.values, &b.values, fuel - 1);
        let outer = match (a.enclosing, b.enclosing) {
            (Some(p), Some(q)) => same_env(heap, p, q, fuel - 1),
            (None, None) => Some(true),
            _ => Some(false),
        };
        both_answers(values, outer)
    }
}

/// Whether every name of `t2` is a name of `t1`.
fn names_within<V: View, W: View>(t1: &Table<V>, t2: &Table<W>) -> (r: bool)
    ensures
        r == t2@.dom().subset_of(t1@.dom()),
{
    let mut i: usize = 0;
    while i < t2.entries.len()
        invariant
            i <= t2.entries.len(),
            forall|j: int| 0 <= j < i ==> t1@.contains_key((#[trigger] t2.entries@[j]).0@),
        decreases t2.entries.len() - i,
    {
        if !t1.contains(t2.entries[i].0.as_str()) {
            proof {
                crate::table::lemma_entry_in_map(t2.entries@, i as int);
            }
            return false;
        }
        i += 1;
    }
    proof {
        assert forall|k: Seq<char>| t2@.dom().contains(k) implies t1@.dom().contains(k) by {
            lemma_key_has_entry(t2.entries@, k);
        }
    }
    true
}

/// Whether two sets of bindings are equal.
fn same_bindings(heap: &Heap, t1: &Table<Literal>, t2: &Table<Literal>, fuel: usize) -> (r: Option<
    bool,
>)
    ensures
        r == bindings_equal(heap@, t1@, t2@, fuel as nat),
    decreases fuel, 10nat,
{
    let ghost s1 = t1.entries@;
    let ghost m1 = t1@;
    let ghost m2 = t2@;
    let ghost answers = binding_answers(heap@, m1, m2, fuel as nat);
    let mut unknown = false;
    let mut i: usize = 0;
    while i < t1.entries.len()
        invariant
            i <= t1.entries.len(),
            s1 == t1.entries@,
            m1 == t1@,
            m2 == t2@,
            answers == binding_answers(heap@, m1, m2, fuel as nat),
            forall|j: int|
                0 <= j < i && #[trigger] live(s1, j) ==> m2.contains_key(s1[j].0@) && answers[s1[j].0@]
                    != Some(false),
            unknown <==> exists|j: int| 0 <= j < i && #[trigger] live(s1, j) && answers[s1[j].0@] is None,
        decreases t1.entries.len() - i,
    {
        if t1.is_first(i) {
            let ghost k = s1[i as int].0@;
            assert(answers.contains_key(k) && answers[k] == values_equal(
                heap@,
                m1[k],
                m2[k],
                fuel as nat,
            ));
            match t2.get(t1.entries[i].0.as_str()) {
                None => {
                    assert(m1.dom().contains(k) && !m2.dom().contains(k));
                    return Some(false);
                },
                Some(other) => {
                    match equal(heap, &t1.entries[i].1, other, fuel) {
                        Some(false) => {
                            assert(answers[k] == Some(false));
                            return Some(false);
                        },
                        None => {
                            unknown = true;
                        },
                        Some(true) => {},
                    }
                },
            }
        }
        i += 1;
    }
    if !names_within(t1, t2) {
        return Some(false);
    }
    proof {
        assert forall|k: Seq<char>| m1.dom().contains(k) implies m2.dom().contains(k) by {
            lemma_key_has_entry(s1, k);
        }
        assert(m1.dom() =~= m2.dom());
        assert forall|k: Seq<char>| answers.contains_key(k) implies #[trigger] answers[k] != Some(
            false,
        ) by {
            lemma_key_has_entry(s1, k);
        }
        if unknown {
            let j = choose|j: int| 0 <= j < i && #[trigger] live(s1, j) && answers[s1[j].0@] is None;
            crate::table::lemma_first(s1, j, s1[j].0@);
            let k = s1[j].0@;
            assert(answers.contains_key(k) && answers[k] is None);
        } else {
            assert forall|k: Seq<char>| answers.contains_key(k) implies !(#[trigger] answers[k]
                is None) by {
                lemma_key_has_entry(s1, k);
            }
        }
    }
    if unknown {
        None
    } else {
        Some(true)
    }
}

/// Whether two method tables are equal.
fn same_methods(heap: &Heap, t1: &Table<Function>, t2: &Table<Function>, fuel: usize) -> (r: Option<
    bool,
>)
    ensures
        r == methods_equal(heap@, t1@, t2@, fuel as nat),
    decreases fuel, 5nat,
{
    let ghost s1 = t1.entries@;
    let ghost m1 = t1@;
    let ghost m2 = t2@;
    let ghost answers = method_answers(heap@, m1, m2, fuel as nat);
    let mut unknown = false;
    let mut i: usize = 0;
    while i < t1.entries.len()
        invariant
            i <= t1.entries.len(),
            s1 == t1.entries@,
            m1 == t1@,
            m2 == t2@,
            answers == method_answers(heap@, m1, m2, fuel as nat),
            forall|j: int|
                0 <= j < i && #[trigger] live(s1, j) ==> m2.contains_key(s1[j].0@) && answers[s1[j].0@]
                    != Some(false),
            unknown <==> exists|j: int| 0 <= j < i && #[trigger] live(s1, j) && answers[s1[j].0@] is None,
        decreases t1.entries.len() - i,
    {
        if t1.is_first(i) {
            let ghost k = s1[i as int].0@;
            assert(answers.contains_key(k) && answers[k] == functions_equal(
                heap@,
                m1[k],
                m2[k],
                fuel as nat,
            ));
            match t2.get(t1.entries[i].0.as_str()) {
                None => {
                    assert(m1.dom().contains(k) && !m2.dom().contains(k));
                    return Some(false);
                },
                Some(other) => {
                    match same_function(heap, &t1.entries[i].1, other, fuel) {
                        Some(false) => {
                            assert(answers[k] == Some(false));
                            return Some(false);
                        },
                        None => {
                            unknown = true;
                        },
                        Some(true) => {},
                    }
                },
            }
        }
        i += 1;
    }
    if !names_within(t1, t2) {
        return Some(false);
    }
    proof {
        assert forall|k: Seq<char>| m1.dom().contains(k) implies m2.dom().contains(k) by {
            lemma_key_has_entry(s1, k);
        }
        assert(m1.dom() =~= m2.dom());
        assert forall|k: Seq<char>| answers.contains_key(k) implies #[trigger] answers[k] != Some(
            false,
        ) by {
            lemma_key_has_entry(s1, k);
        }
        if unknown {
            let j = choose|j: int| 0 <= j < i && #[trigger] live(s1, j) && answers[s1[j].0@] is None;
            crate::table::lemma_first(s1, j, s1[j].0@);
            let k = s1[j].0@;
            assert(answers.contains_key(k) && answers[k] is None);
        } else {
            assert forall|k: Seq<char>| answers.contains_key(k) implies !(#[trigger] answers[k]
                is None) by {
                lemma_key_has_entry(s1, k);
            }
        }
    }
    if unknown {
        None
    } else {
        Some(true)
    }
}

} // verus!
