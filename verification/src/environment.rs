//! Environments and instances.
//!
//! Closures can outlive the block that made them, and several values can
//! name one instance, so neither environments nor instances are owned by
//! what refers to them. Both live on a heap and are referred to by handles.
//! An environment that encloses another is always the older of the two.

use vstd::prelude::*;
use std::rc::Rc;
use crate::table::Table;
use crate::text::concat2;
use crate::tokens::{
    Callable, Class, ClassView, EnvRef, Function, Literal, LiteralView, LoxCallable, LoxInstance,
};

verus! {

/// One environment: the variables it holds and the environment around it.
#[derive(Debug)]
pub struct Scope {
    pub enclosing: Option<EnvRef>,
    pub values: Table<Literal>,
}

/// One instance: its class and its fields.
#[derive(Debug)]
pub struct Instance {
    pub class: Rc<Class>,
    pub fields: Table<Literal>,
}

/// The environments and instances of a running program.
#[derive(Debug)]
pub struct Heap {
    pub environments: Vec<Scope>,
    pub instances: Vec<Instance>,
}

/// An environment as a mathematical value.
pub struct ScopeView {
    pub enclosing: Option<EnvRef>,
    pub values: Map<Seq<char>, LiteralView>,
}

/// An instance as a mathematical value.
pub struct InstanceView {
    pub class: ClassView,
    pub fields: Map<Seq<char>, LiteralView>,
}

/// The heap as a mathematical value.
pub struct HeapView {
    pub environments: Seq<ScopeView>,
    pub instances: Seq<InstanceView>,
}

impl View for Scope {
    type V = ScopeView;

    open spec fn view(&self) -> ScopeView {
        ScopeView { enclosing: self.enclosing, values: self.values@ }
    }
}

impl View for Instance {
    type V = InstanceView;

    open spec fn view(&self) -> InstanceView {
        InstanceView { class: (*self.class)@, fields: self.fields@ }
    }
}

impl View for Heap {
    type V = HeapView;

    open spec fn view(&self) -> HeapView {
        HeapView {
            environments: Seq::new(self.environments@.len(), |i: int| self.environments@[i]@),
            instances: Seq::new(self.instances@.len(), |i: int| self.instances@[i]@),
        }
    }
}

/// The text of the error for a variable that is assigned before it exists.
pub open spec fn undefined_variable_text(name: Seq<char>) -> Seq<char> {
    "Undefined variable '"@ + name + "'"@
}

/// The text of the error for a property that an instance does not have.
pub open spec fn undefined_property_text(name: Seq<char>) -> Seq<char> {
    "Undefined property: '"@ + name + "'"@
}

/// The outcome of an assignment: the heap after it, or the text of an
/// error.
pub type Assigned = Result<HeapView, Seq<char>>;

impl HeapView {
    /// A heap that holds nothing.
    pub open spec fn empty() -> HeapView {
        HeapView { environments: Seq::empty(), instances: Seq::empty() }
    }

    /// Whether the heap is one that a machine can hold with one more
    /// environment and one more instance, so that every handle is the
    /// position of what it names.
    pub open spec fn has_room(self) -> bool {
        self.environments.len() <= usize::MAX && self.instances.len() <= usize::MAX
    }

    /// Whether the handle names an environment of this heap.
    pub open spec fn has_env(self, e: EnvRef) -> bool {
        e.index < self.environments.len()
    }

    /// Whether the handle names an instance of this heap.
    pub open spec fn has_instance(self, i: LoxInstance) -> bool {
        i.index < self.instances.len()
    }

    /// The handle that the next new environment gets.
    pub open spec fn next_env(self) -> EnvRef {
        EnvRef { index: self.environments.len() as usize }
    }

    /// The heap with one more environment, which holds no variable.
    pub open spec fn with_env(self, enclosing: Option<EnvRef>) -> HeapView {
        HeapView {
            environments: self.environments.push(ScopeView { enclosing, values: Map::empty() }),
            ..self
        }
    }

    /// The handle that the next new instance gets.
    pub open spec fn next_instance(self) -> LoxInstance {
        LoxInstance { index: self.instances.len() as usize }
    }

    /// The heap with one more instance, which has no field.
    pub open spec fn with_instance(self, class: ClassView) -> HeapView {
        HeapView {
            instances: self.instances.push(InstanceView { class, fields: Map::empty() }),
            ..self
        }
    }

    /// The environment `distance` steps out from `e`.
    pub open spec fn ancestor(self, e: EnvRef, distance: nat) -> Option<EnvRef>
        decreases distance,
    {
        if !self.has_env(e) {
            None
        } else if distance == 0 {
            Some(e)
        } else {
            match self.environments[e.index as int].enclosing {
                Some(p) => self.ancestor(p, (distance - 1) as nat),
                None => None,
            }
        }
    }

    /// The outermost environment around `e`: the one that holds the
    /// globals.
    pub open spec fn root(self, e: EnvRef) -> Option<EnvRef>
        decreases e.index,
    {
        if !self.has_env(e) {
            None
        } else {
            match self.environments[e.index as int].enclosing {
                Some(p) => if p.index < e.index {
                    self.root(p)
                } else {
                    None
                },
                None => Some(e),
            }
        }
    }

    /// The value of `name` in the environment `e` itself.
    pub open spec fn get_current(self, e: EnvRef, name: Seq<char>) -> Option<LiteralView> {
        if self.has_env(e) && self.environments[e.index as int].values.contains_key(name) {
            Some(self.environments[e.index as int].values[name])
        } else {
            None
        }
    }

    /// The value of `name` in the environment `distance` steps out from
    /// `e`.
    pub open spec fn get_at_distance(self, e: EnvRef, distance: nat, name: Seq<char>) -> Option<
        LiteralView,
    > {
        match self.ancestor(e, distance) {
            Some(a) => self.get_current(a, name),
            None => None,
        }
    }

    /// The value of the global `name`, seen from `e`.
    pub open spec fn get_global(self, e: EnvRef, name: Seq<char>) -> Option<LiteralView> {
        match self.root(e) {
            Some(r) => self.get_current(r, name),
            None => None,
        }
    }

    /// The heap after `name` is bound to `value` in `e`, whether or not
    /// it was bound there before.
    pub open spec fn define(self, e: EnvRef, name: Seq<char>, value: LiteralView) -> HeapView {
        if self.has_env(e) {
            let scope = self.environments[e.index as int];
            HeapView {
                environments: self.environments.update(
                    e.index as int,
                    ScopeView { values: scope.values.insert(name, value), ..scope },
                ),
                ..self
            }
        } else {
            self
        }
    }

    /// Assigning to `name` in `e` itself: an error unless `e` holds the
    /// name.
    pub open spec fn assign_current(self, e: EnvRef, name: Seq<char>, value: LiteralView) -> Assigned {
        if self.get_current(e, name) is Some {
            Ok(self.define(e, name, value))
        } else {
            Err(undefined_variable_text(name))
        }
    }

    /// Assigning to `name` in the environment `distance` steps out from
    /// `e`.
    pub open spec fn assign_at_distance(
        self,
        e: EnvRef,
        distance: nat,
        name: Seq<char>,
        value: LiteralView,
    ) -> Assigned {
        match self.ancestor(e, distance) {
            Some(a) => self.assign_current(a, name, value),
            None => Err(undefined_variable_text(name)),
        }
    }

    /// Assigning to the global `name`, seen from `e`.
    pub open spec fn assign_global(self, e: EnvRef, name: Seq<char>, value: LiteralView) -> Assigned {
        match self.root(e) {
            Some(r) => self.assign_current(r, name, value),
            None => Err(undefined_variable_text(name)),
        }
    }

    /// The value of the field `name` of an instance.
    pub open spec fn field(self, i: LoxInstance, name: Seq<char>) -> Option<LiteralView> {
        if self.has_instance(i) && self.instances[i.index as int].fields.contains_key(name) {
            Some(self.instances[i.index as int].fields[name])
        } else {
            None
        }
    }

    /// The heap after the field `name` of an instance is set.
    pub open spec fn set_field(self, i: LoxInstance, name: Seq<char>, value: LiteralView) -> HeapView {
        if self.has_instance(i) {
            let instance = self.instances[i.index as int];
            HeapView {
                instances: self.instances.update(
                    i.index as int,
                    InstanceView { fields: instance.fields.insert(name, value), ..instance },
                ),
                ..self
            }
        } else {
            self
        }
    }

    /// The method `name` of the class of an instance.
    pub open spec fn method(self, i: LoxInstance, name: Seq<char>) -> Option<Function> {
        if self.has_instance(i) {
            self.instances[i.index as int].class.find_method(name)
        } else {
            None
        }
    }

    /// The heap after a method is bound to an instance: a new environment
    /// inside the method's own holds `this`.
    pub open spec fn bind(self, method: Function, instance: LoxInstance) -> HeapView {
        self.with_env(Some(method.env)).define(
            self.next_env(),
            "this"@,
            LiteralView::ClassInstance(instance),
        )
    }

    /// The method after it is bound: it closes over the new environment.
    pub open spec fn bound(self, method: Function) -> Function {
        Function { env: self.next_env(), ..method }
    }
}

impl Heap {
    /// A heap that holds nothing.
    pub fn new() -> (h: Heap)
        ensures
            h@ == HeapView::empty(),
    {
        let h = Heap { environments: Vec::new(), instances: Vec::new() };
        assert(h@.environments =~= Seq::empty());
        assert(h@.instances =~= Seq::empty());
        h
    }

    /// Adds an environment that holds no variable.
    fn push_env(&mut self, enclosing: Option<EnvRef>) -> (e: EnvRef)
        ensures
            e == old(self)@.next_env(),
            final(self)@ == old(self)@.with_env(enclosing),
    {
        let e = EnvRef { index: self.environments.len() };
        self.environments.push(Scope { enclosing, values: Table::new() });
        assert(self@.environments =~= old(self)@.with_env(enclosing).environments);
        assert(self@.instances =~= old(self)@.instances);
        e
    }
}

impl EnvRef {
    /// A new outermost environment.
    pub fn new(heap: &mut Heap) -> (e: EnvRef)
        ensures
            e == old(heap)@.next_env(),
            final(heap)@ == old(heap)@.with_env(None),
    {
        heap.push_env(None)
    }

    /// A new environment inside `enclosing`.
    pub fn with_enclosing(enclosing: EnvRef, heap: &mut Heap) -> (e: EnvRef)
        ensures
            e == old(heap)@.next_env(),
            final(heap)@ == old(heap)@.with_env(Some(enclosing)),
    {
        heap.push_env(Some(enclosing))
    }

    /// Binds `name` to `value` in this environment, whether or not it was
    /// bound here before.
    pub fn define(&self, heap: &mut Heap, name: &str, value: Literal)
        ensures
            final(heap)@ == old(heap)@.define(*self, name@, value@),
    {
        if self.index < heap.environments.len() {
            heap.environments[self.index].values.insert(String::from_str(name), value);
            assert(heap@.environments =~= old(heap)@.define(*self, name@, value@).environments);
            assert(heap@.instances =~= old(heap)@.instances);
        }
    }

    /// The environment `distance` steps out from this one.
    pub fn ancestor(&self, heap: &Heap, distance: usize) -> (r: Option<EnvRef>)
        ensures
            r == heap@.ancestor(*self, distance as nat),
        decreases distance,
    {
        if self.index >= heap.environments.len() {
            None
        } else if distance == 0 {
            Some(*self)
        } else {
            match heap.environments[self.index].enclosing {
                Some(p) => p.ancestor(heap, distance - 1),
                None => None,
            }
        }
    }

    /// The outermost environment around this one.
    pub fn root(&self, heap: &Heap) -> (r: Option<EnvRef>)
        ensures
            r == heap@.root(*self),
        decreases self.index,
    {
        if self.index >= heap.environments.len() {
            None
        } else {
            match heap.environments[self.index].enclosing {
                Some(p) => if p.index < self.index {
                    p.root(heap)
                } else {
                    None
                },
                None => Some(*self),
            }
        }
    }

    /// The value of `name` in this environment itself.
    pub fn get_current(&self, heap: &Heap, name: &str) -> (r: Option<Literal>)
        ensures
            r is Some == heap@.get_current(*self, name@) is Some,
            r matches Some(v) ==> heap@.get_current(*self, name@) == Some(v@),
    {
        if self.index < heap.environments.len() {
            match heap.environments[self.index].values.get(name) {
                Some(v) => Some(v.clone()),
                None => None,
            }
        } else {
            None
        }
    }

    /// The value of `name` in the environment `distance` steps out.
    pub fn get_at_distance(&self, heap: &Heap, distance: usize, name: &str) -> (r: Option<Literal>)
        ensures
            r is Some == heap@.get_at_distance(*self, distance as nat, name@) is Some,
            r matches Some(v) ==> heap@.get_at_distance(*self, distance as nat, name@) == Some(v@),
    {
        match self.ancestor(heap, distance) {
            Some(a) => a.get_current(heap, name),
            None => None,
        }
    }

    /// The value of the global `name`.
    pub fn get_global(&self, heap: &Heap, name: &str) -> (r: Option<Literal>)
        ensures
            r is Some == heap@.get_global(*self, name@) is Some,
            r matches Some(v) ==> heap@.get_global(*self, name@) == Some(v@),
    {
        match self.root(heap) {
            Some(a) => a.get_current(heap, name),
            None => None,
        }
    }

    /// Assigns to `name` in this environment itself: an error unless the
    /// name is bound here.
    pub fn assign_current(&self, heap: &mut Heap, name: &str, value: Literal) -> (r: Result<
        (),
        String,
    >)
        ensures
            agrees(old(heap)@.assign_current(*self, name@, value@), r, old(heap)@, final(heap)@),
    {
        if self.index < heap.environments.len() && heap.environments[self.index].values.contains(name) {
            self.define(heap, name, value);
            Ok(())
        } else {
            Err(undefined_variable(name))
        }
    }

    /// Assigns to `name` in the environment `distance` steps out.
    pub fn assign_at_distance(&self, heap: &mut Heap, distance: usize, name: &str, value: Literal) -> (r:
        Result<(), String>)
        ensures
            agrees(
                old(heap)@.assign_at_distance(*self, distance as nat, name@, value@),
                r,
                old(heap)@,
                final(heap)@,
            ),
    {
        match self.ancestor(heap, distance) {
            Some(a) => a.assign_current(heap, name, value),
            None => Err(undefined_variable(name)),
        }
    }

    /// Assigns to the global `name`.
    pub fn assign_global(&self, heap: &mut Heap, name: &str, value: Literal) -> (r: Result<(), String>)
        ensures
            agrees(old(heap)@.assign_global(*self, name@, value@), r, old(heap)@, final(heap)@),
    {
        match self.root(heap) {
            Some(a) => a.assign_current(heap, name, value),
            None => Err(undefined_variable(name)),
        }
    }
}

/// Whether an assignment came out as its definition says: with the
/// same error text and the heap untouched, or with success and the heap
/// that it gives.
pub open spec fn agrees(expected: Assigned, r: Result<(), String>, before: HeapView, heap: HeapView) -> bool {
    match expected {
        Ok(h) => r is Ok && heap == h,
        Err(t) => r matches Err(s) && s@ == t && heap == before,
    }
}

/// The text of the error for a variable that does not exist.
fn undefined_variable(name: &str) -> (s: String)
    ensures
        s@ == undefined_variable_text(name@),
{
    let s = concat2("Undefined variable '", name);
    concat2(s.as_str(), "'")
}

/// The text of the error for a property that does not exist.
fn undefined_property(name: &str) -> (s: String)
    ensures
        s@ == undefined_property_text(name@),
{
    let s = concat2("Undefined property: '", name);
    concat2(s.as_str(), "'")
}

impl Function {
    /// Binds a method to an instance: the result closes over a new
    /// environment, inside the method's own, that holds `this`.
    pub fn bind(&self, instance: LoxInstance, heap: &mut Heap) -> (f: Function)
        ensures
            f == old(heap)@.bound(*self),
            final(heap)@ == old(heap)@.bind(*self, instance),
    {
        let env = EnvRef::with_enclosing(self.env, heap);
        env.define(heap, "this", Literal::ClassInstance(instance));
        Function {
            declaration: crate::tokens::share(&self.declaration),
            env,
            is_initializer: self.is_initializer,
        }
    }
}

/// What reading a property of an instance gives.
pub enum Property {
    /// The value of a field.
    Field(LiteralView),
    /// A method of the class, to be bound to the instance.
    Method(Function),
    /// Nothing: the instance has no such property.
    Missing,
}

impl HeapView {
    /// What the property `name` of an instance is: a field before a
    /// method.
    pub open spec fn property(self, i: LoxInstance, name: Seq<char>) -> Property {
        match self.field(i, name) {
            Some(v) => Property::Field(v),
            None => match self.method(i, name) {
                Some(m) => Property::Method(m),
                None => Property::Missing,
            },
        }
    }

    /// The heap after the property `name` of an instance is read: reading
    /// a method binds it.
    pub open spec fn after_get(self, i: LoxInstance, name: Seq<char>) -> HeapView {
        match self.property(i, name) {
            Property::Method(m) => self.bind(m, i),
            _ => self,
        }
    }

    /// The value that reading the property `name` of an instance gives,
    /// or the text of the error.
    pub open spec fn get_value(self, i: LoxInstance, name: Seq<char>) -> Result<LiteralView, Seq<char>> {
        match self.property(i, name) {
            Property::Field(v) => Ok(v),
            Property::Method(m) => Ok(
                LiteralView::Callable(
                    crate::tokens::LoxCallableView {
                        name,
                        callable: crate::tokens::CallableView::Function(self.bound(m)),
                    },
                ),
            ),
            Property::Missing => Err(undefined_property_text(name)),
        }
    }
}

impl LoxInstance {
    /// A new instance of `class`, without fields.
    pub fn new(class: Rc<Class>, heap: &mut Heap) -> (i: LoxInstance)
        ensures
            i == old(heap)@.next_instance(),
            final(heap)@ == old(heap)@.with_instance((*class)@),
    {
        let i = LoxInstance { index: heap.instances.len() };
        heap.instances.push(Instance { class, fields: Table::new() });
        assert(heap@.instances =~= old(heap)@.with_instance((*class)@).instances);
        assert(heap@.environments =~= old(heap)@.environments);
        i
    }

    /// The method `name` of the instance's class.
    pub fn find_method(&self, heap: &Heap, name: &str) -> (r: Option<Function>)
        ensures
            r == heap@.method(*self, name@),
    {
        if self.index < heap.instances.len() {
            heap.instances[self.index].class.find_method(name)
        } else {
            None
        }
    }

    /// Reads the property `name`: a field if the instance has one of that
    /// name, else a method of its class bound to the instance.
    pub fn get(&self, heap: &mut Heap, name: &str) -> (r: Result<Literal, String>)
        ensures
            final(heap)@ == old(heap)@.after_get(*self, name@),
            match old(heap)@.get_value(*self, name@) {
                Ok(v) => r matches Ok(x) && x@ == v,
                Err(t) => r matches Err(s) && s@ == t,
            },
    {
        if self.index < heap.instances.len() {
            match heap.instances[self.index].fields.get(name) {
                Some(value) => {
                    return Ok(value.clone());
                },
                None => {},
            }
        }
        match self.find_method(heap, name) {
            None => Err(undefined_property(name)),
            Some(method) => {
                let bound = method.bind(*self, heap);
                Ok(
                    Literal::Callable(
                        LoxCallable::new(String::from_str(name), Callable::Function(bound)),
                    ),
                )
            },
        }
    }

    /// Sets the field `name`, which need not exist yet.
    pub fn set(&self, heap: &mut Heap, name: &str, value: Literal)
        ensures
            final(heap)@ == old(heap)@.set_field(*self, name@, value@),
    {
        if self.index < heap.instances.len() {
            heap.instances[self.index].fields.insert(String::from_str(name), value);
            assert(heap@.instances =~= old(heap)@.set_field(*self, name@, value@).instances);
            assert(heap@.environments =~= old(heap)@.environments);
        }
    }

    /// The name of the instance's class.
    pub fn class_name(&self, heap: &Heap) -> (r: Option<String>)
        ensures
            r is Some == heap@.has_instance(*self),
            r matches Some(s) ==> s@ == heap@.instances[self.index as int].class.name,
    {
        if self.index < heap.instances.len() {
            Some(heap.instances[self.index].class.name.clone())
        } else {
            None
        }
    }
}

} // verus!
