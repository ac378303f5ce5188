//! The static pass that binds every use of a variable to its declaration.
//!
//! The resolver walks the syntax tree once, before anything runs. It keeps
//! a stack of scopes that mirrors the nesting of blocks, functions and
//! classes, reports the uses that the language forbids, and records for
//! each use of a local variable how many scopes lie between the use and
//! the declaration.

use vstd::prelude::*;
use std::collections::HashMap;
use std::rc::Rc;
use crate::ast::{Expr, FunctionStmt, Stmt};
use crate::table::Table;
use crate::text::{concat2, text_eq};
use crate::tokens::{Literal, Token};

verus! {

/// What the resolver refuses.
#[derive(Clone, Copy, Debug, PartialEq, Eq, Structural)]
pub enum ResolveError {
    /// A second declaration of a name in one local scope.
    AlreadyDeclared,
    /// A local variable read in its own initializer.
    ReadInOwnInitializer,
    /// `return` outside any function.
    ReturnAtTopLevel,
    /// `return` with a value inside an initializer.
    ReturnFromInitializer,
    /// `super` outside any class.
    SuperOutsideClass,
    /// `super` in a class that has no superclass.
    SuperWithoutSuperclass,
    /// `this` outside any class.
    ThisOutsideClass,
    /// A class that names itself as its superclass.
    InheritsFromItself,
}

/// The kind of function whose body is being resolved.
#[derive(Clone, Copy, Debug, PartialEq, Eq, Structural)]
pub enum FunctionType {
    Outside,
    Function,
    Initializer,
    Method,
}

/// The kind of class whose body is being resolved.
#[derive(Clone, Copy, Debug, PartialEq, Eq, Structural)]
pub enum ClassType {
    Outside,
    Class,
    Subclass,
}

/// The text of an error.
pub open spec fn error_text(e: ResolveError) -> Seq<char> {
    match e {
        ResolveError::AlreadyDeclared => "Already a variable with this name in this scope."@,
        ResolveError::ReadInOwnInitializer => "Can't read local variable in its own initializer."@,
        ResolveError::ReturnAtTopLevel => "Cannot return from top-level code."@,
        ResolveError::ReturnFromInitializer => "Cannot return a value from an initializer."@,
        ResolveError::SuperOutsideClass => "Can't use 'super' outside of a class."@,
        ResolveError::SuperWithoutSuperclass => "Can't use 'super' in a class with no superclass."@,
        ResolveError::ThisOutsideClass => "Can't use 'this' outside of a class."@,
        ResolveError::InheritsFromItself => "A class can't inherit from itself."@,
    }
}

impl ResolveError {
    /// The text of the error.
    pub fn message(&self) -> (s: String)
        ensures
            s@ == error_text(*self),
    {
        String::from_str(
            match self {
                ResolveError::AlreadyDeclared => "Already a variable with this name in this scope.",
                ResolveError::ReadInOwnInitializer => "Can't read local variable in its own initializer.",
                ResolveError::ReturnAtTopLevel => "Cannot return from top-level code.",
                ResolveError::ReturnFromInitializer => "Cannot return a value from an initializer.",
                ResolveError::SuperOutsideClass => "Can't use 'super' outside of a class.",
                ResolveError::SuperWithoutSuperclass => "Can't use 'super' in a class with no superclass.",
                ResolveError::ThisOutsideClass => "Can't use 'this' outside of a class.",
                ResolveError::InheritsFromItself => "A class can't inherit from itself.",
            },
        )
    }
}

/// One scope: for each name declared in it, whether its initializer has
/// finished.
pub type ScopeView = Map<Seq<char>, bool>;

/// The number of scopes between the innermost scope and the first scope at
/// or beyond distance `d` that holds `name`.
pub open spec fn depth_from(scopes: Seq<ScopeView>, name: Seq<char>, d: nat) -> Option<nat>
    decreases scopes.len() - d,
{
    if d >= scopes.len() {
        None
    } else if scopes[scopes.len() - 1 - d].contains_key(name) {
        Some(d)
    } else {
        depth_from(scopes, name, d + 1)
    }
}

/// The distance from the innermost scope to the nearest scope that holds
/// `name`; `None` where no scope holds it, which makes the name a global.
pub open spec fn depth_of(scopes: Seq<ScopeView>, name: Seq<char>) -> Option<nat> {
    depth_from(scopes, name, 0)
}

/// The state of the resolver as a mathematical value.
pub struct ResolverView {
    pub locals: Map<usize, usize>,
    pub scopes: Seq<ScopeView>,
    pub current_function: FunctionType,
    pub current_class: ClassType,
}

/// Where and why the resolver stopped: the state that it had reached,
/// and the error.
pub struct Failure {
    pub state: ResolverView,
    pub error: ResolveError,
}

/// The outcome of a resolving step: the state after it, or the state in
/// which the resolver stopped and the error that stopped it.
pub type Resolved = Result<ResolverView, Failure>;

impl ResolverView {
    /// The state before anything is resolved.
    pub open spec fn initial() -> ResolverView {
        ResolverView::resuming(Map::empty())
    }

    /// The state at the top level of a program, with what was found in
    /// the programs before it.
    pub open spec fn resuming(locals: Map<usize, usize>) -> ResolverView {
        ResolverView {
            locals,
            scopes: Seq::empty(),
            current_function: FunctionType::Outside,
            current_class: ClassType::Outside,
        }
    }

    /// The resolver stops in this state with `error`.
    pub open spec fn fail(self, error: ResolveError) -> Resolved {
        Err(Failure { state: self, error })
    }

    /// The state with one more scope, which holds nothing.
    pub open spec fn begin_scope(self) -> ResolverView {
        ResolverView { scopes: self.scopes.push(Map::empty()), ..self }
    }

    /// The state without the innermost scope.
    pub open spec fn end_scope(self) -> ResolverView {
        if self.scopes.len() > 0 {
            ResolverView { scopes: self.scopes.drop_last(), ..self }
        } else {
            self
        }
    }

    /// Marks `name` in the innermost scope; at the top level there is no
    /// scope and nothing is marked.
    pub open spec fn mark(self, name: Seq<char>, defined: bool) -> ResolverView {
        if self.scopes.len() > 0 {
            ResolverView {
                scopes: self.scopes.update(
                    self.scopes.len() - 1,
                    self.scopes.last().insert(name, defined),
                ),
                ..self
            }
        } else {
            self
        }
    }

    /// Declares `name`: an error where the innermost scope holds it
    /// already.
    pub open spec fn declare(self, name: Seq<char>) -> Resolved {
        if self.scopes.len() > 0 && self.scopes.last().contains_key(name) {
            self.fail(ResolveError::AlreadyDeclared)
        } else {
            Ok(self.mark(name, false))
        }
    }

    /// Marks `name` as ready for use in the innermost scope.
    pub open spec fn define(self, name: Seq<char>) -> ResolverView {
        self.mark(name, true)
    }

    /// Records the distance of the use `id` of `name`, if a scope holds the
    /// name.
    pub open spec fn resolve_local(self, id: usize, name: Seq<char>) -> ResolverView {
        match depth_of(self.scopes, name) {
            Some(d) => ResolverView { locals: self.locals.insert(id, d as usize), ..self },
            None => self,
        }
    }

    /// Whether `name` is declared in the innermost scope and its
    /// initializer has not finished.
    pub open spec fn in_own_initializer(self, name: Seq<char>) -> bool {
        self.scopes.len() > 0 && self.scopes.last().contains_key(name) && !self.scopes.last()[name]
    }

    /// The state inside a function of the kind `kind`.
    pub open spec fn with_function(self, kind: FunctionType) -> ResolverView {
        ResolverView { current_function: kind, ..self }
    }

    /// The state inside a class of the kind `kind`.
    pub open spec fn with_class(self, kind: ClassType) -> ResolverView {
        ResolverView { current_class: kind, ..self }
    }
}

/// Whether an expression is the literal `nil`.
pub open spec fn literal_nil(e: Expr) -> bool {
    e matches Expr::Literal { value, .. } && value is Nil
}

/// Resolving one expression.
pub open spec fn resolve_expression(st: ResolverView, e: Expr) -> Resolved
    decreases e, 0nat,
{
    match e {
        Expr::Assign { id, name, value } => match resolve_expression(st, *value) {
            Ok(s) => Ok(s.resolve_local(id, name.lexeme@)),
            Err(e) => Err(e),
        },
        Expr::Binary { left, right, .. } => match resolve_expression(st, *left) {
            Ok(s) => resolve_expression(s, *right),
            Err(e) => Err(e),
        },
        Expr::Call { callee, arguments, .. } => match resolve_expression(st, *callee) {
            Ok(s) => resolve_expressions(s, arguments, 0),
            Err(e) => Err(e),
        },
        Expr::Get { object, .. } => resolve_expression(st, *object),
        Expr::Grouping { expression, .. } => resolve_expression(st, *expression),
        Expr::Literal { .. } => Ok(st),
        Expr::Logical { left, right, .. } => match resolve_expression(st, *left) {
            Ok(s) => resolve_expression(s, *right),
            Err(e) => Err(e),
        },
        Expr::SetField { object, value, .. } => match resolve_expression(st, *value) {
            Ok(s) => resolve_expression(s, *object),
            Err(e) => Err(e),
        },
        Expr::Super { id, keyword, .. } => match st.current_class {
            ClassType::Outside => st.fail(ResolveError::SuperOutsideClass),
            ClassType::Class => st.fail(ResolveError::SuperWithoutSuperclass),
            ClassType::Subclass => Ok(st.resolve_local(id, keyword.lexeme@)),
        },
        Expr::This { id, keyword } => if st.current_class == ClassType::Outside {
            st.fail(ResolveError::ThisOutsideClass)
        } else {
            Ok(st.resolve_local(id, keyword.lexeme@))
        },
        Expr::Unary { right, .. } => resolve_expression(st, *right),
        Expr::Variable(v) => resolve_variable(st, v.id, v.name.lexeme@),
    }
}

/// Resolving a use of a variable.
pub open spec fn resolve_variable(st: ResolverView, id: usize, name: Seq<char>) -> Resolved {
    if st.in_own_initializer(name) {
        st.fail(ResolveError::ReadInOwnInitializer)
    } else {
        Ok(st.resolve_local(id, name))
    }
}

/// Resolving the expressions of a list from position `i` on, in order.
pub open spec fn resolve_expressions(st: ResolverView, es: Vec<Expr>, i: nat) -> Resolved
    decreases es, es.len() - i,
{
    if i >= es.len() {
        Ok(st)
    } else {
        match resolve_expression(st, es[i as int]) {
            Ok(s) => resolve_expressions(s, es, i + 1),
            Err(e) => Err(e),
        }
    }
}

/// Declaring and defining the parameters of a function from position `i`
/// on.
pub open spec fn resolve_params(st: ResolverView, ps: Seq<Token>, i: nat) -> Resolved
    decreases ps.len() - i,
{
    if i >= ps.len() {
        Ok(st)
    } else {
        match st.declare(ps[i as int].lexeme@) {
            Ok(s) => resolve_params(s.define(ps[i as int].lexeme@), ps, i + 1),
            Err(e) => Err(e),
        }
    }
}

/// Resolving a function: a new scope holds the parameters and the body.
pub open spec fn resolve_function(st: ResolverView, f: FunctionStmt, kind: FunctionType) -> Resolved
    decreases f, 0nat,
{
    match resolve_params(st.with_function(kind).begin_scope(), f.params@, 0) {
        Ok(s) => match resolve_statements(s, f.body, 0) {
            Ok(s2) => Ok(s2.end_scope().with_function(st.current_function)),
            Err(e) => Err(e),
        },
        Err(e) => Err(e),
    }
}

/// The kind of a method: `init` is the initializer.
pub open spec fn method_kind(name: Seq<char>) -> FunctionType {
    if name == "init"@ {
        FunctionType::Initializer
    } else {
        FunctionType::Method
    }
}

/// Resolving the methods of a class from position `i` on.
pub open spec fn resolve_methods(st: ResolverView, ms: Vec<Rc<FunctionStmt>>, i: nat) -> Resolved
    decreases ms, ms.len() - i,
{
    if i >= ms.len() {
        Ok(st)
    } else {
        match resolve_function(st, *ms[i as int], method_kind(ms[i as int].name.lexeme@)) {
            Ok(s) => resolve_methods(s, ms, i + 1),
            Err(e) => Err(e),
        }
    }
}

/// Resolving one statement.
pub open spec fn resolve_statement(st: ResolverView, s: Stmt) -> Resolved
    decreases s, 0nat,
{
    match s {
        Stmt::Block { statements, .. } => match resolve_statements(st.begin_scope(), statements, 0) {
            Ok(s) => Ok(s.end_scope()),
            Err(e) => Err(e),
        },
        Stmt::Class { name, superclass, methods, .. } => match st.declare(name.lexeme@) {
            Err(e) => Err(e),
            Ok(s0) => {
                let s1 = s0.define(name.lexeme@).with_class(ClassType::Class);
                let opened = match superclass {
                    Some(sup) => if name.lexeme@ == sup.name.lexeme@ {
                        s1.fail(ResolveError::InheritsFromItself)
                    } else {
                        match resolve_variable(
                            s1.with_class(ClassType::Subclass),
                            sup.id,
                            sup.name.lexeme@,
                        ) {
                            Ok(s2) => Ok(s2.begin_scope().define("super"@)),
                            Err(e) => Err(e),
                        }
                    },
                    None => Ok(s1),
                };
                match opened {
                    Err(e) => Err(e),
                    Ok(s3) => match resolve_methods(s3.begin_scope().define("this"@), methods, 0) {
                        Err(e) => Err(e),
                        Ok(s4) => {
                            let s5 = s4.end_scope();
                            let s6 = if superclass is Some {
                                s5.end_scope()
                            } else {
                                s5
                            };
                            Ok(s6.with_class(st.current_class))
                        },
                    },
                }
            },
        },
        Stmt::Expression { expression, .. } => resolve_expression(st, expression),
        Stmt::Function(f) => match st.declare(f.name.lexeme@) {
            Ok(s) => resolve_function(s.define(f.name.lexeme@), *f, FunctionType::Function),
            Err(e) => Err(e),
        },
        Stmt::If { condition, then_branch, else_branch, .. } => match resolve_expression(
            st,
            condition,
        ) {
            Ok(s) => match resolve_statement(s, *then_branch) {
                Ok(s2) => resolve_statement(s2, *else_branch),
                Err(e) => Err(e),
            },
            Err(e) => Err(e),
        },
        Stmt::Print { expression, .. } => resolve_expression(st, expression),
        Stmt::Return { value, .. } => if st.current_function == FunctionType::Outside {
            st.fail(ResolveError::ReturnAtTopLevel)
        } else if st.current_function == FunctionType::Initializer && !literal_nil(value) {
            st.fail(ResolveError::ReturnFromInitializer)
        } else {
            resolve_expression(st, value)
        },
        Stmt::Var { name, initializer, .. } => match st.declare(name.lexeme@) {
            Ok(s) => match resolve_expression(s, initializer) {
                Ok(s2) => Ok(s2.define(name.lexeme@)),
                Err(e) => Err(e),
            },
            Err(e) => Err(e),
        },
        Stmt::While { condition, body, .. } => match resolve_expression(st, condition) {
            Ok(s) => resolve_statement(s, *body),
            Err(e) => Err(e),
        },
    }
}

/// Resolving the statements of a list from position `i` on, in order.
pub open spec fn resolve_statements(st: ResolverView, ss: Vec<Stmt>, i: nat) -> Resolved
    decreases ss, ss.len() - i,
{
    if i >= ss.len() {
        Ok(st)
    } else {
        match resolve_statement(st, ss[i as int]) {
            Ok(s) => resolve_statements(s, ss, i + 1),
            Err(e) => Err(e),
        }
    }
}

/// The distances that resolving a program records, or the error that
/// stops it.
pub open spec fn resolve_program(ss: Vec<Stmt>) -> Result<Map<usize, usize>, ResolveError> {
    match resolve_statements(ResolverView::initial(), ss, 0) {
        Ok(s) => Ok(s.locals),
        Err(f) => Err(f.error),
    }
}

/// The stack of scopes that are open while the resolver walks the tree.
#[derive(Debug)]
pub struct Scopes {
    pub stack: Vec<Table<bool>>,
}

impl View for Scopes {
    type V = Seq<ScopeView>;

    open spec fn view(&self) -> Seq<ScopeView> {
        Seq::new(self.stack@.len(), |i: int| self.stack@[i]@)
    }
}

impl Scopes {
    /// No scope is open: the resolver is at the top level.
    pub fn new() -> (s: Scopes)
        ensures
            s@ == Seq::<ScopeView>::empty(),
    {
        let s = Scopes { stack: Vec::new() };
        assert(s@ =~= Seq::<ScopeView>::empty());
        s
    }

    /// Opens a scope inside the innermost one.
    pub fn begin_scope(&mut self)
        ensures
            final(self)@ == old(self)@.push(Map::empty()),
    {
        self.stack.push(Table::new());
        assert(self@ =~= old(self)@.push(Map::empty()));
    }

    /// Closes the innermost scope, if one is open.
    pub fn end_scope(&mut self)
        ensures
            final(self)@ == if old(self)@.len() > 0 {
                old(self)@.drop_last()
            } else {
                old(self)@
            },
    {
        let _ = self.stack.pop();
        proof {
            if old(self)@.len() > 0 {
                assert(self@ =~= old(self)@.drop_last());
            } else {
                assert(self@ =~= old(self)@);
            }
        }
    }

    /// Marks `name` in the innermost scope, if one is open.
    fn mark(&mut self, name: String, defined: bool)
        ensures
            final(self)@ == if old(self)@.len() > 0 {
                old(self)@.update(old(self)@.len() - 1, old(self)@.last().insert(name@, defined))
            } else {
                old(self)@
            },
    {
        match self.stack.pop() {
            Some(top) => {
                let mut top = top;
                top.insert(name, defined);
                self.stack.push(top);
                assert(self@ =~= old(self)@.update(
                    old(self)@.len() - 1,
                    old(self)@.last().insert(name@, defined),
                ));
            },
            None => {
                assert(self@ =~= old(self)@);
            },
        }
    }

    /// Marks `name` as declared, its initializer not finished, in the
    /// innermost scope; does nothing at the top level.
    pub fn declare(&mut self, name: String)
        ensures
            final(self)@ == if old(self)@.len() > 0 {
                old(self)@.update(old(self)@.len() - 1, old(self)@.last().insert(name@, false))
            } else {
                old(self)@
            },
    {
        self.mark(name, false)
    }

    /// Marks `name` as ready for use in the innermost scope; does nothing
    /// at the top level.
    pub fn define(&mut self, name: String)
        ensures
            final(self)@ == if old(self)@.len() > 0 {
                old(self)@.update(old(self)@.len() - 1, old(self)@.last().insert(name@, true))
            } else {
                old(self)@
            },
    {
        self.mark(name, true)
    }

    /// As `define`, for the names that the resolver itself brings in.
    pub fn force_define(&mut self, name: String)
        requires
            old(self)@.len() > 0,
        ensures
            final(self)@ == old(self)@.update(
                old(self)@.len() - 1,
                old(self)@.last().insert(name@, true),
            ),
    {
        self.mark(name, true)
    }

    /// Whether the innermost scope holds `name`.
    pub fn top_contains(&self, name: &str) -> (r: bool)
        ensures
            r == (self@.len() > 0 && self@.last().contains_key(name@)),
    {
        let n = self.stack.len();
        if n == 0 {
            false
        } else {
            self.stack[n - 1].contains(name)
        }
    }

    /// What the innermost scope holds for `name`.
    pub fn get(&self, name: &str) -> (r: Option<bool>)
        ensures
            r == if self@.len() > 0 && self@.last().contains_key(name@) {
                Some(self@.last()[name@])
            } else {
                None
            },
    {
        let n = self.stack.len();
        if n == 0 {
            None
        } else {
            match self.stack[n - 1].get(name) {
                Some(b) => Some(*b),
                None => None,
            }
        }
    }

    /// The distance from the innermost scope to the nearest scope that
    /// holds `name`.
    pub fn depth(&self, name: &str) -> (r: Option<usize>)
        ensures
            match r {
                Some(d) => depth_of(self@, name@) == Some(d as nat),
                None => depth_of(self@, name@) is None,
            },
    {
        let n = self.stack.len();
        let mut d: usize = 0;
        while d < n
            invariant
                n == self.stack.len(),
                d <= n,
                depth_of(self@, name@) == depth_from(self@, name@, d as nat),
            decreases n - d,
        {
            if self.stack[n - 1 - d].contains(name) {
                return Some(d);
            }
            d += 1;
        }
        None
    }
}

/// The resolver's result: for each use of a local variable, by the id of
/// its node, the number of scopes between the use and the declaration.
#[derive(Clone, Debug)]
pub struct Locals {
    pub distances: HashMap<usize, usize>,
}

impl View for Locals {
    type V = Map<usize, usize>;

    open spec fn view(&self) -> Map<usize, usize> {
        self.distances@
    }
}

impl Locals {
    /// No use is resolved: every variable is a global.
    pub fn new() -> (l: Locals)
        ensures
            l@ == Map::<usize, usize>::empty(),
    {
        Locals { distances: HashMap::new() }
    }

    /// The distance recorded for the node `id`; `None` for a global.
    pub fn get(&self, id: usize) -> (r: Option<usize>)
        ensures
            r == if self@.contains_key(id) {
                Some(self@[id])
            } else {
                None
            },
    {
        match self.distances.get(&id) {
            Some(d) => Some(*d),
            None => None,
        }
    }

    /// A copy of what was found.
    pub fn copy(&self) -> (l: Locals)
        ensures
            l@ == self@,
    {
        Locals { distances: self.distances.clone() }
    }

    /// Records the distance `depth` for the node `id`.
    pub fn resolve(&mut self, id: usize, depth: usize)
        ensures
            final(self)@ == old(self)@.insert(id, depth),
    {
        self.distances.insert(id, depth);
    }
}

/// The resolver.
pub struct Resolver {
    pub locals: Locals,
    pub scopes: Scopes,
    pub current_function: FunctionType,
    pub current_class: ClassType,
}

impl View for Resolver {
    type V = ResolverView;

    open spec fn view(&self) -> ResolverView {
        ResolverView {
            locals: self.locals@,
            scopes: self.scopes@,
            current_function: self.current_function,
            current_class: self.current_class,
        }
    }
}

/// Whether a step of the resolver came out as its definition says: with
/// success and the state that it gives, or with the same error and the
/// resolver left in the state in which the definition stops.
pub open spec fn agrees(expected: Resolved, r: Result<(), ResolveError>, state: ResolverView) -> bool {
    match expected {
        Ok(s) => r is Ok && state == s,
        Err(f) => r == Err::<(), ResolveError>(f.error) && state == f.state,
    }
}

/// Whether an expression is the literal `nil`.
pub fn is_literal_nil(expr: &Expr) -> (r: bool)
    ensures
        r == literal_nil(*expr),
{
    match expr {
        Expr::Literal { value, .. } => match value {
            Literal::Nil => true,
            _ => false,
        },
        _ => false,
    }
}

impl Resolver {
    /// A resolver at the top level of a program.
    pub fn new() -> (r: Resolver)
        ensures
            r@ == ResolverView::initial(),
    {
        Resolver::resuming(Locals::new())
    }

    /// A resolver at the top level of a program that adds to what was
    /// found in the programs before it.
    pub fn resuming(locals: Locals) -> (r: Resolver)
        ensures
            r@ == ResolverView::resuming(locals@),
    {
        Resolver {
            locals,
            scopes: Scopes::new(),
            current_function: FunctionType::Outside,
            current_class: ClassType::Outside,
        }
    }

    /// Opens a scope.
    pub fn begin_scope(&mut self)
        ensures
            final(self)@ == old(self)@.begin_scope(),
    {
        self.scopes.begin_scope()
    }

    /// Closes the innermost scope.
    pub fn end_scope(&mut self)
        ensures
            final(self)@ == old(self)@.end_scope(),
    {
        self.scopes.end_scope()
    }

    /// Defines a name that the resolver itself brings in, such as `this`.
    pub fn force_define(&mut self, name: &str)
        requires
            old(self)@.scopes.len() > 0,
        ensures
            final(self)@ == old(self)@.define(name@),
    {
        self.scopes.force_define(String::from_str(name));
    }

    /// Declares `name` in the innermost scope. A name can be declared
    /// only once in a local scope; at the top level any number of times.
    pub fn declare(&mut self, name: &str) -> (r: Result<(), ResolveError>)
        ensures
            agrees(old(self)@.declare(name@), r, final(self)@),
            r is Err ==> final(self)@ == old(self)@,
    {
        if self.scopes.top_contains(name) {
            return Err(ResolveError::AlreadyDeclared);
        }
        self.scopes.declare(String::from_str(name));
        Ok(())
    }

    /// Marks `name` as ready for use.
    pub fn define(&mut self, name: &str)
        ensures
            final(self)@ == old(self)@.define(name@),
    {
        self.scopes.define(String::from_str(name));
    }

    /// Records how far the use `id` of `name` is from its declaration;
    /// records nothing for a global.
    pub fn resolve_local(&mut self, id: usize, name: &str)
        ensures
            final(self)@ == old(self)@.resolve_local(id, name@),
    {
        match self.scopes.depth(name) {
            Some(d) => {
                self.locals.resolve(id, d);
            },
            None => {},
        }
    }

    /// Resolves a use of a variable, which must not stand in the
    /// initializer of the variable itself.
    fn resolve_variable(&mut self, id: usize, name: &str) -> (r: Result<(), ResolveError>)
        ensures
            agrees(resolve_variable(old(self)@, id, name@), r, final(self)@),
            r is Err ==> final(self)@ == old(self)@,
    {
        match self.scopes.get(name) {
            Some(defined) => {
                if !defined {
                    return Err(ResolveError::ReadInOwnInitializer);
                }
            },
            None => {},
        }
        self.resolve_local(id, name);
        Ok(())
    }

    /// Resolves the statements of a program or of a body, in order.
    pub fn resolve(&mut self, statements: &Vec<Stmt>) -> (r: Result<(), ResolveError>)
        ensures
            agrees(resolve_statements(old(self)@, *statements, 0), r, final(self)@),
        decreases statements, statements.len(),
    {
        let mut i: usize = 0;
        while i < statements.len()
            invariant
                i <= statements.len(),
                resolve_statements(old(self)@, *statements, 0) == resolve_statements(
                    self@,
                    *statements,
                    i as nat,
                ),
            decreases statements.len() - i,
        {
            match self.resolve_statement(&statements[i]) {
                Ok(()) => {},
                Err(e) => {
                    return Err(e);
                },
            }
            i += 1;
        }
        Ok(())
    }

    /// Resolves the arguments of a call, in order.
    fn resolve_arguments(&mut self, arguments: &Vec<Expr>) -> (r: Result<(), ResolveError>)
        ensures
            agrees(resolve_expressions(old(self)@, *arguments, 0), r, final(self)@),
        decreases arguments, arguments.len(),
    {
        let mut i: usize = 0;
        while i < arguments.len()
            invariant
                i <= arguments.len(),
                resolve_expressions(old(self)@, *arguments, 0) == resolve_expressions(
                    self@,
                    *arguments,
                    i as nat,
                ),
            decreases arguments.len() - i,
        {
            match self.resolve_expression(&arguments[i]) {
                Ok(()) => {},
                Err(e) => {
                    return Err(e);
                },
            }
            i += 1;
        }
        Ok(())
    }

    /// Declares and defines the parameters of a function.
    fn resolve_params(&mut self, params: &Vec<Token>) -> (r: Result<(), ResolveError>)
        ensures
            agrees(resolve_params(old(self)@, params@, 0), r, final(self)@),
    {
        let mut i: usize = 0;
        while i < params.len()
            invariant
                i <= params.len(),
                resolve_params(old(self)@, params@, 0) == resolve_params(self@, params@, i as nat),
            decreases params.len() - i,
        {
            match self.declare(params[i].lexeme.as_str()) {
                Ok(()) => {},
                Err(e) => {
                    return Err(e);
                },
            }
            self.define(params[i].lexeme.as_str());
            i += 1;
        }
        Ok(())
    }

    /// Resolves the methods of a class.
    fn resolve_methods(&mut self, methods: &Vec<Rc<FunctionStmt>>) -> (r: Result<(), ResolveError>)
        ensures
            agrees(resolve_methods(old(self)@, *methods, 0), r, final(self)@),
        decreases methods, methods.len(),
    {
        let mut i: usize = 0;
        while i < methods.len()
            invariant
                i <= methods.len(),
                resolve_methods(old(self)@, *methods, 0) == resolve_methods(
                    self@,
                    *methods,
                    i as nat,
                ),
            decreases methods.len() - i,
        {
            let method = &methods[i];
            let kind = if text_eq(method.name.lexeme.as_str(), "init") {
                FunctionType::Initializer
            } else {
                FunctionType::Method
            };
            match self.resolve_function(method, kind) {
                Ok(()) => {},
                Err(e) => {
                    return Err(e);
                },
            }
            i += 1;
        }
        Ok(())
    }

    /// Resolves an expression and everything inside it.
    pub fn resolve_expression(&mut self, expression: &Expr) -> (r: Result<(), ResolveError>)
        ensures
            agrees(resolve_expression(old(self)@, *expression), r, final(self)@),
        decreases expression, 0nat,
    {
        match expression {
            Expr::Assign { id, name, value } => {
                self.resolve_expression(value)?;
                self.resolve_local(*id, name.lexeme.as_str());
                Ok(())
            },
            Expr::Binary { left, right, .. } => {
                self.resolve_expression(left)?;
                self.resolve_expression(right)
            },
            Expr::Call { callee, arguments, .. } => {
                self.resolve_expression(callee)?;
                self.resolve_arguments(arguments)
            },
            Expr::Get { object, .. } => self.resolve_expression(object),
            Expr::Grouping { expression, .. } => self.resolve_expression(expression),
            Expr::Literal { .. } => Ok(()),
            Expr::Logical { left, right, .. } => {
                self.resolve_expression(left)?;
                self.resolve_expression(right)
            },
            Expr::SetField { object, value, .. } => {
                self.resolve_expression(value)?;
                self.resolve_expression(object)
            },
            Expr::Super { id, keyword, .. } => match self.current_class {
                ClassType::Outside => Err(ResolveError::SuperOutsideClass),
                ClassType::Class => Err(ResolveError::SuperWithoutSuperclass),
                ClassType::Subclass => {
                    self.resolve_local(*id, keyword.lexeme.as_str());
                    Ok(())
                },
            },
            Expr::This { id, keyword } => {
                if self.current_class == ClassType::Outside {
                    return Err(ResolveError::ThisOutsideClass);
                }
                self.resolve_local(*id, keyword.lexeme.as_str());
                Ok(())
            },
            Expr::Unary { right, .. } => self.resolve_expression(right),
            Expr::Variable(v) => self.resolve_variable(v.id, v.name.lexeme.as_str()),
        }
    }

    /// Resolves a function: its parameters and its body live in a scope of
    /// their own, whether or not the function is ever called.
    pub fn resolve_function(&mut self, stmt: &FunctionStmt, function_type: FunctionType) -> (r:
        Result<(), ResolveError>)
        ensures
            agrees(resolve_function(old(self)@, *stmt, function_type), r, final(self)@),
        decreases stmt, 0nat,
    {
        let enclosing_function = self.current_function;
        self.current_function = function_type;
        self.begin_scope();
        self.resolve_params(&stmt.params)?;
        self.resolve(&stmt.body)?;
        self.end_scope();
        self.current_function = enclosing_function;
        Ok(())
    }

    /// Resolves a statement and everything inside it.
    pub fn resolve_statement(&mut self, statement: &Stmt) -> (r: Result<(), ResolveError>)
        ensures
            agrees(resolve_statement(old(self)@, *statement), r, final(self)@),
        decreases statement, 0nat,
    {
        match statement {
            Stmt::Block { statements, .. } => {
                self.begin_scope();
                self.resolve(statements)?;
                self.end_scope();
                Ok(())
            },
            Stmt::Class { name, superclass, methods, .. } => {
                self.declare(name.lexeme.as_str())?;
                self.define(name.lexeme.as_str());
                let enclosing_class = self.current_class;
                self.current_class = ClassType::Class;
                match superclass {
                    Some(sup) => {
                        if text_eq(name.lexeme.as_str(), sup.name.lexeme.as_str()) {
                            return Err(ResolveError::InheritsFromItself);
                        }
                        self.current_class = ClassType::Subclass;
                        self.resolve_variable(sup.id, sup.name.lexeme.as_str())?;
                        self.begin_scope();
                        self.define("super");
                    },
                    None => {},
                }
                self.begin_scope();
                self.force_define("this");
                self.resolve_methods(methods)?;
                self.end_scope();
                if superclass.is_some() {
                    self.end_scope();
                }
                self.current_class = enclosing_class;
                Ok(())
            },
            Stmt::Expression { expression, .. } => self.resolve_expression(expression),
            Stmt::Function(f) => {
                self.declare(f.name.lexeme.as_str())?;
                self.define(f.name.lexeme.as_str());
                self.resolve_function(f, FunctionType::Function)
            },
            Stmt::If { condition, then_branch, else_branch, .. } => {
                self.resolve_expression(condition)?;
                self.resolve_statement(then_branch)?;
                self.resolve_statement(else_branch)
            },
            Stmt::Print { expression, .. } => self.resolve_expression(expression),
            Stmt::Return { value, .. } => {
                if self.current_function == FunctionType::Outside {
                    return Err(ResolveError::ReturnAtTopLevel);
                }
                if self.current_function == FunctionType::Initializer && !is_literal_nil(value) {
                    return Err(ResolveError::ReturnFromInitializer);
                }
                self.resolve_expression(value)
            },
            Stmt::Var { name, initializer, .. } => {
                self.declare(name.lexeme.as_str())?;
                self.resolve_expression(initializer)?;
                self.define(name.lexeme.as_str());
                Ok(())
            },
            Stmt::While { condition, body, .. } => {
                self.resolve_expression(condition)?;
                self.resolve_statement(body)
            },
        }
    }
}

/// Puts the resolver's name before the text of an error.
pub fn prepend_resolver_error(error: ResolveError) -> (r: Vec<String>)
    ensures
        r@.len() == 1,
        r@[0]@ == "Resolver Error: "@ + error_text(error),
{
    let message = error.message();
    let mut r: Vec<String> = Vec::new();
    r.push(concat2("Resolver Error: ", message.as_str()));
    r
}

/// Resolves a program: the distance of every use of a local variable, or
/// the first error as a text.
pub fn resolve_locals(statements: &Vec<Stmt>) -> (r: Result<Locals, Vec<String>>)
    ensures
        match resolve_program(*statements) {
            Ok(m) => r matches Ok(l) && l@ == m,
            Err(e) => r matches Err(t) && t@.len() == 1 && t@[0]@ == "Resolver Error: "@
                + error_text(e),
        },
{
    let mut resolver = Resolver::new();
    match resolver.resolve(statements) {
        Ok(()) => Ok(resolver.locals),
        Err(e) => Err(prepend_resolver_error(e)),
    }
}

} // verus!
