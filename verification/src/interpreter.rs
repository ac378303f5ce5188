//! The interpreter: it runs a resolved program against a heap.

use vstd::prelude::*;
use vstd::pervasive::unreached;
use std::rc::Rc;
use crate::ast::{Expr, FunctionStmt, Stmt};
use crate::environment::{Heap, HeapView};
use crate::equality::equal;
use crate::number::Number;
use crate::readings::{
    law_arguments_with_more, law_evaluate_with_more, law_execute_with_more,
    law_prefix_is_transitive,
};
use crate::resolver::Locals;
use crate::semantics::{
    binary, bind_params, call, call_function, declare_class, equality, evaluate,
    evaluate_arguments, execute, execute_block, literal_text, look_up,
    methods_map, number_flow, read_variable, run_while, this_of, truthy, unary, undefined_text,
    Flow, StateView, Step,
};
use crate::table::Table;
use crate::text::{concat2, count_to_string, text_eq, texts};
use crate::tokens::{
    share, Callable, Class, EnvRef, Function, Literal, LiteralView, LoxCallable, LoxInstance,
    Native, Token, TokenType,
};

verus! {

/// How running a piece of a program can end other than normally.
#[derive(Debug)]
pub enum Error {
    /// A `return` statement on its way to the call that it ends. This is
    /// no failure: the call takes the value as its result.
    ReturnValue(Literal),
    /// A runtime error, with its text.
    SingleError(String),
    /// The budget was used up.
    OutOfFuel,
}

/// The flow that an error stands for.
pub open spec fn error_flow(e: Error) -> Flow {
    match e {
        Error::ReturnValue(v) => Flow::Return(v@),
        Error::SingleError(t) => Flow::Error(t@),
        Error::OutOfFuel => Flow::OutOfFuel,
    }
}

/// The flow that the result of evaluating an expression stands for.
pub open spec fn flow_of(r: Result<Literal, Error>) -> Flow {
    match r {
        Ok(v) => Flow::Normal(v@),
        Err(e) => error_flow(e),
    }
}

/// The flow that the result of running a statement stands for.
pub open spec fn flow_of_statement(r: Result<(), Error>) -> Flow {
    match r {
        Ok(_) => Flow::Normal(LiteralView::Nil),
        Err(e) => error_flow(e),
    }
}

/// What the host is told of how a program ended: nothing, or the text of
/// what went wrong.
pub open spec fn report(heap: HeapView, flow: Flow) -> Result<(), Seq<char>> {
    match flow {
        Flow::Normal(_) => Ok(()),
        Flow::Return(v) => Err("Unexpected return value: "@ + literal_text(heap, v)),
        Flow::Error(t) => Err(t),
        Flow::OutOfFuel => Err("Execution budget exhausted."@),
        Flow::Starved => Err("A host function gave nothing."@),
    }
}

/// Whether the host was told what `expected` says: nothing, or the one
/// text.
pub open spec fn reported(expected: Result<(), Seq<char>>, r: Result<(), Vec<String>>) -> bool {
    match expected {
        Ok(_) => r is Ok,
        Err(t) => r matches Err(e) && e@.len() == 1 && e@[0]@ == t,
    }
}

/// The views of a sequence of values.
pub open spec fn views(values: Seq<Literal>) -> Seq<LiteralView> {
    values.map_values(|v: Literal| v@)
}

/// A runtime error with the text `text`.
fn error(text: &str) -> (e: Error)
    ensures
        e matches Error::SingleError(t) && t@ == text@,
{
    Error::SingleError(String::from_str(text))
}

/// `nil` and `false` count as false; every other value counts as true.
pub fn evaluate_truthy(v: &Literal) -> (r: bool)
    ensures
        r == truthy(v@),
{
    match v {
        Literal::Nil => false,
        Literal::Boolean(b) => *b,
        _ => true,
    }
}

/// Joins three texts.
fn join3(a: &str, b: &str, c: &str) -> (s: String)
    ensures
        s@ == a@ + b@ + c@,
{
    let mut s = String::from_str(a);
    s.append(b);
    s.append(c);
    s
}

/// The text that `print` writes for a value.
pub fn value_text(heap: &Heap, v: &Literal) -> (s: String)
    ensures
        s@ == literal_text(heap@, v@),
{
    match v {
        Literal::Nil => String::from_str("nil"),
        Literal::Boolean(b) => if *b {
            String::from_str("true")
        } else {
            String::from_str("false")
        },
        Literal::Number(n) => n.to_text(),
        Literal::String(s) => s.clone(),
        Literal::Callable(c) => match &c.callable {
            Callable::Class(_) => join3("<class ", c.name.as_str(), ">"),
            _ => join3("<fn ", c.name.as_str(), ">"),
        },
        Literal::ClassInstance(i) => match i.class_name(heap) {
            Some(name) => join3("<instance ", name.as_str(), ">"),
            None => String::from_str("<instance>"),
        },
    }
}

/// The text of an error that names an operator and its operands.
fn operands_text(prefix: &str, heap: &Heap, l: &Literal, operator: &str, r: &Literal) -> (s: String)
    ensures
        s@ == prefix@ + literal_text(heap@, l@) + " "@ + operator@ + " "@ + literal_text(heap@, r@),
{
    let mut s = String::from_str(prefix);
    s.append(value_text(heap, l).as_str());
    s.append(" ");
    s.append(operator);
    s.append(" ");
    s.append(value_text(heap, r).as_str());
    s
}

/// The result of an arithmetic operation on `l` and `r`, where `n` is
/// what the arithmetic gave: the number, or an error where it gave
/// none, because the result cannot be represented or the divisor is
/// zero.
pub fn number_result(n: Option<Number>, heap: &Heap, l: &Literal, operator: &Token, r: &Literal) -> (res:
    Result<Literal, Error>)
    ensures
        flow_of(res) == number_flow(heap@, crate::number::number_view(n), l@, operator.lexeme@, r@),
{
    match n {
        Some(x) => Ok(Literal::Number(x)),
        None => Err(
            Error::SingleError(
                operands_text(
                    "Result out of range for binary operation: ",
                    heap,
                    l,
                    operator.lexeme.as_str(),
                    r,
                ),
            ),
        ),
    }
}

/// Applies `==` or `!=`; every other operator is an error here.
fn equality_operation(heap: &Heap, l: &Literal, operator: &Token, r: &Literal, fuel: usize) -> (res:
    Result<Literal, Error>)
    ensures
        flow_of(res) == equality(heap@, l@, *operator, r@, fuel as nat),
{
    match operator.token_type {
        TokenType::EqualEqual => match equal(heap, l, r, fuel) {
            Some(b) => Ok(Literal::Boolean(b)),
            None => Err(Error::OutOfFuel),
        },
        TokenType::BangEqual => match equal(heap, l, r, fuel) {
            Some(b) => Ok(Literal::Boolean(!b)),
            None => Err(Error::OutOfFuel),
        },
        _ => Err(
            Error::SingleError(
                operands_text(
                    "Unsupported types for binary operation: ",
                    heap,
                    l,
                    operator.lexeme.as_str(),
                    r,
                ),
            ),
        ),
    }
}

/// Applies a binary operator to the values of its operands. The budget
/// is for comparing.
pub fn binary_operation(heap: &Heap, l: &Literal, operator: &Token, r: &Literal, fuel: usize) -> (res:
    Result<Literal, Error>)
    ensures
        flow_of(res) == binary(heap@, l@, *operator, r@, fuel as nat),
{
    match (l, r) {
        (Literal::Number(x), Literal::Number(y)) => match operator.token_type {
            TokenType::Plus => number_result(x.checked_add(*y), heap, l, operator, r),
            TokenType::Minus => number_result(x.checked_sub(*y), heap, l, operator, r),
            TokenType::Slash => number_result(x.checked_div(*y), heap, l, operator, r),
            TokenType::Star => number_result(x.checked_mul(*y), heap, l, operator, r),
            TokenType::Greater => Ok(Literal::Boolean(y.less_than(*x))),
            TokenType::GreaterEqual => Ok(Literal::Boolean(!x.less_than(*y))),
            TokenType::Less => Ok(Literal::Boolean(x.less_than(*y))),
            TokenType::LessEqual => Ok(Literal::Boolean(!y.less_than(*x))),
            _ => equality_operation(heap, l, operator, r, fuel),
        },
        (Literal::String(x), Literal::String(y)) => match operator.token_type {
            TokenType::Plus => Ok(Literal::String(concat2(x.as_str(), y.as_str()))),
            _ => equality_operation(heap, l, operator, r, fuel),
        },
        _ => equality_operation(heap, l, operator, r, fuel),
    }
}

/// The result of negating `v`, where `negated` is what multiplying a
/// number by minus one gave: the number, or an error where `v` is no
/// number or the multiplication gave none.
pub fn negation_result(heap: &Heap, v: &Literal, negated: Option<Number>) -> (res: Result<
    Literal,
    Error,
>)
    ensures
        flow_of(res) == match negated {
            Some(x) => Flow::Normal(LiteralView::Number(x@)),
            None => Flow::Error(crate::semantics::negation_text(heap@, v@)),
        },
{
    match negated {
        Some(x) => Ok(Literal::Number(x)),
        None => Err(
            Error::SingleError(
                concat2(
                    "Invalid attempt to perform numerical negation on non-number: ",
                    value_text(heap, v).as_str(),
                ),
            ),
        ),
    }
}

/// Applies a unary operator to the value of its operand.
pub fn unary_operation(heap: &Heap, operator: &Token, v: &Literal) -> (res: Result<Literal, Error>)
    ensures
        flow_of(res) == unary(heap@, *operator, v@),
{
    match operator.token_type {
        TokenType::Bang => Ok(Literal::Boolean(!evaluate_truthy(v))),
        TokenType::Minus => {
            let negated = match v {
                Literal::Number(n) => n.checked_mul(Number::from_i64(-1)),
                _ => None,
            };
            negation_result(heap, v, negated)
        },
        _ => {
            let mut s = String::from_str("The value '");
            s.append(value_text(heap, v).as_str());
            s.append("' does not support the unary operation '");
            s.append(operator.lexeme.as_str());
            s.append("'");
            Err(Error::SingleError(s))
        },
    }
}

/// The environments that are open while a program runs: the innermost is
/// the last, and the first holds the globals. With them goes what the
/// resolver found.
#[derive(Debug)]
pub struct Environments {
    pub locals: Locals,
    pub stack: Vec<EnvRef>,
}

impl Environments {
    /// The environments at the start of a program: only the globals.
    pub fn new(globals: EnvRef, locals: Locals) -> (e: Environments)
        ensures
            e.stack@ == seq![globals],
            e.locals == locals,
    {
        let mut stack: Vec<EnvRef> = Vec::new();
        stack.push(globals);
        assert(stack@ =~= seq![globals]);
        Environments { locals, stack }
    }

    /// Enters `scope`.
    pub fn push_scope(&mut self, scope: EnvRef)
        ensures
            final(self).stack@ == old(self).stack@.push(scope),
            final(self).locals == old(self).locals,
    {
        self.stack.push(scope)
    }

    /// Leaves the innermost environment, if one is open.
    pub fn pop_scope(&mut self)
        ensures
            final(self).stack@ == if old(self).stack@.len() > 0 {
                old(self).stack@.drop_last()
            } else {
                old(self).stack@
            },
            final(self).locals == old(self).locals,
    {
        let _ = self.stack.pop();
    }

    /// The innermost environment.
    pub fn peek(&self) -> (e: EnvRef)
        requires
            self.stack@.len() > 0,
        ensures
            e == self.stack@.last(),
    {
        self.stack[self.stack.len() - 1]
    }

    /// Assigns to `name` in the innermost environment.
    pub fn assign(&self, heap: &mut Heap, name: &str, value: Literal) -> (r: Result<(), String>)
        requires
            self.stack@.len() > 0,
        ensures
            crate::environment::agrees(
                old(heap)@.assign_current(self.stack@.last(), name@, value@),
                r,
                old(heap)@,
                final(heap)@,
            ),
    {
        self.peek().assign_current(heap, name, value)
    }

    /// Assigns to the variable `name` that the node `id` names: as far
    /// out as the resolver found it, or among the globals.
    pub fn assign_expression(&self, heap: &mut Heap, id: usize, name: &str, value: Literal) -> (r:
        Result<(), String>)
        requires
            self.stack@.len() > 0,
        ensures
            crate::environment::agrees(
                if self.locals@.contains_key(id) {
                    old(heap)@.assign_at_distance(
                        self.stack@.last(),
                        self.locals@[id] as nat,
                        name@,
                        value@,
                    )
                } else {
                    old(heap)@.assign_global(self.stack@.last(), name@, value@)
                },
                r,
                old(heap)@,
                final(heap)@,
            ),
    {
        match self.locals.get(id) {
            Some(distance) => self.assign_at_distance(heap, distance, name, value),
            None => self.peek().assign_global(heap, name, value),
        }
    }

    /// Assigns to `name` in the environment `distance` steps out.
    pub fn assign_at_distance(&self, heap: &mut Heap, distance: usize, name: &str, value: Literal) -> (r:
        Result<(), String>)
        requires
            self.stack@.len() > 0,
        ensures
            crate::environment::agrees(
                old(heap)@.assign_at_distance(self.stack@.last(), distance as nat, name@, value@),
                r,
                old(heap)@,
                final(heap)@,
            ),
    {
        self.peek().assign_at_distance(heap, distance, name, value)
    }

    /// The value of `name` in the environment `distance` steps out.
    pub fn get_at_distance(&self, heap: &Heap, distance: usize, name: &str) -> (r: Option<Literal>)
        requires
            self.stack@.len() > 0,
        ensures
            r is Some == heap@.get_at_distance(self.stack@.last(), distance as nat, name@) is Some,
            r matches Some(v) ==> heap@.get_at_distance(self.stack@.last(), distance as nat, name@)
                == Some(v@),
    {
        self.peek().get_at_distance(heap, distance, name)
    }

    /// The value of the global `name`.
    pub fn get_global(&self, heap: &Heap, name: &str) -> (r: Option<Literal>)
        requires
            self.stack@.len() > 0,
        ensures
            r is Some == heap@.get_global(self.stack@.last(), name@) is Some,
            r matches Some(v) ==> heap@.get_global(self.stack@.last(), name@) == Some(v@),
    {
        self.peek().get_global(heap, name)
    }

    /// The value of the variable `name` that the node `id` names, or an
    /// error that names the variable.
    pub fn look_up_variable(&self, heap: &Heap, name: &str, id: usize) -> (r: Result<Literal, String>)
        requires
            self.stack@.len() > 0,
        ensures
            match look_up(heap@, self.locals@, self.stack@.last(), id, name@) {
                Some(v) => r matches Ok(x) && x@ == v,
                None => r matches Err(t) && t@ == undefined_text(name@),
            },
    {
        let value = match self.locals.get(id) {
            None => self.get_global(heap, name),
            Some(distance) => self.get_at_distance(heap, distance, name),
        };
        match value {
            None => {
                let s = concat2("variable with name '", name);
                Err(concat2(s.as_str(), "' not defined"))
            },
            Some(literal) => Ok(literal),
        }
    }
}

/// The interpreter: the heap of the program, the environments that are
/// open, the lines printed so far, and what the host has given.
#[derive(Debug)]
pub struct Interpreter {
    pub environments: Environments,
    pub heap: Heap,
    pub output: Vec<String>,
    /// What the calls of host functions have given, in order.
    pub readings: Vec<Literal>,
}

impl View for Interpreter {
    type V = StateView;

    open spec fn view(&self) -> StateView {
        StateView {
            heap: self.heap@,
            output: texts(self.output@),
            readings: views(self.readings@),
            taken: self.readings@.len(),
        }
    }
}

impl Interpreter {
    /// An environment is open, so that the program has where to run.
    pub open spec fn ready(&self) -> bool {
        self.environments.stack@.len() > 0
    }

    /// The innermost environment.
    pub open spec fn env(&self) -> EnvRef {
        self.environments.stack@.last()
    }

    /// What the resolver found.
    pub open spec fn locals(&self) -> Map<usize, usize> {
        self.environments.locals@
    }

    /// The same environments are open as in `before`.
    pub open spec fn same_frame(&self, before: Interpreter) -> bool {
        self.environments.stack@ == before.environments.stack@ && self.environments.locals
            == before.environments.locals
    }

    /// The state that the interpreter starts from, where the host gives
    /// the readings that `after` has taken.
    pub open spec fn start(&self, after: Interpreter) -> StateView {
        self@.with_readings(after@.readings)
    }

    /// The interpreter has gone from `before` to this state as `step`
    /// says, and ended as it says; `step` is the step from `before`
    /// where the host gives the readings that the interpreter has now
    /// taken.
    pub open spec fn follows(&self, before: Interpreter, step: Step, flow: Flow) -> bool {
        &&& self.same_frame(before)
        &&& before@.readings.is_prefix_of(self@.readings)
        &&& self@ == step.state
        &&& flow == step.flow
    }

    /// The interpreter has evaluated `expression` from `before`: it is in
    /// the state, and `r` is the result, that the language gives for the
    /// readings that the interpreter has now taken.
    pub open spec fn evaluates(
        &self,
        before: Interpreter,
        expression: Expr,
        fuel: nat,
        r: Result<Literal, Error>,
    ) -> bool {
        self.follows(
            before,
            evaluate(before.start(*self), before.locals(), before.env(), expression, fuel),
            flow_of(r),
        )
    }

    /// The interpreter has run `statement` from `before`: it is in the
    /// state, and `r` is the result, that the language gives for the
    /// readings that the interpreter has now taken.
    pub open spec fn executes(
        &self,
        before: Interpreter,
        statement: Stmt,
        fuel: nat,
        r: Result<(), Error>,
    ) -> bool {
        self.follows(
            before,
            execute(before.start(*self), before.locals(), before.env(), statement, fuel),
            flow_of_statement(r),
        )
    }

    /// An interpreter for a program that the resolver has gone through.
    pub fn new(heap: Heap, globals: EnvRef, locals: Locals) -> (i: Interpreter)
        ensures
            i.ready(),
            i.env() == globals,
            i.environments.locals == locals,
            i.heap == heap,
            i.output@.len() == 0,
            i.readings@.len() == 0,
    {
        Interpreter {
            environments: Environments::new(globals, locals),
            heap,
            output: Vec::new(),
            readings: Vec::new(),
        }
    }

    /// An interpreter that goes on from what earlier programs have left.
    pub fn resume(
        heap: Heap,
        globals: EnvRef,
        locals: Locals,
        output: Vec<String>,
        readings: Vec<Literal>,
    ) -> (i: Interpreter)
        ensures
            i.ready(),
            i.env() == globals,
            i.environments.locals == locals,
            i.heap == heap,
            i.output == output,
            i.readings == readings,
    {
        Interpreter { environments: Environments::new(globals, locals), heap, output, readings }
    }

    /// Runs a program. A runtime error ends it; so does a `return`
    /// outside any function, which a resolved program does not hold.
    pub fn interpret(&mut self, statements: &Vec<Stmt>, fuel: usize) -> (r: Result<(), Vec<String>>)
        requires
            old(self).ready(),
        ensures
            final(self).same_frame(*old(self)),
            old(self)@.readings.is_prefix_of(final(self)@.readings),
            ({
                let step = execute_block(
                    old(self).start(*final(self)),
                    old(self).locals(),
                    old(self).env(),
                    *statements,
                    0,
                    fuel as nat,
                );
                final(self)@ == step.state && reported(report(step.state.heap, step.flow), r)
            }),
    {
        match self.execute_block(statements, fuel) {
            Ok(()) => Ok(()),
            Err(e) => {
                let text = match e {
                    Error::ReturnValue(v) => concat2(
                        "Unexpected return value: ",
                        value_text(&self.heap, &v).as_str(),
                    ),
                    Error::SingleError(t) => t,
                    Error::OutOfFuel => String::from_str("Execution budget exhausted."),
                };
                let mut errors: Vec<String> = Vec::new();
                errors.push(text);
                Err(errors)
            },
        }
    }

    /// Reads the variable `name` that the node `id` names.
    pub fn look_up_variable(&self, name: &str, id: usize) -> (r: Result<Literal, Error>)
        requires
            self.ready(),
        ensures
            flow_of(r) == read_variable(self@, self.locals(), self.env(), id, name@).flow,
    {
        match self.environments.look_up_variable(&self.heap, name, id) {
            Ok(v) => Ok(v),
            Err(t) => Err(Error::SingleError(t)),
        }
    }

    /// Evaluates an expression.
    pub fn evaluate(&mut self, expression: &Expr, fuel: usize) -> (r: Result<Literal, Error>)
        requires
            old(self).ready(),
        ensures
            final(self).evaluates(*old(self), *expression, fuel as nat, r),
        decreases fuel, 2nat, expression, 1nat,
    {
        match expression {
            Expr::Assign { .. } => self.visit_assign(expression, fuel),
            Expr::Binary { .. } => self.visit_binary(expression, fuel),
            Expr::Call { .. } => self.visit_call(expression, fuel),
            Expr::Get { .. } => self.visit_get(expression, fuel),
            Expr::Grouping { expression: inner, .. } => self.evaluate(inner, fuel),
            Expr::Literal { value, .. } => Ok(value.clone()),
            Expr::Logical { .. } => self.visit_logical(expression, fuel),
            Expr::SetField { .. } => self.visit_set(expression, fuel),
            Expr::Super { .. } => self.visit_super(expression),
            Expr::This { id, keyword } => self.look_up_variable(keyword.lexeme.as_str(), *id),
            Expr::Unary { .. } => self.visit_unary(expression, fuel),
            Expr::Variable(v) => self.look_up_variable(v.name.lexeme.as_str(), v.id),
        }
    }

    /// Evaluates an assignment to a variable: the value of the assignment
    /// is the value assigned.
    fn visit_assign(&mut self, expression: &Expr, fuel: usize) -> (r: Result<Literal, Error>)
        requires
            old(self).ready(),
            expression is Assign,
        ensures
            final(self).evaluates(*old(self), *expression, fuel as nat, r),
        decreases fuel, 2nat, expression, 0nat,
    {
        match expression {
            Expr::Assign { id, name, value } => {
                let v = self.evaluate(value, fuel)?;
                match self.environments.assign_expression(
                    &mut self.heap,
                    *id,
                    name.lexeme.as_str(),
                    v.clone(),
                ) {
                    Ok(()) => Ok(v),
                    Err(t) => Err(Error::SingleError(t)),
                }
            },
            _ => unreached(),
        }
    }

    /// Evaluates a binary operator: the left operand first, then the
    /// right one.
    fn visit_binary(&mut self, expression: &Expr, fuel: usize) -> (r: Result<Literal, Error>)
        requires
            old(self).ready(),
            expression is Binary,
        ensures
            final(self).evaluates(*old(self), *expression, fuel as nat, r),
        decreases fuel, 2nat, expression, 0nat,
    {
        match expression {
            Expr::Binary { left, operator, right, .. } => {
                let l = self.evaluate(left, fuel)?;
                let ghost first = self@;
                let r = self.evaluate(right, fuel);
                proof {
                    law_evaluate_with_more(
                        old(self)@.with_readings(first.readings),
                        old(self).locals(),
                        old(self).env(),
                        **left,
                        fuel as nat,
                        self@.readings,
                    );
                    law_prefix_is_transitive(old(self)@.readings, first.readings, self@.readings);
                }
                let r = r?;
                binary_operation(&self.heap, &l, operator, &r, fuel)
            },
            _ => unreached(),
        }
    }

    /// Evaluates the arguments of a call from left to right.
    fn arguments(&mut self, arguments: &Vec<Expr>, fuel: usize) -> (r: Result<Vec<Literal>, Error>)
        requires
            old(self).ready(),
        ensures
            final(self).same_frame(*old(self)),
            old(self)@.readings.is_prefix_of(final(self)@.readings),
            ({
                let a = evaluate_arguments(
                    old(self).start(*final(self)),
                    old(self).locals(),
                    old(self).env(),
                    *arguments,
                    0,
                    Seq::empty(),
                    fuel as nat,
                );
                final(self)@ == a.state && match a.values {
                    Ok(vs) => r matches Ok(xs) && views(xs@) == vs,
                    Err(f) => r matches Err(e) && error_flow(e) == f,
                }
            }),
        decreases fuel, 2nat, arguments, 0nat,
    {
        let mut values: Vec<Literal> = Vec::new();
        let mut i: usize = 0;
        assert(views(values@) =~= Seq::empty());
        while i < arguments.len()
            invariant
                i <= arguments.len(),
                self.same_frame(*old(self)),
                self.ready(),
                old(self)@.readings.is_prefix_of(self@.readings),
                forall|more: Seq<LiteralView>|
                    self@.readings.is_prefix_of(more) ==> #[trigger] evaluate_arguments(
                        old(self)@.with_readings(more),
                        old(self).locals(),
                        old(self).env(),
                        *arguments,
                        0,
                        Seq::empty(),
                        fuel as nat,
                    ) == evaluate_arguments(
                        self@.with_readings(more),
                        old(self).locals(),
                        old(self).env(),
                        *arguments,
                        i as nat,
                        views(values@),
                        fuel as nat,
                    ),
            decreases arguments.len() - i,
        {
            let ghost done = views(values@);
            let ghost before = self@;
            match self.evaluate(&arguments[i], fuel) {
                Ok(v) => {
                    values.push(v);
                    proof {
                        assert(views(values@) =~= done.push(v@));
                        let now = self@;
                        assert forall|more: Seq<LiteralView>|
                            now.readings.is_prefix_of(more) implies #[trigger] evaluate_arguments(
                            old(self)@.with_readings(more),
                            old(self).locals(),
                            old(self).env(),
                            *arguments,
                            0,
                            Seq::empty(),
                            fuel as nat,
                        ) == evaluate_arguments(
                            now.with_readings(more),
                            old(self).locals(),
                            old(self).env(),
                            *arguments,
                            (i + 1) as nat,
                            views(values@),
                            fuel as nat,
                        ) by {
                            law_prefix_is_transitive(before.readings, now.readings, more);
                            law_evaluate_with_more(
                                before.with_readings(now.readings),
                                old(self).locals(),
                                old(self).env(),
                                arguments[i as int],
                                fuel as nat,
                                more,
                            );
                        }
                        law_prefix_is_transitive(old(self)@.readings, before.readings, now.readings);
                    }
                },
                Err(e) => {
                    proof {
                        law_prefix_is_transitive(old(self)@.readings, before.readings, self@.readings);
                    }
                    return Err(e);
                },
            }
            i += 1;
        }
        Ok(values)
    }

    /// Evaluates a call: the callee, then the arguments, then the call
    /// itself.
    fn visit_call(&mut self, expression: &Expr, fuel: usize) -> (r: Result<Literal, Error>)
        requires
            old(self).ready(),
            expression is Call,
        ensures
            final(self).evaluates(*old(self), *expression, fuel as nat, r),
        decreases fuel, 2nat, expression, 0nat,
    {
        match expression {
            Expr::Call { callee, arguments, .. } => {
                let target = self.evaluate(callee, fuel)?;
                let ghost first = self@;
                let values = self.arguments(arguments, fuel);
                let ghost second = self@;
                proof {
                    law_evaluate_with_more(
                        old(self)@.with_readings(first.readings),
                        old(self).locals(),
                        old(self).env(),
                        **callee,
                        fuel as nat,
                        second.readings,
                    );
                    law_prefix_is_transitive(old(self)@.readings, first.readings, second.readings);
                }
                let values = values?;
                match target {
                    Literal::Callable(f) => {
                        let r = self.call(f, values, fuel);
                        proof {
                            let last = self@.readings;
                            law_prefix_is_transitive(first.readings, second.readings, last);
                            law_prefix_is_transitive(old(self)@.readings, second.readings, last);
                            law_evaluate_with_more(
                                old(self)@.with_readings(first.readings),
                                old(self).locals(),
                                old(self).env(),
                                **callee,
                                fuel as nat,
                                last,
                            );
                            law_arguments_with_more(
                                first.with_readings(second.readings),
                                old(self).locals(),
                                old(self).env(),
                                *arguments,
                                0,
                                Seq::empty(),
                                fuel as nat,
                                last,
                            );
                        }
                        r
                    },
                    _ => Err(error("visit_call called with non function literal callee")),
                }
            },
            _ => unreached(),
        }
    }

    /// Evaluates a property access: only instances have properties.
    fn visit_get(&mut self, expression: &Expr, fuel: usize) -> (r: Result<Literal, Error>)
        requires
            old(self).ready(),
            expression is Get,
        ensures
            final(self).evaluates(*old(self), *expression, fuel as nat, r),
        decreases fuel, 2nat, expression, 0nat,
    {
        match expression {
            Expr::Get { object, name, .. } => {
                match self.evaluate(object, fuel)? {
                    Literal::ClassInstance(i) => match i.get(&mut self.heap, name.lexeme.as_str()) {
                        Ok(v) => Ok(v),
                        Err(t) => Err(Error::SingleError(t)),
                    },
                    _ => Err(error("Only instances have properties.")),
                }
            },
            _ => unreached(),
        }
    }

    /// Evaluates `and` and `or`: the right operand only where the left one
    /// does not decide.
    fn visit_logical(&mut self, expression: &Expr, fuel: usize) -> (r: Result<Literal, Error>)
        requires
            old(self).ready(),
            expression is Logical,
        ensures
            final(self).evaluates(*old(self), *expression, fuel as nat, r),
        decreases fuel, 2nat, expression, 0nat,
    {
        match expression {
            Expr::Logical { left, operator, right, .. } => {
                let l = self.evaluate(left, fuel)?;
                let ghost first = self@;
                let wanted = match operator.token_type {
                    TokenType::And => evaluate_truthy(&l),
                    TokenType::Or => !evaluate_truthy(&l),
                    _ => false,
                };
                if wanted {
                    let r = self.evaluate(right, fuel);
                    proof {
                        law_evaluate_with_more(
                            old(self)@.with_readings(first.readings),
                            old(self).locals(),
                            old(self).env(),
                            **left,
                            fuel as nat,
                            self@.readings,
                        );
                        law_prefix_is_transitive(old(self)@.readings, first.readings, self@.readings);
                    }
                    return r;
                }
                match operator.token_type {
                    TokenType::And => Ok(l),
                    TokenType::Or => Ok(l),
                    _ => Err(
                        Error::SingleError(
                            concat2(
                                "Logical operation with non and/or token: ",
                                operator.lexeme.as_str(),
                            ),
                        ),
                    ),
                }
            },
            _ => unreached(),
        }
    }

    /// Evaluates an assignment to a property: only instances have fields.
    fn visit_set(&mut self, expression: &Expr, fuel: usize) -> (r: Result<Literal, Error>)
        requires
            old(self).ready(),
            expression is SetField,
        ensures
            final(self).evaluates(*old(self), *expression, fuel as nat, r),
        decreases fuel, 2nat, expression, 0nat,
    {
        match expression {
            Expr::SetField { object, name, value, .. } => {
                let instance = match self.evaluate(object, fuel)? {
                    Literal::ClassInstance(o) => o,
                    _ => {
                        return Err(error("Only instances have fields."));
                    },
                };
                let ghost first = self@;
                let v = self.evaluate(value, fuel);
                proof {
                    law_evaluate_with_more(
                        old(self)@.with_readings(first.readings),
                        old(self).locals(),
                        old(self).env(),
                        **object,
                        fuel as nat,
                        self@.readings,
                    );
                    law_prefix_is_transitive(old(self)@.readings, first.readings, self@.readings);
                }
                let v = v?;
                instance.set(&mut self.heap, name.lexeme.as_str(), v.clone());
                Ok(v)
            },
            _ => unreached(),
        }
    }

    /// Evaluates `super.method`: the method of the superclass, bound to
    /// `this`.
    fn visit_super(&mut self, expression: &Expr) -> (r: Result<Literal, Error>)
        requires
            old(self).ready(),
            expression is Super,
        ensures
            final(self).evaluates(*old(self), *expression, 0, r),
    {
        match expression {
            Expr::Super { id, method, .. } => {
                let distance = match self.environments.locals.get(*id) {
                    Some(d) => d,
                    None => 0,
                };
                if distance == 0 {
                    return Err(error("Could not resolve 'super' when looking up superclass"));
                }
                let class = match self.environments.get_at_distance(&self.heap, distance, "super") {
                    Some(Literal::Callable(c)) => match c.callable {
                        Callable::Class(k) => k,
                        _ => {
                            return Err(error("Could not resolve 'super' when looking up superclass"));
                        },
                    },
                    _ => {
                        return Err(error("Could not resolve 'super' when looking up superclass"));
                    },
                };
                let object = match self.environments.get_at_distance(&self.heap, distance - 1, "this") {
                    Some(Literal::ClassInstance(o)) => o,
                    _ => {
                        return Err(error("Could not resolve 'this' when looking up superclass"));
                    },
                };
                match class.find_method(method.lexeme.as_str()) {
                    Some(m) => {
                        let bound = m.bind(object, &mut self.heap);
                        Ok(
                            Literal::Callable(
                                LoxCallable::new(method.lexeme.clone(), Callable::Function(bound)),
                            ),
                        )
                    },
                    None => {
                        let s = concat2("Undefined property: '", method.lexeme.as_str());
                        Err(Error::SingleError(concat2(s.as_str(), "'")))
                    },
                }
            },
            _ => unreached(),
        }
    }

    /// Evaluates a unary operator.
    fn visit_unary(&mut self, expression: &Expr, fuel: usize) -> (r: Result<Literal, Error>)
        requires
            old(self).ready(),
            expression is Unary,
        ensures
            final(self).evaluates(*old(self), *expression, fuel as nat, r),
        decreases fuel, 2nat, expression, 0nat,
    {
        match expression {
            Expr::Unary { operator, right, .. } => {
                let v = self.evaluate(right, fuel)?;
                unary_operation(&self.heap, operator, &v)
            },
            _ => unreached(),
        }
    }

    /// Calls a callable with the values of its arguments. A call with the
    /// wrong number of arguments is an error and runs nothing. A host
    /// function, which takes no argument, gives a number.
    pub fn call(&mut self, callable: LoxCallable, arguments: Vec<Literal>, fuel: usize) -> (r:
        Result<Literal, Error>)
        requires
            old(self).ready(),
        ensures
            final(self).follows(
                *old(self),
                call(
                    old(self).start(*final(self)),
                    old(self).locals(),
                    callable@,
                    views(arguments@),
                    fuel as nat,
                ),
                flow_of(r),
            ),
            callable.callable is Native && arguments@.len() == 0 ==> (r matches Ok(v) && v is Number),
        decreases fuel, 1nat,
    {
        let arity = callable.arity();
        if arity != arguments.len() {
            let mut s = String::from_str("Expected ");
            s.append(count_to_string(arity).as_str());
            s.append(" arguments but got ");
            s.append(count_to_string(arguments.len()).as_str());
            s.append(".");
            return Err(Error::SingleError(s));
        }
        match &callable.callable {
            Callable::Class(c) => {
                let instance = LoxInstance::new(share(c), &mut self.heap);
                match c.find_method("init") {
                    Some(initializer) => {
                        let function = initializer.bind(instance, &mut self.heap);
                        match self.call_function(&function, &arguments, fuel) {
                            Ok(_) => Ok(Literal::ClassInstance(instance)),
                            Err(e) => Err(e),
                        }
                    },
                    None => Ok(Literal::ClassInstance(instance)),
                }
            },
            Callable::Function(f) => self.call_function(f, &arguments, fuel),
            Callable::Native(n) => {
                let value = crate::native::call_native(*n);
                let ghost taken = views(self.readings@);
                self.readings.push(value.clone());
                assert(views(self.readings@) =~= taken.push(value@));
                Ok(value)
            },
        }
    }

    /// Binds the parameters of a function to the arguments of a call.
    fn bind_arguments(&mut self, env: EnvRef, params: &Vec<Token>, arguments: &Vec<Literal>)
        ensures
            final(self).same_frame(*old(self)),
            final(self).output == old(self).output,
            final(self).readings == old(self).readings,
            final(self).heap@ == bind_params(old(self).heap@, env, params@, views(arguments@), 0),
    {
        let mut i: usize = 0;
        while i < params.len() && i < arguments.len()
            invariant
                self.same_frame(*old(self)),
                self.output == old(self).output,
                self.readings == old(self).readings,
                bind_params(old(self).heap@, env, params@, views(arguments@), 0) == bind_params(
                    self.heap@,
                    env,
                    params@,
                    views(arguments@),
                    i as nat,
                ),
            decreases params.len() - i,
        {
            env.define(&mut self.heap, params[i].lexeme.as_str(), arguments[i].clone());
            i += 1;
        }
    }

    /// The instance that an initializer is bound to.
    fn this_value(&self, f: &Function) -> (r: Result<Literal, Error>)
        ensures
            flow_of(r) == this_of(self@, *f).flow,
    {
        match f.env.get_current(&self.heap, "this") {
            Some(v) => Ok(v),
            None => {
                let s = concat2("variable with name '", "this");
                Err(Error::SingleError(concat2(s.as_str(), "' not defined")))
            },
        }
    }

    /// Calls a function: the body runs in a new environment inside the
    /// one that the function closes over. An initializer gives the
    /// instance that it is bound to when the call begins.
    fn call_function(&mut self, f: &Function, arguments: &Vec<Literal>, fuel: usize) -> (r: Result<
        Literal,
        Error,
    >)
        requires
            old(self).ready(),
        ensures
            final(self).follows(
                *old(self),
                call_function(
                    old(self).start(*final(self)),
                    old(self).locals(),
                    *f,
                    views(arguments@),
                    fuel as nat,
                ),
                flow_of(r),
            ),
        decreases fuel, 0nat,
    {
        if fuel == 0 {
            return Err(Error::OutOfFuel);
        }
        let bound = if f.is_initializer {
            match self.this_value(f) {
                Ok(v) => Some(v),
                Err(e) => {
                    return Err(e);
                },
            }
        } else {
            None
        };
        let env = EnvRef::with_enclosing(f.env, &mut self.heap);
        self.bind_arguments(env, &f.declaration.params, arguments);
        self.environments.push_scope(env);
        let result = self.execute_block(&f.declaration.body, fuel - 1);
        self.environments.pop_scope();
        assert(self.environments.stack@ =~= old(self).environments.stack@);
        match result {
            Ok(_) => match bound {
                Some(instance) => Ok(instance),
                None => Ok(Literal::Nil),
            },
            Err(Error::ReturnValue(value)) => match bound {
                Some(instance) => Ok(instance),
                None => Ok(value),
            },
            Err(e) => Err(e),
        }
    }

    /// Runs the statements of a list in order, until one does not end
    /// normally.
    pub fn execute_block(&mut self, statements: &Vec<Stmt>, fuel: usize) -> (r: Result<(), Error>)
        requires
            old(self).ready(),
        ensures
            final(self).follows(
                *old(self),
                execute_block(
                    old(self).start(*final(self)),
                    old(self).locals(),
                    old(self).env(),
                    *statements,
                    0,
                    fuel as nat,
                ),
                flow_of_statement(r),
            ),
        decreases fuel, 2nat, statements, 0nat,
    {
        let mut i: usize = 0;
        while i < statements.len()
            invariant
                i <= statements.len(),
                self.same_frame(*old(self)),
                self.ready(),
                old(self)@.readings.is_prefix_of(self@.readings),
                forall|more: Seq<LiteralView>|
                    self@.readings.is_prefix_of(more) ==> #[trigger] execute_block(
                        old(self)@.with_readings(more),
                        old(self).locals(),
                        old(self).env(),
                        *statements,
                        0,
                        fuel as nat,
                    ) == execute_block(
                        self@.with_readings(more),
                        old(self).locals(),
                        old(self).env(),
                        *statements,
                        i as nat,
                        fuel as nat,
                    ),
            decreases statements.len() - i,
        {
            let ghost before = self@;
            match self.execute(&statements[i], fuel) {
                Ok(()) => {
                    proof {
                        let now = self@;
                        assert forall|more: Seq<LiteralView>|
                            now.readings.is_prefix_of(more) implies #[trigger] execute_block(
                            old(self)@.with_readings(more),
                            old(self).locals(),
                            old(self).env(),
                            *statements,
                            0,
                            fuel as nat,
                        ) == execute_block(
                            now.with_readings(more),
                            old(self).locals(),
                            old(self).env(),
                            *statements,
                            (i + 1) as nat,
                            fuel as nat,
                        ) by {
                            law_prefix_is_transitive(before.readings, now.readings, more);
                            law_execute_with_more(
                                before.with_readings(now.readings),
                                old(self).locals(),
                                old(self).env(),
                                statements[i as int],
                                fuel as nat,
                                more,
                            );
                        }
                        law_prefix_is_transitive(old(self)@.readings, before.readings, now.readings);
                    }
                },
                Err(e) => {
                    proof {
                        law_prefix_is_transitive(old(self)@.readings, before.readings, self@.readings);
                    }
                    return Err(e);
                },
            }
            i += 1;
        }
        Ok(())
    }

    /// Runs a statement.
    pub fn execute(&mut self, statement: &Stmt, fuel: usize) -> (r: Result<(), Error>)
        requires
            old(self).ready(),
        ensures
            final(self).executes(*old(self), *statement, fuel as nat, r),
        decreases fuel, 2nat, statement, 2nat,
    {
        match statement {
            Stmt::Block { .. } => self.visit_block(statement, fuel),
            Stmt::Class { .. } => self.visit_class(statement),
            Stmt::Expression { expression, .. } => match self.evaluate(expression, fuel) {
                Ok(_) => Ok(()),
                Err(e) => Err(e),
            },
            Stmt::Function(f) => self.visit_function(f),
            Stmt::If { .. } => self.visit_if(statement, fuel),
            Stmt::Print { .. } => self.visit_print(statement, fuel),
            Stmt::Return { value, .. } => match self.evaluate(value, fuel) {
                Ok(v) => Err(Error::ReturnValue(v)),
                Err(e) => Err(e),
            },
            Stmt::Var { .. } => self.visit_var(statement, fuel),
            Stmt::While { .. } => self.visit_while(statement, fuel),
        }
    }

    /// Runs a block in a new environment inside the current one.
    fn visit_block(&mut self, statement: &Stmt, fuel: usize) -> (r: Result<(), Error>)
        requires
            old(self).ready(),
            statement is Block,
        ensures
            final(self).executes(*old(self), *statement, fuel as nat, r),
        decreases fuel, 2nat, statement, 1nat,
    {
        match statement {
            Stmt::Block { statements, .. } => {
                let scope = EnvRef::with_enclosing(self.environments.peek(), &mut self.heap);
                self.environments.push_scope(scope);
                let result = self.execute_block(statements, fuel);
                self.environments.pop_scope();
                assert(self.environments.stack@ =~= old(self).environments.stack@);
                result
            },
            _ => unreached(),
        }
    }

    /// The methods of a class, each closing over `env`.
    fn methods(methods: &Vec<Rc<FunctionStmt>>, env: EnvRef) -> (table: Table<Function>)
        ensures
            table@ == methods_map(methods@, env, methods@.len()),
    {
        let mut table: Table<Function> = Table::new();
        let mut i: usize = 0;
        while i < methods.len()
            invariant
                i <= methods.len(),
                table@ == methods_map(methods@, env, i as nat),
            decreases methods.len() - i,
        {
            let method = &methods[i];
            let function = if text_eq(method.name.lexeme.as_str(), "init") {
                Function::new_initializer(share(method), env)
            } else {
                Function::new(share(method), env)
            };
            table.insert(method.name.lexeme.clone(), function);
            i += 1;
        }
        table
    }

    /// Makes a class and binds it to its name.
    fn declare_class(
        &mut self,
        name: &str,
        superclass: Option<Literal>,
        methods: &Vec<Rc<FunctionStmt>>,
    ) -> (r: Result<(), Error>)
        requires
            old(self).ready(),
        ensures
            final(self).follows(
                *old(self),
                declare_class(
                    old(self).start(*final(self)),
                    old(self).env(),
                    name@,
                    match superclass {
                        Some(s) => Some(s@),
                        None => None,
                    },
                    methods@,
                ),
                flow_of_statement(r),
            ),
    {
        let env = self.environments.peek();
        env.define(&mut self.heap, name, Literal::Nil);
        let parent = match &superclass {
            Some(Literal::Callable(c)) => match &c.callable {
                Callable::Class(k) => Some(share(k)),
                _ => None,
            },
            _ => None,
        };
        let method_env = match superclass {
            Some(s) => {
                let inner = EnvRef::with_enclosing(env, &mut self.heap);
                inner.define(&mut self.heap, "super", s);
                inner
            },
            None => env,
        };
        let table = Self::methods(methods, method_env);
        let class = Class::new(String::from_str(name), parent, table);
        let value = Literal::Callable(
            LoxCallable::new(String::from_str(name), Callable::Class(Rc::new(class))),
        );
        match env.assign_current(&mut self.heap, name, value) {
            Ok(()) => Ok(()),
            Err(t) => Err(Error::SingleError(t)),
        }
    }

    /// Runs a class declaration: the superclass, if one is named, must be
    /// a class.
    fn visit_class(&mut self, statement: &Stmt) -> (r: Result<(), Error>)
        requires
            old(self).ready(),
            statement is Class,
        ensures
            final(self).executes(*old(self), *statement, 0, r),
    {
        match statement {
            Stmt::Class { name, superclass, methods, .. } => {
                let parent = match superclass {
                    Some(sup) => {
                        let found = match self.look_up_variable(sup.name.lexeme.as_str(), sup.id) {
                            Ok(v) => v,
                            Err(e) => {
                                return Err(e);
                            },
                        };
                        let is_a_class = match &found {
                            Literal::Callable(c) => match &c.callable {
                                Callable::Class(_) => true,
                                _ => false,
                            },
                            _ => false,
                        };
                        if !is_a_class {
                            return Err(error("Superclass must be a class."));
                        }
                        Some(found)
                    },
                    None => None,
                };
                self.declare_class(name.lexeme.as_str(), parent, methods)
            },
            _ => unreached(),
        }
    }

    /// Runs a function declaration: the function closes over the current
    /// environment.
    fn visit_function(&mut self, stmt: &Rc<FunctionStmt>) -> (r: Result<(), Error>)
        requires
            old(self).ready(),
        ensures
            final(self).executes(*old(self), Stmt::Function(*stmt), 0, r),
    {
        let env = self.environments.peek();
        let function = LoxCallable::new(
            stmt.name.lexeme.clone(),
            Callable::Function(Function::new(share(stmt), env)),
        );
        env.define(&mut self.heap, stmt.name.lexeme.as_str(), Literal::Callable(function));
        Ok(())
    }

    /// Runs an if statement.
    fn visit_if(&mut self, statement: &Stmt, fuel: usize) -> (r: Result<(), Error>)
        requires
            old(self).ready(),
            statement is If,
        ensures
            final(self).executes(*old(self), *statement, fuel as nat, r),
        decreases fuel, 2nat, statement, 1nat,
    {
        match statement {
            Stmt::If { condition, then_branch, else_branch, .. } => {
                let condition_result = self.evaluate(condition, fuel)?;
                let ghost first = self@;
                let r = if evaluate_truthy(&condition_result) {
                    self.execute(then_branch, fuel)
                } else {
                    self.execute(else_branch, fuel)
                };
                proof {
                    law_evaluate_with_more(
                        old(self)@.with_readings(first.readings),
                        old(self).locals(),
                        old(self).env(),
                        *condition,
                        fuel as nat,
                        self@.readings,
                    );
                    law_prefix_is_transitive(old(self)@.readings, first.readings, self@.readings);
                }
                r
            },
            _ => unreached(),
        }
    }

    /// Runs a print statement: the text of the value becomes a line of the
    /// output.
    fn visit_print(&mut self, statement: &Stmt, fuel: usize) -> (r: Result<(), Error>)
        requires
            old(self).ready(),
            statement is Print,
        ensures
            final(self).executes(*old(self), *statement, fuel as nat, r),
        decreases fuel, 2nat, statement, 1nat,
    {
        match statement {
            Stmt::Print { expression, .. } => {
                let value = self.evaluate(expression, fuel)?;
                let line = value_text(&self.heap, &value);
                let ghost before = texts(self.output@);
                self.output.push(line);
                assert(texts(self.output@) =~= before.push(line@));
                Ok(())
            },
            _ => unreached(),
        }
    }

    /// Runs a variable declaration.
    fn visit_var(&mut self, statement: &Stmt, fuel: usize) -> (r: Result<(), Error>)
        requires
            old(self).ready(),
            statement is Var,
        ensures
            final(self).executes(*old(self), *statement, fuel as nat, r),
        decreases fuel, 2nat, statement, 1nat,
    {
        match statement {
            Stmt::Var { name, initializer, .. } => {
                let value = self.evaluate(initializer, fuel)?;
                let env = self.environments.peek();
                env.define(&mut self.heap, name.lexeme.as_str(), value);
                Ok(())
            },
            _ => unreached(),
        }
    }

    /// Runs a loop.
    fn visit_while(&mut self, statement: &Stmt, fuel: usize) -> (r: Result<(), Error>)
        requires
            old(self).ready(),
            statement is While,
        ensures
            final(self).executes(*old(self), *statement, fuel as nat, r),
        decreases fuel, 2nat, statement, 1nat,
    {
        match statement {
            Stmt::While { condition, body, .. } => {
                let mut remaining = fuel;
                loop
                    invariant
                        remaining <= fuel,
                        self.same_frame(*old(self)),
                        self.ready(),
                        statement matches Stmt::While { condition: c, body: b, .. } && c == condition
                            && b == body,
                        old(self)@.readings.is_prefix_of(self@.readings),
                        forall|more: Seq<LiteralView>|
                            self@.readings.is_prefix_of(more) ==> #[trigger] run_while(
                                old(self)@.with_readings(more),
                                old(self).locals(),
                                old(self).env(),
                                *statement,
                                fuel as nat,
                            ) == run_while(
                                self@.with_readings(more),
                                old(self).locals(),
                                old(self).env(),
                                *statement,
                                remaining as nat,
                            ),
                    decreases remaining,
                {
                    let ghost before = self@;
                    let condition_result = self.evaluate(condition, remaining);
                    let ghost first = self@;
                    proof {
                        law_prefix_is_transitive(old(self)@.readings, before.readings, first.readings);
                        assert(run_while(
                            old(self)@.with_readings(first.readings),
                            old(self).locals(),
                            old(self).env(),
                            *statement,
                            fuel as nat,
                        ) == run_while(
                            before.with_readings(first.readings),
                            old(self).locals(),
                            old(self).env(),
                            *statement,
                            remaining as nat,
                        ));
                    }
                    let condition_result = condition_result?;
                    if !evaluate_truthy(&condition_result) {
                        return Ok(());
                    }
                    let done = self.execute(body, remaining);
                    let ghost now = self@;
                    proof {
                        law_prefix_is_transitive(before.readings, first.readings, now.readings);
                        law_prefix_is_transitive(old(self)@.readings, before.readings, now.readings);
                        law_evaluate_with_more(
                            before.with_readings(first.readings),
                            old(self).locals(),
                            old(self).env(),
                            *condition,
                            remaining as nat,
                            now.readings,
                        );
                        assert(run_while(
                            old(self)@.with_readings(now.readings),
                            old(self).locals(),
                            old(self).env(),
                            *statement,
                            fuel as nat,
                        ) == run_while(
                            before.with_readings(now.readings),
                            old(self).locals(),
                            old(self).env(),
                            *statement,
                            remaining as nat,
                        ));
                    }
                    done?;
                    if remaining == 0 {
                        return Err(Error::OutOfFuel);
                    }
                    proof {
                        assert forall|more: Seq<LiteralView>|
                            now.readings.is_prefix_of(more) implies #[trigger] run_while(
                            old(self)@.with_readings(more),
                            old(self).locals(),
                            old(self).env(),
                            *statement,
                            fuel as nat,
                        ) == run_while(
                            now.with_readings(more),
                            old(self).locals(),
                            old(self).env(),
                            *statement,
                            (remaining - 1) as nat,
                        ) by {
                            law_prefix_is_transitive(before.readings, now.readings, more);
                            law_prefix_is_transitive(first.readings, now.readings, more);
                            law_evaluate_with_more(
                                before.with_readings(first.readings),
                                old(self).locals(),
                                old(self).env(),
                                *condition,
                                remaining as nat,
                                more,
                            );
                            law_execute_with_more(
                                first.with_readings(now.readings),
                                old(self).locals(),
                                old(self).env(),
                                **body,
                                remaining as nat,
                                more,
                            );
                        }
                    }
                    remaining -= 1;
                }
            },
            _ => unreached(),
        }
    }
}

/// Runs a program on a heap whose globals are in `globals`, with what
/// the resolver found in `locals`. Gives back the interpreter, which
/// holds the heap, the output and what the host gave, and how the
/// program ended.
pub fn interpret(heap: Heap, globals: EnvRef, locals: Locals, statements: &Vec<Stmt>, fuel: usize) -> (r:
    (Interpreter, Result<(), Vec<String>>))
    ensures
        ({
            let step = execute_block(
                StateView { heap: heap@, output: Seq::empty(), readings: r.0@.readings, taken: 0 },
                locals@,
                globals,
                *statements,
                0,
                fuel as nat,
            );
            r.0@ == step.state && reported(report(step.state.heap, step.flow), r.1)
        }),
{
    let mut interpreter = Interpreter::new(heap, globals, locals);
    assert(texts(interpreter.output@) =~= Seq::empty());
    let result = interpreter.interpret(statements, fuel);
    (interpreter, result)
}

} // verus!
