//! Running source text: scanning, parsing, resolving and interpreting,
//! one after the other.

use vstd::prelude::*;
use crate::ast::{statements_view, Stmt};
use crate::environment::{Heap, HeapView};
use crate::grammar;
use crate::interpreter::{report, reported, Interpreter};
use crate::native::{clock_value, define_native_functions};
use crate::parser::parse_from;
use crate::resolver::{error_text, prepend_resolver_error, resolve_statements, Locals, Resolver, ResolverView};
use crate::scanner::{scan, Tokens};
use crate::semantics::{execute_block, StateView};
use crate::stability::{extends, law_block_grows};
use crate::text::texts;
use crate::interpreter::views;
use crate::tokens::{tokens_view, EnvRef, Literal, Token};

verus! {

/// What stays from one program to the next when programs are run one
/// after another: the heap with the globals, what the resolver found,
/// the next free node id, the lines printed, and what the host gave.
pub struct Session {
    pub heap: Heap,
    pub globals: EnvRef,
    pub locals: Locals,
    pub next_id: usize,
    pub output: Vec<String>,
    /// What the calls of host functions have given, in order.
    pub readings: Vec<Literal>,
}

impl Session {
    /// The state of the program: the heap and the output.
    pub open spec fn state(&self) -> StateView {
        StateView {
            heap: self.heap@,
            output: texts(self.output@),
            readings: views(self.readings@),
            taken: self.readings@.len(),
        }
    }
}

/// The handle of the first environment of a heap.
pub open spec fn first_env() -> EnvRef {
    EnvRef { index: 0 }
}

/// A session whose globals hold the host functions and nothing else.
pub fn init_globals() -> (s: Session)
    ensures
        s.globals == first_env(),
        s.heap@ == HeapView::empty().with_env(None).define(first_env(), "clock"@, clock_value()),
        s.locals@ == Map::<usize, usize>::empty(),
        s.next_id == 0,
        s.output@.len() == 0,
        s.readings@.len() == 0,
{
    let mut heap = Heap::new();
    let globals = EnvRef::new(&mut heap);
    define_native_functions(globals, &mut heap);
    Session {
        heap,
        globals,
        locals: Locals::new(),
        next_id: 0,
        output: Vec::new(),
        readings: Vec::new(),
    }
}

/// Whether `result` is a list of the one text `text`.
pub open spec fn one_error(result: Result<(), Vec<String>>, text: Seq<char>) -> bool {
    result matches Err(e) && e@.len() == 1 && e@[0]@ == text
}

/// What running a source text does, told stage by stage, where `tokens`
/// are what the scanner gave and `program` is what the parser gave.
///
/// Lexical errors are all reported, and nothing else is done. A syntax
/// error and a resolver error are reported alone, and nothing runs. A
/// program that passes both runs in the global environment, and what it
/// prints and changes stays in the session. The program runs as the
/// language says it does where the host gives the readings that the
/// session has taken.
pub open spec fn explains(
    source: Seq<char>,
    before: Session,
    fuel: nat,
    tokens: Seq<Token>,
    program: Option<Vec<Stmt>>,
    after: Session,
    result: Result<(), Vec<String>>,
) -> bool {
    let scanned = scan(source);
    if scanned.errors.len() > 0 {
        &&& after == before
        &&& result matches Err(e) && texts(e@) == scanned.errors
    } else {
        &&& tokens_view(tokens) == scanned.tokens
        &&& after.globals == before.globals
        &&& after.next_id >= before.next_id
        &&& match grammar::program(tokens, before.next_id as nat) {
            Err(stopped) => {
                &&& one_error(result, stopped.text)
                &&& after.next_id == stopped.at.next_id
                &&& after.state() == before.state()
                &&& after.locals@ == before.locals@
            },
            Ok((tree, end)) => {
                &&& after.next_id == end.next_id
                &&& program matches Some(statements)
                &&& statements_view(statements@) == tree
                &&& match resolve_statements(ResolverView::resuming(before.locals@), statements, 0) {
                    Err(stopped) => {
                        &&& one_error(result, "Resolver Error: "@ + error_text(stopped.error))
                        &&& after.state() == before.state()
                        &&& after.locals@ == before.locals@
                    },
                    Ok(resolved) => {
                        let step = execute_block(
                            before.state().with_readings(after.state().readings),
                            resolved.locals,
                            before.globals,
                            statements,
                            0,
                            fuel,
                        );
                        &&& after.locals@ == resolved.locals
                        &&& before.state().readings.is_prefix_of(after.state().readings)
                        &&& after.state() == step.state
                        &&& reported(report(step.state.heap, step.flow), result)
                    },
                }
            },
        }
    }
}

/// What a run gives back: the session, the program that was read, and
/// how the run ended.
pub struct Ran {
    pub session: Session,
    pub program: Option<Vec<Stmt>>,
    pub result: Result<(), Vec<String>>,
}

/// Runs a source text in a session. What the session held stays: the
/// heap only grows, and the output and the readings only get longer.
pub fn run(session: Session, contents: &str, fuel: usize) -> (r: Ran)
    ensures
        exists|tokens: Seq<Token>| #[trigger]
            explains(contents@, session, fuel as nat, tokens, r.program, r.session, r.result),
        extends(session.heap@, r.session.heap@),
        session.state().output.is_prefix_of(r.session.state().output),
        session.state().readings.is_prefix_of(r.session.state().readings),
{
    let tokens = match Tokens::from_str(contents) {
        Ok(tokens) => tokens.into(),
        Err(errors) => {
            let r = Ran { session, program: None, result: Err(errors) };
            assert(explains(contents@, session, fuel as nat, Seq::empty(), r.program, r.session, r.result));
            return r;
        },
    };
    let ghost read = tokens@;
    let Session { heap, globals, locals, next_id, output, readings } = session;
    let parsed = parse_from(tokens, next_id);
    let statements = match parsed.program {
        Ok(statements) => statements,
        Err(e) => {
            let mut errors: Vec<String> = Vec::new();
            errors.push(e);
            let r = Ran {
                session: Session { heap, globals, locals, next_id: parsed.next_id, output, readings },
                program: None,
                result: Err(errors),
            };
            assert(explains(contents@, session, fuel as nat, read, r.program, r.session, r.result));
            return r;
        },
    };
    let kept = locals.copy();
    let mut resolver = Resolver::resuming(locals);
    match resolver.resolve(&statements) {
        Ok(()) => {},
        Err(e) => {
            let r = Ran {
                session: Session {
                    heap,
                    globals,
                    locals: kept,
                    next_id: parsed.next_id,
                    output,
                    readings,
                },
                program: Some(statements),
                result: Err(prepend_resolver_error(e)),
            };
            assert(explains(contents@, session, fuel as nat, read, r.program, r.session, r.result));
            return r;
        },
    }
    let mut interpreter = Interpreter::resume(heap, globals, resolver.locals, output, readings);
    let ghost before = interpreter@;
    let ghost locals = interpreter.locals();
    let result = interpreter.interpret(&statements, fuel);
    proof {
        law_block_grows(
            before.with_readings(interpreter@.readings),
            locals,
            globals,
            statements,
            0,
            fuel as nat,
        );
    }
    let Interpreter { environments, heap, output, readings } = interpreter;
    let r = Ran {
        session: Session {
            heap,
            globals,
            locals: environments.locals,
            next_id: parsed.next_id,
            output,
            readings,
        },
        program: Some(statements),
        result,
    };
    assert(explains(contents@, session, fuel as nat, read, r.program, r.session, r.result));
    r
}

} // verus!
