//! Laws of the language: what holds of every program and every state.

use vstd::prelude::*;
use std::rc::Rc;
use crate::ast::{Expr, FunctionStmt, Stmt};
use crate::environment::HeapView;
use crate::resolver::{
    method_kind, resolve_expression, resolve_expressions, resolve_function, resolve_methods,
    resolve_params, resolve_statement, resolve_statements, resolve_variable, FunctionType,
    ResolveError, ResolverView,
};
use crate::scanner::{scan, scan_from, scan_token, Lexed, Scanned};
use crate::semantics::{
    arity_text, bind_params, call, call_function, evaluate, execute, execute_block, truthy,
    Flow, StateView,
};
use crate::equality::values_equal;
use crate::tokens::{
    CallableView, ClassView, EnvRef, Function, LiteralView, LoxCallableView, Token, TokenType,
};

verus! {

/// No token that stands for a piece of the source is the end marker.
pub proof fn law_no_token_is_the_end_marker(source: Seq<char>, start: nat, line: nat)
    ensures
        scan_token(source, start, line).lexed matches Lexed::Token(kind, _) ==> kind
            != TokenType::Eof,
{
}

/// The tokens of a scan end with the end marker, and no other token is
/// one.
pub proof fn law_tokens_end_with_the_one_end_marker(source: Seq<char>)
    ensures
        scan(source).tokens.len() > 0,
        scan(source).tokens.last().token_type == TokenType::Eof,
        forall|i: int|
            0 <= i < scan(source).tokens.len() - 1 ==> (#[trigger] scan(source).tokens[i]).token_type
                != TokenType::Eof,
{
    law_scan_keeps_the_end_marker_last(
        source,
        0,
        0,
        1,
        Scanned { tokens: Seq::empty(), errors: Seq::empty() },
    );
}

/// The same, for a scan that goes on from tokens none of which is the
/// end marker.
pub proof fn law_scan_keeps_the_end_marker_last(
    source: Seq<char>,
    start: nat,
    pos: nat,
    line: nat,
    done: Scanned,
)
    requires
        forall|i: int| 0 <= i < done.tokens.len() ==> (#[trigger] done.tokens[i]).token_type
            != TokenType::Eof,
    ensures
        ({
            let all = scan_from(source, start, pos, line, done).tokens;
            pos <= source.len() ==> {
                &&& all.len() > 0
                &&& all.last().token_type == TokenType::Eof
                &&& forall|i: int| 0 <= i < all.len() - 1 ==> (#[trigger] all[i]).token_type
                    != TokenType::Eof
            }
        }),
    decreases source.len() - pos,
{
    if pos < source.len() {
        let step = scan_token(source, pos, line);
        law_scan_token_moves_on(source, pos, line);
        law_no_token_is_the_end_marker(source, pos, line);
        let next = match step.lexed {
            Lexed::Token(kind, literal) => Scanned {
                tokens: done.tokens.push(
                    crate::tokens::TokenView {
                        token_type: kind,
                        lexeme: source.subrange(pos as int, step.current as int),
                        literal,
                        line_number: step.line as usize,
                    },
                ),
                ..done
            },
            Lexed::Skip => done,
            Lexed::Error(text) => Scanned { errors: done.errors.push(text), ..done },
        };
        law_scan_keeps_the_end_marker_last(source, pos, step.current, step.line, next);
    }
}

/// Reading a token moves the scanner on, and not beyond the end of the
/// source.
pub proof fn law_scan_token_moves_on(source: Seq<char>, start: nat, line: nat)
    requires
        start < source.len(),
    ensures
        start < scan_token(source, start, line).current <= source.len(),
{
    law_find_stays_inside(source, start + 1, '"');
    law_find_stays_inside(source, start + 2, '\n');
    law_word_stays_inside(source, start + 1);
    law_digits_stay_inside(source, start + 1);
    let whole = crate::scanner::digits_end(source, start + 1);
    law_digits_stay_inside(source, whole + 1);
}

/// Searching for a character ends at or behind where it began, inside
/// the source.
pub proof fn law_find_stays_inside(source: Seq<char>, pos: nat, stop: char)
    ensures
        pos <= crate::scanner::find(source, pos, stop),
        pos <= source.len() ==> crate::scanner::find(source, pos, stop) <= source.len(),
    decreases source.len() - pos,
{
    if pos < source.len() && source[pos as int] != stop {
        law_find_stays_inside(source, pos + 1, stop);
    }
}

/// A word ends at or behind where it began, inside the source.
pub proof fn law_word_stays_inside(source: Seq<char>, pos: nat)
    ensures
        pos <= crate::scanner::word_end(source, pos),
        pos <= source.len() ==> crate::scanner::word_end(source, pos) <= source.len(),
    decreases source.len() - pos,
{
    if pos < source.len() && crate::scanner::alpha_numeric(source[pos as int]) {
        law_word_stays_inside(source, pos + 1);
    }
}

/// A run of digits ends at or behind where it began, inside the source.
pub proof fn law_digits_stay_inside(source: Seq<char>, pos: nat)
    ensures
        pos <= crate::scanner::digits_end(source, pos),
        pos <= source.len() ==> crate::scanner::digits_end(source, pos) <= source.len(),
    decreases source.len() - pos,
{
    if pos < source.len() && crate::scanner::digit(source[pos as int]) {
        law_digits_stay_inside(source, pos + 1);
    }
}

/// Resolving an expression opens and closes no scope, and leaves what the
/// scopes hold as it was.
pub proof fn law_expression_keeps_scopes(st: ResolverView, e: Expr)
    ensures
        resolve_expression(st, e) matches Ok(s) ==> s.scopes == st.scopes && s.current_function
            == st.current_function && s.current_class == st.current_class,
    decreases e, 0nat,
{
    match e {
        Expr::Assign { value, .. } => {
            law_expression_keeps_scopes(st, *value);
        },
        Expr::Binary { left, right, .. } => {
            law_expression_keeps_scopes(st, *left);
            if let Ok(s) = resolve_expression(st, *left) {
                law_expression_keeps_scopes(s, *right);
            }
        },
        Expr::Call { callee, arguments, .. } => {
            law_expression_keeps_scopes(st, *callee);
            if let Ok(s) = resolve_expression(st, *callee) {
                law_expressions_keep_scopes(s, arguments, 0);
            }
        },
        Expr::Get { object, .. } => {
            law_expression_keeps_scopes(st, *object);
        },
        Expr::Grouping { expression, .. } => {
            law_expression_keeps_scopes(st, *expression);
        },
        Expr::Literal { .. } => {},
        Expr::Logical { left, right, .. } => {
            law_expression_keeps_scopes(st, *left);
            if let Ok(s) = resolve_expression(st, *left) {
                law_expression_keeps_scopes(s, *right);
            }
        },
        Expr::SetField { object, value, .. } => {
            law_expression_keeps_scopes(st, *value);
            if let Ok(s) = resolve_expression(st, *value) {
                law_expression_keeps_scopes(s, *object);
            }
        },
        Expr::Super { .. } => {},
        Expr::This { .. } => {},
        Expr::Unary { right, .. } => {
            law_expression_keeps_scopes(st, *right);
        },
        Expr::Variable(_) => {},
    }
}

/// Resolving the expressions of a list leaves the scopes as they were.
pub proof fn law_expressions_keep_scopes(st: ResolverView, es: Vec<Expr>, i: nat)
    ensures
        resolve_expressions(st, es, i) matches Ok(s) ==> s.scopes == st.scopes && s.current_function
            == st.current_function && s.current_class == st.current_class,
    decreases es, es.len() - i,
{
    if i < es.len() {
        law_expression_keeps_scopes(st, es[i as int]);
        if let Ok(s) = resolve_expression(st, es[i as int]) {
            law_expressions_keep_scopes(s, es, i + 1);
        }
    }
}

/// The resolver is in the same place: as many scopes are open, and the
/// kinds of the function and of the class around are the same.
pub open spec fn same_place(a: ResolverView, b: ResolverView) -> bool {
    &&& a.scopes.len() == b.scopes.len()
    &&& a.current_function == b.current_function
    &&& a.current_class == b.current_class
}

/// The declaration that a shared declaration is.
pub open spec fn declared(f: Rc<FunctionStmt>) -> FunctionStmt {
    *f
}

/// Declaring the parameters of a function opens and closes no scope.
pub proof fn law_params_keep_place(st: ResolverView, ps: Seq<Token>, i: nat)
    ensures
        resolve_params(st, ps, i) matches Ok(s) ==> same_place(st, s),
    decreases ps.len() - i,
{
    if i < ps.len() {
        if let Ok(s) = st.declare(ps[i as int].lexeme@) {
            law_params_keep_place(s.define(ps[i as int].lexeme@), ps, i + 1);
        }
    }
}

/// The resolver leaves a function where it entered it: the scope of the
/// function is closed again, and the kind of the function around is put
/// back.
pub proof fn law_function_keeps_place(st: ResolverView, f: FunctionStmt, kind: FunctionType)
    ensures
        resolve_function(st, f, kind) matches Ok(s) ==> same_place(st, s),
    decreases f, 0nat,
{
    let entered = st.with_function(kind).begin_scope();
    law_params_keep_place(entered, f.params@, 0);
    if let Ok(s) = resolve_params(entered, f.params@, 0) {
        law_statements_keep_place(s, f.body, 0);
    }
}

/// The resolver leaves the methods of a class where it entered them.
pub proof fn law_methods_keep_place(st: ResolverView, ms: Vec<Rc<FunctionStmt>>, i: nat)
    ensures
        resolve_methods(st, ms, i) matches Ok(s) ==> same_place(st, s),
    decreases ms, ms.len() - i,
{
    if i < ms.len() {
        let kind = method_kind(ms[i as int].name.lexeme@);
        law_function_keeps_place(st, declared(ms[i as int]), kind);
        if let Ok(s) = resolve_function(st, declared(ms[i as int]), kind) {
            law_methods_keep_place(s, ms, i + 1);
        }
    }
}

/// The resolver leaves a statement where it entered it. Every scope that
/// it opens for a block, a function or a class it closes again, and it
/// puts back the kinds of the function and of the class around.
pub proof fn law_statement_keeps_place(st: ResolverView, s: Stmt)
    ensures
        resolve_statement(st, s) matches Ok(after) ==> same_place(st, after),
    decreases s, 0nat,
{
    match s {
        Stmt::Block { statements, .. } => {
            law_statements_keep_place(st.begin_scope(), statements, 0);
        },
        Stmt::Class { name, superclass, methods, .. } => {
            if let Ok(s0) = st.declare(name.lexeme@) {
                let s1 = s0.define(name.lexeme@).with_class(crate::resolver::ClassType::Class);
                match superclass {
                    Some(sup) => {
                        if name.lexeme@ != sup.name.lexeme@ {
                            let sub = s1.with_class(crate::resolver::ClassType::Subclass);
                            if let Ok(s2) = resolve_variable(sub, sup.id, sup.name.lexeme@) {
                                law_methods_keep_place(
                                    s2.begin_scope().define("super"@).begin_scope().define("this"@),
                                    methods,
                                    0,
                                );
                            }
                        }
                    },
                    None => {
                        law_methods_keep_place(s1.begin_scope().define("this"@), methods, 0);
                    },
                }
            }
        },
        Stmt::Expression { expression, .. } => {
            law_expression_keeps_scopes(st, expression);
        },
        Stmt::Function(f) => {
            if let Ok(s) = st.declare(f.name.lexeme@) {
                law_function_keeps_place(s.define(f.name.lexeme@), declared(f), FunctionType::Function);
            }
        },
        Stmt::If { condition, then_branch, else_branch, .. } => {
            law_expression_keeps_scopes(st, condition);
            if let Ok(s) = resolve_expression(st, condition) {
                law_statement_keeps_place(s, *then_branch);
                if let Ok(s2) = resolve_statement(s, *then_branch) {
                    law_statement_keeps_place(s2, *else_branch);
                }
            }
        },
        Stmt::Print { expression, .. } => {
            law_expression_keeps_scopes(st, expression);
        },
        Stmt::Return { value, .. } => {
            law_expression_keeps_scopes(st, value);
        },
        Stmt::Var { name, initializer, .. } => {
            if let Ok(s) = st.declare(name.lexeme@) {
                law_expression_keeps_scopes(s, initializer);
            }
        },
        Stmt::While { condition, body, .. } => {
            law_expression_keeps_scopes(st, condition);
            if let Ok(s) = resolve_expression(st, condition) {
                law_statement_keeps_place(s, *body);
            }
        },
    }
}

/// The resolver leaves the statements of a list where it entered them.
pub proof fn law_statements_keep_place(st: ResolverView, ss: Vec<Stmt>, i: nat)
    ensures
        resolve_statements(st, ss, i) matches Ok(after) ==> same_place(st, after),
    decreases ss, ss.len() - i,
{
    if i < ss.len() {
        law_statement_keeps_place(st, ss[i as int]);
        if let Ok(s) = resolve_statement(st, ss[i as int]) {
            law_statements_keep_place(s, ss, i + 1);
        }
    }
}

/// A program that the resolver accepts leaves it at the top level: no
/// scope stays open.
pub proof fn law_resolved_program_closes_every_scope(ss: Vec<Stmt>)
    ensures
        resolve_statements(ResolverView::initial(), ss, 0) matches Ok(after) ==> after.scopes.len()
            == 0,
{
    law_statements_keep_place(ResolverView::initial(), ss, 0);
}

/// Declaring a name is an error exactly where a scope is open and the
/// innermost scope holds the name already, and the error changes
/// nothing. Where a scope is open and does not hold the name, the name is
/// marked in it as declared and not yet defined, and nothing else
/// changes. At the top level declaring changes nothing and is no error.
pub proof fn law_declaring(st: ResolverView, name: Seq<char>)
    ensures
        st.declare(name) is Err <==> st.scopes.len() > 0 && st.scopes.last().contains_key(name),
        st.declare(name) matches Err(stopped) ==> stopped.state == st && stopped.error
            == ResolveError::AlreadyDeclared,
        st.declare(name) matches Ok(after) ==> {
            &&& after.locals == st.locals
            &&& after.current_function == st.current_function
            &&& after.current_class == st.current_class
            &&& after.scopes.len() == st.scopes.len()
            &&& forall|i: int| 0 <= i < st.scopes.len() - 1 ==> after.scopes[i] == st.scopes[i]
            &&& st.scopes.len() > 0 ==> after.scopes.last() == st.scopes.last().insert(name, false)
        },
{
}

/// In a local scope a name can be declared once: a second `var` with the
/// name of a variable that the innermost scope already holds is an error,
/// whatever its initializer, and the error changes nothing.
pub proof fn law_redeclaration_is_rejected(st: ResolverView, declaration: Stmt)
    requires
        declaration is Var,
        st.scopes.len() > 0,
        st.scopes.last().contains_key(declaration->Var_name.lexeme@),
    ensures
        resolve_statement(st, declaration) == st.fail(ResolveError::AlreadyDeclared),
{
}

/// A block that declares one name twice is rejected, where the first
/// initializer is itself accepted. The resolver stops at the second
/// declaration, inside the block, with what the first declaration has
/// recorded and nothing more.
pub proof fn law_block_with_redeclaration_is_rejected(st: ResolverView, block: Stmt)
    requires
        block matches Stmt::Block { statements, .. } && statements.len() == 2 && (
        statements[0] matches Stmt::Var { name: first, initializer, .. } && (
        statements[1] matches Stmt::Var { name: second, .. } && first.lexeme@ == second.lexeme@
            && resolve_expression(
            st.begin_scope().mark(first.lexeme@, false),
            initializer,
        ) is Ok)),
    ensures
        resolve_statement(st, block) == first_declared(st, block).fail(
            ResolveError::AlreadyDeclared,
        ),
{
    let statements = block->Block_statements;
    let inner = st.begin_scope();
    let name = statements[0]->Var_name.lexeme@;
    let initializer = statements[0]->Var_initializer;
    let marked = inner.mark(name, false);
    assert(inner.scopes.last() == Map::<Seq<char>, bool>::empty());
    assert(inner.declare(name) == Ok::<ResolverView, crate::resolver::Failure>(marked));
    law_expression_keeps_scopes(marked, initializer);
    let resolved = resolve_expression(marked, initializer)->Ok_0;
    let declared = resolved.define(name);
    assert(declared == first_declared(st, block));
    assert(resolve_statement(inner, statements[0]) == Ok::<ResolverView, crate::resolver::Failure>(
        declared,
    ));
    assert(declared.scopes.last().contains_key(name));
    law_redeclaration_is_rejected(declared, statements[1]);
    assert(resolve_statements(declared, statements, 1) == declared.fail(
        ResolveError::AlreadyDeclared,
    ));
    assert(resolve_statements(inner, statements, 0) == declared.fail(
        ResolveError::AlreadyDeclared,
    ));
}

/// The state of the resolver inside a block after the first statement of
/// the block, a variable declaration, is resolved.
pub open spec fn first_declared(st: ResolverView, block: Stmt) -> ResolverView {
    match block {
        Stmt::Block { statements, .. } => if statements.len() > 0 {
            match statements[0] {
                Stmt::Var { name, initializer, .. } => match resolve_expression(
                    st.begin_scope().mark(name.lexeme@, false),
                    initializer,
                ) {
                    Ok(resolved) => resolved.define(name.lexeme@),
                    Err(_) => st,
                },
                _ => st,
            }
        } else {
            st
        },
        _ => st,
    }
}

/// At the top level, outside every scope, a name can be declared again:
/// declaring is never the error there.
pub proof fn law_redeclaration_of_a_global_is_accepted(st: ResolverView, name: Seq<char>)
    requires
        st.scopes.len() == 0,
    ensures
        st.declare(name) == Ok::<ResolverView, crate::resolver::Failure>(st),
{
}

/// A name is found at some distance exactly where some scope holds it.
pub proof fn law_distance_is_found_where_a_scope_holds_the_name(
    scopes: Seq<crate::resolver::ScopeView>,
    name: Seq<char>,
)
    ensures
        crate::resolver::depth_of(scopes, name) is Some <==> exists|i: int|
            0 <= i < scopes.len() && (#[trigger] scopes[i]).contains_key(name),
{
    law_distance_from(scopes, name, 0);
}

/// The same for the search from the distance `d` on.
pub proof fn law_distance_from(scopes: Seq<crate::resolver::ScopeView>, name: Seq<char>, d: nat)
    ensures
        crate::resolver::depth_from(scopes, name, d) is Some <==> exists|i: int|
            0 <= i < scopes.len() - d && (#[trigger] scopes[i]).contains_key(name),
    decreases scopes.len() - d,
{
    if d < scopes.len() {
        let at = scopes.len() - 1 - d;
        if scopes[at].contains_key(name) {
        } else {
            law_distance_from(scopes, name, d + 1);
            if exists|i: int| 0 <= i < scopes.len() - d && (#[trigger] scopes[i]).contains_key(name) {
                let i = choose|i: int|
                    0 <= i < scopes.len() - d && (#[trigger] scopes[i]).contains_key(name);
                assert(i != at);
                assert(0 <= i < scopes.len() - (d + 1));
            }
        }
    }
}

/// Resolving a use of a variable is an error exactly where the innermost
/// scope holds the name as declared and not yet defined, and the error
/// changes nothing. Else the scopes stay as they are, and the use gets
/// its distance exactly where some scope holds the name.
pub proof fn law_resolving_a_variable(st: ResolverView, id: usize, name: Seq<char>)
    ensures
        resolve_variable(st, id, name) is Err <==> st.scopes.len() > 0
            && st.scopes.last().contains_key(name) && !st.scopes.last()[name],
        resolve_variable(st, id, name) matches Err(stopped) ==> stopped.state == st && stopped.error
            == ResolveError::ReadInOwnInitializer,
        resolve_variable(st, id, name) matches Ok(after) ==> {
            &&& after.scopes == st.scopes
            &&& after.current_function == st.current_function
            &&& after.current_class == st.current_class
            &&& (exists|i: int| 0 <= i < st.scopes.len() && (#[trigger] st.scopes[i]).contains_key(name))
                ==> after.locals == st.locals.insert(
                id,
                crate::resolver::depth_of(st.scopes, name)->Some_0 as usize,
            )
            &&& !(exists|i: int|
                0 <= i < st.scopes.len() && (#[trigger] st.scopes[i]).contains_key(name))
                ==> after.locals == st.locals
        },
{
    law_distance_is_found_where_a_scope_holds_the_name(st.scopes, name);
}

/// A local variable cannot be read in its own initializer: `var a = a;`
/// inside a scope that does not hold `a` yet is an error. The resolver
/// stops with the name declared and with nothing recorded.
pub proof fn law_own_initializer_is_rejected(st: ResolverView, declaration: Stmt)
    requires
        st.scopes.len() > 0,
        declaration matches Stmt::Var { name, initializer: Expr::Variable(read), .. } && name.lexeme@
            == read.name.lexeme@ && !st.scopes.last().contains_key(name.lexeme@),
    ensures
        resolve_statement(st, declaration) == st.mark(declaration->Var_name.lexeme@, false).fail(
            ResolveError::ReadInOwnInitializer,
        ),
        resolve_statement(st, declaration)->Err_0.state.locals == st.locals,
{
}

/// `return` is refused outside every function, and with a value other
/// than the literal `nil` inside an initializer; either error changes
/// nothing. Elsewhere every value is accepted: what resolving the
/// `return` gives is what resolving its value gives.
pub proof fn law_resolving_a_return(st: ResolverView, statement: Stmt)
    requires
        statement is Return,
    ensures
        st.current_function == FunctionType::Outside ==> resolve_statement(st, statement)
            == st.fail(ResolveError::ReturnAtTopLevel),
        st.current_function == FunctionType::Initializer && !crate::resolver::literal_nil(
            statement->Return_value,
        ) ==> resolve_statement(st, statement) == st.fail(ResolveError::ReturnFromInitializer),
        st.current_function == FunctionType::Function || st.current_function == FunctionType::Method
            || (st.current_function == FunctionType::Initializer && crate::resolver::literal_nil(
            statement->Return_value,
        )) ==> resolve_statement(st, statement) == resolve_expression(
            st,
            statement->Return_value,
        ),
{
}

/// `super` is refused outside a class and in a class without a
/// superclass; either error changes nothing. In a class with a
/// superclass the use gets the distance of the nearest scope that holds
/// `super`, and nothing else changes.
pub proof fn law_resolving_super(st: ResolverView, e: Expr)
    requires
        e is Super,
    ensures
        st.current_class == crate::resolver::ClassType::Outside ==> resolve_expression(st, e)
            == st.fail(ResolveError::SuperOutsideClass),
        st.current_class == crate::resolver::ClassType::Class ==> resolve_expression(st, e)
            == st.fail(ResolveError::SuperWithoutSuperclass),
        st.current_class == crate::resolver::ClassType::Subclass ==> resolve_expression(st, e) == Ok::<
            ResolverView,
            crate::resolver::Failure,
        >(st.resolve_local(e->Super_id, e->Super_keyword.lexeme@)),
{
}

/// The nearest scope that holds `name` is the one at `at`: it holds the
/// name and no scope inside it does.
pub open spec fn nearest_at(scopes: Seq<crate::resolver::ScopeView>, name: Seq<char>, at: int) -> bool {
    &&& 0 <= at < scopes.len()
    &&& scopes[at].contains_key(name)
    &&& forall|j: int| at < j < scopes.len() ==> !(#[trigger] scopes[j]).contains_key(name)
}

/// The distance of a name is the number of scopes inside the nearest
/// scope that holds it.
pub proof fn law_distance_of_the_nearest_scope(
    scopes: Seq<crate::resolver::ScopeView>,
    name: Seq<char>,
    at: int,
)
    requires
        nearest_at(scopes, name, at),
    ensures
        crate::resolver::depth_of(scopes, name) == Some((scopes.len() - 1 - at) as nat),
{
    law_nearest_from(scopes, name, at, 0);
}

/// The same for the search from the distance `d` on.
pub proof fn law_nearest_from(scopes: Seq<crate::resolver::ScopeView>, name: Seq<char>, at: int, d: nat)
    requires
        nearest_at(scopes, name, at),
        d <= scopes.len() - 1 - at,
    ensures
        crate::resolver::depth_from(scopes, name, d) == Some((scopes.len() - 1 - at) as nat),
    decreases scopes.len() - d,
{
    if d < scopes.len() - 1 - at {
        assert(!scopes[scopes.len() - 1 - d].contains_key(name));
        law_nearest_from(scopes, name, at, d + 1);
    }
}

/// Inside the methods of a class with a superclass, `super` lies exactly
/// one scope beyond `this`: where the nearest scope that holds `this` is
/// the one right inside the nearest scope that holds `super`, the
/// distance that the resolver finds for `super` is one more than the
/// distance that it finds for `this` at the same place.
pub proof fn law_super_lies_one_scope_beyond_this(
    scopes: Seq<crate::resolver::ScopeView>,
    at: int,
)
    requires
        nearest_at(scopes, "this"@, at),
        nearest_at(scopes, "super"@, at - 1),
    ensures
        crate::resolver::depth_of(scopes, "this"@) is Some,
        crate::resolver::depth_of(scopes, "super"@) == Some(
            crate::resolver::depth_of(scopes, "this"@)->Some_0 + 1,
        ),
{
    law_distance_of_the_nearest_scope(scopes, "this"@, at);
    law_distance_of_the_nearest_scope(scopes, "super"@, at - 1);
}

/// `this` is refused outside a class, and the error changes nothing. In
/// a class the use gets the distance of the nearest scope that holds
/// `this`, and nothing else changes.
pub proof fn law_resolving_this(st: ResolverView, e: Expr)
    requires
        e is This,
    ensures
        st.current_class == crate::resolver::ClassType::Outside ==> resolve_expression(st, e)
            == st.fail(ResolveError::ThisOutsideClass),
        st.current_class != crate::resolver::ClassType::Outside ==> resolve_expression(st, e) == Ok::<
            ResolverView,
            crate::resolver::Failure,
        >(st.resolve_local(e->This_id, e->This_keyword.lexeme@)),
{
}

/// A class cannot inherit from itself. A class that names itself as its
/// superclass is an error, and nothing is recorded for it: the resolver
/// stops with the name of the class declared and defined, inside the
/// class, and with the distances that it had before. Where the innermost
/// scope holds the name of the class already, the error is that of the
/// second declaration, and it changes nothing.
pub proof fn law_self_inheritance_is_rejected(st: ResolverView, class: Stmt)
    requires
        class matches Stmt::Class { name, superclass: Some(parent), .. } && name.lexeme@
            == parent.name.lexeme@,
    ensures
        resolve_statement(st, class) matches Err(stopped) && stopped.state.locals == st.locals,
        st.declare(class->Class_name.lexeme@) is Err ==> resolve_statement(st, class) == st.fail(
            ResolveError::AlreadyDeclared,
        ),
        st.declare(class->Class_name.lexeme@) is Ok ==> resolve_statement(st, class) == st.mark(
            class->Class_name.lexeme@,
            false,
        ).define(class->Class_name.lexeme@).with_class(crate::resolver::ClassType::Class).fail(
            ResolveError::InheritsFromItself,
        ),
{
}

/// A program in which a class names itself as its superclass leaves
/// nothing recorded, where that class is the first statement.
pub proof fn law_self_inheriting_program_records_nothing(program: Vec<Stmt>)
    requires
        program.len() > 0,
        program[0] matches Stmt::Class { name, superclass: Some(parent), .. } && name.lexeme@
            == parent.name.lexeme@,
    ensures
        resolve_statements(ResolverView::initial(), program, 0) matches Err(stopped) && stopped.error
            == ResolveError::InheritsFromItself && stopped.state.locals == Map::<
            usize,
            usize,
        >::empty(),
{
    law_self_inheritance_is_rejected(ResolverView::initial(), program[0]);
}

/// The kind of a value, as a number from zero to five.
pub open spec fn kind_of(v: LiteralView) -> nat {
    match v {
        LiteralView::Nil => 0,
        LiteralView::Boolean(_) => 1,
        LiteralView::Number(_) => 2,
        LiteralView::String(_) => 3,
        LiteralView::Callable(_) => 4,
        LiteralView::ClassInstance(_) => 5,
    }
}

/// Values of different kinds are never equal: `==` between them is
/// false, and no error, whatever the heap holds and however small the
/// budget is.
pub proof fn law_values_of_different_kinds_differ(
    heap: HeapView,
    a: LiteralView,
    b: LiteralView,
    fuel: nat,
)
    requires
        kind_of(a) != kind_of(b),
    ensures
        values_equal(heap, a, b, fuel) == Some(false),
{
}

/// A class is equal to itself, whatever the heap holds and however small
/// the budget is.
pub proof fn law_class_equals_itself(heap: HeapView, c: ClassView, fuel: nat)
    ensures
        crate::equality::classes_equal(heap, c, c, fuel) == Some(true),
    decreases c,
{
    let answers = crate::equality::method_answers(heap, c.methods, c.methods, fuel);
    assert forall|k: Seq<char>| answers.contains_key(k) implies #[trigger] answers[k] == Some(
        true,
    ) by {}
    assert(crate::equality::all(answers) == Some(true));
    assert(crate::equality::methods_equal(heap, c.methods, c.methods, fuel) == Some(true));
    if let Some(parent) = c.superclass {
        law_class_equals_itself(heap, *parent, fuel);
    }
}

/// Every value is equal to itself, whatever the heap holds and however
/// small the budget is: what is the same need not be compared.
pub proof fn law_value_equals_itself(heap: HeapView, a: LiteralView, fuel: nat)
    ensures
        values_equal(heap, a, a, fuel) == Some(true),
{
    if let LiteralView::Callable(c) = a {
        if let crate::tokens::CallableView::Class(k) = c.callable {
            law_class_equals_itself(heap, k, fuel);
        }
    }
}

/// `and` and `or` evaluate their right operand only where the left one
/// does not decide: where the left operand of `and` is false or that of
/// `or` is true, the whole is the left operand, and nothing of the right
/// operand runs.
pub proof fn law_logical_operators_short_circuit(
    st: StateView,
    locals: Map<usize, usize>,
    env: EnvRef,
    e: Expr,
    fuel: nat,
)
    requires
        e matches Expr::Logical { left, operator, .. } && (
        evaluate(st, locals, env, *left, fuel).flow matches Flow::Normal(x) && ((operator.token_type
            == TokenType::And && !truthy(x)) || (operator.token_type == TokenType::Or && truthy(
            x,
        )))),
    ensures
        evaluate(st, locals, env, e, fuel) == evaluate(st, locals, env, left_of(e), fuel),
{
}

/// The left operand of a logical or binary expression.
pub open spec fn left_of(e: Expr) -> Expr {
    match e {
        Expr::Logical { left, .. } => *left,
        Expr::Binary { left, .. } => *left,
        _ => e,
    }
}

/// The left operand is evaluated before the right one: where it does not
/// end normally, the whole ends as it does, and nothing of the right
/// operand runs.
pub proof fn law_left_operand_goes_first(
    st: StateView,
    locals: Map<usize, usize>,
    env: EnvRef,
    e: Expr,
    fuel: nat,
)
    requires
        e is Binary || e is Logical,
        !(evaluate(st, locals, env, left_of(e), fuel).flow is Normal),
    ensures
        evaluate(st, locals, env, e, fuel) == evaluate(st, locals, env, left_of(e), fuel),
{
}

/// A call with the wrong number of arguments is an error that names both
/// numbers, and it leaves the state as it was: nothing of the callee has
/// run.
pub proof fn law_wrong_arity_runs_nothing(
    st: StateView,
    locals: Map<usize, usize>,
    callable: LoxCallableView,
    args: Seq<LiteralView>,
    fuel: nat,
)
    requires
        callable.arity() != args.len(),
    ensures
        call(st, locals, callable, args, fuel).state == st,
        call(st, locals, callable, args, fuel).flow == Flow::Error(
            arity_text(callable.arity(), args.len()),
        ),
{
}

/// A call of an initializer that ends normally gives the instance that
/// the initializer is bound to when the call begins, whatever its body
/// does and whatever it returns.
pub proof fn law_initializer_gives_this(
    st: StateView,
    locals: Map<usize, usize>,
    f: Function,
    args: Seq<LiteralView>,
    fuel: nat,
)
    requires
        f.is_initializer,
    ensures
        call_function(st, locals, f, args, fuel).flow matches Flow::Normal(v) ==> st.heap.get_current(
            f.env,
            "this"@,
        ) == Some(v),
{
}

/// Calling a class that ends normally gives a new instance of the class,
/// whether or not the class has an initializer and whatever the
/// initializer returns.
pub proof fn law_class_call_gives_new_instance(
    st: StateView,
    locals: Map<usize, usize>,
    callable: LoxCallableView,
    args: Seq<LiteralView>,
    fuel: nat,
)
    requires
        callable.callable is Class,
    ensures
        call(st, locals, callable, args, fuel).flow matches Flow::Normal(v) ==> v
            == LiteralView::ClassInstance(st.heap.next_instance()),
{
}

/// A call never lets a `return` through: it ends the call.
pub proof fn law_return_ends_at_the_call(
    st: StateView,
    locals: Map<usize, usize>,
    callable: LoxCallableView,
    args: Seq<LiteralView>,
    fuel: nat,
)
    ensures
        !(call(st, locals, callable, args, fuel).flow is Return),
{
}

/// An assignment in a nested block reaches the variable of the block
/// around it: after `{ x = v; }` has run in an environment that holds `x`,
/// that environment holds `v` for `x`.
pub proof fn law_nested_assignment_reaches_outer_variable(
    st: StateView,
    locals: Map<usize, usize>,
    env: EnvRef,
    block: Stmt,
    fuel: nat,
)
    requires
        st.heap.get_current(env, assigned_name(block)) is Some,
        st.heap.has_room(),
        block matches Stmt::Block { statements, .. } && statements.len() == 1 && (
        statements[0] matches Stmt::Expression {
            expression: Expr::Assign { id, value, .. },
            ..
        } && *value is Literal && locals.contains_key(id) && locals[id] == 1),
    ensures
        execute(st, locals, env, block, fuel).flow is Normal,
        execute(st, locals, env, block, fuel).state.heap.get_current(env, assigned_name(block))
            == Some(assigned_value(block)),
{
    let statements = block->Block_statements;
    let name = assigned_name(block);
    let value = assigned_value(block);
    let inner = st.heap.next_env();
    let opened = st.heap.with_env(Some(env));
    let start = st.with_heap(opened);
    assert(opened.environments[env.index as int] == st.heap.environments[env.index as int]);
    assert(opened.ancestor(inner, 1) == Some(env)) by {
        reveal_with_fuel(crate::environment::HeapView::ancestor, 3);
    }
    assert(opened.get_current(env, name) is Some);
    let assigned = opened.define(env, name, value);
    assert(opened.assign_at_distance(inner, 1, name, value) == Ok::<
        crate::environment::HeapView,
        Seq<char>,
    >(assigned));
    let id = statements[0]->Expression_expression->Assign_id;
    let literal = *statements[0]->Expression_expression->Assign_value;
    assert(evaluate(start, locals, inner, literal, fuel) == start.give(value));
    assert(evaluate(start, locals, inner, statements[0]->Expression_expression, fuel)
        == start.with_heap(assigned).give(value));
    let after = start.with_heap(assigned);
    assert(execute(start, locals, inner, statements[0], fuel) == after.give(LiteralView::Nil));
    assert(execute_block(after, locals, inner, statements, 1, fuel) == after.give(LiteralView::Nil));
    assert(execute_block(start, locals, inner, statements, 0, fuel) == after.give(LiteralView::Nil));
    assert(execute(st, locals, env, block, fuel) == after.give(LiteralView::Nil));
    assert(assigned.get_current(env, name) == Some(value));
}

/// Binding the parameters of a call in one environment leaves the
/// variables of every other environment as they were.
pub proof fn law_bind_params_touches_one_environment(
    heap: HeapView,
    env: EnvRef,
    params: Seq<Token>,
    args: Seq<LiteralView>,
    i: nat,
    other: EnvRef,
)
    requires
        other != env,
    ensures
        bind_params(heap, env, params, args, i).environments.len() == heap.environments.len(),
        heap.has_env(other) ==> bind_params(heap, env, params, args, i).environments[other.index as int]
            == heap.environments[other.index as int],
    decreases params.len() - i,
{
    if i < params.len() && i < args.len() {
        let next = heap.define(env, params[i as int].lexeme@, args[i as int]);
        law_bind_params_touches_one_environment(next, env, params, args, i + 1, other);
    }
}

/// A closure captures its environment by reference. The body of a
/// function runs in a new environment, and one step out from it lies the
/// very environment that the function closed over: the body reads there
/// what that environment holds at the time of the call, whoever put it
/// there, and not what it held when the function was made.
pub proof fn law_body_runs_inside_the_closure(
    heap: HeapView,
    f: Function,
    args: Seq<LiteralView>,
    name: Seq<char>,
)
    requires
        heap.has_env(f.env),
        heap.has_room(),
    ensures
        ({
            let inner = heap.next_env();
            let started = bind_params(heap.with_env(Some(f.env)), inner, f.declaration.params@, args, 0);
            &&& started.ancestor(inner, 1) == Some(f.env)
            &&& started.get_at_distance(inner, 1, name) == heap.get_current(f.env, name)
        }),
{
    let inner = heap.next_env();
    let made = heap.with_env(Some(f.env));
    let started = bind_params(made, inner, f.declaration.params@, args, 0);
    law_bind_params_touches_one_environment(made, inner, f.declaration.params@, args, 0, f.env);
    crate::stability::law_bind_params_extends(made, inner, f.declaration.params@, args, 0);
    assert(made.environments[f.env.index as int] == heap.environments[f.env.index as int]);
    assert(started.environments[inner.index as int].enclosing == made.environments[inner.index as int].enclosing);
    assert(started.ancestor(inner, 1) == Some(f.env)) by {
        reveal_with_fuel(HeapView::ancestor, 3);
    }
}

/// Whether a parameter from position `from` on has the name `name`.
pub open spec fn names_parameter(params: Seq<Token>, from: int, name: Seq<char>) -> bool {
    exists|k: int| from <= k < params.len() && (#[trigger] params[k]).lexeme@ == name
}

/// Whether no parameter behind the one at `k` has its name. Where two
/// parameters share a name, the later one decides what the name is bound
/// to.
pub open spec fn last_of_its_name(params: Seq<Token>, k: int) -> bool {
    forall|j: int| k < j < params.len() ==> (#[trigger] params[j]).lexeme@ != params[k].lexeme@
}

/// Binding the parameters from position `i` on binds just their names in
/// the environment of the call, each to its argument, and changes nothing
/// else of that environment.
pub proof fn law_bind_params_binds_the_parameters(
    heap: HeapView,
    env: EnvRef,
    params: Seq<Token>,
    args: Seq<LiteralView>,
    i: nat,
)
    requires
        heap.has_env(env),
        params.len() == args.len(),
    ensures
        ({
            let bound = bind_params(heap, env, params, args, i);
            let before = heap.environments[env.index as int];
            let after = bound.environments[env.index as int];
            &&& bound.environments.len() == heap.environments.len()
            &&& bound.instances == heap.instances
            &&& after.enclosing == before.enclosing
            &&& forall|name: Seq<char>|
                #![trigger after.values.contains_key(name)]
                #![trigger names_parameter(params, i as int, name)]
                after.values.contains_key(name) <==> before.values.contains_key(name)
                    || names_parameter(params, i as int, name)
            &&& forall|name: Seq<char>|
                before.values.contains_key(name) && !(#[trigger] names_parameter(
                    params,
                    i as int,
                    name,
                )) ==> after.values[name] == before.values[name]
            &&& forall|k: int|
                i <= k < params.len() && #[trigger] last_of_its_name(params, k)
                    ==> after.values[params[k].lexeme@] == args[k]
        }),
    decreases params.len() - i,
{
    let bound = bind_params(heap, env, params, args, i);
    let before = heap.environments[env.index as int];
    let after = bound.environments[env.index as int];
    if i < params.len() {
        let own = params[i as int].lexeme@;
        let next = heap.define(env, own, args[i as int]);
        let middle = next.environments[env.index as int];
        law_bind_params_binds_the_parameters(next, env, params, args, i + 1);
        assert forall|name: Seq<char>|
            #![trigger after.values.contains_key(name)]
            #![trigger names_parameter(params, i as int, name)]
            after.values.contains_key(name) <==> before.values.contains_key(name)
                || names_parameter(params, i as int, name) by {
            assert(after.values.contains_key(name) <==> middle.values.contains_key(name)
                || names_parameter(params, (i + 1) as int, name));
            if names_parameter(params, i as int, name) {
                let k = choose|k: int| i <= k < params.len() && (#[trigger] params[k]).lexeme@ == name;
                if k > i {
                    assert(names_parameter(params, (i + 1) as int, name));
                }
            }
            if names_parameter(params, (i + 1) as int, name) {
                let k = choose|k: int|
                    i + 1 <= k < params.len() && (#[trigger] params[k]).lexeme@ == name;
                assert(i <= k < params.len() && params[k].lexeme@ == name);
            }
            if name == own {
                assert(params[i as int].lexeme@ == name);
                assert(names_parameter(params, i as int, name));
            }
        }
        assert forall|name: Seq<char>|
            before.values.contains_key(name) && !(#[trigger] names_parameter(
                params,
                i as int,
                name,
            )) implies after.values[name] == before.values[name] by {
            assert(name != own) by {
                if name == own {
                    assert(params[i as int].lexeme@ == name);
                }
            }
            if names_parameter(params, (i + 1) as int, name) {
                let k = choose|k: int|
                    i + 1 <= k < params.len() && (#[trigger] params[k]).lexeme@ == name;
                assert(i <= k < params.len() && params[k].lexeme@ == name);
            }
            assert(middle.values.contains_key(name));
            assert(!names_parameter(params, (i + 1) as int, name));
        }
        assert forall|k: int|
            i <= k < params.len() && #[trigger] last_of_its_name(params, k) implies after.values[params[k].lexeme@]
            == args[k] by {
            if k == i {
                if names_parameter(params, (i + 1) as int, own) {
                    let j = choose|j: int|
                        i + 1 <= j < params.len() && (#[trigger] params[j]).lexeme@ == own;
                    assert(params[j].lexeme@ != params[k].lexeme@);
                }
                assert(middle.values.contains_key(own));
                assert(!names_parameter(params, (i + 1) as int, own));
            }
        }
    } else {
        assert forall|name: Seq<char>| !(#[trigger] names_parameter(params, i as int, name)) by {}
    }
}

/// Closures capture by reference. A call of a function with as many
/// arguments as it has parameters runs the body of the function in a new
/// environment. The new environment lies inside the environment that the
/// function closed over, wherever the call is made from. It binds the
/// parameters to the arguments and nothing else, and no other environment
/// is touched before the body runs. The state after the call is the state
/// that the body left: what the body wrote to the variables that the
/// function closed over stays written.
pub proof fn law_call_runs_the_body_inside_the_closure(
    st: StateView,
    locals: Map<usize, usize>,
    callable: LoxCallableView,
    args: Seq<LiteralView>,
    fuel: nat,
)
    requires
        callable.callable is Function,
        callable.arity() == args.len(),
        fuel > 0,
        st.heap.has_room(),
        callable.callable->Function_0.is_initializer ==> crate::semantics::bound_instance(
            st.heap,
            callable.callable->Function_0,
        ) is Some,
    ensures
        ({
            let f = callable.callable->Function_0;
            let params = f.declaration.params@;
            let inner = st.heap.next_env();
            let started = bind_params(st.heap.with_env(Some(f.env)), inner, params, args, 0);
            let body = execute_block(
                st.with_heap(started),
                locals,
                inner,
                f.declaration.body,
                0,
                (fuel - 1) as nat,
            );
            let own = started.environments[inner.index as int];
            &&& !st.heap.has_env(inner)
            &&& started.has_env(inner)
            &&& started.environments.len() == st.heap.environments.len() + 1
            &&& own.enclosing == Some(f.env)
            &&& forall|name: Seq<char>|
                #![trigger own.values.contains_key(name)]
                #![trigger names_parameter(params, 0, name)]
                own.values.contains_key(name) <==> names_parameter(params, 0, name)
            &&& forall|k: int|
                0 <= k < params.len() && #[trigger] last_of_its_name(params, k)
                    ==> own.values[params[k].lexeme@] == args[k]
            &&& forall|e: EnvRef|
                st.heap.has_env(e) ==> (#[trigger] started.environments[e.index as int])
                    == st.heap.environments[e.index as int]
            &&& started.instances == st.heap.instances
            &&& call(st, locals, callable, args, fuel).state == body.state
            &&& body.flow is Return && !f.is_initializer ==> call(st, locals, callable, args, fuel).flow
                == Flow::Normal(body.flow->Return_0)
            &&& body.flow is Normal && !f.is_initializer ==> call(st, locals, callable, args, fuel).flow
                == Flow::Normal(LiteralView::Nil)
            &&& !(body.flow is Normal) && !(body.flow is Return) ==> call(
                st,
                locals,
                callable,
                args,
                fuel,
            ).flow == body.flow
        }),
{
    let f = callable.callable->Function_0;
    let params = f.declaration.params@;
    let inner = st.heap.next_env();
    let made = st.heap.with_env(Some(f.env));
    let started = bind_params(made, inner, params, args, 0);
    assert(made.has_env(inner));
    law_bind_params_binds_the_parameters(made, inner, params, args, 0);
    assert forall|e: EnvRef| st.heap.has_env(e) implies (#[trigger] started.environments[e.index as int])
        == st.heap.environments[e.index as int] by {
        law_bind_params_touches_one_environment(made, inner, params, args, 0, e);
    }
    assert(call(st, locals, callable, args, fuel) == call_function(st, locals, f, args, fuel));
}

/// An initializer gives its instance. A call of an initializer that is
/// bound to an instance gives that very instance wherever it gives a
/// value at all, and it gives a value wherever its body runs to its end
/// or ends with `return`: never `nil`, and never what the body returned.
pub proof fn law_bound_initializer_gives_its_instance(
    st: StateView,
    locals: Map<usize, usize>,
    callable: LoxCallableView,
    args: Seq<LiteralView>,
    fuel: nat,
    instance: LiteralView,
)
    requires
        callable.callable matches CallableView::Function(f) && f.is_initializer
            && crate::semantics::bound_instance(st.heap, f) == Some(instance),
        callable.arity() == args.len(),
    ensures
        call(st, locals, callable, args, fuel).flow matches Flow::Normal(v) ==> v == instance,
        ({
            let f = callable.callable->Function_0;
            let inner = st.heap.next_env();
            let started = bind_params(st.heap.with_env(Some(f.env)), inner, f.declaration.params@, args, 0);
            let body = execute_block(
                st.with_heap(started),
                locals,
                inner,
                f.declaration.body,
                0,
                (fuel - 1) as nat,
            );
            fuel > 0 && (body.flow is Normal || body.flow is Return) ==> call(
                st,
                locals,
                callable,
                args,
                fuel,
            ) == body.state.give(instance)
        }),
{
    let f = callable.callable->Function_0;
    assert(call(st, locals, callable, args, fuel) == call_function(st, locals, f, args, fuel));
}

/// A class has the methods of its superclass: a method that the class
/// does not declare is the one that its superclass has under the name.
pub proof fn law_methods_are_inherited(class: ClassView, name: Seq<char>)
    requires
        !class.methods.contains_key(name),
    ensures
        class.find_method(name) == match class.superclass {
            Some(s) => s.find_method(name),
            None => None,
        },
{
}

/// A method that a class declares goes before the one of its
/// superclass.
pub proof fn law_own_method_overrides(class: ClassView, name: Seq<char>)
    requires
        class.methods.contains_key(name),
    ensures
        class.find_method(name) == Some(class.methods[name]),
{
}

/// The name that the one statement of a block assigns to.
pub open spec fn assigned_name(block: Stmt) -> Seq<char> {
    match block {
        Stmt::Block { statements, .. } => if statements.len() == 1 {
            match statements[0] {
                Stmt::Expression { expression: Expr::Assign { name, .. }, .. } => name.lexeme@,
                _ => Seq::empty(),
            }
        } else {
            Seq::empty()
        },
        _ => Seq::empty(),
    }
}

/// The value of the literal that the one statement of a block assigns.
pub open spec fn assigned_value(block: Stmt) -> LiteralView {
    match block {
        Stmt::Block { statements, .. } => if statements.len() == 1 {
            match statements[0] {
                Stmt::Expression { expression: Expr::Assign { value, .. }, .. } => match *value {
                    Expr::Literal { value, .. } => value@,
                    _ => LiteralView::Nil,
                },
                _ => LiteralView::Nil,
            }
        } else {
            LiteralView::Nil
        },
        _ => LiteralView::Nil,
    }
}

} // verus!
