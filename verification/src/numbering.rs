//! Every node of a program has an id of its own.
//!
//! The parser gives ids from a counter that only goes up. So the ids of
//! the nodes that a step of the parser makes lie between the counter
//! before the step and the counter after it, and no two nodes share one.
//! Two programs read one after the other, the second from the counter
//! where the first ended, share none either.

use vstd::prelude::*;
use crate::ast::{ExprView, FunctionStmtView, StmtView, VariableExpr};
use crate::grammar::{
    advance, ahead, arguments, assignment, binary, binary_node, binary_rest, block, block_rest,
    call, call_rest, class_declaration, consume, declaration, else_branch, expression,
    expression_statement, finish_call, for_initializer, for_loop, for_statement, function, gen_id,
    gen_ids, if_statement, methods, operand, optional_expression, parameters, primary,
    print_statement, program, program_rest, return_statement, statement, superclass, unary,
    var_declaration, while_statement, Cursor,
};
use crate::tokens::{Token, TokenType};

verus! {

/// One if a node with the id `own` has the id `id`, and zero if not.
pub open spec fn hit(own: usize, id: usize) -> nat {
    if own == id {
        1
    } else {
        0
    }
}

/// The number of nodes of an expression that have the id `id`.
pub open spec fn expr_has(e: ExprView, id: usize) -> nat
    decreases e,
{
    match e {
        ExprView::Assign { id: own, value, .. } => hit(own, id) + expr_has(*value, id),
        ExprView::Binary { id: own, left, right, .. } => hit(own, id) + expr_has(*left, id)
            + expr_has(*right, id),
        ExprView::Call { id: own, callee, arguments } => hit(own, id) + expr_has(*callee, id)
            + exprs_have(arguments, id),
        ExprView::Get { id: own, object, .. } => hit(own, id) + expr_has(*object, id),
        ExprView::Grouping { id: own, expression } => hit(own, id) + expr_has(*expression, id),
        ExprView::Literal { id: own, .. } => hit(own, id),
        ExprView::Logical { id: own, left, right, .. } => hit(own, id) + expr_has(*left, id)
            + expr_has(*right, id),
        ExprView::SetField { id: own, object, value, .. } => hit(own, id) + expr_has(*object, id)
            + expr_has(*value, id),
        ExprView::Super { id: own, .. } => hit(own, id),
        ExprView::This { id: own, .. } => hit(own, id),
        ExprView::Unary { id: own, right, .. } => hit(own, id) + expr_has(*right, id),
        ExprView::Variable(v) => hit(v.id, id),
    }
}

/// The number of nodes of a list of expressions that have the id `id`.
pub open spec fn exprs_have(es: Seq<ExprView>, id: usize) -> nat
    decreases es,
{
    if es.len() == 0 {
        0
    } else {
        exprs_have(es.drop_last(), id) + expr_has(es.last(), id)
    }
}

/// The number of nodes of a function that have the id `id`.
pub open spec fn function_has(f: FunctionStmtView, id: usize) -> nat
    decreases f,
{
    hit(f.id, id) + stmts_have(f.body, id)
}

/// The number of nodes of a list of functions that have the id `id`.
pub open spec fn functions_have(fs: Seq<FunctionStmtView>, id: usize) -> nat
    decreases fs,
{
    if fs.len() == 0 {
        0
    } else {
        functions_have(fs.drop_last(), id) + function_has(fs.last(), id)
    }
}

/// The number of nodes of a statement that have the id `id`.
pub open spec fn stmt_has(s: StmtView, id: usize) -> nat
    decreases s,
{
    match s {
        StmtView::Block { id: own, statements } => hit(own, id) + stmts_have(statements, id),
        StmtView::Class { id: own, superclass, methods, .. } => hit(own, id) + variable_has(
            superclass,
            id,
        ) + functions_have(methods, id),
        StmtView::Expression { id: own, expression } => hit(own, id) + expr_has(expression, id),
        StmtView::Function(f) => function_has(f, id),
        StmtView::If { id: own, condition, then_branch, else_branch } => hit(own, id) + expr_has(
            condition,
            id,
        ) + stmt_has(*then_branch, id) + stmt_has(*else_branch, id),
        StmtView::Print { id: own, expression } => hit(own, id) + expr_has(expression, id),
        StmtView::Return { id: own, value } => hit(own, id) + expr_has(value, id),
        StmtView::Var { id: own, initializer, .. } => hit(own, id) + expr_has(initializer, id),
        StmtView::While { id: own, condition, body } => hit(own, id) + expr_has(condition, id)
            + stmt_has(*body, id),
    }
}

/// The number of nodes of a list of statements that have the id `id`.
pub open spec fn stmts_have(ss: Seq<StmtView>, id: usize) -> nat
    decreases ss,
{
    if ss.len() == 0 {
        0
    } else {
        stmts_have(ss.drop_last(), id) + stmt_has(ss.last(), id)
    }
}

/// The number of nodes of an optional use of a variable that have the id
/// `id`.
pub open spec fn variable_has(v: Option<VariableExpr>, id: usize) -> nat {
    match v {
        Some(x) => hit(x.id, id),
        None => 0,
    }
}

/// No two nodes of an expression share an id, and every id lies from
/// `lo` up to, not with, `hi`.
pub open spec fn fresh_expr(e: ExprView, lo: nat, hi: nat) -> bool {
    forall|id: usize| #[trigger] expr_has(e, id) <= 1 && (expr_has(e, id) > 0 ==> lo <= id < hi)
}

/// The same for a list of expressions.
pub open spec fn fresh_exprs(es: Seq<ExprView>, lo: nat, hi: nat) -> bool {
    forall|id: usize| #[trigger] exprs_have(es, id) <= 1 && (exprs_have(es, id) > 0 ==> lo <= id < hi)
}

/// The same for a statement.
pub open spec fn fresh_stmt(s: StmtView, lo: nat, hi: nat) -> bool {
    forall|id: usize| #[trigger] stmt_has(s, id) <= 1 && (stmt_has(s, id) > 0 ==> lo <= id < hi)
}

/// The same for a list of statements.
pub open spec fn fresh_stmts(ss: Seq<StmtView>, lo: nat, hi: nat) -> bool {
    forall|id: usize| #[trigger] stmts_have(ss, id) <= 1 && (stmts_have(ss, id) > 0 ==> lo <= id < hi)
}

/// The same for a function.
pub open spec fn fresh_function(f: FunctionStmtView, lo: nat, hi: nat) -> bool {
    forall|id: usize| #[trigger]
        function_has(f, id) <= 1 && (function_has(f, id) > 0 ==> lo <= id < hi)
}

/// The same for a list of functions.
pub open spec fn fresh_functions(fs: Seq<FunctionStmtView>, lo: nat, hi: nat) -> bool {
    forall|id: usize| #[trigger]
        functions_have(fs, id) <= 1 && (functions_have(fs, id) > 0 ==> lo <= id < hi)
}

/// One more expression behind a list adds its nodes to those of the
/// list.
pub proof fn law_exprs_push(es: Seq<ExprView>, e: ExprView, id: usize)
    ensures
        exprs_have(es.push(e), id) == exprs_have(es, id) + expr_has(e, id),
{
    assert(es.push(e).drop_last() =~= es);
}

/// One more statement behind a list adds its nodes to those of the list.
pub proof fn law_stmts_push(ss: Seq<StmtView>, s: StmtView, id: usize)
    ensures
        stmts_have(ss.push(s), id) == stmts_have(ss, id) + stmt_has(s, id),
{
    assert(ss.push(s).drop_last() =~= ss);
}

/// One more function behind a list adds its nodes to those of the list.
pub proof fn law_functions_push(fs: Seq<FunctionStmtView>, f: FunctionStmtView, id: usize)
    ensures
        functions_have(fs.push(f), id) == functions_have(fs, id) + function_has(f, id),
{
    assert(fs.push(f).drop_last() =~= fs);
}

/// The nodes of a list of two statements are those of the two.
pub proof fn law_stmts_pair(a: StmtView, b: StmtView, id: usize)
    ensures
        stmts_have(seq![a, b], id) == stmt_has(a, id) + stmt_has(b, id),
{
    let one = Seq::<StmtView>::empty().push(a);
    assert(seq![a, b] =~= one.push(b));
    law_stmts_push(one, b, id);
    law_stmts_push(Seq::<StmtView>::empty(), a, id);
}

/// A primary expression gets ids of its own.
pub proof fn law_primary_numbers(tokens: Seq<Token>, c: Cursor)
    ensures
        primary(tokens, c) matches Ok((e, end)) ==> c.next_id <= end.next_id && fresh_expr(
            e,
            c.next_id,
            end.next_id,
        ),
    decreases tokens.len() - c.pos, 0nat,
{
    if let Ok((token, c1)) = advance(tokens, c) {
        if let Ok((id, c2)) = gen_id(c1) {
            if token.token_type == TokenType::LeftParen {
                law_expression_numbers(tokens, c2);
                if let Ok((inner, c3)) = expression(tokens, c2) {
                    if let Ok((_, c4)) = consume(
                        tokens,
                        c3,
                        TokenType::RightParen,
                        "Expect ')' after expression"@,
                    ) {
                        let e = ExprView::Grouping { id, expression: Box::new(inner) };
                        assert forall|x: usize| #[trigger]
                            expr_has(e, x) <= 1 && (expr_has(e, x) > 0 ==> c.next_id <= x < c4.next_id) by {
                            assert(expr_has(inner, x) <= 1);
                        }
                    }
                }
            }
        }
    }
}

/// The arguments of a call get ids of their own.
pub proof fn law_arguments_numbers(tokens: Seq<Token>, c: Cursor, done: Seq<ExprView>, lo: nat)
    requires
        lo <= c.next_id,
        fresh_exprs(done, lo, c.next_id),
    ensures
        arguments(tokens, c, done) matches Ok((args, end)) ==> c.next_id <= end.next_id
            && fresh_exprs(args, lo, end.next_id),
    decreases tokens.len() - c.pos, 11nat,
{
    if done.len() <= 255 {
        match crate::grammar::peek_type(tokens, c.pos) {
            TokenType::Comma => {
                if let Ok((_, c1)) = advance(tokens, c) {
                    law_arguments_numbers(tokens, c1, done, lo);
                }
            },
            TokenType::RightParen => {},
            _ => {
                law_expression_numbers(tokens, c);
                if let Ok((e, c1)) = expression(tokens, c) {
                    if ahead(tokens, c, c1) {
                        assert forall|id: usize| #[trigger]
                            exprs_have(done.push(e), id) <= 1 && (exprs_have(done.push(e), id) > 0
                                ==> lo <= id < c1.next_id) by {
                            law_exprs_push(done, e, id);
                            assert(expr_has(e, id) <= 1);
                            assert(exprs_have(done, id) <= 1);
                        }
                        law_arguments_numbers(tokens, c1, done.push(e), lo);
                    }
                }
            },
        }
    }
}

/// A call gets ids of its own, beside those of what is called.
pub proof fn law_finish_call_numbers(tokens: Seq<Token>, c: Cursor, callee: ExprView, lo: nat)
    requires
        lo <= c.next_id,
        fresh_expr(callee, lo, c.next_id),
    ensures
        finish_call(tokens, c, callee) matches Ok((e, end)) ==> c.next_id <= end.next_id
            && fresh_expr(e, lo, end.next_id),
    decreases tokens.len() - c.pos, 12nat,
{
    assert(fresh_exprs(Seq::empty(), c.next_id, c.next_id));
    law_arguments_numbers(tokens, c, Seq::empty(), c.next_id);
    if let Ok((args, c1)) = arguments(tokens, c, Seq::empty()) {
        if let Ok((_, c2)) = consume(tokens, c1, TokenType::RightParen, "Expect ')' after arguments."@) {
            if let Ok((id, c3)) = gen_id(c2) {
                let e = ExprView::Call { id, callee: Box::new(callee), arguments: args };
                assert forall|x: usize| #[trigger]
                    expr_has(e, x) <= 1 && (expr_has(e, x) > 0 ==> lo <= x < c3.next_id) by {
                    assert(expr_has(callee, x) <= 1);
                    assert(exprs_have(args, x) <= 1);
                }
            }
        }
    }
}

/// The calls and property accesses behind an expression get ids of their
/// own.
pub proof fn law_call_rest_numbers(tokens: Seq<Token>, c: Cursor, e: ExprView, lo: nat)
    requires
        lo <= c.next_id,
        fresh_expr(e, lo, c.next_id),
    ensures
        call_rest(tokens, c, e) matches Ok((r, end)) ==> c.next_id <= end.next_id && fresh_expr(
            r,
            lo,
            end.next_id,
        ),
    decreases tokens.len() - c.pos, 13nat,
{
    match crate::grammar::peek_type(tokens, c.pos) {
        TokenType::LeftParen => {
            if let Ok((_, c1)) = advance(tokens, c) {
                law_finish_call_numbers(tokens, c1, e, lo);
                if let Ok((made, c2)) = finish_call(tokens, c1, e) {
                    if ahead(tokens, c, c2) {
                        law_call_rest_numbers(tokens, c2, made, lo);
                    }
                }
            }
        },
        TokenType::Dot => {
            if let Ok((_, c1)) = advance(tokens, c) {
                if let Ok((name, c2)) = consume(
                    tokens,
                    c1,
                    TokenType::Identifier,
                    "Expect property name after '.'"@,
                ) {
                    if let Ok((id, c3)) = gen_id(c2) {
                        let got = ExprView::Get { id, object: Box::new(e), name };
                        assert forall|x: usize| #[trigger]
                            expr_has(got, x) <= 1 && (expr_has(got, x) > 0 ==> lo <= x < c3.next_id) by {
                            assert(expr_has(e, x) <= 1);
                        }
                        law_call_rest_numbers(tokens, c3, got, lo);
                    }
                }
            }
        },
        _ => {},
    }
}

/// A call expression gets ids of its own.
pub proof fn law_call_numbers(tokens: Seq<Token>, c: Cursor)
    ensures
        call(tokens, c) matches Ok((e, end)) ==> c.next_id <= end.next_id && fresh_expr(
            e,
            c.next_id,
            end.next_id,
        ),
    decreases tokens.len() - c.pos, 1nat,
{
    law_primary_numbers(tokens, c);
    if let Ok((e, c1)) = primary(tokens, c) {
        if ahead(tokens, c, c1) {
            law_call_rest_numbers(tokens, c1, e, c.next_id);
        }
    }
}

/// A unary expression gets ids of its own.
pub proof fn law_unary_numbers(tokens: Seq<Token>, c: Cursor)
    ensures
        unary(tokens, c) matches Ok((e, end)) ==> c.next_id <= end.next_id && fresh_expr(
            e,
            c.next_id,
            end.next_id,
        ),
    decreases tokens.len() - c.pos, 2nat,
{
    let kind = crate::grammar::peek_type(tokens, c.pos);
    if kind == TokenType::Bang || kind == TokenType::Minus {
        if let Ok((operator, c1)) = advance(tokens, c) {
            law_unary_numbers(tokens, c1);
            if let Ok((right, c2)) = unary(tokens, c1) {
                if let Ok((id, c3)) = gen_id(c2) {
                    let e = ExprView::Unary { id, operator, right: Box::new(right) };
                    assert forall|x: usize| #[trigger]
                        expr_has(e, x) <= 1 && (expr_has(e, x) > 0 ==> c.next_id <= x < c3.next_id) by {
                        assert(expr_has(right, x) <= 1);
                    }
                }
            }
        }
    } else {
        law_call_numbers(tokens, c);
    }
}

/// An operand of a binary operator gets ids of its own.
pub proof fn law_operand_numbers(tokens: Seq<Token>, c: Cursor, level: nat)
    ensures
        operand(tokens, c, level) matches Ok((e, end)) ==> c.next_id <= end.next_id && fresh_expr(
            e,
            c.next_id,
            end.next_id,
        ),
    decreases tokens.len() - c.pos, 3nat, 12 - level, 0nat,
{
    if level >= 5 {
        law_unary_numbers(tokens, c);
    } else {
        law_binary_numbers(tokens, c, level + 1);
    }
}

/// The operators behind an operand and their right operands get ids of
/// their own.
pub proof fn law_binary_rest_numbers(tokens: Seq<Token>, c: Cursor, level: nat, left: ExprView, lo: nat)
    requires
        lo <= c.next_id,
        fresh_expr(left, lo, c.next_id),
    ensures
        binary_rest(tokens, c, level, left) matches Ok((e, end)) ==> c.next_id <= end.next_id
            && fresh_expr(e, lo, end.next_id),
    decreases tokens.len() - c.pos, 4nat,
{
    if crate::grammar::level_has(level, crate::grammar::peek_type(tokens, c.pos)) {
        if let Ok((operator, c1)) = advance(tokens, c) {
            law_operand_numbers(tokens, c1, level);
            if let Ok((right, c2)) = operand(tokens, c1, level) {
                if let Ok((id, c3)) = gen_id(c2) {
                    if ahead(tokens, c, c3) {
                        let e = binary_node(level, id, left, operator, right);
                        assert forall|x: usize| #[trigger]
                            expr_has(e, x) <= 1 && (expr_has(e, x) > 0 ==> lo <= x < c3.next_id) by {
                            assert(expr_has(left, x) <= 1);
                            assert(expr_has(right, x) <= 1);
                        }
                        law_binary_rest_numbers(tokens, c3, level, e, lo);
                    }
                }
            }
        }
    }
}

/// An expression of a level of binary operators gets ids of its own.
pub proof fn law_binary_numbers(tokens: Seq<Token>, c: Cursor, level: nat)
    ensures
        binary(tokens, c, level) matches Ok((e, end)) ==> c.next_id <= end.next_id && fresh_expr(
            e,
            c.next_id,
            end.next_id,
        ),
    decreases tokens.len() - c.pos, 3nat, 12 - level, 1nat,
{
    if level > 5 {
        law_unary_numbers(tokens, c);
    } else {
        law_operand_numbers(tokens, c, level);
        if let Ok((left, c1)) = operand(tokens, c, level) {
            if ahead(tokens, c, c1) {
                law_binary_rest_numbers(tokens, c1, level, left, c.next_id);
            }
        }
    }
}

/// An assignment gets ids of its own.
pub proof fn law_assignment_numbers(tokens: Seq<Token>, c: Cursor)
    ensures
        assignment(tokens, c) matches Ok((e, end)) ==> c.next_id <= end.next_id && fresh_expr(
            e,
            c.next_id,
            end.next_id,
        ),
    decreases tokens.len() - c.pos, 9nat,
{
    law_binary_numbers(tokens, c, 0);
    if let Ok((target, c1)) = binary(tokens, c, 0) {
        if ahead(tokens, c, c1) && crate::grammar::peek_type(tokens, c1.pos) == TokenType::Equal {
            if let Ok((_, c2)) = advance(tokens, c1) {
                law_assignment_numbers(tokens, c2);
                if let Ok((value, c3)) = assignment(tokens, c2) {
                    if let Ok((id, c4)) = gen_id(c3) {
                        match target {
                            ExprView::Get { object, name, .. } => {
                                let e = ExprView::SetField { id, object, name, value: Box::new(value) };
                                assert forall|x: usize| #[trigger]
                                    expr_has(e, x) <= 1 && (expr_has(e, x) > 0 ==> c.next_id <= x
                                        < c4.next_id) by {
                                    assert(expr_has(target, x) <= 1);
                                    assert(expr_has(value, x) <= 1);
                                }
                            },
                            ExprView::Variable(v) => {
                                let e = ExprView::Assign { id, name: v.name, value: Box::new(value) };
                                assert forall|x: usize| #[trigger]
                                    expr_has(e, x) <= 1 && (expr_has(e, x) > 0 ==> c.next_id <= x
                                        < c4.next_id) by {
                                    assert(expr_has(value, x) <= 1);
                                }
                            },
                            _ => {},
                        }
                    }
                }
            }
        }
    }
}

/// An expression gets ids of its own.
pub proof fn law_expression_numbers(tokens: Seq<Token>, c: Cursor)
    ensures
        expression(tokens, c) matches Ok((e, end)) ==> c.next_id <= end.next_id && fresh_expr(
            e,
            c.next_id,
            end.next_id,
        ),
    decreases tokens.len() - c.pos, 10nat,
{
    law_assignment_numbers(tokens, c);
}

/// An expression that may be left out gets ids of its own.
pub proof fn law_optional_expression_numbers(tokens: Seq<Token>, c: Cursor, unless: TokenType)
    ensures
        optional_expression(tokens, c, unless) matches Ok((e, end)) ==> c.next_id <= end.next_id
            && fresh_expr(e, c.next_id, end.next_id),
    decreases tokens.len() - c.pos, 11nat,
{
    if !(unless != TokenType::Nothing && crate::grammar::peek_type(tokens, c.pos) == unless) {
        law_expression_numbers(tokens, c);
    }
}

/// A statement made of one expression, with an id behind it, gets ids of
/// its own.
pub proof fn law_expression_statement_numbers(tokens: Seq<Token>, c: Cursor)
    ensures
        expression_statement(tokens, c) matches Ok((s, end)) ==> c.next_id <= end.next_id
            && fresh_stmt(s, c.next_id, end.next_id),
    decreases tokens.len() - c.pos, 11nat,
{
    law_expression_numbers(tokens, c);
    if let Ok((e, c1)) = expression(tokens, c) {
        if let Ok((_, c2)) = consume(tokens, c1, TokenType::Semicolon, "Expect ';' after expression."@) {
            if let Ok((id, c3)) = gen_id(c2) {
                let s = StmtView::Expression { id, expression: e };
                assert forall|x: usize| #[trigger]
                    stmt_has(s, x) <= 1 && (stmt_has(s, x) > 0 ==> c.next_id <= x < c3.next_id) by {
                    assert(expr_has(e, x) <= 1);
                }
            }
        }
    }
}

/// A print statement gets ids of its own.
pub proof fn law_print_statement_numbers(tokens: Seq<Token>, c: Cursor)
    ensures
        print_statement(tokens, c) matches Ok((s, end)) ==> c.next_id <= end.next_id && fresh_stmt(
            s,
            c.next_id,
            end.next_id,
        ),
    decreases tokens.len() - c.pos, 11nat,
{
    law_expression_numbers(tokens, c);
    if let Ok((e, c1)) = expression(tokens, c) {
        if let Ok((_, c2)) = consume(tokens, c1, TokenType::Semicolon, "Expect ';' after value."@) {
            if let Ok((id, c3)) = gen_id(c2) {
                let s = StmtView::Print { id, expression: e };
                assert forall|x: usize| #[trigger]
                    stmt_has(s, x) <= 1 && (stmt_has(s, x) > 0 ==> c.next_id <= x < c3.next_id) by {
                    assert(expr_has(e, x) <= 1);
                }
            }
        }
    }
}

/// A return statement gets ids of its own.
pub proof fn law_return_statement_numbers(tokens: Seq<Token>, c: Cursor)
    ensures
        return_statement(tokens, c) matches Ok((s, end)) ==> c.next_id <= end.next_id && fresh_stmt(
            s,
            c.next_id,
            end.next_id,
        ),
    decreases tokens.len() - c.pos, 12nat,
{
    law_optional_expression_numbers(tokens, c, TokenType::Semicolon);
    if let Ok((e, c1)) = optional_expression(tokens, c, TokenType::Semicolon) {
        if let Ok((_, c2)) = consume(
            tokens,
            c1,
            TokenType::Semicolon,
            "Expect ';' return statement value."@,
        ) {
            if let Ok((id, c3)) = gen_id(c2) {
                let s = StmtView::Return { id, value: e };
                assert forall|x: usize| #[trigger]
                    stmt_has(s, x) <= 1 && (stmt_has(s, x) > 0 ==> c.next_id <= x < c3.next_id) by {
                    assert(expr_has(e, x) <= 1);
                }
            }
        }
    }
}

/// A variable declaration gets ids of its own.
pub proof fn law_var_declaration_numbers(tokens: Seq<Token>, c: Cursor)
    ensures
        var_declaration(tokens, c) matches Ok((s, end)) ==> c.next_id <= end.next_id && fresh_stmt(
            s,
            c.next_id,
            end.next_id,
        ),
    decreases tokens.len() - c.pos, 11nat,
{
    if let Ok((name, c1)) = consume(tokens, c, TokenType::Identifier, "Expect variable name."@) {
        let initializer = if crate::grammar::peek_type(tokens, c1.pos) == TokenType::Equal {
            match advance(tokens, c1) {
                Err(t) => Err(t),
                Ok((_, c2)) => expression(tokens, c2),
            }
        } else {
            match gen_id(c1) {
                Err(t) => Err(t),
                Ok((id, c2)) => Ok((crate::grammar::nil(id), c2)),
            }
        };
        if crate::grammar::peek_type(tokens, c1.pos) == TokenType::Equal {
            if let Ok((_, c2)) = advance(tokens, c1) {
                law_expression_numbers(tokens, c2);
            }
        }
        if let Ok((init, c3)) = initializer {
            if let Ok((_, c4)) = consume(
                tokens,
                c3,
                TokenType::Semicolon,
                "Expect ';' after variable declaration"@,
            ) {
                if let Ok((id, c5)) = gen_id(c4) {
                    let s = StmtView::Var { id, name, initializer: init };
                    assert forall|x: usize| #[trigger]
                        stmt_has(s, x) <= 1 && (stmt_has(s, x) > 0 ==> c.next_id <= x < c5.next_id) by {
                        assert(expr_has(init, x) <= 1);
                    }
                }
            }
        }
    }
}

/// A while statement gets ids of its own.
pub proof fn law_while_statement_numbers(tokens: Seq<Token>, c: Cursor)
    ensures
        while_statement(tokens, c) matches Ok((s, end)) ==> c.next_id <= end.next_id && fresh_stmt(
            s,
            c.next_id,
            end.next_id,
        ),
    decreases tokens.len() - c.pos, 11nat,
{
    if let Ok((_, c1)) = consume(tokens, c, TokenType::LeftParen, "Expect '(' after 'while'."@) {
        law_expression_numbers(tokens, c1);
        if let Ok((condition, c2)) = expression(tokens, c1) {
            if let Ok((_, c3)) = consume(
                tokens,
                c2,
                TokenType::RightParen,
                "Expect ')' after while condition."@,
            ) {
                if ahead(tokens, c, c3) {
                    law_statement_numbers(tokens, c3);
                    if let Ok((body, c4)) = statement(tokens, c3) {
                        if let Ok((id, c5)) = gen_id(c4) {
                            let s = StmtView::While { id, condition, body: Box::new(body) };
                            assert forall|x: usize| #[trigger]
                                stmt_has(s, x) <= 1 && (stmt_has(s, x) > 0 ==> c.next_id <= x
                                    < c5.next_id) by {
                                assert(expr_has(condition, x) <= 1);
                                assert(stmt_has(body, x) <= 1);
                            }
                        }
                    }
                }
            }
        }
    }
}

/// The else branch of an if statement gets ids of its own.
pub proof fn law_else_branch_numbers(tokens: Seq<Token>, c: Cursor)
    ensures
        else_branch(tokens, c) matches Ok((s, end)) ==> c.next_id <= end.next_id && fresh_stmt(
            s,
            c.next_id,
            end.next_id,
        ),
    decreases tokens.len() - c.pos, 14nat,
{
    if crate::grammar::peek_type(tokens, c.pos) == TokenType::Else {
        if let Ok((_, c1)) = advance(tokens, c) {
            law_statement_numbers(tokens, c1);
        }
    } else {
        if let Ok((id, c1)) = gen_id(c) {
            let s = crate::grammar::noop(id);
            assert forall|x: usize| #[trigger]
                stmt_has(s, x) <= 1 && (stmt_has(s, x) > 0 ==> c.next_id <= x < c1.next_id) by {
                assert(stmts_have(Seq::empty(), x) == 0);
            }
        }
    }
}

/// An if statement gets ids of its own.
pub proof fn law_if_statement_numbers(tokens: Seq<Token>, c: Cursor)
    ensures
        if_statement(tokens, c) matches Ok((s, end)) ==> c.next_id <= end.next_id && fresh_stmt(
            s,
            c.next_id,
            end.next_id,
        ),
    decreases tokens.len() - c.pos, 11nat,
{
    if let Ok((_, c1)) = consume(tokens, c, TokenType::LeftParen, "Expect '(' after 'if'."@) {
        law_expression_numbers(tokens, c1);
        if let Ok((condition, c2)) = expression(tokens, c1) {
            if let Ok((_, c3)) = consume(
                tokens,
                c2,
                TokenType::RightParen,
                "Expect ')' after if condition."@,
            ) {
                if ahead(tokens, c, c3) {
                    law_statement_numbers(tokens, c3);
                    if let Ok((then_branch, c4)) = statement(tokens, c3) {
                        if ahead(tokens, c3, c4) {
                            law_else_branch_numbers(tokens, c4);
                            if let Ok((otherwise, c5)) = else_branch(tokens, c4) {
                                if let Ok((id, c6)) = gen_id(c5) {
                                    let s = StmtView::If {
                                        id,
                                        condition,
                                        then_branch: Box::new(then_branch),
                                        else_branch: Box::new(otherwise),
                                    };
                                    assert forall|x: usize| #[trigger]
                                        stmt_has(s, x) <= 1 && (stmt_has(s, x) > 0 ==> c.next_id <= x
                                            < c6.next_id) by {
                                        assert(expr_has(condition, x) <= 1);
                                        assert(stmt_has(then_branch, x) <= 1);
                                        assert(stmt_has(otherwise, x) <= 1);
                                    }
                                }
                            }
                        }
                    }
                }
            }
        }
    }
}

/// The first clause of a for statement gets ids of its own.
pub proof fn law_for_initializer_numbers(tokens: Seq<Token>, c: Cursor)
    ensures
        for_initializer(tokens, c) matches Ok((s, end)) ==> c.next_id <= end.next_id && fresh_stmt(
            s,
            c.next_id,
            end.next_id,
        ),
    decreases tokens.len() - c.pos, 12nat,
{
    match crate::grammar::peek_type(tokens, c.pos) {
        TokenType::Semicolon => {
            if let Ok((_, c1)) = advance(tokens, c) {
                if let Ok((id, c2)) = gen_id(c1) {
                    let s = crate::grammar::noop(id);
                    assert forall|x: usize| #[trigger]
                        stmt_has(s, x) <= 1 && (stmt_has(s, x) > 0 ==> c.next_id <= x < c2.next_id) by {
                        assert(stmts_have(Seq::empty(), x) == 0);
                    }
                }
            }
        },
        TokenType::Var => {
            if let Ok((_, c1)) = advance(tokens, c) {
                law_var_declaration_numbers(tokens, c1);
            }
        },
        _ => {
            law_expression_statement_numbers(tokens, c);
        },
    }
}

/// The loop that a for statement stands for has ids of its own where its
/// parts have, one after the other, and its four nodes come last.
pub proof fn law_for_loop_numbers(
    ids: (usize, usize, usize, usize),
    initializer: StmtView,
    condition: ExprView,
    increment: ExprView,
    body: StmtView,
    lo: nat,
    a: nat,
    b: nat,
    d: nat,
    e: nat,
)
    requires
        lo <= a <= b <= d <= e,
        fresh_stmt(initializer, lo, a),
        fresh_expr(condition, a, b),
        fresh_expr(increment, b, d),
        fresh_stmt(body, d, e),
        ids.0 == e,
        ids.1 == e + 1,
        ids.2 == e + 2,
        ids.3 == e + 3,
    ensures
        fresh_stmt(for_loop(ids, initializer, condition, increment, body), lo, e + 4),
{
    let step = StmtView::Expression { id: ids.3, expression: increment };
    let inner = StmtView::Block { id: ids.2, statements: seq![body, step] };
    let turn = StmtView::While { id: ids.1, condition, body: Box::new(inner) };
    let whole = for_loop(ids, initializer, condition, increment, body);
    assert forall|x: usize| #[trigger]
        stmt_has(whole, x) <= 1 && (stmt_has(whole, x) > 0 ==> lo <= x < e + 4) by {
        law_stmts_pair(body, step, x);
        law_stmts_pair(initializer, turn, x);
        assert(stmt_has(initializer, x) <= 1);
        assert(expr_has(condition, x) <= 1);
        assert(expr_has(increment, x) <= 1);
        assert(stmt_has(body, x) <= 1);
        assert(stmt_has(step, x) == hit(ids.3, x) + expr_has(increment, x));
        assert(stmt_has(inner, x) == hit(ids.2, x) + stmt_has(body, x) + stmt_has(step, x));
        assert(stmt_has(turn, x) == hit(ids.1, x) + expr_has(condition, x) + stmt_has(inner, x));
        assert(stmt_has(whole, x) == hit(ids.0, x) + stmt_has(initializer, x) + stmt_has(turn, x));
    }
}

/// A for statement gets ids of its own.
pub proof fn law_for_statement_numbers(tokens: Seq<Token>, c: Cursor)
    ensures
        for_statement(tokens, c) matches Ok((s, end)) ==> c.next_id <= end.next_id && fresh_stmt(
            s,
            c.next_id,
            end.next_id,
        ),
    decreases tokens.len() - c.pos, 13nat,
{
    if let Ok((_, c1)) = consume(tokens, c, TokenType::LeftParen, "Expect '(' after 'for'."@) {
        law_for_initializer_numbers(tokens, c1);
        if let Ok((initializer, c2)) = for_initializer(tokens, c1) {
            law_optional_expression_numbers(tokens, c2, TokenType::Semicolon);
            if let Ok((condition, c3)) = optional_expression(tokens, c2, TokenType::Semicolon) {
                if let Ok((_, c4)) = consume(
                    tokens,
                    c3,
                    TokenType::Semicolon,
                    "Expect ';' after 'for' condition."@,
                ) {
                    law_optional_expression_numbers(tokens, c4, TokenType::RightParen);
                    if let Ok((increment, c5)) = optional_expression(
                        tokens,
                        c4,
                        TokenType::RightParen,
                    ) {
                        if let Ok((_, c6)) = consume(
                            tokens,
                            c5,
                            TokenType::RightParen,
                            "Expect ')' after 'for' clauses."@,
                        ) {
                            if ahead(tokens, c, c6) {
                                law_statement_numbers(tokens, c6);
                                if let Ok((body, c7)) = statement(tokens, c6) {
                                    if let Ok((ids, c8)) = gen_ids(c7) {
                                        law_for_loop_numbers(
                                            ids,
                                            initializer,
                                            condition,
                                            increment,
                                            body,
                                            c.next_id,
                                            c2.next_id,
                                            c3.next_id,
                                            c5.next_id,
                                            c7.next_id,
                                        );
                                    }
                                }
                            }
                        }
                    }
                }
            }
        }
    }
}

/// The declarations of a block get ids of their own.
pub proof fn law_block_rest_numbers(tokens: Seq<Token>, c: Cursor, done: Seq<StmtView>, lo: nat)
    requires
        lo <= c.next_id,
        fresh_stmts(done, lo, c.next_id),
    ensures
        block_rest(tokens, c, done) matches Ok((ss, end)) ==> c.next_id <= end.next_id
            && fresh_stmts(ss, lo, end.next_id),
    decreases tokens.len() - c.pos, 17nat,
{
    if crate::grammar::token_at(tokens, c.pos) is Some && crate::grammar::peek_type(tokens, c.pos)
        != TokenType::RightBrace {
        law_declaration_numbers(tokens, c);
        if let Ok((s, c1)) = declaration(tokens, c) {
            if ahead(tokens, c, c1) {
                assert forall|id: usize| #[trigger]
                    stmts_have(done.push(s), id) <= 1 && (stmts_have(done.push(s), id) > 0 ==> lo
                        <= id < c1.next_id) by {
                    law_stmts_push(done, s, id);
                    assert(stmt_has(s, id) <= 1);
                    assert(stmts_have(done, id) <= 1);
                }
                law_block_rest_numbers(tokens, c1, done.push(s), lo);
            }
        }
    }
}

/// A block gets ids of its own.
pub proof fn law_block_numbers(tokens: Seq<Token>, c: Cursor)
    ensures
        block(tokens, c) matches Ok((ss, end)) ==> c.next_id <= end.next_id && fresh_stmts(
            ss,
            c.next_id,
            end.next_id,
        ),
    decreases tokens.len() - c.pos, 18nat,
{
    assert(fresh_stmts(Seq::empty(), c.next_id, c.next_id));
    law_block_rest_numbers(tokens, c, Seq::empty(), c.next_id);
}

/// A statement gets ids of its own.
pub proof fn law_statement_numbers(tokens: Seq<Token>, c: Cursor)
    ensures
        statement(tokens, c) matches Ok((s, end)) ==> c.next_id <= end.next_id && fresh_stmt(
            s,
            c.next_id,
            end.next_id,
        ),
    decreases tokens.len() - c.pos, 15nat,
{
    match crate::grammar::peek_type(tokens, c.pos) {
        TokenType::For => {
            if let Ok((_, c1)) = advance(tokens, c) {
                law_for_statement_numbers(tokens, c1);
            }
        },
        TokenType::If => {
            if let Ok((_, c1)) = advance(tokens, c) {
                law_if_statement_numbers(tokens, c1);
            }
        },
        TokenType::Print => {
            if let Ok((_, c1)) = advance(tokens, c) {
                law_print_statement_numbers(tokens, c1);
            }
        },
        TokenType::Return => {
            if let Ok((_, c1)) = advance(tokens, c) {
                law_return_statement_numbers(tokens, c1);
            }
        },
        TokenType::While => {
            if let Ok((_, c1)) = advance(tokens, c) {
                law_while_statement_numbers(tokens, c1);
            }
        },
        TokenType::LeftBrace => {
            if let Ok((_, c1)) = advance(tokens, c) {
                if let Ok((id, c2)) = gen_id(c1) {
                    law_block_numbers(tokens, c2);
                    if let Ok((statements, c3)) = block(tokens, c2) {
                        let s = StmtView::Block { id, statements };
                        assert forall|x: usize| #[trigger]
                            stmt_has(s, x) <= 1 && (stmt_has(s, x) > 0 ==> c.next_id <= x < c3.next_id) by {
                            assert(stmts_have(statements, x) <= 1);
                        }
                    }
                }
            }
        },
        _ => {
            law_expression_statement_numbers(tokens, c);
        },
    }
}

/// Reading parameters takes no id.
pub proof fn law_parameters_take_no_id(tokens: Seq<Token>, c: Cursor, done: Seq<Token>)
    ensures
        parameters(tokens, c, done) matches Ok((_, end)) ==> end.next_id == c.next_id,
    decreases tokens.len() - c.pos,
{
    if done.len() <= 255 {
        match crate::grammar::peek_type(tokens, c.pos) {
            TokenType::Comma => {
                if let Ok((_, c1)) = advance(tokens, c) {
                    law_parameters_take_no_id(tokens, c1, done);
                }
            },
            TokenType::Identifier => {
                if let Ok((p, c1)) = advance(tokens, c) {
                    law_parameters_take_no_id(tokens, c1, done.push(p));
                }
            },
            _ => {},
        }
    }
}

/// A function gets ids of its own.
pub proof fn law_function_numbers(tokens: Seq<Token>, c: Cursor, kind: Seq<char>)
    ensures
        function(tokens, c, kind) matches Ok((f, end)) ==> c.next_id <= end.next_id
            && fresh_function(f, c.next_id, end.next_id),
    decreases tokens.len() - c.pos, 11nat,
{
    if let Ok((name, c1)) = consume(tokens, c, TokenType::Identifier, "Expect "@ + kind + " name."@) {
        if let Ok((_, c2)) = consume(
            tokens,
            c1,
            TokenType::LeftParen,
            "Expect '(' after "@ + kind + " name."@,
        ) {
            law_parameters_take_no_id(tokens, c2, Seq::empty());
            if let Ok((params, c3)) = parameters(tokens, c2, Seq::empty()) {
                if let Ok((_, c4)) = consume(
                    tokens,
                    c3,
                    TokenType::LeftBrace,
                    "Expect '{' before "@ + kind + " body"@,
                ) {
                    if ahead(tokens, c, c4) {
                        law_block_numbers(tokens, c4);
                        if let Ok((body, c5)) = block(tokens, c4) {
                            if let Ok((id, c6)) = gen_id(c5) {
                                let f = FunctionStmtView { id, name, params, body };
                                assert forall|x: usize| #[trigger]
                                    function_has(f, x) <= 1 && (function_has(f, x) > 0 ==> c.next_id
                                        <= x < c6.next_id) by {
                                    assert(stmts_have(body, x) <= 1);
                                }
                            }
                        }
                    }
                }
            }
        }
    }
}

/// The methods of a class get ids of their own.
pub proof fn law_methods_numbers(tokens: Seq<Token>, c: Cursor, done: Seq<FunctionStmtView>, lo: nat)
    requires
        lo <= c.next_id,
        fresh_functions(done, lo, c.next_id),
    ensures
        methods(tokens, c, done) matches Ok((ms, end)) ==> c.next_id <= end.next_id
            && fresh_functions(ms, lo, end.next_id),
    decreases tokens.len() - c.pos, 12nat,
{
    if crate::grammar::token_at(tokens, c.pos) is Some && crate::grammar::peek_type(tokens, c.pos)
        != TokenType::RightBrace {
        law_function_numbers(tokens, c, "method"@);
        if let Ok((m, c1)) = function(tokens, c, "method"@) {
            if ahead(tokens, c, c1) {
                assert forall|id: usize| #[trigger]
                    functions_have(done.push(m), id) <= 1 && (functions_have(done.push(m), id) > 0
                        ==> lo <= id < c1.next_id) by {
                    law_functions_push(done, m, id);
                    assert(function_has(m, id) <= 1);
                    assert(functions_have(done, id) <= 1);
                }
                law_methods_numbers(tokens, c1, done.push(m), lo);
            }
        }
    }
}

/// A class declaration gets ids of its own.
pub proof fn law_class_declaration_numbers(tokens: Seq<Token>, c: Cursor)
    ensures
        class_declaration(tokens, c) matches Ok((s, end)) ==> c.next_id <= end.next_id
            && fresh_stmt(s, c.next_id, end.next_id),
    decreases tokens.len() - c.pos, 13nat,
{
    if let Ok((name, c1)) = consume(tokens, c, TokenType::Identifier, "Expect class name"@) {
        if let Ok((parent, c2)) = superclass(tokens, c1) {
            if let Ok((_, c3)) = consume(
                tokens,
                c2,
                TokenType::LeftBrace,
                "Expect '{' before class body"@,
            ) {
                if ahead(tokens, c, c3) {
                    assert(fresh_functions(Seq::empty(), c3.next_id, c3.next_id));
                    law_methods_numbers(tokens, c3, Seq::empty(), c3.next_id);
                    if let Ok((ms, c4)) = methods(tokens, c3, Seq::empty()) {
                        if let Ok((_, c5)) = consume(
                            tokens,
                            c4,
                            TokenType::RightBrace,
                            "Expect '}' after class body."@,
                        ) {
                            if let Ok((id, c6)) = gen_id(c5) {
                                let s = StmtView::Class { id, name, superclass: parent, methods: ms };
                                assert forall|x: usize| #[trigger]
                                    stmt_has(s, x) <= 1 && (stmt_has(s, x) > 0 ==> c.next_id <= x
                                        < c6.next_id) by {
                                    assert(functions_have(ms, x) <= 1);
                                }
                            }
                        }
                    }
                }
            }
        }
    }
}

/// A declaration gets ids of its own.
pub proof fn law_declaration_numbers(tokens: Seq<Token>, c: Cursor)
    ensures
        declaration(tokens, c) matches Ok((s, end)) ==> c.next_id <= end.next_id && fresh_stmt(
            s,
            c.next_id,
            end.next_id,
        ),
    decreases tokens.len() - c.pos, 16nat,
{
    let kind = crate::grammar::peek_type(tokens, c.pos);
    if kind == TokenType::Class {
        if let Ok((_, c1)) = advance(tokens, c) {
            law_class_declaration_numbers(tokens, c1);
        }
    } else if kind == TokenType::Fun {
        if let Ok((_, c1)) = advance(tokens, c) {
            law_function_numbers(tokens, c1, "function"@);
            if let Ok((f, c2)) = function(tokens, c1, "function"@) {
                let s = StmtView::Function(f);
                assert forall|x: usize| #[trigger]
                    stmt_has(s, x) <= 1 && (stmt_has(s, x) > 0 ==> c.next_id <= x < c2.next_id) by {
                    assert(function_has(f, x) <= 1);
                }
            }
        }
    } else if kind == TokenType::Var {
        if let Ok((_, c1)) = advance(tokens, c) {
            law_var_declaration_numbers(tokens, c1);
        }
    } else {
        law_statement_numbers(tokens, c);
    }
}

/// The declarations of a program get ids of their own.
pub proof fn law_program_rest_numbers(tokens: Seq<Token>, c: Cursor, done: Seq<StmtView>, lo: nat)
    requires
        lo <= c.next_id,
        fresh_stmts(done, lo, c.next_id),
    ensures
        program_rest(tokens, c, done) matches Ok((ss, end)) ==> c.next_id <= end.next_id
            && fresh_stmts(ss, lo, end.next_id),
    decreases tokens.len() - c.pos, 17nat,
{
    if crate::grammar::token_at(tokens, c.pos) is Some {
        law_declaration_numbers(tokens, c);
        if let Ok((s, c1)) = declaration(tokens, c) {
            if ahead(tokens, c, c1) {
                assert forall|id: usize| #[trigger]
                    stmts_have(done.push(s), id) <= 1 && (stmts_have(done.push(s), id) > 0 ==> lo
                        <= id < c1.next_id) by {
                    law_stmts_push(done, s, id);
                    assert(stmt_has(s, id) <= 1);
                    assert(stmts_have(done, id) <= 1);
                }
                law_program_rest_numbers(tokens, c1, done.push(s), lo);
            }
        }
    }
}

/// Every node of a program has an id of its own: no two nodes share an
/// id, and the ids lie from the first id up to, not with, the id at
/// which the parser ends.
pub proof fn law_every_node_has_its_own_id(tokens: Seq<Token>, first_id: nat)
    ensures
        program(tokens, first_id) matches Ok((ss, end)) ==> first_id <= end.next_id && fresh_stmts(
            ss,
            first_id,
            end.next_id,
        ),
{
    assert(fresh_stmts(Seq::empty(), first_id, first_id));
    law_program_rest_numbers(tokens, Cursor { pos: 0, next_id: first_id }, Seq::empty(), first_id);
}

/// Two programs read one after the other share no id, where the second
/// is read from the id at which the first ended.
pub proof fn law_programs_share_no_id(first: Seq<Token>, second: Seq<Token>, first_id: nat, id: usize)
    requires
        program(first, first_id) is Ok,
        program(second, program(first, first_id)->Ok_0.1.next_id) is Ok,
    ensures
        ({
            let a = program(first, first_id)->Ok_0;
            let b = program(second, a.1.next_id)->Ok_0;
            stmts_have(a.0, id) + stmts_have(b.0, id) <= 1
        }),
{
    law_every_node_has_its_own_id(first, first_id);
    let a = program(first, first_id)->Ok_0;
    law_every_node_has_its_own_id(second, a.1.next_id);
    let b = program(second, a.1.next_id)->Ok_0;
    assert(stmts_have(a.0, id) <= 1);
    assert(stmts_have(b.0, id) <= 1);
}

} // verus!
