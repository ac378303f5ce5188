//! Every step of the parser that succeeds reads a token.
//!
//! The definitions of the grammar ask at some places that a step has
//! moved on, and give an error where it has not. These laws show that
//! what they ask for always holds: a step that succeeds ends behind where
//! it began, and not beyond the end of the input.

use vstd::prelude::*;
use crate::ast::{ExprView, FunctionStmtView, StmtView};
use crate::grammar::{
    advance, ahead, arguments, assignment, binary, binary_node, binary_rest, block, block_rest,
    call, call_rest, class_declaration, consume, declaration, else_branch, expression,
    expression_statement, finish_call, for_initializer, for_statement, function, gen_id,
    if_statement, level_has, methods, operand, optional_expression, parameters, peek_type, primary,
    print_statement, program_rest, return_statement, statement, superclass, token_at, unary,
    var_declaration, while_statement, Cursor,
};
use crate::tokens::{Token, TokenType};

verus! {

/// `to` lies at or behind `from`, and not beyond the end of the input.
pub open spec fn onward(tokens: Seq<Token>, from: Cursor, to: Cursor) -> bool {
    from.pos <= to.pos <= tokens.len()
}

/// A primary expression that is read ends behind where it began.
pub proof fn law_primary_moves_on(tokens: Seq<Token>, c: Cursor)
    ensures
        primary(tokens, c) matches Ok((_, end)) ==> ahead(tokens, c, end),
    decreases tokens.len() - c.pos, 0nat,
{
    if let Ok((token, c1)) = advance(tokens, c) {
        if let Ok((_, c2)) = gen_id(c1) {
            if token.token_type == TokenType::LeftParen {
                law_expression_moves_on(tokens, c2);
            }
        }
    }
}

/// The arguments of a call that are read end at or behind where they
/// began.
pub proof fn law_arguments_go_onward(tokens: Seq<Token>, c: Cursor, done: Seq<ExprView>)
    requires
        c.pos <= tokens.len(),
    ensures
        arguments(tokens, c, done) matches Ok((_, end)) ==> onward(tokens, c, end),
    decreases tokens.len() - c.pos, 11nat,
{
    if done.len() <= 255 {
        let kind = peek_type(tokens, c.pos);
        if kind == TokenType::Comma {
            if let Ok((_, c1)) = advance(tokens, c) {
                law_arguments_go_onward(tokens, c1, done);
            }
        } else if kind != TokenType::RightParen {
            law_expression_moves_on(tokens, c);
            if let Ok((e, c1)) = expression(tokens, c) {
                law_arguments_go_onward(tokens, c1, done.push(e));
            }
        }
    }
}

/// A call that is read ends behind where it began.
pub proof fn law_finish_call_moves_on(tokens: Seq<Token>, c: Cursor, callee: ExprView)
    requires
        c.pos <= tokens.len(),
    ensures
        finish_call(tokens, c, callee) matches Ok((_, end)) ==> ahead(tokens, c, end),
    decreases tokens.len() - c.pos, 12nat,
{
    law_arguments_go_onward(tokens, c, Seq::empty());
}

/// The calls and property accesses behind an expression end, where they
/// are read, at or behind where they began.
pub proof fn law_call_rest_goes_onward(tokens: Seq<Token>, c: Cursor, e: ExprView)
    requires
        c.pos <= tokens.len(),
    ensures
        call_rest(tokens, c, e) matches Ok((_, end)) ==> onward(tokens, c, end),
    decreases tokens.len() - c.pos, 13nat,
{
    let kind = peek_type(tokens, c.pos);
    if kind == TokenType::LeftParen {
        if let Ok((_, c1)) = advance(tokens, c) {
            law_finish_call_moves_on(tokens, c1, e);
            if let Ok((made, c2)) = finish_call(tokens, c1, e) {
                law_call_rest_goes_onward(tokens, c2, made);
            }
        }
    } else if kind == TokenType::Dot {
        if let Ok((_, c1)) = advance(tokens, c) {
            if let Ok((name, c2)) = consume(
                tokens,
                c1,
                TokenType::Identifier,
                "Expect property name after '.'"@,
            ) {
                if let Ok((id, c3)) = gen_id(c2) {
                    law_call_rest_goes_onward(
                        tokens,
                        c3,
                        ExprView::Get { id, object: Box::new(e), name },
                    );
                }
            }
        }
    }
}

/// A call expression that is read ends behind where it began.
pub proof fn law_call_moves_on(tokens: Seq<Token>, c: Cursor)
    ensures
        call(tokens, c) matches Ok((_, end)) ==> ahead(tokens, c, end),
    decreases tokens.len() - c.pos, 1nat,
{
    law_primary_moves_on(tokens, c);
    if let Ok((e, c1)) = primary(tokens, c) {
        law_call_rest_goes_onward(tokens, c1, e);
    }
}

/// A unary expression that is read ends behind where it began.
pub proof fn law_unary_moves_on(tokens: Seq<Token>, c: Cursor)
    ensures
        unary(tokens, c) matches Ok((_, end)) ==> ahead(tokens, c, end),
    decreases tokens.len() - c.pos, 2nat,
{
    let kind = peek_type(tokens, c.pos);
    if kind == TokenType::Bang || kind == TokenType::Minus {
        if let Ok((_, c1)) = advance(tokens, c) {
            law_unary_moves_on(tokens, c1);
        }
    } else {
        law_call_moves_on(tokens, c);
    }
}

/// An operand that is read ends behind where it began.
pub proof fn law_operand_moves_on(tokens: Seq<Token>, c: Cursor, level: nat)
    ensures
        operand(tokens, c, level) matches Ok((_, end)) ==> ahead(tokens, c, end),
    decreases tokens.len() - c.pos, 3nat, 12 - level, 0nat,
{
    if level >= 5 {
        law_unary_moves_on(tokens, c);
    } else {
        law_binary_moves_on(tokens, c, level + 1);
    }
}

/// The operators behind an operand that are read end at or behind where
/// they began.
pub proof fn law_binary_rest_goes_onward(tokens: Seq<Token>, c: Cursor, level: nat, left: ExprView)
    requires
        c.pos <= tokens.len(),
    ensures
        binary_rest(tokens, c, level, left) matches Ok((_, end)) ==> onward(tokens, c, end),
    decreases tokens.len() - c.pos, 4nat,
{
    if level_has(level, peek_type(tokens, c.pos)) {
        if let Ok((operator, c1)) = advance(tokens, c) {
            law_operand_moves_on(tokens, c1, level);
            if let Ok((right, c2)) = operand(tokens, c1, level) {
                if let Ok((id, c3)) = gen_id(c2) {
                    law_binary_rest_goes_onward(
                        tokens,
                        c3,
                        level,
                        binary_node(level, id, left, operator, right),
                    );
                }
            }
        }
    }
}

/// An expression of a level of binary operators that is read ends
/// behind where it began.
pub proof fn law_binary_moves_on(tokens: Seq<Token>, c: Cursor, level: nat)
    ensures
        binary(tokens, c, level) matches Ok((_, end)) ==> ahead(tokens, c, end),
    decreases tokens.len() - c.pos, 3nat, 12 - level, 1nat,
{
    if level > 5 {
        law_unary_moves_on(tokens, c);
    } else {
        law_operand_moves_on(tokens, c, level);
        if let Ok((left, c1)) = operand(tokens, c, level) {
            law_binary_rest_goes_onward(tokens, c1, level, left);
        }
    }
}

/// An assignment that is read ends behind where it began.
pub proof fn law_assignment_moves_on(tokens: Seq<Token>, c: Cursor)
    ensures
        assignment(tokens, c) matches Ok((_, end)) ==> ahead(tokens, c, end),
    decreases tokens.len() - c.pos, 9nat,
{
    law_binary_moves_on(tokens, c, 0);
    if let Ok((_, c1)) = binary(tokens, c, 0) {
        if peek_type(tokens, c1.pos) == TokenType::Equal {
            if let Ok((_, c2)) = advance(tokens, c1) {
                law_assignment_moves_on(tokens, c2);
            }
        }
    }
}

/// An expression that is read ends behind where it began.
pub proof fn law_expression_moves_on(tokens: Seq<Token>, c: Cursor)
    ensures
        expression(tokens, c) matches Ok((_, end)) ==> ahead(tokens, c, end),
    decreases tokens.len() - c.pos, 10nat,
{
    law_assignment_moves_on(tokens, c);
}

/// An expression that may be left out ends, where it is read, at or
/// behind where it began.
pub proof fn law_optional_expression_goes_onward(tokens: Seq<Token>, c: Cursor, unless: TokenType)
    requires
        c.pos <= tokens.len(),
    ensures
        optional_expression(tokens, c, unless) matches Ok((_, end)) ==> onward(tokens, c, end),
    decreases tokens.len() - c.pos, 11nat,
{
    law_expression_moves_on(tokens, c);
}

/// An expression statement that is read ends behind where it began.
pub proof fn law_expression_statement_moves_on(tokens: Seq<Token>, c: Cursor)
    ensures
        expression_statement(tokens, c) matches Ok((_, end)) ==> ahead(tokens, c, end),
    decreases tokens.len() - c.pos, 11nat,
{
    law_expression_moves_on(tokens, c);
}

/// A print statement that is read ends behind where it began.
pub proof fn law_print_statement_moves_on(tokens: Seq<Token>, c: Cursor)
    ensures
        print_statement(tokens, c) matches Ok((_, end)) ==> ahead(tokens, c, end),
    decreases tokens.len() - c.pos, 11nat,
{
    law_expression_moves_on(tokens, c);
}

/// A return statement that is read ends behind where it began.
pub proof fn law_return_statement_moves_on(tokens: Seq<Token>, c: Cursor)
    requires
        c.pos <= tokens.len(),
    ensures
        return_statement(tokens, c) matches Ok((_, end)) ==> ahead(tokens, c, end),
    decreases tokens.len() - c.pos, 12nat,
{
    law_optional_expression_goes_onward(tokens, c, TokenType::Semicolon);
}

/// A variable declaration that is read ends behind where it began.
pub proof fn law_var_declaration_moves_on(tokens: Seq<Token>, c: Cursor)
    ensures
        var_declaration(tokens, c) matches Ok((_, end)) ==> ahead(tokens, c, end),
    decreases tokens.len() - c.pos, 11nat,
{
    if let Ok((_, c1)) = consume(tokens, c, TokenType::Identifier, "Expect variable name."@) {
        if peek_type(tokens, c1.pos) == TokenType::Equal {
            if let Ok((_, c2)) = advance(tokens, c1) {
                law_expression_moves_on(tokens, c2);
            }
        }
    }
}

/// A while statement that is read ends behind where it began.
pub proof fn law_while_statement_moves_on(tokens: Seq<Token>, c: Cursor)
    ensures
        while_statement(tokens, c) matches Ok((_, end)) ==> ahead(tokens, c, end),
    decreases tokens.len() - c.pos, 11nat,
{
    if let Ok((_, c1)) = consume(tokens, c, TokenType::LeftParen, "Expect '(' after 'while'."@) {
        law_expression_moves_on(tokens, c1);
        if let Ok((_, c2)) = expression(tokens, c1) {
            if let Ok((_, c3)) = consume(
                tokens,
                c2,
                TokenType::RightParen,
                "Expect ')' after while condition."@,
            ) {
                law_statement_moves_on(tokens, c3);
            }
        }
    }
}

/// An else branch that is read ends at or behind where it began.
pub proof fn law_else_branch_goes_onward(tokens: Seq<Token>, c: Cursor)
    requires
        c.pos <= tokens.len(),
    ensures
        else_branch(tokens, c) matches Ok((_, end)) ==> onward(tokens, c, end),
    decreases tokens.len() - c.pos, 14nat,
{
    if peek_type(tokens, c.pos) == TokenType::Else {
        if let Ok((_, c1)) = advance(tokens, c) {
            law_statement_moves_on(tokens, c1);
        }
    }
}

/// An if statement that is read ends behind where it began.
pub proof fn law_if_statement_moves_on(tokens: Seq<Token>, c: Cursor)
    ensures
        if_statement(tokens, c) matches Ok((_, end)) ==> ahead(tokens, c, end),
    decreases tokens.len() - c.pos, 11nat,
{
    if let Ok((_, c1)) = consume(tokens, c, TokenType::LeftParen, "Expect '(' after 'if'."@) {
        law_expression_moves_on(tokens, c1);
        if let Ok((_, c2)) = expression(tokens, c1) {
            if let Ok((_, c3)) = consume(
                tokens,
                c2,
                TokenType::RightParen,
                "Expect ')' after if condition."@,
            ) {
                law_statement_moves_on(tokens, c3);
                if let Ok((_, c4)) = statement(tokens, c3) {
                    law_else_branch_goes_onward(tokens, c4);
                }
            }
        }
    }
}

/// The first clause of a for statement that is read ends behind where
/// it began.
pub proof fn law_for_initializer_moves_on(tokens: Seq<Token>, c: Cursor)
    ensures
        for_initializer(tokens, c) matches Ok((_, end)) ==> ahead(tokens, c, end),
    decreases tokens.len() - c.pos, 12nat,
{
    let kind = peek_type(tokens, c.pos);
    if kind == TokenType::Var {
        if let Ok((_, c1)) = advance(tokens, c) {
            law_var_declaration_moves_on(tokens, c1);
        }
    } else if kind != TokenType::Semicolon {
        law_expression_statement_moves_on(tokens, c);
    }
}

/// A for statement that is read ends behind where it began.
pub proof fn law_for_statement_moves_on(tokens: Seq<Token>, c: Cursor)
    ensures
        for_statement(tokens, c) matches Ok((_, end)) ==> ahead(tokens, c, end),
    decreases tokens.len() - c.pos, 13nat,
{
    if let Ok((_, c1)) = consume(tokens, c, TokenType::LeftParen, "Expect '(' after 'for'."@) {
        law_for_initializer_moves_on(tokens, c1);
        if let Ok((_, c2)) = for_initializer(tokens, c1) {
            law_optional_expression_goes_onward(tokens, c2, TokenType::Semicolon);
            if let Ok((_, c3)) = optional_expression(tokens, c2, TokenType::Semicolon) {
                if let Ok((_, c4)) = consume(
                    tokens,
                    c3,
                    TokenType::Semicolon,
                    "Expect ';' after 'for' condition."@,
                ) {
                    law_optional_expression_goes_onward(tokens, c4, TokenType::RightParen);
                    if let Ok((_, c5)) = optional_expression(tokens, c4, TokenType::RightParen) {
                        if let Ok((_, c6)) = consume(
                            tokens,
                            c5,
                            TokenType::RightParen,
                            "Expect ')' after 'for' clauses."@,
                        ) {
                            law_statement_moves_on(tokens, c6);
                        }
                    }
                }
            }
        }
    }
}

/// The rest of a block that is read ends behind where it began.
pub proof fn law_block_rest_moves_on(tokens: Seq<Token>, c: Cursor, done: Seq<StmtView>)
    ensures
        block_rest(tokens, c, done) matches Ok((_, end)) ==> ahead(tokens, c, end),
    decreases tokens.len() - c.pos, 17nat,
{
    if token_at(tokens, c.pos) is Some && peek_type(tokens, c.pos) != TokenType::RightBrace {
        law_declaration_moves_on(tokens, c);
        if let Ok((s, c1)) = declaration(tokens, c) {
            law_block_rest_moves_on(tokens, c1, done.push(s));
        }
    }
}

/// A block that is read ends behind where it began.
pub proof fn law_block_moves_on(tokens: Seq<Token>, c: Cursor)
    ensures
        block(tokens, c) matches Ok((_, end)) ==> ahead(tokens, c, end),
    decreases tokens.len() - c.pos, 18nat,
{
    law_block_rest_moves_on(tokens, c, Seq::empty());
}

/// A statement that is read ends behind where it began.
pub proof fn law_statement_moves_on(tokens: Seq<Token>, c: Cursor)
    ensures
        statement(tokens, c) matches Ok((_, end)) ==> ahead(tokens, c, end),
    decreases tokens.len() - c.pos, 15nat,
{
    let kind = peek_type(tokens, c.pos);
    if kind == TokenType::For {
        if let Ok((_, c1)) = advance(tokens, c) {
            law_for_statement_moves_on(tokens, c1);
        }
    } else if kind == TokenType::If {
        if let Ok((_, c1)) = advance(tokens, c) {
            law_if_statement_moves_on(tokens, c1);
        }
    } else if kind == TokenType::Print {
        if let Ok((_, c1)) = advance(tokens, c) {
            law_print_statement_moves_on(tokens, c1);
        }
    } else if kind == TokenType::Return {
        if let Ok((_, c1)) = advance(tokens, c) {
            law_return_statement_moves_on(tokens, c1);
        }
    } else if kind == TokenType::While {
        if let Ok((_, c1)) = advance(tokens, c) {
            law_while_statement_moves_on(tokens, c1);
        }
    } else if kind == TokenType::LeftBrace {
        if let Ok((_, c1)) = advance(tokens, c) {
            if let Ok((_, c2)) = gen_id(c1) {
                law_block_moves_on(tokens, c2);
            }
        }
    } else {
        law_expression_statement_moves_on(tokens, c);
    }
}

/// A list of parameters that is read ends behind where it began.
pub proof fn law_parameters_move_on(tokens: Seq<Token>, c: Cursor, done: Seq<Token>)
    ensures
        parameters(tokens, c, done) matches Ok((_, end)) ==> ahead(tokens, c, end),
    decreases tokens.len() - c.pos,
{
    if done.len() <= 255 {
        let kind = peek_type(tokens, c.pos);
        if kind == TokenType::Comma {
            if let Ok((_, c1)) = advance(tokens, c) {
                law_parameters_move_on(tokens, c1, done);
            }
        } else if kind == TokenType::Identifier {
            if let Ok((p, c1)) = advance(tokens, c) {
                law_parameters_move_on(tokens, c1, done.push(p));
            }
        }
    }
}

/// A function that is read ends behind where it began.
pub proof fn law_function_moves_on(tokens: Seq<Token>, c: Cursor, kind: Seq<char>)
    ensures
        function(tokens, c, kind) matches Ok((_, end)) ==> ahead(tokens, c, end),
    decreases tokens.len() - c.pos, 11nat,
{
    if let Ok((_, c1)) = consume(tokens, c, TokenType::Identifier, "Expect "@ + kind + " name."@) {
        if let Ok((_, c2)) = consume(
            tokens,
            c1,
            TokenType::LeftParen,
            "Expect '(' after "@ + kind + " name."@,
        ) {
            law_parameters_move_on(tokens, c2, Seq::empty());
            if let Ok((_, c3)) = parameters(tokens, c2, Seq::empty()) {
                if let Ok((_, c4)) = consume(
                    tokens,
                    c3,
                    TokenType::LeftBrace,
                    "Expect '{' before "@ + kind + " body"@,
                ) {
                    law_block_moves_on(tokens, c4);
                }
            }
        }
    }
}

/// The methods of a class that are read end at or behind where they
/// began.
pub proof fn law_methods_go_onward(tokens: Seq<Token>, c: Cursor, done: Seq<FunctionStmtView>)
    requires
        c.pos <= tokens.len(),
    ensures
        methods(tokens, c, done) matches Ok((_, end)) ==> onward(tokens, c, end),
    decreases tokens.len() - c.pos, 12nat,
{
    if token_at(tokens, c.pos) is Some && peek_type(tokens, c.pos) != TokenType::RightBrace {
        law_function_moves_on(tokens, c, "method"@);
        if let Ok((m, c1)) = function(tokens, c, "method"@) {
            law_methods_go_onward(tokens, c1, done.push(m));
        }
    }
}

/// A class declaration that is read ends behind where it began.
pub proof fn law_class_declaration_moves_on(tokens: Seq<Token>, c: Cursor)
    ensures
        class_declaration(tokens, c) matches Ok((_, end)) ==> ahead(tokens, c, end),
    decreases tokens.len() - c.pos, 13nat,
{
    if let Ok((_, c1)) = consume(tokens, c, TokenType::Identifier, "Expect class name"@) {
        if let Ok((_, c2)) = superclass(tokens, c1) {
            if let Ok((_, c3)) = consume(
                tokens,
                c2,
                TokenType::LeftBrace,
                "Expect '{' before class body"@,
            ) {
                law_methods_go_onward(tokens, c3, Seq::empty());
            }
        }
    }
}

/// A declaration that is read ends behind where it began.
pub proof fn law_declaration_moves_on(tokens: Seq<Token>, c: Cursor)
    ensures
        declaration(tokens, c) matches Ok((_, end)) ==> ahead(tokens, c, end),
    decreases tokens.len() - c.pos, 16nat,
{
    let kind = peek_type(tokens, c.pos);
    if kind == TokenType::Class {
        if let Ok((_, c1)) = advance(tokens, c) {
            law_class_declaration_moves_on(tokens, c1);
        }
    } else if kind == TokenType::Fun {
        if let Ok((_, c1)) = advance(tokens, c) {
            law_function_moves_on(tokens, c1, "function"@);
        }
    } else if kind == TokenType::Var {
        if let Ok((_, c1)) = advance(tokens, c) {
            law_var_declaration_moves_on(tokens, c1);
        }
    } else {
        law_statement_moves_on(tokens, c);
    }
}

/// A program that is read ends at the end of the input: the parser
/// stops only before the end marker or behind the last token.
pub proof fn law_program_reads_everything(tokens: Seq<Token>, c: Cursor, done: Seq<StmtView>)
    requires
        c.pos <= tokens.len(),
    ensures
        program_rest(tokens, c, done) matches Ok((_, end)) ==> onward(tokens, c, end) && token_at(
            tokens,
            end.pos,
        ) is None,
    decreases tokens.len() - c.pos, 17nat,
{
    if token_at(tokens, c.pos) is Some {
        law_declaration_moves_on(tokens, c);
        if let Ok((s, c1)) = declaration(tokens, c) {
            law_program_reads_everything(tokens, c1, done.push(s));
        }
    }
}

} // verus!
