//! The grammar of the language.
//!
//! The functions here say which syntax tree a sequence of tokens stands
//! for. Each reads from a position in the sequence and gives the tree it
//! found with the position behind it, or the text of an error. Every node
//! gets the next id of a counter that runs through the whole program.
//!
//! Precedence, from loosest to tightest: assignment, `or`, `and`,
//! equality, comparison, term, factor, unary, call, primary.

use vstd::prelude::*;
use crate::ast::{ExprView, FunctionStmtView, StmtView, VariableExpr};
use crate::text::count_text;
use crate::tokens::{Literal, Token, TokenType};

verus! {

/// Where the parser stands: the position of the next token and the next
/// free id.
pub struct Cursor {
    pub pos: nat,
    pub next_id: nat,
}

/// Where and why the parser stopped: where it stood, and the text of the
/// error.
pub struct Stop {
    pub text: Seq<char>,
    pub at: Cursor,
}

/// What a step of the parser gives: a value and where the parser then
/// stands, or the error that stopped it and where it stood then.
pub type Parsed<T> = Result<(T, Cursor), Stop>;

/// The parser stops at `at` with the error `text`.
pub open spec fn stop<T>(at: Cursor, text: Seq<char>) -> Parsed<T> {
    Err(Stop { text, at })
}

/// The token at `pos`, unless the input has ended there: the end marker
/// is never read as content.
pub open spec fn token_at(tokens: Seq<Token>, pos: nat) -> Option<Token> {
    if pos < tokens.len() && tokens[pos as int].token_type != TokenType::Eof {
        Some(tokens[pos as int])
    } else {
        None
    }
}

/// The kind of the token at `pos`; `Nothing` at the end of the input.
pub open spec fn peek_type(tokens: Seq<Token>, pos: nat) -> TokenType {
    match token_at(tokens, pos) {
        Some(t) => t.token_type,
        None => TokenType::Nothing,
    }
}

/// The error for a step that read no token. Every step that succeeds
/// reads one, so no step ends with it for that reason; the definitions
/// below ask for progress so that they are well founded.
pub open spec fn stuck() -> Seq<char> {
    "The parser made no progress."@
}

/// Whether `to` lies behind `from`, and not beyond the end of the input.
pub open spec fn ahead(tokens: Seq<Token>, from: Cursor, to: Cursor) -> bool {
    from.pos < to.pos <= tokens.len()
}

/// Reading the next token.
pub open spec fn advance(tokens: Seq<Token>, c: Cursor) -> Parsed<Token> {
    if c.pos >= tokens.len() {
        stop(c, "Tried to pop_front on empty dequeue"@)
    } else if tokens[c.pos as int].token_type == TokenType::Eof {
        stop(c, "Tried to pop_front with only EOF left"@)
    } else {
        Ok((tokens[c.pos as int], Cursor { pos: c.pos + 1, ..c }))
    }
}

/// How an error names the token that was found.
pub open spec fn found_text(tokens: Seq<Token>, pos: nat) -> Seq<char> {
    match token_at(tokens, pos) {
        Some(t) => "'"@ + t.lexeme@ + "' on line "@ + count_text(t.line_number as nat),
        None => "<nothing>"@,
    }
}

/// The text of the error for a token that is not the expected one.
pub open spec fn consume_text(tokens: Seq<Token>, pos: nat, message: Seq<char>) -> Seq<char> {
    "Could not consume: "@ + found_text(tokens, pos) + ". \""@ + message + "\""@
}

/// Reading the next token, which must be of the kind `kind`.
pub open spec fn consume(tokens: Seq<Token>, c: Cursor, kind: TokenType, message: Seq<char>) -> Parsed<
    Token,
> {
    if kind != TokenType::Nothing && peek_type(tokens, c.pos) == kind {
        advance(tokens, c)
    } else {
        stop(c, consume_text(tokens, c.pos, message))
    }
}

/// Taking the next id.
pub open spec fn gen_id(c: Cursor) -> Parsed<usize> {
    if c.next_id >= usize::MAX {
        stop(c, "Too many syntax nodes."@)
    } else {
        Ok((c.next_id as usize, Cursor { next_id: c.next_id + 1, ..c }))
    }
}

/// The literal `nil` as an expression.
pub open spec fn nil(id: usize) -> ExprView {
    ExprView::Literal { id, value: Literal::Nil }
}

/// The statement that does nothing: an empty block.
pub open spec fn noop(id: usize) -> StmtView {
    StmtView::Block { id, statements: Seq::empty() }
}

/// The operators of a level of binary operators. Level 0 is `or`, 1 is
/// `and`, 2 equality, 3 comparison, 4 term, 5 factor.
pub open spec fn level_has(level: nat, kind: TokenType) -> bool {
    if level == 0 {
        kind == TokenType::Or
    } else if level == 1 {
        kind == TokenType::And
    } else if level == 2 {
        kind == TokenType::BangEqual || kind == TokenType::EqualEqual
    } else if level == 3 {
        kind == TokenType::Greater || kind == TokenType::GreaterEqual || kind == TokenType::Less
            || kind == TokenType::LessEqual
    } else if level == 4 {
        kind == TokenType::Plus || kind == TokenType::Minus
    } else if level == 5 {
        kind == TokenType::Slash || kind == TokenType::Star
    } else {
        false
    }
}

/// The node for a binary operator of a level: `or` and `and` are logical
/// operators, which need not evaluate their right operand.
pub open spec fn binary_node(level: nat, id: usize, left: ExprView, operator: Token, right: ExprView) -> ExprView {
    if level <= 1 {
        ExprView::Logical { id, left: Box::new(left), operator, right: Box::new(right) }
    } else {
        ExprView::Binary { id, left: Box::new(left), operator, right: Box::new(right) }
    }
}

/// A primary expression: a literal, `this`, `super.name`, a variable, or
/// an expression in parentheses.
pub open spec fn primary(tokens: Seq<Token>, c: Cursor) -> Parsed<ExprView>
    decreases tokens.len() - c.pos, 0nat,
{
    match advance(tokens, c) {
        Err(t) => Err(t),
        Ok((token, c1)) => match gen_id(c1) {
            Err(t) => Err(t),
            Ok((id, c2)) => match token.token_type {
                TokenType::False => Ok((ExprView::Literal { id, value: Literal::Boolean(false) }, c2)),
                TokenType::True => Ok((ExprView::Literal { id, value: Literal::Boolean(true) }, c2)),
                TokenType::Nil => Ok((ExprView::Literal { id, value: Literal::Nil }, c2)),
                TokenType::Number => Ok((ExprView::Literal { id, value: token.literal }, c2)),
                TokenType::String => Ok((ExprView::Literal { id, value: token.literal }, c2)),
                TokenType::Identifier => Ok((ExprView::Variable(VariableExpr { id, name: token }), c2)),
                TokenType::This => Ok((ExprView::This { id, keyword: token }, c2)),
                TokenType::Super => match consume(tokens, c2, TokenType::Dot, "Expect '.' after 'super'."@) {
                    Err(t) => Err(t),
                    Ok((_, c3)) => match consume(
                        tokens,
                        c3,
                        TokenType::Identifier,
                        "Expect superclass method name."@,
                    ) {
                        Err(t) => Err(t),
                        Ok((method, c4)) => Ok((ExprView::Super { id, keyword: token, method }, c4)),
                    },
                },
                TokenType::LeftParen => match expression(tokens, c2) {
                    Err(t) => Err(t),
                    Ok((inner, c3)) => match consume(
                        tokens,
                        c3,
                        TokenType::RightParen,
                        "Expect ')' after expression"@,
                    ) {
                        Err(t) => Err(t),
                        Ok((_, c4)) => Ok((ExprView::Grouping { id, expression: Box::new(inner) }, c4)),
                    },
                },
                _ => stop(c2, "Unrecognized primary token: "@ + found_text(tokens, c.pos)),
            },
        },
    }
}

/// The arguments of a call, after `done`, up to the closing parenthesis.
pub open spec fn arguments(tokens: Seq<Token>, c: Cursor, done: Seq<ExprView>) -> Parsed<Seq<ExprView>>
    decreases tokens.len() - c.pos, 11nat,
{
    if done.len() > 255 {
        stop(c, "Can't have more than 255 arguments"@)
    } else {
        match peek_type(tokens, c.pos) {
            TokenType::Comma => match advance(tokens, c) {
                Err(t) => Err(t),
                Ok((_, c1)) => arguments(tokens, c1, done),
            },
            TokenType::RightParen => Ok((done, c)),
            _ => match expression(tokens, c) {
                Err(t) => Err(t),
                Ok((e, c1)) => if ahead(tokens, c, c1) {
                    arguments(tokens, c1, done.push(e))
                } else {
                    stop(c, stuck())
                },
            },
        }
    }
}

/// A call, from behind its opening parenthesis.
pub open spec fn finish_call(tokens: Seq<Token>, c: Cursor, callee: ExprView) -> Parsed<ExprView>
    decreases tokens.len() - c.pos, 12nat,
{
    match arguments(tokens, c, Seq::empty()) {
        Err(t) => Err(t),
        Ok((args, c1)) => match consume(tokens, c1, TokenType::RightParen, "Expect ')' after arguments."@) {
            Err(t) => Err(t),
            Ok((_, c2)) => match gen_id(c2) {
                Err(t) => Err(t),
                Ok((id, c3)) => Ok((ExprView::Call { id, callee: Box::new(callee), arguments: args }, c3)),
            },
        },
    }
}

/// The calls and property accesses that follow an expression.
pub open spec fn call_rest(tokens: Seq<Token>, c: Cursor, e: ExprView) -> Parsed<ExprView>
    decreases tokens.len() - c.pos, 13nat,
{
    match peek_type(tokens, c.pos) {
        TokenType::LeftParen => match advance(tokens, c) {
            Err(t) => Err(t),
            Ok((_, c1)) => match finish_call(tokens, c1, e) {
                Err(t) => Err(t),
                Ok((call, c2)) => if ahead(tokens, c, c2) {
                    call_rest(tokens, c2, call)
                } else {
                    stop(c, stuck())
                },
            },
        },
        TokenType::Dot => match advance(tokens, c) {
            Err(t) => Err(t),
            Ok((_, c1)) => match consume(
                tokens,
                c1,
                TokenType::Identifier,
                "Expect property name after '.'"@,
            ) {
                Err(t) => Err(t),
                Ok((name, c2)) => match gen_id(c2) {
                    Err(t) => Err(t),
                    Ok((id, c3)) => call_rest(tokens, c3, ExprView::Get { id, object: Box::new(e), name }),
                },
            },
        },
        _ => Ok((e, c)),
    }
}

/// A primary expression with the calls and property accesses that follow
/// it.
pub open spec fn call(tokens: Seq<Token>, c: Cursor) -> Parsed<ExprView>
    decreases tokens.len() - c.pos, 1nat,
{
    match primary(tokens, c) {
        Err(t) => Err(t),
        Ok((e, c1)) => if ahead(tokens, c, c1) {
            call_rest(tokens, c1, e)
        } else {
            stop(c, stuck())
        },
    }
}

/// A unary expression: `!` or `-` before a unary expression, or a call.
pub open spec fn unary(tokens: Seq<Token>, c: Cursor) -> Parsed<ExprView>
    decreases tokens.len() - c.pos, 2nat,
{
    if peek_type(tokens, c.pos) == TokenType::Bang || peek_type(tokens, c.pos) == TokenType::Minus {
        match advance(tokens, c) {
            Err(t) => Err(t),
            Ok((operator, c1)) => match unary(tokens, c1) {
                Err(t) => Err(t),
                Ok((right, c2)) => match gen_id(c2) {
                    Err(t) => Err(t),
                    Ok((id, c3)) => Ok((ExprView::Unary { id, operator, right: Box::new(right) }, c3)),
                },
            },
        }
    } else {
        call(tokens, c)
    }
}

/// The operands of a level of binary operators: those of the next
/// tighter level, and unary expressions below the tightest.
pub open spec fn operand(tokens: Seq<Token>, c: Cursor, level: nat) -> Parsed<ExprView>
    decreases tokens.len() - c.pos, 3nat, 12 - level, 0nat,
{
    if level >= 5 {
        unary(tokens, c)
    } else {
        binary(tokens, c, level + 1)
    }
}

/// The operators of a level and their right operands that follow `left`:
/// operators of one level group to the left.
pub open spec fn binary_rest(tokens: Seq<Token>, c: Cursor, level: nat, left: ExprView) -> Parsed<ExprView>
    decreases tokens.len() - c.pos, 4nat,
{
    if level_has(level, peek_type(tokens, c.pos)) {
        match advance(tokens, c) {
            Err(t) => Err(t),
            Ok((operator, c1)) => match operand(tokens, c1, level) {
                Err(t) => Err(t),
                Ok((right, c2)) => match gen_id(c2) {
                    Err(t) => Err(t),
                    Ok((id, c3)) => if ahead(tokens, c, c3) {
                        binary_rest(tokens, c3, level, binary_node(level, id, left, operator, right))
                    } else {
                        stop(c, stuck())
                    },
                },
            },
        }
    } else {
        Ok((left, c))
    }
}

/// An expression of a level of binary operators.
pub open spec fn binary(tokens: Seq<Token>, c: Cursor, level: nat) -> Parsed<ExprView>
    decreases tokens.len() - c.pos, 3nat, 12 - level, 1nat,
{
    if level > 5 {
        unary(tokens, c)
    } else {
        match operand(tokens, c, level) {
            Err(t) => Err(t),
            Ok((left, c1)) => if ahead(tokens, c, c1) {
                binary_rest(tokens, c1, level, left)
            } else {
                stop(c, stuck())
            },
        }
    }
}

/// An assignment, or an expression of the next tighter level. What
/// stands left of `=` is read as an expression first; only a variable or
/// a property can be assigned to.
pub open spec fn assignment(tokens: Seq<Token>, c: Cursor) -> Parsed<ExprView>
    decreases tokens.len() - c.pos, 9nat,
{
    match binary(tokens, c, 0) {
        Err(t) => Err(t),
        Ok((target, c1)) => if !ahead(tokens, c, c1) {
            stop(c, stuck())
        } else if peek_type(tokens, c1.pos) == TokenType::Equal {
            match advance(tokens, c1) {
                Err(t) => Err(t),
                Ok((_, c2)) => match assignment(tokens, c2) {
                    Err(t) => Err(t),
                    Ok((value, c3)) => match target {
                        ExprView::Get { object, name, .. } => match gen_id(c3) {
                            Err(t) => Err(t),
                            Ok((id, c4)) => Ok(
                                (ExprView::SetField { id, object, name, value: Box::new(value) }, c4),
                            ),
                        },
                        ExprView::Variable(v) => match gen_id(c3) {
                            Err(t) => Err(t),
                            Ok((id, c4)) => Ok(
                                (ExprView::Assign { id, name: v.name, value: Box::new(value) }, c4),
                            ),
                        },
                        _ => stop(c3, "Invalid assignment target."@),
                    },
                },
            }
        } else {
            Ok((target, c1))
        },
    }
}

/// An expression.
pub open spec fn expression(tokens: Seq<Token>, c: Cursor) -> Parsed<ExprView>
    decreases tokens.len() - c.pos, 10nat,
{
    assignment(tokens, c)
}

/// An expression, or `nil` where the token `unless` stands instead.
pub open spec fn optional_expression(tokens: Seq<Token>, c: Cursor, unless: TokenType) -> Parsed<ExprView>
    decreases tokens.len() - c.pos, 11nat,
{
    if unless != TokenType::Nothing && peek_type(tokens, c.pos) == unless {
        match gen_id(c) {
            Err(t) => Err(t),
            Ok((id, c1)) => Ok((nil(id), c1)),
        }
    } else {
        expression(tokens, c)
    }
}

/// An expression statement.
pub open spec fn expression_statement(tokens: Seq<Token>, c: Cursor) -> Parsed<StmtView>
    decreases tokens.len() - c.pos, 11nat,
{
    match expression(tokens, c) {
        Err(t) => Err(t),
        Ok((e, c1)) => match consume(tokens, c1, TokenType::Semicolon, "Expect ';' after expression."@) {
            Err(t) => Err(t),
            Ok((_, c2)) => match gen_id(c2) {
                Err(t) => Err(t),
                Ok((id, c3)) => Ok((StmtView::Expression { id, expression: e }, c3)),
            },
        },
    }
}

/// A print statement, from behind `print`.
pub open spec fn print_statement(tokens: Seq<Token>, c: Cursor) -> Parsed<StmtView>
    decreases tokens.len() - c.pos, 11nat,
{
    match expression(tokens, c) {
        Err(t) => Err(t),
        Ok((e, c1)) => match consume(tokens, c1, TokenType::Semicolon, "Expect ';' after value."@) {
            Err(t) => Err(t),
            Ok((_, c2)) => match gen_id(c2) {
                Err(t) => Err(t),
                Ok((id, c3)) => Ok((StmtView::Print { id, expression: e }, c3)),
            },
        },
    }
}

/// A return statement, from behind `return`: without a value it returns
/// `nil`.
pub open spec fn return_statement(tokens: Seq<Token>, c: Cursor) -> Parsed<StmtView>
    decreases tokens.len() - c.pos, 12nat,
{
    match optional_expression(tokens, c, TokenType::Semicolon) {
        Err(t) => Err(t),
        Ok((value, c1)) => match consume(
            tokens,
            c1,
            TokenType::Semicolon,
            "Expect ';' return statement value."@,
        ) {
            Err(t) => Err(t),
            Ok((_, c2)) => match gen_id(c2) {
                Err(t) => Err(t),
                Ok((id, c3)) => Ok((StmtView::Return { id, value }, c3)),
            },
        },
    }
}

/// A variable declaration, from behind `var`: without an initializer the
/// variable starts as `nil`.
pub open spec fn var_declaration(tokens: Seq<Token>, c: Cursor) -> Parsed<StmtView>
    decreases tokens.len() - c.pos, 11nat,
{
    match consume(tokens, c, TokenType::Identifier, "Expect variable name."@) {
        Err(t) => Err(t),
        Ok((name, c1)) => {
            let initializer = if peek_type(tokens, c1.pos) == TokenType::Equal {
                match advance(tokens, c1) {
                    Err(t) => Err(t),
                    Ok((_, c2)) => expression(tokens, c2),
                }
            } else {
                match gen_id(c1) {
                    Err(t) => Err(t),
                    Ok((id, c2)) => Ok((nil(id), c2)),
                }
            };
            match initializer {
                Err(t) => Err(t),
                Ok((init, c3)) => match consume(
                    tokens,
                    c3,
                    TokenType::Semicolon,
                    "Expect ';' after variable declaration"@,
                ) {
                    Err(t) => Err(t),
                    Ok((_, c4)) => match gen_id(c4) {
                        Err(t) => Err(t),
                        Ok((id, c5)) => Ok((StmtView::Var { id, name, initializer: init }, c5)),
                    },
                },
            }
        },
    }
}

/// A while statement, from behind `while`.
pub open spec fn while_statement(tokens: Seq<Token>, c: Cursor) -> Parsed<StmtView>
    decreases tokens.len() - c.pos, 11nat,
{
    match consume(tokens, c, TokenType::LeftParen, "Expect '(' after 'while'."@) {
        Err(t) => Err(t),
        Ok((_, c1)) => match expression(tokens, c1) {
            Err(t) => Err(t),
            Ok((condition, c2)) => match consume(
                tokens,
                c2,
                TokenType::RightParen,
                "Expect ')' after while condition."@,
            ) {
                Err(t) => Err(t),
                Ok((_, c3)) => if ahead(tokens, c, c3) {
                    match statement(tokens, c3) {
                        Err(t) => Err(t),
                        Ok((body, c4)) => match gen_id(c4) {
                            Err(t) => Err(t),
                            Ok((id, c5)) => Ok((StmtView::While { id, condition, body: Box::new(body) }, c5)),
                        },
                    }
                } else {
                    stop(c, stuck())
                },
            },
        },
    }
}

/// The else branch of an if statement; without one, a statement that
/// does nothing.
pub open spec fn else_branch(tokens: Seq<Token>, c: Cursor) -> Parsed<StmtView>
    decreases tokens.len() - c.pos, 14nat,
{
    if peek_type(tokens, c.pos) == TokenType::Else {
        match advance(tokens, c) {
            Err(t) => Err(t),
            Ok((_, c1)) => statement(tokens, c1),
        }
    } else {
        match gen_id(c) {
            Err(t) => Err(t),
            Ok((id, c1)) => Ok((noop(id), c1)),
        }
    }
}

/// An if statement, from behind `if`.
pub open spec fn if_statement(tokens: Seq<Token>, c: Cursor) -> Parsed<StmtView>
    decreases tokens.len() - c.pos, 11nat,
{
    match consume(tokens, c, TokenType::LeftParen, "Expect '(' after 'if'."@) {
        Err(t) => Err(t),
        Ok((_, c1)) => match expression(tokens, c1) {
            Err(t) => Err(t),
            Ok((condition, c2)) => match consume(
                tokens,
                c2,
                TokenType::RightParen,
                "Expect ')' after if condition."@,
            ) {
                Err(t) => Err(t),
                Ok((_, c3)) => if ahead(tokens, c, c3) {
                    match statement(tokens, c3) {
                        Err(t) => Err(t),
                        Ok((then_branch, c4)) => if ahead(tokens, c3, c4) {
                            match else_branch(tokens, c4) {
                                Err(t) => Err(t),
                                Ok((otherwise, c5)) => match gen_id(c5) {
                                    Err(t) => Err(t),
                                    Ok((id, c6)) => Ok(
                                        (
                                            StmtView::If {
                                                id,
                                                condition,
                                                then_branch: Box::new(then_branch),
                                                else_branch: Box::new(otherwise),
                                            },
                                            c6,
                                        ),
                                    ),
                                },
                            }
                        } else {
                            stop(c, stuck())
                        },
                    }
                } else {
                    stop(c, stuck())
                },
            },
        },
    }
}

/// The first clause of a for statement: nothing, a variable declaration,
/// or an expression statement.
pub open spec fn for_initializer(tokens: Seq<Token>, c: Cursor) -> Parsed<StmtView>
    decreases tokens.len() - c.pos, 12nat,
{
    match peek_type(tokens, c.pos) {
        TokenType::Semicolon => match advance(tokens, c) {
            Err(t) => Err(t),
            Ok((_, c1)) => match gen_id(c1) {
                Err(t) => Err(t),
                Ok((id, c2)) => Ok((noop(id), c2)),
            },
        },
        TokenType::Var => match advance(tokens, c) {
            Err(t) => Err(t),
            Ok((_, c1)) => var_declaration(tokens, c1),
        },
        _ => expression_statement(tokens, c),
    }
}

/// The loop that a for statement stands for: a block that holds the
/// initializer and a while loop, whose body is a block of the body and the
/// increment.
pub open spec fn for_loop(
    ids: (usize, usize, usize, usize),
    initializer: StmtView,
    condition: ExprView,
    increment: ExprView,
    body: StmtView,
) -> StmtView {
    StmtView::Block {
        id: ids.0,
        statements: seq![
            initializer,
            StmtView::While {
                id: ids.1,
                condition,
                body: Box::new(
                    StmtView::Block {
                        id: ids.2,
                        statements: seq![body, StmtView::Expression { id: ids.3, expression: increment }],
                    },
                ),
            },
        ],
    }
}

/// Taking four ids in a row.
pub open spec fn gen_ids(c: Cursor) -> Parsed<(usize, usize, usize, usize)> {
    match gen_id(c) {
        Err(t) => Err(t),
        Ok((a, c1)) => match gen_id(c1) {
            Err(t) => Err(t),
            Ok((b, c2)) => match gen_id(c2) {
                Err(t) => Err(t),
                Ok((d, c3)) => match gen_id(c3) {
                    Err(t) => Err(t),
                    Ok((e, c4)) => Ok(((a, b, d, e), c4)),
                },
            },
        },
    }
}

/// A for statement, from behind `for`. There is no for loop in the
/// syntax tree: the statement is read as the while loop that does the
/// same.
pub open spec fn for_statement(tokens: Seq<Token>, c: Cursor) -> Parsed<StmtView>
    decreases tokens.len() - c.pos, 13nat,
{
    match consume(tokens, c, TokenType::LeftParen, "Expect '(' after 'for'."@) {
        Err(t) => Err(t),
        Ok((_, c1)) => match for_initializer(tokens, c1) {
            Err(t) => Err(t),
            Ok((initializer, c2)) => match optional_expression(tokens, c2, TokenType::Semicolon) {
                Err(t) => Err(t),
                Ok((condition, c3)) => match consume(
                    tokens,
                    c3,
                    TokenType::Semicolon,
                    "Expect ';' after 'for' condition."@,
                ) {
                    Err(t) => Err(t),
                    Ok((_, c4)) => match optional_expression(tokens, c4, TokenType::RightParen) {
                        Err(t) => Err(t),
                        Ok((increment, c5)) => match consume(
                            tokens,
                            c5,
                            TokenType::RightParen,
                            "Expect ')' after 'for' clauses."@,
                        ) {
                            Err(t) => Err(t),
                            Ok((_, c6)) => if ahead(tokens, c, c6) {
                                match statement(tokens, c6) {
                                    Err(t) => Err(t),
                                    Ok((body, c7)) => match gen_ids(c7) {
                                        Err(t) => Err(t),
                                        Ok((ids, c8)) => Ok(
                                            (for_loop(ids, initializer, condition, increment, body), c8),
                                        ),
                                    },
                                }
                            } else {
                                stop(c, stuck())
                            },
                        },
                    },
                },
            },
        },
    }
}

/// The declarations of a block, after `done`, up to its closing brace.
pub open spec fn block_rest(tokens: Seq<Token>, c: Cursor, done: Seq<StmtView>) -> Parsed<Seq<StmtView>>
    decreases tokens.len() - c.pos, 17nat,
{
    if token_at(tokens, c.pos) is Some && peek_type(tokens, c.pos) != TokenType::RightBrace {
        match declaration(tokens, c) {
            Err(t) => Err(t),
            Ok((s, c1)) => if ahead(tokens, c, c1) {
                block_rest(tokens, c1, done.push(s))
            } else {
                stop(c, stuck())
            },
        }
    } else {
        match consume(tokens, c, TokenType::RightBrace, "Expect '}' after block."@) {
            Err(t) => Err(t),
            Ok((_, c1)) => Ok((done, c1)),
        }
    }
}

/// A block, from behind its opening brace.
pub open spec fn block(tokens: Seq<Token>, c: Cursor) -> Parsed<Seq<StmtView>>
    decreases tokens.len() - c.pos, 18nat,
{
    block_rest(tokens, c, Seq::empty())
}

/// A statement.
pub open spec fn statement(tokens: Seq<Token>, c: Cursor) -> Parsed<StmtView>
    decreases tokens.len() - c.pos, 15nat,
{
    match peek_type(tokens, c.pos) {
        TokenType::For => match advance(tokens, c) {
            Err(t) => Err(t),
            Ok((_, c1)) => for_statement(tokens, c1),
        },
        TokenType::If => match advance(tokens, c) {
            Err(t) => Err(t),
            Ok((_, c1)) => if_statement(tokens, c1),
        },
        TokenType::Print => match advance(tokens, c) {
            Err(t) => Err(t),
            Ok((_, c1)) => print_statement(tokens, c1),
        },
        TokenType::Return => match advance(tokens, c) {
            Err(t) => Err(t),
            Ok((_, c1)) => return_statement(tokens, c1),
        },
        TokenType::While => match advance(tokens, c) {
            Err(t) => Err(t),
            Ok((_, c1)) => while_statement(tokens, c1),
        },
        TokenType::LeftBrace => match advance(tokens, c) {
            Err(t) => Err(t),
            Ok((_, c1)) => match gen_id(c1) {
                Err(t) => Err(t),
                Ok((id, c2)) => match block(tokens, c2) {
                    Err(t) => Err(t),
                    Ok((statements, c3)) => Ok((StmtView::Block { id, statements }, c3)),
                },
            },
        },
        _ => expression_statement(tokens, c),
    }
}

/// The parameters of a function, after `done`, up to and with the closing
/// parenthesis. Commas between them are passed over.
pub open spec fn parameters(tokens: Seq<Token>, c: Cursor, done: Seq<Token>) -> Parsed<Seq<Token>>
    decreases tokens.len() - c.pos, 11nat,
{
    if done.len() > 255 {
        stop(c, "Can't have more than 255 parameters."@)
    } else {
        match peek_type(tokens, c.pos) {
            TokenType::Comma => match advance(tokens, c) {
                Err(t) => Err(t),
                Ok((_, c1)) => parameters(tokens, c1, done),
            },
            TokenType::Identifier => match advance(tokens, c) {
                Err(t) => Err(t),
                Ok((p, c1)) => parameters(tokens, c1, done.push(p)),
            },
            TokenType::RightParen => match advance(tokens, c) {
                Err(t) => Err(t),
                Ok((_, c1)) => Ok((done, c1)),
            },
            _ => stop(c, "Expect parameter name, comma, or right paren."@),
        }
    }
}

/// A function or a method, from its name on; `kind` is how errors call
/// it.
pub open spec fn function(tokens: Seq<Token>, c: Cursor, kind: Seq<char>) -> Parsed<FunctionStmtView>
    decreases tokens.len() - c.pos, 11nat,
{
    match consume(tokens, c, TokenType::Identifier, "Expect "@ + kind + " name."@) {
        Err(t) => Err(t),
        Ok((name, c1)) => match consume(
            tokens,
            c1,
            TokenType::LeftParen,
            "Expect '(' after "@ + kind + " name."@,
        ) {
            Err(t) => Err(t),
            Ok((_, c2)) => match parameters(tokens, c2, Seq::empty()) {
                Err(t) => Err(t),
                Ok((params, c3)) => match consume(
                    tokens,
                    c3,
                    TokenType::LeftBrace,
                    "Expect '{' before "@ + kind + " body"@,
                ) {
                    Err(t) => Err(t),
                    Ok((_, c4)) => if ahead(tokens, c, c4) {
                        match block(tokens, c4) {
                            Err(t) => Err(t),
                            Ok((body, c5)) => match gen_id(c5) {
                                Err(t) => Err(t),
                                Ok((id, c6)) => Ok((FunctionStmtView { id, name, params, body }, c6)),
                            },
                        }
                    } else {
                        stop(c, stuck())
                    },
                },
            },
        },
    }
}

/// The methods of a class, after `done`, up to its closing brace.
pub open spec fn methods(tokens: Seq<Token>, c: Cursor, done: Seq<FunctionStmtView>) -> Parsed<
    Seq<FunctionStmtView>,
>
    decreases tokens.len() - c.pos, 12nat,
{
    if token_at(tokens, c.pos) is Some && peek_type(tokens, c.pos) != TokenType::RightBrace {
        match function(tokens, c, "method"@) {
            Err(t) => Err(t),
            Ok((m, c1)) => if ahead(tokens, c, c1) {
                methods(tokens, c1, done.push(m))
            } else {
                stop(c, stuck())
            },
        }
    } else {
        Ok((done, c))
    }
}

/// The superclass of a class: `< Name` behind the name of the class, or
/// nothing.
pub open spec fn superclass(tokens: Seq<Token>, c: Cursor) -> Parsed<Option<VariableExpr>> {
    if peek_type(tokens, c.pos) == TokenType::Less {
        match advance(tokens, c) {
            Err(t) => Err(t),
            Ok((_, c1)) => match consume(tokens, c1, TokenType::Identifier, "Expect superclass name."@) {
                Err(t) => Err(t),
                Ok((name, c2)) => match gen_id(c2) {
                    Err(t) => Err(t),
                    Ok((id, c3)) => Ok((Some(VariableExpr { id, name }), c3)),
                },
            },
        }
    } else {
        Ok((None, c))
    }
}

/// A class declaration, from behind `class`.
pub open spec fn class_declaration(tokens: Seq<Token>, c: Cursor) -> Parsed<StmtView>
    decreases tokens.len() - c.pos, 13nat,
{
    match consume(tokens, c, TokenType::Identifier, "Expect class name"@) {
        Err(t) => Err(t),
        Ok((name, c1)) => match superclass(tokens, c1) {
            Err(t) => Err(t),
            Ok((parent, c2)) => match consume(
                tokens,
                c2,
                TokenType::LeftBrace,
                "Expect '{' before class body"@,
            ) {
                Err(t) => Err(t),
                Ok((_, c3)) => if ahead(tokens, c, c3) {
                    match methods(tokens, c3, Seq::empty()) {
                        Err(t) => Err(t),
                        Ok((ms, c4)) => match consume(
                            tokens,
                            c4,
                            TokenType::RightBrace,
                            "Expect '}' after class body."@,
                        ) {
                            Err(t) => Err(t),
                            Ok((_, c5)) => match gen_id(c5) {
                                Err(t) => Err(t),
                                Ok((id, c6)) => Ok(
                                    (StmtView::Class { id, name, superclass: parent, methods: ms }, c6),
                                ),
                            },
                        },
                    }
                } else {
                    stop(c, stuck())
                },
            },
        },
    }
}

/// A declaration: a class, a function, a variable, or a statement.
pub open spec fn declaration(tokens: Seq<Token>, c: Cursor) -> Parsed<StmtView>
    decreases tokens.len() - c.pos, 16nat,
{
    match peek_type(tokens, c.pos) {
        TokenType::Class => match advance(tokens, c) {
            Err(t) => Err(t),
            Ok((_, c1)) => class_declaration(tokens, c1),
        },
        TokenType::Fun => match advance(tokens, c) {
            Err(t) => Err(t),
            Ok((_, c1)) => match function(tokens, c1, "function"@) {
                Err(t) => Err(t),
                Ok((f, c2)) => Ok((StmtView::Function(f), c2)),
            },
        },
        TokenType::Var => match advance(tokens, c) {
            Err(t) => Err(t),
            Ok((_, c1)) => var_declaration(tokens, c1),
        },
        _ => statement(tokens, c),
    }
}

/// The declarations of a program, after `done`, up to the end of the
/// input.
pub open spec fn program_rest(tokens: Seq<Token>, c: Cursor, done: Seq<StmtView>) -> Parsed<Seq<StmtView>>
    decreases tokens.len() - c.pos, 17nat,
{
    if token_at(tokens, c.pos) is Some {
        match declaration(tokens, c) {
            Err(t) => Err(t),
            Ok((s, c1)) => if ahead(tokens, c, c1) {
                program_rest(tokens, c1, done.push(s))
            } else {
                stop(c, stuck())
            },
        }
    } else {
        Ok((done, c))
    }
}

/// The program that a sequence of tokens stands for, with ids from
/// `first_id` on.
pub open spec fn program(tokens: Seq<Token>, first_id: nat) -> Parsed<Seq<StmtView>> {
    program_rest(tokens, Cursor { pos: 0, next_id: first_id }, Seq::empty())
}

} // verus!
