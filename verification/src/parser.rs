//! The parser: it reads a sequence of tokens into a syntax tree.
//!
//! It is a recursive-descent parser with one token of lookahead. It stops
//! at the first error.

use vstd::prelude::*;
use std::rc::Rc;
use crate::ast::{
    expr_view, expressions_view, function_view, methods_view, statements_view, stmt_view, Expr,
    ExprView, FunctionStmt, FunctionStmtView, Stmt, StmtView, VariableExpr,
};
use crate::grammar;
use crate::grammar::{Cursor, Parsed};
use crate::text::{concat2, count_to_string};
use crate::tokens::{Literal, Token, TokenType};

verus! {

/// The state of the parser: the tokens, the position of the next one, and
/// the next free id.
pub struct Parser {
    pub tokens: Vec<Token>,
    pub current: usize,
    pub current_id: usize,
}

/// Whether a step of the parser came out as the grammar says: with a
/// value whose view is the one that the grammar gives, or with the same
/// error text; either way the parser stands where the grammar says.
pub open spec fn yields<T, V>(expected: Parsed<V>, r: Result<T, String>, after: Cursor, view: spec_fn(T) -> V) -> bool {
    match expected {
        Ok((v, c)) => r matches Ok(x) && view(x) == v && after == c,
        Err(stopped) => r matches Err(s) && s@ == stopped.text && after == stopped.at,
    }
}

/// The view of a block whose statements are collected in a vector.
pub proof fn lemma_block_view(id: usize, statements: Vec<Stmt>)
    ensures
        stmt_view(Stmt::Block { id, statements }) == (StmtView::Block {
            id,
            statements: statements_view(statements@),
        }),
{
    assert(stmt_view(Stmt::Block { id, statements })->Block_statements =~= statements_view(
        statements@,
    ));
}

/// The view of a call whose arguments are collected in a vector.
pub proof fn lemma_call_view(id: usize, callee: Box<Expr>, arguments: Vec<Expr>)
    ensures
        expr_view(Expr::Call { id, callee, arguments }) == (ExprView::Call {
            id,
            callee: Box::new(expr_view(*callee)),
            arguments: expressions_view(arguments@),
        }),
{
    assert(expr_view(Expr::Call { id, callee, arguments })->Call_arguments =~= expressions_view(
        arguments@,
    ));
}

/// The view of a function whose body is collected in a vector.
pub proof fn lemma_function_view(f: FunctionStmt)
    ensures
        function_view(f) == (FunctionStmtView {
            id: f.id,
            name: f.name,
            params: f.params@,
            body: statements_view(f.body@),
        }),
{
    assert(function_view(f).body =~= statements_view(f.body@));
}

/// The view of a class whose methods are collected in a vector.
pub proof fn lemma_class_view(
    id: usize,
    name: Token,
    superclass: Option<VariableExpr>,
    methods: Vec<Rc<FunctionStmt>>,
)
    ensures
        stmt_view(Stmt::Class { id, name, superclass, methods }) == (StmtView::Class {
            id,
            name,
            superclass,
            methods: methods_view(methods@),
        }),
{
    assert(stmt_view(Stmt::Class { id, name, superclass, methods })->Class_methods =~= methods_view(
        methods@,
    ));
}

/// Whether a kind of token is an operator of a level of binary
/// operators.
pub fn is_operator(level: u8, kind: TokenType) -> (r: bool)
    ensures
        r == grammar::level_has(level as nat, kind),
{
    if level == 0 {
        kind == TokenType::Or
    } else if level == 1 {
        kind == TokenType::And
    } else if level == 2 {
        kind == TokenType::BangEqual || kind == TokenType::EqualEqual
    } else if level == 3 {
        kind == TokenType::Greater || kind == TokenType::GreaterEqual || kind == TokenType::Less
            || kind == TokenType::LessEqual
    } else if level == 4 {
        kind == TokenType::Plus || kind == TokenType::Minus
    } else if level == 5 {
        kind == TokenType::Slash || kind == TokenType::Star
    } else {
        false
    }
}

/// The literal `nil` as an expression.
pub fn nil(id: usize) -> (e: Expr)
    ensures
        e@ == grammar::nil(id),
{
    Expr::Literal { id, value: Literal::Nil }
}

/// The statement that does nothing.
pub fn noop(id: usize) -> (s: Stmt)
    ensures
        s@ == grammar::noop(id),
{
    let statements: Vec<Stmt> = Vec::new();
    proof {
        lemma_block_view(id, statements);
        assert(statements_view(statements@) =~= Seq::empty());
    }
    Stmt::Block { id, statements }
}

/// The loop that a for statement stands for.
pub fn for_loop(
    ids: (usize, usize, usize, usize),
    initializer: Stmt,
    condition: Expr,
    increment: Expr,
    body: Stmt,
) -> (s: Stmt)
    ensures
        s@ == grammar::for_loop(ids, initializer@, condition@, increment@, body@),
{
    let step = Stmt::Expression { id: ids.3, expression: increment };
    let mut inner: Vec<Stmt> = Vec::new();
    inner.push(body);
    inner.push(step);
    proof {
        lemma_block_view(ids.2, inner);
        assert(statements_view(inner@) =~= seq![body@, step@]);
    }
    let turn = Stmt::While {
        id: ids.1,
        condition,
        body: Box::new(Stmt::Block { id: ids.2, statements: inner }),
    };
    let mut outer: Vec<Stmt> = Vec::new();
    outer.push(initializer);
    outer.push(turn);
    proof {
        lemma_block_view(ids.0, outer);
        assert(statements_view(outer@) =~= seq![initializer@, turn@]);
    }
    Stmt::Block { id: ids.0, statements: outer }
}

impl Parser {
    /// Where the parser stands.
    pub open spec fn cursor(&self) -> Cursor {
        Cursor { pos: self.current as nat, next_id: self.current_id as nat }
    }

    /// The position lies within the tokens or right behind them.
    pub open spec fn wf(&self) -> bool {
        self.current <= self.tokens@.len()
    }

    /// The parser has gone from `before` to this state over the same
    /// tokens without going back or giving an id twice, and if `ok` has
    /// read at least one token.
    pub open spec fn after(&self, before: Parser, ok: bool) -> bool {
        &&& self.wf()
        &&& self.tokens == before.tokens
        &&& self.current >= before.current
        &&& self.current_id >= before.current_id
        &&& ok ==> self.current > before.current
    }

    /// A parser at the start of `tokens`, which gives ids from `first_id`
    /// on.
    pub fn new(tokens: Vec<Token>, first_id: usize) -> (p: Parser)
        ensures
            p.wf(),
            p.tokens == tokens,
            p.cursor() == (Cursor { pos: 0, next_id: first_id as nat }),
    {
        Parser { tokens, current: 0, current_id: first_id }
    }

    /// Takes the next id.
    fn gen_id(&mut self) -> (r: Result<usize, String>)
        ensures
            final(self).tokens == old(self).tokens,
            final(self).current == old(self).current,
            final(self).current_id >= old(self).current_id,
            yields(grammar::gen_id(old(self).cursor()), r, final(self).cursor(), |i: usize| i),
    {
        if self.current_id >= usize::MAX {
            return Err(String::from_str("Too many syntax nodes."));
        }
        let id = self.current_id;
        self.current_id += 1;
        Ok(id)
    }

    /// The next token, unless the input has ended.
    fn peek(&self) -> (r: Option<&Token>)
        requires
            self.wf(),
        ensures
            match grammar::token_at(self.tokens@, self.current as nat) {
                Some(t) => r matches Some(x) && *x == t,
                None => r is None,
            },
    {
        if self.current < self.tokens.len() {
            let token = &self.tokens[self.current];
            if token.token_type == TokenType::Eof {
                None
            } else {
                Some(token)
            }
        } else {
            None
        }
    }

    /// The kind of the next token; `Nothing` at the end of the input.
    fn peek_token_type(&self) -> (r: TokenType)
        requires
            self.wf(),
        ensures
            r == grammar::peek_type(self.tokens@, self.current as nat),
    {
        match self.peek() {
            Some(t) => t.token_type,
            None => TokenType::Nothing,
        }
    }

    /// Whether the next token is of one of the kinds `token_types`.
    fn check(&self, token_types: &[TokenType]) -> (r: bool)
        requires
            self.wf(),
        ensures
            r == (grammar::token_at(self.tokens@, self.current as nat) is Some
                && token_types@.contains(grammar::peek_type(self.tokens@, self.current as nat))),
    {
        match self.peek() {
            None => false,
            Some(token) => {
                let mut i: usize = 0;
                while i < token_types.len()
                    invariant
                        i <= token_types@.len(),
                        grammar::token_at(self.tokens@, self.current as nat) == Some(*token),
                        forall|j: int| 0 <= j < i ==> token_types@[j] != token.token_type,
                    decreases token_types@.len() - i,
                {
                    if token_types[i] == token.token_type {
                        assert(token_types@[i as int] == token.token_type);
                        return true;
                    }
                    i += 1;
                }
                false
            },
        }
    }

    /// Whether the next token is of the kind `token_type`.
    fn check_one(&self, token_type: TokenType) -> (r: bool)
        requires
            self.wf(),
        ensures
            r == (grammar::token_at(self.tokens@, self.current as nat) is Some && grammar::peek_type(
                self.tokens@,
                self.current as nat,
            ) == token_type),
    {
        let kinds = [token_type];
        let r = self.check(kinds.as_slice());
        r
    }

    /// Reads the next token.
    fn advance(&mut self) -> (r: Result<Token, String>)
        requires
            old(self).wf(),
        ensures
            final(self).after(*old(self), r is Ok),
            yields(
                grammar::advance(old(self).tokens@, old(self).cursor()),
                r,
                final(self).cursor(),
                |t: Token| t,
            ),
    {
        if self.current >= self.tokens.len() {
            Err(String::from_str("Tried to pop_front on empty dequeue"))
        } else if self.tokens[self.current].token_type == TokenType::Eof {
            Err(String::from_str("Tried to pop_front with only EOF left"))
        } else {
            let token = self.tokens[self.current].clone();
            self.current += 1;
            Ok(token)
        }
    }

    /// Reads the next token and drops it.
    fn advance_and_discard(&mut self) -> (r: Result<(), String>)
        requires
            old(self).wf(),
        ensures
            final(self).after(*old(self), r is Ok),
            match grammar::advance(old(self).tokens@, old(self).cursor()) {
                Ok((_, c)) => r is Ok && final(self).cursor() == c,
                Err(stopped) => r matches Err(s) && s@ == stopped.text && final(self).cursor()
                    == stopped.at,
            },
    {
        match self.advance() {
            Ok(_) => Ok(()),
            Err(e) => Err(e),
        }
    }

    /// How an error names the token at `pos`.
    fn found(&self, pos: usize) -> (s: String)
        ensures
            s@ == grammar::found_text(self.tokens@, pos as nat),
    {
        if pos < self.tokens.len() && self.tokens[pos].token_type != TokenType::Eof {
            let mut s = String::from_str("'");
            s.append(self.tokens[pos].lexeme.as_str());
            s.append("' on line ");
            s.append(count_to_string(self.tokens[pos].line_number).as_str());
            s
        } else {
            String::from_str("<nothing>")
        }
    }

    /// Reads the next token, which must be of the kind `token_type`.
    fn consume(&mut self, token_type: TokenType, message: &str) -> (r: Result<Token, String>)
        requires
            old(self).wf(),
        ensures
            final(self).after(*old(self), r is Ok),
            yields(
                grammar::consume(old(self).tokens@, old(self).cursor(), token_type, message@),
                r,
                final(self).cursor(),
                |t: Token| t,
            ),
    {
        if token_type != TokenType::Nothing && self.peek_token_type() == token_type {
            self.advance()
        } else {
            let mut s = String::from_str("Could not consume: ");
            s.append(self.found(self.current).as_str());
            s.append(". \"");
            s.append(message);
            s.append("\"");
            Err(s)
        }
    }

    /// Reads a primary expression.
    fn primary(&mut self) -> (r: Result<Expr, String>)
        requires
            old(self).wf(),
        ensures
            final(self).after(*old(self), r is Ok),
            yields(
                grammar::primary(old(self).tokens@, old(self).cursor()),
                r,
                final(self).cursor(),
                |e: Expr| e@,
            ),
        decreases old(self).tokens@.len() - old(self).current, 0nat,
    {
        let start = self.current;
        let next_token = self.advance()?;
        let id = self.gen_id()?;
        match next_token.token_type {
            TokenType::False => Ok(Expr::Literal { id, value: Literal::Boolean(false) }),
            TokenType::True => Ok(Expr::Literal { id, value: Literal::Boolean(true) }),
            TokenType::Nil => Ok(Expr::Literal { id, value: Literal::Nil }),
            TokenType::Number => Ok(Expr::Literal { id, value: next_token.literal }),
            TokenType::String => Ok(Expr::Literal { id, value: next_token.literal }),
            TokenType::Identifier => Ok(Expr::Variable(VariableExpr { id, name: next_token })),
            TokenType::This => Ok(Expr::This { id, keyword: next_token }),
            TokenType::Super => {
                self.consume(TokenType::Dot, "Expect '.' after 'super'.")?;
                let method = self.consume(TokenType::Identifier, "Expect superclass method name.")?;
                Ok(Expr::Super { id, keyword: next_token, method })
            },
            TokenType::LeftParen => {
                let inner_expression = self.expression()?;
                self.consume(TokenType::RightParen, "Expect ')' after expression")?;
                Ok(Expr::Grouping { id, expression: Box::new(inner_expression) })
            },
            _ => Err(concat2("Unrecognized primary token: ", self.found(start).as_str())),
        }
    }

    /// Reads the arguments of a call, up to the closing parenthesis.
    fn arguments(&mut self) -> (r: Result<Vec<Expr>, String>)
        requires
            old(self).wf(),
        ensures
            final(self).after(*old(self), false),
            yields(
                grammar::arguments(old(self).tokens@, old(self).cursor(), Seq::empty()),
                r,
                final(self).cursor(),
                |v: Vec<Expr>| expressions_view(v@),
            ),
        decreases old(self).tokens@.len() - old(self).current, 11nat,
    {
        let mut arguments: Vec<Expr> = Vec::new();
        assert(expressions_view(arguments@) =~= Seq::empty());
        loop
            invariant
                self.after(*old(self), false),
                grammar::arguments(old(self).tokens@, old(self).cursor(), Seq::empty())
                    == grammar::arguments(self.tokens@, self.cursor(), expressions_view(arguments@)),
            decreases self.tokens@.len() - self.current,
        {
            if arguments.len() > 255 {
                return Err(String::from_str("Can't have more than 255 arguments"));
            }
            match self.peek_token_type() {
                TokenType::Comma => {
                    self.advance_and_discard()?;
                },
                TokenType::RightParen => {
                    return Ok(arguments);
                },
                _ => {
                    let ghost done = expressions_view(arguments@);
                    let e = self.expression()?;
                    arguments.push(e);
                    assert(expressions_view(arguments@) =~= done.push(e@));
                },
            }
        }
    }

    /// Reads a call, from behind its opening parenthesis.
    fn finish_call(&mut self, callee: Expr) -> (r: Result<Expr, String>)
        requires
            old(self).wf(),
        ensures
            final(self).after(*old(self), r is Ok),
            yields(
                grammar::finish_call(old(self).tokens@, old(self).cursor(), callee@),
                r,
                final(self).cursor(),
                |e: Expr| e@,
            ),
        decreases old(self).tokens@.len() - old(self).current, 12nat,
    {
        let arguments = self.arguments()?;
        self.consume(TokenType::RightParen, "Expect ')' after arguments.")?;
        let id = self.gen_id()?;
        let callee = Box::new(callee);
        proof {
            lemma_call_view(id, callee, arguments);
        }
        Ok(Expr::Call { id, callee, arguments })
    }

    /// Reads a primary expression with the calls and property accesses
    /// behind it.
    fn call(&mut self) -> (r: Result<Expr, String>)
        requires
            old(self).wf(),
        ensures
            final(self).after(*old(self), r is Ok),
            yields(
                grammar::call(old(self).tokens@, old(self).cursor()),
                r,
                final(self).cursor(),
                |e: Expr| e@,
            ),
        decreases old(self).tokens@.len() - old(self).current, 1nat,
    {
        let mut expr = self.primary()?;
        loop
            invariant
                self.after(*old(self), true),
                grammar::call(old(self).tokens@, old(self).cursor()) == grammar::call_rest(
                    self.tokens@,
                    self.cursor(),
                    expr@,
                ),
            decreases self.tokens@.len() - self.current,
        {
            match self.peek_token_type() {
                TokenType::LeftParen => {
                    self.advance()?;
                    expr = self.finish_call(expr)?;
                },
                TokenType::Dot => {
                    self.advance()?;
                    let name = self.consume(TokenType::Identifier, "Expect property name after '.'")?;
                    let id = self.gen_id()?;
                    expr = Expr::Get { id, object: Box::new(expr), name };
                },
                _ => {
                    return Ok(expr);
                },
            }
        }
    }

    /// Reads a unary expression.
    fn unary(&mut self) -> (r: Result<Expr, String>)
        requires
            old(self).wf(),
        ensures
            final(self).after(*old(self), r is Ok),
            yields(
                grammar::unary(old(self).tokens@, old(self).cursor()),
                r,
                final(self).cursor(),
                |e: Expr| e@,
            ),
        decreases old(self).tokens@.len() - old(self).current, 2nat,
    {
        let kind = self.peek_token_type();
        if !(kind == TokenType::Bang || kind == TokenType::Minus) {
            return self.call();
        }
        let operator = self.advance()?;
        let right = self.unary()?;
        let id = self.gen_id()?;
        Ok(Expr::Unary { id, operator, right: Box::new(right) })
    }

    /// Reads an operand of the binary operators of a level.
    fn operand(&mut self, level: u8) -> (r: Result<Expr, String>)
        requires
            old(self).wf(),
        ensures
            final(self).after(*old(self), r is Ok),
            yields(
                grammar::operand(old(self).tokens@, old(self).cursor(), level as nat),
                r,
                final(self).cursor(),
                |e: Expr| e@,
            ),
        decreases old(self).tokens@.len() - old(self).current, 3nat, 12 - level, 0nat,
    {
        if level == 0 {
            self.and()
        } else if level == 1 {
            self.equality()
        } else if level == 2 {
            self.comparison()
        } else if level == 3 {
            self.term()
        } else if level == 4 {
            self.factor()
        } else {
            self.unary()
        }
    }

    /// Reads an expression of `and`.
    fn and(&mut self) -> (r: Result<Expr, String>)
        requires
            old(self).wf(),
        ensures
            final(self).after(*old(self), r is Ok),
            yields(
                grammar::binary(old(self).tokens@, old(self).cursor(), 1),
                r,
                final(self).cursor(),
                |e: Expr| e@,
            ),
        decreases old(self).tokens@.len() - old(self).current, 3nat, 11nat, 2nat,
    {
        self.binary(1)
    }

    /// Reads an expression of `==` and `!=`.
    fn equality(&mut self) -> (r: Result<Expr, String>)
        requires
            old(self).wf(),
        ensures
            final(self).after(*old(self), r is Ok),
            yields(
                grammar::binary(old(self).tokens@, old(self).cursor(), 2),
                r,
                final(self).cursor(),
                |e: Expr| e@,
            ),
        decreases old(self).tokens@.len() - old(self).current, 3nat, 10nat, 2nat,
    {
        self.binary(2)
    }

    /// Reads an expression of the ordering operators.
    fn comparison(&mut self) -> (r: Result<Expr, String>)
        requires
            old(self).wf(),
        ensures
            final(self).after(*old(self), r is Ok),
            yields(
                grammar::binary(old(self).tokens@, old(self).cursor(), 3),
                r,
                final(self).cursor(),
                |e: Expr| e@,
            ),
        decreases old(self).tokens@.len() - old(self).current, 3nat, 9nat, 2nat,
    {
        self.binary(3)
    }

    /// Reads an expression of `+` and `-`.
    fn term(&mut self) -> (r: Result<Expr, String>)
        requires
            old(self).wf(),
        ensures
            final(self).after(*old(self), r is Ok),
            yields(
                grammar::binary(old(self).tokens@, old(self).cursor(), 4),
                r,
                final(self).cursor(),
                |e: Expr| e@,
            ),
        decreases old(self).tokens@.len() - old(self).current, 3nat, 8nat, 2nat,
    {
        self.binary(4)
    }

    /// Reads an expression of `*` and `/`.
    fn factor(&mut self) -> (r: Result<Expr, String>)
        requires
            old(self).wf(),
        ensures
            final(self).after(*old(self), r is Ok),
            yields(
                grammar::binary(old(self).tokens@, old(self).cursor(), 5),
                r,
                final(self).cursor(),
                |e: Expr| e@,
            ),
        decreases old(self).tokens@.len() - old(self).current, 3nat, 7nat, 2nat,
    {
        self.binary(5)
    }

    /// Reads an expression of the binary operators of a level, which group
    /// to the left.
    fn binary(&mut self, level: u8) -> (r: Result<Expr, String>)
        requires
            old(self).wf(),
        ensures
            final(self).after(*old(self), r is Ok),
            yields(
                grammar::binary(old(self).tokens@, old(self).cursor(), level as nat),
                r,
                final(self).cursor(),
                |e: Expr| e@,
            ),
        decreases old(self).tokens@.len() - old(self).current, 3nat, 12 - level, 1nat,
    {
        if level > 5 {
            return self.unary();
        }
        let mut expression = self.operand(level)?;
        loop
            invariant
                level <= 5,
                self.after(*old(self), true),
                grammar::binary(old(self).tokens@, old(self).cursor(), level as nat)
                    == grammar::binary_rest(self.tokens@, self.cursor(), level as nat, expression@),
            decreases self.tokens@.len() - self.current,
        {
            if !is_operator(level, self.peek_token_type()) {
                return Ok(expression);
            }
            let operator = self.advance()?;
            let right = self.operand(level)?;
            let id = self.gen_id()?;
            expression = if level <= 1 {
                Expr::Logical { id, left: Box::new(expression), operator, right: Box::new(right) }
            } else {
                Expr::Binary { id, left: Box::new(expression), operator, right: Box::new(right) }
            };
        }
    }

    /// Reads an expression of `or`.
    fn or(&mut self) -> (r: Result<Expr, String>)
        requires
            old(self).wf(),
        ensures
            final(self).after(*old(self), r is Ok),
            yields(
                grammar::binary(old(self).tokens@, old(self).cursor(), 0),
                r,
                final(self).cursor(),
                |e: Expr| e@,
            ),
        decreases old(self).tokens@.len() - old(self).current, 4nat,
    {
        self.binary(0)
    }

    /// Reads an assignment, or an expression of `or`.
    fn assignment(&mut self) -> (r: Result<Expr, String>)
        requires
            old(self).wf(),
        ensures
            final(self).after(*old(self), r is Ok),
            yields(
                grammar::assignment(old(self).tokens@, old(self).cursor()),
                r,
                final(self).cursor(),
                |e: Expr| e@,
            ),
        decreases old(self).tokens@.len() - old(self).current, 9nat,
    {
        let expr = self.or()?;
        if self.peek_token_type() == TokenType::Equal {
            self.advance()?;
            let value = self.assignment()?;
            return match expr {
                Expr::Get { object, name, .. } => {
                    let id = self.gen_id()?;
                    Ok(Expr::SetField { id, object, name, value: Box::new(value) })
                },
                Expr::Variable(v) => {
                    let id = self.gen_id()?;
                    Ok(Expr::Assign { id, name: v.name, value: Box::new(value) })
                },
                _ => Err(String::from_str("Invalid assignment target.")),
            };
        }
        Ok(expr)
    }

    /// Reads an expression.
    fn expression(&mut self) -> (r: Result<Expr, String>)
        requires
            old(self).wf(),
        ensures
            final(self).after(*old(self), r is Ok),
            yields(
                grammar::expression(old(self).tokens@, old(self).cursor()),
                r,
                final(self).cursor(),
                |e: Expr| e@,
            ),
        decreases old(self).tokens@.len() - old(self).current, 10nat,
    {
        self.assignment()
    }

    /// Reads an expression, or takes `nil` where the token `unless` stands
    /// instead.
    fn optional_expression(&mut self, unless: TokenType) -> (r: Result<Expr, String>)
        requires
            old(self).wf(),
        ensures
            final(self).after(*old(self), false),
            yields(
                grammar::optional_expression(old(self).tokens@, old(self).cursor(), unless),
                r,
                final(self).cursor(),
                |e: Expr| e@,
            ),
        decreases old(self).tokens@.len() - old(self).current, 11nat,
    {
        if unless != TokenType::Nothing && self.peek_token_type() == unless {
            let id = self.gen_id()?;
            Ok(nil(id))
        } else {
            self.expression()
        }
    }

    /// Reads an expression statement.
    fn expression_statement(&mut self) -> (r: Result<Stmt, String>)
        requires
            old(self).wf(),
        ensures
            final(self).after(*old(self), r is Ok),
            yields(
                grammar::expression_statement(old(self).tokens@, old(self).cursor()),
                r,
                final(self).cursor(),
                |s: Stmt| s@,
            ),
        decreases old(self).tokens@.len() - old(self).current, 11nat,
    {
        let expression = self.expression()?;
        self.consume(TokenType::Semicolon, "Expect ';' after expression.")?;
        let id = self.gen_id()?;
        Ok(Stmt::Expression { id, expression })
    }

    /// Reads a print statement, from behind `print`.
    fn print_statement(&mut self) -> (r: Result<Stmt, String>)
        requires
            old(self).wf(),
        ensures
            final(self).after(*old(self), r is Ok),
            yields(
                grammar::print_statement(old(self).tokens@, old(self).cursor()),
                r,
                final(self).cursor(),
                |s: Stmt| s@,
            ),
        decreases old(self).tokens@.len() - old(self).current, 11nat,
    {
        let value = self.expression()?;
        self.consume(TokenType::Semicolon, "Expect ';' after value.")?;
        let id = self.gen_id()?;
        Ok(Stmt::Print { id, expression: value })
    }

    /// Reads a return statement, from behind `return`.
    fn return_statement(&mut self) -> (r: Result<Stmt, String>)
        requires
            old(self).wf(),
        ensures
            final(self).after(*old(self), r is Ok),
            yields(
                grammar::return_statement(old(self).tokens@, old(self).cursor()),
                r,
                final(self).cursor(),
                |s: Stmt| s@,
            ),
        decreases old(self).tokens@.len() - old(self).current, 12nat,
    {
        let value = self.optional_expression(TokenType::Semicolon)?;
        self.consume(TokenType::Semicolon, "Expect ';' return statement value.")?;
        let id = self.gen_id()?;
        Ok(Stmt::Return { id, value })
    }

    /// Reads a variable declaration, from behind `var`.
    fn var_declaration(&mut self) -> (r: Result<Stmt, String>)
        requires
            old(self).wf(),
        ensures
            final(self).after(*old(self), r is Ok),
            yields(
                grammar::var_declaration(old(self).tokens@, old(self).cursor()),
                r,
                final(self).cursor(),
                |s: Stmt| s@,
            ),
        decreases old(self).tokens@.len() - old(self).current, 11nat,
    {
        let name = self.consume(TokenType::Identifier, "Expect variable name.")?;
        let initializer = if self.peek_token_type() == TokenType::Equal {
            self.advance()?;
            self.expression()?
        } else {
            let id = self.gen_id()?;
            nil(id)
        };
        self.consume(TokenType::Semicolon, "Expect ';' after variable declaration")?;
        let id = self.gen_id()?;
        Ok(Stmt::Var { id, name, initializer })
    }

    /// Reads a while statement, from behind `while`.
    fn while_statement(&mut self) -> (r: Result<Stmt, String>)
        requires
            old(self).wf(),
        ensures
            final(self).after(*old(self), r is Ok),
            yields(
                grammar::while_statement(old(self).tokens@, old(self).cursor()),
                r,
                final(self).cursor(),
                |s: Stmt| s@,
            ),
        decreases old(self).tokens@.len() - old(self).current, 11nat,
    {
        self.consume(TokenType::LeftParen, "Expect '(' after 'while'.")?;
        let condition = self.expression()?;
        self.consume(TokenType::RightParen, "Expect ')' after while condition.")?;
        let body = self.statement()?;
        let id = self.gen_id()?;
        Ok(Stmt::While { id, condition, body: Box::new(body) })
    }

    /// Reads the else branch of an if statement, if there is one.
    fn else_branch(&mut self) -> (r: Result<Stmt, String>)
        requires
            old(self).wf(),
        ensures
            final(self).after(*old(self), false),
            yields(
                grammar::else_branch(old(self).tokens@, old(self).cursor()),
                r,
                final(self).cursor(),
                |s: Stmt| s@,
            ),
        decreases old(self).tokens@.len() - old(self).current, 14nat,
    {
        if self.peek_token_type() == TokenType::Else {
            self.advance()?;
            self.statement()
        } else {
            let id = self.gen_id()?;
            Ok(noop(id))
        }
    }

    /// Reads an if statement, from behind `if`.
    fn if_statement(&mut self) -> (r: Result<Stmt, String>)
        requires
            old(self).wf(),
        ensures
            final(self).after(*old(self), r is Ok),
            yields(
                grammar::if_statement(old(self).tokens@, old(self).cursor()),
                r,
                final(self).cursor(),
                |s: Stmt| s@,
            ),
        decreases old(self).tokens@.len() - old(self).current, 11nat,
    {
        self.consume(TokenType::LeftParen, "Expect '(' after 'if'.")?;
        let condition = self.expression()?;
        self.consume(TokenType::RightParen, "Expect ')' after if condition.")?;
        let then_branch = self.statement()?;
        let else_branch = self.else_branch()?;
        let id = self.gen_id()?;
        Ok(
            Stmt::If {
                id,
                condition,
                then_branch: Box::new(then_branch),
                else_branch: Box::new(else_branch),
            },
        )
    }

    /// Reads the first clause of a for statement.
    fn for_initializer(&mut self) -> (r: Result<Stmt, String>)
        requires
            old(self).wf(),
        ensures
            final(self).after(*old(self), r is Ok),
            yields(
                grammar::for_initializer(old(self).tokens@, old(self).cursor()),
                r,
                final(self).cursor(),
                |s: Stmt| s@,
            ),
        decreases old(self).tokens@.len() - old(self).current, 12nat,
    {
        match self.peek_token_type() {
            TokenType::Semicolon => {
                self.advance()?;
                let id = self.gen_id()?;
                Ok(noop(id))
            },
            TokenType::Var => {
                self.advance()?;
                self.var_declaration()
            },
            _ => self.expression_statement(),
        }
    }

    /// Takes four ids in a row.
    fn gen_ids(&mut self) -> (r: Result<(usize, usize, usize, usize), String>)
        ensures
            final(self).tokens == old(self).tokens,
            final(self).current == old(self).current,
            final(self).current_id >= old(self).current_id,
            yields(
                grammar::gen_ids(old(self).cursor()),
                r,
                final(self).cursor(),
                |i: (usize, usize, usize, usize)| i,
            ),
    {
        let a = self.gen_id()?;
        let b = self.gen_id()?;
        let c = self.gen_id()?;
        let d = self.gen_id()?;
        Ok((a, b, c, d))
    }

    /// Reads a for statement, from behind `for`, as the while loop that
    /// does the same.
    fn for_statement(&mut self) -> (r: Result<Stmt, String>)
        requires
            old(self).wf(),
        ensures
            final(self).after(*old(self), r is Ok),
            yields(
                grammar::for_statement(old(self).tokens@, old(self).cursor()),
                r,
                final(self).cursor(),
                |s: Stmt| s@,
            ),
        decreases old(self).tokens@.len() - old(self).current, 13nat,
    {
        self.consume(TokenType::LeftParen, "Expect '(' after 'for'.")?;
        let initializer = self.for_initializer()?;
        let condition = self.optional_expression(TokenType::Semicolon)?;
        self.consume(TokenType::Semicolon, "Expect ';' after 'for' condition.")?;
        let increment = self.optional_expression(TokenType::RightParen)?;
        self.consume(TokenType::RightParen, "Expect ')' after 'for' clauses.")?;
        let body = self.statement()?;
        let ids = self.gen_ids()?;
        Ok(for_loop(ids, initializer, condition, increment, body))
    }

    /// Reads a block, from behind its opening brace.
    fn block(&mut self) -> (r: Result<Vec<Stmt>, String>)
        requires
            old(self).wf(),
        ensures
            final(self).after(*old(self), r is Ok),
            yields(
                grammar::block(old(self).tokens@, old(self).cursor()),
                r,
                final(self).cursor(),
                |v: Vec<Stmt>| statements_view(v@),
            ),
        decreases old(self).tokens@.len() - old(self).current, 18nat,
    {
        let mut statements: Vec<Stmt> = Vec::new();
        assert(statements_view(statements@) =~= Seq::empty());
        while self.peek().is_some() && !self.check_one(TokenType::RightBrace)
            invariant
                self.after(*old(self), false),
                grammar::block(old(self).tokens@, old(self).cursor()) == grammar::block_rest(
                    self.tokens@,
                    self.cursor(),
                    statements_view(statements@),
                ),
            decreases self.tokens@.len() - self.current,
        {
            let ghost done = statements_view(statements@);
            let s = self.declaration()?;
            statements.push(s);
            assert(statements_view(statements@) =~= done.push(s@));
        }
        self.consume(TokenType::RightBrace, "Expect '}' after block.")?;
        Ok(statements)
    }

    /// Reads a statement.
    fn statement(&mut self) -> (r: Result<Stmt, String>)
        requires
            old(self).wf(),
        ensures
            final(self).after(*old(self), r is Ok),
            yields(
                grammar::statement(old(self).tokens@, old(self).cursor()),
                r,
                final(self).cursor(),
                |s: Stmt| s@,
            ),
        decreases old(self).tokens@.len() - old(self).current, 15nat,
    {
        match self.peek_token_type() {
            TokenType::For => {
                self.advance()?;
                self.for_statement()
            },
            TokenType::If => {
                self.advance()?;
                self.if_statement()
            },
            TokenType::Print => {
                self.advance()?;
                self.print_statement()
            },
            TokenType::Return => {
                self.advance()?;
                self.return_statement()
            },
            TokenType::While => {
                self.advance()?;
                self.while_statement()
            },
            TokenType::LeftBrace => {
                self.advance()?;
                let id = self.gen_id()?;
                let statements = self.block()?;
                proof {
                    lemma_block_view(id, statements);
                }
                Ok(Stmt::Block { id, statements })
            },
            _ => self.expression_statement(),
        }
    }

    /// Reads the parameters of a function, up to and with the closing
    /// parenthesis.
    fn parameters(&mut self) -> (r: Result<Vec<Token>, String>)
        requires
            old(self).wf(),
        ensures
            final(self).after(*old(self), r is Ok),
            yields(
                grammar::parameters(old(self).tokens@, old(self).cursor(), Seq::empty()),
                r,
                final(self).cursor(),
                |v: Vec<Token>| v@,
            ),
    {
        let mut params: Vec<Token> = Vec::new();
        loop
            invariant
                self.after(*old(self), false),
                grammar::parameters(old(self).tokens@, old(self).cursor(), Seq::empty())
                    == grammar::parameters(self.tokens@, self.cursor(), params@),
            decreases self.tokens@.len() - self.current,
        {
            if params.len() > 255 {
                return Err(String::from_str("Can't have more than 255 parameters."));
            }
            match self.peek_token_type() {
                TokenType::Comma => {
                    self.advance_and_discard()?;
                },
                TokenType::Identifier => {
                    let p = self.advance()?;
                    params.push(p);
                },
                TokenType::RightParen => {
                    self.advance()?;
                    return Ok(params);
                },
                _ => {
                    return Err(String::from_str("Expect parameter name, comma, or right paren."));
                },
            }
        }
    }

    /// Reads a function or a method, from its name on.
    fn function(&mut self, kind: &str) -> (r: Result<FunctionStmt, String>)
        requires
            old(self).wf(),
        ensures
            final(self).after(*old(self), r is Ok),
            yields(
                grammar::function(old(self).tokens@, old(self).cursor(), kind@),
                r,
                final(self).cursor(),
                |f: FunctionStmt| f@,
            ),
        decreases old(self).tokens@.len() - old(self).current, 11nat,
    {
        let mut expect_name = String::from_str("Expect ");
        expect_name.append(kind);
        expect_name.append(" name.");
        let name = self.consume(TokenType::Identifier, expect_name.as_str())?;
        let mut expect_paren = String::from_str("Expect '(' after ");
        expect_paren.append(kind);
        expect_paren.append(" name.");
        self.consume(TokenType::LeftParen, expect_paren.as_str())?;
        let params = self.parameters()?;
        let mut expect_brace = String::from_str("Expect '{' before ");
        expect_brace.append(kind);
        expect_brace.append(" body");
        self.consume(TokenType::LeftBrace, expect_brace.as_str())?;
        let body = self.block()?;
        let id = self.gen_id()?;
        let f = FunctionStmt { id, name, params, body };
        proof {
            lemma_function_view(f);
        }
        Ok(f)
    }

    /// Reads the methods of a class, up to its closing brace.
    fn methods(&mut self) -> (r: Result<Vec<Rc<FunctionStmt>>, String>)
        requires
            old(self).wf(),
        ensures
            final(self).after(*old(self), false),
            yields(
                grammar::methods(old(self).tokens@, old(self).cursor(), Seq::empty()),
                r,
                final(self).cursor(),
                |v: Vec<Rc<FunctionStmt>>| methods_view(v@),
            ),
        decreases old(self).tokens@.len() - old(self).current, 12nat,
    {
        let mut methods: Vec<Rc<FunctionStmt>> = Vec::new();
        assert(methods_view(methods@) =~= Seq::empty());
        while self.peek().is_some() && !self.check_one(TokenType::RightBrace)
            invariant
                self.after(*old(self), false),
                grammar::methods(old(self).tokens@, old(self).cursor(), Seq::empty())
                    == grammar::methods(self.tokens@, self.cursor(), methods_view(methods@)),
            decreases self.tokens@.len() - self.current,
        {
            let ghost done = methods_view(methods@);
            let f = self.function("method")?;
            methods.push(Rc::new(f));
            assert(methods_view(methods@) =~= done.push(f@));
        }
        Ok(methods)
    }

    /// Reads the superclass of a class, if one is named.
    fn superclass(&mut self) -> (r: Result<Option<VariableExpr>, String>)
        requires
            old(self).wf(),
        ensures
            final(self).after(*old(self), false),
            yields(
                grammar::superclass(old(self).tokens@, old(self).cursor()),
                r,
                final(self).cursor(),
                |v: Option<VariableExpr>| v,
            ),
    {
        if self.peek_token_type() == TokenType::Less {
            self.advance()?;
            let identifier = self.consume(TokenType::Identifier, "Expect superclass name.")?;
            let id = self.gen_id()?;
            Ok(Some(VariableExpr { id, name: identifier }))
        } else {
            Ok(None)
        }
    }

    /// Reads a class declaration, from behind `class`.
    fn class_declaration(&mut self) -> (r: Result<Stmt, String>)
        requires
            old(self).wf(),
        ensures
            final(self).after(*old(self), r is Ok),
            yields(
                grammar::class_declaration(old(self).tokens@, old(self).cursor()),
                r,
                final(self).cursor(),
                |s: Stmt| s@,
            ),
        decreases old(self).tokens@.len() - old(self).current, 13nat,
    {
        let name = self.consume(TokenType::Identifier, "Expect class name")?;
        let superclass = self.superclass()?;
        self.consume(TokenType::LeftBrace, "Expect '{' before class body")?;
        let methods = self.methods()?;
        self.consume(TokenType::RightBrace, "Expect '}' after class body.")?;
        let id = self.gen_id()?;
        proof {
            lemma_class_view(id, name, superclass, methods);
        }
        Ok(Stmt::Class { id, name, superclass, methods })
    }

    /// Reads a declaration or a statement.
    fn declaration(&mut self) -> (r: Result<Stmt, String>)
        requires
            old(self).wf(),
        ensures
            final(self).after(*old(self), r is Ok),
            yields(
                grammar::declaration(old(self).tokens@, old(self).cursor()),
                r,
                final(self).cursor(),
                |s: Stmt| s@,
            ),
        decreases old(self).tokens@.len() - old(self).current, 16nat,
    {
        match self.peek_token_type() {
            TokenType::Class => {
                self.advance()?;
                self.class_declaration()
            },
            TokenType::Fun => {
                self.advance()?;
                let f = self.function("function")?;
                Ok(Stmt::Function(Rc::new(f)))
            },
            TokenType::Var => {
                self.advance()?;
                self.var_declaration()
            },
            _ => self.statement(),
        }
    }

    /// Reads a whole program: declarations up to the end of the input.
    pub fn parse(&mut self) -> (r: Result<Vec<Stmt>, String>)
        requires
            old(self).wf(),
        ensures
            final(self).after(*old(self), false),
            yields(
                grammar::program_rest(old(self).tokens@, old(self).cursor(), Seq::empty()),
                r,
                final(self).cursor(),
                |v: Vec<Stmt>| statements_view(v@),
            ),
    {
        let mut statements: Vec<Stmt> = Vec::new();
        assert(statements_view(statements@) =~= Seq::empty());
        while self.peek().is_some()
            invariant
                self.after(*old(self), false),
                grammar::program_rest(old(self).tokens@, old(self).cursor(), Seq::empty())
                    == grammar::program_rest(self.tokens@, self.cursor(), statements_view(statements@)),
            decreases self.tokens@.len() - self.current,
        {
            let ghost done = statements_view(statements@);
            let s = self.declaration()?;
            statements.push(s);
            assert(statements_view(statements@) =~= done.push(s@));
        }
        Ok(statements)
    }
}

/// What reading a program gives: the program or the text of the error,
/// and the first id that no node has; after an error, the first id that
/// the parser has not given out.
pub struct ParsedProgram {
    pub program: Result<Vec<Stmt>, String>,
    pub next_id: usize,
}

/// Reads a program from its tokens, with node ids from `first_id` on, so
/// that programs read one after another share no id.
pub fn parse_from(tokens: Vec<Token>, first_id: usize) -> (r: ParsedProgram)
    ensures
        r.next_id >= first_id,
        match grammar::program(tokens@, first_id as nat) {
            Ok((v, c)) => r.program matches Ok(x) && statements_view(x@) == v && r.next_id
                == c.next_id,
            Err(stopped) => r.program matches Err(e) && e@ == stopped.text && r.next_id
                == stopped.at.next_id,
        },
{
    let mut parser = Parser::new(tokens, first_id);
    let program = parser.parse();
    ParsedProgram { program, next_id: parser.current_id }
}

/// Reads a program from its tokens, with node ids from zero on. The
/// result is the tree that the grammar gives, or its error as the one
/// text of a list.
pub fn parse(tokens: Vec<Token>) -> (r: Result<Vec<Stmt>, Vec<String>>)
    ensures
        match grammar::program(tokens@, 0) {
            Ok((v, _)) => r matches Ok(x) && statements_view(x@) == v,
            Err(stopped) => r matches Err(e) && e@.len() == 1 && e@[0]@ == stopped.text,
        },
{
    match parse_from(tokens, 0).program {
        Ok(statements) => Ok(statements),
        Err(e) => {
            let mut errors: Vec<String> = Vec::new();
            errors.push(e);
            Err(errors)
        },
    }
}

} // verus!
