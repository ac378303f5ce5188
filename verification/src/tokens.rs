//! Tokens and the values they carry.

use vstd::prelude::*;
use std::rc::Rc;
use crate::ast::FunctionStmt;
use crate::number::{Number, NumberView};
use crate::table::Table;

verus! {

/// The kind of a token.
#[derive(Clone, Copy, Debug, PartialEq, Eq, Hash, Structural)]
pub enum TokenType {
    LeftParen,
    RightParen,
    LeftBrace,
    RightBrace,
    Comma,
    Dot,
    Minus,
    Plus,
    Semicolon,
    Slash,
    Star,
    Bang,
    BangEqual,
    Equal,
    EqualEqual,
    Greater,
    GreaterEqual,
    Less,
    LessEqual,
    Identifier,
    String,
    Number,
    And,
    Class,
    Else,
    False,
    Fun,
    For,
    If,
    Nil,
    Or,
    Print,
    Return,
    Super,
    This,
    True,
    Var,
    While,
    Eof,
    Nothing,
}

/// A host function that programs can call.
#[derive(Clone, Copy, Debug, PartialEq, Eq, Hash, Structural)]
pub enum Native {
    /// The time in seconds since the Unix epoch.
    Clock,
}

/// A handle to an environment on the heap.
#[derive(Clone, Copy, Debug, PartialEq, Eq, Hash, Structural)]
pub struct EnvRef {
    pub index: usize,
}

/// A handle to a class instance on the heap.
#[derive(Clone, Copy, Debug, PartialEq, Eq, Hash, Structural)]
pub struct LoxInstance {
    pub index: usize,
}

/// A function value: a declaration together with the environment it was
/// defined in.
#[derive(Debug)]
pub struct Function {
    pub declaration: Rc<FunctionStmt>,
    pub env: EnvRef,
    pub is_initializer: bool,
}

/// A class: its name, its methods and the class it inherits from.
#[derive(Debug)]
pub struct Class {
    pub name: String,
    pub superclass: Option<Rc<Class>>,
    pub methods: Table<Function>,
}

/// What a callable value calls.
#[derive(Debug)]
pub enum Callable {
    Class(Rc<Class>),
    Function(Function),
    Native(Native),
}

/// A callable value with the name it was declared under.
#[derive(Debug)]
pub struct LoxCallable {
    pub name: String,
    pub callable: Callable,
}

/// A runtime value. Tokens carry one too: the value of a number or string
/// literal, and nil otherwise.
#[derive(Debug)]
pub enum Literal {
    Nil,
    Boolean(bool),
    Callable(LoxCallable),
    ClassInstance(LoxInstance),
    Number(Number),
    String(String),
}

/// A token: its kind, its text, its value and the line it stands on.
#[derive(Debug)]
pub struct Token {
    pub token_type: TokenType,
    pub lexeme: String,
    pub literal: Literal,
    pub line_number: usize,
}

/// A class as a mathematical value.
pub struct ClassView {
    pub name: Seq<char>,
    pub superclass: Option<Box<ClassView>>,
    pub methods: Map<Seq<char>, Function>,
}

/// What a callable calls, as a mathematical value.
pub enum CallableView {
    Class(ClassView),
    Function(Function),
    Native(Native),
}

/// A callable as a mathematical value.
pub struct LoxCallableView {
    pub name: Seq<char>,
    pub callable: CallableView,
}

/// A runtime value as a mathematical value.
pub enum LiteralView {
    Nil,
    Boolean(bool),
    Callable(LoxCallableView),
    ClassInstance(LoxInstance),
    Number(NumberView),
    String(Seq<char>),
}

/// A token as a mathematical value.
pub struct TokenView {
    pub token_type: TokenType,
    pub lexeme: Seq<char>,
    pub literal: LiteralView,
    pub line_number: usize,
}

impl View for Token {
    type V = TokenView;

    open spec fn view(&self) -> TokenView {
        TokenView {
            token_type: self.token_type,
            lexeme: self.lexeme@,
            literal: self.literal@,
            line_number: self.line_number,
        }
    }
}

/// The views of a sequence of tokens.
pub open spec fn tokens_view(tokens: Seq<Token>) -> Seq<TokenView> {
    tokens.map_values(|t: Token| t@)
}

impl View for Function {
    type V = Function;

    open spec fn view(&self) -> Function {
        *self
    }
}

impl View for Class {
    type V = ClassView;

    open spec fn view(&self) -> ClassView
        decreases self,
    {
        ClassView {
            name: self.name@,
            superclass: match self.superclass {
                Some(s) => Some(Box::new((*s)@)),
                None => None,
            },
            methods: self.methods@,
        }
    }
}

impl View for Callable {
    type V = CallableView;

    open spec fn view(&self) -> CallableView {
        match self {
            Callable::Class(c) => CallableView::Class((**c)@),
            Callable::Function(f) => CallableView::Function(*f),
            Callable::Native(n) => CallableView::Native(*n),
        }
    }
}

impl View for LoxCallable {
    type V = LoxCallableView;

    open spec fn view(&self) -> LoxCallableView {
        LoxCallableView { name: self.name@, callable: self.callable@ }
    }
}

impl View for Literal {
    type V = LiteralView;

    open spec fn view(&self) -> LiteralView {
        match self {
            Literal::Nil => LiteralView::Nil,
            Literal::Boolean(b) => LiteralView::Boolean(*b),
            Literal::Callable(c) => LiteralView::Callable(c@),
            Literal::ClassInstance(i) => LiteralView::ClassInstance(*i),
            Literal::Number(n) => LiteralView::Number(n@),
            Literal::String(s) => LiteralView::String(s@),
        }
    }
}

/// Another handle to the same shared value, by `Rc::clone`.
#[verifier::external_body]
pub(crate) fn share<T>(rc: &Rc<T>) -> (r: Rc<T>)
    ensures
        r == *rc,
{
    Rc::clone(rc)
}

impl ClassView {
    /// The method that a class has under `name`: its own, or else the one
    /// that the nearest class up the chain of superclasses has.
    pub open spec fn find_method(self, name: Seq<char>) -> Option<Function>
        decreases self,
    {
        if self.methods.contains_key(name) {
            Some(self.methods[name])
        } else {
            match self.superclass {
                Some(s) => s.find_method(name),
                None => None,
            }
        }
    }

    /// The number of arguments that creating an instance takes: those of
    /// the initializer, and none where the class has no initializer.
    pub open spec fn arity(self) -> nat {
        match self.find_method("init"@) {
            Some(f) => f.declaration.params@.len(),
            None => 0,
        }
    }
}

impl LoxCallableView {
    /// The number of arguments that a call takes.
    pub open spec fn arity(self) -> nat {
        match self.callable {
            CallableView::Class(c) => c.arity(),
            CallableView::Function(f) => f.declaration.params@.len(),
            CallableView::Native(_) => 0,
        }
    }
}

impl Function {
    /// A function with the environment it closes over.
    pub fn new(declaration: Rc<FunctionStmt>, env: EnvRef) -> (f: Function)
        ensures
            f == (Function { declaration, env, is_initializer: false }),
    {
        Function { declaration, env, is_initializer: false }
    }

    /// The initializer of a class with the environment it closes over.
    pub fn new_initializer(declaration: Rc<FunctionStmt>, env: EnvRef) -> (f: Function)
        ensures
            f == (Function { declaration, env, is_initializer: true }),
    {
        Function { declaration, env, is_initializer: true }
    }

    /// A copy that shares the declaration.
    pub fn clone(&self) -> (f: Function)
        ensures
            f == *self,
    {
        Function {
            declaration: share(&self.declaration),
            env: self.env,
            is_initializer: self.is_initializer,
        }
    }
}

impl Class {
    /// A class from its parts.
    pub fn new(name: String, superclass: Option<Rc<Class>>, methods: Table<Function>) -> (c: Class)
        ensures
            c == (Class { name, superclass, methods }),
    {
        Class { name, superclass, methods }
    }

    /// Looks a method up in the class and then up the chain of
    /// superclasses.
    pub fn find_method(&self, name: &str) -> (r: Option<Function>)
        ensures
            r == self@.find_method(name@),
        decreases self,
    {
        match self.methods.get(name) {
            Some(f) => Some(f.clone()),
            None => match &self.superclass {
                Some(s) => s.find_method(name),
                None => None,
            },
        }
    }
}

impl Callable {
    /// A copy that shares what can be shared.
    pub fn clone(&self) -> (c: Callable)
        ensures
            c == *self,
    {
        match self {
            Callable::Class(c) => Callable::Class(share(c)),
            Callable::Function(f) => Callable::Function(f.clone()),
            Callable::Native(n) => Callable::Native(*n),
        }
    }
}

impl LoxCallable {
    /// A callable under the name it was declared with.
    pub fn new(name: String, callable: Callable) -> (c: LoxCallable)
        ensures
            c == (LoxCallable { name, callable }),
    {
        LoxCallable { callable, name }
    }

    /// The number of arguments that a call takes.
    pub fn arity(&self) -> (n: usize)
        ensures
            n == self@.arity(),
    {
        match &self.callable {
            Callable::Class(class) => match class.find_method("init") {
                Some(method) => method.declaration.params.len(),
                None => 0,
            },
            Callable::Function(f) => f.declaration.params.len(),
            Callable::Native(_) => 0,
        }
    }

    /// A copy that shares what can be shared.
    pub fn clone(&self) -> (c: LoxCallable)
        ensures
            c == *self,
    {
        LoxCallable { name: self.name.clone(), callable: self.callable.clone() }
    }
}

impl Literal {
    /// A copy of the value. A copy of an instance is a second handle to
    /// the same instance.
    pub fn clone(&self) -> (v: Literal)
        ensures
            v == *self,
    {
        match self {
            Literal::Nil => Literal::Nil,
            Literal::Boolean(b) => Literal::Boolean(*b),
            Literal::Callable(c) => Literal::Callable(c.clone()),
            Literal::ClassInstance(i) => Literal::ClassInstance(*i),
            Literal::Number(n) => Literal::Number(*n),
            Literal::String(s) => Literal::String(s.clone()),
        }
    }
}

impl Token {
    /// A token from its parts.
    pub fn new(token_type: TokenType, lexeme: String, literal: Literal, line_number: usize) -> (t:
        Token)
        ensures
            t == (Token { token_type, lexeme, literal, line_number }),
    {
        Token { token_type, lexeme, literal, line_number }
    }

    /// A copy of the token.
    pub fn clone(&self) -> (t: Token)
        ensures
            t == *self,
    {
        Token {
            token_type: self.token_type,
            lexeme: self.lexeme.clone(),
            literal: self.literal.clone(),
            line_number: self.line_number,
        }
    }
}

} // verus!
