//! The scanner: it reads the characters of a source text into tokens.
//!
//! A lexical error does not stop the scan: the errors are collected, and
//! the scan gives either the tokens or all the errors.

use vstd::prelude::*;
use crate::number::{number_parse, Number};
use crate::text::{concat2, push_char, text_eq, texts};
use crate::tokens::{tokens_view, Literal, LiteralView, Token, TokenType, TokenView};

verus! {

/// The scanner: the source, where the token being read starts, the next
/// character, and the line.
pub struct Scanner {
    pub source: Vec<char>,
    pub start: usize,
    pub current: usize,
    pub line: usize,
}

/// The keyword that a word is, if it is one.
pub open spec fn keyword_kind(text: Seq<char>) -> Option<TokenType> {
    if text == "and"@ {
        Some(TokenType::And)
    } else if text == "class"@ {
        Some(TokenType::Class)
    } else if text == "else"@ {
        Some(TokenType::Else)
    } else if text == "false"@ {
        Some(TokenType::False)
    } else if text == "for"@ {
        Some(TokenType::For)
    } else if text == "fun"@ {
        Some(TokenType::Fun)
    } else if text == "if"@ {
        Some(TokenType::If)
    } else if text == "nil"@ {
        Some(TokenType::Nil)
    } else if text == "or"@ {
        Some(TokenType::Or)
    } else if text == "print"@ {
        Some(TokenType::Print)
    } else if text == "return"@ {
        Some(TokenType::Return)
    } else if text == "super"@ {
        Some(TokenType::Super)
    } else if text == "this"@ {
        Some(TokenType::This)
    } else if text == "true"@ {
        Some(TokenType::True)
    } else if text == "var"@ {
        Some(TokenType::Var)
    } else if text == "while"@ {
        Some(TokenType::While)
    } else {
        None
    }
}

/// The keyword that a word is, if it is one.
pub fn keyword(text: &str) -> (r: Option<TokenType>)
    ensures
        r == keyword_kind(text@),
{
    if text_eq(text, "and") {
        Some(TokenType::And)
    } else if text_eq(text, "class") {
        Some(TokenType::Class)
    } else if text_eq(text, "else") {
        Some(TokenType::Else)
    } else if text_eq(text, "false") {
        Some(TokenType::False)
    } else if text_eq(text, "for") {
        Some(TokenType::For)
    } else if text_eq(text, "fun") {
        Some(TokenType::Fun)
    } else if text_eq(text, "if") {
        Some(TokenType::If)
    } else if text_eq(text, "nil") {
        Some(TokenType::Nil)
    } else if text_eq(text, "or") {
        Some(TokenType::Or)
    } else if text_eq(text, "print") {
        Some(TokenType::Print)
    } else if text_eq(text, "return") {
        Some(TokenType::Return)
    } else if text_eq(text, "super") {
        Some(TokenType::Super)
    } else if text_eq(text, "this") {
        Some(TokenType::This)
    } else if text_eq(text, "true") {
        Some(TokenType::True)
    } else if text_eq(text, "var") {
        Some(TokenType::Var)
    } else if text_eq(text, "while") {
        Some(TokenType::While)
    } else {
        None
    }
}

/// Whether a character is a decimal digit.
pub open spec fn digit(c: char) -> bool {
    '0' <= c && c <= '9'
}

/// Whether a character is a letter or an underscore.
pub open spec fn alpha(c: char) -> bool {
    ('a' <= c && c <= 'z') || ('A' <= c && c <= 'Z') || c == '_'
}

/// Whether a character is a letter, an underscore or a digit.
pub open spec fn alpha_numeric(c: char) -> bool {
    alpha(c) || digit(c)
}

/// The character at `pos`; the null character behind the end.
pub open spec fn char_at(source: Seq<char>, pos: nat) -> char {
    if pos < source.len() {
        source[pos as int]
    } else {
        '\0'
    }
}

/// The first position at or behind `pos` whose character is not a digit.
pub open spec fn digits_end(source: Seq<char>, pos: nat) -> nat
    decreases source.len() - pos,
{
    if pos < source.len() && digit(source[pos as int]) {
        digits_end(source, pos + 1)
    } else {
        pos
    }
}

/// The first position at or behind `pos` whose character is neither a
/// letter nor a digit.
pub open spec fn word_end(source: Seq<char>, pos: nat) -> nat
    decreases source.len() - pos,
{
    if pos < source.len() && alpha_numeric(source[pos as int]) {
        word_end(source, pos + 1)
    } else {
        pos
    }
}

/// The first position at or behind `pos` that holds `stop`, or the end.
pub open spec fn find(source: Seq<char>, pos: nat, stop: char) -> nat
    decreases source.len() - pos,
{
    if pos < source.len() && source[pos as int] != stop {
        find(source, pos + 1, stop)
    } else {
        pos
    }
}

/// The line after one more line break.
pub open spec fn next_line(line: nat) -> nat {
    if line < usize::MAX {
        line + 1
    } else {
        line
    }
}

/// The line at `to`, where `from` stands on `line`.
pub open spec fn line_at(source: Seq<char>, from: nat, to: nat, line: nat) -> nat
    decreases to,
{
    if to <= from || to > source.len() {
        line
    } else if source[to - 1] == '\n' {
        next_line(line_at(source, from, (to - 1) as nat, line))
    } else {
        line_at(source, from, (to - 1) as nat, line)
    }
}

/// What reading one token gives.
pub enum Lexed {
    /// A token of this kind and value.
    Token(TokenType, LiteralView),
    /// Nothing: white space or a comment.
    Skip,
    /// An error, with its text.
    Error(Seq<char>),
}

/// What reading one token gives, and where the scanner stands after it.
pub struct ScanStep {
    pub lexed: Lexed,
    pub current: nat,
    pub line: nat,
}

/// A token without a value.
pub open spec fn plain(kind: TokenType, current: nat, line: nat) -> ScanStep {
    ScanStep { lexed: Lexed::Token(kind, LiteralView::Nil), current, line }
}

/// A token of one character, or of two where `=` follows.
pub open spec fn with_equal(source: Seq<char>, start: nat, line: nat, one: TokenType, two: TokenType) -> ScanStep {
    if char_at(source, start + 1) == '=' {
        plain(two, start + 2, line)
    } else {
        plain(one, start + 1, line)
    }
}

/// The end of a number that starts at `start`: digits, and behind them a
/// point with more digits, if a digit follows the point.
pub open spec fn number_end(source: Seq<char>, start: nat) -> nat {
    let whole = digits_end(source, start);
    if char_at(source, whole) == '.' && digit(char_at(source, whole + 1)) {
        digits_end(source, whole + 1)
    } else {
        whole
    }
}

/// Reading the token that starts at `start`, on line `line`.
pub open spec fn scan_token(source: Seq<char>, start: nat, line: nat) -> ScanStep {
    let c = char_at(source, start);
    let next = start + 1;
    if c == '(' {
        plain(TokenType::LeftParen, next, line)
    } else if c == ')' {
        plain(TokenType::RightParen, next, line)
    } else if c == '{' {
        plain(TokenType::LeftBrace, next, line)
    } else if c == '}' {
        plain(TokenType::RightBrace, next, line)
    } else if c == ',' {
        plain(TokenType::Comma, next, line)
    } else if c == '.' {
        plain(TokenType::Dot, next, line)
    } else if c == '-' {
        plain(TokenType::Minus, next, line)
    } else if c == '+' {
        plain(TokenType::Plus, next, line)
    } else if c == ';' {
        plain(TokenType::Semicolon, next, line)
    } else if c == '*' {
        plain(TokenType::Star, next, line)
    } else if c == '!' {
        with_equal(source, start, line, TokenType::Bang, TokenType::BangEqual)
    } else if c == '=' {
        with_equal(source, start, line, TokenType::Equal, TokenType::EqualEqual)
    } else if c == '<' {
        with_equal(source, start, line, TokenType::Less, TokenType::LessEqual)
    } else if c == '>' {
        with_equal(source, start, line, TokenType::Greater, TokenType::GreaterEqual)
    } else if c == '/' {
        if char_at(source, next) == '/' {
            ScanStep { lexed: Lexed::Skip, current: find(source, start + 2, '\n'), line }
        } else {
            plain(TokenType::Slash, next, line)
        }
    } else if c == ' ' || c == '\r' || c == '\t' {
        ScanStep { lexed: Lexed::Skip, current: next, line }
    } else if c == '\n' {
        ScanStep { lexed: Lexed::Skip, current: next, line: next_line(line) }
    } else if c == '"' {
        let close = find(source, next, '"');
        if close >= source.len() {
            ScanStep {
                lexed: Lexed::Error("unterminated string"@),
                current: close,
                line: line_at(source, next, close, line),
            }
        } else {
            ScanStep {
                lexed: Lexed::Token(
                    TokenType::String,
                    LiteralView::String(source.subrange(next as int, close as int)),
                ),
                current: close + 1,
                line: line_at(source, next, close, line),
            }
        }
    } else if digit(c) {
        let end = number_end(source, next);
        let text = source.subrange(start as int, end as int);
        ScanStep {
            lexed: match number_parse(text) {
                Some(n) => Lexed::Token(TokenType::Number, LiteralView::Number(n)),
                None => Lexed::Error("Failed to parse number: "@ + text),
            },
            current: end,
            line,
        }
    } else if alpha(c) {
        let end = word_end(source, next);
        ScanStep {
            lexed: match keyword_kind(source.subrange(start as int, end as int)) {
                Some(kind) => Lexed::Token(kind, LiteralView::Nil),
                None => Lexed::Token(TokenType::Identifier, LiteralView::Nil),
            },
            current: end,
            line,
        }
    } else {
        ScanStep { lexed: Lexed::Error("Unexpected charater: "@.push(c)), current: next, line }
    }
}

/// What a scan gives: the tokens and the errors.
pub struct Scanned {
    pub tokens: Seq<TokenView>,
    pub errors: Seq<Seq<char>>,
}

/// The token that ends the input. Its text is that of what was read
/// last.
pub open spec fn end_token(source: Seq<char>, start: nat, line: nat) -> TokenView {
    TokenView {
        token_type: TokenType::Eof,
        lexeme: source.subrange(start as int, source.len() as int),
        literal: LiteralView::Nil,
        line_number: line as usize,
    }
}

/// Scanning from `pos` on, after the tokens and errors in `done`;
/// `start` is where the token read last began.
pub open spec fn scan_from(source: Seq<char>, start: nat, pos: nat, line: nat, done: Scanned) -> Scanned
    decreases source.len() - pos,
{
    if pos >= source.len() {
        Scanned { tokens: done.tokens.push(end_token(source, start, line)), ..done }
    } else {
        let step = scan_token(source, pos, line);
        if pos < step.current <= source.len() {
            let next = match step.lexed {
                Lexed::Token(kind, literal) => Scanned {
                    tokens: done.tokens.push(
                        TokenView {
                            token_type: kind,
                            lexeme: source.subrange(pos as int, step.current as int),
                            literal,
                            line_number: step.line as usize,
                        },
                    ),
                    ..done
                },
                Lexed::Skip => done,
                Lexed::Error(text) => Scanned { errors: done.errors.push(text), ..done },
            };
            scan_from(source, pos, step.current, step.line, next)
        } else {
            done
        }
    }
}

/// Where scanning from `pos` on leaves off: the start of the token read
/// last, and the line.
pub open spec fn scan_end(source: Seq<char>, start: nat, pos: nat, line: nat) -> (nat, nat)
    decreases source.len() - pos,
{
    if pos >= source.len() {
        (start, line)
    } else {
        let step = scan_token(source, pos, line);
        if pos < step.current <= source.len() {
            scan_end(source, pos, step.current, step.line)
        } else {
            (start, line)
        }
    }
}

/// The tokens of a source text, with the end marker behind them, and the
/// lexical errors.
pub open spec fn scan(source: Seq<char>) -> Scanned {
    scan_from(source, 0, 0, 1, Scanned { tokens: Seq::empty(), errors: Seq::empty() })
}

/// The characters of a text.
pub fn characters(text: &str) -> (v: Vec<char>)
    ensures
        v@ == text@,
{
    broadcast use vstd::string::group_string_axioms;

    let mut v: Vec<char> = Vec::new();
    for c in iter: text.chars()
        invariant
            iter.seq() == text@,
            v@ == iter.seq().take(iter.index() as int),
    {
        v.push(c);
        assert(v@ =~= iter.seq().take(iter.index() + 1));
    }
    assert(v@ =~= text@);
    v
}

/// Whether what a step of the scanner gave is what its definition
/// says, for a token that began at `start`.
pub open spec fn lexed_as(source: Seq<char>, start: nat, step: ScanStep, r: Result<Option<Token>, String>) -> bool {
    match step.lexed {
        Lexed::Token(kind, literal) => r matches Ok(Some(t)) && t@ == (TokenView {
            token_type: kind,
            lexeme: source.subrange(start as int, step.current as int),
            literal,
            line_number: step.line as usize,
        }),
        Lexed::Skip => r matches Ok(None),
        Lexed::Error(text) => r matches Err(s) && s@ == text,
    }
}

impl Scanner {
    /// The token being read starts within the source, and the next
    /// character lies behind its start.
    pub open spec fn wf(&self) -> bool {
        self.start <= self.current <= self.source@.len()
    }

    /// A scanner at the start of `source`.
    pub fn new(source: &str) -> (s: Scanner)
        ensures
            s.wf(),
            s.source@ == source@,
            s.start == 0,
            s.current == 0,
            s.line == 1,
    {
        Scanner { source: characters(source), start: 0, current: 0, line: 1 }
    }

    /// Whether the source has ended.
    fn is_at_end(&self) -> (r: bool)
        ensures
            r == (self.current >= self.source@.len()),
    {
        self.current >= self.source.len()
    }

    /// The next character; the null character at the end.
    fn peek(&self) -> (c: char)
        ensures
            c == char_at(self.source@, self.current as nat),
    {
        if self.current < self.source.len() {
            self.source[self.current]
        } else {
            '\0'
        }
    }

    /// The character behind the next one; the null character at the end.
    fn peek_next(&self) -> (c: char)
        ensures
            c == char_at(self.source@, self.current as nat + 1),
    {
        if self.current < self.source.len() && self.current + 1 < self.source.len() {
            self.source[self.current + 1]
        } else {
            '\0'
        }
    }

    /// Reads the next character.
    fn advance(&mut self) -> (c: char)
        requires
            old(self).current < old(self).source@.len(),
        ensures
            c == old(self).source@[old(self).current as int],
            final(self).current == old(self).current + 1,
            final(self).start == old(self).start,
            final(self).line == old(self).line,
            final(self).source == old(self).source,
    {
        assert(self.current < self.source.len());
        let value = self.source[self.current];
        self.current += 1;
        value
    }

    /// Whether a character is a decimal digit.
    fn is_digit(&self, c: char) -> (r: bool)
        ensures
            r == digit(c),
    {
        '0' <= c && c <= '9'
    }

    /// Whether a character is a letter or an underscore.
    fn is_alpha(&self, c: char) -> (r: bool)
        ensures
            r == alpha(c),
    {
        ('a' <= c && c <= 'z') || ('A' <= c && c <= 'Z') || c == '_'
    }

    /// Whether a character is a letter, an underscore or a digit.
    fn is_alpha_numeric(&self, c: char) -> (r: bool)
        ensures
            r == alpha_numeric(c),
    {
        self.is_alpha(c) || self.is_digit(c)
    }

    /// The characters from `from` up to, not with, `to`.
    fn text(&self, from: usize, to: usize) -> (s: String)
        requires
            from <= to <= self.source@.len(),
        ensures
            s@ == self.source@.subrange(from as int, to as int),
    {
        let mut s = String::new();
        let mut i = from;
        while i < to
            invariant
                from <= i <= to <= self.source@.len(),
                s@ == self.source@.subrange(from as int, i as int),
            decreases to - i,
        {
            push_char(&mut s, self.source[i]);
            assert(s@ =~= self.source@.subrange(from as int, i + 1));
            i += 1;
        }
        s
    }

    /// A token of the text read since `start`.
    fn new_token(&self, token_type: TokenType, literal: Literal) -> (t: Token)
        requires
            self.wf(),
        ensures
            t@ == (TokenView {
                token_type,
                lexeme: self.source@.subrange(self.start as int, self.current as int),
                literal: literal@,
                line_number: self.line,
            }),
    {
        Token::new(token_type, self.text(self.start, self.current), literal, self.line)
    }

    /// Reads on to the next `stop` or to the end, and counts the lines.
    fn skip_to(&mut self, stop: char)
        requires
            old(self).wf(),
        ensures
            final(self).wf(),
            final(self).source == old(self).source,
            final(self).start == old(self).start,
            final(self).current >= old(self).current,
            final(self).current == find(old(self).source@, old(self).current as nat, stop),
            final(self).line == line_at(
                old(self).source@,
                old(self).current as nat,
                final(self).current as nat,
                old(self).line as nat,
            ),
    {
        while !self.is_at_end() && self.peek() != stop
            invariant
                self.wf(),
                self.source == old(self).source,
                self.start == old(self).start,
                old(self).current <= self.current,
                find(old(self).source@, old(self).current as nat, stop) == find(
                    self.source@,
                    self.current as nat,
                    stop,
                ),
                self.line == line_at(
                    old(self).source@,
                    old(self).current as nat,
                    self.current as nat,
                    old(self).line as nat,
                ),
            decreases self.source@.len() - self.current,
        {
            if self.peek() == '\n' && self.line < usize::MAX {
                self.line += 1;
            }
            self.advance();
        }
    }

    /// Reads on over digits.
    fn skip_digits(&mut self)
        requires
            old(self).wf(),
        ensures
            final(self).wf(),
            final(self).source == old(self).source,
            final(self).start == old(self).start,
            final(self).line == old(self).line,
            final(self).current >= old(self).current,
            final(self).current == digits_end(old(self).source@, old(self).current as nat),
    {
        while !self.is_at_end() && self.is_digit(self.peek())
            invariant
                self.wf(),
                self.source == old(self).source,
                self.start == old(self).start,
                self.line == old(self).line,
                self.current >= old(self).current,
                digits_end(old(self).source@, old(self).current as nat) == digits_end(
                    self.source@,
                    self.current as nat,
                ),
            decreases self.source@.len() - self.current,
        {
            self.advance();
        }
    }

    /// Reads a string, from behind its opening quote.
    fn parse_string(&mut self) -> (r: Result<Option<Token>, String>)
        requires
            old(self).wf(),
            old(self).current == old(self).start + 1,
            old(self).source@[old(self).start as int] == '"',
        ensures
            final(self).wf(),
            final(self).source == old(self).source,
            final(self).start == old(self).start,
            final(self).current > old(self).start,
            ({
                let step = scan_token(old(self).source@, old(self).start as nat, old(self).line as nat);
                &&& final(self).current == step.current
                &&& final(self).line == step.line
                &&& lexed_as(old(self).source@, old(self).start as nat, step, r)
            }),
    {
        self.skip_to('"');
        if self.is_at_end() {
            return Err(String::from_str("unterminated string"));
        }
        self.advance();
        let value = self.text(self.start + 1, self.current - 1);
        Ok(Some(self.new_token(TokenType::String, Literal::String(value))))
    }

    /// Reads a number, from behind its first digit.
    fn parse_number(&mut self) -> (r: Result<Option<Token>, String>)
        requires
            old(self).wf(),
            old(self).current == old(self).start + 1,
            digit(old(self).source@[old(self).start as int]),
        ensures
            final(self).wf(),
            final(self).source == old(self).source,
            final(self).start == old(self).start,
            final(self).current > old(self).start,
            ({
                let step = scan_token(old(self).source@, old(self).start as nat, old(self).line as nat);
                &&& final(self).current == step.current
                &&& final(self).line == step.line
                &&& lexed_as(old(self).source@, old(self).start as nat, step, r)
            }),
    {
        self.skip_digits();
        if self.peek() == '.' && self.is_digit(self.peek_next()) {
            self.advance();
            self.skip_digits();
        }
        let text = self.text(self.start, self.current);
        let parsed = Number::from_text(text.as_str());
        self.number_token(text.as_str(), parsed)
    }

    /// The token for a number whose text is `text`, where `parsed` is
    /// what reading the text as a number gave: the number token, or an
    /// error where it gave none.
    pub fn number_token(&self, text: &str, parsed: Option<Number>) -> (r: Result<Option<Token>, String>)
        requires
            self.wf(),
        ensures
            match parsed {
                Some(n) => r matches Ok(Some(t)) && t@ == (TokenView {
                    token_type: TokenType::Number,
                    lexeme: self.source@.subrange(self.start as int, self.current as int),
                    literal: LiteralView::Number(n@),
                    line_number: self.line,
                }),
                None => r matches Err(s) && s@ == "Failed to parse number: "@ + text@,
            },
    {
        match parsed {
            Some(n) => Ok(Some(self.new_token(TokenType::Number, Literal::Number(n)))),
            None => Err(concat2("Failed to parse number: ", text)),
        }
    }

    /// Reads a word, from behind its first character: a keyword or an
    /// identifier.
    fn parse_identifier(&mut self) -> (r: Result<Option<Token>, String>)
        requires
            old(self).wf(),
            old(self).current == old(self).start + 1,
            alpha(old(self).source@[old(self).start as int]),
            !digit(old(self).source@[old(self).start as int]),
        ensures
            final(self).wf(),
            final(self).source == old(self).source,
            final(self).start == old(self).start,
            final(self).current > old(self).start,
            ({
                let step = scan_token(old(self).source@, old(self).start as nat, old(self).line as nat);
                &&& final(self).current == step.current
                &&& final(self).line == step.line
                &&& lexed_as(old(self).source@, old(self).start as nat, step, r)
            }),
    {
        while !self.is_at_end() && self.is_alpha_numeric(self.peek())
            invariant
                self.wf(),
                self.source == old(self).source,
                self.start == old(self).start,
                self.line == old(self).line,
                self.current > self.start,
                word_end(old(self).source@, old(self).current as nat) == word_end(
                    self.source@,
                    self.current as nat,
                ),
            decreases self.source@.len() - self.current,
        {
            self.advance();
        }
        let text = self.text(self.start, self.current);
        let token = match keyword(text.as_str()) {
            Some(token_type) => self.new_token(token_type, Literal::Nil),
            None => self.new_token(TokenType::Identifier, Literal::Nil),
        };
        Ok(Some(token))
    }

    /// A token of one character, or of two where `=` follows.
    fn one_or_two(&mut self, one: TokenType, two: TokenType) -> (r: Result<Option<Token>, String>)
        requires
            old(self).wf(),
            old(self).current == old(self).start + 1,
        ensures
            final(self).wf(),
            final(self).source == old(self).source,
            final(self).start == old(self).start,
            final(self).current > old(self).start,
            ({
                let step = with_equal(
                    old(self).source@,
                    old(self).start as nat,
                    old(self).line as nat,
                    one,
                    two,
                );
                &&& final(self).current == step.current
                &&& final(self).line == step.line
                &&& lexed_as(old(self).source@, old(self).start as nat, step, r)
            }),
    {
        if self.peek() == '=' {
            self.advance();
            Ok(Some(self.new_token(two, Literal::Nil)))
        } else {
            Ok(Some(self.new_token(one, Literal::Nil)))
        }
    }

    /// Reads one token, or passes over white space or a comment.
    fn scan_token(&mut self) -> (r: Result<Option<Token>, String>)
        requires
            old(self).wf(),
            old(self).start == old(self).current,
            old(self).current < old(self).source@.len(),
        ensures
            final(self).wf(),
            final(self).source == old(self).source,
            final(self).start == old(self).start,
            final(self).current > old(self).start,
            ({
                let step = scan_token(old(self).source@, old(self).start as nat, old(self).line as nat);
                &&& final(self).current == step.current
                &&& final(self).line == step.line
                &&& lexed_as(old(self).source@, old(self).start as nat, step, r)
            }),
    {
        let c = self.advance();
        if c == '(' {
            Ok(Some(self.new_token(TokenType::LeftParen, Literal::Nil)))
        } else if c == ')' {
            Ok(Some(self.new_token(TokenType::RightParen, Literal::Nil)))
        } else if c == '{' {
            Ok(Some(self.new_token(TokenType::LeftBrace, Literal::Nil)))
        } else if c == '}' {
            Ok(Some(self.new_token(TokenType::RightBrace, Literal::Nil)))
        } else if c == ',' {
            Ok(Some(self.new_token(TokenType::Comma, Literal::Nil)))
        } else if c == '.' {
            Ok(Some(self.new_token(TokenType::Dot, Literal::Nil)))
        } else if c == '-' {
            Ok(Some(self.new_token(TokenType::Minus, Literal::Nil)))
        } else if c == '+' {
            Ok(Some(self.new_token(TokenType::Plus, Literal::Nil)))
        } else if c == ';' {
            Ok(Some(self.new_token(TokenType::Semicolon, Literal::Nil)))
        } else if c == '*' {
            Ok(Some(self.new_token(TokenType::Star, Literal::Nil)))
        } else if c == '!' {
            self.one_or_two(TokenType::Bang, TokenType::BangEqual)
        } else if c == '=' {
            self.one_or_two(TokenType::Equal, TokenType::EqualEqual)
        } else if c == '<' {
            self.one_or_two(TokenType::Less, TokenType::LessEqual)
        } else if c == '>' {
            self.one_or_two(TokenType::Greater, TokenType::GreaterEqual)
        } else if c == '/' {
            if self.peek() == '/' {
                self.advance();
                let line = self.line;
                self.skip_to('\n');
                self.line = line;
                Ok(None)
            } else {
                Ok(Some(self.new_token(TokenType::Slash, Literal::Nil)))
            }
        } else if c == ' ' || c == '\r' || c == '\t' {
            Ok(None)
        } else if c == '\n' {
            if self.line < usize::MAX {
                self.line += 1;
            }
            Ok(None)
        } else if c == '"' {
            self.parse_string()
        } else if self.is_digit(c) {
            self.parse_number()
        } else if self.is_alpha(c) {
            self.parse_identifier()
        } else {
            let mut s = String::from_str("Unexpected charater: ");
            push_char(&mut s, c);
            Err(s)
        }
    }

    /// Reads the whole source: the tokens with the end marker behind
    /// them, or all the lexical errors. The scanner is left at the end of
    /// the source, on the token read last.
    pub fn scan_tokens(&mut self) -> (r: Result<Vec<Token>, Vec<String>>)
        requires
            old(self).wf(),
        ensures
            final(self).source == old(self).source,
            final(self).current == old(self).source@.len(),
            (final(self).start as nat, final(self).line as nat) == scan_end(
                old(self).source@,
                old(self).start as nat,
                old(self).current as nat,
                old(self).line as nat,
            ),
            ({
                let all = scan_from(
                    old(self).source@,
                    old(self).start as nat,
                    old(self).current as nat,
                    old(self).line as nat,
                    Scanned { tokens: Seq::empty(), errors: Seq::empty() },
                );
                if all.errors.len() == 0 {
                    r matches Ok(tokens) && tokens_view(tokens@) == all.tokens
                } else {
                    r matches Err(errors) && texts(errors@) == all.errors
                }
            }),
    {
        let mut tokens: Vec<Token> = Vec::new();
        let mut errors: Vec<String> = Vec::new();
        assert(tokens_view(tokens@) =~= Seq::empty());
        assert(texts(errors@) =~= Seq::empty());
        while !self.is_at_end()
            invariant
                self.wf(),
                self.source == old(self).source,
                scan_from(
                    old(self).source@,
                    old(self).start as nat,
                    old(self).current as nat,
                    old(self).line as nat,
                    Scanned { tokens: Seq::empty(), errors: Seq::empty() },
                ) == scan_from(
                    self.source@,
                    self.start as nat,
                    self.current as nat,
                    self.line as nat,
                    Scanned { tokens: tokens_view(tokens@), errors: texts(errors@) },
                ),
                scan_end(
                    old(self).source@,
                    old(self).start as nat,
                    old(self).current as nat,
                    old(self).line as nat,
                ) == scan_end(
                    self.source@,
                    self.start as nat,
                    self.current as nat,
                    self.line as nat,
                ),
            decreases self.source@.len() - self.current,
        {
            self.start = self.current;
            let ghost seen = tokens_view(tokens@);
            let ghost failed = texts(errors@);
            match self.scan_token() {
                Ok(None) => {},
                Ok(Some(token)) => {
                    tokens.push(token);
                    assert(tokens_view(tokens@) =~= seen.push(token@));
                },
                Err(error) => {
                    errors.push(error);
                    assert(texts(errors@) =~= failed.push(error@));
                },
            }
        }
        let ghost seen = tokens_view(tokens@);
        let end = self.new_token(TokenType::Eof, Literal::Nil);
        tokens.push(end);
        assert(tokens_view(tokens@) =~= seen.push(end@));
        if errors.len() == 0 {
            Ok(tokens)
        } else {
            Err(errors)
        }
    }
}

/// The tokens of a source text.
pub struct Tokens(pub Vec<Token>);

impl Tokens {
    /// Scans a source text: its tokens, or all its lexical errors.
    pub fn from_str(s: &str) -> (r: Result<Tokens, Vec<String>>)
        ensures
            if scan(s@).errors.len() == 0 {
                r matches Ok(tokens) && tokens_view(tokens.0@) == scan(s@).tokens
            } else {
                r matches Err(errors) && texts(errors@) == scan(s@).errors
            },
    {
        let mut scanner = Scanner::new(s);
        match scanner.scan_tokens() {
            Ok(tokens) => Ok(Tokens(tokens)),
            Err(errors) => Err(errors),
        }
    }

    /// The tokens as a vector.
    pub fn into(self) -> (v: Vec<Token>)
        ensures
            v == self.0,
    {
        self.0
    }
}

} // verus!
