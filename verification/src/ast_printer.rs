//! A printer that shows how an expression was read, with every operator
//! and its operands in parentheses.

use vstd::prelude::*;
use crate::ast::Expr;
use crate::environment::{Heap, HeapView};
use crate::interpreter::value_text;
use crate::semantics::literal_text;
use crate::text::push_char;

verus! {

/// The text of the expressions of a list from position `i` on, each
/// behind a blank.
pub open spec fn printed_list(exprs: Vec<Expr>, i: nat) -> Seq<char>
    decreases exprs, exprs.len() - i,
{
    if i >= exprs.len() {
        Seq::empty()
    } else {
        " "@ + printed(exprs[i as int]) + printed_list(exprs, i + 1)
    }
}

/// A name and its operands in parentheses.
pub open spec fn parenthesized(name: Seq<char>, operands: Seq<char>) -> Seq<char> {
    "("@ + name + operands + ")"@
}

/// The text of an expression.
pub open spec fn printed(e: Expr) -> Seq<char>
    decreases e, 0nat,
{
    match e {
        Expr::Assign { name, value, .. } => parenthesized(
            "let "@ + name.lexeme@,
            " "@ + printed(*value),
        ),
        Expr::Binary { left, operator, right, .. } => parenthesized(
            operator.lexeme@,
            " "@ + printed(*left) + " "@ + printed(*right),
        ),
        Expr::Call { callee, arguments, .. } => parenthesized(
            printed(*callee),
            printed_list(arguments, 0),
        ),
        Expr::Get { object, name, .. } => printed(*object) + "."@ + name.lexeme@,
        Expr::Grouping { expression, .. } => parenthesized("group"@, " "@ + printed(*expression)),
        Expr::Literal { value, .. } => literal_text(HeapView::empty(), value@),
        Expr::Logical { left, operator, right, .. } => parenthesized(
            operator.lexeme@,
            " "@ + printed(*left) + " "@ + printed(*right),
        ),
        Expr::SetField { object, name, value, .. } => printed(*object) + "."@ + name.lexeme@ + " = "@
            + printed(*value),
        Expr::Super { method, .. } => "super."@ + method.lexeme@,
        Expr::This { keyword, .. } => keyword.lexeme@,
        Expr::Unary { operator, right, .. } => parenthesized(operator.lexeme@, " "@ + printed(*right)),
        Expr::Variable(v) => v.name.lexeme@,
    }
}

/// The printer.
pub struct AstPrinter;

impl AstPrinter {
    /// A printer.
    pub fn new() -> (p: AstPrinter) {
        AstPrinter
    }

    /// A name and the text of its operands in parentheses.
    pub fn parenthesize(&self, name: &str, operands: &str) -> (s: String)
        ensures
            s@ == parenthesized(name@, operands@),
    {
        let mut builder = String::new();
        push_char(&mut builder, '(');
        builder.append(name);
        builder.append(operands);
        push_char(&mut builder, ')');
        proof {
            reveal_strlit("(");
            reveal_strlit(")");
            assert(builder@ =~= parenthesized(name@, operands@));
        }
        builder
    }

    /// The text of the expressions of a list, each behind a blank.
    fn list(&self, exprs: &Vec<Expr>) -> (s: String)
        ensures
            s@ == printed_list(*exprs, 0),
        decreases exprs, 0nat,
    {
        let mut s = String::new();
        let mut i: usize = exprs.len();
        assert(printed_list(*exprs, exprs.len() as nat) =~= s@);
        while i > 0
            invariant
                i <= exprs.len(),
                s@ == printed_list(*exprs, i as nat),
            decreases i,
        {
            i -= 1;
            let mut t = String::from_str(" ");
            t.append(self.show(&exprs[i]).as_str());
            t.append(s.as_str());
            s = t;
        }
        s
    }

    /// The text of an expression.
    pub fn show(&self, expression: &Expr) -> (s: String)
        ensures
            s@ == printed(*expression),
        decreases expression, 1nat,
    {
        match expression {
            Expr::Assign { name, value, .. } => {
                let mut head = String::from_str("let ");
                head.append(name.lexeme.as_str());
                let mut operand = String::from_str(" ");
                operand.append(self.show(value).as_str());
                self.parenthesize(head.as_str(), operand.as_str())
            },
            Expr::Binary { left, operator, right, .. } => {
                let operands = self.operands(expression);
                self.parenthesize(operator.lexeme.as_str(), operands.as_str())
            },
            Expr::Call { callee, arguments, .. } => {
                let func = self.show(callee);
                let operands = self.list(arguments);
                self.parenthesize(func.as_str(), operands.as_str())
            },
            Expr::Get { object, name, .. } => {
                let mut s = self.show(object);
                s.append(".");
                s.append(name.lexeme.as_str());
                s
            },
            Expr::Grouping { expression: inner, .. } => {
                let mut operand = String::from_str(" ");
                operand.append(self.show(inner).as_str());
                self.parenthesize("group", operand.as_str())
            },
            Expr::Literal { value, .. } => {
                let heap = Heap::new();
                value_text(&heap, value)
            },
            Expr::Logical { left, operator, right, .. } => {
                let operands = self.operands(expression);
                self.parenthesize(operator.lexeme.as_str(), operands.as_str())
            },
            Expr::SetField { object, name, value, .. } => {
                let mut s = self.show(object);
                s.append(".");
                s.append(name.lexeme.as_str());
                s.append(" = ");
                s.append(self.show(value).as_str());
                s
            },
            Expr::Super { method, .. } => {
                let mut s = String::from_str("super.");
                s.append(method.lexeme.as_str());
                s
            },
            Expr::This { keyword, .. } => keyword.lexeme.clone(),
            Expr::Unary { operator, right, .. } => {
                let mut operand = String::from_str(" ");
                operand.append(self.show(right).as_str());
                self.parenthesize(operator.lexeme.as_str(), operand.as_str())
            },
            Expr::Variable(v) => v.name.lexeme.clone(),
        }
    }

    /// The text of the two operands of a binary or logical operator.
    fn operands(&self, expression: &Expr) -> (s: String)
        requires
            expression is Binary || expression is Logical,
        ensures
            expression matches Expr::Binary { left, right, .. } ==> s@ == " "@ + printed(**left) + " "@
                + printed(**right),
            expression matches Expr::Logical { left, right, .. } ==> s@ == " "@ + printed(**left)
                + " "@ + printed(**right),
        decreases expression, 0nat,
    {
        match expression {
            Expr::Binary { left, right, .. } => {
                let mut s = String::from_str(" ");
                s.append(self.show(left).as_str());
                s.append(" ");
                s.append(self.show(right).as_str());
                s
            },
            Expr::Logical { left, right, .. } => {
                let mut s = String::from_str(" ");
                s.append(self.show(left).as_str());
                s.append(" ");
                s.append(self.show(right).as_str());
                s
            },
            _ => vstd::pervasive::unreached(),
        }
    }
}

/// The text of an expression: `1 + 2 * 3` is shown as `(+ 1 (* 2 3))`.
pub fn print(expression: &Expr) -> (s: String)
    ensures
        s@ == printed(*expression),
{
    AstPrinter::new().show(expression)
}

} // verus!
