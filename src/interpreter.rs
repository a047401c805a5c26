use vstd::prelude::*;
use vstd::string::*;

use crate::error::GloxError;
use crate::expr::{Binary, Expr, Grouping, LiteralExpr, Unary};
use crate::token::{Literal, Number, TokenType, Value};

verus! {

/// Truthiness: `nil` and `false` are falsy, every other value is truthy.
pub open spec fn truthy(v: Value) -> bool {
    match v {
        Value::Nil => false,
        Value::Bool(b) => b,
        _ => true,
    }
}

/// Structural equality: same-type values compare by value, numbers as
/// rationals; values of different types are unequal.
pub open spec fn values_equal(a: Value, b: Value) -> bool {
    match (a, b) {
        (Value::Number(n1, d1), Value::Number(n2, d2)) => n1 * d2 == n2 * d1,
        (Value::Str(x), Value::Str(y)) => x == y,
        (Value::Bool(x), Value::Bool(y)) => x == y,
        (Value::Nil, Value::Nil) => true,
        _ => false,
    }
}

/// A number value, when its fraction fits the representation.
pub open spec fn number_value(n: int, d: int) -> Option<Value> {
    if Number::fits(n, d) {
        Some(Value::Number(n, d))
    } else {
        None
    }
}

/// The result of a unary operator on a value; `None` is a runtime error.
pub open spec fn unary_value(op: TokenType, v: Value) -> Option<Value> {
    match op {
        TokenType::Minus => match v {
            Value::Number(n, d) => number_value(-n, d),
            _ => None,
        },
        TokenType::Bang => Some(Value::Bool(!truthy(v))),
        _ => None,
    }
}

/// The result of a binary operator on two values; `None` is a runtime error.
/// Numbers are exact fractions of i64 parts, not floating-point values: a
/// division by zero, or a result whose numerator or denominator leaves the
/// i64 range, is a runtime error where floating point would give an
/// infinity, a NaN or a rounded value.
pub open spec fn binary_value(op: TokenType, l: Value, r: Value) -> Option<Value> {
    match op {
        TokenType::BangEqual => Some(Value::Bool(!values_equal(l, r))),
        TokenType::EqualEqual => Some(Value::Bool(values_equal(l, r))),
        TokenType::Plus => match (l, r) {
            (Value::Number(a, b), Value::Number(c, d)) => number_value(a * d + c * b, b * d),
            (Value::Str(x), Value::Str(y)) => Some(Value::Str(x + y)),
            _ => None,
        },
        _ => match (l, r) {
            (Value::Number(a, b), Value::Number(c, d)) => match op {
                TokenType::Minus => number_value(a * d - c * b, b * d),
                TokenType::Star => number_value(a * c, b * d),
                TokenType::Slash => if c > 0 {
                    number_value(a * d, b * c)
                } else if c < 0 {
                    number_value(-(a * d), b * -c)
                } else {
                    None
                },
                TokenType::Greater => Some(Value::Bool(c * b < a * d)),
                TokenType::GreaterEqual => Some(Value::Bool(!(a * d < c * b))),
                TokenType::Less => Some(Value::Bool(a * d < c * b)),
                TokenType::LessEqual => Some(Value::Bool(!(c * b < a * d))),
                _ => None,
            },
            _ => None,
        },
    }
}

/// The value of an expression; `None` when evaluation ends in a runtime
/// error. Operands are evaluated left first, and an error stops the walk.
pub open spec fn eval(e: Expr) -> Option<Value>
    decreases e,
{
    match e {
        Expr::Literal(l) => Some(l.value@),
        Expr::Grouping(g) => eval(*g.expression),
        Expr::Unary(u) => match eval(*u.right) {
            Some(v) => unary_value(u.operator.token_type, v),
            None => None,
        },
        Expr::Binary(b) => match eval(*b.left) {
            Some(l) => match eval(*b.right) {
                Some(r) => binary_value(b.operator.token_type, l, r),
                None => None,
            },
            None => None,
        },
    }
}

/// Whether an evaluation result agrees with a spec outcome: a value for
/// `Some`, a runtime error for `None`.
pub open spec fn agrees(r: Result<Literal, GloxError>, o: Option<Value>) -> bool {
    match r {
        Ok(v) => o == Some(v@),
        Err(e) => o is None && e is RuntimeError,
    }
}

/// Whether two values are of the same type.
pub open spec fn same_type(a: Value, b: Value) -> bool {
    match (a, b) {
        (Value::Number(_, _), Value::Number(_, _)) => true,
        (Value::Str(_), Value::Str(_)) => true,
        (Value::Bool(_), Value::Bool(_)) => true,
        (Value::Nil, Value::Nil) => true,
        _ => false,
    }
}

/// `==` and `!=` never fail once both operands have a value: they give a
/// Boolean, and `==` on values of different types gives `false`.
pub proof fn law_equality_never_fails(e: Expr)
    requires
        e matches Expr::Binary(b) && (b.operator.token_type == TokenType::EqualEqual
            || b.operator.token_type == TokenType::BangEqual),
        e matches Expr::Binary(b) && eval(*b.left) is Some && eval(*b.right) is Some,
    ensures
        eval(e) matches Some(Value::Bool(_)),
        e matches Expr::Binary(b) && b.operator.token_type == TokenType::EqualEqual && !same_type(
            eval(*b.left)->0,
            eval(*b.right)->0,
        ) ==> eval(e) == Some(Value::Bool(false)),
{
}

/// `+` fails unless both operands are numbers or both are strings; `-`,
/// `*`, `/` and the comparisons fail unless both are numbers.
pub proof fn law_type_mismatch(op: TokenType, l: Value, r: Value)
    ensures
        op == TokenType::Plus && !(l is Number && r is Number) && !(l is Str && r is Str)
            ==> binary_value(op, l, r) is None,
        (op == TokenType::Minus || op == TokenType::Star || op == TokenType::Slash || op
            == TokenType::Greater || op == TokenType::GreaterEqual || op == TokenType::Less || op
            == TokenType::LessEqual) && !(l is Number && r is Number) ==> binary_value(op, l, r) is None,
{
}

/// `!` is the negation of truthiness: `nil` and `false` are falsy, every
/// other value, zero and the empty string included, is truthy.
pub proof fn law_not_is_falsiness(v: Value)
    ensures
        unary_value(TokenType::Bang, v) == Some(Value::Bool(!truthy(v))),
        truthy(v) <==> !(v is Nil || v == Value::Bool(false)),
{
}

/// A literal evaluates to exactly its own value, every time.
pub proof fn law_literal_is_its_value(l: Literal)
    ensures
        eval(Expr::Literal(LiteralExpr { value: l })) == Some(l@),
{
}

/// One method per form of expression; each gives the value of its node.
pub trait Visitor {
    fn visit_literal(&self, expr: &LiteralExpr) -> (r: Result<Literal, GloxError>)
        ensures
            agrees(r, eval(Expr::Literal(*expr))),
    ;

    fn visit_grouping(&self, expr: &Grouping) -> (r: Result<Literal, GloxError>)
        ensures
            agrees(r, eval(Expr::Grouping(*expr))),
    ;

    fn visit_unary(&self, expr: &Unary) -> (r: Result<Literal, GloxError>)
        ensures
            agrees(r, eval(Expr::Unary(*expr))),
    ;

    fn visit_binary(&self, expr: &Binary) -> (r: Result<Literal, GloxError>)
        ensures
            agrees(r, eval(Expr::Binary(*expr))),
    ;
}

/// A stateless evaluator of expression trees.
#[derive(Debug, Clone, Copy)]
pub struct Interpreter {}

fn runtime_error(msg: &str) -> (r: GloxError)
    ensures
        r is RuntimeError,
{
    GloxError::RuntimeError(String::from_str(msg))
}

fn number_result(n: Option<Number>, msg: &str) -> (r: Result<Literal, GloxError>)
    ensures
        n matches Some(x) ==> r == Ok::<Literal, GloxError>(Literal::Number(x)),
        n is None ==> (r matches Err(e) && e is RuntimeError),
{
    match n {
        Some(x) => Ok(Literal::Number(x)),
        None => Err(runtime_error(msg)),
    }
}

impl Visitor for Interpreter {
    fn visit_literal(&self, expr: &LiteralExpr) -> Result<Literal, GloxError> {
        Ok(expr.value.duplicate())
    }

    fn visit_grouping(&self, expr: &Grouping) -> Result<Literal, GloxError> {
        self.evaluate(&expr.expression)
    }

    fn visit_unary(&self, expr: &Unary) -> Result<Literal, GloxError> {
        let right = match self.evaluate(&expr.right) {
            Ok(v) => v,
            Err(e) => return Err(e),
        };
        self.unary_op(expr.operator.token_type, right)
    }

    fn visit_binary(&self, expr: &Binary) -> Result<Literal, GloxError> {
        let left = match self.evaluate(&expr.left) {
            Ok(v) => v,
            Err(e) => return Err(e),
        };
        let right = match self.evaluate(&expr.right) {
            Ok(v) => v,
            Err(e) => return Err(e),
        };
        self.binary_op(expr.operator.token_type, left, right)
    }
}

impl Interpreter {
    pub fn new() -> (r: Interpreter) {
        Interpreter {  }
    }

    /// Evaluates an expression tree to a value, or a runtime error.
    pub fn interpret(&self, expr: &Expr) -> (r: Result<Literal, GloxError>)
        ensures
            agrees(r, eval(*expr)),
    {
        self.evaluate(expr)
    }

    fn evaluate(&self, expr: &Expr) -> (r: Result<Literal, GloxError>)
        ensures
            agrees(r, eval(*expr)),
        decreases expr,
    {
        match expr {
            Expr::Literal(l) => Ok(l.value.duplicate()),
            Expr::Grouping(g) => self.evaluate(&g.expression),
            Expr::Unary(u) => {
                let right = match self.evaluate(&u.right) {
                    Ok(v) => v,
                    Err(e) => return Err(e),
                };
                self.unary_op(u.operator.token_type, right)
            },
            Expr::Binary(b) => {
                let left = match self.evaluate(&b.left) {
                    Ok(v) => v,
                    Err(e) => return Err(e),
                };
                let right = match self.evaluate(&b.right) {
                    Ok(v) => v,
                    Err(e) => return Err(e),
                };
                self.binary_op(b.operator.token_type, left, right)
            },
        }
    }

    fn unary_op(&self, op: TokenType, right: Literal) -> (r: Result<Literal, GloxError>)
        ensures
            agrees(r, unary_value(op, right@)),
    {
        match op {
            TokenType::Minus => match right {
                Literal::Number(n) => number_result(n.checked_neg(), "Operand must be a number."),
                _ => Err(runtime_error("Operand must be a number.")),
            },
            TokenType::Bang => Ok(Literal::Bool(!self.is_truthy(&right))),
            _ => Err(runtime_error("Not a unary operator.")),
        }
    }

    fn binary_op(&self, op: TokenType, left: Literal, right: Literal) -> (r: Result<
        Literal,
        GloxError,
    >)
        ensures
            agrees(r, binary_value(op, left@, right@)),
    {
        match op {
            TokenType::BangEqual => {
                return Ok(Literal::Bool(!self.is_equal(&left, &right)));
            },
            TokenType::EqualEqual => {
                return Ok(Literal::Bool(self.is_equal(&left, &right)));
            },
            TokenType::Plus => {
                return match (left, right) {
                    (Literal::Number(a), Literal::Number(b)) => number_result(
                        a.checked_add(&b),
                        "Sum out of range.",
                    ),
                    (Literal::Str(a), Literal::Str(b)) => Ok(Literal::Str(a.concat(b.as_str()))),
                    _ => Err(runtime_error("Operands must be two numbers or two strings.")),
                };
            },
            _ => {},
        }
        let (a, b) = match (left, right) {
            (Literal::Number(a), Literal::Number(b)) => (a, b),
            _ => {
                return Err(runtime_error("Operands must be numbers."));
            },
        };
        match op {
            TokenType::Minus => number_result(a.checked_sub(&b), "Difference out of range."),
            TokenType::Star => number_result(a.checked_mul(&b), "Product out of range."),
            TokenType::Slash => number_result(a.checked_div(&b), "Division by zero or out of range."),
            TokenType::Greater => Ok(Literal::Bool(b.less_than(&a))),
            TokenType::GreaterEqual => Ok(Literal::Bool(!a.less_than(&b))),
            TokenType::Less => Ok(Literal::Bool(a.less_than(&b))),
            TokenType::LessEqual => Ok(Literal::Bool(!b.less_than(&a))),
            _ => Err(runtime_error("Not a binary operator.")),
        }
    }

    fn is_truthy(&self, value: &Literal) -> (r: bool)
        ensures
            r == truthy(value@),
    {
        match value {
            Literal::Nil => false,
            Literal::Bool(b) => *b,
            _ => true,
        }
    }

    fn is_equal(&self, l: &Literal, r: &Literal) -> (res: bool)
        ensures
            res == values_equal(l@, r@),
    {
        match (l, r) {
            (Literal::Number(a), Literal::Number(b)) => a.equals(b),
            (Literal::Str(a), Literal::Str(b)) => *a == *b,
            (Literal::Bool(a), Literal::Bool(b)) => *a == *b,
            (Literal::Nil, Literal::Nil) => true,
            _ => false,
        }
    }
}

} // verus!
