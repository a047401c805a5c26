use vstd::prelude::*;
use vstd::string::*;

use crate::error::GloxError;
use crate::expr::{Binary, Expr, Grouping, LiteralExpr, Unary};
use crate::token::{Literal, Token, TokenType};

verus! {

/// The outcome of a grammar rule: a tree and the position after it, or a
/// parse error's description and line.
pub type ParseOutcome = Result<(Expr, int), (Seq<char>, int)>;

/// The kind of the token at `p`; past the end, `EOF`.
pub open spec fn kind_at(t: Seq<Token>, p: int) -> TokenType {
    if 0 <= p < t.len() {
        t[p].token_type
    } else {
        TokenType::EOF
    }
}

/// The line of the token at `p`; past the end, that of the last token.
pub open spec fn line_at(t: Seq<Token>, p: int) -> int {
    if 0 <= p < t.len() {
        t[p].line as int
    } else if t.len() > 0 {
        t[t.len() - 1].line as int
    } else {
        1
    }
}

/// The lexeme of the token at `p`; past the end, empty.
pub open spec fn lexeme_at(t: Seq<Token>, p: int) -> Seq<char> {
    if 0 <= p < t.len() {
        t[p].lexeme@
    } else {
        Seq::empty()
    }
}

/// The description of a missing closing parenthesis.
pub open spec fn paren_message() -> Seq<char> {
    "Expect ')' after expression."@
}

/// How deeply groupings and unary operators may nest in one expression.
pub const MAX_NESTING: usize = 64;

/// The description of an expression nested past the limit.
pub open spec fn nesting_message() -> Seq<char> {
    "Expression nested too deeply."@
}

/// The operators of a binary precedence level, from loosest (0, equality)
/// through comparison and term to tightest (3, factor).
pub open spec fn is_level_op(level: nat, k: TokenType) -> bool {
    if level == 0 {
        k == TokenType::BangEqual || k == TokenType::EqualEqual
    } else if level == 1 {
        k == TokenType::Greater || k == TokenType::GreaterEqual || k == TokenType::Less || k
            == TokenType::LessEqual
    } else if level == 2 {
        k == TokenType::Minus || k == TokenType::Plus
    } else {
        k == TokenType::Slash || k == TokenType::Star
    }
}

/// The operand rule of a level: the next tighter level, or unary below factor.
pub open spec fn operand(t: Seq<Token>, p: int, level: nat, depth: nat) -> ParseOutcome
    decreases t.len() - p, 2 * (4 - level) as nat + 1,
{
    if level > 3 {
        Err((Seq::empty(), line_at(t, p)))
    } else if level < 3 {
        binary_level(t, p, (level + 1) as nat, depth)
    } else {
        unary(t, p, depth)
    }
}

/// A binary level: an operand, then any operators of the level, folded to
/// the left.
pub open spec fn binary_level(t: Seq<Token>, p: int, level: nat, depth: nat) -> ParseOutcome
    decreases t.len() - p, 2 * (4 - level) as nat + 2,
{
    if level > 3 {
        Err((Seq::empty(), line_at(t, p)))
    } else {
        match operand(t, p, level, depth) {
            Ok((left, q)) => if p <= q <= t.len() {
                level_rest(t, q, level, left, depth)
            } else {
                Ok((left, q))
            },
            Err(x) => Err(x),
        }
    }
}

/// The operators of a level that follow the tree `left` built so far.
pub open spec fn level_rest(t: Seq<Token>, p: int, level: nat, left: Expr, depth: nat) -> ParseOutcome
    decreases t.len() - p, 2 * (4 - level) as nat + 1,
{
    if level <= 3 && is_level_op(level, kind_at(t, p)) {
        match operand(t, p + 1, level, depth) {
            Ok((right, q)) => {
                let e = Expr::Binary(
                    Binary { left: Box::new(left), operator: t[p], right: Box::new(right) },
                );
                if p < q <= t.len() {
                    level_rest(t, q, level, e, depth)
                } else {
                    Ok((e, q))
                }
            },
            Err(x) => Err(x),
        }
    } else {
        Ok((left, p))
    }
}

/// `!` or `-` before a unary operand, or a primary expression. Each
/// operator and each grouping counts toward the nesting depth.
pub open spec fn unary(t: Seq<Token>, p: int, depth: nat) -> ParseOutcome
    decreases t.len() - p, 1nat,
{
    let k = kind_at(t, p);
    if (k == TokenType::Bang || k == TokenType::Minus) && depth >= MAX_NESTING {
        Err((nesting_message(), line_at(t, p)))
    } else if k == TokenType::Bang || k == TokenType::Minus {
        match unary(t, p + 1, depth + 1) {
            Ok((right, q)) => Ok((Expr::Unary(Unary { operator: t[p], right: Box::new(right) }), q)),
            Err(x) => Err(x),
        }
    } else {
        primary(t, p, depth)
    }
}

/// A literal, or a parenthesized expression.
pub open spec fn primary(t: Seq<Token>, p: int, depth: nat) -> ParseOutcome
    decreases t.len() - p, 0nat,
{
    let k = kind_at(t, p);
    if k == TokenType::False {
        Ok((Expr::Literal(LiteralExpr { value: Literal::Bool(false) }), p + 1))
    } else if k == TokenType::True {
        Ok((Expr::Literal(LiteralExpr { value: Literal::Bool(true) }), p + 1))
    } else if k == TokenType::Nil {
        Ok((Expr::Literal(LiteralExpr { value: Literal::Nil }), p + 1))
    } else if k == TokenType::String || k == TokenType::Number {
        Ok((Expr::Literal(LiteralExpr { value: t[p].literal }), p + 1))
    } else if k == TokenType::LeftParen && depth >= MAX_NESTING {
        Err((nesting_message(), line_at(t, p)))
    } else if k == TokenType::LeftParen {
        match binary_level(t, p + 1, 0, depth + 1) {
            Ok((e, q)) => if kind_at(t, q) == TokenType::RightParen {
                Ok((Expr::Grouping(Grouping { expression: Box::new(e) }), q + 1))
            } else {
                Err((paren_message(), line_at(t, q)))
            },
            Err(x) => Err(x),
        }
    } else {
        Err((lexeme_at(t, p), line_at(t, p)))
    }
}

/// An expression: the loosest binary level.
pub open spec fn expression(t: Seq<Token>, p: int) -> ParseOutcome {
    binary_level(t, p, 0, 0)
}

/// Whether a parse result agrees with a grammar outcome.
pub open spec fn agrees(r: Result<(Expr, usize), GloxError>, o: ParseOutcome) -> bool {
    match r {
        Ok((e, q)) => o == Ok::<(Expr, int), (Seq<char>, int)>((e, q as int)),
        Err(GloxError::UnexpectedToken(d, l)) => o == Err::<(Expr, int), (Seq<char>, int)>(
            (d@, l as int),
        ),
        Err(_) => false,
    }
}

/// Whether a parse result ends between `p` and the end of the tokens.
pub open spec fn ends_within(r: Result<(Expr, usize), GloxError>, p: int, len: int) -> bool {
    r matches Ok((_, q)) ==> p <= q <= len
}

/// A recursive-descent parser over a token sequence, with a forward cursor.
pub struct Parser {
    tokens: Vec<Token>,
    current: usize,
}

impl Parser {
    #[verifier::type_invariant]
    spec fn inv(self) -> bool {
        self.current <= self.tokens@.len()
    }

    pub closed spec fn spec_tokens(&self) -> Seq<Token> {
        self.tokens@
    }

    pub closed spec fn spec_current(&self) -> int {
        self.current as int
    }

    pub fn new(tokens: Vec<Token>) -> (r: Parser)
        ensures
            r.spec_tokens() == tokens@,
            r.spec_current() == 0,
    {
        Parser { tokens, current: 0 }
    }

    /// Parses one expression from the cursor on. The first error ends the parse.
    pub fn parse(&mut self) -> (r: Result<Expr, GloxError>)
        ensures
            final(self).spec_tokens() == old(self).spec_tokens(),
            match expression(old(self).spec_tokens(), old(self).spec_current()) {
                Ok((e, q)) => r == Ok::<Expr, GloxError>(e) && final(self).spec_current() == q,
                Err((d, l)) => (r matches Err(GloxError::UnexpectedToken(d2, l2)) && d2@ == d && l2
                    == l) && final(self).spec_current() == old(self).spec_current(),
            },
    {
        proof {
            use_type_invariant(&*self);
        }
        match self.expression(self.current) {
            Ok((e, q)) => {
                self.current = q;
                Ok(e)
            },
            Err(e) => Err(e),
        }
    }

    fn expression(&self, pos: usize) -> (r: Result<(Expr, usize), GloxError>)
        requires
            pos <= self.tokens@.len(),
        ensures
            agrees(r, expression(self.tokens@, pos as int)),
            ends_within(r, pos as int, self.tokens@.len() as int),
        decreases self.tokens@.len() - pos, 11nat,
    {
        self.binary_level(pos, 0, 0)
    }

    fn operand(&self, pos: usize, level: usize, depth: usize) -> (r: Result<(Expr, usize), GloxError>)
        requires
            pos <= self.tokens@.len(),
            level <= 3,
            depth <= MAX_NESTING,
        ensures
            agrees(r, operand(self.tokens@, pos as int, level as nat, depth as nat)),
            ends_within(r, pos as int, self.tokens@.len() as int),
        decreases self.tokens@.len() - pos, 2 * (4 - level) as nat + 1,
    {
        if level < 3 {
            self.binary_level(pos, level + 1, depth)
        } else {
            self.unary(pos, depth)
        }
    }

    fn binary_level(&self, pos: usize, level: usize, depth: usize) -> (r: Result<
        (Expr, usize),
        GloxError,
    >)
        requires
            pos <= self.tokens@.len(),
            level <= 3,
            depth <= MAX_NESTING,
        ensures
            agrees(r, binary_level(self.tokens@, pos as int, level as nat, depth as nat)),
            ends_within(r, pos as int, self.tokens@.len() as int),
        decreases self.tokens@.len() - pos, 2 * (4 - level) as nat + 2,
    {
        // Reading the length brings its bound: a cursor past a token is still a usize.
        let _n = self.tokens.len();
        let (mut expr, mut p) = match self.operand(pos, level, depth) {
            Ok(x) => x,
            Err(e) => return Err(e),
        };
        while self.matches_level(p, level)
            invariant
                pos <= p <= self.tokens@.len(),
                self.tokens@.len() <= usize::MAX,
                level <= 3,
                depth <= MAX_NESTING,
                level_rest(self.tokens@, p as int, level as nat, expr, depth as nat)
                    == binary_level(self.tokens@, pos as int, level as nat, depth as nat),
            decreases self.tokens@.len() - p,
        {
            let operator = self.tokens[p].duplicate();
            let (right, q) = match self.operand(p + 1, level, depth) {
                Ok(x) => x,
                Err(e) => return Err(e),
            };
            expr = Expr::Binary(
                Binary { left: Box::new(expr), operator: operator, right: Box::new(right) },
            );
            p = q;
        }
        Ok((expr, p))
    }

    fn unary(&self, pos: usize, depth: usize) -> (r: Result<(Expr, usize), GloxError>)
        requires
            pos <= self.tokens@.len(),
            depth <= MAX_NESTING,
        ensures
            agrees(r, unary(self.tokens@, pos as int, depth as nat)),
            ends_within(r, pos as int, self.tokens@.len() as int),
        decreases self.tokens@.len() - pos, 1nat,
    {
        // Reading the length brings its bound: a cursor past a token is still a usize.
        let _n = self.tokens.len();
        if self.check(pos, TokenType::Bang) || self.check(pos, TokenType::Minus) {
            if depth >= MAX_NESTING {
                return Err(self.nesting_error(pos));
            }
            let operator = self.tokens[pos].duplicate();
            let (right, q) = match self.unary(pos + 1, depth + 1) {
                Ok(x) => x,
                Err(e) => return Err(e),
            };
            return Ok((Expr::Unary(Unary { operator: operator, right: Box::new(right) }), q));
        }
        self.primary(pos, depth)
    }

    fn primary(&self, pos: usize, depth: usize) -> (r: Result<(Expr, usize), GloxError>)
        requires
            pos <= self.tokens@.len(),
            depth <= MAX_NESTING,
        ensures
            agrees(r, primary(self.tokens@, pos as int, depth as nat)),
            ends_within(r, pos as int, self.tokens@.len() as int),
        decreases self.tokens@.len() - pos, 0nat,
    {
        // Reading the length brings its bound: a cursor past a token is still a usize.
        let _n = self.tokens.len();
        if self.check(pos, TokenType::False) {
            Ok((Expr::Literal(LiteralExpr { value: Literal::Bool(false) }), pos + 1))
        } else if self.check(pos, TokenType::True) {
            Ok((Expr::Literal(LiteralExpr { value: Literal::Bool(true) }), pos + 1))
        } else if self.check(pos, TokenType::Nil) {
            Ok((Expr::Literal(LiteralExpr { value: Literal::Nil }), pos + 1))
        } else if self.check(pos, TokenType::String) || self.check(pos, TokenType::Number) {
            Ok((Expr::Literal(LiteralExpr { value: self.tokens[pos].literal.duplicate() }), pos + 1))
        } else if self.check(pos, TokenType::LeftParen) {
            if depth >= MAX_NESTING {
                return Err(self.nesting_error(pos));
            }
            let (e, q) = match self.binary_level(pos + 1, 0, depth + 1) {
                Ok(x) => x,
                Err(err) => return Err(err),
            };
            let q2 = match self.consume(q, TokenType::RightParen, "Expect ')' after expression.") {
                Ok(x) => x,
                Err(err) => return Err(err),
            };
            proof {
                reveal_strlit("Expect ')' after expression.");
            }
            Ok((Expr::Grouping(Grouping { expression: Box::new(e) }), q2))
        } else {
            Err(GloxError::UnexpectedToken(self.peek_lexeme(pos), self.current_line(pos)))
        }
    }

    fn nesting_error(&self, pos: usize) -> (r: GloxError)
        ensures
            r matches GloxError::UnexpectedToken(d, l) && d@ == nesting_message() && l == line_at(
                self.tokens@,
                pos as int,
            ),
    {
        proof {
            reveal_strlit("Expression nested too deeply.");
        }
        GloxError::UnexpectedToken(
            String::from_str("Expression nested too deeply."),
            self.current_line(pos),
        )
    }

    /// The kind of the token at `pos`; past the end, `EOF`.
    fn peek(&self, pos: usize) -> (r: TokenType)
        ensures
            r == kind_at(self.tokens@, pos as int),
    {
        if pos < self.tokens.len() {
            self.tokens[pos].token_type
        } else {
            TokenType::EOF
        }
    }

    fn peek_lexeme(&self, pos: usize) -> (r: String)
        ensures
            r@ == lexeme_at(self.tokens@, pos as int),
    {
        if pos < self.tokens.len() {
            self.tokens[pos].lexeme.clone()
        } else {
            String::new()
        }
    }

    fn current_line(&self, pos: usize) -> (r: usize)
        ensures
            r == line_at(self.tokens@, pos as int),
    {
        if pos < self.tokens.len() {
            self.tokens[pos].line
        } else if self.tokens.len() > 0 {
            self.tokens[self.tokens.len() - 1].line
        } else {
            1
        }
    }

    fn is_at_end(&self, pos: usize) -> (r: bool)
        ensures
            r == (kind_at(self.tokens@, pos as int) == TokenType::EOF),
    {
        self.peek(pos) == TokenType::EOF
    }

    /// Whether the token at `pos` is of kind `typ`; never at the end.
    fn check(&self, pos: usize, typ: TokenType) -> (r: bool)
        ensures
            r == (kind_at(self.tokens@, pos as int) != TokenType::EOF && kind_at(
                self.tokens@,
                pos as int,
            ) == typ),
    {
        if self.is_at_end(pos) {
            return false;
        }
        self.peek(pos) == typ
    }

    /// Whether the token at `pos` is an operator of the given level.
    fn matches_level(&self, pos: usize, level: usize) -> (r: bool)
        requires
            level <= 3,
        ensures
            r == is_level_op(level as nat, kind_at(self.tokens@, pos as int)),
    {
        if level == 0 {
            self.check(pos, TokenType::BangEqual) || self.check(pos, TokenType::EqualEqual)
        } else if level == 1 {
            self.check(pos, TokenType::Greater) || self.check(pos, TokenType::GreaterEqual)
                || self.check(pos, TokenType::Less) || self.check(pos, TokenType::LessEqual)
        } else if level == 2 {
            self.check(pos, TokenType::Minus) || self.check(pos, TokenType::Plus)
        } else {
            self.check(pos, TokenType::Slash) || self.check(pos, TokenType::Star)
        }
    }

    /// Steps over a token of kind `typ`, or fails with `message`.
    fn consume(&self, pos: usize, typ: TokenType, message: &str) -> (r: Result<usize, GloxError>)
        ensures
            kind_at(self.tokens@, pos as int) != TokenType::EOF && kind_at(self.tokens@, pos as int)
                == typ ==> r == Ok::<usize, GloxError>((pos + 1) as usize),
            !(kind_at(self.tokens@, pos as int) != TokenType::EOF && kind_at(
                self.tokens@,
                pos as int,
            ) == typ) ==> (r matches Err(GloxError::UnexpectedToken(d, l)) && d@ == message@ && l
                == line_at(self.tokens@, pos as int)),
    {
        // Reading the length brings its bound: a cursor past a token is still a usize.
        let _n = self.tokens.len();
        if self.check(pos, typ) {
            Ok(pos + 1)
        } else {
            Err(GloxError::UnexpectedToken(String::from_str(message), self.current_line(pos)))
        }
    }
}

} // verus!
