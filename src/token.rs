use vstd::prelude::*;
use vstd::string::*;

verus! {

/// The kinds of token in the lexical grammar of the language.
#[derive(Debug, Clone, Copy, PartialEq, Eq, Structural)]
pub enum TokenType {
    // Single character tokens
    LeftParen,
    RightParen,
    LeftBrace,
    RightBrace,
    Comma,
    Dot,
    Minus,
    Plus,
    Semicolon,
    Slash,
    Star,
    // One or two character tokens
    Bang,
    BangEqual,
    Equal,
    EqualEqual,
    Greater,
    GreaterEqual,
    Less,
    LessEqual,
    // Literals
    Identifier,
    String,
    Number,
    // Keywords
    And,
    Class,
    Else,
    False,
    Fun,
    For,
    If,
    Nil,
    Or,
    Print,
    Return,
    Super,
    This,
    True,
    Var,
    While,
    // Special
    EOF,
}

/// An exact rational number `num / den`, kept with a positive denominator.
/// The fraction is not reduced: `2/2` and `1/1` are equal values.
///
/// The language's numbers stand for floating-point values; here they are
/// exact fractions instead. So `0.1 + 0.2 == 0.3` holds. Dividing by zero,
/// or a result whose numerator or denominator leaves the i64 range, is an
/// error rather than an infinity, a NaN or a rounded value. A literal whose
/// digits exceed the i64 range, or that has more than 18 decimal places, is
/// a lexical error.
#[derive(Debug, Clone, Copy)]
pub struct Number {
    num: i64,
    den: i64,
}

impl Number {
    #[verifier::type_invariant]
    spec fn inv(self) -> bool {
        self.den > 0
    }

    pub closed spec fn spec_num(self) -> int {
        self.num as int
    }

    pub closed spec fn spec_den(self) -> int {
        self.den as int
    }

    /// Whether `n / d` can be held: `n` an i64, `d` a positive i64.
    pub open spec fn fits(n: int, d: int) -> bool {
        i64::MIN <= n <= i64::MAX && 0 < d <= i64::MAX
    }

    /// Two fractions denote the same rational number.
    pub open spec fn same(self, o: Number) -> bool {
        self.spec_num() * o.spec_den() == o.spec_num() * self.spec_den()
    }

    /// The fraction `num / den`; `None` when `den` is not positive.
    pub fn new(num: i64, den: i64) -> (r: Option<Number>)
        ensures
            den > 0 <==> r is Some,
            r matches Some(n) ==> n.spec_num() == num && n.spec_den() == den,
    {
        if den > 0 {
            Some(Number { num, den })
        } else {
            None
        }
    }

    /// The whole number `n`.
    pub fn from_int(n: i64) -> (r: Number)
        ensures
            r.spec_num() == n,
            r.spec_den() == 1,
    {
        Number { num: n, den: 1 }
    }

    pub fn numerator(&self) -> (r: i64)
        ensures
            r == self.spec_num(),
    {
        self.num
    }

    pub fn denominator(&self) -> (r: i64)
        ensures
            r == self.spec_den(),
            r > 0,
    {
        proof {
            use_type_invariant(self);
        }
        self.den
    }

    /// Builds `n / d` from wide intermediate values, when it fits.
    fn from_wide(n: i128, d: i128) -> (r: Option<Number>)
        ensures
            r is Some <==> Self::fits(n as int, d as int),
            r matches Some(x) ==> x.spec_num() == n && x.spec_den() == d,
    {
        if i64::MIN as i128 <= n && n <= i64::MAX as i128 && 0 < d && d <= i64::MAX as i128 {
            Some(Number { num: n as i64, den: d as i64 })
        } else {
            None
        }
    }

    pub open spec fn add_parts(self, o: Number) -> (int, int) {
        (self.spec_num() * o.spec_den() + o.spec_num() * self.spec_den(), self.spec_den()
            * o.spec_den())
    }

    pub open spec fn sub_parts(self, o: Number) -> (int, int) {
        (self.spec_num() * o.spec_den() - o.spec_num() * self.spec_den(), self.spec_den()
            * o.spec_den())
    }

    pub open spec fn mul_parts(self, o: Number) -> (int, int) {
        (self.spec_num() * o.spec_num(), self.spec_den() * o.spec_den())
    }

    /// Division by a non-zero `o`, with the sign moved to the numerator.
    pub open spec fn div_parts(self, o: Number) -> (int, int) {
        if o.spec_num() > 0 {
            (self.spec_num() * o.spec_den(), self.spec_den() * o.spec_num())
        } else {
            (-(self.spec_num() * o.spec_den()), self.spec_den() * -o.spec_num())
        }
    }

    /// Whether a pair of parts fits, and is then the given number.
    pub open spec fn is_parts(r: Option<Number>, p: (int, int)) -> bool {
        &&& (r is Some <==> Self::fits(p.0, p.1))
        &&& (r matches Some(x) ==> x.spec_num() == p.0 && x.spec_den() == p.1)
    }

    /// The sum; `None` when its fraction does not fit.
    pub fn checked_add(&self, o: &Number) -> (r: Option<Number>)
        ensures
            Self::is_parts(r, self.add_parts(*o)),
    {
        proof {
            use_type_invariant(self);
            use_type_invariant(o);
            self.lemma_wide(*o);
        }
        let n = (self.num as i128) * (o.den as i128) + (o.num as i128) * (self.den as i128);
        let d = (self.den as i128) * (o.den as i128);
        Self::from_wide(n, d)
    }

    /// The difference; `None` when its fraction does not fit.
    pub fn checked_sub(&self, o: &Number) -> (r: Option<Number>)
        ensures
            Self::is_parts(r, self.sub_parts(*o)),
    {
        proof {
            use_type_invariant(self);
            use_type_invariant(o);
            self.lemma_wide(*o);
        }
        let n = (self.num as i128) * (o.den as i128) - (o.num as i128) * (self.den as i128);
        let d = (self.den as i128) * (o.den as i128);
        Self::from_wide(n, d)
    }

    /// The product; `None` when its fraction does not fit.
    pub fn checked_mul(&self, o: &Number) -> (r: Option<Number>)
        ensures
            Self::is_parts(r, self.mul_parts(*o)),
    {
        proof {
            use_type_invariant(self);
            use_type_invariant(o);
            self.lemma_wide(*o);
        }
        let n = (self.num as i128) * (o.num as i128);
        let d = (self.den as i128) * (o.den as i128);
        Self::from_wide(n, d)
    }

    /// The quotient; `None` when `o` is zero or the fraction does not fit.
    pub fn checked_div(&self, o: &Number) -> (r: Option<Number>)
        ensures
            o.spec_num() == 0 ==> r is None,
            o.spec_num() != 0 ==> Self::is_parts(r, self.div_parts(*o)),
    {
        proof {
            use_type_invariant(self);
            use_type_invariant(o);
            self.lemma_wide(*o);
        }
        if o.num == 0 {
            return None;
        }
        let a = (self.num as i128) * (o.den as i128);
        let b = (self.den as i128) * (o.num as i128);
        if o.num > 0 {
            Self::from_wide(a, b)
        } else {
            Self::from_wide(-a, -b)
        }
    }

    /// The negation; `None` for the one numerator that has no negation.
    pub fn checked_neg(&self) -> (r: Option<Number>)
        ensures
            Self::is_parts(r, (-self.spec_num(), self.spec_den())),
    {
        proof {
            use_type_invariant(self);
        }
        if self.num == i64::MIN {
            None
        } else {
            Some(Number { num: -self.num, den: self.den })
        }
    }

    /// Whether `self < o` as rational numbers.
    pub fn less_than(&self, o: &Number) -> (r: bool)
        ensures
            r == (self.spec_num() * o.spec_den() < o.spec_num() * self.spec_den()),
    {
        proof {
            use_type_invariant(self);
            use_type_invariant(o);
            self.lemma_wide(*o);
        }
        (self.num as i128) * (o.den as i128) < (o.num as i128) * (self.den as i128)
    }

    /// Whether `self` and `o` denote the same rational number.
    pub fn equals(&self, o: &Number) -> (r: bool)
        ensures
            r == self.same(*o),
    {
        proof {
            use_type_invariant(self);
            use_type_invariant(o);
            self.lemma_wide(*o);
        }
        (self.num as i128) * (o.den as i128) == (o.num as i128) * (self.den as i128)
    }

    proof fn lemma_wide(self, o: Number)
        requires
            self.spec_den() > 0,
            o.spec_den() > 0,
        ensures
            -0x3FFF_FFFF_FFFF_FFFF_8000_0000_0000_0000 <= self.spec_num() * o.spec_den()
                <= 0x3FFF_FFFF_FFFF_FFFF_8000_0000_0000_0000,
            -0x3FFF_FFFF_FFFF_FFFF_8000_0000_0000_0000 <= o.spec_num() * self.spec_den()
                <= 0x3FFF_FFFF_FFFF_FFFF_8000_0000_0000_0000,
            -0x4000_0000_0000_0000_0000_0000_0000_0000 <= self.spec_num() * o.spec_num()
                <= 0x4000_0000_0000_0000_0000_0000_0000_0000,
            -0x4000_0000_0000_0000_0000_0000_0000_0000 <= self.spec_den() * o.spec_den()
                <= 0x4000_0000_0000_0000_0000_0000_0000_0000,
            -0x4000_0000_0000_0000_0000_0000_0000_0000 <= self.spec_den() * o.spec_num()
                <= 0x4000_0000_0000_0000_0000_0000_0000_0000,
            self.spec_den() * -o.spec_num() == -(self.spec_den() * o.spec_num()),
    {
        let a = self.spec_num();
        let b = self.spec_den();
        let c = o.spec_num();
        let d = o.spec_den();
        lemma_mul_bound(a, d, 0x7FFF_FFFF_FFFF_FFFF);
        lemma_mul_bound(c, b, 0x7FFF_FFFF_FFFF_FFFF);
        lemma_mul_bound(a, c, 0x8000_0000_0000_0000);
        lemma_mul_bound(b, d, 0x8000_0000_0000_0000);
        lemma_mul_bound(b, c, 0x8000_0000_0000_0000);
        assert(b * -c == -(b * c)) by (nonlinear_arith);
    }
}

proof fn lemma_mul_bound(x: int, y: int, m: int)
    requires
        -0x8000_0000_0000_0000 <= x <= 0x8000_0000_0000_0000,
        0 <= m,
        -m <= y <= m,
    ensures
        -(0x8000_0000_0000_0000 * m) <= x * y <= 0x8000_0000_0000_0000 * m,
{
    let ax = if x < 0 { -x } else { x };
    let ay = if y < 0 { -y } else { y };
    assert(ax * ay <= 0x8000_0000_0000_0000 * m) by (nonlinear_arith)
        requires
            0 <= ax <= 0x8000_0000_0000_0000,
            0 <= ay <= m,
    ;
    assert(x * y == ax * ay || x * y == -(ax * ay)) by (nonlinear_arith)
        requires
            ax == x || ax == -x,
            ay == y || ay == -y,
    ;
}


/// The keyword kind of an identifier's text, if it is one of the sixteen keywords.
pub open spec fn keyword_kind(s: Seq<char>) -> Option<TokenType> {
    if s == seq!['a', 'n', 'd'] {
        Some(TokenType::And)
    } else if s == seq!['c', 'l', 'a', 's', 's'] {
        Some(TokenType::Class)
    } else if s == seq!['e', 'l', 's', 'e'] {
        Some(TokenType::Else)
    } else if s == seq!['f', 'a', 'l', 's', 'e'] {
        Some(TokenType::False)
    } else if s == seq!['f', 'u', 'n'] {
        Some(TokenType::Fun)
    } else if s == seq!['f', 'o', 'r'] {
        Some(TokenType::For)
    } else if s == seq!['i', 'f'] {
        Some(TokenType::If)
    } else if s == seq!['n', 'i', 'l'] {
        Some(TokenType::Nil)
    } else if s == seq!['o', 'r'] {
        Some(TokenType::Or)
    } else if s == seq!['p', 'r', 'i', 'n', 't'] {
        Some(TokenType::Print)
    } else if s == seq!['r', 'e', 't', 'u', 'r', 'n'] {
        Some(TokenType::Return)
    } else if s == seq!['s', 'u', 'p', 'e', 'r'] {
        Some(TokenType::Super)
    } else if s == seq!['t', 'h', 'i', 's'] {
        Some(TokenType::This)
    } else if s == seq!['t', 'r', 'u', 'e'] {
        Some(TokenType::True)
    } else if s == seq!['v', 'a', 'r'] {
        Some(TokenType::Var)
    } else if s == seq!['w', 'h', 'i', 'l', 'e'] {
        Some(TokenType::While)
    } else {
        None
    }
}

/// Whether a keyword table holds exactly the sixteen keywords, each with its kind.
pub open spec fn is_keyword_table(t: Seq<(String, TokenType)>) -> bool {
    &&& t.len() == 16
    &&& forall|i: int| 0 <= i < t.len() ==> keyword_kind(#[trigger] t[i].0@) == Some(t[i].1)
    &&& forall|s: Seq<char>| keyword_kind(s) is Some ==> exists|i: int|
        0 <= i < t.len() && #[trigger] t[i].0@ == s
}

/// The keyword table: each reserved word with its token kind.
pub fn get_keywords() -> (r: Vec<(String, TokenType)>)
    ensures
        is_keyword_table(r@),
{
    let mut keywords: Vec<(String, TokenType)> = Vec::new();
    proof {
        reveal_strlit("and");
    }
    keywords.push((String::from_str("and"), TokenType::And));
    proof {
        reveal_strlit("class");
    }
    keywords.push((String::from_str("class"), TokenType::Class));
    proof {
        reveal_strlit("else");
    }
    keywords.push((String::from_str("else"), TokenType::Else));
    proof {
        reveal_strlit("false");
    }
    keywords.push((String::from_str("false"), TokenType::False));
    proof {
        reveal_strlit("fun");
    }
    keywords.push((String::from_str("fun"), TokenType::Fun));
    proof {
        reveal_strlit("for");
    }
    keywords.push((String::from_str("for"), TokenType::For));
    proof {
        reveal_strlit("if");
    }
    keywords.push((String::from_str("if"), TokenType::If));
    proof {
        reveal_strlit("nil");
    }
    keywords.push((String::from_str("nil"), TokenType::Nil));
    proof {
        reveal_strlit("or");
    }
    keywords.push((String::from_str("or"), TokenType::Or));
    proof {
        reveal_strlit("print");
    }
    keywords.push((String::from_str("print"), TokenType::Print));
    proof {
        reveal_strlit("return");
    }
    keywords.push((String::from_str("return"), TokenType::Return));
    proof {
        reveal_strlit("super");
    }
    keywords.push((String::from_str("super"), TokenType::Super));
    proof {
        reveal_strlit("this");
    }
    keywords.push((String::from_str("this"), TokenType::This));
    proof {
        reveal_strlit("true");
    }
    keywords.push((String::from_str("true"), TokenType::True));
    proof {
        reveal_strlit("var");
    }
    keywords.push((String::from_str("var"), TokenType::Var));
    proof {
        reveal_strlit("while");
    }
    keywords.push((String::from_str("while"), TokenType::While));
    assert(keywords@[0].0@ =~= seq!['a', 'n', 'd']);
    assert(keywords@[1].0@ =~= seq!['c', 'l', 'a', 's', 's']);
    assert(keywords@[2].0@ =~= seq!['e', 'l', 's', 'e']);
    assert(keywords@[3].0@ =~= seq!['f', 'a', 'l', 's', 'e']);
    assert(keywords@[4].0@ =~= seq!['f', 'u', 'n']);
    assert(keywords@[5].0@ =~= seq!['f', 'o', 'r']);
    assert(keywords@[6].0@ =~= seq!['i', 'f']);
    assert(keywords@[7].0@ =~= seq!['n', 'i', 'l']);
    assert(keywords@[8].0@ =~= seq!['o', 'r']);
    assert(keywords@[9].0@ =~= seq!['p', 'r', 'i', 'n', 't']);
    assert(keywords@[10].0@ =~= seq!['r', 'e', 't', 'u', 'r', 'n']);
    assert(keywords@[11].0@ =~= seq!['s', 'u', 'p', 'e', 'r']);
    assert(keywords@[12].0@ =~= seq!['t', 'h', 'i', 's']);
    assert(keywords@[13].0@ =~= seq!['t', 'r', 'u', 'e']);
    assert(keywords@[14].0@ =~= seq!['v', 'a', 'r']);
    assert(keywords@[15].0@ =~= seq!['w', 'h', 'i', 'l', 'e']);
    assert(forall|i: int| 0 <= i < keywords@.len() ==> keyword_kind(#[trigger] keywords@[i].0@) == Some(keywords@[i].1));
    assert(forall|s: Seq<char>| keyword_kind(s) is Some ==> exists|i: int|
        0 <= i < keywords@.len() && #[trigger] keywords@[i].0@ == s) by {
        assert forall|s: Seq<char>| keyword_kind(s) is Some implies exists|i: int|
            0 <= i < keywords@.len() && #[trigger] keywords@[i].0@ == s by {
            if s == keywords@[0].0@ { }
            if s == keywords@[1].0@ { }
            if s == keywords@[2].0@ { }
            if s == keywords@[3].0@ { }
            if s == keywords@[4].0@ { }
            if s == keywords@[5].0@ { }
            if s == keywords@[6].0@ { }
            if s == keywords@[7].0@ { }
            if s == keywords@[8].0@ { }
            if s == keywords@[9].0@ { }
            if s == keywords@[10].0@ { }
            if s == keywords@[11].0@ { }
            if s == keywords@[12].0@ { }
            if s == keywords@[13].0@ { }
            if s == keywords@[14].0@ { }
            if s == keywords@[15].0@ { }
        }
    }
    keywords
}

/// Looks `text` up in a keyword table.
pub fn lookup_keyword(keywords: &Vec<(String, TokenType)>, text: &String) -> (r: Option<TokenType>)
    requires
        is_keyword_table(keywords@),
    ensures
        r == keyword_kind(text@),
{
    let mut i: usize = 0;
    while i < keywords.len()
        invariant
            i <= keywords@.len(),
            is_keyword_table(keywords@),
            forall|j: int| 0 <= j < i ==> keywords@[j].0@ != text@,
        decreases keywords@.len() - i,
    {
        if keywords[i].0 == *text {
            return Some(keywords[i].1);
        }
        i = i + 1;
    }
    None
}

/// A runtime value, also the payload that a literal token carries.
#[derive(Debug, Clone)]
pub enum Literal {
    Number(Number),
    Str(String),
    Bool(bool),
    Nil,
}

/// The mathematical model of a runtime value; a number is the fraction
/// `num / den`, denominator positive.
pub enum Value {
    Number(int, int),
    Str(Seq<char>),
    Bool(bool),
    Nil,
}

impl View for Literal {
    type V = Value;

    open spec fn view(&self) -> Value {
        match self {
            Literal::Number(n) => Value::Number(n.spec_num(), n.spec_den()),
            Literal::Str(s) => Value::Str(s@),
            Literal::Bool(b) => Value::Bool(*b),
            Literal::Nil => Value::Nil,
        }
    }
}

impl Literal {
    /// A copy of this value.
    pub fn duplicate(&self) -> (r: Literal)
        ensures
            r == *self,
    {
        match self {
            Literal::Number(n) => Literal::Number(*n),
            Literal::Str(s) => Literal::Str(s.clone()),
            Literal::Bool(b) => Literal::Bool(*b),
            Literal::Nil => Literal::Nil,
        }
    }
}

/// A classified lexeme with its literal payload and its 1-based source line.
#[derive(Debug, Clone)]
pub struct Token {
    pub token_type: TokenType,
    pub lexeme: String,
    pub literal: Literal,
    pub line: usize,
}

impl Token {
    pub fn new(token_type: TokenType, lexeme: String, literal: Literal, line: usize) -> (r: Token)
        ensures
            r.token_type == token_type,
            r.lexeme == lexeme,
            r.literal == literal,
            r.line == line,
    {
        Token { token_type, lexeme, literal, line }
    }

    /// A copy of this token.
    pub fn duplicate(&self) -> (r: Token)
        ensures
            r == *self,
    {
        Token {
            token_type: self.token_type,
            lexeme: self.lexeme.clone(),
            literal: self.literal.duplicate(),
            line: self.line,
        }
    }
}

} // verus!
