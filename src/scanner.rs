use vstd::prelude::*;
use vstd::string::*;

use crate::error::GloxError;
use crate::token::{
    Literal, Number, Token, TokenType, Value, get_keywords, is_keyword_table, keyword_kind,
    lookup_keyword,
};

verus! {

/// The mathematical model of a token.
pub struct TokenView {
    pub kind: TokenType,
    pub lexeme: Seq<char>,
    pub literal: Value,
    pub line: int,
}

pub open spec fn token_view(t: Token) -> TokenView {
    TokenView { kind: t.token_type, lexeme: t.lexeme@, literal: t.literal@, line: t.line as int }
}

pub open spec fn tokens_view(ts: Seq<Token>) -> Seq<TokenView> {
    ts.map_values(|t: Token| token_view(t))
}

/// A reported lexical error: its description and line.
pub open spec fn error_view(e: GloxError) -> (Seq<char>, int) {
    match e {
        GloxError::UnexpectedToken(d, l) => (d@, l as int),
        GloxError::RuntimeError(d) => (d@, 0),
    }
}

pub open spec fn errors_view(es: Seq<GloxError>) -> Seq<(Seq<char>, int)> {
    es.map_values(|e: GloxError| error_view(e))
}

pub open spec fn is_digit_char(c: char) -> bool {
    '0' <= c && c <= '9'
}

pub open spec fn is_alpha_char(c: char) -> bool {
    ('a' <= c && c <= 'z') || ('A' <= c && c <= 'Z') || c == '_'
}

/// The character at `i`; outside the text, `'\0'`.
pub open spec fn char_at(s: Seq<char>, i: int) -> char {
    if 0 <= i < s.len() {
        s[i]
    } else {
        '\0'
    }
}

/// The end of the run of digits that starts at `i`.
pub open spec fn digits_end(s: Seq<char>, i: int) -> int
    decreases s.len() - i,
{
    if 0 <= i < s.len() && is_digit_char(s[i]) {
        digits_end(s, i + 1)
    } else {
        i
    }
}

/// The end of the run of letters, digits and underscores that starts at `i`.
pub open spec fn ident_end(s: Seq<char>, i: int) -> int
    decreases s.len() - i,
{
    if 0 <= i < s.len() && (is_alpha_char(s[i]) || is_digit_char(s[i])) {
        ident_end(s, i + 1)
    } else {
        i
    }
}

/// The first line break at or after `i`, or the end of the text.
pub open spec fn line_end(s: Seq<char>, i: int) -> int
    decreases s.len() - i,
{
    if 0 <= i < s.len() && s[i] != '\n' {
        line_end(s, i + 1)
    } else {
        i
    }
}

/// The first double quote at or after `i`, or the end of the text.
pub open spec fn quote_end(s: Seq<char>, i: int) -> int
    decreases s.len() - i,
{
    if 0 <= i < s.len() && s[i] != '"' {
        quote_end(s, i + 1)
    } else {
        i
    }
}

pub open spec fn count_newlines(s: Seq<char>) -> int
    decreases s.len(),
{
    if s.len() == 0 {
        0
    } else {
        count_newlines(s.drop_last()) + if s.last() == '\n' {
            1int
        } else {
            0
        }
    }
}

/// The decimal value of a sequence of digits.
pub open spec fn digits_value(s: Seq<char>) -> int
    decreases s.len(),
{
    if s.len() == 0 {
        0
    } else {
        digits_value(s.drop_last()) * 10 + (s.last() as int - '0' as int)
    }
}

pub open spec fn pow10(k: nat) -> int
    decreases k,
{
    if k == 0 {
        1
    } else {
        10 * pow10((k - 1) as nat)
    }
}

pub open spec fn unexpected_char_message() -> Seq<char> {
    "Unexpected character."@
}

pub open spec fn unterminated_message() -> Seq<char> {
    "Unterminated string."@
}

pub open spec fn number_range_message() -> Seq<char> {
    "Number out of range."@
}

/// One step of the scan: the token it adds, the error it reports, where the
/// next step starts, and the line there.
pub struct Lexed {
    pub token: Option<TokenView>,
    pub error: Option<(Seq<char>, int)>,
    pub next: int,
    pub line: int,
}

pub open spec fn opt_seq<T>(o: Option<T>) -> Seq<T> {
    match o {
        Some(x) => seq![x],
        None => Seq::empty(),
    }
}

/// A sequence with an optional item added at its end.
pub open spec fn append_opt<T>(a: Seq<T>, o: Option<T>) -> Seq<T> {
    match o {
        Some(x) => a.push(x),
        None => a,
    }
}

proof fn lemma_append_opt<T>(a: Seq<T>, o: Option<T>, r: Seq<T>)
    ensures
        append_opt(a, o) + r == a + (opt_seq(o) + r),
{
    match o {
        Some(x) => {
            assert(a.push(x) + r =~= a + (seq![x] + r));
        },
        None => {
            assert(a + (Seq::<T>::empty() + r) =~= a + r);
        },
    }
}

pub open spec fn plain(kind: TokenType, s: Seq<char>, p: int, n: int, line: int) -> Lexed {
    Lexed {
        token: Some(TokenView { kind, lexeme: s.subrange(p, p + n), literal: Value::Nil, line }),
        error: None,
        next: p + n,
        line,
    }
}

pub open spec fn skip(next: int, line: int) -> Lexed {
    Lexed { token: None, error: None, next, line }
}

/// A one-character operator, or its two-character form when `=` follows.
pub open spec fn with_equal(
    s: Seq<char>,
    p: int,
    line: int,
    one: TokenType,
    two: TokenType,
) -> Lexed {
    if char_at(s, p + 1) == '=' {
        plain(two, s, p, 2, line)
    } else {
        plain(one, s, p, 1, line)
    }
}

/// A string literal opened at `p`: its token, or an error when no quote closes it.
pub open spec fn string_step(s: Seq<char>, p: int, line: int) -> Lexed {
    let q = quote_end(s, p + 1);
    let l = line + count_newlines(s.subrange(p + 1, q));
    if q >= s.len() {
        Lexed { token: None, error: Some((unterminated_message(), l)), next: s.len() as int, line: l }
    } else {
        Lexed {
            token: Some(
                TokenView {
                    kind: TokenType::String,
                    lexeme: s.subrange(p, q + 1),
                    literal: Value::Str(s.subrange(p + 1, q)),
                    line: l,
                },
            ),
            error: None,
            next: q + 1,
            line: l,
        }
    }
}

/// Whether the number that starts at `p` has a fraction: a dot and a digit
/// after its first digits.
pub open spec fn has_fraction(s: Seq<char>, p: int) -> bool {
    let e = digits_end(s, p + 1);
    char_at(s, e) == '.' && is_digit_char(char_at(s, e + 1))
}

/// A number literal that starts at `p`: the fraction of its digits over a
/// power of ten, or an error when that does not fit.
pub open spec fn number_step(s: Seq<char>, p: int, line: int) -> Lexed {
    let e = digits_end(s, p + 1);
    let f = if has_fraction(s, p) {
        digits_end(s, e + 2)
    } else {
        e
    };
    let digits = if has_fraction(s, p) {
        s.subrange(p, e) + s.subrange(e + 1, f)
    } else {
        s.subrange(p, e)
    };
    let k: nat = if has_fraction(s, p) {
        (f - e - 1) as nat
    } else {
        0
    };
    let n = digits_value(digits);
    let d = pow10(k);
    if Number::fits(n, d) {
        Lexed {
            token: Some(
                TokenView {
                    kind: TokenType::Number,
                    lexeme: s.subrange(p, f),
                    literal: Value::Number(n, d),
                    line,
                },
            ),
            error: None,
            next: f,
            line,
        }
    } else {
        Lexed { token: None, error: Some((number_range_message(), line)), next: f, line }
    }
}

/// An identifier or keyword that starts at `p`.
pub open spec fn word_step(s: Seq<char>, p: int, line: int) -> Lexed {
    let e = ident_end(s, p + 1);
    let text = s.subrange(p, e);
    let kind = match keyword_kind(text) {
        Some(k) => k,
        None => TokenType::Identifier,
    };
    Lexed {
        token: Some(TokenView { kind, lexeme: text, literal: Value::Nil, line }),
        error: None,
        next: e,
        line,
    }
}

/// The scan step at `p`, for `p` inside the text.
pub open spec fn lex_step(s: Seq<char>, p: int, line: int) -> Lexed {
    let c = s[p];
    if c == '(' {
        plain(TokenType::LeftParen, s, p, 1, line)
    } else if c == ')' {
        plain(TokenType::RightParen, s, p, 1, line)
    } else if c == '{' {
        plain(TokenType::LeftBrace, s, p, 1, line)
    } else if c == '}' {
        plain(TokenType::RightBrace, s, p, 1, line)
    } else if c == ',' {
        plain(TokenType::Comma, s, p, 1, line)
    } else if c == '.' {
        plain(TokenType::Dot, s, p, 1, line)
    } else if c == '-' {
        plain(TokenType::Minus, s, p, 1, line)
    } else if c == '+' {
        plain(TokenType::Plus, s, p, 1, line)
    } else if c == ';' {
        plain(TokenType::Semicolon, s, p, 1, line)
    } else if c == '*' {
        plain(TokenType::Star, s, p, 1, line)
    } else if c == '!' {
        with_equal(s, p, line, TokenType::Bang, TokenType::BangEqual)
    } else if c == '=' {
        with_equal(s, p, line, TokenType::Equal, TokenType::EqualEqual)
    } else if c == '<' {
        with_equal(s, p, line, TokenType::Less, TokenType::LessEqual)
    } else if c == '>' {
        with_equal(s, p, line, TokenType::Greater, TokenType::GreaterEqual)
    } else if c == '/' {
        if char_at(s, p + 1) == '/' {
            skip(line_end(s, p + 2), line)
        } else {
            plain(TokenType::Slash, s, p, 1, line)
        }
    } else if c == ' ' || c == '\r' || c == '\t' {
        skip(p + 1, line)
    } else if c == '\n' {
        skip(p + 1, line + 1)
    } else if c == '"' {
        string_step(s, p, line)
    } else if is_digit_char(c) {
        number_step(s, p, line)
    } else if is_alpha_char(c) {
        word_step(s, p, line)
    } else {
        Lexed { token: None, error: Some((unexpected_char_message(), line)), next: p + 1, line }
    }
}

/// The tokens, the errors and the final line of a scan from `p` on.
pub open spec fn scan_from(s: Seq<char>, p: int, line: int) -> (
    Seq<TokenView>,
    Seq<(Seq<char>, int)>,
    int,
)
    decreases s.len() - p,
{
    if p < 0 || p >= s.len() {
        (Seq::empty(), Seq::empty(), line)
    } else {
        let st = lex_step(s, p, line);
        if st.next <= p || st.next > s.len() {
            (Seq::empty(), Seq::empty(), line)
        } else {
            let rest = scan_from(s, st.next, st.line);
            (opt_seq(st.token) + rest.0, opt_seq(st.error) + rest.1, rest.2)
        }
    }
}

/// The end-of-input token on a given line.
pub open spec fn eof_view(line: int) -> TokenView {
    TokenView { kind: TokenType::EOF, lexeme: Seq::empty(), literal: Value::Nil, line }
}

/// The tokens of a whole text: those of the scan, then one `EOF`.
pub open spec fn scan(s: Seq<char>) -> Seq<TokenView> {
    let r = scan_from(s, 0, 1);
    r.0.push(eof_view(r.2))
}

/// The lexical errors of a whole text, in order.
pub open spec fn scan_errors(s: Seq<char>) -> Seq<(Seq<char>, int)> {
    scan_from(s, 0, 1).1
}

proof fn lemma_pow10_grows(a: nat, b: nat)
    requires
        a <= b,
    ensures
        1 <= pow10(a) <= pow10(b),
    decreases b,
{
    if b > a {
        lemma_pow10_grows(a, (b - 1) as nat);
    } else if a > 0 {
        lemma_pow10_grows((a - 1) as nat, (a - 1) as nat);
    }
}

/// Ten to the `k`, when it fits the largest denominator.
fn power_of_ten(k: usize) -> (r: Option<i64>)
    ensures
        r is Some <==> pow10(k as nat) <= i64::MAX,
        r matches Some(d) ==> d == pow10(k as nat),
{
    let mut d: i64 = 1;
    let mut j: usize = 0;
    while j < k
        invariant
            j <= k,
            d == pow10(j as nat),
            1 <= d <= i64::MAX,
        decreases k - j,
    {
        if d > i64::MAX / 10 {
            proof {
                lemma_pow10_grows((j + 1) as nat, k as nat);
            }
            return None;
        }
        d = d * 10;
        j = j + 1;
    }
    Some(d)
}

proof fn lemma_step_not_eof(s: Seq<char>, p: int, line: int)
    requires
        0 <= p < s.len(),
    ensures
        lex_step(s, p, line).token matches Some(t) ==> t.kind != TokenType::EOF,
{
    let text = s.subrange(p, ident_end(s, p + 1));
    assert(keyword_kind(text) matches Some(k) ==> k != TokenType::EOF);
}

proof fn lemma_scan_no_eof(s: Seq<char>, p: int, line: int)
    ensures
        forall|i: int|
            0 <= i < scan_from(s, p, line).0.len() ==> (#[trigger] scan_from(s, p, line).0[i]).kind
                != TokenType::EOF,
    decreases s.len() - p,
{
    if 0 <= p < s.len() {
        let st = lex_step(s, p, line);
        if !(st.next <= p || st.next > s.len()) {
            lemma_step_not_eof(s, p, line);
            lemma_scan_no_eof(s, st.next, st.line);
            let rest = scan_from(s, st.next, st.line);
            assert(scan_from(s, p, line).0 == opt_seq(st.token) + rest.0);
            assert forall|i: int| 0 <= i < scan_from(s, p, line).0.len() implies (
            #[trigger] scan_from(s, p, line).0[i]).kind != TokenType::EOF by {
                if st.token is Some && i == 0 {
                } else if st.token is Some {
                    assert(scan_from(s, p, line).0[i] == rest.0[i - 1]);
                } else {
                    assert(scan_from(s, p, line).0[i] == rest.0[i]);
                }
            }
        }
    }
}

/// Every scan ends with an `EOF` token, and that is its only `EOF`.
pub proof fn law_one_eof_at_end(s: Seq<char>)
    ensures
        scan(s).len() >= 1,
        scan(s).last().kind == TokenType::EOF,
        forall|i: int| 0 <= i < scan(s).len() - 1 ==> (#[trigger] scan(s)[i]).kind != TokenType::EOF,
{
    lemma_scan_no_eof(s, 0, 1);
    let r = scan_from(s, 0, 1);
    assert forall|i: int| 0 <= i < scan(s).len() - 1 implies (#[trigger] scan(s)[i]).kind
        != TokenType::EOF by {
        assert(scan(s)[i] == r.0[i]);
    }
}

/// Scans source text into tokens, collecting lexical errors on the way.
pub struct Scanner {
    source: String,
    chars: Vec<char>,
    tokens: Vec<Token>,
    errors: Vec<GloxError>,
    start: usize,
    current: usize,
    line: usize,
    keywords: Vec<(String, TokenType)>,
}

impl Scanner {
    pub closed spec fn spec_source(&self) -> Seq<char> {
        self.source@
    }

    pub closed spec fn spec_errors(&self) -> Seq<GloxError> {
        self.errors@
    }

    pub closed spec fn wf(&self) -> bool {
        &&& self.chars@ == self.source@
        &&& self.source@.len() < usize::MAX
        &&& is_keyword_table(self.keywords@)
        &&& self.start <= self.current <= self.chars@.len()
        &&& 1 <= self.line <= self.current + 1
    }

    /// The state a step leaves, over the one it started from.
    spec fn stepped(&self, o: &Scanner, st: Lexed) -> bool {
        &&& self.wf()
        &&& self.source == o.source
        &&& self.chars == o.chars
        &&& self.keywords == o.keywords
        &&& self.current == st.next
        &&& self.line == st.line
        &&& tokens_view(self.tokens@) == append_opt(tokens_view(o.tokens@), st.token)
        &&& errors_view(self.errors@) == append_opt(errors_view(o.errors@), st.error)
    }

    pub fn new(source: String) -> (r: Scanner)
        requires
            source@.len() < usize::MAX,
        ensures
            r.wf(),
            r.spec_source() == source@,
    {
        let n = source.as_str().unicode_len();
        let mut chars: Vec<char> = Vec::new();
        let mut i: usize = 0;
        while i < n
            invariant
                n == source@.len(),
                i <= n,
                chars@ == source@.subrange(0, i as int),
            decreases n - i,
        {
            chars.push(source.as_str().get_char(i));
            i = i + 1;
        }
        assert(chars@ =~= source@);
        Scanner {
            source,
            chars,
            tokens: Vec::new(),
            errors: Vec::new(),
            start: 0,
            current: 0,
            line: 1,
            keywords: get_keywords(),
        }
    }

    /// The lexical errors of the last scan, in order.
    pub fn errors(&self) -> (r: &Vec<GloxError>)
        ensures
            r@ == self.spec_errors(),
    {
        &self.errors
    }

    /// Hands over the lexical errors of the last scan, in order.
    pub fn take_errors(self) -> (r: Vec<GloxError>)
        ensures
            r@ == self.spec_errors(),
    {
        self.errors
    }

    /// Scans the whole source from its start: the tokens, ended by exactly
    /// one `EOF`. Lexical errors do not stop the scan; they are kept.
    pub fn scan_tokens(&mut self) -> (r: Vec<Token>)
        requires
            old(self).wf(),
        ensures
            final(self).wf(),
            final(self).spec_source() == old(self).spec_source(),
            tokens_view(r@) == scan(old(self).spec_source()),
            errors_view(final(self).spec_errors()) == scan_errors(old(self).spec_source()),
    {
        self.tokens = Vec::new();
        self.errors = Vec::new();
        self.start = 0;
        self.current = 0;
        self.line = 1;
        let ghost s = self.source@;
        assert(tokens_view(self.tokens@) =~= Seq::empty());
        assert(errors_view(self.errors@) =~= Seq::empty());
        while !self.is_at_end()
            invariant
                self.wf(),
                self.source@ == s,
                ({
                    let rest = scan_from(s, self.current as int, self.line as int);
                    let all = scan_from(s, 0, 1);
                    &&& tokens_view(self.tokens@) + rest.0 == all.0
                    &&& errors_view(self.errors@) + rest.1 == all.1
                    &&& rest.2 == all.2
                }),
            decreases s.len() - self.current,
        {
            self.start = self.current;
            let ghost before = *self;
            self.scan_token();
            proof {
                let st = lex_step(s, before.current as int, before.line as int);
                let rest = scan_from(s, self.current as int, self.line as int);
                lemma_append_opt(tokens_view(before.tokens@), st.token, rest.0);
                lemma_append_opt(errors_view(before.errors@), st.error, rest.1);
            }
        }
        let eof = Token {
            token_type: TokenType::EOF,
            lexeme: String::new(),
            literal: Literal::Nil,
            line: self.line,
        };
        let ghost before = self.tokens@;
        self.tokens.push(eof);
        proof {
            assert(tokens_view(self.tokens@) =~= tokens_view(before).push(token_view(eof)));
            assert(tokens_view(before) =~= tokens_view(before) + Seq::<TokenView>::empty());
            assert(errors_view(self.errors@) =~= errors_view(self.errors@) + Seq::<
                (Seq<char>, int),
            >::empty());
        }
        let mut out: Vec<Token> = Vec::new();
        let mut i: usize = 0;
        while i < self.tokens.len()
            invariant
                i <= self.tokens@.len(),
                out@ == self.tokens@.subrange(0, i as int),
            decreases self.tokens@.len() - i,
        {
            out.push(self.tokens[i].duplicate());
            i = i + 1;
        }
        proof {
            assert(out@ =~= self.tokens@);
        }
        out
    }

    fn scan_token(&mut self)
        requires
            old(self).wf(),
            old(self).current < old(self).chars@.len(),
            old(self).start == old(self).current,
        ensures
            final(self).stepped(
                old(self),
                lex_step(old(self).source@, old(self).current as int, old(self).line as int),
            ),
            final(self).current > old(self).current,
    {
        let ghost s = self.source@;
        let ghost p = self.current as int;
        let ghost line = self.line as int;
        let c = self.advance();
        if c == '(' {
            self.add_token(TokenType::LeftParen);
        } else if c == ')' {
            self.add_token(TokenType::RightParen);
        } else if c == '{' {
            self.add_token(TokenType::LeftBrace);
        } else if c == '}' {
            self.add_token(TokenType::RightBrace);
        } else if c == ',' {
            self.add_token(TokenType::Comma);
        } else if c == '.' {
            self.add_token(TokenType::Dot);
        } else if c == '-' {
            self.add_token(TokenType::Minus);
        } else if c == '+' {
            self.add_token(TokenType::Plus);
        } else if c == ';' {
            self.add_token(TokenType::Semicolon);
        } else if c == '*' {
            self.add_token(TokenType::Star);
        } else if c == '!' {
            let two = self.check('=');
            self.add_token(if two { TokenType::BangEqual } else { TokenType::Bang });
        } else if c == '=' {
            let two = self.check('=');
            self.add_token(if two { TokenType::EqualEqual } else { TokenType::Equal });
        } else if c == '<' {
            let two = self.check('=');
            self.add_token(if two { TokenType::LessEqual } else { TokenType::Less });
        } else if c == '>' {
            let two = self.check('=');
            self.add_token(if two { TokenType::GreaterEqual } else { TokenType::Greater });
        } else if c == '/' {
            if self.check('/') {
                while self.peek() != '\n' && !self.is_at_end()
                    invariant
                        self.wf(),
                        self.source@ == s,
                        self.line == line,
                        p + 2 <= self.current,
                        line_end(s, p + 2) == line_end(s, self.current as int),
                        self.tokens@ == old(self).tokens@,
                        self.errors@ == old(self).errors@,
                        self.keywords == old(self).keywords,
                        self.chars == old(self).chars,
                        self.source == old(self).source,
                    decreases s.len() - self.current,
                {
                    self.advance();
                }
            } else {
                self.add_token(TokenType::Slash);
            }
        } else if c == ' ' || c == '\r' || c == '\t' {
        } else if c == '\n' {
            self.line = self.line + 1;
        } else if c == '"' {
            self.handle_string();
        } else if Self::is_digit(c) {
            self.handle_number();
        } else if Self::is_alpha(c) {
            self.handle_identifier();
        } else {
            self.add_error("Unexpected character.", self.line);
            proof {
                reveal_strlit("Unexpected character.");
            }
        }
    }

    /// Steps over the current character and returns it.
    fn advance(&mut self) -> (c: char)
        requires
            old(self).wf(),
            old(self).current < old(self).chars@.len(),
        ensures
            c == old(self).chars@[old(self).current as int],
            *final(self) == (Scanner { current: (old(self).current + 1) as usize, ..*old(self) }),
            final(self).wf(),
    {
        let c = self.chars[self.current];
        self.current = self.current + 1;
        c
    }

    /// Steps over the current character when it is `c`.
    fn check(&mut self, c: char) -> (r: bool)
        requires
            old(self).wf(),
        ensures
            r == (old(self).current < old(self).chars@.len() && old(self).chars@[old(
                self,
            ).current as int] == c),
            r ==> *final(self) == (Scanner { current: (old(self).current + 1) as usize, ..*old(self) }),
            !r ==> *final(self) == *old(self),
            final(self).wf(),
    {
        if self.is_at_end() {
            return false;
        } else if self.chars[self.current] != c {
            return false;
        }
        self.current = self.current + 1;
        true
    }

    fn peek(&self) -> (r: char)
        ensures
            r == char_at(self.chars@, self.current as int),
    {
        if self.current >= self.chars.len() {
            return '\0';
        }
        self.chars[self.current]
    }

    fn peek_next(&self) -> (r: char)
        ensures
            r == char_at(self.chars@, self.current + 1),
    {
        if self.current >= self.chars.len() || self.current + 1 >= self.chars.len() {
            return '\0';
        }
        self.chars[self.current + 1]
    }

    fn is_at_end(&self) -> (r: bool)
        requires
            self.wf(),
        ensures
            r == (self.current >= self.chars@.len()),
    {
        self.current == self.chars.len()
    }

    fn is_digit(c: char) -> (r: bool)
        ensures
            r == is_digit_char(c),
    {
        '0' <= c && c <= '9'
    }

    fn is_alpha(c: char) -> (r: bool)
        ensures
            r == is_alpha_char(c),
    {
        ('a' <= c && c <= 'z') || ('A' <= c && c <= 'Z') || c == '_'
    }

    fn is_alphanumeric(c: char) -> (r: bool)
        ensures
            r == (is_alpha_char(c) || is_digit_char(c)),
    {
        Self::is_alpha(c) || Self::is_digit(c)
    }

    /// The source text between two positions.
    fn text(&self, from: usize, to: usize) -> (r: String)
        requires
            self.wf(),
            from <= to <= self.chars@.len(),
        ensures
            r@ == self.source@.subrange(from as int, to as int),
    {
        String::from_str(self.source.as_str().substring_char(from, to))
    }

    fn add_token(&mut self, token_type: TokenType)
        requires
            old(self).wf(),
            old(self).start <= old(self).current,
        ensures
            *final(self) == (Scanner { tokens: final(self).tokens, ..*old(self) }),
            tokens_view(final(self).tokens@) == tokens_view(old(self).tokens@).push(
                TokenView {
                    kind: token_type,
                    lexeme: old(self).source@.subrange(old(self).start as int, old(self).current as int),
                    literal: Value::Nil,
                    line: old(self).line as int,
                },
            ),
            final(self).wf(),
    {
        self.add_token_literal(token_type, Literal::Nil);
    }

    fn add_token_literal(&mut self, token_type: TokenType, literal: Literal)
        requires
            old(self).wf(),
            old(self).start <= old(self).current,
        ensures
            *final(self) == (Scanner { tokens: final(self).tokens, ..*old(self) }),
            tokens_view(final(self).tokens@) == tokens_view(old(self).tokens@).push(
                TokenView {
                    kind: token_type,
                    lexeme: old(self).source@.subrange(old(self).start as int, old(self).current as int),
                    literal: literal@,
                    line: old(self).line as int,
                },
            ),
            final(self).wf(),
    {
        let lexeme = self.text(self.start, self.current);
        let t = Token { token_type, lexeme, literal, line: self.line };
        self.tokens.push(t);
        proof {
            assert(tokens_view(self.tokens@) =~= tokens_view(old(self).tokens@).push(token_view(t)));
        }
    }

    /// The same text, tables, tokens, errors and lexeme start.
    spec fn same_but_cursor(&self, o: &Scanner) -> bool {
        &&& self.wf()
        &&& self.source == o.source
        &&& self.chars == o.chars
        &&& self.keywords == o.keywords
        &&& self.tokens == o.tokens
        &&& self.errors == o.errors
        &&& self.start == o.start
    }

    fn handle_identifier(&mut self)
        requires
            old(self).wf(),
            old(self).current == old(self).start + 1,
        ensures
            final(self).stepped(
                old(self),
                word_step(old(self).source@, old(self).start as int, old(self).line as int),
            ),
            final(self).current > old(self).start,
    {
        let ghost s = self.source@;
        while Self::is_alphanumeric(self.peek())
            invariant
                self.same_but_cursor(old(self)),
                self.line == old(self).line,
                self.start < self.current,
                ident_end(s, self.start + 1) == ident_end(s, self.current as int),
                s == self.source@,
            decreases s.len() - self.current,
        {
            self.advance();
        }
        let text = self.text(self.start, self.current);
        let token_type = match lookup_keyword(&self.keywords, &text) {
            Some(k) => k,
            None => TokenType::Identifier,
        };
        self.add_token(token_type);
    }

    fn handle_string(&mut self)
        requires
            old(self).wf(),
            old(self).current == old(self).start + 1,
        ensures
            final(self).stepped(
                old(self),
                string_step(old(self).source@, old(self).start as int, old(self).line as int),
            ),
            final(self).current > old(self).start,
    {
        let ghost s = self.source@;
        let ghost p = self.start as int;
        assert(s.subrange(p + 1, p + 1) =~= Seq::<char>::empty());
        while self.peek() != '"' && !self.is_at_end()
            invariant
                self.same_but_cursor(old(self)),
                self.start < self.current,
                self.start == p,
                quote_end(s, p + 1) == quote_end(s, self.current as int),
                self.line == old(self).line + count_newlines(s.subrange(p + 1, self.current as int)),
                s == self.source@,
            decreases s.len() - self.current,
        {
            let ghost cur = self.current as int;
            let c = self.advance();
            if c == '\n' {
                self.line = self.line + 1;
            }
            assert(s.subrange(p + 1, cur + 1).drop_last() =~= s.subrange(p + 1, cur));
        }
        if self.is_at_end() {
            self.add_error("Unterminated string.", self.line);
            proof {
                reveal_strlit("Unterminated string.");
            }
            return;
        }
        self.advance();
        let inner = self.text(self.start + 1, self.current - 1);
        self.add_token_literal(TokenType::String, Literal::Str(inner));
    }

    fn handle_number(&mut self)
        requires
            old(self).wf(),
            old(self).current == old(self).start + 1,
            is_digit_char(old(self).source@[old(self).start as int]),
        ensures
            final(self).stepped(
                old(self),
                number_step(old(self).source@, old(self).start as int, old(self).line as int),
            ),
            final(self).current > old(self).start,
    {
        let ghost s = self.source@;
        let ghost p = self.start as int;
        while Self::is_digit(self.peek())
            invariant
                self.same_but_cursor(old(self)),
                self.line == old(self).line,
                self.start < self.current,
                self.start == p,
                digits_end(s, p + 1) == digits_end(s, self.current as int),
                forall|i: int| p <= i < self.current ==> is_digit_char(#[trigger] s[i]),
                s == self.source@,
            decreases s.len() - self.current,
        {
            self.advance();
        }
        let e = self.current;
        let frac = self.peek() == '.' && Self::is_digit(self.peek_next());
        if frac {
            self.advance();
            assert(digits_end(s, e + 1) == digits_end(s, e + 2));
            while Self::is_digit(self.peek())
                invariant
                    self.same_but_cursor(old(self)),
                    self.line == old(self).line,
                    e + 1 <= self.current,
                    self.start == p,
                    p < e,
                    digits_end(s, e + 2) == digits_end(s, self.current as int),
                    forall|i: int| e + 1 <= i < self.current ==> is_digit_char(#[trigger] s[i]),
                    s == self.source@,
                decreases s.len() - self.current,
            {
                self.advance();
            }
        }
        let f = self.current;
        assert(Seq::<char>::empty() + s.subrange(p, e as int) =~= s.subrange(p, e as int));
        let (num, over) = self.accumulate(self.start, e, 0, false, Ghost(Seq::empty()));
        let (num, over) = if frac {
            self.accumulate(e + 1, f, num, over, Ghost(s.subrange(p, e as int)))
        } else {
            (num, over)
        };
        let k: usize = if frac { f - e - 1 } else { 0 };
        let den = power_of_ten(k);
        proof {
            lemma_pow10_grows(0, k as nat);
        }
        match den {
            Some(d) if !over => {
                match Number::new(num, d) {
                    Some(n) => self.add_token_literal(TokenType::Number, Literal::Number(n)),
                    None => {},
                }
            },
            _ => {
                self.add_error("Number out of range.", self.line);
                proof {
                    reveal_strlit("Number out of range.");
                }
            },
        }
    }

    /// Folds the digits between `from` and `to` into a decimal value, noting
    /// when it passes the largest numerator.
    fn accumulate(&self, from: usize, to: usize, num: i64, over: bool, Ghost(prefix): Ghost<
        Seq<char>,
    >) -> (r: (i64, bool))
        requires
            self.wf(),
            from <= to <= self.chars@.len(),
            forall|i: int| from <= i < to ==> is_digit_char(#[trigger] self.source@[i]),
            !over ==> num == digits_value(prefix) && 0 <= num,
            over ==> digits_value(prefix) > i64::MAX,
        ensures
            !r.1 ==> r.0 == digits_value(prefix + self.source@.subrange(from as int, to as int))
                && 0 <= r.0,
            r.1 ==> digits_value(prefix + self.source@.subrange(from as int, to as int))
                > i64::MAX,
    {
        let ghost s = self.source@;
        let mut num = num;
        let mut over = over;
        let mut i = from;
        assert(prefix + s.subrange(from as int, from as int) =~= prefix);
        while i < to
            invariant
                self.wf(),
                s == self.source@,
                from <= i <= to <= self.chars@.len(),
                forall|j: int| from <= j < to ==> is_digit_char(#[trigger] s[j]),
                !over ==> num == digits_value(prefix + s.subrange(from as int, i as int)) && 0
                    <= num,
                over ==> digits_value(prefix + s.subrange(from as int, i as int)) > i64::MAX,
            decreases to - i,
        {
            let ghost before = prefix + s.subrange(from as int, i as int);
            let ghost after = prefix + s.subrange(from as int, i + 1);
            assert(after.drop_last() =~= before);
            assert(after.last() == s[i as int]);
            let c = self.chars[i];
            let d = (c as u32 - '0' as u32) as i128;
            if !over {
                let v = (num as i128) * 10 + d;
                if v > i64::MAX as i128 {
                    over = true;
                } else {
                    num = v as i64;
                }
            }
            i = i + 1;
        }
        (num, over)
    }

    fn add_error(&mut self, message: &str, line: usize)
        requires
            old(self).wf(),
        ensures
            *final(self) == (Scanner { errors: final(self).errors, ..*old(self) }),
            errors_view(final(self).errors@) == errors_view(old(self).errors@).push(
                (message@, line as int),
            ),
            final(self).wf(),
    {
        let e = GloxError::UnexpectedToken(String::from_str(message), line);
        self.errors.push(e);
        proof {
            assert(errors_view(self.errors@) =~= errors_view(old(self).errors@).push(error_view(e)));
        }
    }
}

} // verus!
