use glox::error::GloxError;
use glox::expr::{Expr, LiteralExpr};
use glox::glox::Glox;
use glox::interpreter::{Interpreter, Visitor};
use glox::parser::Parser;
use glox::scanner::Scanner;
use glox::token::{get_keywords, lookup_keyword, Literal, Number, Token, TokenType};

fn run(source: &str) -> Result<Literal, GloxError> {
    let mut g = Glox::new_for_prompt();
    g.run(source.to_string())
}

fn scan(source: &str) -> (Vec<Token>, Vec<GloxError>) {
    let mut s = Scanner::new(source.to_string());
    let tokens = s.scan_tokens();
    let errors: Vec<GloxError> = s.errors().iter().map(|e| match e {
        GloxError::UnexpectedToken(d, l) => GloxError::UnexpectedToken(d.clone(), *l),
        GloxError::RuntimeError(d) => GloxError::RuntimeError(d.clone()),
    }).collect();
    (tokens, errors)
}

fn kinds(tokens: &[Token]) -> Vec<TokenType> {
    tokens.iter().map(|t| t.token_type).collect()
}

fn is_number(r: &Result<Literal, GloxError>, num: i64, den: i64) -> bool {
    match r {
        Ok(Literal::Number(n)) => n.equals(&Number::new(num, den).unwrap()),
        _ => false,
    }
}

fn is_runtime_error(r: &Result<Literal, GloxError>) -> bool {
    matches!(r, Err(GloxError::RuntimeError(_)))
}

#[test]
fn scan_ends_with_exactly_one_eof() {
    for src in ["", "1 + 2", "// only a comment", "\"open", "@ # $", "a\nb\nc"] {
        let (tokens, _) = scan(src);
        assert_eq!(tokens.last().unwrap().token_type, TokenType::EOF);
        assert_eq!(tokens.iter().filter(|t| t.token_type == TokenType::EOF).count(), 1);
    }
}

#[test]
fn scan_twice_gives_one_eof() {
    let mut s = Scanner::new("1".to_string());
    let first = s.scan_tokens();
    let second = s.scan_tokens();
    assert_eq!(kinds(&first), kinds(&second));
    assert_eq!(kinds(&second), vec![TokenType::Number, TokenType::EOF]);
}

#[test]
fn scan_two_char_operators_and_comment() {
    let (tokens, errors) = scan("!= == <= >= ! = < > / // rest\n*");
    assert_eq!(
        kinds(&tokens),
        vec![
            TokenType::BangEqual,
            TokenType::EqualEqual,
            TokenType::LessEqual,
            TokenType::GreaterEqual,
            TokenType::Bang,
            TokenType::Equal,
            TokenType::Less,
            TokenType::Greater,
            TokenType::Slash,
            TokenType::Star,
            TokenType::EOF,
        ]
    );
    assert_eq!(tokens[9].line, 2);
    assert!(errors.is_empty());
}

#[test]
fn scan_keywords_and_identifiers() {
    let (tokens, _) = scan("and or_else while _x9 nil");
    assert_eq!(
        kinds(&tokens),
        vec![
            TokenType::And,
            TokenType::Identifier,
            TokenType::While,
            TokenType::Identifier,
            TokenType::Nil,
            TokenType::EOF,
        ]
    );
    assert_eq!(tokens[1].lexeme, "or_else");
}

#[test]
fn keyword_table_has_sixteen_entries() {
    let table = get_keywords();
    assert_eq!(table.len(), 16);
    assert_eq!(lookup_keyword(&table, &"class".to_string()), Some(TokenType::Class));
    assert_eq!(lookup_keyword(&table, &"klass".to_string()), None);
}

#[test]
fn scan_string_spans_lines() {
    let (tokens, errors) = scan("\"a\nb\" 1");
    assert_eq!(tokens[0].token_type, TokenType::String);
    assert_eq!(tokens[0].lexeme, "\"a\nb\"");
    match &tokens[0].literal {
        Literal::Str(s) => assert_eq!(s, "a\nb"),
        _ => panic!("string literal expected"),
    }
    assert_eq!(tokens[0].line, 2);
    assert_eq!(tokens[1].line, 2);
    assert!(errors.is_empty());
}

#[test]
fn scan_unterminated_string_reports_and_ends() {
    let (tokens, errors) = scan("1 \"abc\n");
    assert_eq!(kinds(&tokens), vec![TokenType::Number, TokenType::EOF]);
    assert_eq!(tokens[1].line, 2);
    assert_eq!(errors.len(), 1);
    match &errors[0] {
        GloxError::UnexpectedToken(d, l) => {
            assert_eq!(d, "Unterminated string.");
            assert_eq!(*l, 2);
        }
        _ => panic!("lexical error expected"),
    }
}

#[test]
fn scan_unexpected_character_continues() {
    let (tokens, errors) = scan("1 @ 2");
    assert_eq!(kinds(&tokens), vec![TokenType::Number, TokenType::Number, TokenType::EOF]);
    assert_eq!(errors.len(), 1);
    assert!(matches!(&errors[0], GloxError::UnexpectedToken(d, 1) if d == "Unexpected character."));
}

#[test]
fn scan_numbers_with_and_without_fraction() {
    let (tokens, _) = scan("12.5 7. .5");
    assert_eq!(
        kinds(&tokens),
        vec![
            TokenType::Number,
            TokenType::Number,
            TokenType::Dot,
            TokenType::Dot,
            TokenType::Number,
            TokenType::EOF,
        ]
    );
    assert_eq!(tokens[0].lexeme, "12.5");
    match &tokens[0].literal {
        Literal::Number(n) => {
            assert_eq!(n.numerator(), 125);
            assert_eq!(n.denominator(), 10);
        }
        _ => panic!("number literal expected"),
    }
    assert_eq!(tokens[1].lexeme, "7");
}

#[test]
fn scan_number_out_of_range_is_reported() {
    let (tokens, errors) = scan("99999999999999999999");
    assert_eq!(kinds(&tokens), vec![TokenType::EOF]);
    assert!(matches!(&errors[0], GloxError::UnexpectedToken(d, 1) if d == "Number out of range."));
}

#[test]
fn left_associative_subtraction() {
    assert!(is_number(&run("8-4-2"), 2, 1));
    assert!(!is_number(&run("8-4-2"), 6, 1));
}

#[test]
fn left_associative_division() {
    assert!(is_number(&run("8/4/2"), 1, 1));
}

#[test]
fn precedence_of_factor_over_term() {
    assert!(is_number(&run("2+3*4"), 14, 1));
    assert!(is_number(&run("(2+3)*4"), 20, 1));
}

#[test]
fn fractions_are_exact() {
    assert!(is_number(&run("7/2"), 7, 2));
    assert!(is_number(&run("1.5*2"), 3, 1));
    assert!(is_number(&run("0.1+0.2"), 3, 10));
    assert!(matches!(run("0.1+0.2==0.3"), Ok(Literal::Bool(true))));
}

#[test]
fn negation_and_its_error() {
    assert!(is_number(&run("-3"), -3, 1));
    assert!(is_number(&run("--3"), 3, 1));
    assert!(is_runtime_error(&run("-\"a\"")));
}

#[test]
fn division_by_zero_is_a_runtime_error() {
    assert!(is_runtime_error(&run("1/0")));
}

#[test]
fn string_concatenation() {
    match run("\"ab\"+\"cd\"") {
        Ok(Literal::Str(s)) => assert_eq!(s, "abcd"),
        _ => panic!("string expected"),
    }
}

#[test]
fn type_mismatch_is_a_runtime_error() {
    assert!(is_runtime_error(&run("1+\"a\"")));
    assert!(is_runtime_error(&run("1<\"a\"")));
    assert!(is_runtime_error(&run("true*2")));
    assert!(is_runtime_error(&run("nil-nil")));
}

#[test]
fn equality_across_types_is_false() {
    assert!(matches!(run("1==\"1\""), Ok(Literal::Bool(false))));
    assert!(matches!(run("1!=\"1\""), Ok(Literal::Bool(true))));
    assert!(matches!(run("nil==nil"), Ok(Literal::Bool(true))));
    assert!(matches!(run("nil==false"), Ok(Literal::Bool(false))));
    assert!(matches!(run("\"a\"==\"a\""), Ok(Literal::Bool(true))));
}

#[test]
fn comparisons() {
    assert!(matches!(run("1<2"), Ok(Literal::Bool(true))));
    assert!(matches!(run("2<=2"), Ok(Literal::Bool(true))));
    assert!(matches!(run("3<=2"), Ok(Literal::Bool(false))));
    assert!(matches!(run("2>=3"), Ok(Literal::Bool(false))));
    assert!(matches!(run("3>2"), Ok(Literal::Bool(true))));
}

#[test]
fn truthiness_of_not() {
    assert!(matches!(run("!nil"), Ok(Literal::Bool(true))));
    assert!(matches!(run("!0"), Ok(Literal::Bool(false))));
    assert!(matches!(run("!\"\""), Ok(Literal::Bool(false))));
    assert!(matches!(run("!false"), Ok(Literal::Bool(true))));
    assert!(matches!(run("!!true"), Ok(Literal::Bool(true))));
}

#[test]
fn unterminated_grouping_is_unexpected_token() {
    match run("(1+2") {
        Err(GloxError::UnexpectedToken(d, l)) => {
            assert_eq!(d, "Expect ')' after expression.");
            assert_eq!(l, 1);
        }
        _ => panic!("parse error expected"),
    }
}

#[test]
fn unmatched_token_is_unexpected_token() {
    match run("\n)") {
        Err(GloxError::UnexpectedToken(d, l)) => {
            assert_eq!(d, ")");
            assert_eq!(l, 2);
        }
        _ => panic!("parse error expected"),
    }
}

#[test]
fn parse_error_sets_the_flag() {
    let mut g = Glox::new_for_prompt();
    assert!(!g.had_error());
    assert!(is_runtime_error(&g.run("1+nil".to_string())));
    assert!(!g.had_error());
    assert!(g.run("*".to_string()).is_err());
    assert!(g.had_error());
    g.reset_error();
    assert!(!g.had_error());
}

#[test]
fn literals_evaluate_to_themselves_repeatably() {
    let interpreter = Interpreter::new();
    for _ in 0..3 {
        match run("\"42\"") {
            Ok(Literal::Str(s)) => assert_eq!(s, "42"),
            _ => panic!("string expected"),
        }
        assert!(matches!(run("true"), Ok(Literal::Bool(true))));
        assert!(matches!(run("nil"), Ok(Literal::Nil)));
        let e = Expr::Literal(LiteralExpr { value: Literal::Bool(false) });
        assert!(matches!(interpreter.interpret(&e), Ok(Literal::Bool(false))));
    }
}

#[test]
fn accept_dispatches_to_the_interpreter() {
    let mut s = Scanner::new("(1+2)*-3".to_string());
    let mut p = Parser::new(s.scan_tokens());
    let e = p.parse().unwrap();
    let r = e.accept(&Interpreter::new());
    assert!(is_number(&r, -9, 1));
}

#[test]
fn token_new_keeps_fields() {
    let t = Token::new(TokenType::Plus, "+".to_string(), Literal::Nil, 3);
    assert_eq!(t.token_type, TokenType::Plus);
    assert_eq!(t.lexeme, "+");
    assert_eq!(t.line, 3);
}

#[test]
fn nesting_up_to_the_limit_parses() {
    let src = format!("{}1{}", "(".repeat(64), ")".repeat(64));
    assert!(is_number(&run(&src), 1, 1));
    let src = format!("{}true", "!".repeat(64));
    assert!(matches!(run(&src), Ok(Literal::Bool(true))));
}

#[test]
fn nesting_past_the_limit_is_unexpected_token() {
    let src = format!("{}1{}", "(".repeat(65), ")".repeat(65));
    match run(&src) {
        Err(GloxError::UnexpectedToken(d, 1)) => assert_eq!(d, "Expression nested too deeply."),
        _ => panic!("nesting error expected"),
    }
    let src = format!("{}1", "-".repeat(100_000));
    assert!(matches!(run(&src), Err(GloxError::UnexpectedToken(_, 1))));
    let src = "(".repeat(100_000);
    assert!(matches!(run(&src), Err(GloxError::UnexpectedToken(_, 1))));
}

#[test]
fn run_keeps_lexical_errors() {
    let mut g = Glox::new_for_prompt();
    assert!(g.lexical_errors().is_empty());
    assert!(is_number(&g.run("1 @ 2".to_string()), 1, 1));
    assert_eq!(g.lexical_errors().len(), 1);
    assert!(matches!(&g.lexical_errors()[0], GloxError::UnexpectedToken(d, 1) if d == "Unexpected character."));
    assert!(g.run("\"abc".to_string()).is_err());
    assert!(matches!(&g.lexical_errors()[0], GloxError::UnexpectedToken(d, 1) if d == "Unterminated string."));
    assert!(is_number(&g.run("3".to_string()), 3, 1));
    assert!(g.lexical_errors().is_empty());
}

#[test]
fn visitor_methods_give_node_values() {
    let interpreter = Interpreter::new();
    let mut s = Scanner::new("1<=1".to_string());
    let e = Parser::new(s.scan_tokens()).parse().unwrap();
    match &e {
        Expr::Binary(b) => assert!(matches!(interpreter.visit_binary(b), Ok(Literal::Bool(true)))),
        _ => panic!("binary expected"),
    }
    let mut s = Scanner::new("-(2)".to_string());
    let e = Parser::new(s.scan_tokens()).parse().unwrap();
    match &e {
        Expr::Unary(u) => {
            assert!(is_number(&interpreter.visit_unary(u), -2, 1));
            match u.right.as_ref() {
                Expr::Grouping(g) => assert!(is_number(&interpreter.visit_grouping(g), 2, 1)),
                _ => panic!("grouping expected"),
            }
        }
        _ => panic!("unary expected"),
    }
    let lit = LiteralExpr { value: Literal::Nil };
    assert!(matches!(interpreter.visit_literal(&lit), Ok(Literal::Nil)));
    let mut s = Scanner::new("nil + 1 + \"a\"".to_string());
    let e = Parser::new(s.scan_tokens()).parse().unwrap();
    assert!(is_runtime_error(&e.accept(&interpreter)));
}
