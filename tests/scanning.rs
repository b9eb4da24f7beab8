use hiscript::error::ErrorManager;
use hiscript::expr::Expr;
use hiscript::lexer::Lexer;
use hiscript::literal::{FloatArith, Literal};
use hiscript::parser::Parser;
use hiscript::token::{Token, TokenType};

struct Host;

impl FloatArith for Host {
    fn parse_decimal(&self, text: &str) -> u64 {
        text.parse::<f64>().map(f64::to_bits).unwrap_or(0)
    }
    fn from_int(&self, i: i64) -> u64 {
        (i as f64).to_bits()
    }
    fn arith(&self, op: TokenType, a: u64, b: u64) -> u64 {
        let (x, y) = (f64::from_bits(a), f64::from_bits(b));
        let r = match op {
            TokenType::PLUS => x + y,
            TokenType::MINUS => x - y,
            TokenType::STAR => x * y,
            TokenType::SLASH => x / y,
            _ => x % y,
        };
        r.to_bits()
    }
    fn compare(&self, op: TokenType, a: u64, b: u64) -> bool {
        let (x, y) = (f64::from_bits(a), f64::from_bits(b));
        match op {
            TokenType::BANGEQUAL => x != y,
            TokenType::EQUALEQUAL => x == y,
            TokenType::GREATER => x > y,
            TokenType::GREATEREQUAL => x >= y,
            TokenType::LESS => x < y,
            _ => x <= y,
        }
    }
    fn debug_text(&self, a: u64) -> String {
        format!("{:?}", f64::from_bits(a))
    }
    fn display_text(&self, a: u64) -> String {
        format!("{}", f64::from_bits(a))
    }
}

fn scan(src: &str) -> (Vec<Token>, ErrorManager) {
    let mut errors = ErrorManager::new();
    let source = src.to_string();
    let tokens = Lexer::new(&source).scan_tokens(&mut errors, &Host);
    (tokens, errors)
}

fn kinds(tokens: &[Token]) -> Vec<TokenType> {
    tokens.iter().map(|t| t.token_type).collect()
}

fn parse(src: &str) -> (Option<Box<Expr>>, ErrorManager) {
    let (tokens, mut errors) = scan(src);
    let parsed = Parser::new(tokens).parse(&mut errors);
    (parsed, errors)
}

#[test]
fn eof_ends_every_stream_once() {
    for src in ["", "1 + 2", "\"abc", "@#", "// only a comment", "a\nb\n", "3.", "(((", "x = \"s\" // c\n 4.5"] {
        let (tokens, _) = scan(src);
        assert_eq!(tokens.last().unwrap().token_type, TokenType::EOF);
        assert_eq!(tokens.iter().filter(|t| t.token_type == TokenType::EOF).count(), 1);
    }
}

#[test]
fn empty_source_gives_only_eof() {
    let (tokens, errors) = scan("");
    assert_eq!(tokens.len(), 1);
    assert_eq!(tokens[0].line, 1);
    assert_eq!(tokens[0].lexeme, "");
    assert!(!errors.has_errors());
}

#[test]
fn float_literal_is_one_token() {
    let (tokens, errors) = scan("3.14");
    assert_eq!(kinds(&tokens), vec![TokenType::FLOAT, TokenType::EOF]);
    assert_eq!(tokens[0].lexeme, "3.14");
    assert!(matches!(tokens[0].literal, Some(Literal::Float(b)) if f64::from_bits(b) == 3.14));
    assert!(errors.errors().is_empty());
}

#[test]
fn trailing_dot_is_separate() {
    let (tokens, errors) = scan("3.");
    assert_eq!(kinds(&tokens), vec![TokenType::INTEGER, TokenType::DOT, TokenType::EOF]);
    assert!(matches!(tokens[0].literal, Some(Literal::Int(3))));
    assert_eq!(tokens[1].lexeme, ".");
    assert!(errors.errors().is_empty());
}

#[test]
fn second_dot_stops_the_number() {
    let (tokens, _) = scan("1.2.3");
    assert_eq!(kinds(&tokens), vec![TokenType::FLOAT, TokenType::DOT, TokenType::INTEGER, TokenType::EOF]);
    assert_eq!(tokens[0].lexeme, "1.2");
}

#[test]
fn unterminated_string_reports_once() {
    let (tokens, errors) = scan("\"abc");
    assert_eq!(errors.errors().len(), 1);
    assert!(errors.errors()[0].message.contains("Unterminated String"));
    assert_eq!(errors.errors()[0].why, "");
    assert!(tokens.iter().all(|t| t.token_type != TokenType::STRING));
    assert!(errors.has_errors());
}

#[test]
fn unterminated_string_line_is_where_scanning_stopped() {
    let (_, errors) = scan("\"a\nb\nc");
    assert_eq!(errors.errors()[0].line, 3);
}

#[test]
fn string_literal_value_and_lexeme() {
    let (tokens, _) = scan("\"he\nllo\" 1");
    assert_eq!(tokens[0].token_type, TokenType::STRING);
    assert_eq!(tokens[0].lexeme, "\"he\nllo\"");
    assert!(matches!(&tokens[0].literal, Some(Literal::String(s)) if s == "he\nllo"));
    assert_eq!(tokens[0].line, 2);
    assert_eq!(tokens[1].line, 2);
}

#[test]
fn two_character_operators() {
    let (tokens, _) = scan("!= ! == = >= >> > <= << < /");
    assert_eq!(
        kinds(&tokens),
        vec![
            TokenType::BANGEQUAL,
            TokenType::BANG,
            TokenType::EQUALEQUAL,
            TokenType::EQUAL,
            TokenType::GREATEREQUAL,
            TokenType::GREATERGREATER,
            TokenType::GREATER,
            TokenType::LESSEQUAL,
            TokenType::LESSLESS,
            TokenType::LESS,
            TokenType::SLASH,
            TokenType::EOF,
        ]
    );
}

#[test]
fn single_character_tokens() {
    let (tokens, _) = scan("(){}.,+-*;^%&|?:");
    assert_eq!(tokens.len(), 17);
    assert_eq!(tokens[15].token_type, TokenType::COLON);
}

#[test]
fn comments_and_newlines_count_lines_once() {
    let (tokens, _) = scan("1 // note\n2\n\n3");
    assert_eq!(kinds(&tokens), vec![TokenType::INTEGER, TokenType::INTEGER, TokenType::INTEGER, TokenType::EOF]);
    assert_eq!(tokens[0].line, 1);
    assert_eq!(tokens[1].line, 2);
    assert_eq!(tokens[2].line, 4);
    assert_eq!(tokens[3].line, 4);
}

#[test]
fn keywords_and_identifiers() {
    let (tokens, _) = scan("and or class else false if for fun print return nil super this true var while whiles _x1");
    assert_eq!(tokens[0].token_type, TokenType::AND);
    assert_eq!(tokens[13].token_type, TokenType::TRUE);
    assert_eq!(tokens[15].token_type, TokenType::WHILE);
    assert_eq!(tokens[16].token_type, TokenType::IDENTIFIER);
    assert_eq!(tokens[17].token_type, TokenType::IDENTIFIER);
    assert_eq!(tokens[17].lexeme, "_x1");
}

#[test]
fn identifier_at_end_of_input() {
    let (tokens, _) = scan("true");
    assert_eq!(kinds(&tokens), vec![TokenType::TRUE, TokenType::EOF]);
}

#[test]
fn unexpected_character_is_skipped() {
    let (tokens, errors) = scan("1 @ 2 é");
    assert_eq!(kinds(&tokens), vec![TokenType::INTEGER, TokenType::INTEGER, TokenType::EOF]);
    assert_eq!(errors.errors().len(), 2);
    assert_eq!(errors.errors()[0].message, "Unexpected token");
}

#[test]
fn multibyte_text_in_strings_is_kept_whole() {
    let (tokens, _) = scan("\"héllo→\"");
    assert!(matches!(&tokens[0].literal, Some(Literal::String(s)) if s == "héllo→"));
}

#[test]
fn integer_literal_out_of_range() {
    let (tokens, errors) = scan("9223372036854775807 9223372036854775808");
    assert!(matches!(tokens[0].literal, Some(Literal::Int(i64::MAX))));
    assert_eq!(kinds(&tokens), vec![TokenType::INTEGER, TokenType::EOF]);
    assert_eq!(errors.errors()[0].message, "Integer literal out of range");
}

#[test]
fn precedence_builds_the_tree() {
    let (parsed, errors) = parse("1 + 2 * 3");
    assert!(errors.errors().is_empty());
    match *parsed.unwrap() {
        Expr::Binary(l, op, r) => {
            assert_eq!(op.token_type, TokenType::PLUS);
            assert!(matches!(*l, Expr::Literal(Literal::Int(1))));
            assert!(matches!(*r, Expr::Binary(_, ref t, _) if t.token_type == TokenType::STAR));
        }
        _ => panic!("expected a binary node"),
    }
}

#[test]
fn subtraction_is_left_associative() {
    let (parsed, _) = parse("1 - 2 - 3");
    match *parsed.unwrap() {
        Expr::Binary(l, _, r) => {
            assert!(matches!(*l, Expr::Binary(..)));
            assert!(matches!(*r, Expr::Literal(Literal::Int(3))));
        }
        _ => panic!("expected a binary node"),
    }
}

#[test]
fn ternary_is_right_associative() {
    let (parsed, _) = parse("true ? 1 : false ? 2 : 3");
    match *parsed.unwrap() {
        Expr::Ternary(_, _, el) => assert!(matches!(*el, Expr::Ternary(..))),
        _ => panic!("expected a ternary"),
    }
}

#[test]
fn unary_chain_nests() {
    let (parsed, _) = parse("--1");
    match *parsed.unwrap() {
        Expr::Unary(_, x) => assert!(matches!(*x, Expr::Unary(..))),
        _ => panic!("expected a unary node"),
    }
}

#[test]
fn unclosed_paren_reports_at_end() {
    let (parsed, errors) = parse("(1 + 2");
    assert!(parsed.is_none());
    assert_eq!(errors.errors().len(), 1);
    assert_eq!(errors.errors()[0].why, "at end");
    assert_eq!(errors.errors()[0].message, "Expected ')' after expression");
    assert!(errors.has_errors());
}

#[test]
fn missing_expression_reports_the_token() {
    let (parsed, errors) = parse(")");
    assert!(parsed.is_none());
    assert_eq!(errors.errors().len(), 1);
    assert_eq!(errors.errors()[0].why, "at ')'");
    assert_eq!(errors.errors()[0].message, "Expected an expression");
}

#[test]
fn missing_colon_in_ternary() {
    let (parsed, errors) = parse("true ? 1 2");
    assert!(parsed.is_none());
    assert_eq!(errors.errors()[0].why, "at '2'");
    assert_eq!(errors.errors()[0].message, "Expected ':' in ternay operation");
}

#[test]
fn empty_input_expects_an_expression_at_end() {
    let (parsed, errors) = parse("");
    assert!(parsed.is_none());
    assert_eq!(errors.errors()[0].why, "at end");
}

#[test]
fn and_or_are_not_operators() {
    let (parsed, errors) = parse("true and false");
    assert!(matches!(*parsed.unwrap(), Expr::Literal(Literal::Bool(true))));
    assert!(errors.errors().is_empty());
}

#[test]
fn synchronize_stops_after_semicolon_or_before_statement() {
    let (tokens, _) = scan("1 2 ; 3 var x");
    let parser = Parser::new(tokens);
    assert_eq!(parser.synchronize(0), 3);
    assert_eq!(parser.synchronize(3), 4);
    assert_eq!(parser.synchronize(4), 6);
    let (tokens, _) = scan("1 2");
    let parser = Parser::new(tokens);
    assert_eq!(parser.synchronize(0), 2);
    assert_eq!(parser.synchronize(2), 2);
}
