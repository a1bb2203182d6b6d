//! End-to-end checks of the scanner and the parser on concrete
//! sources.
use lisaa::expression::{Expr, LiteralExpr};
use lisaa::parser::{ParseError, Parser};
use lisaa::scanner::Scanner;
use lisaa::statement::{FunctionDecl, Statement};
use lisaa::token::TokenType;
use vstd::hash_map::StringHashMap;

fn scan(source: &str) -> Result<Vec<lisaa::token::Token>, String> {
    let mut scanner = Scanner::new(&source.to_string());
    scanner.tokens()
}

fn parse_program(source: &str) -> Result<StringHashMap<FunctionDecl>, Vec<ParseError>> {
    let mut parser = Parser::new(scan(source).unwrap());
    parser.program()
}

fn parse_expression(source: &str) -> Expr {
    let mut parser = Parser::new(scan(source).unwrap());
    parser.expression().unwrap()
}

fn expect_errors(r: Result<StringHashMap<FunctionDecl>, Vec<ParseError>>) -> Vec<ParseError> {
    match r {
        Ok(_) => panic!("expected a failed parse"),
        Err(e) => e,
    }
}

fn parse_statement(source: &str) -> Statement {
    let mut parser = Parser::new(scan(source).unwrap());
    parser.statement().unwrap()
}

fn is_number(e: &Expr, text: &str) -> bool {
    matches!(e, Expr::Literal(LiteralExpr::NUMBER(n)) if n == text)
}

#[test]
fn single_function_gives_one_entry() {
    let program = parse_program("fun f(a) { a = 1; }").unwrap();
    assert_eq!(program.len(), 1);
    assert!(program.get("f").is_some());
    let f = program.get("f").unwrap();
    assert_eq!(f.name, "f".to_string());
    assert_eq!(f.args, vec!["a".to_string()]);
}

#[test]
fn precedence_binds_multiplication_tighter() {
    // "1+2*3" parses to Binary(1, +, Binary(2, *, 3)).
    let e = parse_expression("1+2*3");
    match e {
        Expr::Binary(b) => {
            assert_eq!(*b.op.get_type(), TokenType::PLUS);
            assert!(is_number(&b.left, "1"));
            match *b.right {
                Expr::Binary(r) => {
                    assert_eq!(*r.op.get_type(), TokenType::STAR);
                    assert!(is_number(&r.left, "2"));
                    assert!(is_number(&r.right, "3"));
                },
                _ => panic!("expected a nested multiplication"),
            }
        },
        _ => panic!("expected a binary node"),
    }
}

#[test]
fn binary_levels_are_left_associative() {
    // "1*2+3" parses to Binary(Binary(1, *, 2), +, 3).
    let e = parse_expression("1*2+3");
    match e {
        Expr::Binary(b) => {
            assert_eq!(*b.op.get_type(), TokenType::PLUS);
            assert!(is_number(&b.right, "3"));
            match *b.left {
                Expr::Binary(l) => {
                    assert_eq!(*l.op.get_type(), TokenType::STAR);
                    assert!(is_number(&l.left, "1"));
                    assert!(is_number(&l.right, "2"));
                },
                _ => panic!("expected a nested multiplication"),
            }
        },
        _ => panic!("expected a binary node"),
    }
}

#[test]
fn unary_prefixes_chain() {
    // "!-x" parses to Unary(!, Unary(-, Identifier(x))).
    let e = parse_expression("!-x");
    match e {
        Expr::Unary(u) => {
            assert_eq!(*u.op.get_type(), TokenType::BANG);
            match *u.right {
                Expr::Unary(v) => {
                    assert_eq!(*v.op.get_type(), TokenType::MINUS);
                    assert!(matches!(*v.right, Expr::Identifier(ref n) if n == "x"));
                },
                _ => panic!("expected a nested unary node"),
            }
        },
        _ => panic!("expected a unary node"),
    }
}

#[test]
fn nil_false_true_are_numeric_literals() {
    for (source, text, value) in [("nil", "0", 0.0f64), ("false", "0", 0.0f64), ("true", "1", 1.0f64)] {
        let e = parse_expression(source);
        assert!(is_number(&e, text));
        match e {
            Expr::Literal(LiteralExpr::NUMBER(n)) => {
                assert_eq!(n.parse::<f64>().unwrap(), value);
            },
            _ => panic!("expected a numeric literal"),
        }
    }
}

#[test]
fn unterminated_string_is_a_lexical_error() {
    let r = scan("\"abc");
    assert_eq!(r.unwrap_err(), "[line : 1] Error : Unterminated string sequence");
}

#[test]
fn zero_parameter_function_is_rejected() {
    let errors = expect_errors(parse_program("fun f() { }"));
    assert!(!errors.is_empty());
    assert_eq!(errors[0].message, "Expected identifier");
}

#[test]
fn errors_are_capped_at_five() {
    // Seven malformed declarations in a row; exactly five errors come
    // back, never a sixth.
    let errors = expect_errors(parse_program("fun fun fun fun fun fun fun"));
    assert_eq!(errors.len(), 5);
    for e in &errors {
        assert_eq!(e.message, "Expected identifier after function");
    }
}

#[test]
fn scope_preserves_statement_order() {
    // "{ a=1; b=2; }" parses to Scope([Assignment(a, 1), Assignment(b, 2)]).
    let s = parse_statement("{ a=1; b=2; }");
    match s {
        Statement::Scope(items) => {
            assert_eq!(items.len(), 2);
            match &items[0] {
                Statement::Assignment(a) => {
                    assert_eq!(a.identifier().get_lexeme(), "a");
                    assert!(is_number(a.expr(), "1"));
                },
                _ => panic!("expected an assignment first"),
            }
            match &items[1] {
                Statement::Assignment(b) => {
                    assert_eq!(b.identifier().get_lexeme(), "b");
                    assert!(is_number(b.expr(), "2"));
                },
                _ => panic!("expected an assignment second"),
            }
        },
        _ => panic!("expected a scope"),
    }
}

#[test]
fn if_without_else_parses() {
    let s = parse_statement("if cond x=1;");
    match s {
        Statement::IfStatement(i) => {
            assert!(matches!(i.condition(), Expr::Identifier(n) if n == "cond"));
            assert!(matches!(i.statement(), Statement::Assignment(_)));
        },
        _ => panic!("expected an if statement"),
    }
}

#[test]
fn else_token_is_left_unconsumed() {
    // No grammar production recognizes `else`: after the body
    // statement the token stays at the cursor for the enclosing parse.
    let mut parser = Parser::new(scan("if cond x=1; else").unwrap());
    let s = parser.statement().unwrap();
    assert!(matches!(s, Statement::IfStatement(_)));
    assert!(parser.peek().is_type(&TokenType::ELSE));
}

#[test]
fn comma_separated_parameters_parse() {
    let program = parse_program("fun f(a, b, c) { }").unwrap();
    let f = program.get("f").unwrap();
    assert_eq!(f.args, vec!["a".to_string(), "b".to_string(), "c".to_string()]);
    assert!(matches!(f.scope, Statement::Scope(ref items) if items.is_empty()));
}

#[test]
fn later_declaration_replaces_earlier_one() {
    let program = parse_program("fun f(a) { } fun f(b) { }").unwrap();
    assert_eq!(program.len(), 1);
    assert_eq!(program.get("f").unwrap().args, vec!["b".to_string()]);
}

#[test]
fn empty_source_gives_empty_program() {
    let program = parse_program("").unwrap();
    assert_eq!(program.len(), 0);
}

#[test]
fn break_statement_parses() {
    assert!(matches!(parse_statement("break;"), Statement::BreakStatement));
}

#[test]
fn missing_semicolon_is_reported() {
    let errors = expect_errors(parse_program("fun f(a) { a = 1 }"));
    assert_eq!(errors[0].message, "Expected semicolon at the end of statement");
}

#[test]
fn parenthesized_expression_groups() {
    // "(1+2)*3" parses to Binary(Binary(1, +, 2), *, 3).
    let e = parse_expression("(1+2)*3");
    match e {
        Expr::Binary(b) => {
            assert_eq!(*b.op.get_type(), TokenType::STAR);
            assert!(matches!(*b.left, Expr::Binary(_)));
            assert!(is_number(&b.right, "3"));
        },
        _ => panic!("expected a binary node"),
    }
}

#[test]
fn missing_right_parenthesis_is_reported() {
    let errors = expect_errors(parse_program("fun f(a) { a = (1+2; }"));
    assert_eq!(errors[0].message, "Expected right parenthesis");
}

#[test]
fn error_carries_the_last_consumed_token() {
    let errors = expect_errors(parse_program("fun"));
    assert_eq!(errors.len(), 1);
    assert_eq!(errors[0].message, "Expected identifier after function");
    assert_eq!(*errors[0].token.get_type(), TokenType::FUN);
    assert_eq!(errors[0].token.get_line(), 1);
}

#[test]
fn comparison_is_left_associative() {
    // "1<2<3" parses to Binary(Binary(1, <, 2), <, 3).
    let e = parse_expression("1<2<3");
    match e {
        Expr::Binary(b) => {
            assert_eq!(*b.op.get_type(), TokenType::LESS);
            assert!(is_number(&b.right, "3"));
            assert!(matches!(*b.left, Expr::Binary(_)));
        },
        _ => panic!("expected a binary node"),
    }
}

#[test]
fn division_is_left_associative() {
    // "8/2/2" parses to Binary(Binary(8, /, 2), /, 2).
    let e = parse_expression("8/2/2");
    match e {
        Expr::Binary(b) => {
            assert_eq!(*b.op.get_type(), TokenType::SLASH);
            assert!(is_number(&b.right, "2"));
            match *b.left {
                Expr::Binary(l) => {
                    assert_eq!(*l.op.get_type(), TokenType::SLASH);
                    assert!(is_number(&l.left, "8"));
                },
                _ => panic!("expected a nested division"),
            }
        },
        _ => panic!("expected a binary node"),
    }
}

#[test]
fn inequality_parses() {
    let e = parse_expression("1 != 2");
    match e {
        Expr::Binary(b) => {
            assert_eq!(*b.op.get_type(), TokenType::BangEqual);
            assert!(is_number(&b.left, "1"));
            assert!(is_number(&b.right, "2"));
        },
        _ => panic!("expected a binary node"),
    }
}

#[test]
fn string_literal_expression() {
    let e = parse_expression("\"hello\"");
    assert!(matches!(e, Expr::Literal(LiteralExpr::STRING(ref s)) if s == "hello"));
}

#[test]
fn if_with_scope_body() {
    let s = parse_statement("if x { a=1; b=2; }");
    match s {
        Statement::IfStatement(i) => match i.statement() {
            Statement::Scope(items) => assert_eq!(items.len(), 2),
            _ => panic!("expected a scope body"),
        },
        _ => panic!("expected an if statement"),
    }
}

#[test]
fn cursor_api_walks_the_tokens() {
    let mut parser = Parser::new(scan("fun f").unwrap());
    assert!(!parser.is_at_end());
    assert!(parser.peek().is_type(&TokenType::FUN));
    assert!(parser.check(&TokenType::FUN));
    assert!(!parser.match_nexts(&[TokenType::IDENTIFIER]));
    assert!(parser.match_nexts(&[TokenType::IDENTIFIER, TokenType::FUN]));
    assert!(parser.previous().is_type(&TokenType::FUN));
    let t = parser.advance();
    assert!(t.is_type(&TokenType::IDENTIFIER));
    assert_eq!(t.get_lexeme(), "f");
    assert!(parser.is_at_end());
    assert!(parser.peek().is_type(&TokenType::EOF));
}

#[test]
fn unparsable_literal_is_reported() {
    let errors = expect_errors(parse_program("fun f(a) { a = ; }"));
    assert_eq!(errors[0].message, "Cant parse literal");
}

#[test]
fn non_function_token_is_reported_and_capped() {
    // The cursor does not advance past a token that opens no
    // declaration, so the recovery loop stops at the error cap.
    let errors = expect_errors(parse_program(";"));
    assert_eq!(errors.len(), 5);
    assert_eq!(errors[0].message, "error : expected function declaration there");
}

#[test]
fn missing_parameter_list_is_reported() {
    let errors = expect_errors(parse_program("fun f { }"));
    assert_eq!(errors[0].message, "Expected left parenthesis after function name");
}

#[test]
fn missing_comma_between_parameters_is_reported() {
    let errors = expect_errors(parse_program("fun f(a b) { }"));
    assert_eq!(errors[0].message, "Expected comma after identifier");
}

#[test]
fn unclosed_scope_is_reported() {
    let errors = expect_errors(parse_program("fun f(a) { a = 1;"));
    assert_eq!(errors[0].message, "Expected closing brace at the end of scope");
}

#[test]
fn missing_equals_in_assignment_is_reported() {
    let errors = expect_errors(parse_program("fun f(a) { b 1; }"));
    assert_eq!(errors[0].message, "expected Equals after variable declaration");
}
