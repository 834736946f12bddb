use wtch::expr::lexer::{tokenize, NumberLit, Token};
use wtch::expr::parser::{parse, BinOp, Expr, Literal, PathStep, UnaryOp};
use wtch::expr::ExprError;

fn number_debug(n: &wtch::expr::lexer::NumberLit) -> String {
    let v: f64 = n.text.parse().unwrap();
    format!("{:?}", if n.negative { -v } else { v })
}


/// Tokens with numbers read as `f64`, as they are compared below.
#[derive(Debug, PartialEq)]
enum T {
    Dot,
    Ident(String),
    Number(f64),
    StringLit(String),
    Op(String),
    LParen,
    RParen,
    LBracket,
    RBracket,
    And,
    Or,
    Not,
    Bool(bool),
}

fn value(n: &NumberLit) -> f64 {
    let v: f64 = n.text.parse().unwrap();
    if n.negative {
        -v
    } else {
        v
    }
}

fn t(tok: &Token) -> T {
    match tok {
        Token::Dot => T::Dot,
        Token::Ident(s) => T::Ident(s.clone()),
        Token::Number(n) => T::Number(value(n)),
        Token::StringLit(s) => T::StringLit(s.clone()),
        Token::Op(s) => T::Op(s.clone()),
        Token::LParen => T::LParen,
        Token::RParen => T::RParen,
        Token::LBracket => T::LBracket,
        Token::RBracket => T::RBracket,
        Token::And => T::And,
        Token::Or => T::Or,
        Token::Not => T::Not,
        Token::Bool(b) => T::Bool(*b),
    }
}

fn toks(input: &str) -> Result<Vec<T>, ExprError> {
    tokenize(input).map(|v| v.iter().map(t).collect())
}

fn number_literal(e: &Expr) -> Option<f64> {
    match e {
        Expr::Literal(Literal::Number(n)) => Some(value(n)),
        _ => None,
    }
}

#[test]
fn tokenize_simple_field() {
    let tokens = toks(".cost").unwrap();
    assert_eq!(tokens, vec![T::Dot, T::Ident("cost".into())]);
}

#[test]
fn tokenize_comparison() {
    let tokens = toks(".cost > 50").unwrap();
    assert_eq!(tokens, vec![T::Dot, T::Ident("cost".into()), T::Op(">".into()), T::Number(50.0)]);
}

#[test]
fn tokenize_string_literal() {
    let tokens = toks(r#".status == "ok""#).unwrap();
    assert_eq!(
        tokens,
        vec![T::Dot, T::Ident("status".into()), T::Op("==".into()), T::StringLit("ok".into())]
    );
}

#[test]
fn tokenize_boolean_keywords() {
    let tokens = toks("true and false").unwrap();
    assert_eq!(tokens, vec![T::Bool(true), T::And, T::Bool(false)]);
}

#[test]
fn tokenize_not_keyword() {
    let tokens = toks("not .enabled").unwrap();
    assert_eq!(tokens, vec![T::Not, T::Dot, T::Ident("enabled".into())]);
}

#[test]
fn tokenize_array_index() {
    let tokens = toks(".items[0]").unwrap();
    assert_eq!(
        tokens,
        vec![T::Dot, T::Ident("items".into()), T::LBracket, T::Number(0.0), T::RBracket]
    );
}

#[test]
fn tokenize_two_char_ops() {
    let ops = [">=", "<=", "==", "!="];
    for op in ops {
        let tokens = toks(&format!("1 {op} 2")).unwrap();
        assert_eq!(tokens[1], T::Op(op.into()), "operator {op}");
    }
}

#[test]
fn tokenize_float() {
    let tokens = toks("0.8").unwrap();
    assert_eq!(tokens, vec![T::Number(0.8)]);
}

#[test]
fn tokenize_negative_literal() {
    let tokens = toks("-5").unwrap();
    assert_eq!(tokens, vec![T::Number(-5.0)]);
}

#[test]
fn tokenize_error_bare_equals() {
    assert_eq!(toks("= foo"), Err(ExprError::UnexpectedToken("=".into())));
}

#[test]
fn tokenize_unterminated_string() {
    assert_eq!(toks(r#""hello"#), Err(ExprError::UnexpectedEof));
}

#[test]
fn parse_simple_field() {
    let expr = parse(".cost", &number_debug).unwrap();
    assert_eq!(expr, Expr::Field(vec![PathStep::Key("cost".into())]));
}

#[test]
fn parse_nested_field() {
    let expr = parse(".a.b", &number_debug).unwrap();
    assert_eq!(expr, Expr::Field(vec![PathStep::Key("a".into()), PathStep::Key("b".into())]));
}

#[test]
fn parse_field_with_index() {
    let expr = parse(".items[0]", &number_debug).unwrap();
    assert_eq!(expr, Expr::Field(vec![PathStep::Key("items".into()), PathStep::Index(0)]));
}

#[test]
fn parse_field_index_then_subfield() {
    let expr = parse(".items[0].name", &number_debug).unwrap();
    assert_eq!(
        expr,
        Expr::Field(vec![PathStep::Key("items".into()), PathStep::Index(0), PathStep::Key("name".into())])
    );
}

#[test]
fn parse_comparison_gt() {
    let expr = parse(".cost > 50", &number_debug).unwrap();
    match expr {
        Expr::BinaryOp { op: BinOp::Gt, left, right } => {
            assert_eq!(*left, Expr::Field(vec![PathStep::Key("cost".into())]));
            assert_eq!(number_literal(&right), Some(50.0));
        }
        other => panic!("unexpected AST: {other:?}"),
    }
}

#[test]
fn parse_arithmetic_precedence() {
    let expr = parse(".cost > .limit * 0.8", &number_debug).unwrap();
    match expr {
        Expr::BinaryOp { op: BinOp::Gt, left, right } => {
            assert_eq!(*left, Expr::Field(vec![PathStep::Key("cost".into())]));
            match *right {
                Expr::BinaryOp { op: BinOp::Mul, left, right } => {
                    assert_eq!(*left, Expr::Field(vec![PathStep::Key("limit".into())]));
                    assert_eq!(number_literal(&right), Some(0.8));
                }
                other => panic!("unexpected AST: {other:?}"),
            }
        }
        other => panic!("unexpected AST: {other:?}"),
    }
}

#[test]
fn parse_and_or_precedence() {
    let expr = parse(".a and .b or .c", &number_debug).unwrap();
    match expr {
        Expr::BinaryOp { op: BinOp::Or, left, .. } => match *left {
            Expr::BinaryOp { op: BinOp::And, .. } => {}
            other => panic!("expected And on left of Or, got {other:?}"),
        },
        other => panic!("expected Or at root, got {other:?}"),
    }
}

#[test]
fn parse_not_unary() {
    let expr = parse("not .enabled", &number_debug).unwrap();
    assert_eq!(
        expr,
        Expr::UnaryOp {
            op: UnaryOp::Not,
            operand: Box::new(Expr::Field(vec![PathStep::Key("enabled".into())])),
        }
    );
}

#[test]
fn parse_grouped_expression() {
    let expr = parse("(.x > 1) and (.y < 10)", &number_debug).unwrap();
    match expr {
        Expr::BinaryOp { op: BinOp::And, left, right } => {
            assert!(matches!(*left, Expr::BinaryOp { op: BinOp::Gt, .. }));
            assert!(matches!(*right, Expr::BinaryOp { op: BinOp::Lt, .. }));
        }
        other => panic!("unexpected AST: {other:?}"),
    }
}

#[test]
fn parse_string_equality() {
    let expr = parse(r#".status == "ok""#, &number_debug).unwrap();
    assert_eq!(
        expr,
        Expr::BinaryOp {
            op: BinOp::Eq,
            left: Box::new(Expr::Field(vec![PathStep::Key("status".into())])),
            right: Box::new(Expr::Literal(Literal::Str("ok".into()))),
        }
    );
}

#[test]
fn parse_error_empty_input() {
    assert_eq!(parse("", &number_debug), Err(ExprError::UnexpectedEof));
}

#[test]
fn parse_error_unclosed_paren() {
    assert!(parse("(.cost > 1", &number_debug).is_err());
}

#[test]
fn parse_error_trailing_token() {
    assert!(parse(".cost > 1 )", &number_debug).is_err());
}

#[test]
fn parse_literals_and_keywords() {
    assert!(parse("null", &number_debug).is_err());
    assert_eq!(parse("true", &number_debug).unwrap(), Expr::Literal(Literal::Bool(true)));
    assert_eq!(parse(".", &number_debug), Err(ExprError::UnexpectedEof));
}

#[test]
fn error_messages_follow_their_kind() {
    assert_eq!(ExprError::MissingField("cost".into()).message(), "missing field: .cost");
    assert_eq!(ExprError::IndexOutOfBounds(7).message(), "index out of bounds: 7");
    assert_eq!(ExprError::UnexpectedEof.message(), "unexpected end of expression");
    assert_eq!(ExprError::DivisionByZero.message(), "division by zero");
}

#[test]
fn unexpected_tokens_are_reported_as_written() {
    assert_eq!(parse(".a 50", &number_debug), Err(ExprError::UnexpectedToken("Number(50.0)".to_string())));
    assert_eq!(parse(".a > > 1", &number_debug), Err(ExprError::UnexpectedToken("Op(\">\")".to_string())));
    assert_eq!(parse(".a \"it's\"", &number_debug), Err(ExprError::UnexpectedToken("StringLit(\"it's\")".to_string())));
    assert_eq!(parse(".a )", &number_debug), Err(ExprError::UnexpectedToken("RParen".to_string())));
}
