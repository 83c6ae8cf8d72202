use tinycalc::eval::EvalError;
use tinycalc::lexer::{Lexer, Token};
use tinycalc::parser::{Expression, Operator, Parser};

fn parse_str(input: &str) -> Result<Expression, String> {
    let lexer = Lexer::new();
    let tokens = lexer.analyze(String::from(input)).unwrap();
    let mut parser = Parser::new(tokens);
    parser.parse()
}

fn tree_of(input: &str) -> String {
    parse_str(input).unwrap().to_string()
}

#[test]
fn simple_sum_parses_right() {
    assert_eq!(tree_of("2 + 3"), "Plus( 2, 3 )");
}

#[test]
fn rotation_corrects_multiplicative_over_additive() {
    assert_eq!(tree_of("2 * 3 + 4"), "Plus( Mul( 2, 3 ), 4 )");
}

#[test]
fn eager_recursion_needs_no_rotation() {
    assert_eq!(tree_of("2 + 3 * 4"), "Plus( 2, Mul( 3, 4 ) )");
}

#[test]
fn parenthesization_binds_first() {
    assert_eq!(tree_of("(2 + 3) * 4"), "Mul( GROUP( Plus( 2, 3 ) ), 4 )");
}

#[test]
fn leading_minus_is_unary() {
    assert_eq!(tree_of("-5 + 2"), "Plus( Minus( 5 ), 2 )");
}

#[test]
fn division_trees_keep_their_operands() {
    assert_eq!(tree_of("0 / 5"), "Div( 0, 5 )");
    assert_eq!(tree_of("5 / 0"), "Div( 5, 0 )");
}

#[test]
fn rotation_handles_exactly_one_level() {
    assert_eq!(
        tree_of("2 * 3 * 4 + 5"),
        "Plus( Mul( 2, Mul( 3, 4 ) ), 5 )"
    );
}

#[test]
fn unary_accepts_a_group_child() {
    assert_eq!(tree_of("-(2)"), "Minus( GROUP( 2 ) )");
}

#[test]
fn nested_groups() {
    assert_eq!(tree_of("((2))"), "GROUP( GROUP( 2 ) )");
}

#[test]
fn a_completed_value_is_silently_overwritten() {
    // a group right after a number replaces the accumulator outright
    assert_eq!(tree_of("2(3)"), "GROUP( 3 )");
}

#[test]
fn an_unclosed_parenthesis_is_not_rejected() {
    assert_eq!(tree_of("(2"), "GROUP( 2 )");
}

#[test]
fn a_trailing_operator_leaves_an_undefined_operand() {
    assert_eq!(tree_of("2 +"), "Plus( 2, ??? )");
}

#[test]
fn empty_group_is_rejected() {
    assert_eq!(parse_str("()").unwrap_err(), "undefined child of group node");
}

#[test]
fn empty_input_parses_to_undefined() {
    assert_eq!(tree_of(""), "???");
}

#[test]
fn star_cannot_be_unary() {
    assert_eq!(parse_str("*2").unwrap_err(), "* cannot be unary operator");
}

#[test]
fn unary_without_operand_is_an_error() {
    assert_eq!(parse_str("-").unwrap_err(), "unary operator without operand");
}

#[test]
fn unary_child_errors_are_wrapped() {
    assert_eq!(
        parse_str("-(").unwrap_err(),
        "parsing child failed with error: undefined child of group node"
    );
}

#[test]
fn finished_sentinel_cannot_be_a_unary_child() {
    assert_eq!(
        parse_str("-)").unwrap_err(),
        "child FF cannot be child of unary operator"
    );
}

#[test]
fn undefined_token_kind_has_no_parsing_instruction() {
    let mut parser = Parser::new(vec![Token::new()]);
    assert_eq!(
        parser.parse().unwrap_err(),
        "there's no parsing instruction for token kind Undefined"
    );
}

#[test]
fn a_number_token_is_not_a_binary_operator() {
    let lexer = Lexer::new();
    let tokens = lexer.analyze(String::from("2")).unwrap();
    let mut parser = Parser::new(tokens);
    assert_eq!(
        parser.parse_binary_expr().unwrap_err(),
        "operator 2 not defined"
    );
}

#[test]
fn a_number_token_is_not_a_unary_operator() {
    let lexer = Lexer::new();
    let tokens = lexer.analyze(String::from("2")).unwrap();
    let mut parser = Parser::new(tokens);
    assert_eq!(
        parser.parse_unary_expr().unwrap_err(),
        "2 cannot be unary operator"
    );
}

#[test]
fn parse_number_on_another_kind_yields_undefined() {
    let lexer = Lexer::new();
    let tokens = lexer.analyze(String::from("(")).unwrap();
    let mut parser = Parser::new(tokens);
    assert_eq!(parser.parse_number().unwrap().to_string(), "???");
}

#[test]
fn parse_parenthesis_on_another_kind_yields_undefined() {
    let lexer = Lexer::new();
    let tokens = lexer.analyze(String::from("2")).unwrap();
    let mut parser = Parser::new(tokens);
    assert_eq!(parser.parse_parenthesis().unwrap().to_string(), "???");
}

#[test]
fn parse_one_parses_a_single_number() {
    let lexer = Lexer::new();
    let tokens = lexer.analyze(String::from("42")).unwrap();
    let mut parser = Parser::new(tokens);
    assert_eq!(parser.parse_one().unwrap().to_string(), "42");
}

#[test]
fn expression_rendering() {
    let e = Expression::Binary {
        op: Operator::Mul,
        lhs: Box::new(Expression::Unary {
            op: Operator::Minus,
            child: Box::new(Expression::Number(String::from("1.5"))),
        }),
        rhs: Box::new(Expression::Group {
            child: Box::new(Expression::Number(String::from("2"))),
        }),
    };
    assert_eq!(e.to_string(), "Mul( Minus( 1.5 ), GROUP( 2 ) )");
    assert_eq!(Expression::Undefined.to_string(), "???");
    assert_eq!(Expression::Finished.to_string(), "FF");
    let u = Expression::Unary {
        op: Operator::Undefined,
        child: Box::new(Expression::Number(String::from("3"))),
    };
    assert_eq!(u.to_string(), "?( 3 )");
}

#[test]
fn expressions_clone_deeply() {
    let e = parse_str("(1 + 2) * -3").unwrap();
    let copy = e.clone();
    assert_eq!(e.to_string(), copy.to_string());
}

#[test]
fn eval_error_keeps_its_message() {
    let e = EvalError::new(String::from("something went wrong"));
    assert_eq!(e.msg, "something went wrong");
}
