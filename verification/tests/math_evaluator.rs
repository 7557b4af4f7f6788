use fnaf_engine::math_evaluator::{Function, MathError, MathEvaluator, MathExpr, Operation, Token};

fn fold(tree: &MathExpr) -> f64 {
    match tree {
        MathExpr::Number(text) => text.parse().unwrap(),
        MathExpr::Binary(op, left, right) => {
            let a = fold(left);
            let b = fold(right);
            match op {
                Operation::Add => a + b,
                Operation::Subtract => a - b,
                Operation::Multiply => a * b,
                Operation::Divide => a / b,
            }
        }
        MathExpr::Apply(f, argument) => {
            let radians = fold(argument) * std::f64::consts::PI / 180.0;
            match f {
                Function::Sine => radians.sin(),
                Function::Cosine => radians.cos(),
            }
        }
    }
}

fn value_of(expression: &str) -> f64 {
    fold(&MathEvaluator::evaluate(expression).unwrap())
}

fn number(text: &str) -> Token {
    Token::Number(text.to_string())
}

#[test]
fn multiplication_binds_tighter_than_addition() {
    assert_eq!(value_of("2+3*4"), 14.0);
}

#[test]
fn parentheses_come_first() {
    assert_eq!(value_of("(2+3)*4"), 20.0);
}

#[test]
fn leading_minus_is_a_sign() {
    assert_eq!(value_of("-5+3"), -2.0);
}

#[test]
fn sine_takes_degrees() {
    assert!((value_of("sin(90)") - 1.0).abs() < 1e-12);
}

#[test]
fn cosine_takes_degrees() {
    assert!((value_of("cos(0)") - 1.0).abs() < 1e-12);
    assert!(value_of("cos(90)").abs() < 1e-12);
}

#[test]
fn division_by_zero_is_infinite() {
    assert!(value_of("1/0").is_infinite());
    assert!(value_of("1/0") > 0.0);
}

#[test]
fn minus_after_an_operator_is_a_sign() {
    assert_eq!(value_of("2*-3"), -6.0);
    assert_eq!(value_of("2--3"), 5.0);
    assert_eq!(value_of("(-1.5)+1"), -0.5);
}

#[test]
fn minus_after_a_number_or_a_closing_parenthesis_subtracts() {
    assert_eq!(value_of("7-2"), 5.0);
    assert_eq!(value_of("(7)-2"), 5.0);
}

#[test]
fn equal_operators_group_from_the_left() {
    assert_eq!(value_of("10-4-3"), 3.0);
    assert_eq!(value_of("16/4/2"), 2.0);
}

#[test]
fn function_applies_to_its_parenthesis_only() {
    assert!((value_of("sin(90)+1") - 2.0).abs() < 1e-12);
    assert!((value_of("2*sin(30)") - 1.0).abs() < 1e-12);
    assert!((value_of("sin(45+45)") - 1.0).abs() < 1e-12);
}

#[test]
fn spaces_are_skipped() {
    assert_eq!(value_of(" 2 + 3 "), 5.0);
}

#[test]
fn numbers_may_have_one_decimal_point() {
    assert_eq!(value_of("1.5+0.5"), 2.0);
    assert_eq!(value_of("2."), 2.0);
    assert_eq!(value_of("-.5"), -0.5);
}

#[test]
fn tokenize_reads_numbers_and_operators() {
    assert_eq!(
        MathEvaluator::tokenize("2+3*4"),
        Ok(vec![number("2"), Token::Operator('+'), number("3"), Token::Operator('*'), number("4")])
    );
}

#[test]
fn tokenize_reads_functions_and_parentheses() {
    assert_eq!(
        MathEvaluator::tokenize("sin(-90)"),
        Ok(vec![Token::Function("sin".to_string()), Token::ParenL, number("-90"), Token::ParenR])
    );
}

#[test]
fn tokenize_rejects_unknown_function() {
    assert_eq!(MathEvaluator::tokenize("tan(1)"), Err(MathError::UnknownFunction));
    assert_eq!(MathEvaluator::tokenize("sinus(1)"), Err(MathError::UnknownFunction));
}

#[test]
fn a_word_runs_over_letters_beyond_ascii() {
    assert_eq!(MathEvaluator::tokenize("sin\u{e9}(1)"), Err(MathError::UnknownFunction));
}

#[test]
fn a_word_ends_before_a_sign_that_is_no_letter() {
    assert_eq!(MathEvaluator::tokenize("sin\u{20ac}"), Err(MathError::UnexpectedCharacter));
}

#[test]
fn tokenize_rejects_unexpected_character() {
    assert_eq!(MathEvaluator::tokenize("2 $ 3"), Err(MathError::UnexpectedCharacter));
    assert_eq!(MathEvaluator::tokenize("\u{e9}"), Err(MathError::UnexpectedCharacter));
    assert_eq!(MathEvaluator::tokenize(".5"), Err(MathError::UnexpectedCharacter));
}

#[test]
fn tokenize_rejects_invalid_number() {
    assert_eq!(MathEvaluator::tokenize("1.2.3"), Err(MathError::InvalidNumber));
    assert_eq!(MathEvaluator::tokenize("-"), Err(MathError::InvalidNumber));
    assert_eq!(MathEvaluator::tokenize("-(2)"), Err(MathError::InvalidNumber));
    assert_eq!(MathEvaluator::tokenize("2*-."), Err(MathError::InvalidNumber));
}

#[test]
fn every_number_that_tokenize_accepts_parses_as_a_float() {
    for text in ["0", "7.", "3.25", "-3.25", "-.5", "-5.", "12345678901234567890"] {
        match MathEvaluator::tokenize(text).unwrap().as_slice() {
            [Token::Number(written)] => {
                assert_eq!(written, text);
                assert!(written.parse::<f64>().is_ok());
            }
            other => panic!("{:?}", other),
        }
    }
}

#[test]
fn parse_gives_postfix_order_and_the_number_of_tokens() {
    let tokens = MathEvaluator::tokenize("2+3*4").unwrap();
    let (postfix, read) = MathEvaluator::parse(&tokens).unwrap();
    assert_eq!(
        postfix,
        vec![number("2"), number("3"), number("4"), Token::Operator('*'), Token::Operator('+')]
    );
    assert_eq!(read, 5);
}

#[test]
fn parse_puts_a_function_after_its_argument() {
    let tokens = MathEvaluator::tokenize("sin(90)").unwrap();
    let (postfix, _) = MathEvaluator::parse(&tokens).unwrap();
    assert_eq!(postfix, vec![number("90"), Token::Function("sin".to_string())]);
}

#[test]
fn parse_drops_parentheses() {
    let tokens = MathEvaluator::tokenize("(2+3)*4").unwrap();
    let (postfix, _) = MathEvaluator::parse(&tokens).unwrap();
    assert_eq!(
        postfix,
        vec![number("2"), number("3"), Token::Operator('+'), number("4"), Token::Operator('*')]
    );
}

#[test]
fn precedence_of_each_token() {
    assert_eq!(MathEvaluator::precedence(&Token::Operator('+')), 1);
    assert_eq!(MathEvaluator::precedence(&Token::Operator('-')), 1);
    assert_eq!(MathEvaluator::precedence(&Token::Operator('*')), 2);
    assert_eq!(MathEvaluator::precedence(&Token::Operator('/')), 2);
    assert_eq!(MathEvaluator::precedence(&Token::Operator('^')), 0);
    assert_eq!(MathEvaluator::precedence(&Token::ParenL), 0);
    assert_eq!(MathEvaluator::precedence(&Token::Function("sin".to_string())), 0);
    assert_eq!(MathEvaluator::precedence(&number("1")), 0);
}

#[test]
fn evaluate_builds_the_tree() {
    assert_eq!(
        MathEvaluator::evaluate("1+2"),
        Ok(MathExpr::Binary(
            Operation::Add,
            Box::new(MathExpr::Number("1".to_string())),
            Box::new(MathExpr::Number("2".to_string()))
        ))
    );
    assert_eq!(
        MathEvaluator::evaluate("cos(3)"),
        Ok(MathExpr::Apply(Function::Cosine, Box::new(MathExpr::Number("3".to_string()))))
    );
}

#[test]
fn evaluate_of_nothing_has_no_value() {
    assert_eq!(MathEvaluator::evaluate(""), Err(MathError::NoValue));
    assert_eq!(MathEvaluator::evaluate("   "), Err(MathError::NoValue));
    assert_eq!(MathEvaluator::evaluate("()"), Err(MathError::NoValue));
}

#[test]
fn evaluate_misses_an_operand() {
    assert_eq!(MathEvaluator::evaluate("2+"), Err(MathError::MissingOperand));
    assert_eq!(MathEvaluator::evaluate("*2"), Err(MathError::MissingOperand));
    assert_eq!(MathEvaluator::evaluate("sin()"), Err(MathError::MissingOperand));
}

#[test]
fn evaluate_finds_an_unclosed_parenthesis() {
    assert_eq!(MathEvaluator::evaluate("(2+3"), Err(MathError::UnexpectedToken));
}

#[test]
fn evaluate_gives_the_last_of_several_values() {
    assert_eq!(value_of("2 3"), 3.0);
}

#[test]
fn evaluate_ast_rejects_what_tokenize_never_gives() {
    assert_eq!(
        MathEvaluator::evaluate_ast(&vec![number("1"), number("2"), Token::Operator('^')]),
        Err(MathError::UnknownOperator)
    );
    assert_eq!(
        MathEvaluator::evaluate_ast(&vec![number("1"), Token::Function("tan".to_string())]),
        Err(MathError::UnknownFunction)
    );
    assert_eq!(MathEvaluator::evaluate_ast(&vec![number("1e5")]), Err(MathError::InvalidNumber));
    assert_eq!(MathEvaluator::evaluate_ast(&vec![Token::ParenR]), Err(MathError::UnexpectedToken));
}

#[test]
fn messages_of_the_errors() {
    assert_eq!(MathError::InvalidNumber.message(), "Invalid number");
    assert_eq!(MathError::UnknownFunction.message(), "Unknown function");
    assert_eq!(MathError::UnexpectedCharacter.message(), "Unexpected character");
    assert_eq!(MathError::UnknownOperator.message(), "Unexpected operator");
    assert_eq!(MathError::MissingOperand.message(), "Missing operand");
    assert_eq!(MathError::UnexpectedToken.message(), "Unexpected token");
    assert_eq!(MathError::NoValue.message(), "Nothing to evaluate");
}
