use rpn_calc::float::Float;
use rpn_calc::infix::{
    fix_negative_numbers, infix_to_rpn, parse_infix, ConversionError, InfixItem,
};
use rpn_calc::lexeme::{Lexeme, ParseError};
use rpn_calc::math::{Arithmetic, ExecError, MathOperator, Outcome, Value};
use rpn_calc::rpn::{execute_rpn, Evaluation, RpnItem};
use rpn_calc::utils::{normalize_whitespace, split_whitespace};

fn num(x: f64) -> Float {
    Float::from_bits(x.to_bits())
}

fn native(x: Float) -> f64 {
    f64::from_bits(x.to_bits())
}

fn compute(a: Arithmetic) -> Float {
    match a {
        Arithmetic::Add(x, y) => num(native(x) + native(y)),
        Arithmetic::Sub(x, y) => num(native(x) - native(y)),
        Arithmetic::Mul(x, y) => num(native(x) * native(y)),
        Arithmetic::Div(x, y) => num(native(x) / native(y)),
        Arithmetic::Pow(x, y) => num(native(x).powf(native(y))),
        Arithmetic::Sqrt(x) => num(native(x).sqrt()),
    }
}

/// The words of a text in infix order, each with the number that it denotes.
fn lex(s: &str) -> Vec<Lexeme> {
    split_whitespace(&normalize_whitespace(s))
        .into_iter()
        .map(|text| {
            let number = text.parse::<f64>().ok().map(num);
            Lexeme::new(text, number)
        })
        .collect()
}

fn parse(s: &str) -> Result<Vec<InfixItem>, ParseError> {
    parse_infix(&lex(s))
}

fn execute(tokens: &[RpnItem]) -> Result<Value, ExecError> {
    let mut state = Evaluation::new();
    let mut answer = None;
    loop {
        match execute_rpn(tokens, &mut state, answer)? {
            Outcome::Value(v) => return Ok(v),
            Outcome::Pending(a) => answer = Some(compute(a)),
        }
    }
}

fn value(s: &str) -> Value {
    execute(&infix_to_rpn(&parse(s).unwrap()).unwrap()).unwrap()
}

fn n(x: f64) -> InfixItem {
    InfixItem::Operand(num(x))
}

fn op(o: MathOperator) -> InfixItem {
    InfixItem::Operator(o)
}

fn rn(x: f64) -> RpnItem {
    RpnItem::Operand(num(x))
}

fn rop(o: MathOperator) -> RpnItem {
    RpnItem::Operator(o)
}

#[test]
fn multiplication_binds_tighter_than_addition() {
    let rpn = infix_to_rpn(&parse("1 + 2 * 3").unwrap()).unwrap();
    assert_eq!(
        rpn,
        vec![rn(1.0), rn(2.0), rn(3.0), rop(MathOperator::Mul), rop(MathOperator::Add)]
    );
    assert_eq!(execute(&rpn), Ok(Value::Number(num(7.0))));
}

#[test]
fn power_groups_to_the_right() {
    let rpn = infix_to_rpn(&parse("2 ^ 3 ^ 2").unwrap()).unwrap();
    assert_eq!(
        rpn,
        vec![rn(2.0), rn(3.0), rn(2.0), rop(MathOperator::Pow), rop(MathOperator::Pow)]
    );
    assert_eq!(execute(&rpn), Ok(Value::Number(num(512.0))));
}

#[test]
fn subtraction_groups_to_the_left() {
    let rpn = infix_to_rpn(&parse("10 - 4 - 3").unwrap()).unwrap();
    assert_eq!(
        rpn,
        vec![rn(10.0), rn(4.0), rop(MathOperator::Sub), rn(3.0), rop(MathOperator::Sub)]
    );
    assert_eq!(execute(&rpn), Ok(Value::Number(num(3.0))));
}

#[test]
fn parentheses_override_precedence() {
    assert_eq!(value("(1 + 2) * 3"), Value::Number(num(9.0)));
    assert_eq!(
        infix_to_rpn(&parse("(1 + 2) * 3").unwrap()).unwrap(),
        vec![rn(1.0), rn(2.0), rop(MathOperator::Add), rn(3.0), rop(MathOperator::Mul)]
    );
    assert_eq!(value("2 * (3 + 4) * 5"), Value::Number(num(70.0)));
    assert_eq!(value("((2))"), Value::Number(num(2.0)));
}

#[test]
fn a_leading_minus_makes_a_negative_number() {
    assert_eq!(
        parse("-3 + 4").unwrap(),
        vec![n(-3.0), op(MathOperator::Add), n(4.0)]
    );
    assert_eq!(value("-3 + 4"), Value::Number(num(1.0)));
    assert_eq!(
        parse("5 - 3").unwrap(),
        vec![n(5.0), op(MathOperator::Sub), n(3.0)]
    );
    assert_eq!(value("5 - 3"), Value::Number(num(2.0)));
}

#[test]
fn minus_after_operator_or_parenthesis_is_a_sign() {
    assert_eq!(
        parse("2 * -3").unwrap(),
        vec![n(2.0), op(MathOperator::Mul), n(-3.0)]
    );
    assert_eq!(
        parse("(-3)").unwrap(),
        vec![InfixItem::OpenParen, n(-3.0), InfixItem::CloseParen]
    );
    assert_eq!(
        parse("5 - -3").unwrap(),
        vec![n(5.0), op(MathOperator::Sub), n(-3.0)]
    );
    assert_eq!(value("5 - -3"), Value::Number(num(8.0)));
    assert_eq!(parse("5-3").unwrap(), vec![n(5.0), op(MathOperator::Sub), n(3.0)]);
    assert_eq!(
        parse("-3 - 4").unwrap(),
        vec![n(-3.0), op(MathOperator::Sub), n(4.0)]
    );
    assert_eq!(
        parse("- - 3").unwrap(),
        vec![op(MathOperator::Sub), n(-3.0)]
    );
    assert_eq!(
        parse("true - 3").unwrap(),
        vec![InfixItem::Boolean(true), n(-3.0)]
    );
    assert_eq!(
        parse(") - 3").unwrap(),
        vec![InfixItem::CloseParen, n(-3.0)]
    );
}

#[test]
fn a_minus_without_a_number_after_it_stays() {
    assert_eq!(parse("-").unwrap(), vec![op(MathOperator::Sub)]);
    assert_eq!(parse("3 -").unwrap(), vec![n(3.0), op(MathOperator::Sub)]);
    assert_eq!(
        parse("- (3)").unwrap(),
        vec![op(MathOperator::Sub), InfixItem::OpenParen, n(3.0), InfixItem::CloseParen]
    );
    assert_eq!(
        parse("- true").unwrap(),
        vec![op(MathOperator::Sub), InfixItem::Boolean(true)]
    );
    assert_eq!(parse("").unwrap(), vec![]);
}

#[test]
fn fixing_signs_in_place() {
    let mut items: Vec<InfixItem> = vec![];
    fix_negative_numbers(&mut items);
    assert_eq!(items, vec![]);

    let mut items = vec![op(MathOperator::Sub), n(1.5), op(MathOperator::Sub), n(2.0)];
    fix_negative_numbers(&mut items);
    assert_eq!(items, vec![n(-1.5), op(MathOperator::Sub), n(2.0)]);

    let mut items = vec![op(MathOperator::Sub), n(-1.5)];
    fix_negative_numbers(&mut items);
    assert_eq!(items, vec![n(1.5)]);

    let mut items = vec![op(MathOperator::Sub), n(0.0)];
    fix_negative_numbers(&mut items);
    match items[0] {
        InfixItem::Operand(x) => assert_eq!(x.to_bits(), (-0.0f64).to_bits()),
        other => panic!("{:?}", other),
    }

    let mut items = vec![op(MathOperator::Add), n(1.0), op(MathOperator::Mul), op(MathOperator::Sub)];
    let before = items.clone();
    fix_negative_numbers(&mut items);
    assert_eq!(items, before);
}

#[test]
fn mismatched_parentheses() {
    assert_eq!(
        infix_to_rpn(&parse("(1 + 2").unwrap()),
        Err(ConversionError::MismatchedParentheses)
    );
    assert_eq!(
        infix_to_rpn(&parse("1 + 2)").unwrap()),
        Err(ConversionError::MismatchedParentheses)
    );
    assert_eq!(
        infix_to_rpn(&parse(")(").unwrap()),
        Err(ConversionError::MismatchedParentheses)
    );
    assert_eq!(
        infix_to_rpn(&parse("((1)").unwrap()),
        Err(ConversionError::MismatchedParentheses)
    );
    assert_eq!(
        infix_to_rpn(&parse("(1))").unwrap()),
        Err(ConversionError::MismatchedParentheses)
    );
    assert_eq!(infix_to_rpn(&parse("()").unwrap()), Ok(vec![]));
    assert_eq!(infix_to_rpn(&[]), Ok(vec![]));
    assert_eq!(
        ConversionError::MismatchedParentheses.message(),
        "Mismatched Parentheses"
    );
}

#[test]
fn words_in_infix_order() {
    assert_eq!(
        parse("(1+2)*3").unwrap(),
        vec![
            InfixItem::OpenParen,
            n(1.0),
            op(MathOperator::Add),
            n(2.0),
            InfixItem::CloseParen,
            op(MathOperator::Mul),
            n(3.0),
        ]
    );
    assert_eq!(
        parse("1.5>=2& true").unwrap(),
        vec![
            n(1.5),
            op(MathOperator::Ge),
            n(2.0),
            op(MathOperator::And),
            InfixItem::Boolean(true),
        ]
    );
    assert_eq!(parse("2&true"), Err(ParseError::InvalidOperator("&true".to_string())));
    assert_eq!(parse("1.2.3"), Err(ParseError::InvalidNumber("1.2.3".to_string())));
    assert_eq!(parse("1 $ 2"), Err(ParseError::InvalidOperator("$".to_string())));
    assert_eq!(parse("1e5"), Err(ParseError::InvalidOperator("e".to_string())));
}

#[test]
fn a_parenthesis_is_read_before_a_number() {
    let lexeme = Lexeme::new("(".to_string(), Some(num(1.0)));
    assert_eq!(InfixItem::from_lexeme(&lexeme), Ok(InfixItem::OpenParen));
    let lexeme = Lexeme::new(")".to_string(), Some(num(1.0)));
    assert_eq!(InfixItem::from_lexeme(&lexeme), Ok(InfixItem::CloseParen));
    let lexeme = Lexeme::new("()".to_string(), None);
    assert_eq!(
        InfixItem::from_lexeme(&lexeme),
        Err(ParseError::InvalidOperator("()".to_string()))
    );
}

#[test]
fn tokens_as_postfix_tokens() {
    assert_eq!(n(2.0).to_rpn_item(), Ok(rn(2.0)));
    assert_eq!(InfixItem::Boolean(false).to_rpn_item(), Ok(RpnItem::Boolean(false)));
    assert_eq!(op(MathOperator::Not).to_rpn_item(), Ok(rop(MathOperator::Not)));
    assert_eq!(InfixItem::OpenParen.to_rpn_item(), Err(true));
    assert_eq!(InfixItem::CloseParen.to_rpn_item(), Err(false));
}

#[test]
fn prefix_operators() {
    assert_eq!(value("sqrt 16"), Value::Number(num(4.0)));
    assert_eq!(value("sqrt sqrt 16"), Value::Number(num(2.0)));
    assert_eq!(value("! true"), Value::Boolean(false));
    assert_eq!(value("! (1 > 2)"), Value::Boolean(true));
    assert_eq!(value("sqrt 16 + 9"), Value::Number(num(13.0)));
}

#[test]
fn precedence_levels_in_one_expression() {
    assert_eq!(value("1 + 2 * 3 ^ 2 > 18 & true"), Value::Boolean(true));
    assert_eq!(value("1 + 2 = 3 | 1 > 2"), Value::Boolean(true));
    assert_eq!(value("8 / 4 / 2"), Value::Number(num(1.0)));
    assert_eq!(value("2 * 3 + 4 * 5"), Value::Number(num(26.0)));
    assert_eq!(value("2 ^ 2 * 3"), Value::Number(num(12.0)));
}

#[test]
fn conversion_is_reproducible() {
    for text in ["1 + 2 * 3", "(1 + 2) * 3", "2 ^ 3 ^ 2", "-3 + 4", "! (1 < 2) | true"] {
        let first = infix_to_rpn(&parse(text).unwrap()).unwrap();
        for _ in 0..3 {
            assert_eq!(infix_to_rpn(&parse(text).unwrap()).unwrap(), first);
        }
    }
}

#[test]
fn conversion_keeps_all_tokens_but_the_parentheses() {
    let texts = [
        "1 + 2 * 3",
        "(1 + 2) * 3",
        "((1 + 2) * (3 - 4)) ^ 2 ^ 0.5",
        "! (1 < 2) | true & false",
        "sqrt (4 + 5) * -2",
        "",
    ];
    for text in texts {
        let tokens = parse(text).unwrap();
        let rpn = infix_to_rpn(&tokens).unwrap();
        let plain = tokens
            .iter()
            .filter(|t| !matches!(t, InfixItem::OpenParen | InfixItem::CloseParen))
            .count();
        assert_eq!(rpn.len(), plain, "{:?}", text);
        let values: Vec<RpnItem> = tokens
            .iter()
            .filter_map(|t| match t.to_rpn_item() {
                Ok(RpnItem::Operator(_)) | Err(_) => None,
                Ok(item) => Some(item),
            })
            .collect();
        let kept: Vec<RpnItem> = rpn
            .iter()
            .copied()
            .filter(|t| !matches!(t, RpnItem::Operator(_)))
            .collect();
        assert_eq!(kept, values, "{:?}", text);
    }
}

#[test]
fn conversion_succeeds_exactly_on_balanced_parentheses() {
    let cases = [
        ("", true),
        ("()", true),
        ("(())()", true),
        ("(1 + (2 * 3)) - (4)", true),
        ("(", false),
        (")", false),
        (")(", false),
        ("(()", false),
        ("())", false),
        ("1 + (2 * 3", false),
        ("1 + 2) * (3", false),
    ];
    for (text, balanced) in cases {
        assert_eq!(infix_to_rpn(&parse(text).unwrap()).is_ok(), balanced, "{:?}", text);
    }
}
