use tornado_matcher::config::Operator;
use tornado_matcher::error::MatcherError;
use tornado_matcher::event::Event;
use tornado_matcher::number::Number;
use tornado_matcher::operator::{Operator as CompiledOperator, OperatorBuilder};
use tornado_matcher::value::Value;

fn text(s: &str) -> Value {
    Value::Text(s.to_owned())
}

fn num(x: f64) -> Value {
    Value::Number(Number::new(x.to_bits(), x.to_string()))
}

fn event() -> Event {
    Event::new(
        "id".to_owned(),
        "email".to_owned(),
        1000,
        vec![
            ("text".to_owned(), text("hello world")),
            ("n".to_owned(), num(2.5)),
            ("flag".to_owned(), Value::Bool(true)),
            ("none".to_owned(), Value::Null),
            ("list".to_owned(), Value::Array(vec![text("a"), num(1.0), Value::Array(vec![])])),
            (
                "map".to_owned(),
                Value::Object(vec![("k1".to_owned(), num(1.0)), ("2.5".to_owned(), text("x"))]),
            ),
        ],
    )
}

fn holds(config: Operator) -> bool {
    let builder = OperatorBuilder::new();
    let operator = builder.build("rule", &config).unwrap();
    operator.evaluate(&event(), &vec![("rule.v".to_owned(), text("extracted"))])
}

#[test]
fn build_should_return_error_if_wrong_operator() {
    let ops = Operator::Equal { first: text("${WRONG_ARG}"), second: text("second_arg") };
    let builder = OperatorBuilder::new();
    assert!(builder.build("", &ops).is_err());
    assert!(matches!(builder.build("", &ops), Err(MatcherError::UnknownAccessor { .. })));
}

#[test]
fn build_should_return_the_equal_operator() {
    let ops = Operator::Equal { first: text("first_arg="), second: text("second_arg") };
    let builder = OperatorBuilder::new();
    let operator = builder.build("", &ops).unwrap();
    assert_eq!("equal", operator.name());
}

#[test]
fn build_should_return_the_regex_operator() {
    let ops = Operator::Regex { regex: "[a-fA-F0-9]".to_owned(), target: "target".to_owned() };
    let builder = OperatorBuilder::new();
    let operator = builder.build("", &ops).unwrap();
    assert_eq!("regex", operator.name());
}

#[test]
fn build_should_return_the_and_operator() {
    let ops = Operator::And {
        operators: vec![Operator::Equal { first: text("first_arg"), second: text("second_arg") }],
    };
    let builder = OperatorBuilder::new();
    let operator = builder.build("", &ops).unwrap();
    assert_eq!("and", operator.name());
}

#[test]
fn build_should_return_the_or_operator() {
    let ops = Operator::Or { operators: vec![] };
    let builder = OperatorBuilder::new();
    let operator = builder.build("", &ops).unwrap();
    assert_eq!("or", operator.name());
}

#[test]
fn build_should_name_every_operator() {
    let builder = OperatorBuilder::new();
    let pair = || (text("a"), text("b"));
    let name = |config: Operator| builder.build("", &config).unwrap().name().to_owned();
    let (first, second) = pair();
    assert_eq!("contain", name(Operator::Contain { first, second }));
    let (first, second) = pair();
    assert_eq!("ge", name(Operator::GreaterEqualThan { first, second }));
    let (first, second) = pair();
    assert_eq!("gt", name(Operator::GreaterThan { first, second }));
    let (first, second) = pair();
    assert_eq!("le", name(Operator::LessEqualThan { first, second }));
    let (first, second) = pair();
    assert_eq!("lt", name(Operator::LessThan { first, second }));
}

#[test]
fn build_should_fail_on_the_first_wrong_operator_of_a_list() {
    let builder = OperatorBuilder::new();
    let config = Operator::And {
        operators: vec![
            Operator::Equal { first: text("a"), second: text("a") },
            Operator::Or {
                operators: vec![
                    Operator::Equal { first: text("a"), second: text("${first.wrong}") },
                    Operator::Equal { first: text("${second.wrong}"), second: text("a") },
                ],
            },
            Operator::Regex { regex: "(".to_owned(), target: "a".to_owned() },
        ],
    };
    match builder.build("r", &config) {
        Err(MatcherError::UnknownAccessor { accessor }) => assert_eq!("${first.wrong}", accessor),
        other => panic!("unexpected result: {:?}", other),
    }
    let config = Operator::Regex { regex: "(".to_owned(), target: "${wrong}".to_owned() };
    assert!(matches!(builder.build("r", &config), Err(MatcherError::UnknownAccessor { .. })));
}

#[test]
fn equal_should_compare_values() {
    assert!(holds(Operator::Equal { first: text("${event.type}"), second: text("email") }));
    assert!(!holds(Operator::Equal { first: text("${event.type}"), second: text("sms") }));
    assert!(holds(Operator::Equal { first: text("${event.payload.n}"), second: num(2.5) }));
    assert!(!holds(Operator::Equal { first: text("${event.payload.n}"), second: text("2.5") }));
    assert!(holds(Operator::Equal { first: text("${event.created_ms}"), second: num(1000.0) }));
    assert!(holds(Operator::Equal { first: text("${event.payload.flag}"), second: Value::Bool(true) }));
    assert!(holds(Operator::Equal { first: text("${event.payload.none}"), second: Value::Null }));
    assert!(holds(Operator::Equal { first: text("${_variables.v}"), second: text("extracted") }));
    assert!(!holds(Operator::Equal { first: text("${event.payload.missing}"), second: text("${event.payload.missing}") }));
    assert!(!holds(Operator::Equal { first: text("email"), second: text("${event.payload.missing}") }));
    assert!(holds(Operator::Equal {
        first: text("${event.payload.list}"),
        second: Value::Array(vec![text("a"), num(1.0), Value::Array(vec![])]),
    }));
    assert!(!holds(Operator::Equal {
        first: text("${event.payload.list}"),
        second: Value::Array(vec![num(1.0), text("a"), Value::Array(vec![])]),
    }));
    assert!(holds(Operator::Equal {
        first: text("${event.payload.map}"),
        second: Value::Object(vec![("2.5".to_owned(), text("x")), ("k1".to_owned(), num(1.0))]),
    }));
    assert!(!holds(Operator::Equal {
        first: text("${event.payload.map}"),
        second: Value::Object(vec![("k1".to_owned(), num(1.0))]),
    }));
    assert!(!holds(Operator::Equal { first: num(f64::NAN), second: num(f64::NAN) }));
    assert!(holds(Operator::Equal { first: num(0.0), second: num(-0.0) }));
}

#[test]
fn contain_should_look_into_texts_arrays_and_objects() {
    let contain = |first: &str, second: Value| holds(Operator::Contain { first: text(first), second });
    assert!(contain("${event.payload.text}", text("lo wo")));
    assert!(contain("${event.payload.text}", text("")));
    assert!(contain("${event.payload.text}", text("hello world")));
    assert!(!contain("${event.payload.text}", text("hello world!")));
    assert!(!contain("${event.payload.text}", text("word")));
    assert!(contain("x2.5y", text("${event.payload.n}")));
    assert!(contain("it is true", Value::Bool(true)));
    assert!(!contain("${event.payload.text}", Value::Array(vec![])));
    assert!(contain("${event.payload.list}", text("a")));
    assert!(contain("${event.payload.list}", num(1.0)));
    assert!(contain("${event.payload.list}", Value::Array(vec![])));
    assert!(!contain("${event.payload.list}", text("1")));
    assert!(!contain("${event.payload.list}", text("b")));
    assert!(contain("${event.payload.map}", text("k1")));
    assert!(contain("${event.payload.map}", num(2.5)));
    assert!(!contain("${event.payload.map}", text("x")));
    assert!(!contain("${event.payload.map}", Value::Array(vec![])));
    assert!(!contain("${event.payload.n}", num(2.5)));
    assert!(!contain("${event.payload.flag}", Value::Bool(true)));
    assert!(!contain("${event.payload.missing}", text("a")));
    assert!(!contain("${event.payload.text}", text("${event.payload.missing}")));
}

#[test]
fn comparisons_should_hold_of_numbers_only() {
    let gt = |a: Value, b: Value| holds(Operator::GreaterThan { first: a, second: b });
    let ge = |a: Value, b: Value| holds(Operator::GreaterEqualThan { first: a, second: b });
    let lt = |a: Value, b: Value| holds(Operator::LessThan { first: a, second: b });
    let le = |a: Value, b: Value| holds(Operator::LessEqualThan { first: a, second: b });
    let values = [
        f64::NEG_INFINITY,
        -1e300,
        -2.5,
        -1.0,
        -f64::MIN_POSITIVE,
        -5e-324,
        -0.0,
        0.0,
        5e-324,
        f64::MIN_POSITIVE,
        0.1,
        1.0,
        2.5,
        1e300,
        f64::MAX,
        f64::INFINITY,
        f64::NAN,
    ];
    for a in values {
        for b in values {
            assert_eq!(a > b, gt(num(a), num(b)), "{} > {}", a, b);
            assert_eq!(a >= b, ge(num(a), num(b)), "{} >= {}", a, b);
            assert_eq!(a < b, lt(num(a), num(b)), "{} < {}", a, b);
            assert_eq!(a <= b, le(num(a), num(b)), "{} <= {}", a, b);
            assert_eq!(
                a == b,
                holds(Operator::Equal { first: num(a), second: num(b) }),
                "{} == {}",
                a,
                b
            );
        }
    }
    assert!(gt(text("${event.payload.n}"), num(2.0)));
    assert!(lt(text("${event.created_ms}"), num(1000.5)));
    assert!(!gt(text("3"), num(2.0)));
    assert!(!gt(text("b"), text("a")));
    assert!(!le(text("a"), text("a")));
    assert!(!ge(Value::Bool(true), Value::Bool(true)));
    assert!(!ge(text("${event.payload.missing}"), num(0.0)));
    assert!(!lt(num(0.0), text("${event.payload.missing}")));
}

#[test]
fn regex_should_match_the_text_of_the_target() {
    let regex = |regex: &str, target: &str| {
        holds(Operator::Regex { regex: regex.to_owned(), target: target.to_owned() })
    };
    assert!(regex("[a-fA-F0-9]", "${event.type}"));
    assert!(regex("^email$", "${event.type}"));
    assert!(!regex("^mail", "${event.type}"));
    assert!(regex("^email$", "email"));
    assert!(!regex("^email$", "event.type"));
    assert!(regex("^email$", "  ${event.type}  "));
    assert!(regex("^2\\.5$", "${event.payload.n}"));
    assert!(regex("^true$", "${event.payload.flag}"));
    assert!(regex("^t:email$", "t:${event.type}"));
    assert!(!regex(".*", "${event.payload.missing}"));
    assert!(!regex(".*", "${event.payload.list}"));
    assert!(!regex(".*", "${event.payload}"));
}

#[test]
fn and_should_hold_if_all_hold_and_or_if_one_holds() {
    let yes = || Operator::Equal { first: text("a"), second: text("a") };
    let no = || Operator::Equal { first: text("a"), second: text("b") };
    assert!(holds(Operator::And { operators: vec![] }));
    assert!(!holds(Operator::Or { operators: vec![] }));
    assert!(holds(Operator::And { operators: vec![yes(), yes(), yes()] }));
    assert!(!holds(Operator::And { operators: vec![yes(), no(), yes()] }));
    assert!(holds(Operator::Or { operators: vec![no(), no(), yes()] }));
    assert!(!holds(Operator::Or { operators: vec![no(), no()] }));
    assert!(holds(Operator::And {
        operators: vec![Operator::Or { operators: vec![no(), yes()] }, Operator::And { operators: vec![] }],
    }));
}

#[test]
fn build_option_should_accept_an_absent_operator() {
    let builder = OperatorBuilder::new();
    assert!(builder.build_option("r", &None).unwrap().is_none());
    let some = Some(Operator::Or { operators: vec![] });
    assert_eq!("or", builder.build_option("r", &some).unwrap().unwrap().name());
}

#[test]
fn compiled_regex_should_remember_its_pattern() {
    let builder = OperatorBuilder::new();
    let config = Operator::Regex { regex: "^[a-f]+$".to_owned(), target: "${event.type}".to_owned() };
    match builder.build("rule", &config).unwrap() {
        CompiledOperator::Regex { regex, .. } => {
            assert_eq!("^[a-f]+$", regex.source());
            assert_ne!("${event.type}", regex.source());
        }
        other => panic!("unexpected operator: {:?}", other),
    }
}
