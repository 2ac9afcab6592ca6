use tornado_matcher::accessor::{Accessor, AccessorBuilder};
use tornado_matcher::error::MatcherError;
use tornado_matcher::event::Event;
use tornado_matcher::number::Number;
use tornado_matcher::path::PathKey;
use tornado_matcher::value::Value;

fn text(s: &str) -> Value {
    Value::Text(s.to_owned())
}

fn new_event(event_type: &str) -> Event {
    Event::new("trace".to_owned(), event_type.to_owned(), 1_554_130_814_854, vec![])
}

fn new_event_with_payload(event_type: &str, payload: Vec<(String, Value)>) -> Event {
    Event::new("trace".to_owned(), event_type.to_owned(), 1_554_130_814_854, payload)
}

fn get(accessor: &Accessor, event: &Event, vars: &Vec<(String, Value)>) -> Option<Value> {
    accessor.get(event, vars).map(|found| found.into_value())
}

fn fields(names: &[&str]) -> Vec<PathKey> {
    names.iter().map(|name| PathKey::Field((*name).to_owned())).collect()
}

fn body_and_subject() -> Vec<(String, Value)> {
    vec![("body".to_owned(), text("body_value")), ("subject".to_owned(), text("subject_value"))]
}

#[test]
fn should_return_a_constant_value() {
    let accessor = Accessor::Constant { value: text("constant_value") };
    let event = new_event("event_type_string");
    let result = get(&accessor, &event, &vec![]).unwrap();
    assert_eq!(text("constant_value"), result);
}

#[test]
fn should_not_trigger_a_constant_value() {
    let accessor = Accessor::Constant { value: text("  constant_value  ") };
    let event = new_event("event_type_string");
    let result = get(&accessor, &event, &vec![]).unwrap();
    assert_eq!(text("  constant_value  "), result);
}

#[test]
fn should_return_the_event_type() {
    let accessor = Accessor::Type;
    let event = new_event("event_type_string");
    let result = get(&accessor, &event, &vec![]).unwrap();
    assert_eq!(text("event_type_string"), result);
}

#[test]
fn should_return_the_event_created_ts() {
    let accessor = Accessor::CreatedMs;
    let event = new_event("event_type_string");
    let result = get(&accessor, &event, &vec![]);
    match result {
        Some(Value::Number(n)) => {
            assert_eq!(1_554_130_814_854f64.to_bits(), n.bits());
            assert_eq!("1554130814854", n.text());
        }
        _ => panic!("a number was expected"),
    }
}

#[test]
fn should_return_the_event_trace_id() {
    let accessor = Accessor::TraceId;
    let event = new_event("event_type_string");
    assert_eq!(Some(text("trace")), get(&accessor, &event, &vec![]));
}

#[test]
fn should_return_value_from_payload_if_exists() {
    let accessor = Accessor::Payload { keys: fields(&["body"]) };
    let event = new_event_with_payload("event_type_string", body_and_subject());
    let result = get(&accessor, &event, &vec![]).unwrap();
    assert_eq!(text("body_value"), result);
}

#[test]
fn should_return_non_text_nodes() {
    let accessor = Accessor::Payload { keys: fields(&["body"]) };
    let body = vec![
        ("first".to_owned(), text("body_first_value")),
        ("second".to_owned(), text("body_second_value")),
    ];
    let body_clone = vec![
        ("first".to_owned(), text("body_first_value")),
        ("second".to_owned(), text("body_second_value")),
    ];
    let payload = vec![("body".to_owned(), Value::Object(body))];
    let event = new_event_with_payload("event_type_string", payload);
    let result = get(&accessor, &event, &vec![]).unwrap();
    assert_eq!(Value::Object(body_clone), result);
}

#[test]
fn should_return_value_from_nested_payload_if_exists() {
    let accessor = Accessor::Payload { keys: fields(&["body", "first"]) };
    let body = vec![
        ("first".to_owned(), text("body_first_value")),
        ("second".to_owned(), text("body_second_value")),
    ];
    let payload = vec![("body".to_owned(), Value::Object(body))];
    let event = new_event_with_payload("event_type_string", payload);
    let result = get(&accessor, &event, &vec![]).unwrap();
    assert_eq!(text("body_first_value"), result);
}

#[test]
fn should_return_accept_double_quotas_delimited_keys() {
    let accessor = Accessor::Payload { keys: fields(&["body", "second.with.dot"]) };
    let body = vec![
        ("first".to_owned(), text("body_first_value")),
        ("second.with.dot".to_owned(), text("body_second_value")),
    ];
    let payload = vec![("body".to_owned(), Value::Object(body))];
    let event = new_event_with_payload("event_type_string", payload);
    let result = get(&accessor, &event, &vec![]).unwrap();
    assert_eq!(text("body_second_value"), result);
}

#[test]
fn should_return_none_from_payload_if_not_exists() {
    let accessor = Accessor::Payload { keys: fields(&["date"]) };
    let event = new_event_with_payload("event_type_string", body_and_subject());
    let result = get(&accessor, &event, &vec![]);
    assert!(result.is_none());
}

#[test]
fn should_return_the_entire_event() {
    let accessor = Accessor::Event;
    let event = new_event_with_payload("event_type_string", body_and_subject());
    let result = get(&accessor, &event, &vec![]).unwrap();
    assert_eq!(event.to_value(), result);
    let expected = Value::Object(vec![
        ("trace_id".to_owned(), text("trace")),
        ("type".to_owned(), text("event_type_string")),
        (
            "created_ms".to_owned(),
            Value::Number(Number::new(1_554_130_814_854f64.to_bits(), "1554130814854".to_owned())),
        ),
        ("payload".to_owned(), Value::Object(body_and_subject())),
    ]);
    assert_eq!(expected, result);
}

#[test]
fn should_return_the_entire_payload() {
    let accessor = Accessor::Payload { keys: vec![] };
    let event = new_event_with_payload("event_type_string", body_and_subject());
    let result = get(&accessor, &event, &vec![]).unwrap();
    assert_eq!(Value::Object(body_and_subject()), result);
}

#[test]
fn should_return_value_from_extracted_var() {
    let accessor = Accessor::ExtractedVar { key: "rule1.body".to_owned() };
    let event = new_event("event_type_string");
    let vars = vec![
        ("rule1.body".to_owned(), text("body_value")),
        ("rule1.subject".to_owned(), text("subject_value")),
    ];
    let result = get(&accessor, &event, &vars).unwrap();
    assert_eq!(text("body_value"), result);
}

#[test]
fn should_return_none_if_no_match() {
    let accessor = Accessor::ExtractedVar { key: "rule1.body".to_owned() };
    let event = new_event("event_type_string");
    let result = get(&accessor, &event, &vec![]);
    assert!(result.is_none());
}

#[test]
fn should_return_an_element_of_an_array() {
    let accessor = Accessor::Payload {
        keys: vec![PathKey::Field("hostgroups".to_owned()), PathKey::Index(1)],
    };
    let payload =
        vec![("hostgroups".to_owned(), Value::Array(vec![text("linux0"), text("linux1")]))];
    let event = new_event_with_payload("email", payload);
    assert_eq!(Some(text("linux1")), get(&accessor, &event, &vec![]));
    let out_of_bounds = Accessor::Payload {
        keys: vec![PathKey::Field("hostgroups".to_owned()), PathKey::Index(2)],
    };
    assert_eq!(None, get(&out_of_bounds, &event, &vec![]));
    let not_an_array =
        Accessor::Payload { keys: vec![PathKey::Index(0)] };
    assert_eq!(None, get(&not_an_array, &event, &vec![]));
}

#[test]
fn should_join_the_parts_of_an_interpolation() {
    let accessor = Accessor::Interpolated {
        parts: vec![
            Accessor::Constant { value: text("type: ") },
            Accessor::Type,
            Accessor::Constant { value: text(", ok: ") },
            Accessor::Constant { value: Value::Bool(true) },
            Accessor::Constant { value: text(", n: ") },
            Accessor::Constant { value: Value::Number(Number::new(1.5f64.to_bits(), "1.5".to_owned())) },
            Accessor::Constant { value: text(", none: ") },
            Accessor::Constant { value: Value::Null },
        ],
    };
    let event = new_event("email");
    assert_eq!(
        Some(text("type: email, ok: true, n: 1.5, none: null")),
        get(&accessor, &event, &vec![])
    );
}

#[test]
fn interpolation_should_be_absent_if_a_part_is_absent_or_compound() {
    let event = new_event_with_payload("email", vec![("list".to_owned(), Value::Array(vec![]))]);
    let with_absent = Accessor::Interpolated {
        parts: vec![Accessor::Type, Accessor::Payload { keys: fields(&["missing"]) }],
    };
    assert_eq!(None, get(&with_absent, &event, &vec![]));
    let with_array = Accessor::Interpolated {
        parts: vec![Accessor::Type, Accessor::Payload { keys: fields(&["list"]) }],
    };
    assert_eq!(None, get(&with_array, &event, &vec![]));
    let with_object =
        Accessor::Interpolated { parts: vec![Accessor::Payload { keys: vec![] }] };
    assert_eq!(None, get(&with_object, &event, &vec![]));
}

#[test]
fn builder_should_return_constant_accessor() {
    let builder = AccessorBuilder::new();
    let value = "constant_value".to_owned();
    let accessor = builder.build("", &value).unwrap();
    assert_eq!(Accessor::Constant { value: Value::Text(value) }, accessor);
}

#[test]
fn builder_should_keep_the_white_space_of_a_constant() {
    let builder = AccessorBuilder::new();
    let accessor = builder.build("", "  constant_value  ").unwrap();
    assert_eq!(Accessor::Constant { value: text("  constant_value  ") }, accessor);
}

#[test]
fn builder_should_return_event_accessor_for_type() {
    let builder = AccessorBuilder::new();
    let value = "${event.type}".to_owned();
    let accessor = builder.build("", &value).unwrap();
    assert_eq!(Accessor::Type, accessor)
}

#[test]
fn builder_should_return_event_accessor_for_created_ts() {
    let builder = AccessorBuilder::new();
    let value = "${event.created_ms}".to_owned();
    let accessor = builder.build("", &value).unwrap();
    assert_eq!(Accessor::CreatedMs, accessor)
}

#[test]
fn builder_should_return_event_accessor_for_trace_id() {
    let builder = AccessorBuilder::new();
    let accessor = builder.build("", "${event.metadata.trace_id}").unwrap();
    assert_eq!(Accessor::TraceId, accessor)
}

#[test]
fn builder_should_return_payload_accessor() {
    let builder = AccessorBuilder::new();
    let value = "${event.payload.key}".to_owned();
    let accessor = builder.build("", &value).unwrap();
    assert_eq!(Accessor::Payload { keys: fields(&["key"]) }, accessor)
}

#[test]
fn builder_should_return_payload_accessor_with_nested_keys() {
    let builder = AccessorBuilder::new();
    let value = r#"${event.payload.first.second."th. ird"."four"}"#.to_owned();
    let accessor = builder.build("", &value).unwrap();
    assert_eq!(
        Accessor::Payload { keys: fields(&["first", "second", "th. ird", "four"]) },
        accessor
    )
}

#[test]
fn builder_should_return_payload_accessor_with_index() {
    let builder = AccessorBuilder::new();
    let accessor = builder.build("", "${event.payload.hostgroups[0]}").unwrap();
    assert_eq!(
        Accessor::Payload {
            keys: vec![PathKey::Field("hostgroups".to_owned()), PathKey::Index(0)]
        },
        accessor
    );
    let accessor = builder.build("", r#"${event.payload."a.b"[12][3].c}"#).unwrap();
    assert_eq!(
        Accessor::Payload {
            keys: vec![
                PathKey::Field("a.b".to_owned()),
                PathKey::Index(12),
                PathKey::Index(3),
                PathKey::Field("c".to_owned())
            ]
        },
        accessor
    );
}

#[test]
fn builder_should_return_current_rule_extracted_var_accessor() {
    let builder = AccessorBuilder::new();
    let value = "${_variables.key}".to_owned();
    let accessor = builder.build("current_rule_name", &value).unwrap();
    assert_eq!(Accessor::ExtractedVar { key: "current_rule_name.key".to_owned() }, accessor)
}

#[test]
fn builder_should_return_event_accessor() {
    let builder = AccessorBuilder::new();
    let value = "${event}".to_owned();
    let accessor = builder.build("", &value).unwrap();
    assert_eq!(Accessor::Event, accessor);
    let event = new_event_with_payload("event_type_string", body_and_subject());
    let result = get(&accessor, &event, &vec![]).unwrap();
    assert_eq!(event.to_value(), result);
}

#[test]
fn builder_should_return_payload_accessor_with_expected_key() {
    let builder = AccessorBuilder::new();
    let value = "${event.payload.body}".to_owned();
    let accessor = builder.build("", &value).unwrap();
    let event = new_event_with_payload("event_type_string", body_and_subject());
    let result = get(&accessor, &event, &vec![]).unwrap();
    assert_eq!(text("body_value"), result);
}

#[test]
fn builder_should_return_error_if_unknown_accessor() {
    let builder = AccessorBuilder::new();
    let value = "${events.types}".to_owned();
    let accessor = builder.build("", &value);
    assert!(&accessor.is_err());
    match accessor.err().unwrap() {
        MatcherError::UnknownAccessor { accessor } => assert_eq!(value, accessor),
        _ => assert!(false),
    };
}

#[test]
fn builder_should_return_error_for_unknown_event_field() {
    let builder = AccessorBuilder::new();
    for value in ["${event.payloads}", "${event.created_ts}", "${event.}", "${}", "${ }"] {
        match builder.build("rule", value) {
            Err(MatcherError::UnknownAccessor { accessor }) => assert_eq!(value, accessor),
            other => panic!("unexpected result for [{}]: {:?}", value, other),
        }
    }
}

#[test]
fn accessor_should_return_the_entire_payload_if_empty_payload_key() {
    let builder = AccessorBuilder::new();
    let value = "${event.payload.}";
    let accessor = builder.build("", value);
    assert!(&accessor.is_ok());
    assert_eq!(Accessor::Payload { keys: vec![] }, accessor.unwrap());
    assert_eq!(Accessor::Payload { keys: vec![] }, builder.build("", "${event.payload}").unwrap());
}

#[test]
fn builder_should_return_error_if_wrong_extracted_var_name() {
    let builder = AccessorBuilder::new();
    let value = "${_variables.not.valid}";
    let accessor = builder.build("", value);
    assert!(&accessor.is_err());
    match accessor.err().unwrap() {
        MatcherError::NotValidIdOrName { message } => {
            assert!(message.contains("${_variables.not.valid}"));
        }
        _ => assert!(false),
    };
}

#[test]
fn builder_should_trim_the_expression() {
    let builder = AccessorBuilder::new();
    assert_eq!(Accessor::Type, builder.build("", "  ${  event.type  }  ").unwrap());
    assert_eq!(
        Accessor::ExtractedVar { key: "r.x".to_owned() },
        builder.build("r", "${_variables.  x }").unwrap()
    );
}

#[test]
fn builder_should_return_interpolated_accessor() {
    let builder = AccessorBuilder::new();
    let accessor = builder.build("r", "type: ${event.type} - ${_variables.v}!").unwrap();
    assert_eq!(
        Accessor::Interpolated {
            parts: vec![
                Accessor::Constant { value: text("type: ") },
                Accessor::Type,
                Accessor::Constant { value: text(" - ") },
                Accessor::ExtractedVar { key: "r.v".to_owned() },
                Accessor::Constant { value: text("!") },
            ]
        },
        accessor
    );
    let accessor = builder.build("r", "${event.type}${event.type}").unwrap();
    assert_eq!(Accessor::Interpolated { parts: vec![Accessor::Type, Accessor::Type] }, accessor);
    let accessor = builder.build("r", " ${event.type} and ${open").unwrap();
    assert_eq!(
        Accessor::Interpolated {
            parts: vec![
                Accessor::Constant { value: text(" ") },
                Accessor::Type,
                Accessor::Constant { value: text(" and ${open") },
            ]
        },
        accessor
    );
}

#[test]
fn builder_should_fail_on_the_first_wrong_expression_of_a_template() {
    let builder = AccessorBuilder::new();
    match builder.build("r", "a ${event.type} b ${wrong} c ${also.wrong}") {
        Err(MatcherError::UnknownAccessor { accessor }) => assert_eq!("${wrong}", accessor),
        other => panic!("unexpected result: {:?}", other),
    }
}

#[test]
fn builder_should_return_constant_for_unclosed_expression() {
    let builder = AccessorBuilder::new();
    let accessor = builder.build("", "${event.type").unwrap();
    assert_eq!(Accessor::Constant { value: text("${event.type") }, accessor);
    let accessor = builder.build("", "event.type").unwrap();
    assert_eq!(Accessor::Constant { value: text("event.type") }, accessor);
}

#[test]
fn builder_should_build_from_a_value() {
    let builder = AccessorBuilder::new();
    assert_eq!(Accessor::Type, builder.build_from_value("", &text("${event.type}")).unwrap());
    assert_eq!(
        Accessor::Constant { value: Value::Bool(true) },
        builder.build_from_value("", &Value::Bool(true)).unwrap()
    );
    assert_eq!(
        Accessor::Constant { value: Value::Array(vec![text("${event.type}")]) },
        builder.build_from_value("", &Value::Array(vec![text("${event.type}")])).unwrap()
    );
}

#[test]
fn quoted_key_should_read_a_key_with_dots() {
    let builder = AccessorBuilder::new();
    let accessor = builder.build("", r#"${event.payload."k.with.dots"}"#).unwrap();
    let event = new_event_with_payload("x", vec![("k.with.dots".to_owned(), text("ok"))]);
    assert_eq!(Some(text("ok")), get(&accessor, &event, &vec![]));
}

#[test]
fn builder_should_parse_a_payload_key() {
    let builder = AccessorBuilder::new();

    assert_eq!(fields(&["one"]), builder.parse_event_key("one", "", "").unwrap());

    assert_eq!(fields(&["one", "two"]), builder.parse_event_key("one.two", "", "").unwrap());

    assert_eq!(fields(&["one", "two"]), builder.parse_event_key("one.two.", "", "").unwrap());

    assert_eq!(fields(&["one", ""]), builder.parse_event_key(r#"one."""#, "", "").unwrap());

    assert_eq!(
        fields(&["one", "two", "th ir.d"]),
        builder.parse_event_key(r#"one.two."th ir.d""#, "", "").unwrap()
    );

    assert_eq!(
        fields(&["th ir.d", "a", "fourth", "two",]),
        builder.parse_event_key(r#""th ir.d".a."fourth".two"#, "", "").unwrap()
    );

    assert_eq!(
        fields(&["payload", "oids", "SNMPv2-SMI::enterprises.14848.2.1.1.6.0"]),
        builder
            .parse_event_key(r#"payload.oids."SNMPv2-SMI::enterprises.14848.2.1.1.6.0""#, "", "")
            .unwrap()
    );
}

#[test]
fn payload_key_parser_should_keep_empty_segments() {
    let builder = AccessorBuilder::new();
    assert_eq!(fields(&["a", "", "b"]), builder.parse_event_key("a..b", "", "").unwrap());
    assert_eq!(fields(&["", "a"]), builder.parse_event_key("..a", "", "").unwrap());
    assert_eq!(fields(&[""]), builder.parse_event_key("..", "", "").unwrap());
}

#[test]
fn payload_key_parser_should_read_indexes() {
    let builder = AccessorBuilder::new();
    assert_eq!(
        vec![PathKey::Field("a".to_owned()), PathKey::Index(0), PathKey::Index(17)],
        builder.parse_event_key("a[0][17]", "", "").unwrap()
    );
    assert_eq!(vec![PathKey::Index(3)], builder.parse_event_key("[3]", "", "").unwrap());
    assert_eq!(
        vec![PathKey::Index(3), PathKey::Field("b".to_owned())],
        builder.parse_event_key(".[3].b", "", "").unwrap()
    );
    assert_eq!(
        vec![PathKey::Index(usize::MAX)],
        builder.parse_event_key(&format!("[{}]", usize::MAX), "", "").unwrap()
    );
    for wrong in ["a[", "a[]", "a[-1]", "a[1", "a[1]b", "a]", "a[x]", "a[1 ]", "a[99999999999999999999999]"] {
        assert!(builder.parse_event_key(wrong, "", "").is_err(), "{}", wrong);
    }
}

#[test]
fn payload_key_parser_should_fail_if_key_contains_double_quotes() {
    let builder = AccessorBuilder::new();
    let result = builder.parse_event_key(r#"o"ne"#, "", "");
    assert!(result.is_err());
    assert!(matches!(result, Err(MatcherError::NotValidIdOrName { .. })));
    assert!(builder.parse_event_key(r#""one"two"#, "", "").is_err());
}

#[test]
fn payload_key_parser_should_fail_if_key_does_not_contain_both_trailing_and_ending_quotes() {
    let builder = AccessorBuilder::new();
    let result = builder.parse_event_key(r#"one."two"#, "", "");
    assert!(result.is_err());
}

#[test]
fn builder_parser_should_return_empty_vector_if_no_matches() {
    let builder = AccessorBuilder::new();
    let expected: Vec<PathKey> = vec![];
    assert_eq!(expected, builder.parse_event_key("", "", "").unwrap())
}

#[test]
fn builder_parser_should_return_empty_vector_if_single_dot() {
    let builder = AccessorBuilder::new();
    let expected: Vec<PathKey> = vec![];
    assert_eq!(expected, builder.parse_event_key(".", "", "").unwrap())
}

#[test]
fn builder_parser_should_return_ignore_trailing_dot() {
    let builder = AccessorBuilder::new();
    let expected: Vec<PathKey> = fields(&["hello", "world"]);
    assert_eq!(expected, builder.parse_event_key(".hello.world", "", "").unwrap())
}
