use saphyr::emitter::{dump, emit_array, emit_hash, emit_node, EmitError, ScalarValue, WriteEvent, Yaml};
use saphyr::scanner::{Scanner, TokenType};

fn string(s: &str) -> Yaml {
    Yaml::String(s.to_string())
}

fn scalar_string(s: &str) -> WriteEvent {
    WriteEvent::Scalar(ScalarValue::String(s.to_string()))
}

#[test]
fn scalar_document() {
    assert_eq!(
        dump(&Yaml::Integer(42)),
        vec![
            WriteEvent::DocumentStart,
            WriteEvent::Scalar(ScalarValue::Integer(42)),
            WriteEvent::DocumentEnd
        ]
    );
}

#[test]
fn each_scalar_is_one_event() {
    let mut events = Vec::new();
    emit_node(&string("a"), &mut events);
    emit_node(&Yaml::Boolean(true), &mut events);
    emit_node(&Yaml::Integer(-7), &mut events);
    emit_node(&Yaml::Real("1.5".to_string()), &mut events);
    emit_node(&Yaml::Null, &mut events);
    emit_node(&Yaml::BadValue, &mut events);
    assert_eq!(
        events,
        vec![
            scalar_string("a"),
            WriteEvent::Scalar(ScalarValue::Boolean(true)),
            WriteEvent::Scalar(ScalarValue::Integer(-7)),
            WriteEvent::Scalar(ScalarValue::Real("1.5".to_string())),
            WriteEvent::Scalar(ScalarValue::Null),
            WriteEvent::Scalar(ScalarValue::Null),
        ]
    );
}

#[test]
fn alias_is_not_written() {
    let mut events = vec![WriteEvent::DocumentStart];
    emit_node(&Yaml::Alias(3), &mut events);
    assert_eq!(events, vec![WriteEvent::DocumentStart]);
}

#[test]
fn sequence_is_framed() {
    let mut events = Vec::new();
    emit_array(&vec![string("a"), Yaml::Array(vec![]), Yaml::Integer(1)], &mut events);
    assert_eq!(
        events,
        vec![
            WriteEvent::SequenceStart,
            scalar_string("a"),
            WriteEvent::SequenceStart,
            WriteEvent::SequenceEnd,
            WriteEvent::Scalar(ScalarValue::Integer(1)),
            WriteEvent::SequenceEnd,
        ]
    );
}

#[test]
fn mapping_writes_each_key_before_its_value() {
    let mut events = Vec::new();
    emit_hash(
        &vec![(string("k"), Yaml::Integer(1)), (Yaml::Array(vec![string("x")]), Yaml::Null)],
        &mut events,
    );
    assert_eq!(
        events,
        vec![
            WriteEvent::MappingStart,
            scalar_string("k"),
            WriteEvent::Scalar(ScalarValue::Integer(1)),
            WriteEvent::SequenceStart,
            scalar_string("x"),
            WriteEvent::SequenceEnd,
            WriteEvent::Scalar(ScalarValue::Null),
            WriteEvent::MappingEnd,
        ]
    );
}

#[test]
fn test_multiline_string() {
    let input = r#"{foo: "bar!\nbar!", baz: 42}"#;
    // The scalars of the input, in their order.
    let mut scanner = Scanner::new(input.chars().collect());
    let mut scalars = Vec::new();
    while let Some(token) = scanner.next() {
        if let TokenType::Scalar(_, value) = token.1 {
            scalars.push(value);
        }
    }
    assert_eq!(scanner.get_error(), None);
    assert_eq!(scalars, vec!["foo", "bar!\nbar!", "baz", "42"]);
    let parsed = Yaml::Hash(vec![
        (Yaml::String(scalars[0].clone()), Yaml::String(scalars[1].clone())),
        (Yaml::String(scalars[2].clone()), Yaml::Integer(scalars[3].parse().unwrap())),
    ]);
    assert_eq!(
        dump(&parsed),
        vec![
            WriteEvent::DocumentStart,
            WriteEvent::MappingStart,
            scalar_string("foo"),
            scalar_string("bar!\nbar!"),
            scalar_string("baz"),
            WriteEvent::Scalar(ScalarValue::Integer(42)),
            WriteEvent::MappingEnd,
            WriteEvent::DocumentEnd,
        ]
    );
}

#[test]
fn emit_error_from_a_formatting_error() {
    let e = EmitError::from(std::fmt::Error);
    match e {
        EmitError::FmtError(f) => assert_eq!(f, std::fmt::Error),
    }
}
