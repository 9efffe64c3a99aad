use node_workers::payload::{make_payloads, AsPayload, EmptyPayload, Payload, Scalar};
use node_workers::{collect_results, encode_all, TaskFailure};

fn text_of<P: AsPayload>(value: P) -> Option<String> {
    value.to_payload().to_text()
}

fn inner_of(text: &str) -> serde_json::Value {
    let value: serde_json::Value = serde_json::from_str(text).unwrap();
    let object = value.as_object().unwrap();
    assert_eq!(object.len(), 1);
    object.get("_inner_payload").unwrap().clone()
}

#[test]
fn empty_payload_has_no_text() {
    assert_eq!(EmptyPayload::new().to_payload(), Payload::Null);
    assert_eq!(text_of(EmptyPayload::new()), None);
    assert_eq!(text_of(EmptyPayload::default()), None);
}

#[test]
fn bulk_makes_as_many_as_asked() {
    assert_eq!(EmptyPayload::bulk(0).len(), 0);
    assert_eq!(EmptyPayload::bulk(2).len(), 2);
    assert_eq!(EmptyPayload::bulk(300).len(), 300);
}

#[test]
fn integer_is_wrapped() {
    assert_eq!(40u64.to_payload(), Payload::Scalar(Scalar::Unsigned(40)));
    assert_eq!(text_of(40u64).unwrap(), "{\"_inner_payload\":40}");
    assert_eq!(text_of(0u8).unwrap(), "{\"_inner_payload\":0}");
    assert_eq!(text_of(65535u16).unwrap(), "{\"_inner_payload\":65535}");
    assert_eq!(text_of(40u32).unwrap(), "{\"_inner_payload\":40}");
    assert_eq!(text_of(7usize).unwrap(), "{\"_inner_payload\":7}");
    assert_eq!(text_of(u64::MAX).unwrap(), "{\"_inner_payload\":18446744073709551615}");
    assert_eq!(
        text_of(u128::MAX).unwrap(),
        "{\"_inner_payload\":340282366920938463463374607431768211455}"
    );
}

#[test]
fn negative_integer_is_wrapped_with_its_sign() {
    assert_eq!((-5i32).to_payload(), Payload::Scalar(Scalar::Signed(-5)));
    assert_eq!(text_of(-5i32).unwrap(), "{\"_inner_payload\":-5}");
    assert_eq!(text_of(-128i8).unwrap(), "{\"_inner_payload\":-128}");
    assert_eq!(text_of(12i16).unwrap(), "{\"_inner_payload\":12}");
    assert_eq!(text_of(-1isize).unwrap(), "{\"_inner_payload\":-1}");
    assert_eq!(text_of(i64::MIN).unwrap(), "{\"_inner_payload\":-9223372036854775808}");
    assert_eq!(
        text_of(i128::MIN).unwrap(),
        "{\"_inner_payload\":-170141183460469231731687303715884105728}"
    );
}

#[test]
fn string_is_wrapped_as_a_json_string() {
    assert_eq!(text_of("test").unwrap(), "{\"_inner_payload\":\"test\"}");
    assert_eq!(text_of("test".to_string()).unwrap(), "{\"_inner_payload\":\"test\"}");
    assert_eq!(
        text_of("say \"hi\"\n\\").unwrap(),
        "{\"_inner_payload\":\"say \\\"hi\\\"\\n\\\\\"}"
    );
    assert_eq!(text_of("").unwrap(), "{\"_inner_payload\":\"\"}");
}

#[test]
fn wrapped_text_is_what_serde_json_writes_for_the_object() {
    let mut object = serde_json::Map::new();
    object.insert("_inner_payload".to_string(), serde_json::Value::from(102334155u64));
    assert_eq!(text_of(102334155u64).unwrap(), serde_json::Value::Object(object).to_string());
    let mut object = serde_json::Map::new();
    object.insert("_inner_payload".to_string(), serde_json::Value::from("a\tb\u{1}é"));
    assert_eq!(text_of("a\tb\u{1}é").unwrap(), serde_json::Value::Object(object).to_string());
}

#[test]
fn decoding_the_inner_payload_gives_the_primitive_back() {
    for n in [0u64, 1, 9, 10, 40, 99, 100, 12345678901234567890] {
        assert_eq!(inner_of(&text_of(n).unwrap()).as_u64(), Some(n));
        assert_eq!(n.to_payload().inner_payload(), Some(&Scalar::Unsigned(n as u128)));
    }
    for n in [0i64, -1, -10, 42, i64::MIN, i64::MAX] {
        assert_eq!(inner_of(&text_of(n).unwrap()).as_i64(), Some(n));
        assert_eq!(n.to_payload().inner_payload(), Some(&Scalar::Signed(n as i128)));
    }
    for s in ["", "a", "line\nbreak", "quote\"and\\slash", "日本語 😀", "\u{0}\u{1f}"] {
        assert_eq!(inner_of(&text_of(s).unwrap()).as_str(), Some(s));
        assert_eq!(s.to_payload().inner_payload(), Some(&Scalar::Text(s.to_string())));
    }
}

#[test]
fn only_a_wrapped_primitive_has_an_inner_payload() {
    assert_eq!(Payload::Null.inner_payload(), None);
    assert_eq!(Payload::Structured("{\"_inner_payload\":1}".to_string()).inner_payload(), None);
}

#[test]
fn scalar_text_is_the_json_of_the_scalar() {
    assert_eq!(Scalar::Unsigned(55).to_text(), "55");
    assert_eq!(Scalar::Signed(-55).to_text(), "-55");
    assert_eq!(Scalar::Signed(55).to_text(), "55");
    assert_eq!(Scalar::Text("5\"5".to_string()).to_text(), "\"5\\\"5\"");
}

#[test]
fn prebuilt_value_is_passed_through() {
    let mut object = serde_json::Map::new();
    object.insert("value".to_string(), serde_json::Value::from(12u32));
    let value = serde_json::Value::Object(object);
    assert_eq!(value.clone().to_payload(), Payload::Structured("{\"value\":12}".to_string()));
    assert_eq!(text_of(value).unwrap(), "{\"value\":12}");
    let array = serde_json::Value::Array(vec![serde_json::Value::Bool(true), serde_json::Value::Null]);
    assert_eq!(text_of(array).unwrap(), "[true,null]");
}

#[test]
fn prebuilt_null_is_no_payload() {
    assert_eq!(serde_json::Value::Null.to_payload(), Payload::Null);
    assert_eq!(text_of(serde_json::Value::Null), None);
}

#[test]
fn envelope_is_passed_through() {
    let payload = Payload::Structured("[1,2]".to_string());
    assert_eq!(payload.clone().to_payload(), payload);
    assert_eq!(Payload::Null.to_payload(), Payload::Null);
}

#[test]
fn text_null_is_no_payload() {
    assert_eq!(Payload::from_text("null".to_string()), Payload::Null);
    assert_eq!(Payload::from_text("[null]".to_string()), Payload::Structured("[null]".to_string()));
    assert_eq!(Payload::from_text(" null".to_string()), Payload::Structured(" null".to_string()));
    assert_eq!(Payload::Structured("null".to_string()).to_text(), Some("null".to_string()));
}

#[test]
fn optional_value_is_its_encoding_or_no_payload() {
    assert_eq!(Some(40u32).to_payload(), Payload::Scalar(Scalar::Unsigned(40)));
    assert_eq!(None::<u32>.to_payload(), Payload::Null);
    assert_eq!(Some(EmptyPayload::new()).to_payload(), Payload::Null);
    assert_eq!(Some(Some("x")).to_payload(), Payload::Scalar(Scalar::Text("x".to_string())));
    assert_eq!(Some(serde_json::Value::Null).to_payload(), Payload::Null);
}

#[test]
fn payload_list_keeps_the_order_of_mixed_values() {
    let payloads = make_payloads().with(EmptyPayload::new()).with(20).with("test").into_vec();
    assert_eq!(
        payloads,
        vec![
            Payload::Null,
            Payload::Scalar(Scalar::Signed(20)),
            Payload::Scalar(Scalar::Text("test".to_string())),
        ]
    );
    assert_eq!(make_payloads().into_vec(), Vec::<Payload>::new());
}

#[test]
fn encode_all_keeps_the_order() {
    let payloads = encode_all(vec![10u64, 20, 30, 40]);
    assert_eq!(
        payloads,
        vec![
            Payload::Scalar(Scalar::Unsigned(10)),
            Payload::Scalar(Scalar::Unsigned(20)),
            Payload::Scalar(Scalar::Unsigned(30)),
            Payload::Scalar(Scalar::Unsigned(40)),
        ]
    );
    assert_eq!(encode_all(EmptyPayload::bulk(2)), vec![Payload::Null, Payload::Null]);
    assert_eq!(encode_all(Vec::<u8>::new()), Vec::<Payload>::new());
}

#[test]
fn collect_results_keeps_the_order() {
    let outcomes: Vec<Result<Option<u64>, TaskFailure>> =
        vec![Ok(Some(55)), Ok(None), Ok(Some(832040))];
    assert_eq!(collect_results(outcomes), Ok(vec![Some(55), None, Some(832040)]));
    assert_eq!(collect_results(Vec::<Result<Option<u64>, TaskFailure>>::new()), Ok(vec![]));
}

#[test]
fn collect_results_fails_with_the_first_failure() {
    let outcomes: Vec<Result<Option<u64>, TaskFailure>> = vec![
        Ok(Some(55)),
        Err(TaskFailure::Deserialization),
        Ok(Some(1)),
        Err(TaskFailure::ThreadPanicked),
    ];
    assert_eq!(collect_results(outcomes), Err(TaskFailure::Deserialization));
    let outcomes: Vec<Result<Option<()>, TaskFailure>> = vec![Err(TaskFailure::ThreadPanicked)];
    assert_eq!(collect_results(outcomes), Err(TaskFailure::ThreadPanicked));
}

#[test]
fn path_is_wrapped_as_the_string_of_its_text() {
    let path = std::path::PathBuf::from("examples/user-files/user.ts");
    assert_eq!(
        path.clone().to_payload(),
        Payload::Scalar(Scalar::Text("examples/user-files/user.ts".to_string()))
    );
    assert_eq!(text_of(path).unwrap(), "{\"_inner_payload\":\"examples/user-files/user.ts\"}");
    let path = std::path::PathBuf::from("/tmp/a \"b\"/c.ts");
    assert_eq!(text_of(path).unwrap(), "{\"_inner_payload\":\"/tmp/a \\\"b\\\"/c.ts\"}");
    assert_eq!(
        encode_all(vec![std::path::PathBuf::from("a.ts"), std::path::PathBuf::from("b.ts")]),
        vec![
            Payload::Scalar(Scalar::Text("a.ts".to_string())),
            Payload::Scalar(Scalar::Text("b.ts".to_string())),
        ]
    );
}
