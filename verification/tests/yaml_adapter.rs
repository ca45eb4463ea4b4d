use deserr::errors::{CollectAll, FailFast};
use deserr::{
    Deserr, ErrorKind, Float, IntoValue, MapIter, Mapping, Sequence, Value, ValueKind,
    ValuePointerRef,
};
use serde_yml::{Mapping as YMap, Number, Tag, TaggedValue, Value as YValue};

fn doggos() -> YValue {
    serde_yml::from_str(
        "
        The: best
        doggos: [are]
        the:
          bernese: mountain",
    )
    .unwrap()
}

fn text(s: &str) -> YValue {
    YValue::String(s.to_string())
}

fn whole(n: i64) -> YValue {
    YValue::Number(Number::from(n))
}

fn tagged(tag: &str, inner: YValue) -> YValue {
    YValue::Tagged(Box::new(TaggedValue::new(Tag::new(tag), inner)))
}

#[test]
fn from_value_to_deserr_and_back() {
    let value: YValue = doggos();
    let deserr = value.clone().into_value();
    assert_eq!(
        format!("{:?}", deserr),
        "Mapping(Mapping({\"The\": String(\"best\"), \"doggos\": Sequence([String(\"are\")]), \
         \"the\": Mapping(Mapping({\"bernese\": String(\"mountain\")}))}))"
    );

    let deserr: YValue = deserr.into();
    assert_eq!(
        format!("{:?}", deserr),
        "Mapping(Mapping({\"The\": String(\"best\"), \"doggos\": Sequence([String(\"are\")]), \
         \"the\": Mapping(Mapping({\"bernese\": String(\"mountain\")}))}))"
    );

    assert_eq!(value, deserr);
}

#[test]
fn native_numbers_are_classified_by_sign_then_float() {
    assert_eq!(whole(0).kind(), ValueKind::Integer);
    assert_eq!(whole(i64::MAX).kind(), ValueKind::Integer);
    assert_eq!(whole(-1).kind(), ValueKind::NegativeInteger);
    assert_eq!(whole(i64::MIN).kind(), ValueKind::NegativeInteger);
    assert_eq!(YValue::Number(Number::from(0.5)).kind(), ValueKind::Float);
    assert_eq!(YValue::Number(Number::from(1.0)).kind(), ValueKind::Float);
}

#[test]
fn canonical_numbers_keep_their_kind() {
    assert_eq!(Value::<YValue>::Integer(0).kind(), ValueKind::Integer);
    assert_eq!(Value::<YValue>::Integer(u64::MAX).kind(), ValueKind::Integer);
    assert_eq!(Value::<YValue>::NegativeInteger(-1).kind(), ValueKind::NegativeInteger);
    let half = Float::new(Number::from(0.5)).unwrap();
    assert_eq!(Value::<YValue>::Float(half).kind(), ValueKind::Float);
}

#[test]
fn every_node_has_its_kind() {
    assert_eq!(YValue::Null.kind(), ValueKind::Null);
    assert_eq!(YValue::Bool(true).kind(), ValueKind::Boolean);
    assert_eq!(text("x").kind(), ValueKind::String);
    assert_eq!(YValue::Sequence(vec![]).kind(), ValueKind::Sequence);
    assert_eq!(YValue::Mapping(YMap::new()).kind(), ValueKind::Mapping);
}

#[test]
fn into_value_opens_one_level() {
    assert!(matches!(YValue::Null.into_value(), Value::Null));
    assert!(matches!(YValue::Bool(true).into_value(), Value::Boolean(true)));
    assert!(matches!(whole(7).into_value(), Value::Integer(7)));
    assert!(matches!(whole(0).into_value(), Value::Integer(0)));
    assert!(matches!(whole(-7).into_value(), Value::NegativeInteger(-7)));
    assert!(matches!(text("x").into_value(), Value::String(s) if s == "x"));
    let seq = YValue::Sequence(vec![whole(1), text("x")]);
    assert!(matches!(
        seq.into_value(),
        Value::Sequence(items) if items == vec![whole(1), text("x")]
    ));
    match YValue::Number(Number::from(0.5)).into_value() {
        Value::Float(f) => assert_eq!(f.into_number().as_f64(), 0.5),
        other => panic!("{:?}", other),
    }
}

#[test]
fn a_tag_is_transparent() {
    let inner = YValue::Sequence(vec![whole(1), whole(-2)]);
    let wrapped = tagged("!custom", inner.clone());
    assert_eq!(wrapped.kind(), inner.kind());
    assert_eq!(wrapped.kind(), ValueKind::Sequence);
    let opened: YValue = wrapped.into_value().into();
    assert_eq!(opened, inner);

    let twice = tagged("!a", tagged("!b", whole(-3)));
    assert_eq!(twice.kind(), ValueKind::NegativeInteger);
    assert!(matches!(twice.into_value(), Value::NegativeInteger(-3)));
}

#[test]
fn a_parsed_tag_is_transparent() {
    let parsed: YValue = serde_yml::from_str("!custom [1, 2]").unwrap();
    assert!(matches!(parsed, YValue::Tagged(_)));
    assert_eq!(parsed.kind(), ValueKind::Sequence);
    let back: YValue = parsed.into_value().into();
    assert_eq!(back, YValue::Sequence(vec![whole(1), whole(2)]));
}

#[test]
fn round_trip_reproduces_the_native_value() {
    let value: YValue = serde_yml::from_str(
        "
        name: deserr
        count: 3
        offset: -12
        ratio: 0.25
        on: true
        none: null
        list: [1, [2, 3], {k: v}]
        nested:
          deep:
            deeper: [x, y]",
    )
    .unwrap();
    let back: YValue = value.clone().into_value().into();
    assert_eq!(back, value);
    let checked: Result<YValue, FailFast> =
        YValue::deserialize_from_value(value.clone().into_value(), ValuePointerRef::Origin);
    assert_eq!(checked.unwrap(), value);
}

#[test]
fn round_trip_keeps_the_order_of_the_keys() {
    let mut map = YMap::new();
    map.insert("zebra", whole(1));
    map.insert("apple", whole(2));
    map.insert("mango", whole(3));
    let value = YValue::Mapping(map);
    let back: YValue = value.clone().into_value().into();
    let keys: Vec<String> = match back {
        YValue::Mapping(m) => m.keys().cloned().collect(),
        other => panic!("{:?}", other),
    };
    assert_eq!(keys, vec!["zebra", "apple", "mango"]);
    let checked: Result<YValue, CollectAll> =
        YValue::deserialize_from_value(value.clone().into_value(), ValuePointerRef::Origin);
    let keys: Vec<String> = match checked.unwrap() {
        YValue::Mapping(m) => m.keys().cloned().collect(),
        other => panic!("{:?}", other),
    };
    assert_eq!(keys, vec!["zebra", "apple", "mango"]);
}

#[test]
fn a_sequence_of_five_keeps_its_order() {
    let items = vec![whole(50), whole(10), whole(40), whole(20), whole(30)];
    let value = YValue::Sequence(items.clone());
    let built: Result<YValue, FailFast> =
        YValue::deserialize_from_value(value.clone().into_value(), ValuePointerRef::Origin);
    assert_eq!(built.unwrap(), YValue::Sequence(items));
    let numbers: Result<Vec<u64>, FailFast> =
        Vec::deserialize_from_value(value.into_value(), ValuePointerRef::Origin);
    assert_eq!(numbers.unwrap(), vec![50, 10, 40, 20, 30]);
}

#[test]
fn scalars_become_yaml_scalars() {
    let root = ValuePointerRef::Origin;
    let built: Result<YValue, FailFast> =
        YValue::deserialize_from_value(Value::<YValue>::Integer(7), root);
    assert_eq!(built.unwrap(), whole(7));
    let built: Result<YValue, FailFast> =
        YValue::deserialize_from_value(Value::<YValue>::Integer(i64::MAX as u64), root);
    assert_eq!(built.unwrap(), whole(i64::MAX));
    let built: Result<YValue, FailFast> =
        YValue::deserialize_from_value(Value::<YValue>::NegativeInteger(-7), root);
    assert_eq!(built.unwrap(), whole(-7));
    let built: Result<YValue, FailFast> =
        YValue::deserialize_from_value(Value::<YValue>::Boolean(false), root);
    assert_eq!(built.unwrap(), YValue::Bool(false));
    let built: Result<YValue, FailFast> =
        YValue::deserialize_from_value(Value::<YValue>::Null, root);
    assert_eq!(built.unwrap(), YValue::Null);
    let built: Result<YValue, FailFast> =
        YValue::deserialize_from_value(Value::<YValue>::String("x".to_string()), root);
    assert_eq!(built.unwrap(), text("x"));
    let half = Float::new(Number::from(0.5)).unwrap();
    let built: Result<YValue, FailFast> =
        YValue::deserialize_from_value(Value::<YValue>::Float(half), root);
    assert_eq!(built.unwrap(), YValue::Number(Number::from(0.5)));
}

#[test]
fn a_whole_number_that_yaml_cannot_hold_fails_the_checked_conversion() {
    let root = ValuePointerRef::Origin;
    let at = root.push_key("big");
    let built: Result<YValue, FailFast> =
        YValue::deserialize_from_value(Value::<YValue>::Integer(u64::MAX), at);
    let error = built.unwrap_err();
    assert_eq!(
        error.failure.kind,
        ErrorKind::InexactNumber { kind: ValueKind::Integer }
    );
    assert_eq!(error.failure.location.to_printable(), "/big");
    let built: Result<YValue, FailFast> =
        YValue::deserialize_from_value(Value::<YValue>::Integer(i64::MAX as u64 + 1), root);
    assert!(built.is_err());
}

#[test]
fn from_never_fails() {
    let built = YValue::from(Value::<YValue>::Integer(7));
    assert_eq!(built, whole(7));
    let built = YValue::from(Value::<YValue>::Integer(u64::MAX));
    assert_eq!(built, YValue::Number(Number::from(u64::MAX)));
    assert_eq!(built.kind(), ValueKind::Float);
    let built = YValue::from(Value::<YValue>::NegativeInteger(-7));
    assert_eq!(built, whole(-7));
    let built = YValue::from(Value::<YValue>::Null);
    assert_eq!(built, YValue::Null);
    let built = YValue::from(Value::<YValue>::Boolean(true));
    assert_eq!(built, YValue::Bool(true));
    let built = YValue::from(Value::<YValue>::String("x".to_string()));
    assert_eq!(built, text("x"));
    let built = YValue::from(Value::<YValue>::Sequence(vec![whole(1), tagged("!t", whole(2))]));
    assert_eq!(built, YValue::Sequence(vec![whole(1), whole(2)]));
}

#[test]
fn nested_tags_are_dropped_by_both_conversions() {
    let mut inner = YMap::new();
    inner.insert("k", tagged("!t", text("v")));
    let value = YValue::Sequence(vec![tagged("!m", YValue::Mapping(inner))]);
    let mut plain = YMap::new();
    plain.insert("k", text("v"));
    let expected = YValue::Sequence(vec![YValue::Mapping(plain)]);
    let back: YValue = value.clone().into_value().into();
    assert_eq!(back, expected);
    let checked: Result<YValue, FailFast> =
        YValue::deserialize_from_value(value.into_value(), ValuePointerRef::Origin);
    assert_eq!(checked.unwrap(), expected);
}

#[test]
fn a_float_is_carried_unchanged() {
    assert!(Float::new(Number::from(1_i64)).is_none());
    assert!(Float::new(Number::from(0_u64)).is_none());
    let f = Float::new(Number::from(-2.5)).unwrap();
    assert_eq!(f.into_number(), Number::from(-2.5));
    let nan = Float::new(Number::from(f64::NAN)).unwrap();
    assert!(nan.into_number().as_f64().is_nan());
    let wide = Float::new(Number::from(u64::MAX)).unwrap();
    assert_eq!(wide.into_number().as_f64(), 18446744073709551615.0);
}

#[test]
fn the_map_capability_counts_removes_and_iterates() {
    let mut map = YMap::new();
    map.insert("a", whole(1));
    map.insert("b", whole(2));
    map.insert("c", whole(3));
    assert_eq!(Mapping::len(&map), 3);
    assert_eq!(Mapping::remove(&mut map, "a"), Some(whole(1)));
    assert_eq!(Mapping::remove(&mut map, "a"), None);
    assert_eq!(Mapping::remove(&mut map, "missing"), None);
    assert_eq!(Mapping::len(&map), 2);
    let mut iter = Mapping::into_iter(map);
    assert_eq!(iter.next(), Some(("b".to_string(), whole(2))));
    assert_eq!(MapIter::next(&mut iter), Some(("c".to_string(), whole(3))));
    assert_eq!(iter.next(), None);
    assert_eq!(iter.next(), None);
}

#[test]
fn the_sequence_capability_counts_and_hands_out_in_order() {
    let items = vec![whole(3), whole(1), whole(2)];
    assert_eq!(Sequence::len(&items), 3);
    assert_eq!(Sequence::into_vec(items.clone()), items);
    let none: Vec<YValue> = vec![];
    assert_eq!(Sequence::len(&none), 0);
}

#[test]
fn empty_containers_convert_to_empty_containers() {
    let empty_seq = YValue::Sequence(vec![]);
    let built: Result<YValue, FailFast> =
        YValue::deserialize_from_value(empty_seq.clone().into_value(), ValuePointerRef::Origin);
    assert_eq!(built.unwrap(), empty_seq);
    let empty_map = YValue::Mapping(YMap::new());
    let built: Result<YValue, CollectAll> =
        YValue::deserialize_from_value(empty_map.clone().into_value(), ValuePointerRef::Origin);
    assert_eq!(built.unwrap(), empty_map);
    let back: YValue = empty_map.clone().into_value().into();
    assert_eq!(back, empty_map);
}
