use deserr::errors::{Capped, CollectAll, FailFast};
use deserr::{
    reject_unknown_keys, take_cf_content, take_field, DeserializeError, Deserr, ErrorKind,
    FailedNode, IntoValue, Value, ValueKind, ValuePointerRef,
};
use serde_yml::{Mapping as YMap, Value as YValue};
use std::ops::ControlFlow;

fn yaml(text: &str) -> YValue {
    serde_yml::from_str(text).unwrap()
}

fn not_an_integer(actual: ValueKind) -> ErrorKind {
    ErrorKind::IncorrectValueKind {
        expected: ValueKind::Integer,
        actual,
    }
}

fn places(failures: &[FailedNode]) -> Vec<String> {
    failures.iter().map(|f| f.location.to_printable()).collect()
}

#[test]
fn fail_fast_returns_the_first_failure_only() {
    let source = yaml("[1, x, 2, true, 3]");
    let built: Result<Vec<u64>, FailFast> =
        Vec::deserialize_from_value(source.into_value(), ValuePointerRef::Origin);
    let error = built.unwrap_err();
    assert_eq!(error.failure.kind, not_an_integer(ValueKind::String));
    assert_eq!(error.failure.location.to_printable(), "/1");
}

#[test]
fn collect_all_returns_every_failure_and_nothing_else() {
    let source = yaml("[1, x, 2, true, 3]");
    let built: Result<Vec<u64>, CollectAll> =
        Vec::deserialize_from_value(source.into_value(), ValuePointerRef::Origin);
    let error = built.unwrap_err();
    assert_eq!(places(&error.failures), vec!["/1", "/3"]);
    assert_eq!(error.failures[0].kind, not_an_integer(ValueKind::String));
    assert_eq!(error.failures[1].kind, not_an_integer(ValueKind::Boolean));
}

#[test]
fn the_path_of_a_nested_failure_is_exact() {
    let source = yaml("{a: [1, x], b: {c: 3}}");
    let root = ValuePointerRef::Origin;
    let mut map = match source.into_value() {
        Value::Mapping(map) => map,
        other => panic!("{:?}", other),
    };
    let a: Result<Vec<u64>, FailFast> = take_field(&mut map, "a", root);
    let error = a.unwrap_err();
    assert_eq!(error.failure.location.to_printable(), "/a/1");
    assert_eq!(error.failure.kind, not_an_integer(ValueKind::String));

    let mut b = match take_b(&mut map) {
        Value::Mapping(inner) => inner,
        other => panic!("{:?}", other),
    };
    let at_b = root.push_key("b");
    let c: Result<u64, FailFast> = take_field(&mut b, "c", at_b);
    assert_eq!(c.unwrap(), 3);
    let done: Result<(), FailFast> = reject_unknown_keys(b, at_b, None);
    assert_eq!(done, Ok(()));
}

fn take_b(map: &mut YMap) -> Value<YValue> {
    map.remove("b").unwrap().into_value()
}

#[test]
fn failures_in_nested_sequences_carry_both_indices() {
    let source = yaml("[[1, 2], [3, x], [y]]");
    let built: Result<Vec<Vec<u64>>, CollectAll> =
        Vec::deserialize_from_value(source.into_value(), ValuePointerRef::Origin);
    assert_eq!(places(&built.unwrap_err().failures), vec!["/1/1", "/2/0"]);

    let source = yaml("[[1, 2], [3, x], [y]]");
    let built: Result<Vec<Vec<u64>>, FailFast> =
        Vec::deserialize_from_value(source.into_value(), ValuePointerRef::Origin);
    assert_eq!(built.unwrap_err().failure.location.to_printable(), "/1/1");

    let source = yaml("[[1, 2], [3, 4], []]");
    let built: Result<Vec<Vec<u64>>, FailFast> =
        Vec::deserialize_from_value(source.into_value(), ValuePointerRef::Origin);
    assert_eq!(built.unwrap(), vec![vec![1, 2], vec![3, 4], vec![]]);
}

#[test]
fn a_capped_policy_stops_at_its_limit() {
    let source = yaml("[a, b, 1, c, d, e]");
    let built: Result<Vec<u64>, Capped<3>> =
        Vec::deserialize_from_value(source.into_value(), ValuePointerRef::Origin);
    assert_eq!(places(&built.unwrap_err().failures), vec!["/0", "/1", "/3"]);

    let source = yaml("[a, b, 1]");
    let built: Result<Vec<u64>, Capped<3>> =
        Vec::deserialize_from_value(source.into_value(), ValuePointerRef::Origin);
    assert_eq!(places(&built.unwrap_err().failures), vec!["/0", "/1"]);

    let source = yaml("[a, b, 1]");
    let built: Result<Vec<u64>, Capped<1>> =
        Vec::deserialize_from_value(source.into_value(), ValuePointerRef::Origin);
    assert_eq!(places(&built.unwrap_err().failures), vec!["/0"]);

    let source = yaml("[a, b, 1]");
    let built: Result<Vec<u64>, Capped<0>> =
        Vec::deserialize_from_value(source.into_value(), ValuePointerRef::Origin);
    assert!(built.unwrap_err().failures.is_empty());
}

#[test]
fn merge_is_the_policy() {
    let root = ValuePointerRef::Origin;
    let at = root.push_index(4);
    let kind = ErrorKind::UnknownKey { key: "k".to_string() };

    let first = FailFast::error(kind.clone(), root);
    let second = FailFast::error(kind.clone(), at);
    let flow = FailFast::merge(Some(first), second.clone(), at);
    assert_eq!(flow, ControlFlow::Break(second.clone()));
    assert_eq!(FailFast::merge(None, second.clone(), at), ControlFlow::Break(second));

    let first = CollectAll::error(kind.clone(), root);
    let second = CollectAll::error(kind.clone(), at);
    let both = match CollectAll::merge(Some(first.clone()), second.clone(), at) {
        ControlFlow::Continue(all) => all,
        ControlFlow::Break(_) => panic!(),
    };
    assert_eq!(places(&both.failures), vec!["", "/4"]);
    assert_eq!(
        CollectAll::merge(None, second.clone(), at),
        ControlFlow::Continue(second)
    );

    let one = Capped::<2>::error(kind.clone(), root);
    let two = Capped::<2>::error(kind.clone(), at);
    assert_eq!(
        Capped::<2>::merge(None, one.clone(), root),
        ControlFlow::Continue(one.clone())
    );
    match Capped::<2>::merge(Some(one), two, at) {
        ControlFlow::Break(all) => assert_eq!(places(&all.failures), vec!["", "/4"]),
        ControlFlow::Continue(_) => panic!(),
    }
}

#[test]
fn an_error_for_one_failure_holds_its_kind_and_place() {
    let root = ValuePointerRef::Origin;
    let at = root.push_key("x");
    let kind = ErrorKind::MissingField { field: "f".to_string() };
    let error = FailFast::error(kind.clone(), at);
    assert_eq!(error.failure, FailedNode::new(kind.clone(), at));
    assert_eq!(error.failure.kind, kind);
    assert_eq!(error.failure.location.to_printable(), "/x");
    let error = CollectAll::error(kind.clone(), at);
    assert_eq!(error.failures, vec![FailedNode::new(kind, at)]);
}

#[test]
fn take_cf_content_takes_either_side() {
    assert_eq!(take_cf_content(ControlFlow::<u8, u8>::Continue(1)), 1);
    assert_eq!(take_cf_content(ControlFlow::<u8, u8>::Break(2)), 2);
}

#[test]
fn scalars_convert_by_kind() {
    let root = ValuePointerRef::Origin;
    let ok: Result<bool, FailFast> = bool::deserialize_from_value(yaml("true").into_value(), root);
    assert_eq!(ok.unwrap(), true);
    let ok: Result<u64, FailFast> = u64::deserialize_from_value(yaml("42").into_value(), root);
    assert_eq!(ok.unwrap(), 42);
    let ok: Result<u64, FailFast> =
        u64::deserialize_from_value(Value::<YValue>::Integer(u64::MAX), root);
    assert_eq!(ok.unwrap(), u64::MAX);
    let ok: Result<i64, FailFast> = i64::deserialize_from_value(yaml("-42").into_value(), root);
    assert_eq!(ok.unwrap(), -42);
    let ok: Result<i64, FailFast> = i64::deserialize_from_value(yaml("42").into_value(), root);
    assert_eq!(ok.unwrap(), 42);
    let ok: Result<String, FailFast> =
        String::deserialize_from_value(yaml("hello").into_value(), root);
    assert_eq!(ok.unwrap(), "hello");
}

#[test]
fn a_scalar_of_another_kind_is_a_mismatch_at_its_place() {
    let root = ValuePointerRef::Origin;
    let at = root.push_key("flag");
    let bad: Result<bool, FailFast> = bool::deserialize_from_value(yaml("1").into_value(), at);
    let error = bad.unwrap_err();
    assert_eq!(
        error.failure.kind,
        ErrorKind::IncorrectValueKind {
            expected: ValueKind::Boolean,
            actual: ValueKind::Integer
        }
    );
    assert_eq!(error.failure.location.to_printable(), "/flag");

    let bad: Result<u64, FailFast> = u64::deserialize_from_value(yaml("-1").into_value(), root);
    assert_eq!(
        bad.unwrap_err().failure.kind,
        not_an_integer(ValueKind::NegativeInteger)
    );
    let bad: Result<u64, FailFast> = u64::deserialize_from_value(yaml("0.5").into_value(), root);
    assert_eq!(bad.unwrap_err().failure.kind, not_an_integer(ValueKind::Float));
    let bad: Result<u64, FailFast> = u64::deserialize_from_value(yaml("null").into_value(), root);
    assert_eq!(bad.unwrap_err().failure.kind, not_an_integer(ValueKind::Null));
    let bad: Result<i64, FailFast> = i64::deserialize_from_value(yaml("[]").into_value(), root);
    assert_eq!(
        bad.unwrap_err().failure.kind,
        ErrorKind::IncorrectValueKind {
            expected: ValueKind::NegativeInteger,
            actual: ValueKind::Sequence
        }
    );
    let bad: Result<String, FailFast> =
        String::deserialize_from_value(yaml("{}").into_value(), root);
    assert_eq!(
        bad.unwrap_err().failure.kind,
        ErrorKind::IncorrectValueKind {
            expected: ValueKind::String,
            actual: ValueKind::Mapping
        }
    );
    let bad: Result<Vec<u64>, CollectAll> =
        Vec::deserialize_from_value(yaml("x").into_value(), at);
    let error = bad.unwrap_err();
    assert_eq!(places(&error.failures), vec!["/flag"]);
    assert_eq!(
        error.failures[0].kind,
        ErrorKind::IncorrectValueKind {
            expected: ValueKind::Sequence,
            actual: ValueKind::String
        }
    );
}

#[test]
fn a_whole_number_above_the_largest_i64_is_inexact_for_i64() {
    let root = ValuePointerRef::Origin;
    let edge: Result<i64, FailFast> =
        i64::deserialize_from_value(Value::<YValue>::Integer(i64::MAX as u64), root);
    assert_eq!(edge.unwrap(), i64::MAX);
    let over: Result<i64, FailFast> =
        i64::deserialize_from_value(Value::<YValue>::Integer(i64::MAX as u64 + 1), root);
    assert_eq!(
        over.unwrap_err().failure.kind,
        ErrorKind::InexactNumber { kind: ValueKind::Integer }
    );
}

#[test]
fn a_missing_field_is_reported_at_the_map() {
    let root = ValuePointerRef::Origin;
    let at = root.push_key("config");
    let mut map = match yaml("{a: 1}").into_value() {
        Value::Mapping(map) => map,
        other => panic!("{:?}", other),
    };
    let missing: Result<u64, FailFast> = take_field(&mut map, "b", at);
    let error = missing.unwrap_err();
    assert_eq!(error.failure.kind, ErrorKind::MissingField { field: "b".to_string() });
    assert_eq!(error.failure.location.to_printable(), "/config");
    assert_eq!(map.len(), 1);
    let present: Result<u64, FailFast> = take_field(&mut map, "a", at);
    assert_eq!(present.unwrap(), 1);
    assert_eq!(map.len(), 0);
}

#[test]
fn unknown_keys_are_gathered_by_the_policy() {
    let root = ValuePointerRef::Origin;
    let map = match yaml("{x: 1, y: 2}").into_value() {
        Value::Mapping(map) => map,
        other => panic!("{:?}", other),
    };
    let all: Result<(), CollectAll> = reject_unknown_keys(map.clone(), root, None);
    let error = all.unwrap_err();
    assert_eq!(
        error.failures.iter().map(|f| f.kind.clone()).collect::<Vec<_>>(),
        vec![
            ErrorKind::UnknownKey { key: "x".to_string() },
            ErrorKind::UnknownKey { key: "y".to_string() }
        ]
    );
    let first: Result<(), FailFast> = reject_unknown_keys(map.clone(), root, None);
    assert_eq!(
        first.unwrap_err().failure.kind,
        ErrorKind::UnknownKey { key: "x".to_string() }
    );
    let before = CollectAll::error(ErrorKind::MissingField { field: "z".to_string() }, root);
    let all: Result<(), CollectAll> = reject_unknown_keys(map, root, Some(before.clone()));
    assert_eq!(all.unwrap_err().failures.len(), 3);
    let kept: Result<(), CollectAll> = reject_unknown_keys(YMap::new(), root, Some(before.clone()));
    assert_eq!(kept, Err(before));
    let fine: Result<(), CollectAll> = reject_unknown_keys(YMap::new(), root, None);
    assert_eq!(fine, Ok(()));
}
