use deserr::{PathStep, ValuePointer, ValuePointerRef};

#[test]
fn the_root_renders_as_the_empty_text() {
    let root = ValuePointerRef::Origin;
    assert!(root.is_origin());
    assert_eq!(root.to_printable(), "");
    assert_eq!(root.to_owned().to_printable(), "");
    assert_eq!(ValuePointer::origin().to_printable(), "");
    assert_eq!(ValuePointer::origin(), ValuePointer { steps: vec![] });
}

#[test]
fn steps_render_as_slash_key_or_slash_index() {
    let root = ValuePointerRef::Origin;
    let a = root.push_key("a");
    let a0 = a.push_index(0);
    let a0b = a0.push_key("b");
    assert!(!a.is_origin());
    assert_eq!(a.to_printable(), "/a");
    assert_eq!(a0.to_printable(), "/a/0");
    assert_eq!(a0b.to_printable(), "/a/0/b");
    assert_eq!(a0b.to_owned().to_printable(), "/a/0/b");
}

#[test]
fn a_key_is_rendered_as_it_is() {
    let root = ValuePointerRef::Origin;
    assert_eq!(root.push_key("").to_printable(), "/");
    assert_eq!(root.push_key("a/b").to_printable(), "/a/b");
    assert_eq!(root.push_key("~ é 0").to_printable(), "/~ é 0");
    assert_eq!(root.push_key("12").to_printable(), "/12");
}

#[test]
fn an_index_is_rendered_in_decimal() {
    let root = ValuePointerRef::Origin;
    assert_eq!(root.push_index(0).to_printable(), "/0");
    assert_eq!(root.push_index(9).to_printable(), "/9");
    assert_eq!(root.push_index(10).to_printable(), "/10");
    assert_eq!(root.push_index(105).to_printable(), "/105");
    assert_eq!(root.push_index(1234567890).to_printable(), "/1234567890");
    assert_eq!(
        root.push_index(usize::MAX).to_printable(),
        format!("/{}", usize::MAX)
    );
}

#[test]
fn extending_a_pointer_leaves_the_parent_as_it_was() {
    let root = ValuePointerRef::Origin;
    let list = root.push_key("list");
    let first = list.push_index(0);
    let second = list.push_index(1);
    assert_eq!(first.to_printable(), "/list/0");
    assert_eq!(second.to_printable(), "/list/1");
    assert_eq!(list.to_printable(), "/list");
}

#[test]
fn an_owned_pointer_holds_the_same_steps() {
    let root = ValuePointerRef::Origin;
    let a = root.push_key("a");
    let a7 = a.push_index(7);
    let owned = a7.to_owned();
    assert_eq!(
        owned,
        ValuePointer {
            steps: vec![PathStep::Key("a".to_string()), PathStep::Index(7)]
        }
    );
    let mut built = ValuePointer::origin();
    built.push_key("a");
    built.push_index(7);
    assert_eq!(built, owned);
    assert_eq!(built.to_printable(), "/a/7");
}
