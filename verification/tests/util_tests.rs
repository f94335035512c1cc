use nativeshell::cell::{Late, LateRefCell};
use nativeshell::diff::{apply_updates, update_diff, DiffResult, DiffStep};
use nativeshell::ffi::{CObjectCapability, CObjectSendPort, CObjectType, IntoDartVec, TypedDataType, TypedList};
use nativeshell::future::FutureState;
use nativeshell::log::OkLog;
use nativeshell::text::{chars_of, join, replace_chars, replace_str, starts_with, str_eq, string_from};
use nativeshell::yaml::{hash_entry, index, YamlNode};

fn kind(r: &DiffResult<&i32>) -> String {
    match r {
        DiffResult::Remove(a) => format!("-{}", a),
        DiffResult::Update(a, b) => format!("~{}>{}", a, b),
        DiffResult::Keep(a, b) => format!("={}{}", a, b),
        DiffResult::Insert(b) => format!("+{}", b),
    }
}

#[test]
fn update_diff_turns_replacements_into_updates() {
    let old = [1, 2, 3];
    let new = [1, 4, 3];
    let r = update_diff(&old, &new, |_, _| true);
    let kinds: Vec<String> = r.iter().map(kind).collect();
    assert_eq!(kinds, vec!["=11", "~2>4", "=33"]);
    let r = update_diff(&old, &new, |_, _| false);
    let kinds: Vec<String> = r.iter().map(kind).collect();
    assert_eq!(kinds, vec!["=11", "-2", "+4", "=33"]);
}

#[test]
fn update_diff_pairs_across_removals() {
    let old = [1, 2, 3];
    let new = [9];
    let r = update_diff(&old, &new, |a, _| *a == 2);
    let kinds: Vec<String> = r.iter().map(kind).collect();
    assert_eq!(kinds, vec!["-1", "~2>9", "-3"]);
    let empty: [i32; 0] = [];
    assert!(update_diff(&empty, &empty, |_, _| true).is_empty());
    let r = update_diff(&empty, &new, |_, _| true);
    assert_eq!(r.iter().map(kind).collect::<Vec<_>>(), vec!["+9"]);
}

#[test]
fn apply_updates_on_a_given_diff() {
    let (a, b, c) = (1, 2, 3);
    let diff = vec![DiffStep::Left(&a), DiffStep::Both(&b, &b), DiffStep::Right(&c)];
    let r = apply_updates(diff, |_, _| true);
    assert_eq!(r.iter().map(kind).collect::<Vec<_>>(), vec!["-1", "=22", "+3"]);
    let diff = vec![DiffStep::Left(&a), DiffStep::Left(&b), DiffStep::Right(&c)];
    let r = apply_updates(diff, |_, _| true);
    assert_eq!(r.iter().map(kind).collect::<Vec<_>>(), vec!["~1>3", "-2"]);
}

#[test]
fn text_helpers() {
    assert_eq!(chars_of("añb"), vec!['a', 'ñ', 'b']);
    assert_eq!(string_from(&['x', 'y']), "xy");
    assert_eq!(replace_str("aXbXc", "X", "--"), "a--b--c");
    assert_eq!(replace_str("aaa", "aa", "b"), "ba");
    assert_eq!(replace_str("abc", "", "z"), "abc");
    assert_eq!(replace_str("abc", "x", "yy"), "abc");
    assert_eq!(replace_chars(&['a', 'b'], &['b'], &[]), vec!['a']);
    assert!(starts_with("..x", ".."));
    assert!(!starts_with(".", ".."));
    assert!(str_eq("a", "a"));
    assert!(!str_eq("a", "b"));
    assert_eq!(join(&vec!["a".to_string(), "b".to_string(), "c".to_string()], ", "), "a, b, c");
    assert_eq!(join(&vec![], ","), "");
}

#[test]
fn late_values() {
    let mut late: Late<i32> = Late::new();
    assert!(!late.is_set());
    late.set(5);
    assert!(late.is_set());
    assert_eq!(*late.get(), 5);
    *late.get_mut() = 6;
    assert_eq!(*late.get(), 6);
    let mut cell: LateRefCell<String> = LateRefCell::new();
    cell.set("v".to_string());
    assert_eq!(cell.clone_value(), "v");
    cell.borrow_mut().push('w');
    assert_eq!(cell.borrow(), "vw");
}

#[test]
fn ok_log_keeps_values() {
    let ok: Result<i32, String> = Ok(3);
    assert_eq!(ok.ok_log(), Some(3));
    let err: Result<i32, String> = Err("bad".into());
    assert_eq!(err.ok_log(), None);
}

#[test]
fn future_state_hands_over_once() {
    let mut s: FutureState<i32> = FutureState::new();
    assert_eq!(s.poll(), None);
    assert!(s.complete(4));
    assert_eq!(s.poll(), Some(4));
    assert_eq!(s.poll(), None);
    let mut t: FutureState<i32> = FutureState::new();
    assert!(!t.complete(1));
    assert_eq!(t.poll(), Some(1));
}

#[test]
fn dart_object_codes() {
    assert_eq!(TypedDataType::Uint16.code(), 5);
    assert_eq!(TypedDataType::from_code(8), Some(TypedDataType::Int64));
    assert_eq!(TypedDataType::from_code(14), None);
    assert_eq!(CObjectType::ExternalTypedData.code(), 8);
    assert_eq!(CObjectType::from_code(-1), None);
    for c in 0..14 {
        assert_eq!(CObjectType::from_code(c).unwrap().code(), c);
        assert_eq!(TypedDataType::from_code(c).unwrap().code(), c);
    }
    assert_eq!(<u8 as IntoDartVec<u8>>::dart_type(), TypedDataType::Uint8);
    assert_eq!(<i64 as IntoDartVec<i64>>::dart_type(), TypedDataType::Int64);
    let port = CObjectSendPort { id: 1, origin_id: 2 };
    assert_eq!(port.origin_id, 2);
    assert_eq!(CObjectCapability { id: 3 }.id, 3);
    let list = TypedList(vec![1u8, 2]);
    assert_eq!(list.0.len(), 2);
}

#[test]
fn yaml_lookups() {
    let doc = YamlNode::Hash(vec![
        (YamlNode::Integer(1), YamlNode::Null),
        (YamlNode::String("k".into()), YamlNode::Integer(5)),
        (YamlNode::String("k".into()), YamlNode::Integer(6)),
    ]);
    assert!(matches!(index(&doc, "k"), Some(YamlNode::Integer(5))));
    assert!(index(&doc, "missing").is_none());
    assert!(index(&YamlNode::Integer(1), "k").is_none());
    if let YamlNode::Hash(pairs) = &doc {
        assert!(matches!(hash_entry(pairs, "k"), Some(YamlNode::Integer(5))));
    }
}
