use lient_core::json::{find_entry, set_entry, strings_in, Json};

fn s(x: &str) -> String {
    x.to_string()
}

#[test]
fn set_then_get_reads_the_new_value() {
    let mut o = Json::object();
    o.insert(s("a"), Json::string("1"));
    o.insert(s("b"), Json::boolean(true));
    o.insert(s("a"), Json::string("2"));
    assert_eq!(o.get("a"), Some(&Json::Str(s("2"))));
    assert_eq!(o.get("b"), Some(&Json::Bool(true)));
    assert_eq!(o.get("c"), None);
    // the replaced key keeps its place
    assert_eq!(o, Json::Object(vec![(s("a"), Json::Str(s("2"))), (s("b"), Json::Bool(true))]));
    assert!(o.is_nonempty_object());
}

#[test]
fn insert_on_a_non_object_changes_nothing() {
    let mut v = Json::string("x");
    v.insert(s("a"), Json::Null);
    assert_eq!(v, Json::Str(s("x")));
    assert_eq!(v.as_str(), Some("x"));
    assert_eq!(v.get("a"), None);
    assert!(!Json::object().is_nonempty_object());
}

#[test]
fn entry_lists() {
    let mut e = vec![(s("k"), Json::Null)];
    assert_eq!(find_entry(&e, "k"), Some(0));
    assert_eq!(find_entry(&e, "z"), None);
    set_entry(&mut e, s("z"), Json::Number(s("3")));
    assert_eq!(e.len(), 2);
    assert_eq!(find_entry(&e, "z"), Some(1));
    let arr = vec![Json::string("a"), Json::Number(s("1")), Json::string("b")];
    assert_eq!(strings_in(&arr), vec![s("a"), s("b")]);
}
