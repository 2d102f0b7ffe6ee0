use primitives::json::{Json, Member};

fn text(s: &str) -> Json {
    Json::Text(s.to_string())
}

fn object(members: Vec<(&str, Json)>) -> Json {
    Json::Object(
        members
            .into_iter()
            .map(|(name, value)| Member { name: name.to_string(), value })
            .collect(),
    )
}

#[test]
fn get_finds_members_of_objects_only() {
    let value = object(vec![("a", Json::Null), ("b", text("x"))]);
    assert_eq!(value.get("a"), Some(&Json::Null));
    assert_eq!(value.get("b"), Some(&text("x")));
    assert_eq!(value.get("c"), None);
    assert_eq!(value.get(""), None);
    assert_eq!(Json::Array(vec![text("a")]).get("a"), None);
    assert_eq!(text("a").get("a"), None);
    assert_eq!(Json::Null.get("a"), None);
}

#[test]
fn get_compares_whole_names() {
    let value = object(vec![("ab", text("1")), ("a", text("2")), ("ü", text("3"))]);
    assert_eq!(value.get("a"), Some(&text("2")));
    assert_eq!(value.get("ü"), Some(&text("3")));
    assert_eq!(value.get("A"), None);
}

#[test]
fn as_str_and_text_at() {
    assert_eq!(text("x").as_str(), Some("x"));
    assert_eq!(Json::Number("1".to_string()).as_str(), None);
    assert_eq!(Json::Null.as_str(), None);
    let value = object(vec![("a", text("x")), ("n", Json::Bool(true))]);
    assert_eq!(value.text_at("a"), Some("x"));
    assert_eq!(value.text_at("n"), None);
    assert_eq!(value.text_at("z"), None);
    assert_eq!(Json::text("abc"), text("abc"));
}

#[test]
fn is_null_and_as_object() {
    assert!(Json::Null.is_null());
    assert!(!Json::Bool(false).is_null());
    assert!(!object(vec![]).is_null());
    assert_eq!(object(vec![]).as_object(), Some(&vec![]));
    assert_eq!(Json::Array(vec![]).as_object(), None);
}

#[test]
fn clone_copies_the_tree() {
    let value = object(vec![
        ("a", Json::Array(vec![Json::Null, Json::Bool(true), Json::Number("1.5e3".to_string())])),
        ("b", object(vec![("c", text("d")), ("e", Json::Array(vec![object(vec![])]))])),
    ]);
    assert_eq!(value.clone(), value);
    assert_eq!(Json::Null.clone(), Json::Null);
    let member = Member { name: "n".to_string(), value: text("v") };
    assert_eq!(member.clone(), member);
}

#[test]
fn constructors_keep_order() {
    let members = vec![Member::new("b", Json::Null), Member::new("a", Json::text("x"))];
    assert_eq!(Json::object(members.clone()), Json::Object(members));
    let items = vec![Json::Bool(true), Json::Null];
    assert_eq!(Json::array(items.clone()), Json::Array(items));
    assert_eq!(Member::new("n", Json::Null), Member { name: "n".to_string(), value: Json::Null });
}
