use surrealql_zed::json::{merge, Json, JsonObject};
use surrealql_zed::lsp::initialization_options::{
    default_initialization_options, resolve_initialization_options,
};

fn s(text: &str) -> Json {
    Json::String(text.to_string())
}

fn obj(members: Vec<(&str, Json)>) -> Json {
    let mut o = JsonObject::new();
    for (k, v) in members {
        o.insert(k.to_string(), v);
    }
    Json::Object(o)
}

fn keys(j: Json) -> Vec<String> {
    match j {
        Json::Object(o) => o.into_members().into_iter().map(|(k, _)| k).collect(),
        _ => vec![],
    }
}

fn member<'a>(j: &'a Json, path: &[&str]) -> Option<&'a Json> {
    let mut cur = j;
    for key in path {
        cur = cur.get(key)?;
    }
    Some(cur)
}

#[test]
fn merge_replaces_non_object_overlay() {
    let mut base = obj(vec![("a", s("x"))]);
    merge(&mut base, Json::Number("3".to_string()));
    assert_eq!(base, Json::Number("3".to_string()));
}

#[test]
fn merge_replaces_non_object_base() {
    let mut base = Json::Array(vec![s("x")]);
    merge(&mut base, obj(vec![("a", Json::Bool(true))]));
    assert_eq!(base, obj(vec![("a", Json::Bool(true))]));
}

#[test]
fn merge_key_by_key() {
    let mut base = obj(vec![("keep", s("base")), ("both", s("base"))]);
    merge(&mut base, obj(vec![("both", s("over")), ("new", Json::Null)]));
    assert_eq!(
        base,
        obj(vec![("keep", s("base")), ("both", s("over")), ("new", Json::Null)])
    );
}

#[test]
fn merge_recurses_into_nested_objects() {
    let mut base = obj(vec![(
        "outer",
        obj(vec![("a", s("1")), ("b", s("2"))]),
    )]);
    merge(&mut base, obj(vec![("outer", obj(vec![("b", s("3"))]))]));
    assert_eq!(
        base,
        obj(vec![("outer", obj(vec![("a", s("1")), ("b", s("3"))]))])
    );
}

#[test]
fn merge_overlay_array_replaces_base_array() {
    let mut base = obj(vec![("list", Json::Array(vec![s("a"), s("b")]))]);
    merge(&mut base, obj(vec![("list", Json::Array(vec![s("c")]))]));
    assert_eq!(base, obj(vec![("list", Json::Array(vec![s("c")]))]));
}

#[test]
fn merge_with_empty_overlay_keeps_base() {
    let mut base = obj(vec![("a", s("1"))]);
    merge(&mut base, obj(vec![]));
    assert_eq!(base, obj(vec![("a", s("1"))]));
}

#[test]
fn merge_is_idempotent() {
    let make_overlay = || obj(vec![("x", obj(vec![("y", s("2"))])), ("z", Json::Bool(false))]);
    let mut once = obj(vec![("x", obj(vec![("w", s("1"))]))]);
    merge(&mut once, make_overlay());
    let mut twice = obj(vec![("x", obj(vec![("w", s("1"))]))]);
    merge(&mut twice, make_overlay());
    merge(&mut twice, make_overlay());
    assert_eq!(once, twice);
}

#[test]
fn merge_with_itself_gives_it_back() {
    let make = || obj(vec![("a", obj(vec![("b", s("c"))])), ("d", Json::Null)]);
    let mut v = make();
    merge(&mut v, make());
    assert_eq!(v, make());
}

#[test]
fn get_and_as_str() {
    let v = obj(vec![("version", s("v1")), ("n", Json::Number("2".to_string()))]);
    assert_eq!(v.get("version").and_then(|x| x.as_str()), Some("v1"));
    assert_eq!(v.get("n").and_then(|x| x.as_str()), None);
    assert!(v.get("missing").is_none());
    assert!(s("text").get("version").is_none());
}

#[test]
fn default_initialization_options_values() {
    let d = default_initialization_options();
    let text = |p: &[&str]| member(&d, p).and_then(|x| x.as_str()).map(str::to_string);
    assert_eq!(
        text(&["surrealql", "connection", "endpoint"]).as_deref(),
        Some("http://localhost:8000")
    );
    assert_eq!(text(&["surrealql", "connection", "username"]).as_deref(), Some("root"));
    assert_eq!(text(&["surrealql", "connection", "password"]).as_deref(), Some("root"));
    assert_eq!(text(&["surrealql", "activeAuthContext"]).as_deref(), Some("root"));
    assert_eq!(text(&["surrealql", "metadata", "mode"]).as_deref(), Some("both"));
}

#[test]
fn initialization_options_without_user_options_are_defaults() {
    assert_eq!(resolve_initialization_options(None), default_initialization_options());
}

#[test]
fn user_options_override_individual_leaves() {
    let user = obj(vec![(
        "surrealql",
        obj(vec![("connection", obj(vec![("endpoint", s("http://db:9000"))]))]),
    )]);
    let r = resolve_initialization_options(Some(user));
    let text = |p: &[&str]| member(&r, p).and_then(|x| x.as_str()).map(str::to_string);
    assert_eq!(
        text(&["surrealql", "connection", "endpoint"]).as_deref(),
        Some("http://db:9000")
    );
    assert_eq!(text(&["surrealql", "connection", "username"]).as_deref(), Some("root"));
    assert_eq!(text(&["surrealql", "metadata", "mode"]).as_deref(), Some("both"));
}

#[test]
fn user_options_add_new_keys() {
    let user = obj(vec![("extra", Json::Bool(true))]);
    let r = resolve_initialization_options(Some(user));
    assert_eq!(r.get("extra"), Some(&Json::Bool(true)));
    assert!(member(&r, &["surrealql", "activeAuthContext"]).is_some());
}

#[test]
fn object_members_are_in_key_order() {
    let a = obj(vec![("b", s("1")), ("a", s("2")), ("c", s("3"))]);
    let b = obj(vec![("c", s("3")), ("a", s("2")), ("b", s("1"))]);
    assert_eq!(a, b);
    assert_eq!(keys(a), vec!["a".to_string(), "b".to_string(), "c".to_string()]);
}

#[test]
fn object_insert_replaces_value() {
    let v = obj(vec![("k", s("old")), ("k", s("new"))]);
    assert_eq!(v, obj(vec![("k", s("new"))]));
}

#[test]
fn disjoint_overlays_commute() {
    let mut first = obj(vec![]);
    merge(&mut first, obj(vec![("x", Json::Number("1".to_string()))]));
    merge(&mut first, obj(vec![("y", Json::Number("2".to_string()))]));
    let mut second = obj(vec![]);
    merge(&mut second, obj(vec![("y", Json::Number("2".to_string()))]));
    merge(&mut second, obj(vec![("x", Json::Number("1".to_string()))]));
    assert_eq!(first, second);
    assert_eq!(keys(first), vec!["x".to_string(), "y".to_string()]);
}

#[test]
fn keys_sort_by_characters() {
    let v = obj(vec![("ab", Json::Null), ("a", Json::Null), ("B", Json::Null), ("é", Json::Null)]);
    assert_eq!(
        keys(v),
        vec!["B".to_string(), "a".to_string(), "ab".to_string(), "é".to_string()]
    );
}
