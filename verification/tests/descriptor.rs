use quick_api::{APIPlace, Body, Header, Method, PathBuilder, QueryParam, QuerySlice};

fn pairs(v: &[(&str, &str)]) -> Vec<(String, String)> {
    v.iter().map(|(k, val)| (k.to_string(), val.to_string())).collect()
}

fn header_value(p: &quick_api::Path, key: &str) -> Option<String> {
    p.get_headers().iter().find(|e| e.0 == key).map(|e| e.1.clone())
}

#[test]
fn build_collapses_duplicate_headers_last_wins() {
    let p = PathBuilder::new("/a", Method::GET)
        .with_header(Header::new("k", "1"))
        .with_header(Header::new("x", "9"))
        .with_header(Header::new("k", "2"))
        .build();
    assert_eq!(header_value(&p, "k"), Some("2".to_string()));
    assert_eq!(header_value(&p, "x"), Some("9".to_string()));
    let count_k = p.get_headers().iter().filter(|e| e.0 == "k").count();
    assert_eq!(count_k, 1);
    assert_eq!(p.get_headers().len(), 2);
}

#[test]
fn build_collapses_duplicate_query_params_last_wins() {
    let p = PathBuilder::new("/a", Method::GET)
        .with_query_param(QueryParam::new("q", "old"))
        .with_query_param(QueryParam::new("q", "new"))
        .build();
    assert_eq!(p.get_query_slice().get("q"), Some(&"new".to_string()));
}

#[test]
fn builder_starts_empty() {
    let p = PathBuilder::new("/items", Method::POST).build();
    assert_eq!(p.get_path(), "/items");
    assert!(p.get_body().is_none());
    assert!(p.get_headers().is_empty());
    assert_eq!(p.get_query_slice().build_query_string(), "");
}

#[test]
fn render_empty_collection_is_empty_string() {
    let q = QuerySlice::from(Vec::new());
    assert_eq!(q.build_query_string(), "");
}

#[test]
fn render_nonempty_has_marker_and_all_entries() {
    let mut q = QuerySlice::from(Vec::new());
    q.insert("a", "1");
    q.insert("b", "2");
    q.insert("c", "3");
    let s = q.build_query_string();
    assert!(s.starts_with('?'));
    let mut got: Vec<&str> = s[1..].split('&').collect();
    got.sort();
    assert_eq!(got, vec!["a=1", "b=2", "c=3"]);
}

#[test]
fn render_single_entry_exact() {
    let q = QuerySlice::from(vec![QueryParam::new("key", "val")]);
    assert_eq!(q.build_query_string(), "?key=val");
}

#[test]
fn query_slice_insert_overwrites_and_remove_is_noop_when_absent() {
    let mut q = QuerySlice::from(Vec::new());
    q.insert("a", "1");
    q.insert("a", "2");
    assert_eq!(q.get("a"), Some(&"2".to_string()));
    q.remove("missing");
    assert_eq!(q.get("a"), Some(&"2".to_string()));
    q.remove("a");
    assert_eq!(q.get("a"), None);
    assert_eq!(q.build_query_string(), "");
}

#[test]
fn body_push_value_sets_json_object_field() {
    let mut b = Body::new(Vec::new());
    b.push_value("k", "v");
    let v = b.get();
    let obj = v.as_object().expect("body must serialize to a JSON object");
    assert_eq!(obj.len(), 1);
    assert_eq!(obj.get("k").and_then(|x| x.as_str()), Some("v"));
}

#[test]
fn body_push_value_overwrites_instead_of_duplicating() {
    let mut b = Body::new(pairs(&[("k", "first")]));
    b.push_value("k", "second");
    b.push_value("other", "x");
    let v = b.get();
    let obj = v.as_object().expect("body must serialize to a JSON object");
    assert_eq!(obj.len(), 2);
    assert_eq!(obj.get("k").and_then(|x| x.as_str()), Some("second"));
    assert_eq!(obj.get("other").and_then(|x| x.as_str()), Some("x"));
}

#[test]
fn body_new_collapses_duplicate_keys_last_wins() {
    let b = Body::new(pairs(&[("a", "1"), ("a", "2")]));
    let v = b.get();
    let obj = v.as_object().expect("body must serialize to a JSON object");
    assert_eq!(obj.len(), 1);
    assert_eq!(obj.get("a").and_then(|x| x.as_str()), Some("2"));
}

#[test]
fn body_new_is_always_an_object() {
    let b = Body::new(Vec::new());
    assert!(b.get().is_object());
}

#[test]
fn insert_api_key_header_writes_and_echoes_value() {
    let mut p = PathBuilder::new("/a", Method::GET).build();
    let r = p.insert_api_key("X-Key", "secret", APIPlace::Header);
    assert_eq!(r, Some("secret".to_string()));
    assert_eq!(header_value(&p, "X-Key"), Some("secret".to_string()));
}

#[test]
fn insert_api_key_query_writes_and_returns_nothing() {
    let mut p = PathBuilder::new("/a", Method::GET).build();
    let r = p.insert_api_key("key", "secret", APIPlace::QueryParam);
    assert_eq!(r, None);
    assert_eq!(p.get_query_slice().get("key"), Some(&"secret".to_string()));
}

#[test]
fn insert_api_key_body_absent_is_silent_noop() {
    let mut p = PathBuilder::new("/a", Method::GET).build();
    let r = p.insert_api_key("key", "secret", APIPlace::Body);
    assert_eq!(r, None);
    assert!(p.get_body().is_none());
}

#[test]
fn insert_api_key_body_present_writes_and_echoes_value() {
    let mut p = PathBuilder::new("/a", Method::POST).with_body(Body::new(Vec::new())).build();
    let r = p.insert_api_key("key", "secret", APIPlace::Body);
    assert_eq!(r, Some("secret".to_string()));
    let v = p.get_body().expect("body stays attached").get();
    assert_eq!(v.as_object().unwrap().get("key").and_then(|x| x.as_str()), Some("secret"));
}

#[test]
fn insert_api_key_nowhere_changes_nothing() {
    let mut p = PathBuilder::new("/a", Method::GET).build();
    let r = p.insert_api_key("key", "secret", APIPlace::Nowhere);
    assert_eq!(r, None);
    assert!(p.get_headers().is_empty());
    assert_eq!(p.get_query_slice().get("key"), None);
    assert!(p.get_body().is_none());
}

#[test]
fn direct_mutators_bypass_placement() {
    let mut p = PathBuilder::new("/a", Method::PUT).build();
    p.insert_header("h", "1");
    p.insert_query_param("q", "2");
    assert_eq!(header_value(&p, "h"), Some("1".to_string()));
    assert_eq!(p.get_query_slice().get("q"), Some(&"2".to_string()));
}

#[test]
fn method_names_are_lowercase() {
    assert_eq!(Method::GET.as_str(), "get");
    assert_eq!(Method::POST.as_str(), "post");
    assert_eq!(Method::PUT.as_str(), "put");
    assert_eq!(Method::DELETE.as_str(), "delete");
    assert_eq!(Method::PATCH.as_str(), "patch");
}
