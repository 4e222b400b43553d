use quick_api::{
    complete_dispatch, APIPlace, ApiError, Body, Builder, Header, Method, PathBuilder,
};

#[test]
fn builder_accumulates_endpoint_and_paths() {
    let mut b = Builder::new("https://api.example.com", APIPlace::Header);
    assert_eq!(b.endpoint, "https://api.example.com");
    assert!(b.paths.is_empty());
    b.add_path(PathBuilder::new("/items", Method::GET).build());
    assert_eq!(b.paths.len(), 1);
    let binding = b.build();
    assert_eq!(binding.endpoint, "https://api.example.com");
    assert_eq!(binding.paths.len(), 1);
}

#[test]
fn prepare_resolves_url_headers_and_no_body() {
    let binding = Builder::new("https://api.example.com", APIPlace::Header).build();
    let p = PathBuilder::new("/items", Method::GET)
        .with_header(Header::new("X-Key", "abc"))
        .build();
    let plan = binding.prepare(&p).expect("GET is supported");
    assert_eq!(plan.url, "https://api.example.com/items");
    assert!(matches!(plan.method, Method::GET));
    assert_eq!(plan.headers, vec![("X-Key".to_string(), "abc".to_string())]);
    assert!(plan.body.is_none());
}

#[test]
fn prepare_attaches_present_body_as_json_object() {
    let binding = Builder::new("http://h", APIPlace::Body).build();
    let mut body = Body::new(Vec::new());
    body.push_value("name", "box");
    let p = PathBuilder::new("/make", Method::POST).with_body(body).build();
    let plan = binding.prepare(&p).expect("POST is supported");
    let v = plan.body.expect("body travels into the plan");
    assert_eq!(v.as_object().unwrap().get("name").and_then(|x| x.as_str()), Some("box"));
}

#[test]
fn prepare_rejects_patch_with_lowercase_name() {
    let binding = Builder::new("https://api.example.com", APIPlace::Nowhere).build();
    let p = PathBuilder::new("/items", Method::PATCH).build();
    match binding.prepare(&p) {
        Err(ApiError::UnsupportedMethod(name)) => assert_eq!(name, "patch"),
        other => panic!("expected UnsupportedMethod, got {:?}", other.map(|pl| pl.url)),
    }
}

#[test]
fn prepare_concatenates_path_verbatim() {
    let binding = Builder::new("http://h/", APIPlace::Nowhere).build();
    let p = PathBuilder::new("/x", Method::DELETE).build();
    let plan = binding.prepare(&p).expect("DELETE is supported");
    assert_eq!(plan.url, "http://h//x");
}

#[test]
fn transport_failure_surfaces_as_request_error() {
    let outcome: Result<u32, String> = Err("connection refused".to_string());
    match complete_dispatch(outcome) {
        Err(ApiError::RequestError(msg)) => assert_eq!(msg, "connection refused"),
        _ => panic!("expected RequestError"),
    }
}

#[test]
fn transport_success_passes_through() {
    let outcome: Result<u32, String> = Ok(204);
    match complete_dispatch(outcome) {
        Ok(v) => assert_eq!(v, 204),
        Err(_) => panic!("expected the response to pass through"),
    }
}
