use tunnel_plugins::request::{chain_request, RequestError};

#[test]
fn chain_request_without_key() {
    let req = chain_request("GET", "/api/data", None).unwrap();
    assert_eq!(req.method().as_str(), "GET");
    assert_eq!(req.uri().path(), "/api/data");
    assert!(req.headers().is_empty());
}

#[test]
fn chain_request_with_key() {
    let req = chain_request("POST", "/api/admin", Some("admin-token")).unwrap();
    assert_eq!(req.method().as_str(), "POST");
    assert_eq!(req.uri().to_string(), "/api/admin");
    assert_eq!(req.headers().keys_len(), 1);
    let keys: Vec<_> = req.headers().get_all("x-api-key").iter().collect();
    assert_eq!(keys, vec!["admin-token"]);
}

#[test]
fn chain_request_keeps_extension_methods_and_queries() {
    let req = chain_request("PURGE", "/api/item/5?full=1", Some("secret-123")).unwrap();
    assert_eq!(req.method().as_str(), "PURGE");
    assert_eq!(req.uri().path(), "/api/item/5");
    assert_eq!(req.uri().query(), Some("full=1"));
}

#[test]
fn chain_request_refuses_bad_parts() {
    assert!(matches!(chain_request("BAD METHOD", "/", None), Err(RequestError::Build(_))));
    assert!(matches!(chain_request("", "/", None), Err(RequestError::Build(_))));
    assert!(matches!(chain_request("GET", "not a uri", None), Err(RequestError::Build(_))));
    assert!(matches!(chain_request("GET", "/", Some("a\nb")), Err(RequestError::InvalidApiKey(_))));
    // The key is checked first.
    assert!(matches!(chain_request("BAD METHOD", "/", Some("a\nb")), Err(RequestError::InvalidApiKey(_))));
}
