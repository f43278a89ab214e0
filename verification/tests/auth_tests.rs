use preflight_rs::auth::bearer_authorized;

#[test]
fn pdf_routes_reject_missing_bearer_token() {
    assert!(!bearer_authorized(None, "secret"));
}

#[test]
fn pdf_routes_reject_invalid_bearer_token() {
    assert!(!bearer_authorized(Some("Bearer wrong"), "secret"));
}

#[test]
fn matching_bearer_token_is_accepted() {
    assert!(bearer_authorized(Some("Bearer secret"), "secret"));
}

#[test]
fn bearer_prefix_and_token_must_match_exactly() {
    assert!(!bearer_authorized(Some("bearer secret"), "secret"));
    assert!(!bearer_authorized(Some("Bearer  secret"), "secret"));
    assert!(!bearer_authorized(Some("Bearer secrets"), "secret"));
    assert!(!bearer_authorized(Some("Bearer secre"), "secret"));
    assert!(!bearer_authorized(Some("secret"), "secret"));
    assert!(!bearer_authorized(Some("Bearer"), "secret"));
    assert!(bearer_authorized(Some("Bearer "), ""));
}

#[test]
fn healthz_rejects_missing_auth() {
    assert!(!bearer_authorized(None, "secret"));
}
