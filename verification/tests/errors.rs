use rustway::errors::AppError;

fn answer(e: &AppError) -> (u16, &'static str) {
    (e.status_code(), e.message())
}

#[test]
fn authentication_errors_are_unauthorized() {
    assert_eq!(answer(&AppError::AuthFailed("Invalid JWT".to_string())), (401, "Authentication failed"));
    assert_eq!(answer(&AppError::MissingAuthToken), (401, "Missing 'Authorization' header"));
    assert_eq!(
        answer(&AppError::InvalidAuthHeader),
        (401, "Invalid 'Authorization' header format. Expected 'Bearer <token>'.")
    );
    assert_eq!(answer(&AppError::TokenExpired), (401, "Token has expired"));
}

#[test]
fn missing_roles_are_forbidden() {
    assert_eq!(answer(&AppError::InsufficientPermissions), (403, "Insufficient permissions"));
}

#[test]
fn routing_and_proxy_errors() {
    assert_eq!(answer(&AppError::RouteNotFound), (404, "Route not found"));
    assert_eq!(
        answer(&AppError::InvalidDestination("ht!tp://bad".to_string())),
        (500, "Invalid gateway configuration")
    );
    assert_eq!(answer(&AppError::InternalServerError), (500, "An internal server error occurred"));
}

#[test]
fn backend_failures_are_bad_gateway() {
    let err = reqwest::Client::new().get("not a url").build().unwrap_err();
    let e = AppError::from(err);
    assert!(matches!(e, AppError::ProxyError(_)));
    assert_eq!(answer(&e), (502, "Error proxying request"));
}
