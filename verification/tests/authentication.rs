use std::sync::Arc;

use rustway::config::{
    ApiKeyDetails, ApiKeyStore, AuthConfig, AuthType, GatewayConfig, IdentityConfig, RouteConfig,
    ServerConfig,
};
use rustway::errors::AppError;
use rustway::features::auth::{
    check_roles, extract_bearer_token, verify_api_key, verify_jwt, verify_token, Claims, JwtErrorKind,
};
use rustway::middleware::auth::authorize;

fn strings(v: &[&str]) -> Vec<String> {
    v.iter().map(|s| s.to_string()).collect()
}

fn entry(key: &str, user: &str, roles: &[&str], status: &str) -> (String, ApiKeyDetails) {
    (
        key.to_string(),
        ApiKeyDetails { user_id: user.to_string(), roles: strings(roles), status: status.to_string() },
    )
}

/// The key store of the README, with the key the original's auth test uses.
fn store() -> ApiKeyStore {
    ApiKeyStore {
        keys: vec![
            entry("user-key-for-alice", "alice@example.com", &["user"], "active"),
            entry("admin-key-for-carol", "carol@example.com", &["admin", "user"], "active"),
            entry("revoked-key-for-dave", "dave@example.com", &["user"], "revoked"),
            entry("super-secret-key", "tester@example.com", &["user"], "active"),
        ],
    }
}

fn no_jwt(_t: &[u8]) -> Result<Claims, JwtErrorKind> {
    Err(JwtErrorKind::Other)
}

fn auth(auth_type: AuthType, roles: Option<&[&str]>) -> AuthConfig {
    AuthConfig { auth_type, roles: roles.map(strings) }
}

fn route(path: &str, auth: Option<AuthConfig>) -> Arc<RouteConfig> {
    Arc::new(RouteConfig {
        name: path.to_string(),
        path: path.to_string(),
        destination: "http://localhost:9000".to_string(),
        auth,
        rate_limit: None,
    })
}

fn gateway(routes: Vec<Arc<RouteConfig>>) -> GatewayConfig {
    GatewayConfig {
        server: ServerConfig { addr: "127.0.0.1:8080".to_string() },
        routes,
        identity: IdentityConfig { api_key_store_path: "./api_keys.yaml".to_string() },
    }
}

#[test]
fn bearer_token_is_what_follows_the_scheme() {
    assert_eq!(extract_bearer_token(Some(b"Bearer abc.def")).unwrap(), b"abc.def");
    assert_eq!(extract_bearer_token(Some(b"Bearer ")).unwrap(), b"");
    assert_eq!(extract_bearer_token(Some(b"Bearer  two")).unwrap(), b" two");
}

#[test]
fn missing_header_is_missing_auth_token() {
    assert!(matches!(extract_bearer_token(None), Err(AppError::MissingAuthToken)));
}

#[test]
fn header_that_is_not_text_is_missing_auth_token() {
    assert!(matches!(extract_bearer_token(Some(b"Bearer \xff\xfe")), Err(AppError::MissingAuthToken)));
    assert!(matches!(extract_bearer_token(Some(b"Bearer a\x01")), Err(AppError::MissingAuthToken)));
    assert!(matches!(extract_bearer_token(Some(b"Bearer a\x7f")), Err(AppError::MissingAuthToken)));
    // a tab is allowed in header text
    assert_eq!(extract_bearer_token(Some(b"Bearer a\tb")).unwrap(), b"a\tb");
}

#[test]
fn other_schemes_are_invalid_auth_header() {
    assert!(matches!(extract_bearer_token(Some(b"Basic dXNlcg==")), Err(AppError::InvalidAuthHeader)));
    assert!(matches!(extract_bearer_token(Some(b"bearer abc")), Err(AppError::InvalidAuthHeader)));
    assert!(matches!(extract_bearer_token(Some(b"Bearer")), Err(AppError::InvalidAuthHeader)));
    assert!(matches!(extract_bearer_token(Some(b"user-key-for-alice")), Err(AppError::InvalidAuthHeader)));
}

#[test]
fn active_key_gives_its_entrys_claims() {
    let ks = store();
    let c = verify_api_key(&ks, b"admin-key-for-carol").unwrap();
    assert_eq!(c.sub, "carol@example.com");
    assert_eq!(c.roles, strings(&["admin", "user"]));
    assert_eq!(c.exp, 0);
    let c = verify_api_key(&ks, b"user-key-for-alice").unwrap();
    assert_eq!(c.sub, "alice@example.com");
    assert_eq!(c.roles, strings(&["user"]));
}

#[test]
fn revoked_key_is_refused() {
    match verify_api_key(&store(), b"revoked-key-for-dave") {
        Err(AppError::AuthFailed(reason)) => assert_eq!(reason, "Invalid API Key"),
        other => panic!("unexpected {:?}", other.map(|c| c.sub)),
    }
}

#[test]
fn unknown_api_key_fails() {
    let ks = store();
    for key in [&b"wrong-key"[..], b"", b"user-key-for-alice ", b"user-key-for-alic", b"admin-secret-key"] {
        match verify_api_key(&ks, key) {
            Err(AppError::AuthFailed(reason)) => assert_eq!(reason, "Invalid API Key"),
            other => panic!("unexpected {:?}", other.map(|c| c.sub)),
        }
    }
    assert!(verify_api_key(&ApiKeyStore { keys: vec![] }, b"user-key-for-alice").is_err());
}

#[test]
fn any_status_but_active_refuses() {
    let ks = ApiKeyStore { keys: vec![entry("k", "u", &["user"], "Active"), entry("j", "v", &[], "active")] };
    assert!(verify_api_key(&ks, b"k").is_err());
    let c = verify_api_key(&ks, b"j").unwrap();
    assert!(c.roles.is_empty());
}

#[test]
fn jwt_outcomes_map_to_gateway_errors() {
    let claims = Claims { sub: "alice".to_string(), roles: strings(&["user"]), exp: 99 };
    let c = verify_jwt(Ok(claims)).unwrap();
    assert_eq!(c.sub, "alice");
    assert_eq!(c.exp, 99);
    assert!(matches!(verify_jwt(Err(JwtErrorKind::ExpiredSignature)), Err(AppError::TokenExpired)));
    match verify_jwt(Err(JwtErrorKind::Other)) {
        Err(AppError::AuthFailed(reason)) => assert_eq!(reason, "Invalid JWT"),
        _ => panic!("expected AuthFailed"),
    }
}

#[test]
fn verify_token_checks_api_keys() {
    let ac = auth(AuthType::ApiKey, None);
    let ks = store();
    let c = verify_token(Some(b"Bearer admin-key-for-carol"), &ac, &ks, no_jwt).unwrap();
    assert_eq!(c.sub, "carol@example.com");
    assert!(matches!(verify_token(Some(b"Bearer wrong-key"), &ac, &ks, no_jwt), Err(AppError::AuthFailed(_))));
    assert!(matches!(verify_token(None, &ac, &ks, no_jwt), Err(AppError::MissingAuthToken)));
    // the key alone, without the scheme, is not a bearer header
    assert!(matches!(
        verify_token(Some(b"user-key-for-alice"), &ac, &ks, no_jwt),
        Err(AppError::InvalidAuthHeader)
    ));
}

#[test]
fn verify_token_hands_the_token_to_the_jwt_decoder() {
    let ac = auth(AuthType::Jwt, None);
    let decode = |t: &[u8]| {
        if t == b"good.token.sig" {
            Ok(Claims { sub: "bob".to_string(), roles: strings(&["admin"]), exp: 10 })
        } else if t == b"old.token.sig" {
            Err(JwtErrorKind::ExpiredSignature)
        } else {
            Err(JwtErrorKind::Other)
        }
    };
    let ks = store();
    assert_eq!(verify_token(Some(b"Bearer good.token.sig"), &ac, &ks, decode).unwrap().sub, "bob");
    assert!(matches!(verify_token(Some(b"Bearer old.token.sig"), &ac, &ks, decode), Err(AppError::TokenExpired)));
    // a JWT route does not accept API keys
    assert!(matches!(
        verify_token(Some(b"Bearer user-key-for-alice"), &ac, &ks, decode),
        Err(AppError::AuthFailed(_))
    ));
    assert!(matches!(verify_token(Some(b"Token x"), &ac, &ks, decode), Err(AppError::InvalidAuthHeader)));
}

#[test]
fn check_roles_requires_every_role() {
    let user = strings(&["admin", "user"]);
    assert!(check_roles(&user, &strings(&["admin"])).is_ok());
    assert!(check_roles(&user, &strings(&["user", "admin"])).is_ok());
    assert!(check_roles(&user, &[]).is_ok());
    assert!(check_roles(&[], &[]).is_ok());
    assert!(matches!(check_roles(&user, &strings(&["admin", "ops"])), Err(AppError::InsufficientPermissions)));
    assert!(matches!(check_roles(&[], &strings(&["user"])), Err(AppError::InsufficientPermissions)));
    assert!(matches!(check_roles(&strings(&["Admin"]), &strings(&["admin"])), Err(AppError::InsufficientPermissions)));
}

#[test]
fn more_roles_keep_access() {
    let required = strings(&["user"]);
    assert!(check_roles(&strings(&["user"]), &required).is_ok());
    assert!(check_roles(&strings(&["user", "admin", "ops"]), &required).is_ok());
}

#[test]
fn public_route_lets_everyone_through() {
    let cfg = gateway(vec![route("/public", None)]);
    assert!(matches!(authorize(&cfg, &store(), "/public", None, no_jwt), Ok(None)));
    assert!(matches!(authorize(&cfg, &store(), "/public/x", Some(b"garbage"), no_jwt), Ok(None)));
}

#[test]
fn unknown_route_is_route_not_found() {
    let cfg = gateway(vec![route("/public", None)]);
    assert!(matches!(authorize(&cfg, &store(), "/private", None, no_jwt), Err(AppError::RouteNotFound)));
}

#[test]
fn private_route_without_token_is_refused() {
    let cfg = gateway(vec![route("/private", Some(auth(AuthType::ApiKey, None)))]);
    let err = authorize(&cfg, &store(), "/private", None, no_jwt).unwrap_err();
    assert!(matches!(err, AppError::MissingAuthToken));
    assert_eq!(err.status_code(), 401);
}

#[test]
fn private_route_with_wrong_token_is_refused() {
    let cfg = gateway(vec![route("/api/private", Some(auth(AuthType::ApiKey, None)))]);
    let err = authorize(&cfg, &store(), "/api/private", Some(b"Bearer wrong-key"), no_jwt).unwrap_err();
    assert!(matches!(err, AppError::AuthFailed(_)));
    assert_eq!(err.status_code(), 401);
}

#[test]
fn private_route_with_correct_token_is_let_through() {
    let cfg = gateway(vec![route("/api/private", Some(auth(AuthType::ApiKey, None)))]);
    let c = authorize(&cfg, &store(), "/api/private", Some(b"Bearer super-secret-key"), no_jwt).unwrap();
    assert_eq!(c.unwrap().sub, "tester@example.com");
}

#[test]
fn revoked_key_is_refused_on_a_route() {
    let cfg = gateway(vec![route("/api/user", Some(auth(AuthType::ApiKey, Some(&["user"]))))]);
    let err = authorize(&cfg, &store(), "/api/user", Some(b"Bearer revoked-key-for-dave"), no_jwt).unwrap_err();
    assert!(matches!(err, AppError::AuthFailed(_)));
    assert_eq!(err.status_code(), 401);
}

#[test]
fn verification_ignores_the_routes_roles() {
    let ks = store();
    let a = verify_token(Some(b"Bearer user-key-for-alice"), &auth(AuthType::ApiKey, None), &ks, no_jwt).unwrap();
    let b = verify_token(Some(b"Bearer user-key-for-alice"), &auth(AuthType::ApiKey, Some(&["admin"])), &ks, no_jwt)
        .unwrap();
    assert_eq!((a.sub, a.roles), (b.sub, b.roles));
}

#[test]
fn roles_are_enforced_per_route() {
    let cfg = gateway(vec![
        route("/api/admin", Some(auth(AuthType::ApiKey, Some(&["admin"])))),
        route("/api/user", Some(auth(AuthType::ApiKey, Some(&["user"])))),
    ]);
    let c = authorize(&cfg, &store(), "/api/admin", Some(b"Bearer admin-key-for-carol"), no_jwt).unwrap().unwrap();
    assert_eq!(c.sub, "carol@example.com");
    let err = authorize(&cfg, &store(), "/api/admin", Some(b"Bearer user-key-for-alice"), no_jwt).unwrap_err();
    assert!(matches!(err, AppError::InsufficientPermissions));
    assert_eq!(err.status_code(), 403);
    let c = authorize(&cfg, &store(), "/api/user/me", Some(b"Bearer user-key-for-alice"), no_jwt).unwrap().unwrap();
    assert_eq!(c.sub, "alice@example.com");
    let c = authorize(&cfg, &store(), "/api/user", Some(b"Bearer admin-key-for-carol"), no_jwt).unwrap().unwrap();
    assert_eq!(c.roles, strings(&["admin", "user"]));
}

#[test]
fn jwt_route_uses_the_decoded_claims_for_roles() {
    let cfg = gateway(vec![route("/api/admin", Some(auth(AuthType::Jwt, Some(&["admin"]))))]);
    let admin = |_t: &[u8]| Ok(Claims { sub: "root".to_string(), roles: strings(&["admin"]), exp: 1 });
    let plain = |_t: &[u8]| Ok(Claims { sub: "joe".to_string(), roles: strings(&["user"]), exp: 1 });
    assert_eq!(authorize(&cfg, &store(), "/api/admin", Some(b"Bearer x.y.z"), admin).unwrap().unwrap().sub, "root");
    assert!(matches!(
        authorize(&cfg, &store(), "/api/admin", Some(b"Bearer x.y.z"), plain),
        Err(AppError::InsufficientPermissions)
    ));
}

#[test]
fn route_without_required_roles_accepts_any_valid_caller() {
    let cfg = gateway(vec![route("/api", Some(auth(AuthType::ApiKey, None)))]);
    let c = authorize(&cfg, &store(), "/api", Some(b"Bearer user-key-for-alice"), no_jwt).unwrap().unwrap();
    assert_eq!(c.sub, "alice@example.com");
}
