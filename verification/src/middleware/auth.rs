//! The authentication step every proxied request goes through: find the
//! route, and when it asks for authentication, verify the caller's token and
//! roles.

use std::sync::Arc;

use vstd::prelude::*;
use vstd::string::StringSliceAdditionalSpecFns;
use vstd::utf8::encode_utf8;

use crate::config::{AuthType, 
    is_chosen_route, no_route_matches, routing_result, ApiKeyDetails, ApiKeyStore, AuthConfig,
    GatewayConfig, RouteConfig,
};
use crate::errors::{status_of, AppError, AppErrorView};
use crate::features::auth::{
    check_roles, claims_result, lemma_bearer_prefix_bytes, lemma_bearer_round_trip,
    lemma_store_lookup_by_key_bytes, has_all_roles, header_bytes, lemma_token_failures_unauthorized, texts,
    token_verified, verify_token,
    Claims, ClaimsView, JwtErrorKind,
};

verus! {

/// The roles a route's authentication asks for, as plain values.
pub open spec fn required_roles(ac: AuthConfig) -> Option<Seq<Seq<char>>> {
    match ac.roles {
        None => None,
        Some(rs) => Some(texts(rs@)),
    }
}

/// What the gateway decides for an authenticated route, given the result of
/// verifying the caller's token: the failure, `InsufficientPermissions` when
/// the caller lacks a required role, or the caller's claims.
pub open spec fn gate(
    required: Option<Seq<Seq<char>>>,
    verified: Result<ClaimsView, AppErrorView>,
) -> Result<Option<ClaimsView>, AppErrorView> {
    match verified {
        Err(e) => Err(e),
        Ok(c) => match required {
            Some(rs) => if has_all_roles(c.roles, rs) {
                Ok(Some(c))
            } else {
                Err(AppErrorView::InsufficientPermissions)
            },
            None => Ok(Some(c)),
        },
    }
}

/// An authorisation result as plain values.
pub open spec fn authorization_view(r: Result<Option<Claims>, AppError>) -> Result<
    Option<ClaimsView>,
    AppErrorView,
> {
    match r {
        Ok(None) => Ok(None),
        Ok(Some(c)) => Ok(Some(c@)),
        Err(e) => Err(e@),
    }
}

/// `r` is a possible authorisation result for a request that `route` serves:
/// a route without authentication lets it through with no claims; otherwise
/// the token is verified and the route's roles are checked.
pub open spec fn route_authorized<F: Fn(&[u8]) -> Result<Claims, JwtErrorKind>>(
    route: RouteConfig,
    header: Option<Seq<u8>>,
    keys: Seq<(String, ApiKeyDetails)>,
    decode_jwt: F,
    r: Result<Option<Claims>, AppError>,
) -> bool {
    match route.auth {
        None => authorization_view(r) == Ok::<Option<ClaimsView>, AppErrorView>(None),
        Some(ac) => exists|v: Result<Claims, AppError>|
            token_verified(header, ac.auth_type, keys, decode_jwt, v) && authorization_view(r) == gate(
                required_roles(ac),
                claims_result(v),
            ),
    }
}

/// Role-based access control: a request that a route with authentication
/// lets through carries claims holding every role the route requires, and
/// such a route never lets a request through without claims. A route
/// without authentication lets every request through without claims.
pub proof fn lemma_access_control<F: Fn(&[u8]) -> Result<Claims, JwtErrorKind>>(
    route: RouteConfig,
    header: Option<Seq<u8>>,
    keys: Seq<(String, ApiKeyDetails)>,
    decode_jwt: F,
    r: Result<Option<Claims>, AppError>,
)
    requires
        route_authorized(route, header, keys, decode_jwt, r),
    ensures
        route.auth is None ==> r matches Ok(None),
        route.auth matches Some(ac) ==> !(r matches Ok(None)),
        route.auth matches Some(ac) ==> (r matches Ok(Some(c)) ==> (required_roles(ac) matches Some(
            rs,
        ) ==> has_all_roles(c@.roles, rs))),
{
}

/// Every refusal of an authenticated route is answered 401 (the token could
/// not be verified) or 403 (a required role is missing).
pub proof fn lemma_refusals_are_401_or_403<F: Fn(&[u8]) -> Result<Claims, JwtErrorKind>>(
    route: RouteConfig,
    header: Option<Seq<u8>>,
    keys: Seq<(String, ApiKeyDetails)>,
    decode_jwt: F,
    r: Result<Option<Claims>, AppError>,
)
    requires
        route_authorized(route, header, keys, decode_jwt, r),
    ensures
        r matches Err(e) ==> (status_of(e@) == 401 || status_of(e@) == 403),
        r matches Err(e) ==> (status_of(e@) == 403 <==> e@ == AppErrorView::InsufficientPermissions),
{
    if route.auth is Some {
        let ac = route.auth->0;
        let v = choose|v: Result<Claims, AppError>|
            token_verified(header, ac.auth_type, keys, decode_jwt, v) && authorization_view(r)
                == gate(required_roles(ac), claims_result(v));
        lemma_token_failures_unauthorized(header, ac.auth_type, keys, decode_jwt, v);
    }
}

/// How roles decide admission: a token error stays that error; with no
/// required roles a verified caller is let in; with required roles a
/// verified caller is let in exactly when each required role is among the
/// caller's roles, and refused with `InsufficientPermissions` otherwise.
pub proof fn lemma_admission_by_roles(
    required: Option<Seq<Seq<char>>>,
    verified: Result<ClaimsView, AppErrorView>,
)
    ensures
        verified matches Err(e) ==> gate(required, verified) == Err::<Option<ClaimsView>, AppErrorView>(
            e,
        ),
        required is None ==> (verified matches Ok(c) ==> gate(required, verified) == Ok::<
            Option<ClaimsView>,
            AppErrorView,
        >(Some(c))),
        verified matches Ok(c) ==> (required matches Some(rs) ==> gate(required, verified) == if (
        forall|k: int| 0 <= k < rs.len() ==> c.roles.contains(#[trigger] rs[k])) {
            Ok::<Option<ClaimsView>, AppErrorView>(Some(c))
        } else {
            Err::<Option<ClaimsView>, AppErrorView>(AppErrorView::InsufficientPermissions)
        }),
{
}

/// A route with authentication but no required roles admits every caller
/// whose token verifies, whatever roles (even none) the caller holds: it
/// never answers `InsufficientPermissions`, and when it lets a request
/// through it does so with the caller's claims.
pub proof fn lemma_no_required_roles_admits_verified_callers<
    F: Fn(&[u8]) -> Result<Claims, JwtErrorKind>,
>(
    route: RouteConfig,
    header: Option<Seq<u8>>,
    keys: Seq<(String, ApiKeyDetails)>,
    decode_jwt: F,
    r: Result<Option<Claims>, AppError>,
)
    requires
        route.auth matches Some(ac) && ac.roles is None,
        route_authorized(route, header, keys, decode_jwt, r),
    ensures
        !(r matches Err(AppError::InsufficientPermissions)),
        r is Ok ==> (r matches Ok(Some(_))),
        exists|v: Result<Claims, AppError>|
            token_verified(header, route.auth->0.auth_type, keys, decode_jwt, v) && (v matches Ok(
                c,
            ) ==> r matches Ok(Some(c2)) && c2@ == c@) && (v matches Err(e) ==> r matches Err(e2)
                && e2@ == e@),
{
}

/// On an API-key route that requires no roles, a bearer token equal to the
/// key of an active entry of a store whose keys are pairwise different lets
/// the request through with that entry's user and roles, whatever those
/// roles are.
pub proof fn lemma_active_key_admitted_on_route_without_roles<
    F: Fn(&[u8]) -> Result<Claims, JwtErrorKind>,
>(
    route: RouteConfig,
    token: Seq<u8>,
    keys: Seq<(String, ApiKeyDetails)>,
    decode_jwt: F,
    r: Result<Option<Claims>, AppError>,
    i: int,
)
    requires
        route.auth matches Some(ac) && ac.roles is None && ac.auth_type == AuthType::ApiKey,
        forall|k: int| 0 <= k < token.len() ==> (32 <= #[trigger] token[k] < 127 || token[k] == 9),
        forall|a: int, b: int| 0 <= a < b < keys.len() ==> #[trigger] keys[a].0@ != #[trigger] keys[b].0@,
        0 <= i < keys.len(),
        encode_utf8(keys[i].0@) == token,
        keys[i].1.status@ == "active"@,
        route_authorized(
            route,
            Some(seq![66u8, 101u8, 97u8, 114u8, 101u8, 114u8, 32u8] + token),
            keys,
            decode_jwt,
            r,
        ),
    ensures
        r matches Ok(Some(c)) && c.sub@ == keys[i].1.user_id@ && c.roles@.map_values(|x: String| x@)
            == keys[i].1.roles@.map_values(|x: String| x@) && c.exp == 0,
{
    lemma_bearer_prefix_bytes();
    lemma_bearer_round_trip(token);
    lemma_store_lookup_by_key_bytes(keys, token);
    assert(encode_utf8(keys[i].0@) == token);
}

/// A route that requires roles lets a request through only with claims
/// holding each required role, and refuses a verified caller who lacks one
/// with `InsufficientPermissions`.
pub proof fn lemma_required_roles_enforced<F: Fn(&[u8]) -> Result<Claims, JwtErrorKind>>(
    route: RouteConfig,
    header: Option<Seq<u8>>,
    keys: Seq<(String, ApiKeyDetails)>,
    decode_jwt: F,
    r: Result<Option<Claims>, AppError>,
)
    requires
        route.auth matches Some(ac) && ac.roles is Some,
        route_authorized(route, header, keys, decode_jwt, r),
    ensures
        r matches Ok(Some(c)) ==> forall|k: int|
            0 <= k < route.auth->0.roles->0@.len() ==> c.roles@.map_values(|x: String| x@).contains(
                (#[trigger] route.auth->0.roles->0@[k])@,
            ),
        r matches Ok(None) ==> false,
{
    let ac = route.auth->0;
    let rs = ac.roles->0;
    if let Ok(Some(c)) = r {
        assert forall|k: int| 0 <= k < rs@.len() implies c.roles@.map_values(
            |x: String| x@,
        ).contains((#[trigger] rs@[k])@) by {
            assert(texts(rs@)[k] == rs@[k]@);
            assert(texts(c.roles@) == c.roles@.map_values(|x: String| x@));
        }
    }
}

/// The route that serves the path of a request's URI, or `RouteNotFound`.
pub fn find_route_for_uri(config: &GatewayConfig, uri_path: &str) -> (r: Result<
    Arc<RouteConfig>,
    AppError,
>)
    ensures
        match r {
            Ok(route) => routing_result(config.routes@, uri_path.spec_bytes(), Some(route)),
            Err(e) => e@ == AppErrorView::RouteNotFound && no_route_matches(
                config.routes@,
                uri_path.spec_bytes(),
            ),
        },
{
    match config.find_route_for_path(uri_path) {
        Some(route) => Ok(route),
        None => Err(AppError::RouteNotFound),
    }
}

/// Decides whether a request to `uri_path` with the given `Authorization`
/// header (raw bytes) may go on, API keys being looked up in `key_store`: `RouteNotFound` when no route serves it,
/// no claims when its route asks for no authentication, and otherwise the
/// caller's claims once the token and the route's roles have been checked.
pub fn authorize<F: Fn(&[u8]) -> Result<Claims, JwtErrorKind>>(
    config: &GatewayConfig,
    key_store: &ApiKeyStore,
    uri_path: &str,
    authorization: Option<&[u8]>,
    decode_jwt: F,
) -> (r: Result<Option<Claims>, AppError>)
    requires
        forall|t: &[u8]| call_requires(decode_jwt, (t,)),
    ensures
        no_route_matches(config.routes@, uri_path.spec_bytes()) ==> authorization_view(r) == Err::<
            Option<ClaimsView>,
            AppErrorView,
        >(AppErrorView::RouteNotFound),
        !no_route_matches(config.routes@, uri_path.spec_bytes()) ==> exists|i: int|
            is_chosen_route(config.routes@, uri_path.spec_bytes(), i) && route_authorized(
                *config.routes@[i],
                header_bytes(authorization),
                key_store.keys@,
                decode_jwt,
                r,
            ),
{
    let route = match find_route_for_uri(config, uri_path) {
        Ok(route) => route,
        Err(e) => {
            return Err(e);
        },
    };
    match &route.auth {
        None => Ok(None),
        Some(auth_config) => {
            let claims = match verify_token(authorization, auth_config, key_store, decode_jwt) {
                Ok(c) => c,
                Err(e) => {
                    return Err(e);
                },
            };
            match &auth_config.roles {
                Some(required) => match check_roles(claims.roles.as_slice(), required.as_slice()) {
                    Ok(()) => Ok(Some(claims)),
                    Err(e) => Err(e),
                },
                None => Ok(Some(claims)),
            }
        },
    }
}

} // verus!
