//! Gateway configuration: server address, routes with their authentication
//! and rate-limit settings, the API key store, and the secrets.

use std::sync::Arc;

use vstd::prelude::*;

use vstd::string::StringSliceAdditionalSpecFns;
use vstd::utf8::encode_utf8;

use crate::byte_seq::{bytes_start_with, is_prefix_of};

verus! {

/// The whole gateway configuration.
#[derive(Debug)]
pub struct GatewayConfig {
    pub server: ServerConfig,
    pub routes: Vec<Arc<RouteConfig>>,
    pub identity: IdentityConfig,
}

/// Where the gateway listens.
#[derive(Debug)]
pub struct ServerConfig {
    pub addr: String,
}

/// Where the API key store lives.
#[derive(Debug, Clone)]
pub struct IdentityConfig {
    pub api_key_store_path: String,
}

/// How a route authenticates its callers.
#[derive(PartialEq, Eq, Structural, Clone, Copy, Debug)]
pub enum AuthType {
    Jwt,
    ApiKey,
}

/// Authentication required by a route, and the roles a caller must hold.
#[derive(Debug, Clone)]
pub struct AuthConfig {
    pub auth_type: AuthType,
    pub roles: Option<Vec<String>>,
}

/// A rate limit: so many requests per period (such as "1m").
#[derive(Debug, Clone)]
pub struct RateLimitConfig {
    pub requests: u64,
    pub period: String,
}

/// One route: requests whose path begins with `path` go to `destination`.
#[derive(Debug, Clone)]
pub struct RouteConfig {
    pub name: String,
    pub path: String,
    pub destination: String,
    pub auth: Option<AuthConfig>,
    pub rate_limit: Option<RateLimitConfig>,
}

/// The bytes of a route's path prefix.
pub open spec fn route_path_bytes(r: RouteConfig) -> Seq<u8> {
    encode_utf8(r.path@)
}

/// A route serves a request path when its path is a byte prefix of it.
pub open spec fn route_matches(r: RouteConfig, request: Seq<u8>) -> bool {
    is_prefix_of(route_path_bytes(r), request)
}

/// Among the first `n` routes, route `i` is the one chosen for `request`:
/// it matches, no matching route has a longer path, and every later
/// matching route has a strictly shorter path (so of equally long matches
/// the last one wins).
pub open spec fn chosen_among(routes: Seq<Arc<RouteConfig>>, request: Seq<u8>, i: int, n: int) -> bool {
    &&& 0 <= i < n
    &&& route_matches(*routes[i], request)
    &&& forall|j: int|
        0 <= j < n && route_matches(*routes[j], request) ==> route_path_bytes(*routes[j]).len()
            <= route_path_bytes(*routes[i]).len()
    &&& forall|j: int|
        i < j < n && route_matches(*routes[j], request) ==> route_path_bytes(*routes[j]).len()
            < route_path_bytes(*routes[i]).len()
}

/// Route `i` is the one chosen for `request` among all routes.
pub open spec fn is_chosen_route(routes: Seq<Arc<RouteConfig>>, request: Seq<u8>, i: int) -> bool {
    chosen_among(routes, request, i, routes.len() as int)
}

/// No route serves `request`.
pub open spec fn no_route_matches(routes: Seq<Arc<RouteConfig>>, request: Seq<u8>) -> bool {
    forall|j: int| 0 <= j < routes.len() ==> !route_matches(*routes[j], request)
}

/// The result of routing `request` over `routes`, as `find_route_for_path` gives it.
pub open spec fn routing_result(
    routes: Seq<Arc<RouteConfig>>,
    request: Seq<u8>,
    r: Option<Arc<RouteConfig>>,
) -> bool {
    match r {
        None => no_route_matches(routes, request),
        Some(route) => exists|i: int| is_chosen_route(routes, request, i) && route == routes[i],
    }
}

/// Routing picks at most one route: two routes chosen for the same request
/// path are the same route.
pub proof fn lemma_chosen_route_unique(routes: Seq<Arc<RouteConfig>>, request: Seq<u8>, i: int, j: int)
    requires
        is_chosen_route(routes, request, i),
        is_chosen_route(routes, request, j),
    ensures
        i == j,
{
    if i < j {
        assert(route_path_bytes(*routes[j]).len() < route_path_bytes(*routes[i]).len());
        assert(route_path_bytes(*routes[i]).len() <= route_path_bytes(*routes[j]).len());
    } else if j < i {
        assert(route_path_bytes(*routes[i]).len() < route_path_bytes(*routes[j]).len());
        assert(route_path_bytes(*routes[j]).len() <= route_path_bytes(*routes[i]).len());
    }
}

/// Route `k` matches and its path is at least as long as that of route `i`.
spec fn takes_over(routes: Seq<Arc<RouteConfig>>, request: Seq<u8>, k: int, i: int) -> bool {
    route_matches(*routes[k], request) && route_path_bytes(*routes[k]).len() >= route_path_bytes(
        *routes[i],
    ).len()
}

/// Among the first `n` routes, when one of them matches, one of them is chosen.
proof fn lemma_chosen_among_exists(routes: Seq<Arc<RouteConfig>>, request: Seq<u8>, n: int)
    requires
        0 <= n <= routes.len(),
        exists|j: int| 0 <= j < n && route_matches(*routes[j], request),
    ensures
        exists|i: int| chosen_among(routes, request, i, n),
    decreases n,
{
    let last = n - 1;
    if exists|j: int| 0 <= j < last && route_matches(*routes[j], request) {
        lemma_chosen_among_exists(routes, request, last);
        let i = choose|i: int| chosen_among(routes, request, i, last);
        if takes_over(routes, request, last, i) {
            assert(chosen_among(routes, request, last, n));
        } else {
            assert(chosen_among(routes, request, i, n));
        }
    } else {
        assert(route_matches(*routes[last], request));
        assert(chosen_among(routes, request, last, n));
    }
}

/// Routing always decides: a request path that some route serves has a
/// chosen route, and that route is the only chosen one.
pub proof fn lemma_routing_decides(routes: Seq<Arc<RouteConfig>>, request: Seq<u8>)
    requires
        !no_route_matches(routes, request),
    ensures
        exists|i: int| is_chosen_route(routes, request, i),
        forall|i: int, j: int|
            is_chosen_route(routes, request, i) && is_chosen_route(routes, request, j) ==> i == j,
{
    lemma_chosen_among_exists(routes, request, routes.len() as int);
    let k = choose|k: int| chosen_among(routes, request, k, routes.len() as int);
    assert(is_chosen_route(routes, request, k));
    assert forall|i: int, j: int|
        is_chosen_route(routes, request, i) && is_chosen_route(routes, request, j) implies i
        == j by {
        lemma_chosen_route_unique(routes, request, i, j);
    }
}

/// The chosen route is a longest match: its path is a prefix of the request
/// path, and no route whose path is also a prefix has a longer path.
pub proof fn lemma_chosen_route_is_longest_match(
    routes: Seq<Arc<RouteConfig>>,
    request: Seq<u8>,
    i: int,
    j: int,
)
    requires
        is_chosen_route(routes, request, i),
        0 <= j < routes.len(),
        is_prefix_of(route_path_bytes(*routes[j]), request),
    ensures
        is_prefix_of(route_path_bytes(*routes[i]), request),
        route_path_bytes(*routes[j]).len() <= route_path_bytes(*routes[i]).len(),
{
}

/// What routing means, in terms of the routes' whole paths: route `i` is
/// chosen for a request exactly when the UTF-8 bytes of its whole path are a
/// prefix of the request's bytes, no route whose whole path is a prefix is
/// longer, and every later route whose whole path is a prefix is shorter; and
/// no route serves a request exactly when no route's whole path is a prefix.
pub proof fn lemma_routing_by_whole_path(routes: Seq<Arc<RouteConfig>>, request: Seq<u8>, i: int)
    ensures
        is_chosen_route(routes, request, i) <==> {
            &&& 0 <= i < routes.len()
            &&& is_prefix_of(encode_utf8(routes[i].path@), request)
            &&& forall|j: int|
                0 <= j < routes.len() && is_prefix_of(encode_utf8(#[trigger] routes[j].path@), request)
                    ==> encode_utf8(routes[j].path@).len() <= encode_utf8(routes[i].path@).len()
            &&& forall|j: int|
                i < j < routes.len() && is_prefix_of(encode_utf8(#[trigger] routes[j].path@), request)
                    ==> encode_utf8(routes[j].path@).len() < encode_utf8(routes[i].path@).len()
        },
        no_route_matches(routes, request) <==> forall|j: int|
            0 <= j < routes.len() ==> !is_prefix_of(encode_utf8(#[trigger] routes[j].path@), request),
{
}

/// What a routing result says: no route exactly when no route's whole path
/// is a prefix of the request, and otherwise the route chosen for it.
pub proof fn lemma_routing_result_meaning(
    routes: Seq<Arc<RouteConfig>>,
    request: Seq<u8>,
    r: Option<Arc<RouteConfig>>,
)
    ensures
        r is None ==> (routing_result(routes, request, r) <==> forall|j: int|
            0 <= j < routes.len() ==> !is_prefix_of(encode_utf8(#[trigger] routes[j].path@), request)),
        r matches Some(route) ==> (routing_result(routes, request, r) <==> exists|i: int|
            is_chosen_route(routes, request, i) && route == routes[i]),
{
}

/// The route chosen for a request is the only route whose whole path is a
/// prefix of the request when no other route's path is: with a single
/// matching route, routing returns that route.
pub proof fn lemma_single_match_is_chosen(routes: Seq<Arc<RouteConfig>>, request: Seq<u8>, i: int)
    requires
        0 <= i < routes.len(),
        is_prefix_of(encode_utf8(routes[i].path@), request),
        forall|j: int|
            0 <= j < routes.len() && j != i ==> !is_prefix_of(encode_utf8(#[trigger] routes[j].path@), request),
    ensures
        is_chosen_route(routes, request, i),
        forall|r: Option<Arc<RouteConfig>>| routing_result(routes, request, r) ==> r == Some(routes[i]),
{
    assert forall|r: Option<Arc<RouteConfig>>| routing_result(routes, request, r) implies r == Some(
        routes[i],
    ) by {
        if let Some(route) = r {
            let k = choose|k: int| is_chosen_route(routes, request, k) && route == routes[k];
            lemma_chosen_route_unique(routes, request, i, k);
        } else {
            assert(route_matches(*routes[i], request));
        }
    }
}

/// `Arc::clone`: another pointer to the same value.
#[verifier::external_body]
fn clone_arc<T>(a: &Arc<T>) -> (r: Arc<T>)
    ensures
        r == *a,
{
    Arc::clone(a)
}

impl GatewayConfig {
    /// The route whose path is the longest prefix of `request_path`; of
    /// equally long matches the one listed last. `None` when no route's path
    /// is a prefix of the request path.
    pub fn find_route_for_path(&self, request_path: &str) -> (r: Option<Arc<RouteConfig>>)
        ensures
            routing_result(self.routes@, request_path.spec_bytes(), r),
            r is None <==> forall|j: int|
                0 <= j < self.routes@.len() ==> !is_prefix_of(
                    encode_utf8(#[trigger] self.routes@[j].path@),
                    request_path.spec_bytes(),
                ),
            r matches Some(route) ==> exists|i: int|
                0 <= i < self.routes@.len() && route == self.routes@[i] && is_prefix_of(
                    encode_utf8(self.routes@[i].path@),
                    request_path.spec_bytes(),
                ) && (forall|j: int|
                    0 <= j < self.routes@.len() && is_prefix_of(
                        encode_utf8(#[trigger] self.routes@[j].path@),
                        request_path.spec_bytes(),
                    ) ==> encode_utf8(self.routes@[j].path@).len() <= encode_utf8(
                        self.routes@[i].path@,
                    ).len()) && (forall|j: int|
                    i < j < self.routes@.len() && is_prefix_of(
                        encode_utf8(#[trigger] self.routes@[j].path@),
                        request_path.spec_bytes(),
                    ) ==> encode_utf8(self.routes@[j].path@).len() < encode_utf8(
                        self.routes@[i].path@,
                    ).len()),
    {
        let request = request_path.as_bytes();
        let n = self.routes.len();
        let mut best: Option<usize> = None;
        for i in 0..n
            invariant
                n == self.routes@.len(),
                request@ == request_path.spec_bytes(),
                match best {
                    None => forall|j: int| 0 <= j < i ==> !route_matches(*self.routes@[j], request@),
                    Some(b) => chosen_among(self.routes@, request@, b as int, i as int),
                },
        {
            let route = &self.routes[i];
            let path = route.path.as_str().as_bytes();
            if bytes_start_with(request, path) {
                match best {
                    None => {
                        best = Some(i);
                    },
                    Some(b) => {
                        let best_len = self.routes[b].path.as_str().as_bytes().len();
                        if path.len() >= best_len {
                            best = Some(i);
                        }
                    },
                }
            }
        }
        match best {
            None => None,
            Some(b) => Some(clone_arc(&self.routes[b])),
        }
    }
}

/// The API key store: each key with who it belongs to, its roles and its
/// status. A store read from a file holds each key once.
#[derive(Debug, Clone)]
pub struct ApiKeyStore {
    pub keys: Vec<(String, ApiKeyDetails)>,
}

impl ApiKeyStore {
    /// No key stands in the store twice.
    pub open spec fn has_distinct_keys(&self) -> bool {
        forall|i: int, j: int|
            0 <= i < j < self.keys@.len() ==> #[trigger] self.keys@[i].0@ != #[trigger] self.keys@[j].0@
    }
}

/// Who an API key belongs to, its roles and its status.
#[derive(Debug, Clone)]
pub struct ApiKeyDetails {
    pub user_id: String,
    pub roles: Vec<String>,
    pub status: String,
}

/// The status an API key has when the store does not give one.
pub fn default_status() -> (s: String)
    ensures
        s@ == "active"@,
{
    "active".to_string()
}

/// Secrets the gateway needs at run time.
pub struct SecretsConfig {
    pub jwt_secret: String,
}

} // verus!
