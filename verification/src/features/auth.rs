//! Authentication: reading the bearer token from the `Authorization`
//! header, checking it as an API key or a JWT, and checking roles.

use vstd::prelude::*;
use vstd::string::StringSliceAdditionalSpecFns;
use vstd::utf8::encode_utf8;

use crate::byte_seq::{bytes_equal, bytes_start_with, is_prefix_of};
use crate::config::{ApiKeyDetails, ApiKeyStore, AuthConfig, AuthType};
use crate::errors::{status_of, AppError, AppErrorView};

verus! {

/// What an authenticated caller is: subject, roles, and expiry time.
#[derive(Debug, Clone)]
pub struct Claims {
    pub sub: String,
    pub roles: Vec<String>,
    pub exp: usize,
}

/// The claims as plain values.
pub struct ClaimsView {
    pub sub: Seq<char>,
    pub roles: Seq<Seq<char>>,
    pub exp: usize,
}

/// The text of each string in `s`.
pub open spec fn texts(s: Seq<String>) -> Seq<Seq<char>> {
    s.map_values(|x: String| x@)
}

impl View for Claims {
    type V = ClaimsView;

    open spec fn view(&self) -> ClaimsView {
        ClaimsView { sub: self.sub@, roles: texts(self.roles@), exp: self.exp }
    }
}

/// Why decoding a JWT failed, as far as the gateway tells reasons apart.
#[derive(PartialEq, Eq, Structural, Clone, Copy, Debug)]
pub enum JwtErrorKind {
    /// The token's `exp` claim lies in the past.
    ExpiredSignature,
    /// Any other failure: bad signature, malformed token, wrong claims.
    Other,
}

/// A claims result as plain values.
pub open spec fn claims_result(r: Result<Claims, AppError>) -> Result<ClaimsView, AppErrorView> {
    match r {
        Ok(c) => Ok(c@),
        Err(e) => Err(e@),
    }
}

/// A byte that may stand in a header value that reads as text: visible
/// ASCII or a tab.
pub open spec fn is_visible_ascii(b: u8) -> bool {
    (32 <= b && b < 127) || b == 9
}

/// Every byte of `s` is visible ASCII or a tab.
pub open spec fn all_visible_ascii(s: Seq<u8>) -> bool {
    forall|i: int| 0 <= i < s.len() ==> is_visible_ascii(#[trigger] s[i])
}

/// The bytes of the scheme that starts a bearer `Authorization` header.
pub open spec fn bearer_prefix() -> Seq<u8> {
    encode_utf8("Bearer "@)
}

/// The token carried by an `Authorization` header whose raw bytes are
/// `header` (`None` when the request has no such header).
pub open spec fn bearer_token_of(header: Option<Seq<u8>>) -> Result<Seq<u8>, AppErrorView> {
    match header {
        None => Err(AppErrorView::MissingAuthToken),
        Some(h) => if !all_visible_ascii(h) {
            Err(AppErrorView::MissingAuthToken)
        } else if is_prefix_of(bearer_prefix(), h) {
            Ok(h.skip(bearer_prefix().len() as int))
        } else {
            Err(AppErrorView::InvalidAuthHeader)
        },
    }
}

/// The raw bytes of an optional header, as plain values.
pub open spec fn header_bytes(header: Option<&[u8]>) -> Option<Seq<u8>> {
    match header {
        None => None,
        Some(h) => Some(h@),
    }
}

/// Store entry `e` is the entry of key `token` (compared as bytes).
pub open spec fn key_matches(e: (String, ApiKeyDetails), token: Seq<u8>) -> bool {
    encode_utf8(e.0@) == token
}

/// Entry `i` is the first entry of the store whose key is `token`.
pub open spec fn is_first_key_match(keys: Seq<(String, ApiKeyDetails)>, token: Seq<u8>, i: int) -> bool {
    &&& 0 <= i < keys.len()
    &&& key_matches(keys[i], token)
    &&& forall|j: int| 0 <= j < i ==> !key_matches(#[trigger] keys[j], token)
}

/// A key whose status is `"active"` may be used; any other status (such as
/// `"revoked"`) refuses it.
pub open spec fn is_active(d: ApiKeyDetails) -> bool {
    d.status@ == "active"@
}

/// The claims a store entry authenticates as: its user and its roles.
pub open spec fn entry_claims(d: ApiKeyDetails) -> ClaimsView {
    ClaimsView { sub: d.user_id@, roles: texts(d.roles@), exp: 0 }
}

/// What an API key authenticates as against the store: the claims of the
/// key's entry when that entry is active, and `AuthFailed("Invalid API Key")`
/// when the key is unknown or not active.
pub open spec fn api_key_result(keys: Seq<(String, ApiKeyDetails)>, token: Seq<u8>) -> Result<
    ClaimsView,
    AppErrorView,
> {
    if exists|i: int| is_first_key_match(keys, token, i) {
        let i = choose|i: int| is_first_key_match(keys, token, i);
        if is_active(keys[i].1) {
            Ok(entry_claims(keys[i].1))
        } else {
            Err(AppErrorView::AuthFailed("Invalid API Key"@))
        }
    } else {
        Err(AppErrorView::AuthFailed("Invalid API Key"@))
    }
}

/// What a JWT decoding outcome authenticates as.
pub open spec fn jwt_result(decoded: Result<ClaimsView, JwtErrorKind>) -> Result<ClaimsView, AppErrorView> {
    match decoded {
        Ok(c) => Ok(c),
        Err(JwtErrorKind::ExpiredSignature) => Err(AppErrorView::TokenExpired),
        Err(JwtErrorKind::Other) => Err(AppErrorView::AuthFailed("Invalid JWT"@)),
    }
}

/// A JWT decoding outcome as plain values.
pub open spec fn decoded_view(d: Result<Claims, JwtErrorKind>) -> Result<ClaimsView, JwtErrorKind> {
    match d {
        Ok(c) => Ok(c@),
        Err(k) => Err(k),
    }
}

/// `user` holds every role in `required`.
pub open spec fn has_all_roles(user: Seq<Seq<char>>, required: Seq<Seq<char>>) -> bool {
    forall|i: int| 0 <= i < required.len() ==> user.contains(#[trigger] required[i])
}

/// `r` is a possible result of `verify_token` for this header, this
/// configuration, this key store and this JWT decoder: a failure to read the bearer token, or
/// what the API key or what the decoder's outcome on the token authenticates as.
pub open spec fn token_verified<F: Fn(&[u8]) -> Result<Claims, JwtErrorKind>>(
    header: Option<Seq<u8>>,
    auth_type: AuthType,
    keys: Seq<(String, ApiKeyDetails)>,
    decode_jwt: F,
    r: Result<Claims, AppError>,
) -> bool {
    match bearer_token_of(header) {
        Err(e) => claims_result(r) == Err::<ClaimsView, AppErrorView>(e),
        Ok(token) => match auth_type {
            AuthType::ApiKey => claims_result(r) == api_key_result(keys, token),
            AuthType::Jwt => exists|t: &[u8], d: Result<Claims, JwtErrorKind>|
                t@ == token && call_ensures(decode_jwt, (t,), d) && claims_result(r) == jwt_result(
                    decoded_view(d),
                ),
        },
    }
}

/// The bytes of `"Bearer "`.
pub proof fn lemma_bearer_prefix_bytes()
    ensures
        bearer_prefix() == seq![66u8, 101u8, 97u8, 114u8, 101u8, 114u8, 32u8],
{
    reveal_strlit("Bearer ");
    assert(vstd::string::is_ascii("Bearer "));
    vstd::string::is_ascii_spec_bytes("Bearer ");
    assert("Bearer ".spec_bytes() =~= seq![66u8, 101u8, 97u8, 114u8, 101u8, 114u8, 32u8]);
}

/// A bearer header gives back exactly the token it was made from, for every
/// token that reads as header text.
pub proof fn lemma_bearer_round_trip(token: Seq<u8>)
    requires
        all_visible_ascii(token),
    ensures
        bearer_token_of(Some(bearer_prefix() + token)) == Ok::<Seq<u8>, AppErrorView>(token),
{
    lemma_bearer_prefix_bytes();
    let h = bearer_prefix() + token;
    assert(all_visible_ascii(h)) by {
        assert forall|i: int| 0 <= i < h.len() implies is_visible_ascii(#[trigger] h[i]) by {
            if i >= 7 {
                assert(h[i] == token[i - 7]);
            }
        }
    }
    assert(h.take(7) =~= bearer_prefix());
    assert(h.skip(7) =~= token);
}

/// No required roles: every caller holds them all.
pub proof fn lemma_no_roles_required(user: Seq<Seq<char>>)
    ensures
        has_all_roles(user, Seq::empty()),
{
}

/// Holding more roles never loses access: a caller who holds every required
/// role still does after gaining roles.
pub proof fn lemma_more_roles_keep_access(
    user: Seq<Seq<char>>,
    more: Seq<Seq<char>>,
    required: Seq<Seq<char>>,
)
    requires
        has_all_roles(user, required),
        forall|k: int| 0 <= k < user.len() ==> more.contains(#[trigger] user[k]),
    ensures
        has_all_roles(more, required),
{
    assert forall|i: int| 0 <= i < required.len() implies more.contains(#[trigger] required[i]) by {
        let k = choose|k: int| 0 <= k < user.len() && user[k] == required[i];
        assert(more.contains(user[k]));
    }
}

/// Every way token verification can fail is answered with status 401.
pub proof fn lemma_token_failures_unauthorized<F: Fn(&[u8]) -> Result<Claims, JwtErrorKind>>(
    header: Option<Seq<u8>>,
    auth_type: AuthType,
    keys: Seq<(String, ApiKeyDetails)>,
    decode_jwt: F,
    r: Result<Claims, AppError>,
)
    requires
        token_verified(header, auth_type, keys, decode_jwt, r),
    ensures
        r matches Err(e) ==> status_of(e@) == 401,
{
}

/// Token verification depends on a route's authentication only through its
/// kind, never through the roles the route requires: for two configurations
/// of the same kind, an API-key verification gives the same result, and a JWT
/// verification does too whenever the decoder gives one outcome per token.
pub proof fn lemma_verification_ignores_required_roles<F: Fn(&[u8]) -> Result<Claims, JwtErrorKind>>(
    header: Option<Seq<u8>>,
    ac1: AuthConfig,
    ac2: AuthConfig,
    keys: Seq<(String, ApiKeyDetails)>,
    decode_jwt: F,
    r1: Result<Claims, AppError>,
    r2: Result<Claims, AppError>,
)
    requires
        ac1.auth_type == ac2.auth_type,
        token_verified(header, ac1.auth_type, keys, decode_jwt, r1),
        token_verified(header, ac2.auth_type, keys, decode_jwt, r2),
        ac1.auth_type == AuthType::Jwt ==> forall|
            t1: &[u8],
            t2: &[u8],
            d1: Result<Claims, JwtErrorKind>,
            d2: Result<Claims, JwtErrorKind>,
        |
            t1@ == t2@ && #[trigger] call_ensures(decode_jwt, (t1,), d1) && #[trigger] call_ensures(
                decode_jwt,
                (t2,),
                d2,
            ) ==> decoded_view(d1) == decoded_view(d2),
    ensures
        claims_result(r1) == claims_result(r2),
{
    if ac1.auth_type == AuthType::Jwt {
        if let Ok(token) = bearer_token_of(header) {
            let (t1, d1) = choose|t: &[u8], d: Result<Claims, JwtErrorKind>|
                t@ == token && call_ensures(decode_jwt, (t,), d) && claims_result(r1) == jwt_result(
                    decoded_view(d),
                );
            let (t2, d2) = choose|t: &[u8], d: Result<Claims, JwtErrorKind>|
                t@ == token && call_ensures(decode_jwt, (t,), d) && claims_result(r2) == jwt_result(
                    decoded_view(d),
                );
            assert(decoded_view(d1) == decoded_view(d2));
        }
    }
}

/// The key store decides API keys: in a store that holds each key once, a
/// key in the store is accepted, with its entry's user and roles, exactly
/// when its status is `"active"` (a revoked key is refused), and a key not in
/// the store is refused.
pub proof fn lemma_key_store_decides(key_store: ApiKeyStore, token: Seq<u8>)
    requires
        key_store.has_distinct_keys(),
    ensures
        forall|i: int|
            0 <= i < key_store.keys@.len() && key_matches(#[trigger] key_store.keys@[i], token)
                ==> api_key_result(key_store.keys@, token) == if is_active(key_store.keys@[i].1) {
                Ok::<ClaimsView, AppErrorView>(entry_claims(key_store.keys@[i].1))
            } else {
                Err::<ClaimsView, AppErrorView>(AppErrorView::AuthFailed("Invalid API Key"@))
            },
        (forall|i: int| 0 <= i < key_store.keys@.len() ==> !key_matches(#[trigger] key_store.keys@[i], token))
            ==> api_key_result(key_store.keys@, token) == Err::<ClaimsView, AppErrorView>(
            AppErrorView::AuthFailed("Invalid API Key"@),
        ),
{
    let keys = key_store.keys@;
    lemma_distinct_keys_match_once(&key_store, token);
    lemma_first_key_match_unique(keys, token);
    assert forall|i: int| 0 <= i < keys.len() && key_matches(#[trigger] keys[i], token) implies is_first_key_match(
        keys,
        token,
        i,
    ) by {
        assert forall|j: int| 0 <= j < i implies !key_matches(#[trigger] keys[j], token) by {}
    }
}

/// A caller holds the roles a route requires exactly when the text of each
/// required role is among the texts of the caller's roles.
proof fn lemma_roles_held_by_index(user: Seq<String>, required: Seq<String>)
    ensures
        has_all_roles(texts(user), texts(required)) <==> forall|i: int|
            0 <= i < required.len() ==> user.map_values(|x: String| x@).contains(
                #[trigger] required[i]@,
            ),
{
    let tu = texts(user);
    let tr = texts(required);
    assert(tu == user.map_values(|x: String| x@));
    if has_all_roles(tu, tr) {
        assert forall|i: int| 0 <= i < required.len() implies tu.contains(#[trigger] required[i]@) by {
            assert(tr[i] == required[i]@);
        }
    }
    if forall|i: int| 0 <= i < required.len() ==> tu.contains(#[trigger] required[i]@) {
        assert forall|i: int| 0 <= i < tr.len() implies tu.contains(#[trigger] tr[i]) by {
            assert(tr[i] == required[i]@);
        }
    }
}

/// Holding every required role is set inclusion: the required roles, as a
/// set, lie within the caller's roles.
pub proof fn lemma_roles_held_is_inclusion(user: Seq<Seq<char>>, required: Seq<Seq<char>>)
    ensures
        has_all_roles(user, required) <==> required.to_set().subset_of(user.to_set()),
{
    if required.to_set().subset_of(user.to_set()) {
        assert forall|i: int| 0 <= i < required.len() implies user.contains(#[trigger] required[i]) by {
            assert(required.to_set().contains(required[i]));
        }
    }
}

/// A caller who lacks any one required role, wherever it stands among the
/// required roles, does not hold them all.
pub proof fn lemma_missing_role_refused(user: Seq<Seq<char>>, required: Seq<Seq<char>>, k: int)
    requires
        0 <= k < required.len(),
        forall|j: int| 0 <= j < user.len() ==> user[j] != required[k],
    ensures
        !has_all_roles(user, required),
{
    assert(!user.contains(required[k]));
}

/// A successfully decoded JWT authenticates as exactly its claims: subject,
/// every role, and expiry unchanged. An expired token is `TokenExpired` and
/// any other failure `AuthFailed("Invalid JWT")`.
pub proof fn lemma_jwt_claims_unchanged(c: ClaimsView)
    ensures
        jwt_result(Ok(c)) == Ok::<ClaimsView, AppErrorView>(c),
        jwt_result(Err(JwtErrorKind::ExpiredSignature)) == Err::<ClaimsView, AppErrorView>(
            AppErrorView::TokenExpired,
        ),
        jwt_result(Err(JwtErrorKind::Other)) == Err::<ClaimsView, AppErrorView>(
            AppErrorView::AuthFailed("Invalid JWT"@),
        ),
{
}

/// The key store decides API keys by the bytes of each key: in a store whose
/// keys are pairwise different, a token equal to the bytes of entry `i`'s key
/// authenticates as that entry's user and roles when its status is
/// `"active"`, and is refused otherwise; a token equal to no key is refused.
pub proof fn lemma_store_lookup_by_key_bytes(keys: Seq<(String, ApiKeyDetails)>, token: Seq<u8>)
    requires
        forall|a: int, b: int| 0 <= a < b < keys.len() ==> #[trigger] keys[a].0@ != #[trigger] keys[b].0@,
    ensures
        forall|i: int|
            0 <= i < keys.len() && encode_utf8(#[trigger] keys[i].0@) == token ==> api_key_result(
                keys,
                token,
            ) == if keys[i].1.status@ == "active"@ {
                Ok::<ClaimsView, AppErrorView>(
                    ClaimsView {
                        sub: keys[i].1.user_id@,
                        roles: keys[i].1.roles@.map_values(|x: String| x@),
                        exp: 0,
                    },
                )
            } else {
                Err::<ClaimsView, AppErrorView>(AppErrorView::AuthFailed("Invalid API Key"@))
            },
        (forall|i: int| 0 <= i < keys.len() ==> encode_utf8(#[trigger] keys[i].0@) != token)
            ==> api_key_result(keys, token) == Err::<ClaimsView, AppErrorView>(
            AppErrorView::AuthFailed("Invalid API Key"@),
        ),
{
    broadcast use vstd::utf8::encode_utf8_decode_utf8;

    assert forall|i: int|
        0 <= i < keys.len() && encode_utf8(#[trigger] keys[i].0@) == token implies is_first_key_match(
        keys,
        token,
        i,
    ) by {
        assert forall|j: int| 0 <= j < i implies !key_matches(#[trigger] keys[j], token) by {
            if encode_utf8(keys[j].0@) == token {
                assert(vstd::utf8::decode_utf8(encode_utf8(keys[j].0@)) == keys[j].0@);
                assert(vstd::utf8::decode_utf8(encode_utf8(keys[i].0@)) == keys[i].0@);
                assert(keys[j].0@ != keys[i].0@);
            }
        }
    }
    lemma_first_key_match_unique(keys, token);
}

/// On a JWT route, a bearer token that the decoder decodes to claims `c`
/// (whichever outcome it is asked for) authenticates as exactly `c`: its
/// subject, every one of its roles, and its expiry.
pub proof fn lemma_jwt_route_passes_decoded_claims<F: Fn(&[u8]) -> Result<Claims, JwtErrorKind>>(
    token: Seq<u8>,
    keys: Seq<(String, ApiKeyDetails)>,
    decode_jwt: F,
    c: Claims,
    r: Result<Claims, AppError>,
)
    requires
        forall|i: int| 0 <= i < token.len() ==> (32 <= #[trigger] token[i] < 127 || token[i] == 9),
        forall|t: &[u8], d: Result<Claims, JwtErrorKind>|
            t@ == token && #[trigger] call_ensures(decode_jwt, (t,), d) ==> d == Ok::<
                Claims,
                JwtErrorKind,
            >(c),
        token_verified(
            Some(seq![66u8, 101u8, 97u8, 114u8, 101u8, 114u8, 32u8] + token),
            AuthType::Jwt,
            keys,
            decode_jwt,
            r,
        ),
    ensures
        r matches Ok(c2) && c2.sub@ == c.sub@ && c2.roles@.map_values(|x: String| x@)
            == c.roles@.map_values(|x: String| x@) && c2.exp == c.exp,
{
    lemma_bearer_prefix_bytes();
    lemma_bearer_round_trip(token);
    let (t, d) = choose|t: &[u8], d: Result<Claims, JwtErrorKind>|
        t@ == token && call_ensures(decode_jwt, (t,), d) && claims_result(r) == jwt_result(
            decoded_view(d),
        );
    assert(d == Ok::<Claims, JwtErrorKind>(c));
}

/// Token verification fails before any key or token is looked at when the
/// header is missing or does not read as text (`MissingAuthToken`), or when
/// it reads as text but does not start with `"Bearer "` (`InvalidAuthHeader`).
pub proof fn lemma_bearer_header_failures<F: Fn(&[u8]) -> Result<Claims, JwtErrorKind>>(
    header: Option<Seq<u8>>,
    auth_type: AuthType,
    keys: Seq<(String, ApiKeyDetails)>,
    decode_jwt: F,
    r: Result<Claims, AppError>,
)
    requires
        token_verified(header, auth_type, keys, decode_jwt, r),
    ensures
        header is None ==> (r matches Err(AppError::MissingAuthToken)),
        header matches Some(h) ==> (!(forall|i: int|
            0 <= i < h.len() ==> (32 <= #[trigger] h[i] < 127 || h[i] == 9)) ==> (r matches Err(
            AppError::MissingAuthToken,
        ))),
        header matches Some(h) ==> ((forall|i: int|
            0 <= i < h.len() ==> (32 <= #[trigger] h[i] < 127 || h[i] == 9)) && !(h.len() >= 7
            && h.subrange(0, 7) == seq![66u8, 101u8, 97u8, 114u8, 101u8, 114u8, 32u8]) ==> (r matches Err(
            AppError::InvalidAuthHeader,
        ))),
{
    lemma_bearer_prefix_bytes();
    if let Some(h) = header {
        assert(h.take(7) == h.subrange(0, 7));
    }
}

/// Whether every byte of `s` is visible ASCII or a tab (the test that
/// `http::HeaderValue::to_str` makes before it gives the value as text).
fn is_visible_ascii_text(s: &[u8]) -> (r: bool)
    ensures
        r == all_visible_ascii(s@),
{
    let n = s.len();
    let mut i: usize = 0;
    while i < n
        invariant
            n == s@.len(),
            i <= n,
            forall|j: int| 0 <= j < i ==> is_visible_ascii(#[trigger] s@[j]),
        decreases n - i,
    {
        let b = s[i];
        if !((32 <= b && b < 127) || b == 9) {
            return false;
        }
        i = i + 1;
    }
    true
}

/// The bearer token of an `Authorization` header given by its raw bytes:
/// `MissingAuthToken` when there is no header or it does not read as text,
/// `InvalidAuthHeader` when it does not start with `"Bearer "`.
pub fn extract_bearer_token(authorization: Option<&[u8]>) -> (r: Result<&[u8], AppError>)
    ensures
        match bearer_token_of(header_bytes(authorization)) {
            Ok(t) => r matches Ok(token) && token@ == t,
            Err(e) => r matches Err(err) && err@ == e,
        },
        authorization is None ==> (r matches Err(AppError::MissingAuthToken)),
        authorization matches Some(h) ==> if !(forall|i: int|
            0 <= i < h@.len() ==> (32 <= #[trigger] h@[i] < 127 || h@[i] == 9)) {
            r matches Err(AppError::MissingAuthToken)
        } else if h@.len() >= 7 && h@.subrange(0, 7) == seq![
            66u8,
            101u8,
            97u8,
            114u8,
            101u8,
            114u8,
            32u8,
        ] {
            r matches Ok(t) && t@ == h@.subrange(7, h@.len() as int)
        } else {
            r matches Err(AppError::InvalidAuthHeader)
        },
{
    proof {
        lemma_bearer_prefix_bytes();
        if let Some(h) = authorization {
            assert(h@.take(7) == h@.subrange(0, 7));
            assert(h@.skip(7) == h@.subrange(7, h@.len() as int));
        }
    }
    let header = match authorization {
        None => {
            return Err(AppError::MissingAuthToken);
        },
        Some(h) => h,
    };
    if !is_visible_ascii_text(header) {
        return Err(AppError::MissingAuthToken);
    }
    let prefix = "Bearer ".as_bytes();
    if bytes_start_with(header, prefix) {
        let (_, token) = header.split_at(prefix.len());
        Ok(token)
    } else {
        Err(AppError::InvalidAuthHeader)
    }
}

/// Checks that `user_roles` holds every role in `required_roles`.
pub fn check_roles(user_roles: &[String], required_roles: &[String]) -> (r: Result<(), AppError>)
    ensures
        r is Ok <==> has_all_roles(texts(user_roles@), texts(required_roles@)),
        r matches Err(e) ==> e@ == AppErrorView::InsufficientPermissions,
        r is Ok <==> forall|i: int|
            0 <= i < required_roles@.len() ==> user_roles@.map_values(|x: String| x@).contains(
                #[trigger] required_roles@[i]@,
            ),
        r matches Err(e) ==> e matches AppError::InsufficientPermissions,
{
    proof {
        lemma_roles_held_by_index(user_roles@, required_roles@);
    }
    let n = required_roles.len();
    let m = user_roles.len();
    for i in 0..n
        invariant
            n == required_roles@.len(),
            m == user_roles@.len(),
            forall|k: int|
                0 <= k < i ==> texts(user_roles@).contains(#[trigger] texts(required_roles@)[k]),
    {
        let mut found = false;
        for j in 0..m
            invariant
                m == user_roles@.len(),
                i < required_roles@.len(),
                found ==> texts(user_roles@).contains(texts(required_roles@)[i as int]),
                !found ==> forall|k: int| 0 <= k < j ==> user_roles@[k]@ != required_roles@[i as int]@,
        {
            if !found && user_roles[j] == required_roles[i] {
                found = true;
                assert(texts(user_roles@)[j as int] == texts(required_roles@)[i as int]);
            }
        }
        if !found {
            proof {
                assert(!texts(user_roles@).contains(texts(required_roles@)[i as int]));
            }
            return Err(AppError::InsufficientPermissions);
        }
    }
    Ok(())
}

/// A copy of a list of strings.
fn copy_strings(v: &Vec<String>) -> (r: Vec<String>)
    ensures
        texts(r@) == texts(v@),
{
    let mut r: Vec<String> = Vec::new();
    let n = v.len();
    for i in 0..n
        invariant
            n == v@.len(),
            texts(r@) =~= texts(v@.take(i as int)),
    {
        let ghost before = r@;
        let s = v[i].clone();
        r.push(s);
        assert(r@ =~= before.push(v@[i as int]));
        assert(texts(r@) =~= texts(before).push(v@[i as int]@));
        assert(v@.take(i + 1) =~= v@.take(i as int).push(v@[i as int]));
        assert(texts(v@.take(i + 1)) =~= texts(v@.take(i as int)).push(v@[i as int]@));
    }
    assert(v@.take(n as int) =~= v@);
    r
}

/// The claims an API key authenticates as against the key store: the user
/// and roles of the key's entry when its status is `"active"`, and
/// `AuthFailed("Invalid API Key")` when the key is not in the store or its
/// entry is not active (a revoked key).
pub fn verify_api_key(key_store: &ApiKeyStore, token: &[u8]) -> (r: Result<Claims, AppError>)
    ensures
        claims_result(r) == api_key_result(key_store.keys@, token@),
        key_store.has_distinct_keys() ==> (r is Ok <==> exists|i: int|
            0 <= i < key_store.keys@.len() && key_matches(#[trigger] key_store.keys@[i], token@)
                && is_active(key_store.keys@[i].1)),
        key_store.has_distinct_keys() ==> (r matches Ok(c) ==> exists|i: int|
            0 <= i < key_store.keys@.len() && key_matches(#[trigger] key_store.keys@[i], token@)
                && c@ == entry_claims(key_store.keys@[i].1)),
        (forall|a: int, b: int|
            0 <= a < b < key_store.keys@.len() ==> #[trigger] key_store.keys@[a].0@
                != #[trigger] key_store.keys@[b].0@) ==> forall|i: int|
            0 <= i < key_store.keys@.len() && encode_utf8(#[trigger] key_store.keys@[i].0@)
                == token@ ==> if key_store.keys@[i].1.status@ == "active"@ {
                r matches Ok(c) && c.sub@ == key_store.keys@[i].1.user_id@ && c.roles@.map_values(
                    |x: String| x@,
                ) == key_store.keys@[i].1.roles@.map_values(|x: String| x@) && c.exp == 0
            } else {
                r matches Err(AppError::AuthFailed(m)) && m@ == "Invalid API Key"@
            },
        (forall|i: int|
            0 <= i < key_store.keys@.len() ==> encode_utf8(#[trigger] key_store.keys@[i].0@)
                != token@) ==> (r matches Err(AppError::AuthFailed(m)) && m@ == "Invalid API Key"@),
{
    let ghost keys = key_store.keys@;
    let active = String::from_str("active");
    let n = key_store.keys.len();
    let mut found: Option<usize> = None;
    for i in 0..n
        invariant
            n == keys.len(),
            keys == key_store.keys@,
            active@ == "active"@,
            found matches Some(k) ==> is_first_key_match(keys, token@, k as int),
            found is None ==> forall|j: int| 0 <= j < i ==> !key_matches(#[trigger] keys[j], token@),
    {
        if found.is_none() {
            let key = &key_store.keys[i].0;
            if bytes_equal(key.as_str().as_bytes(), token) {
                found = Some(i);
            }
        }
    }
    proof {
        lemma_first_key_match_unique(keys, token@);
        if key_store.has_distinct_keys() {
            lemma_distinct_keys_match_once(key_store, token@);
            lemma_store_lookup_by_key_bytes(keys, token@);
        }
    }
    match found {
        None => Err(AppError::AuthFailed("Invalid API Key".to_string())),
        Some(k) => {
            let details = &key_store.keys[k].1;
            if details.status == active {
                let c = Claims {
                    sub: details.user_id.clone(),
                    roles: copy_strings(&details.roles),
                    exp: 0,
                };
                Ok(c)
            } else {
                Err(AppError::AuthFailed("Invalid API Key".to_string()))
            }
        },
    }
}

/// At most one entry is the first entry of a key.
proof fn lemma_first_key_match_unique(keys: Seq<(String, ApiKeyDetails)>, token: Seq<u8>)
    ensures
        forall|i: int, j: int|
            is_first_key_match(keys, token, i) && is_first_key_match(keys, token, j) ==> i == j,
{
    assert forall|i: int, j: int|
        is_first_key_match(keys, token, i) && is_first_key_match(keys, token, j) implies i == j by {
        if i < j {
            assert(!key_matches(keys[i], token));
        } else if j < i {
            assert(!key_matches(keys[j], token));
        }
    }
}

/// In a store that holds each key once, the entry of a key is its only entry
/// with that key.
proof fn lemma_distinct_keys_match_once(key_store: &ApiKeyStore, token: Seq<u8>)
    requires
        key_store.has_distinct_keys(),
    ensures
        forall|i: int, j: int|
            0 <= i < key_store.keys@.len() && 0 <= j < key_store.keys@.len() && key_matches(
                #[trigger] key_store.keys@[i],
                token,
            ) && key_matches(#[trigger] key_store.keys@[j], token) ==> i == j,
{
    broadcast use vstd::utf8::encode_utf8_decode_utf8;

    let keys = key_store.keys@;
    assert forall|i: int, j: int|
        0 <= i < keys.len() && 0 <= j < keys.len() && key_matches(#[trigger] keys[i], token)
            && key_matches(#[trigger] keys[j], token) implies i == j by {
        if i != j {
            assert(vstd::utf8::decode_utf8(encode_utf8(keys[i].0@)) == keys[i].0@);
            assert(vstd::utf8::decode_utf8(encode_utf8(keys[j].0@)) == keys[j].0@);
            if i < j {
                assert(keys[i].0@ != keys[j].0@);
            } else {
                assert(keys[j].0@ != keys[i].0@);
            }
        }
    }
}

/// What the outcome of decoding a JWT authenticates as: its claims, or
/// `TokenExpired` for an expired token, or `AuthFailed("Invalid JWT")`.
pub fn verify_jwt(decoded: Result<Claims, JwtErrorKind>) -> (r: Result<Claims, AppError>)
    ensures
        claims_result(r) == jwt_result(decoded_view(decoded)),
        decoded matches Ok(c) ==> (r matches Ok(c2) && c2 == c),
        decoded matches Err(JwtErrorKind::ExpiredSignature) ==> r matches Err(AppError::TokenExpired),
        decoded matches Err(JwtErrorKind::Other) ==> (r matches Err(AppError::AuthFailed(m)) && m@
            == "Invalid JWT"@),
{
    match decoded {
        Ok(claims) => Ok(claims),
        Err(JwtErrorKind::ExpiredSignature) => Err(AppError::TokenExpired),
        Err(JwtErrorKind::Other) => Err(AppError::AuthFailed("Invalid JWT".to_string())),
    }
}

/// Authenticates a request by its `Authorization` header as the route's
/// configuration asks: an API key looked up in `key_store`, or a JWT that
/// `decode_jwt` decodes.
pub fn verify_token<F: Fn(&[u8]) -> Result<Claims, JwtErrorKind>>(
    authorization: Option<&[u8]>,
    auth_config: &AuthConfig,
    key_store: &ApiKeyStore,
    decode_jwt: F,
) -> (r: Result<Claims, AppError>)
    requires
        forall|t: &[u8]| call_requires(decode_jwt, (t,)),
    ensures
        token_verified(
            header_bytes(authorization),
            auth_config.auth_type,
            key_store.keys@,
            decode_jwt,
            r,
        ),
{
    let token = match extract_bearer_token(authorization) {
        Ok(t) => t,
        Err(e) => {
            return Err(e);
        },
    };
    match auth_config.auth_type {
        AuthType::Jwt => {
            let decoded = decode_jwt(token);
            verify_jwt(decoded)
        },
        AuthType::ApiKey => verify_api_key(key_store, token),
    }
}

} // verus!
