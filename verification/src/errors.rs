//! The gateway's errors and the HTTP answer each one gets.

use vstd::prelude::*;

verus! {

/// `reqwest::Error`: why a request to a backend failed.
#[verifier::external_type_specification]
#[verifier::external_body]
pub struct ExReqwestError(reqwest::Error);

/// Everything that can stop the gateway from answering a request normally.
#[derive(Debug)]
pub enum AppError {
    // Authentication and authorisation
    AuthFailed(String),
    MissingAuthToken,
    InvalidAuthHeader,
    InsufficientPermissions,
    TokenExpired,
    // Routing and proxying
    RouteNotFound,
    ProxyError(reqwest::Error),
    InvalidDestination(String),
    InternalServerError,
}

/// What an `AppError` carries, as plain values.
pub enum AppErrorView {
    AuthFailed(Seq<char>),
    MissingAuthToken,
    InvalidAuthHeader,
    InsufficientPermissions,
    TokenExpired,
    RouteNotFound,
    ProxyError,
    InvalidDestination(Seq<char>),
    InternalServerError,
}

impl View for AppError {
    type V = AppErrorView;

    open spec fn view(&self) -> AppErrorView {
        match self {
            AppError::AuthFailed(reason) => AppErrorView::AuthFailed(reason@),
            AppError::MissingAuthToken => AppErrorView::MissingAuthToken,
            AppError::InvalidAuthHeader => AppErrorView::InvalidAuthHeader,
            AppError::InsufficientPermissions => AppErrorView::InsufficientPermissions,
            AppError::TokenExpired => AppErrorView::TokenExpired,
            AppError::RouteNotFound => AppErrorView::RouteNotFound,
            AppError::ProxyError(_) => AppErrorView::ProxyError,
            AppError::InvalidDestination(url) => AppErrorView::InvalidDestination(url@),
            AppError::InternalServerError => AppErrorView::InternalServerError,
        }
    }
}

/// The HTTP status code the gateway answers an error with.
pub open spec fn status_of(e: AppErrorView) -> u16 {
    match e {
        AppErrorView::AuthFailed(_) => 401,
        AppErrorView::MissingAuthToken => 401,
        AppErrorView::InvalidAuthHeader => 401,
        AppErrorView::TokenExpired => 401,
        AppErrorView::InsufficientPermissions => 403,
        AppErrorView::RouteNotFound => 404,
        AppErrorView::ProxyError => 502,
        AppErrorView::InvalidDestination(_) => 500,
        AppErrorView::InternalServerError => 500,
    }
}

/// The body text the gateway answers an error with.
pub open spec fn message_of(e: AppErrorView) -> Seq<char> {
    match e {
        AppErrorView::AuthFailed(_) => "Authentication failed"@,
        AppErrorView::MissingAuthToken => "Missing 'Authorization' header"@,
        AppErrorView::InvalidAuthHeader => "Invalid 'Authorization' header format. Expected 'Bearer <token>'."@,
        AppErrorView::TokenExpired => "Token has expired"@,
        AppErrorView::InsufficientPermissions => "Insufficient permissions"@,
        AppErrorView::RouteNotFound => "Route not found"@,
        AppErrorView::ProxyError => "Error proxying request"@,
        AppErrorView::InvalidDestination(_) => "Invalid gateway configuration"@,
        AppErrorView::InternalServerError => "An internal server error occurred"@,
    }
}

/// Which errors get which status: failed authentication 401, missing roles
/// 403, no route 404, a failing backend 502, and a bad configuration or an
/// internal failure 500.
pub proof fn lemma_status_by_kind(e: AppErrorView)
    ensures
        status_of(e) == 401 <==> (e is AuthFailed || e is MissingAuthToken || e is InvalidAuthHeader
            || e is TokenExpired),
        status_of(e) == 403 <==> e is InsufficientPermissions,
        status_of(e) == 404 <==> e is RouteNotFound,
        status_of(e) == 502 <==> e is ProxyError,
        status_of(e) == 500 <==> (e is InvalidDestination || e is InternalServerError),
{
}

impl AppError {
    /// The HTTP status code of the answer to this error.
    pub fn status_code(&self) -> (s: u16)
        ensures
            s == status_of(self@),
            s == match self {
                AppError::AuthFailed(_) => 401u16,
                AppError::MissingAuthToken => 401u16,
                AppError::InvalidAuthHeader => 401u16,
                AppError::TokenExpired => 401u16,
                AppError::InsufficientPermissions => 403u16,
                AppError::RouteNotFound => 404u16,
                AppError::ProxyError(_) => 502u16,
                AppError::InvalidDestination(_) => 500u16,
                AppError::InternalServerError => 500u16,
            },
    {
        match self {
            AppError::AuthFailed(_) => 401,
            AppError::MissingAuthToken => 401,
            AppError::InvalidAuthHeader => 401,
            AppError::TokenExpired => 401,
            AppError::InsufficientPermissions => 403,
            AppError::RouteNotFound => 404,
            AppError::ProxyError(_) => 502,
            AppError::InvalidDestination(_) => 500,
            AppError::InternalServerError => 500,
        }
    }

    /// The body text of the answer to this error.
    pub fn message(&self) -> (m: &'static str)
        ensures
            m@ == message_of(self@),
            m@ == match self {
                AppError::AuthFailed(_) => "Authentication failed"@,
                AppError::MissingAuthToken => "Missing 'Authorization' header"@,
                AppError::InvalidAuthHeader => "Invalid 'Authorization' header format. Expected 'Bearer <token>'."@,
                AppError::TokenExpired => "Token has expired"@,
                AppError::InsufficientPermissions => "Insufficient permissions"@,
                AppError::RouteNotFound => "Route not found"@,
                AppError::ProxyError(_) => "Error proxying request"@,
                AppError::InvalidDestination(_) => "Invalid gateway configuration"@,
                AppError::InternalServerError => "An internal server error occurred"@,
            },
    {
        match self {
            AppError::AuthFailed(_) => "Authentication failed",
            AppError::MissingAuthToken => "Missing 'Authorization' header",
            AppError::InvalidAuthHeader => "Invalid 'Authorization' header format. Expected 'Bearer <token>'.",
            AppError::TokenExpired => "Token has expired",
            AppError::InsufficientPermissions => "Insufficient permissions",
            AppError::RouteNotFound => "Route not found",
            AppError::ProxyError(_) => "Error proxying request",
            AppError::InvalidDestination(_) => "Invalid gateway configuration",
            AppError::InternalServerError => "An internal server error occurred",
        }
    }
}

impl From<reqwest::Error> for AppError {
    fn from(error: reqwest::Error) -> (r: AppError) {
        AppError::ProxyError(error)
    }
}

impl vstd::std_specs::convert::FromSpecImpl<reqwest::Error> for AppError {
    open spec fn obeys_from_spec() -> bool {
        true
    }

    open spec fn from_spec(v: reqwest::Error) -> AppError {
        AppError::ProxyError(v)
    }
}

} // verus!
