//! Where the gateway forwards a request.

use vstd::prelude::*;
use vstd::utf8::encode_utf8;

use crate::config::{is_chosen_route, no_route_matches, GatewayConfig};
use crate::errors::{AppError, AppErrorView};

verus! {

/// The request path the proxy sees for a wildcard capture `path`: the
/// capture with a leading `/`.
pub open spec fn request_path_of(path: Seq<char>) -> Seq<char> {
    "/"@ + path
}

/// The backend URL for a request whose wildcard capture is `path`: the
/// destination of the route that serves `"/" + path`, followed by that whole
/// request path. `RouteNotFound` when no route serves it.
pub fn proxy_destination(config: &GatewayConfig, path: &str) -> (r: Result<String, AppError>)
    ensures
        no_route_matches(config.routes@, encode_utf8(request_path_of(path@))) <==> r is Err,
        r matches Err(e) ==> e@ == AppErrorView::RouteNotFound,
        r matches Ok(url) ==> exists|i: int|
            is_chosen_route(config.routes@, encode_utf8(request_path_of(path@)), i) && url@
                == config.routes@[i].destination@ + request_path_of(path@),
        r matches Ok(url) ==> exists|i: int|
            is_chosen_route(config.routes@, encode_utf8("/"@ + path@), i) && url@
                == config.routes@[i].destination@ + "/"@ + path@,
        no_route_matches(config.routes@, encode_utf8("/"@ + path@)) <==> r is Err,
{
    let request_path = String::from_str("/").concat(path);
    let route = match config.find_route_for_path(request_path.as_str()) {
        Some(route) => route,
        None => {
            return Err(AppError::RouteNotFound);
        },
    };
    let url = route.destination.clone().concat(request_path.as_str());
    Ok(url)
}

} // verus!
