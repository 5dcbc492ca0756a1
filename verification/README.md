# rustway

A minimal API gateway. The library (`src/`) holds the gateway's decisions,
each with a contract proved by Verus:

- `config`: the configuration types and longest-prefix routing
  (`GatewayConfig::find_route_for_path`), with the laws that routing always
  decides and picks a longest match.
- `features::auth`: reading the bearer token from the `Authorization`
  header, API keys checked against the key store (active keys only),
  JWT outcomes, and role checks.
- `middleware::auth`: the authorisation decision for a request
  (`authorize`), with the role-based access-control law.
- `proxy`: the backend URL of a request.
- `errors`: the gateway's errors and the HTTP status and text of each.

`app/` is the server around it: YAML and environment loading, the axum
router and middleware, JWT decoding with `jsonwebtoken`, and the reqwest
reverse proxy.
