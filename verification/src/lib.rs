//! A small API gateway: routing by longest path prefix, bearer-token
//! authentication (API keys and JWTs), role checks, and the mapping of
//! gateway errors to HTTP answers. This crate holds the gateway's decisions;
//! the server around it feeds them requests and sends back what they decide.

pub mod byte_seq;
pub mod config;
pub mod errors;
pub mod features;
pub mod middleware;
pub mod proxy;
pub mod utils;
