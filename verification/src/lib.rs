//! The rules of an edge proxy that keeps automated traffic away from a site: what a request
//! reveals of its client, what that is worth in points, and what the client gets to see.
//!
//! Requests are normalized (`normalizer`), their clients fingerprinted (`tls_fp`, `client_hello`,
//! `http2_fp`, `session`) and placed (`ip_intel`), their rates limited (`ratelimit`), and all
//! signals weighed (`scorer`). The pipeline (`middleware`) leads from an address to a response
//! (`proxy`). Sockets, stores and services stay outside.
pub mod assets;
pub mod bindings;
pub mod client_hello;
pub mod config;
pub mod http2_fp;
pub mod ip_intel;
pub mod laws;
pub mod middleware;
pub mod normalizer;
pub mod platform;
pub mod proxy;
pub mod ratelimit;
pub mod scorer;
pub mod session;
pub mod text;
pub mod tls_fp;
