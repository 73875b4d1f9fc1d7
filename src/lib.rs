//! Request-handling core of a URL shortener: identifier generation, the
//! API-key guard, the handlers' decisions and an in-memory link repository.
pub mod auth;
pub mod encoding;
pub mod repository;
pub mod routes;
pub mod utils;
