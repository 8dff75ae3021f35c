//! Verified core of a flight-fare alert service: integer and hex decoding of
//! configuration values, JWT issuing and checking, password handling for the
//! auth service, the request rate limiter, and the decisions of the tracking,
//! price-receiving and notification services.
pub mod decimal;
pub mod error;
pub mod keys;
pub mod jwt;
pub mod services;
pub mod gateway;
pub mod auth;
pub mod rate_limit;
pub mod streams;
