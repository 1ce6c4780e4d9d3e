//! One-time access tokens with a per-identity replay guard, and the bearer
//! binding check that rides on top of them.

pub mod auth;
pub mod clock;
pub mod decimal;
pub mod digest;
pub mod preimage;
pub mod replay;
pub mod requests;
pub mod token;
