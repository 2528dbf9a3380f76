//! Request gateway core: the stages that stand between untrusted clients
//! and a backend service, with the fixed-window rate limiter and tiered cache
//! they rely on and the token lifecycle that guards them.

pub mod auth;
pub mod cache;
pub mod clock;
pub mod ident;
pub mod json;
pub mod pattern;
pub mod pipeline;
pub mod proxy;
pub mod rate_limit;
pub mod security;
pub mod strmap;
pub mod text;
pub mod validation;
