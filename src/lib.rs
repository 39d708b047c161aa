//! A shared pixel canvas: colour codes, rate-limit identities, the rate
//! limiter, the board's byte formats and the placement decision.
pub mod board;
pub mod identity;
pub mod pixels;
pub mod placement;
pub mod rate_limit;
