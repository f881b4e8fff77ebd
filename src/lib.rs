//! A bounded directory scanner and the state of the browser that drives it.
pub mod filter;
pub mod scan;
pub mod session;
