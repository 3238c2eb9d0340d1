//! A netcat-like coupler for WebSocket and byte-stream endpoints: the
//! endpoint description language, its lints, and the decision logic of a
//! forwarding session.

pub mod read_debt;
pub mod specifier;
pub mod parse;
pub mod options;
pub mod lints;
pub mod session;
pub mod serve;
pub mod ws;
pub mod mirror;
