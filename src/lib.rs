//! Decision logic of a proof-of-work mining agent: round timing, the
//! per-worker nonce search, the reduction of worker results, reward-bus
//! selection and the bounded submission retry protocol.

pub mod bus;
pub mod round;
pub mod search;
pub mod timing;
