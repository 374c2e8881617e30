//! Verified core of a single-shot token-transfer command-line tool.
//!
//! The library has two parts. The validation module turns untrusted
//! amount/token and address strings into a well-formed transaction request,
//! rejecting malformed input with a specific error. The orchestrator module
//! is a state machine that decides, step by step, what the surrounding
//! program must do next (resolve the wallet credential, connect, query
//! balances, derive the wallet, broadcast) and classifies the chain's
//! receipt as success or failure. All network and file work happens outside
//! the library; the library only makes the decisions.

pub mod orchestrator;
pub mod validation;
