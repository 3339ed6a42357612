//! Typed bindings for a msgpack-style RPC API.
//!
//! The crate has two halves. The generation half reads a structured API
//! description (functions, parameters, return types, handle-type prefixes)
//! and emits one call-stub declaration per retained function. The runtime
//! half marshals values between the untyped, self-describing wire
//! representation and native typed values, and classifies RPC failures.

pub mod api;
pub mod emit;
pub mod invoke;
pub mod marshal;
pub mod parse;
pub mod strutil;
pub mod types;
pub mod value;
