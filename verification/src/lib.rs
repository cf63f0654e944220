//! A typed RPC client library: a schema model for wire types, a heuristic
//! function-to-endpoint resolver, a type mapper that renders schema trees as
//! source text, and a pure dispatcher core that plans HTTP calls and
//! interprets their responses.

pub mod client;
pub mod codec;
pub mod codegen;
pub mod json;
pub mod server;
pub mod text;
pub mod typemap;
pub mod types;
