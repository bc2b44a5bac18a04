//! A URL-shortening redirector's core: a key derived from the target URL is
//! written out as a two-symbol token, the URL is sealed under that key, and the
//! sealed envelope is filed under a hash of the key.
pub mod bindings;
pub mod codec;
pub mod envelope;
pub mod link;
pub mod obfuscate;
pub mod route;

pub use codec::{bytes_to_c_string, c_string_to_bytes};
