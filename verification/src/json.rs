//! The JSON wire codec for the broadcast engine.
//!
//! The wire protocol carries two shapes of UTF-8 text:
//! * the **untagged** snapshot object `{"assets":[...]}` pushed once to a
//!   newly connected reader or writer, and
//! * the **tagged** delta union `{"New":{...}}`, `{"Update":{...}}`,
//!   `{"Delete":"..."}` submitted by writers and relayed to readers.
//!
//! `grammar` states the codec mathematically, `emit` and `read` are the
//! verified serializer and parser, and `laws` proves that parsing inverts
//! serialization.

pub mod emit;
pub mod grammar;
pub mod laws;
pub mod read;
