//! Named secrets kept in a plain-text document, each sealed with
//! ChaCha20-Poly1305 and stored as a pair of base64 strings.
pub mod codec;
pub mod command;
pub mod cryptography;
pub mod document;
pub mod error;
pub mod load;
pub mod order;
pub mod secret;
pub mod store;
