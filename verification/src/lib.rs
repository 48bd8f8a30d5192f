pub mod cbor;
pub mod crypto;
pub mod error;
pub mod exchange;
pub mod handlers;
pub mod json;
pub mod mail;
pub mod models;
pub mod outside;
pub mod security_headers;
pub mod sorting;
pub mod store;
pub mod text;
pub mod webauthn;
pub mod yubico;
