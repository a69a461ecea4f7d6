pub mod auth;
pub mod crypto;
pub mod envelope;
pub mod ipfs;
pub mod json;
pub mod pubkeys;
pub mod registry;
pub mod session;
pub mod table;
pub mod text;
