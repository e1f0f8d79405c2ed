//! An account service core: validated creation, lookup by identifier or
//! email, update, deletion, bulk listing, and credential verification over a
//! document-style account store, with every persistence outcome mapped
//! deterministically to a caller-visible result.
//!
//! The store enforces no policy of its own beyond identifier uniqueness; the
//! service layer rejects empty input, enforces email uniqueness before a
//! create, hashes credentials one-way before they are stored, and maps each
//! outcome through one shared status table.
pub mod crypto;
pub mod errors;
pub mod ids;
pub mod laws;
pub mod model;
pub mod service;
pub mod store;
