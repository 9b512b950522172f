//! Schema-versioned save-state migration with referential integrity.
//!
//! A persisted snapshot of game records is decoded from a tagged JSON
//! envelope, upgraded one schema version at a time to the latest shape,
//! and re-encoded. Record identifiers are opaque (index, generation)
//! handles that every upgrade copies verbatim, so references between
//! records survive migration unchanged.

pub mod codec;
pub mod decode;
pub mod engine;
pub mod errors;
pub mod ident;
pub mod schema;
