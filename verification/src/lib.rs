//! A verifiable data commitment engine.
//!
//! The library maintains a cryptographic commitment (a 32-byte root) over the
//! multiset of rows a relational service stores: canonical hashing of keys and
//! row values, a sparse Merkle tree over those digests, a pure proof verifier,
//! a verifiable batch write path, a dual-root commitment manager, and a
//! rebuild path that realigns the commitment with authoritative row state.

pub mod digest;
pub mod engine;
pub mod hashing;
pub mod json;
pub mod model;
pub mod root_manager;
pub mod schema;
pub mod smt;
pub mod verify;

pub use digest::Digest;
pub use digest::DIGEST_LEN;
pub use engine::EngineError;
pub use engine::rebuild_smt;
pub use engine::write_batch;
pub use hashing::hash_key;
pub use hashing::hash_value;
pub use json::JsonValue;
pub use model::DynamicModel;
pub use model::ProductModel;
pub use model::UserModel;
pub use model::VerifiableModel;
pub use model::WidgetModel;
pub use root_manager::RootManager;
pub use smt::SmtStore;
pub use verify::verify_smt_multi_update_proof_with_old_values;
pub use verify::verify_smt_proof;
