//! The transactional store: an append-only chain of transactions, each
//! named by the SHA-256 digest of its bytes, and the views derived from it.

pub mod content;
pub mod transaction;
pub mod query;
pub mod storage;
pub mod gc;

pub use content::{Content, ContentType};
pub use query::{
    InstalledScan, PackageLookup, PackageMeta, RepositoryLookup, RepositoryMeta, RepositoryScan,
};
pub use storage::{Storage, Store, StoreError, Walk};
pub use transaction::{Transaction, TransactionKind};
