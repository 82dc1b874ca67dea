//! Transactions: the immutable records that make up the store's chain.

use vstd::prelude::*;

use crate::id::Id;
use crate::package::Package;
use crate::store::content::Content;

verus! {

/// What a transaction records.
#[derive(Debug, Clone)]
pub enum TransactionKind {
    InstallPackage { package_id: Id, content: Vec<Content> },
    RemovePackage { package_id: Id },
    AddRepository { name: String, version: String, git_remote: String, packages: Vec<Package> },
    RemoveRepository { name: String },
}

/// One link of the chain: what happened, the digest of the transaction
/// before it, and when (Unix seconds).
#[derive(Debug, Clone)]
pub struct Transaction {
    pub kind: TransactionKind,
    pub before: Option<String>,
    pub created_at: u64,
}

impl Transaction {
    /// A transaction made at `created_at`, not yet linked to a predecessor.
    pub fn new(kind: TransactionKind, created_at: u64) -> (r: Transaction)
        ensures
            r == (Transaction { kind, before: None, created_at }),
    {
        Transaction { kind, before: None, created_at }
    }

    /// The same transaction, following the one whose digest is `before`.
    pub fn with_before(self, before: String) -> (r: Transaction)
        ensures
            r == (Transaction { before: Some(before), ..self }),
    {
        let mut tx = self;
        tx.before = Some(before);
        tx
    }
}

} // verus!
