//! The byte level of the store: transaction files named by their digest,
//! the `root` pointer, and the walk along the chain.

use vstd::prelude::*;

use crate::digest::{hex_of, sha256_of, sha256sum};
use crate::store::transaction::Transaction;
use crate::text::same_text;

verus! {

/// A transaction file whose bytes do not hash to its name.
#[derive(Debug)]
pub enum StoreError {
    Corruption { expected: String, got: String },
}

/// A file to be written: its path and its bytes.
pub struct FileWrite {
    pub path: String,
    pub contents: Vec<u8>,
}

/// What appending a transaction writes, in the order it must be written.
pub struct Append {
    pub digest: String,
    pub writes: Vec<FileWrite>,
}

/// The digest that names a transaction file with the bytes `b`.
pub open spec fn digest_of(b: Seq<u8>) -> Seq<char> {
    hex_of(sha256_of(b))
}

/// The file named `name` holds `bytes` as the store requires: its name is
/// the digest of its bytes.
pub open spec fn names_its_bytes(name: Seq<char>, bytes: Seq<u8>) -> bool {
    name == digest_of(bytes)
}

/// The directory `root/store/` that holds the chain.
pub struct Storage {
    root_dir: String,
}

impl Storage {
    pub closed spec fn dir(&self) -> Seq<char> {
        self.root_dir@
    }

    pub fn new(root_dir: String) -> (r: Storage)
        ensures
            r.dir() == root_dir@,
    {
        Storage { root_dir }
    }

    /// The file that names the newest transaction.
    pub fn root_file(&self) -> (r: String)
        ensures
            r@ == self.dir() + "/root"@,
    {
        self.root_dir.clone().concat("/root")
    }

    /// The file of the transaction named `digest`.
    pub fn tx_file(&self, digest: &str) -> (r: String)
        ensures
            r@ == self.dir() + "/"@ + digest@,
    {
        self.root_dir.clone().concat("/").concat(digest)
    }

    /// Checks that the bytes read from the file named `digest` hash to it.
    pub fn check(&self, digest: &str, bytes: &[u8]) -> (r: Result<(), StoreError>)
        ensures
            r is Ok <==> names_its_bytes(digest@, bytes@),
            r matches Err(StoreError::Corruption { expected, got }) ==> expected@ == digest@
                && got@ == digest_of(bytes@),
    {
        let actual = sha256sum(bytes);
        if same_text(actual.as_str(), digest) {
            Ok(())
        } else {
            Err(StoreError::Corruption { expected: digest.to_owned(), got: actual })
        }
    }

    /// The writes that append the transaction encoded as `bytes`: first its
    /// file, named by its digest, then the root pointer naming that digest.
    pub fn add(&self, bytes: Vec<u8>) -> (r: Append)
        ensures
            r.digest@ == digest_of(bytes@),
            names_its_bytes(r.digest@, r.writes@[0].contents@),
            r.writes@.len() == 2,
            r.writes@[0].path@ == self.dir() + "/"@ + r.digest@,
            r.writes@[0].contents == bytes,
            r.writes@[1].path@ == self.dir() + "/root"@,
            r.writes@[1].contents@ == vstd::utf8::encode_utf8(r.digest@),
    {
        let digest = sha256sum(bytes.as_slice());
        let file = FileWrite { path: self.tx_file(digest.as_str()), contents: bytes };
        let pointer = FileWrite { path: self.root_file(), contents: digest.as_str().as_bytes_vec() };
        let mut writes: Vec<FileWrite> = Vec::new();
        writes.push(file);
        writes.push(pointer);
        Append { digest, writes }
    }
}

/// A walk along the chain, from the newest transaction back.
pub struct Walk {
    next: Option<String>,
}

impl Walk {
    /// The digest of the transaction to read next, if any.
    pub closed spec fn next(&self) -> Option<Seq<char>> {
        match self.next {
            Some(d) => Some(d@),
            None => None,
        }
    }

    /// A walk from the transaction that the root pointer names.
    pub fn start(root: Option<String>) -> (r: Walk)
        ensures
            r.next() == match root {
                Some(d) => Some(d@),
                None => None::<Seq<char>>,
            },
    {
        Walk { next: root }
    }

    /// The digest of the transaction to read next, if any.
    pub fn pending(&self) -> (r: Option<&String>)
        ensures
            match r {
                Some(d) => self.next() == Some(d@),
                None => self.next() is None,
            },
    {
        match &self.next {
            Some(d) => Some(d),
            None => None,
        }
    }

    /// Moves on from the transaction `tx` just read to the one before it.
    pub fn advance(&mut self, tx: &Transaction)
        ensures
            final(self).next() == match tx.before {
                Some(d) => Some(d@),
                None => None::<Seq<char>>,
            },
    {
        self.next = match &tx.before {
            Some(d) => Some(d.clone()),
            None => None,
        };
    }
}

/// The semantic layer over a `Storage`.
pub struct Store {
    storage: Storage,
}

impl Store {
    pub fn new(storage: Storage) -> (r: Store)
        ensures
            r.storage() == storage,
    {
        Store { storage }
    }

    pub closed spec fn storage(&self) -> Storage {
        self.storage
    }

    /// The storage under this store.
    pub fn storage_ref(&self) -> (r: &Storage)
        ensures
            *r == self.storage(),
    {
        &self.storage
    }

    /// The transaction `tx` made to follow the current newest one, `root`.
    pub fn link(&self, tx: Transaction, root: Option<String>) -> (r: Transaction)
        ensures
            r.kind == tx.kind,
            r.created_at == tx.created_at,
            r.before == match root {
                Some(h) => Some(h),
                None => tx.before,
            },
    {
        match root {
            Some(h) => tx.with_before(h),
            None => tx,
        }
    }
}

} // verus!
