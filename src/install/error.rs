//! The ways an installation fails.

use vstd::prelude::*;

use crate::pkgscript::ScriptError;

verus! {

/// Why an installation stopped.
#[derive(Debug)]
pub enum InstallError {
    /// The manifest lists no sources for the target `os`.`arch`.
    NoSourcesForTarget { os: String, arch: String },
    /// A source URL does not parse.
    InvalidUrl { url: String },
    /// A source URL names no file.
    MissingFilename { url: String },
    /// A source URL uses plain `http`.
    UnsafeScheme { url: String },
    /// A source URL uses a scheme other than `https`.
    UnsupportedScheme { scheme: String },
    /// A downloaded source does not have the digest that the manifest lists.
    ChecksumMismatch { url: String, expected: String, actual: String },
    /// The install script does not parse.
    ScriptSyntax { error: ScriptError },
    /// A glob of a `PACKAGE` instruction is not a valid pattern.
    InvalidPattern { pattern: String },
    /// A glob of a `PACKAGE` instruction matches no file.
    NoMatch { pattern: String },
    /// The file that a `PACKAGE` instruction names is absent or unnamed.
    MissingSource { path: String },
    /// A `PUBLISH` target is more than one path component.
    InvalidPublishTarget { target: String },
    /// A `PUBLISH` target names no packaged file.
    PublishOfUnpackaged { target: String },
}

} // verus!
