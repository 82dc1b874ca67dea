//! The installation pipeline: FetchSources, EvalPkgscript, Package and
//! Publish, in that order, up to a chosen stage.
//!
//! The library decides; the caller performs the downloads, file reads and
//! writes that each decision names, and hands the results back.

pub mod download;
pub mod error;
pub mod eval;
pub mod event;
pub mod stage;

pub use download::{parse_compression_format, CompressionFormat, DownloadPlan};
pub use error::InstallError;
pub use eval::{BlobCopy, ContentMap, LinkPlan, SourceRef};
pub use event::{Event, MessageType};
pub use stage::{InstallOpts, InstallResult, Pipeline, Stage, Step};
