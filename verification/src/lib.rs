//! The decisions of a minimal container runtime, verified: image-reference
//! parsing, the registry authentication dance, manifest and token handling,
//! the ordered layer pull, the launch plan for the isolated root, and exit
//! code propagation. A thin unverified driver performs the HTTP requests,
//! the archive extraction and the privileged re-rooting that the machine in
//! `pull` and the plan in `launch` ask for.

use vstd::prelude::*;

pub mod challenge;
pub mod json;
pub mod launch;
pub mod manifest;
pub mod pull;
pub mod reference;
pub mod strutil;

verus! {

/// The errors this library reports, one variant per failure class of a pull
/// and launch run.
#[derive(Clone, Copy, Debug, PartialEq, Eq)]
pub enum PullError {
    ReferenceParse,
    Network,
    AuthChallenge,
    ManifestParse,
    BlobDownload,
    Extraction,
    FilesystemSetup,
    ChildSpawn,
}

} // verus!
