//! The rules that decide, file by file, whether an incremental run must
//! compress a source file again.
use vstd::prelude::*;

use crate::codec::{declared_size, zstd_content_size};
use crate::errors::BackupError;
use crate::time::{is_later, later, UtcTime};

verus! {

/// What is known of a source file's compressed artifact at the start of a run.
pub enum ArtifactState {
    /// No artifact exists at the mapped destination path.
    Missing,
    /// The artifact exists: when it was last modified, and its bytes.
    Present { modified: UtcTime, frame: Vec<u8> },
}

/// Why a file is compressed again, or that it is not.
#[derive(Debug, Clone, Copy, PartialEq, Eq, Structural)]
pub enum Staleness {
    /// The artifact does not exist.
    Missing,
    /// The artifact was modified after the last backup.
    TouchedAfterCutoff,
    /// The artifact declares a decoded size other than the source's length.
    SizeChanged,
    /// The artifact stands as it is.
    Current,
}

impl Staleness {
    /// Whether the verdict sends the file to be compressed again.
    pub open spec fn stale(self) -> bool {
        self != Staleness::Current
    }

    /// Whether the file must be compressed again.
    pub fn is_stale(&self) -> (r: bool)
        ensures
            r == self.stale(),
    {
        match self {
            Staleness::Current => false,
            _ => true,
        }
    }
}

/// The verdict on an artifact that exists and was not modified after the
/// cutoff, from the decoded size its headers declare: unknown sizes leave the
/// artifact as it is.
///
/// The size stands in for the content: an edit that keeps the source's
/// length the same is not detected, and such a file is left as it is until
/// its artifact is touched or its length changes.
pub open spec fn size_verdict(declared: Option<u64>, source_len: u64) -> Staleness {
    match declared {
        Some(n) => if n != source_len {
            Staleness::SizeChanged
        } else {
            Staleness::Current
        },
        None => Staleness::Current,
    }
}

/// The verdict on a source file of `source_len` bytes whose artifact is in
/// `artifact`, for a last backup at `cutoff`; the first rule that matches
/// decides.
pub open spec fn verdict(artifact: ArtifactState, source_len: u64, cutoff: UtcTime) -> Result<
    Staleness,
    BackupError,
> {
    match artifact {
        ArtifactState::Missing => Ok(Staleness::Missing),
        ArtifactState::Present { modified, frame } => if later(modified, cutoff) {
            Ok(Staleness::TouchedAfterCutoff)
        } else {
            match zstd_content_size(frame@) {
                Some(declared) => Ok(size_verdict(declared, source_len)),
                None => Err(BackupError::Codec),
            }
        },
    }
}

/// The verdict from the decoded size that an artifact's headers declare.
pub fn judge_size(declared: Option<u64>, source_len: u64) -> (r: Staleness)
    ensures
        r == size_verdict(declared, source_len),
{
    match declared {
        Some(n) => if n != source_len {
            Staleness::SizeChanged
        } else {
            Staleness::Current
        },
        None => Staleness::Current,
    }
}

/// Decides whether a source file of `source_len` bytes must be compressed
/// again, given its artifact and the instant of the last backup. Content is
/// judged by length alone (see `size_verdict`): a same-length edit goes
/// undetected. Fails with
/// `Codec` when the artifact has to be measured and its headers cannot be read.
pub fn needs_backup(artifact: &ArtifactState, source_len: u64, cutoff: &UtcTime) -> (r: Result<
    Staleness,
    BackupError,
>)
    ensures
        r == verdict(*artifact, source_len, *cutoff),
{
    match artifact {
        ArtifactState::Missing => Ok(Staleness::Missing),
        ArtifactState::Present { modified, frame } => {
            if is_later(modified, cutoff) {
                Ok(Staleness::TouchedAfterCutoff)
            } else {
                match declared_size(frame.as_slice()) {
                    Ok(declared) => Ok(judge_size(declared, source_len)),
                    Err(e) => Err(e),
                }
            }
        },
    }
}

/// An artifact that exists, was not modified after the cutoff, and declares
/// the source's length as its decoded size is left as it is; once the
/// source's length changes, the file is compressed again.
pub proof fn lemma_incremental_selection(
    modified: UtcTime,
    frame: Vec<u8>,
    cutoff: UtcTime,
    source_len: u64,
    new_len: u64,
)
    requires
        !later(modified, cutoff),
        zstd_content_size(frame@) == Some(Some(source_len)),
    ensures
        verdict(ArtifactState::Present { modified, frame }, source_len, cutoff) == Ok::<
            Staleness,
            BackupError,
        >(Staleness::Current),
        new_len != source_len ==> verdict(
            ArtifactState::Present { modified, frame },
            new_len,
            cutoff,
        ) == Ok::<Staleness, BackupError>(Staleness::SizeChanged),
{
}

} // verus!
