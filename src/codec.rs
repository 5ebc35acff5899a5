//! The per-file steps of compression and restore: where the output goes and
//! what bytes it holds.
use vstd::prelude::*;

use crate::errors::BackupError;
use crate::paths::{
    codec_extension, compressed_path, compressed_target, extended, lemma_restore_inverts_compress,
    restored_path, restored_target, FilePath,
};

verus! {

/// The zstd level every artifact is compressed at: balanced speed and ratio.
pub const COMPRESSION_LEVEL: i32 = 3;

/// The largest input that `compress_file` takes: zstd's output buffer, a
/// little larger than the input, must still fit in memory.
pub const MAX_INPUT_LEN: u64 = 0x7F00_0000_0000_0000;

/// The single zstd frame that holds `data` encoded at `level`.
pub uninterp spec fn zstd_compressed(data: Seq<u8>, level: int) -> Seq<u8>;

/// The bytes that the zstd frames in `frame` decode to, or `None` when they
/// are not valid zstd data.
pub uninterp spec fn zstd_decoded(frame: Seq<u8>) -> Option<Seq<u8>>;

/// What the headers of the zstd frames in `frame` declare of the decoded
/// size: `None` when they cannot be read, `Some(None)` when a frame leaves
/// its size out, else `Some(Some(total))`.
pub uninterp spec fn zstd_content_size(frame: Seq<u8>) -> Option<Option<u64>>;

/// Relies on `zstd::bulk::compress`: one frame of `data` at `level`, written
/// into a buffer of `ZSTD_compressBound` bytes, in which one-shot compression
/// always succeeds; the frame decodes back to `data` and its header records
/// the content size, as one-shot compression knows it. The bound on the
/// length keeps that buffer's size within what a `Vec` can hold.
#[verifier::external_body]
fn zstd_compress(data: &[u8], level: i32) -> (r: Option<Vec<u8>>)
    requires
        data@.len() <= MAX_INPUT_LEN,
    ensures
        r is Some,
        r->Some_0@ == zstd_compressed(data@, level as int),
        zstd_decoded(r->Some_0@) == Some(data@),
        zstd_content_size(r->Some_0@) == Some(Some(data@.len() as u64)),
{
    zstd::bulk::compress(data, level).ok()
}

/// Relies on `zstd::stream::decode_all`: the decoded bytes of every frame in
/// `frame`, or an error when the stream is not valid zstd data.
#[verifier::external_body]
fn zstd_decode(frame: &[u8]) -> (r: Option<Vec<u8>>)
    ensures
        match r {
            Some(v) => zstd_decoded(frame@) == Some(v@),
            None => zstd_decoded(frame@) is None,
        },
{
    zstd::stream::decode_all(frame).ok()
}

/// Relies on `zstd_safe::find_decompressed_size`: the decoded size that the
/// frame headers declare (`Ok(None)` when one leaves it out), or an error
/// when they cannot be read.
#[verifier::external_body]
fn zstd_declared_size(frame: &[u8]) -> (r: Option<Option<u64>>)
    ensures
        r == zstd_content_size(frame@),
{
    zstd_safe::find_decompressed_size(frame).ok()
}

/// A file to write: its path relative to an output root, and its bytes.
pub struct OutputFile {
    pub path: FilePath,
    pub bytes: Vec<u8>,
}

/// Compresses one source file: `source_name` names the source root, `rel` is
/// the file's path below it, `data` its bytes. The artifact goes to
/// `compressed_target(source_name, rel)` below the destination root; its bytes
/// decode back to `data` and declare `data`'s length. Fails with `Path` when
/// `rel` is empty and with `Codec` when `data` is longer than `MAX_INPUT_LEN`.
pub fn compress_file(source_name: &String, rel: &FilePath, data: &[u8]) -> (r: Result<
    OutputFile,
    BackupError,
>)
    ensures
        rel@.len() == 0 ==> (r matches Err(e) && e == BackupError::Path),
        rel@.len() > 0 && data@.len() > MAX_INPUT_LEN ==> (r matches Err(e) && e
            == BackupError::Codec),
        rel@.len() > 0 && data@.len() <= MAX_INPUT_LEN ==> (r matches Ok(out) && out.path@
            == compressed_target(source_name@, rel@) && out.bytes@ == zstd_compressed(
            data@,
            COMPRESSION_LEVEL as int,
        ) && zstd_decoded(out.bytes@) == Some(data@) && zstd_content_size(out.bytes@) == Some(
            Some(data@.len() as u64),
        )),
{
    if rel.parts.len() == 0 {
        return Err(BackupError::Path);
    }
    if data.len() as u64 > MAX_INPUT_LEN {
        return Err(BackupError::Codec);
    }
    match zstd_compress(data, COMPRESSION_LEVEL) {
        Some(bytes) => Ok(OutputFile { path: compressed_path(source_name, rel), bytes }),
        None => Err(BackupError::Codec),
    }
}

/// What restoring the artifact at `rel` below the compressed tree `source_name`
/// with bytes `frame` gives: the restored path and bytes, or `None` when the
/// name lacks the codec suffix or the bytes do not decode.
pub open spec fn restore_outcome(source_name: Seq<char>, rel: Seq<Seq<char>>, frame: Seq<u8>) -> Option<
    (Seq<Seq<char>>, Seq<u8>),
> {
    match restored_target(source_name, rel) {
        Some(p) => match zstd_decoded(frame) {
            Some(b) => Some((p, b)),
            None => None,
        },
        None => None,
    }
}

/// Restores one artifact: `source_name` names the compressed tree's root,
/// `rel` is the artifact's path below it, `frame` its bytes. The file goes to
/// `restored_target(source_name, rel)` below the restore root. Fails with
/// `Codec` when the name lacks the codec suffix or the bytes do not decode.
pub fn decompress_file(source_name: &String, rel: &FilePath, frame: &[u8]) -> (r: Result<
    OutputFile,
    BackupError,
>)
    ensures
        match restore_outcome(source_name@, rel@, frame@) {
            Some((p, b)) => r matches Ok(out) && out.path@ == p && out.bytes@ == b,
            None => r matches Err(e) && e == BackupError::Codec,
        },
{
    match restored_path(source_name, rel) {
        Ok(path) => match zstd_decode(frame) {
            Some(bytes) => Ok(OutputFile { path, bytes }),
            None => Err(BackupError::Codec),
        },
        Err(e) => Err(e),
    }
}

/// Restoring what compression wrote gives the source file back: for a file
/// at `rel` (with a non-empty name) whose artifact `compress_file` wrote at
/// `artifact` with bytes `frame`, restoring the artifact from its path below
/// the destination root yields `rel` below the source root's name, with the
/// source's bytes.
pub proof fn lemma_round_trip(
    source_name: Seq<char>,
    rel: Seq<Seq<char>>,
    data: Seq<u8>,
    artifact: Seq<Seq<char>>,
    frame: Seq<u8>,
)
    requires
        rel.len() > 0,
        rel.last().len() > 0,
        artifact == compressed_target(source_name, rel),
        zstd_decoded(frame) == Some(data),
    ensures
        restore_outcome(source_name, artifact.drop_first(), frame) == Some(
            (seq![source_name] + rel, data),
        ),
{
    lemma_restore_inverts_compress(source_name, rel);
    assert(artifact.drop_first() =~= extended(rel, codec_extension()));
}

/// The declared decoded size read from a compressed artifact's frame headers;
/// fails with `Codec` when they cannot be read.
pub fn declared_size(frame: &[u8]) -> (r: Result<Option<u64>, BackupError>)
    ensures
        match zstd_content_size(frame@) {
            Some(s) => r == Ok::<Option<u64>, BackupError>(s),
            None => r == Err::<Option<u64>, BackupError>(BackupError::Codec),
        },
{
    match zstd_declared_size(frame) {
        Some(s) => Ok(s),
        None => Err(BackupError::Codec),
    }
}

/// Which transform a progress event reports.
#[derive(Debug, Clone, Copy, PartialEq, Eq, Structural)]
pub enum Step {
    Compressed,
    Decompressed,
}

/// The tag that opens a progress message for `step`.
pub open spec fn step_tag(step: Step) -> Seq<char> {
    match step {
        Step::Compressed => seq![
            '[', 'c', 'o', 'm', 'p', 'r', 'e', 's', 's', 'e', 'd', ']', ' ',
        ],
        Step::Decompressed => seq![
            '[', 'd', 'e', 'c', 'o', 'm', 'p', 'r', 'e', 's', 's', 'e', 'd', ']', ' ',
        ],
    }
}

/// A progress event, one per file transformed.
pub struct Payload {
    pub message: String,
}

impl Payload {
    /// The event for a file written at the path spelled `path_text`:
    /// `[compressed] <path>` or `[decompressed] <path>`.
    pub fn progress(step: Step, path_text: &str) -> (r: Payload)
        ensures
            r.message@ == step_tag(step) + path_text@,
    {
        let mut message = match step {
            Step::Compressed => {
                proof {
                    reveal_strlit("[compressed] ");
                }
                String::from_str("[compressed] ")
            },
            Step::Decompressed => {
                proof {
                    reveal_strlit("[decompressed] ");
                }
                String::from_str("[decompressed] ")
            },
        };
        message.append(path_text);
        Payload { message }
    }
}

} // verus!
