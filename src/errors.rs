//! The library's error kinds.
use vstd::prelude::*;

verus! {

/// What made an operation fail.
#[derive(Debug, Clone, Copy, PartialEq, Eq, Structural)]
pub enum BackupError {
    /// A file or directory could not be opened, created, read or written.
    Io,
    /// A path lacks a component it needs (a file name, a parent).
    Path,
    /// The persisted registry could not be read as a registry.
    Format,
    /// A timestamp does not have the form `YYYY-MM-DDTHH:MM:SSZ`, or is out of range.
    TimeParse,
    /// No registry entry has the identifier asked for.
    NotFound,
    /// A compressed stream could not be encoded or decoded, or a file name
    /// lacks the codec suffix.
    Codec,
}

/// A directory tree could not be read; holds the reason as text.
#[derive(Debug)]
pub enum DirectoryReadError {
    Io(String),
}

/// The text that precedes the reason in a directory read error's description.
pub open spec fn read_error_lead() -> Seq<char> {
    seq!['F', 'a', 'i', 'l', 'e', 'd', ' ', 't', 'o', ' ', 'r', 'e', 'a', 'd', ' ', 'f', 'i', 'l', 'e', 's', ':', ' ']
}

impl DirectoryReadError {
    /// The error described in words: `Failed to read files: <reason>`.
    pub fn describe(&self) -> (r: String)
        ensures
            match self {
                DirectoryReadError::Io(reason) => r@ == read_error_lead() + reason@,
            },
    {
        match self {
            DirectoryReadError::Io(reason) => {
                let mut r = String::from_str("Failed to read files: ");
                proof {
                    reveal_strlit("Failed to read files: ");
                }
                r.append(reason.as_str());
                r
            }
        }
    }
}

/// The name under which a kind of error is reported.
pub open spec fn kind_text(e: BackupError) -> Seq<char> {
    match e {
        BackupError::Io => seq!['I', 'O', 'E', 'r', 'r', 'o', 'r'],
        BackupError::Path => seq!['P', 'a', 't', 'h', 'E', 'r', 'r', 'o', 'r'],
        BackupError::Format => seq!['F', 'o', 'r', 'm', 'a', 't', 'E', 'r', 'r', 'o', 'r'],
        BackupError::TimeParse => seq![
            'T', 'i', 'm', 'e', 'P', 'a', 'r', 's', 'e', 'E', 'r', 'r', 'o', 'r',
        ],
        BackupError::NotFound => seq!['N', 'o', 't', 'F', 'o', 'u', 'n', 'd', 'E', 'r', 'r', 'o', 'r'],
        BackupError::Codec => seq!['C', 'o', 'd', 'e', 'c', 'E', 'r', 'r', 'o', 'r'],
    }
}

impl BackupError {
    /// The kind's name, as a caller would report it.
    pub fn kind_name(&self) -> (r: &'static str)
        ensures
            r@ == kind_text(*self),
    {
        match self {
            BackupError::Io => {
                proof { reveal_strlit("IOError"); }
                "IOError"
            }
            BackupError::Path => {
                proof { reveal_strlit("PathError"); }
                "PathError"
            }
            BackupError::Format => {
                proof { reveal_strlit("FormatError"); }
                "FormatError"
            }
            BackupError::TimeParse => {
                proof { reveal_strlit("TimeParseError"); }
                "TimeParseError"
            }
            BackupError::NotFound => {
                proof { reveal_strlit("NotFoundError"); }
                "NotFoundError"
            }
            BackupError::Codec => {
                proof { reveal_strlit("CodecError"); }
                "CodecError"
            }
        }
    }
}

} // verus!
