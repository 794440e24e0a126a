//! Outcomes and errors of an approval round-trip.
use vstd::prelude::*;

use std::io::Error as IoError;
use std::path::PathBuf;

verus! {

/// A filesystem path, carried through opaquely.
#[verifier::external_type_specification]
#[verifier::external_body]
pub struct ExPathBuf(std::path::PathBuf);

/// An I/O error, carried through opaquely.
#[verifier::external_type_specification]
#[verifier::external_body]
pub struct ExIoError(std::io::Error);

/// Result of a stdin-mode approval round-trip.
#[derive(Debug)]
pub enum Outcome {
    /// User saved with non-empty content above the scissors line.
    Approved(String),
    /// User emptied the content above the scissors line. The draft file is
    /// preserved so the user can recover it.
    Aborted { draft_path: PathBuf },
}

/// Errors of a stdin-mode approval. The failure cases preserve the draft
/// file and report its path so the user can recover their work.
#[derive(Debug)]
pub enum ScissorsError {
    /// No editor could be started.
    NoEditor,
    /// The editor exited with a non-zero code.
    EditorFailed { code: i32, draft_path: PathBuf },
    /// The editor returned quickly without changes; it likely never opened.
    SilentFailure { elapsed_ms: u32, draft_path: PathBuf },
    /// A tempfile, read or write failure, or an editor command that cannot
    /// be split into words.
    Io(IoError),
}

/// Outcome of an in-place file approval. The approved content is in the
/// file itself; on abort the file is left untouched.
#[derive(Debug)]
pub enum FileOutcome {
    Approved,
    Aborted,
}

/// Errors of an in-place file approval. On every error the target file is
/// left exactly as it was.
#[derive(Debug)]
pub enum FileError {
    NoEditor,
    Read { path: PathBuf, source: IoError },
    MarkerInInput { path: PathBuf, line: usize },
    Prepare { dir: PathBuf, source: IoError },
    EditorFailed { code: i32 },
    SilentFailure { elapsed_ms: u32 },
    Persist { target: PathBuf, sidecar: PathBuf, source: IoError },
    Io(IoError),
}

/// The file-mode error that a stdin-mode error becomes: the same variant,
/// without the stdin-only draft path.
pub open spec fn file_error_of(e: ScissorsError) -> FileError {
    match e {
        ScissorsError::NoEditor => FileError::NoEditor,
        ScissorsError::Io(io) => FileError::Io(io),
        ScissorsError::EditorFailed { code, .. } => FileError::EditorFailed { code },
        ScissorsError::SilentFailure { elapsed_ms, .. } => FileError::SilentFailure { elapsed_ms },
    }
}

/// Total, lossless conversion of a stdin-mode editor error onto the
/// file-mode surface. The stdin-only `draft_path` is dropped.
impl From<ScissorsError> for FileError {
    fn from(e: ScissorsError) -> (r: FileError) {
        match e {
            ScissorsError::NoEditor => FileError::NoEditor,
            ScissorsError::Io(io) => FileError::Io(io),
            ScissorsError::EditorFailed { code, .. } => FileError::EditorFailed { code },
            ScissorsError::SilentFailure { elapsed_ms, .. } => FileError::SilentFailure {
                elapsed_ms,
            },
        }
    }
}

impl vstd::std_specs::convert::FromSpecImpl<ScissorsError> for FileError {
    open spec fn obeys_from_spec() -> bool {
        true
    }

    open spec fn from_spec(e: ScissorsError) -> FileError {
        file_error_of(e)
    }
}

} // verus!
