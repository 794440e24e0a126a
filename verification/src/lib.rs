//! Editor-based content approval, git-commit style: the verified core.
//!
//! The draft buffer is the content followed by a scissors footer; what the
//! user approves is everything above the last scissors line. Input is UTF-8
//! text only.
//!
//! - `text`: whitespace, trimming, line splitting and joining over characters;
//! - `strip`: the scissors line and the cut at its last occurrence;
//! - `draft`: the editor buffer and the `Options` that shape it;
//! - `error`: outcomes and errors of a round-trip;
//! - `approval`: editor resolution and what an editor round-trip means;
//! - `laws`: the round trip between the draft and the cut, and the cut itself.
pub mod approval;
pub mod draft;
pub mod error;
pub mod laws;
pub mod strip;
pub mod text;

pub use approval::{
    editor_command, failed_exit_verdict, file_step, keeps_draft, saved_draft_verdict,
    stdin_outcome,
    words_decision, FileStep, Verdict, MIN_ELAPSED_MS,
};
pub use draft::{build_draft, Options};
pub use error::{FileError, FileOutcome, Outcome, ScissorsError};
pub use strip::{is_scissors_line, marker_line, strip_scissors, SCISSORS, SCISSORS_MARK};
pub use text::{is_blank, trim, trim_end};
