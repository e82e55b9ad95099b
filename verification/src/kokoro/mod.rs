//! The Kokoro backend: its voice files, its engine state and its model paths.
use vstd::prelude::*;

use crate::text::joined;

pub mod engine;
pub mod voices;

verus! {

/// Errors of the Kokoro backend.
#[derive(Debug)]
pub enum KokoroError {
    /// A voice file could not be read or parsed.
    VoiceParse(String),
    /// The requested voice is not among the loaded ones.
    VoiceNotFound(String),
    /// Synthesis was asked of an engine with no model.
    ModelNotLoaded,
    /// A file or directory the backend needs is missing or unreadable.
    Io(IoFailure),
}

/// An I/O failure of the backend.
#[derive(Debug)]
pub enum IoFailure {
    /// An error the operating system reported.
    Os(std::io::Error),
    /// A file or directory the backend needs does not exist: an error of kind
    /// `NotFound` with this message.
    NotFound(String),
}

pub enum IoFailureView {
    Os,
    NotFound(Seq<char>),
}

pub enum KokoroErrorView {
    VoiceParse(Seq<char>),
    VoiceNotFound(Seq<char>),
    ModelNotLoaded,
    Io(IoFailureView),
}

impl View for KokoroError {
    type V = KokoroErrorView;

    open spec fn view(&self) -> KokoroErrorView {
        match self {
            KokoroError::VoiceParse(m) => KokoroErrorView::VoiceParse(m@),
            KokoroError::VoiceNotFound(v) => KokoroErrorView::VoiceNotFound(v@),
            KokoroError::ModelNotLoaded => KokoroErrorView::ModelNotLoaded,
            KokoroError::Io(IoFailure::Os(_)) => KokoroErrorView::Io(IoFailureView::Os),
            KokoroError::Io(IoFailure::NotFound(m)) => KokoroErrorView::Io(
                IoFailureView::NotFound(m@),
            ),
        }
    }
}

/// The message of a Kokoro error; that of an error the operating system
/// reported is its own text, which is not modelled.
pub open spec fn kokoro_error_message(e: KokoroErrorView) -> Option<Seq<char>> {
    match e {
        KokoroErrorView::VoiceParse(m) => Some(m),
        KokoroErrorView::VoiceNotFound(v) => Some("voice not found: "@ + v),
        KokoroErrorView::ModelNotLoaded => Some("model not loaded"@),
        KokoroErrorView::Io(IoFailureView::NotFound(m)) => Some(m),
        KokoroErrorView::Io(IoFailureView::Os) => None,
    }
}

impl KokoroError {
    /// The message shown for this error.
    pub fn to_string(&self) -> (s: String)
        ensures
            kokoro_error_message(self@) matches Some(m) ==> s@ == m,
    {
        match self {
            KokoroError::VoiceParse(m) => m.clone(),
            KokoroError::VoiceNotFound(v) => joined("voice not found: ", v.as_str()),
            KokoroError::ModelNotLoaded => "model not loaded".to_owned(),
            KokoroError::Io(IoFailure::Os(e)) => crate::io_error_text(e),
            KokoroError::Io(IoFailure::NotFound(m)) => m.clone(),
        }
    }
}

} // verus!
