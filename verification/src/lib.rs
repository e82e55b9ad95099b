//! Text-to-speech front end: command-line parsing, voice files and engine state.
use vstd::prelude::*;

use crate::cli::DEFAULT_SPEED_BITS;
use crate::kokoro::engine::{KokoroEngine, KokoroEngineView, fresh_engine_view};
use crate::paths::opt_string_view;
use crate::kokoro::voices::VoiceStore;
use crate::kokoro::{KokoroError, kokoro_error_message};
use crate::sort::{info_key, sort_by, sort_voice_infos};
use crate::text::joined;

pub mod cli;
pub mod kokoro;
pub mod paths;
pub mod sort;
pub mod text;

verus! {

/// The crate version string.
pub fn version() -> (v: &'static str)
    ensures
        v@ == "0.1.0"@,
{
    "0.1.0"
}

/// Backend selection.
#[derive(Clone, Copy, Debug, PartialEq, Eq, Structural)]
pub enum TtsBackendKind {
    Kokoro,
}

impl Default for TtsBackendKind {
    fn default() -> (kind: Self)
        ensures
            kind == TtsBackendKind::Kokoro,
    {
        TtsBackendKind::Kokoro
    }
}

/// Information about an available voice.
#[derive(Debug, Clone, PartialEq)]
pub struct VoiceInfo {
    /// Voice name (e.g., `"af_heart"`).
    pub name: String,
    /// Human-readable language name (e.g., `"English (US)"`).
    pub language: String,
    /// Backend that provides this voice (e.g., `"kokoro"`).
    pub backend: String,
}

/// Number of characters the language column of a voice listing takes at least.
pub const LANGUAGE_COLUMN: usize = 20;

/// `s` padded with spaces on the right to at least `width` characters.
pub open spec fn pad_right(s: Seq<char>, width: nat) -> Seq<char> {
    if s.len() >= width {
        s
    } else {
        s + Seq::new((width - s.len()) as nat, |i: int| ' ')
    }
}

/// One line of a voice listing: `name  language  [backend]`, the language
/// padded to 20 characters.
pub open spec fn voice_line(name: Seq<char>, language: Seq<char>, backend: Seq<char>) -> Seq<char> {
    name + "  "@ + pad_right(language, 20) + "  ["@ + backend + "]"@
}

impl VoiceInfo {
    /// The voice as one line of a listing.
    pub fn to_string(&self) -> (s: String)
        ensures
            s@ == voice_line(self.name@, self.language@, self.backend@),
    {
        let mut s = self.name.clone();
        s.append("  ");
        let mut lang = self.language.clone();
        let n = self.language.as_str().unicode_len();
        let mut k = n;
        while k < LANGUAGE_COLUMN
            invariant
                n == self.language@.len(),
                n <= k <= 20 || (n > 20 && k == n),
                lang@ == self.language@ + Seq::new((k - n) as nat, |i: int| ' '),
            decreases 20 - k,
        {
            proof {
                reveal_strlit(" ");
            }
            lang.append(" ");
            k = k + 1;
            assert(lang@ =~= self.language@ + Seq::new((k - n) as nat, |i: int| ' '));
        }
        assert(lang@ =~= pad_right(self.language@, 20));
        s.append(lang.as_str());
        s.append("  [");
        s.append(self.backend.as_str());
        s.append("]");
        s
    }
}

/// Errors of the text-to-speech front end.
#[derive(Debug)]
pub enum TtsError {
    InvalidInput(String),
    BackendLoad(String),
    Synthesis(String),
    /// An audio output failed; carries the audio layer's message.
    Audio(String),
    Io(std::io::Error),
}

#[verifier::external_type_specification]
#[verifier::external_body]
pub struct ExIoError(std::io::Error);

/// The message of an I/O error.
///
/// Calls `<std::io::Error as Display>::fmt` through `to_string`; the text comes
/// from the operating system, so nothing is claimed of it.
#[verifier::external_body]
pub(crate) fn io_error_text(e: &std::io::Error) -> String {
    e.to_string()
}

pub enum TtsErrorView {
    InvalidInput(Seq<char>),
    BackendLoad(Seq<char>),
    Synthesis(Seq<char>),
    Audio(Seq<char>),
    Io,
}

impl View for TtsError {
    type V = TtsErrorView;

    open spec fn view(&self) -> TtsErrorView {
        match self {
            TtsError::InvalidInput(m) => TtsErrorView::InvalidInput(m@),
            TtsError::BackendLoad(m) => TtsErrorView::BackendLoad(m@),
            TtsError::Synthesis(m) => TtsErrorView::Synthesis(m@),
            TtsError::Audio(m) => TtsErrorView::Audio(m@),
            TtsError::Io(_) => TtsErrorView::Io,
        }
    }
}

impl TtsError {
    /// The message shown for this error.
    pub fn to_string(&self) -> (s: String)
        ensures
            match self@ {
                TtsErrorView::InvalidInput(m) => s@ == m,
                TtsErrorView::BackendLoad(m) => s@ == "failed to load TTS backend: "@ + m,
                TtsErrorView::Synthesis(m) => s@ == "TTS synthesis failed: "@ + m,
                TtsErrorView::Audio(m) => s@ == "audio error: "@ + m,
                TtsErrorView::Io => s@.len() >= "io error: "@.len() && s@.take(
                    "io error: "@.len() as int,
                ) == "io error: "@,
            },
    {
        match self {
            TtsError::InvalidInput(m) => m.clone(),
            TtsError::BackendLoad(m) => joined("failed to load TTS backend: ", m.as_str()),
            TtsError::Synthesis(m) => joined("TTS synthesis failed: ", m.as_str()),
            TtsError::Audio(m) => joined("audio error: ", m.as_str()),
            TtsError::Io(e) => {
                let detail = io_error_text(e);
                let s = joined("io error: ", detail.as_str());
                assert(s@.take("io error: "@.len() as int) =~= "io error: "@);
                s
            },
        }
    }
}

/// All available voices, sorted by name, given what each backend listed.
///
/// Only the Kokoro backend exists; `kokoro` is its listing or the error it gave.
pub fn tts_list_voices(kokoro: Result<Vec<VoiceInfo>, TtsError>) -> (res: Result<
    Vec<VoiceInfo>,
    TtsError,
>)
    ensures
        match kokoro {
            Ok(v) => res matches Ok(sorted) && sorted@ == sort_by(v@, info_key()),
            Err(e) => res matches Err(e2) && e2 == e,
        },
{
    match kokoro {
        Ok(v) => Ok(sort_voice_infos(v)),
        Err(e) => Err(e),
    }
}

/// The message for using an engine before `init`.
pub open spec fn not_initialized_message() -> Seq<char> {
    "TTS backend is not initialized. Call init() first."@
}

/// Text-to-speech engine with chainable backend configuration.
pub struct TtsEngine {
    backend_kind: TtsBackendKind,
    backend: Option<KokoroEngine>,
    is_ready: bool,
    voice: String,
    speed_bits: u32,
}

pub struct TtsEngineView {
    pub backend_kind: TtsBackendKind,
    pub backend: Option<KokoroEngineView>,
    pub is_ready: bool,
    pub voice: Seq<char>,
    pub speed_bits: u32,
}

impl View for TtsEngine {
    type V = TtsEngineView;

    closed spec fn view(&self) -> TtsEngineView {
        TtsEngineView {
            backend_kind: self.backend_kind,
            backend: match self.backend {
                Some(b) => Some(b@),
                None => None,
            },
            is_ready: self.is_ready,
            voice: self.voice@,
            speed_bits: self.speed_bits,
        }
    }
}

/// The directory `init` loads the model from: the backend's last model
/// directory, or the default `<home>/.airs/models/kokoro`.
pub open spec fn init_model_dir(v: TtsEngineView, home: Seq<char>) -> Seq<char> {
    match v.backend {
        Some(b) => match b.model_path {
            Some(p) => p,
            None => paths::joined_path(paths::model_dir_spec(home), "kokoro"@),
        },
        None => paths::joined_path(paths::model_dir_spec(home), "kokoro"@),
    }
}

/// The backend has a model loaded.
pub open spec fn backend_loaded(v: TtsEngineView) -> bool {
    v.backend matches Some(b) && b.model is Some
}

impl Default for TtsEngine {
    fn default() -> (e: Self)
        ensures
            e@ == (TtsEngineView {
                backend_kind: TtsBackendKind::Kokoro,
                backend: None,
                is_ready: false,
                voice: "af_heart"@,
                speed_bits: DEFAULT_SPEED_BITS,
            }),
    {
        TtsEngine::new()
    }
}

impl TtsEngine {
    #[verifier::type_invariant]
    spec fn ready_has_model(self) -> bool {
        self.is_ready ==> (self.backend matches Some(b) && b@.model is Some)
    }

    /// A new engine with default settings: Kokoro, voice `af_heart`, speed 1.0,
    /// nothing loaded.
    pub fn new() -> (e: Self)
        ensures
            e@ == (TtsEngineView {
                backend_kind: TtsBackendKind::Kokoro,
                backend: None,
                is_ready: false,
                voice: "af_heart"@,
                speed_bits: DEFAULT_SPEED_BITS,
            }),
    {
        TtsEngine {
            backend_kind: TtsBackendKind::Kokoro,
            backend: None,
            is_ready: false,
            voice: "af_heart".to_owned(),
            speed_bits: DEFAULT_SPEED_BITS,
        }
    }

    /// Selects the backend implementation; whatever was loaded is dropped.
    pub fn backend(self, kind: TtsBackendKind) -> (e: Self)
        ensures
            e@ == (TtsEngineView { backend_kind: kind, backend: None, is_ready: false, ..self@ }),
    {
        TtsEngine { backend_kind: kind, backend: None, is_ready: false, voice: self.voice, speed_bits: self.speed_bits }
    }

    /// Sets the voice by name; it is checked when the engine is initialised.
    pub fn voice(self, voice: String) -> (e: Self)
        ensures
            e@ == (TtsEngineView { voice: voice@, ..self@ }),
    {
        proof {
            use_type_invariant(&self);
        }
        TtsEngine { voice, ..self }
    }

    /// Sets the speech speed multiplier (the bit pattern of an `f32`).
    pub fn speed(self, speed_bits: u32) -> (e: Self)
        ensures
            e@ == (TtsEngineView { speed_bits, ..self@ }),
    {
        proof {
            use_type_invariant(&self);
        }
        TtsEngine { speed_bits, ..self }
    }

    /// Whether the selected backend has been initialised.
    pub fn is_ready(&self) -> (res: bool)
        ensures
            res == self@.is_ready,
    {
        self.is_ready
    }

    /// The selected backend.
    pub fn backend_kind(&self) -> (res: TtsBackendKind)
        ensures
            res == self@.backend_kind,
    {
        self.backend_kind
    }

    /// Whether a backend instance exists.
    pub fn has_backend(&self) -> (res: bool)
        ensures
            res == self@.backend is Some,
    {
        self.backend.is_some()
    }

    /// The configured voice name.
    pub fn voice_name(&self) -> (res: &String)
        ensures
            res@ == self@.voice,
    {
        &self.voice
    }

    /// The configured speed (the bit pattern of an `f32`).
    pub fn speed_bits(&self) -> (res: u32)
        ensures
            res == self@.speed_bits,
    {
        self.speed_bits
    }

    /// The directory `init` loads the model from, given the default model
    /// directory; `None` when the backend has its model already.
    pub fn model_dir_for_init(&self, home: &str) -> (res: Option<String>)
        ensures
            backend_loaded(self@) <==> res is None,
            !backend_loaded(self@) ==> opt_string_view(res) == Some(init_model_dir(self@, home@)),
    {
        let default_dir = paths::model_path(home, "kokoro");
        match &self.backend {
            Some(b) => b.model_dir_for_init(default_dir.as_str()),
            None => Some(default_dir),
        }
    }

    /// Loads the selected implementation: creates the backend if there is none,
    /// takes the outcome of loading its model from `model_dir_for_init(home)`
    /// (consulted only when it has none yet; `None` means nothing was loaded),
    /// then applies the voice, which must be one of the model's, and the speed.
    pub fn init(self, home: &str, load: Option<Result<VoiceStore, KokoroError>>) -> (res: Result<
        Self,
        TtsError,
    >)
        ensures
            ({
                let start = match self@.backend {
                    Some(b) => b,
                    None => fresh_engine_view(),
                };
                let loaded = if start.model is Some {
                    Ok(start)
                } else {
                    match load {
                        Some(Ok(store)) => Ok(
                            KokoroEngineView {
                                model: Some(store@),
                                model_path: Some(init_model_dir(self@, home@)),
                                ..start
                            },
                        ),
                        Some(Err(e)) => Err(e@),
                        None => Err(kokoro::KokoroErrorView::ModelNotLoaded),
                    }
                };
                match loaded {
                    Err(e) => res matches Err(err) && err@ is BackendLoad && (kokoro_error_message(
                        e,
                    ) matches Some(msg) ==> err@ == TtsErrorView::BackendLoad(msg)),
                    Ok(b) => match b.model {
                        Some(m) => if m.contains_key(self@.voice) {
                            res matches Ok(engine) && engine@ == TtsEngineView {
                                backend: Some(
                                    KokoroEngineView {
                                        voice: self@.voice,
                                        speed_bits: self@.speed_bits,
                                        ..b
                                    },
                                ),
                                is_ready: true,
                                ..self@
                            }
                        } else {
                            res matches Err(err) && err@ == TtsErrorView::BackendLoad(
                                "voice not found: "@ + self@.voice,
                            )
                        },
                        None => false,
                    },
                }
            }),
    {
        let TtsEngine { backend_kind, backend, is_ready: _, voice, speed_bits } = self;
        let mut backend = match backend {
            Some(b) => b,
            None => KokoroEngine::new(),
        };
        if !backend.is_loaded() {
            let default_dir = paths::model_path(home, "kokoro");
            let model_dir = match backend.model_dir_for_init(default_dir.as_str()) {
                Some(d) => d,
                None => default_dir,
            };
            match load {
                Some(loaded) => {
                    if let Err(e) = backend.install_model(model_dir.as_str(), loaded) {
                        return Err(TtsError::BackendLoad(e.to_string()));
                    }
                },
                None => {
                    return Err(TtsError::BackendLoad(KokoroError::ModelNotLoaded.to_string()));
                },
            }
        }
        if let Err(e) = backend.set_voice(voice.as_str()) {
            return Err(TtsError::BackendLoad(e.to_string()));
        }
        backend.set_speed(speed_bits);
        Ok(TtsEngine { backend_kind, backend: Some(backend), is_ready: true, voice, speed_bits })
    }

    /// Fails unless the engine has been initialised.
    pub fn check_ready(&self) -> (res: Result<(), TtsError>)
        ensures
            self@.is_ready ==> res is Ok,
            !self@.is_ready ==> (res matches Err(e) && e@ == TtsErrorView::InvalidInput(
                not_initialized_message(),
            )),
    {
        if !self.is_ready {
            return Err(TtsError::InvalidInput(
                "TTS backend is not initialized. Call init() first.".to_owned(),
            ));
        }
        Ok(())
    }

    /// All voice names the initialised backend offers, sorted.
    pub fn list_voices(&self) -> (res: Result<Vec<String>, TtsError>)
        ensures
            !self@.is_ready ==> (res matches Err(e) && e@ == TtsErrorView::InvalidInput(
                not_initialized_message(),
            )),
            self@.is_ready ==> res is Ok,
            self@.is_ready ==> backend_loaded(self@),
            self@.is_ready ==> forall|k: Seq<char>|
                self@.backend->Some_0.model->Some_0.contains_key(k) <==> exists|i: int|
                    0 <= i < res->Ok_0@.len() && res->Ok_0@[i]@ == k,
            self@.is_ready ==> forall|i: int, j: int|
                0 <= i < j < res->Ok_0@.len() ==> crate::text::bytes_lt(
                    vstd::utf8::encode_utf8(res->Ok_0@[i]@),
                    vstd::utf8::encode_utf8(res->Ok_0@[j]@),
                ),
    {
        proof {
            use_type_invariant(self);
        }
        if let Err(e) = self.check_ready() {
            return Err(e);
        }
        match &self.backend {
            Some(b) => {
                let names = b.list_voices();
                let res: Result<Vec<String>, TtsError> = Ok(names);
                assert(res->Ok_0 == names);
                assert forall|k: Seq<char>|
                    self@.backend->Some_0.model->Some_0.contains_key(k) <==> exists|i: int|
                        0 <= i < res->Ok_0@.len() && res->Ok_0@[i]@ == k by {
                    if self@.backend->Some_0.model->Some_0.contains_key(k) {
                        let i = choose|i: int| 0 <= i < names@.len() && names@[i]@ == k;
                        assert(res->Ok_0@[i]@ == k);
                    }
                }
                res
            },
            None => Ok(Vec::new()),
        }
    }
}

} // verus!
