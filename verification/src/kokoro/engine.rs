//! The state of the Kokoro engine: its configuration, the voices of its loaded
//! model, and the requests it sends to the model.
use vstd::prelude::*;

use crate::cli::DEFAULT_SPEED_BITS;
use crate::kokoro::voices::VoiceStore;
use crate::kokoro::{KokoroError, KokoroErrorView};
use crate::paths::opt_string_view;

verus! {

/// Paths of the espeak-ng binary and data directory; `None` uses the system's.
#[derive(Debug, Clone)]
pub struct EspeakConfig {
    pub bin_path: Option<String>,
    pub data_path: Option<String>,
}

/// Parameters for configuring Kokoro model loading.
#[derive(Debug, Clone)]
pub struct KokoroModelParams {
    /// Number of CPU threads to use for inference; `None` uses the runtime's default.
    pub num_threads: Option<usize>,
    /// Path for caching the optimised model graph.
    pub optimized_model_cache_path: Option<String>,
}

impl Default for KokoroModelParams {
    fn default() -> (p: Self)
        ensures
            p.num_threads is None,
            p.optimized_model_cache_path is None,
    {
        KokoroModelParams { num_threads: None, optimized_model_cache_path: None }
    }
}

/// Parameters for configuring a Kokoro synthesis request.
#[derive(Debug, Clone)]
pub struct KokoroInferenceParams {
    /// Voice name (e.g. `"af_heart"`, `"bf_emma"`, `"jf_alpha"`).
    pub voice: String,
    /// Speech speed multiplier, as the bit pattern of an `f32`.
    pub speed_bits: u32,
    /// Override the style vector index. `None` = auto (uses phoneme token count).
    pub style_index: Option<usize>,
}

impl Default for KokoroInferenceParams {
    fn default() -> (p: Self)
        ensures
            p.voice@ == "af_heart"@,
            p.speed_bits == DEFAULT_SPEED_BITS,
            p.style_index is None,
    {
        KokoroInferenceParams {
            voice: "af_heart".to_owned(),
            speed_bits: DEFAULT_SPEED_BITS,
            style_index: None,
        }
    }
}

/// What the model is asked to speak, and how.
#[derive(Debug)]
pub struct SynthesisRequest {
    pub text: String,
    pub params: KokoroInferenceParams,
}

/// Kokoro text-to-speech engine state.
pub struct KokoroEngine {
    /// The voices of the loaded model, if one is loaded.
    model: Option<VoiceStore>,
    model_path: Option<String>,
    espeak: EspeakConfig,
    voice: String,
    speed_bits: u32,
}

pub struct KokoroEngineView {
    pub model: Option<Map<Seq<char>, Seq<u32>>>,
    pub model_path: Option<Seq<char>>,
    pub espeak_bin: Option<Seq<char>>,
    pub espeak_data: Option<Seq<char>>,
    pub voice: Seq<char>,
    pub speed_bits: u32,
}

impl View for KokoroEngine {
    type V = KokoroEngineView;

    closed spec fn view(&self) -> KokoroEngineView {
        KokoroEngineView {
            model: match self.model {
                Some(m) => Some(m@),
                None => None,
            },
            model_path: opt_string_view(self.model_path),
            espeak_bin: opt_string_view(self.espeak.bin_path),
            espeak_data: opt_string_view(self.espeak.data_path),
            voice: self.voice@,
            speed_bits: self.speed_bits,
        }
    }
}

/// A fresh engine: no model, system espeak-ng, voice `af_heart`, speed 1.0.
pub open spec fn fresh_engine_view() -> KokoroEngineView {
    KokoroEngineView {
        model: None,
        model_path: None,
        espeak_bin: None,
        espeak_data: None,
        voice: "af_heart"@,
        speed_bits: DEFAULT_SPEED_BITS,
    }
}

impl Default for KokoroEngine {
    fn default() -> (e: Self)
        ensures
            e@ == fresh_engine_view(),
    {
        KokoroEngine::new()
    }
}

impl KokoroEngine {
    /// A new engine that uses `espeak-ng` from `PATH`.
    pub fn new() -> (e: Self)
        ensures
            e@ == fresh_engine_view(),
    {
        Self::with_espeak(None, None)
    }

    /// A new engine with explicit espeak-ng binary and data paths; either may
    /// be `None` to fall back to the system default.
    pub fn with_espeak(bin_path: Option<String>, data_path: Option<String>) -> (e: Self)
        ensures
            e@.model is None,
            e@.model_path is None,
            e@.espeak_bin == opt_string_view(bin_path),
            e@.espeak_data == opt_string_view(data_path),
            e@.voice == "af_heart"@,
            e@.speed_bits == DEFAULT_SPEED_BITS,
    {
        KokoroEngine {
            model: None,
            model_path: None,
            espeak: EspeakConfig { bin_path, data_path },
            voice: "af_heart".to_owned(),
            speed_bits: DEFAULT_SPEED_BITS,
        }
    }

    /// Sets the active voice. With a model loaded, the voice must be one of its.
    pub fn set_voice(&mut self, voice: &str) -> (res: Result<(), KokoroError>)
        ensures
            (old(self)@.model matches Some(m) && !m.contains_key(voice@)) ==> (res matches Err(e)
                && e@ == KokoroErrorView::VoiceNotFound(voice@) && final(self)@ == old(self)@),
            !(old(self)@.model matches Some(m) && !m.contains_key(voice@)) ==> (res is Ok
                && final(self)@ == (KokoroEngineView { voice: voice@, ..old(self)@ })),
    {
        match &self.model {
            Some(model) => {
                let available = model.list_voices();
                let mut found = false;
                let mut i: usize = 0;
                while i < available.len()
                    invariant
                        i <= available@.len(),
                        found == exists|j: int| 0 <= j < i && available@[j]@ == voice@,
                    decreases available@.len() - i,
                {
                    if crate::text::str_eq(available[i].as_str(), voice) {
                        found = true;
                    }
                    i = i + 1;
                }
                if !found {
                    return Err(KokoroError::VoiceNotFound(voice.to_owned()));
                }
            },
            None => {},
        }
        self.voice = voice.to_owned();
        Ok(())
    }

    /// Sets the speed multiplier (the bit pattern of an `f32`).
    pub fn set_speed(&mut self, speed_bits: u32)
        ensures
            final(self)@ == (KokoroEngineView { speed_bits, ..old(self)@ }),
    {
        self.speed_bits = speed_bits;
    }

    /// Whether a model is loaded.
    pub fn is_loaded(&self) -> (res: bool)
        ensures
            res == self@.model is Some,
    {
        self.model.is_some()
    }

    /// The directory the loaded model came from.
    pub fn model_path(&self) -> (res: Option<String>)
        ensures
            opt_string_view(res) == self@.model_path,
    {
        match &self.model_path {
            Some(p) => Some(p.clone()),
            None => None,
        }
    }

    /// The directory that initialisation loads the model from: `None` when a
    /// model is loaded already, else the last model directory or `default_dir`.
    pub fn model_dir_for_init(&self, default_dir: &str) -> (res: Option<String>)
        ensures
            self@.model is Some ==> res is None,
            self@.model is None ==> opt_string_view(res) == Some(
                match self@.model_path {
                    Some(p) => p,
                    None => default_dir@,
                },
            ),
    {
        if self.model.is_some() {
            return None;
        }
        match &self.model_path {
            Some(p) => Some(p.clone()),
            None => Some(default_dir.to_owned()),
        }
    }

    /// Takes the outcome of loading the model at `model_path`: on success the
    /// engine holds the model's voices, on failure it is unchanged.
    pub fn install_model(
        &mut self,
        model_path: &str,
        loaded: Result<VoiceStore, KokoroError>,
    ) -> (res: Result<(), KokoroError>)
        ensures
            loaded is Ok ==> res is Ok && final(self)@ == (KokoroEngineView {
                model: Some(loaded->Ok_0@),
                model_path: Some(model_path@),
                ..old(self)@
            }),
            loaded is Err ==> res is Err && res->Err_0 == loaded->Err_0 && final(self)@ == old(
                self,
            )@,
    {
        match loaded {
            Ok(store) => {
                self.model = Some(store);
                self.model_path = Some(model_path.to_owned());
                Ok(())
            },
            Err(e) => Err(e),
        }
    }

    /// Drops the loaded model.
    pub fn unload_model(&mut self)
        ensures
            final(self)@ == (KokoroEngineView { model: None, model_path: None, ..old(self)@ }),
    {
        self.model = None;
        self.model_path = None;
    }

    /// The request for synthesising `text`: with `params`, or with the active
    /// voice at speed 1.0. Without a model there is nothing to ask.
    pub fn synthesize(&self, text: String, params: Option<KokoroInferenceParams>) -> (res: Result<
        SynthesisRequest,
        KokoroError,
    >)
        ensures
            self@.model is None ==> (res matches Err(e) && e@ == KokoroErrorView::ModelNotLoaded),
            self@.model is Some ==> (res matches Ok(r) && r.text@ == text@ && match params {
                Some(p) => r.params.voice@ == p.voice@ && r.params.speed_bits == p.speed_bits
                    && r.params.style_index == p.style_index,
                None => r.params.voice@ == self@.voice && r.params.speed_bits == DEFAULT_SPEED_BITS
                    && r.params.style_index is None,
            }),
    {
        if self.model.is_none() {
            return Err(KokoroError::ModelNotLoaded);
        }
        let p = match params {
            Some(p) => p,
            None => KokoroInferenceParams {
                voice: self.voice.clone(),
                speed_bits: DEFAULT_SPEED_BITS,
                style_index: None,
            },
        };
        Ok(SynthesisRequest { text, params: p })
    }

    /// All voice names of the loaded model, sorted; none without a model.
    pub fn list_voices(&self) -> (names: Vec<String>)
        ensures
            self@.model is None ==> names@.len() == 0,
            self@.model matches Some(m) ==> (forall|k: Seq<char>|
                m.contains_key(k) <==> exists|i: int| 0 <= i < names@.len() && names@[i]@ == k),
            forall|i: int, j: int|
                0 <= i < j < names@.len() ==> crate::text::bytes_lt(
                    vstd::utf8::encode_utf8(names@[i]@),
                    vstd::utf8::encode_utf8(names@[j]@),
                ),
    {
        match &self.model {
            Some(m) => m.list_voices(),
            None => Vec::new(),
        }
    }

    /// The request for one-shot synthesis of `text` with the active voice and speed.
    pub fn call(&self, text: String) -> (res: Result<SynthesisRequest, KokoroError>)
        ensures
            self@.model is None ==> (res matches Err(e) && e@ == KokoroErrorView::ModelNotLoaded),
            self@.model is Some ==> (res matches Ok(r) && r.text@ == text@ && r.params.voice@
                == self@.voice && r.params.speed_bits == self@.speed_bits
                && r.params.style_index is None),
    {
        let params = KokoroInferenceParams {
            voice: self.voice.clone(),
            speed_bits: self.speed_bits,
            style_index: None,
        };
        self.synthesize(text, Some(params))
    }
}

} // verus!
