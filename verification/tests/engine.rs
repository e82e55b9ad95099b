use airs_tts::kokoro::engine::{KokoroEngine, KokoroInferenceParams};
use airs_tts::kokoro::voices::VoiceStore;
use airs_tts::kokoro::{IoFailure, KokoroError};
use airs_tts::{tts_list_voices, version, TtsBackendKind, TtsEngine, TtsError, VoiceInfo};

#[test]
fn version_returns_expected() {
    assert_eq!(version(), "0.1.0");
}

#[test]
fn engine_uses_default_settings() {
    let engine = TtsEngine::new();

    assert!(matches!(engine.backend_kind(), TtsBackendKind::Kokoro));
    assert!(!engine.has_backend());
    assert!(!engine.is_ready());
    assert_eq!(engine.voice_name(), "af_heart");
    assert_eq!(f32::from_bits(engine.speed_bits()), 1.0);
}

#[test]
fn engine_supports_chainable_settings() {
    let engine = TtsEngine::new()
        .backend(TtsBackendKind::Kokoro)
        .voice("bf_emma".to_string())
        .speed(1.25f32.to_bits());

    assert!(matches!(engine.backend_kind(), TtsBackendKind::Kokoro));
    assert!(!engine.has_backend());
    assert!(!engine.is_ready());
    assert_eq!(engine.voice_name(), "bf_emma");
    assert_eq!(f32::from_bits(engine.speed_bits()), 1.25);
}

#[test]
fn engine_requires_init_before_use() {
    let engine = TtsEngine::new();

    let err = engine.list_voices().expect_err("uninitialized engine should fail");

    assert!(matches!(err, TtsError::InvalidInput(_)));
    assert!(!engine.is_ready());
}

fn store_with(names: &[&str]) -> VoiceStore {
    let mut store = VoiceStore::new();
    for name in names {
        store.add_voice_file(name.to_string(), &vec![0u8; 1024]).expect("one style vector");
    }
    store
}

#[test]
fn init_loads_model_and_checks_voice() {
    let engine = TtsEngine::new().voice("bf_emma".to_string());
    assert_eq!(engine.model_dir_for_init("/home/u"), Some("/home/u/.airs/models/kokoro".to_string()));
    let engine = engine
        .init("/home/u", Some(Ok(store_with(&["bf_emma", "af_heart"]))))
        .expect("init");
    assert!(engine.is_ready());
    assert_eq!(engine.model_dir_for_init("/elsewhere"), None);
    assert_eq!(engine.list_voices().expect("ready"), vec!["af_heart".to_string(), "bf_emma".to_string()]);
    // A second init keeps the loaded model.
    let engine = engine.init("/elsewhere", None).expect("init again");
    assert!(engine.is_ready());
    // Choosing the backend again drops it.
    let engine = engine.backend(TtsBackendKind::Kokoro);
    assert!(!engine.is_ready());
    assert!(!engine.has_backend());
}

#[test]
fn init_rejects_unknown_voice_and_load_failures() {
    let err = TtsEngine::new()
        .voice("xx_nobody".to_string())
        .init("/m", Some(Ok(store_with(&["af_heart"]))))
        .err()
        .expect("unknown voice");
    assert_eq!(err.to_string(), "failed to load TTS backend: voice not found: xx_nobody");

    let err = TtsEngine::new()
        .init("/m", Some(Err(KokoroError::Io(IoFailure::Os(std::io::Error::new(std::io::ErrorKind::Other, "no model"))))))
        .err()
        .expect("load failure");
    assert!(matches!(&err, TtsError::BackendLoad(m) if m == "no model"));
}

#[test]
fn error_messages() {
    assert_eq!(TtsError::InvalidInput("bad".to_string()).to_string(), "bad");
    assert_eq!(TtsError::Synthesis("x".to_string()).to_string(), "TTS synthesis failed: x");
    assert_eq!(TtsError::Audio("y".to_string()).to_string(), "audio error: y");
    let io = TtsError::Io(std::io::Error::new(std::io::ErrorKind::Other, "disk"));
    assert_eq!(io.to_string(), "io error: disk");
    assert_eq!(KokoroError::ModelNotLoaded.to_string(), "model not loaded");
    assert_eq!(KokoroError::Io(IoFailure::NotFound("gone".to_string())).to_string(), "gone");
    let err = TtsEngine::new().init("/m", None).err().expect("nothing loaded");
    assert_eq!(err.to_string(), "failed to load TTS backend: model not loaded");
}

fn info(name: &str) -> VoiceInfo {
    VoiceInfo { name: name.to_string(), language: "English (US)".to_string(), backend: "kokoro".to_string() }
}

#[test]
fn voice_listing_is_sorted_by_name() {
    let listed = tts_list_voices(Ok(vec![info("zf_xiaobei"), info("af_heart"), info("bf_emma"), info("Af")]))
        .expect("ok");
    let names: Vec<&str> = listed.iter().map(|v| v.name.as_str()).collect();
    assert_eq!(names, vec!["Af", "af_heart", "bf_emma", "zf_xiaobei"]);
    let err = tts_list_voices(Err(TtsError::BackendLoad("gone".to_string()))).expect_err("error passes");
    assert_eq!(err.to_string(), "failed to load TTS backend: gone");
}

#[test]
fn voice_line_pads_language() {
    assert_eq!(info("af_heart").to_string(), "af_heart  English (US)          [kokoro]");
    let long = VoiceInfo {
        name: "x".to_string(),
        language: "A language name of many words".to_string(),
        backend: "kokoro".to_string(),
    };
    assert_eq!(long.to_string(), "x  A language name of many words  [kokoro]");
    assert_eq!(format!("{}  {:20}  [{}]", "pf_dora", "Portuguese (Brazil)", "kokoro"), VoiceInfo {
        name: "pf_dora".to_string(),
        language: "Portuguese (Brazil)".to_string(),
        backend: "kokoro".to_string(),
    }.to_string());
}

#[test]
fn kokoro_engine_voice_and_requests() {
    let mut engine = KokoroEngine::new();
    assert!(!engine.is_loaded());
    assert!(engine.list_voices().is_empty());
    // Without a model any voice is accepted, but nothing can be synthesised.
    engine.set_voice("anything").expect("no model, no check");
    assert!(matches!(engine.call("hi".to_string()), Err(KokoroError::ModelNotLoaded)));

    engine.install_model("/m", Ok(store_with(&["af_heart"]))).expect("installed");
    assert!(engine.is_loaded());
    assert_eq!(engine.model_path(), Some("/m".to_string()));
    assert!(matches!(engine.set_voice("bf_emma"), Err(KokoroError::VoiceNotFound(v)) if v == "bf_emma"));
    engine.set_voice("af_heart").expect("known voice");
    engine.set_speed(0.75f32.to_bits());
    let request = engine.call("hello".to_string()).expect("request");
    assert_eq!(request.text, "hello");
    assert_eq!(request.params.voice, "af_heart");
    assert_eq!(f32::from_bits(request.params.speed_bits), 0.75);
    assert_eq!(request.params.style_index, None);

    let request = engine.synthesize("x".to_string(), None).expect("request");
    assert_eq!(f32::from_bits(request.params.speed_bits), 1.0);
    let custom = KokoroInferenceParams { voice: "bm_george".to_string(), speed_bits: 2.0f32.to_bits(), style_index: Some(3) };
    let request = engine.synthesize("y".to_string(), Some(custom)).expect("request");
    assert_eq!(request.params.voice, "bm_george");
    assert_eq!(request.params.style_index, Some(3));

    engine.unload_model();
    assert!(!engine.is_loaded());
    assert_eq!(engine.model_path(), None);
    assert_eq!(engine.model_dir_for_init("/default"), Some("/default".to_string()));
}

#[test]
fn inference_params_default() {
    let p = KokoroInferenceParams::default();
    assert_eq!(p.voice, "af_heart");
    assert_eq!(f32::from_bits(p.speed_bits), 1.0);
    assert_eq!(p.style_index, None);
    let m = airs_tts::kokoro::engine::KokoroModelParams::default();
    assert_eq!(m.num_threads, None);
    assert_eq!(m.optimized_model_cache_path, None);
}
