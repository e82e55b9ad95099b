use airs_tts::kokoro::voices::{
    list_available_voices, list_bin_voice_names, parse_raw_f32_styles, voice_file_name, voice_infos, voice_language,
    voices_dir, voices_not_found, voices_not_found_message, VoiceDirItem, VoiceFileEntry, VoiceStore,
};
use airs_tts::TtsError;
use airs_tts::kokoro::{IoFailure, KokoroError};
use airs_tts::paths::{model_dir, model_path, optimized_file_name, optimized_model_path};

fn entry(file: &str) -> VoiceFileEntry {
    let path = std::path::Path::new(file);
    VoiceFileEntry {
        display: file.to_string(),
        stem: path.file_stem().and_then(|s| s.to_str()).map(|s| s.to_string()),
        extension: path.extension().and_then(|s| s.to_str()).map(|s| s.to_string()),
    }
}

fn voice_bytes(values: impl Iterator<Item = f32>) -> Vec<u8> {
    let mut data = Vec::new();
    for v in values {
        data.extend_from_slice(&v.to_le_bytes());
    }
    data
}

#[test]
fn load_prefers_onnx_community_voice_bins() {
    let data = voice_bytes((0..256).map(|v| v as f32));
    let items = vec![item("voices/af_heart.bin", Some(Ok(data))), item("voices/readme.txt", None)];

    let store = VoiceStore::load("voices", Some(items)).ok().expect("load voices");

    assert_eq!(store.list_voices(), vec!["af_heart".to_string()]);
    let style = store.get_style("af_heart", 0).expect("get style");
    assert_eq!(f32::from_bits(style[0]), 0.0);
    assert_eq!(f32::from_bits(style[255]), 255.0);
}

#[test]
fn style_index_is_clamped() {
    let data = voice_bytes((0..512).map(|v| v as f32));
    let mut store = VoiceStore::new();
    store.add_voice_file("bf_emma".to_string(), &data).expect("two vectors");
    assert_eq!(f32::from_bits(store.get_style("bf_emma", 1).expect("ok")[0]), 256.0);
    assert_eq!(f32::from_bits(store.get_style("bf_emma", 99).expect("ok")[0]), 256.0);
    assert!(matches!(store.get_style("af_sky", 0), Err(KokoroError::VoiceNotFound(v)) if v == "af_sky"));
}

#[test]
fn later_file_replaces_voice() {
    let mut store = VoiceStore::new();
    store.add_voice_file("a".to_string(), &voice_bytes((0..256).map(|_| 1.0))).expect("ok");
    store.add_voice_file("a".to_string(), &voice_bytes((0..256).map(|_| 2.0))).expect("ok");
    assert_eq!(store.list_voices(), vec!["a".to_string()]);
    assert_eq!(f32::from_bits(store.get_style("a", 0).expect("ok")[7]), 2.0);
}

#[test]
fn words_are_little_endian() {
    let words = parse_raw_f32_styles(&[1, 2, 3, 4].repeat(256), "v").ok().expect("ok");
    assert_eq!(words.len(), 256);
    assert_eq!(words[0], 0x0403_0201);
}

#[test]
fn malformed_voice_files_are_rejected() {
    match parse_raw_f32_styles(&[0u8; 10], "af_x") {
        Err(KokoroError::VoiceParse(m)) => assert_eq!(m, "af_x: byte length 10 is not a multiple of 4"),
        _ => panic!("expected error"),
    }
    match parse_raw_f32_styles(&[0u8; 4 * 300], "af_y") {
        Err(KokoroError::VoiceParse(m)) => {
            assert_eq!(m, "af_y: float count 300 is not a multiple of 256 (style vector dim)")
        }
        _ => panic!("expected error"),
    }
    assert_eq!(parse_raw_f32_styles(&[], "empty").ok().expect("ok").len(), 0);
}

#[test]
fn invalid_bin_names_and_empty_directories() {
    // A file named `.bin` has no extension and is skipped.
    assert!(matches!(voice_file_name(&entry("voices/.bin")), Ok(None)));
    // A `.bin` file whose stem is not valid UTF-8 cannot name a voice.
    let unreadable = VoiceFileEntry {
        display: "voices/?.bin".to_string(),
        stem: None,
        extension: Some("bin".to_string()),
    };
    match voice_file_name(&unreadable) {
        Err(KokoroError::VoiceParse(m)) => assert_eq!(m, "Invalid voice file name: voices/?.bin"),
        other => panic!("unexpected {:?}", other),
    }
    match VoiceStore::new().finish_loading("dir") {
        Err(KokoroError::VoiceParse(m)) => assert_eq!(m, "No .bin voice files found in dir"),
        _ => panic!("expected error"),
    }
}

#[test]
fn bin_names_in_listing_order() {
    let entries = vec![entry("v/bf_emma.bin"), entry("v/x.txt"), entry("v/af_heart.bin"), entry("v/noext")];
    assert_eq!(
        list_bin_voice_names("v", Ok(entries)).expect("names"),
        vec!["bf_emma".to_string(), "af_heart".to_string()]
    );
    let err = list_bin_voice_names("v", Ok(vec![entry("v/x.txt")])).expect_err("none");
    assert_eq!(err.to_string(), "failed to load TTS backend: No .bin voice files found in v");
}

#[test]
fn languages_follow_name_prefix() {
    let cases = [
        ("af_heart", "English (US)"),
        ("am_adam", "English (US)"),
        ("bf_emma", "English (GB)"),
        ("bm_george", "English (GB)"),
        ("ef_dora", "Spanish"),
        ("ff_siwis", "French"),
        ("fm_x", "English (US)"),
        ("hm_omega", "Hindi"),
        ("if_sara", "Italian"),
        ("jf_alpha", "Japanese"),
        ("pm_alex", "Portuguese (Brazil)"),
        ("zf_xiaobei", "Mandarin Chinese"),
        ("z", "English (US)"),
        ("", "English (US)"),
        ("xx", "English (US)"),
    ];
    for (name, language) in cases {
        assert_eq!(voice_language(name), language, "{name}");
    }
}

#[test]
fn available_voices_carry_language_and_backend() {
    let infos = voice_infos(vec!["jf_alpha".to_string(), "af_heart".to_string()]);
    assert_eq!(infos.len(), 2);
    assert_eq!(infos[0].name, "jf_alpha");
    assert_eq!(infos[0].language, "Japanese");
    assert_eq!(infos[0].backend, "kokoro");
    assert_eq!(infos[1].language, "English (US)");
}

#[test]
fn optimized_model_path_uses_onnx_stem() {
    let onnx = std::path::PathBuf::from(model_path("/home/user", "kokoro")).join("model_q8f16.onnx");
    let path = optimized_model_path(onnx.to_str().expect("utf-8"));

    assert!(path.ends_with(".airs/models/kokoro/model_q8f16.optimized.onnx"));
}

#[test]
fn model_locations() {
    assert_eq!(model_dir("/home/user"), "/home/user/.airs/models");
    assert_eq!(model_path("/home/user", "kokoro"), "/home/user/.airs/models/kokoro");
    assert_eq!(optimized_model_path("/m/.onnx"), "/m/.onnx.optimized.onnx");
    assert_eq!(optimized_file_name(None), "model.optimized.onnx");
    assert_eq!(optimized_file_name(Some(String::new())), "model.optimized.onnx");
    assert_eq!(optimized_file_name(Some("m".to_string())), "m.optimized.onnx");
}

#[test]
fn decimal_rendering() {
    assert_eq!(airs_tts::text::decimal(0), "0");
    assert_eq!(airs_tts::text::decimal(1024), "1024");
    assert_eq!(airs_tts::text::decimal(usize::MAX), usize::MAX.to_string());
}

#[test]
fn listing_the_voice_directory() {
    let err = list_available_voices("d/voices", None).expect_err("missing directory");
    assert_eq!(err.to_string(), "failed to load TTS backend: Voice directory not found. Expected d/voices.");

    let denied = std::io::Error::new(std::io::ErrorKind::PermissionDenied, "denied");
    match list_available_voices("d/voices", Some(Err(denied))) {
        Err(TtsError::Io(e)) => {
            assert_eq!(e.kind(), std::io::ErrorKind::PermissionDenied);
            assert_eq!(e.to_string(), "denied");
        }
        other => panic!("unexpected {:?}", other),
    }
    let err = list_bin_voice_names("v", Err(std::io::Error::new(std::io::ErrorKind::Other, "gone")))
        .expect_err("io error");
    assert!(matches!(err, TtsError::Io(_)));

    let infos = list_available_voices(
        "d/voices",
        Some(Ok(vec![entry("d/voices/zf_xiaobei.bin"), entry("d/voices/notes.md")])),
    )
    .expect("voices");
    assert_eq!(infos.len(), 1);
    assert_eq!(infos[0].name, "zf_xiaobei");
    assert_eq!(infos[0].language, "Mandarin Chinese");

    let err = list_available_voices("d/voices", Some(Ok(vec![entry("d/voices/notes.md")]))).expect_err("none");
    assert_eq!(err.to_string(), "failed to load TTS backend: No .bin voice files found in d/voices");
    assert_eq!(voices_dir("/m/kokoro"), "/m/kokoro/voices");
}

fn item(file: &str, contents: Option<Result<Vec<u8>, std::io::Error>>) -> Result<VoiceDirItem, std::io::Error> {
    Ok(VoiceDirItem { entry: entry(file), contents })
}

#[test]
fn loading_a_voice_directory() {
    let one = voice_bytes((0..256).map(|v| v as f32));
    let two = voice_bytes((0..512).map(|v| (v * 2) as f32));
    let store = VoiceStore::load(
        "v",
        Some(vec![
            item("v/bf_emma.bin", Some(Ok(two.clone()))),
            item("v/readme.txt", None),
            item("v/af_heart.bin", Some(Ok(one.clone()))),
        ]),
    )
    .ok()
    .expect("loaded");
    assert_eq!(store.list_voices(), vec!["af_heart".to_string(), "bf_emma".to_string()]);
    assert_eq!(store.style_count("bf_emma"), Some(2));
    assert_eq!(store.style_count("af_heart"), Some(1));
    assert_eq!(store.style_count("am_adam"), None);
    assert_eq!(f32::from_bits(store.get_style("bf_emma", 1).expect("ok")[0]), 512.0);

    // The first failure stops the load.
    let broken = VoiceStore::load(
        "v",
        Some(vec![
            item("v/af_heart.bin", Some(Ok(vec![0u8; 3]))),
            Err(std::io::Error::new(std::io::ErrorKind::Other, "late")),
        ]),
    );
    match broken {
        Err(KokoroError::VoiceParse(m)) => assert_eq!(m, "af_heart: byte length 3 is not a multiple of 4"),
        _ => panic!("expected parse error"),
    }
    match VoiceStore::load("v", Some(vec![Err(std::io::Error::new(std::io::ErrorKind::Other, "list"))])) {
        Err(KokoroError::Io(IoFailure::Os(e))) => assert_eq!(e.to_string(), "list"),
        _ => panic!("expected io error"),
    }
    let unreadable = std::io::Error::new(std::io::ErrorKind::PermissionDenied, "denied");
    match VoiceStore::load("v", Some(vec![item("v/af_heart.bin", Some(Err(unreadable)))])) {
        Err(KokoroError::VoiceParse(m)) => assert_eq!(m, "Failed to read v/af_heart.bin: denied"),
        _ => panic!("expected read error"),
    }
    match VoiceStore::load("v", Some(vec![item("v/a.txt", None)])) {
        Err(KokoroError::VoiceParse(m)) => assert_eq!(m, "No .bin voice files found in v"),
        _ => panic!("expected empty error"),
    }
    match VoiceStore::load("v/voices", None) {
        Err(e @ KokoroError::Io(IoFailure::NotFound(_))) => {
            assert_eq!(e.to_string(), "Voice files not found. Expected v/voices.");
        }
        _ => panic!("expected not found"),
    }
    assert_eq!(voices_not_found_message("x"), "Voice files not found. Expected x.");
    assert!(matches!(voices_not_found("x"), KokoroError::Io(IoFailure::NotFound(m)) if m == "Voice files not found. Expected x."));
}
