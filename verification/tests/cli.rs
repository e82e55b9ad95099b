use airs_tts::cli::{parse_command, parse_source, parse_target, split_typed_value, Command, SourceSpec, TargetSpec};
use airs_tts::TtsBackendKind;

/// Parses a command line the way the program does: each argument's `f32` reading first.
fn parse(args: Vec<String>) -> Result<Command, airs_tts::cli::CliError> {
    let speeds: Vec<Option<u32>> = args.iter().map(|a| a.parse::<f32>().ok().map(f32::to_bits)).collect();
    parse_command(args, speeds)
}

#[test]
fn parse_pipe_text_to_device() {
    let cmd = parse(vec![
        "pipe".to_string(),
        "-i".to_string(),
        "text:Hello world".to_string(),
        "-o".to_string(),
        "device".to_string(),
    ])
    .expect("parse command");

    match cmd {
        Command::Pipe { options } => {
            assert_eq!(options.source, SourceSpec::Text("Hello world".to_string()));
            assert_eq!(options.targets, vec![TargetSpec::Device(None)]);
        }
        _ => panic!("expected Pipe"),
    }
}

#[test]
fn parse_pipe_file_to_file() {
    let cmd = parse(vec![
        "pipe".to_string(),
        "-i".to_string(),
        "file:input.txt".to_string(),
        "-o".to_string(),
        "file:out.wav".to_string(),
    ])
    .expect("parse command");

    match cmd {
        Command::Pipe { options } => {
            assert_eq!(options.source, SourceSpec::File("input.txt".to_string()));
            assert_eq!(options.targets, vec![TargetSpec::File("out.wav".to_string())]);
        }
        _ => panic!("expected Pipe"),
    }
}

#[test]
fn parse_pipe_stdin_to_named_device() {
    let cmd = parse(vec![
        "pipe".to_string(),
        "-i".to_string(),
        "stdin".to_string(),
        "-o".to_string(),
        "device:Speakers".to_string(),
    ])
    .expect("parse command");

    match cmd {
        Command::Pipe { options } => {
            assert_eq!(options.source, SourceSpec::Stdin);
            assert_eq!(options.targets, vec![TargetSpec::Device(Some("Speakers".to_string()))]);
        }
        _ => panic!("expected Pipe"),
    }
}

#[test]
fn parse_pipe_multiple_targets() {
    let cmd = parse(vec![
        "pipe".to_string(),
        "-i".to_string(),
        "text:Hello".to_string(),
        "-o".to_string(),
        "device:Speakers".to_string(),
        "-o".to_string(),
        "file:out.wav".to_string(),
    ])
    .expect("parse command");

    match cmd {
        Command::Pipe { options } => {
            assert_eq!(
                options.targets,
                vec![
                    TargetSpec::Device(Some("Speakers".to_string())),
                    TargetSpec::File("out.wav".to_string()),
                ]
            );
        }
        _ => panic!("expected Pipe"),
    }
}

#[test]
fn parse_pipe_missing_source_fails() {
    let err = parse(vec!["pipe".to_string(), "-o".to_string(), "device".to_string()])
        .expect_err("missing source should fail");

    assert_eq!(err.to_string(), "pipe requires -i text:<text>, -i file:<path>, or -i stdin");
}

#[test]
fn parse_pipe_missing_target_fails() {
    let err = parse(vec!["pipe".to_string(), "-i".to_string(), "text:Hello".to_string()])
        .expect_err("missing target should fail");

    assert_eq!(err.to_string(), "pipe requires at least one -o file:<path> or -o device[:name]");
}

#[test]
fn parse_pipe_unknown_input_flag_fails() {
    let err = parse(vec![
        "pipe".to_string(),
        "-i".to_string(),
        "url:Hello".to_string(),
        "-o".to_string(),
        "device".to_string(),
    ])
    .expect_err("unknown input flag should fail");

    assert_eq!(err.to_string(), "unsupported input type: url");
}

#[test]
fn parse_pipe_unknown_output_flag_fails() {
    let err = parse(vec![
        "pipe".to_string(),
        "-i".to_string(),
        "text:Hello".to_string(),
        "-o".to_string(),
        "url:speaker".to_string(),
    ])
    .expect_err("unknown output flag should fail");

    assert_eq!(err.to_string(), "unsupported output type: url");
}

#[test]
fn parse_pipe_backend_voice_and_speed() {
    let cmd = parse(vec![
        "pipe".to_string(),
        "-i".to_string(),
        "text:Hello".to_string(),
        "-o".to_string(),
        "device".to_string(),
        "--backend".to_string(),
        "kokoro".to_string(),
        "--voice".to_string(),
        "bf_emma".to_string(),
        "--speed".to_string(),
        "1.25".to_string(),
    ])
    .expect("parse command");

    match cmd {
        Command::Pipe { options } => {
            assert_eq!(options.backend, TtsBackendKind::Kokoro);
            assert_eq!(options.voice, "bf_emma");
            assert_eq!(f32::from_bits(options.speed_bits), 1.25);
        }
        _ => panic!("expected Pipe"),
    }
}

#[test]
fn parse_pipe_windows_file_paths() {
    let cmd = parse(vec![
        "pipe".to_string(),
        "-i".to_string(),
        "file:E:\\input.txt".to_string(),
        "-o".to_string(),
        "file:E:\\speech.wav".to_string(),
    ])
    .expect("parse command");

    match cmd {
        Command::Pipe { options } => {
            assert_eq!(options.source, SourceSpec::File("E:\\input.txt".to_string()));
            assert_eq!(options.targets, vec![TargetSpec::File("E:\\speech.wav".to_string())]);
        }
        _ => panic!("expected Pipe"),
    }
}

#[test]
fn parse_list_voices() {
    let cmd = parse(vec!["list_voices".to_string()]).expect("parse command");
    match cmd {
        Command::ListVoices { backend } => {
            assert_eq!(backend, TtsBackendKind::Kokoro);
        }
        _ => panic!("expected ListVoices"),
    }
}

#[test]
fn parse_list_voices_backend() {
    let cmd = parse(vec!["list_voices".to_string(), "--backend".to_string(), "kokoro".to_string()])
        .expect("parse command");
    match cmd {
        Command::ListVoices { backend } => {
            assert_eq!(backend, TtsBackendKind::Kokoro);
        }
        _ => panic!("expected ListVoices"),
    }
}

// ---------------------------------------------------------------------------
// Further cases
// ---------------------------------------------------------------------------

fn strings(args: &[&str]) -> Vec<String> {
    args.iter().map(|a| a.to_string()).collect()
}

#[test]
fn no_arguments_and_help_give_help() {
    assert!(matches!(parse(vec![]), Ok(Command::Help)));
    assert!(matches!(parse(strings(&["--help"])), Ok(Command::Help)));
    assert!(matches!(parse(strings(&["--version"])), Ok(Command::Version)));
}

#[test]
fn help_with_extra_argument_is_an_unknown_function() {
    let err = parse(strings(&["--help", "x"])).expect_err("should fail");
    assert_eq!(err.to_string(), "unknown function: --help");
    let err = parse(strings(&["speak"])).expect_err("should fail");
    assert_eq!(err.to_string(), "unknown function: speak");
}

#[test]
fn pipe_defaults_apply() {
    match parse(strings(&["pipe", "-i", "stdin", "-o", "device"])).expect("parse") {
        Command::Pipe { options } => {
            assert_eq!(options.voice, "af_heart");
            assert_eq!(f32::from_bits(options.speed_bits), 1.0);
            assert_eq!(options.speed_bits, airs_tts::cli::DEFAULT_SPEED_BITS);
            assert_eq!(options.backend, TtsBackendKind::Kokoro);
        }
        _ => panic!("expected Pipe"),
    }
}

#[test]
fn pipe_errors_name_the_problem() {
    let cases: Vec<(Vec<&str>, &str)> = vec![
        (vec!["pipe", "-i", "stdin", "-i", "stdin"], "-i can only be used once"),
        (vec!["pipe", "-i"], "-i requires text:<text>, file:<path>, or stdin"),
        (vec!["pipe", "-o"], "-o requires file:<path> or device[:name]"),
        (vec!["pipe", "--backend"], "--backend requires a name"),
        (vec!["pipe", "--backend", "piper"], "unsupported backend: piper"),
        (vec!["pipe", "--voice"], "--voice requires a name"),
        (vec!["pipe", "--speed"], "--speed requires a value"),
        (vec!["pipe", "--speed", "fast"], "invalid speed: fast"),
        (vec!["pipe", "--loud"], "unexpected argument: --loud"),
        (vec!["pipe", "-i", "text:"], "-i text requires text"),
        (vec!["pipe", "-i", "file"], "-i file requires a path"),
        (vec!["pipe", "-i", "stdin:x"], "-i stdin does not accept a value"),
        (vec!["pipe", "-o", "file:"], "-o file requires a path"),
        (vec!["list_voices", "--backend"], "--backend requires a name"),
        (vec!["list_voices", "--verbose"], "unexpected argument: --verbose"),
    ];
    for (args, message) in cases {
        let err = parse(strings(&args)).expect_err("should fail");
        assert_eq!(err.to_string(), message);
    }
}

#[test]
fn first_error_in_argument_order_wins() {
    // An invalid speed comes before the missing output target.
    let err = parse(strings(&["pipe", "-i", "stdin", "--speed", "x"])).expect_err("should fail");
    assert_eq!(err.to_string(), "invalid speed: x");
}

#[test]
fn stdin_with_empty_value_and_bare_device() {
    assert_eq!(parse_source("stdin:").expect("ok"), SourceSpec::Stdin);
    assert_eq!(parse_target("device:").expect("ok"), TargetSpec::Device(None));
    assert_eq!(parse_target("device").expect("ok"), TargetSpec::Device(None));
}

#[test]
fn typed_values_split_at_first_colon() {
    assert_eq!(split_typed_value("file:C:\\a:b"), ("file", Some("C:\\a:b")));
    assert_eq!(split_typed_value("stdin"), ("stdin", None));
    assert_eq!(split_typed_value(":x"), ("", Some("x")));
    assert_eq!(split_typed_value("é:ü"), ("é", Some("ü")));
}

#[test]
fn backend_names_round_trip() {
    let name = airs_tts::cli::backend_name(TtsBackendKind::Kokoro);
    assert_eq!(name, "kokoro");
    assert_eq!(airs_tts::cli::parse_backend(name).expect("ok"), TtsBackendKind::Kokoro);
}

#[test]
fn values_after_other_flags_are_not_flags() {
    // `--voice -o` takes `-o` as the voice name, not as a flag.
    match parse(strings(&["pipe", "--voice", "-o", "-i", "stdin", "-o", "file:a.wav", "-o", "device"])).expect("parse") {
        Command::Pipe { options } => {
            assert_eq!(options.voice, "-o");
            assert_eq!(
                options.targets,
                vec![TargetSpec::File("a.wav".to_string()), TargetSpec::Device(None)]
            );
        }
        _ => panic!("expected Pipe"),
    }
}
