//! The command line: `--help`, `--version`, `list_voices [--backend <name>]` and
//! `pipe -i <source> -o <target> [-o <target>...] [--voice <name>] [--speed <value>] [--backend <name>]`.
//!
//! A speed is a float. The caller parses each argument as an `f32` beforehand and
//! hands the parser, argument by argument, the bit pattern it got (`None` where the
//! argument is no float); the parser consults that entry for the value that follows
//! `--speed`.
use vstd::prelude::*;

use crate::text::{joined, str_eq};
use crate::TtsBackendKind;

verus! {

broadcast use vstd::seq_lib::group_seq_properties;

/// Bit pattern of the `f32` value `1.0`, the default speech speed.
pub const DEFAULT_SPEED_BITS: u32 = 0x3F80_0000u32;

/// An invalid command line, with the message shown to the user.
#[derive(Debug)]
pub struct CliError {
    message: String,
}

impl View for CliError {
    type V = Seq<char>;

    closed spec fn view(&self) -> Seq<char> {
        self.message@
    }
}

impl CliError {
    /// The message shown to the user.
    pub fn to_string(&self) -> (s: String)
        ensures
            s@ == self@,
    {
        self.message.clone()
    }
}

/// An error for an invalid argument, carrying `message`.
pub fn invalid(message: String) -> (e: CliError)
    ensures
        e@ == message@,
{
    CliError { message }
}

fn invalid_str(message: &str) -> (e: CliError)
    ensures
        e@ == message@,
{
    invalid(message.to_owned())
}

fn invalid_with(prefix: &str, detail: &str) -> (e: CliError)
    ensures
        e@ == prefix@ + detail@,
{
    invalid(joined(prefix, detail))
}

/// Where the text to speak comes from.
#[derive(Debug, Clone, PartialEq, Eq)]
pub enum SourceSpec {
    Text(String),
    File(String),
    Stdin,
}

pub enum SourceView {
    Text(Seq<char>),
    File(Seq<char>),
    Stdin,
}

impl View for SourceSpec {
    type V = SourceView;

    open spec fn view(&self) -> SourceView {
        match self {
            SourceSpec::Text(t) => SourceView::Text(t@),
            SourceSpec::File(p) => SourceView::File(p@),
            SourceSpec::Stdin => SourceView::Stdin,
        }
    }
}

/// Where the audio goes.
#[derive(Debug, Clone, PartialEq, Eq)]
pub enum TargetSpec {
    File(String),
    Device(Option<String>),
}

pub enum TargetView {
    File(Seq<char>),
    Device(Option<Seq<char>>),
}

impl View for TargetSpec {
    type V = TargetView;

    open spec fn view(&self) -> TargetView {
        match self {
            TargetSpec::File(p) => TargetView::File(p@),
            TargetSpec::Device(None) => TargetView::Device(None),
            TargetSpec::Device(Some(n)) => TargetView::Device(Some(n@)),
        }
    }
}

/// The options of a `pipe` command.
#[derive(Debug, Clone)]
pub struct PipeOptions {
    pub source: SourceSpec,
    pub targets: Vec<TargetSpec>,
    pub voice: String,
    /// The speed multiplier, as the bit pattern of an `f32`.
    pub speed_bits: u32,
    pub backend: TtsBackendKind,
}

pub struct PipeView {
    pub source: SourceView,
    pub targets: Seq<TargetView>,
    pub voice: Seq<char>,
    pub speed_bits: u32,
    pub backend: TtsBackendKind,
}

pub open spec fn targets_view(targets: Seq<TargetSpec>) -> Seq<TargetView> {
    targets.map_values(|t: TargetSpec| t@)
}

impl View for PipeOptions {
    type V = PipeView;

    open spec fn view(&self) -> PipeView {
        PipeView {
            source: self.source@,
            targets: targets_view(self.targets@),
            voice: self.voice@,
            speed_bits: self.speed_bits,
            backend: self.backend,
        }
    }
}

/// A parsed command line.
#[derive(Debug)]
pub enum Command {
    Help,
    Version,
    ListVoices { backend: TtsBackendKind },
    Pipe { options: PipeOptions },
}

pub enum CommandView {
    Help,
    Version,
    ListVoices { backend: TtsBackendKind },
    Pipe { options: PipeView },
}

impl View for Command {
    type V = CommandView;

    open spec fn view(&self) -> CommandView {
        match self {
            Command::Help => CommandView::Help,
            Command::Version => CommandView::Version,
            Command::ListVoices { backend } => CommandView::ListVoices { backend: *backend },
            Command::Pipe { options } => CommandView::Pipe { options: options@ },
        }
    }
}

/// The settings a `pipe` command starts from.
#[derive(Debug, Clone)]
pub struct TtsDefaults {
    pub voice: String,
    /// The speed multiplier, as the bit pattern of an `f32`.
    pub speed_bits: u32,
    pub backend: TtsBackendKind,
}

impl Default for TtsDefaults {
    fn default() -> (d: Self)
        ensures
            d.voice@ == "af_heart"@,
            d.speed_bits == DEFAULT_SPEED_BITS,
            d.backend == TtsBackendKind::Kokoro,
    {
        TtsDefaults {
            voice: "af_heart".to_owned(),
            speed_bits: DEFAULT_SPEED_BITS,
            backend: TtsBackendKind::Kokoro,
        }
    }
}

// ---------------------------------------------------------------------------
// Typed values: `kind[:value]`
// ---------------------------------------------------------------------------

/// `k` is the position of the first `:` in `v`.
pub open spec fn first_colon_at(v: Seq<char>, k: int) -> bool {
    &&& 0 <= k < v.len()
    &&& v[k] == ':'
    &&& forall|j: int| 0 <= j < k ==> v[j] != ':'
}

/// `kind:value` split at the first `:`; a value without `:` is all kind.
pub open spec fn split_typed_value_spec(v: Seq<char>) -> (Seq<char>, Option<Seq<char>>) {
    if exists|k: int| first_colon_at(v, k) {
        let k = choose|k: int| first_colon_at(v, k);
        (v.take(k), Some(v.skip(k + 1)))
    } else {
        (v, None)
    }
}

/// Splits `kind:value` at the first `:`.
pub fn split_typed_value(value: &str) -> (res: (&str, Option<&str>))
    ensures
        (res.0@, match res.1 {
            Some(v) => Some(v@),
            None => None,
        }) == split_typed_value_spec(value@),
{
    let n = value.unicode_len();
    let mut i: usize = 0;
    while i < n
        invariant
            n == value@.len(),
            i <= n,
            forall|j: int| 0 <= j < i ==> value@[j] != ':',
        decreases n - i,
    {
        if value.get_char(i) == ':' {
            let kind = value.substring_char(0, i);
            let rest = value.substring_char(i + 1, n);
            proof {
                assert(first_colon_at(value@, i as int));
                let k = choose|k: int| first_colon_at(value@, k);
                assert(k == i);
                assert(value@.skip(i + 1) =~= value@.subrange(i + 1, n as int));
            }
            return (kind, Some(rest));
        }
        i = i + 1;
    }
    proof {
        assert(!exists|k: int| first_colon_at(value@, k));
    }
    (value, None)
}

pub open spec fn parse_source_spec(value: Seq<char>) -> Result<SourceView, Seq<char>> {
    let (kind, rest) = split_typed_value_spec(value);
    if kind == "text"@ {
        match rest {
            Some(t) if t.len() > 0 => Ok(SourceView::Text(t)),
            _ => Err("-i text requires text"@),
        }
    } else if kind == "file"@ {
        match rest {
            Some(p) if p.len() > 0 => Ok(SourceView::File(p)),
            _ => Err("-i file requires a path"@),
        }
    } else if kind == "stdin"@ {
        match rest {
            None => Ok(SourceView::Stdin),
            Some(r) => if r.len() == 0 {
                Ok(SourceView::Stdin)
            } else {
                Err("-i stdin does not accept a value"@)
            },
        }
    } else {
        Err("unsupported input type: "@ + kind)
    }
}

pub open spec fn parse_target_spec(value: Seq<char>) -> Result<TargetView, Seq<char>> {
    let (kind, rest) = split_typed_value_spec(value);
    if kind == "file"@ {
        match rest {
            Some(p) if p.len() > 0 => Ok(TargetView::File(p)),
            _ => Err("-o file requires a path"@),
        }
    } else if kind == "device"@ {
        match rest {
            Some(n) if n.len() > 0 => Ok(TargetView::Device(Some(n))),
            _ => Ok(TargetView::Device(None)),
        }
    } else {
        Err("unsupported output type: "@ + kind)
    }
}

pub open spec fn parse_backend_spec(name: Seq<char>) -> Result<TtsBackendKind, Seq<char>> {
    if name == "kokoro"@ {
        Ok(TtsBackendKind::Kokoro)
    } else {
        Err("unsupported backend: "@ + name)
    }
}

pub open spec fn result_view<T: View>(r: Result<T, CliError>) -> Result<T::V, Seq<char>> {
    match r {
        Ok(v) => Ok(v@),
        Err(e) => Err(e@),
    }
}

/// Parses the value of `-i`: `text:<text>`, `file:<path>` or `stdin`.
pub fn parse_source(value: &str) -> (res: Result<SourceSpec, CliError>)
    ensures
        result_view(res) == parse_source_spec(value@),
{
    let (kind, rest) = split_typed_value(value);
    if str_eq(kind, "text") {
        match rest {
            Some(t) => {
                if !t.is_empty() {
                    return Ok(SourceSpec::Text(t.to_owned()));
                }
            },
            None => {},
        }
        Err(invalid_str("-i text requires text"))
    } else if str_eq(kind, "file") {
        match rest {
            Some(p) => {
                if !p.is_empty() {
                    return Ok(SourceSpec::File(p.to_owned()));
                }
            },
            None => {},
        }
        Err(invalid_str("-i file requires a path"))
    } else if str_eq(kind, "stdin") {
        match rest {
            None => Ok(SourceSpec::Stdin),
            Some(r) => {
                if r.is_empty() {
                    Ok(SourceSpec::Stdin)
                } else {
                    Err(invalid_str("-i stdin does not accept a value"))
                }
            },
        }
    } else {
        Err(invalid_with("unsupported input type: ", kind))
    }
}

/// Parses the value of `-o`: `file:<path>`, `device` or `device:<name>`.
pub fn parse_target(value: &str) -> (res: Result<TargetSpec, CliError>)
    ensures
        result_view(res) == parse_target_spec(value@),
{
    let (kind, rest) = split_typed_value(value);
    if str_eq(kind, "file") {
        match rest {
            Some(p) => {
                if !p.is_empty() {
                    return Ok(TargetSpec::File(p.to_owned()));
                }
            },
            None => {},
        }
        Err(invalid_str("-o file requires a path"))
    } else if str_eq(kind, "device") {
        match rest {
            Some(n) => {
                if !n.is_empty() {
                    Ok(TargetSpec::Device(Some(n.to_owned())))
                } else {
                    Ok(TargetSpec::Device(None))
                }
            },
            None => Ok(TargetSpec::Device(None)),
        }
    } else {
        Err(invalid_with("unsupported output type: ", kind))
    }
}

/// Parses a backend name.
pub fn parse_backend(name: &str) -> (res: Result<TtsBackendKind, CliError>)
    ensures
        match res {
            Ok(k) => parse_backend_spec(name@) == Ok::<TtsBackendKind, Seq<char>>(k),
            Err(e) => parse_backend_spec(name@) == Err::<TtsBackendKind, Seq<char>>(e@),
        },
{
    if str_eq(name, "kokoro") {
        Ok(TtsBackendKind::Kokoro)
    } else {
        Err(invalid_with("unsupported backend: ", name))
    }
}

/// The name under which a backend is selected.
pub fn backend_name(backend: TtsBackendKind) -> (name: &'static str)
    ensures
        parse_backend_spec(name@) == Ok::<TtsBackendKind, Seq<char>>(backend),
{
    match backend {
        TtsBackendKind::Kokoro => "kokoro",
    }
}

// ---------------------------------------------------------------------------
// Whole command lines
// ---------------------------------------------------------------------------

/// The arguments as character sequences.
pub open spec fn args_view(args: Seq<String>) -> Seq<Seq<char>> {
    args.map_values(|a: String| a@)
}

/// `list_voices` options from position `i` on, with `backend` chosen so far.
pub open spec fn list_voices_from(args: Seq<Seq<char>>, i: int, backend: TtsBackendKind) -> Result<
    CommandView,
    Seq<char>,
>
    decreases args.len() - i,
{
    if i < 0 || i >= args.len() {
        Ok(CommandView::ListVoices { backend })
    } else if args[i] == "--backend"@ {
        if i + 1 >= args.len() {
            Err("--backend requires a name"@)
        } else {
            match parse_backend_spec(args[i + 1]) {
                Ok(b) => list_voices_from(args, i + 2, b),
                Err(e) => Err(e),
            }
        }
    } else {
        Err("unexpected argument: "@ + args[i])
    }
}

/// `pipe` options from position `i` on, with what has been chosen so far.
pub open spec fn pipe_from(
    args: Seq<Seq<char>>,
    speeds: Seq<Option<u32>>,
    i: int,
    source: Option<SourceView>,
    targets: Seq<TargetView>,
    voice: Seq<char>,
    speed_bits: u32,
    backend: TtsBackendKind,
) -> Result<CommandView, Seq<char>>
    decreases args.len() - i,
{
    if i < 0 || i >= args.len() {
        match source {
            None => Err("pipe requires -i text:<text>, -i file:<path>, or -i stdin"@),
            Some(s) => if targets.len() == 0 {
                Err("pipe requires at least one -o file:<path> or -o device[:name]"@)
            } else {
                Ok(
                    CommandView::Pipe {
                        options: PipeView { source: s, targets, voice, speed_bits, backend },
                    },
                )
            },
        }
    } else if args[i] == "-i"@ {
        if source is Some {
            Err("-i can only be used once"@)
        } else if i + 1 >= args.len() {
            Err("-i requires text:<text>, file:<path>, or stdin"@)
        } else {
            match parse_source_spec(args[i + 1]) {
                Ok(s) => pipe_from(args, speeds, i + 2, Some(s), targets, voice, speed_bits, backend),
                Err(e) => Err(e),
            }
        }
    } else if args[i] == "-o"@ {
        if i + 1 >= args.len() {
            Err("-o requires file:<path> or device[:name]"@)
        } else {
            match parse_target_spec(args[i + 1]) {
                Ok(t) => pipe_from(
                    args,
                    speeds,
                    i + 2,
                    source,
                    targets.push(t),
                    voice,
                    speed_bits,
                    backend,
                ),
                Err(e) => Err(e),
            }
        }
    } else if args[i] == "--backend"@ {
        if i + 1 >= args.len() {
            Err("--backend requires a name"@)
        } else {
            match parse_backend_spec(args[i + 1]) {
                Ok(b) => pipe_from(args, speeds, i + 2, source, targets, voice, speed_bits, b),
                Err(e) => Err(e),
            }
        }
    } else if args[i] == "--voice"@ {
        if i + 1 >= args.len() {
            Err("--voice requires a name"@)
        } else {
            pipe_from(args, speeds, i + 2, source, targets, args[i + 1], speed_bits, backend)
        }
    } else if args[i] == "--speed"@ {
        if i + 1 >= args.len() {
            Err("--speed requires a value"@)
        } else {
            match speeds[i + 1] {
                Some(bits) => pipe_from(args, speeds, i + 2, source, targets, voice, bits, backend),
                None => Err("invalid speed: "@ + args[i + 1]),
            }
        }
    } else {
        Err("unexpected argument: "@ + args[i])
    }
}

/// What a command line means.
pub open spec fn parse_command_spec(args: Seq<Seq<char>>, speeds: Seq<Option<u32>>) -> Result<
    CommandView,
    Seq<char>,
> {
    if args.len() == 0 {
        Ok(CommandView::Help)
    } else if args.len() == 1 && args[0] == "--help"@ {
        Ok(CommandView::Help)
    } else if args.len() == 1 && args[0] == "--version"@ {
        Ok(CommandView::Version)
    } else if args[0] == "list_voices"@ {
        list_voices_from(args, 1, TtsBackendKind::Kokoro)
    } else if args[0] == "pipe"@ {
        pipe_from(
            args,
            speeds,
            1,
            None,
            Seq::empty(),
            "af_heart"@,
            DEFAULT_SPEED_BITS,
            TtsBackendKind::Kokoro,
        )
    } else {
        Err("unknown function: "@ + args[0])
    }
}

/// Parses the options of `list_voices`, which start at `args[start]`.
pub fn parse_list_voices(args: &Vec<String>, start: usize) -> (res: Result<Command, CliError>)
    requires
        start <= args.len(),
    ensures
        result_view(res) == list_voices_from(
            args_view(args@),
            start as int,
            TtsBackendKind::Kokoro,
        ),
{
    let ghost av = args_view(args@);
    let mut backend = TtsDefaults::default().backend;
    let mut i = start;
    while i < args.len()
        invariant
            av == args_view(args@),
            start <= i <= args.len(),
            list_voices_from(av, start as int, TtsBackendKind::Kokoro) == list_voices_from(
                av,
                i as int,
                backend,
            ),
        decreases args.len() - i,
    {
        if str_eq(args[i].as_str(), "--backend") {
            if i + 1 >= args.len() {
                return Err(invalid_str("--backend requires a name"));
            }
            match parse_backend(args[i + 1].as_str()) {
                Ok(b) => backend = b,
                Err(e) => return Err(e),
            }
            i = i + 2;
        } else {
            return Err(invalid_with("unexpected argument: ", args[i].as_str()));
        }
    }
    Ok(Command::ListVoices { backend })
}

pub open spec fn opt_source_view(s: Option<SourceSpec>) -> Option<SourceView> {
    match s {
        Some(x) => Some(x@),
        None => None,
    }
}

/// Parses the options of `pipe`, which start at `args[start]`.
pub fn parse_pipe(args: &Vec<String>, speeds: &Vec<Option<u32>>, start: usize) -> (res: Result<
    Command,
    CliError,
>)
    requires
        start <= args.len(),
        speeds.len() == args.len(),
    ensures
        result_view(res) == pipe_from(
            args_view(args@),
            speeds@,
            start as int,
            None,
            Seq::empty(),
            "af_heart"@,
            DEFAULT_SPEED_BITS,
            TtsBackendKind::Kokoro,
        ),
{
    let ghost av = args_view(args@);
    let defaults = TtsDefaults::default();
    let mut source: Option<SourceSpec> = None;
    let mut targets: Vec<TargetSpec> = Vec::new();
    let mut voice = defaults.voice;
    let mut speed_bits = defaults.speed_bits;
    let mut backend = defaults.backend;
    let ghost first = pipe_from(
        av,
        speeds@,
        start as int,
        None,
        Seq::empty(),
        "af_heart"@,
        DEFAULT_SPEED_BITS,
        TtsBackendKind::Kokoro,
    );
    proof {
        assert(targets_view(targets@) =~= Seq::<TargetView>::empty());
    }
    let mut i = start;
    while i < args.len()
        invariant
            av == args_view(args@),
            speeds.len() == args.len(),
            start <= i <= args.len(),
            first == pipe_from(
                av,
                speeds@,
                start as int,
                None,
                Seq::empty(),
                "af_heart"@,
                DEFAULT_SPEED_BITS,
                TtsBackendKind::Kokoro,
            ),
            first == pipe_from(
                av,
                speeds@,
                i as int,
                opt_source_view(source),
                targets_view(targets@),
                voice@,
                speed_bits,
                backend,
            ),
        decreases args.len() - i,
    {
        let arg = args[i].as_str();
        if str_eq(arg, "-i") {
            if source.is_some() {
                return Err(invalid_str("-i can only be used once"));
            }
            if i + 1 >= args.len() {
                return Err(invalid_str("-i requires text:<text>, file:<path>, or stdin"));
            }
            match parse_source(args[i + 1].as_str()) {
                Ok(s) => source = Some(s),
                Err(e) => return Err(e),
            }
            i = i + 2;
        } else if str_eq(arg, "-o") {
            if i + 1 >= args.len() {
                return Err(invalid_str("-o requires file:<path> or device[:name]"));
            }
            match parse_target(args[i + 1].as_str()) {
                Ok(t) => {
                    let ghost old_targets = targets@;
                    targets.push(t);
                    proof {
                        assert(targets_view(targets@) =~= targets_view(old_targets).push(t@));
                    }
                },
                Err(e) => return Err(e),
            }
            i = i + 2;
        } else if str_eq(arg, "--backend") {
            if i + 1 >= args.len() {
                return Err(invalid_str("--backend requires a name"));
            }
            match parse_backend(args[i + 1].as_str()) {
                Ok(b) => backend = b,
                Err(e) => return Err(e),
            }
            i = i + 2;
        } else if str_eq(arg, "--voice") {
            if i + 1 >= args.len() {
                return Err(invalid_str("--voice requires a name"));
            }
            voice = args[i + 1].clone();
            i = i + 2;
        } else if str_eq(arg, "--speed") {
            if i + 1 >= args.len() {
                return Err(invalid_str("--speed requires a value"));
            }
            match speeds[i + 1] {
                Some(bits) => speed_bits = bits,
                None => return Err(invalid_with("invalid speed: ", args[i + 1].as_str())),
            }
            i = i + 2;
        } else {
            return Err(invalid_with("unexpected argument: ", arg));
        }
    }
    match source {
        None => Err(invalid_str("pipe requires -i text:<text>, -i file:<path>, or -i stdin")),
        Some(s) => {
            if targets.len() == 0 {
                Err(invalid_str("pipe requires at least one -o file:<path> or -o device[:name]"))
            } else {
                Ok(
                    Command::Pipe {
                        options: PipeOptions { source: s, targets, voice, speed_bits, backend },
                    },
                )
            }
        },
    }
}

/// Parses a command line (without the program name).
///
/// `speeds[i]` is the bit pattern of `args[i]` parsed as an `f32`, or `None`
/// where `args[i]` is no float.
pub fn parse_command(args: Vec<String>, speeds: Vec<Option<u32>>) -> (res: Result<
    Command,
    CliError,
>)
    requires
        speeds.len() == args.len(),
    ensures
        result_view(res) == parse_command_spec(args_view(args@), speeds@),
{
    let ghost av = args_view(args@);
    if args.len() == 0 {
        return Ok(Command::Help);
    }
    let first = args[0].as_str();
    if args.len() == 1 && str_eq(first, "--help") {
        Ok(Command::Help)
    } else if args.len() == 1 && str_eq(first, "--version") {
        Ok(Command::Version)
    } else if str_eq(first, "list_voices") {
        parse_list_voices(&args, 1)
    } else if str_eq(first, "pipe") {
        parse_pipe(&args, &speeds, 1)
    } else {
        Err(invalid_with("unknown function: ", first))
    }
}

// ---------------------------------------------------------------------------
// Laws of the command line
// ---------------------------------------------------------------------------

proof fn lemma_pipe_from_keeps_targets(
    args: Seq<Seq<char>>,
    speeds: Seq<Option<u32>>,
    i: int,
    source: Option<SourceView>,
    targets: Seq<TargetView>,
    voice: Seq<char>,
    speed_bits: u32,
    backend: TtsBackendKind,
)
    ensures
        pipe_from(args, speeds, i, source, targets, voice, speed_bits, backend) matches Ok(
            CommandView::Pipe { options },
        ) ==> {
            &&& options.targets.len() > 0
            &&& options.targets.len() >= targets.len()
            &&& options.targets.take(targets.len() as int) == targets
        },
    decreases args.len() - i,
{
    if i < 0 || i >= args.len() {
        assert(targets.take(targets.len() as int) =~= targets);
    } else if i + 1 < args.len() {
        if args[i] == "-i"@ {
            if let Ok(s) = parse_source_spec(args[i + 1]) {
                lemma_pipe_from_keeps_targets(
                    args,
                    speeds,
                    i + 2,
                    Some(s),
                    targets,
                    voice,
                    speed_bits,
                    backend,
                );
            }
        } else if args[i] == "-o"@ {
            if let Ok(t) = parse_target_spec(args[i + 1]) {
                lemma_pipe_from_keeps_targets(
                    args,
                    speeds,
                    i + 2,
                    source,
                    targets.push(t),
                    voice,
                    speed_bits,
                    backend,
                );
                if let Ok(CommandView::Pipe { options }) = pipe_from(
                    args,
                    speeds,
                    i + 2,
                    source,
                    targets.push(t),
                    voice,
                    speed_bits,
                    backend,
                ) {
                    let n = targets.len() as int;
                    assert(options.targets.take(n + 1) == targets.push(t));
                    assert(options.targets.take(n) =~= options.targets.take(n + 1).take(n));
                    assert(targets.push(t).take(n) =~= targets);
                }
            }
        } else if args[i] == "--backend"@ {
            if let Ok(b) = parse_backend_spec(args[i + 1]) {
                lemma_pipe_from_keeps_targets(args, speeds, i + 2, source, targets, voice, speed_bits, b);
            }
        } else if args[i] == "--voice"@ {
            lemma_pipe_from_keeps_targets(
                args,
                speeds,
                i + 2,
                source,
                targets,
                args[i + 1],
                speed_bits,
                backend,
            );
        } else if args[i] == "--speed"@ {
            if let Some(bits) = speeds[i + 1] {
                lemma_pipe_from_keeps_targets(args, speeds, i + 2, source, targets, voice, bits, backend);
            }
        }
    }
}

proof fn lemma_list_voices_from_lists(args: Seq<Seq<char>>, i: int, backend: TtsBackendKind)
    ensures
        list_voices_from(args, i, backend) matches Ok(c) ==> c is ListVoices,
    decreases args.len() - i,
{
    if 0 <= i && i + 1 < args.len() && args[i] == "--backend"@ {
        if let Ok(b) = parse_backend_spec(args[i + 1]) {
            lemma_list_voices_from_lists(args, i + 2, b);
        }
    }
}

/// A `pipe` command line is accepted only with at least one output target.
pub proof fn lemma_accepted_pipe_has_target(args: Seq<Seq<char>>, speeds: Seq<Option<u32>>)
    ensures
        parse_command_spec(args, speeds) matches Ok(CommandView::Pipe { options }) ==> options.targets.len()
            > 0,
{
    lemma_list_voices_from_lists(args, 1, TtsBackendKind::Kokoro);
    if args.len() > 0 && args[0] == "pipe"@ {
        lemma_pipe_from_keeps_targets(
            args,
            speeds,
            1,
            None,
            Seq::empty(),
            "af_heart"@,
            DEFAULT_SPEED_BITS,
            TtsBackendKind::Kokoro,
        );
    }
}

proof fn lemma_pipe_from_keeps_settings(
    args: Seq<Seq<char>>,
    speeds: Seq<Option<u32>>,
    i: int,
    source: Option<SourceView>,
    targets: Seq<TargetView>,
    voice: Seq<char>,
    speed_bits: u32,
    backend: TtsBackendKind,
)
    ensures
        pipe_from(args, speeds, i, source, targets, voice, speed_bits, backend) matches Ok(
            CommandView::Pipe { options },
        ) ==> {
            &&& (forall|j: int| i <= j < args.len() ==> args[j] != "--voice"@) ==> options.voice
                == voice
            &&& (forall|j: int| i <= j < args.len() ==> args[j] != "--speed"@)
                ==> options.speed_bits == speed_bits
            &&& (forall|j: int| i <= j < args.len() ==> args[j] != "--backend"@)
                ==> options.backend == backend
        },
    decreases args.len() - i,
{
    if 0 <= i && i + 1 < args.len() {
        if args[i] == "-i"@ {
            if let Ok(s) = parse_source_spec(args[i + 1]) {
                lemma_pipe_from_keeps_settings(
                    args,
                    speeds,
                    i + 2,
                    Some(s),
                    targets,
                    voice,
                    speed_bits,
                    backend,
                );
            }
        } else if args[i] == "-o"@ {
            if let Ok(t) = parse_target_spec(args[i + 1]) {
                lemma_pipe_from_keeps_settings(
                    args,
                    speeds,
                    i + 2,
                    source,
                    targets.push(t),
                    voice,
                    speed_bits,
                    backend,
                );
            }
        } else if args[i] == "--backend"@ {
            if let Ok(b) = parse_backend_spec(args[i + 1]) {
                lemma_pipe_from_keeps_settings(args, speeds, i + 2, source, targets, voice, speed_bits, b);
            }
        } else if args[i] == "--voice"@ {
            lemma_pipe_from_keeps_settings(
                args,
                speeds,
                i + 2,
                source,
                targets,
                args[i + 1],
                speed_bits,
                backend,
            );
        } else if args[i] == "--speed"@ {
            if let Some(bits) = speeds[i + 1] {
                lemma_pipe_from_keeps_settings(args, speeds, i + 2, source, targets, voice, bits, backend);
            }
        }
    }
}

/// Without `--voice`, `--speed` or `--backend`, a `pipe` command uses the
/// defaults `af_heart`, `1.0` and `kokoro`.
pub proof fn lemma_pipe_defaults(args: Seq<Seq<char>>, speeds: Seq<Option<u32>>)
    ensures
        parse_command_spec(args, speeds) matches Ok(CommandView::Pipe { options }) ==> {
            &&& (forall|j: int| 0 <= j < args.len() ==> args[j] != "--voice"@) ==> options.voice
                == "af_heart"@
            &&& (forall|j: int| 0 <= j < args.len() ==> args[j] != "--speed"@)
                ==> options.speed_bits == DEFAULT_SPEED_BITS
            &&& (forall|j: int| 0 <= j < args.len() ==> args[j] != "--backend"@)
                ==> options.backend == TtsBackendKind::Kokoro
        },
{
    lemma_list_voices_from_lists(args, 1, TtsBackendKind::Kokoro);
    if args.len() > 0 && args[0] == "pipe"@ {
        lemma_pipe_from_keeps_settings(
            args,
            speeds,
            1,
            None,
            Seq::empty(),
            "af_heart"@,
            DEFAULT_SPEED_BITS,
            TtsBackendKind::Kokoro,
        );
    }
}

proof fn lemma_first_colon_exists(v: Seq<char>, j: int)
    requires
        0 <= j < v.len(),
        v[j] == ':',
    ensures
        exists|k: int| first_colon_at(v, k),
    decreases j,
{
    if forall|m: int| 0 <= m < j ==> v[m] != ':' {
        assert(first_colon_at(v, j));
    } else {
        let m = choose|m: int| 0 <= m < j && v[m] == ':';
        lemma_first_colon_exists(v, m);
    }
}

/// A typed value is its kind, a `:` and its value; the kind holds no `:`.
pub proof fn lemma_split_typed_value_rejoins(v: Seq<char>)
    ensures
        ({
            let (kind, rest) = split_typed_value_spec(v);
            match rest {
                Some(r) => kind + seq![':'] + r == v && !kind.contains(':'),
                None => kind == v && !v.contains(':'),
            }
        }),
{
    if exists|k: int| first_colon_at(v, k) {
        let k = choose|k: int| first_colon_at(v, k);
        assert(v.take(k) + seq![':'] + v.skip(k + 1) =~= v);
        assert forall|j: int| 0 <= j < v.take(k).len() implies v.take(k)[j] != ':' by {}
    } else {
        assert forall|j: int| 0 <= j < v.len() implies v[j] != ':' by {
            if v[j] == ':' {
                lemma_first_colon_exists(v, j);
            }
        }
    }
}

/// The values that follow `flag` where it stands at a flag position: `i`,
/// `i + 2`, ... (each flag of `pipe` takes one value).
pub open spec fn flag_values(args: Seq<Seq<char>>, i: int, flag: Seq<char>) -> Seq<Seq<char>>
    decreases args.len() - i,
{
    if i < 0 || i + 1 >= args.len() {
        Seq::empty()
    } else if args[i] == flag {
        seq![args[i + 1]] + flag_values(args, i + 2, flag)
    } else {
        flag_values(args, i + 2, flag)
    }
}

proof fn lemma_pipe_from_source_targets(
    args: Seq<Seq<char>>,
    speeds: Seq<Option<u32>>,
    i: int,
    source: Option<SourceView>,
    targets: Seq<TargetView>,
    voice: Seq<char>,
    speed_bits: u32,
    backend: TtsBackendKind,
)
    requires
        i >= 0,
    ensures
        pipe_from(args, speeds, i, source, targets, voice, speed_bits, backend) matches Ok(
            CommandView::Pipe { options },
        ) ==> {
            let iv = flag_values(args, i, "-i"@);
            let ov = flag_values(args, i, "-o"@);
            &&& source is None ==> iv.len() == 1 && parse_source_spec(iv[0]) == Ok::<
                SourceView,
                Seq<char>,
            >(options.source)
            &&& source is Some ==> iv.len() == 0 && options.source == source->Some_0
            &&& options.targets.len() == targets.len() + ov.len()
            &&& forall|k: int| 0 <= k < targets.len() ==> options.targets[k] == targets[k]
            &&& forall|k: int|
                0 <= k < ov.len() ==> parse_target_spec(ov[k]) == Ok::<TargetView, Seq<char>>(
                    options.targets[targets.len() + k],
                )
        },
    decreases args.len() - i,
{
    reveal_strlit("-i");
    reveal_strlit("-o");
    assert("-i"@ != "-o"@) by {
        assert("-i"@[1] != "-o"@[1]);
    }
    if i + 1 < args.len() {
        let v = args[i + 1];
        if args[i] == "-i"@ {
            if source is None {
                if let Ok(s) = parse_source_spec(v) {
                    lemma_pipe_from_source_targets(
                        args,
                        speeds,
                        i + 2,
                        Some(s),
                        targets,
                        voice,
                        speed_bits,
                        backend,
                    );
                    assert(flag_values(args, i, "-o"@) == flag_values(args, i + 2, "-o"@));
                }
            }
        } else if args[i] == "-o"@ {
            if let Ok(t) = parse_target_spec(v) {
                lemma_pipe_from_source_targets(
                    args,
                    speeds,
                    i + 2,
                    source,
                    targets.push(t),
                    voice,
                    speed_bits,
                    backend,
                );
                let ov = flag_values(args, i + 2, "-o"@);
                assert(flag_values(args, i, "-o"@) == seq![v] + ov);
                if let Ok(CommandView::Pipe { options }) = pipe_from(
                    args,
                    speeds,
                    i + 2,
                    source,
                    targets.push(t),
                    voice,
                    speed_bits,
                    backend,
                ) {
                    let all = seq![v] + ov;
                    assert forall|k: int| 0 <= k < all.len() implies parse_target_spec(all[k]) == Ok::<
                        TargetView,
                        Seq<char>,
                    >(options.targets[targets.len() + k]) by {
                        if k == 0 {
                            assert(options.targets[targets.len() as int] == targets.push(t)[targets.len() as int]);
                        } else {
                            assert(all[k] == ov[k - 1]);
                        }
                    }
                    assert forall|k: int| 0 <= k < targets.len() implies options.targets[k] == targets[k] by {
                        assert(targets.push(t)[k] == targets[k]);
                    }
                }
            }
        } else if args[i] == "--backend"@ {
            if let Ok(b) = parse_backend_spec(v) {
                lemma_pipe_from_source_targets(args, speeds, i + 2, source, targets, voice, speed_bits, b);
            }
        } else if args[i] == "--voice"@ {
            lemma_pipe_from_source_targets(args, speeds, i + 2, source, targets, v, speed_bits, backend);
        } else if args[i] == "--speed"@ {
            if let Some(bits) = speeds[i + 1] {
                lemma_pipe_from_source_targets(args, speeds, i + 2, source, targets, voice, bits, backend);
            }
        }
    }
}

/// An accepted `pipe` command line holds exactly one `-i` flag, and its source
/// is what that flag's value gives; its targets are what the values of its
/// `-o` flags give, one for each, in their order.
pub proof fn lemma_pipe_source_and_targets(args: Seq<Seq<char>>, speeds: Seq<Option<u32>>)
    ensures
        parse_command_spec(args, speeds) matches Ok(CommandView::Pipe { options }) ==> {
            let iv = flag_values(args, 1, "-i"@);
            let ov = flag_values(args, 1, "-o"@);
            &&& iv.len() == 1
            &&& parse_source_spec(iv[0]) == Ok::<SourceView, Seq<char>>(options.source)
            &&& options.targets.len() == ov.len()
            &&& forall|k: int|
                0 <= k < ov.len() ==> parse_target_spec(ov[k]) == Ok::<TargetView, Seq<char>>(
                    options.targets[k],
                )
        },
{
    lemma_list_voices_from_lists(args, 1, TtsBackendKind::Kokoro);
    if args.len() > 0 && args[0] == "pipe"@ {
        lemma_pipe_from_source_targets(
            args,
            speeds,
            1,
            None,
            Seq::empty(),
            "af_heart"@,
            DEFAULT_SPEED_BITS,
            TtsBackendKind::Kokoro,
        );
    }
}

/// A kind without `:` followed by `:` and a value splits back into that kind
/// and that value, whatever the value holds (colons included).
pub proof fn lemma_split_kind_value(kind: Seq<char>, value: Seq<char>)
    requires
        !kind.contains(':'),
    ensures
        split_typed_value_spec(kind + seq![':'] + value) == (kind, Some(value)),
{
    let v = kind + seq![':'] + value;
    let n = kind.len() as int;
    assert forall|j: int| 0 <= j < n implies v[j] != ':' by {
        assert(v[j] == kind[j]);
    }
    assert(first_colon_at(v, n));
    let k = choose|k: int| first_colon_at(v, k);
    assert(k == n);
    assert(v.take(n) =~= kind);
    assert(v.skip(n + 1) =~= value);
}

proof fn lemma_kind_literals()
    ensures
        !"text"@.contains(':'),
        !"file"@.contains(':'),
        !"device"@.contains(':'),
        "text"@ != "file"@,
        "text"@ != "stdin"@,
        "file"@ != "device"@,
        "text:"@ == "text"@ + seq![':'],
        "file:"@ == "file"@ + seq![':'],
        "device:"@ == "device"@ + seq![':'],
{
    reveal_strlit("text");
    reveal_strlit("file");
    reveal_strlit("stdin");
    reveal_strlit("device");
    reveal_strlit("text:");
    reveal_strlit("file:");
    reveal_strlit("device:");
    assert("text:"@ =~= "text"@ + seq![':']);
    assert("file:"@ =~= "file"@ + seq![':']);
    assert("device:"@ =~= "device"@ + seq![':']);
    assert("text"@[0] != "file"@[0]);
    assert("file"@[0] != "device"@[0]);
}

/// `-i text:<t>` reads the text `t`: everything after the first `:`, colons
/// included; `-i file:<p>` reads the file `p`, likewise.
pub proof fn lemma_source_value_is_rest(t: Seq<char>)
    requires
        t.len() > 0,
    ensures
        parse_source_spec("text:"@ + t) == Ok::<SourceView, Seq<char>>(SourceView::Text(t)),
        parse_source_spec("file:"@ + t) == Ok::<SourceView, Seq<char>>(SourceView::File(t)),
{
    lemma_kind_literals();
    lemma_split_kind_value("text"@, t);
    lemma_split_kind_value("file"@, t);
    assert("text:"@ + t == "text"@ + seq![':'] + t);
    assert("file:"@ + t == "file"@ + seq![':'] + t);
}

/// `-o device:<n>` names the device `n`: everything after the first `:`,
/// colons included; `-o file:<p>` writes the file `p`, likewise.
pub proof fn lemma_target_value_is_rest(n: Seq<char>)
    requires
        n.len() > 0,
    ensures
        parse_target_spec("device:"@ + n) == Ok::<TargetView, Seq<char>>(TargetView::Device(Some(n))),
        parse_target_spec("file:"@ + n) == Ok::<TargetView, Seq<char>>(TargetView::File(n)),
{
    lemma_kind_literals();
    lemma_split_kind_value("device"@, n);
    lemma_split_kind_value("file"@, n);
    assert("device:"@ + n == "device"@ + seq![':'] + n);
    assert("file:"@ + n == "file"@ + seq![':'] + n);
}

/// `flag` stands at position `j`, a flag position of a walk that starts at
/// `start` (flags and their values alternate), and has a value after it.
pub open spec fn flag_at(args: Seq<Seq<char>>, start: int, j: int, flag: Seq<char>) -> bool {
    start <= j && j + 1 < args.len() && (j - start) % 2 == 0 && args[j] == flag
}

/// `j` is the last flag position from `start` on that holds `flag`.
pub open spec fn last_flag_at(args: Seq<Seq<char>>, start: int, j: int, flag: Seq<char>) -> bool {
    flag_at(args, start, j, flag) && forall|j2: int| j < j2 ==> !#[trigger] flag_at(args, start, j2, flag)
}

/// No flag position from `start` on holds `flag`.
pub open spec fn no_flag(args: Seq<Seq<char>>, start: int, flag: Seq<char>) -> bool {
    forall|j: int| !#[trigger] flag_at(args, start, j, flag)
}

proof fn lemma_flag_literals()
    ensures
        "-i"@ != "--speed"@,
        "-o"@ != "--speed"@,
        "--backend"@ != "--speed"@,
        "--voice"@ != "--speed"@,
        "-i"@ != "--voice"@,
        "-o"@ != "--voice"@,
        "--backend"@ != "--voice"@,
        "-i"@ != "--backend"@,
        "-o"@ != "--backend"@,
{
    reveal_strlit("-i");
    reveal_strlit("-o");
    reveal_strlit("--backend");
    reveal_strlit("--voice");
    reveal_strlit("--speed");
    assert("-i"@.len() == 2);
    assert("-o"@.len() == 2);
    assert("--backend"@.len() == 9);
    assert("--voice"@.len() == 7);
    assert("--speed"@.len() == 7);
    assert("--voice"@[2] != "--speed"@[2]);
}

/// How the flag positions of `flag` from `i` on relate to those from `i + 2`
/// on: the walk from `i` sees the flag at `i` first, then all the others.
proof fn lemma_flag_step(args: Seq<Seq<char>>, i: int, flag: Seq<char>)
    requires
        0 <= i,
        i + 1 < args.len(),
    ensures
        args[i] != flag ==> no_flag(args, i, flag) == no_flag(args, i + 2, flag),
        args[i] != flag ==> forall|j: int|
            #[trigger] last_flag_at(args, i, j, flag) == last_flag_at(args, i + 2, j, flag),
        args[i] == flag ==> !no_flag(args, i, flag),
        args[i] == flag && no_flag(args, i + 2, flag) ==> last_flag_at(args, i, i, flag),
        args[i] == flag ==> forall|j: int| #[trigger]
            last_flag_at(args, i, j, flag) ==> (j == i && no_flag(args, i + 2, flag)) || last_flag_at(
                args,
                i + 2,
                j,
                flag,
            ),
{
    assert forall|j: int| j != i implies #[trigger] flag_at(args, i, j, flag) == flag_at(
        args,
        i + 2,
        j,
        flag,
    ) by {
        if flag_at(args, i, j, flag) {
            assert(j - i >= 2);
            assert((j - (i + 2)) % 2 == 0);
        }
        if flag_at(args, i + 2, j, flag) {
            assert((j - i) % 2 == 0);
        }
    }
    if args[i] == flag {
        assert(flag_at(args, i, i, flag));
        assert forall|j: int| #[trigger] last_flag_at(args, i, j, flag) implies (j == i && no_flag(
            args,
            i + 2,
            flag,
        )) || last_flag_at(args, i + 2, j, flag) by {
            if j != i {
                assert(flag_at(args, i + 2, j, flag));
                assert forall|j2: int| j < j2 implies !#[trigger] flag_at(args, i + 2, j2, flag) by {
                    assert(!flag_at(args, i, j2, flag));
                }
            } else {
                assert forall|j2: int| !#[trigger] flag_at(args, i + 2, j2, flag) by {
                    if flag_at(args, i + 2, j2, flag) {
                        assert(flag_at(args, i, j2, flag));
                    }
                }
            }
        }
        if no_flag(args, i + 2, flag) {
            assert forall|j2: int| i < j2 implies !#[trigger] flag_at(args, i, j2, flag) by {
                assert(!flag_at(args, i + 2, j2, flag));
            }
        }
    } else {
        assert(!flag_at(args, i, i, flag));
        assert forall|j: int| #[trigger]
            last_flag_at(args, i, j, flag) == last_flag_at(args, i + 2, j, flag) by {
            if last_flag_at(args, i, j, flag) {
                assert forall|j2: int| j < j2 implies !#[trigger] flag_at(args, i + 2, j2, flag) by {
                    assert(!flag_at(args, i, j2, flag));
                }
            }
            if last_flag_at(args, i + 2, j, flag) {
                assert forall|j2: int| j < j2 implies !#[trigger] flag_at(args, i, j2, flag) by {
                    if j2 != i {
                        assert(!flag_at(args, i + 2, j2, flag));
                    }
                }
            }
        }
        if no_flag(args, i, flag) {
            assert forall|j2: int| !#[trigger] flag_at(args, i + 2, j2, flag) by {
                if j2 != i {
                    assert(!flag_at(args, i, j2, flag));
                }
            }
        }
        if no_flag(args, i + 2, flag) {
            assert forall|j2: int| !#[trigger] flag_at(args, i, j2, flag) by {
                if j2 != i {
                    assert(!flag_at(args, i + 2, j2, flag));
                }
            }
        }
    }
}

proof fn lemma_pipe_from_settings(
    args: Seq<Seq<char>>,
    speeds: Seq<Option<u32>>,
    i: int,
    source: Option<SourceView>,
    targets: Seq<TargetView>,
    voice: Seq<char>,
    speed_bits: u32,
    backend: TtsBackendKind,
)
    requires
        i >= 0,
    ensures
        pipe_from(args, speeds, i, source, targets, voice, speed_bits, backend) matches Ok(
            CommandView::Pipe { options },
        ) ==> {
            &&& forall|j: int| #[trigger]
                last_flag_at(args, i, j, "--speed"@) ==> speeds[j + 1] == Some(options.speed_bits)
            &&& no_flag(args, i, "--speed"@) ==> options.speed_bits == speed_bits
            &&& forall|j: int| #[trigger]
                last_flag_at(args, i, j, "--voice"@) ==> args[j + 1] == options.voice
            &&& no_flag(args, i, "--voice"@) ==> options.voice == voice
            &&& forall|j: int| #[trigger]
                last_flag_at(args, i, j, "--backend"@) ==> parse_backend_spec(args[j + 1]) == Ok::<
                    TtsBackendKind,
                    Seq<char>,
                >(options.backend)
            &&& no_flag(args, i, "--backend"@) ==> options.backend == backend
        },
    decreases args.len() - i,
{
    lemma_flag_literals();
    if i + 1 < args.len() {
        lemma_flag_step(args, i, "--speed"@);
        lemma_flag_step(args, i, "--voice"@);
        lemma_flag_step(args, i, "--backend"@);
        let v = args[i + 1];
        if args[i] == "-i"@ {
            if source is None {
                if let Ok(s) = parse_source_spec(v) {
                    lemma_pipe_from_settings(args, speeds, i + 2, Some(s), targets, voice, speed_bits, backend);
                }
            }
        } else if args[i] == "-o"@ {
            if let Ok(t) = parse_target_spec(v) {
                lemma_pipe_from_settings(
                    args,
                    speeds,
                    i + 2,
                    source,
                    targets.push(t),
                    voice,
                    speed_bits,
                    backend,
                );
            }
        } else if args[i] == "--backend"@ {
            if let Ok(b) = parse_backend_spec(v) {
                lemma_pipe_from_settings(args, speeds, i + 2, source, targets, voice, speed_bits, b);
            }
        } else if args[i] == "--voice"@ {
            lemma_pipe_from_settings(args, speeds, i + 2, source, targets, v, speed_bits, backend);
        } else if args[i] == "--speed"@ {
            if let Some(bits) = speeds[i + 1] {
                lemma_pipe_from_settings(args, speeds, i + 2, source, targets, voice, bits, backend);
            }
        }
    }
}

/// In an accepted `pipe` command line, the speed is the float value after the
/// last `--speed` flag, wherever `-i` and `-o` stand, the voice is the value
/// after the last `--voice` flag, and the backend is the one named after the
/// last `--backend` flag; without such a flag the default holds.
pub proof fn lemma_pipe_last_setting_wins(args: Seq<Seq<char>>, speeds: Seq<Option<u32>>)
    ensures
        parse_command_spec(args, speeds) matches Ok(CommandView::Pipe { options }) ==> {
            &&& forall|j: int|
                last_flag_at(args, 1, j, "--speed"@) ==> speeds[j + 1] == Some(options.speed_bits)
            &&& no_flag(args, 1, "--speed"@) ==> options.speed_bits == DEFAULT_SPEED_BITS
            &&& forall|j: int| last_flag_at(args, 1, j, "--voice"@) ==> args[j + 1] == options.voice
            &&& no_flag(args, 1, "--voice"@) ==> options.voice == "af_heart"@
            &&& forall|j: int|
                last_flag_at(args, 1, j, "--backend"@) ==> parse_backend_spec(args[j + 1]) == Ok::<
                    TtsBackendKind,
                    Seq<char>,
                >(options.backend)
            &&& no_flag(args, 1, "--backend"@) ==> options.backend == TtsBackendKind::Kokoro
        },
{
    lemma_list_voices_from_lists(args, 1, TtsBackendKind::Kokoro);
    if args.len() > 0 && args[0] == "pipe"@ {
        lemma_pipe_from_settings(
            args,
            speeds,
            1,
            None,
            Seq::empty(),
            "af_heart"@,
            DEFAULT_SPEED_BITS,
            TtsBackendKind::Kokoro,
        );
    }
}

} // verus!
