//! Model file locations. Paths are held as strings; `std::path::Path` does the
//! path arithmetic behind the wrappers below.
use vstd::prelude::*;

verus! {

/// What `Path::join` gives for `base` joined with `part`, as a string.
pub uninterp spec fn joined_path(base: Seq<char>, part: Seq<char>) -> Seq<char>;

/// What `Path::file_stem` gives for `path`.
pub uninterp spec fn path_file_stem(path: Seq<char>) -> Option<Seq<char>>;

/// What `Path::with_file_name` gives for `path` and `name`, as a string.
pub uninterp spec fn path_with_file_name(path: Seq<char>, name: Seq<char>) -> Seq<char>;

pub open spec fn opt_string_view(s: Option<String>) -> Option<Seq<char>> {
    match s {
        Some(x) => Some(x@),
        None => None,
    }
}

/// Calls `std::path::Path::join`; the result is `joined_path` of the two
/// strings. Strings in, so the joined path is valid UTF-8 and converts back
/// without loss.
#[verifier::external_body]
pub(crate) fn join_path(base: &str, part: &str) -> (res: String)
    ensures
        res@ == joined_path(base@, part@),
{
    std::path::Path::new(base).join(part).to_string_lossy().into_owned()
}

/// Calls `std::path::Path::file_stem`; the result is `path_file_stem` of the
/// string. A stem of a UTF-8 path is UTF-8, so the conversion loses nothing.
#[verifier::external_body]
fn file_stem(path: &str) -> (res: Option<String>)
    ensures
        opt_string_view(res) == path_file_stem(path@),
{
    match std::path::Path::new(path).file_stem() {
        Some(s) => Some(s.to_string_lossy().into_owned()),
        None => None,
    }
}

/// Calls `std::path::Path::with_file_name`; the result is
/// `path_with_file_name` of the two strings.
#[verifier::external_body]
fn with_file_name(path: &str, name: &str) -> (res: String)
    ensures
        res@ == path_with_file_name(path@, name@),
{
    std::path::Path::new(path).with_file_name(name).to_string_lossy().into_owned()
}

/// The directory under a home directory where models live.
pub open spec fn model_dir_spec(home: Seq<char>) -> Seq<char> {
    joined_path(home, ".airs/models"@)
}

/// The models directory, `<home>/.airs/models`.
pub fn model_dir(home: &str) -> (dir: String)
    ensures
        dir@ == model_dir_spec(home@),
{
    join_path(home, ".airs/models")
}

/// The directory of the model `name`, `<home>/.airs/models/<name>`.
pub fn model_path(home: &str, name: &str) -> (path: String)
    ensures
        path@ == joined_path(model_dir_spec(home@), name@),
{
    let dir = model_dir(home);
    join_path(dir.as_str(), name)
}

/// The file name of the optimised graph for a model whose file stem is `stem`.
pub open spec fn optimized_file_name_spec(stem: Option<Seq<char>>) -> Seq<char> {
    match stem {
        Some(s) if s.len() > 0 => s + ".optimized.onnx"@,
        _ => "model.optimized.onnx"@,
    }
}

/// `<stem>.optimized.onnx`, or `model.optimized.onnx` without a usable stem.
pub fn optimized_file_name(stem: Option<String>) -> (name: String)
    ensures
        name@ == optimized_file_name_spec(opt_string_view(stem)),
{
    match stem {
        Some(s) => {
            if !s.as_str().is_empty() {
                let mut n = s;
                n.append(".optimized.onnx");
                return n;
            }
        },
        None => {},
    }
    "model.optimized.onnx".to_owned()
}

/// Where the optimised graph of the model file `onnx_path` is cached: beside it,
/// named after its stem.
pub fn optimized_model_path(onnx_path: &str) -> (path: String)
    ensures
        path@ == path_with_file_name(
            onnx_path@,
            optimized_file_name_spec(path_file_stem(onnx_path@)),
        ),
{
    let stem = file_stem(onnx_path);
    let name = optimized_file_name(stem);
    with_file_name(onnx_path, name.as_str())
}

} // verus!
