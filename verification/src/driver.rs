//! Choosing where the compiler writes its output.

use crate::cli::Emit;
use crate::lexer::display::append_str;
use vstd::prelude::*;

verus! {

/// The stem of the last component of the path `p` (std's `Path::file_stem`),
/// or `None` where the path has no file name.
pub uninterp spec fn path_file_stem(p: Seq<char>) -> Option<Seq<char>>;

/// The path `p` with its extension set to `ext` (std's
/// `Path::with_extension`).
pub uninterp spec fn path_with_extension(p: Seq<char>, ext: Seq<char>) -> Seq<char>;

/// `Path::new(p).file_stem()`, as text. The input is text, so the stem is
/// too; what the stem is, is a function of the path alone and is not stated
/// further here.
#[verifier::external_body]
fn file_stem_of(p: &str) -> (r: Option<String>)
    ensures
        match r {
            Some(s) => path_file_stem(p@) == Some(s@),
            None => path_file_stem(p@) is None,
        },
{
    std::path::Path::new(p).file_stem().map(|s| s.to_string_lossy().into_owned())
}

/// Whether `s` holds no path separator (`/`, and `\\` where that is one).
pub open spec fn no_separator(s: Seq<char>) -> bool {
    forall|i: int| 0 <= i < s.len() ==> s[i] != '/' && s[i] != '\\'
}

/// `Path::new(p).with_extension(ext)`, as text. std panics on an extension
/// holding a path separator, so `ext` holds none. The result is a function
/// of the two arguments alone and is not stated further here.
#[verifier::external_body]
fn with_extension_of(p: &str, ext: &str) -> (r: String)
    requires
        no_separator(ext@),
    ensures
        r@ == path_with_extension(p@, ext@),
{
    std::path::Path::new(p).with_extension(ext).to_string_lossy().into_owned()
}

/// The stem an output is named after: the input's stem, or `out`.
pub open spec fn stem_or_out(stem: Option<Seq<char>>) -> Seq<char> {
    match stem {
        Some(s) => s,
        None => "out"@,
    }
}

/// The extension an output of kind `emit` gets; an executable gets the
/// platform's `exe_ext`.
pub open spec fn output_extension_spec(emit: Emit, exe_ext: Seq<char>) -> Seq<char> {
    match emit {
        Emit::Executable => exe_ext,
        Emit::Assembly => "s"@,
        Emit::LlvmIr => "ll"@,
    }
}

/// The output path for the input `input`: its stem, with the extension of
/// `emit` where that is not empty.
pub open spec fn default_output_spec(input: Seq<char>, emit: Emit, exe_ext: Seq<char>) -> Seq<char> {
    let stem = stem_or_out(path_file_stem(input));
    let ext = output_extension_spec(emit, exe_ext);
    if ext.len() == 0 {
        stem
    } else {
        path_with_extension(stem, ext)
    }
}

/// The stem an output is named after, given the input's stem.
pub fn output_stem(stem: Option<String>) -> (r: String)
    ensures
        r@ == stem_or_out(match stem {
            Some(s) => Some(s@),
            None => None,
        }),
{
    match stem {
        Some(s) => s,
        None => {
            let mut s = String::new();
            append_str(&mut s, "out");
            s
        },
    }
}

/// The extension an output of kind `emit` gets; `exe_ext` is the platform's
/// extension for executables (empty on Unix).
pub fn output_extension<'a>(emit: Emit, exe_ext: &'a str) -> (r: &'a str)
    ensures
        r@ == output_extension_spec(emit, exe_ext@),
{
    match emit {
        Emit::Executable => exe_ext,
        Emit::Assembly => "s",
        Emit::LlvmIr => "ll",
    }
}

/// Where the output goes when no `-o` is given: the input's file stem (or
/// `out`) with the extension of the output kind; `exe_ext` is the platform's
/// extension for executables.
pub fn default_output_path(input: &str, emit: Emit, exe_ext: &str) -> (r: String)
    requires
        no_separator(exe_ext@),
    ensures
        r@ == default_output_spec(input@, emit, exe_ext@),
{
    let stem = file_stem_of(input);
    let stem = output_stem(stem);
    let ext = output_extension(emit, exe_ext);
    proof {
        reveal_strlit("s");
        reveal_strlit("ll");
        assert(no_separator(ext@));
    }
    if ext.is_empty() {
        stem
    } else {
        with_extension_of(stem.as_str(), ext)
    }
}

} // verus!
