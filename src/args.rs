//! The decisions behind the command line: which paths are accepted, whether an
//! output path is there when writing, and whether an overwrite was declined.

use vstd::prelude::*;
use vstd::string::*;
use crate::text::{str_equals, trim, trim_str};

verus! {

/// The command line: the export to read, whether to write, and where.
#[derive(Debug)]
pub struct Args {
    pub input_file: String,
    pub write: bool,
    pub output_file: Option<String>,
}

/// A command line that cannot be acted on.
#[derive(Debug, Clone, Copy, PartialEq, Eq, Structural)]
pub enum ArgError {
    /// The input file does not exist.
    InputMissing,
    /// `--write` was given without an output file.
    OutputRequired,
}

/// Accepts an input path that exists (`exists` says whether it does).
pub fn parse_input_path(s: &str, exists: bool) -> (r: Result<String, ArgError>)
    ensures
        exists ==> (r matches Ok(p) && p@ == s@),
        !exists ==> r == Err::<String, ArgError>(ArgError::InputMissing),
{
    if !exists {
        return Err(ArgError::InputMissing);
    }
    Ok(s.to_owned())
}

/// Accepts any output path.
pub fn parse_output_path(s: &str) -> (r: Result<String, ArgError>)
    ensures
        r matches Ok(p) && p@ == s@,
{
    Ok(s.to_owned())
}

/// The output path, which writing requires.
pub fn unwrap_path(path: &Option<String>) -> (r: Result<&String, ArgError>)
    ensures
        path matches Some(p) ==> r == Ok::<&String, ArgError>(&p),
        path is None ==> r == Err::<&String, ArgError>(ArgError::OutputRequired),
{
    match path {
        Some(p) => Ok(p),
        None => Err(ArgError::OutputRequired),
    }
}

/// What `str::to_lowercase` makes of a text.
pub uninterp spec fn lower_of(s: Seq<char>) -> Seq<char>;

/// Relies on `str::to_lowercase`: the result depends on the characters alone.
#[verifier::external_body]
fn lowercase(s: &str) -> (r: String)
    ensures
        r@ == lower_of(s@),
{
    s.to_lowercase()
}

/// Whether an answer, already trimmed and lower-cased, lets an existing file
/// be overwritten: anything but `n` does.
pub fn lowered_answer_confirms(lowered: &str) -> (r: bool)
    ensures
        r == (lowered@ != "n"@),
{
    !str_equals(lowered, "n")
}

/// Whether the answer to the overwrite question lets the file be truncated.
pub fn answer_confirms(answer: &str) -> (r: bool)
    ensures
        r == (lower_of(trim(answer@)) != "n"@),
{
    let trimmed = trim_str(answer);
    let lowered = lowercase(trimmed.as_str());
    lowered_answer_confirms(lowered.as_str())
}

} // verus!
