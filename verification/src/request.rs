//! The output path of a render request, which comes as a line of JSON.

use vstd::prelude::*;

use crate::error::RenderError;
use crate::text::{trim, trimmed, white_space};

verus! {

/// The string that a JSON text stands for, if it stands for one.
pub uninterp spec fn json_string(text: Seq<char>) -> Option<Seq<char>>;

/// A JSON string that is written without escapes.
pub open spec fn plain_json_string(text: Seq<char>) -> bool {
    &&& text.len() >= 2
    &&& text[0] == '"'
    &&& text.last() == '"'
    &&& forall|i: int|
        0 < i < text.len() - 1 ==> (#[trigger] text[i]) != '"' && text[i] != '\\' && text[i] as u32
            >= 0x20
}

/// A text that cannot stand for a string: its first character is neither a quotation mark nor
/// white space.
pub open spec fn no_json_string(text: Seq<char>) -> bool {
    text.len() == 0 || (text[0] != '"' && !white_space(text[0]))
}

/// Calls `serde_json::from_str::<PathBuf>`, which takes a JSON string as the path of that text.
/// The path, as text, is a function of the JSON text, named `json_string`; a string without
/// escapes stands for what is between its quotation marks, and a text that starts otherwise
/// stands for no string.
#[verifier::external_body]
fn parse_json_string(text: &str) -> (parsed: Result<String, serde_json::Error>)
    ensures
        match parsed {
            Ok(string) => json_string(text@) == Some(string@),
            Err(_) => json_string(text@) is None,
        },
        plain_json_string(text@) ==> parsed is Ok && parsed->Ok_0@ == text@.subrange(
            1,
            text@.len() - 1,
        ),
        no_json_string(text@) ==> parsed is Err,
{
    match serde_json::from_str::<std::path::PathBuf>(text) {
        Ok(path) => Ok(path.display().to_string()),
        Err(error) => Err(error),
    }
}

/// Takes the path that was parsed, and refuses the request where parsing failed, with the error
/// of the parser.
pub fn accept_path(parsed: Result<String, serde_json::Error>) -> (path: Result<String, RenderError>)
    ensures
        match parsed {
            Ok(string) => path == Ok::<String, RenderError>(string),
            Err(cause) => path == Err::<String, RenderError>(RenderError::OutputPath(cause)),
        },
{
    match parsed {
        Ok(string) => Ok(string),
        Err(cause) => Err(RenderError::OutputPath(cause)),
    }
}

/// Reads the output path from a line of the request: the string that the line stands for,
/// white space around it aside.
pub fn output_path(line: &str) -> (path: Result<String, RenderError>)
    ensures
        match path {
            Ok(string) => json_string(trimmed(line@)) == Some(string@),
            Err(error) => json_string(trimmed(line@)) is None && error is OutputPath,
        },
        plain_json_string(trimmed(line@)) ==> path is Ok && path->Ok_0@ == trimmed(
            line@,
        ).subrange(1, trimmed(line@).len() - 1),
        no_json_string(trimmed(line@)) ==> path is Err,
{
    let text = trim(line);
    accept_path(parse_json_string(text.as_str()))
}

} // verus!
