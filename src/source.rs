//! Turning the text of a data source into a structured value.
use crate::error::TeraclioError;
use crate::utils::{
    format_of_extension, format_of_name, path_extension, unsupported_format_message, InputFormat,
};
use crate::text::lowercased;
use serde_json::Value as JsonDocument;
use vstd::prelude::*;

verus! {

#[verifier::external_type_specification]
#[verifier::external_body]
pub struct ExJsonValue(JsonDocument);

/// Whether a character has Unicode's `White_Space` property.
pub open spec fn is_white_space(c: char) -> bool {
    ('\u{9}' <= c <= '\u{d}') || c == ' ' || c == '\u{85}' || c == '\u{a0}' || c == '\u{1680}'
        || ('\u{2000}' <= c <= '\u{200a}') || c == '\u{2028}' || c == '\u{2029}' || c
        == '\u{202f}' || c == '\u{205f}' || c == '\u{3000}'
}

/// A text without its leading white space.
pub open spec fn trim_start(s: Seq<char>) -> Seq<char>
    decreases s.len(),
{
    if s.len() > 0 && is_white_space(s[0]) {
        trim_start(s.drop_first())
    } else {
        s
    }
}

/// A text without its trailing white space.
pub open spec fn trim_end(s: Seq<char>) -> Seq<char>
    decreases s.len(),
{
    if s.len() > 0 && is_white_space(s.last()) {
        trim_end(s.drop_last())
    } else {
        s
    }
}

/// A text with leading and trailing white space removed.
pub open spec fn trimmed(s: Seq<char>) -> Seq<char> {
    trim_end(trim_start(s))
}

/// Relies on `str::trim`, which removes leading and trailing characters with
/// the `White_Space` property.
#[verifier::external_body]
fn trim_text(s: &str) -> (r: &str)
    ensures
        r@ == trimmed(s@),
{
    s.trim()
}

/// Whether a text is a JSON document.
pub uninterp spec fn json_accepts(s: Seq<char>) -> bool;

/// Whether a text is a YAML document.
pub uninterp spec fn yaml_accepts(s: Seq<char>) -> bool;

/// Whether a text is a TOML document.
pub uninterp spec fn toml_accepts(s: Seq<char>) -> bool;

/// Relies on `serde_json::from_str`, whose success depends on the text
/// alone, and on the error's message.
#[verifier::external_body]
fn parse_json(s: &str) -> (r: Result<JsonDocument, String>)
    ensures
        r is Ok <==> json_accepts(s@),
{
    serde_json::from_str(s).map_err(|e| e.to_string())
}

/// Relies on `serde_yaml::from_str`, whose success depends on the text
/// alone, and on the error's message.
#[verifier::external_body]
fn parse_yaml(s: &str) -> (r: Result<JsonDocument, String>)
    ensures
        r is Ok <==> yaml_accepts(s@),
{
    serde_yaml::from_str(s).map_err(|e| e.to_string())
}

/// Relies on `toml::from_str`, whose success depends on the text alone, and
/// on the error's message.
#[verifier::external_body]
fn parse_toml(s: &str) -> (r: Result<JsonDocument, String>)
    ensures
        r is Ok <==> toml_accepts(s@),
{
    toml::from_str(s).map_err(|e| e.to_string())
}

/// Whether a text is a document of a format.
pub open spec fn accepts(format: InputFormat, s: Seq<char>) -> bool {
    match format {
        InputFormat::Json => json_accepts(s),
        InputFormat::Yaml => yaml_accepts(s),
        InputFormat::Toml => toml_accepts(s),
    }
}

/// The text of an optional name.
pub open spec fn name_view(o: Option<&str>) -> Option<Seq<char>> {
    match o {
        Some(f) => Some(f@),
        None => None,
    }
}

/// The format a data source is read in: the one named, if a name is given,
/// else the one that the path's extension names.
pub open spec fn chosen_format(path: Seq<char>, format: Option<Seq<char>>) -> Option<InputFormat> {
    match format {
        Some(f) => format_of_name(lowercased(f)),
        None => Some(
            match path_extension(path) {
                Some(e) => format_of_extension(lowercased(e)),
                None => InputFormat::Json,
            },
        ),
    }
}

/// Picks the format of a data source; an unknown format name is invalid input.
pub fn resolve_format(path: &str, format: Option<&str>) -> (r: Result<InputFormat, TeraclioError>)
    ensures
        match chosen_format(path@, name_view(format)) {
            Some(f) => r == Ok::<InputFormat, TeraclioError>(f),
            None => r matches Err(TeraclioError::InvalidInput(m)) && format matches Some(n) && m@
                == unsupported_format_message(n@),
        },
{
    match format {
        Some(f) => InputFormat::from_string(f),
        None => Ok(InputFormat::detect_from_extension(path)),
    }
}

/// Parses the contents of a data source, read from `path`, into a value.
/// Blank contents and an unknown format name are invalid input; a parse error
/// is a JSON error for JSON and invalid input for YAML and TOML.
pub fn parse_data_source(path: &str, contents: &str, format: Option<&str>) -> (r: Result<
    JsonDocument,
    TeraclioError,
>)
    ensures
        if trimmed(contents@).len() == 0 {
            r matches Err(TeraclioError::InvalidInput(m)) && m@ == "Data source file is empty"@
        } else {
            match chosen_format(path@, name_view(format)) {
                None => r matches Err(TeraclioError::InvalidInput(m)) && format matches Some(n)
                    && m@ == unsupported_format_message(n@),
                Some(InputFormat::Json) => if json_accepts(contents@) {
                    r is Ok
                } else {
                    r matches Err(TeraclioError::JsonError(_))
                },
                Some(f) => if accepts(f, contents@) {
                    r is Ok
                } else {
                    r matches Err(TeraclioError::InvalidInput(_))
                },
            }
        },
{
    if trim_text(contents).is_empty() {
        return Err(TeraclioError::InvalidInput(String::from_str("Data source file is empty")));
    }
    let fmt = match resolve_format(path, format) {
        Ok(f) => f,
        Err(e) => return Err(e),
    };
    let parsed = match fmt {
        InputFormat::Json => parse_json(contents),
        InputFormat::Yaml => parse_yaml(contents),
        InputFormat::Toml => parse_toml(contents),
    };
    parse_outcome(fmt, parsed)
}

/// What a parser's outcome becomes: a parsed value as it is; a parse error of
/// JSON as a JSON error, one of YAML or TOML as invalid input with the
/// format's name in front of the message.
pub fn parse_outcome(format: InputFormat, parsed: Result<JsonDocument, String>) -> (r: Result<
    JsonDocument,
    TeraclioError,
>)
    ensures
        match parsed {
            Ok(v) => r == Ok::<JsonDocument, TeraclioError>(v),
            Err(m) => match format {
                InputFormat::Json => r matches Err(TeraclioError::JsonError(e)) && e@ == m@,
                InputFormat::Yaml => r matches Err(TeraclioError::InvalidInput(e)) && e@
                    == "YAML parsing error: "@ + m@,
                InputFormat::Toml => r matches Err(TeraclioError::InvalidInput(e)) && e@
                    == "TOML parsing error: "@ + m@,
            },
        },
{
    match parsed {
        Ok(v) => Ok(v),
        Err(m) => match format {
            InputFormat::Json => Err(TeraclioError::JsonError(m)),
            InputFormat::Yaml => {
                let mut msg = String::from_str("YAML parsing error: ");
                msg.append(m.as_str());
                Err(TeraclioError::InvalidInput(msg))
            },
            InputFormat::Toml => {
                let mut msg = String::from_str("TOML parsing error: ");
                msg.append(m.as_str());
                Err(TeraclioError::InvalidInput(msg))
            },
        },
    }
}

} // verus!
