//! JSON validation and parsing of JSON-with-comments text.
use vstd::prelude::*;
use crate::error::AppError;
use crate::error::join_text;
use crate::jsonc::stripped;
use crate::jsonc::strip_jsonc_comments;

verus! {

#[verifier::external_type_specification]
#[verifier::external_body]
pub struct ExJsonValue(serde_json::Value);

/// Whether serde_json reads `s` as exactly one JSON value.
pub uninterp spec fn is_json_text(s: Seq<char>) -> bool;

/// Relies on `serde_json::from_str::<serde_json::Value>`: it succeeds exactly on
/// the texts that hold one JSON value; its error is handed on as its message.
#[verifier::external_body]
fn json_from_str(s: &str) -> (r: Result<serde_json::Value, String>)
    ensures
        r is Ok <==> is_json_text(s@),
{
    serde_json::from_str::<serde_json::Value>(s).map_err(|e| e.to_string())
}

/// `e` is a validation error whose detail starts with `"Invalid JSON: "`.
pub open spec fn is_invalid_json_error(e: AppError) -> bool {
    &&& e is Validation
    &&& "Invalid JSON: "@.is_prefix_of(e->Validation_0@)
}

/// `e` is a parse error whose detail starts with `"Failed to parse JSON: "`.
pub open spec fn is_failed_parse_error(e: AppError) -> bool {
    &&& e is Parse
    &&& "Failed to parse JSON: "@.is_prefix_of(e->Parse_0@)
}

/// Checks that `content` is strict JSON (no comments, no trailing commas).
pub fn validate_json(content: &str) -> (r: Result<(), AppError>)
    ensures
        r is Ok <==> is_json_text(content@),
        r is Err ==> is_invalid_json_error(r->Err_0),
{
    match json_from_str(content) {
        Ok(_) => Ok(()),
        Err(m) => {
            let detail = join_text("Invalid JSON: ", m.as_str());
            proof {
                assert("Invalid JSON: "@.is_prefix_of(detail@)) by {
                    assert(detail@.subrange(0, "Invalid JSON: "@.len() as int) =~= "Invalid JSON: "@);
                }
            }
            Err(AppError::Validation(detail))
        },
    }
}

/// Parses JSON-with-comments text: comments are removed, then the rest must be
/// one JSON value.
pub fn parse_jsonc(content: &str) -> (r: Result<serde_json::Value, AppError>)
    ensures
        r is Ok <==> is_json_text(stripped(content@)),
        r is Err ==> is_failed_parse_error(r->Err_0),
{
    let plain = strip_jsonc_comments(content);
    match json_from_str(plain.as_str()) {
        Ok(v) => Ok(v),
        Err(m) => {
            let detail = join_text("Failed to parse JSON: ", m.as_str());
            proof {
                assert("Failed to parse JSON: "@.is_prefix_of(detail@)) by {
                    assert(detail@.subrange(0, "Failed to parse JSON: "@.len() as int)
                        =~= "Failed to parse JSON: "@);
                }
            }
            Err(AppError::Parse(detail))
        },
    }
}

} // verus!
