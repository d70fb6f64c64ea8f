//! The outcome classifier: from the wrapped process's exit status and its
//! captured error stream to a response category.

use vstd::prelude::*;
use vstd::utf8::{decode_utf8, valid_utf8};

use crate::text::{contains_chars, contains_token, str_to_chars};
use crate::MommyError;

verus! {

/// The three response classes a run can call for.
#[derive(Clone, Copy, Debug, PartialEq, Eq, Structural)]
pub enum ResponseCategory {
    Positive,
    Negative,
    Natural,
}

/// The category that a successfully decoded error-stream text calls for:
/// warnings were emitted exactly when the text holds both "generated" and
/// "warning". A deliberately coarse substring heuristic, not a parse of the
/// wrapped tool's diagnostics.
pub open spec fn category_of_text(t: Seq<char>) -> ResponseCategory {
    if contains_token(t, "generated"@) && contains_token(t, "warning"@) {
        ResponseCategory::Natural
    } else {
        ResponseCategory::Positive
    }
}

/// Relies on std's `String::from_utf8`: succeeds exactly on valid UTF-8 and
/// returns the text that the bytes encode.
#[verifier::external_body]
fn bytes_to_text(bytes: &Vec<u8>) -> (r: Option<String>)
    ensures
        r is Some <==> valid_utf8(bytes@),
        r matches Some(t) ==> t@ == decode_utf8(bytes@),
{
    String::from_utf8(bytes.clone()).ok()
}

/// Classifies a run of the wrapped command: failure is `Negative` whatever
/// was printed; on success the error stream decides between `Natural`
/// (warnings were emitted) and `Positive`, and an error stream that is not
/// valid UTF-8 is rejected.
pub fn classify(exit_success: bool, stderr: &Vec<u8>) -> (r: Result<ResponseCategory, MommyError>)
    ensures
        !exit_success ==> r == Ok::<ResponseCategory, MommyError>(ResponseCategory::Negative),
        exit_success && !valid_utf8(stderr@) ==> r == Err::<ResponseCategory, MommyError>(
            MommyError::InvalidOutputEncoding,
        ),
        exit_success && valid_utf8(stderr@) ==> r == Ok::<ResponseCategory, MommyError>(
            category_of_text(decode_utf8(stderr@)),
        ),
{
    if !exit_success {
        return Ok(ResponseCategory::Negative);
    }
    match bytes_to_text(stderr) {
        None => Err(MommyError::InvalidOutputEncoding),
        Some(text) => {
            proof {
                reveal_strlit("generated");
                reveal_strlit("warning");
            }
            let tc = str_to_chars(text.as_str());
            let g = str_to_chars("generated");
            let w = str_to_chars("warning");
            if contains_chars(&tc, &g) && contains_chars(&tc, &w) {
                Ok(ResponseCategory::Natural)
            } else {
                Ok(ResponseCategory::Positive)
            }
        },
    }
}

} // verus!
