//! The text of a PDF file, for `read_pdf`. The extraction itself
//! (`pdf_extract::extract_text_from_mem`) can panic on malformed documents, and a panic
//! can only be caught across a task boundary, so the caller runs it on a blocking task
//! and hands its result to [`pdf_outcome`].
use vstd::prelude::*;

use crate::error::AppError;
use crate::text::concat2;

verus! {

pub open spec fn extraction_failed_text(msg: Seq<char>) -> Seq<char> {
    "Failed to extract PDF text: "@ + msg
}

/// The outcome of `read_pdf` for an extraction's result: the text, or the failure
/// refused as a tool error.
pub fn pdf_outcome(extraction: Result<String, String>) -> (r: Result<String, AppError>)
    ensures
        match extraction {
            Ok(t) => r matches Ok(s) && s@ == t@,
            Err(m) => r matches Err(AppError::ToolValidation(e)) && e@ == extraction_failed_text(m@),
        },
{
    match extraction {
        Ok(t) => Ok(t),
        Err(m) => Err(AppError::ToolValidation(concat2("Failed to extract PDF text: ", m.as_str()))),
    }
}

} // verus!
