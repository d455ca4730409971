//! Judging HTTP header values. Extracting a value from a header map stays
//! with the embedding application; the library decides what an extracted
//! value means and phrases the errors.

use vstd::prelude::*;

use crate::context::Context;
use crate::text::str_eq;
use crate::errors::{error_from_context, ServiceError, ServiceErrorKindView};
use crate::text::{lower, to_lower};

verus! {

/// The boolean a header value denotes: true for `true` or `1`, false for
/// `false` or `0`, compared case-insensitively; anything else denotes
/// nothing.
pub open spec fn bool_of_header(v: Seq<char>) -> Option<bool> {
    if lower(v) == "true"@ || lower(v) == "1"@ {
        Some(true)
    } else if lower(v) == "false"@ || lower(v) == "0"@ {
        Some(false)
    } else {
        None
    }
}

/// Reads a header value as a boolean: an absent header and a value that
/// denotes no boolean are each an internal error naming the cause.
pub fn to_bool(ctx: &Context, key: &str, value: Option<&str>) -> (r: Result<bool, ServiceError>)
    ensures
        match (r, value) {
            (Ok(b), Some(v)) => bool_of_header(v@) == Some(b),
            (Err(e), Some(v)) => bool_of_header(v@) is None && e@ == error_from_context(
                ctx,
                ServiceErrorKindView::Internal("invalid header value "@ + v@),
            ),
            (Err(e), None) => e@ == error_from_context(
                ctx,
                ServiceErrorKindView::Internal("missing header "@ + key@),
            ),
            _ => false,
        },
{
    match value {
        Some(v) => {
            let lowered = to_lower(v);
            if str_eq(lowered.as_str(), "true") || str_eq(lowered.as_str(), "1") {
                Ok(true)
            } else if str_eq(lowered.as_str(), "false") || str_eq(lowered.as_str(), "0") {
                Ok(false)
            } else {
                Err(
                    ServiceError::internal(
                        ctx,
                        String::from_str("invalid header value ").concat(v).as_str(),
                    ),
                )
            }
        },
        None => Err(
            ServiceError::internal(ctx, String::from_str("missing header ").concat(key).as_str()),
        ),
    }
}

/// Reads a header value as a string: an absent header is an internal
/// error naming the missing key.
pub fn to_string(ctx: &Context, key: &str, value: Option<&str>) -> (r: Result<
    String,
    ServiceError,
>)
    ensures
        match (r, value) {
            (Ok(s), Some(v)) => s@ == v@,
            (Err(e), None) => e@ == error_from_context(
                ctx,
                ServiceErrorKindView::Internal("missing header "@ + key@),
            ),
            _ => false,
        },
{
    match value {
        Some(v) => Ok(String::from_str(v)),
        None => Err(
            ServiceError::internal(ctx, String::from_str("missing header ").concat(key).as_str()),
        ),
    }
}

} // verus!
