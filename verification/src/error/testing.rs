//! Helpers for tests that expect an operation to fail. Each one returns
//! normally exactly when the operation failed as expected; on any other
//! input (a success, another code, another message) it must not be called.
use vstd::prelude::*;
use super::{TViewResult, spec_sqlstate, spec_message, message_printable};
use crate::text::contains_seq;

verus! {

/// Expect `result` to be an error with SQLSTATE `expected_sqlstate`.
pub fn assert_error_sqlstate<T>(result: TViewResult<T>, expected_sqlstate: &str)
    requires
        result matches Err(e) && spec_sqlstate(e) == expected_sqlstate@,
{
    match result {
        Err(e) => {
            assert(spec_sqlstate(e) == expected_sqlstate@);
        },
        Ok(_) => {
            assert(false);
        },
    }
}

/// Expect `result` to be an error whose message contains `expected_substring`.
pub fn assert_error_contains<T>(result: TViewResult<T>, expected_substring: &str)
    requires
        result matches Err(e) && message_printable(e) && contains_seq(spec_message(e), expected_substring@),
{
    match result {
        Err(e) => {
            assert(contains_seq(spec_message(e), expected_substring@));
        },
        Ok(_) => {
            assert(false);
        },
    }
}

} // verus!
