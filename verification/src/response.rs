//! Response types

use vstd::prelude::*;

verus! {

/// Response wrapper (i.e. message envelope): either a result or an error
/// message, never both.
#[derive(Debug)]
pub struct Wrapper<R> {
    /// Results of request (if successful)
    pub result: Option<R>,

    /// Error message if unsuccessful
    pub error: Option<String>,
}

impl<R> Wrapper<R> {
    /// Convert a result into a wrapper: a success carries the value and no
    /// error, a failure the error message and no value.
    pub fn from_result(result: Result<R, String>) -> (r: Wrapper<R>)
        ensures
            match result {
                Ok(v) => r.result == Some(v) && r.error is None,
                Err(e) => r.result is None && (r.error matches Some(msg) && msg@ == e@),
            },
    {
        match result {
            Ok(res) => Wrapper { result: Some(res), error: None },
            Err(err) => Wrapper { result: None, error: Some(err) },
        }
    }
}

} // verus!
