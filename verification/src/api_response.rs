//! The one shape of every successful answer.

use vstd::prelude::*;
use vstd::string::StringExecFns;

verus! {

/// The code of a successful answer.
pub const CODE_SUCCESS: i32 = 200;

/// The body of an answer: a code, a message and the data.
#[derive(Debug, PartialEq, Eq)]
pub struct JsonResponse<T> {
    pub code: i32,
    pub message: String,
    pub data: T,
}

/// Builds the answers of the service.
#[derive(Debug)]
pub struct ApiResponse;

impl ApiResponse {
    /// The successful answer that carries `data` under `message`.
    pub fn success<T>(data: T, message: &str) -> (r: JsonResponse<T>)
        ensures
            r.code == CODE_SUCCESS,
            r.message@ == message@,
            r.data == data,
    {
        JsonResponse { code: CODE_SUCCESS, message: String::from_str(message), data }
    }
}

} // verus!
