//! The compute half of the transport layer: deciding success from a
//! response status and assembling the diagnostic error for a failure.
//! The HTTP calls themselves live outside the library.

use vstd::prelude::*;
use crate::error::{Error, INTERNAL_SERVER_ERROR};
use vstd::string::StringExecFns;

verus! {

/// Whether an HTTP status code counts as success.
pub open spec fn status_is_success(status: u16) -> bool {
    200 <= status < 300
}

/// The diagnostic message carried by a failed remote call.
pub open spec fn response_error_message(
    method: Seq<char>,
    url: Seq<char>,
    body: Seq<char>,
    response: Seq<char>,
) -> Seq<char> {
    "\n            method: "@ + method + "\n            url: "@ + url + "\n            body: "@
        + body + "\n            response: "@ + response
}

/// Turns a remote response into the call's result: the body text on a
/// success status, and a diagnostic error naming the request otherwise.
pub fn handle_response(
    status: u16,
    method: &str,
    url: &str,
    body: &str,
    text: String,
) -> (r: Result<String, Error>)
    ensures
        match r {
            Ok(t) => status_is_success(status) && t == text,
            Err(e) => {
                &&& !status_is_success(status)
                &&& e.code == INTERNAL_SERVER_ERROR
                &&& e.source@ == "reqwest"@
                &&& e.message@ == response_error_message(method@, url@, body@, text@)
            },
        },
{
    if 200 <= status && status < 300 {
        Ok(text)
    } else {
        let mut message = "\n            method: ".to_owned();
        message.append(method);
        message.append("\n            url: ");
        message.append(url);
        message.append("\n            body: ");
        message.append(body);
        message.append("\n            response: ");
        message.append(text.as_str());
        Err(Error { source: "reqwest".to_owned(), message, code: INTERNAL_SERVER_ERROR })
    }
}

} // verus!
