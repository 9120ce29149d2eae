//! What a request's row in the collection tree shows beside its name: a
//! spinner while it runs, the status code of its last response, or an
//! error mark; and the colours of status codes and methods.
use vstd::prelude::*;

use crate::text::{decimal, decimal_text, own};

verus! {

/// What is known of a request's runs.
pub struct RequestActivity {
    /// A run is in flight.
    pub loading: bool,
    /// The status code of the last run that got a response.
    pub last_status: Option<u16>,
    /// The error of the last run that failed.
    pub last_error: Option<String>,
}

/// The mark beside a request's name.
#[derive(Clone, Copy, Debug, PartialEq, Eq, Structural)]
pub enum RequestRowStatus {
    Loading,
    Status(u16),
    Error,
}

/// The mark of a request: a spinner while it runs, else the status of its
/// last run, else an error mark if that run failed, else the status of the
/// last stored response, else nothing.
pub open spec fn row_status(activity: Option<RequestActivity>, last_stored_status: Option<u16>) -> Option<
    RequestRowStatus,
> {
    match activity {
        Some(a) => if a.loading {
            Some(RequestRowStatus::Loading)
        } else if a.last_status is Some {
            Some(RequestRowStatus::Status(a.last_status->0))
        } else if a.last_error is Some {
            Some(RequestRowStatus::Error)
        } else {
            match last_stored_status {
                Some(s) => Some(RequestRowStatus::Status(s)),
                None => None,
            }
        },
        None => match last_stored_status {
            Some(s) => Some(RequestRowStatus::Status(s)),
            None => None,
        },
    }
}

/// The mark beside a request's name. `activity` is what is known of its
/// runs, `last_stored_status` the status of its last stored response.
pub fn request_row_status(activity: Option<&RequestActivity>, last_stored_status: Option<u16>) -> (r: Option<
    RequestRowStatus,
>)
    ensures
        r == row_status(
            match activity {
                Some(a) => Some(*a),
                None => None,
            },
            last_stored_status,
        ),
{
    if let Some(a) = activity {
        if a.loading {
            return Some(RequestRowStatus::Loading);
        }
        if let Some(s) = a.last_status {
            return Some(RequestRowStatus::Status(s));
        }
        if a.last_error.is_some() {
            return Some(RequestRowStatus::Error);
        }
    }
    match last_stored_status {
        Some(s) => Some(RequestRowStatus::Status(s)),
        None => None,
    }
}

/// Green for success.
pub const STATUS_SUCCESS_RGB: u32 = 0x00C853;

/// Orange for redirects.
pub const STATUS_REDIRECT_RGB: u32 = 0xFF9800;

/// Pink for client and server errors, and for failed runs.
pub const STATUS_FAILURE_RGB: u32 = 0xFF4081;

/// The colour of a status code, as `0xRRGGBB`.
pub fn status_color(code: u16) -> (r: u32)
    ensures
        r == if 200 <= code < 300 {
            STATUS_SUCCESS_RGB
        } else if 300 <= code < 400 {
            STATUS_REDIRECT_RGB
        } else {
            STATUS_FAILURE_RGB
        },
{
    if 200 <= code && code < 300 {
        STATUS_SUCCESS_RGB
    } else if 300 <= code && code < 400 {
        STATUS_REDIRECT_RGB
    } else {
        STATUS_FAILURE_RGB
    }
}

/// The text of a mark: the status code in decimal, `ERR` for a failed run,
/// nothing for the spinner.
pub fn row_status_text(status: RequestRowStatus) -> (r: String)
    ensures
        r@ == match status {
            RequestRowStatus::Loading => Seq::empty(),
            RequestRowStatus::Status(code) => decimal(code as nat),
            RequestRowStatus::Error => "ERR"@,
        },
{
    match status {
        RequestRowStatus::Loading => String::new(),
        RequestRowStatus::Status(code) => decimal_text(code as u64),
        RequestRowStatus::Error => own("ERR"),
    }
}

/// The colour of a method's name, as `0xRRGGBB`.
pub open spec fn method_rgb(method: Seq<char>) -> u32 {
    if method == "GET"@ {
        0x4CAF50
    } else if method == "POST"@ {
        0x2196F3
    } else if method == "PUT"@ {
        0xFF9800
    } else if method == "PATCH"@ {
        0x9C27B0
    } else if method == "DELETE"@ {
        0xF44336
    } else {
        0x607D8B
    }
}

/// The colour of a method's name in the tree.
pub fn method_color(method: &str) -> (r: u32)
    ensures
        r == method_rgb(method@),
{
    if crate::text::same_text(method, "GET") {
        0x4CAF50
    } else if crate::text::same_text(method, "POST") {
        0x2196F3
    } else if crate::text::same_text(method, "PUT") {
        0xFF9800
    } else if crate::text::same_text(method, "PATCH") {
        0x9C27B0
    } else if crate::text::same_text(method, "DELETE") {
        0xF44336
    } else {
        0x607D8B
    }
}

} // verus!
