//! What a response of the API is taken for, before its body is converted.

use crate::http::{is_success, status_is_success};
use crate::text::{decimal, to_decimal};
use vstd::prelude::*;
use vstd::string::*;

verus! {

/// What the body of a successful response was read as.
#[derive(Clone, Debug, PartialEq, Eq)]
pub enum Body {
    /// The data that was asked for.
    Data,
    /// A list of errors in place of the data.
    Errors,
    /// Neither; holds the reason that the reader gave, and the body in
    /// readable form where it is JSON at all.
    Unreadable { reason: String, pretty: Option<String> },
}

/// The view of a [`Body`].
pub enum BodyView {
    Data,
    Errors,
    Unreadable { reason: Seq<char>, pretty: Option<Seq<char>> },
}

impl View for Body {
    type V = BodyView;

    open spec fn view(&self) -> BodyView {
        match self {
            Body::Data => BodyView::Data,
            Body::Errors => BodyView::Errors,
            Body::Unreadable { reason, pretty } => BodyView::Unreadable {
                reason: reason@,
                pretty: pretty.deep_view(),
            },
        }
    }
}

/// The failure that a status other than success stands for: it names the
/// status and holds the body.
pub open spec fn status_failure(status: u16, text: Seq<char>) -> Option<Seq<char>> {
    if is_success(status) {
        None
    } else {
        Some("Response was not successful: "@ + decimal(status as nat) + "\n"@ + text)
    }
}

/// The failure that the body `text` of a successful response stands for,
/// where it was read as `body`: none for the data, the body itself for a list
/// of errors, and for what is neither the reason with the readable body, or
/// that it is no JSON.
pub open spec fn body_failure(text: Seq<char>, body: BodyView) -> Option<Seq<char>> {
    match body {
        BodyView::Data => None,
        BodyView::Errors => Some(text),
        BodyView::Unreadable { reason, pretty: Some(pretty) } => Some(
            "Unable to deserialize due to: "@ + reason + "\nContents:\n"@ + pretty,
        ),
        BodyView::Unreadable { reason, pretty: None } => Some("Invalid JSON"@),
    }
}

/// Computes [`status_failure`].
pub fn check_status(status: u16, text: &str) -> (failure: Option<String>)
    ensures
        failure.deep_view() == status_failure(status, text@),
{
    if status_is_success(status) {
        None
    } else {
        let code = to_decimal(status as u64);
        Some(
            String::from_str("Response was not successful: ").concat(code.as_str()).concat(
                "\n",
            ).concat(text),
        )
    }
}

/// Computes [`body_failure`].
pub fn check_body(text: &str, body: Body) -> (failure: Option<String>)
    ensures
        failure.deep_view() == body_failure(text@, body@),
{
    match body {
        Body::Data => None,
        Body::Errors => Some(String::from_str(text)),
        Body::Unreadable { reason, pretty: Some(pretty) } => Some(
            String::from_str("Unable to deserialize due to: ").concat(reason.as_str()).concat(
                "\nContents:\n",
            ).concat(pretty.as_str()),
        ),
        Body::Unreadable { reason, pretty: None } => Some(String::from_str("Invalid JSON")),
    }
}

} // verus!
