//! How a fetch of the status page goes on and ends.

use vstd::prelude::*;

use crate::status::{RawStatus, RawStatusView};
use crate::text::decimal;

verus! {

/// What has come of the fetch so far.
pub enum FetchEvent {
    /// No client could be built.
    ClientFailed(String),
    /// The request could not be sent, or no answer came.
    SendFailed(String),
    /// An answer came, with this status code.
    Answered(u16),
    /// The answer held a report.
    Decoded(RawStatus),
    /// The answer held no report.
    DecodeFailed(String),
}

/// How the fetch goes on.
pub enum FetchNext {
    /// The answer is to be decoded.
    Decode,
    /// The fetch is over: it brought a report, or failed with a message.
    Finished(Result<RawStatus, String>),
}

/// What a [`FetchEvent`] holds.
pub enum FetchEventView {
    ClientFailed(Seq<char>),
    SendFailed(Seq<char>),
    Answered(u16),
    Decoded(RawStatusView),
    DecodeFailed(Seq<char>),
}

/// What a [`FetchNext`] holds.
pub enum FetchNextView {
    Decode,
    Finished(Result<RawStatusView, Seq<char>>),
}

impl View for FetchEvent {
    type V = FetchEventView;

    open spec fn view(&self) -> FetchEventView {
        match self {
            FetchEvent::ClientFailed(error) => FetchEventView::ClientFailed(error@),
            FetchEvent::SendFailed(error) => FetchEventView::SendFailed(error@),
            FetchEvent::Answered(code) => FetchEventView::Answered(*code),
            FetchEvent::Decoded(raw) => FetchEventView::Decoded(raw@),
            FetchEvent::DecodeFailed(error) => FetchEventView::DecodeFailed(error@),
        }
    }
}

impl View for FetchNext {
    type V = FetchNextView;

    open spec fn view(&self) -> FetchNextView {
        match self {
            FetchNext::Decode => FetchNextView::Decode,
            FetchNext::Finished(Ok(raw)) => FetchNextView::Finished(Ok(raw@)),
            FetchNext::Finished(Err(error)) => FetchNextView::Finished(Err(error@)),
        }
    }
}

/// What `Display` of `reqwest::StatusCode` writes after the number and a space: the reason
/// phrase that goes with the code.
pub uninterp spec fn reason_phrase(code: u16) -> Seq<char>;

/// How a status code is written: the number and its reason phrase.
pub open spec fn status_line(code: u16) -> Seq<char> {
    decimal(code as nat) + " "@ + reason_phrase(code)
}

/// `Display` of `reqwest::StatusCode`: it writes the number in decimal, a space, and the reason
/// phrase that goes with the code. The codes are those that a `StatusCode` can hold.
#[verifier::external_body]
fn write_status(code: u16) -> (line: String)
    requires
        100 <= code <= 999,
    ensures
        line@ == decimal(code as nat) + " "@ + reason_phrase(code),
{
    reqwest::StatusCode::from_u16(code).unwrap().to_string()
}

/// Whether a status code means success.
pub open spec fn is_success(code: u16) -> bool {
    200 <= code <= 299
}

/// The message for an answer that is no success, by how its status code is written.
pub open spec fn refusal_text(line: Seq<char>) -> Seq<char> {
    "HTTP "@ + line
}

/// The message for an answer that is no success, by how its status code is written.
pub fn refusal(line: &str) -> (text: String)
    ensures
        text@ == refusal_text(line@),
{
    let mut text = String::from_str("HTTP ");
    text.append(line);
    text
}

/// How a fetch goes on.
pub open spec fn fetch_next(event: FetchEventView) -> FetchNextView {
    match event {
        FetchEventView::ClientFailed(error) => FetchNextView::Finished(Err(error)),
        FetchEventView::SendFailed(error) => FetchNextView::Finished(Err("网络错误: "@ + error)),
        FetchEventView::Answered(code) => if is_success(code) {
            FetchNextView::Decode
        } else {
            FetchNextView::Finished(Err(refusal_text(status_line(code))))
        },
        FetchEventView::Decoded(raw) => FetchNextView::Finished(Ok(raw)),
        FetchEventView::DecodeFailed(error) => FetchNextView::Finished(Err(error)),
    }
}

/// How a fetch goes on after `event`. A status code has three digits.
pub fn fetch_status(event: FetchEvent) -> (next: FetchNext)
    requires
        event matches FetchEvent::Answered(code) ==> 100 <= code <= 999,
    ensures
        next@ == fetch_next(event@),
{
    match event {
        FetchEvent::ClientFailed(error) => FetchNext::Finished(Err(error)),
        FetchEvent::SendFailed(error) => {
            let mut text = String::from_str("网络错误: ");
            text.append(error.as_str());
            FetchNext::Finished(Err(text))
        },
        FetchEvent::Answered(code) => {
            if 200 <= code && code <= 299 {
                FetchNext::Decode
            } else {
                FetchNext::Finished(Err(refusal(write_status(code).as_str())))
            }
        },
        FetchEvent::Decoded(raw) => FetchNext::Finished(Ok(raw)),
        FetchEvent::DecodeFailed(error) => FetchNext::Finished(Err(error)),
    }
}

} // verus!
