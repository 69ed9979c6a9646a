//! What is asked of another service over HTTP, and what comes back.

use crate::codec::{json_bytes_parsed, parse_json_bytes};
use crate::json::{Json, JsonView};
use vstd::prelude::*;

verus! {

/// A JSON document to be posted to an address.
pub struct Request {
    pub url: String,
    pub body: Json,
}

/// What a request is, over sequences.
pub struct RequestView {
    pub url: Seq<char>,
    pub body: JsonView,
}

impl View for Request {
    type V = RequestView;

    open spec fn view(&self) -> RequestView {
        RequestView { url: self.url@, body: self.body@ }
    }
}

/// A text to be posted to an address.
pub struct TextRequest {
    pub url: String,
    pub body: String,
}

/// What a request with a text is, over sequences.
pub struct TextRequestView {
    pub url: Seq<char>,
    pub body: Seq<char>,
}

impl View for TextRequest {
    type V = TextRequestView;

    open spec fn view(&self) -> TextRequestView {
        TextRequestView { url: self.url@, body: self.body@ }
    }
}

/// What came of a request: no answer, with what went wrong; or an answer, with whether its status
/// told of success and its body, or what went wrong as the body was received.
pub enum Reply {
    Failed(String),
    Answered { success: bool, body: Result<Vec<u8>, String> },
}

/// What a reply is, over sequences.
pub enum ReplyView {
    Failed(Seq<char>),
    Answered { success: bool, body: Result<Seq<u8>, Seq<char>> },
}

impl View for Reply {
    type V = ReplyView;

    open spec fn view(&self) -> ReplyView {
        match self {
            Reply::Failed(e) => ReplyView::Failed(e@),
            Reply::Answered { success, body: Ok(bytes) } => ReplyView::Answered {
                success: *success,
                body: Ok(bytes@),
            },
            Reply::Answered { success, body: Err(e) } => ReplyView::Answered {
                success: *success,
                body: Err(e@),
            },
        }
    }
}

impl ReplyView {
    /// The JSON value in the body of an answer; nothing where there is no answer, no body, or the
    /// body is not JSON.
    pub open spec fn json(self) -> Option<JsonView> {
        match self {
            ReplyView::Answered { success, body: Ok(bytes) } => json_bytes_parsed(bytes),
            _ => None,
        }
    }
}

impl Reply {
    /// The JSON value in the body of an answer.
    pub fn json(&self) -> (r: Option<Json>)
        ensures
            match r {
                Some(v) => self@.json() == Some(v@),
                None => self@.json() is None,
            },
    {
        match self {
            Reply::Answered { success: _, body: Ok(bytes) } => parse_json_bytes(bytes.as_slice()),
            _ => None,
        }
    }
}

} // verus!
