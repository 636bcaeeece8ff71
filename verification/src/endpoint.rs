//! What the HTTP front ends decide: where the parser is served, and what a
//! request is answered with.

use crate::error::error_text;
use crate::json::{parse, scan_document};
use crate::render::{pretty_print_token, render};
use vstd::prelude::*;
use vstd::string::StringExecFns;

verus! {

/// The status of a request whose body is of no accepted media type.
pub const UNSUPPORTED_MEDIA_TYPE: u16 = 415;

/// The status of a request whose body is no document.
pub const BAD_REQUEST: u16 = 400;

/// Where a front end serves the parser: the base it is mounted under and the
/// route below that base, which takes `POST` requests.
#[derive(Debug)]
pub struct Mount {
    pub base: String,
    pub route: String,
}

/// The answer to a request.
#[derive(Debug)]
pub enum Reply {
    /// The document was scanned; `body` is the rendering of its root, sent as
    /// plain text.
    Rendered { body: String },
    /// The request was turned down with the status `code`.
    Refused { code: u16, message: String },
}

/// The model of a [`Reply`].
pub ghost enum ReplyModel {
    Rendered { body: Seq<char> },
    Refused { code: u16, message: Seq<char> },
}

impl View for Reply {
    type V = ReplyModel;

    open spec fn view(&self) -> ReplyModel {
        match self {
            Reply::Rendered { body } => ReplyModel::Rendered { body: body@ },
            Reply::Refused { code, message } => ReplyModel::Refused {
                code: *code,
                message: message@,
            },
        }
    }
}

/// The answer that a request is owed: a body that is not plain text is turned
/// down as of an unsupported media type, a text that is no document as a bad
/// request with the reason, and a document is answered with the rendering of
/// its root.
pub open spec fn reply_to(plain_text: bool, body: Seq<char>) -> ReplyModel {
    if !plain_text {
        ReplyModel::Refused { code: UNSUPPORTED_MEDIA_TYPE, message: "Unsupported Media Type"@ }
    } else {
        match scan_document(body) {
            Ok(document) => ReplyModel::Rendered { body: render(document.token, 0) },
            Err(e) => ReplyModel::Refused { code: BAD_REQUEST, message: error_text(e) },
        }
    }
}

/// The mount of the parser: under `/`, at `/api/v1/parse`.
pub fn rocket() -> (mount: Mount)
    ensures
        mount.base@ == "/"@,
        mount.route@ == "/api/v1/parse"@,
{
    Mount { base: String::from_str("/"), route: String::from_str("/api/v1/parse") }
}

/// Answers a request whose body is `body`; `plain_text` says whether the
/// request declared its body as plain text.
pub fn parse_endpoint(plain_text: bool, body: &str) -> (reply: Reply)
    ensures
        reply@ == reply_to(plain_text, body@),
{
    if !plain_text {
        return Reply::Refused {
            code: UNSUPPORTED_MEDIA_TYPE,
            message: String::from_str("Unsupported Media Type"),
        };
    }
    match parse(body) {
        Ok(document) => Reply::Rendered { body: pretty_print_token(&document.token, 0) },
        Err(e) => Reply::Refused { code: BAD_REQUEST, message: e.message() },
    }
}

} // verus!
