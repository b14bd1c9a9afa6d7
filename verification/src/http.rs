//! HTTP requests and replies as plain values.

use vstd::prelude::*;
use crate::json::Json;
use crate::json::JsonView;
use crate::json::json_document;
use crate::json::json_result;
use crate::json::parse_json;
use crate::text::cat2;
use crate::text::cat3;
use crate::text::decimal;
use crate::text::text_result;

verus! {

/// What is done to the resource that a request names.
#[derive(Clone, Copy, Debug, PartialEq, Eq, Structural)]
pub enum Method {
    Get,
    Post,
    Delete,
}

/// What a request carries: nothing, a text as it is, or a JSON value.
#[derive(Debug, PartialEq, Eq)]
pub enum Body {
    Empty,
    Text(String),
    Json(Json),
}

/// The mathematical form of what a request carries.
pub enum BodyView {
    Empty,
    Text(Seq<char>),
    Json(JsonView),
}

impl View for Body {
    type V = BodyView;

    open spec fn view(&self) -> BodyView {
        match self {
            Body::Empty => BodyView::Empty,
            Body::Text(s) => BodyView::Text(s@),
            Body::Json(value) => BodyView::Json(value@),
        }
    }
}

/// An HTTP request that is to be sent.
#[derive(Debug, PartialEq, Eq)]
pub struct HttpRequest {
    pub method: Method,
    pub url: String,
    /// The token to present as the bearer.
    pub bearer: Option<String>,
    /// A header to set beyond those that follow from the rest.
    pub header: Option<(String, String)>,
    pub body: Body,
}

/// The mathematical form of a request.
pub struct HttpRequestView {
    pub method: Method,
    pub url: Seq<char>,
    pub bearer: Option<Seq<char>>,
    pub header: Option<(Seq<char>, Seq<char>)>,
    pub body: BodyView,
}

impl View for HttpRequest {
    type V = HttpRequestView;

    open spec fn view(&self) -> HttpRequestView {
        HttpRequestView {
            method: self.method,
            url: self.url@,
            bearer: crate::text::owned_text(self.bearer),
            header: match self.header {
                Some((name, value)) => Some((name@, value@)),
                None => None,
            },
            body: self.body@,
        }
    }
}

/// The status code of a reply: three digits, the first of them not zero.
#[derive(Clone, Copy)]
pub struct Status {
    code: u16,
}

impl Status {
    #[verifier::type_invariant]
    spec fn three_digits(self) -> bool {
        100 <= self.code <= 999
    }

    pub closed spec fn number(self) -> u16 {
        self.code
    }

    /// The status with that code, where it has three digits.
    pub fn new(code: u16) -> (out: Option<Status>)
        ensures
            out is Some <==> 100 <= code <= 999,
            out matches Some(status) ==> status.number() == code,
    {
        if 100 <= code && code <= 999 {
            Some(Status { code })
        } else {
            None
        }
    }

    /// Whether the status says that the request succeeded.
    pub fn is_success(&self) -> (yes: bool)
        ensures
            yes == (200 <= self.number() <= 299),
    {
        proof {
            use_type_invariant(self);
        }
        code_is_success(self.code)
    }

    /// The status in words.
    pub fn describe(&self) -> (out: String)
        ensures
            out@ == code_text(self.number()),
    {
        proof {
            use_type_invariant(self);
        }
        describe_code(self.code)
    }
}

/// The reason phrase that `StatusCode` of `reqwest` prints for a status code.
pub uninterp spec fn reason_phrase(code: u16) -> Seq<char>;

/// A status code in words: the code, a space and its reason phrase.
pub open spec fn code_text(code: u16) -> Seq<char> {
    decimal(code as nat) + " "@ + reason_phrase(code)
}

/// `StatusCode::is_success` of `reqwest`: whether the code is from 200 to 299. `from_u16` takes
/// every code of three digits.
#[verifier::external_body]
fn code_is_success(code: u16) -> (yes: bool)
    requires
        100 <= code <= 999,
    ensures
        yes == (200 <= code <= 299),
{
    reqwest::StatusCode::from_u16(code).unwrap().is_success()
}

/// The `Display` of `StatusCode` of `reqwest`: the code, a space and its reason phrase, whatever
/// the phrases are. `from_u16` takes every code of three digits.
#[verifier::external_body]
fn describe_code(code: u16) -> (out: String)
    requires
        100 <= code <= 999,
    ensures
        out@ == decimal(code as nat) + " "@ + reason_phrase(code),
{
    reqwest::StatusCode::from_u16(code).unwrap().to_string()
}

/// What became of a request.
pub enum HttpReply {
    /// It could not be sent; the message says why.
    Unsent(String),
    /// An answer came, and its text could not be read; the message says why.
    Unread(Status, String),
    /// An answer came, with that text.
    Answered(Status, String),
}

/// The mathematical form of what became of a request.
pub enum HttpReplyView {
    Unsent(Seq<char>),
    Unread(u16, Seq<char>),
    Answered(u16, Seq<char>),
}

impl View for HttpReply {
    type V = HttpReplyView;

    open spec fn view(&self) -> HttpReplyView {
        match self {
            HttpReply::Unsent(message) => HttpReplyView::Unsent(message@),
            HttpReply::Unread(status, message) => HttpReplyView::Unread(status.number(), message@),
            HttpReply::Answered(status, text) => HttpReplyView::Answered(status.number(), text@),
        }
    }
}

/// A status code that says that the request succeeded.
pub open spec fn is_success(code: u16) -> bool {
    200 <= code <= 299
}

/// The text of a successful answer from Cloud Spanner, or what went wrong.
pub open spec fn request_text_outcome(reply: HttpReplyView) -> Result<Seq<char>, Seq<char>> {
    match reply {
        HttpReplyView::Unsent(message) => Err("Cloud Spanner request failed: "@ + message),
        HttpReplyView::Unread(_, message) => Err("Cloud Spanner response read failed: "@ + message),
        HttpReplyView::Answered(code, text) => if is_success(code) {
            Ok(text)
        } else {
            Err("Cloud Spanner returned HTTP "@ + code_text(code) + ": "@ + text)
        },
    }
}

/// A value as JSON, or what was wrong with the text.
pub open spec fn json_outcome(
    text: Seq<char>,
    document: Result<JsonView, Seq<char>>,
) -> Result<JsonView, Seq<char>> {
    match document {
        Ok(value) => Ok(value),
        Err(message) => Err(
            "Cloud Spanner JSON response parse failed: "@ + message + ": "@ + text,
        ),
    }
}

/// The JSON value of a successful answer from Cloud Spanner, or what went wrong.
pub open spec fn request_json_outcome(reply: HttpReplyView) -> Result<JsonView, Seq<char>> {
    match request_text_outcome(reply) {
        Ok(text) => json_outcome(text, json_document(text)),
        Err(message) => Err(message),
    }
}

/// Takes the text out of an answer from Cloud Spanner.
pub fn request_text(reply: HttpReply) -> (out: Result<String, String>)
    ensures
        text_result(out) == request_text_outcome(reply@),
{
    match reply {
        HttpReply::Unsent(message) => Err(cat2("Cloud Spanner request failed: ", message.as_str())),
        HttpReply::Unread(_, message) => Err(
            cat2("Cloud Spanner response read failed: ", message.as_str()),
        ),
        HttpReply::Answered(status, text) => if status.is_success() {
            Ok(text)
        } else {
            let mut error = cat3(
                "Cloud Spanner returned HTTP ",
                status.describe().as_str(),
                ": ",
            );
            error.push_str(text.as_str());
            Err(error)
        },
    }
}

/// Says what was wrong with a text that is no JSON.
pub fn explain_json(text: &str, document: Result<Json, String>) -> (out: Result<Json, String>)
    ensures
        json_result(out) == json_outcome(text@, json_result(document)),
{
    match document {
        Ok(value) => Ok(value),
        Err(message) => {
            let mut error = cat3(
                "Cloud Spanner JSON response parse failed: ",
                message.as_str(),
                ": ",
            );
            error.push_str(text);
            Err(error)
        },
    }
}

/// Takes the JSON value out of an answer from Cloud Spanner.
pub fn request_json(reply: HttpReply) -> (out: Result<Json, String>)
    ensures
        json_result(out) == request_json_outcome(reply@),
{
    match request_text(reply) {
        Ok(text) => {
            let document = parse_json(text.as_str());
            explain_json(text.as_str(), document)
        },
        Err(message) => Err(message),
    }
}

} // verus!
