//! What is sent to the GitHub API, and what comes back.
//!
//! Nothing here sends anything: requests are values that the caller carries out, and
//! replies are values that the caller hands in.

use vstd::prelude::*;

use crate::error::{MemoryError, Result};
use crate::json::{json_in, json_views, parse_json, Json, JsonView};

verus! {

/// The method of a request.
#[derive(Debug, Clone, Copy, PartialEq, Eq, Structural)]
pub enum Method {
    /// `GET`
    Get,
    /// `POST`
    Post,
    /// `PATCH`
    Patch,
    /// `PUT`
    Put,
}

/// A request to the GitHub API.
#[derive(Debug)]
pub struct Request {
    /// The method.
    pub method: Method,
    /// The absolute address.
    pub url: String,
    /// The query parameters, in order, not yet encoded.
    pub params: Vec<(String, String)>,
    /// The JSON body, if the request has one.
    pub body: Option<Json>,
}

/// What a [`Request`] holds.
#[verifier::ext_equal]
pub struct RequestView {
    pub method: Method,
    pub url: Seq<char>,
    pub params: Seq<(Seq<char>, Seq<char>)>,
    pub body: Option<JsonView>,
}

/// What the parameters hold.
pub open spec fn param_views(v: Seq<(String, String)>) -> Seq<(Seq<char>, Seq<char>)> {
    Seq::new(v.len(), |i: int| (v[i].0@, v[i].1@))
}

impl View for Request {
    type V = RequestView;

    open spec fn view(&self) -> RequestView {
        RequestView {
            method: self.method,
            url: self.url@,
            params: param_views(self.params@),
            body: match self.body {
                Some(j) => Some(j@),
                None => None,
            },
        }
    }
}

/// What the requests hold.
pub open spec fn request_views(v: Seq<Request>) -> Seq<RequestView> {
    Seq::new(v.len(), |i: int| v[i]@)
}

/// A request without parameters.
pub open spec fn plain_request(
    method: Method,
    url: Seq<char>,
    body: Option<JsonView>,
) -> RequestView {
    RequestView { method, url, params: seq![], body }
}

/// A request without parameters or body.
pub(crate) fn get(url: String) -> (r: Request)
    ensures
        r@ == plain_request(Method::Get, url@, None),
{
    let r = Request { method: Method::Get, url, params: Vec::new(), body: None };
    assert(r@ =~= plain_request(Method::Get, url@, None));
    r
}

/// A request with a body.
pub(crate) fn send(method: Method, url: String, body: Json) -> (r: Request)
    ensures
        r@ == plain_request(method, url@, Some(body@)),
{
    let r = Request { method, url, params: Vec::new(), body: Some(body) };
    assert(r@ =~= plain_request(method, url@, Some(body@)));
    r
}

/// The answer to a request.
#[derive(Debug)]
pub struct Reply {
    /// The HTTP status code.
    pub status: u16,
    /// The body.
    pub text: String,
}

impl Reply {
    /// The status tells of success.
    pub open spec fn succeeded(self) -> bool {
        200 <= self.status < 300
    }

    /// Whether the status tells of success.
    pub fn is_success(&self) -> (r: bool)
        ensures
            r == self.succeeded(),
    {
        200 <= self.status && self.status < 300
    }
}

/// The call failed because GitHub answered with `status` and `message`.
pub open spec fn api_failure<T>(r: Result<T>, status: u16, message: Seq<char>) -> bool {
    match r {
        Err(MemoryError::GithubApi { status: s, message: m }) => s == status && m@ == message,
        _ => false,
    }
}

/// The call failed because the body of the reply was not the JSON it should be.
pub open spec fn decode_failure<T>(r: Result<T>) -> bool {
    match r {
        Err(MemoryError::Http(m)) => m@ == "error decoding response body"@,
        _ => false,
    }
}

/// The message in the body of a reply that tells of a failure.
pub open spec fn failure_message(text: Seq<char>) -> Seq<char> {
    let message = match json_in(text) {
        Some(j) => j.text_field("message"@),
        None => None,
    };
    match message {
        Some(m) => m,
        None => "unknown error"@,
    }
}

/// Maps a reply that tells of no success to [`MemoryError::GithubApi`], with the message of
/// GitHub's error body `{"message": "..."}`.
pub fn check_response(reply: &Reply) -> (r: Result<()>)
    ensures
        reply.succeeded() ==> r is Ok,
        !reply.succeeded() ==> api_failure(r, reply.status, failure_message(reply.text@)),
{
    if reply.is_success() {
        return Ok(());
    }
    let message: String = match parse_json(reply.text.as_str()) {
        Ok(body) => match body.text_at("message") {
            Some(m) => m.to_owned(),
            None => "unknown error".to_owned(),
        },
        Err(_) => "unknown error".to_owned(),
    };
    Err(MemoryError::GithubApi { status: reply.status, message })
}

/// The JSON in the body of a reply.
pub fn reply_json(reply: &Reply) -> (r: Result<Json>)
    ensures
        match json_in(reply.text@) {
            Some(j) => r is Ok && r->Ok_0@ == j,
            None => decode_failure(r),
        },
{
    match parse_json(reply.text.as_str()) {
        Ok(j) => Ok(j),
        Err(_) => Err(MemoryError::Http("error decoding response body".to_owned())),
    }
}

/// The items of the JSON array in a text.
pub open spec fn items_in(text: Seq<char>) -> Option<Seq<JsonView>> {
    match json_in(text) {
        Some(j) => j.items(),
        None => None,
    }
}

/// The items of the JSON array in the body of a reply.
pub fn reply_items(reply: &Reply) -> (r: Result<Vec<Json>>)
    ensures
        match items_in(reply.text@) {
            Some(items) => r is Ok && json_views(r->Ok_0@) == items,
            None => decode_failure(r),
        },
{
    match parse_json(reply.text.as_str()) {
        Ok(j) => match j {
            Json::Array(items) => {
                assert(j@->Array_0 =~= json_views(items@));
                Ok(items)
            },
            _ => Err(MemoryError::Http("error decoding response body".to_owned())),
        },
        Err(_) => Err(MemoryError::Http("error decoding response body".to_owned())),
    }
}

} // verus!
