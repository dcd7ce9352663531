//! Requests to the daemon and what comes of them, as plain values.

use vstd::prelude::*;
use vstd::string::*;

use crate::json::{optional_json, Json, JsonView};
use crate::text::optional_text;

verus! {

/// The method of a request.
#[derive(Debug, Clone, Copy, PartialEq, Eq, Structural)]
pub enum HttpMethod {
    Get,
    Post,
    Put,
    Delete,
}

/// A request to the daemon.
#[derive(Debug)]
pub struct HttpRequest {
    pub method: HttpMethod,
    pub url: String,
    /// The value of the `Authorization` header, if there is one.
    pub authorization: Option<String>,
    /// The JSON body, if there is one.
    pub body: Option<Json>,
}

/// What came of a request.
#[derive(Debug)]
pub enum HttpOutcome {
    /// The request could not be sent.
    SendFailed(String),
    /// The daemon answered with an error status.
    StatusError(String),
    /// The body of the answer is no JSON.
    BodyUnreadable(String),
    /// The body of the answer.
    Body(Json),
}

/// What a request says.
pub struct RequestView {
    pub method: HttpMethod,
    pub url: Seq<char>,
    pub authorization: Option<Seq<char>>,
    pub body: Option<JsonView>,
}

/// What an outcome says.
pub enum OutcomeView {
    SendFailed(Seq<char>),
    StatusError(Seq<char>),
    BodyUnreadable(Seq<char>),
    Body(JsonView),
}

impl View for HttpRequest {
    type V = RequestView;

    open spec fn view(&self) -> RequestView {
        RequestView {
            method: self.method,
            url: self.url@,
            authorization: optional_text(self.authorization),
            body: optional_json(self.body),
        }
    }
}

impl View for HttpOutcome {
    type V = OutcomeView;

    open spec fn view(&self) -> OutcomeView {
        match *self {
            HttpOutcome::SendFailed(e) => OutcomeView::SendFailed(e@),
            HttpOutcome::StatusError(e) => OutcomeView::StatusError(e@),
            HttpOutcome::BodyUnreadable(e) => OutcomeView::BodyUnreadable(e@),
            HttpOutcome::Body(value) => OutcomeView::Body(value@),
        }
    }
}

/// The `Authorization` header that a token gives.
pub open spec fn bearer(api_token: Option<Seq<char>>) -> Option<Seq<char>> {
    match api_token {
        Some(t) => Some("Bearer "@ + t),
        None => None,
    }
}

/// The request for a path of the daemon.
pub open spec fn daemon_request(
    method: HttpMethod,
    daemon_url: Seq<char>,
    path: Seq<char>,
    api_token: Option<Seq<char>>,
    body: Option<JsonView>,
) -> RequestView {
    RequestView { method, url: daemon_url + path, authorization: bearer(api_token), body }
}

/// The request for a path of the daemon.
pub fn request_to(
    method: HttpMethod,
    daemon_url: &str,
    path: &str,
    api_token: &Option<String>,
    body: Option<Json>,
) -> (r: HttpRequest)
    ensures
        r@ == daemon_request(
            method,
            daemon_url@,
            path@,
            optional_text(*api_token),
            optional_json(body),
        ),
{
    let mut url = daemon_url.to_owned();
    url.append(path);
    let authorization = match api_token {
        Some(t) => {
            let mut value = "Bearer ".to_owned();
            value.append(t.as_str());
            Some(value)
        },
        None => None,
    };
    HttpRequest { method, url, authorization, body }
}

} // verus!
