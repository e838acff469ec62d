//! Requests to the Notion API and the answers that come back.
use crate::notion::{check_status, opt_str, result_view, status_outcome, NotionError, Property};
use crate::text::{push_str, string_from};
use vstd::prelude::*;

verus! {

/// The kind of an HTTP request to Notion.
#[derive(Clone, Copy, Debug, PartialEq, Eq, Structural)]
pub enum Method {
    Get,
    Post,
    Patch,
}

/// A request to the Notion API, made with the integration token.
pub struct Request {
    pub method: Method,
    pub url: String,
    pub token: String,
    pub body: Option<String>,
}

pub struct RequestView {
    pub method: Method,
    pub url: Seq<char>,
    pub token: Seq<char>,
    pub body: Option<Seq<char>>,
}

impl View for Request {
    type V = RequestView;

    open spec fn view(&self) -> RequestView {
        RequestView { method: self.method, url: self.url@, token: self.token@, body: opt_str(self.body) }
    }
}

/// What Notion answered: the status code and its text (such as
/// `404 Not Found`), the answer's `message`, and the parts of the answer
/// that the commands read: the database's properties, the created page's
/// id and the integration's name.
pub struct Response {
    pub code: u16,
    pub status: String,
    pub message: Option<String>,
    pub properties: Option<Vec<Property>>,
    pub id: Option<String>,
    pub name: Option<String>,
}

pub struct ResponseView {
    pub code: u16,
    pub status: Seq<char>,
    pub message: Option<Seq<char>>,
    pub properties: Option<Seq<Property>>,
    pub id: Option<Seq<char>>,
    pub name: Option<Seq<char>>,
}

impl View for Response {
    type V = ResponseView;

    open spec fn view(&self) -> ResponseView {
        ResponseView {
            code: self.code,
            status: self.status@,
            message: opt_str(self.message),
            properties: match self.properties {
                Some(p) => Some(p@),
                None => None,
            },
            id: opt_str(self.id),
            name: opt_str(self.name),
        }
    }
}

/// The Notion API address of `path`.
pub open spec fn api(path: Seq<char>) -> Seq<char> {
    "https://api.notion.com/v1"@ + path
}

/// The Notion API address of `path`.
pub fn api_url(path: &str) -> (r: String)
    ensures
        r@ == api(path@),
{
    let mut s = string_from("https://api.notion.com/v1");
    push_str(&mut s, path);
    s
}

fn message_ref(m: &Option<String>) -> (r: Option<&str>)
    ensures
        match r {
            Some(x) => opt_str(*m) == Some(x@),
            None => opt_str(*m) is None,
        },
{
    match m {
        Some(x) => Some(x.as_str()),
        None => None,
    }
}

/// The outcome of a response's status, as `status_outcome` says.
pub fn response_status(r: &Response) -> (out: Result<(), NotionError>)
    ensures
        result_view(out) == status_outcome(r@.code, r@.status, r@.message),
{
    let m = message_ref(&r.message);
    check_status(r.code, r.status.as_str(), m)
}

} // verus!
