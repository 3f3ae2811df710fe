//! Requests and responses.

use vstd::prelude::*;

use crate::error::{reason_phrase_text, StatusCode};
use crate::headers::{
    decimal_digits, decimal_text, empty_headers, with_header, ExtraHeaders, HeaderFields,
};
use crate::url::{opt_url_view, Url, UrlView};

verus! {

/// Version of the protocol.
#[derive(Clone, Copy, PartialEq, Eq, Structural, Debug)]
pub enum Version {
    V1_0,
    V2_0,
}

/// Method of a request.
#[derive(Clone, Copy, PartialEq, Eq, Structural, Debug)]
pub enum Method {
    Describe,
    GetParameter,
    Options,
    Pause,
    Play,
    PlayNotify,
    Redirect,
    Setup,
    SetParameter,
    Announce,
    Record,
    Teardown,
    /// Any other method.
    Extension,
}

/// A request, as it is seen in contracts.
pub ghost struct RequestView {
    pub method: Method,
    pub request_uri: Option<UrlView>,
    pub version: Version,
    pub headers: Map<Seq<char>, Seq<char>>,
    pub body: Seq<u8>,
}

/// A request.
pub struct Request {
    pub method: Method,
    pub request_uri: Option<Url>,
    pub version: Version,
    pub headers: HeaderFields,
    pub body: Vec<u8>,
}

/// A response, as it is seen in contracts.
#[verifier::ext_equal]
pub ghost struct ResponseView {
    pub version: Version,
    pub status: StatusCode,
    pub reason_phrase: Seq<char>,
    pub headers: Map<Seq<char>, Seq<char>>,
    pub body: Seq<u8>,
}

/// A response.
pub struct Response {
    pub version: Version,
    pub status: StatusCode,
    pub reason_phrase: String,
    pub headers: HeaderFields,
    pub body: Vec<u8>,
}

impl Request {
    /// What is in this request.
    pub open spec fn view(self) -> RequestView {
        RequestView {
            method: self.method,
            request_uri: opt_url_view(self.request_uri),
            version: self.version,
            headers: self.headers@,
            body: self.body@,
        }
    }

    /// A request for nothing in particular, without headers and without a body.
    pub fn new(method: Method, version: Version) -> (r: Request)
        ensures
            r@ == (RequestView {
                method,
                request_uri: None,
                version,
                headers: empty_headers(),
                body: Seq::empty(),
            }),
    {
        let body: Vec<u8> = Vec::new();
        Request { method, request_uri: None, version, headers: HeaderFields::new(), body }
    }
}

impl ResponseView {
    /// A response with the default reason phrase of its status, without headers and without a
    /// body.
    pub open spec fn empty(version: Version, status: StatusCode) -> ResponseView {
        ResponseView {
            version,
            status,
            reason_phrase: reason_phrase_text(status.spec_code()),
            headers: empty_headers(),
            body: Seq::empty(),
        }
    }

    /// This response with a header set.
    pub open spec fn with_header(self, name: Seq<char>, value: Seq<char>) -> ResponseView {
        ResponseView { headers: with_header(self.headers, name, value), ..self }
    }

    /// This response with a body, whose length is given in a header unless it is empty.
    pub open spec fn with_body(self, body: Seq<u8>) -> ResponseView {
        ResponseView {
            headers: if body.len() == 0 {
                self.headers
            } else {
                with_header(self.headers, "Content-Length"@, decimal_digits(body.len()))
            },
            body,
            ..self
        }
    }
}

impl Response {
    /// What is in this response.
    pub open spec fn view(self) -> ResponseView {
        ResponseView {
            version: self.version,
            status: self.status,
            reason_phrase: self.reason_phrase@,
            headers: self.headers@,
            body: self.body@,
        }
    }

    /// A response with the default reason phrase of its status, without headers and without a
    /// body.
    pub fn new(version: Version, status: StatusCode) -> (r: Response)
        ensures
            r@ == ResponseView::empty(version, status),
    {
        let body: Vec<u8> = Vec::new();
        Response { version, status, reason_phrase: status.text(), headers: HeaderFields::new(), body }
    }

    /// Sets a header.
    pub fn insert_header(&mut self, name: &str, value: &str)
        ensures
            final(self)@ == old(self)@.with_header(name@, value@),
    {
        self.headers.insert(name, value);
    }

    /// Sets all of `extra`, one after the other.
    pub fn insert_extra_headers(&mut self, extra: &ExtraHeaders)
        ensures
            final(self)@ == (ResponseView {
                headers: crate::headers::with_extra_headers(old(self)@.headers, extra@),
                ..old(self)@
            }),
    {
        self.headers.insert_extra(extra);
    }

    /// Gives this response a body.
    pub fn set_body(&mut self, body: Vec<u8>)
        ensures
            final(self)@ == old(self)@.with_body(body@),
    {
        if body.len() != 0 {
            let length = decimal_text(body.len() as u64);
            self.headers.insert("Content-Length", length.as_str());
        }
        self.body = body;
    }
}

} // verus!
