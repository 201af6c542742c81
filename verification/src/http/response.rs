//! Responses and their wire format.

use vstd::prelude::*;
use vstd::string::*;
use vstd::utf8::encode_utf8;
use crate::http::status_code::StatusCode;
use crate::http::text::decimal;

verus! {

/// What a response says, as a mathematical value.
pub ghost struct ResponseView {
    pub status_code: StatusCode,
    pub body: Option<Seq<char>>,
}

/// The status line of a response and the empty line that ends its head:
/// protocol, numeric code, reason phrase, and two line ends. No header
/// stands between them.
pub open spec fn head_text(status: StatusCode) -> Seq<char> {
    "HTTP/1.1 "@ + decimal(status.code()) + " "@ + status.phrase() + "\r\n\r\n"@
}

/// A response as text: its head, then its body. A response without a body
/// ends after the head.
pub open spec fn response_text(response: ResponseView) -> Seq<char> {
    head_text(response.status_code) + match response.body {
        Some(body) => body,
        None => Seq::empty(),
    }
}

/// A response on the wire: the UTF-8 encoding of its text.
pub open spec fn response_bytes(response: ResponseView) -> Seq<u8> {
    encode_utf8(response_text(response))
}

/// One reply: a status and, optionally, a body.
#[derive(Debug)]
pub struct Response {
    status_code: StatusCode,
    body: Option<String>,
}

impl View for Response {
    type V = ResponseView;

    closed spec fn view(&self) -> ResponseView {
        ResponseView {
            status_code: self.status_code,
            body: match self.body {
                Some(body) => Some(body@),
                None => None,
            },
        }
    }
}

impl Response {
    pub fn new(status_code: StatusCode, body: Option<String>) -> (r: Response)
        ensures
            r@.status_code == status_code,
            r@.body == match body {
                Some(text) => Some(text@),
                None => None,
            },
    {
        Response { status_code, body }
    }

    /// This response as text, in the layout of the wire.
    pub fn to_string(&self) -> (r: String)
        ensures
            r@ == response_text(self@),
    {
        let mut out = String::from_str("HTTP/1.1 ");
        out.append(self.status_code.to_string().as_str());
        out.append(" ");
        out.append(self.status_code.reason_phrase());
        out.append("\r\n\r\n");
        match &self.body {
            Some(body) => {
                out.append(body.as_str());
            },
            None => {
                assert(out@ + Seq::<char>::empty() =~= out@);
            },
        }
        out
    }

    /// The bytes of this response, as they go onto the wire.
    pub fn render(&self) -> (r: Vec<u8>)
        ensures
            r@ == response_bytes(self@),
    {
        let text = self.to_string();
        text.as_str().as_bytes_vec()
    }
}

/// Rendering is a function of what a response says: two responses that say
/// the same render to the same bytes, and so does one response rendered
/// twice.
pub proof fn lemma_render_repeats(a: Response, b: Response, first: Vec<u8>, second: Vec<u8>)
    requires
        a@ == b@,
        first@ == response_bytes(a@),
        second@ == response_bytes(b@),
    ensures
        first@ == second@,
{
}

/// A response without a body renders as one with an empty body: the head,
/// and nothing after it.
pub proof fn lemma_missing_body_is_empty(status: StatusCode)
    ensures
        response_bytes(ResponseView { status_code: status, body: None }) == encode_utf8(
            head_text(status),
        ),
        response_bytes(ResponseView { status_code: status, body: None }) == response_bytes(
            ResponseView { status_code: status, body: Some(Seq::empty()) },
        ),
{
    assert(head_text(status) + Seq::<char>::empty() =~= head_text(status));
}

} // verus!
