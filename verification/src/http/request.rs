//! Requests: reading the request line of a raw buffer into method, path and
//! query parameters, and the errors that reading can end in.

use vstd::prelude::*;
use vstd::std_specs::convert::FromSpecImpl;
use vstd::string::*;
use vstd::utf8::*;
use core::str::Utf8Error;
use crate::http::method::Method;
use crate::http::query_params::{query_map, ParamValue, QueryParams};
use crate::http::text::{first_of, lemma_first_of, split_at_char, split_at_first, str_eq};

verus! {

/// The error of `core::str::from_utf8`. Nothing of it is read: it only says
/// that the bytes were no UTF-8.
#[verifier::external_type_specification]
#[verifier::external_body]
pub struct ExUtf8Error(Utf8Error);

/// `core::str::from_utf8` succeeds exactly on the byte sequences that are
/// valid UTF-8, and the string slice it then gives is made of those very
/// bytes.
pub assume_specification[ core::str::from_utf8 ](v: &[u8]) -> (r: Result<&str, Utf8Error>)
    ensures
        r is Ok <==> valid_utf8(v@),
        r matches Ok(s) ==> s.spec_bytes() == v@,
;

/// What a request says, as a mathematical value.
pub ghost struct RequestView {
    pub method: Method,
    pub path: Seq<char>,
    pub query_params: Option<Map<Seq<char>, ParamValue>>,
}

/// Why a buffer is no request, as a mathematical value.
pub ghost enum ParseFailure {
    InvalidRequest,
    InvalidEncoding,
    InvalidProtocol,
    InvalidMethod(Seq<char>),
}

/// The first word of a text and what follows it: the text is cut at its
/// first space or carriage return, which belongs to neither part. `None`
/// where the text holds neither character.
pub open spec fn next_word(t: Seq<char>) -> Option<(Seq<char>, Seq<char>)> {
    let i = first_of(t, set![' ', '\r']);
    if 0 <= i < t.len() {
        Some((t.subrange(0, i), t.subrange(i + 1, t.len() as int)))
    } else {
        None
    }
}

/// The first three words of a text: method token, request-target and
/// protocol token. `None` where the text holds fewer than three words, each
/// ended by a space or a carriage return.
pub open spec fn request_line(t: Seq<char>) -> Option<(Seq<char>, Seq<char>, Seq<char>)> {
    match next_word(t) {
        Some((method, after_method)) => match next_word(after_method) {
            Some((target, after_target)) => match next_word(after_target) {
                Some((protocol, _)) => Some((method, target, protocol)),
                None => None,
            },
            None => None,
        },
        None => None,
    }
}

/// The path of a request-target: what stands before its first `?`, or all
/// of it where it holds none.
pub open spec fn target_path(target: Seq<char>) -> Seq<char> {
    let i = first_of(target, set!['?']);
    if 0 <= i < target.len() {
        target.subrange(0, i)
    } else {
        target
    }
}

/// The query string of a request-target: what stands after its first `?`,
/// or `None` where it holds none.
pub open spec fn target_query(target: Seq<char>) -> Option<Seq<char>> {
    let i = first_of(target, set!['?']);
    if 0 <= i < target.len() {
        Some(target.subrange(i + 1, target.len() as int))
    } else {
        None
    }
}

/// What a decoded buffer holds: the request of its first line, or the first
/// reason, in the order request line, protocol, method, why it holds none.
pub open spec fn parse_text(t: Seq<char>) -> Result<RequestView, ParseFailure> {
    match request_line(t) {
        None => Err(ParseFailure::InvalidRequest),
        Some((method, target, protocol)) => if protocol != "HTTP/1.1"@ {
            Err(ParseFailure::InvalidProtocol)
        } else {
            match Method::from_text(method) {
                None => Err(ParseFailure::InvalidMethod(method)),
                Some(m) => Ok(
                    RequestView {
                        method: m,
                        path: target_path(target),
                        query_params: match target_query(target) {
                            Some(q) => Some(query_map(q)),
                            None => None,
                        },
                    },
                ),
            }
        },
    }
}

/// What a raw buffer holds: bytes that are no UTF-8 are refused first, the
/// rest is read as text.
pub open spec fn parse_bytes(bytes: Seq<u8>) -> Result<RequestView, ParseFailure> {
    if valid_utf8(bytes) {
        parse_text(decode_utf8(bytes))
    } else {
        Err(ParseFailure::InvalidEncoding)
    }
}

/// Why a buffer could not be read as a request.
pub enum ParseError {
    /// The request line has fewer than three words.
    InvalidRequest,
    /// The buffer is no UTF-8 text.
    InvalidEncoding,
    /// The protocol is not `HTTP/1.1`.
    InvalidProtocol,
    /// The method token, which is none of the known methods.
    InvalidMethod(String),
}

impl View for ParseError {
    type V = ParseFailure;

    open spec fn view(&self) -> ParseFailure {
        match self {
            ParseError::InvalidRequest => ParseFailure::InvalidRequest,
            ParseError::InvalidEncoding => ParseFailure::InvalidEncoding,
            ParseError::InvalidProtocol => ParseFailure::InvalidProtocol,
            ParseError::InvalidMethod(token) => ParseFailure::InvalidMethod(token@),
        }
    }
}

impl ParseFailure {
    /// The fixed message of each kind of failure.
    pub open spec fn message(self) -> Seq<char> {
        match self {
            ParseFailure::InvalidRequest => "Invalid Request"@,
            ParseFailure::InvalidEncoding => "Invalid Encoding"@,
            ParseFailure::InvalidProtocol => "Invalid Protocol"@,
            ParseFailure::InvalidMethod(_) => "Invalid Method"@,
        }
    }
}

impl ParseError {
    /// The fixed message of this error.
    pub fn message(&self) -> (r: &'static str)
        ensures
            r@ == self@.message(),
    {
        match self {
            ParseError::InvalidRequest => "Invalid Request",
            ParseError::InvalidEncoding => "Invalid Encoding",
            ParseError::InvalidProtocol => "Invalid Protocol",
            ParseError::InvalidMethod(_) => "Invalid Method",
        }
    }

    /// The message of this error, as an owned string.
    pub fn to_string(&self) -> (r: String)
        ensures
            r@ == self@.message(),
    {
        String::from_str(self.message())
    }
}

impl From<Utf8Error> for ParseError {
    fn from(e: Utf8Error) -> (r: ParseError) {
        ParseError::InvalidEncoding
    }
}

impl FromSpecImpl<Utf8Error> for ParseError {
    open spec fn obeys_from_spec() -> bool {
        true
    }

    open spec fn from_spec(e: Utf8Error) -> ParseError {
        ParseError::InvalidEncoding
    }
}

/// One parsed request: the method, the path without any query string, and
/// the query parameters where the request-target held a `?`.
#[derive(Debug)]
pub struct Request<'buf> {
    path: &'buf str,
    query_params: Option<QueryParams<'buf>>,
    method: Method,
}

impl<'buf> View for Request<'buf> {
    type V = RequestView;

    closed spec fn view(&self) -> RequestView {
        RequestView {
            method: self.method,
            path: self.path@,
            query_params: match self.query_params {
                Some(q) => Some(q@),
                None => None,
            },
        }
    }
}

/// Cuts the first word off a text, at its first space or carriage return.
pub fn get_next_word(request: &str) -> (r: Option<(&str, &str)>)
    ensures
        match r {
            Some((word, rest)) => next_word(request@) == Some((word@, rest@)),
            None => next_word(request@) is None,
        },
{
    split_at_first(request, ' ', '\r')
}

impl<'buf> Request<'buf> {
    #[verifier::type_invariant]
    spec fn well_formed(&self) -> bool {
        !self.path@.contains('?')
    }

    /// Reads the request line of a buffer. Whatever follows the protocol
    /// token is left unread.
    pub fn try_from(value: &'buf [u8]) -> (r: Result<Request<'buf>, ParseError>)
        ensures
            match r {
                Ok(request) => parse_bytes(value@) == Ok::<RequestView, ParseFailure>(request@),
                Err(e) => parse_bytes(value@) == Err::<RequestView, ParseFailure>(e@),
            },
    {
        broadcast use encode_utf8_decode_utf8;

        let request = match core::str::from_utf8(value) {
            Ok(text) => text,
            Err(e) => {
                return Err(ParseError::from(e));
            },
        };
        assert(request@ == decode_utf8(value@)) by {
            assert(decode_utf8(encode_utf8(request@)) == request@);
        }
        let (method, request) = match get_next_word(request) {
            Some(cut) => cut,
            None => {
                return Err(ParseError::InvalidRequest);
            },
        };
        let (target, request) = match get_next_word(request) {
            Some(cut) => cut,
            None => {
                return Err(ParseError::InvalidRequest);
            },
        };
        let protocol = match get_next_word(request) {
            Some((protocol, _)) => protocol,
            None => {
                return Err(ParseError::InvalidRequest);
            },
        };
        if !str_eq(protocol, "HTTP/1.1") {
            return Err(ParseError::InvalidProtocol);
        }
        let method = match Method::from_str(method) {
            Ok(m) => m,
            Err(_) => {
                return Err(ParseError::InvalidMethod(String::from_str(method)));
            },
        };
        proof {
            lemma_first_of(target@, set!['?']);
        }
        let (path, query_params) = match split_at_char(target, '?') {
            Some((path, query)) => (path, Some(QueryParams::from(query))),
            None => (target, None),
        };
        Ok(Request { path, query_params, method })
    }

    /// The path, without any query string.
    pub fn path(&self) -> (r: &str)
        ensures
            r@ == self@.path,
            !r@.contains('?'),
    {
        proof {
            use_type_invariant(self);
        }
        self.path
    }

    pub fn method(&self) -> (r: &Method)
        ensures
            *r == self@.method,
    {
        &self.method
    }

    /// The query parameters, where the request-target held a `?`.
    pub fn query_params(&self) -> (r: Option<&QueryParams<'buf>>)
        ensures
            match r {
                Some(q) => self@.query_params == Some(q@),
                None => self@.query_params is None,
            },
    {
        self.query_params.as_ref()
    }
}

/// A request-target with a `?` is its path, the `?` and its query string,
/// and the path is what stands before the first `?`; a target without one is
/// its own path and has no query string.
pub proof fn lemma_target_parts(target: Seq<char>)
    ensures
        !target_path(target).contains('?'),
        target.contains('?') ==> target_query(target) is Some && target == target_path(target)
            + seq!['?'] + target_query(target)->Some_0,
        !target.contains('?') ==> target_query(target) is None && target_path(target) == target,
{
    let i = first_of(target, set!['?']);
    lemma_first_of(target, set!['?']);
    if i < target.len() {
        assert(target[i] == '?');
        assert(target =~= target_path(target) + seq!['?'] + target_query(target)->Some_0);
    }
    if target_path(target).contains('?') {
        let k = choose|k: int| 0 <= k < target_path(target).len() && target_path(target)[k] == '?';
        assert(target[k] == '?');
    }
}

} // verus!
