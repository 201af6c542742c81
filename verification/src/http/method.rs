//! Request methods and their canonical tokens.

use vstd::prelude::*;
use vstd::string::*;
use crate::http::text::str_eq;

verus! {

/// The method of a request: one of nine verbs, each written as its
/// upper-case token.
#[derive(Clone, Copy, Debug, PartialEq, Eq, Structural)]
pub enum Method {
    GET,
    POST,
    PUT,
    DELETE,
    HEAD,
    CONNECT,
    OPTIONS,
    TRACE,
    PATCH,
}

/// Why a token is no method: a message that names the token.
pub struct MethodError(pub String);

impl Method {
    /// The canonical token of this method.
    pub open spec fn text(self) -> Seq<char> {
        match self {
            Method::GET => "GET"@,
            Method::POST => "POST"@,
            Method::PUT => "PUT"@,
            Method::DELETE => "DELETE"@,
            Method::HEAD => "HEAD"@,
            Method::CONNECT => "CONNECT"@,
            Method::OPTIONS => "OPTIONS"@,
            Method::TRACE => "TRACE"@,
            Method::PATCH => "PATCH"@,
        }
    }

    /// The method that a token names, if it is exactly one of the nine
    /// canonical tokens.
    pub open spec fn from_text(t: Seq<char>) -> Option<Method> {
        if t == "GET"@ {
            Some(Method::GET)
        } else if t == "POST"@ {
            Some(Method::POST)
        } else if t == "PUT"@ {
            Some(Method::PUT)
        } else if t == "DELETE"@ {
            Some(Method::DELETE)
        } else if t == "HEAD"@ {
            Some(Method::HEAD)
        } else if t == "CONNECT"@ {
            Some(Method::CONNECT)
        } else if t == "OPTIONS"@ {
            Some(Method::OPTIONS)
        } else if t == "TRACE"@ {
            Some(Method::TRACE)
        } else if t == "PATCH"@ {
            Some(Method::PATCH)
        } else {
            None
        }
    }

    /// The message of the error for a token that names no method.
    pub open spec fn error_text(t: Seq<char>) -> Seq<char> {
        "Invalid method: "@ + t
    }

    /// The canonical token of this method.
    pub fn as_str(&self) -> (r: &'static str)
        ensures
            r@ == self.text(),
    {
        match self {
            Method::GET => "GET",
            Method::POST => "POST",
            Method::PUT => "PUT",
            Method::DELETE => "DELETE",
            Method::HEAD => "HEAD",
            Method::CONNECT => "CONNECT",
            Method::OPTIONS => "OPTIONS",
            Method::TRACE => "TRACE",
            Method::PATCH => "PATCH",
        }
    }

    /// The canonical token of this method, as an owned string.
    pub fn to_string(&self) -> (r: String)
        ensures
            r@ == self.text(),
    {
        String::from_str(self.as_str())
    }

    /// Reads a method from its token. The match is exact: no other case, no
    /// surrounding space.
    pub fn from_str(s: &str) -> (r: Result<Method, MethodError>)
        ensures
            match r {
                Ok(m) => Method::from_text(s@) == Some(m),
                Err(e) => Method::from_text(s@) is None && e.0@ == Method::error_text(s@),
            },
    {
        if str_eq(s, "GET") {
            Ok(Method::GET)
        } else if str_eq(s, "POST") {
            Ok(Method::POST)
        } else if str_eq(s, "PUT") {
            Ok(Method::PUT)
        } else if str_eq(s, "DELETE") {
            Ok(Method::DELETE)
        } else if str_eq(s, "HEAD") {
            Ok(Method::HEAD)
        } else if str_eq(s, "CONNECT") {
            Ok(Method::CONNECT)
        } else if str_eq(s, "OPTIONS") {
            Ok(Method::OPTIONS)
        } else if str_eq(s, "TRACE") {
            Ok(Method::TRACE)
        } else if str_eq(s, "PATCH") {
            Ok(Method::PATCH)
        } else {
            Err(MethodError(String::from_str("Invalid method: ").concat(s)))
        }
    }
}

/// Reading a method's own token gives that method back.
pub proof fn lemma_method_round_trip(m: Method)
    ensures
        Method::from_text(m.text()) == Some(m),
{
    reveal_strlit("GET");
    reveal_strlit("POST");
    reveal_strlit("PUT");
    reveal_strlit("DELETE");
    reveal_strlit("HEAD");
    reveal_strlit("CONNECT");
    reveal_strlit("OPTIONS");
    reveal_strlit("TRACE");
    reveal_strlit("PATCH");
    // Tokens differ in their length, and those of one length in their
    // first character.
    assert("GET"@.len() == 3 && "PUT"@.len() == 3);
    assert("POST"@.len() == 4 && "HEAD"@.len() == 4);
    assert("TRACE"@.len() == 5 && "PATCH"@.len() == 5);
    assert("DELETE"@.len() == 6);
    assert("CONNECT"@.len() == 7 && "OPTIONS"@.len() == 7);
    assert("GET"@[0] != "PUT"@[0]);
    assert("POST"@[0] != "HEAD"@[0]);
    assert("TRACE"@[0] != "PATCH"@[0]);
    assert("CONNECT"@[0] != "OPTIONS"@[0]);
}

/// A token is read as a method exactly when it is the token of some method,
/// and then as that method; every other token is refused.
pub proof fn lemma_method_tokens(t: Seq<char>)
    ensures
        Method::from_text(t) is Some <==> exists|m: Method| m.text() == t,
        forall|m: Method| m.text() == t ==> Method::from_text(t) == Some(m),
        Method::from_text(t) is Some ==> Method::from_text(t)->Some_0.text() == t,
{
    assert forall|m: Method| m.text() == t implies Method::from_text(t) == Some(m) by {
        lemma_method_round_trip(m);
    }
    if Method::from_text(t) is Some {
        assert(Method::from_text(t)->Some_0.text() == t);
    }
}

} // verus!
