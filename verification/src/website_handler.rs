//! A handler that serves the files of one directory. What it decides is
//! here; reading the files is left to its caller.

use vstd::prelude::*;
use vstd::string::*;
use crate::http::method::Method;
use crate::http::request::{Request, RequestView};
use crate::http::response::{Response, ResponseView};
use crate::http::status_code::StatusCode;
use crate::http::text::str_eq;

verus! {

/// What came of looking a file up below the public directory.
pub enum Lookup {
    /// The location does not resolve, or resolves outside the public
    /// directory.
    Refused,
    /// The file was read.
    Read(String),
    /// The file could not be read.
    Unreadable,
}

/// The file that a request asks for: `index.html` for the root, `test.html`
/// for `/test`, else the path itself. Only a `GET` asks for a file.
pub open spec fn wanted_file(request: RequestView) -> Option<Seq<char>> {
    if request.method != Method::GET {
        None
    } else if request.path == "/"@ {
        Some("index.html"@)
    } else if request.path == "/test"@ {
        Some("test.html"@)
    } else {
        Some(request.path)
    }
}

/// What a lookup hands to the response as the file's content: a refusal is
/// told in place of the content.
pub open spec fn lookup_content(lookup: Lookup) -> Option<Seq<char>> {
    match lookup {
        Lookup::Refused => Some("Directory traversal attack attempted"@),
        Lookup::Read(content) => Some(content@),
        Lookup::Unreadable => None,
    }
}

/// The response to a request, given the content of the file it asks for
/// (`None` where there is no content; of no account unless the method is
/// `GET`).
pub open spec fn site_response(request: RequestView, content: Option<Seq<char>>) -> ResponseView {
    match request.method {
        Method::GET => if request.path == "/"@ {
            match content {
                Some(_) => ResponseView { status_code: StatusCode::OK, body: content },
                None => ResponseView {
                    status_code: StatusCode::InternalServerError,
                    body: Some("<h1>serving page not found</h1>"@),
                },
            }
        } else if request.path == "/test"@ {
            ResponseView { status_code: StatusCode::OK, body: content }
        } else {
            match content {
                Some(_) => ResponseView { status_code: StatusCode::OK, body: content },
                None => ResponseView {
                    status_code: StatusCode::NotFound,
                    body: Some(
                        "<h1>Not Found</h1><p>"@ + request.path + " endpoint not supported</p>"@,
                    ),
                },
            }
        },
        Method::POST => ResponseView {
            status_code: StatusCode::BadRequest,
            body: Some("<h1>POST response</h1>"@),
        },
        other => ResponseView {
            status_code: StatusCode::MethodNotSupported,
            body: Some("<h1>Error</h1><p>METHOD "@ + other.text() + " NOT SUPPORTED"@),
        },
    }
}

/// Where a file lies: the public directory's path, then the file's path,
/// with a `/` between them unless the file's path begins with one.
pub open spec fn location(public_path: Seq<char>, file_path: Seq<char>) -> Seq<char> {
    if file_path.len() > 0 && file_path[0] == '/' {
        public_path + file_path
    } else {
        public_path + "/"@ + file_path
    }
}

/// Serves the files below one directory.
pub struct WebsiteHandler {
    public_path: String,
}

impl WebsiteHandler {
    /// The path of the public directory.
    pub closed spec fn root(&self) -> Seq<char> {
        self.public_path@
    }

    pub fn new(public_path: String) -> (r: WebsiteHandler)
        ensures
            r.root() == public_path@,
    {
        WebsiteHandler { public_path }
    }

    /// The path of the public directory.
    pub fn public_path(&self) -> (r: &str)
        ensures
            r@ == self.root(),
    {
        self.public_path.as_str()
    }

    /// Where the file with the given path lies below the public directory.
    pub fn file_location(&self, file_path: &str) -> (r: String)
        ensures
            r@ == location(self.root(), file_path@),
    {
        let mut path = String::from_str(self.public_path.as_str());
        if file_path.is_empty() || file_path.get_char(0) != '/' {
            path.append("/");
        }
        path.append(file_path);
        path
    }

    /// The file that the request asks for, if it asks for one.
    pub fn wanted_file<'a>(&self, request: &'a Request) -> (r: Option<&'a str>)
        ensures
            match r {
                Some(file) => wanted_file(request@) == Some(file@),
                None => wanted_file(request@) is None,
            },
    {
        match request.method() {
            Method::GET => {
                let path = request.path();
                if str_eq(path, "/") {
                    Some("index.html")
                } else if str_eq(path, "/test") {
                    Some("test.html")
                } else {
                    Some(path)
                }
            },
            _ => None,
        }
    }

    /// What a lookup hands on as the file's content.
    pub fn file_content(lookup: Lookup) -> (r: Option<String>)
        ensures
            match r {
                Some(content) => lookup_content(lookup) == Some(content@),
                None => lookup_content(lookup) is None,
            },
    {
        match lookup {
            Lookup::Refused => Some(String::from_str("Directory traversal attack attempted")),
            Lookup::Read(content) => Some(content),
            Lookup::Unreadable => None,
        }
    }

    /// The response to a request, once the file it asks for was looked up.
    pub fn respond(&self, request: &Request, content: Option<String>) -> (r: Response)
        ensures
            r@ == site_response(
                request@,
                match content {
                    Some(text) => Some(text@),
                    None => None,
                },
            ),
    {
        match request.method() {
            Method::GET => {
                let path = request.path();
                if str_eq(path, "/") {
                    match content {
                        Some(body) => Response::new(StatusCode::OK, Some(body)),
                        None => Response::new(
                            StatusCode::InternalServerError,
                            Some(String::from_str("<h1>serving page not found</h1>")),
                        ),
                    }
                } else if str_eq(path, "/test") {
                    Response::new(StatusCode::OK, content)
                } else {
                    match content {
                        Some(data) => Response::new(StatusCode::OK, Some(data)),
                        None => {
                            let mut body = String::from_str("<h1>Not Found</h1><p>");
                            body.append(path);
                            body.append(" endpoint not supported</p>");
                            Response::new(StatusCode::NotFound, Some(body))
                        },
                    }
                }
            },
            Method::POST => Response::new(
                StatusCode::BadRequest,
                Some(String::from_str("<h1>POST response</h1>")),
            ),
            method => {
                let mut body = String::from_str("<h1>Error</h1><p>METHOD ");
                body.append(method.as_str());
                body.append(" NOT SUPPORTED");
                Response::new(StatusCode::MethodNotSupported, Some(body))
            },
        }
    }
}

} // verus!
