use http_server::http::Request;
use http_server::website_handler::{Lookup, WebsiteHandler};

fn request(buffer: &[u8]) -> Request<'_> {
    match Request::try_from(buffer) {
        Ok(r) => r,
        Err(e) => panic!("the buffer was refused: {}", e.message()),
    }
}

fn site() -> WebsiteHandler {
    WebsiteHandler::new(String::from("/srv/public"))
}

fn text(bytes: Vec<u8>) -> String {
    match String::from_utf8(bytes) {
        Ok(s) => s,
        Err(_) => panic!("the response is no text"),
    }
}

#[test]
fn site_keeps_its_public_path() {
    assert_eq!(site().public_path(), "/srv/public");
}

#[test]
fn location_of_a_file() {
    assert_eq!(site().file_location("index.html"), "/srv/public/index.html");
    assert_eq!(site().file_location("/style.css"), "/srv/public/style.css");
    assert_eq!(site().file_location(""), "/srv/public/");
    assert_eq!(site().file_location("/"), "/srv/public/");
    assert_eq!(site().file_location("../etc/passwd"), "/srv/public/../etc/passwd");
    assert_eq!(site().file_location("\u{e9}/x"), "/srv/public/\u{e9}/x");
}

#[test]
fn file_that_a_request_asks_for() {
    let handler = site();
    assert_eq!(handler.wanted_file(&request(b"GET / HTTP/1.1\r\n")), Some("index.html"));
    assert_eq!(handler.wanted_file(&request(b"GET /test HTTP/1.1\r\n")), Some("test.html"));
    assert_eq!(handler.wanted_file(&request(b"GET /a/b.css?v=2 HTTP/1.1\r\n")), Some("/a/b.css"));
    assert_eq!(handler.wanted_file(&request(b"GET /test/ HTTP/1.1\r\n")), Some("/test/"));
    assert_eq!(handler.wanted_file(&request(b"POST / HTTP/1.1\r\n")), None);
    assert_eq!(handler.wanted_file(&request(b"DELETE /x HTTP/1.1\r\n")), None);
}

#[test]
fn content_that_a_lookup_hands_on() {
    assert_eq!(
        WebsiteHandler::file_content(Lookup::Refused),
        Some(String::from("Directory traversal attack attempted"))
    );
    assert_eq!(
        WebsiteHandler::file_content(Lookup::Read(String::from("<p>x</p>"))),
        Some(String::from("<p>x</p>"))
    );
    assert_eq!(WebsiteHandler::file_content(Lookup::Unreadable), None);
}

#[test]
fn front_page() {
    let handler = site();
    let r = request(b"GET / HTTP/1.1\r\n");
    assert_eq!(
        text(handler.respond(&r, Some(String::from("<h1>home</h1>"))).render()),
        "HTTP/1.1 200 Ok\r\n\r\n<h1>home</h1>"
    );
    assert_eq!(
        text(handler.respond(&r, None).render()),
        "HTTP/1.1 500 Internal Server Error\r\n\r\n<h1>serving page not found</h1>"
    );
}

#[test]
fn test_page() {
    let handler = site();
    let r = request(b"GET /test HTTP/1.1\r\n");
    assert_eq!(
        text(handler.respond(&r, Some(String::from("t"))).render()),
        "HTTP/1.1 200 Ok\r\n\r\nt"
    );
    assert_eq!(text(handler.respond(&r, None).render()), "HTTP/1.1 200 Ok\r\n\r\n");
}

#[test]
fn other_pages() {
    let handler = site();
    let r = request(b"GET /about.html?x=1 HTTP/1.1\r\n");
    assert_eq!(
        text(handler.respond(&r, Some(String::from("about"))).render()),
        "HTTP/1.1 200 Ok\r\n\r\nabout"
    );
    assert_eq!(
        text(handler.respond(&r, None).render()),
        "HTTP/1.1 404 Not Found\r\n\r\n<h1>Not Found</h1><p>/about.html endpoint not supported</p>"
    );
}

#[test]
fn post_is_answered_without_a_file() {
    let handler = site();
    let r = request(b"POST /anything HTTP/1.1\r\n");
    let wire = "HTTP/1.1 400 Bad Request\r\n\r\n<h1>POST response</h1>";
    assert_eq!(text(handler.respond(&r, None).render()), wire);
    assert_eq!(text(handler.respond(&r, Some(String::from("ignored"))).render()), wire);
}

#[test]
fn other_methods_are_not_supported() {
    let handler = site();
    for token in ["PUT", "DELETE", "HEAD", "CONNECT", "OPTIONS", "TRACE", "PATCH"] {
        let line = format!("{} / HTTP/1.1\r\n", token);
        let r = request(line.as_bytes());
        assert_eq!(
            text(handler.respond(&r, None).render()),
            format!(
                "HTTP/1.1 405 Method Not Supported\r\n\r\n<h1>Error</h1><p>METHOD {} NOT SUPPORTED",
                token
            )
        );
    }
}
