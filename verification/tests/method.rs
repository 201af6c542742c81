use http_server::http::{Method, MethodError};

fn token_of(result: Result<Method, MethodError>) -> Option<String> {
    match result {
        Ok(m) => Some(m.to_string()),
        Err(_) => None,
    }
}

#[test]
fn every_method_reads_its_own_token() {
    let all = [
        (Method::GET, "GET"),
        (Method::POST, "POST"),
        (Method::PUT, "PUT"),
        (Method::DELETE, "DELETE"),
        (Method::HEAD, "HEAD"),
        (Method::CONNECT, "CONNECT"),
        (Method::OPTIONS, "OPTIONS"),
        (Method::TRACE, "TRACE"),
        (Method::PATCH, "PATCH"),
    ];
    for (method, token) in all {
        assert_eq!(method.as_str(), token);
        assert_eq!(method.to_string(), token);
        match Method::from_str(method.as_str()) {
            Ok(read) => assert_eq!(read, method),
            Err(_) => panic!("{} was refused", token),
        }
    }
}

#[test]
fn unknown_token_is_refused_with_a_message_that_names_it() {
    match Method::from_str("BREW") {
        Ok(_) => panic!("BREW was read as a method"),
        Err(e) => assert_eq!(e.0, "Invalid method: BREW"),
    }
}

#[test]
fn method_match_is_case_sensitive() {
    assert_eq!(token_of(Method::from_str("get")), None);
    assert_eq!(token_of(Method::from_str("Get")), None);
    match Method::from_str("get") {
        Ok(_) => panic!("get was read as a method"),
        Err(e) => assert_eq!(e.0, "Invalid method: get"),
    }
}

#[test]
fn method_match_does_not_trim() {
    assert_eq!(token_of(Method::from_str(" GET")), None);
    assert_eq!(token_of(Method::from_str("GET ")), None);
    assert_eq!(token_of(Method::from_str("GET\r")), None);
}

#[test]
fn empty_token_is_no_method() {
    match Method::from_str("") {
        Ok(_) => panic!("the empty token was read as a method"),
        Err(e) => assert_eq!(e.0, "Invalid method: "),
    }
}

#[test]
fn prefix_or_extension_of_a_token_is_no_method() {
    assert_eq!(token_of(Method::from_str("GE")), None);
    assert_eq!(token_of(Method::from_str("GETS")), None);
    assert_eq!(token_of(Method::from_str("PATCHED")), None);
    assert_eq!(token_of(Method::from_str("PUT")), Some(String::from("PUT")));
}
