use rs_server::http::http_header::HttpHeader;
use rs_server::http::response::{HttpStatusCode, Response};

#[test]
fn not_found_starts_with_its_status_line() {
    let text = Response::not_found().as_string();
    assert!(text.starts_with("HTTP/1.1 404"));
    assert_eq!(text, "HTTP/1.1 404 NOT FOUND\r\n\r\n");
}

#[test]
fn ok_carries_its_body() {
    let response = Response::ok("Hi Ali");
    assert_eq!(response.http_version, "1.1");
    assert_eq!(response.status_code, HttpStatusCode::Okay);
    assert!(response.headers.is_empty());
    assert_eq!(response.body, "Hi Ali");
    assert_eq!(response.as_string(), "HTTP/1.1 200 OK\r\n\r\nHi Ali");
}

#[test]
fn status_codes_and_phrases() {
    assert_eq!(HttpStatusCode::Okay.get_code(), 200);
    assert_eq!(HttpStatusCode::NotFound.get_code(), 404);
    assert_eq!(HttpStatusCode::ServerError.get_code(), 500);
    assert_eq!(HttpStatusCode::Okay.get_phrase(), "OK");
    assert_eq!(HttpStatusCode::NotFound.get_phrase(), "NOT FOUND");
    assert_eq!(HttpStatusCode::ServerError.get_phrase(), "INTERNAL SERVER ERROR");
}

#[test]
fn header_line_ends_the_line() {
    let header = HttpHeader { key: "Content-Type".to_owned(), value: "text/html".to_owned() };
    assert_eq!(header.parse(), "Content-Type: text/html\r\n");
    let empty = HttpHeader { key: String::new(), value: String::new() };
    assert_eq!(empty.parse(), ": \r\n");
}

#[test]
fn content_gets_its_length_in_bytes_and_its_type() {
    let response = Response::from_content("<p>héllo</p>".to_owned(), HttpStatusCode::Okay);
    assert_eq!(response.http_version, "1.1");
    assert_eq!(response.status_code, HttpStatusCode::Okay);
    assert_eq!(response.headers.len(), 2);
    assert_eq!(response.headers[0].key, "Content-Length");
    assert_eq!(response.headers[0].value, "13");
    assert_eq!(response.headers[1].key, "Content-Type");
    assert_eq!(response.headers[1].value, "text/html");
    assert_eq!(response.body, "<p>héllo</p>");
    assert_eq!(
        response.as_string(),
        "HTTP/1.1 200 OK\r\nContent-Length: 13\r\nContent-Type: text/html\r\n\r\n<p>héllo</p>"
    );
}

#[test]
fn empty_content_has_length_zero() {
    let response = Response::from_content(String::new(), HttpStatusCode::NotFound);
    assert_eq!(response.headers[0].value, "0");
    assert_eq!(
        response.as_string(),
        "HTTP/1.1 404 NOT FOUND\r\nContent-Length: 0\r\nContent-Type: text/html\r\n\r\n"
    );
}

#[test]
fn server_error_on_the_wire() {
    let response = Response {
        http_version: "1.0".to_owned(),
        status_code: HttpStatusCode::ServerError,
        headers: vec![HttpHeader { key: "X".to_owned(), value: "y".to_owned() }],
        body: "oops".to_owned(),
    };
    assert_eq!(response.as_string(), "HTTP/1.0 500 INTERNAL SERVER ERROR\r\nX: y\r\n\r\noops");
}
