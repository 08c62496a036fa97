use http_server::http::{Response, StatusCode};

#[test]
fn response_with_body() {
    let response = Response::new(StatusCode::OK, Some("hi".to_string()));
    let mut stream = Vec::new();
    response.send(&mut stream);
    assert_eq!(stream, b"HTTP/1.1 200 OK\r\n\r\nhi");
}

#[test]
fn response_without_body() {
    let response = Response::new(StatusCode::OK, None);
    let mut stream = Vec::new();
    response.send(&mut stream);
    assert_eq!(stream, b"HTTP/1.1 200 OK\r\n\r\n");
}

#[test]
fn response_with_empty_body() {
    let response = Response::new(StatusCode::OK, Some(String::new()));
    assert_eq!(response.to_string(), "HTTP/1.1 200 OK\r\n\r\n");
}

#[test]
fn response_bad_request_and_not_found() {
    let response = Response::new(StatusCode::BadRequest, None);
    assert_eq!(response.to_string(), "HTTP/1.1 400 Bad Request\r\n\r\n");
    let response = Response::new(StatusCode::NotFound, Some("<h1>404</h1>".to_string()));
    assert_eq!(response.to_string(), "HTTP/1.1 404 Not Found\r\n\r\n<h1>404</h1>");
}

#[test]
fn response_send_appends() {
    let response = Response::new(StatusCode::NotFound, None);
    let mut stream = b"earlier".to_vec();
    response.send(&mut stream);
    assert_eq!(stream, b"earlierHTTP/1.1 404 Not Found\r\n\r\n");
}

#[test]
fn response_body_is_sent_as_utf8() {
    let response = Response::new(StatusCode::OK, Some("caf\u{e9}".to_string()));
    let mut stream = Vec::new();
    response.send(&mut stream);
    assert_eq!(stream, b"HTTP/1.1 200 OK\r\n\r\ncaf\xc3\xa9");
}

#[test]
fn response_send_and_text_agree() {
    let response = Response::new(StatusCode::BadRequest, Some("no".to_string()));
    let mut stream = Vec::new();
    response.send(&mut stream);
    assert_eq!(stream, response.to_string().into_bytes());
}

#[test]
fn status_code_values() {
    assert_eq!(StatusCode::OK.code(), 200);
    assert_eq!(StatusCode::BadRequest.code(), 400);
    assert_eq!(StatusCode::NotFound.code(), 404);
}

#[test]
fn status_code_reason_phrases() {
    assert_eq!(StatusCode::OK.reason_phrase(), "OK");
    assert_eq!(StatusCode::BadRequest.reason_phrase(), "Bad Request");
    assert_eq!(StatusCode::NotFound.reason_phrase(), "Not Found");
}

#[test]
fn status_code_text() {
    assert_eq!(StatusCode::OK.to_string(), "200");
    assert_eq!(StatusCode::BadRequest.to_string(), "400");
    assert_eq!(StatusCode::NotFound.to_string(), "404");
}
