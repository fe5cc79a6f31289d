use hello_http::response::{response_bytes, RESPONSE};

#[test]
fn the_response_is_the_literal() {
    assert_eq!(RESPONSE, "HTTP/1.1 200 OK\r\nContent-Length: 12\r\n\r\nHello, Rust!");
    assert_eq!(
        response_bytes(),
        b"HTTP/1.1 200 OK\r\nContent-Length: 12\r\n\r\nHello, Rust!".to_vec()
    );
}

#[test]
fn the_response_has_51_bytes() {
    assert_eq!(response_bytes().len(), 51);
    assert_eq!(response_bytes()[0], b'H');
    assert_eq!(response_bytes()[50], b'!');
}

#[test]
fn each_copy_of_the_response_is_the_same() {
    assert_eq!(response_bytes(), response_bytes());
    assert_eq!(response_bytes(), RESPONSE.as_bytes());
}
