use task_pool::route::{decimal_digits, push_all, response, route, starts_with, Route};

#[test]
fn root_request_gets_the_greeting() {
    let r = route(b"GET / HTTP/1.1\r\nHost: localhost\r\n\r\n");
    assert_eq!(r, Route::Hello);
    assert_eq!(r.status_line(), "HTTP/1.1 200 OK");
    assert_eq!(r.file_name(), "hello.html");
    assert_eq!(r.pause_seconds(), 0);
    assert_eq!(route(b"GET / HTTP/1.1\r\n"), Route::Hello);
}

#[test]
fn sleep_request_gets_the_greeting_late() {
    let r = route(b"GET /sleep HTTP/1.1\r\n\r\n");
    assert_eq!(r, Route::SlowHello);
    assert_eq!(r.status_line(), "HTTP/1.1 200 OK");
    assert_eq!(r.file_name(), "hello.html");
    assert_eq!(r.pause_seconds(), 5);
}

#[test]
fn other_requests_are_not_found() {
    for request in [
        &b""[..],
        &b"GET / HTTP/1.1\r"[..],
        &b"GET /other HTTP/1.1\r\n"[..],
        &b"POST / HTTP/1.1\r\n"[..],
        &b"GET /sleep HTTP/1.0\r\n"[..],
        &b" GET / HTTP/1.1\r\n"[..],
    ] {
        let r = route(request);
        assert_eq!(r, Route::NotFound);
        assert_eq!(r.status_line(), "HTTP/1.1 404 NOT FOUND");
        assert_eq!(r.file_name(), "404.html");
        assert_eq!(r.pause_seconds(), 0);
    }
}

#[test]
fn request_in_a_zeroed_buffer_is_routed() {
    let mut buffer = [0u8; 1024];
    let line = b"GET /sleep HTTP/1.1\r\n";
    buffer[..line.len()].copy_from_slice(line);
    assert_eq!(route(&buffer), Route::SlowHello);
    assert_eq!(route(&[0u8; 1024]), Route::NotFound);
}

#[test]
fn starts_with_compares_the_leading_bytes() {
    assert!(starts_with(b"abc", b""));
    assert!(starts_with(b"abc", b"ab"));
    assert!(starts_with(b"abc", b"abc"));
    assert!(!starts_with(b"abc", b"abcd"));
    assert!(!starts_with(b"abc", b"b"));
    assert!(!starts_with(b"", b"a"));
    assert!(starts_with(b"", b""));
}

#[test]
fn decimal_digits_are_most_significant_first() {
    assert_eq!(decimal_digits(0), b"0".to_vec());
    assert_eq!(decimal_digits(7), b"7".to_vec());
    assert_eq!(decimal_digits(10), b"10".to_vec());
    assert_eq!(decimal_digits(99), b"99".to_vec());
    assert_eq!(decimal_digits(1024), b"1024".to_vec());
    assert_eq!(decimal_digits(907060), b"907060".to_vec());
    assert_eq!(decimal_digits(usize::MAX), usize::MAX.to_string().into_bytes());
}

#[test]
fn push_all_appends_in_order() {
    let mut out: Vec<u8> = b"ab".to_vec();
    push_all(&mut out, b"");
    assert_eq!(out, b"ab".to_vec());
    push_all(&mut out, b"cde");
    assert_eq!(out, b"abcde".to_vec());
}

#[test]
fn response_carries_status_length_and_body() {
    let out = response(b"HTTP/1.1 200 OK", b"<h1>Hello</h1>");
    assert_eq!(out, b"HTTP/1.1 200 OK\r\nContent-Length: 14\r\n\r\n<h1>Hello</h1>".to_vec());
    let none = response(b"HTTP/1.1 404 NOT FOUND", b"");
    assert_eq!(none, b"HTTP/1.1 404 NOT FOUND\r\nContent-Length: 0\r\n\r\n".to_vec());
}

#[test]
fn response_counts_the_body_in_bytes() {
    let body = "gr\u{fc}\u{df}e";
    assert_eq!(body.len(), 7);
    let out = response(Route::Hello.status_line().as_bytes(), body.as_bytes());
    let expected = format!("{}\r\nContent-Length: {}\r\n\r\n{}", "HTTP/1.1 200 OK", 7, body);
    assert_eq!(out, expected.into_bytes());
}
