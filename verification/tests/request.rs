use worker_pool::request::{route, starts_with, Route, GET_HOME, GET_SLEEP};

fn padded(line: &[u8]) -> [u8; 512] {
    let mut buffer = [0u8; 512];
    buffer[..line.len()].copy_from_slice(line);
    buffer
}

#[test]
fn the_request_lines_are_what_a_browser_sends() {
    assert_eq!(&GET_HOME, b"GET / HTTP/1.1\r\n");
    assert_eq!(&GET_SLEEP, b"GET /sleep HTTP/1.1\r\n");
}

#[test]
fn the_front_page_is_served() {
    let buffer = padded(b"GET / HTTP/1.1\r\nHost: localhost\r\n\r\n");
    let answer = route(&buffer);
    assert_eq!(answer, Route::Home);
    assert_eq!(answer.status_line(), "HTTP/1.1 200 OK\r\n\r\n");
    assert_eq!(answer.page(), "hello.html");
    assert_eq!(answer.delay_secs(), 0);
}

#[test]
fn the_slow_page_is_the_front_page_after_five_seconds() {
    let buffer = padded(b"GET /sleep HTTP/1.1\r\nHost: localhost\r\n\r\n");
    let answer = route(&buffer);
    assert_eq!(answer, Route::Sleep);
    assert_eq!(answer.status_line(), "HTTP/1.1 200 OK\r\n\r\n");
    assert_eq!(answer.page(), "hello.html");
    assert_eq!(answer.delay_secs(), 5);
}

#[test]
fn anything_else_is_not_found() {
    for line in [
        &b"GET /other HTTP/1.1\r\n"[..],
        b"POST / HTTP/1.1\r\n",
        b"GET / HTTP/1.0\r\n",
        b"get / http/1.1\r\n",
        b" GET / HTTP/1.1\r\n",
        b"GET / HTTP/1.1\r",
        b"GET / HTTP/1.1",
        b"",
    ] {
        let answer = route(line);
        assert_eq!(answer, Route::NotFound);
        assert_eq!(answer.status_line(), "HTTP/1.1 404 NOT FOUND\r\n\r\n");
        assert_eq!(answer.page(), "404.html");
        assert_eq!(answer.delay_secs(), 0);
    }
    assert_eq!(route(&[0u8; 512]), Route::NotFound);
}

#[test]
fn the_request_line_alone_is_enough() {
    assert_eq!(route(b"GET / HTTP/1.1\r\n"), Route::Home);
    assert_eq!(route(b"GET /sleep HTTP/1.1\r\n"), Route::Sleep);
}

#[test]
fn a_prefix_is_found_at_the_start_only() {
    assert!(starts_with(b"abcdef", b"abc"));
    assert!(starts_with(b"abc", b"abc"));
    assert!(starts_with(b"abc", b""));
    assert!(starts_with(b"", b""));
    assert!(!starts_with(b"ab", b"abc"));
    assert!(!starts_with(b"xabc", b"abc"));
    assert!(!starts_with(b"abd", b"abc"));
    assert!(!starts_with(b"", b"a"));
}
