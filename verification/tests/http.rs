use echokit::http::{
    read_head, route, Head, HttpRequest, Reader, Received, Route, Target, HEADER_CAPACITY,
};
use echokit::response::{not_found_response, ok_response, CHANGED, HTML, JSON};
use echokit::page::SETUP_PAGE;

fn head(method: &str, path: &str, content_length: usize, header_end: usize) -> Head {
    Head { method: method.to_string(), path: path.to_string(), content_length, header_end }
}

fn ready(received: Received) -> HttpRequest {
    match received {
        Received::Ready(request) => request,
        other => panic!("not ready: {:?}", other),
    }
}

fn more(received: Received) -> Reader {
    match received {
        Received::More(reader) => reader,
        other => panic!("nothing more to read: {:?}", other),
    }
}

#[test]
fn a_header_says_method_path_and_length() {
    let text = "POST /api/set/gap HTTP/1.1\r\nHost: x\r\nContent-Length: 12\r\n\r\n{}";
    assert_eq!(read_head(text, text.len()), head("POST", "/api/set/gap", 12, text.len() - 2));
}

#[test]
fn a_request_line_may_lack_its_words() {
    assert_eq!(read_head("GET\r\n\r\n", 7), head("GET", "/", 0, 7));
    assert_eq!(read_head("\r\n\r\n", 4), head("", "/", 0, 4));
    assert_eq!(read_head(" \u{2003}GET\t/x", 9), head("GET", "/x", 0, 9));
}

#[test]
fn the_last_length_before_the_blank_line_counts() {
    let text = "P /\r\nContent-Length: 1\r\nContent-Length:+2 \r\n\r\nContent-Length: 3\r\n";
    assert_eq!(read_head(text, text.len()).content_length, 2);
    assert_eq!(read_head("P /\r\nContent-Length: 1\r\nContent-Length: x\r\n\r\n", 0).content_length, 0);
    assert_eq!(read_head("P /\r\ncontent-length: 5\r\n\r\n", 0).content_length, 0);
    assert_eq!(read_head("P /\r\nContent-Length: -1\r\n\r\n", 0).content_length, 0);
    assert_eq!(
        read_head("P /\r\nContent-Length: 99999999999999999999\r\n\r\n", 0).content_length,
        0
    );
}

#[test]
fn what_follows_the_blank_line_does_not_matter() {
    let header = "GET /é HTTP/1.1\r\nContent-Length: 4\r\n\r\n";
    let alone = read_head(header, header.len());
    let longer = format!("{}{}", header, "Content-Length: 9\r\n\r\n");
    assert_eq!(read_head(&longer, longer.len()), alone);
    assert_eq!(alone.header_end, header.len());
}

#[test]
fn a_request_is_put_together_from_its_pieces() {
    let reader = Reader::new();
    assert_eq!(reader.room(), 8192);
    let reader = more(reader.received(b"POST /api/set/gap HT"));
    let reader = more(reader.received(b"TP/1.1\r\nContent-Length: 7\r\n\r"));
    let reader = more(reader.received(b"\n{\"x"));
    assert_eq!(reader.room(), 1024);
    let request = ready(reader.received(b"\":1}"));
    assert_eq!(request.head.path, "/api/set/gap");
    assert_eq!(request.body, b"{\"x\":1}");
}

#[test]
fn a_body_may_come_with_the_header_and_be_longer() {
    let request = ready(Reader::new().received(b"GET / HTTP/1.1\r\nContent-Length: 1\r\n\r\nabc"));
    assert_eq!(request.body, b"abc");
}

#[test]
fn a_peer_that_stops_is_answered_once_the_header_is_there() {
    assert_eq!(Reader::new().received(b""), Received::Closed);
    assert_eq!(Reader::new().failed(), Received::Closed);
    let header = b"POST / HTTP/1.1\r\nContent-Length: 9\r\n\r\nab";
    let reader = more(Reader::new().received(header));
    assert_eq!(ready(reader.received(b"")).body, b"ab");
    let reader = more(Reader::new().received(header));
    assert_eq!(ready(reader.failed()).body, b"ab");
}

#[test]
fn a_header_without_end_is_cut_at_its_capacity() {
    let long = vec![b'a'; HEADER_CAPACITY];
    let request = ready(Reader::new().received(&long));
    assert_eq!(request.head.method.len(), HEADER_CAPACITY);
    assert_eq!(request.head.header_end, HEADER_CAPACITY);
    assert_eq!(request.body, b"");
}

#[test]
fn bytes_that_are_no_text_are_replaced() {
    let request = ready(Reader::new().received(b"G\xff /\xc3\xa9 x\r\n\r\n"));
    assert_eq!(request.head.method, "G\u{fffd}");
    assert_eq!(request.head.path, "/é");
    // The replacement takes two bytes more than what it replaces.
    assert_eq!(request.head.header_end, 14);
    let request = ready(Reader::new().received(b"G\xff / x\r\nContent-Length: 3\r\n\r\nabcde"));
    assert_eq!(request.body, b"cde");
    let request = ready(Reader::new().received(b"GET / x\r\nContent-Length: 2\r\n\r\n\xff\xfe"));
    assert_eq!(request.body, b"\xff\xfe");
}

#[test]
fn requests_are_told_apart_by_method_and_path() {
    assert_eq!(route("GET", "/"), Route::SetupPage);
    assert_eq!(route("GET", "/setup"), Route::SetupPage);
    assert_eq!(route("GET", "/api/settings"), Route::ReadSettings);
    assert_eq!(route("POST", "/api/set/madctl"), Route::Change(Target::Madctl));
    assert_eq!(route("POST", "/api/set/gap"), Route::Change(Target::Gap));
    assert_eq!(route("POST", "/api/set/rotate"), Route::Change(Target::Rotate));
    assert_eq!(route("POST", "/api/set/settings"), Route::Change(Target::Settings));
    assert_eq!(route("POST", "/api/set/"), Route::Change(Target::Unknown));
    assert_eq!(route("POST", "/api/set"), Route::NotFound);
    assert_eq!(route("GET", "/api/set/gap"), Route::NotFound);
    assert_eq!(route("POST", "/"), Route::NotFound);
    assert_eq!(route("get", "/"), Route::NotFound);
    assert_eq!(route("", "/"), Route::NotFound);
}

#[test]
fn a_response_tells_the_length_of_its_body_in_bytes() {
    assert_eq!(
        ok_response(JSON, CHANGED),
        "HTTP/1.1 200 OK\r\nContent-Type: application/json\r\nContent-Length: 11\r\n\r\n{\"ok\":true}"
    );
    let response = ok_response(HTML, "é");
    assert_eq!(
        response,
        "HTTP/1.1 200 OK\r\nContent-Type: text/html; charset=utf-8\r\nContent-Length: 2\r\n\r\né"
    );
    assert_eq!(not_found_response(), "HTTP/1.1 404 Not Found\r\nContent-Length: 0\r\n\r\n");
}

#[test]
fn a_response_is_read_back_with_the_rules_for_a_request() {
    let response = ok_response(HTML, SETUP_PAGE);
    let head = read_head(&response, response.len());
    assert_eq!(head.content_length, SETUP_PAGE.len());
    assert_eq!(&response[head.header_end..], SETUP_PAGE);
}
