use sleepwalk::ramstate::{
    answer, busy_secs, compact_json, handle, parse_request_line, request_line, response,
    stall_secs, state_json, State, LOG_ENTRIES,
};

#[test]
fn parses_request_line() {
    assert_eq!(
        parse_request_line("GET /state HTTP/1.1"),
        Some(("GET".to_owned(), "/state".to_owned()))
    );
    assert_eq!(parse_request_line(""), None);
    assert_eq!(parse_request_line("GET"), None);
}

#[test]
fn inc_advances_counter_and_state_reflects_it() {
    let mut s = State::new(42);
    let (code, inc_body) = handle(&mut s, "POST", "/inc");
    assert_eq!(code, 200);
    assert!(inc_body.contains("\"counter\":1"), "{inc_body}");
    assert!(inc_body.contains("\"boot_id\":42"), "{inc_body}");
    assert!(!inc_body.contains("recent"), "{inc_body}");
    let (code, body) = handle(&mut s, "GET", "/state");
    assert_eq!(code, 200);
    assert!(body.contains("\"counter\":1"), "{body}");
    assert!(body.contains("\"recent\":[\"inc -> 1\"]"), "{body}");
}

#[test]
fn busy_bumps_counter_like_inc() {
    let mut s = State::new(7);
    let (code, body) = handle(&mut s, "POST", "/busy?secs=3");
    assert_eq!(code, 200);
    assert!(body.contains("\"counter\":1"), "{body}");
    assert!(body.contains("\"boot_id\":7"), "{body}");
    assert_eq!(s.log, vec!["busy -> 1".to_owned()]);
}

#[test]
fn busy_secs_parses_and_clamps() {
    assert_eq!(busy_secs("/busy?secs=5"), Some(5));
    assert_eq!(busy_secs("/busy?secs=999"), Some(30));
    assert_eq!(busy_secs("/busy?secs=0"), Some(1));
    assert_eq!(busy_secs("/busy?x=1&secs=4"), Some(4));
    assert_eq!(busy_secs("/busy"), None);
    assert_eq!(busy_secs("/busy?secs=nope"), None);
    assert_eq!(busy_secs("/busy?secs=nope&secs=6"), Some(6));
}

#[test]
fn unknown_route_is_404() {
    let mut s = State::new(1);
    assert_eq!(handle(&mut s, "GET", "/nope").0, 404);
    assert_eq!(handle(&mut s, "GET", "/inc").0, 404);
    assert_eq!((s.counter, s.requests), (0, 2));
}

#[test]
fn query_string_is_ignored_for_routing() {
    let mut s = State::new(1);
    assert_eq!(handle(&mut s, "GET", "/state?x=1").0, 200);
}

#[test]
fn log_stays_bounded() {
    let mut s = State::new(1);
    for _ in 0..30 {
        handle(&mut s, "POST", "/inc");
    }
    assert_eq!(s.log.len(), LOG_ENTRIES);
    assert_eq!(s.log[0], "inc -> 11");
    assert_eq!(s.log[19], "inc -> 30");
}

#[test]
fn the_whole_state_is_listed() {
    let mut s = State::new(3);
    handle(&mut s, "POST", "/inc");
    handle(&mut s, "POST", "/busy");
    s.log.push("a \"quoted\" one".to_owned());
    assert_eq!(compact_json(&s), "{\"boot_id\":3,\"counter\":2}");
    assert_eq!(
        state_json(&s),
        "{\"boot_id\":3,\"counter\":2,\"requests\":2,\
         \"recent\":[\"inc -> 1\",\"busy -> 2\",\"a 'quoted' one\"]}"
    );
}

#[test]
fn the_request_line_is_the_first_line() {
    assert_eq!(request_line(b"GET / HTTP/1.1\r\nHost: a\r\n\r\n"), "GET / HTTP/1.1");
    assert_eq!(request_line(b"GET /\nHost: a\n"), "GET /");
    assert_eq!(request_line(b"GET /\r"), "GET /\r");
    assert_eq!(request_line(b"GET /\xff x"), "GET /\u{fffd} x");
    assert_eq!(request_line(b"\r\nGET /"), "");
    assert_eq!(request_line(b""), "");
}

#[test]
fn only_a_busy_post_stalls() {
    assert_eq!(stall_secs("POST /busy?secs=3 HTTP/1.1"), Some(3));
    assert_eq!(stall_secs("GET /busy?secs=3 HTTP/1.1"), None);
    assert_eq!(stall_secs("POST /inc?secs=3 HTTP/1.1"), None);
    assert_eq!(stall_secs("POST"), None);
}

#[test]
fn a_request_line_is_answered_over_http() {
    let mut s = State::new(9);
    let (status, body) = answer(&mut s, "POST /inc HTTP/1.1");
    assert_eq!(
        response(status, &body),
        "HTTP/1.1 200 OK\r\nContent-Type: application/json\r\nContent-Length: 25\r\n\
         Connection: close\r\n\r\n{\"boot_id\":9,\"counter\":1}"
    );
    let (status, body) = answer(&mut s, "");
    assert_eq!((status, body.as_str()), (400, "{\"error\":\"bad request\"}"));
    assert_eq!(s.requests, 1);
    assert!(response(404, "é").contains("404 Not Found\r\n"));
    assert!(response(404, "é").contains("Content-Length: 2\r\n"));
    assert!(response(503, "").contains("503 Error\r\n"));
}
