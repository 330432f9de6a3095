use httpserver::dict::Dict;
use httpserver::httprequest::{parse_header_line, parse_request_line, HttpRequest, Method, Resource, Version};
use httpserver::httpresponse::HttpResponse;
use httpserver::json::{orders_to_json, OrderStatus};
use httpserver::numfmt::u64_dec;
use httpserver::router::Router;
use httpserver::server::Server;

#[test]
fn test_method_into() {
    let m: Method = "GET".into();
    assert_eq!(m, Method::Get);
}

#[test]
fn test_version_into() {
    let v: Version = "HTTP/1.1".into();
    assert_eq!(v, Version::V1_1);
}

#[test]
fn test_read_http() {
    let s: String = String::from("GET /greeting HTTP/1.1\r\nHost: localhost:3000\r\nUser-Agent: curl/7.71.1\r\nAccept: */*\r\n\r\n");
    let req: HttpRequest = HttpRequest::from(s);

    assert_eq!(Method::Get, req.method);
    assert_eq!(Version::V1_1, req.version);
    assert_eq!(Resource::Path("/greeting".to_string()), req.resource);
    assert_eq!(req.headers.len(), 3);
    assert_eq!(req.headers.get("Host"), Some(&String::from(" localhost")));
    assert_eq!(req.headers.get("User-Agent"), Some(&String::from(" curl/7.71.1")));
    assert_eq!(req.headers.get("Accept"), Some(&String::from(" */*")));
}

#[test]
fn test_method_post_and_unknown() {
    let m: Method = "POST".into();
    assert_eq!(m, Method::Post);
    let m: Method = "PUT".into();
    assert_eq!(m, Method::Uninitialized);
}

#[test]
fn test_version_v2_and_unknown() {
    let v: Version = "HTTP/2.0".into();
    assert_eq!(v, Version::V2_0);
    let v: Version = "HTTP/3.0".into();
    assert_eq!(v, Version::Uninitialized);
}

#[test]
fn test_header_line_colon_truncation() {
    let (k, v) = parse_header_line("Host: localhost:3000");
    assert_eq!(k, "Host");
    assert_eq!(v, " localhost");
}

#[test]
fn test_header_line_no_second_segment() {
    let (k, v) = parse_header_line("Accept:");
    assert_eq!(k, "Accept");
    assert_eq!(v, "");
}

#[test]
fn test_request_line_parses_tokens() {
    let parsed = parse_request_line("GET /index.html HTTP/1.1");
    match parsed {
        Some((m, res, v)) => {
            assert_eq!(m, Method::Get);
            assert_eq!(res, Resource::Path("/index.html".to_string()));
            assert_eq!(v, Version::V1_1);
        }
        None => panic!("three tokens must parse"),
    }
    assert!(parse_request_line("HTTP").is_none());
    assert!(parse_request_line("GET HTTP/1.1").is_none());
}

#[test]
fn test_parse_defaults_on_empty_input() {
    let req = HttpRequest::from(String::new());
    assert_eq!(req.method, Method::Uninitialized);
    assert_eq!(req.version, Version::V1_1);
    assert_eq!(req.resource, Resource::Path(String::new()));
    assert_eq!(req.headers.len(), 0);
    assert_eq!(req.msg_body, "");
}

#[test]
fn test_malformed_request_line_is_ignored() {
    let req = HttpRequest::from(String::from("HTTP\r\n"));
    assert_eq!(req.method, Method::Uninitialized);
    assert_eq!(req.version, Version::V1_1);
    assert_eq!(req.resource, Resource::Path(String::new()));
}

#[test]
fn test_last_body_line_wins() {
    let req = HttpRequest::from(String::from("GET / HTTP/1.1\r\nhello\r\nworld\r\n"));
    assert_eq!(req.msg_body, "world");
}

#[test]
fn test_response_round_trip() {
    let resp = HttpResponse::new("200", None, Some(String::from("hi")));
    let wire = resp.serialize();
    assert_eq!(
        wire,
        "HTTP/1.1 200 OK\r\nContent-Length: 2\r\nContent-Type: text/html\r\n\r\nhi"
    );
}

#[test]
fn test_response_no_body() {
    let resp = HttpResponse::new("404", None, None);
    let wire = resp.serialize();
    assert_eq!(
        wire,
        "HTTP/1.1 404 Not Found\r\nContent-Length: 0\r\nContent-Type: text/html\r\n\r\n"
    );
}

#[test]
fn test_unknown_status_code_falls_back() {
    let resp = HttpResponse::new("999", None, None);
    assert_eq!(resp.status_text, "Not Found");
    let wire = resp.serialize();
    assert!(wire.starts_with("HTTP/1.1 999 Not Found\r\n"));
}

#[test]
fn test_supplied_content_type_displaces_default() {
    let mut headers = Dict::new();
    headers.insert(String::from("Content-Type"), String::from("application/json"));
    let resp = HttpResponse::new("200", Some(headers), Some(String::from("[]")));
    let wire = resp.serialize();
    assert_eq!(
        wire,
        "HTTP/1.1 200 OK\r\nContent-Length: 2\r\nContent-Type: application/json\r\n\r\n[]"
    );
}

fn store_with(pairs: &[(&str, &str)]) -> Dict {
    let mut d = Dict::new();
    for (k, v) in pairs {
        d.insert(String::from(*k), String::from(*v));
    }
    d
}

#[test]
fn test_route_root_serves_index() {
    let store = store_with(&[("index.html", "<h1>home</h1>")]);
    let req = HttpRequest::from(String::from("GET / HTTP/1.1\r\n"));
    let resp = Router::route(req, &store, &Vec::new());
    assert_eq!(resp.status_code, "200");
    assert_eq!(resp.body, Some(String::from("<h1>home</h1>")));
}

#[test]
fn test_route_health_serves_health_page() {
    let store = store_with(&[("health.html", "ok")]);
    let req = HttpRequest::from(String::from("GET /health HTTP/1.1\r\n"));
    let resp = Router::route(req, &store, &Vec::new());
    assert_eq!(resp.status_code, "200");
    assert_eq!(resp.body, Some(String::from("ok")));
}

#[test]
fn test_route_css_content_type() {
    let store = store_with(&[("style.css", "body{}")]);
    let req = HttpRequest::from(String::from("GET /style.css HTTP/1.1\r\n"));
    let resp = Router::route(req, &store, &Vec::new());
    assert_eq!(resp.status_code, "200");
    assert_eq!(resp.headers.get("Content-Type"), Some(&String::from("text/css")));
    assert_eq!(resp.body, Some(String::from("body{}")));
}

#[test]
fn test_route_missing_css_yields_404_page() {
    let store = store_with(&[("404.html", "<h1>404</h1>")]);
    let req = HttpRequest::from(String::from("GET /nonexistent.css HTTP/1.1\r\n"));
    let resp = Router::route(req, &store, &Vec::new());
    assert_eq!(resp.status_code, "404");
    assert_eq!(resp.body, Some(String::from("<h1>404</h1>")));
}

#[test]
fn test_route_missing_file_no_404_page() {
    let store = store_with(&[]);
    let req = HttpRequest::from(String::from("GET /nowhere HTTP/1.1\r\n"));
    let resp = Router::route(req, &store, &Vec::new());
    assert_eq!(resp.status_code, "404");
    assert_eq!(resp.body, None);
}

#[test]
fn test_route_api_orders_serves_json() {
    let store = store_with(&[]);
    let orders = vec![
        OrderStatus {
            order_id: 1,
            order_date: String::from("2021-01-01"),
            order_status: String::from("Delivered"),
        },
        OrderStatus {
            order_id: 2,
            order_date: String::from("2021-01-02"),
            order_status: String::from("Pending"),
        },
    ];
    let req = HttpRequest::from(String::from("GET /api/shipping/orders HTTP/1.1\r\n"));
    let resp = Router::route(req, &store, &orders);
    assert_eq!(resp.status_code, "200");
    assert_eq!(resp.headers.get("Content-Type"), Some(&String::from("application/json")));
    assert_eq!(
        resp.body,
        Some(String::from(
            "[{\"order_id\":1,\"order_date\":\"2021-01-01\",\"order_status\":\"Delivered\"},{\"order_id\":2,\"order_date\":\"2021-01-02\",\"order_status\":\"Pending\"}]"
        ))
    );
}

#[test]
fn test_route_api_other_path_yields_404() {
    let store = store_with(&[("404.html", "gone")]);
    let req = HttpRequest::from(String::from("GET /api/shipping/status HTTP/1.1\r\n"));
    let resp = Router::route(req, &store, &Vec::new());
    assert_eq!(resp.status_code, "404");
    assert_eq!(resp.body, Some(String::from("gone")));
}

#[test]
fn test_route_post_yields_404() {
    let store = store_with(&[("index.html", "<h1>home</h1>")]);
    let req = HttpRequest::from(String::from("POST / HTTP/1.1\r\n"));
    let resp = Router::route(req, &store, &Vec::new());
    assert_eq!(resp.status_code, "404");
    let req2 = HttpRequest::from(String::from("POST /api/shipping/orders HTTP/1.1\r\n"));
    let resp2 = Router::route(req2, &store, &Vec::new());
    assert_eq!(resp2.status_code, "404");
}

#[test]
fn test_json_escaping() {
    let orders = vec![OrderStatus {
        order_id: -5,
        order_date: String::from("a\"b\\c"),
        order_status: String::from("x\ny\u{1}"),
    }];
    let body = orders_to_json(&orders);
    assert_eq!(
        body,
        "[{\"order_id\":-5,\"order_date\":\"a\\\"b\\\\c\",\"order_status\":\"x\\ny\\u0001\"}]"
    );
}

#[test]
fn test_json_empty_array() {
    assert_eq!(orders_to_json(&Vec::new()), "[]");
}

#[test]
fn test_decimal_rendering() {
    assert_eq!(u64_dec(0), "0");
    assert_eq!(u64_dec(7), "7");
    assert_eq!(u64_dec(12345), "12345");
    assert_eq!(httpserver::json::i32_dec(-42), "-42");
    assert_eq!(httpserver::json::i32_dec(i32::MIN), "-2147483648");
}

#[test]
fn test_server_new_keeps_address() {
    let s = Server::new("localhost:3000");
    assert_eq!(s.addr_str(), "localhost:3000");
}

#[test]
fn test_content_length_counts_bytes() {
    let resp = HttpResponse::new("200", None, Some(String::from("h\u{e9}")));
    let wire = resp.serialize();
    assert!(wire.contains("Content-Length: 3\r\n"));
}

#[test]
fn test_last_request_line_wins() {
    let req = HttpRequest::from(String::from(
        "GET /first HTTP/1.1\r\nPOST /second HTTP/2.0\r\n",
    ));
    assert_eq!(req.method, Method::Post);
    assert_eq!(req.version, Version::V2_0);
    assert_eq!(req.resource, Resource::Path("/second".to_string()));
}

#[test]
fn test_duplicate_header_last_write_wins() {
    let req = HttpRequest::from(String::from(
        "GET / HTTP/1.1\r\nHost: one\r\nHost: two\r\n",
    ));
    assert_eq!(req.headers.len(), 1);
    assert_eq!(req.headers.get("Host"), Some(&String::from(" two")));
}
