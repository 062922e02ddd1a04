use refac::api_client::{chat_completions_endpoint, edits_endpoint, endpoint_url, Method, Req};

fn pair(name: &str, value: &str) -> (String, String) {
    (name.to_string(), value.to_string())
}

#[test]
fn new_request_has_no_headers_and_no_body() {
    let req = Req::new(Method::Get, "/v1/models");
    assert_eq!(req.method(), Method::Get);
    assert_eq!(req.url_suffix(), "/v1/models");
    assert!(req.headers().is_empty());
    assert_eq!(req.body(), None);
}

#[test]
fn header_adds_and_replaces() {
    let req = Req::new(Method::Post, "x").header("A", "1").header("B", "2");
    assert_eq!(req.headers(), &vec![pair("A", "1"), pair("B", "2")]);
    let req = req.header("A", "3");
    assert_eq!(req.headers(), &vec![pair("A", "3"), pair("B", "2")]);
    let req = req.header("a", "4");
    assert_eq!(req.headers(), &vec![pair("A", "3"), pair("B", "2"), pair("a", "4")]);
    assert_eq!(req.method(), Method::Post);
    assert_eq!(req.url_suffix(), "x");
}

#[test]
fn json_sets_the_body() {
    let req = Req::new(Method::Post, "x").header("A", "1").json("{}".to_string());
    assert_eq!(req.body(), Some("{}"));
    assert_eq!(req.headers(), &vec![pair("A", "1")]);
    let req = req.json("[]".to_string());
    assert_eq!(req.body(), Some("[]"));
}

#[test]
fn url_has_one_slash_after_the_gateway() {
    assert_eq!(endpoint_url("/v1/edits"), "https://api.openai.com/v1/edits");
    assert_eq!(endpoint_url("v1/edits"), "https://api.openai.com/v1/edits");
    assert_eq!(endpoint_url(""), "https://api.openai.com/");
    assert_eq!(endpoint_url("/"), "https://api.openai.com/");
    assert_eq!(endpoint_url("//x"), "https://api.openai.com//x");
    assert_eq!(Req::new(Method::Get, "models").url(), "https://api.openai.com/models");
}

#[test]
fn endpoints_post_json() {
    let edits = edits_endpoint("{\"a\":1}".to_string());
    assert_eq!(edits.method(), Method::Post);
    assert_eq!(edits.url_suffix(), "/v1/edits");
    assert_eq!(edits.url(), "https://api.openai.com/v1/edits");
    assert_eq!(edits.headers(), &vec![pair("Content-Type", "application/json")]);
    assert_eq!(edits.body(), Some("{\"a\":1}"));
    let chat = chat_completions_endpoint("{}".to_string());
    assert_eq!(chat.method(), Method::Post);
    assert_eq!(chat.url_suffix(), "/v1/chat/completions");
    assert_eq!(chat.headers(), &vec![pair("Content-Type", "application/json")]);
    assert_eq!(chat.body(), Some("{}"));
}
