use firebase_rs::clients::{to_version, Incoming, USER_AGENT, USER_AGENT_VALUE};
use http_req::response::Headers;
use firebase_rs::request::body_of;
use firebase_rs::utils::make_request;
use firebase_rs::{
    check_uri, Client, DecodeError, Firebase, Method, Request, RequestError, RequestResult,
    Requestable, Response, Version,
};
use serde_json::Value;

const ROOT: &str = "https://example.firebaseio.com";

struct User {
    name: String,
}

impl<'de> serde::Deserialize<'de> for User {
    fn deserialize<D: serde::Deserializer<'de>>(deserializer: D) -> Result<Self, D::Error> {
        let fields = std::collections::BTreeMap::<String, String>::deserialize(deserializer)?;
        match fields.get("name") {
            Some(name) => Ok(User { name: name.clone() }),
            None => Err(serde::de::Error::missing_field("name")),
        }
    }
}

fn header(name: &str, value: &str) -> (String, String) {
    (name.to_string(), value.to_string())
}

fn named(name: &str) -> Value {
    let mut fields = serde_json::Map::new();
    fields.insert("name".to_string(), Value::String(name.to_string()));
    Value::Object(fields)
}

fn answer(status: u16, body: &[u8]) -> Incoming {
    Incoming {
        status,
        version: "HTTP/1.1".to_string(),
        headers: vec![header("content-type", "application/json")],
        body: body.to_vec(),
    }
}

fn read_user(body: &[u8]) -> RequestResult<User, String> {
    let client = Client::default();
    let stub = answer(200, body);
    let decoded = serde_json::from_slice::<User>(&stub.body).map_err(|e| e.to_string());
    let version = to_version(&stub.version);
    body_of(client.respond(stub.status, version, stub.headers, &stub.body, decoded))
}

#[test]
fn a_user_is_read() {
    let user = read_user(b"{\"name\":\"a\"}").unwrap();
    assert_eq!(user.name, "a");
}

#[test]
fn a_user_of_the_wrong_shape_is_a_decode_error() {
    match read_user(b"{\"name\":1}") {
        Err(RequestError::Decode(error)) => {
            assert_eq!(error.raw, "{\"name\":1}");
            assert!(!error.reason.is_empty());
            assert_eq!(
                error.message(),
                format!("e: {}\nraw: {{\"name\":1}}", error.reason)
            );
        }
        _ => panic!("a decode error was expected"),
    }
}

#[test]
fn any_json_is_received() {
    let client = Client::default();
    let response = client
        .receive::<String>(answer(200, b"{\"name\":\"a\"}"))
        .unwrap();
    assert_eq!(response.status, 200);
    assert_eq!(response.version, Version::Http11);
    assert_eq!(
        response.headers,
        vec![header("content-type", "application/json")]
    );
    assert_eq!(response.body, named("a"));
    let null = client.receive::<String>(answer(204, b"null")).unwrap();
    assert_eq!(null.status, 204);
    assert_eq!(null.into_body(), Value::Null);
}

#[test]
fn what_is_not_json_is_a_decode_error() {
    let client = Client::default();
    match client.receive::<String>(answer(200, b"{\"name\":")) {
        Err(RequestError::Decode(error)) => {
            assert_eq!(error.raw, "{\"name\":");
            assert!(error.reason.contains("EOF"));
        }
        other => panic!("unexpected: {:?}", other),
    }
}

#[test]
fn a_payload_that_is_not_text_is_shown_lossily() {
    let client = Client::default();
    match client.receive::<String>(answer(200, &[0xff, b'a'])) {
        Err(RequestError::Decode(error)) => assert_eq!(error.raw, "\u{fffd}a"),
        other => panic!("unexpected: {:?}", other),
    }
}

#[test]
fn a_failure_of_the_engine_is_handed_on() {
    let client = Client::default();
    let failed: RequestResult<Response<Value>, String> =
        client.finish(Err("connection refused".to_string()));
    match failed {
        Err(RequestError::Transport(error)) => assert_eq!(error, "connection refused"),
        other => panic!("unexpected: {:?}", other),
    }
    let done: RequestResult<Response<Value>, String> = client.finish(Ok(answer(200, b"[1,2]")));
    assert_eq!(
        done.unwrap().body,
        Value::Array(vec![Value::from(1), Value::from(2)])
    );
}

#[test]
fn what_was_encoded_is_decoded_to_the_same_value() {
    let client = Client::default();
    let firebase = Firebase::new(ROOT).unwrap().at("users");
    let mut fields = serde_json::Map::new();
    fields.insert("name".to_string(), Value::String("a \"b\" \u{e9}".to_string()));
    fields.insert("age".to_string(), Value::from(42));
    fields.insert("ratio".to_string(), Value::from(-3));
    fields.insert("tags".to_string(), Value::Array(vec![Value::Null, Value::Bool(true)]));
    let value = Value::Object(fields);
    for request in [firebase.set(value.clone()), firebase.update(value.clone())] {
        let out = client.prepare(Headers::new(), &request);
        let payload = out.payload.unwrap();
        let back = client.receive::<String>(answer(200, &payload)).unwrap();
        assert_eq!(back.body, value);
    }
}

fn sorted(headers: &Headers) -> Vec<(String, String)> {
    let mut all: Vec<(String, String)> = headers
        .iter()
        .map(|(k, v)| (k.to_string().to_ascii_lowercase(), v.to_string()))
        .collect();
    all.sort();
    all
}

#[test]
fn a_request_is_prepared_with_its_headers() {
    let client = Client::default();
    let firebase = Firebase::new(ROOT).unwrap().at("users");
    let mut request = firebase.set(named("a"));
    request.headers.push(header("host", "other.example.com"));
    request.headers.push(header("X-Trace", "1"));
    request.headers.push(header("x-trace", "2"));
    let mut defaults = Headers::new();
    defaults.insert("Host", "example.firebaseio.com");
    defaults.insert("user-agent", "engine/1.0");
    defaults.insert("Accept", "*/*");
    let out = client.prepare(defaults, &request);
    assert_eq!(out.method, Method::Post);
    assert_eq!(out.uri, "https://example.firebaseio.com/users.json");
    assert_eq!(out.version, Version::Http11);
    assert_eq!(
        sorted(&out.headers),
        vec![
            header("accept", "*/*"),
            header("host", "other.example.com"),
            header("user-agent", "Rusted Firebase"),
            header("x-trace", "2"),
        ]
    );
    assert_eq!(out.headers.get("HOST"), Some(&"other.example.com".to_string()));
    assert_eq!(out.payload, Some(b"{\"name\":\"a\"}".to_vec()));
}

#[test]
fn a_request_without_a_body_has_no_payload() {
    let client = Client::default();
    let firebase = Firebase::new(ROOT).unwrap();
    let out = client.prepare(Headers::new(), &firebase.get());
    assert_eq!(out.method, Method::Get);
    assert_eq!(out.payload, None);
    assert_eq!(sorted(&out.headers), vec![header("user-agent", "Rusted Firebase")]);
    assert_eq!(out.headers.get(USER_AGENT), Some(&USER_AGENT_VALUE.to_string()));
}

#[test]
fn a_payload_that_is_given_goes_out_as_it_is() {
    let client = Client::default();
    let firebase = Firebase::new(ROOT).unwrap();
    let request = firebase.update(named("a"));
    let out = client.assemble(Headers::new(), &request, Some(vec![1, 2, 3]));
    assert_eq!(out.method, Method::Patch);
    assert_eq!(out.payload, Some(vec![1, 2, 3]));
    let none = client.assemble(Headers::new(), &request, None);
    assert_eq!(none.payload, None);
    let null = client.prepare(Headers::new(), &firebase.set(Value::Null));
    assert_eq!(null.payload, Some(b"null".to_vec()));
}

#[test]
fn the_headers_of_the_request_replace_the_defaults_of_an_engine() {
    let client = Client::default();
    let firebase = Firebase::new(ROOT).unwrap().at("users");
    let mut request = firebase.get();
    request.headers.push(header("HOST", "other.example.com"));
    request.headers.push(header("X-Trace", "1"));
    request.headers.push(header("user-agent", "mine"));
    request.headers.push(header("x-trace", "2"));
    let uri = http_req::uri::Uri::try_from(request.uri.as_str()).unwrap();
    let out = client.prepare(Headers::default_http(&uri), &request);
    assert_eq!(
        sorted(&out.headers),
        vec![
            header("host", "other.example.com"),
            header("user-agent", "mine"),
            header("x-trace", "2"),
        ]
    );
}

#[test]
fn every_operation_has_its_request() {
    let firebase = Firebase::new(ROOT).unwrap().at("users").at("42");
    let uri = "https://example.firebaseio.com/users/42.json";
    let check = |request: &Request, method: Method, body: Option<Value>| {
        assert_eq!(request.method, method);
        assert_eq!(request.uri, uri);
        assert_eq!(request.version, Version::Http11);
        assert!(request.headers.is_empty());
        assert_eq!(request.body, body);
    };
    check(&firebase.get(), Method::Get, None);
    check(&firebase.get_as_string(), Method::Get, None);
    check(&firebase.delete(), Method::Delete, None);
    check(&firebase.set(named("a")), Method::Post, Some(named("a")));
    check(&firebase.update(named("b")), Method::Patch, Some(named("b")));
    check(&firebase.request_generic(Method::Head), Method::Head, None);
    check(
        &firebase.request(Method::Put, Some(Value::Null)),
        Method::Put,
        Some(Value::Null),
    );
    let location = check_uri(uri).unwrap();
    check(
        &make_request(&location, Method::Options, None),
        Method::Options,
        None,
    );
}

#[test]
fn the_body_is_what_is_left_of_an_answer() {
    let whole: RequestResult<Response<u8>, String> = Ok(Response {
        status: 200,
        version: Version::Http2,
        headers: Vec::new(),
        body: 7,
    });
    assert_eq!(body_of(whole).unwrap(), 7);
    let failed: RequestResult<Response<u8>, String> = Err(RequestError::Decode(DecodeError {
        reason: "r".to_string(),
        raw: "w".to_string(),
    }));
    match body_of(failed) {
        Err(RequestError::Decode(error)) => assert_eq!(error.message(), "e: r\nraw: w"),
        _ => panic!("a decode error was expected"),
    }
}

#[test]
fn methods_have_their_names() {
    let all = [
        (Method::Get, "GET"),
        (Method::Post, "POST"),
        (Method::Put, "PUT"),
        (Method::Patch, "PATCH"),
        (Method::Delete, "DELETE"),
        (Method::Head, "HEAD"),
        (Method::Options, "OPTIONS"),
    ];
    for (method, name) in all {
        assert_eq!(method.as_str(), name);
        assert_eq!(Method::from_name(name), Some(method));
    }
    assert_eq!(Method::from_name("get"), None);
    assert_eq!(Method::from_name("CONNECT"), None);
    assert_eq!(Method::from_name("TRACE"), None);
    assert_eq!(Method::from_name(""), None);
}

#[test]
fn versions_have_their_names() {
    assert_eq!(to_version("HTTP/0.9"), Version::Http09);
    assert_eq!(to_version("HTTP/1.0"), Version::Http10);
    assert_eq!(to_version("HTTP/1.1"), Version::Http11);
    assert_eq!(to_version("HTTP/2.0"), Version::Http2);
    assert_eq!(to_version("HTTP/3.0"), Version::Http3);
    assert_eq!(Version::from_name("HTTP/1.1"), Some(Version::Http11));
    assert_eq!(Version::from_name("HTTP/2"), None);
    assert_eq!(Version::from_name("http/1.1"), None);
    assert!(Version::Http10.is_sendable());
    assert!(Version::Http11.is_sendable());
    assert!(Version::Http2.is_sendable());
    assert!(!Version::Http09.is_sendable());
    assert!(!Version::Http3.is_sendable());
}
