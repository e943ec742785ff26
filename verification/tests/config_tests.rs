use stresster::config::build_headers;
use stresster::{
    build_request_data, parse_request_config, ConfigDoc, ConfigError, HeadersField, HttpMethods,
    OutputFormat, RequestData, TextField,
};

fn minimal_doc() -> ConfigDoc {
    ConfigDoc {
        payload: None,
        headers: HeadersField::Absent,
        method: TextField::Text("get".to_owned()),
        url: TextField::Text("http://localhost:8080/".to_owned()),
        ssl_cert: TextField::Absent,
    }
}

#[test]
fn fromstr_accepts_the_five_methods() {
    assert_eq!(HttpMethods::fromstr("get"), Some(HttpMethods::Get));
    assert_eq!(HttpMethods::fromstr("post"), Some(HttpMethods::Post));
    assert_eq!(HttpMethods::fromstr("put"), Some(HttpMethods::Put));
    assert_eq!(HttpMethods::fromstr("delete"), Some(HttpMethods::Delete));
    assert_eq!(HttpMethods::fromstr("patch"), Some(HttpMethods::Patch));
}

#[test]
fn fromstr_ignores_ascii_case() {
    assert_eq!(HttpMethods::fromstr("GET"), Some(HttpMethods::Get));
    assert_eq!(HttpMethods::fromstr("GeT"), Some(HttpMethods::Get));
    assert_eq!(HttpMethods::fromstr("Delete"), Some(HttpMethods::Delete));
}

#[test]
fn fromstr_rejects_other_names() {
    assert_eq!(HttpMethods::fromstr("head"), None);
    assert_eq!(HttpMethods::fromstr(""), None);
    assert_eq!(HttpMethods::fromstr("get "), None);
    assert_eq!(HttpMethods::fromstr("gets"), None);
    assert_eq!(HttpMethods::fromstr("g\u{e9}t"), None);
}

#[test]
fn output_format_from_name() {
    assert_eq!(OutputFormat::from_name("json"), OutputFormat::Json);
    assert_eq!(OutputFormat::from_name("JSON"), OutputFormat::Json);
    assert_eq!(OutputFormat::from_name("table"), OutputFormat::Table);
    assert_eq!(OutputFormat::from_name("anything"), OutputFormat::Table);
    assert_eq!(OutputFormat::from_name(""), OutputFormat::Table);
}

#[test]
fn output_format_from_impls() {
    assert_eq!(OutputFormat::from("Json".to_owned()), OutputFormat::Json);
    assert_eq!(OutputFormat::from("tAbLe"), OutputFormat::Table);
}

#[test]
fn default_request_data_is_the_documented_one() {
    let rd = RequestData::default();
    assert_eq!(rd.payload, "{}");
    assert_eq!(rd.headers.len(), 0);
    assert_eq!(rd.method, HttpMethods::Get);
    assert_eq!(rd.url, "");
    assert_eq!(rd.cert_path, "");
    assert!(!rd.uses_custom_cert());
}

#[test]
fn build_applies_defaults() {
    let rd = build_request_data(&minimal_doc()).unwrap();
    assert_eq!(rd.payload, "{}");
    assert_eq!(rd.headers.len(), 0);
    assert_eq!(rd.method, HttpMethods::Get);
    assert_eq!(rd.url, "http://localhost:8080/");
    assert_eq!(rd.cert_path, "");
}

#[test]
fn build_rejects_missing_method() {
    let mut doc = minimal_doc();
    doc.method = TextField::Absent;
    assert_eq!(build_request_data(&doc).unwrap_err(), ConfigError::MissingMethod);
}

#[test]
fn build_rejects_non_string_method() {
    let mut doc = minimal_doc();
    doc.method = TextField::NotText;
    assert_eq!(build_request_data(&doc).unwrap_err(), ConfigError::MethodNotString);
}

#[test]
fn build_rejects_unknown_method() {
    let mut doc = minimal_doc();
    doc.method = TextField::Text("head".to_owned());
    assert_eq!(build_request_data(&doc).unwrap_err(), ConfigError::InvalidMethod);
}

#[test]
fn build_accepts_mixed_case_method() {
    let mut doc = minimal_doc();
    doc.method = TextField::Text("POST".to_owned());
    assert_eq!(build_request_data(&doc).unwrap().method, HttpMethods::Post);
}

#[test]
fn build_rejects_missing_url() {
    let mut doc = minimal_doc();
    doc.url = TextField::Absent;
    assert_eq!(build_request_data(&doc).unwrap_err(), ConfigError::MissingUrl);
}

#[test]
fn build_rejects_non_string_url() {
    let mut doc = minimal_doc();
    doc.url = TextField::NotText;
    assert_eq!(build_request_data(&doc).unwrap_err(), ConfigError::UrlNotString);
}

#[test]
fn build_rejects_empty_url() {
    let mut doc = minimal_doc();
    doc.url = TextField::Text(String::new());
    assert_eq!(build_request_data(&doc).unwrap_err(), ConfigError::EmptyUrl);
}

#[test]
fn build_rejects_non_object_headers() {
    let mut doc = minimal_doc();
    doc.headers = HeadersField::NotObject;
    assert_eq!(build_request_data(&doc).unwrap_err(), ConfigError::HeadersNotObject);
}

#[test]
fn build_rejects_non_string_header_value() {
    let mut doc = minimal_doc();
    doc.headers = HeadersField::Entries(vec![("code".to_owned(), None)]);
    assert_eq!(build_request_data(&doc).unwrap_err(), ConfigError::HeaderValueNotString);
}

#[test]
fn build_rejects_invalid_header_name() {
    let mut doc = minimal_doc();
    doc.headers = HeadersField::Entries(vec![(
        "bad name".to_owned(),
        Some("x".to_owned()),
    )]);
    assert_eq!(build_request_data(&doc).unwrap_err(), ConfigError::InvalidHeaderName);
}

#[test]
fn build_rejects_empty_header_name() {
    let mut doc = minimal_doc();
    doc.headers = HeadersField::Entries(vec![(String::new(), Some("x".to_owned()))]);
    assert_eq!(build_request_data(&doc).unwrap_err(), ConfigError::InvalidHeaderName);
}

#[test]
fn build_rejects_invalid_header_value() {
    let mut doc = minimal_doc();
    doc.headers = HeadersField::Entries(vec![(
        "code".to_owned(),
        Some("a\nb".to_owned()),
    )]);
    assert_eq!(build_request_data(&doc).unwrap_err(), ConfigError::InvalidHeaderValue);
}

#[test]
fn build_lowercases_header_names() {
    let mut doc = minimal_doc();
    doc.headers = HeadersField::Entries(vec![(
        "Content-Type".to_owned(),
        Some("application/json".to_owned()),
    )]);
    let rd = build_request_data(&doc).unwrap();
    assert_eq!(
        rd.headers,
        vec![("content-type".to_owned(), "application/json".to_owned())]
    );
}

#[test]
fn build_overwrites_duplicate_header_names_last_write_wins() {
    let mut doc = minimal_doc();
    doc.headers = HeadersField::Entries(vec![
        ("Code".to_owned(), Some("1".to_owned())),
        ("code".to_owned(), Some("2".to_owned())),
    ]);
    let rd = build_request_data(&doc).unwrap();
    assert_eq!(rd.headers, vec![("code".to_owned(), "2".to_owned())]);
}

#[test]
fn build_header_errors_precede_method_errors() {
    let mut doc = minimal_doc();
    doc.method = TextField::Absent;
    doc.headers = HeadersField::Entries(vec![(
        "bad name".to_owned(),
        Some("x".to_owned()),
    )]);
    assert_eq!(build_request_data(&doc).unwrap_err(), ConfigError::InvalidHeaderName);
}

#[test]
fn build_headers_reports_first_error_in_order() {
    let es = vec![
        ("ok".to_owned(), Some("fine".to_owned())),
        ("also ok".to_owned(), Some("x".to_owned())),
    ];
    assert_eq!(build_headers(&es).unwrap_err(), ConfigError::InvalidHeaderName);
}

#[test]
fn build_keeps_ssl_cert_when_given() {
    let mut doc = minimal_doc();
    doc.ssl_cert = TextField::Text("./cert.pem".to_owned());
    let rd = build_request_data(&doc).unwrap();
    assert_eq!(rd.cert_path, "./cert.pem");
    assert!(rd.uses_custom_cert());
}

#[test]
fn build_defaults_non_string_ssl_cert_to_empty() {
    let mut doc = minimal_doc();
    doc.ssl_cert = TextField::NotText;
    let rd = build_request_data(&doc).unwrap();
    assert_eq!(rd.cert_path, "");
}

#[test]
fn parse_full_configuration() {
    let text = r#"{
        "url": "http://localhost:15000/gettest",
        "ssl_cert": "./test_server/cert.pem",
        "method": "get",
        "payload": { "name": "Malhar Vora" },
        "headers": {
            "User-Agent": "stresster",
            "Content-Type": "application/json",
            "code": "204"
        }
    }"#;
    let rd = parse_request_config(text).unwrap();
    assert_eq!(rd.url, "http://localhost:15000/gettest");
    assert_eq!(rd.cert_path, "./test_server/cert.pem");
    assert_eq!(rd.method, HttpMethods::Get);
    assert_eq!(rd.payload, "{\"name\":\"Malhar Vora\"}");
    assert_eq!(
        rd.headers,
        vec![
            ("content-type".to_owned(), "application/json".to_owned()),
            ("user-agent".to_owned(), "stresster".to_owned()),
            ("code".to_owned(), "204".to_owned()),
        ]
    );
}

#[test]
fn parse_rejects_invalid_json() {
    assert_eq!(parse_request_config("{nope").unwrap_err(), ConfigError::InvalidJson);
}

#[test]
fn parse_rejects_missing_method() {
    assert_eq!(parse_request_config(r#"{"url": "http://x/"}"#).unwrap_err(), ConfigError::MissingMethod);
}

#[test]
fn parse_rejects_non_string_method() {
    assert_eq!(parse_request_config(r#"{"method": 5, "url": "http://x/"}"#).unwrap_err(), ConfigError::MethodNotString);
}

#[test]
fn parse_rejects_non_object_top_level() {
    assert_eq!(parse_request_config("[1, 2]").unwrap_err(), ConfigError::MissingMethod);
}

#[test]
fn parse_defaults_payload_to_empty_object() {
    let rd = parse_request_config(r#"{"method": "put", "url": "http://x/"}"#).unwrap();
    assert_eq!(rd.payload, "{}");
    assert_eq!(rd.method, HttpMethods::Put);
}

#[test]
fn parse_rejects_non_object_headers() {
    assert_eq!(parse_request_config(r#"{"method": "get", "url": "http://x/", "headers": [1]}"#).unwrap_err(), ConfigError::HeadersNotObject);
}

#[test]
fn config_error_messages_are_descriptive() {
    assert_eq!(
        ConfigError::MissingMethod.message(),
        "please specify method in payload file"
    );
    assert_eq!(
        ConfigError::InvalidMethod.message(),
        "invalid HTTP method"
    );
    assert_eq!(
        ConfigError::InvalidJson.message(),
        "invalid JSON in configuration file"
    );
}
