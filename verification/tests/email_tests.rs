use jetemail::client::{Auth, HttpMethod, RequestBody};
use jetemail::commands::email::{batch_request, idempotency_header, send_request};
use jetemail::commands::email::{
    batch_body, build_send_body, parse_headers, send_summary, split_recipients, SendFields,
};
use jetemail::json::Json;

fn s(x: &str) -> Json {
    Json::Str(x.to_string())
}

fn fields() -> SendFields {
    SendFields {
        from: Some("me@x.io".to_string()),
        to: vec!["a@y.io".to_string()],
        subject: Some("Hi".to_string()),
        html: None,
        text: Some("body".to_string()),
        cc: vec![],
        bcc: vec!["z@y.io".to_string()],
        reply_to: None,
        headers: None,
        attachments: vec![],
        eu: true,
        scheduled_at: None,
    }
}

fn get<'a>(m: &'a [(String, Json)], k: &str) -> Option<&'a Json> {
    m.iter().find(|(n, _)| n == k).map(|(_, v)| v)
}

#[test]
fn send_body_flags_win() {
    let base = vec![("from".to_string(), s("json@x.io")), ("tags".to_string(), s("t"))];
    let body = build_send_body(Some(base), vec![("subject".to_string(), s("field"))], fields());
    assert!(matches!(get(&body, "from"), Some(Json::Str(v)) if v == "me@x.io"));
    assert!(matches!(get(&body, "subject"), Some(Json::Str(v)) if v == "Hi"));
    assert!(matches!(get(&body, "to"), Some(Json::Str(v)) if v == "a@y.io"));
    assert!(matches!(get(&body, "bcc"), Some(Json::Array(a)) if a.len() == 1));
    assert!(matches!(get(&body, "eu"), Some(Json::Bool(true))));
    assert!(matches!(get(&body, "tags"), Some(Json::Str(v)) if v == "t"));
    assert!(get(&body, "cc").is_none());
}

#[test]
fn several_recipients_make_an_array() {
    let mut f = fields();
    f.to = vec!["a@y.io".to_string(), "b@y.io".to_string()];
    let body = build_send_body(None, Vec::new(), f);
    assert!(matches!(get(&body, "to"), Some(Json::Array(a)) if a.len() == 2));
}

#[test]
fn custom_headers() {
    let h = parse_headers(&vec!["X-Tag: one".to_string(), "X-Tag:two".to_string()]).unwrap();
    assert_eq!(h.len(), 1);
    assert!(matches!(&h[0].1, Json::Str(v) if v == "two"));
    let e = parse_headers(&vec!["nocolon".to_string()]).err().unwrap();
    assert_eq!(e.message, "--header expects `Name: Value`, got `nocolon`");
}

#[test]
fn prompted_recipients() {
    assert_eq!(split_recipients(" a@x , ,b@y"), vec!["a@x".to_string(), "b@y".to_string()]);
    assert_eq!(split_recipients(""), Vec::<String>::new());
}

#[test]
fn summary_after_send() {
    let resp = Json::Object(vec![("id".to_string(), s("m-1")), ("to".to_string(), Json::Array(vec![s("a@y"), s("b@y")]))]);
    let lines = send_summary(&resp, &Vec::new(), Some("Hi"));
    assert_eq!(lines, vec!["✓ Email queued".to_string(), "  to: a@y, b@y".to_string(), "  subject: Hi".to_string(), "  id: m-1".to_string()]);
    let lines = send_summary(&Json::Null, &vec!["x@z".to_string()], Some(""));
    assert_eq!(lines, vec!["✓ Email queued".to_string(), "  to: x@z".to_string()]);
}

#[test]
fn batch_payloads() {
    let arr = batch_body(Json::Array(vec![Json::Object(vec![])])).ok().unwrap();
    assert!(matches!(arr, Json::Object(ref m) if m.len() == 1 && m[0].0 == "emails"));
    let keep = batch_body(Json::Object(vec![("emails".to_string(), Json::Array(vec![]))])).ok().unwrap();
    assert!(matches!(keep, Json::Object(ref m) if m.len() == 1));
    let one = batch_body(Json::Object(vec![("to".to_string(), s("a"))])).ok().unwrap();
    assert!(matches!(one, Json::Object(ref m) if matches!(&m[0].1, Json::Array(a) if a.len() == 1)));
    assert!(batch_body(Json::Bool(true)).is_err());
}

#[test]
fn send_and_batch_requests() {
    let r = send_request(vec![("from".to_string(), jetemail::json::Json::Str("a@x.com".to_string()))]);
    assert_eq!(r.method, HttpMethod::Post);
    assert_eq!(r.path, "/email");
    assert_eq!(r.auth, Auth::Transactional);
    assert!(r.query.is_empty());
    assert!(matches!(r.body, RequestBody::Fixed(jetemail::json::Json::Object(ref m)) if m.len() == 1));
    let b = batch_request(jetemail::json::Json::Null);
    assert_eq!(b.path, "/email-batch");
    assert_eq!(b.auth, Auth::Transactional);
    assert_eq!(idempotency_header(&Some("k1".to_string())), vec![("Idempotency-Key".to_string(), "k1".to_string())]);
    assert!(idempotency_header(&None).is_empty());
}

#[test]
fn typed_from_replaces_the_template_member() {
    let base = vec![("from".to_string(), s("old@x.com")), ("subject".to_string(), s("Hi"))];
    let f = SendFields {
        from: Some("new@x.com".to_string()),
        to: vec!["a@y.com".to_string()],
        subject: None,
        html: None,
        text: None,
        cc: vec![],
        bcc: vec![],
        reply_to: None,
        headers: None,
        attachments: vec![],
        eu: false,
        scheduled_at: None,
    };
    let body = build_send_body(Some(base), Vec::new(), f);
    assert_eq!(body.len(), 3);
    assert_eq!(body.iter().filter(|(k, _)| k == "from").count(), 1);
    assert!(matches!(get(&body, "from"), Some(Json::Str(v)) if v == "new@x.com"));
    assert!(matches!(get(&body, "subject"), Some(Json::Str(v)) if v == "Hi"));
    assert!(matches!(get(&body, "to"), Some(Json::Str(v)) if v == "a@y.com"));
}

#[test]
fn repeated_header_keeps_the_last_value_once() {
    let h = parse_headers(&vec!["X: 1".to_string(), "X: 2".to_string()]).unwrap();
    assert_eq!(h.len(), 1);
    assert!(matches!(&h[0].1, Json::Str(v) if v == "2"));
}
