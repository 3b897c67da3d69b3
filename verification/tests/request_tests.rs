use jetemail::client::{api_error, auth_header, enc, url, Auth, EntryValue, HttpMethod, RequestBody};
use jetemail::commands::inbound::account::{RuleAction, RuleBody, RuleCmd, UuidArg};
use jetemail::commands::inbound::domains::{self as idomains, ForwardRulesAction, ForwardRulesCmd, RulePair};
use jetemail::commands::outbound::suppression::{self, CreateArgs as SuppressionCreate};
use jetemail::commands::util::{
    body_json_object, check_file_size, check_stdin_size, finish_body, input_source, parse_field_pairs, InputSource,
};
use jetemail::commands::{webhooks, Output};
use jetemail::config::{FileConfig, Resolved};
use jetemail::json::{Json, JsonNumber};

fn s(x: &str) -> Json {
    Json::Str(x.to_string())
}

#[test]
fn path_segments_are_escaped() {
    assert_eq!(enc("1b4e28ba-2fa1-11d2-883f-0016d3cca427"), "1b4e28ba-2fa1-11d2-883f-0016d3cca427");
    assert_eq!(enc("example.com"), "example.com");
    assert_eq!(enc("a/b?c#d"), "a%2Fb%3Fc%23d");
    assert_eq!(enc("%2e%2e"), "%252e%252e");
    assert_eq!(enc("é"), "%C3%A9");
    assert_eq!(enc("a b"), "a%20b");
}

#[test]
fn urls_join_base_and_path() {
    assert_eq!(url("https://api.jetemail.com/", "/webhooks"), "https://api.jetemail.com/webhooks");
    assert_eq!(url("https://api.jetemail.com", "webhooks"), "https://api.jetemail.com/webhooks");
    assert_eq!(url("https://x//", "/a"), "https://x/a");
}

#[test]
fn auth_headers_need_their_key() {
    let file = FileConfig::empty();
    let r = Resolved::from_layers(Some("api_k".to_string()), None, None, None, &file);
    assert_eq!(auth_header(&r, Auth::Api).unwrap().as_deref(), Some("Bearer api_k"));
    assert!(auth_header(&r, Auth::NoKey).unwrap().is_none());
    let e = auth_header(&r, Auth::Transactional).err().unwrap();
    assert!(e.message.starts_with("no transactional key found."));
}

#[test]
fn api_error_messages() {
    assert_eq!(api_error("404 Not Found", "  ", None).message, "HTTP 404 Not Found");
    assert_eq!(api_error("500 Internal Server Error", " boom \n", None).message, "HTTP 500 Internal Server Error: boom");
    assert_eq!(api_error("400 Bad Request", "{}", Some("{}".to_string())).message, "HTTP 400 Bad Request\n{}");
}

#[test]
fn input_sources() {
    assert!(matches!(input_source("-"), InputSource::Stdin));
    assert!(matches!(input_source("@body.json"), InputSource::File(p) if p == "body.json"));
    assert!(matches!(input_source("{\"a\":1}"), InputSource::Literal(t) if t == "{\"a\":1}"));
    assert!(check_stdin_size(26214400).is_ok());
    assert_eq!(check_stdin_size(26214401).err().unwrap().message, "stdin input exceeds the 26214400-byte limit");
    assert!(check_file_size("x", false, 99999999999).is_ok());
    assert_eq!(
        check_file_size("big.bin", true, 26214401).err().unwrap().message,
        "big.bin is 26214401 bytes, exceeding the 26214400-byte input limit"
    );
}

#[test]
fn field_flags_split_at_first_equals() {
    let ok = parse_field_pairs(&vec!["a=1".to_string(), "b=x=y".to_string()]).unwrap();
    assert_eq!(ok, vec![("a".to_string(), "1".to_string()), ("b".to_string(), "x=y".to_string())]);
    let e = parse_field_pairs(&vec!["a=1".to_string(), "oops".to_string()]).err().unwrap();
    assert_eq!(e.message, "--field expects key=value, got `oops`");
    assert_eq!(body_json_object(s("x")).err().unwrap().message, "--body-json must be a JSON object");
}

#[test]
fn explicit_flags_win_over_body_sources() {
    let base = vec![("name".to_string(), s("from-json")), ("keep".to_string(), s("k"))];
    let fields = vec![("name".to_string(), s("from-field")), ("other".to_string(), s("o"))];
    let entries = vec![("name".to_string(), EntryValue::Value(s("from-flag"))), ("keep".to_string(), EntryValue::Default(s("ignored")))];
    let body = finish_body(Some(base), fields, entries).unwrap();
    let get = |k: &str| body.iter().find(|(n, _)| n == k).map(|(_, v)| match v {
        Json::Str(t) => t.clone(),
        _ => String::new(),
    });
    assert_eq!(get("name").as_deref(), Some("from-flag"));
    assert_eq!(get("keep").as_deref(), Some("k"));
    assert_eq!(get("other").as_deref(), Some("o"));
}

#[test]
fn webhook_headers_must_have_a_colon() {
    let entries = vec![("webhook_headers".to_string(), EntryValue::Headers(vec!["X-A: 1".to_string(), "bad".to_string()]))];
    let e = finish_body(None, Vec::new(), entries).err().unwrap();
    assert_eq!(e.message, "--webhook-header expects `Name: Value`");
    let ok = finish_body(None, Vec::new(), vec![("h".to_string(), EntryValue::Headers(vec![" X-A : 1 ".to_string()]))]).unwrap();
    match &ok[0].1 {
        Json::Object(m) => {
            assert_eq!(m[0].0, "X-A");
            assert!(matches!(&m[0].1, Json::Str(v) if v == "1"));
        },
        _ => panic!("object expected"),
    }
}

#[test]
fn rule_commands_route_under_their_base() {
    let cmd = RuleCmd { action: RuleAction::Get(UuidArg { uuid: "r1".to_string() }) };
    let plan = jetemail::commands::inbound::account::run_rule(&cmd, "/inbound/account/allowlist");
    assert_eq!(plan.request.path, "/inbound/account/allowlist/r1");
    assert_eq!(plan.request.method, HttpMethod::Get);
    let create = RuleCmd {
        action: RuleAction::Create(RuleBody {
            name: Some("n".to_string()),
            description: None,
            senders: vec!["a@x".to_string()],
            recipients: vec![],
            subjects: vec![],
            bodies: vec![],
            headers: vec![],
            ips: vec![],
            attachments: vec![],
            body_json: None,
            field: vec![],
        }),
    };
    let plan = jetemail::commands::inbound::account::run_rule(&create, "/inbound/account/blocklist");
    assert_eq!(plan.request.method, HttpMethod::Post);
    match plan.request.body {
        RequestBody::Built(r) => {
            assert_eq!(r.entries.len(), 2);
            assert_eq!(r.entries[0].0, "name");
            assert_eq!(r.entries[1].0, "senders");
        },
        _ => panic!("built body expected"),
    }
}

#[test]
fn forward_rule_paths() {
    let fr = ForwardRulesCmd { action: ForwardRulesAction::Delete(RulePair { uuid: "d".to_string(), rule_uuid: "r".to_string() }) };
    let plan = idomains::forward_rules(&fr);
    assert_eq!(plan.request.path, "/inbound/domains/d/forward-rules/r");
    assert_eq!(plan.request.method, HttpMethod::Delete);
    let list = idomains::run(&idomains::Cmd { action: idomains::Action::List });
    assert!(matches!(list.output, Output::Table(ref c) if c.len() == 4));
}

#[test]
fn webhook_uuid_is_escaped_in_path() {
    let plan = webhooks::run(&webhooks::Cmd { action: webhooks::Action::Get(webhooks::UuidArg { uuid: "../x".to_string() }) });
    assert_eq!(plan.request.path, "/webhooks/..%2Fx");
}

#[test]
fn suppression_plans() {
    let plan = suppression::run(&suppression::Cmd { action: suppression::Action::Delete(suppression::DeleteArgs { id: 42 }) });
    assert_eq!(plan.request.path, "/outbound/suppression/42");
    let plan = suppression::run(&suppression::Cmd {
        action: suppression::Action::Create(SuppressionCreate { target_value: "a@b".to_string(), reason: None }),
    });
    match plan.request.body {
        RequestBody::Fixed(Json::Object(m)) => {
            assert_eq!(m.len(), 1);
            assert_eq!(m[0].0, "target_value");
        },
        _ => panic!("fixed body expected"),
    }
    let export = suppression::run(&suppression::Cmd { action: suppression::Action::Export });
    assert!(matches!(export.output, Output::Text));
    let _ = JsonNumber { as_i64: Some(1), float_trunc: 1, float_positive: true, text: "1".to_string() };
}

#[test]
fn forward_rule_add_body() {
    let fr = ForwardRulesCmd {
        action: ForwardRulesAction::Add(idomains::AddRuleArgs {
            uuid: "d-1".to_string(),
            localpart: Some("sales".to_string()),
            destination: Some("sales-team@yourcompany.com".to_string()),
            active: Some(true),
            body_json: None,
            field: vec![],
        }),
    };
    let plan = idomains::forward_rules(&fr);
    assert_eq!(plan.request.path, "/inbound/domains/d-1/forward-rules");
    assert_eq!(plan.request.method, HttpMethod::Post);
    match plan.request.body {
        jetemail::client::RequestBody::Built(r) => {
            let body = finish_body(None, Vec::new(), r.entries).unwrap();
            assert_eq!(body.len(), 3);
            assert!(matches!(&body[0], (k, Json::Str(v)) if k == "localpart" && v == "sales"));
            assert!(matches!(&body[1], (k, Json::Str(v)) if k == "destination" && v == "sales-team@yourcompany.com"));
            assert!(matches!(&body[2], (k, Json::Bool(true)) if k == "active"));
        },
        _ => panic!("built body expected"),
    }
}
