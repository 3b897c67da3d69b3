use jetemail::tui::entry_lines::{json_shape, raw_lines, JsonShape};
use jetemail::json::{Json, JsonNumber};
use jetemail::tui::detail::{
    entries_from_response, field_status, field_str, field_time, field_unix_secs, format_time_value, status_color,
    StatusColor,
};
use jetemail::tui::entry_lines::{build_entry_lines, render_entry_row, DetailLine};
use jetemail::tui::logs::{
    entry_id, format_time_string, format_unix, is_trivial_value, relative_time, rgb_to_cube_index, short_id, truncate,
    unix_to_components, with_commas, App, FieldFmt, KeyInput, LogKind, LogRecord, TailOpts,
};

fn s(x: &str) -> Json {
    Json::Str(x.to_string())
}

fn num(n: i64) -> Json {
    Json::Number(JsonNumber { as_i64: Some(n), float_trunc: n, float_positive: n > 0, text: n.to_string() })
}

fn obj(members: Vec<(&str, Json)>) -> Vec<(String, Json)> {
    members.into_iter().map(|(k, v)| (k.to_string(), v)).collect()
}

#[test]
fn formats_unix_times_and_milliseconds() {
    assert_eq!(format_unix(0), "1970-01-01 00:00:00");
    assert_eq!(format_unix(1_700_000_000), "2023-11-14 22:13:20");
    assert_eq!(format_unix(1_700_000_000_000), "2023-11-14 22:13:20");
    assert_eq!(unix_to_components(86_399), (23, 59, 59, 1, 1, 1970));
    assert_eq!(format_unix(-1), "1969-12-31 23:59:59");
}

#[test]
fn formats_time_strings() {
    assert_eq!(format_time_string("2024-05-12T04:49:01.123Z"), "2024-05-12 04:49:01");
    assert_eq!(format_time_string("1700000000"), "2023-11-14 22:13:20");
    assert_eq!(format_time_string("yesterday"), "yesterday");
}

#[test]
fn relative_times() {
    let now = 1_700_000_000;
    assert_eq!(relative_time(now, now), "just now");
    assert_eq!(relative_time(now - 12, now), "12 seconds ago");
    assert_eq!(relative_time(now - 60, now), "1 minute ago");
    assert_eq!(relative_time(now - 180, now), "3 minutes ago");
    assert_eq!(relative_time(now - 3600, now), "1 hour ago");
    assert_eq!(relative_time(now - 7200, now), "2 hours ago");
    assert_eq!(relative_time(now - 86_400, now), "1 day ago");
    assert_eq!(relative_time(1715489340, 1715489340 + 864000), "May 12 04:49 UTC");
    assert_eq!(relative_time(1715489340, 1715489340 + 12), "12 seconds ago");
    assert_eq!(relative_time(now + 100, now), format_unix(now + 100));
    assert_eq!(relative_time(now + 5, now), format_unix(now + 5));
}

#[test]
fn numbers_and_text_helpers() {
    assert_eq!(with_commas(1234567), "1,234,567");
    assert_eq!(with_commas(-1000), "-1,000");
    assert_eq!(with_commas(999), "999");
    assert_eq!(truncate("hello world", 5), "hell…");
    assert_eq!(truncate("hi", 5), "hi");
    assert_eq!(short_id("0123456789012345678901234567"), "01234567890123456789012…");
    assert_eq!(short_id("short"), "short");
    assert_eq!(rgb_to_cube_index(0, 0, 0), 16);
    assert_eq!(rgb_to_cube_index(255, 255, 255), 231);
    assert!(is_trivial_value("0", FieldFmt::Count));
    assert!(!is_trivial_value("3", FieldFmt::Count));
    assert!(is_trivial_value("0 B", FieldFmt::Size));
    assert!(!is_trivial_value("0", FieldFmt::Text));
}

#[test]
fn status_colors() {
    assert_eq!(status_color("delivered"), StatusColor::Good);
    assert_eq!(status_color("ok"), StatusColor::Good);
    assert_eq!(status_color("hard_bounce"), StatusColor::Bad);
    assert_eq!(status_color("soft_bounce"), StatusColor::Warn);
    assert_eq!(status_color("bounced"), StatusColor::Bad);
    assert_eq!(status_color("spam"), StatusColor::Spam);
    assert_eq!(status_color("queued"), StatusColor::Info);
    assert_eq!(status_color("dropped"), StatusColor::Drop);
    assert_eq!(status_color("mystery"), StatusColor::Other);
}

#[test]
fn finds_entries_in_responses() {
    let wrapped = Json::Object(obj(vec![
        ("success", Json::Bool(true)),
        ("result", Json::Array(vec![Json::Object(obj(vec![("uid", s("a"))])), num(3), Json::Object(obj(vec![("uid", s("b"))]))])),
    ]));
    let es = entries_from_response(wrapped);
    assert_eq!(es.len(), 2);
    assert_eq!(es[1][0].0, "uid");
    let nested = Json::Object(obj(vec![("data", Json::Object(obj(vec![("items", Json::Array(vec![Json::Object(obj(vec![("id", num(7))]))]))])))]));
    assert_eq!(entries_from_response(nested).len(), 1);
    let single = Json::Object(obj(vec![("uid", s("x"))]));
    assert_eq!(entries_from_response(single).len(), 1);
    assert_eq!(entries_from_response(s("nope")).len(), 0);
}

#[test]
fn reads_fields_of_an_entry() {
    let m = obj(vec![
        ("from", s("a@x.io")),
        ("rcpt", s("b@y.io")),
        ("status", s("")),
        ("event", s("delivered")),
        ("date", num(1_700_000_000)),
    ]);
    assert_eq!(field_str(&m, &["from_address", "from"]).as_deref(), Some("a@x.io"));
    assert_eq!(field_status(&m, LogKind::Outbound).as_deref(), Some("delivered"));
    assert_eq!(field_time(&m).as_deref(), Some("2023-11-14 22:13:20"));
    let mut shown = Vec::new();
    assert_eq!(field_unix_secs(&m, &mut shown), Some(1_700_000_000));
    assert_eq!(shown, vec!["date".to_string()]);
    assert_eq!(format_time_value(&num(0)), None);
    assert_eq!(format_time_value(&s("")), None);
}

#[test]
fn plausible_numeric_field_is_a_time() {
    let m = obj(vec![("weird", num(1_700_000_000_000))]);
    assert_eq!(field_time(&m).as_deref(), Some("2023-11-14 22:13:20"));
    let mut shown = Vec::new();
    assert_eq!(field_unix_secs(&m, &mut shown), Some(1_700_000_000));
    assert_eq!(shown, vec!["weird".to_string()]);
}

#[test]
fn entry_ids() {
    assert_eq!(entry_id(&obj(vec![("uid", s("u1")), ("id", num(5))]), "{}"), "u1");
    assert_eq!(entry_id(&obj(vec![("id", num(5))]), "{}"), "5");
    let h = entry_id(&obj(vec![("x", num(5))]), "{\"x\":5}");
    assert!(h.starts_with('h') && h.len() >= 2);
    assert_eq!(h, entry_id(&obj(vec![("x", num(5))]), "{\"x\":5}"));
    let mut hasher = std::collections::hash_map::DefaultHasher::new();
    std::hash::Hash::hash("{\"x\":5}", &mut hasher);
    assert_eq!(h, format!("h{:x}", std::hash::Hasher::finish(&hasher)));
    assert_ne!(h, entry_id(&obj(vec![("x", num(6))]), "{\"x\":6}"));
    assert_eq!(entry_id(&obj(vec![("id", Json::Bool(true)), ("message_id", s("m"))]), "{}"), "m");
}

#[test]
fn row_of_an_entry() {
    let raw = Json::Object(obj(vec![
        ("from", s("sender@example.com")),
        ("to", s("rcpt@example.com")),
        ("subject", s("Hello")),
        ("status", s("delivered")),
        ("timestamp", num(1_700_000_000)),
    ]));
    let row = render_entry_row(&raw, LogKind::Inbound);
    assert_eq!(row.when, "2023-11-14 22:13:20");
    let (st, color) = row.status.unwrap();
    assert_eq!(st, "delivered     ");
    assert_eq!(color, StatusColor::Good);
    assert_eq!(row.from.as_deref(), Some("sender@example.com"));
    assert_eq!(row.subject.as_deref(), Some("Hello"));
    let blank = render_entry_row(&num(1), LogKind::Inbound);
    assert_eq!(blank.when, "—");
    assert!(blank.status.is_none());
}

#[test]
fn detail_lines_of_an_entry() {
    let now = 1_700_000_100;
    let raw = Json::Object(obj(vec![
        ("status", s("soft_bounce")),
        ("timestamp", num(1_700_000_000)),
        ("uid", s("abc")),
        ("from", s("a@x.io")),
        ("message_id", s("<m1@x>")),
        ("opens", Json::Array(vec![
            Json::Object(obj(vec![("date", num(1_700_000_000)), ("country", s("NL"))])),
            Json::Object(obj(vec![("date", num(1_700_000_050)), ("ip", s("1.2.3.4"))])),
        ])),
        ("complaints", num(0)),
        ("zzz", Json::Bool(true)),
        ("aaa", s("v")),
        ("empty", s("")),
    ]));
    let lines = build_entry_lines(&raw, LogKind::Inbound, now).unwrap();
    match &lines[1] {
        DetailLine::Banner(t, c) => {
            assert_eq!(t, "SOFT BOUNCE");
            assert_eq!(*c, StatusColor::Warn);
        },
        _ => panic!("banner expected"),
    }
    match &lines[2] {
        DetailLine::Subtext(when, uid) => {
            assert_eq!(when.as_deref(), Some("1 minute ago"));
            assert_eq!(uid.as_deref(), Some("uid abc"));
        },
        _ => panic!("subtext expected"),
    }
    match &lines[4] {
        DetailLine::Prop(l, v, _) => {
            assert_eq!(l, "From     ");
            assert_eq!(v, "a@x.io");
        },
        _ => panic!("from line expected"),
    }
    let heads: Vec<String> = lines.iter().filter_map(|l| match l {
        DetailLine::Heading(t) => Some(t.clone()),
        _ => None,
    }).collect();
    assert_eq!(heads, vec!["Message".to_string(), "Engagement".to_string(), "Other".to_string()]);
    let events: Vec<Option<String>> = lines.iter().filter_map(|l| match l {
        DetailLine::Event(d, _, _) => Some(d.clone()),
        _ => None,
    }).collect();
    assert_eq!(events, vec![Some(format_unix(1_700_000_050)), Some(format_unix(1_700_000_000))]);
    let others: Vec<String> = lines.iter().filter_map(|l| match l {
        DetailLine::OtherBool(k, _) | DetailLine::OtherText(k, _) => Some(k.trim_end().to_string()),
        _ => None,
    }).collect();
    assert_eq!(others, vec!["aaa".to_string(), "zzz".to_string()]);
    assert!(build_entry_lines(&num(3), LogKind::Inbound, now).is_none());
}

fn record(id: &str) -> LogRecord {
    let fields = obj(vec![("uid", s(id))]);
    LogRecord { fields, text: format!("{{\"uid\":\"{id}\"}}") }
}

#[test]
fn history_is_never_shown_and_new_entries_go_on_top() {
    let mut app = App::new(LogKind::Outbound, &TailOpts { poll_secs: 5, buffer: 10 });
    app.ingest(vec![record("old1"), record("old2")]);
    assert_eq!(app.entries.len(), 0);
    app.ingest(vec![record("old1"), record("n1")]);
    assert_eq!(app.entries.len(), 1);
    assert_eq!(app.entries[0].id, "n1");
    app.ingest(vec![record("n2"), record("n1")]);
    assert_eq!(app.entries.len(), 2);
    assert_eq!(app.entries[0].id, "n2");
    assert_eq!(app.entries[1].id, "n1");
}

#[test]
fn buffer_caps_entries() {
    let mut app = App::new(LogKind::Inbound, &TailOpts { poll_secs: 5, buffer: 2 });
    app.ingest(vec![]);
    app.ingest(vec![record("a"), record("b"), record("c")]);
    assert_eq!(app.entries.len(), 2);
    assert_eq!(app.entries[0].id, "c");
}

#[test]
fn keys_move_and_quit() {
    let mut app = App::new(LogKind::Inbound, &TailOpts { poll_secs: 5, buffer: 10 });
    app.ingest(vec![]);
    app.ingest(vec![record("a"), record("b"), record("c")]);
    assert_eq!(app.selected, Some(0));
    assert!(!app.handle_key(KeyInput::Down, false));
    assert_eq!(app.selected, Some(1));
    assert!(!app.handle_key(KeyInput::End, false));
    assert_eq!(app.selected, Some(2));
    assert!(app.handle_key(KeyInput::Char('q'), false));
}

#[test]
fn nested_values_inline_or_as_a_block() {
    assert!(matches!(json_shape("[1,2]", "[\n  1,\n  2\n]"), JsonShape::Inline(ref t) if t == "[1,2]"));
    let long = "x".repeat(161);
    match json_shape(&long, "{\n  \"a\": 1\n}") {
        JsonShape::Block(rows) => {
            assert_eq!(rows.len(), 3);
            assert_eq!(rows[1], format!("{}  \"a\": 1", " ".repeat(20)));
        },
        JsonShape::Inline(_) => panic!("block expected"),
    }
    assert_eq!(raw_lines("a\r\nb\n"), vec!["a".to_string(), "b".to_string()]);
}
