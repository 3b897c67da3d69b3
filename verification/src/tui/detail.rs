//! What the log tail reads out of a log object: where the entries of a
//! response are, which members give its time, status, sender, recipient and
//! subject, and how a status is colored.

use vstd::prelude::*;

use crate::json::{first_array_index, first_array_member, nested_array_index, nested_array_member, obj_get, obj_get_spec, Json};
use crate::text::{ascii_upper, ascii_upper_chars, chars_of, contains_chars, contains_seq, owned, parse_i64, parse_i64_spec, same_text};
use crate::tui::logs::{format_time_string, format_time_string_spec, format_unix, format_unix_spec, LogKind};

verus! {

/// The members whose array holds the entries of a response.
pub open spec fn entry_keys() -> Seq<Seq<char>> {
    seq!["result"@, "results"@, "data"@, "items"@, "logs"@, "rows"@, "entries"@, "records"@]
}

/// The members searched for an object that holds the entries one level down.
pub open spec fn nested_entry_outer() -> Seq<Seq<char>> {
    seq!["result"@, "data"@]
}

/// The members of that object whose array holds the entries.
pub open spec fn nested_entry_inner() -> Seq<Seq<char>> {
    seq!["items"@, "logs"@, "rows"@, "results"@, "entries"@]
}

/// The objects among `a`, in order; other values are dropped.
pub open spec fn objects_of(a: Seq<Json>) -> Seq<Vec<(String, Json)>>
    decreases a.len(),
{
    if a.len() == 0 {
        Seq::empty()
    } else {
        (match a[0] {
            Json::Object(m) => seq![m],
            _ => Seq::empty(),
        }) + objects_of(a.drop_first())
    }
}

/// The log objects of a response: the objects of an array; in an object, the
/// objects of the array under the first of `entry_keys` that holds one, else
/// of the array one level down under `result`/`data`, else the object itself;
/// nothing for any other value.
pub open spec fn entries_spec(v: Json) -> Seq<Vec<(String, Json)>> {
    match v {
        Json::Array(a) => objects_of(a@),
        Json::Object(m) => match first_array_member(m@, entry_keys()) {
            Some(a) => objects_of(a),
            None => match nested_array_member(m@, nested_entry_outer(), nested_entry_inner()) {
                Some(a) => objects_of(a),
                None => seq![m],
            },
        },
        _ => Seq::empty(),
    }
}

/// The objects of `a`, in order.
fn objects_in(a: Vec<Json>) -> (r: Vec<Vec<(String, Json)>>)
    ensures
        r@ == objects_of(a@),
{
    let ghost a0 = a@;
    let mut a = a;
    let mut out: Vec<Vec<(String, Json)>> = Vec::new();
    proof {
        assert(out@ + objects_of(a@) =~= objects_of(a0));
    }
    while a.len() > 0
        invariant
            objects_of(a0) == out@ + objects_of(a@),
        decreases a@.len(),
    {
        let ghost before = a@;
        let x = a.remove(0);
        proof {
            assert(a@ =~= before.drop_first());
        }
        match x {
            Json::Object(m) => {
                out.push(m);
            },
            _ => {},
        }
        proof {
            assert(out@ + objects_of(a@) =~= objects_of(a0));
        }
    }
    out
}

/// The log objects of a response (see `entries_spec`).
pub fn entries_from_response(v: Json) -> (r: Vec<Vec<(String, Json)>>)
    ensures
        r@ == entries_spec(v),
{
    match v {
        Json::Array(a) => objects_in(a),
        Json::Object(m) => {
            let mut m = m;
            let top: [&str; 8] = ["result", "results", "data", "items", "logs", "rows", "entries", "records"];
            let outer: [&str; 2] = ["result", "data"];
            let inner: [&str; 5] = ["items", "logs", "rows", "results", "entries"];
            proof {
                assert(top@.map_values(|s: &str| s@) =~= entry_keys());
                assert(outer@.map_values(|s: &str| s@) =~= nested_entry_outer());
                assert(inner@.map_values(|s: &str| s@) =~= nested_entry_inner());
            }
            if let Some(j) = first_array_index(&m, &top) {
                let (_, val) = m.remove(j);
                if let Json::Array(a) = val {
                    return objects_in(a);
                }
                return Vec::new();
            }
            if let Some((j, k)) = nested_array_index(&m, &outer, &inner) {
                let (_, val) = m.remove(j);
                if let Json::Object(mut o) = val {
                    let (_, inner_val) = o.remove(k);
                    if let Json::Array(a) = inner_val {
                        return objects_in(a);
                    }
                }
                return Vec::new();
            }
            let mut out: Vec<Vec<(String, Json)>> = Vec::new();
            out.push(m);
            out
        },
        _ => Vec::new(),
    }
}

/// The members tried, in order, for an entry's time.
pub open spec fn time_keys() -> Seq<Seq<char>> {
    seq![
        "last_updated"@, "lastUpdated"@, "start_time"@, "startTime"@, "date"@, "timestamp"@, "time"@,
        "created_at"@, "createdAt"@, "received_at"@, "receivedAt"@, "sent_at"@, "sentAt"@,
        "delivered_at"@, "deliveredAt"@, "logged_at"@, "loggedAt"@, "event_time"@, "eventTime"@,
        "event_at"@, "eventAt"@, "ts"@, "dt"@, "at"@, "when"@
    ]
}

/// The members tried, in order, for an outbound entry's status.
pub open spec fn status_keys_outbound() -> Seq<Seq<char>> {
    seq![
        "delivery_status"@, "deliveryStatus"@, "final_status"@, "finalStatus"@, "action"@, "status"@,
        "state"@, "result"@, "outcome"@, "event"@, "disposition"@, "logtype"@, "type"@
    ]
}

/// The members tried, in order, for an inbound or account entry's status.
pub open spec fn status_keys_inbound() -> Seq<Seq<char>> {
    seq![
        "logtype"@, "status"@, "delivery_status"@, "deliveryStatus"@, "state"@, "action"@, "result"@,
        "event"@, "type"@, "disposition"@
    ]
}

/// The members tried, in order, for an entry's sender.
pub open spec fn from_keys() -> Seq<Seq<char>> {
    seq![
        "from_address"@, "fromAddress"@, "from"@, "sender"@, "src"@, "src_address"@, "srcAddress"@,
        "mail_from"@, "mailFrom"@, "header_from"@, "headerFrom"@
    ]
}

/// The members tried, in order, for an entry's recipient.
pub open spec fn to_keys() -> Seq<Seq<char>> {
    seq!["to_address"@, "toAddress"@, "to"@, "recipient"@, "rcpt"@, "rcpt_to"@, "rcptTo"@, "dest"@, "destination"@]
}

/// The members tried, in order, for an entry's subject.
pub open spec fn subject_keys() -> Seq<Seq<char>> {
    seq!["subject"@, "subj"@]
}

pub open spec fn key_texts(keys: Seq<&str>) -> Seq<Seq<char>> {
    keys.map_values(|s: &str| s@)
}

pub fn time_key_list() -> (r: [&'static str; 25])
    ensures
        key_texts(r@) == time_keys(),
{
    let r = [
        "last_updated", "lastUpdated", "start_time", "startTime", "date", "timestamp", "time",
        "created_at", "createdAt", "received_at", "receivedAt", "sent_at", "sentAt",
        "delivered_at", "deliveredAt", "logged_at", "loggedAt", "event_time", "eventTime",
        "event_at", "eventAt", "ts", "dt", "at", "when",
    ];
    proof {
        assert(key_texts(r@) =~= time_keys());
    }
    r
}

pub fn status_key_list(kind: LogKind) -> (r: Vec<&'static str>)
    ensures
        key_texts(r@) == status_keys(kind),
{
    match kind {
        LogKind::Outbound => {
            let r = vec![
                "delivery_status", "deliveryStatus", "final_status", "finalStatus", "action", "status",
                "state", "result", "outcome", "event", "disposition", "logtype", "type",
            ];
            proof {
                assert(key_texts(r@) =~= status_keys(kind));
            }
            r
        },
        _ => {
            let r = vec![
                "logtype", "status", "delivery_status", "deliveryStatus", "state", "action", "result",
                "event", "type", "disposition",
            ];
            proof {
                assert(key_texts(r@) =~= status_keys(kind));
            }
            r
        },
    }
}

pub fn from_key_list() -> (r: [&'static str; 11])
    ensures
        key_texts(r@) == from_keys(),
{
    let r = [
        "from_address", "fromAddress", "from", "sender", "src", "src_address", "srcAddress",
        "mail_from", "mailFrom", "header_from", "headerFrom",
    ];
    proof {
        assert(key_texts(r@) =~= from_keys());
    }
    r
}

pub fn to_key_list() -> (r: [&'static str; 9])
    ensures
        key_texts(r@) == to_keys(),
{
    let r = ["to_address", "toAddress", "to", "recipient", "rcpt", "rcpt_to", "rcptTo", "dest", "destination"];
    proof {
        assert(key_texts(r@) =~= to_keys());
    }
    r
}

pub fn subject_key_list() -> (r: [&'static str; 2])
    ensures
        key_texts(r@) == subject_keys(),
{
    let r = ["subject", "subj"];
    proof {
        assert(key_texts(r@) =~= subject_keys());
    }
    r
}

/// The status members for a log kind.
pub open spec fn status_keys(kind: LogKind) -> Seq<Seq<char>> {
    match kind {
        LogKind::Outbound => status_keys_outbound(),
        _ => status_keys_inbound(),
    }
}

/// The text a member shows as a field: a non-empty string, or a number as
/// printed.
pub open spec fn scalar_text(v: Json) -> Option<Seq<char>> {
    match v {
        Json::Str(s) => if s@.len() > 0 { Some(s@) } else { None },
        Json::Number(n) => Some(n.text@),
        _ => None,
    }
}

/// The first of `keys` whose member shows as a field, with its text.
pub open spec fn first_scalar(m: Seq<(String, Json)>, keys: Seq<Seq<char>>) -> Option<(Seq<char>, Seq<char>)>
    decreases keys.len(),
{
    if keys.len() == 0 {
        None
    } else if obj_get_spec(m, keys[0]) is Some && scalar_text(obj_get_spec(m, keys[0])->0) is Some {
        Some((keys[0], scalar_text(obj_get_spec(m, keys[0])->0)->0))
    } else {
        first_scalar(m, keys.drop_first())
    }
}

/// The text of the member shown as a field, if it is one.
fn scalar_of(v: &Json) -> (r: Option<String>)
    ensures
        crate::text::opt_text(r) == scalar_text(*v),
{
    match v {
        Json::Str(s) => if s.as_str().is_empty() {
            None
        } else {
            Some(s.clone())
        },
        Json::Number(n) => Some(n.text.clone()),
        _ => None,
    }
}

/// The first of `keys` whose member is a non-empty string or a number: the
/// key and the member's text.
pub fn field_str_with_key(m: &Vec<(String, Json)>, keys: &[&str]) -> (r: Option<(String, String)>)
    ensures
        match r {
            Some((k, v)) => first_scalar(m@, key_texts(keys@)) == Some((k@, v@)),
            None => first_scalar(m@, key_texts(keys@)) is None,
        },
{
    let ghost ks = key_texts(keys@);
    let mut i: usize = 0;
    proof {
        assert(ks.skip(0) =~= ks);
    }
    while i < keys.len()
        invariant
            i <= keys@.len(),
            ks == key_texts(keys@),
            first_scalar(m@, ks) == first_scalar(m@, ks.skip(i as int)),
        decreases keys@.len() - i,
    {
        proof {
            assert(ks.skip(i as int).drop_first() =~= ks.skip(i + 1));
            assert(ks.skip(i as int)[0] == keys@[i as int]@);
        }
        if let Some(v) = obj_get(m, keys[i]) {
            if let Some(t) = scalar_of(v) {
                return Some((owned(keys[i]), t));
            }
        }
        i = i + 1;
    }
    proof {
        assert(ks.skip(keys@.len() as int) =~= Seq::<Seq<char>>::empty());
    }
    None
}

/// The text of the first of `keys` whose member is a non-empty string or a
/// number.
pub fn field_str(m: &Vec<(String, Json)>, keys: &[&str]) -> (r: Option<String>)
    ensures
        match first_scalar(m@, key_texts(keys@)) {
            Some((_, v)) => r is Some && r->0@ == v,
            None => r is None,
        },
{
    match field_str_with_key(m, keys) {
        Some((_, v)) => Some(v),
        None => None,
    }
}

/// The status of an entry of the given kind.
pub fn field_status(m: &Vec<(String, Json)>, kind: LogKind) -> (r: Option<String>)
    ensures
        match first_scalar(m@, status_keys(kind)) {
            Some((_, v)) => r is Some && r->0@ == v,
            None => r is None,
        },
{
    let keys = status_key_list(kind);
    field_str(m, keys.as_slice())
}

/// How a member reads as a time: a non-empty string as `format_time_string`
/// gives it; a positive integer, or a positive non-integer number by its
/// integer part, as a Unix time.
pub open spec fn time_value_spec(v: Json) -> Option<Seq<char>> {
    match v {
        Json::Str(s) => if s@.len() == 0 { None } else { Some(format_time_string_spec(s@)) },
        Json::Number(n) => match n.as_i64 {
            Some(i) => if i <= 0 { None } else { Some(format_unix_spec(i as int)) },
            None => if n.float_positive { Some(format_unix_spec(n.float_trunc as int)) } else { None },
        },
        _ => None,
    }
}

/// Formats a member as a time (see `time_value_spec`).
pub fn format_time_value(v: &Json) -> (r: Option<String>)
    ensures
        crate::text::opt_text(r) == time_value_spec(*v),
{
    match v {
        Json::Str(s) => if s.as_str().is_empty() {
            None
        } else {
            Some(format_time_string(s.as_str()))
        },
        Json::Number(n) => match n.as_i64 {
            Some(i) => if i <= 0 {
                None
            } else {
                Some(format_unix(i))
            },
            None => if n.float_positive {
                Some(format_unix(n.float_trunc))
            } else {
                None
            },
        },
        _ => None,
    }
}

/// An integer that reads as a Unix time in seconds (2001 to 2096) or in
/// milliseconds over the same years.
pub open spec fn plausible_unix(n: int) -> bool {
    (1_000_000_000 <= n < 4_000_000_000) || (1_000_000_000_000 <= n < 4_000_000_000_000)
}

/// The first of `keys` whose member reads as a time.
pub open spec fn first_time(m: Seq<(String, Json)>, keys: Seq<Seq<char>>) -> Option<(Seq<char>, Seq<char>)>
    decreases keys.len(),
{
    if keys.len() == 0 {
        None
    } else if obj_get_spec(m, keys[0]) is Some && time_value_spec(obj_get_spec(m, keys[0])->0) is Some {
        Some((keys[0], time_value_spec(obj_get_spec(m, keys[0])->0)->0))
    } else {
        first_time(m, keys.drop_first())
    }
}

/// A member holding an integer that reads as a Unix time.
pub open spec fn plausible_member(x: (String, Json)) -> bool {
    x.1 matches Json::Number(n) && (n.as_i64 is Some && plausible_unix(n.as_i64->0 as int))
}

/// The first member, in order, that satisfies `plausible_member`.
pub open spec fn first_plausible(m: Seq<(String, Json)>) -> Option<int>
    decreases m.len(),
{
    if m.len() == 0 {
        None
    } else if plausible_member(m[0]) {
        Some(0)
    } else {
        match first_plausible(m.drop_first()) {
            Some(i) => Some(i + 1),
            None => None,
        }
    }
}

/// An entry's time, with the member it came from: the first of `time_keys`
/// that reads as a time, else the first member holding an integer that reads
/// as a Unix time.
pub open spec fn time_with_key_spec(m: Seq<(String, Json)>) -> Option<(Seq<char>, Seq<char>)> {
    match first_time(m, time_keys()) {
        Some(x) => Some(x),
        None => match first_plausible(m) {
            Some(i) => match time_value_spec(m[i].1) {
                Some(t) => Some((m[i].0@, t)),
                None => None,
            },
            None => None,
        },
    }
}

/// Position of the member `first_plausible` finds.
fn find_plausible(m: &Vec<(String, Json)>) -> (r: Option<usize>)
    ensures
        match r {
            Some(i) => first_plausible(m@) == Some(i as int) && i < m@.len(),
            None => first_plausible(m@) is None,
        },
{
    let mut i: usize = 0;
    proof {
        assert(m@.skip(0) =~= m@);
    }
    while i < m.len()
        invariant
            i <= m@.len(),
            forall|j: int| #![trigger m@[j]] 0 <= j < i ==> !plausible_member(m@[j]),
            first_plausible(m@) == match first_plausible(m@.skip(i as int)) {
                Some(k) => Some(k + i),
                None => None::<int>,
            },
        decreases m@.len() - i,
    {
        proof {
            assert(m@.skip(i as int).drop_first() =~= m@.skip(i + 1));
            assert(m@.skip(i as int)[0] == m@[i as int]);
        }
        let hit = match &m[i].1 {
            Json::Number(n) => match n.as_i64 {
                Some(x) => (1_000_000_000 <= x && x < 4_000_000_000) || (1_000_000_000_000 <= x && x < 4_000_000_000_000),
                None => false,
            },
            _ => false,
        };
        if hit {
            return Some(i);
        }
        i = i + 1;
    }
    None
}

/// An entry's time and the member it came from (see `time_with_key_spec`).
pub fn field_time_with_key(m: &Vec<(String, Json)>) -> (r: Option<(String, String)>)
    ensures
        match r {
            Some((k, t)) => time_with_key_spec(m@) == Some((k@, t@)),
            None => time_with_key_spec(m@) is None,
        },
{
    let keys = time_key_list();
    let ghost ks = time_keys();
    let mut i: usize = 0;
    proof {
        assert(ks.skip(0) =~= ks);
    }
    while i < 25
        invariant
            i <= 25,
            ks == time_keys(),
            key_texts(keys@) == ks,
            first_time(m@, ks) == first_time(m@, ks.skip(i as int)),
        decreases 25 - i,
    {
        proof {
            assert(ks.skip(i as int).drop_first() =~= ks.skip(i + 1));
            assert(ks.skip(i as int)[0] == keys@[i as int]@);
        }
        if let Some(v) = obj_get(m, keys[i]) {
            if let Some(t) = format_time_value(v) {
                return Some((owned(keys[i]), t));
            }
        }
        i = i + 1;
    }
    proof {
        assert(ks.skip(25) =~= Seq::<Seq<char>>::empty());
    }
    match find_plausible(m) {
        Some(j) => match format_time_value(&m[j].1) {
            Some(t) => Some((m[j].0.clone(), t)),
            None => None,
        },
        None => None,
    }
}

/// An entry's time as shown (see `time_with_key_spec`).
pub fn field_time(m: &Vec<(String, Json)>) -> (r: Option<String>)
    ensures
        match time_with_key_spec(m@) {
            Some((_, t)) => r is Some && r->0@ == t,
            None => r is None,
        },
{
    match field_time_with_key(m) {
        Some((_, t)) => Some(t),
        None => None,
    }
}


/// The color class of a status.
#[derive(Debug, Clone, Copy, PartialEq, Eq, Structural)]
pub enum StatusColor {
    Good,
    Bad,
    Warn,
    Spam,
    Info,
    Drop,
    Other,
}

/// A status's color class, by words in its ASCII-uppercased text, the more
/// specific checked first: delivered or accepted is good; hard failures and
/// rejections bad; soft failures and deferrals a warning; a bounce bad; spam
/// and blocks spam; queued or pending informational; a drop its own; anything
/// else other.
pub open spec fn status_color_spec(s: Seq<char>) -> StatusColor {
    let up = ascii_upper(s);
    if contains_seq(up, "DELIVER"@) || contains_seq(up, "ACCEPT"@) || contains_seq(up, "SENT"@)
        || contains_seq(up, "SUCCESS"@) || contains_seq(up, "COMPLETE"@) || contains_seq(up, "PASSED"@)
        || up == "OK"@ || up == "DONE"@ {
        StatusColor::Good
    } else if contains_seq(up, "HARD"@) || contains_seq(up, "REJECT"@) || contains_seq(up, "VIRUS"@)
        || contains_seq(up, "FAIL"@) {
        StatusColor::Bad
    } else if contains_seq(up, "SOFT"@) || contains_seq(up, "DEFER"@) || contains_seq(up, "RETRY"@) {
        StatusColor::Warn
    } else if contains_seq(up, "BOUNCE"@) {
        StatusColor::Bad
    } else if contains_seq(up, "SPAM"@) || contains_seq(up, "BLOCK"@) || contains_seq(up, "COMPLAINT"@) {
        StatusColor::Spam
    } else if contains_seq(up, "QUEUE"@) || contains_seq(up, "PENDING"@) || contains_seq(up, "WAIT"@) {
        StatusColor::Info
    } else if contains_seq(up, "DROP"@) {
        StatusColor::Drop
    } else {
        StatusColor::Other
    }
}

/// Whether `word` occurs in `up`.
fn has(up: &Vec<char>, word: &str) -> (r: bool)
    ensures
        r == contains_seq(up@, word@),
{
    let w = chars_of(word);
    contains_chars(up, &w)
}

/// The color class of a status (see `status_color_spec`).
pub fn status_color(s: &str) -> (r: StatusColor)
    ensures
        r == status_color_spec(s@),
{
    let up = ascii_upper_chars(s);
    let ok = chars_of("OK");
    let done = chars_of("DONE");
    if has(&up, "DELIVER") || has(&up, "ACCEPT") || has(&up, "SENT") || has(&up, "SUCCESS")
        || has(&up, "COMPLETE") || has(&up, "PASSED") || same_text(&up, &ok) || same_text(&up, &done) {
        StatusColor::Good
    } else if has(&up, "HARD") || has(&up, "REJECT") || has(&up, "VIRUS") || has(&up, "FAIL") {
        StatusColor::Bad
    } else if has(&up, "SOFT") || has(&up, "DEFER") || has(&up, "RETRY") {
        StatusColor::Warn
    } else if has(&up, "BOUNCE") {
        StatusColor::Bad
    } else if has(&up, "SPAM") || has(&up, "BLOCK") || has(&up, "COMPLAINT") {
        StatusColor::Spam
    } else if has(&up, "QUEUE") || has(&up, "PENDING") || has(&up, "WAIT") {
        StatusColor::Info
    } else if has(&up, "DROP") {
        StatusColor::Drop
    } else {
        StatusColor::Other
    }
}

/// A member read as Unix seconds: an integer, the integer part of another
/// number, or a string that parses as an integer; only positive values
/// count, and one above 10^10 is taken as milliseconds.
pub open spec fn secs_value(v: Json) -> Option<i64> {
    let raw: Option<i64> = match v {
        Json::Number(n) => Some(
            match n.as_i64 {
                Some(i) => i,
                None => n.float_trunc,
            },
        ),
        Json::Str(s) => parse_i64_spec(s@),
        _ => None,
    };
    match raw {
        Some(x) => if x <= 0 {
            None
        } else if x > 10_000_000_000 {
            Some((x / 1000) as i64)
        } else {
            Some(x)
        },
        None => None,
    }
}

/// Reads a member as Unix seconds (see `secs_value`).
fn secs_of(v: &Json) -> (r: Option<i64>)
    ensures
        r == secs_value(*v),
{
    let raw: Option<i64> = match v {
        Json::Number(n) => Some(
            match n.as_i64 {
                Some(i) => i,
                None => n.float_trunc,
            },
        ),
        Json::Str(s) => parse_i64(s.as_str()),
        _ => None,
    };
    match raw {
        Some(x) => if x <= 0 {
            None
        } else if x > 10_000_000_000 {
            Some(x / 1000)
        } else {
            Some(x)
        },
        None => None,
    }
}

/// The first of `keys` whose member reads as Unix seconds.
pub open spec fn first_secs(m: Seq<(String, Json)>, keys: Seq<Seq<char>>) -> Option<(Seq<char>, i64)>
    decreases keys.len(),
{
    if keys.len() == 0 {
        None
    } else if obj_get_spec(m, keys[0]) is Some && secs_value(obj_get_spec(m, keys[0])->0) is Some {
        Some((keys[0], secs_value(obj_get_spec(m, keys[0])->0)->0))
    } else {
        first_secs(m, keys.drop_first())
    }
}

/// A numeric member that reads as Unix seconds in a plausible range.
pub open spec fn plausible_secs_member(x: (String, Json)) -> bool {
    x.1 is Number && secs_value(x.1) is Some && plausible_unix(secs_value(x.1)->0 as int)
}

/// The first member, in order, that satisfies `plausible_secs_member`.
pub open spec fn first_plausible_secs(m: Seq<(String, Json)>) -> Option<int>
    decreases m.len(),
{
    if m.len() == 0 {
        None
    } else if plausible_secs_member(m[0]) {
        Some(0)
    } else {
        match first_plausible_secs(m.drop_first()) {
            Some(i) => Some(i + 1),
            None => None,
        }
    }
}

/// An entry's time in Unix seconds and the member it came from: the first of
/// `time_keys` that reads as seconds, else the first numeric member whose
/// seconds fall in a plausible range (scaled down once more when still above
/// 10^10).
pub open spec fn unix_secs_spec(m: Seq<(String, Json)>) -> Option<(Seq<char>, i64)> {
    match first_secs(m, time_keys()) {
        Some(x) => Some(x),
        None => match first_plausible_secs(m) {
            Some(i) => {
                let n = secs_value(m[i].1)->0;
                Some((m[i].0@, if n > 10_000_000_000 { (n / 1000) as i64 } else { n }))
            },
            None => None,
        },
    }
}

/// The texts of a list of strings.
pub open spec fn texts(v: Seq<String>) -> Seq<Seq<char>> {
    v.map_values(|s: String| s@)
}

/// The member `first_plausible_secs` finds satisfies the test.
proof fn lemma_first_plausible_secs(m: Seq<(String, Json)>)
    ensures
        first_plausible_secs(m) matches Some(i) ==> 0 <= i < m.len() && plausible_secs_member(m[i]),
    decreases m.len(),
{
    if m.len() > 0 && !plausible_secs_member(m[0]) {
        lemma_first_plausible_secs(m.drop_first());
    }
}

/// Position of the member `first_plausible_secs` finds.
fn find_plausible_secs(m: &Vec<(String, Json)>) -> (r: Option<usize>)
    ensures
        match r {
            Some(i) => first_plausible_secs(m@) == Some(i as int) && i < m@.len(),
            None => first_plausible_secs(m@) is None,
        },
{
    let mut i: usize = 0;
    proof {
        assert(m@.skip(0) =~= m@);
    }
    while i < m.len()
        invariant
            i <= m@.len(),
            first_plausible_secs(m@) == match first_plausible_secs(m@.skip(i as int)) {
                Some(k) => Some(k + i),
                None => None::<int>,
            },
        decreases m@.len() - i,
    {
        proof {
            assert(m@.skip(i as int).drop_first() =~= m@.skip(i + 1));
            assert(m@.skip(i as int)[0] == m@[i as int]);
        }
        if let Json::Number(_) = &m[i].1 {
            if let Some(n) = secs_of(&m[i].1) {
                if (1_000_000_000 <= n && n < 4_000_000_000) || (1_000_000_000_000 <= n && n < 4_000_000_000_000) {
                    return Some(i);
                }
            }
        }
        i = i + 1;
    }
    None
}

/// An entry's time in Unix seconds (see `unix_secs_spec`); the member it came
/// from is added to `shown`.
pub fn field_unix_secs(m: &Vec<(String, Json)>, shown: &mut Vec<String>) -> (r: Option<i64>)
    ensures
        match unix_secs_spec(m@) {
            Some((k, n)) => r == Some(n) && texts(final(shown)@) == texts(old(shown)@).push(k),
            None => r is None && final(shown)@ == old(shown)@,
        },
{
    let keys = time_key_list();
    let ghost ks = time_keys();
    let mut i: usize = 0;
    proof {
        assert(ks.skip(0) =~= ks);
    }
    while i < 25
        invariant
            i <= 25,
            ks == time_keys(),
            key_texts(keys@) == ks,
            first_secs(m@, ks) == first_secs(m@, ks.skip(i as int)),
            shown@ == old(shown)@,
        decreases 25 - i,
    {
        proof {
            assert(ks.skip(i as int).drop_first() =~= ks.skip(i + 1));
            assert(ks.skip(i as int)[0] == keys@[i as int]@);
        }
        if let Some(v) = obj_get(m, keys[i]) {
            if let Some(n) = secs_of(v) {
                shown.push(owned(keys[i]));
                proof {
                    assert(texts(shown@) =~= texts(old(shown)@).push(keys@[i as int]@));
                }
                return Some(n);
            }
        }
        i = i + 1;
    }
    proof {
        assert(ks.skip(25) =~= Seq::<Seq<char>>::empty());
        assert(first_secs(m@, ks) is None);
    }
    match find_plausible_secs(m) {
        Some(j) => {
            proof {
                lemma_first_plausible_secs(m@);
            }
            let n = match secs_of(&m[j].1) {
                Some(n) => n,
                None => 0,
            };
            shown.push(m[j].0.clone());
            proof {
                assert(texts(shown@) =~= texts(old(shown)@).push(m@[j as int].0@));
            }
            Some(if n > 10_000_000_000 { n / 1000 } else { n })
        },
        None => None,
    }
}

} // verus!
