//! Sending email: the request body built from the flags, the checks on
//! custom headers, the batch payload, and the summary printed after a send.

use vstd::prelude::*;

use crate::client::{request_view, ApiRequest, Auth, BodyV, HttpMethod, RequestBody};
use crate::error::CliError;
use crate::json::{keys_distinct, insert_all, insert_opt, insert_vec, merge, obj_get, obj_get_spec, obj_insert, obj_view, string_array, vec_to_array, Json, JsonV};
use crate::text::{chars_of, index_of, owned, push_str, split_chars, split_on, string_of, subvec, trim_chars, trim_spec};
use crate::commands::util::{all_headers, first_bad_header, header_error_message, headers_map, parse_name_values, texts_of};

verus! {

/// Reads the `--header Name: Value` flags into the headers object; the first
/// one without a `:` is an error.
pub fn parse_headers(headers: &Vec<String>) -> (r: Result<Vec<(String, Json)>, CliError>)
    ensures
        all_headers(texts_of(headers@)) ==> (r matches Ok(m) && obj_view(m@) == headers_map(texts_of(headers@))
            && keys_distinct(m@)),
        !all_headers(texts_of(headers@)) ==> (r matches Err(e) && e.message@ == header_error_message(
            headers@[first_bad_header(texts_of(headers@))]@,
        )),
{
    parse_name_values(headers, true)
}

/// `email`.
pub struct Cmd {
    pub action: Action,
}

pub enum Action {
    /// POST /email.
    Send(SendArgs),
    /// POST /email-batch.
    Batch(BatchArgs),
}

/// The flags of a send.
pub struct SendArgs {
    pub from: Option<String>,
    pub to: Vec<String>,
    pub subject: Option<String>,
    pub html: Option<String>,
    pub text: Option<String>,
    pub cc: Vec<String>,
    pub bcc: Vec<String>,
    pub reply_to: Option<String>,
    pub headers: Vec<String>,
    pub attach: Vec<String>,
    pub eu: bool,
    pub scheduled_at: Option<String>,
    pub idempotency_key: Option<String>,
    pub body_json: Option<String>,
    pub field: Vec<String>,
}

/// The flags of a batch send.
pub struct BatchArgs {
    pub body_json: String,
    pub idempotency_key: Option<String>,
}

/// Which of sender, recipients and subject a send asks for: on a terminal,
/// each one not given (the sender only when `--body-json` has none either).
pub fn prompts_needed(args: &SendArgs, body_has_from: bool, interactive: bool) -> (r: (bool, bool, bool))
    ensures
        r == (
            args.from is None && !body_has_from && interactive,
            args.to@.len() == 0 && interactive,
            args.subject is None && interactive,
        ),
{
    (
        args.from.is_none() && !body_has_from && interactive,
        args.to.len() == 0 && interactive,
        args.subject.is_none() && interactive,
    )
}

/// What a send takes besides the JSON body sources: the resolved sender,
/// recipients and subject, the bodies read, and the remaining flags, with
/// the headers already read and the attachments already built.
pub struct SendFields {
    pub from: Option<String>,
    pub to: Vec<String>,
    pub subject: Option<String>,
    pub html: Option<String>,
    pub text: Option<String>,
    pub cc: Vec<String>,
    pub bcc: Vec<String>,
    pub reply_to: Option<String>,
    pub headers: Option<Vec<(String, Json)>>,
    pub attachments: Vec<Json>,
    pub eu: bool,
    pub scheduled_at: Option<String>,
}

/// Sets `k` to a string when one is given.
pub open spec fn opt_str(m: Map<Seq<char>, JsonV>, k: Seq<char>, v: Option<String>) -> Map<Seq<char>, JsonV> {
    match v {
        Some(s) => m.insert(k, JsonV::Str(s@)),
        None => m,
    }
}

/// Sets `k` to an array of strings when there is any.
pub open spec fn opt_array(m: Map<Seq<char>, JsonV>, k: Seq<char>, v: Seq<String>) -> Map<Seq<char>, JsonV> {
    if v.len() > 0 { m.insert(k, string_array(v)) } else { m }
}

/// The `to` member: one recipient as a string, several as an array.
pub open spec fn to_value(to: Seq<String>) -> JsonV {
    if to.len() == 1 { JsonV::Str(to[0]@) } else { string_array(to) }
}

/// The forms of a list of values.
pub open spec fn views_of(v: Seq<Json>) -> Seq<JsonV> {
    v.map_values(|j: Json| j.view_deep())
}

/// The request body of a send: the `--body-json` object, then the `--field`
/// flags, then each flag that is given, each later source winning: `from`,
/// `subject`, `to`, `html`, `text`, `cc`, `bcc`, `reply_to`, `headers`,
/// `attachments`, `eu` (only when set) and `scheduledAt`.
pub open spec fn send_body_spec(
    body_json: Option<Seq<(String, Json)>>,
    fields: Seq<(String, Json)>,
    f: SendFields,
) -> Map<Seq<char>, JsonV> {
    let m1 = match body_json {
        Some(b) => insert_all(Map::empty(), b),
        None => Map::empty(),
    };
    let m2 = insert_all(m1, fields);
    let m3 = opt_str(opt_str(m2, "from"@, f.from), "subject"@, f.subject);
    let m4 = if f.to@.len() > 0 { m3.insert("to"@, to_value(f.to@)) } else { m3 };
    let m5 = opt_str(opt_str(m4, "html"@, f.html), "text"@, f.text);
    let m6 = opt_str(opt_array(opt_array(m5, "cc"@, f.cc@), "bcc"@, f.bcc@), "reply_to"@, f.reply_to);
    let m7 = match f.headers {
        Some(h) => m6.insert("headers"@, JsonV::Object(Seq::new(h@.len(), |i: int| (h@[i].0@, h@[i].1.view_deep())))),
        None => m6,
    };
    let m8 = if f.attachments@.len() > 0 { m7.insert("attachments"@, JsonV::Array(views_of(f.attachments@))) } else { m7 };
    let m9 = if f.eu { m8.insert("eu"@, JsonV::Bool(true)) } else { m8 };
    opt_str(m9, "scheduledAt"@, f.scheduled_at)
}

/// Sets `k` to a string when one is given.
fn put_opt_str(body: &mut Vec<(String, Json)>, k: &str, v: Option<String>)
    ensures
        obj_view(final(body)@) == opt_str(obj_view(old(body)@), k@, v),
        keys_distinct(old(body)@) ==> keys_distinct(final(body)@),
{
    let ghost v0 = v;
    match v {
        Some(s) => {
            insert_opt(body, k, Some(Json::Str(s)));
        },
        None => {},
    }
}

/// The members of an optional object.
pub open spec fn opt_members(o: Option<Vec<(String, Json)>>) -> Option<Seq<(String, Json)>> {
    match o {
        Some(b) => Some(b@),
        None => None,
    }
}

/// Builds the request body of a send (see `send_body_spec`).
pub fn build_send_body(body_json: Option<Vec<(String, Json)>>, fields: Vec<(String, Json)>, f: SendFields) -> (r: Vec<(String, Json)>)
    ensures
        obj_view(r@) == send_body_spec(opt_members(body_json), fields@, f),
        keys_distinct(r@),
{
    let ghost f0 = f;
    let ghost bj = opt_members(body_json);
    let ghost fs = fields@;
    let mut body: Vec<(String, Json)> = Vec::new();
    proof {
        assert(obj_view(body@) == Map::<Seq<char>, JsonV>::empty());
    }
    if let Some(b) = body_json {
        merge(&mut body, b);
    }
    merge(&mut body, fields);
    let SendFields { from, to, subject, html, text, cc, bcc, reply_to, headers, attachments, eu, scheduled_at } = f;
    put_opt_str(&mut body, "from", from);
    put_opt_str(&mut body, "subject", subject);
    if to.len() > 0 {
        let v = if to.len() == 1 {
            Json::Str(to[0].clone())
        } else {
            vec_to_array(&to)
        };
        obj_insert(&mut body, owned("to"), v);
    }
    put_opt_str(&mut body, "html", html);
    put_opt_str(&mut body, "text", text);
    insert_vec(&mut body, "cc", &cc);
    insert_vec(&mut body, "bcc", &bcc);
    put_opt_str(&mut body, "reply_to", reply_to);
    if let Some(h) = headers {
        let ghost hv = h@;
        let j = Json::Object(h);
        proof {
            if let JsonV::Object(x) = j.view_deep() {
                assert(x =~= Seq::new(hv.len(), |i: int| (hv[i].0@, hv[i].1.view_deep())));
            }
        }
        obj_insert(&mut body, owned("headers"), j);
    }
    if attachments.len() > 0 {
        let ghost av = attachments@;
        let j = Json::Array(attachments);
        proof {
            if let JsonV::Array(x) = j.view_deep() {
                assert(x =~= views_of(av));
            }
        }
        obj_insert(&mut body, owned("attachments"), j);
    }
    if eu {
        obj_insert(&mut body, owned("eu"), Json::Bool(true));
    }
    put_opt_str(&mut body, "scheduledAt", scheduled_at);
    body
}

/// The recipients typed at the prompt: the pieces between commas, trimmed,
/// the empty ones dropped.
pub open spec fn recipients_spec(s: Seq<char>) -> Seq<Seq<char>> {
    split_on(s, ',').map_values(|p: Seq<char>| trim_spec(p)).filter(|p: Seq<char>| p.len() > 0)
}

/// Reads comma-separated recipients (see `recipients_spec`).
pub fn split_recipients(s: &str) -> (r: Vec<String>)
    ensures
        texts_of(r@) == recipients_spec(s@),
{
    let cs = chars_of(s);
    let pieces = split_chars(&cs, ',');
    let ghost ps = split_on(s@, ',').map_values(|p: Seq<char>| trim_spec(p));
    let mut out: Vec<String> = Vec::new();
    let mut i: usize = 0;
    proof {
        assert(ps.take(0).filter(|p: Seq<char>| p.len() > 0) =~= Seq::<Seq<char>>::empty());
        assert(texts_of(out@) =~= ps.take(0).filter(|p: Seq<char>| p.len() > 0));
    }
    while i < pieces.len()
        invariant
            i <= pieces@.len(),
            cs@ == s@,
            pieces@.len() == split_on(cs@, ',').len(),
            forall|k: int| 0 <= k < pieces@.len() ==> (#[trigger] pieces@[k])@ == split_on(cs@, ',')[k],
            ps == split_on(s@, ',').map_values(|p: Seq<char>| trim_spec(p)),
            texts_of(out@) == ps.take(i as int).filter(|p: Seq<char>| p.len() > 0),
        decreases pieces@.len() - i,
    {
        let t = trim_chars(&pieces[i]);
        proof {
            assert(ps.take(i + 1).drop_last() =~= ps.take(i as int));
            assert(ps.take(i + 1).last() == t@);
            ps.take(i as int).lemma_filter_push(t@, |p: Seq<char>| p.len() > 0);
            assert(ps.take(i + 1) =~= ps.take(i as int).push(t@));
        }
        if t.len() > 0 {
            let ghost before = out@;
            out.push(string_of(&t));
            proof {
                assert(texts_of(out@) =~= texts_of(before).push(t@));
            }
        }
        i = i + 1;
    }
    proof {
        assert(ps.take(ps.len() as int) =~= ps);
    }
    out
}


/// The first of `keys` that a response object holds as a non-empty string.
pub open spec fn extract_string_spec(v: Json, keys: Seq<Seq<char>>) -> Option<Seq<char>>
    decreases keys.len(),
{
    match v {
        Json::Object(m) => if keys.len() == 0 {
            None
        } else {
            match obj_get_spec(m@, keys[0]) {
                Some(Json::Str(s)) => if s@.len() > 0 { Some(s@) } else { extract_string_spec(v, keys.drop_first()) },
                _ => extract_string_spec(v, keys.drop_first()),
            }
        },
        _ => None,
    }
}

/// The first of `keys` that a response object holds as a non-empty string.
pub fn extract_string(v: &Json, keys: &[&str]) -> (r: Option<String>)
    ensures
        crate::text::opt_text(r) == extract_string_spec(*v, keys@.map_values(|s: &str| s@)),
{
    let ghost ks = keys@.map_values(|s: &str| s@);
    match v {
        Json::Object(m) => {
            let mut i: usize = 0;
            proof {
                assert(ks.skip(0) =~= ks);
            }
            while i < keys.len()
                invariant
                    i <= keys@.len(),
                    *v == Json::Object(*m),
                    ks == keys@.map_values(|s: &str| s@),
                    extract_string_spec(*v, ks) == extract_string_spec(*v, ks.skip(i as int)),
                decreases keys@.len() - i,
            {
                proof {
                    assert(ks.skip(i as int).drop_first() =~= ks.skip(i + 1));
                    assert(ks.skip(i as int)[0] == keys@[i as int]@);
                }
                if let Some(Json::Str(s)) = obj_get(m, keys[i]) {
                    if !s.as_str().is_empty() {
                        return Some(s.clone());
                    }
                }
                i = i + 1;
            }
            proof {
                assert(ks.skip(i as int) =~= Seq::<Seq<char>>::empty());
            }
            None
        },
        _ => None,
    }
}

/// The recipients a send response names: its `to` string, or its `to`
/// array's strings joined with `, `.
pub open spec fn response_recipients(v: Json) -> Seq<char> {
    match v {
        Json::Object(m) => match obj_get_spec(m@, "to"@) {
            Some(Json::Str(s)) => s@,
            Some(Json::Array(a)) => crate::output::join_strings(a@),
            _ => Seq::empty(),
        },
        _ => Seq::empty(),
    }
}

/// The lines printed after a send: `✓ Email queued`, then the recipients
/// (those given, else those the response names), the subject and the id the
/// response gives (`id`, `uid`, `message_id` or `messageId`), each when
/// there is one.
pub open spec fn send_summary_spec(v: Json, to: Seq<String>, subject: Option<Seq<char>>) -> Seq<Seq<char>> {
    let rec = if to.len() == 0 { response_recipients(v) } else { crate::text::join_seq(texts_of(to), ", "@) };
    let id = extract_string_spec(v, seq!["id"@, "uid"@, "message_id"@, "messageId"@]);
    seq!["✓ Email queued"@] + (if rec.len() > 0 { seq!["  to: "@ + rec] } else { Seq::empty() }) + (match subject {
        Some(s) => if s.len() > 0 { seq!["  subject: "@ + s] } else { Seq::empty() },
        None => Seq::empty(),
    }) + (match id {
        Some(x) => seq!["  id: "@ + x],
        None => Seq::empty(),
    })
}

/// `prefix` followed by `rest`.
fn prefixed(prefix: &str, rest: &str) -> (r: String)
    ensures
        r@ == prefix@ + rest@,
{
    let mut out = chars_of(prefix);
    push_str(&mut out, rest);
    string_of(&out)
}

/// The lines printed after a send (see `send_summary_spec`).
pub fn send_summary(v: &Json, to: &Vec<String>, subject: Option<&str>) -> (r: Vec<String>)
    ensures
        texts_of(r@) == send_summary_spec(*v, to@, match subject {
            Some(s) => Some(s@),
            None => None,
        }),
{
    let keys: [&str; 4] = ["id", "uid", "message_id", "messageId"];
    proof {
        assert(keys@.map_values(|s: &str| s@) =~= seq!["id"@, "uid"@, "message_id"@, "messageId"@]);
    }
    let id = extract_string(v, &keys);
    let rec: String = if to.len() == 0 {
        match v {
            Json::Object(m) => match obj_get(m, "to") {
                Some(Json::Str(s)) => s.clone(),
                Some(Json::Array(a)) => string_of(&crate::output::join_string_items(a)),
                _ => String::new(),
            },
            _ => String::new(),
        }
    } else {
        let t = crate::text::join_texts(to, ", ");
        proof {
            assert(to@.map_values(|s: String| s@) =~= texts_of(to@));
        }
        t
    };
    let mut out: Vec<String> = Vec::new();
    out.push(owned("✓ Email queued"));
    if !rec.as_str().is_empty() {
        out.push(prefixed("  to: ", rec.as_str()));
    }
    if let Some(s) = subject {
        if !s.is_empty() {
            out.push(prefixed("  subject: ", s));
        }
    }
    if let Some(x) = id {
        out.push(prefixed("  id: ", x.as_str()));
    }
    proof {
        assert(texts_of(out@) =~= send_summary_spec(*v, to@, match subject {
            Some(s) => Some(s@),
            None => None,
        }));
    }
    out
}

/// The payload of a batch send: an array is the list of emails; an object
/// with `emails` is taken as it is; any other object is one email. Any
/// other value is refused and handed back.
pub open spec fn batch_body_spec(v: Json) -> Option<JsonV> {
    match v {
        Json::Array(a) => Some(JsonV::Object(seq![("emails"@, JsonV::Array(views_of(a@)))])),
        Json::Object(m) => if obj_get_spec(m@, "emails"@) is Some {
            Some(v.view_deep())
        } else {
            Some(JsonV::Object(seq![("emails"@, JsonV::Array(seq![v.view_deep()]))]))
        },
        _ => None,
    }
}

/// The payload of a batch send (see `batch_body_spec`); a value that is
/// neither an array nor an object comes back as the error.
pub fn batch_body(v: Json) -> (r: Result<Json, Json>)
    ensures
        match batch_body_spec(v) {
            Some(b) => r matches Ok(x) && x.view_deep() == b,
            None => r matches Err(x) && x == v,
        },
{
    let ghost v0 = v;
    match v {
        Json::Array(a) => {
            let ghost av = a@;
            let arr = Json::Array(a);
            let mut members: Vec<(String, Json)> = Vec::new();
            members.push((owned("emails"), arr));
            let r = Json::Object(members);
            proof {
                if let JsonV::Array(x) = arr.view_deep() {
                    assert(x =~= views_of(av));
                }
                if let JsonV::Object(x) = r.view_deep() {
                    assert(x =~= seq![("emails"@, JsonV::Array(views_of(av)))]);
                }
            }
            Ok(r)
        },
        Json::Object(m) => {
            if obj_get(&m, "emails").is_some() {
                return Ok(Json::Object(m));
            }
            let one = Json::Object(m);
            let ghost ov = one.view_deep();
            let mut items: Vec<Json> = Vec::new();
            items.push(one);
            let arr = Json::Array(items);
            let mut members: Vec<(String, Json)> = Vec::new();
            members.push((owned("emails"), arr));
            let r = Json::Object(members);
            proof {
                if let JsonV::Array(x) = arr.view_deep() {
                    assert(x =~= seq![ov]);
                }
                if let JsonV::Object(x) = r.view_deep() {
                    assert(x =~= seq![("emails"@, JsonV::Array(seq![ov]))]);
                }
            }
            Ok(r)
        },
        other => Err(other),
    }
}


/// Explicit flags win over `--body-json` and `--field`: whatever those hold,
/// each sender, subject, recipients, body, reply-to and schedule flag that is
/// given appears in the request body as given, and `--eu` sets `eu` to true.
pub proof fn lemma_send_flags_win(body_json: Option<Seq<(String, Json)>>, fields: Seq<(String, Json)>, f: SendFields)
    ensures
        f.from matches Some(s) ==> send_body_spec(body_json, fields, f)["from"@] == JsonV::Str(s@),
        f.subject matches Some(s) ==> send_body_spec(body_json, fields, f)["subject"@] == JsonV::Str(s@),
        f.to@.len() > 0 ==> send_body_spec(body_json, fields, f)["to"@] == to_value(f.to@),
        f.html matches Some(s) ==> send_body_spec(body_json, fields, f)["html"@] == JsonV::Str(s@),
        f.text matches Some(s) ==> send_body_spec(body_json, fields, f)["text"@] == JsonV::Str(s@),
        f.reply_to matches Some(s) ==> send_body_spec(body_json, fields, f)["reply_to"@] == JsonV::Str(s@),
        f.eu ==> send_body_spec(body_json, fields, f)["eu"@] == JsonV::Bool(true),
        f.scheduled_at matches Some(s) ==> send_body_spec(body_json, fields, f)["scheduledAt"@] == JsonV::Str(s@),
{
    reveal_strlit("from");
    reveal_strlit("subject");
    reveal_strlit("to");
    reveal_strlit("html");
    reveal_strlit("text");
    reveal_strlit("cc");
    reveal_strlit("bcc");
    reveal_strlit("reply_to");
    reveal_strlit("headers");
    reveal_strlit("attachments");
    reveal_strlit("eu");
    reveal_strlit("scheduledAt");
    let m1 = match body_json {
        Some(b) => insert_all(Map::empty(), b),
        None => Map::empty(),
    };
    let m2 = insert_all(m1, fields);
    let m3 = opt_str(opt_str(m2, "from"@, f.from), "subject"@, f.subject);
    let m4 = if f.to@.len() > 0 { m3.insert("to"@, to_value(f.to@)) } else { m3 };
    let m5 = opt_str(opt_str(m4, "html"@, f.html), "text"@, f.text);
    let m6 = opt_str(opt_array(opt_array(m5, "cc"@, f.cc@), "bcc"@, f.bcc@), "reply_to"@, f.reply_to);
    let m7 = match f.headers {
        Some(h) => m6.insert("headers"@, JsonV::Object(Seq::new(h@.len(), |i: int| (h@[i].0@, h@[i].1.view_deep())))),
        None => m6,
    };
    let m8 = if f.attachments@.len() > 0 { m7.insert("attachments"@, JsonV::Array(views_of(f.attachments@))) } else { m7 };
    let m9 = if f.eu { m8.insert("eu"@, JsonV::Bool(true)) } else { m8 };
    let m10 = opt_str(m9, "scheduledAt"@, f.scheduled_at);
    assert(send_body_spec(body_json, fields, f) == m10);
    // Each key is set after the ones above it, and no later step sets it again.
    let keys = seq!["from"@, "subject"@, "to"@, "html"@, "text"@, "reply_to"@, "eu"@, "scheduledAt"@];
    let later = seq!["cc"@, "bcc"@, "headers"@, "attachments"@];
    assert("from"@.len() == 4 && "from"@[0] == 'f');
    assert("html"@[0] == 'h' && "text"@[0] == 't');
    assert("subject"@.len() == 7 && "reply_to"@.len() == 8 && "scheduledAt"@.len() == 11);
    assert("to"@.len() == 2 && "eu"@.len() == 2 && "to"@[0] == 't' && "eu"@[0] == 'e');
    assert("html"@.len() == 4 && "text"@.len() == 4);
    assert(keys[0] != keys[1]);
    assert(keys[0] != keys[2]);
    assert(keys[0] != keys[3]);
    assert(keys[0] != keys[4]);
    assert(keys[0] != keys[5]);
    assert(keys[0] != keys[6]);
    assert(keys[0] != keys[7]);
    assert(keys[1] != keys[2]);
    assert(keys[1] != keys[3]);
    assert(keys[1] != keys[4]);
    assert(keys[1] != keys[5]);
    assert(keys[1] != keys[6]);
    assert(keys[1] != keys[7]);
    assert(keys[2] != keys[3]);
    assert(keys[2] != keys[4]);
    assert(keys[2] != keys[5]);
    assert(keys[2] != keys[6]);
    assert(keys[2] != keys[7]);
    assert(keys[3] != keys[4]);
    assert(keys[3] != keys[5]);
    assert(keys[3] != keys[6]);
    assert(keys[3] != keys[7]);
    assert(keys[4] != keys[5]);
    assert(keys[4] != keys[6]);
    assert(keys[4] != keys[7]);
    assert(keys[5] != keys[6]);
    assert(keys[5] != keys[7]);
    assert(keys[6] != keys[7]);
    assert forall|i: int, j: int| 0 <= i < 8 && 0 <= j < 4 implies #[trigger] keys[i] != #[trigger] later[j] by {
        assert(keys[i].len() != later[j].len() || keys[i][0] != later[j][0] || keys[i].last() != later[j].last());
    }
    if f.from is Some {
        assert(m3["from"@] == JsonV::Str(f.from->0@));
        assert(m4["from"@] == m3["from"@]);
        assert(m5["from"@] == m4["from"@]);
        assert(m6["from"@] == m5["from"@]);
        assert(m7["from"@] == m6["from"@]);
        assert(m8["from"@] == m7["from"@]);
        assert(m9["from"@] == m8["from"@]);
    }
    if f.subject is Some {
        assert(m4["subject"@] == m3["subject"@]);
        assert(m5["subject"@] == m4["subject"@]);
        assert(m6["subject"@] == m5["subject"@]);
        assert(m7["subject"@] == m6["subject"@]);
        assert(m8["subject"@] == m7["subject"@]);
        assert(m9["subject"@] == m8["subject"@]);
    }
    if f.to@.len() > 0 {
        assert(m5["to"@] == m4["to"@]);
        assert(m6["to"@] == m5["to"@]);
        assert(m7["to"@] == m6["to"@]);
        assert(m8["to"@] == m7["to"@]);
        assert(m9["to"@] == m8["to"@]);
    }
    if f.html is Some {
        assert(m5["html"@] == JsonV::Str(f.html->0@));
        assert(m6["html"@] == m5["html"@]);
        assert(m7["html"@] == m6["html"@]);
        assert(m8["html"@] == m7["html"@]);
        assert(m9["html"@] == m8["html"@]);
    }
    if f.text is Some {
        assert(m6["text"@] == m5["text"@]);
        assert(m7["text"@] == m6["text"@]);
        assert(m8["text"@] == m7["text"@]);
        assert(m9["text"@] == m8["text"@]);
    }
    if f.reply_to is Some {
        assert(m7["reply_to"@] == m6["reply_to"@]);
        assert(m8["reply_to"@] == m7["reply_to"@]);
        assert(m9["reply_to"@] == m8["reply_to"@]);
    }
}


/// The body a send starts from: the `--body-json` object with the `--field`
/// flags over it.
pub open spec fn send_sources(body_json: Option<Seq<(String, Json)>>, fields: Seq<(String, Json)>) -> Map<Seq<char>, JsonV> {
    insert_all(match body_json {
        Some(b) => insert_all(Map::empty(), b),
        None => Map::empty(),
    }, fields)
}

/// The members a send's typed flags set.
pub open spec fn typed_key(k: Seq<char>) -> bool {
    k == "from"@ || k == "subject"@ || k == "to"@ || k == "html"@ || k == "text"@ || k == "cc"@ || k == "bcc"@
        || k == "reply_to"@ || k == "headers"@ || k == "attachments"@ || k == "eu"@ || k == "scheduledAt"@
}

/// The list flags of a send (`--cc`, `--bcc`, `--header`, `--attach`) win
/// over `--body-json` and `--field` too; every member no typed flag sets is
/// what `--field`, else `--body-json`, gave, and the body has no other
/// members.
pub proof fn lemma_send_lists_and_sources(body_json: Option<Seq<(String, Json)>>, fields: Seq<(String, Json)>, f: SendFields)
    ensures
        f.cc@.len() > 0 ==> send_body_spec(body_json, fields, f)["cc"@] == string_array(f.cc@),
        f.bcc@.len() > 0 ==> send_body_spec(body_json, fields, f)["bcc"@] == string_array(f.bcc@),
        f.headers matches Some(h) ==> send_body_spec(body_json, fields, f)["headers"@] == JsonV::Object(
            Seq::new(h@.len(), |i: int| (h@[i].0@, h@[i].1.view_deep())),
        ),
        f.attachments@.len() > 0 ==> send_body_spec(body_json, fields, f)["attachments"@] == JsonV::Array(
            views_of(f.attachments@),
        ),
        forall|k: Seq<char>| !typed_key(k) ==> (#[trigger] send_body_spec(body_json, fields, f).contains_key(k)
            == send_sources(body_json, fields).contains_key(k) && (send_sources(body_json, fields).contains_key(k)
            ==> send_body_spec(body_json, fields, f)[k] == send_sources(body_json, fields)[k])),
{
    reveal_strlit("cc");
    reveal_strlit("bcc");
    reveal_strlit("reply_to");
    reveal_strlit("headers");
    reveal_strlit("attachments");
    reveal_strlit("eu");
    reveal_strlit("scheduledAt");
    let m2 = send_sources(body_json, fields);
    let m3 = opt_str(opt_str(m2, "from"@, f.from), "subject"@, f.subject);
    let m4 = if f.to@.len() > 0 { m3.insert("to"@, to_value(f.to@)) } else { m3 };
    let m5 = opt_str(opt_str(m4, "html"@, f.html), "text"@, f.text);
    let m5a = opt_array(m5, "cc"@, f.cc@);
    let m5b = opt_array(m5a, "bcc"@, f.bcc@);
    let m6 = opt_str(m5b, "reply_to"@, f.reply_to);
    let m7 = match f.headers {
        Some(h) => m6.insert("headers"@, JsonV::Object(Seq::new(h@.len(), |i: int| (h@[i].0@, h@[i].1.view_deep())))),
        None => m6,
    };
    let m8 = if f.attachments@.len() > 0 { m7.insert("attachments"@, JsonV::Array(views_of(f.attachments@))) } else { m7 };
    let m9 = if f.eu { m8.insert("eu"@, JsonV::Bool(true)) } else { m8 };
    let m10 = opt_str(m9, "scheduledAt"@, f.scheduled_at);
    assert(send_body_spec(body_json, fields, f) == m10);
    // The list members are set after the scalar ones, and each one is set once.
    assert("cc"@.len() == 2 && "bcc"@.len() == 3 && "reply_to"@.len() == 8 && "headers"@.len() == 7);
    assert("attachments"@.len() == 11 && "eu"@.len() == 2 && "scheduledAt"@.len() == 11);
    assert("cc"@[0] == 'c' && "eu"@[0] == 'e' && "attachments"@[0] == 'a' && "scheduledAt"@[0] == 's');
    if f.cc@.len() > 0 {
        assert(m5a["cc"@] == string_array(f.cc@));
        assert(m5b["cc"@] == m5a["cc"@]);
        assert(m6["cc"@] == m5b["cc"@]);
        assert(m7["cc"@] == m6["cc"@]);
        assert(m8["cc"@] == m7["cc"@]);
        assert(m9["cc"@] == m8["cc"@]);
        assert(m10["cc"@] == m9["cc"@]);
    }
    if f.bcc@.len() > 0 {
        assert(m6["bcc"@] == m5b["bcc"@]);
        assert(m7["bcc"@] == m6["bcc"@]);
        assert(m8["bcc"@] == m7["bcc"@]);
        assert(m9["bcc"@] == m8["bcc"@]);
        assert(m10["bcc"@] == m9["bcc"@]);
    }
    if f.headers is Some {
        assert(m8["headers"@] == m7["headers"@]);
        assert(m9["headers"@] == m8["headers"@]);
        assert(m10["headers"@] == m9["headers"@]);
    }
    if f.attachments@.len() > 0 {
        assert(m9["attachments"@] == m8["attachments"@]);
        assert(m10["attachments"@] == m9["attachments"@]);
    }
}

/// The request of a send: POST `/email` with the transactional key, no
/// query, and the body as built.
pub fn send_request(body: Vec<(String, Json)>) -> (r: ApiRequest)
    ensures
        request_view(r) == (
            HttpMethod::Post,
            "/email"@,
            Auth::Transactional,
            Seq::<(Seq<char>, Seq<char>)>::empty(),
            BodyV::Fixed(Json::Object(body).view_deep()),
        ),
{
    transactional_post("/email", Json::Object(body))
}

/// The request of a batch send: POST `/email-batch` with the transactional
/// key, no query, and the payload.
pub fn batch_request(payload: Json) -> (r: ApiRequest)
    ensures
        request_view(r) == (
            HttpMethod::Post,
            "/email-batch"@,
            Auth::Transactional,
            Seq::<(Seq<char>, Seq<char>)>::empty(),
            BodyV::Fixed(payload.view_deep()),
        ),
{
    transactional_post("/email-batch", payload)
}

fn transactional_post(path: &str, body: Json) -> (r: ApiRequest)
    ensures
        request_view(r) == (
            HttpMethod::Post,
            path@,
            Auth::Transactional,
            Seq::<(Seq<char>, Seq<char>)>::empty(),
            BodyV::Fixed(body.view_deep()),
        ),
{
    let r = ApiRequest {
        method: HttpMethod::Post,
        path: owned(path),
        auth: Auth::Transactional,
        query: Vec::new(),
        body: RequestBody::Fixed(body),
    };
    proof {
        assert(r.query@.map_values(|q: (String, String)| (q.0@, q.1@)) =~= Seq::<(Seq<char>, Seq<char>)>::empty());
    }
    r
}

/// The extra header of a send or batch: `Idempotency-Key` with the key,
/// when one was given.
pub fn idempotency_header(key: &Option<String>) -> (r: Vec<(String, String)>)
    ensures
        match key {
            Some(k) => r@.len() == 1 && r@[0].0@ == "Idempotency-Key"@ && r@[0].1@ == k@,
            None => r@.len() == 0,
        },
{
    let mut out: Vec<(String, String)> = Vec::new();
    if let Some(k) = key {
        out.push((owned("Idempotency-Key"), k.clone()));
    }
    out
}

} // verus!
