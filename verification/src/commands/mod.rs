//! The commands: for each, the request it makes and how the reply is shown.

pub mod util;
pub mod email;
pub mod inbound;
pub mod outbound;
pub mod webhooks;
pub mod auth;
pub mod doctor;
pub mod config_cmd;
pub mod completion;
pub mod update;

use vstd::prelude::*;

use crate::client::{request_view, ApiRequest, Auth, BodyRecipe, BodyV, EntryV, EntryValue, HttpMethod, RequestBody};
use crate::json::{int_json, json_int, string_array, vec_to_array, Json, JsonV};
use crate::output::{CellTransform, ColorRule, Column};
use crate::text::{int_chars, opt_text, owned, string_of};
use crate::tui::logs::{LogKind, TailOpts};

verus! {

/// How a reply is shown.
pub enum Output {
    /// The JSON reply.
    Value,
    /// A table of the reply's rows, when the terminal shows one.
    Table(Vec<Column>),
    /// The reply's text.
    Text,
    /// The live log tail.
    Tail(LogKind, TailOpts),
}

/// A command's request and how its reply is shown.
pub struct Plan {
    pub request: ApiRequest,
    pub output: Output,
}

/// The form of a table column.
pub type ColumnV = (Seq<char>, Seq<char>, CellTransform, ColorRule);

pub open spec fn column_view(c: Column) -> ColumnV {
    (c.header@, c.path@, c.transform, c.color)
}

pub open spec fn columns_view(cs: Seq<Column>) -> Seq<ColumnV> {
    cs.map_values(|c: Column| column_view(c))
}

/// The form of an output.
pub enum OutputV {
    Value,
    Table(Seq<ColumnV>),
    Text,
    Tail(LogKind, u64, usize),
}

pub open spec fn output_view(o: Output) -> OutputV {
    match o {
        Output::Value => OutputV::Value,
        Output::Table(cs) => OutputV::Table(columns_view(cs@)),
        Output::Text => OutputV::Text,
        Output::Tail(k, t) => OutputV::Tail(k, t.poll_secs, t.buffer),
    }
}

/// The form of a request.
pub type RequestV = (HttpMethod, Seq<char>, Auth, Seq<(Seq<char>, Seq<char>)>, BodyV);

/// The form of a plan.
pub open spec fn plan_view(p: Plan) -> (RequestV, OutputV) {
    (request_view(p.request), output_view(p.output))
}

/// A request with the management key and no query.
pub open spec fn api_req(m: HttpMethod, path: Seq<char>, body: BodyV) -> RequestV {
    (m, path, Auth::Api, Seq::empty(), body)
}

/// A request with the management key and no query.
pub fn api_request(method: HttpMethod, path: String, body: RequestBody) -> (r: ApiRequest)
    ensures
        request_view(r) == api_req(method, path@, crate::client::body_view(body)),
{
    let r = ApiRequest { method, path, auth: Auth::Api, query: Vec::new(), body };
    proof {
        assert(r.query@.map_values(|q: (String, String)| (q.0@, q.1@)) =~= Seq::<(Seq<char>, Seq<char>)>::empty());
    }
    r
}

/// A plan that shows the JSON reply.
pub fn value_plan(request: ApiRequest) -> (r: Plan)
    ensures
        plan_view(r) == (request_view(request), OutputV::Value),
{
    Plan { request, output: Output::Value }
}

/// `a` then `b`.
pub fn concat(a: &str, b: &str) -> (r: String)
    ensures
        r@ == a@ + b@,
{
    let mut out = crate::text::chars_of(a);
    crate::text::push_str(&mut out, b);
    string_of(&out)
}

/// `base`, `/` and `id`.
pub open spec fn sub_path(base: Seq<char>, id: Seq<char>) -> Seq<char> {
    base + "/"@ + id
}

/// `base`, `/` and `id`.
pub fn sub_path_of(base: &str, id: &str) -> (r: String)
    ensures
        r@ == sub_path(base@, id@),
{
    let mut out = crate::text::chars_of(base);
    out.push('/');
    crate::text::push_str(&mut out, id);
    proof {
        reveal_strlit("/");
        assert(out@ =~= sub_path(base@, id@));
    }
    string_of(&out)
}

/// `a`, `id`, `b`.
pub open spec fn around(a: Seq<char>, id: Seq<char>, b: Seq<char>) -> Seq<char> {
    a + id + b
}

/// `a`, `id`, `b`.
pub fn around_of(a: &str, id: &str, b: &str) -> (r: String)
    ensures
        r@ == around(a@, id@, b@),
{
    let mut out = crate::text::chars_of(a);
    crate::text::push_str(&mut out, id);
    crate::text::push_str(&mut out, b);
    string_of(&out)
}

// ───────────── explicit body values ─────────────

/// The body value of a string flag, when given.
pub open spec fn e_str(k: Seq<char>, v: Option<String>) -> Seq<(Seq<char>, EntryV)> {
    match v {
        Some(s) => seq![(k, EntryV::Value(JsonV::Str(s@)))],
        None => Seq::empty(),
    }
}

/// The body value of an integer flag, when given.
pub open spec fn e_int(k: Seq<char>, v: Option<i64>) -> Seq<(Seq<char>, EntryV)> {
    match v {
        Some(n) => seq![(k, EntryV::Value(int_json(n)))],
        None => Seq::empty(),
    }
}

/// The body value of a boolean flag, when given.
pub open spec fn e_bool(k: Seq<char>, v: Option<bool>) -> Seq<(Seq<char>, EntryV)> {
    match v {
        Some(b) => seq![(k, EntryV::Value(JsonV::Bool(b)))],
        None => Seq::empty(),
    }
}

/// The body value of a number flag, when given.
pub open spec fn e_num(k: Seq<char>, v: Option<Json>) -> Seq<(Seq<char>, EntryV)> {
    match v {
        Some(j) => seq![(k, EntryV::Value(j.view_deep()))],
        None => Seq::empty(),
    }
}

/// The body value of a repeated flag, when given at least once.
pub open spec fn e_list(k: Seq<char>, v: Seq<String>) -> Seq<(Seq<char>, EntryV)> {
    if v.len() > 0 { seq![(k, EntryV::Value(string_array(v)))] } else { Seq::empty() }
}

/// The body value of repeated `Name: Value` flags, when given at least once.
pub open spec fn e_headers(k: Seq<char>, v: Seq<String>) -> Seq<(Seq<char>, EntryV)> {
    if v.len() > 0 { seq![(k, EntryV::Headers(v.map_values(|s: String| s@)))] } else { Seq::empty() }
}

/// Adds a string flag's body value.
pub fn put_str(es: &mut Vec<(String, EntryValue)>, k: &str, v: &Option<String>)
    ensures
        crate::client::entries_view(final(es)@) == crate::client::entries_view(old(es)@) + e_str(k@, *v),
{
    if let Some(s) = v {
        es.push((owned(k), EntryValue::Value(Json::Str(s.clone()))));
    }
    proof {
        assert(crate::client::entries_view(es@) =~= crate::client::entries_view(old(es)@) + e_str(k@, *v));
    }
}

/// Adds an integer flag's body value.
pub fn put_int(es: &mut Vec<(String, EntryValue)>, k: &str, v: Option<i64>)
    ensures
        crate::client::entries_view(final(es)@) == crate::client::entries_view(old(es)@) + e_int(k@, v),
{
    if let Some(n) = v {
        es.push((owned(k), EntryValue::Value(json_int(n))));
    }
    proof {
        assert(crate::client::entries_view(es@) =~= crate::client::entries_view(old(es)@) + e_int(k@, v));
    }
}

/// Adds a boolean flag's body value.
pub fn put_bool(es: &mut Vec<(String, EntryValue)>, k: &str, v: Option<bool>)
    ensures
        crate::client::entries_view(final(es)@) == crate::client::entries_view(old(es)@) + e_bool(k@, v),
{
    if let Some(b) = v {
        es.push((owned(k), EntryValue::Value(Json::Bool(b))));
    }
    proof {
        assert(crate::client::entries_view(es@) =~= crate::client::entries_view(old(es)@) + e_bool(k@, v));
    }
}

/// Adds a number flag's body value.
pub fn put_num(es: &mut Vec<(String, EntryValue)>, k: &str, v: &Option<Json>)
    ensures
        crate::client::entries_view(final(es)@) == crate::client::entries_view(old(es)@) + e_num(k@, *v),
{
    if let Some(j) = v {
        es.push((owned(k), EntryValue::Value(j.deep_copy())));
    }
    proof {
        assert(crate::client::entries_view(es@) =~= crate::client::entries_view(old(es)@) + e_num(k@, *v));
    }
}

/// Adds a repeated flag's body value.
pub fn put_list(es: &mut Vec<(String, EntryValue)>, k: &str, v: &Vec<String>)
    ensures
        crate::client::entries_view(final(es)@) == crate::client::entries_view(old(es)@) + e_list(k@, v@),
{
    if v.len() > 0 {
        es.push((owned(k), EntryValue::Value(vec_to_array(v))));
    }
    proof {
        assert(crate::client::entries_view(es@) =~= crate::client::entries_view(old(es)@) + e_list(k@, v@));
    }
}

/// A copy of a list of strings.
pub fn copy_strings(v: &Vec<String>) -> (r: Vec<String>)
    ensures
        r@.map_values(|s: String| s@) == v@.map_values(|s: String| s@),
{
    let mut out: Vec<String> = Vec::new();
    let mut i: usize = 0;
    while i < v.len()
        invariant
            i <= v@.len(),
            out@.map_values(|s: String| s@) == v@.take(i as int).map_values(|s: String| s@),
        decreases v@.len() - i,
    {
        out.push(v[i].clone());
        proof {
            assert(v@.take(i + 1).map_values(|s: String| s@) =~= v@.take(i as int).map_values(|s: String| s@).push(v@[i as int]@));
            assert(out@.map_values(|s: String| s@) =~= v@.take(i + 1).map_values(|s: String| s@));
        }
        i = i + 1;
    }
    proof {
        assert(v@.take(v@.len() as int) =~= v@);
    }
    out
}

/// Adds repeated `Name: Value` flags, to be read into an object.
pub fn put_headers(es: &mut Vec<(String, EntryValue)>, k: &str, v: &Vec<String>)
    ensures
        crate::client::entries_view(final(es)@) == crate::client::entries_view(old(es)@) + e_headers(k@, v@),
{
    if v.len() > 0 {
        es.push((owned(k), EntryValue::Headers(copy_strings(v))));
    }
    proof {
        assert(crate::client::entries_view(es@) =~= crate::client::entries_view(old(es)@) + e_headers(k@, v@));
    }
}

/// A string set unless the member is already there, when given.
pub open spec fn e_default_str(k: Seq<char>, v: Option<String>) -> Seq<(Seq<char>, EntryV)> {
    match v {
        Some(s) => seq![(k, EntryV::Default(JsonV::Str(s@)))],
        None => Seq::empty(),
    }
}

/// Adds a string set unless the member is already there.
pub fn put_default_str(es: &mut Vec<(String, EntryValue)>, k: &str, v: &Option<String>)
    ensures
        crate::client::entries_view(final(es)@) == crate::client::entries_view(old(es)@) + e_default_str(k@, *v),
{
    if let Some(s) = v {
        es.push((owned(k), EntryValue::Default(Json::Str(s.clone()))));
    }
    proof {
        assert(crate::client::entries_view(es@) =~= crate::client::entries_view(old(es)@) + e_default_str(k@, *v));
    }
}

/// A body put together from `--body-json`, `--field` and explicit values.
pub open spec fn built(body_json: Option<String>, fields: Seq<String>, es: Seq<(Seq<char>, EntryV)>) -> BodyV {
    BodyV::Built(opt_text(body_json), fields.map_values(|s: String| s@), es)
}

/// A body put together from `--body-json`, `--field` and explicit values.
pub fn recipe(body_json: &Option<String>, fields: &Vec<String>, entries: Vec<(String, EntryValue)>) -> (r: RequestBody)
    ensures
        crate::client::body_view(r) == built(*body_json, fields@, crate::client::entries_view(entries@)),
{
    RequestBody::Built(BodyRecipe { body_json: crate::text::copy_opt(body_json), fields: copy_strings(fields), entries })
}

/// A one-member object with a string.
pub open spec fn one_str(k: Seq<char>, v: Seq<char>) -> JsonV {
    JsonV::Object(seq![(k, JsonV::Str(v))])
}

/// A one-member object with a string.
pub fn one_str_object(k: &str, v: &String) -> (r: Json)
    ensures
        r.view_deep() == one_str(k@, v@),
{
    let mut m: Vec<(String, Json)> = Vec::new();
    m.push((owned(k), Json::Str(v.clone())));
    proof {
        assert(m@.len() == 1);
        assert(m@[0].0@ == k@);
        assert(m@[0].1.view_deep() == JsonV::Str(v@));
    }
    let r = Json::Object(m);
    proof {
        if let JsonV::Object(x) = r.view_deep() {
            assert(x.len() == 1);
            assert(x[0] == (k@, JsonV::Str(v@)));
            assert(x =~= seq![(k@, JsonV::Str(v@))]);
        }
    }
    r
}

// ───────────── query pairs ─────────────

/// The query pair of a string flag, when given.
pub open spec fn q_str(k: Seq<char>, v: Option<String>) -> Seq<(Seq<char>, Seq<char>)> {
    match v {
        Some(s) => seq![(k, s@)],
        None => Seq::empty(),
    }
}

/// The query pair of an integer flag, when given.
pub open spec fn q_int(k: Seq<char>, v: Option<i64>) -> Seq<(Seq<char>, Seq<char>)> {
    match v {
        Some(n) => seq![(k, crate::text::int_text(n as int))],
        None => Seq::empty(),
    }
}

pub open spec fn pairs_view(q: Seq<(String, String)>) -> Seq<(Seq<char>, Seq<char>)> {
    q.map_values(|p: (String, String)| (p.0@, p.1@))
}

/// Adds a string flag's query pair.
pub fn push_q_str(q: &mut Vec<(String, String)>, k: &str, v: &Option<String>)
    ensures
        pairs_view(final(q)@) == pairs_view(old(q)@) + q_str(k@, *v),
{
    if let Some(s) = v {
        q.push((owned(k), s.clone()));
    }
    proof {
        assert(pairs_view(q@) =~= pairs_view(old(q)@) + q_str(k@, *v));
    }
}

/// Adds an integer flag's query pair.
pub fn push_q_int(q: &mut Vec<(String, String)>, k: &str, v: Option<i64>)
    ensures
        pairs_view(final(q)@) == pairs_view(old(q)@) + q_int(k@, v),
{
    if let Some(n) = v {
        q.push((owned(k), string_of(&int_chars(n))));
    }
    proof {
        assert(pairs_view(q@) =~= pairs_view(old(q)@) + q_int(k@, v));
    }
}

/// A request with the management key and query pairs.
pub fn query_request(method: HttpMethod, path: String, query: Vec<(String, String)>) -> (r: ApiRequest)
    ensures
        request_view(r) == (method, path@, Auth::Api, pairs_view(query@), BodyV::Empty),
{
    ApiRequest { method, path, auth: Auth::Api, query, body: RequestBody::Empty }
}


/// Whether a query already names `date_from`.
pub open spec fn has_date_from(q: Seq<(Seq<char>, Seq<char>)>) -> bool {
    exists|i: int| 0 <= i < q.len() && (#[trigger] q[i]).0 == "date_from"@
}

/// The query a live tail polls with: when the user named no `date_from`,
/// one five seconds before `now` (Unix seconds) is added, so that only
/// entries from about the start of watching show up.
pub open spec fn tail_query_spec(q: Seq<(Seq<char>, Seq<char>)>, now: i64) -> Seq<(Seq<char>, Seq<char>)> {
    if has_date_from(q) {
        q
    } else {
        q.push(("date_from"@, crate::text::int_text(if now - 5 < i64::MIN { i64::MIN as int } else { now - 5 })))
    }
}

/// The query a live tail polls with (see `tail_query_spec`).
pub fn tail_query(query: Vec<(String, String)>, now: i64) -> (r: Vec<(String, String)>)
    ensures
        pairs_view(r@) == tail_query_spec(pairs_view(query@), now),
{
    let mut q = query;
    let ghost q0 = pairs_view(q@);
    let mut found = false;
    let mut i: usize = 0;
    while i < q.len()
        invariant
            i <= q@.len(),
            q0 == pairs_view(q@),
            found <==> exists|j: int| 0 <= j < i && (#[trigger] q0[j]).0 == "date_from"@,
        decreases q@.len() - i,
    {
        if crate::text::str_eq(q[i].0.as_str(), "date_from") {
            found = true;
            proof {
                assert(q0[i as int].0 == "date_from"@);
            }
        }
        i = i + 1;
    }
    if !found {
        let since: i64 = if now < i64::MIN + 5 { i64::MIN } else { now - 5 };
        q.push((owned("date_from"), string_of(&int_chars(since))));
        proof {
            assert(pairs_view(q@) =~= q0.push(("date_from"@, crate::text::int_text(since as int))));
        }
    }
    q
}

} // verus!
