//! Webhook subscriptions: listing, reading, creating, updating, deleting,
//! querying deliveries and replaying them.

use vstd::prelude::*;

use crate::client::{enc, enc_bytes, entries_view, BodyV, EntryV, EntryValue, HttpMethod, RequestBody};
use crate::commands::{
    api_req, api_request, built, columns_view, concat, e_int, e_list, e_str, plan_view, put_int, put_list, put_str,
    recipe, value_plan, ColumnV, Output, OutputV, Plan, RequestV,
};
use crate::output::{CellTransform, ColorRule, Column};
use crate::text::owned;
use vstd::utf8::encode_utf8;

verus! {

/// `webhooks`.
pub struct Cmd {
    pub action: Action,
}

pub enum Action {
    List,
    Get(UuidArg),
    Create(CreateArgs),
    Update(UpdateArgs),
    Delete(UuidArg),
    Query(QueryArgs),
    Replay(ReplayArgs),
}

pub struct UuidArg {
    pub uuid: String,
}

/// The flags of a new webhook.
pub struct CreateArgs {
    pub name: Option<String>,
    pub url: Option<String>,
    pub events: Vec<String>,
    pub status: Option<i64>,
    pub filter_users: Vec<String>,
    pub filter_domains: Vec<String>,
    pub body_json: Option<String>,
    pub field: Vec<String>,
}

/// The flags of a webhook update.
pub struct UpdateArgs {
    pub uuid: String,
    pub name: Option<String>,
    pub url: Option<String>,
    pub events: Vec<String>,
    pub status: Option<i64>,
    pub filter_users: Vec<String>,
    pub filter_domains: Vec<String>,
    pub body_json: Option<String>,
    pub field: Vec<String>,
}

/// The filters of a delivery query.
pub struct QueryArgs {
    pub uuid: Option<String>,
    pub event_id: Option<String>,
    pub event_type: Option<String>,
    pub source_uid: Option<String>,
    pub status: Option<String>,
    pub date_from: Option<i64>,
    pub date_to: Option<i64>,
    pub limit: Option<i64>,
    pub offset: Option<i64>,
    pub body_json: Option<String>,
}

/// What to replay.
pub struct ReplayArgs {
    pub event_id: Option<String>,
    pub source_uid: Option<String>,
    pub uuid: Option<String>,
    pub body_json: Option<String>,
}

/// The columns of the webhook table.
pub open spec fn webhooks_columns_spec() -> Seq<ColumnV> {
    seq![
        ("Name"@, "name"@, CellTransform::Plain, ColorRule::NoColor),
        ("URL"@, "url"@, CellTransform::Truncate(50), ColorRule::NoColor),
        ("Events"@, "events"@, CellTransform::EventSummary, ColorRule::NoColor),
        ("Status"@, "status"@, CellTransform::EnabledStatus, ColorRule::NoColor),
        ("UUID"@, "uuid"@, CellTransform::Plain, ColorRule::NoColor),
    ]
}

/// The columns of the webhook table: the URL cut to 50 characters, the
/// events summed up, the status number read as enabled or disabled.
pub fn webhooks_columns() -> (r: Vec<Column>)
    ensures
        columns_view(r@) == webhooks_columns_spec(),
{
    let r = vec![
        Column::new("Name", "name"),
        Column::new("URL", "url").with_transform(CellTransform::Truncate(50)),
        Column::new("Events", "events").with_transform(CellTransform::EventSummary),
        Column::new("Status", "status").with_transform(CellTransform::EnabledStatus),
        Column::new("UUID", "uuid"),
    ];
    proof {
        assert(columns_view(r@) =~= webhooks_columns_spec());
    }
    r
}

/// The path of one webhook, its uuid escaped as a path segment.
pub open spec fn webhook_path(uuid: Seq<char>) -> Seq<char> {
    "/webhooks/"@ + enc_bytes(encode_utf8(uuid))
}

fn webhook_path_of(uuid: &str) -> (r: String)
    ensures
        r@ == webhook_path(uuid@),
{
    concat("/webhooks/", enc(uuid).as_str())
}

/// The explicit body values of a new webhook.
pub open spec fn create_entries(a: CreateArgs) -> Seq<(Seq<char>, EntryV)> {
    e_str("name"@, a.name) + e_str("url"@, a.url) + e_list("events"@, a.events@) + e_int("status"@, a.status)
        + e_list("filter_users"@, a.filter_users@) + e_list("filter_domains"@, a.filter_domains@)
}

/// The explicit body values of a webhook update: the uuid always, then the
/// flags that are given.
pub open spec fn update_entries(a: UpdateArgs) -> Seq<(Seq<char>, EntryV)> {
    e_str("uuid"@, Some(a.uuid)) + e_str("name"@, a.name) + e_str("url"@, a.url) + e_list("events"@, a.events@)
        + e_int("status"@, a.status) + e_list("filter_users"@, a.filter_users@)
        + e_list("filter_domains"@, a.filter_domains@)
}

/// The explicit body values of a delivery query.
pub open spec fn query_entries(a: QueryArgs) -> Seq<(Seq<char>, EntryV)> {
    e_str("uuid"@, a.uuid) + e_str("event_id"@, a.event_id) + e_str("event_type"@, a.event_type)
        + e_str("source_uid"@, a.source_uid) + e_str("status"@, a.status) + e_int("date_from"@, a.date_from)
        + e_int("date_to"@, a.date_to) + e_int("limit"@, a.limit) + e_int("offset"@, a.offset)
}

/// The explicit body values of a replay.
pub open spec fn replay_entries(a: ReplayArgs) -> Seq<(Seq<char>, EntryV)> {
    e_str("event_id"@, a.event_id) + e_str("source_uid"@, a.source_uid) + e_str("uuid"@, a.uuid)
}

/// The webhook commands: list (as a table), read and delete at
/// `/webhooks/{uuid}`, create (POST) and update (PATCH) at `/webhooks`, and
/// delivery queries and replays (POST, from `--body-json` and the flags only).
pub open spec fn run_spec(cmd: Cmd) -> (RequestV, OutputV) {
    match cmd.action {
        Action::List => (api_req(HttpMethod::Get, "/webhooks"@, BodyV::Empty), OutputV::Table(webhooks_columns_spec())),
        Action::Get(a) => (api_req(HttpMethod::Get, webhook_path(a.uuid@), BodyV::Empty), OutputV::Value),
        Action::Create(a) => (
            api_req(HttpMethod::Post, "/webhooks"@, built(a.body_json, a.field@, create_entries(a))),
            OutputV::Value,
        ),
        Action::Update(a) => (
            api_req(HttpMethod::Patch, "/webhooks"@, built(a.body_json, a.field@, update_entries(a))),
            OutputV::Value,
        ),
        Action::Delete(a) => (api_req(HttpMethod::Delete, webhook_path(a.uuid@), BodyV::Empty), OutputV::Value),
        Action::Query(a) => (
            api_req(HttpMethod::Post, "/webhooks/query"@, built(a.body_json, Seq::empty(), query_entries(a))),
            OutputV::Value,
        ),
        Action::Replay(a) => (
            api_req(HttpMethod::Post, "/webhooks/replay"@, built(a.body_json, Seq::empty(), replay_entries(a))),
            OutputV::Value,
        ),
    }
}

/// What a webhook command requests (see `run_spec`).
pub fn run(cmd: &Cmd) -> (r: Plan)
    ensures
        plan_view(r) == run_spec(*cmd),
{
    match &cmd.action {
        Action::List => Plan {
            request: api_request(HttpMethod::Get, owned("/webhooks"), RequestBody::Empty),
            output: Output::Table(webhooks_columns()),
        },
        Action::Get(a) => value_plan(api_request(HttpMethod::Get, webhook_path_of(a.uuid.as_str()), RequestBody::Empty)),
        Action::Create(a) => {
            let mut es: Vec<(String, EntryValue)> = Vec::new();
            put_str(&mut es, "name", &a.name);
            put_str(&mut es, "url", &a.url);
            put_list(&mut es, "events", &a.events);
            put_int(&mut es, "status", a.status);
            put_list(&mut es, "filter_users", &a.filter_users);
            put_list(&mut es, "filter_domains", &a.filter_domains);
            proof {
                assert(entries_view(es@) =~= create_entries(*a));
            }
            value_plan(api_request(HttpMethod::Post, owned("/webhooks"), recipe(&a.body_json, &a.field, es)))
        },
        Action::Update(a) => {
            let mut es: Vec<(String, EntryValue)> = Vec::new();
            let id = Some(a.uuid.clone());
            put_str(&mut es, "uuid", &id);
            put_str(&mut es, "name", &a.name);
            put_str(&mut es, "url", &a.url);
            put_list(&mut es, "events", &a.events);
            put_int(&mut es, "status", a.status);
            put_list(&mut es, "filter_users", &a.filter_users);
            put_list(&mut es, "filter_domains", &a.filter_domains);
            proof {
                assert(entries_view(es@) =~= update_entries(*a));
            }
            value_plan(api_request(HttpMethod::Patch, owned("/webhooks"), recipe(&a.body_json, &a.field, es)))
        },
        Action::Delete(a) => value_plan(api_request(HttpMethod::Delete, webhook_path_of(a.uuid.as_str()), RequestBody::Empty)),
        Action::Query(a) => {
            let mut es: Vec<(String, EntryValue)> = Vec::new();
            put_str(&mut es, "uuid", &a.uuid);
            put_str(&mut es, "event_id", &a.event_id);
            put_str(&mut es, "event_type", &a.event_type);
            put_str(&mut es, "source_uid", &a.source_uid);
            put_str(&mut es, "status", &a.status);
            put_int(&mut es, "date_from", a.date_from);
            put_int(&mut es, "date_to", a.date_to);
            put_int(&mut es, "limit", a.limit);
            put_int(&mut es, "offset", a.offset);
            proof {
                assert(entries_view(es@) =~= query_entries(*a));
            }
            let none: Vec<String> = Vec::new();
            value_plan(api_request(HttpMethod::Post, owned("/webhooks/query"), recipe(&a.body_json, &none, es)))
        },
        Action::Replay(a) => {
            let mut es: Vec<(String, EntryValue)> = Vec::new();
            put_str(&mut es, "event_id", &a.event_id);
            put_str(&mut es, "source_uid", &a.source_uid);
            put_str(&mut es, "uuid", &a.uuid);
            proof {
                assert(entries_view(es@) =~= replay_entries(*a));
            }
            let none: Vec<String> = Vec::new();
            value_plan(api_request(HttpMethod::Post, owned("/webhooks/replay"), recipe(&a.body_json, &none, es)))
        },
    }
}

} // verus!
