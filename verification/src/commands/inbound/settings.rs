//! Inbound domain settings.

use vstd::prelude::*;

use crate::client::{enc, enc_bytes, entries_view, BodyV, EntryV, EntryValue, HttpMethod, RequestBody};
use crate::commands::{
    api_req, api_request, built, concat, e_headers, e_int, e_list, e_str, plan_view, put_headers, put_int, put_list,
    put_str, recipe, value_plan, OutputV, Plan, RequestV,
};
use vstd::utf8::encode_utf8;

verus! {

/// `inbound settings`.
pub struct Cmd {
    pub action: Action,
}

pub enum Action {
    Get(UuidArg),
    Update(UpdateArgs),
}

pub struct UuidArg {
    pub uuid: String,
}

/// The flags of a settings update.
pub struct UpdateArgs {
    pub uuid: String,
    pub status: Option<String>,
    pub delivery_type: Option<String>,
    pub smtp_servers: Vec<String>,
    pub webhook_url: Option<String>,
    pub webhook_method: Option<String>,
    pub webhook_headers: Vec<String>,
    pub webhook_timeout: Option<i64>,
    pub webhook_retry_count: Option<i64>,
    pub webhook_auth_header: Option<String>,
    pub body_json: Option<String>,
    pub field: Vec<String>,
}

/// The settings path of a domain, its uuid escaped as a path segment.
pub open spec fn settings_path(uuid: Seq<char>) -> Seq<char> {
    "/inbound/settings/"@ + enc_bytes(encode_utf8(uuid))
}

fn settings_path_of(uuid: &str) -> (r: String)
    ensures
        r@ == settings_path(uuid@),
{
    concat("/inbound/settings/", enc(uuid).as_str())
}

/// The explicit body values of a settings update, each flag that is given
/// in order; the webhook headers are read as `Name: Value`.
pub open spec fn update_entries(a: UpdateArgs) -> Seq<(Seq<char>, EntryV)> {
    e_str("status"@, a.status) + e_str("delivery_type"@, a.delivery_type) + e_list("smtp_servers"@, a.smtp_servers@)
        + e_str("webhook_url"@, a.webhook_url) + e_str("webhook_method"@, a.webhook_method)
        + e_headers("webhook_headers"@, a.webhook_headers@) + e_int("webhook_timeout"@, a.webhook_timeout)
        + e_int("webhook_retry_count"@, a.webhook_retry_count) + e_str("webhook_auth_header"@, a.webhook_auth_header)
}

/// Reading (GET) or updating (PATCH) the settings at `/inbound/settings/{uuid}`.
pub open spec fn run_spec(cmd: Cmd) -> (RequestV, OutputV) {
    match cmd.action {
        Action::Get(a) => (api_req(HttpMethod::Get, settings_path(a.uuid@), BodyV::Empty), OutputV::Value),
        Action::Update(a) => (
            api_req(HttpMethod::Patch, settings_path(a.uuid@), built(a.body_json, a.field@, update_entries(a))),
            OutputV::Value,
        ),
    }
}

/// What a settings command requests (see `run_spec`).
pub fn run(cmd: &Cmd) -> (r: Plan)
    ensures
        plan_view(r) == run_spec(*cmd),
{
    match &cmd.action {
        Action::Get(a) => value_plan(api_request(HttpMethod::Get, settings_path_of(a.uuid.as_str()), RequestBody::Empty)),
        Action::Update(a) => {
            let mut es: Vec<(String, EntryValue)> = Vec::new();
            put_str(&mut es, "status", &a.status);
            put_str(&mut es, "delivery_type", &a.delivery_type);
            put_list(&mut es, "smtp_servers", &a.smtp_servers);
            put_str(&mut es, "webhook_url", &a.webhook_url);
            put_str(&mut es, "webhook_method", &a.webhook_method);
            put_headers(&mut es, "webhook_headers", &a.webhook_headers);
            put_int(&mut es, "webhook_timeout", a.webhook_timeout);
            put_int(&mut es, "webhook_retry_count", a.webhook_retry_count);
            put_str(&mut es, "webhook_auth_header", &a.webhook_auth_header);
            proof {
                assert(entries_view(es@) =~= update_entries(*a));
            }
            let body = recipe(&a.body_json, &a.field, es);
            value_plan(api_request(HttpMethod::Patch, settings_path_of(a.uuid.as_str()), body))
        },
    }
}

} // verus!
