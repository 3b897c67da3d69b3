//! Inbound domains: listing, adding, removing, DNS checks and forwarding rules.

use vstd::prelude::*;

use crate::client::{entries_view, request_view, Auth, BodyV, EntryV, EntryValue, HttpMethod, RequestBody};
use crate::commands::{
    api_req, api_request, around, around_of, built, columns_view, e_bool, e_headers, e_int, e_list, e_str, one_str,
    one_str_object, plan_view, put_bool, put_headers, put_int, put_list, put_str, recipe, sub_path, sub_path_of,
    value_plan, ColumnV, Output, OutputV, Plan, RequestV,
};
use crate::output::{CellTransform, ColorRule, Column};
use crate::text::owned;

verus! {

/// `inbound domains`.
pub struct Cmd {
    pub action: Action,
}

pub enum Action {
    List,
    Create(AddArgs),
    Delete(DeleteArgs),
    Check(UuidArg),
    ForwardRules(ForwardRulesCmd),
}

pub struct UuidArg {
    pub uuid: String,
}

pub struct DeleteArgs {
    pub uuid: String,
}

/// The flags of a new inbound domain.
pub struct AddArgs {
    pub domain: Option<String>,
    pub delivery_type: Option<String>,
    pub smtp_servers: Vec<String>,
    pub webhook_url: Option<String>,
    pub webhook_method: Option<String>,
    pub webhook_headers: Vec<String>,
    pub webhook_timeout: Option<i64>,
    pub webhook_retry_count: Option<i64>,
    pub webhook_auth_header: Option<String>,
    pub body_json: Option<String>,
    pub field: Vec<String>,
}

pub struct ForwardRulesCmd {
    pub action: ForwardRulesAction,
}

pub enum ForwardRulesAction {
    List(UuidArg),
    Add(AddRuleArgs),
    Get(RulePair),
    Update(UpdateRuleArgs),
    Delete(RulePair),
}

/// A domain and one of its forwarding rules.
pub struct RulePair {
    pub uuid: String,
    pub rule_uuid: String,
}

/// The flags of a new forwarding rule.
pub struct AddRuleArgs {
    pub uuid: String,
    pub localpart: Option<String>,
    pub destination: Option<String>,
    pub active: Option<bool>,
    pub body_json: Option<String>,
    pub field: Vec<String>,
}

/// The flags of a forwarding rule update.
pub struct UpdateRuleArgs {
    pub uuid: String,
    pub rule_uuid: String,
    pub destination: Option<String>,
    pub active: Option<bool>,
    pub body_json: Option<String>,
    pub field: Vec<String>,
}

/// The columns of the inbound domain table.
pub open spec fn inbound_domain_columns_spec() -> Seq<ColumnV> {
    seq![
        ("Domain"@, "domain"@, CellTransform::Plain, ColorRule::NoColor),
        ("Delivery"@, "delivery_type"@, CellTransform::Plain, ColorRule::NoColor),
        ("Status"@, "status"@, CellTransform::ActiveStatus, ColorRule::NoColor),
        ("UUID"@, "uuid"@, CellTransform::Plain, ColorRule::NoColor),
    ]
}

/// The columns of the inbound domain table: the status number read as
/// active or disabled.
pub fn inbound_domain_columns() -> (r: Vec<Column>)
    ensures
        columns_view(r@) == inbound_domain_columns_spec(),
{
    let r = vec![
        Column::new("Domain", "domain"),
        Column::new("Delivery", "delivery_type"),
        Column::new("Status", "status").with_transform(CellTransform::ActiveStatus),
        Column::new("UUID", "uuid"),
    ];
    proof {
        assert(columns_view(r@) =~= inbound_domain_columns_spec());
    }
    r
}

/// The explicit body values of a new domain, each flag that is given in
/// order; the webhook headers are read as `Name: Value`.
pub open spec fn add_entries(a: AddArgs) -> Seq<(Seq<char>, EntryV)> {
    e_str("domain"@, a.domain) + e_str("delivery_type"@, a.delivery_type) + e_list("smtp_servers"@, a.smtp_servers@)
        + e_str("webhook_url"@, a.webhook_url) + e_str("webhook_method"@, a.webhook_method)
        + e_headers("webhook_headers"@, a.webhook_headers@) + e_int("webhook_timeout"@, a.webhook_timeout)
        + e_int("webhook_retry_count"@, a.webhook_retry_count) + e_str("webhook_auth_header"@, a.webhook_auth_header)
}

/// The body of a new domain: `--body-json`, `--field`, then the flags.
pub fn build_add_body(a: &AddArgs) -> (r: RequestBody)
    ensures
        crate::client::body_view(r) == built(a.body_json, a.field@, add_entries(*a)),
{
    let mut es: Vec<(String, EntryValue)> = Vec::new();
    put_str(&mut es, "domain", &a.domain);
    put_str(&mut es, "delivery_type", &a.delivery_type);
    put_list(&mut es, "smtp_servers", &a.smtp_servers);
    put_str(&mut es, "webhook_url", &a.webhook_url);
    put_str(&mut es, "webhook_method", &a.webhook_method);
    put_headers(&mut es, "webhook_headers", &a.webhook_headers);
    put_int(&mut es, "webhook_timeout", a.webhook_timeout);
    put_int(&mut es, "webhook_retry_count", a.webhook_retry_count);
    put_str(&mut es, "webhook_auth_header", &a.webhook_auth_header);
    proof {
        assert(entries_view(es@) =~= add_entries(*a));
    }
    recipe(&a.body_json, &a.field, es)
}

/// The path of a domain's forwarding rules.
pub open spec fn rules_path(uuid: Seq<char>) -> Seq<char> {
    around("/inbound/domains/"@, uuid, "/forward-rules"@)
}

/// The explicit body values of a new forwarding rule.
pub open spec fn add_rule_entries(a: AddRuleArgs) -> Seq<(Seq<char>, EntryV)> {
    e_str("localpart"@, a.localpart) + e_str("destination"@, a.destination) + e_bool("active"@, a.active)
}

/// The explicit body values of a forwarding rule update.
pub open spec fn update_rule_entries(a: UpdateRuleArgs) -> Seq<(Seq<char>, EntryV)> {
    e_str("destination"@, a.destination) + e_bool("active"@, a.active)
}

/// The forwarding rule commands, under `/inbound/domains/{uuid}/forward-rules`
/// and `.../{rule_uuid}`; updates are PATCH.
pub open spec fn forward_rules_spec(fr: ForwardRulesCmd) -> (RequestV, OutputV) {
    match fr.action {
        ForwardRulesAction::List(u) => (api_req(HttpMethod::Get, rules_path(u.uuid@), BodyV::Empty), OutputV::Value),
        ForwardRulesAction::Add(a) => (
            api_req(HttpMethod::Post, rules_path(a.uuid@), built(a.body_json, a.field@, add_rule_entries(a))),
            OutputV::Value,
        ),
        ForwardRulesAction::Get(p) => (
            api_req(HttpMethod::Get, sub_path(rules_path(p.uuid@), p.rule_uuid@), BodyV::Empty),
            OutputV::Value,
        ),
        ForwardRulesAction::Update(a) => (
            api_req(
                HttpMethod::Patch,
                sub_path(rules_path(a.uuid@), a.rule_uuid@),
                built(a.body_json, a.field@, update_rule_entries(a)),
            ),
            OutputV::Value,
        ),
        ForwardRulesAction::Delete(p) => (
            api_req(HttpMethod::Delete, sub_path(rules_path(p.uuid@), p.rule_uuid@), BodyV::Empty),
            OutputV::Value,
        ),
    }
}

fn rules_path_of(uuid: &str) -> (r: String)
    ensures
        r@ == rules_path(uuid@),
{
    around_of("/inbound/domains/", uuid, "/forward-rules")
}

/// What a forwarding rule command requests (see `forward_rules_spec`).
pub fn forward_rules(fr: &ForwardRulesCmd) -> (r: Plan)
    ensures
        plan_view(r) == forward_rules_spec(*fr),
{
    match &fr.action {
        ForwardRulesAction::List(u) => value_plan(api_request(HttpMethod::Get, rules_path_of(u.uuid.as_str()), RequestBody::Empty)),
        ForwardRulesAction::Add(a) => {
            let mut es: Vec<(String, EntryValue)> = Vec::new();
            put_str(&mut es, "localpart", &a.localpart);
            put_str(&mut es, "destination", &a.destination);
            put_bool(&mut es, "active", a.active);
            proof {
                assert(entries_view(es@) =~= add_rule_entries(*a));
            }
            let body = recipe(&a.body_json, &a.field, es);
            value_plan(api_request(HttpMethod::Post, rules_path_of(a.uuid.as_str()), body))
        },
        ForwardRulesAction::Get(p) => {
            let path = sub_path_of(rules_path_of(p.uuid.as_str()).as_str(), p.rule_uuid.as_str());
            value_plan(api_request(HttpMethod::Get, path, RequestBody::Empty))
        },
        ForwardRulesAction::Update(a) => {
            let mut es: Vec<(String, EntryValue)> = Vec::new();
            put_str(&mut es, "destination", &a.destination);
            put_bool(&mut es, "active", a.active);
            proof {
                assert(entries_view(es@) =~= update_rule_entries(*a));
            }
            let body = recipe(&a.body_json, &a.field, es);
            let path = sub_path_of(rules_path_of(a.uuid.as_str()).as_str(), a.rule_uuid.as_str());
            value_plan(api_request(HttpMethod::Patch, path, body))
        },
        ForwardRulesAction::Delete(p) => {
            let path = sub_path_of(rules_path_of(p.uuid.as_str()).as_str(), p.rule_uuid.as_str());
            value_plan(api_request(HttpMethod::Delete, path, RequestBody::Empty))
        },
    }
}

/// The inbound domain commands: list (as a table), create, delete (the uuid
/// in the body), the DNS check, and the forwarding rules.
pub open spec fn run_spec(cmd: Cmd) -> (RequestV, OutputV) {
    match cmd.action {
        Action::List => (
            api_req(HttpMethod::Get, "/inbound/domains"@, BodyV::Empty),
            OutputV::Table(inbound_domain_columns_spec()),
        ),
        Action::Create(a) => (
            api_req(HttpMethod::Post, "/inbound/domains"@, built(a.body_json, a.field@, add_entries(a))),
            OutputV::Value,
        ),
        Action::Delete(a) => (
            api_req(HttpMethod::Delete, "/inbound/domains"@, BodyV::Fixed(one_str("uuid"@, a.uuid@))),
            OutputV::Value,
        ),
        Action::Check(a) => (
            api_req(HttpMethod::Post, around("/inbound/domains/"@, a.uuid@, "/check"@), BodyV::Empty),
            OutputV::Value,
        ),
        Action::ForwardRules(fr) => forward_rules_spec(fr),
    }
}

/// What an inbound domain command requests (see `run_spec`).
pub fn run(cmd: &Cmd) -> (r: Plan)
    ensures
        plan_view(r) == run_spec(*cmd),
{
    match &cmd.action {
        Action::List => Plan {
            request: api_request(HttpMethod::Get, owned("/inbound/domains"), RequestBody::Empty),
            output: Output::Table(inbound_domain_columns()),
        },
        Action::Create(a) => value_plan(api_request(HttpMethod::Post, owned("/inbound/domains"), build_add_body(a))),
        Action::Delete(a) => value_plan(
            api_request(HttpMethod::Delete, owned("/inbound/domains"), RequestBody::Fixed(one_str_object("uuid", &a.uuid))),
        ),
        Action::Check(a) => value_plan(
            api_request(HttpMethod::Post, around_of("/inbound/domains/", a.uuid.as_str(), "/check"), RequestBody::Empty),
        ),
        Action::ForwardRules(fr) => forward_rules(fr),
    }
}

} // verus!
