//! Account-level inbound rules (allowlist and blocklist) and logs.

use vstd::prelude::*;

use crate::client::{entries_view, request_view, BodyV, EntryV, EntryValue, HttpMethod, RequestBody};
use crate::commands::{
    api_req, api_request, built, e_bool, e_list, e_str, pairs_view, plan_view, push_q_int, push_q_str, put_bool,
    put_list, put_str, q_int, q_str, query_request, recipe, sub_path, sub_path_of, value_plan, Output, OutputV, Plan,
    RequestV,
};
use crate::text::owned;
use crate::tui::logs::{LogKind, TailOpts};

verus! {

/// `inbound account`.
pub struct Cmd {
    pub action: Action,
}

pub enum Action {
    /// Account-level allowlist rules.
    Allowlist(RuleCmd),
    /// Account-level blocklist rules.
    Blocklist(RuleCmd),
    /// GET /inbound/account/logs.
    Logs(LogsArgs),
}

/// A rule list command.
pub struct RuleCmd {
    pub action: RuleAction,
}

pub enum RuleAction {
    List,
    Get(UuidArg),
    Create(RuleBody),
    Update(RuleUpdate),
    Delete(UuidArg),
}

pub struct UuidArg {
    pub uuid: String,
}

/// The flags of a new rule.
pub struct RuleBody {
    pub name: Option<String>,
    pub description: Option<String>,
    pub senders: Vec<String>,
    pub recipients: Vec<String>,
    pub subjects: Vec<String>,
    pub bodies: Vec<String>,
    pub headers: Vec<String>,
    pub ips: Vec<String>,
    pub attachments: Vec<String>,
    pub body_json: Option<String>,
    pub field: Vec<String>,
}

/// The flags of a rule update.
pub struct RuleUpdate {
    pub uuid: String,
    pub name: Option<String>,
    pub description: Option<String>,
    pub enabled: Option<bool>,
    pub senders: Vec<String>,
    pub recipients: Vec<String>,
    pub subjects: Vec<String>,
    pub bodies: Vec<String>,
    pub headers: Vec<String>,
    pub ips: Vec<String>,
    pub attachments: Vec<String>,
    pub body_json: Option<String>,
    pub field: Vec<String>,
}

/// The query of the account logs; the spam scores are given as the text
/// their numbers print as in a query.
pub struct LogsArgs {
    pub tail: bool,
    pub poll_secs: u64,
    pub buffer: usize,
    pub domains: Option<String>,
    pub logtype: Option<String>,
    pub to: Option<String>,
    pub from: Option<String>,
    pub subject: Option<String>,
    pub ip: Option<String>,
    pub date_from: Option<i64>,
    pub date_to: Option<i64>,
    pub spamscore_min: Option<String>,
    pub spamscore_max: Option<String>,
    pub host: Option<String>,
    pub port: Option<i64>,
    pub mode: Option<String>,
    pub limit: Option<i64>,
    pub offset: Option<i64>,
    pub page: Option<i64>,
    pub sort_by: Option<String>,
    pub sort_order: Option<String>,
}

/// The explicit body values of a new rule: name, description, then each
/// pattern list that is given.
pub open spec fn rule_entries(b: RuleBody) -> Seq<(Seq<char>, EntryV)> {
    e_str("name"@, b.name) + e_str("description"@, b.description) + e_list("senders"@, b.senders@)
        + e_list("recipients"@, b.recipients@) + e_list("subjects"@, b.subjects@) + e_list("body"@, b.bodies@)
        + e_list("headers"@, b.headers@) + e_list("ips"@, b.ips@) + e_list("attachments"@, b.attachments@)
}

/// The explicit body values of a rule update: name, description, enabled,
/// then each pattern list that is given.
pub open spec fn rule_update_entries(b: RuleUpdate) -> Seq<(Seq<char>, EntryV)> {
    e_str("name"@, b.name) + e_str("description"@, b.description) + e_bool("enabled"@, b.enabled)
        + e_list("senders"@, b.senders@) + e_list("recipients"@, b.recipients@) + e_list("subjects"@, b.subjects@)
        + e_list("body"@, b.bodies@) + e_list("headers"@, b.headers@) + e_list("ips"@, b.ips@)
        + e_list("attachments"@, b.attachments@)
}

/// The body of a new rule: `--body-json`, `--field`, then the flags.
pub fn build_rule_body(b: &RuleBody) -> (r: RequestBody)
    ensures
        crate::client::body_view(r) == built(b.body_json, b.field@, rule_entries(*b)),
{
    recipe(&b.body_json, &b.field, rule_entries_of(b))
}

/// The explicit body values of a new rule (see `rule_entries`).
pub fn rule_entries_of(b: &RuleBody) -> (r: Vec<(String, EntryValue)>)
    ensures
        entries_view(r@) == rule_entries(*b),
{
    let mut es: Vec<(String, EntryValue)> = Vec::new();
    put_str(&mut es, "name", &b.name);
    put_str(&mut es, "description", &b.description);
    put_list(&mut es, "senders", &b.senders);
    put_list(&mut es, "recipients", &b.recipients);
    put_list(&mut es, "subjects", &b.subjects);
    put_list(&mut es, "body", &b.bodies);
    put_list(&mut es, "headers", &b.headers);
    put_list(&mut es, "ips", &b.ips);
    put_list(&mut es, "attachments", &b.attachments);
    proof {
        assert(entries_view(es@) =~= rule_entries(*b));
    }
    es
}

/// The body of a rule update: `--body-json`, `--field`, then the flags.
pub fn build_rule_update_body(b: &RuleUpdate) -> (r: RequestBody)
    ensures
        crate::client::body_view(r) == built(b.body_json, b.field@, rule_update_entries(*b)),
{
    let mut es: Vec<(String, EntryValue)> = Vec::new();
    put_str(&mut es, "name", &b.name);
    put_str(&mut es, "description", &b.description);
    put_bool(&mut es, "enabled", b.enabled);
    put_list(&mut es, "senders", &b.senders);
    put_list(&mut es, "recipients", &b.recipients);
    put_list(&mut es, "subjects", &b.subjects);
    put_list(&mut es, "body", &b.bodies);
    put_list(&mut es, "headers", &b.headers);
    put_list(&mut es, "ips", &b.ips);
    put_list(&mut es, "attachments", &b.attachments);
    proof {
        assert(entries_view(es@) =~= rule_update_entries(*b));
    }
    recipe(&b.body_json, &b.field, es)
}

/// A rule command under `base`: list and create at `base`, the others at
/// `base/{uuid}`; updates are PATCH.
pub open spec fn rule_spec(cmd: RuleCmd, base: Seq<char>) -> (RequestV, OutputV) {
    match cmd.action {
        RuleAction::List => (api_req(HttpMethod::Get, base, BodyV::Empty), OutputV::Value),
        RuleAction::Get(a) => (api_req(HttpMethod::Get, sub_path(base, a.uuid@), BodyV::Empty), OutputV::Value),
        RuleAction::Create(b) => (
            api_req(HttpMethod::Post, base, built(b.body_json, b.field@, rule_entries(b))),
            OutputV::Value,
        ),
        RuleAction::Update(u) => (
            api_req(HttpMethod::Patch, sub_path(base, u.uuid@), built(u.body_json, u.field@, rule_update_entries(u))),
            OutputV::Value,
        ),
        RuleAction::Delete(a) => (api_req(HttpMethod::Delete, sub_path(base, a.uuid@), BodyV::Empty), OutputV::Value),
    }
}

/// What a rule command under `base` requests (see `rule_spec`).
pub fn run_rule(cmd: &RuleCmd, base_path: &str) -> (r: Plan)
    ensures
        plan_view(r) == rule_spec(*cmd, base_path@),
{
    match &cmd.action {
        RuleAction::List => value_plan(api_request(HttpMethod::Get, owned(base_path), RequestBody::Empty)),
        RuleAction::Get(a) => value_plan(api_request(HttpMethod::Get, sub_path_of(base_path, a.uuid.as_str()), RequestBody::Empty)),
        RuleAction::Create(b) => value_plan(api_request(HttpMethod::Post, owned(base_path), build_rule_body(b))),
        RuleAction::Update(u) => value_plan(
            api_request(HttpMethod::Patch, sub_path_of(base_path, u.uuid.as_str()), build_rule_update_body(u)),
        ),
        RuleAction::Delete(a) => value_plan(
            api_request(HttpMethod::Delete, sub_path_of(base_path, a.uuid.as_str()), RequestBody::Empty),
        ),
    }
}

/// The query pairs of the account logs, each flag that is given in order.
pub open spec fn logs_query_spec(a: LogsArgs) -> Seq<(Seq<char>, Seq<char>)> {
    q_str("domains"@, a.domains) + q_str("logtype"@, a.logtype) + q_str("to"@, a.to) + q_str("from"@, a.from)
        + q_str("subject"@, a.subject) + q_str("ip"@, a.ip) + q_int("date_from"@, a.date_from)
        + q_int("date_to"@, a.date_to) + q_str("spamscore_min"@, a.spamscore_min)
        + q_str("spamscore_max"@, a.spamscore_max) + q_str("host"@, a.host) + q_int("port"@, a.port)
        + q_str("mode"@, a.mode) + q_int("limit"@, a.limit) + q_int("offset"@, a.offset) + q_int("page"@, a.page)
        + q_str("sort_by"@, a.sort_by) + q_str("sort_order"@, a.sort_order)
}

/// The query pairs of the account logs (see `logs_query_spec`).
pub fn logs_query(a: &LogsArgs) -> (r: Vec<(String, String)>)
    ensures
        pairs_view(r@) == logs_query_spec(*a),
{
    let mut q: Vec<(String, String)> = Vec::new();
    push_q_str(&mut q, "domains", &a.domains);
    push_q_str(&mut q, "logtype", &a.logtype);
    push_q_str(&mut q, "to", &a.to);
    push_q_str(&mut q, "from", &a.from);
    push_q_str(&mut q, "subject", &a.subject);
    push_q_str(&mut q, "ip", &a.ip);
    push_q_int(&mut q, "date_from", a.date_from);
    push_q_int(&mut q, "date_to", a.date_to);
    push_q_str(&mut q, "spamscore_min", &a.spamscore_min);
    push_q_str(&mut q, "spamscore_max", &a.spamscore_max);
    push_q_str(&mut q, "host", &a.host);
    push_q_int(&mut q, "port", a.port);
    push_q_str(&mut q, "mode", &a.mode);
    push_q_int(&mut q, "limit", a.limit);
    push_q_int(&mut q, "offset", a.offset);
    push_q_int(&mut q, "page", a.page);
    push_q_str(&mut q, "sort_by", &a.sort_by);
    push_q_str(&mut q, "sort_order", &a.sort_order);
    proof {
        assert(pairs_view(q@) =~= logs_query_spec(*a));
    }
    q
}

/// The account commands: the allowlist and blocklist rules under
/// `/inbound/account/allowlist` and `/inbound/account/blocklist`, and the
/// logs, fetched once or tailed live.
pub open spec fn run_spec(cmd: Cmd) -> (RequestV, OutputV) {
    match cmd.action {
        Action::Allowlist(c) => rule_spec(c, "/inbound/account/allowlist"@),
        Action::Blocklist(c) => rule_spec(c, "/inbound/account/blocklist"@),
        Action::Logs(a) => (
            (HttpMethod::Get, "/inbound/account/logs"@, crate::client::Auth::Api, logs_query_spec(a), BodyV::Empty),
            if a.tail { OutputV::Tail(LogKind::Account, a.poll_secs, a.buffer) } else { OutputV::Value },
        ),
    }
}

/// What an account command requests and how its reply is shown (see `run_spec`).
pub fn run(cmd: &Cmd) -> (r: Plan)
    ensures
        plan_view(r) == run_spec(*cmd),
{
    match &cmd.action {
        Action::Allowlist(c) => run_rule(c, "/inbound/account/allowlist"),
        Action::Blocklist(c) => run_rule(c, "/inbound/account/blocklist"),
        Action::Logs(a) => {
            let request = query_request(HttpMethod::Get, owned("/inbound/account/logs"), logs_query(a));
            let output = if a.tail {
                Output::Tail(LogKind::Account, TailOpts { poll_secs: a.poll_secs, buffer: a.buffer })
            } else {
                Output::Value
            };
            Plan { request, output }
        },
    }
}

} // verus!
