//! Per-domain inbound filters (allowlist and blocklist).

use vstd::prelude::*;

use crate::client::{entries_view, request_view, Auth, BodyV, EntryV, HttpMethod, RequestBody};
use crate::commands::inbound::account::{build_rule_update_body, rule_entries, rule_entries_of, rule_update_entries, RuleBody, RuleUpdate, UuidArg};
use crate::commands::{
    api_req, api_request, built, e_default_str, pairs_view, plan_view, push_q_int, push_q_str, put_default_str, q_int,
    q_str, query_request, recipe, sub_path, sub_path_of, value_plan, OutputV, Plan, RequestV,
};
use crate::text::owned;

verus! {

/// `inbound filters`.
pub struct Cmd {
    pub action: Action,
}

pub enum Action {
    /// Domain allowlist rules.
    Allowlist(FilterCmd),
    /// Domain blocklist rules.
    Blocklist(FilterCmd),
}

pub struct FilterCmd {
    pub action: FilterAction,
}

pub enum FilterAction {
    List(ListArgs),
    Get(UuidArg),
    Create(CreateArgs),
    Update(RuleUpdate),
    Delete(UuidArg),
}

/// The scope of a filter list: a domain or a subdomain.
pub struct ListArgs {
    pub domain: Option<String>,
    pub subdomain_id: Option<i64>,
    pub subdomain_uuid: Option<String>,
}

/// A new filter: its scope and its rule.
pub struct CreateArgs {
    pub query: ListArgs,
    pub body: RuleBody,
}

/// The query pairs of a filter scope.
pub open spec fn list_query_spec(q: ListArgs) -> Seq<(Seq<char>, Seq<char>)> {
    q_str("domain"@, q.domain) + q_int("subdomain_id"@, q.subdomain_id) + q_str("subdomain_uuid"@, q.subdomain_uuid)
}

/// The query pairs of a filter scope (see `list_query_spec`).
pub fn list_query(q: &ListArgs) -> (r: Vec<(String, String)>)
    ensures
        pairs_view(r@) == list_query_spec(*q),
{
    let mut out: Vec<(String, String)> = Vec::new();
    push_q_str(&mut out, "domain", &q.domain);
    push_q_int(&mut out, "subdomain_id", q.subdomain_id);
    push_q_str(&mut out, "subdomain_uuid", &q.subdomain_uuid);
    proof {
        assert(pairs_view(out@) =~= list_query_spec(*q));
    }
    out
}

/// The explicit body values of a new filter: the rule's, then its scope's
/// domain unless the body already names one.
pub open spec fn create_entries(c: CreateArgs) -> Seq<(Seq<char>, EntryV)> {
    rule_entries(c.body) + e_default_str("domain"@, c.query.domain)
}

/// A filter command under `base`: list (with the scope as query) and create
/// (scope as query, rule as body) at `base`, the others at `base/{uuid}`.
pub open spec fn filter_spec(cmd: FilterCmd, base: Seq<char>) -> (RequestV, OutputV) {
    match cmd.action {
        FilterAction::List(q) => ((HttpMethod::Get, base, Auth::Api, list_query_spec(q), BodyV::Empty), OutputV::Value),
        FilterAction::Get(a) => (api_req(HttpMethod::Get, sub_path(base, a.uuid@), BodyV::Empty), OutputV::Value),
        FilterAction::Create(c) => (
            (HttpMethod::Post, base, Auth::Api, list_query_spec(c.query), built(c.body.body_json, c.body.field@, create_entries(c))),
            OutputV::Value,
        ),
        FilterAction::Update(u) => (
            api_req(HttpMethod::Patch, sub_path(base, u.uuid@), built(u.body_json, u.field@, rule_update_entries(u))),
            OutputV::Value,
        ),
        FilterAction::Delete(a) => (api_req(HttpMethod::Delete, sub_path(base, a.uuid@), BodyV::Empty), OutputV::Value),
    }
}

/// What a filter command under `base` requests (see `filter_spec`).
pub fn run_filter(cmd: &FilterCmd, base_path: &str) -> (r: Plan)
    ensures
        plan_view(r) == filter_spec(*cmd, base_path@),
{
    match &cmd.action {
        FilterAction::List(q) => value_plan(query_request(HttpMethod::Get, owned(base_path), list_query(q))),
        FilterAction::Get(a) => value_plan(api_request(HttpMethod::Get, sub_path_of(base_path, a.uuid.as_str()), RequestBody::Empty)),
        FilterAction::Create(c) => {
            let mut es = rule_entries_of(&c.body);
            put_default_str(&mut es, "domain", &c.query.domain);
            let body = recipe(&c.body.body_json, &c.body.field, es);
            let request = crate::client::ApiRequest {
                method: HttpMethod::Post,
                path: owned(base_path),
                auth: Auth::Api,
                query: list_query(&c.query),
                body,
            };
            value_plan(request)
        },
        FilterAction::Update(u) => value_plan(
            api_request(HttpMethod::Patch, sub_path_of(base_path, u.uuid.as_str()), build_rule_update_body(u)),
        ),
        FilterAction::Delete(a) => value_plan(
            api_request(HttpMethod::Delete, sub_path_of(base_path, a.uuid.as_str()), RequestBody::Empty),
        ),
    }
}

/// The filter commands: the allowlist under `/inbound/filters/allowlist`,
/// the blocklist under `/inbound/filters/blocklist`.
pub open spec fn run_spec(cmd: Cmd) -> (RequestV, OutputV) {
    match cmd.action {
        Action::Allowlist(c) => filter_spec(c, "/inbound/filters/allowlist"@),
        Action::Blocklist(c) => filter_spec(c, "/inbound/filters/blocklist"@),
    }
}

/// What a filter command requests (see `run_spec`).
pub fn run(cmd: &Cmd) -> (r: Plan)
    ensures
        plan_view(r) == run_spec(*cmd),
{
    match &cmd.action {
        Action::Allowlist(c) => run_filter(c, "/inbound/filters/allowlist"),
        Action::Blocklist(c) => run_filter(c, "/inbound/filters/blocklist"),
    }
}

} // verus!
