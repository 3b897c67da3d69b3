//! Outbound email logs.

use vstd::prelude::*;

use crate::client::{Auth, BodyV, HttpMethod};
use crate::commands::{pairs_view, plan_view, push_q_int, push_q_str, q_int, q_str, query_request, value_plan, Output, OutputV, Plan, RequestV};
use crate::text::owned;
use crate::tui::logs::{LogKind, TailOpts};

verus! {

/// `outbound logs`: the query, or a lookup by UID.
pub struct LogsCmd {
    pub action: Option<LogsAction>,
    pub query: LogsQuery,
    pub tail: bool,
    pub poll_secs: u64,
    pub buffer: usize,
}

pub enum LogsAction {
    Uid(UidArgs),
}

pub struct UidArgs {
    pub uid: String,
}

/// The query of the outbound logs.
pub struct LogsQuery {
    pub limit: Option<i64>,
    pub page: Option<i64>,
    pub offset: Option<i64>,
    pub sort_by: Option<String>,
    pub sort_order: Option<String>,
    pub id: Option<String>,
    pub uid: Option<String>,
    pub action: Option<String>,
    pub zone: Option<String>,
    pub message_id: Option<String>,
    pub from_address: Option<String>,
    pub to_address: Option<String>,
    pub mx: Option<String>,
    pub host: Option<String>,
    pub ip: Option<String>,
    pub response: Option<String>,
    pub user: Option<String>,
    pub protocol: Option<String>,
    pub src: Option<String>,
    pub subject: Option<String>,
    pub md5: Option<String>,
    pub interface_: Option<String>,
    pub originhost: Option<String>,
    pub transtype: Option<String>,
    pub header_from: Option<String>,
    pub date_from: Option<i64>,
    pub date_to: Option<i64>,
    pub from: Option<String>,
    pub to: Option<String>,
    pub rule_id: Option<String>,
    pub search: Option<String>,
}

/// The query pairs of the outbound logs, each flag that is given in order.
pub open spec fn query_spec(q: LogsQuery) -> Seq<(Seq<char>, Seq<char>)> {
    q_int("limit"@, q.limit) + q_int("page"@, q.page) + q_int("offset"@, q.offset) + q_str("sort_by"@, q.sort_by)
        + q_str("sort_order"@, q.sort_order) + q_str("id"@, q.id) + q_str("uid"@, q.uid) + q_str("action"@, q.action)
        + q_str("zone"@, q.zone) + q_str("message_id"@, q.message_id) + q_str("from_address"@, q.from_address)
        + q_str("to_address"@, q.to_address) + q_str("mx"@, q.mx) + q_str("host"@, q.host) + q_str("ip"@, q.ip)
        + q_str("response"@, q.response) + q_str("user"@, q.user) + q_str("protocol"@, q.protocol)
        + q_str("src"@, q.src) + q_str("subject"@, q.subject) + q_str("md5"@, q.md5)
        + q_str("interface_"@, q.interface_) + q_str("originhost"@, q.originhost)
        + q_str("transtype"@, q.transtype) + q_str("headerFrom"@, q.header_from) + q_int("date_from"@, q.date_from)
        + q_int("date_to"@, q.date_to) + q_str("from"@, q.from) + q_str("to"@, q.to) + q_str("rule_id"@, q.rule_id)
        + q_str("search"@, q.search)
}

/// The query pairs of the outbound logs (see `query_spec`).
pub fn query_pairs(q: &LogsQuery) -> (r: Vec<(String, String)>)
    ensures
        pairs_view(r@) == query_spec(*q),
{
    let mut out: Vec<(String, String)> = Vec::new();
    push_q_int(&mut out, "limit", q.limit);
    push_q_int(&mut out, "page", q.page);
    push_q_int(&mut out, "offset", q.offset);
    push_q_str(&mut out, "sort_by", &q.sort_by);
    push_q_str(&mut out, "sort_order", &q.sort_order);
    push_q_str(&mut out, "id", &q.id);
    push_q_str(&mut out, "uid", &q.uid);
    push_q_str(&mut out, "action", &q.action);
    push_q_str(&mut out, "zone", &q.zone);
    push_q_str(&mut out, "message_id", &q.message_id);
    push_q_str(&mut out, "from_address", &q.from_address);
    push_q_str(&mut out, "to_address", &q.to_address);
    push_q_str(&mut out, "mx", &q.mx);
    push_q_str(&mut out, "host", &q.host);
    push_q_str(&mut out, "ip", &q.ip);
    push_q_str(&mut out, "response", &q.response);
    push_q_str(&mut out, "user", &q.user);
    push_q_str(&mut out, "protocol", &q.protocol);
    push_q_str(&mut out, "src", &q.src);
    push_q_str(&mut out, "subject", &q.subject);
    push_q_str(&mut out, "md5", &q.md5);
    push_q_str(&mut out, "interface_", &q.interface_);
    push_q_str(&mut out, "originhost", &q.originhost);
    push_q_str(&mut out, "transtype", &q.transtype);
    push_q_str(&mut out, "headerFrom", &q.header_from);
    push_q_int(&mut out, "date_from", q.date_from);
    push_q_int(&mut out, "date_to", q.date_to);
    push_q_str(&mut out, "from", &q.from);
    push_q_str(&mut out, "to", &q.to);
    push_q_str(&mut out, "rule_id", &q.rule_id);
    push_q_str(&mut out, "search", &q.search);
    proof {
        assert(pairs_view(out@) =~= query_spec(*q));
    }
    out
}

/// The outbound logs: GET `/outbound/logs` with the query, shown once or
/// tailed live; or GET `/outbound/logs/uid` for one UID.
pub open spec fn run_spec(cmd: LogsCmd) -> (RequestV, OutputV) {
    match cmd.action {
        None => (
            (HttpMethod::Get, "/outbound/logs"@, Auth::Api, query_spec(cmd.query), BodyV::Empty),
            if cmd.tail { OutputV::Tail(LogKind::Outbound, cmd.poll_secs, cmd.buffer) } else { OutputV::Value },
        ),
        Some(LogsAction::Uid(a)) => (
            (HttpMethod::Get, "/outbound/logs/uid"@, Auth::Api, q_str("uid"@, Some(a.uid)), BodyV::Empty),
            OutputV::Value,
        ),
    }
}

/// What an outbound logs command requests (see `run_spec`).
pub fn run(cmd: &LogsCmd) -> (r: Plan)
    ensures
        plan_view(r) == run_spec(*cmd),
{
    match &cmd.action {
        None => {
            let request = query_request(HttpMethod::Get, owned("/outbound/logs"), query_pairs(&cmd.query));
            let output = if cmd.tail {
                Output::Tail(LogKind::Outbound, TailOpts { poll_secs: cmd.poll_secs, buffer: cmd.buffer })
            } else {
                Output::Value
            };
            Plan { request, output }
        },
        Some(LogsAction::Uid(a)) => {
            let mut q: Vec<(String, String)> = Vec::new();
            let uid = Some(a.uid.clone());
            push_q_str(&mut q, "uid", &uid);
            value_plan(query_request(HttpMethod::Get, owned("/outbound/logs/uid"), q))
        },
    }
}

} // verus!
