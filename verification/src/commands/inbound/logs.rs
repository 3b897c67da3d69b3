//! Inbound email logs.

use vstd::prelude::*;

use crate::client::{Auth, BodyV, HttpMethod};
use crate::commands::{pairs_view, plan_view, push_q_int, push_q_str, q_int, q_str, query_request, Output, OutputV, Plan, RequestV};
use crate::text::owned;
use crate::tui::logs::{LogKind, TailOpts};

verus! {

/// The query of the inbound logs; the spam scores are given as the text
/// their numbers print as in a query.
pub struct LogsArgs {
    pub tail: bool,
    pub poll_secs: u64,
    pub buffer: usize,
    pub uuid: Option<String>,
    pub subdomain_id: Option<i64>,
    pub limit: Option<i64>,
    pub page: Option<i64>,
    pub offset: Option<i64>,
    pub uid: Option<String>,
    pub logtype: Option<String>,
    pub subject: Option<String>,
    pub from: Option<String>,
    pub to: Option<String>,
    pub spamscore_min: Option<String>,
    pub spamscore_max: Option<String>,
    pub host: Option<String>,
    pub ip: Option<String>,
    pub date_from: Option<i64>,
    pub date_to: Option<i64>,
    pub sort_by: Option<String>,
    pub sort_order: Option<String>,
}

/// The query pairs of the inbound logs, each flag that is given in order.
pub open spec fn logs_query_spec(a: LogsArgs) -> Seq<(Seq<char>, Seq<char>)> {
    q_str("uuid"@, a.uuid) + q_int("subdomain_id"@, a.subdomain_id) + q_int("limit"@, a.limit)
        + q_int("page"@, a.page) + q_int("offset"@, a.offset) + q_str("uid"@, a.uid) + q_str("logtype"@, a.logtype)
        + q_str("subject"@, a.subject) + q_str("from"@, a.from) + q_str("to"@, a.to)
        + q_str("spamscore_min"@, a.spamscore_min) + q_str("spamscore_max"@, a.spamscore_max)
        + q_str("host"@, a.host) + q_str("ip"@, a.ip) + q_int("date_from"@, a.date_from)
        + q_int("date_to"@, a.date_to) + q_str("sort_by"@, a.sort_by) + q_str("sort_order"@, a.sort_order)
}

/// The query pairs of the inbound logs (see `logs_query_spec`).
pub fn logs_query(a: &LogsArgs) -> (r: Vec<(String, String)>)
    ensures
        pairs_view(r@) == logs_query_spec(*a),
{
    let mut q: Vec<(String, String)> = Vec::new();
    push_q_str(&mut q, "uuid", &a.uuid);
    push_q_int(&mut q, "subdomain_id", a.subdomain_id);
    push_q_int(&mut q, "limit", a.limit);
    push_q_int(&mut q, "page", a.page);
    push_q_int(&mut q, "offset", a.offset);
    push_q_str(&mut q, "uid", &a.uid);
    push_q_str(&mut q, "logtype", &a.logtype);
    push_q_str(&mut q, "subject", &a.subject);
    push_q_str(&mut q, "from", &a.from);
    push_q_str(&mut q, "to", &a.to);
    push_q_str(&mut q, "spamscore_min", &a.spamscore_min);
    push_q_str(&mut q, "spamscore_max", &a.spamscore_max);
    push_q_str(&mut q, "host", &a.host);
    push_q_str(&mut q, "ip", &a.ip);
    push_q_int(&mut q, "date_from", a.date_from);
    push_q_int(&mut q, "date_to", a.date_to);
    push_q_str(&mut q, "sort_by", &a.sort_by);
    push_q_str(&mut q, "sort_order", &a.sort_order);
    proof {
        assert(pairs_view(q@) =~= logs_query_spec(*a));
    }
    q
}

/// The inbound logs: GET `/inbound/logs` with the query, shown once or
/// tailed live.
pub open spec fn run_spec(a: LogsArgs) -> (RequestV, OutputV) {
    (
        (HttpMethod::Get, "/inbound/logs"@, Auth::Api, logs_query_spec(a), BodyV::Empty),
        if a.tail { OutputV::Tail(LogKind::Inbound, a.poll_secs, a.buffer) } else { OutputV::Value },
    )
}

/// What the inbound logs command requests (see `run_spec`).
pub fn run(a: &LogsArgs) -> (r: Plan)
    ensures
        plan_view(r) == run_spec(*a),
{
    let request = query_request(HttpMethod::Get, owned("/inbound/logs"), logs_query(a));
    let output = if a.tail {
        Output::Tail(LogKind::Inbound, TailOpts { poll_secs: a.poll_secs, buffer: a.buffer })
    } else {
        Output::Value
    };
    Plan { request, output }
}

} // verus!
