//! Releasing quarantined inbound email.

use vstd::prelude::*;

use crate::client::{BodyV, HttpMethod, RequestBody};
use crate::commands::{api_req, api_request, one_str, one_str_object, plan_view, value_plan, OutputV, Plan, RequestV};
use crate::text::owned;

verus! {

/// `inbound quarantine`.
pub struct Cmd {
    pub action: Action,
}

pub enum Action {
    Release(ReleaseArgs),
}

/// The UID of the quarantined message.
pub struct ReleaseArgs {
    pub uid: String,
}

/// Releasing a message: its UID posted to `/inbound/quarantine-release`.
pub open spec fn run_spec(cmd: Cmd) -> (RequestV, OutputV) {
    match cmd.action {
        Action::Release(a) => (
            api_req(HttpMethod::Post, "/inbound/quarantine-release"@, BodyV::Fixed(one_str("uid"@, a.uid@))),
            OutputV::Value,
        ),
    }
}

/// What a quarantine command requests (see `run_spec`).
pub fn run(cmd: &Cmd) -> (r: Plan)
    ensures
        plan_view(r) == run_spec(*cmd),
{
    match &cmd.action {
        Action::Release(a) => value_plan(
            api_request(HttpMethod::Post, owned("/inbound/quarantine-release"), RequestBody::Fixed(one_str_object("uid", &a.uid))),
        ),
    }
}

} // verus!
