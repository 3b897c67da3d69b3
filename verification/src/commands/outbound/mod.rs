//! The outbound commands.

pub mod domains;
pub mod keys;
pub mod logs;
pub mod smarthost;
pub mod suppression;

use vstd::prelude::*;

use crate::commands::{plan_view, OutputV, Plan, RequestV};

verus! {

/// `outbound`.
pub struct Cmd {
    pub action: Action,
}

pub enum Action {
    Domains(domains::Cmd),
    Logs(logs::LogsCmd),
    Smarthost(smarthost::Cmd),
    Suppression(suppression::Cmd),
    Keys(keys::Cmd),
}

/// An outbound command, by its group.
pub open spec fn run_spec(cmd: Cmd) -> (RequestV, OutputV) {
    match cmd.action {
        Action::Domains(c) => domains::run_spec(c),
        Action::Logs(c) => logs::run_spec(c),
        Action::Smarthost(c) => smarthost::run_spec(c),
        Action::Suppression(c) => suppression::run_spec(c),
        Action::Keys(c) => keys::run_spec(c),
    }
}

/// What an outbound command requests (see `run_spec`).
pub fn run(cmd: &Cmd) -> (r: Plan)
    ensures
        plan_view(r) == run_spec(*cmd),
{
    match &cmd.action {
        Action::Domains(c) => domains::run(c),
        Action::Logs(c) => logs::run(c),
        Action::Smarthost(c) => smarthost::run(c),
        Action::Suppression(c) => suppression::run(c),
        Action::Keys(c) => keys::run(c),
    }
}

} // verus!
