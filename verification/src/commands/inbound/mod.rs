//! The inbound commands.

pub mod account;
pub mod destinations;
pub mod domains;
pub mod filters;
pub mod logs;
pub mod quarantine;
pub mod settings;

use vstd::prelude::*;

use crate::commands::{plan_view, OutputV, Plan, RequestV};

verus! {

/// `inbound`.
pub struct Cmd {
    pub action: Action,
}

pub enum Action {
    Account(account::Cmd),
    Domains(domains::Cmd),
    Filters(filters::Cmd),
    Destinations(destinations::Cmd),
    Logs(logs::LogsArgs),
    Quarantine(quarantine::Cmd),
    Settings(settings::Cmd),
}

/// An inbound command, by its group.
pub open spec fn run_spec(cmd: Cmd) -> (RequestV, OutputV) {
    match cmd.action {
        Action::Account(c) => account::run_spec(c),
        Action::Domains(c) => domains::run_spec(c),
        Action::Filters(c) => filters::run_spec(c),
        Action::Destinations(c) => destinations::run_spec(c),
        Action::Logs(a) => logs::run_spec(a),
        Action::Quarantine(c) => quarantine::run_spec(c),
        Action::Settings(c) => settings::run_spec(c),
    }
}

/// What an inbound command requests (see `run_spec`).
pub fn run(cmd: &Cmd) -> (r: Plan)
    ensures
        plan_view(r) == run_spec(*cmd),
{
    match &cmd.action {
        Action::Account(c) => account::run(c),
        Action::Domains(c) => domains::run(c),
        Action::Filters(c) => filters::run(c),
        Action::Destinations(c) => destinations::run(c),
        Action::Logs(a) => logs::run(a),
        Action::Quarantine(c) => quarantine::run(c),
        Action::Settings(c) => settings::run(c),
    }
}

} // verus!
