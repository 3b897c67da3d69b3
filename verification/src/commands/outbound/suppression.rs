//! The suppression list: listing, adding, removing, exporting and importing.

use vstd::prelude::*;

use crate::client::{BodyV, HttpMethod, RequestBody};
use crate::commands::{api_req, api_request, columns_view, plan_view, value_plan, ColumnV, Output, OutputV, Plan, RequestV};
use crate::json::{insert_member, members_view, obj_insert, Json, JsonV};
use crate::output::{CellTransform, ColorRule, Column};
use crate::text::{int_chars, int_text, owned, string_of};

verus! {

/// `outbound suppression`.
pub struct Cmd {
    pub action: Action,
}

pub enum Action {
    List,
    Create(CreateArgs),
    Delete(DeleteArgs),
    Export,
    Import(ImportArgs),
}

/// A new suppressed target and why.
pub struct CreateArgs {
    pub target_value: String,
    pub reason: Option<String>,
}

/// The id of an entry to remove.
pub struct DeleteArgs {
    pub id: i64,
}

/// Where the CSV to import comes from.
pub struct ImportArgs {
    pub source: String,
}

/// The columns of the suppression table.
pub open spec fn suppression_columns_spec() -> Seq<ColumnV> {
    seq![
        ("ID"@, "id"@, CellTransform::Plain, ColorRule::NoColor),
        ("Target"@, "target_value"@, CellTransform::Truncate(50), ColorRule::NoColor),
        ("Status"@, "status"@, CellTransform::ActiveStatus, ColorRule::NoColor),
        ("Created"@, "created_date"@, CellTransform::Truncate(19), ColorRule::NoColor),
    ]
}

/// The columns of the suppression table.
pub fn suppression_columns() -> (r: Vec<Column>)
    ensures
        columns_view(r@) == suppression_columns_spec(),
{
    let r = vec![
        Column::new("ID", "id"),
        Column::new("Target", "target_value").with_transform(CellTransform::Truncate(50)),
        Column::new("Status", "status").with_transform(CellTransform::ActiveStatus),
        Column::new("Created", "created_date").with_transform(CellTransform::Truncate(19)),
    ];
    proof {
        assert(columns_view(r@) =~= suppression_columns_spec());
    }
    r
}

/// The body of a new entry: the target, then the reason when given.
pub open spec fn create_body(a: CreateArgs) -> JsonV {
    JsonV::Object(
        seq![("target_value"@, JsonV::Str(a.target_value@))] + match a.reason {
            Some(r) => seq![("reason"@, JsonV::Str(r@))],
            None => Seq::empty(),
        },
    )
}

fn create_body_of(a: &CreateArgs) -> (r: Json)
    ensures
        r.view_deep() == create_body(*a),
{
    let mut m: Vec<(String, Json)> = Vec::new();
    m.push((owned("target_value"), Json::Str(a.target_value.clone())));
    if let Some(r) = &a.reason {
        m.push((owned("reason"), Json::Str(r.clone())));
    }
    let ghost mv = members_view(m@);
    proof {
        assert(mv =~= seq![("target_value"@, JsonV::Str(a.target_value@))] + match a.reason {
            Some(r) => seq![("reason"@, JsonV::Str(r@))],
            None => Seq::empty(),
        });
    }
    let r = Json::Object(m);
    proof {
        if let JsonV::Object(x) = r.view_deep() {
            assert(x =~= mv);
        }
    }
    r
}

/// The suppression commands: list (as a table), add (POST the target and
/// reason), remove (DELETE `/outbound/suppression/{id}`), export (the CSV
/// text) and import (POST the CSV read from the source).
pub open spec fn run_spec(cmd: Cmd) -> (RequestV, OutputV) {
    match cmd.action {
        Action::List => (
            api_req(HttpMethod::Get, "/outbound/suppression"@, BodyV::Empty),
            OutputV::Table(suppression_columns_spec()),
        ),
        Action::Create(a) => (
            api_req(HttpMethod::Post, "/outbound/suppression"@, BodyV::Fixed(create_body(a))),
            OutputV::Value,
        ),
        Action::Delete(a) => (
            api_req(HttpMethod::Delete, "/outbound/suppression/"@ + int_text(a.id as int), BodyV::Empty),
            OutputV::Value,
        ),
        Action::Export => (api_req(HttpMethod::Get, "/outbound/suppression/export"@, BodyV::Empty), OutputV::Text),
        Action::Import(a) => (
            api_req(HttpMethod::Post, "/outbound/suppression/import"@, BodyV::Csv(a.source@)),
            OutputV::Value,
        ),
    }
}

/// What a suppression command requests (see `run_spec`).
pub fn run(cmd: &Cmd) -> (r: Plan)
    ensures
        plan_view(r) == run_spec(*cmd),
{
    match &cmd.action {
        Action::List => Plan {
            request: api_request(HttpMethod::Get, owned("/outbound/suppression"), RequestBody::Empty),
            output: Output::Table(suppression_columns()),
        },
        Action::Create(a) => value_plan(
            api_request(HttpMethod::Post, owned("/outbound/suppression"), RequestBody::Fixed(create_body_of(a))),
        ),
        Action::Delete(a) => {
            let path = crate::commands::concat("/outbound/suppression/", string_of(&int_chars(a.id)).as_str());
            value_plan(api_request(HttpMethod::Delete, path, RequestBody::Empty))
        },
        Action::Export => Plan {
            request: api_request(HttpMethod::Get, owned("/outbound/suppression/export"), RequestBody::Empty),
            output: Output::Text,
        },
        Action::Import(a) => value_plan(
            api_request(HttpMethod::Post, owned("/outbound/suppression/import"), RequestBody::Csv(a.source.clone())),
        ),
    }
}

} // verus!
