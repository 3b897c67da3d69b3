//! Transactional keys: listing, creating, updating, deleting and rotating.

use vstd::prelude::*;

use crate::client::{entries_view, BodyV, EntryV, EntryValue, HttpMethod, RequestBody};
use crate::commands::{
    api_req, api_request, built, columns_view, e_bool, e_int, e_list, e_str, one_str, one_str_object, plan_view,
    put_bool, put_int, put_list, put_str, recipe, value_plan, ColumnV, Output, OutputV, Plan, RequestV,
};
use crate::output::{CellTransform, ColorRule, Column};
use crate::text::owned;

verus! {

/// `outbound keys`.
pub struct Cmd {
    pub action: Action,
}

pub enum Action {
    List,
    Create(CreateArgs),
    Update(UpdateArgs),
    Delete(TokenArg),
    Rotate(TokenArg),
}

/// The flags of a new key.
pub struct CreateArgs {
    pub name: Option<String>,
    pub allow_all_domains: Option<bool>,
    pub approved_domains: Vec<String>,
    pub quota: Option<i64>,
    pub ip_restrictions: Vec<String>,
    pub body_json: Option<String>,
    pub field: Vec<String>,
}

/// The flags of a key update.
pub struct UpdateArgs {
    pub api_token: String,
    pub status: Option<i64>,
    pub name: Option<String>,
    pub allow_all_domains: Option<bool>,
    pub approved_domains: Vec<String>,
    pub quota: Option<i64>,
    pub ip_restrictions: Vec<String>,
    pub body_json: Option<String>,
    pub field: Vec<String>,
}

/// A key's token.
pub struct TokenArg {
    pub api_token: String,
}

/// The columns of the key table.
pub open spec fn keys_columns_spec() -> Seq<ColumnV> {
    seq![
        ("Name"@, "name"@, CellTransform::Plain, ColorRule::NoColor),
        ("Token"@, "api_token"@, CellTransform::Plain, ColorRule::NoColor),
        ("Status"@, "status"@, CellTransform::ActiveStatus, ColorRule::NoColor),
        ("All domains"@, "allowAllDomains"@, CellTransform::BoolCheck, ColorRule::BoolCheck),
        ("Approved domains"@, "approvedDomains"@, CellTransform::StringList(80), ColorRule::NoColor),
        ("IP restrictions"@, "ipRestrictions"@, CellTransform::StringList(80), ColorRule::NoColor),
        ("Quota"@, "quota"@, CellTransform::Quota, ColorRule::NoColor),
    ]
}

/// The columns of the key table.
pub fn keys_columns() -> (r: Vec<Column>)
    ensures
        columns_view(r@) == keys_columns_spec(),
{
    let r = vec![
        Column::new("Name", "name"),
        Column::new("Token", "api_token"),
        Column::new("Status", "status").with_transform(CellTransform::ActiveStatus),
        Column::new("All domains", "allowAllDomains").with_transform(CellTransform::BoolCheck).with_color(ColorRule::BoolCheck),
        Column::new("Approved domains", "approvedDomains").with_transform(CellTransform::StringList(80)),
        Column::new("IP restrictions", "ipRestrictions").with_transform(CellTransform::StringList(80)),
        Column::new("Quota", "quota").with_transform(CellTransform::Quota),
    ];
    proof {
        assert(columns_view(r@) =~= keys_columns_spec());
    }
    r
}

/// The explicit body values of a new key.
pub open spec fn create_entries(a: CreateArgs) -> Seq<(Seq<char>, EntryV)> {
    e_str("name"@, a.name) + e_bool("allowAllDomains"@, a.allow_all_domains)
        + e_list("approvedDomains"@, a.approved_domains@) + e_int("quota"@, a.quota)
        + e_list("ipRestrictions"@, a.ip_restrictions@)
}

/// The explicit body values of a key update: the token always, then the
/// flags that are given.
pub open spec fn update_entries(a: UpdateArgs) -> Seq<(Seq<char>, EntryV)> {
    e_str("api_token"@, Some(a.api_token)) + e_int("status"@, a.status) + e_str("name"@, a.name)
        + e_bool("allowAllDomains"@, a.allow_all_domains) + e_list("approvedDomains"@, a.approved_domains@)
        + e_int("quota"@, a.quota) + e_list("ipRestrictions"@, a.ip_restrictions@)
}

/// The key commands, all at `/outbound/transactional-keys`: list (as a
/// table), create (POST), update (PATCH), delete (DELETE, the token in the
/// body) and rotate (POST to `.../rotate`, the token in the body).
pub open spec fn run_spec(cmd: Cmd) -> (RequestV, OutputV) {
    match cmd.action {
        Action::List => (
            api_req(HttpMethod::Get, "/outbound/transactional-keys"@, BodyV::Empty),
            OutputV::Table(keys_columns_spec()),
        ),
        Action::Create(a) => (
            api_req(HttpMethod::Post, "/outbound/transactional-keys"@, built(a.body_json, a.field@, create_entries(a))),
            OutputV::Value,
        ),
        Action::Update(a) => (
            api_req(HttpMethod::Patch, "/outbound/transactional-keys"@, built(a.body_json, a.field@, update_entries(a))),
            OutputV::Value,
        ),
        Action::Delete(a) => (
            api_req(HttpMethod::Delete, "/outbound/transactional-keys"@, BodyV::Fixed(one_str("api_token"@, a.api_token@))),
            OutputV::Value,
        ),
        Action::Rotate(a) => (
            api_req(HttpMethod::Post, "/outbound/transactional-keys/rotate"@, BodyV::Fixed(one_str("api_token"@, a.api_token@))),
            OutputV::Value,
        ),
    }
}

/// What a key command requests (see `run_spec`).
pub fn run(cmd: &Cmd) -> (r: Plan)
    ensures
        plan_view(r) == run_spec(*cmd),
{
    match &cmd.action {
        Action::List => Plan {
            request: api_request(HttpMethod::Get, owned("/outbound/transactional-keys"), RequestBody::Empty),
            output: Output::Table(keys_columns()),
        },
        Action::Create(a) => {
            let mut es: Vec<(String, EntryValue)> = Vec::new();
            put_str(&mut es, "name", &a.name);
            put_bool(&mut es, "allowAllDomains", a.allow_all_domains);
            put_list(&mut es, "approvedDomains", &a.approved_domains);
            put_int(&mut es, "quota", a.quota);
            put_list(&mut es, "ipRestrictions", &a.ip_restrictions);
            proof {
                assert(entries_view(es@) =~= create_entries(*a));
            }
            let body = recipe(&a.body_json, &a.field, es);
            value_plan(api_request(HttpMethod::Post, owned("/outbound/transactional-keys"), body))
        },
        Action::Update(a) => {
            let mut es: Vec<(String, EntryValue)> = Vec::new();
            let token = Some(a.api_token.clone());
            put_str(&mut es, "api_token", &token);
            put_int(&mut es, "status", a.status);
            put_str(&mut es, "name", &a.name);
            put_bool(&mut es, "allowAllDomains", a.allow_all_domains);
            put_list(&mut es, "approvedDomains", &a.approved_domains);
            put_int(&mut es, "quota", a.quota);
            put_list(&mut es, "ipRestrictions", &a.ip_restrictions);
            proof {
                assert(entries_view(es@) =~= update_entries(*a));
            }
            let body = recipe(&a.body_json, &a.field, es);
            value_plan(api_request(HttpMethod::Patch, owned("/outbound/transactional-keys"), body))
        },
        Action::Delete(a) => value_plan(
            api_request(
                HttpMethod::Delete,
                owned("/outbound/transactional-keys"),
                RequestBody::Fixed(one_str_object("api_token", &a.api_token)),
            ),
        ),
        Action::Rotate(a) => value_plan(
            api_request(
                HttpMethod::Post,
                owned("/outbound/transactional-keys/rotate"),
                RequestBody::Fixed(one_str_object("api_token", &a.api_token)),
            ),
        ),
    }
}

} // verus!
