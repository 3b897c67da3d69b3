//! SMTP relay users: listing, creating, updating and deleting.

use vstd::prelude::*;

use crate::client::{entries_view, BodyV, EntryV, EntryValue, HttpMethod, RequestBody};
use crate::commands::{
    api_req, api_request, built, columns_view, e_bool, e_list, e_num, e_str, one_str, one_str_object, plan_view,
    put_bool, put_list, put_num, put_str, recipe, value_plan, ColumnV, Output, OutputV, Plan, RequestV,
};
use crate::json::Json;
use crate::output::{CellTransform, ColorRule, Column};
use crate::text::{chars_of, owned, string_of};

verus! {

/// `outbound smarthost`.
pub struct Cmd {
    pub action: Action,
}

pub enum Action {
    List,
    Create(CreateArgs),
    Update(UpdateArgs),
    Delete(DeleteArgs),
}

/// The flags of a new SMTP user; the password is the one already read from
/// where `--password` named, and the quota the number given.
pub struct CreateArgs {
    pub username: Option<String>,
    pub password: Option<String>,
    pub allow_any_domain: Option<bool>,
    pub allow_all_domains: Option<bool>,
    pub approved_domains: Vec<String>,
    pub quota: Option<Json>,
    pub ip_restrictions: Vec<String>,
    pub body_json: Option<String>,
    pub field: Vec<String>,
}

/// The flags of an SMTP user update (password and quota as for a new one).
pub struct UpdateArgs {
    pub current_username: Option<String>,
    pub new_username: Option<String>,
    pub password: Option<String>,
    pub allow_any_domain: Option<bool>,
    pub allow_all_domains: Option<bool>,
    pub approved_domains: Vec<String>,
    pub quota: Option<Json>,
    pub ip_restrictions: Vec<String>,
    pub status: Option<String>,
    pub body_json: Option<String>,
    pub field: Vec<String>,
}

pub struct DeleteArgs {
    pub username: String,
}

/// A password read from a file or a pipe, without its trailing line breaks.
pub open spec fn trim_line_ends(s: Seq<char>) -> Seq<char>
    decreases s.len(),
{
    if s.len() > 0 && (s.last() == '\n' || s.last() == '\r') { trim_line_ends(s.drop_last()) } else { s }
}

/// Drops the trailing `\n` and `\r` characters of a password read from a
/// file or a pipe.
pub fn trim_newlines(s: &str) -> (r: String)
    ensures
        r@ == trim_line_ends(s@),
{
    let cs = chars_of(s);
    let mut n: usize = cs.len();
    proof {
        assert(cs@.take(n as int) =~= cs@);
    }
    while n > 0 && (cs[n - 1] == '\n' || cs[n - 1] == '\r')
        invariant
            n <= cs@.len(),
            cs@ == s@,
            trim_line_ends(s@) == trim_line_ends(cs@.take(n as int)),
        decreases n,
    {
        proof {
            assert(cs@.take(n as int).drop_last() =~= cs@.take(n - 1));
        }
        n = n - 1;
    }
    let out = crate::text::subvec(&cs, 0, n);
    proof {
        assert(cs@.subrange(0, n as int) =~= cs@.take(n as int));
    }
    string_of(&out)
}

/// The columns of the SMTP user table.
pub open spec fn smarthost_columns_spec() -> Seq<ColumnV> {
    seq![
        ("Username"@, "username"@, CellTransform::Plain, ColorRule::NoColor),
        ("Status"@, "status"@, CellTransform::Plain, ColorRule::NoColor),
        ("Any domain"@, "allowAnyDomain"@, CellTransform::BoolCheck, ColorRule::BoolCheck),
        ("All domains"@, "allowAllDomains"@, CellTransform::BoolCheck, ColorRule::BoolCheck),
        ("Approved domains"@, "approvedDomains"@, CellTransform::StringList(24), ColorRule::NoColor),
        ("IP restrictions"@, "ipRestrictions"@, CellTransform::StringList(24), ColorRule::NoColor),
        ("Quota"@, "quota"@, CellTransform::Quota, ColorRule::NoColor),
    ]
}

/// The columns of the SMTP user table.
pub fn smarthost_columns() -> (r: Vec<Column>)
    ensures
        columns_view(r@) == smarthost_columns_spec(),
{
    let r = vec![
        Column::new("Username", "username"),
        Column::new("Status", "status"),
        Column::new("Any domain", "allowAnyDomain").with_transform(CellTransform::BoolCheck).with_color(ColorRule::BoolCheck),
        Column::new("All domains", "allowAllDomains").with_transform(CellTransform::BoolCheck).with_color(ColorRule::BoolCheck),
        Column::new("Approved domains", "approvedDomains").with_transform(CellTransform::StringList(24)),
        Column::new("IP restrictions", "ipRestrictions").with_transform(CellTransform::StringList(24)),
        Column::new("Quota", "quota").with_transform(CellTransform::Quota),
    ];
    proof {
        assert(columns_view(r@) =~= smarthost_columns_spec());
    }
    r
}

/// The explicit body values of a new SMTP user.
pub open spec fn create_entries(a: CreateArgs) -> Seq<(Seq<char>, EntryV)> {
    e_str("username"@, a.username) + e_str("password"@, a.password) + e_bool("allowAnyDomain"@, a.allow_any_domain)
        + e_bool("allowAllDomains"@, a.allow_all_domains) + e_list("approvedDomains"@, a.approved_domains@)
        + e_num("quota"@, a.quota) + e_list("ipRestrictions"@, a.ip_restrictions@)
}

/// The explicit body values of an SMTP user update.
pub open spec fn update_entries(a: UpdateArgs) -> Seq<(Seq<char>, EntryV)> {
    e_str("currentUsername"@, a.current_username) + e_str("newUsername"@, a.new_username)
        + e_str("password"@, a.password) + e_bool("allowAnyDomain"@, a.allow_any_domain)
        + e_bool("allowAllDomains"@, a.allow_all_domains) + e_list("approvedDomains"@, a.approved_domains@)
        + e_num("quota"@, a.quota) + e_list("ipRestrictions"@, a.ip_restrictions@) + e_str("status"@, a.status)
}

/// The SMTP user commands, all at `/outbound/smarthost`: list (as a table),
/// create (POST), update (PATCH) and delete (DELETE, the username in the body).
pub open spec fn run_spec(cmd: Cmd) -> (RequestV, OutputV) {
    match cmd.action {
        Action::List => (api_req(HttpMethod::Get, "/outbound/smarthost"@, BodyV::Empty), OutputV::Table(smarthost_columns_spec())),
        Action::Create(a) => (
            api_req(HttpMethod::Post, "/outbound/smarthost"@, built(a.body_json, a.field@, create_entries(a))),
            OutputV::Value,
        ),
        Action::Update(a) => (
            api_req(HttpMethod::Patch, "/outbound/smarthost"@, built(a.body_json, a.field@, update_entries(a))),
            OutputV::Value,
        ),
        Action::Delete(a) => (
            api_req(HttpMethod::Delete, "/outbound/smarthost"@, BodyV::Fixed(one_str("username"@, a.username@))),
            OutputV::Value,
        ),
    }
}

/// What an SMTP user command requests (see `run_spec`).
pub fn run(cmd: &Cmd) -> (r: Plan)
    ensures
        plan_view(r) == run_spec(*cmd),
{
    match &cmd.action {
        Action::List => Plan {
            request: api_request(HttpMethod::Get, owned("/outbound/smarthost"), RequestBody::Empty),
            output: Output::Table(smarthost_columns()),
        },
        Action::Create(a) => {
            let mut es: Vec<(String, EntryValue)> = Vec::new();
            put_str(&mut es, "username", &a.username);
            put_str(&mut es, "password", &a.password);
            put_bool(&mut es, "allowAnyDomain", a.allow_any_domain);
            put_bool(&mut es, "allowAllDomains", a.allow_all_domains);
            put_list(&mut es, "approvedDomains", &a.approved_domains);
            put_num(&mut es, "quota", &a.quota);
            put_list(&mut es, "ipRestrictions", &a.ip_restrictions);
            proof {
                assert(entries_view(es@) =~= create_entries(*a));
            }
            let body = recipe(&a.body_json, &a.field, es);
            value_plan(api_request(HttpMethod::Post, owned("/outbound/smarthost"), body))
        },
        Action::Update(a) => {
            let mut es: Vec<(String, EntryValue)> = Vec::new();
            put_str(&mut es, "currentUsername", &a.current_username);
            put_str(&mut es, "newUsername", &a.new_username);
            put_str(&mut es, "password", &a.password);
            put_bool(&mut es, "allowAnyDomain", a.allow_any_domain);
            put_bool(&mut es, "allowAllDomains", a.allow_all_domains);
            put_list(&mut es, "approvedDomains", &a.approved_domains);
            put_num(&mut es, "quota", &a.quota);
            put_list(&mut es, "ipRestrictions", &a.ip_restrictions);
            put_str(&mut es, "status", &a.status);
            proof {
                assert(entries_view(es@) =~= update_entries(*a));
            }
            let body = recipe(&a.body_json, &a.field, es);
            value_plan(api_request(HttpMethod::Patch, owned("/outbound/smarthost"), body))
        },
        Action::Delete(a) => value_plan(
            api_request(HttpMethod::Delete, owned("/outbound/smarthost"), RequestBody::Fixed(one_str_object("username", &a.username))),
        ),
    }
}

} // verus!
