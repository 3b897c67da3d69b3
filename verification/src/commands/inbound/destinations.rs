//! Forwarding destinations: listing, verifying and resending verification.

use vstd::prelude::*;

use crate::client::{request_view, Auth, BodyV, HttpMethod, RequestBody};
use crate::commands::{
    api_req, api_request, around, around_of, columns_view, one_str, one_str_object, plan_view, value_plan, ColumnV,
    Output, OutputV, Plan, RequestV,
};
use crate::output::{CellTransform, ColorRule, Column};
use crate::text::owned;

verus! {

/// `inbound destinations`.
pub struct Cmd {
    pub action: Action,
}

pub enum Action {
    List,
    Verify(VerifyArgs),
    Resend(UuidArg),
}

/// The verification token from the email link.
pub struct VerifyArgs {
    pub token: String,
}

pub struct UuidArg {
    pub uuid: String,
}

/// The columns of the destination table.
pub open spec fn destinations_columns_spec() -> Seq<ColumnV> {
    seq![
        ("Email"@, "email"@, CellTransform::Truncate(50), ColorRule::NoColor),
        ("Verified"@, "verified"@, CellTransform::BoolCheck, ColorRule::BoolCheck),
        ("UUID"@, "uuid"@, CellTransform::Plain, ColorRule::NoColor),
    ]
}

/// The columns of the destination table: the address cut to 50
/// characters, whether it is verified as a colored check mark.
pub fn destinations_columns() -> (r: Vec<Column>)
    ensures
        columns_view(r@) == destinations_columns_spec(),
{
    let r = vec![
        Column::new("Email", "email").with_transform(CellTransform::Truncate(50)),
        Column::new("Verified", "verified").with_transform(CellTransform::BoolCheck).with_color(ColorRule::BoolCheck),
        Column::new("UUID", "uuid"),
    ];
    proof {
        assert(columns_view(r@) =~= destinations_columns_spec());
    }
    r
}

/// The destination commands: list (as a table); verify, which needs no key
/// and sends the token; resend, at `/inbound/forward-destinations/{uuid}/resend`.
pub open spec fn run_spec(cmd: Cmd) -> (RequestV, OutputV) {
    match cmd.action {
        Action::List => (
            api_req(HttpMethod::Get, "/inbound/forward-destinations"@, BodyV::Empty),
            OutputV::Table(destinations_columns_spec()),
        ),
        Action::Verify(a) => (
            (HttpMethod::Post, "/inbound/forward-destinations/verify"@, Auth::NoKey, Seq::empty(), BodyV::Fixed(one_str("token"@, a.token@))),
            OutputV::Value,
        ),
        Action::Resend(a) => (
            api_req(HttpMethod::Post, around("/inbound/forward-destinations/"@, a.uuid@, "/resend"@), BodyV::Empty),
            OutputV::Value,
        ),
    }
}

/// What a destination command requests (see `run_spec`).
pub fn run(cmd: &Cmd) -> (r: Plan)
    ensures
        plan_view(r) == run_spec(*cmd),
{
    match &cmd.action {
        Action::List => Plan {
            request: api_request(HttpMethod::Get, owned("/inbound/forward-destinations"), RequestBody::Empty),
            output: Output::Table(destinations_columns()),
        },
        Action::Verify(a) => {
            let request = crate::client::ApiRequest {
                method: HttpMethod::Post,
                path: owned("/inbound/forward-destinations/verify"),
                auth: Auth::NoKey,
                query: Vec::new(),
                body: RequestBody::Fixed(one_str_object("token", &a.token)),
            };
            proof {
                assert(request.query@.map_values(|q: (String, String)| (q.0@, q.1@)) =~= Seq::<(Seq<char>, Seq<char>)>::empty());
            }
            value_plan(request)
        },
        Action::Resend(a) => value_plan(
            api_request(HttpMethod::Post, around_of("/inbound/forward-destinations/", a.uuid.as_str(), "/resend"), RequestBody::Empty),
        ),
    }
}

} // verus!
