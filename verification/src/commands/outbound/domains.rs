//! Outbound sending domains: listing, adding, removing, DNS checks and settings.

use vstd::prelude::*;

use crate::client::{entries_view, BodyV, EntryV, EntryValue, HttpMethod, RequestBody};
use crate::commands::{
    api_req, api_request, around, around_of, built, columns_view, e_bool, e_list, one_str, one_str_object, plan_view,
    put_bool, put_list, recipe, value_plan, ColumnV, Output, OutputV, Plan, RequestV,
};
use crate::commands::util::{apply_entries, last_entry_for, lemma_explicit_wins, lemma_untouched, lemma_values_apply};
use crate::json::{string_array, JsonV};
use crate::output::{CellTransform, ColorRule, Column};
use crate::text::owned;

verus! {

/// `outbound domains`.
pub struct Cmd {
    pub action: Action,
}

pub enum Action {
    List,
    Create(AddArgs),
    Delete(UuidArg),
    Check(UuidArg),
    Settings(SettingsCmd),
}

pub struct AddArgs {
    pub domain: String,
}

pub struct UuidArg {
    pub uuid: String,
}

pub struct SettingsCmd {
    pub action: SettingsAction,
}

pub enum SettingsAction {
    Get(UuidArg),
    Update(SettingsUpdateArgs),
}

/// The flags of a settings update.
pub struct SettingsUpdateArgs {
    pub uuid: String,
    pub bcc_emails: Vec<String>,
    pub open_tracking: Option<bool>,
    pub click_tracking: Option<bool>,
    pub body_json: Option<String>,
    pub field: Vec<String>,
}

/// The columns of the outbound domain table.
pub open spec fn outbound_domain_columns_spec() -> Seq<ColumnV> {
    seq![
        ("Domain"@, "domain"@, CellTransform::Plain, ColorRule::NoColor),
        ("Status"@, "status"@, CellTransform::Plain, ColorRule::NoColor),
        ("SPF"@, "dns.spf.verified"@, CellTransform::BoolCheck, ColorRule::BoolCheck),
        ("DKIM"@, "dns.dkim.verified"@, CellTransform::BoolCheck, ColorRule::BoolCheck),
        ("DMARC"@, "dns.dmarc.verified"@, CellTransform::BoolCheck, ColorRule::BoolCheck),
        ("Tracking"@, "dns.tracking.verified"@, CellTransform::BoolCheck, ColorRule::BoolCheck),
    ]
}

/// The columns of the outbound domain table: each DNS record's verification
/// as a colored check mark.
pub fn outbound_domain_columns() -> (r: Vec<Column>)
    ensures
        columns_view(r@) == outbound_domain_columns_spec(),
{
    let r = vec![
        Column::new("Domain", "domain"),
        Column::new("Status", "status"),
        Column::new("SPF", "dns.spf.verified").with_transform(CellTransform::BoolCheck).with_color(ColorRule::BoolCheck),
        Column::new("DKIM", "dns.dkim.verified").with_transform(CellTransform::BoolCheck).with_color(ColorRule::BoolCheck),
        Column::new("DMARC", "dns.dmarc.verified").with_transform(CellTransform::BoolCheck).with_color(ColorRule::BoolCheck),
        Column::new("Tracking", "dns.tracking.verified").with_transform(CellTransform::BoolCheck).with_color(ColorRule::BoolCheck),
    ];
    proof {
        assert(columns_view(r@) =~= outbound_domain_columns_spec());
    }
    r
}

/// The settings path of a domain.
pub open spec fn settings_path(uuid: Seq<char>) -> Seq<char> {
    around("/outbound/domains/"@, uuid, "/settings"@)
}

/// The explicit body values of a settings update.
pub open spec fn settings_entries(a: SettingsUpdateArgs) -> Seq<(Seq<char>, EntryV)> {
    e_list("bccEmails"@, a.bcc_emails@) + e_bool("openTracking"@, a.open_tracking)
        + e_bool("clickTracking"@, a.click_tracking)
}

/// Reading (GET) or updating (POST) the settings of a domain.
pub open spec fn settings_spec(cmd: SettingsCmd) -> (RequestV, OutputV) {
    match cmd.action {
        SettingsAction::Get(a) => (api_req(HttpMethod::Get, settings_path(a.uuid@), BodyV::Empty), OutputV::Value),
        SettingsAction::Update(a) => (
            api_req(HttpMethod::Post, settings_path(a.uuid@), built(a.body_json, a.field@, settings_entries(a))),
            OutputV::Value,
        ),
    }
}

/// A settings update posts to the domain's settings path, and whatever the
/// `--body-json` object and `--field` values held (`m`), each tracking flag
/// given lands under its own key with its own value, and a flag not given
/// leaves its key as they had it.
pub proof fn lemma_settings_flags(a: SettingsUpdateArgs, m: Map<Seq<char>, JsonV>)
    ensures
        ({
            let req = settings_spec(SettingsCmd { action: SettingsAction::Update(a) }).0;
            &&& req.0 == HttpMethod::Post
            &&& req.1 == "/outbound/domains/"@ + a.uuid@ + "/settings"@
            &&& req.4 is Built
            &&& apply_entries(m, req.4->Built_2) is Some
            &&& a.open_tracking matches Some(b) ==> apply_entries(m, req.4->Built_2)->0.contains_key("openTracking"@)
                && apply_entries(m, req.4->Built_2)->0["openTracking"@] == JsonV::Bool(b)
            &&& a.click_tracking matches Some(b) ==> apply_entries(m, req.4->Built_2)->0.contains_key("clickTracking"@)
                && apply_entries(m, req.4->Built_2)->0["clickTracking"@] == JsonV::Bool(b)
            &&& a.bcc_emails@.len() > 0 ==> apply_entries(m, req.4->Built_2)->0.contains_key("bccEmails"@)
                && apply_entries(m, req.4->Built_2)->0["bccEmails"@] == string_array(a.bcc_emails@)
            &&& a.open_tracking is None ==> apply_entries(m, req.4->Built_2)->0.contains_key("openTracking"@)
                == m.contains_key("openTracking"@)
                && (m.contains_key("openTracking"@) ==> apply_entries(m, req.4->Built_2)->0["openTracking"@] == m["openTracking"@])
            &&& a.click_tracking is None ==> apply_entries(m, req.4->Built_2)->0.contains_key("clickTracking"@)
                == m.contains_key("clickTracking"@)
                && (m.contains_key("clickTracking"@) ==> apply_entries(m, req.4->Built_2)->0["clickTracking"@] == m["clickTracking"@])
        }),
{
    reveal_strlit("openTracking");
    reveal_strlit("clickTracking");
    reveal_strlit("bccEmails");
    let ot: Seq<char> = "openTracking"@;
    let ct: Seq<char> = "clickTracking"@;
    let bc: Seq<char> = "bccEmails"@;
    assert(ot != ct && ot != bc && ct != bc) by {
        assert(ot[0] != ct[0] && ot[0] != bc[0] && ct[0] != bc[0]);
    }
    let es = settings_entries(a);
    let lb = e_list(bc, a.bcc_emails@);
    let lo = e_bool(ot, a.open_tracking);
    let lc = e_bool(ct, a.click_tracking);
    assert(es =~= lb + lo + lc);
    assert forall|j: int| 0 <= j < es.len() implies (#[trigger] es[j]).1 is Value by {
        if j < lb.len() {
            assert(es[j] == lb[j]);
        } else if j < lb.len() + lo.len() {
            assert(es[j] == lo[j - lb.len()]);
        } else {
            assert(es[j] == lc[j - lb.len() - lo.len()]);
        }
    }
    lemma_values_apply(m, es);
    assert forall|j: int| 0 <= j < es.len() implies (#[trigger] es[j]).0 == bc || (es[j].0 == ot && j == lb.len()
        && lo.len() == 1) || (es[j].0 == ct && j == lb.len() + lo.len() && lc.len() == 1) by {
        if j < lb.len() {
            assert(es[j] == lb[j]);
        } else if j < lb.len() + lo.len() {
            assert(es[j] == lo[j - lb.len()]);
        } else {
            assert(es[j] == lc[j - lb.len() - lo.len()]);
        }
    }
    if a.bcc_emails@.len() > 0 {
        assert(es[0] == lb[0]);
        assert(last_entry_for(es, 0, bc));
        lemma_explicit_wins(m, es, 0, string_array(a.bcc_emails@));
    }
    match a.open_tracking {
        Some(b) => {
            let i = lb.len() as int;
            assert(es[i] == lo[0]);
            assert(last_entry_for(es, i, ot));
            lemma_explicit_wins(m, es, i, JsonV::Bool(b));
        },
        None => {
            assert forall|j: int| 0 <= j < es.len() implies (#[trigger] es[j]).0 != ot by {}
            lemma_untouched(m, es, ot);
        },
    }
    match a.click_tracking {
        Some(b) => {
            let i: int = (lb.len() + lo.len()) as int;
            assert(es[i] == lc[0]);
            assert(last_entry_for(es, i, ct));
            lemma_explicit_wins(m, es, i, JsonV::Bool(b));
        },
        None => {
            assert forall|j: int| 0 <= j < es.len() implies (#[trigger] es[j]).0 != ct by {}
            lemma_untouched(m, es, ct);
        },
    }
}

/// What a settings command requests (see `settings_spec`).
pub fn settings(cmd: &SettingsCmd) -> (r: Plan)
    ensures
        plan_view(r) == settings_spec(*cmd),
{
    match &cmd.action {
        SettingsAction::Get(a) => value_plan(
            api_request(HttpMethod::Get, around_of("/outbound/domains/", a.uuid.as_str(), "/settings"), RequestBody::Empty),
        ),
        SettingsAction::Update(a) => {
            let mut es: Vec<(String, EntryValue)> = Vec::new();
            put_list(&mut es, "bccEmails", &a.bcc_emails);
            put_bool(&mut es, "openTracking", a.open_tracking);
            put_bool(&mut es, "clickTracking", a.click_tracking);
            proof {
                assert(entries_view(es@) =~= settings_entries(*a));
            }
            let body = recipe(&a.body_json, &a.field, es);
            value_plan(api_request(HttpMethod::Post, around_of("/outbound/domains/", a.uuid.as_str(), "/settings"), body))
        },
    }
}

/// The outbound domain commands: list (as a table), create and delete (the
/// domain or uuid in the body), the DNS check and the settings.
pub open spec fn run_spec(cmd: Cmd) -> (RequestV, OutputV) {
    match cmd.action {
        Action::List => (
            api_req(HttpMethod::Get, "/outbound/domains"@, BodyV::Empty),
            OutputV::Table(outbound_domain_columns_spec()),
        ),
        Action::Create(a) => (
            api_req(HttpMethod::Post, "/outbound/domains"@, BodyV::Fixed(one_str("domain"@, a.domain@))),
            OutputV::Value,
        ),
        Action::Delete(a) => (
            api_req(HttpMethod::Delete, "/outbound/domains"@, BodyV::Fixed(one_str("uuid"@, a.uuid@))),
            OutputV::Value,
        ),
        Action::Check(a) => (
            api_req(HttpMethod::Post, around("/outbound/domains/"@, a.uuid@, "/check"@), BodyV::Empty),
            OutputV::Value,
        ),
        Action::Settings(c) => settings_spec(c),
    }
}

/// What an outbound domain command requests (see `run_spec`).
pub fn run(cmd: &Cmd) -> (r: Plan)
    ensures
        plan_view(r) == run_spec(*cmd),
{
    match &cmd.action {
        Action::List => Plan {
            request: api_request(HttpMethod::Get, owned("/outbound/domains"), RequestBody::Empty),
            output: Output::Table(outbound_domain_columns()),
        },
        Action::Create(a) => value_plan(
            api_request(HttpMethod::Post, owned("/outbound/domains"), RequestBody::Fixed(one_str_object("domain", &a.domain))),
        ),
        Action::Delete(a) => value_plan(
            api_request(HttpMethod::Delete, owned("/outbound/domains"), RequestBody::Fixed(one_str_object("uuid", &a.uuid))),
        ),
        Action::Check(a) => value_plan(
            api_request(HttpMethod::Post, around_of("/outbound/domains/", a.uuid.as_str(), "/check"), RequestBody::Empty),
        ),
        Action::Settings(c) => settings(c),
    }
}

} // verus!
