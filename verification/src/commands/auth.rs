//! Logging in and out, and showing who is logged in.

use vstd::prelude::*;

use crate::commands::config_cmd::{key_value, keys_in};
use crate::config::{
    key_source_label, mask_key, mask_key_spec, resolve_key_spec, selected_profile, selected_profile_name, FileConfig, KeySource,
    Profile, Resolved, DEFAULT_PROFILE,
};
use crate::error::CliError;
use crate::text::{chars_of, opt_text, owned, push_str, string_of};
use vstd::utf8::{decode_utf8, encode_utf8, is_char_boundary};

verus! {

/// The flags of `login`.
pub struct LoginArgs {
    pub api_key: Option<String>,
    pub transactional_key: Option<String>,
    pub skip_validation: bool,
}

/// The flags of `logout`.
pub struct LogoutArgs {
    pub yes: bool,
}

/// The message when no key is given and none can be asked for.
pub open spec fn api_key_required_message() -> Seq<char> {
    "--api-key is required when stdin is not a TTY"@
}

/// The management key to log in with: the one given; else, on a terminal,
/// nothing yet (it is asked for); otherwise an error.
pub fn login_api_key(given: &Option<String>, interactive: bool) -> (r: Result<Option<String>, CliError>)
    ensures
        given is Some ==> (r matches Ok(Some(k)) && k@ == given->0@),
        given is None && interactive ==> r matches Ok(None),
        given is None && !interactive ==> (r matches Err(e) && e.message@ == api_key_required_message()),
{
    match given {
        Some(k) => Ok(Some(k.clone())),
        None => if interactive {
            Ok(None)
        } else {
            Err(CliError::new("--api-key is required when stdin is not a TTY"))
        },
    }
}

/// Whether a key has the management prefix `api_`.
pub open spec fn has_api_prefix(k: Seq<char>) -> bool {
    k.len() >= 4 && k.take(4) == "api_"@
}

/// The warning shown for a management key without the `api_` prefix.
pub open spec fn prefix_warning() -> Seq<char> {
    "warning: management keys (/outbound, /inbound, /webhooks…) should start with `api_`."@
}

/// The warning for a management key that does not start with `api_`.
pub fn key_warning(key: &str) -> (r: Option<String>)
    ensures
        has_api_prefix(key@) ==> r is None,
        !has_api_prefix(key@) ==> (r matches Some(w) && w@ == prefix_warning()),
{
    let cs = chars_of(key);
    proof {
        reveal_strlit("api_");
    }
    let ok = cs.len() >= 4 && cs[0] == 'a' && cs[1] == 'p' && cs[2] == 'i' && cs[3] == '_';
    proof {
        if cs@.len() >= 4 {
            if ok {
                assert(cs@.take(4) =~= "api_"@);
            } else {
                assert(cs@.take(4) != "api_"@) by {
                    if cs@.take(4) == "api_"@ {
                        assert(cs@.take(4)[0] == 'a' && cs@.take(4)[1] == 'p');
                        assert(cs@.take(4)[2] == 'i' && cs@.take(4)[3] == '_');
                    }
                }
            }
        }
    }
    if ok {
        None
    } else {
        Some(owned("warning: management keys (/outbound, /inbound, /webhooks…) should start with `api_`."))
    }
}

/// The URL a new key is checked against.
pub open spec fn validation_url_spec(base: Seq<char>) -> Seq<char> {
    crate::client::url_spec(base, "/outbound/domains"@)
}

/// The URL a new key is checked against: `/outbound/domains` under the base.
pub fn validation_url(base: &str) -> (r: String)
    ensures
        r@ == validation_url_spec(base@),
{
    crate::client::url(base, "/outbound/domains")
}

/// A reply body cut after 200 bytes, with `…`.
pub open spec fn snippet_spec(body: Seq<char>) -> Seq<char> {
    let b = encode_utf8(body);
    if b.len() > 200 { decode_utf8(b.take(200)) + seq!['…'] } else { body }
}

/// A reply body cut after 200 bytes (which must start a character).
pub fn snippet(body: &str) -> (r: String)
    requires
        encode_utf8(body@).len() <= 200 || is_char_boundary(encode_utf8(body@), 200),
    ensures
        r@ == snippet_spec(body@),
{
    if body.as_bytes().len() <= 200 {
        return owned(body);
    }
    let (head, _rest) = body.split_at(200);
    let mut out = chars_of(head);
    out.push('…');
    proof {
        vstd::utf8::encode_utf8_decode_utf8(head@);
        assert(encode_utf8(head@) =~= encode_utf8(body@).take(200));
        assert(out@ =~= snippet_spec(body@));
    }
    string_of(&out)
}

/// The message when the API refuses a new key.
pub open spec fn rejection_spec(status: Seq<char>, body: Seq<char>) -> Seq<char> {
    "key rejected — HTTP "@ + status + ": "@ + snippet_spec(body)
}

/// The message when the API refuses a new key: the status and the reply
/// body cut after 200 bytes (which must start a character).
pub fn rejection_message(status: &str, body: &str) -> (r: CliError)
    requires
        encode_utf8(body@).len() <= 200 || is_char_boundary(encode_utf8(body@), 200),
    ensures
        r.message@ == rejection_spec(status@, body@),
{
    let mut out = chars_of("key rejected — HTTP ");
    push_str(&mut out, status);
    push_str(&mut out, ": ");
    push_str(&mut out, snippet(body).as_str());
    CliError::from_chars(&out)
}

/// The default profile's keys after a login: the new management key, and the
/// new transactional key when one was given (else the one saved before).
pub open spec fn login_profile(before: (Option<Seq<char>>, Option<Seq<char>>), api_key: Seq<char>, tx: Option<Seq<char>>) -> (Option<Seq<char>>, Option<Seq<char>>) {
    (Some(api_key), if tx is Some { tx } else { before.1 })
}

/// Saves a login into the default profile and selects it.
pub fn apply_login(file: &mut FileConfig, api_key: String, tx: Option<String>)
    requires
        old(file).wf(),
    ensures
        final(file).wf(),
        final(file).profiles_view() == old(file).profiles_view().insert(
            DEFAULT_PROFILE@,
            login_profile(
                if old(file).profiles_view().contains_key(DEFAULT_PROFILE@) {
                    old(file).profiles_view()[DEFAULT_PROFILE@]
                } else {
                    (None, None)
                },
                api_key@,
                opt_text(tx),
            ),
        ),
        opt_text(final(file).current_profile) == Some(DEFAULT_PROFILE@),
        final(file).legacy_view() == old(file).legacy_view(),
{
    let p = file.profile_mut(DEFAULT_PROFILE);
    p.api_key = Some(api_key);
    if let Some(k) = tx {
        p.transactional_key = Some(k);
    }
    file.current_profile = Some(owned(DEFAULT_PROFILE));
}

/// After a login, with no key given by flag or environment, the management
/// key in use is the one logged in with, read from the config file; a
/// transactional key given at login is the one in use too.
pub proof fn lemma_login_then_resolve(
    before: FileConfig,
    after: FileConfig,
    api_key: Seq<char>,
    tx: Option<Seq<char>>,
    env: Option<Seq<char>>,
)
    requires
        after.profiles_view() == before.profiles_view().insert(
            DEFAULT_PROFILE@,
            login_profile(keys_in(before.profiles_view()), api_key, tx),
        ),
        opt_text(after.current_profile) == Some(DEFAULT_PROFILE@),
    ensures
        selected_profile(after).0 == Some(api_key),
        key_value(after.profiles_view(), "api_key"@) == Some(api_key),
        env is None || env->0.len() == 0 ==> resolve_key_spec(None, env, selected_profile(after).0) == (
            Some(api_key),
            KeySource::Profile,
        ),
        tx is Some ==> selected_profile(after).1 == tx,
{
}

/// After a logout, a config that selects the default profile holds no key,
/// and with none given by flag or environment no key is found.
pub proof fn lemma_logout_then_resolve(before: FileConfig, after: FileConfig, env: Option<Seq<char>>)
    requires
        after.profiles_view() == before.profiles_view().insert(DEFAULT_PROFILE@, (None, None)),
        selected_profile_name(after) == DEFAULT_PROFILE@,
    ensures
        selected_profile(after) == (None::<Seq<char>>, None::<Seq<char>>),
        key_value(after.profiles_view(), "api_key"@) is None,
        key_value(after.profiles_view(), "transactional_key"@) is None,
        env is None || env->0.len() == 0 ==> resolve_key_spec(None, env, selected_profile(after).0) == (
            None::<Seq<char>>,
            KeySource::Missing,
        ),
{
}

/// The lines shown after a login: where it was saved and the masked key.
pub open spec fn login_lines_spec(path: Seq<char>, api_key: Seq<char>) -> Seq<Seq<char>> {
    seq!["✓ saved to "@ + path, "  API key: "@ + mask_key_spec(api_key)]
}

/// The lines shown after a login.
pub fn login_saved_lines(path: &str, api_key: &str) -> (r: Vec<String>)
    ensures
        r@.map_values(|s: String| s@) == login_lines_spec(path@, api_key@),
{
    let mut a = chars_of("✓ saved to ");
    push_str(&mut a, path);
    let mut b = chars_of("  API key: ");
    push_str(&mut b, mask_key(api_key).as_str());
    let r = vec![string_of(&a), string_of(&b)];
    proof {
        assert(r@.map_values(|s: String| s@) =~= login_lines_spec(path@, api_key@));
    }
    r
}

/// Clears the keys of the default profile; says whether there was one. The
/// profile itself stays, so other settings saved in it are kept.
pub fn apply_logout(file: &mut FileConfig) -> (had: bool)
    requires
        old(file).wf(),
    ensures
        final(file).wf(),
        had == old(file).profiles_view().contains_key(DEFAULT_PROFILE@),
        !had ==> *final(file) == *old(file),
        had ==> final(file).profiles_view() == old(file).profiles_view().insert(DEFAULT_PROFILE@, (None, None)),
        final(file).current_profile == old(file).current_profile,
        final(file).legacy_view() == old(file).legacy_view(),
{
    if file.profile(DEFAULT_PROFILE).is_none() {
        return false;
    }
    let p = file.profile_mut(DEFAULT_PROFILE);
    p.api_key = None;
    p.transactional_key = None;
    true
}

/// How a key is shown: masked with its source, or as not set.
pub open spec fn key_line_spec(label: Seq<char>, key: Option<Seq<char>>, src: KeySource) -> Seq<char> {
    match key {
        Some(k) => label + mask_key_spec(k) + " ("@ + key_source_label(src) + ")"@,
        None => label + "— (not set)"@,
    }
}

fn key_line(label: &str, key: &Option<String>, src: KeySource) -> (r: String)
    ensures
        r@ == key_line_spec(label@, opt_text(*key), src),
{
    let mut out = chars_of(label);
    match key {
        Some(k) => {
            push_str(&mut out, mask_key(k.as_str()).as_str());
            push_str(&mut out, " (");
            push_str(&mut out, src.label());
            push_str(&mut out, ")");
        },
        None => {
            push_str(&mut out, "— (not set)");
        },
    }
    string_of(&out)
}

/// The lines `whoami` prints: each key masked, with where it came from.
pub open spec fn whoami_lines_spec(cfg: Resolved) -> Seq<Seq<char>> {
    seq![
        key_line_spec("API key:           "@, opt_text(cfg.api_key), cfg.api_key_source),
        key_line_spec("Transactional key: "@, opt_text(cfg.transactional_key), cfg.transactional_key_source),
    ]
}

/// The lines `whoami` prints (see `whoami_lines_spec`).
pub fn whoami_lines(cfg: &Resolved) -> (r: Vec<String>)
    ensures
        r@.map_values(|s: String| s@) == whoami_lines_spec(*cfg),
{
    let r = vec![
        key_line("API key:           ", &cfg.api_key, cfg.api_key_source),
        key_line("Transactional key: ", &cfg.transactional_key, cfg.transactional_key_source),
    ];
    proof {
        assert(r@.map_values(|s: String| s@) =~= whoami_lines_spec(*cfg));
    }
    r
}

/// What `whoami` does after the key lines.
#[derive(Debug, Clone, Copy, PartialEq, Eq, Structural)]
pub enum WhoamiCheck {
    /// Check the management key against the API.
    Validate,
    /// Suggest `jetemail login`.
    LoginHint,
    Nothing,
}

/// `whoami` checks a management key that is there, and suggests logging in
/// when none was found anywhere.
pub fn whoami_check(cfg: &Resolved) -> (r: WhoamiCheck)
    ensures
        r == (if cfg.api_key is Some {
            WhoamiCheck::Validate
        } else if cfg.api_key_source == KeySource::Missing {
            WhoamiCheck::LoginHint
        } else {
            WhoamiCheck::Nothing
        }),
{
    if cfg.api_key.is_some() {
        WhoamiCheck::Validate
    } else if cfg.api_key_source == KeySource::Missing {
        WhoamiCheck::LoginHint
    } else {
        WhoamiCheck::Nothing
    }
}

} // verus!
