//! Reading and changing the config file directly.

use vstd::prelude::*;

use crate::config::{distinct_names, mask_key, mask_key_spec, FileConfig, Profile, DEFAULT_PROFILE};
use crate::error::CliError;
use crate::text::{chars_of, copy_opt, opt_text, owned, push_str, str_eq, string_of};

verus! {

/// `config`.
pub struct Cmd {
    pub action: Action,
}

pub enum Action {
    Path,
    Show(ShowArgs),
    Get(GetArgs),
    SetKey(SetArgs),
    Unset(UnsetArgs),
}

/// Whether `config show` prints secrets in full.
pub struct ShowArgs {
    pub reveal: bool,
}

/// The key `config get` reads, and whether it prints a secret in full on a
/// terminal.
pub struct GetArgs {
    pub key: String,
    pub reveal: bool,
}

pub struct SetArgs {
    pub key: String,
    pub value: String,
}

pub struct UnsetArgs {
    pub key: String,
}

/// A key as `config show` prints it without `--reveal`.
pub open spec fn masked(k: Option<Seq<char>>) -> Option<Seq<char>> {
    match k {
        Some(x) => Some(mask_key_spec(x)),
        None => None,
    }
}

/// The profiles, in order, by name and keys.
pub open spec fn profile_list(f: FileConfig) -> Seq<(Seq<char>, (Option<Seq<char>>, Option<Seq<char>>))> {
    f.profiles@.map_values(|x: (String, Profile)| (x.0@, x.1@))
}

/// Whether any profile holds a key.
pub open spec fn has_secret(f: FileConfig) -> bool {
    exists|i: int| 0 <= i < f.profiles@.len() && (#[trigger] f.profiles@[i]).1@ != (None::<Seq<char>>, None::<Seq<char>>)
}

fn mask_opt(k: &Option<String>) -> (r: Option<String>)
    ensures
        opt_text(r) == masked(opt_text(*k)),
{
    match k {
        Some(x) => Some(mask_key(x.as_str())),
        None => None,
    }
}

/// Masks every key of every profile in place, for `config show`; says
/// whether there was any key.
pub fn mask_profiles(file: &mut FileConfig) -> (had_secret: bool)
    requires
        old(file).wf(),
    ensures
        final(file).wf(),
        had_secret == has_secret(*old(file)),
        profile_list(*final(file)) == profile_list(*old(file)).map_values(
            |x: (Seq<char>, (Option<Seq<char>>, Option<Seq<char>>))| (x.0, (masked(x.1.0), masked(x.1.1))),
        ),
        final(file).current_profile == old(file).current_profile,
        final(file).legacy_view() == old(file).legacy_view(),
{
    let ghost before = profile_list(*file);
    let ghost target = before.map_values(
        |x: (Seq<char>, (Option<Seq<char>>, Option<Seq<char>>))| (x.0, (masked(x.1.0), masked(x.1.1))),
    );
    let mut had = false;
    let mut i: usize = 0;
    while i < file.profiles.len()
        invariant
            i <= file.profiles@.len(),
            file.profiles@.len() == old(file).profiles@.len(),
            before == profile_list(*old(file)),
            target == before.map_values(
                |x: (Seq<char>, (Option<Seq<char>>, Option<Seq<char>>))| (x.0, (masked(x.1.0), masked(x.1.1))),
            ),
            forall|j: int| 0 <= j < i ==> (#[trigger] profile_list(*file)[j]) == target[j],
            forall|j: int| i <= j < file.profiles@.len() ==> (#[trigger] file.profiles@[j]) == old(file).profiles@[j],
            had == exists|j: int| 0 <= j < i && (#[trigger] old(file).profiles@[j]).1@ != (None::<Seq<char>>, None::<Seq<char>>),
            file.current_profile == old(file).current_profile,
            file.api_key == old(file).api_key,
            file.transactional_key == old(file).transactional_key,
        decreases file.profiles@.len() - i,
    {
        let name = file.profiles[i].0.clone();
        let a = mask_opt(&file.profiles[i].1.api_key);
        let t = mask_opt(&file.profiles[i].1.transactional_key);
        if file.profiles[i].1.api_key.is_some() || file.profiles[i].1.transactional_key.is_some() {
            had = true;
        }
        let ghost old_entry = old(file).profiles@[i as int];
        let ghost pre = *file;
        file.profiles.set(i, (name, Profile { api_key: a, transactional_key: t }));
        proof {
            assert(profile_list(*file)[i as int] == target[i as int]);
            assert forall|j: int| 0 <= j < i + 1 implies (#[trigger] profile_list(*file)[j]) == target[j] by {
                if j < i {
                    assert(file.profiles@[j] == pre.profiles@[j]);
                    assert(profile_list(pre)[j] == target[j]);
                    assert(profile_list(*file)[j] == (file.profiles@[j].0@, file.profiles@[j].1@));
                    assert(profile_list(pre)[j] == (pre.profiles@[j].0@, pre.profiles@[j].1@));
                }
            }
            if old_entry.1@ != (None::<Seq<char>>, None::<Seq<char>>) {
                assert(exists|j: int| 0 <= j < i + 1 && (#[trigger] old(file).profiles@[j]).1@ != (None::<Seq<char>>, None::<Seq<char>>));
            }
        }
        i = i + 1;
    }
    proof {
        assert(profile_list(*file) =~= target);
        assert forall|a: int, b: int| 0 <= a < b < file.profiles@.len() implies file.profiles@[a].0@ != file.profiles@[b].0@ by {
            assert(profile_list(*file)[a].0 == before[a].0);
            assert(profile_list(*file)[b].0 == before[b].0);
        }
    }
    had
}

/// The message for a key `config` does not know.
pub open spec fn unknown_key_message(k: Seq<char>) -> Seq<char> {
    "unknown config key `"@ + k + "`"@
}

fn unknown_key(k: &str) -> (e: CliError)
    ensures
        e.message@ == unknown_key_message(k@),
{
    let mut m = chars_of("unknown config key `");
    push_str(&mut m, k);
    push_str(&mut m, "`");
    CliError::from_chars(&m)
}

/// The default profile's keys (none when it does not exist).
pub open spec fn default_keys(f: FileConfig) -> (Option<Seq<char>>, Option<Seq<char>>) {
    if f.profiles_view().contains_key(DEFAULT_PROFILE@) { f.profiles_view()[DEFAULT_PROFILE@] } else { (None, None) }
}

/// The default profile's keys in a map of profiles (none when it is absent).
pub open spec fn keys_in(p: Map<Seq<char>, (Option<Seq<char>>, Option<Seq<char>>)>) -> (Option<Seq<char>>, Option<Seq<char>>) {
    if p.contains_key(DEFAULT_PROFILE@) { p[DEFAULT_PROFILE@] } else { (None, None) }
}

/// The keys `config get`, `set` and `unset` know.
pub open spec fn known_key(key: Seq<char>) -> bool {
    key == "api_key"@ || key == "transactional_key"@
}

/// What `config get` reads for a known key: that key of the default profile.
pub open spec fn key_value(p: Map<Seq<char>, (Option<Seq<char>>, Option<Seq<char>>)>, key: Seq<char>) -> Option<Seq<char>> {
    if key == "api_key"@ { keys_in(p).0 } else { keys_in(p).1 }
}

/// The profiles once a known key of the default profile is set to `value`
/// (`None` clears it); the default profile is made when it is absent.
pub open spec fn with_key(
    p: Map<Seq<char>, (Option<Seq<char>>, Option<Seq<char>>)>,
    key: Seq<char>,
    value: Option<Seq<char>>,
) -> Map<Seq<char>, (Option<Seq<char>>, Option<Seq<char>>)> {
    if key == "api_key"@ {
        p.insert(DEFAULT_PROFILE@, (value, keys_in(p).1))
    } else {
        p.insert(DEFAULT_PROFILE@, (keys_in(p).0, value))
    }
}

/// `config get` gives back what `config set` or `config unset` last wrote
/// for a key; the other key and every other profile keep what they held.
pub proof fn lemma_get_after_set(
    p: Map<Seq<char>, (Option<Seq<char>>, Option<Seq<char>>)>,
    key: Seq<char>,
    other: Seq<char>,
    value: Option<Seq<char>>,
)
    requires
        known_key(key),
        known_key(other),
    ensures
        key_value(with_key(p, key, value), key) == value,
        other != key ==> key_value(with_key(p, key, value), other) == key_value(p, other),
        forall|n: Seq<char>| n != DEFAULT_PROFILE@ ==> (#[trigger] with_key(p, key, value).contains_key(n) == p.contains_key(n)
            && (p.contains_key(n) ==> with_key(p, key, value)[n] == p[n])),
{
}

/// `config get`: `api_key` or `transactional_key` of the default profile;
/// any other key is an error.
pub fn config_get(file: &FileConfig, key: &str) -> (r: Result<Option<String>, CliError>)
    requires
        file.wf(),
    ensures
        key@ == "api_key"@ ==> (r matches Ok(v) && opt_text(v) == default_keys(*file).0),
        key@ == "transactional_key"@ ==> (r matches Ok(v) && opt_text(v) == default_keys(*file).1),
        key@ != "api_key"@ && key@ != "transactional_key"@ ==> (r matches Err(e) && e.message@ == unknown_key_message(key@)),
        known_key(key@) ==> (r matches Ok(v) && opt_text(v) == key_value(file.profiles_view(), key@)),
{
    proof {
        reveal_strlit("api_key");
        reveal_strlit("transactional_key");
        assert("api_key"@.len() == 7 && "transactional_key"@.len() == 17);
    }
    let (a, t) = match file.profile(DEFAULT_PROFILE) {
        Some(p) => (copy_opt(&p.api_key), copy_opt(&p.transactional_key)),
        None => (None, None),
    };
    if str_eq(key, "api_key") {
        Ok(a)
    } else if str_eq(key, "transactional_key") {
        Ok(t)
    } else {
        Err(unknown_key(key))
    }
}

/// The note printed under a masked value.
pub open spec fn masked_note() -> Seq<char> {
    "note: masked for terminal display — pass --reveal (or pipe) for the raw value"@
}

/// What `config get` prints: the value masked (with a note) on a terminal
/// unless `--reveal`, else the value as is; an empty line when it is unset.
pub fn get_display(value: Option<String>, reveal: bool, stdout_is_terminal: bool) -> (r: (String, Option<String>))
    ensures
        match opt_text(value) {
            Some(v) => if !reveal && stdout_is_terminal {
                r.0@ == mask_key_spec(v) && (r.1 matches Some(n) && n@ == masked_note())
            } else {
                r.0@ == v && r.1 is None
            },
            None => r.0@ == Seq::<char>::empty() && r.1 is None,
        },
{
    match value {
        Some(v) => if !reveal && stdout_is_terminal {
            (
                mask_key(v.as_str()),
                Some(owned("note: masked for terminal display — pass --reveal (or pipe) for the raw value")),
            )
        } else {
            (v, None)
        },
        None => (String::new(), None),
    }
}

/// `config set`: sets `api_key` or `transactional_key` of the default
/// profile and selects it; any other key is an error and changes nothing
/// that is saved.
pub fn config_set(file: &mut FileConfig, key: &str, value: String) -> (r: Result<(), CliError>)
    requires
        old(file).wf(),
    ensures
        final(file).wf(),
        key@ == "api_key"@ ==> r is Ok && final(file).profiles_view() == old(file).profiles_view().insert(
            DEFAULT_PROFILE@,
            (Some(value@), default_keys(*old(file)).1),
        ) && opt_text(final(file).current_profile) == Some(DEFAULT_PROFILE@),
        key@ == "transactional_key"@ ==> r is Ok && final(file).profiles_view() == old(file).profiles_view().insert(
            DEFAULT_PROFILE@,
            (default_keys(*old(file)).0, Some(value@)),
        ) && opt_text(final(file).current_profile) == Some(DEFAULT_PROFILE@),
        key@ != "api_key"@ && key@ != "transactional_key"@ ==> (r matches Err(e) && e.message@ == unknown_key_message(key@)),
        known_key(key@) ==> final(file).profiles_view() == with_key(old(file).profiles_view(), key@, Some(value@)),
{
    proof {
        reveal_strlit("api_key");
        reveal_strlit("transactional_key");
        assert("api_key"@.len() == 7 && "transactional_key"@.len() == 17);
    }
    let p = file.profile_mut(DEFAULT_PROFILE);
    if str_eq(key, "api_key") {
        p.api_key = Some(value);
    } else if str_eq(key, "transactional_key") {
        p.transactional_key = Some(value);
    } else {
        return Err(unknown_key(key));
    }
    file.current_profile = Some(owned(DEFAULT_PROFILE));
    Ok(())
}

/// `config unset`: clears `api_key` or `transactional_key` of the default
/// profile; any other key is an error.
pub fn config_unset(file: &mut FileConfig, key: &str) -> (r: Result<(), CliError>)
    requires
        old(file).wf(),
    ensures
        final(file).wf(),
        key@ == "api_key"@ ==> r is Ok && final(file).profiles_view() == old(file).profiles_view().insert(
            DEFAULT_PROFILE@,
            (None, default_keys(*old(file)).1),
        ),
        key@ == "transactional_key"@ ==> r is Ok && final(file).profiles_view() == old(file).profiles_view().insert(
            DEFAULT_PROFILE@,
            (default_keys(*old(file)).0, None),
        ),
        key@ != "api_key"@ && key@ != "transactional_key"@ ==> (r matches Err(e) && e.message@ == unknown_key_message(key@)),
        known_key(key@) ==> final(file).profiles_view() == with_key(old(file).profiles_view(), key@, None),
        final(file).current_profile == old(file).current_profile,
{
    proof {
        reveal_strlit("api_key");
        reveal_strlit("transactional_key");
        assert("api_key"@.len() == 7 && "transactional_key"@.len() == 17);
    }
    let p = file.profile_mut(DEFAULT_PROFILE);
    if str_eq(key, "api_key") {
        p.api_key = None;
    } else if str_eq(key, "transactional_key") {
        p.transactional_key = None;
    } else {
        return Err(unknown_key(key));
    }
    Ok(())
}

} // verus!
