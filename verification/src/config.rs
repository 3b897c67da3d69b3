//! Configuration: the on-disk profiles, key resolution across command-line
//! flag, environment and profile, and key masking for display.

use vstd::prelude::*;

use crate::error::CliError;
use crate::text::{
    chars_of, copy_opt, copy_string, find_char, index_of, last_n, opt_text, owned, push_all, repeat_char, repeat_spec, same_text, string_of, subvec,
};

verus! {

/// The one production API endpoint.
pub const DEFAULT_BASE_URL: &'static str = "https://api.jetemail.com";

/// The profile slot that keys are saved to and read from.
pub const DEFAULT_PROFILE: &'static str = "default";

/// The keys saved in one profile.
pub struct Profile {
    pub api_key: Option<String>,
    pub transactional_key: Option<String>,
}

impl View for Profile {
    type V = (Option<Seq<char>>, Option<Seq<char>>);

    open spec fn view(&self) -> (Option<Seq<char>>, Option<Seq<char>>) {
        (opt_text(self.api_key), opt_text(self.transactional_key))
    }
}

impl Profile {
    /// A profile with no keys.
    pub fn empty() -> (r: Profile)
        ensures
            r@ == (None::<Seq<char>>, None::<Seq<char>>),
    {
        Profile { api_key: None, transactional_key: None }
    }

    /// A copy of this profile.
    pub fn copied(&self) -> (r: Profile)
        ensures
            r@ == self@,
    {
        Profile {
            api_key: copy_opt(&self.api_key),
            transactional_key: copy_opt(&self.transactional_key),
        }
    }
}

/// The profiles named in `ps`, keyed by name; a later entry wins over an earlier one.
pub open spec fn profile_map(ps: Seq<(String, Profile)>) -> Map<Seq<char>, (Option<Seq<char>>, Option<Seq<char>>)>
    decreases ps.len(),
{
    if ps.len() == 0 {
        Map::empty()
    } else {
        profile_map(ps.drop_last()).insert(ps.last().0@, ps.last().1@)
    }
}

/// No profile name occurs twice.
pub open spec fn distinct_names(ps: Seq<(String, Profile)>) -> bool {
    forall|i: int, j: int| 0 <= i < j < ps.len() ==> ps[i].0@ != ps[j].0@
}

/// A name is a key of `profile_map` exactly when some entry has it, and each
/// entry's profile is what the map holds for its name.
pub proof fn lemma_profile_map(ps: Seq<(String, Profile)>)
    requires
        distinct_names(ps),
    ensures
        forall|n: Seq<char>| #[trigger] profile_map(ps).contains_key(n) <==> exists|i: int| 0 <= i < ps.len() && ps[i].0@ == n,
        forall|i: int| 0 <= i < ps.len() ==> #[trigger] profile_map(ps)[ps[i].0@] == ps[i].1@,
    decreases ps.len(),
{
    if ps.len() > 0 {
        let init = ps.drop_last();
        assert(distinct_names(init));
        lemma_profile_map(init);
        assert forall|n: Seq<char>| #[trigger] profile_map(ps).contains_key(n) <==> exists|i: int| 0 <= i < ps.len() && ps[i].0@ == n by {
            if profile_map(ps).contains_key(n) {
                if n == ps.last().0@ {
                    assert(ps[ps.len() - 1].0@ == n);
                } else {
                    assert(profile_map(init).contains_key(n));
                    let i = choose|i: int| 0 <= i < init.len() && init[i].0@ == n;
                    assert(init[i] == ps[i]);
                    assert(ps[i].0@ == n);
                }
            }
            if exists|i: int| 0 <= i < ps.len() && ps[i].0@ == n {
                let i = choose|i: int| 0 <= i < ps.len() && ps[i].0@ == n;
                if i < ps.len() - 1 {
                    assert(init[i] == ps[i]);
                    assert(init[i].0@ == n);
                    assert(profile_map(init).contains_key(n));
                }
            }
        }
        assert forall|i: int| 0 <= i < ps.len() implies #[trigger] profile_map(ps)[ps[i].0@] == ps[i].1@ by {
            if i < ps.len() - 1 {
                assert(init[i] == ps[i]);
                assert(ps[i].0@ != ps[ps.len() - 1].0@);
                assert(profile_map(init)[init[i].0@] == init[i].1@);
            }
        }
    }
}

/// Replacing the profile of one entry replaces what the map holds for its name.
pub proof fn lemma_update_entry(ps: Seq<(String, Profile)>, i: int, e: (String, Profile))
    requires
        distinct_names(ps),
        0 <= i < ps.len(),
        e.0@ == ps[i].0@,
    ensures
        distinct_names(ps.update(i, e)),
        profile_map(ps.update(i, e)) == profile_map(ps).insert(e.0@, e.1@),
{
    let after = ps.update(i, e);
    assert(distinct_names(after)) by {
        assert forall|a: int, b: int| 0 <= a < b < after.len() implies after[a].0@ != after[b].0@ by {
            assert(ps[a].0@ != ps[b].0@);
        }
    }
    lemma_profile_map(ps);
    lemma_profile_map(after);
    let target = profile_map(ps).insert(e.0@, e.1@);
    assert forall|n: Seq<char>| #[trigger] profile_map(after).contains_key(n) implies target.contains_key(n) && profile_map(after)[n] == target[n] by {
        let k = choose|k: int| 0 <= k < after.len() && after[k].0@ == n;
        if k != i {
            assert(ps[k] == after[k]);
            assert(profile_map(ps).contains_key(ps[k].0@));
            assert(profile_map(after)[after[k].0@] == after[k].1@);
            assert(profile_map(ps)[ps[k].0@] == ps[k].1@);
        } else {
            assert(profile_map(after)[after[k].0@] == after[k].1@);
        }
    }
    assert forall|n: Seq<char>| #[trigger] target.contains_key(n) implies profile_map(after).contains_key(n) by {
        if n == e.0@ {
            assert(after[i].0@ == n);
        } else {
            assert(profile_map(ps).contains_key(n));
            let k = choose|k: int| 0 <= k < ps.len() && ps[k].0@ == n;
            assert(ps[k] == after[k]);
        }
    }
    assert(profile_map(after) =~= target);
}

/// The config file's contents: the selected profile, the profiles, and the
/// keys of the older single-profile format, which loading folds into a profile.
pub struct FileConfig {
    pub current_profile: Option<String>,
    pub profiles: Vec<(String, Profile)>,
    pub api_key: Option<String>,
    pub transactional_key: Option<String>,
}

impl FileConfig {
    /// Profile names are unique.
    pub open spec fn wf(&self) -> bool {
        distinct_names(self.profiles@)
    }

    /// The profiles, by name.
    pub open spec fn profiles_view(&self) -> Map<Seq<char>, (Option<Seq<char>>, Option<Seq<char>>)> {
        profile_map(self.profiles@)
    }

    /// The keys of the older format that are still to be folded into a profile.
    pub open spec fn legacy_view(&self) -> (Option<Seq<char>>, Option<Seq<char>>) {
        (opt_text(self.api_key), opt_text(self.transactional_key))
    }

    /// The configuration of a missing file: no profile, none selected.
    pub fn empty() -> (r: FileConfig)
        ensures
            r.wf(),
            r.current_profile is None,
            r.profiles_view() == Map::<Seq<char>, (Option<Seq<char>>, Option<Seq<char>>)>::empty(),
            r.legacy_view() == (None::<Seq<char>>, None::<Seq<char>>),
    {
        FileConfig { current_profile: None, profiles: Vec::new(), api_key: None, transactional_key: None }
    }

    /// The configuration parsed from a file: the selected profile, the profile
    /// sections in file order, and the top-level keys of the older format.
    /// The older keys are folded in as loading does.
    pub fn from_parsed(
        current_profile: Option<String>,
        profiles: Vec<(String, Profile)>,
        legacy_api_key: Option<String>,
        legacy_transactional_key: Option<String>,
    ) -> (r: FileConfig)
        ensures
            r.wf(),
            r.legacy_view() == (None::<Seq<char>>, None::<Seq<char>>),
            ({
                let parsed = profile_map(profiles@);
                let has_legacy = legacy_api_key is Some || legacy_transactional_key is Some;
                if has_legacy && parsed == Map::<Seq<char>, (Option<Seq<char>>, Option<Seq<char>>)>::empty() {
                    &&& r.profiles_view() == parsed.insert(DEFAULT_PROFILE@, (opt_text(legacy_api_key), opt_text(legacy_transactional_key)))
                    &&& opt_text(r.current_profile) == (if current_profile is Some { opt_text(current_profile) } else { Some(DEFAULT_PROFILE@) })
                } else {
                    &&& r.profiles_view() == parsed
                    &&& opt_text(r.current_profile) == opt_text(current_profile)
                }
            }),
    {
        let mut cfg = FileConfig {
            current_profile,
            profiles: Vec::new(),
            api_key: legacy_api_key,
            transactional_key: legacy_transactional_key,
        };
        let ghost src = profiles@;
        let mut rest = profiles;
        let n = rest.len();
        let mut i: usize = 0;
        // Insert in file order so that a repeated name keeps its last section.
        while i < n
            invariant
                n == src.len(),
                i <= n,
                rest@ == src.subrange(i as int, n as int),
                cfg.wf(),
                cfg.profiles_view() == profile_map(src.subrange(0, i as int)),
                cfg.legacy_view() == (opt_text(legacy_api_key), opt_text(legacy_transactional_key)),
                cfg.current_profile == current_profile,
            decreases n - i,
        {
            let entry = rest.remove(0);
            proof {
                assert(entry == src[i as int]);
                assert(src.subrange(0, i + 1).drop_last() =~= src.subrange(0, i as int));
                assert(rest@ =~= src.subrange(i + 1, n as int));
            }
            let (name, p) = entry;
            let _ = cfg.put_profile(name, p);
            i = i + 1;
        }
        proof {
            assert(src.subrange(0, n as int) =~= src);
        }
        cfg.migrate_legacy();
        cfg
    }

    /// Index of the entry named `name`.
    fn find_profile(&self, name: &str) -> (r: Option<usize>)
        requires
            self.wf(),
        ensures
            match r {
                Some(i) => i < self.profiles@.len() && self.profiles@[i as int].0@ == name@,
                None => !self.profiles_view().contains_key(name@),
            },
    {
        proof {
            lemma_profile_map(self.profiles@);
        }
        let target = chars_of(name);
        let mut i: usize = 0;
        while i < self.profiles.len()
            invariant
                i <= self.profiles@.len(),
                target@ == name@,
                forall|j: int| 0 <= j < i ==> self.profiles@[j].0@ != name@,
            decreases self.profiles@.len() - i,
        {
            let cand = chars_of(self.profiles[i].0.as_str());
            if same_text(&cand, &target) {
                return Some(i);
            }
            i = i + 1;
        }
        None
    }

    /// Sets the profile saved under `name`, replacing any profile of that
    /// name; returns the position of its entry.
    pub fn put_profile(&mut self, name: String, p: Profile) -> (idx: usize)
        requires
            old(self).wf(),
        ensures
            final(self).wf(),
            final(self).profiles_view() == old(self).profiles_view().insert(name@, p@),
            final(self).current_profile == old(self).current_profile,
            final(self).legacy_view() == old(self).legacy_view(),
            idx < final(self).profiles@.len(),
            final(self).profiles@[idx as int].0@ == name@,
    {
        proof {
            lemma_profile_map(self.profiles@);
        }
        match self.find_profile(name.as_str()) {
            Some(i) => {
                let ghost before = self.profiles@;
                let ghost e = (name, p);
                self.profiles.set(i, (name, p));
                proof {
                    lemma_update_entry(before, i as int, e);
                    assert(self.profiles@ == before.update(i as int, e));
                }
                i
            }
            None => {
                let ghost before = self.profiles@;
                self.profiles.push((name, p));
                proof {
                    assert(self.profiles@.drop_last() =~= before);
                    assert(distinct_names(self.profiles@)) by {
                        assert forall|a: int, b: int| 0 <= a < b < self.profiles@.len() implies self.profiles@[a].0@ != self.profiles@[b].0@ by {
                            if b == before.len() {
                                assert(before[a] == self.profiles@[a]);
                                assert(profile_map(before).contains_key(before[a].0@));
                            } else {
                                assert(before[a] == self.profiles@[a]);
                                assert(before[b] == self.profiles@[b]);
                            }
                        }
                    }
                }
                self.profiles.len() - 1
            }
        }
    }

    /// Folds the keys of the older single-profile format into the default
    /// profile when no profile exists yet (selecting it when none is
    /// selected), and always clears the older keys.
    fn migrate_legacy(&mut self)
        requires
            old(self).wf(),
        ensures
            final(self).wf(),
            final(self).legacy_view() == (None::<Seq<char>>, None::<Seq<char>>),
            ({
                let has_legacy = old(self).api_key is Some || old(self).transactional_key is Some;
                if has_legacy && old(self).profiles_view() == Map::<Seq<char>, (Option<Seq<char>>, Option<Seq<char>>)>::empty() {
                    &&& final(self).profiles_view() == old(self).profiles_view().insert(DEFAULT_PROFILE@, old(self).legacy_view())
                    &&& opt_text(final(self).current_profile) == (if old(self).current_profile is Some { opt_text(old(self).current_profile) } else { Some(DEFAULT_PROFILE@) })
                } else {
                    &&& final(self).profiles_view() == old(self).profiles_view()
                    &&& final(self).current_profile == old(self).current_profile
                }
            }),
    {
        proof {
            lemma_profile_map(self.profiles@);
            if self.profiles@.len() > 0 {
                assert(self.profiles_view().contains_key(self.profiles@[0].0@));
                assert(!Map::<Seq<char>, (Option<Seq<char>>, Option<Seq<char>>)>::empty().contains_key(self.profiles@[0].0@));
            }
            if self.profiles@.len() == 0 {
                assert(self.profiles_view() == Map::<Seq<char>, (Option<Seq<char>>, Option<Seq<char>>)>::empty());
            }
        }
        let has_legacy = self.api_key.is_some() || self.transactional_key.is_some();
        if has_legacy && self.profiles.len() == 0 {
            let p = Profile { api_key: self.api_key.take(), transactional_key: self.transactional_key.take() };
            let _ = self.put_profile(owned(DEFAULT_PROFILE), p);
            if self.current_profile.is_none() {
                self.current_profile = Some(owned(DEFAULT_PROFILE));
            }
        }
        self.api_key = None;
        self.transactional_key = None;
    }

    /// The profile saved under `name`.
    pub fn profile(&self, name: &str) -> (r: Option<&Profile>)
        requires
            self.wf(),
        ensures
            match r {
                Some(p) => self.profiles_view().contains_key(name@) && p@ == self.profiles_view()[name@],
                None => !self.profiles_view().contains_key(name@),
            },
    {
        proof {
            lemma_profile_map(self.profiles@);
        }
        match self.find_profile(name) {
            Some(i) => Some(&self.profiles[i].1),
            None => None,
        }
    }
}


impl FileConfig {
    /// The profile saved under `name`, created empty first when missing, for
    /// updating in place.
    pub fn profile_mut(&mut self, name: &str) -> (r: &mut Profile)
        requires
            old(self).wf(),
        ensures
            r@ == (if old(self).profiles_view().contains_key(name@) {
                old(self).profiles_view()[name@]
            } else {
                (None::<Seq<char>>, None::<Seq<char>>)
            }),
            final(self).wf(),
            final(self).profiles_view() == old(self).profiles_view().insert(name@, final(r)@),
            final(self).current_profile == old(self).current_profile,
            final(self).legacy_view() == old(self).legacy_view(),
    {
        proof {
            lemma_profile_map(self.profiles@);
        }
        let i = match self.find_profile(name) {
            Some(i) => i,
            None => self.put_profile(owned(name), Profile::empty()),
        };
        proof {
            lemma_profile_map(self.profiles@);
        }
        let ghost mid = self.profiles@;
        let r = &mut self.profiles[i].1;
        proof {
            lemma_update_entry(mid, i as int, (mid[i as int].0, *final(r)));
            assert(*r == mid[i as int].1);
            assert(profile_map(mid)[mid[i as int].0@] == mid[i as int].1@);
        }
        r
    }
}

/// Where a key came from.
#[derive(Debug, Clone, Copy, PartialEq, Eq, Structural)]
pub enum KeySource {
    Flag,
    Env,
    Profile,
    Missing,
}

/// The label shown for each key source.
pub open spec fn key_source_label(k: KeySource) -> Seq<char> {
    match k {
        KeySource::Flag => "command-line flag"@,
        KeySource::Env => "environment variable"@,
        KeySource::Profile => "config file"@,
        KeySource::Missing => "not set"@,
    }
}

impl KeySource {
    /// A human-readable name for the source.
    pub fn label(self) -> (r: &'static str)
        ensures
            r@ == key_source_label(self),
    {
        match self {
            KeySource::Flag => "command-line flag",
            KeySource::Env => "environment variable",
            KeySource::Profile => "config file",
            KeySource::Missing => "not set",
        }
    }
}

/// The keys in effect for this run and where each came from.
pub struct Resolved {
    pub base_url: String,
    pub api_key: Option<String>,
    pub transactional_key: Option<String>,
    pub api_key_source: KeySource,
    pub transactional_key_source: KeySource,
}

/// The key that wins and its source: the flag, else a non-empty environment
/// value, else the saved profile's key.
pub open spec fn resolve_key_spec(
    cli: Option<Seq<char>>,
    env: Option<Seq<char>>,
    profile: Option<Seq<char>>,
) -> (Option<Seq<char>>, KeySource) {
    if cli is Some {
        (cli, KeySource::Flag)
    } else if env is Some && env->0.len() > 0 {
        (env, KeySource::Env)
    } else if profile is Some {
        (profile, KeySource::Profile)
    } else {
        (None, KeySource::Missing)
    }
}

/// Picks a key: the command-line value first, then the environment value
/// (when set and non-empty), then the saved profile's value.
pub fn resolve_key(cli: Option<String>, env: Option<String>, profile: Option<String>) -> (r: (
    Option<String>,
    KeySource,
))
    ensures
        (opt_text(r.0), r.1) == resolve_key_spec(opt_text(cli), opt_text(env), opt_text(profile)),
{
    if let Some(v) = cli {
        return (Some(v), KeySource::Flag);
    }
    if let Some(v) = env {
        if !v.as_str().is_empty() {
            return (Some(v), KeySource::Env);
        }
    }
    if let Some(v) = profile {
        return (Some(v), KeySource::Profile);
    }
    (None, KeySource::Missing)
}

/// The name of the selected profile.
pub open spec fn selected_profile_name(file: FileConfig) -> Seq<char> {
    match opt_text(file.current_profile) {
        Some(n) => n,
        None => DEFAULT_PROFILE@,
    }
}

/// The keys of the selected profile (none when it does not exist).
pub open spec fn selected_profile(file: FileConfig) -> (Option<Seq<char>>, Option<Seq<char>>) {
    let n = selected_profile_name(file);
    if file.profiles_view().contains_key(n) {
        file.profiles_view()[n]
    } else {
        (None, None)
    }
}

/// The key missing from a `require_api_key` call.
pub open spec fn missing_api_key_message() -> Seq<char> {
    "no API key found. Run `jetemail login`, set JETEMAIL_API_KEY, or pass --api-key."@
}

/// The key missing from a `require_transactional_key` call.
pub open spec fn missing_transactional_key_message() -> Seq<char> {
    "no transactional key found. Run `jetemail login --transactional`, set JETEMAIL_TRANSACTIONAL_KEY, or pass --transactional-key."@
}

impl Resolved {
    /// Layers the keys: `cli_*` are the command-line values, `env_*` the
    /// values of `JETEMAIL_API_KEY` / `JETEMAIL_TRANSACTIONAL_KEY` (when set),
    /// and `file` the loaded config, whose selected profile supplies the rest.
    pub fn from_layers(
        cli_api_key: Option<String>,
        cli_transactional_key: Option<String>,
        env_api_key: Option<String>,
        env_transactional_key: Option<String>,
        file: &FileConfig,
    ) -> (r: Resolved)
        requires
            file.wf(),
        ensures
            r.base_url@ == DEFAULT_BASE_URL@,
            (opt_text(r.api_key), r.api_key_source) == resolve_key_spec(
                opt_text(cli_api_key),
                opt_text(env_api_key),
                selected_profile(*file).0,
            ),
            (opt_text(r.transactional_key), r.transactional_key_source) == resolve_key_spec(
                opt_text(cli_transactional_key),
                opt_text(env_transactional_key),
                selected_profile(*file).1,
            ),
    {
        let profile_name = match &file.current_profile {
            Some(n) => copy_string(n),
            None => owned(DEFAULT_PROFILE),
        };
        let profile = match file.profile(profile_name.as_str()) {
            Some(p) => p.copied(),
            None => Profile::empty(),
        };
        let (api_key, api_key_source) = resolve_key(cli_api_key, env_api_key, profile.api_key);
        let (transactional_key, transactional_key_source) = resolve_key(
            cli_transactional_key,
            env_transactional_key,
            profile.transactional_key,
        );
        Resolved {
            base_url: owned(DEFAULT_BASE_URL),
            api_key,
            transactional_key,
            api_key_source,
            transactional_key_source,
        }
    }

    /// The management key, or an error telling the user how to supply one.
    pub fn require_api_key(&self) -> (r: Result<&str, CliError>)
        ensures
            match r {
                Ok(k) => opt_text(self.api_key) == Some(k@),
                Err(e) => self.api_key is None && e.message@ == missing_api_key_message(),
            },
    {
        match &self.api_key {
            Some(k) => Ok(k.as_str()),
            None => Err(CliError::new(
                "no API key found. Run `jetemail login`, set JETEMAIL_API_KEY, or pass --api-key.",
            )),
        }
    }

    /// The transactional key, or an error telling the user how to supply one.
    pub fn require_transactional_key(&self) -> (r: Result<&str, CliError>)
        ensures
            match r {
                Ok(k) => opt_text(self.transactional_key) == Some(k@),
                Err(e) => self.transactional_key is None && e.message@ == missing_transactional_key_message(),
            },
    {
        match &self.transactional_key {
            Some(k) => Ok(k.as_str()),
            None => Err(CliError::new(
                "no transactional key found. Run `jetemail login --transactional`, set JETEMAIL_TRANSACTIONAL_KEY, or pass --transactional-key.",
            )),
        }
    }
}

/// Keys resolve in a fixed order, first match winning: the command-line
/// flag; else the environment variable, unless it is empty; else the saved
/// profile; else the key is missing. In particular a flag always wins, and an
/// empty environment value never hides a saved key.
pub proof fn lemma_resolution_order(cli: Option<Seq<char>>, env: Option<Seq<char>>, profile: Option<Seq<char>>)
    ensures
        cli is Some ==> resolve_key_spec(cli, env, profile) == (cli, KeySource::Flag),
        cli is None && env is Some && env->0.len() > 0 ==> resolve_key_spec(cli, env, profile) == (env, KeySource::Env),
        cli is None && (env is None || env->0.len() == 0) && profile is Some ==> resolve_key_spec(cli, env, profile) == (profile, KeySource::Profile),
        cli is None && (env is None || env->0.len() == 0) && profile is None ==> resolve_key_spec(cli, env, profile) == (None::<Seq<char>>, KeySource::Missing),
        (resolve_key_spec(cli, env, profile).0 is None) <==> (resolve_key_spec(cli, env, profile).1 == KeySource::Missing),
{
}

/// Wipes a key held in memory (wraps `zeroize::Zeroize::zeroize` on an
/// `Option<String>`, which overwrites the text and leaves `None`).
#[verifier::external_body]
fn wipe(k: &mut Option<String>)
    ensures
        *final(k) is None,
{
    zeroize::Zeroize::zeroize(k)
}

impl Resolved {
    /// Wipes both keys from memory; for when the resolved configuration is
    /// done with.
    pub fn scrub(&mut self)
        ensures
            final(self).api_key is None,
            final(self).transactional_key is None,
            final(self).base_url == old(self).base_url,
            final(self).api_key_source == old(self).api_key_source,
            final(self).transactional_key_source == old(self).transactional_key_source,
    {
        wipe(&mut self.api_key);
        wipe(&mut self.transactional_key);
    }
}

/// The display form of a key: all stars up to 8 characters; otherwise the
/// part before the first `_` (or the first 3 characters when there is none),
/// then `_…`, then the last (at most) 4 characters after that `_`.
pub open spec fn mask_key_spec(k: Seq<char>) -> Seq<char> {
    if k.len() <= 8 {
        repeat_spec('*', k.len())
    } else {
        let prefix = match index_of(k, '_') {
            Some(i) => k.take(i),
            None => k.take(3),
        };
        let tail = match index_of(k, '_') {
            Some(i) => k.skip(i + 1),
            None => k,
        };
        prefix + seq!['_', '…'] + last_n(tail, 4)
    }
}

/// Masks a key for safe display: shows the prefix and the last 4 characters.
/// Works on characters, so any text is accepted.
pub fn mask_key(key: &str) -> (r: String)
    ensures
        r@ == mask_key_spec(key@),
{
    let k = chars_of(key);
    let n = k.len();
    if n <= 8 {
        return string_of(&repeat_char('*', n));
    }
    proof {
        crate::text::lemma_index_of(k@, '_');
    }
    let (prefix, tail) = match find_char(&k, '_') {
        Some(i) => (subvec(&k, 0, i), subvec(&k, i + 1, n)),
        None => (subvec(&k, 0, 3), subvec(&k, 0, n)),
    };
    proof {
        assert(k@.subrange(0, n as int) =~= k@);
    }
    let start: usize = if tail.len() >= 4 { tail.len() - 4 } else { 0 };
    let suffix = subvec(&tail, start, tail.len());
    let mut out = prefix;
    out.push('_');
    out.push('…');
    push_all(&mut out, &suffix);
    proof {
        assert(suffix@ =~= last_n(tail@, 4));
        assert(out@ =~= mask_key_spec(k@));
    }
    string_of(&out)
}
} // verus!
