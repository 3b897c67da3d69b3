use jetemail::config::{mask_key, FileConfig, KeySource, Profile, Resolved, DEFAULT_PROFILE};

#[test]
fn mask_normal_key() {
    assert_eq!(mask_key("api_1234567890abcd"), "api_…abcd");
    assert_eq!(mask_key("transactional_zzzzwxyz"), "transactional_…wxyz");
}

#[test]
fn mask_short_keys_are_all_stars() {
    assert_eq!(mask_key(""), "");
    assert_eq!(mask_key("a"), "*");
    assert_eq!(mask_key("12345678"), "********");
}

#[test]
fn mask_no_underscore_does_not_panic() {
    assert_eq!(mask_key("abcdefghij"), "abc_…ghij");
}

#[test]
fn mask_non_ascii_does_not_panic() {
    let masked = mask_key("ééééééééé");
    assert!(masked.contains('…'));
    let masked2 = mask_key("🔑🔑🔑🔑🔑🔑🔑🔑🔑");
    assert!(masked2.contains('…'));
}

#[test]
fn mask_keeps_at_most_four_tail_characters() {
    assert_eq!(mask_key("api_ab12345"), "api_…2345");
    assert_eq!(mask_key("abcdefgh_x"), "abcdefgh_…x");
}

fn file_with(api: Option<&str>, tx: Option<&str>) -> FileConfig {
    FileConfig::from_parsed(
        Some(DEFAULT_PROFILE.to_string()),
        vec![(
            DEFAULT_PROFILE.to_string(),
            Profile { api_key: api.map(|s| s.to_string()), transactional_key: tx.map(|s| s.to_string()) },
        )],
        None,
        None,
    )
}

#[test]
fn flag_wins_over_env_and_profile() {
    let file = file_with(Some("api_saved"), None);
    let r = Resolved::from_layers(Some("api_flag".to_string()), None, Some("api_env".to_string()), None, &file);
    assert_eq!(r.api_key.as_deref(), Some("api_flag"));
    assert_eq!(r.api_key_source, KeySource::Flag);
}

#[test]
fn env_wins_over_profile_unless_empty() {
    let file = file_with(Some("api_saved"), Some("transactional_saved"));
    let r = Resolved::from_layers(None, None, Some("api_env".to_string()), Some(String::new()), &file);
    assert_eq!(r.api_key.as_deref(), Some("api_env"));
    assert_eq!(r.api_key_source, KeySource::Env);
    assert_eq!(r.transactional_key.as_deref(), Some("transactional_saved"));
    assert_eq!(r.transactional_key_source, KeySource::Profile);
}

#[test]
fn missing_key_errors_with_hint() {
    let file = FileConfig::empty();
    let r = Resolved::from_layers(None, None, None, None, &file);
    assert_eq!(r.api_key_source, KeySource::Missing);
    assert_eq!(KeySource::Missing.label(), "not set");
    let e = r.require_api_key().err().unwrap();
    assert_eq!(e.message, "no API key found. Run `jetemail login`, set JETEMAIL_API_KEY, or pass --api-key.");
    let e2 = r.require_transactional_key().err().unwrap();
    assert!(e2.message.starts_with("no transactional key found."));
}

#[test]
fn legacy_keys_fold_into_default_profile() {
    let file = FileConfig::from_parsed(None, Vec::new(), Some("api_old".to_string()), None);
    assert_eq!(file.current_profile.as_deref(), Some(DEFAULT_PROFILE));
    let p = file.profile(DEFAULT_PROFILE).unwrap();
    assert_eq!(p.api_key.as_deref(), Some("api_old"));
    assert!(file.api_key.is_none());
}

#[test]
fn profile_mut_creates_missing_profile() {
    let mut file = FileConfig::empty();
    file.profile_mut("work").api_key = Some("api_w".to_string());
    assert_eq!(file.profile("work").unwrap().api_key.as_deref(), Some("api_w"));
    assert!(file.profile("other").is_none());
}

#[test]
fn scrub_wipes_keys() {
    let file = file_with(Some("api_saved"), Some("transactional_saved"));
    let mut r = Resolved::from_layers(None, None, None, None, &file);
    r.scrub();
    assert!(r.api_key.is_none());
    assert!(r.transactional_key.is_none());
    assert_eq!(r.api_key_source, KeySource::Profile);
}
