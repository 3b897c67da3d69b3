use jetemail::commands::auth::{apply_login, apply_logout, key_warning, login_api_key, rejection_message, whoami_lines};
use jetemail::commands::config_cmd::{config_get, config_set, config_unset, get_display, mask_profiles};
use jetemail::commands::doctor;
use jetemail::commands::tail_query;
use jetemail::commands::util::attachment_object;
use jetemail::config::{FileConfig, Profile, Resolved, DEFAULT_PROFILE};
use jetemail::json::Json;

#[test]
fn login_saves_default_profile() {
    let mut file = FileConfig::empty();
    apply_login(&mut file, "api_new".to_string(), None);
    assert_eq!(file.current_profile.as_deref(), Some(DEFAULT_PROFILE));
    assert_eq!(file.profile(DEFAULT_PROFILE).unwrap().api_key.as_deref(), Some("api_new"));
    assert!(key_warning("api_new").is_none());
    assert!(key_warning("key").unwrap().starts_with("warning: management keys"));
    assert_eq!(login_api_key(&None, false).err().unwrap().message, "--api-key is required when stdin is not a TTY");
    assert_eq!(rejection_message("401 Unauthorized", "nope").message, "key rejected — HTTP 401 Unauthorized: nope");
}

#[test]
fn logout_clears_keys_but_keeps_profile() {
    let mut file = FileConfig::empty();
    assert!(!apply_logout(&mut file));
    apply_login(&mut file, "api_x".to_string(), Some("transactional_y".to_string()));
    assert!(apply_logout(&mut file));
    let p = file.profile(DEFAULT_PROFILE).unwrap();
    assert!(p.api_key.is_none() && p.transactional_key.is_none());
}

#[test]
fn config_get_set_unset() {
    let mut file = FileConfig::empty();
    config_set(&mut file, "api_key", "api_1234567890".to_string()).unwrap();
    assert_eq!(config_get(&file, "api_key").unwrap().as_deref(), Some("api_1234567890"));
    assert_eq!(config_set(&mut file, "bogus", "x".to_string()).err().unwrap().message, "unknown config key `bogus`");
    let (line, note) = get_display(Some("api_1234567890".to_string()), false, true);
    assert_eq!(line, "api_…7890");
    assert!(note.is_some());
    let (raw, none) = get_display(Some("api_1234567890".to_string()), false, false);
    assert_eq!(raw, "api_1234567890");
    assert!(none.is_none());
    config_unset(&mut file, "api_key").unwrap();
    assert_eq!(config_get(&file, "api_key").unwrap(), None);
}

#[test]
fn show_masks_every_profile() {
    let mut file = FileConfig::from_parsed(
        None,
        vec![("a".to_string(), Profile { api_key: Some("api_aaaaaaaaaa".to_string()), transactional_key: None })],
        None,
        None,
    );
    assert!(mask_profiles(&mut file));
    assert_eq!(file.profiles[0].1.api_key.as_deref(), Some("api_…aaaa"));
}

#[test]
fn whoami_and_doctor_reports() {
    let file = FileConfig::empty();
    let r = Resolved::from_layers(Some("api_1234567890".to_string()), None, None, None, &file);
    assert_eq!(
        whoami_lines(&r),
        vec!["API key:           api_…7890 (command-line flag)".to_string(), "Transactional key: — (not set)".to_string()]
    );
    let (lines, failed) = doctor::run(&r, "/tmp/c.toml", &Some(Ok(())));
    assert!(!failed);
    assert_eq!(lines[2], "  ✓  config file          /tmp/c.toml");
    assert_eq!(lines.last().unwrap(), "✓ everything looks good.");
    let (lines, failed) = doctor::run(&r, "/tmp/c.toml", &Some(Err("down".to_string())));
    assert!(failed);
    assert_eq!(lines[5], "  ✗  api reachable        down");
}

#[test]
fn attachments_from_files() {
    let a = attachment_object("/tmp/report.pdf", b"hi");
    match a {
        Json::Object(m) => {
            assert!(matches!(&m[0].1, Json::Str(v) if v == "report.pdf"));
            assert!(matches!(&m[1].1, Json::Str(v) if v == "application/pdf"));
            assert!(matches!(&m[2].1, Json::Str(v) if v == "aGk="));
            assert!(matches!(&m[3].1, Json::Str(v) if v == "base64"));
        },
        _ => panic!("object expected"),
    }
}

#[test]
fn tail_query_starts_five_seconds_back() {
    let q = vec![("limit".to_string(), "10".to_string())];
    let out = tail_query(q, 1_700_000_000);
    assert_eq!(
        out,
        vec![("limit".to_string(), "10".to_string()), ("date_from".to_string(), "1699999995".to_string())]
    );
    let given = vec![("date_from".to_string(), "42".to_string())];
    assert_eq!(tail_query(given, 1_700_000_000), vec![("date_from".to_string(), "42".to_string())]);
    assert_eq!(tail_query(Vec::new(), 3), vec![("date_from".to_string(), "-2".to_string())]);
}

#[test]
fn login_key_is_the_one_in_use() {
    let mut file = FileConfig::empty();
    config_set(&mut file, "transactional_key", "transactional_old".to_string()).unwrap();
    apply_login(&mut file, "api_logged_in".to_string(), None);
    let r = Resolved::from_layers(None, None, Some(String::new()), None, &file);
    assert_eq!(r.api_key.as_deref(), Some("api_logged_in"));
    assert_eq!(r.api_key_source, jetemail::config::KeySource::Profile);
    assert_eq!(r.transactional_key.as_deref(), Some("transactional_old"));
    assert!(apply_logout(&mut file));
    let r = Resolved::from_layers(None, None, None, None, &file);
    assert!(r.api_key.is_none() && r.transactional_key.is_none());
    assert_eq!(r.api_key_source, jetemail::config::KeySource::Missing);
    assert_eq!(config_get(&file, "api_key").unwrap(), None);
}
