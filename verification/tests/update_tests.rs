use jetemail::commands::update::{
    cache_stale, check_body_size, eq_ignore_ascii_case, package_manager_hint, parse_sha256sums, parse_version,
    sha256_hex, staging_name, target_triple, trim_v, update_step, verify_checksum, UpdateStep, VersionError,
};
use jetemail::commands::update::outdated_message;

#[test]
fn checksum_lines() {
    let text = "abc123  jetemail-1.2.0-x86_64-unknown-linux-gnu\r\ndef456 *jetemail-1.2.0-aarch64-apple-darwin\n";
    assert_eq!(parse_sha256sums(text, "jetemail-1.2.0-aarch64-apple-darwin").as_deref(), Some("def456"));
    assert_eq!(parse_sha256sums(text, "jetemail-1.2.0-x86_64-unknown-linux-gnu").as_deref(), Some("abc123"));
    assert_eq!(parse_sha256sums(text, "missing"), None);
    assert_eq!(parse_sha256sums("lonely\n\n", "lonely"), None);
}

#[test]
fn sha256_of_bytes() {
    assert_eq!(sha256_hex(b"abc"), "ba7816bf8f01cfea414140de5dae2223b00361a396177a9cb410ff61f20015ad");
    assert!(verify_checksum("a", "BA7816BF8F01CFEA414140DE5DAE2223B00361A396177A9CB410FF61F20015AD", b"abc").is_ok());
    let e = verify_checksum("a", "00", b"abc").err().unwrap();
    assert!(e.message.starts_with("checksum mismatch for a — refusing to install\n  expected: 00\n  actual:   ba78"));
    assert!(eq_ignore_ascii_case("AbC", "aBc"));
    assert!(!eq_ignore_ascii_case("abc", "abd"));
}

#[test]
fn versions_and_steps() {
    assert_eq!(trim_v("vv1.2.3"), "1.2.3");
    assert_eq!(parse_version("v1.02.3"), None);
    assert_eq!(parse_version("v1.2.3").as_deref(), Some("1.2.3"));
    match update_step("1.0.0", "v1.1.0", "x86_64-unknown-linux-gnu", false, true, false).ok().unwrap() {
        UpdateStep::Report(l) => assert_eq!(l, "update available: v1.0.0 → v1.1.0"),
        _ => panic!("report expected"),
    }
    match update_step("1.1.0", "v1.1.0", "t", false, false, false).ok().unwrap() {
        UpdateStep::Report(l) => assert_eq!(l, "already on the latest version (v1.1.0)"),
        _ => panic!("report expected"),
    }
    match update_step("1.1.0", "v1.1.0", "x86_64-pc-windows-msvc", true, false, true).ok().unwrap() {
        UpdateStep::Install { tag, asset, url, sums_url } => {
            assert_eq!(tag, "v1.1.0");
            assert_eq!(asset, "jetemail-1.1.0-x86_64-pc-windows-msvc.exe");
            assert_eq!(url, "https://github.com/jetemail/jetemail-cli/releases/download/v1.1.0/jetemail-1.1.0-x86_64-pc-windows-msvc.exe");
            assert_eq!(sums_url, "https://github.com/jetemail/jetemail-cli/releases/download/v1.1.0/SHA256SUMS");
        },
        _ => panic!("install expected"),
    }
    assert!(matches!(update_step("1.0.0", "garbage", "t", false, true, false), Err(VersionError::Latest)));
}

#[test]
fn reminder_and_cache() {
    assert!(outdated_message("v2.0.0", "1.0.0").unwrap().contains("A new version of jetemail is available: v2.0.0 (you have v1.0.0)"));
    assert!(outdated_message("v1.0.0", "1.0.0").is_none());
    assert!(outdated_message("", "1.0.0").is_none());
    assert!(cache_stale(200_000, 100));
    assert!(!cache_stale(86_500, 100));
    assert!(!cache_stale(5, 100));
}

#[test]
fn install_paths_and_targets() {
    assert_eq!(
        package_manager_hint("/opt/Homebrew/Cellar/jetemail/1.0/bin/jetemail").as_deref(),
        Some("Installed via Homebrew — update with: brew upgrade jetemail")
    );
    assert!(package_manager_hint("/home/u/.cargo/bin/jetemail").unwrap().starts_with("Installed via cargo"));
    assert_eq!(package_manager_hint("/usr/local/bin/jetemail"), None);
    assert_eq!(target_triple("linux", "x86_64", "musl"), Some("x86_64-unknown-linux-musl"));
    assert_eq!(target_triple("freebsd", "x86_64", ""), None);
    assert_eq!(staging_name("1.2.0", 77, 123), ".jetemail-1.2.0.77-123.download");
    assert_eq!(check_body_size(268435457, "u").err().unwrap().message, "download from u exceeded 268435456-byte cap");
}
