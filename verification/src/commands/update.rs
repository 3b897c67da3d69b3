//! Self-update: whether a newer release exists, which asset to fetch, the
//! checks on what was downloaded, and the once-a-day reminder.

use vstd::prelude::*;

use crate::error::CliError;
use crate::text::{
    chars_of, contains_seq, contains_str, digits_of, hex_digit, index_of, is_whitespace, is_ws, lowercase, opt_text, owned,
    push_digits, push_str, split_chars, split_on, string_of, subvec, to_lower,
};

verus! {

/// `update`: only report, or reinstall even when up to date.
pub struct Cmd {
    pub check: bool,
    pub force: bool,
}

// ───────────── versions ─────────────

/// What `semver::Version::parse` makes of a text: the version as semver
/// prints it, or nothing when the text is not a version.
pub uninterp spec fn semver_parse(s: Seq<char>) -> Option<Seq<char>>;

/// Parses a version (wraps `semver::Version::parse`, printing the result
/// with its `Display`).
#[verifier::external_body]
fn parse_semver(s: &str) -> (r: Option<String>)
    ensures
        opt_text(r) == semver_parse(s@),
{
    match semver::Version::parse(s) {
        Ok(v) => Some(v.to_string()),
        Err(_) => None,
    }
}

/// Whether version `a` is newer than version `b` by semver's order (major,
/// minor, patch, pre-release, build).
pub uninterp spec fn semver_newer(a: Seq<char>, b: Seq<char>) -> bool;

/// Whether version `a` is newer than version `b` (wraps `semver::Version`'s
/// `>` on the two texts parsed; both must parse).
#[verifier::external_body]
fn semver_gt(a: &str, b: &str) -> (r: bool)
    requires
        semver_parse(a@) is Some,
        semver_parse(b@) is Some,
    ensures
        r == semver_newer(a@, b@),
{
    match (semver::Version::parse(a), semver::Version::parse(b)) {
        (Ok(x), Ok(y)) => x > y,
        _ => false,
    }
}

/// A version tag without its leading `v`s.
pub open spec fn strip_v(s: Seq<char>) -> Seq<char>
    decreases s.len(),
{
    if s.len() > 0 && s[0] == 'v' { strip_v(s.drop_first()) } else { s }
}

/// Drops the leading `v`s of a version tag.
pub fn trim_v(s: &str) -> (r: String)
    ensures
        r@ == strip_v(s@),
{
    let cs = chars_of(s);
    let mut i: usize = 0;
    proof {
        assert(cs@.skip(0) =~= cs@);
    }
    while i < cs.len() && cs[i] == 'v'
        invariant
            i <= cs@.len(),
            cs@ == s@,
            strip_v(s@) == strip_v(cs@.skip(i as int)),
        decreases cs@.len() - i,
    {
        proof {
            assert(cs@.skip(i as int).drop_first() =~= cs@.skip(i + 1));
        }
        i = i + 1;
    }
    let out = subvec(&cs, i, cs.len());
    proof {
        assert(out@ =~= cs@.skip(i as int));
    }
    string_of(&out)
}

/// A version as `update` reads it: leading `v`s dropped, then parsed.
pub open spec fn version_of(s: Seq<char>) -> Option<Seq<char>> {
    semver_parse(strip_v(s))
}

/// Reads a version tag: leading `v`s dropped, then parsed; the version as
/// semver prints it.
pub fn parse_version(s: &str) -> (r: Option<String>)
    ensures
        opt_text(r) == version_of(s@),
{
    parse_semver(trim_v(s).as_str())
}

/// The repository releases come from.
pub open spec fn repo() -> Seq<char> {
    "jetemail/jetemail-cli"@
}

/// What `update` does once it knows the latest release.
pub enum UpdateStep {
    /// Print a line and stop.
    Report(String),
    /// Download and install a release.
    Install { tag: String, asset: String, url: String, sums_url: String },
}

/// Which version failed to parse.
#[derive(Debug, Clone, Copy, PartialEq, Eq, Structural)]
pub enum VersionError {
    Latest,
    Current,
}

/// The form of an update step.
pub enum StepV {
    Report(Seq<char>),
    Install(Seq<char>, Seq<char>, Seq<char>, Seq<char>),
}

pub open spec fn step_view(s: UpdateStep) -> StepV {
    match s {
        UpdateStep::Report(l) => StepV::Report(l@),
        UpdateStep::Install { tag, asset, url, sums_url } => StepV::Install(tag@, asset@, url@, sums_url@),
    }
}

/// The release asset for a version and target (`.exe` on Windows).
pub open spec fn asset_name(version: Seq<char>, target: Seq<char>, windows: bool) -> Seq<char> {
    "jetemail-"@ + version + "-"@ + target + (if windows { ".exe"@ } else { Seq::empty() })
}

/// The download URL of a release file.
pub open spec fn release_url(tag: Seq<char>, file: Seq<char>) -> Seq<char> {
    "https://github.com/"@ + repo() + "/releases/download/"@ + tag + "/"@ + file
}

/// What `update` does: with `--check`, report whether the latest release is
/// newer; otherwise stop when it is not newer (unless `--force`), else
/// install it, with its checksum list from the same release.
pub open spec fn update_spec(current: Seq<char>, latest: Seq<char>, target: Seq<char>, windows: bool, check: bool, force: bool) -> Result<StepV, VersionError> {
    match version_of(latest) {
        None => Err(VersionError::Latest),
        Some(lv) => match version_of(current) {
            None => Err(VersionError::Current),
            Some(cv) => {
                let newer = semver_newer(strip_v(latest), strip_v(current));
                if check {
                    if newer {
                        Ok(StepV::Report("update available: v"@ + cv + " → v"@ + lv))
                    } else {
                        Ok(StepV::Report("up to date (v"@ + cv + ")"@))
                    }
                } else if !newer && !force {
                    Ok(StepV::Report("already on the latest version (v"@ + cv + ")"@))
                } else {
                    let tag = "v"@ + lv;
                    let asset = asset_name(lv, target, windows);
                    Ok(StepV::Install(tag, asset, release_url(tag, asset), release_url(tag, "SHA256SUMS"@)))
                }
            },
        },
    }
}

/// Whatever `update` installs is the latest release: its tag is `v` and the
/// latest version, its asset that version's build for the target, both URLs
/// point into that release; and it installs only without `--check`, when the
/// latest release is newer or `--force` is given.
pub proof fn lemma_install_is_latest(current: Seq<char>, latest: Seq<char>, target: Seq<char>, windows: bool, check: bool, force: bool)
    ensures
        update_spec(current, latest, target, windows, check, force) matches Ok(StepV::Install(tag, asset, url, sums)) ==> {
            &&& !check
            &&& force || semver_newer(strip_v(latest), strip_v(current))
            &&& version_of(latest) is Some
            &&& tag == "v"@ + version_of(latest)->0
            &&& asset == asset_name(version_of(latest)->0, target, windows)
            &&& url == release_url(tag, asset)
            &&& sums == release_url(tag, "SHA256SUMS"@)
        },
        version_of(latest) is Some && version_of(current) is Some && !check
            && (force || semver_newer(strip_v(latest), strip_v(current)))
            ==> update_spec(current, latest, target, windows, check, force) is Ok
            && update_spec(current, latest, target, windows, check, force)->Ok_0 is Install,
{
}

fn cat3(a: &str, b: &str, c: &str) -> (r: String)
    ensures
        r@ == a@ + b@ + c@,
{
    let mut out = chars_of(a);
    push_str(&mut out, b);
    push_str(&mut out, c);
    string_of(&out)
}

fn release_url_of(tag: &str, file: &str) -> (r: String)
    ensures
        r@ == release_url(tag@, file@),
{
    let mut out = chars_of("https://github.com/");
    push_str(&mut out, "jetemail/jetemail-cli");
    push_str(&mut out, "/releases/download/");
    push_str(&mut out, tag);
    push_str(&mut out, "/");
    push_str(&mut out, file);
    string_of(&out)
}

/// What `update` does (see `update_spec`), from the running version, the
/// latest release tag, the build target and the flags.
pub fn update_step(current: &str, latest: &str, target: &str, windows: bool, check: bool, force: bool) -> (r: Result<UpdateStep, VersionError>)
    ensures
        match update_spec(current@, latest@, target@, windows, check, force) {
            Ok(s) => r matches Ok(x) && step_view(x) == s,
            Err(e) => r == Err::<UpdateStep, VersionError>(e),
        },
        r matches Ok(UpdateStep::Install { tag, asset, url, sums_url }) ==> {
            &&& !check
            &&& force || semver_newer(strip_v(latest@), strip_v(current@))
            &&& version_of(latest@) is Some
            &&& tag@ == "v"@ + version_of(latest@)->0
            &&& asset@ == asset_name(version_of(latest@)->0, target@, windows)
            &&& url@ == release_url(tag@, asset@)
            &&& sums_url@ == release_url(tag@, "SHA256SUMS"@)
        },
        r matches Ok(UpdateStep::Report(line)) ==> {
            let newer = semver_newer(strip_v(latest@), strip_v(current@));
            &&& version_of(latest@) is Some
            &&& version_of(current@) is Some
            &&& check && newer ==> line@ == "update available: v"@ + version_of(current@)->0 + " → v"@
                + version_of(latest@)->0
            &&& check && !newer ==> line@ == "up to date (v"@ + version_of(current@)->0 + ")"@
            &&& !check ==> !newer && !force && line@ == "already on the latest version (v"@ + version_of(current@)->0
                + ")"@
        },
{
    proof {
        lemma_install_is_latest(current@, latest@, target@, windows, check, force);
    }
    let lv = match parse_version(latest) {
        Some(v) => v,
        None => return Err(VersionError::Latest),
    };
    let cv = match parse_version(current) {
        Some(v) => v,
        None => return Err(VersionError::Current),
    };
    let lt = trim_v(latest);
    let ct = trim_v(current);
    let newer = semver_gt(lt.as_str(), ct.as_str());
    if check {
        if newer {
            let mut out = chars_of("update available: v");
            push_str(&mut out, cv.as_str());
            push_str(&mut out, " → v");
            push_str(&mut out, lv.as_str());
            return Ok(UpdateStep::Report(string_of(&out)));
        }
        return Ok(UpdateStep::Report(cat3("up to date (v", cv.as_str(), ")")));
    }
    if !newer && !force {
        return Ok(UpdateStep::Report(cat3("already on the latest version (v", cv.as_str(), ")")));
    }
    let mut t = chars_of("v");
    push_str(&mut t, lv.as_str());
    let tag = string_of(&t);
    let mut a = chars_of("jetemail-");
    push_str(&mut a, lv.as_str());
    push_str(&mut a, "-");
    push_str(&mut a, target);
    if windows {
        push_str(&mut a, ".exe");
    }
    let asset = string_of(&a);
    proof {
        assert(asset@ =~= asset_name(lv@, target@, windows));
    }
    let url = release_url_of(tag.as_str(), asset.as_str());
    let sums_url = release_url_of(tag.as_str(), "SHA256SUMS");
    Ok(UpdateStep::Install { tag, asset, url, sums_url })
}

// ───────────── where the binary came from ─────────────

/// The hint for a binary a package manager installed, by where it lives
/// (compared lowercased): Homebrew, Scoop or cargo.
pub open spec fn package_manager_hint_spec(path: Seq<char>) -> Option<Seq<char>> {
    let l = lowercase(path);
    if contains_seq(l, "/cellar/"@) || contains_seq(l, "/homebrew/"@) || contains_seq(l, "/opt/homebrew/"@)
        || contains_seq(l, "/.linuxbrew/"@) {
        Some("Installed via Homebrew — update with: brew upgrade jetemail"@)
    } else if contains_seq(l, "\\scoop\\"@) || contains_seq(l, "/scoop/"@) {
        Some("Installed via Scoop — update with: scoop update jetemail-cli"@)
    } else if contains_seq(l, "/.cargo/bin/"@) || contains_seq(l, "\\.cargo\\bin\\"@) {
        Some("Installed via cargo — update with:\n  cargo install --git https://github.com/jetemail/jetemail-cli --force"@)
    } else {
        None
    }
}

/// How to update a binary a package manager installed, by its path (see
/// `package_manager_hint_spec`); nothing for one installed otherwise.
pub fn package_manager_hint(path: &str) -> (r: Option<String>)
    ensures
        opt_text(r) == package_manager_hint_spec(path@),
{
    let l = to_lower(path);
    let s = l.as_str();
    if contains_str(s, "/cellar/") || contains_str(s, "/homebrew/") || contains_str(s, "/opt/homebrew/")
        || contains_str(s, "/.linuxbrew/") {
        Some(owned("Installed via Homebrew — update with: brew upgrade jetemail"))
    } else if contains_str(s, "\\scoop\\") || contains_str(s, "/scoop/") {
        Some(owned("Installed via Scoop — update with: scoop update jetemail-cli"))
    } else if contains_str(s, "/.cargo/bin/") || contains_str(s, "\\.cargo\\bin\\") {
        Some(owned("Installed via cargo — update with:\n  cargo install --git https://github.com/jetemail/jetemail-cli --force"))
    } else {
        None
    }
}

/// The published asset for a build target (operating system, architecture
/// and C library), when there is one.
pub open spec fn target_triple_spec(os: Seq<char>, arch: Seq<char>, env: Seq<char>) -> Option<Seq<char>> {
    if os == "macos"@ && arch == "aarch64"@ {
        Some("aarch64-apple-darwin"@)
    } else if os == "linux"@ && arch == "x86_64"@ && env == "gnu"@ {
        Some("x86_64-unknown-linux-gnu"@)
    } else if os == "linux"@ && arch == "aarch64"@ && env == "gnu"@ {
        Some("aarch64-unknown-linux-gnu"@)
    } else if os == "linux"@ && arch == "x86_64"@ && env == "musl"@ {
        Some("x86_64-unknown-linux-musl"@)
    } else if os == "windows"@ && arch == "x86_64"@ {
        Some("x86_64-pc-windows-msvc"@)
    } else {
        None
    }
}

/// The published asset for a build target (see `target_triple_spec`).
pub fn target_triple(os: &str, arch: &str, env: &str) -> (r: Option<&'static str>)
    ensures
        match target_triple_spec(os@, arch@, env@) {
            Some(t) => r matches Some(x) && x@ == t,
            None => r is None,
        },
{
    let eq = |a: &str, b: &str| -> (r: bool)
        ensures
            r == (a@ == b@),
        { crate::text::str_eq(a, b) };
    if eq(os, "macos") && eq(arch, "aarch64") {
        Some("aarch64-apple-darwin")
    } else if eq(os, "linux") && eq(arch, "x86_64") && eq(env, "gnu") {
        Some("x86_64-unknown-linux-gnu")
    } else if eq(os, "linux") && eq(arch, "aarch64") && eq(env, "gnu") {
        Some("aarch64-unknown-linux-gnu")
    } else if eq(os, "linux") && eq(arch, "x86_64") && eq(env, "musl") {
        Some("x86_64-unknown-linux-musl")
    } else if eq(os, "windows") && eq(arch, "x86_64") {
        Some("x86_64-pc-windows-msvc")
    } else {
        None
    }
}


// ───────────── checksums ─────────────

/// The SHA-256 digest of some bytes.
pub uninterp spec fn sha256(bytes: Seq<u8>) -> Seq<u8>;

/// The SHA-256 digest of `bytes` (wraps `sha2::Sha256::digest`); a digest is
/// 32 bytes.
#[verifier::external_body]
fn sha256_digest(bytes: &[u8]) -> (r: Vec<u8>)
    ensures
        r@ == sha256(bytes@),
        r@.len() == 32,
{
    <sha2::Sha256 as sha2::Digest>::digest(bytes).to_vec()
}

/// Bytes as lowercase hexadecimal, two digits each.
pub open spec fn hex_bytes(b: Seq<u8>) -> Seq<char>
    decreases b.len(),
{
    if b.len() == 0 {
        Seq::empty()
    } else {
        hex_bytes(b.drop_last()) + seq![hex_digit((b.last() / 16) as nat), hex_digit((b.last() % 16) as nat)]
    }
}

/// The SHA-256 digest of `bytes` in lowercase hexadecimal.
pub fn sha256_hex(bytes: &[u8]) -> (r: String)
    ensures
        r@ == hex_bytes(sha256(bytes@)),
{
    let d = sha256_digest(bytes);
    let mut out: Vec<char> = Vec::new();
    let mut i: usize = 0;
    while i < d.len()
        invariant
            i <= d@.len(),
            out@ == hex_bytes(d@.take(i as int)),
        decreases d@.len() - i,
    {
        let b = d[i];
        let hi = b / 16;
        let lo = b % 16;
        out.push(if hi < 10 { (hi + 48) as char } else { (hi + 87) as char });
        out.push(if lo < 10 { (lo + 48) as char } else { (lo + 87) as char });
        proof {
            assert(d@.take(i + 1).drop_last() =~= d@.take(i as int));
            assert(d@.take(i + 1).last() == b);
            assert(out@ =~= hex_bytes(d@.take(i + 1)));
        }
        i = i + 1;
    }
    proof {
        assert(d@.take(d@.len() as int) =~= d@);
    }
    string_of(&out)
}

/// ASCII lowercase of a character.
pub open spec fn ascii_lower_char(c: char) -> char {
    if 'A' <= c <= 'Z' { ((c as u32) + 32) as char } else { c }
}

/// Whether two texts are equal ignoring ASCII case (as
/// `str::eq_ignore_ascii_case` compares them).
pub open spec fn eq_ignore_ascii_case_spec(a: Seq<char>, b: Seq<char>) -> bool {
    a.len() == b.len() && forall|i: int| 0 <= i < a.len() ==> ascii_lower_char(#[trigger] a[i]) == ascii_lower_char(b[i])
}

fn lower_char(c: char) -> (r: char)
    ensures
        r == ascii_lower_char(c),
{
    if 'A' <= c && c <= 'Z' {
        let b: u8 = (c as u32 + 32) as u8;
        b as char
    } else {
        c
    }
}

/// Whether two texts are equal ignoring ASCII case.
pub fn eq_ignore_ascii_case(a: &str, b: &str) -> (r: bool)
    ensures
        r == eq_ignore_ascii_case_spec(a@, b@),
{
    let x = chars_of(a);
    let y = chars_of(b);
    if x.len() != y.len() {
        return false;
    }
    let mut i: usize = 0;
    while i < x.len()
        invariant
            i <= x@.len(),
            x@.len() == y@.len(),
            x@ == a@,
            y@ == b@,
            forall|j: int| 0 <= j < i ==> ascii_lower_char(#[trigger] x@[j]) == ascii_lower_char(y@[j]),
        decreases x@.len() - i,
    {
        if lower_char(x[i]) != lower_char(y[i]) {
            return false;
        }
        i = i + 1;
    }
    true
}

/// The message when a download does not match its listed checksum.
pub open spec fn mismatch_spec(asset: Seq<char>, expected: Seq<char>, actual: Seq<char>) -> Seq<char> {
    "checksum mismatch for "@ + asset + " — refusing to install\n  expected: "@ + expected + "\n  actual:   "@ + actual
}

/// Checks a download against the checksum its release lists.
pub fn verify_checksum(asset: &str, expected: &str, bytes: &[u8]) -> (r: Result<(), CliError>)
    ensures
        eq_ignore_ascii_case_spec(hex_bytes(sha256(bytes@)), expected@) ==> r is Ok,
        !eq_ignore_ascii_case_spec(hex_bytes(sha256(bytes@)), expected@) ==> (r matches Err(e)
            && e.message@ == mismatch_spec(asset@, expected@, hex_bytes(sha256(bytes@)))),
{
    let actual = sha256_hex(bytes);
    if eq_ignore_ascii_case(actual.as_str(), expected) {
        return Ok(());
    }
    let mut m = chars_of("checksum mismatch for ");
    push_str(&mut m, asset);
    push_str(&mut m, " — refusing to install\n  expected: ");
    push_str(&mut m, expected);
    push_str(&mut m, "\n  actual:   ");
    push_str(&mut m, actual.as_str());
    Err(CliError::from_chars(&m))
}

// ───────────── the checksum list ─────────────

/// The lines of a text as `str::lines` gives them: split at `\n`, a `\r`
/// before a `\n` dropped, and no empty last line after a final `\n`.
pub open spec fn lines_spec(t: Seq<char>) -> Seq<Seq<char>> {
    let p = split_on(t, '\n');
    let n: int = if t.len() > 0 && t.last() == '\n' { p.len() - 1 } else { p.len() as int };
    Seq::new(
        n as nat,
        |i: int| if i < p.len() - 1 && p[i].len() > 0 && p[i].last() == '\r' { p[i].drop_last() } else { p[i] },
    )
}

/// The lines of a text (see `lines_spec`).
pub fn text_lines(text: &str) -> (r: Vec<String>)
    ensures
        r@.map_values(|x: String| x@) == lines_spec(text@),
{
    let t = chars_of(text);
    let pieces = split_chars(&t, '\n');
    let np = pieces.len();
    let n: usize = if t.len() > 0 && t[t.len() - 1] == '\n' { np - 1 } else { np };
    let ghost ls = lines_spec(text@);
    proof {
        assert(split_on(text@, '\n').len() >= 1) by {
            crate::text::lemma_index_of(text@, '\n');
        }
        assert(ls.len() == n);
    }
    let mut out: Vec<String> = Vec::new();
    let mut i: usize = 0;
    while i < n
        invariant
            i <= n,
            n == ls.len(),
            n <= np,
            np == pieces@.len(),
            pieces@.len() == split_on(t@, '\n').len(),
            forall|k: int| 0 <= k < pieces@.len() ==> (#[trigger] pieces@[k])@ == split_on(t@, '\n')[k],
            t@ == text@,
            ls == lines_spec(text@),
            out@.len() == i,
            forall|k: int| 0 <= k < i ==> (#[trigger] out@[k])@ == ls[k],
        decreases n - i,
    {
        let p = &pieces[i];
        let line: Vec<char> = if i + 1 < np && p.len() > 0 && p[p.len() - 1] == '\r' {
            subvec(p, 0, p.len() - 1)
        } else {
            subvec(p, 0, p.len())
        };
        proof {
            assert(p@.subrange(0, p@.len() as int) =~= p@);
            if i + 1 < np && p@.len() > 0 && p@.last() == '\r' {
                assert(p@.subrange(0, p@.len() - 1) =~= p@.drop_last());
            }
            assert(line@ == ls[i as int]);
        }
        out.push(string_of(&line));
        i = i + 1;
    }
    proof {
        assert(out@.map_values(|x: String| x@) =~= ls);
    }
    out
}

/// The words of a text as `str::split_whitespace` gives them.
pub open spec fn words(s: Seq<char>) -> Seq<Seq<char>>
    decreases s.len(),
{
    if s.len() == 0 {
        Seq::empty()
    } else if is_ws(s[0]) {
        words(s.drop_first())
    } else {
        let w = word_len(s);
        proof {
            lemma_word_len(s);
        }
        seq![s.take(w)] + words(s.skip(w))
    }
}

/// The length of the run of non-white-space characters at the start of `s`.
pub open spec fn word_len(s: Seq<char>) -> int
    decreases s.len(),
{
    if s.len() == 0 || is_ws(s[0]) { 0 } else { 1 + word_len(s.drop_first()) }
}

/// The first word of `s` is the run of characters before the first white space.
pub proof fn lemma_word_len(s: Seq<char>)
    ensures
        0 <= word_len(s) <= s.len(),
        s.len() > 0 && !is_ws(s[0]) ==> word_len(s) >= 1,
        forall|i: int| 0 <= i < word_len(s) ==> !is_ws(#[trigger] s[i]),
        word_len(s) < s.len() ==> is_ws(s[word_len(s)]),
    decreases s.len(),
{
    if s.len() > 0 && !is_ws(s[0]) {
        lemma_word_len(s.drop_first());
        assert forall|i: int| 0 <= i < word_len(s) implies !is_ws(#[trigger] s[i]) by {
            if i > 0 {
                assert(s[i] == s.drop_first()[i - 1]);
            }
        }
    }
}

/// A file name without its leading `*`s (the binary-mode marker).
pub open spec fn strip_stars(s: Seq<char>) -> Seq<char>
    decreases s.len(),
{
    if s.len() > 0 && s[0] == '*' { strip_stars(s.drop_first()) } else { s }
}

/// The digest a checksum line gives for `asset`: its first word, when its
/// second word (leading `*`s dropped) is the asset's name.
pub open spec fn line_digest(line: Seq<char>, asset: Seq<char>) -> Option<Seq<char>> {
    let w = words(line);
    if w.len() >= 2 && strip_stars(w[1]) == asset { Some(w[0]) } else { None }
}

/// The digest of the first line that lists `asset`.
pub open spec fn first_digest(ls: Seq<Seq<char>>, asset: Seq<char>) -> Option<Seq<char>>
    decreases ls.len(),
{
    if ls.len() == 0 {
        None
    } else {
        match line_digest(ls[0], asset) {
            Some(d) => Some(d),
            None => first_digest(ls.drop_first(), asset),
        }
    }
}

/// The first two words of a line, when it has them.
fn first_two_words(line: &Vec<char>) -> (r: Option<(Vec<char>, Vec<char>)>)
    ensures
        match r {
            Some((a, b)) => words(line@).len() >= 2 && a@ == words(line@)[0] && b@ == words(line@)[1],
            None => words(line@).len() < 2,
        },
{
    let n = line.len();
    let mut i: usize = 0;
    let mut found: Vec<Vec<char>> = Vec::new();
    proof {
        assert(line@.skip(0) =~= line@);
    }
    while i < n && found.len() < 2
        invariant
            i <= n,
            n == line@.len(),
            found@.len() <= 2,
            forall|k: int| 0 <= k < found@.len() ==> (#[trigger] found@[k])@ == words(line@)[k],
            words(line@).len() >= found@.len(),
            words(line@) == found@.map_values(|v: Vec<char>| v@) + words(line@.skip(i as int)),
        decreases n - i,
    {
        let ghost rest = line@.skip(i as int);
        proof {
            lemma_word_len(rest);
        }
        if is_whitespace(line[i]) {
            proof {
                assert(rest.drop_first() =~= line@.skip(i + 1));
            }
            i = i + 1;
        } else {
            let mut j: usize = i;
            while j < n && !is_whitespace(line[j])
                invariant
                    i <= j <= n,
                    n == line@.len(),
                    rest == line@.skip(i as int),
                    forall|k: int| i <= k < j ==> !is_ws(#[trigger] line@[k]),
                    j - i <= word_len(rest),
                decreases n - j,
            {
                proof {
                    lemma_word_len(rest);
                    if j - i == word_len(rest) && word_len(rest) < rest.len() {
                        assert(rest[word_len(rest)] == line@[j as int]);
                    }
                }
                j = j + 1;
            }
            proof {
                lemma_word_len(rest);
                if (j - i) < word_len(rest) {
                    assert(!is_ws(rest[j - i]));
                    assert(rest[j - i] == line@[j as int]);
                }
                assert(j - i == word_len(rest));
            }
            let w = subvec(line, i, j);
            let ghost before = found@;
            found.push(w);
            proof {
                assert(rest.take(word_len(rest)) =~= w@);
                assert(rest.skip(word_len(rest)) =~= line@.skip(j as int));
                assert(words(rest) == seq![rest.take(word_len(rest))] + words(rest.skip(word_len(rest))));
                assert(found@.map_values(|v: Vec<char>| v@) =~= before.map_values(|v: Vec<char>| v@).push(w@));
                assert(words(line@) =~= found@.map_values(|v: Vec<char>| v@) + words(line@.skip(j as int)));
                assert(words(line@)[found@.len() - 1] == w@);
            }
            i = j;
        }
    }
    if found.len() < 2 {
        proof {
            assert(line@.skip(i as int) =~= Seq::<char>::empty());
            assert(words(line@) =~= found@.map_values(|v: Vec<char>| v@));
        }
        return None;
    }
    let b = found.pop().unwrap();
    let a = found.pop().unwrap();
    Some((a, b))
}

fn strip_stars_of(v: &Vec<char>) -> (r: Vec<char>)
    ensures
        r@ == strip_stars(v@),
{
    let mut i: usize = 0;
    proof {
        assert(v@.skip(0) =~= v@);
    }
    while i < v.len() && v[i] == '*'
        invariant
            i <= v@.len(),
            strip_stars(v@) == strip_stars(v@.skip(i as int)),
        decreases v@.len() - i,
    {
        proof {
            assert(v@.skip(i as int).drop_first() =~= v@.skip(i + 1));
        }
        i = i + 1;
    }
    let r = subvec(v, i, v.len());
    proof {
        assert(r@ =~= v@.skip(i as int));
    }
    r
}

/// The digest `sha256sum`-format text lists for `asset` (see `first_digest`).
pub fn parse_sha256sums(text: &str, asset: &str) -> (r: Option<String>)
    ensures
        opt_text(r) == first_digest(lines_spec(text@), asset@),
{
    let t = chars_of(text);
    let pieces = split_chars(&t, '\n');
    let np = pieces.len();
    let n: usize = if t.len() > 0 && t[t.len() - 1] == '\n' { np - 1 } else { np };
    let ghost ls = lines_spec(text@);
    let target = chars_of(asset);
    proof {
        assert(split_on(text@, '\n').len() >= 1) by {
            crate::text::lemma_index_of(text@, '\n');
        }
        assert(ls.len() == n);
        assert(ls.skip(0) =~= ls);
    }
    let mut i: usize = 0;
    while i < n
        invariant
            i <= n,
            n == ls.len(),
            n <= np,
            np == pieces@.len(),
            pieces@.len() == split_on(t@, '\n').len(),
            forall|k: int| 0 <= k < pieces@.len() ==> (#[trigger] pieces@[k])@ == split_on(t@, '\n')[k],
            t@ == text@,
            target@ == asset@,
            ls == lines_spec(text@),
            first_digest(ls, asset@) == first_digest(ls.skip(i as int), asset@),
        decreases n - i,
    {
        let p = &pieces[i];
        let line: Vec<char> = if i + 1 < np && p.len() > 0 && p[p.len() - 1] == '\r' {
            subvec(p, 0, p.len() - 1)
        } else {
            subvec(p, 0, p.len())
        };
        proof {
            assert(p@.subrange(0, p@.len() as int) =~= p@);
            if i + 1 < np && p@.len() > 0 && p@.last() == '\r' {
                assert(p@.subrange(0, p@.len() - 1) =~= p@.drop_last());
            }
            assert(line@ == ls[i as int]);
            assert(ls.skip(i as int).drop_first() =~= ls.skip(i + 1));
            assert(ls.skip(i as int)[0] == ls[i as int]);
        }
        if let Some((hex, name)) = first_two_words(&line) {
            let bare = strip_stars_of(&name);
            if crate::text::same_text(&bare, &target) {
                return Some(string_of(&hex));
            }
        }
        i = i + 1;
    }
    proof {
        assert(ls.skip(i as int) =~= Seq::<Seq<char>>::empty());
    }
    None
}


// ───────────── downloads ─────────────

/// The largest download accepted (256 MiB).
pub const MAX_DOWNLOAD_BYTES: u64 = 268435456;

/// A download refused by its announced length.
pub open spec fn too_long_spec(len: u64, url: Seq<char>) -> Seq<char> {
    "refusing to download "@ + digits_of(len as nat) + " bytes from "@ + url + " (cap "@
        + digits_of(MAX_DOWNLOAD_BYTES as nat) + ")"@
}

/// Refuses a download whose announced length is over the cap.
pub fn check_content_length(len: Option<u64>, url: &str) -> (r: Result<(), CliError>)
    ensures
        r is Ok <==> !(len matches Some(n) && n > MAX_DOWNLOAD_BYTES),
        r matches Err(e) ==> e.message@ == too_long_spec(len->0, url@),
{
    if let Some(n) = len {
        if n > MAX_DOWNLOAD_BYTES {
            let mut m = chars_of("refusing to download ");
            push_digits(&mut m, n);
            push_str(&mut m, " bytes from ");
            push_str(&mut m, url);
            push_str(&mut m, " (cap ");
            push_digits(&mut m, MAX_DOWNLOAD_BYTES);
            push_str(&mut m, ")");
            return Err(CliError::from_chars(&m));
        }
    }
    Ok(())
}

/// A download refused by what arrived.
pub open spec fn too_big_spec(url: Seq<char>) -> Seq<char> {
    "download from "@ + url + " exceeded "@ + digits_of(MAX_DOWNLOAD_BYTES as nat) + "-byte cap"@
}

/// Refuses a download body over the cap.
pub fn check_body_size(len: u64, url: &str) -> (r: Result<(), CliError>)
    ensures
        r is Ok <==> len <= MAX_DOWNLOAD_BYTES,
        r matches Err(e) ==> e.message@ == too_big_spec(url@),
{
    if len > MAX_DOWNLOAD_BYTES {
        let mut m = chars_of("download from ");
        push_str(&mut m, url);
        push_str(&mut m, " exceeded ");
        push_digits(&mut m, MAX_DOWNLOAD_BYTES);
        push_str(&mut m, "-byte cap");
        return Err(CliError::from_chars(&m));
    }
    Ok(())
}

/// The name the new binary is written under before it replaces the old one:
/// the version, the process id and a time stamp.
pub open spec fn staging_name_spec(version: Seq<char>, pid: u32, nonce: u64) -> Seq<char> {
    ".jetemail-"@ + version + "."@ + digits_of(pid as nat) + "-"@ + digits_of(nonce as nat) + ".download"@
}

/// The name the new binary is staged under (see `staging_name_spec`).
pub fn staging_name(version: &str, pid: u32, nonce: u64) -> (r: String)
    ensures
        r@ == staging_name_spec(version@, pid, nonce),
{
    let mut m = chars_of(".jetemail-");
    push_str(&mut m, version);
    push_str(&mut m, ".");
    push_digits(&mut m, pid as u64);
    push_str(&mut m, "-");
    push_digits(&mut m, nonce);
    push_str(&mut m, ".download");
    string_of(&m)
}

// ───────────── the daily reminder ─────────────

/// How long a known latest version is trusted (a day).
pub const TTL_SECS: u64 = 86400;

/// Whether the cached latest version is older than a day.
pub fn cache_stale(now: u64, checked_at: u64) -> (r: bool)
    ensures
        r == ((if now >= checked_at { now - checked_at } else { 0 }) > TTL_SECS),
{
    now.saturating_sub(checked_at) > TTL_SECS
}

/// The reminder for a newer release: nothing when the cached version is
/// empty, either version does not parse, or the cached one is not newer.
pub open spec fn outdated_spec(cached: Seq<char>, current: Seq<char>) -> Option<Seq<char>> {
    let latest = strip_v(cached);
    if latest.len() == 0 {
        None
    } else {
        match (semver_parse(current), semver_parse(latest)) {
            (Some(cv), Some(lv)) => if semver_newer(latest, current) {
                Some("\n\u{1b}[33mA new version of jetemail is available: v"@ + lv + " (you have v"@ + cv
                    + ")\u{1b}[0m\n  Run `jetemail update` to upgrade.\n"@)
            } else {
                None
            },
            _ => None,
        }
    }
}

/// The reminder shown after a command when a newer release is known (see
/// `outdated_spec`).
pub fn outdated_message(cached: &str, current: &str) -> (r: Option<String>)
    ensures
        opt_text(r) == outdated_spec(cached@, current@),
{
    let latest = trim_v(cached);
    if latest.as_str().is_empty() {
        return None;
    }
    let cv = match parse_semver(current) {
        Some(v) => v,
        None => return None,
    };
    let lv = match parse_semver(latest.as_str()) {
        Some(v) => v,
        None => return None,
    };
    if !semver_gt(latest.as_str(), current) {
        return None;
    }
    let mut m = chars_of("\n\u{1b}[33mA new version of jetemail is available: v");
    push_str(&mut m, lv.as_str());
    push_str(&mut m, " (you have v");
    push_str(&mut m, cv.as_str());
    push_str(&mut m, ")\u{1b}[0m\n  Run `jetemail update` to upgrade.\n");
    Some(string_of(&m))
}

} // verus!
