//! The self-test: the config file, the keys and whether the API answers.

use vstd::prelude::*;

use crate::commands::auth::{snippet, snippet_spec};
use crate::config::{key_source_label, mask_key, mask_key_spec, KeySource, Resolved};
use crate::text::{chars_of, opt_text, pad_right, padded, push_str, string_of};
use vstd::utf8::{encode_utf8, is_char_boundary};

verus! {

/// One check line: a check mark or a cross, the label padded to 20, the detail.
pub open spec fn check_line_spec(label: Seq<char>, ok: bool, detail: Seq<char>) -> Seq<char> {
    "  "@ + (if ok { "✓"@ } else { "✗"@ }) + "  "@ + pad_right(label, 20) + " "@ + detail
}

/// One check line (see `check_line_spec`).
pub fn print_check(label: &str, ok: bool, detail: &str) -> (r: String)
    ensures
        r@ == check_line_spec(label@, ok, detail@),
{
    let mut out = chars_of("  ");
    push_str(&mut out, if ok { "✓" } else { "✗" });
    push_str(&mut out, "  ");
    push_str(&mut out, padded(label, 20).as_str());
    push_str(&mut out, " ");
    push_str(&mut out, detail);
    string_of(&out)
}

/// A key as the self-test shows it: masked with its source, or `missing`.
pub open spec fn key_detail_spec(key: Option<Seq<char>>, src: KeySource, missing: Seq<char>) -> Seq<char> {
    match key {
        Some(k) => mask_key_spec(k) + " ("@ + key_source_label(src) + ")"@,
        None => missing,
    }
}

fn key_detail(key: &Option<String>, src: KeySource, missing: &str) -> (r: String)
    ensures
        r@ == key_detail_spec(opt_text(*key), src, missing@),
{
    match key {
        Some(k) => {
            let mut out = chars_of(mask_key(k.as_str()).as_str());
            push_str(&mut out, " (");
            push_str(&mut out, src.label());
            push_str(&mut out, ")");
            string_of(&out)
        },
        None => crate::text::owned(missing),
    }
}

/// Whether the self-test calls the API: only with a management key.
pub open spec fn api_ok(cfg: Resolved) -> bool {
    cfg.api_key_source != KeySource::Missing
}

/// The self-test's report: a title, the config file, the management key
/// (which must be there), the transactional key (informational), whether
/// the API answered when it was asked (`reach`: nothing, success, or the
/// error message, cut after 200 bytes), then the verdict; and whether
/// anything failed.
pub open spec fn doctor_spec(cfg: Resolved, path: Seq<char>, reach: Option<Result<(), Seq<char>>>) -> (Seq<Seq<char>>, bool) {
    let ok = api_ok(cfg);
    let head = seq![
        "jetemail doctor"@,
        "════════════════"@,
        check_line_spec("config file"@, true, path),
        check_line_spec("api key"@, ok, key_detail_spec(opt_text(cfg.api_key), cfg.api_key_source, "missing — run `jetemail login`"@)),
        check_line_spec(
            "transactional key"@,
            cfg.transactional_key_source != KeySource::Missing,
            key_detail_spec(opt_text(cfg.transactional_key), cfg.transactional_key_source, "not set (only needed for `email send`)"@),
        ),
    ];
    let (mid, reach_failed): (Seq<Seq<char>>, bool) = if ok {
        match reach {
            Some(Ok(())) => (seq![check_line_spec("api reachable"@, true, "GET /outbound/domains → 2xx"@)], false),
            Some(Err(m)) => (seq![check_line_spec("api reachable"@, false, snippet_spec(m))], true),
            None => (Seq::empty(), false),
        }
    } else {
        (Seq::empty(), false)
    };
    let failed = !ok || reach_failed;
    (head + mid + seq![""@, if failed { "✗ some checks failed."@ } else { "✓ everything looks good."@ }], failed)
}

/// The outcome of the API call, as text.
pub open spec fn reach_view(r: Option<Result<(), String>>) -> Option<Result<(), Seq<char>>> {
    match r {
        Some(Ok(())) => Some(Ok(())),
        Some(Err(m)) => Some(Err(m@)),
        None => None,
    }
}

/// The self-test's report (see `doctor_spec`).
pub fn run(cfg: &Resolved, path: &str, reach: &Option<Result<(), String>>) -> (r: (Vec<String>, bool))
    requires
        reach matches Some(Err(m)) ==> (encode_utf8(m@).len() <= 200 || is_char_boundary(encode_utf8(m@), 200)),
    ensures
        (r.0@.map_values(|s: String| s@), r.1) == doctor_spec(*cfg, path@, reach_view(*reach)),
{
    let ghost rv = reach_view(*reach);
    let ok = cfg.api_key_source != KeySource::Missing;
    let mut lines: Vec<String> = Vec::new();
    lines.push(crate::text::owned("jetemail doctor"));
    lines.push(crate::text::owned("════════════════"));
    lines.push(print_check("config file", true, path));
    let ad = key_detail(&cfg.api_key, cfg.api_key_source, "missing — run `jetemail login`");
    lines.push(print_check("api key", ok, ad.as_str()));
    let td = key_detail(&cfg.transactional_key, cfg.transactional_key_source, "not set (only needed for `email send`)");
    lines.push(print_check("transactional key", cfg.transactional_key_source != KeySource::Missing, td.as_str()));
    let mut failed = !ok;
    if ok {
        match reach {
            Some(Ok(())) => {
                lines.push(print_check("api reachable", true, "GET /outbound/domains → 2xx"));
            },
            Some(Err(m)) => {
                let s = snippet(m.as_str());
                lines.push(print_check("api reachable", false, s.as_str()));
                failed = true;
            },
            None => {},
        }
    }
    lines.push(crate::text::owned(""));
    if failed {
        lines.push(crate::text::owned("✗ some checks failed."));
    } else {
        lines.push(crate::text::owned("✓ everything looks good."));
    }
    proof {
        assert(lines@.map_values(|s: String| s@) =~= doctor_spec(*cfg, path@, rv).0);
    }
    (lines, failed)
}

} // verus!
