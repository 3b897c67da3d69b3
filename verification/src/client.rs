//! Requests to the JetEmail API: which key authenticates them, how a path
//! segment is escaped, how the URL is joined, and what an error reply says.

use vstd::prelude::*;

use crate::config::{missing_api_key_message, missing_transactional_key_message, Resolved};
use crate::error::CliError;
use crate::json::{Json, JsonV};
use crate::text::{chars_of, opt_text, owned, push_str, string_of, trim_spec, trim_str};
use vstd::utf8::encode_utf8;

verus! {

/// Which key authenticates a request.
#[derive(Debug, Clone, Copy, PartialEq, Eq, Structural)]
pub enum Auth {
    /// The `api_...` key, for the management API.
    Api,
    /// The `transactional_...` key, for `/email` and `/email-batch`.
    Transactional,
    /// No authentication header.
    NoKey,
}

/// The HTTP method of a request.
#[derive(Debug, Clone, Copy, PartialEq, Eq, Structural)]
pub enum HttpMethod {
    Get,
    Post,
    Put,
    Patch,
    Delete,
}

/// A value set in a request body after the `--body-json` and `--field`
/// sources: a JSON value, or `Name: Value` flags still to be read.
pub enum EntryValue {
    Value(Json),
    Headers(Vec<String>),
    /// A value set only when the member is not there yet.
    Default(Json),
}

/// How a request body is put together: the `--body-json` source, the
/// `--field` flags, then the explicit flags in order.
pub struct BodyRecipe {
    pub body_json: Option<String>,
    pub fields: Vec<String>,
    pub entries: Vec<(String, EntryValue)>,
}

/// The body of a request.
pub enum RequestBody {
    Empty,
    Fixed(Json),
    Built(BodyRecipe),
    /// CSV read from the source a value names.
    Csv(String),
}

/// A request as the commands decide it: method, path, key, query pairs and
/// body.
pub struct ApiRequest {
    pub method: HttpMethod,
    pub path: String,
    pub auth: Auth,
    pub query: Vec<(String, String)>,
    pub body: RequestBody,
}

/// The form of an explicit body value.
pub enum EntryV {
    Value(JsonV),
    Headers(Seq<Seq<char>>),
    Default(JsonV),
}

/// The form of a body.
pub enum BodyV {
    Empty,
    Fixed(JsonV),
    Built(Option<Seq<char>>, Seq<Seq<char>>, Seq<(Seq<char>, EntryV)>),
    Csv(Seq<char>),
}

pub open spec fn entry_view(e: EntryValue) -> EntryV {
    match e {
        EntryValue::Value(j) => EntryV::Value(j.view_deep()),
        EntryValue::Headers(h) => EntryV::Headers(h@.map_values(|s: String| s@)),
        EntryValue::Default(j) => EntryV::Default(j.view_deep()),
    }
}

pub open spec fn entries_view(es: Seq<(String, EntryValue)>) -> Seq<(Seq<char>, EntryV)> {
    es.map_values(|x: (String, EntryValue)| (x.0@, entry_view(x.1)))
}

pub open spec fn body_view(b: RequestBody) -> BodyV {
    match b {
        RequestBody::Empty => BodyV::Empty,
        RequestBody::Fixed(j) => BodyV::Fixed(j.view_deep()),
        RequestBody::Built(r) => BodyV::Built(
            opt_text(r.body_json),
            r.fields@.map_values(|s: String| s@),
            entries_view(r.entries@),
        ),
        RequestBody::Csv(s) => BodyV::Csv(s@),
    }
}

/// The form of a request: method, path, key, query pairs and body.
pub open spec fn request_view(r: ApiRequest) -> (HttpMethod, Seq<char>, Auth, Seq<(Seq<char>, Seq<char>)>, BodyV) {
    (r.method, r.path@, r.auth, r.query@.map_values(|q: (String, String)| (q.0@, q.1@)), body_view(r.body))
}

/// The bytes percent-encoded in a path segment: the ASCII controls, space,
/// and `"`, `#`, `%`, `/`, `<`, `>`, `?`, `\`, `^`, `` ` ``, `{`, `|`, `}`.
pub open spec fn in_segment_set(b: u8) -> bool {
    b < 0x20 || b == 0x7f || b == 0x20 || b == 0x22 || b == 0x23 || b == 0x25 || b == 0x2f || b == 0x3c
        || b == 0x3e || b == 0x3f || b == 0x5c || b == 0x5e || b == 0x60 || b == 0x7b || b == 0x7c || b == 0x7d
}

/// An uppercase hexadecimal digit.
pub open spec fn upper_hex(d: int) -> char {
    if d < 10 { ((d + 48) as u8) as char } else { ((d + 55) as u8) as char }
}

/// One byte of a path segment: kept when it is ASCII outside the set,
/// otherwise `%` and its two uppercase hexadecimal digits.
pub open spec fn enc_byte(b: u8) -> Seq<char> {
    if b < 0x80 && !in_segment_set(b) {
        seq![b as char]
    } else {
        seq!['%', upper_hex(b as int / 16), upper_hex(b as int % 16)]
    }
}

/// The bytes of a path segment, each escaped by `enc_byte`.
pub open spec fn enc_bytes(bs: Seq<u8>) -> Seq<char>
    decreases bs.len(),
{
    if bs.len() == 0 {
        Seq::empty()
    } else {
        enc_byte(bs[0]) + enc_bytes(bs.drop_first())
    }
}

fn hex_upper(d: u8) -> (c: char)
    requires
        d < 16,
    ensures
        c == upper_hex(d as int),
{
    if d < 10 {
        (d + 48) as char
    } else {
        (d + 55) as char
    }
}

fn in_set(b: u8) -> (r: bool)
    ensures
        r == in_segment_set(b),
{
    b < 0x20 || b == 0x7f || b == 0x20 || b == 0x22 || b == 0x23 || b == 0x25 || b == 0x2f || b == 0x3c
        || b == 0x3e || b == 0x3f || b == 0x5c || b == 0x5e || b == 0x60 || b == 0x7b || b == 0x7c || b == 0x7d
}

/// Percent-encodes a path segment (its UTF-8 bytes, see `enc_bytes`), so that
/// an id or name cannot add a query, a fragment, a `/` or an encoded `..`.
pub fn enc(segment: &str) -> (r: String)
    ensures
        r@ == enc_bytes(encode_utf8(segment@)),
{
    let bs = segment.as_bytes();
    let ghost all = bs@;
    let mut out: Vec<char> = Vec::new();
    let mut i: usize = 0;
    proof {
        assert(all.skip(0) =~= all);
    }
    while i < bs.len()
        invariant
            i <= bs@.len(),
            all == bs@,
            all == encode_utf8(segment@),
            enc_bytes(all) == out@ + enc_bytes(all.skip(i as int)),
        decreases bs@.len() - i,
    {
        let b = bs[i];
        proof {
            assert(all.skip(i as int).drop_first() =~= all.skip(i + 1));
            assert(all.skip(i as int)[0] == b);
        }
        let ghost before = out@;
        if b < 0x80 && !in_set(b) {
            out.push(b as char);
        } else {
            out.push('%');
            out.push(hex_upper(b / 16));
            out.push(hex_upper(b % 16));
        }
        proof {
            assert(out@ =~= before + enc_byte(b));
            assert(enc_bytes(all.skip(i as int)) == enc_byte(b) + enc_bytes(all.skip(i + 1)));
            assert(before + enc_bytes(all.skip(i as int)) =~= out@ + enc_bytes(all.skip(i + 1)));
        }
        i = i + 1;
    }
    proof {
        assert(all.skip(i as int) =~= Seq::<u8>::empty());
        assert(out@ =~= out@ + enc_bytes(all.skip(i as int)));
    }
    string_of(&out)
}

/// A character left as it is in a path segment: an ASCII letter or digit,
/// `-`, `.`, `_` or `~`.
pub open spec fn unreserved(c: char) -> bool {
    ('a' <= c <= 'z') || ('A' <= c <= 'Z') || ('0' <= c <= '9') || c == '-' || c == '.' || c == '_' || c == '~'
}

proof fn lemma_enc_byte_safe(b: u8)
    ensures
        forall|i: int| 0 <= i < enc_byte(b).len() ==> {
            let c = #[trigger] enc_byte(b)[i];
            c != '/' && c != '?' && c != '#' && c != ' ' && (c as u32) >= 0x20 && c != '\u{7f}'
        },
{
    if b < 0x80 && !in_segment_set(b) {
        assert(enc_byte(b)[0] == b as char);
    } else {
        assert(upper_hex(b as int / 16) != '/');
    }
}

/// An escaped path segment holds no `/`, `?`, `#`, space or control
/// character, whatever the segment was: it cannot add a path level, a query
/// or a fragment to the URL it is put in.
pub proof fn lemma_enc_is_one_segment(bs: Seq<u8>)
    ensures
        forall|i: int| 0 <= i < enc_bytes(bs).len() ==> {
            let c = #[trigger] enc_bytes(bs)[i];
            c != '/' && c != '?' && c != '#' && c != ' ' && (c as u32) >= 0x20 && c != '\u{7f}'
        },
    decreases bs.len(),
{
    if bs.len() > 0 {
        lemma_enc_byte_safe(bs[0]);
        lemma_enc_is_one_segment(bs.drop_first());
        let e = enc_byte(bs[0]);
        let rest = enc_bytes(bs.drop_first());
        assert forall|i: int| 0 <= i < enc_bytes(bs).len() implies {
            let c = #[trigger] enc_bytes(bs)[i];
            c != '/' && c != '?' && c != '#' && c != ' ' && (c as u32) >= 0x20 && c != '\u{7f}'
        } by {
            if i < e.len() {
                assert(enc_bytes(bs)[i] == e[i]);
            } else {
                assert(enc_bytes(bs)[i] == rest[i - e.len()]);
            }
        }
    }
}

/// A segment made only of ASCII letters, digits, `-`, `.`, `_` and `~` (a
/// UUID or a domain name) is left unchanged by the escaping.
pub proof fn lemma_enc_keeps_unreserved(s: Seq<char>)
    requires
        forall|i: int| 0 <= i < s.len() ==> unreserved(#[trigger] s[i]),
    ensures
        enc_bytes(encode_utf8(s)) == s,
    decreases s.len(),
{
    if s.len() > 0 {
        let c = s[0];
        assert(unreserved(c));
        let u = c as u32;
        assert(u < 0x80);
        assert((u & 0x7F) as u8 == u as u8) by (bit_vector)
            requires u < 0x80;
        let b = (u & 0x7F) as u8;
        assert(encode_utf8(s) == seq![b] + encode_utf8(s.drop_first()));
        assert((seq![b] + encode_utf8(s.drop_first())).drop_first() =~= encode_utf8(s.drop_first()));
        assert(b as char == c);
        assert(!in_segment_set(b));
        assert forall|i: int| 0 <= i < s.drop_first().len() implies unreserved(#[trigger] s.drop_first()[i]) by {
            assert(s.drop_first()[i] == s[i + 1]);
        }
        lemma_enc_keeps_unreserved(s.drop_first());
        assert(enc_bytes(encode_utf8(s)) =~= s);
    }
}

/// The API base without its trailing slashes.
pub open spec fn trim_trailing_slashes(s: Seq<char>) -> Seq<char>
    decreases s.len(),
{
    if s.len() > 0 && s.last() == '/' { trim_trailing_slashes(s.drop_last()) } else { s }
}

/// The URL of a request: the base without trailing slashes, then the path,
/// with a `/` between them when the path does not start with one.
pub open spec fn url_spec(base: Seq<char>, path: Seq<char>) -> Seq<char> {
    let b = trim_trailing_slashes(base);
    if path.len() > 0 && path[0] == '/' { b + path } else { b + seq!['/'] + path }
}

/// Joins the API base and a request path (see `url_spec`).
pub fn url(base: &str, path: &str) -> (r: String)
    ensures
        r@ == url_spec(base@, path@),
{
    let cs = chars_of(base);
    let mut n: usize = cs.len();
    proof {
        assert(cs@.take(n as int) =~= cs@);
    }
    while n > 0 && cs[n - 1] == '/'
        invariant
            n <= cs@.len(),
            cs@ == base@,
            trim_trailing_slashes(base@) == trim_trailing_slashes(cs@.take(n as int)),
        decreases n,
    {
        proof {
            assert(cs@.take(n as int).drop_last() =~= cs@.take(n - 1));
        }
        n = n - 1;
    }
    let mut out = crate::text::subvec(&cs, 0, n);
    let p = chars_of(path);
    if !(p.len() > 0 && p[0] == '/') {
        out.push('/');
    }
    crate::text::push_all(&mut out, &p);
    proof {
        assert(cs@.subrange(0, n as int) =~= cs@.take(n as int));
        assert(out@ =~= url_spec(base@, path@));
    }
    string_of(&out)
}

/// The `Authorization` value a request carries: `Bearer` and the key its
/// kind needs, nothing for an unauthenticated request, and the missing-key
/// error when that key was not found.
pub fn auth_header(cfg: &Resolved, auth: Auth) -> (r: Result<Option<String>, CliError>)
    ensures
        match auth {
            Auth::Api => match opt_text(cfg.api_key) {
                Some(k) => r matches Ok(Some(h)) && h@ == "Bearer "@ + k,
                None => r matches Err(e) && e.message@ == missing_api_key_message(),
            },
            Auth::Transactional => match opt_text(cfg.transactional_key) {
                Some(k) => r matches Ok(Some(h)) && h@ == "Bearer "@ + k,
                None => r matches Err(e) && e.message@ == missing_transactional_key_message(),
            },
            Auth::NoKey => r matches Ok(None),
        },
{
    match auth {
        Auth::Api => {
            let k = cfg.require_api_key()?;
            let mut out = chars_of("Bearer ");
            push_str(&mut out, k);
            Ok(Some(string_of(&out)))
        },
        Auth::Transactional => {
            let k = cfg.require_transactional_key()?;
            let mut out = chars_of("Bearer ");
            push_str(&mut out, k);
            Ok(Some(string_of(&out)))
        },
        Auth::NoKey => Ok(None),
    }
}

/// The message for an unsuccessful reply: `HTTP` and the status, then the
/// body pretty-printed when it is JSON (`pretty`), else the trimmed body
/// after `: `, or nothing more when the body is blank.
pub open spec fn api_error_spec(status: Seq<char>, body: Seq<char>, pretty: Option<Seq<char>>) -> Seq<char> {
    let t = trim_spec(body);
    if t.len() == 0 {
        "HTTP "@ + status
    } else {
        match pretty {
            Some(p) => "HTTP "@ + status + "\n"@ + p,
            None => "HTTP "@ + status + ": "@ + t,
        }
    }
}

/// The message for an unsuccessful reply (see `api_error_spec`); `pretty` is
/// the trimmed body pretty-printed, when it parses as JSON.
pub fn api_error(status: &str, body: &str, pretty: Option<String>) -> (r: CliError)
    ensures
        r.message@ == api_error_spec(status@, body@, opt_text(pretty)),
{
    let t = trim_str(body);
    let mut out = chars_of("HTTP ");
    push_str(&mut out, status);
    if !t.as_str().is_empty() {
        match pretty {
            Some(p) => {
                push_str(&mut out, "\n");
                push_str(&mut out, p.as_str());
            },
            None => {
                push_str(&mut out, ": ");
                push_str(&mut out, t.as_str());
            },
        }
    }
    CliError::from_chars(&out)
}

} // verus!
