//! Shared pieces of the commands: where an input value comes from, the
//! limits on what is read, and the checks on JSON bodies and `key=value`
//! flags.

use vstd::prelude::*;

use crate::client::{entries_view, entry_view, EntryV, EntryValue};
use crate::error::CliError;
use crate::json::{keys_distinct, insert_all, insert_member, members_view, merge, obj_insert, obj_view, Json, JsonV};
use crate::text::{chars_of, digits_of, index_of, opt_text, owned, push_digits, push_str, string_of, subvec, trim_chars, trim_spec};

verus! {

/// The most bytes read from one file or from standard input (25 MiB).
pub const MAX_INPUT_BYTES: u64 = 26214400;

/// Where a value given on the command line comes from.
pub enum InputSource {
    /// `-`: standard input.
    Stdin,
    /// `@path`: the file at `path`.
    File(String),
    /// Anything else: the text itself.
    Literal(String),
}

/// The source a value names: `-` is standard input, `@path` the file at
/// `path`, anything else the text itself.
pub open spec fn input_source_spec(spec: Seq<char>) -> (u8, Seq<char>) {
    if spec == "-"@ {
        (0, Seq::empty())
    } else if spec.len() > 0 && spec[0] == '@' {
        (1, spec.drop_first())
    } else {
        (2, spec)
    }
}

pub open spec fn source_view(s: InputSource) -> (u8, Seq<char>) {
    match s {
        InputSource::Stdin => (0, Seq::empty()),
        InputSource::File(p) => (1, p@),
        InputSource::Literal(t) => (2, t@),
    }
}

/// Where a value comes from (see `input_source_spec`).
pub fn input_source(spec: &str) -> (r: InputSource)
    ensures
        source_view(r) == input_source_spec(spec@),
{
    let cs = chars_of(spec);
    proof {
        reveal_strlit("-");
    }
    if cs.len() == 1 && cs[0] == '-' {
        proof {
            assert(spec@ =~= "-"@);
        }
        return InputSource::Stdin;
    }
    if cs.len() > 0 && cs[0] == '@' {
        let path = subvec(&cs, 1, cs.len());
        proof {
            assert(path@ =~= spec@.drop_first());
            assert(spec@ != "-"@);
        }
        return InputSource::File(string_of(&path));
    }
    proof {
        if spec@ == "-"@ {
            assert(cs@.len() == 1 && cs@[0] == '-');
        }
    }
    InputSource::Literal(owned(spec))
}

/// The message for standard input over the limit.
pub open spec fn stdin_too_large_message() -> Seq<char> {
    "stdin input exceeds the "@ + digits_of(MAX_INPUT_BYTES as nat) + "-byte limit"@
}

/// Standard input may hold at most `MAX_INPUT_BYTES` bytes.
pub fn check_stdin_size(len: u64) -> (r: Result<(), CliError>)
    ensures
        r is Ok <==> len <= MAX_INPUT_BYTES,
        r matches Err(e) ==> e.message@ == stdin_too_large_message(),
{
    if len > MAX_INPUT_BYTES {
        let mut m: Vec<char> = Vec::new();
        push_str(&mut m, "stdin input exceeds the ");
        push_digits(&mut m, MAX_INPUT_BYTES);
        push_str(&mut m, "-byte limit");
        return Err(CliError::from_chars(&m));
    }
    Ok(())
}

/// The message for a file over the limit.
pub open spec fn file_too_large_message(path: Seq<char>, len: u64) -> Seq<char> {
    path + " is "@ + digits_of(len as nat) + " bytes, exceeding the "@ + digits_of(MAX_INPUT_BYTES as nat)
        + "-byte input limit"@
}

/// A regular file read as input may hold at most `MAX_INPUT_BYTES` bytes;
/// anything that is not a regular file is not checked here.
pub fn check_file_size(path: &str, is_file: bool, len: u64) -> (r: Result<(), CliError>)
    ensures
        r is Ok <==> !(is_file && len > MAX_INPUT_BYTES),
        r matches Err(e) ==> e.message@ == file_too_large_message(path@, len),
{
    if is_file && len > MAX_INPUT_BYTES {
        let mut m = chars_of(path);
        push_str(&mut m, " is ");
        push_digits(&mut m, len);
        push_str(&mut m, " bytes, exceeding the ");
        push_digits(&mut m, MAX_INPUT_BYTES);
        push_str(&mut m, "-byte input limit");
        return Err(CliError::from_chars(&m));
    }
    Ok(())
}

/// The message for a `--body-json` that is not an object.
pub open spec fn body_not_object_message() -> Seq<char> {
    "--body-json must be a JSON object"@
}

/// The members of a parsed `--body-json` value, which must be an object.
pub fn body_json_object(v: Json) -> (r: Result<Vec<(String, Json)>, CliError>)
    ensures
        match v {
            Json::Object(m) => r matches Ok(x) && x@ == m@,
            _ => r matches Err(e) && e.message@ == body_not_object_message(),
        },
{
    match v {
        Json::Object(m) => Ok(m),
        _ => Err(CliError::new("--body-json must be a JSON object")),
    }
}

/// A `key=value` flag cut at its first `=`.
pub open spec fn field_pair_spec(p: Seq<char>) -> Option<(Seq<char>, Seq<char>)> {
    match index_of(p, '=') {
        Some(i) => Some((p.take(i), p.skip(i + 1))),
        None => None,
    }
}

/// The message for a `--field` without `=`.
pub open spec fn field_error_message(p: Seq<char>) -> Seq<char> {
    "--field expects key=value, got `"@ + p + "`"@
}

/// Whether every flag has an `=`.
pub open spec fn all_pairs(ps: Seq<Seq<char>>) -> bool {
    forall|i: int| 0 <= i < ps.len() ==> (#[trigger] field_pair_spec(ps[i])) is Some
}

/// The first flag without an `=`.
pub open spec fn first_bad_pair(ps: Seq<Seq<char>>) -> int
    decreases ps.len(),
{
    if ps.len() == 0 {
        0
    } else if field_pair_spec(ps[0]) is None {
        0
    } else {
        1 + first_bad_pair(ps.drop_first())
    }
}

proof fn lemma_first_bad_pair(ps: Seq<Seq<char>>)
    ensures
        0 <= first_bad_pair(ps) <= ps.len(),
        first_bad_pair(ps) < ps.len() ==> field_pair_spec(ps[first_bad_pair(ps)]) is None,
        forall|j: int| 0 <= j < first_bad_pair(ps) ==> (#[trigger] field_pair_spec(ps[j])) is Some,
        all_pairs(ps) <==> first_bad_pair(ps) == ps.len(),
    decreases ps.len(),
{
    if ps.len() > 0 && field_pair_spec(ps[0]) is Some {
        lemma_first_bad_pair(ps.drop_first());
        assert forall|j: int| 0 < j < ps.len() implies ps.drop_first()[j - 1] == ps[j] by {}
        if first_bad_pair(ps.drop_first()) == ps.drop_first().len() {
            assert forall|j: int| 0 <= j < ps.len() implies (#[trigger] field_pair_spec(ps[j])) is Some by {
                if j > 0 {
                    assert(ps.drop_first()[j - 1] == ps[j]);
                }
            }
        } else {
            let b = 1 + first_bad_pair(ps.drop_first());
            assert(ps[b] == ps.drop_first()[b - 1]);
        }
    }
}

/// Cuts one `key=value` flag at its first `=`.
pub fn split_field_pair(p: &str) -> (r: Result<(String, String), CliError>)
    ensures
        match field_pair_spec(p@) {
            Some((k, v)) => r matches Ok((a, b)) && a@ == k && b@ == v,
            None => r matches Err(e) && e.message@ == field_error_message(p@),
        },
{
    let cs = chars_of(p);
    match crate::text::find_char(&cs, '=') {
        Some(i) => {
            proof {
                crate::text::lemma_index_of(cs@, '=');
                assert(i < cs@.len());
            }
            let k = subvec(&cs, 0, i);
            let v = subvec(&cs, i + 1, cs.len());
            proof {
                assert(k@ =~= p@.take(i as int));
                assert(v@ =~= p@.skip(i + 1));
            }
            Ok((string_of(&k), string_of(&v)))
        },
        None => {
            let mut m: Vec<char> = Vec::new();
            push_str(&mut m, "--field expects key=value, got `");
            push_str(&mut m, p);
            push_str(&mut m, "`");
            Err(CliError::from_chars(&m))
        },
    }
}

/// The texts of a list of strings.
pub open spec fn texts_of(v: Seq<String>) -> Seq<Seq<char>> {
    v.map_values(|s: String| s@)
}

/// Cuts every `--field key=value` flag at its first `=`; the first flag
/// without one is an error. Each value is then read as JSON by the caller,
/// falling back to the text itself.
pub fn parse_field_pairs(pairs: &Vec<String>) -> (r: Result<Vec<(String, String)>, CliError>)
    ensures
        all_pairs(texts_of(pairs@)) ==> (r matches Ok(out) && out@.len() == pairs@.len() && forall|i: int|
            0 <= i < out@.len() ==> field_pair_spec(pairs@[i]@) == Some(((#[trigger] out@[i]).0@, out@[i].1@))),
        !all_pairs(texts_of(pairs@)) ==> (r matches Err(e) && e.message@ == field_error_message(
            pairs@[first_bad_pair(texts_of(pairs@))]@,
        )),
{
    let ghost ps = texts_of(pairs@);
    proof {
        lemma_first_bad_pair(ps);
    }
    let mut out: Vec<(String, String)> = Vec::new();
    let mut i: usize = 0;
    while i < pairs.len()
        invariant
            i <= pairs@.len(),
            ps == texts_of(pairs@),
            i <= first_bad_pair(ps),
            0 <= first_bad_pair(ps) <= ps.len(),
            first_bad_pair(ps) < ps.len() ==> field_pair_spec(ps[first_bad_pair(ps)]) is None,
            forall|j: int| 0 <= j < first_bad_pair(ps) ==> (#[trigger] field_pair_spec(ps[j])) is Some,
            all_pairs(ps) <==> first_bad_pair(ps) == ps.len(),
            out@.len() == i,
            forall|j: int| 0 <= j < i ==> field_pair_spec(pairs@[j]@) == Some(((#[trigger] out@[j]).0@, out@[j].1@)),
        decreases pairs@.len() - i,
    {
        assert(ps[i as int] == pairs@[i as int]@);
        match split_field_pair(pairs[i].as_str()) {
            Ok(kv) => {
                out.push(kv);
            },
            Err(e) => {
                return Err(e);
            },
        }
        i = i + 1;
    }
    Ok(out)
}

/// The object of `--field` flags whose values have been read: each key set
/// in turn, a later one winning.
pub fn fields_object(pairs: Vec<(String, Json)>) -> (r: Vec<(String, Json)>)
    ensures
        obj_view(r@) == insert_all(Map::empty(), pairs@),
        keys_distinct(r@),
{
    let mut out: Vec<(String, Json)> = Vec::new();
    proof {
        assert(obj_view(out@) == Map::<Seq<char>, JsonV>::empty());
    }
    merge(&mut out, pairs);
    out
}


/// The message for a `--header` without `:`.
pub open spec fn header_error_message(h: Seq<char>) -> Seq<char> {
    "--header expects `Name: Value`, got `"@ + h + "`"@
}

/// A `Name: Value` header cut at its first `:`, both sides trimmed.
pub open spec fn header_entry(h: Seq<char>) -> Option<(Seq<char>, Seq<char>)> {
    match index_of(h, ':') {
        Some(i) => Some((trim_spec(h.take(i)), trim_spec(h.skip(i + 1)))),
        None => None,
    }
}

/// Whether every header has a `:`.
pub open spec fn all_headers(hs: Seq<Seq<char>>) -> bool {
    forall|i: int| 0 <= i < hs.len() ==> (#[trigger] header_entry(hs[i])) is Some
}

/// The first header without a `:`.
pub open spec fn first_bad_header(hs: Seq<Seq<char>>) -> int
    decreases hs.len(),
{
    if hs.len() == 0 {
        0
    } else if header_entry(hs[0]) is None {
        0
    } else {
        1 + first_bad_header(hs.drop_first())
    }
}

/// The headers object: each name set to its value in turn, a later one
/// winning.
pub open spec fn headers_map(hs: Seq<Seq<char>>) -> Map<Seq<char>, JsonV>
    decreases hs.len(),
{
    if hs.len() == 0 {
        Map::empty()
    } else {
        let e = header_entry(hs.last())->0;
        headers_map(hs.drop_last()).insert(e.0, JsonV::Str(e.1))
    }
}

proof fn lemma_first_bad_header(hs: Seq<Seq<char>>)
    ensures
        0 <= first_bad_header(hs) <= hs.len(),
        first_bad_header(hs) < hs.len() ==> header_entry(hs[first_bad_header(hs)]) is None,
        forall|j: int| 0 <= j < first_bad_header(hs) ==> (#[trigger] header_entry(hs[j])) is Some,
        all_headers(hs) <==> first_bad_header(hs) == hs.len(),
    decreases hs.len(),
{
    if hs.len() > 0 && header_entry(hs[0]) is Some {
        lemma_first_bad_header(hs.drop_first());
        if first_bad_header(hs.drop_first()) == hs.drop_first().len() {
            assert forall|j: int| 0 <= j < hs.len() implies (#[trigger] header_entry(hs[j])) is Some by {
                if j > 0 {
                    assert(hs.drop_first()[j - 1] == hs[j]);
                }
            }
        } else {
            let b = 1 + first_bad_header(hs.drop_first());
            assert(hs[b] == hs.drop_first()[b - 1]);
        }
        assert forall|j: int| 0 <= j < first_bad_header(hs) implies (#[trigger] header_entry(hs[j])) is Some by {
            if j > 0 {
                assert(hs.drop_first()[j - 1] == hs[j]);
            }
        }
    }
}

/// The message for a `--webhook-header` without `:`.
pub open spec fn webhook_header_error_message() -> Seq<char> {
    "--webhook-header expects `Name: Value`"@
}

/// The headers object as members: each name set to its value in turn, the
/// first member under a name taking a later value.
pub open spec fn headers_members(hs: Seq<Seq<char>>) -> Seq<(Seq<char>, JsonV)>
    decreases hs.len(),
{
    if hs.len() == 0 {
        Seq::empty()
    } else {
        let e = header_entry(hs.last())->0;
        insert_member(headers_members(hs.drop_last()), e.0, JsonV::Str(e.1))
    }
}

/// Reads `Name: Value` flags into an object, both sides trimmed; the first
/// one without a `:` is an error, whose message quotes the flag for `--header`
/// (`quote`) and is fixed for `--webhook-header`.
pub fn parse_name_values(headers: &Vec<String>, quote: bool) -> (r: Result<Vec<(String, Json)>, CliError>)
    ensures
        all_headers(texts_of(headers@)) ==> (r matches Ok(m) && obj_view(m@) == headers_map(texts_of(headers@))
            && members_view(m@) == headers_members(texts_of(headers@)) && keys_distinct(m@)),
        !all_headers(texts_of(headers@)) ==> (r matches Err(e) && e.message@ == if quote {
            header_error_message(headers@[first_bad_header(texts_of(headers@))]@)
        } else {
            webhook_header_error_message()
        }),
{
    let ghost hs = texts_of(headers@);
    proof {
        lemma_first_bad_header(hs);
    }
    let mut out: Vec<(String, Json)> = Vec::new();
    let mut i: usize = 0;
    proof {
        assert(hs.take(0) =~= Seq::<Seq<char>>::empty());
        assert(obj_view(out@) =~= headers_map(hs.take(0)));
        assert(members_view(out@) =~= headers_members(hs.take(0)));
    }
    while i < headers.len()
        invariant
            i <= headers@.len(),
            hs == texts_of(headers@),
            i <= first_bad_header(hs),
            0 <= first_bad_header(hs) <= hs.len(),
            first_bad_header(hs) < hs.len() ==> header_entry(hs[first_bad_header(hs)]) is None,
            forall|j: int| 0 <= j < first_bad_header(hs) ==> (#[trigger] header_entry(hs[j])) is Some,
            all_headers(hs) <==> first_bad_header(hs) == hs.len(),
            obj_view(out@) == headers_map(hs.take(i as int)),
            members_view(out@) == headers_members(hs.take(i as int)),
            keys_distinct(out@),
        decreases headers@.len() - i,
    {
        let h = chars_of(headers[i].as_str());
        assert(hs[i as int] == headers@[i as int]@);
        match crate::text::find_char(&h, ':') {
            Some(c) => {
                proof {
                    crate::text::lemma_index_of(h@, ':');
                    assert(c < h@.len());
                }
                let name = trim_chars(&subvec(&h, 0, c));
                let value = trim_chars(&subvec(&h, c + 1, h.len()));
                proof {
                    assert(h@.subrange(0, c as int) =~= h@.take(c as int));
                    assert(h@.subrange(c + 1, h@.len() as int) =~= h@.skip(c + 1));
                    assert(hs.take(i + 1).drop_last() =~= hs.take(i as int));
                    assert(hs.take(i + 1).last() == hs[i as int]);
                }
                obj_insert(&mut out, string_of(&name), Json::Str(string_of(&value)));
            },
            None => {
                proof {
                    assert(header_entry(hs[i as int]) is None);
                    if (i as int) < first_bad_header(hs) {
                        assert(header_entry(hs[i as int]) is Some);
                    }
                    assert(i as int == first_bad_header(hs));
                }
                if !quote {
                    return Err(CliError::new("--webhook-header expects `Name: Value`"));
                }
                let mut m: Vec<char> = Vec::new();
                push_str(&mut m, "--header expects `Name: Value`, got `");
                push_str(&mut m, headers[i].as_str());
                push_str(&mut m, "`");
                return Err(CliError::from_chars(&m));
            },
        }
        i = i + 1;
    }
    proof {
        assert(hs.take(hs.len() as int) =~= hs);
    }
    Ok(out)
}



/// The explicit values set in order over `m`; nothing when a `Name: Value`
/// list has a flag without `:`.
pub open spec fn apply_entries(m: Map<Seq<char>, JsonV>, es: Seq<(Seq<char>, EntryV)>) -> Option<Map<Seq<char>, JsonV>>
    decreases es.len(),
{
    if es.len() == 0 {
        Some(m)
    } else {
        match es[0].1 {
            EntryV::Value(v) => apply_entries(m.insert(es[0].0, v), es.drop_first()),
            EntryV::Headers(hs) => if all_headers(hs) {
                apply_entries(m.insert(es[0].0, JsonV::Object(headers_members(hs))), es.drop_first())
            } else {
                None
            },
            EntryV::Default(v) => if m.contains_key(es[0].0) {
                apply_entries(m, es.drop_first())
            } else {
                apply_entries(m.insert(es[0].0, v), es.drop_first())
            },
        }
    }
}

/// A request body: the `--body-json` object, then the `--field` values, then
/// the explicit values, each later one winning (a default only where nothing
/// was set).
pub open spec fn recipe_body_spec(
    base: Option<Seq<(String, Json)>>,
    fields: Seq<(String, Json)>,
    es: Seq<(Seq<char>, EntryV)>,
) -> Option<Map<Seq<char>, JsonV>> {
    let m0 = match base {
        Some(b) => insert_all(Map::empty(), b),
        None => Map::empty(),
    };
    apply_entries(insert_all(m0, fields), es)
}

pub open spec fn opt_members(o: Option<Vec<(String, Json)>>) -> Option<Seq<(String, Json)>> {
    match o {
        Some(b) => Some(b@),
        None => None,
    }
}

/// Puts a request body together (see `recipe_body_spec`) from the
/// `--body-json` object and the `--field` values already read.
pub fn finish_body(
    base: Option<Vec<(String, Json)>>,
    fields: Vec<(String, Json)>,
    entries: Vec<(String, EntryValue)>,
) -> (r: Result<Vec<(String, Json)>, CliError>)
    ensures
        match recipe_body_spec(opt_members(base), fields@, entries_view(entries@)) {
            Some(m) => r matches Ok(b) && obj_view(b@) == m,
            None => r matches Err(e) && e.message@ == webhook_header_error_message(),
        },
        r matches Ok(b) ==> keys_distinct(b@),
{
    let ghost spec = recipe_body_spec(opt_members(base), fields@, entries_view(entries@));
    let mut body: Vec<(String, Json)> = Vec::new();
    proof {
        assert(obj_view(body@) == Map::<Seq<char>, JsonV>::empty());
    }
    if let Some(b) = base {
        merge(&mut body, b);
    }
    merge(&mut body, fields);
    let ghost es = entries_view(entries@);
    let mut todo = entries;
    let ghost mut taken: int = 0;
    proof {
        assert(es.skip(0) =~= es);
    }
    while todo.len() > 0
        invariant
            0 <= taken <= es.len(),
            taken + todo@.len() == es.len(),
            entries_view(todo@) == es.skip(taken),
            spec == recipe_body_spec(opt_members(base), fields@, entries_view(entries@)),
            spec == apply_entries(obj_view(body@), es.skip(taken)),
            keys_distinct(body@),
        decreases todo@.len(),
    {
        let ghost before = todo@;
        let (k, v) = todo.remove(0);
        proof {
            assert(entries_view(todo@) =~= entries_view(before).drop_first());
            assert(es.skip(taken).drop_first() =~= es.skip(taken + 1));
            assert(es.skip(taken)[0] == (k@, entry_view(v)));
        }
        match v {
            EntryValue::Value(j) => {
                obj_insert(&mut body, k, j);
            },
            EntryValue::Default(j) => {
                proof {
                    crate::json::lemma_obj_view_has(body@, k@);
                }
                if crate::json::obj_get(&body, k.as_str()).is_none() {
                    obj_insert(&mut body, k, j);
                }
            },
            EntryValue::Headers(hs) => {
                let h = match parse_name_values(&hs, false) {
                    Ok(h) => h,
                    Err(e) => {
                        proof {
                            assert(hs@.map_values(|s: String| s@) == texts_of(hs@));
                            assert(!all_headers(texts_of(hs@)));
                            let rest = es.skip(taken);
                            assert(rest.len() > 0);
                            assert(rest[0].1 == EntryV::Headers(texts_of(hs@)));
                            assert(apply_entries(obj_view(body@), rest) is None);
                            assert(spec is None);
                            assert(e.message@ == webhook_header_error_message());
                        }
                        return Err(e);
                    },
                };
                let ghost hm = h@;
                let o = Json::Object(h);
                proof {
                    assert(hs@.map_values(|s: String| s@) == texts_of(hs@));
                    if let JsonV::Object(x) = o.view_deep() {
                        assert(x =~= members_view(hm));
                    }
                }
                obj_insert(&mut body, k, o);
            },
        }
        proof {
            taken = taken + 1;
        }
    }
    proof {
        assert(es.skip(taken) =~= Seq::<(Seq<char>, EntryV)>::empty());
    }
    Ok(body)
}


// ───────────── attachments ─────────────

/// The MIME type `mime_guess` gives for a path by its extension
/// (`application/octet-stream` when it knows none), without parameters.
pub uninterp spec fn mime_essence(path: Seq<char>) -> Seq<char>;

/// The MIME type of a file by its extension (wraps `mime_guess::from_path`,
/// `first_or_octet_stream` and `essence_str`).
#[verifier::external_body]
fn mime_for_path(path: &str) -> (r: String)
    ensures
        r@ == mime_essence(path@),
{
    mime_guess::from_path(path).first_or_octet_stream().essence_str().to_string()
}

/// The standard Base64 encoding (with padding) of some bytes.
pub uninterp spec fn base64_standard(bytes: Seq<u8>) -> Seq<char>;

/// Base64-encodes bytes (wraps `base64`'s `STANDARD` engine `encode`).
#[verifier::external_body]
fn base64_encode(bytes: &[u8]) -> (r: String)
    ensures
        r@ == base64_standard(bytes@),
{
    <base64::engine::GeneralPurpose as base64::Engine>::encode(&base64::engine::general_purpose::STANDARD, bytes)
}

/// The last component of a path, if it has one (what `Path::file_name`
/// gives, read as text).
pub uninterp spec fn path_file_name(path: Seq<char>) -> Option<Seq<char>>;

/// The last component of a path (wraps `std::path::Path::file_name`, read
/// with `to_string_lossy`).
#[verifier::external_body]
fn file_name_of(path: &str) -> (r: Option<String>)
    ensures
        opt_text(r) == path_file_name(path@),
{
    std::path::Path::new(path).file_name().map(|n| n.to_string_lossy().into_owned())
}

/// The attachment object for a file: its name (the path's last component,
/// else the path), its MIME type by extension, its bytes in Base64, and the
/// encoding's name.
pub open spec fn attachment_spec(path: Seq<char>, bytes: Seq<u8>) -> JsonV {
    JsonV::Object(seq![
        ("filename"@, JsonV::Str(match path_file_name(path) {
            Some(n) => n,
            None => path,
        })),
        ("content_type"@, JsonV::Str(mime_essence(path))),
        ("content"@, JsonV::Str(base64_standard(bytes))),
        ("encoding"@, JsonV::Str("base64"@)),
    ])
}

/// The attachment object for a file read from `path` (see `attachment_spec`).
pub fn attachment_object(path: &str, bytes: &[u8]) -> (r: Json)
    ensures
        r.view_deep() == attachment_spec(path@, bytes@),
{
    let name = match file_name_of(path) {
        Some(n) => n,
        None => owned(path),
    };
    let mut m: Vec<(String, Json)> = Vec::new();
    m.push((owned("filename"), Json::Str(name)));
    m.push((owned("content_type"), Json::Str(mime_for_path(path))));
    m.push((owned("content"), Json::Str(base64_encode(bytes))));
    m.push((owned("encoding"), Json::Str(owned("base64"))));
    let ghost mv = members_view(m@);
    let r = Json::Object(m);
    proof {
        if let JsonV::Object(x) = r.view_deep() {
            assert(x =~= mv);
            assert(mv =~= match attachment_spec(path@, bytes@) {
                JsonV::Object(y) => y,
                _ => Seq::empty(),
            });
        }
    }
    r
}

/// The message for an attachment that is neither `@path` nor JSON.
pub open spec fn attachment_error_spec(spec: Seq<char>) -> Seq<char> {
    "attachment must be `@path` or JSON object, got `"@ + spec + "`"@
}

/// The error for an attachment that is neither `@path` nor JSON.
pub fn attachment_error(spec: &str) -> (e: CliError)
    ensures
        e.message@ == attachment_error_spec(spec@),
{
    let mut m = chars_of("attachment must be `@path` or JSON object, got `");
    push_str(&mut m, spec);
    push_str(&mut m, "`");
    CliError::from_chars(&m)
}


/// No entry after position `i` sets key `k`.
pub open spec fn last_entry_for(es: Seq<(Seq<char>, EntryV)>, i: int, k: Seq<char>) -> bool {
    forall|j: int| i < j < es.len() ==> (#[trigger] es[j]).0 != k
}

/// The explicit values win over everything before them: a value set for a
/// key that no later explicit value sets is what the body holds under that
/// key, whatever `--body-json` and `--field` held.
pub proof fn lemma_explicit_wins(m: Map<Seq<char>, JsonV>, es: Seq<(Seq<char>, EntryV)>, i: int, v: JsonV)
    requires
        0 <= i < es.len(),
        es[i].1 == EntryV::Value(v),
        last_entry_for(es, i, es[i].0),
        apply_entries(m, es) is Some,
    ensures
        apply_entries(m, es)->0.contains_key(es[i].0),
        apply_entries(m, es)->0[es[i].0] == v,
    decreases es.len(),
{
    let k = es[i].0;
    if i == 0 {
        let m1 = m.insert(k, v);
        lemma_untouched(m1, es.drop_first(), k);
    } else {
        assert(last_entry_for(es.drop_first(), i - 1, k)) by {
            assert forall|j: int| i - 1 < j < es.drop_first().len() implies (#[trigger] es.drop_first()[j]).0 != k by {
                assert(es.drop_first()[j] == es[j + 1]);
            }
        }
        let m1 = match es[0].1 {
            EntryV::Value(w) => m.insert(es[0].0, w),
            EntryV::Headers(hs) => m.insert(es[0].0, JsonV::Object(headers_members(hs))),
            EntryV::Default(w) => if m.contains_key(es[0].0) { m } else { m.insert(es[0].0, w) },
        };
        assert(apply_entries(m, es) == apply_entries(m1, es.drop_first()));
        lemma_explicit_wins(m1, es.drop_first(), i - 1, v);
    }
}

/// Setting plain values always gives a body.
pub proof fn lemma_values_apply(m: Map<Seq<char>, JsonV>, es: Seq<(Seq<char>, EntryV)>)
    requires
        forall|j: int| 0 <= j < es.len() ==> (#[trigger] es[j]).1 is Value,
    ensures
        apply_entries(m, es) is Some,
    decreases es.len(),
{
    if es.len() > 0 {
        assert(es[0].1 is Value);
        assert forall|j: int| 0 <= j < es.drop_first().len() implies (#[trigger] es.drop_first()[j]).1 is Value by {
            assert(es.drop_first()[j] == es[j + 1]);
        }
        lemma_values_apply(m.insert(es[0].0, es[0].1->Value_0), es.drop_first());
    }
}

/// Explicit values for other keys leave a key as it was.
pub proof fn lemma_untouched(m: Map<Seq<char>, JsonV>, es: Seq<(Seq<char>, EntryV)>, k: Seq<char>)
    requires
        forall|j: int| 0 <= j < es.len() ==> (#[trigger] es[j]).0 != k,
        apply_entries(m, es) is Some,
    ensures
        apply_entries(m, es)->0.contains_key(k) == m.contains_key(k),
        m.contains_key(k) ==> apply_entries(m, es)->0[k] == m[k],
    decreases es.len(),
{
    if es.len() > 0 {
        assert(es[0].0 != k);
        let m1 = match es[0].1 {
            EntryV::Value(w) => m.insert(es[0].0, w),
            EntryV::Headers(hs) => m.insert(es[0].0, JsonV::Object(headers_members(hs))),
            EntryV::Default(w) => if m.contains_key(es[0].0) { m } else { m.insert(es[0].0, w) },
        };
        assert(apply_entries(m, es) == apply_entries(m1, es.drop_first()));
        assert forall|j: int| 0 <= j < es.drop_first().len() implies (#[trigger] es.drop_first()[j]).0 != k by {
            assert(es.drop_first()[j] == es[j + 1]);
        }
        lemma_untouched(m1, es.drop_first(), k);
    }
}


/// A key's last member in `s` is what inserting `s` in order leaves.
pub proof fn lemma_insert_all_last(m: Map<Seq<char>, JsonV>, s: Seq<(String, Json)>, i: int)
    requires
        0 <= i < s.len(),
        forall|j: int| i < j < s.len() ==> (#[trigger] s[j]).0@ != s[i].0@,
    ensures
        insert_all(m, s).contains_key(s[i].0@),
        insert_all(m, s)[s[i].0@] == s[i].1.view_deep(),
    decreases s.len(),
{
    let k = s[i].0@;
    let m1 = m.insert(s[0].0@, s[0].1.view_deep());
    if i == 0 {
        lemma_insert_all_other(m1, s.drop_first(), k);
    } else {
        assert forall|j: int| i - 1 < j < s.drop_first().len() implies (#[trigger] s.drop_first()[j]).0@ != s.drop_first()[i - 1].0@ by {
            assert(s.drop_first()[j] == s[j + 1]);
        }
        lemma_insert_all_last(m1, s.drop_first(), i - 1);
    }
}

/// Inserting members under other keys leaves a key as it was.
pub proof fn lemma_insert_all_other(m: Map<Seq<char>, JsonV>, s: Seq<(String, Json)>, k: Seq<char>)
    requires
        forall|j: int| 0 <= j < s.len() ==> (#[trigger] s[j]).0@ != k,
    ensures
        insert_all(m, s).contains_key(k) == m.contains_key(k),
        m.contains_key(k) ==> insert_all(m, s)[k] == m[k],
    decreases s.len(),
{
    if s.len() > 0 {
        assert(s[0].0@ != k);
        assert forall|j: int| 0 <= j < s.drop_first().len() implies (#[trigger] s.drop_first()[j]).0@ != k by {
            assert(s.drop_first()[j] == s[j + 1]);
        }
        lemma_insert_all_other(m.insert(s[0].0@, s[0].1.view_deep()), s.drop_first(), k);
    }
}

/// `--field` wins over `--body-json`: a key's last `--field` value is what
/// the body holds when no explicit flag sets that key.
pub proof fn lemma_fields_win(
    base: Option<Seq<(String, Json)>>,
    fields: Seq<(String, Json)>,
    es: Seq<(Seq<char>, EntryV)>,
    i: int,
)
    requires
        0 <= i < fields.len(),
        forall|j: int| i < j < fields.len() ==> (#[trigger] fields[j]).0@ != fields[i].0@,
        forall|j: int| 0 <= j < es.len() ==> (#[trigger] es[j]).0 != fields[i].0@,
        recipe_body_spec(base, fields, es) is Some,
    ensures
        recipe_body_spec(base, fields, es)->0[fields[i].0@] == fields[i].1.view_deep(),
{
    let m0 = match base {
        Some(b) => insert_all(Map::empty(), b),
        None => Map::empty(),
    };
    lemma_insert_all_last(m0, fields, i);
    lemma_untouched(insert_all(m0, fields), es, fields[i].0@);
}

} // verus!
