//! Output shaping: output options, finding the rows of a list response, and
//! rendering table cells.

use vstd::prelude::*;

use crate::json::{obj_get, obj_get_spec, Json, JsonV};
use crate::text::{chars_of, int_chars, int_text, owned, push_all, push_digits, push_str, split_chars, split_on, str_eq, string_of, digits_of};
use crate::tui::logs::{truncate_spec};

verus! {

/// The user's output flags.
#[derive(Debug, Clone, Copy, PartialEq, Eq, Structural)]
pub struct OutputOpts {
    /// JSON output was asked for.
    pub json: bool,
    /// Compact (single-line) JSON.
    pub raw: bool,
    /// No spinners or chatter.
    pub quiet: bool,
}

impl OutputOpts {
    /// Whether to render tables and friendly text (rather than JSON), given
    /// whether standard output is a terminal.
    pub fn is_tty_view(&self, stdout_is_terminal: bool) -> (r: bool)
        ensures
            r == (!self.json && stdout_is_terminal),
    {
        if self.json {
            return false;
        }
        stdout_is_terminal
    }

    /// Whether to show spinners and status lines, given whether standard
    /// error is a terminal.
    pub fn show_chrome(&self, stderr_is_terminal: bool) -> (r: bool)
        ensures
            r == (!self.quiet && stderr_is_terminal),
    {
        !self.quiet && stderr_is_terminal
    }
}

/// `"true"` or `"false"`.
pub open spec fn bool_text(b: bool) -> Seq<char> {
    if b { "true"@ } else { "false"@ }
}

/// A scalar as a table shows it; `compact` is the compact JSON text of the
/// value, used for arrays and objects.
pub open spec fn render_scalar_spec(v: Json, compact: Seq<char>) -> Seq<char> {
    match v {
        Json::Null => "—"@,
        Json::Bool(b) => bool_text(b),
        Json::Number(n) => n.text@,
        Json::Str(s) => s@,
        Json::Array(_) => compact,
        Json::Object(_) => compact,
    }
}

/// Renders a value for a table cell (`compact`: its compact JSON text).
pub fn render_scalar(v: &Json, compact: &str) -> (r: String)
    ensures
        r@ == render_scalar_spec(*v, compact@),
{
    match v {
        Json::Null => owned("—"),
        Json::Bool(b) => if *b { owned("true") } else { owned("false") },
        Json::Number(n) => crate::text::copy_string(&n.text),
        Json::Str(s) => crate::text::copy_string(s),
        Json::Array(_) | Json::Object(_) => owned(compact),
    }
}

/// A value cut to `max` characters; null shows as `—`.
pub open spec fn truncate_value_spec(v: Json, max: nat, compact: Seq<char>) -> Seq<char> {
    match v {
        Json::Null => "—"@,
        Json::Str(s) => truncate_spec(s@, max),
        _ => truncate_spec(render_scalar_spec(v, compact), max),
    }
}

/// Renders a value cut to `max` characters (`…` marking the cut), with `—` for null.
pub fn truncate_value(v: &Json, max: usize, compact: &str) -> (r: String)
    ensures
        r@ == truncate_value_spec(*v, max as nat, compact@),
{
    let s = match v {
        Json::Str(s) => crate::text::copy_string(s),
        Json::Null => {
            return owned("—");
        },
        other => render_scalar(other, compact),
    };
    crate::tui::logs::truncate(s.as_str(), max)
}

/// A quota: `0` or null means unlimited; otherwise the value cut to 12 characters.
pub open spec fn quota_label_spec(v: Json, compact: Seq<char>) -> Seq<char> {
    match v {
        Json::Number(n) => if n.as_i64 == Some(0i64) { "unlimited"@ } else { truncate_value_spec(v, 12, compact) },
        Json::Null => "unlimited"@,
        _ => truncate_value_spec(v, 12, compact),
    }
}

/// Renders a quota value.
pub fn quota_label(v: &Json, compact: &str) -> (r: String)
    ensures
        r@ == quota_label_spec(*v, compact@),
{
    match v {
        Json::Number(n) => {
            if n.as_i64 == Some(0i64) {
                owned("unlimited")
            } else {
                truncate_value(v, 12, compact)
            }
        },
        Json::Null => owned("unlimited"),
        _ => truncate_value(v, 12, compact),
    }
}

/// The strings among `a`, joined with `", "`.
pub open spec fn join_strings(a: Seq<Json>) -> Seq<char>
    decreases a.len(),
{
    if a.len() == 0 {
        Seq::empty()
    } else {
        let rest = join_strings(a.drop_last());
        match a.last() {
            Json::Str(s) => if rest.len() == 0 && no_strings(a.drop_last()) { s@ } else { rest + ", "@ + s@ },
            _ => rest,
        }
    }
}

/// No element is a string.
pub open spec fn no_strings(a: Seq<Json>) -> bool {
    forall|i: int| 0 <= i < a.len() ==> !(#[trigger] a[i] is Str)
}

/// A list of strings, given as an array or as the JSON text of one
/// (`decoded`: what a string value decodes to), joined with `", "` and cut to
/// `max` characters; `—` when there is no list or it is empty.
pub open spec fn render_string_list_spec(v: Json, max: nat, decoded: Option<Json>) -> Seq<char> {
    let arr: Option<Seq<Json>> = match v {
        Json::Array(a) => Some(a@),
        Json::Str(_) => match decoded {
            Some(Json::Array(a)) => Some(a@),
            _ => None,
        },
        _ => None,
    };
    match arr {
        Some(a) => if a.len() == 0 { "—"@ } else { truncate_spec(join_strings(a), max) },
        None => "—"@,
    }
}

pub(crate) fn join_string_items(a: &Vec<Json>) -> (r: Vec<char>)
    ensures
        r@ == join_strings(a@),
{
    let mut out: Vec<char> = Vec::new();
    let mut any = false;
    let mut i: usize = 0;
    while i < a.len()
        invariant
            i <= a@.len(),
            out@ == join_strings(a@.take(i as int)),
            any == !no_strings(a@.take(i as int)),
        decreases a@.len() - i,
    {
        proof {
            assert(a@.take(i + 1).drop_last() =~= a@.take(i as int));
            assert(a@.take(i + 1).last() == a@[i as int]);
        }
        if let Json::Str(s) = &a[i] {
            if any {
                push_str(&mut out, ", ");
            }
            let sc = chars_of(s.as_str());
            proof {
                if !any {
                    lemma_join_no_strings(a@.take(i as int));
                }
            }
            push_all(&mut out, &sc);
            any = true;
            proof {
                assert(!no_strings(a@.take(i + 1))) by {
                    assert(a@.take(i + 1)[i as int] is Str);
                }
            }
        } else {
            proof {
                if no_strings(a@.take(i as int)) {
                    assert forall|k: int| 0 <= k < a@.take(i + 1).len() implies !(#[trigger] a@.take(i + 1)[k] is Str) by {
                        if k < i {
                            assert(a@.take(i + 1)[k] == a@.take(i as int)[k]);
                        }
                    }
                } else {
                    let k = choose|k: int| 0 <= k < a@.take(i as int).len() && a@.take(i as int)[k] is Str;
                    assert(a@.take(i + 1)[k] == a@.take(i as int)[k]);
                }
            }
        }
        i = i + 1;
    }
    proof {
        assert(a@.take(a@.len() as int) =~= a@);
    }
    out
}

proof fn lemma_join_no_strings(a: Seq<Json>)
    requires
        no_strings(a),
    ensures
        join_strings(a).len() == 0,
    decreases a.len(),
{
    if a.len() > 0 {
        assert(no_strings(a.drop_last())) by {
            assert forall|k: int| 0 <= k < a.drop_last().len() implies !(#[trigger] a.drop_last()[k] is Str) by {
                assert(a.drop_last()[k] == a[k]);
            }
        }
        lemma_join_no_strings(a.drop_last());
        assert(!(a[a.len() - 1] is Str));
    }
}

/// Renders a list of strings (an array, or a string holding a JSON array,
/// whose decoding is `decoded`) as a comma-joined text cut to `max` characters.
pub fn render_string_list(v: &Json, max: usize, decoded: &Option<Json>) -> (r: String)
    ensures
        r@ == render_string_list_spec(*v, max as nat, *decoded),
{
    let arr: &Vec<Json> = match v {
        Json::Array(a) => a,
        Json::Str(_) => match decoded {
            Some(Json::Array(a)) => a,
            _ => {
                return owned("—");
            },
        },
        _ => {
            return owned("—");
        },
    };
    if arr.len() == 0 {
        return owned("—");
    }
    let joined = join_string_items(arr);
    let js = string_of(&joined);
    crate::tui::logs::truncate(js.as_str(), max)
}

/// A boolean-ish value: a boolean, the numbers 0/1, or the texts
/// `true`/`1`/`false`/`0`.
pub open spec fn coerce_bool_spec(v: Json) -> Option<bool> {
    match v {
        Json::Bool(b) => Some(b),
        Json::Number(n) => if n.as_i64 == Some(0i64) {
            Some(false)
        } else if n.as_i64 == Some(1i64) {
            Some(true)
        } else {
            None
        },
        Json::Str(s) => if s@ == "true"@ || s@ == "1"@ {
            Some(true)
        } else if s@ == "false"@ || s@ == "0"@ {
            Some(false)
        } else {
            None
        },
        _ => None,
    }
}

/// Reads a boolean-ish value.
pub fn coerce_bool(v: &Json) -> (r: Option<bool>)
    ensures
        r == coerce_bool_spec(*v),
{
    match v {
        Json::Bool(b) => Some(*b),
        Json::Number(n) => {
            if n.as_i64 == Some(0i64) {
                Some(false)
            } else if n.as_i64 == Some(1i64) {
                Some(true)
            } else {
                None
            }
        },
        Json::Str(s) => {
            let t = s.as_str();
            if str_eq(t, "true") || str_eq(t, "1") {
                Some(true)
            } else if str_eq(t, "false") || str_eq(t, "0") {
                Some(false)
            } else {
                None
            }
        },
        _ => None,
    }
}

/// `✓`, `✗`, or the value itself when it is not boolean-ish.
pub open spec fn bool_check_spec(v: Json, compact: Seq<char>) -> Seq<char> {
    match coerce_bool_spec(v) {
        Some(true) => "✓"@,
        Some(false) => "✗"@,
        None => render_scalar_spec(v, compact),
    }
}

/// Renders a boolean-ish value as a check mark or a cross.
pub fn bool_check(v: &Json, compact: &str) -> (r: String)
    ensures
        r@ == bool_check_spec(*v, compact@),
{
    match coerce_bool(v) {
        Some(true) => owned("✓"),
        Some(false) => owned("✗"),
        None => render_scalar(v, compact),
    }
}

/// A cell colour.
#[derive(Debug, Clone, Copy, PartialEq, Eq, Structural)]
pub enum CellColor {
    Green,
    Red,
}

/// Green for true, red for false.
pub fn bool_check_color(v: &Json) -> (r: Option<CellColor>)
    ensures
        r == (match coerce_bool_spec(*v) {
            Some(true) => Some(CellColor::Green),
            Some(false) => Some(CellColor::Red),
            None => None,
        }),
{
    match coerce_bool(v) {
        Some(true) => Some(CellColor::Green),
        Some(false) => Some(CellColor::Red),
        None => None,
    }
}


/// The value at a path of member names, if every step is an object member.
pub open spec fn lookup_parts(v: Json, parts: Seq<Seq<char>>) -> Option<Json>
    decreases parts.len(),
{
    if parts.len() == 0 {
        Some(v)
    } else {
        match v {
            Json::Object(m) => match obj_get_spec(m@, parts[0]) {
                Some(n) => lookup_parts(n, parts.drop_first()),
                None => None,
            },
            _ => None,
        }
    }
}

/// The value at a dot-separated path (`"dns.spf.verified"`), null when absent.
pub open spec fn lookup_path_spec(v: Json, path: Seq<char>) -> JsonV {
    match lookup_parts(v, split_on(path, '.')) {
        Some(x) => x.view_deep(),
        None => JsonV::Null,
    }
}

/// A copy of the value at a dot-separated path into `v`, or null.
pub fn lookup_path(v: &Json, path: &str) -> (r: Json)
    ensures
        r.view_deep() == lookup_path_spec(*v, path@),
{
    let pc = chars_of(path);
    let parts = split_chars(&pc, '.');
    let ghost ps = split_on(path@, '.');
    let mut cur: &Json = v;
    let mut i: usize = 0;
    proof {
        assert(ps.skip(0) =~= ps);
    }
    while i < parts.len()
        invariant
            i <= parts@.len(),
            parts@.len() == ps.len(),
            ps == split_on(path@, '.'),
            forall|k: int| 0 <= k < parts@.len() ==> (#[trigger] parts@[k])@ == ps[k],
            lookup_parts(*v, ps) == lookup_parts(*cur, ps.skip(i as int)),
        decreases parts@.len() - i,
    {
        proof {
            assert(ps.skip(i as int).drop_first() =~= ps.skip(i + 1));
            assert(ps.skip(i as int)[0] == ps[i as int]);
        }
        match cur {
            Json::Object(m) => {
                let key = string_of(&parts[i]);
                match obj_get(m, key.as_str()) {
                    Some(next) => {
                        cur = next;
                    },
                    None => {
                        return Json::Null;
                    },
                }
            },
            _ => {
                return Json::Null;
            },
        }
        i = i + 1;
    }
    proof {
        assert(ps.skip(parts@.len() as int) =~= Seq::<Seq<char>>::empty());
    }
    cur.deep_copy()
}

/// How a column renders its value.
#[derive(Debug, Clone, Copy, PartialEq, Eq, Structural)]
pub enum CellTransform {
    /// The scalar as is.
    Plain,
    /// Cut to the given number of characters.
    Truncate(usize),
    /// A check mark or a cross.
    BoolCheck,
    /// A list of strings, cut to the given number of characters.
    StringList(usize),
    /// A quota (0 is unlimited).
    Quota,
    /// A status number shown as active/disabled.
    ActiveStatus,
    /// A status number shown as enabled/disabled.
    EnabledStatus,
    /// The event types of a webhook: the single one, or how many.
    EventSummary,
}

/// How a column colours its value.
#[derive(Debug, Clone, Copy, PartialEq, Eq, Structural)]
pub enum ColorRule {
    NoColor,
    BoolCheck,
}

/// A table column: header, path into the row, rendering and colouring.
pub struct Column {
    pub header: String,
    pub path: String,
    pub transform: CellTransform,
    pub color: ColorRule,
}

impl Column {
    /// A plain column.
    pub fn new(header: &str, path: &str) -> (r: Column)
        ensures
            r.header@ == header@,
            r.path@ == path@,
            r.transform == CellTransform::Plain,
            r.color == ColorRule::NoColor,
    {
        Column { header: owned(header), path: owned(path), transform: CellTransform::Plain, color: ColorRule::NoColor }
    }

    /// The same column with another rendering.
    pub fn with_transform(self, t: CellTransform) -> (r: Column)
        ensures
            r.header == self.header,
            r.path == self.path,
            r.transform == t,
            r.color == self.color,
    {
        Column { transform: t, ..self }
    }

    /// The same column with another colouring.
    pub fn with_color(self, c: ColorRule) -> (r: Column)
        ensures
            r.header == self.header,
            r.path == self.path,
            r.transform == self.transform,
            r.color == c,
    {
        Column { color: c, ..self }
    }
}

/// A status shown with `on` for 1 and `disabled` for 0.
pub open spec fn status_spec(v: Json, on: Seq<char>) -> Seq<char> {
    match v {
        Json::Str(s) => s@,
        Json::Number(n) => match n.as_i64 {
            Some(k) => if k == 1 { on } else if k == 0 { "disabled"@ } else { int_text(k as int) },
            None => "—"@,
        },
        _ => "—"@,
    }
}

/// The event types of a webhook: `—` for none, the type when there is
/// one (`?` when it is not text), else how many.
pub open spec fn event_summary_spec(v: Json) -> Seq<char> {
    match v {
        Json::Array(a) => if a@.len() == 0 {
            "—"@
        } else if a@.len() == 1 {
            match a@[0].as_str_spec() {
                Some(s) => s,
                None => "?"@,
            }
        } else {
            digits_of(a@.len()) + " types"@
        },
        _ => "—"@,
    }
}

/// A cell's text for a rendering rule (`compact`: the value's compact JSON;
/// `decoded`: what a string value decodes to as JSON).
pub open spec fn render_cell_spec(t: CellTransform, v: Json, compact: Seq<char>, decoded: Option<Json>) -> Seq<char> {
    match t {
        CellTransform::Plain => render_scalar_spec(v, compact),
        CellTransform::Truncate(n) => truncate_value_spec(v, n as nat, compact),
        CellTransform::BoolCheck => bool_check_spec(v, compact),
        CellTransform::StringList(n) => render_string_list_spec(v, n as nat, decoded),
        CellTransform::Quota => quota_label_spec(v, compact),
        CellTransform::ActiveStatus => status_spec(v, "active"@),
        CellTransform::EnabledStatus => status_spec(v, "enabled"@),
        CellTransform::EventSummary => event_summary_spec(v),
    }
}

fn render_status(v: &Json, on: &str) -> (r: String)
    ensures
        r@ == status_spec(*v, on@),
{
    match v {
        Json::Str(s) => crate::text::copy_string(s),
        Json::Number(n) => match n.as_i64 {
            Some(k) => if k == 1 {
                owned(on)
            } else if k == 0 {
                owned("disabled")
            } else {
                string_of(&int_chars(k))
            },
            None => owned("—"),
        },
        _ => owned("—"),
    }
}

fn render_events(v: &Json) -> (r: String)
    ensures
        r@ == event_summary_spec(*v),
{
    match v {
        Json::Array(a) => {
            if a.len() == 0 {
                owned("—")
            } else if a.len() == 1 {
                match a[0].as_str() {
                    Some(s) => owned(s),
                    None => owned("?"),
                }
            } else {
                let mut out: Vec<char> = Vec::new();
                push_digits(&mut out, a.len() as u64);
                push_str(&mut out, " types");
                string_of(&out)
            }
        },
        _ => owned("—"),
    }
}

/// Renders a cell by its rule.
pub fn render_cell(t: CellTransform, v: &Json, compact: &str, decoded: &Option<Json>) -> (r: String)
    ensures
        r@ == render_cell_spec(t, *v, compact@, *decoded),
{
    match t {
        CellTransform::Plain => render_scalar(v, compact),
        CellTransform::Truncate(n) => truncate_value(v, n, compact),
        CellTransform::BoolCheck => bool_check(v, compact),
        CellTransform::StringList(n) => render_string_list(v, n, decoded),
        CellTransform::Quota => quota_label(v, compact),
        CellTransform::ActiveStatus => render_status(v, "active"),
        CellTransform::EnabledStatus => render_status(v, "enabled"),
        CellTransform::EventSummary => render_events(v),
    }
}

/// A cell's colour by its rule.
pub fn cell_color(c: ColorRule, v: &Json) -> (r: Option<CellColor>)
    ensures
        c == ColorRule::NoColor ==> r is None,
        c == ColorRule::BoolCheck ==> r == (match coerce_bool_spec(*v) {
            Some(true) => Some(CellColor::Green),
            Some(false) => Some(CellColor::Red),
            None => None,
        }),
{
    match c {
        ColorRule::NoColor => None,
        ColorRule::BoolCheck => bool_check_color(v),
    }
}

/// The envelope members that hold rows.
pub open spec fn row_keys() -> Seq<Seq<char>> {
    seq!["result"@, "results"@, "data"@, "items"@, "rows"@, "entries"@, "records"@, "list"@]
}

/// The members searched one level down.
pub open spec fn nested_row_outer() -> Seq<Seq<char>> {
    seq!["result"@, "data"@]
}

pub open spec fn nested_row_inner() -> Seq<Seq<char>> {
    seq!["items"@, "rows"@, "results"@, "entries"@, "list"@]
}

/// The rows of a list response: an array itself; or, in an object, the
/// array under the first envelope member that holds one, else one level
/// down under `result`/`data`, else the only array-valued member, else the
/// object as a single row; nothing for other values.
pub open spec fn rows_spec(v: Json) -> Seq<Json> {
    match v {
        Json::Array(a) => a@,
        Json::Object(m) => match crate::json::first_array_member(m@, row_keys()) {
            Some(a) => a,
            None => match crate::json::nested_array_member(m@, nested_row_outer(), nested_row_inner()) {
                Some(a) => a,
                None => if crate::json::array_values(m@).len() == 1 {
                    crate::json::array_values(m@)[0]
                } else {
                    seq![Json::Object(m)]
                },
            },
        },
        _ => Seq::empty(),
    }
}

/// A resource-named envelope: an object with no envelope member holding an
/// array, none one level down, and exactly one member (member `j`) holding
/// an array has that array's elements as its rows.
pub proof fn lemma_sole_array_rows(m: Vec<(String, Json)>, j: int)
    requires
        0 <= j < m@.len(),
        m@[j].1 is Array,
        forall|i: int| 0 <= i < m@.len() && i != j ==> !(#[trigger] m@[i].1 is Array),
        crate::json::first_array_member(m@, row_keys()) is None,
        crate::json::nested_array_member(m@, nested_row_outer(), nested_row_inner()) is None,
    ensures
        rows_spec(Json::Object(m)) == m@[j].1->Array_0@,
{
    crate::json::lemma_sole_array(m@, j);
}

/// The other shapes of a list response: an array is its own rows; an
/// envelope member holding an array gives that array; an object with no
/// array at all (at the top or one level down) is a single row; any other
/// value has no rows.
pub proof fn lemma_rows_shapes(v: Json)
    ensures
        v matches Json::Array(a) ==> rows_spec(v) == a@,
        v matches Json::Object(m) ==> (crate::json::first_array_member(m@, row_keys()) matches Some(x)
            ==> rows_spec(v) == x),
        v matches Json::Object(m) ==> ((forall|i: int| 0 <= i < m@.len() ==> !(#[trigger] m@[i].1 is Array))
            && crate::json::nested_array_member(m@, nested_row_outer(), nested_row_inner()) is None
            ==> rows_spec(v) == seq![v]),
        !(v is Array) && !(v is Object) ==> rows_spec(v).len() == 0,
{
    if let Json::Object(m) = v {
        if forall|i: int| 0 <= i < m@.len() ==> !(#[trigger] m@[i].1 is Array) {
            crate::json::lemma_no_arrays(m@);
            lemma_no_top_array(m@, row_keys());
        }
    }
}

/// With no member holding an array, no envelope member holds one.
proof fn lemma_no_top_array(m: Seq<(String, Json)>, keys: Seq<Seq<char>>)
    requires
        forall|i: int| 0 <= i < m.len() ==> !(#[trigger] m[i].1 is Array),
    ensures
        crate::json::first_array_member(m, keys) is None,
    decreases keys.len(),
{
    if keys.len() > 0 {
        crate::json::lemma_get_is_member(m, keys[0]);
        lemma_no_top_array(m, keys.drop_first());
    }
}

/// Finds the rows in a list response (see `rows_spec`).
pub fn extract_rows(v: Json) -> (r: Vec<Json>)
    ensures
        r@ == rows_spec(v),
        match v {
            Json::Object(m) => forall|j: int| 0 <= j < m@.len() && (#[trigger] m@[j].1 is Array)
                && (forall|i: int| 0 <= i < m@.len() && i != j ==> !(#[trigger] m@[i].1 is Array))
                && crate::json::first_array_member(m@, row_keys()) is None
                && crate::json::nested_array_member(m@, nested_row_outer(), nested_row_inner()) is None
                ==> r@ == m@[j].1->Array_0@,
            _ => true,
        },
{
    let ghost gv = v;
    proof {
        if let Json::Object(m) = gv {
            assert forall|j: int| 0 <= j < m@.len() && (#[trigger] m@[j].1 is Array)
                && (forall|i: int| 0 <= i < m@.len() && i != j ==> !(#[trigger] m@[i].1 is Array))
                && crate::json::first_array_member(m@, row_keys()) is None
                && crate::json::nested_array_member(m@, nested_row_outer(), nested_row_inner()) is None
                implies rows_spec(v) == m@[j].1->Array_0@ by {
                lemma_sole_array_rows(m, j);
            }
        }
    }
    match v {
        Json::Array(a) => a,
        Json::Object(m) => {
            let ghost m0 = m;
            let mut m = m;
            let top: [&str; 8] = ["result", "results", "data", "items", "rows", "entries", "records", "list"];
            let outer: [&str; 2] = ["result", "data"];
            let inner: [&str; 5] = ["items", "rows", "results", "entries", "list"];
            proof {
                assert(top@.map_values(|s: &str| s@) =~= row_keys());
                assert(outer@.map_values(|s: &str| s@) =~= nested_row_outer());
                assert(inner@.map_values(|s: &str| s@) =~= nested_row_inner());
            }
            if let Some(j) = crate::json::first_array_index(&m, &top) {
                let (_, val) = m.remove(j);
                if let Json::Array(a) = val {
                    return a;
                }
                return Vec::new();
            }
            if let Some((j, k)) = crate::json::nested_array_index(&m, &outer, &inner) {
                let (_, val) = m.remove(j);
                if let Json::Object(mut o) = val {
                    let (_, inner_val) = o.remove(k);
                    if let Json::Array(a) = inner_val {
                        return a;
                    }
                }
                return Vec::new();
            }
            let (count, first) = crate::json::count_arrays(&m);
            if count == 1 {
                let (_, val) = m.remove(first);
                if let Json::Array(a) = val {
                    return a;
                }
                return Vec::new();
            }
            let mut out: Vec<Json> = Vec::new();
            out.push(Json::Object(m));
            proof {
                assert(m == m0);
            }
            out
        },
        _ => Vec::new(),
    }
}
} // verus!
