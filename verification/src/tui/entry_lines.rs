//! The lines of the entry detail view: a status banner, the sender,
//! recipient and subject, the known fields grouped in sections, and every
//! other non-empty member in key order.

use vstd::prelude::*;

use crate::json::{obj_get, obj_get_spec, Json, JsonV};
use crate::text::{
    chars_of, digits_of, owned, pad_right, padded, push_str, same_text, string_of, text_less, text_lt,
    uppercase, to_upper, repeat_spec,
};
use crate::tui::detail::{
    field_str_with_key, field_unix_secs, first_scalar, from_key_list, from_keys, key_texts, status_color,
    status_color_spec, status_key_list, status_keys, subject_key_list, subject_keys, texts, to_key_list, to_keys,
    unix_secs_spec, StatusColor,
};
use crate::tui::logs::{
    format_unix, format_unix_spec, is_trivial_spec, is_trivial_value, relative_time, relative_time_spec, truncate, truncate_spec,
    FieldFmt, LogKind,
};
use vstd::utf8::{decode_utf8, encode_utf8, is_char_boundary};
use crate::commands::update::{lines_spec, text_lines};

verus! {

/// One line of the entry detail view.
pub enum DetailLine {
    Blank,
    /// The status, `_` as spaces and uppercased, in its color.
    Banner(String, StatusColor),
    /// Under the banner: how long ago the entry was, and its uid.
    Subtext(Option<String>, Option<String>),
    /// A padded label and a value.
    Prop(String, String, FieldFmt),
    /// A section title.
    Heading(String),
    /// One open or click: its date, client/country/IP, and URL.
    Event(Option<String>, Option<String>, Option<String>),
    /// Another member: padded label and a boolean.
    OtherBool(String, bool),
    /// Another member: padded label and a number as printed.
    OtherNumber(String, String),
    /// Another member: padded label and its text, cut after 200 bytes.
    OtherText(String, String),
    /// Another member: padded label and an array or object.
    OtherJson(String, Json),
}

/// The mathematical form of a detail line.
pub enum LineV {
    Blank,
    Banner(Seq<char>, StatusColor),
    Subtext(Option<Seq<char>>, Option<Seq<char>>),
    Prop(Seq<char>, Seq<char>, FieldFmt),
    Heading(Seq<char>),
    Event(Option<Seq<char>>, Option<Seq<char>>, Option<Seq<char>>),
    OtherBool(Seq<char>, bool),
    OtherNumber(Seq<char>, Seq<char>),
    OtherText(Seq<char>, Seq<char>),
    OtherJson(Seq<char>, JsonV),
}

pub open spec fn ot(o: Option<String>) -> Option<Seq<char>> {
    crate::text::opt_text(o)
}

impl View for DetailLine {
    type V = LineV;

    open spec fn view(&self) -> LineV {
        match *self {
            DetailLine::Blank => LineV::Blank,
            DetailLine::Banner(t, c) => LineV::Banner(t@, c),
            DetailLine::Subtext(a, b) => LineV::Subtext(ot(a), ot(b)),
            DetailLine::Prop(l, v, f) => LineV::Prop(l@, v@, f),
            DetailLine::Heading(t) => LineV::Heading(t@),
            DetailLine::Event(a, b, c) => LineV::Event(ot(a), ot(b), ot(c)),
            DetailLine::OtherBool(l, b) => LineV::OtherBool(l@, b),
            DetailLine::OtherNumber(l, t) => LineV::OtherNumber(l@, t@),
            DetailLine::OtherText(l, t) => LineV::OtherText(l@, t@),
            DetailLine::OtherJson(l, j) => LineV::OtherJson(l@, j.view_deep()),
        }
    }
}

/// The forms of a list of lines.
pub open spec fn lines_view(v: Seq<DetailLine>) -> Seq<LineV> {
    v.map_values(|l: DetailLine| l@)
}

/// Lines and the keys already shown, as the view is built.
pub type Acc = (Seq<LineV>, Seq<Seq<char>>);

// ───────────── the status banner ─────────────

/// The banner text of a status: `_` read as a space, then uppercased.
pub open spec fn banner_text(s: Seq<char>) -> Seq<char> {
    uppercase(s.map_values(|c: char| if c == '_' { ' ' } else { c }))
}

/// A non-empty string member `k`.
pub open spec fn nonempty_str(m: Seq<(String, Json)>, k: Seq<char>) -> Option<Seq<char>> {
    match obj_get_spec(m, k) {
        Some(Json::Str(s)) => if s@.len() > 0 { Some(s@) } else { None },
        _ => None,
    }
}

/// The banner block: a blank line; then, when the entry has a status, the
/// banner, a subtext line when the entry has a time or a uid, and a blank
/// line. The status, time and uid members count as shown.
pub open spec fn banner_lines(m: Seq<(String, Json)>, kind: LogKind, now: i64) -> Acc {
    match first_scalar(m, status_keys(kind)) {
        None => (seq![LineV::Blank], Seq::empty()),
        Some((k, v)) => {
            let secs = unix_secs_spec(m);
            let when = match secs {
                Some((_, n)) => Some(relative_time_spec(n, now)),
                None => None,
            };
            let shown1 = match secs {
                Some((tk, _)) => seq![k, tk],
                None => seq![k],
            };
            let uid = nonempty_str(m, "uid"@);
            let shown2 = if uid is Some { shown1.push("uid"@) } else { shown1 };
            let sub = match uid {
                Some(u) => Some("uid "@ + truncate_spec(u, 28)),
                None => None,
            };
            let mid = if when is Some || sub is Some { seq![LineV::Subtext(when, sub)] } else { Seq::empty() };
            (seq![LineV::Blank, LineV::Banner(banner_text(v), status_color_spec(v))] + mid + seq![LineV::Blank], shown2)
        },
    }
}

/// `s` with every `_` made a space.
fn underscores_to_spaces(s: &str) -> (r: String)
    ensures
        r@ == s@.map_values(|c: char| if c == '_' { ' ' } else { c }),
{
    let cs = chars_of(s);
    let mut out: Vec<char> = Vec::new();
    let mut i: usize = 0;
    while i < cs.len()
        invariant
            i <= cs@.len(),
            cs@ == s@,
            out@ =~= cs@.take(i as int).map_values(|c: char| if c == '_' { ' ' } else { c }),
        decreases cs@.len() - i,
    {
        let c = cs[i];
        out.push(if c == '_' { ' ' } else { c });
        proof {
            assert(cs@.take(i + 1) =~= cs@.take(i as int).push(c));
        }
        i = i + 1;
    }
    proof {
        assert(cs@.take(cs@.len() as int) =~= cs@);
    }
    string_of(&out)
}

/// A non-empty string member `k`.
fn nonempty_str_of(m: &Vec<(String, Json)>, k: &str) -> (r: Option<String>)
    ensures
        ot(r) == nonempty_str(m@, k@),
{
    match obj_get(m, k) {
        Some(Json::Str(s)) => if s.as_str().is_empty() {
            None
        } else {
            Some(s.clone())
        },
        _ => None,
    }
}

/// Builds the banner block (see `banner_lines`).
fn push_banner(m: &Vec<(String, Json)>, kind: LogKind, now: i64, lines: &mut Vec<DetailLine>, shown: &mut Vec<String>)
    requires
        old(lines)@.len() == 0,
        old(shown)@.len() == 0,
    ensures
        lines_view(final(lines)@) == banner_lines(m@, kind, now).0,
        texts(final(shown)@) == banner_lines(m@, kind, now).1,
{
    lines.push(DetailLine::Blank);
    let keys = status_key_list(kind);
    match field_str_with_key(m, keys.as_slice()) {
        None => {
            proof {
                assert(lines_view(lines@) =~= seq![LineV::Blank]);
                assert(texts(shown@) =~= Seq::<Seq<char>>::empty());
            }
        },
        Some((k, v)) => {
            shown.push(k);
            let color = status_color(v.as_str());
            let banner = to_upper(underscores_to_spaces(v.as_str()).as_str());
            lines.push(DetailLine::Banner(banner, color));
            let when = match field_unix_secs(m, shown) {
                Some(secs) => Some(relative_time(secs, now)),
                None => None,
            };
            let ghost shown_mid = shown@;
            proof {
                let sh1 = match unix_secs_spec(m@) {
                    Some((tk, _)) => seq![k@, tk],
                    None => seq![k@],
                };
                assert(texts(shown@) =~= sh1);
            }
            let sub = match nonempty_str_of(m, "uid") {
                Some(u) => {
                    shown.push(owned("uid"));
                    let mut t = chars_of("uid ");
                    let cut = truncate(u.as_str(), 28);
                    push_str(&mut t, cut.as_str());
                    Some(string_of(&t))
                },
                None => None,
            };
            proof {
                if nonempty_str(m@, "uid"@) is Some {
                    assert(texts(shown@) =~= texts(shown_mid).push("uid"@));
                } else {
                    assert(shown@ == shown_mid);
                }
            }
            let has_sub = when.is_some() || sub.is_some();
            if has_sub {
                lines.push(DetailLine::Subtext(when, sub));
            }
            lines.push(DetailLine::Blank);
            proof {
                reveal_strlit("uid ");
                assert(lines_view(lines@) =~= banner_lines(m@, kind, now).0);
                assert(texts(shown@) =~= banner_lines(m@, kind, now).1);
            }
        },
    }
}

// ───────────── from / to / subject ─────────────

/// A labelled line, the label padded to `width`.
pub open spec fn prop_line(label: Seq<char>, value: Seq<char>, fmt: FieldFmt, width: nat) -> LineV {
    LineV::Prop(pad_right(label, width), value, fmt)
}

/// One of the sender, recipient and subject lines, when the entry has it.
pub open spec fn triple_step(m: Seq<(String, Json)>, acc: Acc, label: Seq<char>, keys: Seq<Seq<char>>) -> Acc {
    match first_scalar(m, keys) {
        Some((k, v)) => if v.len() == 0 {
            acc
        } else {
            (acc.0.push(prop_line(label, v, FieldFmt::Text, 9)), acc.1.push(k))
        },
        None => acc,
    }
}

/// The `From`, `To` and `Subject` lines, then a blank line when there was any.
pub open spec fn triple_lines(m: Seq<(String, Json)>, acc: Acc) -> Acc {
    let a = triple_step(m, acc, "From"@, from_keys());
    let b = triple_step(m, a, "To"@, to_keys());
    let c = triple_step(m, b, "Subject"@, subject_keys());
    if c.0.len() > acc.0.len() { (c.0.push(LineV::Blank), c.1) } else { c }
}

/// The first character of a padded label is the label's.
proof fn lemma_pad_first(label: Seq<char>, w: nat)
    requires
        label.len() > 0,
    ensures
        pad_right(label, w).len() > 0,
        pad_right(label, w)[0] == label[0],
{
}

/// Whether a block of lines added after position `n` shows the member that
/// `found` names on a line labelled `label`: when the entry has it (non-empty),
/// such a line is among them; and every such line shows that member's text.
pub open spec fn shows_as(lines: Seq<LineV>, n: int, label: Seq<char>, found: Option<(Seq<char>, Seq<char>)>) -> bool {
    &&& found is Some && (found->0).1.len() > 0 ==> exists|i: int|
        n <= i < lines.len() && #[trigger] lines[i] == LineV::Prop(pad_right(label, 9), (found->0).1, FieldFmt::Text)
    &&& forall|i: int| n <= i < lines.len() && (#[trigger] lines[i]) is Prop && lines[i]->Prop_0 == pad_right(label, 9)
        ==> found is Some && lines[i]->Prop_1 == (found->0).1
}

/// The sender, recipient and subject block keeps the lines before it; its
/// `From` line shows the entry's first non-empty sender member (the first of
/// `from_keys` that shows as a field), its `To` line the first recipient
/// member (`to_keys`), its `Subject` line the subject (`subject_keys`), each
/// present when the entry has that member; no line shows another label's
/// member; and the members shown count as shown.
pub proof fn lemma_triple_lines(m: Seq<(String, Json)>, acc: Acc)
    ensures
        ({
            let r = triple_lines(m, acc);
            let from = first_scalar(m, from_keys());
            let to = first_scalar(m, to_keys());
            let subj = first_scalar(m, subject_keys());
            &&& r.0.len() >= acc.0.len()
            &&& r.0.take(acc.0.len() as int) == acc.0
            &&& shows_as(r.0, acc.0.len() as int, "From"@, from)
            &&& shows_as(r.0, acc.0.len() as int, "To"@, to)
            &&& shows_as(r.0, acc.0.len() as int, "Subject"@, subj)
            &&& from is Some && (from->0).1.len() > 0 ==> r.1.contains((from->0).0)
            &&& to is Some && (to->0).1.len() > 0 ==> r.1.contains((to->0).0)
            &&& subj is Some && (subj->0).1.len() > 0 ==> r.1.contains((subj->0).0)
        }),
{
    reveal_strlit("From");
    reveal_strlit("To");
    reveal_strlit("Subject");
    lemma_pad_first("From"@, 9);
    lemma_pad_first("To"@, 9);
    lemma_pad_first("Subject"@, 9);
    let fl = pad_right("From"@, 9);
    let tl = pad_right("To"@, 9);
    let sl = pad_right("Subject"@, 9);
    assert(fl != tl && sl != tl && fl != sl);
    let from = first_scalar(m, from_keys());
    let to = first_scalar(m, to_keys());
    let subj = first_scalar(m, subject_keys());
    let a = triple_step(m, acc, "From"@, from_keys());
    let b = triple_step(m, a, "To"@, to_keys());
    let c = triple_step(m, b, "Subject"@, subject_keys());
    let r = triple_lines(m, acc);
    let n = acc.0.len() as int;
    let na = a.0.len() as int;
    let nb = b.0.len() as int;
    let nc = c.0.len() as int;
    // Each step keeps what came before and adds at most its own line.
    assert(na <= n + 1 && a.0.take(n) =~= acc.0);
    assert(na == n + 1 <==> from is Some && (from->0).1.len() > 0);
    assert(na == n + 1 ==> a.0[n] == LineV::Prop(fl, (from->0).1, FieldFmt::Text) && a.1 == acc.1.push((from->0).0));
    assert(na == n ==> a.1 == acc.1);
    assert(nb <= na + 1 && b.0.take(na) =~= a.0);
    assert(nb == na + 1 <==> to is Some && (to->0).1.len() > 0);
    assert(nb == na + 1 ==> b.0[na] == LineV::Prop(tl, (to->0).1, FieldFmt::Text) && b.1 == a.1.push((to->0).0));
    assert(nb == na ==> b.1 == a.1);
    assert(nc <= nb + 1 && c.0.take(nb) =~= b.0);
    assert(nc == nb + 1 <==> subj is Some && (subj->0).1.len() > 0);
    assert(nc == nb + 1 ==> c.0[nb] == LineV::Prop(sl, (subj->0).1, FieldFmt::Text) && c.1 == b.1.push((subj->0).0));
    assert(nc == nb ==> c.1 == b.1);
    assert(r.0.len() <= nc + 1 && r.0.take(nc) =~= c.0);
    assert(r.0.len() == nc + 1 ==> r.0[nc] == LineV::Blank);
    assert(r.1 == c.1);
    // Where each line of the block came from.
    assert forall|j: int| 0 <= j < r.0.len() implies (#[trigger] r.0[j]) == (if j < n { acc.0[j] } else if j < na {
        a.0[j]
    } else if j < nb {
        b.0[j]
    } else if j < nc {
        c.0[j]
    } else {
        LineV::Blank
    }) by {
        if j < nc {
            assert(r.0[j] == r.0.take(nc)[j]);
            if j < nb {
                assert(c.0[j] == c.0.take(nb)[j]);
                if j < na {
                    assert(b.0[j] == b.0.take(na)[j]);
                    if j < n {
                        assert(a.0[j] == a.0.take(n)[j]);
                    }
                }
            }
        }
    }
    assert(r.0.take(n) =~= acc.0);
    if from is Some && (from->0).1.len() > 0 {
        assert(r.0[n] == LineV::Prop(fl, (from->0).1, FieldFmt::Text));
    }
    if to is Some && (to->0).1.len() > 0 {
        assert(r.0[na] == LineV::Prop(tl, (to->0).1, FieldFmt::Text));
    }
    if subj is Some && (subj->0).1.len() > 0 {
        assert(r.0[nb] == LineV::Prop(sl, (subj->0).1, FieldFmt::Text));
    }
    // The keys shown.
    if from is Some && (from->0).1.len() > 0 {
        assert(a.1[a.1.len() - 1] == (from->0).0);
        assert(c.1[a.1.len() - 1] == (from->0).0) by {
            assert(b.1[a.1.len() - 1] == a.1[a.1.len() - 1]);
        }
    }
    if to is Some && (to->0).1.len() > 0 {
        assert(b.1[b.1.len() - 1] == (to->0).0);
        assert(c.1[b.1.len() - 1] == (to->0).0);
    }
    if subj is Some && (subj->0).1.len() > 0 {
        assert(c.1[c.1.len() - 1] == (subj->0).0);
    }
}

/// The detail view of an entry with a recipient shows it on a `To` line.
pub proof fn lemma_detail_shows_recipient(m: Seq<(String, Json)>, kind: LogKind, now: i64)
    requires
        first_scalar(m, to_keys()) is Some,
        (first_scalar(m, to_keys())->0).1.len() > 0,
    ensures
        exists|i: int| 0 <= i < detail_spec(m, kind, now).len() && #[trigger] detail_spec(m, kind, now)[i] == LineV::Prop(
            pad_right("To"@, 9),
            (first_scalar(m, to_keys())->0).1,
            FieldFmt::Text,
        ),
{
    let v = (first_scalar(m, to_keys())->0).1;
    let t = triple_lines(m, banner_lines(m, kind, now));
    lemma_triple_lines(m, banner_lines(m, kind, now));
    let i = choose|i: int| banner_lines(m, kind, now).0.len() <= i < t.0.len()
        && #[trigger] t.0[i] == LineV::Prop(pad_right("To"@, 9), v, FieldFmt::Text);
    lemma_sections_keep(m, t, sections());
    let bo = before_other(m, kind, now);
    assert(bo.0[i] == t.0[i]) by {
        assert(bo.0[i] == bo.0.take(t.0.len() as int)[i]);
    }
    assert(detail_spec(m, kind, now)[i] == bo.0[i]);
}

/// The sections only add lines after those already there.
proof fn lemma_sections_keep(m: Seq<(String, Json)>, acc: Acc, ss: Seq<(Seq<char>, Seq<FieldDef>)>)
    ensures
        sections_fold(m, acc, ss).0.len() >= acc.0.len(),
        sections_fold(m, acc, ss).0.take(acc.0.len() as int) == acc.0,
    decreases ss.len(),
{
    if ss.len() > 0 {
        let s1 = section_step(m, acc, ss[0]);
        assert(s1.0.len() >= acc.0.len() && s1.0.take(acc.0.len() as int) =~= acc.0);
        lemma_sections_keep(m, s1, ss.drop_first());
        let f = sections_fold(m, acc, ss);
        assert(f.0.take(acc.0.len() as int) =~= acc.0) by {
            assert forall|j: int| 0 <= j < acc.0.len() implies f.0[j] == acc.0[j] by {
                assert(f.0[j] == f.0.take(s1.0.len() as int)[j]);
                assert(s1.0[j] == s1.0.take(acc.0.len() as int)[j]);
            }
        }
    }
}

/// Adds one labelled line (see `triple_step`).
fn push_triple(
    m: &Vec<(String, Json)>,
    lines: &mut Vec<DetailLine>,
    shown: &mut Vec<String>,
    label: &str,
    keys: &[&str],
)
    ensures
        (lines_view(final(lines)@), texts(final(shown)@)) == triple_step(
            m@,
            (lines_view(old(lines)@), texts(old(shown)@)),
            label@,
            key_texts(keys@),
        ),
{
    if let Some((k, v)) = field_str_with_key(m, keys) {
        if !v.as_str().is_empty() {
            shown.push(k);
            lines.push(DetailLine::Prop(padded(label, 9), v, FieldFmt::Text));
            proof {
                assert(lines_view(lines@) =~= lines_view(old(lines)@).push(prop_line(label@, v@, FieldFmt::Text, 9)));
                assert(texts(shown@) =~= texts(old(shown)@).push(k@));
            }
        }
    }
}

/// Builds the sender, recipient and subject lines (see `triple_lines`).
fn push_triples(m: &Vec<(String, Json)>, lines: &mut Vec<DetailLine>, shown: &mut Vec<String>)
    ensures
        (lines_view(final(lines)@), texts(final(shown)@)) == triple_lines(m@, (lines_view(old(lines)@), texts(old(shown)@))),
{
    let before = lines.len();
    let fk = from_key_list();
    let tk = to_key_list();
    let sk = subject_key_list();
    push_triple(m, lines, shown, "From", &fk);
    push_triple(m, lines, shown, "To", &tk);
    push_triple(m, lines, shown, "Subject", &sk);
    if lines.len() > before {
        lines.push(DetailLine::Blank);
        proof {
            assert(lines_view(lines@) =~= lines_view(lines@.drop_last()).push(LineV::Blank));
        }
    }
}


// ───────────── opens and clicks ─────────────

/// The texts of a list of references to values.
pub open spec fn derefs(v: Seq<&Json>) -> Seq<Json> {
    v.map_values(|x: &Json| *x)
}

/// The date an open or click sorts by: its integer `date`, else 0.
pub open spec fn date_key(x: Json) -> i64 {
    match x {
        Json::Object(o) => match obj_get_spec(o@, "date"@) {
            Some(v) => match v.as_i64_spec() {
                Some(i) => i,
                None => 0,
            },
            None => 0,
        },
        _ => 0,
    }
}

/// The first position in `s` whose date is older than `k` (else the end).
pub open spec fn first_older(s: Seq<Json>, k: i64) -> int
    decreases s.len(),
{
    if s.len() == 0 {
        0
    } else if date_key(s[0]) < k {
        0
    } else {
        1 + first_older(s.drop_first(), k)
    }
}

/// The opens or clicks newest first; equal dates keep their order.
pub open spec fn sort_events(s: Seq<Json>) -> Seq<Json>
    decreases s.len(),
{
    if s.len() == 0 {
        Seq::empty()
    } else {
        let t = sort_events(s.drop_last());
        t.insert(first_older(t, date_key(s.last())), s.last())
    }
}

/// The date of an open or click: its positive `date` number (integer part),
/// as a Unix time.
pub open spec fn event_date(o: Seq<(String, Json)>) -> Option<Seq<char>> {
    match obj_get_spec(o, "date"@) {
        Some(Json::Number(n)) => {
            let d = match n.as_i64 {
                Some(i) => i,
                None => n.float_trunc,
            };
            if d > 0 { Some(format_unix_spec(d as int)) } else { None }
        },
        _ => None,
    }
}

/// Texts joined with ` · `.
pub open spec fn join_dot(p: Seq<Seq<char>>) -> Seq<char>
    decreases p.len(),
{
    if p.len() == 0 {
        Seq::empty()
    } else if p.len() == 1 {
        p[0]
    } else {
        join_dot(p.drop_last()) + " · "@ + p.last()
    }
}

pub open spec fn opt_seq(o: Option<Seq<char>>) -> Seq<Seq<char>> {
    match o {
        Some(x) => seq![x],
        None => Seq::empty(),
    }
}

/// The line of an open or click: its date, its client, country and IP joined,
/// and its URL cut to 80 characters; nothing when it has none of these or is
/// not an object.
pub open spec fn event_spec(x: Json) -> Option<LineV> {
    match x {
        Json::Object(o) => {
            let date = event_date(o@);
            let ec = nonempty_str(o@, "email_client"@);
            let co = nonempty_str(o@, "country"@);
            let ip = nonempty_str(o@, "ip"@);
            let url = nonempty_str(o@, "original_url"@);
            if date is None && ec is None && co is None && ip is None && url is None {
                None
            } else {
                let parts = opt_seq(ec) + opt_seq(co) + opt_seq(ip);
                Some(
                    LineV::Event(
                        date,
                        if parts.len() > 0 { Some(join_dot(parts)) } else { None },
                        match url {
                            Some(u) => Some(truncate_spec(u, 80)),
                            None => None,
                        },
                    ),
                )
            }
        },
        _ => None,
    }
}

/// The lines of a list of opens or clicks, in order.
pub open spec fn event_lines(s: Seq<Json>) -> Seq<LineV>
    decreases s.len(),
{
    if s.len() == 0 {
        Seq::empty()
    } else {
        event_lines(s.drop_last()) + match event_spec(s.last()) {
            Some(l) => seq![l],
            None => Seq::empty(),
        }
    }
}

fn date_key_of(x: &Json) -> (r: i64)
    ensures
        r == date_key(*x),
{
    match x {
        Json::Object(o) => match obj_get(o, "date") {
            Some(v) => match v.as_i64() {
                Some(i) => i,
                None => 0,
            },
            None => 0,
        },
        _ => 0,
    }
}

fn first_older_in(out: &Vec<&Json>, k: i64) -> (p: usize)
    ensures
        p as int == first_older(derefs(out@), k),
        p <= out@.len(),
{
    let ghost d = derefs(out@);
    let mut i: usize = 0;
    proof {
        assert(d.skip(0) =~= d);
    }
    while i < out.len()
        invariant
            i <= out@.len(),
            d == derefs(out@),
            first_older(d, k) == i + first_older(d.skip(i as int), k),
        decreases out@.len() - i,
    {
        proof {
            assert(d.skip(i as int).drop_first() =~= d.skip(i + 1));
            assert(d.skip(i as int)[0] == *out@[i as int]);
        }
        if date_key_of(out[i]) < k {
            return i;
        }
        i = i + 1;
    }
    proof {
        assert(d.skip(i as int) =~= Seq::<Json>::empty());
    }
    i
}

/// The opens or clicks of `a`, newest first (see `sort_events`).
fn sorted_events(a: &Vec<Json>) -> (r: Vec<&Json>)
    ensures
        derefs(r@) == sort_events(a@),
{
    let mut out: Vec<&Json> = Vec::new();
    let mut i: usize = 0;
    proof {
        assert(derefs(out@) =~= sort_events(a@.take(0)));
    }
    while i < a.len()
        invariant
            i <= a@.len(),
            derefs(out@) == sort_events(a@.take(i as int)),
        decreases a@.len() - i,
    {
        let x: &Json = &a[i];
        let k = date_key_of(x);
        let p = first_older_in(&out, k);
        let ghost before = out@;
        out.insert(p, x);
        proof {
            assert(a@.take(i + 1).drop_last() =~= a@.take(i as int));
            assert(a@.take(i + 1).last() == a@[i as int]);
            assert(derefs(out@) =~= derefs(before).insert(p as int, a@[i as int]));
        }
        i = i + 1;
    }
    proof {
        assert(a@.take(a@.len() as int) =~= a@);
    }
    out
}

/// Texts joined with ` · `.
fn join_with_dots(parts: &Vec<String>) -> (r: String)
    ensures
        r@ == join_dot(texts(parts@)),
{
    let mut out: Vec<char> = Vec::new();
    let mut i: usize = 0;
    while i < parts.len()
        invariant
            i <= parts@.len(),
            out@ == join_dot(texts(parts@.take(i as int))),
        decreases parts@.len() - i,
    {
        proof {
            assert(texts(parts@.take(i + 1)).drop_last() =~= texts(parts@.take(i as int)));
            assert(texts(parts@.take(i + 1)).last() == parts@[i as int]@);
        }
        if i > 0 {
            push_str(&mut out, " · ");
        }
        push_str(&mut out, parts[i].as_str());
        proof {
            if i == 0 {
                assert(texts(parts@.take(1)) =~= seq![parts@[0]@]);
            }
            assert(out@ =~= join_dot(texts(parts@.take(i + 1))));
        }
        i = i + 1;
    }
    proof {
        assert(parts@.take(parts@.len() as int) =~= parts@);
    }
    string_of(&out)
}

/// The line of an open or click (see `event_spec`).
fn event_line(x: &Json) -> (r: Option<DetailLine>)
    ensures
        match event_spec(*x) {
            Some(l) => r is Some && r->0@ == l,
            None => r is None,
        },
{
    match x {
        Json::Object(o) => {
            let date = match obj_get(o, "date") {
                Some(Json::Number(n)) => {
                    let d = match n.as_i64 {
                        Some(i) => i,
                        None => n.float_trunc,
                    };
                    if d > 0 {
                        Some(format_unix(d))
                    } else {
                        None
                    }
                },
                _ => None,
            };
            let ec = nonempty_str_of(o, "email_client");
            let co = nonempty_str_of(o, "country");
            let ip = nonempty_str_of(o, "ip");
            let url = nonempty_str_of(o, "original_url");
            if date.is_none() && ec.is_none() && co.is_none() && ip.is_none() && url.is_none() {
                return None;
            }
            let ghost parts_spec = opt_seq(ot(ec)) + opt_seq(ot(co)) + opt_seq(ot(ip));
            let mut parts: Vec<String> = Vec::new();
            if let Some(t) = ec {
                parts.push(t);
            }
            if let Some(t) = co {
                parts.push(t);
            }
            if let Some(t) = ip {
                parts.push(t);
            }
            proof {
                assert(texts(parts@) =~= parts_spec);
            }
            let meta = if parts.len() > 0 {
                Some(join_with_dots(&parts))
            } else {
                None
            };
            let u = match url {
                Some(t) => Some(truncate(t.as_str(), 80)),
                None => None,
            };
            Some(DetailLine::Event(date, meta, u))
        },
        _ => None,
    }
}

/// The lines of the opens or clicks of `a`, newest first.
fn push_events(a: &Vec<Json>, rows: &mut Vec<DetailLine>)
    ensures
        lines_view(final(rows)@) == lines_view(old(rows)@) + event_lines(sort_events(a@)),
{
    let sorted = sorted_events(a);
    let ghost d = derefs(sorted@);
    let mut i: usize = 0;
    proof {
        assert(lines_view(rows@) =~= lines_view(old(rows)@) + event_lines(d.take(0)));
    }
    while i < sorted.len()
        invariant
            i <= sorted@.len(),
            d == derefs(sorted@),
            d == sort_events(a@),
            lines_view(rows@) == lines_view(old(rows)@) + event_lines(d.take(i as int)),
        decreases sorted@.len() - i,
    {
        proof {
            assert(d.take(i + 1).drop_last() =~= d.take(i as int));
            assert(d.take(i + 1).last() == *sorted@[i as int]);
        }
        let ghost before = rows@;
        if let Some(l) = event_line(sorted[i]) {
            rows.push(l);
            proof {
                assert(lines_view(rows@) =~= lines_view(before).push(l@));
            }
        }
        proof {
            assert(lines_view(rows@) =~= lines_view(old(rows)@) + event_lines(d.take(i + 1)));
        }
        i = i + 1;
    }
    proof {
        assert(d.take(sorted@.len() as int) =~= d);
    }
}


// ───────────── the sections ─────────────

/// A field of a section: its label, the members tried in order, its format.
pub type FieldDef = (Seq<char>, Seq<Seq<char>>, FieldFmt);

/// The sections of the detail view, each a title and its fields.
pub open spec fn sections() -> Seq<(Seq<char>, Seq<FieldDef>)> {
    seq![
        ("Message"@, seq![
            ("Message-Id"@, seq!["message_id"@, "messageId"@, "msg_id"@, "msgId"@, "mid"@], FieldFmt::Id),
            ("Spam score"@, seq!["spamscore"@, "spam_score"@, "score"@], FieldFmt::Text),
        ]),
        ("Delivery"@, seq![
            ("Response"@, seq!["final_response"@, "finalResponse"@, "response"@, "reply"@, "smtp_response"@, "smtpResponse"@], FieldFmt::Text),
            ("Server"@, seq!["final_host"@, "finalHost"@, "final_mx"@, "finalMx"@, "host"@, "server"@, "mx"@, "smtp_host"@, "smtpHost"@], FieldFmt::Text),
            ("IP"@, seq!["final_ip"@, "finalIp"@, "ip"@, "remote_ip"@, "remoteIp"@, "client_ip"@], FieldFmt::Text),
            ("Protocol"@, seq!["final_protocol"@, "finalProtocol"@, "protocol"@, "proto"@, "transtype"@], FieldFmt::Text),
        ]),
        ("Source"@, seq![
            ("Sender"@, seq!["sender"@], FieldFmt::Text),
            ("Origin host"@, seq!["originhost"@], FieldFmt::Text),
            ("Source IP"@, seq!["src"@, "src_address"@, "srcAddress"@], FieldFmt::Text),
            ("User"@, seq!["user"@], FieldFmt::Text),
            ("Header From"@, seq!["headerFrom"@], FieldFmt::Text),
            ("Rule"@, seq!["rule_id"@, "ruleId"@, "rule"@], FieldFmt::Id),
            ("Zone"@, seq!["zone"@], FieldFmt::Text),
        ]),
        ("Engagement"@, seq![
            ("Opens"@, seq!["opens"@], FieldFmt::ArrayLen),
            ("Clicks"@, seq!["clicks"@], FieldFmt::ArrayLen),
            ("Actions"@, seq!["action_count"@, "actionCount"@], FieldFmt::Count),
            ("Complaints"@, seq!["complaint_count"@, "complaints"@], FieldFmt::Count),
            ("Bounces"@, seq!["bounce_count"@, "bounces"@], FieldFmt::Count),
        ]),
        ("Identifiers"@, seq![
            ("id"@, seq!["id"@], FieldFmt::Id),
            ("Receiver"@, seq!["receiver"@], FieldFmt::Text),
        ]),
    ]
}

/// The executable form of a field.
pub type FieldList = Vec<(&'static str, Vec<&'static str>, FieldFmt)>;

pub open spec fn fields_view(f: Seq<(&'static str, Vec<&'static str>, FieldFmt)>) -> Seq<FieldDef> {
    f.map_values(|x: (&'static str, Vec<&'static str>, FieldFmt)| (x.0@, key_texts(x.1@), x.2))
}

pub open spec fn sections_view(s: Seq<(&'static str, FieldList)>) -> Seq<(Seq<char>, Seq<FieldDef>)> {
    s.map_values(|x: (&'static str, FieldList)| (x.0@, fields_view(x.1@)))
}

fn section_list() -> (r: Vec<(&'static str, FieldList)>)
    ensures
        sections_view(r@) == sections(),
{
    let message: FieldList = vec![
        ("Message-Id", vec!["message_id", "messageId", "msg_id", "msgId", "mid"], FieldFmt::Id),
        ("Spam score", vec!["spamscore", "spam_score", "score"], FieldFmt::Text),
    ];
    let delivery: FieldList = vec![
        ("Response", vec!["final_response", "finalResponse", "response", "reply", "smtp_response", "smtpResponse"], FieldFmt::Text),
        ("Server", vec!["final_host", "finalHost", "final_mx", "finalMx", "host", "server", "mx", "smtp_host", "smtpHost"], FieldFmt::Text),
        ("IP", vec!["final_ip", "finalIp", "ip", "remote_ip", "remoteIp", "client_ip"], FieldFmt::Text),
        ("Protocol", vec!["final_protocol", "finalProtocol", "protocol", "proto", "transtype"], FieldFmt::Text),
    ];
    let source: FieldList = vec![
        ("Sender", vec!["sender"], FieldFmt::Text),
        ("Origin host", vec!["originhost"], FieldFmt::Text),
        ("Source IP", vec!["src", "src_address", "srcAddress"], FieldFmt::Text),
        ("User", vec!["user"], FieldFmt::Text),
        ("Header From", vec!["headerFrom"], FieldFmt::Text),
        ("Rule", vec!["rule_id", "ruleId", "rule"], FieldFmt::Id),
        ("Zone", vec!["zone"], FieldFmt::Text),
    ];
    let engagement: FieldList = vec![
        ("Opens", vec!["opens"], FieldFmt::ArrayLen),
        ("Clicks", vec!["clicks"], FieldFmt::ArrayLen),
        ("Actions", vec!["action_count", "actionCount"], FieldFmt::Count),
        ("Complaints", vec!["complaint_count", "complaints"], FieldFmt::Count),
        ("Bounces", vec!["bounce_count", "bounces"], FieldFmt::Count),
    ];
    let identifiers: FieldList = vec![
        ("id", vec!["id"], FieldFmt::Id),
        ("Receiver", vec!["receiver"], FieldFmt::Text),
    ];
    proof {
        assert(key_texts(message@[0].1@) =~= sections()[0].1[0].1);
        assert(key_texts(message@[1].1@) =~= sections()[0].1[1].1);
        assert(fields_view(message@) =~= sections()[0].1);
        assert(key_texts(delivery@[0].1@) =~= sections()[1].1[0].1);
        assert(key_texts(delivery@[1].1@) =~= sections()[1].1[1].1);
        assert(key_texts(delivery@[2].1@) =~= sections()[1].1[2].1);
        assert(key_texts(delivery@[3].1@) =~= sections()[1].1[3].1);
        assert(fields_view(delivery@) =~= sections()[1].1);
        assert(key_texts(source@[0].1@) =~= sections()[2].1[0].1);
        assert(key_texts(source@[1].1@) =~= sections()[2].1[1].1);
        assert(key_texts(source@[2].1@) =~= sections()[2].1[2].1);
        assert(key_texts(source@[3].1@) =~= sections()[2].1[3].1);
        assert(key_texts(source@[4].1@) =~= sections()[2].1[4].1);
        assert(key_texts(source@[5].1@) =~= sections()[2].1[5].1);
        assert(key_texts(source@[6].1@) =~= sections()[2].1[6].1);
        assert(fields_view(source@) =~= sections()[2].1);
        assert(key_texts(engagement@[0].1@) =~= sections()[3].1[0].1);
        assert(key_texts(engagement@[1].1@) =~= sections()[3].1[1].1);
        assert(key_texts(engagement@[2].1@) =~= sections()[3].1[2].1);
        assert(key_texts(engagement@[3].1@) =~= sections()[3].1[3].1);
        assert(key_texts(engagement@[4].1@) =~= sections()[3].1[4].1);
        assert(fields_view(engagement@) =~= sections()[3].1);
        assert(key_texts(identifiers@[0].1@) =~= sections()[4].1[0].1);
        assert(key_texts(identifiers@[1].1@) =~= sections()[4].1[1].1);
        assert(fields_view(identifiers@) =~= sections()[4].1);
    }
    let r = vec![
        ("Message", message),
        ("Delivery", delivery),
        ("Source", source),
        ("Engagement", engagement),
        ("Identifiers", identifiers),
    ];
    proof {
        assert(sections_view(r@) =~= sections());
    }
    r
}

/// The first of `keys` whose member holds an array, with the array.
pub open spec fn first_array(m: Seq<(String, Json)>, keys: Seq<Seq<char>>) -> Option<(Seq<char>, Seq<Json>)>
    decreases keys.len(),
{
    if keys.len() == 0 {
        None
    } else {
        match obj_get_spec(m, keys[0]) {
            Some(Json::Array(a)) => Some((keys[0], a@)),
            _ => first_array(m, keys.drop_first()),
        }
    }
}

/// The member a field shows and its text: for a count of items, the first
/// array and its length; otherwise the first non-empty string or number.
pub open spec fn resolve_field(m: Seq<(String, Json)>, keys: Seq<Seq<char>>, fmt: FieldFmt) -> Option<(Seq<char>, Seq<char>)> {
    if fmt == FieldFmt::ArrayLen {
        match first_array(m, keys) {
            Some((k, a)) => Some((k, digits_of(a.len()))),
            None => None,
        }
    } else {
        first_scalar(m, keys)
    }
}

/// One field of a section: skipped when its member was already shown or it
/// has none; otherwise its member counts as shown, and unless its value is
/// trivial (a zero count) it gives a line, followed for opens and clicks by
/// one line per event, newest first.
pub open spec fn field_step(m: Seq<(String, Json)>, acc: Acc, fd: FieldDef) -> Acc {
    match resolve_field(m, fd.1, fd.2) {
        None => acc,
        Some((k, v)) => if acc.1.contains(k) || v.len() == 0 {
            acc
        } else {
            let shown = acc.1.push(k);
            if is_trivial_spec(v, fd.2) {
                (acc.0, shown)
            } else {
                let rows = acc.0.push(prop_line(fd.0, v, fd.2, 16));
                if fd.2 == FieldFmt::ArrayLen {
                    {
                        let found = first_array(m, fd.1)->0;
                        (rows + event_lines(sort_events(found.1)), shown)
                    }
                } else {
                    (rows, shown)
                }
            }
        },
    }
}

/// The fields of a section, in order.
pub open spec fn fields_fold(m: Seq<(String, Json)>, acc: Acc, fs: Seq<FieldDef>) -> Acc
    decreases fs.len(),
{
    if fs.len() == 0 {
        acc
    } else {
        fields_fold(m, field_step(m, acc, fs[0]), fs.drop_first())
    }
}

/// A section: its title, its lines and a blank line, when any field gave a line.
pub open spec fn section_step(m: Seq<(String, Json)>, acc: Acc, sec: (Seq<char>, Seq<FieldDef>)) -> Acc {
    let r = fields_fold(m, (Seq::empty(), acc.1), sec.1);
    if r.0.len() > 0 {
        (acc.0 + seq![LineV::Heading(sec.0)] + r.0 + seq![LineV::Blank], r.1)
    } else {
        (acc.0, r.1)
    }
}

/// The sections, in order.
pub open spec fn sections_fold(m: Seq<(String, Json)>, acc: Acc, ss: Seq<(Seq<char>, Seq<FieldDef>)>) -> Acc
    decreases ss.len(),
{
    if ss.len() == 0 {
        acc
    } else {
        sections_fold(m, section_step(m, acc, ss[0]), ss.drop_first())
    }
}

/// The first of `keys` whose member holds an array: the key's position and
/// the member's position.
fn first_array_at(m: &Vec<(String, Json)>, keys: &Vec<&'static str>) -> (r: Option<(usize, usize)>)
    ensures
        match first_array(m@, key_texts(keys@)) {
            Some((k, a)) => r matches Some((i, j)) && i < keys@.len() && keys@[i as int]@ == k && j < m@.len()
                && (m@[j as int].1 matches Json::Array(x) && x@ == a),
            None => r is None,
        },
{
    let ghost ks = key_texts(keys@);
    let mut i: usize = 0;
    proof {
        assert(ks.skip(0) =~= ks);
    }
    while i < keys.len()
        invariant
            i <= keys@.len(),
            ks == key_texts(keys@),
            first_array(m@, ks) == first_array(m@, ks.skip(i as int)),
        decreases keys@.len() - i,
    {
        proof {
            assert(ks.skip(i as int).drop_first() =~= ks.skip(i + 1));
            assert(ks.skip(i as int)[0] == keys@[i as int]@);
        }
        if let Some(j) = crate::json::obj_index(m, keys[i]) {
            if let Json::Array(_) = &m[j].1 {
                return Some((i, j));
            }
        }
        i = i + 1;
    }
    proof {
        assert(ks.skip(i as int) =~= Seq::<Seq<char>>::empty());
    }
    None
}

/// Whether `shown` holds `k`.
fn shown_has(shown: &Vec<String>, k: &str) -> (r: bool)
    ensures
        r == texts(shown@).contains(k@),
{
    let mut i: usize = 0;
    while i < shown.len()
        invariant
            i <= shown@.len(),
            forall|j: int| 0 <= j < i ==> shown@[j]@ != k@,
        decreases shown@.len() - i,
    {
        if crate::text::str_eq(shown[i].as_str(), k) {
            proof {
                assert(texts(shown@)[i as int] == k@);
            }
            return true;
        }
        i = i + 1;
    }
    proof {
        if texts(shown@).contains(k@) {
            let j = choose|j: int| 0 <= j < texts(shown@).len() && texts(shown@)[j] == k@;
            assert(shown@[j]@ == k@);
        }
    }
    false
}

/// Adds one field's lines (see `field_step`).
fn push_field(
    m: &Vec<(String, Json)>,
    rows: &mut Vec<DetailLine>,
    shown: &mut Vec<String>,
    label: &str,
    keys: &Vec<&'static str>,
    fmt: FieldFmt,
)
    ensures
        (lines_view(final(rows)@), texts(final(shown)@)) == field_step(
            m@,
            (lines_view(old(rows)@), texts(old(shown)@)),
            (label@, key_texts(keys@), fmt),
        ),
{
    let resolved: Option<(String, String)> = if fmt == FieldFmt::ArrayLen {
        match first_array_at(m, keys) {
            Some((i, j)) => {
                let n = match &m[j].1 {
                    Json::Array(a) => a.len(),
                    _ => 0,
                };
                let mut d: Vec<char> = Vec::new();
                crate::text::push_digits(&mut d, n as u64);
                Some((owned(keys[i]), string_of(&d)))
            },
            None => None,
        }
    } else {
        field_str_with_key(m, keys.as_slice())
    };
    match resolved {
        None => {},
        Some((k, v)) => {
            if shown_has(shown, k.as_str()) || v.as_str().is_empty() {
                return;
            }
            let ghost k0 = k@;
            shown.push(k);
            proof {
                assert(texts(shown@) =~= texts(old(shown)@).push(k0));
            }
            if is_trivial_value(v.as_str(), fmt) {
                return;
            }
            let ghost vv = v@;
            rows.push(DetailLine::Prop(padded(label, 16), v, fmt));
            proof {
                assert(lines_view(rows@) =~= lines_view(old(rows)@).push(prop_line(label@, vv, fmt, 16)));
            }
            if fmt == FieldFmt::ArrayLen {
                if let Some((_, j)) = first_array_at(m, keys) {
                    if let Json::Array(a) = &m[j].1 {
                        push_events(a, rows);
                    }
                }
            }
        },
    }
}

/// Adds one section (see `section_step`).
fn push_section(
    m: &Vec<(String, Json)>,
    lines: &mut Vec<DetailLine>,
    shown: &mut Vec<String>,
    title: &str,
    fields: &FieldList,
)
    ensures
        (lines_view(final(lines)@), texts(final(shown)@)) == section_step(
            m@,
            (lines_view(old(lines)@), texts(old(shown)@)),
            (title@, fields_view(fields@)),
        ),
{
    let ghost fs = fields_view(fields@);
    let mut rows: Vec<DetailLine> = Vec::new();
    let mut i: usize = 0;
    proof {
        assert(fs.skip(0) =~= fs);
        assert(lines_view(rows@) =~= Seq::<LineV>::empty());
    }
    while i < fields.len()
        invariant
            i <= fields@.len(),
            fs == fields_view(fields@),
            fields_fold(m@, (Seq::empty(), texts(old(shown)@)), fs)
                == fields_fold(m@, (lines_view(rows@), texts(shown@)), fs.skip(i as int)),
        decreases fields@.len() - i,
    {
        proof {
            assert(fs.skip(i as int).drop_first() =~= fs.skip(i + 1));
            assert(fs.skip(i as int)[0] == (fields@[i as int].0@, key_texts(fields@[i as int].1@), fields@[i as int].2));
        }
        push_field(m, &mut rows, shown, fields[i].0, &fields[i].1, fields[i].2);
        i = i + 1;
    }
    proof {
        assert(fs.skip(i as int) =~= Seq::<FieldDef>::empty());
    }
    if rows.len() > 0 {
        let ghost before = lines@;
        let ghost rows_v = lines_view(rows@);
        lines.push(DetailLine::Heading(owned(title)));
        let ghost with_heading = lines@;
        lines.append(&mut rows);
        proof {
            assert(lines_view(lines@) =~= lines_view(with_heading) + rows_v);
        }
        lines.push(DetailLine::Blank);
        proof {
            assert(lines_view(with_heading) =~= lines_view(before).push(LineV::Heading(title@)));
            assert(lines_view(lines@) =~= lines_view(before) + seq![LineV::Heading(title@)] + rows_v + seq![LineV::Blank]);
        }
    }
}

/// Adds every section (see `sections_fold`).
fn push_sections(m: &Vec<(String, Json)>, lines: &mut Vec<DetailLine>, shown: &mut Vec<String>)
    ensures
        (lines_view(final(lines)@), texts(final(shown)@)) == sections_fold(
            m@,
            (lines_view(old(lines)@), texts(old(shown)@)),
            sections(),
        ),
{
    let list = section_list();
    let ghost ss = sections();
    let mut i: usize = 0;
    proof {
        assert(ss.skip(0) =~= ss);
    }
    while i < list.len()
        invariant
            i <= list@.len(),
            ss == sections_view(list@),
            sections_fold(m@, (lines_view(old(lines)@), texts(old(shown)@)), ss)
                == sections_fold(m@, (lines_view(lines@), texts(shown@)), ss.skip(i as int)),
        decreases list@.len() - i,
    {
        proof {
            assert(ss.skip(i as int).drop_first() =~= ss.skip(i + 1));
            assert(ss.skip(i as int)[0] == (list@[i as int].0@, fields_view(list@[i as int].1@)));
        }
        push_section(m, lines, shown, list[i].0, &list[i].1);
        i = i + 1;
    }
    proof {
        assert(ss.skip(i as int) =~= Seq::<(Seq<char>, Seq<FieldDef>)>::empty());
    }
}


// ───────────── every other member ─────────────

/// A value that counts as empty: null, or an empty string, array or object.
pub open spec fn empty_json(v: Json) -> bool {
    match v {
        Json::Null => true,
        Json::Str(s) => s@.len() == 0,
        Json::Array(a) => a@.len() == 0,
        Json::Object(o) => o@.len() == 0,
        _ => false,
    }
}

/// The members not yet shown whose values are not empty, in order.
pub open spec fn kept(m: Seq<(String, Json)>, shown: Seq<Seq<char>>) -> Seq<(String, Json)>
    decreases m.len(),
{
    if m.len() == 0 {
        Seq::empty()
    } else {
        kept(m.drop_last(), shown) + if !shown.contains(m.last().0@) && !empty_json(m.last().1) {
            seq![m.last()]
        } else {
            Seq::empty()
        }
    }
}

/// The first position in `s` whose key sorts after `k` (else the end).
pub open spec fn first_after(s: Seq<(String, Json)>, k: Seq<char>) -> int
    decreases s.len(),
{
    if s.len() == 0 {
        0
    } else if text_lt(k, s[0].0@) {
        0
    } else {
        1 + first_after(s.drop_first(), k)
    }
}

/// Members sorted by key; equal keys keep their order.
pub open spec fn sort_members(s: Seq<(String, Json)>) -> Seq<(String, Json)>
    decreases s.len(),
{
    if s.len() == 0 {
        Seq::empty()
    } else {
        let t = sort_members(s.drop_last());
        t.insert(first_after(t, s.last().0@), s.last())
    }
}

/// A string value cut after 200 bytes, with `…`.
pub open spec fn cut_text(s: Seq<char>) -> Seq<char> {
    let b = encode_utf8(s);
    if b.len() > 200 { decode_utf8(b.take(200)) + seq!['…'] } else { s }
}

/// The line of another member: its key cut to 15 characters and padded to
/// 16, then its value.
pub open spec fn other_line(x: (String, Json)) -> LineV {
    let label = pad_right(truncate_spec(x.0@, 15), 16);
    match x.1 {
        Json::Bool(b) => LineV::OtherBool(label, b),
        Json::Number(n) => LineV::OtherNumber(label, n.text@),
        Json::Str(t) => LineV::OtherText(label, cut_text(t@)),
        _ => LineV::OtherJson(label, x.1.view_deep()),
    }
}

/// The `Other` section: every member not yet shown with a non-empty value,
/// in key order, when there is any.
pub open spec fn other_lines(m: Seq<(String, Json)>, shown: Seq<Seq<char>>) -> Seq<LineV> {
    let s = sort_members(kept(m, shown));
    if s.len() == 0 {
        Seq::empty()
    } else {
        seq![LineV::Heading("Other"@)] + s.map_values(|x: (String, Json)| other_line(x)) + seq![LineV::Blank]
    }
}

/// A string longer than 200 bytes can be cut there: byte 200 starts a
/// character.
pub open spec fn cuttable(x: (String, Json)) -> bool {
    x.1 matches Json::Str(t) ==> (encode_utf8(t@).len() <= 200 || is_char_boundary(encode_utf8(t@), 200))
}

pub open spec fn deref_members(v: Seq<&(String, Json)>) -> Seq<(String, Json)> {
    v.map_values(|x: &(String, Json)| *x)
}

fn empty_value(v: &Json) -> (r: bool)
    ensures
        r == empty_json(*v),
{
    match v {
        Json::Null => true,
        Json::Str(t) => t.as_str().is_empty(),
        Json::Array(a) => a.len() == 0,
        Json::Object(o) => o.len() == 0,
        _ => false,
    }
}

fn first_after_in(out: &Vec<&(String, Json)>, k: &str) -> (p: usize)
    ensures
        p as int == first_after(deref_members(out@), k@),
        p <= out@.len(),
{
    let ghost d = deref_members(out@);
    let mut i: usize = 0;
    proof {
        assert(d.skip(0) =~= d);
    }
    while i < out.len()
        invariant
            i <= out@.len(),
            d == deref_members(out@),
            first_after(d, k@) == i + first_after(d.skip(i as int), k@),
        decreases out@.len() - i,
    {
        proof {
            assert(d.skip(i as int).drop_first() =~= d.skip(i + 1));
            assert(d.skip(i as int)[0] == *out@[i as int]);
        }
        if text_less(k, out[i].0.as_str()) {
            return i;
        }
        i = i + 1;
    }
    proof {
        assert(d.skip(i as int) =~= Seq::<(String, Json)>::empty());
    }
    i
}

/// The members to list under `Other`, sorted by key.
fn sorted_kept<'a>(m: &'a Vec<(String, Json)>, shown: &Vec<String>) -> (r: Vec<&'a (String, Json)>)
    ensures
        deref_members(r@) == sort_members(kept(m@, texts(shown@))),
{
    let ghost sh = texts(shown@);
    let mut out: Vec<&(String, Json)> = Vec::new();
    let mut i: usize = 0;
    proof {
        assert(deref_members(out@) =~= sort_members(kept(m@.take(0), sh)));
    }
    while i < m.len()
        invariant
            i <= m@.len(),
            sh == texts(shown@),
            deref_members(out@) == sort_members(kept(m@.take(i as int), sh)),
        decreases m@.len() - i,
    {
        let x: &(String, Json) = &m[i];
        proof {
            assert(m@.take(i + 1).drop_last() =~= m@.take(i as int));
            assert(m@.take(i + 1).last() == m@[i as int]);
        }
        if !shown_has(shown, x.0.as_str()) && !empty_value(&x.1) {
            let p = first_after_in(&out, x.0.as_str());
            let ghost before = out@;
            out.insert(p, x);
            proof {
                assert(kept(m@.take(i + 1), sh) =~= kept(m@.take(i as int), sh).push(m@[i as int]));
                assert(kept(m@.take(i + 1), sh).drop_last() =~= kept(m@.take(i as int), sh));
                assert(kept(m@.take(i + 1), sh).last() == m@[i as int]);
                assert(sort_members(kept(m@.take(i + 1), sh)) == sort_members(kept(m@.take(i as int), sh)).insert(
                    first_after(sort_members(kept(m@.take(i as int), sh)), m@[i as int].0@), m@[i as int]));
                assert(deref_members(out@) =~= deref_members(before).insert(p as int, m@[i as int]));
            }
        } else {
            proof {
                assert(kept(m@.take(i + 1), sh) =~= kept(m@.take(i as int), sh));
            }
        }
        i = i + 1;
    }
    proof {
        assert(m@.take(m@.len() as int) =~= m@);
    }
    out
}

/// A string value cut after 200 bytes (see `cut_text`).
fn cut_string(t: &String) -> (r: String)
    requires
        encode_utf8(t@).len() <= 200 || is_char_boundary(encode_utf8(t@), 200),
    ensures
        r@ == cut_text(t@),
{
    let s = t.as_str();
    if s.as_bytes().len() <= 200 {
        return t.clone();
    }
    let (head, _rest) = s.split_at(200);
    let mut out = chars_of(head);
    out.push('…');
    proof {
        vstd::utf8::encode_utf8_decode_utf8(head@);
        assert(encode_utf8(head@) =~= encode_utf8(t@).take(200));
        assert(out@ =~= cut_text(t@));
    }
    string_of(&out)
}

/// The line of another member (see `other_line`).
fn other_line_of(x: &(String, Json)) -> (r: DetailLine)
    requires
        cuttable(*x),
    ensures
        r@ == other_line(*x),
{
    let label = padded(truncate(x.0.as_str(), 15).as_str(), 16);
    match &x.1 {
        Json::Bool(b) => DetailLine::OtherBool(label, *b),
        Json::Number(n) => DetailLine::OtherNumber(label, n.text.clone()),
        Json::Str(t) => DetailLine::OtherText(label, cut_string(t)),
        _ => DetailLine::OtherJson(label, x.1.deep_copy()),
    }
}

/// Adds the `Other` section (see `other_lines`).
fn push_others(m: &Vec<(String, Json)>, lines: &mut Vec<DetailLine>, shown: &Vec<String>)
    requires
        forall|i: int| 0 <= i < kept(m@, texts(shown@)).len() ==> cuttable(#[trigger] kept(m@, texts(shown@))[i]),
    ensures
        lines_view(final(lines)@) == lines_view(old(lines)@) + other_lines(m@, texts(shown@)),
{
    let sorted = sorted_kept(m, shown);
    let ghost d = deref_members(sorted@);
    let ghost ks = kept(m@, texts(shown@));
    if sorted.len() == 0 {
        proof {
            assert(other_lines(m@, texts(shown@)) =~= Seq::<LineV>::empty());
            assert(lines_view(lines@) =~= lines_view(old(lines)@) + other_lines(m@, texts(shown@)));
        }
        return;
    }
    proof {
        lemma_sort_members_perm(ks);
    }
    lines.push(DetailLine::Heading(owned("Other")));
    let ghost start = lines@;
    let mut i: usize = 0;
    proof {
        assert(lines_view(lines@) =~= lines_view(start) + d.take(0).map_values(|x: (String, Json)| other_line(x)));
    }
    while i < sorted.len()
        invariant
            i <= sorted@.len(),
            d == deref_members(sorted@),
            d == sort_members(ks),
            forall|j: int| 0 <= j < d.len() ==> cuttable(#[trigger] d[j]),
            lines_view(lines@) == lines_view(start) + d.take(i as int).map_values(|x: (String, Json)| other_line(x)),
        decreases sorted@.len() - i,
    {
        let ghost before = lines@;
        assert(cuttable(d[i as int]));
        let l = other_line_of(sorted[i]);
        lines.push(l);
        proof {
            assert(d.take(i + 1).map_values(|x: (String, Json)| other_line(x))
                =~= d.take(i as int).map_values(|x: (String, Json)| other_line(x)).push(other_line(d[i as int])));
            assert(lines_view(lines@) =~= lines_view(before).push(other_line(d[i as int])));
        }
        i = i + 1;
    }
    let ghost before_blank = lines@;
    lines.push(DetailLine::Blank);
    proof {
        assert(lines_view(lines@) =~= lines_view(before_blank).push(LineV::Blank));
        assert(d.take(d.len() as int) =~= d);
        assert(d.take(d.len() as int).map_values(|x: (String, Json)| other_line(x)) =~= d.map_values(|x: (String, Json)| other_line(x)));
        assert(sort_members(kept(m@, texts(shown@))).len() > 0);
        assert(lines_view(start) =~= lines_view(old(lines)@).push(LineV::Heading("Other"@)));
        assert(lines_view(lines@) =~= lines_view(old(lines)@) + other_lines(m@, texts(shown@)));
    }
}

/// Every member of the sorted list is a member of the list sorted.
proof fn lemma_sort_members_perm(s: Seq<(String, Json)>)
    ensures
        sort_members(s).len() == s.len(),
        forall|j: int| 0 <= j < s.len() ==> exists|t: int| 0 <= t < s.len() && #[trigger] sort_members(s)[j] == s[t],
    decreases s.len(),
{
    if s.len() > 0 {
        let t = sort_members(s.drop_last());
        lemma_sort_members_perm(s.drop_last());
        lemma_first_after_bound(t, s.last().0@);
        let p = first_after(t, s.last().0@);
        assert forall|j: int| 0 <= j < s.len() implies exists|u: int| 0 <= u < s.len() && #[trigger] sort_members(s)[j] == s[u] by {
            if j < p {
                assert(sort_members(s)[j] == t[j]);
                let u = choose|u: int| 0 <= u < s.drop_last().len() && t[j] == s.drop_last()[u];
                assert(s[u] == t[j]);
            } else if j == p {
                assert(sort_members(s)[j] == s[s.len() - 1]);
            } else {
                assert(sort_members(s)[j] == t[j - 1]);
                let u = choose|u: int| 0 <= u < s.drop_last().len() && t[j - 1] == s.drop_last()[u];
                assert(s[u] == t[j - 1]);
            }
        }
    }
}

proof fn lemma_first_after_bound(s: Seq<(String, Json)>, k: Seq<char>)
    ensures
        0 <= first_after(s, k) <= s.len(),
    decreases s.len(),
{
    if s.len() > 0 && !text_lt(k, s[0].0@) {
        lemma_first_after_bound(s.drop_first(), k);
    }
}


// ───────────── the whole view ─────────────

/// The state after the banner, the sender/recipient/subject lines and the
/// sections.
pub open spec fn before_other(m: Seq<(String, Json)>, kind: LogKind, now: i64) -> Acc {
    sections_fold(m, triple_lines(m, banner_lines(m, kind, now)), sections())
}

/// The detail view of a log object: the banner block, the sender, recipient
/// and subject, the sections, then every other member.
pub open spec fn detail_spec(m: Seq<(String, Json)>, kind: LogKind, now: i64) -> Seq<LineV> {
    before_other(m, kind, now).0 + other_lines(m, before_other(m, kind, now).1)
}

/// The lines of the detail view of a log entry (see `detail_spec`), seen at
/// time `now` (Unix seconds); nothing for a value that is not an object,
/// which is shown as JSON instead. A long string member listed under `Other`
/// is cut after 200 bytes, so byte 200 must start a character.
pub fn build_entry_lines(raw: &Json, kind: LogKind, now: i64) -> (r: Option<Vec<DetailLine>>)
    requires
        raw matches Json::Object(m) ==> forall|i: int|
            0 <= i < kept(m@, before_other(m@, kind, now).1).len() ==> cuttable(
                #[trigger] kept(m@, before_other(m@, kind, now).1)[i],
            ),
    ensures
        match raw {
            Json::Object(m) => r is Some && lines_view(r->0@) == detail_spec(m@, kind, now),
            _ => r is None,
        },
        raw matches Json::Object(m) ==> (first_scalar(m@, to_keys()) is Some && (first_scalar(m@, to_keys())->0).1.len() > 0
            ==> exists|i: int| 0 <= i < r->0@.len() && #[trigger] lines_view(r->0@)[i] == LineV::Prop(
                pad_right("To"@, 9),
                (first_scalar(m@, to_keys())->0).1,
                FieldFmt::Text,
            )),
{
    match raw {
        Json::Object(m) => {

            let mut lines: Vec<DetailLine> = Vec::new();
            let mut shown: Vec<String> = Vec::new();
            push_banner(m, kind, now, &mut lines, &mut shown);
            proof {
                assert((lines_view(lines@), texts(shown@)) == banner_lines(m@, kind, now));
            }
            push_triples(m, &mut lines, &mut shown);
            push_sections(m, &mut lines, &mut shown);
            proof {
                assert((lines_view(lines@), texts(shown@)) == before_other(m@, kind, now));
                assert(texts(shown@) == before_other(m@, kind, now).1);
                assert(kept(m@, texts(shown@)) == kept(m@, before_other(m@, kind, now).1));
            }
            push_others(m, &mut lines, &shown);
            proof {
                let to = first_scalar(m@, to_keys());
                if to is Some && (to->0).1.len() > 0 {
                    lemma_detail_shows_recipient(m@, kind, now);
                    let d = detail_spec(m@, kind, now);
                    let i = choose|i: int| 0 <= i < d.len() && #[trigger] d[i] == LineV::Prop(
                        pad_right("To"@, 9),
                        (to->0).1,
                        FieldFmt::Text,
                    );
                    assert(lines_view(lines@) == d);
                    assert(lines_view(lines@).len() == lines@.len());
                    assert(lines_view(lines@)[i] == d[i]);
                    assert(exists|j: int| 0 <= j < lines@.len() && #[trigger] lines_view(lines@)[j] == LineV::Prop(
                        pad_right("To"@, 9),
                        (to->0).1,
                        FieldFmt::Text,
                    ));
                }
            }
            Some(lines)
        },
        _ => None,
    }
}

/// One row of the log list.
pub struct EntryRow {
    /// The time, or `—`.
    pub when: String,
    /// The status cut and padded to 14 characters, with its color.
    pub status: Option<(String, StatusColor)>,
    /// The sender, cut to 30 characters.
    pub from: Option<String>,
    /// The recipient, cut to 30 characters.
    pub to: Option<String>,
    /// The subject, cut to 60 characters.
    pub subject: Option<String>,
}

/// The row of a log entry: its time (else `—`), its status (cut and padded to
/// 14, colored by the whole status), its sender and recipient (cut to 30) and
/// subject (cut to 60); only the dash for a value that is not an object.
pub open spec fn row_spec(raw: Json, kind: LogKind) -> (Seq<char>, Option<(Seq<char>, StatusColor)>, Option<Seq<char>>, Option<Seq<char>>, Option<Seq<char>>) {
    match raw {
        Json::Object(m) => (
            match crate::tui::detail::time_with_key_spec(m@) {
                Some((_, t)) => t,
                None => "—"@,
            },
            match first_scalar(m@, status_keys(kind)) {
                Some((_, v)) => Some((pad_right(truncate_spec(v, 14), 14), status_color_spec(v))),
                None => None,
            },
            match first_scalar(m@, from_keys()) {
                Some((_, v)) => Some(truncate_spec(v, 30)),
                None => None,
            },
            match first_scalar(m@, to_keys()) {
                Some((_, v)) => Some(truncate_spec(v, 30)),
                None => None,
            },
            match first_scalar(m@, subject_keys()) {
                Some((_, v)) => Some(truncate_spec(v, 60)),
                None => None,
            },
        ),
        _ => ("—"@, None, None, None, None),
    }
}

pub open spec fn row_view(r: EntryRow) -> (Seq<char>, Option<(Seq<char>, StatusColor)>, Option<Seq<char>>, Option<Seq<char>>, Option<Seq<char>>) {
    (
        r.when@,
        match r.status {
            Some((t, c)) => Some((t@, c)),
            None => None,
        },
        ot(r.from),
        ot(r.to),
        ot(r.subject),
    )
}

/// The first of `keys`'s text cut to `max` characters.
fn cut_field(m: &Vec<(String, Json)>, keys: &[&str], max: usize) -> (r: Option<String>)
    ensures
        ot(r) == match first_scalar(m@, key_texts(keys@)) {
            Some((_, v)) => Some(truncate_spec(v, max as nat)),
            None => None,
        },
{
    match crate::tui::detail::field_str(m, keys) {
        Some(v) => Some(truncate(v.as_str(), max)),
        None => None,
    }
}

/// The row of a log entry in the list (see `row_spec`).
pub fn render_entry_row(raw: &Json, kind: LogKind) -> (r: EntryRow)
    ensures
        row_view(r) == row_spec(*raw, kind),
{
    match raw {
        Json::Object(m) => {
            let when = match crate::tui::detail::field_time(m) {
                Some(t) => t,
                None => owned("—"),
            };
            let status = match crate::tui::detail::field_status(m, kind) {
                Some(v) => Some((padded(truncate(v.as_str(), 14).as_str(), 14), status_color(v.as_str()))),
                None => None,
            };
            let fk = from_key_list();
            let tk = to_key_list();
            let sk = subject_key_list();
            EntryRow {
                when,
                status,
                from: cut_field(m, &fk, 30),
                to: cut_field(m, &tk, 30),
                subject: cut_field(m, &sk, 60),
            }
        },
        _ => EntryRow { when: owned("—"), status: None, from: None, to: None, subject: None },
    }
}


/// How an array or object listed under `Other` is shown.
pub enum JsonShape {
    /// Its compact JSON text, after the label.
    Inline(String),
    /// The label alone, then these lines.
    Block(Vec<String>),
}

/// The lines under the label of a long array or object: each line of its
/// pretty JSON text, indented by twenty spaces (the label width and four).
pub open spec fn json_block_lines(pretty: Seq<char>) -> Seq<Seq<char>> {
    lines_spec(pretty).map_values(|l: Seq<char>| repeat_spec(' ', 20) + l)
}

/// The shape of an array or object listed under `Other`, from its compact
/// and pretty JSON texts: inline when the compact text is at most 160
/// bytes, else a block of the pretty text's lines.
pub fn json_shape(compact: &str, pretty: &str) -> (r: JsonShape)
    ensures
        encode_utf8(compact@).len() <= 160 ==> (r matches JsonShape::Inline(t) && t@ == compact@),
        encode_utf8(compact@).len() > 160 ==> (r matches JsonShape::Block(ls) && ls@.map_values(|x: String| x@)
            == json_block_lines(pretty@)),
{
    let n = compact.as_bytes().len();
    if n <= 160 {
        return JsonShape::Inline(owned(compact));
    }
    let lines = text_lines(pretty);
    let ghost ls = lines_spec(pretty@);
    let mut out: Vec<String> = Vec::new();
    let mut i: usize = 0;
    while i < lines.len()
        invariant
            i <= lines@.len(),
            lines@.map_values(|x: String| x@) == ls,
            out@.len() == i,
            forall|k: int| 0 <= k < i ==> (#[trigger] out@[k])@ == repeat_spec(' ', 20) + ls[k],
        decreases lines@.len() - i,
    {
        let mut row = crate::text::repeat_char(' ', 20);
        push_str(&mut row, lines[i].as_str());
        proof {
            assert(lines@[i as int]@ == ls[i as int]);
        }
        out.push(string_of(&row));
        i = i + 1;
    }
    proof {
        assert(out@.map_values(|x: String| x@) =~= json_block_lines(pretty@));
    }
    JsonShape::Block(out)
}

/// The lines shown for a log value that is not an object: its pretty JSON
/// text, line by line.
pub fn raw_lines(pretty: &str) -> (r: Vec<String>)
    ensures
        r@.map_values(|x: String| x@) == lines_spec(pretty@),
{
    text_lines(pretty)
}

} // verus!
