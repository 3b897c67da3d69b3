//! The live log tail: which entries it shows, how it filters and selects
//! them, how keys and mouse events drive it, and how it formats times,
//! sizes and identifiers.

use std::collections::hash_map::DefaultHasher;
use std::hash::Hasher;
use vstd::std_specs::hash::DefaultHasherAdditionalSpecFns;

use vstd::prelude::*;

use crate::text::{
    byte_range, chars_of, digits_of, int_chars, int_text, magnitude, owned, padded_int_chars, padded_int_text, parse_i64,
    parse_i64_spec, push_all, push_digits, push_str, string_of, subvec, utf8_text,
};
use vstd::utf8::{decode_utf8, encode_utf8, valid_utf8};

use crate::json::{obj_get, obj_get_spec, Json};
use crate::text::{contains_chars, contains_seq, lowercase, push_hex, to_lower};

verus! {

/// Which logs endpoint is tailed.
#[derive(Debug, Clone, Copy, PartialEq, Eq, Structural)]
pub enum LogKind {
    Inbound,
    Outbound,
    Account,
}

pub open spec fn log_kind_label(k: LogKind) -> Seq<char> {
    match k {
        LogKind::Inbound => "inbound"@,
        LogKind::Outbound => "outbound"@,
        LogKind::Account => "account"@,
    }
}

impl LogKind {
    /// The endpoint's name as shown in the title bar.
    pub fn label(self) -> (r: &'static str)
        ensures
            r@ == log_kind_label(self),
    {
        match self {
            LogKind::Inbound => "inbound",
            LogKind::Outbound => "outbound",
            LogKind::Account => "account",
        }
    }
}

/// Poll interval (seconds) and the most entries kept.
pub struct TailOpts {
    pub poll_secs: u64,
    pub buffer: usize,
}

/// How a detail-view value is formatted.
#[derive(Debug, Clone, Copy, PartialEq, Eq, Structural)]
pub enum FieldFmt {
    Text,
    Time,
    Size,
    Count,
    ArrayLen,
    Id,
}

pub open spec fn is_trivial_spec(value: Seq<char>, fmt: FieldFmt) -> bool {
    match fmt {
        FieldFmt::Count | FieldFmt::ArrayLen => value == "0"@ || value == ""@,
        FieldFmt::Size => value == "0 B"@ || value == "0"@,
        _ => false,
    }
}

/// Whether a formatted value is too trivial to show (a zero count or size).
pub fn is_trivial_value(value: &str, fmt: FieldFmt) -> (r: bool)
    ensures
        r == is_trivial_spec(value@, fmt),
{
    match fmt {
        FieldFmt::Count | FieldFmt::ArrayLen => crate::text::str_eq(value, "0") || crate::text::str_eq(value, ""),
        FieldFmt::Size => crate::text::str_eq(value, "0 B") || crate::text::str_eq(value, "0"),
        _ => false,
    }
}

/// `d` with a `,` between each group of three digits, counted from the right.
pub open spec fn group_thousands(d: Seq<char>) -> Seq<char>
    decreases d.len(),
{
    if d.len() <= 3 {
        d
    } else {
        group_thousands(d.take(d.len() - 3)) + seq![','] + d.skip(d.len() - 3)
    }
}

fn push_grouped(out: &mut Vec<char>, d: &Vec<char>, end: usize)
    requires
        end <= d.len(),
    ensures
        final(out)@ == old(out)@ + group_thousands(d@.take(end as int)),
    decreases end,
{
    if end <= 3 {
        let head = subvec(d, 0, end);
        push_all(out, &head);
        proof {
            assert(head@ =~= d@.take(end as int));
        }
    } else {
        push_grouped(out, d, end - 3);
        out.push(',');
        let tail = subvec(d, end - 3, end);
        push_all(out, &tail);
        proof {
            let t = d@.take(end as int);
            assert(t.take(t.len() - 3) =~= d@.take(end - 3));
            assert(t.skip(t.len() - 3) =~= tail@);
        }
    }
}

/// Only decimal digits.
pub open spec fn digit_run(s: Seq<char>) -> bool {
    forall|i: int| 0 <= i < s.len() ==> '0' <= #[trigger] s[i] <= '9'
}

/// `s` with its commas taken out.
pub open spec fn without_commas(s: Seq<char>) -> Seq<char>
    decreases s.len(),
{
    if s.len() == 0 {
        s
    } else if s.last() == ',' {
        without_commas(s.drop_last())
    } else {
        without_commas(s.drop_last()).push(s.last())
    }
}

/// Groups of digits joined by `,`: one to three digits first, then groups
/// of exactly three.
pub open spec fn well_grouped(s: Seq<char>) -> bool
    decreases s.len(),
{
    if s.len() >= 4 && s[s.len() - 4] == ',' {
        digit_run(s.skip(s.len() - 3)) && well_grouped(s.take(s.len() - 4))
    } else {
        1 <= s.len() <= 3 && digit_run(s)
    }
}

proof fn lemma_without_commas_add(a: Seq<char>, b: Seq<char>)
    ensures
        without_commas(a + b) == without_commas(a) + without_commas(b),
    decreases b.len(),
{
    if b.len() == 0 {
        assert(a + b =~= a);
        assert(without_commas(a) + without_commas(b) =~= without_commas(a));
    } else {
        lemma_without_commas_add(a, b.drop_last());
        assert((a + b).drop_last() =~= a + b.drop_last());
        assert((a + b).last() == b.last());
        if b.last() == ',' {
        } else {
            assert(without_commas(a) + without_commas(b) =~= (without_commas(a) + without_commas(b.drop_last())).push(b.last()));
        }
    }
}

proof fn lemma_without_commas_digits(d: Seq<char>)
    requires
        digit_run(d),
    ensures
        without_commas(d) == d,
    decreases d.len(),
{
    if d.len() > 0 {
        assert(digit_run(d.drop_last())) by {
            assert forall|i: int| 0 <= i < d.drop_last().len() implies '0' <= #[trigger] d.drop_last()[i] <= '9' by {
                assert(d.drop_last()[i] == d[i]);
            }
        }
        lemma_without_commas_digits(d.drop_last());
        assert(d.last() == d[d.len() - 1]);
        assert(d.drop_last().push(d.last()) =~= d);
    }
}

proof fn lemma_group_thousands(d: Seq<char>)
    requires
        d.len() >= 1,
        digit_run(d),
    ensures
        without_commas(group_thousands(d)) == d,
        well_grouped(group_thousands(d)),
        group_thousands(d).len() >= 1,
        '0' <= group_thousands(d)[0] <= '9',
    decreases d.len(),
{
    if d.len() <= 3 {
        lemma_without_commas_digits(d);
    } else {
        let h = d.take(d.len() - 3);
        let t = d.skip(d.len() - 3);
        assert(digit_run(h)) by {
            assert forall|i: int| 0 <= i < h.len() implies '0' <= #[trigger] h[i] <= '9' by {
                assert(h[i] == d[i]);
            }
        }
        assert(digit_run(t)) by {
            assert forall|i: int| 0 <= i < t.len() implies '0' <= #[trigger] t[i] <= '9' by {
                assert(t[i] == d[i + d.len() - 3]);
            }
        }
        lemma_group_thousands(h);
        let gh = group_thousands(h);
        let g = group_thousands(d);
        assert(g == gh + seq![','] + t);
        lemma_without_commas_add(gh + seq![','], t);
        lemma_without_commas_add(gh, seq![',']);
        lemma_without_commas_digits(t);
        assert(without_commas(seq![',']) =~= Seq::<char>::empty()) by {
            assert(seq![','].drop_last() =~= Seq::<char>::empty());
            assert(seq![','].last() == ',');
            assert(without_commas(Seq::<char>::empty()) =~= Seq::<char>::empty());
        }
        assert(gh + Seq::<char>::empty() =~= gh);
        assert(h + t =~= d);
        assert(g.len() >= 4);
        assert(g[g.len() - 4] == ',');
        assert(g.skip(g.len() - 3) =~= t);
        assert(g.take(g.len() - 4) =~= gh);
        assert(g[0] == gh[0]);
    }
}

/// What `with_commas` writes for `n`: taking the commas out gives `n` in
/// decimal; it starts with `-` exactly when `n` is negative; the rest is
/// one to three digits, then groups of exactly three, joined by `,`.
pub proof fn lemma_with_commas_law(n: i64)
    requires
        n != i64::MIN,
    ensures
        ({
            let g = group_thousands(digits_of(magnitude_spec(n)));
            let r = (if n < 0 { seq!['-'] } else { Seq::<char>::empty() }) + g;
            &&& without_commas(r) == crate::text::int_text(n as int)
            &&& (r.len() > 0 && r[0] == '-') <==> n < 0
            &&& well_grouped(g)
        }),
{
    let d = digits_of(magnitude_spec(n));
    crate::text::lemma_digits_nonempty(magnitude_spec(n));
    lemma_digits_are_digits(magnitude_spec(n));
    lemma_group_thousands(d);
    let g = group_thousands(d);
    if n < 0 {
        lemma_without_commas_add(seq!['-'], g);
        assert(without_commas(seq!['-']) =~= seq!['-']) by {
            assert(seq!['-'].drop_last() =~= Seq::<char>::empty());
            assert(seq!['-'].last() == '-');
            assert(without_commas(Seq::<char>::empty()) =~= Seq::<char>::empty());
            assert(Seq::<char>::empty().push('-') =~= seq!['-']);
        }
        assert((seq!['-'] + g)[0] == '-');
    } else {
        assert(Seq::<char>::empty() + g =~= g);
    }
}

proof fn lemma_digits_are_digits(n: nat)
    ensures
        digit_run(digits_of(n)),
    decreases n,
{
    if n >= 10 {
        lemma_digits_are_digits(n / 10);
        let p = digits_of(n / 10);
        assert forall|i: int| 0 <= i < digits_of(n).len() implies '0' <= #[trigger] digits_of(n)[i] <= '9' by {
            if i < p.len() {
                assert(digits_of(n)[i] == p[i]);
            }
        }
    }
}

/// The digits of `|n|` grouped in threes with `,`, with a leading `-` when negative.
pub fn with_commas(n: i64) -> (r: String)
    requires
        n != i64::MIN,
    ensures
        r@ == (if n < 0 { seq!['-'] } else { Seq::<char>::empty() }) + group_thousands(digits_of(magnitude_spec(n))),
{
    let mut digits: Vec<char> = Vec::new();
    push_digits(&mut digits, magnitude(n));
    let mut out: Vec<char> = Vec::new();
    if n < 0 {
        out.push('-');
    }
    push_grouped(&mut out, &digits, digits.len());
    proof {
        assert(digits@.take(digits@.len() as int) =~= digits@);
        assert(digits@ =~= digits_of(magnitude_spec(n)));
    }
    string_of(&out)
}

pub open spec fn magnitude_spec(n: i64) -> nat {
    if n < 0 { (-n) as nat } else { n as nat }
}

/// The cube level (0..=5) nearest to a colour channel.
pub open spec fn cube_level(v: u8) -> u8 {
    if v < 48 { 0 } else if v < 115 { 1 } else if v < 155 { 2 } else if v < 195 { 3 } else if v < 235 { 4 } else { 5 }
}

/// The xterm-256 cube index nearest to an RGB colour.
pub open spec fn cube_index_spec(r: u8, g: u8, b: u8) -> int {
    16 + 36 * cube_level(r) + 6 * cube_level(g) + cube_level(b)
}

fn quantize(v: u8) -> (r: u8)
    ensures
        r == cube_level(v),
{
    if v < 48 { 0 } else if v < 115 { 1 } else if v < 155 { 2 } else if v < 195 { 3 } else if v < 235 { 4 } else { 5 }
}

/// Maps an RGB colour to the closest entry (16..=231) of the xterm-256 cube.
pub fn rgb_to_cube_index(r: u8, g: u8, b: u8) -> (idx: u8)
    ensures
        idx as int == cube_index_spec(r, g, b),
        16 <= idx <= 231,
{
    16 + 36 * quantize(r) + 6 * quantize(g) + quantize(b)
}

/// `s` cut to at most `max` characters, ending in `…` when cut.
pub open spec fn truncate_spec(s: Seq<char>, max: nat) -> Seq<char> {
    if s.len() <= max {
        s
    } else {
        s.take(if max >= 1 { (max - 1) as int } else { 0 }) + seq!['…']
    }
}

/// Shortens `s` to `max` characters, the last being `…` when shortened.
pub fn truncate(s: &str, max: usize) -> (r: String)
    ensures
        r@ == truncate_spec(s@, max as nat),
{
    let cs = chars_of(s);
    if cs.len() <= max {
        return string_of(&cs);
    }
    let keep: usize = if max >= 1 { max - 1 } else { 0 };
    let mut out = subvec(&cs, 0, keep);
    out.push('…');
    proof {
        assert(out@ =~= truncate_spec(s@, max as nat));
    }
    string_of(&out)
}

/// Floor division and remainder of `n` by a positive `d`.
fn floor_div_rem(n: i64, d: i64) -> (r: (i64, i64))
    requires
        0 < d <= 1_000_000,
    ensures
        r.0 as int == n as int / d as int,
        r.1 as int == n as int % d as int,
        0 <= r.1 < d,
{
    if n >= 0 {
        let q = n / d;
        let m = n % d;
        proof {
            assert(q as int == n as int / d as int);
        }
        (q, m)
    } else {
        let a: i64 = -1 - n;
        let q = a / d;
        let m = a % d;
        proof {
            assert(a as int == q * d + m) by (nonlinear_arith)
                requires a >= 0, d > 0, q == a / d, m == a % d;
            assert(n as int == (-q - 1) * d + (d - 1 - m)) by (nonlinear_arith)
                requires a == -1 - n, a as int == q * d + m;
            assert(0 <= m < d);
            vstd::arithmetic::div_mod::lemma_fundamental_div_mod_converse(n as int, d as int, -q - 1, d - 1 - m);
        }
        (-q - 1, d - 1 - m)
    }
}

/// Calendar fields of a Unix time (UTC, proleptic Gregorian): hour, minute,
/// second, day, month, year; the year wraps to 32 bits.
pub open spec fn unix_components_spec(secs: int) -> (int, int, int, int, int, i32) {
    let days = secs / 86400;
    let rem = secs % 86400;
    let z = days + 719468;
    let era = z / 146097;
    let doe = z - era * 146097;
    let yoe = (doe - doe / 1460 + doe / 36524 - doe / 146096) / 365;
    let y = yoe + era * 400;
    let doy = doe - (365 * yoe + yoe / 4 - yoe / 100);
    let mp = (5 * doy + 2) / 153;
    let day = doy - (153 * mp + 2) / 5 + 1;
    let month = if mp < 10 { mp + 3 } else { mp - 9 };
    let year = if month <= 2 { y + 1 } else { y };
    (rem / 3600, (rem % 3600) / 60, rem % 60, day, month, year as i32)
}

/// Whether `y` is a leap year in the proleptic Gregorian calendar.
pub open spec fn is_leap(y: int) -> bool {
    (y % 4 == 0 && y % 100 != 0) || y % 400 == 0
}

/// The number of days of month `m` (1 to 12) of year `y`.
pub open spec fn days_in_month(y: int, m: int) -> int {
    if m == 2 {
        if is_leap(y) { 29 } else { 28 }
    } else if m == 4 || m == 6 || m == 9 || m == 11 {
        30
    } else {
        31
    }
}

/// The days from 1970-01-01 to day `d` of month `m` of year `y`.
pub open spec fn days_from_civil(y: int, m: int, d: int) -> int {
    let yy = if m <= 2 { y - 1 } else { y };
    let era = yy / 400;
    let yoe = yy - era * 400;
    let mp = if m > 2 { m - 3 } else { m + 9 };
    let doy = (153 * mp + 2) / 5 + d - 1;
    let doe = yoe * 365 + yoe / 4 - yoe / 100 + doy;
    era * 146097 + doe - 719468
}

/// The first day, within a 400-year era, of the year (counted from March)
/// `k` of the era.
pub open spec fn march_year_start(k: int) -> int {
    365 * k + k / 4 - k / 100
}

/// The year of the era (counted from March) holding day `doe` of the era.
pub open spec fn year_of_era_day(doe: int) -> int {
    (doe - doe / 1460 + doe / 36524 - doe / 146096) / 365
}

/// A year of the era with a 366th day ends in a February of a leap year.
pub open spec fn long_year_ok(k: int) -> bool {
    year_of_era_day(march_year_start(k) + 365) == k ==> ((k + 1) % 4 == 0 && ((k + 1) % 100 != 0 || k == 399))
}

proof fn lemma_long_year(k: u32)
    by (bit_vector)
    requires
        k < 400,
    ensures
        ((365 * k + k / 4 - k / 100 + 365) - (365 * k + k / 4 - k / 100 + 365) / 1460 + (365 * k + k / 4 - k / 100 + 365) / 36524
            - (365 * k + k / 4 - k / 100 + 365) / 146096) / 365 == k ==> ((k + 1) % 4 == 0 && ((k + 1) % 100 != 0 || k == 399)),
{
}

/// The calendar fields of a Unix time within about 31,000 years of 1970:
/// hour, minute and second in range, a month from 1 to 12 and a day of
/// that month, and the date and time add back up to the same second.
pub proof fn lemma_components_round_trip(secs: int)
    requires
        -1_000_000_000_000 <= secs <= 1_000_000_000_000,
    ensures
        ({
            let c = unix_components_spec(secs);
            &&& 0 <= c.0 < 24 && 0 <= c.1 < 60 && 0 <= c.2 < 60
            &&& 1 <= c.4 <= 12
            &&& 1 <= c.3 <= 31
            &&& c.3 <= days_in_month(c.5 as int, c.4)
            &&& days_from_civil(c.5 as int, c.4, c.3) * 86400 + c.0 * 3600 + c.1 * 60 + c.2 == secs
        }),
{
    let days = secs / 86400;
    let rem = secs % 86400;
    vstd::arithmetic::div_mod::lemma_fundamental_div_mod(secs, 86400);
    assert(0 <= rem < 86400);
    let h = rem / 3600;
    let r2 = rem % 3600;
    vstd::arithmetic::div_mod::lemma_fundamental_div_mod(rem, 3600);
    let mi = r2 / 60;
    let se = r2 % 60;
    vstd::arithmetic::div_mod::lemma_fundamental_div_mod(r2, 60);
    assert(0 <= h < 24) by (nonlinear_arith)
        requires 0 <= rem < 86400, h == rem / 3600;
    assert(0 <= mi < 60) by (nonlinear_arith)
        requires 0 <= r2 < 3600, mi == r2 / 60;
    assert(days * 86400 + h * 3600 + mi * 60 + se == secs) by (nonlinear_arith)
        requires secs == 86400 * days + rem, rem == 3600 * h + r2, r2 == 60 * mi + se;
    assert(-20_000_000 <= days <= 20_000_000) by (nonlinear_arith)
        requires -1_000_000_000_000 <= secs <= 1_000_000_000_000, days == secs / 86400;
    let z = days + 719468;
    let era = z / 146097;
    let doe = z - era * 146097;
    vstd::arithmetic::div_mod::lemma_fundamental_div_mod(z, 146097);
    assert(doe == z % 146097) by (nonlinear_arith)
        requires z == 146097 * era + z % 146097, doe == z - era * 146097;
    assert(0 <= doe < 146097);
    assert(-200 <= era <= 200) by (nonlinear_arith)
        requires -20_000_000 + 719468 <= z <= 20_000_000 + 719468, era == z / 146097;
    let yoe = (doe - doe / 1460 + doe / 36524 - doe / 146096) / 365;
    assert(0 <= yoe <= 399) by (nonlinear_arith)
        requires 0 <= doe < 146097, yoe == (doe - doe / 1460 + doe / 36524 - doe / 146096) / 365;
    let y = yoe + era * 400;
    let doy = doe - (365 * yoe + yoe / 4 - yoe / 100);
    assert(0 <= doy <= 365) by (nonlinear_arith)
        requires 0 <= doe < 146097, yoe == (doe - doe / 1460 + doe / 36524 - doe / 146096) / 365,
            doy == doe - (365 * yoe + yoe / 4 - yoe / 100);
    let mp = (5 * doy + 2) / 153;
    assert(0 <= mp <= 11) by (nonlinear_arith)
        requires 0 <= doy <= 365, mp == (5 * doy + 2) / 153;
    assert((153 * mp + 2) / 5 <= doy) by (nonlinear_arith)
        requires 0 <= doy, mp == (5 * doy + 2) / 153;
    assert(doy < (153 * (mp + 1) + 2) / 5) by (nonlinear_arith)
        requires 0 <= doy, mp == (5 * doy + 2) / 153;
    let day = doy - (153 * mp + 2) / 5 + 1;
    let month = if mp < 10 { mp + 3 } else { mp - 9 };
    let year = if month <= 2 { y + 1 } else { y };
    assert(-100_000 <= year <= 100_000) by (nonlinear_arith)
        requires -200 <= era <= 200, 0 <= yoe <= 399, y == yoe + era * 400, year == y || year == y + 1;
    let c = unix_components_spec(secs);
    assert(c == (h, mi, se, day, month, year as i32));
    assert(c.5 as int == year);
    // The month lengths of a year counted from March.
    assert(0 <= mp <= 10 ==> (153 * (mp + 1) + 2) / 5 - (153 * mp + 2) / 5 == days_in_month(year, month)) by {
        if mp == 0 { assert(month == 3); }
        else if mp == 1 { assert(month == 4); }
        else if mp == 2 { assert(month == 5); }
        else if mp == 3 { assert(month == 6); }
        else if mp == 4 { assert(month == 7); }
        else if mp == 5 { assert(month == 8); }
        else if mp == 6 { assert(month == 9); }
        else if mp == 7 { assert(month == 10); }
        else if mp == 8 { assert(month == 11); }
        else if mp == 9 { assert(month == 12); }
        else if mp == 10 { assert(month == 1); }
    }
    assert(day <= 31) by {
        if mp == 11 {
            assert((153 * 11 + 2) / 5 == 337);
        }
    }
    if mp == 11 {
        // February: its 29th day is the 366th of a year from March, which
        // only a year before a leap year has.
        assert((153 * 11 + 2) / 5 == 337);
        assert(month == 2 && year == y + 1);
        if doy == 365 {
            lemma_long_year(yoe as u32);
            assert(doe == march_year_start(yoe) + 365);
            assert(yoe == year_of_era_day(doe));
            assert(long_year_ok(yoe));
            vstd::arithmetic::div_mod::lemma_mod_multiples_vanish(era * 100, yoe + 1, 4);
            vstd::arithmetic::div_mod::lemma_mod_multiples_vanish(era * 4, yoe + 1, 100);
            vstd::arithmetic::div_mod::lemma_mod_multiples_vanish(era, yoe + 1, 400);
            assert(4 * (era * 100) + (yoe + 1) == year) by (nonlinear_arith)
                requires year == yoe + era * 400 + 1;
            assert(100 * (era * 4) + (yoe + 1) == year) by (nonlinear_arith)
                requires year == yoe + era * 400 + 1;
            assert(400 * era + (yoe + 1) == year);
            assert(is_leap(year));
        }
    }
    // Back again: the year counted from March and its place in the era.
    let yy = if month <= 2 { year - 1 } else { year };
    assert(yy == y);
    vstd::arithmetic::div_mod::lemma_fundamental_div_mod_converse(yy, 400, era, yoe);
    assert(yy / 400 == era);
    let mp2 = if month > 2 { month - 3 } else { month + 9 };
    assert(mp2 == mp);
    let doy2 = (153 * mp2 + 2) / 5 + day - 1;
    assert(doy2 == doy);
    let doe2 = yoe * 365 + yoe / 4 - yoe / 100 + doy2;
    assert(doe2 == doe);
    assert(days_from_civil(year, month, day) == era * 146097 + doe - 719468);
    assert(days_from_civil(year, month, day) == days);
}

/// Splits a Unix time (seconds, UTC) into (hour, minute, second, day, month, year).
pub fn unix_to_components(secs: i64) -> (r: (u32, u32, u32, u32, u32, i32))
    ensures
        (r.0 as int, r.1 as int, r.2 as int, r.3 as int, r.4 as int, r.5) == unix_components_spec(secs as int),
        r.0 < 24 && r.1 < 60 && r.2 < 60,
        1 <= r.3 <= 31 && 1 <= r.4 <= 12,
{
    let (days, rem64) = floor_div_rem(secs, 86400);
    let rem = rem64 as u32;
    let h = rem / 3600;
    let m = (rem % 3600) / 60;
    let s = rem % 60;
    proof {
        assert(secs as int / 86400 >= i64::MIN / 86400 - 1) by (nonlinear_arith)
            requires secs >= i64::MIN;
        assert(secs as int / 86400 <= i64::MAX / 86400) by (nonlinear_arith)
            requires secs <= i64::MAX;
    }
    let z: i64 = days + 719468;
    let (era, doe64) = floor_div_rem(z, 146097);
    let doe = doe64 as u32;
    proof {
        assert(doe64 as int == z as int - era as int * 146097) by (nonlinear_arith)
            requires era as int == z as int / 146097, doe64 as int == z as int % 146097;
        assert(era as int * 146097 <= z as int) by (nonlinear_arith)
            requires era as int == z as int / 146097;
        assert(era >= -200_000_000_000_000 && era <= 200_000_000_000_000);
    }
    let yoe = (doe - doe / 1460 + doe / 36524 - doe / 146096) / 365;
    proof {
        assert(yoe <= 400) by (nonlinear_arith)
            requires doe < 146097, yoe == (doe - doe / 1460 + doe / 36524 - doe / 146096) / 365;
        assert(365 * yoe + yoe / 4 - yoe / 100 <= doe) by (nonlinear_arith)
            requires doe < 146097, yoe == (doe - doe / 1460 + doe / 36524 - doe / 146096) / 365;
    }
    let doy = doe - (365 * yoe + yoe / 4 - yoe / 100);
    proof {
        assert(doy <= 365) by (nonlinear_arith)
            requires doe < 146097, yoe == (doe - doe / 1460 + doe / 36524 - doe / 146096) / 365,
                doy == doe - (365 * yoe + yoe / 4 - yoe / 100);
    }
    let mp = (5 * doy + 2) / 153;
    proof {
        assert(mp <= 11) by (nonlinear_arith)
            requires doy <= 365, mp == (5 * doy + 2) / 153;
        assert((153 * mp + 2) / 5 <= doy) by (nonlinear_arith)
            requires mp == (5 * doy + 2) / 153;
        assert(doy - (153 * mp + 2) / 5 <= 30) by (nonlinear_arith)
            requires mp == (5 * doy + 2) / 153, doy <= 365;
    }
    let day = doy - (153 * mp + 2) / 5 + 1;
    let month = if mp < 10 { mp + 3 } else { mp - 9 };
    let y64: i64 = yoe as i64 + era * 400;
    let year64: i64 = if month <= 2 { y64 + 1 } else { y64 };
    let year = #[verifier::truncate] (year64 as i32);
    (h, m, s, day, month, year)
}

/// `YYYY-MM-DD HH:MM:SS` (UTC) for a Unix time; values above 10^10 are taken
/// as milliseconds.
pub open spec fn format_unix_spec(secs: int) -> Seq<char> {
    let t = if secs > 10_000_000_000 { secs / 1000 } else { secs };
    let c = unix_components_spec(t);
    padded_int_text(c.5 as int, 4) + seq!['-'] + padded_int_text(c.4, 2) + seq!['-'] + padded_int_text(c.3, 2)
        + seq![' '] + padded_int_text(c.0, 2) + seq![':'] + padded_int_text(c.1, 2) + seq![':']
        + padded_int_text(c.2, 2)
}

/// Formats a Unix time (seconds, or milliseconds when above 10^10) as
/// `YYYY-MM-DD HH:MM:SS` in UTC.
pub fn format_unix(secs: i64) -> (r: String)
    ensures
        r@ == format_unix_spec(secs as int),
{
    let t = if secs > 10_000_000_000 { secs / 1000 } else { secs };
    let (h, m, s, day, mon, year) = unix_to_components(t);
    let mut out = padded_int_chars(year as i64, 4);
    out.push('-');
    push_all(&mut out, &padded_int_chars(mon as i64, 2));
    out.push('-');
    push_all(&mut out, &padded_int_chars(day as i64, 2));
    out.push(' ');
    push_all(&mut out, &padded_int_chars(h as i64, 2));
    out.push(':');
    push_all(&mut out, &padded_int_chars(m as i64, 2));
    out.push(':');
    push_all(&mut out, &padded_int_chars(s as i64, 2));
    proof {
        assert(out@ =~= format_unix_spec(secs as int));
    }
    string_of(&out)
}


/// The English three-letter name of month `m` (1 to 12).
pub open spec fn month_abbr(m: int) -> Seq<char> {
    if m == 1 { "Jan"@ } else if m == 2 { "Feb"@ } else if m == 3 { "Mar"@ } else if m == 4 { "Apr"@ }
    else if m == 5 { "May"@ } else if m == 6 { "Jun"@ } else if m == 7 { "Jul"@ } else if m == 8 { "Aug"@ }
    else if m == 9 { "Sep"@ } else if m == 10 { "Oct"@ } else if m == 11 { "Nov"@ } else { "Dec"@ }
}

fn month_name(m: u32) -> (r: &'static str)
    ensures
        r@ == month_abbr(m as int),
{
    if m == 1 { "Jan" } else if m == 2 { "Feb" } else if m == 3 { "Mar" } else if m == 4 { "Apr" }
    else if m == 5 { "May" } else if m == 6 { "Jun" } else if m == 7 { "Jul" } else if m == 8 { "Aug" }
    else if m == 9 { "Sep" } else if m == 10 { "Oct" } else if m == 11 { "Nov" } else { "Dec" }
}

/// `Mon DD HH:MM UTC` for a Unix time in seconds, e.g. `May 12 04:49 UTC`.
pub open spec fn month_day_spec(secs: int) -> Seq<char> {
    let c = unix_components_spec(secs);
    month_abbr(c.4) + seq![' '] + padded_int_text(c.3, 2) + seq![' '] + padded_int_text(c.0, 2) + seq![':']
        + padded_int_text(c.1, 2) + " UTC"@
}

/// Formats a Unix time (seconds) as `Mon DD HH:MM UTC`.
pub fn format_month_day(secs: i64) -> (r: String)
    ensures
        r@ == month_day_spec(secs as int),
{
    let (h, m, _s, day, mon, _year) = unix_to_components(secs);
    let mut out = chars_of(month_name(mon));
    out.push(' ');
    push_all(&mut out, &padded_int_chars(day as i64, 2));
    out.push(' ');
    push_all(&mut out, &padded_int_chars(h as i64, 2));
    out.push(':');
    push_all(&mut out, &padded_int_chars(m as i64, 2));
    push_str(&mut out, " UTC");
    proof {
        assert(out@ =~= month_day_spec(secs as int));
    }
    string_of(&out)
}

/// The text `bytes` decode to, or nothing when they are not valid UTF-8.
pub open spec fn text_or_empty(bytes: Seq<u8>) -> Seq<char> {
    if valid_utf8(bytes) { decode_utf8(bytes) } else { Seq::empty() }
}

/// A time value given as text: an integer is formatted as a Unix time; an
/// ISO-8601 timestamp (`T` at byte 10) keeps its date and `HH:MM:SS`;
/// anything else is shown as is.
pub open spec fn format_time_string_spec(s: Seq<char>) -> Seq<char> {
    match parse_i64_spec(s) {
        Some(n) => format_unix_spec(n as int),
        None => {
            let b = encode_utf8(s);
            if b.len() >= 19 && b[10] == 84u8 {
                text_or_empty(b.subrange(0, 10)) + seq![' '] + text_or_empty(b.subrange(11, 19))
            } else {
                s
            }
        },
    }
}

/// Formats a textual time value (see `format_time_string_spec`).
pub fn format_time_string(s: &str) -> (r: String)
    ensures
        r@ == format_time_string_spec(s@),
{
    if let Some(n) = parse_i64(s) {
        return format_unix(n);
    }
    let b = s.as_bytes();
    if b.len() >= 19 && b[10] == 84u8 {
        let date = match utf8_text(byte_range(b, 0, 10).as_slice()) {
            Some(t) => chars_of(t.as_str()),
            None => Vec::new(),
        };
        let time = match utf8_text(byte_range(b, 11, 19).as_slice()) {
            Some(t) => chars_of(t.as_str()),
            None => Vec::new(),
        };
        let mut out = date;
        out.push(' ');
        push_all(&mut out, &time);
        proof {
            assert(out@ =~= format_time_string_spec(s@));
        }
        return string_of(&out);
    }
    owned(s)
}

/// An identifier cut to 23 bytes plus `…` when longer than 24 bytes.
pub open spec fn short_id_spec(id: Seq<char>) -> Seq<char> {
    let b = encode_utf8(id);
    if b.len() <= 24 { id } else { decode_utf8(b.take(23)) + seq!['…'] }
}

/// Shortens a long identifier for a title. The cut is at byte 23, so an
/// identifier longer than 24 bytes must have a character boundary there.
pub fn short_id(id: &str) -> (r: String)
    requires
        encode_utf8(id@).len() <= 24 || vstd::utf8::is_char_boundary(encode_utf8(id@), 23),
    ensures
        r@ == short_id_spec(id@),
{
    if id.as_bytes().len() <= 24 {
        return owned(id);
    }
    let (head, _rest) = id.split_at(23);
    let mut out = chars_of(head);
    out.push('…');
    proof {
        vstd::utf8::encode_utf8_decode_utf8(head@);
        assert(encode_utf8(head@) =~= encode_utf8(id@).take(23));
        assert(out@ =~= short_id_spec(id@));
    }
    string_of(&out)
}

/// How long ago `secs` was, seen at time `now` (both Unix seconds).
pub open spec fn relative_time_spec(secs: i64, now: i64) -> Seq<char> {
    let d = now as int - secs as int;
    let diff: int = if d > i64::MAX { i64::MAX as int } else if d < i64::MIN { i64::MIN as int } else { d };
    if diff < 0 {
        format_unix_spec(secs as int)
    } else if diff <= 1 {
        "just now"@
    } else if diff <= 59 {
        digits_of(diff as nat) + " seconds ago"@
    } else if diff <= 119 {
        "1 minute ago"@
    } else if diff <= 3599 {
        digits_of((diff / 60) as nat) + " minutes ago"@
    } else if diff <= 7199 {
        "1 hour ago"@
    } else if diff <= 86399 {
        digits_of((diff / 3600) as nat) + " hours ago"@
    } else if diff <= 172799 {
        "1 day ago"@
    } else {
        month_day_spec(secs as int)
    }
}

/// "just now", "12 seconds ago", "3 minutes ago", … or, once it is two days
/// old, the short date `May 12 04:49 UTC` (the full date and time for a time
/// in the future); `now` is the current Unix time.
pub fn relative_time(secs: i64, now: i64) -> (r: String)
    ensures
        r@ == relative_time_spec(secs, now),
{
    let wide: i128 = now as i128 - secs as i128;
    let diff: i64 = if wide > i64::MAX as i128 {
        i64::MAX
    } else if wide < i64::MIN as i128 {
        i64::MIN
    } else {
        wide as i64
    };
    if diff < 0 {
        return format_unix(secs);
    }
    if diff <= 1 {
        return owned("just now");
    }
    if diff >= 172800 {
        return format_month_day(secs);
    }
    if diff == 60 || (diff > 60 && diff <= 119) {
        return owned("1 minute ago");
    }
    if diff >= 3600 && diff <= 7199 {
        return owned("1 hour ago");
    }
    if diff >= 86400 {
        return owned("1 day ago");
    }
    let (n, unit): (u64, &str) = if diff <= 59 {
        (diff as u64, " seconds ago")
    } else if diff <= 3599 {
        ((diff / 60) as u64, " minutes ago")
    } else {
        ((diff / 3600) as u64, " hours ago")
    };
    let mut out: Vec<char> = Vec::new();
    push_digits(&mut out, n);
    push_str(&mut out, unit);
    proof {
        assert(out@ =~= relative_time_spec(secs, now));
    }
    string_of(&out)
}

/// One log object as fetched, with its compact JSON text (what the filter
/// searches and what identifies an entry that has no id field).
pub struct LogRecord {
    pub fields: Vec<(String, Json)>,
    pub text: String,
}

/// A shown log entry: its id, its object and its searchable text.
pub struct Entry {
    pub id: String,
    pub raw: Json,
    pub search: String,
}

/// Which modal is open over the list.
#[derive(Debug, Clone, Copy, PartialEq, Eq, Structural)]
pub enum DetailView {
    Closed,
    Entry,
    Raw,
}

/// The inner area of the list widget, for mouse hit-testing.
#[derive(Debug, Clone, Copy, PartialEq, Eq, Structural)]
pub struct ListArea {
    pub x: u16,
    pub y: u16,
    pub width: u16,
    pub height: u16,
}

/// The id text a member gives: a string as is, an integer in decimal.
pub open spec fn id_at(fields: Seq<(String, Json)>, k: Seq<char>) -> Option<Seq<char>> {
    match obj_get_spec(fields, k) {
        Some(v) => if v.as_str_spec() is Some {
            v.as_str_spec()
        } else if v.as_i64_spec() is Some {
            Some(int_text(v.as_i64_spec()->0 as int))
        } else {
            None
        },
        None => None,
    }
}

/// The id of a log object: the first of `uid`, `id`, `message_id`,
/// `event_id`, `uuid` that holds a string or an integer.
pub open spec fn record_id_spec(fields: Seq<(String, Json)>) -> Option<Seq<char>> {
    if id_at(fields, "uid"@) is Some {
        id_at(fields, "uid"@)
    } else if id_at(fields, "id"@) is Some {
        id_at(fields, "id"@)
    } else if id_at(fields, "message_id"@) is Some {
        id_at(fields, "message_id"@)
    } else if id_at(fields, "event_id"@) is Some {
        id_at(fields, "event_id"@)
    } else {
        id_at(fields, "uuid"@)
    }
}

/// The hash `DefaultHasher` gives a text hashed as a `str` is: one write of
/// its UTF-8 bytes, then one of the byte `0xff`.
pub open spec fn default_hash(text: Seq<char>) -> u64 {
    DefaultHasher::spec_finish(seq![encode_utf8(text), seq![0xffu8]])
}

/// The id of a log object with the given fields and JSON text: its id
/// field, else `h` and the hex of the hash of its text.
pub open spec fn entry_id_spec(fields: Seq<(String, Json)>, text: Seq<char>) -> Seq<char> {
    match record_id_spec(fields) {
        Some(x) => x,
        None => seq!['h'] + crate::text::hex_of(default_hash(text) as nat),
    }
}

fn id_at_exec(fields: &Vec<(String, Json)>, k: &str) -> (r: Option<String>)
    ensures
        crate::text::opt_text(r) == id_at(fields@, k@),
{
    match obj_get(fields, k) {
        Some(v) => {
            if let Some(s) = v.as_str() {
                Some(owned(s))
            } else if let Some(n) = v.as_i64() {
                Some(string_of(&int_chars(n)))
            } else {
                None
            }
        },
        None => None,
    }
}

/// The hash of a text as `str`'s `Hash` feeds it to a fresh `DefaultHasher`.
fn text_hash(text: &str) -> (r: u64)
    ensures
        r == default_hash(text@),
{
    let mut h = DefaultHasher::new();
    let bytes = text.as_bytes();
    h.write(bytes);
    let end: [u8; 1] = [0xffu8];
    let tail = end.as_slice();
    proof {
        assert(bytes@ == encode_utf8(text@));
        assert(end@ =~= seq![0xffu8]);
        assert(tail@ =~= seq![0xffu8]);
    }
    h.write(tail);
    proof {
        assert(h@ =~= seq![encode_utf8(text@), seq![0xffu8]]);
    }
    h.finish()
}

/// The id of a log object: the first string or integer among its `uid`,
/// `id`, `message_id`, `event_id`, `uuid` members, else `h` and the hex of a
/// hash of its JSON text.
pub fn entry_id(fields: &Vec<(String, Json)>, text: &str) -> (r: String)
    ensures
        r@ == entry_id_spec(fields@, text@),
{
    if let Some(v) = id_at_exec(fields, "uid") {
        return v;
    }
    if let Some(v) = id_at_exec(fields, "id") {
        return v;
    }
    if let Some(v) = id_at_exec(fields, "message_id") {
        return v;
    }
    if let Some(v) = id_at_exec(fields, "event_id") {
        return v;
    }
    if let Some(v) = id_at_exec(fields, "uuid") {
        return v;
    }
    let mut out: Vec<char> = Vec::new();
    out.push('h');
    let h = text_hash(text);
    push_hex(&mut out, h);
    proof {
        assert(out@ =~= entry_id_spec(fields@, text@));
    }
    string_of(&out)
}

/// An entry matches the filter when its text contains the query, both lowercased.
pub open spec fn entry_matches(e: Entry, q: Seq<char>) -> bool {
    contains_seq(lowercase(e.search@), lowercase(q))
}

/// The positions, in order, of the entries that match the filter.
pub open spec fn filter_spec(es: Seq<Entry>, q: Seq<char>) -> Seq<usize>
    decreases es.len(),
{
    if es.len() == 0 {
        Seq::empty()
    } else {
        filter_spec(es.drop_last(), q) + (if entry_matches(es.last(), q) {
            seq![(es.len() - 1) as usize]
        } else {
            Seq::empty()
        })
    }
}

/// The filter's positions are increasing and point into `es`.
pub proof fn lemma_filter_spec(es: Seq<Entry>, q: Seq<char>)
    requires
        es.len() <= usize::MAX,
    ensures
        forall|k: int| 0 <= k < filter_spec(es, q).len() ==> (#[trigger] filter_spec(es, q)[k]) < es.len(),
        forall|a: int, b: int| 0 <= a < b < filter_spec(es, q).len() ==> filter_spec(es, q)[a] < filter_spec(es, q)[b],
        filter_spec(es, q).len() <= es.len(),
    decreases es.len(),
{
    if es.len() > 0 {
        lemma_filter_spec(es.drop_last(), q);
    }
}

/// The live-tail state.
pub struct App {
    pub kind: LogKind,
    pub entries: Vec<Entry>,
    /// Ids returned by the first poll: history, hidden for good.
    pub baseline: Vec<String>,
    pub baseline_collected: bool,
    /// Positions in `entries` of the rows shown, in order.
    pub filtered: Vec<usize>,
    /// Selected row (a position in `filtered`).
    pub selected: Option<usize>,
    pub detail_scroll: u16,
    pub detail_view: DetailView,
    pub paused: bool,
    pub poll_secs: u64,
    pub buffer: usize,
    pub search_mode: bool,
    pub search_query: String,
    pub fetch_count: u64,
    pub last_error: Option<String>,
    pub last_raw: Option<Json>,
    pub last_entry_count: usize,
    pub list_inner: ListArea,
    pub list_offset: usize,
}

/// The entry shown in the selected row, if the selection is on a row.
pub open spec fn selected_index(app: App) -> Option<int> {
    match app.selected {
        Some(i) => if i < app.filtered@.len() { Some(app.filtered@[i as int] as int) } else { None },
        None => None,
    }
}

/// The id of the selected entry.
pub open spec fn selected_id(app: App) -> Option<Seq<char>> {
    match selected_index(app) {
        Some(k) => Some(app.entries@[k].id@),
        None => None,
    }
}

/// The first row of `f` whose entry has id `id`.
pub open spec fn position_of(es: Seq<Entry>, f: Seq<usize>, id: Seq<char>) -> Option<int>
    decreases f.len(),
{
    if f.len() == 0 {
        None
    } else if es[f[0] as int].id@ == id {
        Some(0)
    } else {
        match position_of(es, f.drop_first(), id) {
            Some(p) => Some(p + 1),
            None => None,
        }
    }
}

/// The selection after re-filtering: the row of the previously selected
/// entry if it is still shown; else none when nothing is shown; else the top
/// row when rows were prepended or nothing was selected; else as it was.
pub open spec fn refilter_selection(
    old_sel: Option<usize>,
    prev: Option<Seq<char>>,
    es: Seq<Entry>,
    f: Seq<usize>,
    prepended: bool,
) -> Option<usize> {
    let fallback = if f.len() == 0 {
        None
    } else if prepended || old_sel is None {
        Some(0usize)
    } else {
        old_sel
    };
    match prev {
        Some(id) => match position_of(es, f, id) {
            Some(p) => Some(p as usize),
            None => fallback,
        },
        None => fallback,
    }
}

/// The selection lands within `lo..=hi`.
pub open spec fn clamp_spec(v: int, lo: int, hi: int) -> int {
    if v < lo { lo } else if v > hi { hi } else { v }
}

/// The first row of `f` whose entry has id `id`.
fn find_position(es: &Vec<Entry>, f: &Vec<usize>, id: &Vec<char>) -> (r: Option<usize>)
    requires
        forall|k: int| 0 <= k < f@.len() ==> (#[trigger] f@[k]) < es@.len(),
    ensures
        match r {
            Some(p) => position_of(es@, f@, id@) == Some(p as int),
            None => position_of(es@, f@, id@) is None,
        },
{
    let mut p: usize = 0;
    proof {
        assert(f@.skip(0) =~= f@);
    }
    while p < f.len()
        invariant
            p <= f@.len(),
            forall|k: int| 0 <= k < f@.len() ==> (#[trigger] f@[k]) < es@.len(),
            position_of(es@, f@, id@) == match position_of(es@, f@.skip(p as int), id@) {
                Some(x) => Some(x + p),
                None => None,
            },
        decreases f@.len() - p,
    {
        proof {
            assert(f@.skip(p as int).drop_first() =~= f@.skip(p + 1));
            assert(f@.skip(p as int)[0] == f@[p as int]);
        }
        let idx = f[p];
        let cand = chars_of(es[idx].id.as_str());
        if crate::text::same_text(&cand, id) {
            return Some(p);
        }
        p = p + 1;
    }
    None
}

/// What the logic sees of an entry: its id, its object and its search text.
pub open spec fn entry_view(e: Entry) -> (Seq<char>, Json, Seq<char>) {
    (e.id@, e.raw, e.search@)
}

pub open spec fn entries_view(es: Seq<Entry>) -> Seq<(Seq<char>, Json, Seq<char>)> {
    es.map_values(|e: Entry| entry_view(e))
}

/// The ids held in `b`.
pub open spec fn ids_view(b: Seq<String>) -> Seq<Seq<char>> {
    b.map_values(|s: String| s@)
}

/// The first position holding id `id`.
pub open spec fn find_view(v: Seq<(Seq<char>, Json, Seq<char>)>, id: Seq<char>) -> Option<int>
    decreases v.len(),
{
    if v.len() == 0 {
        None
    } else if v[0].0 == id {
        Some(0)
    } else {
        match find_view(v.drop_first(), id) {
            Some(i) => Some(i + 1),
            None => None,
        }
    }
}

pub proof fn lemma_find_view(v: Seq<(Seq<char>, Json, Seq<char>)>, id: Seq<char>)
    ensures
        match find_view(v, id) {
            Some(i) => 0 <= i < v.len() && v[i].0 == id && forall|j: int| 0 <= j < i ==> v[j].0 != id,
            None => forall|j: int| 0 <= j < v.len() ==> v[j].0 != id,
        },
    decreases v.len(),
{
    if v.len() > 0 && v[0].0 != id {
        lemma_find_view(v.drop_first(), id);
        assert forall|j: int| 0 < j < v.len() implies v[j] == v.drop_first()[j - 1] by {}
    }
}

/// One polled object folded into the shown entries (with the running counts
/// of added and updated entries): history is skipped; a known id is updated
/// in place; a new id goes on top.
pub open spec fn ingest_step(
    st: (Seq<(Seq<char>, Json, Seq<char>)>, nat, nat),
    baseline: Seq<Seq<char>>,
    rec: LogRecord,
    id: Seq<char>,
) -> (Seq<(Seq<char>, Json, Seq<char>)>, nat, nat) {
    if baseline.contains(id) {
        st
    } else {
        match find_view(st.0, id) {
            Some(i) => (st.0.update(i, (id, Json::Object(rec.fields), rec.text@)), st.1, st.2 + 1),
            None => (seq![(id, Json::Object(rec.fields), rec.text@)] + st.0, st.1 + 1, st.2),
        }
    }
}

/// The objects of one poll folded in, in order.
pub open spec fn ingest_fold(
    v: Seq<(Seq<char>, Json, Seq<char>)>,
    baseline: Seq<Seq<char>>,
    recs: Seq<LogRecord>,
    ids: Seq<Seq<char>>,
) -> (Seq<(Seq<char>, Json, Seq<char>)>, nat, nat)
    decreases recs.len(),
{
    if recs.len() == 0 || ids.len() == 0 {
        (v, 0, 0)
    } else {
        ingest_step(ingest_fold(v, baseline, recs.drop_last(), ids.drop_last()), baseline, recs.last(), ids.last())
    }
}

/// Whether some entry has id `id`.
pub open spec fn has_id(v: Seq<(Seq<char>, Json, Seq<char>)>, id: Seq<char>) -> bool {
    exists|i: int| 0 <= i < v.len() && (#[trigger] v[i]).0 == id
}

/// No id occurs twice.
pub open spec fn unique_ids(v: Seq<(Seq<char>, Json, Seq<char>)>) -> bool {
    forall|i: int, j: int| 0 <= i < j < v.len() ==> (#[trigger] v[i]).0 != (#[trigger] v[j]).0
}

proof fn lemma_ingest_step(
    st: (Seq<(Seq<char>, Json, Seq<char>)>, nat, nat),
    baseline: Seq<Seq<char>>,
    rec: LogRecord,
    id: Seq<char>,
)
    ensures
        ({
            let r = ingest_step(st, baseline, rec, id);
            &&& forall|x: Seq<char>| has_id(st.0, x) ==> has_id(r.0, x)
            &&& forall|i: int| 0 <= i < r.0.len() ==> has_id(st.0, (#[trigger] r.0[i]).0) || (r.0[i].0 == id && !baseline.contains(id))
            &&& !baseline.contains(id) ==> has_id(r.0, id)
            &&& unique_ids(st.0) ==> unique_ids(r.0)
            &&& r.0.len() == st.0.len() + r.1 - st.1
            &&& r.1 >= st.1
        }),
{
    lemma_find_view(st.0, id);
    let r = ingest_step(st, baseline, rec, id);
    if baseline.contains(id) {
    } else {
        match find_view(st.0, id) {
            Some(i) => {
                let e = (id, Json::Object(rec.fields), rec.text@);
                assert(r.0 == st.0.update(i, e));
                assert forall|x: Seq<char>| has_id(st.0, x) implies has_id(r.0, x) by {
                    let j = choose|j: int| 0 <= j < st.0.len() && (#[trigger] st.0[j]).0 == x;
                    if j == i {
                        assert(r.0[i].0 == x);
                    } else {
                        assert(r.0[j] == st.0[j]);
                    }
                }
                assert forall|k: int| 0 <= k < r.0.len() implies has_id(st.0, (#[trigger] r.0[k]).0) || (r.0[k].0 == id && !baseline.contains(id)) by {
                    if k != i {
                        assert(r.0[k] == st.0[k]);
                    }
                }
                assert(r.0[i].0 == id);
                assert(unique_ids(st.0) ==> unique_ids(r.0)) by {
                    if unique_ids(st.0) {
                        assert forall|a: int, b: int| 0 <= a < b < r.0.len() implies (#[trigger] r.0[a]).0 != (#[trigger] r.0[b]).0 by {
                            assert(r.0[a].0 == st.0[a].0);
                            assert(r.0[b].0 == st.0[b].0);
                        }
                    }
                }
            },
            None => {
                let e = (id, Json::Object(rec.fields), rec.text@);
                assert(r.0 == seq![e] + st.0);
                assert forall|x: Seq<char>| has_id(st.0, x) implies has_id(r.0, x) by {
                    let j = choose|j: int| 0 <= j < st.0.len() && (#[trigger] st.0[j]).0 == x;
                    assert(r.0[j + 1] == st.0[j]);
                }
                assert forall|k: int| 0 <= k < r.0.len() implies has_id(st.0, (#[trigger] r.0[k]).0) || (r.0[k].0 == id && !baseline.contains(id)) by {
                    if k > 0 {
                        assert(r.0[k] == st.0[k - 1]);
                    }
                }
                assert(r.0[0].0 == id);
                assert(unique_ids(st.0) ==> unique_ids(r.0)) by {
                    if unique_ids(st.0) {
                        assert forall|a: int, b: int| 0 <= a < b < r.0.len() implies (#[trigger] r.0[a]).0 != (#[trigger] r.0[b]).0 by {
                            if a == 0 {
                                assert(r.0[b] == st.0[b - 1]);
                            } else {
                                assert(r.0[a] == st.0[a - 1]);
                                assert(r.0[b] == st.0[b - 1]);
                            }
                        }
                    }
                }
            },
        }
    }
}

/// What one poll does to the shown entries: every entry shown before is
/// still shown (an updated entry keeps its place); an entry is only ever
/// added for a polled object that is not history; every polled object that
/// is not history is shown; no id is shown twice; and the entries grow by
/// exactly the count of added ones.
pub proof fn lemma_ingest_fold(
    v: Seq<(Seq<char>, Json, Seq<char>)>,
    baseline: Seq<Seq<char>>,
    recs: Seq<LogRecord>,
    ids: Seq<Seq<char>>,
)
    requires
        ids.len() == recs.len(),
    ensures
        ({
            let r = ingest_fold(v, baseline, recs, ids);
            &&& forall|x: Seq<char>| has_id(v, x) ==> has_id(r.0, x)
            &&& forall|i: int| 0 <= i < r.0.len() ==> has_id(v, (#[trigger] r.0[i]).0) || (!baseline.contains(r.0[i].0)
                && exists|k: int| 0 <= k < ids.len() && ids[k] == r.0[i].0)
            &&& forall|k: int| 0 <= k < ids.len() && !baseline.contains(#[trigger] ids[k]) ==> has_id(r.0, ids[k])
            &&& unique_ids(v) ==> unique_ids(r.0)
            &&& r.0.len() == v.len() + r.1
        }),
    decreases recs.len(),
{
    if recs.len() > 0 {
        let pr = recs.drop_last();
        let pi = ids.drop_last();
        lemma_ingest_fold(v, baseline, pr, pi);
        let prev = ingest_fold(v, baseline, pr, pi);
        lemma_ingest_step(prev, baseline, recs.last(), ids.last());
        let r = ingest_fold(v, baseline, recs, ids);
        assert(r == ingest_step(prev, baseline, recs.last(), ids.last()));
        assert forall|i: int| 0 <= i < r.0.len() implies has_id(v, (#[trigger] r.0[i]).0) || (!baseline.contains(r.0[i].0)
            && exists|k: int| 0 <= k < ids.len() && ids[k] == r.0[i].0) by {
            if has_id(prev.0, r.0[i].0) {
                let j = choose|j: int| 0 <= j < prev.0.len() && (#[trigger] prev.0[j]).0 == r.0[i].0;
                if !has_id(v, prev.0[j].0) {
                    let k = choose|k: int| 0 <= k < pi.len() && pi[k] == prev.0[j].0;
                    assert(ids[k] == pi[k]);
                }
            } else {
                assert(ids[ids.len() - 1] == ids.last());
            }
        }
        assert forall|k: int| 0 <= k < ids.len() && !baseline.contains(#[trigger] ids[k]) implies has_id(r.0, ids[k]) by {
            if k < ids.len() - 1 {
                assert(pi[k] == ids[k]);
                assert(has_id(prev.0, pi[k]));
            } else {
                assert(ids[k] == ids.last());
            }
        }
    } else {
        assert forall|x: Seq<char>| has_id(v, x) implies has_id(ingest_fold(v, baseline, recs, ids).0, x) by {}
    }
}

/// The first `n` entries.
pub open spec fn keep_first(v: Seq<(Seq<char>, Json, Seq<char>)>, n: nat) -> Seq<(Seq<char>, Json, Seq<char>)> {
    if v.len() <= n { v } else { v.take(n as int) }
}

/// What a poll leaves shown: every entry was shown before, or is a polled
/// object (by its id: its id field, else the hash of its text) that is not
/// history; no id is shown twice; at most `n` entries are kept.
pub proof fn lemma_ingest_shown_ids(
    v: Seq<(Seq<char>, Json, Seq<char>)>,
    baseline: Seq<Seq<char>>,
    recs: Seq<LogRecord>,
    ids: Seq<Seq<char>>,
    n: nat,
)
    requires
        ids_fit(recs, ids),
        unique_ids(v),
    ensures
        ({
            let kept = keep_first(ingest_fold(v, baseline, recs, ids).0, n);
            &&& kept.len() <= n
            &&& unique_ids(kept)
            &&& forall|i: int| 0 <= i < kept.len() ==> has_id(v, (#[trigger] kept[i]).0) || (!baseline.contains(kept[i].0)
                && exists|k: int| 0 <= k < recs.len() && entry_id_spec(recs[k].fields@, recs[k].text@) == kept[i].0)
        }),
{
    lemma_ingest_fold(v, baseline, recs, ids);
    let r = ingest_fold(v, baseline, recs, ids);
    let kept = keep_first(r.0, n);
    assert forall|i: int| 0 <= i < kept.len() implies has_id(v, (#[trigger] kept[i]).0) || (!baseline.contains(kept[i].0)
        && exists|k: int| 0 <= k < recs.len() && entry_id_spec(recs[k].fields@, recs[k].text@) == kept[i].0) by {
        assert(kept[i] == r.0[i]);
        if !has_id(v, r.0[i].0) {
            let k = choose|k: int| 0 <= k < ids.len() && ids[k] == r.0[i].0;
            assert(entry_id_spec(recs[k].fields@, recs[k].text@) == ids[k]);
        }
    }
    assert forall|a: int, b: int| 0 <= a < b < kept.len() implies (#[trigger] kept[a]).0 != (#[trigger] kept[b]).0 by {
        assert(kept[a] == r.0[a] && kept[b] == r.0[b]);
    }
}

/// The selected entry's id as looked up through the rows computed before a
/// change to the entries.
pub open spec fn stale_selected_id(sel: Option<usize>, f: Seq<usize>, es: Seq<Entry>) -> Option<Seq<char>> {
    match sel {
        Some(i) => if i < f.len() { Some(es[f[i as int] as int].id@) } else { None },
        None => None,
    }
}

/// Every object has an id as `entry_id` gives it.
pub open spec fn ids_fit(recs: Seq<LogRecord>, ids: Seq<Seq<char>>) -> bool {
    ids.len() == recs.len() && forall|k: int| 0 <= k < recs.len() ==> ids[k] == entry_id_spec(#[trigger] recs[k].fields@, recs[k].text@)
}

/// The parts of the view a change of entries, filter or selection leaves
/// alone: the endpoint, the poll interval and the list's place on screen.
pub open spec fn same_frame(a: App, b: App) -> bool {
    &&& a.kind == b.kind
    &&& a.poll_secs == b.poll_secs
    &&& a.list_inner == b.list_inner
    &&& a.list_offset == b.list_offset
}

/// The poll counters shown in the header.
pub open spec fn same_counters(a: App, b: App) -> bool {
    &&& a.fetch_count == b.fetch_count
    &&& a.last_error == b.last_error
    &&& a.last_entry_count == b.last_entry_count
}

impl App {
    /// The selection, when it is on a row, refers to an entry.
    pub open spec fn sel_ok(&self) -> bool {
        match selected_index(*self) {
            Some(k) => k < self.entries@.len(),
            None => true,
        }
    }

    /// The shown rows are exactly the matching entries.
    pub open spec fn filtered_ok(&self) -> bool {
        self.filtered@ == filter_spec(self.entries@, self.search_query@)
    }

    /// Ids are unique; no shown entry is history; before the first poll
    /// nothing is shown; at most `buffer` entries are kept; the rows are
    /// exactly the entries matching the filter.
    pub open spec fn wf(&self) -> bool {
        &&& forall|i: int, j: int| 0 <= i < j < self.entries@.len() ==> self.entries@[i].id@ != self.entries@[j].id@
        &&& forall|i: int, b: int| 0 <= i < self.entries@.len() && 0 <= b < self.baseline@.len() ==> self.entries@[i].id@ != self.baseline@[b]@
        &&& !self.baseline_collected ==> self.entries@.len() == 0
        &&& self.entries@.len() <= self.buffer
        &&& self.filtered_ok()
    }

    /// A fresh tail for `kind` with the given options.
    pub fn new(kind: LogKind, opts: &TailOpts) -> (r: App)
        ensures
            r.wf(),
            r.entries@.len() == 0,
            !r.baseline_collected,
            r.selected is None,
            !r.paused,
            !r.search_mode,
            r.detail_view == DetailView::Closed,
            r.poll_secs == opts.poll_secs,
            r.buffer == opts.buffer,
    {
        App {
            kind,
            entries: Vec::new(),
            baseline: Vec::new(),
            baseline_collected: false,
            filtered: Vec::new(),
            selected: None,
            detail_scroll: 0,
            detail_view: DetailView::Closed,
            paused: false,
            poll_secs: opts.poll_secs,
            buffer: opts.buffer,
            search_mode: false,
            search_query: String::new(),
            fetch_count: 0,
            last_error: None,
            last_raw: None,
            last_entry_count: 0,
            list_inner: ListArea { x: 0, y: 0, width: 0, height: 0 },
            list_offset: 0,
        }
    }

    /// The entry in the selected row.
    pub fn selected_entry(&self) -> (r: Option<&Entry>)
        requires
            self.sel_ok(),
        ensures
            match r {
                Some(e) => selected_index(*self) is Some && *e == self.entries@[selected_index(*self)->0],
                None => selected_index(*self) is None,
            },
    {
        match self.selected {
            Some(i) => {
                if i < self.filtered.len() {
                    let idx = self.filtered[i];
                    Some(&self.entries[idx])
                } else {
                    None
                }
            },
            None => None,
        }
    }

    /// Recomputes the shown rows for the current filter and keeps the
    /// selection on the same entry when it is still shown.
    pub fn refilter(&mut self, prepended: bool)
        requires
            old(self).sel_ok(),
        ensures
            same_frame(*old(self), *final(self)),
            final(self).filtered_ok(),
            final(self).selected == refilter_selection(
                old(self).selected,
                selected_id(*old(self)),
                old(self).entries@,
                final(self).filtered@,
                prepended,
            ),
            final(self).entries == old(self).entries,
            final(self).baseline == old(self).baseline,
            final(self).baseline_collected == old(self).baseline_collected,
            final(self).search_query == old(self).search_query,
            final(self).search_mode == old(self).search_mode,
            final(self).detail_view == old(self).detail_view,
            final(self).detail_scroll == old(self).detail_scroll,
            final(self).paused == old(self).paused,
            final(self).buffer == old(self).buffer,
            final(self).last_raw == old(self).last_raw,
            final(self).fetch_count == old(self).fetch_count,
            final(self).last_error == old(self).last_error,
            final(self).last_entry_count == old(self).last_entry_count,
    {
        let prev_id: Option<Vec<char>> = match self.selected_entry() {
            Some(e) => Some(chars_of(e.id.as_str())),
            None => None,
        };
        let q = to_lower(self.search_query.as_str());
        let qc = chars_of(q.as_str());
        let mut f: Vec<usize> = Vec::new();
        let n = self.entries.len();
        let mut i: usize = 0;
        while i < n
            invariant
                n == self.entries@.len(),
                i <= n,
                qc@ == lowercase(self.search_query@),
                f@ == filter_spec(self.entries@.take(i as int), self.search_query@),
            decreases n - i,
        {
            let hit = if qc.len() == 0 {
                proof {
                    assert(lowercase(self.entries@[i as int].search@).subrange(0, 0 + qc@.len() as int) =~= qc@);
                }
                true
            } else {
                let low = to_lower(self.entries[i].search.as_str());
                let lc = chars_of(low.as_str());
                contains_chars(&lc, &qc)
            };
            proof {
                assert(self.entries@.take(i + 1).drop_last() =~= self.entries@.take(i as int));
                assert(self.entries@.take(i + 1).last() == self.entries@[i as int]);
                assert(hit == entry_matches(self.entries@[i as int], self.search_query@));
            }
            if hit {
                f.push(i);
            }
            i = i + 1;
        }
        proof {
            assert(self.entries@.take(n as int) =~= self.entries@);
            lemma_filter_spec(self.entries@, self.search_query@);
        }
        let pos = match &prev_id {
            Some(prev) => find_position(&self.entries, &f, prev),
            None => None,
        };
        self.filtered = f;
        if let Some(p) = pos {
            self.selected = Some(p);
            return;
        }
        if self.filtered.len() == 0 {
            self.selected = None;
        } else if prepended || self.selected.is_none() {
            self.selected = Some(0);
        }
    }

    /// Moves the selection by `delta` rows, staying within the rows.
    pub fn move_sel(&mut self, delta: i128)
        requires
            -0x1_0000_0000_0000_0000 <= delta <= 0x1_0000_0000_0000_0000,
        ensures
            same_counters(*old(self), *final(self)),
            same_frame(*old(self), *final(self)),
            final(self).selected == (if old(self).filtered@.len() == 0 {
                old(self).selected
            } else {
                let cur: int = match old(self).selected { Some(c) => c as int, None => 0 };
                Some(clamp_spec(cur + delta, 0, old(self).filtered@.len() - 1) as usize)
            }),
            final(self).entries == old(self).entries,
            final(self).filtered == old(self).filtered,
            final(self).baseline == old(self).baseline,
            final(self).baseline_collected == old(self).baseline_collected,
            final(self).search_query == old(self).search_query,
            final(self).search_mode == old(self).search_mode,
            final(self).detail_view == old(self).detail_view,
            final(self).detail_scroll == old(self).detail_scroll,
            final(self).paused == old(self).paused,
            final(self).buffer == old(self).buffer,
            final(self).last_raw == old(self).last_raw,
    {
        if self.filtered.len() == 0 {
            return;
        }
        let cur: i128 = match self.selected {
            Some(c) => c as i128,
            None => 0,
        };
        let hi: i128 = (self.filtered.len() - 1) as i128;
        let want: i128 = cur + delta;
        let next: i128 = if want < 0 { 0 } else if want > hi { hi } else { want };
        self.selected = Some(next as usize);
    }

    /// Selects row `idx` when it exists.
    pub fn select_at(&mut self, idx: usize)
        ensures
            same_counters(*old(self), *final(self)),
            same_frame(*old(self), *final(self)),
            final(self).selected == (if idx < old(self).filtered@.len() { Some(idx) } else { old(self).selected }),
            final(self).entries == old(self).entries,
            final(self).filtered == old(self).filtered,
            final(self).baseline == old(self).baseline,
            final(self).baseline_collected == old(self).baseline_collected,
            final(self).search_query == old(self).search_query,
            final(self).search_mode == old(self).search_mode,
            final(self).detail_view == old(self).detail_view,
            final(self).detail_scroll == old(self).detail_scroll,
            final(self).paused == old(self).paused,
            final(self).buffer == old(self).buffer,
            final(self).last_raw == old(self).last_raw,
    {
        if idx < self.filtered.len() {
            self.selected = Some(idx);
        }
    }
}

impl App {
    /// Whether `id` is history.
    fn in_baseline(&self, id: &Vec<char>) -> (r: bool)
        ensures
            r == ids_view(self.baseline@).contains(id@),
    {
        let mut i: usize = 0;
        while i < self.baseline.len()
            invariant
                i <= self.baseline@.len(),
                forall|k: int| 0 <= k < i ==> self.baseline@[k]@ != id@,
            decreases self.baseline@.len() - i,
        {
            let c = chars_of(self.baseline[i].as_str());
            if crate::text::same_text(&c, id) {
                proof {
                    assert(ids_view(self.baseline@)[i as int] == id@);
                }
                return true;
            }
            i = i + 1;
        }
        proof {
            if ids_view(self.baseline@).contains(id@) {
                let k = choose|k: int| 0 <= k < ids_view(self.baseline@).len() && ids_view(self.baseline@)[k] == id@;
                assert(self.baseline@[k]@ == id@);
            }
        }
        false
    }

    /// The position of the entry with id `id`.
    fn find_entry(&self, id: &Vec<char>) -> (r: Option<usize>)
        ensures
            match r {
                Some(k) => find_view(entries_view(self.entries@), id@) == Some(k as int),
                None => find_view(entries_view(self.entries@), id@) is None,
            },
    {
        let ghost v = entries_view(self.entries@);
        proof {
            lemma_find_view(v, id@);
        }
        let mut i: usize = 0;
        while i < self.entries.len()
            invariant
                i <= self.entries@.len(),
                v == entries_view(self.entries@),
                forall|k: int| 0 <= k < i ==> v[k].0 != id@,
                match find_view(v, id@) {
                    Some(x) => 0 <= x < v.len() && v[x].0 == id@ && forall|j: int| 0 <= j < x ==> v[j].0 != id@,
                    None => forall|j: int| 0 <= j < v.len() ==> v[j].0 != id@,
                },
            decreases self.entries@.len() - i,
        {
            let c = chars_of(self.entries[i].id.as_str());
            proof {
                assert(v[i as int].0 == self.entries@[i as int].id@);
            }
            if crate::text::same_text(&c, id) {
                return Some(i);
            }
            i = i + 1;
        }
        None
    }

    /// Takes in the objects of one poll. The first poll only records their
    /// ids as history, hidden for good; later polls update known entries in
    /// place and put new ones on top, keep at most `buffer` entries, and
    /// re-filter (moving to the top row when entries were added).
    pub fn ingest(&mut self, batch: Vec<LogRecord>)
        requires
            old(self).wf(),
        ensures
            same_frame(*old(self), *final(self)),
            final(self).wf(),
            final(self).buffer == old(self).buffer,
            final(self).search_query == old(self).search_query,
            final(self).search_mode == old(self).search_mode,
            final(self).detail_view == old(self).detail_view,
            final(self).detail_scroll == old(self).detail_scroll,
            final(self).paused == old(self).paused,
            final(self).last_raw == old(self).last_raw,
            final(self).fetch_count == old(self).fetch_count,
            final(self).last_error == old(self).last_error,
            final(self).last_entry_count == old(self).last_entry_count,
            final(self).baseline_collected,
            !old(self).baseline_collected ==> {
                &&& final(self).entries == old(self).entries
                &&& final(self).filtered == old(self).filtered
                &&& final(self).selected == old(self).selected
                &&& exists|ids: Seq<Seq<char>>| #[trigger] ids_fit(batch@, ids) && ids_view(final(self).baseline@) == ids_view(old(self).baseline@) + ids
            },
            old(self).baseline_collected ==> {
                &&& final(self).baseline == old(self).baseline
                &&& exists|ids: Seq<Seq<char>>| {
                    let r = ingest_fold(entries_view(old(self).entries@), ids_view(old(self).baseline@), batch@, ids);
                    &&& #[trigger] ids_fit(batch@, ids)
                    &&& entries_view(final(self).entries@) == keep_first(r.0, old(self).buffer as nat)
                    &&& final(self).selected == (if r.1 > 0 {
                        refilter_selection(old(self).selected, stale_selected_id(old(self).selected, old(self).filtered@, final(self).entries@), final(self).entries@, final(self).filtered@, true)
                    } else if r.2 > 0 && old(self).search_query@.len() > 0 {
                        refilter_selection(old(self).selected, stale_selected_id(old(self).selected, old(self).filtered@, final(self).entries@), final(self).entries@, final(self).filtered@, false)
                    } else {
                        old(self).selected
                    })
                }
            },
    {
        if !self.baseline_collected {
            let ghost recs = batch@;
            let ghost mut ids: Seq<Seq<char>> = Seq::empty();
            let mut new_ids: Vec<String> = Vec::new();
            let mut rest = batch;
            let n = rest.len();
            let mut i: usize = 0;
            while i < n
                invariant
                same_frame(*old(self), *self),
                    same_frame(*old(self), *self),
                    n == recs.len(),
                    i <= n,
                    rest@ == recs.skip(i as int),
                    ids.len() == i,
                    forall|k: int| 0 <= k < i ==> ids[k] == entry_id_spec(#[trigger] recs[k].fields@, recs[k].text@),
                    ids_view(new_ids@) == ids,
                decreases n - i,
            {
                let rec = rest.remove(0);
                proof {
                    assert(rec == recs[i as int]);
                    assert(rest@ =~= recs.skip(i + 1));
                }
                let id = entry_id(&rec.fields, rec.text.as_str());
                proof {
                    ids = ids.push(id@);
                }
                new_ids.push(id);
                proof {
                    assert(ids_view(new_ids@) =~= ids);
                }
                i = i + 1;
            }
            let ghost b0 = self.baseline@;
            self.baseline.append(&mut new_ids);
            self.baseline_collected = true;
            proof {
                assert(ids_fit(recs, ids));
                assert(ids_view(self.baseline@) =~= ids_view(b0) + ids);
            }
            return;
        }
        let ghost v0 = entries_view(self.entries@);
        let ghost bl = ids_view(self.baseline@);
        let ghost recs = batch@;
        let ghost mut ids: Seq<Seq<char>> = Seq::empty();
        let ghost old_filtered = self.filtered@;
        let ghost old_selected = self.selected;
        proof {
            lemma_filter_spec(self.entries@, self.search_query@);
        }
        let mut added: usize = 0;
        let mut updated: usize = 0;
        let mut rest = batch;
        let n = rest.len();
        let mut i: usize = 0;
        while i < n
            invariant
                same_frame(*old(self), *self),
                n == recs.len(),
                i <= n,
                rest@ == recs.skip(i as int),
                ids.len() == i,
                forall|k: int| 0 <= k < i ==> ids[k] == entry_id_spec(#[trigger] recs[k].fields@, recs[k].text@),
                bl == ids_view(self.baseline@),
                entries_view(self.entries@) == ingest_fold(v0, bl, recs.take(i as int), ids).0,
                added as nat == ingest_fold(v0, bl, recs.take(i as int), ids).1,
                updated as nat == ingest_fold(v0, bl, recs.take(i as int), ids).2,
                added + updated <= i,
                self.entries@.len() == v0.len() + added,
                v0.len() <= self.buffer,
                forall|a: int, b: int| 0 <= a < b < self.entries@.len() ==> self.entries@[a].id@ != self.entries@[b].id@,
                forall|a: int, b: int| 0 <= a < self.entries@.len() && 0 <= b < self.baseline@.len() ==> self.entries@[a].id@ != self.baseline@[b]@,
                self.filtered@ == old_filtered,
                self.selected == old_selected,
                forall|k: int| 0 <= k < old_filtered.len() ==> (#[trigger] old_filtered[k]) < v0.len(),
                self.baseline_collected,
                !(added == 0 && updated == 0) || self.entries@ == old(self).entries@,
                self.buffer == old(self).buffer,
                self.search_query == old(self).search_query,
                self.search_mode == old(self).search_mode,
                self.detail_view == old(self).detail_view,
                self.detail_scroll == old(self).detail_scroll,
                self.paused == old(self).paused,
                self.last_raw == old(self).last_raw,
                self.baseline == old(self).baseline,
                self.fetch_count == old(self).fetch_count,
                self.last_error == old(self).last_error,
                self.last_entry_count == old(self).last_entry_count,
            decreases n - i,
        {
            let rec = rest.remove(0);
            proof {
                assert(rec == recs[i as int]);
                assert(rest@ =~= recs.skip(i + 1));
                assert(recs.take(i + 1).drop_last() =~= recs.take(i as int));
            }
            let id = entry_id(&rec.fields, rec.text.as_str());
            let idc = chars_of(id.as_str());
            let ghost prev_ids = ids;
            proof {
                ids = ids.push(id@);
                assert(ids.drop_last() =~= prev_ids);
            }
            if self.in_baseline(&idc) {
                i = i + 1;
                continue;
            }
            let ghost before = self.entries@;
            proof {
                lemma_find_view(entries_view(before), id@);
            }
            match self.find_entry(&idc) {
                Some(k) => {
                    let prev = self.entries.remove(k);
                    let LogRecord { fields, text } = rec;
                    self.entries.insert(k, Entry { id: prev.id, raw: Json::Object(fields), search: text });
                    proof {
                        assert(self.entries@ =~= before.update(k as int, self.entries@[k as int]));
                        assert(entries_view(self.entries@) =~= entries_view(before).update(k as int, (id@, Json::Object(recs[i as int].fields), recs[i as int].text@)));
                        assert forall|a: int, b: int| 0 <= a < b < self.entries@.len() implies self.entries@[a].id@ != self.entries@[b].id@ by {
                            assert(entries_view(before)[a].0 == before[a].id@);
                            assert(entries_view(before)[b].0 == before[b].id@);
                        }
                    }
                    if updated < usize::MAX {
                        updated = updated + 1;
                    }
                },
                None => {
                    let LogRecord { fields, text } = rec;
                    self.entries.insert(0, Entry { id, raw: Json::Object(fields), search: text });
                    proof {
                        assert(entries_view(self.entries@) =~= seq![(id@, Json::Object(recs[i as int].fields), recs[i as int].text@)] + entries_view(before));
                        assert forall|a: int, b: int| 0 <= a < b < self.entries@.len() implies self.entries@[a].id@ != self.entries@[b].id@ by {
                            if a == 0 {
                                assert(self.entries@[b] == before[b - 1]);
                                assert(entries_view(before)[b - 1].0 == before[b - 1].id@);
                            } else {
                                assert(self.entries@[a] == before[a - 1]);
                                assert(self.entries@[b] == before[b - 1]);
                            }
                        }
                        assert forall|a: int, b: int| 0 <= a < self.entries@.len() && 0 <= b < self.baseline@.len() implies self.entries@[a].id@ != self.baseline@[b]@ by {
                            if a == 0 {
                                assert(bl[b] == self.baseline@[b]@);
                            } else {
                                assert(self.entries@[a] == before[a - 1]);
                            }
                        }
                    }
                    added = added + 1;
                },
            }
            i = i + 1;
        }
        proof {
            assert(recs.take(n as int) =~= recs);
        }
        let ghost mid = self.entries@;
        if self.entries.len() > self.buffer {
            self.entries.truncate(self.buffer);
            proof {
                assert(entries_view(self.entries@) =~= entries_view(mid).take(self.buffer as int));
            }
        }
        proof {
            assert(entries_view(self.entries@) == keep_first(ingest_fold(v0, bl, recs, ids).0, self.buffer as nat));
            assert forall|k: int| 0 <= k < old_filtered.len() implies (#[trigger] old_filtered[k]) < self.entries@.len() by {}
        }
        if added > 0 {
            self.refilter(true);
        } else if updated > 0 && !self.search_query.as_str().is_empty() {
            self.refilter(false);
        } else if updated > 0 {
            let q = to_lower(self.search_query.as_str());
            proof {
                assert forall|k: int| 0 <= k < self.entries@.len() implies entry_matches(#[trigger] self.entries@[k], self.search_query@) by {
                    assert(lowercase(self.entries@[k].search@).subrange(0, 0 + q@.len() as int) =~= q@);
                }
                lemma_filter_all(self.entries@, self.search_query@);
                assert forall|k: int| 0 <= k < old(self).entries@.len() implies entry_matches(#[trigger] old(self).entries@[k], self.search_query@) by {
                    assert(lowercase(old(self).entries@[k].search@).subrange(0, 0 + q@.len() as int) =~= q@);
                }
                lemma_filter_all(old(self).entries@, self.search_query@);
            }
        }
        proof {
            assert(ids_fit(recs, ids));
            assert(self.entries@.len() <= self.buffer);
            assert(forall|a: int, b: int| 0 <= a < b < self.entries@.len() ==> self.entries@[a].id@ != self.entries@[b].id@);
            assert(forall|a: int, b: int| 0 <= a < self.entries@.len() && 0 <= b < self.baseline@.len() ==> self.entries@[a].id@ != self.baseline@[b]@);
            assert(self.filtered_ok());
        }
    }
}

/// When every entry matches, the rows are all positions in order.
proof fn lemma_filter_all(es: Seq<Entry>, q: Seq<char>)
    requires
        forall|k: int| 0 <= k < es.len() ==> entry_matches(#[trigger] es[k], q),
        es.len() <= usize::MAX,
    ensures
        filter_spec(es, q) == Seq::new(es.len(), |k: int| k as usize),
    decreases es.len(),
{
    if es.len() > 0 {
        let init = es.drop_last();
        assert forall|k: int| 0 <= k < init.len() implies entry_matches(#[trigger] init[k], q) by {
            assert(init[k] == es[k]);
        }
        lemma_filter_all(init, q);
        assert(entry_matches(es[es.len() - 1], q));
        assert(filter_spec(es, q) =~= Seq::new(es.len(), |k: int| k as usize));
    }
}

/// A key press as the tail handles it.
#[derive(Debug, Clone, Copy, PartialEq, Eq, Structural)]
pub enum KeyInput {
    Esc,
    Enter,
    Backspace,
    Char(char),
    Up,
    Down,
    PageUp,
    PageDown,
    Home,
    End,
    Other,
}

/// The kind of a mouse event.
#[derive(Debug, Clone, Copy, PartialEq, Eq, Structural)]
pub enum MouseKind {
    LeftDown,
    OtherDown,
    ScrollUp,
    ScrollDown,
    Other,
}

/// A mouse event at a terminal cell.
#[derive(Debug, Clone, Copy, PartialEq, Eq, Structural)]
pub struct MouseInput {
    pub kind: MouseKind,
    pub row: u16,
    pub column: u16,
}

/// `a + b`, capped at `u16::MAX`.
pub open spec fn sat_add16(a: u16, b: u16) -> u16 {
    if a + b > u16::MAX { u16::MAX } else { (a + b) as u16 }
}

/// `a - b`, floored at 0.
pub open spec fn sat_sub16(a: u16, b: u16) -> u16 {
    if a < b { 0 } else { (a - b) as u16 }
}

fn add16(a: u16, b: u16) -> (r: u16)
    ensures
        r == sat_add16(a, b),
{
    if a as u32 + b as u32 > 65535 { 65535 } else { a + b }
}

fn sub16(a: u16, b: u16) -> (r: u16)
    ensures
        r == sat_sub16(a, b),
{
    if a < b { 0 } else { a - b }
}

/// The selection after moving by `delta` rows among `n` rows.
pub open spec fn moved_selection(sel: Option<usize>, n: int, delta: int) -> Option<usize> {
    if n == 0 {
        sel
    } else {
        let cur: int = match sel { Some(c) => c as int, None => 0 };
        Some(clamp_spec(cur + delta, 0, n - 1) as usize)
    }
}

/// The key clears the buffer (only in the list view, without Ctrl).
pub open spec fn is_clear_key(app: App, code: KeyInput, ctrl: bool) -> bool {
    !app.search_mode && app.detail_view == DetailView::Closed && code == KeyInput::Char('c') && !ctrl
}

/// The key ends the program.
pub open spec fn key_quits(app: App, code: KeyInput, ctrl: bool) -> bool {
    if app.search_mode {
        false
    } else if app.detail_view != DetailView::Closed {
        code == KeyInput::Char('c') && ctrl
    } else {
        code == KeyInput::Char('q') || code == KeyInput::Esc || (code == KeyInput::Char('c') && ctrl)
    }
}

/// The key changes the filter text (and so re-filters).
pub open spec fn key_edits_query(app: App, code: KeyInput, ctrl: bool) -> bool {
    app.search_mode && (code == KeyInput::Esc || code == KeyInput::Backspace || (code is Char && !ctrl))
}

/// The filter text after the key.
pub open spec fn key_query(app: App, code: KeyInput, ctrl: bool) -> Seq<char> {
    let q = app.search_query@;
    if !app.search_mode {
        q
    } else {
        match code {
            KeyInput::Esc => Seq::empty(),
            KeyInput::Backspace => if q.len() > 0 { q.drop_last() } else { q },
            KeyInput::Char(c) => if !ctrl { q.push(c) } else { q },
            _ => q,
        }
    }
}

/// Whether the filter prompt is open after the key.
pub open spec fn key_search_mode(app: App, code: KeyInput, ctrl: bool) -> bool {
    if app.search_mode {
        !(code == KeyInput::Esc || code == KeyInput::Enter)
    } else if app.detail_view != DetailView::Closed {
        false
    } else {
        code == KeyInput::Char('/')
    }
}

/// The selection change the key asks for, as a number of rows.
pub open spec fn key_move(app: App, code: KeyInput) -> Option<int> {
    if app.search_mode || app.detail_view != DetailView::Closed {
        None
    } else {
        let n = app.filtered@.len() as int;
        match code {
            KeyInput::Up => Some(-1),
            KeyInput::Char('k') => Some(-1),
            KeyInput::Down => Some(1),
            KeyInput::Char('j') => Some(1),
            KeyInput::PageUp => Some(-10),
            KeyInput::PageDown => Some(10),
            KeyInput::Home => Some(-n),
            KeyInput::Char('g') => Some(-n),
            KeyInput::End => Some(n),
            KeyInput::Char('G') => Some(n),
            _ => None,
        }
    }
}

/// The modal after the key.
pub open spec fn key_detail_view(app: App, code: KeyInput, ctrl: bool) -> DetailView {
    if app.search_mode {
        app.detail_view
    } else if app.detail_view != DetailView::Closed {
        match code {
            KeyInput::Esc | KeyInput::Enter => DetailView::Closed,
            KeyInput::Char('q') => DetailView::Closed,
            KeyInput::Char('r') => if app.detail_view == DetailView::Entry && app.last_raw is Some {
                DetailView::Raw
            } else if app.detail_view == DetailView::Raw {
                DetailView::Entry
            } else {
                app.detail_view
            },
            _ => app.detail_view,
        }
    } else {
        match code {
            KeyInput::Char('r') => if app.last_raw is Some { DetailView::Raw } else { app.detail_view },
            KeyInput::Enter | KeyInput::Char('l') => if selected_index(app) is Some { DetailView::Entry } else { app.detail_view },
            _ => app.detail_view,
        }
    }
}

/// The detail scroll offset after the key.
pub open spec fn key_scroll(app: App, code: KeyInput, ctrl: bool) -> u16 {
    let s = app.detail_scroll;
    if app.search_mode {
        s
    } else if app.detail_view != DetailView::Closed {
        match code {
            KeyInput::Esc | KeyInput::Enter | KeyInput::Home => 0,
            KeyInput::Char('q') => 0,
            KeyInput::Char('r') => 0,
            KeyInput::Up | KeyInput::Char('k') => sat_sub16(s, 1),
            KeyInput::Down | KeyInput::Char('j') => sat_add16(s, 1),
            KeyInput::PageUp => sat_sub16(s, 10),
            KeyInput::PageDown => sat_add16(s, 10),
            _ => s,
        }
    } else {
        match code {
            KeyInput::Char('r') => if app.last_raw is Some { 0 } else { s },
            KeyInput::Enter | KeyInput::Char('l') => if selected_index(app) is Some { 0 } else { s },
            _ => s,
        }
    }
}

/// Editing the filter: Backspace removes the last character of a non-empty
/// query and nothing else; a typed character is appended; Esc clears it;
/// and Backspace right after typing a character gives back the query as it
/// was before.
pub proof fn lemma_filter_editing(app: App, typed: App, c: char, ctrl: bool)
    requires
        app.search_mode,
        typed.search_mode,
        typed.search_query@ == key_query(app, KeyInput::Char(c), false),
    ensures
        app.search_query@.len() > 0 ==> key_query(app, KeyInput::Backspace, ctrl) == app.search_query@.take(
            app.search_query@.len() - 1,
        ),
        key_query(app, KeyInput::Char(c), false) == app.search_query@ + seq![c],
        key_query(app, KeyInput::Esc, ctrl).len() == 0,
        key_query(typed, KeyInput::Backspace, ctrl) == app.search_query@,
{
    assert(app.search_query@.push(c).drop_last() =~= app.search_query@);
    assert(app.search_query@.push(c) =~= app.search_query@ + seq![c]);
    if app.search_query@.len() > 0 {
        assert(app.search_query@.drop_last() =~= app.search_query@.take(app.search_query@.len() - 1));
    }
}

impl App {
    /// Applies a key press (`ctrl` tells whether Control was held); returns
    /// whether to quit. The filter prompt takes text; the detail modal
    /// scrolls and toggles raw JSON; the list navigates, pauses, clears the
    /// buffer and opens the modals.
    pub fn handle_key(&mut self, code: KeyInput, ctrl: bool) -> (quit: bool)
        requires
            old(self).wf(),
        ensures
            same_frame(*old(self), *final(self)),
            same_counters(*old(self), *final(self)),
            final(self).wf(),
            quit == key_quits(*old(self), code, ctrl),
            final(self).search_query@ == key_query(*old(self), code, ctrl),
            final(self).search_mode == key_search_mode(*old(self), code, ctrl),
            final(self).detail_view == key_detail_view(*old(self), code, ctrl),
            final(self).detail_scroll == key_scroll(*old(self), code, ctrl),
            final(self).paused == (if !old(self).search_mode && old(self).detail_view == DetailView::Closed && code == KeyInput::Char(' ') {
                !old(self).paused
            } else {
                old(self).paused
            }),
            final(self).buffer == old(self).buffer,
            final(self).last_raw == old(self).last_raw,
            is_clear_key(*old(self), code, ctrl) ==> {
                &&& final(self).entries@.len() == 0
                &&& final(self).baseline@.len() == 0
                &&& !final(self).baseline_collected
                &&& final(self).selected is None
                &&& final(self).filtered@.len() == 0
            },
            !is_clear_key(*old(self), code, ctrl) ==> {
                &&& final(self).entries == old(self).entries
                &&& final(self).baseline == old(self).baseline
                &&& final(self).baseline_collected == old(self).baseline_collected
            },
            key_edits_query(*old(self), code, ctrl) ==> final(self).selected == refilter_selection(
                old(self).selected,
                selected_id(*old(self)),
                old(self).entries@,
                final(self).filtered@,
                false,
            ),
            key_move(*old(self), code) is Some ==> final(self).selected == moved_selection(
                old(self).selected,
                old(self).filtered@.len() as int,
                key_move(*old(self), code)->0,
            ),
            !key_edits_query(*old(self), code, ctrl) && key_move(*old(self), code) is None && !is_clear_key(*old(self), code, ctrl) ==> {
                &&& final(self).selected == old(self).selected
                &&& final(self).filtered == old(self).filtered
            },
            old(self).search_mode && code == KeyInput::Backspace && old(self).search_query@.len() > 0 ==> {
                &&& final(self).search_query@.len() + 1 == old(self).search_query@.len()
                &&& final(self).search_query@.push(old(self).search_query@.last()) == old(self).search_query@
            },
            old(self).search_mode && code == KeyInput::Backspace && old(self).search_query@.len() == 0
                ==> final(self).search_query@.len() == 0,
            old(self).search_mode && code is Char && !ctrl
                ==> final(self).search_query@ == old(self).search_query@.push(code->Char_0),
            old(self).search_mode && code == KeyInput::Esc ==> final(self).search_query@.len() == 0,
            !old(self).search_mode ==> final(self).search_query@ == old(self).search_query@,
    {
        proof {
            lemma_filter_spec(self.entries@, self.search_query@);
        }
        if self.search_mode {
            match code {
                KeyInput::Esc => {
                    self.search_mode = false;
                    self.search_query = String::new();
                    self.refilter(false);
                },
                KeyInput::Enter => {
                    self.search_mode = false;
                },
                KeyInput::Backspace => {
                    let mut q = chars_of(self.search_query.as_str());
                    let _ = q.pop();
                    self.search_query = string_of(&q);
                    self.refilter(false);
                },
                KeyInput::Char(c) => {
                    if !ctrl {
                        let mut q = chars_of(self.search_query.as_str());
                        q.push(c);
                        self.search_query = string_of(&q);
                        self.refilter(false);
                    }
                },
                _ => {},
            }
            return false;
        }
        if self.detail_view != DetailView::Closed {
            match code {
                KeyInput::Esc | KeyInput::Enter => {
                    self.detail_view = DetailView::Closed;
                    self.detail_scroll = 0;
                },
                KeyInput::Char('q') => {
                    self.detail_view = DetailView::Closed;
                    self.detail_scroll = 0;
                },
                KeyInput::Char('c') => {
                    if ctrl {
                        return true;
                    }
                },
                KeyInput::Char('r') => {
                    self.detail_view = match self.detail_view {
                        DetailView::Entry => if self.last_raw.is_some() { DetailView::Raw } else { DetailView::Entry },
                        DetailView::Raw => DetailView::Entry,
                        other => other,
                    };
                    self.detail_scroll = 0;
                },
                KeyInput::Up | KeyInput::Char('k') => {
                    self.detail_scroll = sub16(self.detail_scroll, 1);
                },
                KeyInput::Down | KeyInput::Char('j') => {
                    self.detail_scroll = add16(self.detail_scroll, 1);
                },
                KeyInput::PageUp => {
                    self.detail_scroll = sub16(self.detail_scroll, 10);
                },
                KeyInput::PageDown => {
                    self.detail_scroll = add16(self.detail_scroll, 10);
                },
                KeyInput::Home => {
                    self.detail_scroll = 0;
                },
                _ => {},
            }
            return false;
        }
        match code {
            KeyInput::Char('q') | KeyInput::Esc => {
                return true;
            },
            KeyInput::Char('c') => {
                if ctrl {
                    return true;
                }
                self.entries.clear();
                self.baseline.clear();
                self.baseline_collected = false;
                self.selected = None;
                self.refilter(false);
            },
            KeyInput::Char(' ') => {
                self.paused = !self.paused;
            },
            KeyInput::Char('/') => {
                self.search_mode = true;
            },
            KeyInput::Char('r') => {
                if self.last_raw.is_some() {
                    self.detail_view = DetailView::Raw;
                    self.detail_scroll = 0;
                }
            },
            KeyInput::Up | KeyInput::Char('k') => self.move_sel(-1),
            KeyInput::Down | KeyInput::Char('j') => self.move_sel(1),
            KeyInput::PageUp => self.move_sel(-10),
            KeyInput::PageDown => self.move_sel(10),
            KeyInput::Home | KeyInput::Char('g') => {
                let n = self.filtered.len() as i128;
                self.move_sel(-n);
            },
            KeyInput::End | KeyInput::Char('G') => {
                let n = self.filtered.len() as i128;
                self.move_sel(n);
            },
            KeyInput::Enter | KeyInput::Char('l') => {
                if self.selected_entry().is_some() {
                    self.detail_view = DetailView::Entry;
                    self.detail_scroll = 0;
                }
            },
            _ => {},
        }
        false
    }

    /// Applies a mouse event: in a modal the wheel scrolls; over the list a
    /// press selects the row under it (a left press also opens its detail)
    /// and the wheel moves the selection.
    pub fn handle_mouse(&mut self, me: MouseInput)
        requires
            old(self).wf(),
        ensures
            same_frame(*old(self), *final(self)),
            final(self).wf(),
            final(self).entries == old(self).entries,
            final(self).filtered == old(self).filtered,
            final(self).search_query == old(self).search_query,
            final(self).search_mode == old(self).search_mode,
            final(self).paused == old(self).paused,
            ({
                let o = *old(self);
                let a = o.list_inner;
                let inside = me.row >= a.y && me.row < a.y + a.height && me.column >= a.x && me.column < a.x + a.width;
                let is_down = me.kind == MouseKind::LeftDown || me.kind == MouseKind::OtherDown;
                let idx: int = o.list_offset + (me.row - a.y);
                if o.detail_view != DetailView::Closed {
                    &&& final(self).selected == o.selected
                    &&& final(self).detail_view == o.detail_view
                    &&& final(self).detail_scroll == (if me.kind == MouseKind::ScrollDown {
                        sat_add16(o.detail_scroll, 3)
                    } else if me.kind == MouseKind::ScrollUp {
                        sat_sub16(o.detail_scroll, 3)
                    } else {
                        o.detail_scroll
                    })
                } else if is_down {
                    &&& final(self).selected == (if inside && idx < o.filtered@.len() { Some(idx as usize) } else { o.selected })
                    &&& final(self).detail_view == (if inside && me.kind == MouseKind::LeftDown { DetailView::Entry } else { o.detail_view })
                    &&& final(self).detail_scroll == (if inside && me.kind == MouseKind::LeftDown { 0 } else { o.detail_scroll })
                } else {
                    &&& final(self).detail_view == o.detail_view
                    &&& final(self).detail_scroll == o.detail_scroll
                    &&& final(self).selected == (if me.kind == MouseKind::ScrollDown {
                        moved_selection(o.selected, o.filtered@.len() as int, 3)
                    } else if me.kind == MouseKind::ScrollUp {
                        moved_selection(o.selected, o.filtered@.len() as int, -3)
                    } else {
                        o.selected
                    })
                }
            }),
    {
        if self.detail_view != DetailView::Closed {
            match me.kind {
                MouseKind::ScrollDown => {
                    self.detail_scroll = add16(self.detail_scroll, 3);
                },
                MouseKind::ScrollUp => {
                    self.detail_scroll = sub16(self.detail_scroll, 3);
                },
                _ => {},
            }
            return;
        }
        match me.kind {
            MouseKind::LeftDown | MouseKind::OtherDown => {
                let a = self.list_inner;
                let row = me.row as u32;
                let col = me.column as u32;
                if row >= a.y as u32 && row < a.y as u32 + a.height as u32 && col >= a.x as u32 && col < a.x as u32
                    + a.width as u32 {
                    let idx: u128 = self.list_offset as u128 + (row - a.y as u32) as u128;
                    if idx < self.filtered.len() as u128 {
                        self.select_at(idx as usize);
                    }
                    if me.kind == MouseKind::LeftDown {
                        self.detail_view = DetailView::Entry;
                        self.detail_scroll = 0;
                    }
                }
            },
            MouseKind::ScrollDown => self.move_sel(3),
            MouseKind::ScrollUp => self.move_sel(-3),
            _ => {},
        }
    }

    /// Records a successful poll: clears the error, counts it, keeps the raw
    /// response and takes in its entries.
    pub fn on_fetch_ok(&mut self, entries: Vec<LogRecord>, raw: Json)
        requires
            old(self).wf(),
            old(self).fetch_count < u64::MAX,
        ensures
            final(self).wf(),
            final(self).last_error is None,
            final(self).fetch_count == old(self).fetch_count + 1,
            final(self).last_entry_count == entries@.len(),
            final(self).last_raw == Some(raw),
            final(self).baseline_collected,
    {
        let count = entries.len();
        self.ingest(entries);
        self.last_error = None;
        self.fetch_count = self.fetch_count + 1;
        self.last_entry_count = count;
        self.last_raw = Some(raw);
    }

    /// Records a failed poll.
    pub fn on_fetch_err(&mut self, msg: String)
        ensures
            opt_text_eq(final(self).last_error, msg),
            final(self).entries == old(self).entries,
            final(self).filtered == old(self).filtered,
            final(self).selected == old(self).selected,
            final(self).fetch_count == old(self).fetch_count,
    {
        self.last_error = Some(msg);
    }
}

/// `o` holds `m`.
pub open spec fn opt_text_eq(o: Option<String>, m: String) -> bool {
    o == Some(m)
}
} // verus!
