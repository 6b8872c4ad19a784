//! Broken-down UTC instants: the creation time an error object may carry,
//! with a verified RFC 3339 (`YYYY-MM-DDThh:mm:ssZ`) rendering and parser.
use vstd::prelude::*;
use vstd::string::StrSliceExecFns;
use vstd::string::StringExecFns;
use crate::text::four_digit_chars;
use crate::text::two_digit_chars;
use crate::text::push_four_digits;
use crate::text::push_two_digits;
use crate::text::read_digit;
use crate::text::is_digit;
use crate::text::digit_val;
use crate::text::lemma_digit_char_val;

verus! {

/// A UTC instant broken down to whole seconds.
///
/// Field ranges are governed by [`Timestamp::wf`]; a day count is only held
/// to the coarse `1..=31` bound, as no calendar arithmetic is performed on
/// these values.
#[derive(Clone, Copy, Debug, PartialEq, Eq, Structural)]
pub struct Timestamp {
    pub year: u16,
    pub month: u8,
    pub day: u8,
    pub hour: u8,
    pub minute: u8,
    pub second: u8,
}

impl Timestamp {
    /// Field ranges under which the RFC 3339 rendering is faithful.
    pub open spec fn wf(&self) -> bool {
        &&& self.year <= 9999
        &&& 1 <= self.month <= 12
        &&& 1 <= self.day <= 31
        &&& self.hour <= 23
        &&& self.minute <= 59
        &&& self.second <= 59
    }

    /// The twenty-character `YYYY-MM-DDThh:mm:ssZ` rendering.
    pub open spec fn rfc3339_chars(&self) -> Seq<char> {
        four_digit_chars(self.year as int) + seq!['-'] + two_digit_chars(self.month as int)
            + seq!['-'] + two_digit_chars(self.day as int) + seq!['T']
            + two_digit_chars(self.hour as int) + seq![':'] + two_digit_chars(self.minute as int)
            + seq![':'] + two_digit_chars(self.second as int) + seq!['Z']
    }

    /// Renders this instant as `YYYY-MM-DDThh:mm:ssZ`.
    pub fn render_rfc3339(&self) -> (r: String)
        requires
            self.wf(),
        ensures
            r@ == self.rfc3339_chars(),
    {
        proof {
            reveal_strlit("-");
            reveal_strlit("T");
            reveal_strlit(":");
            reveal_strlit("Z");
        }
        let mut s = String::new();
        push_four_digits(&mut s, self.year);
        s.append("-");
        push_two_digits(&mut s, self.month);
        s.append("-");
        push_two_digits(&mut s, self.day);
        s.append("T");
        push_two_digits(&mut s, self.hour);
        s.append(":");
        push_two_digits(&mut s, self.minute);
        s.append(":");
        push_two_digits(&mut s, self.second);
        s.append("Z");
        proof {
            assert(s@ =~= self.rfc3339_chars());
        }
        s
    }

    /// The present instant in UTC, truncated to whole seconds; an instant
    /// outside the renderable year range falls back to the epoch instant.
    pub fn now() -> (t: Timestamp)
        ensures
            t.wf(),
    {
        let (y, mo, d, h, mi, s) = now_parts();
        if 0 <= y && y <= 9999 {
            Timestamp {
                year: y as u16,
                month: mo as u8,
                day: d as u8,
                hour: h as u8,
                minute: mi as u8,
                second: s as u8,
            }
        } else {
            Timestamp { year: 1970, month: 1, day: 1, hour: 0, minute: 0, second: 0 }
        }
    }
}

/// Relies on `chrono::Utc::now` for the present UTC instant, and on chrono's
/// `Datelike` / `Timelike` accessors, whose documented ranges the clauses
/// repeat: month 1..=12, day 1..=31, hour 0..=23, minute 0..=59,
/// second 0..=59.
#[verifier::external_body]
fn now_parts() -> (r: (i32, u32, u32, u32, u32, u32))
    ensures
        1 <= r.1 <= 12,
        1 <= r.2 <= 31,
        r.3 <= 23,
        r.4 <= 59,
        r.5 <= 59,
{
    let now = chrono::Utc::now();
    (
        chrono::Datelike::year(&now),
        chrono::Datelike::month(&now),
        chrono::Datelike::day(&now),
        chrono::Timelike::hour(&now),
        chrono::Timelike::minute(&now),
        chrono::Timelike::second(&now),
    )
}

/// The value of two decimal digit characters at `i`.
pub open spec fn two_val(s: Seq<char>, i: int) -> int {
    digit_val(s[i]) * 10 + digit_val(s[i + 1])
}

/// The value of four decimal digit characters at `i`.
pub open spec fn four_val(s: Seq<char>, i: int) -> int {
    digit_val(s[i]) * 1000 + digit_val(s[i + 1]) * 100 + digit_val(s[i + 2]) * 10
        + digit_val(s[i + 3])
}

/// Whether `s` has the exact `YYYY-MM-DDThh:mm:ssZ` shape with each component
/// in range.
pub open spec fn ts_text_wf(s: Seq<char>) -> bool {
    &&& s.len() == 20
    &&& is_digit(s[0]) && is_digit(s[1]) && is_digit(s[2]) && is_digit(s[3])
    &&& s[4] == '-'
    &&& is_digit(s[5]) && is_digit(s[6])
    &&& s[7] == '-'
    &&& is_digit(s[8]) && is_digit(s[9])
    &&& s[10] == 'T'
    &&& is_digit(s[11]) && is_digit(s[12])
    &&& s[13] == ':'
    &&& is_digit(s[14]) && is_digit(s[15])
    &&& s[16] == ':'
    &&& is_digit(s[17]) && is_digit(s[18])
    &&& s[19] == 'Z'
    &&& 1 <= two_val(s, 5) <= 12
    &&& 1 <= two_val(s, 8) <= 31
    &&& two_val(s, 11) <= 23
    &&& two_val(s, 14) <= 59
    &&& two_val(s, 17) <= 59
}

/// The instant a `YYYY-MM-DDThh:mm:ssZ` text denotes, if it has that shape.
pub open spec fn parse_rfc3339_chars(s: Seq<char>) -> Option<Timestamp> {
    if ts_text_wf(s) {
        Some(
            Timestamp {
                year: four_val(s, 0) as u16,
                month: two_val(s, 5) as u8,
                day: two_val(s, 8) as u8,
                hour: two_val(s, 11) as u8,
                minute: two_val(s, 14) as u8,
                second: two_val(s, 17) as u8,
            },
        )
    } else {
        None
    }
}

/// Parses a `YYYY-MM-DDThh:mm:ssZ` text.
pub fn parse_rfc3339(s: &str) -> (r: Option<Timestamp>)
    ensures
        r == parse_rfc3339_chars(s@),
        r matches Some(t) ==> t.wf(),
{
    if s.unicode_len() != 20 {
        return None;
    }
    let year: u16 = match (
        read_digit(s.get_char(0)),
        read_digit(s.get_char(1)),
        read_digit(s.get_char(2)),
        read_digit(s.get_char(3)),
    ) {
        (Some(a), Some(b), Some(c), Some(d)) => (a as u16) * 1000 + (b as u16) * 100 + (c as u16)
            * 10 + (d as u16),
        _ => { return None; },
    };
    if s.get_char(4) != '-' {
        return None;
    }
    let month: u8 = match (read_digit(s.get_char(5)), read_digit(s.get_char(6))) {
        (Some(a), Some(b)) => a * 10 + b,
        _ => { return None; },
    };
    if s.get_char(7) != '-' {
        return None;
    }
    let day: u8 = match (read_digit(s.get_char(8)), read_digit(s.get_char(9))) {
        (Some(a), Some(b)) => a * 10 + b,
        _ => { return None; },
    };
    if s.get_char(10) != 'T' {
        return None;
    }
    let hour: u8 = match (read_digit(s.get_char(11)), read_digit(s.get_char(12))) {
        (Some(a), Some(b)) => a * 10 + b,
        _ => { return None; },
    };
    if s.get_char(13) != ':' {
        return None;
    }
    let minute: u8 = match (read_digit(s.get_char(14)), read_digit(s.get_char(15))) {
        (Some(a), Some(b)) => a * 10 + b,
        _ => { return None; },
    };
    if s.get_char(16) != ':' {
        return None;
    }
    let second: u8 = match (read_digit(s.get_char(17)), read_digit(s.get_char(18))) {
        (Some(a), Some(b)) => a * 10 + b,
        _ => { return None; },
    };
    if s.get_char(19) != 'Z' {
        return None;
    }
    if month < 1 || month > 12 || day < 1 || day > 31 || hour > 23 || minute > 59 || second > 59 {
        return None;
    }
    Some(Timestamp { year, month, day, hour, minute, second })
}

/// A well-formed instant rendered to RFC 3339 text parses back to itself.
pub proof fn lemma_rfc3339_roundtrip(t: Timestamp)
    requires
        t.wf(),
    ensures
        parse_rfc3339_chars(t.rfc3339_chars()) == Some(t),
{
    let s = t.rfc3339_chars();
    let y = t.year as int;
    let mo = t.month as int;
    let d = t.day as int;
    let h = t.hour as int;
    let mi = t.minute as int;
    let sec = t.second as int;
    lemma_digit_char_val(y / 1000);
    lemma_digit_char_val(y / 100 % 10);
    lemma_digit_char_val(y / 10 % 10);
    lemma_digit_char_val(y % 10);
    lemma_digit_char_val(mo / 10);
    lemma_digit_char_val(mo % 10);
    lemma_digit_char_val(d / 10);
    lemma_digit_char_val(d % 10);
    lemma_digit_char_val(h / 10);
    lemma_digit_char_val(h % 10);
    lemma_digit_char_val(mi / 10);
    lemma_digit_char_val(mi % 10);
    lemma_digit_char_val(sec / 10);
    lemma_digit_char_val(sec % 10);
    lemma_four_digit_value(y);
    lemma_two_digit_value(mo);
    lemma_two_digit_value(d);
    lemma_two_digit_value(h);
    lemma_two_digit_value(mi);
    lemma_two_digit_value(sec);
    assert(ts_text_wf(s));
    assert(four_val(s, 0) == y);
    assert(two_val(s, 5) == mo);
    assert(two_val(s, 8) == d);
    assert(two_val(s, 11) == h);
    assert(two_val(s, 14) == mi);
    assert(two_val(s, 17) == sec);
}

/// Splitting a value below one hundred into its two decimal digits loses
/// nothing.
pub proof fn lemma_two_digit_value(v: int)
    requires
        0 <= v <= 99,
    ensures
        (v / 10) * 10 + v % 10 == v,
        0 <= v / 10 <= 9,
        0 <= v % 10 <= 9,
{
    vstd::arithmetic::div_mod::lemma_fundamental_div_mod(v, 10);
}

/// Splitting a value below ten thousand into its four decimal digits loses
/// nothing.
pub proof fn lemma_four_digit_value(v: int)
    requires
        0 <= v <= 9999,
    ensures
        (v / 1000) * 1000 + (v / 100 % 10) * 100 + (v / 10 % 10) * 10 + v % 10 == v,
        0 <= v / 1000 <= 9,
        0 <= v / 100 % 10 <= 9,
        0 <= v / 10 % 10 <= 9,
        0 <= v % 10 <= 9,
{
    vstd::arithmetic::div_mod::lemma_fundamental_div_mod(v, 10);
    vstd::arithmetic::div_mod::lemma_fundamental_div_mod(v / 10, 10);
    vstd::arithmetic::div_mod::lemma_fundamental_div_mod(v / 100, 10);
    vstd::arithmetic::div_mod::lemma_div_denominator(v, 10, 10);
    vstd::arithmetic::div_mod::lemma_div_denominator(v, 100, 10);
}

} // verus!
