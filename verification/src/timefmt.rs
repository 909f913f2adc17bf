//! Civil UTC timestamps at second precision, and their fixed-width
//! RFC 3339 text form `YYYY-MM-DDTHH:MM:SS+00:00` used by the persistence
//! rows. Formatting and parsing invert each other exactly.

use vstd::prelude::*;
use vstd::arithmetic::div_mod::lemma_fundamental_div_mod;
use vstd::arithmetic::div_mod::lemma_div_denominator;
use vstd::string::StringExecFns;
use vstd::string::StrSliceExecFns;

verus! {

/// A UTC wall-clock instant, truncated to whole seconds.
#[derive(Clone, Copy, PartialEq, Eq, Structural, Debug)]
pub struct Timestamp {
    pub year: u16,
    pub month: u8,
    pub day: u8,
    pub hour: u8,
    pub minute: u8,
    pub second: u8,
}

impl Timestamp {
    /// Field ranges that the fixed-width text form can carry.
    pub open spec fn wf(self) -> bool {
        &&& self.year <= 9999
        &&& 1 <= self.month <= 12
        &&& 1 <= self.day <= 31
        &&& self.hour <= 23
        &&& self.minute <= 59
        &&& self.second <= 59
    }
}

/// Runtime check of `Timestamp::wf`, for callers outside the verified world.
pub fn timestamp_is_wf(ts: &Timestamp) -> (b: bool)
    ensures
        b == ts.wf(),
{
    ts.year <= 9999 && 1 <= ts.month && ts.month <= 12 && 1 <= ts.day && ts.day <= 31 && ts.hour
        <= 23 && ts.minute <= 59 && ts.second <= 59
}

/// The decimal digit character for `v`.
pub open spec fn digit_char(v: int) -> char {
    (48 + v) as char
}

pub open spec fn is_digit_char(c: char) -> bool {
    48 <= c as u32 <= 57
}

pub open spec fn digit_val(c: char) -> int {
    c as u32 - 48
}

/// `v` printed as exactly two decimal digits.
pub open spec fn two_digits(v: int) -> Seq<char> {
    seq![digit_char(v / 10 % 10), digit_char(v % 10)]
}

/// `v` printed as exactly four decimal digits.
pub open spec fn four_digits(v: int) -> Seq<char> {
    seq![
        digit_char(v / 1000 % 10),
        digit_char(v / 100 % 10),
        digit_char(v / 10 % 10),
        digit_char(v % 10),
    ]
}

/// The 25-character RFC 3339 rendering of `ts` with a `+00:00` offset.
pub open spec fn spec_rfc3339(ts: Timestamp) -> Seq<char> {
    four_digits(ts.year as int) + seq!['-'] + two_digits(ts.month as int) + seq!['-']
        + two_digits(ts.day as int) + seq!['T'] + two_digits(ts.hour as int) + seq![':']
        + two_digits(ts.minute as int) + seq![':'] + two_digits(ts.second as int) + seq![
        '+',
        '0',
        '0',
        ':',
        '0',
        '0',
    ]
}

/// What a 25-character candidate must look like to parse: digits in the date
/// and time positions, the fixed separators and offset everywhere else.
pub open spec fn rfc3339_shape(s: Seq<char>) -> bool {
    &&& s.len() == 25
    &&& is_digit_char(s[0]) && is_digit_char(s[1]) && is_digit_char(s[2]) && is_digit_char(s[3])
    &&& s[4] == '-' && is_digit_char(s[5]) && is_digit_char(s[6])
    &&& s[7] == '-' && is_digit_char(s[8]) && is_digit_char(s[9])
    &&& s[10] == 'T' && is_digit_char(s[11]) && is_digit_char(s[12])
    &&& s[13] == ':' && is_digit_char(s[14]) && is_digit_char(s[15])
    &&& s[16] == ':' && is_digit_char(s[17]) && is_digit_char(s[18])
    &&& s[19] == '+' && s[20] == '0' && s[21] == '0' && s[22] == ':' && s[23] == '0' && s[24] == '0'
}

/// The timestamp a shaped candidate denotes, before range checks.
pub open spec fn rfc3339_fields(s: Seq<char>) -> Timestamp {
    Timestamp {
        year: (digit_val(s[0]) * 1000 + digit_val(s[1]) * 100 + digit_val(s[2]) * 10 + digit_val(
            s[3],
        )) as u16,
        month: (digit_val(s[5]) * 10 + digit_val(s[6])) as u8,
        day: (digit_val(s[8]) * 10 + digit_val(s[9])) as u8,
        hour: (digit_val(s[11]) * 10 + digit_val(s[12])) as u8,
        minute: (digit_val(s[14]) * 10 + digit_val(s[15])) as u8,
        second: (digit_val(s[17]) * 10 + digit_val(s[18])) as u8,
    }
}

/// Parsing: `Some` exactly when the text is shaped right and every field is
/// in range.
pub open spec fn spec_parse_rfc3339(s: Seq<char>) -> Option<Timestamp> {
    if rfc3339_shape(s) && rfc3339_fields(s).wf() {
        Some(rfc3339_fields(s))
    } else {
        None
    }
}

/// The digit character for `v`, as a one-character string slice.
fn digit_str(v: u8) -> (r: &'static str)
    requires
        v < 10,
    ensures
        r@ =~= seq![digit_char(v as int)],
{
    let r = match v {
        0 => "0",
        1 => "1",
        2 => "2",
        3 => "3",
        4 => "4",
        5 => "5",
        6 => "6",
        7 => "7",
        8 => "8",
        _ => "9",
    };
    proof {
        reveal_strlit("0");
        reveal_strlit("1");
        reveal_strlit("2");
        reveal_strlit("3");
        reveal_strlit("4");
        reveal_strlit("5");
        reveal_strlit("6");
        reveal_strlit("7");
        reveal_strlit("8");
        reveal_strlit("9");
    }
    r
}

/// Append `v` as exactly two decimal digits.
fn push_two_digits(s: &mut String, v: u8)
    requires
        v < 100,
    ensures
        final(s)@ == old(s)@ + two_digits(v as int),
{
    s.append(digit_str(v / 10));
    s.append(digit_str(v % 10));
    proof {
        assert(v / 10 % 10 == v / 10) by (nonlinear_arith)
            requires
                v < 100,
        ;
        assert(s@ =~= old(s)@ + two_digits(v as int));
    }
}

/// Append `v` as exactly four decimal digits.
fn push_four_digits(s: &mut String, v: u16)
    requires
        v < 10000,
    ensures
        final(s)@ == old(s)@ + four_digits(v as int),
{
    s.append(digit_str((v / 1000) as u8));
    s.append(digit_str((v / 100 % 10) as u8));
    s.append(digit_str((v / 10 % 10) as u8));
    s.append(digit_str((v % 10) as u8));
    proof {
        assert(v / 1000 % 10 == v / 1000) by (nonlinear_arith)
            requires
                v < 10000,
        ;
        assert(s@ =~= old(s)@ + four_digits(v as int));
    }
}

/// Render `ts` as `YYYY-MM-DDTHH:MM:SS+00:00`.
pub fn format_rfc3339(ts: &Timestamp) -> (r: String)
    requires
        ts.wf(),
    ensures
        r@ == spec_rfc3339(*ts),
{
    let mut s = String::new();
    push_four_digits(&mut s, ts.year);
    s.append("-");
    push_two_digits(&mut s, ts.month);
    s.append("-");
    push_two_digits(&mut s, ts.day);
    s.append("T");
    push_two_digits(&mut s, ts.hour);
    s.append(":");
    push_two_digits(&mut s, ts.minute);
    s.append(":");
    push_two_digits(&mut s, ts.second);
    s.append("+00:00");
    proof {
        reveal_strlit("-");
        reveal_strlit("T");
        reveal_strlit(":");
        reveal_strlit("+00:00");
        assert(s@ =~= spec_rfc3339(*ts));
    }
    s
}

/// Read the digit at position `i`, or report that none is there.
fn read_digit(s: &str, i: usize) -> (r: Option<u8>)
    requires
        i < s@.len(),
    ensures
        match r {
            Some(v) => is_digit_char(s@[i as int]) && v == digit_val(s@[i as int]) && v < 10,
            None => !is_digit_char(s@[i as int]),
        },
{
    let c = s.get_char(i);
    let u = c as u32;
    if 48 <= u && u <= 57 {
        Some((u - 48) as u8)
    } else {
        None
    }
}

/// Parse `YYYY-MM-DDTHH:MM:SS+00:00`; `None` on any other shape or any
/// out-of-range field.
pub fn parse_rfc3339(s: &str) -> (r: Option<Timestamp>)
    ensures
        r == spec_parse_rfc3339(s@),
{
    if s.unicode_len() != 25 {
        return None;
    }
    let seps_ok = s.get_char(4) == '-' && s.get_char(7) == '-' && s.get_char(10) == 'T'
        && s.get_char(13) == ':' && s.get_char(16) == ':' && s.get_char(19) == '+' && s.get_char(20)
        == '0' && s.get_char(21) == '0' && s.get_char(22) == ':' && s.get_char(23) == '0'
        && s.get_char(24) == '0';
    if !seps_ok {
        return None;
    }
    let d0 = read_digit(s, 0);
    let d1 = read_digit(s, 1);
    let d2 = read_digit(s, 2);
    let d3 = read_digit(s, 3);
    let mo0 = read_digit(s, 5);
    let mo1 = read_digit(s, 6);
    let da0 = read_digit(s, 8);
    let da1 = read_digit(s, 9);
    let h0 = read_digit(s, 11);
    let h1 = read_digit(s, 12);
    let mi0 = read_digit(s, 14);
    let mi1 = read_digit(s, 15);
    let se0 = read_digit(s, 17);
    let se1 = read_digit(s, 18);
    match (d0, d1, d2, d3, mo0, mo1, da0, da1, h0, h1, mi0, mi1, se0, se1) {
        (
            Some(d0),
            Some(d1),
            Some(d2),
            Some(d3),
            Some(mo0),
            Some(mo1),
            Some(da0),
            Some(da1),
            Some(h0),
            Some(h1),
            Some(mi0),
            Some(mi1),
            Some(se0),
            Some(se1),
        ) => {
            let year: u16 = d0 as u16 * 1000 + d1 as u16 * 100 + d2 as u16 * 10 + d3 as u16;
            let month: u8 = mo0 * 10 + mo1;
            let day: u8 = da0 * 10 + da1;
            let hour: u8 = h0 * 10 + h1;
            let minute: u8 = mi0 * 10 + mi1;
            let second: u8 = se0 * 10 + se1;
            if 1 <= month && month <= 12 && 1 <= day && day <= 31 && hour <= 23 && minute <= 59
                && second <= 59 {
                Some(Timestamp { year, month, day, hour, minute, second })
            } else {
                None
            }
        },
        _ => None,
    }
}

/// A two-digit rendering denotes its value again.
proof fn lemma_two_digit_val(v: int)
    requires
        0 <= v < 100,
    ensures
        digit_val(two_digits(v)[0]) * 10 + digit_val(two_digits(v)[1]) == v,
        is_digit_char(two_digits(v)[0]),
        is_digit_char(two_digits(v)[1]),
{
    lemma_fundamental_div_mod(v, 10);
    assert(v / 10 % 10 == v / 10) by (nonlinear_arith)
        requires
            0 <= v < 100,
    ;
}

/// A four-digit rendering denotes its value again.
proof fn lemma_four_digit_val(v: int)
    requires
        0 <= v < 10000,
    ensures
        digit_val(four_digits(v)[0]) * 1000 + digit_val(four_digits(v)[1]) * 100 + digit_val(
            four_digits(v)[2],
        ) * 10 + digit_val(four_digits(v)[3]) == v,
        is_digit_char(four_digits(v)[0]),
        is_digit_char(four_digits(v)[1]),
        is_digit_char(four_digits(v)[2]),
        is_digit_char(four_digits(v)[3]),
{
    lemma_fundamental_div_mod(v, 10);
    lemma_fundamental_div_mod(v / 10, 10);
    lemma_fundamental_div_mod(v / 100, 10);
    lemma_div_denominator(v, 10, 10);
    lemma_div_denominator(v, 100, 10);
    assert(v / 1000 % 10 == v / 1000) by (nonlinear_arith)
        requires
            0 <= v < 10000,
    ;
}

/// Round trip: formatting a well-formed timestamp and parsing the text again
/// yields the same timestamp.
pub proof fn lemma_rfc3339_round_trip(ts: Timestamp)
    requires
        ts.wf(),
    ensures
        spec_parse_rfc3339(spec_rfc3339(ts)) == Some(ts),
{
    let s = spec_rfc3339(ts);
    lemma_four_digit_val(ts.year as int);
    lemma_two_digit_val(ts.month as int);
    lemma_two_digit_val(ts.day as int);
    lemma_two_digit_val(ts.hour as int);
    lemma_two_digit_val(ts.minute as int);
    lemma_two_digit_val(ts.second as int);
    assert(rfc3339_shape(s));
    assert(rfc3339_fields(s) == ts);
}

} // verus!
