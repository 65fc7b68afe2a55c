//! The ID-string generator's logic: the weighted checksum character,
//! region-code validation, date parsing against a calendar model, the
//! parity-adjusted sequence number, and the assembly of the eighteen
//! character string. Randomness and name generation stay with the
//! caller; everything here is a function of its arguments.

use vstd::prelude::*;
use vstd::string::*;

use crate::rng::random_below;
use crate::text::{all_digits, dec_val, digit_val, is_digit_char};

verus! {

/// The errors of the generator's inputs.
#[derive(Debug)]
pub enum IdError {
    /// The text is not a date the generator accepts.
    InvalidDate(String),
    /// A region code must be six decimal digits.
    InvalidRegion,
}

/// Which parity the sequence number is forced to: odd for male, even
/// for female.
#[derive(Clone, Copy, PartialEq, Eq, Structural, Debug)]
pub enum Gender {
    Any,
    Male,
    Female,
}

/// A calendar date with years up to 9999.
#[derive(Clone, Copy, PartialEq, Eq, Structural, Debug)]
pub struct Date {
    pub year: u16,
    pub month: u8,
    pub day: u8,
}

/// The Gregorian leap-year rule.
pub open spec fn is_leap_year(y: int) -> bool {
    y % 4 == 0 && (y % 100 != 0 || y % 400 == 0)
}

/// How many days the month has in that year.
pub open spec fn days_in_month(y: int, m: int) -> int {
    if m == 2 {
        if is_leap_year(y) {
            29
        } else {
            28
        }
    } else if m == 4 || m == 6 || m == 9 || m == 11 {
        30
    } else {
        31
    }
}

/// The triple names a real calendar day.
pub open spec fn valid_ymd(y: int, m: int, d: int) -> bool {
    1 <= m <= 12 && 1 <= d <= days_in_month(y, m)
}

impl Date {
    /// Validity: a real calendar day with a four-digit year.
    pub open spec fn wf(self) -> bool {
        self.year <= 9999 && valid_ymd(self.year as int, self.month as int, self.day as int)
    }
}

/// An eight-character date, digits only: year, month, day.
pub open spec fn date8_ok(s: Seq<char>) -> bool {
    &&& s.len() == 8
    &&& all_digits(s)
    &&& valid_ymd(
        dec_val(s.subrange(0, 4)),
        dec_val(s.subrange(4, 6)),
        dec_val(s.subrange(6, 8)),
    )
}

/// A ten-character date with dashes: year, `-`, month, `-`, day.
pub open spec fn dashed_date_ok(s: Seq<char>) -> bool {
    &&& s.len() == 10
    &&& s[4] == '-'
    &&& s[7] == '-'
    &&& all_digits(s.subrange(0, 4))
    &&& all_digits(s.subrange(5, 7))
    &&& all_digits(s.subrange(8, 10))
    &&& valid_ymd(
        dec_val(s.subrange(0, 4)),
        dec_val(s.subrange(5, 7)),
        dec_val(s.subrange(8, 10)),
    )
}

fn is_leap_year_x(y: u16) -> (r: bool)
    ensures
        r == is_leap_year(y as int),
{
    y % 4 == 0 && (y % 100 != 0 || y % 400 == 0)
}

fn days_in_month_x(y: u16, m: u8) -> (r: u8)
    ensures
        r == days_in_month(y as int, m as int),
{
    if m == 2 {
        if is_leap_year_x(y) {
            29
        } else {
            28
        }
    } else if m == 4 || m == 6 || m == 9 || m == 11 {
        30
    } else {
        31
    }
}

/// Parses a date written as eight digits, `19900520`, or dashed,
/// `1990-05-20`, and checks it against the calendar: exactly the texts
/// of one of the two shapes that name a real day parse; anything else
/// is an invalid-date error carrying the text.
pub fn parse_date(s: &str) -> (r: Result<Date, IdError>)
    ensures
        date8_ok(s@) ==> (r matches Ok(d) && d.year == dec_val(s@.subrange(0, 4)) && d.month
            == dec_val(s@.subrange(4, 6)) && d.day == dec_val(s@.subrange(6, 8))),
        dashed_date_ok(s@) ==> (r matches Ok(d) && d.year == dec_val(s@.subrange(0, 4)) && d.month
            == dec_val(s@.subrange(5, 7)) && d.day == dec_val(s@.subrange(8, 10))),
        !date8_ok(s@) && !dashed_date_ok(s@) ==> (r matches Err(IdError::InvalidDate(m)) && m@
            == s@),
        r matches Ok(d) ==> d.wf(),
{
    let n = s.unicode_len();
    if n == 8 {
        if let Some(date) = parse_ymd(s, 0, 4, 4, 6, 6, 8) {
            proof {
                assert forall|i: int| 0 <= i < 8 implies is_digit_char(s@[i]) by {
                    if i < 4 {
                        assert(s@.subrange(0, 4)[i] == s@[i]);
                    } else if i < 6 {
                        assert(s@.subrange(4, 6)[i - 4] == s@[i]);
                    } else {
                        assert(s@.subrange(6, 8)[i - 6] == s@[i]);
                    }
                }
            }
            return Ok(date);
        }
    } else if n == 10 {
        if s.get_char(4) == '-' && s.get_char(7) == '-' {
            if let Some(date) = parse_ymd(s, 0, 4, 5, 7, 8, 10) {
                return Ok(date);
            }
        }
    }
    Err(IdError::InvalidDate(String::from_str(s)))
}

/// Reads the year, month and day fields of `s` at the given bounds and
/// accepts exactly the real calendar days.
fn parse_ymd(s: &str, ys: usize, ye: usize, ms: usize, me: usize, ds: usize, de: usize) -> (r:
    Option<Date>)
    requires
        ys <= ye <= ms <= me <= ds <= de <= s@.len(),
        ye - ys == 4,
        me - ms == 2,
        de - ds == 2,
    ensures
        r is Some <==> all_digits(s@.subrange(ys as int, ye as int)) && all_digits(
            s@.subrange(ms as int, me as int),
        ) && all_digits(s@.subrange(ds as int, de as int)) && valid_ymd(
            dec_val(s@.subrange(ys as int, ye as int)),
            dec_val(s@.subrange(ms as int, me as int)),
            dec_val(s@.subrange(ds as int, de as int)),
        ),
        r matches Some(d) ==> d.wf() && d.year == dec_val(s@.subrange(ys as int, ye as int))
            && d.month == dec_val(s@.subrange(ms as int, me as int)) && d.day == dec_val(
            s@.subrange(ds as int, de as int),
        ),
{
    let ytxt = s.substring_char(ys, ye);
    let mtxt = s.substring_char(ms, me);
    let dtxt = s.substring_char(ds, de);
    let y = match crate::text::parse_u16(ytxt) {
        Some(v) => v,
        None => {
            proof {
                if all_digits(ytxt@) {
                    crate::text::lemma_dec_val_width(ytxt@);
                }
            }
            return None;
        },
    };
    let m = match crate::text::parse_u16(mtxt) {
        Some(v) => v,
        None => {
            proof {
                if all_digits(mtxt@) {
                    crate::text::lemma_dec_val_width(mtxt@);
                }
            }
            return None;
        },
    };
    let d = match crate::text::parse_u16(dtxt) {
        Some(v) => v,
        None => {
            proof {
                if all_digits(dtxt@) {
                    crate::text::lemma_dec_val_width(dtxt@);
                }
            }
            return None;
        },
    };
    if m < 1 || m > 12 {
        return None;
    }
    if d < 1 || d > days_in_month_x(y, m as u8) as u16 {
        return None;
    }
    proof {
        crate::text::lemma_dec_val_width(ytxt@);
    }
    Some(Date { year: y, month: m as u8, day: d as u8 })
}

/// Checks a six-digit region code: exactly the six-character all-digit
/// texts pass.
pub fn validate_region(code: &str) -> (r: Result<(), IdError>)
    ensures
        r is Ok <==> code@.len() == 6 && all_digits(code@),
        r is Err ==> r matches Err(IdError::InvalidRegion),
{
    let n = code.unicode_len();
    if n != 6 {
        return Err(IdError::InvalidRegion);
    }
    let mut i: usize = 0;
    while i < n
        invariant
            0 <= i <= n,
            n == code@.len(),
            forall|j: int| 0 <= j < i ==> is_digit_char(code@[j]),
        decreases n - i,
    {
        let u = code.get_char(i) as u32;
        if u < 48 || u > 57 {
            assert(!is_digit_char(code@[i as int]));
            return Err(IdError::InvalidRegion);
        }
        i = i + 1;
    }
    Ok(())
}

/// The weight of position `i` in the checksum, per the MOD 11-2 scheme.
pub open spec fn weight17(i: int) -> int {
    if i == 0 {
        7
    } else if i == 1 {
        9
    } else if i == 2 {
        10
    } else if i == 3 {
        5
    } else if i == 4 {
        8
    } else if i == 5 {
        4
    } else if i == 6 {
        2
    } else if i == 7 {
        1
    } else if i == 8 {
        6
    } else if i == 9 {
        3
    } else if i == 10 {
        7
    } else if i == 11 {
        9
    } else if i == 12 {
        10
    } else if i == 13 {
        5
    } else if i == 14 {
        8
    } else if i == 15 {
        4
    } else if i == 16 {
        2
    } else {
        0
    }
}

/// The digit a character contributes: non-digits count as zero.
pub open spec fn digit_or_zero(c: char) -> int {
    if is_digit_char(c) {
        digit_val(c)
    } else {
        0
    }
}

/// The weighted sum of the first `k` characters.
pub open spec fn weighted_prefix(s: Seq<char>, k: int) -> int
    decreases k,
{
    if k <= 0 {
        0
    } else {
        weighted_prefix(s, k - 1) + digit_or_zero(s[k - 1]) * weight17(k - 1)
    }
}

/// The checksum's weighted sum: over the first seventeen characters, or
/// all of them if there are fewer.
pub open spec fn spec_weighted_sum(s: Seq<char>) -> int {
    if s.len() < 17 {
        weighted_prefix(s, s.len() as int)
    } else {
        weighted_prefix(s, 17)
    }
}

/// The character the remainder maps to: `0..10` become
/// `1 0 X 9 8 7 6 5 4 3 2`.
pub open spec fn check_map(r: int) -> char {
    if r == 0 {
        '1'
    } else if r == 1 {
        '0'
    } else if r == 2 {
        'X'
    } else if r == 3 {
        '9'
    } else if r == 4 {
        '8'
    } else if r == 5 {
        '7'
    } else if r == 6 {
        '6'
    } else if r == 7 {
        '5'
    } else if r == 8 {
        '4'
    } else if r == 9 {
        '3'
    } else {
        '2'
    }
}

/// The checksum character of a seventeen-character body.
pub open spec fn spec_checksum(s: Seq<char>) -> char {
    check_map(spec_weighted_sum(s) % 11)
}

proof fn lemma_weighted_prefix_bounds(s: Seq<char>, k: int)
    requires
        0 <= k <= s.len(),
    ensures
        0 <= weighted_prefix(s, k) <= 90 * k,
    decreases k,
{
    if k > 0 {
        lemma_weighted_prefix_bounds(s, k - 1);
        let d = digit_or_zero(s[k - 1]);
        let w = weight17(k - 1);
        assert(0 <= d <= 9);
        assert(0 <= w <= 10);
        assert(0 <= d * w <= 90) by (nonlinear_arith)
            requires
                0 <= d <= 9,
                0 <= w <= 10,
        ;
    }
}

fn weight_at(i: usize) -> (w: u32)
    requires
        i < 17,
    ensures
        w == weight17(i as int),
{
    if i == 0 {
        7
    } else if i == 1 {
        9
    } else if i == 2 {
        10
    } else if i == 3 {
        5
    } else if i == 4 {
        8
    } else if i == 5 {
        4
    } else if i == 6 {
        2
    } else if i == 7 {
        1
    } else if i == 8 {
        6
    } else if i == 9 {
        3
    } else if i == 10 {
        7
    } else if i == 11 {
        9
    } else if i == 12 {
        10
    } else if i == 13 {
        5
    } else if i == 14 {
        8
    } else if i == 15 {
        4
    } else {
        2
    }
}

/// The MOD 11-2 checksum character over the first seventeen characters
/// of `id17`: digits weighted by position, summed, reduced modulo
/// eleven, and mapped; non-digit characters count as zero.
pub fn checksum_char(id17: &str) -> (r: char)
    ensures
        r == spec_checksum(id17@),
{
    let n = id17.unicode_len();
    let lim = if n < 17 {
        n
    } else {
        17
    };
    let mut sum: u32 = 0;
    let mut i: usize = 0;
    while i < lim
        invariant
            0 <= i <= lim <= 17,
            lim <= id17@.len(),
            n == id17@.len(),
            lim == if n < 17 {
                n as int
            } else {
                17
            },
            sum == weighted_prefix(id17@, i as int),
            sum <= 90 * i,
        decreases lim - i,
    {
        let c = id17.get_char(i);
        let u = c as u32;
        let d: u32 = if 48 <= u && u <= 57 {
            u - 48
        } else {
            0
        };
        let w = weight_at(i);
        proof {
            lemma_weighted_prefix_bounds(id17@, i as int);
            assert(d == digit_or_zero(id17@[i as int]));
            assert(0 <= digit_or_zero(id17@[i as int]) * weight17(i as int) <= 90);
        }
        sum = sum + d * w;
        i = i + 1;
    }
    let idx = sum % 11;
    if idx == 0 {
        '1'
    } else if idx == 1 {
        '0'
    } else if idx == 2 {
        'X'
    } else if idx == 3 {
        '9'
    } else if idx == 4 {
        '8'
    } else if idx == 5 {
        '7'
    } else if idx == 6 {
        '6'
    } else if idx == 7 {
        '5'
    } else if idx == 8 {
        '4'
    } else if idx == 9 {
        '3'
    } else {
        '2'
    }
}

/// Forces the sequence number to the parity its gender asks for: an
/// already-fitting number is kept, otherwise its successor modulo 1000
/// is taken.
pub fn seq_for_gender(n: u16, gender: Gender) -> (r: u16)
    requires
        n <= 999,
    ensures
        r <= 999,
        gender is Any ==> r == n,
        gender is Male ==> r % 2 == 1 && (n % 2 == 1 ==> r == n) && (n % 2 == 0 ==> r == (n + 1)
            % 1000),
        gender is Female ==> r % 2 == 0 && (n % 2 == 0 ==> r == n) && (n % 2 == 1 ==> r == (n + 1)
            % 1000),
{
    match gender {
        Gender::Any => n,
        Gender::Male => {
            if n % 2 == 0 {
                (n + 1) % 1000
            } else {
                n
            }
        },
        Gender::Female => {
            if n % 2 == 1 {
                (n + 1) % 1000
            } else {
                n
            }
        },
    }
}

/// One decimal digit as a borrowed one-character text.
fn digit_str(d: u8) -> (r: &'static str)
    requires
        d < 10,
    ensures
        r@.len() == 1,
        is_digit_char(r@[0]),
        digit_val(r@[0]) == d,
{
    proof {
        reveal_strlit("0");
        reveal_strlit("1");
        reveal_strlit("2");
        reveal_strlit("3");
        reveal_strlit("4");
        reveal_strlit("5");
        reveal_strlit("6");
        reveal_strlit("7");
        reveal_strlit("8");
        reveal_strlit("9");
    }
    if d == 0 {
        "0"
    } else if d == 1 {
        "1"
    } else if d == 2 {
        "2"
    } else if d == 3 {
        "3"
    } else if d == 4 {
        "4"
    } else if d == 5 {
        "5"
    } else if d == 6 {
        "6"
    } else if d == 7 {
        "7"
    } else if d == 8 {
        "8"
    } else {
        "9"
    }
}

/// `v` written as exactly two digits, zero padded.
fn two_digit_string(v: u16) -> (r: String)
    requires
        v <= 99,
    ensures
        r@.len() == 2,
        all_digits(r@),
        dec_val(r@) == v,
{
    let hi = digit_str((v / 10) as u8);
    let lo = digit_str((v % 10) as u8);
    let mut s = String::from_str(hi);
    let ghost v0 = s@;
    s.append(lo);
    proof {
        assert(s@[0] == v0[0] && s@[1] == lo@[0]);
        assert(all_digits(s@));
        assert(dec_val(Seq::<char>::empty()) == 0);
        assert(v0.drop_last() =~= Seq::<char>::empty());
        assert(dec_val(v0) == digit_val(v0[0]));
        assert(s@.drop_last() =~= v0);
        assert(dec_val(s@) == dec_val(v0) * 10 + digit_val(s@[1]));
    }
    s
}

/// `v` written as exactly three digits, zero padded.
fn three_digit_string(v: u16) -> (r: String)
    requires
        v <= 999,
    ensures
        r@.len() == 3,
        all_digits(r@),
        dec_val(r@) == v,
{
    let r2 = v % 100;
    let a = digit_str((v / 100) as u8);
    let b = digit_str((r2 / 10) as u8);
    let c = digit_str((r2 % 10) as u8);
    let mut s = String::from_str(a);
    let ghost v0 = s@;
    s.append(b);
    let ghost v1 = s@;
    s.append(c);
    proof {
        assert(s@[0] == v0[0] && s@[1] == v1[1] && s@[2] == c@[0]);
        assert(v1[1] == b@[0]);
        assert(all_digits(s@));
        assert(dec_val(Seq::<char>::empty()) == 0);
        assert(v0.drop_last() =~= Seq::<char>::empty());
        assert(dec_val(v0) == digit_val(v0[0]));
        assert(v1.drop_last() =~= v0);
        assert(dec_val(v1) == dec_val(v0) * 10 + digit_val(v1[1]));
        assert(s@.drop_last() =~= v1);
        assert(dec_val(s@) == dec_val(v1) * 10 + digit_val(s@[2]));
    }
    s
}

/// `v` written as exactly four digits, zero padded.
fn four_digit_string(v: u16) -> (r: String)
    requires
        v <= 9999,
    ensures
        r@.len() == 4,
        all_digits(r@),
        dec_val(r@) == v,
{
    let r3 = v % 1000;
    let r2 = r3 % 100;
    let a = digit_str((v / 1000) as u8);
    let b = digit_str((r3 / 100) as u8);
    let c = digit_str((r2 / 10) as u8);
    let d = digit_str((r2 % 10) as u8);
    let mut s = String::from_str(a);
    let ghost v0 = s@;
    s.append(b);
    let ghost v1 = s@;
    s.append(c);
    let ghost v2 = s@;
    s.append(d);
    proof {
        assert(s@[0] == v0[0] && s@[1] == v1[1] && s@[2] == v2[2] && s@[3] == d@[0]);
        assert(v1[1] == b@[0]);
        assert(v2[2] == c@[0]);
        assert(all_digits(s@));
        assert(dec_val(Seq::<char>::empty()) == 0);
        assert(v0.drop_last() =~= Seq::<char>::empty());
        assert(dec_val(v0) == digit_val(v0[0]));
        assert(v1.drop_last() =~= v0);
        assert(dec_val(v1) == dec_val(v0) * 10 + digit_val(v1[1]));
        assert(v2.drop_last() =~= v1);
        assert(dec_val(v2) == dec_val(v1) * 10 + digit_val(v2[2]));
        assert(s@.drop_last() =~= v2);
        assert(dec_val(s@) == dec_val(v2) * 10 + digit_val(s@[3]));
    }
    s
}

/// A random sequence number written as three digits, its parity forced
/// by the gender: odd for male, even for female.
pub fn random_seq(gender: Gender) -> (r: String)
    ensures
        r@.len() == 3,
        all_digits(r@),
        dec_val(r@) <= 999,
        gender is Male ==> dec_val(r@) % 2 == 1,
        gender is Female ==> dec_val(r@) % 2 == 0,
{
    let n = random_below(1000) as u16;
    let m = seq_for_gender(n, gender);
    three_digit_string(m)
}

/// `d` written as its eight digits: year, month, day, zero padded.
pub fn date8_string(d: Date) -> (r: String)
    requires
        d.wf(),
    ensures
        r@.len() == 8,
        all_digits(r@),
        dec_val(r@.subrange(0, 4)) == d.year,
        dec_val(r@.subrange(4, 6)) == d.month,
        dec_val(r@.subrange(6, 8)) == d.day,
{
    let y = four_digit_string(d.year);
    let m = two_digit_string(d.month as u16);
    let dd = two_digit_string(d.day as u16);
    let mut s = y;
    let ghost vy = s@;
    s.append(m.as_str());
    let ghost vym = s@;
    s.append(dd.as_str());
    proof {
        assert(s@.subrange(0, 4) =~= vy);
        assert(s@.subrange(4, 6) =~= m@);
        assert(s@.subrange(6, 8) =~= dd@);
        assert(all_digits(s@));
    }
    s
}

/// Assembles the eighteen-character ID string: the six-digit region
/// code, the eight-digit birth date, the three-digit sequence number,
/// and the checksum character over those seventeen.
pub fn make_id18(code6: &str, birth: Date, seq3: &str) -> (r: String)
    requires
        code6@.len() == 6,
        all_digits(code6@),
        birth.wf(),
        seq3@.len() == 3,
        all_digits(seq3@),
    ensures
        r@.len() == 18,
        r@.subrange(0, 6) == code6@,
        dec_val(r@.subrange(6, 10)) == birth.year,
        dec_val(r@.subrange(10, 12)) == birth.month,
        dec_val(r@.subrange(12, 14)) == birth.day,
        r@.subrange(14, 17) == seq3@,
        all_digits(r@.subrange(0, 17)),
        r@[17] == spec_checksum(r@.subrange(0, 17)),
{
    let date8 = date8_string(birth);
    let mut s = String::from_str(code6);
    let ghost vc = s@;
    s.append(date8.as_str());
    let ghost vcd = s@;
    s.append(seq3);
    let ghost body = s@;
    proof {
        assert(body.subrange(0, 6) =~= vc);
        assert(body.subrange(6, 14) =~= date8@);
        assert(body.subrange(14, 17) =~= seq3@);
        assert(body.subrange(6, 10) =~= date8@.subrange(0, 4));
        assert(body.subrange(10, 12) =~= date8@.subrange(4, 6));
        assert(body.subrange(12, 14) =~= date8@.subrange(6, 8));
        assert(all_digits(body));
    }
    let check = checksum_str(s.as_str());
    s.append(check);
    proof {
        assert(s@.drop_last() =~= body);
        assert(s@.subrange(0, 17) =~= body);
        assert(s@.subrange(0, 6) =~= body.subrange(0, 6));
        assert(s@.subrange(6, 10) =~= body.subrange(6, 10));
        assert(s@.subrange(10, 12) =~= body.subrange(10, 12));
        assert(s@.subrange(12, 14) =~= body.subrange(12, 14));
        assert(s@.subrange(14, 17) =~= body.subrange(14, 17));
        assert(s@[17] == check@[0]);
    }
    s
}

/// The checksum character as a borrowed one-character text.
fn checksum_str(id17: &str) -> (r: &'static str)
    ensures
        r@.len() == 1,
        r@[0] == spec_checksum(id17@),
{
    proof {
        reveal_strlit("1");
        reveal_strlit("0");
        reveal_strlit("X");
        reveal_strlit("9");
        reveal_strlit("8");
        reveal_strlit("7");
        reveal_strlit("6");
        reveal_strlit("5");
        reveal_strlit("4");
        reveal_strlit("3");
        reveal_strlit("2");
    }
    let c = checksum_char(id17);
    if c == '1' {
        "1"
    } else if c == '0' {
        "0"
    } else if c == 'X' {
        "X"
    } else if c == '9' {
        "9"
    } else if c == '8' {
        "8"
    } else if c == '7' {
        "7"
    } else if c == '6' {
        "6"
    } else if c == '5' {
        "5"
    } else if c == '4' {
        "4"
    } else if c == '3' {
        "3"
    } else {
        "2"
    }
}

} // verus!
