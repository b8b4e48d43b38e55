//! Parsing of the free-form lines that the builders receive.

use crate::calendar::{
    Date, TimeOfDay, date_exists, is_valid_date, is_valid_day_month, time_exists, MAX_YEAR,
};
use vstd::prelude::*;
use vstd::string::StrSliceExecFns;

verus! {

/// Why a line was not accepted.
#[derive(Clone, Copy, Debug, PartialEq, Eq, Structural)]
pub enum InputError {
    /// Empty line, wrong number of fields, a field that is not a decimal
    /// number, or a number out of its field's range.
    Malformed,
    /// Every field is in range but the calendar has no such day.
    InvalidCalendarDate,
}

/// A birthday date: day and month, with the year when it was given.
#[derive(Clone, Copy, Debug, PartialEq, Eq, Structural)]
pub struct BirthDate {
    pub day: u32,
    pub month: u32,
    pub year: Option<i32>,
}

/// The fields of `s` separated by `:`; a string without `:` is one field.
pub open spec fn split_fields(s: Seq<char>) -> Seq<Seq<char>>
    decreases s.len(),
{
    if s.len() == 0 {
        seq![Seq::empty()]
    } else {
        let init = split_fields(s.drop_last());
        if s.last() == ':' {
            init.push(Seq::empty())
        } else {
            init.update(init.len() - 1, init.last().push(s.last()))
        }
    }
}

pub open spec fn is_digit(c: char) -> bool {
    '0' <= c && c <= '9'
}

/// A non-empty run of decimal digits.
pub open spec fn is_number(f: Seq<char>) -> bool {
    f.len() > 0 && forall|k: int| 0 <= k < f.len() ==> is_digit(#[trigger] f[k])
}

/// The value of a run of decimal digits.
pub open spec fn digits_value(f: Seq<char>) -> int
    decreases f.len(),
{
    if f.len() == 0 {
        0
    } else {
        10 * digits_value(f.drop_last()) + (f.last() as int - '0' as int)
    }
}

/// `f` is a decimal number in `lo..=hi`.
pub open spec fn number_in(f: Seq<char>, lo: int, hi: int) -> bool {
    is_number(f) && lo <= digits_value(f) <= hi
}

/// Day, month and (for three fields) year are numbers in their ranges.
pub open spec fn date_fields_in_range(f: Seq<Seq<char>>) -> bool {
    &&& f.len() == 2 || f.len() == 3
    &&& number_in(f[0], 1, 31)
    &&& number_in(f[1], 1, 12)
    &&& f.len() == 3 ==> number_in(f[2], 1, MAX_YEAR as int)
}

/// What a birthday date line `dd:mm` or `dd:mm:yyyy` denotes.
pub open spec fn birth_date_of(s: Seq<char>) -> Result<BirthDate, InputError> {
    let f = split_fields(s);
    if !date_fields_in_range(f) {
        Err(InputError::Malformed)
    } else {
        let d = digits_value(f[0]);
        let m = digits_value(f[1]);
        if f.len() == 2 {
            if is_valid_day_month(d, m) {
                Ok(BirthDate { day: d as u32, month: m as u32, year: None })
            } else {
                Err(InputError::InvalidCalendarDate)
            }
        } else {
            let y = digits_value(f[2]);
            if is_valid_date(y, m, d) {
                Ok(BirthDate { day: d as u32, month: m as u32, year: Some(y as i32) })
            } else {
                Err(InputError::InvalidCalendarDate)
            }
        }
    }
}

/// What a full date line `dd:mm:yyyy` denotes.
pub open spec fn full_date_of(s: Seq<char>) -> Result<Date, InputError> {
    let f = split_fields(s);
    if !(f.len() == 3 && date_fields_in_range(f)) {
        Err(InputError::Malformed)
    } else {
        let d = digits_value(f[0]);
        let m = digits_value(f[1]);
        let y = digits_value(f[2]);
        if is_valid_date(y, m, d) {
            Ok(Date { year: y as i32, month: m as u32, day: d as u32 })
        } else {
            Err(InputError::InvalidCalendarDate)
        }
    }
}

/// What a time line `hh:mm` denotes.
pub open spec fn time_of(s: Seq<char>) -> Result<TimeOfDay, InputError> {
    let f = split_fields(s);
    if f.len() == 2 && number_in(f[0], 0, 23) && number_in(f[1], 0, 59) {
        Ok(TimeOfDay { hour: digits_value(f[0]) as u32, minute: digits_value(f[1]) as u32 })
    } else {
        Err(InputError::Malformed)
    }
}

/// What a pre-ping line denotes: a number of days `0..=255`, where `0`
/// means no pre-ping.
pub open spec fn preping_of(s: Seq<char>) -> Result<Option<u8>, InputError> {
    if number_in(s, 0, 255) {
        if digits_value(s) == 0 {
            Ok(None)
        } else {
            Ok(Some(digits_value(s) as u8))
        }
    } else {
        Err(InputError::Malformed)
    }
}

pub open spec fn views(v: Seq<Vec<char>>) -> Seq<Seq<char>> {
    Seq::new(v.len(), |k: int| v[k]@)
}

proof fn lemma_split_nonempty(s: Seq<char>)
    ensures
        split_fields(s).len() >= 1,
    decreases s.len(),
{
    if s.len() > 0 {
        lemma_split_nonempty(s.drop_last());
    }
}

proof fn lemma_digits_value_nonneg(f: Seq<char>)
    requires
        forall|k: int| 0 <= k < f.len() ==> is_digit(#[trigger] f[k]),
    ensures
        digits_value(f) >= 0,
    decreases f.len(),
{
    if f.len() > 0 {
        lemma_digits_value_nonneg(f.drop_last());
    }
}

/// A longer run of digits is worth at least as much as its prefix.
proof fn lemma_digits_value_prefix(f: Seq<char>, i: int)
    requires
        0 <= i <= f.len(),
        forall|k: int| 0 <= k < f.len() ==> is_digit(#[trigger] f[k]),
    ensures
        digits_value(f.take(i)) <= digits_value(f),
    decreases f.len(),
{
    if i < f.len() {
        let g = f.drop_last();
        assert(g.take(i) =~= f.take(i));
        lemma_digits_value_prefix(g, i);
        lemma_digits_value_nonneg(g);
    } else {
        assert(f.take(i) =~= f);
    }
}

/// The fields of a line, split at each `:`.
fn fields_of(s: &str) -> (r: Vec<Vec<char>>)
    ensures
        views(r@) == split_fields(s@),
{
    let n = s.unicode_len();
    let mut done: Vec<Vec<char>> = Vec::new();
    let mut cur: Vec<char> = Vec::new();
    let mut i: usize = 0;
    while i < n
        invariant
            n == s@.len(),
            0 <= i <= n,
            views(done@).push(cur@) == split_fields(s@.take(i as int)),
        decreases n - i,
    {
        let c = s.get_char(i);
        proof {
            let t = s@.take(i as int + 1);
            assert(t.drop_last() =~= s@.take(i as int));
            assert(t.last() == c);
        }
        if c == ':' {
            let ghost before = views(done@);
            done.push(cur);
            cur = Vec::new();
            assert(views(done@) =~= before.push(views(done@).last()));
            assert(views(done@).push(cur@) =~= split_fields(s@.take(i as int + 1)));
        } else {
            let ghost before = views(done@);
            cur.push(c);
            assert(views(done@) =~= before);
            assert(views(done@).push(cur@) =~= split_fields(s@.take(i as int + 1)));
        }
        i += 1;
    }
    assert(s@.take(n as int) =~= s@);
    let ghost before = views(done@);
    done.push(cur);
    assert(views(done@) =~= before.push(cur@));
    done
}

/// The value of `f` when it is a decimal number in `lo..=hi`.
fn number_between(f: &Vec<char>, lo: u32, hi: u32) -> (r: Option<u32>)
    requires
        hi <= 100_000,
    ensures
        r is Some <==> number_in(f@, lo as int, hi as int),
        r matches Some(v) ==> v == digits_value(f@),
{
    if f.len() == 0 {
        return None;
    }
    let mut acc: u32 = 0;
    let mut i: usize = 0;
    while i < f.len()
        invariant
            0 <= i <= f@.len(),
            acc <= hi,
            acc == digits_value(f@.take(i as int)),
            forall|k: int| 0 <= k < i ==> is_digit(#[trigger] f@[k]),
            hi <= 100_000,
        decreases f@.len() - i,
    {
        let c = f[i];
        proof {
            let t = f@.take(i as int + 1);
            assert(t.drop_last() =~= f@.take(i as int));
            assert(t.last() == c);
        }
        if !('0' <= c && c <= '9') {
            assert(!is_number(f@));
            return None;
        }
        let next = acc * 10 + (c as u32 - '0' as u32);
        if next > hi {
            proof {
                if is_number(f@) {
                    lemma_digits_value_prefix(f@, i as int + 1);
                }
            }
            return None;
        }
        acc = next;
        i += 1;
    }
    assert(f@.take(i as int) =~= f@);
    if acc < lo {
        None
    } else {
        Some(acc)
    }
}

/// The character of decimal digit `d`.
pub open spec fn digit_char(d: nat) -> char {
    if d == 0 { '0' }
    else if d == 1 { '1' }
    else if d == 2 { '2' }
    else if d == 3 { '3' }
    else if d == 4 { '4' }
    else if d == 5 { '5' }
    else if d == 6 { '6' }
    else if d == 7 { '7' }
    else if d == 8 { '8' }
    else { '9' }
}

/// `n` written in decimal, without leading zeros.
pub open spec fn decimal(n: nat) -> Seq<char>
    decreases n,
{
    if n < 10 {
        seq![digit_char(n)]
    } else {
        decimal(n / 10).push(digit_char(n % 10))
    }
}

proof fn lemma_digit_char(d: nat)
    requires
        d < 10,
    ensures
        is_digit(digit_char(d)),
        digit_char(d) as int - '0' as int == d,
{
}

proof fn lemma_decimal(n: nat)
    ensures
        is_number(decimal(n)),
        digits_value(decimal(n)) == n,
    decreases n,
{
    lemma_digit_char(n % 10);
    if n < 10 {
        lemma_digit_char(n);
        assert(decimal(n).drop_last() =~= Seq::<char>::empty());
        assert(digits_value(Seq::<char>::empty()) == 0);
        assert(decimal(n).last() == digit_char(n));
    } else {
        lemma_decimal(n / 10);
        let s = decimal(n);
        assert(s.drop_last() =~= decimal(n / 10));
        assert(s.last() == digit_char(n % 10));
        vstd::arithmetic::div_mod::lemma_fundamental_div_mod(n as int, 10);
        assert forall|k: int| 0 <= k < s.len() implies is_digit(#[trigger] s[k]) by {
            if k < s.len() - 1 {
                assert(s[k] == decimal(n / 10)[k]);
            }
        }
    }
}

proof fn lemma_split_one_field(a: Seq<char>)
    requires
        forall|k: int| 0 <= k < a.len() ==> #[trigger] a[k] != ':',
    ensures
        split_fields(a) == seq![a],
    decreases a.len(),
{
    if a.len() == 0 {
        assert(a =~= Seq::<char>::empty());
    } else {
        let b = a.drop_last();
        lemma_split_one_field(b);
        assert(a.last() != ':');
        assert(b.push(a.last()) =~= a);
        assert(seq![b].update(0, b.push(a.last())) =~= seq![a]);
    }
}

proof fn lemma_split_join(x: Seq<char>, a: Seq<char>)
    requires
        forall|k: int| 0 <= k < a.len() ==> #[trigger] a[k] != ':',
    ensures
        split_fields(x + seq![':'] + a) == split_fields(x).push(a),
    decreases a.len(),
{
    let s = x + seq![':'] + a;
    if a.len() == 0 {
        assert(s.drop_last() =~= x);
        assert(a =~= Seq::<char>::empty());
    } else {
        let b = a.drop_last();
        lemma_split_join(x, b);
        assert(s.drop_last() =~= x + seq![':'] + b);
        assert(s.last() == a.last());
        assert(b.push(a.last()) =~= a);
        lemma_split_nonempty(x);
        assert(split_fields(x).push(b).update(split_fields(x).len() as int, a) =~= split_fields(
            x,
        ).push(a));
    }
}

/// Every day and month that exists, written `d:m` in decimal, reads back
/// as exactly that day and month with no year; with a year `y` in range
/// for which the date exists, `d:m:y` reads back as exactly that date.
pub proof fn lemma_birth_date_round_trip(d: nat, m: nat, y: nat)
    requires
        is_valid_day_month(d as int, m as int),
    ensures
        birth_date_of(decimal(d) + seq![':'] + decimal(m)) == Ok::<BirthDate, InputError>(
            BirthDate { day: d as u32, month: m as u32, year: None },
        ),
        1 <= y <= MAX_YEAR && is_valid_date(y as int, m as int, d as int) ==> birth_date_of(
            decimal(d) + seq![':'] + decimal(m) + seq![':'] + decimal(y),
        ) == Ok::<BirthDate, InputError>(
            BirthDate { day: d as u32, month: m as u32, year: Some(y as i32) },
        ),
{
    lemma_decimal(d);
    lemma_decimal(m);
    lemma_decimal(y);
    lemma_split_one_field(decimal(d));
    lemma_split_join(decimal(d), decimal(m));
    lemma_split_join(decimal(d) + seq![':'] + decimal(m), decimal(y));
    assert(seq![decimal(d)].push(decimal(m)) =~= seq![decimal(d), decimal(m)]);
    assert(seq![decimal(d), decimal(m)].push(decimal(y)) =~= seq![decimal(d), decimal(m), decimal(y)]);
}

/// The characters of a line.
fn chars_of(s: &str) -> (r: Vec<char>)
    ensures
        r@ == s@,
{
    let n = s.unicode_len();
    let mut r: Vec<char> = Vec::new();
    let mut i: usize = 0;
    while i < n
        invariant
            n == s@.len(),
            0 <= i <= n,
            r@ == s@.take(i as int),
        decreases n - i,
    {
        r.push(s.get_char(i));
        i += 1;
        assert(r@ =~= s@.take(i as int));
    }
    assert(s@.take(n as int) =~= s@);
    r
}

/// Parses a birthday date, `dd:mm` or `dd:mm:yyyy`.
pub fn parse_birth_date(s: &str) -> (r: Result<BirthDate, InputError>)
    ensures
        r == birth_date_of(s@),
{
    let f = fields_of(s);
    if f.len() != 2 && f.len() != 3 {
        return Err(InputError::Malformed);
    }
    assert(f@[0]@ == views(f@)[0] && f@[1]@ == views(f@)[1]);
    let d = match number_between(&f[0], 1, 31) {
        Some(v) => v,
        None => return Err(InputError::Malformed),
    };
    let m = match number_between(&f[1], 1, 12) {
        Some(v) => v,
        None => return Err(InputError::Malformed),
    };
    if f.len() == 2 {
        // Every day and month that exists in some year exists in year 4.
        if date_exists(4, m, d) {
            Ok(BirthDate { day: d, month: m, year: None })
        } else {
            Err(InputError::InvalidCalendarDate)
        }
    } else {
        assert(f@[2]@ == views(f@)[2]);
        let y = match number_between(&f[2], 1, MAX_YEAR as u32) {
            Some(v) => v as i32,
            None => return Err(InputError::Malformed),
        };
        if date_exists(y, m, d) {
            Ok(BirthDate { day: d, month: m, year: Some(y) })
        } else {
            Err(InputError::InvalidCalendarDate)
        }
    }
}

/// Parses a full date, `dd:mm:yyyy`.
pub fn parse_full_date(s: &str) -> (r: Result<Date, InputError>)
    ensures
        r == full_date_of(s@),
{
    let f = fields_of(s);
    if f.len() != 3 {
        return Err(InputError::Malformed);
    }
    assert(f@[0]@ == views(f@)[0] && f@[1]@ == views(f@)[1] && f@[2]@ == views(f@)[2]);
    let d = match number_between(&f[0], 1, 31) {
        Some(v) => v,
        None => return Err(InputError::Malformed),
    };
    let m = match number_between(&f[1], 1, 12) {
        Some(v) => v,
        None => return Err(InputError::Malformed),
    };
    let y = match number_between(&f[2], 1, MAX_YEAR as u32) {
        Some(v) => v as i32,
        None => return Err(InputError::Malformed),
    };
    if date_exists(y, m, d) {
        Ok(Date { year: y, month: m, day: d })
    } else {
        Err(InputError::InvalidCalendarDate)
    }
}

/// Parses a time of day, `hh:mm`.
pub fn parse_time(s: &str) -> (r: Result<TimeOfDay, InputError>)
    ensures
        r == time_of(s@),
        r matches Ok(t) ==> t.wf(),
{
    let f = fields_of(s);
    if f.len() != 2 {
        return Err(InputError::Malformed);
    }
    assert(f@[0]@ == views(f@)[0] && f@[1]@ == views(f@)[1]);
    let h = match number_between(&f[0], 0, 23) {
        Some(v) => v,
        None => return Err(InputError::Malformed),
    };
    let m = match number_between(&f[1], 0, 59) {
        Some(v) => v,
        None => return Err(InputError::Malformed),
    };
    if time_exists(h, m) {
        Ok(TimeOfDay { hour: h, minute: m })
    } else {
        Err(InputError::Malformed)
    }
}

/// Parses a pre-ping offset in days; `0` means none.
pub fn parse_preping(s: &str) -> (r: Result<Option<u8>, InputError>)
    ensures
        r == preping_of(s@),
{
    let f = chars_of(s);
    match number_between(&f, 0, 255) {
        Some(0) => Ok(None),
        Some(v) => Ok(Some(v as u8)),
        None => Err(InputError::Malformed),
    }
}

/// A name or a reminder text: any non-empty line, kept as it is.
pub fn parse_text(s: &str) -> (r: Result<String, InputError>)
    ensures
        s@.len() > 0 ==> (r matches Ok(t) && t@ == s@),
        s@.len() == 0 ==> r == Err::<String, InputError>(InputError::Malformed),
{
    if s.unicode_len() == 0 {
        Err(InputError::Malformed)
    } else {
        Ok(s.to_owned())
    }
}

} // verus!
