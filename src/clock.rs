//! Local wall-clock time of the venue, and the labels shown for screenings.

use chrono::{Datelike, Timelike};
use vstd::prelude::*;

verus! {

/// Wall-clock fields in the Europe/Zurich time zone of the instant `t`
/// (seconds since the epoch): year, month, day, hour, minute and the weekday
/// counted from Monday = 0; none where the instant is out of chrono's range.
pub uninterp spec fn zurich_fields_of(t: int) -> Option<(i32, u32, u32, u32, u32, u32)>;

/// Relies on chrono's `DateTime::from_timestamp` (none out of range) and on
/// chrono-tz's `Europe::Zurich` rules through `with_timezone`; the field
/// ranges are those that chrono's `Datelike` and `Timelike` document.
#[verifier::external_body]
fn zurich_fields(t: i64) -> (r: Option<(i32, u32, u32, u32, u32, u32)>)
    ensures
        r == zurich_fields_of(t as int),
        r matches Some(f) ==> 1 <= f.1 <= 12 && 1 <= f.2 <= 31 && f.3 < 24 && f.4 < 60 && f.5 < 7,
{
    let local = chrono::DateTime::from_timestamp(t, 0)?.with_timezone(&chrono_tz::Europe::Zurich);
    Some((
        local.year(),
        local.month(),
        local.day(),
        local.hour(),
        local.minute(),
        local.weekday().num_days_from_monday(),
    ))
}

/// A wall-clock time in Zurich, to the minute.
#[derive(Debug, Clone, Copy, PartialEq, Eq, Structural)]
pub struct LocalTime {
    pub year: i32,
    pub month: u32,
    pub day: u32,
    pub hour: u32,
    pub minute: u32,
    /// Monday = 0, ..., Sunday = 6.
    pub weekday: u32,
}

impl LocalTime {
    pub open spec fn wf(&self) -> bool {
        &&& 1 <= self.month <= 12
        &&& 1 <= self.day <= 31
        &&& self.hour < 24
        &&& self.minute < 60
        &&& self.weekday < 7
    }

    pub open spec fn from_fields(f: (i32, u32, u32, u32, u32, u32)) -> LocalTime {
        LocalTime { year: f.0, month: f.1, day: f.2, hour: f.3, minute: f.4, weekday: f.5 }
    }
}

/// The Zurich wall-clock time of the instant `t`.
pub open spec fn zurich_time_of(t: int) -> Option<LocalTime> {
    match zurich_fields_of(t) {
        Some(f) => Some(LocalTime::from_fields(f)),
        None => None,
    }
}

/// The wall-clock time in Zurich of the instant `timestamp` (seconds since the
/// epoch), daylight saving included; none where chrono cannot represent it.
pub fn to_zurich_time(timestamp: i64) -> (r: Option<LocalTime>)
    ensures
        r == zurich_time_of(timestamp as int),
        r matches Some(lt) ==> lt.wf(),
{
    match zurich_fields(timestamp) {
        Some(f) => Some(
            LocalTime { year: f.0, month: f.1, day: f.2, hour: f.3, minute: f.4, weekday: f.5 },
        ),
        None => None,
    }
}

pub open spec fn digit(d: nat) -> char {
    if d < 10 {
        ((d + 48) as u8) as char
    } else {
        '?'
    }
}

/// Decimal digits of `n`, without leading zeros.
pub open spec fn decimal(n: nat) -> Seq<char>
    decreases n,
{
    if n < 10 {
        seq![digit(n)]
    } else {
        decimal(n / 10).push(digit(n % 10))
    }
}

/// `n` in decimal, with zeros in front up to `width` digits.
pub open spec fn padded(n: nat, width: nat) -> Seq<char> {
    let d = decimal(n);
    if d.len() < width {
        Seq::new((width - d.len()) as nat, |i: int| '0') + d
    } else {
        d
    }
}

/// A year as chrono's `%Y` writes it: four digits at least, and a sign for
/// years before 0 or after 9999.
pub open spec fn year_text(y: int) -> Seq<char> {
    if y < 0 {
        seq!['-'] + padded((-y) as nat, 4)
    } else if y > 9999 {
        seq!['+'] + decimal(y as nat)
    } else {
        padded(y as nat, 4)
    }
}

/// English name of the weekday, Monday = 0.
pub open spec fn weekday_name(w: u32) -> Seq<char> {
    if w == 0 {
        seq!['M', 'o', 'n', 'd', 'a', 'y']
    } else if w == 1 {
        seq!['T', 'u', 'e', 's', 'd', 'a', 'y']
    } else if w == 2 {
        seq!['W', 'e', 'd', 'n', 'e', 's', 'd', 'a', 'y']
    } else if w == 3 {
        seq!['T', 'h', 'u', 'r', 's', 'd', 'a', 'y']
    } else if w == 4 {
        seq!['F', 'r', 'i', 'd', 'a', 'y']
    } else if w == 5 {
        seq!['S', 'a', 't', 'u', 'r', 'd', 'a', 'y']
    } else {
        seq!['S', 'u', 'n', 'd', 'a', 'y']
    }
}

/// `dd.mm.yyyy HH:MM`.
pub open spec fn date_time_text(lt: LocalTime) -> Seq<char> {
    padded(lt.day as nat, 2) + seq!['.'] + padded(lt.month as nat, 2) + seq!['.'] + year_text(
        lt.year as int,
    ) + seq![' '] + padded(lt.hour as nat, 2) + seq![':'] + padded(lt.minute as nat, 2)
}

/// `Weekday dd.mm.yyyy HH:MM`.
pub open spec fn weekday_date_time_text(lt: LocalTime) -> Seq<char> {
    weekday_name(lt.weekday) + seq![' '] + date_time_text(lt)
}

/// The label of a screening that starts at `t`: weekday, date and time in
/// Zurich; empty where the instant cannot be represented.
pub open spec fn start_label(t: int) -> Seq<char> {
    match zurich_time_of(t) {
        Some(lt) => weekday_date_time_text(lt),
        None => Seq::empty(),
    }
}

fn digit_char(d: u32) -> (c: char)
    requires
        d < 10,
    ensures
        c == digit(d as nat),
{
    ((d + 48) as u8) as char
}

/// Appends the decimal digits of `n`.
pub(crate) fn push_decimal(s: &mut String, n: u64)
    ensures
        final(s)@ == old(s)@ + decimal(n as nat),
    decreases n,
{
    if n < 10 {
        s.push(digit_char(n as u32));
    } else {
        push_decimal(s, n / 10);
        s.push(digit_char((n % 10) as u32));
        assert(final(s)@ =~= old(s)@ + decimal(n as nat));
    }
}

proof fn lemma_decimal_len(n: nat)
    ensures
        1 <= decimal(n).len(),
        n < 10 ==> decimal(n).len() == 1,
        10 <= n < 100 ==> decimal(n).len() == 2,
        100 <= n < 1000 ==> decimal(n).len() == 3,
        1000 <= n ==> decimal(n).len() >= 4,
    decreases n,
{
    if n >= 10 {
        lemma_decimal_len(n / 10);
    }
}

/// Appends `n` zero-padded to `width` digits (at most 4).
fn push_padded(s: &mut String, n: u32, width: u32)
    requires
        width <= 4,
    ensures
        final(s)@ == old(s)@ + padded(n as nat, width as nat),
{
    proof {
        lemma_decimal_len(n as nat);
    }
    let len: u32 = if n < 10 {
        1
    } else if n < 100 {
        2
    } else if n < 1000 {
        3
    } else {
        4
    };
    let ghost start = s@;
    let mut k: u32 = len;
    while k < width
        invariant
            len <= width || k == len,
            len <= k,
            k <= width || k == len,
            s@ == start + Seq::new((k - len) as nat, |i: int| '0'),
        decreases width - k,
    {
        s.push('0');
        assert(s@ =~= start + Seq::new((k + 1 - len) as nat, |i: int| '0'));
        k += 1;
    }
    let ghost zeros = s@.subrange(start.len() as int, s@.len() as int);
    push_decimal(s, n as u64);
    proof {
        let d = decimal(n as nat);
        if d.len() < width {
            assert(d.len() == len);
            assert(final(s)@ =~= start + (Seq::new((width - d.len()) as nat, |i: int| '0') + d));
        } else {
            assert(k == len);
            assert(final(s)@ =~= start + d);
        }
    }
}

fn push_year(s: &mut String, y: i32)
    ensures
        final(s)@ == old(s)@ + year_text(y as int),
{
    let ghost start = s@;
    if y < 0 {
        s.push('-');
        let a: u32 = if y == i32::MIN {
            2147483648u32
        } else {
            (-y) as u32
        };
        push_padded(s, a, 4);
        assert(final(s)@ =~= start + year_text(y as int));
    } else if y > 9999 {
        s.push('+');
        push_decimal(s, y as u64);
        assert(final(s)@ =~= start + year_text(y as int));
    } else {
        push_padded(s, y as u32, 4);
    }
}

fn push_weekday(s: &mut String, w: u32)
    ensures
        final(s)@ == old(s)@ + weekday_name(w),
{
    let name = if w == 0 {
        "Monday"
    } else if w == 1 {
        "Tuesday"
    } else if w == 2 {
        "Wednesday"
    } else if w == 3 {
        "Thursday"
    } else if w == 4 {
        "Friday"
    } else if w == 5 {
        "Saturday"
    } else {
        "Sunday"
    };
    proof {
        reveal_strlit("Monday");
        reveal_strlit("Tuesday");
        reveal_strlit("Wednesday");
        reveal_strlit("Thursday");
        reveal_strlit("Friday");
        reveal_strlit("Saturday");
        reveal_strlit("Sunday");
    }
    s.append(name);
    assert(final(s)@ =~= old(s)@ + weekday_name(w));
}

impl LocalTime {
    /// `dd.mm.yyyy HH:MM`.
    pub fn date_time_label(&self) -> (r: String)
        requires
            self.wf(),
        ensures
            r@ == date_time_text(*self),
    {
        let mut s = String::new();
        push_padded(&mut s, self.day, 2);
        s.push('.');
        push_padded(&mut s, self.month, 2);
        s.push('.');
        push_year(&mut s, self.year);
        s.push(' ');
        push_padded(&mut s, self.hour, 2);
        s.push(':');
        push_padded(&mut s, self.minute, 2);
        assert(s@ =~= date_time_text(*self));
        s
    }

    /// `Weekday dd.mm.yyyy HH:MM`, the weekday in English.
    pub fn weekday_label(&self) -> (r: String)
        requires
            self.wf(),
        ensures
            r@ == weekday_date_time_text(*self),
    {
        let mut s = String::new();
        push_weekday(&mut s, self.weekday);
        s.push(' ');
        let rest = self.date_time_label();
        s.append(rest.as_str());
        assert(s@ =~= weekday_date_time_text(*self));
        s
    }
}

/// The label of a screening that starts at `t`, as offered in polls and in
/// the pinned summary: weekday, date and time in Zurich.
pub fn option(t: i64) -> (r: String)
    ensures
        r@ == start_label(t as int),
{
    match to_zurich_time(t) {
        Some(lt) => lt.weekday_label(),
        None => String::new(),
    }
}

} // verus!
