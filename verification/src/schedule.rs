//! Clock times of itinerary items (`HH:MM`), end-time arithmetic, and the
//! small display helpers of the trip and itinerary views.

use vstd::prelude::*;
use crate::text::{
    chars_of, find_char, find_char_in, is_ascii_digit, is_ascii_digit_char, lemma_find_char,
    nat_text, push_int_text, push_nat_text, push_str, string_from_chars, sub_chars, utf8_len,
    utf8_len_is, zero_pad, int_text,
};

verus! {

/// Why a clock time, or an end time computed from one, was refused.
#[derive(Clone, Copy, Debug, PartialEq, Eq, Structural)]
pub enum TimeError {
    /// Not two parts of two bytes each around a single `:`.
    Format,
    /// The parts are not numbers, or not an hour 0..=23 and a minute 0..=59.
    Invalid,
    /// Adding the minutes went before midnight.
    NegativeResult,
    /// Adding the minutes went past the end of the day.
    PastMidnight,
}

pub open spec fn time_error_text(e: TimeError, time: Seq<char>) -> Seq<char> {
    match e {
        TimeError::Format => "時刻は HH:MM 形式で指定してください: "@ + time,
        TimeError::Invalid => "不正な時刻です: "@ + time,
        TimeError::NegativeResult => "時刻の計算結果が不正です"@,
        TimeError::PastMidnight => "終了予定時刻が24時を超えました（日跨ぎには未対応です）"@,
    }
}

/// The message for `e` about the time text `time`.
pub fn time_error_message(e: TimeError, time: &str) -> (s: String)
    ensures
        s@ == time_error_text(e, time@),
{
    let mut v: Vec<char> = Vec::new();
    match e {
        TimeError::Format => {
            push_str(&mut v, "時刻は HH:MM 形式で指定してください: ");
            push_str(&mut v, time);
        },
        TimeError::Invalid => {
            push_str(&mut v, "不正な時刻です: ");
            push_str(&mut v, time);
        },
        TimeError::NegativeResult => push_str(&mut v, "時刻の計算結果が不正です"),
        TimeError::PastMidnight => push_str(
            &mut v,
            "終了予定時刻が24時を超えました（日跨ぎには未対応です）",
        ),
    }
    assert(v@ =~= time_error_text(e, time@));
    string_from_chars(v.as_slice())
}

pub open spec fn digit_value(c: char) -> int {
    (c as u32) - 48
}

/// The value of a part of a clock time: exactly two ASCII digits.
pub open spec fn two_byte_number(p: Seq<char>) -> Option<int> {
    if p.len() == 2 && is_ascii_digit(p[0]) && is_ascii_digit(p[1]) {
        Some(digit_value(p[0]) * 10 + digit_value(p[1]))
    } else {
        None
    }
}

/// What `parse_time_hhmm` makes of `s`: the hour and minute.
pub open spec fn hhmm_result(s: Seq<char>) -> Result<(int, int), TimeError> {
    match find_char(s, ':') {
        None => Err(TimeError::Format),
        Some(i) => {
            let p0 = s.subrange(0, i as int);
            let p1 = s.subrange(i as int + 1, s.len() as int);
            if find_char(p1, ':') is Some {
                Err(TimeError::Format)
            } else if utf8_len(p0) != 2 || utf8_len(p1) != 2 {
                Err(TimeError::Format)
            } else {
                match (two_byte_number(p0), two_byte_number(p1)) {
                    (Some(h), Some(m)) => if 0 <= h <= 23 && 0 <= m <= 59 {
                        Ok((h, m))
                    } else {
                        Err(TimeError::Invalid)
                    },
                    _ => Err(TimeError::Invalid),
                }
            }
        },
    }
}

fn two_byte_number_of(p: &[char]) -> (r: Option<i32>)
    ensures
        match r {
            Some(x) => two_byte_number(p@) == Some(x as int),
            None => two_byte_number(p@) is None,
        },
{
    if p.len() != 2 {
        return None;
    }
    let a = p[0];
    let b = p[1];
    if is_ascii_digit_char(a) && is_ascii_digit_char(b) {
        let av = ((a as u32) - 48) as i32;
        let bv = ((b as u32) - 48) as i32;
        Some(av * 10 + bv)
    } else {
        None
    }
}

/// Checks that `time` is written `HH:MM` and returns the hour and minute.
pub fn parse_time_hhmm(time: &str) -> (r: Result<(i32, i32), TimeError>)
    ensures
        match r {
            Ok((h, m)) => hhmm_result(time@) == Ok::<(int, int), TimeError>((h as int, m as int)),
            Err(e) => hhmm_result(time@) == Err::<(int, int), TimeError>(e),
        },
{
    let s = chars_of(time);
    proof {
        lemma_find_char(s@, ':');
    }
    let i = match find_char_in(s.as_slice(), ':') {
        Some(i) => i,
        None => return Err(TimeError::Format),
    };
    let p0 = sub_chars(s.as_slice(), 0, i);
    let p1 = sub_chars(s.as_slice(), i + 1, s.len());
    if find_char_in(p1.as_slice(), ':').is_some() {
        return Err(TimeError::Format);
    }
    if !utf8_len_is(p0.as_slice(), 2) || !utf8_len_is(p1.as_slice(), 2) {
        return Err(TimeError::Format);
    }
    let hour = match two_byte_number_of(p0.as_slice()) {
        Some(h) => h,
        None => return Err(TimeError::Invalid),
    };
    let minute = match two_byte_number_of(p1.as_slice()) {
        Some(m) => m,
        None => return Err(TimeError::Invalid),
    };
    if !(0 <= hour && hour <= 23) || !(0 <= minute && minute <= 59) {
        return Err(TimeError::Invalid);
    }
    Ok((hour, minute))
}

/// `HH:MM` text of a minute of the day.
pub open spec fn clock_text(total: int) -> Seq<char> {
    zero_pad(nat_text((total / 60) as nat), 2) + seq![':'] + zero_pad(
        nat_text((total % 60) as nat),
        2,
    )
}

/// Whether adding `minutes` to `time` stays within `i32` arithmetic.
pub open spec fn end_time_arithmetic_fits(time: Seq<char>, minutes: i64) -> bool {
    hhmm_result(time) matches Ok((h, m)) ==> h * 60 + m + ((minutes as i32) as int) <= i32::MAX
}

/// What `add_minutes_to_time(time, minutes)` gives; `minutes` is taken
/// modulo 2^32 as a signed 32-bit number, as the computation is done in `i32`.
pub open spec fn end_time_result(time: Seq<char>, minutes: i64) -> Result<Seq<char>, TimeError> {
    match hhmm_result(time) {
        Err(e) => Err(e),
        Ok((h, m)) => {
            let total = h * 60 + m + ((minutes as i32) as int);
            if total < 0 {
                Err(TimeError::NegativeResult)
            } else if total / 60 >= 24 {
                Err(TimeError::PastMidnight)
            } else {
                Ok(clock_text(total))
            }
        },
    }
}

/// Whether `add_minutes_to_time(time, minutes)` can be called (its `i32`
/// arithmetic does not overflow).
pub fn end_time_fits(time: &str, minutes: i64) -> (b: bool)
    ensures
        b == end_time_arithmetic_fits(time@, minutes),
{
    match parse_time_hhmm(time) {
        Ok((h, m)) => {
            let add = minutes as i32;
            (add as i64) <= (i32::MAX as i64) - (h as i64 * 60 + m as i64)
        },
        Err(_) => true,
    }
}

/// Appends a number below 100 as two digits.
fn push_two_digits(out: &mut Vec<char>, n: u64)
    requires
        n < 100,
    ensures
        final(out)@ == old(out)@ + zero_pad(nat_text(n as nat), 2),
{
    if n < 10 {
        out.push('0');
    }
    push_nat_text(out, n);
    proof {
        reveal_with_fuel(nat_text, 2);
        if n < 10 {
            assert(nat_text(n as nat).len() == 1);
            assert(zero_pad(nat_text(n as nat), 2) =~= seq!['0'] + nat_text(n as nat));
        } else {
            assert(nat_text((n / 10) as nat).len() == 1);
            assert(nat_text(n as nat).len() == 2);
        }
    }
    assert(final(out)@ =~= old(out)@ + zero_pad(nat_text(n as nat), 2));
}

/// The time `minutes` after `time` (same day only).
pub fn add_minutes_to_time(time: &str, minutes: i64) -> (r: Result<String, TimeError>)
    requires
        end_time_arithmetic_fits(time@, minutes),
    ensures
        match r {
            Ok(s) => end_time_result(time@, minutes) == Ok::<Seq<char>, TimeError>(s@),
            Err(e) => end_time_result(time@, minutes) == Err::<Seq<char>, TimeError>(e),
        },
{
    let (hour, minute) = match parse_time_hhmm(time) {
        Ok(hm) => hm,
        Err(e) => return Err(e),
    };
    let total: i32 = hour * 60 + minute + (minutes as i32);
    if total < 0 {
        return Err(TimeError::NegativeResult);
    }
    let new_hour = total / 60;
    let new_minute = total % 60;
    if new_hour >= 24 {
        return Err(TimeError::PastMidnight);
    }
    let mut v: Vec<char> = Vec::new();
    push_two_digits(&mut v, new_hour as u64);
    v.push(':');
    push_two_digits(&mut v, new_minute as u64);
    assert(v@ =~= clock_text(total as int));
    Ok(string_from_chars(v.as_slice()))
}

/// Display of an optional date (`-` when unset).
pub fn fmt_date(date: &Option<String>) -> (s: &str)
    ensures
        s@ == match date {
            Some(t) => t@,
            None => "-"@,
        },
{
    match date {
        Some(t) => t.as_str(),
        None => "-",
    }
}

/// Display of an optional text (`-` when unset).
pub fn fmt_text(text: &Option<String>) -> (s: &str)
    ensures
        s@ == match text {
            Some(t) => t@,
            None => "-"@,
        },
{
    match text {
        Some(t) => t.as_str(),
        None => "-",
    }
}

/// `{m}分` for a number of minutes.
pub open spec fn minutes_text(m: int) -> Seq<char> {
    int_text(m) + "分"@
}

/// Display of an optional number of minutes (`-` when unset).
pub fn fmt_minutes(minutes: Option<i64>) -> (s: String)
    ensures
        s@ == match minutes {
            Some(m) => minutes_text(m as int),
            None => "-"@,
        },
{
    let mut v: Vec<char> = Vec::new();
    match minutes {
        Some(m) => {
            push_int_text(&mut v, m);
            push_str(&mut v, "分");
        },
        None => push_str(&mut v, "-"),
    }
    assert(v@ =~= match minutes {
        Some(m) => minutes_text(m as int),
        None => "-"@,
    });
    string_from_chars(v.as_slice())
}

proof fn lemma_two_digits(n: int)
    requires
        0 <= n < 100,
    ensures
        zero_pad(nat_text(n as nat), 2) == seq![crate::text::digit_char(n / 10), crate::text::digit_char(n % 10)],
        is_ascii_digit(crate::text::digit_char(n / 10)),
        is_ascii_digit(crate::text::digit_char(n % 10)),
        digit_value(crate::text::digit_char(n / 10)) == n / 10,
        digit_value(crate::text::digit_char(n % 10)) == n % 10,
{
    reveal_with_fuel(nat_text, 2);
    if n < 10 {
        assert(zero_pad(nat_text(n as nat), 2) =~= seq!['0'] + nat_text(n as nat));
        assert(crate::text::digit_char(0) == '0');
    } else {
        assert(nat_text(n as nat) =~= seq![crate::text::digit_char(n / 10), crate::text::digit_char(n % 10)]);
    }
}

/// Reading back a written clock time gives the same hour and minute.
pub proof fn lemma_clock_text_round_trip(total: int)
    requires
        0 <= total < 24 * 60,
    ensures
        hhmm_result(clock_text(total)) == Ok::<(int, int), TimeError>((total / 60, total % 60)),
{
    let h = total / 60;
    let m = total % 60;
    lemma_two_digits(h);
    lemma_two_digits(m);
    let s = clock_text(total);
    assert(s =~= seq![
        crate::text::digit_char(h / 10),
        crate::text::digit_char(h % 10),
        ':',
        crate::text::digit_char(m / 10),
        crate::text::digit_char(m % 10),
    ]);
    lemma_find_char(s, ':');
    let i = find_char(s, ':')->Some_0;
    assert(s[2] == ':');
    assert(i == 2);
    let p0 = s.subrange(0, 2);
    let p1 = s.subrange(3, 5);
    lemma_find_char(p1, ':');
    assert(p1[0] == s[3] && p1[1] == s[4]);
    reveal_with_fuel(utf8_len, 3);
    assert(p0.drop_last().drop_last() =~= Seq::<char>::empty());
    assert(p1.drop_last().drop_last() =~= Seq::<char>::empty());
    assert(utf8_len(p0) == 2);
    assert(utf8_len(p1) == 2);
    assert(two_byte_number(p0) == Some(h));
    assert(two_byte_number(p1) == Some(m));
}

/// Adding `a` minutes and then `b` minutes is adding `a + b` minutes at
/// once (for amounts under a day).
pub proof fn lemma_add_minutes_compose(t: Seq<char>, a: i64, b: i64)
    requires
        -1440 < a < 1440,
        -1440 < b < 1440,
        end_time_result(t, a) is Ok,
    ensures
        end_time_result(end_time_result(t, a)->Ok_0, b) == end_time_result(t, (a + b) as i64),
{
    let (h, m) = hhmm_result(t)->Ok_0;
    let total = h * 60 + m + a;
    lemma_clock_text_round_trip(total);
}

/// Adding no minutes gives the time back, written as `HH:MM`.
pub proof fn lemma_add_zero_minutes(t: Seq<char>)
    requires
        hhmm_result(t) is Ok,
    ensures
        end_time_result(t, 0) == Ok::<Seq<char>, TimeError>(
            clock_text(hhmm_result(t)->Ok_0.0 * 60 + hhmm_result(t)->Ok_0.1),
        ),
{
}

} // verus!
