//! Clock times ("2pm", "14:30", "9:15 am") and durations (decimal hours,
//! "90m", "1h 30m", "1h30m") from free-form text.
use vstd::prelude::*;
use vstd::arithmetic::div_mod::{lemma_div_denominator, lemma_hoist_over_denominator};
use crate::error::{Failure, MeterError};
use crate::models::{ClockTime, Span};
use crate::text::{
    chars_of, count_all_digits, count_digits, digit_count, count_spaces, digit_run, digit_value, digits_capped, digits_value,
    is_digit, is_letter_ci, lemma_digit_run_bound, lemma_digits_value_prefix_monotone, trim_ws,
    trimmed, ws_run,
};

verus! {

/// The longest span, in seconds, that a duration may have (`i64::MAX`
/// milliseconds, whole seconds).
pub const MAX_SPAN_SECS: i64 = 9_223_372_036_854_775;

/// Sub-second part allowed at exactly `MAX_SPAN_SECS`, in nanoseconds.
pub const MAX_SPAN_NANOS: u32 = 807_000_000;

// ---------------------------------------------------------------- clock time

/// The parts of a clock time `H` or `H:MM`, optionally followed by whitespace
/// and `am` or `pm` in any case: the hour as written, the minute, and the
/// suffix (0 none, 1 am, 2 pm). `None` where `t` has another shape.
pub open spec fn clock_fields(t: Seq<char>) -> Option<(int, int, int)> {
    let h = digit_run(t, 0) as int;
    if h == 0 || h > 2 {
        None
    } else {
        let has_min = h < t.len() && t[h] == ':';
        if has_min && !(h + 3 <= t.len() && is_digit(t[h + 1]) && is_digit(t[h + 2])) {
            None
        } else {
            let hour = digits_value(t.subrange(0, h)) as int;
            let minute = if has_min {
                digits_value(t.subrange(h + 1, h + 3)) as int
            } else {
                0
            };
            let k = if has_min { h + 3 } else { h };
            let j = k + ws_run(t, k);
            if j == t.len() {
                Some((hour, minute, 0))
            } else if j + 2 == t.len() && is_letter_ci(t[j + 1], 'm') && is_letter_ci(t[j], 'a') {
                Some((hour, minute, 1))
            } else if j + 2 == t.len() && is_letter_ci(t[j + 1], 'm') && is_letter_ci(t[j], 'p') {
                Some((hour, minute, 2))
            } else {
                None
            }
        }
    }
}

/// The 24-hour hour: `pm` adds 12 to hours below 12; `12am` is hour 0.
pub open spec fn hour_24(hour: int, suffix: int) -> int {
    if suffix == 2 && hour < 12 {
        hour + 12
    } else if suffix == 1 && hour == 12 {
        0
    } else {
        hour
    }
}

/// What reading the trimmed text `t` as a clock time gives: hour and minute.
pub open spec fn clock_spec(t: Seq<char>) -> Result<(int, int), Failure> {
    match clock_fields(t) {
        None => Err(Failure::InvalidTimeFormat(t)),
        Some((hour, minute, suffix)) => if minute >= 60 {
            Err(Failure::InvalidMinute(minute))
        } else if hour_24(hour, suffix) >= 24 {
            Err(Failure::InvalidHour(hour_24(hour, suffix)))
        } else {
            Ok((hour_24(hour, suffix), minute))
        },
    }
}

/// Whether `r` is what `clock_spec(t)` describes.
pub open spec fn clock_result(t: Seq<char>, r: Result<ClockTime, MeterError>) -> bool {
    match r {
        Ok(c) => clock_spec(t) == Ok::<(int, int), Failure>(
            (c.spec_hour() as int, c.spec_minute() as int),
        ) && c.spec_second() == 0 && c.valid(),
        Err(e) => clock_spec(t) == Err::<(int, int), Failure>(e@),
    }
}

fn is_ci(c: char, lower: char) -> (r: bool)
    requires
        'a' <= lower <= 'z',
    ensures
        r == is_letter_ci(c, lower),
{
    c == lower || c as u32 == lower as u32 - 32
}

/// Reads a clock time: `H` or `H:MM` in 24-hour form, or followed by `am` /
/// `pm` (any case, optional whitespace before it). Surrounding whitespace is
/// ignored.
pub fn parse_time(s: &str) -> (r: Result<ClockTime, MeterError>)
    ensures
        clock_result(trim_ws(s@), r),
{
    let t = trimmed(s);
    let v = chars_of(t);
    let ghost tv = v@;
    proof {
        lemma_digit_run_bound(tv, 0);
    }
    let h = count_digits(&v, 0);
    if h == 0 || h > 2 {
        return Err(MeterError::InvalidTimeFormat(t.to_owned()));
    }
    let has_min = h < v.len() && v[h] == ':';
    if has_min && !(h + 3 <= v.len() && '0' <= v[h + 1] && v[h + 1] <= '9' && '0' <= v[h + 2] && v[h
        + 2] <= '9') {
        return Err(MeterError::InvalidTimeFormat(t.to_owned()));
    }
    let hour = match digits_capped(&v, 0, h, 99) {
        Some(x) => x,
        None => {
            proof {
                lemma_two_digits_bound(tv.subrange(0, h as int));
            }
            return Err(MeterError::InvalidTimeFormat(t.to_owned()));
        },
    };
    let minute: u64 = if has_min {
        match digits_capped(&v, h + 1, h + 3, 99) {
            Some(x) => x,
            None => {
                proof {
                    lemma_two_digits_bound(tv.subrange(h + 1, h + 3));
                }
                return Err(MeterError::InvalidTimeFormat(t.to_owned()));
            },
        }
    } else {
        0
    };
    let k = if has_min { h + 3 } else { h };
    let j = k + count_spaces(&v, k);
    let suffix: u8 = if j == v.len() {
        0
    } else if v.len() - j == 2 && is_ci(v[j + 1], 'm') && is_ci(v[j], 'a') {
        1
    } else if v.len() - j == 2 && is_ci(v[j + 1], 'm') && is_ci(v[j], 'p') {
        2
    } else {
        return Err(MeterError::InvalidTimeFormat(t.to_owned()));
    };
    if minute >= 60 {
        return Err(MeterError::InvalidMinute(minute as u32));
    }
    let hour24: u64 = if suffix == 2 && hour < 12 {
        hour + 12
    } else if suffix == 1 && hour == 12 {
        0
    } else {
        hour
    };
    if hour24 >= 24 {
        return Err(MeterError::InvalidHour(hour24 as u32));
    }
    match ClockTime::from_hms_opt(hour24 as u32, minute as u32, 0) {
        Some(c) => Ok(c),
        None => Err(MeterError::InvalidTimeFormat(t.to_owned())),
    }
}

proof fn lemma_two_digits_bound(s: Seq<char>)
    requires
        s.len() <= 2,
        forall|i: int| 0 <= i < s.len() ==> is_digit(#[trigger] s[i]),
    ensures
        digits_value(s) <= 99,
{
    if s.len() > 0 {
        let p = s.drop_last();
        if p.len() > 0 {
            assert(p.drop_last().len() == 0);
            assert(digits_value(p.drop_last()) == 0);
            assert(is_digit(p.last()));
            assert(digits_value(p) <= 9);
        } else {
            assert(digits_value(p) == 0);
        }
        assert(is_digit(s.last()));
    }
}

// ------------------------------------------------------------------ duration

pub open spec fn pow10(n: nat) -> nat
    decreases n,
{
    if n == 0 {
        1
    } else {
        10 * pow10((n - 1) as nat)
    }
}

proof fn lemma_pow10_positive(n: nat)
    ensures
        pow10(n) > 0,
    decreases n,
{
    if n > 0 {
        lemma_pow10_positive((n - 1) as nat);
    }
}

/// Minutes that `t` gives in the decimal-hours form `<digits>[.<digits>]`,
/// optional whitespace, `h` in any case: the hours times sixty, rounded to
/// the nearest minute with halves rounded up. `None` where `t` has another
/// shape.
pub open spec fn decimal_minutes(t: Seq<char>) -> Option<int> {
    let a = digit_run(t, 0) as int;
    if a == 0 {
        None
    } else {
        let has_frac = a < t.len() && t[a] == '.';
        let b = if has_frac { digit_run(t, a + 1) as int } else { 0 };
        if has_frac && b == 0 {
            None
        } else {
            let end = if has_frac { a + 1 + b } else { a };
            let j = end + ws_run(t, end);
            if j + 1 == t.len() && is_letter_ci(t[j], 'h') {
                let whole = digits_value(t.subrange(0, a));
                let frac = if has_frac { digits_value(t.subrange(a + 1, a + 1 + b)) } else { 0 };
                Some(((120 * whole + (120 * frac) / pow10(b as nat) + 1) / 2) as int)
            } else {
                None
            }
        }
    }
}

/// Hours and minutes that `t` gives in the compact form `[<digits> h]
/// [<digits> m]` (whitespace allowed around the units, units in any case).
/// `None` where `t` has another shape.
pub open spec fn compact_parts(t: Seq<char>) -> Option<(int, int)> {
    let a = digit_run(t, 0) as int;
    let sa = a + ws_run(t, a);
    let has_h = a > 0 && sa < t.len() && is_letter_ci(t[sa], 'h');
    let hours = if has_h { digits_value(t.subrange(0, a)) as int } else { 0 };
    let p = if has_h { sa + 1 } else { 0 };
    let q = p + ws_run(t, p);
    let b = digit_run(t, q) as int;
    let sb = q + b + ws_run(t, q + b);
    if b > 0 && sb + 1 == t.len() && is_letter_ci(t[sb], 'm') {
        Some((hours, digits_value(t.subrange(q, q + b)) as int))
    } else if q == t.len() {
        Some((hours, 0))
    } else {
        None
    }
}

/// What humantime's `parse_duration` gives for a text: whole seconds and
/// nanoseconds, or `None` where it reports an error.
pub uninterp spec fn human_duration(s: Seq<char>) -> Option<(u64, u32)>;

/// Most ASCII digits a text may hold to be handed to humantime.
///
/// humantime's `parse_duration` builds its result with `Duration::new`, which
/// panics when the seconds overflow `u64`. Every number in the text adds at
/// most its value times one year (31 557 600 s) plus less than one year for a
/// fraction, so a text with at most eleven digits stays below 4e18 seconds
/// and cannot reach that overflow.
pub const HUMAN_DIGIT_LIMIT: usize = 11;

/// What the general duration grammar makes of the trimmed text `t`: humantime's
/// reading where `t` has at most `HUMAN_DIGIT_LIMIT` digits, else nothing.
pub open spec fn human_reading(t: Seq<char>) -> Option<(u64, u32)> {
    if digit_count(t) <= HUMAN_DIGIT_LIMIT {
        human_duration(t)
    } else {
        None
    }
}

/// Relies on `humantime::parse_duration`: its result, as seconds and the
/// sub-second nanoseconds, depends on the text alone. It does not panic on a
/// text with at most `HUMAN_DIGIT_LIMIT` digits (see there).
#[verifier::external_body]
fn humantime_duration(s: &str) -> (r: Option<(u64, u32)>)
    requires
        digit_count(s@) <= HUMAN_DIGIT_LIMIT,
    ensures
        r == human_duration(s@),
{
    match humantime::parse_duration(s) {
        Ok(d) => Some((d.as_secs(), d.subsec_nanos())),
        Err(_) => None,
    }
}

/// Whether a duration of `secs` seconds and `nanos` nanoseconds is within the
/// longest span.
pub open spec fn span_fits(secs: int, nanos: int) -> bool {
    secs < MAX_SPAN_SECS || (secs == MAX_SPAN_SECS && nanos <= MAX_SPAN_NANOS)
}

/// Seconds that the trimmed text `t` reads as, given what the general
/// duration grammar made of it (`human`). The decimal-hours form is tried
/// first, then the general grammar, then the compact form; `None` is an
/// invalid duration.
pub open spec fn duration_spec(t: Seq<char>, human: Option<(u64, u32)>) -> Option<int> {
    match decimal_minutes(t) {
        Some(m) => if m * 60 <= MAX_SPAN_SECS {
            Some(m * 60)
        } else {
            None
        },
        None => match human {
            Some((secs, nanos)) => if span_fits(secs as int, nanos as int) {
                Some(secs as int)
            } else {
                None
            },
            None => match compact_parts(t) {
                Some((h, m)) => if (h > 0 || m > 0) && h * 3600 + m * 60 <= MAX_SPAN_SECS {
                    Some(h * 3600 + m * 60)
                } else {
                    None
                },
                None => None,
            },
        },
    }
}

/// Whether `r` is what `duration_spec(t, human)` describes.
pub open spec fn duration_result(t: Seq<char>, human: Option<(u64, u32)>, r: Result<Span, MeterError>) -> bool {
    match r {
        Ok(d) => duration_spec(t, human) == Some(d.secs as int),
        Err(e) => duration_spec(t, human) is None && e@ == Failure::InvalidDurationFormat(t),
    }
}

proof fn lemma_digits_value_front(s: Seq<char>)
    requires
        s.len() > 0,
    ensures
        digits_value(s) == digit_value(s[0]) * pow10((s.len() - 1) as nat) + digits_value(
            s.drop_first(),
        ),
    decreases s.len(),
{
    let d = digit_value(s[0]);
    if s.len() == 1 {
        assert(s.drop_last().len() == 0);
        assert(s.drop_first().len() == 0);
        assert(digits_value(s.drop_last()) == 0);
        assert(digits_value(s.drop_first()) == 0);
        assert(s.last() == s[0]);
        assert(pow10((s.len() - 1) as nat) == 1);
        assert(digits_value(s) == d);
    } else {
        let p = s.drop_last();
        lemma_digits_value_front(p);
        assert(p.drop_first() =~= s.drop_first().drop_last());
        let n = (s.len() - 2) as nat;
        assert(pow10(n + 1) == 10 * pow10(n));
        lemma_pow10_positive(n);
        let x = digits_value(p.drop_first());
        let pp = pow10(n);
        assert(p[0] == s[0]);
        assert(s.drop_first().last() == s.last());
        assert(digits_value(s.drop_first()) == x * 10 + digit_value(s.last()));
        assert(digits_value(s) == digits_value(p) * 10 + digit_value(s.last()));
        assert((s.len() - 1) as nat == n + 1);
        assert(pow10((s.len() - 1) as nat) == 10 * pp);
        assert(digits_value(p) == d * pp + x);
        assert((d * pp + x) * 10 == d * (10 * pp) + x * 10) by (nonlinear_arith);
        assert(digits_value(s) == d * (10 * pp) + digits_value(s.drop_first()));
    }
}

proof fn lemma_digits_value_below_pow(s: Seq<char>)
    requires
        forall|i: int| 0 <= i < s.len() ==> is_digit(#[trigger] s[i]),
    ensures
        digits_value(s) < pow10(s.len()),
    decreases s.len(),
{
    if s.len() == 0 {
        assert(pow10(0) == 1);
    } else {
        let p = s.drop_last();
        assert forall|i: int| 0 <= i < p.len() implies is_digit(#[trigger] p[i]) by {
            assert(p[i] == s[i]);
        }
        lemma_digits_value_below_pow(p);
        assert(is_digit(s[s.len() - 1]));
        assert(pow10(s.len()) == 10 * pow10(p.len()));
        let x = digits_value(p);
        let q = pow10(p.len());
        assert(x * 10 + digit_value(s.last()) < 10 * q) by (nonlinear_arith)
            requires
                x < q,
                digit_value(s.last()) <= 9,
        ;
    }
}

proof fn lemma_carry_step(d: nat, v: nat, p: nat)
    requires
        p > 0,
    ensures
        (120 * d + (120 * v) / p) / 10 == (120 * (d * p + v)) / (10 * p),
{
    lemma_hoist_over_denominator((120 * v) as int, (120 * d) as int, p);
    assert((120 * v) + (120 * d) * p == 120 * (d * p + v)) by (nonlinear_arith);
    lemma_div_denominator((120 * (d * p + v)) as int, p as int, 10);
    assert(p * 10 == 10 * p);
}

/// `floor(120 * 0.<digits>)` for the digits `v[from..to]`, carried from the
/// last digit to the first.
fn fraction_120(v: &Vec<char>, from: usize, to: usize) -> (r: u64)
    requires
        from <= to <= v@.len(),
        forall|j: int| from <= j < to ==> is_digit(#[trigger] v@[j]),
    ensures
        r as nat == (120 * digits_value(v@.subrange(from as int, to as int))) / pow10(
            (to - from) as nat,
        ),
{
    let mut carry: u64 = 0;
    let mut j: usize = to;
    proof {
        assert(v@.subrange(to as int, to as int).len() == 0);
        assert(pow10(0) == 1);
    }
    while j > from
        invariant
            from <= j <= to <= v@.len(),
            forall|k: int| from <= k < to ==> is_digit(#[trigger] v@[k]),
            carry < 120,
            carry as nat == (120 * digits_value(v@.subrange(j as int, to as int))) / pow10(
                (to - j) as nat,
            ),
        decreases j - from,
    {
        let d = (v[j - 1] as u32 - '0' as u32) as u64;
        proof {
            let s = v@.subrange(j - 1, to as int);
            assert(s.drop_first() =~= v@.subrange(j as int, to as int));
            assert(s[0] == v@[j - 1]);
            assert(is_digit(v@[j - 1]));
            lemma_digits_value_front(s);
            let n = (to - j) as nat;
            lemma_pow10_positive(n);
            assert(pow10(n + 1) == 10 * pow10(n));
            assert((to - (j - 1)) as nat == n + 1);
            lemma_carry_step(d as nat, digits_value(s.drop_first()), pow10(n));
        }
        carry = (120 * d + carry) / 10;
        j = j - 1;
    }
    carry
}

/// The decimal-hours reading of `v`: `None` where `v` has another shape,
/// `Some(None)` where the span is too long, else `Some(Some(seconds))`.
fn decimal_hours(v: &Vec<char>) -> (r: Option<Option<i64>>)
    ensures
        r is None <==> decimal_minutes(v@) is None,
        r matches Some(x) ==> (x is Some <==> decimal_minutes(v@)->0 * 60 <= MAX_SPAN_SECS),
        r matches Some(Some(secs)) ==> secs as int == decimal_minutes(v@)->0 * 60,
{
    let ghost t = v@;
    proof {
        lemma_digit_run_bound(t, 0);
    }
    let a = count_digits(v, 0);
    if a == 0 {
        return None;
    }
    let has_frac = a < v.len() && v[a] == '.';
    let b: usize = if has_frac {
        proof {
            lemma_digit_run_bound(t, a + 1);
        }
        count_digits(v, a + 1)
    } else {
        0
    };
    if has_frac && b == 0 {
        return None;
    }
    let end = if has_frac { a + 1 + b } else { a };
    let j = end + count_spaces(v, end);
    if !(j < v.len() && v.len() - j == 1 && is_ci(v[j], 'h')) {
        return None;
    }
    let cap: u64 = (MAX_SPAN_SECS as u64) / 3600 + 1;
    let whole = match digits_capped(v, 0, a, cap) {
        Some(w) => w,
        None => {
            proof {
                let w = digits_value(t.subrange(0, a as int));
                let f = if has_frac { digits_value(t.subrange(a + 1, a + 1 + b)) } else { 0 };
                lemma_pow10_positive(b as nat);
                let x = (120 * f) / pow10(b as nat);
                assert((120 * w + x + 1) / 2 * 60 > MAX_SPAN_SECS) by (nonlinear_arith)
                    requires
                        w > cap,
                        x >= 0,
                        cap == MAX_SPAN_SECS / 3600 + 1,
                ;
            }
            return Some(None);
        },
    };
    let frac: u64 = if has_frac {
        fraction_120(v, a + 1, a + 1 + b)
    } else {
        proof {
            assert(pow10(0) == 1);
        }
        0
    };
    proof {
        if has_frac {
            lemma_pow10_positive(b as nat);
            let fs = t.subrange(a + 1, a + 1 + b);
            assert forall|i: int| 0 <= i < fs.len() implies is_digit(#[trigger] fs[i]) by {
                assert(fs[i] == t[a + 1 + i]);
            }
            lemma_digits_value_below_pow(fs);
            assert(frac < 120) by (nonlinear_arith)
                requires
                    frac == (120 * digits_value(t.subrange(a + 1, a + 1 + b))) / pow10(b as nat),
                    digits_value(t.subrange(a + 1, a + 1 + b)) < pow10(b as nat),
            {
            }
        }
    }
    let minutes: u64 = (120 * whole + frac + 1) / 2;
    if minutes > (MAX_SPAN_SECS as u64) / 60 {
        return Some(None);
    }
    Some(Some((minutes * 60) as i64))
}

/// The compact reading of `v`: `None` where `v` has another shape,
/// `Some(None)` where it reads as zero or as too long a span, else
/// `Some(Some(seconds))`.
fn compact_hours_minutes(v: &Vec<char>) -> (r: Option<Option<i64>>)
    ensures
        r is None <==> compact_parts(v@) is None,
        r matches Some(x) ==> (x is Some <==> ({
            let (h, m) = compact_parts(v@)->0;
            (h > 0 || m > 0) && h * 3600 + m * 60 <= MAX_SPAN_SECS
        })),
        r matches Some(Some(secs)) ==> ({
            let (h, m) = compact_parts(v@)->0;
            secs as int == h * 3600 + m * 60
        }),
{
    let ghost t = v@;
    proof {
        lemma_digit_run_bound(t, 0);
    }
    let len = v.len();
    let a = count_digits(v, 0);
    let na = count_spaces(v, a);
    assert(a + na <= v@.len());
    let sa = a + na;
    let has_h = a > 0 && sa < len && is_ci(v[sa], 'h');
    let p = if has_h { sa + 1 } else { 0 };
    let q = p + count_spaces(v, p);
    proof {
        lemma_digit_run_bound(t, q as int);
    }
    let b = count_digits(v, q);
    assert(q + b <= v@.len());
    let e = q + b;
    let sb = e + count_spaces(v, e);
    let has_m = b > 0 && sb < len && len - sb == 1 && is_ci(v[sb], 'm');
    if !has_m && q != len {
        return None;
    }
    let hours: u64 = if has_h {
        match digits_capped(v, 0, a, (MAX_SPAN_SECS as u64) / 3600) {
            Some(h) => h,
            None => {
                return Some(None);
            },
        }
    } else {
        0
    };
    let minutes: u64 = if has_m {
        match digits_capped(v, q, e, (MAX_SPAN_SECS as u64) / 60) {
            Some(m) => m,
            None => {
                return Some(None);
            },
        }
    } else {
        0
    };
    if hours == 0 && minutes == 0 {
        return Some(None);
    }
    let total: u64 = hours * 3600 + minutes * 60;
    if total > MAX_SPAN_SECS as u64 {
        return Some(None);
    }
    Some(Some(total as i64))
}

/// Reads the duration in `s` (surrounding whitespace ignored), given what the
/// general duration grammar made of the trimmed text (`human`): the
/// decimal-hours form first, then `human`, then the compact form. Spans are
/// whole seconds, the unit of every instant in this library: the nanoseconds
/// of `human` are dropped, so a sub-second reading gives a zero span.
pub fn parse_duration_with(s: &str, human: Option<(u64, u32)>) -> (r: Result<Span, MeterError>)
    ensures
        duration_result(trim_ws(s@), human, r),
{
    let t = trimmed(s);
    let v = chars_of(t);
    match decimal_hours(&v) {
        Some(Some(secs)) => {
            return Ok(Span::seconds(secs));
        },
        Some(None) => {
            return Err(MeterError::InvalidDurationFormat(t.to_owned()));
        },
        None => {},
    }
    match human {
        Some((secs, nanos)) => {
            if secs < MAX_SPAN_SECS as u64 || (secs == MAX_SPAN_SECS as u64 && nanos <= MAX_SPAN_NANOS) {
                return Ok(Span::seconds(secs as i64));
            }
            return Err(MeterError::InvalidDurationFormat(t.to_owned()));
        },
        None => {},
    }
    match compact_hours_minutes(&v) {
        Some(Some(secs)) => Ok(Span::seconds(secs)),
        _ => Err(MeterError::InvalidDurationFormat(t.to_owned())),
    }
}

/// Reads a duration: hours with an optional decimal fraction, rounded to the
/// nearest minute; then humantime's general grammar ("90m", "1h 30m"), for
/// texts of at most `HUMAN_DIGIT_LIMIT` digits; then the compact form
/// ("1h30m", "45m", "2h"). Surrounding whitespace is ignored. The result is
/// in whole seconds: a sub-second part from the general grammar is dropped.
pub fn parse_duration(s: &str) -> (r: Result<Span, MeterError>)
    ensures
        duration_result(trim_ws(s@), human_reading(trim_ws(s@)), r),
{
    let t = trimmed(s);
    let human = if count_all_digits(&chars_of(t)) <= HUMAN_DIGIT_LIMIT {
        humantime_duration(t)
    } else {
        None
    };
    parse_duration_with(s, human)
}

/// Every duration that is read is non-negative and at most `MAX_SPAN_SECS`.
pub proof fn lemma_duration_in_range(t: Seq<char>, human: Option<(u64, u32)>)
    ensures
        duration_spec(t, human) matches Some(d) ==> 0 <= d <= MAX_SPAN_SECS,
{
}

} // verus!
