//! Civil timestamps and their ISO-8601 rendering.
//!
//! A statistics snapshot carries the instant it was read, as a civil
//! date and time with a fixed offset from UTC. Metric records render that
//! instant as an ISO-8601 string with millisecond precision and a numeric
//! offset, e.g. `2019-01-07T23:15:48.677+00:00`.

use vstd::prelude::*;

verus! {

/// A civil date and time with a fixed offset from UTC, in plain fields.
///
/// `nanosecond` holds the sub-second part of the instant; rendering keeps
/// only whole milliseconds. `offset_minutes` is the local offset east of
/// UTC, negative for offsets west of it.
#[derive(Clone, Copy, PartialEq, Eq, Debug)]
pub struct Timestamp {
    pub year: u16,
    pub month: u8,
    pub day: u8,
    pub hour: u8,
    pub minute: u8,
    pub second: u8,
    pub nanosecond: u32,
    pub offset_minutes: i16,
}

impl Timestamp {
    /// The fields describe a renderable instant: a four-digit year, calendar
    /// month and day, a time of day, a sub-second part below one second, and
    /// an offset of less than a day in either direction.
    pub open spec fn wf(self) -> bool {
        &&& self.year <= 9999
        &&& 1 <= self.month <= 12
        &&& 1 <= self.day <= 31
        &&& self.hour <= 23
        &&& self.minute <= 59
        &&& self.second <= 59
        &&& self.nanosecond < 1_000_000_000
        &&& -1439 <= self.offset_minutes <= 1439
    }
}

/// The decimal digit character for `d`, meaningful for `0 <= d <= 9`.
pub open spec fn spec_digit(d: int) -> char {
    if d == 0 {
        '0'
    } else if d == 1 {
        '1'
    } else if d == 2 {
        '2'
    } else if d == 3 {
        '3'
    } else if d == 4 {
        '4'
    } else if d == 5 {
        '5'
    } else if d == 6 {
        '6'
    } else if d == 7 {
        '7'
    } else if d == 8 {
        '8'
    } else {
        '9'
    }
}

/// `n` in decimal, zero-padded to two digits.
pub open spec fn spec_pad2(n: int) -> Seq<char> {
    seq![spec_digit(n / 10), spec_digit(n % 10)]
}

/// `n` in decimal, zero-padded to three digits.
pub open spec fn spec_pad3(n: int) -> Seq<char> {
    seq![spec_digit(n / 100), spec_digit((n / 10) % 10), spec_digit(n % 10)]
}

/// `n` in decimal, zero-padded to four digits.
pub open spec fn spec_pad4(n: int) -> Seq<char> {
    seq![spec_digit(n / 1000), spec_digit((n / 100) % 10), spec_digit((n / 10) % 10), spec_digit(n % 10)]
}

/// A numeric UTC offset, as a sign and zero-padded hours and minutes,
/// e.g. `+00:00` or `-05:30`. Zero renders with a `+` sign.
pub open spec fn spec_offset_suffix(minutes: int) -> Seq<char> {
    let sign = if minutes < 0 { seq!['-'] } else { seq!['+'] };
    let m = if minutes < 0 { -minutes } else { minutes };
    sign + spec_pad2(m / 60) + seq![':'] + spec_pad2(m % 60)
}

/// The ISO-8601 rendering of `t` with millisecond precision and a numeric
/// UTC offset: `YYYY-MM-DDThh:mm:ss.mmm±HH:MM`. The sub-second part is
/// truncated, not rounded, to whole milliseconds.
pub open spec fn spec_format_timestamp(t: Timestamp) -> Seq<char> {
    spec_pad4(t.year as int) + seq!['-'] + spec_pad2(t.month as int) + seq!['-'] + spec_pad2(
        t.day as int,
    ) + seq!['T'] + spec_pad2(t.hour as int) + seq![':'] + spec_pad2(t.minute as int) + seq![':']
        + spec_pad2(t.second as int) + seq!['.'] + spec_pad3(t.nanosecond as int / 1_000_000)
        + spec_offset_suffix(t.offset_minutes as int)
}

/// The one-character string for the decimal digit `d`.
fn digit_str(d: u32) -> (r: &'static str)
    requires
        d < 10,
    ensures
        r@ == seq![spec_digit(d as int)],
{
    proof {
        reveal_strlit("0");
        reveal_strlit("1");
        reveal_strlit("2");
        reveal_strlit("3");
        reveal_strlit("4");
        reveal_strlit("5");
        reveal_strlit("6");
        reveal_strlit("7");
        reveal_strlit("8");
        reveal_strlit("9");
    }
    let r = match d {
        0 => "0",
        1 => "1",
        2 => "2",
        3 => "3",
        4 => "4",
        5 => "5",
        6 => "6",
        7 => "7",
        8 => "8",
        _ => "9",
    };
    proof {
        assert(r@ =~= seq![spec_digit(d as int)]);
    }
    r
}

/// Appends `n` to `out`, zero-padded to two digits.
fn push_pad2(out: &mut String, n: u32)
    requires
        n < 100,
    ensures
        final(out)@ == old(out)@ + spec_pad2(n as int),
{
    out.append(digit_str(n / 10));
    out.append(digit_str(n % 10));
    proof {
        assert(final(out)@ =~= old(out)@ + spec_pad2(n as int));
    }
}

/// Appends `n` to `out`, zero-padded to three digits.
fn push_pad3(out: &mut String, n: u32)
    requires
        n < 1000,
    ensures
        final(out)@ == old(out)@ + spec_pad3(n as int),
{
    out.append(digit_str(n / 100));
    out.append(digit_str((n / 10) % 10));
    out.append(digit_str(n % 10));
    proof {
        assert(final(out)@ =~= old(out)@ + spec_pad3(n as int));
    }
}

/// Appends `n` to `out`, zero-padded to four digits.
fn push_pad4(out: &mut String, n: u32)
    requires
        n < 10000,
    ensures
        final(out)@ == old(out)@ + spec_pad4(n as int),
{
    out.append(digit_str(n / 1000));
    out.append(digit_str((n / 100) % 10));
    out.append(digit_str((n / 10) % 10));
    out.append(digit_str(n % 10));
    proof {
        assert(final(out)@ =~= old(out)@ + spec_pad4(n as int));
    }
}

/// Renders `t` as an ISO-8601 string with millisecond precision and a
/// numeric UTC offset.
pub fn format_timestamp(t: &Timestamp) -> (r: String)
    requires
        t.wf(),
    ensures
        r@ == spec_format_timestamp(*t),
{
    proof {
        reveal_strlit("-");
        reveal_strlit("T");
        reveal_strlit(":");
        reveal_strlit(".");
        reveal_strlit("+");
    }
    let mut out = String::new();
    push_pad4(&mut out, t.year as u32);
    out.append("-");
    push_pad2(&mut out, t.month as u32);
    out.append("-");
    push_pad2(&mut out, t.day as u32);
    out.append("T");
    push_pad2(&mut out, t.hour as u32);
    out.append(":");
    push_pad2(&mut out, t.minute as u32);
    out.append(":");
    push_pad2(&mut out, t.second as u32);
    out.append(".");
    push_pad3(&mut out, t.nanosecond / 1_000_000);
    let abs_minutes: u32 = if t.offset_minutes < 0 {
        out.append("-");
        (-(t.offset_minutes as i32)) as u32
    } else {
        out.append("+");
        t.offset_minutes as u32
    };
    push_pad2(&mut out, abs_minutes / 60);
    out.append(":");
    push_pad2(&mut out, abs_minutes % 60);
    proof {
        assert(out@ =~= spec_format_timestamp(*t));
    }
    out
}

} // verus!
