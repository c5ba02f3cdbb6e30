//! Duration and count formatting for the panes, so a value reads the same
//! wherever it appears.
use vstd::prelude::*;

use crate::text::{decimal, push_char, push_decimal, push_decimal_wide, push_str};

verus! {

/// A number below one hundred as exactly two digits, zero-padded.
pub open spec fn two_digits(n: nat) -> Seq<char> {
    if n < 10 {
        seq!['0'] + decimal(n)
    } else {
        decimal(n)
    }
}

/// A length of time as whole seconds and the nanoseconds past them, as
/// `std::time::Duration` holds it.
#[derive(Debug, Clone, Copy, PartialEq, Eq)]
pub struct Elapsed {
    pub secs: u64,
    /// Below one billion.
    pub nanos: u32,
}

impl Elapsed {
    /// The nanoseconds are a fraction of a second.
    pub open spec fn wf(&self) -> bool {
        self.nanos < 1_000_000_000
    }
}

/// `n / d` rounded to the nearest whole number, an exact half to the even
/// neighbour.
pub open spec fn round_half_even(n: nat, d: nat) -> nat {
    let q = n / d;
    let r = n % d;
    if 2 * r > d {
        q + 1
    } else if 2 * r < d {
        q
    } else if q % 2 == 0 {
        q
    } else {
        q + 1
    }
}

fn round_half_even_exec(n: u128, d: u128) -> (res: u128)
    requires
        0 < d <= 1_000_000_000,
        n < 0x1_0000_0000_0000_0000_0000_0000,
    ensures
        res == round_half_even(n as nat, d as nat),
        res <= n / d + 1,
{
    let q = n / d;
    let r = n % d;
    proof {
        assert(q <= n) by (nonlinear_arith)
            requires
                q == n / d,
                d > 0,
        ;
    }
    if 2 * r > d {
        q + 1
    } else if 2 * r < d {
        q
    } else if q % 2 == 0 {
        q
    } else {
        q + 1
    }
}

/// A duration of `secs` seconds and `nanos` nanoseconds at a precision that
/// suits its size: tenths of a millisecond below 10ms, whole milliseconds
/// below a second, hundredths of a second below a minute, and minutes and
/// zero-padded seconds beyond. Each rounding is to the nearest unit, an exact
/// half to the even neighbour.
pub open spec fn duration_text(secs: nat, nanos: nat) -> Seq<char> {
    let total = secs * 1_000_000_000 + nanos;
    if total < 10_000_000 {
        let tenths = round_half_even(total, 100_000);
        decimal(tenths / 10) + seq!['.'] + decimal(tenths % 10) + "ms"@
    } else if total < 1_000_000_000 {
        decimal(round_half_even(total, 1_000_000)) + "ms"@
    } else if total < 60_000_000_000 {
        let hundredths = round_half_even(total, 10_000_000);
        decimal(hundredths / 100) + seq!['.'] + two_digits(hundredths % 100) + "s"@
    } else {
        decimal(secs / 60) + "m "@ + two_digits(secs % 60) + "s"@
    }
}

fn push_two_digits(s: &mut String, n: u64)
    requires
        n < 100,
    ensures
        final(s)@ == old(s)@ + two_digits(n as nat),
{
    if n < 10 {
        push_char(s, '0');
    }
    push_decimal(s, n);
    assert(final(s)@ =~= old(s)@ + two_digits(n as nat));
}

/// Format a duration given as whole seconds and nanoseconds: `0.4ms`,
/// `38ms`, `1.24s`, `2m 05s`.
pub fn fmt_duration_parts(secs: u64, nanos: u32) -> (res: String)
    requires
        nanos < 1_000_000_000,
    ensures
        res@ == duration_text(secs as nat, nanos as nat),
{
    let total: u128 = secs as u128 * 1_000_000_000 + nanos as u128;
    let mut out = String::new();
    if total < 10_000_000 {
        let tenths = round_half_even_exec(total, 100_000) as u64;
        push_decimal(&mut out, tenths / 10);
        push_char(&mut out, '.');
        push_decimal(&mut out, tenths % 10);
        push_str(&mut out, "ms");
    } else if total < 1_000_000_000 {
        push_decimal(&mut out, round_half_even_exec(total, 1_000_000) as u64);
        push_str(&mut out, "ms");
    } else if total < 60_000_000_000 {
        let hundredths = round_half_even_exec(total, 10_000_000) as u64;
        push_decimal(&mut out, hundredths / 100);
        push_char(&mut out, '.');
        push_two_digits(&mut out, hundredths % 100);
        push_str(&mut out, "s");
    } else {
        push_decimal(&mut out, secs / 60);
        push_str(&mut out, "m ");
        push_two_digits(&mut out, secs % 60);
        push_str(&mut out, "s");
    }
    assert(out@ =~= duration_text(secs as nat, nanos as nat));
    out
}

/// Format a duration at a precision that suits its size: `0.4ms`, `38ms`,
/// `1.24s`, `2m 05s`.
pub fn fmt_duration(duration: Elapsed) -> (res: String)
    requires
        duration.wf(),
    ensures
        res@ == duration_text(duration.secs as nat, duration.nanos as nat),
{
    fmt_duration_parts(duration.secs, duration.nanos)
}

/// A duration of `secs` seconds and `nanos` nanoseconds in milliseconds with
/// one decimal, rounded to the nearest tenth, an exact half to the even
/// neighbour: `12.3ms`.
pub open spec fn millis_text(secs: nat, nanos: nat) -> Seq<char> {
    let tenths = round_half_even(secs * 1_000_000_000 + nanos, 100_000);
    decimal(tenths / 10) + seq!['.'] + decimal(tenths % 10) + "ms"@
}

/// Append a duration in milliseconds with one decimal.
pub(crate) fn push_millis(out: &mut String, secs: u64, nanos: u32)
    requires
        nanos < 1_000_000_000,
    ensures
        final(out)@ == old(out)@ + millis_text(secs as nat, nanos as nat),
{
    let total: u128 = secs as u128 * 1_000_000_000 + nanos as u128;
    let tenths: u128 = round_half_even_exec(total, 100_000);
    push_decimal_wide(out, tenths / 10);
    push_char(out, '.');
    push_decimal(out, (tenths % 10) as u64);
    push_str(out, "ms");
    assert(final(out)@ =~= old(out)@ + millis_text(secs as nat, nanos as nat));
}

/// `count` and the noun that agrees with it.
pub open spec fn plural_text(count: nat, singular: Seq<char>, plural: Seq<char>) -> Seq<char> {
    decimal(count) + seq![' '] + if count == 1 { singular } else { plural }
}

/// `count` and the noun that agrees with it: `1 row`, `3 rows`, `0 passes`.
pub fn plural(count: usize, singular: &str, plural_form: &str) -> (res: String)
    ensures
        res@ == plural_text(count as nat, singular@, plural_form@),
{
    let mut out = String::new();
    push_decimal(&mut out, count as u64);
    push_char(&mut out, ' ');
    if count == 1 {
        push_str(&mut out, singular);
    } else {
        push_str(&mut out, plural_form);
    }
    assert(out@ =~= plural_text(count as nat, singular@, plural_form@));
    out
}

} // verus!
