//! Text readouts of the HUD: the mission clock, countdowns to the apsides, and zero-padded
//! decimal numbers.
use vstd::prelude::*;

verus! {

/// Seconds in a minute, an hour, a day and a (365-day) year.
pub const SECONDS_PER_MINUTE: u64 = 60;

pub const SECONDS_PER_HOUR: u64 = 3_600;

pub const SECONDS_PER_DAY: u64 = 86_400;

pub const SECONDS_PER_YEAR: u64 = 31_536_000;

/// A duration split into years of 365 days, days, hours, minutes and seconds.
#[derive(Clone, Copy, Debug, PartialEq, Eq, Structural)]
pub struct ElapsedTime {
    pub years: u64,
    pub days: u64,
    pub hours: u64,
    pub minutes: u64,
    pub seconds: u64,
}

/// Splits `total_seconds` into years, days (below 365), hours (below 24), minutes and seconds
/// (below 60), as shown by the mission clock.
pub fn elapsed_time(total_seconds: u64) -> (r: ElapsedTime)
    ensures
        r.seconds < 60,
        r.minutes < 60,
        r.hours < 24,
        r.days < 365,
        r.years * SECONDS_PER_YEAR + r.days * SECONDS_PER_DAY + r.hours * SECONDS_PER_HOUR
            + r.minutes * SECONDS_PER_MINUTE + r.seconds == total_seconds,
{
    let s = total_seconds;
    let total_minutes = s / 60;
    let total_hours = s / 60 / 60;
    let total_days = s / 60 / 60 / 24;
    let r = ElapsedTime {
        years: s / 60 / 60 / 24 / 365,
        days: s / 60 / 60 / 24 % 365,
        hours: s / 60 / 60 % 24,
        minutes: s / 60 % 60,
        seconds: s % 60,
    };
    assert(s == 60 * total_minutes + r.seconds);
    assert(total_minutes == 60 * total_hours + r.minutes);
    assert(total_hours == 24 * total_days + r.hours);
    assert(total_days == 365 * r.years + r.days);
    r
}

/// A duration split into hours, minutes and seconds (below 60), as shown by a countdown.
#[derive(Clone, Copy, Debug, PartialEq, Eq, Structural)]
pub struct Countdown {
    pub hours: u64,
    pub minutes: u64,
    pub seconds: u64,
}

/// Splits `total_seconds` into whole hours, minutes and seconds.
pub fn countdown(total_seconds: u64) -> (r: Countdown)
    ensures
        r.seconds < 60,
        r.minutes < 60,
        r.hours * SECONDS_PER_HOUR + r.minutes * SECONDS_PER_MINUTE + r.seconds == total_seconds,
{
    let s = total_seconds;
    let total_minutes = s / 60;
    let r = Countdown { hours: s / 60 / 60, minutes: s / 60 % 60, seconds: s % 60 };
    assert(s == 60 * total_minutes + r.seconds);
    assert(total_minutes == 60 * r.hours + r.minutes);
    r
}

/// The decimal digit characters.
pub const DIGITS: [char; 10] = ['0', '1', '2', '3', '4', '5', '6', '7', '8', '9'];

/// The character of the decimal digit `d`.
pub open spec fn digit_char(d: nat) -> char {
    seq!['0', '1', '2', '3', '4', '5', '6', '7', '8', '9'][d as int]
}

/// The decimal representation of `n`, most significant digit first, without leading zeros.
pub open spec fn decimal_digits(n: nat) -> Seq<char>
    decreases n,
{
    if n < 10 {
        seq![digit_char(n)]
    } else {
        decimal_digits(n / 10).push(digit_char(n % 10))
    }
}

/// The decimal representation of `n`, preceded by as many zeros as it takes to reach `width`
/// characters.
pub open spec fn zero_padded_digits(n: nat, width: nat) -> Seq<char> {
    let digits = decimal_digits(n);
    if digits.len() < width {
        Seq::new((width - digits.len()) as nat, |_i: int| '0') + digits
    } else {
        digits
    }
}

/// `String::push` from std: appends the character `c`.
#[verifier::external_body]
fn push_char(s: &mut String, c: char)
    ensures
        final(s)@ == old(s)@.push(c),
{
    s.push(c);
}

/// Formats `n` in decimal, padded with leading zeros to at least `width` characters.
pub fn zero_padded(n: u64, width: usize) -> (r: String)
    ensures
        r@ == zero_padded_digits(n as nat, width as nat),
{
    proof {
        assert(DIGITS@ =~= seq!['0', '1', '2', '3', '4', '5', '6', '7', '8', '9']);
    }
    // Digits of `n`, least significant first.
    let mut digits: Vec<char> = Vec::new();
    let mut rest: u64 = n;
    loop
        invariant_except_break
            decimal_digits(n as nat) == decimal_digits(rest as nat) + digits@.reverse(),
        invariant
            DIGITS@ == seq!['0', '1', '2', '3', '4', '5', '6', '7', '8', '9'],
        ensures
            decimal_digits(n as nat) == digits@.reverse(),
        decreases rest,
    {
        let ghost before = digits@;
        if rest < 10 {
            digits.push(DIGITS[rest as usize]);
            proof {
                assert(digits@.reverse() =~= seq![digit_char(rest as nat)] + before.reverse());
            }
            break;
        }
        digits.push(DIGITS[(rest % 10) as usize]);
        proof {
            assert(digits@.reverse() =~= seq![digit_char((rest % 10) as nat)] + before.reverse());
            assert(decimal_digits(rest as nat) == decimal_digits((rest / 10) as nat).push(
                digit_char((rest % 10) as nat),
            ));
            assert(decimal_digits((rest / 10) as nat).push(digit_char((rest % 10) as nat))
                =~= decimal_digits((rest / 10) as nat) + seq![digit_char((rest % 10) as nat)]);
        }
        rest = rest / 10;
    }
    let len = digits.len();
    let pad: usize = if len < width {
        width - len
    } else {
        0
    };
    let mut text = String::new();
    let mut p: usize = 0;
    while p < pad
        invariant
            p <= pad,
            text@ =~= Seq::new(p as nat, |_i: int| '0'),
        decreases pad - p,
    {
        push_char(&mut text, '0');
        p += 1;
    }
    let ghost zeros = text@;
    let mut k: usize = 0;
    while k < len
        invariant
            k <= len,
            len == digits@.len(),
            text@ =~= zeros + digits@.reverse().take(k as int),
        decreases len - k,
    {
        push_char(&mut text, digits[len - 1 - k]);
        proof {
            assert(digits@.reverse().take(k + 1) =~= digits@.reverse().take(k as int).push(
                digits@[len - 1 - k],
            ));
        }
        k += 1;
    }
    proof {
        assert(digits@.reverse().take(len as int) =~= digits@.reverse());
        if len < width {
            assert(zeros =~= Seq::new((width - decimal_digits(n as nat).len()) as nat, |_i: int| '0'));
        } else {
            assert(zeros =~= Seq::<char>::empty());
        }
    }
    text
}

} // verus!
