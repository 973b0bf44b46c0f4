//! Round timing: the soft search deadline, the epoch-reset condition and the
//! `MM:SS` rendering of a duration.

use vstd::prelude::*;
use vstd::string::StringExecFns;

verus! {

/// Nominal length of a mining round, in seconds.
pub const ROUND_LENGTH: i64 = 60;

/// Safety margin, in seconds, subtracted from the epoch boundary before a
/// reset is considered due.
pub const RESET_BUFFER: i64 = 5;

/// Relies on `ore_api::consts::EPOCH_DURATION`, the epoch length in seconds,
/// which that crate defines as five minutes.
#[verifier::external_body]
fn epoch_duration() -> (r: i64)
    ensures
        r == 300,
{
    ore_api::consts::EPOCH_DURATION
}

/// The mathematical deadline: `max(0, last_hash_at + ROUND_LENGTH - buffer - now)`.
pub open spec fn cutoff_spec(last_hash_at: int, buffer_time: int, now: int) -> int {
    let d = last_hash_at + ROUND_LENGTH - buffer_time - now;
    if d < 0 { 0 } else { d }
}

/// Seconds of search budget left in the round that started hashing at
/// `last_hash_at`, given a `buffer_time` reserve and the current time `now`.
/// The result is never negative; it is capped at `u64::MAX`.
pub fn get_cutoff(last_hash_at: i64, buffer_time: u64, now: i64) -> (r: u64)
    ensures
        r as int == if cutoff_spec(last_hash_at as int, buffer_time as int, now as int)
            > u64::MAX { u64::MAX as int } else { cutoff_spec(
            last_hash_at as int,
            buffer_time as int,
            now as int,
        ) },
{
    let d: i128 = last_hash_at as i128 + ROUND_LENGTH as i128 - buffer_time as i128 - now as i128;
    if d < 0 {
        0
    } else if d > u64::MAX as i128 {
        u64::MAX
    } else {
        d as u64
    }
}

/// Whether the epoch that was last reset at `last_reset_at` is over at `now`.
pub open spec fn reset_due_spec(last_reset_at: int, now: int) -> bool {
    last_reset_at + 300 - RESET_BUFFER <= now
}

/// True when the current epoch, last reset at `last_reset_at`, has run its
/// full duration (less the safety buffer) by time `now`.
pub fn should_reset(last_reset_at: i64, now: i64) -> (r: bool)
    ensures
        r == reset_due_spec(last_reset_at as int, now as int),
{
    let epoch = epoch_duration();
    last_reset_at as i128 + epoch as i128 - RESET_BUFFER as i128 <= now as i128
}

/// The character of decimal digit `d`.
pub open spec fn digit_char(d: nat) -> char {
    if d == 0 {
        '0'
    } else if d == 1 {
        '1'
    } else if d == 2 {
        '2'
    } else if d == 3 {
        '3'
    } else if d == 4 {
        '4'
    } else if d == 5 {
        '5'
    } else if d == 6 {
        '6'
    } else if d == 7 {
        '7'
    } else if d == 8 {
        '8'
    } else {
        '9'
    }
}

/// Decimal rendering of `n`, without leading zeros ("0" for zero).
pub open spec fn decimal(n: nat) -> Seq<char>
    decreases n,
{
    if n < 10 {
        seq![digit_char(n)]
    } else {
        decimal(n / 10).push(digit_char(n % 10))
    }
}

/// Decimal rendering of `n`, left-padded with zeros to at least two characters.
pub open spec fn two_digit(n: nat) -> Seq<char> {
    if n < 10 {
        seq!['0', digit_char(n)]
    } else {
        decimal(n)
    }
}

/// The `MM:SS` rendering of a number of seconds.
pub open spec fn duration_text(seconds: nat) -> Seq<char> {
    two_digit(seconds / 60) + seq![':'] + two_digit(seconds % 60)
}

fn digit_str(d: u32) -> (r: &'static str)
    requires
        d < 10,
    ensures
        r@ == seq![digit_char(d as nat)],
{
    proof {
        reveal_strlit("0");
        reveal_strlit("1");
        reveal_strlit("2");
        reveal_strlit("3");
        reveal_strlit("4");
        reveal_strlit("5");
        reveal_strlit("6");
        reveal_strlit("7");
        reveal_strlit("8");
        reveal_strlit("9");
    }
    if d == 0 {
        "0"
    } else if d == 1 {
        "1"
    } else if d == 2 {
        "2"
    } else if d == 3 {
        "3"
    } else if d == 4 {
        "4"
    } else if d == 5 {
        "5"
    } else if d == 6 {
        "6"
    } else if d == 7 {
        "7"
    } else if d == 8 {
        "8"
    } else {
        "9"
    }
}

/// Appends the decimal digits of `n` to `out`.
fn push_decimal(out: &mut String, n: u32)
    ensures
        final(out)@ == old(out)@ + decimal(n as nat),
    decreases n,
{
    if n < 10 {
        out.append(digit_str(n));
    } else {
        push_decimal(out, n / 10);
        out.append(digit_str(n % 10));
        proof {
            assert(decimal(n as nat) == decimal((n / 10) as nat).push(digit_char((n % 10) as nat)));
        }
    }
}

/// Appends `n` left-padded with zeros to two digits.
fn push_two_digit(out: &mut String, n: u32)
    ensures
        final(out)@ == old(out)@ + two_digit(n as nat),
{
    if n < 10 {
        proof {
            reveal_strlit("0");
        }
        out.append("0");
        out.append(digit_str(n));
        assert(out@ =~= old(out)@ + two_digit(n as nat));
    } else {
        push_decimal(out, n);
    }
}

/// Renders `seconds` as `MM:SS`: minutes and seconds, each at least two
/// digits wide.
pub fn format_duration(seconds: u32) -> (r: String)
    ensures
        r@ == duration_text(seconds as nat),
{
    let mut out = String::new();
    push_two_digit(&mut out, seconds / 60);
    proof {
        reveal_strlit(":");
    }
    out.append(":");
    push_two_digit(&mut out, seconds % 60);
    assert(out@ =~= duration_text(seconds as nat));
    out
}

} // verus!
