//! The writing-session timer: a deadline on a monotonic millisecond clock,
//! the `m:ss` countdown shown in the top bar, and the flash once it has run
//! out.

use vstd::prelude::*;
use crate::store::{decimal, decimal_chars, digit_char};
use crate::text::{string_of_span, string_push};

verus! {

/// Whole seconds left, rounded up: a fresh 20-minute session reads 20:00.
pub open spec fn seconds_left(ms: nat) -> nat {
    ((ms + 999) / 1000) as nat
}

/// `m:ss` for `ms` milliseconds left: minutes in decimal, then a colon and
/// the seconds in two digits.
pub open spec fn countdown(ms: nat) -> Seq<char> {
    let s = seconds_left(ms);
    decimal(s / 60) + seq![':', digit_char((s % 60) / 10), digit_char(s % 10)]
}

/// The countdown text for `ms` milliseconds left (see [`countdown`]).
pub fn countdown_text(ms: u64) -> (r: String)
    ensures
        r@ == countdown(ms as nat),
{
    let secs: u64 = ms / 1000 + if ms % 1000 > 0 {
        1
    } else {
        0
    };
    assert(secs == seconds_left(ms as nat));
    let minutes = decimal_chars(secs / 60);
    let mut r = string_of_span(&minutes, 0, minutes.len());
    assert(minutes@.subrange(0, minutes@.len() as int) =~= minutes@);
    let rest = secs % 60;
    let tens = decimal_chars(rest / 10);
    let ones = decimal_chars(secs % 10);
    string_push(&mut r, ':');
    string_push(&mut r, tens[0]);
    string_push(&mut r, ones[0]);
    assert(r@ =~= countdown(ms as nat));
    r
}

/// Milliseconds left until `deadline` at time `now` (none once past it).
pub open spec fn left_at(deadline: u64, now: u64) -> nat {
    if now < deadline {
        (deadline - now) as nat
    } else {
        0
    }
}

/// The deadline of a session of `minutes` started at `now`, or `None` when
/// it lies past the clock's range.
pub fn session_deadline(now: u64, minutes: u64) -> (r: Option<u64>)
    ensures
        r matches Some(d) ==> d == now + minutes * 60000,
        r is None <==> now + minutes * 60000 > u64::MAX,
{
    if minutes > (u64::MAX - now) / 60000 {
        assert(minutes * 60000 > u64::MAX - now) by (nonlinear_arith)
            requires
                minutes > (u64::MAX - now) / 60000,
        ;
        None
    } else {
        assert(minutes * 60000 <= u64::MAX - now) by (nonlinear_arith)
            requires
                minutes <= (u64::MAX - now) / 60000,
        ;
        Some(now + minutes * 60000)
    }
}

/// The countdown of a session ending at `deadline`, read at `now`.
pub fn countdown_at(deadline: u64, now: u64) -> (r: String)
    ensures
        r@ == countdown(left_at(deadline, now)),
{
    let left = if now < deadline {
        deadline - now
    } else {
        0
    };
    countdown_text(left)
}

/// Once a session has run out, the top bar reverses every other second.
pub open spec fn flashing(deadline: u64, now: u64) -> bool {
    now >= deadline && ((now - deadline) / 1000) % 2 == 0
}

/// Whether the top bar is reversed at `now` (see [`flashing`]).
pub fn flash_at(deadline: u64, now: u64) -> (b: bool)
    ensures
        b == flashing(deadline, now),
{
    now >= deadline && ((now - deadline) / 1000) % 2 == 0
}

/// A session read at its start shows its full length: `{minutes}:00`.
pub proof fn law_fresh_session_reads_full_minutes(minutes: nat)
    ensures
        countdown(minutes * 60000) == decimal(minutes) + seq![':', '0', '0'],
{
    let ms = minutes * 60000;
    assert((ms + 999) / 1000 == minutes * 60) by (nonlinear_arith)
        requires
            ms == minutes * 60000,
    ;
    let s = minutes * 60;
    assert(s / 60 == minutes && s % 60 == 0) by (nonlinear_arith)
        requires
            s == minutes * 60,
    ;
}

/// The countdown rounds up: it shows the least number of whole seconds
/// that covers the time left, so any part of a second still counts.
pub proof fn law_seconds_round_up(ms: nat)
    ensures
        seconds_left(ms) * 1000 >= ms,
        ms > 0 ==> (seconds_left(ms) - 1) * 1000 < ms,
        ms == 0 ==> seconds_left(ms) == 0,
{
    let s = seconds_left(ms);
    assert(s * 1000 >= ms && (ms > 0 ==> (s - 1) * 1000 < ms)) by (nonlinear_arith)
        requires
            s == (ms + 999) / 1000,
    ;
}

} // verus!
