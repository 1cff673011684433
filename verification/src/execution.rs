//! The retry policy: how long a failed task waits before its next attempt,
//! and when it is given up.

use vstd::prelude::*;
use vstd::arithmetic::power::{pow, lemma_pow0, lemma_pow_increases, lemma_pow_positive};

pub mod scheduler;

verus! {

/// The number of tries after which a task is not executed again.
pub const MAX_RETRIES: usize = 20;

/// The longest wait between two attempts, in seconds.
pub const MAX_DELAY_SECONDS: u64 = 600;

/// The base of the wait, in seconds.
pub const DELAY_SECONDS: u64 = 2;

/// The seconds a task with `tries` tries waits after its last attempt: the
/// base raised to `tries`, capped at the longest wait.
pub open spec fn delay_spec(tries: nat) -> nat {
    if pow(DELAY_SECONDS as int, tries) > MAX_DELAY_SECONDS {
        MAX_DELAY_SECONDS as nat
    } else {
        pow(DELAY_SECONDS as int, tries) as nat
    }
}

/// The wait grows with the number of tries and never exceeds the longest
/// wait.
pub proof fn lemma_delay_monotonic(fewer: nat, more: nat)
    requires
        fewer <= more,
    ensures
        delay_spec(fewer) <= delay_spec(more) <= MAX_DELAY_SECONDS,
{
    lemma_pow_increases(DELAY_SECONDS as nat, fewer, more);
    lemma_pow_positive(DELAY_SECONDS as int, fewer);
    lemma_pow_positive(DELAY_SECONDS as int, more);
}

/// The seconds a task with `tries` tries waits after its last attempt.
#[verifier::when_used_as_spec(delay_of)]
pub fn delay(tries: u32) -> (seconds: u64)
    ensures
        seconds == delay_spec(tries as nat),
        seconds <= MAX_DELAY_SECONDS,
{
    let mut power: u64 = 1;
    let mut i: u32 = 0;
    proof {
        lemma_pow0(DELAY_SECONDS as int);
    }
    while i < tries && power <= MAX_DELAY_SECONDS
        invariant
            i <= tries,
            power == pow(DELAY_SECONDS as int, i as nat),
            power <= 2 * MAX_DELAY_SECONDS,
        decreases tries - i,
    {
        proof {
            reveal(pow);
        }
        power = power * DELAY_SECONDS;
        i = i + 1;
    }
    proof {
        lemma_pow_increases(DELAY_SECONDS as nat, i as nat, tries as nat);
    }
    if power > MAX_DELAY_SECONDS {
        MAX_DELAY_SECONDS
    } else {
        power
    }
}

/// [`delay`] in contracts.
pub open spec fn delay_of(tries: u32) -> u64 {
    delay_spec(tries as nat) as u64
}

/// The seconds a task waits, for a number of tries of any size.
pub fn backoff(tries: usize) -> (seconds: u64)
    ensures
        seconds == delay_spec(tries as nat),
{
    if tries > 64 {
        proof {
            lemma_pow_increases(DELAY_SECONDS as nat, 64, tries as nat);
            lemma_delay_monotonic(64, tries as nat);
        }
        let capped = delay(64);
        proof {
            lemma_pow_increases(DELAY_SECONDS as nat, 10, 64);
            assert(pow(2, 10) == 1024) by {
                reveal_with_fuel(pow, 11);
            }
        }
        capped
    } else {
        let small: u32 = tries as u32;
        delay(small)
    }
}

} // verus!
