//! How the site is asked: with pauses, and again where it is busy.

use crate::text;
use vstd::prelude::*;

verus! {

/// The root of the site's API.
pub const BASE: &'static str = "https://aoe4world.com/api/v0";

/// The root of the site.
pub const SITE: &'static str = "https://aoe4world.com";

/// The least time between two requests, in nanoseconds.
pub const MIN_REQUEST_INTERVAL: u64 = 1_200_000_000;

/// How often a request is made again.
pub const MAX_RETRIES: u32 = 3;

/// The address of a path below the API's root.
pub fn api_url(path: &str) -> (r: String)
    ensures
        r@ == BASE@ + path@,
{
    text::cat2(BASE, path)
}

/// The address of a path below the site's root.
pub fn site_url(path: &str) -> (r: String)
    ensures
        r@ == SITE@ + path@,
{
    text::cat2(SITE, path)
}

/// How long the next request waits, if the last one was made `elapsed` ago, in nanoseconds.
pub fn throttle_wait(elapsed: Option<u64>) -> (r: u64)
    ensures
        r == match elapsed {
            Some(e) => if e < MIN_REQUEST_INTERVAL {
                (MIN_REQUEST_INTERVAL - e) as u64
            } else {
                0
            },
            None => 0,
        },
{
    match elapsed {
        Some(e) => {
            if e < MIN_REQUEST_INTERVAL {
                MIN_REQUEST_INTERVAL - e
            } else {
                0
            }
        },
        None => 0,
    }
}

/// Two to the power of `n`.
pub open spec fn power_of_two(n: nat) -> nat
    decreases n,
{
    if n == 0 {
        1
    } else {
        2 * power_of_two((n - 1) as nat)
    }
}

/// How long a request waits before it is made again, in milliseconds: as long as the site says,
/// or else twice as long each time, up to a limit, and a little more.
pub open spec fn backoff(attempt: nat, retry_after: Option<u64>, jitter: nat) -> nat {
    match retry_after {
        Some(s) => if s * 1000 <= u64::MAX {
            (s * 1000) as nat
        } else {
            u64::MAX as nat
        },
        None => 2000 * power_of_two(
            if attempt < 4 {
                attempt
            } else {
                4
            },
        ) + jitter % 500,
    }
}

/// How long a request waits before it is made again, in milliseconds.
pub fn backoff_delay_ms(attempt: u32, retry_after_secs: Option<u64>, jitter_nanos: u32) -> (r: u64)
    ensures
        r == backoff(attempt as nat, retry_after_secs, jitter_nanos as nat),
{
    match retry_after_secs {
        Some(s) => match s.checked_mul(1000) {
            Some(ms) => ms,
            None => u64::MAX,
        },
        None => {
            let factor: u64 = if attempt == 0 {
                1
            } else if attempt == 1 {
                2
            } else if attempt == 2 {
                4
            } else if attempt == 3 {
                8
            } else {
                16
            };
            proof {
                reveal_with_fuel(power_of_two, 5);
            }
            2000 * factor + jitter_nanos as u64 % 500
        },
    }
}

/// Without a word from the site, the wait never gets shorter from one attempt to the next, but
/// for what is added to it, and stays under thirty-two and a half seconds.
pub proof fn lemma_backoff_grows(attempt: nat, jitter: nat)
    ensures
        backoff(attempt, None, 0) <= backoff(attempt + 1, None, 0),
        backoff(attempt, None, jitter) < 32_500,
{
    reveal_with_fuel(power_of_two, 5);
}

/// The number of seconds that the site asks to wait.
pub fn parse_retry_after(header: &str) -> (r: Option<u64>)
    ensures
        match r {
            Some(v) => text::unsigned(text::trimmed(header@), u64::MAX as nat) == Some(v as nat),
            None => text::unsigned(text::trimmed(header@), u64::MAX as nat) is None,
        },
{
    text::parse_unsigned(text::trim(header).as_str(), u64::MAX)
}

/// What follows an answer of the site.
#[derive(Debug, Clone, Copy, PartialEq, Eq, Structural)]
pub enum FetchStep {
    /// The answer is read.
    Read,
    /// The request is made again after so many milliseconds.
    Again { wait_ms: u64 },
    /// The request has failed.
    Fail,
}

/// Whether a status means success.
pub open spec fn succeeds(status: u16) -> bool {
    200 <= status < 300
}

/// Whether a status means that the site is busy.
pub open spec fn busy(status: u16) -> bool {
    status == 429 || 500 <= status < 600
}

/// What follows an answer with `status`, after `attempt` earlier ones.
pub open spec fn step(
    status: u16,
    attempt: u32,
    retry_after: Option<u64>,
    jitter: u32,
) -> FetchStep {
    if succeeds(status) {
        FetchStep::Read
    } else if busy(status) && attempt < MAX_RETRIES {
        FetchStep::Again { wait_ms: backoff(attempt as nat, retry_after, jitter as nat) as u64 }
    } else {
        FetchStep::Fail
    }
}

/// What follows an answer with `status`, after `attempt` earlier ones.
pub fn after_response(
    status: u16,
    attempt: u32,
    retry_after_secs: Option<u64>,
    jitter_nanos: u32,
) -> (r: FetchStep)
    ensures
        r == step(status, attempt, retry_after_secs, jitter_nanos),
{
    if 200 <= status && status < 300 {
        return FetchStep::Read;
    }
    let retryable = status == 429 || (500 <= status && status < 600);
    if !retryable || attempt >= MAX_RETRIES {
        return FetchStep::Fail;
    }
    FetchStep::Again { wait_ms: backoff_delay_ms(attempt, retry_after_secs, jitter_nanos) }
}

/// A request is made again only while it was made again fewer than three times, so that it is
/// made four times at most, and only where the site is busy.
pub proof fn lemma_retries_end(status: u16, attempt: u32, retry_after: Option<u64>, jitter: u32)
    ensures
        step(status, attempt, retry_after, jitter) is Again ==> attempt < 3 && busy(status),
        attempt >= 3 && !succeeds(status) ==> step(status, attempt, retry_after, jitter)
            == FetchStep::Fail,
{
}

/// What is said of a request that failed with `status`.
pub fn failure(url: &str, status: &str) -> (r: String)
    ensures
        r@ == "GET "@ + url@ + " -> "@ + status@,
{
    text::cat4("GET ", url, " -> ", status)
}

/// A server that says when to come back is taken at its word. Otherwise the wait doubles from two
/// seconds to half a minute, with less than half a second on top.
pub proof fn lemma_backoff(attempt: nat, retry_after: Option<u64>, jitter: nat)
    ensures
        retry_after matches Some(s) ==> backoff(attempt, retry_after, jitter) == (if s * 1000
            <= u64::MAX {
            s * 1000
        } else {
            u64::MAX as int
        }),
        retry_after is None ==> {
            let wait = backoff(attempt, retry_after, jitter);
            &&& attempt == 0 ==> 2000 <= wait < 2500
            &&& attempt == 1 ==> 4000 <= wait < 4500
            &&& attempt == 2 ==> 8000 <= wait < 8500
            &&& attempt == 3 ==> 16000 <= wait < 16500
            &&& attempt >= 4 ==> 32000 <= wait < 32500
        },
{
    reveal_with_fuel(power_of_two, 6);
}

/// An answer in the two hundreds is read; a server that is busy or at fault is asked again up to
/// three times; every other answer is a failure.
pub proof fn lemma_step(status: u16, attempt: u32, retry_after: Option<u64>, jitter: u32)
    ensures
        step(status, attempt, retry_after, jitter) is Read <==> 200 <= status <= 299,
        step(status, attempt, retry_after, jitter) is Again <==> attempt < 3 && (status == 429
            || 500 <= status <= 599),
{
}

/// Two requests are at least 1.2 seconds apart, and no longer than is needed for that.
pub proof fn lemma_throttle(elapsed: Option<u64>, r: u64)
    requires
        call_ensures(throttle_wait, (elapsed,), r),
    ensures
        elapsed matches Some(e) ==> e + r >= 1_200_000_000,
        elapsed matches Some(e) ==> (r > 0 ==> e + r == 1_200_000_000),
        elapsed is None ==> r == 0,
{
}

/// A wait that is told in seconds is read as they are, whatever white space is around it.
pub proof fn lemma_retry_after(header: &str, r: Option<u64>, n: u64)
    requires
        call_ensures(parse_retry_after, (header,), r),
    ensures
        text::trimmed(header@) == text::decimal(n as nat) ==> r == Some(n),
        text::trimmed(header@).len() == 0 ==> r is None,
{
    text::lemma_decimal_reads_back(n as nat);
    let d = text::decimal(n as nat);
    assert(text::is_digit(d[0]));
}

}
