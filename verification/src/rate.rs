//! Per-session inbound message quota: a fixed window that resets in full
//! once it has elapsed, and otherwise admits a bounded number of messages.

use vstd::prelude::*;

verus! {

/// Length of the rate-limit window, in milliseconds.
pub const WINDOW_MS: i64 = 15 * 60 * 1000;

/// Inbound messages admitted per window per session.
pub const MAX_REQUESTS: usize = 100;

/// One session's bookkeeping: how many messages the current window has
/// recorded, and when that window started (epoch milliseconds), if ever.
#[derive(Debug, Clone, Copy, PartialEq, Eq, Structural)]
pub struct Client {
    pub request_count: usize,
    pub window_start: Option<i64>,
}

/// Whether a window that started at `start` has fully elapsed by `now`.
pub open spec fn window_elapsed(start: int, now: int) -> bool {
    now - start >= WINDOW_MS
}

/// The verdict on one inbound message: rejected exactly when the window
/// is still running and the counter has reached the quota.
pub open spec fn spec_rate_limited(c: Client, now: int) -> bool {
    match c.window_start {
        Some(start) => !window_elapsed(start as int, now) && c.request_count >= MAX_REQUESTS,
        None => false,
    }
}

/// The bookkeeping after one inbound message: an elapsed or absent window
/// starts afresh at `now` with a zero counter; a rejected message changes
/// nothing; an admitted one is counted.
pub open spec fn spec_rate_next(c: Client, now: i64) -> Client {
    match c.window_start {
        Some(start) => {
            if window_elapsed(start as int, now as int) {
                Client { request_count: 0, window_start: Some(now) }
            } else if c.request_count >= MAX_REQUESTS {
                c
            } else {
                Client {
                    request_count: (c.request_count + 1) as usize,
                    window_start: c.window_start,
                }
            }
        },
        None => Client { request_count: 0, window_start: Some(now) },
    }
}

/// Records one inbound message against the client's window at instant
/// `now` and says whether it must be rejected.
pub fn check_rate_limit(client: &mut Client, now: i64) -> (limited: bool)
    ensures
        limited == spec_rate_limited(*old(client), now as int),
        *final(client) == spec_rate_next(*old(client), now),
{
    match client.window_start {
        Some(start) => {
            let elapsed = match now.checked_sub(start) {
                Some(d) => d >= WINDOW_MS,
                None => start < 0,
            };
            proof {
                assert(elapsed == window_elapsed(start as int, now as int));
            }
            if elapsed {
                client.window_start = Some(now);
                client.request_count = 0;
                return false;
            }
            if client.request_count >= MAX_REQUESTS {
                return true;
            }
            client.request_count = client.request_count + 1;
            false
        },
        None => {
            client.window_start = Some(now);
            client.request_count = 0;
            false
        },
    }
}

/// Relies on chrono's Utc::now and timestamp_millis to read the clock as
/// epoch milliseconds; nothing is promised of the reading.
#[verifier::external_body]
fn utc_now_ms() -> i64 {
    chrono::Utc::now().timestamp_millis()
}

/// Records one inbound message at the current clock reading. Whatever the
/// clock returned, the verdict and the new bookkeeping come from the
/// window policy at one single instant.
pub fn is_rate_limited(client: &mut Client) -> (limited: bool)
    ensures
        exists|now: i64|
            limited == spec_rate_limited(*old(client), now as int) && *final(client)
                == #[trigger] spec_rate_next(*old(client), now),
{
    let now: i64 = utc_now_ms();
    check_rate_limit(client, now)
}

/// The bookkeeping after a run of messages, all at instant `now`.
pub open spec fn rate_iter(c: Client, now: i64, n: nat) -> Client
    decreases n,
{
    if n == 0 {
        c
    } else {
        spec_rate_next(rate_iter(c, now, (n - 1) as nat), now)
    }
}

proof fn lemma_rate_iter_count(c: Client, t: i64, n: nat)
    requires
        c.request_count == 0,
        c.window_start == Some(t),
        n <= MAX_REQUESTS,
    ensures
        rate_iter(c, t, n).request_count == n,
        rate_iter(c, t, n).window_start == Some(t),
    decreases n,
{
    if n > 0 {
        lemma_rate_iter_count(c, t, (n - 1) as nat);
    }
}

/// Rate limiting: within one window, each of the first hundred inbound
/// messages from a session is accepted, and the next one is rejected.
pub proof fn lemma_rate_limit_quota(c: Client, t: i64, n: nat)
    requires
        c.request_count == 0,
        c.window_start == Some(t),
        n < MAX_REQUESTS,
    ensures
        !spec_rate_limited(rate_iter(c, t, n), t as int),
        spec_rate_limited(rate_iter(c, t, MAX_REQUESTS as nat), t as int),
{
    lemma_rate_iter_count(c, t, n);
    lemma_rate_iter_count(c, t, MAX_REQUESTS as nat);
}

/// Window reset: once the window has fully elapsed, the counter resets to
/// a fresh window and the next message is accepted, whatever the counter
/// held before.
pub proof fn lemma_window_reset(c: Client, start: i64, now: i64)
    requires
        c.window_start == Some(start),
        window_elapsed(start as int, now as int),
    ensures
        !spec_rate_limited(c, now as int),
        spec_rate_next(c, now) == (Client { request_count: 0, window_start: Some(now) }),
{
}

} // verus!
