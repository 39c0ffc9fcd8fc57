//! The per-mirror rate limiter: tracks the remaining request quota a mirror
//! reported and the moment the next fixed window starts. Before a request the
//! caller asks how long to wait; after a response it feeds the response's
//! quota metadata back in. The limiter holds one mirror's state for the whole
//! run; the caller keeps it under one exclusive lock and performs the actual
//! sleeping.

use vstd::prelude::*;

use crate::text::parsed_u32;
use crate::text::parse_u32;
use crate::text::str_eq;

verus! {

/// Quota at or below this mark throttles until the next window.
pub const LOW_WATER: u32 = 1;

/// The larger mark used when the response came from bulk storage delivery,
/// which exhausts its quota in bigger steps.
pub const S3_LOW_WATER: u32 = 5;

/// Windows are aligned to minute boundaries.
pub const WINDOW_SECS: u64 = 60;

/// Remaining quota and, when throttled, the moment the window resets,
/// in seconds.
pub struct RatelimitInfo {
    pub remaining: u32,
    pub reset_at: Option<u64>,
}

/// One mirror's rate-limit state.
pub struct Ratelimiter {
    pub info: RatelimitInfo,
}

/// The start of the next fixed window after `now`: windows open at multiples
/// of `WINDOW_SECS`, so independent processes converge on the same boundary.
pub open spec fn spec_next_window(now: u64) -> int {
    (now as int) - (now as int) % (WINDOW_SECS as int) + (WINDOW_SECS as int)
}

/// The remaining quota an observation reports: the parsed header value when
/// one is present (unparseable text counts as an exhausted quota), else the
/// quota already recorded.
pub open spec fn spec_header_value(s: RatelimitInfo, header: Option<Seq<char>>) -> u32 {
    match header {
        Some(h) => match parsed_u32(h) {
            Some(v) => v,
            None => 0,
        },
        None => s.remaining,
    }
}

/// What feeding one response's metadata into the limiter leaves behind.
/// A bulk-storage response with the recorded quota at or below its mark
/// throttles at once; otherwise the reported quota is recorded and, at or
/// below the low-water mark, throttles until the next window boundary.
pub open spec fn spec_observe(
    s: RatelimitInfo,
    s3_origin: bool,
    header: Option<Seq<char>>,
    now: u64,
) -> RatelimitInfo {
    if s3_origin && s.remaining <= S3_LOW_WATER {
        RatelimitInfo { remaining: 0, reset_at: Some(spec_next_window(now) as u64) }
    } else {
        let reported = spec_header_value(s, header);
        if reported <= LOW_WATER {
            RatelimitInfo { remaining: 0, reset_at: Some(spec_next_window(now) as u64) }
        } else {
            RatelimitInfo { remaining: reported, reset_at: s.reset_at }
        }
    }
}

/// The view of an optional header value.
pub open spec fn opt_str_view(o: Option<&str>) -> Option<Seq<char>> {
    match o {
        Some(s) => Some(s@),
        None => None,
    }
}

impl Default for RatelimitInfo {
    /// No quota observed yet and no pending reset.
    fn default() -> (r: RatelimitInfo)
        ensures
            r.remaining == 0,
            r.reset_at is None,
    {
        RatelimitInfo { remaining: 0, reset_at: None }
    }
}

impl Default for Ratelimiter {
    /// A limiter that has seen no response yet.
    fn default() -> (r: Ratelimiter)
        ensures
            r.info.remaining == 0,
            r.info.reset_at is None,
    {
        Ratelimiter { info: RatelimitInfo { remaining: 0, reset_at: None } }
    }
}

impl Ratelimiter {
    /// How long a caller must still wait at time `now`: the time left to the
    /// recorded reset when that lies in the future, nothing otherwise.
    pub open spec fn wait_needed(self, now: u64) -> Option<u64> {
        match self.info.reset_at {
            Some(t) => if t > now {
                Some((t - now) as u64)
            } else {
                None
            },
            None => None,
        }
    }

    /// A limiter that has seen no response yet: quota unknown, not throttled.
    pub fn new() -> (r: Ratelimiter)
        ensures
            r.info.remaining == 0,
            r.info.reset_at is None,
    {
        Ratelimiter { info: RatelimitInfo { remaining: 0, reset_at: None } }
    }

    /// Decides how long to wait before the next request may go out. The
    /// caller sleeps for the returned duration; it must not busy-poll.
    pub fn wait_if_needed(&self, now: u64) -> (r: Option<u64>)
        ensures
            r == self.wait_needed(now),
    {
        match self.info.reset_at {
            Some(t) => {
                if t > now {
                    Some(t - now)
                } else {
                    None
                }
            },
            None => None,
        }
    }

    /// Records one response's quota metadata: `origin` is the response's
    /// content origin, `remaining_header` the textual remaining-quota count,
    /// `now` the current time in seconds.
    pub fn update_rate_limit(
        &mut self,
        origin: Option<&str>,
        remaining_header: Option<&str>,
        now: u64,
    )
        requires
            now + WINDOW_SECS <= u64::MAX,
        ensures
            final(self).info == spec_observe(
                old(self).info,
                origin matches Some(o) && o@ == "s3"@,
                opt_str_view(remaining_header),
                now,
            ),
    {
        let s3 = match origin {
            Some(o) => str_eq(o, "s3"),
            None => false,
        };
        if s3 && self.info.remaining <= S3_LOW_WATER {
            self.info.remaining = 0;
            self.info.reset_at = Some(next_window(now));
            return;
        }
        if let Some(h) = remaining_header {
            self.info.remaining = match parse_u32(h) {
                Some(v) => v,
                None => 0,
            };
        }
        if self.info.remaining <= LOW_WATER {
            self.info.remaining = 0;
            self.info.reset_at = Some(next_window(now));
        }
    }
}

/// The start of the next fixed window after `now`.
pub fn next_window(now: u64) -> (r: u64)
    requires
        now + WINDOW_SECS <= u64::MAX,
    ensures
        r == spec_next_window(now),
        r > now,
{
    now - now % WINDOW_SECS + WINDOW_SECS
}

/// An observation that reports the quota at or below the low-water mark
/// throttles the limiter: until the window boundary passes, the limiter
/// demands a wait that ends exactly at that boundary.
pub proof fn lemma_throttle_blocks_until_reset(
    s: RatelimitInfo,
    s3_origin: bool,
    header: Seq<char>,
    now: u64,
    t: u64,
)
    requires
        now + WINDOW_SECS <= u64::MAX,
        spec_header_value(s, Some(header)) <= LOW_WATER,
        t < spec_next_window(now),
    ensures
        ({
            let after = Ratelimiter { info: spec_observe(s, s3_origin, Some(header), now) };
            after.wait_needed(t) == Some((spec_next_window(now) - t) as u64)
        }),
{
}

/// An observation that reports the quota above the low-water mark (and does
/// not come from bulk storage with the recorded quota at or below its mark)
/// leaves an unthrottled limiter open: no wait is demanded at any time.
pub proof fn lemma_open_returns_immediately(
    s: RatelimitInfo,
    header: Seq<char>,
    now: u64,
    t: u64,
)
    requires
        s.reset_at is None,
        spec_header_value(s, Some(header)) > LOW_WATER,
    ensures
        ({
            let after = Ratelimiter { info: spec_observe(s, false, Some(header), now) };
            after.wait_needed(t) is None
        }),
{
}

} // verus!
