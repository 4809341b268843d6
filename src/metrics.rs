//! Hour-by-hour dashboard helpers: the label of an hour slot, the full day
//! of slots from sparse counts, and the day periods used to filter a
//! heatmap.
use std::collections::HashMap;
use vstd::prelude::*;

use crate::text::same_text;

verus! {

broadcast use vstd::std_specs::hash::group_hash_axioms;

/// One hour of the day and what was counted in it.
#[derive(Debug, Clone)]
pub struct PeakHourSlot {
    pub hour_label: String,
    pub hour_start: u8,
    pub count: u32,
}

/// The decimal digits of `n`, at least two.
pub open spec fn two_digits(n: u8) -> Seq<char> {
    let d = "0123456789"@;
    if n < 100 {
        seq![d[(n / 10) as int], d[(n % 10) as int]]
    } else {
        seq![d[(n / 100) as int], d[((n / 10) % 10) as int], d[(n % 10) as int]]
    }
}

/// The hour that follows `h`; midnight follows 23.
pub open spec fn next_hour(h: u8) -> u8 {
    if h == 23 {
        0
    } else if h == 255 {
        0
    } else {
        (h + 1) as u8
    }
}

/// The label of the slot starting at `h`, as `HH:00 - HH:00`.
pub open spec fn hour_label_spec(h: u8) -> Seq<char> {
    two_digits(h) + ":00 - "@ + two_digits(next_hour(h)) + ":00"@
}

fn push_digits(out: &mut String, n: u8)
    ensures
        final(out)@ == old(out)@ + two_digits(n),
{
    let digits = "0123456789";
    proof {
        reveal_strlit("0123456789");
    }
    if n >= 100 {
        let a = (n / 100) as usize;
        out.append(digits.substring_char(a, a + 1));
    }
    let b = ((n / 10) % 10) as usize;
    let c = (n % 10) as usize;
    let ghost before = out@;
    out.append(digits.substring_char(b, b + 1));
    out.append(digits.substring_char(c, c + 1));
    proof {
        if n < 100 {
            assert(n / 10 < 10);
            assert(out@ =~= before + two_digits(n));
        } else {
            assert(out@ =~= old(out)@ + two_digits(n));
        }
    }
}

/// The label of the hour slot starting at `hour_start`.
pub fn hour_label(hour_start: u8) -> (r: String)
    ensures
        r@ == hour_label_spec(hour_start),
{
    let next: u8 = if hour_start == 23 || hour_start == 255 {
        0
    } else {
        hour_start + 1
    };
    let mut out = String::new();
    push_digits(&mut out, hour_start);
    out.append(":00 - ");
    push_digits(&mut out, next);
    out.append(":00");
    proof {
        reveal_strlit(":00 - ");
        reveal_strlit(":00");
        assert(out@ =~= hour_label_spec(hour_start));
    }
    out
}

/// The 24 slots of a day, each with its count, zero when none was given.
pub fn build_24_slots(counts_by_hour: &HashMap<u8, u32>) -> (r: Vec<PeakHourSlot>)
    ensures
        r@.len() == 24,
        forall|h: int|
            0 <= h < 24 ==> (#[trigger] r@[h]).hour_start == h && r@[h].hour_label@ == hour_label_spec(h as u8)
                && r@[h].count == (if counts_by_hour@.contains_key(h as u8) {
                counts_by_hour@[h as u8]
            } else {
                0
            }),
{
    let mut out: Vec<PeakHourSlot> = Vec::new();
    let mut h: u8 = 0;
    while h < 24
        invariant
            h <= 24,
            out@.len() == h,
            forall|k: int|
                0 <= k < h ==> (#[trigger] out@[k]).hour_start == k && out@[k].hour_label@ == hour_label_spec(k as u8)
                    && out@[k].count == (if counts_by_hour@.contains_key(k as u8) {
                    counts_by_hour@[k as u8]
                } else {
                    0
                }),
        decreases 24 - h,
    {
        let count = match counts_by_hour.get(&h) {
            Some(c) => *c,
            None => 0,
        };
        out.push(PeakHourSlot { hour_label: hour_label(h), hour_start: h, count });
        h = h + 1;
    }
    out
}

/// Whether an hour of the day falls in a named period: morning 6 to 11,
/// midday 12 to 14, afternoon 15 to 18, night 19 to 5; any other name
/// takes every hour.
pub open spec fn in_period(hour: u8, period: Seq<char>) -> bool {
    if period == "morning"@ {
        6 <= hour <= 11
    } else if period == "midday"@ {
        12 <= hour <= 14
    } else if period == "afternoon"@ {
        15 <= hour <= 18
    } else if period == "night"@ {
        hour >= 19 || hour <= 5
    } else {
        true
    }
}

/// Whether an hour of the day falls in the named period.
pub fn hour_in_period(hour: u8, period: &str) -> (r: bool)
    ensures
        r == in_period(hour, period@),
{
    if same_text(period, "morning") {
        6 <= hour && hour <= 11
    } else if same_text(period, "midday") {
        12 <= hour && hour <= 14
    } else if same_text(period, "afternoon") {
        15 <= hour && hour <= 18
    } else if same_text(period, "night") {
        hour >= 19 || hour <= 5
    } else {
        true
    }
}

/// Milliseconds in an hour.
pub const HOUR_MS: u64 = 3600000;

/// Hours the facility's local time lags behind UTC.
pub const LOCAL_OFFSET_HOURS: u64 = 5;

/// The local hour of the day (UTC less five hours) of an instant given in
/// milliseconds since the Unix epoch.
pub open spec fn local_hour_spec(ms: int) -> int {
    (ms / (HOUR_MS as int) + 24 - LOCAL_OFFSET_HOURS as int) % 24
}

/// The local hour of the day of an instant.
pub fn utc_to_local_hour(ms: u64) -> (r: u8)
    ensures
        r as int == local_hour_spec(ms as int),
        r < 24,
{
    ((ms / HOUR_MS % 24 + 24 - LOCAL_OFFSET_HOURS) % 24) as u8
}

/// The UTC bounds, in milliseconds, of one local hour of a local day given
/// as days since the Unix epoch: `[start, end)`. `None` for an hour past 23
/// or bounds beyond the clock's range.
pub fn local_date_hour_to_utc_range(day: u64, hour: u8) -> (r: Option<(u64, u64)>)
    ensures
        hour > 23 ==> r is None,
        r matches Some(b) ==> b.0 == (day * 24 + hour + LOCAL_OFFSET_HOURS) * HOUR_MS && b.1 == b.0 + HOUR_MS,
        hour <= 23 && (day * 24 + hour + LOCAL_OFFSET_HOURS + 1) * HOUR_MS <= u64::MAX ==> r is Some,
{
    if hour > 23 {
        return None;
    }
    proof {
        assert((day * 24 + hour + LOCAL_OFFSET_HOURS + 1) * HOUR_MS < 0x8000_0000_0000_0000_0000_0000_0000_0000u128) by (nonlinear_arith)
            requires
                day <= u64::MAX,
                hour <= 23,
        ;
    }
    let end: u128 = (day as u128 * 24 + hour as u128 + LOCAL_OFFSET_HOURS as u128 + 1) * HOUR_MS as u128;
    if end > u64::MAX as u128 {
        return None;
    }
    proof {
        assert((day * 24 + hour + LOCAL_OFFSET_HOURS + 1) * HOUR_MS == (day * 24 + hour + LOCAL_OFFSET_HOURS) * HOUR_MS
            + HOUR_MS) by (nonlinear_arith);
    }
    let start = (end - HOUR_MS as u128) as u64;
    Some((start, start + HOUR_MS))
}

} // verus!
