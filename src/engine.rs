use vstd::prelude::*;
use crate::quality::{
    clamp_int, quality_ratio, quality_valid, Quality, BR_BALANCED, BR_BEST, BR_MAX, BR_MIN,
    BR_MIN_HIGH_RESOLUTION, BR_SPEED,
};

verus! {

/// Length of one evaluation window, in milliseconds.
pub const ADJUST_RATIO_INTERVAL_MS: u64 = 3000;

/// Length of one evaluation window, in seconds.
pub const ADJUST_RATIO_INTERVAL_SECS: u64 = 3;

/// Sends per second above which an output counts as a rapidly changing screen.
pub const DYNAMIC_SCREEN_THRESHOLD: u64 = 2;

/// Ceiling of the ratio as a percentage of the target ratio.
pub const MAX_BR_MULTIPLE_PERCENT: u32 = 100;

/// Boost applied on a rapidly changing screen, as a percentage.
pub const DYNAMIC_SCREEN_BOOST_PERCENT: u32 = 115;

/// Extra bandwidth that one evaluation step may grow into, in kbps.
pub const GROWTH_STEP_KBPS: u32 = 150;

/// Sends within one window at which an output counts as a rapidly changing screen.
pub open spec fn dynamic_screen_sends() -> int {
    ADJUST_RATIO_INTERVAL_SECS * DYNAMIC_SCREEN_THRESHOLD
}

/// The ratio at which the current scale would need only 1 Mbps.
pub open spec fn ratio_1mbps(current_ratio: int, bitrate: int) -> int
    recommends
        bitrate > 0,
{
    let r = current_ratio * 1000 / bitrate;
    if r < BR_MIN_HIGH_RESOLUTION {
        BR_MIN_HIGH_RESOLUTION as int
    } else {
        r
    }
}

/// The ratio that one more step of `GROWTH_STEP_KBPS` would correspond to.
pub open spec fn ratio_add_150kbps(current_ratio: int, bitrate: int) -> int
    recommends
        bitrate > 0,
{
    (bitrate + GROWTH_STEP_KBPS) * current_ratio / bitrate
}

pub open spec fn min_int(a: int, b: int) -> int {
    if a < b {
        a
    } else {
        b
    }
}

pub open spec fn max_int(a: int, b: int) -> int {
    if a > b {
        a
    } else {
        b
    }
}

/// The `min` term with the 1 Mbps ratio, where a bitrate is known.
pub open spec fn cap_by_1mbps(x: int, current_ratio: int, bitrate: int) -> int {
    if bitrate > 0 {
        min_int(x, ratio_1mbps(current_ratio, bitrate))
    } else {
        x
    }
}

/// The lowest ratio that a correction toward `target` may reach.
pub open spec fn ratio_floor(current_ratio: int, bitrate: int, target: Quality) -> int {
    match target {
        Quality::Best => max_int(
            cap_by_1mbps(BR_BEST as int * 10 / 25, current_ratio, bitrate),
            BR_MIN as int,
        ),
        Quality::Balanced => max_int(
            cap_by_1mbps(min_int(BR_BALANCED as int / 2, 400), current_ratio, bitrate),
            BR_MIN_HIGH_RESOLUTION as int,
        ),
        _ => BR_MIN_HIGH_RESOLUTION as int,
    }
}

/// The highest ratio that a correction toward `target` may reach.
pub open spec fn ratio_ceiling(target: Quality) -> int {
    quality_ratio(target) * MAX_BR_MULTIPLE_PERCENT / 100
}

/// The current ratio, boosted on a rapidly changing screen.
pub open spec fn boosted(current_ratio: int, dynamic_screen: bool) -> int {
    if dynamic_screen {
        current_ratio * DYNAMIC_SCREEN_BOOST_PERCENT / 100
    } else {
        current_ratio
    }
}

/// Whether the growth cap applies to the proposed value `v`.
pub open spec fn growth_capped(v: int, current_ratio: int, bitrate: int) -> bool {
    bitrate > 0 && v > ratio_add_150kbps(current_ratio, bitrate) && ratio_add_150kbps(
        current_ratio,
        bitrate,
    ) > current_ratio && current_ratio >= BR_SPEED
}

/// The proposed value after the growth cap.
pub open spec fn proposed_ratio(current_ratio: int, bitrate: int, dynamic_screen: bool) -> int {
    let v = boosted(current_ratio, dynamic_screen);
    if growth_capped(v, current_ratio, bitrate) {
        ratio_add_150kbps(current_ratio, bitrate)
    } else {
        v
    }
}

/// One bounded correction of the ratio toward the target preset.
pub open spec fn corrected_ratio(
    current_ratio: int,
    bitrate: int,
    target: Quality,
    dynamic_screen: bool,
) -> int {
    clamp_int(
        proposed_ratio(current_ratio, bitrate, dynamic_screen),
        ratio_floor(current_ratio, bitrate, target),
        ratio_ceiling(target),
    )
}

/// A ratio within the controller's legal range.
pub open spec fn ratio_in_bounds(r: int) -> bool {
    BR_MIN_HIGH_RESOLUTION <= r <= BR_MAX
}

proof fn lemma_floor_below_ceiling(current_ratio: int, bitrate: int, target: Quality)
    requires
        quality_valid(target),
    ensures
        BR_MIN_HIGH_RESOLUTION <= ratio_floor(current_ratio, bitrate, target) <= ratio_ceiling(
            target,
        ) <= BR_MAX,
{
}

/// Applies the growth cap and the floor and ceiling of `target` to the current ratio.
pub fn adjust_ratio(current_ratio: u32, bitrate: u32, target: Quality, dynamic_screen: bool) -> (r:
    u32)
    requires
        ratio_in_bounds(current_ratio as int),
        quality_valid(target),
    ensures
        r as int == corrected_ratio(current_ratio as int, bitrate as int, target, dynamic_screen),
        ratio_floor(current_ratio as int, bitrate as int, target) <= r <= ratio_ceiling(target),
        r <= quality_ratio(target),
        ratio_in_bounds(r as int),
{
    proof {
        lemma_floor_below_ceiling(current_ratio as int, bitrate as int, target);
    }
    let cur: u64 = current_ratio as u64;
    let br: u64 = bitrate as u64;
    let step: u64 = GROWTH_STEP_KBPS as u64;
    // Terms that only exist when a bitrate is known.
    let mut r1m: u64 = 0;
    let mut radd: u64 = 0;
    if br > 0 {
        let q: u64 = cur * 1000 / br;
        r1m = if q < BR_MIN_HIGH_RESOLUTION as u64 {
            BR_MIN_HIGH_RESOLUTION as u64
        } else {
            q
        };
        assert((br + step) * cur <= 0x1_0000_0096u64 * 40000u64) by (nonlinear_arith)
            requires
                br <= 0xffff_ffffu64,
                step == 150,
                cur <= 40000,
        ;
        radd = (br + step) * cur / br;
    }
    let lo: u64 = match target {
        Quality::Best => {
            let base: u64 = BR_BEST as u64 * 10 / 25;
            let capped: u64 = if br > 0 && r1m < base {
                r1m
            } else {
                base
            };
            if capped < BR_MIN as u64 {
                BR_MIN as u64
            } else {
                capped
            }
        },
        Quality::Balanced => {
            let half: u64 = BR_BALANCED as u64 / 2;
            let base: u64 = if half < 400 {
                half
            } else {
                400
            };
            let capped: u64 = if br > 0 && r1m < base {
                r1m
            } else {
                base
            };
            if capped < BR_MIN_HIGH_RESOLUTION as u64 {
                BR_MIN_HIGH_RESOLUTION as u64
            } else {
                capped
            }
        },
        _ => BR_MIN_HIGH_RESOLUTION as u64,
    };
    let hi: u64 = target.ratio() as u64 * MAX_BR_MULTIPLE_PERCENT as u64 / 100;
    let mut v: u64 = cur;
    if dynamic_screen {
        assert(cur * 115 <= 40000 * 115) by (nonlinear_arith)
            requires
                cur <= 40000,
        ;
        v = cur * DYNAMIC_SCREEN_BOOST_PERCENT as u64 / 100;
    }
    if br > 0 && v > radd && radd > cur && cur >= BR_SPEED as u64 {
        v = radd;
    }
    let out: u64 = if v < lo {
        lo
    } else if v > hi {
        hi
    } else {
        v
    };
    out as u32
}

/// Without a changing screen a correction never raises the ratio above both its current
/// value and the floor, and a ratio already within its floor and ceiling stays where it
/// is: repeated corrections settle instead of oscillating.
pub proof fn law_correction_settles(current_ratio: int, bitrate: int, target: Quality)
    requires
        ratio_in_bounds(current_ratio),
        0 <= bitrate,
        quality_valid(target),
    ensures
        corrected_ratio(current_ratio, bitrate, target, false) <= max_int(
            current_ratio,
            ratio_floor(current_ratio, bitrate, target),
        ),
        ratio_floor(current_ratio, bitrate, target) <= current_ratio <= ratio_ceiling(target)
            ==> corrected_ratio(current_ratio, bitrate, target, false) == current_ratio,
{
    if bitrate > 0 {
        assert((bitrate + GROWTH_STEP_KBPS) * current_ratio >= bitrate * current_ratio)
            by (nonlinear_arith)
            requires
                bitrate > 0,
                current_ratio >= 0,
        ;
        assert(bitrate * current_ratio / bitrate == current_ratio) by (nonlinear_arith)
            requires
                bitrate > 0,
        ;
        assert(ratio_add_150kbps(current_ratio, bitrate) >= current_ratio) by (nonlinear_arith)
            requires
                bitrate > 0,
                (bitrate + GROWTH_STEP_KBPS) * current_ratio >= bitrate * current_ratio,
                bitrate * current_ratio / bitrate == current_ratio,
                ratio_add_150kbps(current_ratio, bitrate) == (bitrate + GROWTH_STEP_KBPS)
                    * current_ratio / bitrate,
        ;
    }
    lemma_floor_below_ceiling(current_ratio, bitrate, target);
}

} // verus!
