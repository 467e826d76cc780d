use vstd::prelude::*;

verus! {

/// Fixed-point scale of every ratio: a stored value `r` stands for `r / 1000`.
pub const RATIO_SCALE: u32 = 1000;

/// Largest ratio (`40.0`).
pub const BR_MAX: u32 = 40000;

/// Smallest ratio a viewer may request (`0.2`).
pub const BR_MIN: u32 = 200;

/// Smallest ratio the controller ever uses (`0.1`).
pub const BR_MIN_HIGH_RESOLUTION: u32 = 100;

/// Ratio of the best-quality preset (`1.5`).
pub const BR_BEST: u32 = 1500;

/// Ratio of the balanced preset (`0.67`), also the controller's default ratio.
pub const BR_BALANCED: u32 = 670;

/// Ratio of the low-quality (fastest) preset (`0.5`).
pub const BR_SPEED: u32 = 500;

/// Wire value of the balanced preset.
pub const IMAGE_QUALITY_BALANCED: i32 = 3;

/// Wire value of the low-quality preset.
pub const IMAGE_QUALITY_LOW: i32 = 2;

/// Wire value of the best-quality preset.
pub const IMAGE_QUALITY_BEST: i32 = 4;

/// A quality level requested by a viewer.
#[derive(Clone, Copy, Debug, PartialEq, Eq, Structural)]
pub enum Quality {
    Balanced,
    Low,
    Best,
    /// An explicit ratio, in thousandths.
    Custom(u32),
}

/// The ratio a preset stands for, in thousandths.
pub open spec fn quality_ratio(q: Quality) -> int {
    match q {
        Quality::Balanced => BR_BALANCED as int,
        Quality::Low => BR_SPEED as int,
        Quality::Best => BR_BEST as int,
        Quality::Custom(v) => v as int,
    }
}

/// A preset that the controller can produce: a custom ratio lies in `[BR_MIN, BR_MAX]`.
pub open spec fn quality_valid(q: Quality) -> bool {
    match q {
        Quality::Custom(v) => BR_MIN <= v <= BR_MAX,
        _ => true,
    }
}

/// Bits 8 to 19 of a wire value.
pub open spec fn custom_field(q: i32) -> int {
    ((q >> 8u32) & 0xfffi32) as int
}

/// The value `x` limited to `[lo, hi]`.
pub open spec fn clamp_int(x: int, lo: int, hi: int) -> int {
    if x < lo {
        lo
    } else if x > hi {
        hi
    } else {
        x
    }
}

/// The preset a wire value asks for: one of the three named values, or a custom ratio of
/// `custom_field(q) * 2 / 100`, limited to `[BR_MIN, BR_MAX]`.
pub open spec fn decode_quality_spec(q: i32) -> Quality {
    if q == IMAGE_QUALITY_BALANCED {
        Quality::Balanced
    } else if q == IMAGE_QUALITY_LOW {
        Quality::Low
    } else if q == IMAGE_QUALITY_BEST {
        Quality::Best
    } else {
        Quality::Custom(
            clamp_int(custom_field(q) * 2 * RATIO_SCALE / 100, BR_MIN as int, BR_MAX as int) as u32,
        )
    }
}

impl Quality {
    /// The ratio this preset stands for, in thousandths.
    pub fn ratio(&self) -> (r: u32)
        ensures
            r as int == quality_ratio(*self),
    {
        match self {
            Quality::Balanced => BR_BALANCED,
            Quality::Low => BR_SPEED,
            Quality::Best => BR_BEST,
            Quality::Custom(v) => *v,
        }
    }

    /// Whether this is an explicit ratio rather than a named preset.
    pub fn is_custom(&self) -> (r: bool)
        ensures
            r == (*self is Custom),
    {
        match self {
            Quality::Custom(_) => true,
            _ => false,
        }
    }
}

/// Decodes a viewer's wire value into a preset.
pub fn decode_quality(q: i32) -> (r: Quality)
    ensures
        r == decode_quality_spec(q),
        quality_valid(r),
        BR_MIN_HIGH_RESOLUTION <= quality_ratio(r) <= BR_MAX,
{
    if q == IMAGE_QUALITY_BALANCED {
        Quality::Balanced
    } else if q == IMAGE_QUALITY_LOW {
        Quality::Low
    } else if q == IMAGE_QUALITY_BEST {
        Quality::Best
    } else {
        let field: i32 = (q >> 8u32) & 0xfffi32;
        assert(0 <= field <= 0xfff) by (bit_vector)
            requires
                field == (q >> 8u32) & 0xfffi32,
        ;
        let b: u32 = (field as u32) * 2 * RATIO_SCALE / 100;
        let v: u32 = if b < BR_MIN {
            BR_MIN
        } else if b > BR_MAX {
            BR_MAX
        } else {
            b
        };
        Quality::Custom(v)
    }
}

} // verus!
