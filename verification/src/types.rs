//! Plain value types for image presentation: filters, scale modes,
//! brightness, rotation, panning and crop geometry.

use vstd::prelude::*;
use crate::viewer::PanDirection;

verus! {

/// Resizing filter used when scaling the visible image region.
#[derive(Debug, Clone, Copy, PartialEq, Eq, Structural)]
pub enum FilterType {
    Nearest,
    Linear,
    Cubic,
    Mitchell,
    Gaussian,
    Lanczos,
    Hamming,
}

impl FilterType {
    /// User-facing name of the filter.
    pub fn name(&self) -> (r: &'static str)
        ensures
            r@ == self.spec_name(),
    {
        match self {
            FilterType::Nearest => "Nearest",
            FilterType::Linear => "Linear",
            FilterType::Cubic => "Cubic",
            FilterType::Mitchell => "Mitchell",
            FilterType::Gaussian => "Gaussian",
            FilterType::Lanczos => "Lanczos",
            FilterType::Hamming => "Hamming",
        }
    }

    pub open spec fn spec_name(&self) -> Seq<char> {
        match self {
            FilterType::Nearest => "Nearest"@,
            FilterType::Linear => "Linear"@,
            FilterType::Cubic => "Cubic"@,
            FilterType::Mitchell => "Mitchell"@,
            FilterType::Gaussian => "Gaussian"@,
            FilterType::Lanczos => "Lanczos"@,
            FilterType::Hamming => "Hamming"@,
        }
    }

    /// The filter that follows this one when cycling:
    /// Nearest, Hamming, Linear, Cubic, Mitchell, Gaussian, Lanczos, then Nearest again.
    pub open spec fn spec_next(self) -> FilterType {
        match self {
            FilterType::Nearest => FilterType::Hamming,
            FilterType::Hamming => FilterType::Linear,
            FilterType::Linear => FilterType::Cubic,
            FilterType::Cubic => FilterType::Mitchell,
            FilterType::Mitchell => FilterType::Gaussian,
            FilterType::Gaussian => FilterType::Lanczos,
            FilterType::Lanczos => FilterType::Nearest,
        }
    }

    /// Returns the next filter in the cycle.
    pub fn next(self) -> (r: FilterType)
        ensures
            r == self.spec_next(),
    {
        match self {
            FilterType::Nearest => FilterType::Hamming,
            FilterType::Hamming => FilterType::Linear,
            FilterType::Linear => FilterType::Cubic,
            FilterType::Cubic => FilterType::Mitchell,
            FilterType::Mitchell => FilterType::Gaussian,
            FilterType::Gaussian => FilterType::Lanczos,
            FilterType::Lanczos => FilterType::Nearest,
        }
    }
}

/// Seven steps of the filter cycle lead back to the starting filter, and every
/// step changes the filter.
pub proof fn lemma_filter_cycle_period(f: FilterType)
    ensures
        f.spec_next() != f,
        f.spec_next().spec_next().spec_next().spec_next().spec_next().spec_next().spec_next() == f,
{
}

/// How the image is initially scaled into the viewport.
#[derive(Debug, Clone, Copy, PartialEq, Eq, Structural)]
pub enum ScaleMode {
    /// Show image at 1:1 original pixels.
    Actual,
    /// Scale larger images down to fit, leave smaller untouched.
    Shrink,
    /// Stretch or shrink to match the viewport.
    Full,
    /// Crop to cover the entire viewport.
    Crop,
}

impl ScaleMode {
    pub open spec fn spec_name(&self) -> Seq<char> {
        match self {
            ScaleMode::Actual => "None"@,
            ScaleMode::Shrink => "Shrink"@,
            ScaleMode::Full => "Full"@,
            ScaleMode::Crop => "Crop"@,
        }
    }

    /// User-facing name of the scale mode.
    pub fn name(&self) -> (r: &'static str)
        ensures
            r@ == self.spec_name(),
    {
        match self {
            ScaleMode::Actual => "None",
            ScaleMode::Shrink => "Shrink",
            ScaleMode::Full => "Full",
            ScaleMode::Crop => "Crop",
        }
    }

    pub open spec fn spec_next(self) -> ScaleMode {
        match self {
            ScaleMode::Actual => ScaleMode::Shrink,
            ScaleMode::Shrink => ScaleMode::Full,
            ScaleMode::Full => ScaleMode::Crop,
            ScaleMode::Crop => ScaleMode::Actual,
        }
    }

    /// The mode that follows this one when cycling: None, Shrink, Full, Crop, then None again.
    pub fn next(self) -> (r: ScaleMode)
        ensures
            r == self.spec_next(),
    {
        match self {
            ScaleMode::Actual => ScaleMode::Shrink,
            ScaleMode::Shrink => ScaleMode::Full,
            ScaleMode::Full => ScaleMode::Crop,
            ScaleMode::Crop => ScaleMode::Actual,
        }
    }
}

/// Four steps of the scale-mode cycle lead back to the starting mode, and every
/// step changes the mode.
pub proof fn lemma_scale_mode_cycle_period(m: ScaleMode)
    ensures
        m.spec_next() != m,
        m.spec_next().spec_next().spec_next().spec_next() == m,
{
}

pub const BRIGHTNESS_LIMIT: i32 = 255;

/// Clamps an integer into the brightness range [-255, 255].
pub open spec fn clamp_brightness(v: int) -> int {
    if v < -255 {
        -255
    } else if v > 255 {
        255
    } else {
        v
    }
}

/// An image brightness adjustment restricted to [-255, 255].
#[derive(Debug, Clone, Copy, PartialEq, Eq, Structural)]
pub struct Brightness(i32);

impl Brightness {
    /// The raw adjustment value.
    pub closed spec fn spec_value(self) -> int {
        self.0 as int
    }

    /// The value lies in [-255, 255].
    pub open spec fn wf(self) -> bool {
        -255 <= self.spec_value() <= 255
    }

    /// The adjustment holding `v` (meaningful for `v` in the range of `i32`).
    pub closed spec fn spec_with_value(v: int) -> Brightness {
        Brightness(v as i32)
    }

    /// The zero adjustment.
    pub closed spec fn spec_zero() -> Brightness {
        Brightness(0)
    }

    /// Zero brightness adjustment.
    pub fn zero() -> (r: Brightness)
        ensures
            r.spec_value() == 0,
            r == Brightness::spec_zero(),
            r.wf(),
    {
        Brightness(0)
    }

    /// Builds a brightness adjustment, clamping the value to [-255, 255].
    pub fn new(val: i32) -> (r: Brightness)
        ensures
            r.spec_value() == clamp_brightness(val as int),
            r == Brightness::spec_with_value(clamp_brightness(val as int)),
            r.wf(),
    {
        if val < -BRIGHTNESS_LIMIT {
            Brightness(-BRIGHTNESS_LIMIT)
        } else if val > BRIGHTNESS_LIMIT {
            Brightness(BRIGHTNESS_LIMIT)
        } else {
            Brightness(val)
        }
    }

    /// The raw adjustment value.
    pub fn value(self) -> (r: i32)
        ensures
            r as int == self.spec_value(),
    {
        self.0
    }

    /// True if the adjustment is zero.
    pub fn is_zero(&self) -> (r: bool)
        ensures
            r == (self.spec_value() == 0),
    {
        self.0 == 0
    }

    /// Adds `delta` (saturating at the bounds of `i32`), then clamps to [-255, 255].
    pub fn adjust(&mut self, delta: i32)
        ensures
            final(self).spec_value() == clamp_brightness(
                saturate_i32(old(self).spec_value() + delta as int),
            ),
            *final(self) == Brightness::spec_with_value(
                clamp_brightness(saturate_i32(old(self).spec_value() + delta as int)),
            ),
            final(self).wf(),
    {
        let sum: i64 = self.0 as i64 + delta as i64;
        let saturated: i64 = if sum > i32::MAX as i64 {
            i32::MAX as i64
        } else if sum < i32::MIN as i64 {
            i32::MIN as i64
        } else {
            sum
        };
        let clamped: i64 = if saturated < -255 {
            -255
        } else if saturated > 255 {
            255
        } else {
            saturated
        };
        self.0 = clamped as i32;
    }
}

/// Saturates an integer into the range of `i32`.
pub open spec fn saturate_i32(v: int) -> int {
    if v > i32::MAX {
        i32::MAX as int
    } else if v < i32::MIN {
        i32::MIN as int
    } else {
        v
    }
}

/// For a brightness within range, adjusting by a delta that keeps it in range
/// and then by the opposite delta restores the original value.
pub proof fn lemma_brightness_adjust_inverse(b: int, delta: int)
    requires
        -255 <= b <= 255,
        -255 <= b + delta <= 255,
        i32::MIN < delta <= i32::MAX,
    ensures
        clamp_brightness(saturate_i32(clamp_brightness(saturate_i32(b + delta)) + (-delta))) == b,
{
}

/// An image rotation in 90-degree clockwise steps.
#[derive(Debug, Clone, Copy, PartialEq, Eq, Structural)]
pub enum Rotation {
    D0,
    D90,
    D180,
    D270,
}

impl Rotation {
    /// Degrees of clockwise rotation.
    pub open spec fn spec_degrees(self) -> nat {
        match self {
            Rotation::D0 => 0,
            Rotation::D90 => 90,
            Rotation::D180 => 180,
            Rotation::D270 => 270,
        }
    }

    /// The rotation of a quarter-turn count taken modulo 4.
    pub open spec fn spec_from_quarters(q: nat) -> Rotation {
        let k = q % 4;
        if k == 1 {
            Rotation::D90
        } else if k == 2 {
            Rotation::D180
        } else if k == 3 {
            Rotation::D270
        } else {
            Rotation::D0
        }
    }

    /// The rotation denoted by a degree count taken modulo 360 and rounded to
    /// the nearest multiple of 90 (a half step rounds up; 315 and more round
    /// up to a full turn).
    pub open spec fn spec_from_degrees(deg: nat) -> Rotation {
        Self::spec_from_quarters((((deg % 360) + 45) / 90) as nat)
    }

    /// Builds a rotation from a degree count (see `spec_from_degrees`).
    pub fn from_degrees(deg: u32) -> (r: Rotation)
        ensures
            r == Self::spec_from_degrees(deg as nat),
    {
        let q = ((deg % 360) + 45) / 90;
        if q == 1 {
            Rotation::D90
        } else if q == 2 {
            Rotation::D180
        } else if q == 3 {
            Rotation::D270
        } else {
            Rotation::D0
        }
    }

    /// Degrees of clockwise rotation: 0, 90, 180 or 270.
    pub fn to_degrees(self) -> (r: u32)
        ensures
            r as nat == self.spec_degrees(),
    {
        match self {
            Rotation::D0 => 0,
            Rotation::D90 => 90,
            Rotation::D180 => 180,
            Rotation::D270 => 270,
        }
    }

    /// True for the zero rotation.
    pub fn is_zero(&self) -> (r: bool)
        ensures
            r == (*self == Rotation::D0),
    {
        match self {
            Rotation::D0 => true,
            _ => false,
        }
    }

    /// The rotation after turning a further 90 degrees clockwise.
    pub fn rotate_clockwise(self) -> (r: Rotation)
        ensures
            r.spec_degrees() == (self.spec_degrees() + 90) % 360,
    {
        match self {
            Rotation::D0 => Rotation::D90,
            Rotation::D90 => Rotation::D180,
            Rotation::D180 => Rotation::D270,
            Rotation::D270 => Rotation::D0,
        }
    }

    /// The rotation after turning 90 degrees counter-clockwise.
    pub fn rotate_counter_clockwise(self) -> (r: Rotation)
        ensures
            r.spec_degrees() == (self.spec_degrees() + 270) % 360,
    {
        match self {
            Rotation::D0 => Rotation::D270,
            Rotation::D90 => Rotation::D0,
            Rotation::D180 => Rotation::D90,
            Rotation::D270 => Rotation::D180,
        }
    }
}

/// A rotation is determined by its degree count.
pub proof fn lemma_rotation_degrees_injective(a: Rotation, b: Rotation)
    requires
        a.spec_degrees() == b.spec_degrees(),
    ensures
        a == b,
{
}

/// Converting a rotation to degrees and back gives the same rotation.
pub proof fn lemma_rotation_degrees_roundtrip(r: Rotation)
    ensures
        Rotation::spec_from_degrees(r.spec_degrees()) == r,
{
}

/// A degree count gives the same rotation as its remainder modulo 360, and
/// every count within 45 degrees below or 44 above a multiple of 90 gives the
/// rotation of that multiple.
pub proof fn lemma_from_degrees_rounds(deg: nat, r: Rotation)
    requires
        r.spec_degrees() <= deg % 360 + 45 < r.spec_degrees() + 90
            || (r == Rotation::D0 && deg % 360 >= 315),
    ensures
        Rotation::spec_from_degrees(deg) == Rotation::spec_from_degrees(deg % 360),
        Rotation::spec_from_degrees(deg) == r,
{
}

/// A viewport pan offset in image pixels.
#[derive(Debug, Clone, Copy, PartialEq, Eq, Structural)]
pub struct PanOffset {
    pub x: i64,
    pub y: i64,
}

/// Clamps `v` into [-m, m] for a non-negative `m`.
pub open spec fn clamp_symmetric(v: int, m: int) -> int {
    if v < -m {
        -m
    } else if v > m {
        m
    } else {
        v
    }
}

impl PanOffset {
    /// Zero pan offset.
    pub fn zero() -> (r: PanOffset)
        ensures
            r.x == 0 && r.y == 0,
    {
        PanOffset { x: 0, y: 0 }
    }

    /// Builds an offset from its coordinates.
    pub fn new(x: i64, y: i64) -> (r: PanOffset)
        ensures
            r.x == x && r.y == y,
    {
        PanOffset { x, y }
    }

    /// Keeps the offset within half the image size on each axis.
    pub fn clamp(&mut self, img_width: u32, img_height: u32)
        ensures
            final(self).x == clamp_symmetric(old(self).x as int, img_width as int / 2),
            final(self).y == clamp_symmetric(old(self).y as int, img_height as int / 2),
    {
        let max_pan_x: i64 = img_width as i64 / 2;
        let max_pan_y: i64 = img_height as i64 / 2;
        if self.x < -max_pan_x {
            self.x = -max_pan_x;
        } else if self.x > max_pan_x {
            self.x = max_pan_x;
        }
        if self.y < -max_pan_y {
            self.y = -max_pan_y;
        } else if self.y > max_pan_y {
            self.y = max_pan_y;
        }
    }
}

/// The offset after a step of `step` pixels in `dir`, kept within half the
/// image size on each axis.
pub open spec fn spec_panned(o: PanOffset, dir: PanDirection, step: int, img_width: int, img_height: int) -> (int, int) {
    let (dx, dy) = match dir {
        PanDirection::Left => (-step, 0int),
        PanDirection::Right => (step, 0int),
        PanDirection::Up => (0int, -step),
        PanDirection::Down => (0int, step),
    };
    (clamp_symmetric(o.x + dx, img_width / 2), clamp_symmetric(o.y + dy, img_height / 2))
}

/// Clamps a wide value into [-m, m].
fn clamp_wide(v: i128, m: i128) -> (r: i64)
    requires
        0 <= m <= u32::MAX,
    ensures
        r == clamp_symmetric(v as int, m as int),
{
    if v < -m {
        (-m) as i64
    } else if v > m {
        m as i64
    } else {
        v as i64
    }
}

impl PanOffset {
    /// Moves the offset by `step` pixels in `dir`, without overflow, and keeps
    /// it within half the image size on each axis.
    pub fn pan(&mut self, dir: PanDirection, step: i64, img_width: u32, img_height: u32)
        ensures
            (final(self).x as int, final(self).y as int)
                == spec_panned(*old(self), dir, step as int, img_width as int, img_height as int),
    {
        let s: i128 = step as i128;
        let (dx, dy): (i128, i128) = match dir {
            PanDirection::Left => (-s, 0),
            PanDirection::Right => (s, 0),
            PanDirection::Up => (0, -s),
            PanDirection::Down => (0, s),
        };
        let mx: i128 = (img_width / 2) as i128;
        let my: i128 = (img_height / 2) as i128;
        self.x = clamp_wide(self.x as i128 + dx, mx);
        self.y = clamp_wide(self.y as i128 + dy, my);
    }
}

/// Clamping a pan offset twice gives the same result as clamping it once.
pub proof fn lemma_pan_clamp_idempotent(v: int, m: int)
    requires
        m >= 0,
    ensures
        clamp_symmetric(clamp_symmetric(v, m), m) == clamp_symmetric(v, m),
        -m <= clamp_symmetric(v, m) <= m,
{
}

/// A crop window in image space; it may extend past the image bounds.
#[derive(Debug, Clone, Copy, PartialEq, Eq, Structural)]
pub struct CropBox {
    pub x1: i64,
    pub y1: i64,
    pub x2: i64,
    pub y2: i64,
}

pub open spec fn spec_min(a: int, b: int) -> int {
    if a <= b {
        a
    } else {
        b
    }
}

pub open spec fn spec_max(a: int, b: int) -> int {
    if a <= b {
        b
    } else {
        a
    }
}

impl CropBox {
    /// Builds a crop box from two corners, ordering them so that x1 <= x2 and y1 <= y2.
    pub fn new(x1: i64, y1: i64, x2: i64, y2: i64) -> (r: CropBox)
        ensures
            r.x1 == spec_min(x1 as int, x2 as int),
            r.x2 == spec_max(x1 as int, x2 as int),
            r.y1 == spec_min(y1 as int, y2 as int),
            r.y2 == spec_max(y1 as int, y2 as int),
    {
        CropBox {
            x1: if x1 <= x2 { x1 } else { x2 },
            y1: if y1 <= y2 { y1 } else { y2 },
            x2: if x1 <= x2 { x2 } else { x1 },
            y2: if y1 <= y2 { y2 } else { y1 },
        }
    }

    /// Width of the box.
    pub fn width(&self) -> (r: u64)
        requires
            self.x1 <= self.x2,
            self.x2 - self.x1 <= i64::MAX,
        ensures
            r == self.x2 - self.x1,
    {
        (self.x2 - self.x1) as u64
    }

    /// Height of the box.
    pub fn height(&self) -> (r: u64)
        requires
            self.y1 <= self.y2,
            self.y2 - self.y1 <= i64::MAX,
        ensures
            r == self.y2 - self.y1,
    {
        (self.y2 - self.y1) as u64
    }
}

/// The visible intersection of a crop box with the image.
#[derive(Debug, Clone, Copy, PartialEq, Eq, Structural)]
pub struct ImageIntersection {
    pub x1: u32,
    pub y1: u32,
    pub x2: u32,
    pub y2: u32,
}

impl ImageIntersection {
    /// Builds an intersection from two corners, ordering them so that x1 <= x2 and y1 <= y2.
    pub fn new(x1: u32, y1: u32, x2: u32, y2: u32) -> (r: ImageIntersection)
        ensures
            r.x1 == spec_min(x1 as int, x2 as int),
            r.x2 == spec_max(x1 as int, x2 as int),
            r.y1 == spec_min(y1 as int, y2 as int),
            r.y2 == spec_max(y1 as int, y2 as int),
    {
        ImageIntersection {
            x1: if x1 <= x2 { x1 } else { x2 },
            y1: if y1 <= y2 { y1 } else { y2 },
            x2: if x1 <= x2 { x2 } else { x1 },
            y2: if y1 <= y2 { y2 } else { y1 },
        }
    }

    /// Width of the intersection.
    pub fn width(&self) -> (r: u32)
        requires
            self.x1 <= self.x2,
        ensures
            r == self.x2 - self.x1,
    {
        self.x2 - self.x1
    }

    /// Height of the intersection.
    pub fn height(&self) -> (r: u32)
        requires
            self.y1 <= self.y2,
        ensures
            r == self.y2 - self.y1,
    {
        self.y2 - self.y1
    }

    /// True when the intersection covers no pixel.
    pub fn is_empty(&self) -> (r: bool)
        ensures
            r == (self.x1 >= self.x2 || self.y1 >= self.y2),
    {
        self.x1 >= self.x2 || self.y1 >= self.y2
    }
}

/// A box built by `new` has a non-negative extent on both axes, and its
/// extent is the distance between the two given corners.
pub proof fn lemma_normalized_box_extent(a: int, b: int)
    ensures
        spec_min(a, b) <= spec_max(a, b),
        spec_max(a, b) - spec_min(a, b) == if a <= b { b - a } else { a - b },
{
}

} // verus!
