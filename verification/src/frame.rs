#![verifier::loop_isolation(false)]

//! Audio frames and saturating fixed-point arithmetic.

use vstd::prelude::*;

verus! {

/// One whole in fixed-point: amplitudes count millionths.
pub const UNIT: i64 = 1_000_000;

/// Clips an unbounded value into the `i64` range.
pub open spec fn sat_i64(v: int) -> int {
    if v > i64::MAX {
        i64::MAX as int
    } else if v < i64::MIN {
        i64::MIN as int
    } else {
        v
    }
}

/// Saturating fixed-point addition.
pub fn sat_add(a: i64, b: i64) -> (r: i64)
    ensures
        r == sat_i64(a + b),
{
    let s: i128 = a as i128 + b as i128;
    if s > i64::MAX as i128 {
        i64::MAX
    } else if s < i64::MIN as i128 {
        i64::MIN
    } else {
        s as i64
    }
}

/// Saturating fixed-point subtraction.
pub fn sat_sub(a: i64, b: i64) -> (r: i64)
    ensures
        r == sat_i64(a - b),
{
    let s: i128 = a as i128 - b as i128;
    if s > i64::MAX as i128 {
        i64::MAX
    } else if s < i64::MIN as i128 {
        i64::MIN
    } else {
        s as i64
    }
}

/// The magnitude of a fixed-point value, as a mathematical integer.
pub open spec fn abs_int(v: int) -> int {
    if v < 0 {
        -v
    } else {
        v
    }
}

/// Fixed-point product `a * b / UNIT`, rounded toward zero and saturating.
pub open spec fn fixed_mul_spec(a: int, b: int) -> int {
    let mag = abs_int(a) * abs_int(b) / (UNIT as int);
    if (a < 0) != (b < 0) {
        sat_i64(-mag)
    } else {
        sat_i64(mag)
    }
}

/// Saturating fixed-point multiplication: `a` and `b` both count millionths.
pub fn fixed_mul(a: i64, b: i64) -> (r: i64)
    ensures
        r == fixed_mul_spec(a as int, b as int),
{
    let neg: bool = (a < 0) != (b < 0);
    let aa: i128 = if a < 0 { -(a as i128) } else { a as i128 };
    let bb: i128 = if b < 0 { -(b as i128) } else { b as i128 };
    assert(0 <= aa * bb <= 0x8000_0000_0000_0000 * 0x8000_0000_0000_0000) by (nonlinear_arith)
        requires 0 <= aa <= 0x8000_0000_0000_0000 && 0 <= bb <= 0x8000_0000_0000_0000;
    let mag: i128 = aa * bb / (UNIT as i128);
    assert(mag == abs_int(a as int) * abs_int(b as int) / (UNIT as int));
    if neg {
        if mag > -(i64::MIN as i128) {
            i64::MIN
        } else {
            -mag as i64
        }
    } else {
        if mag > i64::MAX as i128 {
            i64::MAX
        } else {
            mag as i64
        }
    }
}

/// Fixed-point quotient `a * UNIT / b`, rounded toward zero and saturating;
/// a zero divisor yields zero.
pub open spec fn fixed_div_spec(a: int, b: int) -> int {
    if b == 0 {
        0
    } else {
        let mag = abs_int(a) * (UNIT as int) / abs_int(b);
        if (a < 0) != (b < 0) {
            sat_i64(-mag)
        } else {
            sat_i64(mag)
        }
    }
}

/// Saturating fixed-point division; dividing by zero yields zero.
pub fn fixed_div(a: i64, b: i64) -> (r: i64)
    ensures
        r == fixed_div_spec(a as int, b as int),
{
    if b == 0 {
        return 0;
    }
    let neg: bool = (a < 0) != (b < 0);
    let aa: i128 = if a < 0 { -(a as i128) } else { a as i128 };
    let bb: i128 = if b < 0 { -(b as i128) } else { b as i128 };
    assert(0 <= aa * (UNIT as i128) <= 0x8000_0000_0000_0000 * 0x100000) by (nonlinear_arith)
        requires 0 <= aa <= 0x8000_0000_0000_0000;
    let mag: i128 = aa * (UNIT as i128) / bb;
    assert(mag == abs_int(a as int) * (UNIT as int) / abs_int(b as int));
    if neg {
        if mag > -(i64::MIN as i128) {
            i64::MIN
        } else {
            -mag as i64
        }
    } else {
        if mag > i64::MAX as i128 {
            i64::MAX
        } else {
            mag as i64
        }
    }
}

/// One sample of audio: one channel, or a left/right pair.
#[derive(Clone, Copy, PartialEq, Eq, Structural, Debug)]
pub enum Frame {
    Mono(i64),
    Stereo(i64, i64),
}

impl Frame {
    /// The silent frame.
    pub fn zero() -> (r: Frame)
        ensures
            r == Frame::Mono(0),
    {
        Frame::Mono(0)
    }

    /// Collapses the frame to one channel; a stereo pair becomes its mean.
    pub open spec fn spec_as_mono(self) -> int {
        match self {
            Frame::Mono(s) => s as int,
            Frame::Stereo(a, b) => (a + b) / 2,
        }
    }

    /// One-channel reading of the frame.
    pub fn as_mono(self) -> (r: i64)
        ensures
            r == self.spec_as_mono(),
    {
        match self {
            Frame::Mono(s) => s,
            Frame::Stereo(a, b) => {
                let s: i128 = a as i128 + b as i128;
                let h: i128 = if s >= 0 { s / 2 } else { -((-s + 1) / 2) };
                assert(h == (a + b) / 2) by {
                    let t = a as int + b as int;
                    if t < 0 {
                        assert(-((-t + 1) / 2) == t / 2) by (nonlinear_arith)
                            requires t < 0;
                    }
                };
                h as i64
            },
        }
    }

    /// Left/right reading of the frame; a mono sample plays on both sides.
    pub fn as_tuple(self) -> (r: (i64, i64))
        ensures
            self is Mono ==> r == (self->Mono_0, self->Mono_0),
            self is Stereo ==> r == (self->Stereo_0, self->Stereo_1),
    {
        match self {
            Frame::Mono(s) => (s, s),
            Frame::Stereo(a, b) => (a, b),
        }
    }

    /// Channel-wise saturating sum of two frames; mixing a mono frame into a
    /// stereo one adds it to both channels.
    pub open spec fn spec_add(self, rhs: Frame) -> Frame {
        match (self, rhs) {
            (Frame::Mono(a), Frame::Mono(b)) => Frame::Mono(sat_i64(a + b) as i64),
            (Frame::Mono(a), Frame::Stereo(x, y)) => Frame::Stereo(
                sat_i64(x + a) as i64,
                sat_i64(y + a) as i64,
            ),
            (Frame::Stereo(x, y), Frame::Mono(b)) => Frame::Stereo(
                sat_i64(x + b) as i64,
                sat_i64(y + b) as i64,
            ),
            (Frame::Stereo(x, y), Frame::Stereo(u, v)) => Frame::Stereo(
                sat_i64(x + u) as i64,
                sat_i64(y + v) as i64,
            ),
        }
    }

    /// Mixes another frame into this one.
    pub fn add(self, rhs: Frame) -> (r: Frame)
        ensures
            r == self.spec_add(rhs),
    {
        match (self, rhs) {
            (Frame::Mono(a), Frame::Mono(b)) => Frame::Mono(sat_add(a, b)),
            (Frame::Mono(a), Frame::Stereo(x, y)) => Frame::Stereo(
                sat_add(x, a),
                sat_add(y, a),
            ),
            (Frame::Stereo(x, y), Frame::Mono(b)) => Frame::Stereo(
                sat_add(x, b),
                sat_add(y, b),
            ),
            (Frame::Stereo(x, y), Frame::Stereo(u, v)) => Frame::Stereo(
                sat_add(x, u),
                sat_add(y, v),
            ),
        }
    }

    /// Channel-wise fixed-point scaling.
    pub open spec fn spec_scale(self, factor: int) -> Frame {
        match self {
            Frame::Mono(a) => Frame::Mono(fixed_mul_spec(a as int, factor) as i64),
            Frame::Stereo(a, b) => Frame::Stereo(
                fixed_mul_spec(a as int, factor) as i64,
                fixed_mul_spec(b as int, factor) as i64,
            ),
        }
    }

    /// Scales the frame by a fixed-point factor (`UNIT` leaves it unchanged
    /// up to rounding).
    pub fn scale(self, factor: i64) -> (r: Frame)
        ensures
            r == self.spec_scale(factor as int),
    {
        match self {
            Frame::Mono(a) => Frame::Mono(fixed_mul(a, factor)),
            Frame::Stereo(a, b) => Frame::Stereo(fixed_mul(a, factor), fixed_mul(b, factor)),
        }
    }

    /// The channel-wise sum of a batch of frames, starting from silence.
    pub open spec fn spec_mix(frames: Seq<Frame>) -> Frame
        decreases frames.len(),
    {
        if frames.len() == 0 {
            Frame::Mono(0)
        } else {
            Frame::spec_mix(frames.drop_last()).spec_add(frames.last())
        }
    }

    /// Mixes a batch of concurrent contributions into one frame.
    pub fn mix(frames: &Vec<Frame>) -> (r: Frame)
        ensures
            r == Frame::spec_mix(frames@),
    {
        let mut acc = Frame::zero();
        let mut i: usize = 0;
        while i < frames.len()
            invariant
                i <= frames.len(),
                acc == Frame::spec_mix(frames@.take(i as int)),
            decreases frames.len() - i,
        {
            acc = acc.add(frames[i]);
            i = i + 1;
            assert(frames@.take(i as int).drop_last() =~= frames@.take(i - 1));
        }
        assert(frames@.take(frames@.len() as int) =~= frames@);
        acc
    }
}

} // verus!
