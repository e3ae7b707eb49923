//! Stereo frames and the fixed-point arithmetic of the signal chain.
//!
//! Samples and gains share one representation: a signed 32-bit number
//! with 16 fractional bits, so that `UNITY` stands for 1.0. A product is
//! rounded toward zero, and a result that leaves the 32-bit range is
//! clipped to it, as a converter would.

use vstd::prelude::*;

verus! {

/// The raw value that stands for 1.0, as a sample and as a gain.
pub const UNITY: i32 = 65536;

/// The nearest value to `v` that a sample can hold.
pub open spec fn clip(v: int) -> int {
    if v < i32::MIN as int {
        i32::MIN as int
    } else if v > i32::MAX as int {
        i32::MAX as int
    } else {
        v
    }
}

/// The quotient of `p` by `UNITY`, rounded toward zero.
pub open spec fn unscale(p: int) -> int {
    if p >= 0 {
        p / (UNITY as int)
    } else {
        -((-p) / (UNITY as int))
    }
}

/// The sample `a` under the linear gain `g`.
pub open spec fn apply_gain(a: int, g: int) -> int {
    clip(unscale(a * g))
}

/// Whether the gain `g` acts on the sample `a` without rounding or
/// clipping: the product is a whole multiple of `UNITY` and the
/// quotient is in range.
pub open spec fn exact_gain(a: int, g: int) -> bool {
    &&& (a * g) % (UNITY as int) == 0
    &&& i32::MIN <= (a * g) / (UNITY as int) <= i32::MAX
}

/// Where a gain acts exactly, the result times `UNITY` is the product.
pub proof fn lemma_exact_gain(a: int, g: int)
    requires
        exact_gain(a, g),
    ensures
        apply_gain(a, g) * UNITY == a * g,
{
    let p = a * g;
    assert(p == 65536 * (p / 65536) + p % 65536) by (nonlinear_arith);
    if p < 0 {
        assert((-p) / 65536 == -(p / 65536)) by (nonlinear_arith)
            requires
                p % 65536 == 0,
        ;
    }
}

/// Clips a wide intermediate value to the range of a sample.
pub fn clip_sample(v: i128) -> (r: i32)
    ensures
        r as int == clip(v as int),
{
    if v < i32::MIN as i128 {
        i32::MIN
    } else if v > i32::MAX as i128 {
        i32::MAX
    } else {
        v as i32
    }
}

/// Multiplies one sample by one gain.
pub fn scale_sample(a: i32, g: i32) -> (r: i32)
    ensures
        r as int == apply_gain(a as int, g as int),
{
    assert(-0x4000_0000_0000_0000 < a * g <= 0x4000_0000_0000_0000) by (nonlinear_arith)
        requires
            -0x8000_0000 <= a <= 0x7fff_ffff,
            -0x8000_0000 <= g <= 0x7fff_ffff,
    ;
    let p: i64 = (a as i64) * (g as i64);
    let q: i64 = if p >= 0 {
        p / 65536
    } else {
        -((-p) / 65536)
    };
    clip_sample(q as i128)
}

/// One stereo sample pair at a single point in time.
#[derive(Clone, Copy, Debug, PartialEq, Eq, Structural)]
pub struct StereoData {
    pub left: i32,
    pub right: i32,
}

impl StereoData {
    /// The silent frame, the identity of mixing.
    pub open spec fn silent() -> StereoData {
        StereoData { left: 0, right: 0 }
    }

    /// This frame with both samples under the gain `g`.
    pub open spec fn scaled(self, g: i32) -> StereoData {
        StereoData {
            left: apply_gain(self.left as int, g as int) as i32,
            right: apply_gain(self.right as int, g as int) as i32,
        }
    }

    /// The clipped sum of this frame and `other`.
    pub open spec fn mixed(self, other: StereoData) -> StereoData {
        StereoData {
            left: clip(self.left + other.left) as i32,
            right: clip(self.right + other.right) as i32,
        }
    }

    /// Returns the silent frame.
    pub fn silence() -> (f: StereoData)
        ensures
            f == StereoData::silent(),
    {
        StereoData { left: 0, right: 0 }
    }

    /// Applies a linear gain to both samples.
    pub fn scale(self, g: i32) -> (f: StereoData)
        ensures
            f == self.scaled(g),
    {
        StereoData { left: scale_sample(self.left, g), right: scale_sample(self.right, g) }
    }

    /// Adds two frames sample by sample, clipping each sum.
    pub fn mix(self, other: StereoData) -> (f: StereoData)
        ensures
            f == self.mixed(other),
    {
        StereoData {
            left: clip_sample(self.left as i128 + other.left as i128),
            right: clip_sample(self.right as i128 + other.right as i128),
        }
    }
}

impl Default for StereoData {
    fn default() -> (f: StereoData)
        ensures
            f == StereoData::silent(),
    {
        StereoData::silence()
    }
}

/// Silence is the identity of mixing, and mixing is commutative.
pub proof fn lemma_mix_laws(a: StereoData, b: StereoData)
    ensures
        a.mixed(StereoData::silent()) == a,
        StereoData::silent().mixed(a) == a,
        a.mixed(b) == b.mixed(a),
{
}

/// The gain `UNITY` is the identity, the gain zero silences, and
/// silence stays silent under every gain.
pub proof fn lemma_gain_laws(a: StereoData, g: i32)
    ensures
        a.scaled(UNITY) == a,
        a.scaled(0) == StereoData::silent(),
        StereoData::silent().scaled(g) == StereoData::silent(),
{
    assert(a.left * 65536 / 65536 == a.left && (-(a.left * 65536)) / 65536 == -a.left)
        by (nonlinear_arith);
    assert(a.right * 65536 / 65536 == a.right && (-(a.right * 65536)) / 65536 == -a.right)
        by (nonlinear_arith);
    assert(a.left * 0 == 0 && a.right * 0 == 0 && 0 * g == 0) by (nonlinear_arith);
}

/// The exact sum of the left samples of the first `n` frames.
pub open spec fn sum_left(frames: Seq<StereoData>, n: int) -> int
    decreases n,
{
    if n <= 0 {
        0
    } else {
        sum_left(frames, n - 1) + frames[n - 1].left
    }
}

/// The exact sum of the right samples of the first `n` frames.
pub open spec fn sum_right(frames: Seq<StereoData>, n: int) -> int
    decreases n,
{
    if n <= 0 {
        0
    } else {
        sum_right(frames, n - 1) + frames[n - 1].right
    }
}

/// All of `frames` mixed into one: each side is summed exactly and
/// clipped once, so the order of the frames does not matter.
pub open spec fn mixdown(frames: Seq<StereoData>) -> StereoData {
    StereoData {
        left: clip(sum_left(frames, frames.len() as int)) as i32,
        right: clip(sum_right(frames, frames.len() as int)) as i32,
    }
}

/// A partial sum of `n` samples stays within `n` times the sample range.
pub proof fn lemma_sum_bounds(frames: Seq<StereoData>, n: int)
    requires
        0 <= n <= frames.len(),
    ensures
        -0x8000_0000 * n <= sum_left(frames, n) <= 0x7fff_ffff * n,
        -0x8000_0000 * n <= sum_right(frames, n) <= 0x7fff_ffff * n,
    decreases n,
{
    if n > 0 {
        lemma_sum_bounds(frames, n - 1);
    }
}

/// A partial sum reads only the frames it covers.
pub proof fn lemma_sum_prefix(a: Seq<StereoData>, b: Seq<StereoData>, n: int)
    requires
        0 <= n <= a.len(),
        n <= b.len(),
        forall|i: int| 0 <= i < n ==> a[i] == b[i],
    ensures
        sum_left(a, n) == sum_left(b, n),
        sum_right(a, n) == sum_right(b, n),
    decreases n,
{
    if n > 0 {
        lemma_sum_prefix(a, b, n - 1);
    }
}

/// Replacing one frame changes each sum by the difference of the two.
pub proof fn lemma_sum_update(frames: Seq<StereoData>, k: int, f: StereoData, n: int)
    requires
        0 <= k < n <= frames.len(),
    ensures
        sum_left(frames.update(k, f), n) == sum_left(frames, n) - frames[k].left + f.left,
        sum_right(frames.update(k, f), n) == sum_right(frames, n) - frames[k].right + f.right,
    decreases n,
{
    if k == n - 1 {
        lemma_sum_prefix(frames, frames.update(k, f), n - 1);
    } else {
        lemma_sum_update(frames, k, f, n - 1);
    }
}

/// Exchanging two frames leaves the mix unchanged.
pub proof fn lemma_mixdown_swap(frames: Seq<StereoData>, i: int, j: int)
    requires
        0 <= i < frames.len(),
        0 <= j < frames.len(),
    ensures
        mixdown(frames.update(i, frames[j]).update(j, frames[i])) == mixdown(frames),
{
    let n = frames.len() as int;
    let once = frames.update(i, frames[j]);
    lemma_sum_update(frames, i, frames[j], n);
    lemma_sum_update(once, j, frames[i], n);
}

} // verus!
