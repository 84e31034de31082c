//! Q16.16 fixed-point arithmetic for the neural scheduler hot path.
//!
//! Learning math stays integer-only, so the MLP runs without a soft-float
//! library. A `Fixed` holds the raw bits `v`, standing for the real `v / 65536`.
use vstd::prelude::*;

verus! {

/// Number of fractional bits.
pub const FRAC_BITS: u32 = 16;

/// Raw bits of 1.0.
pub const ONE_BITS: i32 = 65536;

/// Raw bits of 0.5.
pub const HALF_BITS: i32 = 32768;

/// Signed Q16.16 fixed-point value.
#[derive(Clone, Copy, Debug, PartialEq, Eq, Structural, PartialOrd, Ord)]
pub struct Fixed(pub i32);


/// `v` clamped into the range of `i32`.
pub open spec fn clamp_i32(v: int) -> i32 {
    if v > i32::MAX {
        i32::MAX
    } else if v < i32::MIN {
        i32::MIN
    } else {
        v as i32
    }
}

/// Absolute value that saturates at `i32::MAX` (`|i32::MIN|` does not fit).
pub open spec fn sat_abs(v: i32) -> i32 {
    clamp_i32(if v < 0 { -v } else { v as int })
}

/// Raw bits of the Q16.16 product: the full product shifted right by 16
/// (rounding toward minus infinity), then wrapped to 32 bits.
pub open spec fn mul_bits(a: i32, b: i32) -> i32 {
    ((a as int * b as int) / 65536) as i32
}

/// Integer division rounding toward zero, as Rust's `/` does.
pub open spec fn trunc_div(a: int, b: int) -> int {
    if a >= 0 {
        a / b
    } else {
        -((-a) / b)
    }
}

/// Raw bits of `sigmoid(x)`: `0.5 + 0.5 * x / (1 + |x|)` computed in Q16.16.
pub open spec fn sigmoid_bits(x: i32) -> i32 {
    let denom = clamp_i32(65536 + sat_abs(x));
    let ratio = trunc_div(x as int * 65536, denom as int) as i32;
    clamp_i32(32768 + mul_bits(32768, ratio))
}

/// Raw bits of `y * (1 - y)`.
pub open spec fn sigmoid_derivative_bits(y: i32) -> i32 {
    mul_bits(y, clamp_i32(65536 - y))
}

impl Fixed {
    /// 0.0
    pub fn zero() -> (r: Fixed)
        ensures
            r.0 == 0,
    {
        Fixed(0)
    }

    /// 1.0
    pub fn one() -> (r: Fixed)
        ensures
            r.0 == ONE_BITS,
    {
        Fixed(ONE_BITS)
    }

    /// 0.5
    pub fn half() -> (r: Fixed)
        ensures
            r.0 == HALF_BITS,
    {
        Fixed(HALF_BITS)
    }

    /// The integer `v` as a fixed-point value (`v << 16`, wrapping).
    pub fn from_i32(v: i32) -> (r: Fixed)
        ensures
            r.0 == (v as int * 65536) as i32,
            -32768 <= v < 32768 ==> r.0 == v * 65536,
    {
        assert((v << 16u32) == ((v as i64) * 65536) as i32) by (bit_vector);
        assert(-32768 <= v < 32768 ==> (v << 16u32) == v * 65536) by (bit_vector);
        Fixed(v << 16u32)
    }

    pub fn from_bits(raw: i32) -> (r: Fixed)
        ensures
            r.0 == raw,
    {
        Fixed(raw)
    }

    pub fn to_bits(self) -> (r: i32)
        ensures
            r == self.0,
    {
        self.0
    }

    pub fn saturating_add(self, rhs: Fixed) -> (r: Fixed)
        ensures
            r.0 == clamp_i32(self.0 + rhs.0),
    {
        let s: i64 = self.0 as i64 + rhs.0 as i64;
        if s > i32::MAX as i64 {
            Fixed(i32::MAX)
        } else if s < i32::MIN as i64 {
            Fixed(i32::MIN)
        } else {
            Fixed(s as i32)
        }
    }

    pub fn saturating_sub(self, rhs: Fixed) -> (r: Fixed)
        ensures
            r.0 == clamp_i32(self.0 - rhs.0),
    {
        let s: i64 = self.0 as i64 - rhs.0 as i64;
        if s > i32::MAX as i64 {
            Fixed(i32::MAX)
        } else if s < i32::MIN as i64 {
            Fixed(i32::MIN)
        } else {
            Fixed(s as i32)
        }
    }

    /// Q16.16 product: `(a * b) >> 16`, wrapped to 32 bits.
    pub fn wrapping_mul(self, rhs: Fixed) -> (r: Fixed)
        ensures
            r.0 == mul_bits(self.0, rhs.0),
    {
        let a: i64 = self.0 as i64;
        let b: i64 = rhs.0 as i64;
        assert(-0x4000_0000_0000_0000 <= a * b <= 0x4000_0000_0000_0000) by (nonlinear_arith)
            requires
                -0x8000_0000 <= a <= 0x7fff_ffff,
                -0x8000_0000 <= b <= 0x7fff_ffff,
        ;
        let prod: i64 = a * b;
        assert((prod >> 16u64) as int == (prod as int) / 65536) by (bit_vector);
        Fixed(#[verifier::truncate] ((prod >> 16u64) as i32))
    }

    pub fn abs(self) -> (r: Fixed)
        ensures
            r.0 == sat_abs(self.0),
            r.0 >= 0,
    {
        if self.0 == i32::MIN {
            Fixed(i32::MAX)
        } else if self.0 < 0 {
            Fixed(-self.0)
        } else {
            self
        }
    }

    pub fn is_negative(self) -> (r: bool)
        ensures
            r == (self.0 < 0),
    {
        self.0 < 0
    }

    pub fn max(self, other: Fixed) -> (r: Fixed)
        ensures
            r == (if self.0 >= other.0 { self } else { other }),
    {
        if self.0 >= other.0 {
            self
        } else {
            other
        }
    }

    pub fn min(self, other: Fixed) -> (r: Fixed)
        ensures
            r == (if self.0 <= other.0 { self } else { other }),
    {
        if self.0 <= other.0 {
            self
        } else {
            other
        }
    }

    /// `self.max(lo).min(hi)`: within `[lo, hi]` whenever `lo <= hi`.
    pub fn clamp(self, lo: Fixed, hi: Fixed) -> (r: Fixed)
        ensures
            r == (if self.0 >= lo.0 { self } else { lo }).min_spec(hi),
            lo.0 <= hi.0 ==> lo.0 <= r.0 <= hi.0,
            lo.0 <= self.0 <= hi.0 ==> r == self,
    {
        self.max(lo).min(hi)
    }

    pub open spec fn min_spec(self, other: Fixed) -> Fixed {
        if self.0 <= other.0 {
            self
        } else {
            other
        }
    }
}


impl core::ops::Add for Fixed {
    type Output = Fixed;

    /// Saturating addition.
    fn add(self, rhs: Fixed) -> (r: Fixed) {
        self.saturating_add(rhs)
    }
}

impl vstd::std_specs::ops::AddSpecImpl for Fixed {
    open spec fn obeys_add_spec() -> bool {
        true
    }

    open spec fn add_req(self, rhs: Fixed) -> bool {
        true
    }

    open spec fn add_spec(self, rhs: Fixed) -> Fixed {
        Fixed(clamp_i32(self.0 + rhs.0))
    }
}

impl core::ops::Sub for Fixed {
    type Output = Fixed;

    /// Saturating subtraction.
    fn sub(self, rhs: Fixed) -> (r: Fixed) {
        self.saturating_sub(rhs)
    }
}

impl vstd::std_specs::ops::SubSpecImpl for Fixed {
    open spec fn obeys_sub_spec() -> bool {
        true
    }

    open spec fn sub_req(self, rhs: Fixed) -> bool {
        true
    }

    open spec fn sub_spec(self, rhs: Fixed) -> Fixed {
        Fixed(clamp_i32(self.0 - rhs.0))
    }
}

impl core::ops::Mul for Fixed {
    type Output = Fixed;

    /// Q16.16 product, wrapping.
    fn mul(self, rhs: Fixed) -> (r: Fixed) {
        self.wrapping_mul(rhs)
    }
}

impl vstd::std_specs::ops::MulSpecImpl for Fixed {
    open spec fn obeys_mul_spec() -> bool {
        true
    }

    open spec fn mul_req(self, rhs: Fixed) -> bool {
        true
    }

    open spec fn mul_spec(self, rhs: Fixed) -> Fixed {
        Fixed(mul_bits(self.0, rhs.0))
    }
}

impl core::ops::Neg for Fixed {
    type Output = Fixed;

    /// Saturating negation.
    fn neg(self) -> (r: Fixed) {
        Fixed(if self.0 == i32::MIN { i32::MAX } else { -self.0 })
    }
}

impl vstd::std_specs::ops::NegSpecImpl for Fixed {
    open spec fn obeys_neg_spec() -> bool {
        true
    }

    open spec fn neg_req(self) -> bool {
        true
    }

    open spec fn neg_spec(self) -> Fixed {
        Fixed(clamp_i32(-self.0))
    }
}

impl core::ops::AddAssign for Fixed {
    /// Saturating in-place addition.
    fn add_assign(&mut self, rhs: Fixed)
        ensures
            final(self).0 == clamp_i32(old(self).0 + rhs.0),
    {
        *self = self.saturating_add(rhs);
    }
}

/// Fast sigmoid approximation: `0.5 + 0.5 * x / (1 + |x|)`.
pub fn sigmoid(x: Fixed) -> (r: Fixed)
    ensures
        r.0 == sigmoid_bits(x.0),
        0 <= r.0 <= ONE_BITS,
{
    let denom = Fixed(ONE_BITS).saturating_add(x.abs());
    if denom.0 == 0 {
        return Fixed(HALF_BITS);
    }
    let wide: i64 = x.0 as i64;
    let shifted: i64 = wide << 16u64;
    assert(-2147483648 <= wide <= 2147483647 ==> (wide << 16u64) == wide * 65536) by (bit_vector);
    let q: i64 = shifted / (denom.0 as i64);
    proof {
        lemma_ratio_bounds(x.0 as int, denom.0 as int);
    }
    let ratio = Fixed(q as i32);
    let half_ratio = Fixed(HALF_BITS).wrapping_mul(ratio);
    proof {
        lemma_half_mul_bounds(ratio.0);
    }
    Fixed(HALF_BITS).saturating_add(half_ratio)
}

/// Derivative surrogate `y * (1 - y)`, evaluated at the output `y = sigmoid(x)`.
pub fn sigmoid_derivative_from_output(y: Fixed) -> (r: Fixed)
    ensures
        r.0 == sigmoid_derivative_bits(y.0),
        0 <= y.0 <= ONE_BITS ==> 0 <= r.0 <= 16384,
{
    let d = y.wrapping_mul(Fixed(ONE_BITS).saturating_sub(y));
    proof {
        if 0 <= y.0 <= 65536 {
            lemma_derivative_bounds(y.0 as int);
        }
    }
    d
}

/// Multiplying by 1.0 gives back the value itself.
pub proof fn law_mul_one(x: i32)
    ensures
        mul_bits(x, ONE_BITS) == x,
{
    assert((x as int * 65536) / 65536 == x as int) by (nonlinear_arith);
}

/// The sigmoid approximation stays within [0, 1] on every input.
pub proof fn law_sigmoid_bounded(x: i32)
    ensures
        0 <= sigmoid_bits(x) <= ONE_BITS,
{
    let denom = clamp_i32(65536 + sat_abs(x));
    lemma_ratio_bounds(x as int, denom as int);
    let ratio = trunc_div(x as int * 65536, denom as int) as i32;
    lemma_half_mul_bounds(ratio);
}

/// The denominator of the sigmoid for a magnitude `a` (up to 2^31): `1 + a`,
/// saturated at `i32::MAX` raw units.
pub open spec fn sig_denom(a: int) -> int {
    if 65536 + a > i32::MAX {
        i32::MAX as int
    } else {
        65536 + a
    }
}

/// `|x| * 65536 / denominator`, the magnitude of the sigmoid's ratio term.
pub open spec fn ratio_mag(a: int) -> int {
    (a * 65536) / sig_denom(a)
}

/// Floor division is ordered across denominators when the fractions are.
proof fn lemma_div_cross(a: int, b: int, d1: int, d2: int)
    requires
        a >= 0,
        b >= 0,
        d1 > 0,
        d2 > 0,
        a * d2 <= b * d1,
    ensures
        a / d1 <= b / d2,
{
    let q1 = a / d1;
    assert(q1 * d1 <= a) by (nonlinear_arith)
        requires
            q1 == a / d1,
            d1 > 0,
            a >= 0,
    ;
    assert(q1 * d1 * d2 <= a * d2) by (nonlinear_arith)
        requires
            q1 * d1 <= a,
            d2 > 0,
    ;
    assert(q1 * d2 <= b) by (nonlinear_arith)
        requires
            q1 * d1 * d2 <= b * d1,
            d1 > 0,
    ;
    assert(q1 <= b / d2) by (nonlinear_arith)
        requires
            q1 * d2 <= b,
            d2 > 0,
    ;
}

/// The ratio term grows with the magnitude.
proof fn lemma_ratio_mag_monotone(a: int, b: int)
    requires
        0 <= a <= b <= 0x8000_0000,
    ensures
        ratio_mag(a) <= ratio_mag(b),
{
    let da = sig_denom(a);
    let db = sig_denom(b);
    assert(a * db <= b * da) by {
        if 65536 + b <= i32::MAX {
            assert(a * (65536 + b) <= b * (65536 + a)) by (nonlinear_arith)
                requires
                    0 <= a <= b,
            ;
        } else if 65536 + a > i32::MAX {
            assert(a * i32::MAX <= b * i32::MAX) by (nonlinear_arith)
                requires
                    0 <= a <= b,
            ;
        } else {
            assert(a * i32::MAX <= b * (65536 + a)) by (nonlinear_arith)
                requires
                    0 <= a,
                    65536 + a <= i32::MAX,
                    65536 + b > i32::MAX,
                    a <= b,
            ;
        }
    }
    assert((a * 65536) * db <= (b * 65536) * da) by (nonlinear_arith)
        requires
            a * db <= b * da,
    ;
    lemma_div_cross(a * 65536, b * 65536, da, db);
}

/// The signed ratio term of the sigmoid, as `ratio_mag` of the magnitude.
proof fn lemma_ratio_as_mag(x: i32)
    ensures
        x >= 0 ==> trunc_div(x as int * 65536, clamp_i32(65536 + sat_abs(x)) as int) == ratio_mag(
            x as int,
        ),
        x < 0 ==> trunc_div(x as int * 65536, clamp_i32(65536 + sat_abs(x)) as int) == -ratio_mag(
            -(x as int),
        ),
        ratio_mag(if x < 0 { -(x as int) } else { x as int }) >= 0,
{
    let a: int = if x < 0 { -(x as int) } else { x as int };
    assert(clamp_i32(65536 + sat_abs(x)) as int == sig_denom(a));
    assert(-(x as int * 65536) == a * 65536 || x >= 0);
    assert((a * 65536) / sig_denom(a) >= 0) by (nonlinear_arith)
        requires
            a >= 0,
            sig_denom(a) > 0,
    ;
}

/// Halving through the Q16.16 product with 0.5 rounds toward minus infinity.
proof fn lemma_half(q: int)
    ensures
        (32768 * q) / 65536 == q / 2,
{
    let h = q / 2;
    let e = q % 2;
    assert(q == 2 * h + e && 0 <= e < 2);
    assert(32768 * q == 65536 * h + 32768 * e);
    assert((32768 * q) / 65536 == h) by (nonlinear_arith)
        requires
            32768 * q == 65536 * h + 32768 * e,
            0 <= e < 2,
    ;
}

/// The sigmoid approximation is monotone: a larger input never gives a
/// smaller output.
pub proof fn law_sigmoid_monotone(x: i32, y: i32)
    requires
        x <= y,
    ensures
        sigmoid_bits(x) <= sigmoid_bits(y),
{
    let qx = trunc_div(x as int * 65536, clamp_i32(65536 + sat_abs(x)) as int);
    let qy = trunc_div(y as int * 65536, clamp_i32(65536 + sat_abs(y)) as int);
    lemma_ratio_as_mag(x);
    lemma_ratio_as_mag(y);
    if x >= 0 {
        lemma_ratio_mag_monotone(x as int, y as int);
    } else if y < 0 {
        lemma_ratio_mag_monotone(-(y as int), -(x as int));
    }
    assert(qx <= qy);
    lemma_ratio_bounds(x as int, clamp_i32(65536 + sat_abs(x)) as int);
    lemma_ratio_bounds(y as int, clamp_i32(65536 + sat_abs(y)) as int);
    lemma_half(qx);
    lemma_half(qy);
    assert(qx / 2 <= qy / 2) by (nonlinear_arith)
        requires
            qx <= qy,
    ;
    lemma_half_mul_bounds(qx as i32);
    lemma_half_mul_bounds(qy as i32);
}

/// Away from saturation the result is within one raw unit of the exact
/// `0.5 + 0.5 * x / (1 + |x|)`: with `d = 65536 + |x|`,
/// `|(result - 32768) * d - 32768 * x| < d`.
pub proof fn law_sigmoid_error(x: i32)
    requires
        -(i32::MAX - 65536) <= x <= i32::MAX - 65536,
    ensures
        ({
            let d: int = 65536 + (if x < 0 { -(x as int) } else { x as int });
            let r = sigmoid_bits(x) as int;
            -d < (r - 32768) * d - 32768 * (x as int) < d
        }),
{
    let a: int = if x < 0 { -(x as int) } else { x as int };
    let d: int = 65536 + a;
    assert(clamp_i32(65536 + sat_abs(x)) as int == d);
    let big: int = x as int * 65536;
    let q = trunc_div(big, d);
    lemma_ratio_bounds(x as int, d);
    lemma_half(q);
    lemma_half_mul_bounds(q as i32);
    let h = q / 2;
    let e = q % 2;
    assert(sigmoid_bits(x) as int == 32768 + h);
    assert(-d < big - q * d < d) by {
        if big >= 0 {
            assert(q == big / d);
            assert(0 <= big - q * d < d) by (nonlinear_arith)
                requires
                    q == big / d,
                    d > 0,
                    big >= 0,
            ;
        } else {
            let p = (-big) / d;
            assert(q == -p);
            assert(0 <= -big - p * d < d) by (nonlinear_arith)
                requires
                    p == (-big) / d,
                    d > 0,
                    -big > 0,
            ;
            assert(q * d == -(p * d)) by (nonlinear_arith)
                requires
                    q == -p,
            ;
        }
    }
    assert(q == 2 * h + e && 0 <= e < 2);
    assert(2 * (h * d - 32768 * (x as int)) == q * d - big - e * d) by (nonlinear_arith)
        requires
            q == 2 * h + e,
            big == x as int * 65536,
    ;
    assert(-d < h * d - 32768 * (x as int) < d) by (nonlinear_arith)
        requires
            2 * (h * d - 32768 * (x as int)) == q * d - big - e * d,
            -d < big - q * d < d,
            0 <= e < 2,
            d > 0,
    ;
}

/// `|x * 65536 / d|` is at most 65536 when `d = 65536 + |x|`, saturated.
proof fn lemma_ratio_bounds(x: int, d: int)
    requires
        i32::MIN <= x <= i32::MAX,
        d == clamp_i32(65536 + sat_abs(x as i32)),
    ensures
        d >= 65536,
        -65536 <= trunc_div(x * 65536, d) <= 65536,
{
    let ax: int = if x < 0 { -x } else { x };
    assert(d >= 65536);
    assert(ax * 65536 < d * 65537) by {
        if ax <= d {
            assert(ax * 65536 <= d * 65536) by (nonlinear_arith)
                requires
                    ax <= d,
                    ax >= 0,
            ;
        } else {
            assert(x == i32::MIN);
            assert(d == i32::MAX);
        }
    }
    assert((ax * 65536) / d <= 65536) by (nonlinear_arith)
        requires
            ax * 65536 < d * 65537,
            d > 0,
            ax >= 0,
    ;
    assert((ax * 65536) / d >= 0) by (nonlinear_arith)
        requires
            d > 0,
            ax >= 0,
    ;
    if x < 0 {
        assert(-(x * 65536) == ax * 65536);
    } else {
        assert(x * 65536 == ax * 65536);
    }
}

proof fn lemma_half_mul_bounds(q: i32)
    requires
        -65536 <= q <= 65536,
    ensures
        -32768 <= mul_bits(32768, q) <= 32768,
{
    assert(-32768 * 65536 <= 32768 * (q as int) <= 32768 * 65536) by (nonlinear_arith)
        requires
            -65536 <= q <= 65536,
    ;
    assert(-32768 <= (32768 * (q as int)) / 65536 <= 32768) by (nonlinear_arith)
        requires
            -32768 * 65536 <= 32768 * (q as int) <= 32768 * 65536,
    ;
}

proof fn lemma_derivative_bounds(y: int)
    requires
        0 <= y <= 65536,
    ensures
        0 <= (y * (65536 - y)) / 65536 <= 16384,
{
    assert(0 <= y * (65536 - y) <= 1073741824) by (nonlinear_arith)
        requires
            0 <= y <= 65536,
    ;
}

} // verus!
