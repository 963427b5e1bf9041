//! Single-precision values held by their IEEE-754 bit pattern, with the
//! operations that are exact on the pattern.

use vstd::prelude::*;
use vstd::arithmetic::power2::*;
use vstd::arithmetic::div_mod::*;

verus! {

/// The bit that carries the sign.
pub const SIGN_BIT: u32 = 0x8000_0000;

/// The magnitude of the two infinities; any larger magnitude is a NaN.
pub const INFINITY_MAGNITUDE: u32 = 0x7f80_0000;

/// The weight of the implicit leading bit of a normal significand.
pub const HIDDEN_BIT: u32 = 0x0080_0000;

/// The number of binary places below one at which every finite value is an
/// integer: a finite value times `2^149` is whole.
pub const SCALE_PLACES: u64 = 149;

/// A single-precision floating-point value, held by its IEEE-754 bit pattern.
///
/// Equality of two `Scalar`s is equality of patterns: it tells `0.0` from
/// `-0.0` and one NaN from another. Numeric comparison is [`Scalar::lt`].
#[derive(Clone, Copy, Debug, PartialEq, Eq, Structural)]
pub struct Scalar {
    pub bits: u32,
}

/// The pattern of `0.0`.
pub const ZERO_BITS: u32 = 0;

/// The pattern of `1.0`.
pub const ONE_BITS: u32 = 0x3f80_0000;

/// The pattern of `-1.0`.
pub const MINUS_ONE_BITS: u32 = 0xbf80_0000;

/// The pattern of `0.5`.
pub const HALF_BITS: u32 = 0x3f00_0000;

/// The pattern of `0.25`.
pub const QUARTER_BITS: u32 = 0x3e80_0000;

/// The pattern of the NaN that an invalid operation gives.
pub const DEFAULT_NAN_BITS: u32 = 0x7fc0_0000;

/// The number that a magnitude (a pattern without its sign) stands for, times
/// `2^149`. An infinity counts as `2^277`, above every finite value.
pub open spec fn scaled_magnitude(m: nat) -> nat {
    let e = m / (HIDDEN_BIT as nat);
    let f = m % (HIDDEN_BIT as nat);
    if e == 0 {
        f
    } else {
        (HIDDEN_BIT as nat + f) * pow2((e - 1) as nat)
    }
}

/// An integer cut off to the range of `usize`, as a cast from a float does.
pub open spec fn saturate(i: int) -> usize {
    if i < 0 {
        0usize
    } else if i > usize::MAX as int {
        usize::MAX
    } else {
        i as usize
    }
}

/// `2^k`, computed.
fn pow2_u128(k: u64) -> (r: u128)
    requires
        k <= 64,
    ensures
        r as nat == pow2(k as nat),
{
    let mut r: u128 = 1;
    let mut i: u64 = 0;
    proof {
        lemma2_to64();
    }
    while i < k
        invariant
            i <= k <= 64,
            r as nat == pow2(i as nat),
            pow2(64) == 0x1_0000_0000_0000_0000,
        decreases k - i,
    {
        proof {
            lemma_pow2_unfold((i + 1) as nat);
            if i < 64 {
                lemma_pow2_strictly_increases(i as nat, 64);
            }
        }
        r = r * 2;
        i = i + 1;
    }
    r
}

/// A larger magnitude stands for a larger number.
pub proof fn lemma_scaled_magnitude_increases(a: nat, b: nat)
    requires
        a < b,
    ensures
        scaled_magnitude(a) < scaled_magnitude(b),
{
    let h = HIDDEN_BIT as nat;
    let ea = a / h;
    let fa = a % h;
    let eb = b / h;
    let fb = b % h;
    lemma_fundamental_div_mod(a as int, h as int);
    lemma_fundamental_div_mod(b as int, h as int);
    assert(ea <= eb) by {
        lemma_div_is_ordered(a as int, b as int, h as int);
    }
    if ea == eb {
        assert(fa < fb);
        if ea > 0 {
            let p = pow2((ea - 1) as nat);
            lemma_pow2_pos((ea - 1) as nat);
            assert((h + fa) * p < (h + fb) * p) by (nonlinear_arith)
                requires
                    fa < fb,
                    p > 0,
            ;
        }
    } else {
        let pb = pow2((eb - 1) as nat);
        lemma_pow2_pos((eb - 1) as nat);
        assert(h * pb <= (h + fb) * pb) by (nonlinear_arith)
            requires
                pb > 0,
        ;
        if ea == 0 {
            assert(h * 1 <= h * pb) by (nonlinear_arith)
                requires
                    pb >= 1,
            ;
        } else {
            let pa = pow2((ea - 1) as nat);
            lemma_pow2_pos((ea - 1) as nat);
            lemma_pow2_unfold(ea);
            assert(pow2(ea) <= pb) by {
                if ea < eb - 1 {
                    lemma_pow2_strictly_increases(ea, (eb - 1) as nat);
                }
            }
            assert((h + fa) * pa < h * pb) by (nonlinear_arith)
                requires
                    fa < h,
                    pa > 0,
                    2 * pa <= pb,
            ;
        }
    }
}

/// Only the magnitude zero stands for the number zero.
pub proof fn lemma_scaled_magnitude_zero(m: nat)
    ensures
        scaled_magnitude(m) == 0 <==> m == 0,
{
    if m > 0 {
        lemma_scaled_magnitude_increases(0, m);
    }
}

/// The magnitude that stands for a given number times `2^149`, where one does.
pub open spec fn magnitude_for(v: nat) -> nat {
    choose|m: nat| scaled_magnitude(m) == v
}

/// No two magnitudes stand for the same number.
pub proof fn lemma_magnitude_for(m: nat)
    ensures
        magnitude_for(scaled_magnitude(m)) == m,
{
    let found = magnitude_for(scaled_magnitude(m));
    assert(scaled_magnitude(found) == scaled_magnitude(m));
    if found < m {
        lemma_scaled_magnitude_increases(found, m);
    }
    if m < found {
        lemma_scaled_magnitude_increases(m, found);
    }
}

/// The numbers that the named constants stand for.
pub proof fn lemma_constants()
    ensures
        !Scalar::zero().nan() && Scalar::zero().scaled() == 0,
        !Scalar::one().nan() && Scalar::one().scaled() == pow2(149),
        !Scalar::minus_one().nan() && Scalar::minus_one().scaled() == -(pow2(149) as int),
        !Scalar::half().nan() && Scalar::half().scaled() == pow2(148),
        !Scalar::quarter().nan() && Scalar::quarter().scaled() == pow2(147),
        Scalar::zero().below(Scalar::quarter()) && Scalar::quarter().below(Scalar::half()) && Scalar::half().below(Scalar::one()) && Scalar::minus_one().below(Scalar::zero()),
{
    lemma2_to64();
    lemma_pow2_adds(23, 126);
    lemma_pow2_adds(23, 125);
    lemma_pow2_adds(23, 124);
    assert(0x3f80_0000nat / 0x0080_0000nat == 127 && 0x3f80_0000nat % 0x0080_0000nat == 0);
    assert(0x3f00_0000nat / 0x0080_0000nat == 126 && 0x3f00_0000nat % 0x0080_0000nat == 0);
    assert(0x3e80_0000nat / 0x0080_0000nat == 125 && 0x3e80_0000nat % 0x0080_0000nat == 0);
    lemma_pow2_strictly_increases(147, 148);
    lemma_pow2_strictly_increases(148, 149);
    lemma_pow2_pos(147);
}

impl Scalar {
    /// `0.0`.
    pub open spec fn zero() -> Scalar {
        Scalar { bits: ZERO_BITS }
    }

    /// `1.0`.
    pub open spec fn one() -> Scalar {
        Scalar { bits: ONE_BITS }
    }

    /// `-1.0`.
    pub open spec fn minus_one() -> Scalar {
        Scalar { bits: MINUS_ONE_BITS }
    }

    /// `0.5`.
    pub open spec fn half() -> Scalar {
        Scalar { bits: HALF_BITS }
    }

    /// `0.25`.
    pub open spec fn quarter() -> Scalar {
        Scalar { bits: QUARTER_BITS }
    }

    /// Whether the sign bit is set.
    pub open spec fn negative(self) -> bool {
        self.bits >= SIGN_BIT
    }

    /// The pattern without its sign bit.
    pub open spec fn magnitude(self) -> nat {
        if self.bits >= SIGN_BIT {
            (self.bits - SIGN_BIT) as nat
        } else {
            self.bits as nat
        }
    }

    /// Whether the pattern is one of the NaNs.
    pub open spec fn nan(self) -> bool {
        self.magnitude() > INFINITY_MAGNITUDE
    }

    /// The number that the pattern stands for, times `2^149`; only meaningful
    /// where the pattern is no NaN.
    pub open spec fn scaled(self) -> int {
        if self.negative() {
            -(scaled_magnitude(self.magnitude()) as int)
        } else {
            scaled_magnitude(self.magnitude()) as int
        }
    }

    /// Numeric `<`: false where either side is a NaN.
    pub open spec fn below(self, other: Scalar) -> bool {
        !self.nan() && !other.nan() && self.scaled() < other.scaled()
    }

    /// Numeric `<=`: false where either side is a NaN.
    pub open spec fn at_most(self, other: Scalar) -> bool {
        !self.nan() && !other.nan() && self.scaled() <= other.scaled()
    }

    /// Whether the value is a number between `lo` and `hi`, both included.
    pub open spec fn within(self, lo: Scalar, hi: Scalar) -> bool {
        lo.at_most(self) && self.at_most(hi)
    }

    /// `self` held to the range from `lo` to `hi`; a NaN passes through.
    pub open spec fn clamped(self, lo: Scalar, hi: Scalar) -> Scalar {
        if self.below(lo) {
            lo
        } else if hi.below(self) {
            hi
        } else {
            self
        }
    }

    /// The larger of two values; of a NaN and a number, the number; of two
    /// equal values, `self`.
    pub open spec fn larger(self, other: Scalar) -> Scalar {
        if self.nan() || self.below(other) {
            other
        } else {
            self
        }
    }

    /// The smaller of two values; of a NaN and a number, the number; of two
    /// equal values, `self`.
    pub open spec fn smaller(self, other: Scalar) -> Scalar {
        if self.nan() || other.below(self) {
            other
        } else {
            self
        }
    }

    /// The value with its sign cleared.
    pub open spec fn absolute(self) -> Scalar {
        Scalar { bits: self.magnitude() as u32 }
    }

    /// The value with its sign flipped.
    pub open spec fn negated(self) -> Scalar {
        if self.bits >= SIGN_BIT {
            Scalar { bits: (self.bits - SIGN_BIT) as u32 }
        } else {
            Scalar { bits: (self.bits + SIGN_BIT) as u32 }
        }
    }

    /// The value of the given sign and magnitude.
    pub open spec fn with_sign(negative: bool, magnitude: nat) -> Scalar {
        if negative {
            Scalar { bits: (SIGN_BIT + magnitude) as u32 }
        } else {
            Scalar { bits: magnitude as u32 }
        }
    }

    /// The remainder of the value by one, with the sign of the value: what is
    /// left of it after its whole part is taken off towards zero. A NaN is
    /// kept, and an infinity gives the default NaN.
    pub open spec fn fraction(self) -> Scalar {
        if self.nan() {
            self
        } else if self.magnitude() == INFINITY_MAGNITUDE {
            Scalar { bits: DEFAULT_NAN_BITS }
        } else {
            Scalar::with_sign(
                self.negative(),
                magnitude_for(scaled_magnitude(self.magnitude()) % pow2(SCALE_PLACES as nat)),
            )
        }
    }

    /// Whether the value is a NaN or lies strictly between `-1.0` and `1.0`.
    pub open spec fn fractional(self) -> bool {
        self.nan() || scaled_magnitude(self.magnitude()) < pow2(SCALE_PLACES as nat)
    }

    /// The largest whole number not above the value times `2^shift`, cut off to
    /// the range of `usize`; zero for a NaN.
    pub open spec fn floor_shifted(self, shift: nat) -> usize {
        if self.nan() {
            0usize
        } else {
            saturate((self.scaled() * pow2(shift)) / (pow2(SCALE_PLACES as nat) as int))
        }
    }

    /// The largest whole number not above the value times `2^shift`, as a
    /// `usize`: what flooring and then casting the product gives.
    pub fn floor_to_usize(self, shift: u32) -> (r: usize)
        ensures
            r == self.floor_shifted(shift as nat),
    {
        if self.is_nan() {
            return 0;
        }
        let m: u32 = self.magnitude_bits();
        let e: u32 = m / HIDDEN_BIT;
        let f: u32 = m % HIDDEN_BIT;
        let sig: u64 = if e == 0 { f as u64 } else { HIDDEN_BIT as u64 + f as u64 };
        let power: u64 = if e == 0 { 0 } else { (e - 1) as u64 };
        let total: u64 = power + shift as u64;
        let ghost unit = pow2(SCALE_PLACES as nat) as int;
        let ghost product = sig as int * pow2(total as nat) as int;
        proof {
            lemma_pow2_pos(SCALE_PLACES as nat);
            lemma_pow2_pos(total as nat);
            lemma_pow2_pos(power as nat);
            lemma_pow2_pos(shift as nat);
            lemma_pow2_adds(power as nat, shift as nat);
            assert(scaled_magnitude(m as nat) == sig as nat * pow2(power as nat)) by {
                lemma2_to64();
                if e == 0 {
                    assert(sig as nat * pow2(0) == sig as nat) by (nonlinear_arith)
                        requires
                            pow2(0) == 1,
                    ;
                } else {
                    assert(m as nat / (HIDDEN_BIT as nat) == e as nat);
                    assert(m as nat % (HIDDEN_BIT as nat) == f as nat);
                    assert((e - 1) as nat == power as nat);
                }
            }
            assert((sig as int * pow2(power as nat) as int) * pow2(shift as nat) as int == product)
                by (nonlinear_arith)
                requires
                    pow2(total as nat) == pow2(power as nat) * pow2(shift as nat),
                    product == sig as int * pow2(total as nat) as int,
            ;
        }
        if self.is_negative() {
            proof {
                let num = self.scaled() * pow2(shift as nat);
                assert(num <= 0) by (nonlinear_arith)
                    requires
                        self.scaled() <= 0,
                        pow2(shift as nat) > 0,
                        num == self.scaled() * pow2(shift as nat),
                ;
                assert(num / unit <= 0) by (nonlinear_arith)
                    requires
                        num <= 0,
                        unit > 0,
                ;
            }
            return 0;
        }
        if sig == 0 {
            assert(product == 0) by (nonlinear_arith)
                requires
                    sig == 0,
                    product == sig as int * pow2(total as nat) as int,
            ;
            return 0;
        }
        if total >= SCALE_PLACES {
            let up: u64 = total - SCALE_PLACES;
            proof {
                lemma_pow2_adds(up as nat, SCALE_PLACES as nat);
                lemma_pow2_pos(up as nat);
                let q = sig as int * pow2(up as nat) as int;
                assert(product == q * unit) by (nonlinear_arith)
                    requires
                        product == sig as int * pow2(total as nat) as int,
                        pow2(total as nat) == pow2(up as nat) * pow2(SCALE_PLACES as nat),
                        unit == pow2(SCALE_PLACES as nat),
                        q == sig as int * pow2(up as nat) as int,
                ;
                lemma_div_by_multiple(q, unit);
            }
            if up >= 64 {
                proof {
                    lemma2_to64();
                    if up > 64 {
                        lemma_pow2_strictly_increases(64, up as nat);
                    }
                    assert(sig as int * pow2(up as nat) as int > usize::MAX as int)
                        by (nonlinear_arith)
                        requires
                            sig >= 1,
                            pow2(up as nat) >= 0x1_0000_0000_0000_0000,
                            usize::MAX < 0x1_0000_0000_0000_0000,
                    ;
                }
                return usize::MAX;
            }
            let factor: u128 = pow2_u128(up);
            proof {
                lemma2_to64();
                lemma_pow2_strictly_increases(up as nat, 64);
                assert(sig as int * factor as int <= 0x0100_0000 * 0x1_0000_0000_0000_0000)
                    by (nonlinear_arith)
                    requires
                        0 <= sig < 0x0100_0000,
                        0 <= factor < 0x1_0000_0000_0000_0000,
                ;
            }
            let wide: u128 = sig as u128 * factor;
            if wide > usize::MAX as u128 {
                usize::MAX
            } else {
                wide as usize
            }
        } else {
            let down: u64 = SCALE_PLACES - total;
            proof {
                lemma_pow2_adds(total as nat, down as nat);
                lemma_pow2_pos(down as nat);
                lemma_div_multiples_vanish_quotient(
                    pow2(total as nat) as int,
                    sig as int,
                    pow2(down as nat) as int,
                );
                assert(product == pow2(total as nat) as int * sig as int) by (nonlinear_arith)
                    requires
                        product == sig as int * pow2(total as nat) as int,
                ;
                assert(unit == pow2(total as nat) as int * pow2(down as nat) as int);
            }
            if down >= 24 {
                proof {
                    lemma2_to64();
                    if down > 24 {
                        lemma_pow2_strictly_increases(24, down as nat);
                    }
                    lemma_basic_div(sig as int, pow2(down as nat) as int);
                }
                return 0;
            }
            let divisor: u128 = pow2_u128(down);
            let q: u128 = sig as u128 / divisor;
            q as usize
        }
    }

    /// The remainder of the value by one, with the sign of the value. What
    /// comes out is a NaN or lies strictly between `-1.0` and `1.0`.
    pub fn rem_one(self) -> (r: Scalar)
        ensures
            r == self.fraction(),
            r.fractional(),
    {
        if self.is_nan() {
            return self;
        }
        let m: u32 = self.magnitude_bits();
        if m == INFINITY_MAGNITUDE {
            return Scalar { bits: DEFAULT_NAN_BITS };
        }
        let sign: u32 = if self.is_negative() { SIGN_BIT } else { 0 };
        let e: u32 = m / HIDDEN_BIT;
        let f: u32 = m % HIDDEN_BIT;
        let ghost one = pow2(SCALE_PLACES as nat);
        let ghost whole = scaled_magnitude(m as nat);
        proof {
            lemma2_to64();
            lemma_pow2_pos(SCALE_PLACES as nat);
            lemma_scaled_magnitude_zero(0);
            lemma_magnitude_for(0);
        }
        if e < 127 {
            proof {
                if e > 0 {
                    let p = pow2((e - 1) as nat);
                    lemma_pow2_pos((e - 1) as nat);
                    lemma_pow2_adds(24, 125);
                    if e - 1 < 125 {
                        lemma_pow2_strictly_increases((e - 1) as nat, 125);
                    }
                    assert((HIDDEN_BIT as nat + f as nat) * p < 0x0100_0000 * pow2(125))
                        by (nonlinear_arith)
                        requires
                            f < 0x0080_0000,
                            HIDDEN_BIT == 0x0080_0000,
                            0 < p <= pow2(125),
                    ;
                } else {
                    lemma_pow2_strictly_increases(23, 149);
                }
                lemma_small_mod(whole, one);
                lemma_magnitude_for(m as nat);
            }
            return self;
        }
        if e >= 150 {
            proof {
                let sig = HIDDEN_BIT as int + f as int;
                let up = (e - 150) as nat;
                lemma_pow2_adds(up, SCALE_PLACES as nat);
                assert(whole as int == (sig * pow2(up)) * one) by (nonlinear_arith)
                    requires
                        whole == (HIDDEN_BIT as nat + f as nat) * pow2((e - 1) as nat),
                        pow2((e - 1) as nat) == pow2(up) * one,
                        sig == HIDDEN_BIT as int + f as int,
                ;
                lemma_mod_multiples_basic(sig * pow2(up), one as int);
            }
            return Scalar { bits: sign };
        }
        let sig: u32 = HIDDEN_BIT + f;
        let k: u32 = 150 - e;
        let top: u32 = e - 1;
        proof {
            lemma_pow2_strictly_increases(k as nat, 24);
        }
        let unit: u32 = pow2_u128(k as u64) as u32;
        let first: u32 = sig % unit;
        proof {
            lemma_pow2_adds(top as nat, k as nat);
            lemma_pow2_pos(top as nat);
            lemma_truncate_middle(sig as int, pow2(top as nat) as int, unit as int);
            assert(whole as int == pow2(top as nat) as int * sig as int) by (nonlinear_arith)
                requires
                    whole == (HIDDEN_BIT as nat + f as nat) * pow2(top as nat),
                    sig == HIDDEN_BIT + f,
            ;
            assert(one as int == pow2(top as nat) as int * unit as int) by (nonlinear_arith)
                requires
                    one == pow2(top as nat) * pow2(k as nat),
                    unit as nat == pow2(k as nat),
            ;
            assert(whole % one == first as nat * pow2(top as nat)) by (nonlinear_arith)
                requires
                    (pow2(top as nat) as int * sig as int) % (pow2(top as nat) as int * unit as int)
                        == pow2(top as nat) as int * (sig as int % unit as int),
                    whole as int == pow2(top as nat) as int * sig as int,
                    one as int == pow2(top as nat) as int * unit as int,
                    first as int == sig as int % unit as int,
            ;
        }
        if first == 0 {
            assert(whole % one == 0) by (nonlinear_arith)
                requires
                    whole % one == first as nat * pow2(top as nat),
                    first == 0,
            ;
            return Scalar { bits: sign };
        }
        let mut low: u32 = first;
        let mut power: u32 = top;
        let mut steps: u32 = 0;
        proof {
            lemma_pow2_strictly_increases(k as nat, 23 + 1);
        }
        while low < HIDDEN_BIT
            invariant
                0 < low < 0x0100_0000,
                steps <= 23,
                power + steps == top,
                126 <= top <= 148,
                low as nat >= pow2(steps as nat),
                low as nat * pow2(power as nat) == first as nat * pow2(top as nat),
                pow2(23) == 0x0080_0000,
                HIDDEN_BIT == 0x0080_0000,
            decreases 23 - steps,
        {
            proof {
                lemma_pow2_unfold(power as nat);
                lemma_pow2_unfold((steps + 1) as nat);
                if steps >= 23 {
                    assert(false);
                }
                assert((low as nat * 2) * pow2((power - 1) as nat) == low as nat * pow2(power as nat))
                    by (nonlinear_arith)
                    requires
                        pow2(power as nat) == 2 * pow2((power - 1) as nat),
                ;
            }
            low = low * 2;
            power = power - 1;
            steps = steps + 1;
        }
        let found: u32 = (power + 1) * HIDDEN_BIT + (low - HIDDEN_BIT);
        proof {
            assert(found as nat / (HIDDEN_BIT as nat) == (power + 1) as nat);
            assert(found as nat % (HIDDEN_BIT as nat) == (low - HIDDEN_BIT) as nat);
            assert(scaled_magnitude(found as nat) == low as nat * pow2(power as nat));
            lemma_magnitude_for(found as nat);
            lemma_mod_bound(whole as int, one as int);
        }
        Scalar { bits: sign + found }
    }

    /// The value with the given bit pattern.
    pub fn from_bits(bits: u32) -> (s: Scalar)
        ensures
            s.bits == bits,
    {
        Scalar { bits }
    }

    /// The bit pattern of the value.
    pub fn to_bits(self) -> (bits: u32)
        ensures
            bits == self.bits,
    {
        self.bits
    }

    /// Whether the sign bit is set; it is for `-0.0`.
    pub fn is_negative(self) -> (r: bool)
        ensures
            r == self.negative(),
    {
        self.bits >= SIGN_BIT
    }

    /// The pattern without its sign bit.
    fn magnitude_bits(self) -> (m: u32)
        ensures
            m as nat == self.magnitude(),
            m < SIGN_BIT,
    {
        if self.bits >= SIGN_BIT {
            self.bits - SIGN_BIT
        } else {
            self.bits
        }
    }

    /// Whether the value is a NaN.
    pub fn is_nan(self) -> (r: bool)
        ensures
            r == self.nan(),
    {
        self.magnitude_bits() > INFINITY_MAGNITUDE
    }

    /// Numeric `<`.
    pub fn lt(self, other: Scalar) -> (r: bool)
        ensures
            r == self.below(other),
    {
        if self.is_nan() || other.is_nan() {
            return false;
        }
        let a: u32 = self.magnitude_bits();
        let b: u32 = other.magnitude_bits();
        proof {
            lemma_scaled_magnitude_zero(a as nat);
            lemma_scaled_magnitude_zero(b as nat);
            if a < b {
                lemma_scaled_magnitude_increases(a as nat, b as nat);
            }
            if b < a {
                lemma_scaled_magnitude_increases(b as nat, a as nat);
            }
        }
        if self.is_negative() {
            if other.is_negative() {
                b < a
            } else {
                a != 0 || b != 0
            }
        } else {
            if other.is_negative() {
                false
            } else {
                a < b
            }
        }
    }

    /// Numeric `<=`.
    pub fn le(self, other: Scalar) -> (r: bool)
        ensures
            r == self.at_most(other),
    {
        if self.is_nan() || other.is_nan() {
            return false;
        }
        !other.lt(self)
    }

    /// Holds the value to the range from `lo` to `hi`.
    pub fn clamp(self, lo: Scalar, hi: Scalar) -> (r: Scalar)
        requires
            lo.at_most(hi),
        ensures
            r == self.clamped(lo, hi),
            !self.nan() ==> r.within(lo, hi),
            self.within(lo, hi) ==> r == self,
    {
        if self.lt(lo) {
            lo
        } else if hi.lt(self) {
            hi
        } else {
            self
        }
    }

    /// The larger of two values; of a NaN and a number, the number.
    pub fn max(self, other: Scalar) -> (r: Scalar)
        ensures
            r == self.larger(other),
            !other.nan() ==> other.at_most(r),
    {
        if self.is_nan() || self.lt(other) {
            other
        } else {
            self
        }
    }

    /// The smaller of two values; of a NaN and a number, the number.
    pub fn min(self, other: Scalar) -> (r: Scalar)
        ensures
            r == self.smaller(other),
            !other.nan() ==> r.at_most(other),
    {
        if self.is_nan() || other.lt(self) {
            other
        } else {
            self
        }
    }

    /// The value with its sign cleared.
    pub fn abs(self) -> (r: Scalar)
        ensures
            r == self.absolute(),
            !r.negative(),
            r.magnitude() == self.magnitude(),
    {
        Scalar { bits: self.magnitude_bits() }
    }

    /// The value with its sign flipped.
    pub fn neg(self) -> (r: Scalar)
        ensures
            r == self.negated(),
            r.negative() == !self.negative(),
            r.magnitude() == self.magnitude(),
            r.scaled() == -self.scaled(),
    {
        if self.bits >= SIGN_BIT {
            Scalar { bits: self.bits - SIGN_BIT }
        } else {
            Scalar { bits: self.bits + SIGN_BIT }
        }
    }
}

} // verus!
