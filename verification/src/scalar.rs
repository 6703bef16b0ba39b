//! Numbers with a fractional part, as scripts hold them.
//!
//! A script number that is not an integer is an IEEE 754 double.  The core
//! never computes with doubles in floating point; it keeps the 64-bit pattern,
//! hands it on unchanged, and where it needs the number's value it decodes the
//! pattern with integer arithmetic.

use vstd::prelude::*;
use vstd::arithmetic::div_mod::lemma_basic_div;
use vstd::arithmetic::div_mod::lemma_div_by_multiple;
use vstd::arithmetic::div_mod::lemma_mod_multiples_basic;
use vstd::arithmetic::div_mod::lemma_small_mod;
use vstd::arithmetic::power2::lemma2_to64;
use vstd::arithmetic::power2::lemma2_to64_rest;
use vstd::arithmetic::power2::lemma_pow2_adds;
use vstd::arithmetic::power2::lemma_pow2_pos;
use vstd::arithmetic::power2::lemma_pow2_strictly_increases;
use vstd::arithmetic::power2::lemma_pow2_unfold;
use vstd::arithmetic::power2::pow2;
use vstd::bits::lemma_u64_pow2_no_overflow;
use vstd::bits::lemma_u64_shl_is_mul;

verus! {

/// An IEEE 754 double, held as its bit pattern.
#[derive(Debug, Clone, Copy, PartialEq, Eq, Structural)]
pub struct Scalar {
    pub bits: u64,
}

/// The pattern of `0.0`.
pub const ZERO_BITS: u64 = 0;

/// The pattern of `1.0`.
pub const ONE_BITS: u64 = 0x3FF0_0000_0000_0000;

/// Two to the power 52: the weight of the hidden bit of a normal number.
pub const HIDDEN_BIT: u64 = 0x10_0000_0000_0000;

/// Two to the power 53: integers of smaller magnitude are numbers exactly.
pub const EXACT_LIMIT: u64 = 0x20_0000_0000_0000;

/// Two to the power 24: a single-precision significand is below it.
pub const SINGLE_LIMIT: u64 = 0x100_0000;

/// `v` held to the range of an `i32`.
pub open spec fn clamped_i32(v: int) -> int {
    if v < i32::MIN {
        i32::MIN as int
    } else if v > i32::MAX {
        i32::MAX as int
    } else {
        v
    }
}

/// The place of the highest set bit of `n`, counting from 0; 0 for 0.
pub open spec fn top_bit(n: nat) -> nat
    decreases n,
{
    if n < 2 {
        0
    } else {
        1 + top_bit(n / 2)
    }
}

/// `m * 2^e` rounded to 24 significant bits, a tie going to the even neighbour: a
/// significand of at most two to the power 24, and its exponent.
pub open spec fn round24(m: nat, e: int) -> (nat, int) {
    if m < SINGLE_LIMIT {
        (m, e)
    } else {
        let k = (top_bit(m) - 23) as nat;
        let q = m / pow2(k);
        let r = m % pow2(k);
        let half = pow2((k - 1) as nat);
        if r > half || (r == half && q % 2 == 1) {
            (q + 1, e + k)
        } else {
            (q, e + k)
        }
    }
}

/// `m * 2^e` rounded down to an integer.
pub open spec fn floor_of(m: nat, e: int) -> nat {
    if e >= 0 {
        m * pow2(e as nat)
    } else {
        m / pow2((-e) as nat)
    }
}

/// The integer `v` as single precision holds it: rounded to 24 significant bits, a tie
/// going to the even neighbour.
pub open spec fn single(v: int) -> int {
    let n = if v < 0 {
        (-v) as nat
    } else {
        v as nat
    };
    let r = round24(n, 0);
    if v < 0 {
        -(floor_of(r.0, r.1) as int)
    } else {
        floor_of(r.0, r.1) as int
    }
}

/// A number is no smaller than two to the power of its top bit and smaller than twice
/// that.
pub proof fn lemma_top_bit(n: nat)
    requires
        n > 0,
    ensures
        pow2(top_bit(n)) <= n < 2 * pow2(top_bit(n)),
    decreases n,
{
    if n < 2 {
        lemma2_to64();
    } else {
        lemma_top_bit(n / 2);
        lemma_pow2_unfold(top_bit(n));
    }
}

/// Two to the power `k`.
fn power_of_two(k: u64) -> (d: u64)
    requires
        k < 63,
    ensures
        d == pow2(k as nat),
        d >= 1,
{
    proof {
        lemma_u64_pow2_no_overflow(k as nat);
        lemma_u64_shl_is_mul(1, k);
    }
    1u64 << k
}

/// The place of the highest set bit of `n`.
fn top_bit_of(n: u64) -> (h: u64)
    requires
        n >= 1,
    ensures
        h == top_bit(n as nat),
        h < 64,
        pow2(h as nat) <= n < 2 * pow2(h as nat),
{
    let mut m: u64 = n;
    let mut h: u64 = 0;
    proof {
        lemma2_to64();
    }
    while m >= 2
        invariant
            1 <= m <= n,
            h < 64,
            top_bit(n as nat) == h + top_bit(m as nat),
            m * pow2(h as nat) <= n,
        decreases m,
    {
        proof {
            lemma_pow2_unfold((h + 1) as nat);
            lemma2_to64();
            let half = (m / 2) as int;
            let w = pow2(h as nat) as int;
            assert(half * (2 * w) <= m * w) by (nonlinear_arith)
                requires
                    2 * half <= m,
                    w >= 0,
            ;
            if h == 63 {
                assert(half * (2 * w) >= 2 * w) by (nonlinear_arith)
                    requires
                        half >= 1,
                        w >= 0,
                ;
            }
        }
        m = m / 2;
        h = h + 1;
    }
    proof {
        lemma_top_bit(n as nat);
    }
    h
}

/// `m * 2^e` rounded to 24 significant bits.
fn round_24(m: u64, e: i64) -> (r: (u64, i64))
    requires
        m < 0x40_0000_0000_0000,
        -4000 <= e <= 4000,
    ensures
        (r.0 as nat, r.1 as int) == round24(m as nat, e as int),
        r.0 <= SINGLE_LIMIT,
        e <= r.1 <= e + 31,
        m > 0 ==> r.0 > 0,
{
    if m < SINGLE_LIMIT {
        return (m, e);
    }
    let h = top_bit_of(m);
    proof {
        lemma2_to64();
        lemma2_to64_rest();
        if h < 24 {
            lemma_pow2_strictly_increases((h + 1) as nat, 25);
            lemma_pow2_unfold((h + 1) as nat);
        }
        if h >= 54 {
            if h > 54 {
                lemma_pow2_strictly_increases(54, h as nat);
            }
        }
    }
    let k: u64 = h - 23;
    let d = power_of_two(k);
    let half = power_of_two(k - 1);
    let q = m / d;
    let r = m % d;
    proof {
        lemma_pow2_adds(23, k as nat);
        lemma_pow2_unfold(k as nat);
        let w = pow2(h as nat) as int;
        assert(w == 0x80_0000 * d);
        assert(q >= 0x80_0000 && q < 0x100_0000) by (nonlinear_arith)
            requires
                q == m / d,
                d > 0,
                0x80_0000 * d <= m < 2 * (0x80_0000 * d),
        ;
    }
    if r > half || (r == half && q % 2 == 1) {
        (q + 1, e + k as i64)
    } else {
        (q, e + k as i64)
    }
}

/// The integer `v` as single precision holds it.
pub fn to_single(v: i64) -> (r: i64)
    requires
        -0x2_0000_0000 <= v <= 0x2_0000_0000,
    ensures
        r == single(v as int),
        -0x2_0000_0000 <= r <= 0x2_0000_0000,
        -0x8000_0000 <= v <= 0x8000_0000 ==> -0x8000_0000 <= r <= 0x8000_0000,
{
    let n: u64 = if v < 0 {
        (-v) as u64
    } else {
        v as u64
    };
    let rounded = round_24(n, 0);
    let d = power_of_two(rounded.1 as u64);
    proof {
        lemma2_to64();
        lemma2_to64_rest();
        if rounded.1 < 31 {
            lemma_pow2_strictly_increases(rounded.1 as nat, 31);
        }
        assert(rounded.0 * d <= 0x100_0000 * 0x8000_0000) by (nonlinear_arith)
            requires
                rounded.0 <= 0x100_0000,
                d <= 0x8000_0000,
        ;
        lemma_single_bound(n as nat, 33);
        if n <= 0x8000_0000 {
            lemma_single_bound(n as nat, 31);
        }
    }
    let magnitude: u64 = rounded.0 * d;
    if v < 0 {
        -(magnitude as i64)
    } else {
        magnitude as i64
    }
}

/// Rounding to single precision does not carry an integer past a power of two.
pub proof fn lemma_single_bound(n: nat, b: nat)
    requires
        24 <= b <= 40,
        n <= pow2(b),
    ensures
        floor_of(round24(n, 0).0, round24(n, 0).1) <= pow2(b),
{
    lemma2_to64();
    lemma2_to64_rest();
    if n >= SINGLE_LIMIT {
        let h = top_bit(n);
        lemma_top_bit(n);
        if h < 24 {
            lemma_pow2_strictly_increases(h + 1, 25);
            lemma_pow2_unfold(h + 1);
        }
        if h > b {
            lemma_pow2_strictly_increases(b, h);
        }
        let k = (h - 23) as nat;
        lemma_pow2_adds(23, k);
        lemma_pow2_adds(k, (b - k) as nat);
        let d = pow2(k) as int;
        let q = (n / pow2(k)) as int;
        let top = pow2((b - k) as nat) as int;
        assert(top * d == pow2(b)) by (nonlinear_arith)
            requires
                d * top == pow2(b),
        ;
        lemma_pow2_pos(k);
        assert(q <= top) by (nonlinear_arith)
            requires
                q == n / (d as nat),
                d > 0,
                n <= top * d,
        ;
        if q == top {
            assert(n % (d as nat) == 0) by (nonlinear_arith)
                requires
                    q == n / (d as nat),
                    q == top,
                    d > 0,
                    n <= top * d,
            ;
            lemma_pow2_pos((k - 1) as nat);
        }
        let r = round24(n, 0);
        assert(r.0 <= top);
        assert(r.0 * d <= top * d) by (nonlinear_arith)
            requires
                r.0 <= top,
                d >= 0,
        ;
    } else {
        assert(n * pow2(0) == n) by (nonlinear_arith)
            requires
                pow2(0) == 1,
        ;
    }
}

impl Scalar {
    /// The number with the given bit pattern.
    pub fn from_bits(bits: u64) -> (r: Scalar)
        ensures
            r.bits == bits,
    {
        Scalar { bits }
    }

    /// The bit pattern.
    pub fn to_bits(&self) -> (b: u64)
        ensures
            b == self.bits,
    {
        self.bits
    }

    /// `0.0`.
    pub fn zero() -> (r: Scalar)
        ensures
            r.bits == ZERO_BITS,
    {
        Scalar { bits: ZERO_BITS }
    }

    /// `1.0`.
    pub fn one() -> (r: Scalar)
        ensures
            r.bits == ONE_BITS,
    {
        Scalar { bits: ONE_BITS }
    }

    /// Whether the sign bit is set.
    pub open spec fn negative(self) -> bool {
        self.bits >= 0x8000_0000_0000_0000
    }

    /// The eleven exponent bits.
    pub open spec fn exponent_field(self) -> nat {
        ((self.bits / HIDDEN_BIT) % 0x800) as nat
    }

    /// The 52 fraction bits.
    pub open spec fn fraction(self) -> nat {
        (self.bits % HIDDEN_BIT) as nat
    }

    /// Whether the number is no number at all.
    pub open spec fn is_nan(self) -> bool {
        self.exponent_field() == 0x7ff && self.fraction() != 0
    }

    /// Whether the number is no number at all.
    pub fn nan(&self) -> (b: bool)
        ensures
            b == self.is_nan(),
    {
        (self.bits / HIDDEN_BIT) % 0x800 == 0x7ff && self.bits % HIDDEN_BIT != 0
    }

    /// Whether the number is one of the two infinities.
    pub open spec fn is_infinite(self) -> bool {
        self.exponent_field() == 0x7ff && self.fraction() == 0
    }

    /// The significand of a finite number: its magnitude is `significand * 2^exponent`.
    pub open spec fn significand(self) -> nat {
        if self.exponent_field() == 0 {
            self.fraction()
        } else {
            HIDDEN_BIT as nat + self.fraction()
        }
    }

    /// The exponent of a finite number, see [`Scalar::significand`].
    pub open spec fn exponent(self) -> int {
        if self.exponent_field() == 0 {
            -1074
        } else {
            self.exponent_field() - 1075
        }
    }

    /// `magnitude` with the sign of the number.
    pub open spec fn signed(self, magnitude: nat) -> int {
        if self.negative() {
            -(magnitude as int)
        } else {
            magnitude as int
        }
    }

    /// The magnitude of `n` times a finite number as single-precision arithmetic gives
    /// it, rounded down to an integer: both factors are rounded to 24 significant bits,
    /// and so is their product.
    pub open spec fn single_product(self, n: nat) -> nat {
        let a = round24(n, 0);
        let b = round24(self.significand(), self.exponent());
        let p = round24(a.0 * b.0, a.1 + b.1);
        floor_of(p.0, p.1)
    }

    /// `x` scaled by the number: their product in single precision, rounded toward zero
    /// and held to the range of an `i32`.  Scaling by what is no number gives 0, and so
    /// does scaling 0 by an infinity.
    pub open spec fn scaled(self, x: int) -> int {
        let n = if x < 0 {
            (-x) as nat
        } else {
            x as nat
        };
        if self.is_nan() {
            0
        } else if self.is_infinite() {
            if x == 0 {
                0
            } else if (x < 0) != self.negative() {
                i32::MIN as int
            } else {
                i32::MAX as int
            }
        } else if (x < 0) != self.negative() {
            clamped_i32(-(self.single_product(n) as int))
        } else {
            clamped_i32(self.single_product(n) as int)
        }
    }

    /// `x` scaled by the number.
    pub fn scale_i32(&self, x: i32) -> (r: i32)
        ensures
            r == self.scaled(x as int),
    {
        let field: u64 = (self.bits / HIDDEN_BIT) % 0x800;
        let fraction: u64 = self.bits % HIDDEN_BIT;
        let negative: bool = self.bits >= 0x8000_0000_0000_0000;
        let down: bool = (x < 0) != negative;
        if field == 0x7ff {
            return if fraction != 0 || x == 0 {
                0
            } else if down {
                i32::MIN
            } else {
                i32::MAX
            };
        }
        let n: u64 = if x < 0 {
            (-(x as i64)) as u64
        } else {
            x as u64
        };
        let significand: u64 = if field == 0 {
            fraction
        } else {
            HIDDEN_BIT + fraction
        };
        let exponent: i64 = if field == 0 {
            -1074
        } else {
            field as i64 - 1075
        };
        let a = round_24(n, 0);
        let b = round_24(significand, exponent);
        assert(a.0 * b.0 <= 0x100_0000 * 0x100_0000) by (nonlinear_arith)
            requires
                a.0 <= 0x100_0000,
                b.0 <= 0x100_0000,
        ;
        let p = round_24(a.0 * b.0, a.1 + b.1);
        let magnitude: u64 = if p.0 == 0 {
            proof {
                if p.1 < 0 {
                    lemma_pow2_pos((-p.1) as nat);
                    lemma_basic_div(0, pow2((-p.1) as nat) as int);
                } else {
                    assert(0 * pow2(p.1 as nat) == 0) by (nonlinear_arith);
                }
            }
            0
        } else if p.1 >= 0 {
            if p.1 >= 32 {
                proof {
                    lemma2_to64();
                    if p.1 > 32 {
                        lemma_pow2_strictly_increases(32, p.1 as nat);
                    }
                    let w = pow2(p.1 as nat) as int;
                    assert(p.0 * w >= 0x1_0000_0000) by (nonlinear_arith)
                        requires
                            p.0 >= 1,
                            w >= 0x1_0000_0000,
                    ;
                }
                0x8000_0000
            } else {
                let d = power_of_two(p.1 as u64);
                proof {
                    lemma2_to64();
                    if p.1 < 31 {
                        lemma_pow2_strictly_increases(p.1 as nat, 31);
                    }
                    assert(p.0 * d <= 0x100_0000 * 0x8000_0000) by (nonlinear_arith)
                        requires
                            p.0 <= 0x100_0000,
                            d <= 0x8000_0000,
                    ;
                }
                let v = p.0 * d;
                if v > 0x8000_0000 {
                    0x8000_0000
                } else {
                    v
                }
            }
        } else {
            if p.1 <= -25 {
                proof {
                    lemma2_to64();
                    if p.1 < -25 {
                        lemma_pow2_strictly_increases(25, (-p.1) as nat);
                    }
                    lemma_basic_div(p.0 as int, pow2((-p.1) as nat) as int);
                }
                0
            } else {
                p.0 / power_of_two((-p.1) as u64)
            }
        };
        assert(magnitude == self.single_product(n as nat) || (magnitude == 0x8000_0000
            && self.single_product(n as nat) >= 0x8000_0000));
        if down {
            if magnitude >= 0x8000_0000 {
                i32::MIN
            } else {
                -(magnitude as i32)
            }
        } else {
            if magnitude > 0x7fff_ffff {
                i32::MAX
            } else {
                magnitude as i32
            }
        }
    }

    /// The integer that the number is, if it is finite and has no fractional part.
    pub open spec fn whole(self) -> Option<int> {
        if self.exponent_field() == 0x7ff {
            None
        } else if self.exponent() >= 0 {
            Some(self.signed(self.significand() * pow2(self.exponent() as nat)))
        } else if self.significand() % pow2((-self.exponent()) as nat) == 0 {
            Some(self.signed(self.significand() / pow2((-self.exponent()) as nat)))
        } else {
            None
        }
    }

    /// The integer that the number is, if it is one that an `i64` holds.
    pub open spec fn integer(self) -> Option<i64> {
        match self.whole() {
            Some(w) => if i64::MIN <= w <= i64::MAX {
                Some(w as i64)
            } else {
                None
            },
            None => None,
        }
    }

    /// The number that an integer is, where its magnitude is below two to the power 53,
    /// so that it is a number exactly.
    pub open spec fn of_integer(i: int) -> Option<Scalar> {
        let n = if i < 0 {
            (-i) as nat
        } else {
            i as nat
        };
        if i == 0 {
            Some(Scalar { bits: 0 })
        } else if n >= EXACT_LIMIT {
            None
        } else {
            let h = top_bit(n);
            let sign: nat = if i < 0 {
                0x8000_0000_0000_0000
            } else {
                0
            };
            Some(
                Scalar {
                    bits: (sign + (1023 + h) * HIDDEN_BIT + (n * pow2((52 - h) as nat)
                        - HIDDEN_BIT)) as u64,
                },
            )
        }
    }

    /// The integer that the number is, if it is one that an `i64` holds.
    pub fn to_integer(&self) -> (r: Option<i64>)
        ensures
            r == self.integer(),
    {
        let field: u64 = (self.bits / HIDDEN_BIT) % 0x800;
        let fraction: u64 = self.bits % HIDDEN_BIT;
        let negative: bool = self.bits >= 0x8000_0000_0000_0000;
        if field == 0x7ff {
            return None;
        }
        let significand: u64 = if field == 0 {
            fraction
        } else {
            HIDDEN_BIT + fraction
        };
        if field >= 1075 {
            let e: u64 = field - 1075;
            if e <= 10 {
                let d = power_of_two(e);
                proof {
                    lemma2_to64();
                    if e < 10 {
                        lemma_pow2_strictly_increases(e as nat, 10);
                    }
                    assert(significand * d < 0x8000_0000_0000_0000) by (nonlinear_arith)
                        requires
                            significand < 0x20_0000_0000_0000,
                            d <= 1024,
                    ;
                }
                let magnitude: u64 = significand * d;
                if negative {
                    Some(-(magnitude as i64))
                } else {
                    Some(magnitude as i64)
                }
            } else {
                proof {
                    lemma2_to64();
                    if e > 11 {
                        lemma_pow2_strictly_increases(11, e as nat);
                    }
                    let w = pow2(e as nat);
                    assert(significand * w >= 0x8000_0000_0000_0000) by (nonlinear_arith)
                        requires
                            significand >= 0x10_0000_0000_0000,
                            w >= 2048,
                    ;
                    if e > 11 || significand > HIDDEN_BIT {
                        assert(significand * w > 0x8000_0000_0000_0000) by (nonlinear_arith)
                            requires
                                significand >= 0x10_0000_0000_0000,
                                w >= 2048,
                                w > 2048 || significand > 0x10_0000_0000_0000,
                        ;
                    } else {
                        assert(significand * w == 0x8000_0000_0000_0000) by (nonlinear_arith)
                            requires
                                significand == 0x10_0000_0000_0000,
                                w == 2048,
                        ;
                    }
                }
                if e == 11 && significand == HIDDEN_BIT && negative {
                    Some(i64::MIN)
                } else {
                    None
                }
            }
        } else {
            let k: u64 = if field == 0 {
                1074
            } else {
                1075 - field
            };
            if significand == 0 {
                proof {
                    lemma_pow2_pos(k as nat);
                    lemma_small_mod(0, pow2(k as nat));
                    lemma_basic_div(0, pow2(k as nat) as int);
                }
                return Some(0);
            }
            if k >= 53 {
                proof {
                    lemma2_to64_rest();
                    if k > 53 {
                        lemma_pow2_strictly_increases(53, k as nat);
                    }
                    lemma_small_mod(significand as nat, pow2(k as nat));
                }
                None
            } else {
                let d = power_of_two(k);
                if significand % d == 0 {
                    let magnitude: u64 = significand / d;
                    if negative {
                        Some(-(magnitude as i64))
                    } else {
                        Some(magnitude as i64)
                    }
                } else {
                    None
                }
            }
        }
    }

    /// The number that the integer `i` is, where it is a number exactly.
    pub fn from_integer(i: i64) -> (r: Option<Scalar>)
        ensures
            r == Scalar::of_integer(i as int),
    {
        if i == 0 {
            return Some(Scalar { bits: 0 });
        }
        let n: u64 = if i < 0 {
            (-(i as i128)) as u64
        } else {
            i as u64
        };
        if n >= EXACT_LIMIT {
            return None;
        }
        let h = top_bit_of(n);
        proof {
            lemma2_to64_rest();
            if h >= 53 {
                if h > 53 {
                    lemma_pow2_strictly_increases(53, h as nat);
                }
            }
            lemma_pow2_adds(h as nat, (52 - h) as nat);
        }
        let d = power_of_two(52 - h);
        proof {
            let w = pow2(h as nat) as int;
            let dd = d as int;
            assert(w * dd == 0x10_0000_0000_0000);
            assert(n * dd >= w * dd && n * dd < 2 * (w * dd)) by (nonlinear_arith)
                requires
                    w <= n < 2 * w,
                    dd >= 1,
            ;
        }
        let fraction: u64 = n * d - HIDDEN_BIT;
        let sign: u64 = if i < 0 {
            0x8000_0000_0000_0000
        } else {
            0
        };
        assert((1023 + h) * HIDDEN_BIT <= 1075 * 0x10_0000_0000_0000) by (nonlinear_arith)
            requires
                h <= 52,
        ;
        Some(Scalar { bits: sign + (1023 + h) * HIDDEN_BIT + fraction })
    }
}

/// An integer that is a number exactly is read back from that number.
pub proof fn lemma_integer_round_trip(i: i64)
    requires
        Scalar::of_integer(i as int) is Some,
    ensures
        Scalar::of_integer(i as int)->0.integer() == Some(i),
{
    let s = Scalar::of_integer(i as int)->0;
    if i != 0 {
        let n: nat = if i < 0 {
            (-i) as nat
        } else {
            i as nat
        };
        let h = top_bit(n);
        lemma_top_bit(n);
        lemma2_to64();
        lemma2_to64_rest();
        if h >= 53 {
            if h > 53 {
                lemma_pow2_strictly_increases(53, h);
            }
        }
        let k = (52 - h) as nat;
        lemma_pow2_adds(h, k);
        lemma_pow2_pos(k);
        let w = pow2(h) as int;
        let d = pow2(k) as int;
        assert(n * d >= w * d && n * d < 2 * (w * d)) by (nonlinear_arith)
            requires
                w <= n < 2 * w,
                d >= 1,
        ;
        let fraction = (n * d - HIDDEN_BIT) as nat;
        let sign: nat = if i < 0 {
            0x8000_0000_0000_0000
        } else {
            0
        };
        assert(w * d == 0x10_0000_0000_0000);
        assert((1023 + h) * HIDDEN_BIT <= 1075 * 0x10_0000_0000_0000) by (nonlinear_arith)
            requires
                h <= 52,
        ;
        assert(s.bits == sign + (1023 + h) * HIDDEN_BIT + fraction);
        assert(s.exponent_field() == 1023 + h);
        assert(s.fraction() == fraction);
        assert(s.significand() == n * d);
        lemma_mod_multiples_basic(n as int, d);
        lemma_div_by_multiple(n as int, d);
        if h == 52 {
            assert(s.significand() * pow2(0) == n) by (nonlinear_arith)
                requires
                    s.significand() == n * d,
                    d == 1,
                    pow2(0) == 1,
            ;
        }
    } else {
        lemma_pow2_pos(1074);
        lemma_small_mod(0, pow2(1074));
        lemma_basic_div(0, pow2(1074) as int);
    }
}

/// The top bit of a number between a power of two and twice that power is the exponent
/// of the power.
pub proof fn lemma_top_bit_is(n: nat, h: nat)
    requires
        pow2(h) <= n < 2 * pow2(h),
    ensures
        top_bit(n) == h,
{
    lemma_pow2_pos(h);
    lemma_top_bit(n);
    let t = top_bit(n);
    if t < h {
        lemma_pow2_unfold(t + 1);
        if t + 1 < h {
            lemma_pow2_strictly_increases(t + 1, h);
        }
    } else if t > h {
        lemma_pow2_unfold(h + 1);
        if h + 1 < t {
            lemma_pow2_strictly_increases(h + 1, t);
        }
    }
}

/// Rounding to 24 significant bits changes nothing of a number of at most 24 significant
/// bits that was shifted up: `m * 2^j * 2^e` stays `m * 2^(j + e)`.
pub proof fn lemma_round24_shifted(m: nat, j: nat, e: int)
    requires
        0 < m <= SINGLE_LIMIT,
        e + j >= 0,
    ensures
        floor_of(round24(m * pow2(j), e).0, round24(m * pow2(j), e).1) == m * pow2(
            (e + j) as nat,
        ),
{
    let big = m * pow2(j);
    let goal = m * pow2((e + j) as nat);
    lemma2_to64();
    lemma_pow2_pos(j);
    lemma_pow2_pos((e + j) as nat);
    if big < SINGLE_LIMIT {
        if e >= 0 {
            lemma_pow2_adds(j, e as nat);
            assert(big * pow2(e as nat) == goal) by (nonlinear_arith)
                requires
                    big == m * pow2(j),
                    goal == m * pow2((e + j) as nat),
                    pow2((e + j) as nat) == pow2(j) * pow2(e as nat),
            ;
        } else {
            let d = pow2((-e) as nat);
            lemma_pow2_pos((-e) as nat);
            lemma_pow2_adds((-e) as nat, (e + j) as nat);
            assert(big == goal * d) by (nonlinear_arith)
                requires
                    big == m * pow2(j),
                    goal == m * pow2((e + j) as nat),
                    pow2(j) == d * pow2((e + j) as nat),
            ;
            lemma_div_by_multiple(goal as int, d as int);
        }
    } else {
        let tm = top_bit(m);
        lemma_top_bit(m);
        if tm > 24 {
            lemma_pow2_strictly_increases(24, tm);
        }
        lemma_pow2_adds(tm, j);
        assert(pow2(tm + j) <= big < 2 * pow2(tm + j)) by (nonlinear_arith)
            requires
                pow2(tm) <= m < 2 * pow2(tm),
                big == m * pow2(j),
                pow2(tm + j) == pow2(tm) * pow2(j),
                pow2(j) > 0,
        ;
        lemma_top_bit_is(big, tm + j);
        if tm + j < 24 {
            lemma_pow2_strictly_increases(tm + j + 1, 25);
            lemma_pow2_unfold(tm + j + 1);
        }
        let k = (tm + j - 23) as nat;
        let d = pow2(k);
        lemma_pow2_pos(k);
        lemma_pow2_pos((k - 1) as nat);
        if tm <= 23 {
            let rest = (j - k) as nat;
            lemma_pow2_adds(k, rest);
            let q = m * pow2(rest);
            assert(big == q * d) by (nonlinear_arith)
                requires
                    big == m * pow2(j),
                    q == m * pow2(rest),
                    pow2(j) == d * pow2(rest),
            ;
            lemma_div_by_multiple(q as int, d as int);
            lemma_mod_multiples_basic(q as int, d as int);
            assert(round24(big, e) == (q, e + k));
            if e + k >= 0 {
                lemma_pow2_adds(rest, (e + k) as nat);
                assert(q * pow2((e + k) as nat) == goal) by (nonlinear_arith)
                    requires
                        q == m * pow2(rest),
                        goal == m * pow2((e + j) as nat),
                        pow2((e + j) as nat) == pow2(rest) * pow2((e + k) as nat),
                ;
            } else {
                let c = pow2((-(e + k)) as nat);
                lemma_pow2_pos((-(e + k)) as nat);
                lemma_pow2_adds((-(e + k)) as nat, (e + j) as nat);
                assert(q == goal * c) by (nonlinear_arith)
                    requires
                        q == m * pow2(rest),
                        goal == m * pow2((e + j) as nat),
                        pow2(rest) == c * pow2((e + j) as nat),
                ;
                lemma_div_by_multiple(goal as int, c as int);
            }
        } else {
            assert(m == SINGLE_LIMIT);
            lemma_pow2_adds(23, k);
            let q = pow2(23);
            assert(big == q * d);
            lemma_div_by_multiple(q as int, d as int);
            lemma_mod_multiples_basic(q as int, d as int);
            assert(round24(big, e) == (q, e + k));
            lemma_pow2_adds(23, (e + k) as nat);
            lemma_pow2_adds(24, (e + j) as nat);
        }
    }
}

/// Rounding to 24 significant bits leaves a significand of at most two to the power 24,
/// not zero unless the number is, and an exponent that is no smaller.
pub proof fn lemma_round24_bounds(m: nat, e: int)
    ensures
        round24(m, e).0 <= SINGLE_LIMIT,
        m > 0 ==> round24(m, e).0 > 0,
        round24(m, e).1 >= e,
{
    if m >= SINGLE_LIMIT {
        let h = top_bit(m);
        lemma_top_bit(m);
        lemma2_to64();
        if h < 24 {
            lemma_pow2_strictly_increases(h + 1, 25);
            lemma_pow2_unfold(h + 1);
        }
        let k = (h - 23) as nat;
        lemma_pow2_adds(23, k);
        lemma_pow2_pos(k);
        let d = pow2(k) as int;
        let q = (m / pow2(k)) as int;
        assert(q >= 0x80_0000 && q < 0x100_0000) by (nonlinear_arith)
            requires
                q == m / (d as nat),
                d > 0,
                0x80_0000 * d <= m < 2 * (0x80_0000 * d),
        ;
    }
}

/// Single precision holds an integer below two to the power 24 in magnitude exactly.
pub proof fn lemma_single_small(v: int)
    requires
        -(SINGLE_LIMIT as int) < v < SINGLE_LIMIT,
    ensures
        single(v) == v,
{
    lemma2_to64();
    let n: nat = if v < 0 {
        (-v) as nat
    } else {
        v as nat
    };
    assert(n * pow2(0) == n) by (nonlinear_arith)
        requires
            pow2(0) == 1,
    ;
}

/// Scaling by `1.0` gives the integer as single precision holds it, held to the range of
/// an `i32`; an integer below two to the power 24 in magnitude is unchanged.
pub proof fn lemma_scaled_by_one(x: int)
    requires
        i32::MIN <= x <= i32::MAX,
    ensures
        (Scalar { bits: ONE_BITS }).scaled(x) == clamped_i32(single(x)),
        -(SINGLE_LIMIT as int) < x < SINGLE_LIMIT ==> (Scalar { bits: ONE_BITS }).scaled(x) == x,
{
    let s = Scalar { bits: ONE_BITS };
    let n: nat = if x < 0 {
        (-x) as nat
    } else {
        x as nat
    };
    lemma2_to64();
    lemma2_to64_rest();
    assert(s.exponent_field() == 1023);
    assert(s.fraction() == 0);
    assert(s.significand() == HIDDEN_BIT);
    assert(s.exponent() == -52);
    lemma_top_bit_is(HIDDEN_BIT as nat, 52);
    let b = round24(HIDDEN_BIT as nat, -52);
    assert(pow2(29) == 0x2000_0000 && pow2(28) == 0x1000_0000);
    assert(0x10_0000_0000_0000nat / 0x2000_0000nat == 0x80_0000);
    assert(0x10_0000_0000_0000nat % 0x2000_0000nat == 0);
    assert(b == (0x80_0000nat, -23int));
    let a = round24(n, 0);
    lemma_round24_bounds(n, 0);
    if n > 0 {
        assert(a.0 * b.0 == a.0 * pow2(23));
        lemma_round24_shifted(a.0, 23, a.1 - 23);
    } else {
        assert(a == (0nat, 0int));
        assert(0 * pow2(0) == 0) by (nonlinear_arith);
        lemma_pow2_pos(23);
        lemma_basic_div(0, pow2(23) as int);
    }
    if n < SINGLE_LIMIT {
        assert(n * pow2(0) == n) by (nonlinear_arith)
            requires
                pow2(0) == 1,
        ;
    }
}

} // verus!
