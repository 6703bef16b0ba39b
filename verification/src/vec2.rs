//! Two-dimensional integer vectors.

use vstd::prelude::*;
use vstd::std_specs::ops::AddSpecImpl;
use vstd::std_specs::ops::SubSpecImpl;
use vstd::std_specs::ops::MulSpecImpl;
use vstd::std_specs::ops::DivSpecImpl;
use vstd::std_specs::ops::NegSpecImpl;
use crate::error::EngineError;
use crate::variant::lemma_pairs_view;
use crate::variant::Dynamic;
use crate::variant::Intrinsic;
use crate::variant::Variant;

verus! {

/// A point or an extent on the integer grid.
#[derive(Debug, Clone, Copy, PartialEq, Eq, Structural)]
pub struct Vec2 {
    pub x: i32,
    pub y: i32,
}

/// Whether `v` fits an `i32`.
pub open spec fn fits_i32(v: int) -> bool {
    i32::MIN <= v <= i32::MAX
}

/// The quotient of `a` by `b`, rounded toward zero.
pub open spec fn quotient(a: int, b: int) -> int
    recommends
        b != 0,
{
    if a >= 0 {
        a / b
    } else {
        -((-a) / b)
    }
}

/// Whether `a / b` is defined and fits an `i32`.
pub open spec fn divides_i32(a: i32, b: i32) -> bool {
    b != 0 && !(a == i32::MIN && b == -1)
}

/// The product of two `i32` values fits an `i64`.
pub proof fn lemma_product_bounds(a: int, b: int)
    requires
        fits_i32(a),
        fits_i32(b),
    ensures
        -0x4000_0000_0000_0000 <= a * b <= 0x4000_0000_0000_0000,
{
    assert(-0x4000_0000_0000_0000 <= a * b <= 0x4000_0000_0000_0000) by (nonlinear_arith)
        requires
            -0x8000_0000 <= a <= 0x7fff_ffff,
            -0x8000_0000 <= b <= 0x7fff_ffff,
    ;
}

/// A quotient is no larger in magnitude than its dividend.
proof fn lemma_quotient_bounds(a: int, b: int)
    requires
        a >= 0,
        b != 0,
    ensures
        -a <= a / b <= a,
        b != -1 && a > 0 ==> -a < a / b,
{
    assert(-a <= a / b <= a) by (nonlinear_arith)
        requires
            a >= 0,
            b != 0,
    ;
    if b != -1 && a > 0 {
        assert(-a < a / b) by (nonlinear_arith)
            requires
                a > 0,
                b != 0,
                b != -1,
        ;
    }
}

/// Machine division of `i32` values rounds toward zero.
fn divide(a: i32, b: i32) -> (q: i32)
    requires
        divides_i32(a, b),
    ensures
        q == quotient(a as int, b as int),
{
    proof {
        if a >= 0 {
            lemma_quotient_bounds(a as int, b as int);
        } else {
            lemma_quotient_bounds(-(a as int), b as int);
        }
    }
    a / b
}

impl Vec2 {
    /// The origin.
    pub fn zero() -> (v: Vec2)
        ensures
            v.x == 0,
            v.y == 0,
    {
        Vec2 { x: 0, y: 0 }
    }

    /// The unit extent.
    pub fn one() -> (v: Vec2)
        ensures
            v.x == 1,
            v.y == 1,
    {
        Vec2 { x: 1, y: 1 }
    }

    /// The vector with the coordinates `x` and `y`.
    pub fn new(x: i32, y: i32) -> (v: Vec2)
        ensures
            v.x == x,
            v.y == y,
    {
        Vec2 { x, y }
    }

    /// The dot product as a mathematical integer.
    pub open spec fn dot_spec(self, other: Vec2) -> int {
        self.x * other.x + self.y * other.y
    }

    /// The dot product, where it and both of its terms fit an `i32`.
    pub fn dot(self, other: Vec2) -> (d: i32)
        requires
            fits_i32(self.x * other.x),
            fits_i32(self.y * other.y),
            fits_i32(self.dot_spec(other)),
        ensures
            d == self.dot_spec(other),
    {
        self.x * other.x + self.y * other.y
    }

    /// The dot product, or `None` where it does not fit an `i32`.
    pub fn checked_dot(self, other: Vec2) -> (d: Option<i32>)
        ensures
            match d {
                Some(v) => v == self.dot_spec(other),
                None => !fits_i32(self.dot_spec(other)),
            },
    {
        proof {
            lemma_product_bounds(self.x as int, other.x as int);
            lemma_product_bounds(self.y as int, other.y as int);
        }
        let a: i64 = (self.x as i64) * (other.x as i64);
        let b: i64 = (self.y as i64) * (other.y as i64);
        let s: i128 = (a as i128) + (b as i128);
        if s < i32::MIN as i128 || s > i32::MAX as i128 {
            None
        } else {
            Some(s as i32)
        }
    }

    /// The two coordinates, `x` first.
    pub fn as_slice(&self) -> (a: [i32; 2])
        ensures
            a@ == seq![self.x, self.y],
    {
        [self.x, self.y]
    }

    /// The horizontal coordinate.
    pub fn get_x(&self) -> (x: i32)
        ensures
            x == self.x,
    {
        self.x
    }

    /// The vertical coordinate.
    pub fn get_y(&self) -> (y: i32)
        ensures
            y == self.y,
    {
        self.y
    }

    /// Both coordinates multiplied by `k`.
    pub open spec fn scaled(self, k: int) -> (int, int) {
        (self.x * k, self.y * k)
    }
}

impl Vec2 {
    /// What scripts see of the vector: its coordinates and the dot product.
    pub open spec fn snapshot(self) -> Dynamic {
        Dynamic::Table(
            seq![
                Dynamic::pair("x"@, Dynamic::Integer(self.x as i64)),
                Dynamic::pair("y"@, Dynamic::Integer(self.y as i64)),
                Dynamic::pair("dot"@, Dynamic::Function(Intrinsic::Dot)),
            ],
        )
    }

    /// The vector that a dynamic value describes: a table with integers under `x` and `y`,
    /// each reduced to 32 bits.
    pub open spec fn decoded(v: Dynamic) -> Result<Vec2, EngineError> {
        if !(v is Table) {
            Err(EngineError::Serialization)
        } else {
            match (v.field("x"@).as_integer(), v.field("y"@).as_integer()) {
                (Some(x), Some(y)) => Ok(Vec2 { x: x as i32, y: y as i32 }),
                _ => Err(EngineError::Serialization),
            }
        }
    }

    /// The snapshot of the vector.
    pub fn as_lua(&self) -> (v: Variant)
        ensures
            v@ == self.snapshot(),
    {
        let mut entries: Vec<(Variant, Variant)> = Vec::new();
        entries.push(Variant::entry("x", Variant::Integer(self.x as i64)));
        entries.push(Variant::entry("y", Variant::Integer(self.y as i64)));
        entries.push(Variant::entry("dot", Variant::Function(Intrinsic::Dot)));
        proof {
            lemma_pairs_view(entries@);
            assert(crate::variant::pairs_view(entries@) =~= self.snapshot().entries());
        }
        Variant::table(entries)
    }

    /// What `value` describes.
    pub fn decode(value: &Variant) -> (r: Result<Vec2, EngineError>)
        ensures
            r == Vec2::decoded(value@),
    {
        let mut v = Vec2 { x: 0, y: 0 };
        match v.from_lua(value) {
            Ok(()) => Ok(v),
            Err(e) => Err(e),
        }
    }

    /// Overwrites the vector with what `value` describes, or leaves it as it is where
    /// `value` does not describe a vector.
    pub fn from_lua(&mut self, value: &Variant) -> (r: Result<(), EngineError>)
        ensures
            match Vec2::decoded(value@) {
                Ok(n) => r == Ok::<(), EngineError>(()) && *final(self) == n,
                Err(e) => r == Err::<(), EngineError>(e) && *final(self) == *old(self),
            },
    {
        if !value.is_table() {
            return Err(EngineError::Serialization);
        }
        match (value.integer_at("x"), value.integer_at("y")) {
            (Some(x), Some(y)) => {
                self.x = #[verifier::truncate]
                (x as i32);
                self.y = #[verifier::truncate]
                (y as i32);
                Ok(())
            },
            _ => Err(EngineError::Serialization),
        }
    }
}

/// What the `dot` intrinsic answers for two dynamic values: the dot product of the
/// integers under `x` and `y`, where all four are there and the product fits an `i64`.
pub open spec fn dot_of(this: Dynamic, other: Dynamic) -> Option<i64> {
    match (
        this.field("x"@).as_integer(),
        this.field("y"@).as_integer(),
        other.field("x"@).as_integer(),
        other.field("y"@).as_integer(),
    ) {
        (Some(ax), Some(ay), Some(bx), Some(by)) => if i64::MIN <= ax * bx + ay * by
            <= i64::MAX {
            Some((ax * bx + ay * by) as i64)
        } else {
            None
        },
        _ => None,
    }
}

/// The product of two `i64` values fits an `i128` with room to spare.
proof fn lemma_wide_product_bounds(a: int, b: int)
    requires
        i64::MIN <= a <= i64::MAX,
        i64::MIN <= b <= i64::MAX,
    ensures
        -0x4000_0000_0000_0000_0000_0000_0000_0000 <= a * b
            <= 0x4000_0000_0000_0000_0000_0000_0000_0000,
{
    assert(-0x4000_0000_0000_0000_0000_0000_0000_0000 <= a * b
        <= 0x4000_0000_0000_0000_0000_0000_0000_0000) by (nonlinear_arith)
        requires
            -0x8000_0000_0000_0000 <= a <= 0x7fff_ffff_ffff_ffff,
            -0x8000_0000_0000_0000 <= b <= 0x7fff_ffff_ffff_ffff,
    ;
}

/// What the `dot` intrinsic answers for two dynamic values.
pub fn dot_values(this: &Variant, other: &Variant) -> (d: Option<i64>)
    ensures
        d == dot_of(this@, other@),
{
    match (
        this.integer_at("x"),
        this.integer_at("y"),
        other.integer_at("x"),
        other.integer_at("y"),
    ) {
        (Some(ax), Some(ay), Some(bx), Some(by)) => {
            proof {
                lemma_wide_product_bounds(ax as int, bx as int);
                lemma_wide_product_bounds(ay as int, by as int);
            }
            let first: i128 = (ax as i128) * (bx as i128);
            let second: i128 = (ay as i128) * (by as i128);
            if first == 0x4000_0000_0000_0000_0000_0000_0000_0000 && second
                == 0x4000_0000_0000_0000_0000_0000_0000_0000 {
                return None;
            }
            let sum: i128 = first + second;
            if sum < i64::MIN as i128 || sum > i64::MAX as i128 {
                None
            } else {
                Some(sum as i64)
            }
        },
        _ => None,
    }
}

/// A vector is read back from its own snapshot.
pub proof fn lemma_vec2_round_trip(v: Vec2)
    ensures
        Vec2::decoded(v.snapshot()) == Ok::<Vec2, EngineError>(v),
{
    reveal_strlit("x");
    reveal_strlit("y");
    reveal_strlit("dot");
    reveal_with_fuel(Dynamic::find, 4);
    assert("x"@ != "y"@) by {
        assert("x"@[0] != "y"@[0]);
    }
}

impl Default for Vec2 {
    fn default() -> (v: Vec2)
        ensures
            v == (Vec2 { x: 0, y: 0 }),
    {
        Vec2 { x: 0, y: 0 }
    }
}

impl AddSpecImpl for Vec2 {
    open spec fn obeys_add_spec() -> bool {
        true
    }

    open spec fn add_req(self, rhs: Vec2) -> bool {
        fits_i32(self.x + rhs.x) && fits_i32(self.y + rhs.y)
    }

    open spec fn add_spec(self, rhs: Vec2) -> Vec2 {
        Vec2 { x: (self.x + rhs.x) as i32, y: (self.y + rhs.y) as i32 }
    }
}

impl core::ops::Add for Vec2 {
    type Output = Vec2;

    fn add(self, rhs: Vec2) -> Vec2 {
        Vec2 { x: self.x + rhs.x, y: self.y + rhs.y }
    }
}

impl SubSpecImpl for Vec2 {
    open spec fn obeys_sub_spec() -> bool {
        true
    }

    open spec fn sub_req(self, rhs: Vec2) -> bool {
        fits_i32(self.x - rhs.x) && fits_i32(self.y - rhs.y)
    }

    open spec fn sub_spec(self, rhs: Vec2) -> Vec2 {
        Vec2 { x: (self.x - rhs.x) as i32, y: (self.y - rhs.y) as i32 }
    }
}

impl core::ops::Sub for Vec2 {
    type Output = Vec2;

    fn sub(self, rhs: Vec2) -> Vec2 {
        Vec2 { x: self.x - rhs.x, y: self.y - rhs.y }
    }
}

impl MulSpecImpl for Vec2 {
    open spec fn obeys_mul_spec() -> bool {
        true
    }

    open spec fn mul_req(self, rhs: Vec2) -> bool {
        fits_i32(self.x * rhs.x) && fits_i32(self.y * rhs.y)
    }

    open spec fn mul_spec(self, rhs: Vec2) -> Vec2 {
        Vec2 { x: (self.x * rhs.x) as i32, y: (self.y * rhs.y) as i32 }
    }
}

impl core::ops::Mul for Vec2 {
    type Output = Vec2;

    fn mul(self, rhs: Vec2) -> Vec2 {
        Vec2 { x: self.x * rhs.x, y: self.y * rhs.y }
    }
}

impl MulSpecImpl<i32> for Vec2 {
    open spec fn obeys_mul_spec() -> bool {
        true
    }

    open spec fn mul_req(self, rhs: i32) -> bool {
        fits_i32(self.x * rhs) && fits_i32(self.y * rhs)
    }

    open spec fn mul_spec(self, rhs: i32) -> Vec2 {
        Vec2 { x: (self.x * rhs) as i32, y: (self.y * rhs) as i32 }
    }
}

impl core::ops::Mul<i32> for Vec2 {
    type Output = Vec2;

    fn mul(self, rhs: i32) -> Vec2 {
        Vec2 { x: self.x * rhs, y: self.y * rhs }
    }
}

impl DivSpecImpl for Vec2 {
    open spec fn obeys_div_spec() -> bool {
        true
    }

    open spec fn div_req(self, rhs: Vec2) -> bool {
        divides_i32(self.x, rhs.x) && divides_i32(self.y, rhs.y)
    }

    open spec fn div_spec(self, rhs: Vec2) -> Vec2 {
        Vec2 {
            x: quotient(self.x as int, rhs.x as int) as i32,
            y: quotient(self.y as int, rhs.y as int) as i32,
        }
    }
}

impl core::ops::Div for Vec2 {
    type Output = Vec2;

    fn div(self, rhs: Vec2) -> Vec2 {
        Vec2 { x: divide(self.x, rhs.x), y: divide(self.y, rhs.y) }
    }
}

impl DivSpecImpl<i32> for Vec2 {
    open spec fn obeys_div_spec() -> bool {
        true
    }

    open spec fn div_req(self, rhs: i32) -> bool {
        divides_i32(self.x, rhs) && divides_i32(self.y, rhs)
    }

    open spec fn div_spec(self, rhs: i32) -> Vec2 {
        Vec2 {
            x: quotient(self.x as int, rhs as int) as i32,
            y: quotient(self.y as int, rhs as int) as i32,
        }
    }
}

impl core::ops::Div<i32> for Vec2 {
    type Output = Vec2;

    fn div(self, rhs: i32) -> Vec2 {
        Vec2 { x: divide(self.x, rhs), y: divide(self.y, rhs) }
    }
}

impl NegSpecImpl for Vec2 {
    open spec fn obeys_neg_spec() -> bool {
        true
    }

    open spec fn neg_req(self) -> bool {
        self.x != i32::MIN && self.y != i32::MIN
    }

    open spec fn neg_spec(self) -> Vec2 {
        Vec2 { x: (-self.x) as i32, y: (-self.y) as i32 }
    }
}

impl core::ops::Neg for Vec2 {
    type Output = Vec2;

    fn neg(self) -> Vec2 {
        Vec2 { x: -self.x, y: -self.y }
    }
}

impl AddSpecImpl<&Vec2> for &Vec2 {
    open spec fn obeys_add_spec() -> bool {
        true
    }

    open spec fn add_req(self, rhs: &Vec2) -> bool {
        fits_i32(self.x + rhs.x) && fits_i32(self.y + rhs.y)
    }

    open spec fn add_spec(self, rhs: &Vec2) -> Vec2 {
        Vec2 { x: (self.x + rhs.x) as i32, y: (self.y + rhs.y) as i32 }
    }
}

impl core::ops::Add<&Vec2> for &Vec2 {
    type Output = Vec2;

    fn add(self, rhs: &Vec2) -> Vec2 {
        Vec2 { x: self.x + rhs.x, y: self.y + rhs.y }
    }
}

impl SubSpecImpl<&Vec2> for &Vec2 {
    open spec fn obeys_sub_spec() -> bool {
        true
    }

    open spec fn sub_req(self, rhs: &Vec2) -> bool {
        fits_i32(self.x - rhs.x) && fits_i32(self.y - rhs.y)
    }

    open spec fn sub_spec(self, rhs: &Vec2) -> Vec2 {
        Vec2 { x: (self.x - rhs.x) as i32, y: (self.y - rhs.y) as i32 }
    }
}

impl core::ops::Sub<&Vec2> for &Vec2 {
    type Output = Vec2;

    fn sub(self, rhs: &Vec2) -> Vec2 {
        Vec2 { x: self.x - rhs.x, y: self.y - rhs.y }
    }
}

impl MulSpecImpl<&Vec2> for &Vec2 {
    open spec fn obeys_mul_spec() -> bool {
        true
    }

    open spec fn mul_req(self, rhs: &Vec2) -> bool {
        fits_i32(self.x * rhs.x) && fits_i32(self.y * rhs.y)
    }

    open spec fn mul_spec(self, rhs: &Vec2) -> Vec2 {
        Vec2 { x: (self.x * rhs.x) as i32, y: (self.y * rhs.y) as i32 }
    }
}

impl core::ops::Mul<&Vec2> for &Vec2 {
    type Output = Vec2;

    fn mul(self, rhs: &Vec2) -> Vec2 {
        Vec2 { x: self.x * rhs.x, y: self.y * rhs.y }
    }
}

impl DivSpecImpl<&Vec2> for &Vec2 {
    open spec fn obeys_div_spec() -> bool {
        true
    }

    open spec fn div_req(self, rhs: &Vec2) -> bool {
        divides_i32(self.x, rhs.x) && divides_i32(self.y, rhs.y)
    }

    open spec fn div_spec(self, rhs: &Vec2) -> Vec2 {
        Vec2 {
            x: quotient(self.x as int, rhs.x as int) as i32,
            y: quotient(self.y as int, rhs.y as int) as i32,
        }
    }
}

impl core::ops::Div<&Vec2> for &Vec2 {
    type Output = Vec2;

    fn div(self, rhs: &Vec2) -> Vec2 {
        Vec2 { x: divide(self.x, rhs.x), y: divide(self.y, rhs.y) }
    }
}

impl MulSpecImpl<i32> for &Vec2 {
    open spec fn obeys_mul_spec() -> bool {
        true
    }

    open spec fn mul_req(self, rhs: i32) -> bool {
        fits_i32(self.x * rhs) && fits_i32(self.y * rhs)
    }

    open spec fn mul_spec(self, rhs: i32) -> Vec2 {
        Vec2 { x: (self.x * rhs) as i32, y: (self.y * rhs) as i32 }
    }
}

impl core::ops::Mul<i32> for &Vec2 {
    type Output = Vec2;

    fn mul(self, rhs: i32) -> Vec2 {
        Vec2 { x: self.x * rhs, y: self.y * rhs }
    }
}

impl DivSpecImpl<i32> for &Vec2 {
    open spec fn obeys_div_spec() -> bool {
        true
    }

    open spec fn div_req(self, rhs: i32) -> bool {
        divides_i32(self.x, rhs) && divides_i32(self.y, rhs)
    }

    open spec fn div_spec(self, rhs: i32) -> Vec2 {
        Vec2 {
            x: quotient(self.x as int, rhs as int) as i32,
            y: quotient(self.y as int, rhs as int) as i32,
        }
    }
}

impl core::ops::Div<i32> for &Vec2 {
    type Output = Vec2;

    fn div(self, rhs: i32) -> Vec2 {
        Vec2 { x: divide(self.x, rhs), y: divide(self.y, rhs) }
    }
}

impl NegSpecImpl for &Vec2 {
    open spec fn obeys_neg_spec() -> bool {
        true
    }

    open spec fn neg_req(self) -> bool {
        self.x != i32::MIN && self.y != i32::MIN
    }

    open spec fn neg_spec(self) -> Vec2 {
        Vec2 { x: (-self.x) as i32, y: (-self.y) as i32 }
    }
}

impl core::ops::Neg for &Vec2 {
    type Output = Vec2;

    fn neg(self) -> Vec2 {
        Vec2 { x: -self.x, y: -self.y }
    }
}

impl core::ops::AddAssign for Vec2 {
    fn add_assign(&mut self, rhs: Vec2)
        requires
            fits_i32(old(self).x + rhs.x),
            fits_i32(old(self).y + rhs.y),
        ensures
            final(self).x == old(self).x + rhs.x,
            final(self).y == old(self).y + rhs.y,
    {
        self.x = self.x + rhs.x;
        self.y = self.y + rhs.y;
    }
}

impl core::ops::SubAssign for Vec2 {
    fn sub_assign(&mut self, rhs: Vec2)
        requires
            fits_i32(old(self).x - rhs.x),
            fits_i32(old(self).y - rhs.y),
        ensures
            final(self).x == old(self).x - rhs.x,
            final(self).y == old(self).y - rhs.y,
    {
        self.x = self.x - rhs.x;
        self.y = self.y - rhs.y;
    }
}

impl core::ops::MulAssign for Vec2 {
    fn mul_assign(&mut self, rhs: Vec2)
        requires
            fits_i32(old(self).x * rhs.x),
            fits_i32(old(self).y * rhs.y),
        ensures
            final(self).x == old(self).x * rhs.x,
            final(self).y == old(self).y * rhs.y,
    {
        self.x = self.x * rhs.x;
        self.y = self.y * rhs.y;
    }
}

impl core::ops::DivAssign for Vec2 {
    fn div_assign(&mut self, rhs: Vec2)
        requires
            divides_i32(old(self).x, rhs.x),
            divides_i32(old(self).y, rhs.y),
        ensures
            final(self).x == quotient(old(self).x as int, rhs.x as int),
            final(self).y == quotient(old(self).y as int, rhs.y as int),
    {
        self.x = divide(self.x, rhs.x);
        self.y = divide(self.y, rhs.y);
    }
}

impl core::ops::MulAssign<i32> for Vec2 {
    fn mul_assign(&mut self, rhs: i32)
        requires
            fits_i32(old(self).x * rhs),
            fits_i32(old(self).y * rhs),
        ensures
            final(self).x == old(self).x * rhs,
            final(self).y == old(self).y * rhs,
    {
        self.x = self.x * rhs;
        self.y = self.y * rhs;
    }
}

impl core::ops::DivAssign<i32> for Vec2 {
    fn div_assign(&mut self, rhs: i32)
        requires
            divides_i32(old(self).x, rhs),
            divides_i32(old(self).y, rhs),
        ensures
            final(self).x == quotient(old(self).x as int, rhs as int),
            final(self).y == quotient(old(self).y as int, rhs as int),
    {
        self.x = divide(self.x, rhs);
        self.y = divide(self.y, rhs);
    }
}

} // verus!
