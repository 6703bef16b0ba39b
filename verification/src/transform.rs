//! Placement of an entity: where it is, how large, and by what factor it is scaled.

use vstd::prelude::*;
use crate::error::EngineError;
use crate::scalar::lemma_scaled_by_one;
use crate::scalar::lemma_single_small;
use crate::scalar::single;
use crate::scalar::to_single;
use crate::scalar::Scalar;
use crate::scalar::ONE_BITS;
use crate::scalar::SINGLE_LIMIT;
use crate::variant::lemma_pairs_view;
use crate::variant::pairs_view;
use crate::variant::Dynamic;
use crate::variant::Variant;
use crate::vec2::lemma_vec2_round_trip;
use crate::vec2::Vec2;

verus! {

/// Position, size and scale.
#[derive(Debug, Clone, Copy, PartialEq, Eq, Structural)]
pub struct Transform {
    pub pos: Vec2,
    pub size: Vec2,
    pub scale: Scalar,
}

impl Transform {
    /// A transform at `pos` of extent `size`, not scaled.
    pub fn new(pos: Vec2, size: Vec2) -> (t: Transform)
        ensures
            t.pos == pos,
            t.size == size,
            t.scale.bits == ONE_BITS,
    {
        Transform { pos, size, scale: Scalar::one() }
    }
}

impl Transform {
    /// The width and height that the transform covers: its size scaled.
    pub open spec fn extent(self) -> (int, int) {
        (self.scale.scaled(self.size.x as int), self.scale.scaled(self.size.y as int))
    }

    /// The horizontal coordinate of the near edge, in single precision.
    pub open spec fn left(self) -> int {
        single(self.pos.x as int)
    }

    /// The horizontal coordinate of the far edge: the near edge and the width added in
    /// single precision.
    pub open spec fn right(self) -> int {
        single(self.left() + single(self.extent().0))
    }

    /// The vertical coordinate of the near edge, in single precision.
    pub open spec fn top(self) -> int {
        single(self.pos.y as int)
    }

    /// The vertical coordinate of the far edge: the near edge and the height added in
    /// single precision.
    pub open spec fn bottom(self) -> int {
        single(self.top() + single(self.extent().1))
    }

    /// Whether two rectangles share a point, edges included.
    pub open spec fn overlaps(self, other: Transform) -> bool {
        &&& self.left() <= other.right()
        &&& self.right() >= other.left()
        &&& self.top() <= other.bottom()
        &&& self.bottom() >= other.top()
    }

    /// Whether the rectangle covers `point`, edges included.
    pub open spec fn covers(self, point: Vec2) -> bool {
        &&& single(point.x as int) >= self.left()
        &&& single(point.x as int) <= self.right()
        &&& single(point.y as int) <= self.bottom()
        &&& single(point.y as int) >= self.top()
    }

    /// The four edges: left, right, top, bottom.
    fn edges(&self) -> (e: (i64, i64, i64, i64))
        ensures
            e.0 == self.left(),
            e.1 == self.right(),
            e.2 == self.top(),
            e.3 == self.bottom(),
    {
        let left = to_single(self.pos.x as i64);
        let width = to_single(self.scale.scale_i32(self.size.x) as i64);
        let top = to_single(self.pos.y as i64);
        let height = to_single(self.scale.scale_i32(self.size.y) as i64);
        (left, to_single(left + width), top, to_single(top + height))
    }

    /// Whether the rectangle of this transform and that of `transform` overlap.
    pub fn instersects(&self, transform: &Transform) -> (b: bool)
        ensures
            b == self.overlaps(*transform),
    {
        let a = self.edges();
        let b = transform.edges();
        a.0 <= b.1 && a.1 >= b.0 && a.2 <= b.3 && a.3 >= b.2
    }

    /// Whether the rectangle of this transform covers `point`.
    pub fn contains(&self, point: Vec2) -> (b: bool)
        ensures
            b == self.covers(point),
    {
        let e = self.edges();
        let x = to_single(point.x as i64);
        let y = to_single(point.y as i64);
        x >= e.0 && x <= e.1 && y <= e.3 && y >= e.2
    }

    /// What scripts see of the transform.
    pub open spec fn snapshot(self) -> Dynamic {
        Dynamic::Table(
            seq![
                Dynamic::pair("pos"@, self.pos.snapshot()),
                Dynamic::pair("size"@, self.size.snapshot()),
                Dynamic::pair("scale"@, Dynamic::Number(self.scale)),
            ],
        )
    }

    /// The transform that a dynamic value describes: a table with vectors under `pos` and
    /// `size` and a number under `scale`.
    pub open spec fn decoded(v: Dynamic) -> Result<Transform, EngineError> {
        if !(v is Table) {
            Err(EngineError::Serialization)
        } else {
            match (
                Vec2::decoded(v.field("pos"@)),
                Vec2::decoded(v.field("size"@)),
                v.field("scale"@).as_number(),
            ) {
                (Ok(pos), Ok(size), Some(scale)) => Ok(Transform { pos, size, scale }),
                _ => Err(EngineError::Serialization),
            }
        }
    }

    /// The snapshot of the transform.
    pub fn as_lua(&self) -> (v: Variant)
        ensures
            v@ == self.snapshot(),
    {
        let mut entries: Vec<(Variant, Variant)> = Vec::new();
        entries.push(Variant::entry("pos", self.pos.as_lua()));
        entries.push(Variant::entry("size", self.size.as_lua()));
        entries.push(Variant::entry("scale", Variant::Number(self.scale)));
        proof {
            lemma_pairs_view(entries@);
            assert(pairs_view(entries@) =~= self.snapshot().entries());
        }
        Variant::table(entries)
    }

    /// What `value` describes.
    pub fn decode(value: &Variant) -> (r: Result<Transform, EngineError>)
        ensures
            r == Transform::decoded(value@),
    {
        let mut v = Transform::new(Vec2::zero(), Vec2::zero());
        match v.from_lua(value) {
            Ok(()) => Ok(v),
            Err(e) => Err(e),
        }
    }

    /// Overwrites the transform with what `value` describes, or leaves it as it is where
    /// `value` does not describe a transform.
    pub fn from_lua(&mut self, value: &Variant) -> (r: Result<(), EngineError>)
        ensures
            match Transform::decoded(value@) {
                Ok(n) => r == Ok::<(), EngineError>(()) && *final(self) == n,
                Err(e) => r == Err::<(), EngineError>(e) && *final(self) == *old(self),
            },
    {
        if !value.is_table() {
            return Err(EngineError::Serialization);
        }
        let mut pos = self.pos;
        let mut size = self.size;
        let got_pos = match value.field("pos") {
            Some(v) => pos.from_lua(v).is_ok(),
            None => false,
        };
        let got_size = match value.field("size") {
            Some(v) => size.from_lua(v).is_ok(),
            None => false,
        };
        match (got_pos, got_size, value.number_at("scale")) {
            (true, true, Some(scale)) => {
                self.pos = pos;
                self.size = size;
                self.scale = scale;
                Ok(())
            },
            _ => Err(EngineError::Serialization),
        }
    }
}

/// Whether `v` is below two to the power 24 in magnitude, so that single precision holds
/// it exactly.
pub open spec fn exact(v: int) -> bool {
    -(SINGLE_LIMIT as int) < v < SINGLE_LIMIT
}

/// A rectangle that is not scaled and whose coordinates single precision holds exactly
/// reaches from its position to its position and size added.
pub proof fn lemma_unscaled_edges(t: Transform)
    requires
        t.scale.bits == ONE_BITS,
        exact(t.pos.x as int),
        exact(t.pos.y as int),
        exact(t.size.x as int),
        exact(t.size.y as int),
        exact(t.pos.x + t.size.x),
        exact(t.pos.y + t.size.y),
    ensures
        t.left() == t.pos.x,
        t.right() == t.pos.x + t.size.x,
        t.top() == t.pos.y,
        t.bottom() == t.pos.y + t.size.y,
{
    lemma_scaled_by_one(t.size.x as int);
    lemma_scaled_by_one(t.size.y as int);
    lemma_single_small(t.pos.x as int);
    lemma_single_small(t.pos.y as int);
    lemma_single_small(t.size.x as int);
    lemma_single_small(t.size.y as int);
    lemma_single_small(t.pos.x + t.size.x);
    lemma_single_small(t.pos.y + t.size.y);
}

/// A transform is read back from its own snapshot.
pub proof fn lemma_transform_round_trip(t: Transform)
    ensures
        Transform::decoded(t.snapshot()) == Ok::<Transform, EngineError>(t),
{
    reveal_strlit("pos");
    reveal_strlit("size");
    reveal_strlit("scale");
    reveal_with_fuel(Dynamic::find, 4);
    assert("pos"@[0] != "size"@[0]);
    assert("pos"@.len() != "scale"@.len() && "size"@.len() != "scale"@.len());
    lemma_vec2_round_trip(t.pos);
    lemma_vec2_round_trip(t.size);
}

} // verus!
