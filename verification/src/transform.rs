//! A decomposed 2D affine transform: translation, rotation and per-axis
//! scale, combined and taken apart componentwise.

use vstd::prelude::*;
use crate::geometry::Point;
use crate::num::SCALE;

verus! {

/// A transform described by its components: a translation in parent
/// space, a rotation in raw radians, and a per-axis scale factor.
#[derive(Debug, Clone, Copy, PartialEq, Eq, Structural)]
pub struct Transform {
    /// Position offset in parent space.
    pub translate: Point,
    /// Rotation, in raw radians.
    pub rotation: i64,
    /// Size relative to the parent, per axis, in raw units of one.
    pub scale: Point,
}

impl Transform {
    /// A transform from its three components.
    pub fn new(translate: Point, rotation: i64, scale: Point) -> (t: Transform)
        ensures
            t == (Transform { translate, rotation, scale }),
    {
        Transform { translate, rotation, scale }
    }

    /// The transform that does nothing: no offset, no rotation, unit
    /// scale.
    pub fn one() -> (t: Transform)
        ensures
            t.translate == (Point { x: 0i64, y: 0i64 }),
            t.rotation == 0,
            t.scale == (Point { x: SCALE, y: SCALE }),
    {
        Transform {
            translate: Point { x: 0, y: 0 },
            rotation: 0,
            scale: Point { x: SCALE, y: SCALE },
        }
    }

    /// The identity transform; the same as [`Transform::one`].
    pub fn identity() -> (t: Transform)
        ensures
            t.translate == (Point { x: 0i64, y: 0i64 }),
            t.rotation == 0,
            t.scale == (Point { x: SCALE, y: SCALE }),
    {
        Transform::one()
    }

    /// The transform's translation alone, with rotation and scale reset.
    pub fn extract_translate(&self) -> (t: Transform)
        ensures
            t.translate == self.translate,
            t.rotation == 0,
            t.scale == (Point { x: SCALE, y: SCALE }),
    {
        Transform { translate: self.translate, rotation: 0, scale: Point { x: SCALE, y: SCALE } }
    }

    /// The transform's rotation alone, with translation and scale reset.
    pub fn extract_rotation(&self) -> (t: Transform)
        ensures
            t.translate == (Point { x: 0i64, y: 0i64 }),
            t.rotation == self.rotation,
            t.scale == (Point { x: SCALE, y: SCALE }),
    {
        Transform {
            translate: Point { x: 0, y: 0 },
            rotation: self.rotation,
            scale: Point { x: SCALE, y: SCALE },
        }
    }

    /// The transform's scale alone, with translation and rotation reset.
    pub fn extract_scale(&self) -> (t: Transform)
        ensures
            t.translate == (Point { x: 0i64, y: 0i64 }),
            t.rotation == 0,
            t.scale == self.scale,
    {
        Transform { translate: Point { x: 0, y: 0 }, rotation: 0, scale: self.scale }
    }

    /// Componentwise sum of two transforms.
    pub fn add(self, rhs: Transform) -> (t: Transform)
        requires
            i64::MIN <= self.translate.x + rhs.translate.x <= i64::MAX,
            i64::MIN <= self.translate.y + rhs.translate.y <= i64::MAX,
            i64::MIN <= self.rotation + rhs.rotation <= i64::MAX,
            i64::MIN <= self.scale.x + rhs.scale.x <= i64::MAX,
            i64::MIN <= self.scale.y + rhs.scale.y <= i64::MAX,
        ensures
            t.translate.x == self.translate.x + rhs.translate.x,
            t.translate.y == self.translate.y + rhs.translate.y,
            t.rotation == self.rotation + rhs.rotation,
            t.scale.x == self.scale.x + rhs.scale.x,
            t.scale.y == self.scale.y + rhs.scale.y,
    {
        Transform {
            translate: Point {
                x: self.translate.x + rhs.translate.x,
                y: self.translate.y + rhs.translate.y,
            },
            rotation: self.rotation + rhs.rotation,
            scale: Point { x: self.scale.x + rhs.scale.x, y: self.scale.y + rhs.scale.y },
        }
    }

    /// Componentwise difference of two transforms.
    pub fn sub(self, rhs: Transform) -> (t: Transform)
        requires
            i64::MIN <= self.translate.x - rhs.translate.x <= i64::MAX,
            i64::MIN <= self.translate.y - rhs.translate.y <= i64::MAX,
            i64::MIN <= self.rotation - rhs.rotation <= i64::MAX,
            i64::MIN <= self.scale.x - rhs.scale.x <= i64::MAX,
            i64::MIN <= self.scale.y - rhs.scale.y <= i64::MAX,
        ensures
            t.translate.x == self.translate.x - rhs.translate.x,
            t.translate.y == self.translate.y - rhs.translate.y,
            t.rotation == self.rotation - rhs.rotation,
            t.scale.x == self.scale.x - rhs.scale.x,
            t.scale.y == self.scale.y - rhs.scale.y,
    {
        Transform {
            translate: Point {
                x: self.translate.x - rhs.translate.x,
                y: self.translate.y - rhs.translate.y,
            },
            rotation: self.rotation - rhs.rotation,
            scale: Point { x: self.scale.x - rhs.scale.x, y: self.scale.y - rhs.scale.y },
        }
    }
}

impl Default for Transform {
    /// The identity transform.
    fn default() -> (t: Transform)
        ensures
            t.translate == (Point { x: 0i64, y: 0i64 }),
            t.rotation == 0,
            t.scale == (Point { x: SCALE, y: SCALE }),
    {
        Transform::one()
    }
}

} // verus!
