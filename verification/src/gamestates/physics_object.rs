use crate::features::{Feature, Scale};
use vstd::prelude::*;

verus! {

/// Three measurements along the axes of the field.
#[derive(Clone, Copy, Debug, PartialEq, Eq, Structural)]
pub struct Vector3 {
    pub x: u64,
    pub y: u64,
    pub z: u64,
}

impl Vector3 {
    /// The three components as they are, in axis order.
    pub open spec fn raw_cells(self) -> Seq<Feature> {
        seq![Feature::Raw(self.x), Feature::Raw(self.y), Feature::Raw(self.z)]
    }

    /// The three components, each divided by `scale`, in axis order.
    pub open spec fn scaled_cells(self, scale: Scale) -> Seq<Feature> {
        seq![
            Feature::Scaled(self.x, scale),
            Feature::Scaled(self.y, scale),
            Feature::Scaled(self.z, scale),
        ]
    }

    /// The components of `self - origin`, each divided by `scale`, in axis order.
    pub open spec fn relative_cells(self, origin: Vector3, scale: Scale) -> Seq<Feature> {
        seq![
            Feature::ScaledDiff(self.x, origin.x, scale),
            Feature::ScaledDiff(self.y, origin.y, scale),
            Feature::ScaledDiff(self.z, origin.z, scale),
        ]
    }

    pub fn new(x: u64, y: u64, z: u64) -> (v: Vector3)
        ensures
            v == (Vector3 { x, y, z }),
    {
        Vector3 { x, y, z }
    }

    /// The vector as cells that hold its components unchanged.
    pub fn into_array(&self) -> (cells: [Feature; 3])
        ensures
            cells@ == self.raw_cells(),
    {
        let cells = [Feature::Raw(self.x), Feature::Raw(self.y), Feature::Raw(self.z)];
        assert(cells@ =~= self.raw_cells());
        cells
    }

    /// The vector standardized by `scale`.
    pub fn divide_by_var(&self, scale: Scale) -> (cells: [Feature; 3])
        ensures
            cells@ == self.scaled_cells(scale),
    {
        let cells = [
            Feature::Scaled(self.x, scale),
            Feature::Scaled(self.y, scale),
            Feature::Scaled(self.z, scale),
        ];
        assert(cells@ =~= self.scaled_cells(scale));
        cells
    }

    /// The vector as seen from `origin`, standardized by `scale`.
    pub fn relative_to(&self, origin: &Vector3, scale: Scale) -> (cells: [Feature; 3])
        ensures
            cells@ == self.relative_cells(*origin, scale),
    {
        let cells = [
            Feature::ScaledDiff(self.x, origin.x, scale),
            Feature::ScaledDiff(self.y, origin.y, scale),
            Feature::ScaledDiff(self.z, origin.z, scale),
        ];
        assert(cells@ =~= self.relative_cells(*origin, scale));
        cells
    }
}

/// The orientation of a body: the directions in which its nose, its right
/// side and its roof point.
#[derive(Clone, Copy, Debug, PartialEq, Eq, Structural)]
pub struct Rotation {
    pub forward: Vector3,
    pub right: Vector3,
    pub up: Vector3,
}

/// Kinematic state of one rigid body at one tick.
#[derive(Clone, Copy, Debug, PartialEq, Eq, Structural)]
pub struct PhysicsObject {
    pub position: Vector3,
    pub linear_velocity: Vector3,
    pub angular_velocity: Vector3,
    pub rotation: Rotation,
}

impl PhysicsObject {
    /// A body at rest at the origin: every measurement is the pattern of
    /// zero.
    pub open spec fn at_rest() -> PhysicsObject {
        let origin = Vector3 { x: 0, y: 0, z: 0 };
        PhysicsObject {
            position: origin,
            linear_velocity: origin,
            angular_velocity: origin,
            rotation: Rotation { forward: origin, right: origin, up: origin },
        }
    }

    pub fn new() -> (body: PhysicsObject)
        ensures
            body == PhysicsObject::at_rest(),
    {
        let origin = Vector3 { x: 0, y: 0, z: 0 };
        PhysicsObject {
            position: origin,
            linear_velocity: origin,
            angular_velocity: origin,
            rotation: Rotation { forward: origin, right: origin, up: origin },
        }
    }

    /// The direction in which the body's nose points.
    pub fn forward(&self) -> (v: Vector3)
        ensures
            v == self.rotation.forward,
    {
        self.rotation.forward
    }

    /// The direction in which the body's roof points.
    pub fn up(&self) -> (v: Vector3)
        ensures
            v == self.rotation.up,
    {
        self.rotation.up
    }
}

} // verus!
