//! Where an entity stands, how large it is drawn and which way it faces.

use vstd::prelude::*;
use crate::vector::{Rotation, Vec2, UNIT};

verus! {

/// Placement of an entity in the arena.
#[derive(Clone, Copy, Debug, PartialEq, Eq, Structural)]
pub struct Transform {
    pub position: Vec2,
    pub scale: Vec2,
    pub rotation: Rotation,
}

impl Transform {
    /// The position lies in the coordinate range and the rotation is well
    /// formed.
    pub open spec fn wf(self) -> bool {
        self.position.wf() && self.rotation.wf()
    }

    /// Tells whether the transform is well formed.
    pub fn is_wf(&self) -> (r: bool)
        ensures
            r == self.wf(),
    {
        self.position.is_wf() && self.rotation.is_wf()
    }

    /// At the origin, at natural size, facing along the positive x axis.
    pub open spec fn initial() -> Transform {
        Transform {
            position: Vec2 { x: 0, y: 0 },
            scale: Vec2 { x: UNIT, y: UNIT },
            rotation: Rotation { x: 1, y: 0 },
        }
    }
}

impl Default for Transform {
    fn default() -> (r: Transform)
        ensures
            r == Transform::initial(),
            r.wf(),
    {
        Transform {
            position: Vec2 { x: 0, y: 0 },
            scale: Vec2 { x: UNIT, y: UNIT },
            rotation: Rotation { x: 1, y: 0 },
        }
    }
}

/// What a renderer needs to place a shape.
#[derive(Clone, Copy, Debug, PartialEq, Eq, Structural)]
pub struct DrawParams {
    pub scale: Vec2,
    pub translation: Vec2,
    pub rotation: Rotation,
}

/// The draw parameters that show `transform` as it is.
pub open spec fn draw_params_of(transform: Transform) -> DrawParams {
    DrawParams {
        scale: transform.scale,
        translation: transform.position,
        rotation: transform.rotation,
    }
}

/// Projects a transform onto the parameters of a draw call.
pub fn get_draw_params(transform: &Transform) -> (r: DrawParams)
    ensures
        r == draw_params_of(*transform),
{
    DrawParams {
        scale: transform.scale,
        translation: transform.position,
        rotation: transform.rotation,
    }
}

} // verus!
