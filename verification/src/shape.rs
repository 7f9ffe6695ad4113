//! What each kind of entity looks like.

use vstd::prelude::*;
use crate::entity::SHIELD_RADIUS;
use crate::vector::Vec2;

verus! {

/// The kinds of entity a game holds.
#[derive(Clone, Copy, Debug, PartialEq, Eq, Structural)]
pub enum EntityKind {
    Shield,
    Enemy,
    Shot,
    Player,
}

/// A filled outline, in micro-units round the origin of the entity's
/// transform.
#[derive(Clone, Copy, Debug, PartialEq, Eq, Structural)]
pub enum Shape {
    /// An axis-aligned rectangle, given by the corner with the least
    /// coordinates and by its extent.
    Rectangle { x: i64, y: i64, width: i64, height: i64 },
    /// A disc round the origin.
    Circle { radius: i64 },
    /// A triangle, given by its corners.
    Triangle { a: Vec2, b: Vec2, c: Vec2 },
}

/// The shape of each kind: the shield a disc as wide as its reach, an enemy a
/// triangle with its tip ahead, a shot a small disc, the player an oblong that
/// sticks out ahead.
pub open spec fn shape_for(kind: EntityKind) -> Shape {
    match kind {
        EntityKind::Shield => Shape::Circle { radius: SHIELD_RADIUS },
        EntityKind::Enemy => Shape::Triangle {
            a: Vec2 { x: (-30_000_000) as i64, y: 30_000_000 },
            b: Vec2 { x: (-30_000_000) as i64, y: (-30_000_000) as i64 },
            c: Vec2 { x: 60_000_000, y: 0 },
        },
        EntityKind::Shot => Shape::Circle { radius: 15_000_000 },
        EntityKind::Player => Shape::Rectangle {
            x: (-15_000_000) as i64,
            y: (-15_000_000) as i64,
            width: 100_000_000,
            height: 30_000_000,
        },
    }
}

/// Looks up the shape of a kind of entity.
pub fn shape_of(kind: EntityKind) -> (shape: Shape)
    ensures
        shape == shape_for(kind),
{
    match kind {
        EntityKind::Shield => Shape::Circle { radius: SHIELD_RADIUS },
        EntityKind::Enemy => Shape::Triangle {
            a: Vec2 { x: -30_000_000, y: 30_000_000 },
            b: Vec2 { x: -30_000_000, y: -30_000_000 },
            c: Vec2 { x: 60_000_000, y: 0 },
        },
        EntityKind::Shot => Shape::Circle { radius: 15_000_000 },
        EntityKind::Player => Shape::Rectangle {
            x: -15_000_000,
            y: -15_000_000,
            width: 100_000_000,
            height: 30_000_000,
        },
    }
}

} // verus!
