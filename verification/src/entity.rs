//! The four kinds of entity and what each does in one frame.

use vstd::prelude::*;
use crate::transform::Transform;
use crate::vector::{
    in_range, is_within_reach, magnitude, move_with_velocity, within_reach, Rotation,
    Vec2,
};

verus! {

/// Whether `position` lies strictly beyond the arena `[0, size.x] x [0, size.y]`
/// on some axis.
pub open spec fn out_of_bounds(position: Vec2, size: Vec2) -> bool {
    position.x < 0 || position.x > size.x || position.y < 0 || position.y > size.y
}

/// One velocity coordinate after the walls had their say: past the far wall it
/// points back, before the near wall it points forward, its magnitude kept.
pub open spec fn reflected_coord(position: int, velocity: int, extent: int) -> int {
    if position > extent {
        -magnitude(velocity)
    } else if position < 0 {
        magnitude(velocity)
    } else {
        velocity
    }
}

/// The velocity of a body at `position` after reflection at the arena's walls,
/// each axis by itself.
pub open spec fn reflected(position: Vec2, velocity: Vec2, size: Vec2) -> Vec2 {
    Vec2 {
        x: reflected_coord(position.x as int, velocity.x as int, size.x as int) as i64,
        y: reflected_coord(position.y as int, velocity.y as int, size.y as int) as i64,
    }
}

/// The radius of the shield of a new game: fifty arena units.
pub const SHIELD_RADIUS: i64 = 50_000_000;

/// How far in front of the player a shot appears, in arena units.
pub const MUZZLE_DISTANCE: i64 = 100;

/// How far a shot flies per frame, in arena units.
pub const SHOT_SPEED: i64 = 10;

/// The player's ship.
#[derive(Clone, Copy, Debug, PartialEq, Eq, Structural)]
pub struct Player {
    pub transform: Transform,
}

/// The circular zone that turns enemies back.
#[derive(Clone, Copy, Debug, PartialEq, Eq, Structural)]
pub struct Shield {
    pub transform: Transform,
    pub radius: i64,
}

/// A projectile.
#[derive(Clone, Copy, Debug, PartialEq, Eq, Structural)]
pub struct Mobile {
    pub transform: Transform,
    pub velocity: Vec2,
}

/// An enemy.
#[derive(Clone, Copy, Debug, PartialEq, Eq, Structural)]
pub struct Enemy {
    pub transform: Transform,
    pub velocity: Vec2,
}

impl Shield {
    /// The shield is placed by a well-formed transform.
    pub open spec fn wf(self) -> bool {
        self.transform.wf()
    }

    /// Whether a body at `position` is inside the zone, its rim included.
    pub open spec fn covers(self, position: Vec2) -> bool {
        within_reach(self.transform.position, position, self.radius as int)
    }
}

/// Whether a shield is there and covers `position`.
pub open spec fn repels(shield: Option<Shield>, position: Vec2) -> bool {
    match shield {
        Some(s) => s.covers(position),
        None => false,
    }
}

impl Enemy {
    /// The transform is well formed and the velocity lies in the coordinate
    /// range.
    pub open spec fn wf(self) -> bool {
        self.transform.wf() && self.velocity.wf()
    }

    /// Where the enemy stands after this frame's move.
    pub open spec fn next_position(self) -> Vec2 {
        self.transform.position.plus(self.velocity)
    }

    /// Whether this frame turns the enemy: it has crossed a wall or stands in
    /// the shield, both judged where it stands after the move.
    pub open spec fn turns(self, size: Vec2, shield: Option<Shield>) -> bool {
        out_of_bounds(self.next_position(), size) || repels(shield, self.next_position())
    }

    /// The enemy's velocity after this frame: reflected at the walls, then
    /// reversed whole if the shield covers the enemy.
    pub open spec fn next_velocity(self, size: Vec2, shield: Option<Shield>) -> Vec2 {
        let bounced = reflected(self.next_position(), self.velocity, size);
        if repels(shield, self.next_position()) {
            bounced.negated()
        } else {
            bounced
        }
    }

    /// The enemy after one frame. It faces along its velocity once the frame
    /// has turned it, and keeps its facing otherwise.
    pub open spec fn stepped(self, size: Vec2, shield: Option<Shield>) -> Enemy {
        Enemy {
            transform: Transform {
                position: self.next_position(),
                scale: self.transform.scale,
                rotation: if self.turns(size, shield) {
                    Rotation::along(self.next_velocity(size, shield))
                } else {
                    self.transform.rotation
                },
            },
            velocity: self.next_velocity(size, shield),
        }
    }

    /// Tells whether the enemy is well formed.
    pub fn is_wf(&self) -> (r: bool)
        ensures
            r == self.wf(),
    {
        self.transform.is_wf() && self.velocity.is_wf()
    }

    /// Moves the enemy by one frame: integrates its position, reflects its
    /// velocity at the arena's walls, reverses it inside the shield, and turns
    /// the enemy to face where it is heading if any of that changed its course.
    pub fn do_action(&mut self, size: &Vec2, player_shield: &Option<Shield>)
        requires
            old(self).wf(),
            player_shield matches Some(s) ==> s.wf(),
        ensures
            *final(self) == old(self).stepped(*size, *player_shield),
            final(self).wf(),
    {
        move_with_velocity(&mut self.transform.position, &self.velocity);
        let position = self.transform.position;
        let mut velocity_changed = false;

        if position.x > size.x {
            self.velocity.x = -abs_coord(self.velocity.x);
            velocity_changed = true;
        } else if position.x < 0 {
            self.velocity.x = abs_coord(self.velocity.x);
            velocity_changed = true;
        }

        if position.y > size.y {
            self.velocity.y = -abs_coord(self.velocity.y);
            velocity_changed = true;
        } else if position.y < 0 {
            self.velocity.y = abs_coord(self.velocity.y);
            velocity_changed = true;
        }

        match player_shield {
            Some(shield) => {
                if is_within_reach(&shield.transform.position, &position, shield.radius) {
                    self.velocity = self.velocity.neg();
                    velocity_changed = true;
                }
            },
            None => {},
        }

        if velocity_changed {
            self.transform.rotation = Rotation::of(&self.velocity);
        }
    }
}

impl Default for Enemy {
    /// An enemy at rest at the origin.
    fn default() -> (r: Enemy)
        ensures
            r == (Enemy { transform: Transform::initial(), velocity: Vec2 { x: 0, y: 0 } }),
            r.wf(),
    {
        Enemy { transform: Transform::default(), velocity: Vec2 { x: 0, y: 0 } }
    }
}

/// An enemy that has crossed the far wall on an axis and is not inside the
/// shield ends the frame with its velocity on that axis pointing back into the
/// arena, magnitude kept; one that has crossed only the near wall ends it
/// pointing forward; one between the walls keeps its velocity on that axis.
pub proof fn lemma_reflection_points_inward(enemy: Enemy, size: Vec2, shield: Option<Shield>)
    requires
        enemy.wf(),
        !repels(shield, enemy.next_position()),
    ensures
        enemy.next_position().x > size.x ==> {
            &&& enemy.stepped(size, shield).velocity.x == -magnitude(enemy.velocity.x as int)
            &&& enemy.stepped(size, shield).velocity.x <= 0
        },
        enemy.next_position().x < 0 && enemy.next_position().x <= size.x ==> {
            &&& enemy.stepped(size, shield).velocity.x == magnitude(enemy.velocity.x as int)
            &&& enemy.stepped(size, shield).velocity.x >= 0
        },
        0 <= enemy.next_position().x <= size.x ==> enemy.stepped(size, shield).velocity.x
            == enemy.velocity.x,
        enemy.next_position().y > size.y ==> {
            &&& enemy.stepped(size, shield).velocity.y == -magnitude(enemy.velocity.y as int)
            &&& enemy.stepped(size, shield).velocity.y <= 0
        },
        enemy.next_position().y < 0 && enemy.next_position().y <= size.y ==> {
            &&& enemy.stepped(size, shield).velocity.y == magnitude(enemy.velocity.y as int)
            &&& enemy.stepped(size, shield).velocity.y >= 0
        },
        0 <= enemy.next_position().y <= size.y ==> enemy.stepped(size, shield).velocity.y
            == enemy.velocity.y,
{
}

/// Whenever a wall or the shield has turned an enemy in a frame, it ends the
/// frame facing along its new velocity; otherwise velocity and facing are
/// what they were.
pub proof fn lemma_turned_enemy_faces_heading(enemy: Enemy, size: Vec2, shield: Option<Shield>)
    requires
        enemy.wf(),
    ensures
        enemy.turns(size, shield) ==> enemy.stepped(size, shield).transform.rotation
            == Rotation::along(enemy.stepped(size, shield).velocity),
        !enemy.turns(size, shield) ==> {
            &&& enemy.stepped(size, shield).transform.rotation == enemy.transform.rotation
            &&& enemy.stepped(size, shield).velocity == enemy.velocity
        },
{
}

/// An enemy that ends its move inside the shield and within the arena leaves
/// the frame with exactly the opposite velocity, whatever that velocity was.
pub proof fn lemma_repulsion_inverts_velocity(enemy: Enemy, size: Vec2, shield: Shield)
    requires
        enemy.wf(),
        shield.covers(enemy.next_position()),
        !out_of_bounds(enemy.next_position(), size),
    ensures
        enemy.stepped(size, Some(shield)).velocity == enemy.velocity.negated(),
        enemy.stepped(size, Some(shield)).velocity.x == -enemy.velocity.x,
        enemy.stepped(size, Some(shield)).velocity.y == -enemy.velocity.y,
{
}

impl Mobile {
    /// The transform is well formed and the velocity lies in the coordinate
    /// range.
    pub open spec fn wf(self) -> bool {
        self.transform.wf() && self.velocity.wf()
    }

    /// The shot after one frame of flight.
    pub open spec fn advanced(self) -> Mobile {
        Mobile {
            transform: Transform {
                position: self.transform.position.plus(self.velocity),
                scale: self.transform.scale,
                rotation: self.transform.rotation,
            },
            velocity: self.velocity,
        }
    }

    /// Tells whether the shot is well formed.
    pub fn is_wf(&self) -> (r: bool)
        ensures
            r == self.wf(),
    {
        self.transform.is_wf() && self.velocity.is_wf()
    }

    /// Moves the shot by one frame and reports whether it has left the arena.
    pub fn do_action(&mut self, size: &Vec2) -> (gone: bool)
        requires
            old(self).wf(),
        ensures
            *final(self) == old(self).advanced(),
            final(self).wf(),
            gone == out_of_bounds(final(self).transform.position, *size),
    {
        move_with_velocity(&mut self.transform.position, &self.velocity);
        let position = self.transform.position;
        position.x < 0 || position.x > size.x || position.y < 0 || position.y > size.y
    }
}

impl Default for Mobile {
    /// A shot at rest at the origin.
    fn default() -> (r: Mobile)
        ensures
            r == (Mobile { transform: Transform::initial(), velocity: Vec2 { x: 0, y: 0 } }),
            r.wf(),
    {
        Mobile { transform: Transform::default(), velocity: Vec2 { x: 0, y: 0 } }
    }
}

impl Player {
    /// The player is placed by a well-formed transform.
    pub open spec fn wf(self) -> bool {
        self.transform.wf()
    }

    /// The player turned to face `pointer`, standing where it stood.
    pub open spec fn oriented(self, pointer: Vec2) -> Player {
        Player {
            transform: Transform {
                position: self.transform.position,
                scale: self.transform.scale,
                rotation: Rotation::facing(self.transform.position, pointer),
            },
        }
    }

    /// The shot that the player fires: it appears `MUZZLE_DISTANCE` unit
    /// vectors along the player's rotation in front of the player, and flies
    /// `SHOT_SPEED` of them per frame.
    pub open spec fn shot(self) -> Mobile {
        let direction = self.transform.rotation.unit_vector();
        Mobile {
            transform: Transform {
                position: self.transform.position.plus(direction.times(MUZZLE_DISTANCE as int)),
                scale: Transform::initial().scale,
                rotation: Transform::initial().rotation,
            },
            velocity: direction.times(SHOT_SPEED as int),
        }
    }

    /// Turns the player to face `pointer`.
    pub fn orient(&mut self, pointer: &Vec2)
        requires
            old(self).wf(),
            pointer.wf(),
        ensures
            *final(self) == old(self).oriented(*pointer),
            final(self).wf(),
    {
        self.transform.rotation = Rotation::toward(&self.transform.position, pointer);
    }

    /// Makes the shot that the player fires the way it faces.
    pub fn fire(&self) -> (shot: Mobile)
        requires
            self.wf(),
        ensures
            shot == self.shot(),
            shot.wf(),
    {
        let direction = self.transform.rotation.unit();
        let mut shot = Mobile::default();
        shot.transform.position = self.transform.position.add(&direction.scale(MUZZLE_DISTANCE));
        shot.velocity = direction.scale(SHOT_SPEED);
        shot
    }
}

impl Default for Player {
    /// A player at the origin.
    fn default() -> (r: Player)
        ensures
            r == (Player { transform: Transform::initial() }),
            r.wf(),
    {
        Player { transform: Transform::default() }
    }
}

/// The magnitude of a coordinate.
pub fn abs_coord(v: i64) -> (r: i64)
    requires
        in_range(v as int),
    ensures
        r == magnitude(v as int),
        in_range(r as int),
{
    if v < 0 {
        -v
    } else {
        v
    }
}

} // verus!
