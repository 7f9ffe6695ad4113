//! Where enemies start and which way they head, decided by random draws.

use vstd::prelude::*;
use rand::rngs::StdRng;
use rand::RngCore;
use crate::collision::enemies_wf;
use crate::entity::Enemy;
use crate::transform::Transform;
use crate::vector::{
    div_toward_zero, in_range, lemma_product_bounds, magnitude, Rotation, Vec2, COORD_MAX,
};

verus! {

/// The generator that enemies are drawn from. Its state is closed to the
/// library, which only hands it on.
#[verifier::external_type_specification]
#[verifier::external_body]
pub struct ExStdRng(rand::rngs::StdRng);

/// The number of values a draw can take: a draw `d` stands for the fraction
/// `d / DRAW_RANGE`, which is at least zero and less than one.
pub const DRAW_RANGE: i64 = 4_294_967_296;

/// The number of draws that fall into one quarter of the draw range.
pub const QUARTER_RANGE: u32 = 1_073_741_824;

/// The speed of an enemy along each axis: ten arena units per frame along a
/// diagonal, which is ten times the square root of one half, to the nearest
/// micro-unit.
pub const DIAGONAL_SPEED: i64 = 7_071_068;

/// Takes the next thirty-two bits out of `rng`, by `RngCore::next_u32` as
/// `rand` implements it for `StdRng`. The call advances the generator and
/// cannot fail. Nothing is claimed of the bits that come back.
#[verifier::external_body]
fn next_draw(rng: &mut StdRng) -> (bits: u32) {
    rng.next_u32()
}

/// The part of `extent` that the fraction standing behind `draw` cuts off,
/// fractions of a micro-unit dropped.
pub open spec fn fraction_of(extent: int, draw: int) -> int {
    div_toward_zero(extent * draw, DRAW_RANGE as int)
}

/// The velocity of an enemy that heads into the given quarter of the plane,
/// quarters counted from the one where both coordinates grow and on in the
/// sense that turns the x axis onto the y axis.
pub open spec fn diagonal(quarter: int) -> Vec2 {
    if quarter == 0 {
        Vec2 { x: DIAGONAL_SPEED, y: DIAGONAL_SPEED }
    } else if quarter == 1 {
        Vec2 { x: (-DIAGONAL_SPEED) as i64, y: DIAGONAL_SPEED }
    } else if quarter == 2 {
        Vec2 { x: (-DIAGONAL_SPEED) as i64, y: (-DIAGONAL_SPEED) as i64 }
    } else {
        Vec2 { x: DIAGONAL_SPEED, y: (-DIAGONAL_SPEED) as i64 }
    }
}

/// The enemy that three draws make in an arena of the given size: `turn`
/// picks the diagonal it heads along, `across` and `down` the fractions of the
/// arena's width and height at which it starts. It faces where it heads.
pub open spec fn spawned(size: Vec2, turn: u32, across: u32, down: u32) -> Enemy {
    Enemy {
        transform: Transform {
            position: Vec2 {
                x: fraction_of(size.x as int, across as int) as i64,
                y: fraction_of(size.y as int, down as int) as i64,
            },
            scale: Transform::initial().scale,
            rotation: Rotation::along(diagonal(turn as int / QUARTER_RANGE as int)),
        },
        velocity: diagonal(turn as int / QUARTER_RANGE as int),
    }
}

/// Whether some three draws make `enemy` in an arena of the given size.
pub open spec fn is_spawn(enemy: Enemy, size: Vec2) -> bool {
    exists|turn: u32, across: u32, down: u32| enemy == spawned(size, turn, across, down)
}

/// A part of an extent is no longer than the extent and lies on its side of
/// zero.
pub proof fn lemma_fraction_bounds(extent: int, draw: int)
    requires
        0 <= draw < DRAW_RANGE,
    ensures
        magnitude(fraction_of(extent, draw)) <= magnitude(extent),
        extent >= 0 ==> 0 <= fraction_of(extent, draw) <= extent,
        extent > 0 ==> fraction_of(extent, draw) < extent,
        extent <= 0 ==> extent <= fraction_of(extent, draw) <= 0,
{
    let range = DRAW_RANGE as int;
    if extent >= 0 {
        let n = extent * draw;
        assert(0 <= n && n <= extent * range && (extent > 0 ==> n < extent * range))
            by (nonlinear_arith)
            requires
                n == extent * draw,
                0 <= draw < range,
                extent >= 0,
        ;
        lemma_quotient_bounds(n, range, extent);
    } else {
        let n = (-extent) * draw;
        assert(n == -(extent * draw)) by (nonlinear_arith)
            requires
                n == (-extent) * draw,
        ;
        assert(0 <= n && n <= (-extent) * range) by (nonlinear_arith)
            requires
                n == (-extent) * draw,
                0 <= draw < range,
                extent < 0,
        ;
        lemma_quotient_bounds(n, range, -extent);
    }
}

/// A number between zero and `bound * d` has its quotient by `d` between zero
/// and `bound`, and below `bound` where the number is below `bound * d`.
proof fn lemma_quotient_bounds(n: int, d: int, bound: int)
    requires
        d > 0,
        0 <= n <= bound * d,
    ensures
        0 <= n / d <= bound,
        n < bound * d ==> n / d < bound,
{
    assert(0 <= n / d <= bound && (n < bound * d ==> n / d < bound)) by (nonlinear_arith)
        requires
            d > 0,
            0 <= n <= bound * d,
    ;
}

/// Cuts off the part of `extent` that the fraction standing behind `draw`
/// names.
pub fn scale_fraction(extent: i64, draw: u32) -> (part: i64)
    requires
        in_range(extent as int),
    ensures
        part == fraction_of(extent as int, draw as int),
        in_range(part as int),
{
    let wide: i128 = extent as i128;
    let d: i128 = draw as i128;
    proof {
        lemma_product_bounds(wide as int, d as int, COORD_MAX as int, DRAW_RANGE as int);
    }
    proof {
        lemma_fraction_bounds(extent as int, draw as int);
    }
    let part: i128 = (wide * d) / (DRAW_RANGE as i128);
    part as i64
}

/// Makes the enemy that the three draws stand for.
pub fn spawn_enemy(size: &Vec2, turn: u32, across: u32, down: u32) -> (enemy: Enemy)
    requires
        size.wf(),
    ensures
        enemy == spawned(*size, turn, across, down),
        enemy.wf(),
{
    let quarter: u32 = turn / QUARTER_RANGE;
    let velocity = if quarter == 0 {
        Vec2 { x: DIAGONAL_SPEED, y: DIAGONAL_SPEED }
    } else if quarter == 1 {
        Vec2 { x: -DIAGONAL_SPEED, y: DIAGONAL_SPEED }
    } else if quarter == 2 {
        Vec2 { x: -DIAGONAL_SPEED, y: -DIAGONAL_SPEED }
    } else {
        Vec2 { x: DIAGONAL_SPEED, y: -DIAGONAL_SPEED }
    };
    let mut enemy = Enemy::default();
    enemy.transform.position = Vec2 {
        x: scale_fraction(size.x, across),
        y: scale_fraction(size.y, down),
    };
    enemy.transform.rotation = Rotation::of(&velocity);
    enemy.velocity = velocity;
    enemy
}

/// In an arena of a size that is not negative, an enemy starts inside the
/// arena, heads along a diagonal at `DIAGONAL_SPEED` on each axis, and faces
/// where it heads.
pub proof fn lemma_spawn_in_arena(size: Vec2, turn: u32, across: u32, down: u32)
    requires
        size.wf(),
        size.x >= 0,
        size.y >= 0,
    ensures
        0 <= spawned(size, turn, across, down).transform.position.x <= size.x,
        0 <= spawned(size, turn, across, down).transform.position.y <= size.y,
        magnitude(spawned(size, turn, across, down).velocity.x as int) == DIAGONAL_SPEED,
        magnitude(spawned(size, turn, across, down).velocity.y as int) == DIAGONAL_SPEED,
        spawned(size, turn, across, down).transform.rotation == Rotation::along(
            spawned(size, turn, across, down).velocity,
        ),
        spawned(size, turn, across, down).wf(),
{
    lemma_fraction_bounds(size.x as int, across as int);
    lemma_fraction_bounds(size.y as int, down as int);
}

/// Makes `n_enemy` enemies for an arena of the given size, each from three
/// draws out of `rng`: one for its heading, one for its place across the
/// arena, one for its place down the arena, in that order.
pub fn create_enemies(size: &Vec2, n_enemy: usize, rng: &mut StdRng) -> (enemies: Vec<Enemy>)
    requires
        size.wf(),
    ensures
        enemies.len() == n_enemy,
        forall|i: int| 0 <= i < enemies.len() ==> is_spawn(#[trigger] enemies[i], *size),
        enemies_wf(enemies@),
{
    let mut enemies: Vec<Enemy> = Vec::new();
    let mut i: usize = 0;
    while i < n_enemy
        invariant
            i <= n_enemy,
            enemies.len() == i,
            size.wf(),
            forall|k: int| 0 <= k < enemies.len() ==> is_spawn(#[trigger] enemies[k], *size),
            enemies_wf(enemies@),
        decreases n_enemy - i,
    {
        let turn: u32 = next_draw(rng);
        let across: u32 = next_draw(rng);
        let down: u32 = next_draw(rng);
        let enemy = spawn_enemy(size, turn, across, down);
        enemies.push(enemy);
        i += 1;
    }
    enemies
}

} // verus!
