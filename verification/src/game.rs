//! The simulation state and its frame step.

use vstd::prelude::*;
use rand::rngs::StdRng;
use crate::collision::{
    enemies_wf, lemma_survivors_were_there, resolve_collisions, resolved, shots_wf,
};
use crate::entity::{out_of_bounds, Enemy, Mobile, Player, Shield, SHIELD_RADIUS};
use crate::spawn::{create_enemies, is_spawn};
use crate::shape::EntityKind;
use crate::transform::{draw_params_of, get_draw_params, DrawParams, Transform};
use crate::vector::{clamp_coord, Vec2};

verus! {

/// The number of enemies a new game starts with.
pub const N_ENEMY: usize = 50;

/// What becomes of a shot that leaves the arena.
#[derive(Clone, Copy, Debug, PartialEq, Eq, Structural)]
pub enum ShotBoundsPolicy {
    /// It flies on for ever.
    Unbounded,
    /// It is removed in the frame in which it left.
    Bounded,
}

/// The rules a game is played by.
#[derive(Clone, Copy, Debug, PartialEq, Eq, Structural)]
pub struct Config {
    pub shot_bounds_policy: ShotBoundsPolicy,
    /// Whether a shield stands round the player's starting place.
    pub shield: bool,
    /// Whether shots destroy enemies.
    pub collisions: bool,
}

/// A button of the pointing device.
#[derive(Clone, Copy, Debug, PartialEq, Eq, Structural)]
pub enum MouseButton {
    Left,
    Right,
    Middle,
    Other,
}

/// The whole state of a game. It owns every entity.
#[derive(Debug)]
pub struct Game {
    pub shield: Option<Shield>,
    pub player: Player,
    pub shots: Vec<Mobile>,
    pub enemies: Vec<Enemy>,
    pub size: Vec2,
    pub shot_bounds_policy: ShotBoundsPolicy,
    pub collisions: bool,
}

/// The player of a new game in an arena of the given size: in its middle.
pub open spec fn initial_player(size: Vec2) -> Player {
    Player {
        transform: Transform {
            position: size.halved(),
            scale: Transform::initial().scale,
            rotation: Transform::initial().rotation,
        },
    }
}

/// The shield of a new game, where the rules have one: where the player
/// starts, placed as the player is.
pub open spec fn initial_shield(size: Vec2, config: Config) -> Option<Shield> {
    if config.shield {
        Some(Shield { transform: initial_player(size).transform, radius: SHIELD_RADIUS })
    } else {
        None
    }
}

/// Whether a shot that has just moved stays in the game: always where shots
/// are unbounded, and else unless it has left the arena.
pub open spec fn stays(shot: Mobile, size: Vec2, policy: ShotBoundsPolicy) -> bool {
    policy == ShotBoundsPolicy::Unbounded || !out_of_bounds(shot.transform.position, size)
}

/// The shots, each after one frame of flight.
pub open spec fn moved_shots(shots: Seq<Mobile>) -> Seq<Mobile> {
    shots.map_values(|shot: Mobile| shot.advanced())
}

/// The shots that are in flight after a frame, before any collision: each has
/// moved, those that do not stay are gone, and the others keep their order.
pub open spec fn advanced_shots(shots: Seq<Mobile>, size: Vec2, policy: ShotBoundsPolicy) -> Seq<
    Mobile,
> {
    moved_shots(shots).filter(|shot: Mobile| stays(shot, size, policy))
}

/// The enemies, each after one frame.
pub open spec fn stepped_enemies(enemies: Seq<Enemy>, size: Vec2, shield: Option<Shield>) -> Seq<
    Enemy,
> {
    enemies.map_values(|enemy: Enemy| enemy.stepped(size, shield))
}

/// One shape to put on the screen.
#[derive(Clone, Copy, Debug, PartialEq, Eq, Structural)]
pub struct DrawCall {
    pub kind: EntityKind,
    pub params: DrawParams,
}

/// The draw call that shows an entity of the given kind and placement.
pub open spec fn draw_call_of(kind: EntityKind, transform: Transform) -> DrawCall {
    DrawCall { kind, params: draw_params_of(transform) }
}

impl Game {
    /// Every entity and the arena lie in the coordinate range.
    pub open spec fn wf(self) -> bool {
        &&& self.size.wf()
        &&& self.player.wf()
        &&& (self.shield matches Some(s) ==> s.wf())
        &&& shots_wf(self.shots@)
        &&& enemies_wf(self.enemies@)
    }

    /// Whether everything but the shots is the same in `self` and `other`.
    pub open spec fn same_but_shots(self, other: Game) -> bool {
        &&& self.shield == other.shield
        &&& self.player == other.player
        &&& self.enemies@ == other.enemies@
        &&& self.size == other.size
        &&& self.shot_bounds_policy == other.shot_bounds_policy
        &&& self.collisions == other.collisions
    }

    /// Tells whether the game is well formed.
    pub fn is_wf(&self) -> (r: bool)
        ensures
            r == self.wf(),
    {
        if !self.size.is_wf() || !self.player.transform.is_wf() {
            return false;
        }
        match &self.shield {
            Some(shield) => {
                if !shield.transform.is_wf() {
                    return false;
                }
            },
            None => {},
        }
        let mut i: usize = 0;
        while i < self.shots.len()
            invariant
                i <= self.shots.len(),
                forall|k: int| 0 <= k < i ==> (#[trigger] self.shots@[k]).wf(),
            decreases self.shots.len() - i,
        {
            if !self.shots[i].is_wf() {
                return false;
            }
            i += 1;
        }
        let mut j: usize = 0;
        while j < self.enemies.len()
            invariant
                j <= self.enemies.len(),
                shots_wf(self.shots@),
                forall|k: int| 0 <= k < j ==> (#[trigger] self.enemies@[k]).wf(),
            decreases self.enemies.len() - j,
        {
            if !self.enemies[j].is_wf() {
                return false;
            }
            j += 1;
        }
        true
    }

    /// Sets up a game in an arena `width` by `height` micro-units large, each
    /// brought into the coordinate range: the player in the middle of it, no
    /// shot in flight, `N_ENEMY` enemies drawn from `rng`, and the shield the
    /// rules ask for.
    pub fn new(width: i64, height: i64, config: &Config, rng: &mut StdRng) -> (game: Game)
        ensures
            game.wf(),
            game.size.x == clamp_coord(width as int),
            game.size.y == clamp_coord(height as int),
            game.player == initial_player(game.size),
            game.shield == initial_shield(game.size, *config),
            game.shots@.len() == 0,
            game.enemies@.len() == N_ENEMY,
            forall|i: int|
                0 <= i < game.enemies@.len() ==> is_spawn(#[trigger] game.enemies@[i], game.size),
            game.shot_bounds_policy == config.shot_bounds_policy,
            game.collisions == config.collisions,
    {
        let size = Vec2::new(width, height);
        let mut player = Player::default();
        player.transform.position = size.half();
        let shield = if config.shield {
            Some(Shield { transform: player.transform, radius: SHIELD_RADIUS })
        } else {
            None
        };
        Game {
            shield,
            player,
            shots: Vec::new(),
            enemies: create_enemies(&size, N_ENEMY, rng),
            size,
            shot_bounds_policy: config.shot_bounds_policy,
            collisions: config.collisions,
        }
    }

    /// Fires a shot the way the player faces: the shot joins the shots in
    /// flight, behind them all. Nothing limits their number.
    pub fn player_shoot(&mut self)
        requires
            old(self).wf(),
        ensures
            final(self).shots@ == old(self).shots@.push(old(self).player.shot()),
            final(self).same_but_shots(*old(self)),
            final(self).wf(),
    {
        let shot = self.player.fire();
        self.shots.push(shot);
    }

    /// Answers a button press: the left button fires a shot, any other button
    /// does nothing.
    pub fn mouse_button_down_event(&mut self, button: MouseButton)
        requires
            old(self).wf(),
        ensures
            final(self).shots@ == if button == MouseButton::Left {
                old(self).shots@.push(old(self).player.shot())
            } else {
                old(self).shots@
            },
            final(self).same_but_shots(*old(self)),
            final(self).wf(),
    {
        match button {
            MouseButton::Left => self.player_shoot(),
            _ => (),
        }
    }

    /// The shots and enemies that a frame leaves: the shots advanced and
    /// culled, the enemies stepped, and then, where shots destroy enemies,
    /// the collisions between them resolved.
    pub open spec fn frame_outcome(self) -> (Seq<Mobile>, Seq<Enemy>) {
        let shots = advanced_shots(self.shots@, self.size, self.shot_bounds_policy);
        let enemies = stepped_enemies(self.enemies@, self.size, self.shield);
        if self.collisions {
            resolved(shots, enemies, shots.len() as int)
        } else {
            (shots, enemies)
        }
    }

    /// Whether everything but the shots and the enemies is the same in `self`
    /// and `other`.
    pub open spec fn same_setting(self, other: Game) -> bool {
        &&& self.shield == other.shield
        &&& self.player == other.player
        &&& self.size == other.size
        &&& self.shot_bounds_policy == other.shot_bounds_policy
        &&& self.collisions == other.collisions
    }

    /// Moves every shot by one frame and removes those that do not stay. The
    /// shots are visited last to first, so that a removal never shifts a shot
    /// that is still to be visited.
    pub fn advance_shots(&mut self)
        requires
            old(self).wf(),
        ensures
            final(self).shots@ == advanced_shots(
                old(self).shots@,
                old(self).size,
                old(self).shot_bounds_policy,
            ),
            final(self).same_but_shots(*old(self)),
            final(self).wf(),
    {
        let ghost before = self.shots@;
        let ghost moved = moved_shots(before);
        let ghost keep = |shot: Mobile| stays(shot, self.size, self.shot_bounds_policy);
        let mut i: usize = self.shots.len();
        proof {
            assert(moved.skip(i as int) =~= Seq::<Mobile>::empty());
            lemma_filter_empty(keep);
            assert(self.shots@ =~= before.take(i as int) + moved.skip(i as int).filter(keep));
        }
        while i > 0
            invariant
                i <= before.len(),
                moved == moved_shots(before),
                keep == |shot: Mobile| stays(shot, self.size, self.shot_bounds_policy),
                shots_wf(before),
                self.shots@ == before.take(i as int) + moved.skip(i as int).filter(keep),
                self.same_but_shots(*old(self)),
                self.wf(),
            decreases i,
        {
            i -= 1;
            let ghost rest = moved.skip(i as int + 1).filter(keep);
            assert(self.shots@.len() == i + 1 + rest.len());
            assert(self.shots@[i as int] == before[i as int]);
            let mut shot = self.shots[i];
            let gone = shot.do_action(&self.size);
            let removed = match self.shot_bounds_policy {
                ShotBoundsPolicy::Bounded => gone,
                ShotBoundsPolicy::Unbounded => false,
            };
            proof {
                assert(shot == moved[i as int]);
                assert(removed == !keep(shot));
                lemma_filter_skip(moved, keep, i as int);
            }
            if removed {
                self.shots.remove(i);
                assert(self.shots@ =~= before.take(i as int) + rest);
            } else {
                self.shots.set(i, shot);
                assert(self.shots@ =~= before.take(i as int) + (seq![shot] + rest));
            }
        }
        proof {
            assert(moved.skip(0) =~= moved);
            assert(self.shots@ =~= moved.filter(keep));
        }
    }

    /// Moves every enemy by one frame.
    pub fn advance_enemies(&mut self)
        requires
            old(self).wf(),
        ensures
            final(self).enemies@ == stepped_enemies(
                old(self).enemies@,
                old(self).size,
                old(self).shield,
            ),
            final(self).shots@ == old(self).shots@,
            final(self).same_setting(*old(self)),
            final(self).wf(),
    {
        let ghost before = self.enemies@;
        let ghost after = stepped_enemies(before, self.size, self.shield);
        let n: usize = self.enemies.len();
        let mut i: usize = 0;
        while i < n
            invariant
                i <= n,
                n == before.len(),
                self.enemies@.len() == n,
                enemies_wf(before),
                after == stepped_enemies(before, self.size, self.shield),
                forall|k: int| 0 <= k < i ==> self.enemies@[k] == after[k],
                forall|k: int| i <= k < n ==> self.enemies@[k] == before[k],
                self.shots@ == old(self).shots@,
                self.same_setting(*old(self)),
                self.wf(),
            decreases n - i,
        {
            let mut enemy = self.enemies[i];
            enemy.do_action(&self.size, &self.shield);
            self.enemies.set(i, enemy);
            i += 1;
        }
        assert(self.enemies@ =~= after);
    }

    /// Plays one frame: the player turns to face `pointer`, the shots advance
    /// and those that do not stay are removed, the enemies move, bounce and
    /// are repelled by the shield as it stands, and at last, where shots
    /// destroy enemies, collisions are resolved. The shield stays where it is.
    pub fn update(&mut self, pointer: &Vec2)
        requires
            old(self).wf(),
            pointer.wf(),
        ensures
            final(self).player == old(self).player.oriented(*pointer),
            (final(self).shots@, final(self).enemies@) == old(self).frame_outcome(),
            final(self).shield == old(self).shield,
            final(self).size == old(self).size,
            final(self).shot_bounds_policy == old(self).shot_bounds_policy,
            final(self).collisions == old(self).collisions,
            final(self).wf(),
    {
        self.player.orient(pointer);
        self.advance_shots();
        self.advance_enemies();
        if self.collisions {
            resolve_collisions(&mut self.shots, &mut self.enemies);
        }
    }
    /// What a frame shows, back to front: the shield where there is one, then
    /// the enemies, then the shots, each group in the order of its
    /// collection, and the player on top.
    pub open spec fn draw_list(self) -> Seq<DrawCall> {
        let shield = match self.shield {
            Some(s) => seq![draw_call_of(EntityKind::Shield, s.transform)],
            None => Seq::<DrawCall>::empty(),
        };
        shield + self.enemies@.map_values(
            |enemy: Enemy| draw_call_of(EntityKind::Enemy, enemy.transform),
        ) + self.shots@.map_values(|shot: Mobile| draw_call_of(EntityKind::Shot, shot.transform))
            + seq![draw_call_of(EntityKind::Player, self.player.transform)]
    }

    /// Lists the draw calls of a frame in the order in which they are to be
    /// issued. The game is only read.
    pub fn draw(&self) -> (calls: Vec<DrawCall>)
        ensures
            calls@ == self.draw_list(),
    {
        let mut calls: Vec<DrawCall> = Vec::new();
        match &self.shield {
            Some(shield) => {
                calls.push(
                    DrawCall {
                        kind: EntityKind::Shield,
                        params: get_draw_params(&shield.transform),
                    },
                );
            },
            None => {},
        }
        let ghost shield_part = calls@;
        let ghost enemy_part = self.enemies@.map_values(
            |enemy: Enemy| draw_call_of(EntityKind::Enemy, enemy.transform),
        );
        let ghost shot_part = self.shots@.map_values(
            |shot: Mobile| draw_call_of(EntityKind::Shot, shot.transform),
        );
        let mut i: usize = 0;
        while i < self.enemies.len()
            invariant
                i <= self.enemies.len(),
                enemy_part == self.enemies@.map_values(
                    |enemy: Enemy| draw_call_of(EntityKind::Enemy, enemy.transform),
                ),
                calls@ == shield_part + enemy_part.take(i as int),
            decreases self.enemies.len() - i,
        {
            calls.push(
                DrawCall {
                    kind: EntityKind::Enemy,
                    params: get_draw_params(&self.enemies[i].transform),
                },
            );
            i += 1;
            assert(calls@ =~= shield_part + enemy_part.take(i as int));
        }
        assert(enemy_part.take(i as int) =~= enemy_part);
        let mut k: usize = 0;
        while k < self.shots.len()
            invariant
                k <= self.shots.len(),
                shot_part == self.shots@.map_values(
                    |shot: Mobile| draw_call_of(EntityKind::Shot, shot.transform),
                ),
                calls@ == shield_part + enemy_part + shot_part.take(k as int),
            decreases self.shots.len() - k,
        {
            calls.push(
                DrawCall {
                    kind: EntityKind::Shot,
                    params: get_draw_params(&self.shots[k].transform),
                },
            );
            k += 1;
            assert(calls@ =~= shield_part + enemy_part + shot_part.take(k as int));
        }
        assert(shot_part.take(k as int) =~= shot_part);
        calls.push(
            DrawCall { kind: EntityKind::Player, params: get_draw_params(&self.player.transform) },
        );
        assert(calls@ =~= self.draw_list());
        calls
    }
}

/// Walls and shield never remove an enemy: as many are there after their
/// move as before, and where shots destroy no enemies a frame leaves them all.
pub proof fn lemma_enemies_outlast_walls(game: Game)
    ensures
        stepped_enemies(game.enemies@, game.size, game.shield).len() == game.enemies@.len(),
        !game.collisions ==> game.frame_outcome().1.len() == game.enemies@.len(),
{
}

/// Where shots are unbounded, a frame removes none of them: all are there
/// afterwards, each moved, in their order.
pub proof fn lemma_unbounded_shots_all_stay(shots: Seq<Mobile>, size: Vec2)
    ensures
        advanced_shots(shots, size, ShotBoundsPolicy::Unbounded) == moved_shots(shots),
{
    let keep = |shot: Mobile| stays(shot, size, ShotBoundsPolicy::Unbounded);
    lemma_filter_keeps_all(moved_shots(shots), keep);
}

/// Where shots are bounded, no shot that a frame has moved beyond the arena
/// is in flight after it, and every shot that is within the arena after its
/// move, its edges included, still is.
pub proof fn lemma_bounded_shots_leave_with_the_arena(shots: Seq<Mobile>, size: Vec2)
    ensures
        forall|k: int|
            0 <= k < advanced_shots(shots, size, ShotBoundsPolicy::Bounded).len()
                ==> !out_of_bounds(
                (#[trigger] advanced_shots(
                    shots,
                    size,
                    ShotBoundsPolicy::Bounded,
                )[k]).transform.position,
                size,
            ),
        forall|i: int|
            0 <= i < shots.len() && !out_of_bounds(
                (#[trigger] shots[i]).advanced().transform.position,
                size,
            ) ==> advanced_shots(shots, size, ShotBoundsPolicy::Bounded).contains(
                shots[i].advanced(),
            ),
        advanced_shots(shots, size, ShotBoundsPolicy::Bounded).len() <= shots.len(),
{
    let keep = |shot: Mobile| stays(shot, size, ShotBoundsPolicy::Bounded);
    let moved = moved_shots(shots);
    let left = advanced_shots(shots, size, ShotBoundsPolicy::Bounded);
    assert forall|k: int| 0 <= k < left.len() implies !out_of_bounds(
        (#[trigger] left[k]).transform.position,
        size,
    ) by {
        moved.lemma_filter_pred(keep, k);
    }
    assert forall|i: int|
        0 <= i < shots.len() && !out_of_bounds(
            (#[trigger] shots[i]).advanced().transform.position,
            size,
        ) implies left.contains(shots[i].advanced()) by {
        assert(moved[i] == shots[i].advanced());
        moved.lemma_filter_contains(keep, i);
    }
    moved.lemma_filter_len(keep);
}

/// Where shots are bounded, no shot is beyond the arena once a frame is
/// over, whether or not shots destroy enemies.
pub proof fn lemma_no_shot_outside_after_frame(game: Game)
    requires
        game.shot_bounds_policy == ShotBoundsPolicy::Bounded,
    ensures
        forall|k: int|
            0 <= k < game.frame_outcome().0.len() ==> !out_of_bounds(
                (#[trigger] game.frame_outcome().0[k]).transform.position,
                game.size,
            ),
{
    let shots = advanced_shots(game.shots@, game.size, ShotBoundsPolicy::Bounded);
    let enemies = stepped_enemies(game.enemies@, game.size, game.shield);
    lemma_bounded_shots_leave_with_the_arena(game.shots@, game.size);
    if game.collisions {
        lemma_survivors_were_there(shots, enemies, shots.len() as int);
        let left = resolved(shots, enemies, shots.len() as int).0;
        assert forall|k: int| 0 <= k < left.len() implies !out_of_bounds(
            (#[trigger] left[k]).transform.position,
            game.size,
        ) by {
            assert(shots.contains(left[k]));
            let at = choose|at: int| 0 <= at < shots.len() && shots[at] == left[k];
            assert(!out_of_bounds(shots[at].transform.position, game.size));
        }
    }
}

/// A filter that every shot passes changes nothing.
proof fn lemma_filter_keeps_all(shots: Seq<Mobile>, keep: spec_fn(Mobile) -> bool)
    requires
        forall|i: int| 0 <= i < shots.len() ==> keep(#[trigger] shots[i]),
    ensures
        shots.filter(keep) == shots,
    decreases shots.len(),
{
    reveal(Seq::filter);
    if shots.len() > 0 {
        lemma_filter_keeps_all(shots.drop_last(), keep);
        assert(shots.drop_last().push(shots.last()) =~= shots);
    }
}

/// Filtering nothing leaves nothing.
proof fn lemma_filter_empty(keep: spec_fn(Mobile) -> bool)
    ensures
        Seq::<Mobile>::empty().filter(keep) == Seq::<Mobile>::empty(),
{
    reveal(Seq::filter);
}

/// Filtering from index `i` on keeps or drops the shot at `i` and then goes on
/// as filtering from `i + 1` does.
proof fn lemma_filter_skip(shots: Seq<Mobile>, keep: spec_fn(Mobile) -> bool, i: int)
    requires
        0 <= i < shots.len(),
    ensures
        shots.skip(i).filter(keep) == if keep(shots[i]) {
            seq![shots[i]] + shots.skip(i + 1).filter(keep)
        } else {
            shots.skip(i + 1).filter(keep)
        },
{
    let head = seq![shots[i]];
    assert(shots.skip(i) =~= head + shots.skip(i + 1));
    Seq::filter_distributes_over_add(head, shots.skip(i + 1), keep);
    reveal_with_fuel(Seq::filter, 2);
    assert(head.drop_last() =~= Seq::<Mobile>::empty());
    assert(head.last() == shots[i]);
    if keep(shots[i]) {
        assert(head.filter(keep) =~= head);
    } else {
        assert(head.filter(keep) =~= Seq::<Mobile>::empty());
        assert(head.filter(keep) + shots.skip(i + 1).filter(keep) =~= shots.skip(i + 1).filter(
            keep,
        ));
    }
}

} // verus!
