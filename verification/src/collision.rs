//! Shots against enemies: who is hit, and who is left after a frame.

use vstd::prelude::*;
use crate::entity::{Enemy, Mobile};
use crate::vector::{is_within_reach, within_reach};

verus! {

/// A shot destroys an enemy whose position is at most this far from its own:
/// forty arena units.
pub const HIT_DISTANCE: i64 = 40_000_000;

/// Whether `shot` is close enough to `enemy` to destroy it.
pub open spec fn hits(shot: Mobile, enemy: Enemy) -> bool {
    within_reach(shot.transform.position, enemy.transform.position, HIT_DISTANCE as int)
}

/// The highest index below `upto` of an enemy that `shot` hits, or -1 where it
/// hits none of them.
pub open spec fn last_hit(shot: Mobile, enemies: Seq<Enemy>, upto: int) -> int
    decreases upto,
{
    if upto <= 0 {
        -1
    } else if hits(shot, enemies[upto - 1]) {
        upto - 1
    } else {
        last_hit(shot, enemies, upto - 1)
    }
}

/// The shots and enemies that are left once the first `pending` shots have
/// been tried, last shot first: a shot that hits an enemy leaves together with
/// the last enemy it hits, and the shots before it meet only the enemies that
/// are still there.
pub open spec fn resolved(shots: Seq<Mobile>, enemies: Seq<Enemy>, pending: int) -> (
    Seq<Mobile>,
    Seq<Enemy>,
)
    decreases pending,
{
    if pending <= 0 {
        (shots, enemies)
    } else {
        let target = last_hit(shots[pending - 1], enemies, enemies.len() as int);
        if target >= 0 {
            resolved(shots.remove(pending - 1), enemies.remove(target), pending - 1)
        } else {
            resolved(shots, enemies, pending - 1)
        }
    }
}

/// Every shot in `shots` is well formed.
pub open spec fn shots_wf(shots: Seq<Mobile>) -> bool {
    forall|i: int| 0 <= i < shots.len() ==> (#[trigger] shots[i]).wf()
}

/// Every enemy in `enemies` is well formed.
pub open spec fn enemies_wf(enemies: Seq<Enemy>) -> bool {
    forall|i: int| 0 <= i < enemies.len() ==> (#[trigger] enemies[i]).wf()
}

/// `last_hit` names an enemy that is hit and lies above every other that is,
/// or says -1 where none is.
pub proof fn lemma_last_hit(shot: Mobile, enemies: Seq<Enemy>, upto: int)
    requires
        0 <= upto <= enemies.len(),
    ensures
        -1 <= last_hit(shot, enemies, upto) < upto,
        last_hit(shot, enemies, upto) >= 0 ==> hits(
            shot,
            enemies[last_hit(shot, enemies, upto)],
        ),
        forall|k: int|
            last_hit(shot, enemies, upto) < k < upto ==> !hits(shot, #[trigger] enemies[k]),
    decreases upto,
{
    if upto > 0 && !hits(shot, enemies[upto - 1]) {
        lemma_last_hit(shot, enemies, upto - 1);
    }
}

/// Every removed shot takes exactly one enemy with it: as many enemies leave
/// as shots do, and no more shots leave than were tried.
pub proof fn lemma_one_enemy_per_shot(shots: Seq<Mobile>, enemies: Seq<Enemy>, pending: int)
    requires
        0 <= pending <= shots.len(),
    ensures
        resolved(shots, enemies, pending).0.len() <= shots.len(),
        resolved(shots, enemies, pending).1.len() <= enemies.len(),
        shots.len() - resolved(shots, enemies, pending).0.len() == enemies.len() - resolved(
            shots,
            enemies,
            pending,
        ).1.len(),
        shots.len() - resolved(shots, enemies, pending).0.len() <= pending,
    decreases pending,
{
    if pending > 0 {
        let target = last_hit(shots[pending - 1], enemies, enemies.len() as int);
        lemma_last_hit(shots[pending - 1], enemies, enemies.len() as int);
        if target >= 0 {
            lemma_one_enemy_per_shot(
                shots.remove(pending - 1),
                enemies.remove(target),
                pending - 1,
            );
        } else {
            lemma_one_enemy_per_shot(shots, enemies, pending - 1);
        }
    }
}

/// A single shot among several enemies within its reach destroys one of them
/// only, the last in the collection, and leaves with it; a shot that hits
/// none stays, and so do they all.
pub proof fn lemma_first_match_wins(shot: Mobile, enemies: Seq<Enemy>)
    ensures
        ({
            let target = last_hit(shot, enemies, enemies.len() as int);
            resolved(seq![shot], enemies, 1) == if target >= 0 {
                (Seq::<Mobile>::empty(), enemies.remove(target))
            } else {
                (seq![shot], enemies)
            }
        }),
{
    let target = last_hit(shot, enemies, enemies.len() as int);
    assert(seq![shot][0] == shot);
    assert(seq![shot].remove(0) =~= Seq::<Mobile>::empty());
    assert(resolved(seq![shot], enemies, 0) == (seq![shot], enemies));
    assert(resolved(Seq::<Mobile>::empty(), enemies.remove(target), 0) == (
        Seq::<Mobile>::empty(),
        enemies.remove(target),
    ));
}

/// No shot at index `from` or above hits any of the enemies.
pub open spec fn clear_from(shots: Seq<Mobile>, enemies: Seq<Enemy>, from: int) -> bool {
    forall|a: int, b: int|
        from <= a < shots.len() && 0 <= b < enemies.len() ==> !hits(
            #[trigger] shots[a],
            #[trigger] enemies[b],
        )
}

/// Once the shots from `pending` on hit no enemy, resolving the first
/// `pending` shots leaves no shot that hits an enemy.
pub proof fn lemma_resolved_is_clear(shots: Seq<Mobile>, enemies: Seq<Enemy>, pending: int)
    requires
        0 <= pending <= shots.len(),
        clear_from(shots, enemies, pending),
    ensures
        clear_from(
            resolved(shots, enemies, pending).0,
            resolved(shots, enemies, pending).1,
            0,
        ),
    decreases pending,
{
    if pending > 0 {
        let i = pending - 1;
        let target = last_hit(shots[i], enemies, enemies.len() as int);
        lemma_last_hit(shots[i], enemies, enemies.len() as int);
        if target >= 0 {
            let fewer_shots = shots.remove(i);
            let fewer_enemies = enemies.remove(target);
            assert forall|a: int, b: int|
                i <= a < fewer_shots.len() && 0 <= b < fewer_enemies.len() implies !hits(
                #[trigger] fewer_shots[a],
                #[trigger] fewer_enemies[b],
            ) by {
                assert(fewer_shots[a] == shots[a + 1]);
                if b < target {
                    assert(fewer_enemies[b] == enemies[b]);
                } else {
                    assert(fewer_enemies[b] == enemies[b + 1]);
                }
            }
            lemma_resolved_is_clear(fewer_shots, fewer_enemies, i);
        } else {
            assert forall|a: int, b: int|
                i <= a < shots.len() && 0 <= b < enemies.len() implies !hits(
                #[trigger] shots[a],
                #[trigger] enemies[b],
            ) by {
                if a == i {
                    assert(!hits(shots[i], enemies[b]));
                }
            }
            lemma_resolved_is_clear(shots, enemies, i);
        }
    }
}

/// After a frame's collisions are resolved, no shot that is left is within
/// reach of an enemy that is left.
pub proof fn lemma_survivors_do_not_touch(shots: Seq<Mobile>, enemies: Seq<Enemy>)
    ensures
        clear_from(
            resolved(shots, enemies, shots.len() as int).0,
            resolved(shots, enemies, shots.len() as int).1,
            0,
        ),
{
    lemma_resolved_is_clear(shots, enemies, shots.len() as int);
}

/// Resolving collisions only removes: every shot and every enemy that is
/// left was there before.
pub proof fn lemma_survivors_were_there(shots: Seq<Mobile>, enemies: Seq<Enemy>, pending: int)
    requires
        0 <= pending <= shots.len(),
    ensures
        forall|k: int|
            0 <= k < resolved(shots, enemies, pending).0.len() ==> shots.contains(
                #[trigger] resolved(shots, enemies, pending).0[k],
            ),
        forall|k: int|
            0 <= k < resolved(shots, enemies, pending).1.len() ==> enemies.contains(
                #[trigger] resolved(shots, enemies, pending).1[k],
            ),
    decreases pending,
{
    let left = resolved(shots, enemies, pending);
    if pending > 0 {
        let i = pending - 1;
        let target = last_hit(shots[i], enemies, enemies.len() as int);
        lemma_last_hit(shots[i], enemies, enemies.len() as int);
        if target >= 0 {
            let fewer_shots = shots.remove(i);
            let fewer_enemies = enemies.remove(target);
            assert(left == resolved(fewer_shots, fewer_enemies, i));
            lemma_survivors_were_there(fewer_shots, fewer_enemies, i);
            assert forall|k: int| 0 <= k < left.0.len() implies shots.contains(
                #[trigger] left.0[k],
            ) by {
                assert(fewer_shots.contains(resolved(fewer_shots, fewer_enemies, i).0[k]));
                let at = choose|at: int| 0 <= at < fewer_shots.len() && fewer_shots[at] == left.0[k];
                if at < i {
                    assert(shots[at] == left.0[k]);
                } else {
                    assert(shots[at + 1] == left.0[k]);
                }
            }
            assert forall|k: int| 0 <= k < left.1.len() implies enemies.contains(
                #[trigger] left.1[k],
            ) by {
                assert(fewer_enemies.contains(resolved(fewer_shots, fewer_enemies, i).1[k]));
                let at = choose|at: int|
                    0 <= at < fewer_enemies.len() && fewer_enemies[at] == left.1[k];
                if at < target {
                    assert(enemies[at] == left.1[k]);
                } else {
                    assert(enemies[at + 1] == left.1[k]);
                }
            }
        } else {
            assert(left == resolved(shots, enemies, i));
            lemma_survivors_were_there(shots, enemies, i);
            assert forall|k: int| 0 <= k < left.0.len() implies shots.contains(
                #[trigger] left.0[k],
            ) by {
                assert(shots.contains(resolved(shots, enemies, i).0[k]));
            }
            assert forall|k: int| 0 <= k < left.1.len() implies enemies.contains(
                #[trigger] left.1[k],
            ) by {
                assert(enemies.contains(resolved(shots, enemies, i).1[k]));
            }
        }
    } else {
        assert(left == (shots, enemies));
        assert forall|k: int| 0 <= k < left.0.len() implies shots.contains(
            #[trigger] left.0[k],
        ) by {
            assert(shots[k] == left.0[k]);
        }
        assert forall|k: int| 0 <= k < left.1.len() implies enemies.contains(
            #[trigger] left.1[k],
        ) by {
            assert(enemies[k] == left.1[k]);
        }
    }
}

/// Looks for the enemy that `shot` destroys: the last one in `enemies` that it
/// hits.
pub fn find_target(shot: &Mobile, enemies: &Vec<Enemy>) -> (target: Option<usize>)
    requires
        shot.wf(),
        enemies_wf(enemies@),
    ensures
        match target {
            Some(j) => j < enemies.len() && j == last_hit(*shot, enemies@, enemies.len() as int),
            None => last_hit(*shot, enemies@, enemies.len() as int) == -1,
        },
{
    let mut j: usize = enemies.len();
    while j > 0
        invariant
            j <= enemies.len(),
            shot.wf(),
            enemies_wf(enemies@),
            last_hit(*shot, enemies@, enemies.len() as int) == last_hit(*shot, enemies@, j as int),
        decreases j,
    {
        j -= 1;
        if is_within_reach(
            &shot.transform.position,
            &enemies[j].transform.position,
            HIT_DISTANCE,
        ) {
            return Some(j);
        }
    }
    None
}

/// Removes every shot that hits an enemy, together with the enemy it hits.
/// Shots are tried last to first, each against the enemies that are still
/// there, last to first; a shot leaves with the first enemy it is found to
/// hit and is tried against no other.
pub fn resolve_collisions(shots: &mut Vec<Mobile>, enemies: &mut Vec<Enemy>)
    requires
        shots_wf(old(shots)@),
        enemies_wf(old(enemies)@),
    ensures
        (final(shots)@, final(enemies)@) == resolved(
            old(shots)@,
            old(enemies)@,
            old(shots)@.len() as int,
        ),
        shots_wf(final(shots)@),
        enemies_wf(final(enemies)@),
{
    let mut i: usize = shots.len();
    while i > 0
        invariant
            i <= shots.len(),
            shots_wf(shots@),
            enemies_wf(enemies@),
            resolved(shots@, enemies@, i as int) == resolved(
                old(shots)@,
                old(enemies)@,
                old(shots)@.len() as int,
            ),
        decreases i,
    {
        i -= 1;
        let shot = shots[i];
        match find_target(&shot, enemies) {
            Some(j) => {
                shots.remove(i);
                enemies.remove(j);
            },
            None => {},
        }
    }
}

} // verus!
