use arena_shooter::entity::{Enemy, Mobile, Player, Shield, MUZZLE_DISTANCE, SHIELD_RADIUS, SHOT_SPEED};
use arena_shooter::transform::{get_draw_params, DrawParams, Transform};
use arena_shooter::vector::{
    get_length_squared, is_within_reach, move_with_velocity, Rotation, Vec2, COORD_MAX, UNIT,
};

const U: i64 = 1_000_000;

fn at(x: i64, y: i64) -> Vec2 {
    Vec2::new(x * U, y * U)
}

fn enemy(position: Vec2, velocity: Vec2) -> Enemy {
    let mut e = Enemy::default();
    e.transform.position = position;
    e.velocity = velocity;
    e
}

fn shield_at(position: Vec2, radius: i64) -> Shield {
    let mut transform = Transform::default();
    transform.position = position;
    Shield { transform, radius }
}

fn angle(rotation: &Rotation) -> f64 {
    (rotation.y as f64).atan2(rotation.x as f64)
}

#[test]
fn unit_is_a_million_micro_units() {
    assert_eq!(UNIT, 1_000_000);
    assert_eq!(COORD_MAX, 1_000_000_000_000);
    assert_eq!(MUZZLE_DISTANCE, 100);
    assert_eq!(SHOT_SPEED, 10);
    assert_eq!(SHIELD_RADIUS, 50 * U);
}

#[test]
fn new_vector_is_brought_into_range() {
    assert_eq!(Vec2::new(3, -4), Vec2 { x: 3, y: -4 });
    assert_eq!(Vec2::new(i64::MAX, i64::MIN), Vec2 { x: COORD_MAX, y: -COORD_MAX });
    assert_eq!(Vec2::new(COORD_MAX + 1, -COORD_MAX - 1), Vec2 { x: COORD_MAX, y: -COORD_MAX });
    assert!(Vec2::new(i64::MAX, 0).is_wf());
    assert!(!Vec2 { x: COORD_MAX + 1, y: 0 }.is_wf());
    assert!(!Vec2 { x: 0, y: -COORD_MAX - 1 }.is_wf());
    assert_eq!(Vec2::default(), Vec2 { x: 0, y: 0 });
}

#[test]
fn vector_arithmetic() {
    let a = Vec2::new(5, -7);
    let b = Vec2::new(-2, 10);
    assert_eq!(a.add(&b), Vec2 { x: 3, y: 3 });
    assert_eq!(a.scale(-3), Vec2 { x: -15, y: 21 });
    assert_eq!(a.neg(), Vec2 { x: -5, y: 7 });
    assert_eq!(a.half(), Vec2 { x: 2, y: -3 });
    assert_eq!(Vec2::new(COORD_MAX, -COORD_MAX).neg(), Vec2 { x: -COORD_MAX, y: COORD_MAX });
    assert_eq!(Vec2::new(COORD_MAX, 1).add(&Vec2::new(1, 1)), Vec2 { x: COORD_MAX, y: 2 });
    assert_eq!(Vec2::new(COORD_MAX, -3).scale(i64::MAX), Vec2 { x: COORD_MAX, y: -COORD_MAX });
    assert_eq!(Vec2::new(7, -3).scale(i64::MIN), Vec2 { x: -COORD_MAX, y: COORD_MAX });
}

#[test]
fn move_with_velocity_adds_velocity() {
    let mut p = at(500, 300);
    move_with_velocity(&mut p, &at(10, 0));
    assert_eq!(p, at(510, 300));
    move_with_velocity(&mut p, &Vec2::new(-1, 7));
    assert_eq!(p, Vec2 { x: 510 * U - 1, y: 300 * U + 7 });
}

#[test]
fn move_with_velocity_stops_at_range_end() {
    let mut p = Vec2::new(COORD_MAX - 5, -COORD_MAX + 5);
    move_with_velocity(&mut p, &Vec2::new(10, -10));
    assert_eq!(p, Vec2 { x: COORD_MAX, y: -COORD_MAX });
    move_with_velocity(&mut p, &Vec2::new(-10, 10));
    assert_eq!(p, Vec2 { x: COORD_MAX - 10, y: -COORD_MAX + 10 });
}

#[test]
fn squared_length_is_exact() {
    assert_eq!(get_length_squared(&Vec2::new(3, 4), &Vec2::new(0, 0)), 25);
    assert_eq!(get_length_squared(&Vec2::new(-1, -1), &Vec2::new(2, 3)), 25);
    let far = get_length_squared(
        &Vec2::new(COORD_MAX, COORD_MAX),
        &Vec2::new(-COORD_MAX, -COORD_MAX),
    );
    assert_eq!(far, 8_000_000_000_000_000_000_000_000i128);
}

#[test]
fn reach_includes_its_bound() {
    let origin = Vec2::new(0, 0);
    assert!(is_within_reach(&origin, &Vec2::new(3, 4), 5));
    assert!(!is_within_reach(&origin, &Vec2::new(3, 4), 4));
    assert!(is_within_reach(&origin, &origin, 0));
    assert!(!is_within_reach(&origin, &origin, -1));
    assert!(!is_within_reach(&origin, &Vec2::new(0, 1), 0));
    assert!(is_within_reach(&Vec2::new(COORD_MAX, 0), &Vec2::new(-COORD_MAX, 0), i64::MAX));
}

#[test]
fn rotation_holds_direction() {
    assert_eq!(Rotation::default(), Rotation { x: 1, y: 0 });
    assert_eq!(Rotation::of(&Vec2::new(-10, 3)), Rotation { x: -10, y: 3 });
    assert_eq!(
        Rotation::toward(&at(400, 300), &at(410, 290)),
        Rotation { x: 10 * U, y: -10 * U }
    );
    assert_eq!(
        Rotation::toward(&Vec2::new(-COORD_MAX, COORD_MAX), &Vec2::new(COORD_MAX, -COORD_MAX)),
        Rotation { x: 2 * COORD_MAX, y: -2 * COORD_MAX }
    );
    assert!(Rotation { x: 2 * COORD_MAX, y: -2 * COORD_MAX }.is_wf());
    assert!(!Rotation { x: 2 * COORD_MAX + 1, y: 0 }.is_wf());
    assert_eq!(angle(&Rotation::default()), 0.0);
    assert_eq!(angle(&Rotation { x: 0, y: 0 }), 0.0);
}

#[test]
fn unit_vector_is_cosine_and_sine() {
    assert_eq!(Rotation { x: 1, y: 0 }.unit(), Vec2 { x: U, y: 0 });
    assert_eq!(Rotation { x: 0, y: 0 }.unit(), Vec2 { x: U, y: 0 });
    assert_eq!(Rotation { x: 0, y: 5 }.unit(), Vec2 { x: 0, y: U });
    assert_eq!(Rotation { x: -7, y: 0 }.unit(), Vec2 { x: -U, y: 0 });
    assert_eq!(Rotation { x: 0, y: -2 * COORD_MAX }.unit(), Vec2 { x: 0, y: -U });
    assert_eq!(Rotation { x: 3, y: 4 }.unit(), Vec2 { x: 600_000, y: 800_000 });
    assert_eq!(Rotation { x: -3 * U, y: 4 * U }.unit(), Vec2 { x: -600_000, y: 800_000 });
    assert_eq!(Rotation { x: 1, y: 1 }.unit(), Vec2 { x: 707_106, y: 707_106 });
    assert_eq!(Rotation { x: 1, y: -2 }.unit(), Vec2 { x: 447_213, y: -894_427 });
    assert_eq!(
        Rotation { x: 2 * COORD_MAX, y: 2 * COORD_MAX }.unit(),
        Vec2 { x: 707_106, y: 707_106 }
    );
    assert_eq!(Rotation { x: 2 * COORD_MAX, y: 1 }.unit(), Vec2 { x: 999_999, y: 0 });
}

#[test]
fn unit_vector_agrees_with_floating_point() {
    let samples: [(i64, i64); 6] =
        [(17, 5), (-123_456, 789), (1, -1000), (-9, -9), (400 * U, -300 * U), (5, 12)];
    for (x, y) in samples {
        let unit = Rotation { x, y }.unit();
        let theta = (y as f64).atan2(x as f64);
        assert!((unit.x as f64 - theta.cos() * U as f64).abs() <= 1.0);
        assert!((unit.y as f64 - theta.sin() * U as f64).abs() <= 1.0);
        assert!(unit.x * unit.x + unit.y * unit.y <= U * U);
    }
}

#[test]
fn transform_default() {
    let t = Transform::default();
    assert_eq!(t.position, Vec2 { x: 0, y: 0 });
    assert_eq!(t.scale, Vec2 { x: U, y: U });
    assert_eq!(t.rotation, Rotation { x: 1, y: 0 });
    assert!(t.is_wf());
    let mut bad = t;
    bad.rotation = Rotation { x: 0, y: 2 * COORD_MAX + 1 };
    assert!(!bad.is_wf());
}

#[test]
fn entity_defaults() {
    assert_eq!(Enemy::default().transform, Transform::default());
    assert_eq!(Enemy::default().velocity, Vec2 { x: 0, y: 0 });
    assert_eq!(Mobile::default().transform, Transform::default());
    assert_eq!(Mobile::default().velocity, Vec2 { x: 0, y: 0 });
    assert_eq!(Player::default().transform, Transform::default());
    assert!(Enemy::default().is_wf());
    assert!(Mobile::default().is_wf());
}

#[test]
fn draw_params_project_transform() {
    let t = Transform {
        position: at(12, -5),
        scale: Vec2::new(2 * U, 3 * U),
        rotation: Rotation { x: -4, y: 9 },
    };
    assert_eq!(
        get_draw_params(&t),
        DrawParams { scale: Vec2 { x: 2 * U, y: 3 * U }, translation: at(12, -5), rotation: Rotation { x: -4, y: 9 } }
    );
}

#[test]
fn player_orient_faces_pointer() {
    let mut player = Player::default();
    player.transform.position = at(400, 300);
    player.orient(&at(400, 500));
    assert_eq!(player.transform.rotation, Rotation { x: 0, y: 200 * U });
    assert_eq!(player.transform.position, at(400, 300));
    assert_eq!(angle(&player.transform.rotation), std::f64::consts::FRAC_PI_2);
    player.orient(&at(0, 0));
    assert_eq!(player.transform.rotation, Rotation { x: -400 * U, y: -300 * U });
    player.orient(&at(400, 300));
    assert_eq!(player.transform.rotation, Rotation { x: 0, y: 0 });
    assert_eq!(angle(&player.transform.rotation), 0.0);
}

#[test]
fn fired_shot_starts_ahead_of_player() {
    let mut player = Player::default();
    player.transform.position = at(400, 300);
    let shot = player.fire();
    assert_eq!(shot.transform.position, at(500, 300));
    assert_eq!(shot.velocity, at(10, 0));
    assert_eq!(shot.transform.scale, Vec2 { x: U, y: U });
    assert_eq!(shot.transform.rotation, Rotation { x: 1, y: 0 });

    player.orient(&at(370, 340));
    let shot = player.fire();
    assert_eq!(shot.transform.position, at(340, 380));
    assert_eq!(shot.velocity, at(-6, 8));

    player.orient(&at(401, 301));
    let shot = player.fire();
    assert_eq!(
        shot.transform.position,
        Vec2 { x: 400 * U + 70_710_600, y: 300 * U + 70_710_600 }
    );
    assert_eq!(shot.velocity, Vec2 { x: 7_071_060, y: 7_071_060 });
}

#[test]
fn fired_shot_stops_at_range_end() {
    let mut player = Player::default();
    player.transform.position = Vec2::new(COORD_MAX - 50 * U, 0);
    let shot = player.fire();
    assert_eq!(shot.transform.position, Vec2 { x: COORD_MAX, y: 0 });
    assert_eq!(shot.velocity, at(10, 0));
}

#[test]
fn shot_moves_and_reports_leaving() {
    let size = at(800, 600);
    let mut shot = Mobile::default();
    shot.transform.position = at(795, 300);
    shot.velocity = at(5, 0);
    assert!(!shot.do_action(&size));
    assert_eq!(shot.transform.position, at(800, 300));
    assert!(shot.do_action(&size));
    assert_eq!(shot.transform.position, at(805, 300));
    assert_eq!(shot.velocity, at(5, 0));

    let mut up = Mobile::default();
    up.transform.position = Vec2::new(10 * U, 1);
    up.velocity = Vec2::new(0, -1);
    assert!(!up.do_action(&size));
    assert!(up.do_action(&size));
    assert_eq!(up.transform.position, Vec2 { x: 10 * U, y: -1 });

    let mut left = Mobile::default();
    left.transform.position = at(0, 600);
    left.velocity = Vec2::new(-1, 0);
    assert!(left.do_action(&size));

    let mut down = Mobile::default();
    down.transform.position = at(0, 600);
    down.velocity = Vec2::new(0, 1);
    assert!(down.do_action(&size));
}

#[test]
fn enemy_reflects_at_right_wall() {
    let size = at(800, 600);
    let mut e = enemy(at(799, 300), at(10, 0));
    e.do_action(&size, &None);
    assert_eq!(e.transform.position, at(809, 300));
    assert_eq!(e.velocity, at(-10, 0));
    assert_eq!(e.transform.rotation, Rotation { x: -10 * U, y: 0 });
    assert_eq!(angle(&e.transform.rotation), std::f64::consts::PI);
    assert_eq!(angle(&e.transform.rotation) as f32, std::f32::consts::PI);
}

#[test]
fn enemy_reflects_at_each_wall() {
    let size = at(800, 600);
    let mut e = enemy(at(2, 300), at(-5, 3));
    e.do_action(&size, &None);
    assert_eq!(e.transform.position, at(-3, 303));
    assert_eq!(e.velocity, at(5, 3));
    assert_eq!(e.transform.rotation, Rotation { x: 5 * U, y: 3 * U });

    let mut e = enemy(at(400, 598), at(-5, 3));
    e.do_action(&size, &None);
    assert_eq!(e.transform.position, at(395, 601));
    assert_eq!(e.velocity, at(-5, -3));
    assert_eq!(e.transform.rotation, Rotation { x: -5 * U, y: -3 * U });

    let mut e = enemy(at(400, 1), at(5, -3));
    e.do_action(&size, &None);
    assert_eq!(e.transform.position, at(405, -2));
    assert_eq!(e.velocity, at(5, 3));

    let mut e = enemy(at(799, 599), at(7, 7));
    e.do_action(&size, &None);
    assert_eq!(e.transform.position, at(806, 606));
    assert_eq!(e.velocity, at(-7, -7));
    assert_eq!(e.transform.rotation, Rotation { x: -7 * U, y: -7 * U });
}

#[test]
fn enemy_outside_keeps_inward_velocity_but_turns_to_it() {
    let size = at(800, 600);
    let mut e = enemy(at(830, 300), at(-10, 2));
    e.transform.rotation = Rotation { x: 0, y: 1 };
    e.do_action(&size, &None);
    assert_eq!(e.transform.position, at(820, 302));
    assert_eq!(e.velocity, at(-10, 2));
    assert_eq!(e.transform.rotation, Rotation { x: -10 * U, y: 2 * U });
}

#[test]
fn enemy_inside_keeps_velocity_and_rotation() {
    let size = at(800, 600);
    let mut e = enemy(at(100, 100), at(10, -10));
    e.transform.rotation = Rotation { x: 0, y: 1 };
    e.do_action(&size, &None);
    assert_eq!(e.transform.position, at(110, 90));
    assert_eq!(e.velocity, at(10, -10));
    assert_eq!(e.transform.rotation, Rotation { x: 0, y: 1 });

    let mut on_edge = enemy(at(790, 590), at(10, 10));
    on_edge.transform.rotation = Rotation { x: 0, y: 1 };
    on_edge.do_action(&size, &None);
    assert_eq!(on_edge.transform.position, at(800, 600));
    assert_eq!(on_edge.velocity, at(10, 10));
    assert_eq!(on_edge.transform.rotation, Rotation { x: 0, y: 1 });
}

#[test]
fn shield_inverts_velocity() {
    let size = at(800, 600);
    let shield = Some(shield_at(at(400, 300), SHIELD_RADIUS));
    let mut e = enemy(at(340, 300), at(10, 4));
    e.do_action(&size, &shield);
    assert_eq!(e.transform.position, at(350, 304));
    assert_eq!(e.velocity, at(10, 4));
    e.do_action(&size, &shield);
    assert_eq!(e.transform.position, at(360, 308));
    assert_eq!(e.velocity, at(-10, -4));
    assert_eq!(e.transform.rotation, Rotation { x: -10 * U, y: -4 * U });
}

#[test]
fn shield_rim_is_inside() {
    let size = at(800, 600);
    let shield = Some(shield_at(at(400, 300), SHIELD_RADIUS));
    let mut on_rim = enemy(at(340, 300), at(10, 0));
    on_rim.do_action(&size, &shield);
    assert_eq!(on_rim.transform.position, at(350, 300));
    assert_eq!(on_rim.velocity, at(-10, 0));

    let mut outside = enemy(Vec2::new(340 * U - 1, 300 * U), at(10, 0));
    outside.do_action(&size, &shield);
    assert_eq!(outside.velocity, at(10, 0));
    assert_eq!(outside.transform.rotation, Rotation { x: 1, y: 0 });
}

#[test]
fn enemy_inside_shield_flips_every_frame() {
    let size = at(800, 600);
    let shield = Some(shield_at(at(400, 300), SHIELD_RADIUS));
    let mut e = enemy(at(400, 300), at(3, 0));
    e.do_action(&size, &shield);
    assert_eq!(e.transform.position, at(403, 300));
    assert_eq!(e.velocity, at(-3, 0));
    e.do_action(&size, &shield);
    assert_eq!(e.transform.position, at(400, 300));
    assert_eq!(e.velocity, at(3, 0));
    e.do_action(&size, &shield);
    assert_eq!(e.transform.position, at(403, 300));
    assert_eq!(e.velocity, at(-3, 0));
}

#[test]
fn shield_reverses_after_reflection() {
    let size = at(60, 60);
    let shield = Some(shield_at(at(30, 30), SHIELD_RADIUS));
    let mut e = enemy(at(55, 30), at(10, 2));
    e.do_action(&size, &shield);
    assert_eq!(e.transform.position, at(65, 32));
    assert_eq!(e.velocity, at(10, -2));
    assert_eq!(e.transform.rotation, Rotation { x: 10 * U, y: -2 * U });
}

#[test]
fn shield_with_negative_radius_repels_nothing() {
    let size = at(800, 600);
    let shield = Some(shield_at(at(400, 300), -1));
    let mut e = enemy(at(400, 300), Vec2::new(0, 0));
    e.do_action(&size, &shield);
    assert_eq!(e.velocity, Vec2 { x: 0, y: 0 });
    assert_eq!(e.transform.rotation, Rotation { x: 1, y: 0 });
    let point = Some(shield_at(at(400, 300), 0));
    e.velocity = Vec2::new(0, 0);
    e.transform.rotation = Rotation { x: 5, y: 5 };
    e.do_action(&size, &point);
    assert_eq!(e.velocity, Vec2 { x: 0, y: 0 });
    assert_eq!(e.transform.rotation, Rotation { x: 0, y: 0 });
}
