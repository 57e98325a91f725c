use space_shooter::effect::Effect;
use space_shooter::fleet::{
    advance_bullets, advance_enemies, any_collision, prune_bullets, prune_effects, prune_enemies,
    resolve_collisions, score_hits,
};
use space_shooter::score::Scoreboard;
use space_shooter::shape::Shape;

fn body(x: i64, y: i64, size: u32) -> Shape {
    Shape { size, speed: 0, x, y, collided: false }
}

fn mover(y: i64, speed: u64) -> Shape {
    Shape { size: 16_000, speed, x: 0, y, collided: false }
}

#[test]
fn every_enemy_falls_at_its_own_speed() {
    let mut enemies = vec![mover(0, 50_000), mover(10, 100_000), mover(-16_000, 0)];
    advance_enemies(&mut enemies, 100_000);
    assert_eq!(enemies, vec![mover(5_000, 50_000), mover(10_010, 100_000), mover(-16_000, 0)]);
}

#[test]
fn every_bullet_rises_at_its_own_speed() {
    let mut bullets = vec![mover(0, 400_000), mover(100_000, 200_000)];
    advance_bullets(&mut bullets, 50_000);
    assert_eq!(bullets, vec![mover(-20_000, 400_000), mover(90_000, 200_000)]);
}

#[test]
fn motion_of_nothing_is_nothing() {
    let mut none: Vec<Shape> = vec![];
    advance_enemies(&mut none, 1_000_000);
    advance_bullets(&mut none, 1_000_000);
    assert!(none.is_empty());
}

#[test]
fn pruning_removes_marked_and_sunk_enemies() {
    let mut enemies = vec![
        body(1, 100_000, 16_000),
        body(2, 616_000, 16_000),
        body(3, 100_000, 16_000).marked(),
        body(4, 615_999, 16_000),
        body(5, 700_000, 64_000),
        body(6, -64_000, 64_000),
    ];
    prune_enemies(&mut enemies, 600_000);
    assert_eq!(
        enemies,
        vec![body(1, 100_000, 16_000), body(4, 615_999, 16_000), body(6, -64_000, 64_000)]
    );
    for enemy in &enemies {
        assert!(!enemy.collided);
        assert!(enemy.y < 600_000 + enemy.size as i64);
    }
}

#[test]
fn pruning_removes_marked_and_risen_bullets() {
    let mut bullets = vec![
        body(1, -16_000, 32_000),
        body(2, -15_999, 32_000),
        body(3, 300_000, 32_000).marked(),
        body(4, 300_000, 32_000),
    ];
    prune_bullets(&mut bullets);
    assert_eq!(bullets, vec![body(2, -15_999, 32_000), body(4, 300_000, 32_000)]);
    for bullet in &bullets {
        assert!(!bullet.collided);
        assert!(2 * bullet.y + bullet.size as i64 > 0);
    }
}

#[test]
fn pruning_keeps_the_order() {
    let mut enemies = vec![body(9, 0, 1), body(3, 0, 1), body(7, 0, 1).marked(), body(5, 0, 1)];
    prune_enemies(&mut enemies, 10);
    assert_eq!(enemies, vec![body(9, 0, 1), body(3, 0, 1), body(5, 0, 1)]);
    prune_enemies(&mut enemies, 10);
    assert_eq!(enemies, vec![body(9, 0, 1), body(3, 0, 1), body(5, 0, 1)]);
}

#[test]
fn pruning_removes_spent_effects() {
    let live = Effect { x: 1, y: 2, amount: 64, emitting: true };
    let spent = Effect { x: 3, y: 4, amount: 128, emitting: false };
    let mut effects = vec![spent, live, spent, live, live];
    prune_effects(&mut effects);
    assert_eq!(effects, vec![live, live, live]);
}

#[test]
fn colliding_pair_is_marked_on_both_sides() {
    let mut enemies = vec![body(100_000, 100_000, 32_000)];
    let mut bullets = vec![body(110_000, 120_000, 32_000)];
    let struck = resolve_collisions(&mut enemies, &mut bullets);
    assert!(enemies[0].collided);
    assert!(bullets[0].collided);
    assert_eq!(struck, vec![body(100_000, 100_000, 32_000)]);
    assert_eq!(enemies, vec![body(100_000, 100_000, 32_000).marked()]);
    assert_eq!(bullets, vec![body(110_000, 120_000, 32_000).marked()]);
}

#[test]
fn pair_that_is_apart_marks_neither() {
    let mut enemies = vec![body(100_000, 100_000, 32_000)];
    let mut bullets = vec![body(100_000, 132_001, 32_000)];
    let struck = resolve_collisions(&mut enemies, &mut bullets);
    assert!(struck.is_empty());
    assert_eq!(enemies, vec![body(100_000, 100_000, 32_000)]);
    assert_eq!(bullets, vec![body(100_000, 132_001, 32_000)]);
}

#[test]
fn one_bullet_strikes_every_enemy_it_touches() {
    let near = body(100_000, 100_000, 20_000);
    let far = body(500_000, 100_000, 20_000);
    let also_near = body(110_000, 100_000, 40_000);
    let mut enemies = vec![near, far, also_near];
    let mut bullets = vec![body(105_000, 100_000, 32_000)];
    let struck = resolve_collisions(&mut enemies, &mut bullets);
    assert_eq!(struck, vec![near, also_near]);
    assert_eq!(enemies, vec![near.marked(), far, also_near.marked()]);
    assert!(bullets[0].collided);
}

#[test]
fn one_enemy_is_struck_once_by_every_bullet_that_touches_it() {
    let enemy = body(100_000, 100_000, 64_000);
    let first = body(90_000, 100_000, 32_000);
    let miss = body(300_000, 100_000, 32_000);
    let second = body(110_000, 100_000, 32_000);
    let mut enemies = vec![enemy];
    let mut bullets = vec![first, miss, second];
    let struck = resolve_collisions(&mut enemies, &mut bullets);
    assert_eq!(struck, vec![enemy, enemy]);
    assert_eq!(enemies, vec![enemy.marked()]);
    assert_eq!(bullets, vec![first.marked(), miss, second.marked()]);
}

#[test]
fn struck_enemies_come_in_the_order_of_the_enemies() {
    let a = body(0, 0, 10_000);
    let b = body(200_000, 0, 20_000);
    let c = body(400_000, 0, 30_000);
    let mut enemies = vec![a, b, c];
    let mut bullets = vec![
        body(400_000, 0, 32_000),
        body(0, 0, 32_000),
        body(401_000, 0, 32_000),
        body(1_000, 0, 32_000),
    ];
    let struck = resolve_collisions(&mut enemies, &mut bullets);
    assert_eq!(struck, vec![a, a, c, c]);
    assert_eq!(enemies, vec![a.marked(), b, c.marked()]);
    assert!(bullets.iter().all(|bullet| bullet.collided));
}

#[test]
fn marks_that_were_set_stay_set() {
    let mut enemies = vec![body(0, 0, 10_000).marked()];
    let mut bullets = vec![body(500_000, 0, 10_000).marked()];
    let struck = resolve_collisions(&mut enemies, &mut bullets);
    assert!(struck.is_empty());
    assert!(enemies[0].collided);
    assert!(bullets[0].collided);
}

#[test]
fn resolving_with_an_empty_group_changes_nothing() {
    let mut enemies = vec![body(0, 0, 10_000)];
    let mut bullets: Vec<Shape> = vec![];
    assert!(resolve_collisions(&mut enemies, &mut bullets).is_empty());
    assert_eq!(enemies, vec![body(0, 0, 10_000)]);
    let mut none: Vec<Shape> = vec![];
    let mut some = vec![body(0, 0, 10_000)];
    assert!(resolve_collisions(&mut none, &mut some).is_empty());
    assert_eq!(some, vec![body(0, 0, 10_000)]);
}

#[test]
fn player_is_reached_by_any_enemy() {
    let player = body(100_000, 100_000, 32_000);
    let apart = body(500_000, 500_000, 32_000);
    let close = body(120_000, 90_000, 16_000);
    assert!(!any_collision(&player, &vec![]));
    assert!(!any_collision(&player, &vec![apart]));
    assert!(any_collision(&player, &vec![apart, close]));
    assert!(any_collision(&player, &vec![close.marked(), apart]));
}

#[test]
fn every_hit_scores_and_explodes() {
    let mut board = Scoreboard { score: 990, high_score: 1_000, level: 1 };
    let old = Effect { x: 0, y: 0, amount: 4, emitting: false };
    let mut effects = vec![old];
    let small = Shape { size: 16_400, speed: 1, x: 10, y: 20, collided: false };
    let large = Shape { size: 63_500, speed: 2, x: 30, y: 40, collided: true };
    score_hits(&mut board, &mut effects, &vec![small, large, small]);
    assert_eq!(board, Scoreboard { score: 1_086, high_score: 1_086, level: 2 });
    assert_eq!(
        effects,
        vec![
            old,
            Effect { x: 10, y: 20, amount: 64, emitting: true },
            Effect { x: 30, y: 40, amount: 256, emitting: true },
            Effect { x: 10, y: 20, amount: 64, emitting: true },
        ]
    );
}

#[test]
fn no_hit_scores_nothing() {
    let mut board = Scoreboard { score: 5, high_score: 3, level: 9 };
    let mut effects: Vec<Effect> = vec![];
    score_hits(&mut board, &mut effects, &vec![]);
    assert_eq!(board, Scoreboard { score: 5, high_score: 3, level: 9 });
    assert!(effects.is_empty());
}

#[test]
fn explosion_has_four_particles_to_the_point() {
    assert_eq!(
        Effect::blast(&Shape { size: 10_000, speed: 0, x: -5, y: 6, collided: false }),
        Effect { x: -5, y: 6, amount: 40, emitting: true }
    );
    assert_eq!(Effect::blast(&body(0, 0, u32::MAX)).amount, 17_179_868);
    assert_eq!(Effect::blast(&body(0, 0, 100)).amount, 0);
}
