use space_shooter::shape::Shape;
use space_shooter::spawner::{
    draw_enemy, lane, newcomer, spawn, spawn_on, spawns, speed_range,
};

fn admissible(enemy: &Shape, level: u32, screen_width: u32) -> bool {
    let speeds = speed_range(level);
    let places = lane(enemy.size, screen_width);
    16_000 <= enemy.size
        && enemy.size <= 64_000
        && speeds.0 <= enemy.speed
        && enemy.speed <= speeds.1
        && places.0 <= enemy.x
        && enemy.x <= places.1
        && enemy.y == -(enemy.size as i64)
        && !enemy.collided
}

#[test]
fn chance_of_94_lets_no_enemy_in() {
    assert!(!spawns(94));
    assert!(!spawns(0));
    assert!(!spawns(-1));
}

#[test]
fn chance_of_95_lets_an_enemy_in() {
    assert!(spawns(95));
    assert!(spawns(99));
    assert!(spawns(100));
}

#[test]
fn speed_range_grows_with_the_level() {
    assert_eq!(speed_range(1), (25_000, 75_000));
    assert_eq!(speed_range(2), (50_000, 150_000));
    assert_eq!(speed_range(3), (75_000, 225_000));
    assert_eq!(speed_range(0), (0, 0));
    assert_eq!(speed_range(u32::MAX), (107_374_182_375_000, 322_122_547_125_000));
}

#[test]
fn lane_keeps_the_enemy_on_the_screen() {
    assert_eq!(lane(32_000, 800_000), (16_000, 784_000));
    assert_eq!(lane(16_000, 800_000), (8_000, 792_000));
    assert_eq!(lane(64_000, 64_000), (32_000, 32_000));
    assert_eq!(lane(3, 10), (2, 8));
}

#[test]
fn lane_on_a_screen_too_narrow_changes_ends() {
    assert_eq!(lane(64_000, 0), (-32_000, 32_000));
    assert_eq!(lane(64_000, 10_000), (-22_000, 32_000));
    assert_eq!(lane(u32::MAX, 0), (-2_147_483_648, 2_147_483_648));
    assert_eq!(lane(0, u32::MAX), (0, 4_294_967_295));
}

#[test]
fn newcomer_starts_a_full_side_above_the_screen() {
    assert_eq!(
        newcomer(16_000, 30_000, 400_000),
        Shape { size: 16_000, speed: 30_000, x: 400_000, y: -16_000, collided: false }
    );
    assert_eq!(newcomer(u32::MAX, 0, 0).y, -4_294_967_295);
}

#[test]
fn drawn_enemies_stay_inside_the_ranges() {
    macroquad::rand::srand(7);
    let mut round: u32 = 0;
    while round < 2_000 {
        let level: u32 = round % 9 + 1;
        let enemy = draw_enemy(level, 800_000);
        assert!(admissible(&enemy, level, 800_000));
        assert!(enemy.x - (enemy.size as i64 + 1) / 2 >= 0);
        assert!(enemy.x + (enemy.size as i64 + 1) / 2 <= 800_000);
        round += 1;
    }
}

#[test]
fn drawn_enemies_stay_inside_the_ranges_on_a_narrow_screen() {
    macroquad::rand::srand(11);
    let mut round: u32 = 0;
    while round < 500 {
        let enemy = draw_enemy(1, 20_000);
        assert!(admissible(&enemy, 1, 20_000));
        round += 1;
    }
}

#[test]
fn drawn_enemies_differ() {
    macroquad::rand::srand(3);
    let first = draw_enemy(2, 800_000);
    let mut sizes_differ = false;
    let mut speeds_differ = false;
    let mut places_differ = false;
    let mut above_least = false;
    let mut below_most = false;
    let mut round: u32 = 0;
    while round < 200 {
        let enemy = draw_enemy(2, 800_000);
        sizes_differ = sizes_differ || enemy.size != first.size;
        speeds_differ = speeds_differ || enemy.speed != first.speed;
        places_differ = places_differ || enemy.x != first.x;
        above_least = above_least || (enemy.size > 16_000 && enemy.speed > 50_000);
        below_most = below_most || (enemy.size < 64_000 && enemy.speed < 150_000);
        round += 1;
    }
    assert!(sizes_differ && speeds_differ && places_differ);
    assert!(above_least && below_most);
}

#[test]
fn spawner_lets_in_about_one_frame_in_twenty() {
    macroquad::rand::srand(5);
    let mut spawned: u32 = 0;
    let mut round: u32 = 0;
    while round < 20_000 {
        match spawn(3, 800_000) {
            Some(enemy) => {
                assert!(admissible(&enemy, 3, 800_000));
                spawned += 1;
            }
            None => {}
        }
        round += 1;
    }
    assert!(spawned > 700);
    assert!(spawned < 1_300);
}

#[test]
fn spawner_at_level_zero_draws_still_enemies() {
    macroquad::rand::srand(9);
    let mut round: u32 = 0;
    while round < 400 {
        match spawn(0, 800_000) {
            Some(enemy) => assert_eq!(enemy.speed, 0),
            None => {}
        }
        round += 1;
    }
}

#[test]
fn draw_of_94_creates_no_enemy() {
    macroquad::rand::srand(13);
    assert_eq!(spawn_on(94, 1, 800_000), None);
    assert_eq!(spawn_on(0, 5, 800_000), None);
    assert_eq!(spawn_on(-3, 5, 0), None);
}

#[test]
fn draw_of_95_creates_one_enemy_inside_the_ranges() {
    macroquad::rand::srand(17);
    let mut chance: i64 = 95;
    while chance <= 100 {
        let mut level: u32 = 1;
        while level < 6 {
            match spawn_on(chance, level, 800_000) {
                Some(enemy) => assert!(admissible(&enemy, level, 800_000)),
                None => panic!("a draw of {} let no enemy in", chance),
            }
            level += 1;
        }
        chance += 1;
    }
}
