use space_shooter::{
    BlackHole, Bullet, Enemy, EnemyKind, Explosion, GameEngine, PowerUp, PowerUpKind, UNIT,
};

fn no_draws() -> Vec<u32> {
    Vec::new()
}

fn basic_at(x: i64, y: i64) -> Enemy {
    Enemy { x, y, vx: 0, vy: 50_000, health: 20, size: 15 * UNIT, kind: EnemyKind::Basic, shoot_cooldown: 0 }
}

fn bullet_at(x: i64, y: i64, damage: i64) -> Bullet {
    Bullet { x, y, vx: 0, vy: -300_000, size: 8 * UNIT, damage }
}

fn hole_at(x: i64, y: i64) -> BlackHole {
    BlackHole {
        x,
        y,
        size: 30 * UNIT,
        life: 3_000,
        max_life: 3_000,
        pull_radius: 150 * UNIT,
        consumed_enemies: Vec::new(),
    }
}

#[test]
fn fresh_step_spawns_nothing() {
    let mut g = GameEngine::new(800, 600);
    g.update(16, &no_draws());
    assert_eq!(g.enemies.len(), 0);
    assert_eq!(g.bullets.len(), 0);
    assert_eq!(g.enemy_bullets.len(), 0);
    assert_eq!(g.power_ups.len(), 0);
    assert_eq!(g.game_time, 16);
}

#[test]
fn single_shot_then_cooldown() {
    let mut g = GameEngine::new(800, 600);
    g.shoot();
    assert_eq!(g.bullets.len(), 1);
    assert_eq!(g.bullets[0].damage, 25);
    assert_eq!(g.bullets[0].vy, -300_000);
    assert_eq!(g.bullets[0].x, 400 * UNIT);
    assert_eq!(g.bullets[0].y, 480 * UNIT);
    g.shoot();
    assert_eq!(g.bullets.len(), 1);
    g.update(100, &no_draws());
    g.shoot();
    assert_eq!(g.bullets.len(), 1);
    g.update(100, &no_draws());
    g.shoot();
    assert_eq!(g.bullets.len(), 2);
}

#[test]
fn spread_shot_at_top_power() {
    let mut g = GameEngine::new(800, 600);
    g.player.power_level = 3;
    g.shoot();
    assert_eq!(g.bullets.len(), 3);
    assert_eq!(g.bullets[0].x, 385 * UNIT);
    assert_eq!(g.bullets[0].vx, -50_000);
    assert_eq!(g.bullets[2].x, 415 * UNIT);
    assert_eq!(g.bullets[2].vx, 50_000);
    assert!(g.bullets.iter().all(|b| b.damage == 75 && b.vy == -300_000));
}

#[test]
fn bullet_kills_basic_enemy() {
    let mut g = GameEngine::new(800, 600);
    g.enemies.push(basic_at(400 * UNIT, 100 * UNIT));
    g.bullets.push(bullet_at(400 * UNIT, 100 * UNIT, 25));
    g.update(0, &no_draws());
    assert_eq!(g.enemies.len(), 0);
    assert_eq!(g.bullets.len(), 0);
    assert_eq!(g.get_score(), 100);
    assert_eq!(g.player.enemies_killed, 1);
    assert_eq!(g.player.growth_level, 0);
}

#[test]
fn weak_bullet_only_wounds() {
    let mut g = GameEngine::new(800, 600);
    g.enemies.push(basic_at(400 * UNIT, 100 * UNIT));
    g.bullets.push(bullet_at(400 * UNIT, 100 * UNIT, 10));
    g.update(0, &no_draws());
    assert_eq!(g.enemies.len(), 1);
    assert_eq!(g.enemies[0].health, 10);
    assert_eq!(g.bullets.len(), 0);
    assert_eq!(g.get_score(), 0);
}

#[test]
fn tank_death_leaves_explosion() {
    let mut g = GameEngine::new(800, 600);
    let mut t = basic_at(400 * UNIT, 100 * UNIT);
    t.kind = EnemyKind::Tank;
    t.size = 25 * UNIT;
    t.health = 20;
    t.vy = 30_000;
    g.enemies.push(t);
    g.bullets.push(bullet_at(400 * UNIT, 100 * UNIT, 25));
    g.update(0, &no_draws());
    assert_eq!(g.get_score(), 300);
    assert_eq!(g.explosions.len(), 1);
    assert_eq!(g.explosions[0].size, 50 * UNIT);
    assert_eq!(g.explosions[0].life, 1_000);
}

#[test]
fn contact_at_twenty_health_ends_game() {
    let mut g = GameEngine::new(800, 600);
    g.player.health = 20;
    let (px, py) = (g.player.x, g.player.y);
    g.enemies.push(basic_at(px, py));
    g.update(0, &no_draws());
    assert!(g.get_health() <= 0);
    assert!(g.is_game_over());
    assert_eq!(g.enemies.len(), 1);
    let before = g.get_game_data();
    g.update(16, &no_draws());
    assert_eq!(g.get_game_data(), before);
}

#[test]
fn enemy_bullet_hurts_and_shrinks_growth() {
    let mut g = GameEngine::new(800, 600);
    g.player.growth_level = 2;
    let (px, py) = (g.player.x, g.player.y);
    g.enemy_bullets.push(Bullet { x: px, y: py, vx: 0, vy: 150_000, size: 5 * UNIT, damage: 10 });
    g.update(0, &no_draws());
    assert_eq!(g.get_health(), 90);
    assert_eq!(g.player.growth_level, 1);
    assert_eq!(g.enemy_bullets.len(), 0);
    assert!(!g.is_game_over());
}

#[test]
fn growth_stays_within_bounds() {
    let mut g = GameEngine::new(800, 600);
    g.player.enemies_killed = 59;
    g.player.growth_level = 5;
    g.enemies.push(basic_at(400 * UNIT, 100 * UNIT));
    g.bullets.push(bullet_at(400 * UNIT, 100 * UNIT, 25));
    g.update(0, &no_draws());
    assert_eq!(g.player.enemies_killed, 60);
    assert_eq!(g.player.growth_level, 5);

    let mut h = GameEngine::new(800, 600);
    let (px, py) = (h.player.x, h.player.y);
    h.enemies.push(basic_at(px, py));
    h.update(0, &no_draws());
    assert_eq!(h.player.growth_level, 0);
    assert_eq!(h.get_health(), 80);
}

#[test]
fn tenth_kill_raises_growth() {
    let mut g = GameEngine::new(800, 600);
    g.player.enemies_killed = 9;
    g.enemies.push(basic_at(400 * UNIT, 100 * UNIT));
    g.bullets.push(bullet_at(400 * UNIT, 100 * UNIT, 25));
    g.update(0, &no_draws());
    assert_eq!(g.player.growth_level, 1);
}

#[test]
fn hazard_cooldown_blocks_second_field() {
    let mut g = GameEngine::new(800, 600);
    g.activate_black_hole();
    assert_eq!(g.black_holes.len(), 1);
    assert_eq!(g.black_holes[0].y, g.player.y - 200 * UNIT);
    assert_eq!(g.get_black_hole_cooldown(), 10_000);
    g.activate_black_hole();
    assert_eq!(g.black_holes.len(), 1);
    g.update(5_000, &no_draws());
    g.activate_black_hole();
    assert_eq!(g.black_holes.len(), 0);
    assert_eq!(g.get_black_hole_cooldown(), 5_000);
    g.update(5_000, &no_draws());
    assert_eq!(g.get_black_hole_cooldown(), 0);
    g.activate_black_hole();
    assert_eq!(g.black_holes.len(), 1);
}

#[test]
fn field_swallows_enemy_before_collisions() {
    let mut g = GameEngine::new(800, 600);
    g.black_holes.push(hole_at(400 * UNIT, 100 * UNIT));
    g.enemies.push(basic_at(410 * UNIT, 100 * UNIT));
    g.bullets.push(bullet_at(410 * UNIT, 100 * UNIT, 25));
    g.update(0, &no_draws());
    assert_eq!(g.enemies.len(), 0);
    assert_eq!(g.black_holes[0].consumed_enemies, vec![(410 * UNIT, 100 * UNIT)]);
    assert_eq!(g.bullets.len(), 1);
    assert_eq!(g.get_score(), 0);
    assert_eq!(g.player.enemies_killed, 0);
}

#[test]
fn field_pulls_enemy_in_reach() {
    let mut g = GameEngine::new(800, 600);
    g.black_holes.push(hole_at(400 * UNIT, 100 * UNIT));
    let mut e = basic_at(500 * UNIT, 100 * UNIT);
    e.vy = 0;
    g.enemies.push(e);
    g.update(100, &no_draws());
    // speed 200 * (1 - 100/150) = 66.66.. units/s for 0.1 s, toward the field
    assert_eq!(g.enemies[0].x, 500 * UNIT - 6_666_666);
    assert_eq!(g.enemies[0].y, 100 * UNIT);
    assert_eq!(g.black_holes[0].life, 2_900);
}

#[test]
fn expired_field_detonates_and_scores() {
    let mut g = GameEngine::new(800, 600);
    let mut h = hole_at(400 * UNIT, 100 * UNIT);
    h.life = 1;
    h.consumed_enemies = vec![(400 * UNIT, 100 * UNIT), (401 * UNIT, 100 * UNIT)];
    g.black_holes.push(h);
    g.update(1, &no_draws());
    assert_eq!(g.black_holes.len(), 0);
    assert_eq!(g.get_score(), 400);
    assert_eq!(g.explosions.len(), 1);
    assert_eq!(g.explosions[0].size, 110 * UNIT);
    assert_eq!(g.explosions[0].life, 2_000);
}

#[test]
fn power_ups_apply_their_effects() {
    let mut g = GameEngine::new(800, 600);
    g.player.health = 90;
    let (px, py) = (g.player.x, g.player.y);
    g.power_ups.push(PowerUp { x: px, y: py, vy: 80_000, size: 15 * UNIT, kind: PowerUpKind::Health });
    g.power_ups.push(PowerUp { x: px, y: py, vy: 80_000, size: 15 * UNIT, kind: PowerUpKind::Weapon });
    g.update(0, &no_draws());
    assert_eq!(g.get_health(), 100);
    assert_eq!(g.player.power_level, 2);
    assert_eq!(g.power_ups.len(), 0);
    g.player.health = 10;
    g.power_ups.push(PowerUp { x: px, y: py, vy: 80_000, size: 15 * UNIT, kind: PowerUpKind::Shield });
    g.update(0, &no_draws());
    assert_eq!(g.get_health(), 60);
}

#[test]
fn spawn_reads_draws_by_slot() {
    let mut g = GameEngine::new(800, 600);
    // slot 0 under a tenth: a tank at the left margin, drifting left at half speed
    g.update(1_000, &vec![0, u32::MAX, 0, 0]);
    assert_eq!(g.enemies.len(), 1);
    let e = g.enemies[0];
    assert_eq!(e.kind, EnemyKind::Tank);
    assert_eq!(e.health, 50);
    assert_eq!(e.vx, -15_000);
    assert_eq!(e.x, 25 * UNIT - 15_000 * 1_000);
    assert_eq!(e.y, -50 * UNIT + 30_000 * 1_000);

    let mut f = GameEngine::new(800, 600);
    f.update(1_000, &vec![u32::MAX, 0, 0x8000_0000, 0x8000_0000]);
    assert_eq!(f.enemies[0].kind, EnemyKind::Fast);
    assert_eq!(f.enemies[0].x, 400 * UNIT);
    assert_eq!(f.enemies[0].vx, 0);
}

#[test]
fn power_up_gate_opens_every_five_seconds() {
    let mut g = GameEngine::new(800, 600);
    g.update(4_999, &no_draws());
    assert_eq!(g.power_ups.len(), 0);
    g.update(1, &vec![u32::MAX, u32::MAX, u32::MAX, u32::MAX, 0, u32::MAX, 0]);
    assert_eq!(g.power_ups.len(), 1);
    assert_eq!(g.power_ups[0].kind, PowerUpKind::Health);
    assert_eq!(g.power_ups[0].x, 15 * UNIT);
    assert_eq!(g.power_ups[0].y, -30 * UNIT + 80_000);
    assert_eq!(g.power_up_spawn_timer, 0);
}

#[test]
fn enemy_fires_on_a_low_draw() {
    let mut g = GameEngine::new(800, 600);
    g.enemies.push(basic_at(100 * UNIT, 100 * UNIT));
    let mut rolls = vec![u32::MAX; 7];
    rolls.push(0);
    g.update(0, &rolls);
    assert_eq!(g.enemy_bullets.len(), 1);
    assert_eq!(g.enemy_bullets[0].y, 115 * UNIT);
    assert_eq!(g.enemies[0].shoot_cooldown, 2_000);
    g.update(0, &rolls);
    assert_eq!(g.enemy_bullets.len(), 1);
}

#[test]
fn off_field_objects_are_culled() {
    let mut g = GameEngine::new(800, 600);
    g.bullets.push(bullet_at(100 * UNIT, -60 * UNIT, 25));
    g.enemy_bullets.push(Bullet { x: 100 * UNIT, y: 651 * UNIT, vx: 0, vy: 150_000, size: 5 * UNIT, damage: 10 });
    g.enemies.push(basic_at(100 * UNIT, 700 * UNIT));
    g.power_ups.push(PowerUp { x: 100 * UNIT, y: 650 * UNIT, vy: 80_000, size: 15 * UNIT, kind: PowerUpKind::Shield });
    g.explosions.push(Explosion { x: 0, y: 0, size: UNIT, life: 5, max_life: 1_000 });
    g.update(0, &no_draws());
    assert_eq!(g.bullets.len(), 0);
    assert_eq!(g.enemy_bullets.len(), 0);
    assert_eq!(g.enemies.len(), 0);
    assert_eq!(g.power_ups.len(), 0);
    assert_eq!(g.explosions.len(), 1);
    g.update(5, &no_draws());
    assert_eq!(g.explosions.len(), 0);
}

#[test]
fn level_rises_once_per_frame() {
    let mut g = GameEngine::new(800, 600);
    g.score = 5_000;
    g.update(0, &no_draws());
    assert_eq!(g.get_level(), 2);
    g.update(0, &no_draws());
    assert_eq!(g.get_level(), 3);
}

#[test]
fn player_is_kept_inside_the_field() {
    let mut g = GameEngine::new(800, 600);
    g.move_player(-1_000, 1_000);
    g.update(100, &no_draws());
    assert_eq!(g.player.x, 380 * UNIT);
    assert_eq!(g.player.y, 520 * UNIT);
    g.update(10_000, &no_draws());
    assert_eq!(g.player.x, 20 * UNIT);
    assert_eq!(g.player.y, 580 * UNIT);
}

#[test]
fn reset_twice_is_reset_once() {
    let mut g = GameEngine::new(800, 600);
    g.shoot();
    g.activate_black_hole();
    g.update(2_000, &vec![0, 0, 0, 0, 0, 0, 0, 0]);
    g.reset();
    let once = g.get_game_data();
    g.reset();
    assert_eq!(g.get_game_data(), once);
    assert_eq!(g.get_score(), 0);
    assert_eq!(g.get_level(), 1);
    assert_eq!(g.black_holes.len(), 0);
    assert_eq!(g.explosions.len(), 0);
    assert_eq!(g.width, 800 * UNIT);
}

#[test]
fn same_inputs_same_snapshots() {
    let mut a = GameEngine::new(640, 480);
    let mut b = GameEngine::new(640, 480);
    let draws: Vec<u32> = (0..32u32).map(|i| i.wrapping_mul(2_654_435_761)).collect();
    for k in 0..200u32 {
        let dt = 10 + (k % 7) * 5;
        if k % 10 == 0 {
            a.shoot();
            b.shoot();
        }
        if k == 50 {
            a.activate_black_hole();
            b.activate_black_hole();
        }
        a.update(dt, &draws);
        b.update(dt, &draws);
        assert_eq!(a.get_game_data(), b.get_game_data());
    }
}

#[test]
fn snapshot_layout() {
    let mut g = GameEngine::new(800, 600);
    g.shoot();
    let d = g.get_game_data();
    let u = UNIT as i128;
    assert_eq!(&d[0..7], &[u, 0, u, 0, 0, 0, 0]);
    assert_eq!(&d[7..13], &[400 * u, 500 * u, 20 * u, 100 * u, u, 0]);
    assert_eq!(&d[13..17], &[400 * u, 480 * u, 8 * u, 0]);
    assert_eq!(d.len(), 17);
}

#[test]
fn integer_helpers() {
    assert_eq!(space_shooter::isqrt(0), 0);
    assert_eq!(space_shooter::isqrt(24), 4);
    assert_eq!(space_shooter::isqrt(25), 5);
    assert!(space_shooter::overlaps(0, 0, 3, 4, 6));
    assert!(!space_shooter::overlaps(0, 0, 3, 4, 5));
    assert_eq!(space_shooter::shift(space_shooter::geometry::FIELD_LIMIT, 10), space_shooter::geometry::FIELD_LIMIT);
}

#[test]
fn enemy_killed_this_frame_still_deals_contact_damage() {
    let mut g = GameEngine::new(800, 600);
    g.player.growth_level = 1;
    let (px, py) = (g.player.x, g.player.y);
    g.enemies.push(basic_at(px, py));
    g.bullets.push(bullet_at(px, py, 25));
    g.update(0, &no_draws());
    assert_eq!(g.get_score(), 100);
    assert_eq!(g.player.enemies_killed, 1);
    assert_eq!(g.get_health(), 80);
    assert_eq!(g.player.growth_level, 0);
    assert_eq!(g.enemies.len(), 0);
}

#[test]
fn bullet_is_spent_on_an_enemy_already_killed() {
    let mut g = GameEngine::new(800, 600);
    g.enemies.push(basic_at(400 * UNIT, 100 * UNIT));
    g.enemies.push(basic_at(400 * UNIT, 110 * UNIT));
    g.bullets.push(bullet_at(400 * UNIT, 100 * UNIT, 25));
    g.bullets.push(bullet_at(400 * UNIT, 105 * UNIT, 25));
    g.update(0, &no_draws());
    assert_eq!(g.bullets.len(), 0);
    assert_eq!(g.get_score(), 100);
    assert_eq!(g.player.enemies_killed, 1);
    assert_eq!(g.enemies.len(), 1);
    assert_eq!(g.enemies[0].y, 110 * UNIT);
    assert_eq!(g.enemies[0].health, 20);
}

#[test]
fn field_records_positions_in_order() {
    let mut g = GameEngine::new(800, 600);
    g.black_holes.push(hole_at(400 * UNIT, 100 * UNIT));
    g.enemies.push(basic_at(390 * UNIT, 100 * UNIT));
    g.enemies.push(basic_at(300 * UNIT, 100 * UNIT));
    g.enemies.push(basic_at(400 * UNIT, 100 * UNIT));
    g.update(0, &no_draws());
    assert_eq!(g.black_holes[0].consumed_enemies, vec![(390 * UNIT, 100 * UNIT), (400 * UNIT, 100 * UNIT)]);
    assert_eq!(g.enemies.len(), 1);
    assert_eq!(g.enemies[0].x, 300 * UNIT);
}
