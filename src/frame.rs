use vstd::prelude::*;

use crate::engine::GameEngine;
use crate::entities::{
    enemy_stats, enemy_value, is_below, portion_of, read_draw, BULLET_CULL_MARGIN,
    BULLET_DAMAGE_PER_LEVEL, BULLET_SIZE, BlackHole, Bullet, CONTACT_DAMAGE, ENEMY_BULLET_DAMAGE,
    ENEMY_BULLET_SIZE, ENEMY_BULLET_SPEED, ENEMY_CULL_MARGIN, ENEMY_FIRE_COOLDOWN,
    ENEMY_SPAWN_MARGIN, ENEMY_SPAWN_Y, Enemy, EnemyKind, Explosion, HEALTH_HEAL, HOLE_BLAST_LIFE,
    HOLE_BLAST_PER_VICTIM, HOLE_PULL_RADIUS, HOLE_SCORE_PER_VICTIM, PLAYER_MAX_HEALTH, PLAYER_SPEED,
    POWER_UP_CULL_MARGIN, POWER_UP_PERIOD, POWER_UP_SIZE, POWER_UP_SPAWN_MARGIN, POWER_UP_SPAWN_Y,
    POWER_UP_SPEED, PULL_STRENGTH, Player, PowerUp, PowerUpKind, SHIELD_HEAL, TANK_BLAST_LIFE, UNIT,
};
use crate::geometry::{
    clamp_to, is_isqrt, isqrt, lemma_square_bound, overlaps, shift, FIELD_LIMIT, STEP_LIMIT,
};
use crate::world::{
    absorb, advanced, hole_views, sized, swallowed_at, aged_explosion, alive, attracted, barrage, boosted, bullet_mover, bullet_ok,
    burning, contact, cooled, enemy_bruised, enemy_due, enemy_in_play, enemy_ok, enemy_shot,
    enemy_volley, expire, explosion_ager, explosion_ok, fire_draw, fought, frame, gravity, hole_ok,
    in_flight, leveled, marched, moved_bullet, moved_enemy, moved_power_up, opening, pickup,
    player_ok, power_up_in_play, power_up_mover, power_up_ok, pull_offset, pulled, root, skirmish,
    sound, spawned, spawned_enemy, spawned_power_up, strikes, struck, swept,
    target_from, ticked, well_formed, wounded, SLOT_ENEMY_DRIFT, SLOT_ENEMY_X, SLOT_FAST, SLOT_FIRE,
    SLOT_HEALTH, SLOT_POWER_UP_X, SLOT_TANK, SLOT_WEAPON, Skirmish, WorldState,
};

verus! {

fn cool(cd: i64, dt: u32) -> (r: i64)
    ensures
        r == cooled(cd as int, dt as int),
{
    if cd > dt as i64 {
        cd - dt as i64
    } else {
        0
    }
}

fn fire_roll(rolls: &Vec<u32>, i: usize) -> (r: u32)
    ensures
        r == fire_draw(rolls@, i as int),
{
    if rolls.len() > SLOT_FIRE && i < rolls.len() - SLOT_FIRE {
        rolls[SLOT_FIRE + i]
    } else {
        u32::MAX
    }
}

fn new_enemy(width: i64, rolls: &Vec<u32>) -> (e: Enemy)
    requires
        0 <= width <= u32::MAX * UNIT,
    ensures
        e == spawned_enemy(width as int, rolls@),
        enemy_ok(e),
{
    let kind = if is_below(read_draw(rolls, SLOT_TANK), 1, 10) {
        EnemyKind::Tank
    } else if is_below(read_draw(rolls, SLOT_FAST), 3, 10) {
        EnemyKind::Fast
    } else {
        EnemyKind::Basic
    };
    let (size, health, speed) = enemy_stats(kind);
    let x = ENEMY_SPAWN_MARGIN + portion_of(read_draw(rolls, SLOT_ENEMY_X), width - 2 * ENEMY_SPAWN_MARGIN);
    let vx = portion_of(read_draw(rolls, SLOT_ENEMY_DRIFT), speed) - speed / 2;
    Enemy { x, y: ENEMY_SPAWN_Y, vx, vy: speed, health, size, kind, shoot_cooldown: 0 }
}

fn new_power_up(width: i64, rolls: &Vec<u32>) -> (u: PowerUp)
    requires
        0 <= width <= u32::MAX * UNIT,
    ensures
        u == spawned_power_up(width as int, rolls@),
        power_up_ok(u),
{
    let kind = if is_below(read_draw(rolls, SLOT_HEALTH), 4, 10) {
        PowerUpKind::Health
    } else if is_below(read_draw(rolls, SLOT_WEAPON), 3, 10) {
        PowerUpKind::Weapon
    } else {
        PowerUpKind::Shield
    };
    let x = POWER_UP_SPAWN_MARGIN + portion_of(read_draw(rolls, SLOT_POWER_UP_X), width - 2 * POWER_UP_SPAWN_MARGIN);
    PowerUp { x, y: POWER_UP_SPAWN_Y, vy: POWER_UP_SPEED, size: POWER_UP_SIZE, kind }
}

fn move_enemy(e: Enemy, dt: u32, r: u32) -> (m: Enemy)
    requires
        enemy_ok(e),
    ensures
        m == moved_enemy(e, dt as int, r),
        enemy_ok(m),
{
    assert(-STEP_LIMIT <= (e.vx as int) * (dt as int) <= STEP_LIMIT) by (nonlinear_arith)
        requires -100_000 <= e.vx <= 100_000, 0 <= dt <= u32::MAX;
    assert(-STEP_LIMIT <= (e.vy as int) * (dt as int) <= STEP_LIMIT) by (nonlinear_arith)
        requires -100_000 <= e.vy <= 100_000, 0 <= dt <= u32::MAX;
    let x = shift(e.x, e.vx as i128 * dt as i128);
    let y = shift(e.y, e.vy as i128 * dt as i128);
    let cd = if e.shoot_cooldown > 0 {
        cool(e.shoot_cooldown, dt)
    } else if is_below(r, 1, 100) {
        ENEMY_FIRE_COOLDOWN
    } else {
        e.shoot_cooldown
    };
    Enemy { x, y, shoot_cooldown: cd, ..e }
}

fn enemy_bullet(e: Enemy) -> (b: Bullet)
    requires
        enemy_ok(e),
    ensures
        b == enemy_shot(e),
        bullet_ok(b),
{
    Bullet {
        x: e.x,
        y: shift(e.y, e.size as i128),
        vx: 0,
        vy: ENEMY_BULLET_SPEED,
        size: ENEMY_BULLET_SIZE,
        damage: ENEMY_BULLET_DAMAGE,
    }
}

fn move_bullet(b: Bullet, dt: u32) -> (m: Bullet)
    requires
        bullet_ok(b),
    ensures
        m == moved_bullet(b, dt as int),
        bullet_ok(m),
{
    assert(-STEP_LIMIT <= (b.vx as int) * (dt as int) <= STEP_LIMIT) by (nonlinear_arith)
        requires -300_000 <= b.vx <= 300_000, 0 <= dt <= u32::MAX;
    assert(-STEP_LIMIT <= (b.vy as int) * (dt as int) <= STEP_LIMIT) by (nonlinear_arith)
        requires -300_000 <= b.vy <= 300_000, 0 <= dt <= u32::MAX;
    Bullet { x: shift(b.x, b.vx as i128 * dt as i128), y: shift(b.y, b.vy as i128 * dt as i128), ..b }
}

fn move_bullets(v: &Vec<Bullet>, dt: u32) -> (r: Vec<Bullet>)
    requires
        forall|i: int| 0 <= i < v@.len() ==> bullet_ok(#[trigger] v@[i]),
    ensures
        r@ == v@.map_values(bullet_mover(dt as int)),
        forall|i: int| 0 <= i < r@.len() ==> bullet_ok(#[trigger] r@[i]),
        forall|i: int| 0 <= i < r@.len() ==> #[trigger] r@[i].size == v@[i].size,
{
    let mut r: Vec<Bullet> = Vec::new();
    let mut i: usize = 0;
    while i < v.len()
        invariant
            i <= v@.len(),
            r@.len() == i,
            forall|j: int| 0 <= j < v@.len() ==> bullet_ok(#[trigger] v@[j]),
            forall|j: int| 0 <= j < i ==> #[trigger] r@[j] == moved_bullet(v@[j], dt as int),
            forall|j: int| 0 <= j < i ==> bullet_ok(#[trigger] r@[j]),
        decreases v@.len() - i,
    {
        r.push(move_bullet(v[i], dt));
        i += 1;
    }
    assert(r@ =~= v@.map_values(bullet_mover(dt as int)));
    r
}

fn move_power_ups(v: &Vec<PowerUp>, dt: u32) -> (r: Vec<PowerUp>)
    requires
        forall|i: int| 0 <= i < v@.len() ==> power_up_ok(#[trigger] v@[i]),
    ensures
        r@ == v@.map_values(power_up_mover(dt as int)),
        forall|i: int| 0 <= i < r@.len() ==> power_up_ok(#[trigger] r@[i]),
{
    let mut r: Vec<PowerUp> = Vec::new();
    let mut i: usize = 0;
    while i < v.len()
        invariant
            i <= v@.len(),
            r@.len() == i,
            forall|j: int| 0 <= j < v@.len() ==> power_up_ok(#[trigger] v@[j]),
            forall|j: int| 0 <= j < i ==> #[trigger] r@[j] == moved_power_up(v@[j], dt as int),
            forall|j: int| 0 <= j < i ==> power_up_ok(#[trigger] r@[j]),
        decreases v@.len() - i,
    {
        let u = v[i];
        assert(-STEP_LIMIT <= (u.vy as int) * (dt as int) <= STEP_LIMIT) by (nonlinear_arith)
            requires u.vy == 80_000, 0 <= dt <= u32::MAX;
        r.push(PowerUp { y: shift(u.y, u.vy as i128 * dt as i128), ..u });
        i += 1;
    }
    assert(r@ =~= v@.map_values(power_up_mover(dt as int)));
    r
}

fn age_explosions(v: &Vec<Explosion>, dt: u32) -> (r: Vec<Explosion>)
    requires
        forall|i: int| 0 <= i < v@.len() ==> explosion_ok(#[trigger] v@[i]) && v@[i].life > 0,
    ensures
        r@ == v@.map_values(explosion_ager(dt as int)),
        forall|i: int| 0 <= i < r@.len() ==> explosion_ok(#[trigger] r@[i]),
{
    let mut r: Vec<Explosion> = Vec::new();
    let mut i: usize = 0;
    while i < v.len()
        invariant
            i <= v@.len(),
            r@.len() == i,
            forall|j: int| 0 <= j < v@.len() ==> explosion_ok(#[trigger] v@[j]) && v@[j].life > 0,
            forall|j: int| 0 <= j < i ==> #[trigger] r@[j] == aged_explosion(v@[j], dt as int),
            forall|j: int| 0 <= j < i ==> explosion_ok(#[trigger] r@[j]),
        decreases v@.len() - i,
    {
        let e = v[i];
        r.push(Explosion { life: e.life - dt as i64, ..e });
        i += 1;
    }
    assert(r@ =~= v@.map_values(explosion_ager(dt as int)));
    r
}

proof fn lemma_root_unique(n: int, r: int)
    requires
        is_isqrt(n, r),
    ensures
        root(n) == r,
{
    let c = root(n);
    assert(is_isqrt(n, c));
    if c < r {
        assert((c + 1) * (c + 1) <= r * r) by (nonlinear_arith)
            requires 0 <= c < r;
    }
    if r < c {
        assert((r + 1) * (r + 1) <= c * c) by (nonlinear_arith)
            requires 0 <= r < c;
    }
}

proof fn lemma_axis_within(d: int, other: int, dist: int)
    requires
        is_isqrt(d * d + other * other, dist),
    ensures
        -dist <= d <= dist,
{
    assert(d * d <= d * d + other * other) by (nonlinear_arith);
    if d > dist {
        assert(d * d >= (dist + 1) * (dist + 1)) by (nonlinear_arith)
            requires d >= dist + 1, dist >= 0;
    }
    if d < -dist {
        assert(d * d >= (dist + 1) * (dist + 1)) by (nonlinear_arith)
            requires -d >= dist + 1, dist >= 0;
    }
}

/// One axis of the pull toward a field's center over `dt`.
fn pull_toward(d: i64, dist: u64, pull: i64, dt: u32) -> (r: i128)
    requires
        0 < dist < pull,
        pull == HOLE_PULL_RADIUS,
        -(dist as int) <= d <= dist,
    ensures
        r == pull_offset(d as int, dist as int, pull as int, dt as int),
        -STEP_LIMIT <= r <= STEP_LIMIT,
{
    let a: u128 = if d < 0 { (-(d as i128)) as u128 } else { d as u128 };
    let gap: u128 = (pull as u128) - (dist as u128);
    assert(a * 200_000 <= 150_000_000 * 200_000) by (nonlinear_arith)
        requires a <= 150_000_000;
    let s1: u128 = a * (PULL_STRENGTH as u128);
    assert(s1 * gap <= 30_000_000_000_000 * 150_000_000) by (nonlinear_arith)
        requires s1 <= 30_000_000_000_000, gap <= 150_000_000;
    let s2: u128 = s1 * gap;
    assert(s2 * (dt as u128) <= 4_500_000_000_000_000_000_000 * 0x1_0000_0000) by (nonlinear_arith)
        requires s2 <= 4_500_000_000_000_000_000_000, dt <= u32::MAX;
    let num: u128 = s2 * (dt as u128);
    assert((pull as int) * (dist as int) > 0) by (nonlinear_arith)
        requires pull > 0, dist > 0;
    assert((pull as int) * (dist as int) <= 150_000_000 * 150_000_000) by (nonlinear_arith)
        requires pull == 150_000_000, dist < 150_000_000;
    let den: u128 = (pull as u128) * (dist as u128);
    let mag: u128 = num / den;
    assert(mag <= num) by (nonlinear_arith)
        requires mag == num / den, den > 0;
    assert(a as int == vstd::math::abs(d as int));
    assert(num <= 4_500_000_000_000_000_000_000int * 0x1_0000_0000int);
    assert(4_500_000_000_000_000_000_000int * 0x1_0000_0000int < STEP_LIMIT as int);
    assert(mag <= STEP_LIMIT);
    if d >= 0 {
        mag as i128
    } else {
        -(mag as i128)
    }
}

fn pull_enemy(h: &BlackHole, e: Enemy, dt: u32) -> (r: Enemy)
    requires
        hole_ok(h@),
        enemy_ok(e),
    ensures
        r == pulled(h@, e, dt as int),
        enemy_ok(r),
{
    if !overlaps(h.x, h.y, e.x, e.y, h.pull_radius) {
        return e;
    }
    let dx: i64 = h.x - e.x;
    let dy: i64 = h.y - e.y;
    assert(0 <= (dx as int) * (dx as int) + (dy as int) * (dy as int) < 150_000_000 * 150_000_000) by (nonlinear_arith)
        requires (dx as int) * (dx as int) + (dy as int) * (dy as int) < (h.pull_radius as int) * (h.pull_radius as int), h.pull_radius == 150_000_000;
    proof {
        lemma_square_bound(dx as int, 2 * FIELD_LIMIT);
        lemma_square_bound(dy as int, 2 * FIELD_LIMIT);
    }
    let n: u64 = (dx as i128 * dx as i128 + dy as i128 * dy as i128) as u64;
    let dist: u64 = isqrt(n);
    proof {
        lemma_root_unique(n as int, dist as int);
        lemma_axis_within(dx as int, dy as int, dist as int);
        lemma_axis_within(dy as int, dx as int, dist as int);
        assert((dy as int) * (dy as int) + (dx as int) * (dx as int) == n);
        if dist >= 150_000_000 {
            assert((dist as int) * (dist as int) >= 150_000_000 * 150_000_000) by (nonlinear_arith)
                requires dist >= 150_000_000;
        }
    }
    if dist == 0 {
        return e;
    }
    let x = shift(e.x, pull_toward(dx, dist, h.pull_radius, dt));
    let y = shift(e.y, pull_toward(dy, dist, h.pull_radius, dt));
    Enemy { x, y, ..e }
}

/// The enemies a field leaves, and where those it swallows stand.
fn absorb_all(h: &BlackHole, es: &Vec<Enemy>, dt: u32) -> (r: (Vec<Enemy>, Vec<(i64, i64)>))
    requires
        hole_ok(h@),
        forall|i: int| 0 <= i < es@.len() ==> enemy_ok(#[trigger] es@[i]),
    ensures
        r.0@ == absorb(h@, es@, dt as int),
        r.1@ == swallowed_at(h@, es@, dt as int),
        forall|i: int| 0 <= i < r.0@.len() ==> enemy_ok(#[trigger] r.0@[i]),
{
    let mut kept: Vec<Enemy> = Vec::new();
    let mut eaten: Vec<(i64, i64)> = Vec::new();
    let mut j: usize = 0;
    while j < es.len()
        invariant
            j <= es@.len(),
            hole_ok(h@),
            forall|i: int| 0 <= i < es@.len() ==> enemy_ok(#[trigger] es@[i]),
            kept@ == absorb(h@, es@.subrange(0, j as int), dt as int),
            eaten@ == swallowed_at(h@, es@.subrange(0, j as int), dt as int),
            forall|i: int| 0 <= i < kept@.len() ==> enemy_ok(#[trigger] kept@[i]),
        decreases es@.len() - j,
    {
        let e = es[j];
        proof {
            let s = es@.subrange(0, j as int + 1);
            assert(s.drop_last() =~= es@.subrange(0, j as int));
            assert(s.last() == e);
        }
        let m = pull_enemy(h, e, dt);
        if overlaps(h.x, h.y, e.x, e.y, h.size) {
            eaten.push((m.x, m.y));
        } else {
            kept.push(m);
        }
        j += 1;
    }
    assert(es@.subrange(0, es@.len() as int) =~= es@);
    (kept, eaten)
}

fn find_target(b: &Bullet, es: &Vec<Enemy>) -> (t: usize)
    requires
        bullet_ok(*b),
        forall|i: int| 0 <= i < es@.len() ==> enemy_bruised(#[trigger] es@[i]),
    ensures
        t == target_from(*b, es@, 0),
        t < es@.len() ==> strikes(*b, es@[t as int]),
{
    let mut j: usize = 0;
    while j < es.len()
        invariant
            j <= es@.len(),
            bullet_ok(*b),
            forall|i: int| 0 <= i < es@.len() ==> enemy_bruised(#[trigger] es@[i]),
            target_from(*b, es@, 0) == target_from(*b, es@, j as int),
            j == es@.len() ==> target_from(*b, es@, j as int) == es@.len(),
        decreases es@.len() - j,
    {
        let e = es[j];
        assert(enemy_bruised(es@[j as int]));
        if overlaps(b.x, b.y, e.x, e.y, b.size + e.size) {
            return j;
        }
        j += 1;
    }
    j
}

fn keep_alive(v: &Vec<Enemy>) -> (r: Vec<Enemy>)
    requires
        forall|i: int| 0 <= i < v@.len() ==> enemy_bruised(#[trigger] v@[i]),
    ensures
        r@ == v@.filter(alive()),
        forall|i: int| 0 <= i < r@.len() ==> enemy_ok(#[trigger] r@[i]),
{
    let mut r: Vec<Enemy> = Vec::new();
    let mut i: usize = 0;
    while i < v.len()
        invariant
            i <= v@.len(),
            forall|j: int| 0 <= j < v@.len() ==> enemy_bruised(#[trigger] v@[j]),
            r@ == v@.subrange(0, i as int).filter(alive()),
            forall|j: int| 0 <= j < r@.len() ==> enemy_ok(#[trigger] r@[j]),
        decreases v@.len() - i,
    {
        let e = v[i];
        proof {
            assert(v@.subrange(0, i as int + 1) =~= v@.subrange(0, i as int).push(e));
            v@.subrange(0, i as int).lemma_filter_push(e, alive());
            assert(enemy_bruised(v@[i as int]));
        }
        if e.health > 0 {
            r.push(e);
        }
        i += 1;
    }
    assert(v@.subrange(0, v@.len() as int) =~= v@);
    r
}

fn wound(p: Player, dmg: i64) -> (r: Player)
    requires
        0 <= p.health <= PLAYER_MAX_HEALTH,
        0 <= dmg <= 3 * BULLET_DAMAGE_PER_LEVEL,
    ensures
        r == wounded(p, dmg as int),
{
    Player {
        health: if p.health > dmg { p.health - dmg } else { 0 },
        growth_level: if p.growth_level > 0 { p.growth_level - 1 } else { 0 },
        ..p
    }
}

fn boost(p: Player, kind: PowerUpKind) -> (r: Player)
    requires
        0 <= p.health <= p.max_health == PLAYER_MAX_HEALTH,
        p.power_level <= 3,
    ensures
        r == boosted(p, kind),
{
    match kind {
        PowerUpKind::Health => Player {
            health: if p.health + HEALTH_HEAL < p.max_health { p.health + HEALTH_HEAL } else { p.max_health },
            ..p
        },
        PowerUpKind::Weapon => Player { power_level: if p.power_level < 3 { p.power_level + 1 } else { 3 }, ..p },
        PowerUpKind::Shield => Player {
            health: if p.health + SHIELD_HEAL < p.max_health { p.health + SHIELD_HEAL } else { p.max_health },
            ..p
        },
    }
}

fn keep_bullets_in_flight(v: &Vec<Bullet>, height: i64, size: Ghost<int>) -> (r: Vec<Bullet>)
    requires
        forall|i: int| 0 <= i < v@.len() ==> bullet_ok(#[trigger] v@[i]),
        sized(v@, size@),
        0 <= height <= u32::MAX * UNIT,
    ensures
        r@ == v@.filter(in_flight(height as int)),
        forall|i: int| 0 <= i < r@.len() ==> bullet_ok(#[trigger] r@[i]),
        sized(r@, size@),
{
    let mut r: Vec<Bullet> = Vec::new();
    let mut i: usize = 0;
    while i < v.len()
        invariant
            i <= v@.len(),
            0 <= height <= u32::MAX * UNIT,
            forall|j: int| 0 <= j < v@.len() ==> bullet_ok(#[trigger] v@[j]),
            r@ == v@.subrange(0, i as int).filter(in_flight(height as int)),
            forall|j: int| 0 <= j < r@.len() ==> bullet_ok(#[trigger] r@[j]),
            sized(v@, size@),
            sized(r@, size@),
        decreases v@.len() - i,
    {
        let b = v[i];
        proof {
            assert(v@.subrange(0, i as int + 1) =~= v@.subrange(0, i as int).push(b));
            v@.subrange(0, i as int).lemma_filter_push(b, in_flight(height as int));
            assert(bullet_ok(v@[i as int]));
            assert(v@[i as int].size == size@);
        }
        if -BULLET_CULL_MARGIN < b.y && b.y < height + BULLET_CULL_MARGIN {
            r.push(b);
        }
        i += 1;
    }
    assert(v@.subrange(0, v@.len() as int) =~= v@);
    r
}

fn keep_enemies_in_play(v: &Vec<Enemy>, height: i64) -> (r: Vec<Enemy>)
    requires
        forall|i: int| 0 <= i < v@.len() ==> enemy_ok(#[trigger] v@[i]),
        0 <= height <= u32::MAX * UNIT,
    ensures
        r@ == v@.filter(enemy_in_play(height as int)),
        forall|i: int| 0 <= i < r@.len() ==> enemy_ok(#[trigger] r@[i]),
{
    let mut r: Vec<Enemy> = Vec::new();
    let mut i: usize = 0;
    while i < v.len()
        invariant
            i <= v@.len(),
            0 <= height <= u32::MAX * UNIT,
            forall|j: int| 0 <= j < v@.len() ==> enemy_ok(#[trigger] v@[j]),
            r@ == v@.subrange(0, i as int).filter(enemy_in_play(height as int)),
            forall|j: int| 0 <= j < r@.len() ==> enemy_ok(#[trigger] r@[j]),
        decreases v@.len() - i,
    {
        let e = v[i];
        proof {
            assert(v@.subrange(0, i as int + 1) =~= v@.subrange(0, i as int).push(e));
            v@.subrange(0, i as int).lemma_filter_push(e, enemy_in_play(height as int));
            assert(enemy_ok(v@[i as int]));
        }
        if e.y < height + ENEMY_CULL_MARGIN {
            r.push(e);
        }
        i += 1;
    }
    assert(v@.subrange(0, v@.len() as int) =~= v@);
    r
}

fn keep_power_ups_in_play(v: &Vec<PowerUp>, height: i64) -> (r: Vec<PowerUp>)
    requires
        forall|i: int| 0 <= i < v@.len() ==> power_up_ok(#[trigger] v@[i]),
        0 <= height <= u32::MAX * UNIT,
    ensures
        r@ == v@.filter(power_up_in_play(height as int)),
        forall|i: int| 0 <= i < r@.len() ==> power_up_ok(#[trigger] r@[i]),
{
    let mut r: Vec<PowerUp> = Vec::new();
    let mut i: usize = 0;
    while i < v.len()
        invariant
            i <= v@.len(),
            0 <= height <= u32::MAX * UNIT,
            forall|j: int| 0 <= j < v@.len() ==> power_up_ok(#[trigger] v@[j]),
            r@ == v@.subrange(0, i as int).filter(power_up_in_play(height as int)),
            forall|j: int| 0 <= j < r@.len() ==> power_up_ok(#[trigger] r@[j]),
        decreases v@.len() - i,
    {
        let u = v[i];
        proof {
            assert(v@.subrange(0, i as int + 1) =~= v@.subrange(0, i as int).push(u));
            v@.subrange(0, i as int).lemma_filter_push(u, power_up_in_play(height as int));
            assert(power_up_ok(v@[i as int]));
        }
        if u.y < height + POWER_UP_CULL_MARGIN {
            r.push(u);
        }
        i += 1;
    }
    assert(v@.subrange(0, v@.len() as int) =~= v@);
    r
}

fn keep_burning(v: &Vec<Explosion>) -> (r: Vec<Explosion>)
    requires
        forall|i: int| 0 <= i < v@.len() ==> explosion_ok(#[trigger] v@[i]),
    ensures
        r@ == v@.filter(burning()),
        forall|i: int| 0 <= i < r@.len() ==> explosion_ok(#[trigger] r@[i]) && r@[i].life > 0,
{
    let mut r: Vec<Explosion> = Vec::new();
    let mut i: usize = 0;
    while i < v.len()
        invariant
            i <= v@.len(),
            forall|j: int| 0 <= j < v@.len() ==> explosion_ok(#[trigger] v@[j]),
            r@ == v@.subrange(0, i as int).filter(burning()),
            forall|j: int| 0 <= j < r@.len() ==> explosion_ok(#[trigger] r@[j]) && r@[j].life > 0,
        decreases v@.len() - i,
    {
        let x = v[i];
        proof {
            assert(v@.subrange(0, i as int + 1) =~= v@.subrange(0, i as int).push(x));
            v@.subrange(0, i as int).lemma_filter_push(x, burning());
            assert(explosion_ok(v@[i as int]));
        }
        if x.life > 0 {
            r.push(x);
        }
        i += 1;
    }
    assert(v@.subrange(0, v@.len() as int) =~= v@);
    r
}

impl GameEngine {
    fn level_up(&mut self)
        ensures
            final(self)@ == leveled(old(self)@),
    {
        if self.score as u64 >= self.level as u64 * 1000 {
            self.level = self.level.saturating_add(1);
        }
    }

    /// Advances the world by one frame of `delta_time` milliseconds. `rolls`
    /// holds the frame's uniform draws by slot (see `SLOT_TANK` and the
    /// following slots); a draw not supplied counts as `u32::MAX`. Once the
    /// game is over nothing changes.
    pub fn update(&mut self, delta_time: u32, rolls: &Vec<u32>)
        requires
            well_formed(old(self)@),
        ensures
            final(self)@ == frame(old(self)@, delta_time as int, rolls@),
            well_formed(final(self)@),
            final(self).player.growth_level <= 5,
    {
        if self.game_over {
            return;
        }
        self.tick(delta_time);
        self.spawn(rolls);
        self.advance(delta_time, rolls);
        self.attract(delta_time);
        self.fight();
        self.endure();
        self.sweep();
        self.level_up();
    }

    /// Clocks, player motion and cooldowns.
    fn tick(&mut self, dt: u32)
        requires
            well_formed(old(self)@),
        ensures
            final(self)@ == ticked(old(self)@, dt as int),
            well_formed(final(self)@),
    {
        self.game_time = self.game_time.saturating_add(dt as u64);
        self.enemy_spawn_timer = self.enemy_spawn_timer.saturating_add(dt as u64);
        self.power_up_spawn_timer = self.power_up_spawn_timer.saturating_add(dt as u64);
        let p = self.player;
        assert(-STEP_LIMIT <= (p.vx as int) * 200 * (dt as int) <= STEP_LIMIT) by (nonlinear_arith)
            requires i32::MIN <= p.vx <= i32::MAX, 0 <= dt <= u32::MAX;
        assert(-STEP_LIMIT <= (p.vy as int) * 200 * (dt as int) <= STEP_LIMIT) by (nonlinear_arith)
            requires i32::MIN <= p.vy <= i32::MAX, 0 <= dt <= u32::MAX;
        let x = clamp_to(p.x as i128 + p.vx as i128 * PLAYER_SPEED as i128 * dt as i128, p.size, self.width - p.size);
        let y = clamp_to(p.y as i128 + p.vy as i128 * PLAYER_SPEED as i128 * dt as i128, p.size, self.height - p.size);
        self.player.x = x;
        self.player.y = y;
        self.player.shoot_cooldown = cool(p.shoot_cooldown, dt);
        self.player.hazard_cooldown = cool(p.hazard_cooldown, dt);
        assert(self@ == ticked(old(self)@, dt as int));
    }

    /// Enemy motion and fire, then the motion of every projectile, power-up
    /// and explosion.
    fn advance(&mut self, dt: u32, rolls: &Vec<u32>)
        requires
            well_formed(old(self)@),
        ensures
            final(self)@ == advanced(old(self)@, dt as int, rolls@),
            sound(final(self)@),
            forall|i: int| 0 <= i < final(self)@.enemies.len() ==> enemy_ok(#[trigger] final(self)@.enemies[i]),
            forall|i: int| 0 <= i < final(self)@.black_holes.len() ==> #[trigger] final(self)@.black_holes[i].life > 0,
    {
        let ghost w0 = self@;
        let ghost es = self.enemies@;
        let mut marched_es: Vec<Enemy> = Vec::new();
        let mut fired: Vec<Bullet> = Vec::new();
        let mut i: usize = 0;
        while i < self.enemies.len()
            invariant
                self@ == w0,
                es == self.enemies@,
                well_formed(w0),
                i <= es.len(),
                marched_es@.len() == i,
                forall|j: int| 0 <= j < i ==> #[trigger] marched_es@[j] == moved_enemy(es[j], dt as int, fire_draw(rolls@, j)),
                forall|j: int| 0 <= j < i ==> enemy_ok(#[trigger] marched_es@[j]),
                fired@ == enemy_volley(es.subrange(0, i as int), dt as int, rolls@),
                forall|j: int| 0 <= j < fired@.len() ==> bullet_ok(#[trigger] fired@[j]),
                sized(fired@, ENEMY_BULLET_SIZE as int),
            decreases es.len() - i,
        {
            let e = self.enemies[i];
            assert(w0.enemies == es);
            assert(enemy_ok(w0.enemies[i as int]));
            let r = fire_roll(rolls, i);
            let m = move_enemy(e, dt, r);
            if e.shoot_cooldown <= 0 && is_below(r, 1, 100) {
                fired.push(enemy_bullet(m));
            }
            marched_es.push(m);
            proof {
                let s = es.subrange(0, i as int + 1);
                assert(s.drop_last() =~= es.subrange(0, i as int));
                assert(s[i as int] == es[i as int]);
            }
            i += 1;
        }
        assert(es.subrange(0, es.len() as int) =~= es);
        assert(marched_es@ =~= marched(es, dt as int, rolls@));
        assert(w0.bullets == self.bullets@);
        assert(w0.power_ups == self.power_ups@);
        assert(w0.explosions == self.explosions@);
        assert(w0.black_holes == hole_views(self.black_holes@));
        assert(forall|j: int| 0 <= j < self.power_ups@.len() ==> power_up_ok(#[trigger] self.power_ups@[j])) by {
            assert(forall|j: int| 0 <= j < w0.power_ups.len() ==> power_up_ok(#[trigger] w0.power_ups[j]));
        }
        assert(forall|j: int| 0 <= j < self.explosions@.len() ==> explosion_ok(#[trigger] self.explosions@[j]) && self.explosions@[j].life > 0) by {
            assert(forall|j: int| 0 <= j < w0.explosions.len() ==> explosion_ok(#[trigger] w0.explosions[j]));
            assert(forall|j: int| 0 <= j < w0.explosions.len() ==> #[trigger] w0.explosions[j].life > 0);
        }
        assert(forall|j: int| 0 <= j < self.bullets@.len() ==> bullet_ok(#[trigger] self.bullets@[j])) by {
            assert(forall|j: int| 0 <= j < w0.bullets.len() ==> bullet_ok(#[trigger] w0.bullets[j]));
        }
        let ghost shots = fired@;
        let ghost before = self.enemy_bullets@;
        assert(before == w0.enemy_bullets);
        self.enemies = marched_es;
        self.enemy_bullets.append(&mut fired);
        assert(forall|j: int| 0 <= j < self.enemy_bullets@.len() ==> bullet_ok(#[trigger] self.enemy_bullets@[j])) by {
            assert forall|j: int| 0 <= j < self.enemy_bullets@.len() implies bullet_ok(#[trigger] self.enemy_bullets@[j]) by {
                if j < before.len() {
                    assert(bullet_ok(w0.enemy_bullets[j]));
                } else {
                    assert(bullet_ok(shots[j - before.len()]));
                }
            }
        }
        assert(sized(self.enemy_bullets@, ENEMY_BULLET_SIZE as int)) by {
            assert forall|j: int| 0 <= j < self.enemy_bullets@.len() implies #[trigger] self.enemy_bullets@[j].size == ENEMY_BULLET_SIZE by {
                if j < before.len() {
                    assert(w0.enemy_bullets[j].size == ENEMY_BULLET_SIZE);
                } else {
                    assert(shots[j - before.len()].size == ENEMY_BULLET_SIZE);
                }
            }
        }
        self.enemy_bullets = move_bullets(&self.enemy_bullets, dt);
        assert(w0.bullets == self.bullets@);
        assert(sized(self.bullets@, BULLET_SIZE as int));
        self.bullets = move_bullets(&self.bullets, dt);
        self.power_ups = move_power_ups(&self.power_ups, dt);
        self.explosions = age_explosions(&self.explosions, dt);
        assert(self@ == advanced(w0, dt as int, rolls@));
    }

    /// Each hazard field ages, pulls the enemies in its reach and swallows
    /// those at its core.
    fn attract(&mut self, dt: u32)
        requires
            sound(old(self)@),
            forall|i: int| 0 <= i < old(self)@.enemies.len() ==> enemy_ok(#[trigger] old(self)@.enemies[i]),
            forall|i: int| 0 <= i < old(self)@.black_holes.len() ==> #[trigger] old(self)@.black_holes[i].life > 0,
        ensures
            final(self)@ == attracted(old(self)@, dt as int),
            sound(final(self)@),
    {
        let ghost w0 = self@;
        let ghost hs = w0.black_holes;
        let ghost es0 = self.enemies@;
        assert(w0.enemies == es0);
        let mut rest = self.black_holes.split_off(0);
        assert(hole_views(rest@) =~= hs.subrange(0, hs.len() as int));
        assert(hole_views(self.black_holes@) =~= Seq::empty());
        assert(hs.subrange(0, 0) =~= Seq::empty());
        let mut i: usize = 0;
        let count: usize = rest.len();
        assert(hs.len() == count);
        while rest.len() > 0
            invariant
                hs.len() <= usize::MAX,
                sound(w0),
                forall|k: int| 0 <= k < hs.len() ==> #[trigger] hs[k].life > 0,
                hs == w0.black_holes,
                es0 == w0.enemies,
                i <= hs.len(),
                rest@.len() == hs.len() - i,
                hole_views(rest@) == hs.subrange(i as int, hs.len() as int),
                self@ == (WorldState { enemies: self.enemies@, black_holes: hole_views(self.black_holes@), ..w0 }),
                (hole_views(self.black_holes@), self.enemies@) == gravity(hs.subrange(0, i as int), es0, dt as int),
                forall|k: int| 0 <= k < self.enemies@.len() ==> enemy_ok(#[trigger] self.enemies@[k]),
                forall|k: int| 0 <= k < self.black_holes@.len() ==> hole_ok(#[trigger] self.black_holes@[k]@),
            decreases rest@.len(),
        {
            let ghost rest0 = rest@;
            let ghost done0 = self.black_holes@;
            let mut h = rest.remove(0);
            assert(hole_views(rest0)[0] == h@);
            assert(h@ == hs[i as int]);
            assert(hole_ok(hs[i as int]) && hs[i as int].life > 0);
            let (left, mut eaten) = absorb_all(&h, &self.enemies, dt);
            h.life = h.life - dt as i64;
            h.consumed_enemies.append(&mut eaten);
            self.black_holes.push(h);
            self.enemies = left;
            proof {
                let s = hs.subrange(0, i as int + 1);
                assert(s.drop_last() =~= hs.subrange(0, i as int));
                assert(s.last() == hs[i as int]);
                assert(hole_views(self.black_holes@) =~= hole_views(done0).push(self.black_holes@.last()@));
                assert forall|k: int| 0 <= k < rest@.len() implies #[trigger] hole_views(rest@)[k] == hs[i + 1 + k] by {
                    assert(rest@[k] == rest0[k + 1]);
                    assert(hole_views(rest0)[k + 1] == hs.subrange(i as int, hs.len() as int)[k + 1]);
                }
                assert(hole_views(rest@) =~= hs.subrange(i as int + 1, hs.len() as int));
            }
            i += 1;
        }
        assert(hs.subrange(0, hs.len() as int) =~= hs);
        assert(self@ == attracted(w0, dt as int));
    }

    /// Each player bullet hits the first enemy it overlaps; enemies brought to
    /// zero health score and count as kills. They leave the field in `sweep`,
    /// after contact with the player has been tested.
    fn fight(&mut self)
        requires
            sound(old(self)@),
        ensures
            final(self)@ == fought(old(self)@),
            sound(final(self)@),
    {
        let ghost w0 = self@;
        let ghost bs = self.bullets@;
        assert(w0.enemies == self.enemies@ && w0.explosions == self.explosions@ && w0.bullets == bs);
        let mut kept: Vec<Bullet> = Vec::new();
        let mut i: usize = 0;
        while i < self.bullets.len()
            invariant
                sound(w0),
                self.bullets@ == bs,
                bs == w0.bullets,
                self@ == (WorldState {
                    enemies: self.enemies@,
                    score: self.score,
                    player: self.player,
                    explosions: self.explosions@,
                    ..w0
                }),
                self.player == (Player {
                    enemies_killed: self.player.enemies_killed,
                    growth_level: self.player.growth_level,
                    ..w0.player
                }),
                (Skirmish {
                    enemies: self.enemies@,
                    score: self.score,
                    kills: self.player.enemies_killed,
                    growth: self.player.growth_level,
                    explosions: self.explosions@,
                    bullets: kept@,
                }) == skirmish(opening(w0), bs.subrange(0, i as int)),
                i <= bs.len(),
                self.player.growth_level <= 5,
                forall|k: int| 0 <= k < self.enemies@.len() ==> enemy_bruised(#[trigger] self.enemies@[k]),
                forall|k: int| 0 <= k < self.explosions@.len() ==> explosion_ok(#[trigger] self.explosions@[k]),
                forall|k: int| 0 <= k < kept@.len() ==> bullet_ok(#[trigger] kept@[k]),
                sized(kept@, BULLET_SIZE as int),
            decreases bs.len() - i,
        {
            let b = self.bullets[i];
            assert(bullet_ok(bs[i as int]));
            assert(bs[i as int].size == BULLET_SIZE);
            let t = find_target(&b, &self.enemies);
            if t < self.enemies.len() {
                let e = self.enemies[t];
                assert(enemy_bruised(self.enemies@[t as int]));
                let health = if e.health < i64::MIN + b.damage { i64::MIN } else { e.health - b.damage };
                let hurt = Enemy { health, ..e };
                self.enemies.set(t, hurt);
                if e.health > 0 && hurt.health <= 0 {
                    self.score = self.score.saturating_add(enemy_value(e.kind));
                    let kills = self.player.enemies_killed.saturating_add(1);
                    self.player.enemies_killed = kills;
                    let g: u32 = if kills / 10 < 5 { kills / 10 } else { 5 };
                    if g > self.player.growth_level {
                        self.player.growth_level = g;
                    }
                    match e.kind {
                        EnemyKind::Tank => {
                            self.explosions.push(Explosion {
                                x: e.x,
                                y: e.y,
                                size: 2 * e.size,
                                life: TANK_BLAST_LIFE,
                                max_life: TANK_BLAST_LIFE,
                            });
                        },
                        _ => {},
                    }
                }
            } else {
                kept.push(b);
            }
            proof {
                let s = bs.subrange(0, i as int + 1);
                assert(s.drop_last() =~= bs.subrange(0, i as int));
                assert(s.last() == b);
            }
            i += 1;
        }
        assert(bs.subrange(0, bs.len() as int) =~= bs);
        self.bullets = kept;
        assert(self@ == fought(w0));
    }

    /// Enemy bullets, contact with enemies and power-ups, each against the
    /// player in turn.
    fn endure(&mut self)
        requires
            sound(old(self)@),
            !old(self)@.game_over ==> old(self)@.player.health > 0,
        ensures
            final(self)@ == struck(old(self)@),
            sound(final(self)@),
            !final(self)@.game_over ==> final(self)@.player.health > 0,
    {
        let ghost w0 = self@;
        let ghost ebs = self.enemy_bullets@;
        assert(w0.enemy_bullets == ebs && w0.enemies == self.enemies@ && w0.power_ups == self.power_ups@);
        let mut kept: Vec<Bullet> = Vec::new();
        let mut i: usize = 0;
        while i < self.enemy_bullets.len()
            invariant
                sound(w0),
                self.enemy_bullets@ == ebs,
                ebs == w0.enemy_bullets,
                self@ == (WorldState { player: self.player, game_over: self.game_over, ..w0 }),
                self.player == (Player { health: self.player.health, growth_level: self.player.growth_level, ..w0.player }),
                !self.game_over ==> self.player.health > 0,
                (self.player, self.game_over, kept@) == barrage(w0.player, w0.game_over, ebs.subrange(0, i as int)),
                player_ok(self.player, w0.width as int, w0.height as int),
                i <= ebs.len(),
                forall|k: int| 0 <= k < kept@.len() ==> bullet_ok(#[trigger] kept@[k]),
                sized(kept@, ENEMY_BULLET_SIZE as int),
            decreases ebs.len() - i,
        {
            let b = self.enemy_bullets[i];
            assert(bullet_ok(ebs[i as int]));
            assert(ebs[i as int].size == ENEMY_BULLET_SIZE);
            let p = self.player;
            if overlaps(b.x, b.y, p.x, p.y, b.size + p.size) {
                self.player = wound(p, b.damage);
                self.game_over = self.game_over || self.player.health <= 0;
            } else {
                kept.push(b);
            }
            proof {
                let s = ebs.subrange(0, i as int + 1);
                assert(s.drop_last() =~= ebs.subrange(0, i as int));
                assert(s.last() == b);
            }
            i += 1;
        }
        assert(ebs.subrange(0, ebs.len() as int) =~= ebs);
        self.enemy_bullets = kept;
        let ghost w1 = self@;
        let ghost es = self.enemies@;
        let mut j: usize = 0;
        while j < self.enemies.len()
            invariant
                sound(w1),
                self.enemies@ == es,
                es == w1.enemies,
                self@ == (WorldState { player: self.player, game_over: self.game_over, ..w1 }),
                self.player == (Player { health: self.player.health, growth_level: self.player.growth_level, ..w1.player }),
                !self.game_over ==> self.player.health > 0,
                (self.player, self.game_over) == contact(w1.player, w1.game_over, es.subrange(0, j as int)),
                player_ok(self.player, w1.width as int, w1.height as int),
                j <= es.len(),
            decreases es.len() - j,
        {
            let e = self.enemies[j];
            assert(enemy_bruised(es[j as int]));
            let p = self.player;
            if overlaps(e.x, e.y, p.x, p.y, e.size + p.size) {
                self.player = wound(p, CONTACT_DAMAGE);
                self.game_over = self.game_over || self.player.health <= 0;
            }
            proof {
                let s = es.subrange(0, j as int + 1);
                assert(s.drop_last() =~= es.subrange(0, j as int));
                assert(s.last() == e);
            }
            j += 1;
        }
        assert(es.subrange(0, es.len() as int) =~= es);
        let ghost w2 = self@;
        let ghost us = self.power_ups@;
        let mut left: Vec<PowerUp> = Vec::new();
        let mut k: usize = 0;
        while k < self.power_ups.len()
            invariant
                sound(w2),
                self.power_ups@ == us,
                us == w2.power_ups,
                self@ == (WorldState { player: self.player, ..w2 }),
                self.player == (Player { health: self.player.health, power_level: self.player.power_level, ..w2.player }),
                !self.game_over ==> self.player.health > 0,
                (self.player, left@) == pickup(w2.player, us.subrange(0, k as int)),
                player_ok(self.player, w2.width as int, w2.height as int),
                k <= us.len(),
                forall|m: int| 0 <= m < left@.len() ==> power_up_ok(#[trigger] left@[m]),
            decreases us.len() - k,
        {
            let u = self.power_ups[k];
            assert(power_up_ok(us[k as int]));
            let p = self.player;
            if overlaps(u.x, u.y, p.x, p.y, u.size + p.size) {
                self.player = boost(p, u.kind);
            } else {
                left.push(u);
            }
            proof {
                let s = us.subrange(0, k as int + 1);
                assert(s.drop_last() =~= us.subrange(0, k as int));
                assert(s.last() == u);
            }
            k += 1;
        }
        assert(us.subrange(0, us.len() as int) =~= us);
        self.power_ups = left;
        assert(self@ == struck(w0));
    }

    /// Culls what left the playfield or burned out; expired hazard fields
    /// detonate and score for what they swallowed.
    fn sweep(&mut self)
        requires
            sound(old(self)@),
            !old(self)@.game_over ==> old(self)@.player.health > 0,
        ensures
            final(self)@ == swept(old(self)@),
            well_formed(final(self)@),
    {
        let ghost w0 = self@;
        assert(w0.bullets == self.bullets@ && w0.enemy_bullets == self.enemy_bullets@ && w0.enemies == self.enemies@);
        assert(w0.power_ups == self.power_ups@ && w0.explosions == self.explosions@ && w0.black_holes == hole_views(self.black_holes@));
        self.bullets = keep_bullets_in_flight(&self.bullets, self.height, Ghost(BULLET_SIZE as int));
        self.enemy_bullets = keep_bullets_in_flight(&self.enemy_bullets, self.height, Ghost(ENEMY_BULLET_SIZE as int));
        let live = keep_alive(&self.enemies);
        self.enemies = keep_enemies_in_play(&live, self.height);
        self.power_ups = keep_power_ups_in_play(&self.power_ups, self.height);
        self.explosions = keep_burning(&self.explosions);
        let ghost xs0 = self.explosions@;
        let ghost s0 = self.score;
        let ghost hs = w0.black_holes;
        let mut rest = self.black_holes.split_off(0);
        assert(hole_views(rest@) =~= hs.subrange(0, hs.len() as int));
        assert(hole_views(self.black_holes@) =~= Seq::empty());
        assert(hs.subrange(0, 0) =~= Seq::empty());
        let mut i: usize = 0;
        let count: usize = rest.len();
        assert(hs.len() == count);
        while rest.len() > 0
            invariant
                hs.len() <= usize::MAX,
                hs == w0.black_holes,
                forall|k: int| 0 <= k < hs.len() ==> hole_ok(#[trigger] hs[k]),
                i <= hs.len(),
                rest@.len() == hs.len() - i,
                hole_views(rest@) == hs.subrange(i as int, hs.len() as int),
                (self.explosions@, self.score, hole_views(self.black_holes@)) == expire(xs0, s0, hs.subrange(0, i as int)),
                forall|k: int| 0 <= k < self.explosions@.len() ==> explosion_ok(#[trigger] self.explosions@[k]) && self.explosions@[k].life > 0,
                forall|k: int| 0 <= k < self.black_holes@.len() ==> hole_ok(#[trigger] self.black_holes@[k]@) && self.black_holes@[k]@.life > 0,
                self.player == w0.player,
                self.width == w0.width,
                self.height == w0.height,
                self.game_over == w0.game_over,
                self.level == w0.level,
                self.game_time == w0.game_time,
                self.enemy_spawn_timer == w0.enemy_spawn_timer,
                self.power_up_spawn_timer == w0.power_up_spawn_timer,
                self.bullets@ == w0.bullets.filter(in_flight(w0.height as int)),
                self.enemy_bullets@ == w0.enemy_bullets.filter(in_flight(w0.height as int)),
                self.enemies@ == w0.enemies.filter(alive()).filter(enemy_in_play(w0.height as int)),
                forall|k: int| 0 <= k < self.enemies@.len() ==> enemy_ok(#[trigger] self.enemies@[k]),
                self.power_ups@ == w0.power_ups.filter(power_up_in_play(w0.height as int)),
                xs0 == w0.explosions.filter(burning()),
                s0 == w0.score,
            decreases rest@.len(),
        {
            let ghost rest0 = rest@;
            let ghost kept0 = self.black_holes@;
            let h = rest.remove(0);
            assert(hole_views(rest0)[0] == h@);
            assert(h@ == hs[i as int]);
            assert(hole_ok(hs[i as int]));
            if h.life <= 0 {
                let n: i128 = h.consumed_enemies.len() as i128;
                let big: i128 = 3 * h.size as i128 + HOLE_BLAST_PER_VICTIM as i128 * n;
                let size: i64 = if big > i64::MAX as i128 { i64::MAX } else { big as i64 };
                self.explosions.push(Explosion {
                    x: h.x,
                    y: h.y,
                    size,
                    life: HOLE_BLAST_LIFE,
                    max_life: HOLE_BLAST_LIFE,
                });
                let total: u128 = self.score as u128 + HOLE_SCORE_PER_VICTIM as u128 * n as u128;
                self.score = if total > u32::MAX as u128 { u32::MAX } else { total as u32 };
            } else {
                self.black_holes.push(h);
                assert(hole_views(self.black_holes@) =~= hole_views(kept0).push(hs[i as int]));
            }
            proof {
                let s = hs.subrange(0, i as int + 1);
                assert(s.drop_last() =~= hs.subrange(0, i as int));
                assert(s.last() == hs[i as int]);
                assert forall|k: int| 0 <= k < rest@.len() implies #[trigger] hole_views(rest@)[k] == hs[i + 1 + k] by {
                    assert(rest@[k] == rest0[k + 1]);
                    assert(hole_views(rest0)[k + 1] == hs.subrange(i as int, hs.len() as int)[k + 1]);
                }
                assert(hole_views(rest@) =~= hs.subrange(i as int + 1, hs.len() as int));
            }
            i += 1;
        }
        assert(hs.subrange(0, hs.len() as int) =~= hs);
        assert(self@ == swept(w0));
    }

    /// The enemy and power-up gates.
    fn spawn(&mut self, rolls: &Vec<u32>)
        requires
            well_formed(old(self)@),
        ensures
            final(self)@ == spawned(old(self)@, rolls@),
            well_formed(final(self)@),
    {
        let ghost w0 = self@;
        assert((self.enemy_spawn_timer as int) * (5 + self.level as int) <= u64::MAX * (5 + u32::MAX as int)) by (nonlinear_arith)
            requires self.enemy_spawn_timer <= u64::MAX, self.level <= u32::MAX;
        if (self.enemy_spawn_timer as u128) * (5 + self.level as u128) >= 5000 {
            let e = new_enemy(self.width, rolls);
            self.enemies.push(e);
            self.enemy_spawn_timer = 0;
        }
        let ghost w1 = self@;
        assert(w1 == (if enemy_due(w0.enemy_spawn_timer as int, w0.level as int) {
            WorldState { enemies: w0.enemies.push(spawned_enemy(w0.width as int, rolls@)), enemy_spawn_timer: 0, ..w0 }
        } else {
            w0
        }));
        if self.power_up_spawn_timer >= POWER_UP_PERIOD {
            let u = new_power_up(self.width, rolls);
            self.power_ups.push(u);
            self.power_up_spawn_timer = 0;
        }
    }
}

} // verus!
