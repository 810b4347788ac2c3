use vstd::prelude::*;

use crate::entities::{
    below, draw, HoleView, enemy_code, power_up_code, kind_stats, kind_value, portion, BlackHole, Bullet, Enemy, EnemyKind, Explosion,
    Player, PowerUp, PowerUpKind, BULLET_DAMAGE_PER_LEVEL, BULLET_SIZE, BULLET_SPEED,
    CONTACT_DAMAGE, ENEMY_BULLET_DAMAGE, ENEMY_BULLET_SIZE, ENEMY_BULLET_SPEED,
    ENEMY_CULL_MARGIN, ENEMY_FIRE_COOLDOWN, ENEMY_SPAWN_MARGIN, ENEMY_SPAWN_Y, HAZARD_COOLDOWN,
    HEALTH_HEAL, HOLE_BLAST_LIFE, HOLE_BLAST_PER_VICTIM, HOLE_LIFE, HOLE_PULL_RADIUS, HOLE_SIZE,
    HOLE_SCORE_PER_VICTIM, PLAYER_MAX_HEALTH, PLAYER_SIZE, PLAYER_SPEED, POWER_UP_CULL_MARGIN,
    POWER_UP_SIZE, POWER_UP_SPAWN_MARGIN, POWER_UP_SPAWN_Y, POWER_UP_SPEED, PULL_STRENGTH,
    SHIELD_HEAL, SHOOT_COOLDOWN, TANK_BLAST_LIFE, PLAYER_START_RISE, POWER_UP_PERIOD, HOLE_RISE, TWIN_OFFSET, SPREAD_OFFSET, SPREAD_SPEED, UNIT, BULLET_CULL_MARGIN,
};
use crate::geometry::{clamped, is_isqrt, on_field, shifted, touching};

verus! {

/// Random-draw slots of a frame. Enemy `i` (after this frame's spawn) reads
/// its fire chance from slot `SLOT_FIRE + i`.
pub const SLOT_TANK: usize = 0;
pub const SLOT_FAST: usize = 1;
pub const SLOT_ENEMY_X: usize = 2;
pub const SLOT_ENEMY_DRIFT: usize = 3;
pub const SLOT_HEALTH: usize = 4;
pub const SLOT_WEAPON: usize = 5;
pub const SLOT_POWER_UP_X: usize = 6;
pub const SLOT_FIRE: usize = 7;

/// The mathematical state of the world.
pub struct WorldState {
    pub player: Player,
    pub enemies: Seq<Enemy>,
    pub bullets: Seq<Bullet>,
    pub enemy_bullets: Seq<Bullet>,
    pub power_ups: Seq<PowerUp>,
    pub explosions: Seq<Explosion>,
    pub black_holes: Seq<HoleView>,
    pub score: u32,
    pub level: u32,
    pub game_time: u64,
    pub enemy_spawn_timer: u64,
    pub power_up_spawn_timer: u64,
    pub width: i64,
    pub height: i64,
    pub game_over: bool,
}

pub open spec fn sat_u32(v: int) -> u32 {
    if v > u32::MAX {
        u32::MAX
    } else {
        v as u32
    }
}

pub open spec fn sat_i64(v: int) -> i64 {
    if v < i64::MIN {
        i64::MIN
    } else {
        v as i64
    }
}

pub open spec fn sat_u64(v: int) -> u64 {
    if v > u64::MAX {
        u64::MAX
    } else {
        v as u64
    }
}

/// A cooldown after `dt` milliseconds, floored at zero.
pub open spec fn cooled(cd: int, dt: int) -> i64 {
    if cd > dt {
        (cd - dt) as i64
    } else {
        0
    }
}

// ---------------------------------------------------------------- bounds

pub open spec fn life_ok(life: int, max_life: int) -> bool {
    -(u32::MAX as int) <= life <= max_life
}

pub open spec fn player_ok(p: Player, width: int, height: int) -> bool {
    &&& p.size == PLAYER_SIZE
    &&& p.max_health == PLAYER_MAX_HEALTH
    &&& 0 <= p.health <= p.max_health
    &&& 0 <= p.x <= width
    &&& -PLAYER_START_RISE <= p.y <= height
    &&& i32::MIN <= p.vx <= i32::MAX
    &&& i32::MIN <= p.vy <= i32::MAX
    &&& 0 <= p.shoot_cooldown <= SHOOT_COOLDOWN
    &&& 0 <= p.hazard_cooldown <= HAZARD_COOLDOWN
    &&& 1 <= p.power_level <= 3
    &&& p.growth_level <= 5
}

pub open spec fn enemy_ok(e: Enemy) -> bool {
    let (size, health, speed) = kind_stats(e.kind);
    &&& on_field(e.x as int)
    &&& on_field(e.y as int)
    &&& e.size == size
    &&& 1 <= e.health <= health
    &&& e.vy == speed
    &&& -speed <= e.vx <= speed
    &&& 0 <= e.shoot_cooldown <= ENEMY_FIRE_COOLDOWN
}

/// `enemy_ok`, but for health, which hits may have taken to zero or below.
pub open spec fn enemy_bruised(e: Enemy) -> bool {
    let (size, health, speed) = kind_stats(e.kind);
    &&& on_field(e.x as int)
    &&& on_field(e.y as int)
    &&& e.size == size
    &&& e.health <= health
    &&& e.vy == speed
    &&& -speed <= e.vx <= speed
    &&& 0 <= e.shoot_cooldown <= ENEMY_FIRE_COOLDOWN
}

pub open spec fn bullet_ok(b: Bullet) -> bool {
    &&& on_field(b.x as int)
    &&& on_field(b.y as int)
    &&& 0 < b.size <= BULLET_SIZE
    &&& 1 <= b.damage <= 3 * BULLET_DAMAGE_PER_LEVEL
    &&& -BULLET_SPEED <= b.vx <= BULLET_SPEED
    &&& -BULLET_SPEED <= b.vy <= BULLET_SPEED
}

pub open spec fn power_up_ok(p: PowerUp) -> bool {
    &&& on_field(p.x as int)
    &&& on_field(p.y as int)
    &&& p.size == POWER_UP_SIZE
    &&& p.vy == POWER_UP_SPEED
}

pub open spec fn explosion_ok(e: Explosion) -> bool {
    &&& on_field(e.x as int)
    &&& on_field(e.y as int)
    &&& 0 < e.size
    &&& 0 < e.max_life <= HOLE_BLAST_LIFE
    &&& life_ok(e.life as int, e.max_life as int)
}

pub open spec fn hole_ok(h: HoleView) -> bool {
    &&& on_field(h.x as int)
    &&& on_field(h.y as int)
    &&& h.size == HOLE_SIZE
    &&& h.pull_radius == HOLE_PULL_RADIUS
    &&& h.max_life == HOLE_LIFE
    &&& life_ok(h.life as int, h.max_life as int)
}

pub open spec fn hole_views(hs: Seq<BlackHole>) -> Seq<HoleView> {
    hs.map_values(|h: BlackHole| h@)
}

/// Every bullet of `bs` has collision radius `size`.
pub open spec fn sized(bs: Seq<Bullet>, size: int) -> bool {
    forall|i: int| 0 <= i < bs.len() ==> #[trigger] bs[i].size == size
}

/// What holds of the world between any two phases of a frame.
pub open spec fn sound(w: WorldState) -> bool {
    &&& 2 * PLAYER_SIZE <= w.width <= u32::MAX * UNIT
    &&& 2 * PLAYER_SIZE <= w.height <= u32::MAX * UNIT
    &&& player_ok(w.player, w.width as int, w.height as int)
    &&& forall|i: int| 0 <= i < w.enemies.len() ==> enemy_bruised(#[trigger] w.enemies[i])
    &&& forall|i: int| 0 <= i < w.bullets.len() ==> bullet_ok(#[trigger] w.bullets[i])
    &&& forall|i: int| 0 <= i < w.enemy_bullets.len() ==> bullet_ok(#[trigger] w.enemy_bullets[i])
    &&& sized(w.bullets, BULLET_SIZE as int)
    &&& sized(w.enemy_bullets, ENEMY_BULLET_SIZE as int)
    &&& forall|i: int| 0 <= i < w.power_ups.len() ==> power_up_ok(#[trigger] w.power_ups[i])
    &&& forall|i: int| 0 <= i < w.explosions.len() ==> explosion_ok(#[trigger] w.explosions[i])
    &&& forall|i: int| 0 <= i < w.black_holes.len() ==> hole_ok(#[trigger] w.black_holes[i])
}

/// What holds of the world between frames: a game not over has a player with
/// health left, and every enemy and timed effect is still alive.
pub open spec fn well_formed(w: WorldState) -> bool {
    &&& sound(w)
    &&& !w.game_over ==> w.player.health > 0
    &&& forall|i: int| 0 <= i < w.enemies.len() ==> enemy_ok(#[trigger] w.enemies[i])
    &&& forall|i: int| 0 <= i < w.explosions.len() ==> #[trigger] w.explosions[i].life > 0
    &&& forall|i: int| 0 <= i < w.black_holes.len() ==> #[trigger] w.black_holes[i].life > 0
}

// ---------------------------------------------------------------- motion

pub open spec fn moved_bullet(b: Bullet, dt: int) -> Bullet {
    Bullet { x: shifted(b.x as int, b.vx * dt) as i64, y: shifted(b.y as int, b.vy * dt) as i64, ..b }
}

pub open spec fn moved_power_up(p: PowerUp, dt: int) -> PowerUp {
    PowerUp { y: shifted(p.y as int, p.vy * dt) as i64, ..p }
}

pub open spec fn aged_explosion(e: Explosion, dt: int) -> Explosion {
    Explosion { life: (e.life - dt) as i64, ..e }
}

/// The player after `dt`: moved at `PLAYER_SPEED` per thousandth of its
/// direction, kept wholly inside the playfield, cooldowns run down.
pub open spec fn steered(p: Player, width: int, height: int, dt: int) -> Player {
    Player {
        x: clamped(p.x + p.vx * PLAYER_SPEED * dt, p.size as int, width - p.size) as i64,
        y: clamped(p.y + p.vy * PLAYER_SPEED * dt, p.size as int, height - p.size) as i64,
        shoot_cooldown: cooled(p.shoot_cooldown as int, dt),
        hazard_cooldown: cooled(p.hazard_cooldown as int, dt),
        ..p
    }
}

// ---------------------------------------------------------------- spawning

pub open spec fn spawn_kind(rolls: Seq<u32>) -> EnemyKind {
    if below(draw(rolls, SLOT_TANK as int), 1, 10) {
        EnemyKind::Tank
    } else if below(draw(rolls, SLOT_FAST as int), 3, 10) {
        EnemyKind::Fast
    } else {
        EnemyKind::Basic
    }
}

pub open spec fn spawned_enemy(width: int, rolls: Seq<u32>) -> Enemy {
    let kind = spawn_kind(rolls);
    let (size, health, speed) = kind_stats(kind);
    Enemy {
        x: (ENEMY_SPAWN_MARGIN + portion(draw(rolls, SLOT_ENEMY_X as int), width - 2 * ENEMY_SPAWN_MARGIN)) as i64,
        y: ENEMY_SPAWN_Y,
        vx: (portion(draw(rolls, SLOT_ENEMY_DRIFT as int), speed as int) - speed / 2) as i64,
        vy: speed,
        health,
        size,
        kind,
        shoot_cooldown: 0,
    }
}

/// The enemy gate opens once `1 / (1 + level / 5)` seconds have gathered.
pub open spec fn enemy_due(timer: int, level: int) -> bool {
    timer * (5 + level) >= 5000
}

pub open spec fn spawn_power_kind(rolls: Seq<u32>) -> PowerUpKind {
    if below(draw(rolls, SLOT_HEALTH as int), 4, 10) {
        PowerUpKind::Health
    } else if below(draw(rolls, SLOT_WEAPON as int), 3, 10) {
        PowerUpKind::Weapon
    } else {
        PowerUpKind::Shield
    }
}

pub open spec fn spawned_power_up(width: int, rolls: Seq<u32>) -> PowerUp {
    PowerUp {
        x: (POWER_UP_SPAWN_MARGIN + portion(draw(rolls, SLOT_POWER_UP_X as int), width - 2 * POWER_UP_SPAWN_MARGIN)) as i64,
        y: POWER_UP_SPAWN_Y,
        vy: POWER_UP_SPEED,
        size: POWER_UP_SIZE,
        kind: spawn_power_kind(rolls),
    }
}

// ---------------------------------------------------------------- enemy behaviour

pub open spec fn enemy_fires(e: Enemy, r: u32) -> bool {
    e.shoot_cooldown <= 0 && below(r, 1, 100)
}

pub open spec fn moved_enemy(e: Enemy, dt: int, r: u32) -> Enemy {
    Enemy {
        x: shifted(e.x as int, e.vx * dt) as i64,
        y: shifted(e.y as int, e.vy * dt) as i64,
        shoot_cooldown: if e.shoot_cooldown > 0 {
            cooled(e.shoot_cooldown as int, dt)
        } else if below(r, 1, 100) {
            ENEMY_FIRE_COOLDOWN
        } else {
            e.shoot_cooldown
        },
        ..e
    }
}

/// The bullet an enemy fires from where it stands.
pub open spec fn enemy_shot(e: Enemy) -> Bullet {
    Bullet {
        x: e.x,
        y: shifted(e.y as int, e.size as int) as i64,
        vx: 0,
        vy: ENEMY_BULLET_SPEED,
        size: ENEMY_BULLET_SIZE,
        damage: ENEMY_BULLET_DAMAGE,
    }
}

pub open spec fn fire_draw(rolls: Seq<u32>, i: int) -> u32 {
    draw(rolls, SLOT_FIRE + i)
}

pub open spec fn enemy_volley(es: Seq<Enemy>, dt: int, rolls: Seq<u32>) -> Seq<Bullet>
    decreases es.len(),
{
    if es.len() == 0 {
        Seq::empty()
    } else {
        let i = es.len() - 1;
        let prev = enemy_volley(es.drop_last(), dt, rolls);
        if enemy_fires(es[i], fire_draw(rolls, i)) {
            prev.push(enemy_shot(moved_enemy(es[i], dt, fire_draw(rolls, i))))
        } else {
            prev
        }
    }
}

pub open spec fn marched(es: Seq<Enemy>, dt: int, rolls: Seq<u32>) -> Seq<Enemy> {
    Seq::new(es.len(), |i: int| moved_enemy(es[i], dt, fire_draw(rolls, i)))
}

// ---------------------------------------------------------------- hazard fields

/// The integer square root of `n`.
pub open spec fn root(n: int) -> int {
    choose|r: int| is_isqrt(n, r)
}

/// Displacement along one axis toward a field's center: the pull speed
/// `PULL_STRENGTH * (1 - dist / pull)` times `dt`, along `d / dist`.
pub open spec fn pull_offset(d: int, dist: int, pull: int, dt: int) -> int {
    let mag = (vstd::math::abs(d) * PULL_STRENGTH * (pull - dist) * dt) / (pull * dist);
    if d >= 0 {
        mag
    } else {
        -mag
    }
}

pub open spec fn swallows(h: HoleView, e: Enemy) -> bool {
    touching(h.x as int, h.y as int, e.x as int, e.y as int, h.size as int)
}

pub open spec fn pulled(h: HoleView, e: Enemy, dt: int) -> Enemy {
    let dx = h.x - e.x;
    let dy = h.y - e.y;
    let dist = root(dx * dx + dy * dy);
    if !touching(h.x as int, h.y as int, e.x as int, e.y as int, h.pull_radius as int) || dist == 0 {
        e
    } else {
        Enemy {
            x: shifted(e.x as int, pull_offset(dx, dist, h.pull_radius as int, dt)) as i64,
            y: shifted(e.y as int, pull_offset(dy, dist, h.pull_radius as int, dt)) as i64,
            ..e
        }
    }
}

/// The enemies a field leaves: each one it does not swallow, pulled toward it.
pub open spec fn absorb(h: HoleView, es: Seq<Enemy>, dt: int) -> Seq<Enemy>
    decreases es.len(),
{
    if es.len() == 0 {
        Seq::empty()
    } else {
        let rest = absorb(h, es.drop_last(), dt);
        if swallows(h, es.last()) {
            rest
        } else {
            rest.push(pulled(h, es.last(), dt))
        }
    }
}

/// Where the enemies a field swallows stand once pulled, in order.
pub open spec fn swallowed_at(h: HoleView, es: Seq<Enemy>, dt: int) -> Seq<(i64, i64)>
    decreases es.len(),
{
    if es.len() == 0 {
        Seq::empty()
    } else {
        let rest = swallowed_at(h, es.drop_last(), dt);
        if swallows(h, es.last()) {
            let p = pulled(h, es.last(), dt);
            rest.push((p.x, p.y))
        } else {
            rest
        }
    }
}

/// The field after a frame against `es`: older, and holding the positions of
/// the enemies it swallowed.
pub open spec fn fed(h: HoleView, es: Seq<Enemy>, dt: int) -> HoleView {
    HoleView { life: (h.life - dt) as i64, consumed: h.consumed + swallowed_at(h, es, dt), ..h }
}

/// Fields act in order, each on the enemies the earlier ones left.
pub open spec fn gravity(hs: Seq<HoleView>, es: Seq<Enemy>, dt: int) -> (Seq<HoleView>, Seq<Enemy>)
    decreases hs.len(),
{
    if hs.len() == 0 {
        (hs, es)
    } else {
        let (done, left) = gravity(hs.drop_last(), es, dt);
        (done.push(fed(hs.last(), left, dt)), absorb(hs.last(), left, dt))
    }
}

// ---------------------------------------------------------------- player bullets against enemies

pub struct Skirmish {
    pub enemies: Seq<Enemy>,
    pub score: u32,
    pub kills: u32,
    pub growth: u32,
    pub explosions: Seq<Explosion>,
    /// The bullets that hit nothing.
    pub bullets: Seq<Bullet>,
}

pub open spec fn strikes(b: Bullet, e: Enemy) -> bool {
    touching(b.x as int, b.y as int, e.x as int, e.y as int, b.size + e.size)
}

/// The first enemy from `j` on that `b` overlaps, dead or alive, or `es.len()`.
pub open spec fn target_from(b: Bullet, es: Seq<Enemy>, j: int) -> int
    decreases es.len() - j,
{
    if j >= es.len() {
        es.len() as int
    } else if strikes(b, es[j]) {
        j
    } else {
        target_from(b, es, j + 1)
    }
}

pub open spec fn tank_blast(e: Enemy) -> Explosion {
    Explosion { x: e.x, y: e.y, size: (2 * e.size) as i64, life: TANK_BLAST_LIFE, max_life: TANK_BLAST_LIFE }
}

pub open spec fn grown(growth: u32, kills: u32) -> u32 {
    let g = if kills / 10 < 5 { kills / 10 } else { 5 };
    if g > growth {
        g as u32
    } else {
        growth
    }
}

/// A bullet hits the first enemy it overlaps and is spent; the hit that takes
/// an enemy from above zero to zero or below scores and counts as a kill.
pub open spec fn strike(s: Skirmish, b: Bullet) -> Skirmish {
    let t = target_from(b, s.enemies, 0);
    if t >= s.enemies.len() {
        Skirmish { bullets: s.bullets.push(b), ..s }
    } else {
        let e = s.enemies[t];
        let hurt = Enemy { health: sat_i64(e.health - b.damage), ..e };
        if e.health <= 0 || hurt.health > 0 {
            Skirmish { enemies: s.enemies.update(t, hurt), ..s }
        } else {
            let kills = sat_u32(s.kills + 1);
            Skirmish {
                enemies: s.enemies.update(t, hurt),
                score: sat_u32(s.score + kind_value(e.kind)),
                kills,
                growth: grown(s.growth, kills),
                explosions: if e.kind == EnemyKind::Tank {
                    s.explosions.push(tank_blast(e))
                } else {
                    s.explosions
                },
                bullets: s.bullets,
            }
        }
    }
}

pub open spec fn skirmish(s: Skirmish, bs: Seq<Bullet>) -> Skirmish
    decreases bs.len(),
{
    if bs.len() == 0 {
        s
    } else {
        strike(skirmish(s, bs.drop_last()), bs.last())
    }
}

pub open spec fn alive() -> spec_fn(Enemy) -> bool {
    |e: Enemy| e.health > 0
}

// ---------------------------------------------------------------- hits on the player

/// The player after one hit of `dmg`: health floored at zero, one growth level lost.
pub open spec fn wounded(p: Player, dmg: int) -> Player {
    Player {
        health: if p.health > dmg { (p.health - dmg) as i64 } else { 0 },
        growth_level: if p.growth_level > 0 { (p.growth_level - 1) as u32 } else { 0 },
        ..p
    }
}

pub open spec fn bullet_meets(b: Bullet, p: Player) -> bool {
    touching(b.x as int, b.y as int, p.x as int, p.y as int, b.size + p.size)
}

/// Enemy bullets in order: (player, game over, bullets that missed).
pub open spec fn barrage(p: Player, over: bool, bs: Seq<Bullet>) -> (Player, bool, Seq<Bullet>)
    decreases bs.len(),
{
    if bs.len() == 0 {
        (p, over, bs)
    } else {
        let (prev, was_over, kept) = barrage(p, over, bs.drop_last());
        let b = bs.last();
        if bullet_meets(b, prev) {
            let hurt = wounded(prev, b.damage as int);
            (hurt, was_over || hurt.health <= 0, kept)
        } else {
            (prev, was_over, kept.push(b))
        }
    }
}

pub open spec fn enemy_meets(e: Enemy, p: Player) -> bool {
    touching(e.x as int, e.y as int, p.x as int, p.y as int, e.size + p.size)
}

/// Contact damage from every enemy that overlaps the player.
pub open spec fn contact(p: Player, over: bool, es: Seq<Enemy>) -> (Player, bool)
    decreases es.len(),
{
    if es.len() == 0 {
        (p, over)
    } else {
        let (prev, was_over) = contact(p, over, es.drop_last());
        if enemy_meets(es.last(), prev) {
            let hurt = wounded(prev, CONTACT_DAMAGE as int);
            (hurt, was_over || hurt.health <= 0)
        } else {
            (prev, was_over)
        }
    }
}

pub open spec fn boosted(p: Player, kind: PowerUpKind) -> Player {
    match kind {
        PowerUpKind::Health => Player {
            health: if p.health + HEALTH_HEAL < p.max_health { (p.health + HEALTH_HEAL) as i64 } else { p.max_health },
            ..p
        },
        PowerUpKind::Weapon => Player {
            power_level: if p.power_level < 3 { (p.power_level + 1) as u32 } else { 3 },
            ..p
        },
        PowerUpKind::Shield => Player {
            health: if p.health + SHIELD_HEAL < p.max_health { (p.health + SHIELD_HEAL) as i64 } else { p.max_health },
            ..p
        },
    }
}

pub open spec fn power_up_meets(u: PowerUp, p: Player) -> bool {
    touching(u.x as int, u.y as int, p.x as int, p.y as int, u.size + p.size)
}

/// Power-ups in order: (player, power-ups not picked up).
pub open spec fn pickup(p: Player, us: Seq<PowerUp>) -> (Player, Seq<PowerUp>)
    decreases us.len(),
{
    if us.len() == 0 {
        (p, us)
    } else {
        let (prev, kept) = pickup(p, us.drop_last());
        if power_up_meets(us.last(), prev) {
            (boosted(prev, us.last().kind), kept)
        } else {
            (prev, kept.push(us.last()))
        }
    }
}

// ---------------------------------------------------------------- cleanup

pub open spec fn in_flight(height: int) -> spec_fn(Bullet) -> bool {
    |b: Bullet| -BULLET_CULL_MARGIN < b.y < height + BULLET_CULL_MARGIN
}

pub open spec fn enemy_in_play(height: int) -> spec_fn(Enemy) -> bool {
    |e: Enemy| e.y < height + ENEMY_CULL_MARGIN
}

pub open spec fn power_up_in_play(height: int) -> spec_fn(PowerUp) -> bool {
    |u: PowerUp| u.y < height + POWER_UP_CULL_MARGIN
}

pub open spec fn burning() -> spec_fn(Explosion) -> bool {
    |e: Explosion| e.life > 0
}

/// The blast of an expired field grows with each enemy it consumed.
pub open spec fn hole_blast(h: HoleView) -> Explosion {
    let size = 3 * h.size + HOLE_BLAST_PER_VICTIM * h.consumed.len();
    Explosion {
        x: h.x,
        y: h.y,
        size: if size > i64::MAX { i64::MAX } else { size as i64 },
        life: HOLE_BLAST_LIFE,
        max_life: HOLE_BLAST_LIFE,
    }
}

/// Expired fields in order: (explosions, score, fields still alive).
pub open spec fn expire(xs: Seq<Explosion>, score: u32, hs: Seq<HoleView>) -> (Seq<Explosion>, u32, Seq<HoleView>)
    decreases hs.len(),
{
    if hs.len() == 0 {
        (xs, score, hs)
    } else {
        let (blasts, earned, kept) = expire(xs, score, hs.drop_last());
        let h = hs.last();
        if h.life <= 0 {
            (blasts.push(hole_blast(h)), sat_u32(earned + HOLE_SCORE_PER_VICTIM * h.consumed.len()), kept)
        } else {
            (blasts, earned, kept.push(h))
        }
    }
}

// ---------------------------------------------------------------- commands

pub open spec fn initial_player(width: int, height: int) -> Player {
    Player {
        x: (width / 2) as i64,
        y: (height - PLAYER_START_RISE) as i64,
        vx: 0,
        vy: 0,
        health: PLAYER_MAX_HEALTH,
        max_health: PLAYER_MAX_HEALTH,
        size: PLAYER_SIZE,
        shoot_cooldown: 0,
        power_level: 1,
        growth_level: 0,
        enemies_killed: 0,
        hazard_cooldown: 0,
    }
}

/// The world of a fresh game on a `width` by `height` playfield.
pub open spec fn fresh(width: int, height: int) -> WorldState {
    WorldState {
        player: initial_player(width, height),
        enemies: Seq::empty(),
        bullets: Seq::empty(),
        enemy_bullets: Seq::empty(),
        power_ups: Seq::empty(),
        explosions: Seq::empty(),
        black_holes: Seq::empty(),
        score: 0,
        level: 1,
        game_time: 0,
        enemy_spawn_timer: 0,
        power_up_spawn_timer: 0,
        width: width as i64,
        height: height as i64,
        game_over: false,
    }
}

/// `reset` keeps the playfield and starts everything else afresh.
pub open spec fn restarted(w: WorldState) -> WorldState {
    fresh(w.width as int, w.height as int)
}

pub open spec fn player_bullet(p: Player, dx: int, vx: int) -> Bullet {
    Bullet {
        x: (p.x + dx) as i64,
        y: (p.y - p.size) as i64,
        vx: vx as i64,
        vy: (-BULLET_SPEED) as i64,
        size: BULLET_SIZE,
        damage: (BULLET_DAMAGE_PER_LEVEL * p.power_level) as i64,
    }
}

/// The bullets one shot fires at the player's power level.
pub open spec fn volley_of(p: Player) -> Seq<Bullet> {
    if p.power_level == 1 {
        seq![player_bullet(p, 0, 0)]
    } else if p.power_level == 2 {
        seq![player_bullet(p, -TWIN_OFFSET, 0), player_bullet(p, TWIN_OFFSET as int, 0)]
    } else if p.power_level == 3 {
        seq![
            player_bullet(p, -SPREAD_OFFSET, -SPREAD_SPEED),
            player_bullet(p, 0, 0),
            player_bullet(p, SPREAD_OFFSET as int, SPREAD_SPEED as int),
        ]
    } else {
        Seq::empty()
    }
}

pub open spec fn shot(w: WorldState) -> WorldState {
    if w.player.shoot_cooldown <= 0 {
        WorldState {
            bullets: w.bullets + volley_of(w.player),
            player: Player { shoot_cooldown: SHOOT_COOLDOWN, ..w.player },
            ..w
        }
    } else {
        w
    }
}

pub open spec fn new_hole(p: Player) -> HoleView {
    HoleView {
        x: p.x,
        y: (p.y - HOLE_RISE) as i64,
        size: HOLE_SIZE,
        life: HOLE_LIFE,
        max_life: HOLE_LIFE,
        pull_radius: HOLE_PULL_RADIUS,
        consumed: Seq::empty(),
    }
}

pub open spec fn hazard_opened(w: WorldState) -> WorldState {
    if w.player.hazard_cooldown <= 0 {
        WorldState {
            black_holes: w.black_holes.push(new_hole(w.player)),
            player: Player { hazard_cooldown: HAZARD_COOLDOWN, ..w.player },
            ..w
        }
    } else {
        w
    }
}

pub open spec fn steered_to(w: WorldState, dx: int, dy: int) -> WorldState {
    WorldState { player: Player { vx: dx as i64, vy: dy as i64, ..w.player }, ..w }
}

// ---------------------------------------------------------------- one frame

pub open spec fn ticked(w: WorldState, dt: int) -> WorldState {
    WorldState {
        player: steered(w.player, w.width as int, w.height as int, dt),
        game_time: sat_u64(w.game_time + dt),
        enemy_spawn_timer: sat_u64(w.enemy_spawn_timer + dt),
        power_up_spawn_timer: sat_u64(w.power_up_spawn_timer + dt),
        ..w
    }
}

pub open spec fn spawned(w: WorldState, rolls: Seq<u32>) -> WorldState {
    let with_enemy = if enemy_due(w.enemy_spawn_timer as int, w.level as int) {
        WorldState { enemies: w.enemies.push(spawned_enemy(w.width as int, rolls)), enemy_spawn_timer: 0, ..w }
    } else {
        w
    };
    if with_enemy.power_up_spawn_timer >= POWER_UP_PERIOD {
        WorldState {
            power_ups: with_enemy.power_ups.push(spawned_power_up(with_enemy.width as int, rolls)),
            power_up_spawn_timer: 0,
            ..with_enemy
        }
    } else {
        with_enemy
    }
}

pub open spec fn bullet_mover(dt: int) -> spec_fn(Bullet) -> Bullet {
    |b: Bullet| moved_bullet(b, dt)
}

pub open spec fn power_up_mover(dt: int) -> spec_fn(PowerUp) -> PowerUp {
    |u: PowerUp| moved_power_up(u, dt)
}

pub open spec fn explosion_ager(dt: int) -> spec_fn(Explosion) -> Explosion {
    |e: Explosion| aged_explosion(e, dt)
}

pub open spec fn advanced(w: WorldState, dt: int, rolls: Seq<u32>) -> WorldState {
    WorldState {
        enemies: marched(w.enemies, dt, rolls),
        bullets: w.bullets.map_values(bullet_mover(dt)),
        enemy_bullets: (w.enemy_bullets + enemy_volley(w.enemies, dt, rolls)).map_values(bullet_mover(dt)),
        power_ups: w.power_ups.map_values(power_up_mover(dt)),
        explosions: w.explosions.map_values(explosion_ager(dt)),
        ..w
    }
}

pub open spec fn attracted(w: WorldState, dt: int) -> WorldState {
    let (hs, es) = gravity(w.black_holes, w.enemies, dt);
    WorldState { black_holes: hs, enemies: es, ..w }
}

pub open spec fn opening(w: WorldState) -> Skirmish {
    Skirmish {
        enemies: w.enemies,
        score: w.score,
        kills: w.player.enemies_killed,
        growth: w.player.growth_level,
        explosions: w.explosions,
        bullets: Seq::empty(),
    }
}

pub open spec fn fought(w: WorldState) -> WorldState {
    let s = skirmish(opening(w), w.bullets);
    WorldState {
        enemies: s.enemies,
        score: s.score,
        player: Player { enemies_killed: s.kills, growth_level: s.growth, ..w.player },
        explosions: s.explosions,
        bullets: s.bullets,
        ..w
    }
}

pub open spec fn struck(w: WorldState) -> WorldState {
    let (shot_at, over_fire, kept) = barrage(w.player, w.game_over, w.enemy_bullets);
    let (touched, over_contact) = contact(shot_at, over_fire, w.enemies);
    let (picked, ups) = pickup(touched, w.power_ups);
    WorldState { player: picked, game_over: over_contact, enemy_bullets: kept, power_ups: ups, ..w }
}

pub open spec fn swept(w: WorldState) -> WorldState {
    let (xs, score, hs) = expire(w.explosions.filter(burning()), w.score, w.black_holes);
    WorldState {
        bullets: w.bullets.filter(in_flight(w.height as int)),
        enemy_bullets: w.enemy_bullets.filter(in_flight(w.height as int)),
        enemies: w.enemies.filter(alive()).filter(enemy_in_play(w.height as int)),
        power_ups: w.power_ups.filter(power_up_in_play(w.height as int)),
        explosions: xs,
        score,
        black_holes: hs,
        ..w
    }
}

/// At most one level per frame, once the score reaches `level * 1000`.
pub open spec fn leveled(w: WorldState) -> WorldState {
    if w.score >= w.level * 1000 {
        WorldState { level: sat_u32(w.level + 1), ..w }
    } else {
        w
    }
}

/// The world after one frame of `dt` milliseconds with the given draws.
pub open spec fn frame(w: WorldState, dt: int, rolls: Seq<u32>) -> WorldState {
    if w.game_over {
        w
    } else {
        leveled(swept(struck(fought(attracted(advanced(spawned(ticked(w, dt), rolls), dt, rolls), dt)))))
    }
}

// ---------------------------------------------------------------- snapshot

/// Every snapshot number is given in millionths.
pub open spec fn scaled(v: int) -> i128 {
    (v * UNIT) as i128
}

pub open spec fn ratio(life: int, max_life: int) -> i128 {
    (life * UNIT / max_life) as i128
}

pub open spec fn enemy_record(e: Enemy) -> Seq<i128> {
    seq![e.x as i128, e.y as i128, e.size as i128, scaled(e.health as int), scaled(enemy_code(e.kind))]
}

pub open spec fn bullet_record(b: Bullet, hostile: int) -> Seq<i128> {
    seq![b.x as i128, b.y as i128, b.size as i128, scaled(hostile)]
}

pub open spec fn power_up_record(u: PowerUp) -> Seq<i128> {
    seq![u.x as i128, u.y as i128, u.size as i128, scaled(power_up_code(u.kind))]
}

pub open spec fn explosion_record(x: Explosion) -> Seq<i128> {
    seq![x.x as i128, x.y as i128, x.size as i128, ratio(x.life as int, x.max_life as int)]
}

pub open spec fn hole_record(h: HoleView) -> Seq<i128> {
    seq![h.x as i128, h.y as i128, h.size as i128, ratio(h.life as int, h.max_life as int), h.pull_radius as i128]
}

pub open spec fn enemy_records(es: Seq<Enemy>) -> Seq<i128>
    decreases es.len(),
{
    if es.len() == 0 { Seq::empty() } else { enemy_records(es.drop_last()) + enemy_record(es.last()) }
}

pub open spec fn bullet_records(bs: Seq<Bullet>, hostile: int) -> Seq<i128>
    decreases bs.len(),
{
    if bs.len() == 0 { Seq::empty() } else { bullet_records(bs.drop_last(), hostile) + bullet_record(bs.last(), hostile) }
}

pub open spec fn power_up_records(us: Seq<PowerUp>) -> Seq<i128>
    decreases us.len(),
{
    if us.len() == 0 { Seq::empty() } else { power_up_records(us.drop_last()) + power_up_record(us.last()) }
}

pub open spec fn explosion_records(xs: Seq<Explosion>) -> Seq<i128>
    decreases xs.len(),
{
    if xs.len() == 0 { Seq::empty() } else { explosion_records(xs.drop_last()) + explosion_record(xs.last()) }
}

pub open spec fn hole_records(hs: Seq<HoleView>) -> Seq<i128>
    decreases hs.len(),
{
    if hs.len() == 0 { Seq::empty() } else { hole_records(hs.drop_last()) + hole_record(hs.last()) }
}

pub open spec fn header(w: WorldState) -> Seq<i128> {
    seq![
        scaled(1),
        scaled(w.enemies.len() as int),
        scaled(w.bullets.len() as int),
        scaled(w.enemy_bullets.len() as int),
        scaled(w.power_ups.len() as int),
        scaled(w.explosions.len() as int),
        scaled(w.black_holes.len() as int),
    ]
}

pub open spec fn player_record(p: Player) -> Seq<i128> {
    seq![
        p.x as i128,
        p.y as i128,
        p.size as i128,
        scaled(p.health as int),
        scaled(p.power_level as int),
        scaled(p.growth_level as int),
    ]
}

/// The flat export of the world for a renderer: counts, then the player,
/// enemies, player bullets, enemy bullets, power-ups, explosions and fields.
pub open spec fn snapshot(w: WorldState) -> Seq<i128> {
    header(w) + player_record(w.player) + enemy_records(w.enemies) + bullet_records(w.bullets, 0)
        + bullet_records(w.enemy_bullets, 1) + power_up_records(w.power_ups) + explosion_records(w.explosions)
        + hole_records(w.black_holes)
}

} // verus!
