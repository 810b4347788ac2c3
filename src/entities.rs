use vstd::prelude::*;

verus! {

/// One world unit, in the library's length unit (millionths).
pub const UNIT: i64 = 1_000_000;
/// A random draw `r` stands for the fraction `r / DRAW_SPAN`.
pub const DRAW_SPAN: u64 = 0x1_0000_0000;

pub const PLAYER_SIZE: i64 = 20_000_000;
/// The shortest playfield side, in world units, that holds the whole player.
pub const MIN_SIDE: u32 = 40;
pub const PLAYER_MAX_HEALTH: i64 = 100;
/// Player speed per thousandth of direction, in length units per millisecond.
pub const PLAYER_SPEED: i64 = 200;
/// Distance of the player's start position above the bottom edge.
pub const PLAYER_START_RISE: i64 = 100_000_000;
pub const SHOOT_COOLDOWN: i64 = 200;
pub const HAZARD_COOLDOWN: i64 = 10_000;

pub const BULLET_SPEED: i64 = 300_000;
pub const BULLET_SIZE: i64 = 8_000_000;
pub const BULLET_DAMAGE_PER_LEVEL: i64 = 25;
pub const TWIN_OFFSET: i64 = 10_000_000;
pub const SPREAD_OFFSET: i64 = 15_000_000;
pub const SPREAD_SPEED: i64 = 50_000;

pub const ENEMY_BULLET_SPEED: i64 = 150_000;
pub const ENEMY_BULLET_SIZE: i64 = 5_000_000;
pub const ENEMY_BULLET_DAMAGE: i64 = 10;
pub const ENEMY_FIRE_COOLDOWN: i64 = 2_000;
pub const CONTACT_DAMAGE: i64 = 20;
pub const ENEMY_SPAWN_Y: i64 = -50_000_000;
pub const ENEMY_SPAWN_MARGIN: i64 = 25_000_000;

pub const POWER_UP_SPAWN_Y: i64 = -30_000_000;
pub const POWER_UP_SPAWN_MARGIN: i64 = 15_000_000;
pub const POWER_UP_SPEED: i64 = 80_000;
pub const POWER_UP_SIZE: i64 = 15_000_000;
pub const POWER_UP_PERIOD: u64 = 5_000;
pub const HEALTH_HEAL: i64 = 30;
pub const SHIELD_HEAL: i64 = 50;

pub const HOLE_SIZE: i64 = 30_000_000;
pub const HOLE_LIFE: i64 = 3_000;
pub const HOLE_PULL_RADIUS: i64 = 150_000_000;
pub const HOLE_RISE: i64 = 200_000_000;
/// Pull speed at a field's center, in length units per millisecond.
pub const PULL_STRENGTH: i64 = 200_000;
pub const HOLE_BLAST_LIFE: i64 = 2_000;
pub const HOLE_BLAST_PER_VICTIM: i64 = 10_000_000;
pub const HOLE_SCORE_PER_VICTIM: u32 = 200;
pub const TANK_BLAST_LIFE: i64 = 1_000;

pub const BULLET_CULL_MARGIN: i64 = 50_000_000;
pub const ENEMY_CULL_MARGIN: i64 = 100_000_000;
pub const POWER_UP_CULL_MARGIN: i64 = 50_000_000;

#[derive(Clone, Copy, Debug, PartialEq, Eq)]
pub enum EnemyKind {
    Basic,
    Fast,
    Tank,
}

#[derive(Clone, Copy, Debug, PartialEq, Eq)]
pub enum PowerUpKind {
    Health,
    Weapon,
    Shield,
}

#[derive(Clone, Copy, Debug, PartialEq, Eq)]
pub struct Player {
    pub x: i64,
    pub y: i64,
    /// Direction set by `move_player`, in thousandths.
    pub vx: i64,
    pub vy: i64,
    pub health: i64,
    pub max_health: i64,
    pub size: i64,
    pub shoot_cooldown: i64,
    pub power_level: u32,
    pub growth_level: u32,
    pub enemies_killed: u32,
    pub hazard_cooldown: i64,
}

#[derive(Clone, Copy, Debug, PartialEq, Eq)]
pub struct Enemy {
    pub x: i64,
    pub y: i64,
    pub vx: i64,
    pub vy: i64,
    pub health: i64,
    pub size: i64,
    pub kind: EnemyKind,
    pub shoot_cooldown: i64,
}

#[derive(Clone, Copy, Debug, PartialEq, Eq)]
pub struct Bullet {
    pub x: i64,
    pub y: i64,
    pub vx: i64,
    pub vy: i64,
    pub size: i64,
    pub damage: i64,
}

#[derive(Clone, Copy, Debug, PartialEq, Eq)]
pub struct PowerUp {
    pub x: i64,
    pub y: i64,
    pub vy: i64,
    pub size: i64,
    pub kind: PowerUpKind,
}

#[derive(Clone, Copy, Debug, PartialEq, Eq)]
pub struct Explosion {
    pub x: i64,
    pub y: i64,
    pub size: i64,
    pub life: i64,
    pub max_life: i64,
}

/// The hazard field; `consumed_enemies` holds where each enemy it absorbed
/// stood, in the order they were absorbed.
#[derive(Debug)]
pub struct BlackHole {
    pub x: i64,
    pub y: i64,
    pub size: i64,
    pub life: i64,
    pub max_life: i64,
    pub pull_radius: i64,
    pub consumed_enemies: Vec<(i64, i64)>,
}

/// A hazard field as a mathematical value.
pub struct HoleView {
    pub x: i64,
    pub y: i64,
    pub size: i64,
    pub life: i64,
    pub max_life: i64,
    pub pull_radius: i64,
    pub consumed: Seq<(i64, i64)>,
}

impl View for BlackHole {
    type V = HoleView;

    open spec fn view(&self) -> HoleView {
        HoleView {
            x: self.x,
            y: self.y,
            size: self.size,
            life: self.life,
            max_life: self.max_life,
            pull_radius: self.pull_radius,
            consumed: self.consumed_enemies@,
        }
    }
}

/// `(size, health, speed)` of a freshly spawned enemy of each kind.
pub open spec fn kind_stats(kind: EnemyKind) -> (i64, i64, i64) {
    match kind {
        EnemyKind::Basic => (15_000_000, 20, 50_000),
        EnemyKind::Fast => (12_000_000, 15, 100_000),
        EnemyKind::Tank => (25_000_000, 50, 30_000),
    }
}

pub open spec fn kind_value(kind: EnemyKind) -> u32 {
    match kind {
        EnemyKind::Basic => 100,
        EnemyKind::Fast => 150,
        EnemyKind::Tank => 300,
    }
}

pub fn enemy_stats(kind: EnemyKind) -> (r: (i64, i64, i64))
    ensures
        r == kind_stats(kind),
{
    match kind {
        EnemyKind::Basic => (15_000_000, 20, 50_000),
        EnemyKind::Fast => (12_000_000, 15, 100_000),
        EnemyKind::Tank => (25_000_000, 50, 30_000),
    }
}

pub fn enemy_value(kind: EnemyKind) -> (r: u32)
    ensures
        r == kind_value(kind),
{
    match kind {
        EnemyKind::Basic => 100,
        EnemyKind::Fast => 150,
        EnemyKind::Tank => 300,
    }
}

pub open spec fn enemy_code(kind: EnemyKind) -> int {
    match kind {
        EnemyKind::Basic => 0,
        EnemyKind::Fast => 1,
        EnemyKind::Tank => 2,
    }
}

pub open spec fn power_up_code(kind: PowerUpKind) -> int {
    match kind {
        PowerUpKind::Health => 0,
        PowerUpKind::Weapon => 1,
        PowerUpKind::Shield => 2,
    }
}

/// The draw in `slot`; a draw the caller did not supply counts as the highest.
pub open spec fn draw(rolls: Seq<u32>, slot: int) -> u32 {
    if 0 <= slot < rolls.len() {
        rolls[slot]
    } else {
        u32::MAX
    }
}

/// `r / 2^32 < num / den`
pub open spec fn below(r: u32, num: int, den: int) -> bool {
    r * den < num * DRAW_SPAN
}

/// `r / 2^32 * span`, rounded toward zero.
pub open spec fn portion(r: u32, span: int) -> int {
    if span >= 0 {
        (r * span) / (DRAW_SPAN as int)
    } else {
        -((r * -span) / (DRAW_SPAN as int))
    }
}

pub fn read_draw(rolls: &Vec<u32>, slot: usize) -> (r: u32)
    ensures
        r == draw(rolls@, slot as int),
{
    if slot < rolls.len() {
        rolls[slot]
    } else {
        u32::MAX
    }
}

pub fn is_below(r: u32, num: u64, den: u64) -> (b: bool)
    requires
        num <= 10,
        den <= 1000,
    ensures
        b == below(r, num as int, den as int),
{
    assert((r as int) * (den as int) <= u32::MAX * 1000) by (nonlinear_arith)
        requires r <= u32::MAX, den <= 1000;
    assert((num as int) * DRAW_SPAN <= 10 * DRAW_SPAN) by (nonlinear_arith)
        requires num <= 10;
    (r as u128) * (den as u128) < (num as u128) * (DRAW_SPAN as u128)
}

pub fn portion_of(r: u32, span: i64) -> (p: i64)
    ensures
        p == portion(r, span as int),
        -vstd::math::abs(span as int) <= p <= vstd::math::abs(span as int),
{
    let mag: u128 = if span < 0 { (-(span as i128)) as u128 } else { span as u128 };
    assert((r as int) * (mag as int) <= DRAW_SPAN * (mag as int)) by (nonlinear_arith)
        requires r <= u32::MAX, mag >= 0;
    let q: u128 = (r as u128) * mag / (DRAW_SPAN as u128);
    assert(q <= mag) by (nonlinear_arith)
        requires q == (r as int) * (mag as int) / (DRAW_SPAN as int), (r as int) * (mag as int) <= DRAW_SPAN * (mag as int);
    if span >= 0 {
        q as i64
    } else {
        -(q as i128) as i64
    }
}

} // verus!
