use vstd::prelude::*;

use crate::entities::{
    BlackHole, Bullet, Enemy, Explosion, Player, PowerUp, BULLET_DAMAGE_PER_LEVEL, BULLET_SIZE,
    BULLET_SPEED, HAZARD_COOLDOWN, HOLE_LIFE, HOLE_PULL_RADIUS, HOLE_RISE, HOLE_SIZE,
    PLAYER_MAX_HEALTH, PLAYER_SIZE, PLAYER_START_RISE, SHOOT_COOLDOWN, SPREAD_OFFSET,
    SPREAD_SPEED, TWIN_OFFSET, UNIT, MIN_SIDE,
};
use crate::world::{
    fresh, hazard_opened, hole_views, new_hole, initial_player, player_bullet, restarted, shot, steered_to,
    volley_of, well_formed, WorldState,
};

verus! {

/// The whole simulated world; `step` advances it by one frame.
pub struct GameEngine {
    pub player: Player,
    pub enemies: Vec<Enemy>,
    pub bullets: Vec<Bullet>,
    pub enemy_bullets: Vec<Bullet>,
    pub power_ups: Vec<PowerUp>,
    pub explosions: Vec<Explosion>,
    pub black_holes: Vec<BlackHole>,
    pub score: u32,
    pub level: u32,
    pub game_time: u64,
    pub enemy_spawn_timer: u64,
    pub power_up_spawn_timer: u64,
    pub width: i64,
    pub height: i64,
    pub game_over: bool,
}

impl View for GameEngine {
    type V = WorldState;

    open spec fn view(&self) -> WorldState {
        WorldState {
            player: self.player,
            enemies: self.enemies@,
            bullets: self.bullets@,
            enemy_bullets: self.enemy_bullets@,
            power_ups: self.power_ups@,
            explosions: self.explosions@,
            black_holes: hole_views(self.black_holes@),
            score: self.score,
            level: self.level,
            game_time: self.game_time,
            enemy_spawn_timer: self.enemy_spawn_timer,
            power_up_spawn_timer: self.power_up_spawn_timer,
            width: self.width,
            height: self.height,
            game_over: self.game_over,
        }
    }
}

fn starting_player(width: i64, height: i64) -> (p: Player)
    requires
        2 * PLAYER_SIZE <= width <= u32::MAX * UNIT,
        2 * PLAYER_SIZE <= height <= u32::MAX * UNIT,
    ensures
        p == initial_player(width as int, height as int),
{
    Player {
        x: width / 2,
        y: height - PLAYER_START_RISE,
        vx: 0,
        vy: 0,
        health: PLAYER_MAX_HEALTH,
        max_health: PLAYER_MAX_HEALTH,
        size: PLAYER_SIZE,
        shoot_cooldown: 0,
        power_level: 1,
        growth_level: 0,
        enemies_killed: 0,
        hazard_cooldown: 0,
    }
}

fn player_bullet_at(p: &Player, dx: i64, vx: i64) -> (b: Bullet)
    requires
        0 <= p.x <= u32::MAX * UNIT,
        -PLAYER_START_RISE <= p.y <= u32::MAX * UNIT,
        p.size == PLAYER_SIZE,
        1 <= p.power_level <= 3,
        -SPREAD_OFFSET <= dx <= SPREAD_OFFSET,
    ensures
        b == player_bullet(*p, dx as int, vx as int),
{
    Bullet {
        x: p.x + dx,
        y: p.y - p.size,
        vx,
        vy: -BULLET_SPEED,
        size: BULLET_SIZE,
        damage: BULLET_DAMAGE_PER_LEVEL * p.power_level as i64,
    }
}

impl GameEngine {
    /// A fresh game on a `width` by `height` playfield, given in world units.
    pub fn new(width: u32, height: u32) -> (r: GameEngine)
        requires
            width >= MIN_SIDE,
            height >= MIN_SIDE,
        ensures
            r@ == fresh(width * UNIT, height * UNIT),
            well_formed(r@),
    {
        let w: i64 = width as i64 * UNIT;
        let h: i64 = height as i64 * UNIT;
        let r = GameEngine {
            player: starting_player(w, h),
            enemies: Vec::new(),
            bullets: Vec::new(),
            enemy_bullets: Vec::new(),
            power_ups: Vec::new(),
            explosions: Vec::new(),
            black_holes: Vec::new(),
            score: 0,
            level: 1,
            game_time: 0,
            enemy_spawn_timer: 0,
            power_up_spawn_timer: 0,
            width: w,
            height: h,
            game_over: false,
        };
        assert(hole_views(r.black_holes@) =~= Seq::empty());
        r
    }

    /// Sets the player's direction, in thousandths per axis; it takes effect
    /// in the next `step`.
    pub fn move_player(&mut self, dx: i32, dy: i32)
        requires
            well_formed(old(self)@),
        ensures
            final(self)@ == steered_to(old(self)@, dx as int, dy as int),
            well_formed(final(self)@),
    {
        self.player.vx = dx as i64;
        self.player.vy = dy as i64;
        assert(self@ == WorldState { player: self.player, ..old(self)@ });
    }

    /// Fires the volley of the player's power level, unless the weapon is
    /// cooling down.
    pub fn shoot(&mut self)
        requires
            well_formed(old(self)@),
        ensures
            final(self)@ == shot(old(self)@),
            well_formed(final(self)@),
    {
        if self.player.shoot_cooldown <= 0 {
            let ghost before = self.bullets@;
            let p = self.player;
            if p.power_level == 1 {
                self.bullets.push(player_bullet_at(&p, 0, 0));
            } else if p.power_level == 2 {
                self.bullets.push(player_bullet_at(&p, -TWIN_OFFSET, 0));
                self.bullets.push(player_bullet_at(&p, TWIN_OFFSET, 0));
            } else {
                self.bullets.push(player_bullet_at(&p, -SPREAD_OFFSET, -SPREAD_SPEED));
                self.bullets.push(player_bullet_at(&p, 0, 0));
                self.bullets.push(player_bullet_at(&p, SPREAD_OFFSET, SPREAD_SPEED));
            }
            assert(self.bullets@ =~= before + volley_of(p));
            self.player.shoot_cooldown = SHOOT_COOLDOWN;
        }
    }

    /// Opens a hazard field above the player, unless its cooldown runs.
    pub fn activate_black_hole(&mut self)
        requires
            well_formed(old(self)@),
        ensures
            final(self)@ == hazard_opened(old(self)@),
            well_formed(final(self)@),
    {
        if self.player.hazard_cooldown <= 0 {
            let ghost before = self.black_holes@;
            let hole = BlackHole {
                x: self.player.x,
                y: self.player.y - HOLE_RISE,
                size: HOLE_SIZE,
                life: HOLE_LIFE,
                max_life: HOLE_LIFE,
                pull_radius: HOLE_PULL_RADIUS,
                consumed_enemies: Vec::new(),
            };
            self.black_holes.push(hole);
            self.player.hazard_cooldown = HAZARD_COOLDOWN;
            assert(hole_views(self.black_holes@) =~= hole_views(before).push(new_hole(old(self).player)));
        }
    }

    pub fn get_score(&self) -> (r: u32)
        ensures
            r == self.score,
    {
        self.score
    }

    pub fn get_level(&self) -> (r: u32)
        ensures
            r == self.level,
    {
        self.level
    }

    pub fn get_health(&self) -> (r: i64)
        ensures
            r == self.player.health,
    {
        self.player.health
    }

    pub fn is_game_over(&self) -> (r: bool)
        ensures
            r == self.game_over,
    {
        self.game_over
    }

    /// Milliseconds until a hazard field can be opened again.
    pub fn get_black_hole_cooldown(&self) -> (r: i64)
        ensures
            r == self.player.hazard_cooldown,
    {
        self.player.hazard_cooldown
    }

    /// Starts a fresh game on the same playfield.
    pub fn reset(&mut self)
        requires
            well_formed(old(self)@),
        ensures
            final(self)@ == restarted(old(self)@),
            well_formed(final(self)@),
    {
        self.player = starting_player(self.width, self.height);
        self.enemies.clear();
        self.bullets.clear();
        self.enemy_bullets.clear();
        self.power_ups.clear();
        self.explosions.clear();
        self.black_holes.clear();
        self.score = 0;
        self.level = 1;
        self.game_time = 0;
        self.enemy_spawn_timer = 0;
        self.power_up_spawn_timer = 0;
        self.game_over = false;
        assert(self.enemies@ =~= Seq::empty());
        assert(self.bullets@ =~= Seq::empty());
        assert(self.enemy_bullets@ =~= Seq::empty());
        assert(self.power_ups@ =~= Seq::empty());
        assert(self.explosions@ =~= Seq::empty());
        assert(hole_views(self.black_holes@) =~= Seq::empty());
    }
}

} // verus!
