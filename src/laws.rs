use vstd::prelude::*;

use crate::entities::{Bullet, Enemy, Player, PowerUp, CONTACT_DAMAGE, POWER_UP_PERIOD};
use crate::world::{
    alive, attracted, enemy_due, enemy_meets, wounded, advanced, barrage, contact, enemy_in_play, fought, frame, grown,
    hazard_opened, opening, pickup, restarted, shot, skirmish, snapshot, spawned,
    steered_to, strike, struck, swept, ticked, Skirmish, WorldState,
};

verus! {

/// One input to the world: a frame, or one of the player's commands.
pub enum Command {
    Step { dt: u32, rolls: Seq<u32> },
    Move { dx: i32, dy: i32 },
    Shoot,
    Hazard,
    Reset,
}

pub open spec fn apply(w: WorldState, c: Command) -> WorldState {
    match c {
        Command::Step { dt, rolls } => frame(w, dt as int, rolls),
        Command::Move { dx, dy } => steered_to(w, dx as int, dy as int),
        Command::Shoot => shot(w),
        Command::Hazard => hazard_opened(w),
        Command::Reset => restarted(w),
    }
}

/// The world after the commands `cs`, in order.
pub open spec fn replay(w: WorldState, cs: Seq<Command>) -> WorldState
    decreases cs.len(),
{
    if cs.len() == 0 {
        w
    } else {
        apply(replay(w, cs.drop_last()), cs.last())
    }
}

/// Resetting twice leaves the same world as resetting once.
pub proof fn reset_is_idempotent(w: WorldState)
    ensures
        restarted(restarted(w)) == restarted(w),
{
}

/// Two equal worlds given the same frames, commands and random draws give
/// the same snapshot after every prefix of them.
pub proof fn replay_is_deterministic(a: WorldState, b: WorldState, cs: Seq<Command>, n: int)
    requires
        a == b,
        0 <= n <= cs.len(),
    ensures
        replay(a, cs.subrange(0, n)) == replay(b, cs.subrange(0, n)),
        snapshot(replay(a, cs.subrange(0, n))) == snapshot(replay(b, cs.subrange(0, n))),
{
}

pub open spec fn growth_in_range(p: Player) -> bool {
    p.growth_level <= 5
}

proof fn lemma_skirmish_growth(s: Skirmish, bs: Seq<Bullet>)
    requires
        s.growth <= 5,
    ensures
        skirmish(s, bs).growth <= 5,
    decreases bs.len(),
{
    if bs.len() > 0 {
        lemma_skirmish_growth(s, bs.drop_last());
        let t = skirmish(s, bs.drop_last());
        assert(grown(t.growth, crate::world::sat_u32(t.kills + 1)) <= 5);
        assert(strike(t, bs.last()).growth <= 5);
    }
}

proof fn lemma_barrage_range(p: Player, over: bool, bs: Seq<Bullet>)
    requires
        growth_in_range(p),
    ensures
        growth_in_range(barrage(p, over, bs).0),
    decreases bs.len(),
{
    if bs.len() > 0 {
        lemma_barrage_range(p, over, bs.drop_last());
    }
}

proof fn lemma_contact_range(p: Player, over: bool, es: Seq<Enemy>)
    requires
        growth_in_range(p),
    ensures
        growth_in_range(contact(p, over, es).0),
    decreases es.len(),
{
    if es.len() > 0 {
        lemma_contact_range(p, over, es.drop_last());
    }
}

proof fn lemma_pickup_range(p: Player, us: Seq<PowerUp>)
    requires
        growth_in_range(p),
    ensures
        growth_in_range(pickup(p, us).0),
    decreases us.len(),
{
    if us.len() > 0 {
        lemma_pickup_range(p, us.drop_last());
    }
}

/// One frame keeps the player's growth level within 0 to 5.
pub proof fn frame_keeps_growth_in_range(w: WorldState, dt: u32, rolls: Seq<u32>)
    requires
        growth_in_range(w.player),
    ensures
        growth_in_range(frame(w, dt as int, rolls).player),
{
    if !w.game_over {
        let w3 = attracted(advanced(spawned(ticked(w, dt as int), rolls), dt as int, rolls), dt as int);
        assert(growth_in_range(w3.player));
        lemma_skirmish_growth(opening(w3), w3.bullets);
        let w4 = fought(w3);
        assert(growth_in_range(w4.player));
        let (shot_at, over_fire, kept) = barrage(w4.player, w4.game_over, w4.enemy_bullets);
        lemma_barrage_range(w4.player, w4.game_over, w4.enemy_bullets);
        let (touched, over_contact) = contact(shot_at, over_fire, w4.enemies);
        lemma_contact_range(shot_at, over_fire, w4.enemies);
        lemma_pickup_range(touched, w4.power_ups);
        assert(growth_in_range(struck(w4).player));
    }
}

/// Whatever the order of frames, kills, hits and commands, the player's growth
/// level stays within 0 to 5.
pub proof fn growth_stays_in_range(w: WorldState, cs: Seq<Command>)
    requires
        growth_in_range(w.player),
    ensures
        growth_in_range(replay(w, cs).player),
    decreases cs.len(),
{
    if cs.len() > 0 {
        growth_stays_in_range(w, cs.drop_last());
        let v = replay(w, cs.drop_last());
        match cs.last() {
            Command::Step { dt, rolls } => frame_keeps_growth_in_range(v, dt, rolls),
            _ => {},
        }
    }
}

/// After a frame no enemy is left at or below zero health.
pub proof fn frame_leaves_only_live_enemies(w: WorldState, dt: u32, rolls: Seq<u32>)
    requires
        forall|i: int| 0 <= i < w.enemies.len() ==> #[trigger] w.enemies[i].health > 0,
    ensures
        forall|i: int| 0 <= i < frame(w, dt as int, rolls).enemies.len()
            ==> #[trigger] frame(w, dt as int, rolls).enemies[i].health > 0,
{
    broadcast use vstd::seq_lib::group_filter_ensures;
    if !w.game_over {
        let w5 = struck(fought(attracted(advanced(spawned(ticked(w, dt as int), rolls), dt as int, rolls), dt as int)));
        let live = w5.enemies.filter(alive());
        assert forall|i: int| 0 <= i < live.len() implies #[trigger] live[i].health > 0 by {
            w5.enemies.lemma_filter_pred(alive(), i);
        }
        let kept = live.filter(enemy_in_play(w5.height as int));
        assert(swept(w5).enemies == kept);
        assert forall|i: int| 0 <= i < kept.len() implies #[trigger] kept[i].health > 0 by {
            assert(kept.contains(kept[i]));
            live.lemma_filter_contains_rev(enemy_in_play(w5.height as int), kept[i]);
            let j = choose|j: int| 0 <= j < live.len() && live[j] == kept[i];
            assert(live[j].health > 0);
        }
    }
}

/// Whatever frames and commands come, no enemy at or below zero health
/// survives into the world between frames.
pub proof fn enemies_stay_alive(w: WorldState, cs: Seq<Command>)
    requires
        forall|i: int| 0 <= i < w.enemies.len() ==> #[trigger] w.enemies[i].health > 0,
    ensures
        forall|i: int| 0 <= i < replay(w, cs).enemies.len() ==> #[trigger] replay(w, cs).enemies[i].health > 0,
    decreases cs.len(),
{
    if cs.len() > 0 {
        enemies_stay_alive(w, cs.drop_last());
        let v = replay(w, cs.drop_last());
        match cs.last() {
            Command::Step { dt, rolls } => frame_leaves_only_live_enemies(v, dt, rolls),
            _ => {},
        }
    }
}

/// A hit never takes the growth level below zero: it loses one level, or
/// stays at zero.
pub proof fn hit_floors_growth(p: Player, dmg: int)
    ensures
        wounded(p, dmg).growth_level == if p.growth_level > 0 { p.growth_level - 1 } else { 0 },
{
}

/// While neither spawn gate has opened, a frame's clocks advance by `dt` and
/// nothing is spawned.
pub proof fn closed_gates_spawn_nothing(w: WorldState, dt: u32, rolls: Seq<u32>)
    requires
        !enemy_due(w.enemy_spawn_timer + dt, w.level as int),
        w.power_up_spawn_timer + dt < POWER_UP_PERIOD,
    ensures
        spawned(ticked(w, dt as int), rolls).enemies == w.enemies,
        spawned(ticked(w, dt as int), rolls).power_ups == w.power_ups,
        spawned(ticked(w, dt as int), rolls).enemy_spawn_timer == w.enemy_spawn_timer + dt,
        spawned(ticked(w, dt as int), rolls).power_up_spawn_timer == w.power_up_spawn_timer + dt,
{
    let t = w.enemy_spawn_timer + dt;
    assert(t <= t * (5 + w.level as int)) by (nonlinear_arith)
        requires t >= 0, w.level >= 0;
}

/// An enemy touching a player with at most the contact damage left in health
/// ends the game in that same contact pass, leaving the player at zero health.
pub proof fn last_contact_ends_game(p: Player, over: bool, es: Seq<Enemy>)
    requires
        es.len() > 0,
        enemy_meets(es[0], p),
        p.health <= CONTACT_DAMAGE,
    ensures
        contact(p, over, es).1,
        contact(p, over, es).0.health == 0,
    decreases es.len(),
{
    let front = es.drop_last();
    if es.len() > 1 {
        assert(front[0] == es[0]);
        last_contact_ends_game(p, over, front);
    } else {
        assert(front.len() == 0);
        assert(contact(p, over, front) == (p, over));
        assert(es.last() == es[0]);
    }
    let (prev, was_over) = contact(p, over, front);
    assert(contact(p, over, es) == (if enemy_meets(es.last(), prev) {
        (wounded(prev, CONTACT_DAMAGE as int), was_over || wounded(prev, CONTACT_DAMAGE as int).health <= 0)
    } else {
        (prev, was_over)
    }));
}

} // verus!
