use vstd::prelude::*;

use crate::engine::GameEngine;
use crate::entities::{BlackHole, Bullet, Enemy, EnemyKind, Explosion, PowerUp, PowerUpKind, UNIT};
use crate::world::{
    bullet_record, bullet_records, enemy_record, enemy_records, explosion_ok, explosion_record,
    explosion_records, header, hole_ok, hole_views, hole_record, hole_records, player_record, power_up_record,
    power_up_records, ratio, snapshot, well_formed,
};

verus! {

fn life_ratio(life: i64, max_life: i64) -> (r: i128)
    requires
        0 < life <= max_life <= 1_000_000,
    ensures
        r == ratio(life as int, max_life as int),
{
    assert((life as int) * 1_000_000 <= 1_000_000 * 1_000_000) by (nonlinear_arith)
        requires 0 < life <= 1_000_000;
    ((life as u64 * UNIT as u64) / max_life as u64) as i128
}

fn kind_code(kind: EnemyKind) -> (r: i128)
    ensures
        r == (crate::entities::enemy_code(kind) * UNIT) as i128,
{
    match kind {
        EnemyKind::Basic => 0,
        EnemyKind::Fast => UNIT as i128,
        EnemyKind::Tank => 2 * UNIT as i128,
    }
}

fn power_code(kind: PowerUpKind) -> (r: i128)
    ensures
        r == (crate::entities::power_up_code(kind) * UNIT) as i128,
{
    match kind {
        PowerUpKind::Health => 0,
        PowerUpKind::Weapon => UNIT as i128,
        PowerUpKind::Shield => 2 * UNIT as i128,
    }
}

fn push_enemies(data: &mut Vec<i128>, es: &Vec<Enemy>)
    requires
        forall|i: int| 0 <= i < es@.len() ==> -1000 <= #[trigger] es@[i].health <= 1000,
    ensures
        final(data)@ == old(data)@ + enemy_records(es@),
{
    let ghost start = data@;
    let mut i: usize = 0;
    while i < es.len()
        invariant
            i <= es@.len(),
            forall|k: int| 0 <= k < es@.len() ==> -1000 <= #[trigger] es@[k].health <= 1000,
            data@ == start + enemy_records(es@.subrange(0, i as int)),
        decreases es@.len() - i,
    {
        let e = es[i];
        assert(-1000 <= es@[i as int].health <= 1000);
        data.push(e.x as i128);
        data.push(e.y as i128);
        data.push(e.size as i128);
        data.push(e.health as i128 * UNIT as i128);
        data.push(kind_code(e.kind));
        proof {
            let s = es@.subrange(0, i as int + 1);
            assert(s.drop_last() =~= es@.subrange(0, i as int));
            assert(s.last() == e);
            assert(data@ =~= start + enemy_records(es@.subrange(0, i as int)) + enemy_record(e));
        }
        i += 1;
    }
    assert(es@.subrange(0, es@.len() as int) =~= es@);
}

fn push_bullets(data: &mut Vec<i128>, bs: &Vec<Bullet>, hostile: bool)
    ensures
        final(data)@ == old(data)@ + bullet_records(bs@, if hostile { 1 } else { 0 }),
{
    let ghost start = data@;
    let ghost flag: int = if hostile { 1 } else { 0 };
    let mark: i128 = if hostile { UNIT as i128 } else { 0 };
    let mut i: usize = 0;
    while i < bs.len()
        invariant
            i <= bs@.len(),
            mark == (flag * UNIT) as i128,
            data@ == start + bullet_records(bs@.subrange(0, i as int), flag),
        decreases bs@.len() - i,
    {
        let b = bs[i];
        data.push(b.x as i128);
        data.push(b.y as i128);
        data.push(b.size as i128);
        data.push(mark);
        proof {
            let s = bs@.subrange(0, i as int + 1);
            assert(s.drop_last() =~= bs@.subrange(0, i as int));
            assert(s.last() == b);
            assert(data@ =~= start + bullet_records(bs@.subrange(0, i as int), flag) + bullet_record(b, flag));
        }
        i += 1;
    }
    assert(bs@.subrange(0, bs@.len() as int) =~= bs@);
}

fn push_power_ups(data: &mut Vec<i128>, us: &Vec<PowerUp>)
    ensures
        final(data)@ == old(data)@ + power_up_records(us@),
{
    let ghost start = data@;
    let mut i: usize = 0;
    while i < us.len()
        invariant
            i <= us@.len(),
            data@ == start + power_up_records(us@.subrange(0, i as int)),
        decreases us@.len() - i,
    {
        let u = us[i];
        data.push(u.x as i128);
        data.push(u.y as i128);
        data.push(u.size as i128);
        data.push(power_code(u.kind));
        proof {
            let s = us@.subrange(0, i as int + 1);
            assert(s.drop_last() =~= us@.subrange(0, i as int));
            assert(s.last() == u);
            assert(data@ =~= start + power_up_records(us@.subrange(0, i as int)) + power_up_record(u));
        }
        i += 1;
    }
    assert(us@.subrange(0, us@.len() as int) =~= us@);
}

fn push_explosions(data: &mut Vec<i128>, xs: &Vec<Explosion>)
    requires
        forall|i: int| 0 <= i < xs@.len() ==> explosion_ok(#[trigger] xs@[i]) && xs@[i].life > 0,
    ensures
        final(data)@ == old(data)@ + explosion_records(xs@),
{
    let ghost start = data@;
    let mut i: usize = 0;
    while i < xs.len()
        invariant
            i <= xs@.len(),
            forall|k: int| 0 <= k < xs@.len() ==> explosion_ok(#[trigger] xs@[k]) && xs@[k].life > 0,
            data@ == start + explosion_records(xs@.subrange(0, i as int)),
        decreases xs@.len() - i,
    {
        let x = xs[i];
        assert(explosion_ok(xs@[i as int]));
        data.push(x.x as i128);
        data.push(x.y as i128);
        data.push(x.size as i128);
        data.push(life_ratio(x.life, x.max_life));
        proof {
            let s = xs@.subrange(0, i as int + 1);
            assert(s.drop_last() =~= xs@.subrange(0, i as int));
            assert(s.last() == x);
            assert(data@ =~= start + explosion_records(xs@.subrange(0, i as int)) + explosion_record(x));
        }
        i += 1;
    }
    assert(xs@.subrange(0, xs@.len() as int) =~= xs@);
}

fn push_holes(data: &mut Vec<i128>, hs: &Vec<BlackHole>)
    requires
        forall|i: int| 0 <= i < hs@.len() ==> hole_ok(#[trigger] hs@[i]@) && hs@[i]@.life > 0,
    ensures
        final(data)@ == old(data)@ + hole_records(hole_views(hs@)),
{
    let ghost start = data@;
    let ghost hv = hole_views(hs@);
    let mut i: usize = 0;
    while i < hs.len()
        invariant
            i <= hs@.len(),
            hv == hole_views(hs@),
            forall|k: int| 0 <= k < hs@.len() ==> hole_ok(#[trigger] hs@[k]@) && hs@[k]@.life > 0,
            data@ == start + hole_records(hv.subrange(0, i as int)),
        decreases hs@.len() - i,
    {
        let h = &hs[i];
        assert(hole_ok(hs@[i as int]@));
        assert(hv[i as int] == h@);
        data.push(h.x as i128);
        data.push(h.y as i128);
        data.push(h.size as i128);
        data.push(life_ratio(h.life, h.max_life));
        data.push(h.pull_radius as i128);
        proof {
            let s = hv.subrange(0, i as int + 1);
            assert(s.drop_last() =~= hv.subrange(0, i as int));
            assert(s.last() == h@);
            assert(data@ =~= start + hole_records(hv.subrange(0, i as int)) + hole_record(h@));
        }
        i += 1;
    }
    assert(hv.subrange(0, hv.len() as int) =~= hv);
}

impl GameEngine {
    /// The world as a flat sequence of numbers in millionths, laid out as
    /// `snapshot` states.
    pub fn get_game_data(&self) -> (r: Vec<i128>)
        requires
            well_formed(self@),
        ensures
            r@ == snapshot(self@),
    {
        let ghost w = self@;
        let mut data: Vec<i128> = Vec::new();
        let unit = UNIT as i128;
        data.push(unit);
        data.push(self.enemies.len() as i128 * unit);
        data.push(self.bullets.len() as i128 * unit);
        data.push(self.enemy_bullets.len() as i128 * unit);
        data.push(self.power_ups.len() as i128 * unit);
        data.push(self.explosions.len() as i128 * unit);
        data.push(self.black_holes.len() as i128 * unit);
        let p = self.player;
        data.push(p.x as i128);
        data.push(p.y as i128);
        data.push(p.size as i128);
        data.push(p.health as i128 * unit);
        data.push(p.power_level as i128 * unit);
        data.push(p.growth_level as i128 * unit);
        assert(data@ =~= header(w) + player_record(w.player));
        assert(forall|i: int| 0 <= i < w.enemies.len() ==> crate::world::enemy_ok(#[trigger] w.enemies[i]));
        push_enemies(&mut data, &self.enemies);
        push_bullets(&mut data, &self.bullets, false);
        push_bullets(&mut data, &self.enemy_bullets, true);
        push_power_ups(&mut data, &self.power_ups);
        push_explosions(&mut data, &self.explosions);
        assert(forall|i: int| 0 <= i < self.black_holes@.len() ==> #[trigger] self.black_holes@[i]@ == w.black_holes[i]);
        assert(forall|i: int| 0 <= i < w.black_holes.len() ==> crate::world::hole_ok(#[trigger] w.black_holes[i]));
        assert(forall|i: int| 0 <= i < w.black_holes.len() ==> #[trigger] w.black_holes[i].life > 0);
        push_holes(&mut data, &self.black_holes);
        data
    }
}

} // verus!
