//! Steering for autonomous hostile ground units.
//!
//! Each tick a hostile combines a seek term towards the player with a
//! separation term repelling it from every other hostile closer than
//! the minimum separation radius, weighted at half strength, and emits
//! the combined direction scaled to its configured speed. All work is
//! on the horizontal plane; the height component is left to the
//! physics engine. The emitted velocity's magnitude provably never
//! exceeds the configured speed.

use crate::fixvec::{
    bounded, div_trunc, div_trunc_i64, iabs, isqrt_ceil, lemma_div_trunc_abs, lemma_normalize_bound,
    norm_sq, normalize_spec, v3, v3_diff, v3_flat, v3_sum, v3_zero, Vec3, COORD_LIMIT, MILLI,
    SPEED_LIMIT, V3,
};
use vstd::prelude::*;

verus! {

/// Configured stats of a hostile ground unit, in milli-units.
#[derive(Clone, Copy, PartialEq, Eq, Structural, Debug)]
pub struct Enemy {
    pub health: i64,
    pub speed: i64,
    pub damage: i64,
}

/// Marker for the melee variant of hostile: it steers every tick and
/// deals contact damage.
#[derive(Clone, Copy, PartialEq, Eq, Structural, Debug)]
pub struct MeleeCreep;

/// Below this distance, in milli-units, hostiles repel one another.
pub const MIN_SEPARATION: i64 = 3500;

/// Most neighbours one steering pass accepts.
pub const NEIGHBOR_LIMIT: usize = 1024;

/// Magnitude bound of a single separation term.
pub const SEPARATION_TERM_LIMIT: i64 = 1_000_000;

/// The push one neighbour contributes: the unit vector away from it,
/// weighted by the inverse of the distance; nothing at coincident
/// positions or outside the separation radius.
pub open spec fn separation_term_spec(self_flat: V3, other_flat: V3) -> V3 {
    let away = v3_diff(self_flat, other_flat);
    let d2 = norm_sq(away);
    if 0 < d2 < (MIN_SEPARATION as int) * (MIN_SEPARATION as int) {
        let d = crate::fixvec::ceil_sqrt(d2);
        let unit = normalize_spec(away, MILLI as int);
        v3(
            div_trunc(unit.x * (MILLI as int), d),
            div_trunc(unit.y * (MILLI as int), d),
            div_trunc(unit.z * (MILLI as int), d),
        )
    } else {
        v3_zero()
    }
}

/// The separation terms of the first `k` neighbours, accumulated.
pub open spec fn separation_sum_spec(self_flat: V3, others: Seq<Vec3>, k: int) -> V3
    decreases k,
{
    if k <= 0 {
        v3_zero()
    } else {
        v3_sum(
            separation_sum_spec(self_flat, others, k - 1),
            separation_term_spec(self_flat, v3_flat(others[k - 1]@)),
        )
    }
}

/// The steering rule: seek the player, add half the separation sum,
/// and scale the combination to the configured speed.
pub open spec fn steer_spec(self_pos: V3, player_pos: V3, others: Seq<Vec3>, speed: int) -> V3 {
    let sf = v3_flat(self_pos);
    let seek = normalize_spec(v3_diff(v3_flat(player_pos), sf), MILLI as int);
    let rep = separation_sum_spec(sf, others, others.len() as int);
    let combined = v3_sum(seek, v3(div_trunc(rep.x, 2), div_trunc(rep.y, 2), div_trunc(rep.z, 2)));
    normalize_spec(combined, speed)
}

/// Each separation term is bounded by the term limit.
proof fn lemma_separation_term_bounded(self_flat: V3, other_flat: V3)
    ensures
        bounded(separation_term_spec(self_flat, other_flat), SEPARATION_TERM_LIMIT as int),
{
    let away = v3_diff(self_flat, other_flat);
    let d2 = norm_sq(away);
    if 0 < d2 < (MIN_SEPARATION as int) * (MIN_SEPARATION as int) {
        let d = crate::fixvec::ceil_sqrt(d2);
        crate::fixvec::lemma_ceil_sqrt(d2);
        assert(d >= 1) by (nonlinear_arith)
            requires
                d >= 0,
                d * d >= d2,
                d2 > 0,
        ;
        let unit = normalize_spec(away, MILLI as int);
        lemma_normalize_bound(away, MILLI as int);
        lemma_div_trunc_abs(unit.x * (MILLI as int), d);
        lemma_div_trunc_abs(unit.y * (MILLI as int), d);
        lemma_div_trunc_abs(unit.z * (MILLI as int), d);
        assert(iabs(unit.x * 1000) <= 1_000_000 && iabs(unit.y * 1000) <= 1_000_000 && iabs(
            unit.z * 1000,
        ) <= 1_000_000) by (nonlinear_arith)
            requires
                -1000 <= unit.x <= 1000,
                -1000 <= unit.y <= 1000,
                -1000 <= unit.z <= 1000,
        ;
    }
}

/// The accumulated separation sum grows by at most one term limit per
/// neighbour.
proof fn lemma_separation_sum_bounded(self_flat: V3, others: Seq<Vec3>, k: int)
    requires
        0 <= k,
    ensures
        bounded(separation_sum_spec(self_flat, others, k), k * (SEPARATION_TERM_LIMIT as int)),
    decreases k,
{
    if k > 0 {
        lemma_separation_sum_bounded(self_flat, others, k - 1);
        lemma_separation_term_bounded(self_flat, v3_flat(others[k - 1]@));
    }
}

/// The emitted steering velocity never exceeds the configured speed:
/// the combined direction is normalised before scaling, so its
/// squared magnitude is bounded by the squared speed for every input.
pub proof fn lemma_steering_speed_bound(
    self_pos: V3,
    player_pos: V3,
    others: Seq<Vec3>,
    speed: int,
)
    requires
        speed >= 0,
    ensures
        norm_sq(steer_spec(self_pos, player_pos, others, speed)) <= speed * speed,
        bounded(steer_spec(self_pos, player_pos, others, speed), speed),
{
    let sf = v3_flat(self_pos);
    let seek = normalize_spec(v3_diff(v3_flat(player_pos), sf), MILLI as int);
    let rep = separation_sum_spec(sf, others, others.len() as int);
    let combined = v3_sum(seek, v3(div_trunc(rep.x, 2), div_trunc(rep.y, 2), div_trunc(rep.z, 2)));
    lemma_normalize_bound(combined, speed);
}

/// Desired velocity of one hostile this tick: seek the player, repel
/// from the other hostiles' snapshot positions, scale to the unit's
/// speed. The result's magnitude never exceeds that speed.
pub fn melee_creep_velocity(
    enemy: &Enemy,
    self_pos: Vec3,
    player_pos: Vec3,
    others: &Vec<Vec3>,
) -> (vel: Vec3)
    requires
        0 <= enemy.speed <= SPEED_LIMIT,
        bounded(self_pos@, COORD_LIMIT as int),
        bounded(player_pos@, COORD_LIMIT as int),
        forall|k: int|
            0 <= k < others@.len() ==> bounded(#[trigger] others@[k]@, COORD_LIMIT as int),
        others@.len() <= NEIGHBOR_LIMIT,
    ensures
        vel@ == steer_spec(self_pos@, player_pos@, others@, enemy.speed as int),
        norm_sq(vel@) <= enemy.speed as int * enemy.speed as int,
        bounded(vel@, enemy.speed as int),
{
    let sf = self_pos.flat();
    let pf = player_pos.flat();
    let seek = pf.minus(sf).normalize_to(MILLI);
    let mut rep = Vec3::zero();
    let mut i: usize = 0;
    while i < others.len()
        invariant
            i <= others@.len() <= NEIGHBOR_LIMIT,
            sf@ == v3_flat(self_pos@),
            bounded(self_pos@, COORD_LIMIT as int),
            forall|k: int|
                0 <= k < others@.len() ==> bounded(#[trigger] others@[k]@, COORD_LIMIT as int),
            rep@ == separation_sum_spec(sf@, others@, i as int),
            bounded(rep@, (i as int) * (SEPARATION_TERM_LIMIT as int)),
        decreases others@.len() - i,
    {
        proof {
            lemma_separation_term_bounded(sf@, v3_flat(others@[i as int]@));
        }
        let of = others[i].flat();
        let away = sf.minus(of);
        let d2: i64 = away.norm_sq();
        if 0 < d2 && d2 < 12_250_000 {
            let d: i64 = isqrt_ceil(d2 as u64) as i64;
            proof {
                crate::fixvec::lemma_ceil_sqrt(d2 as int);
                assert(d >= 1) by (nonlinear_arith)
                    requires
                        d as int >= 0,
                        (d as int) * (d as int) >= d2 as int,
                        d2 as int > 0,
                ;
            }
            let unit = away.normalize_to(MILLI);
            let term = Vec3 {
                x: div_trunc_i64(unit.x * 1000, d),
                y: div_trunc_i64(unit.y * 1000, d),
                z: div_trunc_i64(unit.z * 1000, d),
            };
            proof {
                assert(term@ == separation_term_spec(sf@, v3_flat(others@[i as int]@)));
            }
            rep = rep.plus(term);
        } else {
            proof {
                assert(separation_term_spec(sf@, v3_flat(others@[i as int]@)) == v3_zero());
            }
        }
        i += 1;
    }
    let half = Vec3 {
        x: div_trunc_i64(rep.x, 2),
        y: div_trunc_i64(rep.y, 2),
        z: div_trunc_i64(rep.z, 2),
    };
    proof {
        lemma_div_trunc_abs(rep@.x, 2);
        lemma_div_trunc_abs(rep@.y, 2);
        lemma_div_trunc_abs(rep@.z, 2);
    }
    let combined = seek.plus(half);
    combined.normalize_to(enemy.speed)
}

} // verus!
