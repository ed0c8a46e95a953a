//! Collision damage resolution.
//!
//! Every collidable entity carries an explicit role tag, and each
//! contact-begin event names an unordered pair of entity handles. The
//! resolver drains the tick's events in emission order, tries both
//! orderings of every pair against the recognised role combinations,
//! and ignores everything else — including handles of entities already
//! despawned earlier in the same tick. A projectile despawns on its
//! first resolved hit, so a second event naming it in the same tick
//! falls through as a non-match.
//!
//! Hazard (spike) damage is not event-driven: it is a polling check,
//! run once per tick against every hazard, gated by the player's
//! single cooldown timer and clamped at zero health.

use crate::cooldown::{count_down_spec, SpikeDamageCooldown};
use crate::fixvec::{
    bounded, norm_sq, normalize_spec, v3_diff, v3_flat, Vec3, COORD_LIMIT, V3,
};
use crate::health::{clamp_floor_spec, Health, DAMAGE_LIMIT, HEALTH_LIMIT};
use vstd::prelude::*;

verus! {

/// Knockback magnitude a melee hit adds to the player's velocity.
pub const MELEE_KNOCKBACK: i64 = 8000;

/// Displacement magnitude of the dash a hazard trigger causes.
pub const HAZARD_KNOCKBACK: i64 = 5000;

/// Distance within which a hazard can hurt the player.
pub const HAZARD_RADIUS: i64 = 3000;

/// Most contact events one tick may carry.
pub const EVENT_LIMIT: usize = 0x1_0000;

/// Largest velocity magnitude an entity may enter the resolver with.
pub const VEL_LIMIT: i64 = 0x100_0000_0000;

/// Role a collidable entity is tagged with at spawn time.
#[derive(Clone, Copy, PartialEq, Eq, Structural, Debug)]
pub enum Role {
    /// The player character.
    Player,
    /// A melee hostile ground unit.
    Hostile,
    /// A single-use projectile.
    Projectile,
    /// A static hazard; it is polled, never matched by event.
    Hazard,
    /// Anything else that can collide: matches nothing.
    Scenery,
}

/// A transient single-use projectile's stats.
#[derive(Clone, Copy, PartialEq, Eq, Structural, Debug)]
pub struct Fireball {
    pub damage: i64,
}

/// The per-entity state the resolver reads and writes.
#[derive(Clone, Copy, PartialEq, Eq, Structural, Debug)]
pub struct EntityState {
    pub role: Role,
    /// False once despawned; a dead entity matches nothing.
    pub alive: bool,
    pub health: Health,
    /// Damage this entity deals on contact; meaningful for hostiles,
    /// projectiles and hazards.
    pub damage: i64,
    pub pos: Vec3,
    pub vel: Vec3,
}

/// One contact-begin event: an unordered pair of entity handles.
#[derive(Clone, Copy, PartialEq, Eq, Structural, Debug)]
pub struct ContactEvent {
    pub a: usize,
    pub b: usize,
}

impl EntityState {
    /// The bounds every entity meets when a tick starts.
    pub open spec fn wf(self) -> bool {
        &&& -HEALTH_LIMIT as int <= self.health.0 as int <= HEALTH_LIMIT as int
        &&& 0 <= self.damage <= DAMAGE_LIMIT
        &&& bounded(self.pos@, COORD_LIMIT as int)
        &&& bounded(self.vel@, VEL_LIMIT as int)
    }

    /// A hostile as spawned from its configured stats.
    pub fn hostile(enemy: crate::steering::Enemy, pos: Vec3, vel: Vec3) -> (r: EntityState)
        ensures
            r == (EntityState {
                role: Role::Hostile,
                alive: true,
                health: Health(enemy.health),
                damage: enemy.damage,
                pos,
                vel,
            }),
    {
        EntityState {
            role: Role::Hostile,
            alive: true,
            health: Health(enemy.health),
            damage: enemy.damage,
            pos,
            vel,
        }
    }

    /// A projectile as spawned: transient, despawned on first hit.
    pub fn projectile(fireball: Fireball, pos: Vec3, vel: Vec3) -> (r: EntityState)
        ensures
            r == (EntityState {
                role: Role::Projectile,
                alive: true,
                health: Health(0),
                damage: fireball.damage,
                pos,
                vel,
            }),
    {
        EntityState {
            role: Role::Projectile,
            alive: true,
            health: Health(0),
            damage: fireball.damage,
            pos,
            vel,
        }
    }

    /// The player entity with its health ledger.
    pub fn player(health: Health, pos: Vec3, vel: Vec3) -> (r: EntityState)
        ensures
            r == (EntityState { role: Role::Player, alive: true, health, damage: 0, pos, vel }),
    {
        EntityState { role: Role::Player, alive: true, health, damage: 0, pos, vel }
    }
}

/// Whether handle `i` names a live entity of role `r`.
pub open spec fn live_role(es: Seq<EntityState>, i: int, r: Role) -> bool {
    &&& 0 <= i < es.len()
    &&& es[i].alive
    &&& es[i].role == r
}

/// A projectile hit: the hostile loses the projectile's damage —
/// unclamped, the external clamp runs later — and the projectile
/// despawns unconditionally.
pub open spec fn projectile_hit_spec(es: Seq<EntityState>, p: int, h: int) -> Seq<EntityState> {
    let hostile = es[h];
    let proj = es[p];
    es.update(
        h,
        EntityState { health: Health((hostile.health.0 - proj.damage) as i64), ..hostile },
    ).update(p, EntityState { alive: false, ..proj })
}

/// A melee hit: the player loses the hostile's damage — unclamped and
/// ungated, so continuous contact hurts every event — and a horizontal
/// knockback impulse away from the hostile is added onto the player's
/// velocity; hits in the same tick compound.
pub open spec fn melee_hit_spec(es: Seq<EntityState>, pl: int, h: int) -> Seq<EntityState> {
    let player = es[pl];
    let hostile = es[h];
    let kb = normalize_spec(
        v3_flat(v3_diff(player.pos@, hostile.pos@)),
        MELEE_KNOCKBACK as int,
    );
    es.update(
        pl,
        EntityState {
            health: Health((player.health.0 - hostile.damage) as i64),
            vel: Vec3 {
                x: (player.vel@.x + kb.x) as i64,
                y: (player.vel@.y + kb.y) as i64,
                z: (player.vel@.z + kb.z) as i64,
            },
            ..player
        },
    )
}

/// One event resolved: both orderings are tried against the recognised
/// role pairs; anything else — unknown handles, dead entities,
/// unrecognised combinations — is ignored.
pub open spec fn resolve_event_spec(es: Seq<EntityState>, a: int, b: int) -> Seq<EntityState> {
    if live_role(es, a, Role::Projectile) && live_role(es, b, Role::Hostile) {
        projectile_hit_spec(es, a, b)
    } else if live_role(es, b, Role::Projectile) && live_role(es, a, Role::Hostile) {
        projectile_hit_spec(es, b, a)
    } else if live_role(es, a, Role::Player) && live_role(es, b, Role::Hostile) {
        melee_hit_spec(es, a, b)
    } else if live_role(es, b, Role::Player) && live_role(es, a, Role::Hostile) {
        melee_hit_spec(es, b, a)
    } else {
        es
    }
}

/// Resolution never spawns or removes entities: a hit entity stays in
/// the arena, only flagged despawned, so every handle that was valid
/// when the tick began stays valid while its events drain.
pub proof fn lemma_resolver_preserves_population(es: Seq<EntityState>, events: Seq<ContactEvent>)
    ensures
        resolve_events_spec(es, events).len() == es.len(),
    decreases events.len(),
{
    if events.len() > 0 {
        lemma_resolver_preserves_population(es, events.drop_last());
    }
}

/// However much event-driven damage accumulates within one tick, once
/// the external clamp runs over an entity's health the value is never
/// below zero.
pub proof fn lemma_health_floor_after_events(
    es: Seq<EntityState>,
    events: Seq<ContactEvent>,
    k: int,
)
    requires
        0 <= k < es.len(),
    ensures
        clamp_floor_spec(
            resolve_events_spec(es, events)[k].health.0 as int,
        ) >= 0,
{
    lemma_resolver_preserves_population(es, events);
}

/// The tick's events drained exactly once, in emission order.
pub open spec fn resolve_events_spec(es: Seq<EntityState>, events: Seq<ContactEvent>) -> Seq<
    EntityState,
>
    decreases events.len(),
{
    if events.len() == 0 {
        es
    } else {
        resolve_event_spec(
            resolve_events_spec(es, events.drop_last()),
            events.last().a as int,
            events.last().b as int,
        )
    }
}

/// Exec check of [`live_role`].
fn live_role_at(es: &Vec<EntityState>, i: usize, r: Role) -> (b: bool)
    ensures
        b == live_role(es@, i as int, r),
{
    i < es.len() && es[i].alive && es[i].role == r
}

/// Drain one tick's contact events in emission order, resolving each
/// matched pair: projectile hits despawn the projectile and hurt the
/// hostile; melee hits hurt the player and add knockback. A pair whose
/// entities died earlier in the tick no longer matches.
pub fn resolve_contact_events(es: &mut Vec<EntityState>, events: &Vec<ContactEvent>)
    requires
        forall|k: int| 0 <= k < old(es)@.len() ==> (#[trigger] old(es)@[k]).wf(),
        events@.len() <= EVENT_LIMIT,
    ensures
        final(es)@ == resolve_events_spec(old(es)@, events@),
{
    let ghost es_init = es@;
    let mut j: usize = 0;
    while j < events.len()
        invariant
            j <= events@.len() <= EVENT_LIMIT,
            es@.len() == es_init.len(),
            es@ == resolve_events_spec(es_init, events@.subrange(0, j as int)),
            forall|k: int|
                0 <= k < es@.len() ==> (#[trigger] es@[k]).pos == es_init[k].pos,
            forall|k: int|
                0 <= k < es@.len() ==> 0 <= (#[trigger] es@[k]).damage <= DAMAGE_LIMIT,
            forall|k: int|
                0 <= k < es@.len() ==> bounded((#[trigger] es@[k]).pos@, COORD_LIMIT as int),
            forall|k: int|
                0 <= k < es@.len() ==> -(HEALTH_LIMIT as int) - (DAMAGE_LIMIT as int) * (j as int)
                    <= (#[trigger] es@[k]).health.0 as int <= HEALTH_LIMIT as int,
            forall|k: int|
                0 <= k < es@.len() ==> bounded(
                    (#[trigger] es@[k]).vel@,
                    VEL_LIMIT as int + (MELEE_KNOCKBACK as int) * (j as int),
                ),
        decreases events@.len() - j,
    {
        let ghost es0 = es@;
        let a = events[j].a;
        let b = events[j].b;
        proof {
            assert((DAMAGE_LIMIT as int) * (j as int) <= (DAMAGE_LIMIT as int) * (EVENT_LIMIT
                as int)) by (nonlinear_arith)
                requires
                    0 <= j as int <= EVENT_LIMIT as int,
            ;
            assert((MELEE_KNOCKBACK as int) * (j as int) <= (MELEE_KNOCKBACK as int) * (EVENT_LIMIT
                as int)) by (nonlinear_arith)
                requires
                    0 <= j as int <= EVENT_LIMIT as int,
            ;
            assert((DAMAGE_LIMIT as int) * (j as int + 1) == (DAMAGE_LIMIT as int) * (j as int)
                + DAMAGE_LIMIT as int) by (nonlinear_arith);
            assert((MELEE_KNOCKBACK as int) * (j as int + 1) == (MELEE_KNOCKBACK as int) * (
            j as int) + MELEE_KNOCKBACK as int) by (nonlinear_arith);
        }
        if live_role_at(es, a, Role::Projectile) && live_role_at(es, b, Role::Hostile) {
            let dmg = es[a].damage;
            let mut hostile = es[b];
            hostile.health.0 = hostile.health.0 - dmg;
            es[b] = hostile;
            let mut proj = es[a];
            proj.alive = false;
            es[a] = proj;
            proof {
                assert(es@ =~= projectile_hit_spec(es0, a as int, b as int));
            }
        } else if live_role_at(es, b, Role::Projectile) && live_role_at(es, a, Role::Hostile) {
            let dmg = es[b].damage;
            let mut hostile = es[a];
            hostile.health.0 = hostile.health.0 - dmg;
            es[a] = hostile;
            let mut proj = es[b];
            proj.alive = false;
            es[b] = proj;
            proof {
                assert(es@ =~= projectile_hit_spec(es0, b as int, a as int));
            }
        } else if live_role_at(es, a, Role::Player) && live_role_at(es, b, Role::Hostile) {
            melee_hit(es, a, b, Ghost(j as int));
            proof {
                crate::fixvec::lemma_normalize_bound(
                    v3_flat(v3_diff(es0[a as int].pos@, es0[b as int].pos@)),
                    MELEE_KNOCKBACK as int,
                );
                assert(es@ =~= melee_hit_spec(es0, a as int, b as int));
            }
        } else if live_role_at(es, b, Role::Player) && live_role_at(es, a, Role::Hostile) {
            melee_hit(es, b, a, Ghost(j as int));
            proof {
                crate::fixvec::lemma_normalize_bound(
                    v3_flat(v3_diff(es0[b as int].pos@, es0[a as int].pos@)),
                    MELEE_KNOCKBACK as int,
                );
                assert(es@ =~= melee_hit_spec(es0, b as int, a as int));
            }
        }
        proof {
            assert(es@ == resolve_event_spec(es0, a as int, b as int));
            assert(events@.subrange(0, j as int + 1).drop_last() =~= events@.subrange(
                0,
                j as int,
            ));
            assert(events@.subrange(0, j as int + 1).last() == events@[j as int]);
        }
        j += 1;
    }
    proof {
        assert(events@.subrange(0, events@.len() as int) =~= events@);
    }
}

/// A static hazard: the damage it deals and the position read from
/// its transform.
#[derive(Clone, Copy, PartialEq, Eq, Structural, Debug)]
pub struct Spikes {
    pub damage: i64,
    pub pos: Vec3,
}

/// What one hazard polling tick leaves behind: the player's health,
/// the cooldown's countdown, and the dash displacement of the trigger
/// if one fired.
pub ghost struct SpikeTickOutcome {
    pub health: int,
    pub remaining: int,
    pub dash: Option<V3>,
}

/// Whether the player stands strictly within the hazard radius.
pub open spec fn hazard_in_range(player: V3, spike: V3) -> bool {
    norm_sq(v3_diff(player, spike)) < (HAZARD_RADIUS as int) * (HAZARD_RADIUS as int)
}

/// The first `k` hazards polled in order. A trigger needs the player
/// in range and the countdown at zero; it clamps the damaged health at
/// zero, rearms the countdown — so at most one trigger fires per tick
/// — and dashes the player horizontally away from the hazard.
pub open spec fn spike_poll_spec(
    health: int,
    remaining: int,
    duration: int,
    player: V3,
    spikes: Seq<Spikes>,
    k: int,
) -> SpikeTickOutcome
    decreases k,
{
    if k <= 0 {
        SpikeTickOutcome { health, remaining, dash: None }
    } else {
        let prev = spike_poll_spec(health, remaining, duration, player, spikes, k - 1);
        let s = spikes[k - 1];
        if hazard_in_range(player, s.pos@) && prev.remaining == 0 {
            SpikeTickOutcome {
                health: clamp_floor_spec(prev.health - s.damage),
                remaining: duration,
                dash: Some(
                    normalize_spec(v3_flat(v3_diff(player, s.pos@)), HAZARD_KNOCKBACK as int),
                ),
            }
        } else {
            prev
        }
    }
}

/// One whole hazard tick: the countdown advances by `dt` first, then
/// every hazard is polled in order.
pub open spec fn spike_tick_spec(
    health: int,
    remaining: int,
    duration: int,
    player: V3,
    spikes: Seq<Spikes>,
    dt: int,
) -> SpikeTickOutcome {
    spike_poll_spec(
        health,
        count_down_spec(remaining, dt),
        duration,
        player,
        spikes,
        spikes.len() as int,
    )
}

/// The hazard polling check, run once per tick: advance the player's
/// cooldown, then try every hazard in order. On a trigger the damage
/// is clamped at zero, the cooldown rearms, and the returned dash
/// displacement pushes the player horizontally away from the hazard.
pub fn spike_damage_tick(
    health: &mut Health,
    cooldown: &mut SpikeDamageCooldown,
    player_pos: Vec3,
    spikes: &Vec<Spikes>,
    dt: u64,
) -> (dash: Option<Vec3>)
    requires
        old(health).wf(),
        old(cooldown).wf(),
        old(cooldown).duration >= 1,
        bounded(player_pos@, COORD_LIMIT as int),
        forall|k: int|
            0 <= k < spikes@.len() ==> bounded(
                (#[trigger] spikes@[k]).pos@,
                COORD_LIMIT as int,
            ),
        forall|k: int| 0 <= k < spikes@.len() ==> 0 <= (#[trigger] spikes@[k]).damage
            <= DAMAGE_LIMIT,
    ensures
        ({
            let out = spike_tick_spec(
                old(health).0 as int,
                old(cooldown).remaining as int,
                old(cooldown).duration as int,
                player_pos@,
                spikes@,
                dt as int,
            );
            &&& final(health).0 as int == out.health
            &&& final(cooldown).remaining as int == out.remaining
            &&& final(cooldown).duration == old(cooldown).duration
            &&& (match dash {
                Option::Some(d) => out.dash == Option::Some(d@),
                Option::None => out.dash is None,
            })
        }),
        final(health).wf(),
        final(cooldown).wf(),
{
    cooldown.tick(dt);
    let mut dash: Option<Vec3> = Option::None;
    let mut i: usize = 0;
    while i < spikes.len()
        invariant
            i <= spikes@.len(),
            bounded(player_pos@, COORD_LIMIT as int),
            forall|k: int|
                0 <= k < spikes@.len() ==> bounded(
                    (#[trigger] spikes@[k]).pos@,
                    COORD_LIMIT as int,
                ),
            forall|k: int| 0 <= k < spikes@.len() ==> 0 <= (#[trigger] spikes@[k]).damage
                <= DAMAGE_LIMIT,
            health.wf(),
            cooldown.wf(),
            cooldown.duration == old(cooldown).duration,
            old(cooldown).duration >= 1,
            ({
                let out = spike_poll_spec(
                    old(health).0 as int,
                    count_down_spec(old(cooldown).remaining as int, dt as int),
                    old(cooldown).duration as int,
                    player_pos@,
                    spikes@,
                    i as int,
                );
                &&& health.0 as int == out.health
                &&& cooldown.remaining as int == out.remaining
                &&& (match dash {
                    Option::Some(d) => out.dash == Option::Some(d@),
                    Option::None => out.dash is None,
                })
            }),
        decreases spikes@.len() - i,
    {
        let s = spikes[i];
        let diff = player_pos.minus(s.pos);
        let d2: i64 = diff.norm_sq();
        if d2 < HAZARD_RADIUS * HAZARD_RADIUS && cooldown.finished() {
            health.apply_damage_clamped(s.damage);
            let kb = diff.flat().normalize_to(HAZARD_KNOCKBACK);
            dash = Option::Some(kb);
            cooldown.reset();
        }
        i += 1;
    }
    dash
}

/// The melee branch: hurt the player by the hostile's damage and add
/// the horizontal knockback impulse onto the player's velocity.
fn melee_hit(es: &mut Vec<EntityState>, pl: usize, h: usize, budget: Ghost<int>)
    requires
        live_role(old(es)@, pl as int, Role::Player),
        live_role(old(es)@, h as int, Role::Hostile),
        0 <= budget@ < EVENT_LIMIT as int,
        0 <= old(es)@[h as int].damage <= DAMAGE_LIMIT,
        -(HEALTH_LIMIT as int) - (DAMAGE_LIMIT as int) * budget@ <= old(
            es,
        )@[pl as int].health.0 as int <= HEALTH_LIMIT as int,
        bounded(old(es)@[pl as int].pos@, COORD_LIMIT as int),
        bounded(old(es)@[h as int].pos@, COORD_LIMIT as int),
        bounded(
            old(es)@[pl as int].vel@,
            VEL_LIMIT as int + (MELEE_KNOCKBACK as int) * budget@,
        ),
    ensures
        final(es)@ == melee_hit_spec(old(es)@, pl as int, h as int),
{
    proof {
        assert((DAMAGE_LIMIT as int) * budget@ <= (DAMAGE_LIMIT as int) * (EVENT_LIMIT as int))
            by (nonlinear_arith)
            requires
                0 <= budget@ <= EVENT_LIMIT as int,
        ;
        assert((MELEE_KNOCKBACK as int) * budget@ <= (MELEE_KNOCKBACK as int) * (EVENT_LIMIT
            as int)) by (nonlinear_arith)
            requires
                0 <= budget@ <= EVENT_LIMIT as int,
        ;
    }
    let dmg = es[h].damage;
    let hpos = es[h].pos;
    let mut player = es[pl];
    let kb = player.pos.minus(hpos).flat().normalize_to(MELEE_KNOCKBACK);
    player.health.0 = player.health.0 - dmg;
    player.vel = player.vel.plus(kb);
    es[pl] = player;
    proof {
        assert(es@ =~= melee_hit_spec(old(es)@, pl as int, h as int));
    }
}

} // verus!
