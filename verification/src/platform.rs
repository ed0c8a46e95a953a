//! Platform traversal state machine.
//!
//! Each platform travels a closed loop of locations at a fixed speed.
//! Every tick it heads for the location of its current leg; when the
//! remaining distance is within the step the tick would cover, it emits
//! zero velocity and advances the leg, wrapping modulo the path length,
//! leaving the position snap to the physics integrator. The leg index
//! stays valid for every tick after construction.

use crate::fixvec::{
    bounded, ceil_sqrt, isqrt_ceil, norm_sq, normalize_spec, v3_diff, v3_zero, Vec3, COORD_LIMIT,
    MILLI, SPEED_LIMIT, V3,
};
use crate::waypoints::PlatformPath;
use vstd::prelude::*;

verus! {

/// Largest tick duration the traversal accepts, in milli-time-units.
pub const TICK_LIMIT: u64 = 0x10_0000;

/// Traversal state of one platform: the leg it is heading for and its
/// configured speed in milli-units per time unit.
#[derive(Clone, Copy, PartialEq, Eq, Structural, Debug)]
pub struct MovingPlatform {
    pub current_leg: usize,
    pub speed: i64,
}

/// Whether the remaining run to the target is covered by this tick's
/// step: distance (ceiling) scaled to milli-time within speed times dt.
pub open spec fn arrives_spec(to_target: V3, speed: int, dt: int) -> bool {
    ceil_sqrt(norm_sq(to_target)) * (MILLI as int) <= speed * dt
}

impl MovingPlatform {
    /// The state is sound for a path: the leg indexes a location and
    /// the speed is an admissible magnitude.
    pub open spec fn wf(self, path: PlatformPath) -> bool {
        &&& (self.current_leg as int) < path.locations@.len()
        &&& 0 <= self.speed <= SPEED_LIMIT
    }

    pub fn new(speed: i64) -> (r: MovingPlatform)
        requires
            0 <= speed <= SPEED_LIMIT,
        ensures
            r.current_leg == 0,
            r.speed == speed,
    {
        MovingPlatform { current_leg: 0, speed }
    }

    /// One traversal tick: emit the velocity towards the current
    /// target, or zero while advancing the leg on arrival. The leg
    /// index remains valid whatever happens.
    pub fn tick(&mut self, path: &PlatformPath, current: Vec3, dt: u64) -> (vel: Vec3)
        requires
            path.wf(),
            old(self).wf(*path),
            bounded(current@, COORD_LIMIT as int),
            forall|k: int|
                0 <= k < path.locations@.len() ==> bounded(
                    #[trigger] path.locations@[k]@,
                    COORD_LIMIT as int,
                ),
            dt <= TICK_LIMIT,
        ensures
            final(self).speed == old(self).speed,
            final(self).wf(*path),
            ({
                let to = v3_diff(path.locations@[old(self).current_leg as int]@, current@);
                if arrives_spec(to, old(self).speed as int, dt as int) {
                    vel@ == v3_zero() && final(self).current_leg as int == (old(
                        self,
                    ).current_leg as int + 1) % (path.locations@.len() as int)
                } else {
                    vel@ == normalize_spec(to, old(self).speed as int) && final(self).current_leg
                        == old(self).current_leg
                }
            }),
            norm_sq(vel@) <= old(self).speed as int * old(self).speed as int,
    {
        proof {
            crate::fixvec::lemma_normalize_bound(
                v3_diff(path.locations@[self.current_leg as int]@, current@),
                self.speed as int,
            );
            assert(self.speed as int * self.speed as int >= 0) by (nonlinear_arith);
        }
        let target = path.locations[self.current_leg];
        let to = target.minus(current);
        let m: i64 = to.norm_sq();
        let n: u64 = isqrt_ceil(m as u64);
        proof {
            assert((self.speed as u64) * dt <= 0x100_0000_0000) by (nonlinear_arith)
                requires
                    0 <= self.speed as u64 <= 0x10_0000,
                    dt <= 0x10_0000,
            ;
        }
        if n * 1000 <= (self.speed as u64) * dt {
            let len = path.locations.len();
            self.current_leg = (self.current_leg + 1) % len;
            Vec3::zero()
        } else {
            to.normalize_to(self.speed)
        }
    }
}

} // verus!
