//! Motion between two machine positions: a profile, a transition, and
//! linear interpolation along it.

use vstd::prelude::*;

use crate::machine::MachineState;
use crate::metric::{
    duration_ms, spec_planar_len, ActivePlane, Distance, Position, Speed, DIST_LIMIT_UM,
};

verus! {

/// How a motion progresses: at constant velocity, or instantly (homing,
/// coordinate resets).
#[derive(Debug, Clone, Copy, PartialEq, Eq, Structural)]
pub enum MotionProfile {
    ConstantVelocity(Speed),
    Instant,
}

impl Default for MotionProfile {
    fn default() -> (r: Self)
        ensures
            r == MotionProfile::Instant,
    {
        MotionProfile::Instant
    }
}

/// Linear interpolation of one axis at `tau` thousandths of the way from
/// `a` to `b`, rounding toward `a`.
pub open spec fn spec_lerp(a: int, b: int, tau: int) -> int {
    a + crate::metric::div_tz((b - a) * tau, 1000)
}

/// Milliseconds a motion takes: zero when instant or without forward
/// speed, planar length over speed otherwise.
pub open spec fn spec_motion_duration(mt: MotionTransition) -> int {
    match mt.motion {
        MotionProfile::Instant => 0,
        MotionProfile::ConstantVelocity(sp) => if sp.um_s <= 0 {
            0
        } else {
            spec_planar_len(mt.start, mt.end, mt.plane) * 1000 / (sp.um_s as int)
        },
    }
}

/// A motion from `start` to `end` within a plane, under a profile.
#[derive(Debug, Clone, Copy)]
pub struct MotionTransition {
    pub start: Position,
    pub end: Position,
    pub plane: ActivePlane,
    pub motion: MotionProfile,
}

impl MotionTransition {
    /// Both endpoints lie in the working range.
    pub open spec fn wf(self) -> bool {
        self.start.wf() && self.end.wf()
    }

    pub fn new(start: Position, end: Position, plane: ActivePlane, motion: MotionProfile) -> (r:
        Self)
        requires
            start.wf(),
            end.wf(),
        ensures
            r == (MotionTransition { start, end, plane, motion }),
            r.wf(),
    {
        MotionTransition { start, end, plane, motion }
    }

    /// The planar length of the motion.
    pub fn distance(&self) -> (r: Distance)
        requires
            self.wf(),
        ensures
            r.wf(),
            r.um >= 0,
            r.um == spec_planar_len(self.start, self.end, self.plane),
            r.um * r.um <= self.start.spec_planar_dd(self.end, self.plane),
            r.um < DIST_LIMIT_UM ==> self.start.spec_planar_dd(self.end, self.plane) < (r.um + 1)
                * (r.um + 1),
    {
        self.start.planar_distance(&self.end, &self.plane)
    }

    /// Milliseconds the motion takes: zero when instant, distance over
    /// speed otherwise (zero or negative speed also gives zero).
    pub fn duration_ms(&self) -> (r: u64)
        requires
            self.wf(),
        ensures
            r == spec_motion_duration(*self),
            self.motion is Instant ==> r == 0,
            match self.motion {
                MotionProfile::ConstantVelocity(sp) => sp.um_s <= 0 ==> r == 0,
                MotionProfile::Instant => true,
            },
    {
        match self.motion {
            MotionProfile::Instant => 0,
            MotionProfile::ConstantVelocity(speed) => {
                let d = self.distance();
                duration_ms(d, speed)
            },
        }
    }

    /// Position at `tau` thousandths of the motion (clamped to [0,1000]):
    /// the end for an instant motion, the linear point otherwise.
    pub fn interpolate(&self, tau_e3: u32) -> (r: Position)
        requires
            self.wf(),
        ensures
            r.wf(),
            self.motion is Instant ==> r == self.end,
            self.motion is ConstantVelocity ==> {
                let t = if tau_e3 > 1000 {
                    1000int
                } else {
                    tau_e3 as int
                };
                &&& r.x_um == spec_lerp(self.start.x_um as int, self.end.x_um as int, t)
                &&& r.y_um == spec_lerp(self.start.y_um as int, self.end.y_um as int, t)
                &&& r.z_um == spec_lerp(self.start.z_um as int, self.end.z_um as int, t)
            },
    {
        let t: u32 = if tau_e3 > 1000 {
            1000
        } else {
            tau_e3
        };
        match self.motion {
            MotionProfile::Instant => self.end,
            MotionProfile::ConstantVelocity(_) => Position {
                x_um: lerp_axis(self.start.x_um, self.end.x_um, t),
                y_um: lerp_axis(self.start.y_um, self.end.y_um, t),
                z_um: lerp_axis(self.start.z_um, self.end.z_um, t),
            },
        }
    }
}

/// Linear interpolation of one in-range axis; the result stays between
/// the endpoints, hence in range.
fn lerp_axis(a: i64, b: i64, tau_e3: u32) -> (r: i64)
    requires
        -DIST_LIMIT_UM <= a <= DIST_LIMIT_UM,
        -DIST_LIMIT_UM <= b <= DIST_LIMIT_UM,
        tau_e3 <= 1000,
    ensures
        r == spec_lerp(a as int, b as int, tau_e3 as int),
        -DIST_LIMIT_UM <= r <= DIST_LIMIT_UM,
{
    if b >= a {
        let delta: u64 = (b - a) as u64;
        proof {
            assert(delta * tau_e3 <= 2_000_000_000_000_000_000) by (nonlinear_arith)
                requires
                    0 <= delta <= 2_000_000_000_000_000,
                    0 <= tau_e3 <= 1000,
            ;
        }
        let step: u64 = delta * (tau_e3 as u64) / 1000;
        assert((b - a) * tau_e3 >= 0) by (nonlinear_arith)
            requires
                b >= a,
                tau_e3 >= 0,
        ;
        assert(step == ((b - a) * tau_e3) / 1000) by (nonlinear_arith)
            requires
                b >= a,
                0 <= tau_e3 <= 1000,
                delta == b - a,
                step == (delta * tau_e3 / 1000) as int,
        ;
        assert(step <= delta) by (nonlinear_arith)
            requires
                step == (delta * tau_e3) / 1000,
                0 <= tau_e3 <= 1000,
                delta >= 0,
        ;
        a + (step as i64)
    } else {
        let delta: u64 = (a - b) as u64;
        proof {
            assert(delta * tau_e3 <= 2_000_000_000_000_000_000) by (nonlinear_arith)
                requires
                    0 <= delta <= 2_000_000_000_000_000,
                    0 <= tau_e3 <= 1000,
            ;
        }
        let step: u64 = delta * (tau_e3 as u64) / 1000;
        assert((b - a) * tau_e3 <= 0 && -((b - a) * tau_e3) == (a - b) * tau_e3) by (nonlinear_arith)
            requires
                a > b,
                tau_e3 >= 0,
        ;
        assert(step == ((a - b) * tau_e3) / 1000) by (nonlinear_arith)
            requires
                a > b,
                0 <= tau_e3 <= 1000,
                delta == a - b,
                step == (delta * tau_e3 / 1000) as int,
        ;
        assert(step <= delta) by (nonlinear_arith)
            requires
                step == (delta * tau_e3) / 1000,
                0 <= tau_e3 <= 1000,
                delta >= 0,
        ;
        a - (step as i64)
    }
}

/// Step-by-step builder for a `MotionTransition`, taking its endpoints
/// from machine states.
#[derive(Debug, Clone, Copy)]
pub struct MotionTransitionBuilder {
    pub start: Position,
    pub end: Position,
    pub plane: ActivePlane,
    pub motion: MotionProfile,
}

impl MotionTransitionBuilder {
    /// Begin from a profile, endpoints at the origin.
    pub fn from_profile(motion: MotionProfile) -> (r: Self)
        ensures
            r.motion == motion,
            r.start == (Position { x_um: 0, y_um: 0, z_um: 0 }),
            r.end == (Position { x_um: 0, y_um: 0, z_um: 0 }),
            r.plane == ActivePlane::XY,
    {
        MotionTransitionBuilder {
            start: Position { x_um: 0, y_um: 0, z_um: 0 },
            end: Position { x_um: 0, y_um: 0, z_um: 0 },
            plane: ActivePlane::XY,
            motion,
        }
    }

    /// Take the motion's start point from a machine state.
    pub fn start(self, state: &MachineState) -> (r: Self)
        ensures
            r == (MotionTransitionBuilder { start: state.axes, ..self }),
    {
        MotionTransitionBuilder { start: state.position(), ..self }
    }

    /// Take the motion's end point and plane from a machine state.
    pub fn end(self, state: &MachineState) -> (r: Self)
        ensures
            r == (MotionTransitionBuilder { end: state.axes, plane: state.active_plane, ..self }),
    {
        MotionTransitionBuilder { end: state.position(), plane: state.plane(), ..self }
    }

    /// Finish the transition.
    pub fn build(self) -> (r: MotionTransition)
        requires
            self.start.wf(),
            self.end.wf(),
        ensures
            r == (MotionTransition {
                start: self.start,
                end: self.end,
                plane: self.plane,
                motion: self.motion,
            }),
            r.wf(),
    {
        MotionTransition {
            start: self.start,
            end: self.end,
            plane: self.plane,
            motion: self.motion,
        }
    }
}

} // verus!
