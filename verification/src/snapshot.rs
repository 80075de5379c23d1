//! Per-command snapshots: a before and after machine state, an optional
//! motion, a thermal transition, and interpolation over the pair.

use vstd::prelude::*;

use crate::machine::MachineState;
use crate::metric::Position;
use crate::motion::{spec_motion_duration, MotionProfile, MotionTransition, MotionTransitionBuilder};
use crate::thermal::{
    spec_heater_at, spec_thermal_duration, ThermalModel, ThermalSnapshot, ThermalTransition,
    ThermalTransitionBuilder,
};

verus! {

/// The aggregate length of a snapshot: its thermal settle or its motion,
/// whichever runs longer.
pub open spec fn spec_snapshot_duration<B: ThermalModel, T: ThermalModel>(
    thermal: ThermalTransition<B, T>,
    motion: Option<MotionTransition>,
) -> int {
    let td = spec_thermal_duration(thermal, thermal.tools@.len() as int);
    let md = match motion {
        Some(mt) => spec_motion_duration(mt),
        None => 0,
    };
    if md > td {
        md
    } else {
        td
    }
}

/// Elapsed milliseconds at `tau` thousandths of a duration.
pub open spec fn spec_elapsed_at(duration_ms: int, tau_e3: int) -> int {
    let t = if tau_e3 > 1000 {
        1000
    } else {
        tau_e3
    };
    duration_ms * t / 1000
}

/// Local thousandths-progress of a subtransition of length `sub_ms`
/// after `elapsed` aggregate milliseconds; a finished subtransition
/// holds its end.
pub open spec fn spec_local_tau(elapsed: int, sub_ms: int) -> int {
    if sub_ms <= 0 {
        1000
    } else if elapsed * 1000 / sub_ms > 1000 {
        1000
    } else {
        elapsed * 1000 / sub_ms
    }
}

/// One command's transition: machine states around it, the motion it
/// emitted, and the thermal response of the state it produced.
#[derive(Debug, Clone)]
pub struct Snapshot<B: ThermalModel, T: ThermalModel> {
    pub before: MachineState,
    pub after: MachineState,
    pub duration_ms: u64,
    pub thermal: ThermalTransition<B, T>,
    pub motion: Option<MotionTransition>,
}

impl<B: ThermalModel, T: ThermalModel> Snapshot<B, T> {
    pub open spec fn wf(self) -> bool {
        &&& self.before.wf()
        &&& self.after.wf()
        &&& self.thermal.wf()
        &&& match self.motion {
            Some(mt) => mt.wf(),
            None => true,
        }
        &&& self.duration_ms == spec_snapshot_duration(self.thermal, self.motion)
    }

    /// Combine the parts; the duration is the maximum of the thermal and
    /// motion durations.
    pub fn new(
        before: MachineState,
        after: MachineState,
        thermal: ThermalTransition<B, T>,
        motion: Option<MotionTransition>,
    ) -> (r: Self)
        requires
            before.wf(),
            after.wf(),
            thermal.wf(),
            match motion {
                Some(mt) => mt.wf(),
                None => true,
            },
        ensures
            r.wf(),
            r.before == before,
            r.after == after,
            r.thermal == thermal,
            r.motion == motion,
            r.duration_ms == spec_snapshot_duration(thermal, motion),
    {
        let td = thermal.duration_ms();
        let md = match &motion {
            Some(mt) => mt.duration_ms(),
            None => 0,
        };
        let duration_ms = if md > td {
            md
        } else {
            td
        };
        Snapshot { before, after, duration_ms, thermal, motion }
    }

    /// The aggregate duration in milliseconds.
    pub fn duration(&self) -> (r: u64)
        ensures
            r == self.duration_ms,
    {
        self.duration_ms
    }

    /// State at `tau` thousandths of the snapshot: the position along
    /// the motion (or the final position when none was emitted) and the
    /// heater temperatures, each subtransition on its own clock and held
    /// at its end once finished.
    pub fn interpolate(&self, tau_e3: u32) -> (r: (Position, ThermalSnapshot))
        requires
            self.wf(),
        ensures
            ({
                let elapsed = spec_elapsed_at(self.duration_ms as int, tau_e3 as int);
                &&& match self.motion {
                    None => r.0 == self.after.axes,
                    Some(mt) => (mt.motion is Instant ==> r.0 == mt.end) && (
                    mt.motion is ConstantVelocity ==> {
                        let lt = spec_local_tau(elapsed, spec_motion_duration(mt));
                        &&& r.0.x_um == crate::motion::spec_lerp(
                            mt.start.x_um as int,
                            mt.end.x_um as int,
                            lt,
                        )
                        &&& r.0.y_um == crate::motion::spec_lerp(
                            mt.start.y_um as int,
                            mt.end.y_um as int,
                            lt,
                        )
                        &&& r.0.z_um == crate::motion::spec_lerp(
                            mt.start.z_um as int,
                            mt.end.z_um as int,
                            lt,
                        )
                    }),
                }
                &&& r.1.bed_temp_mc == spec_heater_at(self.thermal.bed, elapsed)
                &&& r.1.tool_temps_mc@.len() == self.thermal.tools@.len()
                &&& forall|k: int|
                    0 <= k < self.thermal.tools@.len() ==> r.1.tool_temps_mc@[k] == spec_heater_at(
                        #[trigger] self.thermal.tools@[k],
                        elapsed,
                    )
            }),
    {
        let t: u64 = if tau_e3 > 1000 {
            1000
        } else {
            tau_e3 as u64
        };
        proof {
            assert(0 <= (self.duration_ms as int) * (t as int)
                <= 20_000_000_000_000_000_000_000 && (self.duration_ms as int) * (t as int) / 1000
                <= self.duration_ms as int) by (nonlinear_arith)
                requires
                    0 <= t <= 1000,
                    0 <= self.duration_ms <= 18_446_744_073_709_551_615u64,
            ;
        }
        let elapsed: u64 = ((self.duration_ms as u128) * (t as u128) / 1000) as u64;
        proof {
            assert(elapsed == spec_elapsed_at(self.duration_ms as int, tau_e3 as int));
        }
        let position = match &self.motion {
            None => self.after.position(),
            Some(mt) => {
                let md = mt.duration_ms();
                let lt: u32 = if md == 0 {
                    1000
                } else {
                    let q = (elapsed as u128) * 1000 / (md as u128);
                    if q > 1000 {
                        1000
                    } else {
                        q as u32
                    }
                };
                proof {
                    assert(lt == spec_local_tau(elapsed as int, spec_motion_duration(*mt)));
                }
                mt.interpolate(lt)
            },
        };
        let thermal = self.thermal.interpolate_at(elapsed);
        (position, thermal)
    }
}

/// Placeholder for a snapshot-builder slot whose model is not yet chosen.
#[derive(Debug, Clone, Copy, PartialEq, Eq, Structural)]
pub struct NoThermalModel;

impl Default for NoThermalModel {
    fn default() -> (r: Self)
        ensures
            r == NoThermalModel,
    {
        NoThermalModel
    }
}

/// Builder for snapshots: fix the bed and tool thermal models, then
/// build one snapshot per executed command.
#[derive(Debug, Clone, Copy)]
pub struct SnapshotBuilder<B, T> {
    pub bed_thermal_model: B,
    pub tools_thermal_model: T,
}

impl SnapshotBuilder<NoThermalModel, NoThermalModel> {
    /// A builder with both model slots open.
    pub fn new() -> (r: Self)
        ensures
            r == (SnapshotBuilder {
                bed_thermal_model: NoThermalModel,
                tools_thermal_model: NoThermalModel,
            }),
    {
        SnapshotBuilder { bed_thermal_model: NoThermalModel, tools_thermal_model: NoThermalModel }
    }
}

impl<T> SnapshotBuilder<NoThermalModel, T> {
    /// Choose the bed's thermal model.
    pub fn bed_thermal_model<B: ThermalModel>(self, model: B) -> (r: SnapshotBuilder<B, T>)
        ensures
            r.bed_thermal_model == model,
            r.tools_thermal_model == self.tools_thermal_model,
    {
        SnapshotBuilder { bed_thermal_model: model, tools_thermal_model: self.tools_thermal_model }
    }
}

impl<B> SnapshotBuilder<B, NoThermalModel> {
    /// Choose the tools' thermal model.
    pub fn tools_thermal_model<T: ThermalModel>(self, model: T) -> (r: SnapshotBuilder<B, T>)
        ensures
            r.tools_thermal_model == model,
            r.bed_thermal_model == self.bed_thermal_model,
    {
        SnapshotBuilder { bed_thermal_model: self.bed_thermal_model, tools_thermal_model: model }
    }
}

impl<B: ThermalModel, T: ThermalModel> SnapshotBuilder<B, T> {
    /// Build one snapshot around a command: thermal from the state after
    /// it, motion (if any) between the two states.
    pub fn build(&self, before: MachineState, after: MachineState, motion_profile: Option<
        MotionProfile,
    >) -> (r: Snapshot<B, T>)
        requires
            before.wf(),
            after.wf(),
            self.bed_thermal_model.wf(),
            self.tools_thermal_model.wf(),
        ensures
            r.wf(),
            r.before == before,
            r.after == after,
            r.motion is Some <==> motion_profile is Some,
            match (motion_profile, r.motion) {
                (Some(p), Some(mt)) => mt == (MotionTransition {
                    start: before.axes,
                    end: after.axes,
                    plane: after.active_plane,
                    motion: p,
                }),
                (None, None) => true,
                _ => false,
            },
            r.thermal.bed.heater == after.bed_temp,
            r.thermal.tools@.len() == after.tools@.len(),
    {
        let thermal = ThermalTransitionBuilder::new().bed_model(self.bed_thermal_model).tools_model(
            self.tools_thermal_model,
        ).build(&after);
        let motion = match motion_profile {
            Some(profile) => Some(
                MotionTransitionBuilder::from_profile(profile).start(&before).end(&after).build(),
            ),
            None => None,
        };
        Snapshot::new(before, after, thermal, motion)
    }
}

} // verus!
