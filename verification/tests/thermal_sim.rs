use printctl::machine::MachineState;
use printctl::motion::{MotionProfile, MotionTransition};
use printctl::metric::{ActivePlane, Position, Speed};
use printctl::program::GCodeProgram;
use printctl::simulator::GCodeSimulator;
use printctl::snapshot::SnapshotBuilder;
use printctl::thermal::{LumpedThermalModel, ThermalModel, SETTLE_LIMIT_MS};

fn bed_model() -> LumpedThermalModel {
    LumpedThermalModel {
        ambient_mc: 25_000,
        power_mw: 40_000,
        loss_mw_per_c: 2_000,
        heat_capacity_mj_per_c: 1_000_000,
    }
}

#[test]
fn lumped_temperature_starts_at_the_initial_reading() {
    let m = bed_model();
    assert_eq!(m.temperature(25_000, 0), 25_000);
}

#[test]
fn lumped_temperature_is_monotone_toward_steady() {
    let m = bed_model();
    // steady point: 25 C + 40 W / 2 W/C = 45 C
    let mut last = m.temperature(25_000, 0);
    for t in [10_000u64, 100_000, 1_000_000, 10_000_000, 1_000_000_000] {
        let cur = m.temperature(25_000, t);
        assert!(cur >= last, "t={} cur={} last={}", t, cur, last);
        assert!(cur <= 45_000);
        last = cur;
    }
    // far past the decay cap the steady point is reached exactly
    assert_eq!(m.temperature(25_000, 2_000_000_000_000), 45_000);
}

#[test]
fn settle_time_is_positive_for_a_reachable_target_and_zero_without_one() {
    let m = bed_model();
    let t = m.settle_time(25_000, Some(44_000));
    assert!(t > 0 && t <= SETTLE_LIMIT_MS);
    assert_eq!(m.settle_time(25_000, None), 0);
    assert_eq!(m.settle_time(45_000, Some(44_000)), 0);
}

#[test]
fn motion_transition_duration_and_interpolation() {
    let start = Position::from_um(0, 0, 0);
    let end = Position::from_um(10_000, 0, 0);
    let mt = MotionTransition::new(
        start,
        end,
        ActivePlane::XY,
        MotionProfile::ConstantVelocity(Speed::from_um_per_s(1_000)),
    );
    assert_eq!(mt.duration_ms(), 10_000);
    assert_eq!(mt.interpolate(0).x_um, 0);
    assert_eq!(mt.interpolate(500).x_um, 5_000);
    assert_eq!(mt.interpolate(1000).x_um, 10_000);
    let instant = MotionTransition::new(start, end, ActivePlane::XY, MotionProfile::Instant);
    assert_eq!(instant.duration_ms(), 0);
    assert_eq!(instant.interpolate(0), end);
}

#[test]
fn simulation_timeline_is_contiguous_and_sums_to_the_total() {
    let program = GCodeProgram::new(b"G21\nG0 X10 F600\nG28\nG0 X5");
    let builder = SnapshotBuilder::new()
        .bed_thermal_model(bed_model())
        .tools_thermal_model(bed_model());
    let (total, entries) = GCodeSimulator.simulate(&program, builder);
    assert_eq!(entries.len(), 4);
    assert_eq!(entries[0].start_ms, 0);
    let mut sum: u128 = 0;
    for w in entries.windows(2) {
        assert_eq!(w[0].end_ms, w[1].start_ms);
    }
    for e in entries.iter() {
        assert_eq!(e.end_ms - e.start_ms, e.snapshot.duration_ms as u128);
        sum += e.snapshot.duration_ms as u128;
    }
    assert_eq!(entries.last().unwrap().end_ms, total);
    assert_eq!(sum, total);
}

#[test]
fn simulation_chains_states_through_execute() {
    let program = GCodeProgram::new(b"G21\nG0 X10 F600");
    let builder = SnapshotBuilder::new()
        .bed_thermal_model(bed_model())
        .tools_thermal_model(bed_model());
    let (_, entries) = GCodeSimulator.simulate(&program, builder);
    assert_eq!(entries[0].snapshot.before.position().x_um, 0);
    assert_eq!(entries[1].snapshot.after.position().x_um, 10_000);
    // the second snapshot starts from the first snapshot's outcome
    assert_eq!(
        entries[1].snapshot.before.position().x_um,
        entries[0].snapshot.after.position().x_um,
    );
}

#[test]
fn snapshot_interpolation_tracks_the_motion() {
    let before = MachineState::default();
    let program = GCodeProgram::new(b"G0 X10 F600");
    let (after, motion) = before.execute(&program.stack()[0]);
    let builder = SnapshotBuilder::new()
        .bed_thermal_model(bed_model())
        .tools_thermal_model(bed_model());
    let snapshot = builder.build(before.snapshot(), after.snapshot(), motion);
    assert!(snapshot.duration_ms > 0);
    let (mid, _) = snapshot.interpolate(500);
    assert!(mid.x_um > 0 && mid.x_um < 10_000);
    let (end, thermal) = snapshot.interpolate(1000);
    assert_eq!(end.x_um, 10_000);
    assert_eq!(thermal.tool_temps_mc.len(), 0);
}
