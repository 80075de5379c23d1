use printctl::machine::MachineState;
use printctl::metric::PositionMode;
use printctl::motion::MotionProfile;
use printctl::program::GCodeProgram;

fn run(src: &[u8]) -> Vec<(MachineState, Option<MotionProfile>)> {
    let program = GCodeProgram::new(src);
    let mut state = MachineState::default();
    let mut out = Vec::new();
    for gcode in program.stack().iter() {
        let (next, motion) = state.execute(gcode);
        out.push((next.snapshot(), motion));
        state = next;
    }
    out
}

#[test]
fn unit_switch_round_trip_moves_in_the_declared_units() {
    let steps = run(b"G21\nG0 X10\nG20\nG0 X1");
    // after the second command the position is 10 mm
    assert_eq!(steps[1].0.position().x_um, 10_000);
    // after the fourth it has moved one more inch: 35.4 mm
    assert_eq!(steps[3].0.position().x_um, 35_400);
}

#[test]
fn auto_home_resets_position_and_homes_every_axis() {
    let steps = run(b"G90\nG0 X50 Y50 Z5\nG28");
    let before = &steps[1].0;
    assert_eq!(before.position().x_um, 50_000);
    assert_eq!(before.position().y_um, 50_000);
    assert_eq!(before.position().z_um, 5_000);
    let (homed, motion) = &steps[2];
    assert_eq!(homed.position().x_um, 0);
    assert_eq!(homed.position().y_um, 0);
    assert_eq!(homed.position().z_um, 0);
    assert!(homed.homed.x && homed.homed.y && homed.homed.z);
    assert!(matches!(motion, Some(MotionProfile::Instant)));
}

#[test]
fn feedrate_comes_from_units_per_minute() {
    let steps = run(b"G0 F1800");
    // 1800 mm/min is 30 mm/s
    assert_eq!(steps[0].0.feedrate.um_s, 30_000);
    assert!(matches!(steps[0].1, Some(MotionProfile::ConstantVelocity(_))));
}

#[test]
fn relative_move_without_axes_still_emits_motion() {
    let steps = run(b"G91\nG1");
    assert!(matches!(steps[1].1, Some(MotionProfile::ConstantVelocity(_))));
    assert_eq!(steps[1].0.position().x_um, 0);
}

#[test]
fn absolute_and_relative_positioning_differ() {
    let steps = run(b"G90\nG0 X10\nG0 X10\nG91\nG0 X10");
    assert_eq!(steps[2].0.position().x_um, 10_000);
    assert_eq!(steps[4].0.position().x_um, 20_000);
}

#[test]
fn tool_change_clamps_to_the_last_tool() {
    let state = MachineState::with_tools(2);
    let program = GCodeProgram::new(b"T5");
    let (next, motion) = state.execute(&program.stack()[0]);
    assert_eq!(next.active_tool, 1);
    assert!(motion.is_none());
    let program0 = GCodeProgram::new(b"T0");
    let (back, _) = next.execute(&program0.stack()[0]);
    assert_eq!(back.active_tool, 0);
}

#[test]
fn extrusion_applies_to_the_current_tool_in_millimetres() {
    let state = MachineState::with_tools(1);
    let program = GCodeProgram::new(b"G91\nG1 E5\nG1 E5");
    let (s1, _) = state.execute(&program.stack()[0]);
    let (s2, _) = s1.execute(&program.stack()[1]);
    let (s3, _) = s2.execute(&program.stack()[2]);
    assert_eq!(s3.current_tool().extrusion().um, 10_000);
}

#[test]
fn unknown_commands_leave_the_state_unchanged() {
    let steps = run(b"G4 P200\nM117 hello");
    assert_eq!(steps[1].0.position().x_um, 0);
    assert!(steps[0].1.is_none());
    assert!(steps[1].1.is_none());
}

#[test]
fn extrusion_mode_flags_follow_m_codes() {
    let steps = run(b"M82\nM83");
    assert_eq!(steps[0].0.extrusion_positioning, PositionMode::Absolute);
    assert_eq!(steps[1].0.extrusion_positioning, PositionMode::Relative);
}
