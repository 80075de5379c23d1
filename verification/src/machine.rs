//! The machine state and the pure command-execution function.
//!
//! `execute` maps `(state, command)` to `(next state, optional motion)`;
//! its result is pinned to the spec-level transition `spec_execute`, a
//! function of the arguments alone, so two executions of the same command
//! on the same state cannot differ.

use vstd::prelude::*;

use crate::code::{GCode, Mnemonic};
use crate::metric::{
    clamp_to, div_tz, spec_dist_um, ActivePlane, Distance, Position, PositionMode, Speed, Units,
    DIST_LIMIT_UM, SPEED_LIMIT_UM_S,
};
use crate::motion::MotionProfile;

verus! {

/// Largest heater temperature magnitude, in thousandths of a degree C.
pub const TEMP_LIMIT_MC: i64 = 1_000_000_000;

/// Most tools a machine state will carry.
pub const MAX_TOOLS: usize = 256;

/// Which axes have been homed since power-up.
#[derive(Debug, Clone, Copy, PartialEq, Eq, Structural)]
pub struct HomedAxes {
    pub x: bool,
    pub y: bool,
    pub z: bool,
}

impl Default for HomedAxes {
    /// No axis is homed at power-up.
    fn default() -> (r: Self)
        ensures
            r == (HomedAxes { x: false, y: false, z: false }),
    {
        HomedAxes { x: false, y: false, z: false }
    }
}

/// A heater's temperature in thousandths of a degree C; a missing target
/// means the heater is not heating.
#[derive(Debug, Clone, Copy)]
pub struct HeaterState {
    pub current_mc: i64,
    pub target_mc: Option<i64>,
}

impl HeaterState {
    /// Temperatures lie within the working range.
    pub open spec fn wf(self) -> bool {
        &&& -TEMP_LIMIT_MC <= self.current_mc <= TEMP_LIMIT_MC
        &&& match self.target_mc {
            Some(t) => -TEMP_LIMIT_MC <= t <= TEMP_LIMIT_MC,
            None => true,
        }
    }

    pub fn new(current_mc: i64, target_mc: Option<i64>) -> (r: Self)
        requires
            -TEMP_LIMIT_MC <= current_mc <= TEMP_LIMIT_MC,
            match target_mc {
                Some(t) => -TEMP_LIMIT_MC <= t <= TEMP_LIMIT_MC,
                None => true,
            },
        ensures
            r == (HeaterState { current_mc, target_mc }),
            r.wf(),
    {
        HeaterState { current_mc, target_mc }
    }

    pub fn current_temp(&self) -> (r: i64)
        ensures
            r == self.current_mc,
    {
        self.current_mc
    }

    pub fn target_temp(&self) -> (r: Option<i64>)
        ensures
            r == self.target_mc,
    {
        self.target_mc
    }
}

impl Default for HeaterState {
    /// Cold and not heating.
    fn default() -> (r: Self)
        ensures
            r == (HeaterState { current_mc: 0, target_mc: None }),
            r.wf(),
    {
        HeaterState { current_mc: 0, target_mc: None }
    }
}

/// One tool: its accumulated extrusion and its heater.
#[derive(Debug, Clone, Copy)]
pub struct ToolState {
    pub extrusion: Distance,
    pub heater: HeaterState,
}

impl ToolState {
    pub open spec fn wf(self) -> bool {
        self.extrusion.wf() && self.heater.wf()
    }

    pub fn extrusion(&self) -> (r: Distance)
        ensures
            r == self.extrusion,
    {
        self.extrusion
    }

    pub fn heater_state(&self) -> (r: HeaterState)
        ensures
            r == self.heater,
    {
        self.heater
    }
}

impl Default for ToolState {
    /// No extrusion yet, heater cold and off.
    fn default() -> (r: Self)
        ensures
            r == (ToolState {
                extrusion: Distance { um: 0 },
                heater: HeaterState { current_mc: 0, target_mc: None },
            }),
            r.wf(),
    {
        ToolState {
            extrusion: Distance { um: 0 },
            heater: HeaterState { current_mc: 0, target_mc: None },
        }
    }
}

/// A fan and its commanded speed, 0..=255.
#[derive(Debug, Clone, Copy, PartialEq, Eq, Structural)]
pub struct FanState {
    pub speed: u8,
}

impl FanState {
    pub fn speed(&self) -> (r: u8)
        ensures
            r == self.speed,
    {
        self.speed
    }
}

impl Default for FanState {
    fn default() -> (r: Self)
        ensures
            r == (FanState { speed: 0 }),
    {
        FanState { speed: 0 }
    }
}

/// The mathematical image of a machine state: as the machine, with the
/// tool and fan tables as sequences.
#[verifier::ext_equal]
pub ghost struct MachineView {
    pub units: Units,
    pub axes: Position,
    pub feedrate: Speed,
    pub homed: HomedAxes,
    pub active_plane: ActivePlane,
    pub positioning: PositionMode,
    pub extrusion_positioning: PositionMode,
    pub active_tool: int,
    pub tools: Seq<ToolState>,
    pub fans: Seq<FanState>,
    pub cooling_fan: FanState,
    pub bed_temp: HeaterState,
}

/// The modal state of the machine between commands.
#[derive(Debug, Clone)]
pub struct MachineState {
    pub units: Units,
    pub axes: Position,
    pub feedrate: Speed,
    pub homed: HomedAxes,
    pub active_plane: ActivePlane,
    pub positioning: PositionMode,
    pub extrusion_positioning: PositionMode,
    pub active_tool: u8,
    pub tools: Vec<ToolState>,
    pub fans: Vec<FanState>,
    pub cooling_fan: FanState,
    pub bed_temp: HeaterState,
}

impl View for MachineState {
    type V = MachineView;

    open spec fn view(&self) -> MachineView {
        MachineView {
            units: self.units,
            axes: self.axes,
            feedrate: self.feedrate,
            homed: self.homed,
            active_plane: self.active_plane,
            positioning: self.positioning,
            extrusion_positioning: self.extrusion_positioning,
            active_tool: self.active_tool as int,
            tools: self.tools@,
            fans: self.fans@,
            cooling_fan: self.cooling_fan,
            bed_temp: self.bed_temp,
        }
    }
}

impl MachineView {
    /// Geometry and temperatures are in range, and the active tool index
    /// addresses a tool whenever any tool exists.
    pub open spec fn wf(self) -> bool {
        &&& self.axes.wf()
        &&& self.feedrate.wf()
        &&& self.bed_temp.wf()
        &&& 0 <= self.active_tool < 256
        &&& self.tools.len() <= MAX_TOOLS
        &&& forall|k: int| 0 <= k < self.tools.len() ==> (#[trigger] self.tools[k]).wf()
        &&& self.tools.len() > 0 ==> self.active_tool < self.tools.len()
    }
}

impl MachineState {
    /// The state's mathematical image is well formed.
    pub open spec fn wf(self) -> bool {
        self@.wf()
    }

    pub fn position(&self) -> (r: Position)
        ensures
            r == self.axes,
    {
        self.axes
    }

    pub fn plane(&self) -> (r: ActivePlane)
        ensures
            r == self.active_plane,
    {
        self.active_plane
    }

    pub fn bed_heater(&self) -> (r: HeaterState)
        ensures
            r == self.bed_temp,
    {
        self.bed_temp
    }

    pub fn tools(&self) -> (r: &Vec<ToolState>)
        ensures
            r == &self.tools,
    {
        &self.tools
    }

    pub fn current_tool(&self) -> (r: &ToolState)
        requires
            self.wf(),
            self.tools@.len() > 0,
        ensures
            r == &self.tools@[self.active_tool as int],
    {
        &self.tools[self.active_tool as usize]
    }

    /// An identical copy of the state.
    pub fn snapshot(&self) -> (r: Self)
        ensures
            r@ == self@,
    {
        MachineState {
            units: self.units,
            axes: self.axes,
            feedrate: self.feedrate,
            homed: self.homed,
            active_plane: self.active_plane,
            positioning: self.positioning,
            extrusion_positioning: self.extrusion_positioning,
            active_tool: self.active_tool,
            tools: copy_tools(&self.tools),
            fans: copy_fans(&self.fans),
            cooling_fan: self.cooling_fan,
            bed_temp: self.bed_temp,
        }
    }

    /// A fresh machine with `n` default tools, clamped to `MAX_TOOLS`.
    pub fn with_tools(n: usize) -> (r: Self)
        ensures
            r.wf(),
            r.units == Units::Millimeters,
            r.axes == (Position { x_um: 0, y_um: 0, z_um: 0 }),
            r.positioning == PositionMode::Relative,
            r.extrusion_positioning == PositionMode::Relative,
            r.homed == (HomedAxes { x: false, y: false, z: false }),
            r.feedrate.um_s == 0,
            r.active_tool == 0,
            r.fans@.len() == 0,
            r.active_plane == ActivePlane::XY,
            r.cooling_fan == (FanState { speed: 0 }),
            r.bed_temp == (HeaterState { current_mc: 0, target_mc: None }),
            r.tools@.len() == (if n <= MAX_TOOLS {
                n as int
            } else {
                MAX_TOOLS as int
            }),
            forall|k: int|
                0 <= k < r.tools@.len() ==> (#[trigger] r.tools@[k]) == (ToolState {
                    extrusion: Distance { um: 0 },
                    heater: HeaterState { current_mc: 0, target_mc: None },
                }),
    {
        let count = if n <= MAX_TOOLS {
            n
        } else {
            MAX_TOOLS
        };
        let mut tools: Vec<ToolState> = Vec::new();
        let mut i: usize = 0;
        while i < count
            invariant
                0 <= i <= count <= MAX_TOOLS,
                tools@.len() == i,
                forall|k: int|
                    0 <= k < i ==> (#[trigger] tools@[k]) == (ToolState {
                        extrusion: Distance { um: 0 },
                        heater: HeaterState { current_mc: 0, target_mc: None },
                    }),
            decreases count - i,
        {
            tools.push(ToolState::default());
            i = i + 1;
        }
        MachineState {
            units: Units::Millimeters,
            axes: Position { x_um: 0, y_um: 0, z_um: 0 },
            feedrate: Speed { um_s: 0 },
            homed: HomedAxes { x: false, y: false, z: false },
            active_plane: ActivePlane::XY,
            positioning: PositionMode::Relative,
            extrusion_positioning: PositionMode::Relative,
            active_tool: 0,
            tools,
            fans: Vec::new(),
            cooling_fan: FanState { speed: 0 },
            bed_temp: HeaterState { current_mc: 0, target_mc: None },
        }
    }
}

/// The view of a machine fresh from power-up: no tools, origin, metric,
/// relative positioning.
pub open spec fn default_machine_view() -> MachineView {
    MachineView {
        units: Units::Millimeters,
        axes: Position { x_um: 0, y_um: 0, z_um: 0 },
        feedrate: Speed { um_s: 0 },
        homed: HomedAxes { x: false, y: false, z: false },
        active_plane: ActivePlane::XY,
        positioning: PositionMode::Relative,
        extrusion_positioning: PositionMode::Relative,
        active_tool: 0,
        tools: Seq::empty(),
        fans: Seq::empty(),
        cooling_fan: FanState { speed: 0 },
        bed_temp: HeaterState { current_mc: 0, target_mc: None },
    }
}

impl Default for MachineState {
    /// A machine with no tools, at the origin, in millimetres and
    /// relative positioning.
    fn default() -> (r: Self)
        ensures
            r.wf(),
            r@ == default_machine_view(),
            r.units == Units::Millimeters,
            r.axes == (Position { x_um: 0, y_um: 0, z_um: 0 }),
            r.positioning == PositionMode::Relative,
            r.extrusion_positioning == PositionMode::Relative,
            r.homed == (HomedAxes { x: false, y: false, z: false }),
            r.tools@.len() == 0,
            r.fans@.len() == 0,
            r.feedrate.um_s == 0,
            r.bed_temp == (HeaterState { current_mc: 0, target_mc: None }),
    {
        let r = MachineState::with_tools(0);
        proof {
            assert(r@ =~~= default_machine_view());
        }
        r
    }
}

/// Copy a tool table element by element.
fn copy_tools(v: &Vec<ToolState>) -> (r: Vec<ToolState>)
    ensures
        r@ == v@,
{
    let mut out: Vec<ToolState> = Vec::new();
    let mut i: usize = 0;
    while i < v.len()
        invariant
            0 <= i <= v@.len(),
            out@ == v@.take(i as int),
        decreases v@.len() - i,
    {
        out.push(v[i]);
        proof {
            assert(v@.take(i + 1) =~= v@.take(i as int).push(v@[i as int]));
        }
        i = i + 1;
    }
    proof {
        assert(v@.take(v@.len() as int) =~= v@);
    }
    out
}

/// Copy a fan table element by element.
fn copy_fans(v: &Vec<FanState>) -> (r: Vec<FanState>)
    ensures
        r@ == v@,
{
    let mut out: Vec<FanState> = Vec::new();
    let mut i: usize = 0;
    while i < v.len()
        invariant
            0 <= i <= v@.len(),
            out@ == v@.take(i as int),
        decreases v@.len() - i,
    {
        out.push(v[i]);
        proof {
            assert(v@.take(i + 1) =~= v@.take(i as int).push(v@[i as int]));
        }
        i = i + 1;
    }
    proof {
        assert(v@.take(v@.len() as int) =~= v@);
    }
    out
}

/// Apply a coordinate word under a positioning mode: replace under
/// `Absolute`, offset (clamped) under `Relative`.
pub open spec fn spec_apply_coord(cur: int, v: int, mode: PositionMode) -> int {
    match mode {
        PositionMode::Absolute => v,
        PositionMode::Relative => clamp_to(cur + v, DIST_LIMIT_UM as int),
    }
}

/// The move a `G0`/`G1` command produces: `E` extrudes on the current
/// tool in millimetres, `F` sets the feedrate from units per minute,
/// `X`/`Y`/`Z` translate under the positioning mode and current units.
pub open spec fn spec_apply_move(s: MachineView, g: GCode) -> MachineView {
    let tools = match g.spec_value_for(69u8) {  // 'E'
        Some(e) => if s.tools.len() > 0 {
            let t = s.tools[s.active_tool];
            s.tools.update(
                s.active_tool,
                ToolState {
                    extrusion: Distance {
                        um: spec_apply_coord(
                            t.extrusion.um as int,
                            clamp_to(e as int, DIST_LIMIT_UM as int),
                            s.positioning,
                        ) as i64,
                    },
                    heater: t.heater,
                },
            )
        } else {
            s.tools
        },
        None => s.tools,
    };
    let feed = match g.spec_value_for(70u8) {  // 'F'
        Some(f) => Speed {
            um_s: clamp_to(
                div_tz(spec_dist_um(f as int, s.units) * 1000, 60000),
                SPEED_LIMIT_UM_S as int,
            ) as i64,
        },
        None => s.feedrate,
    };
    let x = match g.spec_value_for(88u8) {  // 'X'
        Some(v) => spec_apply_coord(
            s.axes.x_um as int,
            spec_dist_um(v as int, s.units),
            s.positioning,
        ) as i64,
        None => s.axes.x_um,
    };
    let y = match g.spec_value_for(89u8) {  // 'Y'
        Some(v) => spec_apply_coord(
            s.axes.y_um as int,
            spec_dist_um(v as int, s.units),
            s.positioning,
        ) as i64,
        None => s.axes.y_um,
    };
    let z = match g.spec_value_for(90u8) {  // 'Z'
        Some(v) => spec_apply_coord(
            s.axes.z_um as int,
            spec_dist_um(v as int, s.units),
            s.positioning,
        ) as i64,
        None => s.axes.z_um,
    };
    MachineView { tools, feedrate: feed, axes: Position { x_um: x, y_um: y, z_um: z }, ..s }
}

/// The transition function of the machine: what `execute` returns.
#[verifier::opaque]
pub open spec fn spec_execute(s: MachineView, g: GCode) -> (MachineView, Option<MotionProfile>) {
    match g.mnemonic {
        Mnemonic::General => {
            if g.major == 20 {
                (MachineView { units: Units::Inches, ..s }, None)
            } else if g.major == 21 {
                (MachineView { units: Units::Millimeters, ..s }, None)
            } else if g.major == 90 {
                (MachineView { positioning: PositionMode::Absolute, ..s }, None)
            } else if g.major == 91 {
                (MachineView { positioning: PositionMode::Relative, ..s }, None)
            } else if g.major == 28 {
                (
                    MachineView {
                        axes: Position { x_um: 0, y_um: 0, z_um: 0 },
                        homed: HomedAxes { x: true, y: true, z: true },
                        ..s
                    },
                    Some(MotionProfile::Instant),
                )
            } else if g.major == 0 || g.major == 1 {
                let next = spec_apply_move(s, g);
                (next, Some(MotionProfile::ConstantVelocity(next.feedrate)))
            } else {
                (s, None)
            }
        },
        Mnemonic::Miscellaneous => {
            if g.major == 82 {
                (MachineView { extrusion_positioning: PositionMode::Absolute, ..s }, None)
            } else if g.major == 83 {
                (MachineView { extrusion_positioning: PositionMode::Relative, ..s }, None)
            } else {
                (s, None)
            }
        },
        Mnemonic::ToolChange => {
            if s.tools.len() == 0 {
                (s, None)
            } else {
                let idx = if g.major as int >= s.tools.len() {
                    s.tools.len() - 1
                } else {
                    g.major as int
                };
                (MachineView { active_tool: idx, ..s }, None)
            }
        },
        Mnemonic::ProgramNumber => (s, None),
    }
}

impl MachineState {
    /// Execute one command: a pure transition returning the next state
    /// and, for motion commands, the motion's profile.  The result is
    /// fully determined by the state and command, which is the machine's
    /// determinism guarantee.
    pub fn execute(&self, gcode: &GCode) -> (r: (MachineState, Option<MotionProfile>))
        requires
            self.wf(),
        ensures
            r.0@ == spec_execute(self@, *gcode).0,
            r.1 == spec_execute(self@, *gcode).1,
            r.0.wf(),
    {
        proof {
            reveal(spec_execute);
        }
        let mut next = self.snapshot();
        let mut motion: Option<MotionProfile> = None;
        match gcode.mnemonic {
            Mnemonic::General => {
                if gcode.major == 20 {
                    next.units = Units::Inches;
                } else if gcode.major == 21 {
                    next.units = Units::Millimeters;
                } else if gcode.major == 90 {
                    next.positioning = PositionMode::Absolute;
                } else if gcode.major == 91 {
                    next.positioning = PositionMode::Relative;
                } else if gcode.major == 28 {
                    next.axes = Position { x_um: 0, y_um: 0, z_um: 0 };
                    next.homed = HomedAxes { x: true, y: true, z: true };
                    motion = Some(MotionProfile::Instant);
                } else if gcode.major == 0 || gcode.major == 1 {
                    next = self.apply_move(gcode, next);
                    motion = Some(MotionProfile::ConstantVelocity(next.feedrate));
                }
            },
            Mnemonic::Miscellaneous => {
                if gcode.major == 82 {
                    next.extrusion_positioning = PositionMode::Absolute;
                } else if gcode.major == 83 {
                    next.extrusion_positioning = PositionMode::Relative;
                }
            },
            Mnemonic::ToolChange => {
                if next.tools.len() > 0 {
                    let last = next.tools.len() - 1;
                    if gcode.major as usize >= next.tools.len() {
                        next.active_tool = last as u8;
                    } else {
                        next.active_tool = gcode.major as u8;
                    }
                }
            },
            Mnemonic::ProgramNumber => {},
        }
        proof {
            assert(next@ =~= spec_execute(self@, *gcode).0);
        }
        (next, motion)
    }

    /// Apply the argument words of a `G0`/`G1` to a copy of the state.
    #[verifier::rlimit(100)]
    #[verifier::spinoff_prover]
    fn apply_move(&self, gcode: &GCode, start: MachineState) -> (r: MachineState)
        requires
            self.wf(),
            start@ == self@,
        ensures
            r@ == spec_apply_move(self@, *gcode),
            r.wf(),
    {
        let mut next = start;
        let units = next.units;
        let mode = next.positioning;
        if let Some(e) = gcode.value_for(69u8) {
            if next.tools.len() > 0 {
                let idx = next.active_tool as usize;
                let tool = next.tools[idx];
                let dist = Distance::from_mm_e3(e);
                let new_ext = match mode {
                    PositionMode::Absolute => dist,
                    PositionMode::Relative => tool.extrusion.add(dist),
                };
                next.tools.set(idx, ToolState { extrusion: new_ext, heater: tool.heater });
            }
        }
        if let Some(f) = gcode.value_for(70u8) {
            let dist = Distance::new(f, &units);
            next.feedrate = Speed::from_distance_time(dist, 60000);
        }
        if let Some(x) = gcode.value_for(88u8) {
            let dx = Distance::new(x, &units);
            next.axes.translate_x(dx, &mode);
        }
        if let Some(y) = gcode.value_for(89u8) {
            let dy = Distance::new(y, &units);
            next.axes.translate_y(dy, &mode);
        }
        if let Some(z) = gcode.value_for(90u8) {
            let dz = Distance::new(z, &units);
            next.axes.translate_z(dz, &mode);
        }
        proof {
            let exp = spec_apply_move(self@, *gcode);
            assert(next.tools@ =~= exp.tools);
            assert(next.axes == exp.axes);
            assert(next.feedrate == exp.feedrate);
            assert(next@ =~= exp);
        }
        next
    }
}

/// Executing the same command on equal states yields equal outcomes:
/// the transition is a function of its inputs alone.
pub proof fn lemma_execute_deterministic(a: MachineView, b: MachineView, g: GCode)
    requires
        a == b,
    ensures
        spec_execute(a, g) == spec_execute(b, g),
{
}

} // verus!
