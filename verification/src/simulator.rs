//! Fold a program through the machine into a timeline of snapshots.
//!
//! The entries' time ranges partition `[0, total)` without gaps: each
//! entry starts where the one before it ended, and the total duration is
//! the sum of the snapshot durations.

use vstd::prelude::*;

use crate::code::GCode;
use crate::machine::{default_machine_view, spec_execute, MachineState};
use crate::program::GCodeProgram;
use crate::snapshot::{Snapshot, SnapshotBuilder};
use crate::thermal::ThermalModel;

verus! {

/// A snapshot placed on the timeline: its half-open time range in
/// milliseconds.
#[derive(Debug, Clone)]
pub struct SnapshotEntry<B: ThermalModel, T: ThermalModel> {
    pub start_ms: u128,
    pub end_ms: u128,
    pub snapshot: Snapshot<B, T>,
}

impl<B: ThermalModel, T: ThermalModel> SnapshotEntry<B, T> {
    /// The range covers exactly the snapshot's duration.
    pub open spec fn wf(self) -> bool {
        &&& self.snapshot.wf()
        &&& self.end_ms == self.start_ms + self.snapshot.duration_ms
    }

    /// Place a snapshot at `start_ms`.
    pub fn new(start_ms: u128, snapshot: Snapshot<B, T>) -> (r: Self)
        requires
            snapshot.wf(),
            start_ms + snapshot.duration_ms <= u128::MAX,
        ensures
            r.wf(),
            r.start_ms == start_ms,
            r.snapshot == snapshot,
            r.end_ms == start_ms + snapshot.duration_ms,
    {
        let end_ms = start_ms + (snapshot.duration_ms as u128);
        SnapshotEntry { start_ms, end_ms, snapshot }
    }

    pub fn time_range(&self) -> (r: (u128, u128))
        ensures
            r.0 == self.start_ms,
            r.1 == self.end_ms,
    {
        (self.start_ms, self.end_ms)
    }

    pub fn start_time(&self) -> (r: u128)
        ensures
            r == self.start_ms,
    {
        self.start_ms
    }

    pub fn end_time(&self) -> (r: u128)
        ensures
            r == self.end_ms,
    {
        self.end_ms
    }

    pub fn duration(&self) -> (r: u128)
        requires
            self.start_ms <= self.end_ms,
        ensures
            r == self.end_ms - self.start_ms,
    {
        self.end_ms - self.start_ms
    }
}

/// A deep well-formedness mark for a timeline entry, kept opaque so
/// that reasoning about a timeline's shape does not unfold the whole
/// snapshot structure.
#[verifier::opaque]
pub open spec fn entry_deep_ok<B: ThermalModel, T: ThermalModel>(e: SnapshotEntry<B, T>) -> bool {
    e.snapshot.wf()
}

/// What the opaque deep mark stands for.
pub proof fn lemma_entry_deep_ok<B: ThermalModel, T: ThermalModel>(e: SnapshotEntry<B, T>)
    requires
        entry_deep_ok(e),
    ensures
        e.snapshot.wf(),
{
    reveal(entry_deep_ok);
}

/// One link of the execution chain, opaque to keep timeline reasoning
/// small: the entry starts from `prev` and ends at `execute(prev, g)`.
#[verifier::opaque]
pub open spec fn entry_follows<B: ThermalModel, T: ThermalModel>(
    e: SnapshotEntry<B, T>,
    prev: crate::machine::MachineView,
    g: GCode,
) -> bool {
    e.snapshot.before@ == prev && e.snapshot.after@ == spec_execute(prev, g).0
}

/// What the opaque chain link stands for.
pub proof fn lemma_entry_follows<B: ThermalModel, T: ThermalModel>(
    e: SnapshotEntry<B, T>,
    prev: crate::machine::MachineView,
    g: GCode,
)
    requires
        entry_follows(e, prev, g),
    ensures
        e.snapshot.before@ == prev,
        e.snapshot.after@ == spec_execute(prev, g).0,
{
    reveal(entry_follows);
}

/// The timeline is a contiguous partition of `[0, total)`: each entry
/// spans exactly its snapshot's duration, the first starts at zero,
/// every entry starts where its predecessor ended, and the last ends at
/// `total`.
pub open spec fn spec_timeline_contiguous<B: ThermalModel, T: ThermalModel>(
    entries: Seq<SnapshotEntry<B, T>>,
    total: int,
) -> bool {
    &&& forall|i: int|
        0 <= i < entries.len() ==> (#[trigger] entries[i]).end_ms == entries[i].start_ms
            + entries[i].snapshot.duration_ms
    &&& entries.len() > 0 ==> entries[0].start_ms == 0
    &&& forall|i: int|
        0 <= i && i + 1 < entries.len() ==> (#[trigger] entries[i]).end_ms == entries[
            i + 1
        ].start_ms
    &&& entries.len() > 0 ==> entries[entries.len() - 1].end_ms == total
    &&& entries.len() == 0 ==> total == 0
}

/// Sum of the snapshot durations of the first `n` entries.
pub open spec fn spec_duration_sum<B: ThermalModel, T: ThermalModel>(
    entries: Seq<SnapshotEntry<B, T>>,
    n: int,
) -> int
    decreases n,
{
    if n <= 0 {
        0
    } else {
        spec_duration_sum(entries, n - 1) + entries[n - 1].snapshot.duration_ms
    }
}

/// On a contiguous timeline the total duration is the sum of the
/// snapshot durations.
#[verifier::rlimit(100)]
pub proof fn lemma_contiguous_sum<B: ThermalModel, T: ThermalModel>(
    entries: Seq<SnapshotEntry<B, T>>,
    total: int,
)
    requires
        spec_timeline_contiguous(entries, total),
    ensures
        spec_duration_sum(entries, entries.len() as int) == total,
{
    lemma_prefix_sum(entries, entries.len() as int);
}

/// The sum of the first `n` durations equals the `n`-th boundary.
proof fn lemma_prefix_sum<B: ThermalModel, T: ThermalModel>(
    entries: Seq<SnapshotEntry<B, T>>,
    n: int,
)
    requires
        forall|i: int|
            0 <= i < entries.len() ==> (#[trigger] entries[i]).end_ms == entries[i].start_ms
                + entries[i].snapshot.duration_ms,
        entries.len() > 0 ==> entries[0].start_ms == 0,
        forall|i: int|
            0 <= i && i + 1 < entries.len() ==> (#[trigger] entries[i]).end_ms == entries[
                i + 1
            ].start_ms,
        0 <= n <= entries.len(),
    ensures
        n > 0 ==> spec_duration_sum(entries, n) == entries[n - 1].end_ms,
        n == 0 ==> spec_duration_sum(entries, n) == 0,
    decreases n,
{
    if n > 0 {
        lemma_prefix_sum(entries, n - 1);
    }
}

/// The simulator: executes a program's stack from the default machine
/// state, one snapshot per command.
#[derive(Debug, Clone, Copy, PartialEq, Eq, Structural)]
pub struct GCodeSimulator;

impl Default for GCodeSimulator {
    fn default() -> (r: Self)
        ensures
            r == GCodeSimulator,
    {
        GCodeSimulator
    }
}

impl GCodeSimulator {
    /// One step of the fold: execute a command, wrap it into an entry
    /// starting at `time_elapsed`, and hand back the next state.
    fn sim_step<B: ThermalModel, T: ThermalModel>(
        state: MachineState,
        gcode: &GCode,
        snapshot_builder: &SnapshotBuilder<B, T>,
        time_elapsed: u128,
    ) -> (r: (SnapshotEntry<B, T>, MachineState))
        requires
            state.wf(),
            snapshot_builder.bed_thermal_model.wf(),
            snapshot_builder.tools_thermal_model.wf(),
            time_elapsed <= 340_282_366_920_938_463_426_481_119_284_349_108_225u128,
        ensures
            r.0.wf(),
            r.1.wf(),
            r.0.start_ms == time_elapsed,
            r.0.snapshot.before@ == state@,
            r.0.snapshot.after@ == spec_execute(state@, *gcode).0,
            r.1@ == spec_execute(state@, *gcode).0,
            r.0.end_ms == time_elapsed + r.0.snapshot.duration_ms,
    {
        let (next, motion) = state.execute(gcode);
        let after = next.snapshot();
        let snapshot = snapshot_builder.build(state, after, motion);
        let entry = SnapshotEntry::new(time_elapsed, snapshot);
        (entry, next)
    }

    /// Run every command of the program in order from the default
    /// machine state.  The result is the total duration and one entry
    /// per command; the entries' ranges tile `[0, total)` contiguously,
    /// and each entry's states follow the execution chain: its `before`
    /// is its predecessor's `after`, and its `after` is `execute` of its
    /// command on its `before`.
    #[verifier::rlimit(100)]
    #[verifier::spinoff_prover]
    pub fn simulate<B: ThermalModel, T: ThermalModel>(
        &self,
        program: &GCodeProgram,
        snapshot_builder: SnapshotBuilder<B, T>,
    ) -> (r: (u128, Vec<SnapshotEntry<B, T>>))
        requires
            snapshot_builder.bed_thermal_model.wf(),
            snapshot_builder.tools_thermal_model.wf(),
        ensures
            r.1@.len() == program.stack@.len(),
            spec_timeline_contiguous(r.1@, r.0 as int),
            forall|i: int| 0 <= i < r.1@.len() ==> #[trigger] entry_deep_ok(r.1@[i]),
            r.1@.len() > 0 ==> entry_follows(
                r.1@[0],
                default_machine_view(),
                program.stack@[0],
            ),
            forall|i: int|
                0 < i < r.1@.len() ==> #[trigger] entry_follows(
                    r.1@[i],
                    r.1@[i - 1].snapshot.after@,
                    program.stack@[i],
                ),

    {
        let mut time_elapsed: u128 = 0;
        let mut state = MachineState::default();
        let mut snapshots: Vec<SnapshotEntry<B, T>> = Vec::new();
        let mut i: usize = 0;
        proof {
            assert(state@ == default_machine_view());
        }
        while i < program.stack.len()
            invariant
                0 <= i <= program.stack@.len(),
                snapshot_builder.bed_thermal_model.wf(),
                snapshot_builder.tools_thermal_model.wf(),
                state.wf(),
                snapshots@.len() == i,
                forall|k: int|
                    0 <= k < i ==> (#[trigger] snapshots@[k]).end_ms == snapshots@[k].start_ms
                        + snapshots@[k].snapshot.duration_ms,
                i > 0 ==> snapshots@[0].start_ms == 0,
                forall|k: int|
                    0 <= k && k + 1 < i ==> (#[trigger] snapshots@[k]).end_ms == snapshots@[
                        k + 1
                    ].start_ms,
                i > 0 ==> snapshots@[i - 1].end_ms == time_elapsed,
                i == 0 ==> time_elapsed == 0,
                time_elapsed <= (i as int) * 0xffff_ffff_ffff_ffffu128,
                forall|k: int| 0 <= k < i ==> #[trigger] entry_deep_ok(snapshots@[k]),
                i > 0 ==> entry_follows(
                    snapshots@[0],
                    default_machine_view(),
                    program.stack@[0],
                ),
                forall|k: int|
                    0 < k < i ==> #[trigger] entry_follows(
                        snapshots@[k],
                        snapshots@[k - 1].snapshot.after@,
                        program.stack@[k],
                    ),
                i > 0 ==> state@ == snapshots@[i - 1].snapshot.after@,
                i == 0 ==> state@ == default_machine_view(),
            decreases program.stack@.len() - i,
        {
            let gcode = &program.stack[i];
            proof {
                assert(time_elapsed <= 340_282_366_920_938_463_426_481_119_284_349_108_225u128)
                    by (nonlinear_arith)
                    requires
                        time_elapsed <= (i as int) * 0xffff_ffff_ffff_ffffu128,
                        0 <= i <= 0xffff_ffff_ffff_ffffu128,
                ;
            }
            let ghost prev_view = state@;
            let (entry, next) = Self::sim_step(state, gcode, &snapshot_builder, time_elapsed);
            proof {
                reveal(entry_follows);
                assert(entry_follows(entry, prev_view, program.stack@[i as int]));
                reveal(entry_deep_ok);
                assert(entry_deep_ok(entry));
            }
            time_elapsed = entry.end_time();
            snapshots.push(entry);
            state = next;
            i = i + 1;
        }
        (time_elapsed, snapshots)
    }
}

} // verus!
