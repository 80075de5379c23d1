//! First-order lumped heater dynamics on the integer kernel, and the
//! per-heater transitions built from a machine state.
//!
//! Temperatures are thousandths of a degree C, times milliseconds.  The
//! continuous decay `exp(-k t)` is represented by the rational kernel
//! `decay(x) = S^2 / (S + x + x^2/(2S))` on micro-scaled `x = k t`, which
//! is 1 at 0, strictly falls, and reaches 0; settle times invert it with
//! an integer square root.  Temperature is monotone toward the steady
//! point and reaches it, which is the shape the physics asks for.

use vstd::prelude::*;
use vstd::arithmetic::div_mod::{
    lemma_div_is_ordered, lemma_div_is_ordered_by_denominator, lemma_div_pos_is_pos,
};

use crate::machine::{HeaterState, MachineState, TEMP_LIMIT_MC};
use crate::metric::{div_tz, lemma_sqrt_floor_unique, spec_sqrt_floor};

verus! {

/// Micro scale of the decay kernel: `decay` runs from `DECAY_ONE` to 0.
pub const DECAY_ONE: i64 = 1_000_000;

/// Kernel argument at and beyond which the decay is zero.
pub const DECAY_X_CAP: i64 = 2_000_000_000;

/// Largest settle time the kernel returns, in milliseconds.
pub const SETTLE_LIMIT_MS: u64 = 2_000_000_000_000_000;

/// A heater model: temperature over time from an initial reading, and
/// the time to settle at a target.  Implementations fix the two spec
/// functions; the executable methods return exactly those values.
pub trait ThermalModel: Sized + Copy {
    /// Parameters lie in the model's working range.
    spec fn wf(&self) -> bool;

    /// Temperature after `t_ms` milliseconds, starting at `initial_mc`.
    spec fn spec_temperature(&self, initial_mc: int, t_ms: int) -> int;

    /// Milliseconds until `target_mc` is reached from `initial_mc`.
    spec fn spec_settle_ms(&self, initial_mc: int, target_mc: Option<i64>) -> int;

    /// Temperature at time `t` (milliseconds since transition start).
    fn temperature(&self, initial_mc: i64, t_ms: u64) -> (r: i64)
        requires
            self.wf(),
            -TEMP_LIMIT_MC <= initial_mc <= TEMP_LIMIT_MC,
        ensures
            r == self.spec_temperature(initial_mc as int, t_ms as int),
    ;

    /// How long until the target temperature is reached; zero without a
    /// target.
    fn settle_time(&self, initial_mc: i64, target_mc: Option<i64>) -> (r: u64)
        requires
            self.wf(),
            -TEMP_LIMIT_MC <= initial_mc <= TEMP_LIMIT_MC,
            match target_mc {
                Some(t) => -TEMP_LIMIT_MC <= t <= TEMP_LIMIT_MC,
                None => true,
            },
        ensures
            r == self.spec_settle_ms(initial_mc as int, target_mc),
            r <= SETTLE_LIMIT_MS,
            target_mc is None ==> r == 0,
    ;
}

/// Lumped heater: ambient temperature, heating power, loss coefficient
/// and heat capacity, all positive integers in milli units.
#[derive(Debug, Clone, Copy, PartialEq, Eq, Structural)]
pub struct LumpedThermalModel {
    /// Ambient temperature, thousandths of a degree C.
    pub ambient_mc: i64,
    /// Heater power, milliwatts.
    pub power_mw: i64,
    /// Loss coefficient, milliwatts per degree C.
    pub loss_mw_per_c: i64,
    /// Heat capacity, millijoules per degree C.
    pub heat_capacity_mj_per_c: i64,
}

impl LumpedThermalModel {
    /// Steady-state temperature: ambient plus power over loss.
    pub open spec fn steady_mc(self) -> int {
        self.ambient_mc + self.power_mw * 1000 / (self.loss_mw_per_c as int)
    }

    /// Decay rate `k`, in micro units per second.
    pub open spec fn k_micro(self) -> int {
        self.loss_mw_per_c * 1_000_000 / (self.heat_capacity_mj_per_c as int)
    }

    /// Kernel argument after `t_ms` milliseconds, capped.
    pub open spec fn x_of(self, t_ms: int) -> int {
        let x = self.k_micro() * t_ms / 1000;
        if x >= DECAY_X_CAP {
            DECAY_X_CAP as int
        } else {
            x
        }
    }
}

/// Truncating division for any nonzero divisor: the quotient of the
/// magnitudes, negated when the signs differ.
pub open spec fn div_tz_signed(a: int, b: int) -> int
    recommends
        b != 0,
{
    let q = (if a >= 0 {
        a
    } else {
        -a
    }) / (if b > 0 {
        b
    } else {
        -b
    });
    if (a >= 0) == (b > 0) {
        q
    } else {
        -q
    }
}

/// The rational decay kernel on micro-scaled arguments: `DECAY_ONE` at
/// zero, non-increasing, zero from `DECAY_X_CAP` on.
pub open spec fn spec_decay(x: int) -> int {
    if x >= DECAY_X_CAP {
        0
    } else {
        (DECAY_ONE * DECAY_ONE) / (DECAY_ONE + x + x * x / (2 * DECAY_ONE))
    }
}

/// The decay stays between zero and one (micro-scaled).
pub proof fn lemma_decay_bounds(x: int)
    requires
        x >= 0,
    ensures
        0 <= spec_decay(x) <= DECAY_ONE,
{
    if x < DECAY_X_CAP {
        let d = DECAY_ONE + x + x * x / (2 * DECAY_ONE);
        assert(x * x >= 0) by (nonlinear_arith);
        lemma_div_pos_is_pos(x * x, 2 * DECAY_ONE);
        assert(d >= DECAY_ONE);
        lemma_div_pos_is_pos(DECAY_ONE * DECAY_ONE, d);
        lemma_div_is_ordered_by_denominator(DECAY_ONE * DECAY_ONE, DECAY_ONE as int, d);
        assert((DECAY_ONE * DECAY_ONE) / (DECAY_ONE as int) == DECAY_ONE);
    }
}

/// The decay never grows as its argument grows.
pub proof fn lemma_decay_antimonotone(x1: int, x2: int)
    requires
        0 <= x1 <= x2,
    ensures
        spec_decay(x1) >= spec_decay(x2),
{
    lemma_decay_bounds(x1);
    lemma_decay_bounds(x2);
    if x2 < DECAY_X_CAP {
        let d1 = DECAY_ONE + x1 + x1 * x1 / (2 * DECAY_ONE);
        let d2 = DECAY_ONE + x2 + x2 * x2 / (2 * DECAY_ONE);
        assert(x1 * x1 <= x2 * x2) by (nonlinear_arith)
            requires
                0 <= x1 <= x2,
        ;
        lemma_div_is_ordered(x1 * x1, x2 * x2, 2 * DECAY_ONE);
        assert(x1 * x1 >= 0) by (nonlinear_arith);
        lemma_div_pos_is_pos(x1 * x1, 2 * DECAY_ONE);
        assert(1 <= d1 <= d2);
        lemma_div_is_ordered_by_denominator(DECAY_ONE * DECAY_ONE, d1, d2);
    }
}

impl ThermalModel for LumpedThermalModel {
    /// Ambient within a degree range, power non-negative, loss and
    /// capacity strictly positive, all within a bounded magnitude.
    open spec fn wf(&self) -> bool {
        &&& -1_000_000_000 <= self.ambient_mc <= 1_000_000_000
        &&& 0 <= self.power_mw <= 1_000_000_000
        &&& 1 <= self.loss_mw_per_c <= 1_000_000_000
        &&& 1 <= self.heat_capacity_mj_per_c <= 1_000_000_000
    }

    /// `steady + (initial - steady) * decay(k t)`, on the integer grid;
    /// a model whose rate underflows to zero holds the initial reading.
    open spec fn spec_temperature(&self, initial_mc: int, t_ms: int) -> int {
        if self.k_micro() == 0 {
            initial_mc
        } else {
            self.steady_mc() + div_tz(
                (initial_mc - self.steady_mc()) * spec_decay(self.x_of(t_ms)),
                DECAY_ONE as int,
            )
        }
    }

    /// Inverse of the decay at the target ratio, over the rate; zero
    /// without a target, at the steady point, or for an unreachable or
    /// already-passed target.
    open spec fn spec_settle_ms(&self, initial_mc: int, target_mc: Option<i64>) -> int {
        match target_mc {
            None => 0,
            Some(tg) => {
                if self.k_micro() == 0 || initial_mc == self.steady_mc() {
                    0
                } else {
                    let ratio = div_tz_signed(
                        (tg - self.steady_mc()) * DECAY_ONE,
                        initial_mc - self.steady_mc(),
                    );
                    if ratio <= 0 || ratio >= DECAY_ONE {
                        0
                    } else {
                        let q = 2 * DECAY_ONE * DECAY_ONE * DECAY_ONE / (ratio as int)
                            - DECAY_ONE * DECAY_ONE;
                        let x = spec_sqrt_floor(q) - DECAY_ONE;
                        if x <= 0 {
                            0
                        } else {
                            x * 1000 / self.k_micro()
                        }
                    }
                }
            },
        }
    }

    fn temperature(&self, initial_mc: i64, t_ms: u64) -> (r: i64) {
        let k = self.loss_mw_per_c * 1_000_000 / self.heat_capacity_mj_per_c;
        if k == 0 {
            return initial_mc;
        }
        proof {
            assert(0 <= self.power_mw * 1000 / (self.loss_mw_per_c as int)
                <= 1_000_000_000_000) by (nonlinear_arith)
                requires
                    0 <= self.power_mw <= 1_000_000_000,
                    1 <= self.loss_mw_per_c,
            ;
        }
        let steady = self.ambient_mc + self.power_mw * 1000 / self.loss_mw_per_c;
        proof {
            assert(0 <= self.loss_mw_per_c * 1_000_000 / (self.heat_capacity_mj_per_c as int)
                <= 1_000_000_000_000_000) by (nonlinear_arith)
                requires
                    0 <= self.loss_mw_per_c <= 1_000_000_000,
                    1 <= self.heat_capacity_mj_per_c,
            ;
            assert((k as int) * (t_ms as int)
                <= 20_000_000_000_000_000_000_000_000_000_000_000) by (nonlinear_arith)
                requires
                    0 <= k <= 1_000_000_000_000_000,
                    0 <= t_ms <= 18_446_744_073_709_551_615,
            ;
        }
        let xw: u128 = (k as u128) * (t_ms as u128) / 1000;
        let x: i64 = if xw >= DECAY_X_CAP as u128 {
            DECAY_X_CAP
        } else {
            xw as i64
        };
        proof {
            assert(k == self.k_micro());
            assert(steady == self.steady_mc());
            assert(xw == self.k_micro() * t_ms / 1000) by (nonlinear_arith)
                requires
                    k == self.k_micro(),
                    0 < k,
                    xw == (k as u128) * (t_ms as u128) / 1000,
            ;
            assert(x == self.x_of(t_ms as int));
        }
        let g = decay(x);
        proof {
            lemma_decay_bounds(x as int);
        }
        let diff: i64 = initial_mc - steady;
        if diff >= 0 {
            proof {
                assert(diff * g <= 3_000_000_000_000_000_000) by (nonlinear_arith)
                    requires
                        0 <= diff <= 3_000_000_000_000,
                        0 <= g <= 1_000_000,
                ;
                assert(0 <= diff * g / (DECAY_ONE as int) <= diff) by (nonlinear_arith)
                    requires
                        0 <= diff,
                        0 <= g <= 1_000_000,
                        DECAY_ONE == 1_000_000,
                ;
            }
            let prod: i64 = diff * g;
            steady + prod / DECAY_ONE
        } else {
            proof {
                assert((-(diff as int)) * g <= 3_000_000_000_000_000_000) by (nonlinear_arith)
                    requires
                        -3_000_000_000_000 <= diff < 0,
                        0 <= g <= 1_000_000,
                ;
                assert(0 <= (-(diff as int)) * g / (DECAY_ONE as int) <= -(diff as int))
                    by (nonlinear_arith)
                    requires
                        diff < 0,
                        0 <= g <= 1_000_000,
                        DECAY_ONE == 1_000_000,
                ;
                assert(div_tz(diff * g, DECAY_ONE as int) == -((-(diff as int)) * g / (
                DECAY_ONE as int))) by (nonlinear_arith)
                    requires
                        diff < 0,
                        0 <= g,
                        DECAY_ONE == 1_000_000,
                ;
            }
            let prod: i64 = (-diff) * g;
            let q = prod / DECAY_ONE;
            steady - q
        }
    }

    fn settle_time(&self, initial_mc: i64, target_mc: Option<i64>) -> (r: u64) {
        let tg = match target_mc {
            Some(t) => t,
            None => {
                return 0;
            },
        };
        let k = self.loss_mw_per_c * 1_000_000 / self.heat_capacity_mj_per_c;
        let steady = self.ambient_mc + self.power_mw * 1000 / self.loss_mw_per_c;
        proof {
            assert(k == self.k_micro());
            assert(steady == self.steady_mc());
        }
        if k == 0 || initial_mc == steady {
            return 0;
        }
        let num: i64 = tg - steady;
        let den: i64 = initial_mc - steady;
        let ratio: i64 = div_tz_i64(num, den, 1_000_000);
        if ratio <= 0 || ratio >= DECAY_ONE {
            return 0;
        }
        proof {
            assert(2_000_000_000_000_000_000int / (ratio as int) >= 2_000_000_000_000)
                by (nonlinear_arith)
                requires
                    0 < ratio < 1_000_000,
            ;
        }
        let q: u64 = (2_000_000_000_000_000_000u64 / (ratio as u64)) - 1_000_000_000_000u64;
        proof {
            assert(q == 2 * DECAY_ONE * DECAY_ONE * DECAY_ONE / (ratio as int) - DECAY_ONE
                * DECAY_ONE) by {
                assert(2 * DECAY_ONE * DECAY_ONE * DECAY_ONE == 2_000_000_000_000_000_000);
                assert(DECAY_ONE * DECAY_ONE == 1_000_000_000_000);
                assert(2_000_000_000_000_000_000int / (ratio as int) >= 1_000_000_000_002)
                    by (nonlinear_arith)
                    requires
                        0 < ratio < 1_000_000,
                ;
            }
        }
        let root64 = crate::metric::isqrt_u128(q as u128);
        proof {
            lemma_sqrt_floor_unique(q as int, root64 as int);
        }
        if root64 <= DECAY_ONE as u64 {
            return 0;
        }
        let x: u64 = root64 - DECAY_ONE as u64;
        proof {
            assert(root64 * root64 <= q);
            assert(root64 <= 2_000_000_000) by (nonlinear_arith)
                requires
                    root64 * root64 <= q,
                    q <= 2_000_000_000_000_000_000,
            ;
        }
        let t: u64 = x * 1000 / (k as u64);
        proof {
            assert(t == x * 1000 / (k as int) && t <= SETTLE_LIMIT_MS) by (nonlinear_arith)
                requires
                    0 < k,
                    0 < x <= 2_000_000_000,
                    t as int == x * 1000 / (k as int),
                    SETTLE_LIMIT_MS == 2_000_000_000_000_000,
            ;
        }
        t
    }
}

/// The decay kernel, executably.
fn decay(x: i64) -> (r: i64)
    requires
        0 <= x <= DECAY_X_CAP,
    ensures
        r == spec_decay(x as int),
        0 <= r <= DECAY_ONE,
{
    proof {
        lemma_decay_bounds(x as int);
    }
    if x >= DECAY_X_CAP {
        0
    } else {
        proof {
            assert(0 <= x * x <= 4_000_000_000_000_000_000) by (nonlinear_arith)
                requires
                    0 <= x <= 2_000_000_000,
            ;
            assert(0 <= x * x / (2 * DECAY_ONE as int) <= x * x) by (nonlinear_arith)
                requires
                    0 <= x * x,
                    DECAY_ONE == 1_000_000,
            ;
        }
        let sq: i64 = x * x / (2 * DECAY_ONE);
        let d: i64 = DECAY_ONE + x + sq;
        (DECAY_ONE * DECAY_ONE) / d
    }
}

/// Division toward zero of a scaled difference, executably.
fn div_tz_i64(num: i64, den: i64, scale: i64) -> (r: i64)
    requires
        den != 0,
        -4_000_000_000_000 <= num <= 4_000_000_000_000,
        -4_000_000_000_000 <= den <= 4_000_000_000_000,
        scale == 1_000_000,
    ensures
        r == div_tz_signed(num * scale, den as int),
{
    let n: i64 = num * scale;
    let (nn, nd, neg) = if n >= 0 && den > 0 {
        (n, den, false)
    } else if n >= 0 {
        (n, -den, true)
    } else if den > 0 {
        (-n, den, true)
    } else {
        (-n, -den, false)
    };
    let m: i64 = nn / nd;
    if neg {
        -m
    } else {
        m
    }
}

/// Truncating division by a positive divisor never grows with a smaller
/// dividend.
pub proof fn lemma_div_tz_monotone(a: int, b: int, d: int)
    requires
        a <= b,
        d > 0,
    ensures
        div_tz(a, d) <= div_tz(b, d),
{
    if a >= 0 {
        lemma_div_is_ordered(a, b, d);
    } else if b >= 0 {
        lemma_div_pos_is_pos(-a, d);
        lemma_div_pos_is_pos(b, d);
    } else {
        lemma_div_is_ordered(-b, -a, d);
    }
}

/// For a heater colder than its steady point, the lumped temperature
/// never falls as time advances, and it reaches the steady point once
/// the kernel argument passes its cap.
pub proof fn lemma_lumped_monotone(m: LumpedThermalModel, initial: int, t1: int, t2: int)
    requires
        m.wf(),
        initial <= m.steady_mc(),
        0 <= t1 <= t2,
    ensures
        m.spec_temperature(initial, t1) <= m.spec_temperature(initial, t2),
        m.k_micro() * t2 / 1000 >= DECAY_X_CAP ==> m.spec_temperature(initial, t2) == m.steady_mc(),
{
    if m.k_micro() != 0 {
        let k = m.k_micro();
        assert(k > 0) by {
            lemma_div_pos_is_pos(m.loss_mw_per_c * 1_000_000, m.heat_capacity_mj_per_c as int);
        }
        assert(k * t1 <= k * t2) by (nonlinear_arith)
            requires
                k >= 0,
                t1 <= t2,
        ;
        lemma_div_is_ordered(k * t1, k * t2, 1000);
        assert(k * t1 / 1000 >= 0) by {
            assert(k * t1 >= 0) by (nonlinear_arith)
                requires
                    k >= 0,
                    t1 >= 0,
            ;
            lemma_div_pos_is_pos(k * t1, 1000);
        }
        let x1 = m.x_of(t1);
        let x2 = m.x_of(t2);
        assert(0 <= x1 && x1 <= x2);
        lemma_decay_antimonotone(x1, x2);
        lemma_decay_bounds(x1);
        lemma_decay_bounds(x2);
        let g1 = spec_decay(x1);
        let g2 = spec_decay(x2);
        let diff = initial - m.steady_mc();
        assert(diff * g1 <= diff * g2) by (nonlinear_arith)
            requires
                diff <= 0,
                g1 >= g2,
        ;
        lemma_div_tz_monotone(diff * g1, diff * g2, DECAY_ONE as int);
        if k * t2 / 1000 >= DECAY_X_CAP {
            assert(x2 == DECAY_X_CAP);
            assert(spec_decay(x2) == 0);
            assert(div_tz(diff * 0, DECAY_ONE as int) == 0);
        }
    }
}

/// The temperature a heater transition shows after `elapsed` local
/// milliseconds, held at its settle point once past it.
pub open spec fn spec_heater_at<M: ThermalModel>(h: HeaterTransition<M>, elapsed: int) -> int {
    let settle = h.model.spec_settle_ms(h.heater.current_mc as int, h.heater.target_mc);
    let local = if elapsed <= settle {
        elapsed
    } else {
        settle
    };
    h.model.spec_temperature(h.heater.current_mc as int, local)
}

/// One heater moving toward its target under a thermal model.
#[derive(Debug, Clone, Copy)]
pub struct HeaterTransition<M: ThermalModel> {
    pub model: M,
    pub heater: HeaterState,
}

impl<M: ThermalModel> HeaterTransition<M> {
    pub open spec fn wf(self) -> bool {
        self.model.wf() && self.heater.wf()
    }

    pub fn new(heater: HeaterState, thermal_model: M) -> (r: Self)
        requires
            thermal_model.wf(),
            heater.wf(),
        ensures
            r == (HeaterTransition { model: thermal_model, heater }),
            r.wf(),
    {
        HeaterTransition { model: thermal_model, heater }
    }

    /// The transition's length: the settle time of its heater.
    pub fn duration_ms(&self) -> (r: u64)
        requires
            self.wf(),
        ensures
            r == self.model.spec_settle_ms(self.heater.current_mc as int, self.heater.target_mc),
            r <= SETTLE_LIMIT_MS,
    {
        self.model.settle_time(self.heater.current_mc, self.heater.target_mc)
    }

    /// Temperature after `elapsed_ms` of the transition, held at the
    /// settle point once past it.
    pub fn temperature_at(&self, elapsed_ms: u64) -> (r: i64)
        requires
            self.wf(),
        ensures
            r == spec_heater_at(*self, elapsed_ms as int),
    {
        let settle = self.duration_ms();
        let local = if elapsed_ms <= settle {
            elapsed_ms
        } else {
            settle
        };
        self.model.temperature(self.heater.current_mc, local)
    }
}

/// The temperatures of every heater at one instant.
#[derive(Debug, Clone)]
pub struct ThermalSnapshot {
    pub bed_temp_mc: i64,
    pub tool_temps_mc: Vec<i64>,
}

/// The bed's and every tool's heater transition after a command.
#[derive(Debug, Clone)]
pub struct ThermalTransition<B: ThermalModel, T: ThermalModel> {
    pub bed: HeaterTransition<B>,
    pub tools: Vec<HeaterTransition<T>>,
}

/// Longest settle time among the bed and the first `n` tools.
pub open spec fn spec_thermal_duration<B: ThermalModel, T: ThermalModel>(
    tr: ThermalTransition<B, T>,
    n: int,
) -> int
    decreases n,
{
    if n <= 0 {
        tr.bed.model.spec_settle_ms(tr.bed.heater.current_mc as int, tr.bed.heater.target_mc)
    } else {
        let prev = spec_thermal_duration(tr, n - 1);
        let t = tr.tools[n - 1].model.spec_settle_ms(
            tr.tools[n - 1].heater.current_mc as int,
            tr.tools[n - 1].heater.target_mc,
        );
        if t > prev {
            t
        } else {
            prev
        }
    }
}

impl<B: ThermalModel, T: ThermalModel> ThermalTransition<B, T> {
    pub open spec fn wf(self) -> bool {
        &&& self.bed.wf()
        &&& forall|k: int| 0 <= k < self.tools@.len() ==> (#[trigger] self.tools@[k]).wf()
    }

    /// Build from the post-command machine state: the bed heater under
    /// the bed model, every tool's heater under the tool model.
    pub fn new(machine: &MachineState, bed_model: B, tool_model: T) -> (r: Self)
        requires
            machine.wf(),
            machine.bed_temp.wf(),
            bed_model.wf(),
            tool_model.wf(),
        ensures
            r.wf(),
            r.bed == (HeaterTransition { model: bed_model, heater: machine.bed_temp }),
            r.tools@.len() == machine.tools@.len(),
            forall|k: int|
                0 <= k < r.tools@.len() ==> (#[trigger] r.tools@[k]) == (HeaterTransition {
                    model: tool_model,
                    heater: machine.tools@[k].heater,
                }),
    {
        let bed = HeaterTransition::new(machine.bed_heater(), bed_model);
        let mut tools: Vec<HeaterTransition<T>> = Vec::new();
        let mut i: usize = 0;
        while i < machine.tools.len()
            invariant
                0 <= i <= machine.tools@.len(),
                machine.wf(),
                tool_model.wf(),
                tools@.len() == i,
                forall|k: int|
                    0 <= k < i ==> (#[trigger] tools@[k]) == (HeaterTransition {
                        model: tool_model,
                        heater: machine.tools@[k].heater,
                    }),
            decreases machine.tools@.len() - i,
        {
            let t = &machine.tools[i];
            proof {
                assert(machine.tools@[i as int].wf());
            }
            tools.push(HeaterTransition::new(t.heater_state(), tool_model));
            i = i + 1;
        }
        ThermalTransition { bed, tools }
    }

    /// The aggregate duration: the longest settle time of any heater.
    pub fn duration_ms(&self) -> (r: u64)
        requires
            self.wf(),
        ensures
            r == spec_thermal_duration(*self, self.tools@.len() as int),
            r <= SETTLE_LIMIT_MS,
    {
        let mut best: u64 = self.bed.duration_ms();
        let mut i: usize = 0;
        while i < self.tools.len()
            invariant
                0 <= i <= self.tools@.len(),
                self.wf(),
                best == spec_thermal_duration(*self, i as int),
                best <= SETTLE_LIMIT_MS,
            decreases self.tools@.len() - i,
        {
            proof {
                assert(self.tools@[i as int].wf());
            }
            let t = self.tools[i].duration_ms();
            if t > best {
                best = t;
            }
            i = i + 1;
        }
        best
    }

    /// Temperatures after `elapsed_ms`: each heater runs its own local
    /// clock, held at its settle point once past it.
    pub fn interpolate_at(&self, elapsed_ms: u64) -> (r: ThermalSnapshot)
        requires
            self.wf(),
        ensures
            r.bed_temp_mc == spec_heater_at(self.bed, elapsed_ms as int),
            r.tool_temps_mc@.len() == self.tools@.len(),
            forall|k: int|
                0 <= k < self.tools@.len() ==> r.tool_temps_mc@[k] == spec_heater_at(
                    #[trigger] self.tools@[k],
                    elapsed_ms as int,
                ),
    {
        let bed_temp_mc = self.bed.temperature_at(elapsed_ms);
        let mut tool_temps_mc: Vec<i64> = Vec::new();
        let mut i: usize = 0;
        while i < self.tools.len()
            invariant
                0 <= i <= self.tools@.len(),
                self.wf(),
                tool_temps_mc@.len() == i,
                forall|k: int|
                    0 <= k < i ==> tool_temps_mc@[k] == spec_heater_at(
                        #[trigger] self.tools@[k],
                        elapsed_ms as int,
                    ),
            decreases self.tools@.len() - i,
        {
            proof {
                assert(self.tools@[i as int].wf());
            }
            let t = self.tools[i].temperature_at(elapsed_ms);
            tool_temps_mc.push(t);
            i = i + 1;
        }
        ThermalSnapshot { bed_temp_mc, tool_temps_mc }
    }
}

/// Placeholder for a builder slot whose model is not yet chosen.
#[derive(Debug, Clone, Copy, PartialEq, Eq, Structural)]
pub struct NoThermalModel;

impl Default for NoThermalModel {
    fn default() -> (r: Self)
        ensures
            r == NoThermalModel,
    {
        NoThermalModel
    }
}

/// Step-by-step builder for a `ThermalTransition`: choose a bed model,
/// then a tool model, then build from a machine state.
#[derive(Debug, Clone, Copy)]
pub struct ThermalTransitionBuilder<B, T> {
    pub bed_model: B,
    pub tools_model: T,
}

impl ThermalTransitionBuilder<NoThermalModel, NoThermalModel> {
    /// A builder with both slots open.
    pub fn new() -> (r: Self)
        ensures
            r == (ThermalTransitionBuilder { bed_model: NoThermalModel, tools_model: NoThermalModel }),
    {
        ThermalTransitionBuilder { bed_model: NoThermalModel, tools_model: NoThermalModel }
    }
}

impl<T> ThermalTransitionBuilder<NoThermalModel, T> {
    /// Choose the bed's thermal model.
    pub fn bed_model<B: ThermalModel>(self, model: B) -> (r: ThermalTransitionBuilder<B, T>)
        ensures
            r.bed_model == model,
            r.tools_model == self.tools_model,
    {
        ThermalTransitionBuilder { bed_model: model, tools_model: self.tools_model }
    }
}

impl<B> ThermalTransitionBuilder<B, NoThermalModel> {
    /// Choose the tools' thermal model.
    pub fn tools_model<T: ThermalModel>(self, model: T) -> (r: ThermalTransitionBuilder<B, T>)
        ensures
            r.tools_model == model,
            r.bed_model == self.bed_model,
    {
        ThermalTransitionBuilder { bed_model: self.bed_model, tools_model: model }
    }
}

impl<B: ThermalModel, T: ThermalModel> ThermalTransitionBuilder<B, T> {
    /// Build the transition from the post-command machine state.
    pub fn build(self, state: &MachineState) -> (r: ThermalTransition<B, T>)
        requires
            state.wf(),
            state.bed_temp.wf(),
            self.bed_model.wf(),
            self.tools_model.wf(),
        ensures
            r.wf(),
            r.bed == (HeaterTransition { model: self.bed_model, heater: state.bed_temp }),
            r.tools@.len() == state.tools@.len(),
            forall|k: int|
                0 <= k < r.tools@.len() ==> (#[trigger] r.tools@[k]) == (HeaterTransition {
                    model: self.tools_model,
                    heater: state.tools@[k].heater,
                }),
    {
        ThermalTransition::new(state, self.bed_model, self.tools_model)
    }
}

} // verus!
