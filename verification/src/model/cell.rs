//! The living state of a cell: its growth curve, its hormones and the
//! tissue that it belongs to.
use crate::model::hormone::{HormoneFlowEvent, Phytohormones};
use crate::model::tissue::TissueConfig;
use crate::model::transport::{active_transport, active_transport_spec, diffuse, diffusion};
use crate::shared::cell::CellInformation;
use crate::shared::decay::{exp_neg, exp_neg_spec, lemma_exp_neg_monotone, lemma_exp_neg_zero};
use crate::shared::fixed::{
    div_floor, div_trunc, fixed_mul, in_limit, lemma_div_floor_bound, lemma_div_floor_monotone,
    lemma_mul_bound, lemma_mul_fixed_scaled_bound, mul_fixed, trunc_div, LIMIT, SCALE,
};
use crate::shared::overlapping_cells::OverlappingCells;
use crate::shared::point::Point3;
use vstd::prelude::*;

verus! {

/// The growth rate of a new cell.
pub const GROWTH_FACTOR: i64 = 300;

/// The parameters of a cell's growth curve.
#[derive(Clone, Copy, Debug, PartialEq, Eq, Structural)]
pub struct GrowthFactors {
    /// The growth rate.
    pub growth_factor: i64,
    /// The volume at the time of birth.
    pub start_value: i64,
    /// The ceiling that the volume approaches.
    pub size_threshold: i64,
}

/// The living state of one cell.
#[derive(Clone, Copy, Debug)]
pub struct Cell {
    pub birth_time: i64,
    pub growth_factors: GrowthFactors,
    pub hormones: Phytohormones,
    /// The identifier of the tissue that this cell belongs to.
    pub tissue: u64,
    pub tissue_config: TissueConfig,
}

/// The exponent of the decay after the time `elapsed`: growth rate times
/// ceiling times time, rounded down.
pub open spec fn growth_exponent(rate: int, ceiling: int, elapsed: int) -> int {
    rate * ceiling * elapsed / (SCALE * SCALE)
}

/// The logistic curve at a given decay: the ceiling over one plus the decay
/// times the ceiling's excess over the start volume, relative to the start
/// volume; written as one fraction and rounded down.
pub open spec fn logistic(ceiling: int, start: int, decay: int) -> int {
    ceiling * start * SCALE / (start * SCALE + decay * (ceiling - start))
}

/// The volume of a cell at the time `elapsed` after its birth.
pub open spec fn logistic_growth_spec(factors: GrowthFactors, elapsed: int) -> int {
    logistic(
        factors.size_threshold as int,
        factors.start_value as int,
        exp_neg_spec(
            growth_exponent(
                factors.growth_factor as int,
                factors.size_threshold as int,
                elapsed,
            ),
        ),
    )
}

impl GrowthFactors {
    /// Start volume and ceiling are positive, the rate is not negative, and
    /// all three are within the limit.
    pub open spec fn wf(self) -> bool {
        &&& 0 < self.start_value <= LIMIT
        &&& 0 < self.size_threshold <= LIMIT
        &&& 0 <= self.growth_factor <= LIMIT
    }
}

/// The denominator of the logistic curve is positive, and the curve lies
/// between nothing and the larger of start volume and ceiling.
pub proof fn lemma_logistic_range(ceiling: int, start: int, decay: int)
    requires
        0 < ceiling,
        0 < start,
        0 <= decay <= SCALE,
    ensures
        start * SCALE + decay * (ceiling - start) > 0,
        ceiling >= start ==> start * SCALE + decay * (ceiling - start) >= start * SCALE,
        ceiling < start ==> start * SCALE + decay * (ceiling - start) >= ceiling * SCALE,
        0 <= logistic(ceiling, start, decay),
        ceiling >= start ==> logistic(ceiling, start, decay) <= ceiling,
        ceiling < start ==> logistic(ceiling, start, decay) <= start,
{
    let den: int = start * SCALE + decay * (ceiling - start);
    let num: int = ceiling * start * SCALE;
    assert(num >= 0) by (nonlinear_arith)
        requires
            num == ceiling * start * SCALE,
            0 < ceiling,
            0 < start,
            SCALE == 1_000_000,
    ;
    if ceiling >= start {
        assert(decay * (ceiling - start) >= 0) by (nonlinear_arith)
            requires
                decay >= 0,
                ceiling >= start,
        ;
        assert(start * SCALE > 0) by (nonlinear_arith)
            requires
                start > 0,
                SCALE == 1_000_000,
        ;
        assert(num <= ceiling * den) by (nonlinear_arith)
            requires
                num == ceiling * start * SCALE,
                den >= start * SCALE,
                ceiling > 0,
        ;
        lemma_div_floor_bound(num, den, ceiling);
    } else {
        assert(decay * (ceiling - start) >= SCALE * (ceiling - start)) by (nonlinear_arith)
            requires
                0 <= decay <= SCALE,
                ceiling < start,
        ;
        assert(start * SCALE + SCALE * (ceiling - start) == ceiling * SCALE) by (nonlinear_arith);
        assert(ceiling * SCALE > 0) by (nonlinear_arith)
            requires
                ceiling > 0,
                SCALE == 1_000_000,
        ;
        assert(num <= start * den) by (nonlinear_arith)
            requires
                num == ceiling * start * SCALE,
                den >= ceiling * SCALE,
                start > 0,
        ;
        lemma_div_floor_bound(num, den, start);
    }
    lemma_div_floor_monotone(0, num, den);
    assert(0int / den == 0) by (nonlinear_arith)
        requires
            den > 0,
    ;
}

/// The exponent is not negative and does not shrink with time.
pub proof fn lemma_growth_exponent_monotone(rate: int, ceiling: int, t1: int, t2: int)
    requires
        0 <= rate,
        0 <= ceiling,
        0 <= t1 <= t2,
    ensures
        0 <= growth_exponent(rate, ceiling, t1) <= growth_exponent(rate, ceiling, t2),
{
    assert(0 <= rate * ceiling * t1 <= rate * ceiling * t2) by (nonlinear_arith)
        requires
            0 <= rate,
            0 <= ceiling,
            0 <= t1 <= t2,
    ;
    lemma_div_floor_monotone(0, rate * ceiling * t1, SCALE * SCALE);
    lemma_div_floor_monotone(rate * ceiling * t1, rate * ceiling * t2, SCALE * SCALE);
}

/// At the time of its birth a cell has exactly its start volume.
pub proof fn lemma_growth_starts_at_start_volume(factors: GrowthFactors)
    requires
        factors.wf(),
    ensures
        logistic_growth_spec(factors, 0) == factors.start_value,
{
    let g: int = factors.size_threshold as int;
    let v: int = factors.start_value as int;
    let k: int = factors.growth_factor as int;
    assert(k * g * 0 == 0) by (nonlinear_arith);
    assert(growth_exponent(k, g, 0) == 0);
    lemma_exp_neg_zero();
    let den: int = v * SCALE + SCALE * (g - v);
    assert(den == g * SCALE) by (nonlinear_arith)
        requires
            den == v * SCALE + SCALE * (g - v),
    ;
    assert(g * v * SCALE == v * (g * SCALE)) by (nonlinear_arith);
    assert(g * SCALE > 0) by (nonlinear_arith)
        requires
            g > 0,
            SCALE == 1_000_000,
    ;
    vstd::arithmetic::div_mod::lemma_div_multiples_vanish(v, g * SCALE);
}

/// The volume of a cell that starts below its ceiling never shrinks with
/// time and never exceeds the ceiling.
pub proof fn lemma_growth_monotone_and_bounded(factors: GrowthFactors, t1: int, t2: int)
    requires
        factors.wf(),
        factors.start_value <= factors.size_threshold,
        0 <= t1 <= t2,
    ensures
        logistic_growth_spec(factors, t1) <= logistic_growth_spec(factors, t2),
        logistic_growth_spec(factors, t2) <= factors.size_threshold,
{
    let g: int = factors.size_threshold as int;
    let v: int = factors.start_value as int;
    let k: int = factors.growth_factor as int;
    lemma_growth_exponent_monotone(k, g, t1, t2);
    let x1: int = growth_exponent(k, g, t1);
    let x2: int = growth_exponent(k, g, t2);
    lemma_exp_neg_monotone(x1, x2);
    let d1: int = exp_neg_spec(x1);
    let d2: int = exp_neg_spec(x2);
    lemma_logistic_range(g, v, d1);
    lemma_logistic_range(g, v, d2);
    let den1: int = v * SCALE + d1 * (g - v);
    let den2: int = v * SCALE + d2 * (g - v);
    assert(d2 * (g - v) <= d1 * (g - v)) by (nonlinear_arith)
        requires
            d2 <= d1,
            g >= v,
    ;
    let num: int = g * v * SCALE;
    assert(num >= 0) by (nonlinear_arith)
        requires
            num == g * v * SCALE,
            g > 0,
            v > 0,
            SCALE == 1_000_000,
    ;
    vstd::arithmetic::div_mod::lemma_div_is_ordered_by_denominator(num, den2, den1);
}

/// Computes the volume of a cell at the time `elapsed` after its birth.
pub fn logistic_growth(factors: GrowthFactors, elapsed: i64) -> (volume: i64)
    requires
        factors.wf(),
        0 <= elapsed <= LIMIT,
    ensures
        volume == logistic_growth_spec(factors, elapsed as int),
        0 <= volume <= LIMIT,
        elapsed == 0 ==> volume == factors.start_value,
        factors.start_value <= factors.size_threshold ==> factors.start_value <= volume
            <= factors.size_threshold,
{
    let g: i128 = factors.size_threshold as i128;
    let v: i128 = factors.start_value as i128;
    let k: i128 = factors.growth_factor as i128;
    proof {
        lemma_growth_starts_at_start_volume(factors);
        if factors.start_value <= factors.size_threshold {
            lemma_growth_monotone_and_bounded(factors, 0, elapsed as int);
        }
        lemma_mul_bound(k as int, g as int, 1_000_000_000_000, 1_000_000_000_000);
        lemma_mul_bound(
            k * g,
            elapsed as int,
            1_000_000_000_000_000_000_000_000,
            1_000_000_000_000,
        );
        lemma_growth_exponent_monotone(k as int, g as int, 0, elapsed as int);
        assert(SCALE * SCALE == 1_000_000_000_000);
        lemma_div_floor_bound(
            k * g * elapsed,
            1_000_000_000_000,
            1_000_000_000_000_000_000_000_000,
        );
    }
    let exponent: i128 = div_floor(k * g * (elapsed as i128), 1_000_000_000_000);
    let decay: i128 = exp_neg(exponent as u128) as i128;
    proof {
        lemma_logistic_range(g as int, v as int, decay as int);
        lemma_mul_bound(g as int, v as int, 1_000_000_000_000, 1_000_000_000_000);
        lemma_mul_bound(g * v, SCALE as int, 1_000_000_000_000_000_000_000_000, 1_000_000);
        lemma_mul_bound(v as int, SCALE as int, 1_000_000_000_000, 1_000_000);
        lemma_mul_bound(decay as int, g - v, 1_000_000, 1_000_000_000_000);
    }
    let num: i128 = g * v * (SCALE as i128);
    let den: i128 = v * (SCALE as i128) + decay * (g - v);
    let volume: i128 = div_floor(num, den);
    volume as i64
}

/// The auxin that a cell makes in one step: the production rate times the
/// length of the step, times the cell's radius, times the length of the
/// step.
pub open spec fn produced_auxin(rate: int, dt: int, radius: int) -> int {
    mul_fixed(mul_fixed(mul_fixed(rate, dt), radius), dt)
}

/// Half of a level, rounded toward zero.
pub open spec fn half(level: int) -> int {
    trunc_div(level, 2)
}

/// The point that active transport aims at: the centre of the tissue's
/// central cell, moved by the growing direction. A tissue that does not
/// grow, or has no central cell yet, has none.
pub open spec fn transport_target(config: TissueConfig) -> Option<Point3> {
    match config.growing_config {
        Some(growing) => match growing.central_cell {
            Some((_, central)) => Some(
                Point3 {
                    x: (central.position.x + growing.growing_direction.x) as i64,
                    y: (central.position.y + growing.growing_direction.y) as i64,
                    z: (central.position.z + growing.growing_direction.z) as i64,
                },
            ),
            None => None,
        },
        None => None,
    }
}

/// One step of a cell's hormones: the cell makes auxin, lets it diffuse to
/// its overlapping neighbours and, in a tissue with a central cell, moves
/// it toward the target. Gives the hormones that the cell keeps and the
/// reports of what left, those of diffusion first; nothing if a level or an
/// amount leaves the limit.
pub open spec fn simulated_hormones(
    cell: Cell,
    dt: i64,
    info: CellInformation,
    others: Seq<(u64, CellInformation, Phytohormones)>,
) -> Option<(Phytohormones, Seq<HormoneFlowEvent>)> {
    let produced = cell.hormones.auxin_level + produced_auxin(
        cell.tissue_config.auxin_production_rate as int,
        dt as int,
        info.radius as int,
    );
    if !in_limit(produced) {
        None
    } else {
        match diffusion(produced as i64, others, cell.tissue_config.diffusion_factor, dt) {
            None => None,
            Some((level, events)) => {
                let kept = Phytohormones {
                    auxin_level: level,
                    cytokinin_level: cell.hormones.cytokinin_level,
                };
                match transport_target(cell.tissue_config) {
                    None => Some((kept, events)),
                    Some(target) => match active_transport_spec(
                        info,
                        kept,
                        target,
                        others,
                        cell.tissue_config.active_transport_factor,
                        dt,
                    ) {
                        None => None,
                        Some((left, more)) => Some((left, events + more)),
                    },
                }
            },
        }
    }
}

impl TissueConfig {
    /// The rates and factors are within the limit, and so are the growing
    /// direction and the centre of the central cell.
    pub open spec fn wf(self) -> bool {
        &&& in_limit(self.auxin_production_rate as int)
        &&& in_limit(self.diffusion_factor as int)
        &&& in_limit(self.active_transport_factor as int)
        &&& match self.growing_config {
            Some(growing) => growing.growing_direction.in_bounds() && match growing.central_cell {
                Some((_, central)) => central.position.in_bounds(),
                None => true,
            },
            None => true,
        }
    }
}

impl Cell {
    /// A cell that is born at the time `sim_time` with the given volume.
    pub fn new(
        volume: i64,
        tissue: u64,
        sim_time: i64,
        hormones: Phytohormones,
        tissue_config: TissueConfig,
    ) -> (cell: Cell)
        ensures
            cell.birth_time == sim_time,
            cell.growth_factors == (GrowthFactors {
                growth_factor: GROWTH_FACTOR,
                start_value: volume,
                size_threshold: tissue_config.max_cell_volume,
            }),
            cell.hormones == hormones,
            cell.tissue == tissue,
            cell.tissue_config == tissue_config,
    {
        Cell {
            birth_time: sim_time,
            growth_factors: GrowthFactors {
                growth_factor: GROWTH_FACTOR,
                start_value: volume,
                size_threshold: tissue_config.max_cell_volume,
            },
            hormones,
            tissue,
            tissue_config,
        }
    }

    /// Carries the cell's hormones through one step of the length
    /// `sim_delta_secs` and returns the reports of what left for the
    /// neighbours. Returns nothing, and leaves the cell as it is, if a level
    /// or an amount leaves the limit.
    pub fn simulate_hormones(
        &mut self,
        sim_delta_secs: i64,
        info: &CellInformation,
        overlapping_cells: &OverlappingCells,
    ) -> (flow_events: Option<Vec<HormoneFlowEvent>>)
        requires
            old(self).hormones.wf(),
            old(self).tissue_config.wf(),
            in_limit(sim_delta_secs as int),
            info.wf(),
            overlapping_cells.wf(),
            overlapping_cells.hormones_wf(),
        ensures
            final(self).birth_time == old(self).birth_time,
            final(self).growth_factors == old(self).growth_factors,
            final(self).tissue == old(self).tissue,
            final(self).tissue_config == old(self).tissue_config,
            match simulated_hormones(*old(self), sim_delta_secs, *info, overlapping_cells.0@) {
                Some((hormones, events)) => final(self).hormones == hormones && hormones.wf() && (
                flow_events matches Some(reported) && reported@ == events),
                None => flow_events is None && final(self).hormones == old(self).hormones,
            },
    {
        let rate: i64 = self.tissue_config.auxin_production_rate;
        proof {
            lemma_mul_bound(
                rate as int,
                sim_delta_secs as int,
                1_000_000_000_000,
                1_000_000_000_000,
            );
            lemma_mul_fixed_scaled_bound(
                rate as int,
                sim_delta_secs as int,
                1_000_000_000_000_000_000,
            );
        }
        let growing_sum: i128 = fixed_mul(rate as i128, sim_delta_secs as i128);
        proof {
            lemma_mul_bound(
                growing_sum as int,
                info.radius as int,
                1_000_000_000_000_000_000,
                1_000_000_000_000,
            );
            lemma_mul_fixed_scaled_bound(
                growing_sum as int,
                info.radius as int,
                1_000_000_000_000_000_000_000_000,
            );
        }
        let per_time: i128 = fixed_mul(growing_sum, info.radius as i128);
        proof {
            lemma_mul_bound(
                per_time as int,
                sim_delta_secs as int,
                1_000_000_000_000_000_000_000_000,
                1_000_000_000_000,
            );
            lemma_mul_fixed_scaled_bound(
                per_time as int,
                sim_delta_secs as int,
                1_000_000_000_000_000_000_000_000_000_000,
            );
        }
        let made: i128 = fixed_mul(per_time, sim_delta_secs as i128);
        let produced: i128 = self.hormones.auxin_level as i128 + made;
        let limit: i128 = LIMIT as i128;
        if produced < -limit || produced > limit {
            return None;
        }
        let start: Phytohormones = Phytohormones {
            auxin_level: produced as i64,
            cytokinin_level: self.hormones.cytokinin_level,
        };
        let diffused: Option<(Phytohormones, Vec<HormoneFlowEvent>)> = diffuse(
            &start,
            overlapping_cells,
            self.tissue_config.diffusion_factor,
            sim_delta_secs,
        );
        match diffused {
            None => None,
            Some((kept, events)) => {
                let target: Option<Point3> = self.target();
                match target {
                    None => {
                        self.hormones = kept;
                        Some(events)
                    },
                    Some(aim) => {
                        let moved: Option<(Phytohormones, Vec<HormoneFlowEvent>)> = active_transport(
                            info,
                            &kept,
                            &aim,
                            overlapping_cells,
                            self.tissue_config.active_transport_factor,
                            sim_delta_secs,
                        );
                        match moved {
                            None => None,
                            Some((left, more)) => {
                                let mut all: Vec<HormoneFlowEvent> = events;
                                let mut rest: Vec<HormoneFlowEvent> = more;
                                all.append(&mut rest);
                                self.hormones = left;
                                Some(all)
                            },
                        }
                    },
                }
            },
        }
    }

    /// The point that active transport from this cell aims at.
    pub fn target(&self) -> (aim: Option<Point3>)
        requires
            self.tissue_config.wf(),
        ensures
            aim == transport_target(self.tissue_config),
            aim matches Some(p) ==> p.within_reach(),
    {
        match self.tissue_config.growing_config {
            Some(growing) => match growing.central_cell {
                Some((_, central)) => Some(
                    Point3 {
                        x: central.position.x + growing.growing_direction.x,
                        y: central.position.y + growing.growing_direction.y,
                        z: central.position.z + growing.growing_direction.z,
                    },
                ),
                None => None,
            },
            None => None,
        }
    }

    /// Adds an amount to the cell's hormones, if both levels stay within the
    /// limit. Returns whether it did.
    pub fn add_to_hormone_level(&mut self, delta: Phytohormones) -> (added: bool)
        ensures
            final(self).birth_time == old(self).birth_time,
            final(self).growth_factors == old(self).growth_factors,
            final(self).tissue == old(self).tissue,
            final(self).tissue_config == old(self).tissue_config,
            added == (in_limit(old(self).hormones.auxin_level + delta.auxin_level) && in_limit(
                old(self).hormones.cytokinin_level + delta.cytokinin_level,
            )),
            added ==> final(self).hormones.auxin_level == old(self).hormones.auxin_level
                + delta.auxin_level && final(self).hormones.cytokinin_level == old(self).hormones.cytokinin_level + delta.cytokinin_level,
            !added ==> final(self).hormones == old(self).hormones,
    {
        let auxin: i128 = self.hormones.auxin_level as i128 + delta.auxin_level as i128;
        let cytokinin: i128 = self.hormones.cytokinin_level as i128 + delta.cytokinin_level as i128;
        let limit: i128 = LIMIT as i128;
        if -limit <= auxin && auxin <= limit && -limit <= cytokinin && cytokinin <= limit {
            self.hormones.auxin_level = auxin as i64;
            self.hormones.cytokinin_level = cytokinin as i64;
            true
        } else {
            false
        }
    }

    /// The volume of the cell at the time `sim_time`.
    pub fn update_size(&self, sim_time: i64) -> (volume: i64)
        requires
            self.growth_factors.wf(),
            0 <= sim_time - self.birth_time <= LIMIT,
        ensures
            volume == logistic_growth_spec(self.growth_factors, sim_time - self.birth_time),
            0 <= volume <= LIMIT,
    {
        let elapsed: i128 = sim_time as i128 - self.birth_time as i128;
        logistic_growth(self.growth_factors, elapsed as i64)
    }

    /// Starts the growth curve anew after a division: the cell is born at
    /// `sim_time` with the volume `new_volume`, the ceiling is the one of its
    /// tissue's configuration, and it keeps half of its auxin. Its cytokinin
    /// stays as it is.
    pub fn on_divide(&mut self, new_volume: i64, sim_time: i64)
        ensures
            final(self).birth_time == sim_time,
            final(self).growth_factors == (GrowthFactors {
                growth_factor: old(self).growth_factors.growth_factor,
                start_value: new_volume,
                size_threshold: old(self).tissue_config.max_cell_volume,
            }),
            final(self).hormones.auxin_level == half(old(self).hormones.auxin_level as int),
            final(self).hormones.cytokinin_level == old(self).hormones.cytokinin_level,
            final(self).tissue == old(self).tissue,
            final(self).tissue_config == old(self).tissue_config,
    {
        self.birth_time = sim_time;
        self.growth_factors.start_value = new_volume;
        self.growth_factors.size_threshold = self.tissue_config.max_cell_volume;
        self.hormones.auxin_level = halve(self.hormones.auxin_level);
    }

    pub fn tissue(&self) -> (t: u64)
        ensures
            t == self.tissue,
    {
        self.tissue
    }

    pub fn update_tissue(&mut self, new_tissue: u64)
        ensures
            *final(self) == (Cell { tissue: new_tissue, ..*old(self) }),
    {
        self.tissue = new_tissue;
    }

    pub fn hormones(&self) -> (h: &Phytohormones)
        ensures
            *h == self.hormones,
    {
        &self.hormones
    }

    pub fn auxin_level(&self) -> (level: i64)
        ensures
            level == self.hormones.auxin_level,
    {
        self.hormones.auxin_level
    }

    pub fn cytokinin_level(&self) -> (level: i64)
        ensures
            level == self.hormones.cytokinin_level,
    {
        self.hormones.cytokinin_level
    }

    /// Takes over a new configuration of the cell's tissue, and with it the
    /// ceiling of the cell's volume.
    pub fn update_tissue_config(&mut self, tissue_config: TissueConfig)
        ensures
            final(self).tissue_config == tissue_config,
            final(self).growth_factors == (GrowthFactors {
                size_threshold: tissue_config.max_cell_volume,
                ..old(self).growth_factors
            }),
            final(self).birth_time == old(self).birth_time,
            final(self).hormones == old(self).hormones,
            final(self).tissue == old(self).tissue,
    {
        self.growth_factors.size_threshold = tissue_config.max_cell_volume;
        self.tissue_config = tissue_config;
    }
}

/// Halves a level, rounding toward zero.
pub fn halve(level: i64) -> (h: i64)
    ensures
        h == half(level as int),
{
    let h: i128 = div_trunc(level as i128, 2);
    h as i64
}

} // verus!
