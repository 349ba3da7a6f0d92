//! How auxin moves between a cell and the cells that overlap it: passive
//! diffusion along the concentration gradient and active transport toward a
//! target.
//!
//! A cell never changes the hormones of another cell. It gives an amount up
//! and reports it as an event for whoever owns the target.
use crate::model::hormone::{HormoneFlowEvent, Phytohormones};
use crate::shared::cell::CellInformation;
use crate::shared::fixed::{
    fixed_mul, in_limit, lemma_mul_bound, lemma_mul_fixed_odd, lemma_mul_fixed_scaled_bound,
    mul_fixed, sqrt_floor, LIMIT,
};
use crate::shared::math::{direction, direction_spec, dist_sq, distance, dot, Vector3};
use crate::shared::overlapping_cells::OverlappingCells;
use crate::shared::point::Point3;
use vstd::prelude::*;

verus! {

/// The report that `flux` units of auxin have left for the cell `target`.
pub open spec fn auxin_flow(target: u64, flux: int) -> HormoneFlowEvent {
    HormoneFlowEvent {
        target_cell: target,
        amount: Phytohormones { auxin_level: flux as i64, cytokinin_level: 0 },
    }
}

/// The auxin that diffuses from a cell to a neighbour in one step: the
/// diffusion factor times the difference of the two levels times the length
/// of the step.
pub open spec fn diffusion_flux(factor: int, own: int, other: int, dt: int) -> int {
    mul_fixed(mul_fixed(factor, own - other), dt)
}

/// The sum of what diffuses from a cell of the level `own` to each of its
/// neighbours.
pub open spec fn total_flux(
    own: i64,
    others: Seq<(u64, CellInformation, Phytohormones)>,
    factor: i64,
    dt: i64,
) -> int
    decreases others.len(),
{
    if others.len() == 0 {
        0
    } else {
        total_flux(own, others.drop_last(), factor, dt) + diffusion_flux(
            factor as int,
            own as int,
            others.last().2.auxin_level as int,
            dt as int,
        )
    }
}

/// What diffusion leaves of the level `own`, with the reports of what left
/// for each neighbour; nothing once a flux, or the level less the fluxes so
/// far, has left the limit. Every flux is taken from the level `own` as it
/// was before the step, whatever has left for the neighbours before.
pub open spec fn diffusion(
    own: i64,
    others: Seq<(u64, CellInformation, Phytohormones)>,
    factor: i64,
    dt: i64,
) -> Option<(i64, Seq<HormoneFlowEvent>)>
    decreases others.len(),
{
    if others.len() == 0 {
        Some((own, Seq::empty()))
    } else {
        match diffusion(own, others.drop_last(), factor, dt) {
            None => None,
            Some((level, events)) => {
                let flux = diffusion_flux(
                    factor as int,
                    own as int,
                    others.last().2.auxin_level as int,
                    dt as int,
                );
                if in_limit(flux) && in_limit(level - flux) {
                    Some(((level - flux) as i64, events.push(auxin_flow(others.last().0, flux))))
                } else {
                    None
                }
            },
        }
    }
}

/// What one cell loses to another by diffusion, the other gains from it:
/// the flux from the second to the first is the flux from the first to the
/// second, negated.
pub proof fn lemma_diffusion_flux_antisymmetric(factor: int, a: int, b: int, dt: int)
    ensures
        diffusion_flux(factor, b, a, dt) == -diffusion_flux(factor, a, b, dt),
{
    lemma_mul_fixed_odd(factor, a - b);
    assert(b - a == -(a - b));
    lemma_mul_fixed_odd(mul_fixed(factor, a - b), dt);
}

/// Between two cells that have only each other as neighbour, diffusion
/// conserves auxin: what the first gives up and reports for the second is
/// what the second, computing on its own, takes up and reports for the
/// first.
pub proof fn lemma_diffusion_pair_conserves(
    a: (u64, CellInformation, Phytohormones),
    b: (u64, CellInformation, Phytohormones),
    factor: i64,
    dt: i64,
)
    requires
        diffusion(a.2.auxin_level, seq![b], factor, dt) is Some,
        diffusion(b.2.auxin_level, seq![a], factor, dt) is Some,
    ensures
        ({
            let flux = diffusion_flux(
                factor as int,
                a.2.auxin_level as int,
                b.2.auxin_level as int,
                dt as int,
            );
            &&& diffusion(a.2.auxin_level, seq![b], factor, dt) == Some(
                ((a.2.auxin_level - flux) as i64, seq![auxin_flow(b.0, flux)]),
            )
            &&& diffusion(b.2.auxin_level, seq![a], factor, dt) == Some(
                ((b.2.auxin_level + flux) as i64, seq![auxin_flow(a.0, -flux)]),
            )
        }),
{
    lemma_diffusion_flux_antisymmetric(
        factor as int,
        a.2.auxin_level as int,
        b.2.auxin_level as int,
        dt as int,
    );
    let sb = seq![b];
    let sa = seq![a];
    assert(sb.drop_last() =~= Seq::empty());
    assert(sa.drop_last() =~= Seq::empty());
    assert(sb.last() == b);
    assert(sa.last() == a);
    assert(diffusion(a.2.auxin_level, sb.drop_last(), factor, dt) == Some(
        (a.2.auxin_level, Seq::<HormoneFlowEvent>::empty()),
    ));
    assert(diffusion(b.2.auxin_level, sa.drop_last(), factor, dt) == Some(
        (b.2.auxin_level, Seq::<HormoneFlowEvent>::empty()),
    ));
    let flux = diffusion_flux(
        factor as int,
        a.2.auxin_level as int,
        b.2.auxin_level as int,
        dt as int,
    );
    assert(Seq::<HormoneFlowEvent>::empty().push(auxin_flow(b.0, flux)) =~= seq![
        auxin_flow(b.0, flux),
    ]);
    assert(Seq::<HormoneFlowEvent>::empty().push(auxin_flow(a.0, -flux)) =~= seq![
        auxin_flow(a.0, -flux),
    ]);
}

/// Where diffusion stays within the limit, the cell keeps its level less the
/// sum of the fluxes, and each neighbour is reported the flux that the level
/// before the step gives it.
pub proof fn lemma_diffusion_takes_from_the_start(
    own: i64,
    others: Seq<(u64, CellInformation, Phytohormones)>,
    factor: i64,
    dt: i64,
)
    requires
        diffusion(own, others, factor, dt) is Some,
    ensures
        ({
            let (level, events) = diffusion(own, others, factor, dt)->0;
            &&& level == own - total_flux(own, others, factor, dt)
            &&& events.len() == others.len()
            &&& forall|k: int|
                0 <= k < others.len() ==> #[trigger] events[k] == auxin_flow(
                    others[k].0,
                    diffusion_flux(
                        factor as int,
                        own as int,
                        others[k].2.auxin_level as int,
                        dt as int,
                    ),
                )
        }),
    decreases others.len(),
{
    if others.len() > 0 {
        lemma_diffusion_takes_from_the_start(own, others.drop_last(), factor, dt);
    }
}

/// The order of two neighbours does not matter: where diffusion stays
/// within the limit in both orders, the cell keeps the same level, and each
/// neighbour is reported the same amount.
pub proof fn lemma_diffusion_order(
    own: i64,
    a: (u64, CellInformation, Phytohormones),
    b: (u64, CellInformation, Phytohormones),
    factor: i64,
    dt: i64,
)
    requires
        diffusion(own, seq![a, b], factor, dt) is Some,
        diffusion(own, seq![b, a], factor, dt) is Some,
    ensures
        ({
            let (level_ab, events_ab) = diffusion(own, seq![a, b], factor, dt)->0;
            let (level_ba, events_ba) = diffusion(own, seq![b, a], factor, dt)->0;
            &&& level_ab == level_ba
            &&& events_ab == seq![events_ba[1], events_ba[0]]
        }),
{
    let ab = seq![a, b];
    let ba = seq![b, a];
    lemma_diffusion_takes_from_the_start(own, ab, factor, dt);
    lemma_diffusion_takes_from_the_start(own, ba, factor, dt);
    assert(ab.drop_last() =~= seq![a]);
    assert(ba.drop_last() =~= seq![b]);
    assert(seq![a].drop_last() =~= Seq::empty());
    assert(seq![b].drop_last() =~= Seq::empty());
    assert(seq![a].last() == a && seq![b].last() == b);
    assert(ab.last() == b && ba.last() == a);
    assert(total_flux(own, Seq::empty(), factor, dt) == 0);
    assert(total_flux(own, seq![a], factor, dt) == diffusion_flux(
        factor as int,
        own as int,
        a.2.auxin_level as int,
        dt as int,
    ));
    assert(total_flux(own, seq![b], factor, dt) == diffusion_flux(
        factor as int,
        own as int,
        b.2.auxin_level as int,
        dt as int,
    ));
    let (level_ab, events_ab) = diffusion(own, ab, factor, dt)->0;
    let (level_ba, events_ba) = diffusion(own, ba, factor, dt)->0;
    assert(events_ab =~= seq![events_ba[1], events_ba[0]]);
}

/// Once a level has left the limit, no later neighbour brings it back.
proof fn lemma_diffusion_stays_lost(
    own: i64,
    others: Seq<(u64, CellInformation, Phytohormones)>,
    factor: i64,
    dt: i64,
    upto: int,
)
    requires
        0 <= upto <= others.len(),
        diffusion(own, others.subrange(0, upto), factor, dt) is None,
    ensures
        diffusion(own, others, factor, dt) is None,
    decreases others.len() - upto,
{
    if upto < others.len() {
        assert(others.subrange(0, upto + 1).drop_last() =~= others.subrange(0, upto));
        lemma_diffusion_stays_lost(own, others, factor, dt, upto + 1);
    } else {
        assert(others.subrange(0, upto) =~= others);
    }
}

/// Computes the auxin that diffuses from a cell to a neighbour in one step.
pub fn flux_between(factor: i64, own: i64, other: i64, dt: i64) -> (flux: i128)
    requires
        in_limit(factor as int),
        in_limit(own as int),
        in_limit(other as int),
        in_limit(dt as int),
    ensures
        flux == diffusion_flux(factor as int, own as int, other as int, dt as int),
{
    let gradient: i128 = own as i128 - other as i128;
    proof {
        lemma_mul_bound(factor as int, gradient as int, 1_000_000_000_000, 2_000_000_000_000);
        lemma_mul_fixed_scaled_bound(factor as int, gradient as int, 2_000_000_000_000_000_000);
    }
    let per_time: i128 = fixed_mul(factor as i128, gradient);
    proof {
        lemma_mul_bound(per_time as int, dt as int, 2_000_000_000_000_000_000, 1_000_000_000_000);
    }
    fixed_mul(per_time, dt as i128)
}

/// Lets auxin diffuse between a cell and each of its overlapping
/// neighbours. Every flux follows from the levels before the step, so the
/// order of the neighbours has no part in it. Returns the hormones that the
/// cell keeps and, for each neighbour, the report of what left for it;
/// nothing if a flux, or the level less the fluxes so far, leaves the limit.
pub fn diffuse(
    self_hormones: &Phytohormones,
    overlapping_neighbors: &OverlappingCells,
    diffusion_factor: i64,
    dt: i64,
) -> (r: Option<(Phytohormones, Vec<HormoneFlowEvent>)>)
    requires
        self_hormones.wf(),
        overlapping_neighbors.hormones_wf(),
        in_limit(diffusion_factor as int),
        in_limit(dt as int),
    ensures
        match diffusion(self_hormones.auxin_level, overlapping_neighbors.0@, diffusion_factor, dt) {
            Some((level, events)) => r matches Some((kept, reported)) && kept == (Phytohormones {
                auxin_level: level,
                cytokinin_level: self_hormones.cytokinin_level,
            }) && reported@ == events && in_limit(level as int),
            None => r is None,
        },
{
    let mut level: i64 = self_hormones.auxin_level;
    let mut events: Vec<HormoneFlowEvent> = Vec::new();
    let n: usize = overlapping_neighbors.0.len();
    let mut i: usize = 0;
    while i < n
        invariant
            n == overlapping_neighbors.0@.len(),
            i <= n,
            self_hormones.wf(),
            overlapping_neighbors.hormones_wf(),
            in_limit(diffusion_factor as int),
            in_limit(dt as int),
            in_limit(level as int),
            diffusion(
                self_hormones.auxin_level,
                overlapping_neighbors.0@.subrange(0, i as int),
                diffusion_factor,
                dt,
            ) == Some((level, events@)),
        decreases n - i,
    {
        let ghost sub = overlapping_neighbors.0@.subrange(0, i + 1);
        proof {
            assert(sub.drop_last() =~= overlapping_neighbors.0@.subrange(0, i as int));
            assert(sub.last() == overlapping_neighbors.0@[i as int]);
            assert(overlapping_neighbors.0@[i as int].2.wf());
        }
        let target: u64 = overlapping_neighbors.0[i].0;
        let other: i64 = overlapping_neighbors.0[i].2.auxin_level;
        let flux: i128 = flux_between(diffusion_factor, self_hormones.auxin_level, other, dt);
        let limit: i128 = LIMIT as i128;
        if flux < -limit || flux > limit || (level as i128) - flux < -limit || (level as i128)
            - flux > limit {
            proof {
                assert(diffusion(self_hormones.auxin_level, sub, diffusion_factor, dt) is None);
                lemma_diffusion_stays_lost(
                    self_hormones.auxin_level,
                    overlapping_neighbors.0@,
                    diffusion_factor,
                    dt,
                    i + 1,
                );
            }
            return None;
        }
        level = ((level as i128) - flux) as i64;
        events.push(
            HormoneFlowEvent {
                target_cell: target,
                amount: Phytohormones { auxin_level: flux as i64, cytokinin_level: 0 },
            },
        );
        i = i + 1;
    }
    proof {
        assert(overlapping_neighbors.0@.subrange(0, n as int) =~= overlapping_neighbors.0@);
    }
    Some(
        (
            Phytohormones { auxin_level: level, cytokinin_level: self_hormones.cytokinin_level },
            events,
        ),
    )
}

/// The squared length of a vector.
pub open spec fn norm_sq(v: Vector3) -> int {
    dot(v.x as int, v.y as int, v.z as int, v.x as int, v.y as int, v.z as int)
}

/// The scalar product of two vectors.
pub open spec fn dot_of(a: Vector3, b: Vector3) -> int {
    dot(a.x as int, a.y as int, a.z as int, b.x as int, b.y as int, b.z as int)
}

/// The angle between two vectors is below thirty degrees: their scalar
/// product is positive and its square exceeds three quarters of the product
/// of the squared lengths. No vector is within thirty degrees of the zero
/// vector.
pub open spec fn within_cone(a: Vector3, b: Vector3) -> bool {
    dot_of(a, b) > 0 && 4 * (dot_of(a, b) * dot_of(a, b)) > 3 * (norm_sq(a) * norm_sq(b))
}

/// Tells whether the angle between two directions is below thirty degrees.
pub fn is_within_cone(a: &Vector3, b: &Vector3) -> (within: bool)
    requires
        a.is_direction(),
        b.is_direction(),
    ensures
        within == within_cone(*a, *b),
{
    let ax: i128 = a.x as i128;
    let ay: i128 = a.y as i128;
    let az: i128 = a.z as i128;
    let bx: i128 = b.x as i128;
    let by: i128 = b.y as i128;
    let bz: i128 = b.z as i128;
    proof {
        lemma_mul_bound(ax as int, bx as int, 1_000_000, 1_000_000);
        lemma_mul_bound(ay as int, by as int, 1_000_000, 1_000_000);
        lemma_mul_bound(az as int, bz as int, 1_000_000, 1_000_000);
        lemma_mul_bound(ax as int, ax as int, 1_000_000, 1_000_000);
        lemma_mul_bound(ay as int, ay as int, 1_000_000, 1_000_000);
        lemma_mul_bound(az as int, az as int, 1_000_000, 1_000_000);
        lemma_mul_bound(bx as int, bx as int, 1_000_000, 1_000_000);
        lemma_mul_bound(by as int, by as int, 1_000_000, 1_000_000);
        lemma_mul_bound(bz as int, bz as int, 1_000_000, 1_000_000);
    }
    let d: i128 = ax * bx + ay * by + az * bz;
    let na: i128 = ax * ax + ay * ay + az * az;
    let nb: i128 = bx * bx + by * by + bz * bz;
    proof {
        lemma_mul_bound(d as int, d as int, 3_000_000_000_000, 3_000_000_000_000);
        lemma_mul_bound(na as int, nb as int, 3_000_000_000_000, 3_000_000_000_000);
    }
    d > 0 && 4 * (d * d) > 3 * (na * nb)
}

/// The auxin that active transport moves to one neighbour in one step: the
/// transport factor times the length of the step times the distance to the
/// target.
pub open spec fn transport_flux(factor: int, dt: int, dist: int) -> int {
    mul_fixed(mul_fixed(factor, dt), dist)
}

/// What active transport leaves of the level `own` after the neighbours
/// have been visited in turn, with the reports of what left; nothing once
/// the level has left the limit. A neighbour receives the flux if it lies
/// within thirty degrees of the direction `toward` as seen from `origin`
/// and the level that the neighbours before it left is positive.
pub open spec fn transport(
    own: i64,
    origin: Point3,
    toward: Vector3,
    flux: int,
    others: Seq<(u64, CellInformation, Phytohormones)>,
) -> Option<(i64, Seq<HormoneFlowEvent>)>
    decreases others.len(),
{
    if others.len() == 0 {
        Some((own, Seq::empty()))
    } else {
        match transport(own, origin, toward, flux, others.drop_last()) {
            None => None,
            Some((level, events)) => {
                if level > 0 && within_cone(
                    toward,
                    direction_spec(origin, others.last().1.position),
                ) {
                    if in_limit(level - flux) {
                        Some(
                            ((level - flux) as i64, events.push(auxin_flow(others.last().0, flux))),
                        )
                    } else {
                        None
                    }
                } else {
                    Some((level, events))
                }
            },
        }
    }
}

/// What active transport toward `target` makes of a cell's hormones, with
/// the reports of what left; nothing if the flux or the cell's level leaves
/// the limit.
pub open spec fn active_transport_spec(
    info: CellInformation,
    hormones: Phytohormones,
    target: Point3,
    others: Seq<(u64, CellInformation, Phytohormones)>,
    factor: i64,
    dt: i64,
) -> Option<(Phytohormones, Seq<HormoneFlowEvent>)> {
    let flux = transport_flux(
        factor as int,
        dt as int,
        sqrt_floor(dist_sq(info.position, target)),
    );
    if !in_limit(flux) {
        None
    } else {
        match transport(
            hormones.auxin_level,
            info.position,
            direction_spec(info.position, target),
            flux,
            others,
        ) {
            None => None,
            Some((level, events)) => Some(
                (
                    Phytohormones {
                        auxin_level: level,
                        cytokinin_level: hormones.cytokinin_level,
                    },
                    events,
                ),
            ),
        }
    }
}

/// Once a level has left the limit, no later neighbour brings it back.
proof fn lemma_transport_stays_lost(
    own: i64,
    origin: Point3,
    toward: Vector3,
    flux: int,
    others: Seq<(u64, CellInformation, Phytohormones)>,
    upto: int,
)
    requires
        0 <= upto <= others.len(),
        transport(own, origin, toward, flux, others.subrange(0, upto)) is None,
    ensures
        transport(own, origin, toward, flux, others) is None,
    decreases others.len() - upto,
{
    if upto < others.len() {
        assert(others.subrange(0, upto + 1).drop_last() =~= others.subrange(0, upto));
        lemma_transport_stays_lost(own, origin, toward, flux, others, upto + 1);
    } else {
        assert(others.subrange(0, upto) =~= others);
    }
}

/// Moves auxin from a cell toward a target: each overlapping neighbour that
/// lies within thirty degrees of the direction to the target receives the
/// same amount, as long as the cell's auxin is positive. Returns the
/// hormones that the cell keeps and the reports of what left; nothing if the
/// amount or the cell's level leaves the limit.
pub fn active_transport(
    self_cell_info: &CellInformation,
    self_hormones: &Phytohormones,
    target: &Point3,
    overlapping_neighbors: &OverlappingCells,
    transport_factor: i64,
    dt: i64,
) -> (r: Option<(Phytohormones, Vec<HormoneFlowEvent>)>)
    requires
        self_cell_info.position.in_bounds(),
        target.within_reach(),
        self_hormones.wf(),
        overlapping_neighbors.wf(),
        in_limit(transport_factor as int),
        in_limit(dt as int),
    ensures
        match active_transport_spec(
            *self_cell_info,
            *self_hormones,
            *target,
            overlapping_neighbors.0@,
            transport_factor,
            dt,
        ) {
            Some((hormones, events)) => r matches Some((kept, reported)) && kept == hormones
                && reported@ == events && hormones.wf(),
            None => r is None,
        },
{
    let dist: i64 = distance(&self_cell_info.position, target);
    proof {
        lemma_mul_bound(transport_factor as int, dt as int, 1_000_000_000_000, 1_000_000_000_000);
        lemma_mul_fixed_scaled_bound(
            transport_factor as int,
            dt as int,
            1_000_000_000_000_000_000,
        );
    }
    let per_length: i128 = fixed_mul(transport_factor as i128, dt as i128);
    proof {
        lemma_mul_bound(
            per_length as int,
            dist as int,
            1_000_000_000_000_000_000,
            8_000_000_000_000,
        );
    }
    let flux: i128 = fixed_mul(per_length, dist as i128);
    let limit: i128 = LIMIT as i128;
    if flux < -limit || flux > limit {
        return None;
    }
    let toward: Vector3 = direction(&self_cell_info.position, target);
    let mut level: i64 = self_hormones.auxin_level;
    let mut events: Vec<HormoneFlowEvent> = Vec::new();
    let n: usize = overlapping_neighbors.0.len();
    let mut i: usize = 0;
    while i < n
        invariant
            n == overlapping_neighbors.0@.len(),
            i <= n,
            overlapping_neighbors.wf(),
            self_cell_info.position.in_bounds(),
            toward.is_direction(),
            toward == direction_spec(self_cell_info.position, *target),
            flux == transport_flux(
                transport_factor as int,
                dt as int,
                sqrt_floor(dist_sq(self_cell_info.position, *target)),
            ),
            limit == LIMIT,
            in_limit(flux as int),
            in_limit(level as int),
            transport(
                self_hormones.auxin_level,
                self_cell_info.position,
                toward,
                flux as int,
                overlapping_neighbors.0@.subrange(0, i as int),
            ) == Some((level, events@)),
        decreases n - i,
    {
        let ghost sub = overlapping_neighbors.0@.subrange(0, i + 1);
        proof {
            assert(sub.drop_last() =~= overlapping_neighbors.0@.subrange(0, i as int));
            assert(sub.last() == overlapping_neighbors.0@[i as int]);
            assert(overlapping_neighbors.0@[i as int].1.wf());
        }
        let target_cell: u64 = overlapping_neighbors.0[i].0;
        let other_position: Point3 = overlapping_neighbors.0[i].1.position;
        let other_dir: Vector3 = direction(&self_cell_info.position, &other_position);
        if level > 0 && is_within_cone(&toward, &other_dir) {
            if (level as i128) - flux < -limit || (level as i128) - flux > limit {
                proof {
                    assert(transport(
                        self_hormones.auxin_level,
                        self_cell_info.position,
                        toward,
                        flux as int,
                        sub,
                    ) is None);
                    lemma_transport_stays_lost(
                        self_hormones.auxin_level,
                        self_cell_info.position,
                        toward,
                        flux as int,
                        overlapping_neighbors.0@,
                        i + 1,
                    );
                }
                return None;
            }
            level = ((level as i128) - flux) as i64;
            events.push(
                HormoneFlowEvent {
                    target_cell,
                    amount: Phytohormones { auxin_level: flux as i64, cytokinin_level: 0 },
                },
            );
        }
        i = i + 1;
    }
    proof {
        assert(overlapping_neighbors.0@.subrange(0, n as int) =~= overlapping_neighbors.0@);
    }
    Some(
        (
            Phytohormones { auxin_level: level, cytokinin_level: self_hormones.cytokinin_level },
            events,
        ),
    )
}

} // verus!
