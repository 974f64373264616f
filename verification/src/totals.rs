//! What a whole sweep over the pairs conserves: the total momentum and the total
//! kinetic energy of all bodies.
//!
//! A sweep is a run of collisions, each of which conserves both quantities of its
//! pair as `conservation` states it. The totals therefore change by no more than
//! the tolerances of the collisions add up to, and not at all where every quotient
//! comes out even. As there, a velocity held back at the speed limit conserves
//! neither.

use vstd::prelude::*;
use crate::body::BodyState;
use crate::collision::{collide_at, exchanging, sweep};
use crate::conservation::{
    after_collision, divides_evenly, energy_tolerance, lemma_energy_conserved,
    lemma_momentum_conserved, momentum, twice_energy, within_speed_limit,
};
use crate::pairs::pairs_in_range;
use crate::scalar::magnitude;
use crate::vector::Vector;

verus! {

/// The sum of the values.
pub open spec fn total(values: Seq<int>) -> int
    decreases values.len(),
{
    if values.len() == 0 {
        0
    } else {
        total(values.drop_last()) + values.last()
    }
}

/// The momentum of each body along the horizontal axis.
pub open spec fn momenta_x(bodies: Seq<BodyState>) -> Seq<int> {
    Seq::new(bodies.len(), |k: int| bodies[k].mass * bodies[k].velocity.x)
}

/// The momentum of each body along the vertical axis.
pub open spec fn momenta_y(bodies: Seq<BodyState>) -> Seq<int> {
    Seq::new(bodies.len(), |k: int| bodies[k].mass * bodies[k].velocity.y)
}

/// Twice the kinetic energy of each body.
pub open spec fn twice_energies(bodies: Seq<BodyState>) -> Seq<int> {
    Seq::new(bodies.len(), |k: int| bodies[k].mass * bodies[k].velocity.norm_sq())
}

/// The total momentum of the bodies.
pub open spec fn total_momentum(bodies: Seq<BodyState>) -> Vector {
    Vector { x: total(momenta_x(bodies)), y: total(momenta_y(bodies)) }
}

/// Twice the total kinetic energy of the bodies.
pub open spec fn total_twice_energy(bodies: Seq<BodyState>) -> int {
    total(twice_energies(bodies))
}

/// Every body is valid.
pub open spec fn all_valid(bodies: Seq<BodyState>) -> bool {
    forall|k: int| 0 <= k < bodies.len() ==> (#[trigger] bodies[k]).valid()
}

/// No collision of the sweep has a velocity held back at the speed limit.
pub open spec fn sweep_unheld(bodies: Seq<BodyState>, pairs: Seq<(int, int)>) -> bool
    decreases pairs.len(),
{
    pairs.len() == 0 || {
        let before = sweep(bodies, pairs.drop_last());
        let a = before[pairs.last().0];
        let b = before[pairs.last().1];
        sweep_unheld(bodies, pairs.drop_last()) && (exchanging(a, b) ==> within_speed_limit(a, b))
    }
}

/// The quotients of every collision of the sweep come out even.
pub open spec fn sweep_even(bodies: Seq<BodyState>, pairs: Seq<(int, int)>) -> bool
    decreases pairs.len(),
{
    pairs.len() == 0 || {
        let before = sweep(bodies, pairs.drop_last());
        let a = before[pairs.last().0];
        let b = before[pairs.last().1];
        sweep_even(bodies, pairs.drop_last()) && (exchanging(a, b) ==> divides_evenly(a, b))
    }
}

/// The most that rounding can change the total momentum along an axis over the
/// sweep: for each collision, the larger of the two masses.
pub open spec fn sweep_momentum_tolerance(bodies: Seq<BodyState>, pairs: Seq<(int, int)>) -> int
    decreases pairs.len(),
{
    if pairs.len() == 0 {
        0
    } else {
        let before = sweep(bodies, pairs.drop_last());
        let a = before[pairs.last().0];
        let b = before[pairs.last().1];
        sweep_momentum_tolerance(bodies, pairs.drop_last()) + if exchanging(a, b) {
            if a.mass >= b.mass {
                a.mass
            } else {
                b.mass
            }
        } else {
            0
        }
    }
}

/// The most that rounding can change twice the total kinetic energy over the
/// sweep: the tolerances of its collisions together.
pub open spec fn sweep_energy_tolerance(bodies: Seq<BodyState>, pairs: Seq<(int, int)>) -> int
    decreases pairs.len(),
{
    if pairs.len() == 0 {
        0
    } else {
        let before = sweep(bodies, pairs.drop_last());
        let a = before[pairs.last().0];
        let b = before[pairs.last().1];
        sweep_energy_tolerance(bodies, pairs.drop_last()) + if exchanging(a, b) {
            energy_tolerance(a, b)
        } else {
            0
        }
    }
}

/// Replacing one value changes the sum by the difference of the two.
pub proof fn lemma_total_update(values: Seq<int>, i: int, v: int)
    requires
        0 <= i < values.len(),
    ensures
        total(values.update(i, v)) == total(values) - values[i] + v,
    decreases values.len(),
{
    let changed = values.update(i, v);
    if i == values.len() - 1 {
        assert(changed.drop_last() =~= values.drop_last());
    } else {
        lemma_total_update(values.drop_last(), i, v);
        assert(changed.drop_last() =~= values.drop_last().update(i, v));
    }
}

/// A sweep keeps the number of the bodies and their validity.
pub proof fn lemma_sweep_valid(bodies: Seq<BodyState>, pairs: Seq<(int, int)>)
    requires
        all_valid(bodies),
        pairs_in_range(pairs, bodies.len() as int),
    ensures
        sweep(bodies, pairs).len() == bodies.len(),
        all_valid(sweep(bodies, pairs)),
    decreases pairs.len(),
{
    if pairs.len() > 0 {
        lemma_sweep_valid(bodies, pairs.drop_last());
        let before = sweep(bodies, pairs.drop_last());
        let i = pairs.last().0;
        let j = pairs.last().1;
        assert(before[i].valid() && before[j].valid());
    }
}

/// What one visit of a pair does to the totals: they change as the momentum and
/// the energy of the pair do.
proof fn lemma_visit_totals(before: Seq<BodyState>, i: int, j: int)
    requires
        0 <= i < j < before.len(),
        exchanging(before[i], before[j]),
    ensures
        ({
            let after = collide_at(before, i, j);
            let (a2, b2) = after_collision(before[i], before[j]);
            &&& total_momentum(after).x - total_momentum(before).x == momentum(a2, b2).x
                - momentum(before[i], before[j]).x
            &&& total_momentum(after).y - total_momentum(before).y == momentum(a2, b2).y
                - momentum(before[i], before[j]).y
            &&& total_twice_energy(after) - total_twice_energy(before) == twice_energy(a2, b2)
                - twice_energy(before[i], before[j])
        }),
{
    let after = collide_at(before, i, j);
    let (a2, b2) = after_collision(before[i], before[j]);
    let px = momenta_x(before);
    let py = momenta_y(before);
    let en = twice_energies(before);
    assert(momenta_x(after) =~= px.update(i, a2.mass * a2.velocity.x).update(
        j,
        b2.mass * b2.velocity.x,
    ));
    assert(momenta_y(after) =~= py.update(i, a2.mass * a2.velocity.y).update(
        j,
        b2.mass * b2.velocity.y,
    ));
    assert(twice_energies(after) =~= en.update(i, a2.mass * a2.velocity.norm_sq()).update(
        j,
        b2.mass * b2.velocity.norm_sq(),
    ));
    lemma_total_update(px, i, a2.mass * a2.velocity.x);
    lemma_total_update(px.update(i, a2.mass * a2.velocity.x), j, b2.mass * b2.velocity.x);
    lemma_total_update(py, i, a2.mass * a2.velocity.y);
    lemma_total_update(py.update(i, a2.mass * a2.velocity.y), j, b2.mass * b2.velocity.y);
    lemma_total_update(en, i, a2.mass * a2.velocity.norm_sq());
    lemma_total_update(
        en.update(i, a2.mass * a2.velocity.norm_sq()),
        j,
        b2.mass * b2.velocity.norm_sq(),
    );
}

/// A sweep conserves the total momentum and the total kinetic energy. Where no
/// collision of it has a velocity held back at the speed limit, the total momentum
/// changes by no more than `sweep_momentum_tolerance` along each axis and twice
/// the total kinetic energy by no more than `sweep_energy_tolerance`. Where the
/// quotients of every collision come out even, both stay the same.
pub proof fn lemma_sweep_conserves(bodies: Seq<BodyState>, pairs: Seq<(int, int)>)
    requires
        all_valid(bodies),
        pairs_in_range(pairs, bodies.len() as int),
        sweep_unheld(bodies, pairs),
    ensures
        ({
            let after = sweep(bodies, pairs);
            &&& magnitude(total_momentum(after).x - total_momentum(bodies).x)
                <= sweep_momentum_tolerance(bodies, pairs)
            &&& magnitude(total_momentum(after).y - total_momentum(bodies).y)
                <= sweep_momentum_tolerance(bodies, pairs)
            &&& magnitude(total_twice_energy(after) - total_twice_energy(bodies))
                <= sweep_energy_tolerance(bodies, pairs)
            &&& sweep_even(bodies, pairs) ==> total_momentum(after) == total_momentum(bodies)
                && total_twice_energy(after) == total_twice_energy(bodies)
        }),
    decreases pairs.len(),
{
    if pairs.len() > 0 {
        let earlier = pairs.drop_last();
        let before = sweep(bodies, earlier);
        let i = pairs.last().0;
        let j = pairs.last().1;
        lemma_sweep_conserves(bodies, earlier);
        lemma_sweep_valid(bodies, earlier);
        assert(before[i].valid() && before[j].valid());
        if exchanging(before[i], before[j]) {
            lemma_visit_totals(before, i, j);
            lemma_momentum_conserved(before[i], before[j]);
            lemma_energy_conserved(before[i], before[j]);
        }
    }
}

} // verus!
