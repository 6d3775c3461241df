//! Laws of the simulator, proved from the contracts of its functions.

use vstd::prelude::*;
use crate::diagnostics::{pair_energy, potential_row, potential_rows};
use crate::dynamics::{distance_cubed, integrated, net_force, net_force_upto, singular_for};
use crate::scalar::Scalar;
use crate::simulation::{SimData, SimulationView};

verus! {

/// The integration is semi-implicit: the velocity is updated first, by the
/// acceleration times the time step, and the position then moves by the
/// updated velocity times the time step. The mass does not change.
pub proof fn lemma_position_follows_new_velocity<S: Scalar>(
    me: SimData<S>,
    own_index: int,
    all: Seq<SimData<S>>,
    delta_t: i64,
    univ_g: S,
)
    ensures
        ({
            let next = integrated(me, own_index, all, delta_t, univ_g);
            let dt = S::spec_from_i64(delta_t);
            &&& next.vel == me.vel + net_force(me, own_index, all, univ_g).spec_div(me.mass).scale(dt)
            &&& next.pos == me.pos + next.vel.scale(dt)
            &&& next.mass == me.mass
        }),
{
}

/// A body is told apart from the others by its index alone. What the
/// snapshots hold at that index has no part in the force on the body.
pub proof fn lemma_own_entry_has_no_force<S: Scalar>(
    me: SimData<S>,
    own_index: int,
    all: Seq<SimData<S>>,
    other: SimData<S>,
    univ_g: S,
)
    requires
        0 <= own_index < all.len(),
    ensures
        net_force(me, own_index, all.update(own_index, other), univ_g) == net_force(
            me,
            own_index,
            all,
            univ_g,
        ),
        singular_for(me, own_index, all.update(own_index, other)) == singular_for(me, own_index, all),
{
    let changed = all.update(own_index, other);
    lemma_force_of_equal_others(me, own_index, all, changed, univ_g, all.len());
    if singular_for(me, own_index, all) {
        let j = choose|j: int|
            0 <= j < all.len() && j != own_index && distance_cubed(
                me,
                #[trigger] all[j],
            ).spec_is_zero();
        assert(changed[j] == all[j]);
    }
}

/// Two sets of snapshots that differ at `own_index` at most exert the same
/// force.
proof fn lemma_force_of_equal_others<S: Scalar>(
    me: SimData<S>,
    own_index: int,
    a: Seq<SimData<S>>,
    b: Seq<SimData<S>>,
    univ_g: S,
    n: nat,
)
    requires
        a.len() == b.len(),
        n <= a.len(),
        forall|j: int| 0 <= j < a.len() && j != own_index ==> a[j] == b[j],
    ensures
        net_force_upto(me, own_index, a, univ_g, n) == net_force_upto(me, own_index, b, univ_g, n),
    decreases n,
{
    if n > 0 {
        lemma_force_of_equal_others(me, own_index, a, b, univ_g, (n - 1) as nat);
    }
}

/// Steps asked for in two calls do what they do asked for in one. If the
/// first call makes all of its steps, the second goes on from there; if it
/// does not, no call can make a step any more.
pub proof fn lemma_steps_compose<S: Scalar>(v: SimulationView<S>, a: nat, b: nat)
    ensures
        v.outcome(a) is Ok ==> v.evolved(a + b) == v.evolved(a).evolved(b) && v.outcome(a + b)
            == v.evolved(a).outcome(b),
        v.outcome(a) is Err ==> v.evolved(a + b) == v.evolved(a) && v.outcome(a + b) == v.outcome(a),
{
    v.lemma_completed_at_most(a);
    if v.completed(a) < a {
        v.lemma_completed_stays(a, a + b);
    } else {
        lemma_completed_in_two(v, a, b);
        lemma_after_in_two(v, a, v.after(a).completed(b));
    }
}

/// `a` steps and then `b` more are `a + b` steps.
proof fn lemma_after_in_two<S: Scalar>(v: SimulationView<S>, a: nat, b: nat)
    ensures
        v.after(a + b) == v.after(a).after(b),
    decreases b,
{
    if b > 0 {
        lemma_after_in_two(v, a, (b - 1) as nat);
    }
}

/// Where `a` steps are all made, as many of `a + b` steps are made as `a`
/// and those of `b` that are made from there.
proof fn lemma_completed_in_two<S: Scalar>(v: SimulationView<S>, a: nat, b: nat)
    requires
        v.completed(a) == a,
    ensures
        v.completed(a + b) == a + v.after(a).completed(b),
    decreases b,
{
    if b > 0 {
        lemma_completed_in_two(v, a, (b - 1) as nat);
        let before = v.after(a).completed((b - 1) as nat);
        lemma_after_in_two(v, a, before);
    }
}

/// The simulation after `n` calls that each ask for one step, whatever the
/// calls have returned.
pub open spec fn one_by_one<S: Scalar>(v: SimulationView<S>, n: nat) -> SimulationView<S>
    decreases n,
{
    if n == 0 {
        v
    } else {
        one_by_one(v, (n - 1) as nat).evolved(1)
    }
}

/// Asking for `n` steps at once leaves the simulation as `n` calls that ask
/// for one step each leave it, and returns what the last of them returns.
pub proof fn lemma_steps_one_by_one<S: Scalar>(v: SimulationView<S>, n: nat)
    ensures
        v.evolved(n) == one_by_one(v, n),
        n > 0 ==> v.outcome(n) == one_by_one(v, (n - 1) as nat).outcome(1),
    decreases n,
{
    if n > 0 {
        let m = (n - 1) as nat;
        lemma_steps_one_by_one(v, m);
        lemma_steps_compose(v, m, 1);
        if v.outcome(m) is Err {
            // The simulation is blocked where the steps stopped, and stays so.
            v.lemma_completed_at_most(m);
            lemma_stuck_is_blocked(v, m);
            let stuck = v.evolved(m);
            assert(stuck.completed(0) == 0 && stuck.after(0) == stuck);
        }
    }
}

/// Where not all of `n` steps are made, the simulation is blocked after
/// those that are.
pub proof fn lemma_stuck_is_blocked<S: Scalar>(v: SimulationView<S>, n: nat)
    requires
        v.completed(n) < n,
    ensures
        v.evolved(n).blocked(),
    decreases n,
{
    if n > 0 {
        let before = v.completed((n - 1) as nat);
        v.lemma_completed_at_most((n - 1) as nat);
        if before < n - 1 {
            lemma_stuck_is_blocked(v, (n - 1) as nat);
        }
    }
}

/// Every step that is made finds the simulation not blocked.
pub proof fn lemma_made_steps_were_free<S: Scalar>(v: SimulationView<S>, n: nat, k: nat)
    requires
        k < v.completed(n),
    ensures
        !v.after(k).blocked(),
    decreases n,
{
    if n > 0 {
        let before = v.completed((n - 1) as nat);
        v.lemma_completed_at_most((n - 1) as nat);
        if k < before {
            lemma_made_steps_were_free(v, (n - 1) as nat, k);
        }
    }
}

/// A body that is alone has nothing to collide with: every step that is
/// asked of fewer than two bodies is made.
pub proof fn lemma_lone_body_is_free<S: Scalar>(v: SimulationView<S>, n: nat)
    requires
        v.data.len() <= 1,
    ensures
        !v.blocked(),
        v.completed(n) == n,
        v.outcome(n) is Ok,
    decreases n,
{
    if n > 0 {
        lemma_lone_body_is_free(v, (n - 1) as nat);
        v.lemma_after_keeps((n - 1) as nat);
    }
}

/// The pairs of body `i` with the bodies from `i + 1` up to, not including,
/// `k`, in the order of the second body.
pub open spec fn row_pairs(i: int, k: int) -> Seq<(int, int)>
    decreases k - i,
{
    if k <= i + 1 {
        Seq::empty()
    } else {
        row_pairs(i, k - 1).push((i, k - 1))
    }
}

/// The pairs of each of the first `m` of `n` bodies with every body behind
/// it, in the order of the first body.
pub open spec fn pairs_of_rows(m: nat, n: int) -> Seq<(int, int)>
    decreases m,
{
    if m == 0 {
        Seq::empty()
    } else {
        pairs_of_rows((m - 1) as nat, n) + row_pairs(m - 1, n)
    }
}

/// Whether the pair `p` stands before the pair `q`: by the first body, and
/// by the second where the first is the same.
pub open spec fn comes_before(p: (int, int), q: (int, int)) -> bool {
    p.0 < q.0 || (p.0 == q.0 && p.1 < q.1)
}

/// What the pair `p` of bodies takes away from the energy `sum`.
pub open spec fn less_pair_energy<S: Scalar>(data: Seq<SimData<S>>, univ_g: S) -> spec_fn(
    S,
    (int, int),
) -> S {
    |sum: S, p: (int, int)| sum - pair_energy(data[p.0], data[p.1], univ_g)
}

/// The pairs over which the potential energy of `n` bodies is summed are
/// the pairs of a body with a later body, each of them once: they stand in
/// strictly ascending order.
pub proof fn lemma_every_pair_once(n: nat)
    ensures
        forall|i: int, j: int| 0 <= i < j < n ==> pairs_of_rows(n, n as int).contains((i, j)),
        forall|k: int|
            0 <= k < pairs_of_rows(n, n as int).len() ==> {
                let p = #[trigger] pairs_of_rows(n, n as int)[k];
                0 <= p.0 < p.1 < n
            },
        forall|a: int, b: int|
            0 <= a < b < pairs_of_rows(n, n as int).len() ==> comes_before(
                #[trigger] pairs_of_rows(n, n as int)[a],
                #[trigger] pairs_of_rows(n, n as int)[b],
            ),
{
    lemma_rows(n, n as int);
}

/// The potential energy is the scalar zero, less the pair energy of every
/// pair, taken away in the order of the pairs.
pub proof fn lemma_potential_sums_over_pairs<S: Scalar>(data: Seq<SimData<S>>, univ_g: S)
    ensures
        potential_rows(data, univ_g, data.len()) == pairs_of_rows(
            data.len(),
            data.len() as int,
        ).fold_left(S::spec_zero(), less_pair_energy(data, univ_g)),
{
    lemma_rows_fold(data, univ_g, data.len());
}

/// The entry at `t` of a row is the pair of `i` and `i + 1 + t`.
proof fn lemma_row(i: int, k: int)
    ensures
        row_pairs(i, k).len() == (if k <= i + 1 {
            0
        } else {
            k - i - 1
        }),
        forall|t: int| 0 <= t < row_pairs(i, k).len() ==> #[trigger] row_pairs(i, k)[t] == (i, i + 1 + t),
    decreases k - i,
{
    if k > i + 1 {
        lemma_row(i, k - 1);
    }
}

/// The first `m` rows hold every pair that begins with one of the first `m`
/// bodies, and no other, in ascending order.
proof fn lemma_rows(m: nat, n: int)
    requires
        m <= n,
    ensures
        forall|i: int, j: int| 0 <= i < m && i < j < n ==> pairs_of_rows(m, n).contains((i, j)),
        forall|k: int|
            0 <= k < pairs_of_rows(m, n).len() ==> {
                let p = #[trigger] pairs_of_rows(m, n)[k];
                0 <= p.0 < m && p.0 < p.1 < n
            },
        forall|a: int, b: int|
            0 <= a < b < pairs_of_rows(m, n).len() ==> comes_before(
                #[trigger] pairs_of_rows(m, n)[a],
                #[trigger] pairs_of_rows(m, n)[b],
            ),
    decreases m,
{
    if m > 0 {
        let before = pairs_of_rows((m - 1) as nat, n);
        let row = row_pairs(m - 1, n);
        let all = pairs_of_rows(m, n);
        lemma_rows((m - 1) as nat, n);
        lemma_row(m - 1, n);
        assert forall|i: int, j: int| 0 <= i < m && i < j < n implies all.contains((i, j)) by {
            if i < m - 1 {
                assert(before.contains((i, j)));
                let k = before.index_of((i, j));
                assert(all[k] == (i, j));
            } else {
                assert(all[before.len() + (j - m)] == (i, j));
            }
        }
    }
}

/// One row of the potential energy is a fold over the pairs of the row.
proof fn lemma_row_fold<S: Scalar>(data: Seq<SimData<S>>, univ_g: S, start: S, i: int, k: int)
    ensures
        potential_row(data, univ_g, start, i, k) == row_pairs(i, k).fold_left(
            start,
            less_pair_energy(data, univ_g),
        ),
    decreases k - i,
{
    if k > i + 1 {
        lemma_row_fold(data, univ_g, start, i, k - 1);
        assert(row_pairs(i, k).drop_last() == row_pairs(i, k - 1));
    }
}

/// The first `m` rows of the potential energy are a fold over their pairs.
proof fn lemma_rows_fold<S: Scalar>(data: Seq<SimData<S>>, univ_g: S, m: nat)
    ensures
        potential_rows(data, univ_g, m) == pairs_of_rows(m, data.len() as int).fold_left(
            S::spec_zero(),
            less_pair_energy(data, univ_g),
        ),
    decreases m,
{
    if m > 0 {
        let n = data.len() as int;
        let before = pairs_of_rows((m - 1) as nat, n);
        let row = row_pairs(m - 1, n);
        let all = pairs_of_rows(m, n);
        let f = less_pair_energy(data, univ_g);
        lemma_rows_fold(data, univ_g, (m - 1) as nat);
        lemma_row_fold(data, univ_g, potential_rows(data, univ_g, (m - 1) as nat), m - 1, n);
        all.lemma_fold_left_split(S::spec_zero(), f, before.len() as int);
        assert(all.subrange(0, before.len() as int) == before);
        assert(all.subrange(before.len() as int, all.len() as int) == row);
    }
}

} // verus!
