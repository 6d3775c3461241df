//! The engine: the bodies, their snapshots and the clock.

use vstd::prelude::*;
use crate::dynamics::{integrate, integrated, singular_for};
use crate::error::SimError;
use crate::scalar::Scalar;
use crate::sim_elements::{valid_mass, Planet, Simulable};
use crate::ticks::{no_ticks, one_tick, step_count};
use crate::vector::Vector2;

verus! {

/// The state of one body at the start of a step: a plain copy.
#[derive(Copy, Debug, PartialEq)]
pub struct SimData<S: Scalar> {
    pub pos: Vector2<S>,
    pub vel: Vector2<S>,
    pub mass: S,
}

impl<S: Scalar> Clone for SimData<S> {
    fn clone(&self) -> (r: Self)
        ensures
            r == *self,
    {
        *self
    }
}

/// A set of bodies under their mutual gravity, advanced in steps of a fixed
/// number of ticks.
///
/// The bodies stay in the order in which they were added. Beside each body
/// the engine keeps a snapshot of it; between two calls the snapshot of a
/// body is the state of that body.
pub struct Simulation<S: Scalar> {
    delta_t: i64,
    total_rel_t: i64,
    univ_g: S,
    sim_bodies: Vec<Planet<S>>,
    sim_datas: Vec<SimData<S>>,
}

/// A simulation as contracts see it.
pub struct SimulationView<S: Scalar> {
    /// The ticks of one step.
    pub delta_t: i64,
    /// The steps made so far.
    pub elapsed: int,
    /// The gravitational constant.
    pub univ_g: S,
    /// The names of the bodies, in the order in which they were added.
    pub names: Seq<Seq<char>>,
    /// The snapshots of the bodies, in the same order.
    pub data: Seq<SimData<S>>,
}

impl<S: Scalar> SimulationView<S> {
    /// Whether no step can be made: for some body the force has a zero
    /// divisor.
    pub open spec fn blocked(self) -> bool {
        exists|i: int| 0 <= i < self.data.len() && singular_for(#[trigger] self.data[i], i, self.data)
    }

    /// The simulation one step later. Every body is advanced against the
    /// snapshots of the start of the step; the clock counts one step more.
    pub open spec fn stepped(self) -> Self {
        SimulationView {
            delta_t: self.delta_t,
            elapsed: self.elapsed + 1,
            univ_g: self.univ_g,
            names: self.names,
            data: Seq::new(
                self.data.len(),
                |i: int| integrated(self.data[i], i, self.data, self.delta_t, self.univ_g),
            ),
        }
    }

    /// The simulation `k` steps later.
    pub open spec fn after(self, k: nat) -> Self
        decreases k,
    {
        if k == 0 {
            self
        } else {
            self.after((k - 1) as nat).stepped()
        }
    }

    /// How many of `n` steps are made: all of them, or those before the
    /// first one that finds the simulation blocked.
    pub open spec fn completed(self, n: nat) -> nat
        decreases n,
    {
        if n == 0 {
            0
        } else {
            let before = self.completed((n - 1) as nat);
            if before == n - 1 && !self.after(before).blocked() {
                n
            } else {
                before
            }
        }
    }

    /// The simulation after `n` steps have been asked for.
    pub open spec fn evolved(self, n: nat) -> Self {
        self.after(self.completed(n))
    }

    /// What asking for `n` steps returns: an error unless all are made.
    pub open spec fn outcome(self, n: nat) -> Result<(), SimError> {
        if self.completed(n) == n {
            Ok(())
        } else {
            Err(SimError::SingularConfiguration)
        }
    }

    /// Steps change the states of the bodies and the clock, nothing else:
    /// after `k` steps the same bodies are there, in the same order and with
    /// the same masses, and the clock has counted `k` steps more.
    pub proof fn lemma_after_keeps(self, k: nat)
        ensures
            self.after(k).delta_t == self.delta_t,
            self.after(k).univ_g == self.univ_g,
            self.after(k).names == self.names,
            self.after(k).elapsed == self.elapsed + k,
            self.after(k).data.len() == self.data.len(),
            forall|i: int|
                0 <= i < self.data.len() ==> (#[trigger] self.after(k).data[i]).mass == self.data[i].mass,
        decreases k,
    {
        if k > 0 {
            self.lemma_after_keeps((k - 1) as nat);
        }
    }

    /// No more steps are made than were asked for.
    pub proof fn lemma_completed_at_most(self, n: nat)
        ensures
            self.completed(n) <= n,
        decreases n,
    {
        if n > 0 {
            self.lemma_completed_at_most((n - 1) as nat);
        }
    }

    /// Once a step has been refused, asking for more steps makes no more.
    pub proof fn lemma_completed_stays(self, m: nat, n: nat)
        requires
            m <= n,
            self.completed(m) < m,
        ensures
            self.completed(n) == self.completed(m),
        decreases n,
    {
        if n > m {
            self.lemma_completed_stays(m, (n - 1) as nat);
        }
    }
}

impl<S: Scalar> View for Simulation<S> {
    type V = SimulationView<S>;

    closed spec fn view(&self) -> SimulationView<S> {
        SimulationView {
            delta_t: self.delta_t,
            elapsed: self.total_rel_t as int,
            univ_g: self.univ_g,
            names: Seq::new(self.sim_bodies@.len(), |i: int| self.sim_bodies@[i]@.name),
            data: self.sim_datas@,
        }
    }
}

impl<S: Scalar> Simulation<S> {
    /// The invariant of the engine: the time step is not zero, the clock is
    /// not negative, every body has its snapshot and is in the state that
    /// the snapshot shows, and every mass is valid.
    pub closed spec fn well_formed(&self) -> bool {
        &&& self.delta_t != 0
        &&& self.total_rel_t >= 0
        &&& self.sim_bodies@.len() == self.sim_datas@.len()
        &&& forall|i: int|
            0 <= i < self.sim_datas@.len() ==> (#[trigger] self.sim_bodies@[i])@.data
                == self.sim_datas@[i]
        &&& forall|i: int| 0 <= i < self.sim_datas@.len() ==> valid_mass((#[trigger] self.sim_datas@[i]).mass)
    }

    /// What the invariant of the engine shows in its view.
    pub proof fn lemma_view_of_well_formed(&self)
        requires
            self.well_formed(),
        ensures
            self@.delta_t != 0,
            self@.elapsed >= 0,
            self@.names.len() == self@.data.len(),
            forall|i: int| 0 <= i < self@.data.len() ==> valid_mass((#[trigger] self@.data[i]).mass),
    {
    }

    /// An empty simulation that advances by `time_granularity` ticks a step,
    /// unless that is zero.
    pub fn new(time_granularity: i64, univ_g: S) -> (r: Result<Simulation<S>, SimError>)
        ensures
            match r {
                Ok(sim) => time_granularity != 0 && sim.well_formed() && sim@ == (SimulationView {
                    delta_t: time_granularity,
                    elapsed: 0,
                    univ_g,
                    names: Seq::empty(),
                    data: Seq::empty(),
                }),
                Err(e) => time_granularity == 0 && e == SimError::InvalidTimeStep,
            },
    {
        if time_granularity == no_ticks() {
            return Err(SimError::InvalidTimeStep);
        }
        let sim = Simulation {
            delta_t: time_granularity,
            total_rel_t: no_ticks(),
            univ_g,
            sim_bodies: Vec::new(),
            sim_datas: Vec::new(),
        };
        assert(sim@.names =~= Seq::empty());
        Ok(sim)
    }

    /// Adds `body` behind the bodies that are there, with its snapshot.
    pub fn add_body(&mut self, body: Planet<S>)
        requires
            old(self).well_formed(),
        ensures
            final(self).well_formed(),
            final(self)@ == (SimulationView {
                names: old(self)@.names.push(body@.name),
                data: old(self)@.data.push(body@.data),
                ..old(self)@
            }),
    {
        let data = body.get_data();
        self.sim_bodies.push(body);
        self.sim_datas.push(data);
        assert(self@.names =~= old(self)@.names.push(body@.name));
    }

    /// Makes `num_of_step` steps, one after the other. A step that finds the
    /// simulation blocked is refused, and with it those that would follow:
    /// the simulation is left as the last step that was made has left it.
    pub fn evolve(&mut self, num_of_step: i64) -> (r: Result<(), SimError>)
        requires
            old(self).well_formed(),
            0 <= num_of_step <= usize::MAX,
            old(self)@.elapsed + num_of_step <= i64::MAX,
        ensures
            final(self).well_formed(),
            final(self)@ == old(self)@.evolved(num_of_step as nat),
            r == old(self)@.outcome(num_of_step as nat),
    {
        let count = match step_count(num_of_step) {
            Some(count) => count,
            None => {
                return Ok(());
            },
        };
        let mut done: usize = 0;
        while done < count
            invariant
                self.well_formed(),
                done <= count,
                count == num_of_step,
                self@ == old(self)@.after(done as nat),
                old(self)@.completed(done as nat) == done,
                old(self)@.elapsed + num_of_step <= i64::MAX,
            decreases count - done,
        {
            proof {
                old(self)@.lemma_after_keeps(done as nat);
            }
            match self.evolve_single_delta_t() {
                Ok(()) => {
                    done += 1;
                },
                Err(e) => {
                    proof {
                        old(self)@.lemma_completed_stays((done + 1) as nat, num_of_step as nat);
                    }
                    return Err(e);
                },
            }
        }
        Ok(())
    }

    /// A copy of the snapshots, in the order of the bodies.
    pub fn get_sim_data(&self) -> (r: Vec<SimData<S>>)
        ensures
            r@ == self@.data,
    {
        let mut copy: Vec<SimData<S>> = Vec::new();
        let mut i: usize = 0;
        while i < self.sim_datas.len()
            invariant
                i <= self.sim_datas@.len(),
                copy@ == self.sim_datas@.take(i as int),
            decreases self.sim_datas@.len() - i,
        {
            copy.push(self.sim_datas[i]);
            i += 1;
        }
        copy
    }

    /// The number of steps made so far.
    pub fn get_total_rel_t(&self) -> (r: i64)
        ensures
            r == self@.elapsed,
    {
        self.total_rel_t
    }

    /// The number of ticks of one step.
    pub fn get_delta_t(&self) -> (r: i64)
        ensures
            r == self@.delta_t,
    {
        self.delta_t
    }

    /// The simulated time in ticks: the steps made, times the ticks of one
    /// step. There is none where the product does not fit.
    pub fn simulated_ticks(&self) -> (r: Option<i64>)
        ensures
            r == (if i64::MIN <= self@.elapsed * self@.delta_t <= i64::MAX {
                Some((self@.elapsed * self@.delta_t) as i64)
            } else {
                None
            }),
    {
        self.total_rel_t.checked_mul(self.delta_t)
    }

    /// The names of the bodies, in their order.
    pub fn get_names(&self) -> (r: Vec<String>)
        ensures
            r@.len() == self@.names.len(),
            forall|i: int| 0 <= i < r@.len() ==> (#[trigger] r@[i])@ == self@.names[i],
    {
        let mut names: Vec<String> = Vec::new();
        let mut i: usize = 0;
        while i < self.sim_bodies.len()
            invariant
                i <= self.sim_bodies@.len(),
                names@.len() == i,
                forall|k: int| 0 <= k < i ==> (#[trigger] names@[k])@ == self@.names[k],
            decreases self.sim_bodies@.len() - i,
        {
            names.push(self.sim_bodies[i].get_name());
            i += 1;
        }
        names
    }

    /// The snapshots, as the engine holds them.
    pub(crate) fn snapshots(&self) -> (r: &Vec<SimData<S>>)
        ensures
            r@ == self@.data,
    {
        &self.sim_datas
    }

    /// The gravitational constant.
    pub(crate) fn gravity(&self) -> (r: S)
        ensures
            r == self@.univ_g,
    {
        self.univ_g
    }

    /// The state of every body one step later, or the refusal of the step.
    fn next_states(&self) -> (r: Result<Vec<SimData<S>>, SimError>)
        requires
            self.well_formed(),
        ensures
            match r {
                Ok(next) => !self@.blocked() && next@ == self@.stepped().data,
                Err(e) => self@.blocked() && e == SimError::SingularConfiguration,
            },
    {
        let n = self.sim_bodies.len();
        let mut next: Vec<SimData<S>> = Vec::new();
        let mut i: usize = 0;
        while i < n
            invariant
                self.well_formed(),
                n == self.sim_datas@.len(),
                i <= n,
                next@.len() == i,
                forall|k: int|
                    0 <= k < i ==> #[trigger] next@[k] == integrated(
                        self.sim_datas@[k],
                        k,
                        self.sim_datas@,
                        self.delta_t,
                        self.univ_g,
                    ),
                forall|k: int|
                    0 <= k < i ==> !singular_for(#[trigger] self.sim_datas@[k], k, self.sim_datas@),
            decreases n - i,
        {
            let me = self.sim_bodies[i].get_data();
            match integrate(&me, i, &self.sim_datas, self.delta_t, self.univ_g) {
                Ok(state) => {
                    next.push(state);
                },
                Err(e) => {
                    assert(singular_for(self@.data[i as int], i as int, self@.data));
                    return Err(e);
                },
            }
            i += 1;
        }
        Ok(next)
    }

    /// Makes one step, or none where the simulation is blocked.
    fn evolve_single_delta_t(&mut self) -> (r: Result<(), SimError>)
        requires
            old(self).well_formed(),
            old(self)@.elapsed < i64::MAX,
        ensures
            final(self).well_formed(),
            old(self)@.blocked() ==> r == Err::<(), SimError>(SimError::SingularConfiguration)
                && final(self)@ == old(self)@,
            !old(self)@.blocked() ==> r == Ok::<(), SimError>(()) && final(self)@ == old(self)@.stepped(),
    {
        let next = match self.next_states() {
            Ok(next) => next,
            Err(e) => {
                return Err(e);
            },
        };
        let n = self.sim_bodies.len();
        let mut i: usize = 0;
        while i < n
            invariant
                n == next@.len(),
                n == self.sim_bodies@.len(),
                i <= n,
                next@ == old(self)@.stepped().data,
                forall|k: int| 0 <= k < n ==> valid_mass((#[trigger] next@[k]).mass),
                forall|k: int| 0 <= k < i ==> (#[trigger] self.sim_bodies@[k])@.data == next@[k],
                forall|k: int|
                    0 <= k < n ==> (#[trigger] self.sim_bodies@[k])@.name == old(self)@.names[k],
                self.delta_t == old(self).delta_t,
                self.total_rel_t == old(self).total_rel_t,
                self.univ_g == old(self).univ_g,
            decreases n - i,
        {
            self.sim_bodies[i].set_data(next[i]);
            i += 1;
        }
        self.sim_datas = next;
        self.total_rel_t = self.total_rel_t + one_tick();
        assert(self@.names =~= old(self)@.names);
        Ok(())
    }
}

} // verus!
