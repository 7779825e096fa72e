use vstd::prelude::*;
use crate::scalar::Scalar;
use crate::vector::{zeros, seq_sum, seq_diff, seq_scaled, seq_dot, total_prefix, wrapped};
use crate::prop::Prop;
use crate::lattice::{lattice_positions, site_count};

verus! {

/// One half, as the scalar type computes it.
pub open spec fn half<S: Scalar>() -> S {
    S::quotient(S::count(1), S::count(2))
}

/// The magnitude factor of the Lennard-Jones force at squared distance `r2`,
/// in reduced units: `48 s6 (s6 - 1/2) s2` with `s2 = 1 / r2`, `s6 = s2^3`,
/// multiplied from the left.
pub open spec fn force_value<S: Scalar>(r2: S) -> S {
    let s2 = S::quotient(S::count(1), r2);
    let s6 = S::product(S::product(s2, s2), s2);
    S::product(S::product(S::product(S::count(48), s6), S::diff(s6, half::<S>())), s2)
}

/// The potential energy one pair contributes at squared distance `r2`:
/// `4 s6 (s6 - 1) + 1`.
pub open spec fn pair_energy<S: Scalar>(r2: S) -> S {
    let s2 = S::quotient(S::count(1), r2);
    let s6 = S::product(S::product(s2, s2), s2);
    S::sum(S::product(S::product(S::count(4), s6), S::diff(s6, S::count(1))), S::count(1))
}

/// The sum of the first `n` vectors of `vs`, added from the left to the zero
/// vector of dimension `d`.
pub open spec fn vector_total<S: Scalar>(vs: Seq<Seq<S>>, d: nat, n: nat) -> Seq<S>
    decreases n,
{
    if n == 0 {
        zeros::<S>(d)
    } else {
        seq_sum(vector_total(vs, d, (n - 1) as nat), vs[n - 1])
    }
}

/// The sum of the squared lengths of the first `n` vectors of `vs`, added
/// from the left to zero.
pub open spec fn square_total<S: Scalar>(vs: Seq<Seq<S>>, n: nat) -> S
    decreases n,
{
    if n == 0 {
        S::count(0)
    } else {
        S::sum(square_total(vs, (n - 1) as nat), seq_dot(vs[n - 1], vs[n - 1]))
    }
}

/// The vector of dimension `d` that is `x` along the first axis and zero
/// along the others.
pub open spec fn axis_vector<S: Scalar>(d: nat, x: S) -> Seq<S> {
    Seq::new(d, |k: int| if k == 0 { x } else { S::count(0) })
}

/// What the force evaluation has summed up at some point of its pass over
/// the pairs.
pub struct Tally<S: Scalar> {
    pub acc: Seq<Seq<S>>,
    pub u_sum: S,
    pub vir_sum: S,
}

/// The figures of one reporting window.
#[derive(Debug)]
pub struct Report<S: Scalar> {
    pub step_count: usize,
    pub t_now: S,
    /// The sum of the components of the velocity sum, per particle.
    pub velocity_sum: S,
    pub tot_energy_mean: S,
    pub tot_energy_deviation: S,
    pub kin_energy_mean: S,
    pub kin_energy_deviation: S,
    pub pressure_mean: S,
    pub pressure_deviation: S,
}

/// A simulation as mathematical values: particle `i` is at `pos[i]`, moves
/// with `vel[i]` and is accelerated by `acc[i]`.
pub struct JobModel<S: Scalar> {
    pub dimension: nat,
    pub pos: Seq<Seq<S>>,
    pub vel: Seq<Seq<S>>,
    pub acc: Seq<Seq<S>>,
    pub size: Seq<S>,
    pub delta_t: S,
    pub density: S,
    pub cut_off_radius: S,
    pub temperature: S,
    pub t_now: S,
    pub vel_magnitude: S,
    pub v_sum: Seq<S>,
    pub u_sum: S,
    pub vir_sum: S,
    pub vv_sum: S,
    pub more_cycles: bool,
    pub step_avg: nat,
    pub step_count: nat,
    pub step_equil: nat,
    pub step_limit: nat,
    pub kin_energy: Prop<S>,
    pub tot_energy: Prop<S>,
    pub pressure: Prop<S>,
}

impl<S: Scalar> JobModel<S> {
    /// The three particle sequences are aligned, and the particle count
    /// doubled, and multiplied by the dimension, fits a machine word.
    pub open spec fn well_formed(self) -> bool {
        &&& self.pos.len() == self.vel.len()
        &&& self.pos.len() == self.acc.len()
        &&& 2 * self.pos.len() <= usize::MAX
        &&& self.pos.len() * self.dimension <= usize::MAX
    }

    /// A simulation without particles: box length 50 on every axis, time
    /// step 1/1000, density 1/2, cutoff 23/2, ten steps, a report each step.
    pub open spec fn initial(d: nat) -> JobModel<S> {
        JobModel {
            dimension: d,
            pos: Seq::empty(),
            vel: Seq::empty(),
            acc: Seq::empty(),
            size: Seq::new(d, |k: int| S::count(50)),
            delta_t: S::quotient(S::count(1), S::count(1000)),
            density: half::<S>(),
            cut_off_radius: S::quotient(S::count(23), S::count(2)),
            temperature: S::count(0),
            t_now: S::count(0),
            vel_magnitude: S::count(0),
            v_sum: zeros::<S>(d),
            u_sum: S::count(0),
            vir_sum: S::count(0),
            vv_sum: S::count(0),
            more_cycles: true,
            step_avg: 1,
            step_count: 0,
            step_equil: 0,
            step_limit: 10,
            kin_energy: Prop::cleared(),
            tot_energy: Prop::cleared(),
            pressure: Prop::cleared(),
        }
    }

    /// The initial simulation with two particles on the first axis, at `+1`
    /// and `-1`, approaching each other at unit speed.
    pub open spec fn two_body(d: nat) -> JobModel<S> {
        JobModel {
            pos: seq![axis_vector(d, S::count(1)), axis_vector(d, S::opposite(S::count(1)))],
            vel: seq![axis_vector(d, S::opposite(S::count(1))), axis_vector(d, S::count(1))],
            acc: seq![zeros::<S>(d), zeros::<S>(d)],
            ..Self::initial(d)
        }
    }

    /// The particles replaced by one at rest on every site of the lattice
    /// that cuts the box into `cells[k]` cells along axis `k`.
    pub open spec fn lattice_placed(self, cells: Seq<usize>) -> JobModel<S> {
        let at_rest = Seq::new(site_count(cells) as nat, |p: int| zeros::<S>(self.dimension));
        JobModel { pos: lattice_positions(self.size, cells), vel: at_rest, acc: at_rest, ..self }
    }

    /// Every particle given the velocity `directions[i]` scaled by
    /// `magnitude`, less the mean of these velocities, which is their sum
    /// scaled by one over the particle count.
    pub open spec fn velocities_assigned(self, directions: Seq<Seq<S>>, magnitude: S) -> JobModel<S> {
        let n = self.pos.len();
        let drawn = Seq::new(n, |i: int| seq_scaled(directions[i], magnitude));
        let mean = seq_scaled(
            vector_total(drawn, self.dimension, n),
            S::quotient(S::count(1), S::count(n as usize)),
        );
        JobModel {
            vel: Seq::new(n, |i: int| seq_diff(drawn[i], mean)),
            vel_magnitude: magnitude,
            ..self
        }
    }

    /// The accelerations set to zero, one for each particle.
    pub open spec fn finished(self) -> JobModel<S> {
        JobModel { acc: Seq::new(self.pos.len(), |k: int| zeros::<S>(self.dimension)), ..self }
    }

    /// The velocities after half a time step under the current accelerations.
    pub open spec fn kicked(self) -> Seq<Seq<S>> {
        Seq::new(
            self.vel.len(),
            |i: int| seq_sum(self.vel[i], seq_scaled(self.acc[i], S::quotient(self.delta_t, S::count(2)))),
        )
    }

    /// First half of a leapfrog step: half a kick, then a full drift with the
    /// new velocities.
    pub open spec fn leapfrog_begun(self) -> JobModel<S> {
        let vel = self.kicked();
        JobModel {
            vel,
            pos: Seq::new(self.pos.len(), |i: int| seq_sum(self.pos[i], seq_scaled(vel[i], self.delta_t))),
            ..self
        }
    }

    /// Every position folded back into the box.
    pub open spec fn bounded(self) -> JobModel<S> {
        JobModel { pos: Seq::new(self.pos.len(), |i: int| wrapped(self.size, self.pos[i])), ..self }
    }

    /// Second half of a leapfrog step: the other half kick.
    pub open spec fn leapfrog_ended(self) -> JobModel<S> {
        JobModel { vel: self.kicked(), ..self }
    }

    /// The separation of particles `i` and `j`, folded to the nearest image.
    pub open spec fn separation(self, i: int, j: int) -> Seq<S> {
        wrapped(self.size, seq_diff(self.pos[i], self.pos[j]))
    }

    /// `t` with the interaction of the pair `(i, j)` added: if the squared
    /// separation is below the squared cutoff, the force accelerates `i`
    /// along the separation and `j` against it, and energy and virial grow;
    /// otherwise nothing changes.
    pub open spec fn pair_added(self, t: Tally<S>, i: int, j: int) -> Tally<S> {
        let dr = self.separation(i, j);
        let r2 = seq_dot(dr, dr);
        if S::less(r2, S::product(self.cut_off_radius, self.cut_off_radius)) {
            let f = force_value(r2);
            let acc_i = t.acc.update(i, seq_sum(t.acc[i], seq_scaled(dr, f)));
            Tally {
                acc: acc_i.update(j, seq_sum(acc_i[j], seq_scaled(dr, S::opposite(f)))),
                u_sum: S::sum(t.u_sum, pair_energy(r2)),
                vir_sum: S::sum(t.vir_sum, S::product(f, r2)),
            }
        } else {
            t
        }
    }

    /// The tally when the pass over the pairs `i < j`, taken in ascending
    /// order of `(i, j)`, is about to visit `(i, j)`; `j` equal to the
    /// particle count stands for the end of row `i`.
    pub open spec fn tally_before(self, i: int, j: int) -> Tally<S>
        decreases i, j,
    {
        if i >= 0 && j > i + 1 {
            self.pair_added(self.tally_before(i, j - 1), i, j - 1)
        } else if i > 0 {
            self.tally_before(i - 1, self.pos.len() as int)
        } else {
            Tally {
                acc: Seq::new(self.pos.len(), |k: int| zeros::<S>(self.dimension)),
                u_sum: S::count(0),
                vir_sum: S::count(0),
            }
        }
    }

    /// Accelerations, potential energy and virial recomputed from the
    /// positions. Without particles nothing is touched.
    pub open spec fn forces_computed(self) -> JobModel<S> {
        if self.acc.len() == 0 {
            self
        } else {
            let n = self.pos.len() as int;
            let t = self.tally_before(n - 1, n);
            JobModel { acc: t.acc, u_sum: t.u_sum, vir_sum: t.vir_sum, ..self }
        }
    }

    /// Velocity sums and the three instantaneous properties recomputed:
    /// kinetic energy per particle `vv_sum / 2n`, total energy per particle
    /// `kinetic + u_sum / n`, pressure `density (vv_sum + vir_sum) / (n d)`.
    pub open spec fn evaluated(self) -> JobModel<S> {
        let n = self.pos.len();
        let vv_sum = square_total(self.vel, self.vel.len());
        let kin = S::quotient(vv_sum, S::count((2 * n) as usize));
        JobModel {
            v_sum: vector_total(self.vel, self.dimension, self.vel.len()),
            vv_sum,
            kin_energy: Prop { value: kin, ..self.kin_energy },
            tot_energy: Prop {
                value: S::sum(kin, S::quotient(self.u_sum, S::count(n as usize))),
                ..self.tot_energy
            },
            pressure: Prop {
                value: S::quotient(
                    S::product(self.density, S::sum(vv_sum, self.vir_sum)),
                    S::count((n * self.dimension) as usize),
                ),
                ..self.pressure
            },
            ..self
        }
    }

    pub open spec fn accumulated(self) -> JobModel<S> {
        JobModel {
            tot_energy: self.tot_energy.accumulated(),
            kin_energy: self.kin_energy.accumulated(),
            pressure: self.pressure.accumulated(),
            ..self
        }
    }

    pub open spec fn averaged(self) -> JobModel<S> {
        JobModel {
            tot_energy: self.tot_energy.averaged(self.step_avg as usize),
            kin_energy: self.kin_energy.averaged(self.step_avg as usize),
            pressure: self.pressure.averaged(self.step_avg as usize),
            ..self
        }
    }

    pub open spec fn props_reset(self) -> JobModel<S> {
        JobModel {
            tot_energy: Prop::cleared(),
            kin_energy: Prop::cleared(),
            pressure: Prop::cleared(),
            ..self
        }
    }

    /// The report of a window whose properties have been averaged.
    pub open spec fn summary(self) -> Report<S> {
        Report {
            step_count: self.step_count as usize,
            t_now: self.t_now,
            velocity_sum: S::quotient(
                total_prefix(self.v_sum, self.dimension),
                S::count(self.pos.len() as usize),
            ),
            tot_energy_mean: self.tot_energy.sum,
            tot_energy_deviation: self.tot_energy.sum2,
            kin_energy_mean: self.kin_energy.sum,
            kin_energy_deviation: self.kin_energy.sum2,
            pressure_mean: self.pressure.sum,
            pressure_deviation: self.pressure.sum2,
        }
    }

    /// One step up to and including the accumulation of the properties.
    pub open spec fn advanced(self) -> JobModel<S> {
        let ticked = JobModel {
            step_count: self.step_count + 1,
            t_now: S::product(S::count((self.step_count + 1) as usize), self.delta_t),
            ..self
        };
        ticked.leapfrog_begun().bounded().forces_computed().leapfrog_ended().evaluated().accumulated()
    }

    /// Whether the step taken from this state closes a reporting window.
    pub open spec fn closes_window(self) -> bool {
        ((self.step_count + 1) as int) % (self.step_avg as int) == 0
    }

    /// One whole step; a step that closes a window leaves the properties reset.
    pub open spec fn stepped(self) -> JobModel<S> {
        if self.closes_window() {
            self.advanced().averaged().props_reset()
        } else {
            self.advanced()
        }
    }

    /// What the step taken from this state reports: on closing a window its
    /// averaged properties, else nothing.
    pub open spec fn step_report(self) -> Option<Report<S>> {
        if self.closes_window() {
            Some(self.advanced().averaged().summary())
        } else {
            None
        }
    }

    /// The state in which a run started from this one stops: steps are taken
    /// while `more_cycles` holds, and it is cleared after the first step that
    /// brings `step_count` to `step_limit` or beyond.
    pub open spec fn ran(self) -> JobModel<S>
        decreases self.step_limit - self.step_count,
    {
        if !self.more_cycles {
            self
        } else if self.step_count + 1 >= self.step_limit {
            JobModel { more_cycles: false, ..self.stepped() }
        } else {
            self.stepped().ran()
        }
    }

    /// The reports of a run started from this state, in order.
    pub open spec fn run_reports(self) -> Seq<Report<S>>
        decreases self.step_limit - self.step_count,
    {
        let first = match self.step_report() {
            Some(r) => seq![r],
            None => Seq::empty(),
        };
        if !self.more_cycles {
            Seq::empty()
        } else if self.step_count + 1 >= self.step_limit {
            first
        } else {
            first + self.stepped().run_reports()
        }
    }

    /// The step count at which a run started from this state stops: the
    /// step limit, or one step further than now if that is already beyond it.
    pub open spec fn last_step(self) -> nat {
        if !self.more_cycles {
            self.step_count
        } else if self.step_limit > self.step_count {
            self.step_limit
        } else {
            self.step_count + 1
        }
    }

    /// A step advances the step count by one and keeps the stepping
    /// parameters and the number of positions and velocities.
    pub proof fn lemma_stepped_counts(self)
        ensures
            self.stepped().step_count == self.step_count + 1,
            self.stepped().step_limit == self.step_limit,
            self.stepped().step_avg == self.step_avg,
            self.stepped().more_cycles == self.more_cycles,
            self.stepped().dimension == self.dimension,
            self.stepped().pos.len() == self.pos.len(),
            self.stepped().vel.len() == self.vel.len(),
    {
    }

    /// A run stops with `more_cycles` cleared, at `last_step`, having
    /// reported once for each multiple of the window length that the step
    /// count passed; a run that may not take a step changes nothing.
    pub proof fn lemma_ran_counts(self)
        requires
            self.step_avg > 0,
        ensures
            !self.ran().more_cycles,
            self.ran().step_count == self.last_step(),
            self.ran().step_limit == self.step_limit,
            self.ran().step_avg == self.step_avg,
            self.ran().pos.len() == self.pos.len(),
            !self.more_cycles ==> self.ran() == self,
            self.run_reports().len() == self.last_step() / self.step_avg - self.step_count
                / self.step_avg,
        decreases self.step_limit - self.step_count,
    {
        if self.more_cycles {
            self.lemma_stepped_counts();
            let c = self.step_count as int;
            let a = self.step_avg as int;
            assert((c + 1) / a - c / a == (if (c + 1) % a == 0 { 1int } else { 0int })) by {
                vstd::arithmetic::div_mod::lemma_fundamental_div_mod(c, a);
                vstd::arithmetic::div_mod::lemma_fundamental_div_mod(c + 1, a);
                vstd::arithmetic::div_mod::lemma_mod_bound(c, a);
                vstd::arithmetic::div_mod::lemma_mod_bound(c + 1, a);
                let q0 = c / a;
                let q1 = (c + 1) / a;
                assert(a * (q1 - q0) == a * q1 - a * q0) by (nonlinear_arith);
                assert(q1 - q0 == 0 || q1 - q0 == 1) by (nonlinear_arith)
                    requires
                        a > 0,
                        -a < a * (q1 - q0) - 1 < a + 1,
                        a * (q1 - q0) == 1 + c % a - (c + 1) % a,
                        0 <= c % a < a,
                        0 <= (c + 1) % a < a,
                ;
                if q1 - q0 == 1 {
                    assert(a * (q1 - q0) == a) by (nonlinear_arith)
                        requires
                            q1 - q0 == 1,
                    ;
                } else {
                    assert(a * (q1 - q0) == 0) by (nonlinear_arith)
                        requires
                            q1 - q0 == 0,
                    ;
                }
            }
            if self.step_count + 1 < self.step_limit {
                self.stepped().lemma_ran_counts();
            }
        }
    }

    /// The pass over the pairs keeps one acceleration per particle.
    pub proof fn lemma_tally_shape(self, i: int, j: int)
        requires
            0 <= i < self.pos.len(),
            j <= self.pos.len(),
        ensures
            self.tally_before(i, j).acc.len() == self.pos.len(),
        decreases i, j,
    {
        if j > i + 1 {
            self.lemma_tally_shape(i, j - 1);
        } else if i > 0 {
            self.lemma_tally_shape(i - 1, self.pos.len() as int);
        }
    }

    /// A step keeps the three particle sequences aligned.
    pub proof fn lemma_stepped_well_formed(self)
        requires
            self.well_formed(),
        ensures
            self.stepped().well_formed(),
    {
        let n = self.pos.len() as int;
        if n > 0 {
            let ticked = JobModel {
                step_count: self.step_count + 1,
                t_now: S::product(S::count((self.step_count + 1) as usize), self.delta_t),
                ..self
            };
            ticked.leapfrog_begun().bounded().lemma_tally_shape(n - 1, n);
        }
    }

    /// A run keeps the three particle sequences aligned.
    pub proof fn lemma_ran_well_formed(self)
        requires
            self.well_formed(),
        ensures
            self.ran().well_formed(),
        decreases self.step_limit - self.step_count,
    {
        if self.more_cycles {
            self.lemma_stepped_well_formed();
            if self.step_count + 1 < self.step_limit {
                self.stepped().lemma_ran_well_formed();
            }
        }
    }

    /// Whether there is no particle.
    pub open spec fn is_empty(self) -> bool {
        self.pos.len() == 0 && self.vel.len() == 0 && self.acc.len() == 0
    }

    /// Without particles a step evaluates no force: potential energy and
    /// virial stay as they are, the velocity sums are zero, and a step that
    /// closes a window leaves the three properties cleared.
    pub proof fn lemma_empty_stepped(self)
        requires
            self.is_empty(),
        ensures
            self.stepped().is_empty(),
            self.stepped().u_sum == self.u_sum,
            self.stepped().vir_sum == self.vir_sum,
            self.stepped().vv_sum == S::count(0),
            self.stepped().v_sum == zeros::<S>(self.dimension),
            self.closes_window() ==> self.stepped().props_reset() == self.stepped(),
    {
    }

    /// A run without particles ends without particles and with potential
    /// energy and virial as they were; if it took a step, the velocity sums
    /// are zero, and if its last step closed a window, the three properties
    /// are cleared.
    pub proof fn lemma_empty_ran(self)
        requires
            self.is_empty(),
            self.step_avg > 0,
        ensures
            self.ran().is_empty(),
            self.ran().u_sum == self.u_sum,
            self.ran().vir_sum == self.vir_sum,
            self.more_cycles ==> self.ran().vv_sum == S::count(0),
            self.more_cycles ==> self.ran().v_sum == zeros::<S>(self.dimension),
            self.more_cycles && self.last_step() % self.step_avg == 0 ==> self.ran().props_reset()
                == self.ran(),
        decreases self.step_limit - self.step_count,
    {
        if self.more_cycles {
            self.lemma_empty_stepped();
            self.lemma_stepped_counts();
            if self.step_count + 1 < self.step_limit {
                self.stepped().lemma_empty_ran();
            }
        }
    }
}

} // verus!
