use vstd::prelude::*;
use crate::scalar::Scalar;
use crate::vector::{Vector, Region, zeros, seq_scaled};
use crate::prop::Prop;
use crate::model::{
    JobModel, Report, Tally, vector_total, square_total, axis_vector, half, force_value,
    pair_energy,
};
use crate::lattice::{
    lattice, lattice_size, lattice_site, site_count, site_index, cell_centre, lemma_cells_positive,
    MAX_SITES,
};

verus! {

/// The views of a sequence of vectors, one by one.
pub open spec fn views<S: Scalar, const D: usize>(vs: Seq<Vector<S, D>>) -> Seq<Seq<S>> {
    Seq::new(vs.len(), |i: int| vs[i]@)
}

/// The magnitude factor of the Lennard-Jones force at squared distance `r2`.
pub fn force_at<S: Scalar>(r2: S) -> (f: S)
    ensures
        f == force_value(r2),
{
    let one = S::of_count(1);
    let s2 = one.over(r2);
    let s6 = s2.times(s2).times(s2);
    S::of_count(48).times(s6).times(s6.minus(one.over(S::of_count(2)))).times(s2)
}

/// The potential energy that one pair contributes at squared distance `r2`.
pub fn energy_at<S: Scalar>(r2: S) -> (u: S)
    ensures
        u == pair_energy(r2),
{
    let one = S::of_count(1);
    let s2 = one.over(r2);
    let s6 = s2.times(s2).times(s2);
    S::of_count(4).times(s6).times(s6.minus(one)).plus(one)
}

/// A simulation: the particles, the box, the stepping parameters and the
/// running statistics.
#[derive(Debug)]
pub struct Job<S: Scalar, const D: usize> {
    pos: Vec<Vector<S, D>>,
    vel: Vec<Vector<S, D>>,
    acc: Vec<Vector<S, D>>,
    boundary: Region<S, D>,
    delta_t: S,
    density: S,
    cut_off_radius: S,
    temperature: S,
    t_now: S,
    vel_magnitude: S,
    v_sum: Vector<S, D>,
    u_sum: S,
    vir_sum: S,
    vv_sum: S,
    more_cycles: bool,
    step_avg: usize,
    step_count: usize,
    step_equil: usize,
    step_limit: usize,
    kin_energy: Prop<S>,
    tot_energy: Prop<S>,
    pressure: Prop<S>,
}

impl<S: Scalar, const D: usize> View for Job<S, D> {
    type V = JobModel<S>;

    closed spec fn view(&self) -> JobModel<S> {
        JobModel {
            dimension: D as nat,
            pos: views(self.pos@),
            vel: views(self.vel@),
            acc: views(self.acc@),
            size: self.boundary.size@,
            delta_t: self.delta_t,
            density: self.density,
            cut_off_radius: self.cut_off_radius,
            temperature: self.temperature,
            t_now: self.t_now,
            vel_magnitude: self.vel_magnitude,
            v_sum: self.v_sum@,
            u_sum: self.u_sum,
            vir_sum: self.vir_sum,
            vv_sum: self.vv_sum,
            more_cycles: self.more_cycles,
            step_avg: self.step_avg as nat,
            step_count: self.step_count as nat,
            step_equil: self.step_equil as nat,
            step_limit: self.step_limit as nat,
            kin_energy: self.kin_energy,
            tot_energy: self.tot_energy,
            pressure: self.pressure,
        }
    }
}

impl<S: Scalar, const D: usize> Job<S, D> {
    /// The invariant of a simulation between calls.
    pub open spec fn well_formed(&self) -> bool {
        self@.well_formed()
    }

    fn leapfrog_begin(&mut self)
        requires
            old(self).well_formed(),
        ensures
            final(self)@ == old(self)@.leapfrog_begun(),
    {
        let half_step = self.delta_t.over(S::of_count(2));
        let n = self.pos.len();
        let mut i: usize = 0;
        while i < n
            invariant
                i <= n,
                n == self.pos.len(),
                n == self.vel.len(),
                n == self.acc.len(),
                old(self)@.pos.len() == n,
                old(self)@.vel.len() == n,
                old(self)@.acc.len() == n,
                half_step == S::quotient(self.delta_t, S::count(2)),
                self@ == (JobModel { pos: views(self.pos@), vel: views(self.vel@), ..old(self)@ }),
                forall|k: int| 0 <= k < i ==> self.vel@[k]@ == old(self)@.leapfrog_begun().vel[k],
                forall|k: int| 0 <= k < i ==> self.pos@[k]@ == old(self)@.leapfrog_begun().pos[k],
                forall|k: int| i <= k < n ==> self.vel@[k]@ == old(self)@.vel[k],
                forall|k: int| i <= k < n ==> self.pos@[k]@ == old(self)@.pos[k],
            decreases n - i,
        {
            let kick = self.acc[i].new_scaled_by(half_step);
            self.vel[i].plus(&kick);
            let drift = self.vel[i].new_scaled_by(self.delta_t);
            self.pos[i].plus(&drift);
            i += 1;
        }
        assert(self@.vel =~= old(self)@.leapfrog_begun().vel);
        assert(self@.pos =~= old(self)@.leapfrog_begun().pos);
    }

    fn leapfrog_end(&mut self)
        requires
            old(self).well_formed(),
        ensures
            final(self)@ == old(self)@.leapfrog_ended(),
    {
        let half_step = self.delta_t.over(S::of_count(2));
        let n = self.pos.len();
        let mut i: usize = 0;
        while i < n
            invariant
                i <= n,
                n == self.vel.len(),
                n == self.acc.len(),
                old(self)@.vel.len() == n,
                old(self)@.acc.len() == n,
                half_step == S::quotient(self.delta_t, S::count(2)),
                self@ == (JobModel { vel: views(self.vel@), ..old(self)@ }),
                forall|k: int| 0 <= k < i ==> self.vel@[k]@ == old(self)@.kicked()[k],
                forall|k: int| i <= k < n ==> self.vel@[k]@ == old(self)@.vel[k],
            decreases n - i,
        {
            let kick = self.acc[i].new_scaled_by(half_step);
            self.vel[i].plus(&kick);
            i += 1;
        }
        assert(self@.vel =~= old(self)@.kicked());
    }

    fn apply_boundary_conditions(&mut self)
        ensures
            final(self)@ == old(self)@.bounded(),
    {
        let n = self.pos.len();
        let mut i: usize = 0;
        while i < n
            invariant
                i <= n,
                n == self.pos.len(),
                old(self)@.pos.len() == n,
                self@ == (JobModel { pos: views(self.pos@), ..old(self)@ }),
                forall|k: int| 0 <= k < i ==> self.pos@[k]@ == old(self)@.bounded().pos[k],
                forall|k: int| i <= k < n ==> self.pos@[k]@ == old(self)@.pos[k],
            decreases n - i,
        {
            self.boundary.wrap(&mut self.pos[i]);
            i += 1;
        }
        assert(self@.pos =~= old(self)@.bounded().pos);
    }

    fn reset_acc(&mut self)
        ensures
            final(self)@ == old(self)@.finished(),
    {
        self.acc.clear();
        let n = self.pos.len();
        let mut i: usize = 0;
        while i < n
            invariant
                i <= n,
                n == self.pos.len(),
                self.acc.len() == i,
                self@ == (JobModel { acc: views(self.acc@), ..old(self)@ }),
                forall|k: int| 0 <= k < i ==> self.acc@[k]@ == zeros::<S>(D as nat),
            decreases n - i,
        {
            self.acc.push(Vector::new());
            i += 1;
        }
        assert(self@.acc =~= Seq::new(old(self)@.pos.len(), |k: int| zeros::<S>(D as nat)));
    }

    fn reset_props(&mut self)
        ensures
            final(self)@ == old(self)@.props_reset(),
    {
        self.tot_energy.reset();
        self.kin_energy.reset();
        self.pressure.reset();
    }

    /// The positions, by particle.
    pub fn pos(&self) -> (r: &Vec<Vector<S, D>>)
        ensures
            views(r@) == self@.pos,
    {
        &self.pos
    }

    /// The velocities, by particle.
    pub fn vel(&self) -> (r: &Vec<Vector<S, D>>)
        ensures
            views(r@) == self@.vel,
    {
        &self.vel
    }

    /// The accelerations, by particle.
    pub fn acc(&self) -> (r: &Vec<Vector<S, D>>)
        ensures
            views(r@) == self@.acc,
    {
        &self.acc
    }

    /// The sum of all velocities, as of the last step.
    pub fn v_sum(&self) -> (r: &Vector<S, D>)
        ensures
            r@ == self@.v_sum,
    {
        &self.v_sum
    }

    /// The potential energy summed over the pairs, as of the last step.
    pub fn u_sum(&self) -> (r: S)
        ensures
            r == self@.u_sum,
    {
        self.u_sum
    }

    /// The virial summed over the pairs, as of the last step.
    pub fn vir_sum(&self) -> (r: S)
        ensures
            r == self@.vir_sum,
    {
        self.vir_sum
    }

    /// The sum of the squared velocities, as of the last step.
    pub fn vv_sum(&self) -> (r: S)
        ensures
            r == self@.vv_sum,
    {
        self.vv_sum
    }

    /// The number of steps taken.
    pub fn step_count(&self) -> (r: usize)
        ensures
            r == self@.step_count,
    {
        self.step_count
    }

    /// Whether a run would take another step.
    pub fn more_cycles(&self) -> (r: bool)
        ensures
            r == self@.more_cycles,
    {
        self.more_cycles
    }

    /// The statistic of the kinetic energy per particle.
    pub fn kin_energy(&self) -> (r: &Prop<S>)
        ensures
            *r == self@.kin_energy,
    {
        &self.kin_energy
    }

    /// The statistic of the total energy per particle.
    pub fn tot_energy(&self) -> (r: &Prop<S>)
        ensures
            *r == self@.tot_energy,
    {
        &self.tot_energy
    }

    /// The statistic of the pressure.
    pub fn pressure(&self) -> (r: &Prop<S>)
        ensures
            *r == self@.pressure,
    {
        &self.pressure
    }

    /// The number of particles.
    pub fn n_mol(&self) -> (n: usize)
        ensures
            n == self@.pos.len(),
    {
        self.pos.len()
    }

    fn compute_forces(&mut self)
        requires
            old(self).well_formed(),
        ensures
            final(self)@ == old(self)@.forces_computed(),
            final(self).well_formed(),
    {
        if self.acc.len() == 0 {
            return ;
        }
        let ghost m = self@;
        self.reset_acc();
        assert(self.acc.len() == self@.acc.len());
        self.u_sum = S::of_count(0);
        self.vir_sum = S::of_count(0);
        let cut_off_squared = self.cut_off_radius.times(self.cut_off_radius);
        let n = self.pos.len();
        let mut i: usize = 0;
        while i < n - 1
            invariant
                1 <= n,
                i <= n - 1,
                n == self.pos.len(),
                n == self.acc.len(),
                m.pos.len() == n,
                m.dimension == D,
                cut_off_squared == S::product(m.cut_off_radius, m.cut_off_radius),
                self@ == (JobModel {
                    acc: views(self.acc@),
                    u_sum: self.u_sum,
                    vir_sum: self.vir_sum,
                    ..m
                }),
                (Tally { acc: views(self.acc@), u_sum: self.u_sum, vir_sum: self.vir_sum })
                    == m.tally_before(i as int, i + 1),
            decreases n - i,
        {
            let mut j: usize = i + 1;
            while j < n
                invariant
                    i < n - 1,
                    i + 1 <= j <= n,
                    n == self.pos.len(),
                    n == self.acc.len(),
                    m.pos.len() == n,
                    m.dimension == D,
                    cut_off_squared == S::product(m.cut_off_radius, m.cut_off_radius),
                    self@ == (JobModel {
                        acc: views(self.acc@),
                        u_sum: self.u_sum,
                        vir_sum: self.vir_sum,
                        ..m
                    }),
                    (Tally { acc: views(self.acc@), u_sum: self.u_sum, vir_sum: self.vir_sum })
                        == m.tally_before(i as int, j as int),
                decreases n - j,
            {
                let ghost before = Tally {
                    acc: views(self.acc@),
                    u_sum: self.u_sum,
                    vir_sum: self.vir_sum,
                };
                let mut distance_vector = self.pos[i].difference(&self.pos[j]);
                self.boundary.wrap(&mut distance_vector);
                let distance_squared = distance_vector.vector_squared();
                if distance_squared.below(cut_off_squared) {
                    let force = force_at(distance_squared);
                    self.acc[i].plus(&distance_vector.new_scaled_by(force));
                    self.acc[j].plus(&distance_vector.new_scaled_by(force.negated()));
                    self.u_sum = self.u_sum.plus(energy_at(distance_squared));
                    self.vir_sum = self.vir_sum.plus(force.times(distance_squared));
                }
                proof {
                    let after = m.pair_added(before, i as int, j as int);
                    assert(views(self.acc@) =~= after.acc);
                    assert(m.tally_before(i as int, j + 1) == after);
                }
                j += 1;
            }
            i += 1;
        }
    }

    fn evaluate_properties(&mut self)
        requires
            old(self).well_formed(),
        ensures
            final(self)@ == old(self)@.evaluated(),
    {
        self.v_sum = Vector::new();
        self.vv_sum = S::of_count(0);
        let n = self.vel.len();
        let mut i: usize = 0;
        while i < n
            invariant
                i <= n,
                n == self.vel.len(),
                self@ == (JobModel { v_sum: self.v_sum@, vv_sum: self.vv_sum, ..old(self)@ }),
                self.v_sum@ == vector_total(old(self)@.vel, D as nat, i as nat),
                self.vv_sum == square_total(old(self)@.vel, i as nat),
            decreases n - i,
        {
            self.v_sum.plus(&self.vel[i]);
            let vv = self.vel[i].squared_length();
            self.vv_sum = self.vv_sum.plus(vv);
            i += 1;
        }
        let count = self.n_mol();
        self.kin_energy.value = self.vv_sum.over(S::of_count(2 * count));
        self.tot_energy.value = self.kin_energy.value.plus(self.u_sum.over(S::of_count(count)));
        self.pressure.value = self.density.times(self.vv_sum.plus(self.vir_sum)).over(
            S::of_count(count * D),
        );
    }

    fn accumulate_properties(&mut self)
        ensures
            final(self)@ == old(self)@.accumulated(),
    {
        self.tot_energy.accumulate();
        self.kin_energy.accumulate();
        self.pressure.accumulate();
    }

    fn average_properties(&mut self)
        ensures
            final(self)@ == old(self)@.averaged(),
    {
        self.tot_energy.average(self.step_avg);
        self.kin_energy.average(self.step_avg);
        self.pressure.average(self.step_avg);
    }

    /// The figures of the window just averaged.
    pub fn summary(&self) -> (r: Report<S>)
        ensures
            r == self@.summary(),
    {
        Report {
            step_count: self.step_count,
            t_now: self.t_now,
            velocity_sum: self.v_sum.component_sum().over(S::of_count(self.n_mol())),
            tot_energy_mean: self.tot_energy.sum,
            tot_energy_deviation: self.tot_energy.sum2,
            kin_energy_mean: self.kin_energy.sum,
            kin_energy_deviation: self.kin_energy.sum2,
            pressure_mean: self.pressure.sum,
            pressure_deviation: self.pressure.sum2,
        }
    }

    /// Takes one step and hands back the report of the window it closed, if
    /// it closed one.
    pub fn single_step(&mut self) -> (report: Option<Report<S>>)
        requires
            old(self).well_formed(),
            old(self)@.step_avg > 0,
            old(self)@.step_count < usize::MAX,
        ensures
            final(self)@ == old(self)@.stepped(),
            report == old(self)@.step_report(),
            final(self).well_formed(),
    {
        self.step_count += 1;
        self.t_now = S::of_count(self.step_count).times(self.delta_t);
        self.leapfrog_begin();
        self.apply_boundary_conditions();
        self.compute_forces();
        self.leapfrog_end();
        self.evaluate_properties();
        self.accumulate_properties();
        if self.step_count % self.step_avg == 0 {
            self.average_properties();
            let report = self.summary();
            self.reset_props();
            Some(report)
        } else {
            None
        }
    }

    /// Steps until the step limit is reached and hands back the reports of
    /// the windows closed on the way.
    pub fn run(&mut self) -> (reports: Vec<Report<S>>)
        requires
            old(self).well_formed(),
            old(self)@.step_avg > 0,
            old(self)@.step_count < usize::MAX,
        ensures
            final(self)@ == old(self)@.ran(),
            reports@ == old(self)@.run_reports(),
            final(self).well_formed(),
            !final(self)@.more_cycles,
            final(self)@.step_count == old(self)@.last_step(),
            final(self)@.pos.len() == old(self)@.pos.len(),
            reports@.len() == old(self)@.last_step() / old(self)@.step_avg - old(self)@.step_count
                / old(self)@.step_avg,
    {
        proof {
            old(self)@.lemma_ran_counts();
        }
        let mut reports: Vec<Report<S>> = Vec::new();
        while self.more_cycles
            invariant
                self.well_formed(),
                self@.step_avg > 0,
                self.more_cycles ==> self@.step_count < usize::MAX,
                self@.more_cycles == self.more_cycles,
                self@.ran() == old(self)@.ran(),
                reports@ + self@.run_reports() == old(self)@.run_reports(),
            decreases
                (if self@.more_cycles {
                    if self@.step_limit > self@.step_count {
                        self@.step_limit - self@.step_count + 1
                    } else {
                        1
                    }
                } else {
                    0
                }),
        {
            let ghost before = self@;
            let ghost sofar = reports@;
            match self.single_step() {
                Some(report) => {
                    reports.push(report);
                },
                None => {},
            }
            if self.step_count >= self.step_limit {
                self.more_cycles = false;
            }
            proof {
                assert(self@.step_count == before.step_count + 1);
                assert(self@.step_limit == before.step_limit);
                if before.step_count + 1 >= before.step_limit {
                    assert(self@ == before.ran());
                    assert(self@.run_reports() =~= Seq::<Report<S>>::empty());
                    assert(reports@ =~= sofar + before.run_reports());
                } else {
                    assert(self@ == before.stepped());
                    assert(reports@ + self@.run_reports() =~= sofar + before.run_reports());
                }
            }
        }
        assert(self@.run_reports() =~= Seq::<Report<S>>::empty());
        assert(reports@ =~= reports@ + self@.run_reports());
        reports
    }
}

impl<S: Scalar, const D: usize> Default for Job<S, D> {
    fn default() -> (r: Self)
        ensures
            r@ == JobModel::<S>::initial(D as nat),
            r.well_formed(),
    {
        let r = Job {
            pos: Vec::new(),
            vel: Vec::new(),
            acc: Vec::new(),
            boundary: Region::new([S::of_count(50);D]),
            delta_t: S::of_count(1).over(S::of_count(1000)),
            density: S::of_count(1).over(S::of_count(2)),
            cut_off_radius: S::of_count(23).over(S::of_count(2)),
            temperature: S::of_count(0),
            t_now: S::of_count(0),
            vel_magnitude: S::of_count(0),
            v_sum: Vector::new(),
            u_sum: S::of_count(0),
            vir_sum: S::of_count(0),
            vv_sum: S::of_count(0),
            more_cycles: true,
            step_avg: 1,
            step_count: 0,
            step_equil: 0,
            step_limit: 10,
            kin_energy: Prop::new(),
            tot_energy: Prop::new(),
            pressure: Prop::new(),
        };
        assert(r@.pos =~= Seq::<Seq<S>>::empty());
        assert(r@.vel =~= Seq::<Seq<S>>::empty());
        assert(r@.acc =~= Seq::<Seq<S>>::empty());
        assert(r@.size =~= Seq::new(D as nat, |k: int| S::count(50)));
        r
    }
}

/// The configuration of a simulation before it starts.
pub struct JobSetup<S: Scalar, const D: usize> {
    job: Job<S, D>,
}

impl<S: Scalar, const D: usize> View for JobSetup<S, D> {
    type V = JobModel<S>;

    closed spec fn view(&self) -> JobModel<S> {
        self.job@
    }
}

impl<S: Scalar, const D: usize> JobSetup<S, D> {
    /// A setup holds a well-formed simulation between calls.
    pub open spec fn well_formed(&self) -> bool {
        self@.well_formed()
    }

    /// The two-body configuration with the initial parameters.
    pub fn start() -> (r: Self)
        requires
            1 <= D,
            2 * D <= usize::MAX,
        ensures
            r@ == JobModel::<S>::two_body(D as nat),
            r.well_formed(),
    {
        let mut result = Self { job: Job::default() };
        result.trivial_pos();
        result.trivial_vels();
        result.job.reset_acc();
        assert(result@.pos =~= JobModel::<S>::two_body(D as nat).pos);
        assert(result@.vel =~= JobModel::<S>::two_body(D as nat).vel);
        assert(result@.acc =~= JobModel::<S>::two_body(D as nat).acc);
        result
    }

    fn trivial_pos(&mut self)
        requires
            1 <= D,
        ensures
            final(self)@ == (JobModel {
                pos: old(self)@.pos.push(axis_vector(D as nat, S::count(1))).push(
                    axis_vector(D as nat, S::opposite(S::count(1))),
                ),
                ..old(self)@
            }),
    {
        let mut x = [S::of_count(0);D];
        x[0] = S::of_count(1);
        assert(x@ =~= axis_vector(D as nat, S::count(1)));
        self.job.pos.push(Vector::from(x));
        let mut x = [S::of_count(0);D];
        x[0] = S::of_count(1).negated();
        assert(x@ =~= axis_vector(D as nat, S::opposite(S::count(1))));
        self.job.pos.push(Vector::from(x));
        assert(self@.pos =~= old(self)@.pos.push(axis_vector(D as nat, S::count(1))).push(
            axis_vector(D as nat, S::opposite(S::count(1))),
        ));
    }

    fn trivial_vels(&mut self)
        requires
            1 <= D,
        ensures
            final(self)@ == (JobModel {
                vel: old(self)@.vel.push(axis_vector(D as nat, S::opposite(S::count(1)))).push(
                    axis_vector(D as nat, S::count(1)),
                ),
                ..old(self)@
            }),
    {
        let mut v = [S::of_count(0);D];
        v[0] = S::of_count(1).negated();
        assert(v@ =~= axis_vector(D as nat, S::opposite(S::count(1))));
        self.job.vel.push(Vector::from(v));
        let mut v = [S::of_count(0);D];
        v[0] = S::of_count(1);
        assert(v@ =~= axis_vector(D as nat, S::count(1)));
        self.job.vel.push(Vector::from(v));
        assert(self@.vel =~= old(self)@.vel.push(axis_vector(D as nat, S::opposite(S::count(1)))).push(
            axis_vector(D as nat, S::count(1)),
        ));
    }

    /// Sets the length of the reporting window, in steps.
    pub fn step_avg(self, avg: usize) -> (r: Self)
        ensures
            r@ == (JobModel { step_avg: avg as nat, ..self@ }),
    {
        let mut s = self;
        s.job.step_avg = avg;
        s
    }

    /// Sets the number of steps after which a run stops.
    pub fn step_limit(self, limit: usize) -> (r: Self)
        ensures
            r@ == (JobModel { step_limit: limit as nat, ..self@ }),
    {
        let mut s = self;
        s.job.step_limit = limit;
        s
    }

    /// Replaces the periodic box.
    pub fn region(self, bounds: Region<S, D>) -> (r: Self)
        ensures
            r@ == (JobModel { size: bounds.size@, ..self@ }),
    {
        let mut s = self;
        s.job.boundary = bounds;
        s
    }

    /// Replaces the particles by one at rest on every site of a regular
    /// lattice that spans the box and is centred on the origin.
    pub fn init_coords(self, cells: [usize; D]) -> (r: Self)
        requires
            0 < site_count(cells@) < MAX_SITES,
            site_count(cells@) * D <= usize::MAX,
        ensures
            r@ == self@.lattice_placed(cells@),
            r.well_formed(),
    {
        let mut s = self;
        let count = lattice_size(&cells).unwrap();
        proof {
            assert forall|k: int| 0 <= k < D implies cells@[k] > 0 by {
                lemma_cells_positive(cells@, k);
            }
        }
        proof {
            self.job.boundary.size.lemma_dimension();
        }
        let mut gap = [S::of_count(0);D];
        let mut i: usize = 0;
        while i < D
            invariant
                i <= D,
                s == self,
                self@.size.len() == D,
                forall|k: int| 0 <= k < i ==> gap@[k] == S::quotient(self@.size[k], S::count(cells@[k])),
            decreases D - i,
        {
            gap[i] = s.job.boundary.size.components()[i].over(S::of_count(cells[i]));
            i += 1;
        }
        let nodes = lattice(&cells, &gap, count);
        let shift = s.job.boundary.size.new_scaled_by(S::of_count(1).over(S::of_count(2)).negated());
        s.job.pos = Vec::new();
        s.job.vel = Vec::new();
        s.job.acc = Vec::new();
        let mut p: usize = 0;
        while p < count
            invariant
                p <= count,
                count == site_count(cells@),
                nodes@.len() == count,
                self@.size.len() == D,
                shift@ == seq_scaled(self@.size, S::opposite(half::<S>())),
                forall|k: int| 0 <= k < D ==> gap@[k] == S::quotient(self@.size[k], S::count(cells@[k])),
                forall|q: int, k: int|
                    0 <= q < count && 0 <= k < D ==> (#[trigger] nodes@[q]@[k]) == cell_centre(
                        gap@[k],
                        site_index(cells@, q, k) as usize,
                    ),
                s.job.pos.len() == p,
                s.job.vel.len() == p,
                s.job.acc.len() == p,
                s@ == (JobModel {
                    pos: views(s.job.pos@),
                    vel: views(s.job.vel@),
                    acc: views(s.job.acc@),
                    ..self@
                }),
                forall|q: int| 0 <= q < p ==> s.job.pos@[q]@ == lattice_site(self@.size, cells@, q),
                forall|q: int| 0 <= q < p ==> s.job.vel@[q]@ == zeros::<S>(D as nat),
                forall|q: int| 0 <= q < p ==> s.job.acc@[q]@ == zeros::<S>(D as nat),
            decreases count - p,
        {
            let mut pos = Vector::from(nodes[p]);
            pos.plus(&shift);
            assert(pos@ =~= lattice_site(self@.size, cells@, p as int));
            s.job.pos.push(pos);
            s.job.vel.push(Vector::new());
            s.job.acc.push(Vector::new());
            p += 1;
        }
        assert(s@.pos =~= self@.lattice_placed(cells@).pos);
        assert(s@.vel =~= self@.lattice_placed(cells@).vel);
        assert(s@.acc =~= self@.lattice_placed(cells@).acc);
        s
    }

    /// Gives particle `i` the velocity `directions[i]` scaled by `magnitude`
    /// and then takes the mean velocity off every particle, so that the
    /// net momentum vanishes up to rounding.
    pub fn init_vels(self, directions: &Vec<Vector<S, D>>, magnitude: S) -> (r: Self)
        requires
            self.well_formed(),
            directions.len() == self@.pos.len(),
        ensures
            r@ == self@.velocities_assigned(views(directions@), magnitude),
            r.well_formed(),
    {
        let mut s = self;
        let ghost goal = self@.velocities_assigned(views(directions@), magnitude);
        let ghost drawn = Seq::new(
            self@.pos.len(),
            |i: int| seq_scaled(views(directions@)[i], magnitude),
        );
        let n = s.job.pos.len();
        s.job.vel_magnitude = magnitude;
        s.job.vel = Vec::new();
        let mut total = Vector::<S, D>::new();
        let mut i: usize = 0;
        while i < n
            invariant
                i <= n,
                n == directions.len(),
                n == self@.pos.len(),
                s.job.vel.len() == i,
                s@ == (JobModel { vel: views(s.job.vel@), vel_magnitude: magnitude, ..self@ }),
                drawn.len() == n,
                forall|q: int| 0 <= q < n ==> drawn[q] == seq_scaled(#[trigger] directions@[q]@, magnitude),
                forall|q: int| 0 <= q < i ==> s.job.vel@[q]@ == drawn[q],
                total@ == vector_total(drawn, D as nat, i as nat),
            decreases n - i,
        {
            let v = directions[i].new_scaled_by(magnitude);
            total.plus(&v);
            s.job.vel.push(v);
            i += 1;
        }
        let mean = total.new_scaled_by(S::of_count(1).over(S::of_count(n)));
        let mut i: usize = 0;
        while i < n
            invariant
                i <= n,
                n == self@.pos.len(),
                s.job.vel.len() == n,
                s@ == (JobModel { vel: views(s.job.vel@), vel_magnitude: magnitude, ..self@ }),
                drawn.len() == n,
                goal == self@.velocities_assigned(views(directions@), magnitude),
                mean@ == seq_scaled(
                    vector_total(drawn, D as nat, n as nat),
                    S::quotient(S::count(1), S::count(n)),
                ),
                drawn == Seq::new(
                    self@.pos.len(),
                    |i: int| seq_scaled(views(directions@)[i], magnitude),
                ),
                forall|q: int| 0 <= q < i ==> s.job.vel@[q]@ == goal.vel[q],
                forall|q: int| i <= q < n ==> s.job.vel@[q]@ == drawn[q],
            decreases n - i,
        {
            let v = s.job.vel[i].difference(&mean);
            s.job.vel.set(i, v);
            i += 1;
        }
        assert(s@.vel =~= goal.vel);
        s
    }

    /// Hands over the simulation, with one zero acceleration per particle.
    pub fn get_job(self) -> (job: Job<S, D>)
        ensures
            job@ == self@.finished(),
    {
        let mut s = self;
        s.job.reset_acc();
        s.job
    }
}

} // verus!
