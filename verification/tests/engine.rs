use mdsim::job::{energy_at, force_at, Job, JobSetup};
use mdsim::lattice::lattice_size;
use mdsim::prop::Prop;
use mdsim::scalar::Scalar;
use mdsim::vector::{Region, Vector};

/// Single-precision numbers as the engine's scalar.
#[derive(Clone, Copy, Debug, PartialEq)]
struct F(f32);

impl Scalar for F {
    fn count(n: usize) -> F {
        F(n as f32)
    }

    fn sum(a: F, b: F) -> F {
        F(a.0 + b.0)
    }

    fn diff(a: F, b: F) -> F {
        F(a.0 - b.0)
    }

    fn product(a: F, b: F) -> F {
        F(a.0 * b.0)
    }

    fn quotient(a: F, b: F) -> F {
        F(a.0 / b.0)
    }

    fn opposite(a: F) -> F {
        F(-a.0)
    }

    fn square_root(a: F) -> F {
        F(a.0.sqrt())
    }

    fn less(a: F, b: F) -> bool {
        a.0 < b.0
    }

    fn at_least(a: F, b: F) -> bool {
        a.0 >= b.0
    }

    fn of_count(n: usize) -> F {
        F::count(n)
    }

    fn plus(self, other: F) -> F {
        F::sum(self, other)
    }

    fn minus(self, other: F) -> F {
        F::diff(self, other)
    }

    fn times(self, other: F) -> F {
        F::product(self, other)
    }

    fn over(self, other: F) -> F {
        F::quotient(self, other)
    }

    fn negated(self) -> F {
        F::opposite(self)
    }

    fn root(self) -> F {
        F::square_root(self)
    }

    fn below(self, other: F) -> bool {
        F::less(self, other)
    }

    fn not_below(self, other: F) -> bool {
        F::at_least(self, other)
    }
}

fn v3(c: [f32; 3]) -> Vector<F, 3> {
    Vector::from([F(c[0]), F(c[1]), F(c[2])])
}

fn raw(v: &Vector<F, 3>) -> [f32; 3] {
    let c = v.components();
    [c[0].0, c[1].0, c[2].0]
}

#[test]
fn test_zero() {
    let a = Vector::<F, 3>::new();
    assert_eq!([0_f32; 3], raw(&a));
}

#[test]
fn test_from() {
    let a = v3([1., 3.3, 42.42]);
    assert_eq!([1., 3.3, 42.42], raw(&a));
}

#[test]
fn test_plus() {
    let mut a = Vector::<F, 3>::new();
    let b = v3([1., 2., 3.]);
    a.plus(&b);
    assert_eq!([1., 2., 3.], raw(&a));
    a.plus(&v3([-1., -2., -3.]));
    assert_eq!([0_f32; 3], raw(&a));
}

#[test]
fn test_multiply_by() {
    let mut a = v3([3.3, 2.02, 42.]);
    a.multiply_by(F(-1_f32));
    assert_eq!([-3.3, -2.02, -42.], raw(&a));
    a.multiply_by(F(1_f32));
    assert_eq!([-3.3, -2.02, -42.], raw(&a));
    a.multiply_by(F(-2_f32));
    assert_eq!([6.6, 4.04, 84.], raw(&a));
}

#[test]
fn test_dot() {
    let a = v3([1., 2., 3.]);
    let b = v3([2_f32; 3]);
    assert_eq!(F(12_f32), a.dot(&b));
    assert_eq!(F(14_f32), a.dot(&a));
    assert_eq!(F(12_f32), b.dot(&b));
}

#[test]
fn test_empty_mol() {
    let mut test = Job::<F, 3>::default();
    test.run();
}

fn close(a: f32, b: f32, tolerance: f32) -> bool {
    (a - b).abs() <= tolerance
}

#[test]
fn zero_vector_is_neutral_for_plus() {
    let mut a = v3([1.5, -2.25, 42.42]);
    a.plus(&Vector::<F, 3>::new());
    assert_eq!([1.5, -2.25, 42.42], raw(&a));
}

#[test]
fn scaling_twice_is_scaling_by_the_product() {
    let a = v3([1.5, -2.25, 8.]);
    let twice = a.new_scaled_by(F(4.)).new_scaled_by(F(-0.5));
    let once = a.new_scaled_by(F(4. * -0.5));
    assert_eq!(raw(&once), raw(&twice));
    assert_eq!([-3., 4.5, -16.], raw(&twice));
}

#[test]
fn new_scaled_by_leaves_the_original() {
    let a = v3([1., 2., 3.]);
    let b = a.new_scaled_by(F(3.));
    assert_eq!([1., 2., 3.], raw(&a));
    assert_eq!([3., 6., 9.], raw(&b));
}

#[test]
fn dot_is_symmetric_and_bilinear() {
    let a = v3([1., 2., 3.]);
    let b = v3([-4., 0.5, 2.]);
    let c = v3([7., -1., 0.25]);
    assert_eq!(a.dot(&b), b.dot(&a));
    assert_eq!(F(3.), a.dot(&b));
    let mut a_plus_b = v3([1., 2., 3.]);
    a_plus_b.plus(&b);
    assert_eq!(F(a.dot(&c).0 + b.dot(&c).0), a_plus_b.dot(&c));
    assert_eq!(F(a.dot(&c).0 * 8.), a.new_scaled_by(F(8.)).dot(&c));
    assert_eq!(F(c.dot(&a).0 * 8.), c.dot(&a.new_scaled_by(F(8.))));
}

#[test]
fn difference_is_plus_the_negative() {
    let a = v3([1., 2., 3.]);
    let b = v3([0.5, -4., 10.]);
    let d = a.difference(&b);
    let mut e = v3([1., 2., 3.]);
    e.plus(&b.new_scaled_by(F(-1.)));
    assert_eq!([0.5, 6., -7.], raw(&d));
    assert_eq!(raw(&e), raw(&d));
}

#[test]
fn squared_length_and_component_sum() {
    let a = v3([1., -2., 3.]);
    assert_eq!(F(14.), a.squared_length());
    assert_eq!(F(14.), a.vector_squared());
    assert_eq!(F(2.), a.component_sum());
}

#[test]
fn wrap_leaves_coordinates_inside_the_box() {
    let region = Region::<F, 3>::new([F(30.), F(30.), F(30.)]);
    let mut v = v3([-15., 0., 14.999]);
    region.wrap(&mut v);
    assert_eq!([-15., 0., 14.999], raw(&v));
}

#[test]
fn wrap_moves_the_upper_bound_to_the_lower() {
    let region = Region::<F, 3>::new([F(30.), F(20.), F(10.)]);
    let mut v = v3([15., 10., 5.]);
    region.wrap(&mut v);
    assert_eq!([-15., -10., -5.], raw(&v));
}

#[test]
fn wrap_moves_just_below_the_lower_bound_to_just_under_the_upper() {
    let region = Region::<F, 3>::new([F(30.), F(30.), F(30.)]);
    let mut v = v3([-15.25, 16., -44.]);
    region.wrap(&mut v);
    assert_eq!([14.75, -14., -14.], raw(&v));
    let c = raw(&v);
    assert!(c[0] < 15. && c[0] > 14.);
}

#[test]
fn wrap_is_a_single_shift_not_a_modulo() {
    let region = Region::<F, 3>::new([F(30.), F(30.), F(30.)]);
    let mut v = v3([50., -50., 0.]);
    region.wrap(&mut v);
    assert_eq!([20., -20., 0.], raw(&v));
}

#[test]
fn region_get_shift_scales_the_size() {
    let region = Region::<F, 3>::new([F(30.), F(20.), F(10.)]);
    assert_eq!([-15., -10., -5.], raw(&region.get_shift(F(-0.5))));
    assert_eq!([30., 20., 10.], raw(&region.size));
}

#[test]
fn prop_starts_and_resets_to_zero() {
    let mut p = Prop::<F>::new();
    assert_eq!((F(0.), F(0.), F(0.)), (p.value, p.sum, p.sum2));
    p.value = F(3.);
    p.accumulate();
    p.reset();
    assert_eq!((F(0.), F(0.), F(0.)), (p.value, p.sum, p.sum2));
}

#[test]
fn prop_accumulates_and_averages_a_constant() {
    let mut p = Prop::<F>::new();
    p.value = F(2.5);
    for _ in 0..4 {
        p.accumulate();
    }
    assert_eq!(F(10.), p.sum);
    assert_eq!(F(25.), p.sum2);
    p.average(4);
    assert_eq!(F(2.5), p.sum);
    assert_eq!(F(0.), p.sum2);
    assert_eq!(F(2.5), p.value);
}

#[test]
fn prop_average_gives_the_standard_deviation() {
    let mut p = Prop { value: F(0.), sum: F(10.), sum2: F(58.) };
    p.average(2);
    assert_eq!(F(5.), p.sum);
    assert_eq!(F(2.), p.sum2);
}

#[test]
fn prop_average_guards_against_negative_dispersion() {
    let mut p = Prop { value: F(0.), sum: F(10.), sum2: F(40.) };
    p.average(2);
    assert_eq!(F(5.), p.sum);
    assert_eq!(F(0.), p.sum2);
}

#[test]
fn default_job_has_the_initial_parameters() {
    let job = Job::<F, 3>::default();
    assert_eq!(0, job.n_mol());
    assert_eq!(0, job.step_count());
    assert!(job.more_cycles());
    assert_eq!(F(0.), job.u_sum());
}

#[test]
fn empty_population_runs_and_leaves_the_accumulators_zero() {
    let mut job = Job::<F, 3>::default();
    let reports = job.run();
    assert_eq!(10, reports.len());
    assert_eq!(10, job.step_count());
    assert!(!job.more_cycles());
    assert_eq!(0, job.n_mol());
    assert_eq!(F(0.), job.u_sum());
    assert_eq!(F(0.), job.vir_sum());
    assert_eq!(F(0.), job.vv_sum());
    assert_eq!([0_f32; 3], raw(job.v_sum()));
    for p in [job.kin_energy(), job.tot_energy(), job.pressure()] {
        assert_eq!((F(0.), F(0.), F(0.)), (p.value, p.sum, p.sum2));
    }
}

#[test]
fn start_places_two_particles_head_on() {
    let job = JobSetup::<F, 3>::start().get_job();
    assert_eq!(2, job.n_mol());
    assert_eq!([1., 0., 0.], raw(&job.pos()[0]));
    assert_eq!([-1., 0., 0.], raw(&job.pos()[1]));
    assert_eq!([-1., 0., 0.], raw(&job.vel()[0]));
    assert_eq!([1., 0., 0.], raw(&job.vel()[1]));
    assert_eq!(2, job.acc().len());
    assert_eq!([0_f32; 3], raw(&job.acc()[0]));
    assert_eq!([0_f32; 3], raw(&job.acc()[1]));
}

/// Leapfrog for two particles on a line under the same force law.
fn reference_two_body(steps: usize) -> ([f32; 2], [f32; 2]) {
    let dt = 1e-3_f32;
    let mut x = [1_f32, -1_f32];
    let mut v = [-1_f32, 1_f32];
    let mut a = [0_f32, 0_f32];
    for _ in 0..steps {
        for i in 0..2 {
            v[i] += a[i] * (dt / 2.);
            x[i] += v[i] * dt;
        }
        let r = x[0] - x[1];
        let s2 = 1. / (r * r);
        let s6 = s2 * s2 * s2;
        let f = 48. * s6 * (s6 - 0.5) * s2;
        a = [f * r, -f * r];
        for i in 0..2 {
            v[i] += a[i] * (dt / 2.);
        }
    }
    (x, v)
}

#[test]
fn two_particles_follow_the_reference_trajectory() {
    for steps in [1_usize, 10, 100, 400] {
        let mut job = JobSetup::<F, 3>::start().step_limit(steps).step_avg(10).get_job();
        job.run();
        let (x, v) = reference_two_body(steps);
        assert_eq!(steps, job.step_count());
        for i in 0..2 {
            let p = raw(&job.pos()[i]);
            let w = raw(&job.vel()[i]);
            assert!(close(p[0], x[i], 1e-5), "position {} after {} steps: {} vs {}", i, steps, p[0], x[i]);
            assert!(close(w[0], v[i], 1e-5), "velocity {} after {} steps: {} vs {}", i, steps, w[0], v[i]);
            assert_eq!([0., 0.], [p[1], p[2]]);
            assert_eq!([0., 0.], [w[1], w[2]]);
        }
    }
}

#[test]
fn single_step_reports_when_a_window_closes() {
    let mut job = JobSetup::<F, 3>::start().step_limit(4).step_avg(2).get_job();
    assert!(job.single_step().is_none());
    let report = job.single_step();
    assert!(report.is_some());
    let report = report.unwrap();
    assert_eq!(2, report.step_count);
    assert_eq!(F(2. * 1e-3), report.t_now);
    assert_eq!(F(0.), report.velocity_sum);
    let p = job.tot_energy();
    assert_eq!((F(0.), F(0.), F(0.)), (p.value, p.sum, p.sum2));
}

#[test]
fn run_stops_at_the_step_limit_and_reports_each_window() {
    let mut job = JobSetup::<F, 3>::start().step_limit(25).step_avg(10).get_job();
    let reports = job.run();
    assert_eq!(25, job.step_count());
    assert!(!job.more_cycles());
    assert_eq!(2, reports.len());
    assert_eq!(10, reports[0].step_count);
    assert_eq!(20, reports[1].step_count);
    assert_eq!(F(20. * 1e-3), reports[1].t_now);
    let again = job.run();
    assert_eq!(0, again.len());
    assert_eq!(25, job.step_count());
}

#[test]
fn run_takes_one_step_when_the_limit_is_already_passed() {
    let mut job = JobSetup::<F, 3>::start().step_limit(0).get_job();
    let reports = job.run();
    assert_eq!(1, job.step_count());
    assert_eq!(1, reports.len());
    assert!(!job.more_cycles());
}

#[test]
fn pair_at_unit_distance_gets_the_lennard_jones_force() {
    let mut job = JobSetup::<F, 3>::start()
        .region(Region::new([F(2.), F(50.), F(50.)]))
        .init_coords([2, 1, 1])
        .step_avg(2)
        .get_job();
    assert_eq!([-0.5, 0., 0.], raw(&job.pos()[0]));
    assert_eq!([0.5, 0., 0.], raw(&job.pos()[1]));
    assert!(job.single_step().is_none());
    assert_eq!([-24., 0., 0.], raw(&job.acc()[0]));
    assert_eq!([24., 0., 0.], raw(&job.acc()[1]));
    assert_eq!(F(1.), job.u_sum());
    assert_eq!(F(24.), job.vir_sum());
    let kick = 24_f32 * (1e-3_f32 / 2.);
    assert_eq!([-kick, 0., 0.], raw(&job.vel()[0]));
    assert_eq!([kick, 0., 0.], raw(&job.vel()[1]));
    let vv = kick * kick + kick * kick;
    assert_eq!(F(vv), job.vv_sum());
    assert_eq!([0., 0., 0.], raw(job.v_sum()));
    let kin = vv / 4.;
    assert_eq!(F(kin), job.kin_energy().value);
    assert_eq!(F(kin + 1. / 2.), job.tot_energy().value);
    assert_eq!(F(0.5 * (vv + 24.) / 6.), job.pressure().value);
    assert_eq!(job.kin_energy().value, job.kin_energy().sum);
}

#[test]
fn pairs_beyond_the_cutoff_do_not_interact() {
    let mut job = JobSetup::<F, 3>::start()
        .region(Region::new([F(48.), F(50.), F(50.)]))
        .init_coords([2, 1, 1])
        .get_job();
    assert_eq!([-12., 0., 0.], raw(&job.pos()[0]));
    job.single_step();
    assert_eq!([0., 0., 0.], raw(&job.acc()[0]));
    assert_eq!([0., 0., 0.], raw(&job.acc()[1]));
    assert_eq!(F(0.), job.u_sum());
    assert_eq!(F(0.), job.vir_sum());
}

#[test]
fn lattice_of_64_sites_fills_the_box_evenly() {
    let job = JobSetup::<F, 3>::start()
        .region(Region::new([F(30.), F(30.), F(30.)]))
        .init_coords([4, 4, 4])
        .get_job();
    assert_eq!(64, job.n_mol());
    assert_eq!(64, job.vel().len());
    assert_eq!(64, job.acc().len());
    let planes = [-11.25_f32, -3.75, 3.75, 11.25];
    for p in 0..64 {
        let c = raw(&job.pos()[p]);
        assert_eq!([planes[p / 16], planes[(p / 4) % 4], planes[p % 4]], c);
        for k in 0..3 {
            assert!(c[k] >= -15. && c[k] < 15.);
        }
        assert_eq!([0_f32; 3], raw(&job.vel()[p]));
    }
    for i in 0..3 {
        assert_eq!(7.5, planes[i + 1] - planes[i]);
    }
}

#[test]
fn lattice_size_is_the_product_of_the_cells_within_bounds() {
    assert_eq!(Some(64), lattice_size(&[4, 4, 4]));
    assert_eq!(Some(10), lattice_size(&[10, 1, 1]));
    assert_eq!(Some(999_999), lattice_size(&[999_999, 1, 1]));
    assert_eq!(None, lattice_size(&[1000, 1000, 1]));
    assert_eq!(None, lattice_size(&[4, 0, 4]));
    assert_eq!(None, lattice_size(&[usize::MAX, usize::MAX, 0]));
    assert_eq!(None, lattice_size(&[usize::MAX, 2, 2]));
}

/// Directions that differ from particle to particle, from a fixed sequence.
fn directions(n: usize) -> Vec<Vector<F, 3>> {
    let mut state = 12345_u32;
    let mut out = vec![];
    for _ in 0..n {
        let mut c = [0_f32; 3];
        for k in 0..3 {
            state = state.wrapping_mul(1664525).wrapping_add(1013904223);
            c[k] = (state >> 8) as f32 / (1_u32 << 24) as f32 - 0.5;
        }
        let length = (c[0] * c[0] + c[1] * c[1] + c[2] * c[2]).sqrt();
        out.push(v3([c[0] / length, c[1] / length, c[2] / length]));
    }
    out
}

#[test]
fn init_vels_scales_the_directions_and_removes_the_net_momentum() {
    let d = vec![v3([1., 0., 0.]), v3([0., 1., 0.])];
    let job = JobSetup::<F, 3>::start().init_vels(&d, F(2.)).get_job();
    assert_eq!([1., -1., 0.], raw(&job.vel()[0]));
    assert_eq!([-1., 1., 0.], raw(&job.vel()[1]));
    let setup = JobSetup::<F, 3>::start()
        .region(Region::new([F(30.), F(30.), F(30.)]))
        .init_coords([4, 4, 4])
        .init_vels(&directions(64), F(1.5));
    let job = setup.get_job();
    let mut total = Vector::<F, 3>::new();
    for v in job.vel().iter() {
        total.plus(v);
    }
    for c in raw(&total) {
        assert!(close(c, 0., 1e-4));
    }
}

#[test]
fn total_energy_drifts_by_less_than_a_hundredth_over_100_steps() {
    let mut job = JobSetup::<F, 3>::start()
        .step_limit(100)
        .step_avg(10)
        .region(Region::new([F(30.), F(30.), F(30.)]))
        .init_coords([4, 4, 4])
        .init_vels(&directions(64), F(1.))
        .get_job();
    let reports = job.run();
    assert_eq!(10, reports.len());
    let first = reports[0].tot_energy_mean.0;
    assert!(first.is_finite() && first != 0.);
    for r in reports.iter() {
        assert!(close(r.tot_energy_mean.0, first, 0.01 * first.abs()));
        assert!(r.kin_energy_mean.0 > 0.);
    }
    for v in job.pos().iter() {
        for c in raw(v) {
            assert!(c >= -15. && c < 15.);
        }
    }
}

#[test]
fn force_and_energy_follow_the_lennard_jones_form() {
    assert_eq!(F(24.), force_at(F(1.)));
    assert_eq!(F(1.), energy_at(F(1.)));
    assert_eq!(F(48. * 64. * 63.5 * 4.), force_at(F(0.25)));
    assert_eq!(F(4. * 64. * 63. + 1.), energy_at(F(0.25)));
    let s6 = 1. / 64_f32;
    assert_eq!(F(48. * s6 * (s6 - 0.5) * 0.25), force_at(F(4.)));
    assert!(force_at(F(4.)).0 < 0.);
    assert_eq!(F(4. * s6 * (s6 - 1.) + 1.), energy_at(F(4.)));
}
