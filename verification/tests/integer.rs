use mdsim::job::{Job, JobSetup};
use mdsim::prop::Prop;
use mdsim::scalar::Scalar;
use mdsim::vector::{Region, Vector};

#[test]
fn integer_operations_are_total() {
    assert_eq!(7_i64, <i64 as Scalar>::of_count(7));
    assert_eq!(i64::MIN, i64::MAX.plus(1));
    assert_eq!(i64::MAX, i64::MIN.minus(1));
    assert_eq!(-6, 2_i64.times(-3));
    assert_eq!(0, i64::MIN.times(2));
    assert_eq!(-3, (-7_i64).over(2));
    assert_eq!(3, 7_i64.over(2));
    assert_eq!(0, 7_i64.over(0));
    assert_eq!(0, i64::MIN.over(-1));
    assert_eq!(-5, 5_i64.negated());
    assert_eq!(i64::MIN, i64::MIN.negated());
    assert!(1_i64.below(2) && !2_i64.below(2));
    assert!(2_i64.not_below(2) && !1_i64.not_below(2));
}

#[test]
fn integer_root_is_cut_down() {
    assert_eq!(0, 0_i64.root());
    assert_eq!(1, 1_i64.root());
    assert_eq!(1, 3_i64.root());
    assert_eq!(2, 4_i64.root());
    assert_eq!(4, 17_i64.root());
    assert_eq!(0, (-9_i64).root());
    assert_eq!(3_037_000_499, i64::MAX.root());
    assert_eq!(3_037_000_499, 9_223_372_030_926_249_001_i64.root());
    assert_eq!(3_037_000_498, 9_223_372_030_926_249_000_i64.root());
}

#[test]
fn integer_vectors_obey_the_ring_laws() {
    let a = Vector::<i64, 3>::from([3, -4, 5]);
    let b = Vector::<i64, 3>::from([7, 0, -2]);
    let c = Vector::<i64, 3>::from([1, 1, 9]);
    let mut sum = Vector::<i64, 3>::from([3, -4, 5]);
    sum.plus(&Vector::new());
    assert_eq!(&[3, -4, 5], sum.components());
    assert_eq!(
        a.new_scaled_by(6).new_scaled_by(-7).components(),
        a.new_scaled_by(-42).components()
    );
    assert_eq!(11, a.dot(&b));
    assert_eq!(b.dot(&a), a.dot(&b));
    sum.plus(&b);
    assert_eq!(a.dot(&c) + b.dot(&c), sum.dot(&c));
    assert_eq!(5 * a.dot(&c), a.new_scaled_by(5).dot(&c));
    let mut e = Vector::<i64, 3>::from([3, -4, 5]);
    e.plus(&b.new_scaled_by(-1));
    assert_eq!(e.components(), a.difference(&b).components());
    assert_eq!(&[-4, -4, 7], e.components());
}

#[test]
fn integer_wrap_folds_into_the_box() {
    let region = Region::<i64, 3>::new([30, 30, 30]);
    let mut v = Vector::<i64, 3>::from([15, -16, 14]);
    region.wrap(&mut v);
    assert_eq!(&[-15, 14, 14], v.components());
    let mut w = Vector::<i64, 3>::from([-15, 0, 29]);
    region.wrap(&mut w);
    assert_eq!(&[-15, 0, -1], w.components());
}

#[test]
fn integer_prop_accumulates_and_averages() {
    let mut p = Prop::<i64>::new();
    p.value = 7;
    for _ in 0..5 {
        p.accumulate();
    }
    assert_eq!((7, 35, 245), (p.value, p.sum, p.sum2));
    p.average(5);
    assert_eq!((7, 7, 0), (p.value, p.sum, p.sum2));
    let mut q = Prop { value: 0_i64, sum: 20, sum2: 250 };
    q.average(2);
    assert_eq!((10, 5), (q.sum, q.sum2));
}

#[test]
fn integer_lattice_cuts_the_half_cell_to_zero() {
    let job = JobSetup::<i64, 2>::start().region(Region::new([40, 20])).init_coords([2, 1]).get_job();
    assert_eq!(2, job.n_mol());
    assert_eq!(&[0, 0], job.pos()[0].components());
    assert_eq!(&[20, 0], job.pos()[1].components());
}

#[test]
fn integer_job_without_particles_runs() {
    let mut job = Job::<i64, 3>::default();
    let reports = job.run();
    assert_eq!(10, reports.len());
    assert_eq!(10, job.step_count());
    assert_eq!(0, job.u_sum());
    assert_eq!(0, job.vv_sum());
}

#[test]
fn integer_ring_laws_survive_wrapping() {
    let (a, b, c) = (i64::MAX, 3_000_000_000_i64, -7_i64);
    assert_eq!(a.plus(b).plus(c), a.plus(b.plus(c)));
    assert_eq!(a.times(b).times(c), a.times(b.times(c)));
    assert_eq!(a.plus(b).times(c), a.times(c).plus(b.times(c)));
    assert_eq!(a.times(b), b.times(a));
    assert_eq!(a.minus(b), a.plus(b.times(1_i64.negated())));
    assert_eq!(a, a.plus(0));
    assert_eq!(0, 0_i64.times(a));
}
