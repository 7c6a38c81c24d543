use rand::rngs::ThreadRng;
use rand::Rng;
use rustats::distributions::Pdf;
use rustats::error::ErrorKind;
use rustats::num::FiniteF64;
use rustats::range::Range;
use rustats::samplers::{
    accepts, check_drawn, draw_axis, may_try, shrink_axis, shrink_box, Point3, SliceSampler,
    SliceSampler3d, UniformSource, DEFAULT_MAX_ATTEMPTS,
};
use std::f64::consts::PI;

fn num(x: f64) -> FiniteF64 {
    FiniteF64::new(x.to_bits()).unwrap()
}

fn val(n: FiniteF64) -> f64 {
    f64::from_bits(n.get())
}

fn spot(x: f64, y: f64, z: f64) -> Point3 {
    (num(x), num(y), num(z))
}

fn coords(p: Point3) -> (f64, f64, f64) {
    (val(p.0), val(p.1), val(p.2))
}

/// The thread's generator as a source.
struct Random(ThreadRng);

impl UniformSource for Random {
    fn gen_range(&mut self, low: FiniteF64, high: FiniteF64) -> FiniteF64 {
        assert!(low < high);
        num(self.0.gen_range(val(low), val(high)))
    }
}

/// A source that answers from a list and records what it was asked.
struct Script {
    answers: Vec<f64>,
    asked: Vec<(f64, f64)>,
}

impl Script {
    fn new(answers: &[f64]) -> Self {
        let mut answers = answers.to_vec();
        answers.reverse();
        Script { answers, asked: Vec::new() }
    }
}

impl UniformSource for Script {
    fn gen_range(&mut self, low: FiniteF64, high: FiniteF64) -> FiniteF64 {
        assert!(low < high);
        self.asked.push((val(low), val(high)));
        num(self.answers.pop().unwrap())
    }
}

/// The density of the standard normal distribution.
struct Normal;

impl Pdf<FiniteF64> for Normal {
    fn pdf(&self, x: &FiniteF64) -> FiniteF64 {
        let x = val(*x);
        let a = (2.0 * PI).sqrt();
        let b = -x.powi(2) / 2.0;
        num(b.exp() / a)
    }
}

/// The density `x` itself, on the numbers and on the first coordinate.
struct Ramp;

impl Pdf<FiniteF64> for Ramp {
    fn pdf(&self, x: &FiniteF64) -> FiniteF64 {
        *x
    }
}

impl Pdf<Point3> for Ramp {
    fn pdf(&self, x: &Point3) -> FiniteF64 {
        x.0
    }
}

/// The density `1 - x`.
struct Fall;

impl Pdf<FiniteF64> for Fall {
    fn pdf(&self, x: &FiniteF64) -> FiniteF64 {
        num(1.0 - val(*x))
    }
}

/// A product of three standard normal densities.
struct Normal3;

impl Pdf<Point3> for Normal3 {
    fn pdf(&self, x: &Point3) -> FiniteF64 {
        let (a, b, c) = coords(*x);
        num((-0.5 * (a * a + b * b + c * c)).exp())
    }
}

#[test]
fn slice_sampler_works() {
    let mut rng = Random(rand::thread_rng());
    let range = Range::new(num(0.2), num(1.5)).unwrap();
    let mut sampler = SliceSampler::new(Normal, range);
    for x in sampler.sample_n(&mut rng, 100).unwrap() {
        assert!(range.contains(&x));
    }
}

#[test]
fn slice_sampler_stays_in_its_interval_step_by_step() {
    let mut rng = Random(rand::thread_rng());
    let range = Range::new(num(-3.0), num(0.5)).unwrap();
    let mut sampler = SliceSampler::new(Normal, range);
    for _ in 0..200 {
        let x = val(sampler.sample(&mut rng).unwrap());
        assert!(-3.0 <= x && x < 0.5);
    }
}

#[test]
fn slice_sampler_3d_stays_in_its_box() {
    let mut rng = Random(rand::thread_rng());
    let range = Range { low: spot(0.0, -1.0, 2.0), high: spot(1.0, 1.0, 2.0) };
    let mut sampler = SliceSampler3d::new(Normal3, range);
    sampler.set_last_point(spot(0.5, 0.0, 2.0));
    let drawn = sampler.sample_n(&mut rng, 100).unwrap();
    assert_eq!(drawn.len(), 100);
    for p in drawn {
        let (x, y, z) = coords(p);
        assert!(0.0 <= x && x < 1.0);
        assert!(-1.0 <= y && y < 1.0);
        assert_eq!(z, 2.0);
    }
}

#[test]
fn check_drawn_takes_low_and_refuses_high() {
    assert_eq!(val(check_drawn(num(1.0), num(2.0), num(1.0)).unwrap()), 1.0);
    assert_eq!(val(check_drawn(num(1.0), num(2.0), num(1.5)).unwrap()), 1.5);
    assert_eq!(check_drawn(num(1.0), num(2.0), num(2.0)).unwrap_err().kind(), ErrorKind::Bug);
    assert_eq!(check_drawn(num(1.0), num(2.0), num(0.5)).unwrap_err().kind(), ErrorKind::Bug);
}

#[test]
fn draw_axis_fixes_an_axis_without_width() {
    let mut source = Script::new(&[]);
    assert_eq!(val(draw_axis(&mut source, num(0.7), num(0.7)).unwrap()), 0.7);
    assert!(source.asked.is_empty());
}

#[test]
fn draw_axis_asks_the_source_once() {
    let mut source = Script::new(&[0.25]);
    assert_eq!(val(draw_axis(&mut source, num(0.0), num(1.0)).unwrap()), 0.25);
    assert_eq!(source.asked, vec![(0.0, 1.0)]);
}

#[test]
fn draw_axis_refuses_ends_in_the_wrong_order() {
    let mut source = Script::new(&[]);
    let e = draw_axis(&mut source, num(1.0), num(0.0)).unwrap_err();
    assert_eq!(e.kind(), ErrorKind::InvalidInput);
    assert!(source.asked.is_empty());
}

#[test]
fn draw_axis_refuses_an_answer_off_the_axis() {
    let mut source = Script::new(&[1.0]);
    assert_eq!(draw_axis(&mut source, num(0.0), num(1.0)).unwrap_err().kind(), ErrorKind::Bug);
    let mut source = Script::new(&[-0.5]);
    assert_eq!(draw_axis(&mut source, num(0.0), num(1.0)).unwrap_err().kind(), ErrorKind::Bug);
}

#[test]
fn accepts_above_the_height_or_at_height_zero() {
    assert!(accepts(num(0.5), num(0.25)));
    assert!(!accepts(num(0.25), num(0.25)));
    assert!(!accepts(num(0.1), num(0.25)));
    assert!(accepts(num(0.0), num(0.0)));
    assert!(accepts(num(0.0), num(-0.0)));
    assert!(accepts(num(-1.0), num(0.0)));
}

#[test]
fn shrink_axis_cuts_on_the_side_away_from_the_origin() {
    let cut = shrink_axis(num(0.0), num(1.0), num(0.2), num(0.6));
    assert_eq!((val(cut.0), val(cut.1)), (0.2, 1.0));
    let cut = shrink_axis(num(0.0), num(1.0), num(0.8), num(0.6));
    assert_eq!((val(cut.0), val(cut.1)), (0.0, 0.8));
    let cut = shrink_axis(num(0.0), num(1.0), num(0.6), num(0.6));
    assert_eq!((val(cut.0), val(cut.1)), (0.0, 0.6));
}

#[test]
fn shrink_box_cuts_each_axis_by_itself() {
    let range = Range { low: spot(0.0, 0.0, 0.0), high: spot(1.0, 1.0, 1.0) };
    let cut = shrink_box(range, spot(0.2, 0.9, 0.5), spot(0.5, 0.5, 0.5));
    assert_eq!(coords(cut.low), (0.2, 0.0, 0.0));
    assert_eq!(coords(cut.high), (1.0, 0.9, 0.5));
}

#[test]
fn a_new_sampler_has_no_point_and_the_default_limit() {
    let range = Range::new(num(0.0), num(1.0)).unwrap();
    let sampler = SliceSampler::new(Ramp, range);
    assert_eq!(val(sampler.range().low), 0.0);
    assert_eq!(val(sampler.range().high), 1.0);
    assert_eq!(DEFAULT_MAX_ATTEMPTS, 100_000);
}

#[test]
fn a_step_draws_start_height_and_candidates_in_turn() {
    // Start 0.5 has density 0.5; the height 0.3 rejects 0.1 and 0.2, which
    // lie below the start and so raise the lower end; 0.9 is taken.
    let mut source = Script::new(&[0.5, 0.3, 0.1, 0.2, 0.9]);
    let range = Range::new(num(0.0), num(1.0)).unwrap();
    let mut sampler = SliceSampler::new(Ramp, range);
    assert_eq!(val(sampler.sample(&mut source).unwrap()), 0.9);
    assert_eq!(
        source.asked,
        vec![(0.0, 1.0), (0.0, 0.5), (0.0, 1.0), (0.1, 1.0), (0.2, 1.0)]
    );
    // The next step starts from 0.9, and the interval is whole again.
    let mut source = Script::new(&[0.45, 0.3, 0.4, 0.5]);
    assert_eq!(val(sampler.sample(&mut source).unwrap()), 0.5);
    assert_eq!(source.asked, vec![(0.0, 0.9), (0.0, 1.0), (0.3, 1.0), (0.4, 1.0)]);
}

#[test]
fn a_candidate_above_the_start_lowers_the_upper_end() {
    // The start 0.5 has density 0.5; the height 0.3 rejects 0.9 and 0.8,
    // of densities 0.1 and 0.2, and takes 0.6.
    let mut source = Script::new(&[0.3, 0.9, 0.8, 0.6]);
    let range = Range::new(num(0.0), num(1.0)).unwrap();
    let mut sampler = SliceSampler::new(Fall, range);
    sampler.set_last_x(num(0.5));
    assert_eq!(val(sampler.sample(&mut source).unwrap()), 0.6);
    assert_eq!(source.asked, vec![(0.0, 0.5), (0.0, 1.0), (0.0, 0.9), (0.0, 0.8)]);
}

#[test]
fn a_seeded_chain_does_not_draw_its_start() {
    let mut source = Script::new(&[0.1, 0.7]);
    let range = Range::new(num(0.0), num(1.0)).unwrap();
    let mut sampler = SliceSampler::new(Ramp, range);
    sampler.set_last_x(num(0.25));
    assert_eq!(val(sampler.sample(&mut source).unwrap()), 0.7);
    assert_eq!(source.asked, vec![(0.0, 0.25), (0.0, 1.0)]);
}

#[test]
fn a_density_of_zero_takes_the_first_candidate() {
    let mut source = Script::new(&[0.0]);
    let range = Range::new(num(0.0), num(1.0)).unwrap();
    let mut sampler = SliceSampler::new(Ramp, range);
    sampler.set_last_x(num(0.0));
    assert_eq!(val(sampler.sample(&mut source).unwrap()), 0.0);
    assert_eq!(source.asked, vec![(0.0, 1.0)]);
}

#[test]
fn a_negative_density_is_invalid_input() {
    let mut source = Script::new(&[]);
    let range = Range::new(num(-2.0), num(1.0)).unwrap();
    let mut sampler = SliceSampler::new(Ramp, range);
    sampler.set_last_x(num(-1.0));
    assert_eq!(sampler.sample(&mut source).unwrap_err().kind(), ErrorKind::InvalidInput);
}

#[test]
fn an_interval_in_the_wrong_order_is_invalid_input() {
    let mut source = Script::new(&[]);
    let mut sampler = SliceSampler::new(Ramp, Range { low: num(1.0), high: num(0.0) });
    assert_eq!(sampler.sample(&mut source).unwrap_err().kind(), ErrorKind::InvalidInput);
    let mut sampler =
        SliceSampler3d::new(Ramp, Range { low: spot(0.0, 1.0, 0.0), high: spot(1.0, 0.0, 1.0) });
    assert_eq!(sampler.sample(&mut source).unwrap_err().kind(), ErrorKind::InvalidInput);
    assert!(source.asked.is_empty());
}

#[test]
fn a_source_that_strays_is_a_bug() {
    let mut source = Script::new(&[0.3, 1.5]);
    let range = Range::new(num(0.0), num(1.0)).unwrap();
    let mut sampler = SliceSampler::new(Ramp, range);
    sampler.set_last_x(num(0.5));
    assert_eq!(sampler.sample(&mut source).unwrap_err().kind(), ErrorKind::Bug);
}

#[test]
fn a_step_gives_up_at_the_limit_and_leaves_the_chain() {
    // Height 0.4 under the start 0.5; three candidates below the height.
    let mut source = Script::new(&[0.4, 0.1, 0.2, 0.3, 0.9]);
    let range = Range::new(num(0.0), num(1.0)).unwrap();
    let mut sampler = SliceSampler::new(Ramp, range);
    sampler.set_last_x(num(0.5));
    sampler.set_max_attempts(3);
    assert_eq!(sampler.sample(&mut source).unwrap_err().kind(), ErrorKind::Other);
    assert_eq!(source.asked.len(), 4);
    // The chain still stands at 0.5: the next step draws its height below 0.5.
    let mut source = Script::new(&[0.2, 0.6]);
    assert_eq!(val(sampler.sample(&mut source).unwrap()), 0.6);
    assert_eq!(source.asked[0], (0.0, 0.5));
}

#[test]
fn a_limit_of_zero_fails_every_step() {
    let mut source = Script::new(&[0.2]);
    let range = Range::new(num(0.0), num(1.0)).unwrap();
    let mut sampler = SliceSampler::new(Ramp, range);
    sampler.set_last_x(num(0.5));
    sampler.set_max_attempts(0);
    assert_eq!(sampler.sample(&mut source).unwrap_err().kind(), ErrorKind::Other);
}

#[test]
fn sample_n_of_zero_draws_nothing() {
    let mut source = Script::new(&[]);
    let range = Range::new(num(0.0), num(1.0)).unwrap();
    let mut sampler = SliceSampler::new(Ramp, range);
    assert!(sampler.sample_n(&mut source, 0).unwrap().is_empty());
    assert!(source.asked.is_empty());
}

#[test]
fn the_distribution_can_be_read_and_changed() {
    let range = Range::new(num(0.0), num(1.0)).unwrap();
    let mut sampler = SliceSampler::new(Normal, range);
    assert_eq!(val(sampler.distribution().pdf(&num(0.0))), 1.0 / (2.0 * PI).sqrt());
    *sampler.distribution_mut() = Normal;
    assert_eq!(val(sampler.distribution().pdf(&num(0.0))), 1.0 / (2.0 * PI).sqrt());
}

#[test]
fn a_3d_step_fixes_flat_axes_and_keeps_the_density_of_its_point() {
    // The third axis has no width, so each point takes two draws.  The
    // start (0.5, 0.5, 2) has density 0.5; the height 0.3 rejects
    // (0.2, 0.8, 2) and takes (0.9, 0.1, 2) from the box cut back to it.
    let mut source = Script::new(&[0.5, 0.5, 0.3, 0.2, 0.8, 0.9, 0.1]);
    let range = Range { low: spot(0.0, 0.0, 2.0), high: spot(1.0, 1.0, 2.0) };
    let mut sampler = SliceSampler3d::new(Ramp, range);
    assert_eq!(coords(sampler.sample(&mut source).unwrap()), (0.9, 0.1, 2.0));
    assert_eq!(
        source.asked,
        vec![(0.0, 1.0), (0.0, 1.0), (0.0, 0.5), (0.0, 1.0), (0.0, 1.0), (0.2, 1.0), (0.0, 0.8)]
    );
    // The density 0.9 of the point just taken is kept: the next step draws
    // its height below it at once.
    let mut source = Script::new(&[0.0, 0.4, 0.4]);
    assert_eq!(coords(sampler.sample(&mut source).unwrap()), (0.4, 0.4, 2.0));
    assert_eq!(source.asked[0], (0.0, 0.9));
}

#[test]
fn a_3d_seed_has_its_density_taken_anew() {
    let range = Range { low: spot(0.0, 0.0, 0.0), high: spot(1.0, 1.0, 1.0) };
    let mut sampler = SliceSampler3d::new(Ramp, range);
    let mut source = Script::new(&[0.8, 0.5, 0.5, 0.1, 0.9, 0.5, 0.5]);
    assert_eq!(coords(sampler.sample(&mut source).unwrap()), (0.9, 0.5, 0.5));
    sampler.set_last_point(spot(0.25, 0.5, 0.5));
    let mut source = Script::new(&[0.1, 0.6, 0.5, 0.5]);
    assert_eq!(coords(sampler.sample(&mut source).unwrap()), (0.6, 0.5, 0.5));
    assert_eq!(source.asked[0], (0.0, 0.25));
}

#[test]
fn gen_range_draws_axis_by_axis() {
    let range = Range { low: spot(0.0, 5.0, -1.0), high: spot(1.0, 5.0, 1.0) };
    let sampler = SliceSampler3d::new(Ramp, range);
    let mut source = Script::new(&[0.5, 0.0]);
    let p = sampler.gen_range(&mut source, range).unwrap();
    assert_eq!(coords(p), (0.5, 5.0, 0.0));
    assert_eq!(source.asked, vec![(0.0, 1.0), (-1.0, 1.0)]);
}

#[test]
fn a_step_may_try_while_it_has_rejected_fewer_than_the_limit() {
    assert!(may_try(0, 1));
    assert!(may_try(2, 3));
    assert!(!may_try(3, 3));
    assert!(!may_try(4, 3));
    assert!(!may_try(0, 0));
}

#[test]
fn a_wrong_order_and_a_limit_of_zero_are_found_before_anything_is_asked() {
    let mut source = Script::new(&[]);
    let mut sampler = SliceSampler::new(Ramp, Range { low: num(1.0), high: num(0.0) });
    sampler.set_max_attempts(0);
    assert_eq!(sampler.sample(&mut source).unwrap_err().kind(), ErrorKind::InvalidInput);
    let mut sampler = SliceSampler::new(Ramp, Range { low: num(0.0), high: num(1.0) });
    sampler.set_max_attempts(0);
    assert_eq!(sampler.sample(&mut source).unwrap_err().kind(), ErrorKind::Other);
    let range = Range { low: spot(0.0, 0.0, 0.0), high: spot(1.0, 1.0, 1.0) };
    let mut sampler = SliceSampler3d::new(Ramp, range);
    sampler.set_max_attempts(0);
    assert_eq!(sampler.sample(&mut source).unwrap_err().kind(), ErrorKind::Other);
    assert!(source.asked.is_empty());
}

#[test]
fn gen_range_looks_at_every_axis_before_it_asks() {
    let range = Range { low: spot(0.0, 0.0, 1.0), high: spot(1.0, 1.0, 0.0) };
    let sampler = SliceSampler3d::new(Ramp, range);
    let mut source = Script::new(&[0.5, 0.5]);
    assert_eq!(sampler.gen_range(&mut source, range).unwrap_err().kind(), ErrorKind::InvalidInput);
    assert!(source.asked.is_empty());
}

#[test]
fn gen_range_asks_nothing_in_a_box_without_width() {
    let range = Range { low: spot(0.5, -1.0, 2.0), high: spot(0.5, -1.0, 2.0) };
    let sampler = SliceSampler3d::new(Ramp, range);
    let mut source = Script::new(&[]);
    assert_eq!(coords(sampler.gen_range(&mut source, range).unwrap()), (0.5, -1.0, 2.0));
    assert!(source.asked.is_empty());
}

#[test]
fn gen_range_reports_a_source_that_strays_on_a_later_axis() {
    let range = Range { low: spot(0.0, 0.0, 0.0), high: spot(1.0, 1.0, 1.0) };
    let sampler = SliceSampler3d::new(Ramp, range);
    let mut source = Script::new(&[0.5, 1.0]);
    assert_eq!(sampler.gen_range(&mut source, range).unwrap_err().kind(), ErrorKind::Bug);
    assert_eq!(source.asked, vec![(0.0, 1.0), (0.0, 1.0)]);
}

#[test]
fn a_chain_that_keeps_density_zero_takes_the_point_of_a_box_without_width() {
    // The density is the first coordinate, which is zero in this box.
    let range = Range { low: spot(0.0, 1.0, 2.0), high: spot(0.0, 1.0, 2.0) };
    let mut sampler = SliceSampler3d::new(Ramp, range);
    let mut source = Script::new(&[]);
    assert_eq!(coords(sampler.sample(&mut source).unwrap()), (0.0, 1.0, 2.0));
    // The chain now keeps the density zero of its point.
    assert_eq!(coords(sampler.sample(&mut source).unwrap()), (0.0, 1.0, 2.0));
    assert_eq!(sampler.sample_n(&mut source, 5).unwrap().len(), 5);
    assert!(source.asked.is_empty());
}

#[test]
fn a_run_that_fails_leaves_the_chain_at_its_last_point() {
    // First step: height 0.1 under the start 0.5, and 0.7 is taken.
    // Second step: height 0.6 under 0.7; 0.2 and 0.3 are rejected, and the
    // limit of two is reached.
    let mut source = Script::new(&[0.1, 0.7, 0.6, 0.2, 0.3]);
    let range = Range::new(num(0.0), num(1.0)).unwrap();
    let mut sampler = SliceSampler::new(Ramp, range);
    sampler.set_last_x(num(0.5));
    sampler.set_max_attempts(2);
    assert_eq!(sampler.sample_n(&mut source, 3).unwrap_err().kind(), ErrorKind::Other);
    assert_eq!(
        source.asked,
        vec![(0.0, 0.5), (0.0, 1.0), (0.0, 0.7), (0.0, 1.0), (0.2, 1.0)]
    );
    // The chain stands at 0.7: the next height is drawn below 0.7.
    let mut source = Script::new(&[0.0, 0.4]);
    assert_eq!(val(sampler.sample(&mut source).unwrap()), 0.4);
    assert_eq!(source.asked[0], (0.0, 0.7));
}

#[test]
fn a_3d_run_of_no_step_draws_nothing() {
    let range = Range { low: spot(0.0, 0.0, 0.0), high: spot(1.0, 1.0, 1.0) };
    let mut sampler = SliceSampler3d::new(Ramp, range);
    let mut source = Script::new(&[]);
    assert!(sampler.sample_n(&mut source, 0).unwrap().is_empty());
    assert!(source.asked.is_empty());
}
