use rustats::matrix::{Matrix2, Transpose};
use rustats::num::FiniteF64;

fn entry(x: f64) -> FiniteF64 {
    FiniteF64::new(x.to_bits()).unwrap()
}

fn rows_of(m: &Matrix2) -> ((f64, f64), (f64, f64)) {
    let r = m.to_rows();
    (
        (f64::from_bits(r.0 .0.get()), f64::from_bits(r.0 .1.get())),
        (f64::from_bits(r.1 .0.get()), f64::from_bits(r.1 .1.get())),
    )
}

#[test]
fn new_takes_the_rows_in_order() {
    let m = Matrix2::new((entry(1.0), entry(2.0)), (entry(3.0), entry(4.0)));
    assert_eq!(rows_of(&m), ((1.0, 2.0), (3.0, 4.0)));
}

#[test]
fn diagonal_has_zeros_off_the_diagonal() {
    let m = Matrix2::diagonal(entry(2.5), entry(-1.5));
    assert_eq!(rows_of(&m), ((2.5, 0.0), (0.0, -1.5)));
}

#[test]
fn transpose_swaps_the_entries_off_the_diagonal() {
    let m = Matrix2::new((entry(1.0), entry(2.0)), (entry(3.0), entry(4.0)));
    assert_eq!(rows_of(&m.transpose()), ((1.0, 3.0), (2.0, 4.0)));
    assert_eq!(rows_of(&m.transpose().transpose()), rows_of(&m));
}

#[test]
fn lower_triangle_packs_and_unpacks() {
    let m = Matrix2::new((entry(1.0), entry(2.0)), (entry(3.0), entry(4.0)));
    let t = m.lower_triangular_tuple();
    assert_eq!(
        (f64::from_bits(t.0.get()), f64::from_bits(t.1.get()), f64::from_bits(t.2.get())),
        (1.0, 3.0, 4.0)
    );
    let l = Matrix2::from_lower_triangular(t);
    assert_eq!(rows_of(&l), ((1.0, 0.0), (3.0, 4.0)));
    let back = l.lower_triangular_tuple();
    assert_eq!((back.0.get(), back.1.get(), back.2.get()), (t.0.get(), t.1.get(), t.2.get()));
}

#[test]
fn transpose_marks_a_value() {
    let t = Transpose((1, 2));
    assert_eq!(t.0, (1, 2));
}
