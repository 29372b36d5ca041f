use geomalg::generic::{from_slice, Multivector};
use geomalg::AlgebraError;

fn ramp(len: i64) -> Vec<i64> {
    (0..len).collect()
}

#[test]
fn indexing_works() {
    let t: Vec<i64> = ramp(32);
    let t = from_slice(5, &t[..]).unwrap();
    assert_eq!([0], *t.grade(0));
    assert_eq!([1, 2, 3, 4, 5], *t.grade(1));
    assert_eq!([6, 7, 8, 9, 10, 11, 12, 13, 14, 15], *t.grade(2));
    assert_eq!([16, 17, 18, 19, 20, 21, 22, 23, 24, 25], *t.grade(3));
    assert_eq!([26, 27, 28, 29, 30], *t.grade(4));
    assert_eq!([31], *t.grade(5));
}

#[test]
fn construction_length_validation() {
    let short = ramp(31);
    assert_eq!(
        Err(AlgebraError::DimensionMismatch),
        from_slice(5, &short[..])
    );
    let long = ramp(33);
    assert_eq!(
        Err(AlgebraError::DimensionMismatch),
        from_slice(5, &long[..])
    );
    let exact = ramp(32);
    assert!(from_slice(5, &exact[..]).is_ok());
    assert_eq!(
        Err(AlgebraError::DimensionMismatch),
        from_slice(58, &exact[..])
    );
}

#[test]
fn construction_round_trips() {
    let data = ramp(8);
    let m = from_slice(3, &data[..]).unwrap();
    assert_eq!(3, m.dim());
    assert_eq!(8, m.dims());
    let mut rebuilt: Vec<i64> = Vec::new();
    for k in 0..=3 {
        rebuilt.extend_from_slice(m.grade(k));
    }
    assert_eq!(data, rebuilt);
}

#[test]
fn grade_partition_covers() {
    for dim in 0..=6usize {
        let len = 1i64 << dim;
        let data = ramp(len);
        let m = from_slice(dim, &data[..]).unwrap();
        let mut rebuilt: Vec<i64> = Vec::new();
        for k in 0..=dim {
            rebuilt.extend_from_slice(m.grade(k));
        }
        assert_eq!(data, rebuilt);
    }
}

#[test]
fn grade_out_of_range_is_rejected() {
    let data = ramp(32);
    let m = from_slice(5, &data[..]).unwrap();
    assert!(m.try_grade(5).is_ok());
    assert_eq!(Err(AlgebraError::GradeOutOfRange), m.try_grade(6));
    assert_eq!(Err(AlgebraError::GradeOutOfRange), m.try_grade(31));
}

#[test]
fn general_product_is_unsupported() {
    let a = from_slice(2, &ramp(4)[..]).unwrap();
    let b = from_slice(2, &ramp(4)[..]).unwrap();
    assert_eq!(Err(AlgebraError::UnsupportedOperation), a.mul(&b));
}

#[test]
fn additive_group_laws_hold() {
    let a = from_slice(2, &[1, 2, 3, 4][..]).unwrap();
    let b = from_slice(2, &[5, -6, 7, -8][..]).unwrap();
    let c = from_slice(2, &[-9, 10, 11, 12][..]).unwrap();
    let zero = Multivector::zero(2);
    assert_eq!(a.add(&b), b.add(&a));
    assert_eq!(a.add(&b).add(&c), a.add(&b.add(&c)));
    assert_eq!(a, a.add(&zero));
    assert_eq!(zero, a.add(&a.neg()));
    assert_eq!(a, a.neg().neg());
    assert_eq!(a.neg(), a.two_sided_inverse());
    assert_eq!(a.add(&b), a.operate(&b));
}

#[test]
fn addition_wraps_at_the_ring_modulus() {
    let a = from_slice(0, &[i64::MAX][..]).unwrap();
    let b = from_slice(0, &[1][..]).unwrap();
    assert_eq!([i64::MIN], *a.add(&b).grade(0));
    assert_eq!([i64::MIN], *a.neg().add(&b.neg()).grade(0));
}

#[test]
fn scalar_multiplication_laws_hold() {
    let a = from_slice(2, &[1, -2, 3, -4][..]).unwrap();
    assert_eq!(a, a.scale(1));
    assert_eq!(Multivector::zero(2), a.scale(0));
    assert_eq!(a.scale(15), a.scale(3).scale(5));
    assert_eq!([-6, 9], *a.scale(3).grade(1));
}

#[test]
fn zero_and_identity_agree() {
    let zero = Multivector::zero(3);
    assert!(zero.is_zero());
    assert_eq!(zero, Multivector::identity(3));
    assert_eq!(8, zero.dims());
    let nonzero = from_slice(3, &[0, 0, 0, 0, 0, 0, 0, 1][..]).unwrap();
    assert!(!nonzero.is_zero());
}

#[test]
fn equality_is_reflexive_and_symmetric() {
    let a = from_slice(1, &[4, 7][..]).unwrap();
    let b = a.clone();
    let c = from_slice(1, &[4, 8][..]).unwrap();
    assert_eq!(a, a);
    assert_eq!(a == b, b == a);
    assert!(a == b);
    assert_eq!(a == c, c == a);
    assert!(a != c);
    let other_dim = from_slice(0, &[4][..]).unwrap();
    assert!(a != other_dim);
}

#[test]
fn default_is_the_scalar_zero() {
    let d: Multivector = Default::default();
    assert_eq!(0, d.dim());
    assert_eq!(1, d.dims());
    assert!(d.is_zero());
    assert_eq!([0], *d.grade(0));
}
