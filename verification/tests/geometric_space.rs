use geomalg::geometric3::Geometric3 as G3;
use geomalg::AlgebraError;
use geomalg::{Inner, Outer};

#[test]
fn space_constructors_set_single_blades() {
    assert_eq!(8, G3::dims());
    let zero = G3::zero();
    assert_eq!(0, zero.s + zero.e1 + zero.e2 + zero.e3);
    assert_eq!(0, zero.e12 + zero.e23 + zero.e31 + zero.e123);
    assert_eq!(1, G3::one().s);
    assert_eq!(1, G3::x().e1);
    assert_eq!(1, G3::y().e2);
    assert_eq!(1, G3::z().e3);
    assert_eq!(1, G3::xy().e12);
    assert_eq!(1, G3::yz().e23);
    assert_eq!(1, G3::zx().e31);
    assert_eq!(1, G3::i().e123);
    assert_eq!(0, G3::x().e2);
    assert_eq!(0, G3::xy().e23);
    assert_eq!(G3::zero(), G3::one().add(G3::one().neg()));
}

#[test]
fn space_addition_is_componentwise() {
    let a = G3 {
        s: 1,
        e1: 2,
        e2: 3,
        e3: 4,
        e12: 5,
        e23: 6,
        e31: 7,
        e123: 8,
    };
    let b = G3 {
        s: -10,
        e1: 20,
        e2: -30,
        e3: 40,
        e12: -50,
        e23: 60,
        e31: -70,
        e123: 80,
    };
    let sum = a.clone().add(b.clone());
    assert_eq!(
        (-9, 22, -27, 44),
        (sum.s, sum.e1, sum.e2, sum.e3)
    );
    assert_eq!(
        (-45, 66, -63, 88),
        (sum.e12, sum.e23, sum.e31, sum.e123)
    );
    assert_eq!(sum, b.clone().add(a.clone()));
    assert_eq!(sum, a.operate(&b));
}

#[test]
fn space_negation_is_componentwise() {
    let a = G3 {
        s: 1,
        e1: -2,
        e2: 3,
        e3: i64::MAX,
        e12: 0,
        e23: 6,
        e31: -7,
        e123: i64::MIN,
    };
    let n = a.clone().neg();
    assert_eq!((-1, 2, -3, -i64::MAX), (n.s, n.e1, n.e2, n.e3));
    assert_eq!((0, -6, 7, i64::MIN), (n.e12, n.e23, n.e31, n.e123));
    assert_eq!(a, a.clone().neg().neg());
}

#[test]
fn space_product_is_unsupported() {
    let a = G3::x();
    let b = G3::y();
    assert_eq!(Err(AlgebraError::UnsupportedOperation), a.mul(&b));
    assert_eq!(
        Err(AlgebraError::UnsupportedOperation),
        a.operate_multiplicative(&b)
    );
}

#[test]
fn operator_tokens_are_units() {
    assert!(Inner::operator_token() == Inner);
    assert!(Outer::operator_token() == Outer);
}
