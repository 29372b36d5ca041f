use geomalg::geometric2::Geometric2 as G2;

#[test]
fn product_parallel_commutative() {
    let a = G2::x();
    let b = G2::x().multiply_by(2);
    assert_eq!(a.mul(b), b.mul(a));
}

#[test]
fn squaring_works() {
    let a = G2::x();
    assert_eq!(G2::one(), a.mul(a));
    let b = G2::y();
    assert_eq!(G2::one(), b.mul(b));
    let i = G2::i();
    assert_eq!(G2::one().neg(), i.mul(i));
}

#[test]
fn product_perpendicular_anticommutative() {
    let a = G2::x();
    let b = G2::y();
    assert_eq!(a.mul(b), b.neg().mul(a));
}

#[test]
fn identities_work() {
    let a = G2::one().add(G2::x()).add(G2::y()).add(G2::i());
    let zero = G2::add_identity();
    let one = G2::mul_identity();
    assert_eq!(a, a.add(zero));
    assert_eq!(a, zero.add(a));
    assert_eq!(a, a.mul(one));
    assert_eq!(a, one.mul(a));
}

#[test]
fn plane_constructors_set_single_blades() {
    assert_eq!(4, G2::dims());
    let zero = G2::zero();
    assert_eq!((0, 0, 0, 0), (zero.s, zero.e1, zero.e2, zero.e12));
    assert!(zero.is_zero());
    let one = G2::one();
    assert_eq!((1, 0, 0, 0), (one.s, one.e1, one.e2, one.e12));
    let x = G2::x();
    assert_eq!((0, 1, 0, 0), (x.s, x.e1, x.e2, x.e12));
    let y = G2::y();
    assert_eq!((0, 0, 1, 0), (y.s, y.e1, y.e2, y.e12));
    let i = G2::i();
    assert_eq!((0, 0, 0, 1), (i.s, i.e1, i.e2, i.e12));
    assert!(!one.is_zero());
}

#[test]
fn plane_addition_is_componentwise() {
    let a = G2 {
        s: 1,
        e1: -2,
        e2: 3,
        e12: -4,
    };
    let b = G2 {
        s: 10,
        e1: 20,
        e2: 30,
        e12: 40,
    };
    let sum = a.add(b);
    assert_eq!((11, 18, 33, 36), (sum.s, sum.e1, sum.e2, sum.e12));
    assert_eq!(sum, b.add(a));
    assert_eq!(sum, a.operate_additive(&b));
    assert_eq!(a, a.add(b).add(b.neg()));
    assert_eq!(a.neg(), a.two_sided_inverse());
    assert_eq!(G2::zero(), a.add(a.two_sided_inverse()));
}

#[test]
fn plane_scaling_is_componentwise() {
    let a = G2 {
        s: 1,
        e1: -2,
        e2: 3,
        e12: -4,
    };
    let scaled = a.multiply_by(-3);
    assert_eq!((-3, 6, -9, 12), (scaled.s, scaled.e1, scaled.e2, scaled.e12));
    assert_eq!(a, a.multiply_by(1));
    assert_eq!(G2::zero(), a.multiply_by(0));
}

#[test]
fn plane_product_matches_cayley_table() {
    let xy = G2::x().mul(G2::y());
    assert_eq!(G2::i(), xy);
    let a = G2 {
        s: 2,
        e1: 3,
        e2: 5,
        e12: 7,
    };
    let one = G2::mul_identity();
    assert_eq!(a, one.operate_multiplicative(&a));
    let b = G2::i().mul(G2::x());
    assert_eq!((0, 0, -1, 0), (b.s, b.e1, b.e2, b.e12));
}

#[test]
fn plane_negation_wraps_at_the_ring_modulus() {
    let a = G2 {
        s: i64::MIN,
        e1: i64::MAX,
        e2: 0,
        e12: 1,
    };
    let n = a.neg();
    assert_eq!((i64::MIN, i64::MIN + 1, 0, -1), (n.s, n.e1, n.e2, n.e12));
}
