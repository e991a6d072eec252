use memory_air::field::{Bfe, P};
use memory_air::xfield::Xfe;

fn bfe(v: u64) -> Bfe {
    Bfe::new(v)
}

fn xfe(c0: u64, c1: u64, c2: u64) -> Xfe {
    Xfe::new(bfe(c0), bfe(c1), bfe(c2))
}

#[test]
fn base_field_modulus_wraps() {
    assert_eq!(bfe(P).value(), 0);
    assert_eq!(bfe(P - 1).add(Bfe::one()).value(), 0);
    assert_eq!(Bfe::zero().sub(Bfe::one()).value(), P - 1);
    assert!(bfe(P).is_zero());
    assert!(!bfe(1).is_zero());
}

#[test]
fn base_field_products() {
    assert_eq!(bfe(3).mul(bfe(4)).value(), 12);
    // 2^32 * 2^32 = 2^64, and 2^64 is congruent to 2^32 - 1 modulo P.
    let r = bfe(1 << 32).mul(bfe(1 << 32));
    assert_eq!(r.value(), (1 << 32) - 1);
}

#[test]
fn base_field_powers() {
    assert_eq!(bfe(3).pow(0).value(), 1);
    assert_eq!(bfe(3).pow(5).value(), 243);
    assert_eq!(bfe(2).pow(64).value(), (1 << 32) - 1);
}

#[test]
fn extension_field_reduces_by_its_modulus() {
    let x = xfe(0, 1, 0);
    let x2 = x.mul(x);
    assert_eq!(x2, xfe(0, 0, 1));
    // x^3 = x - 1 under x^3 - x + 1.
    let x3 = x2.mul(x);
    assert_eq!(x3, xfe(P - 1, 1, 0));
}

#[test]
fn extension_field_identities_and_lift() {
    let a = xfe(17, 29, 41);
    assert_eq!(a.mul(Xfe::one()), a);
    assert_eq!(a.add(Xfe::zero()), a);
    assert_eq!(a.sub(a), Xfe::zero());
    assert!(a.sub(a).is_zero());
    let lifted = Xfe::lift(bfe(7));
    assert_eq!(lifted, xfe(7, 0, 0));
    assert_eq!(lifted.coefficient0().value(), 7);
    assert_eq!(Xfe::lift(bfe(3)).mul(Xfe::lift(bfe(5))), xfe(15, 0, 0));
}
