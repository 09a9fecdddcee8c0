use ringsig::error::Error;
use ringsig::group::{in_group_exec, mul_mod_exec, pow_mod_exec, GENERATOR, MODULUS, ORDER};
use ringsig::encoding::{push_be_bytes, read_word};
use ringsig::hash::{hash_to_point, hash_to_scalar, point_from_digest, scalar_from_digest};
use ringsig::point::Point;
use ringsig::scalar::Scalar;
use sha2::{Digest, Sha256};

fn scalar(v: u64) -> Scalar {
    Scalar::new(v).unwrap()
}

#[test]
fn modulus_is_twice_the_order_plus_one() {
    assert_eq!(MODULUS, 2 * ORDER + 1);
    assert_eq!(GENERATOR, 4);
}

#[test]
fn scalar_new_accepts_reduced_values() {
    assert_eq!(scalar(0).value(), 0);
    assert_eq!(scalar(ORDER - 1).value(), ORDER - 1);
}

#[test]
fn scalar_new_rejects_unreduced_values() {
    assert_eq!(Scalar::new(ORDER), Err(Error::InvalidScalar));
    assert_eq!(Scalar::new(u64::MAX), Err(Error::InvalidScalar));
}

#[test]
fn scalar_reduce_wraps_at_the_order() {
    assert_eq!(Scalar::reduce(ORDER).value(), 0);
    assert_eq!(Scalar::reduce(ORDER + 5).value(), 5);
    assert_eq!(Scalar::reduce(7).value(), 7);
}

#[test]
fn scalar_add_wraps() {
    assert_eq!(scalar(5).add(&scalar(7)).value(), 12);
    assert_eq!(scalar(ORDER - 1).add(&scalar(3)).value(), 2);
}

#[test]
fn scalar_sub_wraps() {
    assert_eq!(scalar(7).sub(&scalar(5)).value(), 2);
    assert_eq!(scalar(5).sub(&scalar(7)).value(), ORDER - 2);
    assert_eq!(scalar(0).sub(&scalar(0)).value(), 0);
}

#[test]
fn scalar_mul_wraps() {
    assert_eq!(scalar(5).mul(&scalar(7)).value(), 35);
    assert_eq!(scalar(ORDER - 1).mul(&scalar(ORDER - 1)).value(), 1);
    assert_eq!(scalar(ORDER - 1).mul(&scalar(2)).value(), ORDER - 2);
}

#[test]
fn scalar_equals_compares_values() {
    assert!(scalar(9).equals(&scalar(9)));
    assert!(!scalar(9).equals(&scalar(10)));
}

#[test]
fn residue_product_and_power() {
    assert_eq!(mul_mod_exec(3, 5), 15);
    assert_eq!(mul_mod_exec(MODULUS - 1, MODULUS - 1), 1);
    assert_eq!(pow_mod_exec(2, 10), 1024);
    assert_eq!(pow_mod_exec(7, 0), 1);
    assert_eq!(pow_mod_exec(2, 61), (1u64 << 61) % MODULUS);
    assert_eq!(pow_mod_exec(GENERATOR, ORDER), 1);
}

#[test]
fn group_membership() {
    assert!(in_group_exec(1));
    assert!(in_group_exec(4));
    assert!(in_group_exec(9));
    assert!(!in_group_exec(0));
    assert!(!in_group_exec(MODULUS));
    assert!(!in_group_exec(MODULUS - 1));
}

#[test]
fn point_decode_accepts_group_elements() {
    assert_eq!(Point::decode(4).unwrap().encode(), 4);
    assert_eq!(Point::decode(4).unwrap(), Point::base());
}

#[test]
fn point_decode_rejects_other_residues() {
    assert_eq!(Point::decode(0), Err(Error::InvalidPoint));
    assert_eq!(Point::decode(MODULUS - 1), Err(Error::InvalidPoint));
    assert_eq!(Point::decode(MODULUS + 4), Err(Error::InvalidPoint));
}

#[test]
fn point_add_and_scalar_mul() {
    let g = Point::base();
    assert_eq!(g.add(&g).encode(), 16);
    assert_eq!(g.scalar_mul(&scalar(3)).encode(), 64);
    assert_eq!(g.scalar_mul(&scalar(0)).encode(), 1);
    assert!(g.scalar_mul(&scalar(2)).equals(&g.add(&g)));
    assert!(g.scalar_mul(&scalar(0)).is_identity());
    assert!(!g.is_identity());
}

#[test]
fn scalar_mul_is_additive_in_the_scalar() {
    let g = Point::base();
    let a = scalar(123_456_789_012_345);
    let b = scalar(ORDER - 77);
    let left = g.scalar_mul(&a.add(&b));
    let right = g.scalar_mul(&a).add(&g.scalar_mul(&b));
    assert_eq!(left, right);
}

#[test]
fn be_bytes_are_most_significant_first() {
    let mut buf = vec![0xffu8];
    push_be_bytes(&mut buf, 0x0102_0304_0506_0708);
    assert_eq!(buf, vec![0xff, 1, 2, 3, 4, 5, 6, 7, 8]);
    assert_eq!(read_word(&buf, 1), 0x0102_0304_0506_0708);
    assert_eq!(read_word(&buf, 0), 0xff01_0203_0405_0607);
}

#[test]
fn scalar_from_digest_reads_the_first_word() {
    let mut d = [0u8; 32];
    d[7] = 9;
    d[8] = 0xff;
    assert_eq!(scalar_from_digest(&d).value(), 9);
    let full = [0xffu8; 32];
    assert_eq!(scalar_from_digest(&full).value(), u64::MAX % ORDER);
}

#[test]
fn point_from_digest_squares_the_second_word() {
    let mut d = [0u8; 32];
    d[15] = 1;
    assert_eq!(point_from_digest(&d).encode(), 4);
    d[15] = 2;
    assert_eq!(point_from_digest(&d).encode(), 9);
    d[15] = 0;
    assert_eq!(point_from_digest(&d).encode(), 1);
}

#[test]
fn hash_to_scalar_reads_the_sha256_digest() {
    let digest: [u8; 32] = Sha256::digest(b"abc").into();
    assert_eq!(digest[0], 0xba);
    assert_eq!(digest[31], 0xad);
    assert_eq!(hash_to_scalar(b"abc").value(), 0xba78_16bf_8f01_cfea_u64 % ORDER);
    assert_eq!(hash_to_scalar(b"abc"), scalar_from_digest(&digest));
}

#[test]
fn hash_to_point_reads_the_sha256_digest() {
    let digest: [u8; 32] = Sha256::digest(b"abc").into();
    let c = 0x4141_40de_5dae_2223_u64 % (MODULUS - 1) + 1;
    assert_eq!(hash_to_point(b"abc").encode(), mul_mod_exec(c, c));
    assert_eq!(hash_to_point(b"abc"), point_from_digest(&digest));
    assert!(in_group_exec(hash_to_point(b"abc").encode()));
}

#[test]
fn hashes_are_deterministic_and_input_sensitive() {
    assert_eq!(hash_to_scalar(b"message"), hash_to_scalar(b"message"));
    assert_ne!(hash_to_scalar(b"message"), hash_to_scalar(b"messagf"));
    assert_eq!(hash_to_point(b"message"), hash_to_point(b"message"));
    assert_ne!(hash_to_point(b"message"), hash_to_point(b"messagf"));
}
