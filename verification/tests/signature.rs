use ringsig::error::Error;
use ringsig::group::ORDER;
use ringsig::keys::{key_base_point, KeyPair, PrivateKey};
use ringsig::point::Point;
use ringsig::registry::KeyImageRegistry;
use ringsig::ring::RingSignature;
use ringsig::scalar::Scalar;
use std::collections::HashSet;

fn key(v: u64) -> PrivateKey {
    PrivateKey::new(v).unwrap()
}

fn ring_of(secrets: &[u64]) -> Vec<Point> {
    secrets.iter().map(|s| key(*s).public_key()).collect()
}

fn scalars(values: &[u64]) -> Vec<Scalar> {
    values.iter().map(|v| Scalar::new(*v).unwrap()).collect()
}

#[test]
fn private_key_rejects_zero_and_unreduced_values() {
    assert!(matches!(PrivateKey::new(0), Err(Error::InvalidScalar)));
    assert!(matches!(PrivateKey::new(ORDER), Err(Error::InvalidScalar)));
    assert!(PrivateKey::new(ORDER - 1).is_ok());
}

#[test]
fn public_key_is_the_base_point_times_the_secret() {
    assert_eq!(key(1).public_key(), Point::base());
    assert_eq!(key(3).public_key().encode(), 64);
    let pair = KeyPair::from_private(key(3));
    assert_eq!(pair.public_key().encode(), 64);
    assert_eq!(pair.private_key().public_key().encode(), 64);
}

#[test]
fn key_image_is_the_key_base_times_the_secret() {
    let k = key(5);
    let base = key_base_point(&k.public_key());
    assert_eq!(k.key_image(), base.scalar_mul(&Scalar::new(5).unwrap()));
}

#[test]
fn generated_signature_verifies_for_every_signer_position() {
    let secrets = [11u64, 22, 33, 44, 55];
    for size in 2..=secrets.len() {
        let ring = ring_of(&secrets[..size]);
        for index in 0..size {
            let sig = RingSignature::generate(b"pay", &ring, index, &key(secrets[index])).unwrap();
            assert_eq!(sig.response_count(), size);
            assert_eq!(sig.verify(b"pay", &ring), Ok(true));
        }
    }
}

#[test]
fn generate_with_is_deterministic_and_verifies() {
    let ring = ring_of(&[7, 8, 9]);
    let nonce = Scalar::new(123456).unwrap();
    let decoys = scalars(&[1000, 2000, 3000]);
    let a = RingSignature::generate_with(b"m", &ring, 1, &key(8), &nonce, &decoys).unwrap();
    let b = RingSignature::generate_with(b"m", &ring, 1, &key(8), &nonce, &decoys).unwrap();
    assert_eq!(a.challenge(), b.challenge());
    assert_eq!(a.response(0), Some(Scalar::new(1000).unwrap()));
    assert_eq!(a.response(2), Some(Scalar::new(3000).unwrap()));
    assert_eq!(a.response(1), b.response(1));
    assert_ne!(a.response(1), Some(Scalar::new(2000).unwrap()));
    assert_eq!(a.response(3), None);
    assert_eq!(a.key_image(), key(8).key_image());
    assert_eq!(a.verify(b"m", &ring), Ok(true));
}

#[test]
fn signature_of_a_key_outside_the_ring_does_not_verify() {
    let ring = ring_of(&[7, 8, 9]);
    let sig = RingSignature::generate(b"m", &ring, 1, &key(10)).unwrap();
    assert_eq!(sig.verify(b"m", &ring), Ok(false));
}

#[test]
fn signature_does_not_verify_for_another_message_or_ring() {
    let ring = ring_of(&[7, 8, 9]);
    let sig = RingSignature::generate(b"m", &ring, 2, &key(9)).unwrap();
    assert_eq!(sig.verify(b"n", &ring), Ok(false));
    let other = ring_of(&[7, 6, 9]);
    assert_eq!(sig.verify(b"m", &other), Ok(false));
}

#[test]
fn generate_rejects_small_rings() {
    let one = ring_of(&[7]);
    assert!(matches!(
        RingSignature::generate(b"m", &one, 0, &key(7)),
        Err(Error::InvalidRingSize)
    ));
    let none: Vec<Point> = Vec::new();
    assert!(matches!(
        RingSignature::generate(b"m", &none, 0, &key(7)),
        Err(Error::InvalidRingSize)
    ));
}

#[test]
fn generate_rejects_a_signer_index_past_the_ring() {
    let ring = ring_of(&[7, 8]);
    assert!(matches!(
        RingSignature::generate(b"m", &ring, 2, &key(7)),
        Err(Error::IndexOutOfRange)
    ));
}

#[test]
fn generate_with_rejects_a_wrong_number_of_decoys() {
    let ring = ring_of(&[7, 8]);
    let nonce = Scalar::new(5).unwrap();
    assert!(matches!(
        RingSignature::generate_with(b"m", &ring, 0, &key(7), &nonce, &scalars(&[1, 2, 3])),
        Err(Error::MalformedSignature)
    ));
}

#[test]
fn verify_reports_a_wrong_number_of_responses_as_malformed() {
    let ring = ring_of(&[7, 8, 9]);
    let sig = RingSignature::generate(b"m", &ring, 0, &key(7)).unwrap();
    let short = RingSignature::from_parts(
        sig.challenge(),
        vec![sig.response(0).unwrap(), sig.response(1).unwrap()],
        sig.key_image(),
    );
    assert_eq!(short.verify(b"m", &ring), Err(Error::MalformedSignature));
    assert_eq!(sig.verify(b"m", &ring_of(&[7])), Err(Error::InvalidRingSize));
}

fn responses_of(sig: &RingSignature) -> Vec<Scalar> {
    (0..sig.response_count()).map(|i| sig.response(i).unwrap()).collect()
}

#[test]
fn flipping_any_bit_of_a_response_or_the_challenge_breaks_the_signature() {
    let ring = ring_of(&[101, 202, 303]);
    let sig = RingSignature::generate(b"bits", &ring, 1, &key(202)).unwrap();
    assert_eq!(sig.verify(b"bits", &ring), Ok(true));
    for bit in 0..64u32 {
        match Scalar::new(sig.challenge().value() ^ (1u64 << bit)) {
            Ok(flipped) => {
                let forged = RingSignature::from_parts(flipped, responses_of(&sig), sig.key_image());
                assert_eq!(forged.verify(b"bits", &ring), Ok(false));
            }
            Err(e) => assert_eq!(e, Error::InvalidScalar),
        }
        for position in 0..3usize {
            let mut responses = responses_of(&sig);
            match Scalar::new(responses[position].value() ^ (1u64 << bit)) {
                Ok(flipped) => {
                    responses[position] = flipped;
                    let forged =
                        RingSignature::from_parts(sig.challenge(), responses, sig.key_image());
                    assert_eq!(forged.verify(b"bits", &ring), Ok(false));
                }
                Err(e) => assert_eq!(e, Error::InvalidScalar),
            }
        }
    }
}

#[test]
fn key_image_is_the_same_across_messages_and_rings() {
    let signer = key(424242);
    let ring_a = vec![key(1).public_key(), signer.public_key(), key(3).public_key()];
    let ring_b = vec![signer.public_key(), key(9).public_key()];
    let a = RingSignature::generate(b"first", &ring_a, 1, &signer).unwrap();
    let b = RingSignature::generate(b"second", &ring_b, 0, &signer).unwrap();
    assert_eq!(a.key_image(), b.key_image());
    assert_eq!(a.key_image(), signer.key_image());
    assert_eq!(a.verify(b"first", &ring_a), Ok(true));
    assert_eq!(b.verify(b"second", &ring_b), Ok(true));
}

#[test]
fn distinct_private_keys_have_distinct_key_images() {
    let mut seen: HashSet<u64> = HashSet::new();
    let mut secret: u64 = 0x9e37_79b9_7f4a_7c15 % ORDER;
    for _ in 0..10_000 {
        secret = (secret.wrapping_mul(6364136223846793005).wrapping_add(1442695040888963407))
            % ORDER;
        if secret == 0 {
            secret = 1;
        }
        assert!(seen.insert(key(secret).key_image().encode()));
    }
    assert_eq!(seen.len(), 10_000);
}

#[test]
fn second_registration_of_a_key_image_is_a_double_spend() {
    let mut registry = KeyImageRegistry::new();
    let k = key(77).key_image();
    let k2 = key(78).key_image();
    assert!(!registry.contains(&k));
    assert_eq!(registry.register(&k), Ok(()));
    assert!(registry.contains(&k));
    assert_eq!(registry.register(&k), Err(Error::DoubleSpend));
    assert!(registry.contains(&k));
    assert!(!registry.contains(&k2));
    assert_eq!(registry.register(&k2), Ok(()));
    assert!(registry.contains(&k2));
}

#[test]
fn random_responses_are_reduced_and_vary() {
    let ring = ring_of(&[5, 6, 7, 8]);
    let a = RingSignature::generate(b"r", &ring, 0, &key(5)).unwrap();
    let b = RingSignature::generate(b"r", &ring, 0, &key(5)).unwrap();
    for i in 0..4 {
        assert!(a.response(i).unwrap().value() < ORDER);
    }
    assert!(responses_of(&a).iter().any(|s| s.value() != 0));
    assert_ne!(responses_of(&a), responses_of(&b));
}

#[test]
fn responses_look_alike_at_every_signer_position() {
    let secrets = [31u64, 32, 33, 34];
    let ring = ring_of(&secrets);
    let rounds = 300usize;
    for signer in 0..4usize {
        let mut high = [0usize; 4];
        for _ in 0..rounds {
            let sig = RingSignature::generate(b"anon", &ring, signer, &key(secrets[signer])).unwrap();
            for position in 0..4usize {
                if sig.response(position).unwrap().value() >= ORDER / 2 {
                    high[position] += 1;
                }
            }
        }
        for position in 0..4usize {
            assert!(high[position] > rounds / 2 - 60 && high[position] < rounds / 2 + 60);
        }
    }
}
