use ringsig::encoding::push_be_bytes;
use ringsig::error::{Error, TxError};
use ringsig::group::{MODULUS, ORDER};
use ringsig::keys::PrivateKey;
use ringsig::point::Point;
use ringsig::registry::KeyImageRegistry;
use ringsig::ring::{check_ring, RingSignature};
use ringsig::scalar::Scalar;
use ringsig::transaction::PrivateTransaction;
use ringsig::wire::{
    decode_signature, decode_transaction, encode_signature, encode_transaction, push_points,
    push_scalars,
};

fn key(v: u64) -> PrivateKey {
    PrivateKey::new(v).unwrap()
}

fn ring_of(secrets: &[u64]) -> Vec<Point> {
    secrets.iter().map(|s| key(*s).public_key()).collect()
}

fn words(values: &[u64]) -> Vec<u8> {
    let mut buf = Vec::new();
    for v in values {
        push_be_bytes(&mut buf, *v);
    }
    buf
}

fn small_signature() -> (Vec<Point>, RingSignature) {
    let ring = vec![Point::base(), Point::decode(16).unwrap()];
    let sig = RingSignature::from_parts(
        Scalar::new(1).unwrap(),
        vec![Scalar::new(2).unwrap(), Scalar::new(3).unwrap()],
        Point::decode(64).unwrap(),
    );
    (ring, sig)
}

#[test]
fn ring_check_wants_two_distinct_members() {
    assert!(check_ring(&ring_of(&[1, 2])));
    assert!(check_ring(&ring_of(&[1, 2, 3, 4])));
    assert!(!check_ring(&ring_of(&[1])));
    assert!(!check_ring(&Vec::new()));
    assert!(!check_ring(&ring_of(&[1, 2, 1])));
    assert!(!check_ring(&ring_of(&[5, 5])));
    assert!(!check_ring(&ring_of(&[1, 2, 3, 3])));
}

#[test]
fn points_and_scalars_are_written_word_by_word() {
    let mut buf = vec![9u8];
    push_points(&mut buf, &vec![Point::base(), Point::decode(16).unwrap()]);
    assert_eq!(buf, [vec![9u8], words(&[4, 16])].concat());
    let mut buf = Vec::new();
    push_scalars(&mut buf, &vec![Scalar::new(258).unwrap()]);
    assert_eq!(buf, vec![0, 0, 0, 0, 0, 0, 1, 2]);
}

#[test]
fn signature_bytes_follow_the_format() {
    let (ring, sig) = small_signature();
    assert_eq!(encode_signature(&ring, &sig), words(&[2, 4, 16, 1, 2, 3, 64]));
}

#[test]
fn signature_survives_the_wire() {
    let ring = ring_of(&[10, 20, 30]);
    let sig = RingSignature::generate(b"wire", &ring, 2, &key(30)).unwrap();
    let bytes = encode_signature(&ring, &sig);
    assert_eq!(bytes.len(), 24 + 16 * 3);
    let (ring_back, sig_back) = decode_signature(&bytes).unwrap();
    assert_eq!(ring_back, ring);
    assert_eq!(sig_back.challenge(), sig.challenge());
    assert_eq!(sig_back.responses(), sig.responses());
    assert_eq!(sig_back.key_image(), sig.key_image());
    assert_eq!(sig_back.verify(b"wire", &ring_back), Ok(true));
}

#[test]
fn decode_signature_rejects_bad_lengths() {
    assert!(matches!(decode_signature(&[]), Err(Error::MalformedSignature)));
    assert!(matches!(decode_signature(&[0u8; 23]), Err(Error::MalformedSignature)));
    let good = words(&[2, 4, 16, 1, 2, 3, 64]);
    assert!(decode_signature(&good).is_ok());
    let mut long = good.clone();
    long.push(0);
    assert!(matches!(decode_signature(&long), Err(Error::MalformedSignature)));
    assert!(matches!(decode_signature(&good[..good.len() - 8]), Err(Error::MalformedSignature)));
    let wrong_count = words(&[3, 4, 16, 1, 2, 3, 64]);
    assert!(matches!(decode_signature(&wrong_count), Err(Error::MalformedSignature)));
    let huge_count = words(&[u64::MAX, 4, 16, 1, 2, 3, 64]);
    assert!(matches!(decode_signature(&huge_count), Err(Error::MalformedSignature)));
}

#[test]
fn decode_signature_rejects_invalid_fields() {
    let bad_member = words(&[2, 4, MODULUS - 1, 1, 2, 3, 64]);
    assert!(matches!(decode_signature(&bad_member), Err(Error::MalformedSignature)));
    let bad_challenge = words(&[2, 4, 16, ORDER, 2, 3, 64]);
    assert!(matches!(decode_signature(&bad_challenge), Err(Error::MalformedSignature)));
    let bad_response = words(&[2, 4, 16, 1, 2, ORDER, 64]);
    assert!(matches!(decode_signature(&bad_response), Err(Error::MalformedSignature)));
    let bad_image = words(&[2, 4, 16, 1, 2, 3, 0]);
    assert!(matches!(decode_signature(&bad_image), Err(Error::MalformedSignature)));
}

#[test]
fn decode_signature_accepts_an_empty_ring_frame() {
    let (ring, sig) = decode_signature(&words(&[0, 5, 4])).unwrap();
    assert!(ring.is_empty());
    assert_eq!(sig.response_count(), 0);
    assert_eq!(sig.challenge().value(), 5);
    assert_eq!(sig.verify(b"m", &ring), Err(Error::InvalidRingSize));
}

#[test]
fn transaction_bytes_follow_the_format() {
    let (ring, sig) = small_signature();
    let tx = PrivateTransaction::from_parts(7, ring, vec![0xaa, 0xbb], sig);
    let expected = [words(&[7, 2, 4, 16, 1, 2, 3, 64]), vec![0xaa, 0xbb]].concat();
    assert_eq!(encode_transaction(&tx), expected);
}

#[test]
fn transaction_survives_the_wire() {
    let ring = ring_of(&[10, 20, 30]);
    let tx = PrivateTransaction::create(500, ring.clone(), 0, &key(10), b"note".to_vec()).unwrap();
    let bytes = encode_transaction(&tx);
    let back = decode_transaction(&bytes).unwrap();
    assert_eq!(back.amount(), 500);
    assert_eq!(back.ring(), &ring);
    assert_eq!(back.binding(), &b"note".to_vec());
    assert_eq!(back.signature().challenge(), tx.signature().challenge());
    assert_eq!(back.signature().responses(), tx.signature().responses());
    assert_eq!(back.verify(&KeyImageRegistry::new()), Ok(()));
}

#[test]
fn tampering_with_the_amount_on_the_wire_is_detected() {
    let ring = ring_of(&[10, 20, 30]);
    let tx = PrivateTransaction::create(500, ring, 1, &key(20), Vec::new()).unwrap();
    let mut bytes = encode_transaction(&tx);
    bytes[7] ^= 1;
    let back = decode_transaction(&bytes).unwrap();
    assert_eq!(back.amount(), 501);
    assert_eq!(back.verify(&KeyImageRegistry::new()), Err(TxError::InvalidSignature));
}

#[test]
fn decode_transaction_rejects_malformed_bytes() {
    assert!(matches!(decode_transaction(&[0u8; 31]), Err(Error::MalformedSignature)));
    let short = words(&[7, 2, 4, 16, 1, 2, 3]);
    assert!(matches!(decode_transaction(&short), Err(Error::MalformedSignature)));
    let huge = words(&[7, u64::MAX, 4, 16, 1, 2, 3, 64]);
    assert!(matches!(decode_transaction(&huge), Err(Error::MalformedSignature)));
    let bad_member = words(&[7, 2, 4, 0, 1, 2, 3, 64]);
    assert!(matches!(decode_transaction(&bad_member), Err(Error::MalformedSignature)));
    let good = words(&[7, 2, 4, 16, 1, 2, 3, 64]);
    let tx = decode_transaction(&good).unwrap();
    assert_eq!(tx.amount(), 7);
    assert!(tx.binding().is_empty());
}
