//! The wire formats of signatures and transactions.
//!
//! A signature travels with its ring: the ring size, the ring members, the
//! challenge, the responses and the key image, each as one eight-byte word.
//! A transaction is its amount, then the signature with its ring, then the
//! binding bytes.

use vstd::prelude::*;
use crate::encoding::{
    be_bytes, be_word, lemma_be_word_in_concat, lemma_be_word_of_be_bytes, lemma_words_bytes_len,
    lemma_words_bytes_word, push_be_bytes, read_word, words_bytes,
};
use crate::error::Error;
use crate::group::{ORDER, in_group};
use crate::point::Point;
use crate::ring::{RingSignature, RingSignatureView, point_values, points_wf, scalar_values};
use crate::scalar::Scalar;
use crate::transaction::{PrivateTransaction, PrivateTransactionView};

verus! {

/// The bytes of a signature and its ring.
pub open spec fn signature_bytes(ring: Seq<nat>, sig: RingSignatureView) -> Seq<u8> {
    be_bytes(ring.len()) + words_bytes(ring) + be_bytes(sig.challenge) + words_bytes(
        sig.responses,
    ) + be_bytes(sig.key_image)
}

/// The ring size that a byte string announces.
pub open spec fn framed_count(b: Seq<u8>) -> nat {
    be_word(b, 0)
}

/// The byte string has the length that its announced ring size asks for.
pub open spec fn well_framed(b: Seq<u8>) -> bool {
    b.len() >= 24 && b.len() == 24 + 16 * framed_count(b)
}

/// The ring members that a byte string spells.
pub open spec fn framed_ring(b: Seq<u8>) -> Seq<nat> {
    Seq::new(framed_count(b), |i: int| be_word(b, 8 + 8 * i))
}

/// The signature that a byte string spells.
pub open spec fn framed_signature(b: Seq<u8>) -> RingSignatureView {
    let n = framed_count(b) as int;
    RingSignatureView {
        challenge: be_word(b, 8 + 8 * n),
        responses: Seq::new(n as nat, |i: int| be_word(b, 16 + 8 * n + 8 * i)),
        key_image: be_word(b, 16 + 16 * n),
    }
}

/// The byte string is the encoding of a ring of points and a signature of
/// reduced scalars with one response for each ring member.
pub open spec fn decodable(b: Seq<u8>) -> bool {
    &&& well_framed(b)
    &&& forall|i: int| 0 <= i < framed_count(b) ==> in_group(#[trigger] framed_ring(b)[i])
    &&& framed_signature(b).challenge < ORDER
    &&& forall|i: int|
        0 <= i < framed_count(b) ==> #[trigger] framed_signature(b).responses[i] < ORDER
    &&& in_group(framed_signature(b).key_image)
}

/// The ring and the signature can be written: the ring has one member for
/// each response, its size fits a word, and every value is valid.
pub open spec fn encodable(ring: Seq<nat>, sig: RingSignatureView) -> bool {
    &&& ring.len() == sig.responses.len()
    &&& ring.len() <= u64::MAX
    &&& forall|i: int| 0 <= i < ring.len() ==> in_group(#[trigger] ring[i])
    &&& sig.challenge < ORDER
    &&& forall|i: int| 0 <= i < sig.responses.len() ==> #[trigger] sig.responses[i] < ORDER
    &&& in_group(sig.key_image)
}

/// Five byte strings in a row, bracketed around each of them in turn.
proof fn lemma_regroup(a: Seq<u8>, b: Seq<u8>, c: Seq<u8>, d: Seq<u8>, e: Seq<u8>)
    ensures
        a + b + c + d + e == Seq::<u8>::empty() + a + (b + c + d + e),
        a + b + c + d + e == a + b + (c + d + e),
        a + b + c + d + e == (a + b) + c + (d + e),
        a + b + c + d + e == (a + b + c) + d + e,
        a + b + c + d + e == (a + b + c + d) + e + Seq::<u8>::empty(),
{
    let all = a + b + c + d + e;
    assert(all =~= Seq::<u8>::empty() + a + (b + c + d + e));
    assert(all =~= a + b + (c + d + e));
    assert(all =~= (a + b) + c + (d + e));
    assert(all =~= (a + b + c + d) + e + Seq::<u8>::empty());
}

/// The words of an encoded signature, one field after the other.
proof fn lemma_signature_words(ring: Seq<nat>, sig: RingSignatureView)
    requires
        encodable(ring, sig),
    ensures
        signature_bytes(ring, sig).len() == 24 + 16 * ring.len(),
        be_word(signature_bytes(ring, sig), 0) == ring.len(),
        forall|i: int|
            0 <= i < ring.len() ==> be_word(signature_bytes(ring, sig), 8 + 8 * i) == ring[i],
        be_word(signature_bytes(ring, sig), 8 + 8 * (ring.len() as int)) == sig.challenge,
        forall|i: int|
            0 <= i < ring.len() ==> be_word(signature_bytes(ring, sig), 16 + 8 * ring.len() + 8 * i)
                == sig.responses[i],
        be_word(signature_bytes(ring, sig), 16 + 16 * (ring.len() as int)) == sig.key_image,
{
    let n = ring.len() as int;
    let a = be_bytes(ring.len());
    let b = words_bytes(ring);
    let c = be_bytes(sig.challenge);
    let d = words_bytes(sig.responses);
    let e = be_bytes(sig.key_image);
    let all = signature_bytes(ring, sig);
    let none = Seq::<u8>::empty();
    lemma_be_word_of_be_bytes(ring.len());
    lemma_be_word_of_be_bytes(sig.challenge);
    lemma_be_word_of_be_bytes(sig.key_image);
    lemma_words_bytes_len(ring);
    lemma_words_bytes_len(sig.responses);
    lemma_regroup(a, b, c, d, e);
    lemma_be_word_in_concat(none, a, b + c + d + e, 0);
    lemma_be_word_in_concat(a + b, c, d + e, 0);
    lemma_be_word_in_concat(a + b + c + d, e, none, 0);
    assert forall|i: int| 0 <= i < n implies be_word(all, 8 + 8 * i) == ring[i] by {
        lemma_words_bytes_word(ring, i);
        lemma_be_word_in_concat(a, b, c + d + e, 8 * i);
    }
    assert forall|i: int| 0 <= i < n implies be_word(all, 16 + 8 * n + 8 * i)
        == sig.responses[i] by {
        lemma_words_bytes_word(sig.responses, i);
        lemma_be_word_in_concat(a + b + c, d, e, 8 * i);
    }
}

/// What was written can be read, and reads as what was written.
pub proof fn lemma_signature_round_trip(ring: Seq<nat>, sig: RingSignatureView)
    requires
        encodable(ring, sig),
    ensures
        decodable(signature_bytes(ring, sig)),
        framed_ring(signature_bytes(ring, sig)) == ring,
        framed_signature(signature_bytes(ring, sig)) == sig,
{
    let all = signature_bytes(ring, sig);
    lemma_signature_words(ring, sig);
    assert(framed_ring(all) =~= ring);
    assert(framed_signature(all).responses =~= sig.responses);
}

/// Appends the encodings of the points.
pub fn push_points(buf: &mut Vec<u8>, points: &Vec<Point>)
    ensures
        final(buf)@ == old(buf)@ + words_bytes(point_values(points@)),
{
    let ghost head = buf@;
    let ghost values = point_values(points@);
    let mut i: usize = 0;
    assert(values.take(0) =~= Seq::<nat>::empty());
    assert(buf@ =~= head + words_bytes(values.take(0)));
    while i < points.len()
        invariant
            i <= points.len(),
            values == point_values(points@),
            buf@ == head + words_bytes(values.take(i as int)),
        decreases points.len() - i,
    {
        push_be_bytes(buf, points[i].encode());
        proof {
            let next = values.take(i + 1);
            assert(next.drop_last() =~= values.take(i as int));
            assert(next.last() == points@[i as int]@);
            assert(buf@ =~= head + words_bytes(next));
        }
        i = i + 1;
    }
    assert(values.take(points.len() as int) =~= values);
}

/// Appends the encodings of the scalars.
pub fn push_scalars(buf: &mut Vec<u8>, scalars: &Vec<Scalar>)
    ensures
        final(buf)@ == old(buf)@ + words_bytes(scalar_values(scalars@)),
{
    let ghost head = buf@;
    let ghost values = scalar_values(scalars@);
    let mut i: usize = 0;
    assert(values.take(0) =~= Seq::<nat>::empty());
    assert(buf@ =~= head + words_bytes(values.take(0)));
    while i < scalars.len()
        invariant
            i <= scalars.len(),
            values == scalar_values(scalars@),
            buf@ == head + words_bytes(values.take(i as int)),
        decreases scalars.len() - i,
    {
        push_be_bytes(buf, scalars[i].value());
        proof {
            let next = values.take(i + 1);
            assert(next.drop_last() =~= values.take(i as int));
            assert(next.last() == scalars@[i as int]@);
            assert(buf@ =~= head + words_bytes(next));
        }
        i = i + 1;
    }
    assert(values.take(scalars.len() as int) =~= values);
}

/// Writes a signature and its ring.
pub fn encode_signature(ring: &Vec<Point>, sig: &RingSignature) -> (r: Vec<u8>)
    requires
        sig.wf(),
    ensures
        r@ == signature_bytes(point_values(ring@), sig@),
{
    let mut buf: Vec<u8> = Vec::new();
    push_be_bytes(&mut buf, ring.len() as u64);
    push_points(&mut buf, ring);
    push_be_bytes(&mut buf, sig.challenge().value());
    push_scalars(&mut buf, sig.responses());
    push_be_bytes(&mut buf, sig.key_image().encode());
    assert(buf@ =~= signature_bytes(point_values(ring@), sig@));
    buf
}

/// Reads a signature and its ring.  Bytes of the wrong length, a ring
/// member or key image outside the group, and a scalar that is not
/// reduced are all refused as malformed.
pub fn decode_signature(bytes: &[u8]) -> (r: Result<(Vec<Point>, RingSignature), Error>)
    ensures
        decodable(bytes@) ==> (r matches Ok(pair) && {
            &&& points_wf(pair.0@)
            &&& pair.1.wf()
            &&& point_values(pair.0@) == framed_ring(bytes@)
            &&& pair.1@ == framed_signature(bytes@)
        }),
        !decodable(bytes@) ==> (r matches Err(e) && e == Error::MalformedSignature),
{
    let len: usize = bytes.len();
    if len < 24 {
        return Err(Error::MalformedSignature);
    }
    let announced: u64 = read_word(bytes, 0);
    let rest: usize = len - 24;
    if rest % 16 != 0 {
        return Err(Error::MalformedSignature);
    }
    let n: usize = rest / 16;
    if announced != n as u64 {
        return Err(Error::MalformedSignature);
    }
    let mut ring: Vec<Point> = Vec::new();
    let mut i: usize = 0;
    while i < n
        invariant
            i <= n,
            len == bytes.len(),
            len == 24 + 16 * n,
            n == framed_count(bytes@),
            ring.len() == i,
            forall|j: int|
                0 <= j < i ==> (#[trigger] ring@[j]).wf() && ring@[j]@ == framed_ring(bytes@)[j],
        decreases n - i,
    {
        let word: u64 = read_word(bytes, 8 + 8 * i);
        match Point::decode(word) {
            Ok(p) => {
                ring.push(p);
            },
            Err(_) => {
                assert(!in_group(framed_ring(bytes@)[i as int]));
                return Err(Error::MalformedSignature);
            },
        }
        i = i + 1;
    }
    let challenge = match Scalar::new(read_word(bytes, 8 + 8 * n)) {
        Ok(s) => s,
        Err(_) => {
            return Err(Error::MalformedSignature);
        },
    };
    let mut responses: Vec<Scalar> = Vec::new();
    let mut k: usize = 0;
    while k < n
        invariant
            k <= n,
            len == bytes.len(),
            len == 24 + 16 * n,
            n == framed_count(bytes@),
            responses.len() == k,
            forall|j: int|
                0 <= j < k ==> (#[trigger] responses@[j]).wf() && responses@[j]@
                    == framed_signature(bytes@).responses[j],
        decreases n - k,
    {
        let word: u64 = read_word(bytes, 16 + 8 * n + 8 * k);
        match Scalar::new(word) {
            Ok(s) => {
                responses.push(s);
            },
            Err(_) => {
                assert(!(framed_signature(bytes@).responses[k as int] < ORDER));
                return Err(Error::MalformedSignature);
            },
        }
        k = k + 1;
    }
    let key_image = match Point::decode(read_word(bytes, 16 + 16 * n)) {
        Ok(p) => p,
        Err(_) => {
            return Err(Error::MalformedSignature);
        },
    };
    let sig = RingSignature::from_parts(challenge, responses, key_image);
    assert(point_values(ring@) =~= framed_ring(bytes@));
    assert(sig@.responses =~= framed_signature(bytes@).responses);
    Ok((ring, sig))
}

/// The bytes of a transaction: the amount, the signature with its ring,
/// and the binding bytes.
pub open spec fn transaction_bytes(tx: PrivateTransactionView) -> Seq<u8> {
    be_bytes(tx.amount) + signature_bytes(tx.ring, tx.signature) + tx.binding
}

/// Where the signature of a framed transaction ends.
pub open spec fn framed_signature_end(b: Seq<u8>) -> int {
    32 + 16 * (be_word(b, 8) as int)
}

/// The byte string is the encoding of a transaction.
pub open spec fn transaction_decodable(b: Seq<u8>) -> bool {
    &&& b.len() >= 32
    &&& framed_signature_end(b) <= b.len()
    &&& decodable(b.subrange(8, framed_signature_end(b)))
}

/// The transaction that a byte string spells.
pub open spec fn framed_transaction(b: Seq<u8>) -> PrivateTransactionView {
    let end = framed_signature_end(b);
    PrivateTransactionView {
        amount: be_word(b, 0),
        ring: framed_ring(b.subrange(8, end)),
        binding: b.subrange(end, b.len() as int),
        signature: framed_signature(b.subrange(8, end)),
    }
}

/// A written transaction can be read, and reads as what was written.
pub proof fn lemma_transaction_round_trip(tx: PrivateTransactionView)
    requires
        tx.amount <= u64::MAX,
        encodable(tx.ring, tx.signature),
    ensures
        transaction_decodable(transaction_bytes(tx)),
        framed_transaction(transaction_bytes(tx)) == tx,
{
    let a = be_bytes(tx.amount);
    let s = signature_bytes(tx.ring, tx.signature);
    let all = transaction_bytes(tx);
    lemma_be_word_of_be_bytes(tx.amount);
    lemma_signature_words(tx.ring, tx.signature);
    lemma_signature_round_trip(tx.ring, tx.signature);
    lemma_be_word_in_concat(Seq::<u8>::empty(), a, s + tx.binding, 0);
    assert(all =~= Seq::<u8>::empty() + a + (s + tx.binding));
    lemma_be_word_in_concat(a, s, tx.binding, 0);
    assert(be_word(all, 8) == tx.ring.len());
    let end = framed_signature_end(all);
    assert(end == 8 + s.len());
    assert(all.subrange(8, end) =~= s);
    assert(all.subrange(end, all.len() as int) =~= tx.binding);
}

/// Writes a transaction.
pub fn encode_transaction(tx: &PrivateTransaction) -> (r: Vec<u8>)
    requires
        tx.wf(),
    ensures
        r@ == transaction_bytes(tx@),
{
    let mut buf: Vec<u8> = Vec::new();
    push_be_bytes(&mut buf, tx.amount());
    let body = encode_signature(tx.ring(), tx.signature());
    let ghost head = buf@;
    let mut i: usize = 0;
    while i < body.len()
        invariant
            i <= body.len(),
            buf@ == head + body@.take(i as int),
        decreases body.len() - i,
    {
        buf.push(body[i]);
        assert(buf@ =~= head + body@.take(i + 1));
        i = i + 1;
    }
    assert(body@.take(body.len() as int) =~= body@);
    let ghost middle = buf@;
    let binding = tx.binding();
    let mut j: usize = 0;
    while j < binding.len()
        invariant
            j <= binding.len(),
            buf@ == middle + binding@.take(j as int),
        decreases binding.len() - j,
    {
        buf.push(binding[j]);
        assert(buf@ =~= middle + binding@.take(j + 1));
        j = j + 1;
    }
    assert(binding@.take(binding.len() as int) =~= binding@);
    assert(buf@ =~= transaction_bytes(tx@));
    buf
}

/// Reads a transaction.  Bytes that are too short for the ring size they
/// announce, and a signature that cannot be read, are refused as
/// malformed.
pub fn decode_transaction(bytes: &[u8]) -> (r: Result<PrivateTransaction, Error>)
    ensures
        transaction_decodable(bytes@) ==> (r matches Ok(tx) && tx.wf() && tx@
            == framed_transaction(bytes@)),
        !transaction_decodable(bytes@) ==> (r matches Err(e) && e == Error::MalformedSignature),
{
    let len: usize = bytes.len();
    if len < 32 {
        return Err(Error::MalformedSignature);
    }
    let amount: u64 = read_word(bytes, 0);
    let announced: u64 = read_word(bytes, 8);
    let room: usize = (len - 32) / 16;
    if announced > room as u64 {
        return Err(Error::MalformedSignature);
    }
    let n: usize = announced as usize;
    let end: usize = 32 + 16 * n;
    let body = vstd::slice::slice_subrange(bytes, 8, end);
    match decode_signature(body) {
        Ok((ring, signature)) => {
            let tail = vstd::slice::slice_subrange(bytes, end, len);
            let binding = vstd::slice::slice_to_vec(tail);
            Ok(PrivateTransaction::from_parts(amount, ring, binding, signature))
        },
        Err(e) => Err(e),
    }
}

} // verus!
