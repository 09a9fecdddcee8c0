//! The ring signature engine: a linkable one-of-many signature whose
//! challenges are chained around the ring and must close on themselves.

use vstd::prelude::*;
use rand::Rng;
use crate::error::Error;
use crate::group::{
    GENERATOR, ORDER, lemma_generator_in_group, lemma_response_closes, mul_mod, pow_mod,
    scalar_difference, scalar_product,
};
use crate::encoding::{be_bytes, push_be_bytes};
use crate::hash::{hash_to_scalar, lemma_point_of_digest_in_group, scalar_hash, sha256_digest};
use crate::keys::{PrivateKey, key_base, key_base_point, key_image_of, public_key_of};
use crate::point::Point;
use crate::scalar::Scalar;

verus! {

/// The residues of a sequence of points.
pub open spec fn point_values(ps: Seq<Point>) -> Seq<nat> {
    Seq::new(ps.len(), |i: int| ps[i]@)
}

/// The integers of a sequence of scalars.
pub open spec fn scalar_values(ss: Seq<Scalar>) -> Seq<nat> {
    Seq::new(ss.len(), |i: int| ss[i]@)
}

/// Every point of the sequence is valid.
pub open spec fn points_wf(ps: Seq<Point>) -> bool {
    forall|i: int| 0 <= i < ps.len() ==> (#[trigger] ps[i]).wf()
}

/// Every scalar of the sequence is valid.
pub open spec fn scalars_wf(ss: Seq<Scalar>) -> bool {
    forall|i: int| 0 <= i < ss.len() ==> (#[trigger] ss[i]).wf()
}

/// No point stands at two positions of the ring.
pub open spec fn distinct_members(ring: Seq<nat>) -> bool {
    forall|i: int, j: int| 0 <= i < j < ring.len() ==> ring[i] != ring[j]
}

/// A ring is well formed when it has at least two members and no member
/// stands in it twice.
pub open spec fn ring_well_formed(ring: Seq<nat>) -> bool {
    ring.len() >= 2 && distinct_members(ring)
}

/// Tests whether a ring is well formed.
pub fn check_ring(ring: &Vec<Point>) -> (r: bool)
    ensures
        r == ring_well_formed(point_values(ring@)),
{
    let n: usize = ring.len();
    if n < 2 {
        return false;
    }
    let ghost values = point_values(ring@);
    let mut j: usize = 1;
    while j < n
        invariant
            1 <= j <= n,
            n == ring.len(),
            values == point_values(ring@),
            forall|a: int, b: int| 0 <= a < b < j ==> values[a] != values[b],
        decreases n - j,
    {
        let mut i: usize = 0;
        while i < j
            invariant
                i <= j < n,
                n == ring.len(),
                values == point_values(ring@),
                forall|a: int| 0 <= a < i ==> values[a] != values[j as int],
            decreases j - i,
        {
            if ring[i].equals(&ring[j]) {
                assert(values[i as int] == values[j as int]);
                return false;
            }
            i = i + 1;
        }
        j = j + 1;
    }
    true
}

/// The challenge that binds a message to the two commitments `l` and `r`.
pub open spec fn challenge_of(msg: Seq<u8>, l: nat, r: nat) -> nat {
    scalar_hash(msg + be_bytes(l) + be_bytes(r))
}

/// The challenge that follows the challenge `c` at a ring member with the
/// response `s`: the two commitments are rebuilt from public values alone.
pub open spec fn link_challenge(msg: Seq<u8>, member: nat, image: nat, s: nat, c: nat) -> nat {
    challenge_of(
        msg,
        mul_mod(pow_mod(GENERATOR as nat, s), pow_mod(member, c)),
        mul_mod(pow_mod(key_base(member), s), pow_mod(image, c)),
    )
}

/// The challenge at position `to` when the challenge at position `from` is
/// `c` and the chain runs through the members in between.
pub open spec fn chain(
    msg: Seq<u8>,
    ring: Seq<nat>,
    image: nat,
    responses: Seq<nat>,
    c: nat,
    from: int,
    to: int,
) -> nat
    decreases to - from,
{
    if to <= from {
        c
    } else {
        link_challenge(
            msg,
            ring[to - 1],
            image,
            responses[to - 1],
            chain(msg, ring, image, responses, c, from, to - 1),
        )
    }
}

/// What a signature holds, as integers.
pub struct RingSignatureView {
    pub challenge: nat,
    pub responses: Seq<nat>,
    pub key_image: nat,
}

/// The chain of the signature closes: run around the whole ring from the
/// stored challenge, it ends on the stored challenge.
pub open spec fn closes(msg: Seq<u8>, ring: Seq<nat>, sig: RingSignatureView) -> bool {
    chain(msg, ring, sig.key_image, sig.responses, sig.challenge, 0, ring.len() as int)
        == sig.challenge
}

/// The challenge that the signer's commitments give, which stands at the
/// position after the signer.
pub open spec fn seed_challenge(msg: Seq<u8>, ring: Seq<nat>, idx: int, alpha: nat) -> nat {
    challenge_of(msg, pow_mod(GENERATOR as nat, alpha), pow_mod(key_base(ring[idx]), alpha))
}

/// The signature that the private scalar `x` at position `idx` makes with
/// the commitment scalar `alpha` and the decoy responses `decoys`.
pub open spec fn signature_of(
    msg: Seq<u8>,
    ring: Seq<nat>,
    idx: int,
    x: nat,
    alpha: nat,
    decoys: Seq<nat>,
) -> RingSignatureView {
    let image = key_image_of(x);
    let seed = seed_challenge(msg, ring, idx, alpha);
    let first = chain(msg, ring, image, decoys, seed, idx + 1, ring.len() as int);
    let own = chain(msg, ring, image, decoys, first, 0, idx);
    RingSignatureView {
        challenge: first,
        responses: decoys.update(idx, scalar_difference(alpha, scalar_product(own, x))),
        key_image: image,
    }
}

/// A chain reads only the responses of the positions it runs through.
pub proof fn lemma_chain_agrees(
    msg: Seq<u8>,
    ring: Seq<nat>,
    image: nat,
    s1: Seq<nat>,
    s2: Seq<nat>,
    c: nat,
    from: int,
    to: int,
)
    requires
        forall|j: int| from <= j < to ==> s1[j] == s2[j],
    ensures
        chain(msg, ring, image, s1, c, from, to) == chain(msg, ring, image, s2, c, from, to),
    decreases to - from,
{
    if to > from {
        lemma_chain_agrees(msg, ring, image, s1, s2, c, from, to - 1);
    }
}

/// A chain can be cut at any position in between.
pub proof fn lemma_chain_splits(
    msg: Seq<u8>,
    ring: Seq<nat>,
    image: nat,
    s: Seq<nat>,
    c: nat,
    from: int,
    mid: int,
    to: int,
)
    requires
        from <= mid <= to,
    ensures
        chain(msg, ring, image, s, c, from, to) == chain(
            msg,
            ring,
            image,
            s,
            chain(msg, ring, image, s, c, from, mid),
            mid,
            to,
        ),
    decreases to - mid,
{
    if to > mid {
        lemma_chain_splits(msg, ring, image, s, c, from, mid, to - 1);
    }
}

/// A chain that starts on a reduced scalar ends on one.
pub proof fn lemma_chain_reduced(
    msg: Seq<u8>,
    ring: Seq<nat>,
    image: nat,
    s: Seq<nat>,
    c: nat,
    from: int,
    to: int,
)
    requires
        c < ORDER,
    ensures
        chain(msg, ring, image, s, c, from, to) < ORDER,
{
}

/// Every signature made with the private key of the ring member at the
/// signer's position closes: whatever the message, the other members, the
/// commitment scalar and the decoy responses are.
pub proof fn lemma_signature_closes(
    msg: Seq<u8>,
    ring: Seq<nat>,
    idx: int,
    x: nat,
    alpha: nat,
    decoys: Seq<nat>,
)
    requires
        0 <= idx < ring.len(),
        decoys.len() == ring.len(),
        x < ORDER,
        alpha < ORDER,
        ring[idx] == public_key_of(x),
    ensures
        closes(msg, ring, signature_of(msg, ring, idx, x, alpha, decoys)),
{
    let n = ring.len() as int;
    let sig = signature_of(msg, ring, idx, x, alpha, decoys);
    let image = key_image_of(x);
    let seed = seed_challenge(msg, ring, idx, alpha);
    let first = sig.challenge;
    let own = chain(msg, ring, image, decoys, first, 0, idx);
    let s = sig.responses;
    lemma_chain_reduced(msg, ring, image, decoys, seed, idx + 1, n);
    lemma_chain_reduced(msg, ring, image, decoys, first, 0, idx);
    lemma_chain_agrees(msg, ring, image, s, decoys, first, 0, idx);
    lemma_generator_in_group();
    lemma_response_closes(GENERATOR as nat, x, own, alpha);
    lemma_point_of_digest_in_group(sha256_digest(be_bytes(ring[idx])));
    lemma_response_closes(key_base(ring[idx]), x, own, alpha);
    assert(chain(msg, ring, image, s, first, 0, idx + 1) == seed);
    lemma_chain_splits(msg, ring, image, s, first, 0, idx + 1, n);
    lemma_chain_agrees(msg, ring, image, s, decoys, seed, idx + 1, n);
}

/// Two signatures made with one private key carry one key image, whatever
/// the messages, the rings, the signer positions and the randomness are.
pub proof fn lemma_key_image_links(
    x: nat,
    msg1: Seq<u8>,
    ring1: Seq<nat>,
    idx1: int,
    alpha1: nat,
    decoys1: Seq<nat>,
    msg2: Seq<u8>,
    ring2: Seq<nat>,
    idx2: int,
    alpha2: nat,
    decoys2: Seq<nat>,
)
    ensures
        signature_of(msg1, ring1, idx1, x, alpha1, decoys1).key_image == key_image_of(x),
        signature_of(msg1, ring1, idx1, x, alpha1, decoys1).key_image == signature_of(
            msg2,
            ring2,
            idx2,
            x,
            alpha2,
            decoys2,
        ).key_image,
{
}

/// Draws from `rand::thread_rng()` with `Rng::gen_range` over the half-open
/// range from zero to `bound`.  The contract claims only that the number
/// lies in that range; the call panics on an empty range, which the
/// precondition leaves out.
#[verifier::external_body]
fn random_below(bound: u64) -> (r: u64)
    requires
        bound > 0,
    ensures
        r < bound,
{
    rand::thread_rng().gen_range(0..bound)
}

/// A fresh random scalar.
fn random_scalar() -> (r: Scalar)
    ensures
        r.wf(),
{
    Scalar::reduce(random_below(ORDER))
}

/// Computes the challenge that binds a message to two commitments.
fn challenge(msg: &[u8], l: &Point, r: &Point) -> (c: Scalar)
    ensures
        c.wf(),
        c@ == challenge_of(msg@, l@, r@),
{
    let mut buf: Vec<u8> = vstd::slice::slice_to_vec(msg);
    push_be_bytes(&mut buf, l.encode());
    push_be_bytes(&mut buf, r.encode());
    hash_to_scalar(buf.as_slice())
}

/// Computes the challenge that follows `c` at one ring member.
fn link(msg: &[u8], member: &Point, image: &Point, s: &Scalar, c: &Scalar) -> (next: Scalar)
    requires
        member.wf(),
        image.wf(),
    ensures
        next.wf(),
        next@ == link_challenge(msg@, member@, image@, s@, c@),
{
    let l = Point::base().scalar_mul(s).add(&member.scalar_mul(c));
    let base = key_base_point(member);
    let r = base.scalar_mul(s).add(&image.scalar_mul(c));
    challenge(msg, &l, &r)
}

/// Runs the chain from position `from` to position `to`.
fn advance(
    msg: &[u8],
    ring: &Vec<Point>,
    image: &Point,
    responses: &Vec<Scalar>,
    start: &Scalar,
    from: usize,
    to: usize,
) -> (r: Scalar)
    requires
        points_wf(ring@),
        image.wf(),
        start.wf(),
        from <= to <= ring.len(),
        responses.len() == ring.len(),
    ensures
        r.wf(),
        r@ == chain(
            msg@,
            point_values(ring@),
            image@,
            scalar_values(responses@),
            start@,
            from as int,
            to as int,
        ),
{
    let mut c: Scalar = *start;
    let mut i: usize = from;
    while i < to
        invariant
            points_wf(ring@),
            image.wf(),
            from <= i <= to <= ring.len(),
            responses.len() == ring.len(),
            c.wf(),
            c@ == chain(
                msg@,
                point_values(ring@),
                image@,
                scalar_values(responses@),
                start@,
                from as int,
                i as int,
            ),
        decreases to - i,
    {
        c = link(msg, &ring[i], image, &responses[i], &c);
        i = i + 1;
    }
    c
}

/// A linkable ring signature: a challenge, one response for each ring
/// member, and the signer's key image.
#[derive(Debug)]
pub struct RingSignature {
    challenge: Scalar,
    responses: Vec<Scalar>,
    key_image: Point,
}

impl View for RingSignature {
    type V = RingSignatureView;

    closed spec fn view(&self) -> RingSignatureView {
        RingSignatureView {
            challenge: self.challenge@,
            responses: scalar_values(self.responses@),
            key_image: self.key_image@,
        }
    }
}

impl Clone for RingSignature {
    /// A copy that holds the same challenge, responses and key image.
    fn clone(&self) -> (r: RingSignature)
        ensures
            r@ == self@,
            self.wf() ==> r.wf(),
    {
        let mut responses: Vec<Scalar> = Vec::new();
        let mut i: usize = 0;
        while i < self.responses.len()
            invariant
                i <= self.responses.len(),
                responses.len() == i,
                forall|j: int| 0 <= j < i ==> responses@[j] == self.responses@[j],
            decreases self.responses.len() - i,
        {
            responses.push(self.responses[i]);
            i = i + 1;
        }
        assert(responses@ =~= self.responses@);
        RingSignature { challenge: self.challenge, responses, key_image: self.key_image }
    }
}

impl RingSignature {
    /// A signature is valid when its scalars are reduced and its key image
    /// is an element of the group.
    pub closed spec fn wf(&self) -> bool {
        self.challenge.wf() && scalars_wf(self.responses@) && self.key_image.wf()
    }

    /// A signature of given parts, as they come off the wire.
    pub fn from_parts(challenge: Scalar, responses: Vec<Scalar>, key_image: Point) -> (r:
        RingSignature)
        requires
            challenge.wf(),
            scalars_wf(responses@),
            key_image.wf(),
        ensures
            r.wf(),
            r@.challenge == challenge@,
            r@.responses == scalar_values(responses@),
            r@.key_image == key_image@,
    {
        RingSignature { challenge, responses, key_image }
    }

    /// The stored challenge.
    pub fn challenge(&self) -> (r: Scalar)
        requires
            self.wf(),
        ensures
            r.wf(),
            r@ == self@.challenge,
    {
        self.challenge
    }

    /// The number of responses.
    pub fn response_count(&self) -> (r: usize)
        ensures
            r == self@.responses.len(),
    {
        self.responses.len()
    }

    /// The response at position `i`.
    pub fn response(&self, i: usize) -> (r: Option<Scalar>)
        requires
            self.wf(),
        ensures
            i < self@.responses.len() ==> r.is_some() && r.unwrap().wf() && r.unwrap()@
                == self@.responses[i as int],
            i >= self@.responses.len() ==> r.is_none(),
    {
        if i < self.responses.len() {
            Some(self.responses[i])
        } else {
            None
        }
    }

    /// The responses, one for each ring member.
    pub fn responses(&self) -> (r: &Vec<Scalar>)
        requires
            self.wf(),
        ensures
            scalars_wf(r@),
            scalar_values(r@) == self@.responses,
    {
        &self.responses
    }

    /// The signer's key image.
    pub fn key_image(&self) -> (r: Point)
        requires
            self.wf(),
        ensures
            r.wf(),
            r@ == self@.key_image,
    {
        self.key_image
    }

    /// Signs `message` for `ring` with given randomness: the commitment
    /// scalar `nonce` and one decoy response for each position (the one at
    /// the signer's position is replaced by the closing response).
    pub fn generate_with(
        message: &[u8],
        ring: &Vec<Point>,
        signer_index: usize,
        private_key: &PrivateKey,
        nonce: &Scalar,
        decoys: &Vec<Scalar>,
    ) -> (r: Result<RingSignature, Error>)
        requires
            points_wf(ring@),
            private_key.wf(),
            nonce.wf(),
            scalars_wf(decoys@),
        ensures
            ring.len() < 2 ==> r == Err::<RingSignature, Error>(Error::InvalidRingSize),
            ring.len() >= 2 && signer_index >= ring.len() ==> r == Err::<RingSignature, Error>(
                Error::IndexOutOfRange,
            ),
            ring.len() >= 2 && signer_index < ring.len() && decoys.len() != ring.len() ==> r
                == Err::<RingSignature, Error>(Error::MalformedSignature),
            ring.len() >= 2 && signer_index < ring.len() && decoys.len() == ring.len() ==> {
                &&& r.is_ok()
                &&& r.unwrap().wf()
                &&& r.unwrap()@ == signature_of(
                    message@,
                    point_values(ring@),
                    signer_index as int,
                    private_key@,
                    nonce@,
                    scalar_values(decoys@),
                )
                &&& r.unwrap()@.key_image == key_image_of(private_key@)
                &&& ring@[signer_index as int]@ == public_key_of(private_key@) ==> closes(
                    message@,
                    point_values(ring@),
                    r.unwrap()@,
                )
            },
    {
        let n: usize = ring.len();
        if n < 2 {
            return Err(Error::InvalidRingSize);
        }
        if signer_index >= n {
            return Err(Error::IndexOutOfRange);
        }
        if decoys.len() != n {
            return Err(Error::MalformedSignature);
        }
        let image = private_key.key_image();
        let base = key_base_point(&ring[signer_index]);
        let left = Point::base().scalar_mul(nonce);
        let right = base.scalar_mul(nonce);
        let seed = challenge(message, &left, &right);
        let first = advance(message, ring, &image, decoys, &seed, signer_index + 1, n);
        let own = advance(message, ring, &image, decoys, &first, 0, signer_index);
        let closing = nonce.sub(&own.mul(private_key.scalar()));
        let mut responses: Vec<Scalar> = Vec::new();
        let mut i: usize = 0;
        while i < n
            invariant
                i <= n,
                n == decoys.len(),
                signer_index < n,
                scalars_wf(decoys@),
                closing.wf(),
                responses.len() == i,
                forall|j: int|
                    0 <= j < i ==> (#[trigger] responses@[j]).wf() && responses@[j]@ == (if j
                        == signer_index {
                        closing@
                    } else {
                        decoys@[j]@
                    }),
            decreases n - i,
        {
            if i == signer_index {
                responses.push(closing);
            } else {
                responses.push(decoys[i]);
            }
            i = i + 1;
        }
        let sig = RingSignature { challenge: first, responses, key_image: image };
        proof {
            let expected = signature_of(
                message@,
                point_values(ring@),
                signer_index as int,
                private_key@,
                nonce@,
                scalar_values(decoys@),
            );
            assert(sig@.responses =~= expected.responses);
            if ring@[signer_index as int]@ == public_key_of(private_key@) {
                lemma_signature_closes(
                    message@,
                    point_values(ring@),
                    signer_index as int,
                    private_key@,
                    nonce@,
                    scalar_values(decoys@),
                );
            }
        }
        Ok(sig)
    }

    /// Signs `message` for `ring` with the private key of the member at
    /// `signer_index`, drawing the commitment scalar and the decoy
    /// responses at random.
    pub fn generate(
        message: &[u8],
        ring: &Vec<Point>,
        signer_index: usize,
        private_key: &PrivateKey,
    ) -> (r: Result<RingSignature, Error>)
        requires
            points_wf(ring@),
            private_key.wf(),
        ensures
            ring.len() < 2 ==> r == Err::<RingSignature, Error>(Error::InvalidRingSize),
            ring.len() >= 2 && signer_index >= ring.len() ==> r == Err::<RingSignature, Error>(
                Error::IndexOutOfRange,
            ),
            ring.len() >= 2 && signer_index < ring.len() ==> {
                &&& r.is_ok()
                &&& r.unwrap().wf()
                &&& r.unwrap()@.responses.len() == ring.len()
                &&& r.unwrap()@.key_image == key_image_of(private_key@)
                &&& (exists|alpha: nat, decoys: Seq<nat>|
                    alpha < ORDER && decoys.len() == ring.len() && r.unwrap()@
                        == #[trigger] signature_of(
                        message@,
                        point_values(ring@),
                        signer_index as int,
                        private_key@,
                        alpha,
                        decoys,
                    ))
                &&& ring@[signer_index as int]@ == public_key_of(private_key@) ==> closes(
                    message@,
                    point_values(ring@),
                    r.unwrap()@,
                )
            },
    {
        let n: usize = ring.len();
        if n < 2 {
            return Err(Error::InvalidRingSize);
        }
        if signer_index >= n {
            return Err(Error::IndexOutOfRange);
        }
        let nonce = random_scalar();
        let mut decoys: Vec<Scalar> = Vec::new();
        let mut i: usize = 0;
        while i < n
            invariant
                i <= n,
                decoys.len() == i,
                scalars_wf(decoys@),
            decreases n - i,
        {
            decoys.push(random_scalar());
            i = i + 1;
        }
        RingSignature::generate_with(message, ring, signer_index, private_key, &nonce, &decoys)
    }

    /// Checks the signature against a message and a ring: the answer is
    /// whether the chain of challenges closes.
    pub fn verify(&self, message: &[u8], ring: &Vec<Point>) -> (r: Result<bool, Error>)
        requires
            self.wf(),
            points_wf(ring@),
        ensures
            ring.len() < 2 ==> r == Err::<bool, Error>(Error::InvalidRingSize),
            ring.len() >= 2 && self@.responses.len() != ring.len() ==> r == Err::<bool, Error>(
                Error::MalformedSignature,
            ),
            ring.len() >= 2 && self@.responses.len() == ring.len() ==> r == Ok::<bool, Error>(
                closes(message@, point_values(ring@), self@),
            ),
    {
        let n: usize = ring.len();
        if n < 2 {
            return Err(Error::InvalidRingSize);
        }
        if self.responses.len() != n {
            return Err(Error::MalformedSignature);
        }
        let last = advance(
            message,
            ring,
            &self.key_image,
            &self.responses,
            &self.challenge,
            0,
            n,
        );
        Ok(last.equals(&self.challenge))
    }
}

} // verus!
