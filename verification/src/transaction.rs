//! The transaction record: an amount and a ring, bound to one signature.

use vstd::prelude::*;
use crate::error::{Error, TxError};
use crate::encoding::{be_bytes, push_be_bytes, words_bytes};
use crate::keys::{PrivateKey, key_image_of, public_key_of};
use crate::point::Point;
use crate::registry::KeyImageRegistry;
use crate::ring::{
    RingSignature, RingSignatureView, closes, point_values, points_wf, scalar_values,
    scalars_wf, signature_of,
};
use crate::scalar::Scalar;
use crate::wire::push_points;

verus! {

/// The message that a transaction's signature signs: the amount, the size
/// of the ring, the ring members and the caller's binding bytes.
pub open spec fn signed_message(amount: nat, ring: Seq<nat>, binding: Seq<u8>) -> Seq<u8> {
    be_bytes(amount) + be_bytes(ring.len()) + words_bytes(ring) + binding
}

/// Builds the message that a transaction's signature signs.
pub fn build_message(amount: u64, ring: &Vec<Point>, binding: &Vec<u8>) -> (r: Vec<u8>)
    ensures
        r@ == signed_message(amount as nat, point_values(ring@), binding@),
{
    let mut buf: Vec<u8> = Vec::new();
    push_be_bytes(&mut buf, amount);
    push_be_bytes(&mut buf, ring.len() as u64);
    let ghost head = buf@;
    assert(head =~= be_bytes(amount as nat) + be_bytes(ring.len() as nat));
    push_points(&mut buf, ring);
    let ghost body = buf@;
    let mut j: usize = 0;
    while j < binding.len()
        invariant
            j <= binding.len(),
            buf@ == body + binding@.take(j as int),
        decreases binding.len() - j,
    {
        buf.push(binding[j]);
        assert(buf@ =~= body + binding@.take(j + 1));
        j = j + 1;
    }
    assert(binding@.take(binding.len() as int) =~= binding@);
    buf
}

/// What a transaction holds, as integers and bytes.
pub struct PrivateTransactionView {
    pub amount: nat,
    pub ring: Seq<nat>,
    pub binding: Seq<u8>,
    pub signature: RingSignatureView,
}

/// The verdict on a transaction: the first failure in the order in which
/// the checks are made, the signature before the registry.
pub open spec fn verdict(tx: PrivateTransactionView, spent: Set<nat>) -> Result<(), TxError> {
    if tx.ring.len() < 2 {
        Err(TxError::InvalidRingSize)
    } else if tx.signature.responses.len() != tx.ring.len() {
        Err(TxError::MalformedSignature)
    } else if !closes(signed_message(tx.amount, tx.ring, tx.binding), tx.ring, tx.signature) {
        Err(TxError::InvalidSignature)
    } else if spent.contains(tx.signature.key_image) {
        Err(TxError::DoubleSpend)
    } else {
        Ok(())
    }
}

/// Once a transaction's key image is spent, the transaction is refused,
/// and so is every other transaction that carries the same key image.
pub proof fn lemma_spent_image_is_refused(
    tx: PrivateTransactionView,
    other: PrivateTransactionView,
    spent: Set<nat>,
)
    requires
        other.signature.key_image == tx.signature.key_image,
    ensures
        verdict(tx, spent.insert(tx.signature.key_image)) is Err,
        verdict(other, spent.insert(tx.signature.key_image)) is Err,
{
}

/// An amount, a ring and the signature that binds them.
pub struct PrivateTransaction {
    amount: u64,
    ring: Vec<Point>,
    binding: Vec<u8>,
    signature: RingSignature,
}

impl View for PrivateTransaction {
    type V = PrivateTransactionView;

    closed spec fn view(&self) -> PrivateTransactionView {
        PrivateTransactionView {
            amount: self.amount as nat,
            ring: point_values(self.ring@),
            binding: self.binding@,
            signature: self.signature@,
        }
    }
}

impl PrivateTransaction {
    /// A transaction is valid when its points and its signature are.
    pub closed spec fn wf(&self) -> bool {
        points_wf(self.ring@) && self.signature.wf()
    }

    /// A transaction of given parts, as they come off the wire.
    pub fn from_parts(
        amount: u64,
        ring: Vec<Point>,
        binding: Vec<u8>,
        signature: RingSignature,
    ) -> (r: PrivateTransaction)
        requires
            points_wf(ring@),
            signature.wf(),
        ensures
            r.wf(),
            r@ == (PrivateTransactionView {
                amount: amount as nat,
                ring: point_values(ring@),
                binding: binding@,
                signature: signature@,
            }),
    {
        PrivateTransaction { amount, ring, binding, signature }
    }

    /// The amount.
    pub fn amount(&self) -> (r: u64)
        ensures
            r == self@.amount,
    {
        self.amount
    }

    /// The ring.
    pub fn ring(&self) -> (r: &Vec<Point>)
        requires
            self.wf(),
        ensures
            points_wf(r@),
            point_values(r@) == self@.ring,
    {
        &self.ring
    }

    /// The caller's binding bytes.
    pub fn binding(&self) -> (r: &Vec<u8>)
        ensures
            r@ == self@.binding,
    {
        &self.binding
    }

    /// The signature.
    pub fn signature(&self) -> (r: &RingSignature)
        requires
            self.wf(),
        ensures
            r.wf(),
            r@ == self@.signature,
    {
        &self.signature
    }

    /// Assembles a transaction with given randomness: the signature signs
    /// the message that binds the amount, the ring and the binding bytes.
    pub fn create_with(
        amount: u64,
        ring: Vec<Point>,
        signer_index: usize,
        private_key: &PrivateKey,
        message_binding: Vec<u8>,
        nonce: &Scalar,
        decoys: &Vec<Scalar>,
    ) -> (r: Result<PrivateTransaction, Error>)
        requires
            points_wf(ring@),
            private_key.wf(),
            nonce.wf(),
            scalars_wf(decoys@),
        ensures
            ring.len() < 2 ==> (r matches Err(e) && e == Error::InvalidRingSize),
            ring.len() >= 2 && signer_index >= ring.len() ==> (r matches Err(e) && e
                == Error::IndexOutOfRange),
            ring.len() >= 2 && signer_index < ring.len() && decoys.len() != ring.len() ==> (
            r matches Err(e) && e == Error::MalformedSignature),
            ring.len() >= 2 && signer_index < ring.len() && decoys.len() == ring.len() ==> (
            r matches Ok(tx) && {
                &&& tx.wf()
                &&& tx@.amount == amount
                &&& tx@.ring == point_values(ring@)
                &&& tx@.binding == message_binding@
                &&& tx@.signature == signature_of(
                    signed_message(amount as nat, point_values(ring@), message_binding@),
                    point_values(ring@),
                    signer_index as int,
                    private_key@,
                    nonce@,
                    scalar_values(decoys@),
                )
                &&& ring@[signer_index as int]@ == public_key_of(private_key@) ==> forall|
                    spent: Set<nat>,
                |
                    !spent.contains(key_image_of(private_key@)) ==> #[trigger] verdict(tx@, spent)
                        == Ok::<(), TxError>(())
            }),
    {
        let message = build_message(amount, &ring, &message_binding);
        match RingSignature::generate_with(
            message.as_slice(),
            &ring,
            signer_index,
            private_key,
            nonce,
            decoys,
        ) {
            Ok(signature) => Ok(
                PrivateTransaction { amount, ring, binding: message_binding, signature },
            ),
            Err(e) => Err(e),
        }
    }

    /// Assembles a transaction, drawing the signature's randomness.
    pub fn create(
        amount: u64,
        ring: Vec<Point>,
        signer_index: usize,
        private_key: &PrivateKey,
        message_binding: Vec<u8>,
    ) -> (r: Result<PrivateTransaction, Error>)
        requires
            points_wf(ring@),
            private_key.wf(),
        ensures
            ring.len() < 2 ==> (r matches Err(e) && e == Error::InvalidRingSize),
            ring.len() >= 2 && signer_index >= ring.len() ==> (r matches Err(e) && e
                == Error::IndexOutOfRange),
            ring.len() >= 2 && signer_index < ring.len() ==> (r matches Ok(tx) && {
                &&& tx.wf()
                &&& tx@.amount == amount
                &&& tx@.ring == point_values(ring@)
                &&& tx@.binding == message_binding@
                &&& tx@.signature.responses.len() == ring.len()
                &&& tx@.signature.key_image == key_image_of(private_key@)
                &&& ring@[signer_index as int]@ == public_key_of(private_key@) ==> forall|
                    spent: Set<nat>,
                |
                    !spent.contains(key_image_of(private_key@)) ==> #[trigger] verdict(tx@, spent)
                        == Ok::<(), TxError>(())
            }),
    {
        let message = build_message(amount, &ring, &message_binding);
        match RingSignature::generate(message.as_slice(), &ring, signer_index, private_key) {
            Ok(signature) => Ok(
                PrivateTransaction { amount, ring, binding: message_binding, signature },
            ),
            Err(e) => Err(e),
        }
    }

    /// Checks the transaction: first the signature against the message
    /// rebuilt from the amount and the ring, then the key image against
    /// the registry.
    pub fn verify(&self, registry: &KeyImageRegistry) -> (r: Result<(), TxError>)
        requires
            self.wf(),
        ensures
            r == verdict(self@, registry@),
    {
        let message = build_message(self.amount, &self.ring, &self.binding);
        match self.signature.verify(message.as_slice(), &self.ring) {
            Err(Error::InvalidRingSize) => Err(TxError::InvalidRingSize),
            Err(_) => Err(TxError::MalformedSignature),
            Ok(false) => Err(TxError::InvalidSignature),
            Ok(true) => {
                let image = self.signature.key_image();
                if registry.contains(&image) {
                    Err(TxError::DoubleSpend)
                } else {
                    Ok(())
                }
            },
        }
    }

    /// Checks the transaction and, if it passes, records its key image, in
    /// one step on the registry: the image is recorded exactly when the
    /// transaction is accepted.
    pub fn commit(&self, registry: &mut KeyImageRegistry) -> (r: Result<(), TxError>)
        requires
            self.wf(),
        ensures
            r == verdict(self@, old(registry)@),
            r is Ok ==> final(registry)@ == old(registry)@.insert(self@.signature.key_image),
            r is Err ==> final(registry)@ == old(registry)@,
    {
        match self.verify(registry) {
            Ok(()) => {
                let image = self.signature.key_image();
                match registry.register(&image) {
                    Ok(()) => Ok(()),
                    Err(_) => Err(TxError::DoubleSpend),
                }
            },
            Err(e) => Err(e),
        }
    }
}

} // verus!
