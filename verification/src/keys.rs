//! Private keys, the public keys that belong to them, and key images.

use vstd::prelude::*;
use crate::error::Error;
use crate::group::{GENERATOR, ORDER, pow_mod};
use crate::encoding::{be_bytes, push_be_bytes};
use crate::hash::{hash_to_point, point_hash};
use crate::point::Point;
use crate::scalar::Scalar;

verus! {

/// The public key of the private scalar `x`: the base point taken `x` times.
pub open spec fn public_key_of(x: nat) -> nat {
    pow_mod(GENERATOR as nat, x)
}

/// The point that a ring member's key images are built on: the hash of the
/// member's encoding.
pub open spec fn key_base(member: nat) -> nat {
    point_hash(be_bytes(member))
}

/// The key image of the private scalar `x`: the base of its own public key
/// taken `x` times.  It depends on nothing but `x`.
pub open spec fn key_image_of(x: nat) -> nat {
    pow_mod(key_base(public_key_of(x)), x)
}

/// Computes the point that a ring member's key images are built on.
pub fn key_base_point(member: &Point) -> (r: Point)
    ensures
        r.wf(),
        r@ == key_base(member@),
{
    let mut buf: Vec<u8> = Vec::new();
    push_be_bytes(&mut buf, member.encode());
    assert(buf@ =~= be_bytes(member@));
    hash_to_point(buf.as_slice())
}

/// A private signing scalar.  It has no formatting and no copy.
pub struct PrivateKey {
    secret: Scalar,
}

impl View for PrivateKey {
    type V = nat;

    closed spec fn view(&self) -> nat {
        self.secret@
    }
}

impl PrivateKey {
    /// A private key is valid when it is a nonzero reduced scalar.
    pub open spec fn wf(&self) -> bool {
        0 < self@ < ORDER
    }

    /// The private key of a nonzero reduced integer; any other integer is
    /// refused.
    pub fn new(value: u64) -> (r: Result<PrivateKey, Error>)
        ensures
            0 < value < ORDER ==> r.is_ok() && r.unwrap()@ == value && r.unwrap().wf(),
            !(0 < value < ORDER) ==> (r matches Err(e) && e == Error::InvalidScalar),
    {
        if value == 0 {
            return Err(Error::InvalidScalar);
        }
        match Scalar::new(value) {
            Ok(secret) => Ok(PrivateKey { secret }),
            Err(e) => Err(e),
        }
    }

    /// The scalar of the key, for the arithmetic of signing.
    pub(crate) fn scalar(&self) -> (r: &Scalar)
        ensures
            r@ == self@,
    {
        &self.secret
    }

    /// The public key that belongs to this private key.
    pub fn public_key(&self) -> (r: Point)
        requires
            self.wf(),
        ensures
            r.wf(),
            r@ == public_key_of(self@),
    {
        Point::base().scalar_mul(&self.secret)
    }

    /// The key image of this private key.
    pub fn key_image(&self) -> (r: Point)
        requires
            self.wf(),
        ensures
            r.wf(),
            r@ == key_image_of(self@),
    {
        let public = self.public_key();
        key_base_point(&public).scalar_mul(&self.secret)
    }
}

/// A private key together with its public key.
pub struct KeyPair {
    private: PrivateKey,
    public: Point,
}

impl KeyPair {
    /// A pair is valid when the public key is the one of the private key.
    pub closed spec fn wf(&self) -> bool {
        self.private.wf() && self.public.wf() && self.public@ == public_key_of(self.private@)
    }

    /// The private scalar of the pair, as an integer.
    pub closed spec fn secret(&self) -> nat {
        self.private@
    }

    /// The pair of a private key.
    pub fn from_private(private: PrivateKey) -> (r: KeyPair)
        requires
            private.wf(),
        ensures
            r.wf(),
            r.secret() == private@,
    {
        let public = private.public_key();
        KeyPair { private, public }
    }

    /// The private half.
    pub fn private_key(&self) -> (r: &PrivateKey)
        requires
            self.wf(),
        ensures
            r.wf(),
            r@ == self.secret(),
    {
        &self.private
    }

    /// The public half.
    pub fn public_key(&self) -> (r: Point)
        requires
            self.wf(),
        ensures
            r.wf(),
            r@ == public_key_of(self.secret()),
    {
        self.public
    }
}

} // verus!
