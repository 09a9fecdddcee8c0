//! Scalars: integers modulo the group order.

use vstd::prelude::*;
use vstd::arithmetic::div_mod::*;
use crate::error::Error;
use crate::group::{ORDER, scalar_sum, scalar_difference, scalar_product};

verus! {

/// An integer modulo the group order.
#[derive(Clone, Copy, Debug, PartialEq, Eq)]
pub struct Scalar {
    value: u64,
}

impl View for Scalar {
    type V = nat;

    closed spec fn view(&self) -> nat {
        self.value as nat
    }
}

impl Scalar {
    /// A scalar is valid when it is reduced modulo the group order.
    pub open spec fn wf(&self) -> bool {
        self@ < ORDER
    }

    /// The scalar of a reduced integer; any other integer is refused.
    pub fn new(value: u64) -> (r: Result<Scalar, Error>)
        ensures
            value < ORDER ==> r.is_ok() && r.unwrap()@ == value && r.unwrap().wf(),
            value >= ORDER ==> r == Err::<Scalar, Error>(Error::InvalidScalar),
    {
        if value < ORDER {
            Ok(Scalar { value })
        } else {
            Err(Error::InvalidScalar)
        }
    }

    /// The scalar that an arbitrary integer reduces to.
    pub fn reduce(value: u64) -> (r: Scalar)
        ensures
            r.wf(),
            r@ == (value as nat) % (ORDER as nat),
    {
        Scalar { value: value % ORDER }
    }

    /// The reduced integer that stands for the scalar.
    pub fn value(&self) -> (r: u64)
        ensures
            r == self@,
    {
        self.value
    }

    /// Whether two scalars are the same integer.
    pub fn equals(&self, other: &Scalar) -> (r: bool)
        ensures
            r == (self@ == other@),
    {
        self.value == other.value
    }

    /// Sum modulo the group order.
    pub fn add(&self, other: &Scalar) -> (r: Scalar)
        requires
            self.wf(),
            other.wf(),
        ensures
            r.wf(),
            r@ == scalar_sum(self@, other@),
    {
        let wide: u128 = self.value as u128 + other.value as u128;
        let reduced: u128 = wide % (ORDER as u128);
        Scalar { value: reduced as u64 }
    }

    /// Difference modulo the group order.
    pub fn sub(&self, other: &Scalar) -> (r: Scalar)
        requires
            self.wf(),
            other.wf(),
        ensures
            r.wf(),
            r@ == scalar_difference(self@, other@),
    {
        let lifted: u64 = self.value + (ORDER - other.value);
        proof {
            lemma_mod_add_multiples_vanish(self.value as int - other.value as int, ORDER as int);
        }
        Scalar { value: lifted % ORDER }
    }

    /// Product modulo the group order.
    pub fn mul(&self, other: &Scalar) -> (r: Scalar)
        requires
            self.wf(),
            other.wf(),
        ensures
            r.wf(),
            r@ == scalar_product(self@, other@),
    {
        assert(self.value as u128 * other.value as u128 <= 0x1000_0000_0000_0000u128
            * 0x1000_0000_0000_0000u128) by (nonlinear_arith)
            requires
                self.value < 0x1000_0000_0000_0000u128,
                other.value < 0x1000_0000_0000_0000u128,
        ;
        let wide: u128 = (self.value as u128) * (other.value as u128);
        let reduced: u128 = wide % (ORDER as u128);
        Scalar { value: reduced as u64 }
    }
}

} // verus!
