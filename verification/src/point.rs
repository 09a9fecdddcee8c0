//! Points: the elements of the group.

use vstd::prelude::*;
use crate::error::Error;
use crate::group::{
    GENERATOR, in_group, in_group_exec, lemma_generator_in_group, lemma_mul_closed,
    lemma_pow_closed, mul_mod, mul_mod_exec, pow_mod, pow_mod_exec,
};
use crate::scalar::Scalar;

verus! {

/// An element of the group, held as its residue.
#[derive(Clone, Copy, Debug, PartialEq, Eq)]
pub struct Point {
    value: u64,
}

impl View for Point {
    type V = nat;

    closed spec fn view(&self) -> nat {
        self.value as nat
    }
}

impl Point {
    /// A point is valid when its residue is an element of the group.
    pub open spec fn wf(&self) -> bool {
        in_group(self@)
    }

    /// The base point.
    pub fn base() -> (r: Point)
        ensures
            r.wf(),
            r@ == GENERATOR,
    {
        proof {
            lemma_generator_in_group();
        }
        Point { value: GENERATOR }
    }

    /// The point that an encoding stands for; an encoding that is no
    /// element of the group is refused.
    pub fn decode(encoding: u64) -> (r: Result<Point, Error>)
        ensures
            in_group(encoding as nat) ==> r.is_ok() && r.unwrap()@ == encoding && r.unwrap().wf(),
            !in_group(encoding as nat) ==> r == Err::<Point, Error>(Error::InvalidPoint),
    {
        if in_group_exec(encoding) {
            Ok(Point { value: encoding })
        } else {
            Err(Error::InvalidPoint)
        }
    }

    /// The fixed-width encoding of the point.
    pub fn encode(&self) -> (r: u64)
        ensures
            r == self@,
    {
        self.value
    }

    /// Whether two points are the same element.
    pub fn equals(&self, other: &Point) -> (r: bool)
        ensures
            r == (self@ == other@),
    {
        self.value == other.value
    }

    /// Whether the point is the neutral element of the group.
    pub fn is_identity(&self) -> (r: bool)
        ensures
            r == (self@ == 1),
    {
        self.value == 1
    }

    /// The group operation on two points.
    pub fn add(&self, other: &Point) -> (r: Point)
        requires
            self.wf(),
            other.wf(),
        ensures
            r.wf(),
            r@ == mul_mod(self@, other@),
    {
        proof {
            lemma_mul_closed(self@, other@);
        }
        Point { value: mul_mod_exec(self.value, other.value) }
    }

    /// The point taken `k` times.
    pub fn scalar_mul(&self, k: &Scalar) -> (r: Point)
        requires
            self.wf(),
        ensures
            r.wf(),
            r@ == pow_mod(self@, k@),
    {
        proof {
            lemma_pow_closed(self@, k@);
        }
        Point { value: pow_mod_exec(self.value, k.value()) }
    }
}

} // verus!
