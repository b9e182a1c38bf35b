//! A direction in the plane: a vector of unit length.

use vstd::prelude::*;
use crate::scalar::Scalar;
use crate::vec2::Vec2;

verus! {

/// Why a vector was refused as a direction.
#[derive(Clone, Copy, Debug, PartialEq, Eq, Structural)]
pub enum InvalidDirectionError {
    /// A coordinate is an infinity or a NaN.
    NotFinite,
    /// The vector is the zero vector, which points nowhere.
    Zero,
    /// The vector has a direction, but its length is not one.
    NotNormalized,
}

/// A normalized vector pointing in a direction in the plane.
///
/// The vector is private and nothing changes it after construction, so a
/// direction that was normalized when it was made stays so.
#[derive(Clone, Copy, Debug)]
pub struct Direction2d(Vec2);

impl View for Direction2d {
    type V = Vec2;

    /// The vector that the direction holds.
    closed spec fn view(&self) -> Vec2 {
        self.0
    }
}

impl Direction2d {
    /// The direction holds a vector of unit length.
    pub open spec fn well_formed(&self) -> bool {
        self@.is_unit()
    }

    /// Makes a direction of a vector that is already normalized. The vector
    /// is taken as it is, unchecked: the direction is normalized exactly when
    /// the vector has unit length.
    pub fn from_normalized(value: Vec2) -> (d: Direction2d)
        ensures
            d@ == value,
            d.well_formed() <==> value.is_unit(),
    {
        Direction2d(value)
    }

    /// Makes a direction of a vector after testing that it is normalized.
    /// A vector of unit length is taken as it is; any other is refused, with
    /// the first reason that holds of it.
    pub fn try_from_normalized(value: Vec2) -> (r: Result<Direction2d, InvalidDirectionError>)
        ensures
            r.is_ok() <==> value.is_unit(),
            match r {
                Ok(d) => value.is_unit() && d@ == value && d.well_formed(),
                Err(InvalidDirectionError::NotFinite) => !value.is_finite_spec(),
                Err(InvalidDirectionError::Zero) => value.is_finite_spec() && value.is_zero_spec(),
                Err(InvalidDirectionError::NotNormalized) => value.has_direction()
                    && !value.is_unit(),
            },
    {
        if !value.is_finite() {
            Err(InvalidDirectionError::NotFinite)
        } else if !value.is_normalizable() {
            Err(InvalidDirectionError::Zero)
        } else if !value.is_normalized() {
            Err(InvalidDirectionError::NotNormalized)
        } else {
            Ok(Direction2d(value))
        }
    }

    /// The vector of the direction.
    pub fn vector(&self) -> (v: Vec2)
        ensures
            v == self@,
    {
        self.0
    }

    /// The first coordinate of the direction's vector.
    pub fn x(&self) -> (x: Scalar)
        ensures
            x == self@.x,
    {
        self.0.x
    }

    /// The second coordinate of the direction's vector.
    pub fn y(&self) -> (y: Scalar)
        ensures
            y == self@.y,
    {
        self.0.y
    }
}

impl core::ops::Deref for Direction2d {
    type Target = Vec2;

    fn deref(&self) -> (v: &Vec2)
        ensures
            *v == self@,
    {
        &self.0
    }
}

/// Reading back a direction made by `from_normalized` gives the vector it was
/// made of, bit for bit, whether or not that vector has unit length.
pub proof fn lemma_from_normalized_round_trip(value: Vec2, d: Direction2d, read: Vec2)
    requires
        call_ensures(Direction2d::from_normalized, (value,), d),
        call_ensures(Direction2d::vector, (&d,), read),
    ensures
        read == value,
        read.x.bits == value.x.bits,
        read.y.bits == value.y.bits,
{
}

/// On a vector of unit length the two constructors agree: the checked one
/// succeeds, and with the same direction that the unchecked one makes.
pub proof fn lemma_constructors_agree_on_unit_vectors(
    value: Vec2,
    unchecked: Direction2d,
    checked: Result<Direction2d, InvalidDirectionError>,
)
    requires
        value.is_unit(),
        call_ensures(Direction2d::from_normalized, (value,), unchecked),
        call_ensures(Direction2d::try_from_normalized, (value,), checked),
    ensures
        checked == Ok::<Direction2d, InvalidDirectionError>(unchecked),
{
    value.lemma_unit_has_direction();
}

} // verus!
