use std::ops::{Add, Div, Mul, Sub};
use vstd::prelude::*;
use vstd::std_specs::cmp::PartialEqSpec;
use vstd::std_specs::ops::{AddSpec, DivSpec, MulSpec, SubSpec};

verus! {

/// A numeric type: it has an additive identity, and its comparison and its
/// four arithmetic operators mean what their specifications say.
///
/// The primitive integers are numeric. Time deltas and the values that the
/// arithmetic combinators work on are of such a type.
pub trait Numeric: Sized + PartialEq + Add<Output = Self> + Sub<Output = Self> + Mul<
    Output = Self,
> + Div<Output = Self> {
    /// The additive identity of this type.
    spec fn zero_value() -> Self;

    fn zero() -> (z: Self)
        ensures
            z == Self::zero_value(),
    ;

    /// `==` is equality of values, and each operator returns what its
    /// specification computes.
    proof fn lemma_operators_obey()
        ensures
            Self::obeys_eq_spec(),
            forall|a: Self, b: Self| #[trigger] a.eq_spec(&b) == (a == b),
            Self::obeys_add_spec(),
            Self::obeys_sub_spec(),
            Self::obeys_mul_spec(),
            Self::obeys_div_spec(),
    ;
}

/// A numeric type whose values can be negative.
pub trait SignedNumeric: Numeric {
    /// Whether the value lies below zero.
    spec fn negative(self) -> bool;

    fn is_negative(&self) -> (b: bool)
        ensures
            b == self.negative(),
    ;
}

/// The primitive integer types, each value with the integer it stands for.
/// Only this module implements it, for the twelve types below.
trait Primitive: Sized {
    spec fn value(self) -> int;
}

/// `num_traits::zero`, at a primitive integer type. There it returns the
/// literal `0` of that type.
#[verifier::external_body]
fn num_zero<T: Primitive + num_traits::Zero>() -> (z: T)
    ensures
        z.value() == 0,
{
    num_traits::zero()
}

/// `num_traits::Signed::is_negative`, at a primitive signed integer type.
/// There it compares the number with `0`: it is true exactly of the numbers
/// below zero.
#[verifier::external_body]
fn num_is_negative<T: Primitive + num_traits::Signed>(x: &T) -> (b: bool)
    ensures
        b == (x.value() < 0),
{
    num_traits::Signed::is_negative(x)
}

impl Primitive for i8 {
    spec fn value(self) -> int {
        self as int
    }
}

impl Numeric for i8 {
    open spec fn zero_value() -> i8 {
        0
    }

    fn zero() -> (z: i8) {
        num_zero::<i8>()
    }

    proof fn lemma_operators_obey() {
    }
}

impl SignedNumeric for i8 {
    open spec fn negative(self) -> bool {
        self < 0
    }

    fn is_negative(&self) -> (b: bool) {
        num_is_negative::<i8>(self)
    }
}

impl Primitive for i16 {
    spec fn value(self) -> int {
        self as int
    }
}

impl Numeric for i16 {
    open spec fn zero_value() -> i16 {
        0
    }

    fn zero() -> (z: i16) {
        num_zero::<i16>()
    }

    proof fn lemma_operators_obey() {
    }
}

impl SignedNumeric for i16 {
    open spec fn negative(self) -> bool {
        self < 0
    }

    fn is_negative(&self) -> (b: bool) {
        num_is_negative::<i16>(self)
    }
}

impl Primitive for i32 {
    spec fn value(self) -> int {
        self as int
    }
}

impl Numeric for i32 {
    open spec fn zero_value() -> i32 {
        0
    }

    fn zero() -> (z: i32) {
        num_zero::<i32>()
    }

    proof fn lemma_operators_obey() {
    }
}

impl SignedNumeric for i32 {
    open spec fn negative(self) -> bool {
        self < 0
    }

    fn is_negative(&self) -> (b: bool) {
        num_is_negative::<i32>(self)
    }
}

impl Primitive for i64 {
    spec fn value(self) -> int {
        self as int
    }
}

impl Numeric for i64 {
    open spec fn zero_value() -> i64 {
        0
    }

    fn zero() -> (z: i64) {
        num_zero::<i64>()
    }

    proof fn lemma_operators_obey() {
    }
}

impl SignedNumeric for i64 {
    open spec fn negative(self) -> bool {
        self < 0
    }

    fn is_negative(&self) -> (b: bool) {
        num_is_negative::<i64>(self)
    }
}

impl Primitive for i128 {
    spec fn value(self) -> int {
        self as int
    }
}

impl Numeric for i128 {
    open spec fn zero_value() -> i128 {
        0
    }

    fn zero() -> (z: i128) {
        num_zero::<i128>()
    }

    proof fn lemma_operators_obey() {
    }
}

impl SignedNumeric for i128 {
    open spec fn negative(self) -> bool {
        self < 0
    }

    fn is_negative(&self) -> (b: bool) {
        num_is_negative::<i128>(self)
    }
}

impl Primitive for isize {
    spec fn value(self) -> int {
        self as int
    }
}

impl Numeric for isize {
    open spec fn zero_value() -> isize {
        0
    }

    fn zero() -> (z: isize) {
        num_zero::<isize>()
    }

    proof fn lemma_operators_obey() {
    }
}

impl SignedNumeric for isize {
    open spec fn negative(self) -> bool {
        self < 0
    }

    fn is_negative(&self) -> (b: bool) {
        num_is_negative::<isize>(self)
    }
}

impl Primitive for u8 {
    spec fn value(self) -> int {
        self as int
    }
}

impl Numeric for u8 {
    open spec fn zero_value() -> u8 {
        0
    }

    fn zero() -> (z: u8) {
        num_zero::<u8>()
    }

    proof fn lemma_operators_obey() {
    }
}

impl Primitive for u16 {
    spec fn value(self) -> int {
        self as int
    }
}

impl Numeric for u16 {
    open spec fn zero_value() -> u16 {
        0
    }

    fn zero() -> (z: u16) {
        num_zero::<u16>()
    }

    proof fn lemma_operators_obey() {
    }
}

impl Primitive for u32 {
    spec fn value(self) -> int {
        self as int
    }
}

impl Numeric for u32 {
    open spec fn zero_value() -> u32 {
        0
    }

    fn zero() -> (z: u32) {
        num_zero::<u32>()
    }

    proof fn lemma_operators_obey() {
    }
}

impl Primitive for u64 {
    spec fn value(self) -> int {
        self as int
    }
}

impl Numeric for u64 {
    open spec fn zero_value() -> u64 {
        0
    }

    fn zero() -> (z: u64) {
        num_zero::<u64>()
    }

    proof fn lemma_operators_obey() {
    }
}

impl Primitive for u128 {
    spec fn value(self) -> int {
        self as int
    }
}

impl Numeric for u128 {
    open spec fn zero_value() -> u128 {
        0
    }

    fn zero() -> (z: u128) {
        num_zero::<u128>()
    }

    proof fn lemma_operators_obey() {
    }
}

impl Primitive for usize {
    spec fn value(self) -> int {
        self as int
    }
}

impl Numeric for usize {
    open spec fn zero_value() -> usize {
        0
    }

    fn zero() -> (z: usize) {
        num_zero::<usize>()
    }

    proof fn lemma_operators_obey() {
    }
}

} // verus!
